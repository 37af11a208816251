//! Capability negotiation: reducing the configuration ranges a device
//! reports to finite, ordered candidate lists, and building the session's
//! stream configuration from the user's choices.

use vstd::prelude::*;

verus! {

/// The stride, in frames, at which a supported buffer-size range is
/// sampled when building the candidate list.
pub const BUFFER_STRIDE: u32 = 256;

/// A stream configuration for one recording session: mono capture at a
/// chosen sample rate and buffer size.
#[derive(Clone, Copy, PartialEq, Eq, Structural, Debug)]
pub struct StreamConfiguration {
    pub channels: u16,
    pub sample_rate: u32,
    pub buffer_size: u32,
}

impl StreamConfiguration {
    /// A configuration is well formed when it is mono with a positive
    /// sample rate and buffer size.
    pub open spec fn wf(self) -> bool {
        self.channels == 1 && self.sample_rate > 0 && self.buffer_size > 0
    }

    /// Build the session configuration from the negotiated choices.
    /// The channel count is always 1: capture is mono by design.
    pub fn new(sample_rate: u32, buffer_size: u32) -> (c: StreamConfiguration)
        requires
            sample_rate > 0,
            buffer_size > 0,
        ensures
            c.channels == 1,
            c.sample_rate == sample_rate,
            c.buffer_size == buffer_size,
            c.wf(),
    {
        StreamConfiguration { channels: 1, sample_rate, buffer_size }
    }
}

/// What a device reports for one supported configuration range: the
/// extreme sample rates in Hz, and the supported buffer sizes in frames
/// (either a closed range or unknown).
#[derive(Clone, Copy, PartialEq, Eq, Structural, Debug)]
pub struct SupportedRange {
    pub min_sample_rate: u32,
    pub max_sample_rate: u32,
    pub buffer_sizes: BufferCapability,
}

/// The buffer sizes one configuration range supports.
#[derive(Clone, Copy, PartialEq, Eq, Structural, Debug)]
pub enum BufferCapability {
    Range { min: u32, max: u32 },
    Unknown,
}

/// A sequence is sorted in strictly ascending order.
pub open spec fn strictly_sorted(s: Seq<u32>) -> bool {
    forall|i: int, j: int| 0 <= i < j < s.len() ==> s[i] < s[j]
}

/// Strict ascending order leaves no room for duplicates: distinct
/// positions hold distinct values.
pub proof fn lemma_strictly_sorted_distinct(s: Seq<u32>)
    requires
        strictly_sorted(s),
    ensures
        forall|i: int, j: int| 0 <= i < s.len() && 0 <= j < s.len() && i != j ==> s[i] != s[j],
{
}

/// A strictly sorted sequence is determined by its element set: two such
/// sequences with the same elements are equal. With the contracts of the
/// candidate lists, which fix order and element set, this pins each list
/// down completely.
pub proof fn lemma_strictly_sorted_unique(a: Seq<u32>, b: Seq<u32>)
    requires
        strictly_sorted(a),
        strictly_sorted(b),
        forall|y: u32| a.contains(y) <==> b.contains(y),
    ensures
        a == b,
    decreases a.len(),
{
    if a.len() == 0 {
        if b.len() > 0 {
            assert(b.contains(b[0]));
            assert(a.contains(b[0]));
        }
        assert(a =~= b);
    } else {
        assert(a.contains(a[0]));
        assert(b.contains(a[0]));
        if b.len() == 0 {
            assert(!b.contains(a[0]));
        }
        assert(b.contains(b[0]));
        assert(a.contains(b[0]));
        let i = choose|i: int| 0 <= i < a.len() && a[i] == b[0];
        let j = choose|j: int| 0 <= j < b.len() && b[j] == a[0];
        assert(a[0] <= a[i] && b[0] <= b[j]);
        assert(a[0] == b[0]);
        let at = a.subrange(1, a.len() as int);
        let bt = b.subrange(1, b.len() as int);
        assert forall|y: u32| at.contains(y) implies (a.contains(y) && y != a[0]) by {
            let k = choose|k: int| 0 <= k < at.len() && at[k] == y;
            assert(a[k + 1] == y);
            assert(a[0] < a[k + 1]);
        }
        assert forall|y: u32| a.contains(y) && y != a[0] implies at.contains(y) by {
            let k = choose|k: int| 0 <= k < a.len() && a[k] == y;
            assert(k > 0);
            assert(at[k - 1] == y);
        }
        assert forall|y: u32| bt.contains(y) implies (b.contains(y) && y != b[0]) by {
            let k = choose|k: int| 0 <= k < bt.len() && bt[k] == y;
            assert(b[k + 1] == y);
            assert(b[0] < b[k + 1]);
        }
        assert forall|y: u32| b.contains(y) && y != b[0] implies bt.contains(y) by {
            let k = choose|k: int| 0 <= k < b.len() && b[k] == y;
            assert(k > 0);
            assert(bt[k - 1] == y);
        }
        lemma_strictly_sorted_unique(at, bt);
        assert(at.len() == bt.len());
        assert forall|k: int| 0 <= k < a.len() implies a[k] == b[k] by {
            if k > 0 {
                assert(at[k - 1] == bt[k - 1]);
            }
        }
        assert(a =~= b);
    }
}

/// Insert `x` into a strictly sorted vector, keeping it strictly sorted;
/// if `x` is already present nothing changes. The element set afterwards
/// is the old set plus `x`.
fn insert_unique_sorted(v: &mut Vec<u32>, x: u32)
    requires
        strictly_sorted(old(v)@),
    ensures
        strictly_sorted(final(v)@),
        forall|y: u32| final(v)@.contains(y) <==> (old(v)@.contains(y) || y == x),
{
    let mut i: usize = 0;
    while i < v.len() && v[i] < x
        invariant
            i <= v@.len(),
            strictly_sorted(v@),
            v@ == old(v)@,
            forall|k: int| 0 <= k < i ==> v@[k] < x,
        decreases v@.len() - i,
    {
        i = i + 1;
    }
    if i < v.len() && v[i] == x {
        assert(v@.contains(x));
        return ;
    }
    proof {
        v@.insert_ensures(i as int, x);
    }
    let ghost pre = v@;
    v.insert(i, x);
    assert forall|y: u32| v@.contains(y) implies (pre.contains(y) || y == x) by {
        let j = choose|j: int| 0 <= j < v@.len() && v@[j] == y;
        if j < i {
            assert(pre[j] == y);
        } else if j > i {
            assert(pre[j - 1] == y);
        }
    }
    assert forall|y: u32| pre.contains(y) || y == x implies v@.contains(y) by {
        if pre.contains(y) {
            let j = choose|j: int| 0 <= j < pre.len() && pre[j] == y;
            if j < i {
                assert(v@[j] == y);
            } else {
                assert(v@[j + 1] == y);
            }
        } else {
            assert(v@[i as int] == x);
        }
    }
    assert forall|p: int, q: int| 0 <= p < q < v@.len() implies v@[p] < v@[q] by {
        if p < i && q < i {
        } else if p < i && q == i {
            assert(v@[p] == pre[p]);
        } else if p < i && q > i {
            assert(v@[p] == pre[p] && v@[q] == pre[q - 1]);
            if q - 1 == i {
                assert(pre[i as int] != x);
                assert(pre[p] < x);
                assert(x <= pre[i as int]);
            }
        } else if p == i && q > i {
            assert(v@[q] == pre[q - 1]);
            assert(pre[i as int] != x);
            assert(x <= pre[i as int]);
            if q - 1 > i {
                assert(pre[i as int] < pre[q - 1]);
            }
        } else {
            assert(v@[p] == pre[p - 1] && v@[q] == pre[q - 1]);
        }
    }
}

/// `y` is one of the sample-rate endpoints of the first `n` ranges.
pub open spec fn rate_endpoint(ranges: Seq<SupportedRange>, n: int, y: u32) -> bool {
    exists|k: int|
        0 <= k < n && (ranges[k].min_sample_rate == y || ranges[k].max_sample_rate == y)
}

/// Reduce the reported ranges to the candidate sample rates offered for
/// selection: the minimum and maximum rate of every range, in strictly
/// ascending order with no duplicates.
pub fn candidate_sample_rates(ranges: &Vec<SupportedRange>) -> (r: Vec<u32>)
    ensures
        strictly_sorted(r@),
        forall|y: u32| r@.contains(y) <==> rate_endpoint(ranges@, ranges@.len() as int, y),
{
    let mut out: Vec<u32> = Vec::new();
    let mut k: usize = 0;
    while k < ranges.len()
        invariant
            k <= ranges@.len(),
            strictly_sorted(out@),
            forall|y: u32| out@.contains(y) <==> rate_endpoint(ranges@, k as int, y),
        decreases ranges@.len() - k,
    {
        let rg = ranges[k];
        insert_unique_sorted(&mut out, rg.min_sample_rate);
        insert_unique_sorted(&mut out, rg.max_sample_rate);
        assert forall|y: u32| out@.contains(y) implies rate_endpoint(ranges@, k + 1, y) by {
            if rate_endpoint(ranges@, k as int, y) {
                let w = choose|w: int|
                    0 <= w < k && (ranges@[w].min_sample_rate == y || ranges@[w].max_sample_rate
                        == y);
                assert(0 <= w < k + 1 && (ranges@[w].min_sample_rate == y
                    || ranges@[w].max_sample_rate == y));
            } else {
                assert(ranges@[k as int].min_sample_rate == y || ranges@[k as int].max_sample_rate
                    == y);
            }
        }
        assert forall|y: u32| rate_endpoint(ranges@, k + 1, y) implies out@.contains(y) by {
            let w = choose|w: int|
                0 <= w < k + 1 && (ranges@[w].min_sample_rate == y || ranges@[w].max_sample_rate
                    == y);
            if w < k {
                assert(rate_endpoint(ranges@, k as int, y));
            }
        }
        k = k + 1;
    }
    out
}

/// The `t`-th sampled value of a range that starts at `min`.
pub open spec fn stride_value(min: u32, t: nat) -> int {
    min + BUFFER_STRIDE * t
}

/// `y` is one of the values sampled from `[min, max]` at the stride:
/// `min + BUFFER_STRIDE * t` for some `t`, not exceeding `max`.
pub open spec fn in_stride(min: u32, max: u32, y: u32) -> bool {
    exists|t: nat| y == #[trigger] stride_value(min, t) && y <= max
}

/// `y` is one of the sampled buffer sizes of capability `cap`. An unknown
/// capability offers no sizes.
pub open spec fn stride_candidate(cap: BufferCapability, y: u32) -> bool {
    match cap {
        BufferCapability::Range { min, max } => in_stride(min, max, y),
        BufferCapability::Unknown => false,
    }
}

/// `y` is a sampled buffer size of one of the first `n` ranges.
pub open spec fn buffer_candidate(ranges: Seq<SupportedRange>, n: int, y: u32) -> bool {
    exists|k: int| 0 <= k < n && stride_candidate(ranges[k].buffer_sizes, y)
}

/// Collect the sampled sizes of one closed range into `out`.
fn push_stride_candidates(out: &mut Vec<u32>, min: u32, max: u32)
    requires
        strictly_sorted(old(out)@),
    ensures
        strictly_sorted(final(out)@),
        forall|y: u32|
            final(out)@.contains(y) <==> (old(out)@.contains(y) || stride_candidate(
                BufferCapability::Range { min, max },
                y,
            )),
{
    let ghost cap = BufferCapability::Range { min, max };
    proof {
        assert(forall|y: u32| stride_candidate(cap, y) == in_stride(min, max, y));
    }
    if min > max {
        assert forall|y: u32| !in_stride(min, max, y) by {
            if in_stride(min, max, y) {
                let t = choose|t: nat| y == stride_value(min, t) && y <= max;
                assert(BUFFER_STRIDE * t >= 0) by (nonlinear_arith);
            }
        }
        return ;
    }
    let mut cur: u32 = min;
    let ghost mut steps: nat = 0;
    let ghost orig = out@;
    loop
        invariant_except_break
            forall|y: u32| #[trigger]
                out@.contains(y) ==> (orig.contains(y) || (in_stride(min, max, y) && y < cur)),
            forall|y: u32| #[trigger] in_stride(min, max, y) && y < cur ==> out@.contains(y),
            forall|y: u32| #[trigger] orig.contains(y) ==> out@.contains(y),
        invariant
            min <= cur <= max,
            cur == min + BUFFER_STRIDE * steps,
            strictly_sorted(out@),
        ensures
            strictly_sorted(out@),
            forall|y: u32| #[trigger]
                out@.contains(y) ==> (orig.contains(y) || in_stride(min, max, y)),
            forall|y: u32| #[trigger] in_stride(min, max, y) ==> out@.contains(y),
            forall|y: u32| #[trigger] orig.contains(y) ==> out@.contains(y),
        decreases max - cur,
    {
        let ghost before = out@;
        insert_unique_sorted(out, cur);
        proof {
            assert(cur == stride_value(min, steps));
            assert(in_stride(min, max, cur));
            assert forall|y: u32|
                out@.contains(y) implies (orig.contains(y) || in_stride(min, max, y)) by {
                if y != cur {
                    assert(before.contains(y));
                }
            }
        }
        if max - cur < BUFFER_STRIDE {
            proof {
                assert forall|y: u32| in_stride(min, max, y) implies out@.contains(y) by {
                    if y < cur {
                        assert(before.contains(y));
                    } else if y > cur {
                        let t = choose|t: nat| y == stride_value(min, t) && y <= max;
                        assert(BUFFER_STRIDE * t > BUFFER_STRIDE * steps);
                        assert(t > steps) by (nonlinear_arith)
                            requires
                                BUFFER_STRIDE * t > BUFFER_STRIDE * steps,
                        ;
                        assert(BUFFER_STRIDE * t >= BUFFER_STRIDE * steps + BUFFER_STRIDE)
                            by (nonlinear_arith)
                            requires
                                t >= steps + 1,
                        ;
                        assert(y >= cur + BUFFER_STRIDE);
                        assert(false);
                    }
                }
            }
            break ;
        }
        cur = cur + BUFFER_STRIDE;
        proof {
            let ghost prev = steps;
            steps = steps + 1;
            assert forall|y: u32| in_stride(min, max, y) && y < cur implies out@.contains(y) by {
                if y < cur - BUFFER_STRIDE {
                    assert(before.contains(y));
                } else if y > cur - BUFFER_STRIDE {
                    let t = choose|t: nat| y == stride_value(min, t) && y <= max;
                    assert(BUFFER_STRIDE * t > BUFFER_STRIDE * prev);
                    assert(t > prev) by (nonlinear_arith)
                        requires
                            BUFFER_STRIDE * t > BUFFER_STRIDE * prev,
                    ;
                    assert(BUFFER_STRIDE * t >= BUFFER_STRIDE * prev + BUFFER_STRIDE)
                        by (nonlinear_arith)
                        requires
                            t >= prev + 1,
                    ;
                    assert(y >= cur);
                    assert(false);
                }
            }
            assert forall|y: u32|
                out@.contains(y) implies (orig.contains(y) || (in_stride(min, max, y) && y
                < cur)) by {
                if y != cur - BUFFER_STRIDE {
                    assert(before.contains(y));
                }
            }
        }
    }
}

/// Reduce the reported ranges to the candidate buffer sizes offered for
/// selection: every closed range sampled from its minimum at a stride of
/// `BUFFER_STRIDE` frames up to its maximum, in strictly ascending order
/// with no duplicates. Unknown capabilities contribute nothing.
pub fn candidate_buffer_sizes(ranges: &Vec<SupportedRange>) -> (r: Vec<u32>)
    ensures
        strictly_sorted(r@),
        forall|y: u32| r@.contains(y) <==> buffer_candidate(ranges@, ranges@.len() as int, y),
{
    let mut out: Vec<u32> = Vec::new();
    let mut k: usize = 0;
    while k < ranges.len()
        invariant
            k <= ranges@.len(),
            strictly_sorted(out@),
            forall|y: u32| out@.contains(y) <==> buffer_candidate(ranges@, k as int, y),
        decreases ranges@.len() - k,
    {
        let rg = ranges[k];
        match rg.buffer_sizes {
            BufferCapability::Range { min, max } => {
                push_stride_candidates(&mut out, min, max);
                assert(ranges@[k as int].buffer_sizes == BufferCapability::Range { min, max });
            },
            BufferCapability::Unknown => {},
        }
        assert forall|y: u32| out@.contains(y) implies buffer_candidate(ranges@, k + 1, y) by {
            if buffer_candidate(ranges@, k as int, y) {
                let w = choose|w: int| 0 <= w < k && stride_candidate(ranges@[w].buffer_sizes, y);
                assert(0 <= w < k + 1 && stride_candidate(ranges@[w].buffer_sizes, y));
            } else {
                assert(stride_candidate(ranges@[k as int].buffer_sizes, y));
            }
        }
        assert forall|y: u32| buffer_candidate(ranges@, k + 1, y) implies out@.contains(y) by {
            let w = choose|w: int| 0 <= w < k + 1 && stride_candidate(ranges@[w].buffer_sizes, y);
            if w < k {
                assert(buffer_candidate(ranges@, k as int, y));
            } else {
                assert(stride_candidate(ranges@[k as int].buffer_sizes, y));
            }
        }
        k = k + 1;
    }
    out
}

/// Pick one entry from a candidate list by its index.
pub fn choose_candidate(candidates: &Vec<u32>, index: usize) -> (r: u32)
    requires
        index < candidates@.len(),
    ensures
        r == candidates@[index as int],
{
    candidates[index]
}

} // verus!
