//! The WAV exporter: turning the captured 16-bit samples into the exact
//! bytes of a mono, 16-bit PCM WAV file. The library produces the bytes;
//! writing them to disk happens outside. The encoding is pinned down to
//! the byte: a header of 44 bytes followed by each sample in little-endian
//! order, with the RIFF and data lengths filled in.

use vstd::prelude::*;

use crate::config::StreamConfiguration;

verus! {

/// The two little-endian bytes of a 16-bit value.
pub open spec fn le16_bytes(x: u16) -> Seq<u8> {
    seq![(x % 256) as u8, (x / 256) as u8]
}

/// The four little-endian bytes of a 32-bit value.
pub open spec fn le32_bytes(x: u32) -> Seq<u8> {
    seq![
        (x % 256) as u8,
        ((x / 256) % 256) as u8,
        ((x / 0x10000) % 256) as u8,
        (x / 0x1000000) as u8,
    ]
}

/// The 16-bit two's-complement pattern of a signed sample.
pub open spec fn u16_of_i16(s: i16) -> u16 {
    if s >= 0 {
        s as u16
    } else {
        (s + 0x10000) as u16
    }
}

/// The signed sample denoted by a 16-bit two's-complement pattern.
pub open spec fn i16_of_u16(b: u16) -> i16 {
    if b < 0x8000 {
        b as i16
    } else {
        (b - 0x10000) as i16
    }
}

/// Reading a pattern back gives the sample it came from.
pub proof fn lemma_sample_pattern_round_trip(s: i16)
    ensures
        i16_of_u16(u16_of_i16(s)) == s,
{
}

/// The data chunk: every sample as its two little-endian bytes, in
/// capture order.
pub open spec fn data_bytes(samples: Seq<i16>) -> Seq<u8>
    decreases samples.len(),
{
    if samples.len() == 0 {
        Seq::empty()
    } else {
        data_bytes(samples.drop_last()) + le16_bytes(u16_of_i16(samples.last()))
    }
}

/// The data chunk holds two bytes per sample.
pub proof fn lemma_data_bytes_len(samples: Seq<i16>)
    ensures
        data_bytes(samples).len() == 2 * samples.len(),
    decreases samples.len(),
{
    if samples.len() > 0 {
        lemma_data_bytes_len(samples.drop_last());
    }
}

/// The 44-byte header of a mono, 16-bit integer PCM WAV file whose data
/// chunk holds `data_len` bytes: the RIFF chunk with its total length,
/// the fmt chunk describing the stream, and the data chunk header.
pub open spec fn wav_header(sample_rate: u32, data_len: u32) -> Seq<u8>
    recommends
        sample_rate <= 0x7FFF_FFFF,
        data_len <= 0xFFFF_FFDB,
{
    seq![82u8, 73u8, 70u8, 70u8]  // "RIFF"
     + le32_bytes((36 + data_len) as u32)  // remaining file length
     + seq![87u8, 65u8, 86u8, 69u8]  // "WAVE"
     + seq![102u8, 109u8, 116u8, 32u8]  // "fmt "
     + le32_bytes(16)  // fmt chunk length
     + le16_bytes(1)  // integer PCM
     + le16_bytes(1)  // channels: mono
     + le32_bytes(sample_rate)  // frames per second
     + le32_bytes((2 * sample_rate) as u32)  // bytes per second
     + le16_bytes(2)  // block alignment
     + le16_bytes(16)  // bits per sample
     + seq![100u8, 97u8, 116u8, 97u8]  // "data"
     + le32_bytes(data_len)
}

/// A whole WAV file: the header followed by the data chunk.
pub open spec fn wav_bytes(sample_rate: u32, samples: Seq<i16>) -> Seq<u8>
    recommends
        sample_rate <= 0x7FFF_FFFF,
        samples.len() <= 0x7FFF_FFED,
{
    wav_header(sample_rate, (2 * samples.len()) as u32) + data_bytes(samples)
}

/// Append the two little-endian bytes of `x`.
fn push_le16(out: &mut Vec<u8>, x: u16)
    ensures
        final(out)@ == old(out)@ + le16_bytes(x),
{
    out.push((x % 256) as u8);
    out.push((x / 256) as u8);
    assert(out@ =~= old(out)@ + le16_bytes(x));
}

/// Append the four little-endian bytes of `x`.
fn push_le32(out: &mut Vec<u8>, x: u32)
    ensures
        final(out)@ == old(out)@ + le32_bytes(x),
{
    out.push((x % 256) as u8);
    out.push(((x / 256) % 256) as u8);
    out.push(((x / 0x10000) % 256) as u8);
    out.push((x / 0x1000000) as u8);
    assert(out@ =~= old(out)@ + le32_bytes(x));
}

/// The two's-complement bit pattern of a sample, as the file stores it.
fn sample_pattern(s: i16) -> (b: u16)
    ensures
        b == u16_of_i16(s),
{
    if s >= 0 {
        s as u16
    } else {
        ((s as i32) + 0x10000) as u16
    }
}

/// Encode the captured samples as a complete mono, 16-bit PCM WAV file
/// for the session's sample rate: exactly the header and data bytes of
/// `wav_bytes`. The bounds keep the RIFF length fields within 32 bits.
pub fn encode_wav(config: &StreamConfiguration, samples: &Vec<i16>) -> (out: Vec<u8>)
    requires
        config.wf(),
        config.sample_rate <= 0x7FFF_FFFF,
        samples@.len() <= 0x7FFF_FFED,
    ensures
        out@ == wav_bytes(config.sample_rate, samples@),
{
    let sample_rate = config.sample_rate;
    let data_len: u32 = 2 * (samples.len() as u32);
    let mut out: Vec<u8> = Vec::new();
    out.push(82);
    out.push(73);
    out.push(70);
    out.push(70);
    push_le32(&mut out, 36 + data_len);
    out.push(87);
    out.push(65);
    out.push(86);
    out.push(69);
    out.push(102);
    out.push(109);
    out.push(116);
    out.push(32);
    push_le32(&mut out, 16);
    push_le16(&mut out, 1);
    push_le16(&mut out, 1);
    push_le32(&mut out, sample_rate);
    push_le32(&mut out, 2 * sample_rate);
    push_le16(&mut out, 2);
    push_le16(&mut out, 16);
    out.push(100);
    out.push(97);
    out.push(116);
    out.push(97);
    push_le32(&mut out, data_len);
    assert(out@ =~= wav_header(sample_rate, (2 * samples@.len()) as u32));
    let ghost header = out@;
    let n = samples.len();
    let mut idx: usize = 0;
    while idx < n
        invariant
            idx <= n,
            n == samples@.len(),
            out@ == header + data_bytes(samples@.subrange(0, idx as int)),
        decreases n - idx,
    {
        let s = samples[idx];
        let b = sample_pattern(s);
        push_le16(&mut out, b);
        proof {
            let prefix = samples@.subrange(0, idx + 1);
            assert(prefix.drop_last() =~= samples@.subrange(0, idx as int));
            assert(prefix.last() == samples@[idx as int]);
            assert(out@ =~= header + data_bytes(prefix));
        }
        idx = idx + 1;
    }
    proof {
        assert(samples@.subrange(0, n as int) =~= samples@);
    }
    out
}

/// The 16-bit value stored little-endian at offset `off`.
pub open spec fn le16_at(b: Seq<u8>, off: int) -> u16
    recommends
        0 <= off,
        off + 2 <= b.len(),
{
    (b[off] + 256 * b[off + 1]) as u16
}

/// The 32-bit value stored little-endian at offset `off`.
pub open spec fn le32_at(b: Seq<u8>, off: int) -> u32
    recommends
        0 <= off,
        off + 4 <= b.len(),
{
    (b[off] + 256 * b[off + 1] + 0x10000 * b[off + 2] + 0x1000000 * b[off + 3]) as u32
}

/// The little-endian bytes of a 16-bit value read back give the value.
proof fn lemma_le16_val(x: u16)
    ensures
        le16_bytes(x)[0] + 256 * le16_bytes(x)[1] == x,
{
}

/// The little-endian bytes of a 32-bit value read back give the value.
proof fn lemma_le32_val(x: u32)
    ensures
        le32_bytes(x)[0] + 256 * le32_bytes(x)[1] + 0x10000 * le32_bytes(x)[2] + 0x1000000
            * le32_bytes(x)[3] == x,
{
}

/// The samples stored in a data chunk, two bytes each; a trailing odd
/// byte is ignored.
pub open spec fn parse_samples(b: Seq<u8>) -> Seq<i16>
    decreases b.len(),
{
    if b.len() < 2 {
        Seq::empty()
    } else {
        parse_samples(b.subrange(0, b.len() - 2)).push(i16_of_u16(le16_at(b, b.len() - 2)))
    }
}

/// Decode a WAV file of the exact shape the encoder emits: a mono,
/// 16-bit integer PCM file with a 44-byte header whose length fields
/// agree with the data chunk. Anything else is rejected.
pub open spec fn wav_decode(b: Seq<u8>) -> Option<(u32, Seq<i16>)> {
    if b.len() < 44 {
        None
    } else {
        let sample_rate = le32_at(b, 24);
        let data_len = le32_at(b, 40);
        if b[0] == 82 && b[1] == 73 && b[2] == 70 && b[3] == 70 && le32_at(b, 4) == 36 + data_len
            && b[8] == 87 && b[9] == 65 && b[10] == 86 && b[11] == 69 && b[12] == 102 && b[13]
            == 109 && b[14] == 116 && b[15] == 32 && le32_at(b, 16) == 16 && le16_at(b, 20) == 1
            && le16_at(b, 22) == 1 && le32_at(b, 28) == 2 * sample_rate && le16_at(b, 32) == 2
            && le16_at(b, 34) == 16 && b[36] == 100 && b[37] == 97 && b[38] == 116 && b[39] == 97
            && b.len() == 44 + data_len && data_len % 2 == 0 {
            Some((sample_rate, parse_samples(b.subrange(44, b.len() as int))))
        } else {
            None
        }
    }
}

/// Parsing a data chunk gives back the samples it encodes.
proof fn lemma_parse_data(samples: Seq<i16>)
    ensures
        parse_samples(data_bytes(samples)) == samples,
    decreases samples.len(),
{
    lemma_data_bytes_len(samples);
    if samples.len() == 0 {
        assert(parse_samples(data_bytes(samples)) =~= samples);
    } else {
        let front = samples.drop_last();
        let pat = u16_of_i16(samples.last());
        let d = data_bytes(samples);
        lemma_data_bytes_len(front);
        assert(d.subrange(0, d.len() - 2) =~= data_bytes(front));
        assert(d[d.len() - 2] == le16_bytes(pat)[0]);
        assert(d[d.len() - 1] == le16_bytes(pat)[1]);
        lemma_le16_val(pat);
        assert(le16_at(d, d.len() - 2) == pat);
        lemma_parse_data(front);
        assert(parse_samples(d) =~= samples);
    }
}

/// Round trip: decoding an encoded file gives back exactly the sample
/// rate and the samples that were exported, one integer sample per
/// captured sample.
pub proof fn lemma_wav_round_trip(sample_rate: u32, samples: Seq<i16>)
    requires
        sample_rate <= 0x7FFF_FFFF,
        samples.len() <= 0x7FFF_FFED,
    ensures
        wav_decode(wav_bytes(sample_rate, samples)) == Some((sample_rate, samples)),
{
    let b = wav_bytes(sample_rate, samples);
    let data_len: u32 = (2 * samples.len()) as u32;
    let byte_rate: u32 = (2 * sample_rate) as u32;
    lemma_data_bytes_len(samples);
    assert(b.len() == 44 + data_len);
    assert(le32_at(b, 4) == 36 + data_len) by {
        assert(b[4] == le32_bytes((36 + data_len) as u32)[0]);
        assert(b[5] == le32_bytes((36 + data_len) as u32)[1]);
        assert(b[6] == le32_bytes((36 + data_len) as u32)[2]);
        assert(b[7] == le32_bytes((36 + data_len) as u32)[3]);
        lemma_le32_val((36 + data_len) as u32);
    }
    assert(le32_at(b, 16) == 16) by {
        assert(b[16] == le32_bytes(16)[0]);
        assert(b[17] == le32_bytes(16)[1]);
        assert(b[18] == le32_bytes(16)[2]);
        assert(b[19] == le32_bytes(16)[3]);
        lemma_le32_val(16);
    }
    assert(le16_at(b, 20) == 1) by {
        assert(b[20] == le16_bytes(1)[0]);
        assert(b[21] == le16_bytes(1)[1]);
        lemma_le16_val(1);
    }
    assert(le16_at(b, 22) == 1) by {
        assert(b[22] == le16_bytes(1)[0]);
        assert(b[23] == le16_bytes(1)[1]);
        lemma_le16_val(1);
    }
    assert(le32_at(b, 24) == sample_rate) by {
        assert(b[24] == le32_bytes(sample_rate)[0]);
        assert(b[25] == le32_bytes(sample_rate)[1]);
        assert(b[26] == le32_bytes(sample_rate)[2]);
        assert(b[27] == le32_bytes(sample_rate)[3]);
        lemma_le32_val(sample_rate);
    }
    assert(le32_at(b, 28) == byte_rate) by {
        assert(b[28] == le32_bytes(byte_rate)[0]);
        assert(b[29] == le32_bytes(byte_rate)[1]);
        assert(b[30] == le32_bytes(byte_rate)[2]);
        assert(b[31] == le32_bytes(byte_rate)[3]);
        lemma_le32_val(byte_rate);
    }
    assert(le16_at(b, 32) == 2) by {
        assert(b[32] == le16_bytes(2)[0]);
        assert(b[33] == le16_bytes(2)[1]);
        lemma_le16_val(2);
    }
    assert(le16_at(b, 34) == 16) by {
        assert(b[34] == le16_bytes(16)[0]);
        assert(b[35] == le16_bytes(16)[1]);
        lemma_le16_val(16);
    }
    assert(le32_at(b, 40) == data_len) by {
        assert(b[40] == le32_bytes(data_len)[0]);
        assert(b[41] == le32_bytes(data_len)[1]);
        assert(b[42] == le32_bytes(data_len)[2]);
        assert(b[43] == le32_bytes(data_len)[3]);
        lemma_le32_val(data_len);
    }
    assert(b.subrange(44, b.len() as int) =~= data_bytes(samples));
    lemma_parse_data(samples);
    assert(wav_decode(b) == Some((sample_rate, samples)));
}

/// Exporting is deterministic: the same sample rate and samples give
/// byte-identical files, so a second export of the same capture
/// overwrites the first with the very same contents.
pub proof fn lemma_export_deterministic(
    sample_rate: u32,
    samples: Seq<i16>,
    out1: Seq<u8>,
    out2: Seq<u8>,
)
    requires
        out1 == wav_bytes(sample_rate, samples),
        out2 == wav_bytes(sample_rate, samples),
    ensures
        out1 == out2,
{
}

} // verus!
