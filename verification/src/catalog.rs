//! The device catalog: picking a device name from an enumerated list and
//! resolving a name against a fresh enumeration. Enumeration itself is
//! done by the host audio subsystem outside the library; the catalog works
//! on the list of names it produced, in the order it produced them.

use vstd::prelude::*;

verus! {

/// Resolution failures.
#[derive(Clone, Copy, PartialEq, Eq, Structural, Debug)]
pub enum DeviceError {
    DeviceNotFound,
}

/// The name at `index` in `names`, as chosen interactively.
pub fn selected_name(names: &Vec<String>, index: usize) -> (r: String)
    requires
        index < names@.len(),
    ensures
        r@ == names@[index as int]@,
{
    names[index].clone()
}

/// Resolve a device name against an enumeration: the index of the first
/// device with that name, or `DeviceNotFound` when no device matches.
/// The enumeration may differ from the one the name was chosen from, so
/// a name can legitimately fail to resolve.
pub fn resolve_device(names: &Vec<String>, target: &String) -> (r: Result<usize, DeviceError>)
    ensures
        match r {
            Ok(i) => i < names@.len() && names@[i as int]@ == target@ && (forall|k: int|
                0 <= k < i ==> names@[k]@ != target@),
            Err(e) => e == DeviceError::DeviceNotFound && (forall|k: int|
                0 <= k < names@.len() ==> names@[k]@ != target@),
        },
{
    let n = names.len();
    let mut i: usize = 0;
    while i < n
        invariant
            i <= n,
            n == names@.len(),
            forall|k: int| 0 <= k < i ==> names@[k]@ != target@,
        decreases n - i,
    {
        if names[i] == *target {
            return Ok(i);
        }
        i = i + 1;
    }
    Err(DeviceError::DeviceNotFound)
}

} // verus!
