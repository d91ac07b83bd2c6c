//! Choice of the network interface to capture on: the first one that is up,
//! not loopback, has an address, and whose name starts with a configured
//! prefix (an empty prefix accepts every name).
use vstd::prelude::*;
use vstd::string::StrSliceExecFns;

verus! {

/// What the selection reads of one network interface.
#[derive(Clone, Debug)]
pub struct InterfaceInfo {
    pub name: String,
    pub is_up: bool,
    pub is_loopback: bool,
    /// The number of addresses assigned to it.
    pub address_count: usize,
}

/// The interface can capture: it is up, not loopback, and has an address.
pub open spec fn capture_capable(i: InterfaceInfo) -> bool {
    i.is_up && !i.is_loopback && i.address_count > 0
}

/// The interface can capture and its name starts with `prefix`.
pub open spec fn eligible(i: InterfaceInfo, prefix: Seq<char>) -> bool {
    capture_capable(i) && prefix.is_prefix_of(i.name@)
}

/// Whether `name` starts with `prefix`.
pub fn has_prefix(name: &str, prefix: &str) -> (r: bool)
    ensures
        r == prefix@.is_prefix_of(name@),
{
    let n = prefix.unicode_len();
    if n > name.unicode_len() {
        return false;
    }
    let mut i: usize = 0;
    while i < n
        invariant
            n == prefix@.len(),
            n <= name@.len(),
            i <= n,
            forall|j: int| 0 <= j < i ==> prefix@[j] == name@[j],
        decreases n - i,
    {
        if prefix.get_char(i) != name.get_char(i) {
            assert(prefix@[i as int] != name@.subrange(0, n as int)[i as int]);
            return false;
        }
        i = i + 1;
    }
    assert(prefix@ =~= name@.subrange(0, n as int));
    true
}

/// The index of the first eligible interface, or `None` when there is none.
pub fn select_interface(ifaces: &Vec<InterfaceInfo>, name_prefix: &str) -> (r: Option<usize>)
    ensures
        match r {
            Some(i) => i < ifaces@.len() && eligible(ifaces@[i as int], name_prefix@) && forall|j: int|
                0 <= j < i ==> !eligible(#[trigger] ifaces@[j], name_prefix@),
            None => forall|j: int| 0 <= j < ifaces@.len() ==> !eligible(#[trigger] ifaces@[j], name_prefix@),
        },
{
    let mut i: usize = 0;
    while i < ifaces.len()
        invariant
            i <= ifaces@.len(),
            forall|j: int| 0 <= j < i ==> !eligible(#[trigger] ifaces@[j], name_prefix@),
        decreases ifaces@.len() - i,
    {
        let it = &ifaces[i];
        if it.is_up && !it.is_loopback && it.address_count > 0 && has_prefix(it.name.as_str(), name_prefix) {
            return Some(i);
        }
        i = i + 1;
    }
    None
}

} // verus!
