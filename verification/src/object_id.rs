use vstd::prelude::*;

verus! {

/// The name of a commit or a tree: a 160-bit SHA-1 hash.
///
/// `leading` holds the first sixteen bytes of the hash and `trailing` the last four, both in
/// big-endian order.
#[derive(Clone, Copy, Debug, PartialEq, Eq, Hash, Structural)]
pub struct ObjectId {
    pub leading: u128,
    pub trailing: u32,
}

} // verus!
