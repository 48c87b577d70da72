//! Basic value types shared by every component.

use vstd::prelude::*;

verus! {

/// A 256-bit block hash.
pub type H256 = [u8; 32];

/// Number of a block on the bridged chain.
pub type BlockNumber = u32;

/// The identity of a header: its number and its hash.
#[derive(Clone, Copy, Debug, PartialEq, Eq)]
pub struct HeaderId {
    pub number: BlockNumber,
    pub hash: H256,
}

/// Whether the bridge accepts finality proofs.
#[derive(Clone, Copy, Debug, PartialEq, Eq, Structural)]
pub enum OperatingMode {
    /// Finality proofs are verified and imported.
    Normal,
    /// Every finality proof is rejected, whatever it holds.
    Halted,
}

/// The limits a bridge is set up with.
#[derive(Clone, Copy, Debug, PartialEq, Eq)]
pub struct Config {
    /// How many imported headers the bridge remembers.
    pub headers_to_keep: u32,
    /// The largest number of precommits a justification may hold.
    pub max_precommits: u32,
    /// The largest number of ancestry headers a justification may hold.
    pub max_ancestries: u32,
}

/// Compares two byte strings.
pub fn bytes_eq(a: &[u8], b: &[u8]) -> (eq: bool)
    ensures
        eq == (a@ == b@),
{
    if a.len() != b.len() {
        return false;
    }
    let mut i: usize = 0;
    while i < a.len()
        invariant
            i <= a.len(),
            a.len() == b.len(),
            forall|j: int| 0 <= j < i ==> a@[j] == b@[j],
        decreases a.len() - i,
    {
        if a[i] != b[i] {
            return false;
        }
        i += 1;
    }
    assert(a@ =~= b@);
    true
}

/// Compares two hashes.
pub fn hash_eq(a: &H256, b: &H256) -> (eq: bool)
    ensures
        eq == (a@ == b@),
{
    bytes_eq(a.as_slice(), b.as_slice())
}

} // verus!
