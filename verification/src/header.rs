//! Block headers of the bridged chain, their byte encoding and their hash.

use vstd::prelude::*;
use crate::codec::{append_bytes, append_compact, compact_encoding};
use crate::crypto::{blake2_256, blake2_256_digest};
use crate::primitives::{BlockNumber, HeaderId, H256};

verus! {

/// Names the consensus engine a digest item belongs to.
pub type ConsensusEngineId = [u8; 4];

/// One entry of a header's digest.
#[derive(Clone, Debug, PartialEq, Eq)]
pub enum DigestItem {
    /// A message from a consensus engine to the runtime.
    PreRuntime(ConsensusEngineId, Vec<u8>),
    /// A message from the runtime to a consensus engine.
    Consensus(ConsensusEngineId, Vec<u8>),
    /// A seal put on the block by a consensus engine.
    Seal(ConsensusEngineId, Vec<u8>),
    /// Anything else.
    Other(Vec<u8>),
    /// The runtime's execution environment has changed.
    RuntimeEnvironmentUpdated,
}

/// A block header.
#[derive(Clone, Debug, PartialEq, Eq)]
pub struct Header {
    /// Hash of the parent block's header.
    pub parent_hash: H256,
    /// Number of the block.
    pub number: BlockNumber,
    /// Root of the state trie.
    pub state_root: H256,
    /// Root of the extrinsics trie.
    pub extrinsics_root: H256,
    /// The digest: logs for light clients and consensus engines.
    pub digest: Vec<DigestItem>,
}

impl DigestItem {
    /// The bytes of the item on the wire: a tag, then for the three kinds
    /// bound to an engine the engine's id, then the payload behind its
    /// compact length.
    pub open spec fn encoding(self) -> Seq<u8> {
        match self {
            DigestItem::PreRuntime(engine, data) => seq![6u8] + engine@ + compact_encoding(
                data@.len() as u64,
            ) + data@,
            DigestItem::Consensus(engine, data) => seq![4u8] + engine@ + compact_encoding(
                data@.len() as u64,
            ) + data@,
            DigestItem::Seal(engine, data) => seq![5u8] + engine@ + compact_encoding(
                data@.len() as u64,
            ) + data@,
            DigestItem::Other(data) => seq![0u8] + compact_encoding(data@.len() as u64) + data@,
            DigestItem::RuntimeEnvironmentUpdated => seq![8u8],
        }
    }

    /// Appends the item's encoding to `out`.
    pub fn encode_to(&self, out: &mut Vec<u8>)
        ensures
            final(out)@ == old(out)@ + self.encoding(),
    {
        match self {
            DigestItem::PreRuntime(engine, data) => {
                out.push(6u8);
                append_tagged(out, engine, data);
            },
            DigestItem::Consensus(engine, data) => {
                out.push(4u8);
                append_tagged(out, engine, data);
            },
            DigestItem::Seal(engine, data) => {
                out.push(5u8);
                append_tagged(out, engine, data);
            },
            DigestItem::Other(data) => {
                out.push(0u8);
                append_compact(out, data.len() as u64);
                append_bytes(out, data.as_slice());
            },
            DigestItem::RuntimeEnvironmentUpdated => {
                out.push(8u8);
            },
        }
        assert(out@ =~= old(out)@ + self.encoding());
    }
}

/// Appends an engine id and a length-prefixed payload to `out`.
fn append_tagged(out: &mut Vec<u8>, engine: &ConsensusEngineId, data: &Vec<u8>)
    ensures
        final(out)@ == old(out)@ + engine@ + compact_encoding(data@.len() as u64) + data@,
{
    append_bytes(out, engine.as_slice());
    append_compact(out, data.len() as u64);
    append_bytes(out, data.as_slice());
}

/// The encodings of the first `n` items of `items`, one after the other.
pub open spec fn digest_items_encoding(items: Seq<DigestItem>, n: nat) -> Seq<u8>
    decreases n,
{
    if n == 0 {
        Seq::empty()
    } else {
        digest_items_encoding(items, (n - 1) as nat) + items[n - 1].encoding()
    }
}

impl Header {
    /// The bytes of the header on the wire: parent hash, compact number, the
    /// two roots, and the digest items behind their compact count. Counts
    /// and lengths are written as compact numbers of up to 64 bits, so that
    /// every header has an encoding; below 2^32, which is as far as the
    /// chain itself can count, these are the bytes the chain writes.
    pub open spec fn encoding(self) -> Seq<u8> {
        self.parent_hash@ + compact_encoding(self.number as u64) + self.state_root@
            + self.extrinsics_root@ + compact_encoding(self.digest@.len() as u64)
            + digest_items_encoding(self.digest@, self.digest@.len())
    }

    /// The header's hash: the digest of its encoding.
    pub open spec fn hash_spec(self) -> Seq<u8> {
        blake2_256_digest(self.encoding())
    }

    /// Encodes the header.
    pub fn encode(&self) -> (bytes: Vec<u8>)
        ensures
            bytes@ == self.encoding(),
    {
        let mut out: Vec<u8> = Vec::new();
        append_bytes(&mut out, self.parent_hash.as_slice());
        append_compact(&mut out, self.number as u64);
        append_bytes(&mut out, self.state_root.as_slice());
        append_bytes(&mut out, self.extrinsics_root.as_slice());
        append_compact(&mut out, self.digest.len() as u64);
        let ghost head = out@;
        let mut i: usize = 0;
        while i < self.digest.len()
            invariant
                i <= self.digest@.len(),
                out@ == head + digest_items_encoding(self.digest@, i as nat),
            decreases self.digest@.len() - i,
        {
            self.digest[i].encode_to(&mut out);
            i += 1;
            assert(out@ =~= head + digest_items_encoding(self.digest@, i as nat));
        }
        assert(out@ =~= self.encoding());
        out
    }

    /// Computes the header's hash.
    pub fn hash(&self) -> (hash: H256)
        ensures
            hash@ == self.hash_spec(),
    {
        let bytes = self.encode();
        blake2_256(bytes.as_slice())
    }

    /// Computes the header's identity.
    pub fn id(&self) -> (id: HeaderId)
        ensures
            id.number == self.number,
            id.hash@ == self.hash_spec(),
    {
        HeaderId { number: self.number, hash: self.hash() }
    }
}

} // verus!
