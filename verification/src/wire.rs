//! The bytes of precommits, commits and justifications on the wire.

use vstd::prelude::*;
use crate::codec::{append_bytes, append_compact, append_u32_le, append_u64_le, compact_encoding, u32_le_bytes, u64_le_bytes};
use crate::header::Header;
use crate::justification::{Commit, GrandpaJustification, SignedPrecommit};

verus! {

/// The bytes of a signed precommit: the target's hash and number, the
/// signature, and the signer's key, 132 bytes in all.
pub open spec fn precommit_encoding(precommit: SignedPrecommit) -> Seq<u8> {
    precommit.vote.target_hash@ + u32_le_bytes(precommit.vote.target_number)
        + precommit.signature@ + precommit.authority_id@
}

/// The encodings of the first `n` of `precommits`, one after the other.
pub open spec fn precommits_encoding(precommits: Seq<SignedPrecommit>, n: nat) -> Seq<u8>
    decreases n,
{
    if n == 0 {
        Seq::empty()
    } else {
        precommits_encoding(precommits, (n - 1) as nat) + precommit_encoding(precommits[n - 1])
    }
}

/// The encodings of the first `n` of `headers`, one after the other.
pub open spec fn headers_encoding(headers: Seq<Header>, n: nat) -> Seq<u8>
    decreases n,
{
    if n == 0 {
        Seq::empty()
    } else {
        headers_encoding(headers, (n - 1) as nat) + headers[n - 1].encoding()
    }
}

/// The bytes of a commit: the target's hash and number, then the precommits
/// behind their compact count.
pub open spec fn commit_encoding(commit: Commit) -> Seq<u8> {
    commit.target_hash@ + u32_le_bytes(commit.target_number) + compact_encoding(
        commit.precommits@.len() as u64,
    ) + precommits_encoding(commit.precommits@, commit.precommits@.len())
}

/// The bytes of a justification: the round, the commit, then the vote
/// ancestries behind their compact count. The set id is no part of them: it
/// enters the signed payloads only.
pub open spec fn justification_encoding(justification: GrandpaJustification) -> Seq<u8> {
    u64_le_bytes(justification.round) + commit_encoding(justification.commit) + compact_encoding(
        justification.votes_ancestries@.len() as u64,
    ) + headers_encoding(justification.votes_ancestries@, justification.votes_ancestries@.len())
}

/// Appends the encoding of `precommit` to `out`.
pub fn encode_precommit_to(precommit: &SignedPrecommit, out: &mut Vec<u8>)
    ensures
        final(out)@ == old(out)@ + precommit_encoding(*precommit),
{
    append_bytes(out, precommit.vote.target_hash.as_slice());
    append_u32_le(out, precommit.vote.target_number);
    append_bytes(out, precommit.signature.as_slice());
    append_bytes(out, precommit.authority_id.as_slice());
    assert(out@ =~= old(out)@ + precommit_encoding(*precommit));
}

/// Encodes `justification` for the wire.
pub fn encode_justification(justification: &GrandpaJustification) -> (bytes: Vec<u8>)
    ensures
        bytes@ == justification_encoding(*justification),
{
    let commit = &justification.commit;
    let mut out: Vec<u8> = Vec::new();
    append_u64_le(&mut out, justification.round);
    append_bytes(&mut out, commit.target_hash.as_slice());
    append_u32_le(&mut out, commit.target_number);
    append_compact(&mut out, commit.precommits.len() as u64);
    let ghost head = out@;
    let mut i: usize = 0;
    while i < commit.precommits.len()
        invariant
            i <= commit.precommits@.len(),
            out@ == head + precommits_encoding(commit.precommits@, i as nat),
        decreases commit.precommits@.len() - i,
    {
        encode_precommit_to(&commit.precommits[i], &mut out);
        i += 1;
        assert(out@ =~= head + precommits_encoding(commit.precommits@, i as nat));
    }
    assert(out@ =~= u64_le_bytes(justification.round) + commit_encoding(*commit));
    append_compact(&mut out, justification.votes_ancestries.len() as u64);
    let ghost head = out@;
    let mut k: usize = 0;
    while k < justification.votes_ancestries.len()
        invariant
            k <= justification.votes_ancestries@.len(),
            out@ == head + headers_encoding(justification.votes_ancestries@, k as nat),
        decreases justification.votes_ancestries@.len() - k,
    {
        let bytes = justification.votes_ancestries[k].encode();
        append_bytes(&mut out, bytes.as_slice());
        k += 1;
        assert(out@ =~= head + headers_encoding(justification.votes_ancestries@, k as nat));
    }
    assert(out@ =~= justification_encoding(*justification));
    out
}

} // verus!
