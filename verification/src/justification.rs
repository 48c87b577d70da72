//! Justifications and their verification: signed precommits of the current
//! authorities, linked to the finalized block, with more than two thirds of
//! the total weight behind them.

use vstd::prelude::*;
use crate::ancestry::{
    descends, entries_model, pool_of, visited, walk_to_target, AncestryEntry, EntryModel,
    TargetModel,
};
use crate::authority::{
    authority_index, authority_weight, is_authority, lemma_member_index, total_weight,
    AuthoritiesModel, AuthorityId, AuthoritySet, AuthorityWeight,
};
use crate::codec::{append_bytes, append_u32_le, append_u64_le, u32_le_bytes, u64_le_bytes};
use crate::crypto::{signature_valid, verify_signature};
use crate::error::Error;
use crate::header::Header;
use crate::primitives::{hash_eq, BlockNumber, Config, HeaderId, H256};

verus! {

/// What an authority claims is finalized.
#[derive(Clone, Copy, Debug, PartialEq, Eq)]
pub struct Vote {
    pub target_hash: H256,
    pub target_number: BlockNumber,
}

/// A precommit with the signature of the authority that cast it.
#[derive(Clone, Copy, Debug, PartialEq, Eq)]
pub struct SignedPrecommit {
    pub vote: Vote,
    pub signature: [u8; 64],
    pub authority_id: AuthorityId,
}

/// The votes that finalize a block.
#[derive(Clone, Debug, PartialEq, Eq)]
pub struct Commit {
    pub target_hash: H256,
    pub target_number: BlockNumber,
    pub precommits: Vec<SignedPrecommit>,
}

/// The proof that a block is final: a commit of one voting round, and the
/// headers that link the voted blocks to the finalized one.
#[derive(Clone, Debug, PartialEq, Eq)]
pub struct GrandpaJustification {
    /// The voting round the commit belongs to.
    pub round: u64,
    /// The id of the authority set whose members cast the votes.
    pub set_id: u64,
    pub commit: Commit,
    pub votes_ancestries: Vec<Header>,
}

/// The bytes an authority signs for `vote` in round `round` under the set
/// id `set_id`: the tag of a precommit, the target's hash and number, the
/// round and the set id. A signature over them holds for no other round or
/// set.
pub open spec fn vote_payload(vote: Vote, round: u64, set_id: u64) -> Seq<u8> {
    seq![1u8] + vote.target_hash@ + u32_le_bytes(vote.target_number) + u64_le_bytes(round)
        + u64_le_bytes(set_id)
}

/// Encodes `vote` for signing in round `round` under the set id `set_id`.
pub fn encode_vote(vote: &Vote, round: u64, set_id: u64) -> (bytes: Vec<u8>)
    ensures
        bytes@ == vote_payload(*vote, round, set_id),
{
    let mut out: Vec<u8> = Vec::new();
    out.push(1u8);
    append_bytes(&mut out, vote.target_hash.as_slice());
    append_u32_le(&mut out, vote.target_number);
    append_u64_le(&mut out, round);
    append_u64_le(&mut out, set_id);
    assert(out@ =~= vote_payload(*vote, round, set_id));
    out
}

/// An earlier precommit than the one at `i` is by the same authority. Votes
/// are told apart by their signer alone: any number of authorities may vote
/// for one block, and no authority may vote twice, be it for one block or
/// for two.
pub open spec fn voted_before(precommits: Seq<SignedPrecommit>, i: int) -> bool {
    exists|j: int|
        0 <= j < i && (#[trigger] precommits[j]).authority_id@ == precommits[i].authority_id@
}

/// What is wrong with the precommit at `i`, if anything: its signer is no
/// current authority, its signature does not verify, or its signer has
/// voted before. The first of these that holds is reported.
pub open spec fn precommit_error(
    authorities: AuthoritiesModel,
    round: u64,
    set_id: u64,
    precommits: Seq<SignedPrecommit>,
    i: int,
) -> Option<Error> {
    let p = precommits[i];
    if !is_authority(authorities, p.authority_id@) {
        Some(Error::UnknownAuthority)
    } else if !signature_valid(p.authority_id@, vote_payload(p.vote, round, set_id), p.signature@) {
        Some(Error::BadSignature)
    } else if voted_before(precommits, i) {
        Some(Error::DuplicateVote)
    } else {
        None
    }
}

/// What is wrong with the first faulty precommit among the first `n`.
pub open spec fn first_precommit_error(
    authorities: AuthoritiesModel,
    round: u64,
    set_id: u64,
    precommits: Seq<SignedPrecommit>,
    n: nat,
) -> Option<Error>
    decreases n,
{
    if n == 0 {
        None
    } else {
        match first_precommit_error(authorities, round, set_id, precommits, (n - 1) as nat) {
            Some(e) => Some(e),
            None => precommit_error(authorities, round, set_id, precommits, n - 1),
        }
    }
}

/// The weight behind the first `n` precommits: the sum of their signers'
/// weights.
pub open spec fn votes_weight(
    authorities: AuthoritiesModel,
    precommits: Seq<SignedPrecommit>,
    n: nat,
) -> nat
    decreases n,
{
    if n == 0 {
        0
    } else {
        votes_weight(authorities, precommits, (n - 1) as nat) + authority_weight(
            authorities,
            precommits[n - 1].authority_id@,
        )
    }
}

/// `votes` is more than two thirds of `total`.
pub open spec fn is_supermajority(votes: nat, total: nat) -> bool {
    3 * votes > 2 * total
}

/// Each of the first `n` precommits votes for the target or a descendant of
/// it.
pub open spec fn votes_descend(
    target: TargetModel,
    pool: Seq<EntryModel>,
    precommits: Seq<SignedPrecommit>,
    n: nat,
) -> bool {
    forall|i: int|
        0 <= i < n ==> descends(
            target,
            pool,
            (#[trigger] precommits[i]).vote.target_hash@,
            precommits[i].vote.target_number,
        )
}

/// The header at place `k` of the pool lies on the walk of one of the first
/// `n` precommits.
pub open spec fn on_a_walk(
    target: TargetModel,
    pool: Seq<EntryModel>,
    precommits: Seq<SignedPrecommit>,
    n: nat,
    k: int,
) -> bool {
    exists|i: int|
        0 <= i < n && visited(target, pool, (#[trigger] precommits[i]).vote.target_hash@).contains(
            k,
        )
}

/// The supplied headers link every vote to the target, and none of them is
/// idle.
pub open spec fn ancestry_valid(
    target: TargetModel,
    pool: Seq<EntryModel>,
    precommits: Seq<SignedPrecommit>,
) -> bool {
    &&& votes_descend(target, pool, precommits, precommits.len())
    &&& forall|k: int|
        0 <= k < pool.len() ==> #[trigger] on_a_walk(target, pool, precommits, precommits.len(), k)
}

/// The verdict on `justification` as a proof that `header` is final under
/// the authorities `authorities`. The checks, in the order in which a
/// failure is reported: the limits on size; the commit finalizes `header`;
/// every precommit is sound; the ancestry is valid; the weight is a
/// supermajority.
pub open spec fn justification_verdict(
    config: Config,
    header: Header,
    authorities: AuthoritiesModel,
    justification: GrandpaJustification,
) -> Result<(), Error> {
    let precommits = justification.commit.precommits@;
    let target = TargetModel { hash: header.hash_spec(), number: header.number };
    if precommits.len() > config.max_precommits {
        Err(Error::TooManyPrecommits)
    } else if justification.votes_ancestries@.len() > config.max_ancestries {
        Err(Error::TooManyAncestries)
    } else if justification.commit.target_hash@ != target.hash
        || justification.commit.target_number != target.number {
        Err(Error::InvalidJustificationTarget)
    } else {
        match first_precommit_error(
            authorities,
            justification.round,
            justification.set_id,
            precommits,
            precommits.len(),
        ) {
            Some(e) => Err(e),
            None => if !ancestry_valid(target, pool_of(justification.votes_ancestries@), precommits) {
                Err(Error::InvalidAncestry)
            } else if !is_supermajority(
                votes_weight(authorities, precommits, precommits.len()),
                total_weight(authorities),
            ) {
                Err(Error::InsufficientWeight)
            } else {
                Ok(())
            },
        }
    }
}

/// Whether `votes` is more than two thirds of `total`.
pub fn has_supermajority(votes: u128, total: u128) -> (yes: bool)
    ensures
        yes == is_supermajority(votes as nat, total as nat),
{
    let third: u128 = total / 3;
    let rest: u128 = total % 3;
    let two_thirds: u128 = if rest == 2 {
        2 * third + 1
    } else {
        2 * third
    };
    votes > two_thirds
}

/// The weights behind the first `n` precommits add up to no more than `n`
/// times the largest weight.
proof fn lemma_votes_weight_bound(
    authorities: AuthoritiesModel,
    precommits: Seq<SignedPrecommit>,
    n: nat,
)
    ensures
        votes_weight(authorities, precommits, n) <= n * 0xffff_ffff_ffff_ffff,
    decreases n,
{
    if n > 0 {
        lemma_votes_weight_bound(authorities, precommits, (n - 1) as nat);
        let id = precommits[n - 1].authority_id@;
        if is_authority(authorities, id) {
            lemma_member_index(authorities, id);
        }
        assert((n - 1) * 0xffff_ffff_ffff_ffff + 0xffff_ffff_ffff_ffff == n
            * 0xffff_ffff_ffff_ffff) by (nonlinear_arith);
    }
}

/// One of the first `n` precommits is signed by the authority at place `k`.
pub open spec fn has_voted(
    authorities: AuthoritiesModel,
    precommits: Seq<SignedPrecommit>,
    n: nat,
    k: int,
) -> bool {
    exists|j: int|
        0 <= j < n && authority_index(authorities, (#[trigger] precommits[j]).authority_id@) == k
}

/// An error among the first `n` precommits is the error among any more of
/// them.
pub proof fn lemma_first_error_stays(
    authorities: AuthoritiesModel,
    round: u64,
    set_id: u64,
    precommits: Seq<SignedPrecommit>,
    n: nat,
    m: nat,
)
    requires
        n <= m,
        first_precommit_error(authorities, round, set_id, precommits, n) is Some,
    ensures
        first_precommit_error(authorities, round, set_id, precommits, m) == first_precommit_error(
            authorities,
            round,
            set_id,
            precommits,
            n,
        ),
    decreases m,
{
    if n < m {
        lemma_first_error_stays(authorities, round, set_id, precommits, n, (m - 1) as nat);
    }
}

/// Among authorities, an earlier precommit by the same signer is an earlier
/// precommit by the authority at the same place.
proof fn lemma_voted_before(authorities: AuthoritiesModel, precommits: Seq<SignedPrecommit>, i: int)
    requires
        0 <= i < precommits.len(),
        forall|j: int|
            0 <= j <= i ==> is_authority(authorities, (#[trigger] precommits[j]).authority_id@),
    ensures
        voted_before(precommits, i) == has_voted(
            authorities,
            precommits,
            i as nat,
            authority_index(authorities, precommits[i].authority_id@),
        ),
{
    let id = precommits[i].authority_id@;
    let place = authority_index(authorities, id);
    lemma_member_index(authorities, id);
    if voted_before(precommits, i) {
        let j = choose|j: int| 0 <= j < i && (#[trigger] precommits[j]).authority_id@ == id;
        assert(authority_index(authorities, precommits[j].authority_id@) == place);
    }
    if has_voted(authorities, precommits, i as nat, place) {
        let j = choose|j: int|
            0 <= j < i && authority_index(authorities, (#[trigger] precommits[j]).authority_id@)
                == place;
        lemma_member_index(authorities, precommits[j].authority_id@);
        assert(precommits[j].authority_id@ == id);
    }
}

/// Who has voted among the first `n + 1` precommits: who had among the first
/// `n`, and the signer of the one at `n`.
proof fn lemma_has_voted_step(
    authorities: AuthoritiesModel,
    precommits: Seq<SignedPrecommit>,
    n: nat,
    k: int,
)
    ensures
        has_voted(authorities, precommits, n + 1, k) == (has_voted(authorities, precommits, n, k)
            || authority_index(authorities, precommits[n as int].authority_id@) == k),
{
    if has_voted(authorities, precommits, n + 1, k) {
        let j = choose|j: int|
            0 <= j < n + 1 && authority_index(authorities, (#[trigger] precommits[j]).authority_id@)
                == k;
        if j < n {
            assert(has_voted(authorities, precommits, n, k));
        }
    }
    if has_voted(authorities, precommits, n, k) {
        let j = choose|j: int|
            0 <= j < n && authority_index(authorities, (#[trigger] precommits[j]).authority_id@)
                == k;
        assert(0 <= j < n + 1);
    }
    if authority_index(authorities, precommits[n as int].authority_id@) == k {
        assert(0 <= n < n + 1);
    }
}

/// Judges one precommit from what has been found out about it: the place
/// of its signer among the authorities, if it has one, and whether its
/// signature verifies. A sound precommit by an authority that has not voted
/// yet is marked in `voted` and counts with the authority's weight; any
/// other is refused and marks nothing.
pub fn judge_precommit(
    authorities: &AuthoritySet,
    voted: &mut Vec<bool>,
    place: Option<usize>,
    signature_ok: bool,
) -> (result: Result<AuthorityWeight, Error>)
    requires
        old(voted)@.len() == authorities@.len(),
        place is Some ==> place.unwrap() < authorities@.len(),
    ensures
        result == (if place is None {
            Err::<AuthorityWeight, Error>(Error::UnknownAuthority)
        } else if !signature_ok {
            Err::<AuthorityWeight, Error>(Error::BadSignature)
        } else if old(voted)@[place.unwrap() as int] {
            Err::<AuthorityWeight, Error>(Error::DuplicateVote)
        } else {
            Ok::<AuthorityWeight, Error>(authorities@[place.unwrap() as int].1)
        }),
        final(voted)@ == (if result is Ok {
            old(voted)@.update(place.unwrap() as int, true)
        } else {
            old(voted)@
        }),
{
    let place = match place {
        Some(place) => place,
        None => {
            return Err(Error::UnknownAuthority);
        },
    };
    if !signature_ok {
        return Err(Error::BadSignature);
    }
    if voted[place] {
        return Err(Error::DuplicateVote);
    }
    voted.set(place, true);
    Ok(authorities.weight_at(place))
}

/// Checks every precommit of `justification` and adds up the weight behind
/// them.
fn check_precommits(authorities: &AuthoritySet, justification: &GrandpaJustification) -> (result:
    Result<u128, Error>)
    ensures
        match result {
            Ok(weight) => first_precommit_error(
                authorities@,
                justification.round,
                justification.set_id,
                justification.commit.precommits@,
                justification.commit.precommits@.len(),
            ) is None && weight == votes_weight(
                authorities@,
                justification.commit.precommits@,
                justification.commit.precommits@.len(),
            ),
            Err(e) => first_precommit_error(
                authorities@,
                justification.round,
                justification.set_id,
                justification.commit.precommits@,
                justification.commit.precommits@.len(),
            ) == Some(e),
        },
{
    let ghost precommits = justification.commit.precommits@;
    let ghost round = justification.round;
    let ghost set_id = justification.set_id;
    let ghost set = authorities@;
    let mut voted: Vec<bool> = Vec::new();
    let mut a: usize = 0;
    while a < authorities.len()
        invariant
            a <= authorities@.len(),
            voted@.len() == a,
            forall|k: int| 0 <= k < a ==> voted@[k] == false,
        decreases authorities@.len() - a,
    {
        voted.push(false);
        a += 1;
    }
    let mut weight: u128 = 0;
    let mut i: usize = 0;
    while i < justification.commit.precommits.len()
        invariant
            i <= precommits.len(),
            set == authorities@,
            precommits == justification.commit.precommits@,
            round == justification.round,
            set_id == justification.set_id,
            voted@.len() == set.len(),
            first_precommit_error(set, round, set_id, precommits, i as nat) is None,
            weight == votes_weight(set, precommits, i as nat),
            forall|k: int|
                #![trigger voted@[k]]
                0 <= k < set.len() ==> voted@[k] == has_voted(set, precommits, i as nat, k),
            forall|j: int|
                0 <= j < i ==> is_authority(set, (#[trigger] precommits[j]).authority_id@),
        decreases precommits.len() - i,
    {
        let p = &justification.commit.precommits[i];
        let ghost next = (i + 1) as nat;
        let ghost fault = precommit_error(set, round, set_id, precommits, i as int);
        let ghost marks = voted@;
        assert(first_precommit_error(set, round, set_id, precommits, next) == fault);
        proof {
            if fault is Some {
                lemma_first_error_stays(set, round, set_id, precommits, next, precommits.len());
            }
        }
        let place = authorities.position(&p.authority_id);
        let signature_ok = match place {
            Some(_) => {
                let payload = encode_vote(&p.vote, justification.round, justification.set_id);
                verify_signature(
                    p.authority_id.as_slice(),
                    payload.as_slice(),
                    p.signature.as_slice(),
                )
            },
            None => false,
        };
        proof {
            if place is Some {
                lemma_member_index(set, p.authority_id@);
                lemma_voted_before(set, precommits, i as int);
            }
        }
        let counted = match judge_precommit(authorities, &mut voted, place, signature_ok) {
            Ok(counted) => counted,
            Err(e) => {
                assert(fault == Some(e));
                return Err(e);
            },
        };
        assert(fault is None);
        proof {
            lemma_votes_weight_bound(set, precommits, i as nat);
            assert(i * 0xffff_ffff_ffff_ffff + 0xffff_ffff_ffff_ffff <= 0xffff_ffff_ffff_ffff
                * 0xffff_ffff_ffff_ffff) by (nonlinear_arith)
                requires
                    i < 0xffff_ffff_ffff_ffff,
            ;
            assert forall|k: int| #![trigger voted@[k]] 0 <= k < set.len() implies voted@[k]
                == has_voted(set, precommits, next, k) by {
                lemma_has_voted_step(set, precommits, i as nat, k);
                assert(marks[k] == has_voted(set, precommits, i as nat, k));
            }
        }
        weight = weight + counted as u128;
        i += 1;
    }
    Ok(weight)
}

/// Hashes the supplied headers.
fn build_pool(headers: &Vec<Header>) -> (entries: Vec<AncestryEntry>)
    ensures
        entries_model(entries@) == pool_of(headers@),
{
    let mut entries: Vec<AncestryEntry> = Vec::new();
    let mut i: usize = 0;
    while i < headers.len()
        invariant
            i <= headers@.len(),
            entries@.len() == i,
            forall|j: int| 0 <= j < i ==> (#[trigger] entries@[j])@ == pool_of(headers@)[j],
        decreases headers@.len() - i,
    {
        let header = &headers[i];
        entries.push(
            AncestryEntry {
                hash: header.hash(),
                number: header.number,
                parent_hash: header.parent_hash,
            },
        );
        i += 1;
    }
    assert(entries_model(entries@) =~= pool_of(headers@));
    entries
}

/// Walks from every vote to the target, then looks for idle headers: tells
/// whether the supplied headers link every vote to the target and none of
/// them is idle.
pub fn check_ancestry(target: &HeaderId, entries: &Vec<AncestryEntry>, precommits: &Vec<SignedPrecommit>) -> (ok:
    bool)
    ensures
        ok == ancestry_valid(target@, entries_model(entries@), precommits@),
{
    let ghost pool = entries_model(entries@);
    let mut used: Vec<bool> = Vec::new();
    let mut a: usize = 0;
    while a < entries.len()
        invariant
            a <= entries@.len(),
            used@.len() == a,
            forall|k: int| 0 <= k < a ==> used@[k] == false,
        decreases entries@.len() - a,
    {
        used.push(false);
        a += 1;
    }
    let mut i: usize = 0;
    while i < precommits.len()
        invariant
            i <= precommits@.len(),
            pool == entries_model(entries@),
            used@.len() == entries@.len(),
            votes_descend(target@, pool, precommits@, i as nat),
            forall|k: int|
                #![trigger used@[k]]
                0 <= k < pool.len() ==> used@[k] == on_a_walk(target@, pool, precommits@, i as nat, k),
        decreases precommits@.len() - i,
    {
        let vote = &precommits[i].vote;
        let ghost marks = used@;
        if !walk_to_target(target, entries, &vote.target_hash, vote.target_number, &mut used) {
            assert(!descends(
                target@,
                pool,
                precommits@[i as int].vote.target_hash@,
                precommits@[i as int].vote.target_number,
            ));
            return false;
        }
        proof {
            assert forall|k: int| #![trigger used@[k]] 0 <= k < pool.len() implies used@[k]
                == on_a_walk(target@, pool, precommits@, (i + 1) as nat, k) by {
                let here = visited(target@, pool, precommits@[i as int].vote.target_hash@);
                assert(marks[k] == on_a_walk(target@, pool, precommits@, i as nat, k));
                if on_a_walk(target@, pool, precommits@, (i + 1) as nat, k) {
                    let j = choose|j: int|
                        0 <= j < i + 1 && visited(
                            target@,
                            pool,
                            (#[trigger] precommits@[j]).vote.target_hash@,
                        ).contains(k);
                    if j < i {
                        assert(on_a_walk(target@, pool, precommits@, i as nat, k));
                    }
                }
                if marks[k] {
                    let j = choose|j: int|
                        0 <= j < i && visited(
                            target@,
                            pool,
                            (#[trigger] precommits@[j]).vote.target_hash@,
                        ).contains(k);
                    assert(0 <= j < i + 1);
                }
                if here.contains(k) {
                    assert(visited(target@, pool, precommits@[i as int].vote.target_hash@).contains(k));
                }
            }
        }
        i += 1;
    }
    let mut k: usize = 0;
    while k < used.len()
        invariant
            k <= used@.len(),
            used@.len() == pool.len(),
            pool == entries_model(entries@),
            forall|m: int|
                #![trigger used@[m]]
                0 <= m < pool.len() ==> used@[m] == on_a_walk(
                    target@,
                    pool,
                    precommits@,
                    precommits@.len(),
                    m,
                ),
            forall|m: int| 0 <= m < k ==> #[trigger] used@[m],
        decreases used@.len() - k,
    {
        if !used[k] {
            assert(!on_a_walk(target@, pool, precommits@, precommits@.len(), k as int));
            return false;
        }
        k += 1;
    }
    assert forall|m: int| 0 <= m < pool.len() implies #[trigger] on_a_walk(
        target@,
        pool,
        precommits@,
        precommits@.len(),
        m,
    ) by {
        assert(used@[m]);
    }
    true
}

/// Verifies `justification` as a proof that `header` is final under the
/// authorities `authorities`.
pub fn verify_justification(
    config: &Config,
    header: &Header,
    authorities: &AuthoritySet,
    justification: &GrandpaJustification,
) -> (result: Result<(), Error>)
    ensures
        result == justification_verdict(*config, *header, authorities@, *justification),
{
    if justification.commit.precommits.len() > config.max_precommits as usize {
        return Err(Error::TooManyPrecommits);
    }
    if justification.votes_ancestries.len() > config.max_ancestries as usize {
        return Err(Error::TooManyAncestries);
    }
    let target = header.id();
    if !hash_eq(&justification.commit.target_hash, &target.hash)
        || justification.commit.target_number != target.number {
        return Err(Error::InvalidJustificationTarget);
    }
    let weight = match check_precommits(authorities, justification) {
        Ok(weight) => weight,
        Err(e) => {
            return Err(e);
        },
    };
    let entries = build_pool(&justification.votes_ancestries);
    if !check_ancestry(&target, &entries, &justification.commit.precommits) {
        return Err(Error::InvalidAncestry);
    }
    if !has_supermajority(weight, authorities.total_weight()) {
        return Err(Error::InsufficientWeight);
    }
    Ok(())
}

} // verus!
