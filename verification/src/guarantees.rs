//! What the bridge guarantees, proved of its model: every statement here
//! holds of each bridge, header and justification that meets its `requires`.

use vstd::prelude::*;
use crate::ancestry::{
    entry_index, is_entry_index, known, lemma_known_has_index, pool_of, reaches_target, visited,
    walk_height, EntryModel, TargetModel,
};
use crate::authority::{total_weight, AuthoritiesModel};
use crate::bridge::{id_of, BridgeModel};
use crate::error::Error;
use crate::header::Header;
use crate::justification::{
    ancestry_valid, first_precommit_error, is_supermajority, justification_verdict,
    lemma_first_error_stays, on_a_walk, precommit_error, voted_before, votes_weight,
    GrandpaJustification, SignedPrecommit,
};
use crate::primitives::{Config, OperatingMode};

verus! {

/// The bridge after the first `n` of `submissions`, made one after the
/// other.
pub open spec fn after_all(
    bridge: BridgeModel,
    submissions: Seq<(Header, GrandpaJustification)>,
    n: nat,
) -> BridgeModel
    decreases n,
{
    if n == 0 {
        bridge
    } else {
        after_all(bridge, submissions, (n - 1) as nat).after_submit(
            submissions[n - 1].0,
            submissions[n - 1].1,
        )
    }
}

/// An accepted header has a higher number than the best finalized header
/// before it, and becomes the best finalized header.
pub proof fn lemma_import_raises_best(
    bridge: BridgeModel,
    header: Header,
    justification: GrandpaJustification,
)
    requires
        bridge.submit_verdict(header, justification) is Ok,
    ensures
        bridge.chain is Some,
        header.number > bridge.chain.unwrap().best_finalized.number,
        bridge.after_submit(header, justification).chain.unwrap().best_finalized == id_of(header),
{
}

/// Submissions never take a bootstrapped bridge back: after any number of
/// them it is still bootstrapped, and its best finalized number is no lower
/// than before.
pub proof fn lemma_best_never_falls(
    bridge: BridgeModel,
    submissions: Seq<(Header, GrandpaJustification)>,
    n: nat,
)
    requires
        bridge.chain is Some,
        n <= submissions.len(),
    ensures
        after_all(bridge, submissions, n).chain is Some,
        after_all(bridge, submissions, n).chain.unwrap().best_finalized.number
            >= bridge.chain.unwrap().best_finalized.number,
    decreases n,
{
    if n > 0 {
        lemma_best_never_falls(bridge, submissions, (n - 1) as nat);
    }
}

/// In any sequence of submissions, each accepted header has a higher number
/// than the best finalized header at the time, hence than every header
/// accepted before it, and is the best finalized header afterwards.
pub proof fn lemma_imports_rise(
    bridge: BridgeModel,
    submissions: Seq<(Header, GrandpaJustification)>,
    i: nat,
)
    requires
        i < submissions.len(),
        after_all(bridge, submissions, i).submit_verdict(submissions[i as int].0, submissions[i as int].1)
            is Ok,
    ensures
        after_all(bridge, submissions, i).chain is Some,
        submissions[i as int].0.number > after_all(
            bridge,
            submissions,
            i,
        ).chain.unwrap().best_finalized.number,
        after_all(bridge, submissions, i + 1).chain.unwrap().best_finalized == id_of(
            submissions[i as int].0,
        ),
{
    lemma_import_raises_best(
        after_all(bridge, submissions, i),
        submissions[i as int].0,
        submissions[i as int].1,
    );
}

/// The weight decides: an accepted justification has more than two thirds
/// of the total weight behind it; one with exactly two thirds, or less, is
/// refused; and the refusal for want of weight comes only then.
pub proof fn lemma_threshold(
    config: Config,
    header: Header,
    authorities: AuthoritiesModel,
    justification: GrandpaJustification,
)
    ensures
        ({
            let precommits = justification.commit.precommits@;
            let votes = votes_weight(authorities, precommits, precommits.len());
            let total = total_weight(authorities);
            let verdict = justification_verdict(config, header, authorities, justification);
            &&& verdict is Ok ==> 3 * votes > 2 * total
            &&& 3 * votes <= 2 * total ==> verdict is Err
            &&& verdict == Err::<(), Error>(Error::InsufficientWeight) ==> 3 * votes <= 2 * total
        }),
{
    let precommits = justification.commit.precommits@;
    let votes = votes_weight(authorities, precommits, precommits.len());
    let total = total_weight(authorities);
    let verdict = justification_verdict(config, header, authorities, justification);
    let fault = first_precommit_error(
        authorities,
        justification.round,
        justification.set_id,
        precommits,
        precommits.len(),
    );
    assert(is_supermajority(votes, total) == (3 * votes > 2 * total));
    if verdict is Ok {
        assert(fault is None);
        assert(is_supermajority(votes, total));
    }
    if verdict == Err::<(), Error>(Error::InsufficientWeight) {
        if fault is Some {
            lemma_fault_kinds(
                authorities,
                justification.round,
                justification.set_id,
                precommits,
                precommits.len(),
            );
        }
        assert(!is_supermajority(votes, total));
    }
}

/// A faulty precommit is reported as signed by a stranger, badly signed, or
/// a second vote, and as nothing else.
pub proof fn lemma_fault_kinds(
    authorities: AuthoritiesModel,
    round: u64,
    set_id: u64,
    precommits: Seq<SignedPrecommit>,
    n: nat,
)
    ensures
        match first_precommit_error(authorities, round, set_id, precommits, n) {
            Some(e) => e == Error::UnknownAuthority || e == Error::BadSignature || e
                == Error::DuplicateVote,
            None => true,
        },
    decreases n,
{
    if n > 0 {
        lemma_fault_kinds(authorities, round, set_id, precommits, (n - 1) as nat);
    }
}

/// A justification made under another set id than the current one is
/// refused, whatever its signatures are worth; a bridge in normal mode that
/// is offered a higher header says why.
pub proof fn lemma_replay_rejected(
    bridge: BridgeModel,
    header: Header,
    justification: GrandpaJustification,
)
    requires
        bridge.chain is Some,
        justification.set_id != bridge.chain.unwrap().tracker.set_id,
    ensures
        bridge.submit_verdict(header, justification) is Err,
        bridge.after_submit(header, justification) == bridge,
        bridge.mode == OperatingMode::Normal && header.number
            > bridge.chain.unwrap().best_finalized.number ==> bridge.submit_verdict(
            header,
            justification,
        ) == Err::<(), Error>(Error::InvalidAuthoritySetId),
{
}

/// Submissions never take the set id of a bootstrapped bridge back.
pub proof fn lemma_set_id_never_falls(
    bridge: BridgeModel,
    submissions: Seq<(Header, GrandpaJustification)>,
    n: nat,
)
    requires
        bridge.chain is Some,
        n <= submissions.len(),
    ensures
        after_all(bridge, submissions, n).chain is Some,
        after_all(bridge, submissions, n).chain.unwrap().tracker.set_id
            >= bridge.chain.unwrap().tracker.set_id,
    decreases n,
{
    if n > 0 {
        lemma_set_id_never_falls(bridge, submissions, (n - 1) as nat);
    }
}

/// Once the bridge has moved past a set id, a justification made under it is
/// refused for good: whatever is submitted in between, it is refused
/// afterwards.
pub proof fn lemma_old_set_rejected_for_good(
    bridge: BridgeModel,
    submissions: Seq<(Header, GrandpaJustification)>,
    n: nat,
    header: Header,
    justification: GrandpaJustification,
)
    requires
        bridge.chain is Some,
        justification.set_id < bridge.chain.unwrap().tracker.set_id,
        n <= submissions.len(),
    ensures
        after_all(bridge, submissions, n).submit_verdict(header, justification) is Err,
{
    lemma_set_id_never_falls(bridge, submissions, n);
    lemma_replay_rejected(after_all(bridge, submissions, n), header, justification);
}

/// Two precommits of one authority are never both counted: a justification
/// that holds two is refused.
pub proof fn lemma_duplicate_vote_rejected(
    config: Config,
    header: Header,
    authorities: AuthoritiesModel,
    justification: GrandpaJustification,
    a: int,
    b: int,
)
    requires
        0 <= a < b < justification.commit.precommits@.len(),
        justification.commit.precommits@[a].authority_id@
            == justification.commit.precommits@[b].authority_id@,
    ensures
        justification_verdict(config, header, authorities, justification) is Err,
{
    let precommits = justification.commit.precommits@;
    let round = justification.round;
    let set_id = justification.set_id;
    assert(voted_before(precommits, b));
    assert(precommit_error(authorities, round, set_id, precommits, b) is Some);
    assert(first_precommit_error(authorities, round, set_id, precommits, (b + 1) as nat) is Some);
    lemma_first_error_stays(
        authorities,
        round,
        set_id,
        precommits,
        (b + 1) as nat,
        precommits.len(),
    );
}

/// A refused submission leaves the bridge as it was: the best finalized
/// header, the authority set and all the rest.
pub proof fn lemma_refusal_changes_nothing(
    bridge: BridgeModel,
    header: Header,
    justification: GrandpaJustification,
)
    requires
        bridge.submit_verdict(header, justification) is Err,
    ensures
        bridge.after_submit(header, justification) == bridge,
{
}

/// A halted bridge refuses every submission as halted and stays as it is.
pub proof fn lemma_halted_refuses(
    bridge: BridgeModel,
    header: Header,
    justification: GrandpaJustification,
)
    requires
        bridge.mode == OperatingMode::Halted,
    ensures
        bridge.submit_verdict(header, justification) == Err::<(), Error>(Error::Halted),
        bridge.after_submit(header, justification) == bridge,
{
}

/// Halting, a refused submission and resuming leave a bridge that was in
/// normal mode exactly as it was: the same proof, submitted again, meets the
/// verdict it would have met without the halt.
pub proof fn lemma_resume_restores(
    bridge: BridgeModel,
    header: Header,
    justification: GrandpaJustification,
)
    requires
        bridge.mode == OperatingMode::Normal,
    ensures
        ({
            let halted = bridge.with_mode(OperatingMode::Halted);
            let resumed = halted.after_submit(header, justification).with_mode(
                OperatingMode::Normal,
            );
            &&& halted.submit_verdict(header, justification) == Err::<(), Error>(Error::Halted)
            &&& resumed == bridge
            &&& resumed.submit_verdict(header, justification) == bridge.submit_verdict(
                header,
                justification,
            )
        }),
{
}

/// Every header that a walk passes is the first of the pool with its hash,
/// and is not the target.
pub proof fn lemma_visited_first(target: TargetModel, pool: Seq<EntryModel>, hash: Seq<u8>, m: int)
    requires
        visited(target, pool, hash).contains(m),
    ensures
        is_entry_index(pool, pool[m].hash, m),
        pool[m].hash != target.hash,
    decreases walk_height(target, pool, hash),
{
    lemma_known_has_index(pool, hash);
    let index = entry_index(pool, hash);
    let entry = pool[index];
    if m != index {
        lemma_visited_first(target, pool, entry.parent_hash, m);
    }
}

/// In a pool whose every header lies on a walk, no two headers have the
/// same hash.
pub proof fn lemma_busy_pool_distinct(
    target: TargetModel,
    pool: Seq<EntryModel>,
    precommits: Seq<SignedPrecommit>,
)
    requires
        forall|k: int|
            0 <= k < pool.len() ==> #[trigger] on_a_walk(
                target,
                pool,
                precommits,
                precommits.len(),
                k,
            ),
    ensures
        forall|a: int, b: int|
            0 <= a < b < pool.len() ==> (#[trigger] pool[a]).hash != (#[trigger] pool[b]).hash,
{
    assert forall|a: int, b: int| 0 <= a < b < pool.len() implies (#[trigger] pool[a]).hash != (
    #[trigger] pool[b]).hash by {
        assert(on_a_walk(target, pool, precommits, precommits.len(), b));
        let i = choose|i: int|
            0 <= i < precommits.len() && visited(
                target,
                pool,
                (#[trigger] precommits[i]).vote.target_hash@,
            ).contains(b);
        lemma_visited_first(target, pool, precommits[i].vote.target_hash@, b);
    }
}

/// Looking up a hash in a pool of distinct hashes from which the header at
/// `k` was taken: that header is gone, every other is found as before.
pub proof fn lemma_lookup_after_removal(pool: Seq<EntryModel>, k: int, hash: Seq<u8>)
    requires
        0 <= k < pool.len(),
        forall|a: int, b: int|
            0 <= a < b < pool.len() ==> (#[trigger] pool[a]).hash != (#[trigger] pool[b]).hash,
    ensures
        known(pool.remove(k), hash) == (known(pool, hash) && entry_index(pool, hash) != k),
        known(pool.remove(k), hash) ==> pool.remove(k)[entry_index(pool.remove(k), hash)]
            == pool[entry_index(pool, hash)],
{
    let rest = pool.remove(k);
    assert(rest.len() == pool.len() - 1);
    assert forall|m: int| 0 <= m < rest.len() implies #[trigger] rest[m] == (if m < k {
        pool[m]
    } else {
        pool[m + 1]
    }) by {}
    if known(pool, hash) {
        lemma_known_has_index(pool, hash);
        let index = entry_index(pool, hash);
        if index != k {
            let shifted = if index < k {
                index
            } else {
                index - 1
            };
            assert(rest[shifted] == pool[index]);
            assert(known(rest, hash));
        }
    }
    if known(rest, hash) {
        lemma_known_has_index(rest, hash);
        let found = entry_index(rest, hash);
        let origin = if found < k {
            found
        } else {
            found + 1
        };
        assert(rest[found] == pool[origin]);
        assert(pool[origin].hash == hash);
        assert(known(pool, hash));
        lemma_known_has_index(pool, hash);
        let index = entry_index(pool, hash);
        if index < origin {
            assert(pool[index].hash != pool[origin].hash);
        }
        if origin < index {
            assert(pool[origin].hash != pool[index].hash);
        }
    }
}

/// A walk that passes the header at `k` ends nowhere once that header is
/// taken from the pool.
pub proof fn lemma_walk_broken(target: TargetModel, pool: Seq<EntryModel>, k: int, hash: Seq<u8>)
    requires
        0 <= k < pool.len(),
        forall|a: int, b: int|
            0 <= a < b < pool.len() ==> (#[trigger] pool[a]).hash != (#[trigger] pool[b]).hash,
        reaches_target(target, pool, hash),
        visited(target, pool, hash).contains(k),
    ensures
        !reaches_target(target, pool.remove(k), hash),
    decreases walk_height(target, pool, hash),
{
    let rest = pool.remove(k);
    lemma_known_has_index(pool, hash);
    lemma_lookup_after_removal(pool, k, hash);
    let index = entry_index(pool, hash);
    let entry = pool[index];
    if index != k {
        lemma_walk_broken(target, pool, k, entry.parent_hash);
        assert(rest[entry_index(rest, hash)] == entry);
    }
}

/// Every supplied header is needed: a valid ancestry is no longer valid
/// once any one header is taken from the pool.
pub proof fn lemma_ancestry_needs_every_header(
    target: TargetModel,
    pool: Seq<EntryModel>,
    precommits: Seq<SignedPrecommit>,
    k: int,
)
    requires
        ancestry_valid(target, pool, precommits),
        0 <= k < pool.len(),
    ensures
        !ancestry_valid(target, pool.remove(k), precommits),
{
    lemma_busy_pool_distinct(target, pool, precommits);
    assert(on_a_walk(target, pool, precommits, precommits.len(), k));
    let i = choose|i: int|
        0 <= i < precommits.len() && visited(
            target,
            pool,
            (#[trigger] precommits[i]).vote.target_hash@,
        ).contains(k);
    let vote = precommits[i].vote;
    lemma_walk_broken(target, pool, k, vote.target_hash@);
}

/// Taking any one header from the ancestry of an accepted justification
/// makes it a justification that is refused for its ancestry.
pub proof fn lemma_missing_ancestor_rejected(
    config: Config,
    header: Header,
    authorities: AuthoritiesModel,
    justification: GrandpaJustification,
    pruned: GrandpaJustification,
    k: int,
)
    requires
        justification_verdict(config, header, authorities, justification) is Ok,
        0 <= k < justification.votes_ancestries@.len(),
        pruned.round == justification.round,
        pruned.set_id == justification.set_id,
        pruned.commit == justification.commit,
        pruned.votes_ancestries@ == justification.votes_ancestries@.remove(k),
    ensures
        justification_verdict(config, header, authorities, pruned) == Err::<(), Error>(
            Error::InvalidAncestry,
        ),
{
    let target = id_of(header);
    let precommits = justification.commit.precommits@;
    let pool = pool_of(justification.votes_ancestries@);
    assert(pool_of(pruned.votes_ancestries@) =~= pool.remove(k));
    lemma_ancestry_needs_every_header(target, pool, precommits, k);
}

} // verus!
