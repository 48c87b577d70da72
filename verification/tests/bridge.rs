use bridge_grandpa::bridge::Bridge;
use bridge_grandpa::error::Error;
use bridge_grandpa::header::{DigestItem, Header};
use bridge_grandpa::justification::{
    encode_vote, Commit, GrandpaJustification, SignedPrecommit, Vote,
};
use bridge_grandpa::primitives::{Config, HeaderId, OperatingMode};
use parity_scale_codec::Encode;
use sp_core::Pair;

const ROUND: u64 = 1;

fn config(headers_to_keep: u32) -> Config {
    Config { headers_to_keep, max_precommits: 8, max_ancestries: 8 }
}

fn pair(seed: u8) -> sp_core::ed25519::Pair {
    sp_core::ed25519::Pair::from_seed(&[seed; 32])
}

fn key(seed: u8) -> [u8; 32] {
    pair(seed).public().0
}

fn keys(seeds: &[u8]) -> Vec<([u8; 32], u64)> {
    seeds.iter().map(|s| (key(*s), 1)).collect()
}

fn genesis() -> Header {
    Header {
        parent_hash: [0; 32],
        number: 0,
        state_root: [0; 32],
        extrinsics_root: [0; 32],
        digest: Vec::new(),
    }
}

fn child_of(parent: &Header) -> Header {
    Header {
        parent_hash: parent.hash(),
        number: parent.number + 1,
        state_root: [parent.number as u8; 32],
        extrinsics_root: [0; 32],
        digest: Vec::new(),
    }
}

fn change_log(seeds: &[u8], delay: u32) -> DigestItem {
    let next_authorities = seeds
        .iter()
        .map(|s| (sp_consensus_grandpa::AuthorityId::from(pair(*s).public()), 1u64))
        .collect();
    DigestItem::Consensus(
        *b"FRNK",
        sp_consensus_grandpa::ConsensusLog::<u32>::ScheduledChange(
            sp_consensus_grandpa::ScheduledChange { next_authorities, delay },
        )
        .encode(),
    )
}

fn precommit(seed: u8, voted: &Header, set_id: u64) -> SignedPrecommit {
    let vote = Vote { target_hash: voted.hash(), target_number: voted.number };
    let signature = pair(seed).sign(&encode_vote(&vote, ROUND, set_id)).0;
    SignedPrecommit { vote, signature, authority_id: key(seed) }
}

fn justify(header: &Header, signers: &[u8], set_id: u64) -> GrandpaJustification {
    GrandpaJustification {
        round: ROUND,
        set_id,
        commit: Commit {
            target_hash: header.hash(),
            target_number: header.number,
            precommits: signers.iter().map(|s| precommit(*s, header, set_id)).collect(),
        },
        votes_ancestries: Vec::new(),
    }
}

fn bootstrapped(headers_to_keep: u32, seeds: &[u8], set_id: u64) -> Bridge {
    let mut bridge = Bridge::new(config(headers_to_keep)).unwrap();
    assert_eq!(bridge.initialize(genesis(), keys(seeds), set_id, OperatingMode::Normal), Ok(()));
    bridge
}

fn id(header: &Header) -> HeaderId {
    HeaderId { number: header.number, hash: header.hash() }
}

#[test]
fn a_bridge_must_remember_a_header() {
    assert!(Bridge::new(config(0)).is_none());
    assert!(Bridge::new(config(1)).is_some());
}

#[test]
fn a_new_bridge_knows_nothing() {
    let bridge = Bridge::new(config(3)).unwrap();
    assert_eq!(bridge.best_finalized(), None);
    assert_eq!(bridge.authority_set_id(), None);
    assert_eq!(bridge.authorities(), None);
    assert_eq!(bridge.imported_count(), 0);
    assert_eq!(bridge.operating_mode(), OperatingMode::Normal);
    assert_eq!(bridge.config(), config(3));
    assert!(!bridge.is_imported(&genesis().hash()));
}

#[test]
fn a_submission_before_the_bootstrap_is_refused() {
    let mut bridge = Bridge::new(config(3)).unwrap();
    let header = child_of(&genesis());
    let before = bridge.clone();
    assert_eq!(
        bridge.submit_finality_proof(header.clone(), justify(&header, &[1, 2, 3], 0)),
        Err(Error::NotInitialized)
    );
    assert_eq!(bridge, before);
}

#[test]
fn the_bootstrap_sets_the_first_state() {
    let mut bridge = Bridge::new(config(3)).unwrap();
    assert_eq!(bridge.initialize(genesis(), keys(&[1, 2, 3]), 5, OperatingMode::Normal), Ok(()));
    assert_eq!(bridge.best_finalized(), Some(id(&genesis())));
    assert_eq!(bridge.authority_set_id(), Some(5));
    assert_eq!(bridge.authorities(), Some(keys(&[1, 2, 3])));
    assert_eq!(bridge.imported_count(), 1);
    assert!(bridge.is_imported(&genesis().hash()));
    assert_eq!(bridge.operating_mode(), OperatingMode::Normal);
}

#[test]
fn the_bootstrap_happens_once() {
    let mut bridge = bootstrapped(3, &[1, 2, 3], 0);
    let before = bridge.clone();
    let other = child_of(&genesis());
    assert_eq!(
        bridge.initialize(other, keys(&[4, 5]), 9, OperatingMode::Halted),
        Err(Error::AlreadyInitialized)
    );
    assert_eq!(bridge, before);
}

#[test]
fn the_bootstrap_refuses_a_repeated_authority() {
    let mut bridge = Bridge::new(config(3)).unwrap();
    let before = bridge.clone();
    assert_eq!(
        bridge.initialize(genesis(), keys(&[1, 2, 1]), 0, OperatingMode::Normal),
        Err(Error::InvalidAuthoritySet)
    );
    assert_eq!(bridge, before);
    assert_eq!(bridge.initialize(genesis(), keys(&[1, 2]), 0, OperatingMode::Normal), Ok(()));
}

#[test]
fn the_bootstrap_may_leave_the_bridge_halted() {
    let mut bridge = Bridge::new(config(3)).unwrap();
    assert_eq!(bridge.initialize(genesis(), keys(&[1, 2, 3]), 0, OperatingMode::Halted), Ok(()));
    assert_eq!(bridge.operating_mode(), OperatingMode::Halted);
    let header = child_of(&genesis());
    assert_eq!(
        bridge.submit_finality_proof(header.clone(), justify(&header, &[1, 2, 3], 0)),
        Err(Error::Halted)
    );
}

#[test]
fn a_halted_bridge_may_still_be_bootstrapped() {
    let mut bridge = Bridge::new(config(3)).unwrap();
    bridge.halt();
    let header = child_of(&genesis());
    assert_eq!(
        bridge.submit_finality_proof(header.clone(), justify(&header, &[1, 2, 3], 0)),
        Err(Error::Halted)
    );
    assert_eq!(bridge.initialize(genesis(), keys(&[1, 2, 3]), 0, OperatingMode::Normal), Ok(()));
    assert_eq!(
        bridge.submit_finality_proof(header.clone(), justify(&header, &[1, 2, 3], 0)),
        Ok(())
    );
}

#[test]
fn a_proved_header_becomes_the_best_finalized() {
    let mut bridge = bootstrapped(3, &[1, 2, 3], 0);
    let header = child_of(&genesis());
    assert_eq!(
        bridge.submit_finality_proof(header.clone(), justify(&header, &[1, 2, 3], 0)),
        Ok(())
    );
    assert_eq!(bridge.best_finalized(), Some(id(&header)));
    assert!(bridge.is_imported(&header.hash()));
    assert!(bridge.is_imported(&genesis().hash()));
    assert_eq!(bridge.imported_count(), 2);
    assert_eq!(bridge.authority_set_id(), Some(0));
    assert_eq!(bridge.operating_mode(), OperatingMode::Normal);
}

#[test]
fn headers_may_be_skipped() {
    let mut bridge = bootstrapped(3, &[1, 2, 3], 0);
    let mut header = child_of(&genesis());
    header.number = 100;
    assert_eq!(
        bridge.submit_finality_proof(header.clone(), justify(&header, &[1, 2, 3], 0)),
        Ok(())
    );
    assert_eq!(bridge.best_finalized(), Some(id(&header)));
}

#[test]
fn imports_rise_strictly() {
    let mut bridge = bootstrapped(3, &[1, 2, 3], 0);
    let first = child_of(&genesis());
    let second = child_of(&first);
    assert_eq!(
        bridge.submit_finality_proof(second.clone(), justify(&second, &[1, 2, 3], 0)),
        Ok(())
    );
    let before = bridge.clone();
    // the same header again
    assert_eq!(
        bridge.submit_finality_proof(second.clone(), justify(&second, &[1, 2, 3], 0)),
        Err(Error::InvalidNumber)
    );
    // a lower one
    assert_eq!(
        bridge.submit_finality_proof(first.clone(), justify(&first, &[1, 2, 3], 0)),
        Err(Error::InvalidNumber)
    );
    // another header of the same number
    let mut fork = second.clone();
    fork.state_root = [0xee; 32];
    assert_eq!(
        bridge.submit_finality_proof(fork.clone(), justify(&fork, &[1, 2, 3], 0)),
        Err(Error::InvalidNumber)
    );
    assert_eq!(
        bridge.submit_finality_proof(genesis(), justify(&genesis(), &[1, 2, 3], 0)),
        Err(Error::InvalidNumber)
    );
    assert_eq!(bridge, before);
    assert_eq!(bridge.best_finalized(), Some(id(&second)));
    let third = child_of(&second);
    assert_eq!(
        bridge.submit_finality_proof(third.clone(), justify(&third, &[1, 2, 3], 0)),
        Ok(())
    );
    assert_eq!(bridge.best_finalized(), Some(id(&third)));
}

#[test]
fn the_supermajority_boundary() {
    let header = child_of(&genesis());
    let mut bridge = bootstrapped(3, &[1, 2, 3], 0);
    let before = bridge.clone();
    assert_eq!(
        bridge.submit_finality_proof(header.clone(), justify(&header, &[1, 2], 0)),
        Err(Error::InsufficientWeight)
    );
    assert_eq!(bridge, before);
    assert_eq!(
        bridge.submit_finality_proof(header.clone(), justify(&header, &[1, 2, 3], 0)),
        Ok(())
    );
}

#[test]
fn a_refused_submission_changes_nothing() {
    let header = child_of(&genesis());
    let mut bridge = bootstrapped(3, &[1, 2, 3], 0);
    let before = bridge.clone();
    let best = bridge.best_finalized();
    let authorities = bridge.authorities();

    let mut bad_signature = justify(&header, &[1, 2, 3], 0);
    bad_signature.commit.precommits[2].signature[0] ^= 1;
    let mut wrong_target = justify(&header, &[1, 2, 3], 0);
    wrong_target.commit.target_number = 2;
    let mut idle_header = justify(&header, &[1, 2, 3], 0);
    idle_header.votes_ancestries.push(child_of(&header));
    let attempts = vec![
        (justify(&header, &[1, 2], 0), Error::InsufficientWeight),
        (justify(&header, &[1, 2, 4], 0), Error::UnknownAuthority),
        (justify(&header, &[1, 2, 2], 0), Error::DuplicateVote),
        (justify(&header, &[1, 2, 3], 1), Error::InvalidAuthoritySetId),
        (bad_signature, Error::BadSignature),
        (wrong_target, Error::InvalidJustificationTarget),
        (idle_header, Error::InvalidAncestry),
    ];
    for (justification, error) in attempts {
        assert_eq!(bridge.submit_finality_proof(header.clone(), justification), Err(error));
        assert_eq!(bridge, before);
        assert_eq!(bridge.best_finalized(), best);
        assert_eq!(bridge.authorities(), authorities);
        assert_eq!(bridge.authority_set_id(), Some(0));
    }
    assert_eq!(
        bridge.submit_finality_proof(header.clone(), justify(&header, &[1, 2, 3], 0)),
        Ok(())
    );
    assert_ne!(bridge, before);
}

#[test]
fn the_limits_of_the_bridge_hold() {
    let header = child_of(&genesis());
    let seeds: Vec<u8> = (1..=9).collect();
    let mut bridge = bootstrapped(3, &seeds, 0);
    assert_eq!(
        bridge.submit_finality_proof(header.clone(), justify(&header, &seeds, 0)),
        Err(Error::TooManyPrecommits)
    );
    let mut ancestry = Vec::new();
    let mut head = header.clone();
    for _ in 0..9 {
        head = child_of(&head);
        ancestry.push(head.clone());
    }
    let mut justification = justify(&header, &[], 0);
    justification.commit.precommits =
        seeds[..8].iter().map(|s| precommit(*s, &head, 0)).collect();
    justification.votes_ancestries = ancestry.clone();
    assert_eq!(
        bridge.submit_finality_proof(header.clone(), justification.clone()),
        Err(Error::TooManyAncestries)
    );
    justification.commit.precommits =
        seeds[..8].iter().map(|s| precommit(*s, &ancestry[7], 0)).collect();
    justification.votes_ancestries.pop();
    assert_eq!(bridge.submit_finality_proof(header.clone(), justification), Ok(()));
}

#[test]
fn a_halted_bridge_refuses_and_a_resumed_one_accepts() {
    let header = child_of(&genesis());
    let justification = justify(&header, &[1, 2, 3], 0);
    let mut bridge = bootstrapped(3, &[1, 2, 3], 0);
    let before = bridge.clone();
    bridge.halt();
    assert_eq!(bridge.operating_mode(), OperatingMode::Halted);
    let halted = bridge.clone();
    assert_eq!(
        bridge.submit_finality_proof(header.clone(), justification.clone()),
        Err(Error::Halted)
    );
    assert_eq!(
        bridge.submit_finality_proof(header.clone(), justify(&header, &[1], 7)),
        Err(Error::Halted)
    );
    assert_eq!(bridge, halted);
    assert_eq!(bridge.best_finalized(), Some(id(&genesis())));
    bridge.resume();
    assert_eq!(bridge, before);
    assert_eq!(bridge.submit_finality_proof(header.clone(), justification), Ok(()));
    assert_eq!(bridge.best_finalized(), Some(id(&header)));
}

#[test]
fn the_mode_is_set_and_nothing_else() {
    let mut bridge = bootstrapped(3, &[1, 2, 3], 0);
    let best = bridge.best_finalized();
    bridge.set_operating_mode(OperatingMode::Halted);
    assert_eq!(bridge.operating_mode(), OperatingMode::Halted);
    bridge.set_operating_mode(OperatingMode::Halted);
    assert_eq!(bridge.operating_mode(), OperatingMode::Halted);
    assert_eq!(bridge.best_finalized(), best);
    assert_eq!(bridge.authorities(), Some(keys(&[1, 2, 3])));
    bridge.set_operating_mode(OperatingMode::Normal);
    assert_eq!(bridge.operating_mode(), OperatingMode::Normal);
}

#[test]
fn the_window_evicts_the_oldest_header() {
    let mut bridge = bootstrapped(2, &[1, 2, 3], 0);
    let first = child_of(&genesis());
    let second = child_of(&first);
    let third = child_of(&second);
    assert_eq!(
        bridge.submit_finality_proof(first.clone(), justify(&first, &[1, 2, 3], 0)),
        Ok(())
    );
    assert_eq!(bridge.imported_count(), 2);
    assert!(bridge.is_imported(&genesis().hash()));
    assert!(bridge.is_imported(&first.hash()));
    assert_eq!(
        bridge.submit_finality_proof(second.clone(), justify(&second, &[1, 2, 3], 0)),
        Ok(())
    );
    assert_eq!(bridge.imported_count(), 2);
    assert!(!bridge.is_imported(&genesis().hash()));
    assert!(bridge.is_imported(&first.hash()));
    assert!(bridge.is_imported(&second.hash()));
    assert_eq!(
        bridge.submit_finality_proof(third.clone(), justify(&third, &[1, 2, 3], 0)),
        Ok(())
    );
    assert_eq!(bridge.imported_count(), 2);
    assert!(!bridge.is_imported(&first.hash()));
    assert!(bridge.is_imported(&second.hash()));
    assert!(bridge.is_imported(&third.hash()));
    assert_eq!(bridge.best_finalized(), Some(id(&third)));
}

#[test]
fn a_window_of_one_holds_the_best_header() {
    let mut bridge = bootstrapped(1, &[1, 2, 3], 0);
    let first = child_of(&genesis());
    assert_eq!(bridge.imported_count(), 1);
    assert_eq!(
        bridge.submit_finality_proof(first.clone(), justify(&first, &[1, 2, 3], 0)),
        Ok(())
    );
    assert_eq!(bridge.imported_count(), 1);
    assert!(!bridge.is_imported(&genesis().hash()));
    assert!(bridge.is_imported(&first.hash()));
}

#[test]
fn a_change_without_delay_hands_over_at_once() {
    let mut bridge = bootstrapped(3, &[1, 2, 3], 0);
    let mut first = child_of(&genesis());
    first.digest.push(change_log(&[4, 5, 6], 0));
    assert_eq!(
        bridge.submit_finality_proof(first.clone(), justify(&first, &[1, 2, 3], 0)),
        Ok(())
    );
    assert_eq!(bridge.authority_set_id(), Some(1));
    assert_eq!(bridge.authorities(), Some(keys(&[4, 5, 6])));

    let second = child_of(&first);
    // the old set, under the old id and under the new one
    assert_eq!(
        bridge.submit_finality_proof(second.clone(), justify(&second, &[1, 2, 3], 0)),
        Err(Error::InvalidAuthoritySetId)
    );
    assert_eq!(
        bridge.submit_finality_proof(second.clone(), justify(&second, &[1, 2, 3], 1)),
        Err(Error::UnknownAuthority)
    );
    assert_eq!(
        bridge.submit_finality_proof(second.clone(), justify(&second, &[4, 5, 6], 1)),
        Ok(())
    );
    assert_eq!(bridge.best_finalized(), Some(id(&second)));
}

#[test]
fn a_justification_of_an_old_set_is_refused() {
    // the authorities stay, the set id moves on
    let mut bridge = bootstrapped(3, &[1, 2, 3], 0);
    let mut first = child_of(&genesis());
    first.digest.push(change_log(&[1, 2, 3], 0));
    assert_eq!(
        bridge.submit_finality_proof(first.clone(), justify(&first, &[1, 2, 3], 0)),
        Ok(())
    );
    assert_eq!(bridge.authority_set_id(), Some(1));
    let second = child_of(&first);
    let before = bridge.clone();
    assert_eq!(
        bridge.submit_finality_proof(second.clone(), justify(&second, &[1, 2, 3], 0)),
        Err(Error::InvalidAuthoritySetId)
    );
    assert_eq!(bridge, before);
    // signed for the old set and relabelled: the signatures no longer hold
    let mut relabelled = justify(&second, &[1, 2, 3], 0);
    relabelled.set_id = 1;
    assert_eq!(
        bridge.submit_finality_proof(second.clone(), relabelled),
        Err(Error::BadSignature)
    );
    assert_eq!(bridge, before);
    assert_eq!(
        bridge.submit_finality_proof(second.clone(), justify(&second, &[1, 2, 3], 1)),
        Ok(())
    );
}

#[test]
fn a_delayed_change_hands_over_at_its_block() {
    let mut bridge = bootstrapped(8, &[1, 2, 3], 0);
    let mut first = child_of(&genesis());
    first.digest.push(change_log(&[4, 5, 6], 2));
    assert_eq!(
        bridge.submit_finality_proof(first.clone(), justify(&first, &[1, 2, 3], 0)),
        Ok(())
    );
    assert_eq!(bridge.authority_set_id(), Some(0));
    assert_eq!(bridge.authorities(), Some(keys(&[1, 2, 3])));

    let second = child_of(&first);
    assert_eq!(
        bridge.submit_finality_proof(second.clone(), justify(&second, &[4, 5, 6], 1)),
        Err(Error::InvalidAuthoritySetId)
    );
    assert_eq!(
        bridge.submit_finality_proof(second.clone(), justify(&second, &[1, 2, 3], 0)),
        Ok(())
    );
    assert_eq!(bridge.authority_set_id(), Some(0));

    // block 3 is the activation block: the old set finalizes it and hands over
    let third = child_of(&second);
    assert_eq!(
        bridge.submit_finality_proof(third.clone(), justify(&third, &[1, 2, 3], 0)),
        Ok(())
    );
    assert_eq!(bridge.authority_set_id(), Some(1));
    assert_eq!(bridge.authorities(), Some(keys(&[4, 5, 6])));

    let fourth = child_of(&third);
    assert_eq!(
        bridge.submit_finality_proof(fourth.clone(), justify(&fourth, &[1, 2, 3], 0)),
        Err(Error::InvalidAuthoritySetId)
    );
    assert_eq!(
        bridge.submit_finality_proof(fourth.clone(), justify(&fourth, &[4, 5, 6], 1)),
        Ok(())
    );
}

#[test]
fn a_header_that_announces_an_invalid_set_is_refused() {
    let mut bridge = bootstrapped(3, &[1, 2, 3], 0);
    let mut first = child_of(&genesis());
    first.digest.push(change_log(&[4, 5, 4], 1));
    let before = bridge.clone();
    assert_eq!(
        bridge.submit_finality_proof(first.clone(), justify(&first, &[1, 2, 3], 0)),
        Err(Error::InvalidAuthoritySet)
    );
    assert_eq!(bridge, before);
}

#[test]
fn votes_for_a_descendant_finalize_the_header() {
    let mut bridge = bootstrapped(3, &[1, 2, 3], 0);
    let first = child_of(&genesis());
    let second = child_of(&first);
    let third = child_of(&second);
    let mut justification = justify(&first, &[], 0);
    justification.commit.precommits =
        vec![precommit(1, &third, 0), precommit(2, &third, 0), precommit(3, &second, 0)];
    justification.votes_ancestries = vec![second.clone(), third.clone()];
    let mut pruned = justification.clone();
    pruned.votes_ancestries.remove(0);
    let before = bridge.clone();
    assert_eq!(
        bridge.submit_finality_proof(first.clone(), pruned),
        Err(Error::InvalidAncestry)
    );
    assert_eq!(bridge, before);
    assert_eq!(bridge.submit_finality_proof(first.clone(), justification), Ok(()));
    assert_eq!(bridge.best_finalized(), Some(id(&first)));
    assert!(!bridge.is_imported(&third.hash()));
}

#[test]
fn an_imported_header_is_remembered_with_its_set_id() {
    let mut bridge = bootstrapped(3, &[1, 2, 3], 4);
    let record = bridge.imported_header(&genesis().hash()).unwrap();
    assert_eq!(record.header, genesis());
    assert_eq!(record.hash, genesis().hash());
    assert_eq!(record.authority_set_id, 4);

    let mut first = child_of(&genesis());
    first.digest.push(change_log(&[4, 5, 6], 0));
    assert_eq!(
        bridge.submit_finality_proof(first.clone(), justify(&first, &[1, 2, 3], 4)),
        Ok(())
    );
    assert_eq!(bridge.authority_set_id(), Some(5));
    let record = bridge.imported_header(&first.hash()).unwrap();
    assert_eq!(record.header, first);
    assert_eq!(record.authority_set_id, 4);
    assert!(bridge.imported_header(&[0xff; 32]).is_none());
    assert!(Bridge::new(config(1)).unwrap().imported_header(&genesis().hash()).is_none());
}
