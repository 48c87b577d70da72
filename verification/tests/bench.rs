use bridge_grandpa::bench::{
    header_number, prepare_benchmark_data, unit_weight_authorities, MAX_VALIDATOR_SET_SIZE,
    MAX_VOTE_ANCESTRIES, TEST_GRANDPA_ROUND, TEST_GRANDPA_SET_ID,
};
use bridge_grandpa::bridge::Bridge;
use bridge_grandpa::error::Error;
use bridge_grandpa::header::Header;
use bridge_grandpa::justification::{
    encode_vote, Commit, GrandpaJustification, SignedPrecommit, Vote,
};
use bridge_grandpa::primitives::{Config, HeaderId, OperatingMode};
use sp_core::Pair;

fn pair(seed: u8) -> sp_core::ed25519::Pair {
    sp_core::ed25519::Pair::from_seed(&[seed; 32])
}

fn first_header() -> Header {
    Header {
        parent_hash: [0; 32],
        number: 0,
        state_root: [0; 32],
        extrinsics_root: [0; 32],
        digest: Vec::new(),
    }
}

fn bridge(headers_to_keep: u32) -> Bridge {
    Bridge::new(Config {
        headers_to_keep,
        max_precommits: MAX_VALIDATOR_SET_SIZE,
        max_ancestries: MAX_VOTE_ANCESTRIES,
    })
    .unwrap()
}

#[test]
fn header_number_follows_the_window() {
    assert_eq!(header_number(0), 1);
    assert_eq!(header_number(1024), 1025);
    assert_eq!(header_number(u32::MAX - 1), u32::MAX);
}

#[test]
fn measured_sizes() {
    assert_eq!(MAX_VOTE_ANCESTRIES, 1000);
    assert_eq!(MAX_VALIDATOR_SET_SIZE, 1024);
    assert_eq!(TEST_GRANDPA_ROUND, 1);
    assert_eq!(TEST_GRANDPA_SET_ID, 1);
}

#[test]
fn every_authority_gets_the_weight_one() {
    assert_eq!(unit_weight_authorities(&vec![]), vec![]);
    assert_eq!(
        unit_weight_authorities(&vec![[3; 32], [1; 32], [2; 32]]),
        vec![([3; 32], 1), ([1; 32], 1), ([2; 32], 1)]
    );
}

#[test]
fn the_prepared_bridge_is_bootstrapped() {
    let mut bridge = bridge(5);
    let keys = vec![pair(1).public().0, pair(2).public().0];
    let header = prepare_benchmark_data(&mut bridge, first_header(), &keys).unwrap();
    assert_eq!(
        header,
        Header {
            parent_hash: first_header().hash(),
            number: 6,
            state_root: [0; 32],
            extrinsics_root: [0; 32],
            digest: Vec::new(),
        }
    );
    assert_eq!(
        bridge.best_finalized(),
        Some(HeaderId { number: 0, hash: first_header().hash() })
    );
    assert_eq!(bridge.authority_set_id(), Some(TEST_GRANDPA_SET_ID));
    assert_eq!(bridge.authorities(), Some(vec![(keys[0], 1), (keys[1], 1)]));
    assert_eq!(bridge.operating_mode(), OperatingMode::Normal);
}

#[test]
fn a_bridge_is_prepared_once() {
    let mut bridge = bridge(5);
    let keys = vec![pair(1).public().0];
    assert!(prepare_benchmark_data(&mut bridge, first_header(), &keys).is_ok());
    let before = bridge.clone();
    assert_eq!(
        prepare_benchmark_data(&mut bridge, first_header(), &keys),
        Err(Error::AlreadyInitialized)
    );
    assert_eq!(bridge, before);
}

#[test]
fn a_repeated_key_spoils_the_preparation() {
    let mut bridge = bridge(5);
    let before = bridge.clone();
    let keys = vec![pair(1).public().0, pair(1).public().0];
    assert_eq!(
        prepare_benchmark_data(&mut bridge, first_header(), &keys),
        Err(Error::InvalidAuthoritySet)
    );
    assert_eq!(bridge, before);
}

#[test]
fn the_prepared_header_is_accepted_with_its_justification() {
    let mut bridge = bridge(3);
    let seeds: Vec<u8> = (1..=10).collect();
    let keys: Vec<[u8; 32]> = seeds.iter().map(|s| pair(*s).public().0).collect();
    let header = prepare_benchmark_data(&mut bridge, first_header(), &keys).unwrap();

    let mut votes_ancestries = Vec::new();
    let mut head = header.clone();
    for _ in 0..20 {
        head = Header {
            parent_hash: head.hash(),
            number: head.number + 1,
            state_root: [0; 32],
            extrinsics_root: [0; 32],
            digest: Vec::new(),
        };
        votes_ancestries.push(head.clone());
    }
    let vote = Vote { target_hash: head.hash(), target_number: head.number };
    let payload = encode_vote(&vote, TEST_GRANDPA_ROUND, TEST_GRANDPA_SET_ID);
    let justification = GrandpaJustification {
        round: TEST_GRANDPA_ROUND,
        set_id: TEST_GRANDPA_SET_ID,
        commit: Commit {
            target_hash: header.hash(),
            target_number: header.number,
            precommits: seeds
                .iter()
                .map(|s| SignedPrecommit {
                    vote,
                    signature: pair(*s).sign(&payload).0,
                    authority_id: pair(*s).public().0,
                })
                .collect(),
        },
        votes_ancestries,
    };
    let expected_hash = header.hash();
    assert_eq!(bridge.submit_finality_proof(header, justification), Ok(()));
    assert_eq!(bridge.best_finalized().unwrap().hash, expected_hash);
    assert!(bridge.is_imported(&expected_hash));
}
