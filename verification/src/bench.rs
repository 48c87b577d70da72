//! Helpers for measuring the cost of a finality proof submission: the cost
//! grows with the number of precommits and with the number of vote
//! ancestries in the justification.

use vstd::prelude::*;
use crate::authority::{authorities_model, AuthoritiesModel, AuthorityId, AuthorityList};
use crate::bridge::Bridge;
use crate::error::Error;
use crate::header::Header;
use crate::primitives::OperatingMode;

verus! {

/// Largest number of vote ancestries a measured justification carries.
pub const MAX_VOTE_ANCESTRIES: u32 = 1000;

/// Largest number of precommits a measured justification carries.
pub const MAX_VALIDATOR_SET_SIZE: u32 = 1024;

/// The voting round of a measured justification.
pub const TEST_GRANDPA_ROUND: u64 = 1;

/// The authority set id of a measured justification.
pub const TEST_GRANDPA_SET_ID: u64 = 1;

/// Number of the first header to import into a bridge whose retention window
/// is already full: the window holds headers `1..=headers_to_keep`, so the
/// next one is `headers_to_keep + 1`.
pub fn header_number(headers_to_keep: u32) -> (number: u32)
    requires
        headers_to_keep < u32::MAX,
    ensures
        number == headers_to_keep + 1,
{
    headers_to_keep + 1
}

/// The authorities `keys`, each with the weight one.
pub open spec fn unit_weights(keys: Seq<AuthorityId>) -> AuthoritiesModel {
    Seq::new(keys.len(), |i: int| (keys[i]@, 1u64))
}

/// Gives each of `keys` the weight one.
pub fn unit_weight_authorities(keys: &Vec<AuthorityId>) -> (list: AuthorityList)
    ensures
        authorities_model(list@) == unit_weights(keys@),
{
    let mut list: AuthorityList = Vec::new();
    let mut i: usize = 0;
    while i < keys.len()
        invariant
            i <= keys@.len(),
            list@.len() == i,
            forall|j: int| 0 <= j < i ==> list@[j] == (keys@[j], 1u64),
        decreases keys@.len() - i,
    {
        list.push((keys[i], 1));
        i += 1;
    }
    assert(authorities_model(list@) =~= unit_weights(keys@));
    list
}

/// Prepares a measurement on `bridge`: bootstraps it in normal mode with
/// the header `first` and the authorities `keys`, of weight one each, under
/// the test set id, and returns the header to submit. That header is an
/// empty child of `first` with the number that `header_number` gives for
/// the bridge's retention window. Refused as a bootstrap is, and then the
/// bridge is left as it was.
pub fn prepare_benchmark_data(bridge: &mut Bridge, first: Header, keys: &Vec<AuthorityId>) -> (result:
    Result<Header, Error>)
    requires
        old(bridge).wf(),
        old(bridge)@.config.headers_to_keep < u32::MAX,
    ensures
        final(bridge).wf(),
        final(bridge)@ == old(bridge)@.after_initialize(
            first,
            unit_weights(keys@),
            TEST_GRANDPA_SET_ID,
            OperatingMode::Normal,
        ),
        match result {
            Ok(header) => {
                &&& old(bridge)@.initialize_verdict(unit_weights(keys@)) is Ok
                &&& header.number == old(bridge)@.config.headers_to_keep + 1
                &&& header.parent_hash@ == first.hash_spec()
                &&& header.state_root@ == Seq::new(32, |i: int| 0u8)
                &&& header.extrinsics_root@ == Seq::new(32, |i: int| 0u8)
                &&& header.digest@.len() == 0
            },
            Err(e) => old(bridge)@.initialize_verdict(unit_weights(keys@)) == Err::<(), Error>(e)
                && *final(bridge) == *old(bridge),
        },
{
    let parent_hash = first.hash();
    let number = header_number(bridge.config().headers_to_keep);
    match bridge.initialize(
        first,
        unit_weight_authorities(keys),
        TEST_GRANDPA_SET_ID,
        OperatingMode::Normal,
    ) {
        Err(e) => Err(e),
        Ok(()) => {
            let header = Header {
                parent_hash,
                number,
                state_root: [0u8; 32],
                extrinsics_root: [0u8; 32],
                digest: Vec::new(),
            };
            assert(header.state_root@ =~= Seq::new(32, |i: int| 0u8));
            assert(header.extrinsics_root@ =~= Seq::new(32, |i: int| 0u8));
            Ok(header)
        },
    }
}

} // verus!
