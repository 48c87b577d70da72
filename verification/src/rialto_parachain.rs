//! The parameters of the Rialto parachain, as the bridge needs them.

use vstd::prelude::*;

verus! {

/// Identifier of the Rialto parachain in the Rialto relay chain.
pub const RIALTO_PARACHAIN_ID: u32 = 2000;

/// Number of extra bytes, beyond the stored value itself, of a storage proof
/// built at the Rialto parachain.
pub const EXTRA_STORAGE_PROOF_SIZE: u32 = 1024;

/// What a raw transaction has more than its encoded call, in bytes.
pub const TX_EXTRA_BYTES: u32 = 104;

/// The weight of one second of computation.
pub const WEIGHT_PER_SECOND: u64 = 1_000_000_000_000;

/// Maximal weight of a single block: two seconds of computation.
pub const MAXIMUM_BLOCK_WEIGHT: u64 = 2 * WEIGHT_PER_SECOND;

/// Maximal length of a single block, in bytes.
pub const MAXIMUM_BLOCK_LENGTH: u32 = 5 * 1024 * 1024;

/// The part of a block's weight that `on_initialize` uses on average, in
/// billionths: ten percent.
pub const AVERAGE_ON_INITIALIZE_RATIO: u32 = 100_000_000;

/// The part of a block that normal extrinsics may use, in billionths:
/// seventy-five percent.
pub const NORMAL_DISPATCH_RATIO: u32 = 750_000_000;

/// Maximal number of unrewarded relayer entries in a confirmation
/// transaction.
pub const MAX_UNREWARDED_RELAYERS_IN_CONFIRMATION_TX: u64 = 1024;

/// Maximal number of unconfirmed messages in a confirmation transaction.
pub const MAX_UNCONFIRMED_MESSAGES_IN_CONFIRMATION_TX: u64 = 1024;

/// Weight of a regular message delivery transaction.
pub const DEFAULT_MESSAGE_DELIVERY_TX_WEIGHT: u64 = 1_500_000_000;

/// Increase of the delivery transaction's weight with every additional
/// message byte.
pub const ADDITIONAL_MESSAGE_BYTE_DELIVERY_WEIGHT: u64 = 25_000;

/// Maximal weight of a delivery confirmation transaction for one message.
pub const MAX_SINGLE_MESSAGE_DELIVERY_CONFIRMATION_TX_WEIGHT: u64 = 2_000_000_000;

/// Weight of the pay-dispatch-fee operation for inbound messages.
pub const PAY_INBOUND_DISPATCH_FEE_WEIGHT: u64 = 600_000_000;

/// Block number type of the chain.
pub type BlockNumber = u32;

/// Balance of an account.
pub type Balance = u128;

/// An instant or duration in time.
pub type Moment = u64;

/// Index of a transaction in the chain.
pub type Index = u32;

/// Name of the messages pallet instance deployed at bridged chains.
pub const WITH_RIALTO_PARACHAIN_MESSAGES_PALLET_NAME: &'static str = "BridgeRialtoParachainMessages";

/// Name of the transaction payment pallet at the Rialto parachain runtime.
pub const TRANSACTION_PAYMENT_PALLET_NAME: &'static str = "TransactionPayment";

/// Name of the runtime method that returns the best finalized header.
pub const BEST_FINALIZED_RIALTO_PARACHAIN_HEADER_METHOD: &'static str =
    "RialtoParachainFinalityApi_best_finalized";

/// Name of the conversion rate from Millau to the Rialto parachain, as the
/// Rialto parachain runtime stores it.
pub const MILLAU_TO_RIALTO_PARACHAIN_CONVERSION_RATE_PARAMETER_NAME: &'static str =
    "MillauToRialtoParachainConversionRate";

/// Name of the Millau fee multiplier, as the Rialto parachain runtime
/// stores it.
pub const MILLAU_FEE_MULTIPLIER_PARAMETER_NAME: &'static str = "MillauFeeMultiplier";

/// Name of the runtime method that estimates the fee of a message to the
/// Rialto parachain.
pub const TO_RIALTO_PARACHAIN_ESTIMATE_MESSAGE_FEE_METHOD: &'static str =
    "ToRialtoParachainOutboundLaneApi_estimate_message_delivery_and_dispatch_fee";

/// Name of the runtime method that returns the details of outbound
/// messages.
pub const TO_RIALTO_PARACHAIN_MESSAGE_DETAILS_METHOD: &'static str =
    "ToRialtoParachainOutboundLaneApi_message_details";

/// Name of the runtime method that returns the details of inbound messages.
pub const FROM_RIALTO_PARACHAIN_MESSAGE_DETAILS_METHOD: &'static str =
    "FromRialtoParachainInboundLaneApi_message_details";

/// `value` times `parts` billionths, rounded to the nearest whole number, a
/// half rounded down. The whole billions of `value` are multiplied apart
/// from the rest, so that nothing overflows on the way.
pub open spec fn billionths_of(parts: u32, value: u32) -> int {
    let whole = (value / 1_000_000_000) * parts;
    let scaled = (value % 1_000_000_000) * parts;
    whole + scaled / 1_000_000_000 + if scaled % 1_000_000_000 > 500_000_000 {
        1int
    } else {
        0int
    }
}

/// Calls `frame_system::limits::BlockLength::max_with_normal_ratio` and
/// reads the limit it sets for the normal class. Trusted: that limit is the
/// product of `max` and the ratio `normal_parts`, as `Perbill` multiplies:
/// to the nearest whole number, a half rounded down.
#[verifier::external_body]
#[allow(deprecated)]
fn normal_block_length(max: u32, normal_parts: u32) -> (length: u32)
    requires
        normal_parts <= 1_000_000_000,
    ensures
        length == billionths_of(normal_parts, max),
{
    let limits = frame_system::limits::BlockLength::max_with_normal_ratio(
        max,
        sp_runtime::Perbill::from_parts(normal_parts),
    );
    *limits.max.get(frame_support::dispatch::DispatchClass::Normal)
}

/// The Rialto parachain.
#[derive(Clone, Copy, Debug, PartialEq, Eq)]
pub struct RialtoParachain;

impl RialtoParachain {
    /// The largest size of an extrinsic: the normal class's share of the
    /// block length, 3 932 160 bytes.
    pub fn max_extrinsic_size() -> (size: u32)
        ensures
            size == billionths_of(NORMAL_DISPATCH_RATIO, MAXIMUM_BLOCK_LENGTH),
            size == 3_932_160,
    {
        normal_block_length(MAXIMUM_BLOCK_LENGTH, NORMAL_DISPATCH_RATIO)
    }
}

} // verus!
