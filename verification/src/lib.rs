//! A light client for GRANDPA finality: it follows the finalized head of a
//! remote chain by verifying justifications against a tracked authority set.

pub mod ancestry;
pub mod authority;
pub mod bench;
pub mod bridge;
pub mod change;
pub mod codec;
pub mod crypto;
pub mod error;
pub mod guarantees;
pub mod header;
pub mod imported;
pub mod justification;
pub mod primitives;
pub mod rialto_parachain;
pub mod tracker;
pub mod wire;
