//! A poll ledger: admins create polls with a fixed list of options, each voter
//! casts at most one vote per poll, and per-option counts can be read back.
use vstd::prelude::*;

pub mod address;
pub mod contract;
pub mod laws;
pub mod poll;

pub use address::Address;
pub use contract::{VotingContract, VotingError};
pub use poll::Poll;

verus! {

} // verus!
