//! Quadratic-voting governance core: a voter registry, a proposal lifecycle,
//! a ballot tally with square-root vote weights, and the reserve/unreserve
//! economics that make a vote cost tokens.
pub mod arith;
pub mod ballots;
pub mod laws;
pub mod ledger;
pub mod pallet;
pub mod state;
pub mod types;

pub use arith::vote_weight;
pub use ballots::AyeVote;
pub use ledger::{AccountData, Ledger};
pub use pallet::Pallet;
pub use state::{BatchItem, INITIAL_ENDOWMENT};
pub use types::{
    AccountId, Balance, BlockNumber, Config, Error, Event, Origin, Proposal,
    ProposalIndex, ProposalStatus, TextHash, Vote,
};
