//! Identifiers, records, calls' origins, events and errors.
use vstd::prelude::*;

verus! {

pub type AccountId = u64;

pub type Balance = u64;

pub type BlockNumber = u64;

pub type ProposalIndex = u32;

/// Hash of a proposal's text.
pub type TextHash = [u8; 32];

/// Constants the host injects into the pallet.
#[derive(Clone, Copy, Debug, PartialEq, Eq, Structural)]
pub struct Config {
    /// Blocks from a proposal's creation to its end.
    pub voting_period: BlockNumber,
}

/// What a voter says about a proposal. Only `Aye` is tallied.
#[derive(Clone, Copy, Debug, PartialEq, Eq, Structural)]
pub enum Vote {
    Aye,
    Nay,
    Abstain,
}

#[derive(Clone, Copy, Debug, PartialEq, Eq, Structural)]
pub enum ProposalStatus {
    NotStarted,
    InProgress,
    Completed,
}

#[derive(Clone, Copy, Debug, PartialEq, Eq)]
pub struct Proposal {
    pub proposal_index: ProposalIndex,
    pub text: TextHash,
    pub proposer: AccountId,
    pub end_block: BlockNumber,
    pub status: ProposalStatus,
}

/// Who submits a call: the administrative root, a signed account, or nobody.
#[derive(Clone, Copy, Debug, PartialEq, Eq, Structural)]
pub enum Origin {
    Root,
    Signed(AccountId),
    Unsigned,
}

#[derive(Clone, Copy, Debug, PartialEq, Eq, Structural)]
pub enum Error {
    /// The call came from the wrong kind of origin.
    BadOrigin,
    /// A counter of the store is exhausted.
    StorageOverflow,
    NotRegisteredVoter,
    ProposalNotFound,
    ProposalNotActive,
    ProposalAlreadyStarted,
    NotEnoughBalance,
    NotReservedTokens,
    VoterAlreadyVoted,
    NotEnoughReservedTokens,
    InsufficientFee,
    VoterAlreadyRegistered,
    InvalidTokensAmountToReserve,
    AtLeastOneProposalNotRegisteredOrNotActive,
    InvalidTokensAmountToUnreserve,
    /// A subtraction between balances would go below zero.
    SubstractionOverflow,
    /// A division between balances is undefined (divisor zero).
    SlashFailed,
    /// An addition between balances or block numbers would overflow.
    AdditionOverflow,
}

/// What the pallet reports to outside observers, in order.
#[derive(Clone, Debug, PartialEq, Eq)]
pub enum Event {
    VoterRegistered { voter_id: AccountId, initial_balance: Balance },
    NewProposalCreated { proposal_index: ProposalIndex, text: TextHash, end_block: BlockNumber },
    TokensReserved { who: AccountId, amount: Balance },
    ProposalStarted { proposal_index: ProposalIndex },
    ProposalVoted { proposal_index: ProposalIndex, vote: Vote },
    ProposalsVoted { proposals: Vec<ProposalIndex> },
    TokensUnreserved { who: AccountId, amount: Balance, updated_balance: Balance },
    VotingEnded { winner: ProposalIndex },
}

/// The mathematical value of an [`Event`].
pub enum EventView {
    VoterRegistered { voter_id: AccountId, initial_balance: Balance },
    NewProposalCreated { proposal_index: ProposalIndex, text: TextHash, end_block: BlockNumber },
    TokensReserved { who: AccountId, amount: Balance },
    ProposalStarted { proposal_index: ProposalIndex },
    ProposalVoted { proposal_index: ProposalIndex, vote: Vote },
    ProposalsVoted { proposals: Seq<ProposalIndex> },
    TokensUnreserved { who: AccountId, amount: Balance, updated_balance: Balance },
    VotingEnded { winner: ProposalIndex },
}

impl View for Event {
    type V = EventView;

    open spec fn view(&self) -> EventView {
        match self {
            Event::VoterRegistered { voter_id, initial_balance } => EventView::VoterRegistered {
                voter_id: *voter_id,
                initial_balance: *initial_balance,
            },
            Event::NewProposalCreated { proposal_index, text, end_block } =>
                EventView::NewProposalCreated {
                proposal_index: *proposal_index,
                text: *text,
                end_block: *end_block,
            },
            Event::TokensReserved { who, amount } => EventView::TokensReserved {
                who: *who,
                amount: *amount,
            },
            Event::ProposalStarted { proposal_index } => EventView::ProposalStarted {
                proposal_index: *proposal_index,
            },
            Event::ProposalVoted { proposal_index, vote } => EventView::ProposalVoted {
                proposal_index: *proposal_index,
                vote: *vote,
            },
            Event::ProposalsVoted { proposals } => EventView::ProposalsVoted {
                proposals: proposals@,
            },
            Event::TokensUnreserved { who, amount, updated_balance } =>
                EventView::TokensUnreserved {
                who: *who,
                amount: *amount,
                updated_balance: *updated_balance,
            },
            Event::VotingEnded { winner } => EventView::VotingEnded { winner: *winner },
        }
    }
}

} // verus!
