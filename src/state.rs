//! The mathematical model of the whole store and what each call does to it.
//!
//! Every call is a function from a state and its arguments to a result and
//! the next state. A failed call returns the state it was given.
use vstd::prelude::*;

use crate::arith::floor_sqrt;
use crate::ballots::{
    has_record, keys_unique, set_weight, total_weight, weight_of, weights_fit, Record,
};
use crate::ledger::{free_of, reserved_of, totals_fit, with_balances, with_free, AccountData};
use crate::types::{
    AccountId, Balance, BlockNumber, Error, EventView, Origin, Proposal, ProposalIndex,
    ProposalStatus, TextHash, Vote,
};

verus! {

/// The fixed onboarding endowment from which the registration fee is taken.
pub const INITIAL_ENDOWMENT: Balance = 100;

/// One item of a batch vote: proposal, tokens committed, choice.
pub type BatchItem = (ProposalIndex, Balance, Vote);

#[verifier::ext_equal]
pub struct PalletView {
    /// Registered voters.
    pub voters: Set<AccountId>,
    /// Proposals in index order: the proposal with index `i` is at `i - 1`.
    pub proposals: Seq<Proposal>,
    /// Aye-vote records, keyed by (proposal, voter).
    pub aye_votes: Seq<Record>,
    /// Balances of the ledger.
    pub accounts: Map<AccountId, AccountData>,
    /// Events deposited so far, oldest first.
    pub events: Seq<EventView>,
    /// Blocks from a proposal's creation to its end.
    pub voting_period: BlockNumber,
}

/// Sum of the amounts of a batch.
pub open spec fn amount_sum(items: Seq<BatchItem>) -> nat
    decreases items.len(),
{
    if items.len() == 0 {
        0
    } else {
        amount_sum(items.drop_last()) + items.last().1 as nat
    }
}

/// Number of `Aye` items of a batch.
pub open spec fn aye_count(items: Seq<BatchItem>) -> nat
    decreases items.len(),
{
    if items.len() == 0 {
        0
    } else {
        aye_count(items.drop_last()) + if items.last().2 == Vote::Aye {
            1nat
        } else {
            0nat
        }
    }
}

/// The proposal indices of a batch, in order.
pub open spec fn batch_indices(items: Seq<BatchItem>) -> Seq<ProposalIndex> {
    items.map_values(|it: BatchItem| it.0)
}

/// The vote table after the `Aye` items of a batch, taken in order, each
/// add `floor(sqrt(amount))` to the weight of `who` on its proposal.
pub open spec fn apply_ayes(votes: Seq<Record>, who: AccountId, items: Seq<BatchItem>) -> Seq<
    Record,
>
    decreases items.len(),
{
    if items.len() == 0 {
        votes
    } else {
        let prev = apply_ayes(votes, who, items.drop_last());
        let it = items.last();
        if it.2 == Vote::Aye {
            set_weight(prev, it.0, who, weight_of(prev, it.0, who) + floor_sqrt(it.1 as int))
        } else {
            prev
        }
    }
}

/// One `ProposalsVoted` event, listing `proposals`, for each of `n` items.
pub open spec fn batch_events(proposals: Seq<ProposalIndex>, n: nat) -> Seq<EventView> {
    Seq::new(n, |_i: int| EventView::ProposalsVoted { proposals })
}

/// A prefix of a batch commits no more than the whole batch.
pub proof fn lemma_amount_sum_prefix(items: Seq<BatchItem>, k: int)
    requires
        0 <= k <= items.len(),
    ensures
        amount_sum(items.take(k)) <= amount_sum(items),
    decreases items.len(),
{
    if k < items.len() {
        lemma_amount_sum_prefix(items.drop_last(), k);
        assert(items.drop_last().take(k) =~= items.take(k));
    } else {
        assert(items.take(k) =~= items);
    }
}


impl PalletView {
    /// The store's invariant: proposal `i` sits at position `i - 1`, each
    /// (proposal, voter) key has at most one record and every weight fits
    /// in a balance, exactly the registered voters have ledger accounts, and
    /// no account's total overflows.
    pub open spec fn wf(self) -> bool {
        &&& self.proposals.len() <= ProposalIndex::MAX
        &&& forall|i: int|
            0 <= i < self.proposals.len() ==> #[trigger] self.proposals[i].proposal_index == i + 1
        &&& keys_unique(self.aye_votes)
        &&& weights_fit(self.aye_votes)
        &&& forall|k: AccountId| #[trigger]
            self.accounts.contains_key(k) <==> self.voters.contains(k)
        &&& totals_fit(self.accounts)
    }

    pub open spec fn is_registered(self, who: AccountId) -> bool {
        self.voters.contains(who)
    }

    pub open spec fn free(self, who: AccountId) -> nat {
        free_of(self.accounts, who)
    }

    pub open spec fn reserved(self, who: AccountId) -> nat {
        reserved_of(self.accounts, who)
    }

    pub open spec fn is_proposal_registered(self, index: ProposalIndex) -> bool {
        1 <= index <= self.proposals.len()
    }

    pub open spec fn proposal(self, index: ProposalIndex) -> Proposal {
        self.proposals[index - 1]
    }

    pub open spec fn is_proposal_active(self, index: ProposalIndex) -> bool {
        self.is_proposal_registered(index) && self.proposal(index).status
            == ProposalStatus::InProgress
    }

    pub open spec fn has_voted(self, index: ProposalIndex, who: AccountId) -> bool {
        has_record(self.aye_votes, index, who)
    }

    /// Aye weight of `who` on proposal `index`, 0 where none is recorded.
    pub open spec fn aye_weight(self, index: ProposalIndex, who: AccountId) -> nat {
        weight_of(self.aye_votes, index, who)
    }

    /// Sum of all aye weights recorded on proposal `index`.
    pub open spec fn total_votes(self, index: ProposalIndex) -> nat {
        total_weight(self.aye_votes, index)
    }

    /// Scan of proposals `1..=n` in index order: the running maximum total
    /// and the first index to exceed the maximum before it (0 while no
    /// total exceeds 0).
    pub open spec fn leader(self, n: nat) -> (nat, ProposalIndex)
        decreases n,
    {
        if n == 0 {
            (0, 0)
        } else {
            let prev = self.leader((n - 1) as nat);
            let t = self.total_votes(n as ProposalIndex);
            if t > prev.0 {
                (t, n as ProposalIndex)
            } else {
                prev
            }
        }
    }

    /// The proposal with the greatest total aye weight, the lowest index
    /// among equals; 0 when no proposal has any weight.
    pub open spec fn winner(self) -> ProposalIndex {
        self.leader(self.proposals.len()).1
    }

    pub open spec fn with_status(self, index: ProposalIndex, status: ProposalStatus) -> Self {
        PalletView {
            proposals: self.proposals.update(
                index - 1,
                Proposal { status: status, ..self.proposal(index) },
            ),
            ..self
        }
    }

    /// Marks proposal `index` completed; an unknown index changes nothing.
    pub open spec fn complete(self, index: ProposalIndex) -> Self {
        if self.is_proposal_registered(index) {
            self.with_status(index, ProposalStatus::Completed)
        } else {
            self
        }
    }

    pub open spec fn deposit(self, e: EventView) -> Self {
        PalletView { events: self.events.push(e), ..self }
    }

    pub open spec fn register_voter(self, origin: Origin, voter: AccountId, fee: Balance) -> (
        Result<(), Error>,
        Self,
    ) {
        if origin != Origin::Root {
            (Err(Error::BadOrigin), self)
        } else if self.is_registered(voter) {
            (Err(Error::VoterAlreadyRegistered), self)
        } else if fee == 0 {
            (Err(Error::InsufficientFee), self)
        } else if fee > INITIAL_ENDOWMENT {
            (Err(Error::SubstractionOverflow), self)
        } else {
            let initial_balance = (INITIAL_ENDOWMENT - fee) as Balance;
            (
                Ok(()),
                PalletView {
                    voters: self.voters.insert(voter),
                    accounts: with_free(self.accounts, voter, initial_balance as int),
                    ..self
                }.deposit(EventView::VoterRegistered { voter_id: voter, initial_balance }),
            )
        }
    }

    pub open spec fn create_proposal(
        self,
        origin: Origin,
        text: TextHash,
        now: BlockNumber,
    ) -> (Result<ProposalIndex, Error>, Self) {
        match origin {
            Origin::Signed(who) => {
                if !self.is_registered(who) {
                    (Err(Error::NotRegisteredVoter), self)
                } else if self.proposals.len() >= ProposalIndex::MAX {
                    (Err(Error::StorageOverflow), self)
                } else if now + self.voting_period > BlockNumber::MAX {
                    (Err(Error::AdditionOverflow), self)
                } else {
                    let proposal_index = (self.proposals.len() + 1) as ProposalIndex;
                    let end_block = (now + self.voting_period) as BlockNumber;
                    let p = Proposal {
                        proposal_index,
                        text,
                        proposer: who,
                        end_block,
                        status: ProposalStatus::NotStarted,
                    };
                    (
                        Ok(proposal_index),
                        PalletView { proposals: self.proposals.push(p), ..self }.deposit(
                            EventView::NewProposalCreated { proposal_index, text, end_block },
                        ),
                    )
                }
            },
            _ => (Err(Error::BadOrigin), self),
        }
    }

    pub open spec fn start_proposal(self, origin: Origin, index: ProposalIndex, fee: Balance) -> (
        Result<(), Error>,
        Self,
    ) {
        match origin {
            Origin::Signed(who) => {
                if !self.is_registered(who) {
                    (Err(Error::NotRegisteredVoter), self)
                } else if !self.is_proposal_registered(index) {
                    (Err(Error::ProposalNotFound), self)
                } else if self.proposal(index).status != ProposalStatus::NotStarted {
                    (Err(Error::ProposalAlreadyStarted), self)
                } else if fee == 0 {
                    (Err(Error::InsufficientFee), self)
                } else if self.free(who) < fee {
                    (Err(Error::NotEnoughBalance), self)
                } else {
                    let s = self.with_status(index, ProposalStatus::InProgress);
                    (
                        Ok(()),
                        PalletView {
                            accounts: with_free(self.accounts, who, self.free(who) - fee),
                            ..s
                        }.deposit(EventView::ProposalStarted { proposal_index: index }),
                    )
                }
            },
            _ => (Err(Error::BadOrigin), self),
        }
    }

    pub open spec fn reserve_tokens(self, origin: Origin, amount: Balance) -> (
        Result<(), Error>,
        Self,
    ) {
        match origin {
            Origin::Signed(who) => {
                if !self.is_registered(who) {
                    (Err(Error::NotRegisteredVoter), self)
                } else if amount == 0 {
                    (Err(Error::InvalidTokensAmountToReserve), self)
                } else if self.free(who) < amount {
                    (Err(Error::NotEnoughBalance), self)
                } else {
                    (
                        Ok(()),
                        PalletView {
                            accounts: with_balances(
                                self.accounts,
                                who,
                                self.free(who) - amount,
                                self.reserved(who) + amount,
                            ),
                            ..self
                        }.deposit(EventView::TokensReserved { who, amount }),
                    )
                }
            },
            _ => (Err(Error::BadOrigin), self),
        }
    }

    /// Releases `amount` reserved tokens and burns half of them, rounded down.
    pub open spec fn unreserve_tokens(self, origin: Origin, amount: Balance) -> (
        Result<(), Error>,
        Self,
    ) {
        match origin {
            Origin::Signed(who) => {
                if !self.is_registered(who) {
                    (Err(Error::NotRegisteredVoter), self)
                } else if amount == 0 {
                    (Err(Error::InvalidTokensAmountToUnreserve), self)
                } else if self.reserved(who) < amount {
                    (Err(Error::NotEnoughReservedTokens), self)
                } else {
                    let updated_balance = (self.free(who) + amount - amount / 2) as Balance;
                    (
                        Ok(()),
                        PalletView {
                            accounts: with_balances(
                                self.accounts,
                                who,
                                updated_balance as int,
                                self.reserved(who) - amount,
                            ),
                            ..self
                        }.deposit(EventView::TokensUnreserved { who, amount, updated_balance }),
                    )
                }
            },
            _ => (Err(Error::BadOrigin), self),
        }
    }

    pub open spec fn vote_proposal(
        self,
        origin: Origin,
        index: ProposalIndex,
        vote: Vote,
        now: BlockNumber,
    ) -> (Result<(), Error>, Self) {
        match origin {
            Origin::Signed(who) => {
                if !self.is_registered(who) {
                    (Err(Error::NotRegisteredVoter), self)
                } else if !self.is_proposal_registered(index) {
                    (Err(Error::ProposalNotFound), self)
                } else if !self.is_proposal_active(index) {
                    (Err(Error::ProposalNotActive), self)
                } else if self.proposal(index).end_block <= now {
                    let s = self.complete(index);
                    (Ok(()), s.deposit(EventView::VotingEnded { winner: s.winner() }))
                } else if self.reserved(who) == 0 {
                    (Err(Error::NotEnoughReservedTokens), self)
                } else if vote != Vote::Aye {
                    (Ok(()), self)
                } else if self.has_voted(index, who) {
                    (Err(Error::VoterAlreadyVoted), self)
                } else {
                    (
                        Ok(()),
                        PalletView {
                            aye_votes: set_weight(
                                self.aye_votes,
                                index,
                                who,
                                floor_sqrt(self.reserved(who) as int),
                            ),
                            ..self
                        }.deposit(EventView::ProposalVoted { proposal_index: index, vote }),
                    )
                }
            },
            _ => (Err(Error::BadOrigin), self),
        }
    }

    pub open spec fn all_active(self, items: Seq<BatchItem>) -> bool {
        forall|j: int| 0 <= j < items.len() ==> self.is_proposal_active(#[trigger] items[j].0)
    }

    pub open spec fn voted_any(self, items: Seq<BatchItem>, who: AccountId) -> bool {
        exists|j: int| 0 <= j < items.len() && self.has_voted(#[trigger] items[j].0, who)
    }

    pub open spec fn any_ended(self, items: Seq<BatchItem>, now: BlockNumber) -> bool {
        exists|j: int| 0 <= j < items.len() && self.proposal(#[trigger] items[j].0).end_block <= now
    }

    pub open spec fn vote_multiple_proposals(
        self,
        origin: Origin,
        items: Seq<BatchItem>,
        now: BlockNumber,
    ) -> (Result<(), Error>, Self) {
        match origin {
            Origin::Signed(who) => {
                if !self.is_registered(who) {
                    (Err(Error::NotRegisteredVoter), self)
                } else if !self.all_active(items) {
                    (Err(Error::AtLeastOneProposalNotRegisteredOrNotActive), self)
                } else if self.reserved(who) < amount_sum(items) {
                    (Err(Error::NotEnoughReservedTokens), self)
                } else if self.voted_any(items, who) {
                    (Err(Error::VoterAlreadyVoted), self)
                } else if self.any_ended(items, now) {
                    let w = self.winner();
                    (Ok(()), self.complete(w).deposit(EventView::VotingEnded { winner: w }))
                } else {
                    (
                        Ok(()),
                        PalletView {
                            aye_votes: apply_ayes(self.aye_votes, who, items),
                            events: self.events + batch_events(
                                batch_indices(items),
                                aye_count(items),
                            ),
                            ..self
                        },
                    )
                }
            },
            _ => (Err(Error::BadOrigin), self),
        }
    }
}

} // verus!
