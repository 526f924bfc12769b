//! The executable store and its calls. Each call checks its conditions in a
//! fixed order, fails on the first that does not hold without touching the
//! store, and otherwise performs its writes and deposits its event.
use vstd::prelude::*;
use std::collections::HashSet;

use crate::arith::vote_weight;
use crate::ballots::{
    find_record, lemma_set_weight, record_of, records_of, set_weight, total_weight, weight_of,
    AyeVote,
};
use crate::ledger::Ledger;
use crate::state::{
    amount_sum, apply_ayes, aye_count, batch_events, batch_indices, lemma_amount_sum_prefix,
    BatchItem, PalletView, INITIAL_ENDOWMENT,
};
use crate::types::{
    AccountId, Balance, BlockNumber, Config, Error, Event, EventView, Origin, Proposal,
    ProposalIndex, ProposalStatus, TextHash, Vote,
};

verus! {

broadcast use vstd::std_specs::hash::group_hash_axioms;

/// The governance store: registered voters, proposals in index order, the
/// aye-vote records, the ledger of balances, and the events deposited so far.
/// The current block is not stored: calls that depend on time take it as
/// `now`.
pub struct Pallet {
    voters: HashSet<AccountId>,
    proposals: Vec<Proposal>,
    aye_votes: Vec<AyeVote>,
    ledger: Ledger,
    events: Vec<Event>,
    voting_period: BlockNumber,
}

/// The mathematical values of a list of events.
pub open spec fn event_views(events: Seq<Event>) -> Seq<EventView> {
    events.map_values(|e: Event| e@)
}

/// The proposal indices of a batch, in order.
fn batch_indices_vec(items: &Vec<BatchItem>) -> (r: Vec<ProposalIndex>)
    ensures
        r@ == batch_indices(items@),
{
    let mut r: Vec<ProposalIndex> = Vec::new();
    let mut k: usize = 0;
    while k < items.len()
        invariant
            k <= items@.len(),
            r@ == batch_indices(items@.take(k as int)),
        decreases items@.len() - k,
    {
        r.push(items[k].0);
        proof {
            assert(batch_indices(items@.take(k + 1)) =~= batch_indices(items@.take(k as int)).push(
                items@[k as int].0,
            ));
        }
        k = k + 1;
    }
    proof {
        assert(items@.take(items@.len() as int) =~= items@);
    }
    r
}


impl View for Pallet {
    type V = PalletView;

    closed spec fn view(&self) -> PalletView {
        PalletView {
            voters: self.voters@,
            proposals: self.proposals@,
            aye_votes: records_of(self.aye_votes@),
            accounts: self.ledger@,
            events: event_views(self.events@),
            voting_period: self.voting_period,
        }
    }
}

impl Pallet {
    /// An empty store whose proposals run for `config.voting_period` blocks.
    pub fn new(config: Config) -> (r: Pallet)
        ensures
            r@.wf(),
            r@.voters == Set::<AccountId>::empty(),
            r@.proposals == Seq::<Proposal>::empty(),
            r@.aye_votes.len() == 0,
            r@.accounts == Map::<AccountId, crate::ledger::AccountData>::empty(),
            r@.events == Seq::<EventView>::empty(),
            r@.voting_period == config.voting_period,
    {
        let r = Pallet {
            voters: HashSet::new(),
            proposals: Vec::new(),
            aye_votes: Vec::new(),
            ledger: Ledger::new(),
            events: Vec::new(),
            voting_period: config.voting_period,
        };
        proof {
            assert(r@.aye_votes =~= Seq::<crate::ballots::Record>::empty());
            assert(r@.events =~= Seq::<EventView>::empty());
        }
        r
    }

    /// The events deposited so far, oldest first.
    pub fn events(&self) -> (r: &Vec<Event>)
        ensures
            event_views(r@) == self@.events,
    {
        &self.events
    }

    fn deposit_event(&mut self, e: Event)
        ensures
            final(self)@ == old(self)@.deposit(e@),
    {
        let ghost pre = self@;
        self.events.push(e);
        proof {
            assert(self@ =~= pre.deposit(e@));
        }
    }

    pub fn is_voter_registered(&self, who: &AccountId) -> (r: bool)
        ensures
            r == self@.is_registered(*who),
    {
        self.voters.contains(who)
    }

    pub fn is_proposal_registered(&self, proposal_index: ProposalIndex) -> (r: bool)
        ensures
            r == self@.is_proposal_registered(proposal_index),
    {
        1 <= proposal_index && proposal_index as usize <= self.proposals.len()
    }

    pub fn is_proposal_active(&self, proposal_index: ProposalIndex) -> (r: bool)
        ensures
            r == self@.is_proposal_active(proposal_index),
    {
        match self.get_proposal(proposal_index) {
            Some(proposal) => proposal.status == ProposalStatus::InProgress,
            None => false,
        }
    }

    pub fn get_proposal(&self, proposal_index: ProposalIndex) -> (r: Option<Proposal>)
        ensures
            r == if self@.is_proposal_registered(proposal_index) {
                Some(self@.proposal(proposal_index))
            } else {
                None::<Proposal>
            },
    {
        if self.is_proposal_registered(proposal_index) {
            Some(self.proposals[(proposal_index - 1) as usize])
        } else {
            None
        }
    }

    pub fn get_proposal_status(&self, proposal_index: ProposalIndex) -> (r: ProposalStatus)
        requires
            self@.is_proposal_registered(proposal_index),
        ensures
            r == self@.proposal(proposal_index).status,
    {
        self.proposals[(proposal_index - 1) as usize].status
    }

    pub fn get_proposal_end_block(&self, proposal_index: ProposalIndex) -> (r: BlockNumber)
        requires
            self@.is_proposal_registered(proposal_index),
        ensures
            r == self@.proposal(proposal_index).end_block,
    {
        self.proposals[(proposal_index - 1) as usize].end_block
    }

    pub fn voter_has_voted(&self, proposal_index: ProposalIndex, who: &AccountId) -> (r: bool)
        requires
            self@.wf(),
        ensures
            r == self@.has_voted(proposal_index, *who),
    {
        find_record(&self.aye_votes, proposal_index, *who).is_some()
    }

    /// The aye weight of `who` on the proposal, 0 where none is recorded.
    pub fn get_aye_votes_balance(&self, proposal_index: ProposalIndex, who: &AccountId) -> (r:
        Balance)
        requires
            self@.wf(),
        ensures
            r == self@.aye_weight(proposal_index, *who),
    {
        match find_record(&self.aye_votes, proposal_index, *who) {
            Some(i) => {
                proof {
                    assert(records_of(self.aye_votes@)[i as int] == record_of(
                        self.aye_votes@[i as int],
                    ));
                }
                self.aye_votes[i].weight
            },
            None => 0,
        }
    }

    /// The free (spendable) balance of `who`.
    pub fn get_voter_balance(&self, who: &AccountId) -> (r: Balance)
        ensures
            r == self@.free(*who),
    {
        self.ledger.free_balance(*who)
    }

    /// The reserved balance of `who`.
    pub fn get_reserved_balance(&self, who: &AccountId) -> (r: Balance)
        ensures
            r == self@.reserved(*who),
    {
        self.ledger.reserved_balance(*who)
    }

    /// Marks the proposal completed; an index with no proposal changes nothing.
    pub fn update_proposal_status_to_completed(&mut self, proposal_index: ProposalIndex)
        requires
            old(self)@.wf(),
        ensures
            final(self)@ == old(self)@.complete(proposal_index),
            final(self)@.wf(),
    {
        let ghost pre = self@;
        if let Some(proposal) = self.get_proposal(proposal_index) {
            let updated = Proposal {
                proposal_index: proposal.proposal_index,
                text: proposal.text,
                proposer: proposal.proposer,
                end_block: proposal.end_block,
                status: ProposalStatus::Completed,
            };
            self.proposals.set((proposal_index - 1) as usize, updated);
            proof {
                assert(self@ =~= pre.complete(proposal_index));
            }
        }
    }

    /// Provisions `voter_id` with a free balance of `100 - fee`. Only the
    /// root origin may call it.
    pub fn register_voter(&mut self, origin: Origin, voter_id: AccountId, fee: Balance) -> (r:
        Result<(), Error>)
        requires
            old(self)@.wf(),
        ensures
            final(self)@.wf(),
            (r, final(self)@) == old(self)@.register_voter(origin, voter_id, fee),
    {
        let ghost pre = self@;
        match origin {
            Origin::Root => {},
            _ => return Err(Error::BadOrigin),
        }
        if self.is_voter_registered(&voter_id) {
            return Err(Error::VoterAlreadyRegistered);
        }
        if fee == 0 {
            return Err(Error::InsufficientFee);
        }
        let initial_balance = match Self::checked_sub_between_balances(INITIAL_ENDOWMENT, fee) {
            Ok(b) => b,
            Err(e) => return Err(e),
        };
        proof {
            assert(!pre.accounts.contains_key(voter_id));
        }
        self.ledger.set_free_balance(voter_id, initial_balance);
        self.voters.insert(voter_id);
        self.deposit_event(Event::VoterRegistered { voter_id, initial_balance });
        proof {
            assert(self@ =~= pre.register_voter(origin, voter_id, fee).1);
        }
        Ok(())
    }

    /// Records a new proposal by a registered voter under the next index,
    /// ending `voting_period` blocks after `now`.
    pub fn create_proposal(&mut self, origin: Origin, text: TextHash, now: BlockNumber) -> (r:
        Result<ProposalIndex, Error>)
        requires
            old(self)@.wf(),
        ensures
            final(self)@.wf(),
            (r, final(self)@) == old(self)@.create_proposal(origin, text, now),
    {
        let ghost pre = self@;
        let proposer = match origin {
            Origin::Signed(who) => who,
            _ => return Err(Error::BadOrigin),
        };
        if !self.is_voter_registered(&proposer) {
            return Err(Error::NotRegisteredVoter);
        }
        let count = self.proposals.len();
        if count >= ProposalIndex::MAX as usize {
            return Err(Error::StorageOverflow);
        }
        let proposal_index = (count + 1) as ProposalIndex;
        let end_block = match now.checked_add(self.voting_period) {
            Some(b) => b,
            None => return Err(Error::AdditionOverflow),
        };
        let proposal = Proposal {
            proposal_index,
            text,
            proposer,
            end_block,
            status: ProposalStatus::NotStarted,
        };
        self.proposals.push(proposal);
        self.deposit_event(Event::NewProposalCreated { proposal_index, text, end_block });
        proof {
            assert(self@ =~= pre.create_proposal(origin, text, now).1);
        }
        Ok(proposal_index)
    }

    /// Moves a proposal from `NotStarted` to `InProgress`; the caller pays
    /// `fee` out of its free balance, and the fee goes to no one.
    pub fn start_proposal(&mut self, origin: Origin, proposal_index: ProposalIndex, fee: Balance) -> (r:
        Result<(), Error>)
        requires
            old(self)@.wf(),
        ensures
            final(self)@.wf(),
            (r, final(self)@) == old(self)@.start_proposal(origin, proposal_index, fee),
    {
        let ghost pre = self@;
        let who = match origin {
            Origin::Signed(who) => who,
            _ => return Err(Error::BadOrigin),
        };
        if !self.is_voter_registered(&who) {
            return Err(Error::NotRegisteredVoter);
        }
        let proposal = match self.get_proposal(proposal_index) {
            Some(p) => p,
            None => return Err(Error::ProposalNotFound),
        };
        if proposal.status != ProposalStatus::NotStarted {
            return Err(Error::ProposalAlreadyStarted);
        }
        if fee == 0 {
            return Err(Error::InsufficientFee);
        }
        let balance = self.get_voter_balance(&who);
        if balance < fee {
            return Err(Error::NotEnoughBalance);
        }
        let updated = Proposal {
            proposal_index: proposal.proposal_index,
            text: proposal.text,
            proposer: proposal.proposer,
            end_block: proposal.end_block,
            status: ProposalStatus::InProgress,
        };
        self.proposals.set((proposal_index - 1) as usize, updated);
        self.ledger.set_free_balance(who, balance - fee);
        self.deposit_event(Event::ProposalStarted { proposal_index });
        proof {
            assert(self@ =~= pre.start_proposal(origin, proposal_index, fee).1);
        }
        Ok(())
    }

    /// Moves `amount` of the caller's free balance to its reserved balance.
    pub fn reserve_tokens(&mut self, origin: Origin, amount: Balance) -> (r: Result<(), Error>)
        requires
            old(self)@.wf(),
        ensures
            final(self)@.wf(),
            (r, final(self)@) == old(self)@.reserve_tokens(origin, amount),
    {
        let ghost pre = self@;
        let who = match origin {
            Origin::Signed(who) => who,
            _ => return Err(Error::BadOrigin),
        };
        if !self.is_voter_registered(&who) {
            return Err(Error::NotRegisteredVoter);
        }
        if amount == 0 {
            return Err(Error::InvalidTokensAmountToReserve);
        }
        let voter_balance = self.get_voter_balance(&who);
        if voter_balance < amount {
            return Err(Error::NotEnoughBalance);
        }
        match self.ledger.reserve(who, amount) {
            Ok(()) => {},
            Err(e) => return Err(e),
        }
        self.deposit_event(Event::TokensReserved { who, amount });
        proof {
            assert(self@ =~= pre.reserve_tokens(origin, amount).1);
        }
        Ok(())
    }

    /// Moves `amount` of the caller's reserved balance back to free, then
    /// burns half of it, rounded down, as a withdrawal penalty.
    pub fn unreserve_tokens(&mut self, origin: Origin, amount: Balance) -> (r: Result<(), Error>)
        requires
            old(self)@.wf(),
        ensures
            final(self)@.wf(),
            (r, final(self)@) == old(self)@.unreserve_tokens(origin, amount),
    {
        let ghost pre = self@;
        let who = match origin {
            Origin::Signed(who) => who,
            _ => return Err(Error::BadOrigin),
        };
        if !self.is_voter_registered(&who) {
            return Err(Error::NotRegisteredVoter);
        }
        if amount == 0 {
            return Err(Error::InvalidTokensAmountToUnreserve);
        }
        let reserved_tokens = self.ledger.reserved_balance(who);
        if reserved_tokens < amount {
            return Err(Error::NotEnoughReservedTokens);
        }
        let penalty = match Self::checked_div_between_balances(amount, 2) {
            Ok(p) => p,
            Err(e) => return Err(e),
        };
        self.ledger.unreserve(who, amount);
        self.ledger.slash(who, penalty);
        let updated_balance = self.get_voter_balance(&who);
        self.deposit_event(Event::TokensUnreserved { who, amount, updated_balance });
        proof {
            assert(self@ =~= pre.unreserve_tokens(origin, amount).1);
        }
        Ok(())
    }

    /// Sets the aye weight of `who` on the proposal, overwriting its record
    /// or appending a new one.
    fn set_aye_votes(&mut self, proposal_index: ProposalIndex, who: AccountId, weight: Balance)
        requires
            old(self)@.wf(),
        ensures
            final(self)@.wf(),
            final(self)@ == (PalletView {
                aye_votes: set_weight(old(self)@.aye_votes, proposal_index, who, weight as nat),
                ..old(self)@
            }),
    {
        let ghost pre = self@;
        let record = AyeVote { proposal_index, voter: who, weight };
        proof {
            lemma_set_weight(pre.aye_votes, proposal_index, who, weight as nat);
        }
        match find_record(&self.aye_votes, proposal_index, who) {
            Some(i) => {
                self.aye_votes.set(i, record);
                proof {
                    assert(records_of(self.aye_votes@) =~= pre.aye_votes.update(
                        i as int,
                        record_of(record),
                    ));
                }
            },
            None => {
                self.aye_votes.push(record);
                proof {
                    assert(records_of(self.aye_votes@) =~= pre.aye_votes.push(record_of(record)));
                }
            },
        }
        proof {
            assert(self@ =~= (PalletView {
                aye_votes: set_weight(pre.aye_votes, proposal_index, who, weight as nat),
                ..pre
            }));
        }
    }

    /// Sum of the aye weights recorded on the proposal.
    fn total_votes_of(&self, proposal_index: ProposalIndex) -> (r: u128)
        requires
            self@.wf(),
        ensures
            r == self@.total_votes(proposal_index),
    {
        let ghost s = self@.aye_votes;
        let mut total: u128 = 0;
        let mut j: usize = 0;
        while j < self.aye_votes.len()
            invariant
                s == records_of(self.aye_votes@),
                crate::ballots::weights_fit(s),
                j <= s.len(),
                total == total_weight(s.take(j as int), proposal_index),
                total <= j * (Balance::MAX as int),
            decreases s.len() - j,
        {
            let v = self.aye_votes[j];
            proof {
                assert(s.take(j + 1).drop_last() =~= s.take(j as int));
                assert(s[j as int] == record_of(v));
            }
            if v.proposal_index == proposal_index {
                total = total + v.weight as u128;
            }
            j = j + 1;
        }
        proof {
            assert(s.take(s.len() as int) =~= s);
        }
        total
    }

    /// The proposal with the greatest total aye weight; among equal totals
    /// the lowest index, which reached it first in a scan in index order.
    /// 0, which is no proposal's index, when no proposal has any weight.
    pub fn get_winner(&self) -> (r: ProposalIndex)
        requires
            self@.wf(),
        ensures
            r == self@.winner(),
    {
        let mut max_votes: u128 = 0;
        let mut winner: ProposalIndex = 0;
        let mut i: usize = 0;
        while i < self.proposals.len()
            invariant
                self@.wf(),
                i <= self@.proposals.len(),
                (max_votes as nat, winner) == self@.leader(i as nat),
            decreases self@.proposals.len() - i,
        {
            let proposal_index = self.proposals[i].proposal_index;
            let total_votes = self.total_votes_of(proposal_index);
            if total_votes > max_votes {
                max_votes = total_votes;
                winner = proposal_index;
            }
            i = i + 1;
        }
        winner
    }

    /// Writes the caller's free balance back unchanged.
    fn touch_free_balance(&mut self, who: AccountId)
        requires
            old(self)@.wf(),
            old(self)@.is_registered(who),
        ensures
            final(self)@ == old(self)@,
    {
        let ghost pre = self@;
        let voter_balance = self.get_voter_balance(&who);
        self.ledger.set_free_balance(who, voter_balance);
        proof {
            assert(self@.accounts =~= pre.accounts);
            assert(self@ =~= pre);
        }
    }

    /// Casts the caller's vote on an active proposal. Once the proposal's end
    /// block is reached, the call instead completes the proposal, selects
    /// the winner over all proposals and records no vote. An `Aye` weighs
    /// `floor(sqrt(reserved))`; `Nay` and `Abstain` are accepted and dropped.
    pub fn vote_proposal(
        &mut self,
        origin: Origin,
        proposal_index: ProposalIndex,
        vote: Vote,
        now: BlockNumber,
    ) -> (r: Result<(), Error>)
        requires
            old(self)@.wf(),
        ensures
            final(self)@.wf(),
            (r, final(self)@) == old(self)@.vote_proposal(origin, proposal_index, vote, now),
    {
        let ghost pre = self@;
        let who = match origin {
            Origin::Signed(who) => who,
            _ => return Err(Error::BadOrigin),
        };
        if !self.is_voter_registered(&who) {
            return Err(Error::NotRegisteredVoter);
        }
        if !self.is_proposal_registered(proposal_index) {
            return Err(Error::ProposalNotFound);
        }
        if !self.is_proposal_active(proposal_index) {
            return Err(Error::ProposalNotActive);
        }
        let proposal_end_block = self.get_proposal_end_block(proposal_index);
        if proposal_end_block <= now {
            self.update_proposal_status_to_completed(proposal_index);
            let winner = self.get_winner();
            self.deposit_event(Event::VotingEnded { winner });
            return Ok(());
        }
        let reserved_tokens = self.ledger.reserved_balance(who);
        if reserved_tokens == 0 {
            return Err(Error::NotEnoughReservedTokens);
        }
        match vote {
            Vote::Aye => {
                if self.voter_has_voted(proposal_index, &who) {
                    return Err(Error::VoterAlreadyVoted);
                }
                let aye_votes = self.get_aye_votes_balance(proposal_index, &who);
                let new_aye_votes = aye_votes + vote_weight(reserved_tokens);
                self.set_aye_votes(proposal_index, who, new_aye_votes);
                self.touch_free_balance(who);
                self.deposit_event(Event::ProposalVoted { proposal_index, vote });
                proof {
                    assert(self@ =~= pre.vote_proposal(origin, proposal_index, vote, now).1);
                }
            },
            _ => {},
        }
        Ok(())
    }

    /// Votes on several proposals at once, all or nothing. Every listed
    /// proposal must be active, the caller's reserved balance must cover the
    /// sum of the amounts, and the caller must not have voted on any of them.
    /// If any listed proposal has reached its end block, the call selects
    /// the winner over all proposals, completes it and records no vote.
    /// Otherwise each `Aye` item, in order, adds `floor(sqrt(amount))` to the
    /// caller's weight on its proposal and deposits a `ProposalsVoted` event
    /// listing the indices of the whole batch.
    pub fn vote_multiple_proposals(
        &mut self,
        origin: Origin,
        proposals: Vec<BatchItem>,
        now: BlockNumber,
    ) -> (r: Result<(), Error>)
        requires
            old(self)@.wf(),
        ensures
            final(self)@.wf(),
            (r, final(self)@) == old(self)@.vote_multiple_proposals(origin, proposals@, now),
    {
        let ghost pre = self@;
        let ghost items = proposals@;
        let who = match origin {
            Origin::Signed(who) => who,
            _ => return Err(Error::BadOrigin),
        };
        if !self.is_voter_registered(&who) {
            return Err(Error::NotRegisteredVoter);
        }
        let n = proposals.len();
        let mut k: usize = 0;
        while k < n
            invariant
                self@ == pre,
                pre.wf(),
                origin == Origin::Signed(who),
                pre.is_registered(who),
                items == proposals@,
                n == items.len(),
                k <= n,
                forall|j: int| 0 <= j < k ==> pre.is_proposal_active(#[trigger] items[j].0),
            decreases n - k,
        {
            if !self.is_proposal_active(proposals[k].0) {
                proof {
                    assert(!pre.all_active(items));
                }
                return Err(Error::AtLeastOneProposalNotRegisteredOrNotActive);
            }
            k = k + 1;
        }
        let reserved_tokens = self.ledger.reserved_balance(who);
        let mut total_tokens_to_use: u128 = 0;
        let mut k: usize = 0;
        while k < n
            invariant
                items == proposals@,
                n == items.len(),
                k <= n,
                total_tokens_to_use == amount_sum(items.take(k as int)),
                total_tokens_to_use <= k * (Balance::MAX as int),
            decreases n - k,
        {
            proof {
                assert(items.take(k + 1).drop_last() =~= items.take(k as int));
            }
            total_tokens_to_use = total_tokens_to_use + proposals[k].1 as u128;
            k = k + 1;
        }
        proof {
            assert(items.take(n as int) =~= items);
        }
        if (reserved_tokens as u128) < total_tokens_to_use {
            return Err(Error::NotEnoughReservedTokens);
        }
        let mut k: usize = 0;
        while k < n
            invariant
                self@ == pre,
                pre.wf(),
                origin == Origin::Signed(who),
                pre.is_registered(who),
                pre.all_active(items),
                pre.reserved(who) >= amount_sum(items),
                items == proposals@,
                n == items.len(),
                k <= n,
                forall|j: int| 0 <= j < k ==> !pre.has_voted(#[trigger] items[j].0, who),
            decreases n - k,
        {
            if self.voter_has_voted(proposals[k].0, &who) {
                proof {
                    assert(pre.voted_any(items, who));
                }
                return Err(Error::VoterAlreadyVoted);
            }
            k = k + 1;
        }
        let mut still_active = true;
        let mut k: usize = 0;
        while k < n
            invariant
                self@ == pre,
                pre.wf(),
                items == proposals@,
                n == items.len(),
                k <= n,
                pre.all_active(items),
                still_active <==> forall|j: int|
                    0 <= j < k ==> now < pre.proposal(#[trigger] items[j].0).end_block,
            decreases n - k,
        {
            proof {
                assert(pre.is_proposal_active(items[k as int].0));
            }
            if self.get_proposal_end_block(proposals[k].0) <= now {
                still_active = false;
            }
            k = k + 1;
        }
        if !still_active {
            let winner = self.get_winner();
            self.update_proposal_status_to_completed(winner);
            self.deposit_event(Event::VotingEnded { winner });
            return Ok(());
        }
        proof {
            assert(!pre.any_ended(items, now));
        }
        let mut k: usize = 0;
        while k < n
            invariant
                pre.wf(),
                self@.wf(),
                pre.is_registered(who),
                items == proposals@,
                n == items.len(),
                k <= n,
                self@ == (PalletView {
                    aye_votes: apply_ayes(pre.aye_votes, who, items.take(k as int)),
                    events: pre.events + batch_events(
                        batch_indices(items),
                        aye_count(items.take(k as int)),
                    ),
                    ..pre
                }),
                amount_sum(items) <= Balance::MAX,
                forall|j: int|
                    0 <= j < n ==> weight_of(self@.aye_votes, #[trigger] items[j].0, who)
                        <= amount_sum(items.take(k as int)),
            decreases n - k,
        {
            let ghost cur = self@;
            let (proposal_index, tokens_to_use, vote) = proposals[k];
            proof {
                assert(items.take(k + 1).drop_last() =~= items.take(k as int));
                assert(items.take(k + 1).last() == items[k as int]);
                lemma_amount_sum_prefix(items, k + 1);
            }
            match vote {
                Vote::Aye => {
                    let aye_votes = self.get_aye_votes_balance(proposal_index, &who);
                    let weight = vote_weight(tokens_to_use);
                    let new_aye_votes = match Self::checked_add_between_balances(aye_votes, weight) {
                        Ok(v) => v,
                        Err(e) => return Err(e),
                    };
                    self.set_aye_votes(proposal_index, who, new_aye_votes);
                    self.touch_free_balance(who);
                    let indices = batch_indices_vec(&proposals);
                    self.deposit_event(Event::ProposalsVoted { proposals: indices });
                    proof {
                        lemma_set_weight(cur.aye_votes, proposal_index, who, new_aye_votes as nat);
                        let c = aye_count(items.take(k as int));
                        assert(pre.events + batch_events(batch_indices(items), c + 1) =~= (
                        pre.events + batch_events(batch_indices(items), c)).push(
                            EventView::ProposalsVoted { proposals: batch_indices(items) },
                        ));
                        assert(self@ =~= (PalletView {
                            aye_votes: apply_ayes(pre.aye_votes, who, items.take(k + 1)),
                            events: pre.events + batch_events(
                                batch_indices(items),
                                aye_count(items.take(k + 1)),
                            ),
                            ..pre
                        }));
                    }
                },
                _ => {},
            }
            k = k + 1;
        }
        proof {
            assert(items.take(n as int) =~= items);
            assert(self@ =~= pre.vote_multiple_proposals(origin, items, now).1);
        }
        Ok(())
    }

    /// `first - second`, or `SubstractionOverflow` when that is below zero.
    pub fn checked_sub_between_balances(first_balance: Balance, second_balance: Balance) -> (r:
        Result<Balance, Error>)
        ensures
            first_balance >= second_balance ==> r == Ok::<Balance, Error>(
                (first_balance - second_balance) as Balance,
            ),
            first_balance < second_balance ==> r == Err::<Balance, Error>(
                Error::SubstractionOverflow,
            ),
    {
        match first_balance.checked_sub(second_balance) {
            Some(v) => Ok(v),
            None => Err(Error::SubstractionOverflow),
        }
    }

    /// `first + second`, or `AdditionOverflow` when that does not fit a balance.
    pub fn checked_add_between_balances(first_balance: Balance, second_balance: Balance) -> (r:
        Result<Balance, Error>)
        ensures
            first_balance + second_balance <= Balance::MAX ==> r == Ok::<Balance, Error>(
                (first_balance + second_balance) as Balance,
            ),
            first_balance + second_balance > Balance::MAX ==> r == Err::<Balance, Error>(
                Error::AdditionOverflow,
            ),
    {
        match first_balance.checked_add(second_balance) {
            Some(v) => Ok(v),
            None => Err(Error::AdditionOverflow),
        }
    }

    /// `first / second` rounded down, or `SlashFailed` when `second` is zero.
    pub fn checked_div_between_balances(first_balance: Balance, second_balance: Balance) -> (r:
        Result<Balance, Error>)
        ensures
            second_balance != 0 ==> r == Ok::<Balance, Error>(
                (first_balance / second_balance) as Balance,
            ),
            second_balance == 0 ==> r == Err::<Balance, Error>(Error::SlashFailed),
    {
        match first_balance.checked_div(second_balance) {
            Some(v) => Ok(v),
            None => Err(Error::SlashFailed),
        }
    }

    /// A balance as a `u128`, exactly.
    pub fn balance_to_u128(balance: Balance) -> (r: u128)
        ensures
            r == balance,
    {
        balance as u128
    }
}

} // verus!
