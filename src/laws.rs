//! Properties of the state machine that hold for every state and every
//! call, proved over the spec transitions of [`PalletView`].
use vstd::prelude::*;

use crate::arith::floor_sqrt;
use crate::ballots::lemma_set_weight;
use crate::state::{BatchItem, PalletView, INITIAL_ENDOWMENT};
use crate::types::{AccountId, Balance, BlockNumber, Error, Origin, ProposalIndex, TextHash, Vote};

verus! {

/// Registering a new voter with a fee in `1..=100` succeeds and leaves it a
/// free balance of exactly `100 - fee`; registering it again then fails
/// with `VoterAlreadyRegistered`, whatever the fee, and changes nothing.
pub proof fn register_voter_once(s: PalletView, voter: AccountId, fee: Balance)
    requires
        s.wf(),
        !s.is_registered(voter),
        0 < fee <= INITIAL_ENDOWMENT,
    ensures
        ({
            let (r, t) = s.register_voter(Origin::Root, voter, fee);
            &&& r is Ok
            &&& t.is_registered(voter)
            &&& t.free(voter) == INITIAL_ENDOWMENT - fee
            &&& forall|again: Balance| #[trigger]
                t.register_voter(Origin::Root, voter, again) == (
                    Err::<(), Error>(Error::VoterAlreadyRegistered),
                    t,
                )
        }),
{
}

/// A registration fee of 0 fails with `InsufficientFee`, one above the
/// endowment fails with `SubstractionOverflow`, and neither changes the
/// state.
pub proof fn register_voter_rejects_bad_fee(s: PalletView, voter: AccountId, fee: Balance)
    requires
        !s.is_registered(voter),
    ensures
        fee == 0 ==> s.register_voter(Origin::Root, voter, fee) == (
            Err::<(), Error>(Error::InsufficientFee),
            s,
        ),
        fee > INITIAL_ENDOWMENT ==> s.register_voter(Origin::Root, voter, fee) == (
            Err::<(), Error>(Error::SubstractionOverflow),
            s,
        ),
{
}

/// An `Aye` that is recorded weighs `floor(sqrt(reserved))`, and a second
/// `Aye` by the same voter on the same proposal before its end block fails
/// with `VoterAlreadyVoted`, changing nothing.
pub proof fn aye_weight_and_vote_once(
    s: PalletView,
    who: AccountId,
    index: ProposalIndex,
    now: BlockNumber,
    later: BlockNumber,
)
    requires
        s.wf(),
        s.vote_proposal(Origin::Signed(who), index, Vote::Aye, now).0 is Ok,
        now < s.proposal(index).end_block,
        later < s.proposal(index).end_block,
    ensures
        ({
            let t = s.vote_proposal(Origin::Signed(who), index, Vote::Aye, now).1;
            &&& t.aye_weight(index, who) == floor_sqrt(s.reserved(who) as int)
            &&& t.vote_proposal(Origin::Signed(who), index, Vote::Aye, later) == (
                Err::<(), Error>(Error::VoterAlreadyVoted),
                t,
            )
        }),
{
    lemma_set_weight(s.aye_votes, index, who, floor_sqrt(s.reserved(who) as int));
}

/// What the scan of the first `n` proposals has found: the running
/// maximum is the total of the current leader (0 with no leader), no total
/// exceeds it, and every proposal before the leader has a smaller total.
proof fn lemma_leader(s: PalletView, n: nat)
    requires
        s.wf(),
        n <= s.proposals.len(),
    ensures
        ({
            let (m, w) = s.leader(n);
            &&& w == 0 ==> m == 0
            &&& w != 0 ==> 1 <= w <= n && m == s.total_votes(w) && m > 0
            &&& forall|i: ProposalIndex| 1 <= i <= n ==> #[trigger] s.total_votes(i) <= m
            &&& forall|i: ProposalIndex| 1 <= i < w ==> #[trigger] s.total_votes(i) < m
        }),
    decreases n,
{
    if n > 0 {
        lemma_leader(s, (n - 1) as nat);
    }
}

/// The winner has the greatest total aye weight of all proposals, and every
/// proposal with a lower index has a strictly smaller total: a proposal that
/// only equals the leading total never takes the lead. When no proposal has
/// any weight the winner is 0, which is no proposal's index.
pub proof fn winner_is_first_greatest_total(s: PalletView)
    requires
        s.wf(),
    ensures
        s.winner() == 0 ==> forall|i: ProposalIndex|
            s.is_proposal_registered(i) ==> #[trigger] s.total_votes(i) == 0,
        s.winner() != 0 ==> {
            &&& s.is_proposal_registered(s.winner())
            &&& s.total_votes(s.winner()) > 0
            &&& forall|i: ProposalIndex|
                s.is_proposal_registered(i) ==> #[trigger] s.total_votes(i) <= s.total_votes(
                    s.winner(),
                )
            &&& forall|i: ProposalIndex|
                s.is_proposal_registered(i) && i < s.winner() ==> #[trigger] s.total_votes(i)
                    < s.total_votes(s.winner())
        },
{
    lemma_leader(s, s.proposals.len());
}

/// A proposal with some weight whose total exceeds that of every other
/// proposal is the winner.
pub proof fn greatest_total_wins(s: PalletView, b: ProposalIndex)
    requires
        s.wf(),
        s.is_proposal_registered(b),
        s.total_votes(b) > 0,
        forall|i: ProposalIndex|
            s.is_proposal_registered(i) && i != b ==> #[trigger] s.total_votes(i) < s.total_votes(
                b,
            ),
    ensures
        s.winner() == b,
{
    winner_is_first_greatest_total(s);
    if s.winner() != 0 && s.winner() != b {
        assert(s.total_votes(s.winner()) < s.total_votes(b));
        assert(s.total_votes(b) <= s.total_votes(s.winner()));
    }
}

/// Every call that fails returns the state it was given: no table and no
/// balance changes, and no event is deposited.
pub proof fn failed_calls_change_nothing(
    s: PalletView,
    origin: Origin,
    who: AccountId,
    fee: Balance,
    text: TextHash,
    index: ProposalIndex,
    amount: Balance,
    vote: Vote,
    items: Seq<BatchItem>,
    now: BlockNumber,
)
    ensures
        s.register_voter(origin, who, fee).0 is Err ==> s.register_voter(origin, who, fee).1 == s,
        s.create_proposal(origin, text, now).0 is Err ==> s.create_proposal(origin, text, now).1
            == s,
        s.start_proposal(origin, index, fee).0 is Err ==> s.start_proposal(origin, index, fee).1
            == s,
        s.reserve_tokens(origin, amount).0 is Err ==> s.reserve_tokens(origin, amount).1 == s,
        s.unreserve_tokens(origin, amount).0 is Err ==> s.unreserve_tokens(origin, amount).1 == s,
        s.vote_proposal(origin, index, vote, now).0 is Err ==> s.vote_proposal(
            origin,
            index,
            vote,
            now,
        ).1 == s,
        s.vote_multiple_proposals(origin, items, now).0 is Err ==> s.vote_multiple_proposals(
            origin,
            items,
            now,
        ).1 == s,
{
}

/// A batch that lists a proposal that is unknown or not in progress fails
/// with `AtLeastOneProposalNotRegisteredOrNotActive` for a registered voter,
/// and in any case records no vote on any proposal of the batch.
pub proof fn batch_with_inactive_proposal_records_nothing(
    s: PalletView,
    origin: Origin,
    items: Seq<BatchItem>,
    now: BlockNumber,
    j: int,
)
    requires
        0 <= j < items.len(),
        !s.is_proposal_active(items[j].0),
    ensures
        s.vote_multiple_proposals(origin, items, now).0 is Err,
        s.vote_multiple_proposals(origin, items, now).1.aye_votes == s.aye_votes,
        s.vote_multiple_proposals(origin, items, now).1 == s,
        forall|who: AccountId|
            origin == Origin::Signed(who) && s.is_registered(who) ==> s.vote_multiple_proposals(
                origin,
                items,
                now,
            ).0 == Err::<(), Error>(Error::AtLeastOneProposalNotRegisteredOrNotActive),
{
    assert(!s.all_active(items));
}

} // verus!
