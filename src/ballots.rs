//! The table of aye votes: one record per (proposal, voter), holding the
//! accumulated quadratic weight of that voter's ayes on that proposal.
use vstd::prelude::*;

use crate::types::{AccountId, Balance, ProposalIndex};

verus! {

/// One record of the aye-vote table.
#[derive(Clone, Copy, Debug, PartialEq, Eq, Structural)]
pub struct AyeVote {
    pub proposal_index: ProposalIndex,
    pub voter: AccountId,
    pub weight: Balance,
}

/// The mathematical record: proposal, voter, weight.
pub type Record = (ProposalIndex, AccountId, nat);

pub open spec fn record_of(v: AyeVote) -> Record {
    (v.proposal_index, v.voter, v.weight as nat)
}

pub open spec fn records_of(s: Seq<AyeVote>) -> Seq<Record> {
    s.map_values(|v: AyeVote| record_of(v))
}

pub open spec fn is_key(r: Record, p: ProposalIndex, who: AccountId) -> bool {
    r.0 == p && r.1 == who
}

/// No two records share a (proposal, voter) key.
pub open spec fn keys_unique(s: Seq<Record>) -> bool {
    forall|i: int, j: int|
        0 <= i < s.len() && 0 <= j < s.len() && i != j ==> !is_key(#[trigger] s[i], s[j].0, #[trigger] s[j].1)
}

/// Every weight fits in a balance.
pub open spec fn weights_fit(s: Seq<Record>) -> bool {
    forall|i: int| 0 <= i < s.len() ==> #[trigger] s[i].2 <= Balance::MAX
}

pub open spec fn has_record(s: Seq<Record>, p: ProposalIndex, who: AccountId) -> bool {
    exists|i: int| 0 <= i < s.len() && is_key(#[trigger] s[i], p, who)
}

pub open spec fn record_index(s: Seq<Record>, p: ProposalIndex, who: AccountId) -> int {
    choose|i: int| 0 <= i < s.len() && is_key(#[trigger] s[i], p, who)
}

/// The weight recorded for `(p, who)`, 0 when there is none.
pub open spec fn weight_of(s: Seq<Record>, p: ProposalIndex, who: AccountId) -> nat {
    if has_record(s, p, who) {
        s[record_index(s, p, who)].2
    } else {
        0
    }
}

/// The table with the weight of `(p, who)` set to `w`: the record is
/// overwritten where it exists, appended otherwise.
pub open spec fn set_weight(s: Seq<Record>, p: ProposalIndex, who: AccountId, w: nat) -> Seq<
    Record,
> {
    if has_record(s, p, who) {
        s.update(record_index(s, p, who), (p, who, w))
    } else {
        s.push((p, who, w))
    }
}

/// Sum of the weights recorded on proposal `p`.
pub open spec fn total_weight(s: Seq<Record>, p: ProposalIndex) -> nat
    decreases s.len(),
{
    if s.len() == 0 {
        0
    } else {
        total_weight(s.drop_last(), p) + if s.last().0 == p {
            s.last().2
        } else {
            0
        }
    }
}

/// In a table with unique keys, the record at `i` is the one found for its key.
pub proof fn lemma_record_at(s: Seq<Record>, i: int)
    requires
        keys_unique(s),
        0 <= i < s.len(),
    ensures
        has_record(s, s[i].0, s[i].1),
        record_index(s, s[i].0, s[i].1) == i,
        weight_of(s, s[i].0, s[i].1) == s[i].2,
{
    assert(is_key(s[i], s[i].0, s[i].1));
    let j = record_index(s, s[i].0, s[i].1);
    assert(is_key(s[j], s[i].0, s[i].1));
}

/// Setting one weight keeps keys unique, adds that key, and leaves every
/// other key's presence and weight alone.
pub proof fn lemma_set_weight(s: Seq<Record>, p: ProposalIndex, who: AccountId, w: nat)
    requires
        keys_unique(s),
    ensures
        keys_unique(set_weight(s, p, who, w)),
        forall|q: ProposalIndex, v: AccountId|
            #[trigger] has_record(set_weight(s, p, who, w), q, v) == (has_record(s, q, v) || (q
                == p && v == who)),
        forall|q: ProposalIndex, v: AccountId|
            #[trigger] weight_of(set_weight(s, p, who, w), q, v) == if q == p && v == who {
                w
            } else {
                weight_of(s, q, v)
            },
{
    let t = set_weight(s, p, who, w);
    if has_record(s, p, who) {
        let k = record_index(s, p, who);
        assert(is_key(s[k], p, who));
        assert forall|i: int| 0 <= i < t.len() implies t[i].0 == s[i].0 && t[i].1 == s[i].1 by {}
    }
    assert(keys_unique(t));
    assert forall|q: ProposalIndex, v: AccountId|
        #[trigger] has_record(t, q, v) == (has_record(s, q, v) || (q == p && v == who)) by {
        if has_record(s, q, v) {
            let i = record_index(s, q, v);
            assert(is_key(t[i], q, v));
        }
        if q == p && v == who {
            if has_record(s, p, who) {
                let k = record_index(s, p, who);
                assert(is_key(t[k], q, v));
            } else {
                assert(is_key(t[s.len() as int], q, v));
            }
        }
        if has_record(t, q, v) {
            let i = record_index(t, q, v);
            if !(q == p && v == who) {
                if i < s.len() {
                    assert(is_key(s[i], q, v));
                }
            }
        }
    }
    assert forall|q: ProposalIndex, v: AccountId|
        #[trigger] weight_of(t, q, v) == if q == p && v == who {
            w
        } else {
            weight_of(s, q, v)
        } by {
        if has_record(t, q, v) {
            let i = record_index(t, q, v);
            lemma_record_at(t, i);
            if !(q == p && v == who) {
                assert(i < s.len());
                assert(t[i] == s[i]);
                lemma_record_at(s, i);
            } else {
                if has_record(s, p, who) {
                    assert(t[record_index(s, p, who)] == (p, who, w));
                    lemma_record_at(t, record_index(s, p, who));
                } else {
                    assert(t[s.len() as int] == (p, who, w));
                    lemma_record_at(t, s.len() as int);
                }
            }
        } else {
            assert(has_record(s, q, v) == (has_record(t, q, v) && !(q == p && v == who)));
        }
    }
}

/// Looks up the position of the record for `(p, who)`.
pub fn find_record(table: &Vec<AyeVote>, p: ProposalIndex, who: AccountId) -> (r: Option<usize>)
    requires
        keys_unique(records_of(table@)),
    ensures
        match r {
            Some(i) => i < table@.len() && has_record(records_of(table@), p, who) && record_index(
                records_of(table@),
                p,
                who,
            ) == i,
            None => !has_record(records_of(table@), p, who),
        },
{
    let ghost s = records_of(table@);
    let mut i: usize = 0;
    while i < table.len()
        invariant
            s == records_of(table@),
            keys_unique(s),
            i <= table@.len(),
            forall|j: int| 0 <= j < i ==> !is_key(#[trigger] s[j], p, who),
        decreases table@.len() - i,
    {
        let v = table[i];
        if v.proposal_index == p && v.voter == who {
            proof {
                assert(s[i as int] == record_of(v));
                lemma_record_at(s, i as int);
            }
            return Some(i);
        }
        proof {
            assert(s[i as int] == record_of(v));
        }
        i = i + 1;
    }
    None
}

} // verus!
