use vstd::prelude::*;
use crate::types::{AccountId, ProposalState, ProposalType};

verus! {

/// The number of approvals that a withdrawal must exceed: half of the
/// campaign's contributors, rounded down.
pub open spec fn threshold_of(contributors: u64) -> u64 {
    contributors / 2
}

/// Outcome of a general proposal at its finalisation block. A tie with
/// votes on both sides resolves nothing: the proposal stays active.
pub open spec fn general_outcome(yes: u64, no: u64) -> ProposalState {
    if yes == 0 && no == 0 {
        ProposalState::Expired
    } else if yes > no {
        ProposalState::Accepted
    } else if yes < no {
        ProposalState::Rejected
    } else {
        ProposalState::Active
    }
}

/// Outcome of a withdrawal proposal: accepted once the approvals exceed
/// half of the contributors.
pub open spec fn withdrawal_outcome(yes: u64, contributors: u64) -> ProposalState {
    if yes > threshold_of(contributors) {
        ProposalState::Accepted
    } else {
        ProposalState::Rejected
    }
}

/// Outcome of a proposal of the given type at its finalisation block.
/// Member proposals are left as they are; the types without a tally rule
/// expire.
pub open spec fn type_outcome(t: ProposalType, yes: u64, no: u64, contributors: u64) -> ProposalState {
    match t {
        ProposalType::General => general_outcome(yes, no),
        ProposalType::Withdrawal => withdrawal_outcome(yes, contributors),
        ProposalType::Member => ProposalState::Active,
        _ => ProposalState::Expired,
    }
}

pub fn threshold(contributors: u64) -> (r: u64)
    ensures
        r == threshold_of(contributors),
{
    contributors / 2
}

pub fn general_resolution(yes: u64, no: u64) -> (r: ProposalState)
    ensures
        r == general_outcome(yes, no),
{
    let mut state = ProposalState::Active;
    if yes > no {
        state = ProposalState::Accepted;
    }
    if yes < no {
        state = ProposalState::Rejected;
    }
    if yes == 0 && no == 0 {
        state = ProposalState::Expired;
    }
    state
}

pub fn withdrawal_resolution(yes: u64, contributors: u64) -> (r: ProposalState)
    ensures
        r == withdrawal_outcome(yes, contributors),
{
    if yes > threshold(contributors) {
        ProposalState::Accepted
    } else {
        ProposalState::Rejected
    }
}

pub fn resolution(t: ProposalType, yes: u64, no: u64, contributors: u64) -> (r: ProposalState)
    ensures
        r == type_outcome(t, yes, no, contributors),
{
    match t {
        ProposalType::General => general_resolution(yes, no),
        ProposalType::Withdrawal => withdrawal_resolution(yes, contributors),
        ProposalType::Member => ProposalState::Active,
        _ => ProposalState::Expired,
    }
}

/// Strictly increasing, hence free of duplicates.
pub open spec fn sorted(s: Seq<AccountId>) -> bool {
    forall|i: int, j: int| 0 <= i < j < s.len() ==> s[i] < s[j]
}

/// Inserts `x` into the sorted sequence `v` at its place; where `x` is
/// already there, `v` is left as it is. Returns whether `x` was added.
pub fn insert_sorted(v: &mut Vec<AccountId>, x: AccountId) -> (added: bool)
    requires
        sorted(old(v)@),
    ensures
        sorted(final(v)@),
        added == !old(v)@.contains(x),
        forall|y: AccountId| final(v)@.contains(y) <==> (old(v)@.contains(y) || y == x),
        !added ==> final(v)@ == old(v)@,
        added ==> final(v)@.len() == old(v)@.len() + 1,
{
    let mut lo: usize = 0;
    let mut hi: usize = v.len();
    while lo < hi
        invariant
            0 <= lo <= hi <= v.len(),
            v@ == old(v)@,
            sorted(v@),
            forall|j: int| 0 <= j < lo ==> v@[j] < x,
            forall|j: int| hi <= j < v@.len() ==> v@[j] > x,
        decreases hi - lo,
    {
        let mid: usize = lo + (hi - lo) / 2;
        if v[mid] == x {
            assert(v@.contains(x)) by {
                assert(v@[mid as int] == x);
            }
            return false;
        } else if v[mid] < x {
            lo = mid + 1;
        } else {
            hi = mid;
        }
    }
    let ghost s = v@;
    assert(!s.contains(x)) by {
        if s.contains(x) {
            let k = choose|k: int| 0 <= k < s.len() && s[k] == x;
            assert(k < lo || k >= hi);
        }
    }
    v.insert(lo, x);
    proof {
        s.insert_ensures(lo as int, x);
        let t = v@;
        assert forall|i: int, j: int| 0 <= i < j < t.len() implies t[i] < t[j] by {
            if i < lo {
                if j > lo {
                    assert(t[j] == s[j - 1]);
                }
            } else if i > lo {
                assert(t[i] == s[i - 1]);
                assert(t[j] == s[j - 1]);
            } else {
                assert(t[j] == s[j - 1]);
            }
        }
        assert forall|y: AccountId| t.contains(y) <==> (s.contains(y) || y == x) by {
            if t.contains(y) {
                let k = choose|k: int| 0 <= k < t.len() && t[k] == y;
                if k < lo {
                    assert(s[k] == y);
                } else if k > lo {
                    assert(s[k - 1] == y);
                }
            }
            if s.contains(y) {
                let k = choose|k: int| 0 <= k < s.len() && s[k] == y;
                if k < lo {
                    assert(t[k] == y);
                } else {
                    assert(t[k + 1] == y);
                }
            }
            if y == x {
                assert(t[lo as int] == x);
            }
        }
    }
    true
}

} // verus!
