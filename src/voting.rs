use vstd::prelude::*;
use crate::types::{
    AccountId, BlockNumber, Campaign, Event, ProposalId, ProposalState, ProposalType, SignalError,
};
use crate::tally::{insert_sorted, sorted, threshold, threshold_of};
use crate::ledger::{campaign_for, find_campaign, lemma_campaign_for_context, set_used, used_of};
use crate::registry::{
    Record, Signal, distinct_voters, lemma_positions_kept, lemma_wf_frame, record_wf, same_index, voters_of,
};

verus! {

/// The refusal, if any, of the checks that precede any tally: the proposal
/// exists, is active, has no vote of `voter`, and has not reached its expiry
/// block.
pub open spec fn vote_precheck(
    s: &Signal,
    id: ProposalId,
    voter: AccountId,
    current_block: BlockNumber,
) -> Option<SignalError> {
    if !s.has(id) {
        Some(SignalError::ProposalUnknown)
    } else if s.record(id).state != ProposalState::Active {
        Some(SignalError::ProposalEnded)
    } else if s.voted(voter, id) {
        Some(SignalError::AlreadyVoted)
    } else if current_block >= s.record(id).proposal.expiry {
        Some(SignalError::ProposalExpired)
    } else {
        None
    }
}

/// `early_release` with the campaign that `cs` reports for the proposal.
pub open spec fn unlocks_early(r: Record, vote: bool, cs: Seq<Campaign>) -> bool {
    early_release(r, vote, campaign_for(cs, r.proposal.context_id))
}

/// `r` is an active withdrawal: the only kind of proposal whose funds can
/// be released.
pub open spec fn releasable(r: Record) -> bool {
    r.state == ProposalState::Active && r.proposal.proposal_type == ProposalType::Withdrawal
}

/// The funds of `r` do not fit in what is left of its campaign's balance.
pub open spec fn short_of_funds(s: &Signal, r: Record, c: Campaign) -> bool {
    r.metadata.amount + s.used_balance_of(r.proposal.context_id) > c.balance
}

/// The refusal, if any, of a vote.
pub open spec fn vote_error(
    s: &Signal,
    id: ProposalId,
    voter: AccountId,
    vote: bool,
    current_block: BlockNumber,
    cs: Seq<Campaign>,
) -> Option<SignalError> {
    let r = s.record(id);
    match vote_precheck(s, id, voter, current_block) {
        Some(e) => Some(e),
        None => if (vote && r.yes == u64::MAX) || (!vote && r.no == u64::MAX) {
            Some(SignalError::OverflowError)
        } else if unlocks_early(r, vote, cs) && short_of_funds(
            s,
            r,
            campaign_for(cs, r.proposal.context_id),
        ) {
            Some(SignalError::BalanceInsufficient)
        } else {
            None
        },
    }
}

/// Funds released so far never shrink, and a context whose figure moved
/// stays within its campaign's balance.
pub open spec fn used_grows(old: &Signal, new: &Signal, cs: Seq<Campaign>) -> bool {
    forall|c: u128|
        old.used_balance_of(c) <= #[trigger] new.used_balance_of(c) && (new.used_balance_of(c)
            != old.used_balance_of(c) ==> new.used_balance_of(c) <= campaign_for(cs, c).balance)
}

/// `new` is `old` where record `i` only changed state, to `state`.
pub open spec fn state_changed(old: Seq<Record>, new: Seq<Record>, i: int, state: ProposalState) -> bool {
    &&& new.len() == old.len()
    &&& forall|j: int| 0 <= j < old.len() && j != i ==> new[j] == old[j]
    &&& new[i] == Record { state, ..old[i] }
}

/// The release of the funds of record `i`: its context's used balance grows
/// by the amount, the record is finalised and a grant is announced.
pub open spec fn released(old: &Signal, new: &Signal, i: int, c: Campaign) -> bool {
    let r = old.records@[i];
    let ctx = r.proposal.context_id;
    &&& state_changed(old.records@, new.records@, i, ProposalState::Finalized)
    &&& forall|d: u128|
        (#[trigger] new.used_balance_of(d)) as int == if d == ctx {
            old.used_balance_of(d) + r.metadata.amount
        } else {
            old.used_balance_of(d) as int
        }
    &&& new.events@ == old.events@.push(
        Event::WithdrawalGranted {
            proposal_id: r.proposal.proposal_id,
            context_id: ctx,
            org: c.org,
            amount: r.metadata.amount,
        },
    )
    &&& new.vote_log == old.vote_log
    &&& new.time_limit == old.time_limit
}

/// A yes vote on a withdrawal that lifts its approvals above the threshold
/// of campaign `c` releases the funds at once.
pub open spec fn early_release(r: Record, vote: bool, c: Campaign) -> bool {
    &&& r.proposal.proposal_type == ProposalType::Withdrawal
    &&& vote
    &&& r.yes + 1 > threshold_of(c.contributors)
}

/// Record `i` of `new` is that of `old` with the vote of `voter` added to
/// its tally, its vote history and its voter set; the vote log and the
/// events record it; nothing else changes.
pub open spec fn tallied(old: &Signal, new: &Signal, i: int, voter: AccountId, vote: bool) -> bool {
    let r = old.records@[i];
    let n = new.records@[i];
    &&& new.records@.len() == old.records@.len()
    &&& forall|j: int| 0 <= j < old.records@.len() && j != i ==> new.records@[j] == old.records@[j]
    &&& n.proposal == r.proposal
    &&& n.metadata == r.metadata
    &&& n.owner == r.owner
    &&& n.state == r.state
    &&& n.context_seq == r.context_seq
    &&& n.owner_seq == r.owner_seq
    &&& n.yes == r.yes + if vote { 1int } else { 0 }
    &&& n.no == r.no + if vote { 0int } else { 1 }
    &&& n.approvers == n.yes
    &&& n.deniers == n.no
    &&& n.votes@ == r.votes@.push((voter, vote))
    &&& n.voters@.len() == r.voters@.len() + 1
    &&& forall|a: AccountId| n.voters@.contains(a) <==> (r.voters@.contains(a) || a == voter)
    &&& new.used == old.used
    &&& new.events@ == old.events@.push(Event::ProposalVoted { voter, proposal_id: r.proposal.proposal_id, vote })
    &&& new.vote_log@ == old.vote_log@.push((voter, r.proposal.proposal_id, vote))
    &&& new.time_limit == old.time_limit
}

/// `new` is `old` after the vote of `voter` on proposal `id`, whose campaign
/// the collaborator reports as `c`: where `early_release` holds, the funds
/// are released first; then the vote is tallied.
pub open spec fn vote_applied(
    old: &Signal,
    new: &Signal,
    id: ProposalId,
    voter: AccountId,
    vote: bool,
    c: Campaign,
) -> bool {
    let i = old.position(id);
    if early_release(old.records@[i], vote, c) {
        exists|mid: Signal| released(old, &mid, i, c) && tallied(&mid, new, i, voter, vote)
    } else {
        tallied(old, new, i, voter, vote)
    }
}

impl Signal {
    /// Releases the funds of the withdrawal at position `i`, whose campaign
    /// the collaborator reports as `c`. Only an active withdrawal can be
    /// released, so each is released at most once: any other proposal is
    /// refused with `ProposalEnded`. The release is refused with
    /// `BalanceInsufficient` where the amount exceeds what is left of the
    /// campaign's balance. A refusal changes nothing.
    pub fn unlock_balance(&mut self, i: usize, c: &Campaign) -> (r: Result<(), SignalError>)
        requires
            old(self).wf(),
            i < old(self).records@.len(),
            c.context_id == old(self).records@[i as int].proposal.context_id,
        ensures
            final(self).wf(),
            !releasable(old(self).records@[i as int]) ==> r == Err::<(), SignalError>(
                SignalError::ProposalEnded,
            ),
            releasable(old(self).records@[i as int]) ==> (r is Err <==> short_of_funds(
                old(self),
                old(self).records@[i as int],
                *c,
            )),
            releasable(old(self).records@[i as int]) && r is Err ==> r == Err::<(), SignalError>(
                SignalError::BalanceInsufficient,
            ),
            r is Err ==> *final(self) == *old(self),
            r is Ok ==> released(old(self), final(self), i as int, *c),
            r is Ok ==> used_grows(old(self), final(self), seq![*c]),
    {
        if self.records[i].state != ProposalState::Active || self.records[i].proposal.proposal_type
            != ProposalType::Withdrawal {
            return Err(SignalError::ProposalEnded);
        }
        let ctx = self.records[i].proposal.context_id;
        let amount = self.records[i].metadata.amount;
        let proposal_id = self.records[i].proposal.proposal_id;
        let used = used_of(&self.used, ctx);
        if c.balance < used || c.balance - used < amount {
            return Err(SignalError::BalanceInsufficient);
        }
        let ghost before = *self;
        set_used(&mut self.used, ctx, used + amount);
        self.records[i].state = ProposalState::Finalized;
        self.events.push(
            Event::WithdrawalGranted { proposal_id, context_id: ctx, org: c.org, amount },
        );
        proof {
            assert(same_index(before.records@, self.records@));
            assert forall|j: int| 0 <= j < self.records@.len() implies #[trigger] record_wf(
                self.records@[j],
            ) by {
                assert(record_wf(before.records@[j]));
            }
            lemma_wf_frame(&before, self);
            assert(campaign_for(seq![*c], ctx) == *c) by {
                reveal_with_fuel(campaign_for, 2);
            }
        }
        Ok(())
    }
}

/// Whether `x` occurs in `v`.
pub fn contains_account(v: &Vec<AccountId>, x: AccountId) -> (r: bool)
    ensures
        r == v@.contains(x),
{
    let mut i: usize = 0;
    while i < v.len()
        invariant
            0 <= i <= v@.len(),
            forall|j: int| 0 <= j < i ==> v@[j] != x,
        decreases v@.len() - i,
    {
        if v[i] == x {
            assert(v@[i as int] == x);
            return true;
        }
        i = i + 1;
    }
    false
}

pub open spec fn vote_result(e: Option<SignalError>) -> Result<(), SignalError> {
    match e {
        Some(x) => Err(x),
        None => Ok(()),
    }
}

impl Signal {
    /// Casts the vote of `voter` on proposal `proposal_id` at block
    /// `current_block`. `campaigns` is what the campaign collaborator reports;
    /// a withdrawal reads its own campaign's contributor count and balance.
    pub fn cast_vote(
        &mut self,
        voter: AccountId,
        proposal_id: ProposalId,
        vote: bool,
        current_block: BlockNumber,
        campaigns: &Vec<Campaign>,
    ) -> (r: Result<(), SignalError>)
        requires
            old(self).wf(),
        ensures
            final(self).wf(),
            r == vote_result(vote_error(old(self), proposal_id, voter, vote, current_block, campaigns@)),
            r is Err ==> *final(self) == *old(self),
            r is Ok ==> vote_applied(
                old(self),
                final(self),
                proposal_id,
                voter,
                vote,
                campaign_for(campaigns@, old(self).record(proposal_id).proposal.context_id),
            ),
            r is Ok ==> final(self).voted(voter, proposal_id),
            forall|a: AccountId, p: ProposalId| old(self).voted(a, p) ==> #[trigger] final(self).voted(a, p),
            forall|p: ProposalId| old(self).has(p) ==> #[trigger] final(self).has(p),
            used_grows(old(self), final(self), campaigns@),
    {
        let i = match self.find(proposal_id) {
            None => {
                return Err(SignalError::ProposalUnknown);
            },
            Some(i) => i,
        };
        if self.records[i].state != ProposalState::Active {
            return Err(SignalError::ProposalEnded);
        }
        if contains_account(&self.records[i].voters, voter) {
            return Err(SignalError::AlreadyVoted);
        }
        if current_block >= self.records[i].proposal.expiry {
            return Err(SignalError::ProposalExpired);
        }
        let yes = self.records[i].yes;
        let no = self.records[i].no;
        if (vote && yes == u64::MAX) || (!vote && no == u64::MAX) {
            return Err(SignalError::OverflowError);
        }
        let ctx = self.records[i].proposal.context_id;
        let c = find_campaign(campaigns, ctx);
        proof {
            lemma_campaign_for_context(campaigns@, ctx);
        }
        let early = self.records[i].proposal.proposal_type == ProposalType::Withdrawal && vote && yes
            + 1 > threshold(c.contributors);
        let ghost start = *self;
        if early {
            match self.unlock_balance(i, &c) {
                Err(e) => {
                    return Err(e);
                },
                Ok(()) => {},
            }
        }
        let ghost mid = *self;
        proof {
            if early {
                assert(same_index(start.records@, mid.records@));
                lemma_positions_kept(&start, &mid);
            }
        }
        self.record_vote(i, voter, vote);
        proof {
            assert(same_index(mid.records@, self.records@));
            lemma_positions_kept(&mid, self);
            if early {
                assert(released(&start, &mid, i as int, c) && tallied(&mid, self, i as int, voter, vote));
            }
            assert forall|a: AccountId, p: ProposalId| start.voted(a, p) implies #[trigger] self.voted(
                a,
                p,
            ) by {
                if start.position(p) != i {
                    assert(mid.records@[start.position(p)] == start.records@[start.position(p)]);
                    assert(self.records@[start.position(p)] == mid.records@[start.position(p)]);
                }
            }
            assert forall|d: u128|
                start.used_balance_of(d) <= #[trigger] self.used_balance_of(d) && (
                self.used_balance_of(d) != start.used_balance_of(d) ==> self.used_balance_of(d)
                    <= campaign_for(campaigns@, d).balance) by {
                assert(mid.used_balance_of(d) == self.used_balance_of(d));
            }
        }
        Ok(())
    }
}

impl Signal {
    /// Adds the vote of `voter`, who has not voted yet, to record `i`.
    fn record_vote(&mut self, i: usize, voter: AccountId, vote: bool)
        requires
            old(self).wf(),
            i < old(self).records@.len(),
            !old(self).records@[i as int].voters@.contains(voter),
            vote ==> old(self).records@[i as int].yes < u64::MAX,
            !vote ==> old(self).records@[i as int].no < u64::MAX,
        ensures
            final(self).wf(),
            tallied(old(self), final(self), i as int, voter, vote),
    {
        let ghost mid = *self;
        proof {
            assert(record_wf(mid.records@[i as int]));
        }
        let proposal_id = self.records[i].proposal.proposal_id;
        if vote {
            let yes = self.records[i].yes;
            self.records[i].yes = yes + 1;
            self.records[i].approvers = yes + 1;
        } else {
            let no = self.records[i].no;
            self.records[i].no = no + 1;
            self.records[i].deniers = no + 1;
        }
        self.records[i].votes.push((voter, vote));
        insert_sorted(&mut self.records[i].voters, voter);
        self.vote_log.push((voter, proposal_id, vote));
        self.events.push(Event::ProposalVoted { voter, proposal_id, vote });
        proof {
            lemma_vote_record(mid.records@[i as int], self.records@[i as int], voter, vote);
            assert(same_index(mid.records@, self.records@));
            assert forall|j: int| 0 <= j < self.records@.len() implies #[trigger] record_wf(
                self.records@[j],
            ) by {
                if j != i {
                    assert(record_wf(mid.records@[j]));
                }
            }
            lemma_wf_frame(&mid, self);
        }
    }
}

/// A vote of a new voter keeps a record consistent.
proof fn lemma_vote_record(r: Record, n: Record, voter: AccountId, vote: bool)
    requires
        record_wf(r),
        !r.voters@.contains(voter),
        n.proposal == r.proposal,
        n.yes == r.yes + if vote { 1int } else { 0 },
        n.no == r.no + if vote { 0int } else { 1 },
        n.approvers == n.yes,
        n.deniers == n.no,
        n.votes@ == r.votes@.push((voter, vote)),
        sorted(n.voters@),
        n.voters@.len() == r.voters@.len() + 1,
        forall|a: AccountId| n.voters@.contains(a) <==> (r.voters@.contains(a) || a == voter),
    ensures
        record_wf(n),
{
    assert(!voters_of(r.votes@).contains(voter));
    assert(distinct_voters(n.votes@)) by {
        assert forall|x: int, y: int| 0 <= x < y < n.votes@.len() implies n.votes@[x].0
            != n.votes@[y].0 by {
            assert(n.votes@[x] == r.votes@[x]);
            if y == r.votes@.len() {
                if r.votes@[x].0 == voter {
                    assert(voters_of(r.votes@).contains(voter));
                }
            } else {
                assert(n.votes@[y] == r.votes@[y]);
            }
        }
    }
    assert forall|a: AccountId| n.voters@.contains(a) <==> voters_of(n.votes@).contains(a) by {
        if voters_of(n.votes@).contains(a) {
            let k = choose|k: int| 0 <= k < n.votes@.len() && n.votes@[k].0 == a;
            if k < r.votes@.len() {
                assert(n.votes@[k] == r.votes@[k]);
                assert(voters_of(r.votes@).contains(a));
            }
        }
        if r.voters@.contains(a) {
            assert(voters_of(r.votes@).contains(a));
            let k = choose|k: int| 0 <= k < r.votes@.len() && r.votes@[k].0 == a;
            assert(n.votes@[k] == r.votes@[k]);
        }
        if a == voter {
            assert(n.votes@[r.votes@.len() as int].0 == voter);
        }
    }
}

} // verus!
