use vstd::prelude::*;
use crate::types::{BlockNumber, Campaign, ContextId, Event, ProposalState, ProposalType};
use crate::tally::{general_outcome, general_resolution, threshold, threshold_of};
use crate::ledger::{campaign_for, find_campaign, lemma_campaign_for_context};
use crate::registry::{Record, Signal, lemma_wf_frame, record_wf, same_index};
use crate::voting::{state_changed, used_grows};

verus! {

/// The proposal of `r` is due for settlement in the sweep of `block`.
pub open spec fn due(r: Record, block: BlockNumber) -> bool {
    r.proposal.expiry == block && r.state == ProposalState::Active
}

/// The state that the sweep gives the due proposal `r`, given the report
/// `c` of its campaign and whether its amount `fits` in what is left of the
/// campaign's balance. An accepted withdrawal ends `Finalized` where its
/// funds fit and are released, and `Accepted` where they do not fit.
pub open spec fn sweep_outcome(r: Record, fits: bool, c: Campaign) -> ProposalState {
    match r.proposal.proposal_type {
        ProposalType::General => general_outcome(r.yes, r.no),
        ProposalType::Withdrawal => if r.yes > threshold_of(c.contributors) {
            if fits {
                ProposalState::Finalized
            } else {
                ProposalState::Accepted
            }
        } else {
            ProposalState::Rejected
        },
        ProposalType::Member => r.state,
        _ => ProposalState::Expired,
    }
}

/// The notifications of the sweep for `r`, which it leaves in state `st`:
/// one per outcome, and a grant after the approval where funds are released.
pub open spec fn sweep_events(r: Record, st: ProposalState, c: Campaign) -> Seq<Event> {
    let id = r.proposal.proposal_id;
    match st {
        ProposalState::Accepted => seq![Event::ProposalApproved { proposal_id: id }],
        ProposalState::Finalized => seq![
            Event::ProposalApproved { proposal_id: id },
            Event::WithdrawalGranted {
                proposal_id: id,
                context_id: r.proposal.context_id,
                org: c.org,
                amount: r.metadata.amount,
            },
        ],
        ProposalState::Rejected => seq![Event::ProposalRejected { proposal_id: id }],
        ProposalState::Expired => seq![Event::ProposalExpired { proposal_id: id }],
        _ => seq![],
    }
}

/// Funds released for context `d` once the sweep of `block` over `s` has
/// handled the first `j` proposals.
pub open spec fn swept_used(s: &Signal, block: BlockNumber, cs: Seq<Campaign>, j: int, d: ContextId) -> int
    decreases j,
{
    if j <= 0 {
        s.used_balance_of(d) as int
    } else {
        let k = j - 1;
        let r = s.records@[k];
        let ctx = r.proposal.context_id;
        let c = campaign_for(cs, ctx);
        let prev = swept_used(s, block, cs, k, d);
        if due(r, block) && d == ctx && sweep_outcome(
            r,
            r.metadata.amount + swept_used(s, block, cs, k, ctx) <= c.balance,
            c,
        ) == ProposalState::Finalized {
            prev + r.metadata.amount
        } else {
            prev
        }
    }
}

/// The funds of proposal `j` fit in what is left when the sweep reaches it.
pub open spec fn fits_at(s: &Signal, block: BlockNumber, cs: Seq<Campaign>, j: int) -> bool {
    let r = s.records@[j];
    r.metadata.amount + swept_used(s, block, cs, j, r.proposal.context_id) <= campaign_for(
        cs,
        r.proposal.context_id,
    ).balance
}

/// The state of proposal `j` after the sweep of `block` over `s`.
pub open spec fn swept_state(s: &Signal, block: BlockNumber, cs: Seq<Campaign>, j: int) -> ProposalState {
    let r = s.records@[j];
    if due(r, block) {
        sweep_outcome(r, fits_at(s, block, cs, j), campaign_for(cs, r.proposal.context_id))
    } else {
        r.state
    }
}

/// The notifications of the sweep of `block` over the first `j` proposals.
pub open spec fn swept_events(s: &Signal, block: BlockNumber, cs: Seq<Campaign>, j: int) -> Seq<Event>
    decreases j,
{
    if j <= 0 {
        seq![]
    } else {
        let r = s.records@[j - 1];
        swept_events(s, block, cs, j - 1) + if due(r, block) {
            sweep_events(r, swept_state(s, block, cs, j - 1), campaign_for(cs, r.proposal.context_id))
        } else {
            seq![]
        }
    }
}

/// `new` holds the records of `old`, of which only states may differ.
pub open spec fn only_states_changed(old: Seq<Record>, new: Seq<Record>) -> bool {
    &&& new.len() == old.len()
    &&& forall|j: int| 0 <= j < old.len() ==> #[trigger] new[j] == Record { state: new[j].state, ..old[j] }
}

/// Funds released only grow, from `a` to `b` and from `b` to `c`, hence from
/// `a` to `c`.
pub proof fn lemma_used_grows_trans(a: &Signal, b: &Signal, c: &Signal, cs: Seq<Campaign>)
    requires
        used_grows(a, b, cs),
        used_grows(b, c, cs),
    ensures
        used_grows(a, c, cs),
{
    assert forall|d: u128|
        a.used_balance_of(d) <= #[trigger] c.used_balance_of(d) && (c.used_balance_of(d)
            != a.used_balance_of(d) ==> c.used_balance_of(d) <= campaign_for(cs, d).balance) by {
        assert(a.used_balance_of(d) <= b.used_balance_of(d));
        assert(b.used_balance_of(d) <= c.used_balance_of(d));
    }
}

impl Signal {
    /// Sets the state of the proposal at position `i`.
    fn set_state(&mut self, i: usize, st: ProposalState)
        requires
            old(self).wf(),
            i < old(self).records@.len(),
        ensures
            final(self).wf(),
            state_changed(old(self).records@, final(self).records@, i as int, st),
            final(self).used == old(self).used,
            final(self).events == old(self).events,
            final(self).vote_log == old(self).vote_log,
            final(self).time_limit == old(self).time_limit,
    {
        let ghost start = *self;
        self.records[i].state = st;
        proof {
            assert(same_index(start.records@, self.records@));
            assert forall|j: int| 0 <= j < self.records@.len() implies #[trigger] record_wf(
                self.records@[j],
            ) by {
                assert(record_wf(start.records@[j]));
            }
            lemma_wf_frame(&start, self);
        }
    }

    /// Settles the active proposal at position `i`.
    fn settle(&mut self, i: usize, campaigns: &Vec<Campaign>)
        requires
            old(self).wf(),
            i < old(self).records@.len(),
            old(self).records@[i as int].state == ProposalState::Active,
        ensures
            final(self).wf(),
            ({
                let r = old(self).records@[i as int];
                let ctx = r.proposal.context_id;
                let c = campaign_for(campaigns@, ctx);
                let st = sweep_outcome(r, r.metadata.amount + old(self).used_balance_of(ctx) <= c.balance, c);
                &&& state_changed(old(self).records@, final(self).records@, i as int, st)
                &&& forall|d: ContextId|
                    (#[trigger] final(self).used_balance_of(d)) as int == old(self).used_balance_of(d) + if st
                        == ProposalState::Finalized && d == ctx {
                        r.metadata.amount as int
                    } else {
                        0
                    }
                &&& final(self).events@ == old(self).events@ + sweep_events(r, st, c)
            }),
            used_grows(old(self), final(self), campaigns@),
            final(self).vote_log == old(self).vote_log,
            final(self).time_limit == old(self).time_limit,
    {
        let ghost start = *self;
        let id = self.records[i].proposal.proposal_id;
        let ctx = self.records[i].proposal.context_id;
        let yes = self.records[i].yes;
        let no = self.records[i].no;
        let c = find_campaign(campaigns, ctx);
        proof {
            lemma_campaign_for_context(campaigns@, ctx);
        }
        match self.records[i].proposal.proposal_type {
            ProposalType::General => {
                let st = general_resolution(yes, no);
                self.set_state(i, st);
                match st {
                    ProposalState::Accepted => self.events.push(Event::ProposalApproved { proposal_id: id }),
                    ProposalState::Rejected => self.events.push(Event::ProposalRejected { proposal_id: id }),
                    ProposalState::Expired => self.events.push(Event::ProposalExpired { proposal_id: id }),
                    _ => {},
                }
            },
            ProposalType::Withdrawal => {
                if yes > threshold(c.contributors) {
                    self.events.push(Event::ProposalApproved { proposal_id: id });
                    let ghost mid = *self;
                    match self.unlock_balance(i, &c) {
                        Ok(()) => {
                            proof {
                                assert(self.events@ =~= start.events@ + sweep_events(
                                    start.records@[i as int],
                                    ProposalState::Finalized,
                                    c,
                                ));
                            }
                        },
                        Err(_) => {
                            self.set_state(i, ProposalState::Accepted);
                        },
                    }
                } else {
                    self.set_state(i, ProposalState::Rejected);
                    self.events.push(Event::ProposalRejected { proposal_id: id });
                }
            },
            ProposalType::Member => {},
            _ => {
                self.set_state(i, ProposalState::Expired);
                self.events.push(Event::ProposalExpired { proposal_id: id });
            },
        }
        proof {
            let r = start.records@[i as int];
            if r.proposal.proposal_type == ProposalType::Member {
                assert(self.records@ =~= start.records@);
                assert(self.events@ =~= start.events@ + seq![]);
            }
            if self.events@.len() == start.events@.len() + 1 {
                assert(self.events@ =~= start.events@ + seq![self.events@.last()]);
            }
        }
    }
    /// The sweep that the host runs once per block: every active proposal
    /// that expires at `block` is settled, in order of creation. `campaigns`
    /// is what the campaign collaborator reports.
    pub fn on_finalize(&mut self, block: BlockNumber, campaigns: &Vec<Campaign>)
        requires
            old(self).wf(),
        ensures
            final(self).wf(),
            swept(old(self), final(self), block, campaigns@),
    {
        let ghost start = *self;
        let mut i: usize = 0;
        assert(self.events@ =~= start.events@ + swept_events(&start, block, campaigns@, 0));
        while i < self.records.len()
            invariant
                self.wf(),
                0 <= i <= self.records@.len(),
                self.records@.len() == start.records@.len(),
                only_states_changed(start.records@, self.records@),
                forall|j: int| i <= j < start.records@.len() ==> #[trigger] self.records@[j] == start.records@[j],
                forall|j: int|
                    0 <= j < i ==> #[trigger] self.records@[j].state == swept_state(&start, block, campaigns@, j),
                forall|d: ContextId|
                    (#[trigger] self.used_balance_of(d)) as int == swept_used(&start, block, campaigns@, i as int, d),
                self.events@ == start.events@ + swept_events(&start, block, campaigns@, i as int),
                used_grows(&start, self, campaigns@),
                self.vote_log == start.vote_log,
                self.time_limit == start.time_limit,
            decreases self.records@.len() - i,
        {
            let ghost mid = *self;
            let ghost r = start.records@[i as int];
            if self.records[i].proposal.expiry == block && self.records[i].state
                == ProposalState::Active {
                self.settle(i, campaigns);
                proof {
                    lemma_used_grows_trans(&start, &mid, self, campaigns@);
                    assert(self.events@ =~= start.events@ + swept_events(&start, block, campaigns@, i + 1));
                }
            } else {
                proof {
                    assert(self.events@ =~= start.events@ + swept_events(&start, block, campaigns@, i + 1));
                }
            }
            proof {
                assert forall|d: ContextId|
                    (#[trigger] self.used_balance_of(d)) as int == swept_used(&start, block, campaigns@, i + 1, d) by {
                }
            }
            i = i + 1;
        }
    }
}

/// `new` is `old` after the sweep of `block`, with the campaigns as `cs`
/// reports them: proposals are handled in order of creation; only due ones
/// change state, each to its `sweep_outcome` with the funds released so far
/// in the sweep; the used balances and notifications follow.
pub open spec fn swept(old: &Signal, new: &Signal, block: BlockNumber, cs: Seq<Campaign>) -> bool {
    let n = old.records@.len() as int;
    &&& only_states_changed(old.records@, new.records@)
    &&& forall|j: int| 0 <= j < n ==> #[trigger] new.records@[j].state == swept_state(old, block, cs, j)
    &&& forall|d: ContextId| (#[trigger] new.used_balance_of(d)) as int == swept_used(old, block, cs, n, d)
    &&& new.events@ == old.events@ + swept_events(old, block, cs, n)
    &&& used_grows(old, new, cs)
    &&& new.vote_log == old.vote_log
    &&& new.time_limit == old.time_limit
}

} // verus!
