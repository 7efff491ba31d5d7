//! Read access to the registry, the vote ledger and the treasury figures.
use vstd::prelude::*;
use crate::types::{AccountId, Balance, BlockNumber, ContextId, Event, Proposal, ProposalId, ProposalMetadata, ProposalState};
use crate::registry::{IndexKey, Record, Signal, id_of, ids_of};
use crate::ledger::{used_in, used_of};

verus! {

/// The votes of `voter` in a vote log, in order: (proposal, decision).
pub open spec fn votes_of(log: Seq<(AccountId, ProposalId, bool)>, voter: AccountId) -> Seq<(ProposalId, bool)>
    decreases log.len(),
{
    if log.len() == 0 {
        Seq::empty()
    } else if log.last().0 == voter {
        votes_of(log.drop_last(), voter).push((log.last().1, log.last().2))
    } else {
        votes_of(log.drop_last(), voter)
    }
}

pub proof fn lemma_votes_of_len(log: Seq<(AccountId, ProposalId, bool)>, voter: AccountId)
    ensures
        votes_of(log, voter).len() <= log.len(),
    decreases log.len(),
{
    if log.len() > 0 {
        lemma_votes_of_len(log.drop_last(), voter);
    }
}

/// Element `k` of `s`, where there is one.
pub open spec fn nth(s: Seq<ProposalId>, k: u64) -> Option<ProposalId> {
    if k < s.len() {
        Some(s[k as int])
    } else {
        None
    }
}

impl Signal {
    /// The record of proposal `id`, if it exists.
    pub fn get_record(&self, id: ProposalId) -> (r: Option<&Record>)
        requires
            self.wf(),
        ensures
            match r {
                Some(x) => self.has(id) && *x == self.record(id),
                None => !self.has(id),
            },
    {
        match self.find(id) {
            Some(i) => Some(&self.records[i]),
            None => None,
        }
    }

    /// Number of proposals created so far.
    pub fn proposals_count(&self) -> (r: u64)
        ensures
            r == self.records@.len(),
    {
        self.records.len() as u64
    }

    /// Auxiliary counter of successful creations.
    pub fn nonce(&self) -> (r: u64)
        ensures
            r == self.records@.len(),
    {
        self.records.len() as u64
    }

    /// The proposal with global sequence number `i`.
    pub fn proposals_by_index(&self, i: u64) -> (r: Option<ProposalId>)
        ensures
            r == if i < self.records@.len() {
                Some(id_of(self.records@[i as int]))
            } else {
                None::<ProposalId>
            },
    {
        if (i as u128) < (self.records.len() as u128) {
            Some(self.records[i as usize].proposal.proposal_id)
        } else {
            None
        }
    }

    /// The global sequence number of proposal `id`.
    pub fn proposal_index(&self, id: ProposalId) -> (r: Option<u64>)
        requires
            self.wf(),
        ensures
            r == if self.has(id) {
                Some(self.position(id) as u64)
            } else {
                None::<u64>
            },
    {
        match self.find(id) {
            Some(i) => Some(i as u64),
            None => None,
        }
    }

    /// The proposals of context `c`, in order of creation.
    pub fn proposals_by_context(&self, c: ContextId) -> (r: Vec<ProposalId>)
        ensures
            r@ == ids_of(self.records@, IndexKey::Context(c)),
    {
        self.ids_in(IndexKey::Context(c))
    }

    /// Number of proposals of context `c`.
    pub fn proposals_by_campaign_count(&self, c: ContextId) -> (r: u64)
        ensures
            r == ids_of(self.records@, IndexKey::Context(c)).len(),
    {
        self.count_in(IndexKey::Context(c))
    }

    /// The proposal at position `k` among those of context `c`.
    pub fn proposals_by_campaign_by_index(&self, c: ContextId, k: u64) -> (r: Option<ProposalId>)
        ensures
            r == nth(ids_of(self.records@, IndexKey::Context(c)), k),
    {
        let v = self.ids_in(IndexKey::Context(c));
        if (k as u128) < (v.len() as u128) {
            Some(v[k as usize])
        } else {
            None
        }
    }

    /// Number of proposals of `owner`.
    pub fn proposals_by_owner_count(&self, owner: AccountId) -> (r: u64)
        ensures
            r == ids_of(self.records@, IndexKey::Owner(owner)).len(),
    {
        self.count_in(IndexKey::Owner(owner))
    }

    /// The proposal at position `k` among those of `owner`.
    pub fn proposals_by_owner(&self, owner: AccountId, k: u64) -> (r: Option<ProposalId>)
        ensures
            r == nth(ids_of(self.records@, IndexKey::Owner(owner)), k),
    {
        let v = self.ids_in(IndexKey::Owner(owner));
        if (k as u128) < (v.len() as u128) {
            Some(v[k as usize])
        } else {
            None
        }
    }

    /// The proposals that expire at `block`, in order of creation.
    pub fn proposals_by_block(&self, block: BlockNumber) -> (r: Vec<ProposalId>)
        ensures
            r@ == ids_of(self.records@, IndexKey::Block(block)),
    {
        self.ids_in(IndexKey::Block(block))
    }

    /// The description of proposal `id`.
    pub fn proposals(&self, id: ProposalId) -> (r: Option<Proposal>)
        requires
            self.wf(),
        ensures
            r == if self.has(id) {
                Some(self.record(id).proposal)
            } else {
                None::<Proposal>
            },
    {
        match self.get_record(id) {
            Some(x) => Some(x.proposal),
            None => None,
        }
    }

    /// The metadata of proposal `id`.
    pub fn metadata(&self, id: ProposalId) -> (r: Option<&ProposalMetadata>)
        requires
            self.wf(),
        ensures
            match r {
                Some(m) => self.has(id) && *m == self.record(id).metadata,
                None => !self.has(id),
            },
    {
        match self.get_record(id) {
            Some(x) => Some(&x.metadata),
            None => None,
        }
    }

    /// The owner of proposal `id`.
    pub fn owners(&self, id: ProposalId) -> (r: Option<AccountId>)
        requires
            self.wf(),
        ensures
            r == if self.has(id) {
                Some(self.record(id).owner)
            } else {
                None::<AccountId>
            },
    {
        match self.get_record(id) {
            Some(x) => Some(x.owner),
            None => None,
        }
    }

    /// The state of proposal `id`; `Init` for an unknown id.
    pub fn proposal_states(&self, id: ProposalId) -> (r: ProposalState)
        requires
            self.wf(),
        ensures
            r == if self.has(id) {
                self.record(id).state
            } else {
                ProposalState::Init
            },
    {
        match self.get_record(id) {
            Some(x) => x.state,
            None => ProposalState::Init,
        }
    }

    /// The (yes, no) tally of proposal `id`; (0, 0) for an unknown id.
    pub fn proposal_simple_votes(&self, id: ProposalId) -> (r: (u64, u64))
        requires
            self.wf(),
        ensures
            r == if self.has(id) {
                (self.record(id).yes, self.record(id).no)
            } else {
                (0u64, 0u64)
            },
    {
        match self.get_record(id) {
            Some(x) => (x.yes, x.no),
            None => (0, 0),
        }
    }

    /// Number of approvals of proposal `id`.
    pub fn proposal_approvers(&self, id: ProposalId) -> (r: u64)
        requires
            self.wf(),
        ensures
            r == if self.has(id) {
                self.record(id).approvers
            } else {
                0u64
            },
    {
        match self.get_record(id) {
            Some(x) => x.approvers,
            None => 0,
        }
    }

    /// Number of denials of proposal `id`.
    pub fn proposal_deniers(&self, id: ProposalId) -> (r: u64)
        requires
            self.wf(),
        ensures
            r == if self.has(id) {
                self.record(id).deniers
            } else {
                0u64
            },
    {
        match self.get_record(id) {
            Some(x) => x.deniers,
            None => 0,
        }
    }

    /// Number of voters of proposal `id`.
    pub fn proposal_votes(&self, id: ProposalId) -> (r: u64)
        requires
            self.wf(),
        ensures
            r as int == if self.has(id) {
                self.record(id).voters@.len() as int
            } else {
                0int
            },
    {
        match self.get_record(id) {
            Some(x) => x.voters.len() as u64,
            None => 0,
        }
    }

    /// The voters of proposal `id`, in increasing order.
    pub fn proposal_voters(&self, id: ProposalId) -> (r: Option<&Vec<AccountId>>)
        requires
            self.wf(),
        ensures
            match r {
                Some(v) => self.has(id) && v@ == self.record(id).voters@,
                None => !self.has(id),
            },
    {
        match self.get_record(id) {
            Some(x) => Some(&x.voters),
            None => None,
        }
    }

    /// The votes on proposal `id`, in the order they were cast.
    pub fn proposal_votes_by_voters(&self, id: ProposalId) -> (r: Option<&Vec<(AccountId, bool)>>)
        requires
            self.wf(),
        ensures
            match r {
                Some(v) => self.has(id) && v@ == self.record(id).votes@,
                None => !self.has(id),
            },
    {
        match self.get_record(id) {
            Some(x) => Some(&x.votes),
            None => None,
        }
    }

    /// Whether `voter` has voted on proposal `id`.
    pub fn has_voted(&self, voter: AccountId, id: ProposalId) -> (r: bool)
        requires
            self.wf(),
        ensures
            r == self.voted(voter, id),
    {
        match self.get_record(id) {
            Some(x) => crate::voting::contains_account(&x.voters, voter),
            None => false,
        }
    }

    /// The votes of `voter`, in the order they were cast.
    pub fn proposals_by_voter(&self, voter: AccountId) -> (r: Vec<(ProposalId, bool)>)
        ensures
            r@ == votes_of(self.vote_log@, voter),
    {
        let mut out: Vec<(ProposalId, bool)> = Vec::new();
        let mut i: usize = 0;
        while i < self.vote_log.len()
            invariant
                0 <= i <= self.vote_log@.len(),
                out@ == votes_of(self.vote_log@.take(i as int), voter),
            decreases self.vote_log@.len() - i,
        {
            proof {
                let t = self.vote_log@.take(i + 1);
                assert(t.drop_last() =~= self.vote_log@.take(i as int));
                assert(t.last() == self.vote_log@[i as int]);
            }
            let e = self.vote_log[i];
            if e.0 == voter {
                out.push((e.1, e.2));
            }
            i = i + 1;
        }
        assert(self.vote_log@.take(self.vote_log@.len() as int) =~= self.vote_log@);
        out
    }

    /// Number of votes cast by `voter`.
    pub fn proposals_by_voter_count(&self, voter: AccountId) -> (r: u64)
        ensures
            r == votes_of(self.vote_log@, voter).len(),
    {
        let v = self.proposals_by_voter(voter);
        proof {
            lemma_votes_of_len(self.vote_log@, voter);
        }
        v.len() as u64
    }

    /// Funds released so far for context `c`.
    pub fn used_balance(&self, c: ContextId) -> (r: Balance)
        ensures
            r == used_in(self.used@, c),
    {
        used_of(&self.used, c)
    }

    /// The notifications emitted so far, in order.
    pub fn events(&self) -> (r: &Vec<Event>)
        ensures
            r@ == self.events@,
    {
        &self.events
    }

    /// The longest lifetime of a proposal, in blocks.
    pub fn proposal_time_limit(&self) -> (r: BlockNumber)
        ensures
            r == self.time_limit,
    {
        self.time_limit
    }
}

} // verus!
