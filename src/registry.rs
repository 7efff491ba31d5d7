use vstd::prelude::*;
use crate::types::{
    AccountId, Balance, BlockNumber, ContextId, Event, MAX_PROPOSALS_PER_BLOCK,
    MAX_PROPOSAL_DURATION, Proposal, ProposalId, ProposalMetadata, ProposalState, ProposalType,
    SignalError, VotingType,
};
use crate::tally::sorted;
use crate::ledger::{used_in, used_of};

verus! {

/// Everything stored for one proposal: its description, metadata, owner and
/// state, its place in the per-context and per-owner sequences, and its votes.
pub struct Record {
    pub proposal: Proposal,
    pub metadata: ProposalMetadata,
    pub owner: AccountId,
    pub state: ProposalState,
    /// Position of the proposal among those of its context.
    pub context_seq: u64,
    /// Position of the proposal among those of its owner.
    pub owner_seq: u64,
    pub yes: u64,
    pub no: u64,
    pub approvers: u64,
    pub deniers: u64,
    /// The voters, in increasing order.
    pub voters: Vec<AccountId>,
    /// The votes, in the order they were cast.
    pub votes: Vec<(AccountId, bool)>,
}

/// A secondary index of the registry.
#[derive(Clone, Copy, PartialEq, Eq, Structural, Debug)]
pub enum IndexKey {
    /// Proposals of one context.
    Context(ContextId),
    /// Proposals of one owner.
    Owner(AccountId),
    /// Proposals that expire at one block.
    Block(BlockNumber),
}

pub open spec fn selects(k: IndexKey, r: Record) -> bool {
    match k {
        IndexKey::Context(c) => r.proposal.context_id == c,
        IndexKey::Owner(o) => r.owner == o,
        IndexKey::Block(b) => r.proposal.expiry == b,
    }
}

/// The ids that index `k` lists, in order of creation.
pub open spec fn ids_of(s: Seq<Record>, k: IndexKey) -> Seq<ProposalId>
    decreases s.len(),
{
    if s.len() == 0 {
        Seq::empty()
    } else if selects(k, s.last()) {
        ids_of(s.drop_last(), k).push(s.last().proposal.proposal_id)
    } else {
        ids_of(s.drop_last(), k)
    }
}

pub open spec fn id_of(r: Record) -> ProposalId {
    r.proposal.proposal_id
}

pub open spec fn contains_id(s: Seq<Record>, id: ProposalId) -> bool {
    exists|i: int| 0 <= i < s.len() && #[trigger] id_of(s[i]) == id
}

/// The distinct voters of a vote history.
pub open spec fn voters_of(votes: Seq<(AccountId, bool)>) -> Set<AccountId> {
    Set::new(|a: AccountId| exists|k: int| 0 <= k < votes.len() && votes[k].0 == a)
}

/// No voter appears twice in a vote history.
pub open spec fn distinct_voters(votes: Seq<(AccountId, bool)>) -> bool {
    forall|i: int, j: int| 0 <= i < j < votes.len() ==> votes[i].0 != votes[j].0
}

/// The tally of a record agrees with its vote history and voter set.
pub open spec fn record_wf(r: Record) -> bool {
    &&& (r.proposal.proposal_type == ProposalType::General || r.proposal.proposal_type
        == ProposalType::Withdrawal)
    &&& r.proposal.voting_type == VotingType::Simple
    &&& r.yes + r.no == r.votes@.len()
    &&& r.approvers == r.yes
    &&& r.deniers == r.no
    &&& sorted(r.voters@)
    &&& distinct_voters(r.votes@)
    &&& r.voters@.len() == r.votes@.len()
    &&& forall|a: AccountId| r.voters@.contains(a) <==> voters_of(r.votes@).contains(a)
}

/// The proposal registry and vote ledger.
pub struct Signal {
    /// All proposals, in order of creation: a proposal's position is its
    /// global sequence number.
    pub records: Vec<Record>,
    /// Funds released so far, per context.
    pub used: Vec<(ContextId, Balance)>,
    /// Every successful vote, in order: (voter, proposal, decision).
    pub vote_log: Vec<(AccountId, ProposalId, bool)>,
    /// Notifications, in order of emission.
    pub events: Vec<Event>,
    /// The longest lifetime of a proposal, in blocks.
    pub time_limit: BlockNumber,
}

impl Signal {
    /// The registry's invariant: ids are unique, every record is consistent,
    /// no block has more than the cap of proposals expiring in it, and each
    /// record's per-context and per-owner positions are the number
    /// of earlier proposals of the same context and owner.
    pub open spec fn wf(&self) -> bool {
        let s = self.records@;
        &&& forall|i: int, j: int| 0 <= i < j < s.len() ==> id_of(s[i]) != id_of(s[j])
        &&& forall|i: int| 0 <= i < s.len() ==> #[trigger] record_wf(s[i])
        &&& forall|b: BlockNumber| #[trigger] ids_of(s, IndexKey::Block(b)).len() <= MAX_PROPOSALS_PER_BLOCK
        &&& forall|i: int|
            0 <= i < s.len() ==> (#[trigger] s[i]).context_seq == ids_of(
                s.take(i),
                IndexKey::Context(s[i].proposal.context_id),
            ).len()
        &&& forall|i: int|
            0 <= i < s.len() ==> (#[trigger] s[i]).owner_seq == ids_of(
                s.take(i),
                IndexKey::Owner(s[i].owner),
            ).len()
    }

    /// The position of proposal `id` in the registry.
    pub open spec fn position(&self, id: ProposalId) -> int {
        choose|i: int| 0 <= i < self.records@.len() && id_of(self.records@[i]) == id
    }

    pub open spec fn has(&self, id: ProposalId) -> bool {
        contains_id(self.records@, id)
    }

    /// The record of proposal `id`; meaningful where `has(id)`.
    pub open spec fn record(&self, id: ProposalId) -> Record {
        self.records@[self.position(id)]
    }

    pub open spec fn voted(&self, voter: AccountId, id: ProposalId) -> bool {
        self.has(id) && self.record(id).voters@.contains(voter)
    }

    pub open spec fn used_balance_of(&self, c: ContextId) -> Balance {
        used_in(self.used@, c)
    }

    /// An empty registry whose proposals may live `time_limit` blocks.
    pub fn new(time_limit: BlockNumber) -> (r: Signal)
        ensures
            r.wf(),
            r.records@.len() == 0,
            r.used@.len() == 0,
            r.vote_log@.len() == 0,
            r.events@.len() == 0,
            r.time_limit == time_limit,
    {
        Signal {
            records: Vec::new(),
            used: Vec::new(),
            vote_log: Vec::new(),
            events: Vec::new(),
            time_limit,
        }
    }

    /// An empty registry with the default time limit.
    pub fn with_default_limit() -> (r: Signal)
        ensures
            r.wf(),
            r.records@.len() == 0,
            r.used@.len() == 0,
            r.vote_log@.len() == 0,
            r.events@.len() == 0,
            r.time_limit == MAX_PROPOSAL_DURATION,
    {
        Signal::new(MAX_PROPOSAL_DURATION)
    }

    /// The position of proposal `id`, if it exists.
    pub fn find(&self, id: ProposalId) -> (r: Option<usize>)
        requires
            self.wf(),
        ensures
            match r {
                Some(i) => i < self.records@.len() && id_of(self.records@[i as int]) == id
                    && self.has(id) && self.position(id) == i,
                None => !self.has(id),
            },
    {
        let mut i: usize = 0;
        while i < self.records.len()
            invariant
                0 <= i <= self.records@.len(),
                self.wf(),
                forall|j: int| 0 <= j < i ==> id_of(self.records@[j]) != id,
            decreases self.records@.len() - i,
        {
            if self.records[i].proposal.proposal_id == id {
                assert(id_of(self.records@[i as int]) == id);
                assert(self.has(id));
                proof {
                    let p = self.position(id);
                    assert(contains_id(self.records@, id));
                    assert(0 <= p < self.records@.len() && id_of(self.records@[p]) == id);
                    assert(p == i) by {
                        if p < i {
                            assert(id_of(self.records@[p]) != id_of(self.records@[i as int]));
                        } else if p > i {
                            assert(id_of(self.records@[i as int]) != id_of(self.records@[p]));
                        }
                    }
                }
                return Some(i);
            }
            i = i + 1;
        }
        None
    }

    /// The ids listed by index `k`, in order of creation.
    pub fn ids_in(&self, k: IndexKey) -> (r: Vec<ProposalId>)
        ensures
            r@ == ids_of(self.records@, k),
    {
        let mut out: Vec<ProposalId> = Vec::new();
        let mut i: usize = 0;
        while i < self.records.len()
            invariant
                0 <= i <= self.records@.len(),
                out@ == ids_of(self.records@.take(i as int), k),
            decreases self.records@.len() - i,
        {
            proof {
                let t = self.records@.take(i + 1);
                assert(t.drop_last() =~= self.records@.take(i as int));
                assert(t.last() == self.records@[i as int]);
            }
            let r = &self.records[i];
            let hit = match k {
                IndexKey::Context(c) => r.proposal.context_id == c,
                IndexKey::Owner(o) => r.owner == o,
                IndexKey::Block(b) => r.proposal.expiry == b,
            };
            if hit {
                out.push(r.proposal.proposal_id);
            }
            i = i + 1;
        }
        assert(self.records@.take(self.records@.len() as int) =~= self.records@);
        out
    }

    /// How many ids index `k` lists.
    pub fn count_in(&self, k: IndexKey) -> (r: u64)
        ensures
            r == ids_of(self.records@, k).len(),
    {
        let v = self.ids_in(k);
        proof {
            lemma_ids_of_len(self.records@, k);
        }
        v.len() as u64
    }
}

/// The refusal, if any, of the checks that every creation makes after its
/// access checks: room in the expiry block, a fresh id, counters that can
/// still grow.
pub open spec fn admission_error(s: &Signal, p: Proposal, owner: AccountId) -> Option<SignalError> {
    if ids_of(s.records@, IndexKey::Block(p.expiry)).len() >= MAX_PROPOSALS_PER_BLOCK {
        Some(SignalError::TooManyProposals)
    } else if s.has(p.proposal_id) {
        Some(SignalError::HashCollision)
    } else if s.records@.len() >= u64::MAX || ids_of(s.records@, IndexKey::Context(p.context_id)).len()
        >= u64::MAX || ids_of(s.records@, IndexKey::Owner(owner)).len() >= u64::MAX {
        Some(SignalError::OverflowError)
    } else {
        None
    }
}

/// `expiry` lies outside the window that opens after `current_block` and
/// spans `time_limit` blocks.
pub open spec fn out_of_window(current_block: BlockNumber, expiry: BlockNumber, time_limit: BlockNumber) -> bool {
    expiry <= current_block || expiry > current_block + time_limit
}

/// The refusal, if any, of a general proposal.
pub open spec fn general_error(
    s: &Signal,
    p: Proposal,
    owner: AccountId,
    current_block: BlockNumber,
    body_active: bool,
    member_active: bool,
) -> Option<SignalError> {
    if !body_active {
        Some(SignalError::DAOInactive)
    } else if !member_active {
        Some(SignalError::AuthorizationError)
    } else if out_of_window(current_block, p.expiry, s.time_limit) {
        Some(SignalError::OutOfBounds)
    } else {
        admission_error(s, p, owner)
    }
}

/// The refusal, if any, of a withdrawal proposal of `amount` from a campaign
/// whose total balance is `campaign_balance`.
pub open spec fn withdrawal_error(
    s: &Signal,
    p: Proposal,
    owner: AccountId,
    current_block: BlockNumber,
    body_active: bool,
    member_active: bool,
    campaign_success: bool,
    campaign_balance: Balance,
    amount: Balance,
) -> Option<SignalError> {
    if !body_active {
        Some(SignalError::DAOInactive)
    } else if !member_active {
        Some(SignalError::AuthorizationError)
    } else if out_of_window(current_block, p.expiry, s.time_limit) {
        Some(SignalError::OutOfBounds)
    } else if !campaign_success {
        Some(SignalError::CampaignFailed)
    } else if amount + s.used_balance_of(p.context_id) > campaign_balance {
        Some(SignalError::BalanceInsufficient)
    } else {
        admission_error(s, p, owner)
    }
}

/// `new` is `old` with proposal `p` appended, active, without votes, and
/// announced by a creation event.
pub open spec fn created(
    old: &Signal,
    new: &Signal,
    p: Proposal,
    owner: AccountId,
    title: Seq<u8>,
    cid: Seq<u8>,
    amount: Balance,
) -> bool {
    let n = old.records@.len();
    let r = new.records@[n as int];
    &&& new.records@.len() == n + 1
    &&& new.records@.subrange(0, n as int) == old.records@
    &&& r.proposal == p
    &&& r.metadata.title@ == title
    &&& r.metadata.cid@ == cid
    &&& r.metadata.amount == amount
    &&& r.owner == owner
    &&& r.state == ProposalState::Active
    &&& r.context_seq == ids_of(old.records@, IndexKey::Context(p.context_id)).len()
    &&& r.owner_seq == ids_of(old.records@, IndexKey::Owner(owner)).len()
    &&& r.yes == 0 && r.no == 0 && r.approvers == 0 && r.deniers == 0
    &&& r.voters@.len() == 0 && r.votes@.len() == 0
    &&& new.used == old.used
    &&& new.vote_log == old.vote_log
    &&& new.time_limit == old.time_limit
    &&& new.events@ == old.events@.push(
        Event::ProposalCreated {
            owner,
            context_id: p.context_id,
            proposal_id: p.proposal_id,
            amount,
            expiry: p.expiry,
        },
    )
}

pub open spec fn result_of(e: Option<SignalError>, id: ProposalId) -> Result<ProposalId, SignalError> {
    match e {
        Some(x) => Err(x),
        None => Ok(id),
    }
}

impl Signal {
    /// Appends `p` to the registry and to all its indices, once the shared
    /// admission checks pass.
    fn register(
        &mut self,
        p: Proposal,
        owner: AccountId,
        title: Vec<u8>,
        cid: Vec<u8>,
        amount: Balance,
    ) -> (r: Result<ProposalId, SignalError>)
        requires
            old(self).wf(),
            p.proposal_type == ProposalType::General || p.proposal_type == ProposalType::Withdrawal,
            p.voting_type == VotingType::Simple,
        ensures
            final(self).wf(),
            r == result_of(admission_error(old(self), p, owner), p.proposal_id),
            r is Err ==> *final(self) == *old(self),
            r is Ok ==> created(old(self), final(self), p, owner, title@, cid@, amount),
    {
        let in_block = self.count_in(IndexKey::Block(p.expiry));
        if in_block >= MAX_PROPOSALS_PER_BLOCK as u64 {
            return Err(SignalError::TooManyProposals);
        }
        if self.find(p.proposal_id).is_some() {
            return Err(SignalError::HashCollision);
        }
        let total = self.records.len() as u64;
        let by_context = self.count_in(IndexKey::Context(p.context_id));
        let by_owner = self.count_in(IndexKey::Owner(owner));
        if total.checked_add(1).is_none() || by_context.checked_add(1).is_none()
            || by_owner.checked_add(1).is_none() {
            return Err(SignalError::OverflowError);
        }
        let ghost before = self.records@;
        let rec = Record {
            proposal: p,
            metadata: ProposalMetadata { title, cid, amount },
            owner,
            state: ProposalState::Active,
            context_seq: by_context,
            owner_seq: by_owner,
            yes: 0,
            no: 0,
            approvers: 0,
            deniers: 0,
            voters: Vec::new(),
            votes: Vec::new(),
        };
        self.records.push(rec);
        self.events.push(
            Event::ProposalCreated {
                owner,
                context_id: p.context_id,
                proposal_id: p.proposal_id,
                amount,
                expiry: p.expiry,
            },
        );
        proof {
            let s = self.records@;
            let n = before.len() as int;
            assert(s.subrange(0, n) =~= before);
            assert forall|i: int| 0 <= i <= n implies s.take(i) =~= before.take(i) by {}
            assert(s.take(n) =~= before);
            assert forall|i: int, j: int| 0 <= i < j < s.len() implies id_of(s[i]) != id_of(s[j]) by {
                if j == n {
                    assert(!contains_id(before, p.proposal_id));
                    assert(s[i] == before[i]);
                }
            }
            assert(record_wf(s[n]));
            assert(s =~= before.push(s[n]));
            assert forall|b: BlockNumber| #[trigger] ids_of(s, IndexKey::Block(b)).len()
                <= MAX_PROPOSALS_PER_BLOCK by {
                lemma_ids_of_push(before, s[n], IndexKey::Block(b));
            }
            assert forall|i: int| 0 <= i < s.len() implies #[trigger] record_wf(s[i]) by {
                if i < n {
                    assert(s[i] == before[i]);
                }
            }
            assert forall|i: int| 0 <= i < s.len() implies (#[trigger] s[i]).context_seq == ids_of(
                s.take(i),
                IndexKey::Context(s[i].proposal.context_id),
            ).len() && s[i].owner_seq == ids_of(s.take(i), IndexKey::Owner(s[i].owner)).len() by {
                if i < n {
                    assert(s[i] == before[i]);
                    assert(s.take(i) =~= before.take(i));
                }
            }
        }
        Ok(p.proposal_id)
    }

    /// Creates a general proposal of `owner` in context `context_id`, open
    /// until block `expiry`, with the id `fresh_id` drawn by the caller.
    /// `body_active` and `member_active` are what the membership collaborator
    /// reports of the body and of `owner`.
    pub fn general_proposal(
        &mut self,
        owner: AccountId,
        context_id: ContextId,
        title: Vec<u8>,
        cid: Vec<u8>,
        start: BlockNumber,
        expiry: BlockNumber,
        current_block: BlockNumber,
        body_active: bool,
        member_active: bool,
        fresh_id: ProposalId,
    ) -> (r: Result<ProposalId, SignalError>)
        requires
            old(self).wf(),
        ensures
            final(self).wf(),
            r == result_of(
                general_error(
                    old(self),
                    general_description(fresh_id, context_id, start, expiry),
                    owner,
                    current_block,
                    body_active,
                    member_active,
                ),
                fresh_id,
            ),
            r is Err ==> *final(self) == *old(self),
            r is Ok ==> created(
                old(self),
                final(self),
                general_description(fresh_id, context_id, start, expiry),
                owner,
                title@,
                cid@,
                0,
            ),
    {
        if !body_active {
            return Err(SignalError::DAOInactive);
        }
        if !member_active {
            return Err(SignalError::AuthorizationError);
        }
        if expiry <= current_block || (expiry as u128) > (current_block as u128) + (
        self.time_limit as u128) {
            return Err(SignalError::OutOfBounds);
        }
        let p = Proposal {
            proposal_id: fresh_id,
            context_id,
            proposal_type: ProposalType::General,
            voting_type: VotingType::Simple,
            start,
            expiry,
        };
        self.register(p, owner, title, cid, 0)
    }

    /// Creates a withdrawal proposal of `amount` from the treasury of
    /// campaign `context_id`. Besides the checks of a general proposal, the
    /// campaign must have succeeded (`campaign_success`) and `amount` must not
    /// exceed what is left of `campaign_balance` after earlier releases.
    pub fn withdraw_proposal(
        &mut self,
        owner: AccountId,
        context_id: ContextId,
        title: Vec<u8>,
        cid: Vec<u8>,
        amount: Balance,
        start: BlockNumber,
        expiry: BlockNumber,
        current_block: BlockNumber,
        body_active: bool,
        member_active: bool,
        campaign_success: bool,
        campaign_balance: Balance,
        fresh_id: ProposalId,
    ) -> (r: Result<ProposalId, SignalError>)
        requires
            old(self).wf(),
        ensures
            final(self).wf(),
            r == result_of(
                withdrawal_error(
                    old(self),
                    withdrawal_description(fresh_id, context_id, start, expiry),
                    owner,
                    current_block,
                    body_active,
                    member_active,
                    campaign_success,
                    campaign_balance,
                    amount,
                ),
                fresh_id,
            ),
            r is Err ==> *final(self) == *old(self),
            r is Ok ==> created(
                old(self),
                final(self),
                withdrawal_description(fresh_id, context_id, start, expiry),
                owner,
                title@,
                cid@,
                amount,
            ),
    {
        if !body_active {
            return Err(SignalError::DAOInactive);
        }
        if !member_active {
            return Err(SignalError::AuthorizationError);
        }
        if expiry <= current_block || (expiry as u128) > (current_block as u128) + (
        self.time_limit as u128) {
            return Err(SignalError::OutOfBounds);
        }
        if !campaign_success {
            return Err(SignalError::CampaignFailed);
        }
        let used = used_of(&self.used, context_id);
        if campaign_balance < used || campaign_balance - used < amount {
            return Err(SignalError::BalanceInsufficient);
        }
        let p = Proposal {
            proposal_id: fresh_id,
            context_id,
            proposal_type: ProposalType::Withdrawal,
            voting_type: VotingType::Simple,
            start,
            expiry,
        };
        self.register(p, owner, title, cid, amount)
    }
}

pub open spec fn general_description(
    id: ProposalId,
    context_id: ContextId,
    start: BlockNumber,
    expiry: BlockNumber,
) -> Proposal {
    Proposal {
        proposal_id: id,
        context_id,
        proposal_type: ProposalType::General,
        voting_type: VotingType::Simple,
        start,
        expiry,
    }
}

pub open spec fn withdrawal_description(
    id: ProposalId,
    context_id: ContextId,
    start: BlockNumber,
    expiry: BlockNumber,
) -> Proposal {
    Proposal {
        proposal_id: id,
        context_id,
        proposal_type: ProposalType::Withdrawal,
        voting_type: VotingType::Simple,
        start,
        expiry,
    }
}

/// Whatever index `k` lists before a proposal `r` is appended, it lists
/// afterwards, followed by the new id where `r` belongs to it.
pub proof fn lemma_ids_of_push(s: Seq<Record>, r: Record, k: IndexKey)
    ensures
        ids_of(s.push(r), k) == if selects(k, r) {
            ids_of(s, k).push(id_of(r))
        } else {
            ids_of(s, k)
        },
{
    assert(s.push(r).drop_last() =~= s);
}

/// An index never lists more ids than there are proposals.
pub proof fn lemma_ids_of_len(s: Seq<Record>, k: IndexKey)
    ensures
        ids_of(s, k).len() <= s.len(),
    decreases s.len(),
{
    if s.len() > 0 {
        lemma_ids_of_len(s.drop_last(), k);
    }
}


/// `a` and `b` hold the same proposals with the same owners and positions,
/// in the same order: every index lists the same ids in both.
pub open spec fn same_index(a: Seq<Record>, b: Seq<Record>) -> bool {
    &&& a.len() == b.len()
    &&& forall|j: int|
        0 <= j < a.len() ==> (#[trigger] a[j]).proposal == b[j].proposal && a[j].owner == b[j].owner
            && a[j].context_seq == b[j].context_seq && a[j].owner_seq == b[j].owner_seq
}

pub proof fn lemma_ids_of_frame(a: Seq<Record>, b: Seq<Record>, k: IndexKey)
    requires
        same_index(a, b),
    ensures
        ids_of(a, k) == ids_of(b, k),
    decreases a.len(),
{
    if a.len() > 0 {
        let n = a.len() - 1;
        assert(a[n].proposal == b[n].proposal);
        assert(same_index(a.drop_last(), b.drop_last())) by {
            assert forall|j: int| 0 <= j < a.drop_last().len() implies (#[trigger] a.drop_last()[j]).proposal
                == b.drop_last()[j].proposal && a.drop_last()[j].owner == b.drop_last()[j].owner
                && a.drop_last()[j].context_seq == b.drop_last()[j].context_seq
                && a.drop_last()[j].owner_seq == b.drop_last()[j].owner_seq by {
                assert(a[j].proposal == b[j].proposal);
            }
        }
        lemma_ids_of_frame(a.drop_last(), b.drop_last(), k);
    }
}

/// A registry whose records keep their identity and positions, and stay
/// consistent each, keeps its invariant.
pub proof fn lemma_wf_frame(old: &Signal, new: &Signal)
    requires
        old.wf(),
        same_index(old.records@, new.records@),
        forall|j: int| 0 <= j < new.records@.len() ==> #[trigger] record_wf(new.records@[j]),
    ensures
        new.wf(),
{
    let a = old.records@;
    let b = new.records@;
    assert forall|x: BlockNumber| #[trigger] ids_of(b, IndexKey::Block(x)).len() <= MAX_PROPOSALS_PER_BLOCK by {
        lemma_ids_of_frame(a, b, IndexKey::Block(x));
    }
    assert forall|i: int, j: int| 0 <= i < j < b.len() implies id_of(b[i]) != id_of(b[j]) by {
        assert(a[i].proposal == b[i].proposal);
        assert(a[j].proposal == b[j].proposal);
    }
    assert forall|i: int| 0 <= i < b.len() implies (#[trigger] b[i]).context_seq == ids_of(
        b.take(i),
        IndexKey::Context(b[i].proposal.context_id),
    ).len() && b[i].owner_seq == ids_of(b.take(i), IndexKey::Owner(b[i].owner)).len() by {
        assert(a[i].proposal == b[i].proposal);
        assert(same_index(a.take(i), b.take(i))) by {
            assert forall|j: int| 0 <= j < a.take(i).len() implies (#[trigger] a.take(i)[j]).proposal
                == b.take(i)[j].proposal && a.take(i)[j].owner == b.take(i)[j].owner
                && a.take(i)[j].context_seq == b.take(i)[j].context_seq
                && a.take(i)[j].owner_seq == b.take(i)[j].owner_seq by {
                assert(a[j].proposal == b[j].proposal);
            }
        }
        lemma_ids_of_frame(a.take(i), b.take(i), IndexKey::Context(b[i].proposal.context_id));
        lemma_ids_of_frame(a.take(i), b.take(i), IndexKey::Owner(b[i].owner));
    }
}

/// Proposals keep their positions while the registry keeps its index.
pub proof fn lemma_positions_kept(old: &Signal, new: &Signal)
    requires
        old.wf(),
        new.wf(),
        same_index(old.records@, new.records@),
    ensures
        forall|p: ProposalId| old.has(p) ==> #[trigger] new.has(p) && new.position(p) == old.position(p),
{
    assert forall|p: ProposalId| old.has(p) implies #[trigger] new.has(p) && new.position(p) == old.position(p) by {
        let q = old.position(p);
        assert(old.records@[q].proposal == new.records@[q].proposal);
        assert(id_of(new.records@[q]) == p);
        let q2 = new.position(p);
        assert(id_of(new.records@[q2]) == p);
        if q2 < q {
            assert(id_of(new.records@[q2]) != id_of(new.records@[q]));
        } else if q2 > q {
            assert(id_of(new.records@[q]) != id_of(new.records@[q2]));
        }
    }
}

} // verus!
