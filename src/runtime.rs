//! The runtime around the engine: what it asks of the membership and
//! campaign collaborators, the randomness source and the clock.
use vstd::prelude::*;
use crate::types::{AccountId, Balance, BlockNumber, Campaign, ContextId, ProposalId, ProposalState, SignalError};
use crate::registry::{
    Signal, created, general_description, general_error, result_of, withdrawal_description,
    withdrawal_error,
};
use crate::finalize::{only_states_changed, swept};
use crate::ledger::{campaign_for, lemma_campaign_for_context};
use crate::voting::{vote_applied, vote_error, vote_result};

verus! {

/// Collaborators that a runtime provides to the engine. Nothing is assumed
/// of their answers: every operation below is correct whatever they report.
pub trait Config {
    /// The current block height.
    fn block_number(&self) -> BlockNumber;

    /// Whether the body `context_id` is active.
    fn body_active(&self, context_id: ContextId) -> bool;

    /// Whether `account` is an active member of body `context_id`.
    fn member_active(&self, context_id: ContextId, account: AccountId) -> bool;

    /// Whether campaign `context_id` reached its goal.
    fn campaign_succeeded(&self, context_id: ContextId) -> bool;

    /// What is known of campaign `context_id`.
    fn campaign(&self, context_id: ContextId) -> Campaign;

    /// A fresh random identifier.
    fn random(&mut self) -> ProposalId;
}

impl Signal {
    /// Creates a general proposal, asking `cfg` for the block height, the
    /// state of the body and of `owner`, and a fresh id.
    pub fn create_general<C: Config>(
        &mut self,
        cfg: &mut C,
        owner: AccountId,
        context_id: ContextId,
        title: Vec<u8>,
        cid: Vec<u8>,
        start: BlockNumber,
        expiry: BlockNumber,
    ) -> (r: Result<ProposalId, SignalError>)
        requires
            old(self).wf(),
        ensures
            final(self).wf(),
            r is Err ==> *final(self) == *old(self),
            r is Ok ==> !old(self).has(r->Ok_0) && final(self).has(r->Ok_0)
                && final(self).records@.len() == old(self).records@.len() + 1,
            exists|now: BlockNumber, body: bool, member: bool, id: ProposalId|
                #[trigger] general_created(
                    old(self),
                    final(self),
                    r,
                    owner,
                    context_id,
                    title@,
                    cid@,
                    start,
                    expiry,
                    now,
                    body,
                    member,
                    id,
                ),
    {
        let now = cfg.block_number();
        let body = cfg.body_active(context_id);
        let member = cfg.member_active(context_id, owner);
        let id = cfg.random();
        let ghost t = title@;
        let ghost d = cid@;
        let ghost before = *self;
        let r = self.general_proposal(owner, context_id, title, cid, start, expiry, now, body, member, id);
        proof {
            if r is Ok {
                crate::laws::lemma_creation_indexed(
                    &before,
                    self,
                    general_description(id, context_id, start, expiry),
                    owner,
                    t,
                    d,
                    0,
                );
            }
            assert(general_created(&before, self, r, owner, context_id, t, d, start, expiry, now, body, member, id));
        }
        r
    }

    /// Creates a withdrawal proposal of `amount`, asking `cfg` for the block
    /// height, the state of the body, of `owner` and of the campaign, and a
    /// fresh id.
    pub fn create_withdrawal<C: Config>(
        &mut self,
        cfg: &mut C,
        owner: AccountId,
        context_id: ContextId,
        title: Vec<u8>,
        cid: Vec<u8>,
        amount: Balance,
        start: BlockNumber,
        expiry: BlockNumber,
    ) -> (r: Result<ProposalId, SignalError>)
        requires
            old(self).wf(),
        ensures
            final(self).wf(),
            r is Err ==> *final(self) == *old(self),
            r is Ok ==> !old(self).has(r->Ok_0) && final(self).has(r->Ok_0)
                && final(self).records@.len() == old(self).records@.len() + 1,
            exists|now: BlockNumber, body: bool, member: bool, success: bool, balance: Balance, id: ProposalId|
                #[trigger] withdrawal_created(
                    old(self),
                    final(self),
                    r,
                    owner,
                    context_id,
                    title@,
                    cid@,
                    amount,
                    start,
                    expiry,
                    now,
                    body,
                    member,
                    success,
                    balance,
                    id,
                ),
    {
        let now = cfg.block_number();
        let body = cfg.body_active(context_id);
        let member = cfg.member_active(context_id, owner);
        let success = cfg.campaign_succeeded(context_id);
        let balance = cfg.campaign(context_id).balance;
        let id = cfg.random();
        let ghost t = title@;
        let ghost d = cid@;
        let ghost before = *self;
        let r = self.withdraw_proposal(
            owner,
            context_id,
            title,
            cid,
            amount,
            start,
            expiry,
            now,
            body,
            member,
            success,
            balance,
            id,
        );
        proof {
            if r is Ok {
                crate::laws::lemma_creation_indexed(
                    &before,
                    self,
                    withdrawal_description(id, context_id, start, expiry),
                    owner,
                    t,
                    d,
                    amount,
                );
            }
            assert(withdrawal_created(
                &before,
                self,
                r,
                owner,
                context_id,
                t,
                d,
                amount,
                start,
                expiry,
                now,
                body,
                member,
                success,
                balance,
                id,
            ));
        }
        r
    }

    /// Casts a vote at the block height that `cfg` reports, with `cfg`'s
    /// report of the proposal's campaign.
    pub fn vote<C: Config>(&mut self, cfg: &C, voter: AccountId, proposal_id: ProposalId, vote: bool) -> (r:
        Result<(), SignalError>)
        requires
            old(self).wf(),
        ensures
            final(self).wf(),
            r is Err ==> *final(self) == *old(self),
            r is Ok ==> final(self).voted(voter, proposal_id),
            old(self).voted(voter, proposal_id) ==> r is Err,
            !old(self).has(proposal_id) ==> r == Err::<(), SignalError>(SignalError::ProposalUnknown),
            old(self).has(proposal_id) && old(self).record(proposal_id).state != ProposalState::Active
                ==> r == Err::<(), SignalError>(SignalError::ProposalEnded),
            old(self).has(proposal_id) && old(self).record(proposal_id).state == ProposalState::Active
                && old(self).voted(voter, proposal_id) ==> r == Err::<(), SignalError>(
                SignalError::AlreadyVoted,
            ),
            exists|now: BlockNumber, c: Campaign|
                #[trigger] vote_outcome(old(self), final(self), r, proposal_id, voter, vote, now, c),
    {
        let now = cfg.block_number();
        let mut campaigns: Vec<Campaign> = Vec::new();
        match self.proposals(proposal_id) {
            Some(p) => campaigns.push(cfg.campaign(p.context_id)),
            None => {},
        }
        let ghost before = *self;
        let ghost ctx = if before.has(proposal_id) {
            before.record(proposal_id).proposal.context_id
        } else {
            0
        };
        let r = self.cast_vote(voter, proposal_id, vote, now, &campaigns);
        proof {
            let c = campaign_for(campaigns@, ctx);
            lemma_campaign_for_context(campaigns@, ctx);
            assert(campaign_for(seq![c], ctx) == c) by {
                reveal_with_fuel(campaign_for, 2);
            }
            assert(vote_error(&before, proposal_id, voter, vote, now, campaigns@) == vote_error(
                &before,
                proposal_id,
                voter,
                vote,
                now,
                seq![c],
            ));
            assert(vote_outcome(&before, self, r, proposal_id, voter, vote, now, c));
        }
        r
    }

    /// Runs the sweep of the current block, with `cfg`'s reports of the
    /// campaigns of the proposals that expire in it, and returns that block.
    pub fn finalize_block<C: Config>(&mut self, cfg: &C) -> (block: BlockNumber)
        requires
            old(self).wf(),
        ensures
            final(self).wf(),
            only_states_changed(old(self).records@, final(self).records@),
            exists|cs: Seq<Campaign>| #[trigger] swept(old(self), final(self), block, cs),
    {
        let now = cfg.block_number();
        let due = self.proposals_by_block(now);
        let mut campaigns: Vec<Campaign> = Vec::new();
        let mut i: usize = 0;
        while i < due.len()
            invariant
                self.wf(),
            decreases due@.len() - i,
        {
            match self.proposals(due[i]) {
                Some(p) => campaigns.push(cfg.campaign(p.context_id)),
                None => {},
            }
            i = i + 1;
        }
        let ghost before = *self;
        self.on_finalize(now, &campaigns);
        proof {
            assert(swept(&before, self, now, campaigns@));
        }
        now
    }
}

/// `r` and `new` are what a general proposal of `owner` leaves behind when
/// the collaborators report the block `now`, the body's and member's states
/// `body` and `member`, and the fresh id `id`.
pub open spec fn general_created(
    old: &Signal,
    new: &Signal,
    r: Result<ProposalId, SignalError>,
    owner: AccountId,
    context_id: ContextId,
    title: Seq<u8>,
    cid: Seq<u8>,
    start: BlockNumber,
    expiry: BlockNumber,
    now: BlockNumber,
    body: bool,
    member: bool,
    id: ProposalId,
) -> bool {
    let p = general_description(id, context_id, start, expiry);
    &&& r == result_of(general_error(old, p, owner, now, body, member), id)
    &&& r is Ok ==> created(old, new, p, owner, title, cid, 0)
}

/// `r` and `new` are what a withdrawal proposal leaves behind for the given
/// collaborator answers, `balance` being the campaign's total balance.
pub open spec fn withdrawal_created(
    old: &Signal,
    new: &Signal,
    r: Result<ProposalId, SignalError>,
    owner: AccountId,
    context_id: ContextId,
    title: Seq<u8>,
    cid: Seq<u8>,
    amount: Balance,
    start: BlockNumber,
    expiry: BlockNumber,
    now: BlockNumber,
    body: bool,
    member: bool,
    success: bool,
    balance: Balance,
    id: ProposalId,
) -> bool {
    let p = withdrawal_description(id, context_id, start, expiry);
    &&& r == result_of(withdrawal_error(old, p, owner, now, body, member, success, balance, amount), id)
    &&& r is Ok ==> created(old, new, p, owner, title, cid, amount)
}

/// `r` and `new` are what a vote leaves behind at block `now`, with `c` the
/// report of the proposal's campaign.
pub open spec fn vote_outcome(
    old: &Signal,
    new: &Signal,
    r: Result<(), SignalError>,
    id: ProposalId,
    voter: AccountId,
    vote: bool,
    now: BlockNumber,
    c: Campaign,
) -> bool {
    &&& r == vote_result(vote_error(old, id, voter, vote, now, seq![c]))
    &&& r is Ok ==> vote_applied(old, new, id, voter, vote, c)
}

} // verus!
