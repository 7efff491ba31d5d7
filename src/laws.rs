//! Properties that relate several operations of the engine.
use vstd::prelude::*;
use crate::types::{MAX_PROPOSALS_PER_BLOCK, AccountId, Balance, BlockNumber, Campaign, Proposal, ProposalId, ProposalState, SignalError};
use crate::registry::{IndexKey, Signal, admission_error, created, out_of_window, withdrawal_error, id_of, ids_of, lemma_ids_of_push, record_wf};
use crate::voting::{released, short_of_funds, vote_error};
use crate::finalize::only_states_changed;

verus! {

/// A successful creation uses an id that was absent, and afterwards the
/// proposal is found at the next global position and at the next position of
/// its context's, its owner's and its expiry block's sequences.
pub proof fn lemma_creation_indexed(
    old: &Signal,
    new: &Signal,
    p: Proposal,
    owner: AccountId,
    title: Seq<u8>,
    cid: Seq<u8>,
    amount: Balance,
)
    requires
        old.wf(),
        new.wf(),
        admission_error(old, p, owner) is None,
        created(old, new, p, owner, title, cid, amount),
    ensures
        !old.has(p.proposal_id),
        new.has(p.proposal_id),
        new.position(p.proposal_id) == old.records@.len(),
        ids_of(new.records@, IndexKey::Context(p.context_id)) == ids_of(
            old.records@,
            IndexKey::Context(p.context_id),
        ).push(p.proposal_id),
        ids_of(new.records@, IndexKey::Context(p.context_id))[new.record(
            p.proposal_id,
        ).context_seq as int] == p.proposal_id,
        ids_of(new.records@, IndexKey::Owner(owner)) == ids_of(old.records@, IndexKey::Owner(owner)).push(
            p.proposal_id,
        ),
        ids_of(new.records@, IndexKey::Owner(owner))[new.record(p.proposal_id).owner_seq as int]
            == p.proposal_id,
        ids_of(new.records@, IndexKey::Block(p.expiry)) == ids_of(old.records@, IndexKey::Block(p.expiry)).push(
            p.proposal_id,
        ),
{
    let n = old.records@.len() as int;
    let r = new.records@[n];
    assert(new.records@ =~= old.records@.push(r)) by {
        assert(new.records@.subrange(0, n) == old.records@);
    }
    lemma_ids_of_push(old.records@, r, IndexKey::Context(p.context_id));
    lemma_ids_of_push(old.records@, r, IndexKey::Owner(owner));
    lemma_ids_of_push(old.records@, r, IndexKey::Block(p.expiry));
    assert(id_of(new.records@[n]) == p.proposal_id);
    let q = new.position(p.proposal_id);
    assert(id_of(new.records@[q]) == p.proposal_id);
    if q < n {
        assert(id_of(new.records@[q]) != id_of(new.records@[n]));
    }
}

/// Once `voter` has voted on `id`, every further vote of theirs on it is
/// refused: with `AlreadyVoted` while the proposal is active.
pub proof fn lemma_vote_once(
    s: &Signal,
    id: ProposalId,
    voter: AccountId,
    vote: bool,
    current_block: BlockNumber,
    cs: Seq<Campaign>,
)
    requires
        s.voted(voter, id),
    ensures
        vote_error(s, id, voter, vote, current_block, cs) is Some,
        s.record(id).state == ProposalState::Active ==> vote_error(s, id, voter, vote, current_block, cs)
            == Some(SignalError::AlreadyVoted),
{
}

/// A vote on an active proposal that the voter has not voted on yet is
/// refused with `ProposalExpired` from the proposal's expiry block on,
/// whatever state is stored.
pub proof fn lemma_expired_vote_refused(
    s: &Signal,
    id: ProposalId,
    voter: AccountId,
    vote: bool,
    current_block: BlockNumber,
    cs: Seq<Campaign>,
)
    requires
        s.has(id),
        s.record(id).state == ProposalState::Active,
        !s.voted(voter, id),
        current_block >= s.record(id).proposal.expiry,
    ensures
        vote_error(s, id, voter, vote, current_block, cs) == Some(SignalError::ProposalExpired),
{
}

/// In a consistent registry no block has more proposals expiring in it
/// than the per-block cap.
pub proof fn lemma_capacity(s: &Signal, block: BlockNumber)
    requires
        s.wf(),
    ensures
        ids_of(s.records@, IndexKey::Block(block)).len() <= MAX_PROPOSALS_PER_BLOCK,
{
}

/// In a consistent registry every proposal's yes and no counts add up to
/// the number of its votes and of its voters.
pub proof fn lemma_tally_consistent(s: &Signal, id: ProposalId)
    requires
        s.wf(),
        s.has(id),
    ensures
        s.record(id).yes + s.record(id).no == s.record(id).votes@.len(),
        s.record(id).votes@.len() == s.record(id).voters@.len(),
{
    assert(record_wf(s.records@[s.position(id)]));
}

/// The finalisation sweep changes only states: every vote recorded before
/// it is still recorded after it.
pub proof fn lemma_sweep_keeps_votes(old: &Signal, new: &Signal, voter: AccountId, id: ProposalId)
    requires
        old.wf(),
        new.wf(),
        only_states_changed(old.records@, new.records@),
        old.voted(voter, id),
    ensures
        new.voted(voter, id),
{
    let q = old.position(id);
    assert(new.records@[q].proposal == old.records@[q].proposal);
    assert(id_of(new.records@[q]) == id);
    let q2 = new.position(id);
    assert(id_of(new.records@[q2]) == id);
    if q2 < q {
        assert(id_of(new.records@[q2]) != id_of(new.records@[q]));
    } else if q2 > q {
        assert(id_of(new.records@[q]) != id_of(new.records@[q2]));
    }
}

/// A creation keeps every vote recorded before it.
pub proof fn lemma_creation_keeps_votes(
    old: &Signal,
    new: &Signal,
    p: Proposal,
    owner: AccountId,
    title: Seq<u8>,
    cid: Seq<u8>,
    amount: Balance,
    voter: AccountId,
    id: ProposalId,
)
    requires
        old.wf(),
        new.wf(),
        created(old, new, p, owner, title, cid, amount),
        old.voted(voter, id),
    ensures
        new.voted(voter, id),
{
    let n = old.records@.len() as int;
    let q = old.position(id);
    assert(new.records@.subrange(0, n) == old.records@);
    assert(new.records@[q] == old.records@[q]);
    assert(id_of(new.records@[q]) == id);
    let q2 = new.position(id);
    assert(id_of(new.records@[q2]) == id);
    if q2 < q {
        assert(id_of(new.records@[q2]) != id_of(new.records@[q]));
    } else if q2 > q {
        assert(id_of(new.records@[q]) != id_of(new.records@[q2]));
    }
}

/// A withdrawal request whose amount exceeds what is left of its
/// campaign's balance is refused with `BalanceInsufficient` once the access,
/// window and campaign checks pass; a refused request creates nothing.
pub proof fn lemma_withdrawal_over_balance_refused(
    s: &Signal,
    p: Proposal,
    owner: AccountId,
    current_block: BlockNumber,
    campaign_balance: Balance,
    amount: Balance,
)
    requires
        !out_of_window(current_block, p.expiry, s.time_limit),
        amount + s.used_balance_of(p.context_id) > campaign_balance,
    ensures
        withdrawal_error(s, p, owner, current_block, true, true, true, campaign_balance, amount)
            == Some(SignalError::BalanceInsufficient),
{
}

/// A release raises only its own context's used balance, by its amount,
/// and keeps it within the campaign's balance.
pub proof fn lemma_release_bounded(old: &Signal, new: &Signal, i: int, c: Campaign)
    requires
        0 <= i < old.records@.len(),
        released(old, new, i, c),
        !short_of_funds(old, old.records@[i], c),
    ensures
        forall|d: u128| old.used_balance_of(d) <= #[trigger] new.used_balance_of(d),
        forall|d: u128|
            d != old.records@[i].proposal.context_id ==> #[trigger] new.used_balance_of(d)
                == old.used_balance_of(d),
        new.used_balance_of(old.records@[i].proposal.context_id) <= c.balance,
{
    assert(new.used_balance_of(old.records@[i].proposal.context_id) as int == old.used_balance_of(
        old.records@[i].proposal.context_id,
    ) + old.records@[i].metadata.amount);
}

} // verus!
