use signal::runtime::Config;
use signal::registry::Signal;
use signal::tally::{general_resolution, insert_sorted, resolution, threshold, withdrawal_resolution};
use signal::types::{Campaign, Event, ProposalState, ProposalType, SignalError, VotingType};

fn general(s: &mut Signal, owner: u64, ctx: u128, expiry: u64, now: u64, id: u128) -> Result<u128, SignalError> {
    s.general_proposal(owner, ctx, b"title".to_vec(), b"cid".to_vec(), now, expiry, now, true, true, id)
}

fn withdrawal(
    s: &mut Signal,
    owner: u64,
    ctx: u128,
    amount: u128,
    expiry: u64,
    now: u64,
    balance: u128,
    id: u128,
) -> Result<u128, SignalError> {
    s.withdraw_proposal(
        owner,
        ctx,
        b"payout".to_vec(),
        b"cid".to_vec(),
        amount,
        now,
        expiry,
        now,
        true,
        true,
        true,
        balance,
        id,
    )
}

fn campaign(ctx: u128, balance: u128, contributors: u64) -> Vec<Campaign> {
    vec![Campaign { context_id: ctx, balance, contributors, org: 77 }]
}

#[test]
fn creation_fills_every_index() {
    let mut s = Signal::with_default_limit();
    assert_eq!(general(&mut s, 1, 10, 100, 5, 1000), Ok(1000));
    assert_eq!(general(&mut s, 2, 10, 101, 5, 1001), Ok(1001));
    assert_eq!(general(&mut s, 1, 11, 100, 5, 1002), Ok(1002));
    assert_eq!(s.proposals_count(), 3);
    assert_eq!(s.nonce(), 3);
    assert_eq!(s.proposals_by_index(1), Some(1001));
    assert_eq!(s.proposals_by_index(3), None);
    assert_eq!(s.proposal_index(1002), Some(2));
    assert_eq!(s.proposal_index(9), None);
    assert_eq!(s.proposals_by_campaign_count(10), 2);
    assert_eq!(s.proposals_by_campaign_by_index(10, 1), Some(1001));
    assert_eq!(s.proposals_by_campaign_by_index(10, 2), None);
    assert_eq!(s.proposals_by_context(10), vec![1000, 1001]);
    assert_eq!(s.proposals_by_owner_count(1), 2);
    assert_eq!(s.proposals_by_owner(1, 1), Some(1002));
    assert_eq!(s.proposals_by_block(100), vec![1000, 1002]);
    assert_eq!(s.proposal_states(1000), ProposalState::Active);
    assert_eq!(s.proposal_states(5), ProposalState::Init);
    assert_eq!(s.proposal_simple_votes(1000), (0, 0));
    assert_eq!(s.owners(1001), Some(2));
    let p = s.proposals(1000).unwrap();
    assert_eq!(p.proposal_type, ProposalType::General);
    assert_eq!(p.voting_type, VotingType::Simple);
    assert_eq!(p.expiry, 100);
    let m = s.metadata(1000).unwrap();
    assert_eq!(m.title, b"title".to_vec());
    assert_eq!(m.amount, 0);
    assert_eq!(
        s.events()[0],
        Event::ProposalCreated { owner: 1, context_id: 10, proposal_id: 1000, amount: 0, expiry: 100 }
    );
}

#[test]
fn creation_refusals_change_nothing() {
    let mut s = Signal::with_default_limit();
    assert_eq!(
        s.general_proposal(1, 10, vec![], vec![], 5, 100, 5, false, true, 1),
        Err(SignalError::DAOInactive)
    );
    assert_eq!(
        s.general_proposal(1, 10, vec![], vec![], 5, 100, 5, true, false, 1),
        Err(SignalError::AuthorizationError)
    );
    assert_eq!(general(&mut s, 1, 10, 5, 5, 1), Err(SignalError::OutOfBounds));
    assert_eq!(general(&mut s, 1, 10, 5 + 864000 + 1, 5, 1), Err(SignalError::OutOfBounds));
    assert_eq!(general(&mut s, 1, 10, 5 + 864000, 5, 1), Ok(1));
    assert_eq!(general(&mut s, 2, 12, 50, 5, 1), Err(SignalError::HashCollision));
    assert_eq!(s.proposals_count(), 1);
    assert_eq!(s.events().len(), 1);
}

#[test]
fn fourth_proposal_in_one_block_is_refused() {
    let mut s = Signal::with_default_limit();
    assert_eq!(general(&mut s, 1, 10, 100, 5, 1), Ok(1));
    assert_eq!(general(&mut s, 1, 10, 100, 5, 2), Ok(2));
    assert_eq!(general(&mut s, 1, 10, 100, 5, 3), Ok(3));
    assert_eq!(general(&mut s, 1, 10, 100, 5, 4), Err(SignalError::TooManyProposals));
    assert_eq!(general(&mut s, 1, 10, 101, 5, 4), Ok(4));
    assert_eq!(s.proposals_by_block(100), vec![1, 2, 3]);
}

#[test]
fn withdrawal_beyond_remaining_balance_is_refused() {
    let mut s = Signal::with_default_limit();
    assert_eq!(withdrawal(&mut s, 1, 10, 101, 100, 5, 100, 1), Err(SignalError::BalanceInsufficient));
    assert_eq!(s.proposals_count(), 0);
    assert_eq!(withdrawal(&mut s, 1, 10, 100, 100, 5, 100, 1), Ok(1));
    assert_eq!(s.metadata(1).unwrap().amount, 100);
    assert_eq!(
        s.withdraw_proposal(1, 10, vec![], vec![], 5, 5, 100, 5, true, true, false, 100, 2),
        Err(SignalError::CampaignFailed)
    );
}

#[test]
fn withdrawal_counts_funds_already_released() {
    let mut s = Signal::with_default_limit();
    assert_eq!(withdrawal(&mut s, 1, 10, 60, 100, 5, 100, 1), Ok(1));
    // one contributor: threshold 0, the first yes releases at once
    assert_eq!(s.cast_vote(2, 1, true, 6, &campaign(10, 100, 1)), Ok(()));
    assert_eq!(s.used_balance(10), 60);
    assert_eq!(withdrawal(&mut s, 1, 10, 41, 100, 6, 100, 2), Err(SignalError::BalanceInsufficient));
    assert_eq!(withdrawal(&mut s, 1, 10, 40, 100, 6, 100, 2), Ok(2));
}

#[test]
fn second_vote_is_refused() {
    let mut s = Signal::with_default_limit();
    general(&mut s, 1, 10, 100, 5, 7).unwrap();
    assert_eq!(s.cast_vote(3, 7, true, 6, &vec![]), Ok(()));
    assert!(s.has_voted(3, 7));
    assert!(!s.has_voted(4, 7));
    assert_eq!(s.cast_vote(3, 7, false, 7, &vec![]), Err(SignalError::AlreadyVoted));
    assert_eq!(s.proposal_simple_votes(7), (1, 0));
    assert_eq!(s.proposal_votes_by_voters(7).unwrap().clone(), vec![(3, true)]);
}

#[test]
fn vote_refusals() {
    let mut s = Signal::with_default_limit();
    general(&mut s, 1, 10, 100, 5, 7).unwrap();
    assert_eq!(s.cast_vote(3, 8, true, 6, &vec![]), Err(SignalError::ProposalUnknown));
    assert_eq!(s.cast_vote(3, 7, true, 100, &vec![]), Err(SignalError::ProposalExpired));
    assert_eq!(s.cast_vote(3, 7, true, 150, &vec![]), Err(SignalError::ProposalExpired));
    assert_eq!(s.proposal_states(7), ProposalState::Active);
    s.on_finalize(100, &vec![]);
    assert_eq!(s.proposal_states(7), ProposalState::Expired);
    assert_eq!(s.cast_vote(3, 7, true, 50, &vec![]), Err(SignalError::ProposalEnded));
}

#[test]
fn tally_matches_voters() {
    let mut s = Signal::with_default_limit();
    general(&mut s, 1, 10, 100, 5, 7).unwrap();
    for (v, d) in [(9u64, true), (4, false), (6, true), (2, true)] {
        s.cast_vote(v, 7, d, 6, &vec![]).unwrap();
    }
    let (yes, no) = s.proposal_simple_votes(7);
    assert_eq!((yes, no), (3, 1));
    assert_eq!(yes + no, s.proposal_votes_by_voters(7).unwrap().len() as u64);
    assert_eq!(s.proposal_voters(7).unwrap().clone(), vec![2, 4, 6, 9]);
    assert_eq!(s.proposal_votes(7), 4);
    assert_eq!(s.proposal_approvers(7), 3);
    assert_eq!(s.proposal_deniers(7), 1);
    assert_eq!(s.proposals_by_voter(4), vec![(7, false)]);
    assert_eq!(s.proposals_by_voter_count(9), 1);
}

#[test]
fn general_majority_resolution() {
    let mut s = Signal::with_default_limit();
    general(&mut s, 1, 10, 100, 5, 1).unwrap();
    general(&mut s, 1, 10, 100, 5, 2).unwrap();
    general(&mut s, 1, 10, 100, 5, 3).unwrap();
    for v in [11u64, 12, 13] {
        s.cast_vote(v, 1, true, 6, &vec![]).unwrap();
        s.cast_vote(v, 2, false, 6, &vec![]).unwrap();
    }
    s.cast_vote(14, 1, false, 6, &vec![]).unwrap();
    s.cast_vote(14, 2, true, 6, &vec![]).unwrap();
    s.on_finalize(99, &vec![]);
    assert_eq!(s.proposal_states(1), ProposalState::Active);
    s.on_finalize(100, &vec![]);
    assert_eq!(s.proposal_states(1), ProposalState::Accepted);
    assert_eq!(s.proposal_states(2), ProposalState::Rejected);
    assert_eq!(s.proposal_states(3), ProposalState::Expired);
    let n = s.events().len();
    assert_eq!(s.events()[n - 3], Event::ProposalApproved { proposal_id: 1 });
    assert_eq!(s.events()[n - 2], Event::ProposalRejected { proposal_id: 2 });
    assert_eq!(s.events()[n - 1], Event::ProposalExpired { proposal_id: 3 });
}

#[test]
fn general_tie_with_votes_stays_active() {
    let mut s = Signal::with_default_limit();
    general(&mut s, 1, 10, 100, 5, 1).unwrap();
    s.cast_vote(2, 1, true, 6, &vec![]).unwrap();
    s.cast_vote(3, 1, false, 6, &vec![]).unwrap();
    s.on_finalize(100, &vec![]);
    assert_eq!(s.proposal_states(1), ProposalState::Active);
}

#[test]
fn resolution_rules() {
    assert_eq!(general_resolution(3, 1), ProposalState::Accepted);
    assert_eq!(general_resolution(1, 3), ProposalState::Rejected);
    assert_eq!(general_resolution(0, 0), ProposalState::Expired);
    assert_eq!(general_resolution(2, 2), ProposalState::Active);
    assert_eq!(threshold(5), 2);
    assert_eq!(withdrawal_resolution(3, 5), ProposalState::Accepted);
    assert_eq!(withdrawal_resolution(2, 5), ProposalState::Rejected);
    assert_eq!(resolution(ProposalType::Member, 4, 0, 1), ProposalState::Active);
    assert_eq!(resolution(ProposalType::Spending, 4, 0, 1), ProposalState::Expired);
}

#[test]
fn early_release_finalizes_once() {
    let mut s = Signal::with_default_limit();
    withdrawal(&mut s, 1, 10, 30, 100, 5, 100, 1).unwrap();
    let cs = campaign(10, 100, 4);
    s.cast_vote(2, 1, true, 6, &cs).unwrap();
    s.cast_vote(3, 1, true, 6, &cs).unwrap();
    assert_eq!(s.proposal_states(1), ProposalState::Active);
    assert_eq!(s.used_balance(10), 0);
    s.cast_vote(4, 1, true, 6, &cs).unwrap();
    assert_eq!(s.proposal_states(1), ProposalState::Finalized);
    assert_eq!(s.used_balance(10), 30);
    let n = s.events().len();
    assert_eq!(
        s.events()[n - 2],
        Event::WithdrawalGranted { proposal_id: 1, context_id: 10, org: 77, amount: 30 }
    );
    assert_eq!(s.cast_vote(5, 1, true, 6, &cs), Err(SignalError::ProposalEnded));
    s.on_finalize(100, &cs);
    assert_eq!(s.proposal_states(1), ProposalState::Finalized);
    assert_eq!(s.used_balance(10), 30);
}

#[test]
fn early_release_short_of_funds_refuses_the_vote() {
    let mut s = Signal::with_default_limit();
    withdrawal(&mut s, 1, 10, 80, 100, 5, 100, 1).unwrap();
    // the campaign's balance has since shrunk below the requested amount
    assert_eq!(s.cast_vote(2, 1, true, 6, &campaign(10, 50, 1)), Err(SignalError::BalanceInsufficient));
    assert!(!s.has_voted(2, 1));
    assert_eq!(s.proposal_simple_votes(1), (0, 0));
}

#[test]
fn sweep_settles_withdrawals() {
    let mut s = Signal::with_default_limit();
    withdrawal(&mut s, 1, 10, 40, 100, 5, 100, 1).unwrap();
    withdrawal(&mut s, 1, 10, 70, 100, 5, 100, 2).unwrap();
    withdrawal(&mut s, 1, 10, 10, 100, 5, 100, 3).unwrap();
    // contributors grow after the votes, so the threshold is crossed only at the sweep
    let voting = campaign(10, 100, 8);
    for v in [2u64, 3] {
        s.cast_vote(v, 1, true, 6, &voting).unwrap();
        s.cast_vote(v, 2, true, 6, &voting).unwrap();
    }
    s.cast_vote(2, 3, false, 6, &voting).unwrap();
    s.on_finalize(100, &campaign(10, 100, 2));
    assert_eq!(s.proposal_states(1), ProposalState::Finalized);
    // 40 + 70 exceeds the balance: accepted, but nothing is released
    assert_eq!(s.proposal_states(2), ProposalState::Accepted);
    assert_eq!(s.proposal_states(3), ProposalState::Rejected);
    assert_eq!(s.used_balance(10), 40);
}

#[test]
fn used_balance_never_decreases() {
    let mut s = Signal::with_default_limit();
    withdrawal(&mut s, 1, 10, 20, 100, 5, 100, 1).unwrap();
    withdrawal(&mut s, 1, 10, 30, 101, 5, 100, 2).unwrap();
    let cs = campaign(10, 100, 0);
    let mut last = s.used_balance(10);
    s.cast_vote(2, 1, true, 6, &cs).unwrap();
    assert!(s.used_balance(10) >= last && s.used_balance(10) <= 100);
    last = s.used_balance(10);
    s.cast_vote(2, 2, true, 6, &cs).unwrap();
    assert!(s.used_balance(10) >= last && s.used_balance(10) <= 100);
    assert_eq!(s.used_balance(10), 50);
    assert_eq!(s.used_balance(11), 0);
}

#[test]
fn sorted_insertion_is_idempotent() {
    let mut v: Vec<u64> = vec![2, 5, 9];
    assert!(insert_sorted(&mut v, 7));
    assert_eq!(v, vec![2, 5, 7, 9]);
    assert!(!insert_sorted(&mut v, 7));
    assert_eq!(v, vec![2, 5, 7, 9]);
    assert!(insert_sorted(&mut v, 1));
    assert!(insert_sorted(&mut v, 10));
    assert_eq!(v, vec![1, 2, 5, 7, 9, 10]);
    let mut e: Vec<u64> = vec![];
    assert!(insert_sorted(&mut e, 3));
    assert_eq!(e, vec![3]);
}

#[test]
fn custom_time_limit() {
    let mut s = Signal::new(10);
    assert_eq!(s.proposal_time_limit(), 10);
    assert_eq!(general(&mut s, 1, 10, 16, 5, 1), Err(SignalError::OutOfBounds));
    assert_eq!(general(&mut s, 1, 10, 15, 5, 1), Ok(1));
}

#[test]
fn campaign_unknown_reads_empty() {
    let c = Campaign::unknown(4);
    assert_eq!(c, Campaign { context_id: 4, balance: 0, contributors: 0, org: 0 });
}

struct Runtime {
    block: u64,
    next_id: u128,
    members: Vec<u64>,
}

impl Config for Runtime {
    fn block_number(&self) -> u64 {
        self.block
    }
    fn body_active(&self, context_id: u128) -> bool {
        context_id == 10
    }
    fn member_active(&self, _context_id: u128, account: u64) -> bool {
        self.members.contains(&account)
    }
    fn campaign_succeeded(&self, _context_id: u128) -> bool {
        true
    }
    fn campaign(&self, context_id: u128) -> Campaign {
        Campaign { context_id, balance: 500, contributors: 4, org: 3 }
    }
    fn random(&mut self) -> u128 {
        self.next_id += 1;
        self.next_id
    }
}

#[test]
fn runtime_driven_lifecycle() {
    let mut rt = Runtime { block: 5, next_id: 100, members: vec![1, 2] };
    let mut s = Signal::with_default_limit();
    assert_eq!(s.create_general(&mut rt, 9, 10, vec![], vec![], 5, 20), Err(SignalError::AuthorizationError));
    assert_eq!(s.create_general(&mut rt, 1, 11, vec![], vec![], 5, 20), Err(SignalError::DAOInactive));
    let g = s.create_general(&mut rt, 1, 10, vec![], vec![], 5, 20).unwrap();
    let w = s.create_withdrawal(&mut rt, 2, 10, vec![], vec![], 200, 5, 20).unwrap();
    assert_ne!(g, w);
    assert_eq!(s.vote(&rt, 1, g, true), Ok(()));
    assert_eq!(s.vote(&rt, 1, g, true), Err(SignalError::AlreadyVoted));
    assert_eq!(s.vote(&rt, 1, w, true), Ok(()));
    assert_eq!(s.vote(&rt, 2, w, true), Ok(()));
    assert_eq!(s.proposal_states(w), ProposalState::Active);
    s.vote(&rt, 3, w, true).unwrap();
    assert_eq!(s.proposal_states(w), ProposalState::Finalized);
    assert_eq!(s.used_balance(10), 200);
    rt.block = 20;
    assert_eq!(s.vote(&rt, 2, g, false), Err(SignalError::ProposalExpired));
    s.finalize_block(&rt);
    assert_eq!(s.proposal_states(g), ProposalState::Accepted);
    assert_eq!(s.proposal_states(w), ProposalState::Finalized);
}

#[test]
fn unlock_refuses_anything_but_an_active_withdrawal() {
    let mut s = Signal::with_default_limit();
    general(&mut s, 1, 10, 100, 5, 1).unwrap();
    withdrawal(&mut s, 1, 10, 30, 100, 5, 100, 2).unwrap();
    for v in [2u64, 3, 4] {
        s.cast_vote(v, 1, true, 6, &vec![]).unwrap();
    }
    s.cast_vote(5, 1, false, 6, &vec![]).unwrap();
    let c = Campaign { context_id: 10, balance: 100, contributors: 9, org: 77 };
    assert_eq!(s.unlock_balance(0, &c), Err(SignalError::ProposalEnded));
    s.on_finalize(100, &campaign(10, 100, 9));
    assert_eq!(s.proposal_states(1), ProposalState::Accepted);
    assert_eq!(s.proposal_states(2), ProposalState::Rejected);
    let events = s.events().len();
    assert_eq!(s.unlock_balance(0, &c), Err(SignalError::ProposalEnded));
    assert_eq!(s.unlock_balance(1, &c), Err(SignalError::ProposalEnded));
    assert_eq!(s.proposal_states(1), ProposalState::Accepted);
    assert_eq!(s.used_balance(10), 0);
    assert_eq!(s.events().len(), events);
}

#[test]
fn unlock_releases_once() {
    let mut s = Signal::with_default_limit();
    withdrawal(&mut s, 1, 10, 30, 100, 5, 100, 2).unwrap();
    let c = Campaign { context_id: 10, balance: 100, contributors: 9, org: 77 };
    let short = Campaign { context_id: 10, balance: 20, contributors: 9, org: 77 };
    assert_eq!(s.unlock_balance(0, &short), Err(SignalError::BalanceInsufficient));
    assert_eq!(s.proposal_states(2), ProposalState::Active);
    assert_eq!(s.unlock_balance(0, &c), Ok(()));
    assert_eq!(s.proposal_states(2), ProposalState::Finalized);
    assert_eq!(s.used_balance(10), 30);
    assert_eq!(s.unlock_balance(0, &c), Err(SignalError::ProposalEnded));
    assert_eq!(s.used_balance(10), 30);
}

#[test]
fn sweep_events_follow_outcomes() {
    let mut s = Signal::with_default_limit();
    withdrawal(&mut s, 1, 10, 40, 100, 5, 100, 1).unwrap();
    general(&mut s, 1, 10, 100, 5, 2).unwrap();
    s.cast_vote(2, 1, true, 6, &campaign(10, 100, 8)).unwrap();
    let before = s.events().len();
    s.on_finalize(100, &campaign(10, 100, 1));
    let ev = s.events()[before..].to_vec();
    assert_eq!(
        ev,
        vec![
            Event::ProposalApproved { proposal_id: 1 },
            Event::WithdrawalGranted { proposal_id: 1, context_id: 10, org: 77, amount: 40 },
            Event::ProposalExpired { proposal_id: 2 },
        ]
    );
}
