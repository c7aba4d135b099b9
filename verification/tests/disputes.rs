use disputes::forks::{transplant_to, Blacklist, Branch};
use disputes::ledger::{DisputeRecord, VoteEntry};
use disputes::slash::select_offenders;
use disputes::types::{
    DisputeError, DisputeState, Event, ProcessOutcome, Resolution, Verdict,
};
use disputes::Disputes;

const H: u64 = 0xd15b;

fn ten_validators() -> Disputes {
    let validators: Vec<u64> = (0..10).map(|i| 1000 + i).collect();
    Disputes::new(5, validators)
}

fn cast(state: &mut Disputes, voters: std::ops::Range<u32>, pro: bool) {
    for v in voters {
        state.submit_vote(v, H, 5, pro).expect("vote admitted");
    }
}

#[test]
fn vote_bookkeeping_and_tally() {
    let mut state = ten_validators();
    state.indicate_dispute(H, 5, 42).expect("dispute registered");
    let tally = state.submit_vote(0, H, 5, true).expect("vote admitted");
    assert_eq!((tally.pro, tally.cons), (1, 0));
    let tally = state.submit_vote(1, H, 5, false).expect("vote admitted");
    assert_eq!((tally.pro, tally.cons), (1, 1));
    let read = state.tally(H).expect("dispute exists");
    assert_eq!((read.pro, read.cons), (1, 1));
    let counted = state.count_pro_and_cons_votes(H);
    assert_eq!((counted.pro, counted.cons), (1, 1));
}

#[test]
fn tally_of_unknown_candidate() {
    let state = ten_validators();
    assert!(state.tally(H).is_none());
    let counted = state.count_pro_and_cons_votes(H);
    assert_eq!((counted.pro, counted.cons), (0, 0));
}

#[test]
fn vote_rejections() {
    let mut state = ten_validators();
    // no dispute registered yet
    assert_eq!(state.submit_vote(0, H, 5, true), Err(DisputeError::UnknownDispute));
    state.indicate_dispute(H, 5, 42).expect("dispute registered");
    // index outside the ten-validator snapshot
    assert_eq!(state.submit_vote(10, H, 5, true), Err(DisputeError::UnknownValidator));
    // wrong session for the registered dispute
    assert_eq!(state.submit_vote(0, H, 6, true), Err(DisputeError::UnknownDispute));
    // first vote stands, second is rejected
    state.submit_vote(0, H, 5, true).expect("vote admitted");
    assert_eq!(state.submit_vote(0, H, 5, false), Err(DisputeError::DuplicateVote));
    let read = state.tally(H).expect("dispute exists");
    assert_eq!((read.pro, read.cons), (1, 0));
}

#[test]
fn second_indication_is_rejected() {
    let mut state = ten_validators();
    match state.indicate_dispute(H, 5, 42) {
        Ok(Event::DisputeIndicated { candidate, session, block_number }) => {
            assert_eq!((candidate, session, block_number), (H, 5, 42));
        }
        _ => panic!("expected an indication event"),
    }
    assert!(matches!(state.indicate_dispute(H, 5, 43), Err(DisputeError::DisputeExists)));
}

#[test]
fn seven_pro_votes_bind_valid() {
    let mut state = ten_validators();
    state.indicate_dispute(H, 5, 42).expect("dispute registered");
    cast(&mut state, 0..7, true);
    let branches: Vec<Branch> = Vec::new();
    let original: Vec<u32> = Vec::new();
    match state.process_concluded(50, H, 5, &branches, &original) {
        Ok(ProcessOutcome::Resolved { resolution, slash, pruned }) => {
            assert!(matches!(resolution.verdict, Verdict::Valid));
            assert_eq!(resolution.candidate, H);
            assert_eq!(resolution.session, 5);
            // nobody voted against, so nobody is punished
            assert!(resolution.punished.is_empty());
            assert!(slash.offenders.is_empty());
            assert!(pruned.is_empty());
        }
        _ => panic!("expected a resolution"),
    }
    // a valid candidate is not blacklisted
    assert!(!state.blacklist.is_barred(H));
}

#[test]
fn seven_cons_votes_bind_invalid() {
    let mut state = ten_validators();
    state.indicate_dispute(H, 5, 42).expect("dispute registered");
    cast(&mut state, 0..2, true);
    cast(&mut state, 2..9, false);
    let branches: Vec<Branch> = Vec::new();
    let original: Vec<u32> = vec![31, 32];
    match state.process_concluded(50, H, 5, &branches, &original) {
        Ok(ProcessOutcome::Resolved { resolution, slash, pruned }) => {
            assert!(matches!(resolution.verdict, Verdict::Invalid));
            // the attesters of the invalid candidate, then the inclusion-time set
            assert_eq!(resolution.punished, vec![0, 1, 31, 32]);
            assert_eq!(slash.offenders, vec![0, 1, 31, 32]);
            assert!(pruned.is_empty());
        }
        _ => panic!("expected a resolution"),
    }
    assert!(state.blacklist.is_barred(H));
}

#[test]
fn six_votes_leave_the_dispute_undecided() {
    let mut state = ten_validators();
    state.indicate_dispute(H, 5, 42).expect("dispute registered");
    cast(&mut state, 0..6, true);
    cast(&mut state, 6..10, false);
    let branches: Vec<Branch> = Vec::new();
    let original: Vec<u32> = Vec::new();
    assert!(matches!(
        state.process_concluded(50, H, 5, &branches, &original),
        Ok(ProcessOutcome::Undecided)
    ));
    // still open: votes would be admitted if any validator were left
    let read = state.tally(H).expect("dispute exists");
    assert_eq!((read.pro, read.cons), (6, 4));
}

#[test]
fn process_unknown_dispute() {
    let mut state = ten_validators();
    let branches: Vec<Branch> = Vec::new();
    let original: Vec<u32> = Vec::new();
    assert!(matches!(
        state.process_concluded(50, H, 5, &branches, &original),
        Err(DisputeError::UnknownDispute)
    ));
    state.indicate_dispute(H, 5, 42).expect("dispute registered");
    // wrong session
    assert!(matches!(
        state.process_concluded(50, H, 4, &branches, &original),
        Err(DisputeError::UnknownDispute)
    ));
}

#[test]
fn resolution_is_produced_once() {
    let mut state = ten_validators();
    state.indicate_dispute(H, 5, 42).expect("dispute registered");
    cast(&mut state, 0..7, true);
    let branches: Vec<Branch> = Vec::new();
    let original: Vec<u32> = Vec::new();
    assert!(matches!(
        state.process_concluded(50, H, 5, &branches, &original),
        Ok(ProcessOutcome::Resolved { .. })
    ));
    // a second pass does not produce a second resolution
    assert!(matches!(
        state.process_concluded(51, H, 5, &branches, &original),
        Ok(ProcessOutcome::AlreadyConcluded)
    ));
}

#[test]
fn votes_after_resolution_change_nothing() {
    let mut state = ten_validators();
    state.indicate_dispute(H, 5, 42).expect("dispute registered");
    cast(&mut state, 0..7, true);
    let branches: Vec<Branch> = Vec::new();
    let original: Vec<u32> = Vec::new();
    state.process_concluded(50, H, 5, &branches, &original).expect("resolved");
    // an explicit already-resolved outcome, and the tally stands
    assert_eq!(state.submit_vote(9, H, 5, false), Err(DisputeError::AlreadyConcluded));
    let read = state.tally(H).expect("dispute exists");
    assert_eq!((read.pro, read.cons), (7, 0));
}

#[test]
fn invalid_verdict_prunes_descendant_branches_only() {
    let mut state = ten_validators();
    state.indicate_dispute(H, 5, 42).expect("dispute registered");
    cast(&mut state, 0..7, false);
    let branch_a = Branch { head: 0xa0, ancestry: vec![0xa0, H, 0x01] };
    let branch_b = Branch { head: 0xb0, ancestry: vec![0xb0, 0x02, 0x01] };
    let branches: Vec<Branch> = vec![branch_a, branch_b];
    let original: Vec<u32> = Vec::new();
    match state.process_concluded(50, H, 5, &branches, &original) {
        Ok(ProcessOutcome::Resolved { resolution, pruned, .. }) => {
            assert!(matches!(resolution.verdict, Verdict::Invalid));
            // the branch building on H goes, the other is untouched
            assert_eq!(pruned, vec![0xa0]);
        }
        _ => panic!("expected a resolution"),
    }
    assert!(state.blacklist.is_barred(H));
    assert!(!state.blacklist.is_barred(0xb0));
}

#[test]
fn transplant_reports_every_descendant_head() {
    let resolution = Resolution {
        candidate: H,
        session: 5,
        verdict: Verdict::Invalid,
        punished: Vec::new(),
    };
    let branches = vec![
        Branch { head: 1, ancestry: vec![1, H] },
        Branch { head: 2, ancestry: vec![2, 9] },
        Branch { head: 3, ancestry: vec![3, H, 9] },
    ];
    assert_eq!(transplant_to(&resolution, &branches), vec![1, 3]);
}

#[test]
fn blacklist_is_append_only() {
    let mut blacklist = Blacklist { hashes: Vec::new() };
    blacklist.extend_blacklist(&vec![1, 2]);
    blacklist.extend_blacklist(&vec![3]);
    assert!(blacklist.is_barred(1));
    assert!(blacklist.is_barred(2));
    assert!(blacklist.is_barred(3));
    assert!(!blacklist.is_barred(4));
    assert_eq!(blacklist.hashes, vec![1, 2, 3]);
}

#[test]
fn offenders_and_winners_are_disjoint() {
    let record = DisputeRecord {
        candidate: H,
        session: 5,
        opened_at: 42,
        votes: vec![
            VoteEntry { validator: 0, pro: true },
            VoteEntry { validator: 1, pro: false },
            VoteEntry { validator: 2, pro: false },
        ],
        pro: 1,
        cons: 2,
        state: DisputeState::Open,
    };
    // invalid: winners voted against; punished are the pro voter and the
    // inclusion-time set, none of whom voted against
    let slash = select_offenders(Verdict::Invalid, &record, &vec![7, 8]);
    assert_eq!(slash.offenders, vec![0, 7, 8]);
    for winner in [1u32, 2] {
        assert!(!slash.offenders.contains(&winner));
    }
    // valid: winners voted pro; punished are the false accusers
    let slash = select_offenders(Verdict::Valid, &record, &vec![7, 8]);
    assert_eq!(slash.offenders, vec![1, 2]);
    assert!(!slash.offenders.contains(&0));
}

#[test]
fn voter_lists_split_by_stance() {
    let record = DisputeRecord {
        candidate: H,
        session: 5,
        opened_at: 42,
        votes: vec![
            VoteEntry { validator: 4, pro: false },
            VoteEntry { validator: 5, pro: true },
            VoteEntry { validator: 6, pro: true },
        ],
        pro: 2,
        cons: 1,
        state: DisputeState::Open,
    };
    assert_eq!(record.validators_pro(), vec![5, 6]);
    assert_eq!(record.validators_cons(), vec![4]);
}

#[test]
fn timed_out_dispute_is_terminal() {
    let mut state = ten_validators();
    state.indicate_dispute(H, 5, 42).expect("dispute registered");
    cast(&mut state, 0..3, true);
    match state.time_out_dispute(H, vec![0xde, 0xad]) {
        Ok(Event::DisputeTimedOut { candidate, head_data }) => {
            assert_eq!(candidate, H);
            assert_eq!(head_data, vec![0xde, 0xad]);
        }
        _ => panic!("expected a timeout event"),
    }
    assert_eq!(state.submit_vote(3, H, 5, true), Err(DisputeError::AlreadyConcluded));
    assert!(matches!(state.time_out_dispute(H, Vec::new()), Err(DisputeError::AlreadyConcluded)));
    let branches: Vec<Branch> = Vec::new();
    let original: Vec<u32> = Vec::new();
    assert!(matches!(
        state.process_concluded(60, H, 5, &branches, &original),
        Ok(ProcessOutcome::AlreadyConcluded)
    ));
}

#[test]
fn timeout_of_unknown_dispute() {
    let mut state = ten_validators();
    assert!(matches!(state.time_out_dispute(H, Vec::new()), Err(DisputeError::UnknownDispute)));
}

#[test]
fn rollover_retains_open_disputes_and_purges_concluded_ones() {
    let mut state = ten_validators();
    let open_candidate: u64 = 0xaaaa;
    let resolved_candidate: u64 = 0xbbbb;
    let timed_out_candidate: u64 = 0xcccc;
    for c in [open_candidate, resolved_candidate, timed_out_candidate] {
        state.indicate_dispute(c, 5, 42).expect("dispute registered");
    }
    // open: a partial tally
    state.submit_vote(0, open_candidate, 5, true).expect("vote admitted");
    state.submit_vote(1, open_candidate, 5, false).expect("vote admitted");
    // resolved
    for v in 0..7u32 {
        state.submit_vote(v, resolved_candidate, 5, true).expect("vote admitted");
    }
    let branches: Vec<Branch> = Vec::new();
    let original: Vec<u32> = Vec::new();
    state.process_concluded(50, resolved_candidate, 5, &branches, &original).expect("resolved");
    // timed out
    state.time_out_dispute(timed_out_candidate, Vec::new()).expect("timed out");

    let new_validators: Vec<u64> = (0..4).map(|i| 2000 + i).collect();
    state.initializer_on_new_session(disputes::session::SessionChangeNotification {
        session_index: 6,
        validators: new_validators,
    });

    // the open dispute keeps its prior tally, unchanged
    let read = state.tally(open_candidate).expect("retained");
    assert_eq!((read.pro, read.cons), (1, 1));
    // concluded disputes left no vote state behind
    assert!(state.tally(resolved_candidate).is_none());
    assert!(state.tally(timed_out_candidate).is_none());
    // the snapshot was replaced atomically
    assert_eq!(state.snapshot.session_index, 6);
    assert_eq!(state.snapshot.validators.len(), 4);
    // votes of the new session's validators are matched against the
    // retained dispute; the old snapshot no longer admits index 9
    assert_eq!(
        state.submit_vote(9, open_candidate, 5, true),
        Err(DisputeError::UnknownValidator)
    );
    let tally = state.submit_vote(2, open_candidate, 5, true).expect("vote admitted");
    assert_eq!((tally.pro, tally.cons), (2, 1));
}

#[test]
fn initializer_hooks_are_inert() {
    let state = ten_validators();
    assert_eq!(state.initializer_initialize(7), 0);
    state.initializer_finalize();
}

#[test]
fn resolution_event_carries_the_verdict() {
    let resolution = Resolution {
        candidate: H,
        session: 5,
        verdict: Verdict::Invalid,
        punished: vec![3],
    };
    match Disputes::resolution_event(&resolution) {
        Event::DisputeResolved { candidate, session, verdict } => {
            assert_eq!((candidate, session), (H, 5));
            assert!(matches!(verdict, Verdict::Invalid));
        }
        _ => panic!("expected a resolution event"),
    }
}

#[test]
fn availability_records_hold_plain_values() {
    let record = disputes::types::AvailabilityBitfieldRecord {
        bitfield: vec![true, false, true],
        submitted_at: 9,
    };
    assert_eq!(record.bitfield.len(), 3);
    assert_eq!(record.submitted_at, 9);
    let pending = disputes::types::CandidatePendingAvailability {
        core: 2,
        candidate_hash: H,
        para_id: 77,
        availability_votes: vec![true; 10],
        relay_parent_number: 40,
        backed_in_number: 41,
    };
    assert_eq!(pending.core, 2);
    assert_eq!(pending.candidate_hash, H);
    assert_eq!(pending.para_id, 77);
    assert_eq!(pending.availability_votes.len(), 10);
    assert!(pending.backed_in_number > pending.relay_parent_number);
}

#[test]
fn a_single_validator_resolves_alone() {
    // with one validator the threshold is one vote
    let mut state = Disputes::new(0, vec![4242]);
    state.indicate_dispute(H, 0, 1).expect("dispute registered");
    state.submit_vote(0, H, 0, true).expect("vote admitted");
    let branches: Vec<Branch> = Vec::new();
    let original: Vec<u32> = Vec::new();
    match state.process_concluded(2, H, 0, &branches, &original) {
        Ok(ProcessOutcome::Resolved { resolution, .. }) => {
            assert!(matches!(resolution.verdict, Verdict::Valid));
        }
        _ => panic!("expected a resolution"),
    }
}

#[test]
fn an_empty_validator_set_admits_no_votes() {
    let mut state = Disputes::new(0, Vec::new());
    state.indicate_dispute(H, 0, 1).expect("dispute registered");
    assert_eq!(state.submit_vote(0, H, 0, true), Err(DisputeError::UnknownValidator));
    let branches: Vec<Branch> = Vec::new();
    let original: Vec<u32> = Vec::new();
    assert!(matches!(
        state.process_concluded(2, H, 0, &branches, &original),
        Ok(ProcessOutcome::Undecided)
    ));
}
