use algorand_ba::majority::{resolve_majority, Majority};
use algorand_ba::steps::{advance_step, algorand_agreement, has_halted};
use algorand_ba::tally::{tally, VoteCount};
use algorand_ba::votes::{MessageType, ParticipantRecord, Vote};

fn rec(id: u64, message: MessageType, vote: Vote) -> ParticipantRecord {
    ParticipantRecord { id, vote, message, token: vec![id as u8] }
}

fn majority(message: MessageType, vote: Vote, count: u32) -> Majority {
    Majority { message, vote, count }
}

#[test]
fn tally_counts_sum_to_population() {
    let pop = vec![
        rec(1, MessageType::SOFT, Vote::Value(3)),
        rec(2, MessageType::CERT, Vote::Value(3)),
        rec(3, MessageType::NEXT, Vote::NullVote),
        rec(4, MessageType::SOFT, Vote::Value(3)),
        rec(5, MessageType::SOFT, Vote::Value(8)),
        rec(6, MessageType::NEXT, Vote::NullVote),
        rec(7, MessageType::CERT, Vote::NullVote),
    ];
    let t = tally(&pop);
    let total: u64 = t
        .soft
        .iter()
        .chain(t.cert.iter())
        .chain(t.next.iter())
        .map(|vc| vc.count as u64)
        .sum();
    assert_eq!(total, pop.len() as u64);
}

#[test]
fn tally_empty_population_has_empty_buckets() {
    let t = tally(&Vec::new());
    assert!(t.soft.is_empty());
    assert!(t.cert.is_empty());
    assert!(t.next.is_empty());
}

#[test]
fn tally_groups_duplicate_votes_in_first_occurrence_order() {
    let pop = vec![
        rec(1, MessageType::SOFT, Vote::Value(1)),
        rec(2, MessageType::SOFT, Vote::Value(2)),
        rec(3, MessageType::SOFT, Vote::Value(1)),
    ];
    let t = tally(&pop);
    assert_eq!(
        t.soft,
        vec![
            VoteCount { vote: Vote::Value(1), count: 2 },
            VoteCount { vote: Vote::Value(2), count: 1 },
        ]
    );
    assert!(t.cert.is_empty());
    assert!(t.next.is_empty());
}

#[test]
fn resolve_majority_of_empty_tally_is_sentinel() {
    let t = tally(&Vec::new());
    let m = resolve_majority(&t);
    assert_eq!(m, majority(MessageType::SOFT, Vote::NullVote, 0));
}

#[test]
fn resolve_majority_tie_between_buckets_first_wins() {
    // One soft-vote and one cert-vote, both with count 1: the SOFT bucket
    // is scanned first, so its entry stays the leader.
    let pop = vec![
        rec(1, MessageType::CERT, Vote::Value(2)),
        rec(2, MessageType::SOFT, Vote::Value(1)),
    ];
    let m = resolve_majority(&tally(&pop));
    assert_eq!(m, majority(MessageType::SOFT, Vote::Value(1), 1));
}

#[test]
fn resolve_majority_tie_within_bucket_first_wins() {
    let pop = vec![
        rec(1, MessageType::SOFT, Vote::Value(7)),
        rec(2, MessageType::SOFT, Vote::Value(4)),
    ];
    let m = resolve_majority(&tally(&pop));
    assert_eq!(m, majority(MessageType::SOFT, Vote::Value(7), 1));
}

#[test]
fn halting_examples() {
    assert!(has_halted(1, &majority(MessageType::CERT, Vote::Value(7), 3)));
    assert!(!has_halted(1, &majority(MessageType::CERT, Vote::Value(7), 2)));
    assert!(!has_halted(1, &majority(MessageType::CERT, Vote::NullVote, 5)));
    assert!(!has_halted(1, &majority(MessageType::SOFT, Vote::Value(7), 3)));
    assert!(!has_halted(1, &majority(MessageType::NEXT, Vote::Value(7), 3)));
}

#[test]
fn halting_threshold_boundary_t_zero() {
    // With t = 0 the certification threshold is 1: a single cert-vote halts.
    assert!(has_halted(0, &majority(MessageType::CERT, Vote::Value(1), 1)));
    assert!(!has_halted(0, &majority(MessageType::CERT, Vote::Value(1), 0)));
}

#[test]
fn first_period_no_majority_collapses_to_null_next_vote() {
    for t in 0..4u32 {
        let m = majority(MessageType::SOFT, Vote::NullVote, 0);
        let user = rec(9, MessageType::CERT, Vote::Value(42));
        let (halted, updated) = advance_step(1, t, &m, user);
        assert!(!halted);
        assert_eq!(updated.message, MessageType::NEXT);
        assert_eq!(updated.vote, Vote::NullVote);
        assert_eq!(updated.id, 9);
        assert_eq!(updated.token, vec![9u8]);
    }
}

#[test]
fn scenario_certification_quorum() {
    let pop = vec![
        rec(1, MessageType::CERT, Vote::Value(5)),
        rec(2, MessageType::CERT, Vote::Value(5)),
        rec(3, MessageType::CERT, Vote::Value(5)),
        rec(4, MessageType::NEXT, Vote::NullVote),
    ];
    let t = tally(&pop);
    assert!(t.soft.is_empty());
    assert_eq!(t.cert, vec![VoteCount { vote: Vote::Value(5), count: 3 }]);
    assert_eq!(t.next, vec![VoteCount { vote: Vote::NullVote, count: 1 }]);
    let m = resolve_majority(&t);
    assert_eq!(m, majority(MessageType::CERT, Vote::Value(5), 3));
    assert!(has_halted(1, &m));

    // The full round halts and hands the record back unchanged.
    let user = rec(8, MessageType::SOFT, Vote::Value(5));
    let (halted, updated) = algorand_agreement(2, 1, &pop, user.clone());
    assert!(halted);
    assert_eq!(updated, user);
}

#[test]
fn scenario_soft_quorum_fallback() {
    let pop = vec![
        rec(1, MessageType::SOFT, Vote::Value(9)),
        rec(2, MessageType::SOFT, Vote::Value(9)),
        rec(3, MessageType::SOFT, Vote::Value(9)),
    ];
    let m = resolve_majority(&tally(&pop));
    assert_eq!(m, majority(MessageType::SOFT, Vote::Value(9), 3));
    assert!(!has_halted(1, &m));
    let user = rec(4, MessageType::NEXT, Vote::NullVote);
    let (halted, updated) = advance_step(2, 1, &m, user);
    assert!(!halted);
    assert_eq!(updated.message, MessageType::NEXT);
    assert_eq!(updated.vote, Vote::Value(9));
}

#[test]
fn scenario_no_quorum_distinct_values() {
    let pop = vec![
        rec(1, MessageType::SOFT, Vote::Value(1)),
        rec(2, MessageType::CERT, Vote::Value(2)),
        rec(3, MessageType::NEXT, Vote::Value(3)),
        rec(4, MessageType::SOFT, Vote::Value(4)),
    ];
    let m = resolve_majority(&tally(&pop));
    assert_eq!(m.count, 1);
    assert!(!has_halted(1, &m));
    let user = rec(5, MessageType::SOFT, Vote::Value(4));
    let (halted, updated) = advance_step(2, 1, &m, user);
    assert!(!halted);
    assert_eq!(updated.message, MessageType::NEXT);
    assert_eq!(updated.vote, Vote::NullVote);
}

#[test]
fn below_threshold_majority_never_adopts_a_value() {
    // Count 2 is below the threshold 2t + 1 = 3: whatever the majority
    // pair, the round ends next-voting the null sentinel.
    let user = rec(1, MessageType::SOFT, Vote::Value(6));
    for m in [
        majority(MessageType::SOFT, Vote::Value(3), 2),
        majority(MessageType::NEXT, Vote::Value(3), 2),
        majority(MessageType::CERT, Vote::Value(3), 2),
        majority(MessageType::NEXT, Vote::NullVote, 2),
    ] {
        let (_, updated) = advance_step(2, 1, &m, user.clone());
        assert_eq!(updated.message, MessageType::NEXT);
        assert_eq!(updated.vote, Vote::NullVote);
    }
}

#[test]
fn next_quorum_for_value_is_adopted_then_overwritten_by_step_four() {
    // A next-vote quorum for a value moves the participant's vote in the
    // filtering step, but without a soft-vote quorum the first finishing
    // step still next-votes the null sentinel.
    let m = majority(MessageType::NEXT, Vote::Value(4), 3);
    let user = rec(2, MessageType::SOFT, Vote::Value(1));
    let (halted, updated) = advance_step(2, 1, &m, user);
    assert!(!halted);
    assert_eq!(updated.message, MessageType::NEXT);
    assert_eq!(updated.vote, Vote::NullVote);
}

#[test]
fn full_round_without_halt_runs_the_engine() {
    let pop = vec![
        rec(1, MessageType::SOFT, Vote::Value(9)),
        rec(2, MessageType::SOFT, Vote::Value(9)),
        rec(3, MessageType::SOFT, Vote::Value(9)),
    ];
    let user = rec(4, MessageType::NEXT, Vote::NullVote);
    let (halted, updated) = algorand_agreement(2, 1, &pop, user);
    assert!(!halted);
    assert_eq!(updated.id, 4);
    assert_eq!(updated.message, MessageType::NEXT);
    assert_eq!(updated.vote, Vote::Value(9));
}
