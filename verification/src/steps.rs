//! The halting evaluator and the five-step protocol transition.

use vstd::prelude::*;
use crate::majority::{lemma_scan_bucket_max, majority_of_buckets, no_majority, resolve_majority, scan_bucket, Majority};
use crate::tally::{lemma_tally_bucket_counts, tally, tally_bucket};
use crate::votes::{MessageType, ParticipantRecord, Vote};

verus! {

/// The certification and quorum threshold 2t + 1 for an assumed upper
/// bound `t` on faulty participants.
pub open spec fn threshold(t: u32) -> int {
    2 * (t as int) + 1
}

/// A quorum of next-votes for the null sentinel.
pub open spec fn next_quorum_null(t: u32, m: Majority) -> bool {
    m.message == MessageType::NEXT && m.vote == Vote::NullVote && m.count >= threshold(t)
}

/// A quorum of next-votes for some value other than the null sentinel.
pub open spec fn next_quorum_value(t: u32, m: Majority) -> bool {
    m.message == MessageType::NEXT && m.vote != Vote::NullVote && m.count >= threshold(t)
}

/// A quorum of soft-votes for some value other than the null sentinel.
pub open spec fn soft_quorum_value(t: u32, m: Majority) -> bool {
    m.message == MessageType::SOFT && m.vote != Vote::NullVote && m.count >= threshold(t)
}

/// The participant identifies itself as leader for the period: either the
/// first period, or a quorum of next-votes for the null sentinel.
pub open spec fn self_leader(p: u32, t: u32, m: Majority) -> bool {
    p == 1 || next_quorum_null(t, m)
}

/// The halting condition: a certification quorum, that is a majority of
/// cert-votes for some value other than the null sentinel with count at
/// least 2t + 1.
pub open spec fn halts(t: u32, m: Majority) -> bool {
    m.message == MessageType::CERT && m.vote != Vote::NullVote && m.count >= threshold(t)
}

/// True exactly when the majority triple `m` forms a certification quorum
/// for threshold `t`, so the participant halts with the majority vote as
/// its final output.
pub fn has_halted(t: u32, m: &Majority) -> (r: bool)
    ensures
        r == halts(t, *m),
{
    m.message == MessageType::CERT && m.vote != Vote::NullVote
        && (m.count as u64) >= 2 * (t as u64) + 1
}

/// Step 1, value proposal: a self-leader proposes its own vote unchanged;
/// on a next-vote quorum for a value from the second period on, the
/// participant adopts that value. The message type does not move here.
pub open spec fn step1_proposal(p: u32, t: u32, m: Majority, st: (MessageType, Vote)) -> (
    MessageType,
    Vote,
) {
    if self_leader(p, t, m) {
        st
    } else if p >= 2 && next_quorum_value(t, m) {
        (st.0, m.vote)
    } else {
        st
    }
}

/// Step 2, filtering: a self-leader soft-votes its own value; on a
/// next-vote quorum for a value the participant soft-votes that value.
pub open spec fn step2_filtering(p: u32, t: u32, m: Majority, st: (MessageType, Vote)) -> (
    MessageType,
    Vote,
) {
    if self_leader(p, t, m) {
        (MessageType::SOFT, st.1)
    } else if next_quorum_value(t, m) {
        (MessageType::SOFT, m.vote)
    } else {
        st
    }
}

/// The step-3 flag: the participant certifies a value in this evaluation
/// exactly on a soft-vote quorum for a value.
pub open spec fn certified(t: u32, m: Majority) -> bool {
    soft_quorum_value(t, m)
}

/// Step 3, certifying: on a soft-vote quorum for a value the participant
/// cert-votes it, vote unchanged.
pub open spec fn step3_certifying(t: u32, m: Majority, st: (MessageType, Vote)) -> (
    MessageType,
    Vote,
) {
    if certified(t, m) {
        (MessageType::CERT, st.1)
    } else {
        st
    }
}

/// Step 4, first finishing: next-vote the value just certified, or the
/// null sentinel when nothing was certified.
pub open spec fn step4_first_finishing(t: u32, m: Majority, st: (MessageType, Vote)) -> (
    MessageType,
    Vote,
) {
    if certified(t, m) {
        (MessageType::NEXT, m.vote)
    } else {
        (MessageType::NEXT, Vote::NullVote)
    }
}

/// Step 5, second finishing: a soft-vote quorum for a value that was not
/// certified in step 3 overrides the null sentinel of step 4 with a
/// next-vote for that value.
pub open spec fn step5_second_finishing(t: u32, m: Majority, st: (MessageType, Vote)) -> (
    MessageType,
    Vote,
) {
    if soft_quorum_value(t, m) && !certified(t, m) {
        (MessageType::NEXT, m.vote)
    } else {
        st
    }
}

/// The five-step decision table applied once per round to a participant
/// whose current message type is `msg0` and current vote is `v0`, given
/// period `p`, threshold `t` and the majority triple `m`. The result is
/// the pair (message type, vote) the participant carries afterwards.
pub open spec fn step_table(p: u32, t: u32, m: Majority, msg0: MessageType, v0: Vote) -> (
    MessageType,
    Vote,
) {
    step5_second_finishing(
        t,
        m,
        step4_first_finishing(
            t,
            m,
            step3_certifying(t, m, step2_filtering(p, t, m, step1_proposal(p, t, m, (msg0, v0)))),
        ),
    )
}

/// Runs the five protocol steps once for one participant: given the
/// period, the threshold and the current period's majority triple, the
/// participant's record leaves with the message type and vote of the
/// decision table, identity and token untouched. The halt flag of the
/// result is always false: halting is decided by `has_halted` before this
/// engine runs.
pub fn advance_step(period: u32, t: u32, m: &Majority, user_i: ParticipantRecord) -> (r: (
    bool,
    ParticipantRecord,
))
    ensures
        r.0 == false,
        r.1.id == user_i.id,
        r.1.token == user_i.token,
        (r.1.message, r.1.vote) == step_table(period, t, *m, user_i.message, user_i.vote),
{
    let mut user = user_i;
    let leader = period == 1 || (m.message == MessageType::NEXT && m.vote == Vote::NullVote && (
    m.count as u64) >= 2 * (t as u64) + 1);
    let next_value = m.message == MessageType::NEXT && m.vote != Vote::NullVote && (m.count as u64)
        >= 2 * (t as u64) + 1;
    let soft_value = m.message == MessageType::SOFT && m.vote != Vote::NullVote && (m.count as u64)
        >= 2 * (t as u64) + 1;

    // Step 1: value proposal.
    if leader {
        // The participant proposes its own vote: broadcast only, no change.
    } else if period >= 2 && next_value {
        user.vote = m.vote;
    }
    // Step 2: filtering.
    if leader {
        user.message = MessageType::SOFT;
    } else if next_value {
        user.message = MessageType::SOFT;
        user.vote = m.vote;
    }
    // Step 3: certifying.
    let mut has_certified_vote = false;
    if soft_value {
        user.message = MessageType::CERT;
        has_certified_vote = true;
    }
    // Step 4: first finishing.
    if has_certified_vote {
        user.message = MessageType::NEXT;
        user.vote = m.vote;
    } else {
        user.message = MessageType::NEXT;
        user.vote = Vote::NullVote;
    }
    // Step 5: second finishing.
    if soft_value && !has_certified_vote {
        user.message = MessageType::NEXT;
        user.vote = m.vote;
    }
    (false, user)
}

/// However the earlier steps move the participant, the round always ends
/// with a next-vote: for the majority's value on a soft-vote quorum for a
/// value, and for the null sentinel otherwise.
pub proof fn lemma_step_table_collapses(p: u32, t: u32, m: Majority, msg0: MessageType, v0: Vote)
    ensures
        step_table(p, t, m, msg0, v0).0 == MessageType::NEXT,
        step_table(p, t, m, msg0, v0).1 == if soft_quorum_value(t, m) {
            m.vote
        } else {
            Vote::NullVote
        },
{
}

/// A majority below the quorum threshold never moves a vote to a value:
/// the round ends next-voting the null sentinel, whatever the period, the
/// participant's entering vote and its entering message type.
pub proof fn lemma_below_threshold_yields_null(
    p: u32,
    t: u32,
    m: Majority,
    msg0: MessageType,
    v0: Vote,
)
    requires
        (m.count as int) < threshold(t),
    ensures
        step_table(p, t, m, msg0, v0) == (MessageType::NEXT, Vote::NullVote),
{
}

/// In the first period with no peer majority observed, the five steps
/// collapse to the propose-self, soft-vote, uncertified, null next-vote
/// path, for every threshold and every entering record.
pub proof fn lemma_first_period_no_majority(t: u32, m: Majority, msg0: MessageType, v0: Vote)
    requires
        m.count == 0,
    ensures
        step_table(1, t, m, msg0, v0) == (MessageType::NEXT, Vote::NullVote),
{
}

/// The majority triple of a population snapshot: its tally's buckets
/// scanned in the fixed order SOFT, CERT, NEXT.
pub open spec fn population_majority(pop: Seq<ParticipantRecord>) -> Majority {
    majority_of_buckets(
        tally_bucket(pop, MessageType::SOFT),
        tally_bucket(pop, MessageType::CERT),
        tally_bucket(pop, MessageType::NEXT),
    )
}

/// The majority count of a snapshot never exceeds the snapshot's length:
/// the scan returns the sentinel's zero or the count of one tally entry,
/// and every tally entry counts distinct records of the snapshot.
pub proof fn lemma_population_majority_bound(pop: Seq<ParticipantRecord>)
    requires
        pop.len() <= u32::MAX,
    ensures
        population_majority(pop).count <= pop.len(),
{
    let soft = tally_bucket(pop, MessageType::SOFT);
    let cert = tally_bucket(pop, MessageType::CERT);
    let next = tally_bucket(pop, MessageType::NEXT);
    lemma_tally_bucket_counts(pop, MessageType::SOFT);
    lemma_tally_bucket_counts(pop, MessageType::CERT);
    lemma_tally_bucket_counts(pop, MessageType::NEXT);
    let m0 = no_majority();
    let m1 = scan_bucket(m0, soft, MessageType::SOFT);
    let m2 = scan_bucket(m1, cert, MessageType::CERT);
    let m3 = scan_bucket(m2, next, MessageType::NEXT);
    lemma_scan_bucket_max(m0, soft, MessageType::SOFT);
    lemma_scan_bucket_max(m1, cert, MessageType::CERT);
    lemma_scan_bucket_max(m2, next, MessageType::NEXT);
    if m3 != m2 {
        let i = choose|i: int|
            0 <= i < next.len() && next[i].vote == m3.vote && next[i].count == m3.count
                && m3.message == MessageType::NEXT;
        assert(next[i].count <= pop.len());
    } else if m2 != m1 {
        let i = choose|i: int|
            0 <= i < cert.len() && cert[i].vote == m2.vote && cert[i].count == m2.count
                && m2.message == MessageType::CERT;
        assert(cert[i].count <= pop.len());
    } else if m1 != m0 {
        let i = choose|i: int|
            0 <= i < soft.len() && soft[i].vote == m1.vote && soft[i].count == m1.count
                && m1.message == MessageType::SOFT;
        assert(soft[i].count <= pop.len());
    }
}

/// One full round for one participant: tallies the peer snapshot,
/// resolves the majority, and either halts — returning the record
/// unchanged with the halt flag set — or runs the five-step engine on it.
pub fn algorand_agreement(p: u32, t: u32, users: &Vec<ParticipantRecord>, user_i: ParticipantRecord)
    -> (r: (bool, ParticipantRecord))
    requires
        users@.len() <= u32::MAX,
    ensures
        r.0 == halts(t, population_majority(users@)),
        halts(t, population_majority(users@)) ==> r.1 == user_i,
        !halts(t, population_majority(users@)) ==> {
            &&& r.1.id == user_i.id
            &&& r.1.token == user_i.token
            &&& (r.1.message, r.1.vote) == step_table(
                p,
                t,
                population_majority(users@),
                user_i.message,
                user_i.vote,
            )
        },
{
    let counts = tally(users);
    let majority = resolve_majority(&counts);
    if has_halted(t, &majority) {
        (true, user_i)
    } else {
        advance_step(p, t, &majority, user_i)
    }
}

} // verus!

