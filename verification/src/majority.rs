//! Resolution of a tally into the single (message type, vote) pair with the
//! strictly largest count.

use vstd::prelude::*;
use crate::tally::{Tally, VoteCount};
use crate::votes::{MessageType, Vote};

verus! {

/// The majority triple: the (message type, vote) pair with the largest
/// count over a tally, and that count.
#[derive(PartialEq, Eq, Structural, Clone, Copy, Debug)]
pub struct Majority {
    pub message: MessageType,
    pub vote: Vote,
    pub count: u32,
}

/// The sentinel "no majority observed" result of an entirely empty tally.
pub open spec fn no_majority() -> Majority {
    Majority { message: MessageType::SOFT, vote: Vote::NullVote, count: 0 }
}

/// The leader after scanning one bucket, starting from `best`: an entry
/// replaces the leader only with a strictly greater count, so among equal
/// maxima the first one encountered wins.
pub open spec fn scan_bucket(best: Majority, s: Seq<VoteCount>, mt: MessageType) -> Majority
    decreases s.len(),
{
    if s.len() == 0 {
        best
    } else {
        let prev = scan_bucket(best, s.drop_last(), mt);
        if s.last().count > prev.count {
            Majority { message: mt, vote: s.last().vote, count: s.last().count }
        } else {
            prev
        }
    }
}

/// The majority of three buckets, scanned in the fixed order
/// SOFT, CERT, NEXT.
pub open spec fn majority_of_buckets(
    soft: Seq<VoteCount>,
    cert: Seq<VoteCount>,
    next: Seq<VoteCount>,
) -> Majority {
    scan_bucket(
        scan_bucket(scan_bucket(no_majority(), soft, MessageType::SOFT), cert, MessageType::CERT),
        next,
        MessageType::NEXT,
    )
}

/// The majority of a tally.
pub open spec fn majority_of(t: Tally) -> Majority {
    majority_of_buckets(t.soft@, t.cert@, t.next@)
}

/// Scans the three buckets of `t` in the fixed order SOFT, CERT, NEXT and
/// returns the (message type, vote) pair with the strictly largest count,
/// with its count. A later pair with an equal count does not replace the
/// current leader, so among equal maxima the first one encountered wins.
/// On an entirely empty tally the sentinel (SOFT, NullVote, 0) is returned.
#[verifier::loop_isolation(false)]
pub fn resolve_majority(t: &Tally) -> (m: Majority)
    ensures
        m == majority_of(*t),
{
    let mut best = Majority { message: MessageType::SOFT, vote: Vote::NullVote, count: 0 };
    let ghost b0 = best;
    let mut i: usize = 0;
    while i < t.soft.len()
        invariant
            i <= t.soft@.len(),
            best == scan_bucket(b0, t.soft@.take(i as int), MessageType::SOFT),
        decreases t.soft@.len() - i,
    {
        proof {
            assert(t.soft@.take(i + 1).drop_last() =~= t.soft@.take(i as int));
        }
        if t.soft[i].count > best.count {
            best = Majority { message: MessageType::SOFT, vote: t.soft[i].vote, count: t.soft[i].count };
        }
        i += 1;
    }
    proof {
        assert(t.soft@.take(t.soft@.len() as int) =~= t.soft@);
    }
    let ghost b1 = best;
    let mut i: usize = 0;
    while i < t.cert.len()
        invariant
            i <= t.cert@.len(),
            best == scan_bucket(b1, t.cert@.take(i as int), MessageType::CERT),
            b1 == scan_bucket(b0, t.soft@, MessageType::SOFT),
        decreases t.cert@.len() - i,
    {
        proof {
            assert(t.cert@.take(i + 1).drop_last() =~= t.cert@.take(i as int));
        }
        if t.cert[i].count > best.count {
            best = Majority { message: MessageType::CERT, vote: t.cert[i].vote, count: t.cert[i].count };
        }
        i += 1;
    }
    proof {
        assert(t.cert@.take(t.cert@.len() as int) =~= t.cert@);
    }
    let ghost b2 = best;
    let mut i: usize = 0;
    while i < t.next.len()
        invariant
            i <= t.next@.len(),
            best == scan_bucket(b2, t.next@.take(i as int), MessageType::NEXT),
            b2 == scan_bucket(b1, t.cert@, MessageType::CERT),
            b1 == scan_bucket(b0, t.soft@, MessageType::SOFT),
        decreases t.next@.len() - i,
    {
        proof {
            assert(t.next@.take(i + 1).drop_last() =~= t.next@.take(i as int));
        }
        if t.next[i].count > best.count {
            best = Majority { message: MessageType::NEXT, vote: t.next[i].vote, count: t.next[i].count };
        }
        i += 1;
    }
    proof {
        assert(t.next@.take(t.next@.len() as int) =~= t.next@);
    }
    best
}

/// Scanning a bucket never lowers the leader's count, the result's count
/// dominates every count in the bucket, and the result is either the
/// starting leader or one of the bucket's entries tagged with the bucket's
/// message type.
pub proof fn lemma_scan_bucket_max(best: Majority, s: Seq<VoteCount>, mt: MessageType)
    ensures
        scan_bucket(best, s, mt).count >= best.count,
        forall|i: int| 0 <= i < s.len() ==> s[i].count <= scan_bucket(best, s, mt).count,
        scan_bucket(best, s, mt) == best || exists|i: int|
            0 <= i < s.len() && s[i].vote == scan_bucket(best, s, mt).vote && s[i].count
                == scan_bucket(best, s, mt).count && scan_bucket(best, s, mt).message == mt,
    decreases s.len(),
{
    if s.len() > 0 {
        lemma_scan_bucket_max(best, s.drop_last(), mt);
        let r = scan_bucket(best, s, mt);
        assert(forall|i: int| 0 <= i < s.len() - 1 ==> s[i] == s.drop_last()[i]);
        if s.last().count > scan_bucket(best, s.drop_last(), mt).count {
            assert(s[s.len() - 1].vote == r.vote && s[s.len() - 1].count == r.count);
        }
    }
}

/// The majority count dominates every count in every bucket of the tally.
pub proof fn lemma_majority_is_max(t: Tally)
    ensures
        forall|i: int| 0 <= i < t.soft@.len() ==> t.soft@[i].count <= majority_of(t).count,
        forall|i: int| 0 <= i < t.cert@.len() ==> t.cert@[i].count <= majority_of(t).count,
        forall|i: int| 0 <= i < t.next@.len() ==> t.next@[i].count <= majority_of(t).count,
{
    let m0 = no_majority();
    let m1 = scan_bucket(m0, t.soft@, MessageType::SOFT);
    let m2 = scan_bucket(m1, t.cert@, MessageType::CERT);
    lemma_scan_bucket_max(m0, t.soft@, MessageType::SOFT);
    lemma_scan_bucket_max(m1, t.cert@, MessageType::CERT);
    lemma_scan_bucket_max(m2, t.next@, MessageType::NEXT);
}

/// The majority of a tally is the sentinel, or carries the message type
/// and vote of some entry of the corresponding bucket together with that
/// entry's count.
pub proof fn lemma_majority_is_entry(t: Tally)
    ensures
        ({
        ||| majority_of(t) == no_majority()
        ||| (majority_of(t).message == MessageType::SOFT && exists|i: int|
            0 <= i < t.soft@.len() && t.soft@[i].vote == majority_of(t).vote && t.soft@[i].count
                == majority_of(t).count)
        ||| (majority_of(t).message == MessageType::CERT && exists|i: int|
            0 <= i < t.cert@.len() && t.cert@[i].vote == majority_of(t).vote && t.cert@[i].count
                == majority_of(t).count)
        ||| (majority_of(t).message == MessageType::NEXT && exists|i: int|
            0 <= i < t.next@.len() && t.next@[i].vote == majority_of(t).vote && t.next@[i].count
                == majority_of(t).count)
        }),
{
    let m0 = no_majority();
    let m1 = scan_bucket(m0, t.soft@, MessageType::SOFT);
    let m2 = scan_bucket(m1, t.cert@, MessageType::CERT);
    let m3 = scan_bucket(m2, t.next@, MessageType::NEXT);
    lemma_scan_bucket_max(m0, t.soft@, MessageType::SOFT);
    lemma_scan_bucket_max(m1, t.cert@, MessageType::CERT);
    lemma_scan_bucket_max(m2, t.next@, MessageType::NEXT);
    if m3 != no_majority() {
        if m3 != m2 {
            assert(m3.message == MessageType::NEXT);
        } else if m2 != m1 {
            assert(m2.message == MessageType::CERT);
        } else {
            assert(m1 != m0);
            assert(m1.message == MessageType::SOFT);
        }
    }
}

/// On an entirely empty tally the majority is the sentinel
/// (SOFT, NullVote, 0): no majority observed.
pub proof fn lemma_majority_of_empty(t: Tally)
    requires
        t.soft@.len() == 0,
        t.cert@.len() == 0,
        t.next@.len() == 0,
    ensures
        majority_of(t) == no_majority(),
{
}

} // verus!
