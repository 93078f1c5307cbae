//! Aggregation of a population snapshot into per-(message type, vote) counts.

use vstd::prelude::*;
use crate::votes::{MessageType, ParticipantRecord, Vote};

verus! {

/// One entry of a tally bucket: a vote and how many records carried it.
#[derive(PartialEq, Eq, Structural, Clone, Copy, Debug)]
pub struct VoteCount {
    pub vote: Vote,
    pub count: u32,
}

/// Per-(message type, vote) counts over one population snapshot. Each
/// bucket lists the distinct votes of one message type, in the order of
/// their first occurrence in the snapshot, with their counts. Built fresh
/// from a snapshot, read-only afterwards.
#[derive(PartialEq, Eq, Clone, Debug)]
pub struct Tally {
    pub soft: Vec<VoteCount>,
    pub cert: Vec<VoteCount>,
    pub next: Vec<VoteCount>,
}

/// How many records of `pop` carry exactly the pair (`mt`, `v`).
pub open spec fn count_votes(pop: Seq<ParticipantRecord>, mt: MessageType, v: Vote) -> nat
    decreases pop.len(),
{
    if pop.len() == 0 {
        0
    } else {
        count_votes(pop.drop_last(), mt, v)
            + if pop.last().message == mt && pop.last().vote == v { 1nat } else { 0nat }
    }
}

/// Index of the first entry of `s` carrying vote `v`, or -1 if none does.
pub open spec fn find_vote(s: Seq<VoteCount>, v: Vote) -> int
    decreases s.len(),
{
    if s.len() == 0 {
        -1
    } else if s[0].vote == v {
        0
    } else {
        let r = find_vote(s.drop_first(), v);
        if r < 0 { -1 } else { r + 1 }
    }
}

/// A bucket after counting one more record with vote `v`: the first entry
/// for `v` is incremented, or a fresh entry with count 1 is appended.
pub open spec fn bump(s: Seq<VoteCount>, v: Vote) -> Seq<VoteCount> {
    let i = find_vote(s, v);
    if i < 0 {
        s.push(VoteCount { vote: v, count: 1 })
    } else {
        s.update(i, VoteCount { vote: v, count: (s[i].count + 1) as u32 })
    }
}

/// The bucket for message type `mt` after counting every record of `pop`,
/// in snapshot order.
pub open spec fn tally_bucket(pop: Seq<ParticipantRecord>, mt: MessageType) -> Seq<VoteCount>
    decreases pop.len(),
{
    if pop.len() == 0 {
        Seq::empty()
    } else {
        let prev = tally_bucket(pop.drop_last(), mt);
        if pop.last().message == mt { bump(prev, pop.last().vote) } else { prev }
    }
}

/// The count a bucket records for vote `v`: the count of its first (and,
/// in a built tally, only) entry for `v`, or zero when no entry carries `v`.
pub open spec fn lookup_count(s: Seq<VoteCount>, v: Vote) -> int {
    let i = find_vote(s, v);
    if i < 0 {
        0
    } else {
        s[i].count as int
    }
}

/// The sum of all counts of one bucket.
pub open spec fn sum_counts(s: Seq<VoteCount>) -> int
    decreases s.len(),
{
    if s.len() == 0 {
        0
    } else {
        sum_counts(s.drop_last()) + s.last().count
    }
}

/// Every count of `s` is at most `n`.
pub open spec fn counts_below(s: Seq<VoteCount>, n: int) -> bool {
    forall|i: int| 0 <= i < s.len() ==> s[i].count <= n
}

/// `find_vote` returns the first index carrying `v`, or -1 when no entry
/// does.
proof fn lemma_find_vote_spec(s: Seq<VoteCount>, v: Vote)
    ensures
        find_vote(s, v) >= 0 ==> {
            &&& 0 <= find_vote(s, v) < s.len()
            &&& s[find_vote(s, v)].vote == v
            &&& forall|k: int| 0 <= k < find_vote(s, v) ==> s[k].vote != v
        },
        find_vote(s, v) < 0 ==> forall|k: int| 0 <= k < s.len() ==> s[k].vote != v,
    decreases s.len(),
{
    if s.len() == 0 {
    } else if s[0].vote == v {
    } else {
        lemma_find_vote_spec(s.drop_first(), v);
        assert(forall|k: int| 1 <= k < s.len() ==> s[k] == s.drop_first()[k - 1]);
    }
}

/// Counting one more record with vote `v` raises every bound on the
/// bucket's counts by at most one, and the result's length is the old
/// length or one more.
proof fn lemma_bump_counts(s: Seq<VoteCount>, v: Vote, n: int)
    requires
        0 <= n < u32::MAX,
        counts_below(s, n),
    ensures
        counts_below(bump(s, v), n + 1),
{
    lemma_find_vote_spec(s, v);
    let b = bump(s, v);
    let i = find_vote(s, v);
    assert forall|k: int| 0 <= k < b.len() implies b[k].count <= n + 1 by {
        if i < 0 {
            if k < s.len() {
                assert(b[k] == s[k]);
                assert(s[k].count <= n);
            } else {
                assert(b[k].count == 1);
            }
        } else {
            if k != i {
                assert(b[k] == s[k]);
                assert(s[k].count <= n);
            } else {
                assert(s[i].count <= n);
                assert(b[i].count == (s[i].count + 1) as u32);
            }
        }
    }
}

/// Every count of a tally bucket is at most the number of records counted.
pub proof fn lemma_tally_bucket_counts(pop: Seq<ParticipantRecord>, mt: MessageType)
    requires
        pop.len() <= u32::MAX,
    ensures
        counts_below(tally_bucket(pop, mt), pop.len() as int),
    decreases pop.len(),
{
    if pop.len() > 0 {
        lemma_tally_bucket_counts(pop.drop_last(), mt);
        let prev = tally_bucket(pop.drop_last(), mt);
        assert(counts_below(prev, pop.len() - 1));
        if pop.last().message == mt {
            lemma_bump_counts(prev, pop.last().vote, pop.len() - 1);
        }
    }
}

/// Replacing one entry moves a bucket's sum by the difference of the old
/// and the new count.
proof fn lemma_sum_update(s: Seq<VoteCount>, i: int, x: VoteCount)
    requires
        0 <= i < s.len(),
    ensures
        sum_counts(s.update(i, x)) == sum_counts(s) - s[i].count + x.count,
    decreases s.len(),
{
    if i == s.len() - 1 {
        assert(s.update(i, x).drop_last() =~= s.drop_last());
    } else {
        lemma_sum_update(s.drop_last(), i, x);
        assert(s.update(i, x).drop_last() =~= s.drop_last().update(i, x));
    }
}

/// Appending one entry raises a bucket's sum by that entry's count.
proof fn lemma_sum_push(s: Seq<VoteCount>, x: VoteCount)
    ensures
        sum_counts(s.push(x)) == sum_counts(s) + x.count,
{
    assert(s.push(x).drop_last() =~= s);
}

/// Counting one more record raises a bucket's sum by exactly one.
proof fn lemma_bump_sum(s: Seq<VoteCount>, v: Vote)
    requires
        counts_below(s, u32::MAX - 1),
    ensures
        sum_counts(bump(s, v)) == sum_counts(s) + 1,
{
    lemma_find_vote_spec(s, v);
    let i = find_vote(s, v);
    if i < 0 {
        lemma_sum_push(s, VoteCount { vote: v, count: 1 });
    } else {
        lemma_sum_update(s, i, VoteCount { vote: v, count: (s[i].count + 1) as u32 });
    }
}

/// The counts of a tally sum exactly to the number of records tallied:
/// every record of the snapshot carries one of the three message types
/// and lands in exactly one bucket entry.
pub proof fn lemma_tally_total(pop: Seq<ParticipantRecord>)
    requires
        pop.len() <= u32::MAX,
    ensures
        sum_counts(tally_bucket(pop, MessageType::SOFT)) + sum_counts(
            tally_bucket(pop, MessageType::CERT),
        ) + sum_counts(tally_bucket(pop, MessageType::NEXT)) == pop.len(),
    decreases pop.len(),
{
    if pop.len() > 0 {
        let prev = pop.drop_last();
        lemma_tally_total(prev);
        lemma_tally_bucket_counts(prev, MessageType::SOFT);
        lemma_tally_bucket_counts(prev, MessageType::CERT);
        lemma_tally_bucket_counts(prev, MessageType::NEXT);
        match pop.last().message {
            MessageType::SOFT => lemma_bump_sum(
                tally_bucket(prev, MessageType::SOFT),
                pop.last().vote,
            ),
            MessageType::CERT => lemma_bump_sum(
                tally_bucket(prev, MessageType::CERT),
                pop.last().vote,
            ),
            MessageType::NEXT => lemma_bump_sum(
                tally_bucket(prev, MessageType::NEXT),
                pop.last().vote,
            ),
        }
    }
}

/// Two buckets whose entries carry the same votes at the same indices are
/// searched alike.
proof fn lemma_find_same_votes(s1: Seq<VoteCount>, s2: Seq<VoteCount>, v: Vote)
    requires
        s1.len() == s2.len(),
        forall|i: int| 0 <= i < s1.len() ==> s1[i].vote == s2[i].vote,
    ensures
        find_vote(s1, v) == find_vote(s2, v),
    decreases s1.len(),
{
    if s1.len() > 0 && s1[0].vote != v {
        assert(forall|i: int| 0 <= i < s1.len() - 1 ==> s1.drop_first()[i].vote
            == s2.drop_first()[i].vote);
        lemma_find_same_votes(s1.drop_first(), s2.drop_first(), v);
    }
}

/// Appending an entry leaves every earlier find untouched and makes the
/// new entry findable at the old length.
proof fn lemma_find_push(s: Seq<VoteCount>, x: VoteCount, v: Vote)
    ensures
        find_vote(s.push(x), v) == if find_vote(s, v) >= 0 {
            find_vote(s, v)
        } else if x.vote == v {
            s.len() as int
        } else {
            -1
        },
    decreases s.len(),
{
    if s.len() == 0 {
        assert(s.push(x)[0] == x);
        if x.vote != v {
            assert(s.push(x).drop_first() =~= Seq::<VoteCount>::empty());
            assert(find_vote(Seq::<VoteCount>::empty(), v) == -1);
        }
    } else {
        assert(s.push(x)[0] == s[0]);
        if s[0].vote != v {
            assert(s.push(x).drop_first() =~= s.drop_first().push(x));
            lemma_find_push(s.drop_first(), x, v);
        }
    }
}

/// Counting one record with vote `w` raises the count recorded for `w` by
/// one and leaves the count of every other vote untouched.
proof fn lemma_bump_lookup(s: Seq<VoteCount>, w: Vote, v: Vote)
    requires
        counts_below(s, u32::MAX - 1),
    ensures
        lookup_count(bump(s, w), v) == lookup_count(s, v) + if v == w {
            1int
        } else {
            0int
        },
{
    lemma_find_vote_spec(s, w);
    lemma_find_vote_spec(s, v);
    let i = find_vote(s, w);
    if i < 0 {
        lemma_find_push(s, VoteCount { vote: w, count: 1 }, v);
    } else {
        let b = s.update(i, VoteCount { vote: w, count: (s[i].count + 1) as u32 });
        assert(forall|k: int| 0 <= k < s.len() ==> b[k].vote == s[k].vote);
        lemma_find_same_votes(b, s, v);
    }
}

/// A tally bucket records for each (message type, vote) pair exactly the
/// number of snapshot records carrying that pair.
pub proof fn lemma_tally_count(pop: Seq<ParticipantRecord>, mt: MessageType, v: Vote)
    requires
        pop.len() <= u32::MAX,
    ensures
        lookup_count(tally_bucket(pop, mt), v) == count_votes(pop, mt, v),
    decreases pop.len(),
{
    if pop.len() > 0 {
        let prev = pop.drop_last();
        lemma_tally_count(prev, mt, v);
        lemma_tally_bucket_counts(prev, mt);
        if pop.last().message == mt {
            lemma_bump_lookup(tally_bucket(prev, mt), pop.last().vote, v);
        }
    }
}

/// Counts one record with vote `v` into a bucket: the first entry for `v`
/// is incremented, or a fresh entry with count 1 is appended.
#[verifier::loop_isolation(false)]
fn bump_bucket(bucket: Vec<VoteCount>, v: Vote) -> (r: Vec<VoteCount>)
    requires
        counts_below(bucket@, u32::MAX - 1),
    ensures
        r@ == bump(bucket@, v),
{
    proof {
        lemma_find_vote_spec(bucket@, v);
    }
    let ghost orig = bucket@;
    let mut out = bucket;
    let mut i: usize = 0;
    while i < out.len()
        invariant
            out@ == orig,
            i <= orig.len(),
            counts_below(orig, u32::MAX - 1),
            forall|k: int| 0 <= k < i ==> orig[k].vote != v,
            find_vote(orig, v) >= 0 ==> {
                &&& 0 <= find_vote(orig, v) < orig.len()
                &&& orig[find_vote(orig, v)].vote == v
                &&& forall|k: int| 0 <= k < find_vote(orig, v) ==> orig[k].vote != v
            },
            find_vote(orig, v) < 0 ==> forall|k: int| 0 <= k < orig.len() ==> orig[k].vote != v,
        decreases orig.len() - i,
    {
        if out[i].vote == v {
            let c = out[i].count;
            out.set(i, VoteCount { vote: v, count: c + 1 });
            proof {
                assert(find_vote(orig, v) == i);
                assert(out@ =~= bump(orig, v));
            }
            return out;
        }
        i += 1;
    }
    out.push(VoteCount { vote: v, count: 1 });
    proof {
        assert(find_vote(orig, v) < 0);
        assert(out@ =~= bump(orig, v));
    }
    out
}

/// Builds the tally of one population snapshot: for each record, the entry
/// for its (message type, vote) pair is incremented in the bucket of its
/// message type, in snapshot order. An empty snapshot yields a tally with
/// all three buckets empty.
pub fn tally(population: &Vec<ParticipantRecord>) -> (t: Tally)
    requires
        population@.len() <= u32::MAX,
    ensures
        t.soft@ == tally_bucket(population@, MessageType::SOFT),
        t.cert@ == tally_bucket(population@, MessageType::CERT),
        t.next@ == tally_bucket(population@, MessageType::NEXT),
{
    let mut soft: Vec<VoteCount> = Vec::new();
    let mut cert: Vec<VoteCount> = Vec::new();
    let mut next: Vec<VoteCount> = Vec::new();
    let mut j: usize = 0;
    while j < population.len()
        invariant
            j <= population@.len(),
            population@.len() <= u32::MAX,
            soft@ == tally_bucket(population@.take(j as int), MessageType::SOFT),
            cert@ == tally_bucket(population@.take(j as int), MessageType::CERT),
            next@ == tally_bucket(population@.take(j as int), MessageType::NEXT),
        decreases population@.len() - j,
    {
        let ghost prefix = population@.take(j as int);
        proof {
            lemma_tally_bucket_counts(prefix, MessageType::SOFT);
            lemma_tally_bucket_counts(prefix, MessageType::CERT);
            lemma_tally_bucket_counts(prefix, MessageType::NEXT);
            assert(population@.take(j + 1).drop_last() =~= prefix);
            assert(population@.take(j + 1).last() == population@[j as int]);
        }
        let rec = &population[j];
        match rec.message {
            MessageType::SOFT => {
                soft = bump_bucket(soft, rec.vote);
            },
            MessageType::CERT => {
                cert = bump_bucket(cert, rec.vote);
            },
            MessageType::NEXT => {
                next = bump_bucket(next, rec.vote);
            },
        }
        j += 1;
    }
    proof {
        assert(population@.take(population@.len() as int) =~= population@);
    }
    Tally { soft, cert, next }
}

} // verus!
