//! Checking that a failover lost nothing: a publisher of numbered groups, and a subscriber that
//! judges the groups that it received.

use crate::text::{append_decimal, decimal};
use vstd::prelude::*;

verus! {

/// The frame of a numbered group.
pub open spec fn payload_of(seq: u64) -> Seq<char> {
    "group="@ + decimal(seq as nat)
}

/// Whether a publisher that emits so many groups, or any number if that is zero, emits one more
/// after `seq` of them.
pub open spec fn emits(seq: u64, count: u64) -> bool {
    count == 0 || seq < count
}

/// The frame of the next group of a publisher, which emits so many groups, or any number if that
/// is zero; none once all are published.
pub fn next_payload(seq: u64, count: u64) -> (payload: Option<String>)
    ensures
        match payload {
            Some(p) => emits(seq, count) && p@ == payload_of(seq),
            None => !emits(seq, count),
        },
{
    if count != 0 && seq >= count {
        return None;
    }
    let mut payload = "group=".to_owned();
    append_decimal(&mut payload, seq);
    Some(payload)
}

/// A received group with its arrival metadata.
#[derive(Debug, Clone, Copy, PartialEq, Eq, Structural)]
pub struct ReceivedGroup {
    pub seq: u64,
    /// When the group arrived, in nanoseconds.
    pub arrival: u64,
    /// Whether the group has no frames.
    pub truncated: bool,
}

/// The sequence numbers of groups, in the order of their arrival.
pub open spec fn sequences(received: Seq<ReceivedGroup>) -> Seq<u64> {
    received.map_values(|g: ReceivedGroup| g.seq)
}

/// The least of some numbers.
pub open spec fn least(s: Seq<u64>) -> u64
    decreases s.len(),
{
    if s.len() <= 1 {
        s[0]
    } else if least(s.drop_last()) <= s.last() {
        least(s.drop_last())
    } else {
        s.last()
    }
}

/// The greatest of some numbers.
pub open spec fn greatest(s: Seq<u64>) -> u64
    decreases s.len(),
{
    if s.len() <= 1 {
        s[0]
    } else if greatest(s.drop_last()) >= s.last() {
        greatest(s.drop_last())
    } else {
        s.last()
    }
}

/// How many groups have no frames.
pub open spec fn truncated(received: Seq<ReceivedGroup>) -> nat
    decreases received.len(),
{
    if received.len() == 0 {
        0
    } else {
        truncated(received.drop_last()) + if received.last().truncated {
            1nat
        } else {
            0nat
        }
    }
}

/// How long after a time another came; nothing if it was earlier.
pub open spec fn gap(from: u64, to: u64) -> nat {
    if from <= to {
        (to - from) as nat
    } else {
        0
    }
}

/// From group `i` on, the first that came so many nanoseconds, or more, after the one before it.
pub open spec fn steady_from(received: Seq<ReceivedGroup>, threshold: nat, i: nat) -> Option<nat>
    decreases received.len() - i,
{
    if i >= received.len() {
        None
    } else if i >= 1 && gap(received[i - 1].arrival, received[i as int].arrival) >= threshold {
        Some(i)
    } else {
        steady_from(received, threshold, i + 1)
    }
}

/// The number that is to follow another.
pub open spec fn successor(seq: u64) -> u64 {
    if seq == u64::MAX {
        0
    } else {
        (seq + 1) as u64
    }
}

/// From group `i` on, how many do not follow the one before them.
pub open spec fn violations(received: Seq<ReceivedGroup>, i: nat) -> nat
    decreases received.len() - i,
{
    if i >= received.len() {
        0
    } else {
        violations(received, i + 1) + if i >= 1 && received[i as int].seq != successor(
            received[i - 1].seq,
        ) {
            1nat
        } else {
            0nat
        }
    }
}

/// What was received.
#[derive(Debug, Clone, Copy, PartialEq, Eq, Structural)]
pub struct Report {
    pub received: usize,
    /// The least and the greatest sequence number.
    pub first: u64,
    pub last: u64,
    pub duplicates: usize,
    /// How many numbers between the least and the greatest are missing.
    pub missing: u128,
    pub truncated: usize,
    /// From which group on they came at the cadence of the publisher, rather than in the initial
    /// burst.
    pub steady_start: Option<usize>,
    /// How many of those do not follow the one before them.
    pub violations: usize,
}

impl Report {
    /// Whether every group came once, and whole.
    pub open spec fn complete(self) -> bool {
        self.duplicates == 0 && self.missing == 0 && self.truncated == 0
    }

    /// Whether every group came once, and whole.
    pub fn is_complete(&self) -> (b: bool)
        ensures
            b == self.complete(),
    {
        self.duplicates == 0 && self.missing == 0 && self.truncated == 0
    }

    /// Whether the groups came in order once the initial burst was over.
    pub fn is_contiguous(&self) -> (b: bool)
        ensures
            b == (self.violations == 0),
    {
        self.violations == 0
    }

    /// Whether nothing is wrong.
    pub fn passed(&self) -> (b: bool)
        ensures
            b == (self.complete() && self.violations == 0),
    {
        self.is_complete() && self.is_contiguous()
    }
}

/// How many different numbers there are.
pub open spec fn distinct(s: Seq<u64>) -> nat {
    s.to_set().len()
}

/// What groups amount to, with a threshold in milliseconds.
pub open spec fn report_is(received: Seq<ReceivedGroup>, threshold_ms: u64, r: Report) -> bool {
    let seqs = sequences(received);
    &&& r.received == received.len()
    &&& r.first == least(seqs)
    &&& r.last == greatest(seqs)
    &&& r.duplicates == received.len() - distinct(seqs)
    &&& r.missing == r.last - r.first + 1 - distinct(seqs)
    &&& r.truncated == truncated(received)
    &&& match steady_from(received, threshold_ms as nat * 1_000_000, 1) {
        Some(start) => r.steady_start == Some(start as usize) && r.violations == violations(
            received,
            start + 1,
        ),
        None => r.steady_start is None && r.violations == 0,
    }
}

/// The least and the greatest number are among the numbers, and all others lie between them.
pub proof fn law_range_is_tight(s: Seq<u64>)
    requires
        s.len() > 0,
    ensures
        s.contains(least(s)),
        s.contains(greatest(s)),
        forall|i: int| 0 <= i < s.len() ==> least(s) <= #[trigger] s[i] <= greatest(s),
    decreases s.len(),
{
    if s.len() == 1 {
        assert(s[0] == least(s));
    } else {
        let f = s.drop_last();
        law_range_is_tight(f);
        let a = choose|i: int| 0 <= i < f.len() && f[i] == least(f);
        let b = choose|i: int| 0 <= i < f.len() && f[i] == greatest(f);
        assert(s[a] == least(f) && s[b] == greatest(f));
        assert(s[s.len() - 1] == s.last());
        assert forall|i: int| 0 <= i < s.len() implies least(s) <= #[trigger] s[i]
            <= greatest(s) by {
            if i < f.len() {
                assert(f[i] == s[i]);
            }
        }
    }
}

/// The numbers of a range.
pub open spec fn range(first: u64, last: u64) -> Set<u64> {
    Set::new(|n: u64| first <= n <= last)
}

proof fn lemma_range_len(first: u64, last: u64)
    requires
        first <= last,
    ensures
        range(first, last).finite(),
        range(first, last).len() == last - first + 1,
    decreases last - first,
{
    if first == last {
        assert(range(first, last) =~= Set::empty().insert(first));
    } else {
        lemma_range_len(first, (last - 1) as u64);
        assert(range(first, last) =~= range(first, (last - 1) as u64).insert(last));
    }
}

proof fn lemma_distinct_fits(s: Seq<u64>)
    requires
        s.len() > 0,
    ensures
        distinct(s) <= greatest(s) - least(s) + 1,
        distinct(s) <= s.len(),
        s.to_set().subset_of(range(least(s), greatest(s))),
        range(least(s), greatest(s)).finite(),
        range(least(s), greatest(s)).len() == greatest(s) - least(s) + 1,
{
    law_range_is_tight(s);
    assert(least(s) <= greatest(s)) by {
        assert(least(s) <= s[0] <= greatest(s));
    }
    lemma_range_len(least(s), greatest(s));
    vstd::seq_lib::seq_to_set_is_finite(s);
    assert forall|n: u64| s.to_set().contains(n) implies range(least(s), greatest(s)).contains(
        n,
    ) by {
        assert(s.contains(n));
    }
    vstd::set_lib::lemma_len_subset(s.to_set(), range(least(s), greatest(s)));
    s.lemma_cardinality_of_set();
}

/// Groups that are judged complete are exactly those of a range of numbers: none is missing, and
/// none came twice.
pub proof fn law_complete_is_exact(received: Seq<ReceivedGroup>, threshold_ms: u64, r: Report)
    requires
        received.len() > 0,
        report_is(received, threshold_ms, r),
        r.complete(),
    ensures
        forall|n: u64| r.first <= n <= r.last ==> #[trigger] sequences(received).contains(n),
        sequences(received).no_duplicates(),
        forall|i: int| 0 <= i < received.len() ==> !(#[trigger] received[i]).truncated,
{
    let s = sequences(received);
    lemma_distinct_fits(s);
    vstd::set_lib::lemma_subset_equality(s.to_set(), range(r.first, r.last));
    assert forall|n: u64| r.first <= n <= r.last implies #[trigger] s.contains(n) by {
        assert(range(r.first, r.last).contains(n));
        assert(s.to_set().contains(n));
    }
    s.lemma_no_dup_set_cardinality();
    lemma_none_truncated(received);
}

proof fn lemma_none_truncated(received: Seq<ReceivedGroup>)
    requires
        truncated(received) == 0,
    ensures
        forall|i: int| 0 <= i < received.len() ==> !(#[trigger] received[i]).truncated,
    decreases received.len(),
{
    if received.len() > 0 {
        let f = received.drop_last();
        lemma_none_truncated(f);
        assert forall|i: int| 0 <= i < received.len() implies !(#[trigger] received[i]).truncated by {
            if i < f.len() {
                assert(f[i] == received[i]);
            }
        }
    }
}

/// Groups that are judged contiguous came one after the other from the start of the steady state
/// on.
pub proof fn law_contiguous_is_in_order(received: Seq<ReceivedGroup>, start: nat, i: int)
    requires
        violations(received, start + 1) == 0,
        start < i < received.len(),
    ensures
        received[i].seq == successor(received[i - 1].seq),
    decreases received.len() - start,
{
    if i > start + 1 {
        law_contiguous_is_in_order(received, start + 1, i);
    }
}

/// Whether a number occurs among the first ones.
fn occurs(received: &Vec<ReceivedGroup>, n: usize, seq: u64) -> (b: bool)
    requires
        n <= received@.len(),
    ensures
        b == sequences(received@).take(n as int).contains(seq),
{
    let ghost s = sequences(received@).take(n as int);
    let mut i: usize = 0;
    while i < n
        invariant
            i <= n <= received@.len(),
            s == sequences(received@).take(n as int),
            forall|j: int| 0 <= j < i ==> #[trigger] s[j] != seq,
        decreases n - i,
    {
        if received[i].seq == seq {
            assert(s[i as int] == seq);
            return true;
        }
        i = i + 1;
    }
    false
}

/// Judges the groups that were received. The initial burst ends with the first group that came at
/// least so many milliseconds after the one before it.
pub fn judge(received: &Vec<ReceivedGroup>, burst_threshold_ms: u64) -> (r: Report)
    requires
        received@.len() > 0,
    ensures
        report_is(received@, burst_threshold_ms, r),
{
    let ghost seqs = sequences(received@);
    let mut first: u64 = received[0].seq;
    let mut last: u64 = received[0].seq;
    let mut found: usize = 1;
    let mut cut: usize = if received[0].truncated {
        1
    } else {
        0
    };
    let mut i: usize = 1;
    proof {
        let one = seqs.take(1);
        assert(one[0] == seqs[0]);
        assert forall|n: u64| one.to_set().contains(n) <==> Set::empty().insert(seqs[0]).contains(
            n,
        ) by {
            assert(one.contains(seqs[0]));
        }
        assert(one.to_set() =~= Set::empty().insert(seqs[0]));
        let head = received@.take(1);
        assert(head.last() == received@[0]);
        assert(head.drop_last().len() == 0);
        assert(truncated(head.drop_last()) == 0);
    }
    while i < received.len()
        invariant
            1 <= i <= received@.len(),
            seqs == sequences(received@),
            first == least(seqs.take(i as int)),
            last == greatest(seqs.take(i as int)),
            found == distinct(seqs.take(i as int)),
            found <= i,
            cut == truncated(received@.take(i as int)),
            cut <= i,
        decreases received@.len() - i,
    {
        let g: ReceivedGroup = received[i];
        proof {
            let next = seqs.take(i + 1);
            assert(next.drop_last() =~= seqs.take(i as int));
            assert(next.last() == g.seq);
            assert(received@.take(i + 1).drop_last() =~= received@.take(i as int));
            vstd::seq_lib::seq_to_set_is_finite(seqs.take(i as int));
            assert(next.to_set() =~= seqs.take(i as int).to_set().insert(g.seq)) by {
                assert forall|n: u64| next.to_set().contains(n) <==> seqs.take(
                    i as int,
                ).to_set().insert(g.seq).contains(n) by {
                    if next.contains(n) {
                        let j = choose|j: int| 0 <= j < next.len() && next[j] == n;
                        if j < i {
                            assert(seqs.take(i as int)[j] == n);
                        }
                    }
                    if seqs.take(i as int).contains(n) {
                        let j = choose|j: int| 0 <= j < i && seqs.take(i as int)[j] == n;
                        assert(next[j] == n);
                    }
                    assert(next[i as int] == g.seq);
                }
            }
        }
        if !occurs(received, i, g.seq) {
            found = found + 1;
        }
        if first > g.seq {
            first = g.seq;
        }
        if last < g.seq {
            last = g.seq;
        }
        if g.truncated {
            cut = cut + 1;
        }
        i = i + 1;
    }
    proof {
        assert(seqs.take(i as int) =~= seqs);
        assert(received@.take(i as int) =~= received@);
        lemma_distinct_fits(seqs);
    }
    let steady_start = steady(received, burst_threshold_ms);
    let out_of_order: usize = match steady_start {
        Some(start) => count_violations(received, start),
        None => 0,
    };
    Report {
        received: received.len(),
        first,
        last,
        duplicates: received.len() - found,
        missing: last as u128 - first as u128 + 1 - found as u128,
        truncated: cut,
        steady_start,
        violations: out_of_order,
    }
}

/// Finds the end of the initial burst.
fn steady(received: &Vec<ReceivedGroup>, threshold_ms: u64) -> (start: Option<usize>)
    ensures
        match steady_from(received@, threshold_ms as nat * 1_000_000, 1) {
            Some(n) => start == Some(n as usize) && 1 <= n < received@.len(),
            None => start is None,
        },
{
    let threshold: u128 = threshold_ms as u128 * 1_000_000;
    let mut i: usize = 1;
    while i < received.len()
        invariant
            1 <= i,
            i <= received@.len() || received@.len() == 0,
            threshold == threshold_ms as nat * 1_000_000,
            steady_from(received@, threshold as nat, 1) == steady_from(
                received@,
                threshold as nat,
                i as nat,
            ),
        decreases received@.len() - i,
    {
        let gap: u64 = received[i].arrival.saturating_sub(received[i - 1].arrival);
        if gap as u128 >= threshold {
            return Some(i);
        }
        i = i + 1;
    }
    None
}

/// Counts the groups after one that do not follow the one before them.
fn count_violations(received: &Vec<ReceivedGroup>, start: usize) -> (n: usize)
    requires
        start < received@.len(),
    ensures
        n == violations(received@, start as nat + 1),
{
    let mut i: usize = received.len();
    let mut n: usize = 0;
    while i > start + 1
        invariant
            start < i <= received@.len(),
            n == violations(received@, i as nat),
            n <= received@.len() - i,
            received@.len() <= usize::MAX,
        decreases i,
    {
        i = i - 1;
        if received[i].seq != received[i - 1].seq.wrapping_add(1) {
            n = n + 1;
        }
    }
    n
}

/// What was received so far, and how much is wanted.
#[derive(Debug)]
pub struct Verifier {
    /// Minimum number of groups to receive before they are judged.
    pub min_groups: u64,
    pub received: Vec<ReceivedGroup>,
}

impl Verifier {
    /// Nothing was received.
    pub fn new(min_groups: u64) -> (v: Self)
        ensures
            v.min_groups == min_groups,
            v.received@ == Seq::<ReceivedGroup>::empty(),
    {
        Verifier { min_groups, received: Vec::new() }
    }

    /// Whether more groups are to be received.
    pub fn wants_more(&self) -> (b: bool)
        ensures
            b == (self.received@.len() < self.min_groups),
    {
        (self.received.len() as u64) < self.min_groups
    }

    /// A group was received; it is truncated if it has no frames.
    pub fn record(&mut self, seq: u64, arrival: u64, has_frame: bool)
        ensures
            final(self).min_groups == old(self).min_groups,
            final(self).received@ == old(self).received@.push(
                ReceivedGroup { seq, arrival, truncated: !has_frame },
            ),
    {
        self.received.push(ReceivedGroup { seq, arrival, truncated: !has_frame });
    }

    /// What is wrong when the track ends too early.
    pub fn ended(&self) -> (message: String)
        ensures
            message@ == "track ended after "@ + decimal(self.received@.len()) + " groups (needed "@
                + decimal(self.min_groups as nat) + ")"@,
    {
        let mut message = "track ended after ".to_owned();
        append_decimal(&mut message, self.received.len() as u64);
        message.append(" groups (needed ");
        append_decimal(&mut message, self.min_groups);
        message.append(")");
        message
    }

    /// Judges what was received; none if that is nothing.
    pub fn report(&self, burst_threshold_ms: u64) -> (report: Option<Report>)
        ensures
            match report {
                Some(r) => self.received@.len() > 0 && report_is(
                    self.received@,
                    burst_threshold_ms,
                    r,
                ),
                None => self.received@.len() == 0,
            },
    {
        if self.received.len() == 0 {
            None
        } else {
            Some(judge(&self.received, burst_threshold_ms))
        }
    }
}

/// A publisher of `count` groups emits those whose numbers are below that, and one without a limit
/// emits all.
pub proof fn law_all_groups_are_emitted(seq: u64, count: u64)
    ensures
        count > 0 ==> (emits(seq, count) <==> seq < count),
        emits(seq, 0),
{
}

/// The number after the last is zero, and the number after any other is one more.
pub proof fn law_successor(seq: u64)
    ensures
        successor(seq) == (seq + 1) % 0x1_0000_0000_0000_0000,
{
}

/// As many groups are truncated as there are truncated groups.
pub proof fn law_truncated_are_counted(received: Seq<ReceivedGroup>)
    ensures
        truncated(received) == received.filter(|g: ReceivedGroup| g.truncated).len(),
    decreases received.len(),
{
    reveal(Seq::filter);
    if received.len() > 0 {
        law_truncated_are_counted(received.drop_last());
    }
}

/// Where the steady state starts, a group came at least that long after the one before it; no
/// group before it did, except the first, which has none before it.
pub proof fn law_steady_state_starts(received: Seq<ReceivedGroup>, threshold: nat, i: nat)
    requires
        1 <= i,
    ensures
        match steady_from(received, threshold, i) {
            Some(k) => {
                &&& i <= k < received.len()
                &&& gap(received[k - 1].arrival, received[k as int].arrival) >= threshold
                &&& forall|j: int|
                    i <= j < k ==> gap(received[j - 1].arrival, (#[trigger] received[j]).arrival)
                        < threshold
            },
            None => forall|j: int|
                i <= j < received.len() ==> gap(
                    received[j - 1].arrival,
                    (#[trigger] received[j]).arrival,
                ) < threshold,
        },
    decreases received.len() - i,
{
    if i < received.len() && gap(received[i - 1].arrival, received[i as int].arrival) < threshold {
        law_steady_state_starts(received, threshold, i + 1);
    }
}

/// The time between two arrivals is their distance, and nothing where the later one is not later.
pub proof fn law_gap(from: u64, to: u64)
    ensures
        from <= to ==> from + gap(from, to) == to,
        from > to ==> gap(from, to) == 0,
{
}

/// The groups that are out of order, from group `i` on, by their places.
pub open spec fn out_of_order(received: Seq<ReceivedGroup>, i: nat) -> Set<int> {
    Set::new(
        |k: int|
            i <= k < received.len() && received[k].seq != (received[k - 1].seq + 1)
                % 0x1_0000_0000_0000_0000,
    )
}

/// As many groups violate the order as do not have the number after that of the group before them.
pub proof fn law_violations_are_counted(received: Seq<ReceivedGroup>, i: nat)
    requires
        1 <= i,
    ensures
        out_of_order(received, i).finite(),
        violations(received, i) == out_of_order(received, i).len(),
    decreases received.len() - i,
{
    if i >= received.len() {
        assert(out_of_order(received, i) =~= Set::empty());
    } else {
        law_violations_are_counted(received, i + 1);
        law_successor(received[i - 1].seq);
        if received[i as int].seq != successor(received[i - 1].seq) {
            assert(out_of_order(received, i) =~= out_of_order(received, i + 1).insert(i as int));
        } else {
            assert(out_of_order(received, i) =~= out_of_order(received, i + 1));
        }
    }
}

/// As many groups are missing as there are numbers between the least and the greatest that were
/// not received; and none is a duplicate exactly if no number was received twice.
pub proof fn law_missing_are_counted(received: Seq<ReceivedGroup>, threshold_ms: u64, r: Report)
    requires
        received.len() > 0,
        report_is(received, threshold_ms, r),
    ensures
        r.missing == range(r.first, r.last).difference(sequences(received).to_set()).len(),
        r.duplicates == 0 <==> sequences(received).no_duplicates(),
        r.complete() <==> r.duplicates == 0 && r.missing == 0 && r.truncated == 0,
        forall|k: int|
            0 <= k < received.len() ==> r.first <= (#[trigger] received[k]).seq <= r.last,
{
    let s = sequences(received);
    lemma_distinct_fits(s);
    law_range_is_tight(s);
    assert forall|k: int| 0 <= k < received.len() implies r.first <= (#[trigger] received[k]).seq
        <= r.last by {
        assert(s[k] == received[k].seq);
    }
    let all = range(r.first, r.last);
    let seen = s.to_set();
    vstd::seq_lib::seq_to_set_is_finite(s);
    vstd::set_lib::lemma_len_subset(seen, all);
    assert(all.difference(seen).union(seen) =~= all);
    assert(all.difference(seen).disjoint(seen));
    vstd::set_lib::lemma_set_disjoint_lens(all.difference(seen), seen);
    if s.no_duplicates() {
        s.unique_seq_to_set();
    } else {
        s.lemma_cardinality_of_set();
        if r.duplicates == 0 {
            s.lemma_no_dup_set_cardinality();
        }
    }
}

} // verus!
