//! Counters: responses by status class, admission rejects by reason.

use vstd::prelude::*;
use crate::order;
use crate::order::{place, Placement};

verus! {

/// `std::time::Instant`, carried as it is.
#[verifier::external_type_specification]
#[verifier::external_body]
pub struct ExInstant(std::time::Instant);

/// `Instant::now`: a moment of which nothing is promised.
#[verifier::external_body]
fn this_moment() -> std::time::Instant {
    std::time::Instant::now()
}

/// The nanoseconds from one moment to a later one, as
/// `Instant::saturating_duration_since` tells them; zero where the second comes
/// first.
pub uninterp spec fn nanos_between(earlier: std::time::Instant, later: std::time::Instant) -> u128;

/// `Instant::saturating_duration_since`, its `Duration` as a number of
/// nanoseconds: a function of the two moments. A `Duration` counts its whole
/// seconds in 64 bits. How far two given moments lie apart is not said here.
#[verifier::external_body]
fn time_between(earlier: &std::time::Instant, later: &std::time::Instant) -> (r: u128)
    ensures
        r == nanos_between(*earlier, *later),
        r / 1_000_000_000 <= u64::MAX,
{
    later.saturating_duration_since(*earlier).as_nanos()
}

/// The whole seconds from one moment to a later one.
pub open spec fn seconds_between(earlier: std::time::Instant, later: std::time::Instant) -> int {
    nanos_between(earlier, later) as int / 1_000_000_000
}

/// The counters of one adapter process.
pub struct MetricsRegistry {
    started_at: std::time::Instant,
    responses_1xx: u64,
    responses_2xx: u64,
    responses_3xx: u64,
    responses_4xx: u64,
    responses_5xx: u64,
    rejects_by_reason: Vec<(&'static str, u64)>,
}

/// How many responses each status class has seen.
#[derive(Clone, Copy, Debug, PartialEq, Eq, Structural)]
pub struct StatusClassCounts {
    pub responses_1xx: u64,
    pub responses_2xx: u64,
    pub responses_3xx: u64,
    pub responses_4xx: u64,
    pub responses_5xx: u64,
}

pub open spec fn saturating_sum(a: int, b: int) -> int {
    if a + b > u64::MAX {
        u64::MAX as int
    } else {
        a + b
    }
}

impl StatusClassCounts {
    pub open spec fn sum(&self) -> int {
        self.responses_1xx + self.responses_2xx + self.responses_3xx + self.responses_4xx + self.responses_5xx
    }

    /// All responses; the largest number there is where they are more than that.
    pub fn total(&self) -> (r: u64)
        ensures
            r == saturating_sum(self.sum(), 0),
    {
        self.responses_1xx.saturating_add(self.responses_2xx).saturating_add(self.responses_3xx).saturating_add(
            self.responses_4xx,
        ).saturating_add(self.responses_5xx)
    }
}

/// The next value of a counter that starts over after the largest number.
pub open spec fn bumped(n: u64) -> u64 {
    if n == u64::MAX {
        0
    } else {
        (n + 1) as u64
    }
}

/// The counts after one more response: the class of its status moves, and what
/// lies outside the standard classes counts as a server error.
pub open spec fn counted(c: StatusClassCounts, status: u16) -> StatusClassCounts {
    if 100 <= status <= 199 {
        StatusClassCounts { responses_1xx: bumped(c.responses_1xx), ..c }
    } else if 200 <= status <= 299 {
        StatusClassCounts { responses_2xx: bumped(c.responses_2xx), ..c }
    } else if 300 <= status <= 399 {
        StatusClassCounts { responses_3xx: bumped(c.responses_3xx), ..c }
    } else if 400 <= status <= 499 {
        StatusClassCounts { responses_4xx: bumped(c.responses_4xx), ..c }
    } else {
        StatusClassCounts { responses_5xx: bumped(c.responses_5xx), ..c }
    }
}

/// How often a label was counted, by a list of labels and counts.
pub open spec fn count_of(rows: Seq<(&'static str, u64)>, label: Seq<char>) -> int
    decreases rows.len(),
{
    if rows.len() == 0 {
        0
    } else {
        count_of(rows.drop_last(), label) + if rows.last().0@ == label {
            rows.last().1 as int
        } else {
            0
        }
    }
}

/// The sum of the counts.
pub open spec fn row_sum(rows: Seq<(&'static str, u64)>) -> int
    decreases rows.len(),
{
    if rows.len() == 0 {
        0
    } else {
        row_sum(rows.drop_last()) + rows.last().1
    }
}

/// Every label once, in text order.
pub open spec fn in_label_order(rows: Seq<(&'static str, u64)>) -> bool {
    forall|i: int, j: int| 0 <= i < j < rows.len() ==> order::text_lt((#[trigger] rows[i]).0@, (#[trigger] rows[j]).0@)
}

/// Every label was counted.
pub open spec fn all_counted(rows: Seq<(&'static str, u64)>) -> bool {
    forall|i: int| 0 <= i < rows.len() ==> (#[trigger] rows[i]).1 >= 1
}

/// The rows hold the label at that place.
pub open spec fn stands_at(rows: Seq<(&'static str, u64)>, label: Seq<char>, at: int) -> bool {
    0 <= at < rows.len() && rows[at].0@ == label
}

/// The rows after one more count of a label: its row moved up by one where it had
/// one, and otherwise a row of one put in. All other rows stay.
pub open spec fn counted_once(
    before: Seq<(&'static str, u64)>,
    label: &'static str,
    after: Seq<(&'static str, u64)>,
) -> bool {
    if exists|at: int| stands_at(before, label@, at) {
        exists|at: int| #[trigger]
            stands_at(before, label@, at) && after == before.update(at, (before[at].0, (before[at].1 + 1) as u64))
    } else {
        exists|at: int| 0 <= at <= before.len() && after == #[trigger] before.insert(at, (label, 1u64))
    }
}

proof fn lemma_insert_row(rows: Seq<(&'static str, u64)>, at: int, row: (&'static str, u64))
    requires
        0 <= at <= rows.len(),
    ensures
        row_sum(rows.insert(at, row)) == row_sum(rows) + row.1,
        forall|label: Seq<char>| #[trigger]
            count_of(rows.insert(at, row), label) == count_of(rows, label) + if row.0@ == label {
                row.1 as int
            } else {
                0
            },
    decreases rows.len(),
{
    let t = rows.insert(at, row);
    if at == rows.len() {
        assert(t.drop_last() =~= rows);
    } else {
        lemma_insert_row(rows.drop_last(), at, row);
        assert(t.drop_last() =~= rows.drop_last().insert(at, row));
        assert(t.last() == rows.last());
        assert forall|label: Seq<char>| #[trigger] count_of(t, label) == count_of(rows, label) + if row.0@ == label {
            row.1 as int
        } else {
            0
        } by {
            assert(count_of(rows.drop_last().insert(at, row), label) == count_of(rows.drop_last(), label)
                + if row.0@ == label {
                row.1 as int
            } else {
                0
            });
        }
    }
}

proof fn lemma_bump_row(rows: Seq<(&'static str, u64)>, at: int, n: u64)
    requires
        0 <= at < rows.len(),
        n == rows[at].1 + 1,
    ensures
        row_sum(rows.update(at, (rows[at].0, n))) == row_sum(rows) + 1,
        forall|label: Seq<char>| #[trigger]
            count_of(rows.update(at, (rows[at].0, n)), label) == count_of(rows, label) + if rows[at].0@ == label {
                1int
            } else {
                0
            },
    decreases rows.len(),
{
    let t = rows.update(at, (rows[at].0, n));
    if at == rows.len() - 1 {
        assert(t.drop_last() =~= rows.drop_last());
    } else {
        lemma_bump_row(rows.drop_last(), at, n);
        assert(t.drop_last() =~= rows.drop_last().update(at, (rows[at].0, n)));
        assert(t.last() == rows.last());
        assert forall|label: Seq<char>| #[trigger] count_of(t, label) == count_of(rows, label) + if rows[at].0@ == label {
            1int
        } else {
            0
        } by {
            assert(count_of(rows.drop_last().update(at, (rows[at].0, n)), label) == count_of(rows.drop_last(), label)
                + if rows[at].0@ == label {
                1int
            } else {
                0
            });
        }
    }
}

proof fn lemma_row_sum_bounds(rows: Seq<(&'static str, u64)>, at: int)
    requires
        0 <= at < rows.len(),
    ensures
        rows[at].1 <= row_sum(rows),
        0 <= row_sum(rows.take(at)) <= row_sum(rows),
    decreases rows.len(),
{
    if at == rows.len() - 1 {
        assert(rows.take(at) =~= rows.drop_last());
        if at > 0 {
            lemma_row_sum_bounds(rows.drop_last(), 0);
        }
    } else {
        lemma_row_sum_bounds(rows.drop_last(), at);
        assert(rows.drop_last().take(at) =~= rows.take(at));
    }
}

impl MetricsRegistry {
    pub closed spec fn counts(&self) -> StatusClassCounts {
        StatusClassCounts {
            responses_1xx: self.responses_1xx,
            responses_2xx: self.responses_2xx,
            responses_3xx: self.responses_3xx,
            responses_4xx: self.responses_4xx,
            responses_5xx: self.responses_5xx,
        }
    }

    /// The rejects counted so far, by label.
    pub closed spec fn rejects(&self) -> Seq<(&'static str, u64)> {
        self.rejects_by_reason@
    }

    /// The moment at which the registry was made.
    pub closed spec fn started(&self) -> std::time::Instant {
        self.started_at
    }

    pub closed spec fn wf(&self) -> bool {
        &&& in_label_order(self.rejects_by_reason@)
        &&& all_counted(self.rejects_by_reason@)
        &&& row_sum(self.rejects_by_reason@) <= u64::MAX
    }

    pub fn new() -> (r: Self)
        ensures
            r.wf(),
            r.counts().sum() == 0,
            r.rejects().len() == 0,
    {
        MetricsRegistry {
            started_at: this_moment(),
            responses_1xx: 0,
            responses_2xx: 0,
            responses_3xx: 0,
            responses_4xx: 0,
            responses_5xx: 0,
            rejects_by_reason: Vec::new(),
        }
    }

    /// Whole seconds since the registry was made: up to the moment of the call,
    /// which the clock decides.
    pub fn uptime_seconds(&self) -> (r: u64)
        ensures
            exists|now: std::time::Instant| r == #[trigger] seconds_between(self.started(), now),
    {
        let now = this_moment();
        self.uptime_at(&now)
    }

    /// Whole seconds from the moment at which the registry was made to the given
    /// one.
    pub fn uptime_at(&self, now: &std::time::Instant) -> (r: u64)
        ensures
            r == seconds_between(self.started(), *now),
    {
        (time_between(&self.started_at, now) / 1_000_000_000) as u64
    }

    /// Counts a response in the class of its status.
    pub fn record_status(&mut self, status: u16)
        requires
            old(self).wf(),
        ensures
            final(self).wf(),
            final(self).counts() == counted(old(self).counts(), status),
            final(self).rejects() == old(self).rejects(),
            final(self).started() == old(self).started(),
    {
        if 100 <= status && status <= 199 {
            self.responses_1xx = self.responses_1xx.wrapping_add(1);
        } else if 200 <= status && status <= 299 {
            self.responses_2xx = self.responses_2xx.wrapping_add(1);
        } else if 300 <= status && status <= 399 {
            self.responses_3xx = self.responses_3xx.wrapping_add(1);
        } else if 400 <= status && status <= 499 {
            self.responses_4xx = self.responses_4xx.wrapping_add(1);
        } else {
            self.responses_5xx = self.responses_5xx.wrapping_add(1);
        }
    }

    /// Counts a reject under its label.
    pub fn record_reject(&mut self, reason_label: &'static str)
        requires
            old(self).wf(),
            row_sum(old(self).rejects()) < u64::MAX,
        ensures
            final(self).wf(),
            final(self).counts() == old(self).counts(),
            final(self).started() == old(self).started(),
            counted_once(old(self).rejects(), reason_label, final(self).rejects()),
            in_label_order(final(self).rejects()),
            forall|label: Seq<char>| #[trigger]
                count_of(final(self).rejects(), label) == count_of(old(self).rejects(), label)
                    + if label == reason_label@ {
                    1int
                } else {
                    0
                },
            row_sum(final(self).rejects()) == row_sum(old(self).rejects()) + 1,
    {
        let ghost rows = self.rejects_by_reason@;
        let mut i: usize = 0;
        while i < self.rejects_by_reason.len() && place(self.rejects_by_reason[i].0, reason_label)
            == Placement::Before
            invariant
                i <= self.rejects_by_reason@.len(),
                self.rejects_by_reason@ == rows,
                in_label_order(rows),
                all_counted(rows),
                forall|k: int| 0 <= k < i ==> order::text_lt((#[trigger] rows[k]).0@, reason_label@),
            decreases self.rejects_by_reason@.len() - i,
        {
            i += 1;
        }
        let found: bool = if i < self.rejects_by_reason.len() {
            place(self.rejects_by_reason[i].0, reason_label) == Placement::Same
        } else {
            false
        };
        if found {
            let (label, n) = self.rejects_by_reason[i];
            proof {
                lemma_row_sum_bounds(rows, i as int);
            }
            self.rejects_by_reason.set(i, (label, n + 1));
            proof {
                lemma_bump_row(rows, i as int, (n + 1) as u64);
                let t = self.rejects_by_reason@;
                assert(stands_at(rows, reason_label@, i as int));
                assert(t == rows.update(i as int, (rows[i as int].0, (rows[i as int].1 + 1) as u64)));
                assert forall|a: int, b: int| 0 <= a < b < t.len() implies order::text_lt(
                    (#[trigger] t[a]).0@,
                    (#[trigger] t[b]).0@,
                ) by {
                    assert(t[a].0@ == rows[a].0@);
                    assert(t[b].0@ == rows[b].0@);
                }
            }
        } else {
            self.rejects_by_reason.insert(i, (reason_label, 1));
            proof {
                lemma_insert_row(rows, i as int, (reason_label, 1));
                let t = self.rejects_by_reason@;
                assert(t == rows.insert(i as int, (reason_label, 1u64)));
                assert forall|at: int| !#[trigger] stands_at(rows, reason_label@, at) by {
                    if 0 <= at < i {
                        order::lemma_text_total(rows[at].0@, reason_label@);
                    } else if i < at < rows.len() {
                        order::lemma_text_total(rows[i as int].0@, reason_label@);
                        order::lemma_text_total(rows[at].0@, reason_label@);
                        assert(order::text_lt(rows[i as int].0@, rows[at].0@));
                        order::lemma_text_transitive(reason_label@, rows[i as int].0@, rows[at].0@);
                    }
                }
                assert forall|a: int, b: int| 0 <= a < b < t.len() implies order::text_lt(
                    (#[trigger] t[a]).0@,
                    (#[trigger] t[b]).0@,
                ) by {
                    if i < rows.len() {
                        order::lemma_text_total(rows[i as int].0@, reason_label@);
                    }
                    let ra = if a < i { a } else { a - 1 };
                    let rb = if b < i { b } else { b - 1 };
                    if a == i {
                        assert(t[b] == rows[rb]);
                        if rb > i {
                            assert(order::text_lt(rows[i as int].0@, rows[rb].0@));
                            order::lemma_text_transitive(reason_label@, rows[i as int].0@, rows[rb].0@);
                        }
                    } else if b == i {
                        assert(t[a] == rows[ra]);
                    } else {
                        assert(t[a] == rows[ra]);
                        assert(t[b] == rows[rb]);
                    }
                }
            }
        }
    }

    /// The labels and their counts, in the order of the labels.
    pub fn rejects_snapshot(&self) -> (r: Vec<(&'static str, u64)>)
        requires
            self.wf(),
        ensures
            r@ == self.rejects(),
            in_label_order(r@),
            all_counted(r@),
    {
        let mut out: Vec<(&'static str, u64)> = Vec::new();
        let mut i: usize = 0;
        while i < self.rejects_by_reason.len()
            invariant
                i <= self.rejects_by_reason@.len(),
                out@ =~= self.rejects_by_reason@.take(i as int),
            decreases self.rejects_by_reason@.len() - i,
        {
            out.push(self.rejects_by_reason[i]);
            i += 1;
        }
        out
    }

    /// All rejects.
    pub fn rejects_total(&self) -> (r: u64)
        requires
            self.wf(),
        ensures
            r == row_sum(self.rejects()),
    {
        let ghost rows = self.rejects_by_reason@;
        let mut total: u64 = 0;
        let mut i: usize = 0;
        assert(rows.take(0) =~= Seq::<(&'static str, u64)>::empty());
        while i < self.rejects_by_reason.len()
            invariant
                i <= self.rejects_by_reason@.len(),
                rows == self.rejects_by_reason@,
                row_sum(rows) <= u64::MAX,
                total == row_sum(rows.take(i as int)),
            decreases self.rejects_by_reason@.len() - i,
        {
            proof {
                assert(rows.take(i + 1).drop_last() =~= rows.take(i as int));
                if i + 1 < rows.len() {
                    lemma_row_sum_bounds(rows, i + 1);
                } else {
                    assert(rows.take(i + 1) =~= rows);
                }
            }
            total = total + self.rejects_by_reason[i].1;
            i += 1;
        }
        assert(rows.take(i as int) =~= rows);
        total
    }

    /// The responses so far, by status class.
    pub fn status_class_counts(&self) -> (r: StatusClassCounts)
        ensures
            r == self.counts(),
    {
        StatusClassCounts {
            responses_1xx: self.responses_1xx,
            responses_2xx: self.responses_2xx,
            responses_3xx: self.responses_3xx,
            responses_4xx: self.responses_4xx,
            responses_5xx: self.responses_5xx,
        }
    }
}

/// Every response is counted in exactly one class, whatever its status.
pub proof fn law_every_response_counts_once(c: StatusClassCounts, status: u16)
    requires
        c.sum() < u64::MAX,
    ensures
        counted(c, status).sum() == c.sum() + 1,
{
}

/// No label was counted more often than all labels together.
pub proof fn law_no_label_exceeds_the_total(rows: Seq<(&'static str, u64)>, label: Seq<char>)
    ensures
        0 <= count_of(rows, label) <= row_sum(rows),
    decreases rows.len(),
{
    if rows.len() > 0 {
        law_no_label_exceeds_the_total(rows.drop_last(), label);
    }
}

// ---------------------------------------------------------------------------
// Laws
// ---------------------------------------------------------------------------


/// A response counts in the class of its status, one by one; what is no status of the
/// five classes counts as the server's fault. The other classes stay.
pub proof fn law_responses_count_in_their_class(c: StatusClassCounts, status: u16)
    ensures
        100 <= status < 200 ==> counted(c, status) == (StatusClassCounts { responses_1xx: bumped(c.responses_1xx), ..c }),
        200 <= status < 300 ==> counted(c, status) == (StatusClassCounts { responses_2xx: bumped(c.responses_2xx), ..c }),
        300 <= status < 400 ==> counted(c, status) == (StatusClassCounts { responses_3xx: bumped(c.responses_3xx), ..c }),
        400 <= status < 500 ==> counted(c, status) == (StatusClassCounts { responses_4xx: bumped(c.responses_4xx), ..c }),
        status < 100 || status >= 500 ==> counted(c, status) == (StatusClassCounts {
            responses_5xx: bumped(c.responses_5xx),
            ..c
        }),
        c.responses_2xx < u64::MAX ==> bumped(c.responses_2xx) == c.responses_2xx + 1,
        bumped(u64::MAX) == 0,
        c.sum() == c.responses_1xx + c.responses_2xx + c.responses_3xx + c.responses_4xx + c.responses_5xx,
{
}

/// Sums stop at the largest number.
pub proof fn law_sums_saturate(a: int, b: int)
    ensures
        a + b <= 18_446_744_073_709_551_615 ==> saturating_sum(a, b) == a + b,
        a + b > 18_446_744_073_709_551_615 ==> saturating_sum(a, b) == 18_446_744_073_709_551_615,
{
}

/// How often a label was counted is the sum of its rows, and all rows add up.
pub proof fn law_rows_add_up(rows: Seq<(&'static str, u64)>, label: &'static str, n: u64, other: Seq<char>)
    ensures
        count_of(Seq::empty(), other) == 0,
        count_of(rows.push((label, n)), label@) == count_of(rows, label@) + n,
        other != label@ ==> count_of(rows.push((label, n)), other) == count_of(rows, other),
        row_sum(Seq::empty()) == 0,
        row_sum(rows.push((label, n))) == row_sum(rows) + n,
{
    assert(rows.push((label, n)).drop_last() =~= rows);
}

/// Rows are in order where each label comes before the next, and counted where each
/// has been at least once.
pub proof fn law_rows_in_order(rows: Seq<(&'static str, u64)>, i: int, j: int)
    requires
        0 <= i < j < rows.len(),
    ensures
        in_label_order(rows) ==> order::text_lt(rows[i].0@, rows[j].0@),
        all_counted(rows) ==> rows[i].1 >= 1 && rows[j].1 >= 1,
{
}

/// One more count of a label moves its row by one, or puts in a row of one; no other
/// row is touched.
pub proof fn law_one_more_count(before: Seq<(&'static str, u64)>, label: &'static str, after: Seq<(&'static str, u64)>)
    requires
        counted_once(before, label, after),
    ensures
        (exists|at: int| 0 <= at < before.len() && (#[trigger] before[at]).0@ == label@) ==> after.len() == before.len()
            && exists|at: int|
            0 <= at < before.len() && (#[trigger] before[at]).0@ == label@ && after == before.update(
                at,
                (before[at].0, (before[at].1 + 1) as u64),
            ),
        (forall|at: int| 0 <= at < before.len() ==> (#[trigger] before[at]).0@ != label@) ==> after.len() == before.len() + 1
            && exists|at: int| 0 <= at <= before.len() && after == #[trigger] before.insert(at, (label, 1u64)),
{
    if exists|at: int| 0 <= at < before.len() && (#[trigger] before[at]).0@ == label@ {
        let w = choose|at: int| 0 <= at < before.len() && (#[trigger] before[at]).0@ == label@;
        assert(stands_at(before, label@, w));
        let at = choose|at: int| #[trigger]
            stands_at(before, label@, at) && after == before.update(at, (before[at].0, (before[at].1 + 1) as u64));
        assert(before[at].0@ == label@);
    }
    if forall|at: int| 0 <= at < before.len() ==> (#[trigger] before[at]).0@ != label@ {
        assert(!(exists|at: int| stands_at(before, label@, at)));
    }
}

/// Uptime is told in whole seconds.
pub proof fn law_whole_seconds(earlier: std::time::Instant, later: std::time::Instant)
    ensures
        seconds_between(earlier, later) * 1_000_000_000 <= nanos_between(earlier, later) < (seconds_between(earlier, later)
            + 1) * 1_000_000_000,
{
}

} // verus!
