//! The request timeline: fixed-width buckets of query counts.

use vstd::prelude::*;
use crate::counters::{bump, bump_count};

verus! {

/// The number of queries counted from `bucket_start` on.
#[derive(Clone, Copy, Debug, PartialEq, Eq, Structural)]
pub struct TimeBucket {
    pub bucket_start: u64,
    pub request_count: u64,
}

/// Whether `t` lies in the window of `width` that `b` opens.
pub open spec fn in_window(b: TimeBucket, width: u64, t: u64) -> bool {
    b.bucket_start <= t < b.bucket_start + width
}

/// Whether the window of `later` starts at or behind the end of that of `earlier`.
pub open spec fn apart(earlier: TimeBucket, later: TimeBucket, width: u64) -> bool {
    earlier.bucket_start + width <= later.bucket_start
}

/// The window of each bucket starts at or behind the end of the window of
/// every earlier one.
pub open spec fn spaced(b: Seq<TimeBucket>, width: u64) -> bool {
    forall|i: int, j: int| 0 <= i < j < b.len() ==> #[trigger] apart(b[i], b[j], width)
}

/// Every bucket counts at least one query.
pub open spec fn counted(b: Seq<TimeBucket>) -> bool {
    forall|i: int| 0 <= i < b.len() ==> (#[trigger] b[i]).request_count >= 1
}

/// The queries that all the buckets count together.
pub open spec fn total_count(b: Seq<TimeBucket>) -> nat
    decreases b.len(),
{
    if b.len() == 0 {
        0
    } else {
        total_count(b.drop_last()) + b.last().request_count as nat
    }
}

/// Buckets whose windows lie apart, with a width above zero, start later and later.
pub proof fn lemma_starts_rise(b: Seq<TimeBucket>, width: u64)
    requires
        width > 0,
        spaced(b, width),
    ensures
        forall|i: int, j: int| 0 <= i < j < b.len() ==> b[i].bucket_start < b[j].bucket_start,
{
    assert forall|i: int, j: int| 0 <= i < j < b.len() implies b[i].bucket_start < b[j].bucket_start by {
        assert(apart(b[i], b[j], width));
    }
}

/// The buckets after a query at `now`: a first bucket, or a new one where `now`
/// has reached the end of the last bucket's window, starts at `now` with one
/// query; else the last bucket counts one more.
pub open spec fn record_spec(b: Seq<TimeBucket>, width: u64, now: u64) -> Seq<TimeBucket> {
    if b.len() == 0 || now >= b.last().bucket_start + width {
        b.push(TimeBucket { bucket_start: now, request_count: 1 })
    } else {
        b.update(
            b.len() - 1,
            TimeBucket {
                bucket_start: b.last().bucket_start,
                request_count: bump(b.last().request_count),
            },
        )
    }
}

/// The buckets after queries at the times `ts`, in that order.
pub open spec fn timeline_after(ts: Seq<u64>, width: u64) -> Seq<TimeBucket>
    decreases ts.len(),
{
    if ts.len() == 0 {
        Seq::empty()
    } else {
        record_spec(timeline_after(ts.drop_last(), width), width, ts.last())
    }
}

/// How many of the times `ts` lie in `lo..hi`.
pub open spec fn count_within(ts: Seq<u64>, lo: int, hi: int) -> nat
    decreases ts.len(),
{
    if ts.len() == 0 {
        0
    } else {
        count_within(ts.drop_last(), lo, hi) + if lo <= ts.last() < hi {
            1nat
        } else {
            0nat
        }
    }
}

/// No time is smaller than one before it.
pub open spec fn non_decreasing(ts: Seq<u64>) -> bool {
    forall|i: int, j: int| 0 <= i < j < ts.len() ==> ts[i] <= ts[j]
}

/// No query comes at a time before the start of the bucket that is open when
/// it comes.
pub open spec fn never_behind(ts: Seq<u64>, width: u64) -> bool
    decreases ts.len(),
{
    ts.len() == 0 || (never_behind(ts.drop_last(), width) && (timeline_after(ts.drop_last(), width).len() == 0
        || ts.last() >= timeline_after(ts.drop_last(), width).last().bucket_start))
}

/// Whether `b` counts the times of `ts` that lie in its window.
pub open spec fn counts_its_window(b: TimeBucket, width: u64, ts: Seq<u64>) -> bool {
    b.request_count == count_within(ts, b.bucket_start as int, b.bucket_start + width)
}

/// Whether `b` starts at one of the times `ts`.
pub open spec fn starts_at_query(b: TimeBucket, ts: Seq<u64>) -> bool {
    exists|k: int| 0 <= k < ts.len() && #[trigger] ts[k] == b.bucket_start
}

/// Whether `t` lies in the window of one of the buckets.
pub open spec fn covered(b: Seq<TimeBucket>, width: u64, t: u64) -> bool {
    exists|i: int| 0 <= i < b.len() && in_window(#[trigger] b[i], width, t)
}

/// The buckets `b` are the windows that the queries at `ts` touched: the
/// windows lie apart, each bucket starts at the time of a query and counts the
/// queries in its window, and the time of every query lies in a window.
pub open spec fn buckets_match(b: Seq<TimeBucket>, width: u64, ts: Seq<u64>) -> bool {
    &&& spaced(b, width)
    &&& forall|i: int| 0 <= i < b.len() ==> #[trigger] counts_its_window(b[i], width, ts)
    &&& forall|i: int| 0 <= i < b.len() ==> #[trigger] starts_at_query(b[i], ts)
    &&& forall|k: int| 0 <= k < ts.len() ==> #[trigger] covered(b, width, ts[k])
}

/// No more times lie in a range than there are times.
pub proof fn lemma_count_within_bound(ts: Seq<u64>, lo: int, hi: int)
    ensures
        count_within(ts, lo, hi) <= ts.len(),
    decreases ts.len(),
{
    if ts.len() > 0 {
        lemma_count_within_bound(ts.drop_last(), lo, hi);
    }
}

/// Of times that all lie below a range, none lies in it.
pub proof fn lemma_count_within_none(ts: Seq<u64>, lo: int, hi: int)
    requires
        forall|k: int| 0 <= k < ts.len() ==> ts[k] < lo,
    ensures
        count_within(ts, lo, hi) == 0,
    decreases ts.len(),
{
    if ts.len() > 0 {
        lemma_count_within_none(ts.drop_last(), lo, hi);
    }
}

/// The buckets still match after a query that opens a bucket.
proof fn lemma_next_bucket(b: Seq<TimeBucket>, width: u64, ts: Seq<u64>)
    requires
        width > 0,
        ts.len() > 0,
        buckets_match(b, width, ts.drop_last()),
        b.len() == 0 || ts.last() >= b.last().bucket_start + width,
    ensures
        buckets_match(b.push(TimeBucket { bucket_start: ts.last(), request_count: 1 }), width, ts),
{
    let p = ts.drop_last();
    let t = ts.last();
    let after = b.push(TimeBucket { bucket_start: t, request_count: 1 });
    let n = b.len() as int;
    assert forall|i: int| 0 <= i < n implies b[i].bucket_start + width <= t by {
        if i < n - 1 {
            assert(apart(b[i], b[n - 1], width));
        }
    }
    assert forall|k: int| 0 <= k < p.len() implies p[k] < t by {
        assert(covered(b, width, p[k]));
        let i = choose|i: int| 0 <= i < b.len() && in_window(#[trigger] b[i], width, p[k]);
        assert(b[i].bucket_start + width <= t);
    }
    lemma_count_within_none(p, t as int, t + width);
    assert forall|i: int, j: int| 0 <= i < j < after.len() implies #[trigger] apart(
        after[i],
        after[j],
        width,
    ) by {
        if j == n {
            assert(b[i].bucket_start + width <= t);
        } else {
            assert(apart(b[i], b[j], width));
        }
    }
    assert forall|i: int| 0 <= i < after.len() implies #[trigger] counts_its_window(
        after[i],
        width,
        ts,
    ) by {
        if i < n {
            assert(counts_its_window(b[i], width, p));
            assert(b[i].bucket_start + width <= t);
        }
    }
    assert forall|i: int| 0 <= i < after.len() implies #[trigger] starts_at_query(after[i], ts) by {
        if i < n {
            assert(starts_at_query(b[i], p));
            let k = choose|k: int| 0 <= k < p.len() && #[trigger] p[k] == b[i].bucket_start;
            assert(ts[k] == b[i].bucket_start);
        } else {
            assert(ts[ts.len() - 1] == t);
        }
    }
    assert forall|k: int| 0 <= k < ts.len() implies #[trigger] covered(after, width, ts[k]) by {
        if k < p.len() {
            assert(p[k] == ts[k]);
            assert(covered(b, width, p[k]));
            let i = choose|i: int| 0 <= i < b.len() && in_window(#[trigger] b[i], width, p[k]);
            assert(in_window(after[i], width, ts[k]));
        } else {
            assert(in_window(after[n], width, ts[k]));
        }
    }
}

/// The buckets still match after a query that the last bucket counts.
proof fn lemma_same_bucket(b: Seq<TimeBucket>, width: u64, ts: Seq<u64>)
    requires
        width > 0,
        0 < ts.len() <= u64::MAX,
        buckets_match(b, width, ts.drop_last()),
        b.len() > 0,
        b.last().bucket_start <= ts.last() < b.last().bucket_start + width,
    ensures
        buckets_match(
            b.update(
                b.len() - 1,
                TimeBucket {
                    bucket_start: b.last().bucket_start,
                    request_count: bump(b.last().request_count),
                },
            ),
            width,
            ts,
        ),
{
    let p = ts.drop_last();
    let t = ts.last();
    let n = b.len() - 1;
    let s = b[n].bucket_start;
    let after = b.update(n, TimeBucket { bucket_start: s, request_count: bump(b[n].request_count) });
    assert(counts_its_window(b[n], width, p));
    lemma_count_within_bound(p, s as int, s + width);
    assert(bump(b[n].request_count) == b[n].request_count + 1);
    assert forall|i: int, j: int| 0 <= i < j < after.len() implies #[trigger] apart(
        after[i],
        after[j],
        width,
    ) by {
        assert(apart(b[i], b[j], width));
    }
    assert forall|i: int| 0 <= i < after.len() implies #[trigger] counts_its_window(
        after[i],
        width,
        ts,
    ) by {
        assert(counts_its_window(b[i], width, p));
        if i < n {
            assert(apart(b[i], b[n], width));
        }
    }
    assert forall|i: int| 0 <= i < after.len() implies #[trigger] starts_at_query(after[i], ts) by {
        assert(starts_at_query(b[i], p));
        let k = choose|k: int| 0 <= k < p.len() && #[trigger] p[k] == b[i].bucket_start;
        assert(ts[k] == b[i].bucket_start);
    }
    assert forall|k: int| 0 <= k < ts.len() implies #[trigger] covered(after, width, ts[k]) by {
        if k < p.len() {
            assert(p[k] == ts[k]);
            assert(covered(b, width, p[k]));
            let i = choose|i: int| 0 <= i < b.len() && in_window(#[trigger] b[i], width, p[k]);
            assert(in_window(after[i], width, ts[k]));
        } else {
            assert(in_window(after[n], width, ts[k]));
        }
    }
}

/// One query more, window by window: where the buckets are the windows that
/// the queries before touched, and the next query does not come before the
/// start of the open bucket, the buckets after it are the windows that all
/// the queries touched.
pub proof fn lemma_record_keeps_match(b: Seq<TimeBucket>, width: u64, ts: Seq<u64>)
    requires
        width > 0,
        0 < ts.len() <= u64::MAX,
        buckets_match(b, width, ts.drop_last()),
        b.len() == 0 || ts.last() >= b.last().bucket_start,
    ensures
        buckets_match(record_spec(b, width, ts.last()), width, ts),
{
    if b.len() == 0 || ts.last() >= b.last().bucket_start + width {
        lemma_next_bucket(b, width, ts);
    } else {
        lemma_same_bucket(b, width, ts);
    }
}

/// Buckets and windows: where no query comes at a time before the start of
/// the open bucket, and the width is above zero, the windows of the buckets
/// lie apart, each bucket starts at the time of a query and counts the queries
/// whose time lies in its window, and the time of every query lies in the
/// window of a bucket. So there are as many buckets as windows that a query
/// touched.
pub proof fn lemma_buckets_count_their_windows(ts: Seq<u64>, width: u64)
    requires
        width > 0,
        never_behind(ts, width),
        ts.len() <= u64::MAX,
    ensures
        buckets_match(timeline_after(ts, width), width, ts),
    decreases ts.len(),
{
    if ts.len() > 0 {
        let p = ts.drop_last();
        let b = timeline_after(p, width);
        lemma_buckets_count_their_windows(p, width);
        if b.len() == 0 || ts.last() >= b.last().bucket_start + width {
            lemma_next_bucket(b, width, ts);
        } else {
            lemma_same_bucket(b, width, ts);
        }
    }
}

/// Times that never go back never come before the open bucket, so their
/// buckets are the windows they touched.
pub proof fn lemma_times_in_order_match(ts: Seq<u64>, width: u64)
    requires
        width > 0,
        non_decreasing(ts),
        ts.len() <= u64::MAX,
    ensures
        never_behind(ts, width),
        buckets_match(timeline_after(ts, width), width, ts),
    decreases ts.len(),
{
    if ts.len() > 0 {
        let p = ts.drop_last();
        let b = timeline_after(p, width);
        lemma_times_in_order_match(p, width);
        if b.len() > 0 {
            assert(starts_at_query(b[b.len() - 1], p));
            let k = choose|k: int| 0 <= k < p.len() && #[trigger] p[k] == b[b.len() - 1].bucket_start;
            assert(ts[k] <= ts[ts.len() - 1]);
        }
        lemma_buckets_count_their_windows(ts, width);
    }
}

/// The queries that the buckets of `b` with a start in `lo..=hi` count.
pub open spec fn window_sum(b: Seq<TimeBucket>, lo: int, hi: int) -> nat
    decreases b.len(),
{
    if b.len() == 0 {
        0
    } else {
        window_sum(b.drop_last(), lo, hi) + if lo <= b.last().bucket_start <= hi {
            b.last().request_count as nat
        } else {
            0nat
        }
    }
}

/// `n` as a counter holds it: the largest value stands for all above it.
pub open spec fn saturated(n: int) -> u64 {
    if n <= u64::MAX {
        n as u64
    } else {
        u64::MAX
    }
}

/// One query more: after a query at `now`, the windows still lie apart and
/// every bucket still counts a query; and unless the last bucket is full and
/// takes the query, the buckets count one query more than before.
pub proof fn lemma_record_counts_one_more(b: Seq<TimeBucket>, width: u64, now: u64)
    requires
        width > 0,
        spaced(b, width),
        counted(b),
    ensures
        spaced(record_spec(b, width, now), width),
        counted(record_spec(b, width, now)),
        b.len() == 0 || now >= b.last().bucket_start + width || b.last().request_count < u64::MAX
            ==> total_count(record_spec(b, width, now)) == total_count(b) + 1,
{
    let after = record_spec(b, width, now);
    let n = b.len() as int;
    if b.len() == 0 || now >= b.last().bucket_start + width {
        assert(after.drop_last() =~= b);
        assert forall|i: int, j: int| 0 <= i < j < after.len() implies #[trigger] apart(
            after[i],
            after[j],
            width,
        ) by {
            if j == n {
                if i < n - 1 {
                    assert(apart(b[i], b[n - 1], width));
                }
            } else {
                assert(apart(b[i], b[j], width));
            }
        }
        assert forall|i: int| 0 <= i < after.len() implies (#[trigger] after[i]).request_count >= 1 by {
            if i < n {
                assert(b[i].request_count >= 1);
            }
        }
    } else {
        assert(after.drop_last() =~= b.drop_last());
        assert(b[n - 1].request_count >= 1);
        assert forall|i: int, j: int| 0 <= i < j < after.len() implies #[trigger] apart(
            after[i],
            after[j],
            width,
        ) by {
            assert(apart(b[i], b[j], width));
        }
        assert forall|i: int| 0 <= i < after.len() implies (#[trigger] after[i]).request_count >= 1 by {
            assert(b[i].request_count >= 1);
        }
    }
}

/// The buckets count every query once: after the queries at the times `ts`,
/// in whatever order and with whatever width, the counts of the buckets add
/// up to the number of the queries, and no bucket is empty.
pub proof fn lemma_counts_add_up(ts: Seq<u64>, width: u64)
    requires
        ts.len() <= u64::MAX,
    ensures
        total_count(timeline_after(ts, width)) == ts.len(),
        counted(timeline_after(ts, width)),
    decreases ts.len(),
{
    if ts.len() > 0 {
        let b = timeline_after(ts.drop_last(), width);
        let after = timeline_after(ts, width);
        let n = b.len() as int;
        lemma_counts_add_up(ts.drop_last(), width);
        if b.len() == 0 || ts.last() >= b.last().bucket_start + width {
            assert(after.drop_last() =~= b);
            assert forall|i: int| 0 <= i < after.len() implies (#[trigger] after[i]).request_count >= 1 by {
                if i < n {
                    assert(b[i].request_count >= 1);
                }
            }
        } else {
            assert(after.drop_last() =~= b.drop_last());
            assert(b[n - 1].request_count <= total_count(b));
            assert forall|i: int| 0 <= i < after.len() implies (#[trigger] after[i]).request_count >= 1 by {
                assert(b[i].request_count >= 1);
            }
        }
    }
}

/// The timeline of requests, with its last bucket open.
#[derive(Debug)]
pub struct Timeline {
    buckets: Vec<TimeBucket>,
    width: u64,
}

impl View for Timeline {
    type V = Seq<TimeBucket>;

    closed spec fn view(&self) -> Seq<TimeBucket> {
        self.buckets@
    }
}

impl Timeline {
    /// The width of a bucket's window.
    pub closed spec fn bucket_width(&self) -> u64 {
        self.width
    }

    /// The width is above zero, the windows of the buckets lie apart, so
    /// their starts rise strictly, and every bucket counts at least one query.
    pub open spec fn wf(&self) -> bool {
        self.bucket_width() > 0 && spaced(self@, self.bucket_width()) && counted(self@)
    }

    /// An empty timeline with buckets of `width`; none for a width of zero.
    pub fn new(width: u64) -> (r: Option<Self>)
        ensures
            r is Some == (width > 0),
            r matches Some(t) ==> t.wf() && t@ == Seq::<TimeBucket>::empty() && t.bucket_width()
                == width,
    {
        if width == 0 {
            None
        } else {
            Some(Timeline { buckets: Vec::new(), width })
        }
    }

    /// Counts a query at the time `now`.
    pub fn record(&mut self, now: u64)
        requires
            old(self).wf(),
        ensures
            final(self).wf(),
            final(self).bucket_width() == old(self).bucket_width(),
            final(self)@ == record_spec(old(self)@, old(self).bucket_width(), now),
    {
        let n = self.buckets.len();
        let ghost before = self.buckets@;
        proof {
            lemma_record_counts_one_more(before, self.width, now);
        }
        if n == 0 {
            self.buckets.push(TimeBucket { bucket_start: now, request_count: 1 });
            return;
        }
        let last = self.buckets[n - 1];
        let open_next = match last.bucket_start.checked_add(self.width) {
            Some(end) => now >= end,
            None => false,
        };
        if open_next {
            self.buckets.push(TimeBucket { bucket_start: now, request_count: 1 });
        } else {
            self.buckets.set(
                n - 1,
                TimeBucket {
                    bucket_start: last.bucket_start,
                    request_count: bump_count(last.request_count),
                },
            );
        }
    }

    /// The queries counted by the buckets that start in the frame of
    /// `frame_size` that ends at `timestamp`, both ends included; the largest
    /// value where they are more than a counter holds.
    pub fn requests_in_frame(&self, timestamp: u64, frame_size: u64) -> (n: u64)
        ensures
            n == saturated(window_sum(self@, timestamp - frame_size, timestamp as int) as int),
    {
        let lo: u64 = if timestamp >= frame_size {
            timestamp - frame_size
        } else {
            0
        };
        let mut sum: u64 = 0;
        let mut i: usize = 0;
        while i < self.buckets.len()
            invariant
                i <= self.buckets@.len(),
                lo as int == if timestamp >= frame_size {
                    timestamp - frame_size
                } else {
                    0
                },
                sum == saturated(
                    window_sum(self.buckets@.subrange(0, i as int), timestamp - frame_size, timestamp as int) as int,
                ),
            decreases self.buckets@.len() - i,
        {
            let b = self.buckets[i];
            proof {
                assert(self.buckets@.subrange(0, i as int + 1).drop_last() =~= self.buckets@.subrange(
                    0,
                    i as int,
                ));
            }
            if lo <= b.bucket_start && b.bucket_start <= timestamp {
                sum = if sum > u64::MAX - b.request_count {
                    u64::MAX
                } else {
                    sum + b.request_count
                };
            }
            i += 1;
        }
        assert(self.buckets@.subrange(0, i as int) =~= self.buckets@);
        sum
    }

    /// The buckets, in their order.
    pub fn to_vec(&self) -> (r: Vec<TimeBucket>)
        ensures
            r@ == self@,
    {
        let mut r: Vec<TimeBucket> = Vec::new();
        let mut i: usize = 0;
        while i < self.buckets.len()
            invariant
                i <= self.buckets@.len(),
                r@ == self.buckets@.subrange(0, i as int),
            decreases self.buckets@.len() - i,
        {
            r.push(self.buckets[i]);
            i += 1;
            assert(r@ =~= self.buckets@.subrange(0, i as int));
        }
        assert(self.buckets@.subrange(0, i as int) =~= self.buckets@);
        r
    }

    /// The width of a bucket's window.
    pub fn width(&self) -> (w: u64)
        ensures
            w == self.bucket_width(),
    {
        self.width
    }

    /// The number of buckets.
    pub fn len(&self) -> (n: usize)
        ensures
            n == self@.len(),
    {
        self.buckets.len()
    }

    /// The bucket at place `i`.
    pub fn bucket(&self, i: usize) -> (b: TimeBucket)
        requires
            i < self@.len(),
        ensures
            b == self@[i as int],
    {
        self.buckets[i]
    }
}

} // verus!
