//! What holds of the grammar and of the aggregate state over whole runs of events.

use vstd::prelude::*;
use crate::address::parse_ip_spec;
use crate::counters::count_in;
use crate::dnsmasq::{apply_spec, empty_state, CacheHitsRate, DnsmasqState, LifecycleView, StateView};
use crate::responses::snapshot_spec;
use crate::line_parser::{
    classify_captures, group_at, parse_line_spec, query_event_spec, regex_captures, ParsedLineView, NAMESERVER_PATTERN,
    QUERY_PATTERN, READ_HOSTS_PATTERN, REPLY_CACHED_PATTERN, REPLY_PATTERN, VERSION_INFO_PATTERN,
};
use crate::supervisor::{step_spec, SupervisorAction, SupervisorEventView};
use crate::text::parse_unsigned_spec;
use crate::timeline::{
    buckets_match, counted, lemma_buckets_count_their_windows, lemma_counts_add_up, never_behind, saturated,
    timeline_after, total_count, TimeBucket,
};

verus! {

/// An event, or none, with the time at which it is applied.
pub type TimedEvent = (Option<ParsedLineView>, u64);

/// The state after the events `events`, applied in their order.
pub open spec fn apply_all(s: StateView, events: Seq<TimedEvent>) -> StateView
    decreases events.len(),
{
    if events.len() == 0 {
        s
    } else {
        apply_spec(apply_all(s, events.drop_last()), events.last().0, events.last().1)
    }
}

/// Whether `e` is a query for the domain `d`.
pub open spec fn is_query_for(e: Option<ParsedLineView>, d: Seq<char>) -> bool {
    match e {
        Some(ParsedLineView::Query { id, source, query, domain, from }) => domain == d,
        _ => false,
    }
}

/// How many of `events` are queries for the domain `d`.
pub open spec fn queries_for(events: Seq<TimedEvent>, d: Seq<char>) -> nat
    decreases events.len(),
{
    if events.len() == 0 {
        0
    } else {
        queries_for(events.drop_last(), d) + if is_query_for(events.last().0, d) {
            1nat
        } else {
            0nat
        }
    }
}

/// Whether `e` is a reply, and one from the cache where `cached_only`.
pub open spec fn is_reply(e: Option<ParsedLineView>, cached_only: bool) -> bool {
    match e {
        Some(ParsedLineView::Reply { id, cached, domain, result }) => cached || !cached_only,
        _ => false,
    }
}

/// How many of `events` are replies, or replies from the cache where `cached_only`.
pub open spec fn replies(events: Seq<TimedEvent>, cached_only: bool) -> nat
    decreases events.len(),
{
    if events.len() == 0 {
        0
    } else {
        replies(events.drop_last(), cached_only) + if is_reply(events.last().0, cached_only) {
            1nat
        } else {
            0nat
        }
    }
}

/// The times of the queries among `events`, in their order.
pub open spec fn query_times(events: Seq<TimedEvent>) -> Seq<u64>
    decreases events.len(),
{
    if events.len() == 0 {
        Seq::empty()
    } else if events.last().0 matches Some(ParsedLineView::Query { .. }) {
        query_times(events.drop_last()).push(events.last().1)
    } else {
        query_times(events.drop_last())
    }
}

/// A line that the query pattern matches is a query, whatever the other
/// patterns find; with an id that writes a `u64` and a `from` that writes an
/// address, the event holds the captured texts as they stand, the number that
/// the id writes and the address that `from` writes.
pub proof fn lemma_query_line_keeps_captures(
    g: Seq<Option<Seq<char>>>,
    reply_cached: Option<Seq<Option<Seq<char>>>>,
    reply: Option<Seq<Option<Seq<char>>>>,
    version_info: Option<Seq<Option<Seq<char>>>>,
    read_hosts: Option<Seq<Option<Seq<char>>>>,
    nameserver: Option<Seq<Option<Seq<char>>>>,
)
    requires
        group_at(g, 1) is Some,
        group_at(g, 2) is Some,
        group_at(g, 3) is Some,
        group_at(g, 4) is Some,
        group_at(g, 5) is Some,
        parse_unsigned_spec(group_at(g, 1).unwrap(), u64::MAX as nat) is Some,
        parse_ip_spec(group_at(g, 5).unwrap()) is Some,
    ensures
        classify_captures(Some(g), reply_cached, reply, version_info, read_hosts, nameserver) == Some(
            ParsedLineView::Query {
                id: parse_unsigned_spec(group_at(g, 1).unwrap(), u64::MAX as nat).unwrap() as u64,
                source: g[2].unwrap(),
                query: g[3].unwrap(),
                domain: g[4].unwrap(),
                from: parse_ip_spec(g[5].unwrap()).unwrap(),
            },
        ),
{
}

/// A line that none of the six patterns matches gives no event, and to apply
/// no event leaves the state as it was.
pub proof fn lemma_unmatched_line_changes_nothing(s: StateView, now: u64)
    ensures
        classify_captures(None, None, None, None, None, None) is None,
        apply_spec(s, classify_captures(None, None, None, None, None, None), now) == s,
        apply_spec(s, None, now) == s,
{
}

/// A line that the query pattern matches is classified by what that pattern
/// captured and by nothing else; a line that no pattern matches gives no
/// event, and to apply it leaves the state as it was.
pub proof fn lemma_line_is_classified_by_first_match(s: StateView, line: Seq<char>, now: u64)
    ensures
        regex_captures(QUERY_PATTERN@, line) matches Some(g) ==> parse_line_spec(line) == query_event_spec(g),
        regex_captures(QUERY_PATTERN@, line) is None && regex_captures(REPLY_CACHED_PATTERN@, line) is None
            && regex_captures(REPLY_PATTERN@, line) is None && regex_captures(VERSION_INFO_PATTERN@, line) is None
            && regex_captures(READ_HOSTS_PATTERN@, line) is None && regex_captures(NAMESERVER_PATTERN@, line) is None
            ==> parse_line_spec(line) is None && apply_spec(s, parse_line_spec(line), now) == s,
{
}

/// The count of a domain is the count it had and the number of queries for
/// it, in whatever order they and other events came; it stays at the largest
/// value a counter holds.
pub proof fn lemma_domain_count_is_number_of_queries(s: StateView, events: Seq<TimedEvent>, d: Seq<char>)
    ensures
        count_in(apply_all(s, events).query_domains, d) == saturated(
            count_in(s.query_domains, d) + queries_for(events, d),
        ),
    decreases events.len(),
{
    if events.len() > 0 {
        lemma_domain_count_is_number_of_queries(s, events.drop_last(), d);
    }
}

/// After `n` queries for a domain, applied to the empty state among any other
/// events, the count of the domain is `n`.
pub proof fn lemma_domain_count_from_empty(width: u64, events: Seq<TimedEvent>, d: Seq<char>)
    requires
        queries_for(events, d) <= u64::MAX,
    ensures
        count_in(apply_all(empty_state(width), events).query_domains, d) == queries_for(events, d),
{
    lemma_domain_count_is_number_of_queries(empty_state(width), events, d);
}

/// Hits and replies are the numbers of replies from the cache and of all
/// replies, added to what was counted before, up to the largest value a
/// counter holds.
pub proof fn lemma_hits_and_replies(s: StateView, events: Seq<TimedEvent>)
    ensures
        apply_all(s, events).hits == saturated(s.hits + replies(events, true)),
        apply_all(s, events).total_reqs == saturated(s.total_reqs + replies(events, false)),
    decreases events.len(),
{
    if events.len() > 0 {
        lemma_hits_and_replies(s, events.drop_last());
    }
}

/// The hit ratio after replies applied to the empty state is the number of
/// replies from the cache over the number of all replies, and there is none
/// while no reply was applied.
pub proof fn lemma_hit_ratio(width: u64, events: Seq<TimedEvent>)
    requires
        replies(events, false) <= u64::MAX,
    ensures
        replies(events, true) <= replies(events, false),
        (CacheHitsRate {
            hits: apply_all(empty_state(width), events).hits,
            total_reqs: apply_all(empty_state(width), events).total_reqs,
        }).ratio_spec() == if replies(events, false) == 0 {
            None
        } else {
            Some((replies(events, true) as u64, replies(events, false) as u64))
        },
{
    lemma_hits_and_replies(empty_state(width), events);
    lemma_cached_replies_are_replies(events);
}

/// There are no more replies from the cache than replies.
pub proof fn lemma_cached_replies_are_replies(events: Seq<TimedEvent>)
    ensures
        replies(events, true) <= replies(events, false),
    decreases events.len(),
{
    if events.len() > 0 {
        lemma_cached_replies_are_replies(events.drop_last());
    }
}

/// No event lowers a counter.
pub proof fn lemma_counters_never_fall(s: StateView, event: Option<ParsedLineView>, now: u64, key: Seq<char>)
    ensures
        count_in(apply_spec(s, event, now).query_domains, key) >= count_in(s.query_domains, key),
        count_in(apply_spec(s, event, now).query_sources, key) >= count_in(s.query_sources, key),
        count_in(apply_spec(s, event, now).query_types, key) >= count_in(s.query_types, key),
        count_in(apply_spec(s, event, now).nxdomain_replies, key) >= count_in(s.nxdomain_replies, key),
        apply_spec(s, event, now).hits >= s.hits,
        apply_spec(s, event, now).total_reqs >= s.total_reqs,
{
}

/// A state that has failed stays failed whatever is applied to it and
/// whatever happens to the process. No event changes the reason; a launch
/// that fails and a log that ends record their own.
pub proof fn lemma_failure_stays(s: StateView, event: Option<ParsedLineView>, happened: SupervisorEventView, now: u64)
    requires
        s.state_enum is Error,
    ensures
        apply_spec(s, event, now).state_enum == s.state_enum,
        step_spec(s, happened, now).0.state_enum is Error,
        happened matches SupervisorEventView::LaunchFailed(reason) ==> step_spec(s, happened, now).0.state_enum
            == LifecycleView::Error(reason),
        happened is Line || happened is Command ==> step_spec(s, happened, now).0.state_enum == s.state_enum,
{
}

/// A launch that fails leaves the state failed for the reason of that
/// failure, whatever the state was, and stops the supervisor.
pub proof fn lemma_launch_failure_is_recorded(s: StateView, reason: Seq<char>, now: u64)
    ensures
        step_spec(s, SupervisorEventView::LaunchFailed(reason), now).0.state_enum == LifecycleView::Error(reason),
        step_spec(s, SupervisorEventView::LaunchFailed(reason), now).1 == SupervisorAction::Stop,
{
}

/// The timeline after events applied to the empty state is the timeline of
/// the times of the queries among them: no other event touches it.
pub proof fn lemma_timeline_follows_queries(width: u64, events: Seq<TimedEvent>)
    ensures
        apply_all(empty_state(width), events).bucket_width == width,
        apply_all(empty_state(width), events).timeline == timeline_after(query_times(events), width),
    decreases events.len(),
{
    if events.len() > 0 {
        let before = events.drop_last();
        lemma_timeline_follows_queries(width, before);
        if events.last().0 matches Some(ParsedLineView::Query { .. }) {
            let times = query_times(before);
            assert(times.push(events.last().1).drop_last() =~= times);
        }
    } else {
        assert(timeline_after(query_times(events), width) =~= Seq::<TimeBucket>::empty());
    }
}

/// The timeline of a state is the windows that its queries touched: after
/// events applied to the empty state, with a width above zero and no query
/// at a time before the start of the open bucket, each bucket counts the
/// queries in its window, the windows lie apart, and every query lies in one.
pub proof fn lemma_state_timeline_matches_queries(width: u64, events: Seq<TimedEvent>)
    requires
        width > 0,
        never_behind(query_times(events), width),
        query_times(events).len() <= u64::MAX,
    ensures
        buckets_match(apply_all(empty_state(width), events).timeline, width, query_times(events)),
{
    lemma_timeline_follows_queries(width, events);
    lemma_buckets_count_their_windows(query_times(events), width);
}

/// The timeline of a state counts every query once: after events applied to
/// the empty state, the counts of the buckets add up to the number of the
/// queries among the events, and no bucket is empty.
pub proof fn lemma_state_timeline_counts_every_query(width: u64, events: Seq<TimedEvent>)
    requires
        query_times(events).len() <= u64::MAX,
    ensures
        total_count(apply_all(empty_state(width), events).timeline) == query_times(events).len(),
        counted(apply_all(empty_state(width), events).timeline),
{
    lemma_timeline_follows_queries(width, events);
    lemma_counts_add_up(query_times(events), width);
}

/// A snapshot taken after a launch that failed reports the failure with its
/// reason; where the state was empty before, it reports no version and no
/// cache size.
pub proof fn lemma_snapshot_reports_launch_failure(before: &DnsmasqState, after: &DnsmasqState, reason: Seq<char>, now: u64)
    requires
        after@ == step_spec(before@, SupervisorEventView::LaunchFailed(reason), now).0,
    ensures
        snapshot_spec(after).lifecycle == LifecycleView::Error(reason),
        snapshot_spec(after).version == before@.version,
        snapshot_spec(after).cache_capacity == before@.cache_size,
        forall|width: u64|
            before@ == empty_state(width) ==> snapshot_spec(after).version is None && snapshot_spec(
                after,
            ).cache_capacity is None,
{
}

} // verus!
