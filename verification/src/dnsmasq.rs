//! The aggregate state of the supervised dnsmasq process and the rules by
//! which events change it.

use vstd::prelude::*;
use crate::address::IpAddress;
use crate::counters::{bump, bump_count, bumped, CounterTable};
use crate::line_parser::{event_view, DnsmasqParsedLine, ParsedLineView};
use crate::timeline::{record_spec, TimeBucket, Timeline};

verus! {

/// The width of a timeline bucket unless another is asked for: 60 minutes, in
/// milliseconds.
pub const DEFAULT_BUCKET_WIDTH: u64 = 3_600_000;

/// Replies counted, and how many of them came from the cache.
#[derive(Debug)]
pub struct CacheHitsRate {
    pub total_reqs: u64,
    pub hits: u64,
}

impl Default for CacheHitsRate {
    fn default() -> (r: Self)
        ensures
            r.total_reqs == 0,
            r.hits == 0,
    {
        CacheHitsRate { total_reqs: 0, hits: 0 }
    }
}

impl CacheHitsRate {
    /// No more hits than replies.
    pub open spec fn wf(&self) -> bool {
        self.hits <= self.total_reqs
    }

    /// The hit ratio as a fraction, hits over replies; none before the first reply.
    pub open spec fn ratio_spec(&self) -> Option<(u64, u64)> {
        if self.total_reqs == 0 {
            None
        } else {
            Some((self.hits, self.total_reqs))
        }
    }

    /// The hit ratio as the pair of hits and replies, to be divided by the
    /// caller; `None` while no reply was counted, when there is no ratio.
    pub fn get_ratio(&self) -> (r: Option<(u64, u64)>)
        ensures
            r == self.ratio_spec(),
    {
        if self.total_reqs == 0 {
            None
        } else {
            Some((self.hits, self.total_reqs))
        }
    }

    /// Counts a reply that came from the cache.
    pub fn hit(&mut self)
        ensures
            final(self).hits == bump(old(self).hits),
            final(self).total_reqs == bump(old(self).total_reqs),
    {
        self.hits = bump_count(self.hits);
        self.total_reqs = bump_count(self.total_reqs);
    }

    /// Counts a reply that did not come from the cache.
    pub fn miss(&mut self)
        ensures
            final(self).hits == old(self).hits,
            final(self).total_reqs == bump(old(self).total_reqs),
    {
        self.total_reqs = bump_count(self.total_reqs);
    }
}

/// How a query ended, or that it has not yet.
#[derive(Clone, Copy, Debug, PartialEq, Eq, Structural)]
pub enum QueryState {
    RUNNING,
    HIT,
    MISS,
    NX,
}

impl QueryState {
    /// The number that stands for the state: 0 to 3 in the order of the variants.
    pub open spec fn code_spec(self) -> u8 {
        match self {
            QueryState::RUNNING => 0,
            QueryState::HIT => 1,
            QueryState::MISS => 2,
            QueryState::NX => 3,
        }
    }

    /// The state of a reply: without an address the name does not exist; else
    /// a hit where the cache served it, a miss where it did not.
    pub open spec fn of_reply_spec(cached: bool, has_result: bool) -> QueryState {
        if !has_result {
            QueryState::NX
        } else if cached {
            QueryState::HIT
        } else {
            QueryState::MISS
        }
    }

    /// The number that stands for the state.
    pub fn code(self) -> (c: u8)
        ensures
            c == self.code_spec(),
    {
        match self {
            QueryState::RUNNING => 0,
            QueryState::HIT => 1,
            QueryState::MISS => 2,
            QueryState::NX => 3,
        }
    }

    /// The state that `code` stands for; none for a number that stands for no state.
    pub fn from_code(code: i64) -> (r: Option<QueryState>)
        ensures
            r is Some == (0 <= code <= 3),
            r matches Some(s) ==> s.code_spec() == code,
    {
        if code == 0 {
            Some(QueryState::RUNNING)
        } else if code == 1 {
            Some(QueryState::HIT)
        } else if code == 2 {
            Some(QueryState::MISS)
        } else if code == 3 {
            Some(QueryState::NX)
        } else {
            None
        }
    }

    /// The state of a reply, from whether the cache served it and whether it
    /// carries an address.
    pub fn of_reply(cached: bool, has_result: bool) -> (s: QueryState)
        ensures
            s == Self::of_reply_spec(cached, has_result),
    {
        if !has_result {
            QueryState::NX
        } else if cached {
            QueryState::HIT
        } else {
            QueryState::MISS
        }
    }
}

/// Where the supervised process stands.
#[derive(Debug)]
pub enum DnsmasqStateEnum {
    Uninited,
    Active,
    Error(String),
}

/// A lifecycle state with its reason as a sequence of characters.
pub enum LifecycleView {
    Uninited,
    Active,
    Error(Seq<char>),
}

impl View for DnsmasqStateEnum {
    type V = LifecycleView;

    open spec fn view(&self) -> LifecycleView {
        match *self {
            DnsmasqStateEnum::Uninited => LifecycleView::Uninited,
            DnsmasqStateEnum::Active => LifecycleView::Active,
            DnsmasqStateEnum::Error(reason) => LifecycleView::Error(reason@),
        }
    }
}

/// A control message to the supervisor.
#[derive(Clone, Copy, Debug, PartialEq, Eq, Structural)]
pub enum DnsmasqCommand {
    Update,
}

/// The names that a hosts file gives to one address.
#[derive(Debug)]
pub struct HostMapping {
    pub address: IpAddress,
    pub names: Vec<String>,
}

/// What is known of the supervised process, and the counts of its traffic.
#[derive(Debug)]
pub struct DnsmasqState {
    pub state_enum: DnsmasqStateEnum,
    pub version: Option<String>,
    pub cache_size: Option<u32>,
    pub name_servers: Vec<String>,
    pub addresses: Vec<HostMapping>,
    pub query_sources: CounterTable,
    pub query_types: CounterTable,
    pub query_domains: CounterTable,
    pub hit_rate: CacheHitsRate,
    pub nxdomain_replies: CounterTable,
    pub timeline: Timeline,
}

/// The state as mathematical values.
pub struct StateView {
    pub state_enum: LifecycleView,
    pub version: Option<Seq<char>>,
    pub cache_size: Option<u32>,
    pub name_servers: Seq<Seq<char>>,
    pub query_sources: Map<Seq<char>, u64>,
    pub query_types: Map<Seq<char>, u64>,
    pub query_domains: Map<Seq<char>, u64>,
    pub hits: u64,
    pub total_reqs: u64,
    pub nxdomain_replies: Map<Seq<char>, u64>,
    pub timeline: Seq<TimeBucket>,
    pub bucket_width: u64,
}

/// The texts of `v`.
pub open spec fn texts(v: Seq<String>) -> Seq<Seq<char>> {
    Seq::new(v.len(), |i: int| v[i]@)
}

impl View for DnsmasqState {
    type V = StateView;

    open spec fn view(&self) -> StateView {
        StateView {
            state_enum: self.state_enum@,
            version: match self.version {
                Some(v) => Some(v@),
                None => None,
            },
            cache_size: self.cache_size,
            name_servers: texts(self.name_servers@),
            query_sources: self.query_sources@,
            query_types: self.query_types@,
            query_domains: self.query_domains@,
            hits: self.hit_rate.hits,
            total_reqs: self.hit_rate.total_reqs,
            nxdomain_replies: self.nxdomain_replies@,
            timeline: self.timeline@,
            bucket_width: self.timeline.bucket_width(),
        }
    }
}

/// The state before anything is known, with timeline buckets of `width`.
pub open spec fn empty_state(width: u64) -> StateView {
    StateView {
        state_enum: LifecycleView::Uninited,
        version: None,
        cache_size: None,
        name_servers: Seq::empty(),
        query_sources: Map::empty(),
        query_types: Map::empty(),
        query_domains: Map::empty(),
        hits: 0,
        total_reqs: 0,
        nxdomain_replies: Map::empty(),
        timeline: Seq::empty(),
        bucket_width: width,
    }
}

/// The lifecycle after a startup banner: active, but a failure stays.
pub open spec fn activated(l: LifecycleView) -> LifecycleView {
    match l {
        LifecycleView::Error(reason) => l,
        _ => LifecycleView::Active,
    }
}

/// The state after a failure with `reason`: failed for that reason, whatever
/// the lifecycle was, and all else as it stood.
pub open spec fn fail_spec(s: StateView, reason: Seq<char>) -> StateView {
    StateView { state_enum: LifecycleView::Error(reason), ..s }
}

/// The state after a startup banner.
pub open spec fn started_spec(s: StateView, version: Seq<char>, cache_size: u32) -> StateView {
    StateView {
        state_enum: activated(s.state_enum),
        version: Some(version),
        cache_size: Some(cache_size),
        ..s
    }
}

/// The state after a query at the time `now`: its source, type and domain are
/// counted once more, and the timeline counts the query.
pub open spec fn start_query_spec(
    s: StateView,
    source: Seq<char>,
    domain: Seq<char>,
    query_type: Seq<char>,
    now: u64,
) -> StateView {
    StateView {
        query_sources: bumped(s.query_sources, source),
        query_types: bumped(s.query_types, query_type),
        query_domains: bumped(s.query_domains, domain),
        timeline: record_spec(s.timeline, s.bucket_width, now),
        ..s
    }
}

/// The state after a reply: one more reply, one more hit where the cache
/// served it, and one more missing name for the domain where it carries no
/// address.
pub open spec fn finish_query_spec(s: StateView, domain: Seq<char>, cached: bool, has_result: bool) -> StateView {
    StateView {
        hits: if cached {
            bump(s.hits)
        } else {
            s.hits
        },
        total_reqs: bump(s.total_reqs),
        nxdomain_replies: if has_result {
            s.nxdomain_replies
        } else {
            bumped(s.nxdomain_replies, domain)
        },
        ..s
    }
}

/// The state after `event` at the time `now`. No event and a hosts-file banner
/// change nothing.
pub open spec fn apply_spec(s: StateView, event: Option<ParsedLineView>, now: u64) -> StateView {
    match event {
        None => s,
        Some(ParsedLineView::Start { version, cache_size }) => started_spec(s, version, cache_size),
        Some(ParsedLineView::NameServer(address)) => StateView {
            name_servers: s.name_servers.push(address),
            ..s
        },
        Some(ParsedLineView::ReadHosts { path, address_count }) => s,
        Some(ParsedLineView::Query { id, source, query, domain, from }) => start_query_spec(
            s,
            source,
            domain,
            query,
            now,
        ),
        Some(ParsedLineView::Reply { id, cached, domain, result }) => finish_query_spec(
            s,
            domain,
            cached,
            result is Some,
        ),
    }
}

impl DnsmasqState {
    /// The counters hold no key twice, the timeline is in order, and there
    /// are no more hits than replies.
    pub open spec fn wf(&self) -> bool {
        &&& self.query_sources.wf()
        &&& self.query_types.wf()
        &&& self.query_domains.wf()
        &&& self.nxdomain_replies.wf()
        &&& self.timeline.wf()
        &&& self.hit_rate.wf()
    }

    /// The state before anything is known, around an empty timeline.
    fn fresh(timeline: Timeline) -> (state: Self)
        requires
            timeline.wf(),
            timeline@.len() == 0,
        ensures
            state.wf(),
            state@ == empty_state(timeline.bucket_width()),
            state.addresses@.len() == 0,
    {
        let state = DnsmasqState {
            state_enum: DnsmasqStateEnum::Uninited,
            version: None,
            cache_size: None,
            name_servers: Vec::new(),
            addresses: Vec::new(),
            query_sources: CounterTable::new(),
            query_types: CounterTable::new(),
            query_domains: CounterTable::new(),
            hit_rate: CacheHitsRate::default(),
            nxdomain_replies: CounterTable::new(),
            timeline,
        };
        assert(state@.name_servers =~= Seq::<Seq<char>>::empty());
        assert(state@.timeline =~= Seq::<TimeBucket>::empty());
        state
    }

    /// The state before anything is known, with timeline buckets of 60 minutes.
    pub fn empty() -> (r: Self)
        ensures
            r.wf(),
            r@ == empty_state(DEFAULT_BUCKET_WIDTH),
            r.addresses@.len() == 0,
    {
        Self::fresh(Timeline::new(DEFAULT_BUCKET_WIDTH).unwrap())
    }

    /// The state before anything is known, with timeline buckets of `width`;
    /// none for a width of zero.
    pub fn with_bucket_width(width: u64) -> (r: Option<Self>)
        ensures
            r is Some == (width > 0),
            r matches Some(s) ==> s.wf() && s@ == empty_state(width) && s.addresses@.len() == 0,
    {
        match Timeline::new(width) {
            None => None,
            Some(timeline) => Some(Self::fresh(timeline)),
        }
    }

    /// Takes note of a startup banner: version and cache size are set, and the
    /// process is active unless it has failed.
    pub fn started(&mut self, version: String, cache_size: u32)
        requires
            old(self).wf(),
        ensures
            final(self).wf(),
            final(self)@ == started_spec(old(self)@, version@, cache_size),
            final(self).addresses == old(self).addresses,
    {
        self.version = Some(version);
        self.cache_size = Some(cache_size);
        match &self.state_enum {
            DnsmasqStateEnum::Error(_) => {},
            _ => {
                self.state_enum = DnsmasqStateEnum::Active;
            },
        }
    }

    /// Takes note of a nameserver: it is added behind those known, also where
    /// it is known already.
    pub fn name_server_discovered(&mut self, address: String)
        requires
            old(self).wf(),
        ensures
            final(self).wf(),
            final(self)@ == (StateView {
                name_servers: old(self)@.name_servers.push(address@),
                ..old(self)@
            }),
            final(self).addresses == old(self).addresses,
    {
        self.name_servers.push(address);
        assert(texts(self.name_servers@) =~= texts(old(self).name_servers@).push(address@));
    }

    /// Counts a query that started at the time `now`. The id is not kept: the
    /// process uses its ids again, and no query is matched with its reply.
    pub fn start_query(&mut self, id: u64, source: String, domain: String, query_type: String, now: u64)
        requires
            old(self).wf(),
        ensures
            final(self).wf(),
            final(self)@ == start_query_spec(old(self)@, source@, domain@, query_type@, now),
            final(self).addresses == old(self).addresses,
    {
        self.query_sources.increment(source);
        self.query_types.increment(query_type);
        self.query_domains.increment(domain);
        self.timeline.record(now);
    }

    /// Counts a reply. The reply need not belong to a query that was counted.
    pub fn finish_query(&mut self, id: u64, domain: String, cached: bool, result: Option<IpAddress>)
        requires
            old(self).wf(),
        ensures
            final(self).wf(),
            final(self)@ == finish_query_spec(old(self)@, domain@, cached, result is Some),
            final(self).addresses == old(self).addresses,
    {
        if cached {
            self.hit_rate.hit();
        } else {
            self.hit_rate.miss();
        }
        if result.is_none() {
            self.nxdomain_replies.increment(domain);
        }
    }

    /// Marks the process as failed for `reason`: it could not be launched, or
    /// it has ended. The reason is recorded whatever the lifecycle was.
    pub fn fail(&mut self, reason: String)
        requires
            old(self).wf(),
        ensures
            final(self).wf(),
            final(self)@ == fail_spec(old(self)@, reason@),
            final(self).addresses == old(self).addresses,
    {
        self.state_enum = DnsmasqStateEnum::Error(reason);
    }

    /// Applies one event, or none, at the time `now`.
    pub fn apply(&mut self, event: Option<DnsmasqParsedLine>, now: u64)
        requires
            old(self).wf(),
        ensures
            final(self).wf(),
            final(self)@ == apply_spec(old(self)@, event_view(event), now),
            final(self).addresses == old(self).addresses,
    {
        match event {
            None => {},
            Some(DnsmasqParsedLine::Start { version, cache_size }) => {
                self.started(version, cache_size);
            },
            Some(DnsmasqParsedLine::NameServer(address)) => {
                self.name_server_discovered(address);
            },
            Some(DnsmasqParsedLine::ReadHosts { path, address_count }) => {},
            Some(DnsmasqParsedLine::Query { id, source, query, domain, from }) => {
                self.start_query(id, source, domain, query, now);
            },
            Some(DnsmasqParsedLine::Reply { id, cached, domain, result }) => {
                self.finish_query(id, domain, cached, result);
            },
        }
    }
}

} // verus!
