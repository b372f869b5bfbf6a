//! What the reporting layer is given: the state in two summaries.

use vstd::prelude::*;
use crate::address::IpAddress;
use crate::counters::{counters_view, Counter};
use crate::dnsmasq::{texts, DnsmasqState, DnsmasqStateEnum, HostMapping, LifecycleView};
use crate::timeline::{saturated, window_sum, TimeBucket};

verus! {

/// What is known of the process itself.
#[derive(Debug)]
pub struct StaticStateResponse<'a> {
    pub state_enum: &'a DnsmasqStateEnum,
    pub version: Option<&'a str>,
    pub cache_size: Option<u32>,
    pub name_servers: &'a Vec<String>,
    pub mappings: &'a Vec<HostMapping>,
}

/// The traffic, seen from `timestamp` back over a frame of `frame_size`, both
/// in milliseconds.
#[derive(Clone, Copy, Debug, PartialEq, Eq, Structural)]
pub struct DynStateResponse {
    pub timestamp: u64,
    pub frame_size: u64,
    /// The replies that came from the cache.
    pub num_hits: u64,
    /// All replies.
    pub num_reqs: u64,
    /// The queries in the buckets that start in the frame.
    pub num_since_start: u64,
}

/// The whole state at one moment, as values of its own.
#[derive(Debug)]
pub struct Snapshot {
    pub lifecycle: DnsmasqStateEnum,
    pub version: Option<String>,
    pub cache_capacity: Option<u32>,
    pub known_nameservers: Vec<String>,
    pub static_host_mappings: Vec<HostMapping>,
    pub query_count_by_domain: Vec<Counter>,
    pub query_count_by_source: Vec<Counter>,
    pub query_count_by_type: Vec<Counter>,
    pub cache_hits: u64,
    pub cache_total: u64,
    pub nxdomain_count_by_domain: Vec<Counter>,
    pub timeline: Vec<TimeBucket>,
}

/// A snapshot as mathematical values.
pub struct SnapshotView {
    pub lifecycle: LifecycleView,
    pub version: Option<Seq<char>>,
    pub cache_capacity: Option<u32>,
    pub known_nameservers: Seq<Seq<char>>,
    pub static_host_mappings: Seq<(IpAddress, Seq<Seq<char>>)>,
    pub query_count_by_domain: Seq<(Seq<char>, u64)>,
    pub query_count_by_source: Seq<(Seq<char>, u64)>,
    pub query_count_by_type: Seq<(Seq<char>, u64)>,
    pub cache_hits: u64,
    pub cache_total: u64,
    pub nxdomain_count_by_domain: Seq<(Seq<char>, u64)>,
    pub timeline: Seq<TimeBucket>,
}

/// Addresses and their names as mathematical values.
pub open spec fn mappings_view(v: Seq<HostMapping>) -> Seq<(IpAddress, Seq<Seq<char>>)> {
    Seq::new(v.len(), |i: int| (v[i].address, texts(v[i].names@)))
}

impl View for Snapshot {
    type V = SnapshotView;

    open spec fn view(&self) -> SnapshotView {
        SnapshotView {
            lifecycle: self.lifecycle@,
            version: match self.version {
                Some(v) => Some(v@),
                None => None,
            },
            cache_capacity: self.cache_capacity,
            known_nameservers: texts(self.known_nameservers@),
            static_host_mappings: mappings_view(self.static_host_mappings@),
            query_count_by_domain: counters_view(self.query_count_by_domain@),
            query_count_by_source: counters_view(self.query_count_by_source@),
            query_count_by_type: counters_view(self.query_count_by_type@),
            cache_hits: self.cache_hits,
            cache_total: self.cache_total,
            nxdomain_count_by_domain: counters_view(self.nxdomain_count_by_domain@),
            timeline: self.timeline@,
        }
    }
}

/// What a snapshot of `s` holds: the lifecycle with its reason, what is
/// known of the process, each counter table as its listing, hits and replies,
/// and the buckets of the timeline.
pub open spec fn snapshot_spec(s: &DnsmasqState) -> SnapshotView {
    SnapshotView {
        lifecycle: s@.state_enum,
        version: s@.version,
        cache_capacity: s@.cache_size,
        known_nameservers: s@.name_servers,
        static_host_mappings: mappings_view(s.addresses@),
        query_count_by_domain: s.query_domains.listing(),
        query_count_by_source: s.query_sources.listing(),
        query_count_by_type: s.query_types.listing(),
        cache_hits: s@.hits,
        cache_total: s@.total_reqs,
        nxdomain_count_by_domain: s.nxdomain_replies.listing(),
        timeline: s@.timeline,
    }
}

/// A copy of the texts `v`.
pub fn copy_texts(v: &Vec<String>) -> (r: Vec<String>)
    ensures
        texts(r@) == texts(v@),
{
    let mut r: Vec<String> = Vec::new();
    let mut i: usize = 0;
    while i < v.len()
        invariant
            i <= v@.len(),
            r@.len() == i,
            texts(r@) == texts(v@).subrange(0, i as int),
        decreases v@.len() - i,
    {
        let ghost before = r@;
        let text = v[i].clone();
        r.push(text);
        i += 1;
        assert forall|j: int| 0 <= j < i implies texts(r@)[j] == texts(v@)[j] by {
            if j < i - 1 {
                assert(texts(before)[j] == texts(v@).subrange(0, i - 1)[j]);
            }
        }
        assert(texts(r@) =~= texts(v@).subrange(0, i as int));
    }
    assert(texts(v@).subrange(0, i as int) =~= texts(v@));
    r
}

/// A copy of the addresses `v` with their names.
pub fn copy_mappings(v: &Vec<HostMapping>) -> (r: Vec<HostMapping>)
    ensures
        mappings_view(r@) == mappings_view(v@),
{
    let mut r: Vec<HostMapping> = Vec::new();
    let mut i: usize = 0;
    while i < v.len()
        invariant
            i <= v@.len(),
            r@.len() == i,
            mappings_view(r@) == mappings_view(v@).subrange(0, i as int),
        decreases v@.len() - i,
    {
        let ghost before = r@;
        let names = copy_texts(&v[i].names);
        r.push(HostMapping { address: v[i].address, names });
        i += 1;
        assert forall|j: int| 0 <= j < i implies mappings_view(r@)[j] == mappings_view(v@)[j] by {
            if j < i - 1 {
                assert(mappings_view(before)[j] == mappings_view(v@).subrange(0, i - 1)[j]);
            }
        }
        assert(mappings_view(r@) =~= mappings_view(v@).subrange(0, i as int));
    }
    assert(mappings_view(v@).subrange(0, i as int) =~= mappings_view(v@));
    r
}

impl DnsmasqStateEnum {
    /// A copy of the lifecycle, with its reason.
    pub fn copy(&self) -> (r: Self)
        ensures
            r@ == self@,
    {
        match self {
            DnsmasqStateEnum::Uninited => DnsmasqStateEnum::Uninited,
            DnsmasqStateEnum::Active => DnsmasqStateEnum::Active,
            DnsmasqStateEnum::Error(reason) => DnsmasqStateEnum::Error(reason.clone()),
        }
    }
}

impl DnsmasqState {
    /// The whole state at one moment. A state that has failed shows as
    /// failed, with the reason.
    pub fn snapshot(&self) -> (r: Snapshot)
        ensures
            r@ == snapshot_spec(self),
    {
        Snapshot {
            lifecycle: self.state_enum.copy(),
            version: match &self.version {
                Some(v) => Some(v.clone()),
                None => None,
            },
            cache_capacity: self.cache_size,
            known_nameservers: copy_texts(&self.name_servers),
            static_host_mappings: copy_mappings(&self.addresses),
            query_count_by_domain: self.query_domains.to_vec(),
            query_count_by_source: self.query_sources.to_vec(),
            query_count_by_type: self.query_types.to_vec(),
            cache_hits: self.hit_rate.hits,
            cache_total: self.hit_rate.total_reqs,
            nxdomain_count_by_domain: self.nxdomain_replies.to_vec(),
            timeline: self.timeline.to_vec(),
        }
    }

    /// The summary of the process: where it stands, version, cache size,
    /// nameservers in the order of their discovery, and the names that hosts
    /// files give to addresses.
    pub fn static_response(&self) -> (r: StaticStateResponse<'_>)
        ensures
            r.state_enum@ == self@.state_enum,
            match r.version {
                Some(v) => self@.version == Some(v@),
                None => self@.version is None,
            },
            r.cache_size == self@.cache_size,
            texts(r.name_servers@) == self@.name_servers,
            r.mappings == &self.addresses,
    {
        StaticStateResponse {
            state_enum: &self.state_enum,
            version: match &self.version {
                Some(v) => Some(v.as_str()),
                None => None,
            },
            cache_size: self.cache_size,
            name_servers: &self.name_servers,
            mappings: &self.addresses,
        }
    }

    /// The summary of the traffic for the frame of `frame_size` that ends at
    /// `timestamp`.
    pub fn dyn_response(&self, timestamp: u64, frame_size: u64) -> (r: DynStateResponse)
        ensures
            r == (DynStateResponse {
                timestamp,
                frame_size,
                num_hits: self@.hits,
                num_reqs: self@.total_reqs,
                num_since_start: saturated(
                    window_sum(self@.timeline, timestamp - frame_size, timestamp as int) as int,
                ),
            }),
    {
        DynStateResponse {
            timestamp,
            frame_size,
            num_hits: self.hit_rate.hits,
            num_reqs: self.hit_rate.total_reqs,
            num_since_start: self.timeline.requests_in_frame(timestamp, frame_size),
        }
    }
}

} // verus!
