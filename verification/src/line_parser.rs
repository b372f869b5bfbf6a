//! The line grammar: six patterns, tried in a fixed order, that turn one log
//! line into a typed event.

use vstd::prelude::*;
use regex::Regex;
use crate::address::{parse_ip, parse_ip_spec, IpAddress};
use crate::text::{parse_u32, parse_u64, parse_unsigned_spec};

verus! {

/// A compiled regular expression, as the `regex` crate holds it.
#[verifier::external_type_specification]
#[verifier::external_body]
pub struct ExRegex(Regex);

/// Whether `Regex::new` accepts `pattern`: the pattern is a regular
/// expression, and its compiled form is within the size that `Regex::new` allows.
pub uninterp spec fn regex_compiles(pattern: Seq<char>) -> bool;

/// The pattern text that a compiled expression was made from: what
/// `Regex::as_str` returns.
pub uninterp spec fn regex_source(re: Regex) -> Seq<char>;

/// Whether an expression was built as `Regex::new` builds it, with no option
/// of a `RegexBuilder` changed: only then does its pattern text alone say
/// what it matches.
pub uninterp spec fn regex_is_default(re: Regex) -> bool;

/// What `Regex::captures` finds in `line` for the expression that `Regex::new`
/// makes from `pattern`: `None` where the pattern matches nowhere; else, for
/// the leftmost match, the text of every capture group by its index, `None`
/// for a group that took no part. Group 0 is the whole match, the others are
/// numbered by their opening parenthesis.
pub uninterp spec fn regex_captures(pattern: Seq<char>, line: Seq<char>) -> Option<Seq<Option<Seq<char>>>>;

/// A query line. Groups: 1 id, 2 source, 3 query, 4 domain, 5 from.
pub const QUERY_PATTERN: &'static str =
    r"dnsmasq\[\d+\]: (?P<id>\d+) (?P<source>\S+) query\[(?P<query>\w+)\] (?P<domain>[\w\.]+) from (?P<from>\S+)";

/// A reply from the cache. Groups: 1 id, 2 source, 3 domain, 4 ip.
pub const REPLY_CACHED_PATTERN: &'static str =
    r"dnsmasq\[\d+\]: (?P<id>\d+) (?P<source>\S+) cached (?P<domain>[\w\.]+) is (?P<ip>\S+)";

/// A reply from a nameserver. Groups: 1 id, 2 source, 3 domain, 4 ip.
pub const REPLY_PATTERN: &'static str =
    r"dnsmasq\[\d+\]: (?P<id>\d+) (?P<source>\S+) reply (?P<domain>[\w\.]+) is (?P<ip>\S+)";

/// The startup banner. Groups: 1 version, 2 cachesize.
pub const VERSION_INFO_PATTERN: &'static str =
    r"dnsmasq\[\d+\]: started, version (?P<version>(?:\d+\.?)+) cachesize (?P<cachesize>\d+)";

/// The hosts-file banner. Groups: 1 path, 2 the last part of the path, 3 address_count.
pub const READ_HOSTS_PATTERN: &'static str =
    r"dnsmasq\[\d+\]: read (?P<path>(/\S+)+) - (?P<address_count>\d+) addresses";

/// The nameserver banner. Group: 1 address, with its port where it has one.
pub const NAMESERVER_PATTERN: &'static str =
    r"dnsmasq\[\d+\]: using nameserver (?P<address>(?:[\d\.])+(?:\#\d+)?)";

/// Why a pattern could not be compiled.
#[derive(Debug)]
pub enum PatternError {
    /// The pattern is not a regular expression.
    Syntax(String),
    /// The compiled expression would be larger than the given limit.
    TooBig(usize),
    /// Any other failure.
    Other,
}

/// One recognised log line.
#[derive(Debug)]
pub enum DnsmasqParsedLine {
    Start { version: String, cache_size: u32 },
    NameServer(String),
    ReadHosts { path: String, address_count: u32 },
    Query { id: u64, source: String, query: String, domain: String, from: IpAddress },
    Reply { id: u64, cached: bool, domain: String, result: Option<IpAddress> },
}

/// A recognised log line, with its texts as sequences of characters.
pub enum ParsedLineView {
    Start { version: Seq<char>, cache_size: u32 },
    NameServer(Seq<char>),
    ReadHosts { path: Seq<char>, address_count: u32 },
    Query { id: u64, source: Seq<char>, query: Seq<char>, domain: Seq<char>, from: IpAddress },
    Reply { id: u64, cached: bool, domain: Seq<char>, result: Option<IpAddress> },
}

impl View for DnsmasqParsedLine {
    type V = ParsedLineView;

    open spec fn view(&self) -> ParsedLineView {
        match *self {
            DnsmasqParsedLine::Start { version, cache_size } => ParsedLineView::Start {
                version: version@,
                cache_size,
            },
            DnsmasqParsedLine::NameServer(address) => ParsedLineView::NameServer(address@),
            DnsmasqParsedLine::ReadHosts { path, address_count } => ParsedLineView::ReadHosts {
                path: path@,
                address_count,
            },
            DnsmasqParsedLine::Query { id, source, query, domain, from } => ParsedLineView::Query {
                id,
                source: source@,
                query: query@,
                domain: domain@,
                from,
            },
            DnsmasqParsedLine::Reply { id, cached, domain, result } => ParsedLineView::Reply {
                id,
                cached,
                domain: domain@,
                result,
            },
        }
    }
}

/// The view of an optional event.
pub open spec fn event_view(e: Option<DnsmasqParsedLine>) -> Option<ParsedLineView> {
    match e {
        Some(e) => Some(e@),
        None => None,
    }
}

/// The capture groups `g` as texts.
pub open spec fn groups_text(g: Seq<Option<String>>) -> Seq<Option<Seq<char>>> {
    Seq::new(
        g.len(),
        |i: int|
            match g[i] {
                Some(s) => Some(s@),
                None => None,
            },
    )
}

/// The result of a capture as texts.
pub open spec fn captures_text(c: Option<Vec<Option<String>>>) -> Option<Seq<Option<Seq<char>>>> {
    match c {
        Some(g) => Some(groups_text(g@)),
        None => None,
    }
}

/// The text of group `i`, if there is such a group and it took part in the match.
pub open spec fn group_at(g: Seq<Option<Seq<char>>>, i: int) -> Option<Seq<char>> {
    if 0 <= i < g.len() {
        g[i]
    } else {
        None
    }
}

/// The event of a query line, from the groups id, source, query, domain and
/// from (1 to 5): the id must be a `u64` and `from` an IP address.
pub open spec fn query_event_spec(g: Seq<Option<Seq<char>>>) -> Option<ParsedLineView> {
    match (group_at(g, 1), group_at(g, 2), group_at(g, 3), group_at(g, 4), group_at(g, 5)) {
        (Some(id), Some(source), Some(query), Some(domain), Some(from)) => match (
            parse_unsigned_spec(id, u64::MAX as nat),
            parse_ip_spec(from),
        ) {
            (Some(id), Some(from)) => Some(
                ParsedLineView::Query { id: id as u64, source, query, domain, from },
            ),
            _ => None,
        },
        _ => None,
    }
}

/// The event of a reply line, from the groups id, domain and ip (1, 3 and 4).
/// A cached reply must carry an IP address; any other reply carries the
/// address that its last token writes, if it writes one.
pub open spec fn reply_event_spec(g: Seq<Option<Seq<char>>>, cached: bool) -> Option<ParsedLineView> {
    match (group_at(g, 1), group_at(g, 3), group_at(g, 4)) {
        (Some(id), Some(domain), Some(ip)) => match parse_unsigned_spec(id, u64::MAX as nat) {
            Some(id) => if cached && parse_ip_spec(ip) is None {
                None
            } else {
                Some(
                    ParsedLineView::Reply {
                        id: id as u64,
                        cached,
                        domain,
                        result: parse_ip_spec(ip),
                    },
                )
            },
            None => None,
        },
        _ => None,
    }
}

/// The event of a startup banner, from the groups version and cachesize (1
/// and 2): the cache size must be a `u32`.
pub open spec fn start_event_spec(g: Seq<Option<Seq<char>>>) -> Option<ParsedLineView> {
    match (group_at(g, 1), group_at(g, 2)) {
        (Some(version), Some(size)) => match parse_unsigned_spec(size, u32::MAX as nat) {
            Some(size) => Some(ParsedLineView::Start { version, cache_size: size as u32 }),
            None => None,
        },
        _ => None,
    }
}

/// The event of a hosts-file banner, from the groups path and address_count
/// (1 and 3): the count must be a `u32`.
pub open spec fn read_hosts_event_spec(g: Seq<Option<Seq<char>>>) -> Option<ParsedLineView> {
    match (group_at(g, 1), group_at(g, 3)) {
        (Some(path), Some(count)) => match parse_unsigned_spec(count, u32::MAX as nat) {
            Some(count) => Some(ParsedLineView::ReadHosts { path, address_count: count as u32 }),
            None => None,
        },
        _ => None,
    }
}

/// The event of a nameserver banner, from the group address (1), kept as it stands.
pub open spec fn name_server_event_spec(g: Seq<Option<Seq<char>>>) -> Option<ParsedLineView> {
    match group_at(g, 1) {
        Some(address) => Some(ParsedLineView::NameServer(address)),
        None => None,
    }
}

/// The event that the captures of the six patterns give, the first pattern
/// that matches deciding alone: query, cached reply, reply, startup banner,
/// hosts-file banner, nameserver banner.
pub open spec fn classify_captures(
    query: Option<Seq<Option<Seq<char>>>>,
    reply_cached: Option<Seq<Option<Seq<char>>>>,
    reply: Option<Seq<Option<Seq<char>>>>,
    version_info: Option<Seq<Option<Seq<char>>>>,
    read_hosts: Option<Seq<Option<Seq<char>>>>,
    nameserver: Option<Seq<Option<Seq<char>>>>,
) -> Option<ParsedLineView> {
    if let Some(g) = query {
        query_event_spec(g)
    } else if let Some(g) = reply_cached {
        reply_event_spec(g, true)
    } else if let Some(g) = reply {
        reply_event_spec(g, false)
    } else if let Some(g) = version_info {
        start_event_spec(g)
    } else if let Some(g) = read_hosts {
        read_hosts_event_spec(g)
    } else if let Some(g) = nameserver {
        name_server_event_spec(g)
    } else {
        None
    }
}

/// The event that `line` is classified as.
pub open spec fn parse_line_spec(line: Seq<char>) -> Option<ParsedLineView> {
    classify_captures(
        regex_captures(QUERY_PATTERN@, line),
        regex_captures(REPLY_CACHED_PATTERN@, line),
        regex_captures(REPLY_PATTERN@, line),
        regex_captures(VERSION_INFO_PATTERN@, line),
        regex_captures(READ_HOSTS_PATTERN@, line),
        regex_captures(NAMESERVER_PATTERN@, line),
    )
}

/// Calls `Regex::new`. Trusted: it succeeds on the patterns that
/// `regex_compiles` names and on no others, and an expression that it returns
/// reports `pattern` as its source and is built with the default options.
/// Nothing is claimed of which error it gives; the error is handed on variant
/// by variant.
#[verifier::external_body]
fn compile(pattern: &str) -> (r: Result<Regex, PatternError>)
    ensures
        r is Ok == regex_compiles(pattern@),
        r matches Ok(re) ==> regex_source(re) == pattern@ && regex_is_default(re),
{
    match Regex::new(pattern) {
        Ok(re) => Ok(re),
        Err(regex::Error::Syntax(text)) => Err(PatternError::Syntax(text)),
        Err(regex::Error::CompiledTooBig(limit)) => Err(PatternError::TooBig(limit)),
        Err(_) => Err(PatternError::Other),
    }
}

/// Calls `Regex::captures` and copies out the text of each group that
/// `Captures::iter` yields. Trusted: for an expression built with the default
/// options, the result is what `regex_captures` names for the source of `re`
/// and `line`.
#[verifier::external_body]
fn capture_groups(re: &Regex, line: &str) -> (groups: Option<Vec<Option<String>>>)
    requires
        regex_is_default(*re),
    ensures
        captures_text(groups) == regex_captures(regex_source(*re), line@),
{
    match re.captures(line) {
        None => None,
        Some(found) => {
            let mut groups: Vec<Option<String>> = Vec::new();
            for group in found.iter() {
                groups.push(match group {
                    Some(m) => Some(m.as_str().to_string()),
                    None => None,
                });
            }
            Some(groups)
        },
    }
}

/// The text of group `i`.
pub fn group<'a>(groups: &'a Vec<Option<String>>, i: usize) -> (r: Option<&'a str>)
    ensures
        match r {
            Some(s) => group_at(groups_text(groups@), i as int) == Some(s@),
            None => group_at(groups_text(groups@), i as int) is None,
        },
{
    if i < groups.len() {
        match &groups[i] {
            Some(s) => Some(s.as_str()),
            None => None,
        }
    } else {
        None
    }
}

/// Builds the event of a query line from its capture groups.
pub fn query_event(groups: &Vec<Option<String>>) -> (r: Option<DnsmasqParsedLine>)
    ensures
        event_view(r) == query_event_spec(groups_text(groups@)),
{
    let id = parse_u64(group(groups, 1)?)?;
    let source = group(groups, 2)?.to_owned();
    let query = group(groups, 3)?.to_owned();
    let domain = group(groups, 4)?.to_owned();
    let from = parse_ip(group(groups, 5)?)?;
    Some(DnsmasqParsedLine::Query { id, source, query, domain, from })
}

/// Builds the event of a reply line, cached or not, from its capture groups.
pub fn reply_event(groups: &Vec<Option<String>>, cached: bool) -> (r: Option<DnsmasqParsedLine>)
    ensures
        event_view(r) == reply_event_spec(groups_text(groups@), cached),
{
    let id = parse_u64(group(groups, 1)?)?;
    let domain = group(groups, 3)?.to_owned();
    let result = parse_ip(group(groups, 4)?);
    if cached && result.is_none() {
        return None;
    }
    Some(DnsmasqParsedLine::Reply { id, cached, domain, result })
}

/// Builds the event of a startup banner from its capture groups.
pub fn start_event(groups: &Vec<Option<String>>) -> (r: Option<DnsmasqParsedLine>)
    ensures
        event_view(r) == start_event_spec(groups_text(groups@)),
{
    let version = group(groups, 1)?.to_owned();
    let cache_size = parse_u32(group(groups, 2)?)?;
    Some(DnsmasqParsedLine::Start { version, cache_size })
}

/// Builds the event of a hosts-file banner from its capture groups.
pub fn read_hosts_event(groups: &Vec<Option<String>>) -> (r: Option<DnsmasqParsedLine>)
    ensures
        event_view(r) == read_hosts_event_spec(groups_text(groups@)),
{
    let path = group(groups, 1)?.to_owned();
    let address_count = parse_u32(group(groups, 3)?)?;
    Some(DnsmasqParsedLine::ReadHosts { path, address_count })
}

/// Builds the event of a nameserver banner from its capture groups.
pub fn name_server_event(groups: &Vec<Option<String>>) -> (r: Option<DnsmasqParsedLine>)
    ensures
        event_view(r) == name_server_event_spec(groups_text(groups@)),
{
    let address = group(groups, 1)?.to_owned();
    Some(DnsmasqParsedLine::NameServer(address))
}

/// The six compiled patterns of the grammar.
pub struct DnsmasqLineParser {
    regex_version_info: Regex,
    regex_nameserver: Regex,
    regex_read_hosts: Regex,
    regex_query: Regex,
    regex_reply: Regex,
    regex_reply_cached: Regex,
}

impl DnsmasqLineParser {
    /// Each field holds the pattern of its name, built with the default options.
    #[verifier::type_invariant]
    pub closed spec fn well_formed(&self) -> bool {
        &&& Self::made_from(Ok(self.regex_version_info), VERSION_INFO_PATTERN@)
        &&& Self::made_from(Ok(self.regex_nameserver), NAMESERVER_PATTERN@)
        &&& Self::made_from(Ok(self.regex_read_hosts), READ_HOSTS_PATTERN@)
        &&& Self::made_from(Ok(self.regex_query), QUERY_PATTERN@)
        &&& Self::made_from(Ok(self.regex_reply), REPLY_PATTERN@)
        &&& Self::made_from(Ok(self.regex_reply_cached), REPLY_CACHED_PATTERN@)
    }

    /// Whether all six patterns compile.
    pub open spec fn patterns_compile() -> bool {
        &&& regex_compiles(VERSION_INFO_PATTERN@)
        &&& regex_compiles(NAMESERVER_PATTERN@)
        &&& regex_compiles(READ_HOSTS_PATTERN@)
        &&& regex_compiles(QUERY_PATTERN@)
        &&& regex_compiles(REPLY_PATTERN@)
        &&& regex_compiles(REPLY_CACHED_PATTERN@)
    }

    /// Compiles the six patterns: a parser where all six compile, else the
    /// error of the first that does not.
    pub fn new() -> (r: Result<Self, PatternError>)
        ensures
            r is Ok == Self::patterns_compile(),
            r matches Ok(parser) ==> parser.well_formed(),
    {
        Self::from_compiled(
            compile(VERSION_INFO_PATTERN),
            compile(NAMESERVER_PATTERN),
            compile(READ_HOSTS_PATTERN),
            compile(QUERY_PATTERN),
            compile(REPLY_PATTERN),
            compile(REPLY_CACHED_PATTERN),
        )
    }

    /// Whether `compiled` is an error, or an expression made from `pattern`
    /// with the default options.
    pub open spec fn made_from(compiled: Result<Regex, PatternError>, pattern: Seq<char>) -> bool {
        compiled matches Ok(re) ==> regex_source(re) == pattern && regex_is_default(re)
    }

    /// Whether the parser holds these six expressions, each in the field of its name.
    pub closed spec fn holds(
        &self,
        version_info: Regex,
        nameserver: Regex,
        read_hosts: Regex,
        query: Regex,
        reply: Regex,
        reply_cached: Regex,
    ) -> bool {
        &&& self.regex_version_info == version_info
        &&& self.regex_nameserver == nameserver
        &&& self.regex_read_hosts == read_hosts
        &&& self.regex_query == query
        &&& self.regex_reply == reply
        &&& self.regex_reply_cached == reply_cached
    }

    /// What the results of compiling the six patterns come to: a parser of
    /// the six expressions where all six compiled, else the error of the
    /// first that did not, in the order of the parameters.
    pub open spec fn assembled(
        r: Result<Self, PatternError>,
        version_info: Result<Regex, PatternError>,
        nameserver: Result<Regex, PatternError>,
        read_hosts: Result<Regex, PatternError>,
        query: Result<Regex, PatternError>,
        reply: Result<Regex, PatternError>,
        reply_cached: Result<Regex, PatternError>,
    ) -> bool {
        match (version_info, nameserver, read_hosts, query, reply, reply_cached) {
            (Ok(a), Ok(b), Ok(c), Ok(d), Ok(e), Ok(f)) => r is Ok && r->Ok_0.holds(a, b, c, d, e, f),
            (Err(e), _, _, _, _, _) => r == Err::<Self, PatternError>(e),
            (_, Err(e), _, _, _, _) => r == Err::<Self, PatternError>(e),
            (_, _, Err(e), _, _, _) => r == Err::<Self, PatternError>(e),
            (_, _, _, Err(e), _, _) => r == Err::<Self, PatternError>(e),
            (_, _, _, _, Err(e), _) => r == Err::<Self, PatternError>(e),
            (_, _, _, _, _, Err(e)) => r == Err::<Self, PatternError>(e),
        }
    }

    /// Puts the parser together from the results of compiling the six
    /// patterns, each of which is an error or an expression made from the
    /// pattern of its name with the default options.
    pub fn from_compiled(
        version_info: Result<Regex, PatternError>,
        nameserver: Result<Regex, PatternError>,
        read_hosts: Result<Regex, PatternError>,
        query: Result<Regex, PatternError>,
        reply: Result<Regex, PatternError>,
        reply_cached: Result<Regex, PatternError>,
    ) -> (r: Result<Self, PatternError>)
        requires
            Self::made_from(version_info, VERSION_INFO_PATTERN@),
            Self::made_from(nameserver, NAMESERVER_PATTERN@),
            Self::made_from(read_hosts, READ_HOSTS_PATTERN@),
            Self::made_from(query, QUERY_PATTERN@),
            Self::made_from(reply, REPLY_PATTERN@),
            Self::made_from(reply_cached, REPLY_CACHED_PATTERN@),
        ensures
            Self::assembled(r, version_info, nameserver, read_hosts, query, reply, reply_cached),
            r matches Ok(parser) ==> parser.well_formed(),
    {
        let regex_version_info = match version_info {
            Ok(re) => re,
            Err(e) => {
                return Err(e);
            },
        };
        let regex_nameserver = match nameserver {
            Ok(re) => re,
            Err(e) => {
                return Err(e);
            },
        };
        let regex_read_hosts = match read_hosts {
            Ok(re) => re,
            Err(e) => {
                return Err(e);
            },
        };
        let regex_query = match query {
            Ok(re) => re,
            Err(e) => {
                return Err(e);
            },
        };
        let regex_reply = match reply {
            Ok(re) => re,
            Err(e) => {
                return Err(e);
            },
        };
        let regex_reply_cached = match reply_cached {
            Ok(re) => re,
            Err(e) => {
                return Err(e);
            },
        };
        Ok(
            DnsmasqLineParser {
                regex_version_info,
                regex_nameserver,
                regex_read_hosts,
                regex_query,
                regex_reply,
                regex_reply_cached,
            },
        )
    }

    /// Classifies one log line: the first of the six patterns that matches
    /// decides, and a match whose fields do not parse gives no event.
    pub fn parse_line(&self, line: &str) -> (r: Option<DnsmasqParsedLine>)
        ensures
            event_view(r) == parse_line_spec(line@),
    {
        proof {
            use_type_invariant(self);
        }
        if let Some(groups) = capture_groups(&self.regex_query, line) {
            return query_event(&groups);
        }
        if let Some(groups) = capture_groups(&self.regex_reply_cached, line) {
            return reply_event(&groups, true);
        }
        if let Some(groups) = capture_groups(&self.regex_reply, line) {
            return reply_event(&groups, false);
        }
        if let Some(groups) = capture_groups(&self.regex_version_info, line) {
            return start_event(&groups);
        }
        if let Some(groups) = capture_groups(&self.regex_read_hosts, line) {
            return read_hosts_event(&groups);
        }
        if let Some(groups) = capture_groups(&self.regex_nameserver, line) {
            return name_server_event(&groups);
        }
        None
    }
}

} // verus!
