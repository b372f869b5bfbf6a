use dnsmasq_stats::address::IpAddress;
use dnsmasq_stats::line_parser::{
    DnsmasqLineParser, DnsmasqParsedLine, PatternError, NAMESERVER_PATTERN, QUERY_PATTERN, READ_HOSTS_PATTERN,
    REPLY_CACHED_PATTERN, REPLY_PATTERN, VERSION_INFO_PATTERN,
};
use regex::Regex;

#[test]
fn line_parser() {
    let parser = DnsmasqLineParser::new().unwrap();
    let parsed = parser.parse_line("dnsmasq[23894]: started, version 2.80 cachesize 150").unwrap();
    if let DnsmasqParsedLine::Start { version, cache_size } = parsed {
        assert_eq!(version, "2.80");
        assert_eq!(cache_size, 150);
    } else {
        panic!("parsed line had wrong type: {:?}", parsed);
    }

    let parsed = parser.parse_line("dnsmasq[25921]: using nameserver 172.17.0.1#53").unwrap();
    if let DnsmasqParsedLine::NameServer(server_addr) = parsed {
        assert_eq!(server_addr, "172.17.0.1#53");
    } else {
        panic!("parsed line had wrong type: {:?}", parsed);
    }

    let parsed = parser
        .parse_line("dnsmasq[525]: 1 127.0.0.1/42332 query[A] www.matthiaskind.com from 127.0.0.1")
        .unwrap();
    if let DnsmasqParsedLine::Query { id, domain, from, query, source } = parsed {
        assert_eq!(id, 1);
        assert_eq!(domain, "www.matthiaskind.com");
        assert_eq!(source, "127.0.0.1/42332");
        assert_eq!(query, "A");
        assert_eq!(from, IpAddress::V4(127, 0, 0, 1));
    } else {
        panic!("parsed line had wrong type: {:?}", parsed);
    }
}

fn parser() -> DnsmasqLineParser {
    DnsmasqLineParser::new().unwrap()
}

#[test]
fn query_line_scenario() {
    let parsed = parser()
        .parse_line("dnsmasq[525]: 1 127.0.0.1/42332 query[A] www.example.com from 127.0.0.1")
        .unwrap();
    match parsed {
        DnsmasqParsedLine::Query { id, source, query, domain, from } => {
            assert_eq!(id, 1);
            assert_eq!(source, "127.0.0.1/42332");
            assert_eq!(query, "A");
            assert_eq!(domain, "www.example.com");
            assert_eq!(from, IpAddress::V4(127, 0, 0, 1));
        }
        other => panic!("parsed line had wrong type: {:?}", other),
    }
}

#[test]
fn cached_reply_scenario() {
    let parsed = parser().parse_line("dnsmasq[1]: 1 127.0.0.1 cached example.com is 1.2.3.4").unwrap();
    match parsed {
        DnsmasqParsedLine::Reply { id, cached, domain, result } => {
            assert_eq!(id, 1);
            assert!(cached);
            assert_eq!(domain, "example.com");
            assert_eq!(result, Some(IpAddress::V4(1, 2, 3, 4)));
        }
        other => panic!("parsed line had wrong type: {:?}", other),
    }
}

#[test]
fn cached_reply_without_address_is_dropped() {
    assert!(parser()
        .parse_line("dnsmasq[1]: 1 127.0.0.1 cached example.com is NXDOMAIN")
        .is_none());
}

#[test]
fn reply_with_address() {
    let parsed = parser().parse_line("dnsmasq[7]: 42 10.0.0.2/5353 reply example.com is 93.184.216.34").unwrap();
    match parsed {
        DnsmasqParsedLine::Reply { id, cached, domain, result } => {
            assert_eq!(id, 42);
            assert!(!cached);
            assert_eq!(domain, "example.com");
            assert_eq!(result, Some(IpAddress::V4(93, 184, 216, 34)));
        }
        other => panic!("parsed line had wrong type: {:?}", other),
    }
}

#[test]
fn reply_with_ipv6_address() {
    let parsed = parser()
        .parse_line("dnsmasq[7]: 43 10.0.0.2/5353 reply example.com is 2606:2800:220:1:248:1893:25c8:1946")
        .unwrap();
    match parsed {
        DnsmasqParsedLine::Reply { result, .. } => {
            assert_eq!(
                result,
                Some(IpAddress::V6(0x2606, 0x2800, 0x220, 0x1, 0x248, 0x1893, 0x25c8, 0x1946))
            );
        }
        other => panic!("parsed line had wrong type: {:?}", other),
    }
}

#[test]
fn reply_without_address_is_nxdomain() {
    let parsed = parser().parse_line("dnsmasq[7]: 44 10.0.0.2/5353 reply nowhere.example is NXDOMAIN").unwrap();
    match parsed {
        DnsmasqParsedLine::Reply { id, cached, domain, result } => {
            assert_eq!(id, 44);
            assert!(!cached);
            assert_eq!(domain, "nowhere.example");
            assert_eq!(result, None);
        }
        other => panic!("parsed line had wrong type: {:?}", other),
    }
}

#[test]
fn startup_banner_scenario() {
    let parsed = parser().parse_line("dnsmasq[1]: started, version 2.80 cachesize 150").unwrap();
    match parsed {
        DnsmasqParsedLine::Start { version, cache_size } => {
            assert_eq!(version, "2.80");
            assert_eq!(cache_size, 150);
        }
        other => panic!("parsed line had wrong type: {:?}", other),
    }
}

#[test]
fn startup_banner_with_cache_size_too_large_is_dropped() {
    assert!(parser()
        .parse_line("dnsmasq[1]: started, version 2.80 cachesize 4294967296")
        .is_none());
    let parsed = parser().parse_line("dnsmasq[1]: started, version 2.80 cachesize 4294967295").unwrap();
    match parsed {
        DnsmasqParsedLine::Start { cache_size, .. } => assert_eq!(cache_size, 4294967295),
        other => panic!("parsed line had wrong type: {:?}", other),
    }
}

#[test]
fn query_id_too_large_is_dropped() {
    assert!(parser()
        .parse_line("dnsmasq[525]: 18446744073709551616 127.0.0.1/42332 query[A] a.b from 127.0.0.1")
        .is_none());
    let parsed = parser()
        .parse_line("dnsmasq[525]: 18446744073709551615 127.0.0.1/42332 query[A] a.b from 127.0.0.1")
        .unwrap();
    match parsed {
        DnsmasqParsedLine::Query { id, .. } => assert_eq!(id, u64::MAX),
        other => panic!("parsed line had wrong type: {:?}", other),
    }
}

#[test]
fn query_from_no_address_is_dropped() {
    assert!(parser()
        .parse_line("dnsmasq[525]: 1 127.0.0.1/42332 query[A] www.example.com from localhost")
        .is_none());
}

#[test]
fn hosts_file_banner() {
    let parsed = parser().parse_line("dnsmasq[9]: read /etc/hosts - 7 addresses").unwrap();
    match parsed {
        DnsmasqParsedLine::ReadHosts { path, address_count } => {
            assert_eq!(path, "/etc/hosts");
            assert_eq!(address_count, 7);
        }
        other => panic!("parsed line had wrong type: {:?}", other),
    }
}

#[test]
fn nameserver_without_port() {
    let parsed = parser().parse_line("dnsmasq[9]: using nameserver 8.8.8.8").unwrap();
    match parsed {
        DnsmasqParsedLine::NameServer(address) => assert_eq!(address, "8.8.8.8"),
        other => panic!("parsed line had wrong type: {:?}", other),
    }
}

#[test]
fn unrecognised_lines_give_nothing() {
    let p = parser();
    assert!(p.parse_line("").is_none());
    assert!(p.parse_line("dnsmasq[9]: compile time options: IPv6 GNU-getopt").is_none());
    assert!(p.parse_line("dnsmasq[9]: 1 127.0.0.1/1 forwarded example.com to 8.8.8.8").is_none());
    assert!(p
        .parse_line("dnsmasq[525]: 1 127.0.0.1/42332 query[A] exa-mple.com from 127.0.0.1")
        .is_none());
}

#[test]
fn query_pattern_comes_before_reply_patterns() {
    let parsed = parser()
        .parse_line("dnsmasq[5]: 3 1.1.1.1/5 query[A] a.b from 1.1.1.1 dnsmasq[5]: 4 x reply c.d is 2.2.2.2")
        .unwrap();
    match parsed {
        DnsmasqParsedLine::Query { id, domain, .. } => {
            assert_eq!(id, 3);
            assert_eq!(domain, "a.b");
        }
        other => panic!("parsed line had wrong type: {:?}", other),
    }
}

fn compiled(pattern: &str) -> Result<Regex, PatternError> {
    Ok(Regex::new(pattern).unwrap())
}

#[test]
fn parser_from_six_expressions() {
    let parser = DnsmasqLineParser::from_compiled(
        compiled(VERSION_INFO_PATTERN),
        compiled(NAMESERVER_PATTERN),
        compiled(READ_HOSTS_PATTERN),
        compiled(QUERY_PATTERN),
        compiled(REPLY_PATTERN),
        compiled(REPLY_CACHED_PATTERN),
    )
    .unwrap();
    match parser.parse_line("dnsmasq[9]: using nameserver 8.8.8.8#53").unwrap() {
        DnsmasqParsedLine::NameServer(address) => assert_eq!(address, "8.8.8.8#53"),
        other => panic!("parsed line had wrong type: {:?}", other),
    }
    match parser.parse_line("dnsmasq[1]: 1 127.0.0.1 cached example.com is 1.2.3.4").unwrap() {
        DnsmasqParsedLine::Reply { cached, .. } => assert!(cached),
        other => panic!("parsed line had wrong type: {:?}", other),
    }
}

#[test]
fn parser_gives_the_first_error() {
    let r = DnsmasqLineParser::from_compiled(
        compiled(VERSION_INFO_PATTERN),
        Err(PatternError::Syntax("unclosed group".to_string())),
        compiled(READ_HOSTS_PATTERN),
        Err(PatternError::TooBig(10)),
        compiled(REPLY_PATTERN),
        Err(PatternError::Other),
    );
    match r {
        Err(PatternError::Syntax(text)) => assert_eq!(text, "unclosed group"),
        _ => panic!("wrong result"),
    }
    let r = DnsmasqLineParser::from_compiled(
        compiled(VERSION_INFO_PATTERN),
        compiled(NAMESERVER_PATTERN),
        compiled(READ_HOSTS_PATTERN),
        Err(PatternError::TooBig(10)),
        compiled(REPLY_PATTERN),
        Err(PatternError::Other),
    );
    assert!(matches!(r, Err(PatternError::TooBig(10))));
    let r = DnsmasqLineParser::from_compiled(
        compiled(VERSION_INFO_PATTERN),
        compiled(NAMESERVER_PATTERN),
        compiled(READ_HOSTS_PATTERN),
        compiled(QUERY_PATTERN),
        compiled(REPLY_PATTERN),
        Err(PatternError::Other),
    );
    assert!(matches!(r, Err(PatternError::Other)));
}
