use dnsmasq_stats::address::IpAddress;
use dnsmasq_stats::line_parser::{
    group, name_server_event, query_event, read_hosts_event, reply_event, start_event, DnsmasqParsedLine,
};

fn groups(texts: &[Option<&str>]) -> Vec<Option<String>> {
    texts.iter().map(|t| t.map(|s| s.to_string())).collect()
}

#[test]
fn group_by_index() {
    let g = groups(&[Some("whole"), None, Some("two")]);
    assert_eq!(group(&g, 0), Some("whole"));
    assert_eq!(group(&g, 1), None);
    assert_eq!(group(&g, 2), Some("two"));
    assert_eq!(group(&g, 3), None);
}

#[test]
fn query_event_from_groups() {
    let g = groups(&[Some("x"), Some("17"), Some("10.0.0.1/99"), Some("AAAA"), Some("a.b.c"), Some("::1")]);
    match query_event(&g).unwrap() {
        DnsmasqParsedLine::Query { id, source, query, domain, from } => {
            assert_eq!(id, 17);
            assert_eq!(source, "10.0.0.1/99");
            assert_eq!(query, "AAAA");
            assert_eq!(domain, "a.b.c");
            assert_eq!(from, IpAddress::V6(0, 0, 0, 0, 0, 0, 0, 1));
        }
        other => panic!("wrong event: {:?}", other),
    }
}

#[test]
fn query_event_needs_every_group() {
    let g = groups(&[Some("x"), Some("17"), Some("10.0.0.1/99"), Some("AAAA"), Some("a.b.c")]);
    assert!(query_event(&g).is_none());
    let g = groups(&[Some("x"), Some("17"), None, Some("AAAA"), Some("a.b.c"), Some("::1")]);
    assert!(query_event(&g).is_none());
    let g = groups(&[Some("x"), Some("no"), Some("s"), Some("AAAA"), Some("a.b.c"), Some("::1")]);
    assert!(query_event(&g).is_none());
    let g = groups(&[Some("x"), Some("17"), Some("s"), Some("AAAA"), Some("a.b.c"), Some("1.2.3")]);
    assert!(query_event(&g).is_none());
}

#[test]
fn reply_event_from_groups() {
    let g = groups(&[Some("x"), Some("5"), Some("src"), Some("a.b"), Some("NODATA")]);
    match reply_event(&g, false).unwrap() {
        DnsmasqParsedLine::Reply { id, cached, domain, result } => {
            assert_eq!(id, 5);
            assert!(!cached);
            assert_eq!(domain, "a.b");
            assert_eq!(result, None);
        }
        other => panic!("wrong event: {:?}", other),
    }
    assert!(reply_event(&g, true).is_none());
    let g = groups(&[Some("x"), Some("5"), Some("src"), Some("a.b"), Some("9.9.9.9")]);
    match reply_event(&g, true).unwrap() {
        DnsmasqParsedLine::Reply { cached, result, .. } => {
            assert!(cached);
            assert_eq!(result, Some(IpAddress::V4(9, 9, 9, 9)));
        }
        other => panic!("wrong event: {:?}", other),
    }
}

#[test]
fn banner_events_from_groups() {
    let g = groups(&[Some("x"), Some("2.86"), Some("10000")]);
    match start_event(&g).unwrap() {
        DnsmasqParsedLine::Start { version, cache_size } => {
            assert_eq!(version, "2.86");
            assert_eq!(cache_size, 10000);
        }
        other => panic!("wrong event: {:?}", other),
    }
    let g = groups(&[Some("x"), Some("2.86"), Some("-1")]);
    assert!(start_event(&g).is_none());

    let g = groups(&[Some("x"), Some("/etc/hosts"), Some("/hosts"), Some("12")]);
    match read_hosts_event(&g).unwrap() {
        DnsmasqParsedLine::ReadHosts { path, address_count } => {
            assert_eq!(path, "/etc/hosts");
            assert_eq!(address_count, 12);
        }
        other => panic!("wrong event: {:?}", other),
    }

    let g = groups(&[Some("x"), Some("192.168.1.1#5353")]);
    match name_server_event(&g).unwrap() {
        DnsmasqParsedLine::NameServer(address) => assert_eq!(address, "192.168.1.1#5353"),
        other => panic!("wrong event: {:?}", other),
    }
    assert!(name_server_event(&groups(&[Some("x")])).is_none());
}
