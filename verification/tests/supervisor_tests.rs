use dnsmasq_stats::dnsmasq::{DnsmasqCommand, DnsmasqState, DnsmasqStateEnum};
use dnsmasq_stats::line_parser::DnsmasqLineParser;
use dnsmasq_stats::supervisor::{
    dnsmasq_port, handle_line, launch_arguments, shutdown_action, step, web_port, ChildStatus, LineOutcome,
    ShutdownAction, SupervisorAction, SupervisorEvent, DEFAULT_WEB_PORT,
};

#[test]
fn arguments_without_a_port() {
    assert_eq!(
        launch_arguments(None),
        vec!["--log-queries=extra", "--keep-in-foreground", "--bind-interfaces", "--log-facility=-"]
    );
}

#[test]
fn arguments_with_a_port() {
    assert_eq!(
        launch_arguments(Some(5353)),
        vec![
            "--log-queries=extra",
            "--keep-in-foreground",
            "--bind-interfaces",
            "--log-facility=-",
            "--port=5353"
        ]
    );
    assert_eq!(launch_arguments(Some(0))[4], "--port=0");
}

#[test]
fn configured_ports() {
    assert_eq!(dnsmasq_port(None), None);
    assert_eq!(dnsmasq_port(Some("5353")), Some(5353));
    assert_eq!(dnsmasq_port(Some("")), None);
    assert_eq!(dnsmasq_port(Some("53a")), None);
    assert_eq!(dnsmasq_port(Some("99999999999999999999999")), None);
    assert_eq!(web_port(None), 80);
    assert_eq!(DEFAULT_WEB_PORT, 80);
    assert_eq!(web_port(Some("8080")), 8080);
    assert_eq!(web_port(Some("65535")), 65535);
    assert_eq!(web_port(Some("65536")), 80);
    assert_eq!(web_port(Some("http")), 80);
}

#[test]
fn launch_failure_scenario() {
    let parser = DnsmasqLineParser::new().unwrap();
    let mut state = DnsmasqState::empty();
    let action = step(
        &mut state,
        &parser,
        SupervisorEvent::LaunchFailed("No such file or directory (os error 2)".to_string()),
        0,
    );
    assert_eq!(action, SupervisorAction::Stop);
    match &state.state_enum {
        DnsmasqStateEnum::Error(reason) => assert_eq!(reason, "No such file or directory (os error 2)"),
        other => panic!("wrong state: {:?}", other),
    }
    assert_eq!(state.timeline.len(), 0);
    assert_eq!(state.hit_rate.get_ratio(), None);
}

#[test]
fn lines_are_applied_in_their_order() {
    let parser = DnsmasqLineParser::new().unwrap();
    let mut state = DnsmasqState::empty();
    let lines = [
        ("dnsmasq[1]: started, version 2.80 cachesize 150", LineOutcome::Applied),
        ("dnsmasq[1]: compile time options: IPv6", LineOutcome::Unhandled),
        ("dnsmasq[1]: read /etc/hosts - 7 addresses", LineOutcome::HostsFileSkipped),
        ("dnsmasq[1]: using nameserver 8.8.8.8#53", LineOutcome::Applied),
        ("dnsmasq[1]: 1 127.0.0.1/5 query[A] a.b from 127.0.0.1", LineOutcome::Applied),
        ("dnsmasq[1]: 1 127.0.0.1/5 reply a.b is 1.2.3.4", LineOutcome::Applied),
    ];
    for (i, (line, outcome)) in lines.iter().enumerate() {
        let action = step(&mut state, &parser, SupervisorEvent::Line(line.to_string()), i as u64);
        assert_eq!(action, SupervisorAction::ReadNext(*outcome));
    }
    assert!(matches!(state.state_enum, DnsmasqStateEnum::Active));
    assert_eq!(state.name_servers, vec!["8.8.8.8#53"]);
    assert_eq!(state.query_domains.get(&"a.b".to_string()), 1);
    assert_eq!(state.hit_rate.get_ratio(), Some((0, 1)));
    assert_eq!(handle_line(&mut state, &parser, "nothing", 9), LineOutcome::Unhandled);
}

#[test]
fn end_of_the_log_leaves_the_state_failed() {
    let parser = DnsmasqLineParser::new().unwrap();
    let mut state = DnsmasqState::empty();
    step(
        &mut state,
        &parser,
        SupervisorEvent::Line("dnsmasq[1]: started, version 2.80 cachesize 150".to_string()),
        0,
    );
    assert_eq!(step(&mut state, &parser, SupervisorEvent::StreamClosed, 1), SupervisorAction::Stop);
    match &state.state_enum {
        DnsmasqStateEnum::Error(reason) => assert_eq!(reason, "dnsmasq exited"),
        other => panic!("wrong state: {:?}", other),
    }
}

#[test]
fn only_a_running_child_is_killed() {
    assert_eq!(shutdown_action(ChildStatus::Running), ShutdownAction::KillAndWait);
    assert_eq!(shutdown_action(ChildStatus::Exited(Some(2))), ShutdownAction::ReportExited(Some(2)));
    assert_eq!(shutdown_action(ChildStatus::Exited(None)), ShutdownAction::ReportExited(None));
    assert_eq!(shutdown_action(ChildStatus::Unknown), ShutdownAction::ReportUnknown);
}

#[test]
fn a_command_is_taken_and_changes_nothing() {
    let parser = DnsmasqLineParser::new().unwrap();
    let mut state = DnsmasqState::empty();
    step(
        &mut state,
        &parser,
        SupervisorEvent::Line("dnsmasq[1]: 1 127.0.0.1/5 query[A] a.b from 127.0.0.1".to_string()),
        5,
    );
    let before = format!("{:?}", state);
    let action = step(&mut state, &parser, SupervisorEvent::Command(DnsmasqCommand::Update), 6);
    assert_eq!(action, SupervisorAction::Accepted);
    assert_eq!(format!("{:?}", state), before);
}

#[test]
fn launch_failure_on_a_failed_state_records_its_reason() {
    let parser = DnsmasqLineParser::new().unwrap();
    let mut state = DnsmasqState::empty();
    step(&mut state, &parser, SupervisorEvent::StreamClosed, 0);
    let action = step(&mut state, &parser, SupervisorEvent::LaunchFailed("not found".to_string()), 1);
    assert_eq!(action, SupervisorAction::Stop);
    match &state.state_enum {
        DnsmasqStateEnum::Error(reason) => assert_eq!(reason, "not found"),
        other => panic!("wrong state: {:?}", other),
    }
}
