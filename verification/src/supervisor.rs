//! The decisions of the supervisor of the dnsmasq process: how the process is
//! launched, what each thing that happens to it does to the state, and what
//! is to be done when the supervisor is told to end.

use vstd::prelude::*;
use crate::dnsmasq::{apply_spec, fail_spec, texts, DnsmasqCommand, DnsmasqState, StateView};
use crate::line_parser::{event_view, parse_line_spec, DnsmasqLineParser, DnsmasqParsedLine, ParsedLineView};
use vstd::string::StringExecFns;
use crate::text::{
    decimal_string, decimal_text, lemma_decimal_text_parses_back, parse_unsigned, parse_unsigned_spec,
};

verus! {

/// The reporting layer's port where none is configured.
pub const DEFAULT_WEB_PORT: u16 = 80;

/// A configured number: what `value` writes in decimal, if it is there and
/// writes a number of at most `max`.
pub open spec fn configured(value: Option<Seq<char>>, max: nat) -> Option<nat> {
    match value {
        Some(text) => parse_unsigned_spec(text, max),
        None => None,
    }
}

/// The arguments that dnsmasq is launched with: extra detail on each query,
/// in the foreground, bound to its interfaces, logging to the captured
/// stream, and last the port where one is given.
pub open spec fn launch_arguments_spec(port: Option<usize>) -> Seq<Seq<char>> {
    let fixed = seq![
        "--log-queries=extra"@,
        "--keep-in-foreground"@,
        "--bind-interfaces"@,
        "--log-facility=-"@,
    ];
    match port {
        Some(p) => fixed.push("--port="@ + decimal_text(p as nat)),
        None => fixed,
    }
}

/// The argument that gives dnsmasq its port.
fn port_argument(port: usize) -> (r: String)
    ensures
        r@ == "--port="@ + decimal_text(port as nat),
{
    let mut r = "--port=".to_owned();
    let digits = decimal_string(port);
    r.append(digits.as_str());
    r
}

/// The port that dnsmasq is to listen on, from the text configured for it:
/// none where there is no text or it writes no number.
pub fn dnsmasq_port(value: Option<&str>) -> (port: Option<usize>)
    ensures
        match port {
            Some(p) => configured(
                match value {
                    Some(text) => Some(text@),
                    None => None,
                },
                usize::MAX as nat,
            ) == Some(p as nat),
            None => configured(
                match value {
                    Some(text) => Some(text@),
                    None => None,
                },
                usize::MAX as nat,
            ) is None,
        },
{
    match value {
        Some(text) => match parse_unsigned(text, usize::MAX as u64) {
            Some(p) => Some(p as usize),
            None => None,
        },
        None => None,
    }
}

/// The port that the reporting layer is to listen on, from the text
/// configured for it: 80 where there is no text or it writes no port.
pub fn web_port(value: Option<&str>) -> (port: u16)
    ensures
        port as nat == match configured(
            match value {
                Some(text) => Some(text@),
                None => None,
            },
            u16::MAX as nat,
        ) {
            Some(p) => p,
            None => DEFAULT_WEB_PORT as nat,
        },
{
    match value {
        Some(text) => match parse_unsigned(text, 0xffff) {
            Some(p) => p as u16,
            None => DEFAULT_WEB_PORT,
        },
        None => DEFAULT_WEB_PORT,
    }
}

/// The arguments to launch dnsmasq with.
pub fn launch_arguments(port: Option<usize>) -> (args: Vec<String>)
    ensures
        texts(args@) == launch_arguments_spec(port),
{
    let mut args: Vec<String> = Vec::new();
    args.push("--log-queries=extra".to_owned());
    args.push("--keep-in-foreground".to_owned());
    args.push("--bind-interfaces".to_owned());
    args.push("--log-facility=-".to_owned());
    if let Some(p) = port {
        args.push(port_argument(p));
    }
    assert(texts(args@) =~= launch_arguments_spec(port));
    args
}

/// The port that the launch arguments carry is the port that is read back
/// from its text: what was configured is what dnsmasq is told.
pub proof fn lemma_port_argument_reads_back(port: usize)
    ensures
        launch_arguments_spec(Some(port)).last() == "--port="@ + decimal_text(port as nat),
        configured(Some(decimal_text(port as nat)), usize::MAX as nat) == Some(port as nat),
{
    lemma_decimal_text_parses_back(port as nat, usize::MAX as nat);
}

/// What a line of the log came to.
#[derive(Clone, Copy, Debug, PartialEq, Eq, Structural)]
pub enum LineOutcome {
    /// The line gave an event, which was applied.
    Applied,
    /// The line told of a hosts file, whose contents are not read.
    HostsFileSkipped,
    /// The line is none that the grammar knows.
    Unhandled,
}

/// What the classification of a line comes to.
pub open spec fn outcome_of(event: Option<ParsedLineView>) -> LineOutcome {
    match event {
        None => LineOutcome::Unhandled,
        Some(ParsedLineView::ReadHosts { path, address_count }) => LineOutcome::HostsFileSkipped,
        Some(_) => LineOutcome::Applied,
    }
}

/// Applies an event that a line was classified as, and says what the line came to.
pub fn apply_classified(state: &mut DnsmasqState, event: Option<DnsmasqParsedLine>, now: u64) -> (outcome:
    LineOutcome)
    requires
        old(state).wf(),
    ensures
        final(state).wf(),
        final(state)@ == apply_spec(old(state)@, event_view(event), now),
        final(state).addresses == old(state).addresses,
        outcome == outcome_of(event_view(event)),
{
    let outcome = match &event {
        None => LineOutcome::Unhandled,
        Some(DnsmasqParsedLine::ReadHosts { .. }) => LineOutcome::HostsFileSkipped,
        Some(_) => LineOutcome::Applied,
    };
    state.apply(event, now);
    outcome
}

/// Classifies one line of the log, read at the time `now`, and applies it.
pub fn handle_line(state: &mut DnsmasqState, parser: &DnsmasqLineParser, line: &str, now: u64) -> (outcome:
    LineOutcome)
    requires
        old(state).wf(),
    ensures
        final(state).wf(),
        final(state)@ == apply_spec(old(state)@, parse_line_spec(line@), now),
        final(state).addresses == old(state).addresses,
        outcome == outcome_of(parse_line_spec(line@)),
{
    let event = parser.parse_line(line);
    apply_classified(state, event, now)
}

/// What happened to the supervised process.
#[derive(Debug)]
pub enum SupervisorEvent {
    /// The process could not be launched, for the reason given.
    LaunchFailed(String),
    /// The process wrote a line to its log.
    Line(String),
    /// The log of the process has ended.
    StreamClosed,
    /// A control message has come in.
    Command(DnsmasqCommand),
}

/// What the supervisor does next.
#[derive(Clone, Copy, Debug, PartialEq, Eq, Structural)]
pub enum SupervisorAction {
    /// Read the next line of the log.
    ReadNext(LineOutcome),
    /// Go on: a control message was taken, and nothing is done for it.
    Accepted,
    /// Stop: there is nothing more to read.
    Stop,
}

/// The reason of the failure that is recorded when the log ends.
pub open spec fn exited_reason() -> Seq<char> {
    "dnsmasq exited"@
}

/// The state after `event`, with what the supervisor does next: a line is
/// classified and applied and the next one is read; a launch that failed and
/// a log that ended leave the state failed for that reason, whatever it was
/// before, and stop the supervisor; a control message changes nothing.
pub open spec fn step_spec(s: StateView, event: SupervisorEventView, now: u64) -> (StateView, SupervisorAction) {
    match event {
        SupervisorEventView::LaunchFailed(reason) => (
            fail_spec(s, reason),
            SupervisorAction::Stop,
        ),
        SupervisorEventView::Line(line) => (
            apply_spec(s, parse_line_spec(line), now),
            SupervisorAction::ReadNext(outcome_of(parse_line_spec(line))),
        ),
        SupervisorEventView::StreamClosed => (
            fail_spec(s, exited_reason()),
            SupervisorAction::Stop,
        ),
        SupervisorEventView::Command(command) => (s, SupervisorAction::Accepted),
    }
}

/// What happened, with texts as sequences of characters.
pub enum SupervisorEventView {
    LaunchFailed(Seq<char>),
    Line(Seq<char>),
    StreamClosed,
    Command(DnsmasqCommand),
}

impl View for SupervisorEvent {
    type V = SupervisorEventView;

    open spec fn view(&self) -> SupervisorEventView {
        match *self {
            SupervisorEvent::LaunchFailed(reason) => SupervisorEventView::LaunchFailed(reason@),
            SupervisorEvent::Line(line) => SupervisorEventView::Line(line@),
            SupervisorEvent::StreamClosed => SupervisorEventView::StreamClosed,
            SupervisorEvent::Command(command) => SupervisorEventView::Command(command),
        }
    }
}

/// Takes one thing that happened to the supervised process at the time `now`,
/// changes the state by it, and says what to do next.
pub fn step(state: &mut DnsmasqState, parser: &DnsmasqLineParser, event: SupervisorEvent, now: u64) -> (action:
    SupervisorAction)
    requires
        old(state).wf(),
    ensures
        final(state).wf(),
        (final(state)@, action) == step_spec(old(state)@, event@, now),
        final(state).addresses == old(state).addresses,
{
    match event {
        SupervisorEvent::LaunchFailed(reason) => {
            state.fail(reason);
            SupervisorAction::Stop
        },
        SupervisorEvent::Line(line) => {
            let outcome = handle_line(state, parser, line.as_str(), now);
            SupervisorAction::ReadNext(outcome)
        },
        SupervisorEvent::StreamClosed => {
            state.fail("dnsmasq exited".to_owned());
            SupervisorAction::Stop
        },
        SupervisorEvent::Command(command) => SupervisorAction::Accepted,
    }
}

/// What is known of the child process when the supervisor is told to end.
#[derive(Clone, Copy, Debug, PartialEq, Eq, Structural)]
pub enum ChildStatus {
    /// The process still runs.
    Running,
    /// The process has ended, with this exit code if it gave one.
    Exited(Option<i32>),
    /// The process could not be asked.
    Unknown,
}

/// What the supervisor does with the child process before the host ends.
#[derive(Clone, Copy, Debug, PartialEq, Eq, Structural)]
pub enum ShutdownAction {
    /// Kill the process and wait for its end.
    KillAndWait,
    /// Report that the process had ended already, with its exit code.
    ReportExited(Option<i32>),
    /// Report that the state of the process is not known.
    ReportUnknown,
}

/// What to do with the child process at the end: only a process that still
/// runs is killed.
pub open spec fn shutdown_action_spec(status: ChildStatus) -> ShutdownAction {
    match status {
        ChildStatus::Running => ShutdownAction::KillAndWait,
        ChildStatus::Exited(code) => ShutdownAction::ReportExited(code),
        ChildStatus::Unknown => ShutdownAction::ReportUnknown,
    }
}

/// Decides what to do with the child process when the supervisor is told to end.
pub fn shutdown_action(status: ChildStatus) -> (action: ShutdownAction)
    ensures
        action == shutdown_action_spec(status),
{
    match status {
        ChildStatus::Running => ShutdownAction::KillAndWait,
        ChildStatus::Exited(code) => ShutdownAction::ReportExited(code),
        ChildStatus::Unknown => ShutdownAction::ReportUnknown,
    }
}

} // verus!
