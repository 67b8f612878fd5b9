//! The polls for what the debug server has to tell.
//!
//! A poll runs beside the requests of the client, so that a request never waits for it. Each tick
//! begins a long poll where none is under way. A resumed target is likely to stop again soon, so
//! that a short poll takes the place of the long one then.

use crate::adapter;
use crate::adapter::{
    quiet, trace_poll, Adapter, AdapterView, Ending, EndingView, Next, NextView, Output,
    OutputView, Turn, TurnView,
};
use crate::adapter_session;
use crate::debug_server;
use crate::debug_server::{PingOutcome, PingOutcomeView, PingTimings};
use crate::json::{pair, string, Json, JsonView};
use crate::list::one;
use crate::text;
use crate::text::{copy, same};
use vstd::prelude::*;

verus! {

/// How long a poll after a step waits, in milliseconds.
pub const STEP_POLL_TIMEOUT: u64 = 250;

/// What became of the programs that were started for the session.
#[derive(Debug, PartialEq, Eq)]
pub struct ProgramReport {
    /// The status with which the debug server exited.
    pub server_exit: Option<String>,
    pub client_exited: bool,
    /// The code with which the client exited, where it has one.
    pub client_code: Option<i32>,
}

#[verifier::ext_equal]
pub struct ProgramReportView {
    pub server_exit: Option<Seq<char>>,
    pub client_exited: bool,
    pub client_code: Option<i32>,
}

impl DeepView for ProgramReport {
    type V = ProgramReportView;

    open spec fn deep_view(&self) -> ProgramReportView {
        ProgramReportView {
            server_exit: self.server_exit.deep_view(),
            client_exited: self.client_exited,
            client_code: self.client_code,
        }
    }
}

/// A poll that waits no longer than a given time follows a step.
pub open spec fn poll_mode(timeout: Option<u64>) -> Seq<char> {
    if timeout is Some {
        "step-priority"@
    } else {
        "long"@
    }
}

pub open spec fn poll_begin_record(poll: u64, timeout: Option<u64>) -> OutputView {
    OutputView::Trace(
        seq![
            ("event"@, JsonView::Str("rdbg.poll.worker_spawned"@)),
            ("pollId"@, JsonView::Integer(poll as int)),
            ("mode"@, JsonView::Str(poll_mode(timeout))),
        ],
    )
}

pub open spec fn poll_events_record(poll: u64, count: int, timings: PingTimings) -> OutputView {
    OutputView::Trace(
        seq![
            ("event"@, JsonView::Str("rdbg.poll.response"@)),
            ("pollId"@, JsonView::Integer(poll as int)),
            ("events"@, JsonView::Integer(count)),
            ("httpMs"@, JsonView::Integer(timings.http_elapsed as int)),
            ("parseMs"@, JsonView::Integer(timings.parse_elapsed as int)),
        ],
    )
}

/// A poll begins, with the next number, where there is a session.
pub open spec fn poll_begun(s: AdapterView, timeout: Option<u64>) -> (AdapterView, TurnView) {
    match adapter_session::attachment(s) {
        None => (s, adapter::asks(NextView::Done)),
        Some((server, session)) => {
            let poll = (s.next_poll + 1) as u64;
            (
                AdapterView { next_poll: s.next_poll + 1, active_poll: Some(poll), ..s },
                TurnView {
                    outputs: seq![poll_begin_record(poll, timeout)],
                    stop_programs: false,
                    next: NextView::Poll(
                        debug_server::ping_post(server, session, timeout),
                        poll,
                        session.id,
                    ),
                },
            )
        },
    }
}

/// A tick: the session ends with its programs; else a long poll begins, unless one is under way.
pub open spec fn polled(s: AdapterView, report: ProgramReportView) -> (AdapterView, TurnView) {
    if report.server_exit is Some {
        adapter_session::ending_begun(s, EndingView::ServerExit(report.server_exit->0))
    } else if report.client_exited {
        adapter_session::ending_begun(
            s,
            EndingView::ClientExit(
                match report.client_code {
                    Some(code) => code,
                    None => (-1int) as i32,
                },
            ),
        )
    } else if s.active_poll is Some {
        (s, adapter::asks(NextView::Done))
    } else {
        poll_begun(s, None)
    }
}

/// The state without a poll under way, where that is the one.
pub open spec fn poll_cleared(s: AdapterView, poll: u64) -> AdapterView {
    if s.active_poll == Some(poll) {
        AdapterView { active_poll: None, ..s }
    } else {
        s
    }
}

/// A poll of a session ends. What it brought is taken over even where another poll took its
/// place; its failure is reported once, until a poll succeeds, and not where another poll took
/// its place. What a poll of an earlier session brought is dropped.
pub open spec fn poll_ended(s: AdapterView, poll: u64, session: Seq<char>, outcome: Result<PingOutcomeView, Seq<char>>) -> (AdapterView, TurnView) {
    let current = match s.debug_session {
        Some(own) => own.id == session,
        None => false,
    };
    if !current {
        (s, adapter::asks(NextView::Done))
    } else {
        let rest = poll_cleared(s, poll);
        match outcome {
            Ok(PingOutcomeView::Events(events, timings)) => (
                AdapterView { poll_failed: false, ..rest },
                TurnView {
                    outputs: seq![poll_events_record(poll, events.len() as int, timings)],
                    stop_programs: false,
                    next: NextView::Events(events),
                },
            ),
            Ok(PingOutcomeView::TimedOut) => (
                rest,
                adapter::says(seq![adapter::poll_record("rdbg.poll.timed_out"@, poll)]),
            ),
            Err(message) => if s.active_poll == Some(poll) && !s.poll_failed {
                (
                    adapter::counted(AdapterView { poll_failed: true, ..rest }, 1),
                    adapter::says(
                        seq![
                            adapter::poll_record("rdbg.poll.failed"@, poll),
                            adapter::next_output(
                                s,
                                "stderr"@,
                                "1C debug server poll failed: "@ + message + "\n"@,
                            ),
                        ],
                    ),
                )
            } else {
                (rest, adapter::says(seq![adapter::poll_record("rdbg.poll.failed"@, poll)]))
            },
        }
    }
}

fn trace_poll_begin(poll: u64, timeout: Option<u64>) -> (r: Output)
    ensures
        r.deep_view() == poll_begin_record(poll, timeout),
{
    let mode = if timeout.is_some() {
        "step-priority"
    } else {
        "long"
    };
    let members = vec![
        pair("event", string("rdbg.poll.worker_spawned")),
        pair("pollId", Json::Unsigned(poll)),
        pair("mode", string(mode)),
    ];
    assert(members.deep_view() =~= poll_begin_record(poll, timeout)->Trace_0);
    Output::Trace(members)
}

fn trace_poll_events(poll: u64, count: usize, timings: PingTimings) -> (r: Output)
    ensures
        r.deep_view() == poll_events_record(poll, count as int, timings),
{
    let members = vec![
        pair("event", string("rdbg.poll.response")),
        pair("pollId", Json::Unsigned(poll)),
        pair("events", Json::Unsigned(count as u64)),
        pair("httpMs", Json::Unsigned(timings.http_elapsed)),
        pair("parseMs", Json::Unsigned(timings.parse_elapsed)),
    ];
    assert(members.deep_view() =~= poll_events_record(poll, count as int, timings)->Trace_0);
    Output::Trace(members)
}

impl Adapter {
    /// Begins a poll, where there is a session.
    pub fn begin_poll(&mut self, timeout: Option<u64>) -> (r: Turn)
        requires
            old(self).next_poll < u64::MAX,
        ensures
            (final(self).deep_view(), r.deep_view()) == poll_begun(old(self).deep_view(), timeout),
    {
        let (request, session) = match self.attached() {
            Some((server, session)) => (
                server.ping_debug_ui_timed(session, timeout),
                copy(session.id()),
            ),
            None => {
                return quiet(Next::Done);
            },
        };
        let poll: u64 = self.next_poll + 1;
        self.next_poll = poll;
        self.active_poll = Some(poll);
        Turn {
            outputs: one(trace_poll_begin(poll, timeout)),
            stop_programs: false,
            next: Next::Poll(request, poll, session),
        }
    }

    /// A tick of the adapter.
    pub fn poll(&mut self, report: ProgramReport) -> (r: Turn)
        requires
            adapter::ready(old(self).deep_view()),
        ensures
            (final(self).deep_view(), r.deep_view()) == polled(
                old(self).deep_view(),
                report.deep_view(),
            ),
    {
        match report.server_exit {
            Some(status) => {
                return self.begin_ending(Ending::ServerExit(status));
            },
            None => {},
        }
        if report.client_exited {
            let code: i32 = match report.client_code {
                Some(code) => code,
                None => -1,
            };
            return self.begin_ending(Ending::ClientExit(code));
        }
        if self.active_poll.is_some() {
            return quiet(Next::Done);
        }
        self.begin_poll(None)
    }

    /// Takes over the outcome of a poll that was begun for a session.
    pub fn poll_finished(&mut self, poll: u64, session: &str, outcome: Result<PingOutcome, String>) -> (r: Turn)
        requires
            adapter::ready(old(self).deep_view()),
        ensures
            (final(self).deep_view(), r.deep_view()) == poll_ended(
                old(self).deep_view(),
                poll,
                session@,
                text::outcome(outcome),
            ),
    {
        let current = match &self.debug_session {
            Some(own) => same(own.id(), session),
            None => false,
        };
        if !current {
            return quiet(Next::Done);
        }
        let awaited = match self.active_poll {
            Some(active) => active == poll,
            None => false,
        };
        if awaited {
            self.active_poll = None;
        }
        match outcome {
            Ok(PingOutcome::Events(result)) => {
                self.poll_failed = false;
                Turn {
                    outputs: one(trace_poll_events(poll, result.events.len(), result.timings)),
                    stop_programs: false,
                    next: Next::Events(result.events),
                }
            },
            Ok(PingOutcome::TimedOut) => Turn {
                outputs: one(trace_poll("rdbg.poll.timed_out", poll)),
                stop_programs: false,
                next: Next::Done,
            },
            Err(message) => {
                let record = trace_poll("rdbg.poll.failed", poll);
                if !awaited || self.poll_failed {
                    return Turn { outputs: one(record), stop_programs: false, next: Next::Done };
                }
                self.poll_failed = true;
                let mut report = copy("1C debug server poll failed: ");
                report.append(message.as_str());
                report.append("\n");
                let output = self.output_event("stderr", report.as_str());
                let outputs = vec![record, output];
                assert(outputs.deep_view() =~= seq![record.deep_view(), output.deep_view()]);
                Turn { outputs, stop_programs: false, next: Next::Done }
            },
        }
    }
}

} // verus!
