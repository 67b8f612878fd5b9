//! The session that an adapter holds with a debug server, and its end.

use crate::adapter;
use crate::adapter::{
    empty_body, quiet, Adapter, AdapterView, Ending, EndingView, Next, NextView, Output, OutputView,
    Reason, ReasonView, Turn, TurnView,
};
use crate::debug_server;
use crate::debug_server::{acknowledgement, DebugServer, HttpReply};
use crate::debug_types::{DebugUiSession, DebugUiSessionView};
use crate::json::{object, pair, signed, Json, JsonView};
use crate::list::{none, one, push};
use crate::text;
use crate::text::copy;
use vstd::prelude::*;

verus! {

/// The server and the session that the adapter is attached to.
pub open spec fn attachment(s: AdapterView) -> Option<(Seq<char>, DebugUiSessionView)> {
    match (s.debug_server, s.debug_session) {
        (Some(server), Some(session)) => Some((server, session)),
        _ => None,
    }
}

/// A request that needs a session is refused.
pub open spec fn not_attached(s: AdapterView, request: JsonView) -> (AdapterView, TurnView) {
    adapter::refused(s, request, "no 1C debug session is attached"@)
}

/// Nothing of a session is left.
pub open spec fn closed(s: AdapterView) -> AdapterView {
    AdapterView {
        debug_server: None,
        debug_session: None,
        pending_debuggee: None,
        poll_failed: false,
        active_poll: None,
        threads: Seq::empty(),
        call_stacks: Seq::empty(),
        variable_references: Seq::empty(),
        pending_evaluations: Seq::empty(),
        module_registry: None,
        module_breakpoints: Seq::empty(),
        ..s
    }
}

pub open spec fn exited_body(code: i32) -> JsonView {
    JsonView::Object(seq![("exitCode"@, JsonView::Integer(code as int))])
}

/// What is reported first where a program of the session exited.
pub open spec fn exit_report(s: AdapterView, ending: EndingView) -> OutputView {
    match ending {
        EndingView::ServerExit(status) => adapter::next_output(
            s,
            "stderr"@,
            "1C debug server exited unexpectedly: "@ + status + "\n"@,
        ),
        EndingView::ClientExit(code) => adapter::next_event(s, "exited"@, exited_body(code)),
        _ => adapter::next_event(s, "terminated"@, adapter::no_body()),
    }
}

/// What is reported where the session of a program that exited could not be detached.
pub open spec fn detach_report(ending: EndingView, message: Seq<char>) -> Seq<char> {
    (if ending is ServerExit {
        "cannot detach 1C Debug UI after debug server exit: "@
    } else {
        "cannot detach 1C Debug UI after client exit: "@
    }) + message + "\n"@
}

/// The messages after a program of the session exited.
pub open spec fn exit_messages(s: AdapterView, ending: EndingView, detached: Result<(), Seq<char>>) -> Seq<OutputView> {
    let first = exit_report(s, ending);
    match detached {
        Ok(_) => seq![
            first,
            adapter::next_event(adapter::counted(s, 1), "terminated"@, adapter::no_body()),
        ],
        Err(message) => seq![
            first,
            adapter::next_output(
                adapter::counted(s, 1),
                "stderr"@,
                detach_report(ending, message),
            ),
            adapter::next_event(adapter::counted(s, 2), "terminated"@, adapter::no_body()),
        ],
    }
}

/// A session ends: nothing of it is left, whether it could be detached or not, and its programs
/// are stopped.
pub open spec fn ended(s: AdapterView, ending: EndingView, detached: Result<(), Seq<char>>) -> (AdapterView, TurnView) {
    let s = closed(s);
    let outputs = match ending {
        EndingView::Requested(request) => match detached {
            Ok(_) => seq![adapter::next_response(s, request, adapter::no_body())],
            Err(message) => seq![adapter::next_refusal(s, request, message)],
        },
        EndingView::InputClosed => Seq::empty(),
        _ => exit_messages(s, ending, detached),
    };
    (
        adapter::counted(s, outputs.len() as int),
        TurnView { outputs, stop_programs: true, next: NextView::Done },
    )
}

/// A session is to end: it is detached first, where there is one.
pub open spec fn ending_begun(s: AdapterView, ending: EndingView) -> (AdapterView, TurnView) {
    match attachment(s) {
        Some((server, session)) => (
            s,
            adapter::asks(
                NextView::Send(
                    debug_server::base_post(server, "detachDebugUI"@, session),
                    ReasonView::Detach(ending),
                ),
            ),
        ),
        None => ended(s, ending, Ok(())),
    }
}

impl Adapter {
    /// The server and the session that the adapter is attached to.
    pub fn attached(&self) -> (r: Option<(&DebugServer, &DebugUiSession)>)
        ensures
            match r {
                Some((server, session)) => attachment(self.deep_view()) == Some(
                    (server.deep_view(), session.deep_view()),
                ),
                None => attachment(self.deep_view()) is None,
            },
    {
        match (&self.debug_server, &self.debug_session) {
            (Some(server), Some(session)) => Some((server, session)),
            _ => None,
        }
    }

    /// Refuses a request that needs a session.
    pub fn refuse_unattached(&mut self, request: &Json) -> (r: Turn)
        requires
            old(self).next_sequence < u64::MAX,
        ensures
            (final(self).deep_view(), r.deep_view()) == not_attached(
                old(self).deep_view(),
                request.deep_view(),
            ),
    {
        self.refuse(request, "no 1C debug session is attached")
    }

    fn close(&mut self)
        ensures
            final(self).deep_view() == closed(old(self).deep_view()),
    {
        self.debug_session = None;
        self.debug_server = None;
        self.pending_debuggee = None;
        self.poll_failed = false;
        self.active_poll = None;
        self.threads.clear();
        self.call_stacks.clear();
        self.variable_references.clear();
        self.pending_evaluations.clear();
        self.module_registry = None;
        self.module_breakpoints.clear();
    }

    fn report_exit(&mut self, ending: &Ending) -> (r: Output)
        requires
            old(self).next_sequence < u64::MAX,
        ensures
            r.deep_view() == exit_report(old(self).deep_view(), ending.deep_view()),
            final(self).deep_view() == adapter::counted(old(self).deep_view(), 1),
    {
        match ending {
            Ending::ServerExit(status) => {
                let mut message = copy("1C debug server exited unexpectedly: ");
                message.append(status.as_str());
                message.append("\n");
                self.output_event("stderr", message.as_str())
            },
            Ending::ClientExit(code) => {
                let members = vec![pair("exitCode", signed(*code as i64))];
                assert(members.deep_view() =~= exited_body(*code)->Object_0);
                self.notify("exited", object(members))
            },
            _ => self.notify("terminated", empty_body()),
        }
    }

    fn report_program_exit(&mut self, ending: &Ending, detached: Result<(), String>) -> (r: Vec<Output>)
        requires
            old(self).next_sequence + 3 <= u64::MAX,
        ensures
            r.deep_view() == exit_messages(
                old(self).deep_view(),
                ending.deep_view(),
                text::outcome(detached),
            ),
            final(self).deep_view() == adapter::counted(
                old(self).deep_view(),
                r.deep_view().len() as int,
            ),
    {
        let mut outputs: Vec<Output> = none();
        let first = self.report_exit(ending);
        push(&mut outputs, first);
        match &detached {
            Ok(_) => {},
            Err(message) => {
                let mut report = if matches!(ending, Ending::ServerExit(_)) {
                    copy("cannot detach 1C Debug UI after debug server exit: ")
                } else {
                    copy("cannot detach 1C Debug UI after client exit: ")
                };
                report.append(message.as_str());
                report.append("\n");
                let output = self.output_event("stderr", report.as_str());
                push(&mut outputs, output);
            },
        }
        let last = self.notify("terminated", empty_body());
        push(&mut outputs, last);
        assert(outputs.deep_view() =~= exit_messages(
            old(self).deep_view(),
            ending.deep_view(),
            text::outcome(detached),
        ));
        outputs
    }

    /// Ends the session, which was detached or could not be.
    pub fn end_session(&mut self, ending: &Ending, detached: Result<(), String>) -> (r: Turn)
        requires
            adapter::ready(old(self).deep_view()),
        ensures
            (final(self).deep_view(), r.deep_view()) == ended(
                old(self).deep_view(),
                ending.deep_view(),
                text::outcome(detached),
            ),
    {
        self.close();
        let outputs = match ending {
            Ending::Requested(request) => match &detached {
                Ok(_) => {
                    let output = self.respond(request, empty_body());
                    one(output)
                },
                Err(message) => self.refuse(request, message.as_str()).outputs,
            },
            Ending::InputClosed => none(),
            _ => self.report_program_exit(ending, detached),
        };
        Turn { outputs, stop_programs: true, next: Next::Done }
    }

    /// Begins to end the session, if there is one.
    pub fn begin_ending(&mut self, ending: Ending) -> (r: Turn)
        requires
            adapter::ready(old(self).deep_view()),
        ensures
            (final(self).deep_view(), r.deep_view()) == ending_begun(
                old(self).deep_view(),
                ending.deep_view(),
            ),
    {
        let request = match self.attached() {
            Some((server, session)) => server.detach_debug_ui(session),
            None => {
                return self.end_session(&ending, Ok(()));
            },
        };
        quiet(Next::Send(request, Reason::Detach(ending)))
    }

    /// Goes on after the reply to the end of a session.
    pub fn detached(&mut self, ending: &Ending, reply: &HttpReply) -> (r: Turn)
        requires
            adapter::ready(old(self).deep_view()),
        ensures
            (final(self).deep_view(), r.deep_view()) == ended(
                old(self).deep_view(),
                ending.deep_view(),
                debug_server::acknowledged("detachDebugUI"@, reply.deep_view()),
            ),
    {
        self.end_session(ending, acknowledgement("detachDebugUI", reply))
    }

    /// `disconnect`: the session is ended, if there is one.
    pub fn disconnect(&mut self, request: &Json) -> (r: Turn)
        requires
            adapter::ready(old(self).deep_view()),
        ensures
            (final(self).deep_view(), r.deep_view()) == ending_begun(
                old(self).deep_view(),
                EndingView::Requested(request.deep_view()),
            ),
    {
        self.begin_ending(Ending::Requested(request.duplicate()))
    }
}

/// After the end of a session the adapter is as it was at its start, but for the numbers that it
/// has given out; the programs of the session are stopped, and nothing is left to do.
pub proof fn session_end_leaves_nothing(s: AdapterView, ending: EndingView, detached: Result<(), Seq<char>>)
    ensures
        ended(s, ending, detached).0 == (AdapterView {
            next_sequence: s.next_sequence + ended(s, ending, detached).1.outputs.len(),
            next_poll: s.next_poll,
            next_variable_reference: s.next_variable_reference,
            ..adapter::fresh(s.host)
        }),
        ended(s, ending, detached).1.stop_programs,
        ended(s, ending, detached).1.next == NextView::Done,
{
}

} // verus!
