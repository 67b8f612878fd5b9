//! What the debug server tells without being asked.

use crate::adapter;
use crate::adapter::{
    quiet, trace_thread, Adapter, AdapterView, Next, NextView, Output, OutputView, Reason,
    ReasonView, Turn, TurnView,
};
use crate::adapter_frames;
use crate::adapter_session;
use crate::adapter_targets;
use crate::debug_server;
use crate::debug_server::{acknowledgement, HttpReply, HttpReplyView};
use crate::debug_types::{
    DebugStackFrame, DebugStackFrameView, DebugUiEvent, DebugUiEventView, StepAction,
};
use crate::json::{object, pair, signed, string, Json, JsonView};
use crate::list::{none, one, push};
use crate::ordered;
use crate::text::{copy, same};
use vstd::prelude::*;

verus! {

/// A step that puts something out and goes on with the events that are left.
pub open spec fn tells(outputs: Seq<OutputView>, rest: Seq<DebugUiEventView>) -> TurnView {
    TurnView { outputs, stop_programs: false, next: NextView::Events(rest) }
}

/// An `output` event, before the events that are left.
pub open spec fn reports(s: AdapterView, category: Seq<char>, output: Seq<char>, rest: Seq<DebugUiEventView>) -> (AdapterView, TurnView) {
    (adapter::counted(s, 1), tells(seq![adapter::next_output(s, category, output)], rest))
}

/// A target starts: it is attached, unless it is already.
pub open spec fn target_started(s: AdapterView, target_id: Seq<char>, rest: Seq<DebugUiEventView>) -> (AdapterView, TurnView) {
    if ordered::lookup(s.threads, target_id) is Some {
        (s, tells(Seq::empty(), rest))
    } else {
        match adapter_session::attachment(s) {
            None => (s, tells(Seq::empty(), rest)),
            Some((server, session)) => (
                s,
                adapter::asks(
                    NextView::Send(
                        debug_server::base_post(server, "clearBreakOnNextStatement"@, session),
                        ReasonView::PrepareStarted { target_id, rest },
                    ),
                ),
            ),
        }
    }
}

pub open spec fn prepare_started_replied(s: AdapterView, target_id: Seq<char>, rest: Seq<DebugUiEventView>, reply: HttpReplyView) -> (AdapterView, TurnView) {
    match debug_server::acknowledged("clearBreakOnNextStatement"@, reply) {
        Err(message) => reports(
            s,
            "stderr"@,
            "cannot clear 1C break-on-next-statement: "@ + message + "\n"@,
            rest,
        ),
        Ok(_) => match adapter_session::attachment(s) {
            None => (s, tells(Seq::empty(), rest)),
            Some((server, session)) => (
                s,
                adapter::asks(
                    NextView::Send(
                        debug_server::attach_targets_post(server, session, seq![target_id]),
                        ReasonView::AttachStarted { target_id, rest },
                    ),
                ),
            ),
        },
    }
}

pub open spec fn attach_started_replied(s: AdapterView, target_id: Seq<char>, rest: Seq<DebugUiEventView>, reply: HttpReplyView) -> (AdapterView, TurnView) {
    match debug_server::acknowledged("attachDetachDbgTargets"@, reply) {
        Err(message) => reports(
            s,
            "stderr"@,
            "cannot attach 1C target: "@ + message + "\n"@,
            rest,
        ),
        Ok(_) => (
            adapter::counted(adapter_targets::with_thread(s, target_id), 2),
            tells(
                adapter_targets::thread_events(s, "started"@, adapter_targets::next_thread(s)),
                rest,
            ),
        ),
    }
}

/// The state without a target and what belongs to its thread.
pub open spec fn without_target(s: AdapterView, target_id: Seq<char>, thread_id: i64) -> AdapterView {
    adapter_frames::forgotten(
        AdapterView {
            threads: ordered::without(s.threads, target_id),
            call_stacks: ordered::without(s.call_stacks, thread_id),
            ..s
        },
        thread_id,
    )
}

/// A target quits: its thread exits, where it has one.
pub open spec fn target_quit(s: AdapterView, target_id: Seq<char>, rest: Seq<DebugUiEventView>) -> (AdapterView, TurnView) {
    match ordered::lookup(s.threads, target_id) {
        None => (s, tells(Seq::empty(), rest)),
        Some(thread_id) => (
            adapter::counted(without_target(s, target_id, thread_id), 2),
            tells(adapter_targets::thread_events(s, "exited"@, thread_id), rest),
        ),
    }
}

/// The message that an event carries.
pub open spec fn event_message(s: AdapterView, event: DebugUiEventView) -> Seq<OutputView> {
    match event.message {
        Some(message) if message.len() > 0 => seq![
            adapter::next_output(s, "console"@, message + "\n"@),
        ],
        _ => Seq::empty(),
    }
}

/// Why a thread stopped.
pub open spec fn stop_reason(event: DebugUiEventView, exception: bool) -> Seq<char> {
    if exception {
        "exception"@
    } else if event.stopped_by_breakpoint || event.suspended_by_other {
        "breakpoint"@
    } else {
        "step"@
    }
}

pub open spec fn stopped_body(reason: Seq<char>, thread_id: i64) -> JsonView {
    JsonView::Object(
        seq![
            ("reason"@, JsonView::Str(reason)),
            ("threadId"@, JsonView::Integer(thread_id as int)),
            ("allThreadsStopped"@, JsonView::Bool(false)),
        ],
    )
}

/// The state with the call stack of a thread that stopped; the debug server gives the outermost
/// frame first.
pub open spec fn with_stack(s: AdapterView, thread_id: i64, stack: Seq<DebugStackFrameView>) -> AdapterView {
    adapter_frames::forgotten(
        AdapterView {
            call_stacks: ordered::inserted::<i64, Seq<DebugStackFrameView>>(
                s.call_stacks,
                thread_id,
                stack.reverse(),
            ),
            ..s
        },
        thread_id,
    )
}

/// A call stack arrives: its thread stopped, or only sent a message or counted a hit.
pub open spec fn stack_formed(s: AdapterView, target_id: Seq<char>, event: DebugUiEventView, exception: bool, rest: Seq<DebugUiEventView>) -> (AdapterView, TurnView) {
    match ordered::lookup(s.threads, target_id) {
        None => reports(
            s,
            "stderr"@,
            "received call stack for unattached 1C target "@ + target_id + "\n"@,
            rest,
        ),
        Some(thread_id) => {
            let said = event_message(s, event);
            let after = adapter::counted(s, said.len() as int);
            if event.send_message_only {
                match adapter_session::attachment(s) {
                    None => (after, tells(said, rest)),
                    Some((server, session)) => (
                        after,
                        TurnView {
                            outputs: said,
                            stop_programs: false,
                            next: NextView::Send(
                                debug_server::step_post(
                                    server,
                                    session,
                                    target_id,
                                    StepAction::Continue,
                                ),
                                ReasonView::ContinueAfterMessage { rest },
                            ),
                        },
                    ),
                }
            } else if event.send_hit_counter_only {
                (after, tells(said, rest))
            } else {
                (
                    adapter::counted(with_stack(after, thread_id, event.call_stack), 1),
                    tells(
                        said + seq![
                            adapter::thread_record("rdbg.call_stack.formed"@, thread_id, target_id),
                            adapter::next_event(
                                after,
                                "stopped"@,
                                stopped_body(stop_reason(event, exception), thread_id),
                            ),
                        ],
                        rest,
                    ),
                )
            }
        },
    }
}

pub open spec fn continue_replied(s: AdapterView, rest: Seq<DebugUiEventView>, reply: HttpReplyView) -> (AdapterView, TurnView) {
    match debug_server::acknowledged("step"@, reply) {
        Err(message) => reports(
            s,
            "stderr"@,
            "cannot continue 1C target after message: "@ + message + "\n"@,
            rest,
        ),
        Ok(_) => (s, tells(Seq::empty(), rest)),
    }
}

/// An event is handled.
pub open spec fn event_handled(s: AdapterView, event: DebugUiEventView, rest: Seq<DebugUiEventView>) -> (AdapterView, TurnView) {
    let command_id = event.command_id;
    let target_id = event.target_id;
    if command_id == "targetStarted"@ && target_id is Some {
        target_started(s, target_id->0, rest)
    } else if command_id == "targetQuit"@ && target_id is Some {
        target_quit(s, target_id->0, rest)
    } else if command_id == "callStackFormed"@ && target_id is Some {
        stack_formed(s, target_id->0, event, false, rest)
    } else if (command_id == "rteProcessing"@ || command_id == "rteOnBPConditionProcessing"@)
        && target_id is Some {
        stack_formed(s, target_id->0, event, true, rest)
    } else if command_id == "exprEvaluated"@ {
        let (next, turn) = adapter_frames::evaluation_arrived(s, event.evaluation);
        (next, tells(turn.outputs, rest))
    } else {
        reports(s, "console"@, "1C debug event: "@ + command_id + "\n"@, rest)
    }
}

/// The first of the events is handled; the others are left.
pub open spec fn events_taken(s: AdapterView, events: Seq<DebugUiEventView>) -> (AdapterView, TurnView) {
    if events.len() == 0 {
        (s, adapter::asks(NextView::Done))
    } else {
        event_handled(s, events[0], events.skip(1))
    }
}

fn go_on(outputs: Vec<Output>, rest: Vec<DebugUiEvent>) -> (r: Turn)
    ensures
        r.deep_view() == tells(outputs.deep_view(), rest.deep_view()),
{
    Turn { outputs, stop_programs: false, next: Next::Events(rest) }
}

fn reversed(stack: Vec<DebugStackFrame>) -> (r: Vec<DebugStackFrame>)
    ensures
        r.deep_view() == stack.deep_view().reverse(),
{
    let ghost all = stack.deep_view();
    let mut stack = stack;
    let mut out: Vec<DebugStackFrame> = none();
    while stack.len() > 0
        invariant
            stack.deep_view() == all.take(stack@.len() as int),
            stack@.len() <= all.len(),
            out.deep_view() == all.reverse().take(all.len() - stack@.len()),
        decreases stack@.len(),
    {
        let ghost before = stack.deep_view();
        let ghost given = out.deep_view();
        let ghost n = stack@.len() as int;
        match stack.pop() {
            Some(frame) => {
                assert(stack.deep_view() =~= before.drop_last());
                assert(frame.deep_view() == before.last());
                push(&mut out, frame);
                assert(stack.deep_view() =~= all.take(n - 1));
                assert(all.reverse()[all.len() - n] == all[n - 1]);
                assert(out.deep_view() =~= all.reverse().take(all.len() - n + 1));
            },
            None => {},
        }
    }
    assert(out.deep_view() =~= all.reverse());
    out
}

fn describe_stop(reason: &str, thread_id: i64) -> (r: Json)
    ensures
        r.deep_view() == stopped_body(reason@, thread_id),
{
    let members = vec![
        pair("reason", string(reason)),
        pair("threadId", signed(thread_id)),
        pair("allThreadsStopped", Json::Bool(false)),
    ];
    assert(members.deep_view() =~= stopped_body(reason@, thread_id)->Object_0);
    object(members)
}

fn line_of(start: &str, middle: &str) -> (r: String)
    ensures
        r@ == start@ + middle@ + "\n"@,
{
    let mut line = copy(start);
    line.append(middle);
    line.append("\n");
    line
}

impl Adapter {
    fn report(&mut self, category: &str, start: &str, middle: &str, rest: Vec<DebugUiEvent>) -> (r: Turn)
        requires
            adapter::ready(old(self).deep_view()),
        ensures
            (final(self).deep_view(), r.deep_view()) == reports(
                old(self).deep_view(),
                category@,
                start@ + middle@ + "\n"@,
                rest.deep_view(),
            ),
    {
        let output = self.output_event(category, line_of(start, middle).as_str());
        go_on(one(output), rest)
    }

    fn start_target(&mut self, target_id: String, rest: Vec<DebugUiEvent>) -> (r: Turn)
        ensures
            (final(self).deep_view(), r.deep_view()) == target_started(
                old(self).deep_view(),
                target_id@,
                rest.deep_view(),
            ),
    {
        if self.threads.get(&target_id).is_some() {
            return go_on(none(), rest);
        }
        match self.attached() {
            Some((server, session)) => {
                let command = server.clear_break_on_next_statement(session);
                quiet(Next::Send(command, Reason::PrepareStarted { target_id, rest }))
            },
            None => go_on(none(), rest),
        }
    }

    /// Goes on after the reply to the preparation of a target that started.
    pub fn started_target_prepared(&mut self, target_id: String, rest: Vec<DebugUiEvent>, reply: &HttpReply) -> (r: Turn)
        requires
            adapter::ready(old(self).deep_view()),
        ensures
            (final(self).deep_view(), r.deep_view()) == prepare_started_replied(
                old(self).deep_view(),
                target_id@,
                rest.deep_view(),
                reply.deep_view(),
            ),
    {
        match acknowledgement("clearBreakOnNextStatement", reply) {
            Ok(_) => {},
            Err(message) => {
                return self.report(
                    "stderr",
                    "cannot clear 1C break-on-next-statement: ",
                    message.as_str(),
                    rest,
                );
            },
        }
        match self.attached() {
            Some((server, session)) => {
                let command = server.attach_debug_target(session, target_id.as_str());
                quiet(Next::Send(command, Reason::AttachStarted { target_id, rest }))
            },
            None => go_on(none(), rest),
        }
    }

    /// Goes on after the reply to the attachment of a target that started.
    pub fn started_target_attached(&mut self, target_id: String, rest: Vec<DebugUiEvent>, reply: &HttpReply) -> (r: Turn)
        requires
            adapter::ready(old(self).deep_view()),
        ensures
            (final(self).deep_view(), r.deep_view()) == attach_started_replied(
                old(self).deep_view(),
                target_id@,
                rest.deep_view(),
                reply.deep_view(),
            ),
    {
        match acknowledgement("attachDetachDbgTargets", reply) {
            Ok(_) => {},
            Err(message) => {
                return self.report("stderr", "cannot attach 1C target: ", message.as_str(), rest);
            },
        }
        let thread_id = self.start_thread(target_id);
        let outputs = self.notify_thread("started", thread_id);
        go_on(outputs, rest)
    }

    fn quit_target(&mut self, target_id: String, rest: Vec<DebugUiEvent>) -> (r: Turn)
        requires
            adapter::ready(old(self).deep_view()),
        ensures
            (final(self).deep_view(), r.deep_view()) == target_quit(
                old(self).deep_view(),
                target_id@,
                rest.deep_view(),
            ),
    {
        match self.threads.remove(&target_id) {
            Some(thread_id) => {
                let _ = self.call_stacks.remove(&thread_id);
                self.clear_thread_references(thread_id);
                let outputs = self.notify_thread("exited", thread_id);
                go_on(outputs, rest)
            },
            None => {
                proof {
                    ordered::lemma_without_absent(old(self).deep_view().threads, target_id@);
                }
                go_on(none(), rest)
            },
        }
    }

    /// Takes over a call stack of a target.
    pub fn handle_call_stack_event(&mut self, target_id: String, debug_event: DebugUiEvent, exception: bool, rest: Vec<DebugUiEvent>) -> (r: Turn)
        requires
            adapter::ready(old(self).deep_view()),
        ensures
            (final(self).deep_view(), r.deep_view()) == stack_formed(
                old(self).deep_view(),
                target_id@,
                debug_event.deep_view(),
                exception,
                rest.deep_view(),
            ),
    {
        let thread_id = match self.threads.get(&target_id) {
            Some(thread_id) => *thread_id,
            None => {
                return self.report(
                    "stderr",
                    "received call stack for unattached 1C target ",
                    target_id.as_str(),
                    rest,
                );
            },
        };
        let ghost event = debug_event.deep_view();
        let ghost said = event_message(old(self).deep_view(), event);
        let mut outputs: Vec<Output> = none();
        match &debug_event.message {
            Some(message) => {
                if !message.as_str().is_empty() {
                    let mut line = copy(message.as_str());
                    line.append("\n");
                    let output = self.output_event("console", line.as_str());
                    push(&mut outputs, output);
                }
            },
            None => {},
        }
        assert(outputs.deep_view() =~= said);
        assert(self.deep_view() =~= adapter::counted(old(self).deep_view(), said.len() as int));
        if debug_event.send_message_only {
            return match self.attached() {
                Some((server, session)) => {
                    let command = server.step(session, target_id.as_str(), StepAction::Continue);
                    Turn {
                        outputs,
                        stop_programs: false,
                        next: Next::Send(command, Reason::ContinueAfterMessage { rest }),
                    }
                },
                None => go_on(outputs, rest),
            };
        }
        if debug_event.send_hit_counter_only {
            return go_on(outputs, rest);
        }
        let reason = if exception {
            "exception"
        } else if debug_event.stopped_by_breakpoint || debug_event.suspended_by_other {
            "breakpoint"
        } else {
            "step"
        };
        let stack = reversed(debug_event.call_stack);
        self.call_stacks.insert(thread_id, stack);
        self.clear_thread_references(thread_id);
        push(
            &mut outputs,
            trace_thread("rdbg.call_stack.formed", thread_id, target_id.as_str()),
        );
        let stopped = self.notify("stopped", describe_stop(reason, thread_id));
        push(&mut outputs, stopped);
        assert(outputs.deep_view() =~= stack_formed(
            old(self).deep_view(),
            target_id@,
            event,
            exception,
            rest.deep_view(),
        ).1.outputs);
        go_on(outputs, rest)
    }

    /// Goes on after the reply to the continuation of a target that only sent a message.
    pub fn continued_after_message(&mut self, rest: Vec<DebugUiEvent>, reply: &HttpReply) -> (r: Turn)
        requires
            adapter::ready(old(self).deep_view()),
        ensures
            (final(self).deep_view(), r.deep_view()) == continue_replied(
                old(self).deep_view(),
                rest.deep_view(),
                reply.deep_view(),
            ),
    {
        match acknowledgement("step", reply) {
            Ok(_) => go_on(none(), rest),
            Err(message) => self.report(
                "stderr",
                "cannot continue 1C target after message: ",
                message.as_str(),
                rest,
            ),
        }
    }

    /// Handles an event, before those that are left.
    pub fn handle_debug_event(&mut self, debug_event: DebugUiEvent, rest: Vec<DebugUiEvent>) -> (r: Turn)
        requires
            adapter::ready(old(self).deep_view()),
        ensures
            (final(self).deep_view(), r.deep_view()) == event_handled(
                old(self).deep_view(),
                debug_event.deep_view(),
                rest.deep_view(),
            ),
    {
        let command_id = copy(debug_event.command_id.as_str());
        let command = command_id.as_str();
        match &debug_event.target_id {
            Some(target_id) => {
                let target_id = copy(target_id.as_str());
                if same(command, "targetStarted") {
                    return self.start_target(target_id, rest);
                }
                if same(command, "targetQuit") {
                    return self.quit_target(target_id, rest);
                }
                if same(command, "callStackFormed") {
                    return self.handle_call_stack_event(target_id, debug_event, false, rest);
                }
                if same(command, "rteProcessing") || same(command, "rteOnBPConditionProcessing") {
                    return self.handle_call_stack_event(target_id, debug_event, true, rest);
                }
            },
            None => {},
        }
        if same(command, "exprEvaluated") {
            let turn = self.handle_evaluation_event(debug_event);
            return go_on(turn.outputs, rest);
        }
        self.report("console", "1C debug event: ", command, rest)
    }

    /// Handles the first of the events that a poll brought.
    pub fn events(&mut self, events: Vec<DebugUiEvent>) -> (r: Turn)
        requires
            adapter::ready(old(self).deep_view()),
        ensures
            (final(self).deep_view(), r.deep_view()) == events_taken(
                old(self).deep_view(),
                events.deep_view(),
            ),
    {
        let ghost all = events.deep_view();
        let mut events = events;
        if events.len() == 0 {
            return quiet(Next::Done);
        }
        let first = events.remove(0);
        assert(first.deep_view() == all[0]);
        assert(events.deep_view() =~= all.skip(1));
        self.handle_debug_event(first, events)
    }
}

} // verus!
