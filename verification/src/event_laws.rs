//! What the events of the debug server make the adapter tell and do.

use crate::adapter;
use crate::adapter::{
    AdapterView, NextView, OutputView, PendingEvaluationView, ReasonView, VariableReferenceView,
};
use crate::adapter_events;
use crate::adapter_frames;
use crate::adapter_invariant;
use crate::adapter_requests;
use crate::adapter_targets;
use crate::answer_laws;
use crate::debug_requests;
use crate::debug_server::HttpReplyView;
use crate::debug_types::{
    DebugStackFrameView, DebugUiEventView, DebugVariableView, StepAction,
};
use crate::json;
use crate::json::JsonView;
use crate::ordered;
use crate::reading;
use crate::request_laws;
use crate::xml;
use vstd::prelude::*;

verus! {

/// An output is an event with a name.
pub open spec fn is_named(output: OutputView, name: Seq<char>) -> bool {
    &&& output is Message
    &&& json::field(output->Message_0, "type"@) == JsonView::Str("event"@)
    &&& json::field(output->Message_0, "event"@) == JsonView::Str(name)
}

/// A member of the body of a message.
pub open spec fn told(output: OutputView, name: Seq<char>) -> JsonView {
    json::field(json::field(output->Message_0, "body"@), name)
}

/// An output shows a text in a category.
pub open spec fn is_shown(output: OutputView, category: Seq<char>, text: Seq<char>) -> bool {
    &&& is_named(output, "output"@)
    &&& told(output, "category"@) == JsonView::Str(category)
    &&& told(output, "output"@) == JsonView::Str(text)
}

pub proof fn lemma_event(s: AdapterView, name: Seq<char>, body: JsonView)
    ensures
        is_named(adapter::next_event(s, name, body), name),
        json::field(adapter::next_event(s, name, body)->Message_0, "body"@) == body,
{
    answer_laws::messages_are_made_of_their_parts(
        JsonView::Null,
        s.next_sequence + 1,
        body,
        name,
    );
}

pub proof fn lemma_shown(s: AdapterView, category: Seq<char>, text: Seq<char>)
    ensures
        is_shown(adapter::next_output(s, category, text), category, text),
{
    let body = adapter::output_body(category, text);
    lemma_event(s, "output"@, body);
    reading::lemma_names();
    reading::lemma_field(body->Object_0, 0);
    reading::lemma_field(body->Object_0, 1);
}

/// The commands of events are told apart.
proof fn lemma_event_commands()
    ensures
        "targetStarted"@.len() == 13 && "targetStarted"@[0] == 't',
        "targetQuit"@.len() == 10,
        "callStackFormed"@.len() == 15,
        "rteProcessing"@.len() == 13 && "rteProcessing"@[0] == 'r',
        "rteOnBPConditionProcessing"@.len() == 26,
        "exprEvaluated"@.len() == 13 && "exprEvaluated"@[0] == 'e',
{
    reveal_strlit("targetStarted");
    reveal_strlit("targetQuit");
    reveal_strlit("callStackFormed");
    reveal_strlit("rteProcessing");
    reveal_strlit("rteOnBPConditionProcessing");
    reveal_strlit("exprEvaluated");
}

/// A step tells of a thread that started or exited, and that the list of targets changed.
pub open spec fn tells_of_thread(outputs: Seq<OutputView>, reason: Seq<char>, thread_id: i64) -> bool {
    &&& outputs.len() == 2
    &&& is_named(outputs[0], "thread"@)
    &&& told(outputs[0], "reason"@) == JsonView::Str(reason)
    &&& told(outputs[0], "threadId"@) == JsonView::Integer(thread_id as int)
    &&& is_named(outputs[1], "DebugTargetsUpdated"@)
}

pub proof fn lemma_thread_events(s: AdapterView, reason: Seq<char>, thread_id: i64)
    ensures
        tells_of_thread(adapter_targets::thread_events(s, reason, thread_id), reason, thread_id),
{
    let body = adapter_targets::thread_event_body(reason, thread_id);
    lemma_event(s, "thread"@, body);
    lemma_event(adapter::counted(s, 1), "DebugTargetsUpdated"@, adapter::no_body());
    reading::lemma_names();
    reading::lemma_field(body->Object_0, 0);
    reading::lemma_field(body->Object_0, 1);
}

/// A target has a thread of its own now, and the other targets have the threads that they had.
pub open spec fn is_new_thread(s: AdapterView, next: AdapterView, target_id: Seq<char>, thread_id: i64) -> bool {
    &&& ordered::lookup(next.threads, target_id) == Some(thread_id)
    &&& thread_id >= 1
    &&& forall|i: int| 0 <= i < s.threads.len() ==> (#[trigger] s.threads[i]).1 < thread_id
    &&& forall|other: Seq<char>|
        other != target_id ==> #[trigger] ordered::lookup(next.threads, other) == ordered::lookup(
            s.threads,
            other,
        )
    &&& next.call_stacks == s.call_stacks
    &&& next.variable_references == s.variable_references
    &&& next.pending_evaluations == s.pending_evaluations
    &&& next.debug_server == s.debug_server
    &&& next.debug_session == s.debug_session
}

pub proof fn lemma_new_thread(s: AdapterView, target_id: Seq<char>)
    requires
        adapter_invariant::consistent(s),
        adapter::ready(s),
    ensures
        is_new_thread(
            s,
            adapter_targets::with_thread(s, target_id),
            target_id,
            adapter_targets::next_thread(s),
        ),
{
    reveal(adapter_invariant::consistent);
    let thread_id = adapter_targets::next_thread(s);
    adapter_targets::lemma_largest(s.threads);
    if s.threads.len() > 0 {
        let i = choose|i: int|
            0 <= i < s.threads.len() && (#[trigger] s.threads[i]).1 == adapter_targets::largest(
                s.threads,
            );
        assert(s.threads[i].1 < i64::MAX && s.threads[i].1 >= 1);
    }
    ordered::lemma_inserted::<String, i64>(s.threads, target_id, thread_id);
}

/// The element that names a target that is attached.
pub open spec fn attached_text(target_id: Seq<char>) -> Seq<char> {
    "<id><id xmlns=\"http://v8.1c.ru/8.3/debugger/debugBaseData\">"@ + xml::escaped(target_id)
        + "</id></id>"@
}

pub proof fn lemma_attached_text(target_id: Seq<char>)
    ensures
        ({
            let content = debug_requests::debug_target_content(true, seq![target_id]);
            reading::holds(content, "<attach>true</attach>"@) && reading::holds(
                content,
                attached_text(target_id),
            )
        }),
{
    broadcast use reading::group_holds;

    reveal_strlit("<id>");
    reveal_strlit("<");
    reveal_strlit("id");
    reveal_strlit(" xmlns=\"");
    reveal_strlit("http://v8.1c.ru/8.3/debugger/debugBaseData");
    reveal_strlit("\">");
    reveal_strlit("<id><id xmlns=\"http://v8.1c.ru/8.3/debugger/debugBaseData\">");
    reveal_strlit("<attach>");
    reveal_strlit("true");
    reveal_strlit("</attach>");
    reveal_strlit("<attach>true</attach>");
    assert("<id>"@ + debug_requests::opening("id"@, debug_requests::DEBUG_BASE_NAMESPACE@)
        =~= "<id><id xmlns=\"http://v8.1c.ru/8.3/debugger/debugBaseData\">"@);
    assert("<attach>"@ + "true"@ + "</attach>"@ =~= "<attach>true</attach>"@);
    let ids = seq![target_id];
    let f = |target_id: Seq<char>| debug_requests::target_item(target_id);
    assert(ids.map_values(f) =~= seq![debug_requests::target_item(target_id)]);
    assert(seq![debug_requests::target_item(target_id)].drop_last() =~= Seq::empty());
    assert(debug_requests::joined(Seq::empty()) =~= Seq::empty());
    assert(debug_requests::target_items(ids) =~= attached_text(target_id));
}

/// A target that starts is attached: first the stop at the next statement is taken back, then the
/// target is attached, and then it gets a thread that is told of. The events behind it are left for
/// later.
pub proof fn targets_that_start_are_attached(s: AdapterView, event: DebugUiEventView, rest: Seq<DebugUiEventView>, target_id: Seq<char>, reply: HttpReplyView, id: Seq<char>)
    requires
        event.command_id == "targetStarted"@,
        event.target_id == Some(target_id),
        ordered::lookup(s.threads, target_id) is None,
        request_laws::is_attached(s),
        reply is Answered,
        adapter_invariant::consistent(s),
        adapter::ready(s),
    ensures
        ({
            let step = adapter_events::event_handled(s, event, rest);
            &&& step.0 == s
            &&& step.1.outputs.len() == 0
            &&& request_laws::sends(step.1, s.debug_server->0, "clearBreakOnNextStatement"@)
            &&& request_laws::sends_text(step.1, request_laws::session_text(s.debug_session->0))
            &&& step.1.next->Send_1 == (ReasonView::PrepareStarted { target_id, rest })
        }),
        ({
            let step = adapter_requests::replied_to(
                s,
                ReasonView::PrepareStarted { target_id, rest },
                reply,
                id,
            );
            &&& step.0 == s
            &&& step.1.outputs.len() == 0
            &&& request_laws::sends(step.1, s.debug_server->0, "attachDetachDbgTargets"@)
            &&& request_laws::sends_text(step.1, request_laws::session_text(s.debug_session->0))
            &&& request_laws::sends_text(step.1, "<attach>true</attach>"@)
            &&& request_laws::sends_text(step.1, attached_text(target_id))
            &&& step.1.next->Send_1 == (ReasonView::AttachStarted { target_id, rest })
        }),
        ({
            let (next, turn) = adapter_requests::replied_to(
                s,
                ReasonView::AttachStarted { target_id, rest },
                reply,
                id,
            );
            let thread_id = adapter_targets::next_thread(s);
            &&& is_new_thread(s, next, target_id, thread_id)
            &&& tells_of_thread(turn.outputs, "started"@, thread_id)
            &&& turn.next == NextView::Events(rest)
        }),
{
    lemma_event_commands();
    let first = adapter_events::event_handled(s, event, rest).1;
    request_laws::lemma_post(
        s.debug_server->0,
        "clearBreakOnNextStatement"@,
        s.debug_session->0,
        Seq::empty(),
        first,
    );
    let second = adapter_requests::replied_to(
        s,
        ReasonView::PrepareStarted { target_id, rest },
        reply,
        id,
    ).1;
    let content = debug_requests::debug_target_content(true, seq![target_id]);
    request_laws::lemma_post(
        s.debug_server->0,
        "attachDetachDbgTargets"@,
        s.debug_session->0,
        content,
        second,
    );
    lemma_attached_text(target_id);
    let body = request_laws::sent(second).body->0;
    request_laws::lemma_holds_within(body, content, "<attach>true</attach>"@);
    request_laws::lemma_holds_within(body, content, attached_text(target_id));
    lemma_new_thread(s, target_id);
    lemma_thread_events(s, "started"@, adapter_targets::next_thread(s));
}

/// A target that could not be prepared or attached is told of, and gets no thread.
pub proof fn targets_that_are_not_attached_get_no_thread(s: AdapterView, rest: Seq<DebugUiEventView>, target_id: Seq<char>, reply: HttpReplyView, id: Seq<char>)
    requires
        reply is Failed || reply is TimedOut,
    ensures
        ({
            let (next, turn) = adapter_requests::replied_to(
                s,
                ReasonView::PrepareStarted { target_id, rest },
                reply,
                id,
            );
            &&& next == adapter::counted(s, 1)
            &&& turn.outputs.len() == 1
            &&& is_shown(
                turn.outputs[0],
                "stderr"@,
                "cannot clear 1C break-on-next-statement: "@ + ("1C debug server request `"@
                    + "clearBreakOnNextStatement"@ + "` failed"@) + "\n"@,
            )
            &&& turn.next == NextView::Events(rest)
        }),
        ({
            let (next, turn) = adapter_requests::replied_to(
                s,
                ReasonView::AttachStarted { target_id, rest },
                reply,
                id,
            );
            &&& next == adapter::counted(s, 1)
            &&& turn.outputs.len() == 1
            &&& is_shown(
                turn.outputs[0],
                "stderr"@,
                "cannot attach 1C target: "@ + ("1C debug server request `"@
                    + "attachDetachDbgTargets"@ + "` failed"@) + "\n"@,
            )
            &&& turn.next == NextView::Events(rest)
        }),
{
    lemma_shown(
        s,
        "stderr"@,
        "cannot clear 1C break-on-next-statement: "@ + ("1C debug server request `"@
            + "clearBreakOnNextStatement"@ + "` failed"@) + "\n"@,
    );
    lemma_shown(
        s,
        "stderr"@,
        "cannot attach 1C target: "@ + ("1C debug server request `"@ + "attachDetachDbgTargets"@
            + "` failed"@) + "\n"@,
    );
}

/// A target that is attached already is not attached again when it starts.
pub proof fn attached_targets_start_silently(s: AdapterView, event: DebugUiEventView, rest: Seq<DebugUiEventView>, target_id: Seq<char>)
    requires
        event.command_id == "targetStarted"@,
        event.target_id == Some(target_id),
        ordered::lookup(s.threads, target_id) is Some,
    ensures
        adapter_events::event_handled(s, event, rest).0 == s,
        adapter_events::event_handled(s, event, rest).1.outputs.len() == 0,
        adapter_events::event_handled(s, event, rest).1.next == NextView::Events(rest),
{
    lemma_event_commands();
}

/// A target that quits takes its thread and the call stack of it along; those of the others stay.
pub proof fn targets_that_quit_take_their_thread_along(s: AdapterView, event: DebugUiEventView, rest: Seq<DebugUiEventView>, target_id: Seq<char>, thread_id: i64)
    requires
        event.command_id == "targetQuit"@,
        event.target_id == Some(target_id),
        ordered::lookup(s.threads, target_id) == Some(thread_id),
        adapter_invariant::consistent(s),
    ensures
        ({
            let (next, turn) = adapter_events::event_handled(s, event, rest);
            &&& ordered::lookup(next.threads, target_id) is None
            &&& forall|other: Seq<char>|
                other != target_id ==> #[trigger] ordered::lookup(next.threads, other)
                    == ordered::lookup(s.threads, other)
            &&& ordered::lookup(next.call_stacks, thread_id) is None
            &&& forall|other: i64|
                other != thread_id ==> #[trigger] ordered::lookup(next.call_stacks, other)
                    == ordered::lookup(s.call_stacks, other)
            &&& tells_of_thread(turn.outputs, "exited"@, thread_id)
            &&& turn.next == NextView::Events(rest)
        }),
{
    reveal(adapter_invariant::consistent);
    lemma_event_commands();
    ordered::lemma_without::<String, i64>(s.threads, target_id);
    ordered::lemma_without::<i64, Seq<DebugStackFrameView>>(s.call_stacks, thread_id);
    lemma_thread_events(s, "exited"@, thread_id);
}

/// An event tells of a call stack.
pub open spec fn brings_stack(event: DebugUiEventView, target_id: Seq<char>, exception: bool) -> bool {
    &&& event.target_id == Some(target_id)
    &&& if exception {
        event.command_id == "rteProcessing"@ || event.command_id == "rteOnBPConditionProcessing"@
    } else {
        event.command_id == "callStackFormed"@
    }
}

/// A step tells that a thread stopped.
pub open spec fn tells_of_stop(output: OutputView, reason: Seq<char>, thread_id: i64) -> bool {
    &&& is_named(output, "stopped"@)
    &&& told(output, "reason"@) == JsonView::Str(reason)
    &&& told(output, "threadId"@) == JsonView::Integer(thread_id as int)
    &&& told(output, "allThreadsStopped"@) == JsonView::Bool(false)
}

proof fn lemma_stop(s: AdapterView, reason: Seq<char>, thread_id: i64)
    ensures
        tells_of_stop(
            adapter::next_event(s, "stopped"@, adapter_events::stopped_body(reason, thread_id)),
            reason,
            thread_id,
        ),
{
    let body = adapter_events::stopped_body(reason, thread_id);
    lemma_event(s, "stopped"@, body);
    reading::lemma_names();
    reading::lemma_field(body->Object_0, 0);
    reading::lemma_field(body->Object_0, 1);
    reading::lemma_field(body->Object_0, 2);
}

/// A target that stops is told of, with its thread and the reason: an error, a breakpoint, or a
/// step. Its call stack is kept with the innermost frame first, where the debug server gives the
/// outermost first; those of other threads stay.
pub proof fn stops_are_told_with_their_reason(s: AdapterView, event: DebugUiEventView, rest: Seq<DebugUiEventView>, target_id: Seq<char>, thread_id: i64, exception: bool)
    requires
        brings_stack(event, target_id, exception),
        ordered::lookup(s.threads, target_id) == Some(thread_id),
        !event.send_message_only,
        !event.send_hit_counter_only,
        adapter_invariant::consistent(s),
    ensures
        ({
            let (next, turn) = adapter_events::event_handled(s, event, rest);
            let stack = event.call_stack;
            &&& ordered::lookup(next.call_stacks, thread_id) matches Some(kept) && kept.len()
                == stack.len() && forall|i: int|
                0 <= i < stack.len() ==> #[trigger] kept[i] == stack[stack.len() - 1 - i]
            &&& forall|other: i64|
                other != thread_id ==> #[trigger] ordered::lookup(next.call_stacks, other)
                    == ordered::lookup(s.call_stacks, other)
            &&& next.threads == s.threads
            &&& turn.outputs.len() >= 2
            &&& exception ==> tells_of_stop(turn.outputs.last(), "exception"@, thread_id)
            &&& !exception && (event.stopped_by_breakpoint || event.suspended_by_other)
                ==> tells_of_stop(turn.outputs.last(), "breakpoint"@, thread_id)
            &&& !exception && !event.stopped_by_breakpoint && !event.suspended_by_other
                ==> tells_of_stop(turn.outputs.last(), "step"@, thread_id)
            &&& event.message is Some && event.message->0.len() > 0 ==> turn.outputs.len() == 3
                && is_shown(turn.outputs[0], "console"@, event.message->0 + "\n"@)
            &&& event.message is None || event.message->0.len() == 0 ==> turn.outputs.len() == 2
            &&& turn.next == NextView::Events(rest)
        }),
{
    reveal(adapter_invariant::consistent);
    lemma_event_commands();
    let said = adapter_events::event_message(s, event);
    let after = adapter::counted(s, said.len() as int);
    ordered::lemma_inserted::<i64, Seq<DebugStackFrameView>>(
        s.call_stacks,
        thread_id,
        event.call_stack.reverse(),
    );
    lemma_stop(after, "exception"@, thread_id);
    lemma_stop(after, "breakpoint"@, thread_id);
    lemma_stop(after, "step"@, thread_id);
    if event.message is Some {
        lemma_shown(s, "console"@, event.message->0 + "\n"@);
    }
}

/// A target that only sent a message goes on at once, and its call stack is not kept.
pub proof fn messages_do_not_stop(s: AdapterView, event: DebugUiEventView, rest: Seq<DebugUiEventView>, target_id: Seq<char>, thread_id: i64, exception: bool)
    requires
        brings_stack(event, target_id, exception),
        ordered::lookup(s.threads, target_id) == Some(thread_id),
        event.send_message_only,
        request_laws::is_attached(s),
    ensures
        ({
            let (next, turn) = adapter_events::event_handled(s, event, rest);
            &&& next.call_stacks == s.call_stacks
            &&& next.variable_references == s.variable_references
            &&& event.message is Some && event.message->0.len() > 0 ==> turn.outputs.len() == 1
                && is_shown(turn.outputs[0], "console"@, event.message->0 + "\n"@)
            &&& event.message is None || event.message->0.len() == 0 ==> turn.outputs.len() == 0
            &&& request_laws::sends(turn, s.debug_server->0, "step"@)
            &&& request_laws::sends_text(turn, request_laws::target_text(target_id))
            &&& request_laws::sends_text(turn, "<action>Continue</action>"@)
            &&& turn.next->Send_1 == (ReasonView::ContinueAfterMessage { rest })
        }),
{
    lemma_event_commands();
    let turn = adapter_events::event_handled(s, event, rest).1;
    let content = debug_requests::step_content(target_id, StepAction::Continue);
    request_laws::lemma_action(target_id, StepAction::Continue);
    request_laws::lemma_post(s.debug_server->0, "step"@, s.debug_session->0, content, turn);
    let body = request_laws::sent(turn).body->0;
    request_laws::lemma_holds_within(body, content, request_laws::target_text(target_id));
    request_laws::lemma_holds_within(body, content, "<action>Continue</action>"@);
    if event.message is Some {
        lemma_shown(s, "console"@, event.message->0 + "\n"@);
    }
}

/// A target that only counted a hit did not stop.
pub proof fn counted_hits_do_not_stop(s: AdapterView, event: DebugUiEventView, rest: Seq<DebugUiEventView>, target_id: Seq<char>, exception: bool)
    requires
        brings_stack(event, target_id, exception),
        ordered::lookup(s.threads, target_id) is Some,
        !event.send_message_only,
        event.send_hit_counter_only,
    ensures
        ({
            let (next, turn) = adapter_events::event_handled(s, event, rest);
            &&& next.call_stacks == s.call_stacks
            &&& next.variable_references == s.variable_references
            &&& turn.outputs.len() <= 1
            &&& turn.outputs.len() == 1 ==> is_named(turn.outputs[0], "output"@)
            &&& turn.next == NextView::Events(rest)
        }),
{
    lemma_event_commands();
    if event.message is Some {
        lemma_shown(s, "console"@, event.message->0 + "\n"@);
    }
}

/// A call stack of a target that is not attached is told of, and not kept.
pub proof fn stacks_of_other_targets_are_not_kept(s: AdapterView, event: DebugUiEventView, rest: Seq<DebugUiEventView>, target_id: Seq<char>, exception: bool)
    requires
        brings_stack(event, target_id, exception),
        ordered::lookup(s.threads, target_id) is None,
    ensures
        ({
            let (next, turn) = adapter_events::event_handled(s, event, rest);
            &&& next == adapter::counted(s, 1)
            &&& turn.outputs.len() == 1
            &&& is_shown(
                turn.outputs[0],
                "stderr"@,
                "received call stack for unattached 1C target "@ + target_id + "\n"@,
            )
            &&& turn.next == NextView::Events(rest)
        }),
{
    lemma_event_commands();
    lemma_shown(
        s,
        "stderr"@,
        "received call stack for unattached 1C target "@ + target_id + "\n"@,
    );
}

/// An event that the adapter does not know is shown by its command.
pub proof fn other_events_are_shown(s: AdapterView, event: DebugUiEventView, rest: Seq<DebugUiEventView>)
    requires
        event.command_id != "targetStarted"@,
        event.command_id != "targetQuit"@,
        event.command_id != "callStackFormed"@,
        event.command_id != "rteProcessing"@,
        event.command_id != "rteOnBPConditionProcessing"@,
        event.command_id != "exprEvaluated"@,
    ensures
        ({
            let (next, turn) = adapter_events::event_handled(s, event, rest);
            &&& next == adapter::counted(s, 1)
            &&& turn.outputs.len() == 1
            &&& is_shown(
                turn.outputs[0],
                "console"@,
                "1C debug event: "@ + event.command_id + "\n"@,
            )
            &&& turn.next == NextView::Events(rest)
        }),
{
    lemma_shown(s, "console"@, "1C debug event: "@ + event.command_id + "\n"@);
}

/// The events of a poll are handled one after the other, in the order in which they came, each with
/// those behind it left for later.
pub proof fn events_are_handled_in_order(s: AdapterView, first: DebugUiEventView, rest: Seq<DebugUiEventView>)
    ensures
        adapter_events::events_taken(s, seq![first] + rest) == adapter_events::event_handled(
            s,
            first,
            rest,
        ),
        adapter_events::events_taken(s, Seq::empty()).0 == s,
        adapter_events::events_taken(s, Seq::empty()).1.next is Done,
        adapter_events::events_taken(s, Seq::empty()).1.outputs.len() == 0,
{
    assert((seq![first] + rest).skip(1) =~= rest);
}

/// A deferred evaluation answers the request that waits under its identifier, and no request waits
/// under it any more; the others wait on.
pub proof fn deferred_evaluations_answer_their_request(s: AdapterView, event: DebugUiEventView, rest: Seq<DebugUiEventView>)
    requires
        event.command_id == "exprEvaluated"@,
        event.evaluation is Some,
        ordered::lookup(s.pending_evaluations, event.evaluation->0.result_id) is Some,
        adapter_invariant::consistent(s),
    ensures
        ({
            let (next, turn) = adapter_events::event_handled(s, event, rest);
            let result_id = event.evaluation->0.result_id;
            let waiting = AdapterView {
                pending_evaluations: ordered::without(s.pending_evaluations, result_id),
                ..s
            };
            let answer = adapter_frames::deferred_answer(
                waiting,
                ordered::lookup(s.pending_evaluations, result_id)->0,
                event.evaluation->0,
            );
            &&& next == answer.0
            &&& turn.outputs.skip(1) == answer.1.outputs
            &&& ordered::lookup(next.pending_evaluations, result_id) is None
            &&& forall|other: Seq<char>|
                other != result_id ==> #[trigger] ordered::lookup(next.pending_evaluations, other)
                    == ordered::lookup(s.pending_evaluations, other)
            &&& turn.next == NextView::Events(rest)
        }),
{
    reveal(adapter_invariant::consistent);
    lemma_event_commands();
    let result_id = event.evaluation->0.result_id;
    ordered::lemma_without::<String, PendingEvaluationView>(
        s.pending_evaluations,
        result_id,
    );
    let waiting = AdapterView {
        pending_evaluations: ordered::without(s.pending_evaluations, result_id),
        ..s
    };
    let pending = ordered::lookup(s.pending_evaluations, result_id)->0;
    let answer = adapter_frames::deferred_answer(waiting, pending, event.evaluation->0);
    let turn = adapter_events::event_handled(s, event, rest).1;
    assert(turn.outputs.skip(1) =~= answer.1.outputs);
    if let PendingEvaluationView::Variables { reference, .. } = pending {
        lemma_listed_keeps_waiting(waiting, reference, event.evaluation->0.variables);
    }
}

proof fn lemma_listed_keeps_waiting(s: AdapterView, parent: VariableReferenceView, variables: Seq<DebugVariableView>)
    ensures
        adapter_frames::listed(s, parent, variables).0.pending_evaluations
            == s.pending_evaluations,
    decreases variables.len(),
{
    if variables.len() > 0 {
        lemma_listed_keeps_waiting(s, parent, variables.drop_last());
    }
}

/// An evaluation that no request waits for is shown, and changes nothing.
pub proof fn unasked_evaluations_are_shown(s: AdapterView, event: DebugUiEventView, rest: Seq<DebugUiEventView>)
    requires
        event.command_id == "exprEvaluated"@,
    ensures
        ({
            let (next, turn) = adapter_events::event_handled(s, event, rest);
            &&& event.evaluation is None ==> next == adapter::counted(s, 1) && turn.outputs.len()
                == 1 && is_shown(
                turn.outputs[0],
                "stderr"@,
                "1C sent exprEvaluated without calculation data\n"@,
            ) && turn.next == NextView::Events(rest)
            &&& event.evaluation is Some && ordered::lookup(
                s.pending_evaluations,
                event.evaluation->0.result_id,
            ) is None ==> next == adapter::counted(s, 1) && turn.outputs.len() == 1 && is_shown(
                turn.outputs[0],
                "console"@,
                "1C sent an unsolicited expression result "@ + event.evaluation->0.result_id
                    + "\n"@,
            ) && turn.next == NextView::Events(rest)
        }),
{
    lemma_event_commands();
    lemma_shown(s, "stderr"@, "1C sent exprEvaluated without calculation data\n"@);
    if event.evaluation is Some {
        lemma_shown(
            s,
            "console"@,
            "1C sent an unsolicited expression result "@ + event.evaluation->0.result_id + "\n"@,
        );
    }
}

} // verus!
