//! What the adapter keeps, and how it refuses what it cannot do.

use crate::adapter;
use crate::adapter::{
    AdapterView, EndingView, Host, NextView, OutputView, PendingEvaluationView, ReasonView,
    VariableReferenceView,
};
use crate::adapter_breakpoints;
use crate::adapter_evaluation;
use crate::adapter_events;
use crate::adapter_frames;
use crate::adapter_invariant;
use crate::adapter_polls;
use crate::adapter_polls::ProgramReportView;
use crate::adapter_requests;
use crate::adapter_session;
use crate::answer_laws;
use crate::debug_requests;
use crate::debug_server;
use crate::debug_server::{HttpReplyView, PingOutcomeView};
use crate::debug_types::{
    DebugStackFrameView, DebugUiEventView, DebugUiSessionView, DebugVariableView, ModuleBreakpointsView,
    SourceBreakpointView, StepAction,
};
use crate::event_laws;
use crate::json;
use crate::json::JsonView;
use crate::metadata::ModuleInfoView;
use crate::number;
use crate::ordered;
use crate::request_laws;
use crate::target_laws;
use crate::text;
use vstd::prelude::*;
use vstd::utf8::*;

verus! {

/// The adapter starts with nothing: no session, no threads, no stacks, no references, and no
/// numbers given out.
pub proof fn the_adapter_starts_with_nothing(host: Host)
    ensures
        ({
            let s = adapter::fresh(host);
            &&& s.host == host
            &&& s.next_sequence == 0 && s.next_poll == 0 && s.next_variable_reference == 0
            &&& s.debug_server is None && s.debug_session is None && s.pending_debuggee is None
            &&& s.active_poll is None && !s.poll_failed
            &&& s.threads.len() == 0 && s.call_stacks.len() == 0
            &&& s.variable_references.len() == 0 && s.pending_evaluations.len() == 0
            &&& s.module_registry is None && s.module_breakpoints.len() == 0
        }),
{
}

/// References are given out one after the other, above ten millions.
pub proof fn references_are_given_out_one_after_the_other(s: AdapterView, reference: VariableReferenceView)
    ensures
        s.next_variable_reference < 10_000_000 ==> adapter_frames::next_reference(s) == 10_000_001,
        s.next_variable_reference >= 10_000_000 ==> adapter_frames::next_reference(s)
            == s.next_variable_reference + 1,
        adapter_frames::stored(s, reference).next_variable_reference
            == adapter_frames::next_reference(s),
        adapter_frames::next_reference(adapter_frames::stored(s, reference))
            == adapter_frames::next_reference(s) + 1,
{
}

/// The identifier of a frame is a million for each number of its thread, and one for each frame
/// from the top; numbers that are too large or too small are cut off.
pub proof fn frame_identifiers_are_made_of_thread_and_level(thread_id: i64, level: int)
    requires
        0 <= level < 1_000_000,
    ensures
        -9_000_000_000_000 <= thread_id <= 9_000_000_000_000 ==> adapter_frames::frame_id(
            thread_id,
            level,
        ) == thread_id * 1_000_000 + level + 1,
        thread_id > 10_000_000_000_000 ==> adapter_frames::frame_id(thread_id, level) == i64::MAX,
        i64::MIN <= adapter_frames::frame_id(thread_id, level) <= i64::MAX,
{
}

/// The thread that a reference belongs to.
pub open spec fn thread_of(reference: VariableReferenceView) -> i64 {
    match reference {
        VariableReferenceView::Locals { thread_id, .. } => thread_id,
        VariableReferenceView::Value { thread_id, .. } => thread_id,
    }
}

/// The thread that a waiting request belongs to.
pub open spec fn waiting_thread(pending: PendingEvaluationView) -> i64 {
    match pending {
        PendingEvaluationView::Evaluate { thread_id, .. } => thread_id,
        PendingEvaluationView::Variables { reference, .. } => thread_of(reference),
    }
}

/// Where a thread stops again, or exits, its references and the requests that wait for it are
/// forgotten, and those of other threads stay.
pub proof fn threads_that_go_on_take_their_references_along(
    s: AdapterView,
    event: DebugUiEventView,
    rest: Seq<DebugUiEventView>,
    target_id: Seq<char>,
    thread_id: i64,
    id: i64,
    result_id: Seq<char>,
)
    requires
        event.target_id == Some(target_id),
        ordered::lookup(s.threads, target_id) == Some(thread_id),
        event.command_id == "targetQuit"@ || (event.command_id == "callStackFormed"@
            && !event.send_message_only && !event.send_hit_counter_only),
        adapter_invariant::consistent(s),
    ensures
        ({
            let next = adapter_events::event_handled(s, event, rest).0;
            let reference = ordered::lookup(s.variable_references, id);
            let pending = ordered::lookup(s.pending_evaluations, result_id);
            &&& reference is Some && thread_of(reference->0) == thread_id ==> ordered::lookup(
                next.variable_references,
                id,
            ) is None
            &&& reference is Some && thread_of(reference->0) != thread_id ==> ordered::lookup(
                next.variable_references,
                id,
            ) == reference
            &&& pending is Some && waiting_thread(pending->0) == thread_id ==> ordered::lookup(
                next.pending_evaluations,
                result_id,
            ) is None
            &&& pending is Some && waiting_thread(pending->0) != thread_id ==> ordered::lookup(
                next.pending_evaluations,
                result_id,
            ) == pending
        }),
{
    reveal_strlit("targetStarted");
    reveal_strlit("targetQuit");
    reveal_strlit("callStackFormed");
    assert("targetStarted"@.len() == 13 && "targetQuit"@.len() == 10 && "callStackFormed"@.len()
        == 15);
    adapter_invariant::forgetting_a_thread_is_exact(s, thread_id, id, result_id);
    let next = adapter_events::event_handled(s, event, rest).0;
    let bare = adapter_frames::forgotten(s, thread_id);
    assert(next.variable_references == bare.variable_references);
    assert(next.pending_evaluations == bare.pending_evaluations);
}

/// `evaluate` needs an expression, a frame that is shown, and the thread of that frame.
pub proof fn evaluations_need_an_expression_and_a_frame(s: AdapterView, request: JsonView, id: Seq<char>, expression: Seq<char>)
    requires
        request_laws::commands(request, "evaluate"@),
    ensures
        ({
            let step = adapter_requests::handled(s, request, id);
            let arguments = json::field(request, "arguments"@);
            let frame = json::field(arguments, "frameId"@);
            &&& !(json::field(arguments, "expression"@) is Str) ==> answer_laws::refuses(
                step,
                request,
                "evaluate requires a non-empty expression"@,
            )
            &&& json::field(arguments, "expression"@) == JsonView::Str(expression) && text::trim(
                expression,
            ).len() == 0 ==> answer_laws::refuses(
                step,
                request,
                "evaluate requires a non-empty expression"@,
            )
            &&& json::field(arguments, "expression"@) == JsonView::Str(expression) && text::trim(
                expression,
            ).len() > 0 && (!(frame is Integer) || frame->Integer_0 <= 1_000_000 || ordered::lookup(
                s.call_stacks,
                (frame->Integer_0 / 1_000_000) as i64,
            ) is None) ==> answer_laws::refuses(
                step,
                request,
                "evaluate requires a stack frame returned by stackTrace"@,
            )
        }),
{
    request_laws::lemma_commands();
    answer_laws::lemma_answers(
        s,
        request,
        JsonView::Null,
        "evaluate requires a non-empty expression"@,
    );
    answer_laws::lemma_answers(
        s,
        request,
        JsonView::Null,
        "evaluate requires a stack frame returned by stackTrace"@,
    );
}

/// `variables` needs a reference that was given out and is still known.
pub proof fn variables_need_a_reference(s: AdapterView, request: JsonView, id: Seq<char>, number: i64)
    requires
        request_laws::commands(request, "variables"@),
        !(json::field(json::field(request, "arguments"@), "variablesReference"@) is Integer) || (
        request_laws::gives(request, "variablesReference"@, JsonView::Integer(number as int))
            && ordered::lookup(s.variable_references, number) is None),
    ensures
        answer_laws::refuses(
            adapter_requests::handled(s, request, id),
            request,
            "variablesReference does not identify a current scope or variable"@,
        ),
{
    request_laws::lemma_commands();
    answer_laws::lemma_answers(
        s,
        request,
        JsonView::Null,
        "variablesReference does not identify a current scope or variable"@,
    );
}

/// A reply that never came, or that cannot be read, refuses the request that waited for it, with
/// the command that failed.
pub proof fn failed_replies_refuse_their_request(
    s: AdapterView,
    request: JsonView,
    id: Seq<char>,
    thread_id: i64,
    stack_level: i64,
    expression: Seq<char>,
    reference: VariableReferenceView,
    result_id: Seq<char>,
    target_id: Seq<char>,
    reply: HttpReplyView,
)
    requires
        reply is Failed || reply is TimedOut || reply is Unreadable,
    ensures
        ({
            let step = adapter_requests::replied_to(
                s,
                ReasonView::Evaluate { request, thread_id, stack_level, expression, result_id },
                reply,
                id,
            );
            &&& step.0 == adapter::counted(s, 1)
            &&& step.1.outputs.len() == 2 && step.1.outputs[1] is Message
            &&& answer_laws::is_refusal(
                step.1.outputs[1]->Message_0,
                request,
                failure_of("evalExpr"@, reply),
            )
        }),
        ({
            let step = adapter_requests::replied_to(
                s,
                ReasonView::Variables { request, reference, result_id },
                reply,
                id,
            );
            &&& step.0 == adapter::counted(s, 1)
            &&& step.1.outputs.len() == 2 && step.1.outputs[1] is Message
            &&& answer_laws::is_refusal(
                step.1.outputs[1]->Message_0,
                request,
                failure_of(
                    if reference is Locals {
                        "evalLocalVariables"@
                    } else {
                        "evalExpr"@
                    },
                    reply,
                ),
            )
        }),
        answer_laws::refuses(
            adapter_requests::replied_to(s, ReasonView::ListTargets(request), reply, id),
            request,
            failure_of("getDbgTargets"@, reply),
        ),
        answer_laws::refuses(
            adapter_requests::replied_to(
                s,
                ReasonView::FindTarget { request, target_id },
                reply,
                id,
            ),
            request,
            failure_of("getDbgTargets"@, reply),
        ),
        answer_laws::refuses(
            adapter_requests::replied_to(
                s,
                ReasonView::PrepareTarget { request, target_id },
                reply,
                id,
            ),
            request,
            "cannot clear 1C break-on-next-statement: "@ + failure_of(
                "clearBreakOnNextStatement"@,
                reply,
            ),
        ),
        answer_laws::refuses(
            adapter_requests::replied_to(
                s,
                ReasonView::AttachTarget { request, target_id },
                reply,
                id,
            ),
            request,
            "cannot attach 1C target: "@ + failure_of("attachDetachDbgTargets"@, reply),
        ),
{
    answer_laws::lemma_answers(s, request, JsonView::Null, failure_of("evalExpr"@, reply));
    answer_laws::lemma_answers(
        s,
        request,
        JsonView::Null,
        failure_of("evalLocalVariables"@, reply),
    );
    answer_laws::lemma_answers(s, request, JsonView::Null, failure_of("getDbgTargets"@, reply));
    answer_laws::lemma_answers(
        s,
        request,
        JsonView::Null,
        "cannot clear 1C break-on-next-statement: "@ + failure_of(
            "clearBreakOnNextStatement"@,
            reply,
        ),
    );
    answer_laws::lemma_answers(
        s,
        request,
        JsonView::Null,
        "cannot attach 1C target: "@ + failure_of("attachDetachDbgTargets"@, reply),
    );
}

/// Why a command has no reply that can be used.
pub open spec fn failure_of(command: Seq<char>, reply: HttpReplyView) -> Seq<char> {
    if reply is Unreadable {
        "cannot read XML response from 1C debug server"@
    } else {
        "1C debug server request `"@ + command + "` failed"@
    }
}

/// `AttachDebugTargetRequest` names its target by `Id`, or else by `id`, with white space around it;
/// without a target it is refused.
pub proof fn targets_are_named_in_two_ways(s: AdapterView, request: JsonView, id: Seq<char>, given: Seq<char>)
    requires
        request_laws::commands(request, "AttachDebugTargetRequest"@),
        request_laws::is_attached(s),
    ensures
        ({
            let step = adapter_requests::handled(s, request, id);
            let arguments = json::field(request, "arguments"@);
            let refused = answer_laws::refuses(
                step,
                request,
                "AttachDebugTargetRequest requires arguments.Id"@,
            );
            &&& !(json::field(arguments, "Id"@) is Str) && json::field(arguments, "id"@)
                == JsonView::Str(given) && text::trim(given).len() > 0 ==> step.1.next is Send
                && step.1.next->Send_1 == (ReasonView::FindTarget {
                request,
                target_id: text::trim(given),
            })
            &&& !(json::field(arguments, "Id"@) is Str) && !(json::field(arguments, "id"@) is Str)
                ==> refused
            &&& json::field(arguments, "Id"@) == JsonView::Str(given) && text::trim(given).len() == 0
                ==> refused
        }),
{
    request_laws::lemma_commands();
    answer_laws::lemma_answers(
        s,
        request,
        JsonView::Null,
        "AttachDebugTargetRequest requires arguments.Id"@,
    );
}

/// `SetAutoAttachTargetTypesRequest` needs a list of texts.
pub proof fn kinds_to_attach_are_texts(s: AdapterView, request: JsonView, id: Seq<char>, values: Seq<JsonView>, k: int)
    requires
        request_laws::commands(request, "SetAutoAttachTargetTypesRequest"@),
    ensures
        !(json::field(json::field(request, "arguments"@), "types"@) is Array)
            ==> answer_laws::refuses(
            adapter_requests::handled(s, request, id),
            request,
            "SetAutoAttachTargetTypesRequest requires arguments.types"@,
        ),
        request_laws::gives(request, "types"@, JsonView::Array(values)) && 0 <= k < values.len()
            && !(values[k] is Str) ==> answer_laws::refuses(
            adapter_requests::handled(s, request, id),
            request,
            "each auto-attach type must be a string"@,
        ),
{
    request_laws::lemma_commands();
    target_laws::lemma_texts_of(values);
    answer_laws::lemma_answers(
        s,
        request,
        JsonView::Null,
        "SetAutoAttachTargetTypesRequest requires arguments.types"@,
    );
    answer_laws::lemma_answers(
        s,
        request,
        JsonView::Null,
        "each auto-attach type must be a string"@,
    );
}

/// A breakpoint that is not well described is refused in words.
pub proof fn breakpoints_are_refused_in_words(request: JsonView, value: JsonView, count: Seq<char>)
    ensures
        !(json::field(value, "line"@) is Integer) || json::field(value, "line"@)->Integer_0 <= 0
            ==> adapter_breakpoints::breakpoint_of(value) == Err::<
            SourceBreakpointView,
            Seq<char>,
        >("each source breakpoint requires a positive line number"@),
        json::field(value, "line"@) is Integer && 0 < json::field(value, "line"@)->Integer_0
            <= i64::MAX && json::field(value, "hitCondition"@) == JsonView::Str(count) && text::trim(
            count,
        ).len() > 0 && number::parsed(count, i64::MIN as int, i64::MAX as int) is None
            ==> adapter_breakpoints::breakpoint_of(value) == Err::<
            SourceBreakpointView,
            Seq<char>,
        >("hitCondition must be an integer"@),
        !(json::field(json::field(request, "arguments"@), "breakpoints"@) is Array)
            ==> adapter_breakpoints::requested_breakpoints(request) == Err::<
            Seq<SourceBreakpointView>,
            Seq<char>,
        >("setBreakpoints requires arguments.breakpoints"@),
{
}

/// An output is a record of an event of a thread.
pub open spec fn records_thread(output: OutputView, event: Seq<char>, thread_id: i64, target_id: Seq<char>) -> bool {
    output == OutputView::Trace(
        seq![
            ("event"@, JsonView::Str(event)),
            ("threadId"@, JsonView::Integer(thread_id as int)),
            ("targetId"@, JsonView::Str(target_id)),
        ],
    )
}

/// An output is a record of an event of a calculation.
pub open spec fn records_result(output: OutputView, event: Seq<char>, result_id: Seq<char>) -> bool {
    output == OutputView::Trace(
        seq![("event"@, JsonView::Str(event)), ("traceId"@, JsonView::Str(result_id))],
    )
}

/// A step is recorded where its request came, where the reply came, and where it was answered; a
/// poll that gives way to the one after the step is recorded too.
pub proof fn steps_are_recorded(s: AdapterView, request: JsonView, id: Seq<char>, thread_id: i64, k: int, action: StepAction, reply: HttpReplyView, poll: u64)
    requires
        request_laws::is_attached(s),
        request_laws::commands(request, "next"@),
        request_laws::gives(request, "threadId"@, JsonView::Integer(thread_id as int)),
        request_laws::is_thread(s, thread_id, k),
    ensures
        ({
            let target_id = s.threads[k].0;
            let asked = adapter_requests::handled(s, request, id).1.outputs;
            let replied = adapter_requests::replied_to(
                s,
                ReasonView::Step { request, thread_id, target_id, action },
                reply,
                id,
            ).1.outputs;
            &&& asked.len() == 1
            &&& records_thread(asked[0], "dap.step.received"@, thread_id, target_id)
            &&& records_thread(replied[0], "rdbg.step.response"@, thread_id, target_id)
            &&& records_thread(replied.last(), "dap.step.response"@, thread_id, target_id)
            &&& reply is Answered && s.active_poll == Some(poll) && action is Next ==> replied[2]
                == OutputView::Trace(
                seq![
                    ("event"@, JsonView::Str("rdbg.poll.cancel_requested"@)),
                    ("pollId"@, JsonView::Integer(poll as int)),
                ],
            )
        }),
{
    request_laws::lemma_commands();
    request_laws::lemma_target_of(s.threads, thread_id, k);
}

/// A calculation is recorded where it is asked for and where it is answered, under its identifier.
pub proof fn calculations_are_recorded(
    s: AdapterView,
    request: JsonView,
    id: Seq<char>,
    thread_id: i64,
    stack_level: i64,
    expression: Seq<char>,
    reference: VariableReferenceView,
    result_id: Seq<char>,
    reply: HttpReplyView,
)
    ensures
        adapter_evaluation::evaluate_asked(s, request, result_id).1.next is Send
            ==> adapter_evaluation::evaluate_asked(s, request, result_id).1.outputs.len() == 1
            && records_result(
            adapter_evaluation::evaluate_asked(s, request, result_id).1.outputs[0],
            "rdbg.evaluate.request"@,
            result_id,
        ),
        adapter_evaluation::variables_asked(s, request, result_id).1.next is Send
            ==> adapter_evaluation::variables_asked(s, request, result_id).1.outputs.len() == 1
            && records_result(
            adapter_evaluation::variables_asked(s, request, result_id).1.outputs[0],
            "rdbg.variables.request"@,
            result_id,
        ),
        records_result(
            adapter_requests::replied_to(
                s,
                ReasonView::Evaluate { request, thread_id, stack_level, expression, result_id },
                reply,
                id,
            ).1.outputs[0],
            "rdbg.evaluate.response"@,
            result_id,
        ),
        records_result(
            adapter_requests::replied_to(
                s,
                ReasonView::Variables { request, reference, result_id },
                reply,
                id,
            ).1.outputs[0],
            "rdbg.variables.response"@,
            result_id,
        ),
{
}

/// A stop and a deferred result are recorded.
pub proof fn events_are_recorded(s: AdapterView, event: DebugUiEventView, rest: Seq<DebugUiEventView>, target_id: Seq<char>, thread_id: i64)
    requires
        event.message is None,
    ensures
        event.command_id == "callStackFormed"@ && event.target_id == Some(target_id)
            && ordered::lookup(s.threads, target_id) == Some(thread_id)
            && !event.send_message_only && !event.send_hit_counter_only ==> records_thread(
            adapter_events::event_handled(s, event, rest).1.outputs[0],
            "rdbg.call_stack.formed"@,
            thread_id,
            target_id,
        ),
        event.command_id == "exprEvaluated"@ && event.evaluation is Some && ordered::lookup(
            s.pending_evaluations,
            event.evaluation->0.result_id,
        ) is Some ==> records_result(
            adapter_events::event_handled(s, event, rest).1.outputs[0],
            "rdbg.expr.evaluated"@,
            event.evaluation->0.result_id,
        ),
{
    reveal_strlit("targetStarted");
    reveal_strlit("targetQuit");
    reveal_strlit("callStackFormed");
    reveal_strlit("rteProcessing");
    reveal_strlit("rteOnBPConditionProcessing");
    reveal_strlit("exprEvaluated");
    assert("targetStarted"@.len() == 13 && "targetStarted"@[0] == 't');
    assert("targetQuit"@.len() == 10 && "callStackFormed"@.len() == 15);
    assert("rteProcessing"@.len() == 13 && "rteProcessing"@[0] == 'r');
    assert("rteOnBPConditionProcessing"@.len() == 26);
    assert("exprEvaluated"@.len() == 13 && "exprEvaluated"@[0] == 'e');
}

/// A message is a request where its type says so.
pub proof fn requests_are_told_by_their_type(message: JsonView, kind: Seq<char>)
    requires
        json::field(message, "type"@) == JsonView::Str(kind),
    ensures
        adapter_requests::requests(message) == (kind == "request"@),
        !adapter_requests::requests(JsonView::Null),
{
    assert(json::field(JsonView::Null, "type"@) is Null);
}

/// Numbers of the protocol are taken where they fit; texts, lists and objects only as what they are.
pub proof fn values_are_taken_as_what_they_are(n: int, s: Seq<char>, items: Seq<JsonView>, b: bool)
    ensures
        i64::MIN <= n <= i64::MAX ==> json::signed_of(JsonView::Integer(n)) == Some(n as i64),
        n < i64::MIN || n > i64::MAX ==> json::signed_of(JsonView::Integer(n)) is None,
        0 <= n <= u64::MAX ==> json::unsigned_of(JsonView::Integer(n)) == Some(n as u64),
        n < 0 || n > u64::MAX ==> json::unsigned_of(JsonView::Integer(n)) is None,
        json::text_of(JsonView::Str(s)) == Some(s),
        json::items_of(JsonView::Array(items)) == Some(items),
        json::text_of(JsonView::Integer(n)) is None,
        json::text_of(JsonView::Bool(b)) is None,
        json::signed_of(JsonView::Str(s)) is None,
        json::signed_of(JsonView::Float(s)) is None,
        json::unsigned_of(JsonView::Str(s)) is None,
        json::items_of(JsonView::Str(s)) is None,
        json::text_of(JsonView::Null) is None,
{
}

/// The first member of a name counts; what is no object, or has no member of the name, has nothing
/// under it.
pub proof fn members_are_found_by_their_name(name: Seq<char>, other: Seq<char>, value: JsonView, rest: Seq<(Seq<char>, JsonView)>)
    ensures
        json::field(JsonView::Object(seq![(name, value)] + rest), name) == value,
        other != name ==> json::field(JsonView::Object(seq![(other, value)] + rest), name)
            == json::field(JsonView::Object(rest), name),
        json::field(JsonView::Object(Seq::empty()), name) is Null,
        json::field(JsonView::Null, name) is Null,
        json::field(JsonView::Str(other), name) is Null,
        json::field(JsonView::Array(Seq::empty()), name) is Null,
{
    assert((seq![(name, value)] + rest).skip(1) =~= rest);
    assert((seq![(other, value)] + rest).skip(1) =~= rest);
}

/// Maps are in ascending order: numbers by their value, texts by the first character in which they
/// differ, where these are of ASCII, and triples by the first part in which they differ.
pub proof fn maps_are_in_ascending_order(n: i64, m: i64, front: Seq<char>, x: char, y: char, a: Seq<char>, b: Seq<char>)
    requires
        x < y <= '\u{7f}',
        forall|i: int| 0 <= i < front.len() ==> '\0' <= #[trigger] front[i] <= '\u{7f}',
        forall|i: int| 0 <= i < a.len() ==> '\0' <= #[trigger] a[i] <= '\u{7f}',
        forall|i: int| 0 <= i < b.len() ==> '\0' <= #[trigger] b[i] <= '\u{7f}',
    ensures
        <i64 as ordered::Key>::less(n, m) == (n < m),
        ordered::text_less(front + seq![x] + a, front + seq![y] + b),
        ordered::text_less(front, front + seq![x] + a),
        ordered::triple_less(
            (front + seq![x] + a, b, b),
            (front + seq![y] + b, a, a),
        ),
        ordered::triple_less(
            (front, front + seq![x] + a, b),
            (front, front + seq![y] + b, a),
        ),
        ordered::triple_less(
            (front, front, front + seq![x] + a),
            (front, front, front + seq![y] + b),
        ),
{
    let p = front + seq![x] + a;
    let q = front + seq![y] + b;
    let n = front.len() as int;
    lemma_ascii(front);
    lemma_ascii(p);
    lemma_ascii(q);
    assert(ordered::parts_below(encode_utf8(p), encode_utf8(q), n)) by {
        assert forall|i: int| 0 <= i < n implies encode_utf8(p)[i] == #[trigger] encode_utf8(
            q,
        )[i] by {
            assert(p[i] == front[i] && q[i] == front[i]);
        }
        assert(p[n] == x && q[n] == y);
    }
    assert(ordered::parts_below(encode_utf8(front), encode_utf8(p), n)) by {
        assert forall|i: int| 0 <= i < n implies encode_utf8(front)[i] == #[trigger] encode_utf8(
            p,
        )[i] by {
            assert(p[i] == front[i]);
        }
    }
}

proof fn lemma_ascii(s: Seq<char>)
    requires
        forall|i: int| 0 <= i < s.len() ==> '\0' <= #[trigger] s[i] <= '\u{7f}',
    ensures
        encode_utf8(s).len() == s.len(),
        forall|i: int| 0 <= i < s.len() ==> #[trigger] encode_utf8(s)[i] == s[i] as u8,
{
    is_ascii_chars_encode_utf8(s);
}

/// A request of the session sends nothing else than its head, its content and its end.
pub proof fn requests_are_written_in_full(session: DebugUiSessionView, content: Seq<char>)
    ensures
        debug_requests::request(session, content)
            == "<?xml version=\"1.0\" encoding=\"utf-8\"?><request xmlns=\"http://v8.1c.ru/8.3/debugger/debugRDBGRequestResponse\">"@
            + request_laws::session_text(session) + content + "</request>"@,
{
    reveal_strlit("<?xml version=\"1.0\" encoding=\"utf-8\"?>");
    reveal_strlit("<");
    reveal_strlit("request");
    reveal_strlit(" xmlns=\"");
    reveal_strlit("http://v8.1c.ru/8.3/debugger/debugRDBGRequestResponse");
    reveal_strlit("\">");
    reveal_strlit("<?xml version=\"1.0\" encoding=\"utf-8\"?><request xmlns=\"http://v8.1c.ru/8.3/debugger/debugRDBGRequestResponse\">");
    let head = "<?xml version=\"1.0\" encoding=\"utf-8\"?>"@ + debug_requests::opening(
        "request"@,
        debug_requests::RDBG_REQUEST_NAMESPACE@,
    );
    assert(head
        =~= "<?xml version=\"1.0\" encoding=\"utf-8\"?><request xmlns=\"http://v8.1c.ru/8.3/debugger/debugRDBGRequestResponse\">"@);
    assert(debug_requests::request_head(session) =~= head + request_laws::session_text(
        session,
    ));
}

/// Rare failures are told in words: no server when a client is to be started, an empty path, no
/// references left, a target that could not go on after its message.
pub proof fn rare_failures_are_told_in_words(
    s: AdapterView,
    request: JsonView,
    id: Seq<char>,
    reference: VariableReferenceView,
    variables: Seq<DebugVariableView>,
    rest: Seq<DebugUiEventView>,
    reply: HttpReplyView,
    server: Seq<char>,
    session: DebugUiSessionView,
    target_id: Seq<char>,
)
    ensures
        request_laws::commands(request, "configurationDone"@) && s.pending_debuggee is Some
            && s.debug_server is None ==> answer_laws::refuses(
            adapter_requests::handled(s, request, id),
            request,
            "no 1C debug server is attached"@,
        ) && adapter_requests::handled(s, request, id).0.pending_debuggee is None,
        reference is Value && reference->path.len() == 0 ==> adapter_evaluation::variables_post(
            server,
            session,
            target_id,
            reference,
            id,
        ) == Err::<debug_server::HttpRequestView, Seq<char>>(
            "calculation path must not be empty"@,
        ),
        !adapter_frames::has_references(s, variables.len() as int) ==> answer_laws::refuses(
            adapter_frames::variables_answer(s, request, reference, variables),
            request,
            "no variablesReference is left"@,
        ),
        reply is Answered ==> {
            let step = adapter_requests::replied_to(
                s,
                ReasonView::ContinueAfterMessage { rest },
                reply,
                id,
            );
            step.0 == s && step.1.outputs.len() == 0 && step.1.next == NextView::Events(rest)
        },
        reply is Failed || reply is TimedOut || reply is Unreadable ==> {
            let step = adapter_requests::replied_to(
                s,
                ReasonView::ContinueAfterMessage { rest },
                reply,
                id,
            );
            &&& step.0 == adapter::counted(s, 1)
            &&& step.1.outputs.len() == 1
            &&& event_laws::is_shown(
                step.1.outputs[0],
                "stderr"@,
                "cannot continue 1C target after message: "@ + failure_of("step"@, reply)
                    + "\n"@,
            )
            &&& step.1.next == NextView::Events(rest)
        },
{
    request_laws::lemma_commands();
    answer_laws::lemma_answers(
        AdapterView { pending_debuggee: None, ..s },
        request,
        JsonView::Null,
        "no 1C debug server is attached"@,
    );
    answer_laws::lemma_answers(s, request, JsonView::Null, "no variablesReference is left"@);
    event_laws::lemma_shown(
        s,
        "stderr"@,
        "cannot continue 1C target after message: "@ + failure_of("step"@, reply) + "\n"@,
    );
}

/// The end of a poll is recorded as what it is.
pub proof fn ends_of_polls_are_recorded(s: AdapterView, poll: u64, session: DebugUiSessionView, message: Seq<char>)
    requires
        s.debug_session == Some(session),
    ensures
        adapter_polls::poll_ended(s, poll, session.id, Ok(PingOutcomeView::TimedOut)).1.outputs
            == seq![
            OutputView::Trace(
                seq![
                    ("event"@, JsonView::Str("rdbg.poll.timed_out"@)),
                    ("pollId"@, JsonView::Integer(poll as int)),
                ],
            ),
        ],
        adapter_polls::poll_ended(s, poll, session.id, Err(message)).1.outputs[0]
            == OutputView::Trace(
            seq![
                ("event"@, JsonView::Str("rdbg.poll.failed"@)),
                ("pollId"@, JsonView::Integer(poll as int)),
            ],
        ),
{
}

/// The test of a debug server is a request without a body.
pub proof fn tests_have_no_body(server: Seq<char>, session: DebugUiSessionView, timeout_ms: Option<u64>, command: Seq<char>, body: Seq<char>)
    ensures
        debug_server::test_post(server) == (debug_server::HttpRequestView {
            url: server + "/rdbgTest?cmd=test"@,
            content_type: Some("application/xml"@),
            body: None,
            timeout_ms: None,
        }),
        debug_server::ping_post(server, session, timeout_ms) == (debug_server::HttpRequestView {
            url: server + "/rdbg?cmd=pingDebugUIParams&dbgui="@ + session.id,
            content_type: None,
            body: None,
            timeout_ms,
        }),
        debug_server::post(server, command, body) == (debug_server::HttpRequestView {
            url: server + "/rdbg?cmd="@ + command,
            content_type: Some("application/xml; charset=utf-8"@),
            body: Some(body),
            timeout_ms: None,
        }),
{
}

/// The settings and the breakpoints are sent in one element each.
pub proof fn lists_are_sent_in_one_element(kinds: Seq<Seq<char>>, kind: Seq<char>, modules: Seq<ModuleBreakpointsView>, module: ModuleBreakpointsView)
    ensures
        debug_requests::auto_attach_content(kinds) == "<autoAttachSettings>"@
            + debug_requests::target_type_elements(kinds) + "</autoAttachSettings>"@,
        debug_requests::target_type_elements(Seq::empty()) == Seq::<char>::empty(),
        debug_requests::target_type_elements(kinds.push(kind))
            == debug_requests::target_type_elements(kinds) + debug_requests::target_type_element(
            kind,
        ),
        debug_requests::breakpoints_content(modules) == "<bpWorkspace>"@
            + debug_requests::module_elements(modules) + "</bpWorkspace>"@,
        debug_requests::module_elements(Seq::empty()) == Seq::<char>::empty(),
        debug_requests::module_elements(modules.push(module)) == debug_requests::module_elements(
            modules,
        ) + debug_requests::module_element(module),
{
    let f = |kind: Seq<char>| debug_requests::target_type_element(kind);
    assert(Seq::<Seq<char>>::empty().map_values(f) =~= Seq::empty());
    assert(kinds.push(kind).map_values(f) =~= kinds.map_values(f).push(
        debug_requests::target_type_element(kind),
    ));
    assert(kinds.map_values(f).push(debug_requests::target_type_element(kind)).drop_last()
        =~= kinds.map_values(f));
    let g = |module: ModuleBreakpointsView| debug_requests::module_element(module);
    assert(Seq::<ModuleBreakpointsView>::empty().map_values(g) =~= Seq::empty());
    assert(modules.push(module).map_values(g) =~= modules.map_values(g).push(
        debug_requests::module_element(module),
    ));
    assert(modules.map_values(g).push(debug_requests::module_element(module)).drop_last()
        =~= modules.map_values(g));
}

/// The programs of a session are stopped where the session ends, and where a connection fails that
/// started one; no other request, reply, event or poll stops them.
pub proof fn programs_are_stopped_at_an_end_only(s: AdapterView, request: JsonView, id: Seq<char>, reason: ReasonView, reply: HttpReplyView, event: DebugUiEventView, rest: Seq<DebugUiEventView>, report: ProgramReportView, poll: u64, outcome: Result<PingOutcomeView, Seq<char>>)
    ensures
        adapter_requests::handled(s, request, id).1.stop_programs ==> request_laws::commands(
            request,
            "disconnect"@,
        ) || request_laws::commands(request, "terminate"@),
        adapter_requests::replied_to(s, reason, reply, id).1.stop_programs ==> reason is Test
            || reason is Register || reason is GiveUp || reason is Detach,
        !adapter_events::event_handled(s, event, rest).1.stop_programs,
        adapter_polls::polled(s, report).1.stop_programs ==> report.server_exit is Some
            || report.client_exited,
        !adapter_polls::poll_ended(s, poll, id, outcome).1.stop_programs,
{
    request_laws::lemma_commands();
}

/// A frame is known by its identifier only where its thread has a frame at that level.
pub proof fn frames_are_known_by_their_level(s: AdapterView, request: JsonView, id: Seq<char>, frame_id: i64, stack: Seq<DebugStackFrameView>)
    requires
        frame_id > 1_000_000,
        ordered::lookup(s.call_stacks, (frame_id / 1_000_000) as i64) == Some(stack),
        frame_id % 1_000_000 == 0 || frame_id % 1_000_000 > stack.len(),
        request_laws::gives(request, "frameId"@, JsonView::Integer(frame_id as int)),
        json::field(json::field(request, "arguments"@), "expression"@) is Str,
        text::trim(
            json::field(json::field(request, "arguments"@), "expression"@)->Str_0,
        ).len() > 0,
    ensures
        request_laws::commands(request, "scopes"@) ==> answer_laws::refuses(
            adapter_requests::handled(s, request, id),
            request,
            "unknown stack frame"@,
        ),
        request_laws::commands(request, "evaluate"@) ==> answer_laws::refuses(
            adapter_requests::handled(s, request, id),
            request,
            "evaluate requires a stack frame returned by stackTrace"@,
        ),
{
    request_laws::lemma_commands();
    answer_laws::lemma_answers(s, request, JsonView::Null, "unknown stack frame"@);
    answer_laws::lemma_answers(
        s,
        request,
        JsonView::Null,
        "evaluate requires a stack frame returned by stackTrace"@,
    );
}

/// There are references left for variables as long as their numbers fit.
pub proof fn references_are_left_as_long_as_they_fit(s: AdapterView, count: int)
    ensures
        adapter_frames::has_references(s, count) == (adapter_frames::next_reference(s) + count
            <= i64::MAX),
        s.next_variable_reference < 10_000_000 && count < 1_000_000_000_000
            ==> adapter_frames::has_references(s, count),
{
}

/// A calculation in a thread that is not attached is refused.
pub proof fn calculations_need_an_attached_thread(s: AdapterView, request: JsonView, id: Seq<char>, number: i64, thread_id: i64, stack_level: i64)
    requires
        request_laws::commands(request, "variables"@),
        request_laws::gives(request, "variablesReference"@, JsonView::Integer(number as int)),
        ordered::lookup(s.variable_references, number) == Some(
            VariableReferenceView::Locals { thread_id, stack_level },
        ),
        forall|i: int| 0 <= i < s.threads.len() ==> (#[trigger] s.threads[i]).1 != thread_id,
    ensures
        answer_laws::refuses(
            adapter_requests::handled(s, request, id),
            request,
            "unknown 1C debug thread "@ + number::decimal(thread_id as int),
        ),
{
    request_laws::lemma_commands();
    target_laws::lemma_no_target(s.threads, thread_id);
    answer_laws::lemma_answers(
        s,
        request,
        JsonView::Null,
        "unknown 1C debug thread "@ + number::decimal(thread_id as int),
    );
}

/// Without a session, the breakpoints of a module are kept, and the request is refused.
pub proof fn breakpoints_are_kept_without_a_session(s: AdapterView, request: JsonView, path: Seq<char>, canonical: Seq<char>, module: ModuleInfoView, breakpoints: Seq<SourceBreakpointView>)
    requires
        !request_laws::is_attached(s),
        s.module_registry is Some,
        ordered::lookup(s.module_registry->0.by_path, canonical) == Some(module),
        adapter_breakpoints::requested_breakpoints(request) == Ok::<
            Seq<SourceBreakpointView>,
            Seq<char>,
        >(breakpoints),
        adapter_invariant::consistent(s),
    ensures
        ({
            let step = adapter_breakpoints::breakpoints_resolved(s, request, path, Some(canonical));
            &&& answer_laws::refuses(step, request, "no 1C debug session is attached"@)
            &&& ordered::lookup(
                step.0.module_breakpoints,
                (module.extension_name, module.object_id, module.property_id),
            ) == Some(breakpoints)
        }),
{
    reveal(adapter_invariant::consistent);
    ordered::lemma_inserted::<(String, String, String), Seq<SourceBreakpointView>>(
        s.module_breakpoints,
        (module.extension_name, module.object_id, module.property_id),
        breakpoints,
    );
    answer_laws::lemma_answers(
        adapter_breakpoints::with_breakpoints(s, module, breakpoints),
        request,
        JsonView::Null,
        "no 1C debug session is attached"@,
    );
}

/// An event of a target that does not name its target is only shown.
pub proof fn events_without_a_target_are_shown(s: AdapterView, event: DebugUiEventView, rest: Seq<DebugUiEventView>)
    requires
        event.target_id is None,
        event.command_id != "exprEvaluated"@,
    ensures
        ({
            let (next, turn) = adapter_events::event_handled(s, event, rest);
            &&& next == adapter::counted(s, 1)
            &&& turn.outputs.len() == 1
            &&& event_laws::is_shown(
                turn.outputs[0],
                "console"@,
                "1C debug event: "@ + event.command_id + "\n"@,
            )
            &&& turn.next == NextView::Events(rest)
        }),
{
    event_laws::lemma_shown(s, "console"@, "1C debug event: "@ + event.command_id + "\n"@);
}

/// Without a session there is nothing to poll, to attach or to let go on.
pub proof fn nothing_is_sent_without_a_session(s: AdapterView, timeout: Option<u64>, event: DebugUiEventView, rest: Seq<DebugUiEventView>, ending: EndingView)
    requires
        !request_laws::is_attached(s),
    ensures
        adapter_polls::poll_begun(s, timeout).0 == s,
        adapter_polls::poll_begun(s, timeout).1.next is Done,
        adapter_polls::poll_begun(s, timeout).1.outputs.len() == 0,
        adapter_events::event_handled(s, event, rest).1.next == NextView::Events(rest),
        adapter_session::ending_begun(s, ending) == adapter_session::ended(s, ending, Ok(())),
{
}

} // verus!
