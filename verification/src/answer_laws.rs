//! What the answers to the requests of the client tell.

use crate::adapter;
use crate::adapter::{
    AdapterView, PendingEvaluationView, ReasonView, TurnView, VariableReferenceView,
};
use crate::adapter_frames;
use crate::adapter_invariant;
use crate::adapter_requests;
use crate::dap;
use crate::debug_server;
use crate::debug_server::HttpReplyView;
use crate::debug_types::{
    CalculationPathItemView, DebugEvaluationView, DebugStackFrameView, DebugVariableView,
    EvaluationInterface,
};
use crate::json;
use crate::json::JsonView;
use crate::metadata::ModuleRegistryView;
use crate::ordered;
use crate::reading;
use crate::request_laws;
use vstd::prelude::*;

verus! {

/// A message is the successful answer to a request, with a body.
pub open spec fn is_success(message: JsonView, request: JsonView, body: JsonView) -> bool {
    &&& json::field(message, "type"@) == JsonView::Str("response"@)
    &&& json::field(message, "request_seq"@) == json::field(request, "seq"@)
    &&& json::field(message, "command"@) == json::field(request, "command"@)
    &&& json::field(message, "success"@) == JsonView::Bool(true)
    &&& json::field(message, "body"@) == body
}

/// A message is the refusal of a request, with a reason.
pub open spec fn is_refusal(message: JsonView, request: JsonView, reason: Seq<char>) -> bool {
    &&& json::field(message, "type"@) == JsonView::Str("response"@)
    &&& json::field(message, "request_seq"@) == json::field(request, "seq"@)
    &&& json::field(message, "command"@) == json::field(request, "command"@)
    &&& json::field(message, "success"@) == JsonView::Bool(false)
    &&& json::field(message, "message"@) == JsonView::Str(reason)
}

/// A message is an event with a name and a body.
pub open spec fn is_event(message: JsonView, name: Seq<char>, body: JsonView) -> bool {
    &&& json::field(message, "type"@) == JsonView::Str("event"@)
    &&& json::field(message, "event"@) == JsonView::Str(name)
    &&& json::field(message, "body"@) == body
}

/// Responses, refusals and events are what they are made of.
pub proof fn messages_are_made_of_their_parts(request: JsonView, sequence: int, body: JsonView, text: Seq<char>)
    ensures
        is_success(dap::response_to(request, sequence, body), request, body),
        json::field(dap::response_to(request, sequence, body), "seq"@) == JsonView::Integer(sequence),
        is_refusal(dap::refusal_of(request, sequence, text), request, text),
        json::field(dap::refusal_of(request, sequence, text), "seq"@) == JsonView::Integer(sequence),
        is_event(dap::event_named(sequence, text, body), text, body),
        json::field(dap::event_named(sequence, text, body), "seq"@) == JsonView::Integer(sequence),
{
    reading::lemma_names();
    let success = dap::response_to(request, sequence, body)->Object_0;
    reading::lemma_field(success, 0);
    reading::lemma_field(success, 1);
    reading::lemma_field(success, 2);
    reading::lemma_field(success, 3);
    reading::lemma_field(success, 4);
    reading::lemma_field(success, 5);
    let refusal = dap::refusal_of(request, sequence, text)->Object_0;
    reading::lemma_field(refusal, 0);
    reading::lemma_field(refusal, 1);
    reading::lemma_field(refusal, 2);
    reading::lemma_field(refusal, 3);
    reading::lemma_field(refusal, 4);
    reading::lemma_field(refusal, 5);
    let event = dap::event_named(sequence, text, body)->Object_0;
    reading::lemma_field(event, 0);
    reading::lemma_field(event, 1);
    reading::lemma_field(event, 2);
    reading::lemma_field(event, 3);
}

/// A step answers a request with a body, and leaves nothing to do.
pub open spec fn answers(step: (AdapterView, TurnView), request: JsonView, body: JsonView) -> bool {
    &&& step.1.outputs.len() == 1
    &&& step.1.outputs[0] is Message
    &&& is_success(step.1.outputs[0]->Message_0, request, body)
    &&& step.1.next is Done
    &&& !step.1.stop_programs
}

/// A step refuses a request, and leaves nothing to do.
pub open spec fn refuses(step: (AdapterView, TurnView), request: JsonView, reason: Seq<char>) -> bool {
    &&& step.1.outputs.len() == 1
    &&& step.1.outputs[0] is Message
    &&& is_refusal(step.1.outputs[0]->Message_0, request, reason)
    &&& step.1.next is Done
}

pub proof fn lemma_answers(s: AdapterView, request: JsonView, body: JsonView, reason: Seq<char>)
    ensures
        answers(adapter::answered(s, request, body), request, body),
        refuses(adapter::refused(s, request, reason), request, reason),
{
    messages_are_made_of_their_parts(request, s.next_sequence + 1, body, reason);
}

/// A frame as it is shown: its identifier, its name, and its line, which counts from one.
pub open spec fn shows_frame(shown: JsonView, id: int, frame: DebugStackFrameView) -> bool {
    &&& json::field(shown, "id"@) == JsonView::Integer(id)
    &&& json::field(shown, "name"@) == JsonView::Str(
        if frame.presentation.len() > 0 {
            frame.presentation
        } else {
            "1C module "@ + frame.object_id
        },
    )
    &&& json::field(shown, "line"@) == JsonView::Integer(
        if frame.line >= 1 {
            frame.line as int
        } else {
            1
        },
    )
    &&& json::field(shown, "column"@) == JsonView::Integer(1)
}

/// A frame is shown with the path of its module, where the module is known.
pub open spec fn shows_source(shown: JsonView, registry: Option<ModuleRegistryView>, frame: DebugStackFrameView) -> bool {
    let known = match registry {
        Some(registry) => ordered::lookup(
            registry.by_identity,
            (frame.extension_name, frame.object_id, frame.property_id),
        ),
        None => None,
    };
    match known {
        Some(path) => json::field(json::field(shown, "source"@), "path"@) == JsonView::Str(path),
        None => json::field(shown, "source"@) is Null,
    }
}

proof fn lemma_absent(members: Seq<(Seq<char>, JsonView)>, name: Seq<char>)
    requires
        forall|i: int| 0 <= i < members.len() ==> (#[trigger] members[i]).0 != name,
    ensures
        json::member(members, name) is Null,
    decreases members.len(),
{
    if members.len() > 0 {
        let rest = members.skip(1);
        assert(members[0].0 != name);
        assert forall|i: int| 0 <= i < rest.len() implies (#[trigger] rest[i]).0 != name by {
            assert(rest[i] == members[i + 1]);
        }
        lemma_absent(rest, name);
    }
}

proof fn lemma_frame_shown(registry: Option<ModuleRegistryView>, thread_id: i64, index: int, frame: DebugStackFrameView)
    ensures
        shows_frame(
            adapter_frames::frame_body(registry, thread_id, index, frame),
            adapter_frames::frame_id(thread_id, index),
            frame,
        ),
        shows_source(
            adapter_frames::frame_body(registry, thread_id, index, frame),
            registry,
            frame,
        ),
{
    reading::lemma_names();
    let members = adapter_frames::frame_body(registry, thread_id, index, frame)->Object_0;
    reading::lemma_field(members, 0);
    reading::lemma_field(members, 1);
    reading::lemma_field(members, 2);
    reading::lemma_field(members, 3);
    match adapter_frames::frame_path(registry, frame) {
        Some(path) => {
            reading::lemma_field(members, 4);
            reading::lemma_field(adapter_frames::source_body(path)->Object_0, 0);
        },
        None => {
            assert(members.len() == 4);
            lemma_absent(members, "source"@);
        },
    }
}

/// The frames that an answer to `stackTrace` lists.
pub open spec fn listed_frames(step: (AdapterView, TurnView)) -> Seq<JsonView> {
    json::field(json::field(step.1.outputs[0]->Message_0, "body"@), "stackFrames"@)->Array_0
}

/// `stackTrace` shows the stack of the thread page by page: frame number `j` of a page that begins
/// at `start` is the element `start + j` of the stack, with the name and the line of that element
/// and an identifier that leads back to its level. A page ends where the stack or the wanted number
/// of levels ends, and the total is that of the whole stack.
pub proof fn stack_pages_show_the_stack(s: AdapterView, request: JsonView, id: Seq<char>, thread_id: i64, start: int, levels: int)
    requires
        request_laws::commands(request, "stackTrace"@),
        request_laws::gives(request, "threadId"@, JsonView::Integer(thread_id as int)),
        match json::field(json::field(request, "arguments"@), "startFrame"@) {
            JsonView::Integer(n) => start == if 0 <= n <= u64::MAX {
                n
            } else {
                0
            },
            _ => start == 0,
        },
        match json::field(json::field(request, "arguments"@), "levels"@) {
            JsonView::Integer(n) => levels == if 0 <= n <= u64::MAX {
                n
            } else {
                u64::MAX as int
            },
            _ => levels == u64::MAX,
        },
        ordered::lookup(s.call_stacks, thread_id) is Some,
    ensures
        ({
            let step = adapter_requests::handled(s, request, id);
            let stack = ordered::lookup(s.call_stacks, thread_id)->0;
            let shown = listed_frames(step);
            let body = json::field(step.1.outputs[0]->Message_0, "body"@);
            &&& answers(step, request, body)
            &&& json::field(body, "stackFrames"@) is Array
            &&& json::field(body, "totalFrames"@) == JsonView::Integer(stack.len() as int)
            &&& start >= stack.len() ==> shown.len() == 0
            &&& start < stack.len() && levels < stack.len() - start ==> shown.len() == levels
            &&& start < stack.len() && levels >= stack.len() - start ==> shown.len() == stack.len()
                - start
            &&& forall|j: int|
                0 <= j < shown.len() ==> {
                    &&& shows_frame(
                        #[trigger] shown[j],
                        adapter_frames::frame_id(thread_id, start + j),
                        stack[start + j],
                    )
                    &&& shows_source(shown[j], s.module_registry, stack[start + j])
                    &&& 1 <= thread_id <= 9_000_000_000_000 && start + j < 999_999 ==> {
                        let id = thread_id * 1_000_000 + start + j + 1;
                        &&& shows_frame(shown[j], id, stack[start + j])
                        &&& adapter_frames::frame_at(s.call_stacks, Some(id as i64)) == Some(
                            (thread_id, (start + j) as i64),
                        )
                    }
                }
        }),
{
    request_laws::lemma_commands();
    let step = adapter_requests::handled(s, request, id);
    let stack = ordered::lookup(s.call_stacks, thread_id)->0;
    let frames = adapter_frames::frame_bodies(s.module_registry, thread_id, stack, start, levels);
    let body = adapter_frames::frames_body(frames, stack.len() as int);
    lemma_answers(s, request, body, Seq::empty());
    reading::lemma_names();
    reading::lemma_field(body->Object_0, 0);
    reading::lemma_field(body->Object_0, 1);
    assert(listed_frames(step) == frames);
    assert forall|j: int| 0 <= j < frames.len() implies {
        &&& shows_frame(
            #[trigger] frames[j],
            adapter_frames::frame_id(thread_id, start + j),
            stack[start + j],
        )
        &&& shows_source(frames[j], s.module_registry, stack[start + j])
        &&& 1 <= thread_id <= 9_000_000_000_000 && start + j < 999_999 ==> {
            let id = thread_id * 1_000_000 + start + j + 1;
            &&& shows_frame(frames[j], id, stack[start + j])
            &&& adapter_frames::frame_at(s.call_stacks, Some(id as i64)) == Some(
                (thread_id, (start + j) as i64),
            )
        }
    } by {
        lemma_frame_shown(s.module_registry, thread_id, start + j, stack[start + j]);
        if 1 <= thread_id <= 9_000_000_000_000 && start + j < 999_999 {
            adapter_frames::frame_identifiers_lead_back(s.call_stacks, thread_id, start + j);
            assert(adapter_frames::frame_id(thread_id, start + j) == thread_id * 1_000_000 + start
                + j + 1);
        }
    }
}

/// A thread that is not stopped has no frames to show.
pub proof fn running_threads_have_no_frames(s: AdapterView, request: JsonView, id: Seq<char>, thread_id: i64)
    requires
        request_laws::commands(request, "stackTrace"@),
    ensures
        request_laws::gives(request, "threadId"@, JsonView::Integer(thread_id as int))
            && ordered::lookup(s.call_stacks, thread_id) is None ==> {
            let step = adapter_requests::handled(s, request, id);
            let body = json::field(step.1.outputs[0]->Message_0, "body"@);
            &&& answers(step, request, body)
            &&& json::field(body, "stackFrames"@) == JsonView::Array(Seq::empty())
            &&& json::field(body, "totalFrames"@) == JsonView::Integer(0)
        },
        !(json::field(json::field(request, "arguments"@), "threadId"@) is Integer) ==> refuses(
            adapter_requests::handled(s, request, id),
            request,
            "stackTrace requires threadId"@,
        ),
{
    request_laws::lemma_commands();
    let body = adapter_frames::frames_body(Seq::empty(), 0);
    lemma_answers(s, request, body, "stackTrace requires threadId"@);
    reading::lemma_names();
    reading::lemma_field(body->Object_0, 0);
    reading::lemma_field(body->Object_0, 1);
}

/// `scopes` shows one scope, the local variables of the frame that the request names: its reference
/// leads to them, and the references before it lead where they led.
pub proof fn scopes_lead_to_the_local_variables(s: AdapterView, request: JsonView, id: Seq<char>, thread_id: i64, level: int)
    requires
        request_laws::commands(request, "scopes"@),
        1 <= thread_id,
        thread_id * 1_000_000 + level + 1 <= i64::MAX,
        0 <= level < 999_999,
        request_laws::gives(
            request,
            "frameId"@,
            JsonView::Integer(thread_id * 1_000_000 + level + 1),
        ),
        ordered::lookup(s.call_stacks, thread_id) is Some,
        level < ordered::lookup(s.call_stacks, thread_id)->0.len(),
        adapter_invariant::consistent(s),
        s.next_variable_reference < i64::MAX,
    ensures
        ({
            let step = adapter_requests::handled(s, request, id);
            let body = json::field(step.1.outputs[0]->Message_0, "body"@);
            let scopes = json::field(body, "scopes"@);
            &&& answers(step, request, body)
            &&& scopes is Array
            &&& scopes->Array_0.len() == 1
            &&& json::field(scopes->Array_0[0], "name"@) == JsonView::Str("Локальные"@)
            &&& json::field(scopes->Array_0[0], "expensive"@) == JsonView::Bool(false)
            &&& json::field(scopes->Array_0[0], "variablesReference"@) matches JsonView::Integer(n)
                && 0 < n <= i64::MAX && ordered::lookup(s.variable_references, n as i64) is None
                && ordered::lookup(step.0.variable_references, n as i64) == Some(
                VariableReferenceView::Locals { thread_id, stack_level: level as i64 },
            ) && forall|other: i64|
                other != n ==> #[trigger] ordered::lookup(step.0.variable_references, other)
                    == ordered::lookup(s.variable_references, other)
        }),
{
    request_laws::lemma_commands();
    adapter_frames::frame_identifiers_lead_back(s.call_stacks, thread_id, level);
    assert(adapter_frames::frame_id(thread_id, level) == thread_id * 1_000_000 + level + 1);
    let reference = VariableReferenceView::Locals { thread_id, stack_level: level as i64 };
    adapter_invariant::references_are_fresh(s, reference);
    let body = adapter_frames::scopes_body(adapter_frames::next_reference(s));
    lemma_answers(adapter_frames::stored(s, reference), request, body, Seq::empty());
    reading::lemma_names();
    reading::lemma_field(body->Object_0, 0);
    let scope = json::field(body, "scopes"@)->Array_0[0];
    reading::lemma_field(scope->Object_0, 0);
    reading::lemma_field(scope->Object_0, 1);
    reading::lemma_field(scope->Object_0, 2);
}

/// `scopes` needs the identifier of a frame that is shown.
pub proof fn scopes_need_a_frame(s: AdapterView, request: JsonView, id: Seq<char>, frame_id: i64)
    requires
        request_laws::commands(request, "scopes"@),
    ensures
        request_laws::gives(request, "frameId"@, JsonView::Integer(frame_id as int)) && (frame_id
            <= 1_000_000 || ordered::lookup(s.call_stacks, (frame_id / 1_000_000) as i64) is None)
            ==> refuses(
            adapter_requests::handled(s, request, id),
            request,
            "unknown stack frame"@,
        ),
        !(json::field(json::field(request, "arguments"@), "frameId"@) is Integer) ==> refuses(
            adapter_requests::handled(s, request, id),
            request,
            "scopes requires frameId"@,
        ),
{
    request_laws::lemma_commands();
    lemma_answers(s, request, adapter::no_body(), "unknown stack frame"@);
    lemma_answers(s, request, adapter::no_body(), "scopes requires frameId"@);
}

/// A value with children has a reference that leads to them, by its path in its frame: to its
/// properties, or to its items where it only has those. A value without children has none.
pub open spec fn leads(
    next: AdapterView,
    shown: JsonView,
    thread_id: i64,
    stack_level: i64,
    path: Seq<CalculationPathItemView>,
    is_expandable: bool,
    is_indexed_collection: bool,
) -> bool {
    match json::field(shown, "variablesReference"@) {
        JsonView::Integer(n) => if is_expandable || is_indexed_collection {
            &&& 0 < n <= i64::MAX
            &&& ordered::lookup(next.variable_references, n as i64) == Some(
                VariableReferenceView::Value {
                    thread_id,
                    stack_level,
                    path,
                    interface: if is_expandable {
                        EvaluationInterface::Context
                    } else {
                        EvaluationInterface::Collection
                    },
                },
            )
        } else {
            n == 0
        },
        _ => false,
    }
}

/// An evaluation as an answer shows it.
pub open spec fn shows_evaluation(body: JsonView, evaluation: DebugEvaluationView) -> bool {
    &&& json::field(body, "result"@) == JsonView::Str(
        if evaluation.error is Some {
            evaluation.error->0
        } else {
            evaluation.value
        },
    )
    &&& json::field(body, "type"@) == JsonView::Str(evaluation.value_type)
}

proof fn lemma_evaluated(s: AdapterView, request: JsonView, thread_id: i64, stack_level: i64, path: Seq<CalculationPathItemView>, evaluation: DebugEvaluationView)
    requires
        adapter_invariant::consistent(s),
        s.next_variable_reference < i64::MAX,
    ensures
        ({
            let step = adapter_frames::evaluated(
                s,
                request,
                thread_id,
                stack_level,
                path,
                evaluation,
            );
            let body = json::field(step.1.outputs[0]->Message_0, "body"@);
            &&& answers(step, request, body)
            &&& shows_evaluation(body, evaluation)
            &&& leads(
                step.0,
                body,
                thread_id,
                stack_level,
                path,
                evaluation.is_expandable,
                evaluation.is_indexed_collection,
            )
        }),
{
    let (next, reference) = adapter_frames::referenced(
        s,
        thread_id,
        stack_level,
        path,
        evaluation.is_expandable,
        evaluation.is_indexed_collection,
    );
    let body = adapter_frames::evaluation_body(evaluation, reference);
    lemma_answers(next, request, body, Seq::empty());
    reading::lemma_names();
    reading::lemma_field(body->Object_0, 0);
    reading::lemma_field(body->Object_0, 1);
    reading::lemma_field(body->Object_0, 2);
    match adapter_frames::children_interface(
        evaluation.is_expandable,
        evaluation.is_indexed_collection,
    ) {
        Some(interface) => {
            adapter_invariant::references_are_fresh(
                s,
                VariableReferenceView::Value { thread_id, stack_level, path, interface },
            );
        },
        None => {},
    }
}

/// The value of an expression, or the error, is the answer to `evaluate`, with its type; a value
/// with children leads to them by the expression, in the frame of the request.
pub proof fn evaluations_are_answered(
    s: AdapterView,
    request: JsonView,
    id: Seq<char>,
    thread_id: i64,
    stack_level: i64,
    expression: Seq<char>,
    result_id: Seq<char>,
    reply: HttpReplyView,
    evaluation: DebugEvaluationView,
)
    requires
        debug_server::evaluation_answer(reply) == Ok::<Option<DebugEvaluationView>, Seq<char>>(
            Some(evaluation),
        ),
        adapter_invariant::consistent(s),
        s.next_variable_reference < i64::MAX,
    ensures
        ({
            let step = adapter_requests::replied_to(
                s,
                ReasonView::Evaluate { request, thread_id, stack_level, expression, result_id },
                reply,
                id,
            );
            let body = json::field(step.1.outputs[1]->Message_0, "body"@);
            &&& step.1.outputs.len() == 2
            &&& step.1.outputs[0] is Trace
            &&& step.1.outputs[1] is Message
            &&& is_success(step.1.outputs[1]->Message_0, request, body)
            &&& shows_evaluation(body, evaluation)
            &&& leads(
                step.0,
                body,
                thread_id,
                stack_level,
                seq![CalculationPathItemView::Expression(expression)],
                evaluation.is_expandable,
                evaluation.is_indexed_collection,
            )
            &&& step.1.next is Done
        }),
{
    let path = seq![CalculationPathItemView::Expression(expression)];
    lemma_evaluated(s, request, thread_id, stack_level, path, evaluation);
}

/// A request whose result is not there yet waits for it, under the identifier that it was asked
/// for with, and with what the answer will need; other requests wait on.
pub proof fn late_results_are_waited_for(
    s: AdapterView,
    request: JsonView,
    id: Seq<char>,
    thread_id: i64,
    stack_level: i64,
    expression: Seq<char>,
    reference: VariableReferenceView,
    result_id: Seq<char>,
    reply: HttpReplyView,
)
    requires
        adapter_invariant::consistent(s),
    ensures
        debug_server::evaluation_answer(reply) == Ok::<Option<DebugEvaluationView>, Seq<char>>(None)
            ==> {
            let step = adapter_requests::replied_to(
                s,
                ReasonView::Evaluate { request, thread_id, stack_level, expression, result_id },
                reply,
                id,
            );
            waits(
                s,
                step,
                result_id,
                PendingEvaluationView::Evaluate {
                    request,
                    thread_id,
                    stack_level,
                    path: seq![CalculationPathItemView::Expression(expression)],
                },
            )
        },
        (if reference is Locals {
            debug_server::local_variables_answer(reply) == Ok::<
                Option<Seq<DebugVariableView>>,
                Seq<char>,
            >(None)
        } else {
            debug_server::evaluation_answer(reply) == Ok::<Option<DebugEvaluationView>, Seq<char>>(
                None,
            )
        }) ==> {
            let step = adapter_requests::replied_to(
                s,
                ReasonView::Variables { request, reference, result_id },
                reply,
                id,
            );
            waits(s, step, result_id, PendingEvaluationView::Variables { request, reference })
        },
{
    reveal(adapter_invariant::consistent);
    ordered::lemma_inserted::<String, PendingEvaluationView>(
        s.pending_evaluations,
        result_id,
        PendingEvaluationView::Evaluate {
            request,
            thread_id,
            stack_level,
            path: seq![CalculationPathItemView::Expression(expression)],
        },
    );
    ordered::lemma_inserted::<String, PendingEvaluationView>(
        s.pending_evaluations,
        result_id,
        PendingEvaluationView::Variables { request, reference },
    );
}

/// A request waits under an identifier, and nothing is said.
pub open spec fn waits(s: AdapterView, step: (AdapterView, TurnView), result_id: Seq<char>, pending: PendingEvaluationView) -> bool {
    &&& ordered::lookup(step.0.pending_evaluations, result_id) == Some(pending)
    &&& forall|other: Seq<char>|
        other != result_id ==> #[trigger] ordered::lookup(step.0.pending_evaluations, other)
            == ordered::lookup(s.pending_evaluations, other)
    &&& step.0.variable_references == s.variable_references
    &&& step.0.call_stacks == s.call_stacks
    &&& step.0.next_sequence == s.next_sequence
    &&& forall|i: int|
        0 <= i < step.1.outputs.len() ==> (#[trigger] step.1.outputs[i]) is Trace
    &&& step.1.next is Done
}

/// Where a variable below a reference is found: an item by its index, a local variable by an
/// expression, any other by its name.
pub open spec fn below(parent: VariableReferenceView, variable: DebugVariableView) -> Seq<CalculationPathItemView> {
    match parent {
        VariableReferenceView::Locals { .. } => seq![
            match variable.index {
                Some(index) => CalculationPathItemView::Index(index),
                None => CalculationPathItemView::Expression(variable.name),
            },
        ],
        VariableReferenceView::Value { path, .. } => path + seq![
            match variable.index {
                Some(index) => CalculationPathItemView::Index(index),
                None => CalculationPathItemView::Property(variable.name),
            },
        ],
    }
}

/// A variable as an answer shows it.
pub open spec fn shows_variable(next: AdapterView, shown: JsonView, parent: VariableReferenceView, variable: DebugVariableView) -> bool {
    &&& json::field(shown, "name"@) == JsonView::Str(variable.name)
    &&& json::field(shown, "type"@) == JsonView::Str(variable.value_type)
    &&& json::field(shown, "value"@) == JsonView::Str(variable.value)
    &&& match parent {
        VariableReferenceView::Locals { thread_id, stack_level } => leads(
            next,
            shown,
            thread_id,
            stack_level,
            below(parent, variable),
            variable.is_expandable,
            variable.is_indexed_collection,
        ),
        VariableReferenceView::Value { thread_id, stack_level, .. } => leads(
            next,
            shown,
            thread_id,
            stack_level,
            below(parent, variable),
            variable.is_expandable,
            variable.is_indexed_collection,
        ),
    }
}

proof fn lemma_variable_shown(variable: DebugVariableView, reference: int)
    ensures
        ({
            let shown = adapter_frames::variable_body(variable, reference);
            &&& json::field(shown, "name"@) == JsonView::Str(variable.name)
            &&& json::field(shown, "type"@) == JsonView::Str(variable.value_type)
            &&& json::field(shown, "value"@) == JsonView::Str(variable.value)
            &&& json::field(shown, "variablesReference"@) == JsonView::Integer(reference)
        }),
{
    let members = adapter_frames::variable_body(variable, reference)->Object_0;
    reading::lemma_names();
    reading::lemma_field(members, 0);
    reading::lemma_field(members, 1);
    reading::lemma_field(members, 2);
    reading::lemma_field(members, 3);
}

proof fn lemma_references_rise(s: AdapterView, parent: VariableReferenceView, variables: Seq<DebugVariableView>, i: int)
    requires
        0 <= i < variables.len(),
        adapter_frames::has_references(s, variables.len() as int),
    ensures
        adapter_frames::listed(s, parent, variables).1.len() == variables.len(),
        json::field(
            adapter_frames::listed(s, parent, variables).1[i],
            "variablesReference"@,
        ) matches JsonView::Integer(n) && 0 <= n <= i64::MAX && (n == 0 <==> !(
        variables[i].is_expandable || variables[i].is_indexed_collection)),
    decreases variables.len(),
{
    let front = variables.drop_last();
    let before = adapter_frames::listed(s, parent, front).0;
    adapter_frames::lemma_listed_bound(s, parent, front);
    adapter_frames::lemma_listed_bound(s, parent, variables);
    if i < front.len() {
        lemma_references_rise(s, parent, front, i);
        assert(front[i] == variables[i]);
        assert(adapter_frames::listed(s, parent, variables).1[i] == adapter_frames::listed(
            s,
            parent,
            front,
        ).1[i]);
    } else {
        lemma_variable_shown(variables[i], adapter_frames::next_reference(before));
        lemma_variable_shown(variables[i], 0);
    }
}

/// Variables are the answer to `variables`, all of them in their order, each with its name, its type
/// and its value; one with children leads to them, by its own path below the reference of the
/// request.
pub proof fn variables_are_answered(
    s: AdapterView,
    request: JsonView,
    id: Seq<char>,
    reference: VariableReferenceView,
    result_id: Seq<char>,
    reply: HttpReplyView,
    variables: Seq<DebugVariableView>,
    i: int,
)
    requires
        match reference {
            VariableReferenceView::Locals { thread_id, .. } => debug_server::local_variables_answer(
                reply,
            ) == Ok::<Option<Seq<DebugVariableView>>, Seq<char>>(Some(variables))
                && adapter_invariant::is_stopped(s, thread_id),
            VariableReferenceView::Value { thread_id, .. } => (debug_server::evaluation_answer(
                reply,
            ) matches Ok(Some(evaluation)) && evaluation.variables == variables)
                && adapter_invariant::is_stopped(s, thread_id),
        },
        adapter_invariant::consistent(s),
        adapter_frames::has_references(s, variables.len() as int),
        0 <= i < variables.len(),
    ensures
        ({
            let step = adapter_requests::replied_to(
                s,
                ReasonView::Variables { request, reference, result_id },
                reply,
                id,
            );
            let body = json::field(step.1.outputs[1]->Message_0, "body"@);
            let shown = json::field(body, "variables"@);
            &&& step.1.outputs.len() == 2
            &&& step.1.outputs[0] is Trace
            &&& step.1.outputs[1] is Message
            &&& is_success(step.1.outputs[1]->Message_0, request, body)
            &&& shown is Array
            &&& shown->Array_0.len() == variables.len()
            &&& shows_variable(step.0, shown->Array_0[i], reference, variables[i])
            &&& step.1.next is Done
        }),
{
    let (next, bodies) = adapter_frames::listed(s, reference, variables);
    let body = adapter_frames::variables_body(bodies);
    lemma_answers(next, request, body, Seq::empty());
    reading::lemma_names();
    reading::lemma_field(body->Object_0, 0);
    adapter_invariant::shown_variables_lead_to_their_children(s, reference, variables, i);
    lemma_references_rise(s, reference, variables, i);
    let variable = variables[i];
    assert(adapter_frames::child_path(reference, variable) =~= below(reference, variable));
    match adapter_frames::children_interface(
        variable.is_expandable,
        variable.is_indexed_collection,
    ) {
        None => {
            lemma_variable_shown(variable, 0);
        },
        Some(interface) => {
            let n = choose|n: i64|
                bodies[i] == #[trigger] adapter_frames::variable_body(variable, n as int)
                    && ordered::lookup(next.variable_references, n) == Some(
                    VariableReferenceView::Value {
                        thread_id: adapter::address_of(reference).0,
                        stack_level: adapter::address_of(reference).1,
                        path: adapter_frames::child_path(reference, variable),
                        interface,
                    },
                );
            lemma_variable_shown(variable, n as int);
        },
    }
}

/// The capabilities are told apart.
proof fn lemma_capabilities()
    ensures
        "supportsConfigurationDoneRequest"@.len() == 32,
        "supportsConditionalBreakpoints"@.len() == 30 && "supportsConditionalBreakpoints"@[8] == 'C',
        "supportsHitConditionalBreakpoints"@.len() == 33,
        "supportsLogPoints"@.len() == 17,
        "supportsEvaluateForHovers"@.len() == 25,
        "supportsTerminateRequest"@.len() == 24,
        "supportsSingleThreadExecutionRequests"@.len() == 37,
        "supportsExceptionFilterOptions"@.len() == 30 && "supportsExceptionFilterOptions"@[8] == 'E',
        "exceptionBreakpointFilters"@.len() == 26,
{
    reveal_strlit("supportsConfigurationDoneRequest");
    reveal_strlit("supportsConditionalBreakpoints");
    reveal_strlit("supportsHitConditionalBreakpoints");
    reveal_strlit("supportsLogPoints");
    reveal_strlit("supportsEvaluateForHovers");
    reveal_strlit("supportsTerminateRequest");
    reveal_strlit("supportsSingleThreadExecutionRequests");
    reveal_strlit("supportsExceptionFilterOptions");
    reveal_strlit("exceptionBreakpointFilters");
}

/// `initialize` is answered with what the adapter can do: conditional breakpoints, hit counts, log
/// points, hovers, termination, single threads, and a filter for runtime errors, which is off at
/// first.
pub proof fn capabilities_are_told(s: AdapterView, request: JsonView, id: Seq<char>)
    requires
        request_laws::commands(request, "initialize"@),
    ensures
        ({
            let step = adapter_requests::handled(s, request, id);
            let body = json::field(step.1.outputs[0]->Message_0, "body"@);
            let filters = json::field(body, "exceptionBreakpointFilters"@);
            let yes = JsonView::Bool(true);
            &&& answers(step, request, body)
            &&& json::field(body, "supportsConfigurationDoneRequest"@) == yes
            &&& json::field(body, "supportsConditionalBreakpoints"@) == yes
            &&& json::field(body, "supportsHitConditionalBreakpoints"@) == yes
            &&& json::field(body, "supportsLogPoints"@) == yes
            &&& json::field(body, "supportsEvaluateForHovers"@) == yes
            &&& json::field(body, "supportsTerminateRequest"@) == yes
            &&& json::field(body, "supportsSingleThreadExecutionRequests"@) == yes
            &&& json::field(body, "supportsExceptionFilterOptions"@) == yes
            &&& filters is Array && filters->Array_0.len() == 1
            &&& json::field(filters->Array_0[0], "filter"@) == JsonView::Str("all"@)
            &&& json::field(filters->Array_0[0], "label"@) == JsonView::Str("1C runtime errors"@)
            &&& json::field(filters->Array_0[0], "default"@) == JsonView::Bool(false)
        }),
{
    request_laws::lemma_commands();
    lemma_capabilities();
    reading::lemma_names();
    let body = adapter_requests::capabilities();
    lemma_answers(s, request, body, Seq::empty());
    reading::lemma_field(body->Object_0, 0);
    reading::lemma_field(body->Object_0, 1);
    reading::lemma_field(body->Object_0, 2);
    reading::lemma_field(body->Object_0, 3);
    reading::lemma_field(body->Object_0, 4);
    reading::lemma_field(body->Object_0, 5);
    reading::lemma_field(body->Object_0, 6);
    reading::lemma_field(body->Object_0, 7);
    reading::lemma_field(body->Object_0, 8);
    let filter = adapter_requests::exception_filter();
    reading::lemma_field(filter->Object_0, 0);
    reading::lemma_field(filter->Object_0, 1);
    reading::lemma_field(filter->Object_0, 2);
}

} // verus!
