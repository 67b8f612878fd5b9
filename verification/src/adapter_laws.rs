//! What holds of every step of the adapter.

use crate::adapter;
use crate::adapter::{
    AdapterView, AttachingView, ConnectingView, EndingView, LocatedView, NextView, OutputView,
    PendingEvaluationView, ReasonView, TurnView, VariableReferenceView,
};
use crate::adapter_breakpoints;
use crate::adapter_connect;
use crate::adapter_evaluation;
use crate::adapter_events;
use crate::adapter_frames;
use crate::adapter_polls;
use crate::adapter_polls::ProgramReportView;
use crate::adapter_requests;
use crate::adapter_session;
use crate::adapter_targets;
use crate::dap;
use crate::debug_server;
use crate::debug_server::{HttpReplyView, PingOutcomeView};
use crate::debug_types::{
    CalculationPathItemView, DebugUiEventView, DebugUiSessionView, DebugVariableView, StepAction,
};
use crate::info_base::ConnectionArgumentsView;
use crate::json;
use crate::json::JsonView;
use crate::metadata::{ModuleRegistryView, SourcesView};
use crate::ordered;
use crate::platform::PlatformListingView;
use vstd::prelude::*;

verus! {

/// What a step of the adapter starts from: a request, a tick, or the outcome of what the step
/// before left to do.
pub enum InputView {
    Request(JsonView, Seq<char>),
    Arguments(JsonView, bool, Option<ConnectionArgumentsView>),
    Sources(ConnectingView, SourcesView),
    InfoBase(ConnectingView, Option<ModuleRegistryView>, bool, Seq<Seq<char>>),
    Platform(LocatedView, Seq<char>, PlatformListingView),
    DebugServer(LocatedView, Seq<char>, bool),
    Port(LocatedView, Result<u16, Seq<char>>),
    Launch(JsonView),
    ClientPlatform(JsonView, Seq<char>, PlatformListingView),
    Client(JsonView, Seq<char>, bool),
    ClientStart(JsonView, Seq<char>, bool),
    Source(JsonView, Seq<char>, Option<Seq<char>>),
    Reply(ReasonView, HttpReplyView, Seq<char>),
    Tick(ProgramReportView),
    Poll(u64, Seq<char>, Result<PingOutcomeView, Seq<char>>),
    Events(Seq<DebugUiEventView>),
    InputClosed,
}

/// The step that an input leads to.
pub open spec fn step(s: AdapterView, input: InputView) -> (AdapterView, TurnView) {
    match input {
        InputView::Request(request, id) => adapter_requests::handled(s, request, id),
        InputView::Arguments(request, launch, arguments) => adapter_connect::with_arguments(
            s,
            request,
            launch,
            arguments,
        ),
        InputView::Sources(connecting, sources) => adapter_connect::with_sources(
            s,
            connecting,
            sources,
        ),
        InputView::InfoBase(connecting, registry, is_directory, lists) => adapter_connect::with_info_base(
            s,
            connecting,
            registry,
            is_directory,
            lists,
        ),
        InputView::Platform(located, path, listing) => adapter_connect::with_platform(
            s,
            located,
            path,
            listing,
        ),
        InputView::DebugServer(located, path, is_file) => adapter_connect::with_debug_server(
            s,
            located,
            path,
            is_file,
        ),
        InputView::Port(located, outcome) => adapter_connect::with_port(s, located, outcome),
        InputView::Launch(request) => adapter_connect::client_launched(s, request),
        InputView::ClientPlatform(request, path, listing) => adapter_connect::with_client_platform(
            s,
            request,
            path,
            listing,
        ),
        InputView::Client(request, path, is_file) => adapter_connect::with_client(
            s,
            request,
            path,
            is_file,
        ),
        InputView::ClientStart(request, path, started) => adapter_connect::client_start_done(
            s,
            request,
            path,
            started,
        ),
        InputView::Source(request, path, canonical) => adapter_breakpoints::breakpoints_resolved(
            s,
            request,
            path,
            canonical,
        ),
        InputView::Reply(reason, reply, id) => adapter_requests::replied_to(s, reason, reply, id),
        InputView::Tick(report) => adapter_polls::polled(s, report),
        InputView::Poll(poll, session, outcome) => adapter_polls::poll_ended(
            s,
            poll,
            session,
            outcome,
        ),
        InputView::Events(events) => adapter_events::events_taken(s, events),
        InputView::InputClosed => adapter_session::ending_begun(s, EndingView::InputClosed),
    }
}

/// The messages among what a step puts out.
#[verifier::opaque]
pub open spec fn messages(outputs: Seq<OutputView>) -> Seq<JsonView>
    decreases outputs.len(),
{
    if outputs.len() == 0 {
        Seq::empty()
    } else {
        match outputs.last() {
            OutputView::Message(message) => messages(outputs.drop_last()).push(message),
            OutputView::Trace(_) => messages(outputs.drop_last()),
        }
    }
}

/// Messages carry the numbers that follow `last`, one after the other.
pub open spec fn consecutive(messages: Seq<JsonView>, last: int) -> bool {
    forall|i: int|
        0 <= i < messages.len() ==> json::field(#[trigger] messages[i], "seq"@)
            == JsonView::Integer(last + 1 + i)
}

/// The responses among messages.
#[verifier::opaque]
pub open spec fn responses(messages: Seq<JsonView>) -> Seq<JsonView> {
    messages.filter(|message: JsonView| is_response(message))
}

pub open spec fn is_response(message: JsonView) -> bool {
    json::field(message, "type"@) == JsonView::Str("response"@)
}

broadcast proof fn lemma_messages_push(outputs: Seq<OutputView>, output: OutputView)
    ensures
        #[trigger] messages(outputs.push(output)) == match output {
            OutputView::Message(message) => messages(outputs).push(message),
            OutputView::Trace(_) => messages(outputs),
        },
{
    reveal(messages);
    assert(outputs.push(output).drop_last() =~= outputs);
}

broadcast proof fn lemma_messages_few(outputs: Seq<OutputView>)
    requires
        2 <= outputs.len() <= 3,
    ensures
        #[trigger] messages(outputs) == if outputs.len() == 2 {
            messages(Seq::empty().push(outputs[0]).push(outputs[1]))
        } else {
            messages(Seq::empty().push(outputs[0]).push(outputs[1]).push(outputs[2]))
        },
{
    if outputs.len() == 2 {
        assert(outputs =~= Seq::empty().push(outputs[0]).push(outputs[1]));
    } else {
        assert(outputs =~= Seq::empty().push(outputs[0]).push(outputs[1]).push(outputs[2]));
    }
}

broadcast proof fn lemma_messages_none()
    ensures
        #[trigger] messages(Seq::empty()) == Seq::<JsonView>::empty(),
{
    reveal(messages);
}

broadcast proof fn lemma_messages_join(a: Seq<OutputView>, b: Seq<OutputView>)
    ensures
        #[trigger] messages(a + b) == messages(a) + messages(b),
    decreases b.len(),
{
    reveal(messages);
    if b.len() == 0 {
        assert(a + b =~= a);
        assert(messages(a) + messages(b) =~= messages(a));
    } else {
        lemma_messages_join(a, b.drop_last());
        assert((a + b).drop_last() =~= a + b.drop_last());
        match b.last() {
            OutputView::Message(message) => {
                assert(messages(a) + messages(b.drop_last()).push(message) =~= (messages(a)
                    + messages(b.drop_last())).push(message));
            },
            OutputView::Trace(_) => {},
        }
    }
}

broadcast proof fn lemma_responses_push(messages: Seq<JsonView>, message: JsonView)
    ensures
        #[trigger] responses(messages.push(message)) == if is_response(message) {
            responses(messages).push(message)
        } else {
            responses(messages)
        },
{
    reveal(responses);
    reveal(Seq::filter);
    assert(messages.push(message).drop_last() =~= messages);
}

broadcast proof fn lemma_responses_none()
    ensures
        #[trigger] responses(Seq::empty()) == Seq::<JsonView>::empty(),
{
    reveal(responses);
    reveal(Seq::filter);
}

broadcast proof fn lemma_response(request: JsonView, sequence: int, body: JsonView)
    ensures
        dap::is_message(#[trigger] dap::response_to(request, sequence, body), sequence, "response"@),
        dap::is_answer(dap::response_to(request, sequence, body), request, true),
{
    dap::response_names_its_request(request, sequence, body);
}

broadcast proof fn lemma_refusal(request: JsonView, sequence: int, message: Seq<char>)
    ensures
        dap::is_message(#[trigger] dap::refusal_of(request, sequence, message), sequence, "response"@),
        dap::is_answer(dap::refusal_of(request, sequence, message), request, false),
{
    dap::refusal_names_its_request(request, sequence, message);
}

broadcast proof fn lemma_event(sequence: int, name: Seq<char>, body: JsonView)
    ensures
        dap::is_message(#[trigger] dap::event_named(sequence, name, body), sequence, "event"@),
        !is_response(dap::event_named(sequence, name, body)),
{
    dap::event_answers_nothing(sequence, name, body);
}

broadcast group group_messages {
    lemma_messages_push,
    lemma_messages_few,
    lemma_messages_none,
    lemma_messages_join,
    lemma_responses_push,
    lemma_responses_none,
    lemma_response,
    lemma_refusal,
    lemma_event,
}

/// The messages of a step carry the numbers that follow the last one.
pub open spec fn numbers_messages(s: AdapterView, step: (AdapterView, TurnView)) -> bool {
    &&& consecutive(messages(step.1.outputs), s.next_sequence)
    &&& step.0.next_sequence == s.next_sequence + messages(step.1.outputs).len()
}

/// The request that an HTTP request serves.
pub open spec fn served(reason: ReasonView) -> Option<JsonView> {
    match reason {
        ReasonView::Test(attaching) => Some(attaching.located.connecting.request),
        ReasonView::Register(attaching, _) => Some(attaching.located.connecting.request),
        ReasonView::Configure(attaching, _) => Some(attaching.located.connecting.request),
        ReasonView::GiveUp(attaching, _) => Some(attaching.located.connecting.request),
        ReasonView::Detach(EndingView::Requested(request)) => Some(request),
        ReasonView::Detach(_) => None,
        ReasonView::Step { request, .. } => Some(request),
        ReasonView::Pause(request) => Some(request),
        ReasonView::SetBreakpoints { request, .. } => Some(request),
        ReasonView::SetExceptionBreakpoints(request) => Some(request),
        ReasonView::SetAutoAttachTypes(request) => Some(request),
        ReasonView::ListTargets(request) => Some(request),
        ReasonView::FindTarget { request, .. } => Some(request),
        ReasonView::PrepareTarget { request, .. } => Some(request),
        ReasonView::AttachTarget { request, .. } => Some(request),
        ReasonView::Evaluate { request, .. } => Some(request),
        ReasonView::Variables { request, .. } => Some(request),
        ReasonView::PrepareStarted { .. } => None,
        ReasonView::AttachStarted { .. } => None,
        ReasonView::ContinueAfterMessage { .. } => None,
    }
}

/// The request that is carried on by what a step leaves to do.
pub open spec fn carried(next: NextView) -> Option<JsonView> {
    match next {
        NextView::Done => None,
        NextView::ReadArguments(request, _) => Some(request),
        NextView::ReadSources(connecting) => Some(connecting.request),
        NextView::InspectInfoBase(connecting, _, _) => Some(connecting.request),
        NextView::ListPlatform(located, _) => Some(located.connecting.request),
        NextView::CheckDebugServer(located, _) => Some(located.connecting.request),
        NextView::StartDebugServer(located, _, _) => Some(located.connecting.request),
        NextView::LaunchClient(request) => Some(request),
        NextView::ListClientPlatform(request, _) => Some(request),
        NextView::CheckClient(request, _) => Some(request),
        NextView::StartClient(request, _, _) => Some(request),
        NextView::ResolveSource(request, _) => Some(request),
        NextView::Send(_, reason) => served(reason),
        NextView::Poll(_, _, _) => None,
        NextView::Events(_) => None,
    }
}

/// The request that an input is about.
pub open spec fn concerned(input: InputView) -> Option<JsonView> {
    match input {
        InputView::Request(request, _) => Some(request),
        InputView::Arguments(request, _, _) => Some(request),
        InputView::Sources(connecting, _) => Some(connecting.request),
        InputView::InfoBase(connecting, _, _, _) => Some(connecting.request),
        InputView::Platform(located, _, _) => Some(located.connecting.request),
        InputView::DebugServer(located, _, _) => Some(located.connecting.request),
        InputView::Port(located, _) => Some(located.connecting.request),
        InputView::Launch(request) => Some(request),
        InputView::ClientPlatform(request, _, _) => Some(request),
        InputView::Client(request, _, _) => Some(request),
        InputView::ClientStart(request, _, _) => Some(request),
        InputView::Source(request, _, _) => Some(request),
        InputView::Reply(reason, _, _) => served(reason),
        InputView::Tick(_) => None,
        InputView::Poll(_, _, _) => None,
        InputView::Events(_) => None,
        InputView::InputClosed => None,
    }
}

/// The request that waits in a deferred calculation.
pub open spec fn waiting_request(pending: PendingEvaluationView) -> JsonView {
    match pending {
        PendingEvaluationView::Evaluate { request, .. } => request,
        PendingEvaluationView::Variables { request, .. } => request,
    }
}

/// A request waits for the result of a deferred calculation.
pub open spec fn waits(s: AdapterView, request: JsonView) -> bool {
    exists|i: int|
        0 <= i < s.pending_evaluations.len() && waiting_request(
            (#[trigger] s.pending_evaluations[i]).1,
        ) == request
}

/// A message answers a request, with success or without.
pub open spec fn answers(message: JsonView, request: JsonView) -> bool {
    dap::is_answer(message, request, true) || dap::is_answer(message, request, false)
}

/// A step answers a request, once, or carries it on, or lets it wait.
pub open spec fn settles(step: (AdapterView, TurnView), request: JsonView) -> bool {
    let given = responses(messages(step.1.outputs));
    let left = carried(step.1.next);
    ||| given.len() == 1 && answers(given[0], request) && left is None
    ||| given.len() == 0 && left == Some(request)
    ||| given.len() == 0 && left is None && waits(step.0, request)
}

/// The first of the messages is a response, and no other.
pub open spec fn answer_comes_first(messages: Seq<JsonView>) -> bool {
    forall|i: int| 0 <= i < messages.len() ==> (is_response(#[trigger] messages[i]) <==> i == 0)
}

/// A step is numbered, puts an answer before its events, and settles a request.
#[verifier::opaque]
spec fn serves(s: AdapterView, step: (AdapterView, TurnView), request: JsonView) -> bool {
    &&& numbers_messages(s, step)
    &&& answer_comes_first(messages(step.1.outputs))
    &&& settles(step, request)
}

broadcast proof fn lemma_answered(s: AdapterView, next: AdapterView, request: JsonView, body: JsonView)
    requires
        next.next_sequence == s.next_sequence,
    ensures
        #[trigger] serves(s, adapter::answered(next, request, body), request),
{
    broadcast use group_messages;

    reveal(serves);
}

broadcast proof fn lemma_refused(s: AdapterView, next: AdapterView, request: JsonView, message: Seq<char>)
    requires
        next.next_sequence == s.next_sequence,
    ensures
        #[trigger] serves(s, adapter::refused(next, request, message), request),
{
    broadcast use group_messages;

    reveal(serves);
}

broadcast proof fn lemma_carried(s: AdapterView, state: AdapterView, next: NextView, request: JsonView)
    requires
        state.next_sequence == s.next_sequence,
        carried(next) == Some(request),
    ensures
        #[trigger] serves(s, (state, adapter::asks(next)), request),
{
    broadcast use group_messages;

    reveal(serves);
}

broadcast group group_serves {
    lemma_answered,
    lemma_refused,
    lemma_carried,
}

proof fn lemma_failed(s: AdapterView, request: JsonView, message: Seq<char>, spawned: bool)
    ensures
        serves(s, adapter_connect::failed(s, request, message, spawned), request),
{
    broadcast use group_serves;

    reveal(serves);
    assert(serves(s, adapter::refused(s, request, message), request));
}

/// A step that puts out a record, and carries a request on.
broadcast proof fn lemma_recorded_carry(s: AdapterView, record: Seq<(Seq<char>, JsonView)>, next: NextView, request: JsonView)
    requires
        carried(next) == Some(request),
    ensures
        #[trigger] serves(
            s,
            (
                s,
                TurnView {
                    outputs: seq![OutputView::Trace(record)],
                    stop_programs: false,
                    next,
                },
            ),
            request,
        ),
{
    broadcast use group_messages;

    reveal(serves);
}

proof fn lemma_frame_requests(s: AdapterView, request: JsonView)
    ensures
        serves(s, adapter_frames::stack_traced(s, request), request),
        serves(s, adapter_frames::scoped(s, request), request),
{
    broadcast use group_serves;

}

proof fn lemma_calculation_requests(s: AdapterView, request: JsonView, id: Seq<char>)
    ensures
        serves(s, adapter_evaluation::evaluate_asked(s, request, id), request),
        serves(s, adapter_evaluation::variables_asked(s, request, id), request),
{
    broadcast use {group_serves, lemma_recorded_carry};

}

proof fn lemma_target_requests(s: AdapterView, request: JsonView, action: StepAction)
    ensures
        serves(s, adapter_targets::step_asked(s, request, action), request),
        serves(s, adapter_targets::pause_asked(s, request), request),
        serves(s, adapter_targets::auto_attach_asked(s, request), request),
        serves(
            s,
            adapter_targets::targets_asked(s, request, ReasonView::ListTargets(request)),
            request,
        ),
        serves(s, adapter_targets::attach_asked(s, request), request),
{
    broadcast use {group_serves, lemma_recorded_carry};

}

proof fn lemma_breakpoint_requests(s: AdapterView, request: JsonView)
    ensures
        serves(s, adapter_breakpoints::breakpoints_asked(s, request), request),
        serves(s, adapter_breakpoints::exception_breakpoints_asked(s, request), request),
{
    broadcast use group_serves;

}

proof fn lemma_ended(s: AdapterView, ending: EndingView, detached: Result<(), Seq<char>>)
    ensures
        numbers_messages(s, adapter_session::ended(s, ending, detached)),
        ending is Requested ==> serves(
            s,
            adapter_session::ended(s, ending, detached),
            ending->Requested_0,
        ),
        !(ending is Requested) ==> responses(
            messages(adapter_session::ended(s, ending, detached).1.outputs),
        ).len() == 0,
{
    broadcast use group_messages;

    reveal(serves);
}

proof fn lemma_disconnect(s: AdapterView, request: JsonView)
    ensures
        serves(s, adapter_session::ending_begun(s, EndingView::Requested(request)), request),
{
    broadcast use group_serves;

    lemma_ended(s, EndingView::Requested(request), Ok(()));
}

proof fn lemma_request_step(s: AdapterView, request: JsonView, id: Seq<char>)
    ensures
        serves(s, adapter_requests::handled(s, request, id), request),
{
    broadcast use group_serves;

    lemma_frame_requests(s, request);
    lemma_calculation_requests(s, request, id);
    lemma_target_requests(s, request, StepAction::Continue);
    lemma_target_requests(s, request, StepAction::Next);
    lemma_target_requests(s, request, StepAction::StepIn);
    lemma_target_requests(s, request, StepAction::StepOut);
    lemma_breakpoint_requests(s, request);
    lemma_disconnect(s, request);
    assert(serves(s, adapter_connect::connect_asked(s, request, true), request));
    assert(serves(s, adapter_connect::connect_asked(s, request, false), request));
    assert(serves(s, adapter_connect::configuration_done(s, request), request));
}

proof fn lemma_inspection(s: AdapterView, connecting: ConnectingView, registry: Option<ModuleRegistryView>)
    ensures
        serves(s, adapter_connect::inspection(s, connecting, registry), connecting.request),
{
    broadcast use group_serves;

}

proof fn lemma_attachment_begun(s: AdapterView, located: LocatedView, port: u16, spawned: bool)
    ensures
        serves(
            s,
            adapter_connect::attachment_begun(s, located, port, spawned),
            located.connecting.request,
        ),
{
    broadcast use group_serves;

    assert forall|message: Seq<char>|
        serves(
            s,
            #[trigger] adapter_connect::failed(s, located.connecting.request, message, spawned),
            located.connecting.request,
        ) by {
        lemma_failed(s, located.connecting.request, message, spawned);
    }
}

proof fn lemma_connection_steps(s: AdapterView, input: InputView)
    requires
        input is Arguments || input is Sources || input is InfoBase || input is Platform
            || input is DebugServer || input is Port,
    ensures
        serves(s, step(s, input), concerned(input)->0),
{
    broadcast use group_serves;

    match input {
        InputView::Arguments(request, launch, arguments) => {
            if arguments is Some {
                lemma_inspection(
                    s,
                    ConnectingView { request, launch, arguments: arguments->0 },
                    None,
                );
            }
        },
        InputView::Sources(connecting, sources) => {
            match crate::metadata::loaded(sources) {
                Ok(registry) => {
                    lemma_inspection(s, connecting, Some(registry));
                },
                Err(_) => {},
            }
        },
        InputView::InfoBase(connecting, registry, is_directory, lists) => {
            match crate::info_base::target_of(connecting.arguments, is_directory, lists) {
                Ok(info_base) => {
                    lemma_attachment_begun(
                        s,
                        LocatedView { connecting, registry, info_base },
                        connecting.arguments.debug_server_port,
                        false,
                    );
                },
                Err(_) => {},
            }
        },
        InputView::Port(located, outcome) => {
            match outcome {
                Ok(port) => {
                    lemma_attachment_begun(s, located, port, true);
                },
                Err(message) => {
                    lemma_failed(s, located.connecting.request, message, true);
                },
            }
        },
        _ => {},
    }
}

proof fn lemma_client_steps(s: AdapterView, input: InputView)
    requires
        input is Launch || input is ClientPlatform || input is Client || input is ClientStart
            || input is Source,
    ensures
        serves(s, step(s, input), concerned(input)->0),
{
    broadcast use group_serves;

}

proof fn lemma_attaching_replies(s: AdapterView, reason: ReasonView, reply: HttpReplyView, id: Seq<char>)
    requires
        reason is Test || reason is Register || reason is GiveUp,
    ensures
        serves(s, adapter_requests::replied_to(s, reason, reply, id), served(reason)->0),
{
    broadcast use group_serves;

    let request = served(reason)->0;
    assert forall|message: Seq<char>, spawned: bool|
        serves(s, #[trigger] adapter_connect::failed(s, request, message, spawned), request) by {
        lemma_failed(s, request, message, spawned);
    }
}

/// An output is an event with a number.
spec fn is_event(output: OutputView, sequence: int) -> bool {
    &&& output is Message
    &&& dap::is_message(output->Message_0, sequence, "event"@)
    &&& !is_response(output->Message_0)
}

proof fn lemma_next_event(s: AdapterView, name: Seq<char>, body: JsonView)
    ensures
        is_event(adapter::next_event(s, name, body), s.next_sequence + 1),
{
    lemma_event(s.next_sequence + 1, name, body);
}

/// A step that puts out a response before events settles its request.
proof fn lemma_answer_then_events(
    s: AdapterView,
    step: (AdapterView, TurnView),
    request: JsonView,
    body: JsonView,
    events: Seq<OutputView>,
)
    requires
        step.1.outputs == seq![adapter::next_response(s, request, body)] + events,
        carried(step.1.next) is None,
        step.0.next_sequence == s.next_sequence + 1 + events.len(),
        events.len() <= 2,
        forall|i: int|
            0 <= i < events.len() ==> is_event(#[trigger] events[i], s.next_sequence + 2 + i),
    ensures
        serves(s, step, request),
{
    reveal(serves);
    let answer = dap::response_to(request, s.next_sequence + 1, body);
    let first = Seq::<OutputView>::empty().push(adapter::next_response(s, request, body));
    lemma_response(request, s.next_sequence + 1, body);
    lemma_messages_push(Seq::empty(), adapter::next_response(s, request, body));
    broadcast use lemma_messages_none;
    broadcast use lemma_responses_none;

    lemma_responses_push(Seq::empty(), answer);
    assert(messages(first) =~= seq![answer]);
    if events.len() == 0 {
        assert(step.1.outputs =~= first);
    } else {
        let event = events[0]->Message_0;
        assert(is_event(events[0], s.next_sequence + 2));
        lemma_messages_push(first, events[0]);
        lemma_responses_push(seq![answer], event);
        if events.len() == 1 {
            assert(step.1.outputs =~= first.push(events[0]));
        } else {
            let last = events[1]->Message_0;
            assert(is_event(events[1], s.next_sequence + 3));
            lemma_messages_push(first.push(events[0]), events[1]);
            lemma_responses_push(seq![answer].push(event), last);
            assert(step.1.outputs =~= first.push(events[0]).push(events[1]));
        }
    }
}

proof fn lemma_configure_reply(s: AdapterView, attaching: AttachingView, session: DebugUiSessionView, reply: HttpReplyView)
    ensures
        serves(
            s,
            adapter_connect::configure_replied(s, attaching, session, reply),
            attaching.located.connecting.request,
        ),
{
    let result = adapter_connect::configure_replied(s, attaching, session, reply);
    let request = attaching.located.connecting.request;
    if debug_server::acknowledged("setAutoAttachSettings"@, reply) is Ok {
        let event = adapter::next_event(
            adapter::counted(s, 1),
            "initialized"@,
            adapter::no_body(),
        );
        assert(result.1.outputs =~= seq![adapter::next_response(s, request, adapter::no_body())]
            + seq![event]);
        lemma_next_event(adapter::counted(s, 1), "initialized"@, adapter::no_body());
        lemma_answer_then_events(s, result, request, adapter::no_body(), seq![event]);
    } else {
        broadcast use group_serves;

    }
}

proof fn lemma_attach_reply(s: AdapterView, request: JsonView, target_id: Seq<char>, reply: HttpReplyView)
    ensures
        serves(s, adapter_targets::attach_replied(s, request, target_id, reply), request),
{
    let result = adapter_targets::attach_replied(s, request, target_id, reply);
    if debug_server::acknowledged("attachDetachDbgTargets"@, reply) is Ok {
        let events = adapter_targets::thread_events(
            adapter::counted(s, 1),
            "started"@,
            adapter_targets::next_thread(s),
        );
        lemma_next_event(
            adapter::counted(s, 1),
            "thread"@,
            adapter_targets::thread_event_body("started"@, adapter_targets::next_thread(s)),
        );
        lemma_next_event(
            adapter::counted(adapter::counted(s, 1), 1),
            "DebugTargetsUpdated"@,
            adapter::no_body(),
        );
        lemma_answer_then_events(s, result, request, adapter::no_body(), events);
    } else {
        broadcast use group_serves;

    }
}

proof fn lemma_target_replies(s: AdapterView, reason: ReasonView, reply: HttpReplyView, id: Seq<char>)
    requires
        reason is Pause || reason is SetBreakpoints || reason is SetExceptionBreakpoints
            || reason is SetAutoAttachTypes || reason is ListTargets || reason is FindTarget
            || reason is PrepareTarget,
    ensures
        serves(s, adapter_requests::replied_to(s, reason, reply, id), served(reason)->0),
{
    broadcast use group_serves;

}

/// Records do not count among the messages.
proof fn lemma_records_around(s: AdapterView, before: Seq<OutputView>, result: (AdapterView, TurnView), after: Seq<OutputView>, request: JsonView)
    requires
        serves(s, result, request),
        forall|i: int| 0 <= i < before.len() ==> (#[trigger] before[i]) is Trace,
        forall|i: int| 0 <= i < after.len() ==> (#[trigger] after[i]) is Trace,
    ensures
        serves(
            s,
            (
                result.0,
                TurnView { outputs: before + result.1.outputs + after, ..result.1 },
            ),
            request,
        ),
{
    reveal(serves);
    lemma_only_records(before);
    lemma_only_records(after);
    lemma_messages_join(before + result.1.outputs, after);
    lemma_messages_join(before, result.1.outputs);
    assert(messages(before + result.1.outputs + after) =~= messages(result.1.outputs));
}

proof fn lemma_only_records(outputs: Seq<OutputView>)
    requires
        forall|i: int| 0 <= i < outputs.len() ==> (#[trigger] outputs[i]) is Trace,
    ensures
        messages(outputs) == Seq::<JsonView>::empty(),
    decreases outputs.len(),
{
    reveal(messages);
    if outputs.len() > 0 {
        lemma_only_records(outputs.drop_last());
    }
}

proof fn lemma_step_reply(
    s: AdapterView,
    request: JsonView,
    thread_id: i64,
    target_id: Seq<char>,
    action: StepAction,
    reply: HttpReplyView,
)
    ensures
        serves(
            s,
            adapter_targets::step_replied(s, request, thread_id, target_id, action, reply),
            request,
        ),
{
    let result = adapter_targets::step_replied(s, request, thread_id, target_id, action, reply);
    let record = adapter::thread_record("rdbg.step.response"@, thread_id, target_id);
    let last = seq![adapter::thread_record("dap.step.response"@, thread_id, target_id)];
    match debug_server::acknowledged("step"@, reply) {
        Err(message) => {
            let refusal = adapter::refused(s, request, message);
            lemma_refused(s, s, request, message);
            lemma_records_around(s, seq![record], refusal, last, request);
            assert(seq![record] + refusal.1.outputs + last =~= result.1.outputs);
        },
        Ok(_) => {
            let all = adapter_targets::all_continued(request);
            let body = adapter_targets::step_body(action, all);
            let events = adapter_targets::announcement(s, action, thread_id, all);
            let replaced = adapter_targets::replaced_poll(s.active_poll);
            let (next, poll) = adapter_polls::poll_begun(
                adapter::counted(s, 1int + events.len()),
                Some(adapter_polls::STEP_POLL_TIMEOUT),
            );
            let inner = (
                next,
                TurnView {
                    outputs: seq![adapter::next_response(s, request, body)] + events,
                    stop_programs: false,
                    next: poll.next,
                },
            );
            lemma_next_event(
                adapter::counted(s, 1),
                "continued"@,
                adapter_targets::continued_body(thread_id, all),
            );
            lemma_answer_then_events(s, inner, request, body, events);
            let after = replaced + poll.outputs + last;
            lemma_records_around(s, seq![record], inner, after, request);
            assert(seq![record] + inner.1.outputs + after =~= result.1.outputs);
        },
    }
}

proof fn lemma_variables_answer(s: AdapterView, request: JsonView, reference: VariableReferenceView, variables: Seq<DebugVariableView>)
    ensures
        serves(
            s,
            adapter_frames::variables_answer(s, request, reference, variables),
            request,
        ),
{
    broadcast use group_serves;

    adapter_frames::lemma_listed_bound(s, reference, variables);
}

proof fn lemma_deferred(s: AdapterView, result_id: Seq<char>, pending: PendingEvaluationView)
    ensures
        serves(
            s,
            adapter_evaluation::deferred(s, result_id, pending),
            waiting_request(pending),
        ),
{
    broadcast use group_messages;

    reveal(serves);
    let next = adapter_evaluation::deferred(s, result_id, pending).0;
    let smaller = s.pending_evaluations.filter(
        |entry: (Seq<char>, PendingEvaluationView)|
            <String as ordered::Key>::less(entry.0, result_id),
    );
    assert(next.pending_evaluations[smaller.len() as int] == (result_id, pending));
}

proof fn lemma_recorded(s: AdapterView, record: Seq<(Seq<char>, JsonView)>, result: (AdapterView, TurnView), request: JsonView)
    requires
        serves(s, result, request),
    ensures
        serves(
            s,
            adapter_evaluation::recorded(OutputView::Trace(record), result),
            request,
        ),
{
    let record = seq![OutputView::Trace(record)];
    lemma_records_around(s, record, result, Seq::empty(), request);
    assert(record + result.1.outputs + Seq::empty() =~= record + result.1.outputs);
}

proof fn lemma_calculation_replies(s: AdapterView, reason: ReasonView, reply: HttpReplyView, id: Seq<char>)
    requires
        reason is Evaluate || reason is Variables,
    ensures
        serves(s, adapter_requests::replied_to(s, reason, reply, id), served(reason)->0),
{
    broadcast use group_serves;

    match reason {
        ReasonView::Evaluate { request, thread_id, stack_level, expression, result_id } => {
            let path = seq![CalculationPathItemView::Expression(expression)];
            lemma_deferred(
                s,
                result_id,
                PendingEvaluationView::Evaluate { request, thread_id, stack_level, path },
            );
            let answer = adapter_evaluation::evaluate_answered(
                s,
                request,
                thread_id,
                stack_level,
                expression,
                result_id,
                reply,
            );
            assert(serves(s, answer, request));
            lemma_recorded(
                s,
                adapter::result_record("rdbg.evaluate.response"@, result_id)->Trace_0,
                answer,
                request,
            );
        },
        ReasonView::Variables { request, reference, result_id } => {
            lemma_deferred(
                s,
                result_id,
                PendingEvaluationView::Variables { request, reference },
            );
            match adapter_evaluation::variables_in(reference, reply) {
                Ok(Some(variables)) => {
                    lemma_variables_answer(s, request, reference, variables);
                },
                _ => {},
            }
            let answer = adapter_evaluation::variables_answered(
                s,
                request,
                reference,
                result_id,
                reply,
            );
            assert(serves(s, answer, request));
            lemma_recorded(
                s,
                adapter::result_record("rdbg.variables.response"@, result_id)->Trace_0,
                answer,
                request,
            );
        },
        _ => {},
    }
}

proof fn lemma_step_serves(s: AdapterView, input: InputView)
    requires
        concerned(input) is Some,
    ensures
        serves(s, step(s, input), concerned(input)->0),
{
    match input {
        InputView::Request(request, id) => {
            lemma_request_step(s, request, id);
        },
        InputView::Reply(reason, reply, id) => {
            match reason {
                ReasonView::Detach(ending) => {
                    lemma_ended(s, ending, debug_server::acknowledged("detachDebugUI"@, reply));
                },
                ReasonView::Step { request, thread_id, target_id, action } => {
                    lemma_step_reply(s, request, thread_id, target_id, action, reply);
                },
                ReasonView::Evaluate { .. } => {
                    lemma_calculation_replies(s, reason, reply, id);
                },
                ReasonView::Variables { .. } => {
                    lemma_calculation_replies(s, reason, reply, id);
                },
                ReasonView::Test(_) => {
                    lemma_attaching_replies(s, reason, reply, id);
                },
                ReasonView::Register(_, _) => {
                    lemma_attaching_replies(s, reason, reply, id);
                },
                ReasonView::Configure(attaching, session) => {
                    lemma_configure_reply(s, attaching, session, reply);
                },
                ReasonView::GiveUp(_, _) => {
                    lemma_attaching_replies(s, reason, reply, id);
                },
                ReasonView::AttachTarget { request, target_id } => {
                    lemma_attach_reply(s, request, target_id, reply);
                },
                _ => {
                    lemma_target_replies(s, reason, reply, id);
                },
            }
        },
        InputView::Launch(_) => {
            lemma_client_steps(s, input);
        },
        InputView::ClientPlatform(_, _, _) => {
            lemma_client_steps(s, input);
        },
        InputView::Client(_, _, _) => {
            lemma_client_steps(s, input);
        },
        InputView::ClientStart(_, _, _) => {
            lemma_client_steps(s, input);
        },
        InputView::Source(_, _, _) => {
            lemma_client_steps(s, input);
        },
        _ => {
            lemma_connection_steps(s, input);
        },
    }
}

/// Each request is answered once: every step that is about a request answers it with one response
/// that names it, or carries it on to the step that follows, or lets it wait for the result of a
/// deferred calculation.
pub proof fn each_request_is_answered_once(s: AdapterView, input: InputView)
    requires
        concerned(input) is Some,
    ensures
        settles(step(s, input), concerned(input)->0),
{
    lemma_step_serves(s, input);
    reveal(serves);
}

proof fn lemma_first_response(messages: Seq<JsonView>)
    requires
        answer_comes_first(messages),
        messages.len() > 0,
    ensures
        responses(messages) == seq![messages[0]],
    decreases messages.len(),
{
    broadcast use lemma_responses_none;

    let before = messages.drop_last();
    assert(messages =~= before.push(messages.last()));
    lemma_responses_push(before, messages.last());
    if before.len() == 0 {
        assert(before =~= Seq::empty());
    } else {
        assert forall|i: int| 0 <= i < before.len() implies (is_response(#[trigger] before[i]) <==> i
            == 0) by {
            assert(before[i] == messages[i]);
        }
        lemma_first_response(before);
    }
}

/// The answer to a request comes before every event of the same step: where a step that is about a
/// request says anything, it says the answer first, and answers nothing else.
pub proof fn the_answer_comes_first(s: AdapterView, input: InputView)
    requires
        concerned(input) is Some,
    ensures
        ({
            let said = messages(step(s, input).1.outputs);
            &&& answer_comes_first(said)
            &&& said.len() > 0 ==> answers(said[0], concerned(input)->0)
        }),
{
    lemma_step_serves(s, input);
    reveal(serves);
    let said = messages(step(s, input).1.outputs);
    if said.len() > 0 {
        lemma_first_response(said);
    }
}

/// Outputs are records, and events with the numbers that follow `first` up to `last`.
#[verifier::opaque]
spec fn told(outputs: Seq<OutputView>, first: int, last: int) -> bool
    decreases outputs.len(),
{
    if outputs.len() == 0 {
        first == last
    } else if outputs.last() is Trace {
        told(outputs.drop_last(), first, last)
    } else {
        is_event(outputs.last(), last) && told(outputs.drop_last(), first, last - 1)
    }
}

broadcast proof fn lemma_told_push(outputs: Seq<OutputView>, output: OutputView, first: int, last: int)
    ensures
        #[trigger] told(outputs.push(output), first, last) == if output is Trace {
            told(outputs, first, last)
        } else {
            is_event(output, last) && told(outputs, first, last - 1)
        },
{
    reveal(told);
    assert(outputs.push(output).drop_last() =~= outputs);
}

broadcast proof fn lemma_told_none(first: int, last: int)
    ensures
        #[trigger] told(Seq::empty(), first, last) == (first == last),
{
    reveal(told);
}

broadcast group group_told {
    lemma_told_push,
    lemma_told_none,
}

proof fn lemma_told(outputs: Seq<OutputView>, first: int, last: int)
    requires
        told(outputs, first, last),
    ensures
        messages(outputs).len() == last - first,
        consecutive(messages(outputs), first),
        responses(messages(outputs)).len() == 0,
    decreases outputs.len(),
{
    reveal(told);
    broadcast use lemma_messages_none;
    broadcast use lemma_responses_none;

    if outputs.len() == 0 {
        assert(outputs =~= Seq::empty());
    } else {
        let before = outputs.drop_last();
        let output = outputs.last();
        assert(outputs =~= before.push(output));
        lemma_messages_push(before, output);
        if output is Trace {
            lemma_told(before, first, last);
        } else {
            lemma_told(before, first, last - 1);
            lemma_responses_push(messages(before), output->Message_0);
        }
    }
}

/// A step puts out nothing but records and events, and carries no request on.
spec fn tells(s: AdapterView, step: (AdapterView, TurnView)) -> bool {
    &&& told(step.1.outputs, s.next_sequence, step.0.next_sequence)
    &&& carried(step.1.next) is None
}

broadcast proof fn lemma_next_event_told(s: AdapterView, name: Seq<char>, body: JsonView)
    ensures
        is_event(#[trigger] adapter::next_event(s, name, body), s.next_sequence + 1),
{
    lemma_next_event(s, name, body);
}

proof fn lemma_ended_tells(s: AdapterView, ending: EndingView, detached: Result<(), Seq<char>>)
    requires
        !(ending is Requested),
    ensures
        tells(s, adapter_session::ended(s, ending, detached)),
{
    broadcast use {group_told, lemma_next_event_told};

    let s2 = adapter_session::closed(s);
    let result = adapter_session::ended(s, ending, detached);
    if !(ending is InputClosed) {
        let first = adapter_session::exit_report(s2, ending);
        match detached {
            Ok(_) => {
                let last = adapter::next_event(
                    adapter::counted(s2, 1),
                    "terminated"@,
                    adapter::no_body(),
                );
                assert(result.1.outputs =~= Seq::empty().push(first).push(last));
            },
            Err(message) => {
                let second = adapter::next_output(
                    adapter::counted(s2, 1),
                    "stderr"@,
                    adapter_session::detach_report(ending, message),
                );
                let last = adapter::next_event(
                    adapter::counted(s2, 2),
                    "terminated"@,
                    adapter::no_body(),
                );
                assert(result.1.outputs =~= Seq::empty().push(first).push(second).push(last));
            },
        }
    }
}

proof fn lemma_ending_tells(s: AdapterView, ending: EndingView)
    requires
        !(ending is Requested),
    ensures
        tells(s, adapter_session::ending_begun(s, ending)),
{
    broadcast use group_told;

    lemma_ended_tells(s, ending, Ok(()));
}

proof fn lemma_poll_tells(s: AdapterView, poll: u64, session: Seq<char>, outcome: Result<PingOutcomeView, Seq<char>>)
    ensures
        tells(s, adapter_polls::poll_ended(s, poll, session, outcome)),
{
    broadcast use {group_told, lemma_next_event_told};

    let result = adapter_polls::poll_ended(s, poll, session, outcome);
    if outcome is Err && result.1.outputs.len() == 2 {
        assert(result.1.outputs =~= Seq::empty().push(result.1.outputs[0]).push(
            result.1.outputs[1],
        ));
    }
}

proof fn lemma_tick_tells(s: AdapterView, report: ProgramReportView)
    ensures
        tells(s, adapter_polls::polled(s, report)),
{
    broadcast use group_told;

    if report.server_exit is Some {
        lemma_ending_tells(s, EndingView::ServerExit(report.server_exit->0));
    } else if report.client_exited {
        let code = match report.client_code {
            Some(code) => code,
            None => (-1int) as i32,
        };
        lemma_ending_tells(s, EndingView::ClientExit(code));
    }
}

proof fn lemma_thread_events_told(s: AdapterView, reason: Seq<char>, thread_id: i64)
    ensures
        told(
            adapter_targets::thread_events(s, reason, thread_id),
            s.next_sequence,
            s.next_sequence + 2,
        ),
{
    broadcast use {group_told, lemma_next_event_told};

    let events = adapter_targets::thread_events(s, reason, thread_id);
    assert(events =~= Seq::empty().push(events[0]).push(events[1]));
}

proof fn lemma_target_events_tell(s: AdapterView, target_id: Seq<char>, rest: Seq<DebugUiEventView>, reply: HttpReplyView)
    ensures
        tells(s, adapter_events::target_started(s, target_id, rest)),
        tells(s, adapter_events::prepare_started_replied(s, target_id, rest, reply)),
        tells(s, adapter_events::attach_started_replied(s, target_id, rest, reply)),
        tells(s, adapter_events::target_quit(s, target_id, rest)),
        tells(s, adapter_events::continue_replied(s, rest, reply)),
{
    broadcast use {group_told, lemma_next_event_told};

    lemma_thread_events_told(s, "started"@, adapter_targets::next_thread(s));
    if ordered::lookup(s.threads, target_id) is Some {
        lemma_thread_events_told(s, "exited"@, ordered::lookup(s.threads, target_id)->0);
    }
}

proof fn lemma_stack_tells(s: AdapterView, target_id: Seq<char>, event: DebugUiEventView, exception: bool, rest: Seq<DebugUiEventView>)
    ensures
        tells(s, adapter_events::stack_formed(s, target_id, event, exception, rest)),
{
    broadcast use {group_told, lemma_next_event_told};

    let result = adapter_events::stack_formed(s, target_id, event, exception, rest);
    let said = adapter_events::event_message(s, event);
    match ordered::lookup(s.threads, target_id) {
        Some(thread_id) => {
            if !event.send_message_only && !event.send_hit_counter_only {
                let after = adapter::counted(s, said.len() as int);
                let record = adapter::thread_record(
                    "rdbg.call_stack.formed"@,
                    thread_id,
                    target_id,
                );
                let stopped = adapter::next_event(
                    after,
                    "stopped"@,
                    adapter_events::stopped_body(
                        adapter_events::stop_reason(event, exception),
                        thread_id,
                    ),
                );
                assert(result.1.outputs =~= said.push(record).push(stopped));
            }
        },
        None => {},
    }
}

/// The first of the events delivers a result that a request waits for.
pub open spec fn delivers(s: AdapterView, events: Seq<DebugUiEventView>) -> bool {
    &&& events.len() > 0
    &&& events[0].command_id == "exprEvaluated"@
    &&& events[0].evaluation is Some
    &&& ordered::lookup(s.pending_evaluations, events[0].evaluation->0.result_id) is Some
}

proof fn lemma_event_tells(s: AdapterView, event: DebugUiEventView, rest: Seq<DebugUiEventView>)
    requires
        !(event.command_id == "exprEvaluated"@ && event.evaluation is Some && ordered::lookup(
            s.pending_evaluations,
            event.evaluation->0.result_id,
        ) is Some),
    ensures
        tells(s, adapter_events::event_handled(s, event, rest)),
{
    broadcast use {group_told, lemma_next_event_told};

    if event.target_id is Some {
        lemma_target_events_tell(s, event.target_id->0, rest, HttpReplyView::Failed);
        lemma_stack_tells(s, event.target_id->0, event, true, rest);
        lemma_stack_tells(s, event.target_id->0, event, false, rest);
    }
}

/// Other names of events than the one of results.
proof fn lemma_event_names()
    ensures
        "exprEvaluated"@ != "targetStarted"@,
        "exprEvaluated"@ != "targetQuit"@,
        "exprEvaluated"@ != "callStackFormed"@,
        "exprEvaluated"@ != "rteProcessing"@,
        "exprEvaluated"@ != "rteOnBPConditionProcessing"@,
{
    reveal_strlit("exprEvaluated");
    reveal_strlit("targetStarted");
    reveal_strlit("targetQuit");
    reveal_strlit("callStackFormed");
    reveal_strlit("rteProcessing");
    reveal_strlit("rteOnBPConditionProcessing");
    assert("exprEvaluated"@[0] == 'e');
    assert("targetStarted"@[0] == 't' && "targetQuit"@[0] == 't' && "callStackFormed"@[0] == 'c');
    assert("rteProcessing"@[0] == 'r' && "rteOnBPConditionProcessing"@[0] == 'r');
}

proof fn lemma_delivery(s: AdapterView, events: Seq<DebugUiEventView>)
    requires
        delivers(s, events),
    ensures
        ({
            let result_id = events[0].evaluation->0.result_id;
            let pending = ordered::lookup(s.pending_evaluations, result_id)->0;
            let result = adapter_events::events_taken(s, events);
            let given = responses(messages(result.1.outputs));
            &&& numbers_messages(s, result)
            &&& given.len() == 1
            &&& answers(given[0], waiting_request(pending))
            &&& carried(result.1.next) is None
            &&& result.0.pending_evaluations == ordered::without(s.pending_evaluations, result_id)
        }),
{
    lemma_event_names();
    let evaluation = events[0].evaluation->0;
    let pending = ordered::lookup(s.pending_evaluations, evaluation.result_id)->0;
    let rest = AdapterView {
        pending_evaluations: ordered::without(s.pending_evaluations, evaluation.result_id),
        ..s
    };
    let answer = adapter_frames::deferred_answer(rest, pending, evaluation);
    let request = waiting_request(pending);
    match pending {
        PendingEvaluationView::Variables { request, reference } => {
            adapter_frames::lemma_listed_bound(rest, reference, evaluation.variables);
            lemma_listed_pending(rest, reference, evaluation.variables);
        },
        PendingEvaluationView::Evaluate { .. } => {},
    }
    let record = adapter::result_record("rdbg.expr.evaluated"@, evaluation.result_id);
    let result = adapter_events::events_taken(s, events);
    let output = answer.1.outputs[0];
    assert(answer.1.outputs =~= seq![output]);
    assert(is_message_for(output, request, s.next_sequence + 1)) by {
        broadcast use {lemma_response, lemma_refusal};

    }
    assert(result.1.outputs =~= Seq::empty().push(record).push(output));
    lemma_messages_push(Seq::empty().push(record), output);
    lemma_messages_push(Seq::empty(), record);
    lemma_responses_push(Seq::empty(), output->Message_0);
    broadcast use {lemma_messages_none, lemma_responses_none};

}

/// An output is the answer to a request, with a number.
spec fn is_message_for(output: OutputView, request: JsonView, sequence: int) -> bool {
    &&& output is Message
    &&& dap::is_message(output->Message_0, sequence, "response"@)
    &&& answers(output->Message_0, request)
}

proof fn lemma_listed_pending(s: AdapterView, parent: VariableReferenceView, variables: Seq<DebugVariableView>)
    ensures
        adapter_frames::listed(s, parent, variables).0.pending_evaluations == s.pending_evaluations,
    decreases variables.len(),
{
    if variables.len() > 0 {
        lemma_listed_pending(s, parent, variables.drop_last());
    }
}

proof fn lemma_unasked_tells(s: AdapterView, input: InputView)
    requires
        concerned(input) is None,
        !(input is Events && delivers(s, input->Events_0)),
    ensures
        tells(s, step(s, input)),
{
    match input {
        InputView::Tick(report) => {
            lemma_tick_tells(s, report);
        },
        InputView::Poll(poll, session, outcome) => {
            lemma_poll_tells(s, poll, session, outcome);
        },
        InputView::InputClosed => {
            lemma_ending_tells(s, EndingView::InputClosed);
        },
        InputView::Events(events) => {
            broadcast use group_told;

            if events.len() > 0 {
                lemma_event_tells(s, events[0], events.skip(1));
            }
        },
        InputView::Reply(reason, reply, id) => {
            match reason {
                ReasonView::Detach(ending) => {
                    lemma_ended_tells(
                        s,
                        ending,
                        debug_server::acknowledged("detachDebugUI"@, reply),
                    );
                },
                ReasonView::PrepareStarted { target_id, rest } => {
                    lemma_target_events_tell(s, target_id, rest, reply);
                },
                ReasonView::AttachStarted { target_id, rest } => {
                    lemma_target_events_tell(s, target_id, rest, reply);
                },
                ReasonView::ContinueAfterMessage { rest } => {
                    lemma_target_events_tell(s, Seq::empty(), rest, reply);
                },
                _ => {},
            }
        },
        _ => {},
    }
}

/// The messages of the adapter are numbered one after the other, whatever its input.
pub proof fn messages_are_numbered(s: AdapterView, input: InputView)
    ensures
        numbers_messages(s, step(s, input)),
{
    if concerned(input) is Some {
        lemma_step_serves(s, input);
        reveal(serves);
    } else if input is Events && delivers(s, input->Events_0) {
        lemma_delivery(s, input->Events_0);
    } else {
        lemma_unasked_tells(s, input);
        lemma_told(step(s, input).1.outputs, s.next_sequence, step(s, input).0.next_sequence);
    }
}

/// Without a request nothing is answered, but for a request that waits for the result that
/// arrives: that one is answered, once, and waits no longer.
pub proof fn only_waiting_requests_are_answered_later(s: AdapterView, input: InputView)
    requires
        concerned(input) is None,
        ordered::sorted::<String, PendingEvaluationView>(s.pending_evaluations),
    ensures
        carried(step(s, input).1.next) is None,
        input is Events && delivers(s, input->Events_0) ==> {
            let result_id = input->Events_0[0].evaluation->0.result_id;
            let pending = ordered::lookup(s.pending_evaluations, result_id)->0;
            let given = responses(messages(step(s, input).1.outputs));
            &&& given.len() == 1
            &&& answers(given[0], waiting_request(pending))
            &&& ordered::lookup(step(s, input).0.pending_evaluations, result_id) is None
        },
        !(input is Events && delivers(s, input->Events_0)) ==> responses(
            messages(step(s, input).1.outputs),
        ).len() == 0,
{
    if input is Events && delivers(s, input->Events_0) {
        let result_id = input->Events_0[0].evaluation->0.result_id;
        lemma_delivery(s, input->Events_0);
        ordered::lemma_without::<String, PendingEvaluationView>(s.pending_evaluations, result_id);
    } else {
        lemma_unasked_tells(s, input);
        lemma_told(step(s, input).1.outputs, s.next_sequence, step(s, input).0.next_sequence);
    }
}

/// A request does not depend on whether a poll is under way: it never waits for one.
pub proof fn requests_do_not_wait_for_polls(s: AdapterView, poll: Option<u64>, request: JsonView, id: Seq<char>)
    ensures
        adapter_requests::handled(AdapterView { active_poll: poll, ..s }, request, id).1
            == adapter_requests::handled(s, request, id).1,
{
}

/// A connection that fails leaves the state as it was, but for the numbers of its messages: only
/// the last reply, to the configuration of a session, begins one.
pub proof fn only_a_configured_session_begins(s: AdapterView, input: InputView)
    requires
        input is Arguments || input is Sources || input is InfoBase || input is Platform
            || input is DebugServer || input is Port || (input matches InputView::Reply(reason, _, _)
            && (reason is Test || reason is Register || reason is GiveUp)),
    ensures
        step(s, input).0 == adapter::counted(s, messages(step(s, input).1.outputs).len() as int),
{
    messages_are_numbered(s, input);
}

} // verus!
