//! What the requests of the client make the adapter ask of the debug server.

use crate::adapter::{AdapterView, ReasonView, TurnView, VariableReferenceView};
use crate::adapter_frames;
use crate::adapter_requests;
use crate::debug_requests;
use crate::debug_server;
use crate::debug_server::HttpRequestView;
use crate::debug_types::{
    CalculationPathItemView, DebugUiSessionView, EvaluationInterface, StepAction,
};
use crate::json;
use crate::json::JsonView;
use crate::number;
use crate::ordered;
use crate::reading;
use crate::text;
use crate::xml;
use vstd::prelude::*;

verus! {

/// A request has a command.
pub open spec fn commands(request: JsonView, command: Seq<char>) -> bool {
    json::field(request, "command"@) == JsonView::Str(command)
}

/// A request has an argument.
pub open spec fn gives(request: JsonView, name: Seq<char>, value: JsonView) -> bool {
    json::field(json::field(request, "arguments"@), name) == value
}

/// A session is attached.
pub open spec fn is_attached(s: AdapterView) -> bool {
    s.debug_server is Some && s.debug_session is Some
}

/// A thread number belongs to the target at a place, and to no other.
pub open spec fn is_thread(s: AdapterView, thread_id: i64, k: int) -> bool {
    &&& 0 <= k < s.threads.len()
    &&& forall|i: int|
        0 <= i < s.threads.len() ==> ((#[trigger] s.threads[i]).1 == thread_id <==> i == k)
}

/// A turn sends a command of the remote-debug API.
pub open spec fn sends(turn: TurnView, server: Seq<char>, command: Seq<char>) -> bool {
    &&& turn.next is Send
    &&& sent(turn).url == server + "/rdbg?cmd="@ + command
    &&& sent(turn).content_type == Some("application/xml; charset=utf-8"@)
    &&& sent(turn).body is Some
    &&& sent(turn).timeout_ms is None
    &&& !turn.stop_programs
}

pub open spec fn sent(turn: TurnView) -> HttpRequestView {
    turn.next->Send_0
}

/// What a turn sends holds a text.
pub open spec fn sends_text(turn: TurnView, part: Seq<char>) -> bool {
    reading::holds(sent(turn).body->0, part)
}

/// The element that names a target.
pub open spec fn target_text(target_id: Seq<char>) -> Seq<char> {
    "<targetID><id xmlns=\"http://v8.1c.ru/8.3/debugger/debugBaseData\">"@ + xml::escaped(target_id)
        + "</id></targetID>"@
}

/// The element that names a stack level.
pub open spec fn level_text(level: int) -> Seq<char> {
    "<stackLevel xmlns=\"http://v8.1c.ru/8.3/debugger/debugCalculations\">"@ + number::decimal(level)
        + "</stackLevel>"@
}

/// The elements that name the infobase and the Debug UI of a session.
pub open spec fn session_text(session: DebugUiSessionView) -> Seq<char> {
    "<infoBaseAlias>"@ + xml::escaped(session.info_base_alias) + "</infoBaseAlias><idOfDebuggerUI>"@
        + xml::escaped(session.id) + "</idOfDebuggerUI>"@
}

pub proof fn lemma_target_of(threads: Seq<(Seq<char>, i64)>, thread_id: i64, k: int)
    requires
        0 <= k < threads.len(),
        forall|i: int|
            0 <= i < threads.len() ==> ((#[trigger] threads[i]).1 == thread_id <==> i == k),
    ensures
        adapter_frames::target_of(threads, thread_id) == Some(threads[k].0),
    decreases threads.len(),
{
    assert(threads[0].1 == thread_id <==> 0 == k);
    if k > 0 {
        let rest = threads.skip(1);
        assert forall|i: int| 0 <= i < rest.len() implies ((#[trigger] rest[i]).1 == thread_id <==> i
            == k - 1) by {
            assert(rest[i] == threads[i + 1]);
        }
        lemma_target_of(rest, thread_id, k - 1);
    }
}

/// The commands of requests are told apart.
pub proof fn lemma_commands()
    ensures
        "initialize"@.len() == 10 && "initialize"@[0] == 'i',
        "launch"@.len() == 6 && "launch"@[0] == 'l',
        "attach"@.len() == 6 && "attach"@[0] == 'a',
        "configurationDone"@.len() == 17,
        "threads"@.len() == 7 && "threads"@[0] == 't',
        "stackTrace"@.len() == 10 && "stackTrace"@[0] == 's',
        "scopes"@.len() == 6 && "scopes"@[0] == 's' && "scopes"@[1] == 'c',
        "variables"@.len() == 9 && "variables"@[0] == 'v',
        "continue"@.len() == 8 && "continue"@[0] == 'c',
        "next"@.len() == 4,
        "stepIn"@.len() == 6 && "stepIn"@[0] == 's' && "stepIn"@[1] == 't',
        "stepOut"@.len() == 7 && "stepOut"@[0] == 's',
        "pause"@.len() == 5,
        "setBreakpoints"@.len() == 14,
        "setExceptionBreakpoints"@.len() == 23,
        "SetAutoAttachTargetTypesRequest"@.len() == 31,
        "DebugTargetsRequest"@.len() == 19,
        "AttachDebugTargetRequest"@.len() == 24,
        "evaluate"@.len() == 8 && "evaluate"@[0] == 'e',
        "disconnect"@.len() == 10 && "disconnect"@[0] == 'd',
        "terminate"@.len() == 9 && "terminate"@[0] == 't',
{
    reveal_strlit("initialize");
    reveal_strlit("launch");
    reveal_strlit("attach");
    reveal_strlit("configurationDone");
    reveal_strlit("threads");
    reveal_strlit("stackTrace");
    reveal_strlit("scopes");
    reveal_strlit("variables");
    reveal_strlit("continue");
    reveal_strlit("next");
    reveal_strlit("stepIn");
    reveal_strlit("stepOut");
    reveal_strlit("pause");
    reveal_strlit("setBreakpoints");
    reveal_strlit("setExceptionBreakpoints");
    reveal_strlit("SetAutoAttachTargetTypesRequest");
    reveal_strlit("DebugTargetsRequest");
    reveal_strlit("AttachDebugTargetRequest");
    reveal_strlit("evaluate");
    reveal_strlit("disconnect");
    reveal_strlit("terminate");
}

/// A request of the remote-debug API holds its content, and names its session.
pub proof fn lemma_request(session: DebugUiSessionView, content: Seq<char>)
    ensures
        reading::holds(debug_requests::request(session, content), content),
        reading::holds(debug_requests::request(session, content), session_text(session)),
{
    broadcast use reading::group_holds;

    let head = "<?xml version=\"1.0\" encoding=\"utf-8\"?>"@ + debug_requests::opening(
        "request"@,
        debug_requests::RDBG_REQUEST_NAMESPACE@,
    );
    assert(debug_requests::request_head(session) =~= head + session_text(session));
}

pub proof fn lemma_target(target_id: Seq<char>)
    ensures
        debug_requests::target_element(target_id) == target_text(target_id),
{
    reveal_strlit("<targetID>");
    reveal_strlit("<");
    reveal_strlit("id");
    reveal_strlit(" xmlns=\"");
    reveal_strlit("http://v8.1c.ru/8.3/debugger/debugBaseData");
    reveal_strlit("\">");
    reveal_strlit("<targetID><id xmlns=\"http://v8.1c.ru/8.3/debugger/debugBaseData\">");
    assert("<targetID>"@ + debug_requests::opening("id"@, debug_requests::DEBUG_BASE_NAMESPACE@)
        =~= "<targetID><id xmlns=\"http://v8.1c.ru/8.3/debugger/debugBaseData\">"@);
}

/// A command with a content is sent, and names the session.
pub proof fn lemma_post(server: Seq<char>, command: Seq<char>, session: DebugUiSessionView, content: Seq<char>, turn: TurnView)
    requires
        turn.next is Send,
        !turn.stop_programs,
        sent(turn) == debug_server::post(
            server,
            command,
            debug_requests::request(session, content),
        ),
    ensures
        sends(turn, server, command),
        sends_text(turn, content),
        sends_text(turn, session_text(session)),
{
    lemma_request(session, content);
}

/// What holds a text holds what that text holds.
pub proof fn lemma_holds_within(whole: Seq<char>, middle: Seq<char>, part: Seq<char>)
    requires
        reading::holds(whole, middle),
        reading::holds(middle, part),
    ensures
        reading::holds(whole, part),
{
    reveal(reading::holds);
    let i = choose|i: int|
        0 <= i && i + middle.len() <= whole.len() && #[trigger] whole.subrange(i, i + middle.len())
            == middle;
    let k = choose|k: int|
        0 <= k && k + part.len() <= middle.len() && #[trigger] middle.subrange(k, k + part.len())
            == part;
    let at = i + k;
    assert(whole.subrange(at, at + part.len()) =~= middle.subrange(k, k + part.len())) by {
        assert forall|j: int| 0 <= j < part.len() implies #[trigger] whole.subrange(at, at + part.len())[j]
            == middle.subrange(k, k + part.len())[j] by {
            assert(middle[k + j] == whole.subrange(i, i + middle.len())[k + j]);
        }
    }
}

/// The action that a step of a kind asks for.
pub proof fn lemma_action(target_id: Seq<char>, action: StepAction)
    ensures
        ({
            let content = debug_requests::step_content(target_id, action);
            &&& reading::holds(content, target_text(target_id))
            &&& action is Continue ==> reading::holds(content, "<action>Continue</action>"@)
            &&& action is Next ==> reading::holds(content, "<action>Step</action>"@)
            &&& action is StepIn ==> reading::holds(content, "<action>StepIn</action>"@)
            &&& action is StepOut ==> reading::holds(content, "<action>StepOut</action>"@)
        }),
{
    broadcast use reading::group_holds;

    lemma_target(target_id);
    let content = debug_requests::step_content(target_id, action);
    let target = target_text(target_id);
    reveal_strlit("<action>");
    reveal_strlit("</action><simple>false</simple>");
    reveal_strlit("<simple>false</simple>");
    reveal_strlit("Continue");
    reveal_strlit("Step");
    reveal_strlit("StepIn");
    reveal_strlit("StepOut");
    reveal_strlit("<action>Continue</action>");
    reveal_strlit("<action>Step</action>");
    reveal_strlit("<action>StepIn</action>");
    reveal_strlit("<action>StepOut</action>");
    match action {
        StepAction::Continue => {
            assert(content =~= target + "<action>Continue</action>"@ + "<simple>false</simple>"@);
        },
        StepAction::Next => {
            assert(content =~= target + "<action>Step</action>"@ + "<simple>false</simple>"@);
        },
        StepAction::StepIn => {
            assert(content =~= target + "<action>StepIn</action>"@ + "<simple>false</simple>"@);
        },
        StepAction::StepOut => {
            assert(content =~= target + "<action>StepOut</action>"@ + "<simple>false</simple>"@);
        },
    }
}

/// A step of a thread is sent: it names the thread's target and the action, and changes nothing
/// before the reply.
pub open spec fn sends_step(s: AdapterView, step: (AdapterView, TurnView), target_id: Seq<char>, action: Seq<char>) -> bool {
    &&& step.0 == s
    &&& sends(step.1, s.debug_server->0, "step"@)
    &&& sends_text(step.1, session_text(s.debug_session->0))
    &&& sends_text(step.1, target_text(target_id))
    &&& sends_text(step.1, action)
}

/// `continue`, `next`, `stepIn` and `stepOut` let the target of the named thread go on in the way
/// that they are named for.
pub proof fn steps_are_sent_as_they_are_asked_for(s: AdapterView, request: JsonView, id: Seq<char>, thread_id: i64, k: int)
    requires
        is_attached(s),
        gives(request, "threadId"@, JsonView::Integer(thread_id as int)),
        is_thread(s, thread_id, k),
    ensures
        ({
            let step = adapter_requests::handled(s, request, id);
            let target_id = s.threads[k].0;
            &&& commands(request, "continue"@) ==> sends_step(
                s,
                step,
                target_id,
                "<action>Continue</action>"@,
            )
            &&& commands(request, "next"@) ==> sends_step(
                s,
                step,
                target_id,
                "<action>Step</action>"@,
            )
            &&& commands(request, "stepIn"@) ==> sends_step(
                s,
                step,
                target_id,
                "<action>StepIn</action>"@,
            )
            &&& commands(request, "stepOut"@) ==> sends_step(
                s,
                step,
                target_id,
                "<action>StepOut</action>"@,
            )
        }),
{
    lemma_commands();
    lemma_target_of(s.threads, thread_id, k);
    let target_id = s.threads[k].0;
    let command = adapter_requests::command_of(request);
    if command == "continue"@ || command == "next"@ || command == "stepIn"@ || command
        == "stepOut"@ {
        let action = if command == "continue"@ {
            StepAction::Continue
        } else if command == "next"@ {
            StepAction::Next
        } else if command == "stepIn"@ {
            StepAction::StepIn
        } else {
            StepAction::StepOut
        };
        let turn = adapter_requests::handled(s, request, id).1;
        let content = debug_requests::step_content(target_id, action);
        lemma_action(target_id, action);
        lemma_post(s.debug_server->0, "step"@, s.debug_session->0, content, turn);
        let body = sent(turn).body->0;
        lemma_holds_within(body, content, target_text(target_id));
        if action is Continue {
            lemma_holds_within(body, content, "<action>Continue</action>"@);
        } else if action is Next {
            lemma_holds_within(body, content, "<action>Step</action>"@);
        } else if action is StepIn {
            lemma_holds_within(body, content, "<action>StepIn</action>"@);
        } else {
            lemma_holds_within(body, content, "<action>StepOut</action>"@);
        }
    }
}

/// The element that names the identifier of a result.
pub open spec fn result_text(result_id: Seq<char>) -> Seq<char> {
    "<expressionResultID>"@ + result_id + "</expressionResultID>"@
}

/// The element that names what is calculated of a value.
pub open spec fn interface_text(interface: EvaluationInterface) -> Seq<char> {
    match interface {
        EvaluationInterface::Context => "<interfaces>context</interfaces>"@,
        EvaluationInterface::Collection => "<interfaces>collection</interfaces>"@,
    }
}

/// The elements that name an item of a calculation path.
pub open spec fn item_text(item: CalculationPathItemView) -> Seq<char> {
    match item {
        CalculationPathItemView::Expression(expression) =>
            "<itemType>expression</itemType><expression>"@ + xml::escaped(expression)
            + "</expression><property></property>"@,
        CalculationPathItemView::Property(property) =>
            "<itemType>property</itemType><expression></expression><property>"@ + xml::escaped(
            property,
        ) + "</property>"@,
        CalculationPathItemView::Index(index) =>
            "<itemType>index</itemType><expression></expression><property></property><index>"@
            + number::decimal(index as int) + "</index>"@,
    }
}

proof fn lemma_item(item: CalculationPathItemView)
    ensures
        debug_requests::path_element(item) == "<calcItem>"@ + item_text(item) + "</calcItem>"@,
{
    reveal_strlit("<calcItem>");
    reveal_strlit("</calcItem>");
    match item {
        CalculationPathItemView::Expression(_) => {
            reveal_strlit("<itemType>expression</itemType><expression>");
            reveal_strlit("<calcItem><itemType>expression</itemType><expression>");
            reveal_strlit("</expression><property></property>");
            reveal_strlit("</expression><property></property></calcItem>");
        },
        CalculationPathItemView::Property(_) => {
            reveal_strlit("<itemType>property</itemType><expression></expression><property>");
            reveal_strlit("<calcItem><itemType>property</itemType><expression></expression><property>");
            reveal_strlit("</property>");
            reveal_strlit("</property></calcItem>");
        },
        CalculationPathItemView::Index(_) => {
            reveal_strlit(
                "<itemType>index</itemType><expression></expression><property></property><index>",
            );
            reveal_strlit(
                "<calcItem><itemType>index</itemType><expression></expression><property></property><index>",
            );
            reveal_strlit("</index>");
            reveal_strlit("</index></calcItem>");
        },
    }
    assert(debug_requests::path_element(item) =~= "<calcItem>"@ + item_text(item) + "</calcItem>"@);
}

/// The items of a calculation path follow each other, each in an element of its own.
pub proof fn path_items_follow_each_other(path: Seq<CalculationPathItemView>, item: CalculationPathItemView)
    ensures
        debug_requests::path_elements(Seq::empty()) == Seq::<char>::empty(),
        debug_requests::path_elements(path.push(item)) == debug_requests::path_elements(path)
            + "<calcItem>"@ + item_text(item) + "</calcItem>"@,
{
    let f = |item: CalculationPathItemView| debug_requests::path_element(item);
    assert(Seq::<CalculationPathItemView>::empty().map_values(f) =~= Seq::empty());
    assert(path.push(item).map_values(f) =~= path.map_values(f).push(
        debug_requests::path_element(item),
    ));
    assert(path.map_values(f).push(debug_requests::path_element(item)).drop_last()
        =~= path.map_values(f));
    lemma_item(item);
    assert(debug_requests::path_elements(path) + ("<calcItem>"@ + item_text(item) + "</calcItem>"@)
        =~= debug_requests::path_elements(path) + "<calcItem>"@ + item_text(item) + "</calcItem>"@);
}

proof fn lemma_path_holds(path: Seq<CalculationPathItemView>, i: int)
    requires
        0 <= i < path.len(),
    ensures
        reading::holds(debug_requests::path_elements(path), item_text(path[i])),
    decreases path.len(),
{
    broadcast use reading::group_holds;

    let before = path.drop_last();
    assert(path =~= before.push(path.last()));
    path_items_follow_each_other(before, path.last());
    if i < before.len() {
        lemma_path_holds(before, i);
        assert(before[i] == path[i]);
    }
}

proof fn lemma_interface(interface: EvaluationInterface)
    ensures
        "<interfaces>"@ + debug_requests::interface_name(interface) + "</interfaces></srcCalcInfo>"@
            == interface_text(interface) + "</srcCalcInfo>"@,
{
    reveal_strlit("<interfaces>");
    reveal_strlit("context");
    reveal_strlit("collection");
    reveal_strlit("</interfaces></srcCalcInfo>");
    reveal_strlit("<interfaces>context</interfaces>");
    reveal_strlit("<interfaces>collection</interfaces>");
    reveal_strlit("</srcCalcInfo>");
    assert("<interfaces>"@ + debug_requests::interface_name(interface)
        + "</interfaces></srcCalcInfo>"@ =~= interface_text(interface) + "</srcCalcInfo>"@);
}

/// A calculation names its target, the stack level, its result, its items and the interface.
proof fn lemma_calculation(target_id: Seq<char>, level: int, result_id: Seq<char>, items: Seq<char>, interface: EvaluationInterface)
    requires
        0 <= level,
    ensures
        ({
            let content = debug_requests::calculation_content(
                target_id,
                level,
                result_id,
                items,
                debug_requests::interface_name(interface),
            );
            &&& reading::holds(content, target_text(target_id))
            &&& reading::holds(content, level_text(level))
            &&& reading::holds(content, result_text(result_id))
            &&& reading::holds(content, items)
            &&& reading::holds(content, interface_text(interface))
        }),
{
    broadcast use reading::group_holds;

    lemma_target(target_id);
    lemma_interface(interface);
    reveal_strlit("<");
    reveal_strlit("stackLevel");
    reveal_strlit(" xmlns=\"");
    reveal_strlit("http://v8.1c.ru/8.3/debugger/debugCalculations");
    reveal_strlit("\">");
    reveal_strlit("<stackLevel xmlns=\"http://v8.1c.ru/8.3/debugger/debugCalculations\">");
    let namespace = debug_requests::DEBUG_CALCULATIONS_NAMESPACE@;
    let open_level = debug_requests::opening("stackLevel"@, namespace);
    assert(open_level =~= "<stackLevel xmlns=\"http://v8.1c.ru/8.3/debugger/debugCalculations\">"@);
    let open_info = debug_requests::opening("srcCalcInfo"@, namespace);
    let open_options = debug_requests::opening("presOptions"@, namespace);
    let tail = "<maxTextSize>307200</maxTextSize><stopOnFirstEOL>false</stopOnFirstEOL></presOptions></expr>"@;
    let head = "<calcWaitingTime>100</calcWaitingTime>"@ + target_text(target_id) + "<expr>"@;
    let a = head + level_text(level);
    assert(head + open_level + number::decimal(level) + "</stackLevel>"@ =~= a);
    let b = a + open_info + result_text(result_id);
    assert(a + open_info + "<expressionResultID>"@ + result_id + "</expressionResultID>"@ =~= b);
    let name = debug_requests::interface_name(interface);
    let c = b + items + (interface_text(interface) + "</srcCalcInfo>"@);
    assert(b + items + "<interfaces>"@ + name + "</interfaces></srcCalcInfo>"@ =~= c);
    assert(debug_requests::calculation_content(target_id, level, result_id, items, name) == c
        + open_options + tail);
}

/// A calculation in a stack frame is sent: it names the target, the level, and the result that it
/// is delivered under, and changes nothing before the reply.
pub open spec fn sends_calculation(
    s: AdapterView,
    step: (AdapterView, TurnView),
    command: Seq<char>,
    target_id: Seq<char>,
    level: int,
    result_id: Seq<char>,
    interface: EvaluationInterface,
) -> bool {
    &&& step.0 == s
    &&& sends(step.1, s.debug_server->0, command)
    &&& sends_text(step.1, session_text(s.debug_session->0))
    &&& sends_text(step.1, target_text(target_id))
    &&& sends_text(step.1, level_text(level))
    &&& sends_text(step.1, result_text(result_id))
    &&& sends_text(step.1, interface_text(interface))
}

proof fn lemma_sends_calculation(
    s: AdapterView,
    step: (AdapterView, TurnView),
    command: Seq<char>,
    target_id: Seq<char>,
    level: int,
    result_id: Seq<char>,
    items: Seq<char>,
    interface: EvaluationInterface,
)
    requires
        step.0 == s,
        step.1.next is Send,
        !step.1.stop_programs,
        0 <= level,
        sent(step.1) == debug_server::post(
            s.debug_server->0,
            command,
            debug_requests::request(
                s.debug_session->0,
                debug_requests::calculation_content(
                    target_id,
                    level,
                    result_id,
                    items,
                    debug_requests::interface_name(interface),
                ),
            ),
        ),
    ensures
        sends_calculation(s, step, command, target_id, level, result_id, interface),
        sends_text(step.1, items),
{
    let content = debug_requests::calculation_content(
        target_id,
        level,
        result_id,
        items,
        debug_requests::interface_name(interface),
    );
    lemma_calculation(target_id, level, result_id, items, interface);
    lemma_post(s.debug_server->0, command, s.debug_session->0, content, step.1);
    let body = sent(step.1).body->0;
    lemma_holds_within(body, content, target_text(target_id));
    lemma_holds_within(body, content, level_text(level));
    lemma_holds_within(body, content, result_text(result_id));
    lemma_holds_within(body, content, interface_text(interface));
    lemma_holds_within(body, content, items);
}

/// `evaluate` calculates the expression in the frame whose identifier it is given: the debug server
/// is asked for the level that this frame has in the stack of its thread, and the same level is
/// kept for the reply.
pub proof fn expressions_are_evaluated_in_their_frame(
    s: AdapterView,
    request: JsonView,
    id: Seq<char>,
    thread_id: i64,
    level: int,
    k: int,
    expression: Seq<char>,
)
    requires
        commands(request, "evaluate"@),
        is_attached(s),
        is_thread(s, thread_id, k),
        1 <= thread_id,
        thread_id * 1_000_000 + level + 1 <= i64::MAX,
        0 <= level < 999_999,
        gives(request, "frameId"@, JsonView::Integer(thread_id * 1_000_000 + level + 1)),
        gives(request, "expression"@, JsonView::Str(expression)),
        text::trim(expression).len() > 0,
        ordered::lookup(s.call_stacks, thread_id) is Some,
        level < ordered::lookup(s.call_stacks, thread_id)->0.len(),
    ensures
        ({
            let step = adapter_requests::handled(s, request, id);
            &&& sends_calculation(
                s,
                step,
                "evalExpr"@,
                s.threads[k].0,
                level,
                id,
                EvaluationInterface::Context,
            )
            &&& sends_text(
                step.1,
                "<itemType>expression</itemType><expression>"@ + xml::escaped(expression)
                    + "</expression>"@,
            )
            &&& step.1.next->Send_1 == (ReasonView::Evaluate {
                request,
                thread_id,
                stack_level: level as i64,
                expression,
                result_id: id,
            })
        }),
{
    lemma_commands();
    lemma_target_of(s.threads, thread_id, k);
    adapter_frames::frame_identifiers_lead_back(s.call_stacks, thread_id, level);
    assert(adapter_frames::frame_id(thread_id, level) == thread_id * 1_000_000 + level + 1);
    let step = adapter_requests::handled(s, request, id);
    let path = seq![CalculationPathItemView::Expression(expression)];
    let items = debug_requests::path_elements(path);
    lemma_sends_calculation(
        s,
        step,
        "evalExpr"@,
        s.threads[k].0,
        level,
        id,
        items,
        EvaluationInterface::Context,
    );
    lemma_path_holds(path, 0);
    lemma_holds_within(sent(step.1).body->0, items, item_text(path[0]));
    let part = "<itemType>expression</itemType><expression>"@ + xml::escaped(expression)
        + "</expression>"@;
    reveal_strlit("</expression><property></property>");
    reveal_strlit("</expression>");
    reveal_strlit("<property></property>");
    assert(item_text(path[0]) =~= part + "<property></property>"@);
    assert(reading::holds(item_text(path[0]), part)) by {
        broadcast use reading::group_holds;

    }
    lemma_holds_within(sent(step.1).body->0, item_text(path[0]), part);
}

/// `variables` asks for what the reference stands for: the local variables of its frame, or the
/// value that its path leads to, item by item, in the frame that it was shown in.
pub proof fn variables_are_asked_for_where_they_were_shown(
    s: AdapterView,
    request: JsonView,
    id: Seq<char>,
    number: i64,
    k: int,
)
    requires
        commands(request, "variables"@),
        is_attached(s),
        gives(request, "variablesReference"@, JsonView::Integer(number as int)),
        ordered::lookup(s.variable_references, number) is Some,
        match ordered::lookup(s.variable_references, number)->0 {
            VariableReferenceView::Locals { thread_id, stack_level } => is_thread(s, thread_id, k)
                && stack_level >= 0,
            VariableReferenceView::Value { thread_id, stack_level, path, .. } => is_thread(
                s,
                thread_id,
                k,
            ) && stack_level >= 0 && path.len() > 0,
        },
    ensures
        ({
            let step = adapter_requests::handled(s, request, id);
            let target_id = s.threads[k].0;
            match ordered::lookup(s.variable_references, number)->0 {
                VariableReferenceView::Locals { stack_level, .. } => sends_calculation(
                    s,
                    step,
                    "evalLocalVariables"@,
                    target_id,
                    stack_level as int,
                    id,
                    EvaluationInterface::Context,
                ),
                VariableReferenceView::Value { stack_level, path, interface, .. } => {
                    &&& sends_calculation(
                        s,
                        step,
                        "evalExpr"@,
                        target_id,
                        stack_level as int,
                        id,
                        interface,
                    )
                    &&& forall|i: int|
                        0 <= i < path.len() ==> sends_text(step.1, item_text(#[trigger] path[i]))
                },
            }
        }),
        adapter_requests::handled(s, request, id).1.next->Send_1 == (ReasonView::Variables {
            request,
            reference: ordered::lookup(s.variable_references, number)->0,
            result_id: id,
        }),
{
    lemma_commands();
    let step = adapter_requests::handled(s, request, id);
    let target_id = s.threads[k].0;
    match ordered::lookup(s.variable_references, number)->0 {
        VariableReferenceView::Locals { thread_id, stack_level } => {
            lemma_target_of(s.threads, thread_id, k);
            lemma_sends_calculation(
                s,
                step,
                "evalLocalVariables"@,
                target_id,
                stack_level as int,
                id,
                Seq::empty(),
                EvaluationInterface::Context,
            );
        },
        VariableReferenceView::Value { thread_id, stack_level, path, interface } => {
            lemma_target_of(s.threads, thread_id, k);
            let items = debug_requests::path_elements(path);
            lemma_sends_calculation(
                s,
                step,
                "evalExpr"@,
                target_id,
                stack_level as int,
                id,
                items,
                interface,
            );
            assert forall|i: int| 0 <= i < path.len() implies sends_text(
                step.1,
                item_text(#[trigger] path[i]),
            ) by {
                lemma_path_holds(path, i);
                lemma_holds_within(sent(step.1).body->0, items, item_text(path[i]));
            }
        },
    }
}

/// A step is sent with its target and its action, and is not a simple one.
pub proof fn steps_are_written_in_full(target_id: Seq<char>)
    ensures
        debug_requests::step_content(target_id, StepAction::Continue) == target_text(target_id)
            + "<action>Continue</action>"@ + "<simple>false</simple>"@,
        debug_requests::step_content(target_id, StepAction::Next) == target_text(target_id)
            + "<action>Step</action>"@ + "<simple>false</simple>"@,
        debug_requests::step_content(target_id, StepAction::StepIn) == target_text(target_id)
            + "<action>StepIn</action>"@ + "<simple>false</simple>"@,
        debug_requests::step_content(target_id, StepAction::StepOut) == target_text(target_id)
            + "<action>StepOut</action>"@ + "<simple>false</simple>"@,
{
    lemma_target(target_id);
    reveal_strlit("<action>");
    reveal_strlit("</action><simple>false</simple>");
    reveal_strlit("<simple>false</simple>");
    reveal_strlit("Continue");
    reveal_strlit("Step");
    reveal_strlit("StepIn");
    reveal_strlit("StepOut");
    reveal_strlit("<action>Continue</action>");
    reveal_strlit("<action>Step</action>");
    reveal_strlit("<action>StepIn</action>");
    reveal_strlit("<action>StepOut</action>");
    let target = target_text(target_id);
    assert(debug_requests::step_content(target_id, StepAction::Continue) =~= target
        + "<action>Continue</action>"@ + "<simple>false</simple>"@);
    assert(debug_requests::step_content(target_id, StepAction::Next) =~= target
        + "<action>Step</action>"@ + "<simple>false</simple>"@);
    assert(debug_requests::step_content(target_id, StepAction::StepIn) =~= target
        + "<action>StepIn</action>"@ + "<simple>false</simple>"@);
    assert(debug_requests::step_content(target_id, StepAction::StepOut) =~= target
        + "<action>StepOut</action>"@ + "<simple>false</simple>"@);
}

/// A negative stack level stands for the topmost frame.
pub proof fn negative_levels_are_the_topmost(target_id: Seq<char>, level: int, result_id: Seq<char>, items: Seq<char>, interface: Seq<char>)
    requires
        level < 0,
    ensures
        debug_requests::calculation_content(target_id, level, result_id, items, interface)
            == debug_requests::calculation_content(target_id, 0, result_id, items, interface),
{
}

/// Targets are attached or detached, each by its identifier, one after the other.
pub proof fn targets_are_attached_or_detached(ids: Seq<Seq<char>>, last: Seq<char>)
    ensures
        debug_requests::debug_target_content(true, ids) == "<attach>true</attach>"@
            + debug_requests::target_items(ids),
        debug_requests::debug_target_content(false, ids) == "<attach>false</attach>"@
            + debug_requests::target_items(ids),
        debug_requests::target_items(Seq::empty()) == Seq::<char>::empty(),
        debug_requests::target_items(ids.push(last)) == debug_requests::target_items(ids)
            + debug_requests::target_item(last),
{
    reveal_strlit("<attach>");
    reveal_strlit("true");
    reveal_strlit("false");
    reveal_strlit("</attach>");
    reveal_strlit("<attach>true</attach>");
    reveal_strlit("<attach>false</attach>");
    assert("<attach>"@ + "true"@ + "</attach>"@ =~= "<attach>true</attach>"@);
    assert("<attach>"@ + "false"@ + "</attach>"@ =~= "<attach>false</attach>"@);
    let f = |id: Seq<char>| debug_requests::target_item(id);
    assert(Seq::<Seq<char>>::empty().map_values(f) =~= Seq::empty());
    assert(ids.push(last).map_values(f) =~= ids.map_values(f).push(
        debug_requests::target_item(last),
    ));
    assert(ids.map_values(f).push(debug_requests::target_item(last)).drop_last()
        =~= ids.map_values(f));
}

} // verus!
