//! How targets are listed, attached and let go on.

use crate::adapter;
use crate::adapter::{AdapterView, EndingView, ReasonView, TurnView};
use crate::adapter_frames;
use crate::adapter_invariant;
use crate::adapter_requests;
use crate::adapter_targets;
use crate::answer_laws;
use crate::debug_requests;
use crate::debug_server;
use crate::debug_server::HttpReplyView;
use crate::debug_types::{DebugTargetView, StepAction};
use crate::event_laws;
use crate::json;
use crate::json::JsonView;
use crate::number;
use crate::ordered;
use crate::reading;
use crate::request_laws;
use crate::text;
use vstd::prelude::*;

verus! {

/// The kinds of targets are told apart.
proof fn lemma_kinds()
    ensures
        "Unknown"@.len() == 7,
        "Client"@.len() == 6 && "Client"@[0] == 'C',
        "ManagedClient"@.len() == 13,
        "WEBClient"@.len() == 9 && "WEBClient"@[1] == 'E',
        "WebClient"@.len() == 9 && "WebClient"@[1] == 'e',
        "COMConnector"@.len() == 12 && "COMConnector"@[0] == 'C' && "COMConnector"@[1] == 'O',
        "ComConnector"@.len() == 12 && "ComConnector"@[0] == 'C' && "ComConnector"@[1] == 'o',
        "Server"@.len() == 6 && "Server"@[0] == 'S',
        "ServerEmulation"@.len() == 15,
        "WEBService"@.len() == 10 && "WEBService"@[1] == 'E',
        "WebService"@.len() == 10 && "WebService"@[1] == 'e',
        "HTTPService"@.len() == 11 && "HTTPService"@[0] == 'H' && "HTTPService"@[1] == 'T',
        "HttpService"@.len() == 11 && "HttpService"@[0] == 'H' && "HttpService"@[1] == 't',
        "OData"@.len() == 5,
        "JOB"@.len() == 3 && "JOB"@[1] == 'O',
        "Job"@.len() == 3 && "Job"@[1] == 'o',
        "JobFileMode"@.len() == 11 && "JobFileMode"@[0] == 'J',
        "MobileClient"@.len() == 12 && "MobileClient"@[0] == 'M' && "MobileClient"@[6] == 'C',
        "MobileServer"@.len() == 12 && "MobileServer"@[0] == 'M' && "MobileServer"@[6] == 'S',
        "MobileJobFileMode"@.len() == 17,
        "MobileManagedClient"@.len() == 19 && "MobileManagedClient"@[13] == 'C',
        "MobileManagedServer"@.len() == 19 && "MobileManagedServer"@[13] == 'S',
{
    reveal_strlit("Unknown");
    reveal_strlit("Client");
    reveal_strlit("ManagedClient");
    reveal_strlit("WEBClient");
    reveal_strlit("WebClient");
    reveal_strlit("COMConnector");
    reveal_strlit("ComConnector");
    reveal_strlit("Server");
    reveal_strlit("ServerEmulation");
    reveal_strlit("WEBService");
    reveal_strlit("WebService");
    reveal_strlit("HTTPService");
    reveal_strlit("HttpService");
    reveal_strlit("OData");
    reveal_strlit("JOB");
    reveal_strlit("Job");
    reveal_strlit("JobFileMode");
    reveal_strlit("MobileClient");
    reveal_strlit("MobileServer");
    reveal_strlit("MobileJobFileMode");
    reveal_strlit("MobileManagedClient");
    reveal_strlit("MobileManagedServer");
}

/// Each kind of target is shown by its Russian name, in either spelling; another one is shown as it
/// is.
pub proof fn kinds_of_targets_are_shown_by_their_names(other: Seq<char>)
    ensures
        adapter_targets::target_type_shown("Unknown"@) == "Неизвестный тип"@,
        adapter_targets::target_type_shown("Client"@) == "Толстый клиент"@,
        adapter_targets::target_type_shown("ManagedClient"@) == "Тонкий клиент"@,
        adapter_targets::target_type_shown("WEBClient"@) == "Веб-клиент"@,
        adapter_targets::target_type_shown("WebClient"@) == "Веб-клиент"@,
        adapter_targets::target_type_shown("COMConnector"@) == "COM-соединение"@,
        adapter_targets::target_type_shown("ComConnector"@) == "COM-соединение"@,
        adapter_targets::target_type_shown("Server"@) == "Сервер"@,
        adapter_targets::target_type_shown("ServerEmulation"@) == "Сервер (файловый вариант)"@,
        adapter_targets::target_type_shown("WEBService"@) == "Веб-сервис"@,
        adapter_targets::target_type_shown("WebService"@) == "Веб-сервис"@,
        adapter_targets::target_type_shown("HTTPService"@) == "Http-сервис"@,
        adapter_targets::target_type_shown("HttpService"@) == "Http-сервис"@,
        adapter_targets::target_type_shown("OData"@) == "Стандартный интерфейс OData"@,
        adapter_targets::target_type_shown("JOB"@) == "Фоновое задание"@,
        adapter_targets::target_type_shown("Job"@) == "Фоновое задание"@,
        adapter_targets::target_type_shown("JobFileMode"@)
            == "Фоновое задание (файловый вариант)"@,
        adapter_targets::target_type_shown("MobileClient"@) == "Клиент (мобильное приложение)"@,
        adapter_targets::target_type_shown("MobileServer"@) == "Сервер (мобильное приложение)"@,
        adapter_targets::target_type_shown("MobileJobFileMode"@)
            == "Фоновое задание (мобильное приложение)"@,
        adapter_targets::target_type_shown("MobileManagedClient"@) == "Мобильный клиент"@,
        adapter_targets::target_type_shown("MobileManagedServer"@)
            == "Автономный сервер (мобильный клиент с автономным режимом)"@,
        is_other_kind(other) && other != "Unknown"@ && other != "WEBClient"@ && other
            != "COMConnector"@ && other != "WEBService"@ && other != "HTTPService"@ && other
            != "JOB"@ ==> adapter_targets::target_type_shown(other) == other,
{
    lemma_kinds();
}

/// A kind of target that cannot be attached by itself.
pub open spec fn is_other_kind(kind: Seq<char>) -> bool {
    &&& kind != "Client"@ && kind != "ManagedClient"@ && kind != "WebClient"@
    &&& kind != "ComConnector"@ && kind != "Server"@ && kind != "ServerEmulation"@
    &&& kind != "WebService"@ && kind != "HttpService"@ && kind != "OData"@
    &&& kind != "Job"@ && kind != "JobFileMode"@ && kind != "MobileClient"@
    &&& kind != "MobileServer"@ && kind != "MobileJobFileMode"@
    &&& kind != "MobileManagedClient"@ && kind != "MobileManagedServer"@
}

/// Each kind of target that can be attached by itself has its spelling at the debug server; any
/// other has none.
pub proof fn kinds_of_targets_have_their_spelling(other: Seq<char>)
    ensures
        debug_requests::target_type_value("Client"@) == Some("Client"@),
        debug_requests::target_type_value("ManagedClient"@) == Some("ManagedClient"@),
        debug_requests::target_type_value("WebClient"@) == Some("WEBClient"@),
        debug_requests::target_type_value("ComConnector"@) == Some("COMConnector"@),
        debug_requests::target_type_value("Server"@) == Some("Server"@),
        debug_requests::target_type_value("ServerEmulation"@) == Some("ServerEmulation"@),
        debug_requests::target_type_value("WebService"@) == Some("WEBService"@),
        debug_requests::target_type_value("HttpService"@) == Some("HTTPService"@),
        debug_requests::target_type_value("OData"@) == Some("OData"@),
        debug_requests::target_type_value("Job"@) == Some("JOB"@),
        debug_requests::target_type_value("JobFileMode"@) == Some("JobFileMode"@),
        debug_requests::target_type_value("MobileClient"@) == Some("MobileClient"@),
        debug_requests::target_type_value("MobileServer"@) == Some("MobileServer"@),
        debug_requests::target_type_value("MobileJobFileMode"@) == Some("MobileJobFileMode"@),
        debug_requests::target_type_value("MobileManagedClient"@) == Some("MobileManagedClient"@),
        debug_requests::target_type_value("MobileManagedServer"@) == Some("MobileManagedServer"@),
        is_other_kind(other) ==> debug_requests::target_type_value(other) is None,
{
    lemma_kinds();
}

/// The element that names a kind of target.
pub open spec fn kind_text(spelling: Seq<char>) -> Seq<char> {
    "<targetType xmlns=\"http://v8.1c.ru/8.3/debugger/debugAutoAttach\">"@ + spelling
        + "</targetType>"@
}

proof fn lemma_kind_text(kind: Seq<char>)
    ensures
        debug_requests::target_type_element(kind) == kind_text(
            debug_requests::target_type_value(kind)->0,
        ),
{
    reveal_strlit("<");
    reveal_strlit("targetType");
    reveal_strlit(" xmlns=\"");
    reveal_strlit("http://v8.1c.ru/8.3/debugger/debugAutoAttach");
    reveal_strlit("\">");
    reveal_strlit("<targetType xmlns=\"http://v8.1c.ru/8.3/debugger/debugAutoAttach\">");
    assert(debug_requests::opening("targetType"@, debug_requests::AUTO_ATTACH_NAMESPACE@)
        =~= "<targetType xmlns=\"http://v8.1c.ru/8.3/debugger/debugAutoAttach\">"@);
}

proof fn lemma_joined_holds(parts: Seq<Seq<char>>, i: int)
    requires
        0 <= i < parts.len(),
    ensures
        reading::holds(debug_requests::joined(parts), parts[i]),
    decreases parts.len(),
{
    broadcast use reading::group_holds;

    if i < parts.len() - 1 {
        lemma_joined_holds(parts.drop_last(), i);
        assert(parts.drop_last()[i] == parts[i]);
    }
}

pub proof fn lemma_first_unsupported(types: Seq<Seq<char>>)
    ensures
        debug_server::first_unsupported(types) is None <==> forall|i: int|
            0 <= i < types.len() ==> debug_requests::target_type_value(#[trigger] types[i]) is Some,
        debug_server::first_unsupported(types) is Some ==> debug_requests::target_type_value(
            debug_server::first_unsupported(types)->0,
        ) is None,
    decreases types.len(),
{
    if types.len() > 0 {
        let rest = types.skip(1);
        lemma_first_unsupported(rest);
        if debug_requests::target_type_value(types[0]) is Some {
            if debug_server::first_unsupported(rest) is None {
                assert forall|i: int| 0 <= i < types.len() implies debug_requests::target_type_value(
                    #[trigger] types[i],
                ) is Some by {
                    if i > 0 {
                        assert(rest[i - 1] == types[i]);
                    }
                }
            } else {
                let k = choose|k: int|
                    0 <= k < rest.len() && debug_requests::target_type_value(#[trigger] rest[k])
                        is None;
                assert(types[k + 1] == rest[k]);
            }
        } else {
            assert(debug_requests::target_type_value(types[0]) is None);
        }
    }
}

pub proof fn lemma_texts_of(values: Seq<JsonView>)
    ensures
        adapter_targets::texts_of(values) is Some <==> forall|i: int|
            0 <= i < values.len() ==> (#[trigger] values[i]) is Str,
        adapter_targets::texts_of(values) matches Some(texts) ==> texts.len() == values.len()
            && forall|i: int|
            0 <= i < values.len() ==> #[trigger] values[i] == JsonView::Str(texts[i]),
    decreases values.len(),
{
    if values.len() > 0 {
        let rest = values.skip(1);
        lemma_texts_of(rest);
        if adapter_targets::texts_of(rest) is Some && values[0] is Str {
            let texts = adapter_targets::texts_of(values)->0;
            assert forall|i: int| 0 <= i < values.len() implies #[trigger] values[i]
                == JsonView::Str(texts[i]) by {
                if i > 0 {
                    assert(rest[i - 1] == values[i]);
                    assert(texts[i] == adapter_targets::texts_of(rest)->0[i - 1]);
                }
            }
        } else if values[0] is Str {
            let k = choose|k: int| 0 <= k < rest.len() && !((#[trigger] rest[k]) is Str);
            assert(values[k + 1] == rest[k]);
        }
    }
}

/// A turn that sends the settings of kinds sends each of them.
pub proof fn lemma_kinds_sent(turn: TurnView, kinds: Seq<Seq<char>>, content: Seq<char>)
    requires
        content == debug_requests::auto_attach_content(kinds),
        request_laws::sends_text(turn, content),
    ensures
        forall|i: int|
            0 <= i < kinds.len() ==> request_laws::sends_text(
                turn,
                kind_text(debug_requests::target_type_value(#[trigger] kinds[i])->0),
            ),
{
    let body = request_laws::sent(turn).body->0;
    assert forall|i: int| 0 <= i < kinds.len() implies request_laws::sends_text(
        turn,
        kind_text(debug_requests::target_type_value(#[trigger] kinds[i])->0),
    ) by {
        broadcast use reading::group_holds;

        let parts = kinds.map_values(|kind: Seq<char>| debug_requests::target_type_element(kind));
        lemma_joined_holds(parts, i);
        lemma_kind_text(kinds[i]);
        request_laws::lemma_holds_within(
            body,
            content,
            kind_text(debug_requests::target_type_value(kinds[i])->0),
        );
    }
}

/// `SetAutoAttachTargetTypesRequest` sends every kind that it is given, in the debug server's
/// spelling; where one has none, the request is refused and nothing is sent.
pub proof fn kinds_to_attach_are_sent(s: AdapterView, request: JsonView, id: Seq<char>, kinds: Seq<Seq<char>>)
    requires
        request_laws::commands(request, "SetAutoAttachTargetTypesRequest"@),
        request_laws::is_attached(s),
        request_laws::gives(
            request,
            "types"@,
            JsonView::Array(kinds.map_values(|kind: Seq<char>| JsonView::Str(kind))),
        ),
    ensures
        ({
            let step = adapter_requests::handled(s, request, id);
            if forall|i: int|
                0 <= i < kinds.len() ==> debug_requests::target_type_value(#[trigger] kinds[i])
                    is Some {
                &&& step.0 == s
                &&& request_laws::sends(step.1, s.debug_server->0, "setAutoAttachSettings"@)
                &&& request_laws::sends_text(
                    step.1,
                    request_laws::session_text(s.debug_session->0),
                )
                &&& forall|i: int|
                    0 <= i < kinds.len() ==> request_laws::sends_text(
                        step.1,
                        kind_text(debug_requests::target_type_value(#[trigger] kinds[i])->0),
                    )
            } else {
                exists|kind: Seq<char>|
                    debug_requests::target_type_value(kind) is None && #[trigger] answer_laws::refuses(
                        step,
                        request,
                        "unsupported autoAttachTypes value `"@ + kind + "`"@,
                    )
            }
        }),
{
    request_laws::lemma_commands();
    let values = kinds.map_values(|kind: Seq<char>| JsonView::Str(kind));
    lemma_texts_of(values);
    let texts = adapter_targets::texts_of(values)->0;
    assert(texts =~= kinds) by {
        assert forall|i: int| 0 <= i < kinds.len() implies texts[i] == kinds[i] by {
            assert(values[i] == JsonView::Str(kinds[i]));
        }
    }
    lemma_first_unsupported(kinds);
    let step = adapter_requests::handled(s, request, id);
    match debug_server::first_unsupported(kinds) {
        None => {
            let content = debug_requests::auto_attach_content(kinds);
            request_laws::lemma_post(
                s.debug_server->0,
                "setAutoAttachSettings"@,
                s.debug_session->0,
                content,
                step.1,
            );
            lemma_kinds_sent(step.1, kinds, content);
        },
        Some(kind) => {
            answer_laws::lemma_answers(
                s,
                request,
                adapter::no_body(),
                debug_requests::unsupported_type(kind),
            );
            assert(answer_laws::refuses(
                step,
                request,
                "unsupported autoAttachTypes value `"@ + kind + "`"@,
            ));
        },
    }
}

/// A request of the client that the debug server carries out without telling more is answered
/// without a body once the reply is there, and refused with the command that failed where none
/// came.
pub proof fn plain_commands_are_answered(s: AdapterView, request: JsonView, reply: HttpReplyView, id: Seq<char>)
    ensures
        reply is Answered ==> answer_laws::answers(
            adapter_requests::replied_to(s, ReasonView::Pause(request), reply, id),
            request,
            JsonView::Object(Seq::empty()),
        ),
        reply is Failed || reply is TimedOut ==> answer_laws::refuses(
            adapter_requests::replied_to(s, ReasonView::Pause(request), reply, id),
            request,
            "1C debug server request `"@ + "setBreakOnNextStatement"@ + "` failed"@,
        ),
        reply is Answered ==> answer_laws::answers(
            adapter_requests::replied_to(s, ReasonView::SetAutoAttachTypes(request), reply, id),
            request,
            JsonView::Object(Seq::empty()),
        ),
        reply is Failed || reply is TimedOut ==> answer_laws::refuses(
            adapter_requests::replied_to(s, ReasonView::SetAutoAttachTypes(request), reply, id),
            request,
            "1C debug server request `"@ + "setAutoAttachSettings"@ + "` failed"@,
        ),
{
    answer_laws::lemma_answers(
        s,
        request,
        adapter::no_body(),
        debug_server::request_failed("setBreakOnNextStatement"@),
    );
    answer_laws::lemma_answers(
        s,
        request,
        adapter::no_body(),
        debug_server::request_failed("setAutoAttachSettings"@),
    );
}

/// A command without content of its own is sent.
pub open spec fn sends_plain(s: AdapterView, step: (AdapterView, TurnView), command: Seq<char>) -> bool {
    &&& step.0 == s
    &&& step.1.outputs.len() == 0
    &&& request_laws::sends(step.1, s.debug_server->0, command)
    &&& request_laws::sends_text(step.1, request_laws::session_text(s.debug_session->0))
}

/// `pause` stops the infobase at its next statement, `DebugTargetsRequest` asks for its targets, and
/// `disconnect` and `terminate` end the session.
pub proof fn plain_requests_send_their_command(s: AdapterView, request: JsonView, id: Seq<char>)
    requires
        request_laws::is_attached(s),
    ensures
        ({
            let step = adapter_requests::handled(s, request, id);
            &&& request_laws::commands(request, "pause"@) ==> sends_plain(
                s,
                step,
                "setBreakOnNextStatement"@,
            ) && step.1.next->Send_1 == ReasonView::Pause(request)
            &&& request_laws::commands(request, "DebugTargetsRequest"@) ==> sends_plain(
                s,
                step,
                "getDbgTargets"@,
            ) && step.1.next->Send_1 == ReasonView::ListTargets(request)
            &&& request_laws::commands(request, "disconnect"@) || request_laws::commands(
                request,
                "terminate"@,
            ) ==> sends_plain(s, step, "detachDebugUI"@) && step.1.next->Send_1
                == ReasonView::Detach(EndingView::Requested(request))
        }),
{
    request_laws::lemma_commands();
    let step = adapter_requests::handled(s, request, id);
    let command = adapter_requests::command_of(request);
    if command == "pause"@ {
        request_laws::lemma_post(
            s.debug_server->0,
            "setBreakOnNextStatement"@,
            s.debug_session->0,
            Seq::empty(),
            step.1,
        );
    } else if command == "DebugTargetsRequest"@ {
        request_laws::lemma_post(
            s.debug_server->0,
            "getDbgTargets"@,
            s.debug_session->0,
            Seq::empty(),
            step.1,
        );
    } else if command == "disconnect"@ || command == "terminate"@ {
        request_laws::lemma_post(
            s.debug_server->0,
            "detachDebugUI"@,
            s.debug_session->0,
            Seq::empty(),
            step.1,
        );
    }
}

/// Without a session, a request that needs one is refused.
pub proof fn requests_need_a_session(s: AdapterView, request: JsonView, id: Seq<char>, thread_id: i64, k: int)
    requires
        !request_laws::is_attached(s),
        request_laws::commands(request, "pause"@) || request_laws::commands(
            request,
            "DebugTargetsRequest"@,
        ) || request_laws::commands(request, "setExceptionBreakpoints"@) || ((
        request_laws::commands(request, "continue"@) || request_laws::commands(request, "next"@)
            || request_laws::commands(request, "stepIn"@) || request_laws::commands(
            request,
            "stepOut"@,
        )) && request_laws::gives(request, "threadId"@, JsonView::Integer(thread_id as int))
            && request_laws::is_thread(s, thread_id, k)),
    ensures
        answer_laws::refuses(
            adapter_requests::handled(s, request, id),
            request,
            "no 1C debug session is attached"@,
        ),
{
    request_laws::lemma_commands();
    answer_laws::lemma_answers(
        s,
        request,
        adapter::no_body(),
        "no 1C debug session is attached"@,
    );
    if request_laws::is_thread(s, thread_id, k) {
        request_laws::lemma_target_of(s.threads, thread_id, k);
    }
}

/// A request that the adapter does not know is refused by its name.
pub proof fn other_requests_are_refused(s: AdapterView, request: JsonView, id: Seq<char>, command: Seq<char>)
    requires
        request_laws::commands(request, command),
        command != "initialize"@ && command != "launch"@ && command != "attach"@,
        command != "configurationDone"@ && command != "threads"@ && command != "stackTrace"@,
        command != "scopes"@ && command != "variables"@ && command != "continue"@,
        command != "next"@ && command != "stepIn"@ && command != "stepOut"@,
        command != "pause"@ && command != "setBreakpoints"@,
        command != "setExceptionBreakpoints"@,
        command != "SetAutoAttachTargetTypesRequest"@ && command != "DebugTargetsRequest"@,
        command != "AttachDebugTargetRequest"@ && command != "evaluate"@,
        command != "disconnect"@ && command != "terminate"@,
    ensures
        answer_laws::refuses(
            adapter_requests::handled(s, request, id),
            request,
            "DAP command `"@ + command + "` is not implemented yet"@,
        ),
{
    answer_laws::lemma_answers(
        s,
        request,
        adapter::no_body(),
        adapter_requests::unknown_command(command),
    );
}

/// A target as the list of targets shows it.
pub open spec fn shows_target(item: JsonView, target: DebugTargetView) -> bool {
    &&& json::field(item, "Id"@) == JsonView::Str(target.id)
    &&& json::field(item, "User"@) == JsonView::Str(
        if target.user_name.len() > 0 {
            target.user_name
        } else {
            "Неизвестный пользователь"@
        },
    )
    &&& json::field(item, "Type"@) == JsonView::Str(
        adapter_targets::target_type_shown(target.target_type),
    )
    &&& json::field(item, "Seance"@) == JsonView::Str(target.seance_no)
}

proof fn lemma_target_shown(target: DebugTargetView)
    ensures
        shows_target(adapter_targets::target_body(target), target),
{
    let members = adapter_targets::target_body(target)->Object_0;
    reading::lemma_names();
    reading::lemma_field(members, 0);
    reading::lemma_field(members, 1);
    reading::lemma_field(members, 2);
    reading::lemma_field(members, 3);
}

/// The targets that are not attached, in the order in which they are listed.
pub open spec fn shows_unattached(items: Seq<JsonView>, threads: Seq<(Seq<char>, i64)>, targets: Seq<DebugTargetView>, places: Seq<int>) -> bool {
    &&& items.len() == places.len()
    &&& forall|j: int|
        0 <= j < places.len() ==> 0 <= #[trigger] places[j] < targets.len() && shows_target(
            items[j],
            targets[places[j]],
        ) && ordered::lookup(threads, targets[places[j]].id) is None
    &&& forall|i: int, j: int|
        0 <= i < j < places.len() ==> #[trigger] places[i] < #[trigger] places[j]
    &&& forall|k: int|
        0 <= k < targets.len() && ordered::lookup(threads, (#[trigger] targets[k]).id) is None
            ==> places.contains(k)
}

proof fn lemma_unattached(threads: Seq<(Seq<char>, i64)>, targets: Seq<DebugTargetView>) -> (places: Seq<int>)
    ensures
        shows_unattached(
            adapter_targets::unattached(threads, targets),
            threads,
            targets,
            places,
        ),
    decreases targets.len(),
{
    if targets.len() == 0 {
        Seq::empty()
    } else {
        let rest = targets.skip(1);
        let more = lemma_unattached(threads, rest);
        let moved = Seq::new(more.len(), |i: int| more[i] + 1);
        let items = adapter_targets::unattached(threads, rest);
        assert forall|j: int| 0 <= j < moved.len() implies 0 <= #[trigger] moved[j] < targets.len()
            && shows_target(items[j], targets[moved[j]]) && ordered::lookup(
            threads,
            targets[moved[j]].id,
        ) is None by {
            assert(targets[moved[j]] == rest[more[j]]);
        }
        assert forall|k: int|
            1 <= k < targets.len() && ordered::lookup(threads, (#[trigger] targets[k]).id)
                is None implies moved.contains(k) by {
            assert(rest[k - 1] == targets[k]);
            let j = choose|j: int| 0 <= j < more.len() && more[j] == k - 1;
            assert(moved[j] == k);
        }
        if ordered::lookup(threads, targets[0].id) is Some {
            moved
        } else {
            lemma_target_shown(targets[0]);
            let places = seq![0int] + moved;
            let all = adapter_targets::unattached(threads, targets);
            assert(all =~= seq![adapter_targets::target_body(targets[0])] + items);
            assert forall|j: int| 0 <= j < places.len() implies 0 <= #[trigger] places[j]
                < targets.len() && shows_target(all[j], targets[places[j]]) && ordered::lookup(
                threads,
                targets[places[j]].id,
            ) is None by {
                if j > 0 {
                    assert(places[j] == moved[j - 1]);
                    assert(all[j] == items[j - 1]);
                }
            }
            assert forall|k: int|
                0 <= k < targets.len() && ordered::lookup(threads, (#[trigger] targets[k]).id)
                    is None implies places.contains(k) by {
                if k == 0 {
                    assert(places[0] == 0);
                } else {
                    let j = choose|j: int| 0 <= j < moved.len() && moved[j] == k;
                    assert(places[j + 1] == k);
                }
            }
            places
        }
    }
}

/// The list of targets shows exactly those that are not attached, each with its identifier, its
/// user, its kind and its session number, in the order in which the debug server lists them.
pub proof fn unattached_targets_are_listed(s: AdapterView, request: JsonView, reply: HttpReplyView, id: Seq<char>, targets: Seq<DebugTargetView>)
    requires
        debug_server::targets_listed(reply) == Ok::<Seq<DebugTargetView>, Seq<char>>(targets),
    ensures
        ({
            let step = adapter_requests::replied_to(s, ReasonView::ListTargets(request), reply, id);
            let body = json::field(step.1.outputs[0]->Message_0, "body"@);
            &&& answer_laws::answers(step, request, body)
            &&& json::field(body, "Items"@) is Array
            &&& exists|places: Seq<int>| #[trigger]
                shows_unattached(json::field(body, "Items"@)->Array_0, s.threads, targets, places)
        }),
{
    let items = adapter_targets::unattached(s.threads, targets);
    let body = adapter_targets::items_body(items);
    answer_laws::lemma_answers(s, request, body, Seq::empty());
    reading::lemma_names();
    reading::lemma_field(body->Object_0, 0);
    let places = lemma_unattached(s.threads, targets);
    let step = adapter_requests::replied_to(s, ReasonView::ListTargets(request), reply, id);
    let listed = json::field(json::field(step.1.outputs[0]->Message_0, "body"@), "Items"@);
    assert(step == adapter::answered(s, request, body));
    assert(listed == JsonView::Array(items));
    assert(shows_unattached(listed->Array_0, s.threads, targets, places));
}

/// `AttachDebugTargetRequest` looks the named target up first, takes the stop at the next statement
/// back, attaches the target, and answers with a new thread that is told of behind the answer. A
/// target that is gone, or attached already, is answered at once.
pub proof fn named_targets_are_attached(
    s: AdapterView,
    request: JsonView,
    id: Seq<char>,
    given: Seq<char>,
    reply: HttpReplyView,
    targets: Seq<DebugTargetView>,
)
    requires
        request_laws::commands(request, "AttachDebugTargetRequest"@),
        request_laws::gives(request, "Id"@, JsonView::Str(given)),
        text::trim(given).len() > 0,
        request_laws::is_attached(s),
        reply is Answered,
        debug_server::targets_listed(reply) == Ok::<Seq<DebugTargetView>, Seq<char>>(targets),
        adapter_invariant::consistent(s),
        adapter::ready(s),
    ensures
        ({
            let step = adapter_requests::handled(s, request, id);
            &&& sends_plain(s, step, "getDbgTargets"@)
            &&& step.1.next->Send_1 == (ReasonView::FindTarget {
                request,
                target_id: text::trim(given),
            })
        }),
        ({
            let target_id = text::trim(given);
            let step = adapter_requests::replied_to(
                s,
                ReasonView::FindTarget { request, target_id },
                reply,
                id,
            );
            let is_listed = exists|i: int|
                0 <= i < targets.len() && (#[trigger] targets[i]).id == target_id;
            if is_listed && ordered::lookup(s.threads, target_id) is None {
                &&& sends_plain(s, step, "clearBreakOnNextStatement"@)
                &&& step.1.next->Send_1 == (ReasonView::PrepareTarget { request, target_id })
            } else {
                answer_laws::answers(step, request, JsonView::Object(Seq::empty()))
            }
        }),
        ({
            let target_id = text::trim(given);
            let step = adapter_requests::replied_to(
                s,
                ReasonView::PrepareTarget { request, target_id },
                reply,
                id,
            );
            &&& sends_plain(s, step, "attachDetachDbgTargets"@)
            &&& request_laws::sends_text(step.1, "<attach>true</attach>"@)
            &&& request_laws::sends_text(step.1, event_laws::attached_text(target_id))
            &&& step.1.next->Send_1 == (ReasonView::AttachTarget { request, target_id })
        }),
        ({
            let target_id = text::trim(given);
            let (next, turn) = adapter_requests::replied_to(
                s,
                ReasonView::AttachTarget { request, target_id },
                reply,
                id,
            );
            let thread_id = adapter_targets::next_thread(s);
            &&& event_laws::is_new_thread(s, next, target_id, thread_id)
            &&& turn.outputs.len() == 3
            &&& turn.outputs[0] is Message
            &&& answer_laws::is_success(
                turn.outputs[0]->Message_0,
                request,
                JsonView::Object(Seq::empty()),
            )
            &&& event_laws::tells_of_thread(turn.outputs.skip(1), "started"@, thread_id)
            &&& turn.next is Done
        }),
{
    request_laws::lemma_commands();
    let target_id = text::trim(given);
    let first = adapter_requests::handled(s, request, id).1;
    request_laws::lemma_post(
        s.debug_server->0,
        "getDbgTargets"@,
        s.debug_session->0,
        Seq::empty(),
        first,
    );
    let second = adapter_requests::replied_to(
        s,
        ReasonView::FindTarget { request, target_id },
        reply,
        id,
    ).1;
    if adapter_targets::has_target(targets, target_id) && ordered::lookup(s.threads, target_id)
        is None {
        request_laws::lemma_post(
            s.debug_server->0,
            "clearBreakOnNextStatement"@,
            s.debug_session->0,
            Seq::empty(),
            second,
        );
    }
    answer_laws::lemma_answers(s, request, adapter::no_body(), Seq::empty());
    let third = adapter_requests::replied_to(
        s,
        ReasonView::PrepareTarget { request, target_id },
        reply,
        id,
    ).1;
    let content = debug_requests::debug_target_content(true, seq![target_id]);
    request_laws::lemma_post(
        s.debug_server->0,
        "attachDetachDbgTargets"@,
        s.debug_session->0,
        content,
        third,
    );
    event_laws::lemma_attached_text(target_id);
    let body = request_laws::sent(third).body->0;
    request_laws::lemma_holds_within(body, content, "<attach>true</attach>"@);
    request_laws::lemma_holds_within(body, content, event_laws::attached_text(target_id));
    event_laws::lemma_new_thread(s, target_id);
    let thread_id = adapter_targets::next_thread(s);
    event_laws::lemma_thread_events(adapter::counted(s, 1), "started"@, thread_id);
    let last = adapter_requests::replied_to(
        s,
        ReasonView::AttachTarget { request, target_id },
        reply,
        id,
    ).1;
    assert(last.outputs.skip(1) =~= adapter_targets::thread_events(
        adapter::counted(s, 1),
        "started"@,
        thread_id,
    ));
}

/// `threads` lists every attached target, with the number of its thread and a name that tells its
/// identifier.
pub proof fn attached_targets_are_the_threads(s: AdapterView, request: JsonView, id: Seq<char>)
    requires
        request_laws::commands(request, "threads"@),
    ensures
        ({
            let step = adapter_requests::handled(s, request, id);
            let body = json::field(step.1.outputs[0]->Message_0, "body"@);
            let listed = json::field(body, "threads"@);
            &&& answer_laws::answers(step, request, body)
            &&& listed is Array
            &&& listed->Array_0.len() == s.threads.len()
            &&& forall|i: int|
                0 <= i < s.threads.len() ==> json::field(#[trigger] listed->Array_0[i], "id"@)
                    == JsonView::Integer(s.threads[i].1 as int) && json::field(
                    listed->Array_0[i],
                    "name"@,
                ) == JsonView::Str("1C target "@ + s.threads[i].0)
        }),
{
    request_laws::lemma_commands();
    let body = adapter_targets::threads_body(s.threads);
    answer_laws::lemma_answers(s, request, body, Seq::empty());
    reading::lemma_names();
    reading::lemma_field(body->Object_0, 0);
    let listed = json::field(body, "threads"@);
    assert forall|i: int| 0 <= i < s.threads.len() implies json::field(
        #[trigger] listed->Array_0[i],
        "id"@,
    ) == JsonView::Integer(s.threads[i].1 as int) && json::field(listed->Array_0[i], "name"@)
        == JsonView::Str("1C target "@ + s.threads[i].0) by {
        let shown = adapter_targets::thread_body(s.threads[i].0, s.threads[i].1);
        assert(listed->Array_0[i] == shown);
        reading::lemma_field(shown->Object_0, 0);
        reading::lemma_field(shown->Object_0, 1);
    }
}

/// A poll of the session is begun, with a time limit where one is given.
pub open spec fn begins_poll(s: AdapterView, step: (AdapterView, TurnView), timeout_ms: Option<u64>) -> bool {
    &&& step.1.next is Poll
    &&& step.1.next->Poll_0.url == s.debug_server->0 + "/rdbg?cmd=pingDebugUIParams&dbgui="@
        + s.debug_session->0.id
    &&& step.1.next->Poll_0.timeout_ms == timeout_ms
    &&& step.1.next->Poll_0.body is None
    &&& step.1.next->Poll_1 == s.next_poll + 1
    &&& step.1.next->Poll_2 == s.debug_session->0.id
    &&& step.0.active_poll == Some(step.1.next->Poll_1)
    &&& step.0.next_poll == s.next_poll + 1
    &&& !step.1.stop_programs
}

/// After a step the request is answered, a target that runs on is announced, and a poll that waits
/// no longer than a quarter of a second takes the place of the one under way.
pub proof fn steps_are_answered(s: AdapterView, request: JsonView, id: Seq<char>, thread_id: i64, target_id: Seq<char>, action: StepAction, reply: HttpReplyView)
    requires
        request_laws::is_attached(s),
        adapter::ready(s),
        s.next_poll >= 0,
        reply is Answered,
    ensures
        ({
            let step = adapter_requests::replied_to(
                s,
                ReasonView::Step { request, thread_id, target_id, action },
                reply,
                id,
            );
            let answer = step.1.outputs[1];
            let body = json::field(answer->Message_0, "body"@);
            let all = JsonView::Bool(
                !request_laws::gives(request, "singleThread"@, JsonView::Bool(true)),
            );
            &&& step.1.outputs.len() >= 4
            &&& step.1.outputs[0] is Trace
            &&& answer is Message
            &&& answer_laws::is_success(answer->Message_0, request, body)
            &&& action is Continue ==> json::field(body, "allThreadsContinued"@) == all
            &&& !(action is Continue) ==> body == JsonView::Object(Seq::empty())
            &&& action is Continue || action is StepIn ==> {
                &&& event_laws::is_named(step.1.outputs[2], "continued"@)
                &&& event_laws::told(step.1.outputs[2], "threadId"@) == JsonView::Integer(
                    thread_id as int,
                )
                &&& event_laws::told(step.1.outputs[2], "allThreadsContinued"@) == all
            }
            &&& action is Next || action is StepOut ==> forall|i: int|
                2 <= i < step.1.outputs.len() ==> (#[trigger] step.1.outputs[i]) is Trace
            &&& begins_poll(s, step, Some(250))
            &&& step.0.threads == s.threads && step.0.call_stacks == s.call_stacks
        }),
{
    let all = adapter_targets::all_continued(request);
    let body = adapter_targets::step_body(action, all);
    answer_laws::lemma_answers(s, request, body, Seq::empty());
    reading::lemma_names();
    if action is Continue {
        reading::lemma_field(body->Object_0, 0);
    }
    let told = adapter_targets::continued_body(thread_id, all);
    event_laws::lemma_event(adapter::counted(s, 1), "continued"@, told);
    reading::lemma_field(told->Object_0, 0);
    reading::lemma_field(told->Object_0, 1);
}

/// A step that the debug server did not carry out is refused, and begins no poll.
pub proof fn failed_steps_are_refused(s: AdapterView, request: JsonView, id: Seq<char>, thread_id: i64, target_id: Seq<char>, action: StepAction, reply: HttpReplyView)
    requires
        reply is Failed || reply is TimedOut,
    ensures
        ({
            let step = adapter_requests::replied_to(
                s,
                ReasonView::Step { request, thread_id, target_id, action },
                reply,
                id,
            );
            &&& step.0 == adapter::counted(s, 1)
            &&& step.1.outputs.len() == 3
            &&& step.1.outputs[0] is Trace
            &&& step.1.outputs[1] is Message
            &&& answer_laws::is_refusal(
                step.1.outputs[1]->Message_0,
                request,
                "1C debug server request `"@ + "step"@ + "` failed"@,
            )
            &&& step.1.outputs[2] is Trace
            &&& step.1.next is Done
        }),
{
    answer_laws::lemma_answers(
        s,
        request,
        adapter::no_body(),
        debug_server::request_failed("step"@),
    );
}

/// A step needs the number of an attached thread.
pub proof fn steps_need_a_thread(s: AdapterView, request: JsonView, id: Seq<char>, thread_id: i64)
    requires
        request_laws::commands(request, "continue"@) || request_laws::commands(request, "next"@)
            || request_laws::commands(request, "stepIn"@) || request_laws::commands(
            request,
            "stepOut"@,
        ),
        forall|i: int| 0 <= i < s.threads.len() ==> (#[trigger] s.threads[i]).1 != thread_id,
    ensures
        request_laws::gives(request, "threadId"@, JsonView::Integer(thread_id as int))
            ==> answer_laws::refuses(
            adapter_requests::handled(s, request, id),
            request,
            "unknown 1C debug thread "@ + number::decimal(thread_id as int),
        ),
        !(json::field(json::field(request, "arguments"@), "threadId"@) is Integer)
            ==> answer_laws::refuses(
            adapter_requests::handled(s, request, id),
            request,
            "step request requires threadId"@,
        ),
{
    request_laws::lemma_commands();
    answer_laws::lemma_answers(
        s,
        request,
        adapter::no_body(),
        adapter_targets::unknown_thread(thread_id),
    );
    answer_laws::lemma_answers(s, request, adapter::no_body(), "step request requires threadId"@);
    lemma_no_target(s.threads, thread_id);
}

pub proof fn lemma_no_target(threads: Seq<(Seq<char>, i64)>, thread_id: i64)
    requires
        forall|i: int| 0 <= i < threads.len() ==> (#[trigger] threads[i]).1 != thread_id,
    ensures
        adapter_frames::target_of(threads, thread_id) is None,
    decreases threads.len(),
{
    if threads.len() > 0 {
        let rest = threads.skip(1);
        assert(threads[0].1 != thread_id);
        assert forall|i: int| 0 <= i < rest.len() implies (#[trigger] rest[i]).1 != thread_id by {
            assert(rest[i] == threads[i + 1]);
        }
        lemma_no_target(rest, thread_id);
    }
}

} // verus!
