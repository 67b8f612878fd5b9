//! The execution contexts of an infobase: which there are, which are attached, and how they go on.

use crate::adapter;
use crate::adapter::{
    empty_body, quiet, speak_all, trace_poll, trace_thread, Adapter, AdapterView, Next, NextView,
    Output, OutputView, Reason, ReasonView, Turn, TurnView,
};
use crate::adapter_breakpoints;
use crate::adapter_frames;
use crate::adapter_polls;
use crate::adapter_polls::STEP_POLL_TIMEOUT;
use crate::adapter_session;
use crate::debug_server;
use crate::debug_server::{acknowledgement, listed_targets, HttpReply, HttpReplyView};
use crate::debug_types::{DebugTarget, DebugTargetView, StepAction};
use crate::json;
use crate::json::{
    array, find_argument, object, optional_i64, optional_items, optional_text, pair, signed, string,
    Json, JsonView,
};
use crate::list::{append, none, one, push};
use crate::number;
use crate::number::decimal_i64;
use crate::ordered;
use crate::ordered::OrderedMap;
use crate::text;
use crate::text::{copy, same, trimmed};
use vstd::prelude::*;

verus! {

/// A thread as the protocol describes it.
pub open spec fn thread_body(target_id: Seq<char>, thread_id: i64) -> JsonView {
    JsonView::Object(
        seq![
            ("id"@, JsonView::Integer(thread_id as int)),
            ("name"@, JsonView::Str("1C target "@ + target_id)),
        ],
    )
}

/// The attached targets, in the order of their identifiers.
pub open spec fn threads_body(threads: Seq<(Seq<char>, i64)>) -> JsonView {
    JsonView::Object(
        seq![
            (
                "threads"@,
                JsonView::Array(
                    threads.map_values(|entry: (Seq<char>, i64)| thread_body(entry.0, entry.1)),
                ),
            ),
        ],
    )
}

pub open spec fn unknown_thread(thread_id: i64) -> Seq<char> {
    "unknown 1C debug thread "@ + number::decimal(thread_id as int)
}

/// A request to go on with a thread.
pub open spec fn step_asked(s: AdapterView, request: JsonView, action: StepAction) -> (AdapterView, TurnView) {
    match json::signed_of(json::argument(request, "threadId"@)) {
        None => adapter::refused(s, request, "step request requires threadId"@),
        Some(thread_id) => match adapter_frames::target_of(s.threads, thread_id) {
            None => adapter::refused(s, request, unknown_thread(thread_id)),
            Some(target_id) => match adapter_session::attachment(s) {
                None => adapter_session::not_attached(s, request),
                Some((server, session)) => (
                    s,
                    TurnView {
                        outputs: seq![
                            adapter::thread_record("dap.step.received"@, thread_id, target_id),
                        ],
                        stop_programs: false,
                        next: NextView::Send(
                            debug_server::step_post(server, session, target_id, action),
                            ReasonView::Step { request, thread_id, target_id, action },
                        ),
                    },
                ),
            },
        },
    }
}

/// Whether all threads go on: a request can name a single one.
pub open spec fn all_continued(request: JsonView) -> bool {
    json::argument(request, "singleThread"@) != JsonView::Bool(true)
}

pub open spec fn step_body(action: StepAction, all: bool) -> JsonView {
    if action == StepAction::Continue {
        JsonView::Object(seq![("allThreadsContinued"@, JsonView::Bool(all))])
    } else {
        adapter::no_body()
    }
}

pub open spec fn continued_body(thread_id: i64, all: bool) -> JsonView {
    JsonView::Object(
        seq![
            ("threadId"@, JsonView::Integer(thread_id as int)),
            ("allThreadsContinued"@, JsonView::Bool(all)),
        ],
    )
}

/// The record that a poll gives way, where one is under way.
pub open spec fn replaced_poll(active: Option<u64>) -> Seq<OutputView> {
    match active {
        Some(poll) => seq![adapter::poll_record("rdbg.poll.cancel_requested"@, poll)],
        None => Seq::empty(),
    }
}

/// Whether an action is announced by a `continued` event.
pub open spec fn is_announced(action: StepAction) -> bool {
    action == StepAction::Continue || action == StepAction::StepIn
}

/// The event that announces an action, numbered behind the answer to it.
pub open spec fn announcement(s: AdapterView, action: StepAction, thread_id: i64, all: bool) -> Seq<OutputView> {
    if is_announced(action) {
        seq![
            adapter::next_event(
                adapter::counted(s, 1),
                "continued"@,
                continued_body(thread_id, all),
            ),
        ]
    } else {
        Seq::empty()
    }
}

/// A thread goes on, or could not be made to: the answer is followed by the event that announces
/// the action, and a short poll takes the place of the one under way. The records tell of the reply
/// and, in the end, of the answer.
pub open spec fn step_replied(
    s: AdapterView,
    request: JsonView,
    thread_id: i64,
    target_id: Seq<char>,
    action: StepAction,
    reply: HttpReplyView,
) -> (AdapterView, TurnView) {
    let record = adapter::thread_record("rdbg.step.response"@, thread_id, target_id);
    let last = adapter::thread_record("dap.step.response"@, thread_id, target_id);
    let all = all_continued(request);
    match debug_server::acknowledged("step"@, reply) {
        Err(message) => (
            adapter::counted(s, 1),
            adapter::says(seq![record, adapter::next_refusal(s, request, message), last]),
        ),
        Ok(_) => {
            let announced = announcement(s, action, thread_id, all);
            let (next, poll) = adapter_polls::poll_begun(
                adapter::counted(s, 1int + announced.len()),
                Some(STEP_POLL_TIMEOUT),
            );
            (
                next,
                TurnView {
                    outputs: seq![
                        record,
                        adapter::next_response(s, request, step_body(action, all)),
                    ] + announced + replaced_poll(s.active_poll) + poll.outputs + seq![last],
                    stop_programs: false,
                    next: poll.next,
                },
            )
        },
    }
}

/// `pause`: the infobase is to stop at its next statement.
pub open spec fn pause_asked(s: AdapterView, request: JsonView) -> (AdapterView, TurnView) {
    match adapter_session::attachment(s) {
        None => adapter_session::not_attached(s, request),
        Some((server, session)) => (
            s,
            adapter::asks(
                NextView::Send(
                    debug_server::base_post(server, "setBreakOnNextStatement"@, session),
                    ReasonView::Pause(request),
                ),
            ),
        ),
    }
}

pub open spec fn pause_replied(s: AdapterView, request: JsonView, reply: HttpReplyView) -> (AdapterView, TurnView) {
    adapter_breakpoints::acknowledged_request(
        s,
        request,
        debug_server::acknowledged("setBreakOnNextStatement"@, reply),
        adapter::no_body(),
    )
}

/// All texts, where each value is one.
pub open spec fn texts_of(values: Seq<JsonView>) -> Option<Seq<Seq<char>>>
    decreases values.len(),
{
    if values.len() == 0 {
        Some(Seq::empty())
    } else {
        match (json::text_of(values[0]), texts_of(values.skip(1))) {
            (Some(first), Some(rest)) => Some(seq![first] + rest),
            _ => None,
        }
    }
}

/// `SetAutoAttachTargetTypesRequest`: which kinds of targets are attached by themselves.
pub open spec fn auto_attach_asked(s: AdapterView, request: JsonView) -> (AdapterView, TurnView) {
    match json::items_of(json::argument(request, "types"@)) {
        None => adapter::refused(
            s,
            request,
            "SetAutoAttachTargetTypesRequest requires arguments.types"@,
        ),
        Some(values) => match texts_of(values) {
            None => adapter::refused(s, request, "each auto-attach type must be a string"@),
            Some(types) => match adapter_session::attachment(s) {
                None => adapter_session::not_attached(s, request),
                Some((server, session)) => match debug_server::auto_attach_post(
                    server,
                    session,
                    types,
                ) {
                    Err(message) => adapter::refused(s, request, message),
                    Ok(command) => (
                        s,
                        adapter::asks(
                            NextView::Send(command, ReasonView::SetAutoAttachTypes(request)),
                        ),
                    ),
                },
            },
        },
    }
}

pub open spec fn auto_attach_replied(s: AdapterView, request: JsonView, reply: HttpReplyView) -> (AdapterView, TurnView) {
    adapter_breakpoints::acknowledged_request(
        s,
        request,
        debug_server::acknowledged("setAutoAttachSettings"@, reply),
        adapter::no_body(),
    )
}

/// How a kind of target is shown; one that is not known is shown as it is.
pub open spec fn target_type_shown(target_type: Seq<char>) -> Seq<char> {
    if target_type == "Unknown"@ {
        "Неизвестный тип"@
    } else if target_type == "Client"@ {
        "Толстый клиент"@
    } else if target_type == "ManagedClient"@ {
        "Тонкий клиент"@
    } else if target_type == "WEBClient"@ || target_type == "WebClient"@ {
        "Веб-клиент"@
    } else if target_type == "COMConnector"@ || target_type == "ComConnector"@ {
        "COM-соединение"@
    } else if target_type == "Server"@ {
        "Сервер"@
    } else if target_type == "ServerEmulation"@ {
        "Сервер (файловый вариант)"@
    } else if target_type == "WEBService"@ || target_type == "WebService"@ {
        "Веб-сервис"@
    } else if target_type == "HTTPService"@ || target_type == "HttpService"@ {
        "Http-сервис"@
    } else if target_type == "OData"@ {
        "Стандартный интерфейс OData"@
    } else if target_type == "JOB"@ || target_type == "Job"@ {
        "Фоновое задание"@
    } else if target_type == "JobFileMode"@ {
        "Фоновое задание (файловый вариант)"@
    } else if target_type == "MobileClient"@ {
        "Клиент (мобильное приложение)"@
    } else if target_type == "MobileServer"@ {
        "Сервер (мобильное приложение)"@
    } else if target_type == "MobileJobFileMode"@ {
        "Фоновое задание (мобильное приложение)"@
    } else if target_type == "MobileManagedClient"@ {
        "Мобильный клиент"@
    } else if target_type == "MobileManagedServer"@ {
        "Автономный сервер (мобильный клиент с автономным режимом)"@
    } else {
        target_type
    }
}

pub open spec fn target_body(target: DebugTargetView) -> JsonView {
    JsonView::Object(
        seq![
            ("Id"@, JsonView::Str(target.id)),
            (
                "User"@,
                JsonView::Str(
                    if target.user_name.len() == 0 {
                        "Неизвестный пользователь"@
                    } else {
                        target.user_name
                    },
                ),
            ),
            ("Type"@, JsonView::Str(target_type_shown(target.target_type))),
            ("Seance"@, JsonView::Str(target.seance_no)),
        ],
    )
}

/// The targets that are not attached yet.
pub open spec fn unattached(threads: Seq<(Seq<char>, i64)>, targets: Seq<DebugTargetView>) -> Seq<JsonView>
    decreases targets.len(),
{
    if targets.len() == 0 {
        Seq::empty()
    } else if ordered::lookup(threads, targets[0].id) is Some {
        unattached(threads, targets.skip(1))
    } else {
        seq![target_body(targets[0])] + unattached(threads, targets.skip(1))
    }
}

pub open spec fn items_body(items: Seq<JsonView>) -> JsonView {
    JsonView::Object(seq![("Items"@, JsonView::Array(items))])
}

/// The debug server is asked for its targets, where there is a session.
pub open spec fn targets_asked(s: AdapterView, request: JsonView, reason: ReasonView) -> (AdapterView, TurnView) {
    match adapter_session::attachment(s) {
        None => adapter_session::not_attached(s, request),
        Some((server, session)) => (
            s,
            adapter::asks(
                NextView::Send(
                    debug_server::base_post(server, "getDbgTargets"@, session),
                    reason,
                ),
            ),
        ),
    }
}

/// `DebugTargetsRequest`: the targets that can be attached.
pub open spec fn targets_replied(s: AdapterView, request: JsonView, reply: HttpReplyView) -> (AdapterView, TurnView) {
    match debug_server::targets_listed(reply) {
        Err(message) => adapter::refused(s, request, message),
        Ok(targets) => adapter::answered(s, request, items_body(unattached(s.threads, targets))),
    }
}

/// The target that a request names.
pub open spec fn wanted_target(request: JsonView) -> Option<Seq<char>> {
    let named = match json::text_of(json::argument(request, "Id"@)) {
        Some(id) => Some(id),
        None => json::text_of(json::argument(request, "id"@)),
    };
    match named {
        Some(id) if text::trim(id).len() > 0 => Some(text::trim(id)),
        _ => None,
    }
}

/// `AttachDebugTargetRequest`: the target that a request names is looked up first.
pub open spec fn attach_asked(s: AdapterView, request: JsonView) -> (AdapterView, TurnView) {
    match wanted_target(request) {
        None => adapter::refused(s, request, "AttachDebugTargetRequest requires arguments.Id"@),
        Some(target_id) => targets_asked(
            s,
            request,
            ReasonView::FindTarget { request, target_id },
        ),
    }
}

pub open spec fn has_target(targets: Seq<DebugTargetView>, target_id: Seq<char>) -> bool {
    exists|i: int| 0 <= i < targets.len() && (#[trigger] targets[i]).id == target_id
}

/// A target that disappeared meanwhile, or that is attached already, needs nothing more.
pub open spec fn find_replied(s: AdapterView, request: JsonView, target_id: Seq<char>, reply: HttpReplyView) -> (AdapterView, TurnView) {
    match debug_server::targets_listed(reply) {
        Err(message) => adapter::refused(s, request, message),
        Ok(targets) => if !has_target(targets, target_id) || ordered::lookup(s.threads, target_id)
            is Some {
            adapter::answered(s, request, adapter::no_body())
        } else {
            match adapter_session::attachment(s) {
                None => adapter_session::not_attached(s, request),
                Some((server, session)) => (
                    s,
                    adapter::asks(
                        NextView::Send(
                            debug_server::base_post(server, "clearBreakOnNextStatement"@, session),
                            ReasonView::PrepareTarget { request, target_id },
                        ),
                    ),
                ),
            }
        },
    }
}

pub open spec fn prepare_replied(s: AdapterView, request: JsonView, target_id: Seq<char>, reply: HttpReplyView) -> (AdapterView, TurnView) {
    match debug_server::acknowledged("clearBreakOnNextStatement"@, reply) {
        Err(message) => adapter::refused(
            s,
            request,
            "cannot clear 1C break-on-next-statement: "@ + message,
        ),
        Ok(_) => match adapter_session::attachment(s) {
            None => adapter_session::not_attached(s, request),
            Some((server, session)) => (
                s,
                adapter::asks(
                    NextView::Send(
                        debug_server::attach_targets_post(server, session, seq![target_id]),
                        ReasonView::AttachTarget { request, target_id },
                    ),
                ),
            ),
        },
    }
}

/// The largest thread number; zero where there is none.
pub open spec fn largest(threads: Seq<(Seq<char>, i64)>) -> int
    decreases threads.len(),
{
    if threads.len() == 0 {
        0
    } else if threads.len() == 1 || threads.last().1 >= largest(threads.drop_last()) {
        threads.last().1 as int
    } else {
        largest(threads.drop_last())
    }
}

/// The number of the next thread.
pub open spec fn next_thread(s: AdapterView) -> i64 {
    (largest(s.threads) + 1) as i64
}

/// A target is attached, under the next thread number.
pub open spec fn with_thread(s: AdapterView, target_id: Seq<char>) -> AdapterView {
    AdapterView {
        threads: ordered::inserted::<String, i64>(s.threads, target_id, next_thread(s)),
        ..s
    }
}

pub open spec fn thread_event_body(reason: Seq<char>, thread_id: i64) -> JsonView {
    JsonView::Object(
        seq![
            ("reason"@, JsonView::Str(reason)),
            ("threadId"@, JsonView::Integer(thread_id as int)),
        ],
    )
}

/// The events that tell of a thread that started or exited.
pub open spec fn thread_events(s: AdapterView, reason: Seq<char>, thread_id: i64) -> Seq<OutputView> {
    seq![
        adapter::next_event(s, "thread"@, thread_event_body(reason, thread_id)),
        adapter::next_event(adapter::counted(s, 1), "DebugTargetsUpdated"@, adapter::no_body()),
    ]
}

pub open spec fn attach_replied(s: AdapterView, request: JsonView, target_id: Seq<char>, reply: HttpReplyView) -> (AdapterView, TurnView) {
    match debug_server::acknowledged("attachDetachDbgTargets"@, reply) {
        Err(message) => adapter::refused(s, request, "cannot attach 1C target: "@ + message),
        Ok(_) => (
            adapter::counted(with_thread(s, target_id), 3),
            adapter::says(
                seq![adapter::next_response(s, request, adapter::no_body())] + thread_events(
                    adapter::counted(s, 1),
                    "started"@,
                    next_thread(s),
                ),
            ),
        ),
    }
}

/// How a kind of target is shown.
pub fn debug_target_type_presentation<'a>(target_type: &'a str) -> (r: &'a str)
    ensures
        r@ == target_type_shown(target_type@),
{
    if same(target_type, "Unknown") {
        "Неизвестный тип"
    } else if same(target_type, "Client") {
        "Толстый клиент"
    } else if same(target_type, "ManagedClient") {
        "Тонкий клиент"
    } else if same(target_type, "WEBClient") || same(target_type, "WebClient") {
        "Веб-клиент"
    } else if same(target_type, "COMConnector") || same(target_type, "ComConnector") {
        "COM-соединение"
    } else if same(target_type, "Server") {
        "Сервер"
    } else if same(target_type, "ServerEmulation") {
        "Сервер (файловый вариант)"
    } else if same(target_type, "WEBService") || same(target_type, "WebService") {
        "Веб-сервис"
    } else if same(target_type, "HTTPService") || same(target_type, "HttpService") {
        "Http-сервис"
    } else if same(target_type, "OData") {
        "Стандартный интерфейс OData"
    } else if same(target_type, "JOB") || same(target_type, "Job") {
        "Фоновое задание"
    } else if same(target_type, "JobFileMode") {
        "Фоновое задание (файловый вариант)"
    } else if same(target_type, "MobileClient") {
        "Клиент (мобильное приложение)"
    } else if same(target_type, "MobileServer") {
        "Сервер (мобильное приложение)"
    } else if same(target_type, "MobileJobFileMode") {
        "Фоновое задание (мобильное приложение)"
    } else if same(target_type, "MobileManagedClient") {
        "Мобильный клиент"
    } else if same(target_type, "MobileManagedServer") {
        "Автономный сервер (мобильный клиент с автономным режимом)"
    } else {
        target_type
    }
}

/// A target as the list of targets describes it.
pub fn debug_target_item(target: &DebugTarget) -> (r: Json)
    ensures
        r.deep_view() == target_body(target.deep_view()),
{
    let user = if target.user_name.as_str().is_empty() {
        "Неизвестный пользователь"
    } else {
        target.user_name.as_str()
    };
    let members = vec![
        pair("Id", string(target.id.as_str())),
        pair("User", string(user)),
        pair("Type", string(debug_target_type_presentation(target.target_type.as_str()))),
        pair("Seance", string(target.seance_no.as_str())),
    ];
    assert(members.deep_view() =~= target_body(target.deep_view())->Object_0);
    object(members)
}

fn describe_unattached(threads: &OrderedMap<String, i64>, targets: &Vec<DebugTarget>) -> (r: Vec<Json>)
    ensures
        r.deep_view() == unattached(threads.deep_view(), targets.deep_view()),
{
    let ghost all = targets.deep_view();
    assert(all.skip(0) =~= all);
    let mut out: Vec<Json> = none();
    let mut i: usize = 0;
    assert(out.deep_view() + unattached(threads.deep_view(), all) =~= unattached(
        threads.deep_view(),
        all,
    ));
    while i < targets.len()
        invariant
            i <= targets@.len(),
            all == targets.deep_view(),
            unattached(threads.deep_view(), all) == out.deep_view() + unattached(
                threads.deep_view(),
                all.skip(i as int),
            ),
        decreases targets@.len() - i,
    {
        let target = &targets[i];
        let ghost before = out.deep_view();
        let ghost rest = unattached(threads.deep_view(), all.skip(i + 1));
        assert(all.skip(i as int)[0] == target.deep_view());
        assert(all.skip(i as int).skip(1) =~= all.skip(i + 1));
        if threads.get(&target.id).is_none() {
            let item = debug_target_item(target);
            push(&mut out, item);
            assert(before + (seq![item.deep_view()] + rest) =~= before.push(item.deep_view())
                + rest);
        }
        i = i + 1;
    }
    assert(all.skip(i as int).len() == 0);
    assert(out.deep_view() + Seq::<JsonView>::empty() =~= out.deep_view());
    out
}

fn describe_thread(target_id: &str, thread_id: i64) -> (r: Json)
    ensures
        r.deep_view() == thread_body(target_id@, thread_id),
{
    let mut name = copy("1C target ");
    name.append(target_id);
    let members = vec![pair("id", signed(thread_id)), pair("name", Json::Str(name))];
    assert(members.deep_view() =~= thread_body(target_id@, thread_id)->Object_0);
    object(members)
}

fn describe_threads(threads: &OrderedMap<String, i64>) -> (r: Json)
    ensures
        r.deep_view() == threads_body(threads.deep_view()),
{
    let ghost all = threads.deep_view().map_values(
        |entry: (Seq<char>, i64)| thread_body(entry.0, entry.1),
    );
    let mut out: Vec<Json> = none();
    let mut i: usize = 0;
    while i < threads.len()
        invariant
            i <= threads.deep_view().len(),
            all == threads.deep_view().map_values(
                |entry: (Seq<char>, i64)| thread_body(entry.0, entry.1),
            ),
            out.deep_view() == all.take(i as int),
        decreases threads.deep_view().len() - i,
    {
        let entry = threads.at(i);
        push(&mut out, describe_thread(entry.0.as_str(), entry.1));
        assert(out.deep_view() =~= all.take(i + 1));
        i = i + 1;
    }
    assert(out.deep_view() =~= all);
    let members = vec![pair("threads", array(out))];
    assert(members.deep_view() =~= threads_body(threads.deep_view())->Object_0);
    object(members)
}

pub(crate) fn report_unknown_thread(thread_id: i64) -> (r: String)
    ensures
        r@ == unknown_thread(thread_id),
{
    let mut message = copy("unknown 1C debug thread ");
    message.append(decimal_i64(thread_id).as_str());
    message
}

fn continues_all(request: &Json) -> (r: bool)
    ensures
        r == all_continued(request.deep_view()),
{
    match find_argument(request, "singleThread") {
        Some(Json::Bool(true)) => false,
        _ => true,
    }
}

fn describe_step(action: StepAction, all: bool) -> (r: Json)
    ensures
        r.deep_view() == step_body(action, all),
{
    if action == StepAction::Continue {
        let members = vec![pair("allThreadsContinued", Json::Bool(all))];
        assert(members.deep_view() =~= step_body(action, all)->Object_0);
        object(members)
    } else {
        empty_body()
    }
}

fn describe_continued(thread_id: i64, all: bool) -> (r: Json)
    ensures
        r.deep_view() == continued_body(thread_id, all),
{
    let members = vec![
        pair("threadId", signed(thread_id)),
        pair("allThreadsContinued", Json::Bool(all)),
    ];
    assert(members.deep_view() =~= continued_body(thread_id, all)->Object_0);
    object(members)
}

fn read_texts(values: &Vec<Json>) -> (r: Option<Vec<String>>)
    ensures
        r.deep_view() == texts_of(values.deep_view()),
{
    let ghost all = values.deep_view();
    assert(all.skip(0) =~= all);
    let mut out: Vec<String> = none();
    let mut i: usize = 0;
    while i < values.len()
        invariant
            i <= values@.len(),
            all == values.deep_view(),
            texts_of(all) == match texts_of(all.skip(i as int)) {
                Some(rest) => Some(out.deep_view() + rest),
                None => None,
            },
        decreases values@.len() - i,
    {
        let ghost before = out.deep_view();
        assert(all.skip(i as int)[0] == values@[i as int].deep_view());
        assert(all.skip(i as int).skip(1) =~= all.skip(i + 1));
        match values[i].as_str() {
            Some(text) => {
                push(&mut out, copy(text));
                proof {
                    if texts_of(all.skip(i + 1)) is Some {
                        let rest = texts_of(all.skip(i + 1))->0;
                        assert(before + (seq![text@] + rest) =~= before.push(text@) + rest);
                    }
                }
            },
            None => {
                return None;
            },
        }
        i = i + 1;
    }
    assert(all.skip(i as int).len() == 0);
    assert(out.deep_view() + Seq::<Seq<char>>::empty() =~= out.deep_view());
    Some(out)
}

fn read_target_id(request: &Json) -> (r: Option<String>)
    ensures
        r.deep_view() == wanted_target(request.deep_view()),
{
    let named = match optional_text(find_argument(request, "Id")) {
        Some(id) => Some(id),
        None => optional_text(find_argument(request, "id")),
    };
    match named {
        Some(id) => {
            let id = trimmed(id);
            if id.as_str().is_empty() {
                None
            } else {
                Some(id)
            }
        },
        None => None,
    }
}

fn lists_target(targets: &Vec<DebugTarget>, target_id: &str) -> (r: bool)
    ensures
        r == has_target(targets.deep_view(), target_id@),
{
    let mut i: usize = 0;
    while i < targets.len()
        invariant
            i <= targets@.len(),
            forall|k: int| 0 <= k < i ==> (#[trigger] targets.deep_view()[k]).id != target_id@,
        decreases targets@.len() - i,
    {
        assert(targets.deep_view()[i as int] == targets@[i as int].deep_view());
        if same(targets[i].id.as_str(), target_id) {
            return true;
        }
        i = i + 1;
    }
    false
}

fn describe_thread_event(reason: &str, thread_id: i64) -> (r: Json)
    ensures
        r.deep_view() == thread_event_body(reason@, thread_id),
{
    let members = vec![pair("reason", string(reason)), pair("threadId", signed(thread_id))];
    assert(members.deep_view() =~= thread_event_body(reason@, thread_id)->Object_0);
    object(members)
}

/// No thread has a larger identifier than the largest.
pub proof fn lemma_largest(threads: Seq<(Seq<char>, i64)>)
    ensures
        forall|i: int| 0 <= i < threads.len() ==> (#[trigger] threads[i]).1 <= largest(threads),
        threads.len() > 0 ==> exists|i: int|
            0 <= i < threads.len() && (#[trigger] threads[i]).1 == largest(threads),
    decreases threads.len(),
{
    if threads.len() > 0 {
        lemma_largest(threads.drop_last());
        assert forall|i: int| 0 <= i < threads.len() implies (#[trigger] threads[i]).1 <= largest(
            threads,
        ) by {
            if i < threads.len() - 1 {
                assert(threads.drop_last()[i] == threads[i]);
            }
        }
        if largest(threads) != threads.last().1 {
            let i = choose|i: int|
                0 <= i < threads.drop_last().len() && (#[trigger] threads.drop_last()[i]).1
                    == largest(threads.drop_last());
            assert(threads[i].1 == largest(threads));
        } else {
            assert(threads[threads.len() - 1].1 == largest(threads));
        }
    }
}

impl Adapter {
    /// `threads`: the attached targets.
    pub fn list_threads(&mut self, request: &Json) -> (r: Turn)
        requires
            adapter::ready(old(self).deep_view()),
        ensures
            (final(self).deep_view(), r.deep_view()) == adapter::answered(
                old(self).deep_view(),
                request.deep_view(),
                threads_body(old(self).deep_view().threads),
            ),
    {
        let body = describe_threads(&self.threads);
        self.answer(request, body)
    }

    /// Handles `continue`, `next`, `stepIn` and `stepOut`.
    pub fn step(&mut self, request: &Json, action: StepAction) -> (r: Turn)
        requires
            adapter::ready(old(self).deep_view()),
        ensures
            (final(self).deep_view(), r.deep_view()) == step_asked(
                old(self).deep_view(),
                request.deep_view(),
                action,
            ),
    {
        let thread_id = match optional_i64(find_argument(request, "threadId")) {
            Some(thread_id) => thread_id,
            None => {
                return self.refuse(request, "step request requires threadId");
            },
        };
        let target_id = match self.target_id(thread_id) {
            Some(target_id) => copy(target_id),
            None => {
                return self.refuse(request, report_unknown_thread(thread_id).as_str());
            },
        };
        let command = match self.attached() {
            Some((server, session)) => server.step(session, target_id.as_str(), action),
            None => {
                return self.refuse_unattached(request);
            },
        };
        let record = trace_thread("dap.step.received", thread_id, target_id.as_str());
        let reason = Reason::Step { request: request.duplicate(), thread_id, target_id, action };
        Turn { outputs: one(record), stop_programs: false, next: Next::Send(command, reason) }
    }

    /// Goes on after the reply to a step.
    pub fn stepped(&mut self, request: &Json, thread_id: i64, target_id: &str, action: StepAction, reply: &HttpReply) -> (r: Turn)
        requires
            adapter::ready(old(self).deep_view()),
        ensures
            (final(self).deep_view(), r.deep_view()) == step_replied(
                old(self).deep_view(),
                request.deep_view(),
                thread_id,
                target_id@,
                action,
                reply.deep_view(),
            ),
    {
        let mut outputs = one(trace_thread("rdbg.step.response", thread_id, target_id));
        match acknowledgement("step", reply) {
            Ok(_) => {},
            Err(message) => {
                let refusal = self.refuse(request, message.as_str());
                append(&mut outputs, refusal.outputs);
                push(&mut outputs, trace_thread("dap.step.response", thread_id, target_id));
                assert(outputs.deep_view() =~= step_replied(
                    old(self).deep_view(),
                    request.deep_view(),
                    thread_id,
                    target_id@,
                    action,
                    reply.deep_view(),
                ).1.outputs);
                return speak_all(outputs);
            },
        }
        let all = continues_all(request);
        let answer = self.respond(request, describe_step(action, all));
        push(&mut outputs, answer);
        if action == StepAction::Continue || action == StepAction::StepIn {
            let event = self.notify("continued", describe_continued(thread_id, all));
            push(&mut outputs, event);
        }
        match self.active_poll {
            Some(poll) => {
                push(&mut outputs, trace_poll("rdbg.poll.cancel_requested", poll));
            },
            None => {},
        }
        let poll = self.begin_poll(Some(STEP_POLL_TIMEOUT));
        append(&mut outputs, poll.outputs);
        push(&mut outputs, trace_thread("dap.step.response", thread_id, target_id));
        assert(outputs.deep_view() =~= step_replied(
            old(self).deep_view(),
            request.deep_view(),
            thread_id,
            target_id@,
            action,
            reply.deep_view(),
        ).1.outputs);
        Turn { outputs, stop_programs: false, next: poll.next }
    }

    /// Handles `pause`.
    pub fn pause(&mut self, request: &Json) -> (r: Turn)
        requires
            adapter::ready(old(self).deep_view()),
        ensures
            (final(self).deep_view(), r.deep_view()) == pause_asked(
                old(self).deep_view(),
                request.deep_view(),
            ),
    {
        let command = match self.attached() {
            Some((server, session)) => server.break_on_next_statement(session),
            None => {
                return self.refuse_unattached(request);
            },
        };
        quiet(Next::Send(command, Reason::Pause(request.duplicate())))
    }

    /// Goes on after the reply to a pause.
    pub fn paused(&mut self, request: &Json, reply: &HttpReply) -> (r: Turn)
        requires
            adapter::ready(old(self).deep_view()),
        ensures
            (final(self).deep_view(), r.deep_view()) == pause_replied(
                old(self).deep_view(),
                request.deep_view(),
                reply.deep_view(),
            ),
    {
        let outcome = acknowledgement("setBreakOnNextStatement", reply);
        self.acknowledge(request, outcome, empty_body())
    }

    /// Handles `SetAutoAttachTargetTypesRequest`.
    pub fn set_auto_attach_target_types(&mut self, request: &Json) -> (r: Turn)
        requires
            adapter::ready(old(self).deep_view()),
        ensures
            (final(self).deep_view(), r.deep_view()) == auto_attach_asked(
                old(self).deep_view(),
                request.deep_view(),
            ),
    {
        let values = match optional_items(find_argument(request, "types")) {
            Some(values) => values,
            None => {
                return self.refuse(
                    request,
                    "SetAutoAttachTargetTypesRequest requires arguments.types",
                );
            },
        };
        let types = match read_texts(values) {
            Some(types) => types,
            None => {
                return self.refuse(request, "each auto-attach type must be a string");
            },
        };
        let outcome = match self.attached() {
            Some((server, session)) => server.set_auto_attach_types(session, &types),
            None => {
                return self.refuse_unattached(request);
            },
        };
        match outcome {
            Ok(command) => quiet(
                Next::Send(command, Reason::SetAutoAttachTypes(request.duplicate())),
            ),
            Err(message) => self.refuse(request, message.as_str()),
        }
    }

    /// Goes on after the reply to the setting of the kinds of targets.
    pub fn auto_attach_target_types_set(&mut self, request: &Json, reply: &HttpReply) -> (r: Turn)
        requires
            adapter::ready(old(self).deep_view()),
        ensures
            (final(self).deep_view(), r.deep_view()) == auto_attach_replied(
                old(self).deep_view(),
                request.deep_view(),
                reply.deep_view(),
            ),
    {
        let outcome = acknowledgement("setAutoAttachSettings", reply);
        self.acknowledge(request, outcome, empty_body())
    }

    fn ask_for_targets(&mut self, request: &Json, reason: Reason) -> (r: Turn)
        requires
            adapter::ready(old(self).deep_view()),
        ensures
            (final(self).deep_view(), r.deep_view()) == targets_asked(
                old(self).deep_view(),
                request.deep_view(),
                reason.deep_view(),
            ),
    {
        let command = match self.attached() {
            Some((server, session)) => server.get_debug_targets(session),
            None => {
                return self.refuse_unattached(request);
            },
        };
        quiet(Next::Send(command, reason))
    }

    /// Handles `DebugTargetsRequest`.
    pub fn debug_targets(&mut self, request: &Json) -> (r: Turn)
        requires
            adapter::ready(old(self).deep_view()),
        ensures
            (final(self).deep_view(), r.deep_view()) == targets_asked(
                old(self).deep_view(),
                request.deep_view(),
                ReasonView::ListTargets(request.deep_view()),
            ),
    {
        self.ask_for_targets(request, Reason::ListTargets(request.duplicate()))
    }

    /// Goes on after the reply to the listing of targets.
    pub fn debug_targets_listed(&mut self, request: &Json, reply: &HttpReply) -> (r: Turn)
        requires
            adapter::ready(old(self).deep_view()),
        ensures
            (final(self).deep_view(), r.deep_view()) == targets_replied(
                old(self).deep_view(),
                request.deep_view(),
                reply.deep_view(),
            ),
    {
        match listed_targets(reply) {
            Ok(targets) => {
                let items = describe_unattached(&self.threads, &targets);
                let ghost listed = items.deep_view();
                let members = vec![pair("Items", array(items))];
                assert(members.deep_view() =~= items_body(listed)->Object_0);
                self.answer(request, object(members))
            },
            Err(message) => self.refuse(request, message.as_str()),
        }
    }

    /// Handles `AttachDebugTargetRequest`.
    pub fn attach_debug_target(&mut self, request: &Json) -> (r: Turn)
        requires
            adapter::ready(old(self).deep_view()),
        ensures
            (final(self).deep_view(), r.deep_view()) == attach_asked(
                old(self).deep_view(),
                request.deep_view(),
            ),
    {
        match read_target_id(request) {
            Some(target_id) => self.ask_for_targets(
                request,
                Reason::FindTarget { request: request.duplicate(), target_id },
            ),
            None => self.refuse(request, "AttachDebugTargetRequest requires arguments.Id"),
        }
    }

    /// Goes on after the reply to the search for a target.
    pub fn target_found(&mut self, request: &Json, target_id: String, reply: &HttpReply) -> (r: Turn)
        requires
            adapter::ready(old(self).deep_view()),
        ensures
            (final(self).deep_view(), r.deep_view()) == find_replied(
                old(self).deep_view(),
                request.deep_view(),
                target_id@,
                reply.deep_view(),
            ),
    {
        let targets = match listed_targets(reply) {
            Ok(targets) => targets,
            Err(message) => {
                return self.refuse(request, message.as_str());
            },
        };
        if !lists_target(&targets, target_id.as_str()) || self.threads.get(&target_id).is_some() {
            return self.answer(request, empty_body());
        }
        let command = match self.attached() {
            Some((server, session)) => server.clear_break_on_next_statement(session),
            None => {
                return self.refuse_unattached(request);
            },
        };
        let reason = Reason::PrepareTarget { request: request.duplicate(), target_id };
        quiet(Next::Send(command, reason))
    }

    /// Goes on after the reply to the preparation of a target.
    pub fn target_prepared(&mut self, request: &Json, target_id: String, reply: &HttpReply) -> (r: Turn)
        requires
            adapter::ready(old(self).deep_view()),
        ensures
            (final(self).deep_view(), r.deep_view()) == prepare_replied(
                old(self).deep_view(),
                request.deep_view(),
                target_id@,
                reply.deep_view(),
            ),
    {
        match acknowledgement("clearBreakOnNextStatement", reply) {
            Ok(_) => {},
            Err(message) => {
                let mut report = copy("cannot clear 1C break-on-next-statement: ");
                report.append(message.as_str());
                return self.refuse(request, report.as_str());
            },
        }
        let command = match self.attached() {
            Some((server, session)) => server.attach_debug_target(session, target_id.as_str()),
            None => {
                return self.refuse_unattached(request);
            },
        };
        let reason = Reason::AttachTarget { request: request.duplicate(), target_id };
        quiet(Next::Send(command, reason))
    }

    /// Gives a target the next thread number.
    pub fn start_thread(&mut self, target_id: String) -> (r: i64)
        requires
            adapter::ready(old(self).deep_view()),
        ensures
            r == next_thread(old(self).deep_view()),
            final(self).deep_view() == with_thread(old(self).deep_view(), target_id@),
    {
        let ghost all = self.threads.deep_view();
        let mut top: i64 = 0;
        let mut i: usize = 0;
        assert(all.take(0).len() == 0);
        while i < self.threads.len()
            invariant
                i <= all.len(),
                all == self.threads.deep_view(),
                top == largest(all.take(i as int)),
            decreases all.len() - i,
        {
            let number: i64 = self.threads.at(i).1;
            assert(number == all[i as int].1);
            assert(all.take(i + 1).drop_last() =~= all.take(i as int));
            if i == 0 || number >= top {
                top = number;
            }
            i = i + 1;
        }
        assert(all.take(i as int) =~= all);
        proof {
            lemma_largest(all);
        }
        let thread_id: i64 = top + 1;
        self.threads.insert(target_id, thread_id);
        thread_id
    }

    /// Tells of a thread that started or exited.
    pub fn notify_thread(&mut self, reason: &str, thread_id: i64) -> (r: Vec<Output>)
        requires
            old(self).next_sequence + 2 <= u64::MAX,
        ensures
            r.deep_view() == thread_events(old(self).deep_view(), reason@, thread_id),
            final(self).deep_view() == adapter::counted(old(self).deep_view(), 2),
    {
        let started = self.notify("thread", describe_thread_event(reason, thread_id));
        let updated = self.notify("DebugTargetsUpdated", empty_body());
        let outputs = vec![started, updated];
        assert(outputs.deep_view() =~= thread_events(old(self).deep_view(), reason@, thread_id));
        outputs
    }

    /// Goes on after the reply to the attachment of a target.
    pub fn target_attached(&mut self, request: &Json, target_id: String, reply: &HttpReply) -> (r: Turn)
        requires
            adapter::ready(old(self).deep_view()),
        ensures
            (final(self).deep_view(), r.deep_view()) == attach_replied(
                old(self).deep_view(),
                request.deep_view(),
                target_id@,
                reply.deep_view(),
            ),
    {
        match acknowledgement("attachDetachDbgTargets", reply) {
            Ok(_) => {},
            Err(message) => {
                let mut report = copy("cannot attach 1C target: ");
                report.append(message.as_str());
                return self.refuse(request, report.as_str());
            },
        }
        let thread_id = self.start_thread(target_id);
        let answer = self.respond(request, empty_body());
        let mut outputs = one(answer);
        let events = self.notify_thread("started", thread_id);
        append(&mut outputs, events);
        speak_all(outputs)
    }
}

} // verus!
