//! Breakpoints in sources, and stops on runtime errors.

use crate::adapter;
use crate::adapter::{
    quiet, Adapter, AdapterView, Next, NextView, Reason, ReasonView, Turn, TurnView,
};
use crate::adapter_frames;
use crate::adapter_frames::describe_source;
use crate::adapter_session;
use crate::debug_server;
use crate::debug_server::{acknowledgement, HttpReply, HttpReplyView};
use crate::debug_types::{
    duplicate_breakpoints, ModuleBreakpoints, ModuleBreakpointsView, SourceBreakpoint,
    SourceBreakpointView,
};
use crate::json;
use crate::json::{
    array, find_argument, object, optional_i64, optional_items, optional_text, pair, signed, Json,
    JsonView,
};
use crate::list::{none, one, push};
use crate::metadata;
use crate::number;
use crate::number::parse_integer;
use crate::ordered;
use crate::ordered::OrderedMap;
use crate::text;
use crate::text::{copy, is_blank};
use vstd::prelude::*;

verus! {

/// The hit count of a breakpoint, where one is given.
pub open spec fn hit_count(value: JsonView) -> Result<Option<i64>, Seq<char>> {
    match json::text_of(value) {
        Some(count) if text::trim(count).len() > 0 => match number::parsed(
            count,
            i64::MIN as int,
            i64::MAX as int,
        ) {
            Some(n) => Ok(Some(n as i64)),
            None => Err("hitCondition must be an integer"@),
        },
        _ => Ok(None),
    }
}

/// A breakpoint as a request describes it.
pub open spec fn breakpoint_of(value: JsonView) -> Result<SourceBreakpointView, Seq<char>> {
    match json::signed_of(json::field(value, "line"@)) {
        Some(line) if line > 0 => match hit_count(json::field(value, "hitCondition"@)) {
            Ok(hit_condition) => Ok(
                SourceBreakpointView {
                    line,
                    condition: json::text_of(json::field(value, "condition"@)),
                    hit_condition,
                    log_message: json::text_of(json::field(value, "logMessage"@)),
                },
            ),
            Err(message) => Err(message),
        },
        _ => Err("each source breakpoint requires a positive line number"@),
    }
}

/// All breakpoints, or what is wrong with the first that is not well described.
pub open spec fn breakpoints_of(values: Seq<JsonView>) -> Result<Seq<SourceBreakpointView>, Seq<char>>
    decreases values.len(),
{
    if values.len() == 0 {
        Ok(Seq::empty())
    } else {
        match breakpoint_of(values[0]) {
            Err(message) => Err(message),
            Ok(first) => match breakpoints_of(values.skip(1)) {
                Err(message) => Err(message),
                Ok(rest) => Ok(seq![first] + rest),
            },
        }
    }
}

/// The breakpoints of a request.
pub open spec fn requested_breakpoints(request: JsonView) -> Result<Seq<SourceBreakpointView>, Seq<char>> {
    match json::items_of(json::argument(request, "breakpoints"@)) {
        None => Err("setBreakpoints requires arguments.breakpoints"@),
        Some(values) => breakpoints_of(values),
    }
}

/// The breakpoints of all modules, in the order of the modules' identities.
pub open spec fn workspace(modules: Seq<((Seq<char>, Seq<char>, Seq<char>), Seq<SourceBreakpointView>)>) -> Seq<ModuleBreakpointsView> {
    modules.map_values(
        |entry: ((Seq<char>, Seq<char>, Seq<char>), Seq<SourceBreakpointView>)|
            ModuleBreakpointsView {
                extension_name: entry.0.0,
                object_id: entry.0.1,
                property_id: entry.0.2,
                breakpoints: entry.1,
            },
    )
}

/// `setBreakpoints`: the path of the source has to be resolved first.
pub open spec fn breakpoints_asked(s: AdapterView, request: JsonView) -> (AdapterView, TurnView) {
    match json::text_of(json::field(json::argument(request, "source"@), "path"@)) {
        Some(path) if path.len() > 0 => if s.module_registry is Some {
            (s, adapter::asks(NextView::ResolveSource(request, path)))
        } else {
            no_sources(s, request)
        },
        _ => adapter::refused(s, request, "setBreakpoints requires arguments.source.path"@),
    }
}

pub open spec fn no_sources(s: AdapterView, request: JsonView) -> (AdapterView, TurnView) {
    adapter::refused(s, request, "setBreakpoints requires rootProject in the launch configuration"@)
}

/// The state with the breakpoints of one module.
pub open spec fn with_breakpoints(s: AdapterView, module: metadata::ModuleInfoView, breakpoints: Seq<SourceBreakpointView>) -> AdapterView {
    AdapterView {
        module_breakpoints: ordered::inserted::<
            (String, String, String),
            Seq<SourceBreakpointView>,
        >(s.module_breakpoints, metadata::identity(module), breakpoints),
        ..s
    }
}

/// The path of a source is resolved, or nothing is there: the breakpoints of its module are
/// taken over, and those of all modules are submitted.
pub open spec fn breakpoints_resolved(s: AdapterView, request: JsonView, path: Seq<char>, canonical: Option<Seq<char>>) -> (AdapterView, TurnView) {
    match s.module_registry {
        None => no_sources(s, request),
        Some(registry) => match metadata::module_at(registry, path, canonical) {
            Err(message) => adapter::refused(s, request, message),
            Ok(module) => match requested_breakpoints(request) {
                Err(message) => adapter::refused(s, request, message),
                Ok(breakpoints) => {
                    let next = with_breakpoints(s, module, breakpoints);
                    match adapter_session::attachment(s) {
                        None => adapter_session::not_attached(next, request),
                        Some((server, session)) => (
                            next,
                            adapter::asks(
                                NextView::Send(
                                    debug_server::breakpoints_post(
                                        server,
                                        session,
                                        workspace(next.module_breakpoints),
                                    ),
                                    ReasonView::SetBreakpoints { request, path, breakpoints },
                                ),
                            ),
                        ),
                    }
                },
            },
        },
    }
}

/// A breakpoint that was set.
pub open spec fn verified_breakpoint(path: Seq<char>, breakpoint: SourceBreakpointView) -> JsonView {
    JsonView::Object(
        seq![
            ("verified"@, JsonView::Bool(true)),
            ("line"@, JsonView::Integer(breakpoint.line as int)),
            ("source"@, adapter_frames::source_body(path)),
        ],
    )
}

pub open spec fn breakpoints_body(path: Seq<char>, breakpoints: Seq<SourceBreakpointView>) -> JsonView {
    JsonView::Object(
        seq![
            (
                "breakpoints"@,
                JsonView::Array(
                    breakpoints.map_values(
                        |breakpoint: SourceBreakpointView| verified_breakpoint(path, breakpoint),
                    ),
                ),
            ),
        ],
    )
}

/// A request is answered where a command was carried out, and refused where it failed.
pub open spec fn acknowledged_request(s: AdapterView, request: JsonView, outcome: Result<(), Seq<char>>, body: JsonView) -> (AdapterView, TurnView) {
    match outcome {
        Ok(_) => adapter::answered(s, request, body),
        Err(message) => adapter::refused(s, request, message),
    }
}

pub open spec fn breakpoints_replied(s: AdapterView, request: JsonView, path: Seq<char>, breakpoints: Seq<SourceBreakpointView>, reply: HttpReplyView) -> (AdapterView, TurnView) {
    acknowledged_request(
        s,
        request,
        debug_server::acknowledged("setBreakpoints"@, reply),
        breakpoints_body(path, breakpoints),
    )
}

/// The condition of the first option that has one.
pub open spec fn first_condition(options: Seq<JsonView>) -> Option<Seq<char>>
    decreases options.len(),
{
    if options.len() == 0 {
        None
    } else {
        match json::text_of(json::field(options[0], "condition"@)) {
            Some(condition) => Some(condition),
            None => first_condition(options.skip(1)),
        }
    }
}

/// The condition of the first option that has one, unless it is empty.
pub open spec fn error_template(options: Seq<JsonView>) -> Option<Seq<char>> {
    match first_condition(options) {
        Some(condition) if condition.len() > 0 => Some(condition),
        _ => None,
    }
}

pub open spec fn items_or_none(value: JsonView) -> Seq<JsonView> {
    match json::items_of(value) {
        Some(items) => items,
        None => Seq::empty(),
    }
}

/// `setExceptionBreakpoints`: runtime errors stop where any filter or option is given.
pub open spec fn exception_breakpoints_asked(s: AdapterView, request: JsonView) -> (AdapterView, TurnView) {
    let filters = items_or_none(json::argument(request, "filters"@));
    let options = items_or_none(json::argument(request, "filterOptions"@));
    match adapter_session::attachment(s) {
        None => adapter_session::not_attached(s, request),
        Some((server, session)) => (
            s,
            adapter::asks(
                NextView::Send(
                    debug_server::runtime_error_post(
                        server,
                        session,
                        filters.len() > 0 || options.len() > 0,
                        error_template(options),
                    ),
                    ReasonView::SetExceptionBreakpoints(request),
                ),
            ),
        ),
    }
}

pub open spec fn exception_breakpoints_body() -> JsonView {
    JsonView::Object(
        seq![
            (
                "breakpoints"@,
                JsonView::Array(
                    seq![JsonView::Object(seq![("verified"@, JsonView::Bool(true))])],
                ),
            ),
        ],
    )
}

pub open spec fn exception_breakpoints_replied(s: AdapterView, request: JsonView, reply: HttpReplyView) -> (AdapterView, TurnView) {
    acknowledged_request(
        s,
        request,
        debug_server::acknowledged("setBreakOnRTE"@, reply),
        exception_breakpoints_body(),
    )
}

fn copy_text(value: Option<&Json>) -> (r: Option<String>)
    ensures
        r.deep_view() == json::text_of(json::optional(value)),
{
    match optional_text(value) {
        Some(text) => Some(copy(text)),
        None => None,
    }
}

fn read_hit_count(value: Option<&Json>) -> (r: Result<Option<i64>, String>)
    ensures
        text::outcome(r) == hit_count(json::optional(value)),
{
    let count = match optional_text(value) {
        Some(count) => count,
        None => {
            return Ok(None);
        },
    };
    if is_blank(count) {
        return Ok(None);
    }
    match parse_integer(count, i64::MIN, i64::MAX as u64) {
        Some(n) => Ok(Some(n as i64)),
        None => Err(copy("hitCondition must be an integer")),
    }
}

fn read_breakpoint(value: &Json) -> (r: Result<SourceBreakpoint, String>)
    ensures
        text::outcome(r) == breakpoint_of(value.deep_view()),
{
    let line: i64 = match optional_i64(value.get("line")) {
        Some(line) => line,
        None => 0,
    };
    if line <= 0 {
        return Err(copy("each source breakpoint requires a positive line number"));
    }
    let condition = copy_text(value.get("condition"));
    let log_message = copy_text(value.get("logMessage"));
    match read_hit_count(value.get("hitCondition")) {
        Ok(hit_condition) => Ok(SourceBreakpoint { line, condition, hit_condition, log_message }),
        Err(message) => Err(message),
    }
}

/// The breakpoints of a `setBreakpoints` request.
pub fn dap_source_breakpoints(request: &Json) -> (r: Result<Vec<SourceBreakpoint>, String>)
    ensures
        text::outcome(r) == requested_breakpoints(request.deep_view()),
{
    let values = match optional_items(find_argument(request, "breakpoints")) {
        Some(values) => values,
        None => {
            return Err(copy("setBreakpoints requires arguments.breakpoints"));
        },
    };
    let ghost all = values.deep_view();
    assert(all.skip(0) =~= all);
    let mut out: Vec<SourceBreakpoint> = none();
    let mut i: usize = 0;
    while i < values.len()
        invariant
            i <= values@.len(),
            all == values.deep_view(),
            requested_breakpoints(request.deep_view()) == breakpoints_of(all),
            breakpoints_of(all) == match breakpoints_of(all.skip(i as int)) {
                Ok(rest) => Ok(out.deep_view() + rest),
                Err(message) => Err(message),
            },
        decreases values@.len() - i,
    {
        let ghost before = out.deep_view();
        assert(all.skip(i as int)[0] == values@[i as int].deep_view());
        assert(all.skip(i as int).skip(1) =~= all.skip(i + 1));
        match read_breakpoint(&values[i]) {
            Ok(breakpoint) => {
                push(&mut out, breakpoint);
                proof {
                    if breakpoints_of(all.skip(i + 1)) is Ok {
                        let rest = breakpoints_of(all.skip(i + 1))->Ok_0;
                        assert(before + (seq![breakpoint.deep_view()] + rest) =~= before.push(
                            breakpoint.deep_view(),
                        ) + rest);
                    }
                }
            },
            Err(message) => {
                return Err(message);
            },
        }
        i = i + 1;
    }
    assert(all.skip(i as int).len() == 0);
    assert(out.deep_view() + Seq::<SourceBreakpointView>::empty() =~= out.deep_view());
    Ok(out)
}

fn list_workspace(modules: &OrderedMap<(String, String, String), Vec<SourceBreakpoint>>) -> (r: Vec<ModuleBreakpoints>)
    ensures
        r.deep_view() == workspace(modules.deep_view()),
{
    let ghost all = workspace(modules.deep_view());
    let mut out: Vec<ModuleBreakpoints> = none();
    let mut i: usize = 0;
    while i < modules.len()
        invariant
            i <= modules.deep_view().len(),
            all == workspace(modules.deep_view()),
            out.deep_view() == all.take(i as int),
        decreases modules.deep_view().len() - i,
    {
        let entry = modules.at(i);
        let module = ModuleBreakpoints {
            extension_name: copy(entry.0.0.as_str()),
            object_id: copy(entry.0.1.as_str()),
            property_id: copy(entry.0.2.as_str()),
            breakpoints: duplicate_breakpoints(&entry.1),
        };
        push(&mut out, module);
        assert(out.deep_view() =~= all.take(i + 1));
        i = i + 1;
    }
    assert(out.deep_view() =~= all);
    out
}

fn describe_breakpoint(path: &str, breakpoint: &SourceBreakpoint) -> (r: Json)
    ensures
        r.deep_view() == verified_breakpoint(path@, breakpoint.deep_view()),
{
    let members = vec![
        pair("verified", Json::Bool(true)),
        pair("line", signed(breakpoint.line)),
        pair("source", describe_source(path)),
    ];
    assert(members.deep_view() =~= verified_breakpoint(path@, breakpoint.deep_view())->Object_0);
    object(members)
}

fn describe_breakpoints(path: &str, breakpoints: &Vec<SourceBreakpoint>) -> (r: Json)
    ensures
        r.deep_view() == breakpoints_body(path@, breakpoints.deep_view()),
{
    let ghost all = breakpoints.deep_view().map_values(
        |breakpoint: SourceBreakpointView| verified_breakpoint(path@, breakpoint),
    );
    let mut out: Vec<Json> = none();
    let mut i: usize = 0;
    while i < breakpoints.len()
        invariant
            i <= breakpoints@.len(),
            all == breakpoints.deep_view().map_values(
                |breakpoint: SourceBreakpointView| verified_breakpoint(path@, breakpoint),
            ),
            out.deep_view() == all.take(i as int),
        decreases breakpoints@.len() - i,
    {
        push(&mut out, describe_breakpoint(path, &breakpoints[i]));
        assert(out.deep_view() =~= all.take(i + 1));
        i = i + 1;
    }
    assert(out.deep_view() =~= all);
    let members = vec![pair("breakpoints", array(out))];
    assert(members.deep_view() =~= breakpoints_body(path@, breakpoints.deep_view())->Object_0);
    object(members)
}

fn describe_exception_breakpoints() -> (r: Json)
    ensures
        r.deep_view() == exception_breakpoints_body(),
{
    let breakpoint = vec![pair("verified", Json::Bool(true))];
    assert(breakpoint.deep_view() =~= seq![("verified"@, JsonView::Bool(true))]);
    let members = vec![pair("breakpoints", array(one(object(breakpoint))))];
    assert(members.deep_view() =~= exception_breakpoints_body()->Object_0);
    object(members)
}

fn find_template(options: &Vec<Json>) -> (r: Option<&str>)
    ensures
        r.deep_view() == error_template(options.deep_view()),
{
    let ghost all = options.deep_view();
    assert(all.skip(0) =~= all);
    let mut i: usize = 0;
    while i < options.len()
        invariant
            i <= options@.len(),
            all == options.deep_view(),
            first_condition(all) == first_condition(all.skip(i as int)),
        decreases options@.len() - i,
    {
        assert(all.skip(i as int)[0] == options@[i as int].deep_view());
        assert(all.skip(i as int).skip(1) =~= all.skip(i + 1));
        match optional_text(options[i].get("condition")) {
            Some(condition) => {
                if condition.is_empty() {
                    return None;
                }
                return Some(condition);
            },
            None => {},
        }
        i = i + 1;
    }
    assert(all.skip(i as int).len() == 0);
    None
}

impl Adapter {
    /// Handles `setBreakpoints`: the path of the source has to be resolved first.
    pub fn set_breakpoints(&mut self, request: &Json) -> (r: Turn)
        requires
            adapter::ready(old(self).deep_view()),
        ensures
            (final(self).deep_view(), r.deep_view()) == breakpoints_asked(
                old(self).deep_view(),
                request.deep_view(),
            ),
    {
        let source = match find_argument(request, "source") {
            Some(source) => source.get("path"),
            None => None,
        };
        let path = match optional_text(source) {
            Some(path) => path,
            None => {
                return self.refuse(request, "setBreakpoints requires arguments.source.path");
            },
        };
        if path.is_empty() {
            return self.refuse(request, "setBreakpoints requires arguments.source.path");
        }
        if self.module_registry.is_none() {
            return self.refuse(
                request,
                "setBreakpoints requires rootProject in the launch configuration",
            );
        }
        quiet(Next::ResolveSource(request.duplicate(), copy(path)))
    }

    /// Goes on with the breakpoints of a source whose path is resolved.
    pub fn source_resolved(&mut self, request: &Json, path: &str, canonical: Option<&str>) -> (r: Turn)
        requires
            adapter::ready(old(self).deep_view()),
        ensures
            (final(self).deep_view(), r.deep_view()) == breakpoints_resolved(
                old(self).deep_view(),
                request.deep_view(),
                path@,
                canonical.deep_view(),
            ),
    {
        let registry = match &self.module_registry {
            Some(registry) => registry,
            None => {
                return self.refuse(
                    request,
                    "setBreakpoints requires rootProject in the launch configuration",
                );
            },
        };
        let module = match registry.module_by_path(path, canonical) {
            Ok(module) => module.duplicate(),
            Err(message) => {
                return self.refuse(request, message.as_str());
            },
        };
        let breakpoints = match dap_source_breakpoints(request) {
            Ok(breakpoints) => breakpoints,
            Err(message) => {
                return self.refuse(request, message.as_str());
            },
        };
        let key = (module.extension_name, module.object_id, module.property_id);
        self.module_breakpoints.insert(key, duplicate_breakpoints(&breakpoints));
        let modules = list_workspace(&self.module_breakpoints);
        let submission = match self.attached() {
            Some((server, session)) => server.set_breakpoints(session, &modules),
            None => {
                return self.refuse_unattached(request);
            },
        };
        let reason = Reason::SetBreakpoints {
            request: request.duplicate(),
            path: copy(path),
            breakpoints,
        };
        quiet(Next::Send(submission, reason))
    }

    /// Answers a request where a command was carried out, and refuses it where it failed.
    pub fn acknowledge(&mut self, request: &Json, outcome: Result<(), String>, body: Json) -> (r: Turn)
        requires
            old(self).next_sequence < u64::MAX,
        ensures
            (final(self).deep_view(), r.deep_view()) == acknowledged_request(
                old(self).deep_view(),
                request.deep_view(),
                text::outcome(outcome),
                body.deep_view(),
            ),
    {
        match outcome {
            Ok(_) => self.answer(request, body),
            Err(message) => self.refuse(request, message.as_str()),
        }
    }

    /// Goes on after the reply to the submission of breakpoints.
    pub fn breakpoints_set(&mut self, request: &Json, path: &str, breakpoints: &Vec<SourceBreakpoint>, reply: &HttpReply) -> (r: Turn)
        requires
            adapter::ready(old(self).deep_view()),
        ensures
            (final(self).deep_view(), r.deep_view()) == breakpoints_replied(
                old(self).deep_view(),
                request.deep_view(),
                path@,
                breakpoints.deep_view(),
                reply.deep_view(),
            ),
    {
        let outcome = acknowledgement("setBreakpoints", reply);
        self.acknowledge(request, outcome, describe_breakpoints(path, breakpoints))
    }

    /// Handles `setExceptionBreakpoints`.
    pub fn set_exception_breakpoints(&mut self, request: &Json) -> (r: Turn)
        requires
            adapter::ready(old(self).deep_view()),
        ensures
            (final(self).deep_view(), r.deep_view()) == exception_breakpoints_asked(
                old(self).deep_view(),
                request.deep_view(),
            ),
    {
        let filtered = match optional_items(find_argument(request, "filters")) {
            Some(filters) => filters.len() > 0,
            None => false,
        };
        let (optioned, template) = match optional_items(find_argument(request, "filterOptions")) {
            Some(options) => (options.len() > 0, find_template(options)),
            None => (false, None),
        };
        let command = match self.attached() {
            Some((server, session)) => server.set_runtime_error_processing(
                session,
                filtered || optioned,
                template,
            ),
            None => {
                return self.refuse_unattached(request);
            },
        };
        quiet(Next::Send(command, Reason::SetExceptionBreakpoints(request.duplicate())))
    }

    /// Goes on after the reply to the setting of runtime error processing.
    pub fn exception_breakpoints_set(&mut self, request: &Json, reply: &HttpReply) -> (r: Turn)
        requires
            adapter::ready(old(self).deep_view()),
        ensures
            (final(self).deep_view(), r.deep_view()) == exception_breakpoints_replied(
                old(self).deep_view(),
                request.deep_view(),
                reply.deep_view(),
            ),
    {
        let outcome = acknowledgement("setBreakOnRTE", reply);
        self.acknowledge(request, outcome, describe_exception_breakpoints())
    }
}

/// Breakpoints are submitted for all modules at once: those of the module that they are set for are
/// the new ones, and those of the others are what they were.
pub proof fn all_breakpoints_are_submitted(s: AdapterView, request: JsonView, path: Seq<char>, canonical: Option<Seq<char>>)
    requires
        ordered::sorted::<(String, String, String), Seq<SourceBreakpointView>>(
            s.module_breakpoints,
        ),
        adapter_session::attachment(s) is Some,
        s.module_registry is Some,
        metadata::module_at(s.module_registry->0, path, canonical) is Ok,
        requested_breakpoints(request) is Ok,
    ensures
        ({
            let (server, session) = adapter_session::attachment(s)->0;
            let module = metadata::module_at(s.module_registry->0, path, canonical)->Ok_0;
            let breakpoints = requested_breakpoints(request)->Ok_0;
            let (next, turn) = breakpoints_resolved(s, request, path, canonical);
            &&& turn.next matches NextView::Send(submission, _) && submission
                == debug_server::breakpoints_post(
                server,
                session,
                workspace(next.module_breakpoints),
            )
            &&& ordered::lookup(next.module_breakpoints, metadata::identity(module)) == Some(
                breakpoints,
            )
            &&& forall|other: (Seq<char>, Seq<char>, Seq<char>)|
                other != metadata::identity(module) ==> #[trigger] ordered::lookup(
                    next.module_breakpoints,
                    other,
                ) == ordered::lookup(s.module_breakpoints, other)
        }),
{
    let module = metadata::module_at(s.module_registry->0, path, canonical)->Ok_0;
    ordered::lemma_inserted::<(String, String, String), Seq<SourceBreakpointView>>(
        s.module_breakpoints,
        metadata::identity(module),
        requested_breakpoints(request)->Ok_0,
    );
}

} // verus!
