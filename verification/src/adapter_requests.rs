//! The requests of the protocol, and the replies of the debug server that they wait for.

use crate::adapter;
use crate::adapter::{Adapter, AdapterView, EndingView, Reason, ReasonView, Turn, TurnView};
use crate::adapter_breakpoints;
use crate::adapter_connect;
use crate::adapter_evaluation;
use crate::adapter_events;
use crate::adapter_frames;
use crate::adapter_session;
use crate::adapter_targets;
use crate::debug_server;
use crate::debug_server::{new_uuid, HttpReply, HttpReplyView};
use crate::debug_types::StepAction;
use crate::json;
use crate::json::{array, object, optional_text, pair, string, Json, JsonView};
use crate::list::one;
use crate::text::{copy, same};
use vstd::prelude::*;

verus! {

/// A message is a request.
pub open spec fn requests(message: JsonView) -> bool {
    json::text_of(json::field(message, "type"@)) == Some("request"@)
}

/// Whether a message is a request; others are ignored.
pub fn is_request(message: &Json) -> (r: bool)
    ensures
        r == requests(message.deep_view()),
{
    match optional_text(message.get("type")) {
        Some(kind) => same(kind, "request"),
        None => false,
    }
}

/// What the adapter can do.
pub open spec fn capabilities() -> JsonView {
    JsonView::Object(
        seq![
            ("supportsConfigurationDoneRequest"@, JsonView::Bool(true)),
            ("supportsConditionalBreakpoints"@, JsonView::Bool(true)),
            ("supportsHitConditionalBreakpoints"@, JsonView::Bool(true)),
            ("supportsLogPoints"@, JsonView::Bool(true)),
            ("supportsEvaluateForHovers"@, JsonView::Bool(true)),
            ("supportsTerminateRequest"@, JsonView::Bool(true)),
            ("supportsSingleThreadExecutionRequests"@, JsonView::Bool(true)),
            ("supportsExceptionFilterOptions"@, JsonView::Bool(true)),
            ("exceptionBreakpointFilters"@, JsonView::Array(seq![exception_filter()])),
        ],
    )
}

pub open spec fn exception_filter() -> JsonView {
    JsonView::Object(
        seq![
            ("filter"@, JsonView::Str("all"@)),
            ("label"@, JsonView::Str("1C runtime errors"@)),
            ("default"@, JsonView::Bool(false)),
        ],
    )
}

/// The command of a request; a missing one is empty.
pub open spec fn command_of(request: JsonView) -> Seq<char> {
    match json::text_of(json::field(request, "command"@)) {
        Some(command) => command,
        None => Seq::empty(),
    }
}

pub open spec fn unknown_command(command: Seq<char>) -> Seq<char> {
    "DAP command `"@ + command + "` is not implemented yet"@
}

/// The first step that a request leads to. A calculation that it starts is known under the
/// identifier.
pub open spec fn handled(s: AdapterView, request: JsonView, id: Seq<char>) -> (AdapterView, TurnView) {
    let command = command_of(request);
    if command == "initialize"@ {
        adapter::answered(s, request, capabilities())
    } else if command == "launch"@ {
        adapter_connect::connect_asked(s, request, true)
    } else if command == "attach"@ {
        adapter_connect::connect_asked(s, request, false)
    } else if command == "configurationDone"@ {
        adapter_connect::configuration_done(s, request)
    } else if command == "threads"@ {
        adapter::answered(s, request, adapter_targets::threads_body(s.threads))
    } else if command == "stackTrace"@ {
        adapter_frames::stack_traced(s, request)
    } else if command == "scopes"@ {
        adapter_frames::scoped(s, request)
    } else if command == "variables"@ {
        adapter_evaluation::variables_asked(s, request, id)
    } else if command == "continue"@ {
        adapter_targets::step_asked(s, request, StepAction::Continue)
    } else if command == "next"@ {
        adapter_targets::step_asked(s, request, StepAction::Next)
    } else if command == "stepIn"@ {
        adapter_targets::step_asked(s, request, StepAction::StepIn)
    } else if command == "stepOut"@ {
        adapter_targets::step_asked(s, request, StepAction::StepOut)
    } else if command == "pause"@ {
        adapter_targets::pause_asked(s, request)
    } else if command == "setBreakpoints"@ {
        adapter_breakpoints::breakpoints_asked(s, request)
    } else if command == "setExceptionBreakpoints"@ {
        adapter_breakpoints::exception_breakpoints_asked(s, request)
    } else if command == "SetAutoAttachTargetTypesRequest"@ {
        adapter_targets::auto_attach_asked(s, request)
    } else if command == "DebugTargetsRequest"@ {
        adapter_targets::targets_asked(s, request, ReasonView::ListTargets(request))
    } else if command == "AttachDebugTargetRequest"@ {
        adapter_targets::attach_asked(s, request)
    } else if command == "evaluate"@ {
        adapter_evaluation::evaluate_asked(s, request, id)
    } else if command == "disconnect"@ || command == "terminate"@ {
        adapter_session::ending_begun(s, EndingView::Requested(request))
    } else {
        adapter::refused(s, request, unknown_command(command))
    }
}

/// The step that the reply to an HTTP request leads to. A session that it begins is known under
/// the identifier.
pub open spec fn replied_to(s: AdapterView, reason: ReasonView, reply: HttpReplyView, id: Seq<char>) -> (AdapterView, TurnView) {
    match reason {
        ReasonView::Test(attaching) => adapter_connect::test_replied(s, attaching, reply, id),
        ReasonView::Register(attaching, session) => adapter_connect::register_replied(
            s,
            attaching,
            session,
            reply,
        ),
        ReasonView::Configure(attaching, session) => adapter_connect::configure_replied(
            s,
            attaching,
            session,
            reply,
        ),
        ReasonView::GiveUp(attaching, message) => adapter_connect::give_up_replied(
            s,
            attaching,
            message,
        ),
        ReasonView::Detach(ending) => adapter_session::ended(
            s,
            ending,
            debug_server::acknowledged("detachDebugUI"@, reply),
        ),
        ReasonView::Step { request, thread_id, target_id, action } => adapter_targets::step_replied(
            s,
            request,
            thread_id,
            target_id,
            action,
            reply,
        ),
        ReasonView::Pause(request) => adapter_targets::pause_replied(s, request, reply),
        ReasonView::SetBreakpoints { request, path, breakpoints } => adapter_breakpoints::breakpoints_replied(
            s,
            request,
            path,
            breakpoints,
            reply,
        ),
        ReasonView::SetExceptionBreakpoints(request) => adapter_breakpoints::exception_breakpoints_replied(
            s,
            request,
            reply,
        ),
        ReasonView::SetAutoAttachTypes(request) => adapter_targets::auto_attach_replied(
            s,
            request,
            reply,
        ),
        ReasonView::ListTargets(request) => adapter_targets::targets_replied(s, request, reply),
        ReasonView::FindTarget { request, target_id } => adapter_targets::find_replied(
            s,
            request,
            target_id,
            reply,
        ),
        ReasonView::PrepareTarget { request, target_id } => adapter_targets::prepare_replied(
            s,
            request,
            target_id,
            reply,
        ),
        ReasonView::AttachTarget { request, target_id } => adapter_targets::attach_replied(
            s,
            request,
            target_id,
            reply,
        ),
        ReasonView::Evaluate { request, thread_id, stack_level, expression, result_id } => adapter_evaluation::evaluate_replied(
            s,
            request,
            thread_id,
            stack_level,
            expression,
            result_id,
            reply,
        ),
        ReasonView::Variables { request, reference, result_id } => adapter_evaluation::variables_replied(
            s,
            request,
            reference,
            result_id,
            reply,
        ),
        ReasonView::PrepareStarted { target_id, rest } => adapter_events::prepare_started_replied(
            s,
            target_id,
            rest,
            reply,
        ),
        ReasonView::AttachStarted { target_id, rest } => adapter_events::attach_started_replied(
            s,
            target_id,
            rest,
            reply,
        ),
        ReasonView::ContinueAfterMessage { rest } => adapter_events::continue_replied(
            s,
            rest,
            reply,
        ),
    }
}

fn describe_exception_filter() -> (r: Json)
    ensures
        r.deep_view() == exception_filter(),
{
    let members = vec![
        pair("filter", string("all")),
        pair("label", string("1C runtime errors")),
        pair("default", Json::Bool(false)),
    ];
    assert(members.deep_view() =~= exception_filter()->Object_0);
    object(members)
}

fn describe_capabilities() -> (r: Json)
    ensures
        r.deep_view() == capabilities(),
{
    let members = vec![
        pair("supportsConfigurationDoneRequest", Json::Bool(true)),
        pair("supportsConditionalBreakpoints", Json::Bool(true)),
        pair("supportsHitConditionalBreakpoints", Json::Bool(true)),
        pair("supportsLogPoints", Json::Bool(true)),
        pair("supportsEvaluateForHovers", Json::Bool(true)),
        pair("supportsTerminateRequest", Json::Bool(true)),
        pair("supportsSingleThreadExecutionRequests", Json::Bool(true)),
        pair("supportsExceptionFilterOptions", Json::Bool(true)),
        pair("exceptionBreakpointFilters", array(one(describe_exception_filter()))),
    ];
    assert(members.deep_view() =~= capabilities()->Object_0);
    object(members)
}

impl Adapter {
    /// Handles a request. A calculation that it starts gets a new identifier.
    pub fn handle(&mut self, request: &Json) -> (r: Turn)
        requires
            adapter::ready(old(self).deep_view()),
        ensures
            exists|id: Seq<char>|
                debug_server::is_uuid(id) && (final(self).deep_view(), r.deep_view())
                    == #[trigger] handled(old(self).deep_view(), request.deep_view(), id),
    {
        let id = new_uuid();
        self.handle_as(request, id.as_str())
    }

    /// Handles a request. A calculation that it starts is known under an identifier.
    pub fn handle_as(&mut self, request: &Json, id: &str) -> (r: Turn)
        requires
            adapter::ready(old(self).deep_view()),
        ensures
            (final(self).deep_view(), r.deep_view()) == handled(
                old(self).deep_view(),
                request.deep_view(),
                id@,
            ),
    {
        let command = match optional_text(request.get("command")) {
            Some(command) => command,
            None => "",
        };
        proof {
            reveal_strlit("");
            assert(""@ =~= Seq::<char>::empty());
        }
        if same(command, "initialize") {
            self.answer(request, describe_capabilities())
        } else if same(command, "launch") {
            self.connect(request, true)
        } else if same(command, "attach") {
            self.connect(request, false)
        } else if same(command, "configurationDone") {
            self.launch_pending_debuggee(request)
        } else if same(command, "threads") {
            self.list_threads(request)
        } else if same(command, "stackTrace") {
            self.stack_trace(request)
        } else if same(command, "scopes") {
            self.scopes(request)
        } else if same(command, "variables") {
            self.variables(request, id)
        } else if same(command, "continue") {
            self.step(request, StepAction::Continue)
        } else if same(command, "next") {
            self.step(request, StepAction::Next)
        } else if same(command, "stepIn") {
            self.step(request, StepAction::StepIn)
        } else if same(command, "stepOut") {
            self.step(request, StepAction::StepOut)
        } else if same(command, "pause") {
            self.pause(request)
        } else if same(command, "setBreakpoints") {
            self.set_breakpoints(request)
        } else if same(command, "setExceptionBreakpoints") {
            self.set_exception_breakpoints(request)
        } else if same(command, "SetAutoAttachTargetTypesRequest") {
            self.set_auto_attach_target_types(request)
        } else if same(command, "DebugTargetsRequest") {
            self.debug_targets(request)
        } else if same(command, "AttachDebugTargetRequest") {
            self.attach_debug_target(request)
        } else if same(command, "evaluate") {
            self.evaluate(request, id)
        } else if same(command, "disconnect") || same(command, "terminate") {
            self.disconnect(request)
        } else {
            let mut message = copy("DAP command `");
            message.append(command);
            message.append("` is not implemented yet");
            self.refuse(request, message.as_str())
        }
    }

    /// Goes on after the reply to an HTTP request. A session that it begins gets a new identifier.
    pub fn replied(&mut self, reason: Reason, reply: &HttpReply) -> (r: Turn)
        requires
            adapter::ready(old(self).deep_view()),
        ensures
            exists|id: Seq<char>|
                debug_server::is_uuid(id) && (final(self).deep_view(), r.deep_view())
                    == #[trigger] replied_to(
                    old(self).deep_view(),
                    reason.deep_view(),
                    reply.deep_view(),
                    id,
                ),
    {
        let id = new_uuid();
        self.replied_as(reason, reply, id.as_str())
    }

    /// Goes on after the reply to an HTTP request. A session that it begins is known under an
    /// identifier.
    pub fn replied_as(&mut self, reason: Reason, reply: &HttpReply, id: &str) -> (r: Turn)
        requires
            adapter::ready(old(self).deep_view()),
        ensures
            (final(self).deep_view(), r.deep_view()) == replied_to(
                old(self).deep_view(),
                reason.deep_view(),
                reply.deep_view(),
                id@,
            ),
    {
        match reason {
            Reason::Test(attaching) => self.connection_tested(attaching, reply, id),
            Reason::Register(attaching, session) => self.session_registered(
                attaching,
                session,
                reply,
            ),
            Reason::Configure(attaching, session) => self.session_configured(
                attaching,
                session,
                reply,
            ),
            Reason::GiveUp(attaching, message) => self.session_given_up(
                &attaching,
                message.as_str(),
            ),
            Reason::Detach(ending) => self.detached(&ending, reply),
            Reason::Step { request, thread_id, target_id, action } => self.stepped(
                &request,
                thread_id,
                target_id.as_str(),
                action,
                reply,
            ),
            Reason::Pause(request) => self.paused(&request, reply),
            Reason::SetBreakpoints { request, path, breakpoints } => self.breakpoints_set(
                &request,
                path.as_str(),
                &breakpoints,
                reply,
            ),
            Reason::SetExceptionBreakpoints(request) => self.exception_breakpoints_set(
                &request,
                reply,
            ),
            Reason::SetAutoAttachTypes(request) => self.auto_attach_target_types_set(
                &request,
                reply,
            ),
            Reason::ListTargets(request) => self.debug_targets_listed(&request, reply),
            Reason::FindTarget { request, target_id } => self.target_found(
                &request,
                target_id,
                reply,
            ),
            Reason::PrepareTarget { request, target_id } => self.target_prepared(
                &request,
                target_id,
                reply,
            ),
            Reason::AttachTarget { request, target_id } => self.target_attached(
                &request,
                target_id,
                reply,
            ),
            Reason::Evaluate { request, thread_id, stack_level, expression, result_id } => self.expression_evaluated(
                &request,
                thread_id,
                stack_level,
                expression,
                result_id,
                reply,
            ),
            Reason::Variables { request, reference, result_id } => self.variables_evaluated(
                &request,
                reference,
                result_id,
                reply,
            ),
            Reason::PrepareStarted { target_id, rest } => self.started_target_prepared(
                target_id,
                rest,
                reply,
            ),
            Reason::AttachStarted { target_id, rest } => self.started_target_attached(
                target_id,
                rest,
                reply,
            ),
            Reason::ContinueAfterMessage { rest } => self.continued_after_message(rest, reply),
        }
    }
}

} // verus!
