//! The HTTP boundary of the 1C debug server: which requests are sent, and what their replies mean.
//!
//! 1C exposes the remote-debug API below `/e1crdbg`. Nothing here sends anything: a request is a
//! value, and so is the reply to it.

use crate::debug_replies;
use crate::debug_replies::{
    parse_debug_targets, parse_debug_ui_events, parse_evaluation_response,
    parse_local_variables_response, response_element, AttachDebugUiResult,
};
use crate::debug_requests;
use crate::debug_requests::{
    attach_debug_ui_request, auto_attach_settings_request, base_request, breakpoints_request,
    debug_target_request, debug_target_type_xml_value, evaluation_request,
    local_variables_request, runtime_error_processing_request, step_request,
};
use crate::debug_types::{
    CalculationPathItem, CalculationPathItemView, DebugEvaluation, DebugEvaluationView, DebugTarget,
    DebugTargetView, DebugUiEvent, DebugUiEventView, DebugUiSession, DebugUiSessionView,
    DebugVariable, DebugVariableView, EvaluationInterface, EvaluationStart, ModuleBreakpoints, ModuleBreakpointsView, StepAction,
};
use crate::list::one;
use crate::number;
use crate::number::decimal_u64;
use crate::text;
use crate::text::{copy, is_blank};
use crate::xml;
use vstd::prelude::*;

verus! {

/// A POST request. Each carries the `User-Agent` of the 1C platform, `1CV8`.
#[derive(Debug, PartialEq, Eq)]
pub struct HttpRequest {
    pub url: String,
    pub content_type: Option<String>,
    /// Nothing where the request has no body.
    pub body: Option<String>,
    /// How long to wait for the whole exchange, in milliseconds.
    pub timeout_ms: Option<u64>,
}

#[verifier::ext_equal]
pub struct HttpRequestView {
    pub url: Seq<char>,
    pub content_type: Option<Seq<char>>,
    pub body: Option<Seq<char>>,
    pub timeout_ms: Option<u64>,
}

impl DeepView for HttpRequest {
    type V = HttpRequestView;

    open spec fn deep_view(&self) -> HttpRequestView {
        HttpRequestView {
            url: self.url@,
            content_type: self.content_type.deep_view(),
            body: self.body.deep_view(),
            timeout_ms: self.timeout_ms,
        }
    }
}

/// How a request ended.
#[derive(Debug, PartialEq, Eq)]
pub enum HttpReply {
    /// An answer with its status, the status as text, and the body.
    Answered(u16, String, String),
    /// An answer with its status, the status as text, and a body that could not be read.
    Unreadable(u16, String),
    /// No answer in time.
    TimedOut,
    /// No answer, or one that reports a failure.
    Failed,
}

#[verifier::ext_equal]
pub enum HttpReplyView {
    Answered(u16, Seq<char>, Seq<char>),
    Unreadable(u16, Seq<char>),
    TimedOut,
    Failed,
}

impl DeepView for HttpReply {
    type V = HttpReplyView;

    open spec fn deep_view(&self) -> HttpReplyView {
        match self {
            HttpReply::Answered(status, name, body) => HttpReplyView::Answered(*status, name@, body@),
            HttpReply::Unreadable(status, name) => HttpReplyView::Unreadable(*status, name@),
            HttpReply::TimedOut => HttpReplyView::TimedOut,
            HttpReply::Failed => HttpReplyView::Failed,
        }
    }
}

/// Timing information for one long poll, in milliseconds.
#[derive(Debug, Clone, Copy, PartialEq, Eq, Structural)]
pub struct PingTimings {
    pub http_elapsed: u64,
    pub parse_elapsed: u64,
}

impl DeepView for PingTimings {
    type V = PingTimings;

    open spec fn deep_view(&self) -> PingTimings {
        *self
    }
}

#[derive(Debug, PartialEq, Eq)]
pub struct PingResult {
    pub events: Vec<DebugUiEvent>,
    pub timings: PingTimings,
}

/// Result of one Debug UI ping. A bounded ping is deliberately allowed to expire without being
/// treated as a connection failure: it is used only to replace an older long poll immediately
/// after a resume command.
#[derive(Debug, PartialEq, Eq)]
pub enum PingOutcome {
    Events(PingResult),
    TimedOut,
}

#[verifier::ext_equal]
pub enum PingOutcomeView {
    Events(Seq<DebugUiEventView>, PingTimings),
    TimedOut,
}

impl DeepView for PingOutcome {
    type V = PingOutcomeView;

    open spec fn deep_view(&self) -> PingOutcomeView {
        match self {
            PingOutcome::Events(result) => PingOutcomeView::Events(
                result.events.deep_view(),
                result.timings,
            ),
            PingOutcome::TimedOut => PingOutcomeView::TimedOut,
        }
    }
}

pub open spec fn is_lower_hex(c: char) -> bool {
    '0' <= c <= '9' || 'a' <= c <= 'f'
}

/// A random identifier in the usual notation: groups of lower-case hexadecimal digits, with the
/// version and the variant at their places.
pub open spec fn is_uuid(s: Seq<char>) -> bool {
    &&& s.len() == 36
    &&& s[8] == '-' && s[13] == '-' && s[18] == '-' && s[23] == '-'
    &&& forall|i: int|
        0 <= i < 36 && i != 8 && i != 13 && i != 18 && i != 23 ==> is_lower_hex(#[trigger] s[i])
    &&& s[14] == '4'
    &&& s[19] == '8' || s[19] == '9' || s[19] == 'a' || s[19] == 'b'
}

/// `uuid::Uuid::new_v4` makes a random identifier of version 4 and of the RFC 9562 variant, which
/// `to_string` writes hyphenated and in lower case.
#[verifier::external_body]
pub(crate) fn new_uuid() -> (r: String)
    ensures
        is_uuid(r@),
{
    uuid::Uuid::new_v4().to_string()
}

/// A 1C debug server.
#[derive(Debug, PartialEq, Eq)]
pub struct DebugServer {
    endpoint: String,
}

impl DeepView for DebugServer {
    type V = Seq<char>;

    closed spec fn deep_view(&self) -> Seq<char> {
        self.endpoint@
    }
}

/// The address of the remote-debug API.
pub open spec fn endpoint_of(host: Seq<char>, port: u16) -> Seq<char> {
    "http://"@ + host + ":"@ + number::decimal(port as int) + "/e1crdbg"@
}

/// The server that listens at a host and port; a host of white space is refused.
pub open spec fn server_at(host: Seq<char>, port: u16) -> Result<Seq<char>, Seq<char>> {
    if text::trim(host).len() == 0 {
        Err("debugServerHost must not be empty"@)
    } else {
        Ok(endpoint_of(host, port))
    }
}

/// A command with an XML body.
pub open spec fn post(endpoint: Seq<char>, command: Seq<char>, body: Seq<char>) -> HttpRequestView {
    HttpRequestView {
        url: endpoint + "/rdbg?cmd="@ + command,
        content_type: Some("application/xml; charset=utf-8"@),
        body: Some(body),
        timeout_ms: None,
    }
}

/// The connectivity check.
pub open spec fn test_post(endpoint: Seq<char>) -> HttpRequestView {
    HttpRequestView {
        url: endpoint + "/rdbgTest?cmd=test"@,
        content_type: Some("application/xml"@),
        body: None,
        timeout_ms: None,
    }
}

/// The long poll for Debug UI commands.
pub open spec fn ping_post(endpoint: Seq<char>, session: DebugUiSessionView, timeout_ms: Option<u64>) -> HttpRequestView {
    HttpRequestView {
        url: endpoint + "/rdbg?cmd=pingDebugUIParams&dbgui="@ + session.id,
        content_type: None,
        body: None,
        timeout_ms,
    }
}

pub open spec fn request_failed(command: Seq<char>) -> Seq<char> {
    "1C debug server request `"@ + command + "` failed"@
}

/// The body of the reply to a command.
pub open spec fn reply_body(command: Seq<char>, reply: HttpReplyView) -> Result<Seq<char>, Seq<char>> {
    match reply {
        HttpReplyView::Answered(_, _, body) => Ok(body),
        HttpReplyView::Unreadable(_, _) => Err("cannot read XML response from 1C debug server"@),
        _ => Err(request_failed(command)),
    }
}

fn failed_request(command: &str) -> (r: String)
    ensures
        r@ == request_failed(command@),
{
    let mut message = copy("1C debug server request `");
    message.append(command);
    message.append("` failed");
    message
}

fn body_of<'a>(command: &str, reply: &'a HttpReply) -> (r: Result<&'a str, String>)
    ensures
        match r {
            Ok(body) => reply_body(command@, reply.deep_view()) == Ok::<Seq<char>, Seq<char>>(body@),
            Err(message) => reply_body(command@, reply.deep_view()) == Err::<Seq<char>, Seq<char>>(
                message@,
            ),
        },
{
    match reply {
        HttpReply::Answered(_, _, body) => Ok(body.as_str()),
        HttpReply::Unreadable(_, _) => Err(copy("cannot read XML response from 1C debug server")),
        _ => Err(failed_request(command)),
    }
}

/// Whether a command whose reply has no content was carried out.
pub open spec fn acknowledged(command: Seq<char>, reply: HttpReplyView) -> Result<(), Seq<char>> {
    match reply_body(command, reply) {
        Ok(_) => Ok(()),
        Err(message) => Err(message),
    }
}

/// Some servers answer a command that they carried out with an empty or false result, so that an
/// answer of any content is the acknowledgement.
pub fn acknowledgement(command: &str, reply: &HttpReply) -> (r: Result<(), String>)
    ensures
        text::outcome(r) == acknowledged(command@, reply.deep_view()),
{
    match body_of(command, reply) {
        Ok(_) => Ok(()),
        Err(message) => Err(message),
    }
}

fn posting(endpoint: &str, command: &str, body: String) -> (r: HttpRequest)
    ensures
        r.deep_view() == post(endpoint@, command@, body@),
{
    let mut url = copy(endpoint);
    url.append("/rdbg?cmd=");
    url.append(command);
    HttpRequest {
        url,
        content_type: Some(copy("application/xml; charset=utf-8")),
        body: Some(body),
        timeout_ms: None,
    }
}

/// The first kind of target that the debug server does not know.
pub open spec fn first_unsupported(types: Seq<Seq<char>>) -> Option<Seq<char>>
    decreases types.len(),
{
    if types.len() == 0 {
        None
    } else if debug_requests::target_type_value(types[0]) is None {
        Some(types[0])
    } else {
        first_unsupported(types.skip(1))
    }
}

/// The request that sets the kinds of targets to attach, or which kind is not known.
pub open spec fn auto_attach_post(endpoint: Seq<char>, session: DebugUiSessionView, types: Seq<Seq<char>>) -> Result<HttpRequestView, Seq<char>> {
    match first_unsupported(types) {
        Some(target_type) => Err(debug_requests::unsupported_type(target_type)),
        None => Ok(
            post(
                endpoint,
                "setAutoAttachSettings"@,
                debug_requests::request(session, debug_requests::auto_attach_content(types)),
            ),
        ),
    }
}

/// A command without content of its own.
pub open spec fn base_post(endpoint: Seq<char>, command: Seq<char>, session: DebugUiSessionView) -> HttpRequestView {
    post(endpoint, command, debug_requests::request(session, Seq::empty()))
}

pub open spec fn attach_post(endpoint: Seq<char>, session: DebugUiSessionView) -> HttpRequestView {
    post(
        endpoint,
        "attachDebugUI"@,
        debug_requests::request(session, debug_requests::attach_content()),
    )
}

pub open spec fn attach_targets_post(endpoint: Seq<char>, session: DebugUiSessionView, target_ids: Seq<Seq<char>>) -> HttpRequestView {
    post(
        endpoint,
        "attachDetachDbgTargets"@,
        debug_requests::request(session, debug_requests::debug_target_content(true, target_ids)),
    )
}

pub open spec fn step_post(endpoint: Seq<char>, session: DebugUiSessionView, target_id: Seq<char>, action: StepAction) -> HttpRequestView {
    post(
        endpoint,
        "step"@,
        debug_requests::request(session, debug_requests::step_content(target_id, action)),
    )
}

pub open spec fn breakpoints_post(endpoint: Seq<char>, session: DebugUiSessionView, modules: Seq<ModuleBreakpointsView>) -> HttpRequestView {
    post(
        endpoint,
        "setBreakpoints"@,
        debug_requests::request(session, debug_requests::breakpoints_content(modules)),
    )
}

pub open spec fn runtime_error_post(endpoint: Seq<char>, session: DebugUiSessionView, stop_on_errors: bool, template: Option<Seq<char>>) -> HttpRequestView {
    post(
        endpoint,
        "setBreakOnRTE"@,
        debug_requests::request(
            session,
            debug_requests::runtime_error_content(stop_on_errors, template),
        ),
    )
}

pub open spec fn evaluation_post(
    endpoint: Seq<char>,
    session: DebugUiSessionView,
    target_id: Seq<char>,
    stack_level: int,
    result_id: Seq<char>,
    path: Seq<CalculationPathItemView>,
    interface: EvaluationInterface,
) -> HttpRequestView {
    post(
        endpoint,
        "evalExpr"@,
        debug_requests::request(
            session,
            debug_requests::evaluation_content(target_id, stack_level, result_id, path, interface),
        ),
    )
}

pub open spec fn local_variables_post(
    endpoint: Seq<char>,
    session: DebugUiSessionView,
    target_id: Seq<char>,
    stack_level: int,
    result_id: Seq<char>,
) -> HttpRequestView {
    post(
        endpoint,
        "evalLocalVariables"@,
        debug_requests::request(
            session,
            debug_requests::local_variables_content(target_id, stack_level, result_id),
        ),
    )
}

/// A calculation that is about to start: the identifier under which its result is delivered, and
/// the request that starts it.
#[derive(Debug, PartialEq, Eq)]
pub struct StartedCalculation {
    pub result_id: String,
    pub request: HttpRequest,
}

impl DebugServer {
    /// The debug server at a host and port.
    pub fn new(host: &str, port: u16) -> (r: Result<DebugServer, String>)
        ensures
            text::outcome(r) == server_at(host@, port),
    {
        if is_blank(host) {
            return Err(copy("debugServerHost must not be empty"));
        }
        let number = decimal_u64(port as u64);
        let mut endpoint = copy("http://");
        endpoint.append(host);
        endpoint.append(":");
        endpoint.append(number.as_str());
        endpoint.append("/e1crdbg");
        Ok(DebugServer { endpoint })
    }

    /// The address of the remote-debug API.
    pub fn endpoint(&self) -> (r: &str)
        ensures
            r@ == self.deep_view(),
    {
        self.endpoint.as_str()
    }

    pub fn duplicate(&self) -> (r: DebugServer)
        ensures
            r.deep_view() == self.deep_view(),
    {
        DebugServer { endpoint: copy(self.endpoint.as_str()) }
    }

    /// The low-risk connectivity check made before a Debug UI is registered.
    pub fn test_connection(&self) -> (r: HttpRequest)
        ensures
            r.deep_view() == test_post(self.deep_view()),
    {
        let mut url = copy(self.endpoint.as_str());
        url.append("/rdbgTest?cmd=test");
        HttpRequest {
            url,
            content_type: Some(copy("application/xml")),
            body: None,
            timeout_ms: None,
        }
    }

    /// What the reply to the connectivity check tells: any status from 200 to 299 is a success.
    pub fn connection_tested(&self, reply: &HttpReply) -> (r: Result<(), String>)
        ensures
            text::outcome(r) == tested(self.deep_view(), reply.deep_view()),
    {
        match reply {
            HttpReply::Answered(status, name, _) => check_status(*status, name.as_str()),
            HttpReply::Unreadable(status, name) => check_status(*status, name.as_str()),
            _ => {
                let mut message = copy("cannot reach 1C debug server at ");
                message.append(self.endpoint.as_str());
                Err(message)
            },
        }
    }

    /// Begins the registration of a Debug UI with the connectivity check.
    ///
    /// `info_base_alias` is the server-side infobase reference. For most server infobases it is
    /// the same value as the `Ref` connection-string attribute, rather than the display name in
    /// the 1C launcher.
    pub fn attach_debug_ui(&self, info_base_alias: &str) -> (r: Result<HttpRequest, String>)
        ensures
            text::outcome(r) == alias_checked(self.deep_view(), info_base_alias@),
    {
        if is_blank(info_base_alias) {
            return Err(copy("infoBaseAlias must not be empty"));
        }
        Ok(self.test_connection())
    }

    /// The request that registers a session.
    pub fn register_session(&self, session: &DebugUiSession) -> (r: HttpRequest)
        ensures
            r.deep_view() == attach_post(self.deep_view(), session.deep_view()),
    {
        posting(self.endpoint.as_str(), "attachDebugUI", attach_debug_ui_request(session))
    }

    /// Unregisters a Debug UI.
    pub fn detach_debug_ui(&self, session: &DebugUiSession) -> (r: HttpRequest)
        ensures
            r.deep_view() == base_post(self.deep_view(), "detachDebugUI"@, session.deep_view()),
    {
        posting(self.endpoint.as_str(), "detachDebugUI", base_request(session))
    }

    /// Configures which 1C execution contexts are automatically attached to this Debug UI.
    pub fn set_auto_attach_types(&self, session: &DebugUiSession, types: &Vec<String>) -> (r: Result<
        HttpRequest,
        String,
    >)
        ensures
            text::outcome(r) == auto_attach_post(
                self.deep_view(),
                session.deep_view(),
                types.deep_view(),
            ),
    {
        let ghost all = types.deep_view();
        assert(all.skip(0) =~= all);
        let mut i: usize = 0;
        while i < types.len()
            invariant
                i <= types@.len(),
                all == types.deep_view(),
                first_unsupported(all) == first_unsupported(all.skip(i as int)),
                forall|k: int|
                    0 <= k < i ==> debug_requests::target_type_value(#[trigger] all[k]) is Some,
            decreases types@.len() - i,
        {
            assert(all.skip(i as int)[0] == types@[i as int]@);
            assert(all.skip(i as int).skip(1) =~= all.skip(i + 1));
            match debug_target_type_xml_value(types[i].as_str()) {
                Ok(_) => {},
                Err(message) => {
                    return Err(message);
                },
            }
            assert(all[i as int] == types@[i as int]@);
            i = i + 1;
        }
        assert(all.skip(i as int).len() == 0);
        let body = auto_attach_settings_request(session, types);
        Ok(posting(self.endpoint.as_str(), "setAutoAttachSettings", body))
    }

    /// Lists execution contexts that can be manually attached.
    pub fn get_debug_targets(&self, session: &DebugUiSession) -> (r: HttpRequest)
        ensures
            r.deep_view() == base_post(self.deep_view(), "getDbgTargets"@, session.deep_view()),
    {
        posting(self.endpoint.as_str(), "getDbgTargets", base_request(session))
    }

    /// Fetches pending Debug UI commands, for at most `receive_timeout` milliseconds where that
    /// is given.
    pub fn ping_debug_ui_timed(&self, session: &DebugUiSession, receive_timeout: Option<u64>) -> (r: HttpRequest)
        ensures
            r.deep_view() == ping_post(self.deep_view(), session.deep_view(), receive_timeout),
    {
        let mut url = copy(self.endpoint.as_str());
        url.append("/rdbg?cmd=pingDebugUIParams&dbgui=");
        url.append(session.id());
        HttpRequest { url, content_type: None, body: None, timeout_ms: receive_timeout }
    }

    /// Attaches the Debug UI to execution contexts; without any there is nothing to send.
    pub fn attach_debug_targets(&self, session: &DebugUiSession, target_ids: &Vec<String>) -> (r: Option<
        HttpRequest,
    >)
        ensures
            r.deep_view() == if target_ids.deep_view().len() == 0 {
                None
            } else {
                Some(attach_targets_post(self.deep_view(), session.deep_view(), target_ids.deep_view()))
            },
    {
        if target_ids.len() == 0 {
            return None;
        }
        let body = debug_target_request(session, true, target_ids);
        Some(posting(self.endpoint.as_str(), "attachDetachDbgTargets", body))
    }

    /// Attaches the Debug UI to one execution context.
    pub fn attach_debug_target(&self, session: &DebugUiSession, target_id: &str) -> (r: HttpRequest)
        ensures
            r.deep_view() == attach_targets_post(
                self.deep_view(),
                session.deep_view(),
                seq![target_id@],
            ),
    {
        let target_ids = one(copy(target_id));
        let body = debug_target_request(session, true, &target_ids);
        posting(self.endpoint.as_str(), "attachDetachDbgTargets", body)
    }

    /// Clears a pending global "break on next statement" request before a newly announced
    /// execution context is attached. Otherwise the debug server can stop the context immediately
    /// for a pause request that is already completed.
    pub fn clear_break_on_next_statement(&self, session: &DebugUiSession) -> (r: HttpRequest)
        ensures
            r.deep_view() == base_post(
                self.deep_view(),
                "clearBreakOnNextStatement"@,
                session.deep_view(),
            ),
    {
        posting(self.endpoint.as_str(), "clearBreakOnNextStatement", base_request(session))
    }

    /// Continues or steps a single 1C execution context.
    pub fn step(&self, session: &DebugUiSession, target_id: &str, action: StepAction) -> (r: HttpRequest)
        ensures
            r.deep_view() == step_post(self.deep_view(), session.deep_view(), target_id@, action),
    {
        posting(self.endpoint.as_str(), "step", step_request(session, target_id, action))
    }

    /// Requests a pause at the next executable statement in the infobase.
    pub fn break_on_next_statement(&self, session: &DebugUiSession) -> (r: HttpRequest)
        ensures
            r.deep_view() == base_post(
                self.deep_view(),
                "setBreakOnNextStatement"@,
                session.deep_view(),
            ),
    {
        posting(self.endpoint.as_str(), "setBreakOnNextStatement", base_request(session))
    }

    /// Replaces the complete breakpoint workspace of this Debug UI.
    ///
    /// The debug server offers no per-file mutation. Callers retain all files' breakpoints and
    /// submit the complete workspace whenever one changes.
    pub fn set_breakpoints(&self, session: &DebugUiSession, modules: &Vec<ModuleBreakpoints>) -> (r: HttpRequest)
        ensures
            r.deep_view() == breakpoints_post(
                self.deep_view(),
                session.deep_view(),
                modules.deep_view(),
            ),
    {
        posting(self.endpoint.as_str(), "setBreakpoints", breakpoints_request(session, modules))
    }

    /// Enables or disables pauses on 1C runtime errors. When a template is supplied, the debug
    /// server evaluates it against the error presentation.
    pub fn set_runtime_error_processing(
        &self,
        session: &DebugUiSession,
        stop_on_errors: bool,
        error_template: Option<&str>,
    ) -> (r: HttpRequest)
        ensures
            r.deep_view() == runtime_error_post(
                self.deep_view(),
                session.deep_view(),
                stop_on_errors,
                error_template.deep_view(),
            ),
    {
        let body = runtime_error_processing_request(session, stop_on_errors, error_template);
        posting(self.endpoint.as_str(), "setBreakOnRTE", body)
    }

    /// Starts evaluating an expression in a stopped target stack frame.
    ///
    /// The debug server normally answers in the HTTP reply, but older servers may defer the
    /// result and deliver `exprEvaluated` from `pingDebugUIParams` instead.
    pub fn begin_evaluate_expression(
        &self,
        session: &DebugUiSession,
        target_id: &str,
        stack_level: i64,
        expression: &str,
    ) -> (r: Result<StartedCalculation, String>)
        ensures
            match r {
                Ok(started) => text::trim(expression@).len() > 0 && is_uuid(started.result_id@)
                    && started.request.deep_view() == evaluation_post(
                    self.deep_view(),
                    session.deep_view(),
                    target_id@,
                    stack_level as int,
                    started.result_id@,
                    seq![CalculationPathItemView::Expression(expression@)],
                    EvaluationInterface::Context,
                ),
                Err(message) => text::trim(expression@).len() == 0 && message@
                    == "expression must not be empty"@,
            },
    {
        if is_blank(expression) {
            return Err(copy("expression must not be empty"));
        }
        let path = one(CalculationPathItem::Expression(copy(expression)));
        self.begin_evaluate_path(session, target_id, stack_level, &path, EvaluationInterface::Context)
    }

    /// Starts evaluating a path to obtain the children of an expandable value.
    pub fn begin_evaluate_path(
        &self,
        session: &DebugUiSession,
        target_id: &str,
        stack_level: i64,
        path: &Vec<CalculationPathItem>,
        interface: EvaluationInterface,
    ) -> (r: Result<StartedCalculation, String>)
        ensures
            match r {
                Ok(started) => path.deep_view().len() > 0 && is_uuid(started.result_id@)
                    && started.request.deep_view() == evaluation_post(
                    self.deep_view(),
                    session.deep_view(),
                    target_id@,
                    stack_level as int,
                    started.result_id@,
                    path.deep_view(),
                    interface,
                ),
                Err(message) => path.deep_view().len() == 0 && message@
                    == "calculation path must not be empty"@,
            },
    {
        if path.len() == 0 {
            return Err(copy("calculation path must not be empty"));
        }
        let result_id = new_uuid();
        let request = self.evaluate_path(
            session,
            target_id,
            stack_level,
            result_id.as_str(),
            path,
            interface,
        );
        Ok(StartedCalculation { result_id, request })
    }

    /// The request that evaluates a path and delivers the result under an identifier.
    pub fn evaluate_path(
        &self,
        session: &DebugUiSession,
        target_id: &str,
        stack_level: i64,
        result_id: &str,
        path: &Vec<CalculationPathItem>,
        interface: EvaluationInterface,
    ) -> (r: HttpRequest)
        ensures
            r.deep_view() == evaluation_post(
                self.deep_view(),
                session.deep_view(),
                target_id@,
                stack_level as int,
                result_id@,
                path.deep_view(),
                interface,
            ),
    {
        let body = evaluation_request(session, target_id, stack_level, result_id, path, interface);
        posting(self.endpoint.as_str(), "evalExpr", body)
    }

    /// Starts retrieving readable local variables for a stopped target stack frame. The result
    /// can likewise be delivered by `exprEvaluated`.
    pub fn begin_evaluate_local_variables(
        &self,
        session: &DebugUiSession,
        target_id: &str,
        stack_level: i64,
    ) -> (r: StartedCalculation)
        ensures
            is_uuid(r.result_id@),
            r.request.deep_view() == local_variables_post(
                self.deep_view(),
                session.deep_view(),
                target_id@,
                stack_level as int,
                r.result_id@,
            ),
    {
        let result_id = new_uuid();
        let request = self.evaluate_local_variables(
            session,
            target_id,
            stack_level,
            result_id.as_str(),
        );
        StartedCalculation { result_id, request }
    }

    /// The request that retrieves local variables and delivers them under an identifier.
    pub fn evaluate_local_variables(
        &self,
        session: &DebugUiSession,
        target_id: &str,
        stack_level: i64,
        result_id: &str,
    ) -> (r: HttpRequest)
        ensures
            r.deep_view() == local_variables_post(
                self.deep_view(),
                session.deep_view(),
                target_id@,
                stack_level as int,
                result_id@,
            ),
    {
        let body = local_variables_request(session, target_id, stack_level, result_id);
        posting(self.endpoint.as_str(), "evalLocalVariables", body)
    }
}

pub open spec fn status_checked(status: u16, name: Seq<char>) -> Result<(), Seq<char>> {
    if 200 <= status < 300 {
        Ok(())
    } else {
        Err("1C debug server returned HTTP "@ + name)
    }
}

fn check_status(status: u16, name: &str) -> (r: Result<(), String>)
    ensures
        text::outcome(r) == status_checked(status, name@),
{
    if 200 <= status && status < 300 {
        Ok(())
    } else {
        let mut message = copy("1C debug server returned HTTP ");
        message.append(name);
        Err(message)
    }
}

/// What the reply to the connectivity check tells.
pub open spec fn tested(endpoint: Seq<char>, reply: HttpReplyView) -> Result<(), Seq<char>> {
    match reply {
        HttpReplyView::Answered(status, name, _) => status_checked(status, name),
        HttpReplyView::Unreadable(status, name) => status_checked(status, name),
        _ => Err("cannot reach 1C debug server at "@ + endpoint),
    }
}

pub open spec fn alias_checked(endpoint: Seq<char>, info_base_alias: Seq<char>) -> Result<HttpRequestView, Seq<char>> {
    if text::trim(info_base_alias).len() == 0 {
        Err("infoBaseAlias must not be empty"@)
    } else {
        Ok(test_post(endpoint))
    }
}

/// Whether an answer to the registration of a Debug UI lets the session begin.
pub open spec fn registration(result: AttachDebugUiResult) -> Result<(), Seq<char>> {
    match result {
        AttachDebugUiResult::Registered => Ok(()),
        AttachDebugUiResult::CredentialsRequired => Err(
            "1C debug server requires infobase credentials"@,
        ),
        AttachDebugUiResult::FullCredentialsRequired => Err(
            "1C debug server requires infobase credentials"@,
        ),
        AttachDebugUiResult::IbInDebug => Err("the infobase is already being debugged"@),
        AttachDebugUiResult::NotRegistered => Err("the infobase is not registered for debugging"@),
        AttachDebugUiResult::Unknown => Err(
            "the 1C debug server returned an unknown attach result"@,
        ),
    }
}

/// Whether the answer to a registration lets the session begin.
pub fn registered(result: AttachDebugUiResult) -> (r: Result<(), String>)
    ensures
        text::outcome(r) == registration(result),
{
    match result {
        AttachDebugUiResult::Registered => Ok(()),
        AttachDebugUiResult::CredentialsRequired => Err(
            copy("1C debug server requires infobase credentials"),
        ),
        AttachDebugUiResult::FullCredentialsRequired => Err(
            copy("1C debug server requires infobase credentials"),
        ),
        AttachDebugUiResult::IbInDebug => Err(copy("the infobase is already being debugged")),
        AttachDebugUiResult::NotRegistered => Err(
            copy("the infobase is not registered for debugging"),
        ),
        AttachDebugUiResult::Unknown => Err(
            copy("the 1C debug server returned an unknown attach result"),
        ),
    }
}

/// Whether the text of a registration's `result` element lets the session begin.
pub open spec fn registration_text(value: Seq<char>) -> Result<(), Seq<char>> {
    match debug_replies::attach_result(text::trim(value)) {
        Some(result) => registration(result),
        None => Err(debug_replies::unknown_attach_result(text::trim(value))),
    }
}

/// Judges the text of an answer to a registration.
pub fn registration_result(value: &str) -> (r: Result<(), String>)
    ensures
        text::outcome(r) == registration_text(value@),
{
    match AttachDebugUiResult::parse(value) {
        Ok(result) => registered(result),
        Err(message) => Err(message),
    }
}

/// What the reply to a registration tells.
pub open spec fn attach_reply(reply: HttpReplyView) -> Result<(), Seq<char>> {
    match reply_body("attachDebugUI"@, reply) {
        Err(message) => Err(message),
        Ok(body) => match debug_replies::element_reply(body, "result"@) {
            Err(message) => Err(message),
            Ok(value) => registration_text(value),
        },
    }
}

/// Judges the reply to the registration of a Debug UI.
pub fn debug_ui_attached(reply: &HttpReply) -> (r: Result<(), String>)
    ensures
        text::outcome(r) == attach_reply(reply.deep_view()),
{
    let body = match body_of("attachDebugUI", reply) {
        Ok(body) => body,
        Err(message) => {
            return Err(message);
        },
    };
    match response_element(body, "result") {
        Ok(value) => registration_result(value.as_str()),
        Err(message) => Err(message),
    }
}

/// The targets that a reply lists.
pub open spec fn targets_listed(reply: HttpReplyView) -> Result<Seq<DebugTargetView>, Seq<char>> {
    match reply_body("getDbgTargets"@, reply) {
        Err(message) => Err(message),
        Ok(body) => debug_replies::targets_reply(body),
    }
}

/// Reads the reply to a request for the targets.
pub fn listed_targets(reply: &HttpReply) -> (r: Result<Vec<DebugTarget>, String>)
    ensures
        text::outcome(r) == targets_listed(reply.deep_view()),
{
    match body_of("getDbgTargets", reply) {
        Ok(body) => parse_debug_targets(body),
        Err(message) => Err(message),
    }
}

/// The Debug UI events that a ping brought, or nothing where it timed out.
pub open spec fn ping_answer(reply: HttpReplyView) -> Result<Option<Seq<DebugUiEventView>>, Seq<char>> {
    if reply is TimedOut {
        Ok(None)
    } else {
        match reply_body("pingDebugUIParams"@, reply) {
            Err(message) => Err(message),
            Ok(body) => match debug_replies::ping_reply(body) {
                Err(message) => Err(message),
                Ok(events) => Ok(Some(events)),
            },
        }
    }
}

/// Reads the reply to a ping; nothing where the ping expired.
pub fn ping_result(reply: &HttpReply) -> (r: Result<Option<Vec<DebugUiEvent>>, String>)
    ensures
        text::outcome(r) == ping_answer(reply.deep_view()),
{
    if matches!(reply, HttpReply::TimedOut) {
        return Ok(None);
    }
    match body_of("pingDebugUIParams", reply) {
        Err(message) => Err(message),
        Ok(body) => match parse_debug_ui_events(body) {
            Ok(events) => Ok(Some(events)),
            Err(message) => Err(message),
        },
    }
}

/// The outcome of a ping, with the time it took.
pub fn timed_outcome(events: Option<Vec<DebugUiEvent>>, timings: PingTimings) -> (r: PingOutcome)
    ensures
        r.deep_view() == match events.deep_view() {
            Some(events) => PingOutcomeView::Events(events, timings),
            None => PingOutcomeView::TimedOut,
        },
{
    match events {
        Some(events) => PingOutcome::Events(PingResult { events, timings }),
        None => PingOutcome::TimedOut,
    }
}

/// What the reply to an expression request tells: an evaluation, or nothing where the result is
/// deferred.
pub open spec fn evaluation_answer(reply: HttpReplyView) -> Result<Option<DebugEvaluationView>, Seq<char>> {
    match reply_body("evalExpr"@, reply) {
        Err(message) => Err(message),
        Ok(body) => debug_replies::evaluation_reply(body),
    }
}

/// Reads the reply that starts an evaluation.
pub fn evaluation_started(result_id: String, reply: &HttpReply) -> (r: Result<
    EvaluationStart<DebugEvaluation>,
    String,
>)
    ensures
        match r {
            Ok(started) => started.result_id@ == result_id@ && evaluation_answer(reply.deep_view())
                == Ok::<Option<DebugEvaluationView>, Seq<char>>(started.result.deep_view()),
            Err(message) => evaluation_answer(reply.deep_view()) == Err::<
                Option<DebugEvaluationView>,
                Seq<char>,
            >(message@),
        },
{
    match body_of("evalExpr", reply) {
        Err(message) => Err(message),
        Ok(body) => match parse_evaluation_response(body) {
            Ok(result) => Ok(EvaluationStart { result_id, result }),
            Err(message) => Err(message),
        },
    }
}

/// What the reply to a request for local variables tells: the variables, or nothing where the
/// result is deferred.
pub open spec fn local_variables_answer(reply: HttpReplyView) -> Result<Option<Seq<DebugVariableView>>, Seq<char>> {
    match reply_body("evalLocalVariables"@, reply) {
        Err(message) => Err(message),
        Ok(body) => debug_replies::local_variables_reply(body),
    }
}

/// Reads the reply that starts the retrieval of local variables.
pub fn local_variables_started(result_id: String, reply: &HttpReply) -> (r: Result<
    EvaluationStart<Vec<DebugVariable>>,
    String,
>)
    ensures
        match r {
            Ok(started) => started.result_id@ == result_id@ && local_variables_answer(
                reply.deep_view(),
            ) == Ok::<Option<Seq<DebugVariableView>>, Seq<char>>(started.result.deep_view()),
            Err(message) => local_variables_answer(reply.deep_view()) == Err::<
                Option<Seq<DebugVariableView>>,
                Seq<char>,
            >(message@),
        },
{
    match body_of("evalLocalVariables", reply) {
        Err(message) => Err(message),
        Ok(body) => match parse_local_variables_response(body) {
            Ok(result) => Ok(EvaluationStart { result_id, result }),
            Err(message) => Err(message),
        },
    }
}

/// An identifier stands in a request as it is: nothing in it is escaped.
pub proof fn identifiers_are_not_escaped(id: Seq<char>)
    requires
        is_uuid(id),
    ensures
        xml::escaped(id) == id,
{
    assert forall|i: int| 0 <= i < id.len() implies !xml::is_replaced(#[trigger] id[i]) by {
        assert(id[i] == '-' || is_lower_hex(id[i]));
    }
    xml::plain_text_is_not_escaped(id);
}

} // verus!
