//! The state of a debug adapter, and what it asks of the world around it.
//!
//! The adapter does no input or output itself. Each of its steps gives a [`Turn`]: what to send,
//! and what to do [`Next`]; the outcome of that is handed to the step that follows.

use crate::dap;
use crate::dap::{error_response, event, response};
use crate::debug_server::{DebugServer, HttpRequest, HttpRequestView};
use crate::debug_types::{
    duplicate_path, CalculationPathItem, CalculationPathItemView, DebugStackFrame,
    DebugStackFrameView, DebugUiEvent, DebugUiEventView, DebugUiSession, DebugUiSessionView,
    EvaluationInterface, SourceBreakpoint, SourceBreakpointView, StepAction,
};
use crate::info_base::{
    ConnectionArguments, ConnectionArgumentsView, InfoBaseTarget, InfoBaseTargetView,
};
use crate::json::{object, pair, signed, string, Json, JsonView};
use crate::list::{append, none, one};
use crate::metadata::{ModuleRegistry, ModuleRegistryView};
use crate::ordered::OrderedMap;
use vstd::prelude::*;

verus! {

/// What a `variablesReference` stands for.
#[derive(Debug, PartialEq, Eq)]
pub enum VariableReference {
    /// The local variables of a stack frame.
    Locals { thread_id: i64, stack_level: i64 },
    /// The children of a value.
    Value {
        thread_id: i64,
        stack_level: i64,
        path: Vec<CalculationPathItem>,
        interface: EvaluationInterface,
    },
}

#[verifier::ext_equal]
pub enum VariableReferenceView {
    Locals { thread_id: i64, stack_level: i64 },
    Value {
        thread_id: i64,
        stack_level: i64,
        path: Seq<CalculationPathItemView>,
        interface: EvaluationInterface,
    },
}

impl DeepView for VariableReference {
    type V = VariableReferenceView;

    open spec fn deep_view(&self) -> VariableReferenceView {
        match self {
            VariableReference::Locals { thread_id, stack_level } => VariableReferenceView::Locals {
                thread_id: *thread_id,
                stack_level: *stack_level,
            },
            VariableReference::Value { thread_id, stack_level, path, interface } => VariableReferenceView::Value {
                thread_id: *thread_id,
                stack_level: *stack_level,
                path: path.deep_view(),
                interface: *interface,
            },
        }
    }
}

/// The thread and the stack level that a reference belongs to.
pub open spec fn address_of(reference: VariableReferenceView) -> (i64, i64) {
    match reference {
        VariableReferenceView::Locals { thread_id, stack_level } => (thread_id, stack_level),
        VariableReferenceView::Value { thread_id, stack_level, .. } => (thread_id, stack_level),
    }
}

/// The calculation path of the value that a reference stands for; locals have none.
pub open spec fn path_of(reference: VariableReferenceView) -> Seq<CalculationPathItemView> {
    match reference {
        VariableReferenceView::Locals { .. } => Seq::empty(),
        VariableReferenceView::Value { path, .. } => path,
    }
}

impl VariableReference {
    /// The thread and the stack level of the value.
    pub fn address(&self) -> (r: (i64, i64))
        ensures
            r == address_of(self.deep_view()),
    {
        match self {
            VariableReference::Locals { thread_id, stack_level } => (*thread_id, *stack_level),
            VariableReference::Value { thread_id, stack_level, .. } => (*thread_id, *stack_level),
        }
    }

    /// The calculation that leads to the value.
    pub fn path(&self) -> (r: Vec<CalculationPathItem>)
        ensures
            r.deep_view() == path_of(self.deep_view()),
    {
        match self {
            VariableReference::Locals { .. } => none(),
            VariableReference::Value { path, .. } => duplicate_path(path),
        }
    }

    pub fn duplicate(&self) -> (r: VariableReference)
        ensures
            r.deep_view() == self.deep_view(),
    {
        match self {
            VariableReference::Locals { thread_id, stack_level } => VariableReference::Locals {
                thread_id: *thread_id,
                stack_level: *stack_level,
            },
            VariableReference::Value { thread_id, stack_level, path, interface } => VariableReference::Value {
                thread_id: *thread_id,
                stack_level: *stack_level,
                path: duplicate_path(path),
                interface: *interface,
            },
        }
    }
}

/// A request whose answer waits for a result that the debug server deferred.
#[derive(Debug, PartialEq, Eq)]
pub enum PendingEvaluation {
    Evaluate {
        request: Json,
        thread_id: i64,
        stack_level: i64,
        path: Vec<CalculationPathItem>,
    },
    Variables { request: Json, reference: VariableReference },
}

#[verifier::ext_equal]
pub enum PendingEvaluationView {
    Evaluate {
        request: JsonView,
        thread_id: i64,
        stack_level: i64,
        path: Seq<CalculationPathItemView>,
    },
    Variables { request: JsonView, reference: VariableReferenceView },
}

impl DeepView for PendingEvaluation {
    type V = PendingEvaluationView;

    open spec fn deep_view(&self) -> PendingEvaluationView {
        match self {
            PendingEvaluation::Evaluate { request, thread_id, stack_level, path } => PendingEvaluationView::Evaluate {
                request: request.deep_view(),
                thread_id: *thread_id,
                stack_level: *stack_level,
                path: path.deep_view(),
            },
            PendingEvaluation::Variables { request, reference } => PendingEvaluationView::Variables {
                request: request.deep_view(),
                reference: reference.deep_view(),
            },
        }
    }
}

/// The thread that a waiting request belongs to.
pub open spec fn pending_thread(pending: PendingEvaluationView) -> i64 {
    match pending {
        PendingEvaluationView::Evaluate { thread_id, .. } => thread_id,
        PendingEvaluationView::Variables { reference, .. } => address_of(reference).0,
    }
}

impl PendingEvaluation {
    /// The thread that the evaluation runs in.
    pub fn thread(&self) -> (r: i64)
        ensures
            r == pending_thread(self.deep_view()),
    {
        match self {
            PendingEvaluation::Evaluate { thread_id, .. } => *thread_id,
            PendingEvaluation::Variables { reference, .. } => reference.address().0,
        }
    }
}

/// A client that is started once the breakpoints are set.
#[derive(Debug, PartialEq, Eq)]
pub struct PendingDebuggee {
    pub arguments: ConnectionArguments,
    pub info_base: InfoBaseTarget,
}

#[verifier::ext_equal]
pub struct PendingDebuggeeView {
    pub arguments: ConnectionArgumentsView,
    pub info_base: InfoBaseTargetView,
}

impl DeepView for PendingDebuggee {
    type V = PendingDebuggeeView;

    open spec fn deep_view(&self) -> PendingDebuggeeView {
        PendingDebuggeeView {
            arguments: self.arguments.deep_view(),
            info_base: self.info_base.deep_view(),
        }
    }
}

/// The machine that the adapter runs on.
#[derive(Debug, Clone, Copy, PartialEq, Eq, Structural)]
pub struct Host {
    pub windows: bool,
    /// What stands between the components of a path.
    pub separator: char,
}

impl DeepView for Host {
    type V = Host;

    open spec fn deep_view(&self) -> Host {
        *self
    }
}

/// The state of the adapter.
pub struct Adapter {
    pub host: Host,
    /// The number of the last message that was sent.
    pub next_sequence: u64,
    pub debug_server: Option<DebugServer>,
    pub debug_session: Option<DebugUiSession>,
    pub pending_debuggee: Option<PendingDebuggee>,
    /// Whether the failure of polls has been reported.
    pub poll_failed: bool,
    /// The number of the last poll that was begun.
    pub next_poll: u64,
    /// The poll whose outcome the adapter waits for.
    pub active_poll: Option<u64>,
    /// The thread numbers of the attached targets.
    pub threads: OrderedMap<String, i64>,
    pub call_stacks: OrderedMap<i64, Vec<DebugStackFrame>>,
    /// The last `variablesReference` that was given out.
    pub next_variable_reference: i64,
    pub variable_references: OrderedMap<i64, VariableReference>,
    pub pending_evaluations: OrderedMap<String, PendingEvaluation>,
    pub module_registry: Option<ModuleRegistry>,
    pub module_breakpoints: OrderedMap<(String, String, String), Vec<SourceBreakpoint>>,
}

#[verifier::ext_equal]
pub struct AdapterView {
    pub host: Host,
    pub next_sequence: int,
    pub debug_server: Option<Seq<char>>,
    pub debug_session: Option<DebugUiSessionView>,
    pub pending_debuggee: Option<PendingDebuggeeView>,
    pub poll_failed: bool,
    pub next_poll: int,
    pub active_poll: Option<u64>,
    pub threads: Seq<(Seq<char>, i64)>,
    pub call_stacks: Seq<(i64, Seq<DebugStackFrameView>)>,
    pub next_variable_reference: int,
    pub variable_references: Seq<(i64, VariableReferenceView)>,
    pub pending_evaluations: Seq<(Seq<char>, PendingEvaluationView)>,
    pub module_registry: Option<ModuleRegistryView>,
    pub module_breakpoints: Seq<((Seq<char>, Seq<char>, Seq<char>), Seq<SourceBreakpointView>)>,
}

impl DeepView for Adapter {
    type V = AdapterView;

    open spec fn deep_view(&self) -> AdapterView {
        AdapterView {
            host: self.host,
            next_sequence: self.next_sequence as int,
            debug_server: self.debug_server.deep_view(),
            debug_session: self.debug_session.deep_view(),
            pending_debuggee: self.pending_debuggee.deep_view(),
            poll_failed: self.poll_failed,
            next_poll: self.next_poll as int,
            active_poll: self.active_poll,
            threads: self.threads.deep_view(),
            call_stacks: self.call_stacks.deep_view(),
            next_variable_reference: self.next_variable_reference as int,
            variable_references: self.variable_references.deep_view(),
            pending_evaluations: self.pending_evaluations.deep_view(),
            module_registry: self.module_registry.deep_view(),
            module_breakpoints: self.module_breakpoints.deep_view(),
        }
    }
}

/// The adapter before its first request.
pub open spec fn fresh(host: Host) -> AdapterView {
    AdapterView {
        host,
        next_sequence: 0,
        debug_server: None,
        debug_session: None,
        pending_debuggee: None,
        poll_failed: false,
        next_poll: 0,
        active_poll: None,
        threads: Seq::empty(),
        call_stacks: Seq::empty(),
        next_variable_reference: 0,
        variable_references: Seq::empty(),
        pending_evaluations: Seq::empty(),
        module_registry: None,
        module_breakpoints: Seq::empty(),
    }
}

/// The most messages that one step sends.
pub const MESSAGES_PER_STEP: u64 = 8;

/// The numbers that the next step may give out are not used up.
pub open spec fn ready(s: AdapterView) -> bool {
    &&& s.next_sequence + MESSAGES_PER_STEP <= u64::MAX
    &&& s.next_variable_reference < i64::MAX
    &&& s.next_poll < u64::MAX
    &&& forall|i: int| 0 <= i < s.threads.len() ==> (#[trigger] s.threads[i]).1 < i64::MAX
}

impl Adapter {
    /// An adapter that holds no session.
    pub fn new(host: Host) -> (r: Adapter)
        ensures
            r.deep_view() == fresh(host),
    {
        Adapter {
            host,
            next_sequence: 0,
            debug_server: None,
            debug_session: None,
            pending_debuggee: None,
            poll_failed: false,
            next_poll: 0,
            active_poll: None,
            threads: OrderedMap::new(),
            call_stacks: OrderedMap::new(),
            next_variable_reference: 0,
            variable_references: OrderedMap::new(),
            pending_evaluations: OrderedMap::new(),
            module_registry: None,
            module_breakpoints: OrderedMap::new(),
        }
    }

    /// Whether the next step can be made: its numbers are not used up.
    pub fn is_ready(&self) -> (r: bool)
        ensures
            r == ready(self.deep_view()),
    {
        if self.next_sequence > u64::MAX - MESSAGES_PER_STEP {
            return false;
        }
        if self.next_variable_reference == i64::MAX || self.next_poll == u64::MAX {
            return false;
        }
        let mut i: usize = 0;
        while i < self.threads.len()
            invariant
                i <= self.threads.deep_view().len(),
                forall|k: int|
                    0 <= k < i ==> (#[trigger] self.threads.deep_view()[k]).1 < i64::MAX,
            decreases self.threads.deep_view().len() - i,
        {
            let entry = self.threads.at(i);
            assert(entry.1 == self.threads.deep_view()[i as int].1);
            if entry.1 == i64::MAX {
                assert(!(self.deep_view().threads[i as int].1 < i64::MAX));
                return false;
            }
            i = i + 1;
        }
        true
    }
}

/// A connection in the making.
#[derive(Debug, PartialEq, Eq)]
pub struct Connecting {
    pub request: Json,
    pub launch: bool,
    pub arguments: ConnectionArguments,
}

#[verifier::ext_equal]
pub struct ConnectingView {
    pub request: JsonView,
    pub launch: bool,
    pub arguments: ConnectionArgumentsView,
}

impl DeepView for Connecting {
    type V = ConnectingView;

    open spec fn deep_view(&self) -> ConnectingView {
        ConnectingView {
            request: self.request.deep_view(),
            launch: self.launch,
            arguments: self.arguments.deep_view(),
        }
    }
}

/// A connection whose modules are known.
pub struct Located {
    pub connecting: Connecting,
    pub registry: Option<ModuleRegistry>,
    pub info_base: InfoBaseTarget,
}

#[verifier::ext_equal]
pub struct LocatedView {
    pub connecting: ConnectingView,
    pub registry: Option<ModuleRegistryView>,
    pub info_base: InfoBaseTargetView,
}

impl DeepView for Located {
    type V = LocatedView;

    open spec fn deep_view(&self) -> LocatedView {
        LocatedView {
            connecting: self.connecting.deep_view(),
            registry: self.registry.deep_view(),
            info_base: self.info_base.deep_view(),
        }
    }
}

/// A connection to a debug server, which was started for it or not.
pub struct Attaching {
    pub located: Located,
    pub server: DebugServer,
    pub spawned: bool,
}

#[verifier::ext_equal]
pub struct AttachingView {
    pub located: LocatedView,
    pub server: Seq<char>,
    pub spawned: bool,
}

impl DeepView for Attaching {
    type V = AttachingView;

    open spec fn deep_view(&self) -> AttachingView {
        AttachingView {
            located: self.located.deep_view(),
            server: self.server.deep_view(),
            spawned: self.spawned,
        }
    }
}

/// Why a session ends.
#[derive(Debug, PartialEq, Eq)]
pub enum Ending {
    /// A request asks for it.
    Requested(Json),
    /// The debug server of the session exited, in a state.
    ServerExit(String),
    /// The client exited, with a code.
    ClientExit(i32),
    /// No more requests will come.
    InputClosed,
}

#[verifier::ext_equal]
pub enum EndingView {
    Requested(JsonView),
    ServerExit(Seq<char>),
    ClientExit(i32),
    InputClosed,
}

impl DeepView for Ending {
    type V = EndingView;

    open spec fn deep_view(&self) -> EndingView {
        match self {
            Ending::Requested(request) => EndingView::Requested(request.deep_view()),
            Ending::ServerExit(status) => EndingView::ServerExit(status@),
            Ending::ClientExit(code) => EndingView::ClientExit(*code),
            Ending::InputClosed => EndingView::InputClosed,
        }
    }
}

/// What the reply to an HTTP request is for.
pub enum Reason {
    /// The connectivity check before a Debug UI is registered.
    Test(Attaching),
    /// The registration of a Debug UI.
    Register(Attaching, DebugUiSession),
    /// The kinds of targets that are attached by themselves, for a new session.
    Configure(Attaching, DebugUiSession),
    /// The end of a session that could not be configured, with the reason.
    GiveUp(Attaching, String),
    /// The end of a session.
    Detach(Ending),
    Step { request: Json, thread_id: i64, target_id: String, action: StepAction },
    Pause(Json),
    SetBreakpoints { request: Json, path: String, breakpoints: Vec<SourceBreakpoint> },
    SetExceptionBreakpoints(Json),
    SetAutoAttachTypes(Json),
    ListTargets(Json),
    /// The search for a target to attach.
    FindTarget { request: Json, target_id: String },
    /// The preparation of a target to attach.
    PrepareTarget { request: Json, target_id: String },
    AttachTarget { request: Json, target_id: String },
    Evaluate {
        request: Json,
        thread_id: i64,
        stack_level: i64,
        expression: String,
        result_id: String,
    },
    /// The variables behind a reference.
    Variables { request: Json, reference: VariableReference, result_id: String },
    /// The preparation of a target that was announced; the events behind its announcement wait.
    PrepareStarted { target_id: String, rest: Vec<DebugUiEvent> },
    AttachStarted { target_id: String, rest: Vec<DebugUiEvent> },
    /// The continuation of a target that only sent a message.
    ContinueAfterMessage { rest: Vec<DebugUiEvent> },
}

#[verifier::ext_equal]
pub enum ReasonView {
    Test(AttachingView),
    Register(AttachingView, DebugUiSessionView),
    Configure(AttachingView, DebugUiSessionView),
    GiveUp(AttachingView, Seq<char>),
    Detach(EndingView),
    Step { request: JsonView, thread_id: i64, target_id: Seq<char>, action: StepAction },
    Pause(JsonView),
    SetBreakpoints { request: JsonView, path: Seq<char>, breakpoints: Seq<SourceBreakpointView> },
    SetExceptionBreakpoints(JsonView),
    SetAutoAttachTypes(JsonView),
    ListTargets(JsonView),
    FindTarget { request: JsonView, target_id: Seq<char> },
    PrepareTarget { request: JsonView, target_id: Seq<char> },
    AttachTarget { request: JsonView, target_id: Seq<char> },
    Evaluate {
        request: JsonView,
        thread_id: i64,
        stack_level: i64,
        expression: Seq<char>,
        result_id: Seq<char>,
    },
    Variables { request: JsonView, reference: VariableReferenceView, result_id: Seq<char> },
    PrepareStarted { target_id: Seq<char>, rest: Seq<DebugUiEventView> },
    AttachStarted { target_id: Seq<char>, rest: Seq<DebugUiEventView> },
    ContinueAfterMessage { rest: Seq<DebugUiEventView> },
}

impl DeepView for Reason {
    type V = ReasonView;

    open spec fn deep_view(&self) -> ReasonView {
        match self {
            Reason::Test(attaching) => ReasonView::Test(attaching.deep_view()),
            Reason::Register(attaching, session) => ReasonView::Register(
                attaching.deep_view(),
                session.deep_view(),
            ),
            Reason::Configure(attaching, session) => ReasonView::Configure(
                attaching.deep_view(),
                session.deep_view(),
            ),
            Reason::GiveUp(attaching, message) => ReasonView::GiveUp(
                attaching.deep_view(),
                message@,
            ),
            Reason::Detach(ending) => ReasonView::Detach(ending.deep_view()),
            Reason::Step { request, thread_id, target_id, action } => ReasonView::Step {
                request: request.deep_view(),
                thread_id: *thread_id,
                target_id: target_id@,
                action: *action,
            },
            Reason::Pause(request) => ReasonView::Pause(request.deep_view()),
            Reason::SetBreakpoints { request, path, breakpoints } => ReasonView::SetBreakpoints {
                request: request.deep_view(),
                path: path@,
                breakpoints: breakpoints.deep_view(),
            },
            Reason::SetExceptionBreakpoints(request) => ReasonView::SetExceptionBreakpoints(
                request.deep_view(),
            ),
            Reason::SetAutoAttachTypes(request) => ReasonView::SetAutoAttachTypes(
                request.deep_view(),
            ),
            Reason::ListTargets(request) => ReasonView::ListTargets(request.deep_view()),
            Reason::FindTarget { request, target_id } => ReasonView::FindTarget {
                request: request.deep_view(),
                target_id: target_id@,
            },
            Reason::PrepareTarget { request, target_id } => ReasonView::PrepareTarget {
                request: request.deep_view(),
                target_id: target_id@,
            },
            Reason::AttachTarget { request, target_id } => ReasonView::AttachTarget {
                request: request.deep_view(),
                target_id: target_id@,
            },
            Reason::Evaluate { request, thread_id, stack_level, expression, result_id } => ReasonView::Evaluate {
                request: request.deep_view(),
                thread_id: *thread_id,
                stack_level: *stack_level,
                expression: expression@,
                result_id: result_id@,
            },
            Reason::Variables { request, reference, result_id } => ReasonView::Variables {
                request: request.deep_view(),
                reference: reference.deep_view(),
                result_id: result_id@,
            },
            Reason::PrepareStarted { target_id, rest } => ReasonView::PrepareStarted {
                target_id: target_id@,
                rest: rest.deep_view(),
            },
            Reason::AttachStarted { target_id, rest } => ReasonView::AttachStarted {
                target_id: target_id@,
                rest: rest.deep_view(),
            },
            Reason::ContinueAfterMessage { rest } => ReasonView::ContinueAfterMessage {
                rest: rest.deep_view(),
            },
        }
    }
}

/// What is to be done, and with what the adapter goes on afterwards.
pub enum Next {
    /// Nothing.
    Done,
    /// Read the arguments of a `launch` (`true`) or `attach` request.
    ReadArguments(Json, bool),
    /// Read the configuration sources that the arguments name.
    ReadSources(Connecting),
    /// See whether there is a directory under a path, and read the launcher's lists.
    InspectInfoBase(Connecting, Option<ModuleRegistry>, String),
    /// List the platform directory, for the debug server of a file infobase.
    ListPlatform(Located, String),
    /// See whether the program of the debug server is there.
    CheckDebugServer(Located, String),
    /// Start the debug server, at a host, and wait for its port.
    StartDebugServer(Located, String, String),
    /// Launch the client that waits.
    LaunchClient(Json),
    /// List the platform directory, for the client.
    ListClientPlatform(Json, String),
    /// See whether the program of the client is there.
    CheckClient(Json, String),
    /// Start the client, with arguments.
    StartClient(Json, String, Vec<String>),
    /// Resolve the path of a source whose breakpoints are set.
    ResolveSource(Json, String),
    /// Send an HTTP request, and wait for the reply.
    Send(HttpRequest, Reason),
    /// Begin to poll the debug server for a session, beside what else is done.
    Poll(HttpRequest, u64, String),
    /// Go on with the events that a poll brought.
    Events(Vec<DebugUiEvent>),
}

#[verifier::ext_equal]
pub enum NextView {
    Done,
    ReadArguments(JsonView, bool),
    ReadSources(ConnectingView),
    InspectInfoBase(ConnectingView, Option<ModuleRegistryView>, Seq<char>),
    ListPlatform(LocatedView, Seq<char>),
    CheckDebugServer(LocatedView, Seq<char>),
    StartDebugServer(LocatedView, Seq<char>, Seq<char>),
    LaunchClient(JsonView),
    ListClientPlatform(JsonView, Seq<char>),
    CheckClient(JsonView, Seq<char>),
    StartClient(JsonView, Seq<char>, Seq<Seq<char>>),
    ResolveSource(JsonView, Seq<char>),
    Send(HttpRequestView, ReasonView),
    Poll(HttpRequestView, u64, Seq<char>),
    Events(Seq<DebugUiEventView>),
}

impl DeepView for Next {
    type V = NextView;

    open spec fn deep_view(&self) -> NextView {
        match self {
            Next::Done => NextView::Done,
            Next::ReadArguments(request, launch) => NextView::ReadArguments(
                request.deep_view(),
                *launch,
            ),
            Next::ReadSources(connecting) => NextView::ReadSources(connecting.deep_view()),
            Next::InspectInfoBase(connecting, registry, path) => NextView::InspectInfoBase(
                connecting.deep_view(),
                registry.deep_view(),
                path@,
            ),
            Next::ListPlatform(located, path) => NextView::ListPlatform(located.deep_view(), path@),
            Next::CheckDebugServer(located, path) => NextView::CheckDebugServer(
                located.deep_view(),
                path@,
            ),
            Next::StartDebugServer(located, path, host) => NextView::StartDebugServer(
                located.deep_view(),
                path@,
                host@,
            ),
            Next::LaunchClient(request) => NextView::LaunchClient(request.deep_view()),
            Next::ListClientPlatform(request, path) => NextView::ListClientPlatform(
                request.deep_view(),
                path@,
            ),
            Next::CheckClient(request, path) => NextView::CheckClient(request.deep_view(), path@),
            Next::StartClient(request, path, arguments) => NextView::StartClient(
                request.deep_view(),
                path@,
                arguments.deep_view(),
            ),
            Next::ResolveSource(request, path) => NextView::ResolveSource(
                request.deep_view(),
                path@,
            ),
            Next::Send(request, reason) => NextView::Send(request.deep_view(), reason.deep_view()),
            Next::Poll(request, poll, session) => NextView::Poll(
                request.deep_view(),
                *poll,
                session@,
            ),
            Next::Events(events) => NextView::Events(events.deep_view()),
        }
    }
}

/// What a step puts out.
#[derive(Debug, PartialEq, Eq)]
pub enum Output {
    /// A message to the client of the protocol.
    Message(Json),
    /// A record of the latency trace.
    Trace(Vec<(String, Json)>),
}

#[verifier::ext_equal]
pub enum OutputView {
    Message(JsonView),
    Trace(Seq<(Seq<char>, JsonView)>),
}

impl DeepView for Output {
    type V = OutputView;

    open spec fn deep_view(&self) -> OutputView {
        match self {
            Output::Message(message) => OutputView::Message(message.deep_view()),
            Output::Trace(members) => OutputView::Trace(members.deep_view()),
        }
    }
}

/// A step of the adapter.
pub struct Turn {
    pub outputs: Vec<Output>,
    /// Whether the programs that were started for the session have to be stopped.
    pub stop_programs: bool,
    pub next: Next,
}

#[verifier::ext_equal]
pub struct TurnView {
    pub outputs: Seq<OutputView>,
    pub stop_programs: bool,
    pub next: NextView,
}

impl DeepView for Turn {
    type V = TurnView;

    open spec fn deep_view(&self) -> TurnView {
        TurnView {
            outputs: self.outputs.deep_view(),
            stop_programs: self.stop_programs,
            next: self.next.deep_view(),
        }
    }
}

/// A step that puts something out and leaves nothing to do.
pub open spec fn says(outputs: Seq<OutputView>) -> TurnView {
    TurnView { outputs, stop_programs: false, next: NextView::Done }
}

/// A step that puts nothing out and leaves something to do.
pub open spec fn asks(next: NextView) -> TurnView {
    TurnView { outputs: Seq::empty(), stop_programs: false, next }
}

/// The state after `n` more messages.
pub open spec fn counted(s: AdapterView, n: int) -> AdapterView {
    AdapterView { next_sequence: s.next_sequence + n, ..s }
}

/// The response that the next message is.
pub open spec fn next_response(s: AdapterView, request: JsonView, body: JsonView) -> OutputView {
    OutputView::Message(dap::response_to(request, s.next_sequence + 1, body))
}

/// The refusal that the next message is.
pub open spec fn next_refusal(s: AdapterView, request: JsonView, message: Seq<char>) -> OutputView {
    OutputView::Message(dap::refusal_of(request, s.next_sequence + 1, message))
}

/// The event that the next message is.
pub open spec fn next_event(s: AdapterView, name: Seq<char>, body: JsonView) -> OutputView {
    OutputView::Message(dap::event_named(s.next_sequence + 1, name, body))
}

/// An `output` event of a category.
pub open spec fn output_body(category: Seq<char>, output: Seq<char>) -> JsonView {
    JsonView::Object(
        seq![("category"@, JsonView::Str(category)), ("output"@, JsonView::Str(output))],
    )
}

/// The `output` event that the next message is.
pub open spec fn next_output(s: AdapterView, category: Seq<char>, output: Seq<char>) -> OutputView {
    next_event(s, "output"@, output_body(category, output))
}

pub open spec fn no_body() -> JsonView {
    JsonView::Object(Seq::empty())
}

/// A request is answered.
pub open spec fn answered(s: AdapterView, request: JsonView, body: JsonView) -> (AdapterView, TurnView) {
    (counted(s, 1), says(seq![next_response(s, request, body)]))
}

/// A request is refused.
pub open spec fn refused(s: AdapterView, request: JsonView, message: Seq<char>) -> (AdapterView, TurnView) {
    (counted(s, 1), says(seq![next_refusal(s, request, message)]))
}

/// A body without members.
pub fn empty_body() -> (r: Json)
    ensures
        r.deep_view() == no_body(),
{
    object(none())
}

/// A step that says nothing.
pub fn quiet(next: Next) -> (r: Turn)
    ensures
        r.deep_view() == asks(next.deep_view()),
{
    Turn { outputs: none(), stop_programs: false, next }
}

/// A step that says one thing and is done.
pub fn speak(output: Output) -> (r: Turn)
    ensures
        r.deep_view() == says(seq![output.deep_view()]),
{
    Turn { outputs: one(output), stop_programs: false, next: Next::Done }
}

/// A step that says several things and is done.
pub fn speak_all(outputs: Vec<Output>) -> (r: Turn)
    ensures
        r.deep_view() == says(outputs.deep_view()),
{
    Turn { outputs, stop_programs: false, next: Next::Done }
}

impl Adapter {
    /// The number of the next message.
    pub fn next_sequence(&mut self) -> (r: u64)
        requires
            old(self).next_sequence < u64::MAX,
        ensures
            r == old(self).deep_view().next_sequence + 1,
            final(self).deep_view() == counted(old(self).deep_view(), 1),
    {
        self.next_sequence = self.next_sequence + 1;
        self.next_sequence
    }

    /// The successful response to a request, under the next number.
    pub fn respond(&mut self, request: &Json, body: Json) -> (r: Output)
        requires
            old(self).next_sequence < u64::MAX,
        ensures
            r.deep_view() == next_response(
                old(self).deep_view(),
                request.deep_view(),
                body.deep_view(),
            ),
            final(self).deep_view() == counted(old(self).deep_view(), 1),
    {
        let sequence = self.next_sequence();
        Output::Message(response(request, sequence, body))
    }

    /// An event, under the next number.
    pub fn notify(&mut self, name: &str, body: Json) -> (r: Output)
        requires
            old(self).next_sequence < u64::MAX,
        ensures
            r.deep_view() == next_event(old(self).deep_view(), name@, body.deep_view()),
            final(self).deep_view() == counted(old(self).deep_view(), 1),
    {
        let sequence = self.next_sequence();
        Output::Message(event(sequence, name, body))
    }

    /// An event with text for the debug console.
    pub fn output_event(&mut self, category: &str, output: &str) -> (r: Output)
        requires
            old(self).next_sequence < u64::MAX,
        ensures
            r.deep_view() == next_output(old(self).deep_view(), category@, output@),
            final(self).deep_view() == counted(old(self).deep_view(), 1),
    {
        let members = vec![pair("category", string(category)), pair("output", string(output))];
        assert(members.deep_view() =~= output_body(category@, output@)->Object_0);
        self.notify("output", object(members))
    }

    /// A step that answers a request.
    pub fn answer(&mut self, request: &Json, body: Json) -> (r: Turn)
        requires
            old(self).next_sequence < u64::MAX,
        ensures
            (final(self).deep_view(), r.deep_view()) == answered(
                old(self).deep_view(),
                request.deep_view(),
                body.deep_view(),
            ),
    {
        let output = self.respond(request, body);
        speak(output)
    }

    /// A step that refuses a request.
    pub fn refuse(&mut self, request: &Json, message: &str) -> (r: Turn)
        requires
            old(self).next_sequence < u64::MAX,
        ensures
            (final(self).deep_view(), r.deep_view()) == refused(
                old(self).deep_view(),
                request.deep_view(),
                message@,
            ),
    {
        let sequence = self.next_sequence();
        speak(Output::Message(error_response(request, sequence, message)))
    }
}

/// The version of the trace's format.
pub const TRACE_SCHEMA_VERSION: u64 = 1;

/// A line of the latency trace: the version of the format, a monotonic time, and a record.
pub open spec fn traced(ts_ms: u64, members: Seq<(Seq<char>, JsonView)>) -> JsonView {
    JsonView::Object(
        seq![
            ("schemaVersion"@, JsonView::Integer(TRACE_SCHEMA_VERSION as int)),
            ("tsMs"@, JsonView::Integer(ts_ms as int)),
        ] + members,
    )
}

/// One line of the trace, for an event at a time in milliseconds.
pub fn trace_line(ts_ms: u64, members: Vec<(String, Json)>) -> (r: Json)
    ensures
        r.deep_view() == traced(ts_ms, members.deep_view()),
{
    let mut all = vec![
        pair("schemaVersion", Json::Unsigned(TRACE_SCHEMA_VERSION)),
        pair("tsMs", Json::Unsigned(ts_ms)),
    ];
    assert(all.deep_view() =~= seq![
        ("schemaVersion"@, JsonView::Integer(TRACE_SCHEMA_VERSION as int)),
        ("tsMs"@, JsonView::Integer(ts_ms as int)),
    ]);
    append(&mut all, members);
    object(all)
}

/// A record about a thread and its target.
pub open spec fn thread_record(event: Seq<char>, thread_id: i64, target_id: Seq<char>) -> OutputView {
    OutputView::Trace(
        seq![
            ("event"@, JsonView::Str(event)),
            ("threadId"@, JsonView::Integer(thread_id as int)),
            ("targetId"@, JsonView::Str(target_id)),
        ],
    )
}

/// A trace event of a thread.
pub fn trace_thread(event: &str, thread_id: i64, target_id: &str) -> (r: Output)
    ensures
        r.deep_view() == thread_record(event@, thread_id, target_id@),
{
    let members = vec![
        pair("event", string(event)),
        pair("threadId", signed(thread_id)),
        pair("targetId", string(target_id)),
    ];
    assert(members.deep_view() =~= thread_record(event@, thread_id, target_id@)->Trace_0);
    Output::Trace(members)
}

/// A record about a calculation, which is known by the identifier of its result.
pub open spec fn result_record(event: Seq<char>, trace_id: Seq<char>) -> OutputView {
    OutputView::Trace(seq![("event"@, JsonView::Str(event)), ("traceId"@, JsonView::Str(trace_id))])
}

/// A trace event of an evaluation.
pub fn trace_result(event: &str, trace_id: &str) -> (r: Output)
    ensures
        r.deep_view() == result_record(event@, trace_id@),
{
    let members = vec![pair("event", string(event)), pair("traceId", string(trace_id))];
    assert(members.deep_view() =~= result_record(event@, trace_id@)->Trace_0);
    Output::Trace(members)
}

/// A record about a poll.
pub open spec fn poll_record(event: Seq<char>, poll: u64) -> OutputView {
    OutputView::Trace(
        seq![("event"@, JsonView::Str(event)), ("pollId"@, JsonView::Integer(poll as int))],
    )
}

/// A trace event of a poll.
pub fn trace_poll(event: &str, poll: u64) -> (r: Output)
    ensures
        r.deep_view() == poll_record(event@, poll),
{
    let members = vec![pair("event", string(event)), pair("pollId", Json::Unsigned(poll))];
    assert(members.deep_view() =~= poll_record(event@, poll)->Trace_0);
    Output::Trace(members)
}

} // verus!
