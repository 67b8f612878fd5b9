//! What the 1C debug server and a debugger tell each other.

use crate::list::push;
use crate::text::copy;
use vstd::prelude::*;

verus! {

/// A successfully registered 1C Debug UI session.
#[derive(Debug, PartialEq, Eq)]
pub struct DebugUiSession {
    pub id: String,
    pub info_base_alias: String,
}

#[verifier::ext_equal]
pub struct DebugUiSessionView {
    pub id: Seq<char>,
    pub info_base_alias: Seq<char>,
}

impl DeepView for DebugUiSession {
    type V = DebugUiSessionView;

    open spec fn deep_view(&self) -> DebugUiSessionView {
        DebugUiSessionView { id: self.id@, info_base_alias: self.info_base_alias@ }
    }
}

impl DebugUiSession {
    pub fn id(&self) -> (r: &str)
        ensures
            r@ == self.deep_view().id,
    {
        self.id.as_str()
    }

    pub fn info_base_alias(&self) -> (r: &str)
        ensures
            r@ == self.deep_view().info_base_alias,
    {
        self.info_base_alias.as_str()
    }

    pub fn duplicate(&self) -> (r: DebugUiSession)
        ensures
            r.deep_view() == self.deep_view(),
    {
        DebugUiSession { id: self.id.clone(), info_base_alias: self.info_base_alias.clone() }
    }
}

/// One call-stack item sent by the debug server as part of a `callStackFormed` event.
#[derive(Debug, PartialEq, Eq)]
pub struct DebugStackFrame {
    pub extension_name: String,
    pub object_id: String,
    pub property_id: String,
    pub line: i64,
    pub presentation: String,
}

#[verifier::ext_equal]
pub struct DebugStackFrameView {
    pub extension_name: Seq<char>,
    pub object_id: Seq<char>,
    pub property_id: Seq<char>,
    pub line: i64,
    pub presentation: Seq<char>,
}

impl DeepView for DebugStackFrame {
    type V = DebugStackFrameView;

    open spec fn deep_view(&self) -> DebugStackFrameView {
        DebugStackFrameView {
            extension_name: self.extension_name@,
            object_id: self.object_id@,
            property_id: self.property_id@,
            line: self.line,
            presentation: self.presentation@,
        }
    }
}

pub open spec fn blank_frame() -> DebugStackFrameView {
    DebugStackFrameView {
        extension_name: Seq::empty(),
        object_id: Seq::empty(),
        property_id: Seq::empty(),
        line: 0,
        presentation: Seq::empty(),
    }
}

impl Default for DebugStackFrame {
    fn default() -> (r: Self)
        ensures
            r.deep_view() == blank_frame(),
    {
        DebugStackFrame {
            extension_name: String::new(),
            object_id: String::new(),
            property_id: String::new(),
            line: 0,
            presentation: String::new(),
        }
    }
}

/// A readable property in the local context of a stopped 1C stack frame.
#[derive(Debug, PartialEq, Eq)]
pub struct DebugVariable {
    pub name: String,
    pub value_type: String,
    pub value: String,
    pub index: Option<i64>,
    pub is_expandable: bool,
    pub is_indexed_collection: bool,
}

#[verifier::ext_equal]
pub struct DebugVariableView {
    pub name: Seq<char>,
    pub value_type: Seq<char>,
    pub value: Seq<char>,
    pub index: Option<i64>,
    pub is_expandable: bool,
    pub is_indexed_collection: bool,
}

impl DeepView for DebugVariable {
    type V = DebugVariableView;

    open spec fn deep_view(&self) -> DebugVariableView {
        DebugVariableView {
            name: self.name@,
            value_type: self.value_type@,
            value: self.value@,
            index: self.index,
            is_expandable: self.is_expandable,
            is_indexed_collection: self.is_indexed_collection,
        }
    }
}

pub open spec fn blank_variable() -> DebugVariableView {
    DebugVariableView {
        name: Seq::empty(),
        value_type: Seq::empty(),
        value: Seq::empty(),
        index: None,
        is_expandable: false,
        is_indexed_collection: false,
    }
}

impl Default for DebugVariable {
    fn default() -> (r: Self)
        ensures
            r.deep_view() == blank_variable(),
    {
        DebugVariable {
            name: String::new(),
            value_type: String::new(),
            value: String::new(),
            index: None,
            is_expandable: false,
            is_indexed_collection: false,
        }
    }
}

/// A result of expression evaluation.
#[derive(Debug, PartialEq, Eq)]
pub struct DebugEvaluation {
    pub result_id: String,
    pub value: String,
    pub value_type: String,
    pub error: Option<String>,
    pub is_expandable: bool,
    pub is_indexed_collection: bool,
    pub variables: Vec<DebugVariable>,
}

#[verifier::ext_equal]
pub struct DebugEvaluationView {
    pub result_id: Seq<char>,
    pub value: Seq<char>,
    pub value_type: Seq<char>,
    pub error: Option<Seq<char>>,
    pub is_expandable: bool,
    pub is_indexed_collection: bool,
    pub variables: Seq<DebugVariableView>,
}

impl DeepView for DebugEvaluation {
    type V = DebugEvaluationView;

    open spec fn deep_view(&self) -> DebugEvaluationView {
        DebugEvaluationView {
            result_id: self.result_id@,
            value: self.value@,
            value_type: self.value_type@,
            error: self.error.deep_view(),
            is_expandable: self.is_expandable,
            is_indexed_collection: self.is_indexed_collection,
            variables: self.variables.deep_view(),
        }
    }
}

pub open spec fn blank_evaluation() -> DebugEvaluationView {
    DebugEvaluationView {
        result_id: Seq::empty(),
        value: Seq::empty(),
        value_type: Seq::empty(),
        error: None,
        is_expandable: false,
        is_indexed_collection: false,
        variables: Seq::empty(),
    }
}

impl Default for DebugEvaluation {
    fn default() -> (r: Self)
        ensures
            r.deep_view() == blank_evaluation(),
    {
        let r = DebugEvaluation {
            result_id: String::new(),
            value: String::new(),
            value_type: String::new(),
            error: None,
            is_expandable: false,
            is_indexed_collection: false,
            variables: Vec::new(),
        };
        assert(r.variables.deep_view() =~= Seq::<DebugVariableView>::empty());
        r
    }
}

/// A command delivered asynchronously by the 1C debug server to a Debug UI.
#[derive(Debug, PartialEq, Eq)]
pub struct DebugUiEvent {
    pub command_id: String,
    pub target_id: Option<String>,
    pub call_stack: Vec<DebugStackFrame>,
    pub stopped_by_breakpoint: bool,
    pub suspended_by_other: bool,
    pub send_message_only: bool,
    pub send_hit_counter_only: bool,
    pub message: Option<String>,
    pub evaluation: Option<DebugEvaluation>,
}

#[verifier::ext_equal]
pub struct DebugUiEventView {
    pub command_id: Seq<char>,
    pub target_id: Option<Seq<char>>,
    pub call_stack: Seq<DebugStackFrameView>,
    pub stopped_by_breakpoint: bool,
    pub suspended_by_other: bool,
    pub send_message_only: bool,
    pub send_hit_counter_only: bool,
    pub message: Option<Seq<char>>,
    pub evaluation: Option<DebugEvaluationView>,
}

impl DeepView for DebugUiEvent {
    type V = DebugUiEventView;

    open spec fn deep_view(&self) -> DebugUiEventView {
        DebugUiEventView {
            command_id: self.command_id@,
            target_id: self.target_id.deep_view(),
            call_stack: self.call_stack.deep_view(),
            stopped_by_breakpoint: self.stopped_by_breakpoint,
            suspended_by_other: self.suspended_by_other,
            send_message_only: self.send_message_only,
            send_hit_counter_only: self.send_hit_counter_only,
            message: self.message.deep_view(),
            evaluation: self.evaluation.deep_view(),
        }
    }
}

pub open spec fn blank_event() -> DebugUiEventView {
    DebugUiEventView {
        command_id: Seq::empty(),
        target_id: None,
        call_stack: Seq::empty(),
        stopped_by_breakpoint: false,
        suspended_by_other: false,
        send_message_only: false,
        send_hit_counter_only: false,
        message: None,
        evaluation: None,
    }
}

impl Default for DebugUiEvent {
    fn default() -> (r: Self)
        ensures
            r.deep_view() == blank_event(),
    {
        let r = DebugUiEvent {
            command_id: String::new(),
            target_id: None,
            call_stack: Vec::new(),
            stopped_by_breakpoint: false,
            suspended_by_other: false,
            send_message_only: false,
            send_hit_counter_only: false,
            message: None,
            evaluation: None,
        };
        assert(r.call_stack.deep_view() =~= Seq::<DebugStackFrameView>::empty());
        r
    }
}

/// A debuggable 1C execution context returned by `getDbgTargets`.
///
/// The identifier is stable for the lifetime of the context and is the value accepted by
/// `attachDetachDbgTargets`.
#[derive(Debug, PartialEq, Eq)]
pub struct DebugTarget {
    pub id: String,
    pub seance_no: String,
    pub user_name: String,
    pub target_type: String,
}

#[verifier::ext_equal]
pub struct DebugTargetView {
    pub id: Seq<char>,
    pub seance_no: Seq<char>,
    pub user_name: Seq<char>,
    pub target_type: Seq<char>,
}

impl DeepView for DebugTarget {
    type V = DebugTargetView;

    open spec fn deep_view(&self) -> DebugTargetView {
        DebugTargetView {
            id: self.id@,
            seance_no: self.seance_no@,
            user_name: self.user_name@,
            target_type: self.target_type@,
        }
    }
}

pub open spec fn blank_target() -> DebugTargetView {
    DebugTargetView {
        id: Seq::empty(),
        seance_no: Seq::empty(),
        user_name: Seq::empty(),
        target_type: Seq::empty(),
    }
}

impl Default for DebugTarget {
    fn default() -> (r: Self)
        ensures
            r.deep_view() == blank_target(),
    {
        DebugTarget {
            id: String::new(),
            seance_no: String::new(),
            user_name: String::new(),
            target_type: String::new(),
        }
    }
}

/// An item in a calculation path used to obtain the children of a value.
#[derive(Debug, PartialEq, Eq)]
pub enum CalculationPathItem {
    Expression(String),
    Property(String),
    Index(i64),
}

#[verifier::ext_equal]
pub enum CalculationPathItemView {
    Expression(Seq<char>),
    Property(Seq<char>),
    Index(i64),
}

impl DeepView for CalculationPathItem {
    type V = CalculationPathItemView;

    open spec fn deep_view(&self) -> CalculationPathItemView {
        match self {
            CalculationPathItem::Expression(text) => CalculationPathItemView::Expression(text@),
            CalculationPathItem::Property(text) => CalculationPathItemView::Property(text@),
            CalculationPathItem::Index(index) => CalculationPathItemView::Index(*index),
        }
    }
}

impl CalculationPathItem {
    pub fn duplicate(&self) -> (r: CalculationPathItem)
        ensures
            r.deep_view() == self.deep_view(),
    {
        match self {
            CalculationPathItem::Expression(text) => CalculationPathItem::Expression(copy(text.as_str())),
            CalculationPathItem::Property(text) => CalculationPathItem::Property(copy(text.as_str())),
            CalculationPathItem::Index(index) => CalculationPathItem::Index(*index),
        }
    }
}

/// A copy of a calculation path.
pub fn duplicate_path(path: &Vec<CalculationPathItem>) -> (r: Vec<CalculationPathItem>)
    ensures
        r.deep_view() == path.deep_view(),
{
    let mut out: Vec<CalculationPathItem> = Vec::new();
    let mut i: usize = 0;
    while i < path.len()
        invariant
            i <= path@.len(),
            out.deep_view() == path.deep_view().take(i as int),
        decreases path@.len() - i,
    {
        let item = path[i].duplicate();
        push(&mut out, item);
        assert(out.deep_view() =~= path.deep_view().take(i + 1));
        i = i + 1;
    }
    assert(path.deep_view().take(i as int) =~= path.deep_view());
    out
}

/// Whether the debug server should describe an object context or an indexed collection.
#[derive(Debug, Clone, Copy, PartialEq, Eq, Structural)]
pub enum EvaluationInterface {
    Context,
    Collection,
}

impl DeepView for EvaluationInterface {
    type V = EvaluationInterface;

    open spec fn deep_view(&self) -> EvaluationInterface {
        *self
    }
}

/// Immediate or deferred response to an expression request.
#[derive(Debug, PartialEq, Eq)]
pub struct EvaluationStart<T> {
    pub result_id: String,
    pub result: Option<T>,
}

/// How execution goes on.
#[derive(Debug, Clone, Copy, PartialEq, Eq, Structural)]
pub enum StepAction {
    Continue,
    Next,
    StepIn,
    StepOut,
}

/// One source breakpoint in the format understood by the 1C debug server.
#[derive(Debug, PartialEq, Eq)]
pub struct SourceBreakpoint {
    pub line: i64,
    pub condition: Option<String>,
    pub hit_condition: Option<i64>,
    pub log_message: Option<String>,
}

#[verifier::ext_equal]
pub struct SourceBreakpointView {
    pub line: i64,
    pub condition: Option<Seq<char>>,
    pub hit_condition: Option<i64>,
    pub log_message: Option<Seq<char>>,
}

impl DeepView for SourceBreakpoint {
    type V = SourceBreakpointView;

    open spec fn deep_view(&self) -> SourceBreakpointView {
        SourceBreakpointView {
            line: self.line,
            condition: self.condition.deep_view(),
            hit_condition: self.hit_condition,
            log_message: self.log_message.deep_view(),
        }
    }
}

/// A copy of an optional text.
pub fn duplicate_optional(text: &Option<String>) -> (r: Option<String>)
    ensures
        r.deep_view() == text.deep_view(),
{
    match text {
        Some(text) => Some(copy(text.as_str())),
        None => None,
    }
}

impl SourceBreakpoint {
    pub fn duplicate(&self) -> (r: SourceBreakpoint)
        ensures
            r.deep_view() == self.deep_view(),
    {
        SourceBreakpoint {
            line: self.line,
            condition: duplicate_optional(&self.condition),
            hit_condition: self.hit_condition,
            log_message: duplicate_optional(&self.log_message),
        }
    }
}

/// A copy of a list of breakpoints.
pub fn duplicate_breakpoints(breakpoints: &Vec<SourceBreakpoint>) -> (r: Vec<SourceBreakpoint>)
    ensures
        r.deep_view() == breakpoints.deep_view(),
{
    let mut out: Vec<SourceBreakpoint> = Vec::new();
    let mut i: usize = 0;
    while i < breakpoints.len()
        invariant
            i <= breakpoints@.len(),
            out.deep_view() == breakpoints.deep_view().take(i as int),
        decreases breakpoints@.len() - i,
    {
        let item = breakpoints[i].duplicate();
        push(&mut out, item);
        assert(out.deep_view() =~= breakpoints.deep_view().take(i + 1));
        i = i + 1;
    }
    assert(breakpoints.deep_view().take(i as int) =~= breakpoints.deep_view());
    out
}

/// The identity of a configuration module and its requested breakpoints.
#[derive(Debug, PartialEq, Eq)]
pub struct ModuleBreakpoints {
    pub extension_name: String,
    pub object_id: String,
    pub property_id: String,
    pub breakpoints: Vec<SourceBreakpoint>,
}

#[verifier::ext_equal]
pub struct ModuleBreakpointsView {
    pub extension_name: Seq<char>,
    pub object_id: Seq<char>,
    pub property_id: Seq<char>,
    pub breakpoints: Seq<SourceBreakpointView>,
}

impl DeepView for ModuleBreakpoints {
    type V = ModuleBreakpointsView;

    open spec fn deep_view(&self) -> ModuleBreakpointsView {
        ModuleBreakpointsView {
            extension_name: self.extension_name@,
            object_id: self.object_id@,
            property_id: self.property_id@,
            breakpoints: self.breakpoints.deep_view(),
        }
    }
}

} // verus!
