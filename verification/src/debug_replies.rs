//! Reading of the XML replies of the 1C debug server.

use crate::debug_types;
use crate::debug_types::{
    DebugEvaluation, DebugEvaluationView, DebugStackFrame, DebugStackFrameView, DebugTarget,
    DebugTargetView, DebugUiEvent, DebugUiEventView, DebugVariable, DebugVariableView,
};
use crate::list::push;
use crate::number;
use crate::number::{decimal_i64, parse_integer};
use crate::text;
use crate::text::{contains, copy, same, trimmed, utf8_text};
use crate::xml;
use crate::xml::{
    local_name, open_document, read_event, read_events, read_inner_text, unescape_text, xml_bool,
    XmlEvent, XmlEventView,
};
use base64::Engine;
use vstd::prelude::*;

verus! {

/// What the base64 decoder with the standard alphabet makes of a text.
pub uninterp spec fn base64_bytes(value: Seq<char>) -> Option<Seq<u8>>;

/// `base64::engine::general_purpose::STANDARD.decode` gives the bytes that a base64 text stands
/// for, or an error.
#[verifier::external_body]
fn decode_base64(value: &str) -> (r: Option<Vec<u8>>)
    ensures
        match r {
            Some(bytes) => base64_bytes(value@) == Some(bytes@),
            None => base64_bytes(value@) is None,
        },
{
    base64::engine::general_purpose::STANDARD.decode(value.as_bytes()).ok()
}

/// The UTF-8 text that bytes stand for, where there are bytes and they are UTF-8; `value` else.
pub open spec fn text_or(bytes: Option<Seq<u8>>, value: Seq<char>) -> Seq<char> {
    match bytes {
        Some(bytes) => match text::utf8_decoded(bytes) {
            Some(decoded) => decoded,
            None => value,
        },
        None => value,
    }
}

/// The text that a base64 value stands for, or the value itself where it stands for none.
pub open spec fn base64_text(value: Seq<char>) -> Seq<char> {
    text_or(base64_bytes(value), value)
}

/// Takes decoded bytes as text, or keeps the value they came from.
pub fn decoded_text(bytes: &Option<Vec<u8>>, value: &str) -> (r: String)
    ensures
        r@ == text_or(
            match bytes {
                Some(bytes) => Some(bytes@),
                None => None,
            },
            value@,
        ),
{
    match bytes {
        Some(bytes) => match utf8_text(bytes.as_slice()) {
            Some(decoded) => decoded,
            None => copy(value),
        },
        None => copy(value),
    }
}

/// Decodes Base64 text; text that is not Base64 stands for itself.
pub fn decode_base64_text(value: &str) -> (r: String)
    ensures
        r@ == base64_text(value@),
{
    let bytes = decode_base64(value);
    decoded_text(&bytes, value)
}

pub open spec fn optional_integer(value: Option<int>) -> i64 {
    match value {
        Some(value) => value as i64,
        None => 0,
    }
}

/// The `i64` that a text stands for, or zero.
pub open spec fn integer_or_zero(value: Seq<char>) -> i64 {
    optional_integer(number::parsed(value, i64::MIN as int, i64::MAX as int))
}

pub fn parse_or_zero(value: &str) -> (r: i64)
    ensures
        r == integer_or_zero(value@),
{
    match parse_integer(value, i64::MIN, i64::MAX as u64) {
        Some(value) => value as i64,
        None => 0,
    }
}

/// A call-stack item after one of its values.
pub open spec fn frame_with(frame: DebugStackFrameView, name: Seq<char>, value: Seq<char>) -> DebugStackFrameView {
    if name == "extensionName"@ {
        DebugStackFrameView { extension_name: value, ..frame }
    } else if name == "objectID"@ {
        DebugStackFrameView { object_id: value, ..frame }
    } else if name == "propertyID"@ {
        DebugStackFrameView { property_id: value, ..frame }
    } else if name == "lineNo"@ {
        DebugStackFrameView { line: integer_or_zero(value), ..frame }
    } else if name == "presentation"@ {
        DebugStackFrameView { presentation: base64_text(value), ..frame }
    } else {
        frame
    }
}

fn set_stack_field(frame: DebugStackFrame, name: &str, value: &str) -> (r: DebugStackFrame)
    ensures
        r.deep_view() == frame_with(frame.deep_view(), name@, value@),
{
    let mut frame = frame;
    if same(name, "extensionName") {
        frame.extension_name = copy(value);
    } else if same(name, "objectID") {
        frame.object_id = copy(value);
    } else if same(name, "propertyID") {
        frame.property_id = copy(value);
    } else if same(name, "lineNo") {
        frame.line = parse_or_zero(value);
    } else if same(name, "presentation") {
        frame.presentation = decode_base64_text(value);
    }
    frame
}

/// A variable after one of its values.
pub open spec fn variable_with(variable: DebugVariableView, name: Seq<char>, value: Seq<char>) -> DebugVariableView {
    if name == "propName"@ {
        DebugVariableView { name: value, ..variable }
    } else if name == "typeName"@ {
        DebugVariableView { value_type: value, ..variable }
    } else if name == "pres"@ || name == "errorStr"@ {
        DebugVariableView { value: base64_text(value), ..variable }
    } else if name == "isExpandable"@ {
        DebugVariableView { is_expandable: xml::is_true(value), ..variable }
    } else if name == "isIIndexedCollectionRO"@ {
        DebugVariableView { is_indexed_collection: xml::is_true(value), ..variable }
    } else {
        variable
    }
}

fn set_variable_field(variable: DebugVariable, name: &str, value: &str) -> (r: DebugVariable)
    ensures
        r.deep_view() == variable_with(variable.deep_view(), name@, value@),
{
    let mut variable = variable;
    if same(name, "propName") {
        variable.name = copy(value);
    } else if same(name, "typeName") {
        variable.value_type = copy(value);
    } else if same(name, "pres") || same(name, "errorStr") {
        variable.value = decode_base64_text(value);
    } else if same(name, "isExpandable") {
        variable.is_expandable = xml_bool(value);
    } else if same(name, "isIIndexedCollectionRO") {
        variable.is_indexed_collection = xml_bool(value);
    }
    variable
}

pub open spec fn failure() -> Seq<char> {
    "expression evaluation failed"@
}

/// The error of an evaluation after its error flag: a set flag counts as an error where none is
/// known yet.
pub open spec fn flagged(error: Option<Seq<char>>, value: Seq<char>) -> Option<Seq<char>> {
    if xml::is_true(value) && error is None {
        Some(failure())
    } else {
        error
    }
}

fn error_flag(error: Option<String>, value: &str) -> (r: Option<String>)
    ensures
        r.deep_view() == flagged(error.deep_view(), value@),
{
    match error {
        Some(error) => Some(error),
        None => if xml_bool(value) {
            Some(copy("expression evaluation failed"))
        } else {
            None
        },
    }
}

/// An evaluation after one of its values; `in_value` tells whether the value describes the result
/// itself and not one of its parts.
pub open spec fn evaluation_with(
    evaluation: DebugEvaluationView,
    in_value: bool,
    name: Seq<char>,
    value: Seq<char>,
) -> DebugEvaluationView {
    if name == "expressionResultID"@ {
        DebugEvaluationView { result_id: value, ..evaluation }
    } else if name == "errorOccurred"@ {
        DebugEvaluationView { error: flagged(evaluation.error, value), ..evaluation }
    } else if name == "typeName"@ && in_value {
        DebugEvaluationView { value_type: value, ..evaluation }
    } else if name == "pres"@ && in_value {
        DebugEvaluationView { value: base64_text(value), ..evaluation }
    } else if name == "exceptionStr"@ {
        DebugEvaluationView { error: Some(base64_text(value)), ..evaluation }
    } else if name == "isExpandable"@ && in_value {
        DebugEvaluationView { is_expandable: xml::is_true(value), ..evaluation }
    } else if name == "isIIndexedCollectionRO"@ && in_value {
        DebugEvaluationView { is_indexed_collection: xml::is_true(value), ..evaluation }
    } else {
        evaluation
    }
}

fn set_evaluation_field(evaluation: DebugEvaluation, in_value: bool, name: &str, value: &str) -> (r: DebugEvaluation)
    ensures
        r.deep_view() == evaluation_with(evaluation.deep_view(), in_value, name@, value@),
{
    let mut evaluation = evaluation;
    if same(name, "expressionResultID") {
        evaluation.result_id = copy(value);
    } else if same(name, "errorOccurred") {
        evaluation.error = error_flag(evaluation.error, value);
    } else if same(name, "typeName") && in_value {
        evaluation.value_type = copy(value);
    } else if same(name, "pres") && in_value {
        evaluation.value = decode_base64_text(value);
    } else if same(name, "exceptionStr") {
        evaluation.error = Some(decode_base64_text(value));
    } else if same(name, "isExpandable") && in_value {
        evaluation.is_expandable = xml_bool(value);
    } else if same(name, "isIIndexedCollectionRO") && in_value {
        evaluation.is_indexed_collection = xml_bool(value);
    }
    evaluation
}

/// Whether one of the open elements has a name.
pub open spec fn inside(names: Seq<Seq<char>>, name: Seq<char>) -> bool {
    exists|i: int| 0 <= i < names.len() && #[trigger] names[i] == name
}

fn is_inside(names: &Vec<String>, name: &str) -> (r: bool)
    ensures
        r == inside(names.deep_view(), name@),
{
    let mut i: usize = 0;
    while i < names.len()
        invariant
            i <= names@.len(),
            forall|k: int| 0 <= k < i ==> #[trigger] names.deep_view()[k] != name@,
        decreases names@.len() - i,
    {
        if same(names[i].as_str(), name) {
            assert(names.deep_view()[i as int] == name@);
            return true;
        }
        i = i + 1;
    }
    false
}

pub open spec fn pop(names: Seq<Seq<char>>) -> Seq<Seq<char>> {
    if names.len() == 0 {
        names
    } else {
        names.drop_last()
    }
}

fn pop_name(names: &mut Vec<String>)
    ensures
        final(names).deep_view() == pop(old(names).deep_view()),
{
    let ghost before = names.deep_view();
    names.pop();
    assert(names.deep_view() =~= pop(before));
}

/// Where the reading of a ping reply stands.
#[verifier::ext_equal]
pub struct PingStateView {
    pub names: Seq<Seq<char>>,
    pub event: Option<DebugUiEventView>,
    pub frame: Option<DebugStackFrameView>,
    pub variable: Option<DebugVariableView>,
    pub index: int,
    pub events: Seq<DebugUiEventView>,
}

pub open spec fn ping_start() -> PingStateView {
    PingStateView {
        names: Seq::empty(),
        event: None,
        frame: None,
        variable: None,
        index: 0,
        events: Seq::empty(),
    }
}

pub open spec fn indexed_variable(index: int) -> DebugVariableView {
    DebugVariableView {
        name: number::decimal(index),
        index: Some(index as i64),
        ..debug_types::blank_variable()
    }
}

/// An opening tag: a `result` below the root begins an event, a `callStack` inside an event
/// begins a call-stack item, and outside of those a value begins a variable.
pub open spec fn ping_opened(s: PingStateView, name: Seq<char>) -> PingStateView {
    let begins_event = name == "result"@ && s.names.len() == 1;
    let event = if begins_event {
        Some(debug_types::blank_event())
    } else {
        s.event
    };
    let frame = if !begins_event && s.event is Some && name == "callStack"@ {
        Some(debug_types::blank_frame())
    } else {
        s.frame
    };
    let property = frame is None && name == "valueOfContextPropInfo"@;
    let item = frame is None && !property && name == "valueOfCollectionInfo"@;
    PingStateView {
        names: s.names.push(name),
        event,
        frame,
        variable: if property {
            Some(debug_types::blank_variable())
        } else if item {
            Some(indexed_variable(s.index))
        } else {
            s.variable
        },
        index: if item {
            s.index + 1
        } else {
            s.index
        },
        events: s.events,
    }
}

/// The event with a finished call-stack item.
pub open spec fn event_with_frame(event: Option<DebugUiEventView>, frame: Option<DebugStackFrameView>) -> Option<DebugUiEventView> {
    match (event, frame) {
        (Some(event), Some(frame)) => Some(
            DebugUiEventView { call_stack: event.call_stack.push(frame), ..event },
        ),
        _ => event,
    }
}

/// The event with a finished variable; a variable without a name is dropped.
pub open spec fn event_with_variable(event: Option<DebugUiEventView>, variable: Option<DebugVariableView>) -> Option<DebugUiEventView> {
    match (event, variable) {
        (Some(event), Some(variable)) => match event.evaluation {
            Some(evaluation) => if variable.name.len() > 0 {
                Some(
                    DebugUiEventView {
                        evaluation: Some(
                            DebugEvaluationView {
                                variables: evaluation.variables.push(variable),
                                ..evaluation
                            },
                        ),
                        ..event
                    },
                )
            } else {
                Some(event)
            },
            None => Some(event),
        },
        _ => event,
    }
}

/// The events with a finished event; an event without a command is dropped.
pub open spec fn events_with(events: Seq<DebugUiEventView>, event: Option<DebugUiEventView>) -> Seq<DebugUiEventView> {
    match event {
        Some(event) => if event.command_id.len() > 0 {
            events.push(event)
        } else {
            events
        },
        None => events,
    }
}

pub open spec fn is_value(name: Seq<char>) -> bool {
    name == "valueOfContextPropInfo"@ || name == "valueOfCollectionInfo"@
}

/// A closing tag: what it closes is handed to what stands around it.
pub open spec fn ping_closed(s: PingStateView, name: Seq<char>) -> PingStateView {
    let closes_frame = name == "callStack"@;
    let closes_event = name == "result"@ && s.names.len() == 2;
    let with_frame = if closes_frame {
        event_with_frame(s.event, s.frame)
    } else {
        s.event
    };
    let with_variable = if is_value(name) {
        event_with_variable(with_frame, s.variable)
    } else {
        with_frame
    };
    PingStateView {
        names: pop(s.names),
        event: if closes_event {
            None
        } else {
            with_variable
        },
        frame: if closes_frame {
            None
        } else {
            s.frame
        },
        variable: if is_value(name) {
            None
        } else {
            s.variable
        },
        index: s.index,
        events: if closes_event {
            events_with(s.events, with_variable)
        } else {
            s.events
        },
    }
}

/// An event after one of its own values.
pub open spec fn event_with(event: DebugUiEventView, names: Seq<Seq<char>>, name: Seq<char>, value: Seq<char>) -> DebugUiEventView {
    if name == "cmdID"@ {
        DebugUiEventView {
            command_id: value,
            evaluation: if value == "exprEvaluated"@ {
                Some(debug_types::blank_evaluation())
            } else {
                event.evaluation
            },
            ..event
        }
    } else if name == "id"@ && inside(names, "targetID"@) {
        DebugUiEventView { target_id: Some(value), ..event }
    } else if name == "stopByBP"@ {
        DebugUiEventView { stopped_by_breakpoint: xml::is_true(value), ..event }
    } else if name == "suspendedByOther"@ {
        DebugUiEventView { suspended_by_other: xml::is_true(value), ..event }
    } else if name == "sendMessageOnly"@ {
        DebugUiEventView { send_message_only: xml::is_true(value), ..event }
    } else if name == "sendHitCounterOnly"@ {
        DebugUiEventView { send_hit_counter_only: xml::is_true(value), ..event }
    } else if name == "message"@ {
        DebugUiEventView { message: Some(value), ..event }
    } else {
        event
    }
}

/// A value inside an event: it belongs to the event or to the open call-stack item, and outside of
/// call-stack items to the open variable and to the evaluation.
pub open spec fn ping_valued(s: PingStateView, event: DebugUiEventView, name: Seq<char>, value: Seq<char>) -> PingStateView {
    let event = event_with(event, s.names, name, value);
    match s.frame {
        Some(frame) => PingStateView {
            event: Some(event),
            frame: Some(frame_with(frame, name, value)),
            ..s
        },
        None => PingStateView {
            event: Some(
                DebugUiEventView {
                    evaluation: match event.evaluation {
                        Some(evaluation) => Some(
                            evaluation_with(
                                evaluation,
                                inside(s.names, "resultValueInfo"@),
                                name,
                                value,
                            ),
                        ),
                        None => None,
                    },
                    ..event
                },
            ),
            variable: match s.variable {
                Some(variable) => Some(variable_with(variable, name, value)),
                None => None,
            },
            ..s
        },
    }
}

pub open spec fn ping_text(s: PingStateView, value: Option<Seq<char>>) -> Result<PingStateView, Seq<char>> {
    match s.event {
        None => Ok(s),
        Some(event) => match value {
            None => Err("cannot decode Debug UI event value"@),
            Some(value) => if s.names.len() == 0 {
                Ok(s)
            } else {
                Ok(ping_valued(s, event, s.names.last(), value))
            },
        },
    }
}

/// One step of the reading; `Eof` and errors are for `ping_run`.
pub open spec fn ping_step(s: PingStateView, event: XmlEventView) -> Result<PingStateView, Seq<char>> {
    match event {
        XmlEventView::Start(name, _) => Ok(ping_opened(s, xml::local(name))),
        XmlEventView::End(name) => Ok(ping_closed(s, xml::local(name))),
        XmlEventView::Text(raw) => ping_text(s, xml::xml_unescaped_text(raw)),
        _ => Ok(s),
    }
}

/// The events in what remains of a ping reply, read on from `s`.
pub open spec fn ping_run(s: PingStateView, events: Seq<XmlEventView>) -> Result<Seq<DebugUiEventView>, Seq<char>>
    decreases events.len(),
{
    if events.len() == 0 || events[0] is Eof {
        Ok(s.events)
    } else {
        match events[0] {
            XmlEventView::Invalid(message) => Err(message),
            event => match ping_step(s, event) {
                Ok(next) => ping_run(next, events.drop_first()),
                Err(message) => Err(message),
            },
        }
    }
}

struct PingState {
    names: Vec<String>,
    event: Option<DebugUiEvent>,
    frame: Option<DebugStackFrame>,
    variable: Option<DebugVariable>,
    index: i64,
    events: Vec<DebugUiEvent>,
}

impl DeepView for PingState {
    type V = PingStateView;

    closed spec fn deep_view(&self) -> PingStateView {
        PingStateView {
            names: self.names.deep_view(),
            event: self.event.deep_view(),
            frame: self.frame.deep_view(),
            variable: self.variable.deep_view(),
            index: self.index as int,
            events: self.events.deep_view(),
        }
    }
}

impl PingState {
    fn open(&mut self, name: String)
        requires
            old(self).index < i64::MAX,
        ensures
            final(self).deep_view() == ping_opened(old(self).deep_view(), name@),
    {
        let begins_event = same(name.as_str(), "result") && self.names.len() == 1;
        if begins_event {
            self.event = Some(DebugUiEvent::default());
        } else if self.event.is_some() && same(name.as_str(), "callStack") {
            self.frame = Some(DebugStackFrame::default());
        }
        if self.frame.is_none() && same(name.as_str(), "valueOfContextPropInfo") {
            self.variable = Some(DebugVariable::default());
        } else if self.frame.is_none() && same(name.as_str(), "valueOfCollectionInfo") {
            let mut variable = DebugVariable::default();
            variable.name = decimal_i64(self.index);
            variable.index = Some(self.index);
            self.variable = Some(variable);
            self.index = self.index + 1;
        }
        push(&mut self.names, name);
    }

    fn close(&mut self, name: &str)
        ensures
            final(self).deep_view() == ping_closed(old(self).deep_view(), name@),
    {
        let ghost before = self.deep_view();
        let depth: usize = self.names.len();
        if same(name, "callStack") {
            let frame = self.frame.take();
            self.event = add_frame(self.event.take(), frame);
        }
        if same(name, "valueOfContextPropInfo") || same(name, "valueOfCollectionInfo") {
            let variable = self.variable.take();
            self.event = add_variable(self.event.take(), variable);
        }
        if same(name, "result") && depth == 2 {
            match self.event.take() {
                Some(event) => {
                    if !event.command_id.as_str().is_empty() {
                        push(&mut self.events, event);
                    }
                },
                None => {},
            }
        }
        pop_name(&mut self.names);
        assert(self.deep_view() =~= ping_closed(before, name@));
    }

    fn text(&mut self, raw: &str) -> (r: Result<(), String>)
        ensures
            match ping_text(old(self).deep_view(), xml::xml_unescaped_text(raw@)) {
                Ok(next) => r is Ok && final(self).deep_view() == next,
                Err(message) => r matches Err(e) && e@ == message,
            },
    {
        if self.event.is_none() {
            return Ok(());
        }
        let value = match unescape_text(raw) {
            Some(value) => value,
            None => {
                return Err(copy("cannot decode Debug UI event value"));
            },
        };
        if self.names.len() == 0 {
            return Ok(());
        }
        let name = copy(self.names[self.names.len() - 1].as_str());
        self.value(name.as_str(), value.as_str());
        Ok(())
    }

    fn value(&mut self, name: &str, value: &str)
        requires
            old(self).event is Some,
        ensures
            final(self).deep_view() == ping_valued(
                old(self).deep_view(),
                old(self).deep_view().event->0,
                name@,
                value@,
            ),
    {
        let ghost before = self.deep_view();
        match self.event.take() {
            None => {},
            Some(event) => {
                let mut event = set_event_field(event, &self.names, name, value);
                match self.frame.take() {
                    Some(frame) => {
                        self.frame = Some(set_stack_field(frame, name, value));
                    },
                    None => {
                        match self.variable.take() {
                            Some(variable) => {
                                self.variable = Some(set_variable_field(variable, name, value));
                            },
                            None => {},
                        }
                        let in_value = is_inside(&self.names, "resultValueInfo");
                        event.evaluation = match event.evaluation {
                            Some(evaluation) => Some(set_evaluation_field(evaluation, in_value, name, value)),
                            None => None,
                        };
                    },
                }
                self.event = Some(event);
            },
        }
    }
}

fn set_event_field(event: DebugUiEvent, names: &Vec<String>, name: &str, value: &str) -> (r: DebugUiEvent)
    ensures
        r.deep_view() == event_with(event.deep_view(), names.deep_view(), name@, value@),
{
    let mut event = event;
    if same(name, "cmdID") {
        event.command_id = copy(value);
        if same(value, "exprEvaluated") {
            event.evaluation = Some(DebugEvaluation::default());
        }
    } else if same(name, "id") && is_inside(names, "targetID") {
        event.target_id = Some(copy(value));
    } else if same(name, "stopByBP") {
        event.stopped_by_breakpoint = xml_bool(value);
    } else if same(name, "suspendedByOther") {
        event.suspended_by_other = xml_bool(value);
    } else if same(name, "sendMessageOnly") {
        event.send_message_only = xml_bool(value);
    } else if same(name, "sendHitCounterOnly") {
        event.send_hit_counter_only = xml_bool(value);
    } else if same(name, "message") {
        event.message = Some(copy(value));
    }
    event
}

fn add_frame(event: Option<DebugUiEvent>, frame: Option<DebugStackFrame>) -> (r: Option<DebugUiEvent>)
    ensures
        r.deep_view() == event_with_frame(event.deep_view(), frame.deep_view()),
{
    match event {
        Some(event) => {
            let mut event = event;
            match frame {
                Some(frame) => {
                    push(&mut event.call_stack, frame);
                },
                None => {},
            }
            Some(event)
        },
        None => None,
    }
}

fn add_variable(event: Option<DebugUiEvent>, variable: Option<DebugVariable>) -> (r: Option<DebugUiEvent>)
    ensures
        r.deep_view() == event_with_variable(event.deep_view(), variable.deep_view()),
{
    match event {
        Some(event) => {
            let mut event = event;
            match variable {
                Some(variable) => {
                    event.evaluation = match event.evaluation {
                        Some(evaluation) => {
                            let mut evaluation = evaluation;
                            if !variable.name.as_str().is_empty() {
                                push(&mut evaluation.variables, variable);
                            }
                            Some(evaluation)
                        },
                        None => None,
                    };
                },
                None => {},
            }
            Some(event)
        },
        None => None,
    }
}

/// Reads a ping reply from the events of its document.
pub fn ping_events(events: &Vec<XmlEvent>) -> (r: Result<Vec<DebugUiEvent>, String>)
    requires
        events@.len() <= i64::MAX,
    ensures
        text::outcome(r) == ping_run(ping_start(), events.deep_view()),
{
    let mut state = PingState {
        names: Vec::new(),
        event: None,
        frame: None,
        variable: None,
        index: 0,
        events: Vec::new(),
    };
    let ghost all = events.deep_view();
    assert(state.names.deep_view() =~= Seq::<Seq<char>>::empty());
    assert(state.events.deep_view() =~= Seq::<DebugUiEventView>::empty());
    assert(all.skip(0) =~= all);
    let mut i: usize = 0;
    while i < events.len()
        invariant
            i <= events@.len() <= i64::MAX,
            state.index <= i,
            all == events.deep_view(),
            ping_run(ping_start(), all) == ping_run(state.deep_view(), all.skip(i as int)),
        decreases events@.len() - i,
    {
        assert(all.skip(i as int)[0] == events@[i as int].deep_view());
        assert(all.skip(i as int).drop_first() =~= all.skip(i + 1));
        match &events[i] {
            XmlEvent::Start(name, _) => {
                state.open(local_name(name.as_str()));
            },
            XmlEvent::End(name) => {
                let name = local_name(name.as_str());
                state.close(name.as_str());
            },
            XmlEvent::Text(raw) => {
                match state.text(raw.as_str()) {
                    Ok(()) => {},
                    Err(message) => {
                        return Err(message);
                    },
                }
            },
            XmlEvent::Eof => {
                return Ok(state.events);
            },
            XmlEvent::Invalid(message) => {
                return Err(copy(message.as_str()));
            },
            _ => {},
        }
        i = i + 1;
    }
    assert(all.skip(i as int).len() == 0);
    Ok(state.events)
}

/// The events of a reply, or an error where there are more than an index can count.
pub open spec fn reply_events(document: Seq<char>) -> Result<Seq<XmlEventView>, Seq<char>> {
    let events = xml::xml_events(document, true);
    if events.len() <= i64::MAX {
        Ok(events)
    } else {
        Err("XML document is too large"@)
    }
}

fn read_reply(document: &str) -> (r: Result<Vec<XmlEvent>, String>)
    ensures
        text::outcome(r) == reply_events(document@),
        r matches Ok(events) ==> events@.len() <= i64::MAX && xml::is_stream(events.deep_view()),
{
    let events = read_events(document, true);
    if events.len() as u64 <= i64::MAX as u64 {
        Ok(events)
    } else {
        Err(copy("XML document is too large"))
    }
}

/// The Debug UI events in a ping reply.
pub open spec fn ping_reply(document: Seq<char>) -> Result<Seq<DebugUiEventView>, Seq<char>> {
    match reply_events(document) {
        Ok(events) => ping_run(ping_start(), events),
        Err(message) => Err(message),
    }
}

/// Reads the Debug UI events in a ping reply.
pub fn parse_debug_ui_events(document: &str) -> (r: Result<Vec<DebugUiEvent>, String>)
    ensures
        text::outcome(r) == ping_reply(document@),
{
    match read_reply(document) {
        Ok(events) => ping_events(&events),
        Err(message) => Err(message),
    }
}

/// Where the reading of variables stands.
#[verifier::ext_equal]
pub struct VariablesStateView {
    pub names: Seq<Seq<char>>,
    pub current: Option<DebugVariableView>,
    pub index: int,
    pub variables: Seq<DebugVariableView>,
}

pub open spec fn variables_start() -> VariablesStateView {
    VariablesStateView {
        names: Seq::empty(),
        current: None,
        index: 0,
        variables: Seq::empty(),
    }
}

pub open spec fn variables_opened(s: VariablesStateView, name: Seq<char>) -> VariablesStateView {
    let property = name == "valueOfContextPropInfo"@;
    let item = !property && name == "valueOfCollectionInfo"@;
    VariablesStateView {
        names: s.names.push(name),
        current: if property {
            Some(debug_types::blank_variable())
        } else if item {
            Some(indexed_variable(s.index))
        } else {
            s.current
        },
        index: if item {
            s.index + 1
        } else {
            s.index
        },
        variables: s.variables,
    }
}

/// The variables with a finished one; a variable without a name is dropped.
pub open spec fn variables_with(variables: Seq<DebugVariableView>, current: Option<DebugVariableView>) -> Seq<DebugVariableView> {
    match current {
        Some(variable) => if variable.name.len() > 0 {
            variables.push(variable)
        } else {
            variables
        },
        None => variables,
    }
}

pub open spec fn variables_closed(s: VariablesStateView, name: Seq<char>) -> VariablesStateView {
    VariablesStateView {
        names: pop(s.names),
        current: if is_value(name) {
            None
        } else {
            s.current
        },
        index: s.index,
        variables: if is_value(name) {
            variables_with(s.variables, s.current)
        } else {
            s.variables
        },
    }
}

pub open spec fn variables_text(s: VariablesStateView, value: Option<Seq<char>>) -> Result<VariablesStateView, Seq<char>> {
    match s.current {
        Some(variable) if s.names.len() > 0 => match value {
            Some(value) => Ok(
                VariablesStateView {
                    current: Some(variable_with(variable, s.names.last(), value)),
                    ..s
                },
            ),
            None => Err("cannot decode local variables response"@),
        },
        _ => Ok(s),
    }
}

pub open spec fn variables_step(s: VariablesStateView, event: XmlEventView) -> Result<VariablesStateView, Seq<char>> {
    match event {
        XmlEventView::Start(name, _) => Ok(variables_opened(s, xml::local(name))),
        XmlEventView::End(name) => Ok(variables_closed(s, xml::local(name))),
        XmlEventView::Text(raw) => variables_text(s, xml::xml_unescaped_text(raw)),
        _ => Ok(s),
    }
}

/// The variables in what remains of a reply, read on from `s`.
pub open spec fn variables_run(s: VariablesStateView, events: Seq<XmlEventView>) -> Result<Seq<DebugVariableView>, Seq<char>>
    decreases events.len(),
{
    if events.len() == 0 || events[0] is Eof {
        Ok(s.variables)
    } else {
        match events[0] {
            XmlEventView::Invalid(message) => Err(message),
            event => match variables_step(s, event) {
                Ok(next) => variables_run(next, events.drop_first()),
                Err(message) => Err(message),
            },
        }
    }
}

struct VariablesState {
    names: Vec<String>,
    current: Option<DebugVariable>,
    index: i64,
    variables: Vec<DebugVariable>,
}

impl DeepView for VariablesState {
    type V = VariablesStateView;

    closed spec fn deep_view(&self) -> VariablesStateView {
        VariablesStateView {
            names: self.names.deep_view(),
            current: self.current.deep_view(),
            index: self.index as int,
            variables: self.variables.deep_view(),
        }
    }
}

impl VariablesState {
    fn open(&mut self, name: String)
        requires
            old(self).index < i64::MAX,
        ensures
            final(self).deep_view() == variables_opened(old(self).deep_view(), name@),
    {
        if same(name.as_str(), "valueOfContextPropInfo") {
            self.current = Some(DebugVariable::default());
        } else if same(name.as_str(), "valueOfCollectionInfo") {
            let mut variable = DebugVariable::default();
            variable.name = decimal_i64(self.index);
            variable.index = Some(self.index);
            self.current = Some(variable);
            self.index = self.index + 1;
        }
        push(&mut self.names, name);
    }

    fn close(&mut self, name: &str)
        ensures
            final(self).deep_view() == variables_closed(old(self).deep_view(), name@),
    {
        if same(name, "valueOfContextPropInfo") || same(name, "valueOfCollectionInfo") {
            match self.current.take() {
                Some(variable) => {
                    if !variable.name.as_str().is_empty() {
                        push(&mut self.variables, variable);
                    }
                },
                None => {},
            }
        }
        pop_name(&mut self.names);
    }

    fn text(&mut self, raw: &str) -> (r: Result<(), String>)
        ensures
            match variables_text(old(self).deep_view(), xml::xml_unescaped_text(raw@)) {
                Ok(next) => r is Ok && final(self).deep_view() == next,
                Err(message) => r matches Err(e) && e@ == message,
            },
    {
        if self.names.len() == 0 {
            return Ok(());
        }
        match self.current.take() {
            None => Ok(()),
            Some(variable) => {
                let value = match unescape_text(raw) {
                    Some(value) => value,
                    None => {
                        return Err(copy("cannot decode local variables response"));
                    },
                };
                let name = copy(self.names[self.names.len() - 1].as_str());
                self.current = Some(set_variable_field(variable, name.as_str(), value.as_str()));
                Ok(())
            },
        }
    }
}

/// Reads variables from the events of a reply.
pub fn variable_events(events: &Vec<XmlEvent>) -> (r: Result<Vec<DebugVariable>, String>)
    requires
        events@.len() <= i64::MAX,
    ensures
        text::outcome(r) == variables_run(variables_start(), events.deep_view()),
        r matches Ok(variables) ==> variables@.len() <= events@.len(),
{
    let mut state = VariablesState {
        names: Vec::new(),
        current: None,
        index: 0,
        variables: Vec::new(),
    };
    let ghost all = events.deep_view();
    assert(state.names.deep_view() =~= Seq::<Seq<char>>::empty());
    assert(state.variables.deep_view() =~= Seq::<DebugVariableView>::empty());
    assert(all.skip(0) =~= all);
    let mut i: usize = 0;
    while i < events.len()
        invariant
            i <= events@.len() <= i64::MAX,
            state.index <= i,
            state.variables.deep_view().len() <= i,
            all == events.deep_view(),
            variables_run(variables_start(), all) == variables_run(
                state.deep_view(),
                all.skip(i as int),
            ),
        decreases events@.len() - i,
    {
        assert(all.skip(i as int)[0] == events@[i as int].deep_view());
        assert(all.skip(i as int).drop_first() =~= all.skip(i + 1));
        match &events[i] {
            XmlEvent::Start(name, _) => {
                state.open(local_name(name.as_str()));
            },
            XmlEvent::End(name) => {
                let name = local_name(name.as_str());
                state.close(name.as_str());
            },
            XmlEvent::Text(raw) => {
                match state.text(raw.as_str()) {
                    Ok(()) => {},
                    Err(message) => {
                        return Err(message);
                    },
                }
            },
            XmlEvent::Eof => {
                return Ok(state.variables);
            },
            XmlEvent::Invalid(message) => {
                return Err(copy(message.as_str()));
            },
            _ => {},
        }
        i = i + 1;
    }
    assert(all.skip(i as int).len() == 0);
    Ok(state.variables)
}

/// The variables in a reply.
pub open spec fn variables_reply(document: Seq<char>) -> Result<Seq<DebugVariableView>, Seq<char>> {
    match reply_events(document) {
        Ok(events) => variables_run(variables_start(), events),
        Err(message) => Err(message),
    }
}

/// Reads the variables in a reply.
pub fn parse_context_variables(document: &str) -> (r: Result<Vec<DebugVariable>, String>)
    ensures
        text::outcome(r) == variables_reply(document@),
{
    match read_reply(document) {
        Ok(events) => variable_events(&events),
        Err(message) => Err(message),
    }
}

/// The local variables in a reply, or nothing where the reply has no result yet.
pub open spec fn local_variables_reply(document: Seq<char>) -> Result<Option<Seq<DebugVariableView>>, Seq<char>> {
    if text::occurs_in(document, "<result"@) || text::occurs_in(document, ":result"@) {
        match variables_reply(document) {
            Ok(variables) => Ok(Some(variables)),
            Err(message) => Err(message),
        }
    } else {
        Ok(None)
    }
}

/// Reads the reply to a request for local variables.
pub fn parse_local_variables_response(document: &str) -> (r: Result<Option<Vec<DebugVariable>>, String>)
    ensures
        text::outcome(r) == local_variables_reply(document@),
{
    if contains(document, "<result") || contains(document, ":result") {
        match parse_context_variables(document) {
            Ok(variables) => Ok(Some(variables)),
            Err(message) => Err(message),
        }
    } else {
        Ok(None)
    }
}

/// Where the reading of an evaluation reply stands.
#[verifier::ext_equal]
pub struct EvaluationStateView {
    pub names: Seq<Seq<char>>,
    pub saw_result: bool,
    pub error_occurred: bool,
    pub evaluation: DebugEvaluationView,
}

pub open spec fn evaluation_start() -> EvaluationStateView {
    EvaluationStateView {
        names: Seq::empty(),
        saw_result: false,
        error_occurred: false,
        evaluation: debug_types::blank_evaluation(),
    }
}

/// An evaluation after one of its values. The error flag and the error text are kept apart until
/// the reply is read.
pub open spec fn evaluation_valued(s: EvaluationStateView, name: Seq<char>, value: Seq<char>) -> EvaluationStateView {
    let in_value = inside(s.names, "resultValueInfo"@);
    if name == "errorOccurred"@ {
        EvaluationStateView { error_occurred: xml::is_true(value), ..s }
    } else {
        EvaluationStateView {
            evaluation: evaluation_with(s.evaluation, in_value, name, value),
            ..s
        }
    }
}

pub open spec fn evaluation_step(s: EvaluationStateView, event: XmlEventView) -> Result<EvaluationStateView, Seq<char>> {
    match event {
        XmlEventView::Start(name, _) => Ok(
            EvaluationStateView {
                names: s.names.push(xml::local(name)),
                saw_result: s.saw_result || xml::local(name) == "result"@,
                ..s
            },
        ),
        XmlEventView::End(_) => Ok(EvaluationStateView { names: pop(s.names), ..s }),
        XmlEventView::Text(raw) => if s.names.len() == 0 {
            Ok(s)
        } else {
            match xml::xml_unescaped_text(raw) {
                Some(value) => Ok(evaluation_valued(s, s.names.last(), value)),
                None => Err("cannot decode expression evaluation response"@),
            }
        },
        _ => Ok(s),
    }
}

pub open spec fn evaluation_run(s: EvaluationStateView, events: Seq<XmlEventView>) -> Result<EvaluationStateView, Seq<char>>
    decreases events.len(),
{
    if events.len() == 0 || events[0] is Eof {
        Ok(s)
    } else {
        match events[0] {
            XmlEventView::Invalid(message) => Err(message),
            event => match evaluation_step(s, event) {
                Ok(next) => evaluation_run(next, events.drop_first()),
                Err(message) => Err(message),
            },
        }
    }
}

/// The evaluation with its variables, and with an error exactly where the error flag is set.
pub open spec fn finished_evaluation(s: EvaluationStateView, variables: Seq<DebugVariableView>) -> DebugEvaluationView {
    DebugEvaluationView {
        error: if s.error_occurred {
            match s.evaluation.error {
                Some(error) => Some(error),
                None => Some(failure()),
            }
        } else {
            None
        },
        variables,
        ..s.evaluation
    }
}

/// The evaluation that the events of a reply describe, or nothing where they hold no result yet.
pub open spec fn evaluation_in(events: Seq<XmlEventView>) -> Result<Option<DebugEvaluationView>, Seq<char>> {
    match evaluation_run(evaluation_start(), events) {
        Err(message) => Err(message),
        Ok(s) => if !s.saw_result {
            Ok(None)
        } else {
            match variables_run(variables_start(), events) {
                Err(message) => Err(message),
                Ok(variables) => Ok(Some(finished_evaluation(s, variables))),
            }
        },
    }
}

struct EvaluationState {
    names: Vec<String>,
    saw_result: bool,
    error_occurred: bool,
    evaluation: DebugEvaluation,
}

impl DeepView for EvaluationState {
    type V = EvaluationStateView;

    closed spec fn deep_view(&self) -> EvaluationStateView {
        EvaluationStateView {
            names: self.names.deep_view(),
            saw_result: self.saw_result,
            error_occurred: self.error_occurred,
            evaluation: self.evaluation.deep_view(),
        }
    }
}

fn evaluation_state(events: &Vec<XmlEvent>) -> (r: Result<EvaluationState, String>)
    ensures
        text::outcome(r) == evaluation_run(evaluation_start(), events.deep_view()),
{
    let mut state = EvaluationState {
        names: Vec::new(),
        saw_result: false,
        error_occurred: false,
        evaluation: DebugEvaluation::default(),
    };
    let ghost all = events.deep_view();
    assert(state.names.deep_view() =~= Seq::<Seq<char>>::empty());
    assert(all.skip(0) =~= all);
    let mut i: usize = 0;
    while i < events.len()
        invariant
            i <= events@.len(),
            all == events.deep_view(),
            evaluation_run(evaluation_start(), all) == evaluation_run(
                state.deep_view(),
                all.skip(i as int),
            ),
        decreases events@.len() - i,
    {
        assert(all.skip(i as int)[0] == events@[i as int].deep_view());
        assert(all.skip(i as int).drop_first() =~= all.skip(i + 1));
        match &events[i] {
            XmlEvent::Start(name, _) => {
                let name = local_name(name.as_str());
                if same(name.as_str(), "result") {
                    state.saw_result = true;
                }
                push(&mut state.names, name);
            },
            XmlEvent::End(_) => {
                pop_name(&mut state.names);
            },
            XmlEvent::Text(raw) => {
                if state.names.len() > 0 {
                    let value = match unescape_text(raw.as_str()) {
                        Some(value) => value,
                        None => {
                            return Err(copy("cannot decode expression evaluation response"));
                        },
                    };
                    let name = copy(state.names[state.names.len() - 1].as_str());
                    let in_value = is_inside(&state.names, "resultValueInfo");
                    if same(name.as_str(), "errorOccurred") {
                        state.error_occurred = xml_bool(value.as_str());
                    } else {
                        state.evaluation = set_evaluation_field(
                            state.evaluation,
                            in_value,
                            name.as_str(),
                            value.as_str(),
                        );
                    }
                }
            },
            XmlEvent::Eof => {
                return Ok(state);
            },
            XmlEvent::Invalid(message) => {
                return Err(copy(message.as_str()));
            },
            _ => {},
        }
        i = i + 1;
    }
    assert(all.skip(i as int).len() == 0);
    Ok(state)
}

/// Reads an evaluation from the events of a reply.
pub fn evaluation_events(events: &Vec<XmlEvent>) -> (r: Result<Option<DebugEvaluation>, String>)
    requires
        events@.len() <= i64::MAX,
    ensures
        text::outcome(r) == evaluation_in(events.deep_view()),
{
    let state = match evaluation_state(events) {
        Ok(state) => state,
        Err(message) => {
            return Err(message);
        },
    };
    if !state.saw_result {
        return Ok(None);
    }
    let variables = match variable_events(events) {
        Ok(variables) => variables,
        Err(message) => {
            return Err(message);
        },
    };
    let mut evaluation = state.evaluation;
    evaluation.error = if state.error_occurred {
        match evaluation.error {
            Some(error) => Some(error),
            None => Some(copy("expression evaluation failed")),
        }
    } else {
        None
    };
    evaluation.variables = variables;
    Ok(Some(evaluation))
}

/// The evaluation in a reply, or nothing where the reply has no result yet.
pub open spec fn evaluation_reply(document: Seq<char>) -> Result<Option<DebugEvaluationView>, Seq<char>> {
    match reply_events(document) {
        Ok(events) => evaluation_in(events),
        Err(message) => Err(message),
    }
}

/// Reads the reply to an evaluation.
pub fn parse_evaluation_response(document: &str) -> (r: Result<Option<DebugEvaluation>, String>)
    ensures
        text::outcome(r) == evaluation_reply(document@),
{
    match read_reply(document) {
        Ok(events) => evaluation_events(&events),
        Err(message) => Err(message),
    }
}

/// Where the reading of a list of targets stands.
#[verifier::ext_equal]
pub struct TargetsStateView {
    pub names: Seq<Seq<char>>,
    pub current: Option<DebugTargetView>,
    pub targets: Seq<DebugTargetView>,
}

pub open spec fn targets_start() -> TargetsStateView {
    TargetsStateView { names: Seq::empty(), current: None, targets: Seq::empty() }
}

/// The reply is a flat `<response><id>…` collection; the inner `id` of each item is the target's
/// own identifier.
pub open spec fn targets_opened(s: TargetsStateView, name: Seq<char>) -> TargetsStateView {
    TargetsStateView {
        names: s.names.push(name),
        current: if name == "id"@ && s.names.len() == 1 && s.names[0] == "response"@ {
            Some(debug_types::blank_target())
        } else {
            s.current
        },
        targets: s.targets,
    }
}

pub open spec fn targets_closed(s: TargetsStateView, name: Seq<char>) -> TargetsStateView {
    let closes = name == "id"@ && s.names.len() == 2 && s.names[0] == "response"@;
    TargetsStateView {
        names: pop(s.names),
        current: if closes {
            None
        } else {
            s.current
        },
        targets: match s.current {
            Some(target) if closes && target.id.len() > 0 => s.targets.push(target),
            _ => s.targets,
        },
    }
}

pub open spec fn target_with(target: DebugTargetView, names: Seq<Seq<char>>, value: Seq<char>) -> DebugTargetView {
    if names.len() == 0 {
        target
    } else if names.last() == "id"@ && names.len() == 3 {
        DebugTargetView { id: value, ..target }
    } else if names.last() == "seanceNo"@ {
        DebugTargetView { seance_no: value, ..target }
    } else if names.last() == "userName"@ {
        DebugTargetView { user_name: value, ..target }
    } else if names.last() == "targetType"@ {
        DebugTargetView { target_type: value, ..target }
    } else {
        target
    }
}

pub open spec fn targets_step(s: TargetsStateView, event: XmlEventView) -> Result<TargetsStateView, Seq<char>> {
    match event {
        XmlEventView::Start(name, _) => Ok(targets_opened(s, xml::local(name))),
        XmlEventView::End(name) => Ok(targets_closed(s, xml::local(name))),
        XmlEventView::Text(raw) => match s.current {
            None => Ok(s),
            Some(target) => match xml::xml_unescaped_text(raw) {
                None => Err("cannot decode debug targets response"@),
                Some(value) => Ok(
                    TargetsStateView { current: Some(target_with(target, s.names, value)), ..s },
                ),
            },
        },
        _ => Ok(s),
    }
}

/// The targets in what remains of a reply, read on from `s`.
pub open spec fn targets_run(s: TargetsStateView, events: Seq<XmlEventView>) -> Result<Seq<DebugTargetView>, Seq<char>>
    decreases events.len(),
{
    if events.len() == 0 || events[0] is Eof {
        Ok(s.targets)
    } else {
        match events[0] {
            XmlEventView::Invalid(message) => Err(message),
            event => match targets_step(s, event) {
                Ok(next) => targets_run(next, events.drop_first()),
                Err(message) => Err(message),
            },
        }
    }
}

struct TargetsState {
    names: Vec<String>,
    current: Option<DebugTarget>,
    targets: Vec<DebugTarget>,
}

impl DeepView for TargetsState {
    type V = TargetsStateView;

    closed spec fn deep_view(&self) -> TargetsStateView {
        TargetsStateView {
            names: self.names.deep_view(),
            current: self.current.deep_view(),
            targets: self.targets.deep_view(),
        }
    }
}

fn set_target_field(target: DebugTarget, names: &Vec<String>, value: &str) -> (r: DebugTarget)
    ensures
        r.deep_view() == target_with(target.deep_view(), names.deep_view(), value@),
{
    let mut target = target;
    let depth: usize = names.len();
    if depth > 0 {
        let name = names[depth - 1].as_str();
        if same(name, "id") && depth == 3 {
            target.id = copy(value);
        } else if same(name, "seanceNo") {
            target.seance_no = copy(value);
        } else if same(name, "userName") {
            target.user_name = copy(value);
        } else if same(name, "targetType") {
            target.target_type = copy(value);
        }
    }
    target
}

impl TargetsState {
    fn open(&mut self, name: String)
        ensures
            final(self).deep_view() == targets_opened(old(self).deep_view(), name@),
    {
        if same(name.as_str(), "id") && self.names.len() == 1 && same(self.names[0].as_str(), "response") {
            self.current = Some(DebugTarget::default());
        }
        push(&mut self.names, name);
    }

    fn close(&mut self, name: &str)
        ensures
            final(self).deep_view() == targets_closed(old(self).deep_view(), name@),
    {
        if same(name, "id") && self.names.len() == 2 && same(self.names[0].as_str(), "response") {
            match self.current.take() {
                Some(target) => {
                    if !target.id.as_str().is_empty() {
                        push(&mut self.targets, target);
                    }
                },
                None => {},
            }
        }
        pop_name(&mut self.names);
    }
}

/// Reads targets from the events of a reply.
pub fn target_events(events: &Vec<XmlEvent>) -> (r: Result<Vec<DebugTarget>, String>)
    ensures
        text::outcome(r) == targets_run(targets_start(), events.deep_view()),
{
    let mut state = TargetsState { names: Vec::new(), current: None, targets: Vec::new() };
    let ghost all = events.deep_view();
    assert(state.names.deep_view() =~= Seq::<Seq<char>>::empty());
    assert(state.targets.deep_view() =~= Seq::<DebugTargetView>::empty());
    assert(all.skip(0) =~= all);
    let mut i: usize = 0;
    while i < events.len()
        invariant
            i <= events@.len(),
            all == events.deep_view(),
            targets_run(targets_start(), all) == targets_run(state.deep_view(), all.skip(i as int)),
        decreases events@.len() - i,
    {
        assert(all.skip(i as int)[0] == events@[i as int].deep_view());
        assert(all.skip(i as int).drop_first() =~= all.skip(i + 1));
        match &events[i] {
            XmlEvent::Start(name, _) => {
                state.open(local_name(name.as_str()));
            },
            XmlEvent::End(name) => {
                let name = local_name(name.as_str());
                state.close(name.as_str());
            },
            XmlEvent::Text(raw) => {
                match state.current.take() {
                    None => {},
                    Some(target) => {
                        let value = match unescape_text(raw.as_str()) {
                            Some(value) => value,
                            None => {
                                return Err(copy("cannot decode debug targets response"));
                            },
                        };
                        state.current = Some(set_target_field(target, &state.names, value.as_str()));
                    },
                }
            },
            XmlEvent::Eof => {
                return Ok(state.targets);
            },
            XmlEvent::Invalid(message) => {
                return Err(copy(message.as_str()));
            },
            _ => {},
        }
        i = i + 1;
    }
    assert(all.skip(i as int).len() == 0);
    Ok(state.targets)
}

/// The targets in a reply.
pub open spec fn targets_reply(document: Seq<char>) -> Result<Seq<DebugTargetView>, Seq<char>> {
    targets_run(targets_start(), xml::xml_events(document, true))
}

/// Reads the list of targets in a reply.
pub fn parse_debug_targets(document: &str) -> (r: Result<Vec<DebugTarget>, String>)
    ensures
        text::outcome(r) == targets_reply(document@),
{
    let events = read_events(document, true);
    target_events(&events)
}

/// The raw content of the first element with a local name, where `events` are still unread.
pub open spec fn element_in(document: Seq<char>, events: Seq<XmlEventView>, expected: Seq<char>) -> Result<Seq<char>, Seq<char>>
    decreases events.len(),
{
    if events.len() == 0 || events[0] is Eof {
        Err("1C debug server response has no `"@ + expected + "` element"@)
    } else {
        match events[0] {
            XmlEventView::Start(name, _) if xml::local(name) == expected => match xml::xml_inner_text(
                document,
                true,
                (events.len() - 1) as nat,
                name,
            ) {
                Ok(content) => Ok(content),
                Err(_) => Err("cannot read XML response value"@),
            },
            XmlEventView::Invalid(message) => Err(message),
            _ => element_in(document, events.drop_first(), expected),
        }
    }
}

/// The raw content of the first element of a reply that has a local name.
pub open spec fn element_reply(document: Seq<char>, expected: Seq<char>) -> Result<Seq<char>, Seq<char>> {
    element_in(document, xml::xml_events(document, true), expected)
}

/// Reads the raw content of the first element that has a local name.
pub fn response_element(document: &str, expected_element: &str) -> (r: Result<String, String>)
    ensures
        text::outcome(r) == element_reply(document@, expected_element@),
{
    let mut reader = open_document(document, true);
    let ghost all = xml::xml_unread(reader);
    let ghost mut n: int = 0;
    assert(all.skip(0) =~= all);
    loop
        invariant
            xml::is_stream(all),
            0 <= n < all.len(),
            xml::xml_unread(reader) == all.skip(n),
            xml::xml_source(reader) == (document@, true),
            element_reply(document@, expected_element@) == element_in(
                document@,
                all.skip(n),
                expected_element@,
            ),
        decreases all.len() - n,
    {
        let event = read_event(&mut reader);
        assert(event.deep_view() == all[n]);
        assert(all.skip(n).drop_first() =~= all.skip(n + 1));
        assert(!xml::is_last(all[n]) ==> n + 1 < all.len());
        match event {
            XmlEvent::Start(name, _) => {
                let local = local_name(name.as_str());
                if same(local.as_str(), expected_element) {
                    return match read_inner_text(&mut reader, name.as_str()) {
                        Ok(content) => Ok(content),
                        Err(_) => Err(copy("cannot read XML response value")),
                    };
                }
            },
            XmlEvent::Eof => {
                let mut message = copy("1C debug server response has no `");
                message.append(expected_element);
                message.append("` element");
                return Err(message);
            },
            XmlEvent::Invalid(message) => {
                return Err(message);
            },
            _ => {},
        }
        proof {
            n = n + 1;
        }
    }
}

/// How the debug server answers the registration of a Debug UI.
#[derive(Debug, Clone, Copy, PartialEq, Eq, Structural)]
pub enum AttachDebugUiResult {
    Registered,
    CredentialsRequired,
    FullCredentialsRequired,
    IbInDebug,
    NotRegistered,
    Unknown,
}

impl DeepView for AttachDebugUiResult {
    type V = AttachDebugUiResult;

    open spec fn deep_view(&self) -> AttachDebugUiResult {
        *self
    }
}

/// The spelling of an answer.
pub open spec fn attach_result_name(result: AttachDebugUiResult) -> Seq<char> {
    match result {
        AttachDebugUiResult::Registered => "registered"@,
        AttachDebugUiResult::CredentialsRequired => "credentialsRequired"@,
        AttachDebugUiResult::FullCredentialsRequired => "fullCredentialsRequired"@,
        AttachDebugUiResult::IbInDebug => "ibInDebug"@,
        AttachDebugUiResult::NotRegistered => "notRegistered"@,
        AttachDebugUiResult::Unknown => "unknown"@,
    }
}

/// The answer that has a spelling.
pub open spec fn attach_result(name: Seq<char>) -> Option<AttachDebugUiResult> {
    if name == "registered"@ {
        Some(AttachDebugUiResult::Registered)
    } else if name == "credentialsRequired"@ {
        Some(AttachDebugUiResult::CredentialsRequired)
    } else if name == "fullCredentialsRequired"@ {
        Some(AttachDebugUiResult::FullCredentialsRequired)
    } else if name == "ibInDebug"@ {
        Some(AttachDebugUiResult::IbInDebug)
    } else if name == "notRegistered"@ {
        Some(AttachDebugUiResult::NotRegistered)
    } else if name == "unknown"@ {
        Some(AttachDebugUiResult::Unknown)
    } else {
        None
    }
}

pub open spec fn unknown_attach_result(name: Seq<char>) -> Seq<char> {
    "unknown attachDebugUI result `"@ + name + "`"@
}

/// Each answer is recognized by its spelling.
pub proof fn attach_result_names_are_recognized(result: AttachDebugUiResult)
    ensures
        attach_result(attach_result_name(result)) == Some(result),
{
    reveal_strlit("registered");
    reveal_strlit("credentialsRequired");
    reveal_strlit("fullCredentialsRequired");
    reveal_strlit("ibInDebug");
    reveal_strlit("notRegistered");
    reveal_strlit("unknown");
    assert("registered"@.len() == 10);
    assert("credentialsRequired"@.len() == 19);
    assert("fullCredentialsRequired"@.len() == 23);
    assert("ibInDebug"@.len() == 9);
    assert("notRegistered"@.len() == 13);
    assert("unknown"@.len() == 7);
}

impl AttachDebugUiResult {
    /// Recognizes an answer by its spelling, with white space around it.
    pub fn parse(value: &str) -> (r: Result<AttachDebugUiResult, String>)
        ensures
            match r {
                Ok(result) => attach_result(text::trim(value@)) == Some(result),
                Err(message) => attach_result(text::trim(value@)) is None && message@
                    == unknown_attach_result(text::trim(value@)),
            },
    {
        let value = trimmed(value);
        let name = value.as_str();
        if same(name, "registered") {
            Ok(AttachDebugUiResult::Registered)
        } else if same(name, "credentialsRequired") {
            Ok(AttachDebugUiResult::CredentialsRequired)
        } else if same(name, "fullCredentialsRequired") {
            Ok(AttachDebugUiResult::FullCredentialsRequired)
        } else if same(name, "ibInDebug") {
            Ok(AttachDebugUiResult::IbInDebug)
        } else if same(name, "notRegistered") {
            Ok(AttachDebugUiResult::NotRegistered)
        } else if same(name, "unknown") {
            Ok(AttachDebugUiResult::Unknown)
        } else {
            let mut message = copy("unknown attachDebugUI result `");
            message.append(name);
            message.append("`");
            Err(message)
        }
    }

    /// The spelling of the answer.
    pub fn name(&self) -> (r: &'static str)
        ensures
            r@ == attach_result_name(*self),
    {
        match self {
            AttachDebugUiResult::Registered => "registered",
            AttachDebugUiResult::CredentialsRequired => "credentialsRequired",
            AttachDebugUiResult::FullCredentialsRequired => "fullCredentialsRequired",
            AttachDebugUiResult::IbInDebug => "ibInDebug",
            AttachDebugUiResult::NotRegistered => "notRegistered",
            AttachDebugUiResult::Unknown => "unknown",
        }
    }
}

/// Every event has a command.
pub open spec fn events_are_named(events: Seq<DebugUiEventView>) -> bool {
    forall|i: int| 0 <= i < events.len() ==> (#[trigger] events[i]).command_id.len() > 0
}

proof fn lemma_ping_run_named(s: PingStateView, events: Seq<XmlEventView>)
    requires
        events_are_named(s.events),
        ping_run(s, events) is Ok,
    ensures
        events_are_named(ping_run(s, events)->Ok_0),
    decreases events.len(),
{
    if events.len() > 0 && !(events[0] is Eof) {
        let next = ping_step(s, events[0])->Ok_0;
        assert(events_are_named(next.events));
        lemma_ping_run_named(next, events.drop_first());
    }
}

/// Every event that a reply brings has a command.
pub proof fn events_of_a_reply_are_named(document: Seq<char>)
    requires
        ping_reply(document) is Ok,
    ensures
        events_are_named(ping_reply(document)->Ok_0),
{
    lemma_ping_run_named(ping_start(), reply_events(document)->Ok_0);
}

/// Every variable has a name.
pub open spec fn variables_are_named(variables: Seq<DebugVariableView>) -> bool {
    forall|i: int| 0 <= i < variables.len() ==> (#[trigger] variables[i]).name.len() > 0
}

proof fn lemma_variables_run_named(s: VariablesStateView, events: Seq<XmlEventView>)
    requires
        variables_are_named(s.variables),
        variables_run(s, events) is Ok,
    ensures
        variables_are_named(variables_run(s, events)->Ok_0),
    decreases events.len(),
{
    if events.len() > 0 && !(events[0] is Eof) {
        let next = variables_step(s, events[0])->Ok_0;
        assert(variables_are_named(next.variables));
        lemma_variables_run_named(next, events.drop_first());
    }
}

/// Every variable that a reply brings has a name.
pub proof fn variables_of_a_reply_are_named(document: Seq<char>)
    requires
        variables_reply(document) is Ok,
    ensures
        variables_are_named(variables_reply(document)->Ok_0),
{
    lemma_variables_run_named(variables_start(), reply_events(document)->Ok_0);
}

/// Every target has an identifier.
pub open spec fn targets_are_identified(targets: Seq<DebugTargetView>) -> bool {
    forall|i: int| 0 <= i < targets.len() ==> (#[trigger] targets[i]).id.len() > 0
}

proof fn lemma_targets_run_identified(s: TargetsStateView, events: Seq<XmlEventView>)
    requires
        targets_are_identified(s.targets),
        targets_run(s, events) is Ok,
    ensures
        targets_are_identified(targets_run(s, events)->Ok_0),
    decreases events.len(),
{
    if events.len() > 0 && !(events[0] is Eof) {
        let next = targets_step(s, events[0])->Ok_0;
        assert(targets_are_identified(next.targets));
        lemma_targets_run_identified(next, events.drop_first());
    }
}

/// Every target that a reply lists has an identifier.
pub proof fn targets_of_a_reply_are_identified(document: Seq<char>)
    requires
        targets_reply(document) is Ok,
    ensures
        targets_are_identified(targets_reply(document)->Ok_0),
{
    lemma_targets_run_identified(targets_start(), xml::xml_events(document, true));
}

} // verus!
