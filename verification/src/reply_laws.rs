//! What is read from the replies of the debug server.

use crate::debug_replies;
use crate::debug_replies::{
    AttachDebugUiResult, EvaluationStateView, PingStateView, TargetsStateView, VariablesStateView,
};
use crate::debug_server;
use crate::debug_server::HttpReplyView;
use crate::debug_types::{
    DebugEvaluationView, DebugStackFrameView, DebugTargetView, DebugUiEventView, DebugVariableView,
};
use crate::number;
use crate::text;
use crate::xml;
use crate::xml::XmlEventView;
use vstd::prelude::*;

verus! {

/// The names of elements are told apart.
proof fn lemma_elements()
    ensures
        "extensionName"@.len() == 13 && "extensionName"@[1] == 'x' && "extensionName"@[2] == 't',
        "objectID"@.len() == 8 && "objectID"@[0] == 'o',
        "propertyID"@.len() == 10 && "propertyID"@[0] == 'p',
        "lineNo"@.len() == 6 && "lineNo"@[0] == 'l',
        "presentation"@.len() == 12 && "presentation"@[0] == 'p',
        "propName"@.len() == 8 && "propName"@[0] == 'p',
        "typeName"@.len() == 8 && "typeName"@[0] == 't' && "typeName"@[1] == 'y',
        "pres"@.len() == 4,
        "errorStr"@.len() == 8 && "errorStr"@[0] == 'e',
        "isExpandable"@.len() == 12 && "isExpandable"@[0] == 'i',
        "isIIndexedCollectionRO"@.len() == 22 && "isIIndexedCollectionRO"@[0] == 'i',
        "expressionResultID"@.len() == 18 && "expressionResultID"@[0] == 'e',
        "errorOccurred"@.len() == 13 && "errorOccurred"@[1] == 'r',
        "exceptionStr"@.len() == 12 && "exceptionStr"@[0] == 'e',
        "cmdID"@.len() == 5,
        "id"@.len() == 2,
        "stopByBP"@.len() == 8 && "stopByBP"@[0] == 's' && "stopByBP"@[1] == 't',
        "suspendedByOther"@.len() == 16,
        "sendMessageOnly"@.len() == 15 && "sendMessageOnly"@[0] == 's',
        "sendHitCounterOnly"@.len() == 18 && "sendHitCounterOnly"@[0] == 's',
        "message"@.len() == 7,
        "result"@.len() == 6 && "result"@[0] == 'r',
        "callStack"@.len() == 9,
        "valueOfContextPropInfo"@.len() == 22 && "valueOfContextPropInfo"@[0] == 'v',
        "valueOfCollectionInfo"@.len() == 21,
        "targetID"@.len() == 8 && "targetID"@[0] == 't' && "targetID"@[1] == 'a',
        "resultValueInfo"@.len() == 15 && "resultValueInfo"@[0] == 'r',
        "response"@.len() == 8 && "response"@[0] == 'r',
        "seanceNo"@.len() == 8 && "seanceNo"@[0] == 's' && "seanceNo"@[1] == 'e',
        "userName"@.len() == 8 && "userName"@[0] == 'u',
        "targetType"@.len() == 10 && "targetType"@[0] == 't',
        "exprEvaluated"@.len() == 13 && "exprEvaluated"@[1] == 'x' && "exprEvaluated"@[2] == 'p',
{
    reveal_strlit("extensionName");
    reveal_strlit("objectID");
    reveal_strlit("propertyID");
    reveal_strlit("lineNo");
    reveal_strlit("presentation");
    reveal_strlit("propName");
    reveal_strlit("typeName");
    reveal_strlit("pres");
    reveal_strlit("errorStr");
    reveal_strlit("isExpandable");
    reveal_strlit("isIIndexedCollectionRO");
    reveal_strlit("expressionResultID");
    reveal_strlit("errorOccurred");
    reveal_strlit("exceptionStr");
    reveal_strlit("cmdID");
    reveal_strlit("id");
    reveal_strlit("stopByBP");
    reveal_strlit("suspendedByOther");
    reveal_strlit("sendMessageOnly");
    reveal_strlit("sendHitCounterOnly");
    reveal_strlit("message");
    reveal_strlit("result");
    reveal_strlit("callStack");
    reveal_strlit("valueOfContextPropInfo");
    reveal_strlit("valueOfCollectionInfo");
    reveal_strlit("targetID");
    reveal_strlit("resultValueInfo");
    reveal_strlit("response");
    reveal_strlit("seanceNo");
    reveal_strlit("userName");
    reveal_strlit("targetType");
    reveal_strlit("exprEvaluated");
}

/// An element with a text in it.
pub open spec fn element(name: Seq<char>, tag: Seq<char>, raw: Seq<char>) -> Seq<XmlEventView> {
    seq![XmlEventView::Start(name, tag), XmlEventView::Text(raw), XmlEventView::End(name)]
}

/// A name stands for one among values with a meaning of their own.
pub open spec fn is_frame_name(name: Seq<char>) -> bool {
    name == "extensionName"@ || name == "objectID"@ || name == "propertyID"@ || name == "lineNo"@
        || name == "presentation"@
}

/// The number that a text is, or zero where it is none.
pub open spec fn number_of(value: Seq<char>) -> i64 {
    match number::parsed(value, i64::MIN as int, i64::MAX as int) {
        Some(n) => n as i64,
        None => 0,
    }
}

/// A value that stands for a text in base64; one that does not stands for itself.
pub open spec fn shown_text(value: Seq<char>) -> Seq<char> {
    match debug_replies::base64_bytes(value) {
        Some(bytes) => match text::utf8_decoded(bytes) {
            Some(decoded) => decoded,
            None => value,
        },
        None => value,
    }
}

/// `true` and `1` are true, anything else is not.
pub proof fn truth_is_spelled_in_two_ways(value: Seq<char>)
    ensures
        xml::is_true("true"@),
        xml::is_true("1"@),
        value != "true"@ && value != "1"@ ==> !xml::is_true(value),
        !xml::is_true("false"@),
        !xml::is_true("0"@),
{
    reveal_strlit("true");
    reveal_strlit("1");
    reveal_strlit("false");
    reveal_strlit("0");
    assert("true"@.len() == 4 && "1"@.len() == 1 && "1"@[0] == '1');
    assert("false"@.len() == 5 && "0"@.len() == 1 && "0"@[0] == '0');
}

/// Each element of a frame gives the frame what it is named for, and leaves the rest as it was.
pub proof fn frames_have_what_their_elements_tell(frame: DebugStackFrameView, name: Seq<char>, value: Seq<char>)
    ensures
        debug_replies::frame_with(frame, "extensionName"@, value) == (DebugStackFrameView {
            extension_name: value,
            ..frame
        }),
        debug_replies::frame_with(frame, "objectID"@, value) == (DebugStackFrameView {
            object_id: value,
            ..frame
        }),
        debug_replies::frame_with(frame, "propertyID"@, value) == (DebugStackFrameView {
            property_id: value,
            ..frame
        }),
        debug_replies::frame_with(frame, "lineNo"@, value) == (DebugStackFrameView {
            line: number_of(value),
            ..frame
        }),
        debug_replies::frame_with(frame, "presentation"@, value) == (DebugStackFrameView {
            presentation: shown_text(value),
            ..frame
        }),
        !is_frame_name(name) ==> debug_replies::frame_with(frame, name, value) == frame,
{
    lemma_elements();
}

/// Each element of a variable gives the variable what it is named for, and leaves the rest as it
/// was; an error takes the place of the value.
pub proof fn variables_have_what_their_elements_tell(variable: DebugVariableView, name: Seq<char>, value: Seq<char>)
    ensures
        debug_replies::variable_with(variable, "propName"@, value) == (DebugVariableView {
            name: value,
            ..variable
        }),
        debug_replies::variable_with(variable, "typeName"@, value) == (DebugVariableView {
            value_type: value,
            ..variable
        }),
        debug_replies::variable_with(variable, "pres"@, value) == (DebugVariableView {
            value: shown_text(value),
            ..variable
        }),
        debug_replies::variable_with(variable, "errorStr"@, value) == (DebugVariableView {
            value: shown_text(value),
            ..variable
        }),
        debug_replies::variable_with(variable, "isExpandable"@, value) == (DebugVariableView {
            is_expandable: xml::is_true(value),
            ..variable
        }),
        debug_replies::variable_with(variable, "isIIndexedCollectionRO"@, value) == (
        DebugVariableView { is_indexed_collection: xml::is_true(value), ..variable }),
        name != "propName"@ && name != "typeName"@ && name != "pres"@ && name != "errorStr"@ && name
            != "isExpandable"@ && name != "isIIndexedCollectionRO"@
            ==> debug_replies::variable_with(variable, name, value) == variable,
{
    lemma_elements();
}

/// Each element of an evaluation gives the evaluation what it is named for; those that a value and
/// its children share count only within the value itself.
pub proof fn evaluations_have_what_their_elements_tell(evaluation: DebugEvaluationView, in_value: bool, name: Seq<char>, value: Seq<char>)
    ensures
        debug_replies::evaluation_with(evaluation, in_value, "expressionResultID"@, value) == (
        DebugEvaluationView { result_id: value, ..evaluation }),
        debug_replies::evaluation_with(evaluation, in_value, "exceptionStr"@, value) == (
        DebugEvaluationView { error: Some(shown_text(value)), ..evaluation }),
        debug_replies::evaluation_with(evaluation, true, "typeName"@, value) == (
        DebugEvaluationView { value_type: value, ..evaluation }),
        debug_replies::evaluation_with(evaluation, true, "pres"@, value) == (DebugEvaluationView {
            value: shown_text(value),
            ..evaluation
        }),
        debug_replies::evaluation_with(evaluation, true, "isExpandable"@, value) == (
        DebugEvaluationView { is_expandable: xml::is_true(value), ..evaluation }),
        debug_replies::evaluation_with(evaluation, true, "isIIndexedCollectionRO"@, value) == (
        DebugEvaluationView { is_indexed_collection: xml::is_true(value), ..evaluation }),
        debug_replies::evaluation_with(evaluation, in_value, "errorOccurred"@, value) == (
        DebugEvaluationView {
            error: if evaluation.error is None && xml::is_true(value) {
                Some("expression evaluation failed"@)
            } else {
                evaluation.error
            },
            ..evaluation
        }),
        (name == "typeName"@ || name == "pres"@ || name == "isExpandable"@ || name
            == "isIIndexedCollectionRO"@) ==> debug_replies::evaluation_with(
            evaluation,
            false,
            name,
            value,
        ) == evaluation,
{
    lemma_elements();
}

proof fn lemma_ping_element(s: PingStateView, name: Seq<char>, tag: Seq<char>, raw: Seq<char>, value: Seq<char>, rest: Seq<XmlEventView>)
    requires
        s.event is Some,
        xml::xml_unescaped_text(raw) == Some(value),
        xml::local(name) != "result"@,
        xml::local(name) != "callStack"@,
        xml::local(name) != "valueOfContextPropInfo"@,
        xml::local(name) != "valueOfCollectionInfo"@,
    ensures
        debug_replies::ping_run(s, element(name, tag, raw) + rest) == debug_replies::ping_run(
            PingStateView {
                names: s.names,
                ..debug_replies::ping_valued(
                    PingStateView { names: s.names.push(xml::local(name)), ..s },
                    s.event->0,
                    xml::local(name),
                    value,
                )
            },
            rest,
        ),
{
    let all = element(name, tag, raw) + rest;
    let second = seq![XmlEventView::Text(raw), XmlEventView::End(name)] + rest;
    let third = seq![XmlEventView::End(name)] + rest;
    assert(all.drop_first() =~= second);
    assert(second.drop_first() =~= third);
    assert(third.drop_first() =~= rest);
    let opened = PingStateView { names: s.names.push(xml::local(name)), ..s };
    assert(debug_replies::ping_opened(s, xml::local(name)) =~= opened);
    let valued = debug_replies::ping_valued(opened, s.event->0, xml::local(name), value);
    assert(opened.names.last() == xml::local(name));
    let closed = debug_replies::ping_closed(valued, xml::local(name));
    assert(valued.names.drop_last() =~= s.names);
    assert(closed =~= PingStateView { names: s.names, ..valued });
    assert(debug_replies::ping_run(s, all) == debug_replies::ping_run(opened, second));
    assert(debug_replies::ping_run(opened, second) == debug_replies::ping_run(valued, third));
    assert(debug_replies::ping_run(valued, third) == debug_replies::ping_run(closed, rest));
}

proof fn lemma_inside(names: Seq<Seq<char>>, name: Seq<char>, other: Seq<char>)
    requires
        name != other,
    ensures
        debug_replies::inside(names.push(name), other) == debug_replies::inside(names, other),
{
    let more = names.push(name);
    if debug_replies::inside(names, other) {
        let i = choose|i: int| 0 <= i < names.len() && #[trigger] names[i] == other;
        assert(more[i] == other);
    }
    if debug_replies::inside(more, other) {
        let i = choose|i: int| 0 <= i < more.len() && #[trigger] more[i] == other;
        assert(names[i] == other);
    }
}

/// An element of an event gives the event what it is named for: its command, its target, why its
/// thread stopped, whether it stopped at all, and its message. The identifier counts within the
/// element that names the target.
pub proof fn events_have_what_their_elements_tell(s: PingStateView, name: Seq<char>, tag: Seq<char>, raw: Seq<char>, value: Seq<char>, rest: Seq<XmlEventView>)
    requires
        s.event is Some,
        s.frame is None,
        s.variable is None,
        s.event->0.evaluation is None,
        xml::xml_unescaped_text(raw) == Some(value),
    ensures
        ({
            let event = s.event->0;
            let local = xml::local(name);
            let read = debug_replies::ping_run(s, element(name, tag, raw) + rest);
            &&& local == "cmdID"@ && value != "exprEvaluated"@ ==> read == debug_replies::ping_run(
                PingStateView {
                    event: Some(DebugUiEventView { command_id: value, ..event }),
                    ..s
                },
                rest,
            )
            &&& local == "cmdID"@ && value == "exprEvaluated"@ ==> read == debug_replies::ping_run(
                PingStateView {
                    event: Some(
                        DebugUiEventView {
                            command_id: value,
                            evaluation: Some(
                                DebugEvaluationView {
                                    result_id: Seq::empty(),
                                    value: Seq::empty(),
                                    value_type: Seq::empty(),
                                    error: None,
                                    is_expandable: false,
                                    is_indexed_collection: false,
                                    variables: Seq::empty(),
                                },
                            ),
                            ..event
                        },
                    ),
                    ..s
                },
                rest,
            )
            &&& local == "id"@ && s.names.contains("targetID"@) ==> read == debug_replies::ping_run(
                PingStateView {
                    event: Some(DebugUiEventView { target_id: Some(value), ..event }),
                    ..s
                },
                rest,
            )
            &&& local == "id"@ && !s.names.contains("targetID"@) ==> read == debug_replies::ping_run(
                s,
                rest,
            )
            &&& local == "stopByBP"@ ==> read == debug_replies::ping_run(
                PingStateView {
                    event: Some(
                        DebugUiEventView { stopped_by_breakpoint: xml::is_true(value), ..event },
                    ),
                    ..s
                },
                rest,
            )
            &&& local == "suspendedByOther"@ ==> read == debug_replies::ping_run(
                PingStateView {
                    event: Some(
                        DebugUiEventView { suspended_by_other: xml::is_true(value), ..event },
                    ),
                    ..s
                },
                rest,
            )
            &&& local == "sendMessageOnly"@ ==> read == debug_replies::ping_run(
                PingStateView {
                    event: Some(
                        DebugUiEventView { send_message_only: xml::is_true(value), ..event },
                    ),
                    ..s
                },
                rest,
            )
            &&& local == "sendHitCounterOnly"@ ==> read == debug_replies::ping_run(
                PingStateView {
                    event: Some(
                        DebugUiEventView { send_hit_counter_only: xml::is_true(value), ..event },
                    ),
                    ..s
                },
                rest,
            )
            &&& local == "message"@ ==> read == debug_replies::ping_run(
                PingStateView {
                    event: Some(DebugUiEventView { message: Some(value), ..event }),
                    ..s
                },
                rest,
            )
        }),
{
    lemma_elements();
    let local = xml::local(name);
    if local == "cmdID"@ || local == "id"@ || local == "stopByBP"@ || local == "suspendedByOther"@
        || local == "sendMessageOnly"@ || local == "sendHitCounterOnly"@ || local == "message"@ {
        lemma_ping_element(s, name, tag, raw, value, rest);
        lemma_inside(s.names, local, "targetID"@);
        lemma_contains(s.names, "targetID"@);
        let opened = PingStateView { names: s.names.push(local), ..s };
        let valued = debug_replies::ping_valued(opened, s.event->0, local, value);
        assert(debug_replies::inside(opened.names, "targetID"@) == s.names.contains("targetID"@));
        if local == "cmdID"@ && value == "exprEvaluated"@ {
            let blank = valued.event->0.evaluation->0;
            assert(blank.variables =~= Seq::empty());
        }
    }
}

proof fn lemma_contains(names: Seq<Seq<char>>, name: Seq<char>)
    ensures
        debug_replies::inside(names, name) == names.contains(name),
{
}

/// An element within a frame gives the frame what it is named for.
pub proof fn frames_are_read(s: PingStateView, name: Seq<char>, tag: Seq<char>, raw: Seq<char>, value: Seq<char>, rest: Seq<XmlEventView>)
    requires
        s.event is Some,
        s.frame is Some,
        xml::xml_unescaped_text(raw) == Some(value),
        is_frame_name(xml::local(name)),
    ensures
        ({
            let frame = s.frame->0;
            let local = xml::local(name);
            debug_replies::ping_run(s, element(name, tag, raw) + rest) == debug_replies::ping_run(
                PingStateView {
                    frame: Some(
                        if local == "extensionName"@ {
                            DebugStackFrameView { extension_name: value, ..frame }
                        } else if local == "objectID"@ {
                            DebugStackFrameView { object_id: value, ..frame }
                        } else if local == "propertyID"@ {
                            DebugStackFrameView { property_id: value, ..frame }
                        } else if local == "lineNo"@ {
                            DebugStackFrameView { line: number_of(value), ..frame }
                        } else {
                            DebugStackFrameView { presentation: shown_text(value), ..frame }
                        },
                    ),
                    ..s
                },
                rest,
            )
        }),
{
    lemma_elements();
    lemma_ping_element(s, name, tag, raw, value, rest);
    frames_have_what_their_elements_tell(s.frame->0, xml::local(name), value);
}

/// A frame begins empty with its element, within an event, and is put behind the frames of the event
/// where its element ends.
pub proof fn frames_are_put_in_order(s: PingStateView, name: Seq<char>, tag: Seq<char>, rest: Seq<XmlEventView>)
    requires
        s.event is Some,
        xml::local(name) == "callStack"@,
    ensures
        s.frame is None ==> debug_replies::ping_run(
            s,
            seq![XmlEventView::Start(name, tag)] + rest,
        ) == debug_replies::ping_run(
            PingStateView {
                names: s.names.push("callStack"@),
                frame: Some(
                    DebugStackFrameView {
                        extension_name: Seq::empty(),
                        object_id: Seq::empty(),
                        property_id: Seq::empty(),
                        line: 0,
                        presentation: Seq::empty(),
                    },
                ),
                ..s
            },
            rest,
        ),
        s.frame is Some && s.names.len() > 0 ==> debug_replies::ping_run(
            s,
            seq![XmlEventView::End(name)] + rest,
        ) == debug_replies::ping_run(
            PingStateView {
                names: s.names.drop_last(),
                event: Some(
                    DebugUiEventView {
                        call_stack: s.event->0.call_stack.push(s.frame->0),
                        ..s.event->0
                    },
                ),
                frame: None,
                ..s
            },
            rest,
        ),
{
    lemma_elements();
    let begun = seq![XmlEventView::Start(name, tag)] + rest;
    let ended = seq![XmlEventView::End(name)] + rest;
    assert(begun.drop_first() =~= rest);
    assert(ended.drop_first() =~= rest);
}

/// An event begins empty with a `result` below the root, and is put behind the events before it
/// where that element ends, if it has a command.
pub proof fn events_are_put_in_order(s: PingStateView, name: Seq<char>, tag: Seq<char>, rest: Seq<XmlEventView>)
    requires
        xml::local(name) == "result"@,
    ensures
        s.names.len() == 1 ==> debug_replies::ping_run(
            s,
            seq![XmlEventView::Start(name, tag)] + rest,
        ) == debug_replies::ping_run(
            PingStateView {
                names: s.names.push("result"@),
                event: Some(
                    DebugUiEventView {
                        command_id: Seq::empty(),
                        target_id: None,
                        call_stack: Seq::empty(),
                        stopped_by_breakpoint: false,
                        suspended_by_other: false,
                        send_message_only: false,
                        send_hit_counter_only: false,
                        message: None,
                        evaluation: None,
                    },
                ),
                ..s
            },
            rest,
        ),
        s.names.len() == 2 && s.event is Some ==> debug_replies::ping_run(
            s,
            seq![XmlEventView::End(name)] + rest,
        ) == debug_replies::ping_run(
            PingStateView {
                names: s.names.drop_last(),
                event: None,
                events: if s.event->0.command_id.len() > 0 {
                    s.events.push(s.event->0)
                } else {
                    s.events
                },
                ..s
            },
            rest,
        ),
{
    lemma_elements();
    let begun = seq![XmlEventView::Start(name, tag)] + rest;
    let ended = seq![XmlEventView::End(name)] + rest;
    assert(begun.drop_first() =~= rest);
    assert(ended.drop_first() =~= rest);
}

/// A document ends with the events that were read, and one that is not well-formed brings none.
pub proof fn events_come_from_whole_documents(s: PingStateView, message: Seq<char>, rest: Seq<XmlEventView>)
    ensures
        debug_replies::ping_run(s, seq![XmlEventView::Eof] + rest) == Ok::<
            Seq<DebugUiEventView>,
            Seq<char>,
        >(s.events),
        debug_replies::ping_run(s, seq![XmlEventView::Invalid(message)] + rest) == Err::<
            Seq<DebugUiEventView>,
            Seq<char>,
        >(message),
        debug_replies::ping_start().events.len() == 0,
        debug_replies::ping_start().names.len() == 0,
        debug_replies::ping_start().event is None,
{
}

/// Within an evaluation of an event, the elements of the evaluation give it what they are named for.
pub proof fn evaluations_of_events_are_read(s: PingStateView, name: Seq<char>, tag: Seq<char>, raw: Seq<char>, value: Seq<char>, rest: Seq<XmlEventView>)
    requires
        s.event is Some,
        s.frame is None,
        s.variable is None,
        s.event->0.evaluation is Some,
        xml::xml_unescaped_text(raw) == Some(value),
    ensures
        ({
            let event = s.event->0;
            let evaluation = event.evaluation->0;
            let local = xml::local(name);
            let read = debug_replies::ping_run(s, element(name, tag, raw) + rest);
            let in_value = s.names.contains("resultValueInfo"@);
            &&& local == "expressionResultID"@ ==> read == debug_replies::ping_run(
                evaluation_read(s, DebugEvaluationView { result_id: value, ..evaluation }),
                rest,
            )
            &&& local == "exceptionStr"@ ==> read == debug_replies::ping_run(
                evaluation_read(
                    s,
                    DebugEvaluationView { error: Some(shown_text(value)), ..evaluation },
                ),
                rest,
            )
            &&& local == "errorOccurred"@ ==> read == debug_replies::ping_run(
                evaluation_read(
                    s,
                    DebugEvaluationView {
                        error: if evaluation.error is None && xml::is_true(value) {
                            Some("expression evaluation failed"@)
                        } else {
                            evaluation.error
                        },
                        ..evaluation
                    },
                ),
                rest,
            )
            &&& local == "typeName"@ && in_value ==> read == debug_replies::ping_run(
                evaluation_read(s, DebugEvaluationView { value_type: value, ..evaluation }),
                rest,
            )
            &&& local == "pres"@ && in_value ==> read == debug_replies::ping_run(
                evaluation_read(s, DebugEvaluationView { value: shown_text(value), ..evaluation }),
                rest,
            )
            &&& local == "isExpandable"@ && in_value ==> read == debug_replies::ping_run(
                evaluation_read(
                    s,
                    DebugEvaluationView { is_expandable: xml::is_true(value), ..evaluation },
                ),
                rest,
            )
            &&& local == "isIIndexedCollectionRO"@ && in_value ==> read == debug_replies::ping_run(
                evaluation_read(
                    s,
                    DebugEvaluationView {
                        is_indexed_collection: xml::is_true(value),
                        ..evaluation
                    },
                ),
                rest,
            )
        }),
{
    lemma_elements();
    let local = xml::local(name);
    if local == "expressionResultID"@ || local == "errorOccurred"@ || local == "exceptionStr"@
        || local == "typeName"@ || local == "pres"@ || local == "isExpandable"@ || local
        == "isIIndexedCollectionRO"@ {
        lemma_ping_element(s, name, tag, raw, value, rest);
        lemma_inside(s.names, local, "resultValueInfo"@);
        lemma_contains(s.names, "resultValueInfo"@);
        evaluations_have_what_their_elements_tell(
            s.event->0.evaluation->0,
            s.names.contains("resultValueInfo"@),
            local,
            value,
        );
        let opened = PingStateView { names: s.names.push(local), ..s };
        assert(debug_replies::inside(opened.names, "resultValueInfo"@) == s.names.contains(
            "resultValueInfo"@,
        ));
    }
}

/// The state with another evaluation in its event.
pub open spec fn evaluation_read(s: PingStateView, evaluation: DebugEvaluationView) -> PingStateView {
    PingStateView {
        event: Some(DebugUiEventView { evaluation: Some(evaluation), ..s.event->0 }),
        ..s
    }
}

proof fn lemma_variable_element(s: VariablesStateView, name: Seq<char>, tag: Seq<char>, raw: Seq<char>, value: Seq<char>, rest: Seq<XmlEventView>)
    requires
        s.current is Some,
        xml::xml_unescaped_text(raw) == Some(value),
        xml::local(name) != "valueOfContextPropInfo"@,
        xml::local(name) != "valueOfCollectionInfo"@,
    ensures
        debug_replies::variables_run(s, element(name, tag, raw) + rest)
            == debug_replies::variables_run(
            VariablesStateView {
                current: Some(
                    debug_replies::variable_with(s.current->0, xml::local(name), value),
                ),
                ..s
            },
            rest,
        ),
{
    let all = element(name, tag, raw) + rest;
    let second = seq![XmlEventView::Text(raw), XmlEventView::End(name)] + rest;
    let third = seq![XmlEventView::End(name)] + rest;
    assert(all.drop_first() =~= second);
    assert(second.drop_first() =~= third);
    assert(third.drop_first() =~= rest);
    let opened = VariablesStateView { names: s.names.push(xml::local(name)), ..s };
    assert(debug_replies::variables_opened(s, xml::local(name)) =~= opened);
    let valued = VariablesStateView {
        current: Some(debug_replies::variable_with(s.current->0, xml::local(name), value)),
        ..opened
    };
    assert(opened.names.last() == xml::local(name));
    assert(valued.names.drop_last() =~= s.names);
    let closed = debug_replies::variables_closed(valued, xml::local(name));
    assert(debug_replies::variables_run(s, all) == debug_replies::variables_run(opened, second));
    assert(debug_replies::variables_run(opened, second) == debug_replies::variables_run(
        valued,
        third,
    ));
    assert(debug_replies::variables_run(valued, third) == debug_replies::variables_run(
        closed,
        rest,
    ));
}

/// Each element within a variable gives the variable what it is named for.
pub proof fn variables_are_read(s: VariablesStateView, name: Seq<char>, tag: Seq<char>, raw: Seq<char>, value: Seq<char>, rest: Seq<XmlEventView>)
    requires
        s.current is Some,
        xml::xml_unescaped_text(raw) == Some(value),
    ensures
        ({
            let variable = s.current->0;
            let local = xml::local(name);
            let read = debug_replies::variables_run(s, element(name, tag, raw) + rest);
            &&& local == "propName"@ ==> read == debug_replies::variables_run(
                VariablesStateView {
                    current: Some(DebugVariableView { name: value, ..variable }),
                    ..s
                },
                rest,
            )
            &&& local == "typeName"@ ==> read == debug_replies::variables_run(
                VariablesStateView {
                    current: Some(DebugVariableView { value_type: value, ..variable }),
                    ..s
                },
                rest,
            )
            &&& local == "pres"@ || local == "errorStr"@ ==> read == debug_replies::variables_run(
                VariablesStateView {
                    current: Some(DebugVariableView { value: shown_text(value), ..variable }),
                    ..s
                },
                rest,
            )
            &&& local == "isExpandable"@ ==> read == debug_replies::variables_run(
                VariablesStateView {
                    current: Some(
                        DebugVariableView { is_expandable: xml::is_true(value), ..variable },
                    ),
                    ..s
                },
                rest,
            )
            &&& local == "isIIndexedCollectionRO"@ ==> read == debug_replies::variables_run(
                VariablesStateView {
                    current: Some(
                        DebugVariableView {
                            is_indexed_collection: xml::is_true(value),
                            ..variable
                        },
                    ),
                    ..s
                },
                rest,
            )
        }),
{
    lemma_elements();
    if xml::local(name) != "valueOfContextPropInfo"@ && xml::local(name)
        != "valueOfCollectionInfo"@ {
        lemma_variable_element(s, name, tag, raw, value, rest);
        variables_have_what_their_elements_tell(s.current->0, xml::local(name), value);
    }
}

/// A property begins without a name, and an item with its number as its name, counted from zero;
/// either is put behind the variables before it where its element ends, if it has a name.
pub proof fn variables_are_put_in_order(s: VariablesStateView, name: Seq<char>, tag: Seq<char>, rest: Seq<XmlEventView>)
    ensures
        ({
            let begun = debug_replies::variables_run(
                s,
                seq![XmlEventView::Start(name, tag)] + rest,
            );
            &&& xml::local(name) == "valueOfContextPropInfo"@ ==> begun
                == debug_replies::variables_run(
                VariablesStateView {
                    names: s.names.push("valueOfContextPropInfo"@),
                    current: Some(
                        DebugVariableView {
                            name: Seq::empty(),
                            value_type: Seq::empty(),
                            value: Seq::empty(),
                            index: None,
                            is_expandable: false,
                            is_indexed_collection: false,
                        },
                    ),
                    ..s
                },
                rest,
            )
            &&& xml::local(name) == "valueOfCollectionInfo"@ ==> begun
                == debug_replies::variables_run(
                VariablesStateView {
                    names: s.names.push("valueOfCollectionInfo"@),
                    current: Some(
                        DebugVariableView {
                            name: number::decimal(s.index),
                            value_type: Seq::empty(),
                            value: Seq::empty(),
                            index: Some(s.index as i64),
                            is_expandable: false,
                            is_indexed_collection: false,
                        },
                    ),
                    index: s.index + 1,
                    ..s
                },
                rest,
            )
        }),
        s.names.len() > 0 && s.current is Some && (xml::local(name) == "valueOfContextPropInfo"@
            || xml::local(name) == "valueOfCollectionInfo"@) ==> debug_replies::variables_run(
            s,
            seq![XmlEventView::End(name)] + rest,
        ) == debug_replies::variables_run(
            VariablesStateView {
                names: s.names.drop_last(),
                current: None,
                variables: if s.current->0.name.len() > 0 {
                    s.variables.push(s.current->0)
                } else {
                    s.variables
                },
                ..s
            },
            rest,
        ),
        debug_replies::variables_run(s, seq![XmlEventView::Eof] + rest) == Ok::<
            Seq<DebugVariableView>,
            Seq<char>,
        >(s.variables),
        debug_replies::variables_start().index == 0,
        debug_replies::variables_start().variables.len() == 0,
        debug_replies::variables_start().current is None,
{
    lemma_elements();
    let begun = seq![XmlEventView::Start(name, tag)] + rest;
    let ended = seq![XmlEventView::End(name)] + rest;
    assert(begun.drop_first() =~= rest);
    assert(ended.drop_first() =~= rest);
}

/// The elements of an evaluation give it what they are named for; its children are not read into it.
pub proof fn evaluations_are_read(s: EvaluationStateView, name: Seq<char>, tag: Seq<char>, raw: Seq<char>, value: Seq<char>, rest: Seq<XmlEventView>)
    requires
        xml::xml_unescaped_text(raw) == Some(value),
    ensures
        ({
            let local = xml::local(name);
            let evaluation = s.evaluation;
            let read = debug_replies::evaluation_run(s, element(name, tag, raw) + rest);
            let in_value = s.names.contains("resultValueInfo"@);
            &&& local == "expressionResultID"@ ==> read == debug_replies::evaluation_run(
                EvaluationStateView {
                    evaluation: DebugEvaluationView { result_id: value, ..evaluation },
                    ..s
                },
                rest,
            )
            &&& local == "errorOccurred"@ ==> read == debug_replies::evaluation_run(
                EvaluationStateView { error_occurred: xml::is_true(value), ..s },
                rest,
            )
            &&& local == "exceptionStr"@ ==> read == debug_replies::evaluation_run(
                EvaluationStateView {
                    evaluation: DebugEvaluationView {
                        error: Some(shown_text(value)),
                        ..evaluation
                    },
                    ..s
                },
                rest,
            )
            &&& local == "typeName"@ && in_value ==> read == debug_replies::evaluation_run(
                EvaluationStateView {
                    evaluation: DebugEvaluationView { value_type: value, ..evaluation },
                    ..s
                },
                rest,
            )
            &&& local == "pres"@ && in_value ==> read == debug_replies::evaluation_run(
                EvaluationStateView {
                    evaluation: DebugEvaluationView { value: shown_text(value), ..evaluation },
                    ..s
                },
                rest,
            )
            &&& local == "isExpandable"@ && in_value ==> read == debug_replies::evaluation_run(
                EvaluationStateView {
                    evaluation: DebugEvaluationView {
                        is_expandable: xml::is_true(value),
                        ..evaluation
                    },
                    ..s
                },
                rest,
            )
            &&& local == "isIIndexedCollectionRO"@ && in_value ==> read
                == debug_replies::evaluation_run(
                EvaluationStateView {
                    evaluation: DebugEvaluationView {
                        is_indexed_collection: xml::is_true(value),
                        ..evaluation
                    },
                    ..s
                },
                rest,
            )
            &&& (local == "typeName"@ || local == "pres"@ || local == "isExpandable"@ || local
                == "isIIndexedCollectionRO"@) && !in_value ==> read
                == debug_replies::evaluation_run(s, rest)
        }),
{
    lemma_elements();
    let local = xml::local(name);
    let all = element(name, tag, raw) + rest;
    let second = seq![XmlEventView::Text(raw), XmlEventView::End(name)] + rest;
    let third = seq![XmlEventView::End(name)] + rest;
    assert(all.drop_first() =~= second);
    assert(second.drop_first() =~= third);
    assert(third.drop_first() =~= rest);
    if local != "result"@ && local != "resultValueInfo"@ {
        let opened = EvaluationStateView { names: s.names.push(local), ..s };
        assert(opened.names.last() == local);
        let valued = debug_replies::evaluation_valued(opened, local, value);
        assert(valued.names.drop_last() =~= s.names);
        let closed = EvaluationStateView { names: s.names, ..valued };
        assert(debug_replies::evaluation_run(s, all) == debug_replies::evaluation_run(
            opened,
            second,
        ));
        assert(debug_replies::evaluation_run(opened, second) == debug_replies::evaluation_run(
            valued,
            third,
        ));
        assert(debug_replies::evaluation_run(valued, third) == debug_replies::evaluation_run(
            closed,
            rest,
        ));
        lemma_inside(s.names, local, "resultValueInfo"@);
        lemma_contains(s.names, "resultValueInfo"@);
        assert(debug_replies::inside(opened.names, "resultValueInfo"@) == s.names.contains(
            "resultValueInfo"@,
        ));
        evaluations_have_what_their_elements_tell(
            s.evaluation,
            s.names.contains("resultValueInfo"@),
            local,
            value,
        );
    }
}

/// An evaluation that went wrong has an error, the one that it tells or a fixed one; one that did
/// not has none, whatever it tells. Its children are the variables of the same reply.
pub proof fn errors_are_told_where_they_occurred(s: EvaluationStateView, variables: Seq<DebugVariableView>)
    ensures
        ({
            let evaluation = debug_replies::finished_evaluation(s, variables);
            &&& s.error_occurred && s.evaluation.error is Some ==> evaluation.error
                == s.evaluation.error
            &&& s.error_occurred && s.evaluation.error is None ==> evaluation.error == Some(
                "expression evaluation failed"@,
            )
            &&& !s.error_occurred ==> evaluation.error is None
            &&& evaluation.variables == variables
            &&& evaluation.value == s.evaluation.value
            &&& evaluation.value_type == s.evaluation.value_type
            &&& evaluation.result_id == s.evaluation.result_id
            &&& evaluation.is_expandable == s.evaluation.is_expandable
            &&& evaluation.is_indexed_collection == s.evaluation.is_indexed_collection
        }),
{
}

/// A reply without a result has no evaluation yet; one with a result has the evaluation that its
/// elements tell, and the variables that the same elements tell.
pub proof fn results_are_told_or_late(document: Seq<char>, s: EvaluationStateView, variables: Seq<DebugVariableView>)
    requires
        xml::xml_events(document, true).len() <= i64::MAX,
        debug_replies::evaluation_run(
            debug_replies::evaluation_start(),
            xml::xml_events(document, true),
        ) == Ok::<EvaluationStateView, Seq<char>>(s),
        debug_replies::variables_run(
            debug_replies::variables_start(),
            xml::xml_events(document, true),
        ) == Ok::<Seq<DebugVariableView>, Seq<char>>(variables),
    ensures
        !s.saw_result ==> debug_replies::evaluation_reply(document) == Ok::<
            Option<DebugEvaluationView>,
            Seq<char>,
        >(None),
        s.saw_result ==> debug_replies::evaluation_reply(document) == Ok::<
            Option<DebugEvaluationView>,
            Seq<char>,
        >(Some(debug_replies::finished_evaluation(s, variables))),
        !debug_replies::evaluation_start().saw_result,
        !debug_replies::evaluation_start().error_occurred,
{
}

/// Each element of a target gives the target what it is named for; its identifier stands two levels
/// below the root.
pub proof fn targets_have_what_their_elements_tell(target: DebugTargetView, names: Seq<Seq<char>>, value: Seq<char>)
    requires
        names.len() > 0,
    ensures
        names.last() == "id"@ && names.len() == 3 ==> debug_replies::target_with(
            target,
            names,
            value,
        ) == (DebugTargetView { id: value, ..target }),
        names.last() == "id"@ && names.len() != 3 ==> debug_replies::target_with(
            target,
            names,
            value,
        ) == target,
        names.last() == "seanceNo"@ ==> debug_replies::target_with(target, names, value) == (
        DebugTargetView { seance_no: value, ..target }),
        names.last() == "userName"@ ==> debug_replies::target_with(target, names, value) == (
        DebugTargetView { user_name: value, ..target }),
        names.last() == "targetType"@ ==> debug_replies::target_with(target, names, value) == (
        DebugTargetView { target_type: value, ..target }),
        names.last() != "id"@ && names.last() != "seanceNo"@ && names.last() != "userName"@
            && names.last() != "targetType"@ ==> debug_replies::target_with(target, names, value)
            == target,
{
    lemma_elements();
}

/// A target begins empty with an `id` below the root `response`, takes what its texts tell, and is
/// put behind the targets before it where that element ends, if it has an identifier.
pub proof fn targets_are_put_in_order(s: TargetsStateView, name: Seq<char>, tag: Seq<char>, raw: Seq<char>, value: Seq<char>, rest: Seq<XmlEventView>)
    requires
        xml::xml_unescaped_text(raw) == Some(value),
        s.names.len() > 0,
        s.names[0] == "response"@,
    ensures
        xml::local(name) == "id"@ && s.names.len() == 1 ==> debug_replies::targets_run(
            s,
            seq![XmlEventView::Start(name, tag)] + rest,
        ) == debug_replies::targets_run(
            TargetsStateView {
                names: s.names.push("id"@),
                current: Some(
                    DebugTargetView {
                        id: Seq::empty(),
                        seance_no: Seq::empty(),
                        user_name: Seq::empty(),
                        target_type: Seq::empty(),
                    },
                ),
                ..s
            },
            rest,
        ),
        s.current is Some && (s.names.len() != 1 || xml::local(name) != "id"@)
            ==> debug_replies::targets_run(s, seq![XmlEventView::Start(name, tag)] + rest)
            == debug_replies::targets_run(
            TargetsStateView { names: s.names.push(xml::local(name)), ..s },
            rest,
        ),
        s.current is Some ==> debug_replies::targets_run(s, seq![XmlEventView::Text(raw)] + rest)
            == debug_replies::targets_run(
            TargetsStateView {
                current: Some(debug_replies::target_with(s.current->0, s.names, value)),
                ..s
            },
            rest,
        ),
        s.current is Some && xml::local(name) == "id"@ && s.names.len() == 2
            ==> debug_replies::targets_run(s, seq![XmlEventView::End(name)] + rest)
            == debug_replies::targets_run(
            TargetsStateView {
                names: s.names.drop_last(),
                current: None,
                targets: if s.current->0.id.len() > 0 {
                    s.targets.push(s.current->0)
                } else {
                    s.targets
                },
            },
            rest,
        ),
        debug_replies::targets_run(s, seq![XmlEventView::Eof] + rest) == Ok::<
            Seq<DebugTargetView>,
            Seq<char>,
        >(s.targets),
{
    lemma_elements();
    let begun = seq![XmlEventView::Start(name, tag)] + rest;
    let ended = seq![XmlEventView::End(name)] + rest;
    let told = seq![XmlEventView::Text(raw)] + rest;
    assert(begun.drop_first() =~= rest);
    assert(ended.drop_first() =~= rest);
    assert(told.drop_first() =~= rest);
}

/// The results of a registration are told apart.
proof fn lemma_results()
    ensures
        "registered"@.len() == 10,
        "credentialsRequired"@.len() == 19,
        "fullCredentialsRequired"@.len() == 23,
        "ibInDebug"@.len() == 9,
        "notRegistered"@.len() == 13,
        "unknown"@.len() == 7,
{
    reveal_strlit("registered");
    reveal_strlit("credentialsRequired");
    reveal_strlit("fullCredentialsRequired");
    reveal_strlit("ibInDebug");
    reveal_strlit("notRegistered");
    reveal_strlit("unknown");
}

/// Only the result `registered` begins a session; every other one is told in words.
pub proof fn only_registered_sessions_begin(value: Seq<char>)
    ensures
        ({
            let told = debug_server::registration_text(value);
            let name = text::trim(value);
            &&& name == "registered"@ ==> told is Ok
            &&& name == "credentialsRequired"@ || name == "fullCredentialsRequired"@ ==> told
                == Err::<(), Seq<char>>("1C debug server requires infobase credentials"@)
            &&& name == "ibInDebug"@ ==> told == Err::<(), Seq<char>>(
                "the infobase is already being debugged"@,
            )
            &&& name == "notRegistered"@ ==> told == Err::<(), Seq<char>>(
                "the infobase is not registered for debugging"@,
            )
            &&& name == "unknown"@ ==> told == Err::<(), Seq<char>>(
                "the 1C debug server returned an unknown attach result"@,
            )
            &&& name != "registered"@ && name != "credentialsRequired"@ && name
                != "fullCredentialsRequired"@ && name != "ibInDebug"@ && name != "notRegistered"@
                && name != "unknown"@ ==> told == Err::<(), Seq<char>>(
                "unknown attachDebugUI result `"@ + name + "`"@,
            )
        }),
{
    lemma_results();
}

/// The spellings of the results.
pub proof fn results_are_spelled(result: AttachDebugUiResult)
    ensures
        debug_replies::attach_result_name(AttachDebugUiResult::Registered) == "registered"@,
        debug_replies::attach_result_name(AttachDebugUiResult::CredentialsRequired)
            == "credentialsRequired"@,
        debug_replies::attach_result_name(AttachDebugUiResult::FullCredentialsRequired)
            == "fullCredentialsRequired"@,
        debug_replies::attach_result_name(AttachDebugUiResult::IbInDebug) == "ibInDebug"@,
        debug_replies::attach_result_name(AttachDebugUiResult::NotRegistered) == "notRegistered"@,
        debug_replies::attach_result_name(AttachDebugUiResult::Unknown) == "unknown"@,
        debug_replies::attach_result("registered"@) == Some(AttachDebugUiResult::Registered),
        debug_replies::attach_result("credentialsRequired"@) == Some(
            AttachDebugUiResult::CredentialsRequired,
        ),
        debug_replies::attach_result("fullCredentialsRequired"@) == Some(
            AttachDebugUiResult::FullCredentialsRequired,
        ),
        debug_replies::attach_result("ibInDebug"@) == Some(AttachDebugUiResult::IbInDebug),
        debug_replies::attach_result("notRegistered"@) == Some(AttachDebugUiResult::NotRegistered),
        debug_replies::attach_result("unknown"@) == Some(AttachDebugUiResult::Unknown),
        debug_replies::attach_result(debug_replies::attach_result_name(result)) == Some(result),
{
    lemma_results();
}

/// A wanted element of a reply is the first one of its name; a reply without it is an error.
pub proof fn the_first_element_of_a_name_counts(document: Seq<char>, events: Seq<XmlEventView>, expected: Seq<char>, name: Seq<char>, tag: Seq<char>, content: Seq<char>)
    ensures
        events.len() > 0 && events[0] == XmlEventView::Start(name, tag) && xml::local(name)
            == expected && xml::xml_inner_text(document, true, (events.len() - 1) as nat, name)
            == Ok::<Seq<char>, Seq<char>>(content) ==> debug_replies::element_in(
            document,
            events,
            expected,
        ) == Ok::<Seq<char>, Seq<char>>(content),
        events.len() > 0 && events[0] == XmlEventView::Start(name, tag) && xml::local(name)
            != expected ==> debug_replies::element_in(document, events, expected)
            == debug_replies::element_in(document, events.drop_first(), expected),
        events.len() > 0 && (events[0] is Text || events[0] is End || events[0] is Empty
            || events[0] is Other) ==> debug_replies::element_in(document, events, expected)
            == debug_replies::element_in(document, events.drop_first(), expected),
        events.len() > 0 && events[0] is Eof ==> debug_replies::element_in(
            document,
            events,
            expected,
        ) == Err::<Seq<char>, Seq<char>>(
            "1C debug server response has no `"@ + expected + "` element"@,
        ),
{
}

/// A reply without a result has no variables yet; one with a result has those that it tells.
pub proof fn variables_are_told_or_late(document: Seq<char>)
    ensures
        !text::occurs_in(document, "<result"@) && !text::occurs_in(document, ":result"@)
            ==> debug_replies::local_variables_reply(document) == Ok::<
            Option<Seq<DebugVariableView>>,
            Seq<char>,
        >(None),
        (text::occurs_in(document, "<result"@) || text::occurs_in(document, ":result"@))
            && debug_replies::variables_reply(document) is Ok
            ==> debug_replies::local_variables_reply(document) == Ok::<
            Option<Seq<DebugVariableView>>,
            Seq<char>,
        >(Some(debug_replies::variables_reply(document)->Ok_0)),
{
}

/// A value that cannot be decoded refuses the whole reply.
pub proof fn values_that_cannot_be_decoded_are_errors(s: PingStateView, v: VariablesStateView, e: EvaluationStateView, t: TargetsStateView, raw: Seq<char>, rest: Seq<XmlEventView>)
    requires
        xml::xml_unescaped_text(raw) is None,
    ensures
        s.event is Some ==> debug_replies::ping_run(s, seq![XmlEventView::Text(raw)] + rest)
            == Err::<Seq<DebugUiEventView>, Seq<char>>("cannot decode Debug UI event value"@),
        v.current is Some && v.names.len() > 0 ==> debug_replies::variables_run(
            v,
            seq![XmlEventView::Text(raw)] + rest,
        ) == Err::<Seq<DebugVariableView>, Seq<char>>("cannot decode local variables response"@),
        e.names.len() > 0 ==> debug_replies::evaluation_run(
            e,
            seq![XmlEventView::Text(raw)] + rest,
        ) == Err::<EvaluationStateView, Seq<char>>("cannot decode expression evaluation response"@),
        t.current is Some ==> debug_replies::targets_run(t, seq![XmlEventView::Text(raw)] + rest)
            == Err::<Seq<DebugTargetView>, Seq<char>>("cannot decode debug targets response"@),
{
}

/// A result is seen by its element, wherever it stands.
pub proof fn results_are_seen_by_their_element(s: EvaluationStateView, name: Seq<char>, tag: Seq<char>, rest: Seq<XmlEventView>)
    ensures
        debug_replies::evaluation_run(s, seq![XmlEventView::Start(name, tag)] + rest)
            == debug_replies::evaluation_run(
            EvaluationStateView {
                names: s.names.push(xml::local(name)),
                saw_result: s.saw_result || xml::local(name) == "result"@,
                ..s
            },
            rest,
        ),
        s.names.len() > 0 ==> debug_replies::evaluation_run(
            s,
            seq![XmlEventView::End(name)] + rest,
        ) == debug_replies::evaluation_run(
            EvaluationStateView { names: s.names.drop_last(), ..s },
            rest,
        ),
        debug_replies::evaluation_run(s, seq![XmlEventView::Eof] + rest) == Ok::<
            EvaluationStateView,
            Seq<char>,
        >(s),
{
    assert((seq![XmlEventView::Start(name, tag)] + rest).drop_first() =~= rest);
    assert((seq![XmlEventView::End(name)] + rest).drop_first() =~= rest);
}

/// The children of an evaluation that an event brings are put behind those before them, if they have
/// a name; they begin like other variables.
pub proof fn children_of_events_are_put_in_order(s: PingStateView, name: Seq<char>, tag: Seq<char>, rest: Seq<XmlEventView>)
    requires
        s.event is Some,
        s.frame is None,
    ensures
        xml::local(name) == "valueOfContextPropInfo"@ ==> debug_replies::ping_run(
            s,
            seq![XmlEventView::Start(name, tag)] + rest,
        ) == debug_replies::ping_run(
            PingStateView {
                names: s.names.push("valueOfContextPropInfo"@),
                variable: Some(
                    DebugVariableView {
                        name: Seq::empty(),
                        value_type: Seq::empty(),
                        value: Seq::empty(),
                        index: None,
                        is_expandable: false,
                        is_indexed_collection: false,
                    },
                ),
                ..s
            },
            rest,
        ),
        xml::local(name) == "valueOfCollectionInfo"@ ==> debug_replies::ping_run(
            s,
            seq![XmlEventView::Start(name, tag)] + rest,
        ) == debug_replies::ping_run(
            PingStateView {
                names: s.names.push("valueOfCollectionInfo"@),
                variable: Some(
                    DebugVariableView {
                        name: number::decimal(s.index),
                        value_type: Seq::empty(),
                        value: Seq::empty(),
                        index: Some(s.index as i64),
                        is_expandable: false,
                        is_indexed_collection: false,
                    },
                ),
                index: s.index + 1,
                ..s
            },
            rest,
        ),
        (xml::local(name) == "valueOfContextPropInfo"@ || xml::local(name)
            == "valueOfCollectionInfo"@) && s.names.len() > 0 && s.event->0.evaluation is Some
            && s.variable is Some && s.variable->0.name.len() > 0 ==> debug_replies::ping_run(
            s,
            seq![XmlEventView::End(name)] + rest,
        ) == debug_replies::ping_run(
            PingStateView {
                names: s.names.drop_last(),
                variable: None,
                ..evaluation_read(
                    s,
                    DebugEvaluationView {
                        variables: s.event->0.evaluation->0.variables.push(s.variable->0),
                        ..s.event->0.evaluation->0
                    },
                )
            },
            rest,
        ),
{
    lemma_elements();
    let begun = seq![XmlEventView::Start(name, tag)] + rest;
    let ended = seq![XmlEventView::End(name)] + rest;
    assert(begun.drop_first() =~= rest);
    assert(ended.drop_first() =~= rest);
}

/// A wanted element that cannot be read is told of.
pub proof fn elements_that_cannot_be_read_are_told_of(document: Seq<char>, events: Seq<XmlEventView>, expected: Seq<char>, name: Seq<char>, tag: Seq<char>)
    requires
        events.len() > 0,
        events[0] == XmlEventView::Start(name, tag),
        xml::local(name) == expected,
        xml::xml_inner_text(document, true, (events.len() - 1) as nat, name) is Err,
    ensures
        debug_replies::element_in(document, events, expected) == Err::<Seq<char>, Seq<char>>(
            "cannot read XML response value"@,
        ),
{
}

/// A registration is read from the element `result` of its reply.
pub proof fn registrations_are_read_from_their_reply(status: u16, name: Seq<char>, body: Seq<char>, value: Seq<char>)
    ensures
        debug_replies::element_reply(body, "result"@) == Ok::<Seq<char>, Seq<char>>(value)
            ==> debug_server::attach_reply(HttpReplyView::Answered(status, name, body))
            == debug_server::registration_text(value),
        debug_replies::element_reply(body, "result"@) is Err ==> debug_server::attach_reply(
            HttpReplyView::Answered(status, name, body),
        ) is Err,
        debug_server::attach_reply(HttpReplyView::Failed) == Err::<(), Seq<char>>(
            "1C debug server request `"@ + "attachDebugUI"@ + "` failed"@,
        ),
{
}

/// Replies are read by the body, whatever their status.
pub proof fn replies_are_read_by_their_body(status: u16, name: Seq<char>, body: Seq<char>)
    ensures
        debug_server::targets_listed(HttpReplyView::Answered(status, name, body))
            == debug_replies::targets_reply(body),
        debug_server::evaluation_answer(HttpReplyView::Answered(status, name, body))
            == debug_replies::evaluation_reply(body),
        debug_server::local_variables_answer(HttpReplyView::Answered(status, name, body))
            == debug_replies::local_variables_reply(body),
        debug_replies::targets_reply(body) == debug_replies::targets_run(
            TargetsStateView { names: Seq::empty(), current: None, targets: Seq::empty() },
            xml::xml_events(body, true),
        ),
        xml::xml_events(body, true).len() <= i64::MAX ==> debug_replies::ping_reply(body)
            == debug_replies::ping_run(debug_replies::ping_start(), xml::xml_events(body, true)),
        xml::xml_events(body, true).len() <= i64::MAX ==> debug_replies::variables_reply(body)
            == debug_replies::variables_run(
            debug_replies::variables_start(),
            xml::xml_events(body, true),
        ),
        xml::xml_events(body, true).len() > i64::MAX ==> debug_replies::ping_reply(body) == Err::<
            Seq<DebugUiEventView>,
            Seq<char>,
        >("XML document is too large"@),
{
}

/// The elements of a child of an evaluation that an event brings give the child what they are named
/// for, and not the value itself, unless they stand within it.
pub proof fn children_of_events_are_read(s: PingStateView, name: Seq<char>, tag: Seq<char>, raw: Seq<char>, value: Seq<char>, rest: Seq<XmlEventView>)
    requires
        s.event is Some,
        s.frame is None,
        s.variable is Some,
        s.event->0.evaluation is Some,
        !s.names.contains("resultValueInfo"@),
        xml::xml_unescaped_text(raw) == Some(value),
    ensures
        ({
            let variable = s.variable->0;
            let local = xml::local(name);
            let read = debug_replies::ping_run(s, element(name, tag, raw) + rest);
            &&& local == "propName"@ ==> read == debug_replies::ping_run(
                PingStateView {
                    variable: Some(DebugVariableView { name: value, ..variable }),
                    ..s
                },
                rest,
            )
            &&& local == "typeName"@ ==> read == debug_replies::ping_run(
                PingStateView {
                    variable: Some(DebugVariableView { value_type: value, ..variable }),
                    ..s
                },
                rest,
            )
            &&& local == "pres"@ || local == "errorStr"@ ==> read == debug_replies::ping_run(
                PingStateView {
                    variable: Some(DebugVariableView { value: shown_text(value), ..variable }),
                    ..s
                },
                rest,
            )
            &&& local == "isExpandable"@ ==> read == debug_replies::ping_run(
                PingStateView {
                    variable: Some(
                        DebugVariableView { is_expandable: xml::is_true(value), ..variable },
                    ),
                    ..s
                },
                rest,
            )
            &&& local == "isIIndexedCollectionRO"@ ==> read == debug_replies::ping_run(
                PingStateView {
                    variable: Some(
                        DebugVariableView {
                            is_indexed_collection: xml::is_true(value),
                            ..variable
                        },
                    ),
                    ..s
                },
                rest,
            )
        }),
{
    lemma_elements();
    let local = xml::local(name);
    if local == "propName"@ || local == "typeName"@ || local == "pres"@ || local == "errorStr"@
        || local == "isExpandable"@ || local == "isIIndexedCollectionRO"@ {
        lemma_ping_element(s, name, tag, raw, value, rest);
        lemma_inside(s.names, local, "resultValueInfo"@);
        lemma_contains(s.names, "resultValueInfo"@);
        evaluations_have_what_their_elements_tell(s.event->0.evaluation->0, false, local, value);
        variables_have_what_their_elements_tell(s.variable->0, local, value);
        let opened = PingStateView { names: s.names.push(local), ..s };
        assert(!debug_replies::inside(opened.names, "resultValueInfo"@));
    }
}

} // verus!
