//! What the breakpoints of the client become at the debug server.

use crate::adapter;
use crate::adapter::{AdapterView, NextView, ReasonView};
use crate::adapter_breakpoints;
use crate::adapter_frames;
use crate::adapter_requests;
use crate::answer_laws;
use crate::debug_requests;
use crate::debug_server;
use crate::debug_server::HttpReplyView;
use crate::debug_types::{ModuleBreakpointsView, SourceBreakpointView};
use crate::json;
use crate::json::JsonView;
use crate::metadata;
use crate::metadata::ModuleInfoView;
use crate::number;
use crate::ordered;
use crate::reading;
use crate::request_laws;
use crate::text;
use crate::xml;
use vstd::prelude::*;

verus! {

/// A member of an object is a text exactly where a breakpoint has that text.
pub open spec fn is_member_text(value: JsonView, name: Seq<char>, taken: Option<Seq<char>>) -> bool {
    match json::field(value, name) {
        JsonView::Str(t) => taken == Some(t),
        _ => taken is None,
    }
}

/// A breakpoint has the line, the condition and the log message that it is described with: each is
/// taken from the member of its own name, and from no other.
pub proof fn breakpoints_are_taken_as_described(value: JsonView, line: int)
    requires
        json::field(value, "line"@) == JsonView::Integer(line),
        0 < line <= i64::MAX,
        !(json::field(value, "hitCondition"@) is Str),
    ensures
        adapter_breakpoints::breakpoint_of(value) matches Ok(breakpoint) && {
            &&& breakpoint.line == line
            &&& is_member_text(value, "condition"@, breakpoint.condition)
            &&& is_member_text(value, "logMessage"@, breakpoint.log_message)
            &&& breakpoint.hit_condition is None
        },
{
}

proof fn lemma_decimal_is_not_blank(n: int)
    ensures
        text::trim(number::decimal(n)).len() > 0,
{
    let s = number::decimal(n);
    if n < 0 {
        number::lemma_digits_round_trip((-n) as nat);
    } else {
        number::lemma_digits_round_trip(n as nat);
    }
    assert(s.len() > 0);
    assert(!text::white_space(s[0]));
    assert(number::is_digit(s.last()));
    assert(!text::white_space(s.last()));
}

/// A hit count is the number that it is written as, beside the line, the condition and the log
/// message; a blank one is none, and a text that is no number is refused.
pub proof fn hit_counts_are_taken_as_written(value: JsonView, line: int, count: i64, written: Seq<char>, blank: Seq<char>, wrong: Seq<char>)
    requires
        json::field(value, "line"@) == JsonView::Integer(line),
        0 < line <= i64::MAX,
        number::parsed(written, i64::MIN as int, i64::MAX as int) == Some(count as int),
        text::trim(written).len() > 0,
        text::trim(blank).len() == 0,
        text::trim(wrong).len() > 0,
        number::parsed(wrong, i64::MIN as int, i64::MAX as int) is None,
    ensures
        json::field(value, "hitCondition"@) == JsonView::Str(number::decimal(count as int)) ==> (
        adapter_breakpoints::breakpoint_of(value) matches Ok(breakpoint) && breakpoint.line == line
            && breakpoint.hit_condition == Some(count) && is_member_text(
            value,
            "condition"@,
            breakpoint.condition,
        ) && is_member_text(value, "logMessage"@, breakpoint.log_message)),
        json::field(value, "hitCondition"@) == JsonView::Str(written) ==> (
        adapter_breakpoints::breakpoint_of(value) matches Ok(breakpoint) && breakpoint.line == line
            && breakpoint.hit_condition == Some(count)),
        json::field(value, "hitCondition"@) == JsonView::Str(blank) ==> (
        adapter_breakpoints::breakpoint_of(value) matches Ok(breakpoint) && breakpoint.hit_condition
            is None),
        json::field(value, "hitCondition"@) == JsonView::Str(wrong)
            ==> adapter_breakpoints::breakpoint_of(value) is Err,
{
    lemma_decimal_is_not_blank(count as int);
    number::decimal_round_trip(count as int, i64::MIN as int, i64::MAX as int);
}

/// A breakpoint without a positive line is refused.
pub proof fn breakpoints_need_a_line(value: JsonView)
    requires
        json::field(value, "line"@) is Integer ==> json::field(value, "line"@)->Integer_0 <= 0
            || json::field(value, "line"@)->Integer_0 > i64::MAX,
    ensures
        adapter_breakpoints::breakpoint_of(value) is Err,
{
}

proof fn lemma_breakpoints_of(values: Seq<JsonView>)
    ensures
        adapter_breakpoints::breakpoints_of(values) matches Ok(all) ==> all.len() == values.len()
            && forall|i: int|
            0 <= i < values.len() ==> adapter_breakpoints::breakpoint_of(#[trigger] values[i]) == Ok::<
                SourceBreakpointView,
                Seq<char>,
            >(all[i]),
        adapter_breakpoints::breakpoints_of(values) is Err ==> exists|i: int|
            0 <= i < values.len() && adapter_breakpoints::breakpoint_of(#[trigger] values[i]) is Err,
    decreases values.len(),
{
    if values.len() > 0 {
        let rest = values.skip(1);
        lemma_breakpoints_of(rest);
        match adapter_breakpoints::breakpoint_of(values[0]) {
            Err(_) => {},
            Ok(first) => {
                match adapter_breakpoints::breakpoints_of(rest) {
                    Ok(more) => {
                        let all = adapter_breakpoints::breakpoints_of(values)->Ok_0;
                        assert forall|i: int| 0 <= i < values.len() implies adapter_breakpoints::breakpoint_of(
                            #[trigger] values[i],
                        ) == Ok::<SourceBreakpointView, Seq<char>>(all[i]) by {
                            if i > 0 {
                                assert(rest[i - 1] == values[i]);
                                assert(all[i] == more[i - 1]);
                            }
                        }
                    },
                    Err(_) => {
                        let i = choose|i: int|
                            0 <= i < rest.len() && adapter_breakpoints::breakpoint_of(
                                #[trigger] rest[i],
                            ) is Err;
                        assert(values[i + 1] == rest[i]);
                    },
                }
            },
        }
    }
}

/// The breakpoints of a request are taken in the order in which it lists them, all of them, or none
/// where one is not well described.
pub proof fn breakpoints_are_taken_in_order(request: JsonView, values: Seq<JsonView>)
    requires
        request_laws::gives(request, "breakpoints"@, JsonView::Array(values)),
    ensures
        adapter_breakpoints::requested_breakpoints(request) matches Ok(all) ==> all.len()
            == values.len() && forall|i: int|
            0 <= i < values.len() ==> adapter_breakpoints::breakpoint_of(#[trigger] values[i]) == Ok::<
                SourceBreakpointView,
                Seq<char>,
            >(all[i]),
        adapter_breakpoints::requested_breakpoints(request) is Err ==> exists|i: int|
            0 <= i < values.len() && adapter_breakpoints::breakpoint_of(#[trigger] values[i]) is Err,
{
    lemma_breakpoints_of(values);
}

/// What the text of a breakpoint says of its condition.
pub open spec fn condition_text(condition: Option<Seq<char>>) -> Seq<char> {
    match condition {
        Some(condition) => "<breakOnCondition>true</breakOnCondition><condition>"@ + xml::escaped(
            condition,
        ) + "</condition>"@,
        None => "<breakOnCondition>false</breakOnCondition><condition></condition>"@,
    }
}

/// What the text of a breakpoint says of its hit count.
pub open spec fn hit_text(count: Option<i64>) -> Seq<char> {
    match count {
        Some(count) =>
            "<breakOnHitCount>true</breakOnHitCount><hitCountVariant>0</hitCountVariant><hitCount>"@
            + number::decimal(count as int) + "</hitCount>"@,
        None =>
            "<breakOnHitCount>false</breakOnHitCount><hitCountVariant>0</hitCountVariant><hitCount>1</hitCount>"@,
    }
}

/// What the text of a breakpoint says of its log message.
pub open spec fn log_text(message: Option<Seq<char>>) -> Seq<char> {
    match message {
        Some(message) => "<putExpressionResult>"@ + xml::escaped(message)
            + "</putExpressionResult>"@,
        None => "<putExpressionResult></putExpressionResult>"@,
    }
}

/// What the text of a breakpoint says of whether it shows a message, and does not stop.
pub open spec fn shows_text(logs: bool) -> Seq<char> {
    if logs {
        "<showOutputMessage>true</showOutputMessage>"@
    } else {
        "<showOutputMessage>false</showOutputMessage>"@
    }
}

pub open spec fn goes_on_text(logs: bool) -> Seq<char> {
    if logs {
        "<continueExecution>true</continueExecution>"@
    } else {
        "<continueExecution>false</continueExecution>"@
    }
}

/// A text submits a breakpoint: its line, its condition, its hit count, and whether it only logs.
pub open spec fn submits(written: Seq<char>, breakpoint: SourceBreakpointView) -> bool {
    &&& reading::holds(
        written,
        "<line>"@ + number::decimal(breakpoint.line as int) + "</line><isActive>true</isActive>"@,
    )
    &&& reading::holds(written, condition_text(breakpoint.condition))
    &&& reading::holds(written, hit_text(breakpoint.hit_condition))
    &&& reading::holds(written, log_text(breakpoint.log_message))
    &&& reading::holds(written, shows_text(breakpoint.log_message is Some))
    &&& reading::holds(written, goes_on_text(breakpoint.log_message is Some))
}

proof fn lemma_condition(condition: Option<Seq<char>>)
    ensures
        "<breakOnCondition>"@ + debug_requests::bool_text(condition is Some)
            + "</breakOnCondition><condition>"@ + xml::escaped(
            debug_requests::text_or_empty(condition),
        ) + "</condition>"@ == condition_text(condition),
{
    reveal_strlit("<breakOnCondition>");
    reveal_strlit("true");
    reveal_strlit("false");
    reveal_strlit("</breakOnCondition><condition>");
    reveal_strlit("</condition>");
    reveal_strlit("<breakOnCondition>true</breakOnCondition><condition>");
    reveal_strlit("<breakOnCondition>false</breakOnCondition><condition></condition>");
    assert("<breakOnCondition>"@ + debug_requests::bool_text(condition is Some)
        + "</breakOnCondition><condition>"@ + xml::escaped(
        debug_requests::text_or_empty(condition),
    ) + "</condition>"@ =~= condition_text(condition));
}

proof fn lemma_hit(count: Option<i64>)
    ensures
        "<breakOnHitCount>"@ + debug_requests::bool_text(count is Some)
            + "</breakOnHitCount><hitCountVariant>0</hitCountVariant><hitCount>"@ + number::decimal(
            match count {
                Some(count) => count as int,
                None => 1,
            },
        ) + "</hitCount>"@ == hit_text(count),
{
    reveal_strlit("<breakOnHitCount>");
    reveal_strlit("true");
    reveal_strlit("false");
    reveal_strlit("</breakOnHitCount><hitCountVariant>0</hitCountVariant><hitCount>");
    reveal_strlit("</hitCount>");
    reveal_strlit("<breakOnHitCount>true</breakOnHitCount><hitCountVariant>0</hitCountVariant><hitCount>");
    reveal_strlit(
        "<breakOnHitCount>false</breakOnHitCount><hitCountVariant>0</hitCountVariant><hitCount>1</hitCount>",
    );
    assert(number::decimal(1) =~= seq!['1']);
    assert("<breakOnHitCount>"@ + debug_requests::bool_text(count is Some)
        + "</breakOnHitCount><hitCountVariant>0</hitCountVariant><hitCount>"@ + number::decimal(
        match count {
            Some(count) => count as int,
            None => 1,
        },
    ) + "</hitCount>"@ =~= hit_text(count));
}

proof fn lemma_log(message: Option<Seq<char>>)
    ensures
        "<putExpressionResult>"@ + xml::escaped(debug_requests::text_or_empty(message))
            + "</putExpressionResult>"@ == log_text(message),
        "<showOutputMessage>"@ + debug_requests::bool_text(message is Some)
            + "</showOutputMessage>"@ == shows_text(message is Some),
        "<continueExecution>"@ + debug_requests::bool_text(message is Some)
            + "</continueExecution>"@ == goes_on_text(message is Some),
{
    reveal_strlit("<putExpressionResult>");
    reveal_strlit("</putExpressionResult>");
    reveal_strlit("<putExpressionResult></putExpressionResult>");
    reveal_strlit("<showOutputMessage>");
    reveal_strlit("</showOutputMessage>");
    reveal_strlit("<showOutputMessage>true</showOutputMessage>");
    reveal_strlit("<showOutputMessage>false</showOutputMessage>");
    reveal_strlit("<continueExecution>");
    reveal_strlit("</continueExecution>");
    reveal_strlit("<continueExecution>true</continueExecution>");
    reveal_strlit("<continueExecution>false</continueExecution>");
    reveal_strlit("true");
    reveal_strlit("false");
    assert("<putExpressionResult>"@ + xml::escaped(debug_requests::text_or_empty(message))
        + "</putExpressionResult>"@ =~= log_text(message));
    assert("<showOutputMessage>"@ + debug_requests::bool_text(message is Some)
        + "</showOutputMessage>"@ =~= shows_text(message is Some));
    assert("<continueExecution>"@ + debug_requests::bool_text(message is Some)
        + "</continueExecution>"@ =~= goes_on_text(message is Some));
}

proof fn lemma_tags()
    ensures
        "<bpInfo><line>"@ == "<bpInfo>"@ + "<line>"@,
        "</line><isActive>true</isActive><breakOnCondition>"@
            == "</line><isActive>true</isActive>"@ + "<breakOnCondition>"@,
        "</condition><breakOnParentMethod>false</breakOnParentMethod><parentMethod></parentMethod><breakOnHitCount>"@
            == "</condition>"@
            + "<breakOnParentMethod>false</breakOnParentMethod><parentMethod></parentMethod>"@
            + "<breakOnHitCount>"@,
        "</hitCount><showOutputMessage>"@ == "</hitCount>"@ + "<showOutputMessage>"@,
        "</showOutputMessage><putDescription></putDescription><putExpressionResult>"@
            == "</showOutputMessage>"@ + "<putDescription></putDescription>"@
            + "<putExpressionResult>"@,
        "</putExpressionResult><putStackTrace>false</putStackTrace><putHitCount>false</putHitCount><continueExecution>"@
            == "</putExpressionResult>"@
            + "<putStackTrace>false</putStackTrace><putHitCount>false</putHitCount>"@
            + "<continueExecution>"@,
        "</continueExecution><currentHitCounter>0</currentHitCounter><temp>false</temp><user>true</user></bpInfo>"@
            == "</continueExecution>"@
            + "<currentHitCounter>0</currentHitCounter><temp>false</temp><user>true</user></bpInfo>"@,
{
    reveal_strlit("<bpInfo><line>");
    reveal_strlit("<bpInfo>");
    reveal_strlit("<line>");
    assert("<bpInfo><line>"@ =~= "<bpInfo>"@ + "<line>"@);
    reveal_strlit("</line><isActive>true</isActive><breakOnCondition>");
    reveal_strlit("</line><isActive>true</isActive>");
    reveal_strlit("<breakOnCondition>");
    assert("</line><isActive>true</isActive><breakOnCondition>"@
        =~= "</line><isActive>true</isActive>"@ + "<breakOnCondition>"@);
    reveal_strlit("</condition><breakOnParentMethod>false</breakOnParentMethod><parentMethod></parentMethod><breakOnHitCount>");
    reveal_strlit("</condition>");
    reveal_strlit("<breakOnParentMethod>false</breakOnParentMethod><parentMethod></parentMethod>");
    reveal_strlit("<breakOnHitCount>");
    assert("</condition><breakOnParentMethod>false</breakOnParentMethod><parentMethod></parentMethod><breakOnHitCount>"@
        =~= "</condition>"@
        + "<breakOnParentMethod>false</breakOnParentMethod><parentMethod></parentMethod>"@
        + "<breakOnHitCount>"@);
    reveal_strlit("</hitCount><showOutputMessage>");
    reveal_strlit("</hitCount>");
    reveal_strlit("<showOutputMessage>");
    assert("</hitCount><showOutputMessage>"@ =~= "</hitCount>"@ + "<showOutputMessage>"@);
    reveal_strlit("</showOutputMessage><putDescription></putDescription><putExpressionResult>");
    reveal_strlit("</showOutputMessage>");
    reveal_strlit("<putDescription></putDescription>");
    reveal_strlit("<putExpressionResult>");
    assert("</showOutputMessage><putDescription></putDescription><putExpressionResult>"@
        =~= "</showOutputMessage>"@ + "<putDescription></putDescription>"@
        + "<putExpressionResult>"@);
    reveal_strlit("</putExpressionResult><putStackTrace>false</putStackTrace><putHitCount>false</putHitCount><continueExecution>");
    reveal_strlit("</putExpressionResult>");
    reveal_strlit("<putStackTrace>false</putStackTrace><putHitCount>false</putHitCount>");
    reveal_strlit("<continueExecution>");
    assert("</putExpressionResult><putStackTrace>false</putStackTrace><putHitCount>false</putHitCount><continueExecution>"@
        =~= "</putExpressionResult>"@
        + "<putStackTrace>false</putStackTrace><putHitCount>false</putHitCount>"@
        + "<continueExecution>"@);
    reveal_strlit("</continueExecution><currentHitCounter>0</currentHitCounter><temp>false</temp><user>true</user></bpInfo>");
    reveal_strlit("</continueExecution>");
    reveal_strlit("<currentHitCounter>0</currentHitCounter><temp>false</temp><user>true</user></bpInfo>");
    assert("</continueExecution><currentHitCounter>0</currentHitCounter><temp>false</temp><user>true</user></bpInfo>"@
        =~= "</continueExecution>"@
        + "<currentHitCounter>0</currentHitCounter><temp>false</temp><user>true</user></bpInfo>"@);
}

proof fn lemma_regrouped(x: Seq<char>, a: Seq<char>, v: Seq<char>, b: Seq<char>, m: Seq<char>, o: Seq<char>)
    ensures
        x + a + v + (b + m + o) == x + (a + v + b) + m + o,
        x + a + v + (b + o) == x + (a + v + b) + o,
        a + v + (b + o) == (a + v + b) + o,
{
    assert(x + a + v + (b + m + o) =~= x + (a + v + b) + m + o);
    assert(x + a + v + (b + o) =~= x + (a + v + b) + o);
    assert(a + v + (b + o) =~= (a + v + b) + o);
}

proof fn lemma_regrouped_twice(x: Seq<char>, a: Seq<char>, v: Seq<char>, t: Seq<char>, w: Seq<char>, b: Seq<char>, m: Seq<char>, o: Seq<char>)
    ensures
        x + a + v + t + w + (b + m + o) == x + (a + v + t + w + b) + m + o,
        x + a + v + t + w + (b + o) == x + (a + v + t + w + b) + o,
{
    assert(x + a + v + t + w + (b + m + o) =~= x + (a + v + t + w + b) + m + o);
    assert(x + a + v + t + w + (b + o) =~= x + (a + v + t + w + b) + o);
}

/// The text of a breakpoint, put together from what it says.
proof fn lemma_breakpoint_text(b: SourceBreakpointView)
    ensures
        debug_requests::breakpoint_element(b) == "<bpInfo>"@ + ("<line>"@ + number::decimal(
            b.line as int,
        ) + "</line><isActive>true</isActive>"@) + condition_text(b.condition)
            + "<breakOnParentMethod>false</breakOnParentMethod><parentMethod></parentMethod>"@
            + hit_text(b.hit_condition) + shows_text(b.log_message is Some)
            + "<putDescription></putDescription>"@ + log_text(b.log_message)
            + "<putStackTrace>false</putStackTrace><putHitCount>false</putHitCount>"@
            + goes_on_text(b.log_message is Some)
            + "<currentHitCounter>0</currentHitCounter><temp>false</temp><user>true</user></bpInfo>"@,
{
    lemma_tags();
    lemma_condition(b.condition);
    lemma_hit(b.hit_condition);
    lemma_log(b.log_message);
    let line = number::decimal(b.line as int);
    let has_condition = debug_requests::bool_text(b.condition is Some);
    let condition = xml::escaped(debug_requests::text_or_empty(b.condition));
    let has_hits = debug_requests::bool_text(b.hit_condition is Some);
    let hits = number::decimal(debug_requests::hit_count(b));
    let logs = debug_requests::bool_text(b.log_message is Some);
    let message = xml::escaped(debug_requests::text_or_empty(b.log_message));
    let parent = "<breakOnParentMethod>false</breakOnParentMethod><parentMethod></parentMethod>"@;
    let described = "<putDescription></putDescription>"@;
    let stack = "<putStackTrace>false</putStackTrace><putHitCount>false</putHitCount>"@;
    let last = "<currentHitCounter>0</currentHitCounter><temp>false</temp><user>true</user></bpInfo>"@;
    let q1 = "<bpInfo>"@ + ("<line>"@ + line + "</line><isActive>true</isActive>"@);
    lemma_regrouped(
        "<bpInfo>"@,
        "<line>"@,
        line,
        "</line><isActive>true</isActive>"@,
        Seq::empty(),
        "<breakOnCondition>"@,
    );
    let q2 = q1 + condition_text(b.condition) + parent;
    lemma_regrouped_twice(
        q1,
        "<breakOnCondition>"@,
        has_condition,
        "</breakOnCondition><condition>"@,
        condition,
        "</condition>"@,
        parent,
        "<breakOnHitCount>"@,
    );
    let q3 = q2 + hit_text(b.hit_condition);
    lemma_regrouped_twice(
        q2,
        "<breakOnHitCount>"@,
        has_hits,
        "</breakOnHitCount><hitCountVariant>0</hitCountVariant><hitCount>"@,
        hits,
        "</hitCount>"@,
        Seq::empty(),
        "<showOutputMessage>"@,
    );
    let q4 = q3 + shows_text(b.log_message is Some) + described;
    lemma_regrouped(
        q3,
        "<showOutputMessage>"@,
        logs,
        "</showOutputMessage>"@,
        described,
        "<putExpressionResult>"@,
    );
    let q5 = q4 + log_text(b.log_message) + stack;
    lemma_regrouped(
        q4,
        "<putExpressionResult>"@,
        message,
        "</putExpressionResult>"@,
        stack,
        "<continueExecution>"@,
    );
    lemma_regrouped(q5, "<continueExecution>"@, logs, "</continueExecution>"@, Seq::empty(), last);
}

/// A breakpoint is submitted as it is: it stops where its condition holds and its count is reached,
/// and a log message makes it show the message and go on.
pub proof fn breakpoints_are_submitted_as_they_are(breakpoint: SourceBreakpointView)
    ensures
        submits(debug_requests::breakpoint_element(breakpoint), breakpoint),
{
    broadcast use reading::group_holds;

    lemma_breakpoint_text(breakpoint);
}

/// The elements that name a module: whether it belongs to an extension, and to which, and the object
/// and the kind of module that it is.
pub open spec fn module_id_text(extension_name: Seq<char>, object_id: Seq<char>, property_id: Seq<char>) -> Seq<char> {
    (if extension_name.len() > 0 {
        "<type xmlns=\"http://v8.1c.ru/8.3/debugger/debugBaseData\">ExtensionModule</type>"@
    } else {
        "<type xmlns=\"http://v8.1c.ru/8.3/debugger/debugBaseData\">ConfigModule</type>"@
    }) + "<URL xmlns=\"http://v8.1c.ru/8.3/debugger/debugBaseData\"></URL>"@
        + ("<extensionName xmlns=\"http://v8.1c.ru/8.3/debugger/debugBaseData\">"@ + xml::escaped(
        extension_name,
    ) + "</extensionName>"@) + ("<objectID xmlns=\"http://v8.1c.ru/8.3/debugger/debugBaseData\">"@
        + xml::escaped(object_id) + "</objectID>"@) + (
    "<propertyID xmlns=\"http://v8.1c.ru/8.3/debugger/debugBaseData\">"@ + xml::escaped(property_id)
        + "</propertyID>"@)
}

/// A module with its breakpoints.
pub open spec fn module_text(extension_name: Seq<char>, object_id: Seq<char>, property_id: Seq<char>, breakpoints: Seq<SourceBreakpointView>) -> Seq<char> {
    "<moduleBPInfo xmlns=\"http://v8.1c.ru/8.3/debugger/debugBreakpoints\"><id>"@ + module_id_text(
        extension_name,
        object_id,
        property_id,
    ) + "<extId xmlns=\"http://v8.1c.ru/8.3/debugger/debugBaseData\">0</extId></id>"@
        + debug_requests::breakpoint_elements(breakpoints) + "</moduleBPInfo>"@
}

proof fn lemma_base_tag(name: Seq<char>, tag: Seq<char>)
    requires
        tag == "<"@ + name + " xmlns=\"http://v8.1c.ru/8.3/debugger/debugBaseData\">"@,
    ensures
        debug_requests::opening(name, debug_requests::DEBUG_BASE_NAMESPACE@) == tag,
{
    reveal_strlit(" xmlns=\"http://v8.1c.ru/8.3/debugger/debugBaseData\">");
    reveal_strlit(" xmlns=\"");
    reveal_strlit("http://v8.1c.ru/8.3/debugger/debugBaseData");
    reveal_strlit("\">");
    assert(debug_requests::opening(name, debug_requests::DEBUG_BASE_NAMESPACE@) =~= tag);
}

proof fn lemma_module_tags()
    ensures
        debug_requests::opening("URL"@, debug_requests::DEBUG_BASE_NAMESPACE@) + "</URL>"@
            == "<URL xmlns=\"http://v8.1c.ru/8.3/debugger/debugBaseData\"></URL>"@,
        debug_requests::opening("extensionName"@, debug_requests::DEBUG_BASE_NAMESPACE@)
            == "<extensionName xmlns=\"http://v8.1c.ru/8.3/debugger/debugBaseData\">"@,
        debug_requests::opening("objectID"@, debug_requests::DEBUG_BASE_NAMESPACE@)
            == "<objectID xmlns=\"http://v8.1c.ru/8.3/debugger/debugBaseData\">"@,
        debug_requests::opening("propertyID"@, debug_requests::DEBUG_BASE_NAMESPACE@)
            == "<propertyID xmlns=\"http://v8.1c.ru/8.3/debugger/debugBaseData\">"@,
        debug_requests::opening("extId"@, debug_requests::DEBUG_BASE_NAMESPACE@)
            + "0</extId></id>"@
            == "<extId xmlns=\"http://v8.1c.ru/8.3/debugger/debugBaseData\">0</extId></id>"@,
        debug_requests::opening("moduleBPInfo"@, debug_requests::BREAKPOINTS_NAMESPACE@) + "<id>"@
            == "<moduleBPInfo xmlns=\"http://v8.1c.ru/8.3/debugger/debugBreakpoints\"><id>"@,
{
    reveal_strlit("<");
    reveal_strlit(" xmlns=\"http://v8.1c.ru/8.3/debugger/debugBaseData\">");
    reveal_strlit("URL");
    reveal_strlit("</URL>");
    reveal_strlit("<URL xmlns=\"http://v8.1c.ru/8.3/debugger/debugBaseData\"></URL>");
    let url = "<"@ + "URL"@ + " xmlns=\"http://v8.1c.ru/8.3/debugger/debugBaseData\">"@;
    lemma_base_tag("URL"@, url);
    assert(url + "</URL>"@
        =~= "<URL xmlns=\"http://v8.1c.ru/8.3/debugger/debugBaseData\"></URL>"@);
    reveal_strlit("extensionName");
    reveal_strlit("<extensionName xmlns=\"http://v8.1c.ru/8.3/debugger/debugBaseData\">");
    assert("<extensionName xmlns=\"http://v8.1c.ru/8.3/debugger/debugBaseData\">"@ =~= "<"@
        + "extensionName"@ + " xmlns=\"http://v8.1c.ru/8.3/debugger/debugBaseData\">"@);
    lemma_base_tag(
        "extensionName"@,
        "<extensionName xmlns=\"http://v8.1c.ru/8.3/debugger/debugBaseData\">"@,
    );
    reveal_strlit("objectID");
    reveal_strlit("<objectID xmlns=\"http://v8.1c.ru/8.3/debugger/debugBaseData\">");
    assert("<objectID xmlns=\"http://v8.1c.ru/8.3/debugger/debugBaseData\">"@ =~= "<"@
        + "objectID"@ + " xmlns=\"http://v8.1c.ru/8.3/debugger/debugBaseData\">"@);
    lemma_base_tag(
        "objectID"@,
        "<objectID xmlns=\"http://v8.1c.ru/8.3/debugger/debugBaseData\">"@,
    );
    reveal_strlit("propertyID");
    reveal_strlit("<propertyID xmlns=\"http://v8.1c.ru/8.3/debugger/debugBaseData\">");
    assert("<propertyID xmlns=\"http://v8.1c.ru/8.3/debugger/debugBaseData\">"@ =~= "<"@
        + "propertyID"@ + " xmlns=\"http://v8.1c.ru/8.3/debugger/debugBaseData\">"@);
    lemma_base_tag(
        "propertyID"@,
        "<propertyID xmlns=\"http://v8.1c.ru/8.3/debugger/debugBaseData\">"@,
    );
    reveal_strlit("extId");
    reveal_strlit("0</extId></id>");
    reveal_strlit("<extId xmlns=\"http://v8.1c.ru/8.3/debugger/debugBaseData\">0</extId></id>");
    let ext = "<"@ + "extId"@ + " xmlns=\"http://v8.1c.ru/8.3/debugger/debugBaseData\">"@;
    lemma_base_tag("extId"@, ext);
    assert(ext + "0</extId></id>"@
        =~= "<extId xmlns=\"http://v8.1c.ru/8.3/debugger/debugBaseData\">0</extId></id>"@);
    reveal_strlit("moduleBPInfo");
    reveal_strlit(" xmlns=\"");
    reveal_strlit("http://v8.1c.ru/8.3/debugger/debugBreakpoints");
    reveal_strlit("\">");
    reveal_strlit("<id>");
    reveal_strlit("<moduleBPInfo xmlns=\"http://v8.1c.ru/8.3/debugger/debugBreakpoints\"><id>");
    assert(debug_requests::opening("moduleBPInfo"@, debug_requests::BREAKPOINTS_NAMESPACE@)
        + "<id>"@
        =~= "<moduleBPInfo xmlns=\"http://v8.1c.ru/8.3/debugger/debugBreakpoints\"><id>"@);
}

proof fn lemma_module_type(extension_name: Seq<char>)
    ensures
        debug_requests::opening("type"@, debug_requests::DEBUG_BASE_NAMESPACE@)
            + debug_requests::module_type(extension_name) + "</type>"@ == if extension_name.len()
            > 0 {
            "<type xmlns=\"http://v8.1c.ru/8.3/debugger/debugBaseData\">ExtensionModule</type>"@
        } else {
            "<type xmlns=\"http://v8.1c.ru/8.3/debugger/debugBaseData\">ConfigModule</type>"@
        },
{
    reveal_strlit("<");
    reveal_strlit("type");
    reveal_strlit(" xmlns=\"http://v8.1c.ru/8.3/debugger/debugBaseData\">");
    reveal_strlit("ConfigModule");
    reveal_strlit("ExtensionModule");
    reveal_strlit("</type>");
    reveal_strlit("<type xmlns=\"http://v8.1c.ru/8.3/debugger/debugBaseData\">ExtensionModule</type>");
    reveal_strlit("<type xmlns=\"http://v8.1c.ru/8.3/debugger/debugBaseData\">ConfigModule</type>");
    let tag = "<"@ + "type"@ + " xmlns=\"http://v8.1c.ru/8.3/debugger/debugBaseData\">"@;
    lemma_base_tag("type"@, tag);
    assert(tag + "ExtensionModule"@ + "</type>"@
        =~= "<type xmlns=\"http://v8.1c.ru/8.3/debugger/debugBaseData\">ExtensionModule</type>"@);
    assert(tag + "ConfigModule"@ + "</type>"@
        =~= "<type xmlns=\"http://v8.1c.ru/8.3/debugger/debugBaseData\">ConfigModule</type>"@);
}

proof fn lemma_grouped(x: Seq<char>, a: Seq<char>, b: Seq<char>, c: Seq<char>)
    ensures
        x + a + b + c == x + (a + b + c),
        x + a + b == x + (a + b),
{
    assert(x + a + b + c =~= x + (a + b + c));
    assert(x + a + b =~= x + (a + b));
}

/// A module is submitted by its identity, with its breakpoints, one after the other in their order.
pub proof fn modules_are_submitted_with_their_breakpoints(module: ModuleBreakpointsView, breakpoints: Seq<SourceBreakpointView>, last: SourceBreakpointView)
    ensures
        debug_requests::module_element(module) == module_text(
            module.extension_name,
            module.object_id,
            module.property_id,
            module.breakpoints,
        ),
        debug_requests::breakpoint_elements(Seq::empty()) == Seq::<char>::empty(),
        debug_requests::breakpoint_elements(breakpoints.push(last))
            == debug_requests::breakpoint_elements(breakpoints)
            + debug_requests::breakpoint_element(last),
{
    lemma_module_tags();
    lemma_module_type(module.extension_name);
    let base = debug_requests::DEBUG_BASE_NAMESPACE@;
    let opened = "<moduleBPInfo xmlns=\"http://v8.1c.ru/8.3/debugger/debugBreakpoints\"><id>"@;
    let kind = debug_requests::opening("type"@, base) + debug_requests::module_type(
        module.extension_name,
    ) + "</type>"@;
    lemma_grouped(
        opened,
        debug_requests::opening("type"@, base),
        debug_requests::module_type(module.extension_name),
        "</type>"@,
    );
    let url = "<URL xmlns=\"http://v8.1c.ru/8.3/debugger/debugBaseData\"></URL>"@;
    let a = opened + kind;
    lemma_grouped(a, debug_requests::opening("URL"@, base), "</URL>"@, Seq::empty());
    let b = a + url;
    let extension = "<extensionName xmlns=\"http://v8.1c.ru/8.3/debugger/debugBaseData\">"@
        + xml::escaped(module.extension_name) + "</extensionName>"@;
    lemma_grouped(
        b,
        "<extensionName xmlns=\"http://v8.1c.ru/8.3/debugger/debugBaseData\">"@,
        xml::escaped(module.extension_name),
        "</extensionName>"@,
    );
    let c = b + extension;
    let object = "<objectID xmlns=\"http://v8.1c.ru/8.3/debugger/debugBaseData\">"@
        + xml::escaped(module.object_id) + "</objectID>"@;
    lemma_grouped(
        c,
        "<objectID xmlns=\"http://v8.1c.ru/8.3/debugger/debugBaseData\">"@,
        xml::escaped(module.object_id),
        "</objectID>"@,
    );
    let d = c + object;
    let property = "<propertyID xmlns=\"http://v8.1c.ru/8.3/debugger/debugBaseData\">"@
        + xml::escaped(module.property_id) + "</propertyID>"@;
    lemma_grouped(
        d,
        "<propertyID xmlns=\"http://v8.1c.ru/8.3/debugger/debugBaseData\">"@,
        xml::escaped(module.property_id),
        "</propertyID>"@,
    );
    let e = d + property;
    lemma_grouped(e, debug_requests::opening("extId"@, base), "0</extId></id>"@, Seq::empty());
    assert(e =~= opened + (kind + url + extension + object + property));
    let f = |breakpoint: SourceBreakpointView| debug_requests::breakpoint_element(breakpoint);
    assert(Seq::<SourceBreakpointView>::empty().map_values(f) =~= Seq::empty());
    assert(breakpoints.push(last).map_values(f) =~= breakpoints.map_values(f).push(
        debug_requests::breakpoint_element(last),
    ));
    assert(breakpoints.map_values(f).push(debug_requests::breakpoint_element(last)).drop_last()
        =~= breakpoints.map_values(f));
}

/// `setBreakpoints` looks for the file that its source names, where the sources are known; without a
/// path, or without sources, it is refused.
pub proof fn breakpoints_are_looked_for_by_their_path(s: AdapterView, request: JsonView, id: Seq<char>, path: Seq<char>)
    requires
        request_laws::commands(request, "setBreakpoints"@),
    ensures
        ({
            let step = adapter_requests::handled(s, request, id);
            let source = json::field(json::field(request, "arguments"@), "source"@);
            &&& json::field(source, "path"@) == JsonView::Str(path) && path.len() > 0
                && s.module_registry is Some ==> step.0 == s && step.1.outputs.len() == 0
                && step.1.next == NextView::ResolveSource(request, path)
            &&& json::field(source, "path"@) == JsonView::Str(path) && path.len() > 0
                && s.module_registry is None ==> answer_laws::refuses(
                step,
                request,
                "setBreakpoints requires rootProject in the launch configuration"@,
            )
            &&& !(json::field(source, "path"@) is Str) || json::field(source, "path"@)
                == JsonView::Str(Seq::empty()) ==> answer_laws::refuses(
                step,
                request,
                "setBreakpoints requires arguments.source.path"@,
            )
        }),
{
    request_laws::lemma_commands();
    answer_laws::lemma_answers(
        s,
        request,
        JsonView::Null,
        "setBreakpoints requires rootProject in the launch configuration"@,
    );
    answer_laws::lemma_answers(
        s,
        request,
        JsonView::Null,
        "setBreakpoints requires arguments.source.path"@,
    );
}

proof fn lemma_module_held(modules: Seq<ModuleBreakpointsView>, i: int)
    requires
        0 <= i < modules.len(),
    ensures
        reading::holds(
            debug_requests::module_elements(modules),
            debug_requests::module_element(modules[i]),
        ),
    decreases modules.len(),
{
    broadcast use reading::group_holds;

    let f = |module: ModuleBreakpointsView| debug_requests::module_element(module);
    let before = modules.drop_last();
    assert(modules.map_values(f).drop_last() =~= before.map_values(f));
    assert(modules.map_values(f).last() == debug_requests::module_element(modules.last()));
    if i < before.len() {
        lemma_module_held(before, i);
        assert(before[i] == modules[i]);
    }
}

/// A module of the map with a value.
proof fn lemma_entry(entries: Seq<((Seq<char>, Seq<char>, Seq<char>), Seq<SourceBreakpointView>)>, key: (Seq<char>, Seq<char>, Seq<char>)) -> (i: int)
    requires
        ordered::lookup(entries, key) is Some,
    ensures
        0 <= i < entries.len(),
        entries[i].0 == key,
        entries[i].1 == ordered::lookup(entries, key)->0,
{
    choose|i: int|
        0 <= i < entries.len() && (#[trigger] entries[i]).0 == key && entries[i].1
            == ordered::lookup(entries, key)->0
}

/// The breakpoints of a file are submitted for the module that the file holds, as the request lists
/// them, together with those of every other module, which stay what they were.
pub proof fn breakpoints_reach_their_module(
    s: AdapterView,
    request: JsonView,
    path: Seq<char>,
    canonical: Seq<char>,
    module: ModuleInfoView,
    breakpoints: Seq<SourceBreakpointView>,
    other: (Seq<char>, Seq<char>, Seq<char>),
)
    requires
        request_laws::is_attached(s),
        s.module_registry is Some,
        ordered::lookup(s.module_registry->0.by_path, canonical) == Some(module),
        adapter_breakpoints::requested_breakpoints(request) == Ok::<
            Seq<SourceBreakpointView>,
            Seq<char>,
        >(breakpoints),
        ordered::sorted::<(String, String, String), Seq<SourceBreakpointView>>(
            s.module_breakpoints,
        ),
    ensures
        ({
            let step = adapter_breakpoints::breakpoints_resolved(s, request, path, Some(canonical));
            let own = (module.extension_name, module.object_id, module.property_id);
            &&& request_laws::sends(step.1, s.debug_server->0, "setBreakpoints"@)
            &&& request_laws::sends_text(step.1, request_laws::session_text(s.debug_session->0))
            &&& request_laws::sends_text(
                step.1,
                module_text(
                    module.extension_name,
                    module.object_id,
                    module.property_id,
                    breakpoints,
                ),
            )
            &&& other != own && ordered::lookup(s.module_breakpoints, other) is Some
                ==> request_laws::sends_text(
                step.1,
                module_text(
                    other.0,
                    other.1,
                    other.2,
                    ordered::lookup(s.module_breakpoints, other)->0,
                ),
            )
            &&& ordered::lookup(step.0.module_breakpoints, own) == Some(breakpoints)
            &&& other != own ==> ordered::lookup(step.0.module_breakpoints, other)
                == ordered::lookup(s.module_breakpoints, other)
            &&& step.1.next->Send_1 == (ReasonView::SetBreakpoints { request, path, breakpoints })
            &&& step.1.outputs.len() == 0
        }),
{
    let own = (module.extension_name, module.object_id, module.property_id);
    let step = adapter_breakpoints::breakpoints_resolved(s, request, path, Some(canonical));
    let entries = step.0.module_breakpoints;
    ordered::lemma_inserted::<(String, String, String), Seq<SourceBreakpointView>>(
        s.module_breakpoints,
        own,
        breakpoints,
    );
    let modules = adapter_breakpoints::workspace(entries);
    let content = debug_requests::breakpoints_content(modules);
    request_laws::lemma_post(
        s.debug_server->0,
        "setBreakpoints"@,
        s.debug_session->0,
        content,
        step.1,
    );
    let i = lemma_entry(entries, own);
    lemma_submitted(content, modules, i);
    let body = request_laws::sent(step.1).body->0;
    request_laws::lemma_holds_within(
        body,
        content,
        module_text(module.extension_name, module.object_id, module.property_id, breakpoints),
    );
    if other != own && ordered::lookup(s.module_breakpoints, other) is Some {
        let k = lemma_entry(entries, other);
        lemma_submitted(content, modules, k);
        request_laws::lemma_holds_within(
            body,
            content,
            module_text(
                other.0,
                other.1,
                other.2,
                ordered::lookup(s.module_breakpoints, other)->0,
            ),
        );
    }
}

proof fn lemma_submitted(content: Seq<char>, modules: Seq<ModuleBreakpointsView>, i: int)
    requires
        0 <= i < modules.len(),
        content == debug_requests::breakpoints_content(modules),
    ensures
        reading::holds(
            content,
            module_text(
                modules[i].extension_name,
                modules[i].object_id,
                modules[i].property_id,
                modules[i].breakpoints,
            ),
        ),
{
    broadcast use reading::group_holds;

    lemma_module_held(modules, i);
    modules_are_submitted_with_their_breakpoints(modules[i], Seq::empty(), arbitrary());
}

/// A file that cannot be resolved, or that holds no module, is refused, and so are breakpoints that
/// are not well described; nothing is submitted then.
pub proof fn other_files_take_no_breakpoints(s: AdapterView, request: JsonView, path: Seq<char>, canonical: Option<Seq<char>>)
    requires
        s.module_registry is Some,
    ensures
        ({
            let step = adapter_breakpoints::breakpoints_resolved(s, request, path, canonical);
            &&& canonical is None ==> answer_laws::refuses(
                step,
                request,
                "cannot resolve source path "@ + path,
            ) && step.0 == adapter::counted(s, 1)
            &&& canonical is Some && ordered::lookup(s.module_registry->0.by_path, canonical->0)
                is None ==> answer_laws::refuses(
                step,
                request,
                "the BSL file "@ + path + " is not a known configuration module"@,
            ) && step.0 == adapter::counted(s, 1)
            &&& canonical is Some && ordered::lookup(s.module_registry->0.by_path, canonical->0)
                is Some && adapter_breakpoints::requested_breakpoints(request) is Err
                ==> answer_laws::refuses(
                step,
                request,
                adapter_breakpoints::requested_breakpoints(request)->Err_0,
            ) && step.0 == adapter::counted(s, 1)
        }),
{
    answer_laws::lemma_answers(s, request, JsonView::Null, metadata::unresolved_source(path));
    answer_laws::lemma_answers(s, request, JsonView::Null, metadata::unknown_source(path));
    if adapter_breakpoints::requested_breakpoints(request) is Err {
        answer_laws::lemma_answers(
            s,
            request,
            JsonView::Null,
            adapter_breakpoints::requested_breakpoints(request)->Err_0,
        );
    }
}

/// The answer to `setBreakpoints` lists every breakpoint in its order, as verified, with its line
/// and the path of the request.
pub proof fn set_breakpoints_are_verified(s: AdapterView, request: JsonView, path: Seq<char>, breakpoints: Seq<SourceBreakpointView>, reply: HttpReplyView, id: Seq<char>)
    ensures
        ({
            let step = adapter_requests::replied_to(
                s,
                ReasonView::SetBreakpoints { request, path, breakpoints },
                reply,
                id,
            );
            let body = json::field(step.1.outputs[0]->Message_0, "body"@);
            let listed = json::field(body, "breakpoints"@);
            &&& reply is Answered ==> {
                &&& answer_laws::answers(step, request, body)
                &&& listed is Array
                &&& listed->Array_0.len() == breakpoints.len()
                &&& forall|i: int|
                    0 <= i < breakpoints.len() ==> json::field(
                        #[trigger] listed->Array_0[i],
                        "verified"@,
                    ) == JsonView::Bool(true) && json::field(listed->Array_0[i], "line"@)
                        == JsonView::Integer(breakpoints[i].line as int) && json::field(
                        json::field(listed->Array_0[i], "source"@),
                        "path"@,
                    ) == JsonView::Str(path)
            }
            &&& reply is Failed || reply is TimedOut ==> answer_laws::refuses(
                step,
                request,
                "1C debug server request `"@ + "setBreakpoints"@ + "` failed"@,
            )
        }),
{
    let body = adapter_breakpoints::breakpoints_body(path, breakpoints);
    answer_laws::lemma_answers(
        s,
        request,
        body,
        debug_server::request_failed("setBreakpoints"@),
    );
    reading::lemma_names();
    reading::lemma_field(body->Object_0, 0);
    let listed = json::field(body, "breakpoints"@);
    assert forall|i: int| 0 <= i < breakpoints.len() implies json::field(
        #[trigger] listed->Array_0[i],
        "verified"@,
    ) == JsonView::Bool(true) && json::field(listed->Array_0[i], "line"@) == JsonView::Integer(
        breakpoints[i].line as int,
    ) && json::field(json::field(listed->Array_0[i], "source"@), "path"@) == JsonView::Str(path) by {
        let shown = adapter_breakpoints::verified_breakpoint(path, breakpoints[i]);
        assert(listed->Array_0[i] == shown);
        reading::lemma_field(shown->Object_0, 0);
        reading::lemma_field(shown->Object_0, 1);
        reading::lemma_field(shown->Object_0, 2);
        reading::lemma_field(adapter_frames::source_body(path)->Object_0, 0);
    }
}

/// How runtime errors are handled: whether they stop a target, and which of them.
pub open spec fn errors_text(stops: bool, template: Seq<char>) -> Seq<char> {
    (if stops {
        "<stopOnErrors>true</stopOnErrors>"@
    } else {
        "<stopOnErrors>false</stopOnErrors>"@
    }) + (if template.len() > 0 {
        "<analyzeErrorStr>true</analyzeErrorStr><strTemplate><include>true</include><str>"@
            + xml::escaped(template) + "</str></strTemplate>"@
    } else {
        "<analyzeErrorStr>false</analyzeErrorStr>"@
    })
}

proof fn lemma_errors_text(stops: bool, template: Option<Seq<char>>)
    ensures
        reading::holds(
            debug_requests::runtime_error_content(stops, template),
            errors_text(stops, debug_requests::text_or_empty(template)),
        ),
{
    broadcast use reading::group_holds;

    let wanted = debug_requests::text_or_empty(template);
    let head = debug_requests::opening("state"@, debug_requests::RTE_FILTER_NAMESPACE@);
    reveal_strlit("<stopOnErrors>");
    reveal_strlit("true");
    reveal_strlit("false");
    reveal_strlit("</stopOnErrors><analyzeErrorStr>");
    reveal_strlit("</analyzeErrorStr>");
    reveal_strlit("<strTemplate><include>true</include><str>");
    reveal_strlit("<stopOnErrors>true</stopOnErrors>");
    reveal_strlit("<stopOnErrors>false</stopOnErrors>");
    reveal_strlit("<analyzeErrorStr>false</analyzeErrorStr>");
    reveal_strlit(
        "<analyzeErrorStr>true</analyzeErrorStr><strTemplate><include>true</include><str>",
    );
    let text = "<stopOnErrors>"@ + debug_requests::bool_text(stops)
        + "</stopOnErrors><analyzeErrorStr>"@ + debug_requests::bool_text(wanted.len() > 0)
        + "</analyzeErrorStr>"@ + debug_requests::template_element(wanted);
    assert(text =~= errors_text(stops, wanted));
    assert(debug_requests::runtime_error_content(stops, template) =~= head + text + "</state>"@);
}

proof fn lemma_first_condition(options: Seq<JsonView>, k: int)
    requires
        0 <= k < options.len(),
        json::field(options[k], "condition"@) is Str,
        forall|i: int|
            0 <= i < k ==> !(json::field(#[trigger] options[i], "condition"@) is Str),
    ensures
        adapter_breakpoints::first_condition(options) == Some(
            json::field(options[k], "condition"@)->Str_0,
        ),
    decreases k,
{
    if k > 0 {
        let rest = options.skip(1);
        assert(!(json::field(options[0], "condition"@) is Str));
        assert(rest[k - 1] == options[k]);
        assert forall|i: int| 0 <= i < k - 1 implies !(json::field(#[trigger] rest[i], "condition"@)
            is Str) by {
            assert(rest[i] == options[i + 1]);
        }
        lemma_first_condition(rest, k - 1);
    }
}

proof fn lemma_no_condition(options: Seq<JsonView>)
    requires
        forall|i: int|
            0 <= i < options.len() ==> !(json::field(#[trigger] options[i], "condition"@) is Str),
    ensures
        adapter_breakpoints::first_condition(options) is None,
    decreases options.len(),
{
    if options.len() > 0 {
        let rest = options.skip(1);
        assert(!(json::field(options[0], "condition"@) is Str));
        assert forall|i: int| 0 <= i < rest.len() implies !(json::field(
            #[trigger] rest[i],
            "condition"@,
        ) is Str) by {
            assert(rest[i] == options[i + 1]);
        }
        lemma_no_condition(rest);
    }
}

/// `setExceptionBreakpoints` lets runtime errors stop a target where a filter or a filter option is
/// given, and only those with the first condition among the options where there is one.
pub proof fn errors_stop_where_asked_for(s: AdapterView, request: JsonView, id: Seq<char>, filters: Seq<JsonView>, options: Seq<JsonView>, k: int)
    requires
        request_laws::commands(request, "setExceptionBreakpoints"@),
        request_laws::is_attached(s),
        match json::field(json::field(request, "arguments"@), "filters"@) {
            JsonView::Array(items) => filters == items,
            _ => filters.len() == 0,
        },
        match json::field(json::field(request, "arguments"@), "filterOptions"@) {
            JsonView::Array(items) => options == items,
            _ => options.len() == 0,
        },
        0 <= k <= options.len(),
        k < options.len() ==> json::field(options[k], "condition"@) is Str,
        forall|i: int| 0 <= i < k ==> !(json::field(#[trigger] options[i], "condition"@) is Str),
    ensures
        ({
            let step = adapter_requests::handled(s, request, id);
            let template = if k < options.len() {
                json::field(options[k], "condition"@)->Str_0
            } else {
                Seq::empty()
            };
            &&& step.0 == s
            &&& step.1.outputs.len() == 0
            &&& request_laws::sends(step.1, s.debug_server->0, "setBreakOnRTE"@)
            &&& request_laws::sends_text(step.1, request_laws::session_text(s.debug_session->0))
            &&& request_laws::sends_text(
                step.1,
                errors_text(filters.len() > 0 || options.len() > 0, template),
            )
            &&& step.1.next->Send_1 == ReasonView::SetExceptionBreakpoints(request)
        }),
{
    request_laws::lemma_commands();
    let step = adapter_requests::handled(s, request, id);
    let asked = adapter_breakpoints::items_or_none(json::argument(request, "filters"@));
    let given = adapter_breakpoints::items_or_none(json::argument(request, "filterOptions"@));
    assert(asked =~= filters);
    assert(given =~= options);
    if k < options.len() {
        lemma_first_condition(options, k);
    } else {
        lemma_no_condition(options);
    }
    let stops = filters.len() > 0 || options.len() > 0;
    let template = adapter_breakpoints::error_template(options);
    let content = debug_requests::runtime_error_content(stops, template);
    request_laws::lemma_post(
        s.debug_server->0,
        "setBreakOnRTE"@,
        s.debug_session->0,
        content,
        step.1,
    );
    lemma_errors_text(stops, template);
    let expected = if k < options.len() {
        json::field(options[k], "condition"@)->Str_0
    } else {
        Seq::empty()
    };
    assert(debug_requests::text_or_empty(template) =~= expected);
    request_laws::lemma_holds_within(
        request_laws::sent(step.1).body->0,
        content,
        errors_text(stops, expected),
    );
}

/// The answer to `setExceptionBreakpoints` has one verified breakpoint.
pub proof fn error_stops_are_verified(s: AdapterView, request: JsonView, reply: HttpReplyView, id: Seq<char>)
    ensures
        ({
            let step = adapter_requests::replied_to(
                s,
                ReasonView::SetExceptionBreakpoints(request),
                reply,
                id,
            );
            let body = json::field(step.1.outputs[0]->Message_0, "body"@);
            let listed = json::field(body, "breakpoints"@);
            &&& reply is Answered ==> answer_laws::answers(step, request, body) && listed is Array
                && listed->Array_0.len() == 1 && json::field(listed->Array_0[0], "verified"@)
                == JsonView::Bool(true)
            &&& reply is Failed || reply is TimedOut ==> answer_laws::refuses(
                step,
                request,
                "1C debug server request `"@ + "setBreakOnRTE"@ + "` failed"@,
            )
        }),
{
    let body = adapter_breakpoints::exception_breakpoints_body();
    answer_laws::lemma_answers(s, request, body, debug_server::request_failed("setBreakOnRTE"@));
    reading::lemma_names();
    reading::lemma_field(body->Object_0, 0);
    reading::lemma_field(json::field(body, "breakpoints"@)->Array_0[0]->Object_0, 0);
}

} // verus!
