//! Writing of the XML requests to the 1C debug server.

use crate::debug_types::{
    CalculationPathItem, CalculationPathItemView, DebugUiSession, DebugUiSessionView,
    EvaluationInterface, ModuleBreakpoints, ModuleBreakpointsView, SourceBreakpoint,
    SourceBreakpointView, StepAction,
};
use crate::number;
use crate::number::decimal_i64;
use crate::text::{copy, same};
use crate::xml;
use crate::xml::xml_escape;
use vstd::prelude::*;

verus! {

pub const RDBG_REQUEST_NAMESPACE: &'static str = "http://v8.1c.ru/8.3/debugger/debugRDBGRequestResponse";

pub const AUTO_ATTACH_NAMESPACE: &'static str = "http://v8.1c.ru/8.3/debugger/debugAutoAttach";

pub const BREAKPOINTS_NAMESPACE: &'static str = "http://v8.1c.ru/8.3/debugger/debugBreakpoints";

pub const DEBUG_BASE_NAMESPACE: &'static str = "http://v8.1c.ru/8.3/debugger/debugBaseData";

pub const DEBUG_CALCULATIONS_NAMESPACE: &'static str = "http://v8.1c.ru/8.3/debugger/debugCalculations";

pub const RTE_FILTER_NAMESPACE: &'static str = "http://v8.1c.ru/8.3/debugger/debugRTEFilter";

/// Texts one after the other.
pub open spec fn joined(parts: Seq<Seq<char>>) -> Seq<char>
    decreases parts.len(),
{
    if parts.len() == 0 {
        Seq::empty()
    } else {
        joined(parts.drop_last()) + parts.last()
    }
}

/// An opening tag with a namespace.
pub open spec fn opening(name: Seq<char>, namespace: Seq<char>) -> Seq<char> {
    "<"@ + name + " xmlns=\""@ + namespace + "\">"@
}

fn opening_tag(name: &str, namespace: &str) -> (r: String)
    ensures
        r@ == opening(name@, namespace@),
{
    let mut out = copy("<");
    out.append(name);
    out.append(" xmlns=\"");
    out.append(namespace);
    out.append("\">");
    out
}

pub open spec fn bool_text(value: bool) -> Seq<char> {
    if value {
        "true"@
    } else {
        "false"@
    }
}

fn bool_name(value: bool) -> (r: &'static str)
    ensures
        r@ == bool_text(value),
{
    if value {
        "true"
    } else {
        "false"
    }
}

/// The beginning of every request: it names the infobase and the Debug UI.
pub open spec fn request_head(session: DebugUiSessionView) -> Seq<char> {
    "<?xml version=\"1.0\" encoding=\"utf-8\"?>"@ + opening("request"@, RDBG_REQUEST_NAMESPACE@)
        + "<infoBaseAlias>"@ + xml::escaped(session.info_base_alias)
        + "</infoBaseAlias><idOfDebuggerUI>"@ + xml::escaped(session.id) + "</idOfDebuggerUI>"@
}

fn head(session: &DebugUiSession) -> (r: String)
    ensures
        r@ == request_head(session.deep_view()),
{
    let mut out = copy("<?xml version=\"1.0\" encoding=\"utf-8\"?>");
    let tag = opening_tag("request", RDBG_REQUEST_NAMESPACE);
    let alias = xml_escape(session.info_base_alias());
    let id = xml_escape(session.id());
    out.append(tag.as_str());
    out.append("<infoBaseAlias>");
    out.append(alias.as_str());
    out.append("</infoBaseAlias><idOfDebuggerUI>");
    out.append(id.as_str());
    out.append("</idOfDebuggerUI>");
    out
}

/// A request with the given content behind its beginning.
pub open spec fn request(session: DebugUiSessionView, content: Seq<char>) -> Seq<char> {
    request_head(session) + content + "</request>"@
}

fn request_with(session: &DebugUiSession, content: &str) -> (r: String)
    ensures
        r@ == request(session.deep_view(), content@),
{
    let mut out = head(session);
    out.append(content);
    out.append("</request>");
    out
}

pub open spec fn attach_content() -> Seq<char> {
    "<userName></userName><credentials></credentials><options><foregroundAbility>true</foregroundAbility></options>"@
}

/// The request that registers a Debug UI.
pub fn attach_debug_ui_request(session: &DebugUiSession) -> (r: String)
    ensures
        r@ == request(session.deep_view(), attach_content()),
{
    request_with(
        session,
        "<userName></userName><credentials></credentials><options><foregroundAbility>true</foregroundAbility></options>",
    )
}

/// The request without content of its own.
pub fn base_request(session: &DebugUiSession) -> (r: String)
    ensures
        r@ == request(session.deep_view(), Seq::empty()),
{
    let r = request_with(session, "");
    proof {
        reveal_strlit("");
        assert(""@ =~= Seq::<char>::empty());
    }
    r
}

/// The spelling that the debug server has for a kind of target.
pub open spec fn target_type_value(target_type: Seq<char>) -> Option<Seq<char>> {
    if target_type == "Client"@ || target_type == "ManagedClient"@ || target_type == "Server"@
        || target_type == "ServerEmulation"@ || target_type == "OData"@ || target_type
        == "JobFileMode"@ || target_type == "MobileClient"@ || target_type == "MobileServer"@
        || target_type == "MobileJobFileMode"@ || target_type == "MobileManagedClient"@
        || target_type == "MobileManagedServer"@ {
        Some(target_type)
    } else if target_type == "WebClient"@ {
        Some("WEBClient"@)
    } else if target_type == "ComConnector"@ {
        Some("COMConnector"@)
    } else if target_type == "WebService"@ {
        Some("WEBService"@)
    } else if target_type == "HttpService"@ {
        Some("HTTPService"@)
    } else if target_type == "Job"@ {
        Some("JOB"@)
    } else {
        None
    }
}

pub open spec fn unsupported_type(target_type: Seq<char>) -> Seq<char> {
    "unsupported autoAttachTypes value `"@ + target_type + "`"@
}

/// The debug server's spelling of a kind of target.
pub fn debug_target_type_xml_value(target_type: &str) -> (r: Result<&'static str, String>)
    ensures
        match r {
            Ok(value) => target_type_value(target_type@) == Some(value@),
            Err(message) => target_type_value(target_type@) is None && message@ == unsupported_type(
                target_type@,
            ),
        },
{
    if same(target_type, "Client") {
        Ok("Client")
    } else if same(target_type, "ManagedClient") {
        Ok("ManagedClient")
    } else if same(target_type, "Server") {
        Ok("Server")
    } else if same(target_type, "ServerEmulation") {
        Ok("ServerEmulation")
    } else if same(target_type, "OData") {
        Ok("OData")
    } else if same(target_type, "JobFileMode") {
        Ok("JobFileMode")
    } else if same(target_type, "MobileClient") {
        Ok("MobileClient")
    } else if same(target_type, "MobileServer") {
        Ok("MobileServer")
    } else if same(target_type, "MobileJobFileMode") {
        Ok("MobileJobFileMode")
    } else if same(target_type, "MobileManagedClient") {
        Ok("MobileManagedClient")
    } else if same(target_type, "MobileManagedServer") {
        Ok("MobileManagedServer")
    } else if same(target_type, "WebClient") {
        Ok("WEBClient")
    } else if same(target_type, "ComConnector") {
        Ok("COMConnector")
    } else if same(target_type, "WebService") {
        Ok("WEBService")
    } else if same(target_type, "HttpService") {
        Ok("HTTPService")
    } else if same(target_type, "Job") {
        Ok("JOB")
    } else {
        let mut message = copy("unsupported autoAttachTypes value `");
        message.append(target_type);
        message.append("`");
        Err(message)
    }
}

/// Whether the debug server has a spelling for each of the kinds.
pub open spec fn all_supported(types: Seq<Seq<char>>) -> bool {
    forall|i: int| 0 <= i < types.len() ==> target_type_value(#[trigger] types[i]) is Some
}

pub open spec fn target_type_element(target_type: Seq<char>) -> Seq<char> {
    opening("targetType"@, AUTO_ATTACH_NAMESPACE@) + target_type_value(target_type)->0
        + "</targetType>"@
}

pub open spec fn target_type_elements(types: Seq<Seq<char>>) -> Seq<char> {
    joined(types.map_values(|target_type: Seq<char>| target_type_element(target_type)))
}

pub open spec fn auto_attach_content(types: Seq<Seq<char>>) -> Seq<char> {
    "<autoAttachSettings>"@ + target_type_elements(types) + "</autoAttachSettings>"@
}

/// The request that sets which kinds of targets are attached by themselves.
pub fn auto_attach_settings_request(session: &DebugUiSession, types: &Vec<String>) -> (r: String)
    requires
        all_supported(types.deep_view()),
    ensures
        r@ == request(session.deep_view(), auto_attach_content(types.deep_view())),
{
    let ghost all = types.deep_view();
    let ghost parts = all.map_values(|target_type: Seq<char>| target_type_element(target_type));
    let mut list = String::new();
    let mut i: usize = 0;
    assert(joined(parts.take(0)) =~= list@);
    while i < types.len()
        invariant
            i <= types@.len(),
            all == types.deep_view(),
            all_supported(all),
            parts == all.map_values(|target_type: Seq<char>| target_type_element(target_type)),
            list@ == joined(parts.take(i as int)),
        decreases types@.len() - i,
    {
        assert(all[i as int] == types@[i as int]@);
        let value = match debug_target_type_xml_value(types[i].as_str()) {
            Ok(value) => value,
            Err(_) => "",
        };
        let mut element = opening_tag("targetType", AUTO_ATTACH_NAMESPACE);
        element.append(value);
        element.append("</targetType>");
        assert(element@ == parts[i as int]);
        assert(parts.take(i + 1).drop_last() =~= parts.take(i as int));
        list.append(element.as_str());
        i = i + 1;
    }
    assert(parts.take(i as int) =~= parts);
    let mut content = copy("<autoAttachSettings>");
    content.append(list.as_str());
    content.append("</autoAttachSettings>");
    request_with(session, content.as_str())
}

pub open spec fn target_item(target_id: Seq<char>) -> Seq<char> {
    "<id>"@ + opening("id"@, DEBUG_BASE_NAMESPACE@) + xml::escaped(target_id) + "</id></id>"@
}

pub open spec fn target_items(target_ids: Seq<Seq<char>>) -> Seq<char> {
    joined(target_ids.map_values(|target_id: Seq<char>| target_item(target_id)))
}

pub open spec fn debug_target_content(attach: bool, target_ids: Seq<Seq<char>>) -> Seq<char> {
    "<attach>"@ + bool_text(attach) + "</attach>"@ + target_items(target_ids)
}

/// The request that attaches or detaches targets.
pub fn debug_target_request(session: &DebugUiSession, attach: bool, target_ids: &Vec<String>) -> (r: String)
    ensures
        r@ == request(session.deep_view(), debug_target_content(attach, target_ids.deep_view())),
{
    let ghost all = target_ids.deep_view();
    let ghost parts = all.map_values(|target_id: Seq<char>| target_item(target_id));
    let mut list = String::new();
    let mut i: usize = 0;
    assert(joined(parts.take(0)) =~= list@);
    while i < target_ids.len()
        invariant
            i <= target_ids@.len(),
            all == target_ids.deep_view(),
            parts == all.map_values(|target_id: Seq<char>| target_item(target_id)),
            list@ == joined(parts.take(i as int)),
        decreases target_ids@.len() - i,
    {
        assert(all[i as int] == target_ids@[i as int]@);
        let mut element = copy("<id>");
        let tag = opening_tag("id", DEBUG_BASE_NAMESPACE);
        let id = xml_escape(target_ids[i].as_str());
        element.append(tag.as_str());
        element.append(id.as_str());
        element.append("</id></id>");
        assert(element@ == parts[i as int]);
        assert(parts.take(i + 1).drop_last() =~= parts.take(i as int));
        list.append(element.as_str());
        i = i + 1;
    }
    assert(parts.take(i as int) =~= parts);
    let mut content = copy("<attach>");
    content.append(bool_name(attach));
    content.append("</attach>");
    content.append(list.as_str());
    request_with(session, content.as_str())
}

pub open spec fn target_element(target_id: Seq<char>) -> Seq<char> {
    "<targetID>"@ + opening("id"@, DEBUG_BASE_NAMESPACE@) + xml::escaped(target_id)
        + "</id></targetID>"@
}

fn target_id_element(target_id: &str) -> (r: String)
    ensures
        r@ == target_element(target_id@),
{
    let mut out = copy("<targetID>");
    let tag = opening_tag("id", DEBUG_BASE_NAMESPACE);
    let id = xml_escape(target_id);
    out.append(tag.as_str());
    out.append(id.as_str());
    out.append("</id></targetID>");
    out
}

/// The debug server's name for a way to go on.
pub open spec fn step_name(action: StepAction) -> Seq<char> {
    match action {
        StepAction::Continue => "Continue"@,
        StepAction::Next => "Step"@,
        StepAction::StepIn => "StepIn"@,
        StepAction::StepOut => "StepOut"@,
    }
}

impl StepAction {
    /// The debug server's name for the action.
    pub fn rdbg_value(self) -> (r: &'static str)
        ensures
            r@ == step_name(self),
    {
        match self {
            StepAction::Continue => "Continue",
            StepAction::Next => "Step",
            StepAction::StepIn => "StepIn",
            StepAction::StepOut => "StepOut",
        }
    }
}

pub open spec fn step_content(target_id: Seq<char>, action: StepAction) -> Seq<char> {
    target_element(target_id) + "<action>"@ + step_name(action)
        + "</action><simple>false</simple>"@
}

/// The request that lets a target go on.
pub fn step_request(session: &DebugUiSession, target_id: &str, action: StepAction) -> (r: String)
    ensures
        r@ == request(session.deep_view(), step_content(target_id@, action)),
{
    let mut content = target_id_element(target_id);
    content.append("<action>");
    content.append(action.rdbg_value());
    content.append("</action><simple>false</simple>");
    request_with(session, content.as_str())
}

pub open spec fn text_or_empty(value: Option<Seq<char>>) -> Seq<char> {
    match value {
        Some(value) => value,
        None => Seq::empty(),
    }
}

fn escaped_or_empty(value: &Option<String>) -> (r: String)
    ensures
        r@ == xml::escaped(text_or_empty(value.deep_view())),
{
    match value {
        Some(value) => xml_escape(value.as_str()),
        None => String::new(),
    }
}

pub open spec fn hit_count(breakpoint: SourceBreakpointView) -> int {
    match breakpoint.hit_condition {
        Some(count) => count as int,
        None => 1,
    }
}

/// A breakpoint: a condition and a hit count apply where they are given, and a log message makes
/// it a log point that does not stop.
pub open spec fn breakpoint_element(breakpoint: SourceBreakpointView) -> Seq<char> {
    "<bpInfo><line>"@ + number::decimal(breakpoint.line as int)
        + "</line><isActive>true</isActive><breakOnCondition>"@ + bool_text(
        breakpoint.condition is Some,
    ) + "</breakOnCondition><condition>"@ + xml::escaped(text_or_empty(breakpoint.condition))
        + "</condition><breakOnParentMethod>false</breakOnParentMethod><parentMethod></parentMethod><breakOnHitCount>"@
        + bool_text(breakpoint.hit_condition is Some)
        + "</breakOnHitCount><hitCountVariant>0</hitCountVariant><hitCount>"@ + number::decimal(
        hit_count(breakpoint),
    ) + "</hitCount><showOutputMessage>"@ + bool_text(breakpoint.log_message is Some)
        + "</showOutputMessage><putDescription></putDescription><putExpressionResult>"@
        + xml::escaped(text_or_empty(breakpoint.log_message))
        + "</putExpressionResult><putStackTrace>false</putStackTrace><putHitCount>false</putHitCount><continueExecution>"@
        + bool_text(breakpoint.log_message is Some)
        + "</continueExecution><currentHitCounter>0</currentHitCounter><temp>false</temp><user>true</user></bpInfo>"@
}

fn breakpoint_info(breakpoint: &SourceBreakpoint) -> (r: String)
    ensures
        r@ == breakpoint_element(breakpoint.deep_view()),
{
    let condition = escaped_or_empty(&breakpoint.condition);
    let log_message = escaped_or_empty(&breakpoint.log_message);
    let line = decimal_i64(breakpoint.line);
    let count: i64 = match breakpoint.hit_condition {
        Some(count) => count,
        None => 1,
    };
    let count = decimal_i64(count);
    let mut out = copy("<bpInfo><line>");
    out.append(line.as_str());
    out.append("</line><isActive>true</isActive><breakOnCondition>");
    out.append(bool_name(breakpoint.condition.is_some()));
    out.append("</breakOnCondition><condition>");
    out.append(condition.as_str());
    out.append("</condition><breakOnParentMethod>false</breakOnParentMethod><parentMethod></parentMethod><breakOnHitCount>");
    out.append(bool_name(breakpoint.hit_condition.is_some()));
    out.append("</breakOnHitCount><hitCountVariant>0</hitCountVariant><hitCount>");
    out.append(count.as_str());
    out.append("</hitCount><showOutputMessage>");
    out.append(bool_name(breakpoint.log_message.is_some()));
    out.append("</showOutputMessage><putDescription></putDescription><putExpressionResult>");
    out.append(log_message.as_str());
    out.append("</putExpressionResult><putStackTrace>false</putStackTrace><putHitCount>false</putHitCount><continueExecution>");
    out.append(bool_name(breakpoint.log_message.is_some()));
    out.append("</continueExecution><currentHitCounter>0</currentHitCounter><temp>false</temp><user>true</user></bpInfo>");
    out
}

pub open spec fn breakpoint_elements(breakpoints: Seq<SourceBreakpointView>) -> Seq<char> {
    joined(breakpoints.map_values(|breakpoint: SourceBreakpointView| breakpoint_element(breakpoint)))
}

fn breakpoint_infos(breakpoints: &Vec<SourceBreakpoint>) -> (r: String)
    ensures
        r@ == breakpoint_elements(breakpoints.deep_view()),
{
    let ghost all = breakpoints.deep_view();
    let ghost parts = all.map_values(|breakpoint: SourceBreakpointView| breakpoint_element(breakpoint));
    let mut list = String::new();
    let mut i: usize = 0;
    assert(joined(parts.take(0)) =~= list@);
    while i < breakpoints.len()
        invariant
            i <= breakpoints@.len(),
            all == breakpoints.deep_view(),
            parts == all.map_values(
                |breakpoint: SourceBreakpointView| breakpoint_element(breakpoint),
            ),
            list@ == joined(parts.take(i as int)),
        decreases breakpoints@.len() - i,
    {
        let element = breakpoint_info(&breakpoints[i]);
        assert(all[i as int] == breakpoints@[i as int].deep_view());
        assert(element@ == parts[i as int]);
        assert(parts.take(i + 1).drop_last() =~= parts.take(i as int));
        list.append(element.as_str());
        i = i + 1;
    }
    assert(parts.take(i as int) =~= parts);
    list
}

pub open spec fn module_type(extension_name: Seq<char>) -> Seq<char> {
    if extension_name.len() == 0 {
        "ConfigModule"@
    } else {
        "ExtensionModule"@
    }
}

/// A module with its breakpoints.
pub open spec fn module_element(module: ModuleBreakpointsView) -> Seq<char> {
    opening("moduleBPInfo"@, BREAKPOINTS_NAMESPACE@) + "<id>"@ + opening(
        "type"@,
        DEBUG_BASE_NAMESPACE@,
    ) + module_type(module.extension_name) + "</type>"@ + opening("URL"@, DEBUG_BASE_NAMESPACE@)
        + "</URL>"@ + opening("extensionName"@, DEBUG_BASE_NAMESPACE@) + xml::escaped(
        module.extension_name,
    ) + "</extensionName>"@ + opening("objectID"@, DEBUG_BASE_NAMESPACE@) + xml::escaped(
        module.object_id,
    ) + "</objectID>"@ + opening("propertyID"@, DEBUG_BASE_NAMESPACE@) + xml::escaped(
        module.property_id,
    ) + "</propertyID>"@ + opening("extId"@, DEBUG_BASE_NAMESPACE@) + "0</extId></id>"@
        + breakpoint_elements(module.breakpoints) + "</moduleBPInfo>"@
}

fn module_info(module: &ModuleBreakpoints) -> (r: String)
    ensures
        r@ == module_element(module.deep_view()),
{
    let mut out = opening_tag("moduleBPInfo", BREAKPOINTS_NAMESPACE);
    let type_tag = opening_tag("type", DEBUG_BASE_NAMESPACE);
    let url_tag = opening_tag("URL", DEBUG_BASE_NAMESPACE);
    let extension_tag = opening_tag("extensionName", DEBUG_BASE_NAMESPACE);
    let extension_name = xml_escape(module.extension_name.as_str());
    let object_tag = opening_tag("objectID", DEBUG_BASE_NAMESPACE);
    let object_id = xml_escape(module.object_id.as_str());
    let property_tag = opening_tag("propertyID", DEBUG_BASE_NAMESPACE);
    let property_id = xml_escape(module.property_id.as_str());
    let ext_tag = opening_tag("extId", DEBUG_BASE_NAMESPACE);
    let breakpoints = breakpoint_infos(&module.breakpoints);
    out.append("<id>");
    out.append(type_tag.as_str());
    if module.extension_name.as_str().is_empty() {
        out.append("ConfigModule");
    } else {
        out.append("ExtensionModule");
    }
    out.append("</type>");
    out.append(url_tag.as_str());
    out.append("</URL>");
    out.append(extension_tag.as_str());
    out.append(extension_name.as_str());
    out.append("</extensionName>");
    out.append(object_tag.as_str());
    out.append(object_id.as_str());
    out.append("</objectID>");
    out.append(property_tag.as_str());
    out.append(property_id.as_str());
    out.append("</propertyID>");
    out.append(ext_tag.as_str());
    out.append("0</extId></id>");
    out.append(breakpoints.as_str());
    out.append("</moduleBPInfo>");
    out
}

pub open spec fn module_elements(modules: Seq<ModuleBreakpointsView>) -> Seq<char> {
    joined(modules.map_values(|module: ModuleBreakpointsView| module_element(module)))
}

pub open spec fn breakpoints_content(modules: Seq<ModuleBreakpointsView>) -> Seq<char> {
    "<bpWorkspace>"@ + module_elements(modules) + "</bpWorkspace>"@
}

/// The request that replaces all breakpoints of the Debug UI.
pub fn breakpoints_request(session: &DebugUiSession, modules: &Vec<ModuleBreakpoints>) -> (r: String)
    ensures
        r@ == request(session.deep_view(), breakpoints_content(modules.deep_view())),
{
    let ghost all = modules.deep_view();
    let ghost parts = all.map_values(|module: ModuleBreakpointsView| module_element(module));
    let mut list = String::new();
    let mut i: usize = 0;
    assert(joined(parts.take(0)) =~= list@);
    while i < modules.len()
        invariant
            i <= modules@.len(),
            all == modules.deep_view(),
            parts == all.map_values(|module: ModuleBreakpointsView| module_element(module)),
            list@ == joined(parts.take(i as int)),
        decreases modules@.len() - i,
    {
        let element = module_info(&modules[i]);
        assert(all[i as int] == modules@[i as int].deep_view());
        assert(element@ == parts[i as int]);
        assert(parts.take(i + 1).drop_last() =~= parts.take(i as int));
        list.append(element.as_str());
        i = i + 1;
    }
    assert(parts.take(i as int) =~= parts);
    let mut content = copy("<bpWorkspace>");
    content.append(list.as_str());
    content.append("</bpWorkspace>");
    request_with(session, content.as_str())
}

/// The template of the errors to stop at; an empty one counts as none.
pub open spec fn template_element(template: Seq<char>) -> Seq<char> {
    if template.len() > 0 {
        "<strTemplate><include>true</include><str>"@ + xml::escaped(template)
            + "</str></strTemplate>"@
    } else {
        Seq::empty()
    }
}

pub open spec fn runtime_error_content(stop_on_errors: bool, template: Option<Seq<char>>) -> Seq<char> {
    let template = text_or_empty(template);
    opening("state"@, RTE_FILTER_NAMESPACE@) + "<stopOnErrors>"@ + bool_text(stop_on_errors)
        + "</stopOnErrors><analyzeErrorStr>"@ + bool_text(template.len() > 0)
        + "</analyzeErrorStr>"@ + template_element(template) + "</state>"@
}

/// The request that sets whether 1C runtime errors stop a target.
pub fn runtime_error_processing_request(
    session: &DebugUiSession,
    stop_on_errors: bool,
    error_template: Option<&str>,
) -> (r: String)
    ensures
        r@ == request(
            session.deep_view(),
            runtime_error_content(stop_on_errors, error_template.deep_view()),
        ),
{
    let template = match error_template {
        Some(template) => copy(template),
        None => String::new(),
    };
    let analyze = !template.as_str().is_empty();
    let mut element = String::new();
    if analyze {
        let value = xml_escape(template.as_str());
        element = copy("<strTemplate><include>true</include><str>");
        element.append(value.as_str());
        element.append("</str></strTemplate>");
    }
    let mut content = opening_tag("state", RTE_FILTER_NAMESPACE);
    content.append("<stopOnErrors>");
    content.append(bool_name(stop_on_errors));
    content.append("</stopOnErrors><analyzeErrorStr>");
    content.append(bool_name(analyze));
    content.append("</analyzeErrorStr>");
    content.append(element.as_str());
    content.append("</state>");
    request_with(session, content.as_str())
}

pub open spec fn path_element(item: CalculationPathItemView) -> Seq<char> {
    match item {
        CalculationPathItemView::Expression(expression) =>
            "<calcItem><itemType>expression</itemType><expression>"@ + xml::escaped(expression)
            + "</expression><property></property></calcItem>"@,
        CalculationPathItemView::Property(property) =>
            "<calcItem><itemType>property</itemType><expression></expression><property>"@
            + xml::escaped(property) + "</property></calcItem>"@,
        CalculationPathItemView::Index(index) =>
            "<calcItem><itemType>index</itemType><expression></expression><property></property><index>"@
            + number::decimal(index as int) + "</index></calcItem>"@,
    }
}

fn path_item(item: &CalculationPathItem) -> (r: String)
    ensures
        r@ == path_element(item.deep_view()),
{
    match item {
        CalculationPathItem::Expression(expression) => {
            let value = xml_escape(expression.as_str());
            let mut out = copy("<calcItem><itemType>expression</itemType><expression>");
            out.append(value.as_str());
            out.append("</expression><property></property></calcItem>");
            out
        },
        CalculationPathItem::Property(property) => {
            let value = xml_escape(property.as_str());
            let mut out = copy("<calcItem><itemType>property</itemType><expression></expression><property>");
            out.append(value.as_str());
            out.append("</property></calcItem>");
            out
        },
        CalculationPathItem::Index(index) => {
            let value = decimal_i64(*index);
            let mut out = copy("<calcItem><itemType>index</itemType><expression></expression><property></property><index>");
            out.append(value.as_str());
            out.append("</index></calcItem>");
            out
        },
    }
}

pub open spec fn path_elements(path: Seq<CalculationPathItemView>) -> Seq<char> {
    joined(path.map_values(|item: CalculationPathItemView| path_element(item)))
}

pub open spec fn interface_name(interface: EvaluationInterface) -> Seq<char> {
    match interface {
        EvaluationInterface::Context => "context"@,
        EvaluationInterface::Collection => "collection"@,
    }
}

/// A calculation in a stack frame of a target: `items` say what is calculated. A negative stack
/// level counts as the topmost frame.
pub open spec fn calculation_content(
    target_id: Seq<char>,
    stack_level: int,
    result_id: Seq<char>,
    items: Seq<char>,
    interface: Seq<char>,
) -> Seq<char> {
    "<calcWaitingTime>100</calcWaitingTime>"@ + target_element(target_id) + "<expr>"@ + opening(
        "stackLevel"@,
        DEBUG_CALCULATIONS_NAMESPACE@,
    ) + number::decimal(
        if stack_level < 0 {
            0
        } else {
            stack_level
        },
    ) + "</stackLevel>"@ + opening("srcCalcInfo"@, DEBUG_CALCULATIONS_NAMESPACE@)
        + "<expressionResultID>"@ + result_id + "</expressionResultID>"@ + items + "<interfaces>"@
        + interface + "</interfaces></srcCalcInfo>"@ + opening(
        "presOptions"@,
        DEBUG_CALCULATIONS_NAMESPACE@,
    )
        + "<maxTextSize>307200</maxTextSize><stopOnFirstEOL>false</stopOnFirstEOL></presOptions></expr>"@
}

fn calculation(target_id: &str, stack_level: i64, result_id: &str, items: &str, interface: &str) -> (r: String)
    ensures
        r@ == calculation_content(target_id@, stack_level as int, result_id@, items@, interface@),
{
    let target = target_id_element(target_id);
    let level_tag = opening_tag("stackLevel", DEBUG_CALCULATIONS_NAMESPACE);
    let level: i64 = if stack_level < 0 {
        0
    } else {
        stack_level
    };
    let level = decimal_i64(level);
    let info_tag = opening_tag("srcCalcInfo", DEBUG_CALCULATIONS_NAMESPACE);
    let options_tag = opening_tag("presOptions", DEBUG_CALCULATIONS_NAMESPACE);
    let mut out = copy("<calcWaitingTime>100</calcWaitingTime>");
    out.append(target.as_str());
    out.append("<expr>");
    out.append(level_tag.as_str());
    out.append(level.as_str());
    out.append("</stackLevel>");
    out.append(info_tag.as_str());
    out.append("<expressionResultID>");
    out.append(result_id);
    out.append("</expressionResultID>");
    out.append(items);
    out.append("<interfaces>");
    out.append(interface);
    out.append("</interfaces></srcCalcInfo>");
    out.append(options_tag.as_str());
    out.append("<maxTextSize>307200</maxTextSize><stopOnFirstEOL>false</stopOnFirstEOL></presOptions></expr>");
    out
}

pub open spec fn evaluation_content(
    target_id: Seq<char>,
    stack_level: int,
    result_id: Seq<char>,
    path: Seq<CalculationPathItemView>,
    interface: EvaluationInterface,
) -> Seq<char> {
    calculation_content(
        target_id,
        stack_level,
        result_id,
        path_elements(path),
        interface_name(interface),
    )
}

/// The request that calculates a path in a stack frame.
pub fn evaluation_request(
    session: &DebugUiSession,
    target_id: &str,
    stack_level: i64,
    result_id: &str,
    path: &Vec<CalculationPathItem>,
    interface: EvaluationInterface,
) -> (r: String)
    ensures
        r@ == request(
            session.deep_view(),
            evaluation_content(
                target_id@,
                stack_level as int,
                result_id@,
                path.deep_view(),
                interface,
            ),
        ),
{
    let ghost all = path.deep_view();
    let ghost parts = all.map_values(|item: CalculationPathItemView| path_element(item));
    let mut list = String::new();
    let mut i: usize = 0;
    assert(joined(parts.take(0)) =~= list@);
    while i < path.len()
        invariant
            i <= path@.len(),
            all == path.deep_view(),
            parts == all.map_values(|item: CalculationPathItemView| path_element(item)),
            list@ == joined(parts.take(i as int)),
        decreases path@.len() - i,
    {
        let element = path_item(&path[i]);
        assert(all[i as int] == path@[i as int].deep_view());
        assert(element@ == parts[i as int]);
        assert(parts.take(i + 1).drop_last() =~= parts.take(i as int));
        list.append(element.as_str());
        i = i + 1;
    }
    assert(parts.take(i as int) =~= parts);
    let interface = match interface {
        EvaluationInterface::Context => "context",
        EvaluationInterface::Collection => "collection",
    };
    let content = calculation(target_id, stack_level, result_id, list.as_str(), interface);
    request_with(session, content.as_str())
}

pub open spec fn local_variables_content(target_id: Seq<char>, stack_level: int, result_id: Seq<char>) -> Seq<char> {
    calculation_content(target_id, stack_level, result_id, Seq::empty(), "context"@)
}

/// The request for the local variables of a stack frame.
pub fn local_variables_request(
    session: &DebugUiSession,
    target_id: &str,
    stack_level: i64,
    result_id: &str,
) -> (r: String)
    ensures
        r@ == request(
            session.deep_view(),
            local_variables_content(target_id@, stack_level as int, result_id@),
        ),
{
    let items = String::new();
    let content = calculation(target_id, stack_level, result_id, items.as_str(), "context");
    request_with(session, content.as_str())
}

} // verus!
