use onec_debug_adapter::debug_replies::{
    parse_context_variables, parse_debug_targets, parse_debug_ui_events, parse_evaluation_response,
    parse_local_variables_response, response_element,
};
use onec_debug_adapter::debug_requests::{
    evaluation_request, local_variables_request, DEBUG_BASE_NAMESPACE,
    DEBUG_CALCULATIONS_NAMESPACE,
};
use onec_debug_adapter::debug_types::{
    CalculationPathItem, DebugTarget, DebugUiEvent, DebugUiSession, DebugVariable,
    EvaluationInterface,
};
use onec_debug_adapter::xml::xml_escape;

fn session() -> DebugUiSession {
    DebugUiSession {
        id: "debug-ui".to_owned(),
        info_base_alias: "DemoBase".to_owned(),
    }
}

#[test]
fn parses_namespaced_response_result() {
    let xml = "<response xmlns=\"http://v8.1c.ru/8.3/debugger/debugBaseData\"><result>registered</result></response>";
    assert_eq!(response_element(xml, "result").unwrap(), "registered");
}

#[test]
fn parses_debug_targets_returned_by_rdbg() {
    let targets = parse_debug_targets(
        "<response xmlns=\"http://v8.1c.ru/8.3/debugger/debugRDBGRequestResponse\"><id><id>target-1</id><seanceNo>17</seanceNo><userName>Администратор</userName><targetType>ManagedClient</targetType></id><id><id>target-2</id><seanceNo>18</seanceNo><userName></userName><targetType>HTTPService</targetType></id></response>",
    )
    .unwrap();

    assert_eq!(
        targets,
        vec![
            DebugTarget {
                id: "target-1".to_owned(),
                seance_no: "17".to_owned(),
                user_name: "Администратор".to_owned(),
                target_type: "ManagedClient".to_owned(),
            },
            DebugTarget {
                id: "target-2".to_owned(),
                seance_no: "18".to_owned(),
                user_name: String::new(),
                target_type: "HTTPService".to_owned(),
            },
        ]
    );
}

#[test]
fn parses_target_lifecycle_events() {
    let events = parse_debug_ui_events(
        "<response><result><cmdID>targetStarted</cmdID><targetID><id>target-1</id></targetID></result><result><cmdID>targetQuit</cmdID><targetID><id>target-1</id></targetID></result></response>",
    )
    .unwrap();

    assert_eq!(
        events,
        vec![
            DebugUiEvent {
                command_id: "targetStarted".to_owned(),
                target_id: Some("target-1".to_owned()),
                ..DebugUiEvent::default()
            },
            DebugUiEvent {
                command_id: "targetQuit".to_owned(),
                target_id: Some("target-1".to_owned()),
                ..DebugUiEvent::default()
            },
        ]
    );
}

#[test]
fn parses_call_stack_events() {
    let events = parse_debug_ui_events(
        "<response><result><cmdID>callStackFormed</cmdID><targetID><id>target-1</id></targetID><stopByBP>true</stopByBP><callStack><moduleID><extensionName></extensionName><objectID>object-id</objectID><propertyID>property-id</propertyID></moduleID><lineNo>42</lineNo><presentation>VGVzdE1ldGhvZA==</presentation></callStack></result></response>",
    )
    .unwrap();

    assert_eq!(events[0].target_id.as_deref(), Some("target-1"));
    assert!(events[0].stopped_by_breakpoint);
    assert_eq!(events[0].call_stack[0].line, 42);
    assert_eq!(events[0].call_stack[0].presentation, "TestMethod");
}

#[test]
fn serializes_and_parses_expression_evaluation() {
    let xml = evaluation_request(
        &session(),
        "target-1",
        2,
        "request-id",
        &vec![CalculationPathItem::Expression("A < 3".to_owned())],
        EvaluationInterface::Context,
    );
    assert!(xml.contains("<calcWaitingTime>100</calcWaitingTime>"));
    assert!(xml.contains(&format!(
        "<targetID><id xmlns=\"{DEBUG_BASE_NAMESPACE}\">target-1</id></targetID>"
    )));
    assert!(xml.contains(&format!(
        "<stackLevel xmlns=\"{DEBUG_CALCULATIONS_NAMESPACE}\">2</stackLevel>"
    )));
    assert!(xml.contains("<expression>A &lt; 3</expression>"));

    let result = parse_evaluation_response(
        "<response><result><errorOccurred>false</errorOccurred><resultValueInfo><typeName>Boolean</typeName><pres>0JjRgdGC0LjQvdCw</pres></resultValueInfo></result></response>",
    )
    .unwrap()
    .unwrap();
    assert_eq!(result.value_type, "Boolean");
    assert_eq!(result.value, "Истина");
    assert_eq!(result.error, None);
}

#[test]
fn supports_deferred_expression_evaluation_events() {
    assert_eq!(
        parse_evaluation_response("<response></response>").unwrap(),
        None
    );

    let events = parse_debug_ui_events(
        "<response><result><cmdID>exprEvaluated</cmdID><evalExprResBaseData><expressionResultID>result-1</expressionResultID><errorOccurred>false</errorOccurred><resultValueInfo><typeName>Structure</typeName><pres>VGVzdA==</pres><isExpandable>true</isExpandable><isIIndexedCollectionRO>false</isIIndexedCollectionRO></resultValueInfo><calculationResult><valueOfContextPropInfo><propInfo><propName>Counter</propName></propInfo><valueInfo><typeName>Number</typeName><pres>NDI=</pres></valueInfo></valueOfContextPropInfo></calculationResult></evalExprResBaseData></result></response>",
    )
    .unwrap();

    let evaluation = events[0].evaluation.as_ref().unwrap();
    assert_eq!(evaluation.result_id, "result-1");
    assert_eq!(evaluation.value, "Test");
    assert!(evaluation.is_expandable);
    assert_eq!(evaluation.variables[0].name, "Counter");
    assert_eq!(evaluation.variables[0].value, "42");
}

#[test]
fn parses_expandable_context_and_collection_values() {
    let variables = parse_context_variables(
        "<response><result><calculationResult><valueOfContextPropInfo><propInfo><propName>Document</propName></propInfo><valueInfo><typeName>DocumentObject</typeName><pres>RGVtbw==</pres><isExpandable>true</isExpandable></valueInfo></valueOfContextPropInfo><valueOfCollectionInfo><valueInfo><typeName>String</typeName><pres>Zmlyc3Q=</pres><isIIndexedCollectionRO>true</isIIndexedCollectionRO></valueInfo></valueOfCollectionInfo></calculationResult></result></response>",
    )
    .unwrap();

    assert!(variables[0].is_expandable);
    assert_eq!(variables[0].value, "Demo");
    assert_eq!(variables[1].index, Some(0));
    assert!(variables[1].is_indexed_collection);
    assert_eq!(variables[1].value, "first");
}

#[test]
fn serializes_and_parses_local_variables() {
    let xml = local_variables_request(&session(), "target-1", 0, "request-id");
    assert!(xml.contains(&format!(
        "<stackLevel xmlns=\"{DEBUG_CALCULATIONS_NAMESPACE}\">0</stackLevel>"
    )));
    assert!(xml.contains("<interfaces>context</interfaces>"));

    let variables = parse_local_variables_response(
        "<response><result><calculationResult><valueOfContextPropInfo><propInfo><propName>Counter</propName></propInfo><valueInfo><typeName>Number</typeName><pres>NDI=</pres></valueInfo></valueOfContextPropInfo></calculationResult></result></response>",
    )
    .unwrap();
    assert_eq!(
        variables,
        Some(vec![DebugVariable {
            name: "Counter".to_owned(),
            value_type: "Number".to_owned(),
            value: "42".to_owned(),
            ..DebugVariable::default()
        }])
    );
}

#[test]
fn references_in_texts_are_replaced() {
    let targets = parse_debug_targets(
        "<response><id><id>a&amp;b</id><userName>&lt;Sales&gt;</userName></id></response>",
    )
    .unwrap();

    assert_eq!(targets[0].id, "a&b");
    assert_eq!(targets[0].user_name, "<Sales>");
    assert!(parse_debug_targets("<response><id><id>&nothing;</id></id></response>").is_err());
}

#[test]
fn texts_that_are_no_base64_are_kept() {
    let events = parse_debug_ui_events(
        "<response><result><cmdID>callStackFormed</cmdID><callStack><presentation>Do Work</presentation></callStack></result></response>",
    )
    .unwrap();

    assert_eq!(events[0].call_stack[0].presentation, "Do Work");
    assert_eq!(events[0].target_id, None);
}

#[test]
fn events_and_targets_without_an_identifier_are_dropped() {
    assert_eq!(
        parse_debug_ui_events("<response><result><targetID><id>t</id></targetID></result></response>")
            .unwrap(),
        vec![]
    );
    assert_eq!(
        parse_debug_targets("<response><id><seanceNo>1</seanceNo></id></response>").unwrap(),
        vec![]
    );
    assert_eq!(
        parse_context_variables(
            "<response><valueOfContextPropInfo><valueInfo><pres>NDI=</pres></valueInfo></valueOfContextPropInfo></response>"
        )
        .unwrap(),
        vec![]
    );
}

#[test]
fn replies_that_are_no_xml_are_refused() {
    assert!(parse_debug_ui_events("<response><result></response>").is_err());
    assert!(parse_evaluation_response("<response><a></b></response>").is_err());
    assert!(response_element("<response/>", "result").is_err());
}

#[test]
fn failed_evaluations_carry_an_error() {
    let evaluation = parse_evaluation_response(
        "<response><result><errorOccurred>true</errorOccurred><resultValueInfo><typeName>X</typeName></resultValueInfo></result></response>",
    )
    .unwrap()
    .unwrap();

    assert!(evaluation.error.is_some());
}

#[test]
fn markup_is_escaped_and_plain_text_is_not() {
    assert_eq!(
        xml_escape("<a b=\"c\">'&'</a>"),
        "&lt;a b=&quot;c&quot;&gt;&apos;&amp;&apos;&lt;/a&gt;"
    );
    assert_eq!(xml_escape("&lt;"), "&amp;lt;");
    assert_eq!(
        xml_escape("0f45f589-6c7d-4f5f-8433-4e8f611e6a9a"),
        "0f45f589-6c7d-4f5f-8433-4e8f611e6a9a"
    );
}
