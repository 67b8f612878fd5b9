use onec_debug_adapter::debug_replies::AttachDebugUiResult;
use onec_debug_adapter::debug_requests::{
    attach_debug_ui_request, auto_attach_settings_request, base_request, breakpoints_request,
    debug_target_request, debug_target_type_xml_value, evaluation_request, local_variables_request,
    runtime_error_processing_request, step_request, AUTO_ATTACH_NAMESPACE, BREAKPOINTS_NAMESPACE,
    DEBUG_BASE_NAMESPACE, DEBUG_CALCULATIONS_NAMESPACE, RTE_FILTER_NAMESPACE,
};
use onec_debug_adapter::debug_types::{
    CalculationPathItem, DebugUiSession, EvaluationInterface, ModuleBreakpoints, SourceBreakpoint,
    StepAction,
};

fn session() -> DebugUiSession {
    DebugUiSession {
        id: "debug-ui".to_owned(),
        info_base_alias: "DemoBase".to_owned(),
    }
}

#[test]
fn attach_request_contains_escaped_base_request_data() {
    let session = DebugUiSession {
        id: "0f45f589-6c7d-4f5f-8433-4e8f611e6a9a".to_owned(),
        info_base_alias: "Sales & <Retail>".to_owned(),
    };

    let xml = attach_debug_ui_request(&session);

    assert!(xml.contains("<infoBaseAlias>Sales &amp; &lt;Retail&gt;</infoBaseAlias>"));
    assert!(xml.contains("<idOfDebuggerUI>0f45f589-6c7d-4f5f-8433-4e8f611e6a9a</idOfDebuggerUI>"));
    assert!(xml.contains("<foregroundAbility>true</foregroundAbility>"));
}

#[test]
fn recognizes_all_documented_attach_results() {
    assert_eq!(
        AttachDebugUiResult::parse("registered").unwrap(),
        AttachDebugUiResult::Registered
    );
    assert_eq!(
        AttachDebugUiResult::parse("ibInDebug").unwrap(),
        AttachDebugUiResult::IbInDebug
    );
    assert!(AttachDebugUiResult::parse("unexpected").is_err());
}

#[test]
fn every_attach_result_is_recognized_by_its_name() {
    for result in [
        AttachDebugUiResult::Registered,
        AttachDebugUiResult::CredentialsRequired,
        AttachDebugUiResult::FullCredentialsRequired,
        AttachDebugUiResult::IbInDebug,
        AttachDebugUiResult::NotRegistered,
        AttachDebugUiResult::Unknown,
    ] {
        assert_eq!(AttachDebugUiResult::parse(result.name()).unwrap(), result);
    }
    assert_eq!(
        AttachDebugUiResult::parse(" other\n").unwrap_err(),
        "unknown attachDebugUI result `other`"
    );
}

#[test]
fn converts_vscode_auto_attach_types_to_rdbg_values() {
    assert_eq!(
        debug_target_type_xml_value("HttpService").unwrap(),
        "HTTPService"
    );
    assert_eq!(
        debug_target_type_xml_value("WebClient").unwrap(),
        "WEBClient"
    );
    assert!(debug_target_type_xml_value("Unknown").is_err());
}

#[test]
fn serializes_step_requests_with_the_rdbg_action_name() {
    let xml = step_request(&session(), "target-1", StepAction::StepIn);

    assert!(xml.contains(&format!(
        "<targetID><id xmlns=\"{DEBUG_BASE_NAMESPACE}\">target-1</id></targetID>"
    )));
    assert!(xml.contains("<action>StepIn</action>"));
}

#[test]
fn serializes_conditional_and_log_breakpoints() {
    let xml = breakpoints_request(
        &session(),
        &vec![ModuleBreakpoints {
            extension_name: String::new(),
            object_id: "object-id".to_owned(),
            property_id: "property-id".to_owned(),
            breakpoints: vec![SourceBreakpoint {
                line: 42,
                condition: Some("A < 3".to_owned()),
                hit_condition: Some(5),
                log_message: Some("A={A}".to_owned()),
            }],
        }],
    );

    assert!(xml.contains("<bpWorkspace>"));
    assert!(xml.contains(&format!(
        "<moduleBPInfo xmlns=\"{BREAKPOINTS_NAMESPACE}\"><id><type xmlns=\"{DEBUG_BASE_NAMESPACE}\">ConfigModule</type>"
    )));
    assert!(!xml.contains("<version>"));
    assert!(xml.contains("<line>42</line>"));
    assert!(xml.contains("<condition>A &lt; 3</condition>"));
    assert!(xml.contains("<hitCount>5</hitCount>"));
    assert!(xml.contains("<putExpressionResult>A={A}</putExpressionResult>"));
    assert!(xml.contains("<continueExecution>true</continueExecution>"));
}

#[test]
fn serializes_empty_auto_attach_settings() {
    let xml = auto_attach_settings_request(&session(), &vec![]);

    assert!(xml.contains("<autoAttachSettings></autoAttachSettings>"));
}

#[test]
fn serializes_auto_attach_target_types_in_the_schema_namespace() {
    let xml = auto_attach_settings_request(&session(), &vec!["ManagedClient".to_owned()]);

    assert!(xml.contains(&format!(
        "<targetType xmlns=\"{AUTO_ATTACH_NAMESPACE}\">ManagedClient</targetType>"
    )));
}

#[test]
fn serializes_runtime_error_filter() {
    let xml = runtime_error_processing_request(&session(), true, Some("division by zero"));

    assert!(xml.contains(&format!(
        "<state xmlns=\"{RTE_FILTER_NAMESPACE}\"><stopOnErrors>true</stopOnErrors>"
    )));
    assert!(xml.contains("<analyzeErrorStr>true</analyzeErrorStr>"));
    assert!(xml.contains("<str>division by zero</str>"));
}

#[test]
fn serializes_property_and_index_calculation_paths() {
    let xml = evaluation_request(
        &session(),
        "target-1",
        0,
        "request-id",
        &vec![
            CalculationPathItem::Expression("Items".to_owned()),
            CalculationPathItem::Property("Owner".to_owned()),
            CalculationPathItem::Index(3),
        ],
        EvaluationInterface::Collection,
    );

    assert!(xml.contains(
        "<itemType>property</itemType><expression></expression><property>Owner</property>"
    ));
    assert!(xml.contains("<itemType>index</itemType><expression></expression><property></property><index>3</index>"));
    assert!(xml.contains("<interfaces>collection</interfaces>"));
}

#[test]
fn writes_the_base_request_exactly() {
    assert_eq!(
        base_request(&session()),
        "<?xml version=\"1.0\" encoding=\"utf-8\"?><request xmlns=\"http://v8.1c.ru/8.3/debugger/debugRDBGRequestResponse\"><infoBaseAlias>DemoBase</infoBaseAlias><idOfDebuggerUI>debug-ui</idOfDebuggerUI></request>"
    );
}

#[test]
fn attaches_targets_in_the_base_namespace() {
    let xml = debug_target_request(&session(), true, &vec!["a&b".to_owned(), "c".to_owned()]);

    assert!(xml.contains(&format!(
        "<attach>true</attach><id><id xmlns=\"{DEBUG_BASE_NAMESPACE}\">a&amp;b</id></id><id><id xmlns=\"{DEBUG_BASE_NAMESPACE}\">c</id></id></request>"
    )));
}

#[test]
fn negative_stack_levels_mean_the_topmost_frame() {
    let xml = local_variables_request(&session(), "target-1", -1, "request-id");

    assert!(xml.contains(&format!(
        "<stackLevel xmlns=\"{DEBUG_CALCULATIONS_NAMESPACE}\">0</stackLevel>"
    )));
    assert!(xml.contains("<expressionResultID>request-id</expressionResultID><interfaces>context</interfaces>"));
}

#[test]
fn an_empty_error_template_is_left_out() {
    let xml = runtime_error_processing_request(&session(), false, Some(""));

    assert!(xml.contains(
        "<stopOnErrors>false</stopOnErrors><analyzeErrorStr>false</analyzeErrorStr></state>"
    ));
}

#[test]
fn extension_modules_are_marked_as_such() {
    let xml = breakpoints_request(
        &session(),
        &vec![ModuleBreakpoints {
            extension_name: "Ext".to_owned(),
            object_id: "o".to_owned(),
            property_id: "p".to_owned(),
            breakpoints: vec![SourceBreakpoint {
                line: 1,
                condition: None,
                hit_condition: None,
                log_message: None,
            }],
        }],
    );

    assert!(xml.contains("ExtensionModule</type>"));
    assert!(xml.contains("<breakOnHitCount>false</breakOnHitCount><hitCountVariant>0</hitCountVariant><hitCount>1</hitCount>"));
}
