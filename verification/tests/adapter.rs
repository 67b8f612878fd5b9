use onec_debug_adapter::adapter::{
    trace_line, Adapter, Ending, Host, Next, Output, PendingDebuggee, PendingEvaluation, Reason,
    Turn, VariableReference,
};
use onec_debug_adapter::adapter_polls::ProgramReport;
use onec_debug_adapter::adapter_requests::is_request;
use onec_debug_adapter::adapter_targets::{debug_target_item, debug_target_type_presentation};
use onec_debug_adapter::debug_server::{DebugServer, HttpReply, PingOutcome, PingResult, PingTimings};
use onec_debug_adapter::debug_types::{
    CalculationPathItem, DebugEvaluation, DebugStackFrame, DebugTarget, DebugUiEvent,
    DebugUiSession, DebugVariable, EvaluationInterface,
};
use onec_debug_adapter::debug_replies::parse_debug_ui_events;
use onec_debug_adapter::info_base::{ConnectionArguments, InfoBaseTarget};
use onec_debug_adapter::json::Json;
use onec_debug_adapter::metadata::{SourceRoot, Sources};
use onec_debug_adapter::platform::PlatformListing;
use onec_debug_adapter::source_tree::{SourceContent, SourceNode};
use serde_json::Value;

fn json(text: &str) -> Json {
    convert(&serde_json::from_str::<Value>(text).unwrap())
}

fn convert(value: &Value) -> Json {
    match value {
        Value::Null => Json::Null,
        Value::Bool(b) => Json::Bool(*b),
        Value::Number(n) => match (n.as_u64(), n.as_i64()) {
            (Some(n), _) => Json::Unsigned(n),
            (None, Some(n)) => Json::Negative(n),
            _ => Json::Float(n.to_string()),
        },
        Value::String(s) => Json::Str(s.clone()),
        Value::Array(items) => Json::Array(items.iter().map(convert).collect()),
        Value::Object(members) => {
            Json::Object(members.iter().map(|(k, v)| (k.clone(), convert(v))).collect())
        }
    }
}

fn value(json: &Json) -> Value {
    match json {
        Json::Null => Value::Null,
        Json::Bool(b) => Value::Bool(*b),
        Json::Unsigned(n) => Value::from(*n),
        Json::Negative(n) => Value::from(*n),
        Json::Float(text) => serde_json::from_str(text).unwrap(),
        Json::Str(s) => Value::from(s.as_str()),
        Json::Array(items) => Value::Array(items.iter().map(value).collect()),
        Json::Object(members) => {
            Value::Object(members.iter().map(|(k, v)| (k.clone(), value(v))).collect())
        }
    }
}

fn messages(turn: &Turn) -> Vec<Value> {
    turn.outputs
        .iter()
        .filter_map(|output| match output {
            Output::Message(message) => Some(value(message)),
            Output::Trace(_) => None,
        })
        .collect()
}

fn records(turn: &Turn) -> Vec<Value> {
    turn.outputs
        .iter()
        .filter_map(|output| match output {
            Output::Message(_) => None,
            Output::Trace(members) => Some(Value::Object(
                members.iter().map(|(k, v)| (k.clone(), value(v))).collect(),
            )),
        })
        .collect()
}

fn adapter() -> Adapter {
    Adapter::new(Host {
        windows: false,
        separator: '/',
    })
}

fn session() -> DebugUiSession {
    DebugUiSession {
        id: "session-1".to_owned(),
        info_base_alias: "Probe".to_owned(),
    }
}

fn attached() -> Adapter {
    let mut adapter = adapter();
    adapter.debug_server = Some(DebugServer::new("127.0.0.1", 1550).unwrap());
    adapter.debug_session = Some(session());
    adapter
}

fn arguments() -> ConnectionArguments {
    ConnectionArguments {
        debug_server_host: "127.0.0.1".to_owned(),
        debug_server_port: 1550,
        info_base: Some("Demo".to_owned()),
        info_base_alias: None,
        root_project: None,
        platform_path: None,
        platform_version: None,
        extensions: None,
        auto_attach_types: None,
        trace: None,
        trace_file: None,
    }
}

fn answered(body: &str) -> HttpReply {
    HttpReply::Answered(200, "200 OK".to_owned(), body.to_owned())
}

/// What the debug server of a test replies to a request.
fn reply_to(url: &str) -> HttpReply {
    if url.contains("cmd=attachDebugUI") {
        answered("<response><result>registered</result></response>")
    } else if url.contains("cmd=getDbgTargets") {
        answered("<response><id><id>target-1</id><seanceNo>1</seanceNo><userName>Probe</userName><targetType>ManagedClient</targetType></id></response>")
    } else {
        answered("<response/>")
    }
}

/// Replies to the HTTP requests of a step, and of those that follow, until nothing is left to be
/// sent. Gives all that was put out, the addresses, and the last step.
fn exchange(adapter: &mut Adapter, turn: Turn) -> (Vec<Value>, Vec<String>, Turn) {
    let mut turn = turn;
    let mut said = messages(&turn);
    let mut sent = Vec::new();
    loop {
        let next = std::mem::replace(&mut turn.next, Next::Done);
        match next {
            Next::Send(request, reason) => {
                let reply = reply_to(&request.url);
                sent.push(request.url);
                turn = adapter.replied(reason, &reply);
            }
            Next::Events(events) => turn = adapter.events(events),
            next => {
                turn.next = next;
                return (said, sent, turn);
            }
        }
        said.extend(messages(&turn));
    }
}

fn refusal_of(adapter: &mut Adapter, request: &str) -> String {
    let turn = adapter.handle(&json(request));
    assert!(matches!(turn.next, Next::Done));
    let messages = messages(&turn);
    assert_eq!(messages.len(), 1);
    assert_eq!(messages[0]["success"], false);
    messages[0]["message"].as_str().unwrap().to_owned()
}

#[test]
fn defers_debuggee_launch_until_configuration_done() {
    let mut launches = 0;
    let mut adapter = adapter();
    adapter.debug_server = Some(DebugServer::new("127.0.0.1", 1550).unwrap());
    adapter.pending_debuggee = Some(PendingDebuggee {
        arguments: arguments(),
        info_base: InfoBaseTarget {
            alias: "Demo".to_owned(),
            is_file: false,
            direct_file_path: None,
        },
    });

    let breakpoints_response = adapter.handle(&json(
        r#"{
            "seq": 1,
            "type": "request",
            "command": "setBreakpoints",
            "arguments": {
                "source": { "path": "/tmp/module.bsl" },
                "breakpoints": [{ "line": 1 }]
            }
        }"#,
    ));
    assert!(!messages(&breakpoints_response)[0]["success"].as_bool().unwrap());
    assert!(matches!(breakpoints_response.next, Next::Done));
    assert_eq!(launches, 0);

    let configuration_done = adapter.handle(&json(
        r#"{ "seq": 2, "type": "request", "command": "configurationDone", "arguments": {} }"#,
    ));
    assert!(messages(&configuration_done).is_empty());
    let Next::LaunchClient(request) = configuration_done.next else {
        panic!("the client is not launched");
    };
    launches += 1;
    let configuration_done = adapter.client_started(&request, "sh", true);
    assert!(messages(&configuration_done)[0]["success"].as_bool().unwrap());
    assert_eq!(launches, 1);
    assert!(adapter.pending_debuggee.is_none());

    let repeated_configuration_done = adapter.handle(&json(
        r#"{ "seq": 3, "type": "request", "command": "configurationDone", "arguments": {} }"#,
    ));
    assert!(messages(&repeated_configuration_done)[0]["success"].as_bool().unwrap());
    assert!(matches!(repeated_configuration_done.next, Next::Done));
    assert_eq!(launches, 1);
    let disconnect = adapter.handle(&json(
        r#"{ "seq": 4, "type": "request", "command": "disconnect" }"#,
    ));
    assert!(messages(&disconnect)[0]["success"].as_bool().unwrap());
}

#[test]
fn returns_rdbg_call_stack_as_dap_stack_frames() {
    let mut adapter = adapter();
    adapter.call_stacks.insert(
        7,
        vec![DebugStackFrame {
            extension_name: String::new(),
            object_id: "module-id".to_owned(),
            property_id: "property-id".to_owned(),
            line: 42,
            presentation: "DoWork".to_owned(),
        }],
    );
    let request = json(
        r#"{ "seq": 9, "type": "request", "command": "stackTrace", "arguments": { "threadId": 7 } }"#,
    );

    let response = messages(&adapter.stack_trace(&request));

    assert_eq!(response[0]["body"]["totalFrames"], 1);
    assert_eq!(response[0]["body"]["stackFrames"][0]["name"], "DoWork");
    assert_eq!(response[0]["body"]["stackFrames"][0]["line"], 42);
}

#[test]
fn exposes_locals_scope_for_a_returned_stack_frame() {
    let mut adapter = adapter();
    adapter
        .call_stacks
        .insert(7, vec![DebugStackFrame::default()]);
    let request = json(
        r#"{ "seq": 10, "type": "request", "command": "scopes", "arguments": { "frameId": 7000001 } }"#,
    );

    let response = messages(&adapter.scopes(&request));

    assert_eq!(response[0]["body"]["scopes"][0]["name"], "Локальные");
    assert_eq!(
        response[0]["body"]["scopes"][0]["variablesReference"],
        10_000_001
    );
}

#[test]
fn completes_deferred_evaluation_when_rdbg_polls_a_result() {
    let mut adapter = adapter();
    let request = json(
        r#"{ "seq": 11, "type": "request", "command": "evaluate", "arguments": { "expression": "Counter" } }"#,
    );
    adapter.pending_evaluations.insert(
        "result-1".to_owned(),
        PendingEvaluation::Evaluate {
            request,
            thread_id: 7,
            stack_level: 0,
            path: vec![CalculationPathItem::Expression("Counter".to_owned())],
        },
    );

    let response = messages(&adapter.handle_evaluation_event(DebugUiEvent {
        command_id: "exprEvaluated".to_owned(),
        evaluation: Some(DebugEvaluation {
            result_id: "result-1".to_owned(),
            value: "42".to_owned(),
            value_type: "Number".to_owned(),
            ..DebugEvaluation::default()
        }),
        ..DebugUiEvent::default()
    }));

    assert_eq!(response[0]["command"], "evaluate");
    assert!(response[0]["success"].as_bool().unwrap());
    assert_eq!(response[0]["body"]["result"], "42");
    assert_eq!(adapter.pending_evaluations.len(), 0);
}

#[test]
fn assigns_expandable_values_a_calculation_path_reference() {
    let mut adapter = adapter();
    let request = json(
        r#"{ "seq": 12, "type": "request", "command": "variables", "arguments": {} }"#,
    );
    let response = messages(&adapter.variables_response(
        &request,
        &VariableReference::Locals {
            thread_id: 7,
            stack_level: 0,
        },
        &vec![DebugVariable {
            name: "Document".to_owned(),
            value_type: "DocumentObject".to_owned(),
            value: "Demo".to_owned(),
            is_expandable: true,
            ..DebugVariable::default()
        }],
    ));

    let reference = response[0]["body"]["variables"][0]["variablesReference"]
        .as_i64()
        .unwrap();
    assert!(reference > 10_000_000);
    assert!(matches!(
        adapter.variable_references.get(&reference),
        Some(VariableReference::Value {
            path,
            interface: EvaluationInterface::Context,
            ..
        }) if path == &vec![CalculationPathItem::Expression("Document".to_owned())]
    ));
}

#[test]
fn validates_dynamic_auto_attach_requests() {
    let mut adapter = adapter();
    let invalid = json(
        r#"{
            "seq": 13,
            "type": "request",
            "command": "SetAutoAttachTargetTypesRequest",
            "arguments": { "types": ["Client", 7] }
        }"#,
    );
    let invalid_response = messages(&adapter.handle(&invalid));
    assert!(!invalid_response[0]["success"].as_bool().unwrap());
    assert!(invalid_response[0]["message"]
        .as_str()
        .unwrap()
        .contains("must be a string"));

    let no_session = json(
        r#"{
            "seq": 14,
            "type": "request",
            "command": "SetAutoAttachTargetTypesRequest",
            "arguments": { "types": [] }
        }"#,
    );
    let no_session_response = messages(&adapter.handle(&no_session));
    assert!(!no_session_response[0]["success"].as_bool().unwrap());
    assert_eq!(
        no_session_response[0]["message"],
        "no 1C debug session is attached"
    );
}

#[test]
fn preserves_the_original_debug_targets_item_contract() {
    let item = value(&debug_target_item(&DebugTarget {
        id: "target-1".to_owned(),
        seance_no: "42".to_owned(),
        user_name: String::new(),
        target_type: "WEBClient".to_owned(),
    }));

    assert_eq!(item["Id"], "target-1");
    assert_eq!(item["Seance"], "42");
    assert_eq!(item["User"], "Неизвестный пользователь");
    assert_eq!(item["Type"], "Веб-клиент");
}

#[test]
fn validates_manual_debug_target_requests_before_network_access() {
    let mut adapter = adapter();
    let missing_id = json(
        r#"{ "seq": 15, "type": "request", "command": "AttachDebugTargetRequest", "arguments": {} }"#,
    );
    let missing_id_response = messages(&adapter.handle(&missing_id));
    assert!(!missing_id_response[0]["success"].as_bool().unwrap());
    assert!(missing_id_response[0]["message"]
        .as_str()
        .unwrap()
        .contains("arguments.Id"));

    let no_session = json(
        r#"{ "seq": 16, "type": "request", "command": "DebugTargetsRequest", "arguments": {} }"#,
    );
    let no_session_response = messages(&adapter.handle(&no_session));
    assert!(!no_session_response[0]["success"].as_bool().unwrap());
    assert_eq!(
        no_session_response[0]["message"],
        "no 1C debug session is attached"
    );
}

#[test]
fn binary_serves_initialize_over_dap_stdio() {
    let request = r#"{"seq":1,"type":"request","command":"initialize","arguments":{}}"#;
    let turn = adapter().handle(&json(request));
    let messages = messages(&turn);

    assert_eq!(messages.len(), 1);
    assert_eq!(messages[0]["seq"], 1);
    assert_eq!(messages[0]["command"], "initialize");
    assert_eq!(messages[0]["body"]["supportsConfigurationDoneRequest"], true);
    assert_eq!(messages[0]["body"]["supportsSingleThreadExecutionRequests"], true);
    assert_eq!(messages[0]["body"]["exceptionBreakpointFilters"][0]["filter"], "all");
}

/// Attaches an adapter, as a client of the protocol does.
fn attach(adapter: &mut Adapter, arguments: ConnectionArguments) -> (Vec<Value>, Vec<String>) {
    let turn = adapter.handle(&json(
        r#"{"seq":2,"type":"request","command":"attach","arguments":{}}"#,
    ));
    let Next::ReadArguments(request, launch) = turn.next else {
        panic!("the arguments are not read");
    };
    let turn = adapter.arguments_read(request, launch, Some(arguments));
    let Next::InspectInfoBase(connecting, registry, _) = turn.next else {
        panic!("the infobase is not inspected");
    };
    let turn = adapter.info_base_inspected(connecting, registry, false, &vec![]);
    let (said, sent, last) = exchange(adapter, turn);
    assert!(matches!(last.next, Next::Done));
    (said, sent)
}

fn probe() -> ConnectionArguments {
    ConnectionArguments {
        info_base: None,
        info_base_alias: Some("Probe".to_owned()),
        ..arguments()
    }
}

#[test]
fn adapter_detaches_debug_ui_when_dap_input_closes() {
    let mut adapter = adapter();
    let (said, sent) = attach(&mut adapter, probe());
    assert_eq!(said[0]["command"], "attach");
    assert_eq!(said[0]["success"], true);
    assert_eq!(said[1]["event"], "initialized");
    assert!(sent[0].ends_with("/rdbgTest?cmd=test"));
    assert!(sent.iter().any(|url| url.contains("cmd=attachDebugUI")));

    let turn = adapter.begin_ending(Ending::InputClosed);
    let (said, sent, last) = exchange(&mut adapter, turn);
    assert!(said.is_empty());
    assert!(sent.iter().any(|url| url.contains("cmd=detachDebugUI")));
    assert!(last.stop_programs);
    assert!(adapter.debug_session.is_none());
}

fn tick(adapter: &mut Adapter) -> Turn {
    adapter.poll(ProgramReport {
        server_exit: None,
        client_exited: false,
        client_code: None,
    })
}

fn attach_target(adapter: &mut Adapter) {
    let turn = adapter.handle(&json(
        r#"{"seq":3,"type":"request","command":"AttachDebugTargetRequest","arguments":{"Id":"target-1"}}"#,
    ));
    let (said, sent, _) = exchange(adapter, turn);
    assert_eq!(said[0]["command"], "AttachDebugTargetRequest");
    assert_eq!(said[0]["success"], true);
    assert_eq!(said[1]["event"], "thread");
    assert_eq!(said[1]["body"]["reason"], "started");
    assert_eq!(said[1]["body"]["threadId"], 1);
    assert_eq!(said[2]["event"], "DebugTargetsUpdated");
    assert_eq!(sent.len(), 3);
}

#[test]
fn pending_rdbg_poll_does_not_delay_step_in_request() {
    let mut adapter = adapter();
    attach(&mut adapter, probe());
    attach_target(&mut adapter);
    let poll = tick(&mut adapter);
    assert!(matches!(poll.next, Next::Poll(_, 1, _)));
    assert_eq!(records(&poll)[0]["event"], "rdbg.poll.worker_spawned");
    assert!(matches!(tick(&mut adapter).next, Next::Done));

    let turn = adapter.handle(&json(
        r#"{"seq":4,"type":"request","command":"stepIn","arguments":{"threadId":1}}"#,
    ));
    assert_eq!(records(&turn)[0]["event"], "dap.step.received");
    let Next::Send(request, reason) = turn.next else {
        panic!("no step is sent");
    };
    assert!(request.url.ends_with("cmd=step"));
    assert!(request.body.unwrap().contains("<action>StepIn</action>"));
    let turn = adapter.replied(reason, &answered("<response/>"));
    let said = messages(&turn);
    assert_eq!(said[0]["command"], "stepIn");
    assert_eq!(said[0]["success"], true);
    assert_eq!(said[1]["event"], "continued");
    assert_eq!(said[1]["body"]["threadId"], 1);
    assert_eq!(records(&turn)[0]["event"], "rdbg.step.response");

    let turn = adapter.handle(&json(
        r#"{"seq":5,"type":"request","command":"disconnect","arguments":{}}"#,
    ));
    let (said, _, _) = exchange(&mut adapter, turn);
    assert_eq!(said[0]["command"], "disconnect");
    assert_eq!(said[0]["success"], true);
}

const STOPPED: &str = "<response><result><cmdID>callStackFormed</cmdID><targetID><id>target-1</id></targetID><stopByBP>false</stopByBP><callStack><moduleID><extensionName></extensionName><objectID>object-id</objectID><propertyID>property-id</propertyID></moduleID><lineNo>42</lineNo><presentation>VGVzdE1ldGhvZA==</presentation></callStack></result></response>";

fn polled(body: &str) -> Result<PingOutcome, String> {
    Ok(PingOutcome::Events(PingResult {
        events: parse_debug_ui_events(body).unwrap(),
        timings: PingTimings { http_elapsed: 1, parse_elapsed: 0 },
    }))
}

#[test]
fn step_replaces_held_poll_and_receives_stopped_without_waiting_for_it() {
    let mut adapter = adapter();
    attach(&mut adapter, probe());
    attach_target(&mut adapter);
    let Next::Poll(long, first, session) = tick(&mut adapter).next else {
        panic!("no poll is begun");
    };
    assert_eq!(long.timeout_ms, None);

    let turn = adapter.handle(&json(
        r#"{"seq":4,"type":"request","command":"stepIn","arguments":{"threadId":1}}"#,
    ));
    let Next::Send(_, reason) = turn.next else {
        panic!("no step is sent");
    };
    let turn = adapter.replied(reason, &answered("<response/>"));
    assert_eq!(messages(&turn)[1]["event"], "continued");
    assert_eq!(records(&turn)[1]["event"], "rdbg.poll.cancel_requested");
    assert_eq!(records(&turn)[1]["pollId"], first);
    assert_eq!(records(&turn)[2]["mode"], "step-priority");
    let last = &records(&turn)[3];
    assert_eq!(last["event"], "dap.step.response");
    assert_eq!((&last["threadId"], &last["targetId"]), (&1.into(), &"target-1".into()));
    let Next::Poll(short, second, _) = turn.next else {
        panic!("no poll is begun");
    };
    assert_eq!(short.timeout_ms, Some(250));
    assert_ne!(first, second);

    // The short poll expires, the next one brings the stop, and the first is still held.
    let turn = adapter.poll_finished(second, &session, Ok(PingOutcome::TimedOut));
    assert_eq!(records(&turn)[0]["event"], "rdbg.poll.timed_out");
    assert!(messages(&turn).is_empty());
    let Next::Poll(_, third, _) = tick(&mut adapter).next else {
        panic!("no poll is begun");
    };
    let turn = adapter.poll_finished(third, &session, polled(STOPPED));
    let (said, _, _) = exchange(&mut adapter, turn);
    assert_eq!(said[0]["event"], "stopped");
    assert_eq!(said[0]["body"]["reason"], "step");
    assert_eq!(said[0]["body"]["threadId"], 1);

    // What the first poll brings is still taken over; its failure would not be reported.
    let turn = adapter.poll_finished(first, &session, Err("closed".to_owned()));
    assert!(messages(&turn).is_empty());

    let turn = adapter.handle(&json(
        r#"{"seq":5,"type":"request","command":"disconnect","arguments":{}}"#,
    ));
    let (said, _, last) = exchange(&mut adapter, turn);
    assert_eq!(said[0]["success"], true);
    assert!(last.stop_programs);
}

#[test]
fn launch_file_infobase_manages_dbgs_and_debuggee_over_rdbg() {
    let mut adapter = adapter();
    let arguments = ConnectionArguments {
        info_base: Some("FileDemo".to_owned()),
        platform_path: Some("/opt/1c".to_owned()),
        debug_server_port: 1,
        ..arguments()
    };
    let turn = adapter.handle(&json(
        r#"{"seq":2,"type":"request","command":"launch","arguments":{}}"#,
    ));
    let Next::ReadArguments(request, launch) = turn.next else {
        panic!("the arguments are not read");
    };
    assert!(launch);
    let turn = adapter.arguments_read(request, launch, Some(arguments));
    let Next::InspectInfoBase(connecting, registry, path) = turn.next else {
        panic!("the infobase is not inspected");
    };
    assert_eq!(path, "FileDemo");
    let lists = vec!["[FileDemo]\nConnect=File=\"/tmp/file-demo\";\n".to_owned()];
    let turn = adapter.info_base_inspected(connecting, registry, false, &lists);
    let Next::ListPlatform(located, path) = turn.next else {
        panic!("the platform is not listed");
    };
    let listing = PlatformListing { has_client: true, directories: None };
    let turn = adapter.platform_listed(located, &path, &listing);
    let Next::CheckDebugServer(located, path) = turn.next else {
        panic!("the debug server is not looked for");
    };
    assert_eq!(path, "/opt/1c/dbgs");
    let turn = adapter.debug_server_checked(located, &path, true);
    let Next::StartDebugServer(located, path, host) = turn.next else {
        panic!("the debug server is not started");
    };
    assert_eq!((path.as_str(), host.as_str()), ("/opt/1c/dbgs", "127.0.0.1"));
    let turn = adapter.debug_server_started(located, Ok(1556));
    let (said, sent, _) = exchange(&mut adapter, turn);
    assert_eq!(said[0]["command"], "launch");
    assert_eq!(said[0]["success"], true);
    assert_eq!(said[1]["event"], "initialized");
    assert!(sent.iter().all(|url| url.starts_with("http://127.0.0.1:1556/")));
    assert!(sent.iter().any(|url| url.contains("rdbgTest?cmd=test")));
    assert!(sent.iter().any(|url| url.contains("cmd=attachDebugUI")));

    let turn = adapter.handle(&json(
        r#"{"seq":3,"type":"request","command":"configurationDone","arguments":{}}"#,
    ));
    let Next::LaunchClient(request) = turn.next else {
        panic!("the client is not launched");
    };
    let Next::ListClientPlatform(request, path) = adapter.launch_debuggee(request).next else {
        panic!("the platform is not listed");
    };
    let Next::CheckClient(request, path) =
        adapter.client_platform_listed(request, &path, &listing).next
    else {
        panic!("the client is not looked for");
    };
    assert_eq!(path, "/opt/1c/1cv8c");
    let Next::StartClient(request, path, switches) =
        adapter.client_checked(request, &path, true).next
    else {
        panic!("the client is not started");
    };
    let switches = switches.join("\n");
    assert!(switches.contains("/IBName\nFileDemo"));
    assert!(switches.contains("-http\n-attach"));
    assert!(switches.contains("/DEBUGGERURL\nhttp://127.0.0.1:1556"));
    let turn = adapter.client_started(&request, &path, true);
    assert_eq!(messages(&turn)[0]["command"], "configurationDone");
    assert_eq!(messages(&turn)[0]["success"], true);

    let turn = adapter.handle(&json(
        r#"{"seq":4,"type":"request","command":"disconnect","arguments":{}}"#,
    ));
    let (said, sent, last) = exchange(&mut adapter, turn);
    assert_eq!(said[0]["success"], true);
    assert!(sent[0].contains("cmd=detachDebugUI"));
    assert!(last.stop_programs);
}

#[test]
fn connections_that_fail_tell_why_and_leave_nothing() {
    let mut adapter = adapter();
    let request = r#"{"seq":2,"type":"request","command":"launch"}"#;
    let refused = |turn: &Turn| messages(turn)[0]["message"].as_str().unwrap().to_owned();

    let turn = adapter.arguments_read(json(request), true, None);
    assert_eq!(refused(&turn), "launch/attach requires debugServerHost and debugServerPort");
    let nameless = ConnectionArguments { info_base: None, ..arguments() };
    let turn = adapter.arguments_read(json(request), true, Some(nameless));
    assert_eq!(refused(&turn), "launch/attach requires infoBase or infoBaseAlias");

    let inspect = |adapter: &mut Adapter, arguments: ConnectionArguments| {
        let turn = adapter.arguments_read(json(request), true, Some(arguments));
        let Next::InspectInfoBase(connecting, registry, _) = turn.next else {
            panic!("the infobase is not inspected");
        };
        adapter.info_base_inspected(connecting, registry, true, &vec![])
    };
    let turn = inspect(&mut adapter, arguments());
    assert_eq!(refused(&turn), "launch requires platformPath for a file infobase");
    let platform = || ConnectionArguments {
        platform_path: Some("/opt/1c".to_owned()),
        ..arguments()
    };
    let Next::ListPlatform(located, path) = inspect(&mut adapter, platform()).next else {
        panic!("the platform is not listed");
    };
    let closed = PlatformListing { has_client: false, directories: None };
    let turn = adapter.platform_listed(located, &path, &closed);
    assert_eq!(refused(&turn), "cannot read platformPath /opt/1c");
    let Next::ListPlatform(located, _) = inspect(&mut adapter, platform()).next else {
        panic!("the platform is not listed");
    };
    let turn = adapter.debug_server_checked(located, "/opt/1c/dbgs", false);
    assert_eq!(refused(&turn), "1C debug server executable was not found at /opt/1c/dbgs");
    let Next::ListPlatform(located, _) = inspect(&mut adapter, platform()).next else {
        panic!("the platform is not listed");
    };
    let turn = adapter.debug_server_started(located, Ok(1556));
    let Next::Send(_, reason) = turn.next else {
        panic!("the connection is not tested");
    };
    let turn = adapter.replied(reason, &HttpReply::Failed);
    assert_eq!(refused(&turn), "cannot reach 1C debug server at http://127.0.0.1:1556/e1crdbg");
    assert!(turn.stop_programs);
    let unnamed = ConnectionArguments { debug_server_host: " ".to_owned(), ..platform() };
    let Next::ListPlatform(located, _) = inspect(&mut adapter, unnamed).next else {
        panic!("the platform is not listed");
    };
    let turn = adapter.debug_server_started(located, Ok(1556));
    assert_eq!(refused(&turn), "debugServerHost must not be empty");
    assert!(!turn.stop_programs);
    assert!(adapter.debug_session.is_none() && adapter.debug_server.is_none());
}

#[test]
fn a_session_that_cannot_be_configured_is_detached_again() {
    let mut adapter = adapter();
    let unknown = ConnectionArguments {
        auto_attach_types: Some(vec!["Nothing".to_owned()]),
        ..probe()
    };
    let (said, sent) = attach(&mut adapter, unknown);
    assert_eq!(said.len(), 1);
    assert_eq!(said[0]["success"], false);
    assert!(sent.last().unwrap().contains("cmd=detachDebugUI"));
    assert!(adapter.debug_session.is_none());
}

#[test]
fn there_is_at_most_one_session() {
    let mut adapter = attached();
    assert_eq!(
        refusal_of(&mut adapter, r#"{"seq":1,"type":"request","command":"attach"}"#),
        "a 1C debug server is already attached"
    );
}

#[test]
fn requests_without_what_they_need_are_refused() {
    let mut adapter = attached();
    for (request, message) in [
        (r#"{"command":"nothing"}"#, "DAP command `nothing` is not implemented yet"),
        (r#"{}"#, "DAP command `` is not implemented yet"),
        (r#"{"command":"next"}"#, "step request requires threadId"),
        (
            r#"{"command":"next","arguments":{"threadId":5}}"#,
            "unknown 1C debug thread 5",
        ),
        (r#"{"command":"stackTrace"}"#, "stackTrace requires threadId"),
        (r#"{"command":"scopes"}"#, "scopes requires frameId"),
        (
            r#"{"command":"scopes","arguments":{"frameId":1000001}}"#,
            "unknown stack frame",
        ),
        (
            r#"{"command":"variables","arguments":{"variablesReference":1}}"#,
            "variablesReference does not identify a current scope or variable",
        ),
        (
            r#"{"command":"evaluate","arguments":{"expression":" "}}"#,
            "evaluate requires a non-empty expression",
        ),
        (
            r#"{"command":"evaluate","arguments":{"expression":"A"}}"#,
            "evaluate requires a stack frame returned by stackTrace",
        ),
        (
            r#"{"command":"setBreakpoints","arguments":{"source":{"path":""}}}"#,
            "setBreakpoints requires arguments.source.path",
        ),
        (
            r#"{"command":"setBreakpoints","arguments":{"source":{"path":"a"}}}"#,
            "setBreakpoints requires rootProject in the launch configuration",
        ),
        (
            r#"{"command":"SetAutoAttachTargetTypesRequest"}"#,
            "SetAutoAttachTargetTypesRequest requires arguments.types",
        ),
        (
            r#"{"command":"AttachDebugTargetRequest","arguments":{"id":"  "}}"#,
            "AttachDebugTargetRequest requires arguments.Id",
        ),
    ] {
        assert_eq!(refusal_of(&mut adapter, request), message);
    }
    let mut idle = Adapter::new(Host { windows: false, separator: '/' });
    for command in ["pause", "setExceptionBreakpoints", "DebugTargetsRequest"] {
        let request = format!(r#"{{"command":"{command}"}}"#);
        assert_eq!(refusal_of(&mut idle, &request), "no 1C debug session is attached");
    }
}

#[test]
fn messages_are_numbered_and_answers_name_their_request() {
    let mut adapter = adapter();
    for (number, request) in [
        (1, r#"{"seq":10,"type":"request","command":"initialize"}"#),
        (2, r#"{"seq":11,"type":"request","command":"threads"}"#),
        (3, r#"{"seq":12,"type":"request","command":"nothing"}"#),
    ] {
        let said = messages(&adapter.handle(&json(request)));
        assert_eq!(said.len(), 1);
        assert_eq!(said[0]["seq"], number);
        assert_eq!(said[0]["request_seq"], number + 9);
    }
    assert!(is_request(&json(r#"{"type":"request"}"#)));
    assert!(!is_request(&json(r#"{"type":"response"}"#)));
}

#[test]
fn a_stopped_thread_shows_its_stack_with_the_innermost_frame_first() {
    let mut adapter = attached();
    adapter.threads.insert("target-1".to_owned(), 3);
    let two = "<response><result><cmdID>callStackFormed</cmdID><targetID><id>target-1</id></targetID><stopByBP>true</stopByBP><callStack><lineNo>1</lineNo><presentation>T3V0ZXI=</presentation></callStack><callStack><lineNo>0</lineNo><presentation>SW5uZXI=</presentation></callStack></result></response>";
    let turn = adapter.events(parse_debug_ui_events(two).unwrap());
    let (said, _, _) = exchange(&mut adapter, turn);
    assert_eq!(said[0]["body"]["reason"], "breakpoint");
    assert_eq!(said[0]["body"]["allThreadsStopped"], false);

    let trace = adapter.handle(&json(
        r#"{"command":"stackTrace","arguments":{"threadId":3,"startFrame":0,"levels":1}}"#,
    ));
    let body = &messages(&trace)[0]["body"];
    assert_eq!(body["totalFrames"], 2);
    assert_eq!(body["stackFrames"].as_array().unwrap().len(), 1);
    assert_eq!(body["stackFrames"][0]["name"], "Inner");
    assert_eq!(body["stackFrames"][0]["line"], 1);
    assert_eq!(body["stackFrames"][0]["id"], 3_000_001);
    assert_eq!(adapter.frame_address(Some(3_000_001)), Some((3, 0)));
    assert_eq!(adapter.frame_address(Some(3_000_002)), Some((3, 1)));
    assert_eq!(adapter.frame_address(Some(3_000_003)), None);
    assert_eq!(adapter.frame_address(Some(3_000_000)), None);
}

#[test]
fn variables_are_asked_for_by_their_references() {
    let mut adapter = attached();
    adapter.threads.insert("target-1".to_owned(), 1);
    adapter.call_stacks.insert(1, vec![DebugStackFrame::default()]);
    let scopes = adapter.handle(&json(r#"{"command":"scopes","arguments":{"frameId":1000001}}"#));
    assert_eq!(
        messages(&scopes)[0]["body"]["scopes"][0]["variablesReference"],
        10_000_001
    );
    let turn = adapter.handle(&json(
        r#"{"seq":7,"command":"variables","arguments":{"variablesReference":10000001}}"#,
    ));
    let Next::Send(request, reason) = turn.next else {
        panic!("no variables are asked for");
    };
    assert!(request.url.ends_with("cmd=evalLocalVariables"));
    let turn = adapter.replied(reason, &answered("<response><result><calculationResult><valueOfContextPropInfo><propInfo><propName>List</propName></propInfo><valueInfo><typeName>Array</typeName><pres>QXJyYXk=</pres><isIIndexedCollectionRO>true</isIIndexedCollectionRO></valueInfo></valueOfContextPropInfo><valueOfContextPropInfo><propInfo><propName>N</propName></propInfo><valueInfo><typeName>Number</typeName><pres>NDI=</pres></valueInfo></valueOfContextPropInfo></calculationResult></result></response>"));
    let body = &messages(&turn)[0]["body"]["variables"];
    assert_eq!(body[0]["variablesReference"], 10_000_002);
    assert_eq!(body[1]["variablesReference"], 0);
    assert_eq!(body[1]["value"], "42");

    let turn = adapter.handle(&json(
        r#"{"seq":8,"command":"variables","arguments":{"variablesReference":10000002}}"#,
    ));
    let Next::Send(request, reason) = turn.next else {
        panic!("no variables are asked for");
    };
    assert!(request.url.ends_with("cmd=evalExpr"));
    assert!(request.body.unwrap().contains("<interfaces>collection</interfaces>"));
    let Reason::Variables { result_id, .. } = &reason else {
        panic!("another reason");
    };
    let result_id = result_id.clone();
    let turn = adapter.replied(reason, &answered("<response></response>"));
    assert!(messages(&turn).is_empty());
    assert_eq!(adapter.pending_evaluations.len(), 1);

    // The result arrives later, and answers the request once.
    let arrived = || DebugUiEvent {
        command_id: "exprEvaluated".to_owned(),
        evaluation: Some(DebugEvaluation {
            result_id: result_id.clone(),
            variables: vec![DebugVariable {
                name: "first".to_owned(),
                index: Some(0),
                is_expandable: true,
                ..DebugVariable::default()
            }],
            ..DebugEvaluation::default()
        }),
        ..DebugUiEvent::default()
    };
    let said = messages(&adapter.events(vec![arrived()]));
    assert_eq!(said[0]["request_seq"], 8);
    assert_eq!(said[0]["body"]["variables"][0]["variablesReference"], 10_000_003);
    assert!(matches!(
        adapter.variable_references.get(&10_000_003),
        Some(VariableReference::Value { path, .. })
            if path[..] == [CalculationPathItem::Expression("List".to_owned()), CalculationPathItem::Index(0)]
    ));
    let said = messages(&adapter.events(vec![arrived()]));
    assert_eq!(said[0]["event"], "output");
    assert_eq!(
        said[0]["body"]["output"],
        format!("1C sent an unsolicited expression result {result_id}\n")
    );
}

#[test]
fn an_evaluation_shows_its_value_or_its_error() {
    let mut adapter = attached();
    adapter.threads.insert("target-1".to_owned(), 1);
    adapter.call_stacks.insert(1, vec![DebugStackFrame::default()]);
    let request = json(
        r#"{"seq":7,"command":"evaluate","arguments":{"expression":"A","frameId":1000001}}"#,
    );
    let turn = adapter.handle_as(&request, "result-7");
    let Next::Send(request, reason) = turn.next else {
        panic!("nothing is evaluated");
    };
    assert!(request.body.unwrap().contains("<expressionResultID>result-7</expressionResultID>"));
    let turn = adapter.replied(reason, &answered("<response><result><errorOccurred>false</errorOccurred><resultValueInfo><typeName>Structure</typeName><pres>VGVzdA==</pres><isExpandable>true</isExpandable></resultValueInfo></result></response>"));
    let body = &messages(&turn)[0]["body"];
    assert_eq!(body["result"], "Test");
    assert_eq!(body["type"], "Structure");
    assert_eq!(body["variablesReference"], 10_000_001);
}

#[test]
fn a_thread_takes_its_references_and_waiting_requests_with_it() {
    let mut adapter = attached();
    adapter.threads.insert("target-1".to_owned(), 1);
    adapter.threads.insert("target-2".to_owned(), 2);
    for thread_id in [1, 2] {
        adapter.call_stacks.insert(thread_id, vec![DebugStackFrame::default()]);
        adapter.store_variable_reference(VariableReference::Locals { thread_id, stack_level: 0 });
        adapter.pending_evaluations.insert(
            format!("result-{thread_id}"),
            PendingEvaluation::Variables {
                request: Json::Null,
                reference: VariableReference::Locals { thread_id, stack_level: 0 },
            },
        );
    }
    let turn = adapter.events(vec![DebugUiEvent {
        command_id: "targetQuit".to_owned(),
        target_id: Some("target-1".to_owned()),
        ..DebugUiEvent::default()
    }]);
    let said = messages(&turn);
    assert_eq!(said[0]["body"]["reason"], "exited");
    assert_eq!(said[0]["body"]["threadId"], 1);
    assert_eq!(said[1]["event"], "DebugTargetsUpdated");
    assert_eq!(adapter.threads.len(), 1);
    assert!(adapter.call_stacks.get(&1).is_none());
    assert!(adapter.variable_references.get(&10_000_001).is_none());
    assert!(adapter.variable_references.get(&10_000_002).is_some());
    assert!(adapter.pending_evaluations.get(&"result-1".to_owned()).is_none());
    assert!(adapter.pending_evaluations.get(&"result-2".to_owned()).is_some());
}

#[test]
fn targets_that_start_are_attached_under_new_thread_numbers() {
    let mut adapter = attached();
    adapter.threads.insert("target-0".to_owned(), 4);
    let started = |id: &str| DebugUiEvent {
        command_id: "targetStarted".to_owned(),
        target_id: Some(id.to_owned()),
        ..DebugUiEvent::default()
    };
    let turn = adapter.events(vec![started("target-0"), started("target-1")]);
    let (said, sent, _) = exchange(&mut adapter, turn);
    assert_eq!(said[0]["body"]["threadId"], 5);
    assert_eq!(sent.len(), 2);
    assert!(sent[0].contains("cmd=clearBreakOnNextStatement"));
    assert!(sent[1].contains("cmd=attachDetachDbgTargets"));
    let threads = messages(&adapter.handle(&json(r#"{"command":"threads"}"#)));
    assert_eq!(threads[0]["body"]["threads"][0]["id"], 4);
    assert_eq!(threads[0]["body"]["threads"][1]["name"], "1C target target-1");

    let turn = adapter.events(vec![started("target-2")]);
    let Next::Send(_, reason) = turn.next else {
        panic!("the target is not prepared");
    };
    let said = messages(&adapter.replied(reason, &HttpReply::Failed));
    assert_eq!(
        said[0]["body"]["output"],
        "cannot clear 1C break-on-next-statement: 1C debug server request `clearBreakOnNextStatement` failed\n"
    );
}

#[test]
fn events_that_only_tell_something_are_told() {
    let mut adapter = attached();
    adapter.threads.insert("target-1".to_owned(), 1);
    let formed = || DebugUiEvent {
        command_id: "callStackFormed".to_owned(),
        target_id: Some("target-1".to_owned()),
        message: Some("A=1".to_owned()),
        ..DebugUiEvent::default()
    };
    let turn = adapter.events(vec![DebugUiEvent { send_message_only: true, ..formed() }]);
    assert_eq!(messages(&turn)[0]["body"]["output"], "A=1\n");
    let Next::Send(request, reason) = turn.next else {
        panic!("the target does not go on");
    };
    assert!(request.body.unwrap().contains("<action>Continue</action>"));
    let said = messages(&adapter.replied(reason, &HttpReply::Failed));
    assert_eq!(
        said[0]["body"]["output"],
        "cannot continue 1C target after message: 1C debug server request `step` failed\n"
    );
    let turn = adapter.events(vec![DebugUiEvent { send_hit_counter_only: true, ..formed() }]);
    assert_eq!(messages(&turn).len(), 1);
    assert_eq!(adapter.call_stacks.len(), 0);

    let turn = adapter.events(vec![DebugUiEvent {
        command_id: "rteProcessing".to_owned(),
        message: None,
        ..formed()
    }]);
    assert_eq!(messages(&turn)[0]["body"]["reason"], "exception");
    let turn = adapter.events(vec![DebugUiEvent {
        target_id: Some("other".to_owned()),
        ..formed()
    }]);
    assert_eq!(
        messages(&turn)[0]["body"]["output"],
        "received call stack for unattached 1C target other\n"
    );
    let turn = adapter.events(vec![DebugUiEvent {
        command_id: "valueModified".to_owned(),
        ..DebugUiEvent::default()
    }]);
    assert_eq!(messages(&turn)[0]["body"]["output"], "1C debug event: valueModified\n");
    let turn = adapter.events(vec![DebugUiEvent {
        command_id: "exprEvaluated".to_owned(),
        ..DebugUiEvent::default()
    }]);
    assert_eq!(
        messages(&turn)[0]["body"]["output"],
        "1C sent exprEvaluated without calculation data\n"
    );
}

#[test]
fn a_failing_poll_is_reported_once() {
    let mut adapter = attached();
    for (poll, reports) in [(1, 1), (2, 0)] {
        assert!(matches!(tick(&mut adapter).next, Next::Poll(_, n, _) if n == poll));
        let turn = adapter.poll_finished(poll, "session-1", Err("refused".to_owned()));
        assert_eq!(messages(&turn).len(), reports);
    }
    tick(&mut adapter);
    let turn = adapter.poll_finished(3, "session-1", polled("<response/>"));
    assert!(matches!(turn.next, Next::Events(events) if events.is_empty()));
    tick(&mut adapter);
    let turn = adapter.poll_finished(4, "session-1", Err("refused".to_owned()));
    assert_eq!(
        messages(&turn)[0]["body"]["output"],
        "1C debug server poll failed: refused\n"
    );
    let turn = adapter.poll_finished(9, "session-0", polled(STOPPED));
    assert!(matches!(turn.next, Next::Done));
    assert!(turn.outputs.is_empty());
}

#[test]
fn the_session_ends_with_its_programs() {
    let mut adapter = attached();
    adapter.threads.insert("target-1".to_owned(), 1);
    let turn = adapter.poll(ProgramReport {
        server_exit: Some("exit status: 1".to_owned()),
        client_exited: false,
        client_code: None,
    });
    let Next::Send(_, reason) = turn.next else {
        panic!("the session is not detached");
    };
    let turn = adapter.replied(reason, &HttpReply::Failed);
    let said = messages(&turn);
    assert_eq!(
        said[0]["body"]["output"],
        "1C debug server exited unexpectedly: exit status: 1\n"
    );
    assert_eq!(
        said[1]["body"]["output"],
        "cannot detach 1C Debug UI after debug server exit: 1C debug server request `detachDebugUI` failed\n"
    );
    assert_eq!(said[2]["event"], "terminated");
    assert!(turn.stop_programs);
    assert!(adapter.debug_session.is_none());
    assert_eq!(adapter.threads.len(), 0);

    let mut adapter = attached();
    let turn = adapter.poll(ProgramReport {
        server_exit: None,
        client_exited: true,
        client_code: None,
    });
    let (said, _, _) = exchange(&mut adapter, turn);
    assert_eq!(said[0]["event"], "exited");
    assert_eq!(said[0]["body"]["exitCode"], -1);
    assert_eq!(said[1]["event"], "terminated");
}

#[test]
fn a_session_that_cannot_be_detached_ends_with_a_refusal() {
    let mut adapter = attached();
    let turn = adapter.handle(&json(r#"{"seq":5,"command":"terminate"}"#));
    let Next::Send(_, reason) = turn.next else {
        panic!("the session is not detached");
    };
    let turn = adapter.replied(reason, &HttpReply::Failed);
    assert_eq!(messages(&turn)[0]["success"], false);
    assert!(turn.stop_programs);
    assert!(adapter.debug_session.is_none() && adapter.debug_server.is_none());
}

#[test]
fn a_client_that_cannot_be_launched_still_waits() {
    let mut adapter = attached();
    adapter.pending_debuggee = Some(PendingDebuggee {
        arguments: arguments(),
        info_base: InfoBaseTarget {
            alias: "Demo".to_owned(),
            is_file: false,
            direct_file_path: None,
        },
    });
    let request = r#"{"seq":3,"command":"configurationDone"}"#;
    let refused = |turn: &Turn| messages(turn)[0]["message"].as_str().unwrap().to_owned();
    assert_eq!(refused(&adapter.launch_debuggee(json(request))), "launch requires platformPath");
    assert_eq!(
        refused(&adapter.client_checked(json(request), "/opt/1c/1cv8c", false)),
        "1C client executable was not found at /opt/1c/1cv8c"
    );
    assert_eq!(
        refused(&adapter.client_started(&json(request), "/opt/1c/1cv8c", false)),
        "cannot start 1C client /opt/1c/1cv8c"
    );
    assert!(adapter.pending_debuggee.is_some());
    assert!(matches!(adapter.handle(&json(request)).next, Next::LaunchClient(_)));
    adapter.debug_server = None;
    assert_eq!(refusal_of(&mut adapter, request), "no 1C debug server is attached");
    assert!(adapter.pending_debuggee.is_none());
}

const CONFIGURATION: &str = "<MetaDataObject><Configuration uuid=\"config-uuid\"><Properties><Name>Demo</Name></Properties></Configuration></MetaDataObject>";

fn source(path: &str, name: &str, content: SourceContent) -> SourceNode {
    SourceNode {
        name: name.to_owned(),
        name_is_exact: true,
        path: path.to_owned(),
        canonical: Some(path.to_owned()),
        is_link: false,
        is_listed: true,
        content,
    }
}

#[test]
fn breakpoints_of_all_modules_are_submitted() {
    let mut adapter = adapter();
    let arguments = ConnectionArguments {
        root_project: Some("/work/demo".to_owned()),
        ..probe()
    };
    let turn = adapter.arguments_read(json(r#"{"seq":1,"command":"attach"}"#), false, Some(arguments));
    let Next::ReadSources(connecting) = turn.next else {
        panic!("the sources are not read");
    };
    let root = source(
        "/work/demo",
        "demo",
        SourceContent::Directory(vec![
            source(
                "/work/demo/Configuration.xml",
                "Configuration.xml",
                SourceContent::File(CONFIGURATION.to_owned()),
            ),
            source(
                "/work/demo/Ext",
                "Ext",
                SourceContent::Directory(vec![
                    source("/work/demo/Ext/SessionModule.bsl", "SessionModule.bsl", SourceContent::File(String::new())),
                    source("/work/demo/Ext/ManagedApplicationModule.bsl", "ManagedApplicationModule.bsl", SourceContent::File(String::new())),
                ]),
            ),
        ]),
    );
    let turn = adapter.sources_read(
        connecting,
        &Sources {
            root: SourceRoot {
                path: "/work/demo".to_owned(),
                node: Some(root),
                configuration: Ok(CONFIGURATION.to_owned()),
                edt_configuration: Err("missing".to_owned()),
            },
            extensions: vec![],
            separator: '/',
        },
    );
    let Next::InspectInfoBase(connecting, registry, _) = turn.next else {
        panic!("the infobase is not inspected");
    };
    let turn = adapter.info_base_inspected(connecting, registry, false, &vec![]);
    exchange(&mut adapter, turn);

    let mut set = |path: &str, breakpoints: &str| {
        let request = format!(
            r#"{{"seq":2,"command":"setBreakpoints","arguments":{{"source":{{"path":"{path}"}},"breakpoints":{breakpoints}}}}}"#
        );
        let Next::ResolveSource(request, path) = adapter.handle(&json(&request)).next else {
            panic!("the source is not resolved");
        };
        let turn = adapter.source_resolved(&request, &path, Some(&path));
        match turn.next {
            Next::Send(request, reason) => {
                let turn = adapter.replied(reason, &answered("<response/>"));
                (request.body.unwrap(), messages(&turn))
            }
            _ => (String::new(), messages(&turn)),
        }
    };
    let (body, said) = set("/work/demo/Ext/SessionModule.bsl", r#"[{"line":3,"hitCondition":"5"}]"#);
    assert!(body.contains("<line>3</line>") && body.contains("<hitCount>5</hitCount>"));
    assert_eq!(said[0]["body"]["breakpoints"][0]["verified"], true);
    assert_eq!(said[0]["body"]["breakpoints"][0]["line"], 3);
    assert_eq!(
        said[0]["body"]["breakpoints"][0]["source"]["path"],
        "/work/demo/Ext/SessionModule.bsl"
    );
    let (body, _) = set("/work/demo/Ext/ManagedApplicationModule.bsl", r#"[{"line":8}]"#);
    assert!(body.contains("<line>3</line>") && body.contains("<line>8</line>"));
    let (body, _) = set("/work/demo/Ext/SessionModule.bsl", "[]");
    assert!(!body.contains("<line>3</line>") && body.contains("<line>8</line>"));

    let (_, said) = set("/work/demo/Ext/SessionModule.bsl", r#"[{"line":0}]"#);
    assert_eq!(said[0]["message"], "each source breakpoint requires a positive line number");
    let (_, said) = set("/work/demo/Ext/SessionModule.bsl", r#"[{"line":1,"hitCondition":"x"}]"#);
    assert_eq!(said[0]["message"], "hitCondition must be an integer");
    let (_, said) = set("/work/demo/Ext/SessionModule.bsl", "7");
    assert_eq!(said[0]["message"], "setBreakpoints requires arguments.breakpoints");
    let (_, said) = set("/work/other.bsl", "[]");
    assert_eq!(
        said[0]["message"],
        "the BSL file /work/other.bsl is not a known configuration module"
    );
}

#[test]
fn runtime_errors_stop_where_a_filter_is_given() {
    let mut adapter = attached();
    let mut set = |arguments: &str| {
        let request = format!(r#"{{"command":"setExceptionBreakpoints","arguments":{arguments}}}"#);
        let Next::Send(request, reason) = adapter.handle(&json(&request)).next else {
            panic!("nothing is sent");
        };
        let said = messages(&adapter.replied(reason, &answered("<response/>")));
        assert_eq!(said[0]["body"]["breakpoints"][0]["verified"], true);
        request.body.unwrap()
    };
    assert!(set(r#"{"filters":["all"]}"#).contains("<stopOnErrors>true</stopOnErrors>"));
    assert!(set("{}").contains("<stopOnErrors>false</stopOnErrors>"));
    let body = set(r#"{"filterOptions":[{"filterId":"all"},{"condition":"division"}]}"#);
    assert!(body.contains("<str>division</str>"));
    let body = set(r#"{"filterOptions":[{"condition":""},{"condition":"division"}]}"#);
    assert!(body.contains("<stopOnErrors>true</stopOnErrors>") && !body.contains("division"));
}

#[test]
fn targets_that_are_attached_are_not_listed() {
    let mut adapter = attached();
    let request = json(r#"{"seq":6,"command":"DebugTargetsRequest"}"#);
    let turn = adapter.handle(&request);
    let (said, _, _) = exchange(&mut adapter, turn);
    assert_eq!(said[0]["body"]["Items"][0]["Id"], "target-1");
    assert_eq!(said[0]["body"]["Items"][0]["Type"], "Тонкий клиент");
    adapter.threads.insert("target-1".to_owned(), 1);
    let turn = adapter.handle(&request);
    let (said, _, _) = exchange(&mut adapter, turn);
    assert_eq!(said[0]["body"]["Items"].as_array().unwrap().len(), 0);

    // A target that is attached, or gone, needs nothing more.
    for id in ["target-1", "gone"] {
        let request = format!(r#"{{"command":"AttachDebugTargetRequest","arguments":{{"id":" {id} "}}}}"#);
        let turn = adapter.handle(&json(&request));
        let (said, sent, _) = exchange(&mut adapter, turn);
        assert_eq!(said[0]["success"], true);
        assert_eq!(sent.len(), 1);
    }
}

#[test]
fn kinds_of_targets_have_a_presentation() {
    assert_eq!(debug_target_type_presentation("JOB"), "Фоновое задание");
    assert_eq!(debug_target_type_presentation("ServerEmulation"), "Сервер (файловый вариант)");
    assert_eq!(debug_target_type_presentation("Other"), "Other");
}

#[test]
fn continuing_tells_whether_all_threads_go_on() {
    let mut adapter = attached();
    adapter.threads.insert("target-1".to_owned(), 1);
    for (arguments, all) in [
        (r#"{"threadId":1}"#, true),
        (r#"{"threadId":1,"singleThread":true}"#, false),
    ] {
        let request = format!(r#"{{"command":"continue","arguments":{arguments}}}"#);
        let turn = adapter.handle(&json(&request));
        let (said, _, _) = exchange(&mut adapter, turn);
        assert_eq!(said[0]["body"]["allThreadsContinued"], all);
        assert_eq!(said[1]["body"]["allThreadsContinued"], all);
    }
    let turn = adapter.handle(&json(r#"{"command":"pause"}"#));
    let (said, sent, _) = exchange(&mut adapter, turn);
    assert_eq!(said[0]["success"], true);
    assert!(sent[0].ends_with("cmd=setBreakOnNextStatement"));
}

#[test]
fn only_continuing_and_stepping_in_are_announced() {
    let mut adapter = attached();
    adapter.threads.insert("target-1".to_owned(), 1);
    for (command, announced) in
        [("continue", true), ("stepIn", true), ("next", false), ("stepOut", false)]
    {
        let request = format!(r#"{{"seq":9,"command":"{command}","arguments":{{"threadId":1}}}}"#);
        let turn = adapter.handle(&json(&request));
        let (said, _, _) = exchange(&mut adapter, turn);
        assert_eq!(said[0]["type"], "response");
        assert_eq!(said[0]["command"], command);
        assert_eq!(said.len(), if announced { 2 } else { 1 });
        assert!(said[1..].iter().all(|event| event["event"] == "continued"));
    }
}

#[test]
fn the_answer_comes_before_the_events() {
    let mut adapter = adapter();
    let (said, _) = attach(&mut adapter, probe());
    let kinds: Vec<_> = said.iter().map(|message| message["type"].clone()).collect();
    assert_eq!(kinds, ["response", "event"]);
    let turn = adapter.handle(&json(
        r#"{"seq":3,"type":"request","command":"AttachDebugTargetRequest","arguments":{"Id":"target-1"}}"#,
    ));
    let (said, _, _) = exchange(&mut adapter, turn);
    let kinds: Vec<_> = said.iter().map(|message| message["type"].clone()).collect();
    assert_eq!(kinds, ["response", "event", "event"]);
}

#[test]
fn trace_lines_start_with_the_version_and_the_time() {
    let mut adapter = attached();
    let turn = tick(&mut adapter);
    let Output::Trace(members) = turn.outputs.into_iter().next().unwrap() else {
        panic!("no record");
    };
    let line = value(&trace_line(17, members));
    assert_eq!(line["schemaVersion"], 1);
    assert_eq!(line["tsMs"], 17);
    assert_eq!(line["event"], "rdbg.poll.worker_spawned");
    assert_eq!(line["mode"], "long");
}

#[test]
fn numbers_that_are_used_up_stop_the_adapter() {
    let mut adapter = attached();
    assert!(adapter.is_ready());
    adapter.next_sequence = u64::MAX;
    assert!(!adapter.is_ready());
    adapter.next_sequence = 0;
    adapter.threads.insert("target-1".to_owned(), i64::MAX);
    assert!(!adapter.is_ready());
}

#[test]
fn variables_without_references_left_are_refused() {
    let mut adapter = attached();
    adapter.next_variable_reference = i64::MAX - 1;
    let variable = || DebugVariable { name: "A".to_owned(), ..DebugVariable::default() };
    let locals = VariableReference::Locals { thread_id: 1, stack_level: 0 };
    let turn = adapter.answer_variables(&Json::Null, &locals, &vec![variable(), variable()]);
    assert_eq!(messages(&turn)[0]["message"], "no variablesReference is left");
}
