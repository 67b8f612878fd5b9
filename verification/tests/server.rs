use onec_debug_adapter::debug_requests::{AUTO_ATTACH_NAMESPACE, DEBUG_BASE_NAMESPACE};
use onec_debug_adapter::debug_server::{
    acknowledgement, debug_ui_attached, evaluation_started, listed_targets,
    local_variables_started, ping_result, timed_outcome, DebugServer, HttpReply, HttpRequest,
    PingOutcome, PingTimings,
};
use onec_debug_adapter::debug_types::{DebugTarget, DebugUiEvent, DebugUiSession};

fn answered(body: &str) -> HttpReply {
    HttpReply::Answered(200, "200 OK".to_owned(), body.to_owned())
}

/// A request as it goes over the wire.
fn written(request: &HttpRequest) -> String {
    let path = request.url.strip_prefix("http://127.0.0.1:1550").unwrap();
    format!(
        "POST {path} HTTP/1.1\r\n{}",
        request.body.as_deref().unwrap_or_default()
    )
}

#[test]
fn attaches_and_detaches_using_the_rdbg_http_endpoints() {
    let server = DebugServer::new("127.0.0.1", 1550).unwrap();
    let mut requests = Vec::new();

    requests.push(written(&server.attach_debug_ui("DemoBase").unwrap()));
    server.connection_tested(&answered("")).unwrap();
    let session = DebugUiSession {
        id: "0f45f589-6c7d-4f5f-8433-4e8f611e6a9a".to_owned(),
        info_base_alias: "DemoBase".to_owned(),
    };
    requests.push(written(&server.register_session(&session)));
    debug_ui_attached(&answered("<response><result>registered</result></response>")).unwrap();
    let types = vec!["Client".to_owned(), "HttpService".to_owned()];
    requests.push(written(&server.set_auto_attach_types(&session, &types).unwrap()));
    acknowledgement("setAutoAttachSettings", &answered("<response></response>")).unwrap();
    requests.push(written(&server.get_debug_targets(&session)));
    assert_eq!(
        listed_targets(&answered("<response><id><id>target-1</id><seanceNo>1</seanceNo><userName>Demo</userName><targetType>Client</targetType></id></response>")).unwrap(),
        vec![DebugTarget {
            id: "target-1".to_owned(),
            seance_no: "1".to_owned(),
            user_name: "Demo".to_owned(),
            target_type: "Client".to_owned(),
        }]
    );
    requests.push(written(&server.ping_debug_ui_timed(&session, None)));
    let events = ping_result(&answered("<response><result><cmdID>targetStarted</cmdID><targetID><id>target-1</id></targetID></result></response>")).unwrap();
    let timings = PingTimings { http_elapsed: 3, parse_elapsed: 1 };
    assert_eq!(
        match timed_outcome(events, timings) {
            PingOutcome::Events(result) => result.events,
            PingOutcome::TimedOut => panic!("unbounded ping unexpectedly timed out"),
        },
        vec![DebugUiEvent {
            command_id: "targetStarted".to_owned(),
            target_id: Some("target-1".to_owned()),
            ..DebugUiEvent::default()
        }]
    );
    requests.push(written(&server.clear_break_on_next_statement(&session)));
    requests.push(written(
        &server
            .attach_debug_targets(&session, &vec!["target-1".to_owned()])
            .unwrap(),
    ));
    requests.push(written(&server.detach_debug_ui(&session)));
    acknowledgement("detachDebugUI", &answered("<response></response>")).unwrap();

    assert!(requests[0].starts_with("POST /e1crdbg/rdbgTest?cmd=test HTTP/1.1"));
    assert!(requests[1].starts_with("POST /e1crdbg/rdbg?cmd=attachDebugUI HTTP/1.1"));
    assert!(requests[1].contains("<infoBaseAlias>DemoBase</infoBaseAlias>"));
    assert!(requests[1].contains("<foregroundAbility>true</foregroundAbility>"));
    assert!(requests[2].starts_with("POST /e1crdbg/rdbg?cmd=setAutoAttachSettings HTTP/1.1"));
    assert!(requests[2].contains(&format!(
        "<targetType xmlns=\"{AUTO_ATTACH_NAMESPACE}\">Client</targetType>"
    )));
    assert!(requests[2].contains(&format!(
        "<targetType xmlns=\"{AUTO_ATTACH_NAMESPACE}\">HTTPService</targetType>"
    )));
    assert!(requests[3].starts_with("POST /e1crdbg/rdbg?cmd=getDbgTargets HTTP/1.1"));
    assert!(requests[3].contains("<infoBaseAlias>DemoBase</infoBaseAlias>"));
    assert!(requests[4].starts_with("POST /e1crdbg/rdbg?cmd=pingDebugUIParams&dbgui="));
    assert!(requests[5].starts_with("POST /e1crdbg/rdbg?cmd=clearBreakOnNextStatement HTTP/1.1"));
    assert!(requests[5].contains(&format!(
        "<idOfDebuggerUI>{}</idOfDebuggerUI>",
        session.id()
    )));
    assert!(requests[6].starts_with("POST /e1crdbg/rdbg?cmd=attachDetachDbgTargets HTTP/1.1"));
    assert!(requests[6].contains(&format!(
        "<attach>true</attach><id><id xmlns=\"{DEBUG_BASE_NAMESPACE}\">target-1</id></id>"
    )));
    assert!(requests[7].starts_with("POST /e1crdbg/rdbg?cmd=detachDebugUI HTTP/1.1"));
    assert!(requests[7].contains(&format!(
        "<idOfDebuggerUI>{}</idOfDebuggerUI>",
        session.id()
    )));
}

#[test]
fn servers_and_aliases_must_be_named() {
    assert_eq!(
        DebugServer::new(" ", 1550).unwrap_err(),
        "debugServerHost must not be empty"
    );
    let server = DebugServer::new("host", 7).unwrap();
    assert_eq!(server.endpoint(), "http://host:7/e1crdbg");
    assert_eq!(
        server.attach_debug_ui("\t").unwrap_err(),
        "infoBaseAlias must not be empty"
    );
    let session = DebugUiSession { id: "s".to_owned(), info_base_alias: "a".to_owned() };
    assert!(server.set_auto_attach_types(&session, &vec!["Nothing".to_owned()]).is_err());
    assert_eq!(server.attach_debug_targets(&session, &vec![]), None);
}

#[test]
fn replies_of_other_statuses_are_refused_by_the_check_alone() {
    let server = DebugServer::new("host", 7).unwrap();
    let gone = HttpReply::Answered(404, "404 Not Found".to_owned(), String::new());
    assert_eq!(
        server.connection_tested(&gone).unwrap_err(),
        "1C debug server returned HTTP 404 Not Found"
    );
    assert_eq!(
        server.connection_tested(&HttpReply::Failed).unwrap_err(),
        "cannot reach 1C debug server at http://host:7/e1crdbg"
    );
    assert_eq!(acknowledgement("step", &HttpReply::Failed).unwrap_err(), "1C debug server request `step` failed");
    assert_eq!(
        acknowledgement("step", &HttpReply::Unreadable(200, "200 OK".to_owned())).unwrap_err(),
        "cannot read XML response from 1C debug server"
    );
}

#[test]
fn registrations_that_fail_tell_why() {
    let told = |result: &str| {
        debug_ui_attached(&answered(&format!("<response><result>{result}</result></response>")))
            .unwrap_err()
    };
    assert_eq!(told("ibInDebug"), "the infobase is already being debugged");
    assert_eq!(told("notRegistered"), "the infobase is not registered for debugging");
    assert_eq!(told("credentialsRequired"), "1C debug server requires infobase credentials");
    assert_eq!(told("other"), "unknown attachDebugUI result `other`");
}

#[test]
fn each_calculation_gets_an_identifier_of_its_own() {
    let server = DebugServer::new("127.0.0.1", 1550).unwrap();
    let session = DebugUiSession { id: "s".to_owned(), info_base_alias: "a".to_owned() };
    let first = server.begin_evaluate_expression(&session, "t", 0, "A").unwrap();
    let second = server.begin_evaluate_local_variables(&session, "t", 0);

    assert_ne!(first.result_id, second.result_id);
    for id in [&first.result_id, &second.result_id] {
        assert_eq!(id.len(), 36);
        assert_eq!(id.as_bytes()[14], b'4');
        assert_eq!(id.matches('-').count(), 4);
        assert_eq!(id.to_lowercase(), **id);
    }
    assert!(first.request.body.unwrap().contains(&first.result_id));
    assert_eq!(
        server.begin_evaluate_expression(&session, "t", 0, " ").unwrap_err(),
        "expression must not be empty"
    );
    assert_eq!(
        server
            .begin_evaluate_path(
                &session,
                "t",
                0,
                &vec![],
                onec_debug_adapter::debug_types::EvaluationInterface::Context
            )
            .unwrap_err(),
        "calculation path must not be empty"
    );
}

#[test]
fn results_may_be_deferred() {
    let empty = answered("<response></response>");
    let started = evaluation_started("r".to_owned(), &empty).unwrap();
    assert_eq!(started.result_id, "r");
    assert_eq!(started.result, None);
    assert_eq!(local_variables_started("r".to_owned(), &empty).unwrap().result, None);
    assert_eq!(ping_result(&HttpReply::TimedOut).unwrap(), None);
    assert_eq!(
        ping_result(&HttpReply::Failed).unwrap_err(),
        "1C debug server request `pingDebugUIParams` failed"
    );
}
