use onec_debug_adapter::debug_server::DebugServer;
use onec_debug_adapter::info_base::{
    direct_file_infobase_path, ibases_paths, info_base_target, launcher_info_base, trace_file_path,
    ConnectionArguments, InfoBaseTarget, FILE_INFOBASE_ALIAS,
};
use onec_debug_adapter::platform::{
    await_port, client_arguments, debug_server_arguments, debug_server_port_from_notification,
    debug_server_port_from_notification_bytes, platform_bin, version_key, Notification,
    PlatformListing, Wait,
};

#[test]
fn derives_server_alias_from_the_1c_launcher_connection() {
    let ibases = r#"
[Demo]
Connect=Srvr="localhost";Ref="Accounting";

[FileDemo]
Connect=File="/tmp/demo";
"#;

    assert_eq!(
        launcher_info_base(ibases, "FileDemo"),
        Some(InfoBaseTarget {
            alias: "DefAlias".to_owned(),
            is_file: true,
            direct_file_path: None,
        })
    );
    assert_eq!(
        launcher_info_base(ibases, "Demo"),
        Some(InfoBaseTarget {
            alias: "Accounting".to_owned(),
            is_file: false,
            direct_file_path: None,
        })
    );
    assert_eq!(launcher_info_base(ibases, "Missing"), None);
}

#[test]
fn parses_a_port_published_by_dbgs() {
    assert_eq!(
        debug_server_port_from_notification("localhost:1556\n").unwrap(),
        1556
    );
    assert_eq!(
        debug_server_port_from_notification("[::1]:1557").unwrap(),
        1557
    );
    assert!(debug_server_port_from_notification("no-port").is_err());
    assert!(debug_server_port_from_notification("localhost:0").is_err());

    let mut utf16le = vec![0xff, 0xfe];
    utf16le.extend("127.0.0.1:1558".encode_utf16().flat_map(u16::to_le_bytes));
    assert_eq!(
        debug_server_port_from_notification_bytes(&utf16le).unwrap(),
        1558
    );
}

fn listing(names: &[&str]) -> PlatformListing {
    PlatformListing {
        has_client: false,
        directories: Some(names.iter().map(|name| (*name).to_owned()).collect()),
    }
}

#[test]
fn finds_latest_or_requested_1c_platform_version() {
    let versions = listing(&["8.3.9.1", "8.3.10.1"]);

    assert_eq!(
        platform_bin("/opt/1c", &versions, None, false, '/').unwrap(),
        "/opt/1c/8.3.10.1"
    );
    assert_eq!(
        platform_bin("/opt/1c", &versions, Some("8.3.9.1"), false, '/').unwrap(),
        "/opt/1c/8.3.9.1"
    );
    assert_eq!(
        platform_bin("/opt/1c", &versions, None, true, '/').unwrap(),
        "/opt/1c/8.3.10.1/bin"
    );
    assert_eq!(
        platform_bin("/opt/1c", &versions, Some("8.3.9.1"), true, '/').unwrap(),
        "/opt/1c/8.3.9.1/bin"
    );
}

#[test]
fn the_latest_version_is_the_largest_by_its_numbers() {
    let versions = listing(&["8.3.9", "8.3.10.1", "8.3.10", "conf", "8.3.9.9"]);

    assert_eq!(
        platform_bin("/opt/1c", &versions, Some("LATEST"), false, '/').unwrap(),
        "/opt/1c/8.3.10.1"
    );
    assert_eq!(version_key("8.3.10"), Some(vec![8, 3, 10]));
    assert_eq!(version_key("conf"), None);
}

#[test]
fn a_platform_that_is_not_there_is_refused() {
    let direct = PlatformListing { has_client: true, directories: None };
    assert_eq!(platform_bin("/opt/1c", &direct, Some("8"), false, '/').unwrap(), "/opt/1c");
    let closed = PlatformListing { has_client: false, directories: None };
    assert_eq!(
        platform_bin("/opt/1c", &closed, None, false, '/').unwrap_err(),
        "cannot read platformPath /opt/1c"
    );
    assert_eq!(
        platform_bin("/opt/1c", &listing(&["conf"]), None, false, '/').unwrap_err(),
        "platformPath contains no 1C version directories"
    );
    assert_eq!(
        platform_bin("/opt/1c", &listing(&["8.3.9.1"]), Some("8.3.8"), false, '/').unwrap_err(),
        "1C platform version 8.3.8 was not found"
    );
}

fn arguments() -> ConnectionArguments {
    ConnectionArguments {
        debug_server_host: "localhost".to_owned(),
        debug_server_port: 1550,
        info_base: None,
        info_base_alias: None,
        root_project: None,
        platform_path: None,
        platform_version: None,
        extensions: None,
        auto_attach_types: None,
        trace: None,
        trace_file: None,
    }
}

#[test]
fn recognizes_direct_file_infobases_without_a_launcher_registration() {
    let directory = "/tmp/onec-file-base";
    let connection = format!("File=\"{directory}\";");

    assert_eq!(
        direct_file_infobase_path(directory, true),
        Some(directory.to_owned())
    );
    assert_eq!(
        direct_file_infobase_path(&connection, true),
        Some(directory.to_owned())
    );

    let arguments = ConnectionArguments {
        info_base: Some(directory.to_owned()),
        info_base_alias: Some("IgnoredForFileBase".to_owned()),
        ..arguments()
    };
    assert_eq!(
        info_base_target(&arguments, true, &vec![]).unwrap(),
        InfoBaseTarget {
            alias: FILE_INFOBASE_ALIAS.to_owned(),
            is_file: true,
            direct_file_path: Some(directory.to_owned()),
        }
    );
}

#[test]
fn the_alias_of_a_server_infobase_is_the_given_one_or_the_launchers_or_the_name() {
    let lists = vec!["[Demo]\nConnect=Srvr=\"localhost\";Ref=\"Accounting\";\n".to_owned()];
    let named = ConnectionArguments { info_base: Some("Demo".to_owned()), ..arguments() };
    assert_eq!(info_base_target(&named, false, &lists).unwrap().alias, "Accounting");
    assert_eq!(info_base_target(&named, false, &vec![]).unwrap().alias, "Demo");
    let given = ConnectionArguments {
        info_base: Some("Demo".to_owned()),
        info_base_alias: Some("Given".to_owned()),
        ..arguments()
    };
    assert_eq!(info_base_target(&given, false, &lists).unwrap().alias, "Given");
    assert_eq!(
        info_base_target(&arguments(), false, &lists).unwrap_err(),
        "launch/attach requires infoBase or infoBaseAlias"
    );
}

#[test]
fn launcher_lists_are_below_the_home_directory() {
    assert_eq!(
        ibases_paths(false, Some("/home/user"), '/'),
        vec![
            "/home/user/.1cv8/1C/1CEStart/ibases.v8i",
            "/home/user/Library/Application Support/1C/1CEStart/ibases.v8i",
        ]
    );
    assert_eq!(
        ibases_paths(true, Some("C:\\Users\\user\\AppData\\Roaming"), '\\'),
        vec!["C:\\Users\\user\\AppData\\Roaming\\1C\\1CEStart\\ibases.v8i"]
    );
    assert_eq!(ibases_paths(false, None, '/'), Vec::<String>::new());
}

#[test]
fn the_trace_is_written_on_request_only() {
    assert_eq!(trace_file_path(&arguments(), '/'), None);
    let given = ConnectionArguments {
        trace: Some(true),
        trace_file: Some("/tmp/trace.jsonl".to_owned()),
        ..arguments()
    };
    assert_eq!(trace_file_path(&given, '/'), Some("/tmp/trace.jsonl".to_owned()));
    let below = ConnectionArguments {
        trace: Some(true),
        root_project: Some("/work/demo".to_owned()),
        ..arguments()
    };
    assert_eq!(
        trace_file_path(&below, '/'),
        Some("/work/demo/.vscode/onec-debug-latency.jsonl".to_owned())
    );
    let off = ConnectionArguments { trace: Some(false), ..given };
    assert_eq!(trace_file_path(&off, '/'), None);
}

#[test]
fn the_client_is_started_with_the_debugger_url() {
    let named = ConnectionArguments { info_base: Some("FileDemo".to_owned()), ..arguments() };
    let target = InfoBaseTarget {
        alias: "DefAlias".to_owned(),
        is_file: true,
        direct_file_path: None,
    };
    assert_eq!(
        client_arguments(&named, &target, "http://127.0.0.1:1556/e1crdbg").unwrap(),
        vec![
            "ENTERPRISE",
            "/IBName",
            "FileDemo",
            "/TCOMP",
            "-SDC",
            "/DisableStartupMessages",
            "/DisplayPerformance",
            "/TechnicalSpecialistMode",
            "/DEBUG",
            "-http",
            "-attach",
            "/DEBUGGERURL",
            "http://127.0.0.1:1556",
            "/O",
            "Normal",
        ]
    );
    let direct = InfoBaseTarget {
        direct_file_path: Some("/base".to_owned()),
        ..target
    };
    assert_eq!(
        client_arguments(&arguments(), &direct, "http://h:1/e1crdbg").unwrap()[..3],
        ["ENTERPRISE", "/F", "/base"]
    );
}

#[test]
fn the_debug_server_is_started_with_its_owner_and_a_notification() {
    assert_eq!(
        debug_server_arguments("127.0.0.1", 77, "/tmp/n"),
        vec!["--addr=127.0.0.1", "--portRange=1550:1559", "--ownerPID=77", "--notify=/tmp/n"]
    );
}

#[test]
fn starts_file_infobase_debug_server_and_uses_its_published_port() {
    let written = Notification::Written(b"127.0.0.1:1556".to_vec());
    assert_eq!(await_port(&Notification::Missing, None, false), Wait::Again);
    assert_eq!(await_port(&written, None, false), Wait::Port(1556));
    let server = DebugServer::new("127.0.0.1", 1556).unwrap();
    assert_eq!(server.endpoint(), "http://127.0.0.1:1556/e1crdbg");
}

#[test]
fn the_wait_for_a_port_ends() {
    let partial = Notification::Written(b"127.0.0.1".to_vec());
    assert_eq!(await_port(&partial, None, false), Wait::Again);
    assert_eq!(
        await_port(&partial, None, true),
        Wait::Fail("1C debug server notification does not contain a port".to_owned())
    );
    assert_eq!(
        await_port(&Notification::Missing, Some("exit status: 1"), false),
        Wait::Fail("1C debug server exited before it reported a port: exit status: 1".to_owned())
    );
    assert_eq!(
        await_port(&Notification::Missing, None, true),
        Wait::Fail("timed out waiting for 1C debug server to report its port".to_owned())
    );
    assert_eq!(
        await_port(&Notification::Unreadable, None, false),
        Wait::Fail("cannot read 1C debug server notification".to_owned())
    );
}

#[test]
fn notifications_in_other_encodings_are_read_or_refused() {
    let mut utf16be = vec![0xfe, 0xff];
    utf16be.extend("h:1559".encode_utf16().flat_map(u16::to_be_bytes));
    assert_eq!(debug_server_port_from_notification_bytes(&utf16be).unwrap(), 1559);
    assert_eq!(
        debug_server_port_from_notification_bytes(&[0xff, 0xfe, 0x31]).unwrap_err(),
        "1C debug server notification contains incomplete UTF-16 data"
    );
    assert_eq!(
        debug_server_port_from_notification_bytes(&[0xff, 0xfe, 0x00, 0xd8]).unwrap_err(),
        "1C debug server notification is not valid UTF-16"
    );
    assert_eq!(
        debug_server_port_from_notification_bytes(&[0xc3]).unwrap_err(),
        "1C debug server notification is not valid UTF-8"
    );
    assert_eq!(
        debug_server_port_from_notification("h:70000").unwrap_err(),
        "1C debug server notification contains an invalid port"
    );
}
