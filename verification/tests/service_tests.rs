use activity_archive::service::{
    elevation_args, elevation_command, elevation_file_names, elevation_script, handle_command, on_control,
    parse_scope, status_report, system_config_dir, system_logs_dir, ControlReply, ControlRequest, ServiceAction,
    ServiceCommands, ServiceScope,
};

fn strings(v: &[&str]) -> Vec<String> {
    v.iter().map(|s| s.to_string()).collect()
}

#[test]
fn scopes_are_read_by_name() {
    assert_eq!(parse_scope("user"), Some(ServiceScope::User));
    assert_eq!(parse_scope("system"), Some(ServiceScope::System));
    assert_eq!(parse_scope("global"), None);
}

#[test]
fn commands_pick_their_scope() {
    let install = handle_command(&ServiceCommands::Install { scope: None }, Some(ServiceScope::System));
    assert!(matches!(install, Ok(ServiceAction::Install(ServiceScope::User))));
    let start = handle_command(&ServiceCommands::Start { scope: None }, Some(ServiceScope::System));
    assert!(matches!(start, Ok(ServiceAction::Start(ServiceScope::System))));
    let stop = handle_command(&ServiceCommands::Stop { scope: None }, None);
    assert!(matches!(stop, Ok(ServiceAction::Stop(ServiceScope::User))));
    let status = handle_command(&ServiceCommands::Status { scope: None }, Some(ServiceScope::User));
    assert!(matches!(status, Ok(ServiceAction::Status(None))));
    let logs = handle_command(&ServiceCommands::Logs { lines: 50, follow: true, scope: Some("system".to_string()) }, None);
    assert!(matches!(logs, Ok(ServiceAction::Logs(ServiceScope::System, 50, true))));
    match handle_command(&ServiceCommands::SetConfigDir { path: "D:\\cfg".to_string() }, None) {
        Ok(ServiceAction::SetConfigDir(p)) => assert_eq!(p, "D:\\cfg"),
        _ => panic!("expected SetConfigDir"),
    }
}

#[test]
fn an_unknown_scope_is_an_error() {
    match handle_command(&ServiceCommands::Restart { scope: Some("everyone".to_string()) }, None) {
        Err(e) => assert_eq!(e.given, "everyone"),
        Ok(_) => panic!("an unknown scope must be refused"),
    }
    assert!(handle_command(&ServiceCommands::Uninstall { scope: Some("".to_string()) }, None).is_err());
}

#[test]
fn config_dir_falls_back_in_order() {
    assert_eq!(system_config_dir(&Some("E:\\zc".to_string()), &Some("C:\\PD".to_string())), "E:\\zc");
    let from_env = system_config_dir(&None, &Some("/programdata".to_string()));
    assert_eq!(from_env, "/programdata/ZeroClaw");
    assert_eq!(system_config_dir(&None, &None), "C:\\ProgramData\\ZeroClaw");
    assert_eq!(system_logs_dir("/programdata/ZeroClaw"), "/programdata/ZeroClaw/logs");
}

#[test]
fn relaunch_puts_the_config_dir_first() {
    let args = strings(&["service", "install"]);
    assert_eq!(elevation_args(&args, &Some("C:\\cfg".to_string()), &None), strings(&["--config-dir", "C:\\cfg", "service", "install"]));
    assert_eq!(elevation_args(&args, &None, &Some("D:\\env".to_string())), strings(&["--config-dir", "D:\\env", "service", "install"]));
    assert_eq!(elevation_args(&args, &Some("   ".to_string()), &None), args);
    let named = strings(&["--config-dir=X", "service"]);
    assert_eq!(elevation_args(&named, &Some("C:\\cfg".to_string()), &None), named);
}

#[test]
fn relaunch_script_and_command_are_quoted() {
    let script = elevation_script("C:\\zc.exe", &strings(&["service", "say \"hi\""]), "C:\\t\\x.log");
    assert_eq!(
        script,
        "@echo off\r\n\"C:\\zc.exe\" \"service\" \"say \"\"hi\"\"\" > \"C:\\t\\x.log\" 2>&1\r\nexit /b %ERRORLEVEL%\r\n"
    );
    assert_eq!(
        elevation_command("C:\\it's.cmd"),
        "$ErrorActionPreference = 'Stop'; $p = Start-Process -FilePath 'C:\\it''s.cmd' -Verb RunAs -Wait -PassThru; exit $p.ExitCode"
    );
    let (cmd, log) = elevation_file_names(4242);
    assert_eq!((cmd.as_str(), log.as_str()), ("zeroclaw-elevate-4242.cmd", "zeroclaw-elevate-4242.log"));
}

#[test]
fn control_requests_are_answered() {
    assert_eq!(on_control(ControlRequest::Stop), (ControlReply::NoError, true));
    assert_eq!(on_control(ControlRequest::Shutdown), (ControlReply::NoError, true));
    assert_eq!(on_control(ControlRequest::Interrogate), (ControlReply::NoError, false));
    assert_eq!(on_control(ControlRequest::Other), (ControlReply::NotImplemented, false));
}

#[test]
fn status_report_lines() {
    assert_eq!(status_report(false, false, "c", "l"), strings(&["Service: ❌ not installed (system scope)"]));
    assert_eq!(
        status_report(true, true, "C:\\cfg", "C:\\cfg\\logs"),
        strings(&[
            "Service: ✅ running (system scope)",
            "Service name: ZeroClawDaemon",
            "Config dir:   C:\\cfg",
            "Logs:         C:\\cfg\\logs",
        ])
    );
}
