use dsh_desktop::command::Platform;
use dsh_desktop::desktop::{
    hide_instead_of_close, service_menu_label, service_toggle, tray_command, ui_locale,
    ServiceToggle, TrayCommand,
};
use dsh_desktop::service::{
    dsh_url, is_running, launch_command, launch_outcome, not_running_report, start_precheck,
    PortReleaseWait, ReleaseStep, DSH_PORT,
};

#[test]
fn url_and_port() {
    assert_eq!(dsh_url(), "http://127.0.0.1:3080");
    assert_eq!(DSH_PORT, 3080);
}

#[test]
fn running_means_port_taken() {
    assert!(is_running(false));
    assert!(!is_running(true));
}

#[test]
fn start_refuses_taken_port() {
    assert_eq!(start_precheck(true), Ok(()));
    assert_eq!(start_precheck(false), Err("Port 3080 is already in use on 127.0.0.1.".to_string()));
}

#[test]
fn start_messages() {
    assert_eq!(launch_outcome(Ok(())), Ok("DSH service started successfully on 127.0.0.1:3080.".to_string()));
    assert_eq!(
        launch_outcome(Err("program not found".to_string())),
        Err("Failed to launch DSH service: program not found".to_string())
    );
}

#[test]
fn launch_commands() {
    let c = launch_command(Platform::Windows);
    assert_eq!(c.program, "npx.cmd");
    assert_eq!(c.args, vec!["--yes", "@deepseek-ai/dsh", "web"]);
    assert_eq!(launch_command(Platform::Linux).program, "npx");
}

#[test]
fn stop_when_not_running() {
    assert_eq!(not_running_report(), "DSH service is not running on 127.0.0.1:3080.");
}

#[test]
fn release_wait_succeeds_when_port_frees() {
    let mut wait = PortReleaseWait::new(42);
    assert!(matches!(wait.observe(false), ReleaseStep::Retry));
    match wait.observe(true) {
        ReleaseStep::Released(msg) => {
            assert_eq!(msg, "DSH service (PID 42) killed, port 127.0.0.1:3080 is free.")
        }
        _ => panic!("expected release"),
    }
}

#[test]
fn release_wait_gives_up_after_thirty_checks() {
    let mut wait = PortReleaseWait::new(7);
    for _ in 0..29 {
        assert!(matches!(wait.observe(false), ReleaseStep::Retry));
    }
    match wait.observe(false) {
        ReleaseStep::GiveUp(msg) => assert_eq!(
            msg,
            "DSH service (PID 7) was killed, but port 127.0.0.1:3080 is still in use."
        ),
        _ => panic!("expected to give up"),
    }
    assert!(matches!(wait.observe(false), ReleaseStep::GiveUp(_)));
}

#[test]
fn locale_follows_system() {
    assert_eq!(ui_locale(Some("zh-CN".to_string())), "zh-cn");
    assert_eq!(ui_locale(Some("ZH_tw".to_string())), "zh-cn");
    assert_eq!(ui_locale(Some("zh".to_string())), "zh-cn");
    assert_eq!(ui_locale(Some("en-US".to_string())), "en");
    assert_eq!(ui_locale(Some("z".to_string())), "en");
    assert_eq!(ui_locale(None), "en");
    for s in ["zH-x", "Zh", "İh", "ja-JP", ""] {
        let expected = if s.to_lowercase().starts_with("zh") { "zh-cn" } else { "en" };
        assert_eq!(ui_locale(Some(s.to_string())), expected, "{s}");
    }
}

#[test]
fn tray_entries() {
    assert_eq!(tray_command("show"), TrayCommand::ShowWindow);
    assert_eq!(tray_command("quit"), TrayCommand::Quit);
    assert_eq!(tray_command("service_control"), TrayCommand::ToggleService);
    assert_eq!(tray_command("other"), TrayCommand::Ignore);
    assert_eq!(service_toggle(true), ServiceToggle::Stop);
    assert_eq!(service_toggle(false), ServiceToggle::Start);
    assert_eq!(service_menu_label(true), "menu.stop_service");
    assert_eq!(service_menu_label(false), "menu.start_service");
}

#[test]
fn closing_hides_unless_quitting() {
    assert!(hide_instead_of_close(false));
    assert!(!hide_instead_of_close(true));
}

use dsh_desktop::service::{cleanup_target, ServiceStop, StopStep};

#[test]
fn stop_when_port_free_kills_nothing() {
    let mut stop = ServiceStop::new();
    assert!(matches!(stop.on_port_check(true), StopStep::Finish(Ok(None))));
}

#[test]
fn stop_kills_the_pid_found() {
    let mut stop = ServiceStop::new();
    assert!(matches!(stop.on_port_check(false), StopStep::LookUpPid));
    assert!(matches!(stop.on_lookup(Ok(4321)), StopStep::Kill(4321)));
    assert!(matches!(stop.on_kill(Ok(())), StopStep::Finish(Ok(Some(4321)))));
}

#[test]
fn stop_passes_lookup_error_on() {
    let mut stop = ServiceStop::new();
    stop.on_port_check(false);
    match stop.on_lookup(Err("No process is listening on port 3080.".to_string())) {
        StopStep::Finish(Err(m)) => assert_eq!(m, "No process is listening on port 3080."),
        _ => panic!("expected the lookup error"),
    }
}

#[test]
fn stop_passes_kill_error_on() {
    let mut stop = ServiceStop::new();
    stop.on_port_check(false);
    stop.on_lookup(Ok(9));
    match stop.on_kill(Err("kill failed to terminate DSH service (PID 9).".to_string())) {
        StopStep::Finish(Err(m)) => assert_eq!(m, "kill failed to terminate DSH service (PID 9)."),
        _ => panic!("expected the kill error"),
    }
}

#[test]
fn cleanup_targets_found_pid_only() {
    assert_eq!(cleanup_target(Ok(77)), Some(77));
    assert_eq!(cleanup_target(Err("none".to_string())), None);
}
