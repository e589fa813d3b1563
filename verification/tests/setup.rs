use dsh_desktop::command::Platform;
use dsh_desktop::setup::{
    dsh_installer, global_modules_root, global_root_command, locate_command, node_installer,
    syscheck, syscheck_and_fix, Setup, SetupAction, Tool,
};

/// Runs a setup against fixed answers; returns the actions asked and the verdict.
fn drive(mut setup: Setup, answer: impl Fn(SetupAction) -> bool) -> (Vec<SetupAction>, bool) {
    let mut asked = Vec::new();
    for _ in 0..10 {
        match setup.action() {
            SetupAction::Finish(ready) => return (asked, ready),
            action => {
                asked.push(action);
                setup.advance(answer(action));
            }
        }
    }
    panic!("setup did not finish");
}

#[test]
fn syscheck_all_present() {
    let (asked, ready) = drive(syscheck(Platform::Linux), |_| true);
    assert!(ready);
    assert_eq!(
        asked,
        vec![
            SetupAction::LocateTool(Tool::Npm),
            SetupAction::LocateTool(Tool::Npx),
            SetupAction::CheckDshPackage
        ]
    );
}

#[test]
fn syscheck_stops_at_first_missing_piece() {
    let (asked, ready) = drive(syscheck(Platform::Linux), |a| a != SetupAction::LocateTool(Tool::Npm));
    assert!(!ready);
    assert_eq!(asked, vec![SetupAction::LocateTool(Tool::Npm)]);
    let (asked, ready) = drive(syscheck(Platform::Windows), |a| a != SetupAction::CheckDshPackage);
    assert!(!ready);
    assert_eq!(asked.len(), 3);
}

#[test]
fn syscheck_never_installs() {
    for platform in [Platform::Windows, Platform::Linux, Platform::MacOs, Platform::OtherUnix] {
        let (asked, _) = drive(syscheck(platform), |_| false);
        assert!(asked.iter().all(|a| matches!(a, SetupAction::LocateTool(_) | SetupAction::CheckDshPackage)));
    }
}

#[test]
fn repair_installs_node_then_dsh_on_linux() {
    let (asked, ready) = drive(syscheck_and_fix(Platform::Linux), |a| {
        matches!(a, SetupAction::InstallNode | SetupAction::InstallDsh)
    });
    assert!(ready);
    assert_eq!(
        asked,
        vec![
            SetupAction::LocateTool(Tool::Npm),
            SetupAction::InstallNode,
            SetupAction::CheckDshPackage,
            SetupAction::InstallDsh
        ]
    );
}

#[test]
fn repair_fails_when_installer_fails() {
    let (_, ready) = drive(syscheck_and_fix(Platform::MacOs), |a| a != SetupAction::LocateTool(Tool::Npx) && a != SetupAction::InstallNode);
    assert!(!ready);
    let (asked, ready) = drive(syscheck_and_fix(Platform::MacOs), |a| a != SetupAction::CheckDshPackage && a != SetupAction::InstallDsh);
    assert!(!ready);
    assert_eq!(asked.last(), Some(&SetupAction::InstallDsh));
}

#[test]
fn repair_on_windows_only_advises() {
    let (asked, ready) = drive(syscheck_and_fix(Platform::Windows), |_| true);
    assert!(ready);
    let (asked2, ready2) = drive(syscheck_and_fix(Platform::Windows), |a| a != SetupAction::LocateTool(Tool::Npx));
    assert!(!ready2);
    assert_eq!(
        asked2,
        vec![
            SetupAction::LocateTool(Tool::Npm),
            SetupAction::LocateTool(Tool::Npx),
            SetupAction::AdviseManualNodeInstall
        ]
    );
    assert!(!asked.contains(&SetupAction::InstallNode));
}

#[test]
fn repair_on_other_unix_gives_up_without_node() {
    let (asked, ready) = drive(syscheck_and_fix(Platform::OtherUnix), |_| false);
    assert!(!ready);
    assert_eq!(asked, vec![SetupAction::LocateTool(Tool::Npm)]);
}

#[test]
fn repair_keeps_present_pieces() {
    let (asked, ready) = drive(syscheck_and_fix(Platform::Linux), |a| {
        !matches!(a, SetupAction::InstallNode | SetupAction::InstallDsh)
    });
    assert!(ready);
    assert_eq!(asked.len(), 3);
}

#[test]
fn setup_commands() {
    let c = locate_command(Platform::Windows, Tool::Npm);
    assert_eq!((c.program.as_str(), c.args.clone()), ("where", vec!["npm".to_string()]));
    let c = locate_command(Platform::Linux, Tool::Npx);
    assert_eq!((c.program.as_str(), c.args.clone()), ("which", vec!["npx".to_string()]));
    let c = global_root_command(Platform::Windows);
    assert_eq!((c.program.as_str(), c.args.clone()), ("npm.cmd", vec!["root".to_string(), "-g".to_string()]));
    let i = dsh_installer(Platform::Linux);
    assert_eq!(i.command.program, "npm");
    assert_eq!(i.command.args, vec!["install", "-g", "@deepseek-ai/dsh"]);
    assert_eq!(i.manual_hint, "npm install -g @deepseek-ai/dsh");
    let i = node_installer(Platform::Linux).unwrap();
    assert_eq!(i.command.program, "sudo");
    assert_eq!(i.command.args, vec!["apt", "install", "-y", "npm", "nodejs"]);
    assert_eq!(i.manual_hint, "sudo apt install -y npm nodejs");
    let i = node_installer(Platform::MacOs).unwrap();
    assert_eq!(i.command.program, "brew");
    assert_eq!(i.command.args, vec!["install", "node"]);
    assert!(node_installer(Platform::Windows).is_none());
    assert!(node_installer(Platform::OtherUnix).is_none());
}

#[test]
fn global_root_is_trimmed_output() {
    assert_eq!(
        global_modules_root(Some("/usr/lib/node_modules\n".to_string())),
        Some("/usr/lib/node_modules".to_string())
    );
    assert_eq!(global_modules_root(None), None);
}
