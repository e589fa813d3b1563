use dsh_desktop::command::{node_bin, Platform};
use dsh_desktop::process::{
    find_pid_by_port, kill_command, kill_process_by_pid, lsof_pid, netstat_pid,
    pid_lookup_command,
};

const NETSTAT: &str = "\r\nActive Connections\r\n\r\n  Proto  Local Address          Foreign Address        State           PID\r\n  TCP    0.0.0.0:135            0.0.0.0:0              LISTENING       1044\r\n  TCP    0.0.0.0:30800          0.0.0.0:0              LISTENING       77\r\n  TCP    127.0.0.1:3080         127.0.0.1:51234        ESTABLISHED     4321\r\n  TCP    127.0.0.1:3080         0.0.0.0:0              LISTENING       9876\r\n  TCP    [::]:3080              [::]:0                 LISTENING       5555\r\n";

fn args(cmd: &dsh_desktop::command::CommandLine) -> Vec<&str> {
    cmd.args.iter().map(|a| a.as_str()).collect()
}

#[test]
fn netstat_finds_first_listener_on_port() {
    assert_eq!(netstat_pid(NETSTAT, 3080), Ok(9876));
    assert_eq!(netstat_pid(NETSTAT, 135), Ok(1044));
    assert_eq!(netstat_pid(NETSTAT, 30800), Ok(77));
}

#[test]
fn netstat_ignores_case_of_protocol_and_state() {
    let out = "  tcp    127.0.0.1:3080   0.0.0.0:0   Listening   12\n";
    assert_eq!(netstat_pid(out, 3080), Ok(12));
}

#[test]
fn netstat_skips_udp_and_short_rows() {
    let out = "UDP 0.0.0.0:3080 *:* LISTENING 5\nTCP 0.0.0.0:3080 0.0.0.0:0 LISTENING\nTCP 0.0.0.0:3080 0.0.0.0:0 LISTENING 6\n";
    assert_eq!(netstat_pid(out, 3080), Ok(6));
}

#[test]
fn netstat_reports_missing_listener() {
    assert_eq!(
        netstat_pid(NETSTAT, 8080),
        Err("No process is listening on port 8080.".to_string())
    );
    assert_eq!(netstat_pid("", 3080), Err("No process is listening on port 3080.".to_string()));
}

#[test]
fn netstat_reports_invalid_pid() {
    let out = "TCP 0.0.0.0:3080 0.0.0.0:0 LISTENING 12a\n";
    assert_eq!(
        netstat_pid(out, 3080),
        Err("Invalid PID in netstat output (12a): invalid digit found in string".to_string())
    );
    let out = "TCP 0.0.0.0:3080 0.0.0.0:0 LISTENING 99999999999\n";
    assert_eq!(
        netstat_pid(out, 3080),
        Err("Invalid PID in netstat output (99999999999): number too large to fit in target type"
            .to_string())
    );
}

#[test]
fn lsof_gives_first_numeric_line() {
    assert_eq!(lsof_pid("4242\n", 3080), Ok(4242));
    assert_eq!(lsof_pid("  17 \n23\n", 3080), Ok(17));
    assert_eq!(lsof_pid("garbage\n\n 99\r\n", 3080), Ok(99));
    assert_eq!(lsof_pid("+8", 3080), Ok(8));
    assert_eq!(lsof_pid("4294967295\n", 3080), Ok(4294967295));
}

#[test]
fn lsof_reports_missing_listener() {
    assert_eq!(lsof_pid("", 3080), Err("No process is listening on port 3080.".to_string()));
    assert_eq!(
        lsof_pid("4294967296\n-3\n+\n", 3080),
        Err("No process is listening on port 3080.".to_string())
    );
}

#[test]
fn find_pid_dispatches_on_platform() {
    assert_eq!(find_pid_by_port(Platform::Windows, 3080, Ok(NETSTAT.to_string())), Ok(9876));
    assert_eq!(find_pid_by_port(Platform::Linux, 3080, Ok("321\n".to_string())), Ok(321));
    assert_eq!(find_pid_by_port(Platform::MacOs, 3080, Ok("321\n".to_string())), Ok(321));
    assert_eq!(
        find_pid_by_port(Platform::Linux, 3080, Ok(NETSTAT.to_string())),
        Err("No process is listening on port 3080.".to_string())
    );
}

#[test]
fn find_pid_reports_failed_inspection() {
    assert_eq!(
        find_pid_by_port(Platform::Linux, 3080, Err("No such file or directory".to_string())),
        Err("Failed to inspect network: No such file or directory".to_string())
    );
}

#[test]
fn pid_lookup_commands() {
    let cmd = pid_lookup_command(Platform::Windows, 3080);
    assert_eq!(cmd.program, "netstat");
    assert_eq!(args(&cmd), vec!["-ano", "-p", "tcp"]);
    let cmd = pid_lookup_command(Platform::Linux, 3080);
    assert_eq!(cmd.program, "lsof");
    assert_eq!(args(&cmd), vec!["-nP", "-iTCP:3080", "-sTCP:LISTEN", "-t"]);
}

#[test]
fn kill_commands() {
    let cmd = kill_command(Platform::Windows, 1234);
    assert_eq!(cmd.program, "taskkill");
    assert_eq!(args(&cmd), vec!["/PID", "1234", "/T", "/F"]);
    let cmd = kill_command(Platform::MacOs, 0);
    assert_eq!(cmd.program, "kill");
    assert_eq!(args(&cmd), vec!["-9", "0"]);
}

#[test]
fn kill_results() {
    assert_eq!(kill_process_by_pid(Platform::Linux, 55, Ok(true)), Ok(()));
    assert_eq!(
        kill_process_by_pid(Platform::Linux, 55, Ok(false)),
        Err("kill failed to terminate DSH service (PID 55).".to_string())
    );
    assert_eq!(
        kill_process_by_pid(Platform::Windows, 55, Ok(false)),
        Err("taskkill failed to terminate DSH service (PID 55).".to_string())
    );
    assert_eq!(
        kill_process_by_pid(Platform::Windows, 55, Err("access denied".to_string())),
        Err("Failed to kill DSH service (PID 55): access denied".to_string())
    );
}

#[test]
fn node_bin_adds_cmd_on_windows() {
    assert_eq!(node_bin(Platform::Windows, "npm"), "npm.cmd");
    assert_eq!(node_bin(Platform::Linux, "npx"), "npx");
    assert_eq!(node_bin(Platform::MacOs, "npm"), "npm");
}
