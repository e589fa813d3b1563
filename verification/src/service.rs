//! Starting, stopping and watching the DSH web service, which listens on
//! `127.0.0.1:3080`: the service runs exactly when that port is taken.
use vstd::prelude::*;
use vstd::string::*;

use crate::command::{node_bin, node_bin_name, CommandLine, Platform};
use crate::setup::{dsh_package, dsh_package_name};
use crate::text::{decimal, push_decimal};

verus! {

/// The port the DSH service listens on.
pub const DSH_PORT: u16 = 3080;

/// The host the DSH service listens on.
pub open spec fn dsh_host_text() -> Seq<char> {
    "127.0.0.1"@
}

pub fn dsh_host() -> (host: &'static str)
    ensures
        host@ == dsh_host_text(),
{
    "127.0.0.1"
}

/// `127.0.0.1:3080`.
pub open spec fn dsh_address() -> Seq<char> {
    dsh_host_text() + ":"@ + decimal(DSH_PORT as nat)
}

fn push_address(out: &mut String)
    ensures
        final(out)@ == old(out)@ + dsh_address(),
{
    out.append(dsh_host());
    out.append(":");
    push_decimal(out, DSH_PORT as u32);
    assert(final(out)@ =~= old(out)@ + dsh_address());
}

/// The URL of the DSH web interface: `http://127.0.0.1:3080`.
pub fn dsh_url() -> (url: String)
    ensures
        url@ == "http://"@ + dsh_address(),
{
    let mut url = String::from_str("http://");
    push_address(&mut url);
    url
}

/// Whether the DSH service is running: someone holds its port, so the port
/// cannot be bound.
pub fn is_running(port_available: bool) -> (running: bool)
    ensures
        running == !port_available,
{
    !port_available
}

// ===================== starting =====================

pub open spec fn port_busy_message() -> Seq<char> {
    "Port "@ + decimal(DSH_PORT as nat) + " is already in use on "@ + dsh_host_text() + "."@
}

/// Whether a start may go ahead: only while the port is free. A taken port
/// means DSH, or something else, already listens there.
pub fn start_precheck(port_available: bool) -> (r: Result<(), String>)
    ensures
        port_available ==> r is Ok,
        !port_available ==> (r matches Err(msg) && msg@ == port_busy_message()),
{
    if port_available {
        Ok(())
    } else {
        let mut msg = String::from_str("Port ");
        push_decimal(&mut msg, DSH_PORT as u32);
        msg.append(" is already in use on ");
        msg.append(dsh_host());
        msg.append(".");
        Err(msg)
    }
}

/// The command that launches the service in the background:
/// `npx --yes @deepseek-ai/dsh web`.
pub fn launch_command(platform: Platform) -> (cmd: CommandLine)
    ensures
        cmd.program@ == node_bin_name(platform, "npx"@),
        platform != Platform::Windows ==> cmd.program@ == "npx"@,
        platform == Platform::Windows ==> cmd.program@ == "npx"@ + seq!['.', 'c', 'm', 'd'],
        cmd.arg_texts() == seq!["--yes"@, dsh_package_name(), "web"@],
{
    let args = vec![String::from_str("--yes"), String::from_str(dsh_package()), String::from_str("web")];
    let cmd = CommandLine { program: node_bin(platform, "npx"), args };
    assert(cmd.arg_texts() =~= seq!["--yes"@, dsh_package_name(), "web"@]);
    cmd
}

pub open spec fn started_message() -> Seq<char> {
    "DSH service started successfully on "@ + dsh_address() + "."@
}

pub open spec fn launch_failure_message(err: Seq<char>) -> Seq<char> {
    "Failed to launch DSH service: "@ + err
}

/// The answer to a start request, from the outcome of spawning
/// `launch_command`: it started, or the reason it could not be spawned.
pub fn launch_outcome(spawned: Result<(), String>) -> (r: Result<String, String>)
    ensures
        spawned is Ok ==> (r matches Ok(msg) && msg@ == started_message()),
        spawned matches Err(e) ==> (r matches Err(msg) && msg@ == launch_failure_message(e@)),
{
    match spawned {
        Ok(()) => {
            let mut msg = String::from_str("DSH service started successfully on ");
            push_address(&mut msg);
            msg.append(".");
            Ok(msg)
        },
        Err(e) => {
            let mut msg = String::from_str("Failed to launch DSH service: ");
            msg.append(e.as_str());
            Err(msg)
        },
    }
}

// ===================== stopping =====================

pub open spec fn not_running_message() -> Seq<char> {
    "DSH service is not running on "@ + dsh_address() + "."@
}

/// The answer to a stop request when nothing held the port.
pub fn not_running_report() -> (msg: String)
    ensures
        msg@ == not_running_message(),
{
    let mut msg = String::from_str("DSH service is not running on ");
    push_address(&mut msg);
    msg.append(".");
    msg
}

/// What a stop asks the host to do next.
#[derive(Debug)]
pub enum StopStep {
    /// Find the PID listening on the service's port (`find_pid_by_port`)
    /// and hand the result to `on_lookup`.
    LookUpPid,
    /// Kill this PID (`kill_process_by_pid`) and hand the result to `on_kill`.
    Kill(u32),
    /// The stop is over: `Ok(None)` when nothing ran, `Ok(Some(pid))` when
    /// `pid` was killed, or the error of the lookup or of the kill.
    Finish(Result<Option<u32>, String>),
}

/// A request to stop the service, in progress: check the port, find the
/// PID that holds it, kill that PID.
pub struct ServiceStop {
    found: Option<u32>,
}

impl ServiceStop {
    /// The PID the lookup found, once it has.
    pub closed spec fn found(&self) -> Option<u32> {
        self.found
    }

    pub fn new() -> (stop: Self)
        ensures
            stop.found() is None,
    {
        ServiceStop { found: None }
    }

    /// Takes whether the service's port is free. A free port means the
    /// service is not running: the stop is over, with nothing killed.
    pub fn on_port_check(&mut self, port_available: bool) -> (step: StopStep)
        ensures
            final(self).found() == old(self).found(),
            port_available ==> step matches StopStep::Finish(Ok(None)),
            !port_available ==> step is LookUpPid,
    {
        if port_available {
            StopStep::Finish(Ok(None))
        } else {
            StopStep::LookUpPid
        }
    }

    /// Takes the result of the PID lookup: kill the PID found, or end with
    /// the lookup's error, unchanged, and kill nothing.
    pub fn on_lookup(&mut self, found: Result<u32, String>) -> (step: StopStep)
        ensures
            found matches Ok(pid) ==> (step == StopStep::Kill(pid) && final(self).found() == Some(
                pid,
            )),
            found matches Err(e) ==> (step matches StopStep::Finish(Err(m)) && m@ == e@
                && final(self).found() == old(self).found()),
    {
        match found {
            Ok(pid) => {
                self.found = Some(pid);
                StopStep::Kill(pid)
            },
            Err(e) => StopStep::Finish(Err(e)),
        }
    }

    /// Takes the result of killing the PID found: the stop succeeded with
    /// that PID, or ends with the kill's error, unchanged.
    pub fn on_kill(&mut self, killed: Result<(), String>) -> (step: StopStep)
        requires
            old(self).found() is Some,
        ensures
            final(self).found() == old(self).found(),
            killed is Ok ==> (step matches StopStep::Finish(Ok(Some(pid))) && Some(pid) == old(
                self,
            ).found()),
            killed matches Err(e) ==> (step matches StopStep::Finish(Err(m)) && m@ == e@),
    {
        match killed {
            Ok(()) => match self.found {
                Some(pid) => StopStep::Finish(Ok(Some(pid))),
                None => StopStep::Finish(Ok(None)),
            },
            Err(e) => StopStep::Finish(Err(e)),
        }
    }
}

/// On quit, the PID to kill: the one the lookup found, or none when the
/// lookup failed (nothing listens, or the host could not be asked).
pub fn cleanup_target(found: Result<u32, String>) -> (pid: Option<u32>)
    ensures
        found matches Ok(p) ==> pid == Some(p),
        found is Err ==> pid is None,
{
    match found {
        Ok(p) => Some(p),
        Err(_) => None,
    }
}

/// How many times the port is checked after a kill before giving up; the
/// host pauses 100 ms after each check that finds the port still taken.
pub const PORT_RELEASE_CHECKS: u32 = 30;

pub open spec fn released_message(pid: u32) -> Seq<char> {
    "DSH service (PID "@ + decimal(pid as nat) + ") killed, port "@ + dsh_address() + " is free."@
}

pub open spec fn still_in_use_message(pid: u32) -> Seq<char> {
    "DSH service (PID "@ + decimal(pid as nat) + ") was killed, but port "@ + dsh_address()
        + " is still in use."@
}

/// The number of checks that found the port taken, after one more check.
pub open spec fn next_checks(checks: u32, port_free: bool) -> u32 {
    if port_free || checks >= PORT_RELEASE_CHECKS {
        checks
    } else {
        (checks + 1) as u32
    }
}

/// That number after `n` checks that all found the port taken.
pub open spec fn checks_after_busy(n: nat) -> u32
    decreases n,
{
    if n == 0 {
        0
    } else {
        next_checks(checks_after_busy((n - 1) as nat), false)
    }
}

/// A wait gives up at the thirtieth check that finds the port taken, and
/// not before: the port is checked at most thirty times.
pub proof fn lemma_gives_up_at_thirtieth_check(n: nat)
    ensures
        checks_after_busy(n) == (if n < PORT_RELEASE_CHECKS {
            n
        } else {
            PORT_RELEASE_CHECKS as nat
        }),
        checks_after_busy(n) >= PORT_RELEASE_CHECKS <==> n >= PORT_RELEASE_CHECKS,
    decreases n,
{
    if n > 0 {
        lemma_gives_up_at_thirtieth_check((n - 1) as nat);
    }
}

/// What a wait for the port does after one check.
#[derive(Debug)]
pub enum ReleaseStep {
    /// The port is free: the stop succeeded, with this message.
    Released(String),
    /// The port is still taken: pause, then check again.
    Retry,
    /// The port is still taken after the last check: pause, then fail with
    /// this message.
    GiveUp(String),
}

/// The wait, after killing process `pid`, for the service's port to be
/// released.
pub struct PortReleaseWait {
    pid: u32,
    checks: u32,
}

impl PortReleaseWait {
    /// The process that was killed.
    pub closed spec fn pid(&self) -> u32 {
        self.pid
    }

    /// How many checks found the port still taken.
    pub closed spec fn checks(&self) -> u32 {
        self.checks
    }

    pub fn new(pid: u32) -> (wait: Self)
        ensures
            wait.pid() == pid,
            wait.checks() == 0,
    {
        PortReleaseWait { pid, checks: 0 }
    }

    /// Takes the result of one check of the port.
    pub fn observe(&mut self, port_free: bool) -> (step: ReleaseStep)
        ensures
            final(self).pid() == old(self).pid(),
            final(self).checks() == next_checks(old(self).checks(), port_free),
            port_free ==> (step matches ReleaseStep::Released(msg) && msg@ == released_message(
                old(self).pid(),
            )),
            !port_free && final(self).checks() < PORT_RELEASE_CHECKS ==> step is Retry,
            !port_free && final(self).checks() >= PORT_RELEASE_CHECKS ==> (
            step matches ReleaseStep::GiveUp(msg) && msg@ == still_in_use_message(old(self).pid())),
    {
        if port_free {
            let mut msg = String::from_str("DSH service (PID ");
            push_decimal(&mut msg, self.pid);
            msg.append(") killed, port ");
            push_address(&mut msg);
            msg.append(" is free.");
            assert(msg@ =~= released_message(self.pid));
            return ReleaseStep::Released(msg);
        }
        if self.checks < PORT_RELEASE_CHECKS {
            self.checks = self.checks + 1;
        }
        if self.checks < PORT_RELEASE_CHECKS {
            ReleaseStep::Retry
        } else {
            let mut msg = String::from_str("DSH service (PID ");
            push_decimal(&mut msg, self.pid);
            msg.append(") was killed, but port ");
            push_address(&mut msg);
            msg.append(" is still in use.");
            assert(msg@ =~= still_in_use_message(self.pid));
            ReleaseStep::GiveUp(msg)
        }
    }
}

} // verus!
