//! Checking that the tools DSH needs are present (`npm`, `npx`, the global
//! `@deepseek-ai/dsh` package), and installing what is missing.
//!
//! The check asks the host one question at a time; a `Setup` decides which
//! question comes next from the answers so far, and the host performs it.
use vstd::prelude::*;
use vstd::string::*;

use crate::command::{node_bin, node_bin_name, CommandLine, Platform};
use crate::text::{trim, trim_bounds, chars_of, substring_owned};

verus! {

/// The npm package of the DSH service.
pub open spec fn dsh_package_name() -> Seq<char> {
    "@deepseek-ai/dsh"@
}

pub fn dsh_package() -> (name: &'static str)
    ensures
        name@ == dsh_package_name(),
{
    "@deepseek-ai/dsh"
}

/// A Node.js tool that must be on the `PATH`.
#[derive(Clone, Copy, Debug, PartialEq, Eq, Structural)]
pub enum Tool {
    Npm,
    Npx,
}

/// What the host is asked to do next, and what it answers.
#[derive(Clone, Copy, Debug, PartialEq, Eq, Structural)]
pub enum SetupAction {
    /// Run `locate_command(platform, tool)`; answer whether it ran and
    /// exited successfully.
    LocateTool(Tool),
    /// Run `global_root_command(platform)`; answer whether it exited
    /// successfully and the directory `dsh_package()` exists under the root
    /// that `global_modules_root` reads from its output.
    CheckDshPackage,
    /// Run the installer of `node_installer(platform)`; answer whether it
    /// ran and exited successfully.
    InstallNode,
    /// Tell the user to install Node.js by hand; the answer is not read.
    AdviseManualNodeInstall,
    /// Run the installer of `dsh_installer(platform)`; answer whether it ran
    /// and exited successfully.
    InstallDsh,
    /// Nothing more to do: the tools are ready, or not.
    Finish(bool),
}

/// Whether missing pieces are only reported, or also installed.
#[derive(Clone, Copy, Debug, PartialEq, Eq, Structural)]
pub enum SetupMode {
    CheckOnly,
    Repair,
}

/// The question a setup waits on.
#[derive(Clone, Copy, Debug, PartialEq, Eq, Structural)]
pub enum SetupStage {
    LocatingNpm,
    LocatingNpx,
    InstallingNode,
    AdvisingNode,
    CheckingPackage,
    InstallingDsh,
    Done(bool),
}

/// A check of the tools, in progress.
#[derive(Clone, Copy, Debug)]
pub struct Setup {
    pub platform: Platform,
    pub mode: SetupMode,
    pub stage: SetupStage,
}

/// The question asked in each stage.
pub open spec fn action_of(stage: SetupStage) -> SetupAction {
    match stage {
        SetupStage::LocatingNpm => SetupAction::LocateTool(Tool::Npm),
        SetupStage::LocatingNpx => SetupAction::LocateTool(Tool::Npx),
        SetupStage::InstallingNode => SetupAction::InstallNode,
        SetupStage::AdvisingNode => SetupAction::AdviseManualNodeInstall,
        SetupStage::CheckingPackage => SetupAction::CheckDshPackage,
        SetupStage::InstallingDsh => SetupAction::InstallDsh,
        SetupStage::Done(ready) => SetupAction::Finish(ready),
    }
}

/// Whether Node.js is installed automatically on `platform`: with apt on
/// Linux, with Homebrew on macOS. On Windows the user is asked to install it.
pub open spec fn installs_node(platform: Platform) -> bool {
    platform == Platform::Linux || platform == Platform::MacOs
}

/// Where a repair goes when `npm` or `npx` is missing.
pub open spec fn node_missing_stage(platform: Platform) -> SetupStage {
    if platform == Platform::Windows {
        SetupStage::AdvisingNode
    } else if installs_node(platform) {
        SetupStage::InstallingNode
    } else {
        SetupStage::Done(false)
    }
}

/// The stage after `stage` once the host has answered `answer`.
pub open spec fn next_stage(
    mode: SetupMode,
    platform: Platform,
    stage: SetupStage,
    answer: bool,
) -> SetupStage {
    let repair = mode == SetupMode::Repair;
    match stage {
        SetupStage::LocatingNpm => if answer {
            SetupStage::LocatingNpx
        } else if repair {
            node_missing_stage(platform)
        } else {
            SetupStage::Done(false)
        },
        SetupStage::LocatingNpx => if answer {
            SetupStage::CheckingPackage
        } else if repair {
            node_missing_stage(platform)
        } else {
            SetupStage::Done(false)
        },
        SetupStage::InstallingNode => if answer {
            SetupStage::CheckingPackage
        } else {
            SetupStage::Done(false)
        },
        SetupStage::AdvisingNode => SetupStage::Done(false),
        SetupStage::CheckingPackage => if answer {
            SetupStage::Done(true)
        } else if repair {
            SetupStage::InstallingDsh
        } else {
            SetupStage::Done(false)
        },
        SetupStage::InstallingDsh => SetupStage::Done(answer),
        SetupStage::Done(ready) => SetupStage::Done(ready),
    }
}

/// Starts a check that only reports whether `npm`, `npx` and the DSH
/// package are all present.
pub fn syscheck(platform: Platform) -> (setup: Setup)
    ensures
        setup.platform == platform,
        setup.mode == SetupMode::CheckOnly,
        setup.stage == SetupStage::LocatingNpm,
{
    Setup { platform, mode: SetupMode::CheckOnly, stage: SetupStage::LocatingNpm }
}

/// Starts a check that installs what is missing: Node.js (for `npm` and
/// `npx`) and then the DSH package.
pub fn syscheck_and_fix(platform: Platform) -> (setup: Setup)
    ensures
        setup.platform == platform,
        setup.mode == SetupMode::Repair,
        setup.stage == SetupStage::LocatingNpm,
{
    Setup { platform, mode: SetupMode::Repair, stage: SetupStage::LocatingNpm }
}

impl Setup {
    /// The question this setup waits on.
    pub fn action(&self) -> (action: SetupAction)
        ensures
            action == action_of(self.stage),
    {
        match self.stage {
            SetupStage::LocatingNpm => SetupAction::LocateTool(Tool::Npm),
            SetupStage::LocatingNpx => SetupAction::LocateTool(Tool::Npx),
            SetupStage::InstallingNode => SetupAction::InstallNode,
            SetupStage::AdvisingNode => SetupAction::AdviseManualNodeInstall,
            SetupStage::CheckingPackage => SetupAction::CheckDshPackage,
            SetupStage::InstallingDsh => SetupAction::InstallDsh,
            SetupStage::Done(ready) => SetupAction::Finish(ready),
        }
    }

    /// Takes the host's answer to the current question.
    pub fn advance(&mut self, answer: bool)
        ensures
            final(self).platform == old(self).platform,
            final(self).mode == old(self).mode,
            final(self).stage == next_stage(old(self).mode, old(self).platform, old(self).stage, answer),
    {
        let repair = self.mode == SetupMode::Repair;
        let node_missing = if self.platform == Platform::Windows {
            SetupStage::AdvisingNode
        } else if self.platform == Platform::Linux || self.platform == Platform::MacOs {
            SetupStage::InstallingNode
        } else {
            SetupStage::Done(false)
        };
        self.stage = match self.stage {
            SetupStage::LocatingNpm => if answer {
                SetupStage::LocatingNpx
            } else if repair {
                node_missing
            } else {
                SetupStage::Done(false)
            },
            SetupStage::LocatingNpx => if answer {
                SetupStage::CheckingPackage
            } else if repair {
                node_missing
            } else {
                SetupStage::Done(false)
            },
            SetupStage::InstallingNode => if answer {
                SetupStage::CheckingPackage
            } else {
                SetupStage::Done(false)
            },
            SetupStage::AdvisingNode => SetupStage::Done(false),
            SetupStage::CheckingPackage => if answer {
                SetupStage::Done(true)
            } else if repair {
                SetupStage::InstallingDsh
            } else {
                SetupStage::Done(false)
            },
            SetupStage::InstallingDsh => SetupStage::Done(answer),
            SetupStage::Done(ready) => SetupStage::Done(ready),
        };
    }
}

// ===================== the whole conversation =====================

/// The verdict a setup in `stage` reaches within `steps` questions when the
/// host answers each question `a` with `answers(a)`; `None` if it needs more.
pub open spec fn verdict(
    mode: SetupMode,
    platform: Platform,
    stage: SetupStage,
    answers: spec_fn(SetupAction) -> bool,
    steps: nat,
) -> Option<bool>
    decreases steps,
{
    match stage {
        SetupStage::Done(ready) => Some(ready),
        _ => if steps == 0 {
            None
        } else {
            verdict(
                mode,
                platform,
                next_stage(mode, platform, stage, answers(action_of(stage))),
                answers,
                (steps - 1) as nat,
            )
        },
    }
}

/// `syscheck` reports ready exactly when `npm` and `npx` are found and the
/// DSH package is installed, after at most three questions.
pub proof fn lemma_syscheck_verdict(platform: Platform, answers: spec_fn(SetupAction) -> bool)
    ensures
        verdict(SetupMode::CheckOnly, platform, SetupStage::LocatingNpm, answers, 3) == Some(
            answers(SetupAction::LocateTool(Tool::Npm)) && answers(
                SetupAction::LocateTool(Tool::Npx),
            ) && answers(SetupAction::CheckDshPackage),
        ),
{
    reveal_with_fuel(verdict, 4);
}

/// `syscheck_and_fix` reports ready exactly when Node.js is usable (`npm`
/// and `npx` found, or Node.js installed automatically, which only Linux and
/// macOS do) and the DSH package is usable (found, or installed), after at
/// most five questions.
pub proof fn lemma_syscheck_and_fix_verdict(
    platform: Platform,
    answers: spec_fn(SetupAction) -> bool,
)
    ensures
        verdict(SetupMode::Repair, platform, SetupStage::LocatingNpm, answers, 5) == Some(
            ((answers(SetupAction::LocateTool(Tool::Npm)) && answers(
                SetupAction::LocateTool(Tool::Npx),
            )) || (installs_node(platform) && answers(SetupAction::InstallNode))) && (answers(
                SetupAction::CheckDshPackage,
            ) || answers(SetupAction::InstallDsh)),
        ),
{
    reveal_with_fuel(verdict, 6);
}

/// The stages a check-only setup passes through.
pub open spec fn is_check_stage(stage: SetupStage) -> bool {
    stage == SetupStage::LocatingNpm || stage == SetupStage::LocatingNpx || stage
        == SetupStage::CheckingPackage || stage is Done
}

/// A setup started by `syscheck` only looks: it never installs anything
/// nor asks the user to, whatever the host answers.
pub proof fn lemma_check_only_never_installs(
    platform: Platform,
    stage: SetupStage,
    answer: bool,
)
    requires
        is_check_stage(stage),
    ensures
        is_check_stage(next_stage(SetupMode::CheckOnly, platform, stage, answer)),
        action_of(stage) != SetupAction::InstallNode,
        action_of(stage) != SetupAction::InstallDsh,
        action_of(stage) != SetupAction::AdviseManualNodeInstall,
{
}

/// On Windows Node.js is never installed automatically: a setup that is not
/// installing Node.js never comes to do so.
pub proof fn lemma_windows_never_installs_node(mode: SetupMode, stage: SetupStage, answer: bool)
    requires
        stage != SetupStage::InstallingNode,
    ensures
        next_stage(mode, Platform::Windows, stage, answer) != SetupStage::InstallingNode,
{
}

/// A finished setup stays finished with the same verdict.
pub proof fn lemma_done_is_final(
    mode: SetupMode,
    platform: Platform,
    ready: bool,
    answer: bool,
)
    ensures
        next_stage(mode, platform, SetupStage::Done(ready), answer) == SetupStage::Done(ready),
        action_of(SetupStage::Done(ready)) == SetupAction::Finish(ready),
{
}

// ===================== the commands behind the questions =====================

/// The command that finds `tool` on the `PATH`: `where` on Windows (which
/// also finds `npm.cmd`), `which` elsewhere.
pub fn locate_command(platform: Platform, tool: Tool) -> (cmd: CommandLine)
    ensures
        cmd.program@ == (if platform == Platform::Windows {
            "where"@
        } else {
            "which"@
        }),
        cmd.arg_texts() == seq![
            if tool == Tool::Npm {
                "npm"@
            } else {
                "npx"@
            },
        ],
{
    let program = if platform == Platform::Windows {
        String::from_str("where")
    } else {
        String::from_str("which")
    };
    let name = if tool == Tool::Npm {
        String::from_str("npm")
    } else {
        String::from_str("npx")
    };
    let args = vec![name];
    let cmd = CommandLine { program, args };
    assert(cmd.arg_texts() =~= seq![
        if tool == Tool::Npm {
            "npm"@
        } else {
            "npx"@
        },
    ]);
    cmd
}

/// The command that prints npm's global `node_modules` directory:
/// `npm root -g`.
pub fn global_root_command(platform: Platform) -> (cmd: CommandLine)
    ensures
        cmd.program@ == node_bin_name(platform, "npm"@),
        platform != Platform::Windows ==> cmd.program@ == "npm"@,
        platform == Platform::Windows ==> cmd.program@ == "npm"@ + seq!['.', 'c', 'm', 'd'],
        cmd.arg_texts() == seq!["root"@, "-g"@],
{
    let args = vec![String::from_str("root"), String::from_str("-g")];
    let cmd = CommandLine { program: node_bin(platform, "npm"), args };
    assert(cmd.arg_texts() =~= seq!["root"@, "-g"@]);
    cmd
}

/// npm's global `node_modules` directory, from the standard output of a
/// successful `global_root_command` (`None` if it failed): the output
/// without surrounding whitespace.
pub fn global_modules_root(output: Option<String>) -> (root: Option<String>)
    ensures
        output is None ==> root is None,
        output matches Some(text) ==> (root matches Some(r) && r@ == trim(text@)),
{
    match output {
        None => None,
        Some(text) => {
            let v = chars_of(text.as_str());
            let (a, b) = trim_bounds(&v, 0, v.len());
            assert(v@.subrange(0, v.len() as int) =~= v@);
            Some(substring_owned(text.as_str(), a, b))
        },
    }
}

/// An installer command, with the command line to show the user should it
/// fail.
#[derive(Debug)]
pub struct Installer {
    pub command: CommandLine,
    pub manual_hint: String,
}

/// The installer of Node.js (with `npm` and `npx`): `sudo apt install -y npm
/// nodejs` on Linux, `brew install node` on macOS, none elsewhere.
pub fn node_installer(platform: Platform) -> (installer: Option<Installer>)
    ensures
        installer is Some <==> installs_node(platform),
        platform == Platform::Linux ==> (installer matches Some(i) && i.command.program@ == "sudo"@
            && i.command.arg_texts() == seq!["apt"@, "install"@, "-y"@, "npm"@, "nodejs"@]
            && i.manual_hint@ == "sudo apt install -y npm nodejs"@),
        platform == Platform::MacOs ==> (installer matches Some(i) && i.command.program@
            == "brew"@ && i.command.arg_texts() == seq!["install"@, "node"@]
            && i.manual_hint@ == "brew install node"@),
{
    if platform == Platform::Linux {
        let args = vec![
            String::from_str("apt"),
            String::from_str("install"),
            String::from_str("-y"),
            String::from_str("npm"),
            String::from_str("nodejs"),
        ];
        let command = CommandLine { program: String::from_str("sudo"), args };
        assert(command.arg_texts() =~= seq!["apt"@, "install"@, "-y"@, "npm"@, "nodejs"@]);
        Some(Installer { command, manual_hint: String::from_str("sudo apt install -y npm nodejs") })
    } else if platform == Platform::MacOs {
        let args = vec![String::from_str("install"), String::from_str("node")];
        let command = CommandLine { program: String::from_str("brew"), args };
        assert(command.arg_texts() =~= seq!["install"@, "node"@]);
        Some(Installer { command, manual_hint: String::from_str("brew install node") })
    } else {
        None
    }
}

/// The installer of the DSH package: `npm install -g @deepseek-ai/dsh`.
pub fn dsh_installer(platform: Platform) -> (installer: Installer)
    ensures
        installer.command.program@ == node_bin_name(platform, "npm"@),
        platform != Platform::Windows ==> installer.command.program@ == "npm"@,
        platform == Platform::Windows ==> installer.command.program@ == "npm"@ + seq![
            '.',
            'c',
            'm',
            'd',
        ],
        installer.command.arg_texts() == seq!["install"@, "-g"@, dsh_package_name()],
        installer.manual_hint@ == "npm install -g "@ + dsh_package_name(),
{
    let args = vec![String::from_str("install"), String::from_str("-g"), String::from_str(dsh_package())];
    let command = CommandLine { program: node_bin(platform, "npm"), args };
    assert(command.arg_texts() =~= seq!["install"@, "-g"@, dsh_package_name()]);
    let mut manual_hint = String::from_str("npm install -g ");
    manual_hint.append(dsh_package());
    Installer { command, manual_hint }
}

} // verus!
