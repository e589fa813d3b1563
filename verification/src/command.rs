//! The platforms the shell runs on, and the command lines it asks the host
//! to run.
use vstd::prelude::*;
use vstd::string::*;

verus! {

/// The operating system family the shell runs on.
#[derive(Clone, Copy, Debug, PartialEq, Eq, Structural)]
pub enum Platform {
    Windows,
    Linux,
    MacOs,
    /// A Unix other than Linux and macOS.
    OtherUnix,
}

/// A program and its arguments, to be run by the host without a console
/// window.
#[derive(Debug)]
pub struct CommandLine {
    pub program: String,
    pub args: Vec<String>,
}

impl CommandLine {
    /// The arguments, each seen as characters.
    pub open spec fn arg_texts(&self) -> Seq<Seq<char>> {
        self.args.deep_view()
    }
}

/// The name under which a Node.js tool (`npm`, `npx`) is started: on Windows
/// these tools are `.cmd` scripts, which must be named with their suffix.
pub open spec fn node_bin_name(platform: Platform, name: Seq<char>) -> Seq<char> {
    if platform == Platform::Windows {
        name + ".cmd"@
    } else {
        name
    }
}

/// Only Windows adds the `.cmd` suffix: elsewhere the tool is started by
/// its own name, on Windows by that name followed by `.cmd`.
pub proof fn lemma_only_windows_adds_cmd(platform: Platform, name: Seq<char>)
    ensures
        platform != Platform::Windows ==> node_bin_name(platform, name) == name,
        platform == Platform::Windows ==> node_bin_name(platform, name).len() == name.len() + 4
            && node_bin_name(platform, name).take(name.len() as int) == name && node_bin_name(
            platform,
            name,
        ).skip(name.len() as int) == seq!['.', 'c', 'm', 'd'],
{
    reveal_strlit(".cmd");
    if platform == Platform::Windows {
        assert(node_bin_name(platform, name).take(name.len() as int) =~= name);
        assert(node_bin_name(platform, name).skip(name.len() as int) =~= seq!['.', 'c', 'm', 'd']);
    }
}

pub fn node_bin(platform: Platform, name: &str) -> (bin: String)
    ensures
        bin@ == node_bin_name(platform, name@),
        platform != Platform::Windows ==> bin@ == name@,
        platform == Platform::Windows ==> bin@ == name@ + seq!['.', 'c', 'm', 'd'],
{
    proof {
        reveal_strlit(".cmd");
        lemma_only_windows_adds_cmd(platform, name@);
    }
    let mut bin = String::from_str(name);
    if platform == Platform::Windows {
        bin.append(".cmd");
    }
    bin
}

} // verus!
