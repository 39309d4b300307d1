//! Commands that the engine asks the host to run.

use crate::text::string_views;
use vstd::prelude::*;

verus! {

/// A program and its arguments, to be run on the host.
#[derive(Debug, Clone)]
pub struct HostCommand {
    pub program: String,
    pub args: Vec<String>,
}

/// What a [`HostCommand`] holds, as mathematical values.
pub struct CommandView {
    pub program: Seq<char>,
    pub args: Seq<Seq<char>>,
}

impl View for HostCommand {
    type V = CommandView;

    open spec fn view(&self) -> CommandView {
        CommandView { program: self.program@, args: string_views(self.args@) }
    }
}

/// The views of a list of commands.
pub open spec fn command_views(v: Seq<HostCommand>) -> Seq<CommandView> {
    Seq::new(v.len(), |i: int| v[i]@)
}

/// How a command that was handed to the host ended.
#[derive(Debug, Clone, Copy, PartialEq, Eq, Structural)]
pub enum CommandOutcome {
    /// The host could not start the program.
    NotStarted,
    /// The program ran and reported success.
    Succeeded,
    /// The program ran and reported failure.
    Failed,
}

/// The command that runs `wsl.exe` with the given arguments.
pub open spec fn wsl_command(args: Seq<Seq<char>>) -> CommandView {
    CommandView { program: "wsl.exe"@, args }
}

/// The command that runs `netsh` with the given arguments.
pub open spec fn netsh_command(args: Seq<Seq<char>>) -> CommandView {
    CommandView { program: "netsh"@, args }
}

} // verus!
