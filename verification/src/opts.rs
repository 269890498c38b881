//! The resolved command surface: which operation to run and with which
//! paths.  Argument parsing itself happens in the binary around the
//! library; the library only carries the resolved values.

use vstd::prelude::*;

verus! {

/// One operation of the tool.
#[derive(Clone, Debug, PartialEq)]
pub enum Command {
    /// Back up `source` into `destination`.
    Backup { source: String, destination: String },
    /// Scan markdown front matter under `source`; `test_run` asks for a
    /// trial pass that changes nothing.
    Clean { source: String, test_run: bool },
    /// Generate reports.
    Report {},
}

/// The shape of a command: its variant and field values.
pub enum CommandView {
    Backup { source: Seq<char>, destination: Seq<char> },
    Clean { source: Seq<char>, test_run: bool },
    Report,
}

impl View for Command {
    type V = CommandView;

    open spec fn view(&self) -> CommandView {
        match *self {
            Command::Backup { source, destination } => CommandView::Backup {
                source: source@,
                destination: destination@,
            },
            Command::Clean { source, test_run } => CommandView::Clean {
                source: source@,
                test_run,
            },
            Command::Report {  } => CommandView::Report,
        }
    }
}

/// The shape of an optional command.
pub open spec fn opt_command_view(c: Option<Command>) -> Option<CommandView> {
    match c {
        Some(cc) => Some(cc@),
        None => None,
    }
}

/// Copies a command value.
pub fn clone_command(c: &Command) -> (r: Command)
    ensures
        r@ == c@,
{
    match c {
        Command::Backup { source, destination } => Command::Backup {
            source: source.clone(),
            destination: destination.clone(),
        },
        Command::Clean { source, test_run } => Command::Clean {
            source: source.clone(),
            test_run: *test_run,
        },
        Command::Report {  } => Command::Report {  },
    }
}

/// The parsed top-level options: the chosen command, if any.
#[derive(Clone, Debug)]
pub struct Opts {
    pub command: Option<Command>,
}

impl Opts {
    /// The chosen command, as a copy.
    pub fn get_command(&self) -> (r: Option<Command>)
        ensures
            opt_command_view(r) == opt_command_view(self.command),
    {
        match &self.command {
            Some(c) => Some(clone_command(c)),
            None => None,
        }
    }
}

} // verus!
