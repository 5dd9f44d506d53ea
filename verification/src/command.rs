//! The commands, as they are read from the arguments of the program, and
//! how the program ends.

use crate::duration::Interval;
use crate::expiry::Nag;
use crate::session::Summary;
use crate::text::same_text;
use vstd::prelude::*;

verus! {

/// What the program was asked to do.
pub enum Command {
    /// Store a new credential under `name`.
    Add { name: String },
    /// Train the credentials that are due.
    Train,
    /// Train every credential, due or not.
    TrainAll,
    /// Remind the user if a credential is due.
    Nag,
    /// Anything else: show how the program is used.
    Usage,
}

/// A command as a value.
pub enum CommandView {
    Add { name: Seq<char> },
    Train,
    TrainAll,
    Nag,
    Usage,
}

impl View for Command {
    type V = CommandView;

    open spec fn view(&self) -> CommandView {
        match self {
            Command::Add { name } => CommandView::Add { name: name@ },
            Command::Train => CommandView::Train,
            Command::TrainAll => CommandView::TrainAll,
            Command::Nag => CommandView::Nag,
            Command::Usage => CommandView::Usage,
        }
    }
}

/// What came of a command.
#[derive(Clone, Copy, Debug, PartialEq, Eq, Structural)]
pub enum Outcome {
    /// The credential was stored.
    Added,
    /// The secret and its repetition differed: nothing was stored.
    Mismatch,
    /// A training run came to its end.
    Trained(Summary),
    /// The user was reminded, or nothing was due.
    Nagged(Nag),
    /// The usage was shown.
    Usage,
    /// An error ended the program.
    Fatal,
}

/// How the program ends.
#[derive(Clone, Copy, Debug, PartialEq, Eq, Structural)]
pub enum Exit {
    Success,
    Failure,
}

/// The arguments as texts.
pub open spec fn texts(args: Seq<String>) -> Seq<Seq<char>> {
    Seq::new(args.len(), |i: int| args[i]@)
}

/// The command that the arguments after the program's name ask for.
pub open spec fn command_of(args: Seq<Seq<char>>) -> CommandView {
    if args.len() == 0 {
        CommandView::Train
    } else if args.len() == 1 && args[0] == "all"@ {
        CommandView::TrainAll
    } else if args.len() == 1 && args[0] == "nag"@ {
        CommandView::Nag
    } else if args.len() == 2 && args[0] == "add"@ {
        CommandView::Add { name: args[1] }
    } else {
        CommandView::Usage
    }
}

/// How the program ends after `outcome`: in failure after a mismatch, after
/// showing the usage and after an error, and in success after anything
/// else, also where the user skipped every credential.
pub open spec fn exit_of(outcome: Outcome) -> Exit {
    match outcome {
        Outcome::Mismatch | Outcome::Usage | Outcome::Fatal => Exit::Failure,
        _ => Exit::Success,
    }
}

/// Reads the command from the arguments that follow the program's name.
pub fn parse_command(args: &[String]) -> (r: Command)
    ensures
        r@ == command_of(texts(args@)),
{
    let n = args.len();
    if n == 0 {
        Command::Train
    } else if n == 1 && same_text(args[0].as_str(), "all") {
        Command::TrainAll
    } else if n == 1 && same_text(args[0].as_str(), "nag") {
        Command::Nag
    } else if n == 2 && same_text(args[0].as_str(), "add") {
        Command::Add { name: args[1].clone() }
    } else {
        Command::Usage
    }
}

impl Command {
    /// The interval that the command trains by: none for every credential,
    /// and else the configured one.
    pub fn interval(&self, configured: Interval) -> (r: Interval)
        ensures
            r@ == if self@ is TrainAll {
                0
            } else {
                configured@
            },
    {
        match self {
            Command::TrainAll => Interval { secs: 0 },
            _ => configured,
        }
    }
}

impl Outcome {
    /// How the program ends after this outcome.
    pub fn exit(&self) -> (r: Exit)
        ensures
            r == exit_of(*self),
    {
        match self {
            Outcome::Mismatch | Outcome::Usage | Outcome::Fatal => Exit::Failure,
            _ => Exit::Success,
        }
    }
}

} // verus!
