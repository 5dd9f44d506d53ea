//! Reading a secret from the terminal without showing it.
//!
//! The terminal is the caller's. This module decides what is done to it, in
//! which order, and what becomes of the line that was read: a state machine
//! with one pending action in every state, as in a training run.

use crate::secret::{without_trailing_newlines, Secret};
use vstd::prelude::*;

verus! {

/// Where the reading of one secret stands.
#[derive(Clone, Copy, Debug, PartialEq, Eq, Structural)]
pub enum InputPhase {
    /// The terminal's mode is being asked for.
    Querying,
    /// The mode without echo is being set.
    Suppressing,
    /// The line is being read.
    Reading,
    /// The mode with echo is being set.
    Restoring,
    /// The secret is there to be taken.
    Delivered,
    /// There is no secret.
    Failed,
}

/// Why there is no secret.
#[derive(Clone, Copy, Debug, PartialEq, Eq, Structural)]
pub enum InputError {
    /// The terminal's mode could not be asked for or set.
    Terminal,
    /// The line could not be read.
    Read,
}

/// What the caller is to do next.
#[derive(Clone, Copy, Debug, PartialEq, Eq, Structural)]
pub enum InputAction {
    /// Ask for the terminal's mode flags, and report them.
    QueryMode,
    /// Set the terminal's mode flags to these, and report whether that
    /// worked.
    SetMode(u64),
    /// Show the prompt, read one line, and report it.
    ReadLine,
    /// Take the secret.
    Deliver,
    /// Give up.
    Fail(InputError),
}

/// What the caller reports.
pub enum InputEvent {
    /// The terminal's mode flags, or that they could not be had.
    Mode(Option<u64>),
    /// Whether the mode was set.
    ModeSet(bool),
    /// The line as it was read, or that none could be read.
    Line(Option<String>),
}

/// An event as a value.
pub enum InputEventView {
    Mode(Option<u64>),
    ModeSet(bool),
    Line(Option<Seq<char>>),
}

impl View for InputEvent {
    type V = InputEventView;

    open spec fn view(&self) -> InputEventView {
        match self {
            InputEvent::Mode(flags) => InputEventView::Mode(*flags),
            InputEvent::ModeSet(done) => InputEventView::ModeSet(*done),
            InputEvent::Line(Some(line)) => InputEventView::Line(Some(line@)),
            InputEvent::Line(None) => InputEventView::Line(None),
        }
    }
}

/// The reading of one secret as a value.
pub struct InputView {
    /// The flag that stands for echo among the mode flags.
    pub echo: u64,
    pub phase: InputPhase,
    /// The mode flags as they were found.
    pub found: u64,
    /// The mode flags as they are now.
    pub mode: u64,
    /// Whether the reading of a line was begun.
    pub attempted: bool,
    /// The secret, once a line was read.
    pub entered: Option<Seq<char>>,
    /// Why there is no secret, once the reading has failed.
    pub error: InputError,
}

/// `flags` with echo switched off.
pub open spec fn without_echo(flags: u64, echo: u64) -> u64 {
    flags & !echo
}

/// `flags` with echo switched on.
pub open spec fn with_echo(flags: u64, echo: u64) -> u64 {
    flags | echo
}

/// Whether echo is on in `flags`.
pub open spec fn echo_is_on(flags: u64, echo: u64) -> bool {
    flags & echo == echo
}

/// The state in which the reading of a secret begins.
pub open spec fn input_initial(echo: u64) -> InputView {
    InputView {
        echo,
        phase: InputPhase::Querying,
        found: 0,
        mode: 0,
        attempted: false,
        entered: None,
        error: InputError::Terminal,
    }
}

/// The action that is pending in a state.
pub open spec fn input_pending(s: InputView) -> InputAction {
    match s.phase {
        InputPhase::Querying => InputAction::QueryMode,
        InputPhase::Suppressing => InputAction::SetMode(without_echo(s.found, s.echo)),
        InputPhase::Reading => InputAction::ReadLine,
        InputPhase::Restoring => InputAction::SetMode(with_echo(s.found, s.echo)),
        InputPhase::Delivered => InputAction::Deliver,
        InputPhase::Failed => InputAction::Fail(s.error),
    }
}

/// The state that follows `s` on the event `e`.
///
/// - The mode is known: echo is to be switched off. It cannot be had:
///   the reading fails, and the terminal was not touched.
/// - Echo is off: the line is to be read. It could not be switched off:
///   the reading fails, and no line is read.
/// - The line was read, or could not be read: either way echo is to be
///   switched on again. The line feeds at the end of the line are dropped.
/// - Echo is on again: the secret is delivered, or, where no line could be
///   read, the reading fails. Echo could not be switched on: the reading
///   fails and the secret is dropped.
/// - An event that does not answer the pending action changes nothing.
pub open spec fn input_next(s: InputView, e: InputEventView) -> InputView {
    match (s.phase, e) {
        (InputPhase::Querying, InputEventView::Mode(Some(flags))) => InputView {
            phase: InputPhase::Suppressing,
            found: flags,
            mode: flags,
            ..s
        },
        (InputPhase::Querying, InputEventView::Mode(None)) => InputView {
            phase: InputPhase::Failed,
            error: InputError::Terminal,
            ..s
        },
        (InputPhase::Suppressing, InputEventView::ModeSet(true)) => InputView {
            phase: InputPhase::Reading,
            mode: without_echo(s.found, s.echo),
            attempted: true,
            ..s
        },
        (InputPhase::Suppressing, InputEventView::ModeSet(false)) => InputView {
            phase: InputPhase::Failed,
            error: InputError::Terminal,
            ..s
        },
        (InputPhase::Reading, InputEventView::Line(Some(line))) => InputView {
            phase: InputPhase::Restoring,
            entered: Some(without_trailing_newlines(line)),
            ..s
        },
        (InputPhase::Reading, InputEventView::Line(None)) => InputView {
            phase: InputPhase::Restoring,
            entered: None,
            ..s
        },
        (InputPhase::Restoring, InputEventView::ModeSet(true)) => InputView {
            phase: if s.entered is Some {
                InputPhase::Delivered
            } else {
                InputPhase::Failed
            },
            mode: with_echo(s.found, s.echo),
            error: InputError::Read,
            ..s
        },
        (InputPhase::Restoring, InputEventView::ModeSet(false)) => InputView {
            phase: InputPhase::Failed,
            entered: None,
            error: InputError::Terminal,
            ..s
        },
        _ => s,
    }
}

/// What holds of the reading of a secret in every state: how the terminal's
/// mode stands, by the phase.
pub open spec fn input_valid(s: InputView) -> bool {
    match s.phase {
        InputPhase::Querying => !s.attempted && s.entered is None && s.mode == s.found,
        InputPhase::Suppressing => !s.attempted && s.entered is None && s.mode == s.found,
        InputPhase::Reading => s.attempted && s.entered is None && s.mode == without_echo(
            s.found,
            s.echo,
        ),
        InputPhase::Restoring => s.attempted && s.mode == without_echo(s.found, s.echo),
        InputPhase::Delivered => s.attempted && s.entered is Some && s.mode == with_echo(
            s.found,
            s.echo,
        ),
        InputPhase::Failed => s.entered is None && match s.error {
            InputError::Read => s.attempted && s.mode == with_echo(s.found, s.echo),
            InputError::Terminal => if s.attempted {
                s.mode == without_echo(s.found, s.echo)
            } else {
                s.mode == s.found
            },
        },
    }
}

/// Reads `libc::ECHO`, the flag that stands for echo among a terminal's
/// local mode flags. Trusted: that it is not 0, as on every system that
/// `libc` knows.
#[verifier::external_body]
fn echo_flag() -> (r: u64)
    ensures
        r != 0,
{
    libc::ECHO as u64
}

/// The reading of one secret.
pub struct SecureInput {
    echo: u64,
    phase: InputPhase,
    found: u64,
    mode: u64,
    attempted: bool,
    entered: Option<Secret>,
    error: InputError,
}

impl View for SecureInput {
    type V = InputView;

    closed spec fn view(&self) -> InputView {
        InputView {
            echo: self.echo,
            phase: self.phase,
            found: self.found,
            mode: self.mode,
            attempted: self.attempted,
            entered: match self.entered {
                Some(secret) => Some(secret@),
                None => None,
            },
            error: self.error,
        }
    }
}

impl SecureInput {
    #[verifier::type_invariant]
    spec fn is_valid(&self) -> bool {
        input_valid(self@)
    }

    /// Begins the reading of a secret from a terminal whose echo flag is
    /// `echo`.
    pub fn with_echo_flag(echo: u64) -> (r: SecureInput)
        ensures
            r@ == input_initial(echo),
    {
        SecureInput {
            echo,
            phase: InputPhase::Querying,
            found: 0,
            mode: 0,
            attempted: false,
            entered: None,
            error: InputError::Terminal,
        }
    }

    /// Begins the reading of a secret from a terminal of this system.
    pub fn new() -> (r: SecureInput)
        ensures
            exists|echo: u64| echo != 0 && r@ == input_initial(echo),
    {
        SecureInput::with_echo_flag(echo_flag())
    }

    /// Takes what the caller reports and gives the state that follows, with
    /// the action that is pending in it.
    pub fn step(self, event: InputEvent) -> (r: (SecureInput, InputAction))
        ensures
            r.0@ == input_next(self@, event@),
            r.1 == input_pending(r.0@),
            input_valid(r.0@),
    {
        proof {
            use_type_invariant(&self);
        }
        let SecureInput { echo, phase, found, mode, attempted, entered, error } = self;
        let after = match (phase, event) {
            (InputPhase::Querying, InputEvent::Mode(Some(flags))) => SecureInput {
                echo,
                phase: InputPhase::Suppressing,
                found: flags,
                mode: flags,
                attempted,
                entered,
                error,
            },
            (InputPhase::Querying, InputEvent::Mode(None)) => SecureInput {
                echo,
                phase: InputPhase::Failed,
                found,
                mode,
                attempted,
                entered,
                error: InputError::Terminal,
            },
            (InputPhase::Suppressing, InputEvent::ModeSet(true)) => SecureInput {
                echo,
                phase: InputPhase::Reading,
                found,
                mode: found & !echo,
                attempted: true,
                entered,
                error,
            },
            (InputPhase::Suppressing, InputEvent::ModeSet(false)) => SecureInput {
                echo,
                phase: InputPhase::Failed,
                found,
                mode,
                attempted,
                entered,
                error: InputError::Terminal,
            },
            (InputPhase::Reading, InputEvent::Line(Some(line))) => SecureInput {
                echo,
                phase: InputPhase::Restoring,
                found,
                mode,
                attempted,
                entered: Some(Secret::from_line(line)),
                error,
            },
            (InputPhase::Reading, InputEvent::Line(None)) => SecureInput {
                echo,
                phase: InputPhase::Restoring,
                found,
                mode,
                attempted,
                entered: None,
                error,
            },
            (InputPhase::Restoring, InputEvent::ModeSet(true)) => {
                let phase = if entered.is_some() {
                    InputPhase::Delivered
                } else {
                    InputPhase::Failed
                };
                SecureInput {
                    echo,
                    phase,
                    found,
                    mode: found | echo,
                    attempted,
                    entered,
                    error: InputError::Read,
                }
            },
            (InputPhase::Restoring, InputEvent::ModeSet(false)) => SecureInput {
                echo,
                phase: InputPhase::Failed,
                found,
                mode,
                attempted,
                entered: None,
                error: InputError::Terminal,
            },
            (_, _) => SecureInput { echo, phase, found, mode, attempted, entered, error },
        };
        let action = after.pending();
        (after, action)
    }

    /// The action that is pending.
    pub fn pending(&self) -> (r: InputAction)
        ensures
            r == input_pending(self@),
            input_valid(self@),
    {
        proof {
            use_type_invariant(self);
        }
        match self.phase {
            InputPhase::Querying => InputAction::QueryMode,
            InputPhase::Suppressing => InputAction::SetMode(self.found & !self.echo),
            InputPhase::Reading => InputAction::ReadLine,
            InputPhase::Restoring => InputAction::SetMode(self.found | self.echo),
            InputPhase::Delivered => InputAction::Deliver,
            InputPhase::Failed => InputAction::Fail(self.error),
        }
    }

    /// The terminal's mode flags as they stand, as far as this reading
    /// knows: as they were found, until it has set others.
    pub fn mode(&self) -> (r: u64)
        ensures
            r == self@.mode,
    {
        self.mode
    }

    /// Ends the reading: the secret, where one was delivered, and else why
    /// there is none. A reading that is still under way has no secret yet,
    /// and is given up as a failure of the terminal.
    pub fn finish(self) -> (r: Result<Secret, InputError>)
        ensures
            match r {
                Ok(secret) => self@.phase == InputPhase::Delivered && self@.entered == Some(secret@),
                Err(e) => self@.phase != InputPhase::Delivered && e == if self@.phase
                    == InputPhase::Failed {
                    self@.error
                } else {
                    InputError::Terminal
                },
            },
    {
        proof {
            use_type_invariant(&self);
        }
        let SecureInput { echo, phase, found, mode, attempted, entered, error } = self;
        match phase {
            InputPhase::Delivered => match entered {
                Some(secret) => Ok(secret),
                None => Err(InputError::Terminal),
            },
            InputPhase::Failed => Err(error),
            _ => Err(InputError::Terminal),
        }
    }
}

/// Every event leaves a valid state valid.
pub proof fn lemma_input_next_valid(s: InputView, e: InputEventView)
    requires
        input_valid(s),
    ensures
        input_valid(input_next(s, e)),
{
}

/// While a line is read, echo is off: the mode that is set for the reading
/// holds nothing of the echo flag, and so, where there is an echo flag, it
/// is another mode than one in which echo is on.
pub proof fn lemma_no_echo_while_reading(flags: u64, echo: u64)
    ensures
        without_echo(flags, echo) & echo == 0,
        echo != 0 ==> !echo_is_on(without_echo(flags, echo), echo),
        echo != 0 && echo_is_on(flags, echo) ==> without_echo(flags, echo) != flags,
{
    assert((flags & !echo) & echo == 0) by (bit_vector);
    assert(echo != 0 && flags & echo == echo ==> (flags & !echo) != flags) by (bit_vector);
}

/// To switch echo off and on again gives back the mode that was found,
/// where echo was on in it. Where it was off, echo is on afterwards, and
/// nothing else has changed.
pub proof fn lemma_restore_undoes_suppress(flags: u64, echo: u64)
    ensures
        with_echo(without_echo(flags, echo), echo) == with_echo(flags, echo),
        echo_is_on(with_echo(flags, echo), echo),
        echo_is_on(flags, echo) ==> with_echo(flags, echo) == flags,
{
    assert(((flags & !echo) | echo) == (flags | echo)) by (bit_vector);
    assert((flags | echo) & echo == echo) by (bit_vector);
    assert(flags & echo == echo ==> (flags | echo) == flags) by (bit_vector);
}

/// Once a line was asked for, the reading ends only after echo was switched
/// on again, whether a line was read or not: a secret is delivered, or the
/// reading of the line is what failed, only on the report that the mode
/// with echo was set.
pub proof fn lemma_restore_on_every_path(s: InputView, e: InputEventView)
    requires
        input_valid(s),
    ensures
        s.phase == InputPhase::Reading ==> input_next(s, e).phase == InputPhase::Reading
            || input_next(s, e).phase == InputPhase::Restoring,
        input_next(s, e).phase == InputPhase::Restoring ==> input_pending(input_next(s, e))
            == InputAction::SetMode(with_echo(s.found, s.echo)),
        input_next(s, e).phase == InputPhase::Delivered && s.phase != InputPhase::Delivered ==> s.phase
            == InputPhase::Restoring && e == InputEventView::ModeSet(true),
        input_next(s, e).phase == InputPhase::Reading && s.phase != InputPhase::Reading ==> s.phase
            == InputPhase::Suppressing && e == InputEventView::ModeSet(true),
{
}

/// When the reading has ended with a secret, or because no line could be
/// read, the terminal's mode is the one that was found, where echo was on
/// in it. When it has ended before a line was asked for, the mode is the
/// one that was found, whatever it was.
pub proof fn lemma_echo_restored(s: InputView)
    requires
        input_valid(s),
        s.phase == InputPhase::Delivered || s.phase == InputPhase::Failed,
        s.phase == InputPhase::Failed && s.error == InputError::Terminal ==> !s.attempted,
        s.attempted ==> echo_is_on(s.found, s.echo),
    ensures
        s.mode == s.found,
{
    lemma_restore_undoes_suppress(s.found, s.echo);
}

} // verus!
