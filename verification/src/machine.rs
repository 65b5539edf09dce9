//! The steps of a command.
//!
//! A command runs as a sequence of steps. Each step hands the host some text
//! to print and says how to go on: with an operation for the host to perform,
//! after which the command is resumed with the host's reply; or not at all,
//! because the command has ended.

use crate::commands::cat::{CatState, CatStateView};
use crate::commands::ls::{LsState, LsStateView};
use crate::commands::mkdir::{MkdirState, MkdirStateView};
use crate::commands::rm::{RmState, RmStateView};
use crate::commands::touch::{TouchState, TouchStateView};
use crate::commands::transfer::{TransferState, TransferStateView};
use crate::host::{ReplyView, Request, RequestView};
use crate::shell::{CdState, CdStateView};
use crate::utils::error::{ErrorKind, IoErrorView, ShellError, ShellErrorView};
use vstd::prelude::*;

verus! {

/// A command that waits for the host's reply to its request.
#[derive(Debug, PartialEq, Eq)]
pub enum Pending {
    Cat(CatState),
    Cd(CdState),
    Ls(LsState),
    Mkdir(MkdirState),
    Rm(RmState),
    Touch(TouchState),
    Transfer(TransferState),
}

/// The mathematical value of a [`Pending`].
pub enum PendingView {
    Cat(CatStateView),
    Cd(CdStateView),
    Ls(LsStateView),
    Mkdir(MkdirStateView),
    Rm(RmStateView),
    Touch(TouchStateView),
    Transfer(TransferStateView),
}

impl View for Pending {
    type V = PendingView;

    open spec fn view(&self) -> PendingView {
        match self {
            Pending::Cat(state) => PendingView::Cat(state@),
            Pending::Cd(state) => PendingView::Cd(state@),
            Pending::Ls(state) => PendingView::Ls(state@),
            Pending::Mkdir(state) => PendingView::Mkdir(state@),
            Pending::Rm(state) => PendingView::Rm(state@),
            Pending::Touch(state) => PendingView::Touch(state@),
            Pending::Transfer(state) => PendingView::Transfer(state@),
        }
    }
}

impl PendingView {
    /// The operation that the command waits for.
    pub open spec fn request(self) -> RequestView {
        match self {
            PendingView::Cat(state) => state.request(),
            PendingView::Cd(state) => state.request(),
            PendingView::Ls(state) => state.request(),
            PendingView::Mkdir(state) => state.request(),
            PendingView::Rm(state) => state.request(),
            PendingView::Touch(state) => state.request(),
            PendingView::Transfer(state) => state.request(),
        }
    }

    /// The step of the command after the host's reply.
    pub open spec fn resume(self, reply: ReplyView) -> StepView {
        match self {
            PendingView::Cat(state) => state.resume(reply),
            PendingView::Cd(state) => state.resume(reply),
            PendingView::Ls(state) => state.resume(reply),
            PendingView::Mkdir(state) => state.resume(reply),
            PendingView::Rm(state) => state.resume(reply),
            PendingView::Touch(state) => state.resume(reply),
            PendingView::Transfer(state) => state.resume(reply),
        }
    }

    /// The directory that the shell enters with the host's reply, if it
    /// enters one.
    pub open spec fn entered(self, reply: ReplyView) -> Option<Seq<char>> {
        match self {
            PendingView::Cd(state) => state.entered(reply),
            _ => None,
        }
    }
}

impl Pending {
    /// The operation that the command waits for.
    pub fn request(&self) -> (request: Request)
        ensures
            request@ == self@.request(),
    {
        match self {
            Pending::Cat(state) => state.request(),
            Pending::Cd(state) => state.request(),
            Pending::Ls(state) => state.request(),
            Pending::Mkdir(state) => state.request(),
            Pending::Rm(state) => state.request(),
            Pending::Touch(state) => state.request(),
            Pending::Transfer(state) => state.request(),
        }
    }
}

/// How a command goes on after a step.
#[derive(Debug, PartialEq, Eq)]
pub enum Next {
    /// The command has ended, well or with an error.
    Done(Result<(), ShellError>),
    /// The host performs the request of the pending command and resumes it.
    Ask(Pending),
    /// The shell ends.
    Exit,
}

/// The mathematical value of a [`Next`].
pub enum NextView {
    Done(Result<(), ShellErrorView>),
    Ask(PendingView),
    Exit,
}

impl View for Next {
    type V = NextView;

    open spec fn view(&self) -> NextView {
        match self {
            Next::Done(Ok(())) => NextView::Done(Ok(())),
            Next::Done(Err(e)) => NextView::Done(Err(e@)),
            Next::Ask(pending) => NextView::Ask(pending@),
            Next::Exit => NextView::Exit,
        }
    }
}

/// One step of a command: the text to print now, and how to go on.
#[derive(Debug, PartialEq, Eq)]
pub struct Step {
    pub output: String,
    pub next: Next,
}

/// The mathematical value of a [`Step`].
pub struct StepView {
    pub output: Seq<char>,
    pub next: NextView,
}

impl View for Step {
    type V = StepView;

    open spec fn view(&self) -> StepView {
        StepView { output: self.output@, next: self.next@ }
    }
}

impl StepView {
    /// The command ends well after printing `output`.
    pub open spec fn print(output: Seq<char>) -> StepView {
        StepView { output, next: NextView::Done(Ok(())) }
    }

    /// The command ends well and prints nothing.
    pub open spec fn done() -> StepView {
        StepView::print(Seq::<char>::empty())
    }

    /// The command ends with `error`.
    pub open spec fn fail(error: ShellErrorView) -> StepView {
        StepView { output: Seq::<char>::empty(), next: NextView::Done(Err(error)) }
    }

    /// The command ends because of arguments it does not take.
    pub open spec fn invalid(message: Seq<char>) -> StepView {
        StepView::fail(ShellErrorView::InvalidArguments(message))
    }

    /// The command ends on a failed operation of kind `kind`, with
    /// `message` in place of the host's words.
    pub open spec fn fail_io(kind: ErrorKind, message: Seq<char>) -> StepView {
        StepView::fail(ShellErrorView::IoError(IoErrorView { kind, message }))
    }

    /// The command waits for the host.
    pub open spec fn ask(pending: PendingView) -> StepView {
        StepView { output: Seq::<char>::empty(), next: NextView::Ask(pending) }
    }
}

impl Step {
    /// The command ends well after printing `output`.
    pub fn print(output: String) -> (step: Step)
        ensures
            step@ == StepView::print(output@),
    {
        Step { output, next: Next::Done(Ok(())) }
    }

    /// The command ends well and prints nothing.
    pub fn done() -> (step: Step)
        ensures
            step@ == StepView::done(),
    {
        Step { output: String::new(), next: Next::Done(Ok(())) }
    }

    /// The command ends with `error`.
    pub fn fail(error: ShellError) -> (step: Step)
        ensures
            step@ == StepView::fail(error@),
    {
        Step { output: String::new(), next: Next::Done(Err(error)) }
    }

    /// The command ends because of arguments it does not take.
    pub fn invalid(message: String) -> (step: Step)
        ensures
            step@ == StepView::invalid(message@),
    {
        Step { output: String::new(), next: Next::Done(Err(ShellError::InvalidArguments(message))) }
    }

    /// The command ends on a failed operation of kind `kind`, with
    /// `message` in place of the host's words.
    pub fn fail_io(kind: ErrorKind, message: String) -> (step: Step)
        ensures
            step@ == StepView::fail_io(kind, message@),
    {
        Step::fail(ShellError::io(kind, message))
    }

    /// The command waits for the host.
    pub fn ask(pending: Pending) -> (step: Step)
        ensures
            step@ == StepView::ask(pending@),
    {
        Step { output: String::new(), next: Next::Ask(pending) }
    }
}

} // verus!
