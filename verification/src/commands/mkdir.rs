//! `mkdir`: create directories.

use crate::host::{Reply, ReplyView, Request, RequestView};
use crate::machine::{Pending, PendingView, Step, StepView};
use crate::utils::path::{join, join_path};
use crate::utils::text::{owned, views};
use vstd::prelude::*;
use vstd::string::StringExecFns;

verus! {

/// `mkdir` while the host creates one of its directories.
#[derive(Debug, PartialEq, Eq)]
pub struct MkdirState {
    cwd: String,
    args: Vec<String>,
    index: usize,
}

/// The mathematical value of a [`MkdirState`].
pub struct MkdirStateView {
    /// The shell's current directory.
    pub cwd: Seq<char>,
    /// The directories to create.
    pub args: Seq<Seq<char>>,
    /// Which of them the host is creating.
    pub index: int,
}

impl View for MkdirState {
    type V = MkdirStateView;

    closed spec fn view(&self) -> MkdirStateView {
        MkdirStateView { cwd: self.cwd@, args: views(self.args@), index: self.index as int }
    }
}

/// `mkdir` from its argument number `index` on.
pub open spec fn mkdir_from(cwd: Seq<char>, args: Seq<Seq<char>>, index: int) -> StepView {
    if index < args.len() {
        StepView::ask(PendingView::Mkdir(MkdirStateView { cwd, args, index }))
    } else {
        StepView::done()
    }
}

/// The first step of `mkdir`: without arguments it fails; otherwise it asks
/// for its first directory.
pub open spec fn mkdir_start(cwd: Seq<char>, args: Seq<Seq<char>>) -> StepView {
    if args.len() == 0 {
        StepView::invalid("mkdir: no directory specified"@)
    } else {
        mkdir_from(cwd, args, 0)
    }
}

impl MkdirStateView {
    pub open spec fn request(self) -> RequestView {
        RequestView::CreateDir(join(self.cwd, self.args[self.index]))
    }

    /// The step after the host's reply: a failure ends the command with the
    /// host's words; otherwise the next directory is asked for.
    pub open spec fn resume(self, reply: ReplyView) -> StepView {
        match reply {
            ReplyView::Failed(e) => StepView::invalid("mkdir: "@ + e.message),
            _ => mkdir_from(self.cwd, self.args, self.index + 1),
        }
    }
}

impl MkdirState {
    #[verifier::type_invariant]
    spec fn inv(self) -> bool {
        self.index < self.args.len()
    }

    pub fn request(&self) -> (request: Request)
        ensures
            request@ == self@.request(),
    {
        proof {
            use_type_invariant(self);
        }
        Request::CreateDir(join_path(self.cwd.as_str(), self.args[self.index].as_str()))
    }
}

fn mkdir_at(cwd: String, args: Vec<String>, index: usize) -> (step: Step)
    ensures
        step@ == mkdir_from(cwd@, views(args@), index as int),
{
    if index < args.len() {
        Step::ask(Pending::Mkdir(MkdirState { cwd, args, index }))
    } else {
        Step::done()
    }
}

/// Starts `mkdir` in `current_dir` with the arguments `args`.
pub fn mkdir(current_dir: &str, args: &[&str]) -> (step: Step)
    ensures
        step@ == mkdir_start(current_dir@, views(args@)),
{
    if args.len() == 0 {
        return Step::invalid("mkdir: no directory specified".to_owned());
    }
    mkdir_at(current_dir.to_owned(), owned(args), 0)
}

/// Goes on with `mkdir` after the host's reply.
pub fn mkdir_resume(state: MkdirState, reply: Reply) -> (step: Step)
    requires
        state@.request().accepts(reply@),
    ensures
        step@ == state@.resume(reply@),
{
    proof {
        use_type_invariant(&state);
    }
    match reply {
        Reply::Failed(e) => {
            let mut message = String::from_str("mkdir: ");
            message.append(e.message.as_str());
            Step::invalid(message)
        },
        _ => {
            mkdir_at(state.cwd, state.args, state.index + 1)
        },
    }
}

} // verus!
