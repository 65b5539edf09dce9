//! `rm`: remove files, or with `-r` directories and all they hold.

use crate::host::{Reply, ReplyView, Request, RequestView};
use crate::machine::{Pending, PendingView, Step, StepView};
use crate::utils::error::{IoErrorView, ShellError, ShellErrorView};
use crate::utils::path::{join, join_path};
use crate::utils::text::{owned, str_eq, views};
use vstd::prelude::*;
use vstd::string::StringExecFns;

verus! {

/// `rm` while the host removes one of its targets.
#[derive(Debug, PartialEq, Eq)]
pub struct RmState {
    cwd: String,
    args: Vec<String>,
    index: usize,
    recursive: bool,
}

/// The mathematical value of a [`RmState`].
pub struct RmStateView {
    /// The shell's current directory.
    pub cwd: Seq<char>,
    /// The arguments, the flag included.
    pub args: Seq<Seq<char>>,
    /// Which of them is being removed.
    pub index: int,
    /// Whether directories are removed with all they hold.
    pub recursive: bool,
}

impl View for RmState {
    type V = RmStateView;

    closed spec fn view(&self) -> RmStateView {
        RmStateView {
            cwd: self.cwd@,
            args: views(self.args@),
            index: self.index as int,
            recursive: self.recursive,
        }
    }
}

/// `rm` from its argument number `index` on.
pub open spec fn rm_from(
    cwd: Seq<char>,
    args: Seq<Seq<char>>,
    index: int,
    recursive: bool,
) -> StepView {
    if index < args.len() {
        StepView::ask(PendingView::Rm(RmStateView { cwd, args, index, recursive }))
    } else {
        StepView::done()
    }
}

/// The first step of `rm`. A first argument `-r` makes it recursive. With
/// nothing to remove it fails; otherwise it asks for its first target.
pub open spec fn rm_start(cwd: Seq<char>, args: Seq<Seq<char>>) -> StepView {
    if args.len() == 0 {
        StepView::invalid("rm: nothing specified"@)
    } else if args[0] == "-r"@ {
        if args.len() < 2 {
            StepView::invalid("rm: nothing specified"@)
        } else {
            rm_from(cwd, args, 1, true)
        }
    } else {
        rm_from(cwd, args, 0, false)
    }
}

impl RmStateView {
    pub open spec fn request(self) -> RequestView {
        if self.recursive {
            RequestView::RemoveDirAll(join(self.cwd, self.args[self.index]))
        } else {
            RequestView::RemoveFile(join(self.cwd, self.args[self.index]))
        }
    }

    /// The step after the host's reply: a failure ends the command, with
    /// the host's error when it is recursive, and otherwise with the words
    /// that the target is a directory; after a success the next target is
    /// asked for.
    pub open spec fn resume(self, reply: ReplyView) -> StepView {
        match reply {
            ReplyView::Failed(e) => if self.recursive {
                StepView::fail(ShellErrorView::IoError(e))
            } else {
                StepView::invalid(
                    "rm: cannot remove '"@ + self.args[self.index] + "': is a directory"@,
                )
            },
            _ => rm_from(self.cwd, self.args, self.index + 1, self.recursive),
        }
    }
}

impl RmState {
    #[verifier::type_invariant]
    spec fn inv(self) -> bool {
        self.index < self.args.len()
    }

    pub fn request(&self) -> (request: Request)
        ensures
            request@ == self@.request(),
    {
        proof {
            use_type_invariant(self);
        }
        let path = join_path(self.cwd.as_str(), self.args[self.index].as_str());
        if self.recursive {
            Request::RemoveDirAll(path)
        } else {
            Request::RemoveFile(path)
        }
    }
}

fn rm_at(cwd: String, args: Vec<String>, index: usize, recursive: bool) -> (step: Step)
    ensures
        step@ == rm_from(cwd@, views(args@), index as int, recursive),
{
    if index < args.len() {
        Step::ask(Pending::Rm(RmState { cwd, args, index, recursive }))
    } else {
        Step::done()
    }
}

/// Starts `rm` in `current_dir` with the arguments `args`.
pub fn rm(current_dir: &str, args: &[&str]) -> (step: Step)
    ensures
        step@ == rm_start(current_dir@, views(args@)),
{
    if args.len() == 0 {
        return Step::invalid("rm: nothing specified".to_owned());
    }
    let recursive = str_eq(args[0], "-r");
    if recursive && args.len() < 2 {
        return Step::invalid("rm: nothing specified".to_owned());
    }
    rm_at(
        current_dir.to_owned(),
        owned(args),
        if recursive {
            1
        } else {
            0
        },
        recursive,
    )
}

/// Goes on with `rm` after the host's reply.
pub fn rm_resume(state: RmState, reply: Reply) -> (step: Step)
    requires
        state@.request().accepts(reply@),
    ensures
        step@ == state@.resume(reply@),
{
    proof {
        use_type_invariant(&state);
    }
    match reply {
        Reply::Failed(e) => {
            if state.recursive {
                Step::fail(ShellError::IoError(e))
            } else {
                let mut message = String::from_str("rm: cannot remove '");
                message.append(state.args[state.index].as_str());
                message.append("': is a directory");
                Step::invalid(message)
            }
        },
        _ => rm_at(state.cwd, state.args, state.index + 1, state.recursive),
    }
}

/// `rm -r` asks the host to remove each target with all it holds, one
/// target after the other and in the order given. It goes on only after a
/// removal has succeeded, and ends with the host's error after one that
/// has failed.
pub proof fn lemma_rm_recursive(cwd: Seq<char>, targets: Seq<Seq<char>>, index: int)
    requires
        0 <= index < targets.len(),
    ensures
        ({
            let args = seq!["-r"@] + targets;
            let state = RmStateView { cwd, args, index: index + 1, recursive: true };
            &&& rm_start(cwd, args) == rm_from(cwd, args, 1, true)
            &&& rm_from(cwd, args, index + 1, true) == StepView::ask(PendingView::Rm(state))
            &&& state.request() == RequestView::RemoveDirAll(join(cwd, targets[index]))
            &&& state.resume(ReplyView::Done) == if index + 1 < targets.len() {
                rm_from(cwd, args, index + 2, true)
            } else {
                StepView::done()
            }
            &&& forall|e: IoErrorView| #[trigger]
                state.resume(ReplyView::Failed(e)) == StepView::fail(ShellErrorView::IoError(e))
        }),
{
}

} // verus!
