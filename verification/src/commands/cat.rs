//! `cat`: print files one after the other.

use crate::host::{Reply, ReplyView, Request, RequestView};
use crate::machine::{Next, NextView, Pending, PendingView, Step, StepView};
use crate::utils::path::{join, join_path};
use crate::utils::text::{owned, views};
use vstd::prelude::*;
use vstd::string::StringExecFns;

verus! {

/// `cat` while the host reads one of its files.
#[derive(Debug, PartialEq, Eq)]
pub struct CatState {
    cwd: String,
    args: Vec<String>,
    index: usize,
}

/// The mathematical value of a [`CatState`].
pub struct CatStateView {
    /// The shell's current directory.
    pub cwd: Seq<char>,
    /// The files to print.
    pub args: Seq<Seq<char>>,
    /// Which of them is being read.
    pub index: int,
}

impl View for CatState {
    type V = CatStateView;

    closed spec fn view(&self) -> CatStateView {
        CatStateView { cwd: self.cwd@, args: views(self.args@), index: self.index as int }
    }
}

/// The first step of `cat`: without arguments it fails; otherwise it reads
/// its first file.
pub open spec fn cat_start(cwd: Seq<char>, args: Seq<Seq<char>>) -> StepView {
    if args.len() == 0 {
        StepView::invalid("no file specified"@)
    } else {
        StepView::ask(PendingView::Cat(CatStateView { cwd, args, index: 0 }))
    }
}

impl CatStateView {
    pub open spec fn request(self) -> RequestView {
        RequestView::ReadFile(join(self.cwd, self.args[self.index]))
    }

    /// The step after the host's reply: the text that was read is printed
    /// as it is, and the next file is read; behind the last file a line
    /// feed is printed. A file that cannot be read ends the command; what
    /// was printed before stays printed.
    pub open spec fn resume(self, reply: ReplyView) -> StepView {
        match reply {
            ReplyView::Text(text) => if self.index + 1 < self.args.len() {
                StepView {
                    output: text,
                    next: NextView::Ask(
                        PendingView::Cat(CatStateView { index: self.index + 1, ..self }),
                    ),
                }
            } else {
                StepView::print(text + "\n"@)
            },
            _ => StepView::invalid(
                "cat: "@ + self.args[self.index] + ": no such file or directory"@,
            ),
        }
    }
}

impl CatState {
    #[verifier::type_invariant]
    spec fn inv(self) -> bool {
        self.index < self.args.len()
    }

    pub fn request(&self) -> (request: Request)
        ensures
            request@ == self@.request(),
    {
        proof {
            use_type_invariant(self);
        }
        Request::ReadFile(join_path(self.cwd.as_str(), self.args[self.index].as_str()))
    }
}

/// Starts `cat` in `current_dir` with the arguments `args`.
pub fn cat(current_dir: &str, args: &[&str]) -> (step: Step)
    ensures
        step@ == cat_start(current_dir@, views(args@)),
{
    if args.len() == 0 {
        return Step::invalid("no file specified".to_owned());
    }
    Step::ask(Pending::Cat(CatState { cwd: current_dir.to_owned(), args: owned(args), index: 0 }))
}

/// Goes on with `cat` after the host's reply.
pub fn cat_resume(state: CatState, reply: Reply) -> (step: Step)
    requires
        state@.request().accepts(reply@),
    ensures
        step@ == state@.resume(reply@),
{
    proof {
        use_type_invariant(&state);
    }
    match reply {
        Reply::Text(text) => {
            if state.index + 1 < state.args.len() {
                Step {
                    output: text,
                    next: Next::Ask(Pending::Cat(CatState { index: state.index + 1, ..state })),
                }
            } else {
                let mut output = text;
                output.append("\n");
                Step::print(output)
            }
        },
        _ => {
            let mut message = String::from_str("cat: ");
            message.append(state.args[state.index].as_str());
            message.append(": no such file or directory");
            Step::invalid(message)
        },
    }
}

} // verus!
