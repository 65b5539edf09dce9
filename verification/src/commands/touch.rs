//! `touch`: create files, or mark existing ones as modified.

use crate::host::{Reply, ReplyView, Request, RequestView};
use crate::machine::{Pending, PendingView, Step, StepView};
use crate::utils::path::{join, join_path};
use crate::utils::text::{owned, views};
use vstd::prelude::*;
use vstd::string::StringExecFns;

verus! {

/// What `touch` waits for.
#[derive(Clone, Copy, Debug, PartialEq, Eq, Structural)]
pub enum TouchStage {
    /// Whether the file exists.
    Check,
    /// The existing file to be opened for writing.
    Update,
    /// The missing file to be created.
    Create,
}

/// `touch` while it waits for the host.
#[derive(Debug, PartialEq, Eq)]
pub struct TouchState {
    stage: TouchStage,
    cwd: String,
    args: Vec<String>,
    index: usize,
}

/// The mathematical value of a [`TouchState`].
pub struct TouchStateView {
    pub stage: TouchStage,
    /// The shell's current directory.
    pub cwd: Seq<char>,
    /// The files to touch.
    pub args: Seq<Seq<char>>,
    /// Which of them is being touched.
    pub index: int,
}

impl View for TouchState {
    type V = TouchStateView;

    closed spec fn view(&self) -> TouchStateView {
        TouchStateView {
            stage: self.stage,
            cwd: self.cwd@,
            args: views(self.args@),
            index: self.index as int,
        }
    }
}

/// `touch` from its argument number `index` on.
pub open spec fn touch_from(cwd: Seq<char>, args: Seq<Seq<char>>, index: int) -> StepView {
    if index < args.len() {
        StepView::ask(
            PendingView::Touch(TouchStateView { stage: TouchStage::Check, cwd, args, index }),
        )
    } else {
        StepView::done()
    }
}

/// The first step of `touch`: without arguments it fails; otherwise it
/// looks up its first file.
pub open spec fn touch_start(cwd: Seq<char>, args: Seq<Seq<char>>) -> StepView {
    if args.len() == 0 {
        StepView::invalid("touch: no file specified"@)
    } else {
        touch_from(cwd, args, 0)
    }
}

impl TouchStateView {
    pub open spec fn path(self) -> Seq<char> {
        join(self.cwd, self.args[self.index])
    }

    pub open spec fn request(self) -> RequestView {
        match self.stage {
            TouchStage::Check => RequestView::Metadata(self.path()),
            TouchStage::Update => RequestView::OpenForWrite(self.path()),
            TouchStage::Create => RequestView::CreateFile(self.path()),
        }
    }

    /// The step after the host's reply: a file that exists is opened for
    /// writing, one that does not is created; a failure of either ends the
    /// command, and after a success the next file is looked up.
    pub open spec fn resume(self, reply: ReplyView) -> StepView {
        match self.stage {
            TouchStage::Check => StepView::ask(
                PendingView::Touch(
                    TouchStateView {
                        stage: if reply.found() {
                            TouchStage::Update
                        } else {
                            TouchStage::Create
                        },
                        ..self
                    },
                ),
            ),
            TouchStage::Update => match reply {
                ReplyView::Failed(e) => StepView::fail_io(
                    e.kind,
                    "touch: cannot update "@ + self.args[self.index],
                ),
                _ => touch_from(self.cwd, self.args, self.index + 1),
            },
            TouchStage::Create => match reply {
                ReplyView::Failed(e) => StepView::fail_io(
                    e.kind,
                    "touch: cannot create "@ + self.args[self.index],
                ),
                _ => touch_from(self.cwd, self.args, self.index + 1),
            },
        }
    }
}

impl TouchState {
    #[verifier::type_invariant]
    spec fn inv(self) -> bool {
        self.index < self.args.len()
    }

    pub fn request(&self) -> (request: Request)
        ensures
            request@ == self@.request(),
    {
        proof {
            use_type_invariant(self);
        }
        let path = join_path(self.cwd.as_str(), self.args[self.index].as_str());
        match self.stage {
            TouchStage::Check => Request::Metadata(path),
            TouchStage::Update => Request::OpenForWrite(path),
            TouchStage::Create => Request::CreateFile(path),
        }
    }
}

fn touch_at(cwd: String, args: Vec<String>, index: usize) -> (step: Step)
    ensures
        step@ == touch_from(cwd@, views(args@), index as int),
{
    if index < args.len() {
        Step::ask(Pending::Touch(TouchState { stage: TouchStage::Check, cwd, args, index }))
    } else {
        Step::done()
    }
}

/// Starts `touch` in `current_dir` with the arguments `args`.
pub fn touch(current_dir: &str, args: &[&str]) -> (step: Step)
    ensures
        step@ == touch_start(current_dir@, views(args@)),
{
    if args.len() == 0 {
        return Step::invalid("touch: no file specified".to_owned());
    }
    touch_at(current_dir.to_owned(), owned(args), 0)
}

/// Goes on with `touch` after the host's reply.
pub fn touch_resume(state: TouchState, reply: Reply) -> (step: Step)
    requires
        state@.request().accepts(reply@),
    ensures
        step@ == state@.resume(reply@),
{
    proof {
        use_type_invariant(&state);
    }
    match state.stage {
        TouchStage::Check => {
            let stage = if reply.found() {
                TouchStage::Update
            } else {
                TouchStage::Create
            };
            Step::ask(Pending::Touch(TouchState { stage, ..state }))
        },
        TouchStage::Update => match reply {
            Reply::Failed(e) => {
                let mut message = String::from_str("touch: cannot update ");
                message.append(state.args[state.index].as_str());
                Step::fail_io(e.kind, message)
            },
            _ => touch_at(state.cwd, state.args, state.index + 1),
        },
        TouchStage::Create => match reply {
            Reply::Failed(e) => {
                let mut message = String::from_str("touch: cannot create ");
                message.append(state.args[state.index].as_str());
                Step::fail_io(e.kind, message)
            },
            _ => touch_at(state.cwd, state.args, state.index + 1),
        },
    }
}

} // verus!
