//! Copying a directory with all it holds.
//!
//! The copy goes through the source depth first. Every directory is created
//! at the destination if it is not there, then listed. A symbolic link is
//! never followed: a link is made at the destination that points where the
//! source link points. Every other entry is copied as a file.

use crate::host::{DirEntry, DirEntryView, Reply, ReplyView, Request, RequestView};
use crate::utils::error::{ErrorKind, IoError, IoErrorView};
use crate::utils::mode::{file_type, file_type_of, FileType};
use crate::utils::path::{join, join_path};
use crate::utils::text::views;
use vstd::pervasive::unreached;
use vstd::prelude::*;
use vstd::string::StringExecFns;

verus! {

/// What the copy waits for.
#[derive(Clone, Copy, Debug, PartialEq, Eq, Structural)]
pub enum CopyStage {
    /// Whether the destination directory exists.
    CheckDestination,
    /// The destination directory to be created.
    CreateDestination,
    /// The entries of the source directory.
    ReadSource,
    /// A file to be copied.
    CopyFile,
    /// A symbolic link to be made.
    MakeLink,
}

/// A directory whose entries are being copied.
#[derive(Debug, PartialEq, Eq)]
pub struct Frame {
    src: String,
    dst: String,
    entries: Vec<DirEntry>,
    index: usize,
}

/// The mathematical value of a [`Frame`].
pub struct FrameView {
    /// The directory that is copied.
    pub src: Seq<char>,
    /// The directory that it is copied to.
    pub dst: Seq<char>,
    pub entries: Seq<DirEntryView>,
    /// The entry that is being copied.
    pub index: int,
}

impl View for Frame {
    type V = FrameView;

    closed spec fn view(&self) -> FrameView {
        FrameView {
            src: self.src@,
            dst: self.dst@,
            entries: views(self.entries@),
            index: self.index as int,
        }
    }
}

/// The copy of a directory while it waits for the host.
#[derive(Debug, PartialEq, Eq)]
pub struct CopyState {
    stage: CopyStage,
    src: String,
    dst: String,
    stack: Vec<Frame>,
}

/// The mathematical value of a [`CopyState`].
pub struct CopyStateView {
    pub stage: CopyStage,
    /// The file or directory that is copied now; for a symbolic link,
    /// where the link points.
    pub src: Seq<char>,
    /// Where it is copied to.
    pub dst: Seq<char>,
    /// The directories above it, outermost first.
    pub stack: Seq<FrameView>,
}

impl View for CopyState {
    type V = CopyStateView;

    closed spec fn view(&self) -> CopyStateView {
        CopyStateView {
            stage: self.stage,
            src: self.src@,
            dst: self.dst@,
            stack: views(self.stack@),
        }
    }
}

/// One step of the copy.
#[derive(Debug, PartialEq, Eq)]
pub enum CopyStep {
    /// The copy has ended, well or with the error of the host.
    Done(Result<(), IoError>),
    /// The host performs the request of the pending copy and resumes it.
    Ask(CopyState),
}

/// The mathematical value of a [`CopyStep`].
pub enum CopyStepView {
    Done(Result<(), IoErrorView>),
    Ask(CopyStateView),
}

impl View for CopyStep {
    type V = CopyStepView;

    open spec fn view(&self) -> CopyStepView {
        match self {
            CopyStep::Done(Ok(())) => CopyStepView::Done(Ok(())),
            CopyStep::Done(Err(e)) => CopyStepView::Done(Err(e@)),
            CopyStep::Ask(state) => CopyStepView::Ask(state@),
        }
    }
}

impl FrameView {
    /// The frame once its current entry is copied.
    pub open spec fn stepped(self) -> FrameView {
        FrameView { index: self.index + 1, ..self }
    }

    pub open spec fn in_progress(self) -> bool {
        0 <= self.index < self.entries.len()
    }
}

/// The copy of the directory `src` to `dst`, below the directories of `stack`.
pub open spec fn enter(src: Seq<char>, dst: Seq<char>, stack: Seq<FrameView>) -> CopyStepView {
    CopyStepView::Ask(CopyStateView { stage: CopyStage::CheckDestination, src, dst, stack })
}

/// The error that ends the copy at a symbolic link of which the host could
/// not say where it points.
pub open spec fn unreadable_link(path: Seq<char>) -> IoErrorView {
    IoErrorView { kind: ErrorKind::Other, message: "cannot read link '"@ + path + "'"@ }
}

/// The copy of the current entry of the innermost directory: a directory is
/// entered; for a symbolic link a link is made that points where the entry
/// points, and the copy ends with an error if that is not known; anything
/// else is copied as a file.
pub open spec fn visit(stack: Seq<FrameView>) -> CopyStepView {
    let top = stack.last();
    let entry = top.entries[top.index];
    let src = join(top.src, entry.name);
    let dst = join(top.dst, entry.name);
    if entry.meta.is_dir() {
        enter(src, dst, stack)
    } else if file_type_of(entry.meta.mode) == FileType::Symlink {
        match entry.link {
            Some(target) => CopyStepView::Ask(
                CopyStateView { stage: CopyStage::MakeLink, src: target, dst, stack },
            ),
            None => CopyStepView::Done(Err(unreadable_link(src))),
        }
    } else {
        CopyStepView::Ask(CopyStateView { stage: CopyStage::CopyFile, src, dst, stack })
    }
}

/// The copy from the current entry of the innermost directory on. A
/// directory whose entries are all copied is left, and the copy goes on
/// behind it in the directory above; when the outermost is left, the copy
/// has ended well.
pub open spec fn advance(stack: Seq<FrameView>) -> CopyStepView
    decreases stack.len(),
{
    if stack.len() == 0 {
        CopyStepView::Done(Ok(()))
    } else if stack.last().index < stack.last().entries.len() {
        visit(stack)
    } else {
        let above = stack.drop_last();
        if above.len() == 0 {
            CopyStepView::Done(Ok(()))
        } else {
            advance(above.drop_last().push(above.last().stepped()))
        }
    }
}

impl CopyStateView {
    pub open spec fn request(self) -> RequestView {
        match self.stage {
            CopyStage::CheckDestination => RequestView::Metadata(self.dst),
            CopyStage::CreateDestination => RequestView::CreateDirAll(self.dst),
            CopyStage::ReadSource => RequestView::ReadDir(self.src),
            CopyStage::CopyFile => RequestView::CopyFile(self.src, self.dst),
            CopyStage::MakeLink => RequestView::Symlink(self.src, self.dst),
        }
    }

    /// The step after the host's reply. Any failure ends the copy with the
    /// host's error.
    pub open spec fn resume(self, reply: ReplyView) -> CopyStepView {
        match self.stage {
            CopyStage::CheckDestination => CopyStepView::Ask(
                CopyStateView {
                    stage: if reply.found() {
                        CopyStage::ReadSource
                    } else {
                        CopyStage::CreateDestination
                    },
                    ..self
                },
            ),
            CopyStage::CreateDestination => match reply {
                ReplyView::Failed(e) => CopyStepView::Done(Err(e)),
                _ => CopyStepView::Ask(CopyStateView { stage: CopyStage::ReadSource, ..self }),
            },
            CopyStage::ReadSource => match reply {
                ReplyView::Entries(entries) => advance(
                    self.stack.push(
                        FrameView { src: self.src, dst: self.dst, entries, index: 0 },
                    ),
                ),
                ReplyView::Failed(e) => CopyStepView::Done(Err(e)),
                _ => arbitrary(),
            },
            CopyStage::CopyFile | CopyStage::MakeLink => match reply {
                ReplyView::Failed(e) => CopyStepView::Done(Err(e)),
                _ => advance(self.stack.drop_last().push(self.stack.last().stepped())),
            },
        }
    }
}

/// The first step of the copy of the directory `src` to `dst`.
pub open spec fn copy_dir_start(src: Seq<char>, dst: Seq<char>) -> CopyStepView {
    enter(src, dst, Seq::<FrameView>::empty())
}

impl Frame {
    spec fn in_progress(self) -> bool {
        self.index < self.entries.len()
    }
}

impl CopyState {
    #[verifier::type_invariant]
    spec fn inv(self) -> bool {
        &&& forall|i: int| 0 <= i < self.stack.len() ==> (#[trigger] self.stack[i]).in_progress()
        &&& self.stage == CopyStage::CopyFile || self.stage == CopyStage::MakeLink
            ==> self.stack.len() > 0
    }

    pub fn request(&self) -> (request: Request)
        ensures
            request@ == self@.request(),
    {
        match self.stage {
            CopyStage::CheckDestination => Request::Metadata(self.dst.clone()),
            CopyStage::CreateDestination => Request::CreateDirAll(self.dst.clone()),
            CopyStage::ReadSource => Request::ReadDir(self.src.clone()),
            CopyStage::CopyFile => Request::CopyFile(self.src.clone(), self.dst.clone()),
            CopyStage::MakeLink => Request::Symlink(self.src.clone(), self.dst.clone()),
        }
    }
}

fn enter_dir(src: String, dst: String, stack: Vec<Frame>) -> (step: CopyStep)
    requires
        forall|i: int| 0 <= i < stack.len() ==> (#[trigger] stack[i]).in_progress(),
    ensures
        step@ == enter(src@, dst@, views(stack@)),
{
    CopyStep::Ask(CopyState { stage: CopyStage::CheckDestination, src, dst, stack })
}

fn advance_from(start: Vec<Frame>) -> (step: CopyStep)
    requires
        forall|i: int| 0 <= i < start.len() - 1 ==> (#[trigger] start[i]).in_progress(),
    ensures
        step@ == advance(views(start@)),
{
    let mut stack = start;
    loop
        invariant
            forall|i: int| 0 <= i < stack.len() - 1 ==> (#[trigger] stack[i]).in_progress(),
            advance(views(start@)) == advance(views(stack@)),
        decreases stack.len(),
    {
        let depth = stack.len();
        if depth == 0 {
            return CopyStep::Done(Ok(()));
        }
        let ghost frames = views(stack@);
        let top = &stack[depth - 1];
        if top.index < top.entries.len() {
            let entry = &top.entries[top.index];
            let src = join_path(top.src.as_str(), entry.name.as_str());
            let dst = join_path(top.dst.as_str(), entry.name.as_str());
            if entry.meta.is_dir() {
                return enter_dir(src, dst, stack);
            } else if file_type(entry.meta.mode) == FileType::Symlink {
                match &entry.link {
                    Some(target) => {
                        let target = target.clone();
                        return CopyStep::Ask(
                            CopyState { stage: CopyStage::MakeLink, src: target, dst, stack },
                        );
                    },
                    None => {
                        let mut message = String::from_str("cannot read link '");
                        message.append(src.as_str());
                        message.append("'");
                        return CopyStep::Done(Err(IoError::new(ErrorKind::Other, message)));
                    },
                }
            } else {
                return CopyStep::Ask(CopyState { stage: CopyStage::CopyFile, src, dst, stack });
            }
        }
        stack.pop();
        match stack.pop() {
            None => {
                return CopyStep::Done(Ok(()));
            },
            Some(above) => {
                let ghost rest = views(stack@);
                assert(rest =~= frames.drop_last().drop_last());
                let stepped = Frame { index: above.index + 1, ..above };
                stack.push(stepped);
                assert(views(stack@) =~= rest.push(above@.stepped()));
            },
        }
    }
}

/// Starts the copy of the directory `src` to `dst`.
pub fn copy_dir_all(src: &str, dst: &str) -> (step: CopyStep)
    ensures
        step@ == copy_dir_start(src@, dst@),
{
    let stack: Vec<Frame> = Vec::new();
    assert(views(stack@) =~= Seq::<FrameView>::empty());
    enter_dir(src.to_owned(), dst.to_owned(), stack)
}

/// Goes on with the copy after the host's reply.
pub fn copy_dir_resume(state: CopyState, reply: Reply) -> (step: CopyStep)
    requires
        state@.request().accepts(reply@),
    ensures
        step@ == state@.resume(reply@),
{
    proof {
        use_type_invariant(&state);
    }
    match state.stage {
        CopyStage::CheckDestination => {
            let stage = if reply.found() {
                CopyStage::ReadSource
            } else {
                CopyStage::CreateDestination
            };
            CopyStep::Ask(CopyState { stage, ..state })
        },
        CopyStage::CreateDestination => match reply {
            Reply::Failed(e) => CopyStep::Done(Err(e)),
            _ => CopyStep::Ask(CopyState { stage: CopyStage::ReadSource, ..state }),
        },
        CopyStage::ReadSource => match reply {
            Reply::Entries(entries) => {
                let mut stack = state.stack;
                let ghost above = views(stack@);
                let frame = Frame { src: state.src, dst: state.dst, entries, index: 0 };
                let ghost pushed = frame@;
                stack.push(frame);
                assert(views(stack@) =~= above.push(pushed));
                advance_from(stack)
            },
            Reply::Failed(e) => CopyStep::Done(Err(e)),
            _ => unreached(),
        },
        CopyStage::CopyFile | CopyStage::MakeLink => match reply {
            Reply::Failed(e) => CopyStep::Done(Err(e)),
            _ => {
                let mut stack = state.stack;
                let ghost frames = views(stack@);
                match stack.pop() {
                    None => unreached(),
                    Some(top) => {
                        let ghost rest = views(stack@);
                        assert(rest =~= frames.drop_last());
                        let stepped = Frame { index: top.index + 1, ..top };
                        stack.push(stepped);
                        assert(views(stack@) =~= rest.push(top@.stepped()));
                        advance_from(stack)
                    },
                }
            },
        },
    }
}

/// A symbolic link is copied as a link and never followed.
///
/// When the copy comes to an entry that is a symbolic link, it asks for a
/// link at the destination, under the name of the entry, that points where
/// the entry points; it neither lists nor reads what the link leads to. If
/// the host could not say where the entry points, the copy ends with an
/// error.
pub proof fn lemma_link_stays_a_link(stack: Seq<FrameView>)
    requires
        stack.len() > 0,
        stack.last().in_progress(),
        file_type_of(stack.last().entries[stack.last().index].meta.mode) == FileType::Symlink,
    ensures
        ({
            let top = stack.last();
            let entry = top.entries[top.index];
            match entry.link {
                Some(target) => {
                    &&& advance(stack) matches CopyStepView::Ask(next)
                    &&& next.request() == RequestView::Symlink(target, join(top.dst, entry.name))
                    &&& next.stack == stack
                    &&& next.resume(ReplyView::Done) == advance(
                        stack.drop_last().push(top.stepped()),
                    )
                },
                None => advance(stack) == CopyStepView::Done(
                    Err(unreadable_link(join(top.src, entry.name))),
                ),
            }
        }),
{
}

} // verus!
