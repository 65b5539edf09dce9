//! What `cp` and `mv` have in common: both take a source and a destination,
//! put the source into the destination where that is a directory, create
//! the directory that will hold the result, and copy; `mv` tries to rename
//! first and removes the source after a copy.

use crate::commands::copy_dir::{
    copy_dir_all, copy_dir_resume, copy_dir_start, CopyState, CopyStateView, CopyStep,
    CopyStepView,
};
use crate::host::{Reply, ReplyView, Request, RequestView};
use crate::machine::{Pending, PendingView, Step, StepView};
use crate::utils::error::ErrorKind;
use crate::utils::path::{file_name, file_name_of, join, join_path, parent, parent_of};
use crate::utils::text::views;
use vstd::prelude::*;
use vstd::string::StringExecFns;

verus! {

/// Which of the two commands runs.
#[derive(Clone, Copy, Debug, PartialEq, Eq, Structural)]
pub enum Verb {
    Copy,
    Move,
}

/// What the command waits for.
#[derive(Clone, Copy, Debug, PartialEq, Eq, Structural)]
pub enum TransferStage {
    /// Whether the source exists.
    StatSource,
    /// Whether the destination is a directory.
    StatDestination,
    /// Whether the directory that will hold the result exists.
    StatParent,
    /// That directory to be created.
    CreateParent,
    /// The source to be renamed to the destination.
    Rename,
    /// Whether the source is a directory.
    StatKind,
    /// The source to be copied as a file.
    CopyFile,
    /// A step of the copy of the source as a directory.
    CopyTree,
    /// The source to be removed as a file.
    RemoveFile,
    /// The source to be removed as a directory.
    RemoveTree,
}

/// `cp` or `mv` while it waits for the host.
#[derive(Debug, PartialEq, Eq)]
pub struct TransferState {
    verb: Verb,
    stage: TransferStage,
    src_arg: String,
    dst_arg: String,
    source: String,
    destination: String,
    parent: String,
    tree: Option<CopyState>,
}

/// The mathematical value of a [`TransferState`].
pub struct TransferStateView {
    pub verb: Verb,
    pub stage: TransferStage,
    /// The source as the user wrote it.
    pub src_arg: Seq<char>,
    /// The destination as the user wrote it.
    pub dst_arg: Seq<char>,
    /// The path of the source.
    pub source: Seq<char>,
    /// The path of the result.
    pub destination: Seq<char>,
    /// The directory that will hold the result, once it is asked for.
    pub parent: Seq<char>,
    /// The copy of the source as a directory, while it runs.
    pub tree: Option<CopyStateView>,
}

impl View for TransferState {
    type V = TransferStateView;

    closed spec fn view(&self) -> TransferStateView {
        TransferStateView {
            verb: self.verb,
            stage: self.stage,
            src_arg: self.src_arg@,
            dst_arg: self.dst_arg@,
            source: self.source@,
            destination: self.destination@,
            parent: self.parent@,
            tree: match self.tree {
                Some(tree) => Some(tree@),
                None => None,
            },
        }
    }
}

pub open spec fn needs_two(verb: Verb) -> Seq<char> {
    match verb {
        Verb::Copy => "cp: requires source and destination"@,
        Verb::Move => "mv: requires source and destination"@,
    }
}

pub open spec fn cannot_stat(verb: Verb, source: Seq<char>) -> Seq<char> {
    (match verb {
        Verb::Copy => "cp: cannot stat '"@,
        Verb::Move => "mv: cannot stat '"@,
    }) + source + "': no such file or directory"@
}

pub open spec fn no_file_name(verb: Verb) -> Seq<char> {
    match verb {
        Verb::Copy => "cp: source has no file name"@,
        Verb::Move => "mv: source has no file name"@,
    }
}

pub open spec fn cannot_create_dir(verb: Verb, dir: Seq<char>) -> Seq<char> {
    (match verb {
        Verb::Copy => "cp: cannot create directory '"@,
        Verb::Move => "mv: cannot create directory '"@,
    }) + dir + "'"@
}

pub open spec fn cannot_transfer(verb: Verb, source: Seq<char>, destination: Seq<char>) -> Seq<
    char,
> {
    (match verb {
        Verb::Copy => "cp: cannot copy '"@,
        Verb::Move => "mv: cannot move '"@,
    }) + source + "' to '"@ + destination + "'"@
}

pub open spec fn cannot_remove(source: Seq<char>) -> Seq<char> {
    "mv: cannot remove '"@ + source + "'"@
}

/// The first step of `cp` or `mv`: with other than two arguments it fails;
/// otherwise it asks whether the source exists.
pub open spec fn transfer_start(verb: Verb, cwd: Seq<char>, args: Seq<Seq<char>>) -> StepView {
    if args.len() != 2 {
        StepView::invalid(needs_two(verb))
    } else {
        StepView::ask(
            PendingView::Transfer(
                TransferStateView {
                    verb,
                    stage: TransferStage::StatSource,
                    src_arg: args[0],
                    dst_arg: args[1],
                    source: join(cwd, args[0]),
                    destination: join(cwd, args[1]),
                    parent: Seq::<char>::empty(),
                    tree: None,
                },
            ),
        )
    }
}

impl TransferStateView {
    pub open spec fn request(self) -> RequestView {
        match self.stage {
            TransferStage::StatSource => RequestView::Metadata(self.source),
            TransferStage::StatDestination => RequestView::Metadata(self.destination),
            TransferStage::StatParent => RequestView::Metadata(self.parent),
            TransferStage::CreateParent => RequestView::CreateDirAll(self.parent),
            TransferStage::Rename => RequestView::Rename(self.source, self.destination),
            TransferStage::StatKind => RequestView::Metadata(self.source),
            TransferStage::CopyFile => RequestView::CopyFile(self.source, self.destination),
            TransferStage::CopyTree => self.tree->0.request(),
            TransferStage::RemoveFile => RequestView::RemoveFile(self.source),
            TransferStage::RemoveTree => RequestView::RemoveDirAll(self.source),
        }
    }

    /// The command at another stage.
    pub open spec fn at(self, stage: TransferStage) -> StepView {
        StepView::ask(PendingView::Transfer(TransferStateView { stage, ..self }))
    }

    /// The command once the directory that will hold the result is there:
    /// `cp` looks at the source to copy it, `mv` tries to rename it.
    pub open spec fn transfer(self) -> StepView {
        match self.verb {
            Verb::Copy => self.at(TransferStage::StatKind),
            Verb::Move => self.at(TransferStage::Rename),
        }
    }

    /// The command once the path of the result is settled: the directory
    /// that will hold it is looked up, if the path has one.
    pub open spec fn check_parent(self) -> StepView {
        match parent(self.destination) {
            Some(dir) => (TransferStateView { parent: dir, ..self }).at(TransferStage::StatParent),
            None => self.transfer(),
        }
    }

    /// The command once the source is copied: `cp` has ended, `mv` removes
    /// the source.
    pub open spec fn copied(self, as_tree: bool) -> StepView {
        match self.verb {
            Verb::Copy => StepView::done(),
            Verb::Move => self.at(
                if as_tree {
                    TransferStage::RemoveTree
                } else {
                    TransferStage::RemoveFile
                },
            ),
        }
    }

    /// The end of the command because the source could not be copied.
    pub open spec fn not_copied(self, kind: ErrorKind) -> StepView {
        StepView::fail_io(kind, cannot_transfer(self.verb, self.src_arg, self.dst_arg))
    }

    /// The command after a step of the copy of the source as a directory.
    pub open spec fn after_tree(self, step: CopyStepView) -> StepView {
        match step {
            CopyStepView::Done(Ok(())) => self.copied(true),
            CopyStepView::Done(Err(e)) => self.not_copied(e.kind),
            CopyStepView::Ask(tree) => (TransferStateView { tree: Some(tree), ..self }).at(
                TransferStage::CopyTree,
            ),
        }
    }

    /// The step after the host's reply.
    ///
    /// A source that is not there ends the command. A destination that is a
    /// directory stands for the entry in it that has the name of the source;
    /// a source without a name ends the command. The directory that will
    /// hold the result is created where it is missing. `mv` renames; only
    /// where the host says that source and destination lie on different
    /// devices it copies instead, and removes the source once the copy has
    /// succeeded. A directory is copied with all it holds.
    pub open spec fn resume(self, reply: ReplyView) -> StepView {
        match self.stage {
            TransferStage::StatSource => if reply.found() {
                self.at(TransferStage::StatDestination)
            } else {
                StepView::fail_io(ErrorKind::NotFound, cannot_stat(self.verb, self.src_arg))
            },
            TransferStage::StatDestination => if reply.is_dir() {
                match file_name(self.source) {
                    Some(name) => (TransferStateView {
                        destination: join(self.destination, name),
                        ..self
                    }).check_parent(),
                    None => StepView::fail_io(ErrorKind::InvalidInput, no_file_name(self.verb)),
                }
            } else {
                self.check_parent()
            },
            TransferStage::StatParent => if reply.found() {
                self.transfer()
            } else {
                self.at(TransferStage::CreateParent)
            },
            TransferStage::CreateParent => match reply {
                ReplyView::Failed(e) => StepView::fail_io(
                    e.kind,
                    cannot_create_dir(self.verb, self.parent),
                ),
                _ => self.transfer(),
            },
            TransferStage::Rename => match reply {
                ReplyView::Failed(e) => if e.kind == ErrorKind::CrossDevice {
                    self.at(TransferStage::StatKind)
                } else {
                    self.not_copied(e.kind)
                },
                _ => StepView::done(),
            },
            TransferStage::StatKind => if reply.is_dir() {
                self.after_tree(copy_dir_start(self.source, self.destination))
            } else {
                self.at(TransferStage::CopyFile)
            },
            TransferStage::CopyFile => match reply {
                ReplyView::Failed(e) => self.not_copied(e.kind),
                _ => self.copied(false),
            },
            TransferStage::CopyTree => (TransferStateView { tree: None, ..self }).after_tree(
                self.tree->0.resume(reply),
            ),
            TransferStage::RemoveFile | TransferStage::RemoveTree => match reply {
                ReplyView::Failed(e) => StepView::fail_io(e.kind, cannot_remove(self.src_arg)),
                _ => StepView::done(),
            },
        }
    }
}

fn cannot_transfer_message(verb: Verb, source: &str, destination: &str) -> (message: String)
    ensures
        message@ == cannot_transfer(verb, source@, destination@),
{
    let mut message = String::from_str(
        match verb {
            Verb::Copy => "cp: cannot copy '",
            Verb::Move => "mv: cannot move '",
        },
    );
    message.append(source);
    message.append("' to '");
    message.append(destination);
    message.append("'");
    message
}

impl TransferState {
    #[verifier::type_invariant]
    spec fn inv(self) -> bool {
        self.stage == TransferStage::CopyTree ==> self.tree is Some
    }

    pub fn request(&self) -> (request: Request)
        ensures
            request@ == self@.request(),
    {
        proof {
            use_type_invariant(self);
        }
        match self.stage {
            TransferStage::StatSource => Request::Metadata(self.source.clone()),
            TransferStage::StatDestination => Request::Metadata(self.destination.clone()),
            TransferStage::StatParent => Request::Metadata(self.parent.clone()),
            TransferStage::CreateParent => Request::CreateDirAll(self.parent.clone()),
            TransferStage::Rename => Request::Rename(self.source.clone(), self.destination.clone()),
            TransferStage::StatKind => Request::Metadata(self.source.clone()),
            TransferStage::CopyFile => Request::CopyFile(
                self.source.clone(),
                self.destination.clone(),
            ),
            TransferStage::CopyTree => match &self.tree {
                Some(tree) => tree.request(),
                None => vstd::pervasive::unreached(),
            },
            TransferStage::RemoveFile => Request::RemoveFile(self.source.clone()),
            TransferStage::RemoveTree => Request::RemoveDirAll(self.source.clone()),
        }
    }

    fn at(self, stage: TransferStage) -> (step: Step)
        requires
            stage != TransferStage::CopyTree,
        ensures
            step@ == self@.at(stage),
    {
        Step::ask(Pending::Transfer(TransferState { stage, ..self }))
    }

    fn transfer(self) -> (step: Step)
        ensures
            step@ == self@.transfer(),
    {
        match self.verb {
            Verb::Copy => self.at(TransferStage::StatKind),
            Verb::Move => self.at(TransferStage::Rename),
        }
    }

    fn check_parent(self) -> (step: Step)
        ensures
            step@ == self@.check_parent(),
    {
        proof {
            use_type_invariant(&self);
        }
        match parent_of(self.destination.as_str()) {
            Some(dir) => (TransferState { parent: dir, ..self }).at(TransferStage::StatParent),
            None => self.transfer(),
        }
    }

    fn copied(self, as_tree: bool) -> (step: Step)
        ensures
            step@ == self@.copied(as_tree),
    {
        match self.verb {
            Verb::Copy => Step::done(),
            Verb::Move => self.at(
                if as_tree {
                    TransferStage::RemoveTree
                } else {
                    TransferStage::RemoveFile
                },
            ),
        }
    }

    fn not_copied(self, kind: ErrorKind) -> (step: Step)
        ensures
            step@ == self@.not_copied(kind),
    {
        Step::fail_io(
            kind,
            cannot_transfer_message(self.verb, self.src_arg.as_str(), self.dst_arg.as_str()),
        )
    }

    fn after_tree(self, step: CopyStep) -> (next: Step)
        ensures
            next@ == self@.after_tree(step@),
    {
        match step {
            CopyStep::Done(Ok(())) => self.copied(true),
            CopyStep::Done(Err(e)) => self.not_copied(e.kind),
            CopyStep::Ask(tree) => Step::ask(
                Pending::Transfer(
                    TransferState { stage: TransferStage::CopyTree, tree: Some(tree), ..self },
                ),
            ),
        }
    }
}

/// Starts `cp` or `mv` in `current_dir` with the arguments `args`.
pub fn transfer(verb: Verb, current_dir: &str, args: &[&str]) -> (step: Step)
    ensures
        step@ == transfer_start(verb, current_dir@, views(args@)),
{
    if args.len() != 2 {
        return Step::invalid(
            match verb {
                Verb::Copy => "cp: requires source and destination",
                Verb::Move => "mv: requires source and destination",
            }.to_owned(),
        );
    }
    Step::ask(
        Pending::Transfer(
            TransferState {
                verb,
                stage: TransferStage::StatSource,
                src_arg: args[0].to_owned(),
                dst_arg: args[1].to_owned(),
                source: join_path(current_dir, args[0]),
                destination: join_path(current_dir, args[1]),
                parent: String::new(),
                tree: None,
            },
        ),
    )
}

/// Goes on with `cp` or `mv` after the host's reply.
pub fn transfer_resume(state: TransferState, reply: Reply) -> (step: Step)
    requires
        state@.request().accepts(reply@),
    ensures
        step@ == state@.resume(reply@),
{
    proof {
        use_type_invariant(&state);
    }
    match state.stage {
        TransferStage::StatSource => {
            if reply.found() {
                state.at(TransferStage::StatDestination)
            } else {
                let mut message = String::from_str(
                    match state.verb {
                        Verb::Copy => "cp: cannot stat '",
                        Verb::Move => "mv: cannot stat '",
                    },
                );
                message.append(state.src_arg.as_str());
                message.append("': no such file or directory");
                Step::fail_io(ErrorKind::NotFound, message)
            }
        },
        TransferStage::StatDestination => {
            if reply.is_dir() {
                match file_name_of(state.source.as_str()) {
                    Some(name) => {
                        let destination = join_path(state.destination.as_str(), name.as_str());
                        (TransferState { destination, ..state }).check_parent()
                    },
                    None => Step::fail_io(
                        ErrorKind::InvalidInput,
                        match state.verb {
                            Verb::Copy => "cp: source has no file name",
                            Verb::Move => "mv: source has no file name",
                        }.to_owned(),
                    ),
                }
            } else {
                state.check_parent()
            }
        },
        TransferStage::StatParent => {
            if reply.found() {
                state.transfer()
            } else {
                state.at(TransferStage::CreateParent)
            }
        },
        TransferStage::CreateParent => match reply {
            Reply::Failed(e) => {
                let mut message = String::from_str(
                    match state.verb {
                        Verb::Copy => "cp: cannot create directory '",
                        Verb::Move => "mv: cannot create directory '",
                    },
                );
                message.append(state.parent.as_str());
                message.append("'");
                Step::fail_io(e.kind, message)
            },
            _ => state.transfer(),
        },
        TransferStage::Rename => match reply {
            Reply::Failed(e) => {
                if e.kind == ErrorKind::CrossDevice {
                    state.at(TransferStage::StatKind)
                } else {
                    state.not_copied(e.kind)
                }
            },
            _ => Step::done(),
        },
        TransferStage::StatKind => {
            if reply.is_dir() {
                let step = copy_dir_all(state.source.as_str(), state.destination.as_str());
                state.after_tree(step)
            } else {
                state.at(TransferStage::CopyFile)
            }
        },
        TransferStage::CopyFile => match reply {
            Reply::Failed(e) => state.not_copied(e.kind),
            _ => state.copied(false),
        },
        TransferStage::CopyTree => {
            let TransferState { verb, stage, src_arg, dst_arg, source, destination, parent, tree } =
                state;
            match tree {
                Some(tree) => {
                    let step = copy_dir_resume(tree, reply);
                    (TransferState {
                        verb,
                        stage: TransferStage::StatKind,
                        src_arg,
                        dst_arg,
                        source,
                        destination,
                        parent,
                        tree: None,
                    }).after_tree(step)
                },
                None => vstd::pervasive::unreached(),
            }
        },
        TransferStage::RemoveFile | TransferStage::RemoveTree => match reply {
            Reply::Failed(e) => {
                let mut message = String::from_str("mv: cannot remove '");
                message.append(state.src_arg.as_str());
                message.append("'");
                Step::fail_io(e.kind, message)
            },
            _ => Step::done(),
        },
    }
}

} // verus!
