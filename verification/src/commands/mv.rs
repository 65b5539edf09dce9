//! `mv`: rename a file or a directory, or copy and remove it where it
//! cannot be renamed across devices.

use crate::commands::copy_dir::CopyStepView;
use crate::commands::transfer::{
    cannot_remove, transfer, transfer_start, TransferStage, TransferStateView, Verb,
};
use crate::host::{FileMeta, ReplyView, RequestView};
use crate::machine::{NextView, PendingView, Step, StepView};
use crate::utils::error::{ErrorKind, IoErrorView};
use crate::utils::text::views;
use vstd::prelude::*;

verus! {

/// The first step of `mv`.
pub open spec fn mv_start(cwd: Seq<char>, args: Seq<Seq<char>>) -> StepView {
    transfer_start(Verb::Move, cwd, args)
}

/// Starts `mv` in `current_dir` with the arguments `args`: the source and
/// the destination.
pub fn mv(current_dir: &str, args: &[&str]) -> (step: Step)
    ensures
        step@ == mv_start(current_dir@, views(args@)),
{
    transfer(Verb::Move, current_dir, args)
}

/// How `mv` moves across devices.
///
/// A rename that fails because source and destination lie on different
/// devices is followed by a copy of the source to the destination; any
/// other failure of the rename ends the command. The source is removed
/// only after its copy has succeeded, and a failed copy ends the command
/// with the source in place. After the removal the command has ended: well
/// if the source is gone, and otherwise with an error of its own, without
/// another operation, so that the copy stays as it is.
pub proof fn lemma_move_across_devices(state: TransferStateView, reply: ReplyView)
    requires
        state.verb == Verb::Move,
    ensures
        state.stage == TransferStage::Rename ==> (match reply {
            ReplyView::Failed(e) => if e.kind == ErrorKind::CrossDevice {
                state.resume(reply) == state.at(TransferStage::StatKind)
            } else {
                state.resume(reply).next matches NextView::Done(Err(_))
            },
            _ => state.resume(reply) == StepView::done(),
        }),
        state.stage == TransferStage::StatKind && !reply.is_dir() ==> state.resume(reply)
            == state.at(TransferStage::CopyFile),
        state.stage == TransferStage::CopyFile ==> (match reply {
            ReplyView::Failed(e) => state.resume(reply).next matches NextView::Done(Err(_)),
            _ => {
                &&& state.resume(reply).next matches NextView::Ask(PendingView::Transfer(next))
                &&& next.request() == RequestView::RemoveFile(state.source)
            },
        }),
        state.stage == TransferStage::CopyTree ==> (match state.tree->0.resume(reply) {
            CopyStepView::Done(Ok(())) => {
                &&& state.resume(reply).next matches NextView::Ask(PendingView::Transfer(next))
                &&& next.request() == RequestView::RemoveDirAll(state.source)
            },
            CopyStepView::Done(Err(_)) => state.resume(reply).next matches NextView::Done(Err(_)),
            CopyStepView::Ask(_) => {
                &&& state.resume(reply).next matches NextView::Ask(PendingView::Transfer(next))
                &&& next.stage == TransferStage::CopyTree
            },
        }),
        state.resume(reply).next matches NextView::Ask(PendingView::Transfer(next)) && next.stage
            == TransferStage::RemoveFile ==> state.stage == TransferStage::CopyFile
            && !(reply is Failed),
        state.resume(reply).next matches NextView::Ask(PendingView::Transfer(next)) && next.stage
            == TransferStage::RemoveTree ==> state.stage == TransferStage::CopyTree
            && state.tree->0.resume(reply) matches CopyStepView::Done(Ok(_)),
        state.stage == TransferStage::RemoveFile || state.stage == TransferStage::RemoveTree
            ==> (match reply {
            ReplyView::Failed(e) => state.resume(reply) == StepView::fail_io(
                e.kind,
                cannot_remove(state.src_arg),
            ),
            _ => state.resume(reply) == StepView::done(),
        }),
{
}

/// The contents of the files of a host, by path.
pub type Files = Map<Seq<char>, Seq<char>>;

/// The files after a host has answered `request` with `reply`, for a host
/// that has done what it reports: after a failure the files are as they
/// were; after a copy the destination holds what the source holds; after a
/// removal the file is gone. Other operations are left out of account.
pub open spec fn files_after(files: Files, request: RequestView, reply: ReplyView) -> Files {
    if reply is Failed {
        files
    } else {
        match request {
            RequestView::CopyFile(from, to) => files.insert(to, files[from]),
            RequestView::RemoveFile(path) => files.remove(path),
            _ => files,
        }
    }
}

/// A file moved across devices is not lost.
///
/// When the rename of a file has failed because of the devices, `mv` looks
/// at the source, copies it and removes it. With a host that has done what
/// it reports, a copy and a removal that succeed leave the contents of the
/// source at the destination and no source; a removal that fails leaves
/// them at both, and the command ends with an error; a copy that fails
/// leaves the source as it was.
pub proof fn lemma_move_file_across_devices(
    state: TransferStateView,
    files: Files,
    e: IoErrorView,
    meta: FileMeta,
    copy: ReplyView,
    removal: ReplyView,
)
    requires
        state.verb == Verb::Move,
        state.stage == TransferStage::Rename,
        state.source != state.destination,
        files.contains_key(state.source),
        e.kind == ErrorKind::CrossDevice,
        !meta.is_dir_spec(),
    ensures
        ({
            let looking = TransferStateView { stage: TransferStage::StatKind, ..state };
            let copying = TransferStateView { stage: TransferStage::CopyFile, ..state };
            let removing = TransferStateView { stage: TransferStage::RemoveFile, ..state };
            let copied = files_after(files, copying.request(), copy);
            let removed = files_after(copied, removing.request(), removal);
            &&& state.resume(ReplyView::Failed(e)) == StepView::ask(PendingView::Transfer(looking))
            &&& looking.resume(ReplyView::Meta(meta)) == StepView::ask(
                PendingView::Transfer(copying),
            )
            &&& copying.request() == RequestView::CopyFile(state.source, state.destination)
            &&& if copy is Failed {
                &&& copying.resume(copy).next matches NextView::Done(Err(_))
                &&& copied == files
            } else {
                &&& copying.resume(copy) == StepView::ask(PendingView::Transfer(removing))
                &&& removing.request() == RequestView::RemoveFile(state.source)
                &&& removed[state.destination] == files[state.source]
                &&& if removal is Failed {
                    &&& removing.resume(removal).next matches NextView::Done(Err(_))
                    &&& removed[state.source] == files[state.source]
                } else {
                    &&& removing.resume(removal) == StepView::done()
                    &&& !removed.contains_key(state.source)
                    &&& removed.contains_key(state.destination)
                }
            }
        }),
{
}

} // verus!
