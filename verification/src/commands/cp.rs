//! `cp`: copy a file, or a directory with all it holds.

use crate::commands::copy_dir::{CopyStage, CopyStateView, FrameView};
use crate::commands::transfer::{
    transfer, transfer_start, TransferStage, TransferStateView, Verb,
};
use crate::host::{ReplyView, RequestView};
use crate::machine::{NextView, PendingView, Step, StepView};
use crate::utils::path::{file_name, join, lemma_last_slash, trim_end};
use crate::utils::text::views;
use vstd::prelude::*;

verus! {

/// The first step of `cp`.
pub open spec fn cp_start(cwd: Seq<char>, args: Seq<Seq<char>>) -> StepView {
    transfer_start(Verb::Copy, cwd, args)
}

/// Starts `cp` in `current_dir` with the arguments `args`: the source and
/// the destination.
pub fn cp(current_dir: &str, args: &[&str]) -> (step: Step)
    ensures
        step@ == cp_start(current_dir@, views(args@)),
{
    transfer(Verb::Copy, current_dir, args)
}

/// The name of a file is not empty and holds no separator.
pub proof fn lemma_file_name(path: Seq<char>)
    requires
        file_name(path) is Some,
    ensures
        file_name(path)->0.len() > 0,
        forall|i: int| 0 <= i < file_name(path)->0.len() ==> file_name(path)->0[i] != '/',
{
    let trimmed = trim_end(path);
    lemma_last_slash(trimmed);
}

/// Where the destination of `cp` or `mv` is a directory, the result is the
/// entry of that directory that has the name of the source, never the
/// directory itself; a source that has no name ends the command.
pub proof fn lemma_into_directory(state: TransferStateView, reply: ReplyView)
    requires
        state.stage == TransferStage::StatDestination,
        reply.is_dir(),
    ensures
        match file_name(state.source) {
            Some(name) => {
                &&& state.resume(reply).next matches NextView::Ask(PendingView::Transfer(next))
                &&& next.source == state.source
                &&& next.destination == join(state.destination, name)
                &&& next.destination != state.destination
            },
            None => state.resume(reply).next matches NextView::Done(Err(_)),
        },
{
    if file_name(state.source) is Some {
        lemma_file_name(state.source);
    }
}

/// Once the path of the result is settled it stays: whatever the later
/// steps rename, copy or remove is the source, and where they put it is
/// that path.
pub proof fn lemma_paths_stay(state: TransferStateView, reply: ReplyView)
    requires
        state.stage != TransferStage::StatDestination,
    ensures
        state.resume(reply).next matches NextView::Ask(PendingView::Transfer(next)) ==> {
            &&& next.verb == state.verb
            &&& next.source == state.source
            &&& next.destination == state.destination
            &&& next.stage == TransferStage::Rename ==> next.request() == RequestView::Rename(
                state.source,
                state.destination,
            )
            &&& next.stage == TransferStage::CopyFile ==> next.request() == RequestView::CopyFile(
                state.source,
                state.destination,
            )
        },
        state.stage == TransferStage::StatKind && reply.is_dir() ==> {
            &&& state.resume(reply).next matches NextView::Ask(PendingView::Transfer(next))
            &&& next.stage == TransferStage::CopyTree
            &&& next.tree == Some(
                CopyStateView {
                    stage: CopyStage::CheckDestination,
                    src: state.source,
                    dst: state.destination,
                    stack: Seq::<FrameView>::empty(),
                },
            )
        },
{
}

} // verus!
