//! `ls`: list a directory.

use crate::commands::listing::{
    lemma_listing_shows_the_rest, listed, listing_text, render_listing, Flags,
};
use crate::host::{DirEntry, DirEntryView, FileMeta, Reply, ReplyView, Request, RequestView};
use crate::machine::{Pending, PendingView, Step, StepView};
use crate::utils::error::{ShellError, ShellErrorView};
use crate::utils::path::{join, join_path};
use crate::utils::text::{owned, str_eq, views};
use vstd::pervasive::unreached;
use vstd::prelude::*;
use vstd::string::{StrSliceExecFns, StringExecFns};

verus! {

/// What `ls` waits for.
#[derive(Clone, Copy, Debug, PartialEq, Eq, Structural)]
pub enum LsStage {
    /// Whether an argument names a directory.
    CheckTarget,
    /// The entries of the directory.
    ReadEntries,
    /// The directory above, for the entry `..`.
    StatParent,
    /// The directory itself, for the entry `.`.
    StatSelf,
    /// The text of the user database.
    ReadUsers,
    /// The text of the group database.
    ReadGroups,
}

/// `ls` while it waits for the host.
#[derive(Debug, PartialEq, Eq)]
pub struct LsState {
    stage: LsStage,
    cwd: String,
    args: Vec<String>,
    index: usize,
    flags: Flags,
    target: String,
    entries: Vec<DirEntry>,
    passwd: String,
}

/// The mathematical value of a [`LsState`].
pub struct LsStateView {
    pub stage: LsStage,
    /// The shell's current directory.
    pub cwd: Seq<char>,
    pub args: Seq<Seq<char>>,
    /// The argument that is being checked, or the number of arguments once
    /// all are read.
    pub index: int,
    /// The flags read so far.
    pub flags: Flags,
    /// The directory to list, as far as the arguments read so far say.
    pub target: Seq<char>,
    /// The entries to list, once they are known.
    pub entries: Seq<DirEntryView>,
    /// The text of the user database, once it is known.
    pub passwd: Seq<char>,
}

impl View for LsState {
    type V = LsStateView;

    closed spec fn view(&self) -> LsStateView {
        LsStateView {
            stage: self.stage,
            cwd: self.cwd@,
            args: views(self.args@),
            index: self.index as int,
            flags: self.flags,
            target: self.target@,
            entries: views(self.entries@),
            passwd: self.passwd@,
        }
    }
}

/// The entry that stands for a directory under the name `name`.
pub open spec fn synthetic(name: Seq<char>, meta: FileMeta) -> DirEntryView {
    DirEntryView { name, meta, link: None }
}

/// `ls` once it knows what to list.
pub open spec fn ls_read(
    cwd: Seq<char>,
    args: Seq<Seq<char>>,
    flags: Flags,
    target: Seq<char>,
) -> StepView {
    StepView::ask(
        PendingView::Ls(
            LsStateView {
                stage: LsStage::ReadEntries,
                cwd,
                args,
                index: args.len() as int,
                flags,
                target,
                entries: Seq::<DirEntryView>::empty(),
                passwd: Seq::<char>::empty(),
            },
        ),
    )
}

/// `ls` from its argument number `index` on. `-a`, `-l` and `-F` set a flag
/// each; any other argument that starts with a dash ends the command; any
/// other argument at all names the directory to list, and the host is asked
/// whether it is one.
pub open spec fn ls_scan(
    cwd: Seq<char>,
    args: Seq<Seq<char>>,
    index: int,
    flags: Flags,
    target: Seq<char>,
) -> StepView
    decreases args.len() - index,
{
    if index >= args.len() {
        ls_read(cwd, args, flags, target)
    } else {
        let arg = args[index];
        if arg == "-a"@ {
            ls_scan(cwd, args, index + 1, Flags { all: true, ..flags }, target)
        } else if arg == "-l"@ {
            ls_scan(cwd, args, index + 1, Flags { long: true, ..flags }, target)
        } else if arg == "-F"@ {
            ls_scan(cwd, args, index + 1, Flags { classify: true, ..flags }, target)
        } else if arg.len() > 0 && arg[0] == '-' {
            StepView::invalid("invalid flag"@)
        } else {
            StepView::ask(
                PendingView::Ls(
                    LsStateView {
                        stage: LsStage::CheckTarget,
                        cwd,
                        args,
                        index,
                        flags,
                        target,
                        entries: Seq::<DirEntryView>::empty(),
                        passwd: Seq::<char>::empty(),
                    },
                ),
            )
        }
    }
}

/// The first step of `ls`: it lists the current directory unless an
/// argument names another.
pub open spec fn ls_start(cwd: Seq<char>, args: Seq<Seq<char>>) -> StepView {
    ls_scan(cwd, args, 0, Flags { all: false, long: false, classify: false }, cwd)
}

impl LsStateView {
    pub open spec fn request(self) -> RequestView {
        match self.stage {
            LsStage::CheckTarget => RequestView::Metadata(join(self.cwd, self.args[self.index])),
            LsStage::ReadEntries => RequestView::ListDir(self.target),
            LsStage::StatParent => RequestView::Metadata(join(self.target, ".."@)),
            LsStage::StatSelf => RequestView::Metadata(self.target),
            LsStage::ReadUsers => RequestView::ReadFile("/etc/passwd"@),
            LsStage::ReadGroups => RequestView::ReadFile("/etc/group"@),
        }
    }

    /// `ls` once its entries are complete: a long listing needs the two
    /// databases first, a short one is printed at once.
    pub open spec fn list(self) -> StepView {
        if self.flags.long {
            StepView::ask(PendingView::Ls(LsStateView { stage: LsStage::ReadUsers, ..self }))
        } else {
            StepView::print(
                listing_text(self.entries, self.flags, Seq::<char>::empty(), Seq::<char>::empty()),
            )
        }
    }

    /// The step after the host's reply.
    ///
    /// An argument that is no directory ends the command. A directory that
    /// cannot be read, or looked up for `.` and `..`, ends it with the host's
    /// error. With `-a` the entries `.` and `..` are put first, in that
    /// order. A database that cannot be read counts as empty.
    pub open spec fn resume(self, reply: ReplyView) -> StepView {
        match self.stage {
            LsStage::CheckTarget => if reply.is_dir() {
                ls_scan(
                    self.cwd,
                    self.args,
                    self.index + 1,
                    self.flags,
                    join(self.cwd, self.args[self.index]),
                )
            } else {
                StepView::invalid(
                    "ls: cannot access '"@ + self.args[self.index]
                        + "': no such file or directory"@,
                )
            },
            LsStage::ReadEntries => match reply {
                ReplyView::Entries(entries) => {
                    let state = LsStateView { entries, ..self };
                    if self.flags.all {
                        StepView::ask(
                            PendingView::Ls(LsStateView { stage: LsStage::StatParent, ..state }),
                        )
                    } else {
                        state.list()
                    }
                },
                ReplyView::Failed(e) => StepView::fail(ShellErrorView::IoError(e)),
                _ => arbitrary(),
            },
            LsStage::StatParent => match reply {
                ReplyView::Meta(meta) => StepView::ask(
                    PendingView::Ls(
                        LsStateView {
                            stage: LsStage::StatSelf,
                            entries: seq![synthetic(".."@, meta)] + self.entries,
                            ..self
                        },
                    ),
                ),
                ReplyView::Failed(e) => StepView::fail(ShellErrorView::IoError(e)),
                _ => arbitrary(),
            },
            LsStage::StatSelf => match reply {
                ReplyView::Meta(meta) => (LsStateView {
                    entries: seq![synthetic("."@, meta)] + self.entries,
                    ..self
                }).list(),
                ReplyView::Failed(e) => StepView::fail(ShellErrorView::IoError(e)),
                _ => arbitrary(),
            },
            LsStage::ReadUsers => StepView::ask(
                PendingView::Ls(
                    LsStateView {
                        stage: LsStage::ReadGroups,
                        passwd: match reply {
                            ReplyView::Text(text) => text,
                            _ => Seq::<char>::empty(),
                        },
                        ..self
                    },
                ),
            ),
            LsStage::ReadGroups => StepView::print(
                listing_text(
                    self.entries,
                    self.flags,
                    self.passwd,
                    match reply {
                        ReplyView::Text(text) => text,
                        _ => Seq::<char>::empty(),
                    },
                ),
            ),
        }
    }
}

impl LsState {
    #[verifier::type_invariant]
    spec fn inv(self) -> bool {
        self.stage == LsStage::CheckTarget ==> self.index < self.args.len()
    }

    pub fn request(&self) -> (request: Request)
        ensures
            request@ == self@.request(),
    {
        proof {
            use_type_invariant(self);
        }
        match self.stage {
            LsStage::CheckTarget => Request::Metadata(
                join_path(self.cwd.as_str(), self.args[self.index].as_str()),
            ),
            LsStage::ReadEntries => Request::ListDir(self.target.clone()),
            LsStage::StatParent => Request::Metadata(join_path(self.target.as_str(), "..")),
            LsStage::StatSelf => Request::Metadata(self.target.clone()),
            LsStage::ReadUsers => Request::ReadFile("/etc/passwd".to_owned()),
            LsStage::ReadGroups => Request::ReadFile("/etc/group".to_owned()),
        }
    }

    fn list(self) -> (step: Step)
        ensures
            step@ == self@.list(),
    {
        proof {
            use_type_invariant(&self);
        }
        if self.flags.long {
            Step::ask(Pending::Ls(LsState { stage: LsStage::ReadUsers, ..self }))
        } else {
            let empty = String::new();
            Step::print(render_listing(&self.entries, self.flags, empty.as_str(), empty.as_str()))
        }
    }
}

fn ls_scan_from(
    cwd: String,
    args: Vec<String>,
    index: usize,
    flags: Flags,
    target: String,
) -> (step: Step)
    requires
        index <= args.len(),
    ensures
        step@ == ls_scan(cwd@, views(args@), index as int, flags, target@),
{
    let mut i: usize = index;
    let mut seen: Flags = flags;
    let entries: Vec<DirEntry> = Vec::new();
    while i < args.len()
        invariant
            index <= i <= args.len(),
            views(entries@) == Seq::<DirEntryView>::empty(),
            ls_scan(cwd@, views(args@), index as int, flags, target@) == ls_scan(
                cwd@,
                views(args@),
                i as int,
                seen,
                target@,
            ),
        decreases args.len() - i,
    {
        let arg = args[i].as_str();
        if str_eq(arg, "-a") {
            seen = Flags { all: true, ..seen };
        } else if str_eq(arg, "-l") {
            seen = Flags { long: true, ..seen };
        } else if str_eq(arg, "-F") {
            seen = Flags { classify: true, ..seen };
        } else if !arg.is_empty() && arg.get_char(0) == '-' {
            return Step::invalid("invalid flag".to_owned());
        } else {
            return Step::ask(
                Pending::Ls(
                    LsState {
                        stage: LsStage::CheckTarget,
                        cwd,
                        args,
                        index: i,
                        flags: seen,
                        target,
                        entries,
                        passwd: String::new(),
                    },
                ),
            );
        }
        i += 1;
    }
    let count = args.len();
    Step::ask(
        Pending::Ls(
            LsState {
                stage: LsStage::ReadEntries,
                cwd,
                args,
                index: count,
                flags: seen,
                target,
                entries,
                passwd: String::new(),
            },
        ),
    )
}

/// Starts `ls` in `base_dir` with the arguments `args`.
pub fn ls(base_dir: &str, args: &[&str]) -> (step: Step)
    ensures
        step@ == ls_start(base_dir@, views(args@)),
{
    ls_scan_from(
        base_dir.to_owned(),
        owned(args),
        0,
        Flags { all: false, long: false, classify: false },
        base_dir.to_owned(),
    )
}

fn synthetic_entry(name: &str, meta: FileMeta) -> (entry: DirEntry)
    ensures
        entry@ == synthetic(name@, meta),
{
    DirEntry { name: name.to_owned(), meta, link: None }
}

/// Goes on with `ls` after the host's reply.
pub fn ls_resume(state: LsState, reply: Reply) -> (step: Step)
    requires
        state@.request().accepts(reply@),
    ensures
        step@ == state@.resume(reply@),
{
    proof {
        use_type_invariant(&state);
    }
    match state.stage {
        LsStage::CheckTarget => {
            if reply.is_dir() {
                let target = join_path(state.cwd.as_str(), state.args[state.index].as_str());
                ls_scan_from(state.cwd, state.args, state.index + 1, state.flags, target)
            } else {
                let mut message = String::from_str("ls: cannot access '");
                message.append(state.args[state.index].as_str());
                message.append("': no such file or directory");
                Step::invalid(message)
            }
        },
        LsStage::ReadEntries => match reply {
            Reply::Entries(entries) => {
                let all = state.flags.all;
                let state = LsState { entries, ..state };
                if all {
                    Step::ask(Pending::Ls(LsState { stage: LsStage::StatParent, ..state }))
                } else {
                    state.list()
                }
            },
            Reply::Failed(e) => Step::fail(ShellError::IoError(e)),
            _ => unreached(),
        },
        LsStage::StatParent => match reply {
            Reply::Meta(meta) => {
                let mut entries = state.entries;
                let ghost before = views(entries@);
                entries.insert(0, synthetic_entry("..", meta));
                assert(views(entries@) =~= seq![synthetic(".."@, meta)] + before);
                Step::ask(Pending::Ls(LsState { stage: LsStage::StatSelf, entries, ..state }))
            },
            Reply::Failed(e) => Step::fail(ShellError::IoError(e)),
            _ => unreached(),
        },
        LsStage::StatSelf => match reply {
            Reply::Meta(meta) => {
                let mut entries = state.entries;
                let ghost before = views(entries@);
                entries.insert(0, synthetic_entry(".", meta));
                assert(views(entries@) =~= seq![synthetic("."@, meta)] + before);
                (LsState { entries, ..state }).list()
            },
            Reply::Failed(e) => Step::fail(ShellError::IoError(e)),
            _ => unreached(),
        },
        LsStage::ReadUsers => {
            let passwd = match reply {
                Reply::Text(text) => text,
                _ => String::new(),
            };
            Step::ask(Pending::Ls(LsState { stage: LsStage::ReadGroups, passwd, ..state }))
        },
        LsStage::ReadGroups => {
            let group = match reply {
                Reply::Text(text) => text,
                _ => String::new(),
            };
            Step::print(
                render_listing(&state.entries, state.flags, state.passwd.as_str(), group.as_str()),
            )
        },
    }
}

/// What `-a` adds to a listing.
///
/// With `-a`, once the entries of the directory are read, `ls` looks up the
/// directory above and the directory itself and puts `.` and `..` in front
/// of the entries, in that order. Both go through the same sort as the
/// others, and the listing shows them with every other entry, dot names
/// included.
pub proof fn lemma_ls_all(state: LsStateView, parent: FileMeta, this: FileMeta)
    requires
        state.stage == LsStage::StatParent,
        state.flags.all,
    ensures
        ({
            let waiting = LsStateView {
                stage: LsStage::StatSelf,
                entries: seq![synthetic(".."@, parent)] + state.entries,
                ..state
            };
            let all = seq![synthetic("."@, this), synthetic(".."@, parent)] + state.entries;
            &&& state.request() == RequestView::Metadata(join(state.target, ".."@))
            &&& state.resume(ReplyView::Meta(parent)) == StepView::ask(PendingView::Ls(waiting))
            &&& waiting.request() == RequestView::Metadata(state.target)
            &&& waiting.resume(ReplyView::Meta(this)) == (LsStateView {
                entries: all,
                ..waiting
            }).list()
            &&& listed(all, true).contains(synthetic("."@, this))
            &&& listed(all, true).contains(synthetic(".."@, parent))
            &&& listed(all, true).to_multiset() == all.to_multiset()
        }),
{
    let all = seq![synthetic("."@, this), synthetic(".."@, parent)] + state.entries;
    assert(seq![synthetic("."@, this)] + (seq![synthetic(".."@, parent)] + state.entries) =~= all);
    assert(all[0] == synthetic("."@, this));
    assert(all[1] == synthetic(".."@, parent));
    lemma_listing_shows_the_rest(all, true);
}

} // verus!
