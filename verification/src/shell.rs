//! The shell: its current directory, the dispatch of a line to a command,
//! and `cd`, the one command that changes the shell itself.

use crate::commands::cat::{cat, cat_resume, cat_start};
use crate::commands::cp::{cp, cp_start};
use crate::commands::echo::{echo, echo_step, lemma_word_alone};
use crate::commands::exit::{clear, clear_step, exit, exit_step};
use crate::commands::ls::{ls, ls_resume, ls_start};
use crate::commands::mkdir::{mkdir, mkdir_resume, mkdir_start};
use crate::commands::mv::{mv, mv_start};
use crate::commands::pwd::{pwd, pwd_step};
use crate::commands::rm::{rm, rm_resume, rm_start};
use crate::commands::touch::{touch, touch_resume, touch_start};
use crate::commands::transfer::transfer_resume;
use crate::host::{FileMeta, Reply, ReplyView, Request, RequestView};
use crate::machine::{Pending, PendingView, Step, StepView};
use crate::utils::error::{ErrorKind, ShellError, ShellErrorView};
use crate::utils::path::{
    below_root, has_none, is_absolute, is_plain_name, join, join_path,
    lemma_resolved_is_resolved, lemma_resolved_join, lemma_resolved_join_name,
    lemma_root_is_resolved, lemma_split_concat, lemma_split_one, lemma_walk_concat,
    lemma_walk_one, resolve, resolved, resolved_parts, step,
};
use crate::utils::text::{
    chars_of, push_chars, split_whitespace, str_eq, tokens, views,
};
use vstd::prelude::*;
use vstd::string::StringExecFns;

verus! {

/// What `cd` waits for.
#[derive(Clone, Copy, Debug, PartialEq, Eq, Structural)]
pub enum CdStage {
    /// The home directory.
    Home,
    /// Whether the target is a directory.
    Check,
    /// The process to enter the target.
    Enter,
}

/// `cd` while it waits for the host.
#[derive(Debug, PartialEq, Eq)]
pub struct CdState {
    stage: CdStage,
    cwd: String,
    target: String,
}

/// The mathematical value of a [`CdState`].
pub struct CdStateView {
    pub stage: CdStage,
    /// The current directory when the command started.
    pub cwd: Seq<char>,
    /// The directory to enter, once it is known.
    pub target: Seq<char>,
}

impl View for CdState {
    type V = CdStateView;

    closed spec fn view(&self) -> CdStateView {
        CdStateView { stage: self.stage, cwd: self.cwd@, target: self.target@ }
    }
}

/// The first step of `cd`. More than one argument ends it. Without an
/// argument, or with an empty one, it asks for the home directory. Any
/// other argument is the target, seen from the current directory, and the
/// host is asked whether it is a directory.
pub open spec fn cd_start(cwd: Seq<char>, args: Seq<Seq<char>>) -> StepView {
    if args.len() > 1 {
        StepView::invalid("cd: too many arguments"@)
    } else if args.len() == 0 || args[0].len() == 0 {
        StepView::ask(
            PendingView::Cd(
                CdStateView { stage: CdStage::Home, cwd, target: Seq::<char>::empty() },
            ),
        )
    } else {
        StepView::ask(
            PendingView::Cd(
                CdStateView { stage: CdStage::Check, cwd, target: join(cwd, args[0]) },
            ),
        )
    }
}

impl CdStateView {
    pub open spec fn request(self) -> RequestView {
        match self.stage {
            CdStage::Home => RequestView::HomeDir,
            CdStage::Check => RequestView::Metadata(self.target),
            CdStage::Enter => RequestView::SetCurrentDir(self.target),
        }
    }

    /// The step after the host's reply. Without a home directory the
    /// command ends; with one, that is the target, seen from the current
    /// directory. A target that is not there, or is no directory, ends the
    /// command. A directory is entered by the process first; if that fails
    /// the command ends.
    pub open spec fn resume(self, reply: ReplyView) -> StepView {
        match self.stage {
            CdStage::Home => match reply {
                ReplyView::Text(home) => StepView::ask(
                    PendingView::Cd(
                        CdStateView { stage: CdStage::Check, target: join(self.cwd, home), ..self },
                    ),
                ),
                _ => StepView::fail_io(ErrorKind::NotFound, "home directory not found"@),
            },
            CdStage::Check => if reply.is_dir() {
                StepView::ask(PendingView::Cd(CdStateView { stage: CdStage::Enter, ..self }))
            } else if reply.found() {
                StepView::invalid("cd: not a directory"@)
            } else {
                StepView::invalid("cd: directory not found"@)
            },
            CdStage::Enter => match reply {
                ReplyView::Failed(e) => StepView::fail_io(
                    e.kind,
                    "cd: cannot access '"@ + self.target + "': no such file or directory"@,
                ),
                _ => StepView::done(),
            },
        }
    }

    /// The current directory that the host's reply brings, if it brings
    /// one: that is when the process has entered the target, and it is the
    /// target with every `.` and `..` resolved.
    pub open spec fn entered(self, reply: ReplyView) -> Option<Seq<char>> {
        if self.stage == CdStage::Enter && !(reply is Failed) {
            Some(resolved(self.target))
        } else {
            None
        }
    }
}

impl CdState {
    pub fn request(&self) -> (request: Request)
        ensures
            request@ == self@.request(),
    {
        match self.stage {
            CdStage::Home => Request::HomeDir,
            CdStage::Check => Request::Metadata(self.target.clone()),
            CdStage::Enter => Request::SetCurrentDir(self.target.clone()),
        }
    }
}

/// The step of the command named `verb` with the arguments `args`; a word
/// that names no command ends the line with an error that carries it.
pub open spec fn dispatch(cwd: Seq<char>, verb: Seq<char>, args: Seq<Seq<char>>) -> StepView {
    if verb == "cd"@ {
        cd_start(cwd, args)
    } else if verb == "pwd"@ {
        pwd_step(cwd)
    } else if verb == "ls"@ {
        ls_start(cwd, args)
    } else if verb == "echo"@ {
        echo_step(args)
    } else if verb == "mkdir"@ {
        mkdir_start(cwd, args)
    } else if verb == "touch"@ {
        touch_start(cwd, args)
    } else if verb == "cat"@ {
        cat_start(cwd, args)
    } else if verb == "cp"@ {
        cp_start(cwd, args)
    } else if verb == "mv"@ {
        mv_start(cwd, args)
    } else if verb == "rm"@ {
        rm_start(cwd, args)
    } else if verb == "clear"@ {
        clear_step()
    } else if verb == "exit"@ {
        exit_step()
    } else {
        StepView::fail(ShellErrorView::CommandNotFound(verb))
    }
}

/// The first step of the line `input` in the directory `cwd`: a line
/// without words does nothing; otherwise the first word names the command
/// and the others are its arguments.
pub open spec fn execute_step(cwd: Seq<char>, input: Seq<char>) -> StepView {
    let words = tokens(input);
    if words.len() == 0 {
        StepView::done()
    } else {
        dispatch(cwd, words[0], words.skip(1))
    }
}

/// The text in front of a line of input for a shell in `current_dir`: the
/// directory, with the home directory at its start written as `~`, in
/// colour, and a dollar sign.
pub open spec fn prompt_text(current_dir: Seq<char>, home: Seq<char>) -> Seq<char> {
    "\x1b[1;33;48;5;238m"@ + (if home.is_prefix_of(current_dir) {
        seq!['~'] + current_dir.skip(home.len() as int)
    } else {
        current_dir
    }) + "\x1b[0m $ \x1b[38;5;238m\x1b[0m"@
}

/// The text in front of a line of input.
pub fn prompt(current_dir: &str, home: &str) -> (text: String)
    ensures
        text@ == prompt_text(current_dir@, home@),
{
    let dir = chars_of(current_dir);
    let start = chars_of(home);
    let mut shared: usize = 0;
    if start.len() <= dir.len() {
        while shared < start.len() && dir[shared] == start[shared]
            invariant
                shared <= start.len() <= dir.len(),
                forall|k: int| 0 <= k < shared ==> dir@[k] == start@[k],
            decreases start.len() - shared,
        {
            shared += 1;
        }
    }
    let mut text = String::from_str("\x1b[1;33;48;5;238m");
    if start.len() <= dir.len() && shared == start.len() {
        text.push('~');
        push_chars(&mut text, &dir, shared, dir.len());
    } else {
        text.append(current_dir);
    }
    text.append("\x1b[0m $ \x1b[38;5;238m\x1b[0m");
    text
}

/// The shell. All it holds is its current directory, which only `cd`
/// changes. The current directory is always a resolved path: absolute, and
/// without `.` and `..`.
#[derive(Debug)]
pub struct Shell {
    current_dir: String,
}

impl View for Shell {
    type V = Seq<char>;

    closed spec fn view(&self) -> Seq<char> {
        self.current_dir@
    }
}

impl Shell {
    #[verifier::type_invariant]
    spec fn inv(self) -> bool {
        resolved(self.current_dir@) == self.current_dir@
    }

    /// A shell in the directory `current_dir`, written as a resolved path,
    /// or in the root if there is none.
    pub fn new(current_dir: Option<String>) -> (shell: Shell)
        ensures
            shell@ == (match current_dir {
                Some(dir) => resolved(dir@),
                None => "/"@,
            }),
    {
        let dir = match current_dir {
            Some(dir) => resolve(dir.as_str()),
            None => resolve("/"),
        };
        proof {
            reveal_strlit("/");
            lemma_root_is_resolved();
            assert("/"@ =~= seq!['/']);
            if current_dir is Some {
                lemma_resolved_is_resolved(current_dir->0@);
            }
        }
        Shell { current_dir: dir }
    }

    /// The current directory: an absolute path without `.` and `..`.
    pub fn current_dir(&self) -> (dir: &str)
        ensures
            dir@ == self@,
            resolved(dir@) == dir@,
    {
        proof {
            use_type_invariant(self);
        }
        self.current_dir.as_str()
    }

    /// Starts the command that the line `input` asks for.
    pub fn execute(&self, input: &str) -> (step: Step)
        ensures
            step@ == execute_step(self@, input@),
    {
        let words = split_whitespace(input);
        if words.len() == 0 {
            return Step::done();
        }
        let mut args: Vec<&str> = Vec::new();
        let mut i: usize = 1;
        while i < words.len()
            invariant
                1 <= i <= words.len(),
                args.len() == i - 1,
                forall|k: int| 0 <= k < args.len() ==> args@[k]@ == words@[k + 1]@,
            decreases words.len() - i,
        {
            args.push(words[i].as_str());
            i += 1;
        }
        assert(views(args@) =~= views(words@).skip(1));
        let verb = words[0].as_str();
        let cwd = self.current_dir.as_str();
        if str_eq(verb, "cd") {
            self.cd(args.as_slice())
        } else if str_eq(verb, "pwd") {
            pwd(cwd)
        } else if str_eq(verb, "ls") {
            ls(cwd, args.as_slice())
        } else if str_eq(verb, "echo") {
            echo(args.as_slice())
        } else if str_eq(verb, "mkdir") {
            mkdir(cwd, args.as_slice())
        } else if str_eq(verb, "touch") {
            touch(cwd, args.as_slice())
        } else if str_eq(verb, "cat") {
            cat(cwd, args.as_slice())
        } else if str_eq(verb, "cp") {
            cp(cwd, args.as_slice())
        } else if str_eq(verb, "mv") {
            mv(cwd, args.as_slice())
        } else if str_eq(verb, "rm") {
            rm(cwd, args.as_slice())
        } else if str_eq(verb, "clear") {
            clear()
        } else if str_eq(verb, "exit") {
            exit()
        } else {
            Step::fail(ShellError::CommandNotFound(verb.to_owned()))
        }
    }

    /// Starts `cd` with the arguments `args`.
    pub fn cd(&self, args: &[&str]) -> (step: Step)
        ensures
            step@ == cd_start(self@, views(args@)),
    {
        if args.len() > 1 {
            return Step::invalid("cd: too many arguments".to_owned());
        }
        if args.len() == 0 || args[0].is_empty() {
            return Step::ask(
                Pending::Cd(
                    CdState {
                        stage: CdStage::Home,
                        cwd: self.current_dir.clone(),
                        target: String::new(),
                    },
                ),
            );
        }
        Step::ask(
            Pending::Cd(
                CdState {
                    stage: CdStage::Check,
                    cwd: self.current_dir.clone(),
                    target: join_path(self.current_dir.as_str(), args[0]),
                },
            ),
        )
    }

    /// Goes on with `cd` after the host's reply.
    fn cd_resume(&mut self, state: CdState, reply: Reply) -> (step: Step)
        requires
            state@.request().accepts(reply@),
        ensures
            step@ == state@.resume(reply@),
            final(self)@ == (match state@.entered(reply@) {
                Some(dir) => dir,
                None => old(self)@,
            }),
    {
        match state.stage {
            CdStage::Home => match reply {
                Reply::Text(home) => {
                    let target = join_path(state.cwd.as_str(), home.as_str());
                    Step::ask(Pending::Cd(CdState { stage: CdStage::Check, target, ..state }))
                },
                _ => Step::fail_io(ErrorKind::NotFound, "home directory not found".to_owned()),
            },
            CdStage::Check => {
                if reply.is_dir() {
                    Step::ask(Pending::Cd(CdState { stage: CdStage::Enter, ..state }))
                } else if reply.found() {
                    Step::invalid("cd: not a directory".to_owned())
                } else {
                    Step::invalid("cd: directory not found".to_owned())
                }
            },
            CdStage::Enter => match reply {
                Reply::Failed(e) => {
                    let mut message = String::from_str("cd: cannot access '");
                    message.append(state.target.as_str());
                    message.append("': no such file or directory");
                    Step::fail_io(e.kind, message)
                },
                _ => {
                    let dir = resolve(state.target.as_str());
                    proof {
                        lemma_resolved_is_resolved(state.target@);
                    }
                    self.current_dir = dir;
                    Step::done()
                },
            },
        }
    }

    /// Goes on with a pending command after the host has answered its
    /// request. Only `cd` changes the current directory, and only when the
    /// process has entered the target.
    pub fn resume(&mut self, pending: Pending, reply: Reply) -> (step: Step)
        requires
            pending@.request().accepts(reply@),
        ensures
            step@ == pending@.resume(reply@),
            final(self)@ == (match pending@.entered(reply@) {
                Some(dir) => dir,
                None => old(self)@,
            }),
    {
        match pending {
            Pending::Cat(state) => cat_resume(state, reply),
            Pending::Cd(state) => self.cd_resume(state, reply),
            Pending::Ls(state) => ls_resume(state, reply),
            Pending::Mkdir(state) => mkdir_resume(state, reply),
            Pending::Rm(state) => rm_resume(state, reply),
            Pending::Touch(state) => touch_resume(state, reply),
            Pending::Transfer(state) => transfer_resume(state, reply),
        }
    }
}

/// `cd` without arguments asks for the home directory, looks it up as
/// seen from the current directory, has the process enter it, and then
/// makes it the current directory, every `.` and `..` resolved. An absolute
/// home is taken as it is, and one that is written as a resolved path is
/// the new current directory to the letter. `pwd` in a directory prints it
/// on a line.
pub proof fn lemma_cd_home(cwd: Seq<char>, home: Seq<char>, meta: FileMeta)
    requires
        meta.is_dir_spec(),
    ensures
        execute_step(cwd, "cd"@) == cd_start(cwd, Seq::<Seq<char>>::empty()),
        ({
            let asked = CdStateView { stage: CdStage::Home, cwd, target: Seq::<char>::empty() };
            let found = CdStateView { stage: CdStage::Check, cwd, target: join(cwd, home) };
            let checked = CdStateView { stage: CdStage::Enter, ..found };
            &&& cd_start(cwd, Seq::<Seq<char>>::empty()) == StepView::ask(PendingView::Cd(asked))
            &&& asked.request() == RequestView::HomeDir
            &&& asked.resume(ReplyView::Text(home)) == StepView::ask(PendingView::Cd(found))
            &&& found.request() == RequestView::Metadata(join(cwd, home))
            &&& found.resume(ReplyView::Meta(meta)) == StepView::ask(PendingView::Cd(checked))
            &&& checked.request() == RequestView::SetCurrentDir(join(cwd, home))
            &&& checked.resume(ReplyView::Done) == StepView::done()
            &&& checked.entered(ReplyView::Done) == Some(resolved(join(cwd, home)))
        }),
        is_absolute(home) ==> join(cwd, home) == home,
        resolved(home) == home ==> resolved(join(cwd, home)) == home,
        forall|dir: Seq<char>| #[trigger] execute_step(dir, "pwd"@) == StepView::print(dir + "\n"@),
{
    reveal_strlit("cd");
    reveal_strlit("pwd");
    lemma_word_alone("cd"@);
    lemma_word_alone("pwd"@);
    if resolved(home) == home {
        lemma_resolved_is_resolved(home);
    }
}

/// Entering a directory by its name and leaving it by `..` leads back.
///
/// From a current directory, which is a resolved path, `cd` with a plain
/// name makes the current directory that name below the old one, and
/// `cd ..` from there makes it the old one again.
pub proof fn lemma_cd_round_trip(cwd: Seq<char>, name: Seq<char>)
    requires
        resolved(cwd) == cwd,
        is_plain_name(name),
    ensures
        ({
            let inside = join(cwd, name);
            let back = join(inside, ".."@);
            &&& inside == if cwd == seq!['/'] {
                cwd + name
            } else {
                cwd + seq!['/'] + name
            }
            &&& cd_start(cwd, seq![name]) == StepView::ask(
                PendingView::Cd(CdStateView { stage: CdStage::Check, cwd, target: inside }),
            )
            &&& resolved(inside) == inside
            &&& cd_start(inside, seq![".."@]) == StepView::ask(
                PendingView::Cd(CdStateView { stage: CdStage::Check, cwd: inside, target: back }),
            )
            &&& resolved(back) == cwd
        }),
{
    reveal_strlit("..");
    let up = seq!['.', '.'];
    let inside = join(cwd, name);
    let back = join(inside, ".."@);
    let parts = resolved_parts(cwd);
    lemma_resolved_is_resolved(cwd);
    assert(has_none(name, '/'));
    lemma_resolved_join_name(cwd, name);
    let longer = parts.push(name);
    assert(resolved_parts(inside) == longer);
    assert(longer.drop_last() =~= parts);
    assert(below_root(longer) == below_root(parts) + seq!['/'] + name);
    if parts.len() == 0 {
        assert(below_root(parts) =~= Seq::<char>::empty());
        assert(inside =~= cwd + name);
        assert(resolved(inside) =~= inside);
    } else {
        assert(cwd != seq!['/']) by {
            if cwd == seq!['/'] {
                assert(cwd.last() == '/');
            }
        }
        assert(inside =~= cwd + seq!['/'] + name);
        assert(resolved(inside) =~= inside);
    }
    assert(".."@ =~= up);
    assert(has_none(up, '/'));
    lemma_resolved_join_name(inside, up);
    assert(resolved_parts(back) == parts);
    assert(seq![name][0] == name);
    assert(seq![".."@][0] == ".."@);
}

/// Two steps up lead two directories up: from the directory `b` in `a` in
/// a current directory `dir`, `cd ../..` leads to `dir`. More steps, and
/// `.` and `..` anywhere in the argument, go by the same rule: the
/// components of the argument are walked through from the left, starting
/// in the current directory.
pub proof fn lemma_cd_up_twice(dir: Seq<char>, a: Seq<char>, b: Seq<char>)
    requires
        resolved(dir) == dir,
        is_plain_name(a),
        is_plain_name(b),
    ensures
        ({
            let cwd = join(join(dir, a), b);
            let target = join(cwd, "../.."@);
            &&& resolved(cwd) == cwd
            &&& cd_start(cwd, seq!["../.."@]) == StepView::ask(
                PendingView::Cd(CdStateView { stage: CdStage::Check, cwd, target }),
            )
            &&& (CdStateView { stage: CdStage::Enter, cwd, target }).entered(ReplyView::Done)
                == Some(dir)
        }),
{
    reveal_strlit("../..");
    let up = seq!['.', '.'];
    let first = join(dir, a);
    let cwd = join(first, b);
    let parts = resolved_parts(dir);
    lemma_cd_round_trip(dir, a);
    lemma_cd_round_trip(first, b);
    assert(has_none(a, '/') && has_none(b, '/'));
    lemma_resolved_join_name(dir, a);
    lemma_resolved_join_name(first, b);
    let all = parts.push(a).push(b);
    assert(resolved_parts(cwd) == all);
    assert("../.."@ =~= up + seq!['/'] + up);
    assert(has_none(up, '/'));
    lemma_split_concat(up, up, '/');
    lemma_split_one(up, '/');
    lemma_resolved_join(cwd, "../.."@);
    lemma_walk_concat(all, seq![up], seq![up]);
    lemma_walk_one(all, up);
    lemma_walk_one(step(all, up), up);
    assert(all.drop_last() =~= parts.push(a));
    assert(parts.push(a).drop_last() =~= parts);
    assert(resolved_parts(join(cwd, "../.."@)) == parts);
    assert(seq!["../.."@][0] == "../.."@);
}

} // verus!
