use shell::commands::cat::cat;
use shell::commands::copy_dir::{copy_dir_all, copy_dir_resume, CopyState, CopyStep};
use shell::commands::cp::cp;
use shell::commands::exit::{clear, exit};
use shell::commands::ls::ls;
use shell::commands::mkdir::mkdir;
use shell::commands::mv::mv;
use shell::commands::pwd::pwd;
use shell::commands::rm::rm;
use shell::commands::touch::touch;
use shell::host::{DirEntry, FileMeta, Reply, Request};
use shell::machine::{Next, Pending, Step};
use shell::shell::{prompt, Shell};
use shell::utils::error::{ErrorKind, IoError, ShellError};

fn shell() -> Shell {
    Shell::new(Some("/home/user".to_string()))
}

fn asked(step: Step) -> Pending {
    assert_eq!(step.output, "");
    match step.next {
        Next::Ask(pending) => pending,
        other => panic!("the command does not wait: {:?}", other),
    }
}

fn ok() -> Step {
    Step { output: String::new(), next: Next::Done(Ok(())) }
}

fn printed(text: &str) -> Step {
    Step { output: text.to_string(), next: Next::Done(Ok(())) }
}

fn invalid(message: &str) -> Step {
    Step { output: String::new(), next: Next::Done(Err(ShellError::InvalidArguments(message.to_string()))) }
}

fn io(kind: ErrorKind, message: &str) -> Step {
    Step { output: String::new(), next: Next::Done(Err(ShellError::io(kind, message.to_string()))) }
}

fn failure(kind: ErrorKind, message: &str) -> Reply {
    Reply::Failed(IoError::new(kind, message.to_string()))
}

fn missing() -> Reply {
    failure(ErrorKind::NotFound, "No such file or directory (os error 2)")
}

fn metadata(path: &str) -> Request {
    Request::Metadata(path.to_string())
}

fn meta(mode: u32) -> FileMeta {
    FileMeta { mode, nlink: 1, uid: 0, gid: 0, size: 0, rdev: 0, blocks: 8, modified: 0 }
}

fn a_dir() -> Reply {
    Reply::Meta(meta(0o040755))
}

fn a_file() -> Reply {
    Reply::Meta(meta(0o100644))
}

fn entry(name: &str, mode: u32) -> DirEntry {
    DirEntry { name: name.to_string(), meta: meta(mode), link: None }
}

/// Answers the request of `step`, after checking that it is `request`.
fn answer(shell: &mut Shell, step: Step, request: Request, reply: Reply) -> Step {
    let pending = asked(step);
    assert_eq!(pending.request(), request);
    assert!(request.accepts(&reply));
    shell.resume(pending, reply)
}

// ---------------------------------------------------------------- dispatch

#[test]
fn an_empty_line_does_nothing() {
    assert_eq!(shell().execute(""), ok());
    assert_eq!(shell().execute("   \t "), ok());
}

#[test]
fn an_unknown_command_is_not_found() {
    let step = shell().execute("frobnicate now");
    assert_eq!(step.output, "");
    assert_eq!(step.next, Next::Done(Err(ShellError::CommandNotFound("frobnicate".to_string()))));
}

#[test]
fn commands_are_matched_exactly() {
    for line in ["LS", "Cd", "pwd2", "ech", "-ls", "l s x"] {
        let verb = line.split_whitespace().next().unwrap();
        assert_eq!(
            shell().execute(line).next,
            Next::Done(Err(ShellError::CommandNotFound(verb.to_string())))
        );
    }
}

#[test]
fn every_command_of_the_table_is_dispatched() {
    let sh = shell();
    assert_eq!(sh.execute("pwd"), pwd("/home/user"));
    assert_eq!(sh.execute("clear"), clear());
    assert_eq!(sh.execute("exit"), exit());
    assert_eq!(sh.execute("cd a"), sh.cd(&["a"]));
    assert_eq!(sh.execute("ls -l x"), ls("/home/user", &["-l", "x"]));
    assert_eq!(sh.execute("mkdir a b"), mkdir("/home/user", &["a", "b"]));
    assert_eq!(sh.execute("touch a"), touch("/home/user", &["a"]));
    assert_eq!(sh.execute("cat a b"), cat("/home/user", &["a", "b"]));
    assert_eq!(sh.execute("cp a b"), cp("/home/user", &["a", "b"]));
    assert_eq!(sh.execute("mv a b"), mv("/home/user", &["a", "b"]));
    assert_eq!(sh.execute("rm -r a"), rm("/home/user", &["-r", "a"]));
    assert_eq!(sh.execute("  rm   -r\ta  "), rm("/home/user", &["-r", "a"]));
}

#[test]
fn exit_ends_the_shell() {
    assert_eq!(shell().execute("exit"), Step { output: String::new(), next: Next::Exit });
    assert_eq!(shell().execute("exit now").next, Next::Exit);
}

#[test]
fn pwd_prints_the_current_directory() {
    assert_eq!(shell().execute("pwd"), printed("/home/user\n"));
    assert_eq!(pwd("/"), printed("/\n"));
    assert_eq!(shell().execute("pwd ignored"), printed("/home/user\n"));
}

#[test]
fn clear_prints_the_reset_sequence() {
    assert_eq!(shell().execute("clear"), printed("\x1B[2J\x1B[1;1H"));
}

#[test]
fn a_new_shell_starts_where_it_is_told() {
    assert_eq!(Shell::new(Some("/tmp".to_string())).current_dir(), "/tmp");
    assert_eq!(Shell::new(None).current_dir(), "/");
}

#[test]
fn prompt_abbreviates_the_home_directory() {
    assert_eq!(prompt("/home/user/src", "/home/user"), "\x1b[1;33;48;5;238m~/src\x1b[0m $ \x1b[38;5;238m\x1b[0m");
    assert_eq!(prompt("/home/user", "/home/user"), "\x1b[1;33;48;5;238m~\x1b[0m $ \x1b[38;5;238m\x1b[0m");
    assert_eq!(prompt("/etc", "/home/user"), "\x1b[1;33;48;5;238m/etc\x1b[0m $ \x1b[38;5;238m\x1b[0m");
    assert_eq!(prompt("/etc", ""), "\x1b[1;33;48;5;238m~/etc\x1b[0m $ \x1b[38;5;238m\x1b[0m");
    assert_eq!(prompt("/a", "/abc"), "\x1b[1;33;48;5;238m/a\x1b[0m $ \x1b[38;5;238m\x1b[0m");
}

// ---------------------------------------------------------------------- cd

#[test]
fn cd_with_too_many_arguments() {
    assert_eq!(shell().execute("cd a b"), invalid("cd: too many arguments"));
    assert_eq!(shell().cd(&["a", "b", "c"]), invalid("cd: too many arguments"));
}

#[test]
fn cd_to_a_relative_directory() {
    let mut sh = shell();
    let step = sh.execute("cd docs");
    let step = answer(&mut sh, step, metadata("/home/user/docs"), a_dir());
    assert_eq!(sh.current_dir(), "/home/user");
    let step = answer(&mut sh, step, Request::SetCurrentDir("/home/user/docs".to_string()), Reply::Done);
    assert_eq!(step, ok());
    assert_eq!(sh.current_dir(), "/home/user/docs");
}

#[test]
fn cd_to_an_absolute_directory() {
    let mut sh = shell();
    let step = sh.execute("cd /etc");
    let step = answer(&mut sh, step, metadata("/etc"), a_dir());
    let step = answer(&mut sh, step, Request::SetCurrentDir("/etc".to_string()), Reply::Done);
    assert_eq!(step, ok());
    assert_eq!(sh.current_dir(), "/etc");
}

#[test]
fn cd_without_arguments_goes_home() {
    let mut sh = shell();
    let step = sh.execute("cd");
    let step = answer(&mut sh, step, Request::HomeDir, Reply::Text("/home/alice".to_string()));
    let step = answer(&mut sh, step, metadata("/home/alice"), a_dir());
    let step = answer(&mut sh, step, Request::SetCurrentDir("/home/alice".to_string()), Reply::Done);
    assert_eq!(step, ok());
    assert_eq!(sh.current_dir(), "/home/alice");
    assert_eq!(sh.execute("pwd"), printed("/home/alice\n"));
}

#[test]
fn cd_with_an_empty_argument_goes_home() {
    let sh = shell();
    assert_eq!(asked(sh.cd(&[""])).request(), Request::HomeDir);
}

#[test]
fn cd_without_a_home_directory() {
    let mut sh = shell();
    let step = sh.execute("cd");
    let step = answer(&mut sh, step, Request::HomeDir, failure(ErrorKind::NotFound, "not set"));
    assert_eq!(step, io(ErrorKind::NotFound, "home directory not found"));
    assert_eq!(sh.current_dir(), "/home/user");
}

#[test]
fn cd_to_what_is_not_there() {
    let mut sh = shell();
    let step = sh.execute("cd nowhere");
    let step = answer(&mut sh, step, metadata("/home/user/nowhere"), missing());
    assert_eq!(step, invalid("cd: directory not found"));
    assert_eq!(sh.current_dir(), "/home/user");
}

#[test]
fn cd_to_a_file() {
    let mut sh = shell();
    let step = sh.execute("cd notes.txt");
    let step = answer(&mut sh, step, metadata("/home/user/notes.txt"), a_file());
    assert_eq!(step, invalid("cd: not a directory"));
    assert_eq!(sh.current_dir(), "/home/user");
}

#[test]
fn cd_that_the_process_cannot_follow() {
    let mut sh = shell();
    let step = sh.execute("cd locked");
    let step = answer(&mut sh, step, metadata("/home/user/locked"), a_dir());
    let step = answer(
        &mut sh,
        step,
        Request::SetCurrentDir("/home/user/locked".to_string()),
        failure(ErrorKind::PermissionDenied, "Permission denied (os error 13)"),
    );
    assert_eq!(
        step,
        io(ErrorKind::PermissionDenied, "cd: cannot access '/home/user/locked': no such file or directory")
    );
    assert_eq!(sh.current_dir(), "/home/user");
}

#[test]
fn cd_up_steps_back() {
    let mut sh = shell();
    let step = sh.execute("cd ..");
    let step = answer(&mut sh, step, metadata("/home/user/.."), a_dir());
    let step = answer(&mut sh, step, Request::SetCurrentDir("/home/user/..".to_string()), Reply::Done);
    assert_eq!(step, ok());
    assert_eq!(sh.current_dir(), "/home");
}

#[test]
fn cd_up_from_the_top_stays_at_the_root() {
    let mut sh = Shell::new(Some("/home".to_string()));
    for _ in 0..2 {
        let step = sh.execute("cd ..");
        let target = if sh.current_dir() == "/" { "/..".to_string() } else { format!("{}/..", sh.current_dir()) };
        let step = answer(&mut sh, step, metadata(&target), a_dir());
        let step = answer(&mut sh, step, Request::SetCurrentDir(target), Reply::Done);
        assert_eq!(step, ok());
        assert_eq!(sh.current_dir(), "/");
    }
}

#[test]
fn cd_up_twice_goes_two_directories_up() {
    let mut sh = Shell::new(Some("/x/y/z".to_string()));
    let step = sh.execute("cd ../..");
    let step = answer(&mut sh, step, metadata("/x/y/z/../.."), a_dir());
    let step = answer(&mut sh, step, Request::SetCurrentDir("/x/y/z/../..".to_string()), Reply::Done);
    assert_eq!(step, ok());
    assert_eq!(sh.current_dir(), "/x");
    assert_eq!(sh.execute("pwd"), printed("/x\n"));
}

#[test]
fn cd_resolves_every_dot_and_parent() {
    for (start, arg, end) in [
        ("/x/y/z", "a/../..", "/x/y"),
        ("/x/y/z", "/a/../", "/"),
        ("/x/y/z", ".", "/x/y/z"),
        ("/x/y/z", "./a/./b/", "/x/y/z/a/b"),
        ("/x/y/z", "../../../../..", "/"),
        ("/x/y/z", "..//w", "/x/y/w"),
        ("/", "a/b/../c", "/a/c"),
    ] {
        let mut sh = Shell::new(Some(start.to_string()));
        let target = if arg.starts_with('/') {
            arg.to_string()
        } else if start == "/" {
            format!("/{}", arg)
        } else {
            format!("{}/{}", start, arg)
        };
        let step = sh.cd(&[arg]);
        let step = answer(&mut sh, step, metadata(&target), a_dir());
        let step = answer(&mut sh, step, Request::SetCurrentDir(target), Reply::Done);
        assert_eq!(step, ok());
        assert_eq!(sh.current_dir(), end, "{} {}", start, arg);
    }
}

#[test]
fn cd_home_resolves_the_home_directory() {
    for (home, end) in [("/a/b/../..", "/"), ("/home/alice/", "/home/alice"), ("rel", "/home/user/rel")] {
        let mut sh = shell();
        let target = if home.starts_with('/') { home.to_string() } else { format!("/home/user/{}", home) };
        let step = sh.execute("cd");
        let step = answer(&mut sh, step, Request::HomeDir, Reply::Text(home.to_string()));
        let step = answer(&mut sh, step, metadata(&target), a_dir());
        let step = answer(&mut sh, step, Request::SetCurrentDir(target), Reply::Done);
        assert_eq!(step, ok());
        assert_eq!(sh.current_dir(), end);
    }
}

#[test]
fn a_new_shell_resolves_its_directory() {
    assert_eq!(Shell::new(Some("/tmp/".to_string())).current_dir(), "/tmp");
    assert_eq!(Shell::new(Some("/a/b/../c/.".to_string())).current_dir(), "/a/c");
    assert_eq!(Shell::new(Some("".to_string())).current_dir(), "/");
}

// ------------------------------------------------------------------- mkdir

#[test]
fn mkdir_without_arguments() {
    assert_eq!(shell().execute("mkdir"), invalid("mkdir: no directory specified"));
}

#[test]
fn mkdir_creates_each_directory_in_turn() {
    let mut sh = shell();
    let step = sh.execute("mkdir a /tmp/b c");
    let step = answer(&mut sh, step, Request::CreateDir("/home/user/a".to_string()), Reply::Done);
    let step = answer(&mut sh, step, Request::CreateDir("/tmp/b".to_string()), Reply::Done);
    let step = answer(&mut sh, step, Request::CreateDir("/home/user/c".to_string()), Reply::Done);
    assert_eq!(step, ok());
}

#[test]
fn mkdir_stops_at_the_first_failure() {
    let mut sh = shell();
    let step = sh.execute("mkdir a b");
    let step = answer(
        &mut sh,
        step,
        Request::CreateDir("/home/user/a".to_string()),
        failure(ErrorKind::AlreadyExists, "File exists (os error 17)"),
    );
    assert_eq!(step, invalid("mkdir: File exists (os error 17)"));
}

// ------------------------------------------------------------------- touch

#[test]
fn touch_without_arguments() {
    assert_eq!(shell().execute("touch"), invalid("touch: no file specified"));
}

#[test]
fn touch_creates_a_missing_file() {
    let mut sh = shell();
    let step = sh.execute("touch new.txt");
    let step = answer(&mut sh, step, metadata("/home/user/new.txt"), missing());
    let step = answer(&mut sh, step, Request::CreateFile("/home/user/new.txt".to_string()), Reply::Done);
    assert_eq!(step, ok());
}

#[test]
fn touch_opens_an_existing_file() {
    let mut sh = shell();
    let step = sh.execute("touch old.txt next.txt");
    let step = answer(&mut sh, step, metadata("/home/user/old.txt"), a_file());
    let step = answer(&mut sh, step, Request::OpenForWrite("/home/user/old.txt".to_string()), Reply::Done);
    let step = answer(&mut sh, step, metadata("/home/user/next.txt"), missing());
    let step = answer(&mut sh, step, Request::CreateFile("/home/user/next.txt".to_string()), Reply::Done);
    assert_eq!(step, ok());
}

#[test]
fn touch_that_cannot_update() {
    let mut sh = shell();
    let step = sh.execute("touch ro.txt other");
    let step = answer(&mut sh, step, metadata("/home/user/ro.txt"), a_file());
    let step = answer(
        &mut sh,
        step,
        Request::OpenForWrite("/home/user/ro.txt".to_string()),
        failure(ErrorKind::PermissionDenied, "Permission denied (os error 13)"),
    );
    assert_eq!(step, io(ErrorKind::PermissionDenied, "touch: cannot update ro.txt"));
}

#[test]
fn touch_that_cannot_create() {
    let mut sh = shell();
    let step = sh.execute("touch no/such/file");
    let step = answer(&mut sh, step, metadata("/home/user/no/such/file"), missing());
    let step = answer(&mut sh, step, Request::CreateFile("/home/user/no/such/file".to_string()), missing());
    assert_eq!(step, io(ErrorKind::NotFound, "touch: cannot create no/such/file"));
}

// ---------------------------------------------------------------------- rm

#[test]
fn rm_without_anything_to_remove() {
    assert_eq!(shell().execute("rm"), invalid("rm: nothing specified"));
    assert_eq!(shell().execute("rm -r"), invalid("rm: nothing specified"));
}

#[test]
fn rm_removes_each_file_in_turn() {
    let mut sh = shell();
    let step = sh.execute("rm a b");
    let step = answer(&mut sh, step, Request::RemoveFile("/home/user/a".to_string()), Reply::Done);
    let step = answer(&mut sh, step, Request::RemoveFile("/home/user/b".to_string()), Reply::Done);
    assert_eq!(step, ok());
}

#[test]
fn rm_of_a_directory_without_the_flag() {
    let mut sh = shell();
    let step = sh.execute("rm dir later");
    let step = answer(
        &mut sh,
        step,
        Request::RemoveFile("/home/user/dir".to_string()),
        failure(ErrorKind::Other, "Is a directory (os error 21)"),
    );
    assert_eq!(step, invalid("rm: cannot remove 'dir': is a directory"));
}

#[test]
fn rm_recursive_removes_whole_directories() {
    let mut sh = shell();
    let step = sh.execute("rm -r a b");
    let step = answer(&mut sh, step, Request::RemoveDirAll("/home/user/a".to_string()), Reply::Done);
    let step = answer(&mut sh, step, Request::RemoveDirAll("/home/user/b".to_string()), Reply::Done);
    assert_eq!(step, ok());
}

#[test]
fn rm_recursive_passes_the_error_on() {
    let mut sh = shell();
    let step = sh.execute("rm -r gone next");
    let step = answer(&mut sh, step, Request::RemoveDirAll("/home/user/gone".to_string()), missing());
    assert_eq!(step, io(ErrorKind::NotFound, "No such file or directory (os error 2)"));
}

#[test]
fn rm_takes_the_flag_only_in_front() {
    let mut sh = shell();
    let step = sh.execute("rm a -r");
    let step = answer(&mut sh, step, Request::RemoveFile("/home/user/a".to_string()), Reply::Done);
    let step = answer(&mut sh, step, Request::RemoveFile("/home/user/-r".to_string()), Reply::Done);
    assert_eq!(step, ok());
}

// --------------------------------------------------------------------- cat

#[test]
fn cat_without_arguments() {
    assert_eq!(shell().execute("cat"), invalid("no file specified"));
}

#[test]
fn cat_prints_files_without_separator() {
    let mut sh = shell();
    let step = sh.execute("cat a b");
    let pending = asked(step);
    assert_eq!(pending.request(), Request::ReadFile("/home/user/a".to_string()));
    let step = sh.resume(pending, Reply::Text("first".to_string()));
    assert_eq!(step.output, "first");
    let pending = match step.next {
        Next::Ask(pending) => pending,
        other => panic!("{:?}", other),
    };
    assert_eq!(pending.request(), Request::ReadFile("/home/user/b".to_string()));
    let step = sh.resume(pending, Reply::Text("second\n".to_string()));
    assert_eq!(step, printed("second\n\n"));
}

#[test]
fn cat_of_one_file_ends_with_a_line_feed() {
    let mut sh = shell();
    let step = sh.execute("cat /etc/hostname");
    let step = answer(&mut sh, step, Request::ReadFile("/etc/hostname".to_string()), Reply::Text("box".to_string()));
    assert_eq!(step, printed("box\n"));
}

#[test]
fn cat_stops_at_a_missing_file() {
    let mut sh = shell();
    let step = sh.execute("cat a gone c");
    let pending = asked(step);
    let step = sh.resume(pending, Reply::Text("first".to_string()));
    assert_eq!(step.output, "first");
    let pending = match step.next {
        Next::Ask(pending) => pending,
        other => panic!("{:?}", other),
    };
    let step = sh.resume(pending, missing());
    assert_eq!(step, invalid("cat: gone: no such file or directory"));
}

// ---------------------------------------------------------------------- ls

#[test]
fn ls_with_an_invalid_flag() {
    assert_eq!(shell().execute("ls -x"), invalid("invalid flag"));
    assert_eq!(shell().execute("ls -la"), invalid("invalid flag"));
    assert_eq!(shell().execute("ls -a -"), invalid("invalid flag"));
    assert_eq!(shell().execute("ls -l -a -F --"), invalid("invalid flag"));
}

#[test]
fn ls_lists_the_current_directory() {
    let mut sh = shell();
    let step = sh.execute("ls");
    let entries = vec![entry("b", 0o100644), entry(".x", 0o100644), entry("a", 0o040755)];
    let step = answer(&mut sh, step, Request::ListDir("/home/user".to_string()), Reply::Entries(entries));
    assert_eq!(step, printed("\x1b[1;34ma\x1b[0m  \x1b[0mb\x1b[0m  \n"));
}

#[test]
fn ls_of_a_directory_that_cannot_be_read() {
    let mut sh = shell();
    let step = sh.execute("ls");
    let step = answer(
        &mut sh,
        step,
        Request::ListDir("/home/user".to_string()),
        failure(ErrorKind::PermissionDenied, "Permission denied (os error 13)"),
    );
    assert_eq!(step, io(ErrorKind::PermissionDenied, "Permission denied (os error 13)"));
}

#[test]
fn ls_of_another_directory() {
    let mut sh = shell();
    let step = sh.execute("ls -F docs");
    let step = answer(&mut sh, step, metadata("/home/user/docs"), a_dir());
    let step = answer(
        &mut sh,
        step,
        Request::ListDir("/home/user/docs".to_string()),
        Reply::Entries(vec![entry("sub", 0o040755), entry("run", 0o100755)]),
    );
    assert_eq!(step, printed("\x1b[1;32mrun*\x1b[0m  \x1b[1;34msub/\x1b[0m  \n"));
}

#[test]
fn ls_takes_the_last_directory_named() {
    let mut sh = shell();
    let step = sh.execute("ls a /b");
    let step = answer(&mut sh, step, metadata("/home/user/a"), a_dir());
    let step = answer(&mut sh, step, metadata("/b"), a_dir());
    assert_eq!(asked(step).request(), Request::ListDir("/b".to_string()));
}

#[test]
fn ls_of_what_is_no_directory() {
    let mut sh = shell();
    let step = sh.execute("ls notes.txt");
    let step = answer(&mut sh, step, metadata("/home/user/notes.txt"), a_file());
    assert_eq!(step, invalid("ls: cannot access 'notes.txt': no such file or directory"));
    let step = sh.execute("ls gone -x");
    let step = answer(&mut sh, step, metadata("/home/user/gone"), missing());
    assert_eq!(step, invalid("ls: cannot access 'gone': no such file or directory"));
}

#[test]
fn ls_reads_flags_behind_a_directory() {
    let mut sh = shell();
    let step = sh.execute("ls docs -x");
    let step = answer(&mut sh, step, metadata("/home/user/docs"), a_dir());
    assert_eq!(step, invalid("invalid flag"));
}

#[test]
fn ls_all_adds_the_directory_and_the_one_above() {
    let mut sh = shell();
    let step = sh.execute("ls -a");
    let step = answer(
        &mut sh,
        step,
        Request::ListDir("/home/user".to_string()),
        Reply::Entries(vec![entry("z", 0o100644), entry(".rc", 0o100644)]),
    );
    let step = answer(&mut sh, step, metadata("/home/user/.."), a_dir());
    let step = answer(&mut sh, step, metadata("/home/user"), a_dir());
    assert_eq!(
        step,
        printed("\x1b[1;34m.\x1b[0m  \x1b[1;34m..\x1b[0m  \x1b[0m.rc\x1b[0m  \x1b[0mz\x1b[0m  \n")
    );
}

#[test]
fn ls_all_fails_where_the_directory_above_cannot_be_looked_up() {
    let mut sh = shell();
    let step = sh.execute("ls -a");
    let step = answer(&mut sh, step, Request::ListDir("/home/user".to_string()), Reply::Entries(Vec::new()));
    let step = answer(&mut sh, step, metadata("/home/user/.."), missing());
    assert_eq!(step, io(ErrorKind::NotFound, "No such file or directory (os error 2)"));
}

#[test]
fn ls_long_reads_the_databases() {
    let mut sh = shell();
    let step = sh.execute("ls -l");
    let mut e = entry("f", 0o100640);
    e.meta.uid = 7;
    e.meta.gid = 8;
    e.meta.size = 5;
    let step = answer(&mut sh, step, Request::ListDir("/home/user".to_string()), Reply::Entries(vec![e]));
    let step = answer(&mut sh, step, Request::ReadFile("/etc/passwd".to_string()), Reply::Text("bob:x:7:8\n".to_string()));
    let step = answer(&mut sh, step, Request::ReadFile("/etc/group".to_string()), Reply::Text("staff:x:8:\n".to_string()));
    assert_eq!(
        step,
        printed("total 4\n-rw-r-----  1 bob     staff               5 Jan  1 00:00 \x1b[0mf\x1b[0m\n")
    );
}

#[test]
fn ls_long_without_databases_shows_the_sentinel() {
    let mut sh = shell();
    let step = sh.execute("ls -l");
    let step = answer(&mut sh, step, Request::ListDir("/home/user".to_string()), Reply::Entries(vec![entry("f", 0o100640)]));
    let step = answer(&mut sh, step, Request::ReadFile("/etc/passwd".to_string()), missing());
    let step = answer(&mut sh, step, Request::ReadFile("/etc/group".to_string()), missing());
    assert_eq!(
        step,
        printed("total 4\n-rw-r-----  1 ERROR   ERROR               0 Jan  1 00:00 \x1b[0mf\x1b[0m\n")
    );
}

#[test]
fn ls_flags_combine_in_any_order() {
    let mut sh = shell();
    for line in ["ls -a -l -F", "ls -F -l -a", "ls -l -F -a -a"] {
        let step = sh.execute(line);
        let step = answer(&mut sh, step, Request::ListDir("/home/user".to_string()), Reply::Entries(vec![entry("d", 0o040755)]));
        let step = answer(&mut sh, step, metadata("/home/user/.."), a_dir());
        let step = answer(&mut sh, step, metadata("/home/user"), a_dir());
        let step = answer(&mut sh, step, Request::ReadFile("/etc/passwd".to_string()), Reply::Text(String::new()));
        let step = answer(&mut sh, step, Request::ReadFile("/etc/group".to_string()), Reply::Text(String::new()));
        let lines: Vec<&str> = step.output.lines().collect();
        assert_eq!(lines.len(), 4, "{:?}", step.output);
        assert_eq!(lines[0], "total 12");
        assert!(lines[1].ends_with("\x1b[1;34m./\x1b[0m"));
        assert!(lines[2].ends_with("\x1b[1;34m../\x1b[0m"));
        assert!(lines[3].ends_with("\x1b[1;34md/\x1b[0m"));
        assert_eq!(step.next, Next::Done(Ok(())));
    }
}

// ------------------------------------------------------------- cp and mv

#[test]
fn cp_and_mv_take_two_arguments() {
    for line in ["cp", "cp a", "cp a b c"] {
        assert_eq!(shell().execute(line), invalid("cp: requires source and destination"));
    }
    for line in ["mv", "mv a", "mv a b c"] {
        assert_eq!(shell().execute(line), invalid("mv: requires source and destination"));
    }
}

#[test]
fn cp_of_a_missing_source() {
    let mut sh = shell();
    let step = sh.execute("cp gone there");
    let step = answer(&mut sh, step, metadata("/home/user/gone"), missing());
    assert_eq!(step, io(ErrorKind::NotFound, "cp: cannot stat 'gone': no such file or directory"));
    let step = sh.execute("mv gone there");
    let step = answer(&mut sh, step, metadata("/home/user/gone"), missing());
    assert_eq!(step, io(ErrorKind::NotFound, "mv: cannot stat 'gone': no such file or directory"));
}

#[test]
fn cp_of_a_file_to_a_new_name() {
    let mut sh = shell();
    let step = sh.execute("cp a.txt b.txt");
    let step = answer(&mut sh, step, metadata("/home/user/a.txt"), a_file());
    let step = answer(&mut sh, step, metadata("/home/user/b.txt"), missing());
    let step = answer(&mut sh, step, metadata("/home/user"), a_dir());
    let step = answer(&mut sh, step, metadata("/home/user/a.txt"), a_file());
    let step = answer(
        &mut sh,
        step,
        Request::CopyFile("/home/user/a.txt".to_string(), "/home/user/b.txt".to_string()),
        Reply::Done,
    );
    assert_eq!(step, ok());
}

#[test]
fn cp_into_a_directory_keeps_the_name() {
    let mut sh = shell();
    let step = sh.execute("cp docs/a.txt /tmp");
    let step = answer(&mut sh, step, metadata("/home/user/docs/a.txt"), a_file());
    let step = answer(&mut sh, step, metadata("/tmp"), a_dir());
    let step = answer(&mut sh, step, metadata("/tmp"), a_dir());
    let step = answer(&mut sh, step, metadata("/home/user/docs/a.txt"), a_file());
    let step = answer(
        &mut sh,
        step,
        Request::CopyFile("/home/user/docs/a.txt".to_string(), "/tmp/a.txt".to_string()),
        Reply::Done,
    );
    assert_eq!(step, ok());
}

#[test]
fn cp_of_a_source_without_a_name() {
    let mut sh = shell();
    let step = sh.execute("cp .. /tmp");
    let step = answer(&mut sh, step, metadata("/home/user/.."), a_dir());
    let step = answer(&mut sh, step, metadata("/tmp"), a_dir());
    assert_eq!(step, io(ErrorKind::InvalidInput, "cp: source has no file name"));
    let step = sh.execute("mv / /tmp");
    let step = answer(&mut sh, step, metadata("/"), a_dir());
    let step = answer(&mut sh, step, metadata("/tmp"), a_dir());
    assert_eq!(step, io(ErrorKind::InvalidInput, "mv: source has no file name"));
}

#[test]
fn cp_creates_the_directory_that_will_hold_the_result() {
    let mut sh = shell();
    let step = sh.execute("cp a.txt new/deep/b.txt");
    let step = answer(&mut sh, step, metadata("/home/user/a.txt"), a_file());
    let step = answer(&mut sh, step, metadata("/home/user/new/deep/b.txt"), missing());
    let step = answer(&mut sh, step, metadata("/home/user/new/deep"), missing());
    let step = answer(&mut sh, step, Request::CreateDirAll("/home/user/new/deep".to_string()), Reply::Done);
    let step = answer(&mut sh, step, metadata("/home/user/a.txt"), a_file());
    let step = answer(
        &mut sh,
        step,
        Request::CopyFile("/home/user/a.txt".to_string(), "/home/user/new/deep/b.txt".to_string()),
        Reply::Done,
    );
    assert_eq!(step, ok());
}

#[test]
fn cp_that_cannot_create_the_directory() {
    let mut sh = shell();
    let step = sh.execute("cp a.txt /ro/b.txt");
    let step = answer(&mut sh, step, metadata("/home/user/a.txt"), a_file());
    let step = answer(&mut sh, step, metadata("/ro/b.txt"), missing());
    let step = answer(&mut sh, step, metadata("/ro"), missing());
    let step = answer(
        &mut sh,
        step,
        Request::CreateDirAll("/ro".to_string()),
        failure(ErrorKind::PermissionDenied, "Permission denied (os error 13)"),
    );
    assert_eq!(step, io(ErrorKind::PermissionDenied, "cp: cannot create directory '/ro'"));
}

#[test]
fn cp_that_cannot_copy() {
    let mut sh = shell();
    let step = sh.execute("cp a.txt b.txt");
    let step = answer(&mut sh, step, metadata("/home/user/a.txt"), a_file());
    let step = answer(&mut sh, step, metadata("/home/user/b.txt"), a_file());
    let step = answer(&mut sh, step, metadata("/home/user"), a_dir());
    let step = answer(&mut sh, step, metadata("/home/user/a.txt"), a_file());
    let step = answer(
        &mut sh,
        step,
        Request::CopyFile("/home/user/a.txt".to_string(), "/home/user/b.txt".to_string()),
        failure(ErrorKind::PermissionDenied, "Permission denied (os error 13)"),
    );
    assert_eq!(step, io(ErrorKind::PermissionDenied, "cp: cannot copy 'a.txt' to 'b.txt'"));
}

#[test]
fn mv_renames() {
    let mut sh = shell();
    let step = sh.execute("mv a.txt b.txt");
    let step = answer(&mut sh, step, metadata("/home/user/a.txt"), a_file());
    let step = answer(&mut sh, step, metadata("/home/user/b.txt"), missing());
    let step = answer(&mut sh, step, metadata("/home/user"), a_dir());
    let step = answer(
        &mut sh,
        step,
        Request::Rename("/home/user/a.txt".to_string(), "/home/user/b.txt".to_string()),
        Reply::Done,
    );
    assert_eq!(step, ok());
}

#[test]
fn mv_into_a_directory_keeps_the_name() {
    let mut sh = shell();
    let step = sh.execute("mv a.txt docs");
    let step = answer(&mut sh, step, metadata("/home/user/a.txt"), a_file());
    let step = answer(&mut sh, step, metadata("/home/user/docs"), a_dir());
    let step = answer(&mut sh, step, metadata("/home/user/docs"), a_dir());
    let step = answer(
        &mut sh,
        step,
        Request::Rename("/home/user/a.txt".to_string(), "/home/user/docs/a.txt".to_string()),
        Reply::Done,
    );
    assert_eq!(step, ok());
}

#[test]
fn mv_that_cannot_rename() {
    let mut sh = shell();
    let step = sh.execute("mv a.txt b.txt");
    let step = answer(&mut sh, step, metadata("/home/user/a.txt"), a_file());
    let step = answer(&mut sh, step, metadata("/home/user/b.txt"), missing());
    let step = answer(&mut sh, step, metadata("/home/user"), a_dir());
    let step = answer(
        &mut sh,
        step,
        Request::Rename("/home/user/a.txt".to_string(), "/home/user/b.txt".to_string()),
        failure(ErrorKind::PermissionDenied, "Permission denied (os error 13)"),
    );
    assert_eq!(step, io(ErrorKind::PermissionDenied, "mv: cannot move 'a.txt' to 'b.txt'"));
}

fn mv_until_rename(sh: &mut Shell) -> Step {
    let step = sh.execute("mv a.txt /mnt/b.txt");
    let step = answer(sh, step, metadata("/home/user/a.txt"), a_file());
    let step = answer(sh, step, metadata("/mnt/b.txt"), missing());
    let step = answer(sh, step, metadata("/mnt"), a_dir());
    answer(
        sh,
        step,
        Request::Rename("/home/user/a.txt".to_string(), "/mnt/b.txt".to_string()),
        failure(ErrorKind::CrossDevice, "Invalid cross-device link (os error 18)"),
    )
}

#[test]
fn mv_across_devices_copies_and_removes() {
    let mut sh = shell();
    let step = mv_until_rename(&mut sh);
    let step = answer(&mut sh, step, metadata("/home/user/a.txt"), a_file());
    let step = answer(
        &mut sh,
        step,
        Request::CopyFile("/home/user/a.txt".to_string(), "/mnt/b.txt".to_string()),
        Reply::Done,
    );
    let step = answer(&mut sh, step, Request::RemoveFile("/home/user/a.txt".to_string()), Reply::Done);
    assert_eq!(step, ok());
}

#[test]
fn mv_across_devices_keeps_the_source_when_the_copy_fails() {
    let mut sh = shell();
    let step = mv_until_rename(&mut sh);
    let step = answer(&mut sh, step, metadata("/home/user/a.txt"), a_file());
    let step = answer(
        &mut sh,
        step,
        Request::CopyFile("/home/user/a.txt".to_string(), "/mnt/b.txt".to_string()),
        failure(ErrorKind::Other, "No space left on device (os error 28)"),
    );
    assert_eq!(step, io(ErrorKind::Other, "mv: cannot move 'a.txt' to '/mnt/b.txt'"));
}

#[test]
fn mv_across_devices_reports_a_failed_removal() {
    let mut sh = shell();
    let step = mv_until_rename(&mut sh);
    let step = answer(&mut sh, step, metadata("/home/user/a.txt"), a_file());
    let step = answer(
        &mut sh,
        step,
        Request::CopyFile("/home/user/a.txt".to_string(), "/mnt/b.txt".to_string()),
        Reply::Done,
    );
    let step = answer(
        &mut sh,
        step,
        Request::RemoveFile("/home/user/a.txt".to_string()),
        failure(ErrorKind::PermissionDenied, "Permission denied (os error 13)"),
    );
    assert_eq!(step, io(ErrorKind::PermissionDenied, "mv: cannot remove 'a.txt'"));
}

// ------------------------------------------------------------ copy_dir_all

fn copy_asked(step: CopyStep) -> CopyState {
    match step {
        CopyStep::Ask(state) => state,
        other => panic!("the copy does not wait: {:?}", other),
    }
}

fn copy_answer(step: CopyStep, request: Request, reply: Reply) -> CopyStep {
    let state = copy_asked(step);
    assert_eq!(state.request(), request);
    assert!(request.accepts(&reply));
    copy_dir_resume(state, reply)
}

#[test]
fn copy_dir_all_goes_through_the_tree_depth_first() {
    let step = copy_dir_all("/src", "/dst");
    let step = copy_answer(step, metadata("/dst"), missing());
    let step = copy_answer(step, Request::CreateDirAll("/dst".to_string()), Reply::Done);
    let step = copy_answer(
        step,
        Request::ReadDir("/src".to_string()),
        Reply::Entries(vec![entry("a", 0o100644), entry("sub", 0o040755), entry("z", 0o100644)]),
    );
    let step = copy_answer(step, Request::CopyFile("/src/a".to_string(), "/dst/a".to_string()), Reply::Done);
    let step = copy_answer(step, metadata("/dst/sub"), a_dir());
    let step = copy_answer(
        step,
        Request::ReadDir("/src/sub".to_string()),
        Reply::Entries(vec![entry("empty", 0o040755), entry("b", 0o100644)]),
    );
    let step = copy_answer(step, metadata("/dst/sub/empty"), missing());
    let step = copy_answer(step, Request::CreateDirAll("/dst/sub/empty".to_string()), Reply::Done);
    let step = copy_answer(step, Request::ReadDir("/src/sub/empty".to_string()), Reply::Entries(Vec::new()));
    let step = copy_answer(step, Request::CopyFile("/src/sub/b".to_string(), "/dst/sub/b".to_string()), Reply::Done);
    let step = copy_answer(step, Request::CopyFile("/src/z".to_string(), "/dst/z".to_string()), Reply::Done);
    assert_eq!(step, CopyStep::Done(Ok(())));
}

#[test]
fn copy_dir_all_of_an_empty_directory() {
    let step = copy_dir_all("/src", "/dst");
    let step = copy_answer(step, metadata("/dst"), a_dir());
    let step = copy_answer(step, Request::ReadDir("/src".to_string()), Reply::Entries(Vec::new()));
    assert_eq!(step, CopyStep::Done(Ok(())));
}

#[test]
fn copy_dir_all_copies_a_link_as_a_link() {
    let mut link = entry("link", 0o120777);
    link.link = Some("../elsewhere".to_string());
    let step = copy_dir_all("/src", "/dst");
    let step = copy_answer(step, metadata("/dst"), a_dir());
    let step = copy_answer(
        step,
        Request::ReadDir("/src".to_string()),
        Reply::Entries(vec![link, entry("file", 0o100644)]),
    );
    let step = copy_answer(step, Request::Symlink("../elsewhere".to_string(), "/dst/link".to_string()), Reply::Done);
    let step = copy_answer(step, Request::CopyFile("/src/file".to_string(), "/dst/file".to_string()), Reply::Done);
    assert_eq!(step, CopyStep::Done(Ok(())));
}

#[test]
fn copy_dir_all_ends_where_a_link_cannot_be_made() {
    let exists = IoError::new(ErrorKind::AlreadyExists, "File exists (os error 17)".to_string());
    let mut link = entry("link", 0o120777);
    link.link = Some("target".to_string());
    let step = copy_dir_all("/src", "/dst");
    let step = copy_answer(step, metadata("/dst"), a_dir());
    let step = copy_answer(step, Request::ReadDir("/src".to_string()), Reply::Entries(vec![link, entry("file", 0o100644)]));
    let step = copy_answer(step, Request::Symlink("target".to_string(), "/dst/link".to_string()), Reply::Failed(exists.clone()));
    assert_eq!(step, CopyStep::Done(Err(exists)));
}

#[test]
fn copy_dir_all_ends_at_a_link_that_cannot_be_read() {
    let step = copy_dir_all("/src", "/dst");
    let step = copy_answer(step, metadata("/dst"), a_dir());
    let step = copy_answer(
        step,
        Request::ReadDir("/src".to_string()),
        Reply::Entries(vec![entry("a", 0o100644), entry("link", 0o120777), entry("z", 0o100644)]),
    );
    let step = copy_answer(step, Request::CopyFile("/src/a".to_string(), "/dst/a".to_string()), Reply::Done);
    assert_eq!(
        step,
        CopyStep::Done(Err(IoError::new(ErrorKind::Other, "cannot read link '/src/link'".to_string())))
    );
}

#[test]
fn copy_dir_all_ends_with_the_first_error() {
    let denied = IoError::new(ErrorKind::PermissionDenied, "Permission denied (os error 13)".to_string());
    let step = copy_dir_all("/src", "/dst");
    let step = copy_answer(step, metadata("/dst"), missing());
    let step = copy_answer(step, Request::CreateDirAll("/dst".to_string()), Reply::Failed(denied.clone()));
    assert_eq!(step, CopyStep::Done(Err(denied.clone())));

    let step = copy_dir_all("/src", "/dst");
    let step = copy_answer(step, metadata("/dst"), a_dir());
    let step = copy_answer(step, Request::ReadDir("/src".to_string()), Reply::Failed(denied.clone()));
    assert_eq!(step, CopyStep::Done(Err(denied.clone())));

    let step = copy_dir_all("/src", "/dst");
    let step = copy_answer(step, metadata("/dst"), a_dir());
    let step = copy_answer(
        step,
        Request::ReadDir("/src".to_string()),
        Reply::Entries(vec![entry("a", 0o100644), entry("b", 0o100644)]),
    );
    let step = copy_answer(step, Request::CopyFile("/src/a".to_string(), "/dst/a".to_string()), Reply::Failed(denied.clone()));
    assert_eq!(step, CopyStep::Done(Err(denied)));
}

#[test]
fn cp_of_a_directory_copies_the_tree() {
    let mut sh = shell();
    let step = sh.execute("cp dir copy");
    let step = answer(&mut sh, step, metadata("/home/user/dir"), a_dir());
    let step = answer(&mut sh, step, metadata("/home/user/copy"), missing());
    let step = answer(&mut sh, step, metadata("/home/user"), a_dir());
    let step = answer(&mut sh, step, metadata("/home/user/dir"), a_dir());
    let step = answer(&mut sh, step, metadata("/home/user/copy"), missing());
    let step = answer(&mut sh, step, Request::CreateDirAll("/home/user/copy".to_string()), Reply::Done);
    let step = answer(
        &mut sh,
        step,
        Request::ReadDir("/home/user/dir".to_string()),
        Reply::Entries(vec![entry("f", 0o100644)]),
    );
    let step = answer(
        &mut sh,
        step,
        Request::CopyFile("/home/user/dir/f".to_string(), "/home/user/copy/f".to_string()),
        Reply::Done,
    );
    assert_eq!(step, ok());
}

#[test]
fn cp_of_a_directory_that_fails_names_both_arguments() {
    let mut sh = shell();
    let step = sh.execute("cp dir copy");
    let step = answer(&mut sh, step, metadata("/home/user/dir"), a_dir());
    let step = answer(&mut sh, step, metadata("/home/user/copy"), missing());
    let step = answer(&mut sh, step, metadata("/home/user"), a_dir());
    let step = answer(&mut sh, step, metadata("/home/user/dir"), a_dir());
    let step = answer(&mut sh, step, metadata("/home/user/copy"), a_dir());
    let step = answer(&mut sh, step, Request::ReadDir("/home/user/dir".to_string()), missing());
    assert_eq!(step, io(ErrorKind::NotFound, "cp: cannot copy 'dir' to 'copy'"));
}

#[test]
fn mv_of_a_directory_across_devices() {
    let mut sh = shell();
    let step = sh.execute("mv dir /mnt");
    let step = answer(&mut sh, step, metadata("/home/user/dir"), a_dir());
    let step = answer(&mut sh, step, metadata("/mnt"), a_dir());
    let step = answer(&mut sh, step, metadata("/mnt"), a_dir());
    let step = answer(
        &mut sh,
        step,
        Request::Rename("/home/user/dir".to_string(), "/mnt/dir".to_string()),
        failure(ErrorKind::CrossDevice, "Invalid cross-device link (os error 18)"),
    );
    let step = answer(&mut sh, step, metadata("/home/user/dir"), a_dir());
    let step = answer(&mut sh, step, metadata("/mnt/dir"), missing());
    let step = answer(&mut sh, step, Request::CreateDirAll("/mnt/dir".to_string()), Reply::Done);
    let step = answer(&mut sh, step, Request::ReadDir("/home/user/dir".to_string()), Reply::Entries(vec![entry("f", 0o100644)]));
    let step = answer(
        &mut sh,
        step,
        Request::CopyFile("/home/user/dir/f".to_string(), "/mnt/dir/f".to_string()),
        Reply::Done,
    );
    let step = answer(&mut sh, step, Request::RemoveDirAll("/home/user/dir".to_string()), Reply::Done);
    assert_eq!(step, ok());
}

// ------------------------------------------------------------ the protocol

#[test]
fn a_failure_answers_every_request() {
    let requests = [
        Request::HomeDir,
        metadata("/a"),
        Request::ReadDir("/a".to_string()),
        Request::ListDir("/a".to_string()),
        Request::ReadFile("/a".to_string()),
        Request::CreateDir("/a".to_string()),
        Request::CreateDirAll("/a".to_string()),
        Request::CopyFile("/a".to_string(), "/b".to_string()),
        Request::Symlink("/a".to_string(), "/b".to_string()),
        Request::Rename("/a".to_string(), "/b".to_string()),
        Request::RemoveFile("/a".to_string()),
        Request::RemoveDirAll("/a".to_string()),
        Request::OpenForWrite("/a".to_string()),
        Request::CreateFile("/a".to_string()),
        Request::SetCurrentDir("/a".to_string()),
    ];
    for request in &requests {
        assert!(request.accepts(&missing()));
    }
}

#[test]
fn every_request_has_its_kind_of_answer() {
    let text = Reply::Text("x".to_string());
    let entries = Reply::Entries(Vec::new());
    assert!(Request::HomeDir.accepts(&text));
    assert!(!Request::HomeDir.accepts(&Reply::Done));
    assert!(metadata("/a").accepts(&a_dir()));
    assert!(!metadata("/a").accepts(&text));
    assert!(Request::ReadDir("/a".to_string()).accepts(&entries));
    assert!(!Request::ReadDir("/a".to_string()).accepts(&a_dir()));
    assert!(Request::ListDir("/a".to_string()).accepts(&entries));
    assert!(!Request::ListDir("/a".to_string()).accepts(&Reply::Done));
    assert!(Request::ReadFile("/a".to_string()).accepts(&text));
    assert!(!Request::ReadFile("/a".to_string()).accepts(&entries));
    for request in [
        Request::CreateDir("/a".to_string()),
        Request::CreateDirAll("/a".to_string()),
        Request::CopyFile("/a".to_string(), "/b".to_string()),
        Request::Symlink("/a".to_string(), "/b".to_string()),
        Request::Rename("/a".to_string(), "/b".to_string()),
        Request::RemoveFile("/a".to_string()),
        Request::RemoveDirAll("/a".to_string()),
        Request::OpenForWrite("/a".to_string()),
        Request::CreateFile("/a".to_string()),
        Request::SetCurrentDir("/a".to_string()),
    ] {
        assert!(request.accepts(&Reply::Done));
        assert!(!request.accepts(&text));
        assert!(!request.accepts(&a_dir()));
        assert!(!request.accepts(&entries));
    }
}

#[test]
fn replies_tell_what_was_found() {
    assert!(a_dir().found());
    assert!(a_dir().is_dir());
    assert!(a_file().found());
    assert!(!a_file().is_dir());
    assert!(!missing().found());
    assert!(!missing().is_dir());
    assert!(!Reply::Done.found());
}
