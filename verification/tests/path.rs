use shell::utils::error::{ErrorKind, ShellError};
use shell::utils::path::{file_name_of, get_home_dir, join_path, parent_of, resolve};
use std::path::Path;

#[test]
fn join_puts_one_separator_between() {
    assert_eq!(join_path("/home/user", "file.txt"), "/home/user/file.txt");
    assert_eq!(join_path("/home/user/", "file.txt"), "/home/user/file.txt");
    assert_eq!(join_path("/", "tmp"), "/tmp");
    assert_eq!(join_path("/a", "b/c"), "/a/b/c");
    assert_eq!(join_path("/a", ".."), "/a/..");
}

#[test]
fn join_with_an_absolute_path_gives_that_path() {
    assert_eq!(join_path("/home/user", "/etc/passwd"), "/etc/passwd");
    assert_eq!(join_path("", "/etc"), "/etc");
    assert_eq!(join_path("/a", "/"), "/");
}

#[test]
fn join_with_empty_parts() {
    assert_eq!(join_path("", "a"), "a");
    assert_eq!(join_path("/a", ""), "/a/");
    assert_eq!(join_path("", ""), "");
}

#[test]
fn join_agrees_with_the_standard_library() {
    for base in ["", "/", "/a", "/a/", "a", "a/b", "/a//", "."] {
        for rel in ["", "b", "b/c", "/b", "..", ".", "/", "b/"] {
            let expected = Path::new(base).join(rel);
            assert_eq!(join_path(base, rel), expected.to_str().unwrap(), "{:?} {:?}", base, rel);
        }
    }
}

const PATHS: [&str; 30] = [
    "", "/", "//", ".", "..", "a", "/a", "a/", "/a/", "a/b", "/a/b", "/a/b/", "/a//b", "/a/./b",
    "/a/b/.", "/a/b/./", "/a/b/..", "/a/..", "./a", "./", "./.", "a/.", "...", "/...", "a/..b",
    ".a", "/.", "/..", "a//", "/a/b//./",
];

#[test]
fn file_name_is_the_final_component() {
    assert_eq!(file_name_of("/home/user/file.txt"), Some("file.txt".to_string()));
    assert_eq!(file_name_of("dir/"), Some("dir".to_string()));
    assert_eq!(file_name_of("/a/b/."), Some("b".to_string()));
    assert_eq!(file_name_of("/"), None);
    assert_eq!(file_name_of(""), None);
    assert_eq!(file_name_of("/a/.."), None);
    assert_eq!(file_name_of("."), None);
}

#[test]
fn file_name_agrees_with_the_standard_library() {
    for path in PATHS {
        let expected = Path::new(path).file_name().map(|n| n.to_str().unwrap().to_string());
        assert_eq!(file_name_of(path), expected, "{:?}", path);
    }
}

#[test]
fn parent_drops_the_final_component() {
    assert_eq!(parent_of("/home/user/file.txt"), Some("/home/user".to_string()));
    assert_eq!(parent_of("/a"), Some("/".to_string()));
    assert_eq!(parent_of("a"), Some("".to_string()));
    assert_eq!(parent_of("/a/b/"), Some("/a".to_string()));
    assert_eq!(parent_of("/"), None);
    assert_eq!(parent_of(""), None);
}

#[test]
fn parent_agrees_with_the_standard_library() {
    for path in PATHS {
        let expected = Path::new(path).parent().map(|n| n.to_str().unwrap().to_string());
        assert_eq!(parent_of(path), expected, "{:?}", path);
    }
}

#[test]
fn step_back_drops_two_components() {
    assert_eq!(resolve("/a/b/.."), "/a");
    assert_eq!(resolve("/home/user/docs/.."), "/home/user");
}

#[test]
fn step_back_stops_at_the_root() {
    assert_eq!(resolve("/a/.."), "/");
    assert_eq!(resolve("/.."), "/");
    assert_eq!(resolve(".."), "/");
    assert_eq!(resolve(""), "/");
}

#[test]
fn resolve_keeps_a_resolved_path() {
    for path in ["/", "/a", "/a/b", "/home/user/.config", "/a/...", "/a/..b", "/é/日本"] {
        assert_eq!(resolve(path), path);
    }
}

#[test]
fn resolve_takes_every_parent_step() {
    assert_eq!(resolve("/x/y/z/../.."), "/x");
    assert_eq!(resolve("/x/y/z/../../.."), "/");
    assert_eq!(resolve("/x/y/z/../../../.."), "/");
    assert_eq!(resolve("/a/b/../.."), "/");
    assert_eq!(resolve("/a/../b"), "/b");
    assert_eq!(resolve("/a/b/../c/../d"), "/a/d");
    assert_eq!(resolve("/../a"), "/a");
}

#[test]
fn resolve_drops_what_does_not_count() {
    assert_eq!(resolve("/a/"), "/a");
    assert_eq!(resolve("/a//b"), "/a/b");
    assert_eq!(resolve("//"), "/");
    assert_eq!(resolve("/a/./b/."), "/a/b");
    assert_eq!(resolve("/./"), "/");
    assert_eq!(resolve("/a/../"), "/");
    assert_eq!(resolve("/a/b/../../"), "/");
}

#[test]
fn resolve_reads_any_text_from_the_root() {
    assert_eq!(resolve("a/b"), "/a/b");
    assert_eq!(resolve("."), "/");
    assert_eq!(resolve("a/.."), "/");
}

#[test]
fn resolve_agrees_with_walking_the_components() {
    for path in PATHS {
        let mut parts: Vec<&str> = Vec::new();
        for part in path.split('/') {
            match part {
                "" | "." => {}
                ".." => {
                    parts.pop();
                }
                name => parts.push(name),
            }
        }
        assert_eq!(resolve(path), format!("/{}", parts.join("/")), "{:?}", path);
    }
}

#[test]
fn home_directory_is_what_the_environment_holds() {
    assert_eq!(get_home_dir(Some("/home/alice".to_string())), Ok("/home/alice".to_string()));
    assert_eq!(get_home_dir(Some("".to_string())), Ok("".to_string()));
}

#[test]
fn missing_home_directory_is_an_error() {
    assert_eq!(
        get_home_dir(None),
        Err(ShellError::io(ErrorKind::NotFound, "home directory not found".to_string()))
    );
}
