use shell::commands::listing::{
    block_total, hidden, name_comes_first, render_listing, select_shown, sort_entries, Flags,
};
use shell::host::{DirEntry, FileMeta};

const PASSWD: &str = "root:x:0:0::/root:/bin/sh\nalice:x:1000:100::/home/alice:/bin/sh\n";
const GROUP: &str = "root:x:0:\nusers:x:100:\n";

fn meta(mode: u32, size: u64, blocks: u64) -> FileMeta {
    FileMeta { mode, nlink: 1, uid: 1000, gid: 100, size, rdev: 0, blocks, modified: 0 }
}

fn entry(name: &str, meta: FileMeta) -> DirEntry {
    DirEntry { name: name.to_string(), meta, link: None }
}

fn file(name: &str) -> DirEntry {
    entry(name, meta(0o100644, 10, 8))
}

fn dir(name: &str) -> DirEntry {
    entry(name, meta(0o040755, 4096, 8))
}

fn flags(all: bool, long: bool, classify: bool) -> Flags {
    Flags { all, long, classify }
}

fn names(entries: &[&DirEntry]) -> Vec<String> {
    entries.iter().map(|e| e.name.clone()).collect()
}

#[test]
fn names_are_ordered_by_their_bytes() {
    assert!(name_comes_first("a", "b"));
    assert!(!name_comes_first("b", "a"));
    assert!(name_comes_first("a", "a"));
    assert!(name_comes_first("", "a"));
    assert!(!name_comes_first("a", ""));
    assert!(name_comes_first("a", "ab"));
    assert!(!name_comes_first("ab", "a"));
    assert!(name_comes_first("B", "a"));
    assert!(name_comes_first(".", ".."));
    assert!(name_comes_first("..", ".a"));
    assert!(name_comes_first("z", "é"));
    assert!(name_comes_first("10", "9"));
}

#[test]
fn name_order_agrees_with_the_standard_library() {
    let all = ["", "a", "A", "ab", "b", ".", "..", ".a", "é", "z", "~", "10", "9", "a b", "日本"];
    for a in all {
        for b in all {
            assert_eq!(name_comes_first(a, b), a <= b, "{:?} {:?}", a, b);
        }
    }
}

#[test]
fn entries_are_sorted_by_name() {
    let entries = vec![file("pear"), file("apple"), dir("Zoo"), file(".rc"), file("fig")];
    let sorted = sort_entries(&entries);
    assert_eq!(names(&sorted), vec![".rc", "Zoo", "apple", "fig", "pear"]);
}

#[test]
fn sorting_does_not_depend_on_the_order_given() {
    let mut entries = vec![file("c"), file("a"), file("e"), file("b"), file("d")];
    let expected = vec!["a", "b", "c", "d", "e"];
    for _ in 0..5 {
        entries.rotate_left(1);
        assert_eq!(names(&sort_entries(&entries)), expected);
        entries.reverse();
        assert_eq!(names(&sort_entries(&entries)), expected);
    }
}

#[test]
fn sorting_keeps_every_entry() {
    let entries = vec![file("b"), dir("a"), file("b"), file("a")];
    let sorted = sort_entries(&entries);
    assert_eq!(names(&sorted), vec!["a", "a", "b", "b"]);
    // entries of one name stay in the order they came in
    assert!(sorted[0].meta.is_dir());
    assert!(!sorted[1].meta.is_dir());
    assert_eq!(sort_entries(&Vec::new()).len(), 0);
}

#[test]
fn hidden_names_start_with_a_dot() {
    assert!(hidden(".profile"));
    assert!(hidden("."));
    assert!(hidden(".."));
    assert!(!hidden("profile"));
    assert!(!hidden("a.b"));
    assert!(!hidden(""));
}

#[test]
fn hidden_entries_are_left_out_unless_all_are_shown() {
    let entries = vec![file(".a"), file("b"), dir(".c"), file("d")];
    let sorted = sort_entries(&entries);
    assert_eq!(names(&select_shown(&sorted, false)), vec!["b", "d"]);
    assert_eq!(names(&select_shown(&sorted, true)), vec![".a", ".c", "b", "d"]);
}

#[test]
fn blocks_add_up() {
    let entries = vec![entry("a", meta(0o100644, 1, 8)), entry("b", meta(0o100644, 1, 16)), entry("c", meta(0o100644, 1, 1))];
    let refs: Vec<&DirEntry> = entries.iter().collect();
    assert_eq!(block_total(&refs), 25);
    assert_eq!(block_total(&Vec::new()), 0);
    let big = vec![entry("a", meta(0o100644, 1, u64::MAX)), entry("b", meta(0o100644, 1, u64::MAX))];
    let refs: Vec<&DirEntry> = big.iter().collect();
    assert_eq!(block_total(&refs), 2 * (u64::MAX as u128));
}

#[test]
fn short_listing() {
    let entries = vec![file("b.txt"), file(".hidden"), dir("a"), entry("run.sh", meta(0o100755, 10, 8))];
    let text = render_listing(&entries, flags(false, false, false), "", "");
    assert_eq!(text, "\x1b[1;34ma\x1b[0m  \x1b[0mb.txt\x1b[0m  \x1b[1;32mrun.sh\x1b[0m  \n");
}

#[test]
fn short_listing_of_nothing_is_an_empty_line() {
    assert_eq!(render_listing(&Vec::new(), flags(false, false, false), "", ""), "\n");
    assert_eq!(render_listing(&vec![file(".a")], flags(false, false, false), "", ""), "\n");
}

#[test]
fn short_listing_with_all() {
    let entries = vec![dir("."), dir(".."), file("b.txt"), file(".hidden"), dir("a")];
    let text = render_listing(&entries, flags(true, false, false), "", "");
    assert_eq!(
        text,
        "\x1b[1;34m.\x1b[0m  \x1b[1;34m..\x1b[0m  \x1b[0m.hidden\x1b[0m  \x1b[1;34ma\x1b[0m  \x1b[0mb.txt\x1b[0m  \n"
    );
}

#[test]
fn short_listing_with_marks() {
    let mut link = entry("link", meta(0o120777, 3, 0));
    link.link = Some("a".to_string());
    let entries = vec![file("b.txt"), dir("a"), entry("run.sh", meta(0o100755, 10, 8)), link, entry("pipe", meta(0o010644, 0, 0))];
    let text = render_listing(&entries, flags(false, false, true), "", "");
    assert_eq!(
        text,
        "\x1b[1;34ma/\x1b[0m  \x1b[0mb.txt\x1b[0m  \x1b[36mlink\x1b[0m  \x1b[0mpipe\x1b[0m  \x1b[1;32mrun.sh*\x1b[0m  \n"
    );
}

#[test]
fn long_listing() {
    let mut docs = dir("docs");
    docs.meta.nlink = 2;
    docs.meta.modified = 86_400;
    let mut notes = entry("notes.txt", meta(0o100644, 120, 8));
    notes.meta.uid = 0;
    notes.meta.gid = 0;
    let mut link = entry("link", meta(0o120777, 9, 0));
    link.link = Some("notes.txt".to_string());
    let mut tty = entry("tty", meta(0o020620, 0, 0));
    tty.meta.rdev = (4 << 8) | 1;
    let entries = vec![tty, notes, link, docs];
    let text = render_listing(&entries, flags(false, true, false), PASSWD, GROUP);
    let expected = [
        "total 8\n",
        "d", "rwxr-xr-x", " ", " 2", " ", "alice  ", " ", "users  ", " ", "         4096", " ", "Jan  2 00:00", " ", "\x1b[1;34m", "docs", "\x1b[0m", "\n",
        "l", "rwxrwxrwx", " ", " 1", " ", "alice  ", " ", "users  ", " ", "            9", " ", "Jan  1 00:00", " ", "\x1b[36m", "link -> notes.txt", "\x1b[0m", "\n",
        "-", "rw-r--r--", " ", " 1", " ", "root   ", " ", "root   ", " ", "          120", " ", "Jan  1 00:00", " ", "\x1b[0m", "notes.txt", "\x1b[0m", "\n",
        "c", "rw--w----", " ", " 1", " ", "alice  ", " ", "users  ", " ", "  4, ", "       1", " ", "Jan  1 00:00", " ", "\x1b[33m", "tty", "\x1b[0m", "\n",
    ]
    .concat();
    assert_eq!(text, expected);
}

#[test]
fn long_listing_line_by_line() {
    let entries = vec![entry("file.txt", meta(0o100644, 1234, 8))];
    let text = render_listing(&entries, flags(false, true, false), PASSWD, GROUP);
    assert_eq!(
        text,
        "total 4\n-rw-r--r--  1 alice   users            1234 Jan  1 00:00 \x1b[0mfile.txt\x1b[0m\n"
    );
}

#[test]
fn long_listing_of_nothing_is_the_total_alone() {
    assert_eq!(render_listing(&Vec::new(), flags(false, true, false), PASSWD, GROUP), "total 0\n");
}

#[test]
fn total_counts_only_what_is_shown() {
    let entries = vec![entry(".big", meta(0o100644, 1, 1000)), entry("small", meta(0o100644, 1, 3))];
    let shown = render_listing(&entries, flags(false, true, false), "", "");
    assert!(shown.starts_with("total 1\n"));
    let all = render_listing(&entries, flags(true, true, false), "", "");
    assert!(all.starts_with("total 501\n"));
}

#[test]
fn unknown_owners_show_the_sentinel() {
    let entries = vec![entry("f", meta(0o100600, 0, 0))];
    let text = render_listing(&entries, flags(false, true, false), "", "");
    assert_eq!(
        text,
        "total 0\n-rw-------  1 ERROR   ERROR               0 Jan  1 00:00 \x1b[0mf\x1b[0m\n"
    );
}

#[test]
fn wide_fields_are_not_cut() {
    let mut e = entry("f", meta(0o100644, 12_345_678_901_234, 0));
    e.meta.nlink = 123;
    let text = render_listing(&vec![e], flags(false, true, false), "averylongname:x:1000:\n", "g:x:100:\n");
    assert_eq!(
        text,
        "total 0\n-rw-r--r-- 123 averylongname g       12345678901234 Jan  1 00:00 \x1b[0mf\x1b[0m\n"
    );
}

#[test]
fn block_device_shows_major_and_minor() {
    let mut e = entry("sda", meta(0o060660, 0, 0));
    e.meta.rdev = (8 << 8) | 17;
    let text = render_listing(&vec![e], flags(false, true, false), PASSWD, GROUP);
    assert_eq!(
        text,
        "total 0\nbrw-rw----  1 alice   users     8,       17 Jan  1 00:00 \x1b[35msda\x1b[0m\n"
    );
}

#[test]
fn device_numbers_are_masked() {
    let mut e = entry("dev", meta(0o020600, 0, 0));
    e.meta.rdev = 0xfff_ffff;
    let text = render_listing(&vec![e], flags(false, true, false), PASSWD, GROUP);
    assert!(text.contains(" 4095,      255 "), "{:?}", text);
}

#[test]
fn unreadable_link_shows_an_empty_target() {
    let e = entry("dangling", meta(0o120777, 0, 0));
    let text = render_listing(&vec![e], flags(false, true, true), PASSWD, GROUP);
    assert!(text.ends_with("\x1b[36mdangling -> \x1b[0m\n"), "{:?}", text);
}

#[test]
fn long_listing_with_marks() {
    let entries = vec![dir("d"), entry("x", meta(0o100711, 0, 0)), file("f")];
    let text = render_listing(&entries, flags(false, true, true), PASSWD, GROUP);
    let lines: Vec<&str> = text.lines().collect();
    assert_eq!(lines.len(), 4);
    assert!(lines[1].ends_with("\x1b[1;34md/\x1b[0m"));
    assert!(lines[2].ends_with("\x1b[0mf\x1b[0m"));
    assert!(lines[3].ends_with("\x1b[1;32mx*\x1b[0m"));
    assert!(lines[3].starts_with("-rwx--x--x "));
}
