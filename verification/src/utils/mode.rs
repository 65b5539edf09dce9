//! What the mode word of a file says: its type and its permission bits.

use vstd::prelude::*;

verus! {

/// The kinds of file a listing tells apart.
#[derive(Clone, Copy, Debug, PartialEq, Eq, Structural)]
pub enum FileType {
    Directory,
    Symlink,
    CharDevice,
    BlockDevice,
    Fifo,
    Socket,
    Regular,
}

/// The file type that the type bits of `mode` encode; anything that is none
/// of the six special types counts as a regular file.
pub open spec fn file_type_of(mode: u32) -> FileType {
    let bits = mode & 0o170000;
    if bits == 0o040000 {
        FileType::Directory
    } else if bits == 0o120000 {
        FileType::Symlink
    } else if bits == 0o020000 {
        FileType::CharDevice
    } else if bits == 0o060000 {
        FileType::BlockDevice
    } else if bits == 0o010000 {
        FileType::Fifo
    } else if bits == 0o140000 {
        FileType::Socket
    } else {
        FileType::Regular
    }
}

/// The first column of a long listing line.
pub open spec fn type_letter(file_type: FileType) -> Seq<char> {
    match file_type {
        FileType::Directory => "d"@,
        FileType::Symlink => "l"@,
        FileType::CharDevice => "c"@,
        FileType::BlockDevice => "b"@,
        FileType::Fifo => "p"@,
        FileType::Socket => "s"@,
        FileType::Regular => "-"@,
    }
}

/// Whether bit `bit` (0 is the lowest) of `mode` is set.
pub open spec fn has_bit(mode: u32, bit: u32) -> bool {
    mode & (1u32 << bit) != 0
}

/// Whether any of the three execute bits of `mode` is set.
pub open spec fn is_executable(mode: u32) -> bool {
    mode & 0o111 != 0
}

/// `letter` if bit `bit` of `mode` is set, a dash if not.
pub open spec fn permission_char(mode: u32, bit: u32, letter: char) -> char {
    if has_bit(mode, bit) {
        letter
    } else {
        '-'
    }
}

/// The nine permission characters of `mode`: read, write and execute for the
/// owner, then for the group, then for everyone else.
pub open spec fn permissions_text(mode: u32) -> Seq<char> {
    seq![
        permission_char(mode, 8, 'r'),
        permission_char(mode, 7, 'w'),
        permission_char(mode, 6, 'x'),
        permission_char(mode, 5, 'r'),
        permission_char(mode, 4, 'w'),
        permission_char(mode, 3, 'x'),
        permission_char(mode, 2, 'r'),
        permission_char(mode, 1, 'w'),
        permission_char(mode, 0, 'x'),
    ]
}

pub fn file_type(mode: u32) -> (t: FileType)
    ensures
        t == file_type_of(mode),
{
    let bits = mode & 0o170000;
    if bits == 0o040000 {
        FileType::Directory
    } else if bits == 0o120000 {
        FileType::Symlink
    } else if bits == 0o020000 {
        FileType::CharDevice
    } else if bits == 0o060000 {
        FileType::BlockDevice
    } else if bits == 0o010000 {
        FileType::Fifo
    } else if bits == 0o140000 {
        FileType::Socket
    } else {
        FileType::Regular
    }
}

pub fn type_letter_of(file_type: FileType) -> (letter: &'static str)
    ensures
        letter@ == type_letter(file_type),
{
    match file_type {
        FileType::Directory => "d",
        FileType::Symlink => "l",
        FileType::CharDevice => "c",
        FileType::BlockDevice => "b",
        FileType::Fifo => "p",
        FileType::Socket => "s",
        FileType::Regular => "-",
    }
}

pub fn executable(mode: u32) -> (r: bool)
    ensures
        r == is_executable(mode),
{
    mode & 0o111 != 0
}

fn permission_flag(mode: u32, bit: u32, letter: char) -> (c: char)
    requires
        bit < 9,
    ensures
        c == permission_char(mode, bit, letter),
{
    if mode & (1u32 << bit) != 0 {
        letter
    } else {
        '-'
    }
}

/// Appends the nine permission characters of `mode` to `out`.
pub fn push_permissions(out: &mut String, mode: u32)
    ensures
        final(out)@ == old(out)@ + permissions_text(mode),
{
    let mut group: u32 = 3;
    while group > 0
        invariant
            group <= 3,
            out@ == old(out)@ + permissions_text(mode).take(9 - 3 * group),
        decreases group,
    {
        group -= 1;
        let offset: u32 = group * 3;
        out.push(permission_flag(mode, offset + 2, 'r'));
        out.push(permission_flag(mode, offset + 1, 'w'));
        out.push(permission_flag(mode, offset, 'x'));
    }
}

/// The nine permission characters of `mode`, such as `rwxr-xr-x`.
pub fn permissions_string(mode: u32) -> (text: String)
    ensures
        text@ == permissions_text(mode),
{
    let mut text = String::new();
    push_permissions(&mut text, mode);
    text
}

} // verus!
