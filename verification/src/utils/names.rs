//! Names of users and groups, looked up in the text of a database with one
//! entry per line and the fields of an entry separated by colons: the name
//! first, the number third.

use crate::utils::text::{chars_of, split, split_chars, string_of, views};
use vstd::prelude::*;

verus! {

pub open spec fn is_digit(c: char) -> bool {
    0x30 <= c as u32 <= 0x39
}

pub open spec fn digit_value(c: char) -> nat {
    (c as u32 - 0x30) as nat
}

/// The number that the decimal digits `digits` write.
pub open spec fn digits_value(digits: Seq<char>) -> nat
    decreases digits.len(),
{
    if digits.len() == 0 {
        0
    } else {
        digits_value(digits.drop_last()) * 10 + digit_value(digits.last())
    }
}

pub open spec fn all_digits(text: Seq<char>) -> bool {
    forall|i: int| 0 <= i < text.len() ==> is_digit(#[trigger] text[i])
}

/// The number that `text` writes: one or more decimal digits, with an
/// optional `+` in front, of a value that fits in 32 bits.
pub open spec fn parse_u32(text: Seq<char>) -> Option<u32> {
    let digits = if text.len() > 0 && text[0] == '+' {
        text.skip(1)
    } else {
        text
    };
    if digits.len() > 0 && all_digits(digits) && digits_value(digits) <= u32::MAX {
        Some(digits_value(digits) as u32)
    } else {
        None
    }
}

/// A piece of text that ended in a line feed, without the carriage return
/// that may precede it.
pub open spec fn strip_cr(piece: Seq<char>) -> Seq<char> {
    if piece.len() > 0 && piece.last() == '\r' {
        piece.drop_last()
    } else {
        piece
    }
}

/// The lines of `text`. A line ends with a line feed, or a carriage return
/// and a line feed, or with the text; what follows the last line feed is a
/// line only if it is not empty.
pub open spec fn lines(text: Seq<char>) -> Seq<Seq<char>> {
    let pieces = split(text, '\n');
    let ended = pieces.drop_last().map_values(|piece: Seq<char>| strip_cr(piece));
    if pieces.last().len() == 0 {
        ended
    } else {
        ended.push(pieces.last())
    }
}

/// The name in `line`, if the line is the entry of number `id`.
pub open spec fn entry_name(line: Seq<char>, id: u32) -> Option<Seq<char>> {
    let fields = split(line, ':');
    if fields.len() >= 3 && parse_u32(fields[2]) == Some(id) {
        Some(fields[0])
    } else {
        None
    }
}

/// The name in the first of `lines` that is the entry of number `id`.
pub open spec fn find_name(lines: Seq<Seq<char>>, id: u32) -> Option<Seq<char>>
    decreases lines.len(),
{
    if lines.len() == 0 {
        None
    } else if entry_name(lines[0], id) is Some {
        entry_name(lines[0], id)
    } else {
        find_name(lines.skip(1), id)
    }
}

/// The name that the database `db` gives to number `id`, or `ERROR` if it
/// gives none.
pub open spec fn name_of(db: Seq<char>, id: u32) -> Seq<char> {
    match find_name(lines(db), id) {
        Some(name) => name,
        None => "ERROR"@,
    }
}

proof fn lemma_digits_value_grows(digits: Seq<char>, len: int)
    requires
        0 <= len <= digits.len(),
    ensures
        digits_value(digits.take(len)) <= digits_value(digits),
    decreases digits.len(),
{
    if len == digits.len() {
        assert(digits.take(len) =~= digits);
    } else {
        lemma_digits_value_grows(digits.drop_last(), len);
        assert(digits.drop_last().take(len) =~= digits.take(len));
    }
}

fn parse_number(text: &Vec<char>) -> (number: Option<u32>)
    ensures
        number == parse_u32(text@),
{
    let start: usize = if text.len() > 0 && text[0] == '+' {
        1
    } else {
        0
    };
    let ghost digits = if text@.len() > 0 && text@[0] == '+' {
        text@.skip(1)
    } else {
        text@
    };
    if start == text.len() {
        return None;
    }
    let mut value: u64 = 0;
    let mut i: usize = start;
    while i < text.len()
        invariant
            start <= i <= text.len(),
            digits == text@.skip(start as int),
            digits == (if text@.len() > 0 && text@[0] == '+' {
                text@.skip(1)
            } else {
                text@
            }),
            all_digits(digits.take(i - start)),
            value == digits_value(digits.take(i - start)),
            value <= u32::MAX,
        decreases text.len() - i,
    {
        let code = text[i] as u32;
        assert(digits[i - start] == text@[i as int]);
        if code < 0x30 || code > 0x39 {
            return None;
        }
        let ghost prefix = digits.take(i - start);
        let ghost next = digits.take(i + 1 - start);
        assert(next.drop_last() =~= prefix);
        value = value * 10 + (code - 0x30) as u64;
        if value > 0xffff_ffff {
            proof {
                lemma_digits_value_grows(digits, i + 1 - start);
            }
            return None;
        }
        i += 1;
    }
    assert(digits.take(digits.len() as int) =~= digits);
    Some(value as u32)
}

fn name_in_line(line: &Vec<char>, end: usize, id: u32) -> (name: Option<String>)
    requires
        end <= line.len(),
    ensures
        match name {
            Some(n) => entry_name(line@.take(end as int), id) == Some(n@),
            None => entry_name(line@.take(end as int), id) is None,
        },
{
    let fields = split_chars(line, 0, end, ':');
    if fields.len() >= 3 {
        match parse_number(&fields[2]) {
            Some(number) => {
                if number == id {
                    return Some(string_of(&fields[0]));
                }
            },
            None => {},
        }
    }
    None
}

/// The name that the database `db` gives to number `id`, or `ERROR`.
pub fn lookup_name(db: &str, id: u32) -> (name: String)
    ensures
        name@ == name_of(db@, id),
{
    let text = chars_of(db);
    let pieces = split_chars(&text, 0, text.len(), '\n');
    assert(text@.subrange(0, text.len() as int) =~= db@);
    let ghost all = lines(db@);
    let ghost parts = split(db@, '\n');
    let last: usize = pieces.len() - 1;
    let mut k: usize = 0;
    assert(all.skip(0) =~= all);
    while k < last
        invariant
            k <= last == pieces.len() - 1,
            views(pieces@) == parts,
            all == lines(db@),
            parts == split(db@, '\n'),
            find_name(all, id) == find_name(all.skip(k as int), id),
        decreases last - k,
    {
        let piece = &pieces[k];
        let end: usize = if piece.len() > 0 && piece[piece.len() - 1] == '\r' {
            piece.len() - 1
        } else {
            piece.len()
        };
        assert(piece@.take(end as int) =~= strip_cr(piece@));
        assert(all.skip(k as int).skip(1) =~= all.skip(k + 1));
        match name_in_line(piece, end, id) {
            Some(name) => {
                return name;
            },
            None => {},
        }
        k += 1;
    }
    let piece = &pieces[last];
    if piece.len() > 0 {
        assert(find_name(all.skip(last as int).skip(1), id) is None);
        assert(piece@.take(piece.len() as int) =~= piece@);
        match name_in_line(piece, piece.len(), id) {
            Some(name) => {
                return name;
            },
            None => {},
        }
    }
    "ERROR".to_owned()
}

/// The name of the user of number `uid` in the text of a user database, or
/// `ERROR` if the text names no such user.
pub fn uid_to_name(passwd: &str, uid: u32) -> (name: String)
    ensures
        name@ == name_of(passwd@, uid),
{
    lookup_name(passwd, uid)
}

/// The name of the group of number `gid` in the text of a group database,
/// or `ERROR` if the text names no such group.
pub fn gid_to_name(group: &str, gid: u32) -> (name: String)
    ensures
        name@ == name_of(group@, gid),
{
    lookup_name(group, gid)
}

} // verus!
