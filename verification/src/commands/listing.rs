//! The order and the text of a directory listing.

use crate::host::{DirEntry, DirEntryView, FileMeta};
use crate::utils::color::{color_of, get_color};
use crate::utils::date::{datetime_text, push_datetime};
use crate::utils::mode::{
    executable, file_type, file_type_of, is_executable, permissions_text, push_permissions,
    type_letter, type_letter_of, FileType,
};
use crate::utils::names::{gid_to_name, name_of, uid_to_name};
use crate::utils::text::{
    chars_of, decimal, decimal_chars, pad_left, pad_right, push_left_aligned, push_right_aligned,
    views,
};
use vstd::prelude::*;
use vstd::string::{StrSliceExecFns, StringExecFns};
use vstd::utf8::encode_utf8;

verus! {

/// Whether `a` comes no later than `b` when byte strings are compared byte
/// by byte, a proper prefix coming first.
pub open spec fn bytes_le(a: Seq<u8>, b: Seq<u8>) -> bool
    decreases a.len(),
{
    if a.len() == 0 {
        true
    } else if b.len() == 0 {
        false
    } else if a[0] != b[0] {
        a[0] < b[0]
    } else {
        bytes_le(a.skip(1), b.skip(1))
    }
}

/// The order of names in a listing: that of their bytes in UTF-8.
pub open spec fn name_le(a: Seq<char>, b: Seq<char>) -> bool {
    bytes_le(encode_utf8(a), encode_utf8(b))
}

/// Where `entry` goes into `sorted`: behind the last entry whose name does
/// not come later than its own.
pub open spec fn insert_at(sorted: Seq<DirEntryView>, entry: DirEntryView) -> int
    decreases sorted.len(),
{
    if sorted.len() == 0 {
        0
    } else if name_le(sorted.last().name, entry.name) {
        sorted.len() as int
    } else {
        insert_at(sorted.drop_last(), entry)
    }
}

/// The entries in the order of their names; entries of the same name stay
/// in the order they came in.
pub open spec fn sort_by_name(entries: Seq<DirEntryView>) -> Seq<DirEntryView>
    decreases entries.len(),
{
    if entries.len() == 0 {
        entries
    } else {
        let sorted = sort_by_name(entries.drop_last());
        sorted.insert(insert_at(sorted, entries.last()), entries.last())
    }
}

/// Whether no entry is followed by one whose name comes earlier.
pub open spec fn sorted_by_name(entries: Seq<DirEntryView>) -> bool {
    forall|i: int, j: int|
        0 <= i <= j < entries.len() ==> name_le(
            (#[trigger] entries[i]).name,
            (#[trigger] entries[j]).name,
        )
}

pub proof fn lemma_bytes_le_reflexive(a: Seq<u8>)
    ensures
        bytes_le(a, a),
    decreases a.len(),
{
    if a.len() > 0 {
        lemma_bytes_le_reflexive(a.skip(1));
    }
}

pub proof fn lemma_bytes_le_total(a: Seq<u8>, b: Seq<u8>)
    ensures
        bytes_le(a, b) || bytes_le(b, a),
    decreases a.len(),
{
    if a.len() > 0 && b.len() > 0 && a[0] == b[0] {
        lemma_bytes_le_total(a.skip(1), b.skip(1));
    }
}

pub proof fn lemma_bytes_le_transitive(a: Seq<u8>, b: Seq<u8>, c: Seq<u8>)
    requires
        bytes_le(a, b),
        bytes_le(b, c),
    ensures
        bytes_le(a, c),
    decreases a.len(),
{
    if a.len() > 0 && b.len() > 0 && c.len() > 0 && a[0] == b[0] && b[0] == c[0] {
        lemma_bytes_le_transitive(a.skip(1), b.skip(1), c.skip(1));
    }
}

pub proof fn lemma_insert_at(sorted: Seq<DirEntryView>, entry: DirEntryView)
    ensures
        0 <= insert_at(sorted, entry) <= sorted.len(),
        insert_at(sorted, entry) > 0 ==> name_le(
            sorted[insert_at(sorted, entry) - 1].name,
            entry.name,
        ),
        forall|k: int|
            insert_at(sorted, entry) <= k < sorted.len() ==> !name_le(
                (#[trigger] sorted[k]).name,
                entry.name,
            ),
    decreases sorted.len(),
{
    if sorted.len() > 0 && !name_le(sorted.last().name, entry.name) {
        let front = sorted.drop_last();
        lemma_insert_at(front, entry);
        assert forall|k: int| insert_at(sorted, entry) <= k < sorted.len() implies !name_le(
            (#[trigger] sorted[k]).name,
            entry.name,
        ) by {
            if k < front.len() {
                assert(front[k] == sorted[k]);
            }
        }
    }
}

/// Putting an entry where it belongs keeps a sorted listing sorted.
pub proof fn lemma_insert_keeps_sorted(sorted: Seq<DirEntryView>, entry: DirEntryView)
    requires
        sorted_by_name(sorted),
    ensures
        sorted_by_name(sorted.insert(insert_at(sorted, entry), entry)),
{
    let at = insert_at(sorted, entry);
    let after = sorted.insert(at, entry);
    lemma_insert_at(sorted, entry);
    assert forall|i: int, j: int| 0 <= i <= j < after.len() implies name_le(
        (#[trigger] after[i]).name,
        (#[trigger] after[j]).name,
    ) by {
        let a = encode_utf8(after[i].name);
        let b = encode_utf8(after[j].name);
        let e = encode_utf8(entry.name);
        if i == j {
            lemma_bytes_le_reflexive(a);
        } else if j == at {
            lemma_bytes_le_transitive(a, encode_utf8(sorted[at - 1].name), e);
        } else if i == at {
            lemma_bytes_le_total(b, e);
        }
    }
}

/// A listing comes out in the order of its names, whatever order its
/// entries came in.
pub proof fn lemma_sort_is_sorted(entries: Seq<DirEntryView>)
    ensures
        sorted_by_name(sort_by_name(entries)),
    decreases entries.len(),
{
    if entries.len() > 0 {
        lemma_sort_is_sorted(entries.drop_last());
        lemma_insert_keeps_sorted(sort_by_name(entries.drop_last()), entries.last());
    }
}

/// Sorting neither drops nor adds nor changes an entry.
pub proof fn lemma_sort_is_permutation(entries: Seq<DirEntryView>)
    ensures
        sort_by_name(entries).len() == entries.len(),
        sort_by_name(entries).to_multiset() == entries.to_multiset(),
    decreases entries.len(),
{
    broadcast use vstd::seq_lib::group_to_multiset_ensures;

    if entries.len() > 0 {
        let front = entries.drop_last();
        let sorted = sort_by_name(front);
        lemma_sort_is_permutation(front);
        lemma_insert_at(sorted, entries.last());
        assert(front.push(entries.last()) =~= entries);
    }
}

/// Whether no two of the entries have the same name.
pub open spec fn names_differ(entries: Seq<DirEntryView>) -> bool {
    forall|i: int, j: int|
        0 <= i < j < entries.len() ==> (#[trigger] entries[i]).name != (#[trigger] entries[j]).name
}

pub proof fn lemma_bytes_le_antisymmetric(a: Seq<u8>, b: Seq<u8>)
    requires
        bytes_le(a, b),
        bytes_le(b, a),
    ensures
        a == b,
    decreases a.len(),
{
    if a.len() > 0 && b.len() > 0 {
        lemma_bytes_le_antisymmetric(a.skip(1), b.skip(1));
        assert(a =~= seq![a[0]] + a.skip(1));
    }
}

/// Two names of which each comes no later than the other are one name.
pub proof fn lemma_name_le_antisymmetric(a: Seq<char>, b: Seq<char>)
    requires
        name_le(a, b),
        name_le(b, a),
    ensures
        a == b,
{
    lemma_bytes_le_antisymmetric(encode_utf8(a), encode_utf8(b));
    vstd::utf8::encode_utf8_decode_utf8(a);
    vstd::utf8::encode_utf8_decode_utf8(b);
}

proof fn lemma_sort_keeps_names_apart(entries: Seq<DirEntryView>)
    requires
        names_differ(entries),
    ensures
        names_differ(sort_by_name(entries)),
    decreases entries.len(),
{
    broadcast use vstd::seq_lib::group_to_multiset_ensures;

    if entries.len() > 0 {
        let front = entries.drop_last();
        let last = entries.last();
        let sorted = sort_by_name(front);
        lemma_sort_keeps_names_apart(front);
        lemma_sort_is_permutation(front);
        lemma_insert_at(sorted, last);
        assert forall|k: int| 0 <= k < sorted.len() implies (#[trigger] sorted[k]).name
            != last.name by {
            assert(front.to_multiset().count(sorted[k]) > 0);
        }
    }
}

proof fn lemma_sorted_is_unique(x: Seq<DirEntryView>, y: Seq<DirEntryView>)
    requires
        sorted_by_name(x),
        sorted_by_name(y),
        names_differ(x),
        x.to_multiset() == y.to_multiset(),
    ensures
        x == y,
    decreases x.len(),
{
    broadcast use vstd::seq_lib::group_to_multiset_ensures;

    vstd::seq_lib::to_multiset_len(x);
    if x.len() > 0 {
        let n = x.len() as int;
        let a = x[n - 1];
        let b = y[n - 1];
        assert(x.to_multiset().count(b) > 0);
        assert(y.to_multiset().count(a) > 0);
        lemma_name_le_antisymmetric(a.name, b.name);
        let xs = x.drop_last();
        let ys = y.drop_last();
        assert(xs.push(a) =~= x);
        assert(ys.push(a) =~= y);
        assert(xs.to_multiset() =~= x.to_multiset().remove(a));
        assert(ys.to_multiset() =~= y.to_multiset().remove(a));
        lemma_sorted_is_unique(xs, ys);
    }
}

/// A listing does not depend on the order in which its entries come: two
/// sequences of the same entries, no two of them of one name, give the same
/// listing.
pub proof fn lemma_listing_ignores_order(
    one: Seq<DirEntryView>,
    other: Seq<DirEntryView>,
    flags: Flags,
    passwd: Seq<char>,
    group: Seq<char>,
)
    requires
        names_differ(one),
        one.to_multiset() == other.to_multiset(),
    ensures
        sort_by_name(one) == sort_by_name(other),
        listed(one, flags.all) == listed(other, flags.all),
        listing_text(one, flags, passwd, group) == listing_text(other, flags, passwd, group),
{
    lemma_sort_is_sorted(one);
    lemma_sort_is_sorted(other);
    lemma_sort_is_permutation(one);
    lemma_sort_is_permutation(other);
    lemma_sort_keeps_names_apart(one);
    lemma_sorted_is_unique(sort_by_name(one), sort_by_name(other));
}

/// Whether the name `a` comes no later than the name `b` in a listing.
pub fn name_comes_first(a: &str, b: &str) -> (r: bool)
    ensures
        r == name_le(a@, b@),
{
    let x = a.as_bytes();
    let y = b.as_bytes();
    let mut i: usize = 0;
    assert(x@.skip(0) =~= x@ && y@.skip(0) =~= y@);
    while i < x.len() && i < y.len()
        invariant
            i <= x.len(),
            i <= y.len(),
            x@ == encode_utf8(a@),
            y@ == encode_utf8(b@),
            bytes_le(x@, y@) == bytes_le(x@.skip(i as int), y@.skip(i as int)),
        decreases x.len() - i,
    {
        if x[i] != y[i] {
            return x[i] < y[i];
        }
        assert(x@.skip(i as int).skip(1) =~= x@.skip(i + 1));
        assert(y@.skip(i as int).skip(1) =~= y@.skip(i + 1));
        i += 1;
    }
    i == x.len()
}

/// The entries in the order of their names.
pub fn sort_entries<'a>(entries: &'a Vec<DirEntry>) -> (sorted: Vec<&'a DirEntry>)
    ensures
        views(sorted@) == sort_by_name(views(entries@)),
{
    let mut sorted: Vec<&'a DirEntry> = Vec::new();
    let mut i: usize = 0;
    while i < entries.len()
        invariant
            i <= entries.len(),
            sorted.len() == i,
            views(sorted@) == sort_by_name(views(entries@).take(i as int)),
        decreases entries.len() - i,
    {
        let entry = &entries[i];
        let ghost before = views(sorted@);
        let mut at: usize = sorted.len();
        assert(before.take(at as int) =~= before);
        while at > 0 && !name_comes_first(sorted[at - 1].name.as_str(), entry.name.as_str())
            invariant
                at <= sorted.len(),
                before == views(sorted@),
                insert_at(before, entry@) == insert_at(before.take(at as int), entry@),
            decreases at,
        {
            assert(before.take(at as int).drop_last() =~= before.take(at - 1));
            at -= 1;
        }
        proof {
            let ghost done = views(entries@).take(i as int);
            let ghost next = views(entries@).take(i + 1);
            assert(next.drop_last() =~= done);
        }
        sorted.insert(at, entry);
        i += 1;
    }
    assert(views(entries@).take(entries.len() as int) =~= views(entries@));
    sorted
}

/// What a listing shows and how.
#[derive(Clone, Copy, Debug, PartialEq, Eq, Structural)]
pub struct Flags {
    /// Entries whose name starts with a dot are shown too.
    pub all: bool,
    /// One line for each entry, with its type, permissions, owner, size and date.
    pub long: bool,
    /// Directories and executable files are marked behind their name.
    pub classify: bool,
}

/// Whether a name starts with a dot.
pub open spec fn is_hidden(name: Seq<char>) -> bool {
    name.len() > 0 && name[0] == '.'
}

/// Whether a listing shows `entry`.
pub open spec fn shown(entry: DirEntryView, all: bool) -> bool {
    all || !is_hidden(entry.name)
}

pub open spec fn shown_pred(all: bool) -> spec_fn(DirEntryView) -> bool {
    |entry: DirEntryView| shown(entry, all)
}

/// The entries that a listing shows, in the order in which it shows them.
pub open spec fn listed(entries: Seq<DirEntryView>, all: bool) -> Seq<DirEntryView> {
    sort_by_name(entries).filter(shown_pred(all))
}

/// The blocks that `entries` hold together.
pub open spec fn blocks(entries: Seq<DirEntryView>) -> nat
    decreases entries.len(),
{
    if entries.len() == 0 {
        0
    } else {
        blocks(entries.drop_last()) + entries.last().meta.blocks as nat
    }
}

/// The name as a listing shows it: a symbolic link with where it points, in
/// a long listing, and with nothing behind the arrow where that could not
/// be read; otherwise, where entries are marked, a directory with a slash
/// and an executable file with a star behind it.
pub open spec fn display_name(entry: DirEntryView, flags: Flags) -> Seq<char> {
    let kind = file_type_of(entry.meta.mode);
    if kind == FileType::Symlink {
        if flags.long {
            entry.name + " -> "@ + (match entry.link {
                Some(target) => target,
                None => Seq::<char>::empty(),
            })
        } else {
            entry.name
        }
    } else if flags.classify && kind == FileType::Directory {
        entry.name + "/"@
    } else if flags.classify && is_executable(entry.meta.mode) {
        entry.name + "*"@
    } else {
        entry.name
    }
}

/// The name as shown, in its colour.
pub open spec fn colored_name(entry: DirEntryView, flags: Flags) -> Seq<char> {
    color_of(type_letter(file_type_of(entry.meta.mode)), entry.meta.mode) + display_name(
        entry,
        flags,
    ) + "\x1b[0m"@
}

/// The major number of a device.
pub open spec fn device_major(rdev: u64) -> u64 {
    (rdev >> 8) & 0xfff
}

/// The minor number of a device.
pub open spec fn device_minor(rdev: u64) -> u64 {
    rdev & 0xff
}

/// The size column: for a device its major and minor number, for anything
/// else its length in bytes.
pub open spec fn size_text(meta: FileMeta) -> Seq<char> {
    let kind = file_type_of(meta.mode);
    if kind == FileType::CharDevice || kind == FileType::BlockDevice {
        pad_left(decimal(device_major(meta.rdev) as nat), 3, ' ') + ", "@ + pad_left(
            decimal(device_minor(meta.rdev) as nat),
            8,
            ' ',
        )
    } else {
        pad_left(decimal(meta.size as nat), 13, ' ')
    }
}

/// The first columns of a long listing line: the type, the permissions and
/// the number of links.
pub open spec fn mode_columns(meta: FileMeta) -> Seq<char> {
    type_letter(file_type_of(meta.mode)) + permissions_text(meta.mode) + " "@ + pad_left(
        decimal(meta.nlink as nat),
        2,
        ' ',
    ) + " "@
}

/// The columns of a long listing line that name the owner and the group.
pub open spec fn owner_columns(meta: FileMeta, passwd: Seq<char>, group: Seq<char>) -> Seq<char> {
    pad_right(name_of(passwd, meta.uid), 7) + " "@ + pad_right(name_of(group, meta.gid), 7) + " "@
}

/// The line of an entry in a long listing.
pub open spec fn long_line(
    entry: DirEntryView,
    flags: Flags,
    passwd: Seq<char>,
    group: Seq<char>,
) -> Seq<char> {
    mode_columns(entry.meta) + owner_columns(entry.meta, passwd, group) + size_text(entry.meta)
        + " "@ + datetime_text(entry.meta.modified as int) + " "@ + colored_name(entry, flags)
        + "\n"@
}

/// What a listing prints for one entry.
pub open spec fn entry_text(
    entry: DirEntryView,
    flags: Flags,
    passwd: Seq<char>,
    group: Seq<char>,
) -> Seq<char> {
    if flags.long {
        long_line(entry, flags, passwd, group)
    } else {
        colored_name(entry, flags) + "  "@
    }
}

/// What a listing prints for `entries`, one after the other.
pub open spec fn entries_text(
    entries: Seq<DirEntryView>,
    flags: Flags,
    passwd: Seq<char>,
    group: Seq<char>,
) -> Seq<char>
    decreases entries.len(),
{
    if entries.len() == 0 {
        Seq::<char>::empty()
    } else {
        entries_text(entries.drop_last(), flags, passwd, group) + entry_text(
            entries.last(),
            flags,
            passwd,
            group,
        )
    }
}

/// The text of the listing of `entries`. A long listing starts with a line
/// that gives half the number of blocks of the entries shown; a short one
/// ends with a line feed.
pub open spec fn listing_text(
    entries: Seq<DirEntryView>,
    flags: Flags,
    passwd: Seq<char>,
    group: Seq<char>,
) -> Seq<char> {
    let shown = listed(entries, flags.all);
    if flags.long {
        "total "@ + decimal(blocks(shown) / 2) + "\n"@ + entries_text(shown, flags, passwd, group)
    } else {
        entries_text(shown, flags, passwd, group) + "\n"@
    }
}

proof fn lemma_filter_keeps_sorted(entries: Seq<DirEntryView>, pred: spec_fn(DirEntryView) -> bool)
    requires
        sorted_by_name(entries),
    ensures
        sorted_by_name(entries.filter(pred)),
        forall|i: int|
            0 <= i < entries.filter(pred).len() ==> entries.contains(
                #[trigger] entries.filter(pred)[i],
            ),
    decreases entries.len(),
{
    reveal(Seq::filter);
    if entries.len() > 0 {
        lemma_filter_keeps_sorted(entries.drop_last(), pred);
    }
}

/// A listing shows its entries in the order of their names, whatever order
/// they came in.
pub proof fn lemma_listing_is_sorted(entries: Seq<DirEntryView>, all: bool)
    ensures
        sorted_by_name(listed(entries, all)),
{
    lemma_sort_is_sorted(entries);
    lemma_filter_keeps_sorted(sort_by_name(entries), shown_pred(all));
}

/// A listing shows nothing but entries it was given, and none whose name
/// starts with a dot unless it shows all.
pub proof fn lemma_listing_hides_dot_names(entries: Seq<DirEntryView>, all: bool)
    ensures
        forall|i: int|
            0 <= i < listed(entries, all).len() ==> entries.contains(
                #[trigger] listed(entries, all)[i],
            ),
        !all ==> forall|i: int|
            0 <= i < listed(entries, all).len() ==> !is_hidden(
                (#[trigger] listed(entries, all)[i]).name,
            ),
{
    broadcast use vstd::seq_lib::group_to_multiset_ensures;

    let sorted = sort_by_name(entries);
    let kept = listed(entries, all);
    lemma_sort_is_sorted(entries);
    lemma_sort_is_permutation(entries);
    lemma_filter_keeps_sorted(sorted, shown_pred(all));
    assert forall|i: int| 0 <= i < kept.len() implies entries.contains(#[trigger] kept[i]) by {
        assert(sorted.to_multiset().count(kept[i]) > 0);
    }
}

/// A listing shows every entry it was given whose name does not start with a
/// dot, and, when it shows all, every entry as often as it was given.
pub proof fn lemma_listing_shows_the_rest(entries: Seq<DirEntryView>, all: bool)
    ensures
        forall|i: int|
            0 <= i < entries.len() && shown(#[trigger] entries[i], all) ==> listed(
                entries,
                all,
            ).contains(entries[i]),
        all ==> listed(entries, all).to_multiset() == entries.to_multiset(),
{
    broadcast use vstd::seq_lib::group_to_multiset_ensures;

    let sorted = sort_by_name(entries);
    lemma_sort_is_permutation(entries);
    assert forall|i: int|
        0 <= i < entries.len() && shown(#[trigger] entries[i], all) implies listed(
        entries,
        all,
    ).contains(entries[i]) by {
        assert(sorted.to_multiset().count(entries[i]) > 0);
    }
    if all {
        lemma_filter_all(sorted);
    }
}

proof fn lemma_filter_all(entries: Seq<DirEntryView>)
    ensures
        entries.filter(shown_pred(true)) == entries,
    decreases entries.len(),
{
    reveal(Seq::filter);
    if entries.len() > 0 {
        lemma_filter_all(entries.drop_last());
    }
}

/// Whether a name starts with a dot.
pub fn hidden(name: &str) -> (r: bool)
    ensures
        r == is_hidden(name@),
{
    !name.is_empty() && name.get_char(0) == '.'
}

/// Those of `sorted` that a listing shows.
pub fn select_shown<'a>(sorted: &Vec<&'a DirEntry>, all: bool) -> (shown: Vec<&'a DirEntry>)
    ensures
        views(shown@) == views(sorted@).filter(shown_pred(all)),
{
    let mut shown: Vec<&'a DirEntry> = Vec::new();
    let mut i: usize = 0;
    while i < sorted.len()
        invariant
            i <= sorted.len(),
            views(shown@) == views(sorted@).take(i as int).filter(shown_pred(all)),
        decreases sorted.len() - i,
    {
        let entry = sorted[i];
        proof {
            let done = views(sorted@).take(i as int);
            assert(views(sorted@).take(i + 1) =~= done.push(entry@));
            done.lemma_filter_push(entry@, shown_pred(all));
        }
        if all || !hidden(entry.name.as_str()) {
            shown.push(entry);
        }
        i += 1;
    }
    assert(views(sorted@).take(sorted.len() as int) =~= views(sorted@));
    shown
}

/// The blocks that `entries` hold together.
pub fn block_total(entries: &Vec<&DirEntry>) -> (total: u128)
    ensures
        total == blocks(views(entries@)),
{
    let mut total: u128 = 0;
    let mut i: usize = 0;
    while i < entries.len()
        invariant
            i <= entries.len(),
            total == blocks(views(entries@).take(i as int)),
            total <= i * 0xffff_ffff_ffff_ffff,
        decreases entries.len() - i,
    {
        proof {
            let next = views(entries@).take(i + 1);
            assert(next.drop_last() =~= views(entries@).take(i as int));
        }
        total = total + entries[i].meta.blocks as u128;
        i += 1;
    }
    assert(views(entries@).take(entries.len() as int) =~= views(entries@));
    total
}

fn push_display_name(out: &mut String, entry: &DirEntry, flags: Flags)
    ensures
        final(out)@ == old(out)@ + display_name(entry@, flags),
{
    let kind = file_type(entry.meta.mode);
    out.append(entry.name.as_str());
    if kind == FileType::Symlink {
        if flags.long {
            out.append(" -> ");
            if let Some(target) = &entry.link {
                out.append(target.as_str());
            }
        }
    } else if flags.classify && kind == FileType::Directory {
        out.append("/");
    } else if flags.classify && executable(entry.meta.mode) {
        out.append("*");
    }
}

fn push_colored_name(out: &mut String, entry: &DirEntry, flags: Flags)
    ensures
        final(out)@ == old(out)@ + colored_name(entry@, flags),
{
    let letter = type_letter_of(file_type(entry.meta.mode));
    let color = get_color(letter, entry.meta.mode);
    out.append(color.as_str());
    push_display_name(out, entry, flags);
    out.append("\x1b[0m");
}

fn push_size(out: &mut String, meta: &FileMeta)
    ensures
        final(out)@ == old(out)@ + size_text(*meta),
{
    let kind = file_type(meta.mode);
    if kind == FileType::CharDevice || kind == FileType::BlockDevice {
        let major = decimal_chars(((meta.rdev >> 8) & 0xfff) as u128);
        let minor = decimal_chars((meta.rdev & 0xff) as u128);
        push_right_aligned(out, &major, 3, ' ');
        out.append(", ");
        push_right_aligned(out, &minor, 8, ' ');
    } else {
        let size = decimal_chars(meta.size as u128);
        push_right_aligned(out, &size, 13, ' ');
    }
}

fn push_mode_columns(out: &mut String, meta: &FileMeta)
    ensures
        final(out)@ == old(out)@ + mode_columns(*meta),
{
    out.append(type_letter_of(file_type(meta.mode)));
    push_permissions(out, meta.mode);
    out.append(" ");
    let links = decimal_chars(meta.nlink as u128);
    push_right_aligned(out, &links, 2, ' ');
    out.append(" ");
}

fn push_owner_columns(out: &mut String, meta: &FileMeta, passwd: &str, group: &str)
    ensures
        final(out)@ == old(out)@ + owner_columns(*meta, passwd@, group@),
{
    let owner = chars_of(uid_to_name(passwd, meta.uid).as_str());
    push_left_aligned(out, &owner, 7);
    out.append(" ");
    let owners = chars_of(gid_to_name(group, meta.gid).as_str());
    push_left_aligned(out, &owners, 7);
    out.append(" ");
}

fn push_long_line(out: &mut String, entry: &DirEntry, flags: Flags, passwd: &str, group: &str)
    ensures
        final(out)@ == old(out)@ + long_line(entry@, flags, passwd@, group@),
{
    let meta = &entry.meta;
    push_mode_columns(out, meta);
    push_owner_columns(out, meta, passwd, group);
    push_size(out, meta);
    out.append(" ");
    push_datetime(out, meta.modified);
    out.append(" ");
    push_colored_name(out, entry, flags);
    out.append("\n");
}

fn push_entry(out: &mut String, entry: &DirEntry, flags: Flags, passwd: &str, group: &str)
    ensures
        final(out)@ == old(out)@ + entry_text(entry@, flags, passwd@, group@),
{
    if flags.long {
        push_long_line(out, entry, flags, passwd, group);
    } else {
        push_colored_name(out, entry, flags);
        out.append("  ");
    }
}

/// The text of the listing of `entries`, with the names of owners and groups
/// taken from the texts of the two databases.
pub fn render_listing(entries: &Vec<DirEntry>, flags: Flags, passwd: &str, group: &str) -> (text:
    String)
    ensures
        text@ == listing_text(views(entries@), flags, passwd@, group@),
{
    let sorted = sort_entries(entries);
    let shown = select_shown(&sorted, flags.all);
    let mut text = String::new();
    if flags.long {
        text.append("total ");
        let total = decimal_chars(block_total(&shown) / 2);
        push_right_aligned(&mut text, &total, 0, ' ');
        text.append("\n");
    }
    let ghost head = text@;
    let mut i: usize = 0;
    while i < shown.len()
        invariant
            i <= shown.len(),
            text@ == head + entries_text(views(shown@).take(i as int), flags, passwd@, group@),
        decreases shown.len() - i,
    {
        proof {
            let next = views(shown@).take(i + 1);
            assert(next.drop_last() =~= views(shown@).take(i as int));
        }
        push_entry(&mut text, shown[i], flags, passwd, group);
        i += 1;
    }
    assert(views(shown@).take(shown.len() as int) =~= views(shown@));
    if !flags.long {
        text.append("\n");
    }
    text
}

} // verus!
