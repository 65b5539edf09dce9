//! Paths as text: joining, the final component, the parent directory, and
//! the resolution of `.` and `..`.
//!
//! A path is a sequence of components separated by `/`. Repeated separators,
//! trailing separators and `.` components behind a separator do not count.
//! A path is resolved by its text alone: `..` takes back the component
//! before it, whatever that component is on the file system.

use crate::utils::error::{ErrorKind, IoErrorView, ShellError, ShellErrorView};
use crate::utils::text::{chars_of, push_chars, split, split_chars, string_of_range, views};
use vstd::prelude::*;
use vstd::string::StringExecFns;

verus! {

pub open spec fn is_absolute(path: Seq<char>) -> bool {
    path.len() > 0 && path[0] == '/'
}

/// `rel` seen from `base`: `rel` itself if it is absolute, otherwise `base`
/// and `rel` with exactly one separator put between them where `base` does
/// not end in one.
pub open spec fn join(base: Seq<char>, rel: Seq<char>) -> Seq<char> {
    if is_absolute(rel) {
        rel
    } else if base.len() > 0 && base.last() != '/' {
        base + seq!['/'] + rel
    } else {
        base + rel
    }
}

/// The position of the last `/` in `path`, or -1 if it has none.
pub open spec fn last_slash(path: Seq<char>) -> int
    decreases path.len(),
{
    if path.len() == 0 {
        -1
    } else if path.last() == '/' {
        path.len() - 1
    } else {
        last_slash(path.drop_last())
    }
}

/// `path` without what does not count at its end: separators, and `.`
/// components that follow a separator. A path that is only a separator stays.
pub open spec fn trim_end(path: Seq<char>) -> Seq<char>
    decreases path.len(),
{
    if path.len() >= 2 && (path.last() == '/' || (path.last() == '.' && path[path.len() - 2]
        == '/')) {
        trim_end(path.drop_last())
    } else {
        path
    }
}

/// The text of the final component of `path`; empty for the root and for
/// the empty path.
pub open spec fn last_component(path: Seq<char>) -> Seq<char> {
    let trimmed = trim_end(path);
    trimmed.skip(last_slash(trimmed) + 1)
}

/// The name of the file or directory that `path` leads to: its final
/// component, unless that is the root, `.` or `..`.
pub open spec fn file_name(path: Seq<char>) -> Option<Seq<char>> {
    let name = last_component(path);
    if name.len() == 0 || name == seq!['.'] || name == seq!['.', '.'] {
        None
    } else {
        Some(name)
    }
}

/// `path` without its final component; nothing for the root and for the
/// empty path.
pub open spec fn parent(path: Seq<char>) -> Option<Seq<char>> {
    let trimmed = trim_end(path);
    if trimmed.len() == 0 || trimmed == seq!['/'] {
        None
    } else {
        Some(trim_end(trimmed.take(last_slash(trimmed) + 1)))
    }
}

/// The components that are left when `part` follows the components
/// `before`: an empty part and `.` change nothing, `..` takes the last
/// component away, if there is one, and any other part is one more
/// component.
pub open spec fn step(before: Seq<Seq<char>>, part: Seq<char>) -> Seq<Seq<char>> {
    if part.len() == 0 || part == seq!['.'] {
        before
    } else if part == seq!['.', '.'] {
        if before.len() > 0 {
            before.drop_last()
        } else {
            before
        }
    } else {
        before.push(part)
    }
}

/// The components that are left when `parts` follow the components
/// `before`, one after the other from the left.
pub open spec fn walk(before: Seq<Seq<char>>, parts: Seq<Seq<char>>) -> Seq<Seq<char>>
    decreases parts.len(),
{
    if parts.len() == 0 {
        before
    } else {
        step(walk(before, parts.drop_last()), parts.last())
    }
}

/// The components of the directory that `path` leads to from the root,
/// with no `.` or `..` left among them. A `..` at the root stays at the
/// root.
pub open spec fn resolved_parts(path: Seq<char>) -> Seq<Seq<char>> {
    walk(Seq::<Seq<char>>::empty(), split(path, '/'))
}

/// The components, each behind a separator.
pub open spec fn below_root(parts: Seq<Seq<char>>) -> Seq<char>
    decreases parts.len(),
{
    if parts.len() == 0 {
        Seq::<char>::empty()
    } else {
        below_root(parts.drop_last()) + seq!['/'] + parts.last()
    }
}

/// The absolute path that has the components `parts`; without components
/// it is the root.
pub open spec fn rooted(parts: Seq<Seq<char>>) -> Seq<char> {
    if parts.len() == 0 {
        seq!['/']
    } else {
        below_root(parts)
    }
}

/// The path of the directory that `path` leads to from the root, every `.`
/// and `..` among its components resolved, and written with one separator
/// in front of each component.
pub open spec fn resolved(path: Seq<char>) -> Seq<char> {
    rooted(resolved_parts(path))
}

/// A component as it stands in a resolved path: not empty, without a
/// separator, and neither `.` nor `..`.
pub open spec fn is_plain_name(name: Seq<char>) -> bool {
    &&& name.len() > 0
    &&& forall|i: int| 0 <= i < name.len() ==> name[i] != '/'
    &&& name != seq!['.']
    &&& name != seq!['.', '.']
}

pub proof fn lemma_last_slash(path: Seq<char>)
    ensures
        -1 <= last_slash(path) < path.len(),
        last_slash(path) >= 0 ==> path[last_slash(path)] == '/',
        forall|i: int| last_slash(path) < i < path.len() ==> path[i] != '/',
    decreases path.len(),
{
    if path.len() > 0 && path.last() != '/' {
        let front = path.drop_last();
        lemma_last_slash(front);
        assert forall|i: int| last_slash(path) < i < path.len() implies path[i] != '/' by {
            if i < front.len() {
                assert(front[i] == path[i]);
            }
        }
    }
}

/// A position that holds a separator, with none behind it, is the last one.
pub proof fn lemma_last_slash_is(path: Seq<char>, at: int)
    requires
        -1 <= at < path.len(),
        at >= 0 ==> path[at] == '/',
        forall|i: int| at < i < path.len() ==> path[i] != '/',
    ensures
        last_slash(path) == at,
{
    lemma_last_slash(path);
}

/// The pieces of two texts with a separator between them are the pieces
/// of the one followed by the pieces of the other.
pub proof fn lemma_split_concat(a: Seq<char>, b: Seq<char>, sep: char)
    ensures
        split(a + seq![sep] + b, sep) == split(a, sep) + split(b, sep),
        split(b, sep).len() > 0,
    decreases b.len(),
{
    let all = a + seq![sep] + b;
    if b.len() == 0 {
        assert(all.drop_last() =~= a);
    } else {
        let front = b.drop_last();
        lemma_split_concat(a, front, sep);
        assert(all.drop_last() =~= a + seq![sep] + front);
    }
}

/// A text without a separator is one piece.
pub proof fn lemma_split_one(text: Seq<char>, sep: char)
    requires
        has_none(text, sep),
    ensures
        split(text, sep) == seq![text],
    decreases text.len(),
{
    if text.len() == 0 {
        assert(text =~= Seq::<char>::empty());
    } else {
        let front = text.drop_last();
        lemma_split_one(front, sep);
        assert(front.push(text.last()) =~= text);
    }
}

/// Walking through one part is one step.
pub proof fn lemma_walk_one(before: Seq<Seq<char>>, part: Seq<char>)
    ensures
        walk(before, seq![part]) == step(before, part),
{
    assert(walk(before, seq![part].drop_last()) == before);
}

/// Walking through two sequences of parts on end is walking through the
/// one and then through the other.
pub proof fn lemma_walk_concat(before: Seq<Seq<char>>, a: Seq<Seq<char>>, b: Seq<Seq<char>>)
    ensures
        walk(before, a + b) == walk(walk(before, a), b),
    decreases b.len(),
{
    if b.len() > 0 {
        lemma_walk_concat(before, a, b.drop_last());
        assert((a + b).drop_last() =~= a + b.drop_last());
    }
}

/// A path seen from a directory leads to where its components lead from
/// that directory.
pub proof fn lemma_resolved_join(base: Seq<char>, rel: Seq<char>)
    requires
        base.len() > 0,
        !is_absolute(rel),
    ensures
        resolved_parts(join(base, rel)) == walk(resolved_parts(base), split(rel, '/')),
{
    let empty = Seq::<Seq<char>>::empty();
    if base.last() != '/' {
        lemma_split_concat(base, rel, '/');
        lemma_walk_concat(empty, split(base, '/'), split(rel, '/'));
    } else {
        let front = base.drop_last();
        lemma_split_concat(front, rel, '/');
        lemma_walk_concat(empty, split(front, '/'), split(rel, '/'));
        assert(front + seq!['/'] + rel =~= base + rel);
        assert(split(base, '/').drop_last() =~= split(front, '/'));
    }
}

/// A name seen from a directory leads one step on from that directory.
pub proof fn lemma_resolved_join_name(base: Seq<char>, name: Seq<char>)
    requires
        base.len() > 0,
        name.len() > 0,
        has_none(name, '/'),
    ensures
        resolved_parts(join(base, name)) == step(resolved_parts(base), name),
{
    lemma_resolved_join(base, name);
    lemma_split_one(name, '/');
    lemma_walk_one(resolved_parts(base), name);
}

/// Whether every one of `parts` is a plain name.
pub open spec fn all_plain(parts: Seq<Seq<char>>) -> bool {
    forall|i: int| 0 <= i < parts.len() ==> is_plain_name(#[trigger] parts[i])
}

/// Whether `text` holds no `sep`.
pub open spec fn has_none(text: Seq<char>, sep: char) -> bool {
    forall|j: int| 0 <= j < text.len() ==> text[j] != sep
}

proof fn lemma_split_has_no_separator(text: Seq<char>, sep: char)
    ensures
        forall|i: int|
            0 <= i < split(text, sep).len() ==> has_none(#[trigger] split(text, sep)[i], sep),
        split(text, sep).len() > 0,
    decreases text.len(),
{
    if text.len() > 0 {
        lemma_split_has_no_separator(text.drop_last(), sep);
        assert(has_none(split(text.drop_last(), sep).last(), sep));
        assert(has_none(split(text, sep).last(), sep));
    }
}

proof fn lemma_walk_is_plain(before: Seq<Seq<char>>, parts: Seq<Seq<char>>)
    requires
        all_plain(before),
        forall|i: int| 0 <= i < parts.len() ==> has_none(#[trigger] parts[i], '/'),
    ensures
        all_plain(walk(before, parts)),
    decreases parts.len(),
{
    if parts.len() > 0 {
        lemma_walk_is_plain(before, parts.drop_last());
        assert(has_none(parts.last(), '/'));
        assert(all_plain(step(walk(before, parts.drop_last()), parts.last())));
    }
}

proof fn lemma_below_root_resolves(parts: Seq<Seq<char>>)
    requires
        all_plain(parts),
    ensures
        resolved_parts(below_root(parts)) == parts,
        parts.len() > 0 ==> below_root(parts).len() > 0 && below_root(parts)[0] == '/'
            && below_root(parts).last() != '/',
    decreases parts.len(),
{
    let empty = Seq::<Seq<char>>::empty();
    if parts.len() == 0 {
        let none = Seq::<char>::empty();
        lemma_walk_one(empty, none);
    } else {
        let front = parts.drop_last();
        let last = parts.last();
        lemma_below_root_resolves(front);
        lemma_split_concat(below_root(front), last, '/');
        lemma_split_one(last, '/');
        lemma_walk_concat(empty, split(below_root(front), '/'), seq![last]);
        lemma_walk_one(front, last);
    }
}

/// The root resolves to itself.
pub proof fn lemma_root_is_resolved()
    ensures
        resolved(seq!['/']) == seq!['/'],
{
    let root = seq!['/'];
    let none = Seq::<char>::empty();
    let empty = Seq::<Seq<char>>::empty();
    lemma_split_concat(none, none, '/');
    lemma_walk_concat(empty, split(none, '/'), split(none, '/'));
    lemma_walk_one(empty, none);
}

/// A resolved path resolves to itself, is absolute, and ends in a
/// separator only if it is the root.
pub proof fn lemma_resolved_is_resolved(path: Seq<char>)
    ensures
        resolved(resolved(path)) == resolved(path),
        is_absolute(resolved(path)),
        resolved(path) == seq!['/'] || resolved(path).last() != '/',
        all_plain(resolved_parts(path)),
        resolved_parts(resolved(path)) == resolved_parts(path),
{
    let empty = Seq::<Seq<char>>::empty();
    let parts = resolved_parts(path);
    lemma_split_has_no_separator(path, '/');
    lemma_walk_is_plain(empty, split(path, '/'));
    lemma_below_root_resolves(parts);
    if parts.len() == 0 {
        lemma_root_is_resolved();
        lemma_split_has_no_separator(seq!['/'], '/');
        lemma_walk_is_plain(empty, split(seq!['/'], '/'));
        assert(resolved_parts(seq!['/']).len() == 0);
    }
}

/// `rel` seen from `base`.
pub fn join_path(base: &str, rel: &str) -> (path: String)
    ensures
        path@ == join(base@, rel@),
{
    let r = chars_of(rel);
    if r.len() > 0 && r[0] == '/' {
        return rel.to_owned();
    }
    let b = chars_of(base);
    let mut path = base.to_owned();
    if b.len() > 0 && b[b.len() - 1] != '/' {
        path.push('/');
    }
    path.append(rel);
    path
}

/// The length of `trim_end` of the first `len` characters of `path`.
fn trimmed_len(path: &Vec<char>, len: usize) -> (n: usize)
    requires
        len <= path.len(),
    ensures
        n <= len,
        path@.take(n as int) == trim_end(path@.take(len as int)),
{
    let mut n: usize = len;
    while n >= 2 && (path[n - 1] == '/' || (path[n - 1] == '.' && path[n - 2] == '/'))
        invariant
            n <= len <= path.len(),
            trim_end(path@.take(n as int)) == trim_end(path@.take(len as int)),
        decreases n,
    {
        assert(path@.take(n as int).drop_last() =~= path@.take(n - 1));
        n -= 1;
    }
    n
}

/// One past the last `/` among the first `len` characters of `path`.
fn component_start(path: &Vec<char>, len: usize) -> (k: usize)
    requires
        len <= path.len(),
    ensures
        k <= len,
        k == last_slash(path@.take(len as int)) + 1,
{
    let mut k: usize = len;
    while k > 0 && path[k - 1] != '/'
        invariant
            k <= len <= path.len(),
            forall|i: int| k <= i < len ==> path@[i] != '/',
        decreases k,
    {
        k -= 1;
    }
    proof {
        lemma_last_slash_is(path@.take(len as int), k - 1);
    }
    k
}

/// The name of the file or directory that `path` leads to.
pub fn file_name_of(path: &str) -> (name: Option<String>)
    ensures
        match name {
            Some(n) => file_name(path@) == Some(n@),
            None => file_name(path@) is None,
        },
{
    let v = chars_of(path);
    let end = trimmed_len(&v, v.len());
    let start = component_start(&v, end);
    proof {
        assert(v@.take(v.len() as int) =~= v@);
    }
    let len = end - start;
    if len == 0 {
        None
    } else if len == 1 && v[start] == '.' {
        assert(last_component(path@) =~= seq!['.']);
        None
    } else if len == 2 && v[start] == '.' && v[start + 1] == '.' {
        assert(last_component(path@) =~= seq!['.', '.']);
        None
    } else {
        let name = string_of_range(&v, start, end);
        proof {
            let c = last_component(path@);
            assert(v@.subrange(start as int, end as int) =~= c);
            assert(c != seq!['.']) by {
                if c == seq!['.'] {
                    assert(c.len() == 1 && c[0] == '.');
                }
            }
            assert(c != seq!['.', '.']) by {
                if c == seq!['.', '.'] {
                    assert(c.len() == 2 && c[0] == '.' && c[1] == '.');
                }
            }
        }
        Some(name)
    }
}

/// `path` without its final component.
pub fn parent_of(path: &str) -> (dir: Option<String>)
    ensures
        match dir {
            Some(d) => parent(path@) == Some(d@),
            None => parent(path@) is None,
        },
{
    let v = chars_of(path);
    let end = trimmed_len(&v, v.len());
    proof {
        assert(v@.take(v.len() as int) =~= v@);
        let t = trim_end(path@);
        if t.len() == 1 && t[0] == '/' {
            assert(t =~= seq!['/']);
        }
    }
    if end == 0 || (end == 1 && v[0] == '/') {
        return None;
    }
    let start = component_start(&v, end);
    let cut = trimmed_len(&v, start);
    proof {
        assert(v@.take(end as int).take(start as int) =~= v@.take(start as int));
    }
    Some(string_of_range(&v, 0, cut))
}

/// The path of the directory that `path` leads to from the root, every `.`
/// and `..` among its components resolved.
pub fn resolve(path: &str) -> (text: String)
    ensures
        text@ == resolved(path@),
{
    let chars = chars_of(path);
    let pieces = split_chars(&chars, 0, chars.len(), '/');
    assert(chars@.subrange(0, chars.len() as int) =~= path@);
    let mut stack: Vec<&Vec<char>> = Vec::new();
    let mut k: usize = 0;
    while k < pieces.len()
        invariant
            k <= pieces.len(),
            views(stack@) == walk(Seq::<Seq<char>>::empty(), views(pieces@).take(k as int)),
        decreases pieces.len() - k,
    {
        let piece = &pieces[k];
        proof {
            let next = views(pieces@).take(k + 1);
            assert(next.drop_last() =~= views(pieces@).take(k as int));
            if piece@.len() == 1 && piece@[0] == '.' {
                assert(piece@ =~= seq!['.']);
            }
            if piece@.len() == 2 && piece@[0] == '.' && piece@[1] == '.' {
                assert(piece@ =~= seq!['.', '.']);
            }
        }
        let stays = piece.len() == 0 || (piece.len() == 1 && piece[0] == '.');
        let goes_up = piece.len() == 2 && piece[0] == '.' && piece[1] == '.';
        if goes_up {
            if stack.len() > 0 {
                stack.pop();
            }
        } else if !stays {
            stack.push(piece);
        }
        k += 1;
    }
    assert(views(pieces@).take(pieces.len() as int) =~= views(pieces@));
    if stack.len() == 0 {
        proof {
            reveal_strlit("/");
        }
        return "/".to_owned();
    }
    let mut text = String::new();
    let mut j: usize = 0;
    while j < stack.len()
        invariant
            j <= stack.len(),
            text@ == below_root(views(stack@).take(j as int)),
        decreases stack.len() - j,
    {
        proof {
            let next = views(stack@).take(j + 1);
            assert(next.drop_last() =~= views(stack@).take(j as int));
        }
        text.push('/');
        let part = stack[j];
        push_chars(&mut text, part, 0, part.len());
        j += 1;
    }
    assert(views(stack@).take(stack.len() as int) =~= views(stack@));
    text
}

/// The home directory, given what the environment holds for it.
pub fn get_home_dir(home: Option<String>) -> (dir: Result<String, ShellError>)
    ensures
        match home {
            Some(h) => dir matches Ok(d) && d@ == h@,
            None => dir matches Err(e) && e@ == ShellErrorView::IoError(
                IoErrorView { kind: ErrorKind::NotFound, message: "home directory not found"@ },
            ),
        },
{
    match home {
        Some(h) => Ok(h),
        None => Err(ShellError::io(ErrorKind::NotFound, "home directory not found".to_owned())),
    }
}

} // verus!
