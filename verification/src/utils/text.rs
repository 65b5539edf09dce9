//! Text helpers shared by the commands: comparison, conversion between
//! strings and character vectors, decimal rendering and padding.

use vstd::prelude::*;
use vstd::string::StringSliceAdditionalSpecFns;

verus! {

/// Taken on trust from the documentation of `String::push`: it appends the
/// given character to the end of the string and changes nothing else.
pub assume_specification[ String::push ](s: &mut String, ch: char)
    ensures
        final(s)@ == old(s)@.push(ch),
;

/// Whether two strings hold the same characters.
pub fn str_eq(a: &str, b: &str) -> (r: bool)
    ensures
        r == (a@ == b@),
{
    let x = a.as_bytes();
    let y = b.as_bytes();
    if x.len() != y.len() {
        return false;
    }
    let mut i: usize = 0;
    while i < x.len()
        invariant
            i <= x.len(),
            x.len() == y.len(),
            x@ == a.spec_bytes(),
            y@ == b.spec_bytes(),
            forall|j: int| 0 <= j < i ==> x@[j] == y@[j],
        decreases x.len() - i,
    {
        if x[i] != y[i] {
            return false;
        }
        i += 1;
    }
    proof {
        assert(x@ =~= y@);
        vstd::utf8::encode_utf8_decode_utf8(a@);
        vstd::utf8::encode_utf8_decode_utf8(b@);
    }
    true
}

/// The characters of a string, in order.
pub fn chars_of(s: &str) -> (v: Vec<char>)
    ensures
        v@ == s@,
{
    let mut v: Vec<char> = Vec::new();
    for c in it: s.chars()
        invariant
            v@ == it.seq().take(it.index() as int),
            it.seq() == s@,
    {
        v.push(c);
    }
    v
}

/// Appends the characters `v[from..to]` to `out`.
pub fn push_chars(out: &mut String, v: &Vec<char>, from: usize, to: usize)
    requires
        from <= to <= v.len(),
    ensures
        final(out)@ == old(out)@ + v@.subrange(from as int, to as int),
{
    let mut i: usize = from;
    while i < to
        invariant
            from <= i <= to <= v.len(),
            out@ == old(out)@ + v@.subrange(from as int, i as int),
        decreases to - i,
    {
        out.push(v[i]);
        i += 1;
    }
}

/// The string made of the characters `v[from..to]`.
pub fn string_of_range(v: &Vec<char>, from: usize, to: usize) -> (s: String)
    requires
        from <= to <= v.len(),
    ensures
        s@ == v@.subrange(from as int, to as int),
{
    let mut s = String::new();
    push_chars(&mut s, v, from, to);
    s
}

/// The string made of the characters of `v`.
pub fn string_of(v: &Vec<char>) -> (s: String)
    ensures
        s@ == v@,
{
    let s = string_of_range(v, 0, v.len());
    s
}

/// The character that writes the decimal digit `d`.
pub open spec fn digit_char(d: int) -> char {
    if d == 0 {
        '0'
    } else if d == 1 {
        '1'
    } else if d == 2 {
        '2'
    } else if d == 3 {
        '3'
    } else if d == 4 {
        '4'
    } else if d == 5 {
        '5'
    } else if d == 6 {
        '6'
    } else if d == 7 {
        '7'
    } else if d == 8 {
        '8'
    } else {
        '9'
    }
}

/// The decimal numeral of `n`, without leading zeros.
pub open spec fn decimal(n: nat) -> Seq<char>
    decreases n,
{
    if n < 10 {
        seq![digit_char(n as int)]
    } else {
        decimal(n / 10).push(digit_char((n % 10) as int))
    }
}

/// `s` preceded by as many copies of `fill` as it takes to reach `width` characters.
pub open spec fn pad_left(s: Seq<char>, width: nat, fill: char) -> Seq<char> {
    if s.len() >= width {
        s
    } else {
        Seq::new((width - s.len()) as nat, |i: int| fill) + s
    }
}

/// `s` followed by as many spaces as it takes to reach `width` characters.
pub open spec fn pad_right(s: Seq<char>, width: nat) -> Seq<char> {
    if s.len() >= width {
        s
    } else {
        s + Seq::new((width - s.len()) as nat, |i: int| ' ')
    }
}

fn digit_of(d: u128) -> (c: char)
    requires
        d < 10,
    ensures
        c == digit_char(d as int),
{
    if d == 0 {
        '0'
    } else if d == 1 {
        '1'
    } else if d == 2 {
        '2'
    } else if d == 3 {
        '3'
    } else if d == 4 {
        '4'
    } else if d == 5 {
        '5'
    } else if d == 6 {
        '6'
    } else if d == 7 {
        '7'
    } else if d == 8 {
        '8'
    } else {
        '9'
    }
}

/// The digits of `n`, most significant first.
pub fn decimal_chars(n: u128) -> (v: Vec<char>)
    ensures
        v@ == decimal(n as nat),
{
    let mut low_first: Vec<char> = Vec::new();
    let mut rest: u128 = n;
    loop
        invariant_except_break
            decimal(n as nat) == decimal(rest as nat) + low_first@.reverse(),
        ensures
            decimal(n as nat) == low_first@.reverse(),
        decreases rest,
    {
        let d = rest % 10;
        low_first.push(digit_of(d));
        if rest < 10 {
            break ;
        }
        rest = rest / 10;
    }
    let mut v: Vec<char> = Vec::new();
    let mut i: usize = low_first.len();
    while i > 0
        invariant
            i <= low_first.len(),
            v@ == low_first@.reverse().take(low_first.len() - i),
        decreases i,
    {
        i -= 1;
        v.push(low_first[i]);
    }
    v
}

/// Appends `count` copies of `fill` to `out`.
pub fn push_fill(out: &mut String, fill: char, count: usize)
    ensures
        final(out)@ == old(out)@ + Seq::new(count as nat, |i: int| fill),
{
    let mut i: usize = 0;
    while i < count
        invariant
            i <= count,
            out@ == old(out)@ + Seq::new(i as nat, |k: int| fill),
        decreases count - i,
    {
        out.push(fill);
        i += 1;
    }
}

/// Appends `s` to `out`, right-aligned in a field of `width` characters.
pub fn push_right_aligned(out: &mut String, s: &Vec<char>, width: usize, fill: char)
    ensures
        final(out)@ == old(out)@ + pad_left(s@, width as nat, fill),
{
    if s.len() < width {
        push_fill(out, fill, width - s.len());
    }
    push_chars(out, s, 0, s.len());
}

/// Appends `s` to `out`, left-aligned in a field of `width` characters.
pub fn push_left_aligned(out: &mut String, s: &Vec<char>, width: usize)
    ensures
        final(out)@ == old(out)@ + pad_right(s@, width as nat),
{
    push_chars(out, s, 0, s.len());
    if s.len() < width {
        push_fill(out, ' ', width - s.len());
    }
}

/// The views of the items of `items`, in order.
pub open spec fn views<T: View>(items: Seq<T>) -> Seq<T::V> {
    items.map_values(|item: T| item@)
}

/// The pieces of `text` between occurrences of `sep`. There is always at
/// least one piece, and pieces may be empty.
pub open spec fn split(text: Seq<char>, sep: char) -> Seq<Seq<char>>
    decreases text.len(),
{
    if text.len() == 0 {
        seq![Seq::<char>::empty()]
    } else {
        let before = split(text.drop_last(), sep);
        if text.last() == sep {
            before.push(Seq::<char>::empty())
        } else {
            before.drop_last().push(before.last().push(text.last()))
        }
    }
}

/// The characters that separate words: those that Unicode marks as
/// white space.
pub open spec fn is_white_space(c: char) -> bool {
    let code = c as u32;
    (0x09 <= code <= 0x0d) || code == 0x20 || code == 0x85 || code == 0xa0 || code == 0x1680 || (
    0x2000 <= code <= 0x200a) || code == 0x2028 || code == 0x2029 || code == 0x202f || code
        == 0x205f || code == 0x3000
}

/// The words of `text`: its maximal runs of characters that are not white
/// space, in order.
pub open spec fn tokens(text: Seq<char>) -> Seq<Seq<char>>
    decreases text.len(),
{
    if text.len() == 0 {
        Seq::<Seq<char>>::empty()
    } else {
        let front = text.drop_last();
        let before = tokens(front);
        if is_white_space(text.last()) {
            before
        } else if front.len() > 0 && !is_white_space(front.last()) {
            before.drop_last().push(before.last().push(text.last()))
        } else {
            before.push(seq![text.last()])
        }
    }
}

/// A word: not empty, and without white space.
pub open spec fn is_word(word: Seq<char>) -> bool {
    word.len() > 0 && forall|j: int| 0 <= j < word.len() ==> !is_white_space(#[trigger] word[j])
}

/// Every item of `tokens` is a word, and a text whose last character is no
/// white space has a last word.
pub proof fn lemma_tokens(text: Seq<char>)
    ensures
        forall|i: int| 0 <= i < tokens(text).len() ==> is_word(#[trigger] tokens(text)[i]),
        text.len() > 0 && !is_white_space(text.last()) ==> tokens(text).len() > 0,
    decreases text.len(),
{
    if text.len() > 0 {
        let front = text.drop_last();
        lemma_tokens(front);
        if !is_white_space(text.last()) && front.len() > 0 && !is_white_space(front.last()) {
            assert(is_word(tokens(front).last().push(text.last())));
        }
    }
}

pub fn white_space(c: char) -> (r: bool)
    ensures
        r == is_white_space(c),
{
    let code = c as u32;
    (0x09 <= code && code <= 0x0d) || code == 0x20 || code == 0x85 || code == 0xa0 || code
        == 0x1680 || (0x2000 <= code && code <= 0x200a) || code == 0x2028 || code == 0x2029
        || code == 0x202f || code == 0x205f || code == 0x3000
}

/// The pieces of `text[from..to]` between occurrences of `sep`.
pub fn split_chars(text: &Vec<char>, from: usize, to: usize, sep: char) -> (pieces: Vec<Vec<char>>)
    requires
        from <= to <= text.len(),
    ensures
        views(pieces@) == split(text@.subrange(from as int, to as int), sep),
        pieces.len() >= 1,
{
    let mut pieces: Vec<Vec<char>> = Vec::new();
    let mut piece: Vec<char> = Vec::new();
    let mut i: usize = from;
    while i < to
        invariant
            from <= i <= to <= text.len(),
            views(pieces@).push(piece@) == split(text@.subrange(from as int, i as int), sep),
        decreases to - i,
    {
        let ghost done = text@.subrange(from as int, i as int);
        let ghost next = text@.subrange(from as int, i + 1);
        assert(next.drop_last() =~= done);
        let c = text[i];
        if c == sep {
            pieces.push(piece);
            piece = Vec::new();
        } else {
            piece.push(c);
        }
        i += 1;
    }
    pieces.push(piece);
    pieces
}

/// The words of `text`.
pub fn split_whitespace(text: &str) -> (words: Vec<String>)
    ensures
        views(words@) == tokens(text@),
{
    let mut words: Vec<String> = Vec::new();
    let mut word = String::new();
    let mut in_word = false;
    for c in it: text.chars()
        invariant
            it.seq() == text@,
            in_word <==> it.index() > 0 && !is_white_space(text@[it.index() - 1]),
            !in_word ==> views(words@) == tokens(text@.take(it.index() as int)),
            in_word ==> views(words@).push(word@) == tokens(text@.take(it.index() as int)),
    {
        let ghost i = it.index() as int;
        let ghost done = text@.take(i);
        let ghost next = text@.take(i + 1);
        assert(next.drop_last() =~= done);
        if white_space(c) {
            if in_word {
                words.push(word);
                word = String::new();
                in_word = false;
            }
        } else {
            if in_word {
                word.push(c);
            } else {
                word = String::new();
                word.push(c);
                in_word = true;
            }
        }
    }
    assert(text@.take(text@.len() as int) =~= text@);
    if in_word {
        words.push(word);
    }
    words
}

/// Copies of the strings of `items`.
pub fn owned(items: &[&str]) -> (copies: Vec<String>)
    ensures
        views(copies@) == views(items@),
{
    let mut copies: Vec<String> = Vec::new();
    let mut i: usize = 0;
    while i < items.len()
        invariant
            i <= items.len(),
            copies.len() == i,
            forall|k: int| 0 <= k < i ==> copies@[k]@ == items@[k]@,
        decreases items.len() - i,
    {
        copies.push(items[i].to_owned());
        i += 1;
    }
    copies
}

} // verus!
