//! `echo`: print the arguments.

use crate::machine::{Step, StepView};
use crate::utils::text::{chars_of, is_word, tokens, views};
use vstd::prelude::*;
use vstd::string::StringExecFns;

verus! {

/// The words with one space between each two.
pub open spec fn join_words(words: Seq<Seq<char>>) -> Seq<char>
    decreases words.len(),
{
    if words.len() == 0 {
        Seq::<char>::empty()
    } else if words.len() == 1 {
        words[0]
    } else {
        join_words(words.drop_last()) + seq![' '] + words.last()
    }
}

/// Whether `text` stands between two characters `quote`.
pub open spec fn wrapped_in(text: Seq<char>, quote: char) -> bool {
    text.len() >= 2 && text[0] == quote && text.last() == quote
}

/// Whether `text` stands between double or between single quotes.
pub open spec fn is_quoted(text: Seq<char>) -> bool {
    wrapped_in(text, '"') || wrapped_in(text, '\'')
}

/// Whether `text` asks for the output of a command: it starts and ends
/// with a backtick.
pub open spec fn is_substitution(text: Seq<char>) -> bool {
    text.len() > 0 && text[0] == '`' && text.last() == '`'
}

/// The control character that a backslash and `letter` stand for, if any.
pub open spec fn control_for(letter: char) -> Option<char> {
    if letter == 'n' {
        Some('\n')
    } else if letter == 't' {
        Some('\t')
    } else if letter == 'r' {
        Some('\r')
    } else if letter == '0' {
        Some('\0')
    } else {
        None
    }
}

/// `text` with each of the sequences `\n`, `\t`, `\r` and `\0` replaced by
/// the control character it stands for, read from left to right.
pub open spec fn escaped(text: Seq<char>) -> Seq<char>
    decreases text.len(),
{
    if text.len() == 0 {
        text
    } else if text.len() >= 2 && text[0] == '\\' && control_for(text[1]) is Some {
        seq![control_for(text[1])->0] + escaped(text.skip(2))
    } else {
        seq![text[0]] + escaped(text.skip(1))
    }
}

/// The only step of `echo`. Without arguments it prints an empty line.
/// Otherwise the arguments are joined by spaces; a text between backticks
/// is refused; a text between double or single quotes loses them; and what
/// is left is printed on a line, escape sequences replaced.
pub open spec fn echo_step(args: Seq<Seq<char>>) -> StepView {
    let text = join_words(args);
    if args.len() == 0 {
        StepView::print("\n"@)
    } else if is_quoted(text) {
        StepView::print(escaped(text.subrange(1, text.len() - 1)) + "\n"@)
    } else if is_substitution(text) {
        StepView::invalid("???: command not found: "@ + text)
    } else {
        StepView::print(escaped(text) + "\n"@)
    }
}

/// A word behind a space is a word of its own.
proof fn lemma_tokens_of_appended_word(text: Seq<char>, word: Seq<char>)
    requires
        is_word(word),
    ensures
        tokens(text + seq![' '] + word) == tokens(text).push(word),
    decreases word.len(),
{
    let all = text + seq![' '] + word;
    let front = all.drop_last();
    let shorter = word.drop_last();
    assert(front =~= text + seq![' '] + shorter);
    if shorter.len() == 0 {
        assert(front.drop_last() =~= text);
        assert(tokens(front) == tokens(text));
        assert(seq![word.last()] =~= word);
    } else {
        lemma_tokens_of_appended_word(text, shorter);
        assert(shorter.push(word.last()) =~= word);
    }
}

/// Splitting undoes joining: the words of the text that `echo` makes of
/// its arguments are those arguments, as long as each of them is a word.
pub proof fn lemma_tokens_of_joined_words(words: Seq<Seq<char>>)
    requires
        forall|i: int| 0 <= i < words.len() ==> is_word(#[trigger] words[i]),
    ensures
        tokens(join_words(words)) == words,
    decreases words.len(),
{
    if words.len() == 1 {
        lemma_word_alone(words[0]);
    } else if words.len() > 1 {
        let front = words.drop_last();
        lemma_tokens_of_joined_words(front);
        lemma_tokens_of_appended_word(join_words(front), words.last());
    }
}

/// A text that is one word has that word as its only token.
pub proof fn lemma_word_alone(word: Seq<char>)
    requires
        is_word(word),
    ensures
        tokens(word) == seq![word],
    decreases word.len(),
{
    let front = word.drop_last();
    if front.len() == 0 {
        assert(tokens(front) =~= Seq::<Seq<char>>::empty());
        assert(seq![word.last()] =~= word);
    } else {
        lemma_word_alone(front);
        assert(front.push(word.last()) =~= word);
    }
}

fn control(letter: char) -> (c: Option<char>)
    ensures
        c == control_for(letter),
{
    if letter == 'n' {
        Some('\n')
    } else if letter == 't' {
        Some('\t')
    } else if letter == 'r' {
        Some('\r')
    } else if letter == '0' {
        Some('\0')
    } else {
        None
    }
}

/// Appends `text[from..to]` to `out`, escape sequences replaced.
fn push_escaped(out: &mut String, text: &Vec<char>, from: usize, to: usize)
    requires
        from <= to <= text.len(),
    ensures
        final(out)@ == old(out)@ + escaped(text@.subrange(from as int, to as int)),
{
    let ghost all = text@.subrange(from as int, to as int);
    let mut i: usize = from;
    assert(all.skip(0) =~= all);
    while i < to
        invariant
            from <= i <= to <= text.len(),
            all == text@.subrange(from as int, to as int),
            old(out)@ + escaped(all) == out@ + escaped(all.skip(i - from)),
        decreases to - i,
    {
        let ghost rest = all.skip(i - from);
        let replaced = if text[i] == '\\' && i + 1 < to {
            control(text[i + 1])
        } else {
            None
        };
        match replaced {
            Some(c) => {
                out.push(c);
                assert(rest.skip(2) =~= all.skip(i + 2 - from));
                i += 2;
            },
            None => {
                out.push(text[i]);
                assert(rest.skip(1) =~= all.skip(i + 1 - from));
                i += 1;
            },
        }
    }
}

/// `text` with each of the sequences `\n`, `\t`, `\r` and `\0` replaced by
/// the control character it stands for.
pub fn escape(text: String) -> (result: String)
    ensures
        result@ == escaped(text@),
{
    let chars = chars_of(text.as_str());
    let mut result = String::new();
    push_escaped(&mut result, &chars, 0, chars.len());
    assert(chars@.subrange(0, chars.len() as int) =~= text@);
    result
}

/// The arguments with one space between each two.
fn joined(args: &[&str]) -> (text: String)
    ensures
        text@ == join_words(views(args@)),
{
    let mut text = String::new();
    let mut i: usize = 0;
    while i < args.len()
        invariant
            i <= args.len(),
            text@ == join_words(views(args@).take(i as int)),
        decreases args.len() - i,
    {
        let ghost next = views(args@).take(i + 1);
        assert(next.drop_last() =~= views(args@).take(i as int));
        if i > 0 {
            text.push(' ');
        }
        text.append(args[i]);
        i += 1;
    }
    assert(views(args@).take(args.len() as int) =~= views(args@));
    text
}

/// Runs `echo` with the arguments `args`.
pub fn echo(args: &[&str]) -> (step: Step)
    ensures
        step@ == echo_step(views(args@)),
{
    if args.len() == 0 {
        return Step::print("\n".to_owned());
    }
    let text = joined(args);
    let chars = chars_of(text.as_str());
    let len = chars.len();
    let mut from: usize = 0;
    let mut to: usize = len;
    if len >= 2 && ((chars[0] == '"' && chars[len - 1] == '"') || (chars[0] == '\''
        && chars[len - 1] == '\'')) {
        from = 1;
        to = len - 1;
    } else if len > 0 && chars[0] == '`' && chars[len - 1] == '`' {
        let mut message = String::from_str("???: command not found: ");
        message.append(text.as_str());
        return Step::invalid(message);
    }
    let mut output = String::new();
    push_escaped(&mut output, &chars, from, to);
    output.append("\n");
    proof {
        assert(chars@.subrange(0, len as int) =~= text@);
    }
    Step::print(output)
}

} // verus!
