//! The text of a cache record.
//!
//! A record is one JSON object without any whitespace, with the members
//! `version`, `env_files` and `body` in this order. Strings are escaped in one
//! fixed way, so every configuration has exactly one text, and a text is read
//! back only if it is the text of some configuration.

use crate::config::{texts_of, FinalConfig, FinalConfigView};
use crate::text::push_char;
use vstd::prelude::*;

verus! {

/// The letter that follows the backslash in the two-character escape of `c`,
/// for the characters that have one.
pub open spec fn short_escape(c: char) -> Option<char> {
    if c == '"' {
        Some('"')
    } else if c == '\\' {
        Some('\\')
    } else if c == '\u{8}' {
        Some('b')
    } else if c == '\u{c}' {
        Some('f')
    } else if c == '\n' {
        Some('n')
    } else if c == '\r' {
        Some('r')
    } else if c == '\t' {
        Some('t')
    } else {
        None
    }
}

/// The lower-case hexadecimal digit for `n`, where `n` is below 16.
pub open spec fn hex_digit(n: int) -> char {
    if n < 10 {
        ('0' as int + n) as char
    } else {
        ('a' as int + n - 10) as char
    }
}

/// Whether `c` is a control character, which a record never holds unescaped.
pub open spec fn is_control(c: char) -> bool {
    (c as int) < 0x20
}

/// How one character stands inside a quoted string: a backslash and a letter
/// where it has a short escape, `\u00` and two hexadecimal digits for any other
/// control character, and itself otherwise.
pub open spec fn escaped_char(c: char) -> Seq<char> {
    match short_escape(c) {
        Some(letter) => seq!['\\', letter],
        None => if is_control(c) {
            seq!['\\', 'u', '0', '0', hex_digit((c as int) / 16), hex_digit((c as int) % 16)]
        } else {
            seq![c]
        },
    }
}

/// The characters of `text`, each one escaped.
pub open spec fn escaped(text: Seq<char>) -> Seq<char>
    decreases text.len(),
{
    if text.len() == 0 {
        Seq::empty()
    } else {
        escaped_char(text[0]) + escaped(text.skip(1))
    }
}

/// `text` as a JSON string: escaped, between double quotes.
pub open spec fn quoted(text: Seq<char>) -> Seq<char> {
    seq!['"'] + escaped(text) + seq!['"']
}

/// The items as JSON strings, with a comma between each two.
pub open spec fn joined(items: Seq<Seq<char>>) -> Seq<char>
    decreases items.len(),
{
    if items.len() == 0 {
        Seq::empty()
    } else if items.len() == 1 {
        quoted(items[0])
    } else {
        quoted(items[0]) + seq![','] + joined(items.skip(1))
    }
}

/// `items` as a JSON array of strings.
pub open spec fn listed(items: Seq<Seq<char>>) -> Seq<char> {
    seq!['['] + joined(items) + seq![']']
}

/// One member of a JSON object: the name as a string, a colon, and the text
/// of the value.
pub open spec fn member(name: Seq<char>, value: Seq<char>) -> Seq<char> {
    quoted(name) + seq![':'] + value
}

/// The text of the cache record for `config`.
pub open spec fn record_text(config: FinalConfigView) -> Seq<char> {
    seq!['{'] + member("version"@, quoted(config.version)) + seq![','] + member(
        "env_files"@,
        listed(config.env_files),
    ) + seq![','] + member("body"@, quoted(config.body)) + seq!['}']
}

/// The hexadecimal digit for `n`.
fn hex_digit_of(n: u8) -> (digit: char)
    requires
        n < 16,
    ensures
        digit == hex_digit(n as int),
{
    if n < 10 {
        ('0' as u8 + n) as char
    } else {
        ('a' as u8 + (n - 10)) as char
    }
}

/// The letter of the short escape of `c`, if it has one.
pub(crate) fn short_escape_of(c: char) -> (letter: Option<char>)
    ensures
        letter == short_escape(c),
{
    if c == '"' {
        Some('"')
    } else if c == '\\' {
        Some('\\')
    } else if c == '\u{8}' {
        Some('b')
    } else if c == '\u{c}' {
        Some('f')
    } else if c == '\n' {
        Some('n')
    } else if c == '\r' {
        Some('r')
    } else if c == '\t' {
        Some('t')
    } else {
        None
    }
}

/// Whether `c` is a control character.
pub(crate) fn is_control_char(c: char) -> (control: bool)
    ensures
        control == is_control(c),
{
    (c as u32) < 0x20
}

/// Appends the escaped form of `c` to `out`.
fn push_escaped_char(out: &mut String, c: char)
    ensures
        final(out)@ == old(out)@ + escaped_char(c),
{
    match short_escape_of(c) {
        Some(letter) => {
            push_char(out, '\\');
            push_char(out, letter);
            assert(out@ =~= old(out)@ + escaped_char(c));
        },
        None => {
            if is_control_char(c) {
                let code: u8 = c as u8;
                push_char(out, '\\');
                push_char(out, 'u');
                push_char(out, '0');
                push_char(out, '0');
                push_char(out, hex_digit_of(code / 16));
                push_char(out, hex_digit_of(code % 16));
                assert(out@ =~= old(out)@ + escaped_char(c));
            } else {
                push_char(out, c);
                assert(out@ =~= old(out)@ + escaped_char(c));
            }
        },
    }
}

/// Appends `text` to `out` as a JSON string.
fn push_quoted(out: &mut String, text: &str)
    ensures
        final(out)@ == old(out)@ + quoted(text@),
{
    push_char(out, '"');
    proof {
        assert(text@.skip(0) =~= text@);
        assert(old(out)@ + quoted(text@) =~= out@ + escaped(text@) + seq!['"']);
    }
    for c in it: text.chars()
        invariant
            it.seq() == text@,
            old(out)@ + quoted(text@) == out@ + escaped(text@.skip(it.index())) + seq!['"'],
    {
        proof {
            let rest = text@.skip(it.index());
            assert(rest[0] == c);
            assert(rest.skip(1) =~= text@.skip(it.index() + 1));
            assert(out@ + escaped_char(c) + escaped(rest.skip(1)) =~= out@ + escaped(rest));
        }
        push_escaped_char(out, c);
    }
    push_char(out, '"');
    proof {
        assert(text@.skip(text@.len() as int) =~= Seq::<char>::empty());
        assert(out@ =~= old(out)@ + quoted(text@));
    }
}

/// Joining one more item puts it behind the others, after a comma where
/// there are others.
proof fn lemma_joined_push(items: Seq<Seq<char>>, item: Seq<char>)
    ensures
        joined(items.push(item)) == if items.len() == 0 {
            quoted(item)
        } else {
            joined(items) + seq![','] + quoted(item)
        },
    decreases items.len(),
{
    let all = items.push(item);
    if items.len() == 0 {
    } else {
        assert(all[0] == items[0]);
        assert(all.skip(1) =~= items.skip(1).push(item));
        lemma_joined_push(items.skip(1), item);
        assert(joined(all) =~= joined(items) + seq![','] + quoted(item));
    }
}

/// Appends `items` to `out` as a JSON array of strings.
fn push_listed(out: &mut String, items: &Vec<String>)
    ensures
        final(out)@ == old(out)@ + listed(texts_of(items@)),
{
    let ghost all = texts_of(items@);
    push_char(out, '[');
    proof {
        assert(all.take(0) =~= Seq::<Seq<char>>::empty());
        assert(out@ =~= old(out)@ + seq!['['] + joined(all.take(0)));
    }
    let mut i: usize = 0;
    while i < items.len()
        invariant
            i <= items.len(),
            all == texts_of(items@),
            out@ == old(out)@ + seq!['['] + joined(all.take(i as int)),
        decreases items.len() - i,
    {
        let ghost before = out@;
        if i > 0 {
            push_char(out, ',');
        }
        push_quoted(out, items[i].as_str());
        proof {
            let done = all.take(i as int);
            assert(all.take(i + 1) =~= done.push(all[i as int]));
            lemma_joined_push(done, all[i as int]);
            assert(out@ =~= old(out)@ + seq!['['] + joined(all.take(i + 1)));
        }
        i += 1;
    }
    push_char(out, ']');
    proof {
        assert(all.take(all.len() as int) =~= all);
        assert(out@ =~= old(out)@ + listed(all));
    }
}

/// Writes the cache record for `config`.
pub fn serialize(config: &FinalConfig) -> (text: String)
    ensures
        text@ == record_text(config@),
{
    let mut text = String::new();
    push_char(&mut text, '{');
    push_quoted(&mut text, "version");
    push_char(&mut text, ':');
    push_quoted(&mut text, config.version.as_str());
    push_char(&mut text, ',');
    push_quoted(&mut text, "env_files");
    push_char(&mut text, ':');
    push_listed(&mut text, &config.env_files);
    push_char(&mut text, ',');
    push_quoted(&mut text, "body");
    push_char(&mut text, ':');
    push_quoted(&mut text, config.body.as_str());
    push_char(&mut text, '}');
    assert(text@ =~= record_text(config@));
    text
}

} // verus!
