//! Reading the parts of a cache record: characters, strings, arrays of
//! strings and member names.
//!
//! Each scanner is the inverse of one part of the format. It takes the text
//! from some point on and gives what stands there together with the text
//! behind it, or nothing where the text does not begin with such a part as
//! writing produces it. Each reader computes what its scanner describes.

use crate::config::texts_of;
use crate::record::{
    escaped, escaped_char, hex_digit, is_control, is_control_char, joined, listed, member, quoted,
    short_escape, short_escape_of,
};
use crate::text::push_char;
use vstd::prelude::*;

verus! {

/// The character that a backslash and `letter` stand for.
pub closed spec fn short_unescape(letter: char) -> Option<char> {
    if letter == '"' {
        Some('"')
    } else if letter == '\\' {
        Some('\\')
    } else if letter == 'b' {
        Some('\u{8}')
    } else if letter == 'f' {
        Some('\u{c}')
    } else if letter == 'n' {
        Some('\n')
    } else if letter == 'r' {
        Some('\r')
    } else if letter == 't' {
        Some('\t')
    } else {
        None
    }
}

/// The number that a lower-case hexadecimal digit stands for.
pub closed spec fn hex_value(digit: char) -> Option<int> {
    if '0' <= digit <= '9' {
        Some(digit as int - '0' as int)
    } else if 'a' <= digit <= 'f' {
        Some(digit as int - 'a' as int + 10)
    } else {
        None
    }
}

/// The control character written as `\u00` and the two digits `high` and
/// `low`, if they are digits and the character has no shorter escape.
pub closed spec fn long_unescape(high: char, low: char) -> Option<char> {
    match (hex_value(high), hex_value(low)) {
        (Some(h), Some(l)) => {
            let code = 16 * h + l;
            if code < 0x20 && short_escape(code as char) is None {
                Some(code as char)
            } else {
                None
            }
        },
        _ => None,
    }
}

/// The character that stands escaped at the front of `rest`, and how many
/// characters its escaped form takes. There is none where `rest` is empty,
/// begins with a double quote, or begins with anything that writing a string
/// never produces.
pub closed spec fn scan_char(rest: Seq<char>) -> Option<(char, int)> {
    if rest.len() == 0 {
        None
    } else if rest[0] == '"' {
        None
    } else if rest[0] == '\\' {
        if rest.len() >= 2 && short_unescape(rest[1]) is Some {
            Some((short_unescape(rest[1])->0, 2))
        } else if rest.len() >= 6 && rest[1] == 'u' && rest[2] == '0' && rest[3] == '0'
            && long_unescape(rest[4], rest[5]) is Some {
            Some((long_unescape(rest[4], rest[5])->0, 6))
        } else {
            None
        }
    } else if is_control(rest[0]) {
        None
    } else {
        Some((rest[0], 1))
    }
}

/// Scanning the escaped form of `c` gives `c` back, whatever follows.
proof fn lemma_scan_char_complete(c: char, rest: Seq<char>)
    ensures
        scan_char(escaped_char(c) + rest) == Some((c, escaped_char(c).len() as int)),
{
    let text = escaped_char(c) + rest;
    if short_escape(c) is Some {
        assert(text[0] == '\\');
        assert(text[1] == short_escape(c)->0);
    } else if is_control(c) {
        let h = (c as int) / 16;
        let l = (c as int) % 16;
        assert(text[0] == '\\');
        assert(text[1] == 'u');
        assert(text[2] == '0');
        assert(text[3] == '0');
        assert(text[4] == hex_digit(h));
        assert(text[5] == hex_digit(l));
        assert(hex_value(hex_digit(h)) == Some(h));
        assert(hex_value(hex_digit(l)) == Some(l));
        assert((16 * h + l) as char == c);
    } else {
        assert(text[0] == c);
    }
}

/// What scanning a character consumed is the escaped form of that character.
proof fn lemma_scan_char_sound(rest: Seq<char>, c: char, n: int)
    requires
        scan_char(rest) == Some((c, n)),
    ensures
        1 <= n <= rest.len(),
        rest.take(n) == escaped_char(c),
{
    if rest[0] == '\\' {
        if rest.len() >= 2 && short_unescape(rest[1]) is Some {
            assert(short_escape(c) == Some(rest[1]));
            assert(rest.take(2) =~= escaped_char(c));
        } else {
            let h = hex_value(rest[4])->0;
            let l = hex_value(rest[5])->0;
            assert(c as int == 16 * h + l);
            assert(hex_digit(h) == rest[4]);
            assert(hex_digit(l) == rest[5]);
            assert(rest.take(6) =~= escaped_char(c));
        }
    } else {
        assert(short_escape(c) is None);
        assert(rest.take(1) =~= escaped_char(c));
    }
}

/// `found` with `front` put before the text that was read.
pub closed spec fn prefixed(front: Seq<char>, found: Option<(Seq<char>, Seq<char>)>) -> Option<
    (Seq<char>, Seq<char>),
> {
    match found {
        Some((text, rest)) => Some((front + text, rest)),
        None => None,
    }
}

/// The string whose escaped characters and closing double quote stand at the
/// front of `rest`, and the text behind that quote.
pub closed spec fn scan_text(rest: Seq<char>) -> Option<(Seq<char>, Seq<char>)>
    decreases rest.len(),
{
    if rest.len() > 0 && rest[0] == '"' {
        Some((Seq::empty(), rest.skip(1)))
    } else {
        match scan_char(rest) {
            Some((c, n)) => if 1 <= n <= rest.len() {
                prefixed(seq![c], scan_text(rest.skip(n)))
            } else {
                None
            },
            None => None,
        }
    }
}

/// The JSON string that stands at the front of `rest`, and the text behind it.
pub closed spec fn scan_quoted(rest: Seq<char>) -> Option<(Seq<char>, Seq<char>)> {
    if rest.len() > 0 && rest[0] == '"' {
        scan_text(rest.skip(1))
    } else {
        None
    }
}

/// Scanning an escaped string and its closing quote gives the string back.
proof fn lemma_scan_text_complete(text: Seq<char>, rest: Seq<char>)
    ensures
        scan_text(escaped(text) + seq!['"'] + rest) == Some((text, rest)),
    decreases text.len(),
{
    let all = escaped(text) + seq!['"'] + rest;
    if text.len() == 0 {
        assert(all[0] == '"');
        assert(all.skip(1) =~= rest);
    } else {
        let c = text[0];
        let head = escaped_char(c);
        let tail = escaped(text.skip(1)) + seq!['"'] + rest;
        assert(all =~= head + tail);
        lemma_scan_char_complete(c, tail);
        assert(all[0] == head[0]);
        assert(all[0] != '"');
        assert(all.skip(head.len() as int) =~= tail);
        lemma_scan_text_complete(text.skip(1), rest);
        assert(seq![c] + text.skip(1) =~= text);
    }
}

/// What scanning a string consumed is its escaped form and a closing quote.
proof fn lemma_scan_text_sound(all: Seq<char>, text: Seq<char>, rest: Seq<char>)
    requires
        scan_text(all) == Some((text, rest)),
    ensures
        all == escaped(text) + seq!['"'] + rest,
    decreases all.len(),
{
    if all.len() > 0 && all[0] == '"' {
        assert(all =~= escaped(text) + seq!['"'] + rest);
    } else {
        let (c, n) = scan_char(all)->0;
        lemma_scan_char_sound(all, c, n);
        let (tail_text, tail_rest) = scan_text(all.skip(n))->0;
        lemma_scan_text_sound(all.skip(n), tail_text, tail_rest);
        assert(text.skip(1) =~= tail_text);
        assert(all =~= all.take(n) + all.skip(n));
        assert(all =~= escaped(text) + seq!['"'] + rest);
    }
}

/// Scanning a JSON string gives the string back.
proof fn lemma_scan_quoted_complete(text: Seq<char>, rest: Seq<char>)
    ensures
        scan_quoted(quoted(text) + rest) == Some((text, rest)),
{
    let all = quoted(text) + rest;
    assert(all[0] == '"');
    assert(all.skip(1) =~= escaped(text) + seq!['"'] + rest);
    lemma_scan_text_complete(text, rest);
}

/// What scanning a JSON string consumed is that string, written out.
proof fn lemma_scan_quoted_sound(all: Seq<char>, text: Seq<char>, rest: Seq<char>)
    requires
        scan_quoted(all) == Some((text, rest)),
    ensures
        all == quoted(text) + rest,
        rest.len() < all.len(),
{
    lemma_scan_text_sound(all.skip(1), text, rest);
    assert(all =~= seq![all[0]] + all.skip(1));
    assert(all =~= quoted(text) + rest);
}

/// `found` with `front` put before the items that were read.
pub closed spec fn preceded(
    front: Seq<Seq<char>>,
    found: Option<(Seq<Seq<char>>, Seq<char>)>,
) -> Option<(Seq<Seq<char>>, Seq<char>)> {
    match found {
        Some((items, rest)) => Some((front + items, rest)),
        None => None,
    }
}

/// The text behind `c`, where `rest` begins with `c`.
pub closed spec fn scan_literal(rest: Seq<char>, c: char) -> Option<Seq<char>> {
    if rest.len() > 0 && rest[0] == c {
        Some(rest.skip(1))
    } else {
        None
    }
}

/// What is left of a JSON array of strings behind its opening bracket and the
/// items before `items`. `first` says that no item came before, so that no
/// comma is due.
pub closed spec fn list_tail(items: Seq<Seq<char>>, first: bool) -> Seq<char>
    decreases items.len(),
{
    if items.len() == 0 {
        seq![']']
    } else {
        (if first {
            Seq::<char>::empty()
        } else {
            seq![',']
        }) + quoted(items[0]) + list_tail(items.skip(1), false)
    }
}

/// Behind the opening bracket, an array is its items, joined, and the closing
/// bracket.
proof fn lemma_list_tail(items: Seq<Seq<char>>, first: bool)
    ensures
        list_tail(items, first) == (if first || items.len() == 0 {
            Seq::<char>::empty()
        } else {
            seq![',']
        }) + joined(items) + seq![']'],
    decreases items.len(),
{
    let comma = if first || items.len() == 0 {
        Seq::<char>::empty()
    } else {
        seq![',']
    };
    if items.len() == 0 {
        assert(list_tail(items, first) =~= comma + joined(items) + seq![']']);
    } else {
        lemma_list_tail(items.skip(1), false);
        if items.len() == 1 {
            assert(joined(items.skip(1)) =~= Seq::<char>::empty());
            assert(list_tail(items, first) =~= comma + joined(items) + seq![']']);
        } else {
            assert(list_tail(items, first) =~= comma + joined(items) + seq![']']);
        }
    }
}

/// The items of a JSON array of strings whose remainder stands at the front of
/// `rest`, and the text behind the closing bracket. `first` says that no item
/// was read yet, so that no comma is due.
pub closed spec fn scan_items(rest: Seq<char>, first: bool) -> Option<(Seq<Seq<char>>, Seq<char>)>
    decreases rest.len(),
{
    if rest.len() > 0 && rest[0] == ']' {
        Some((Seq::empty(), rest.skip(1)))
    } else {
        let start = if first {
            Some(rest)
        } else {
            scan_literal(rest, ',')
        };
        match start {
            Some(start) => match scan_quoted(start) {
                Some((item, behind)) => if behind.len() < rest.len() {
                    preceded(seq![item], scan_items(behind, false))
                } else {
                    None
                },
                None => None,
            },
            None => None,
        }
    }
}

/// The JSON array of strings that stands at the front of `rest`, and the text
/// behind it.
pub closed spec fn scan_listed(rest: Seq<char>) -> Option<(Seq<Seq<char>>, Seq<char>)> {
    match scan_literal(rest, '[') {
        Some(inner) => scan_items(inner, true),
        None => None,
    }
}

/// Scanning the remainder of an array gives its items back.
proof fn lemma_scan_items_complete(items: Seq<Seq<char>>, first: bool, rest: Seq<char>)
    ensures
        scan_items(list_tail(items, first) + rest, first) == Some((items, rest)),
    decreases items.len(),
{
    let all = list_tail(items, first) + rest;
    if items.len() == 0 {
        assert(all[0] == ']');
        assert(all.skip(1) =~= rest);
    } else {
        let behind = list_tail(items.skip(1), false) + rest;
        let start = quoted(items[0]) + behind;
        if first {
            assert(all =~= start);
        } else {
            assert(all[0] == ',');
            assert(all.skip(1) =~= start);
        }
        assert(start[0] == '"');
        assert(all[0] != ']');
        lemma_scan_quoted_complete(items[0], behind);
        lemma_scan_items_complete(items.skip(1), false, rest);
        assert(seq![items[0]] + items.skip(1) =~= items);
    }
}

/// What scanning the remainder of an array consumed is that remainder,
/// written out.
proof fn lemma_scan_items_sound(
    all: Seq<char>,
    first: bool,
    items: Seq<Seq<char>>,
    rest: Seq<char>,
)
    requires
        scan_items(all, first) == Some((items, rest)),
    ensures
        all == list_tail(items, first) + rest,
    decreases all.len(),
{
    if all.len() > 0 && all[0] == ']' {
        assert(all =~= list_tail(items, first) + rest);
    } else {
        let comma = if first {
            Seq::<char>::empty()
        } else {
            seq![',']
        };
        let start = if first {
            all
        } else {
            all.skip(1)
        };
        assert(all =~= comma + start);
        let (item, behind) = scan_quoted(start)->0;
        lemma_scan_quoted_sound(start, item, behind);
        let (tail_items, tail_rest) = scan_items(behind, false)->0;
        lemma_scan_items_sound(behind, false, tail_items, tail_rest);
        assert(items == seq![item] + tail_items);
        assert(rest == tail_rest);
        assert(items.len() > 0);
        assert(items[0] == item);
        assert(items.skip(1) =~= tail_items);
        assert(list_tail(items, first) == comma + quoted(item) + list_tail(tail_items, false));
        assert(comma + (quoted(item) + (list_tail(tail_items, false) + rest)) =~= comma + quoted(
            item,
        ) + list_tail(tail_items, false) + rest);
    }
}

/// Scanning a JSON array of strings gives its items back.
proof fn lemma_scan_listed_complete(items: Seq<Seq<char>>, rest: Seq<char>)
    ensures
        scan_listed(listed(items) + rest) == Some((items, rest)),
{
    let all = listed(items) + rest;
    lemma_list_tail(items, true);
    assert(all[0] == '[');
    assert(all.skip(1) =~= list_tail(items, true) + rest);
    lemma_scan_items_complete(items, true, rest);
}

/// What scanning a JSON array of strings consumed is that array, written out.
proof fn lemma_scan_listed_sound(all: Seq<char>, items: Seq<Seq<char>>, rest: Seq<char>)
    requires
        scan_listed(all) == Some((items, rest)),
    ensures
        all == listed(items) + rest,
{
    lemma_scan_items_sound(all.skip(1), true, items, rest);
    lemma_list_tail(items, true);
    assert(all =~= seq!['['] + all.skip(1));
    assert(all =~= listed(items) + rest);
}

/// The text behind the member name `name` and its colon, where they stand at
/// the front of `rest`.
pub closed spec fn scan_name(rest: Seq<char>, name: Seq<char>) -> Option<Seq<char>> {
    match scan_quoted(rest) {
        Some((found, behind)) => if found == name {
            scan_literal(behind, ':')
        } else {
            None
        },
        None => None,
    }
}

/// Scanning a member name and its colon gives what follows.
proof fn lemma_scan_name_complete(name: Seq<char>, rest: Seq<char>)
    ensures
        scan_name(member(name, rest), name) == Some(rest),
{
    let behind = seq![':'] + rest;
    assert(member(name, rest) =~= quoted(name) + behind);
    lemma_scan_quoted_complete(name, behind);
    assert(behind[0] == ':');
    assert(behind.skip(1) =~= rest);
}

/// What scanning a member name consumed is that name and a colon.
proof fn lemma_scan_name_sound(all: Seq<char>, name: Seq<char>, rest: Seq<char>)
    requires
        scan_name(all, name) == Some(rest),
    ensures
        all == member(name, rest),
{
    let (found, behind) = scan_quoted(all)->0;
    lemma_scan_quoted_sound(all, found, behind);
    assert(behind =~= seq![':'] + rest);
    assert(all =~= member(name, rest));
}

/// What scanning one character consumed is that character.
pub(crate) proof fn lemma_scan_literal_sound(all: Seq<char>, c: char, rest: Seq<char>)
    requires
        scan_literal(all, c) == Some(rest),
    ensures
        all == seq![c] + rest,
{
    assert(all =~= seq![c] + rest);
}

/// Scanning one character gives what follows.
pub(crate) proof fn lemma_scan_literal_complete(c: char, rest: Seq<char>)
    ensures
        scan_literal(seq![c] + rest, c) == Some(rest),
{
    let all = seq![c] + rest;
    assert(all[0] == c);
    assert(all.skip(1) =~= rest);
}

/// The character that a backslash and `letter` stand for.
fn short_unescape_of(letter: char) -> (c: Option<char>)
    ensures
        c == short_unescape(letter),
{
    if letter == '"' {
        Some('"')
    } else if letter == '\\' {
        Some('\\')
    } else if letter == 'b' {
        Some('\u{8}')
    } else if letter == 'f' {
        Some('\u{c}')
    } else if letter == 'n' {
        Some('\n')
    } else if letter == 'r' {
        Some('\r')
    } else if letter == 't' {
        Some('\t')
    } else {
        None
    }
}

/// The number that a lower-case hexadecimal digit stands for.
fn hex_value_of(digit: char) -> (value: Option<u8>)
    ensures
        match value {
            Some(v) => v < 16 && hex_value(digit) == Some(v as int),
            None => hex_value(digit) is None,
        },
{
    if '0' <= digit && digit <= '9' {
        Some(digit as u8 - '0' as u8)
    } else if 'a' <= digit && digit <= 'f' {
        Some(digit as u8 - 'a' as u8 + 10)
    } else {
        None
    }
}

/// The control character written with the two digits `high` and `low`.
fn long_unescape_of(high: char, low: char) -> (c: Option<char>)
    ensures
        c == long_unescape(high, low),
{
    match (hex_value_of(high), hex_value_of(low)) {
        (Some(h), Some(l)) => {
            if h < 2 {
                let c = (16 * h + l) as char;
                if short_escape_of(c).is_none() {
                    Some(c)
                } else {
                    None
                }
            } else {
                None
            }
        },
        _ => None,
    }
}

/// Reads the escaped character at `pos`, and says how many characters it takes.
fn read_char(src: &Vec<char>, pos: usize) -> (found: Option<(char, usize)>)
    requires
        pos <= src.len(),
    ensures
        match found {
            Some((c, n)) => 1 <= n && pos + n <= src.len() && scan_char(src@.skip(pos as int))
                == Some((c, n as int)),
            None => scan_char(src@.skip(pos as int)) is None,
        },
{
    let len = src.len();
    if pos >= len {
        return None;
    }
    let c = src[pos];
    let ghost rest = src@.skip(pos as int);
    assert(rest.len() == len - pos);
    assert(rest[0] == c);
    if c == '"' {
        None
    } else if c == '\\' {
        if len - pos < 2 {
            return None;
        }
        assert(rest[1] == src[pos + 1]);
        proof {
            if rest.len() >= 6 {
                assert(rest[2] == src[pos + 2]);
                assert(rest[3] == src[pos + 3]);
                assert(rest[4] == src[pos + 4]);
                assert(rest[5] == src[pos + 5]);
            }
        }
        match short_unescape_of(src[pos + 1]) {
            Some(plain) => Some((plain, 2)),
            None => {
                if len - pos >= 6 && src[pos + 1] == 'u' && src[pos + 2] == '0' && src[pos + 3]
                    == '0' {
                    match long_unescape_of(src[pos + 4], src[pos + 5]) {
                        Some(control) => Some((control, 6)),
                        None => None,
                    }
                } else {
                    None
                }
            },
        }
    } else if is_control_char(c) {
        None
    } else {
        Some((c, 1))
    }
}

/// Reads the escaped characters of a string from `pos` up to its closing
/// double quote, and gives the string and the position behind the quote.
fn read_text(src: &Vec<char>, pos: usize) -> (found: Option<(String, usize)>)
    requires
        pos <= src.len(),
    ensures
        match found {
            Some((text, end)) => pos < end <= src.len() && scan_text(src@.skip(pos as int))
                == Some((text@, src@.skip(end as int))),
            None => scan_text(src@.skip(pos as int)) is None,
        },
{
    let mut text = String::new();
    let mut at = pos;
    proof {
        let whole = scan_text(src@.skip(pos as int));
        if whole is Some {
            let (all_text, _) = whole->0;
            assert(Seq::<char>::empty() + all_text =~= all_text);
        }
    }
    loop
        invariant
            pos <= at <= src.len(),
            scan_text(src@.skip(pos as int)) == prefixed(text@, scan_text(src@.skip(at as int))),
        decreases src.len() - at,
    {
        let ghost rest = src@.skip(at as int);
        if at < src.len() && src[at] == '"' {
            proof {
                assert(rest.skip(1) =~= src@.skip(at + 1));
                assert(text@ + Seq::<char>::empty() =~= text@);
            }
            return Some((text, at + 1));
        }
        match read_char(src, at) {
            None => {
                return None;
            },
            Some((c, n)) => {
                proof {
                    assert(rest.skip(n as int) =~= src@.skip(at + n));
                    let tail = scan_text(src@.skip(at + n));
                    if tail is Some {
                        let (tail_text, _) = tail->0;
                        assert(text@ + (seq![c] + tail_text) =~= text@.push(c) + tail_text);
                    }
                }
                push_char(&mut text, c);
                at = at + n;
            },
        }
    }
}

/// Reads the JSON string at `pos`, and gives it and the position behind it.
fn read_quoted(src: &Vec<char>, pos: usize) -> (found: Option<(String, usize)>)
    requires
        pos <= src.len(),
    ensures
        match found {
            Some((text, end)) => pos < end <= src.len() && scan_quoted(src@.skip(pos as int))
                == Some((text@, src@.skip(end as int))),
            None => scan_quoted(src@.skip(pos as int)) is None,
        },
{
    if pos < src.len() && src[pos] == '"' {
        proof {
            assert(src@.skip(pos as int).skip(1) =~= src@.skip(pos + 1));
        }
        read_text(src, pos + 1)
    } else {
        None
    }
}

/// Reads the character `c` at `pos`, and gives the position behind it.
pub(crate) fn read_literal(src: &Vec<char>, pos: usize, c: char) -> (end: Option<usize>)
    requires
        pos <= src.len(),
    ensures
        match end {
            Some(end) => end == pos + 1 && end <= src.len() && scan_literal(
                src@.skip(pos as int),
                c,
            ) == Some(src@.skip(end as int)),
            None => scan_literal(src@.skip(pos as int), c) is None,
        },
{
    if pos < src.len() && src[pos] == c {
        proof {
            assert(src@.skip(pos as int).skip(1) =~= src@.skip(pos + 1));
        }
        Some(pos + 1)
    } else {
        None
    }
}

/// Reads the member name `name` and its colon at `pos`, and gives the position
/// behind the colon.
fn read_name(src: &Vec<char>, pos: usize, name: &str) -> (end: Option<usize>)
    requires
        pos <= src.len(),
    ensures
        match end {
            Some(end) => pos < end <= src.len() && scan_name(src@.skip(pos as int), name@) == Some(
                src@.skip(end as int),
            ),
            None => scan_name(src@.skip(pos as int), name@) is None,
        },
{
    match read_quoted(src, pos) {
        Some((found, behind)) => {
            let expected = String::from_str(name);
            if found == expected {
                read_literal(src, behind, ':')
            } else {
                None
            }
        },
        None => None,
    }
}

/// Reads the JSON array of strings at `pos`, and gives its items and the
/// position behind it.
fn read_listed(src: &Vec<char>, pos: usize) -> (found: Option<(Vec<String>, usize)>)
    requires
        pos <= src.len(),
    ensures
        match found {
            Some((items, end)) => pos < end <= src.len() && scan_listed(src@.skip(pos as int))
                == Some((texts_of(items@), src@.skip(end as int))),
            None => scan_listed(src@.skip(pos as int)) is None,
        },
{
    let inner = match read_literal(src, pos, '[') {
        Some(inner) => inner,
        None => {
            return None;
        },
    };
    let mut items: Vec<String> = Vec::new();
    let mut at = inner;
    proof {
        let whole = scan_items(src@.skip(inner as int), true);
        if whole is Some {
            let (all_items, _) = whole->0;
            assert(texts_of(items@) + all_items =~= all_items);
        }
    }
    loop
        invariant
            pos < inner <= at <= src.len(),
            scan_listed(src@.skip(pos as int)) == scan_items(src@.skip(inner as int), true),
            scan_items(src@.skip(inner as int), true) == preceded(
                texts_of(items@),
                scan_items(src@.skip(at as int), items.len() == 0),
            ),
        decreases src.len() - at,
    {
        let ghost rest = src@.skip(at as int);
        proof {
            if at < src.len() {
                assert(rest[0] == src[at as int]);
            }
        }
        if at < src.len() && src[at] == ']' {
            proof {
                assert(rest.skip(1) =~= src@.skip(at + 1));
                assert(texts_of(items@) + Seq::<Seq<char>>::empty() =~= texts_of(items@));
            }
            return Some((items, at + 1));
        }
        let start = if items.len() == 0 {
            at
        } else {
            match read_literal(src, at, ',') {
                Some(start) => start,
                None => {
                    return None;
                },
            }
        };
        match read_quoted(src, start) {
            Some((item, behind)) => {
                proof {
                    let tail = scan_items(src@.skip(behind as int), false);
                    if tail is Some {
                        let (tail_items, _) = tail->0;
                        assert(texts_of(items@) + (seq![item@] + tail_items) =~= texts_of(
                            items@.push(item),
                        ) + tail_items);
                    }
                }
                items.push(item);
                at = behind;
            },
            None => {
                return None;
            },
        }
    }
}

/// The value of the member `name` whose value is a string, where that member
/// stands at the front of `rest`, and the text behind it.
pub closed spec fn scan_text_member(rest: Seq<char>, name: Seq<char>) -> Option<
    (Seq<char>, Seq<char>),
> {
    match scan_name(rest, name) {
        Some(behind) => scan_quoted(behind),
        None => None,
    }
}

/// The value of the member `name` whose value is an array of strings, where
/// that member stands at the front of `rest`, and the text behind it.
pub closed spec fn scan_list_member(rest: Seq<char>, name: Seq<char>) -> Option<
    (Seq<Seq<char>>, Seq<char>),
> {
    match scan_name(rest, name) {
        Some(behind) => scan_listed(behind),
        None => None,
    }
}

/// Scanning a member with a string value gives the string back.
pub(crate) proof fn lemma_scan_text_member_complete(
    name: Seq<char>,
    value: Seq<char>,
    rest: Seq<char>,
)
    ensures
        scan_text_member(member(name, quoted(value)) + rest, name) == Some((value, rest)),
{
    assert(member(name, quoted(value)) + rest =~= member(name, quoted(value) + rest));
    lemma_scan_name_complete(name, quoted(value) + rest);
    lemma_scan_quoted_complete(value, rest);
}

/// What scanning a member with a string value consumed is that member,
/// written out.
pub(crate) proof fn lemma_scan_text_member_sound(
    all: Seq<char>,
    name: Seq<char>,
    value: Seq<char>,
    rest: Seq<char>,
)
    requires
        scan_text_member(all, name) == Some((value, rest)),
    ensures
        all == member(name, quoted(value)) + rest,
{
    let behind = scan_name(all, name)->0;
    lemma_scan_name_sound(all, name, behind);
    lemma_scan_quoted_sound(behind, value, rest);
    assert(member(name, quoted(value)) + rest =~= member(name, quoted(value) + rest));
}

/// Scanning a member with an array value gives the items back.
pub(crate) proof fn lemma_scan_list_member_complete(
    name: Seq<char>,
    items: Seq<Seq<char>>,
    rest: Seq<char>,
)
    ensures
        scan_list_member(member(name, listed(items)) + rest, name) == Some((items, rest)),
{
    assert(member(name, listed(items)) + rest =~= member(name, listed(items) + rest));
    lemma_scan_name_complete(name, listed(items) + rest);
    lemma_scan_listed_complete(items, rest);
}

/// What scanning a member with an array value consumed is that member,
/// written out.
pub(crate) proof fn lemma_scan_list_member_sound(
    all: Seq<char>,
    name: Seq<char>,
    items: Seq<Seq<char>>,
    rest: Seq<char>,
)
    requires
        scan_list_member(all, name) == Some((items, rest)),
    ensures
        all == member(name, listed(items)) + rest,
{
    let behind = scan_name(all, name)->0;
    lemma_scan_name_sound(all, name, behind);
    lemma_scan_listed_sound(behind, items, rest);
    assert(member(name, listed(items)) + rest =~= member(name, listed(items) + rest));
}

/// Reads the member `name` with a string value at `pos`, and gives the value
/// and the position behind it.
pub(crate) fn read_text_member(src: &Vec<char>, pos: usize, name: &str) -> (found: Option<
    (String, usize),
>)
    requires
        pos <= src.len(),
    ensures
        match found {
            Some((value, end)) => pos < end <= src.len() && scan_text_member(
                src@.skip(pos as int),
                name@,
            ) == Some((value@, src@.skip(end as int))),
            None => scan_text_member(src@.skip(pos as int), name@) is None,
        },
{
    match read_name(src, pos, name) {
        Some(behind) => read_quoted(src, behind),
        None => None,
    }
}

/// Reads the member `name` with an array value at `pos`, and gives the items
/// and the position behind them.
pub(crate) fn read_list_member(src: &Vec<char>, pos: usize, name: &str) -> (found: Option<
    (Vec<String>, usize),
>)
    requires
        pos <= src.len(),
    ensures
        match found {
            Some((items, end)) => pos < end <= src.len() && scan_list_member(
                src@.skip(pos as int),
                name@,
            ) == Some((texts_of(items@), src@.skip(end as int))),
            None => scan_list_member(src@.skip(pos as int), name@) is None,
        },
{
    match read_name(src, pos, name) {
        Some(behind) => read_listed(src, behind),
        None => None,
    }
}

} // verus!
