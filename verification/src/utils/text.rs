//! Texts cut at commas, each part freed of the white space around it.

use vstd::prelude::*;
use vstd::string::StrSliceExecFns;

verus! {

/// Whether a character is white space: one of the characters with the
/// Unicode property `White_Space`.
pub open spec fn is_white_space(c: char) -> bool {
    ||| c == '\u{9}' || c == '\u{a}' || c == '\u{b}' || c == '\u{c}' || c == '\u{d}'
    ||| c == '\u{20}' || c == '\u{85}' || c == '\u{a0}' || c == '\u{1680}'
    ||| c == '\u{2000}' || c == '\u{2001}' || c == '\u{2002}' || c == '\u{2003}'
    ||| c == '\u{2004}' || c == '\u{2005}' || c == '\u{2006}' || c == '\u{2007}'
    ||| c == '\u{2008}' || c == '\u{2009}' || c == '\u{200a}'
    ||| c == '\u{2028}' || c == '\u{2029}' || c == '\u{202f}' || c == '\u{205f}'
    ||| c == '\u{3000}'
}

/// Whether a character is white space: `char::is_whitespace`.
///
/// Assumed: the call says yes of the characters with the Unicode property
/// `White_Space`, which [`is_white_space`] lists, and of no others.
#[verifier::external_body]
fn white_space(c: char) -> (white: bool)
    ensures
        white == is_white_space(c),
{
    c.is_whitespace()
}

/// A text without the white space at its start.
pub open spec fn trimmed_start(text: Seq<char>) -> Seq<char>
    decreases text.len(),
{
    if text.len() > 0 && is_white_space(text[0]) {
        trimmed_start(text.drop_first())
    } else {
        text
    }
}

/// A text without the white space at its end.
pub open spec fn trimmed_end(text: Seq<char>) -> Seq<char>
    decreases text.len(),
{
    if text.len() > 0 && is_white_space(text.last()) {
        trimmed_end(text.drop_last())
    } else {
        text
    }
}

/// A text without the white space at its start and at its end.
pub open spec fn trimmed(text: Seq<char>) -> Seq<char> {
    trimmed_end(trimmed_start(text))
}

/// The parts of `text` from `start` on, cut at each comma from `at` on and
/// trimmed; there is no comma between `start` and `at`.
pub open spec fn parts_from(text: Seq<char>, start: int, at: int) -> Seq<Seq<char>>
    decreases text.len() - at,
{
    if at >= text.len() {
        seq![trimmed(text.subrange(start, text.len() as int))]
    } else if text[at] == ',' {
        seq![trimmed(text.subrange(start, at))] + parts_from(text, at + 1, at + 1)
    } else {
        parts_from(text, start, at + 1)
    }
}

/// The parts of a text that lists them with commas in between, each
/// trimmed: one more than there are commas.
pub open spec fn comma_list(text: Seq<char>) -> Seq<Seq<char>> {
    parts_from(text, 0, 0)
}

/// What each of `texts` holds.
pub open spec fn text_views(texts: Seq<String>) -> Seq<Seq<char>> {
    texts.map_values(|text: String| text@)
}

/// A text without the white space at its start and at its end.
pub fn trim_text(text: &str) -> (result: String)
    ensures
        result@ == trimmed(text@),
{
    let length = text.unicode_len();
    let mut from: usize = 0;
    let mut scanning = true;
    assert(text@.subrange(0, length as int) == text@);
    while scanning && from < length
        invariant
            from <= length,
            length == text@.len(),
            trimmed_start(text@) == trimmed_start(text@.subrange(from as int, length as int)),
            !scanning ==> from < length && !is_white_space(text@[from as int]),
        decreases length - from + if scanning { 1nat } else { 0nat },
    {
        let ghost rest = text@.subrange(from as int, length as int);
        assert(rest[0] == text@[from as int]);
        if white_space(text.get_char(from)) {
            assert(rest.drop_first() == text@.subrange(from + 1, length as int));
            from += 1;
        } else {
            scanning = false;
        }
    }
    let ghost rest = text@.subrange(from as int, length as int);
    assert(trimmed_start(text@) == rest) by {
        if from < length {
            assert(rest[0] == text@[from as int]);
        }
    }
    let mut to: usize = length;
    scanning = true;
    while scanning && from < to
        invariant
            from <= to <= length,
            length == text@.len(),
            trimmed_end(rest) == trimmed_end(text@.subrange(from as int, to as int)),
            !scanning ==> from < to && !is_white_space(text@[to - 1]),
        decreases to - from + if scanning { 1nat } else { 0nat },
    {
        let ghost kept = text@.subrange(from as int, to as int);
        assert(kept.last() == text@[to - 1]);
        if white_space(text.get_char(to - 1)) {
            assert(kept.drop_last() == text@.subrange(from as int, to - 1));
            to -= 1;
        } else {
            scanning = false;
        }
    }
    let ghost kept = text@.subrange(from as int, to as int);
    assert(trimmed_end(rest) == kept) by {
        if from < to {
            assert(kept.last() == text@[to - 1]);
        }
    }
    text.substring_char(from, to).to_owned()
}

/// The parts of a text that lists them with commas in between, each
/// trimmed.
pub fn split_list(text: &str) -> (parts: Vec<String>)
    ensures
        text_views(parts@) == comma_list(text@),
{
    let length = text.unicode_len();
    let mut parts: Vec<String> = Vec::new();
    let mut start: usize = 0;
    let mut at: usize = 0;
    assert(text_views(parts@) + parts_from(text@, 0, 0) =~= comma_list(text@));
    while at < length
        invariant
            start <= at <= length,
            length == text@.len(),
            text_views(parts@) + parts_from(text@, start as int, at as int) == comma_list(text@),
        decreases length - at,
    {
        if text.get_char(at) == ',' {
            let ghost held = parts@;
            let part = trim_text(text.substring_char(start, at));
            parts.push(part);
            assert(text_views(parts@) =~= text_views(held).push(part@));
            assert(text_views(parts@) + parts_from(text@, at + 1, at + 1) =~= text_views(held)
                + parts_from(text@, start as int, at as int));
            start = at + 1;
        }
        at += 1;
    }
    let ghost held = parts@;
    let part = trim_text(text.substring_char(start, length));
    parts.push(part);
    assert(text_views(parts@) =~= text_views(held).push(part@));
    assert(text_views(parts@) =~= text_views(held) + parts_from(text@, start as int, at as int));
    parts
}

} // verus!
