//! Strings as sequences of characters: splitting, trimming and joining.

use vstd::prelude::*;
use vstd::string::*;

use crate::search::first_where;
use crate::search::lemma_first_where;
use crate::search::lemma_first_where_at;
use crate::search::lemma_first_where_none;

verus! {

/// `==` on `str` (`std`): true exactly when the two strings hold the same characters.
pub assume_specification[ <str as PartialEq<str>>::eq ](a: &str, b: &str) -> (same: bool)
    ensures
        same == (a@ == b@),
;

/// The characters with the Unicode property `White_Space`.
pub open spec fn white_space(c: char) -> bool {
    ||| '\u{9}' <= c <= '\u{d}'
    ||| c == '\u{20}'
    ||| c == '\u{85}'
    ||| c == '\u{a0}'
    ||| c == '\u{1680}'
    ||| '\u{2000}' <= c <= '\u{200a}'
    ||| c == '\u{2028}'
    ||| c == '\u{2029}'
    ||| c == '\u{202f}'
    ||| c == '\u{205f}'
    ||| c == '\u{3000}'
}

/// `char::is_whitespace` (`std`): true exactly for the characters with the
/// Unicode property `White_Space`.
pub assume_specification[ char::is_whitespace ](c: char) -> (white: bool)
    ensures
        white == white_space(c),
;

/// The texts of a list of strings.
pub open spec fn texts(strings: Seq<String>) -> Seq<Seq<char>> {
    strings.map_values(|s: String| s@)
}

/// The condition of being the character `c`.
pub open spec fn is_char(c: char) -> spec_fn(char) -> bool {
    |x: char| x == c
}

/// Where `c` first stands in `s`.
pub open spec fn index_of_char(s: Seq<char>, c: char) -> Option<int> {
    first_where(s, is_char(c))
}

/// The parts of `s` between the occurrences of `separator`: always at least one part.
pub open spec fn split_on(s: Seq<char>, separator: char) -> Seq<Seq<char>>
    decreases s.len(),
{
    proof {
        lemma_first_where(s, is_char(separator));
    }
    match index_of_char(s, separator) {
        None => seq![s],
        Some(i) => seq![s.take(i)] + split_on(s.skip(i + 1), separator),
    }
}

/// `s` cut behind every occurrence of `end`; each piece keeps the `end` that closes it.
pub open spec fn split_behind(s: Seq<char>, end: char) -> Seq<Seq<char>>
    decreases s.len(),
{
    proof {
        lemma_first_where(s, is_char(end));
    }
    if s.len() == 0 {
        seq![]
    } else {
        match index_of_char(s, end) {
            None => seq![s],
            Some(i) => seq![s.take(i + 1)] + split_behind(s.skip(i + 1), end),
        }
    }
}

/// `s` without the white space at its two ends.
pub open spec fn trimmed(s: Seq<char>) -> Seq<char>
    decreases s.len(),
{
    if s.len() == 0 {
        s
    } else if white_space(s[0]) {
        trimmed(s.drop_first())
    } else if white_space(s.last()) {
        trimmed(s.drop_last())
    } else {
        s
    }
}

/// The concatenation of a list of texts.
pub open spec fn joined(parts: Seq<Seq<char>>) -> Seq<char>
    decreases parts.len(),
{
    if parts.len() == 0 {
        seq![]
    } else {
        parts[0] + joined(parts.drop_first())
    }
}

/// The characters of `text`, one by one.
fn chars_of(text: &str) -> (chars: Vec<char>)
    ensures
        chars@ == text@,
{
    let mut chars: Vec<char> = Vec::new();
    for c in it: text.chars()
        invariant
            chars@ == text@.take(it.index()),
            it.seq() == text@,
    {
        chars.push(c);
    }
    chars
}

/// The first index at or behind `from` where `wanted` stands in `chars`, or the
/// length of `chars` if it stands nowhere there.
fn find_char(chars: &Vec<char>, from: usize, wanted: char) -> (at: usize)
    requires
        from <= chars@.len(),
    ensures
        from <= at <= chars@.len(),
        match index_of_char(chars@.skip(from as int), wanted) {
            Some(i) => at == from + i && at < chars@.len() && chars@[at as int] == wanted,
            None => at == chars@.len(),
        },
{
    let ghost rest = chars@.skip(from as int);
    let mut at: usize = from;
    while at < chars.len() && chars[at] != wanted
        invariant
            from <= at <= chars@.len(),
            rest == chars@.skip(from as int),
            forall|j: int| 0 <= j < at - from ==> #[trigger] rest[j] != wanted,
        decreases chars@.len() - at,
    {
        assert(rest[at - from] == chars@[at as int]);
        at += 1;
    }
    proof {
        if at < chars@.len() {
            assert(rest[at - from] == chars@[at as int]);
            lemma_first_where_at(rest, is_char(wanted), at - from);
        } else {
            lemma_first_where_none(rest, is_char(wanted));
        }
    }
    at
}

/// Splits `text` at every `separator`.
pub fn split(text: &str, separator: char) -> (parts: Vec<String>)
    ensures
        texts(parts@) == split_on(text@, separator),
{
    let chars = chars_of(text);
    let mut parts: Vec<String> = Vec::new();
    let mut start: usize = 0;
    let mut at = find_char(&chars, 0, separator);
    assert(text@.skip(0) == text@);
    while at < chars.len()
        invariant
            chars@ == text@,
            start <= at <= chars@.len(),
            match index_of_char(text@.skip(start as int), separator) {
                Some(i) => at == start + i && at < chars@.len(),
                None => at == chars@.len(),
            },
            split_on(text@, separator) == texts(parts@) + split_on(
                text@.skip(start as int),
                separator,
            ),
        decreases chars@.len() - at,
    {
        let ghost rest = text@.skip(start as int);
        let ghost before = parts@;
        let part = text.substring_char(start, at).to_owned();
        parts.push(part);
        proof {
            assert(rest.take(at - start) == text@.subrange(start as int, at as int));
            assert(rest.skip(at - start + 1) == text@.skip(at + 1));
            assert(texts(parts@) == texts(before) + seq![part@]);
        }
        start = at + 1;
        at = find_char(&chars, start, separator);
    }
    let ghost before = parts@;
    let part = text.substring_char(start, chars.len()).to_owned();
    parts.push(part);
    proof {
        assert(text@.skip(start as int) == text@.subrange(start as int, text@.len() as int));
        assert(texts(parts@) == texts(before) + seq![part@]);
    }
    parts
}

/// Splits `text` around its first `separator`; `None` if it holds none.
pub fn split_once(text: &str, separator: char) -> (halves: Option<(String, String)>)
    ensures
        match index_of_char(text@, separator) {
            Some(i) => halves matches Some((head, tail)) && head@ == text@.take(i) && tail@
                == text@.skip(i + 1),
            None => halves is None,
        },
{
    let chars = chars_of(text);
    let at = find_char(&chars, 0, separator);
    assert(text@.skip(0) == text@);
    if at < chars.len() {
        proof {
            assert(text@.take(at as int) == text@.subrange(0, at as int));
            assert(text@.skip(at + 1) == text@.subrange(at + 1, text@.len() as int));
        }
        let head = text.substring_char(0, at).to_owned();
        let tail = text.substring_char(at + 1, chars.len()).to_owned();
        Some((head, tail))
    } else {
        None
    }
}

/// Cuts `text` behind every `end`.
pub fn split_inclusive(text: &str, end: char) -> (pieces: Vec<String>)
    ensures
        texts(pieces@) == split_behind(text@, end),
{
    let chars = chars_of(text);
    let mut pieces: Vec<String> = Vec::new();
    let mut start: usize = 0;
    assert(text@.skip(0) == text@);
    assert(texts(pieces@) =~= seq![]);
    while start < chars.len()
        invariant
            chars@ == text@,
            start <= chars@.len(),
            split_behind(text@, end) == texts(pieces@) + split_behind(
                text@.skip(start as int),
                end,
            ),
        decreases chars@.len() - start,
    {
        let ghost rest = text@.skip(start as int);
        let ghost before = pieces@;
        let at = find_char(&chars, start, end);
        let stop: usize = if at < chars.len() {
            at + 1
        } else {
            at
        };
        let piece = text.substring_char(start, stop).to_owned();
        pieces.push(piece);
        proof {
            assert(texts(pieces@) == texts(before) + seq![piece@]);
            assert(rest.take(stop - start) == text@.subrange(start as int, stop as int));
            assert(rest.skip(stop - start) == text@.skip(stop as int));
            if at == chars@.len() {
                assert(rest.take(stop - start) == rest);
                assert(text@.skip(stop as int) == Seq::<char>::empty());
            }
        }
        start = stop;
    }
    assert(text@.skip(start as int) == Seq::<char>::empty());
    pieces
}

/// `text` without the white space at its two ends.
pub fn trim(text: &str) -> (inner: String)
    ensures
        inner@ == trimmed(text@),
{
    let chars = chars_of(text);
    let mut start: usize = 0;
    let mut stop: usize = chars.len();
    assert(text@.subrange(0, text@.len() as int) == text@);
    while start < stop && chars[start].is_whitespace()
        invariant
            chars@ == text@,
            start <= stop == chars@.len(),
            trimmed(text@) == trimmed(text@.subrange(start as int, stop as int)),
        decreases stop - start,
    {
        proof {
            let rest = text@.subrange(start as int, stop as int);
            assert(rest.drop_first() == text@.subrange(start + 1, stop as int));
        }
        start += 1;
    }
    while start < stop && chars[stop - 1].is_whitespace()
        invariant
            chars@ == text@,
            start <= stop <= chars@.len(),
            start < stop ==> !white_space(chars@[start as int]),
            trimmed(text@) == trimmed(text@.subrange(start as int, stop as int)),
        decreases stop - start,
    {
        proof {
            let rest = text@.subrange(start as int, stop as int);
            assert(rest.drop_last() == text@.subrange(start as int, stop - 1));
        }
        stop -= 1;
    }
    text.substring_char(start, stop).to_owned()
}

/// What follows `prefix` in `text`; `None` if `text` does not start with it.
pub fn strip_prefix(text: &str, prefix: &str) -> (rest: Option<String>)
    ensures
        match rest {
            Some(tail) => text@ == prefix@ + tail@,
            None => !prefix@.is_prefix_of(text@),
        },
{
    let length = text.unicode_len();
    let cut = prefix.unicode_len();
    if cut > length {
        return None;
    }
    let head = text.substring_char(0, cut);
    if *head == *prefix {
        let tail = text.substring_char(cut, length).to_owned();
        assert(text@ == prefix@ + tail@);
        Some(tail)
    } else {
        assert(head@ != prefix@);
        None
    }
}

/// `head` followed by `tail`.
pub fn concat(head: &str, tail: &str) -> (whole: String)
    ensures
        whole@ == head@ + tail@,
{
    let mut whole = head.to_owned();
    whole.append(tail);
    whole
}

/// The digits of a number in decimal.
pub open spec fn decimal(n: nat) -> Seq<char>
    decreases n,
{
    if n < 10 {
        seq!["0123456789"@[n as int]]
    } else {
        decimal(n / 10).push("0123456789"@[(n % 10) as int])
    }
}

/// The text of a number in decimal.
pub fn decimal_text(n: u16) -> (text: String)
    ensures
        text@ == decimal(n as nat),
    decreases n,
{
    proof {
        reveal_strlit("0123456789");
    }
    let digits = "0123456789";
    let mut text = if n < 10 {
        String::new()
    } else {
        decimal_text(n / 10)
    };
    let last: usize = (n % 10) as usize;
    text.append(digits.substring_char(last, last + 1));
    assert(text@ =~= decimal(n as nat));
    text
}

/// The pieces of a text that was cut behind a character make up the text again.
pub proof fn lemma_split_behind_joined(s: Seq<char>, end: char)
    ensures
        joined(split_behind(s, end)) == s,
    decreases s.len(),
{
    lemma_first_where(s, is_char(end));
    if s.len() == 0 {
    } else {
        match index_of_char(s, end) {
            None => {
                assert(seq![s].drop_first() == Seq::<Seq<char>>::empty());
                reveal_with_fuel(joined, 2);
            },
            Some(i) => {
                let rest = s.skip(i + 1);
                lemma_split_behind_joined(rest, end);
                let parts = split_behind(s, end);
                assert(parts.drop_first() == split_behind(rest, end));
                assert(s.take(i + 1) + rest == s);
            },
        }
    }
}

} // verus!
