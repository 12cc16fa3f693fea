//! What holds of split, trimmed and joined texts, of numbers and of ids.

use vstd::prelude::*;

use crate::ids::id_under;
use crate::search::lemma_first_where;
use crate::text::decimal;
use crate::text::index_of_char;
use crate::text::is_char;
use crate::text::joined;
use crate::text::lemma_split_behind_joined;
use crate::text::split_behind;
use crate::text::split_on;
use crate::text::texts;
use crate::text::trimmed;
use crate::text::white_space;

verus! {

/// A list of texts with `separator` between them.
pub open spec fn joined_with(parts: Seq<Seq<char>>, separator: char) -> Seq<char>
    decreases parts.len(),
{
    if parts.len() == 0 {
        seq![]
    } else if parts.len() == 1 {
        parts[0]
    } else {
        parts[0] + seq![separator] + joined_with(parts.drop_first(), separator)
    }
}

/// The texts of strings are their characters, string by string.
pub proof fn law_texts(strings: Seq<String>)
    ensures
        texts(strings).len() == strings.len(),
        forall|i: int| 0 <= i < strings.len() ==> #[trigger] texts(strings)[i] == strings[i]@,
{
}

/// A character is found where it stands and does not stand before.
pub proof fn law_first_place_of_a_character(s: Seq<char>, c: char)
    ensures
        match index_of_char(s, c) {
            Some(i) => {
                &&& 0 <= i < s.len()
                &&& s[i] == c
                &&& forall|j: int| 0 <= j < i ==> #[trigger] s[j] != c
            },
            None => forall|j: int| 0 <= j < s.len() ==> #[trigger] s[j] != c,
        },
{
    lemma_first_where(s, is_char(c));
    match index_of_char(s, c) {
        Some(i) => {
            assert forall|j: int| 0 <= j < i implies #[trigger] s[j] != c by {
                assert(!is_char(c)(s[j]));
            }
        },
        None => {
            assert forall|j: int| 0 <= j < s.len() implies #[trigger] s[j] != c by {
                assert(!is_char(c)(s[j]));
            }
        },
    }
}

/// The parts of a split text hold no separator, and put together with separators
/// between them they are the text.
pub proof fn law_split_parts(s: Seq<char>, separator: char)
    ensures
        split_on(s, separator).len() > 0,
        joined_with(split_on(s, separator), separator) == s,
        forall|i: int, k: int|
            0 <= i < split_on(s, separator).len() && 0 <= k < split_on(s, separator)[i].len()
                ==> #[trigger] split_on(s, separator)[i][k] != separator,
    decreases s.len(),
{
    law_first_place_of_a_character(s, separator);
    let parts = split_on(s, separator);
    match index_of_char(s, separator) {
        None => {
            assert(parts == seq![s]);
        },
        Some(at) => {
            let rest = s.skip(at + 1);
            law_split_parts(rest, separator);
            assert(parts.drop_first() == split_on(rest, separator));
            assert(s.take(at) + seq![separator] + rest == s);
            assert forall|i: int, k: int|
                0 <= i < parts.len() && 0 <= k < parts[i].len() implies #[trigger] parts[i][k]
                != separator by {
                if i == 0 {
                    assert(parts[i][k] == s[k]);
                } else {
                    assert(parts[i] == split_on(rest, separator)[i - 1]);
                }
            }
        },
    }
}

/// The pieces of a text cut behind a character make up the text; none is empty, the
/// character stands at the end of a piece alone, and at the end of each but the last.
pub proof fn law_pieces_behind(s: Seq<char>, end: char)
    ensures
        joined(split_behind(s, end)) == s,
        forall|i: int|
            0 <= i < split_behind(s, end).len() ==> (#[trigger] split_behind(s, end)[i]).len() > 0,
        forall|i: int, k: int|
            0 <= i < split_behind(s, end).len() && 0 <= k < split_behind(s, end)[i].len() - 1
                ==> #[trigger] split_behind(s, end)[i][k] != end,
        forall|i: int|
            0 <= i < split_behind(s, end).len() - 1 ==> (#[trigger] split_behind(s, end)[i]).last()
                == end,
    decreases s.len(),
{
    lemma_split_behind_joined(s, end);
    law_first_place_of_a_character(s, end);
    let pieces = split_behind(s, end);
    if s.len() > 0 {
        match index_of_char(s, end) {
            None => {
                assert(pieces == seq![s]);
            },
            Some(at) => {
                let rest = s.skip(at + 1);
                law_pieces_behind(rest, end);
                assert forall|i: int| 0 < i < pieces.len() implies #[trigger] pieces[i]
                    == split_behind(rest, end)[i - 1] by {}
                assert(pieces[0] == s.take(at + 1));
                assert(pieces[0].last() == s[at]);
                assert forall|i: int, k: int|
                    0 <= i < pieces.len() && 0 <= k < pieces[i].len() - 1 implies #[trigger] pieces[i][k]
                    != end by {
                    if i == 0 {
                        assert(pieces[i][k] == s[k]);
                    } else {
                        assert(pieces[i] == split_behind(rest, end)[i - 1]);
                    }
                }
            },
        }
    }
}

/// A text without the white space at its ends: white space, the trimmed text, white
/// space; and the trimmed text has no white space at its ends.
pub proof fn law_trimmed(s: Seq<char>) -> (cut: (int, int))
    ensures
        0 <= cut.0 <= cut.1 <= s.len(),
        trimmed(s) == s.subrange(cut.0, cut.1),
        forall|i: int| 0 <= i < cut.0 ==> white_space(#[trigger] s[i]),
        forall|i: int| cut.1 <= i < s.len() ==> white_space(#[trigger] s[i]),
        trimmed(s).len() > 0 ==> !white_space(trimmed(s)[0]) && !white_space(trimmed(s).last()),
    decreases s.len(),
{
    if s.len() == 0 {
        assert(s == s.subrange(0, 0));
        (0, 0)
    } else if white_space(s[0]) {
        let rest = s.drop_first();
        let inner = law_trimmed(rest);
        assert(rest.subrange(inner.0, inner.1) == s.subrange(inner.0 + 1, inner.1 + 1));
        assert forall|i: int| 0 <= i < inner.0 + 1 implies white_space(#[trigger] s[i]) by {
            if i > 0 {
                assert(rest[i - 1] == s[i]);
            }
        }
        assert forall|i: int| inner.1 + 1 <= i < s.len() implies white_space(#[trigger] s[i]) by {
            assert(rest[i - 1] == s[i]);
        }
        (inner.0 + 1, inner.1 + 1)
    } else if white_space(s.last()) {
        let rest = s.drop_last();
        let inner = law_trimmed(rest);
        assert(rest.subrange(inner.0, inner.1) == s.subrange(inner.0, inner.1));
        assert forall|i: int| 0 <= i < inner.0 implies white_space(#[trigger] s[i]) by {
            assert(rest[i] == s[i]);
        }
        assert forall|i: int| inner.1 <= i < s.len() implies white_space(#[trigger] s[i]) by {
            if i < s.len() - 1 {
                assert(rest[i] == s[i]);
            }
        }
        inner
    } else {
        assert(s == s.subrange(0, s.len() as int));
        (0, s.len() as int)
    }
}

/// The number that decimal digits stand for.
pub open spec fn number_of(digits: Seq<char>) -> int
    decreases digits.len(),
{
    if digits.len() == 0 {
        0
    } else {
        10 * number_of(digits.drop_last()) + (digits.last() as int - '0' as int)
    }
}

/// A number in decimal is digits that stand for it, without a leading zero.
pub proof fn law_decimal_stands_for_its_number(n: nat)
    ensures
        number_of(decimal(n)) == n,
        decimal(n).len() > 0,
        forall|i: int| 0 <= i < decimal(n).len() ==> '0' <= #[trigger] decimal(n)[i] <= '9',
        decimal(n).len() > 1 ==> decimal(n)[0] != '0',
    decreases n,
{
    reveal_strlit("0123456789");
    let digits = decimal(n);
    if n < 10 {
        assert(digits.drop_last() == Seq::<char>::empty());
        assert(number_of(digits.drop_last()) == 0);
    } else {
        law_decimal_stands_for_its_number(n / 10);
        assert(digits.drop_last() == decimal(n / 10));
        assert(digits[0] == decimal(n / 10)[0]);
        if decimal(n / 10).len() == 1 {
            assert(decimal(n / 10).drop_last() == Seq::<char>::empty());
            assert(number_of(decimal(n / 10).drop_last()) == 0);
        }
    }
}

/// An id under a prefix is the prefix and, behind it, 36 characters: hexadecimal
/// digits of which one tells the version and one the variant, and four hyphens.
pub proof fn law_form_of_an_id(prefix: Seq<char>, id: Seq<char>)
    requires
        id_under(prefix, id),
    ensures
        id.len() == prefix.len() + 36,
        id.take(prefix.len() as int) == prefix,
        forall|k: int|
            0 <= k < 36 ==> {
                let c = #[trigger] id.skip(prefix.len() as int)[k];
                if k == 8 || k == 13 || k == 18 || k == 23 {
                    c == '-'
                } else {
                    '0' <= c <= '9' || 'a' <= c <= 'f'
                }
            },
        id.skip(prefix.len() as int)[14] == '4',
        seq!['8', '9', 'a', 'b'].contains(id.skip(prefix.len() as int)[19]),
{
    let tail = id.skip(prefix.len() as int);
    assert(id.take(prefix.len() as int) == prefix);
    let variants = seq!['8', '9', 'a', 'b'];
    assert(variants[0] == '8' && variants[1] == '9' && variants[2] == 'a' && variants[3] == 'b');
}

} // verus!
