//! Who a request comes from, case by case.

use vstd::prelude::*;

use crate::auth::all_visible;
use crate::auth::ascii_text;
use crate::auth::authenticated;
use crate::auth::bearer_token;
use crate::auth::header_bytes;
use crate::auth::identifies;
use crate::auth::key_entry;
use crate::auth::keys_of;
use crate::auth::optional_text;
use crate::auth::presented_token;
use crate::text::index_of_char;
use crate::text::trimmed;
use crate::text_laws::law_first_place_of_a_character;

verus! {

/// A token identifies the ids whose token it is, letter for letter, and nobody if it
/// is nobody's; without a token nobody is identified.
pub proof fn law_token_identifies_its_owners(
    keys: Map<Seq<char>, Seq<char>>,
    token: Seq<char>,
    who: Seq<char>,
)
    ensures
        identifies(keys, Some(token), Some(who)) <==> keys.contains_key(who) && keys[who] == token,
        identifies(keys, Some(token), None) <==> !(exists|id: Seq<char>| #[trigger]
            keys.contains_key(id) && keys[id] == token),
        !identifies(keys, None, Some(who)),
        identifies(keys, None, None),
        authenticated(keys, Some(token)) <==> exists|id: Seq<char>| #[trigger]
            keys.contains_key(id) && keys[id] == token,
        !authenticated(keys, None),
{
}

/// The text of an optional string is the text of the string, where there is one.
pub proof fn law_optional_text(text: Option<String>)
    ensures
        optional_text(text) is Some <==> text is Some,
        text is Some ==> optional_text(text) == Some(text->0@),
{
}

/// A bearer token is all that stands behind the word `Bearer` and one space, and
/// nothing else is a bearer token.
pub proof fn law_bearer_token(authorization: Seq<char>, token: Seq<char>)
    ensures
        bearer_token("Bearer "@ + token) == Some(token),
        bearer_token(authorization) matches Some(t) ==> authorization == "Bearer "@ + t,
{
    let whole = "Bearer "@ + token;
    assert("Bearer "@ =~= whole.subrange(0, "Bearer "@.len() as int));
    assert(whole.skip("Bearer "@.len() as int) =~= token);
    if bearer_token(authorization) is Some {
        let t = authorization.skip("Bearer "@.len() as int);
        assert(authorization =~= "Bearer "@ + t);
    }
}

/// Headers present a token exactly if there is an `authorization` header whose bytes
/// are visible ASCII characters, spaces and tabs, and spell the word `Bearer`, a space
/// and the token.
pub proof fn law_presented_token(headers: Map<Seq<char>, Seq<u8>>, token: Seq<char>)
    ensures
        presented_token(headers) == Some(token) <==> {
            &&& headers.contains_key("authorization"@)
            &&& forall|i: int|
                0 <= i < headers["authorization"@].len() ==> {
                    let byte = #[trigger] headers["authorization"@][i];
                    32 <= byte <= 126 || byte == 9
                }
            &&& Seq::new(
                headers["authorization"@].len(),
                |i: int| headers["authorization"@][i] as char,
            ) == "Bearer "@ + token
        },
        !headers.contains_key("authorization"@) ==> presented_token(headers) is None,
{
    let bytes = headers["authorization"@];
    let text = Seq::new(bytes.len(), |i: int| bytes[i] as char);
    law_bearer_token(text, token);
    assert(ascii_text(bytes) =~= text);
    law_header_text(bytes);
    if presented_token(headers) == Some(token) {
        assert forall|i: int| 0 <= i < bytes.len() implies {
            let byte = #[trigger] bytes[i];
            32 <= byte <= 126 || byte == 9
        } by {}
    }
}

/// A header is text if its bytes are visible ASCII characters, spaces and tabs, its
/// characters then being its bytes; and a text makes a header if none of its bytes is
/// a control character other than the tab.
pub proof fn law_header_text(bytes: Seq<u8>)
    ensures
        all_visible(bytes) <==> forall|i: int|
            0 <= i < bytes.len() ==> 32 <= #[trigger] bytes[i] <= 126 || bytes[i] == 9,
        ascii_text(bytes).len() == bytes.len(),
        forall|i: int|
            0 <= i < bytes.len() ==> #[trigger] ascii_text(bytes)[i] == bytes[i] as char,
        header_bytes(bytes) <==> forall|i: int|
            0 <= i < bytes.len() ==> 32 <= #[trigger] bytes[i] <= 126 || bytes[i] >= 128 || bytes[i]
                == 9,
{
    if all_visible(bytes) {
        assert forall|i: int| 0 <= i < bytes.len() implies 32 <= #[trigger] bytes[i] <= 126
            || bytes[i] == 9 by {}
    }
    if header_bytes(bytes) {
        assert forall|i: int| 0 <= i < bytes.len() implies 32 <= #[trigger] bytes[i] <= 126
            || bytes[i] >= 128 || bytes[i] == 9 by {}
    }
}

/// An entry of a configuration names the trimmed texts before and behind its first
/// colon; an entry without a colon names nothing.
pub proof fn law_entry_around_its_first_colon(part: Seq<char>, i: int)
    ensures
        0 <= i < part.len() && part[i] == ':' && (forall|j: int|
            0 <= j < i ==> #[trigger] part[j] != ':') ==> key_entry(part) == Some(
            (trimmed(part.subrange(0, i)), trimmed(part.subrange(i + 1, part.len() as int))),
        ),
        (forall|j: int| 0 <= j < part.len() ==> #[trigger] part[j] != ':') ==> key_entry(part)
            is None,
{
    law_first_place_of_a_character(part, ':');
    match index_of_char(part, ':') {
        Some(at) => {
            assert(part.take(at) == part.subrange(0, at));
            assert(part.skip(at + 1) == part.subrange(at + 1, part.len() as int));
            if 0 <= i < part.len() && part[i] == ':' && (forall|j: int|
                0 <= j < i ==> #[trigger] part[j] != ':') {
                assert(at == i);
            }
        },
        None => {},
    }
}

/// An entry of a configuration names `id`.
pub open spec fn names(part: Seq<char>, id: Seq<char>) -> bool {
    key_entry(part) matches Some((named, _)) && named == id
}

/// The keys of a configuration are what its entries name, the last entry for each id;
/// and there is no key that no entry names.
pub proof fn law_keys_are_what_the_entries_name(
    parts: Seq<Seq<char>>,
    i: int,
    id: Seq<char>,
    token: Seq<char>,
)
    ensures
        0 <= i < parts.len() && key_entry(parts[i]) == Some((id, token)) && (forall|j: int|
            i < j < parts.len() ==> !names(#[trigger] parts[j], id)) ==> keys_of(
            parts,
        ).contains_key(id) && keys_of(parts)[id] == token,
        keys_of(parts).contains_key(id) ==> exists|k: int|
            0 <= k < parts.len() && names(#[trigger] parts[k], id),
    decreases parts.len(),
{
    if parts.len() > 0 {
        let earlier = parts.drop_last();
        law_keys_are_what_the_entries_name(earlier, i, id, token);
        let last = parts.len() - 1;
        assert(parts.last() == parts[last]);
        if keys_of(parts).contains_key(id) && !names(parts[last], id) {
            assert(keys_of(earlier).contains_key(id));
            let k = choose|k: int| 0 <= k < earlier.len() && names(#[trigger] earlier[k], id);
            assert(names(parts[k], id));
        }
        if 0 <= i < last && key_entry(parts[i]) == Some((id, token)) && (forall|j: int|
            i < j < parts.len() ==> !names(#[trigger] parts[j], id)) {
            assert forall|j: int| i < j < earlier.len() implies !names(#[trigger] earlier[j], id) by {
                assert(!names(parts[j], id));
            }
            assert(!names(parts[last], id));
            assert(key_entry(earlier[i]) == Some((id, token)));
        }
    }
}

} // verus!
