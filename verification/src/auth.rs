//! Bearer tokens: the configured keys, and who a request comes from.

use axum::http::header::InvalidHeaderValue;
use axum::http::header::ToStrError;
use axum::http::HeaderMap;
use axum::http::HeaderValue;
use vstd::prelude::*;
use vstd::utf8::*;

use crate::search::first_where;
use crate::search::lemma_first_where;
use crate::search::lemma_first_where_at;
use crate::text::concat;
use crate::text::index_of_char;
use crate::text::split;
use crate::text::split_on;
use crate::text::split_once;
use crate::text::strip_prefix;
use crate::text::texts;
use crate::text::trim;
use crate::text::trimmed;

verus! {

/// `http::HeaderMap`, the headers of a request.
#[verifier::external_type_specification]
#[verifier::external_body]
#[verifier::reject_recursive_types(Held)]
pub struct ExHeaderMap<Held>(HeaderMap<Held>);

/// `http::HeaderValue`, the bytes of one header.
#[verifier::external_type_specification]
#[verifier::external_body]
pub struct ExHeaderValue(HeaderValue);

/// `http::header::ToStrError`: a header holds other bytes than visible ASCII.
#[verifier::external_type_specification]
#[verifier::external_body]
pub struct ExToStrError(ToStrError);

/// `http::header::InvalidHeaderValue`: a text holds what no header may hold.
#[verifier::external_type_specification]
#[verifier::external_body]
pub struct ExInvalidHeaderValue(InvalidHeaderValue);

/// What the headers hold: for each name under which a lookup finds a header, the
/// bytes of the first header of that name.
pub uninterp spec fn header_contents(headers: HeaderMap) -> Map<Seq<char>, Seq<u8>>;

/// What a header value holds: its bytes.
pub uninterp spec fn value_bytes(value: HeaderValue) -> Seq<u8>;

/// A byte that is a visible ASCII character, a space or a tab.
pub open spec fn visible_ascii(byte: u8) -> bool {
    32 <= byte < 127 || byte == 9
}

/// `HeaderMap::get`: the first value under `name`, or `None` where there is none.
#[verifier::external_body]
fn first_header<'a>(headers: &'a HeaderMap, name: &str) -> (value: Option<&'a HeaderValue>)
    ensures
        match value {
            Some(found) => header_contents(*headers).contains_key(name@) && value_bytes(*found)
                == header_contents(*headers)[name@],
            None => !header_contents(*headers).contains_key(name@),
        },
{
    headers.get(name)
}

/// The text that ASCII bytes stand for.
pub open spec fn ascii_text(bytes: Seq<u8>) -> Seq<char> {
    Seq::new(bytes.len(), |i: int| bytes[i] as char)
}

/// All of `bytes` are visible ASCII characters, spaces or tabs.
pub open spec fn all_visible(bytes: Seq<u8>) -> bool {
    forall|i: int| 0 <= i < bytes.len() ==> visible_ascii(#[trigger] bytes[i])
}

/// `HeaderValue::to_str`: the bytes as text if they are all visible ASCII
/// characters, spaces or tabs, and an error if one is not.
pub assume_specification<'a>[ HeaderValue::to_str ](value: &'a HeaderValue) -> (text: Result<
    &'a str,
    ToStrError,
>)
    ensures
        match text {
            Ok(held) => all_visible(value_bytes(*value)) && held@ == ascii_text(value_bytes(*value)),
            Err(_) => !all_visible(value_bytes(*value)),
        },
;

/// No byte of `bytes` is a control character other than the tab.
pub open spec fn header_bytes(bytes: Seq<u8>) -> bool {
    forall|i: int|
        0 <= i < bytes.len() ==> (#[trigger] bytes[i] >= 32 && bytes[i] != 127) || bytes[i] == 9
}

/// `HeaderValue::from_str`: a value with the bytes of `text`, or an error if one of
/// them is a control character other than the tab.
pub assume_specification[ HeaderValue::from_str ](text: &str) -> (value: Result<
    HeaderValue,
    InvalidHeaderValue,
>)
    ensures
        match value {
            Ok(made) => header_bytes(encode_utf8(text@)) && value_bytes(made) == encode_utf8(text@),
            Err(_) => !header_bytes(encode_utf8(text@)),
        },
;

/// The keys of the clients or of the workers: each id with its token.
pub struct KeyTable {
    entries: Vec<(String, String)>,
}

/// The condition of being the entry of `id`.
spec fn entry_of(id: Seq<char>) -> spec_fn((String, String)) -> bool {
    |entry: (String, String)| entry.0@ == id
}

/// The entries as a map from ids to tokens.
spec fn entries_map(entries: Seq<(String, String)>) -> Map<Seq<char>, Seq<char>> {
    Map::new(
        |id: Seq<char>| first_where(entries, entry_of(id)) is Some,
        |id: Seq<char>| entries[first_where(entries, entry_of(id))->0].1@,
    )
}

/// No id stands twice in the entries.
spec fn distinct_ids(entries: Seq<(String, String)>) -> bool {
    forall|i: int, j: int|
        0 <= i < j < entries.len() ==> #[trigger] entries[i].0@ != #[trigger] entries[j].0@
}

impl View for KeyTable {
    type V = Map<Seq<char>, Seq<char>>;

    closed spec fn view(&self) -> Map<Seq<char>, Seq<char>> {
        entries_map(self.entries@)
    }
}

/// The id and the token that one entry of the configuration names: what stands
/// around its first colon, without the white space at the ends. An entry without
/// a colon names none.
pub open spec fn key_entry(part: Seq<char>) -> Option<(Seq<char>, Seq<char>)> {
    match index_of_char(part, ':') {
        Some(i) => Some((trimmed(part.take(i)), trimmed(part.skip(i + 1)))),
        None => None,
    }
}

/// The keys that the entries name; of two entries with one id the later counts.
pub open spec fn keys_of(parts: Seq<Seq<char>>) -> Map<Seq<char>, Seq<char>>
    decreases parts.len(),
{
    if parts.len() == 0 {
        Map::empty()
    } else {
        let earlier = keys_of(parts.drop_last());
        match key_entry(parts.last()) {
            Some((id, token)) => earlier.insert(id, token),
            None => earlier,
        }
    }
}

/// In entries without a repeated id, each entry is the one of its id.
proof fn lemma_entry_at(entries: Seq<(String, String)>, i: int)
    requires
        distinct_ids(entries),
        0 <= i < entries.len(),
    ensures
        first_where(entries, entry_of(entries[i].0@)) == Some(i),
        entries_map(entries).contains_key(entries[i].0@),
        entries_map(entries)[entries[i].0@] == entries[i].1@,
{
    lemma_first_where_at(entries, entry_of(entries[i].0@), i);
}

/// A token set for an id that has one, or added for a new id, is an insertion in
/// the map.
proof fn lemma_entry_set(before: Seq<(String, String)>, after: Seq<(String, String)>, at: int)
    requires
        distinct_ids(before),
        0 <= at <= before.len(),
        after.len() == if at < before.len() {
            before.len()
        } else {
            before.len() + 1
        },
        forall|j: int| 0 <= j < before.len() && j != at ==> #[trigger] after[j] == before[j],
        forall|j: int|
            0 <= j < before.len() && j != at ==> #[trigger] before[j].0@ != after[at].0@,
        at < before.len() ==> before[at].0@ == after[at].0@,
    ensures
        distinct_ids(after),
        entries_map(after) == entries_map(before).insert(after[at].0@, after[at].1@),
{
    assert forall|i: int, j: int| 0 <= i < j < after.len() implies #[trigger] after[i].0@
        != #[trigger] after[j].0@ by {
        if i != at {
            assert(after[i] == before[i]);
        }
        if j != at {
            assert(after[j] == before[j]);
        }
    }
    let target = entries_map(before).insert(after[at].0@, after[at].1@);
    assert forall|id: Seq<char>|
        #![trigger entries_map(after).contains_key(id)]
        #![trigger target.contains_key(id)]
        entries_map(after).contains_key(id) == target.contains_key(id) && (target.contains_key(id)
            ==> entries_map(after)[id] == target[id]) by {
        lemma_first_where(after, entry_of(id));
        lemma_first_where(before, entry_of(id));
        lemma_entry_at(after, at);
        if id != after[at].0@ {
            match first_where(before, entry_of(id)) {
                Some(i) => {
                    assert(after[i] == before[i]);
                    lemma_entry_at(after, i);
                },
                None => {
                    match first_where(after, entry_of(id)) {
                        Some(i) => {
                            assert(after[i] == before[i]);
                        },
                        None => {},
                    }
                },
            }
        }
    }
    assert(entries_map(after) =~= target);
}

impl KeyTable {
    #[verifier::type_invariant]
    spec fn wf(self) -> bool {
        distinct_ids(self.entries@)
    }
}

/// The keys that a configuration lists: `id:token` entries with commas between
/// them, from `configured` or, where that is not set, from `default`.
pub fn parse_keys(configured: Option<&str>, default: &str) -> (keys: KeyTable)
    ensures
        keys@ == keys_of(
            split_on(
                match configured {
                    Some(text) => text@,
                    None => default@,
                },
                ',',
            ),
        ),
{
    let text: &str = match configured {
        Some(text) => text,
        None => default,
    };
    let parts = split(text, ',');
    let ghost views = texts(parts@);
    let mut entries: Vec<(String, String)> = Vec::new();
    let mut i: usize = 0;
    proof {
        assert forall|id: Seq<char>| !(#[trigger] entries_map(entries@).contains_key(id)) by {
            lemma_first_where(entries@, entry_of(id));
        }
        assert(entries_map(entries@) =~= Map::<Seq<char>, Seq<char>>::empty());
        assert(views.take(0) == Seq::<Seq<char>>::empty());
    }
    while i < parts.len()
        invariant
            i <= parts@.len(),
            views == texts(parts@),
            distinct_ids(entries@),
            entries_map(entries@) == keys_of(views.take(i as int)),
        decreases parts@.len() - i,
    {
        proof {
            assert(views.take(i + 1).drop_last() == views.take(i as int));
            assert(views.take(i + 1).last() == parts@[i as int]@);
        }
        match split_once(parts[i].as_str(), ':') {
            Some((head, tail)) => {
                let id = trim(head.as_str());
                let token = trim(tail.as_str());
                set_entry(&mut entries, id, token);
            },
            None => {},
        }
        i += 1;
    }
    assert(views.take(parts@.len() as int) == views);
    KeyTable { entries }
}

/// Sets the token of `id`.
fn set_entry(entries: &mut Vec<(String, String)>, id: String, token: String)
    requires
        distinct_ids(old(entries)@),
    ensures
        distinct_ids(final(entries)@),
        entries_map(final(entries)@) == entries_map(old(entries)@).insert(id@, token@),
{
    let ghost before = entries@;
    let mut at: usize = 0;
    while at < entries.len() && entries[at].0 != id
        invariant
            at <= entries@.len(),
            forall|j: int| 0 <= j < at ==> #[trigger] entries@[j].0@ != id@,
        decreases entries@.len() - at,
    {
        at += 1;
    }
    if at < entries.len() {
        entries[at].1 = token;
    } else {
        entries.push((id, token));
    }
    proof {
        lemma_entry_set(before, entries@, at as int);
    }
}

/// The token behind the word `Bearer` and a space in the text of an
/// `authorization` header.
pub open spec fn bearer_token(authorization: Seq<char>) -> Option<Seq<char>> {
    if "Bearer "@.is_prefix_of(authorization) {
        Some(authorization.skip("Bearer "@.len() as int))
    } else {
        None
    }
}

/// The token that headers present: the bearer token of the first `authorization`
/// header, if that is visible ASCII text.
pub open spec fn presented_token(headers: Map<Seq<char>, Seq<u8>>) -> Option<Seq<char>> {
    if headers.contains_key("authorization"@) && all_visible(headers["authorization"@]) {
        bearer_token(ascii_text(headers["authorization"@]))
    } else {
        None
    }
}

/// `id` is an answer to who presents `token`: an id whose token it is, or `None`
/// if no token was presented or it is nobody's.
pub open spec fn identifies(
    keys: Map<Seq<char>, Seq<char>>,
    token: Option<Seq<char>>,
    id: Option<Seq<char>>,
) -> bool {
    match (token, id) {
        (Some(t), Some(who)) => keys.contains_key(who) && keys[who] == t,
        (Some(t), None) => forall|who: Seq<char>| #[trigger]
            keys.contains_key(who) ==> keys[who] != t,
        (None, who) => who is None,
    }
}

/// A token was presented, and it is somebody's.
pub open spec fn authenticated(
    keys: Map<Seq<char>, Seq<char>>,
    token: Option<Seq<char>>,
) -> bool {
    !identifies(keys, token, None)
}

/// The text of an optional string.
pub open spec fn optional_text(text: Option<String>) -> Option<Seq<char>> {
    match text {
        Some(held) => Some(held@),
        None => None,
    }
}

/// Who the text of an `authorization` header identifies.
pub fn authenticate_text(authorization: &str, keys: &KeyTable) -> (id: Option<String>)
    ensures
        identifies(keys@, bearer_token(authorization@), optional_text(id)),
{
    proof {
        use_type_invariant(keys);
    }
    let token = match strip_prefix(authorization, "Bearer ") {
        Some(token) => token,
        None => {
            return None;
        },
    };
    assert(authorization@.skip("Bearer "@.len() as int) == token@);
    let mut i: usize = 0;
    while i < keys.entries.len()
        invariant
            i <= keys.entries@.len(),
            distinct_ids(keys.entries@),
            bearer_token(authorization@) == Some(token@),
            forall|j: int| 0 <= j < i ==> #[trigger] keys.entries@[j].1@ != token@,
        decreases keys.entries@.len() - i,
    {
        if keys.entries[i].1 == token {
            proof {
                lemma_entry_at(keys.entries@, i as int);
            }
            return Some(keys.entries[i].0.clone());
        }
        i += 1;
    }
    proof {
        assert forall|who: Seq<char>| #[trigger] keys@.contains_key(who) implies keys@[who]
            != token@ by {
            lemma_first_where(keys.entries@, entry_of(who));
        }
    }
    None
}

/// Who sent a request with these headers.
pub fn authenticate(headers: &HeaderMap, keys: &KeyTable) -> (id: Option<String>)
    ensures
        identifies(keys@, presented_token(header_contents(*headers)), optional_text(id)),
{
    let value = match first_header(headers, "authorization") {
        Some(value) => value,
        None => {
            return None;
        },
    };
    match value.to_str() {
        Ok(text) => authenticate_text(text, keys),
        Err(_) => None,
    }
}

/// A token that holds what no header may hold.
#[derive(Debug, Clone, Copy, PartialEq, Eq, Structural)]
pub struct InvalidToken;

/// The `authorization` header that presents `token`.
pub fn authorization_header(token: &str) -> (value: Result<HeaderValue, InvalidToken>)
    ensures
        match value {
            Ok(made) => header_bytes(encode_utf8("Bearer "@ + token@)) && value_bytes(made)
                == encode_utf8("Bearer "@ + token@),
            Err(_) => !header_bytes(encode_utf8("Bearer "@ + token@)),
        },
{
    let text = concat("Bearer ", token);
    match HeaderValue::from_str(text.as_str()) {
        Ok(value) => Ok(value),
        Err(_) => Err(InvalidToken),
    }
}

/// A token of visible ASCII characters, spaces and tabs.
pub open spec fn visible_token(token: Seq<char>) -> bool {
    forall|i: int| 0 <= i < token.len() ==> '\u{20}' <= #[trigger] token[i] <= '\u{7e}' || token[i]
        == '\u{9}'
}

/// A header made from a token of visible ASCII characters can be made, and the
/// token that it presents is that token.
pub proof fn law_header_presents_its_token(headers: Map<Seq<char>, Seq<u8>>, token: Seq<char>)
    requires
        visible_token(token),
        headers.contains_key("authorization"@),
        headers["authorization"@] == encode_utf8("Bearer "@ + token),
    ensures
        header_bytes(encode_utf8("Bearer "@ + token)),
        presented_token(headers) == Some(token),
{
    reveal_strlit("Bearer ");
    let text = "Bearer "@ + token;
    let bytes = encode_utf8(text);
    assert(is_ascii_chars(text));
    is_ascii_chars_encode_utf8(text);
    assert forall|i: int| 0 <= i < bytes.len() implies visible_ascii(#[trigger] bytes[i]) by {
        assert(bytes[i] == text[i] as u8);
    }
    assert(ascii_text(bytes) == text);
    assert(text.skip("Bearer "@.len() as int) == token);
}

} // verus!
