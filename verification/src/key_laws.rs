//! What holds of the configuration of keys.

use vstd::prelude::*;

use crate::auth::key_entry;
use crate::auth::keys_of;
use crate::search::lemma_first_where_at;
use crate::search::lemma_first_where_none;
use crate::text::index_of_char;
use crate::text::is_char;
use crate::text::split_on;
use crate::text::trimmed;

verus! {

/// An entry of a configuration: the id, a colon, the token.
pub open spec fn entry_text(key: (Seq<char>, Seq<char>)) -> Seq<char> {
    key.0 + seq![':'] + key.1
}

/// A configuration that lists `keys`: their entries with commas between them.
pub open spec fn configuration(keys: Seq<(Seq<char>, Seq<char>)>) -> Seq<char>
    decreases keys.len(),
{
    if keys.len() == 0 {
        seq![]
    } else if keys.len() == 1 {
        entry_text(keys[0])
    } else {
        entry_text(keys[0]) + seq![','] + configuration(keys.drop_first())
    }
}

/// A key that a configuration can list: no comma in it, no colon in its id, and no
/// white space at the ends of its id and of its token.
pub open spec fn listable(key: (Seq<char>, Seq<char>)) -> bool {
    &&& !key.0.contains(',')
    &&& !key.0.contains(':')
    &&& !key.1.contains(',')
    &&& trimmed(key.0) == key.0
    &&& trimmed(key.1) == key.1
}

/// The map of a list of keys; of two keys with one id the later counts.
pub open spec fn key_map(keys: Seq<(Seq<char>, Seq<char>)>) -> Map<Seq<char>, Seq<char>>
    decreases keys.len(),
{
    if keys.len() == 0 {
        Map::empty()
    } else {
        key_map(keys.drop_last()).insert(keys.last().0, keys.last().1)
    }
}

/// A separator behind a text without one is where the text is split first.
proof fn lemma_split_first(head: Seq<char>, tail: Seq<char>, separator: char)
    requires
        !head.contains(separator),
    ensures
        split_on(head + seq![separator] + tail, separator) == seq![head] + split_on(
            tail,
            separator,
        ),
{
    let whole = head + seq![separator] + tail;
    let at = head.len() as int;
    assert forall|j: int| 0 <= j < at implies !is_char(separator)(#[trigger] whole[j]) by {
        assert(whole[j] == head[j]);
    }
    lemma_first_where_at(whole, is_char(separator), at);
    assert(whole.take(at) == head);
    assert(whole.skip(at + 1) == tail);
}

/// A text without a separator is one part.
proof fn lemma_split_none(s: Seq<char>, separator: char)
    requires
        !s.contains(separator),
    ensures
        split_on(s, separator) == seq![s],
{
    lemma_first_where_none(s, is_char(separator));
}

/// The parts of a configuration are its entries.
proof fn lemma_configuration_parts(keys: Seq<(Seq<char>, Seq<char>)>)
    requires
        keys.len() > 0,
        forall|i: int| 0 <= i < keys.len() ==> listable(#[trigger] keys[i]),
    ensures
        split_on(configuration(keys), ',') == keys.map_values(
            |key: (Seq<char>, Seq<char>)| entry_text(key),
        ),
    decreases keys.len(),
{
    let entry = |key: (Seq<char>, Seq<char>)| entry_text(key);
    let first = entry_text(keys[0]);
    assert(listable(keys[0]));
    assert(!first.contains(',')) by {
        if first.contains(',') {
            let k = choose|k: int| 0 <= k < first.len() && first[k] == ',';
            if k < keys[0].0.len() {
                assert(keys[0].0[k] == ',');
            } else if k > keys[0].0.len() {
                assert(keys[0].1[k - keys[0].0.len() - 1] == ',');
            }
        }
    }
    if keys.len() == 1 {
        lemma_split_none(first, ',');
        assert(seq![first] =~= keys.map_values(entry));
    } else {
        let rest = keys.drop_first();
        lemma_configuration_parts(rest);
        lemma_split_first(first, configuration(rest), ',');
        assert(seq![first] + rest.map_values(entry) =~= keys.map_values(entry));
    }
}

/// An entry names its key.
proof fn lemma_entry_named(key: (Seq<char>, Seq<char>))
    requires
        listable(key),
    ensures
        key_entry(entry_text(key)) == Some(key),
{
    let entry = entry_text(key);
    let at = key.0.len() as int;
    assert forall|j: int| 0 <= j < at implies !is_char(':')(#[trigger] entry[j]) by {
        assert(entry[j] == key.0[j]);
    }
    lemma_first_where_at(entry, is_char(':'), at);
    assert(index_of_char(entry, ':') == Some(at));
    assert(entry.take(at) == key.0);
    assert(entry.skip(at + 1) == key.1);
}

/// The keys that the entries of a list name are the keys of the list.
proof fn lemma_keys_of_entries(keys: Seq<(Seq<char>, Seq<char>)>)
    requires
        forall|i: int| 0 <= i < keys.len() ==> listable(#[trigger] keys[i]),
    ensures
        keys_of(keys.map_values(|key: (Seq<char>, Seq<char>)| entry_text(key))) == key_map(keys),
    decreases keys.len(),
{
    let entry = |key: (Seq<char>, Seq<char>)| entry_text(key);
    let entries = keys.map_values(entry);
    if keys.len() > 0 {
        lemma_keys_of_entries(keys.drop_last());
        lemma_entry_named(keys.last());
        assert(entries.drop_last() =~= keys.drop_last().map_values(entry));
        assert(entries.last() == entry_text(keys.last()));
    }
}

/// A configuration that lists keys is read back as those keys.
pub proof fn law_configuration_is_read_back(keys: Seq<(Seq<char>, Seq<char>)>)
    requires
        keys.len() > 0,
        forall|i: int| 0 <= i < keys.len() ==> listable(#[trigger] keys[i]),
    ensures
        keys_of(split_on(configuration(keys), ',')) == key_map(keys),
{
    lemma_configuration_parts(keys);
    lemma_keys_of_entries(keys);
}

} // verus!
