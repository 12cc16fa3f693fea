//! What clients are sent, value by value and event by event.

use vstd::prelude::*;

use crate::json::compact;
use crate::json::compact_items;
use crate::json::compact_members;
use crate::json::escaped;
use crate::json::escaped_char;
use crate::json::member;
use crate::json::object_of;
use crate::json::quoted;
use crate::json::under_key;
use crate::json::JsonView;
use crate::json::Value;
use crate::search::lemma_first_where_at;
use crate::search::lemma_first_where_none;
use crate::stream::capability_output;
use crate::stream::chat_content;
use crate::stream::error_value;
use crate::stream::event_views;
use crate::stream::is_capability_end;
use crate::stream::is_chat_end;
use crate::stream::is_frame_of;
use crate::stream::sse_data;
use crate::stream::sse_event_name;
use crate::stream::EventView;
use crate::stream::RouterEvent;
use crate::stream::SseFormat;
use crate::stream::SseFrame;

verus! {

/// A JSON value stands for what it holds: its texts by their characters, its items
/// and members one by one, in their order.
pub proof fn law_value_stands_for_what_it_holds(value: Value)
    ensures
        value is Null ==> value@ == JsonView::Null,
        value matches Value::Bool(held) ==> value@ == JsonView::Bool(held),
        value matches Value::Number(digits) ==> value@ == JsonView::Number(digits@),
        value matches Value::Text(text) ==> value@ == JsonView::Text(text@),
        value matches Value::Array(items) ==> value@ is Array && value@->Array_0.len()
            == items@.len() && forall|i: int|
            0 <= i < items@.len() ==> #[trigger] value@->Array_0[i] == items@[i]@,
        value matches Value::Object(members) ==> value@ is Object && value@->Object_0.len()
            == members@.len() && forall|i: int|
            0 <= i < members@.len() ==> #[trigger] value@->Object_0[i] == (
                members@[i].0@,
                members@[i].1@,
            ),
{
}

/// The member of an object under a key is the first with that key; where no member
/// has the key, and in what is no object, there is none.
pub proof fn law_member_under_a_key(members: Seq<(Seq<char>, JsonView)>, key: Seq<char>, i: int)
    ensures
        0 <= i < members.len() && members[i].0 == key && (forall|j: int|
            0 <= j < i ==> (#[trigger] members[j]).0 != key) ==> member(
            JsonView::Object(members),
            key,
        ) == Some(members[i].1),
        (forall|j: int| 0 <= j < members.len() ==> (#[trigger] members[j]).0 != key) ==> member(
            JsonView::Object(members),
            key,
        ) == None::<JsonView>,
        forall|value: JsonView|
            !(value is Object) ==> #[trigger] member(value, key) == None::<JsonView>,
        forall|value: JsonView| #[trigger]
            object_of(key, value) == JsonView::Object(seq![(key, value)]),
{
    if 0 <= i < members.len() && members[i].0 == key && (forall|j: int|
        0 <= j < i ==> (#[trigger] members[j]).0 != key) {
        lemma_first_where_at(members, under_key(key), i);
    }
    if forall|j: int| 0 <= j < members.len() ==> (#[trigger] members[j]).0 != key {
        lemma_first_where_none(members, under_key(key));
    }
}

/// The text of a simple value: the three words, a number's digits, and a text between
/// quotation marks.
pub proof fn law_text_of_simple_values(text: Seq<char>)
    ensures
        compact(JsonView::Null) == "null"@,
        compact(JsonView::Bool(true)) == "true"@,
        compact(JsonView::Bool(false)) == "false"@,
        compact(JsonView::Number(text)) == text,
        compact(JsonView::Text(text)) == seq!['"'] + escaped(text) + seq!['"'],
{
}

/// Inside quotation marks each character stands for itself, but for the quotation
/// mark, the backslash and the control characters, before which a backslash stands.
pub proof fn law_escapes(text: Seq<char>, c: char)
    ensures
        escaped(Seq::<char>::empty()) == Seq::<char>::empty(),
        escaped(text.push(c)) == escaped(text) + escaped_char(c),
        c >= '\u{20}' && c != '"' && c != '\\' ==> escaped_char(c) == seq![c],
        c == '"' || c == '\\' ==> escaped_char(c) == seq!['\\', c],
        c <= '\u{1f}' ==> escaped_char(c).len() >= 2 && escaped_char(c)[0] == '\\',
        escaped_char('\u{a}') == seq!['\\', 'n'],
        escaped_char('\u{d}') == seq!['\\', 'r'],
        escaped_char('\u{9}') == seq!['\\', 't'],
        escaped_char('\u{8}') == seq!['\\', 'b'],
        escaped_char('\u{c}') == seq!['\\', 'f'],
        c <= '\u{1f}' && !seq!['\u{8}', '\u{9}', '\u{a}', '\u{c}', '\u{d}'].contains(c)
            ==> escaped_char(c) == seq![
            '\\',
            'u',
            '0',
            '0',
            "0123456789abcdef"@[c as int / 16],
            "0123456789abcdef"@[c as int % 16],
        ],
{
    reveal_strlit("0123456789abcdef");
    let short = seq!['\u{8}', '\u{9}', '\u{a}', '\u{c}', '\u{d}'];
    assert(short[0] == '\u{8}' && short[1] == '\u{9}' && short[2] == '\u{a}' && short[3] == '\u{c}'
        && short[4] == '\u{d}');
    assert(text.push(c).drop_last() == text);
    assert(text.push(c).last() == c);
}

/// The texts of the first items of a list do not depend on what follows them.
proof fn lemma_first_items(items: Seq<JsonView>, last: JsonView, n: nat)
    requires
        n <= items.len(),
    ensures
        compact_items(items.push(last), n) == compact_items(items, n),
    decreases n,
{
    if n > 0 {
        assert(items.push(last)[n - 1] == items[n - 1]);
        lemma_first_items(items, last, (n - 1) as nat);
    }
}

/// The texts of the first members of a list do not depend on what follows them.
proof fn lemma_first_members(
    members: Seq<(Seq<char>, JsonView)>,
    last: (Seq<char>, JsonView),
    n: nat,
)
    requires
        n <= members.len(),
    ensures
        compact_members(members.push(last), n) == compact_members(members, n),
    decreases n,
{
    if n > 0 {
        assert(members.push(last)[n - 1] == members[n - 1]);
        lemma_first_members(members, last, (n - 1) as nat);
    }
}

/// The text of an array is its items' texts between brackets: one more item adds a
/// comma, unless it is the first, and the item's text before the closing bracket.
pub proof fn law_text_of_arrays(items: Seq<JsonView>, last: JsonView)
    ensures
        compact(JsonView::Array(seq![])) == seq!['[', ']'],
        compact(JsonView::Array(seq![last])) == seq!['['] + compact(last) + seq![']'],
        items.len() > 0 ==> compact(JsonView::Array(items.push(last))) == compact(
            JsonView::Array(items),
        ).drop_last() + seq![','] + compact(last) + seq![']'],
{
    let none = Seq::<JsonView>::empty();
    assert(compact_items(none, 0) == Seq::<char>::empty());
    assert(compact(JsonView::Array(none)) =~= seq!['[', ']']);
    assert(seq![last].len() == 1);
    assert(compact_items(seq![last], 1) == compact(last));
    if items.len() > 0 {
        let more = items.push(last);
        lemma_first_items(items, last, items.len());
        assert(more[more.len() - 1] == last);
        assert(compact_items(more, more.len()) == compact_items(items, items.len()) + seq![',']
            + compact(last));
        assert(compact(JsonView::Array(more)) =~= compact(JsonView::Array(items)).drop_last()
            + seq![','] + compact(last) + seq![']']);
    }
}

/// The text of an object is its members' texts between braces, each the key as a
/// string, a colon and the value: one more member adds a comma, unless it is the
/// first, and the member's text before the closing brace.
pub proof fn law_text_of_objects(
    members: Seq<(Seq<char>, JsonView)>,
    key: Seq<char>,
    value: JsonView,
)
    ensures
        compact(JsonView::Object(seq![])) == seq!['{', '}'],
        compact(JsonView::Object(seq![(key, value)])) == seq!['{', '"'] + escaped(key) + seq![
            '"',
            ':',
        ] + compact(value) + seq!['}'],
        members.len() > 0 ==> compact(JsonView::Object(members.push((key, value)))) == compact(
            JsonView::Object(members),
        ).drop_last() + seq![',', '"'] + escaped(key) + seq!['"', ':'] + compact(value) + seq!['}'],
{
    let none = Seq::<(Seq<char>, JsonView)>::empty();
    assert(compact_members(none, 0) == Seq::<char>::empty());
    assert(compact(JsonView::Object(none)) =~= seq!['{', '}']);
    let one = seq![(key, value)];
    assert(compact_members(one, 1) == quoted(key) + seq![':'] + compact(value));
    assert(compact(JsonView::Object(one)) =~= seq!['{', '"'] + escaped(key) + seq!['"', ':']
        + compact(value) + seq!['}']);
    if members.len() > 0 {
        let more = members.push((key, value));
        lemma_first_members(members, (key, value), members.len());
        assert(more[more.len() - 1] == (key, value));
        assert(compact_members(more, more.len()) == compact_members(members, members.len()) + seq![
            ',',
        ] + quoted(key) + seq![':'] + compact(value));
        assert(compact(JsonView::Object(more)) =~= compact(JsonView::Object(members)).drop_last()
            + seq![',', '"'] + escaped(key) + seq!['"', ':'] + compact(value) + seq!['}']);
    }
}

/// An event stands for what it carries, and a list of events for its events, one by
/// one.
pub proof fn law_event_stands_for_what_it_carries(event: RouterEvent, events: Seq<RouterEvent>)
    ensures
        event matches RouterEvent::Delta(content) ==> event@ == EventView::Delta(content@),
        event matches RouterEvent::Data(data) ==> event@ == EventView::Data(data@),
        event is Done ==> event@ == EventView::Done,
        event matches RouterEvent::Output(output) ==> event@ == EventView::Output(output@),
        event matches RouterEvent::Error(message) ==> event@ == EventView::Error(message@),
        event_views(events).len() == events.len(),
        forall|i: int| 0 <= i < events.len() ==> #[trigger] event_views(events)[i] == events[i]@,
{
}

/// What a streamed reply shows of each event, in both forms: a value as its compact
/// text, whichever value it is, under the name `output` if it is the output and under
/// no name if it is a piece; the end as `[DONE]`; an error as an object under the name
/// `error`; and a piece of text as an object of the form.
pub proof fn law_streamed_events(value: JsonView, text: Seq<char>, format: SseFormat)
    ensures
        sse_data(EventView::Output(value), format) == compact(value),
        sse_event_name(EventView::Output(value)) == Some("output"@),
        sse_data(EventView::Data(value), format) == compact(value),
        sse_event_name(EventView::Data(value)) == None::<Seq<char>>,
        sse_data(EventView::Done, format) == "[DONE]"@,
        sse_event_name(EventView::Done) == None::<Seq<char>>,
        sse_data(EventView::Error(text), format) == compact(
            JsonView::Object(
                seq![("error"@, JsonView::Object(seq![("message"@, JsonView::Text(text))]))],
            ),
        ),
        sse_event_name(EventView::Error(text)) == Some("error"@),
        sse_data(EventView::Delta(text), SseFormat::Capability) == compact(
            JsonView::Object(seq![("delta"@, JsonView::Text(text))]),
        ),
        sse_data(EventView::Delta(text), SseFormat::Chat) == compact(
            JsonView::Object(
                seq![
                    (
                        "choices"@,
                        JsonView::Array(
                            seq![
                                JsonView::Object(
                                    seq![
                                        (
                                            "delta"@,
                                            JsonView::Object(
                                                seq![("content"@, JsonView::Text(text))],
                                            ),
                                        ),
                                    ],
                                ),
                            ],
                        ),
                    ),
                ],
            ),
        ),
        sse_event_name(EventView::Delta(text)) == None::<Seq<char>>,
{
}

/// A frame of a streamed reply shows its event: an output or a piece of one as the
/// value's compact text, and with a name exactly for an output and for an error.
pub proof fn law_frame_shows_its_event(frame: SseFrame, event: RouterEvent, format: SseFormat)
    requires
        is_frame_of(frame, event@, format),
    ensures
        event matches RouterEvent::Output(value) ==> frame.data@ == compact(value@),
        event matches RouterEvent::Data(value) ==> frame.data@ == compact(value@),
        event is Done ==> frame.data@ == "[DONE]"@,
        event matches RouterEvent::Error(message) ==> frame.data@ == compact(
            JsonView::Object(
                seq![("error"@, JsonView::Object(seq![("message"@, JsonView::Text(message@))]))],
            ),
        ),
        event matches RouterEvent::Delta(content) ==> frame.data@ == sse_data(
            EventView::Delta(content@),
            format,
        ),
        frame.event is Some <==> event is Output || event is Error,
        event is Output ==> frame.event->0@ == "output"@,
        event is Error ==> frame.event->0@ == "error"@,
{
}

/// A chat completion ends with its end or an error; the output of a capability ends
/// with an output, too.
pub proof fn law_events_that_end(event: RouterEvent)
    ensures
        is_chat_end(event@) <==> event is Done || event is Error,
        is_capability_end(event@) <==> event is Done || event is Error || event is Output,
{
}

/// An error as a JSON value holds its message under `error`, `message`.
pub proof fn law_error_holds_its_message(message: Seq<char>)
    ensures
        error_value(message) == JsonView::Object(
            seq![("error"@, JsonView::Object(seq![("message"@, JsonView::Text(message))]))],
        ),
{
}

/// What one event adds to a chat completion: a piece of text itself, and a value its
/// compact text.
pub proof fn law_text_of_one_event(text: Seq<char>, value: JsonView)
    ensures
        chat_content(seq![]) == Seq::<char>::empty(),
        chat_content(seq![EventView::Delta(text)]) == text,
        chat_content(seq![EventView::Data(value)]) == compact(value),
        chat_content(seq![EventView::Output(value)]) == compact(value),
{
    let delta = seq![EventView::Delta(text)];
    let data = seq![EventView::Data(value)];
    let output = seq![EventView::Output(value)];
    let none = Seq::<EventView>::empty();
    assert(delta.drop_first() == none && data.drop_first() == none && output.drop_first() == none);
    assert(chat_content(none) == Seq::<char>::empty());
}

/// A chat completion is the text of its events one behind the other, up to the end or
/// the error, and nothing of what follows.
pub proof fn law_chat_text_by_parts(
    before: Seq<EventView>,
    end: EventView,
    after: Seq<EventView>,
)
    requires
        forall|i: int|
            0 <= i < before.len() ==> !((#[trigger] before[i]) is Done) && !(before[i] is Error),
    ensures
        chat_content(before + after) == chat_content(before) + chat_content(after),
        end is Done || end is Error ==> chat_content(before.push(end) + after) == chat_content(
            before,
        ),
    decreases before.len(),
{
    if before.len() == 0 {
        assert(before + after == after);
        assert((before.push(end) + after)[0] == end);
    } else {
        let rest = before.drop_first();
        law_chat_text_by_parts(rest, end, after);
        assert((before + after).drop_first() == rest + after);
        assert((before.push(end) + after).drop_first() == rest.push(end) + after);
        assert((before + after)[0] == before[0]);
        assert((before.push(end) + after)[0] == before[0]);
        assert(!(before[0] is Done) && !(before[0] is Error));
    }
}

/// What a piece of a capability's output is in the collected array: a value itself,
/// and a text as a JSON string.
pub open spec fn piece_of(event: EventView) -> JsonView {
    match event {
        EventView::Data(value) => value,
        EventView::Delta(text) => JsonView::Text(text),
        _ => JsonView::Null,
    }
}

/// What is collected of a capability behind its pieces: its output, whatever came
/// before; its error; and without either the array of all the pieces, in their order.
pub proof fn law_output_behind_its_pieces(
    pieces: Seq<EventView>,
    gathered: Seq<JsonView>,
    end: EventView,
    after: Seq<EventView>,
)
    requires
        forall|i: int|
            0 <= i < pieces.len() ==> (#[trigger] pieces[i]) is Data || pieces[i] is Delta,
    ensures
        end matches EventView::Output(value) ==> capability_output(
            pieces.push(end) + after,
            gathered,
        ) == value,
        end matches EventView::Error(message) ==> capability_output(
            pieces.push(end) + after,
            gathered,
        ) == JsonView::Object(
            seq![("error"@, JsonView::Object(seq![("message"@, JsonView::Text(message))]))],
        ),
        end is Done ==> capability_output(pieces.push(end) + after, gathered) == JsonView::Array(
            gathered + Seq::new(pieces.len(), |i: int| piece_of(pieces[i])),
        ),
        capability_output(pieces, gathered) == JsonView::Array(
            gathered + Seq::new(pieces.len(), |i: int| piece_of(pieces[i])),
        ),
    decreases pieces.len(),
{
    let all = gathered + Seq::new(pieces.len(), |i: int| piece_of(pieces[i]));
    let events = pieces.push(end) + after;
    if pieces.len() == 0 {
        assert(events[0] == end);
        assert(all == gathered);
    } else {
        let rest = pieces.drop_first();
        let more = gathered.push(piece_of(pieces[0]));
        assert(pieces[0] is Data || pieces[0] is Delta);
        law_output_behind_its_pieces(rest, more, end, after);
        assert(events.drop_first() == rest.push(end) + after);
        assert(events[0] == pieces[0]);
        assert(more + Seq::new(rest.len(), |i: int| piece_of(rest[i])) == all);
    }
}

} // verus!
