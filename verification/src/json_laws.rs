//! What holds of well-formed JSON values.

use vstd::prelude::*;

use crate::json::compact;
use crate::json::compact_members;
use crate::json::decimal_digits;
use crate::json::exponent_part;
use crate::json::fraction_part;
use crate::json::keys_ascend;
use crate::json::member;
use crate::json::number_text;
use crate::json::object_of;
use crate::json::quoted;
use crate::json::text_before;
use crate::json::under_key;
use crate::json::well_formed;
use crate::json::whole_part;
use crate::json::JsonView;
use crate::protocol::message_json;
use crate::protocol::CapabilityJob;
use crate::reply_laws::lemma_plain_word;
use crate::reply_laws::one_line;
use crate::reply_laws::plain_numbers;
use crate::search::lemma_first_where_at;
use crate::stream::capability_output;
use crate::stream::error_value;
use crate::stream::EventView;
use crate::text::decimal;
use crate::worker::capability_replies;
use crate::worker::echo_message;
use crate::worker::echo_response;
use crate::worker::lemma_echo_output_well_formed;
use crate::worker::ReplyView;

verus! {

/// No text stands before itself.
proof fn lemma_not_before_itself(s: Seq<char>)
    ensures
        !text_before(s, s),
    decreases s.len(),
{
    if s.len() > 0 {
        lemma_not_before_itself(s.drop_first());
    }
}

/// In a well-formed object each member is found under its key.
pub proof fn law_each_member_is_found(members: Seq<(Seq<char>, JsonView)>, i: int)
    requires
        well_formed(JsonView::Object(members)),
        0 <= i < members.len(),
    ensures
        member(JsonView::Object(members), members[i].0) == Some(members[i].1),
{
    let key = members[i].0;
    assert forall|j: int| 0 <= j < i implies !under_key(key)(#[trigger] members[j]) by {
        lemma_not_before_itself(key);
        assert(keys_ascend(members));
    }
    lemma_first_where_at(members, under_key(key), i);
}

/// The text of a number has no line break.
proof fn lemma_number_one_line(s: Seq<char>)
    requires
        number_text(s),
    ensures
        one_line(s),
{
    let size = if s.len() > 0 && s[0] == '-' {
        s.drop_first()
    } else {
        s
    };
    let (i, j) = choose|i: int, j: int|
        0 <= i <= j <= size.len() && #[trigger] whole_part(size.take(i)) && fraction_part(
            size.subrange(i, j),
        ) && #[trigger] exponent_part(size.skip(j));
    let whole = size.take(i);
    let fraction = size.subrange(i, j);
    let exponent = size.skip(j);
    assert(whole.skip(0) == whole);
    assert(fraction.drop_first() == fraction.skip(1));
    assert(exponent.drop_first() == exponent.skip(1));
    lemma_digits_behind(whole, 0);
    if fraction.len() > 0 {
        lemma_digits_behind(fraction, 1);
    }
    if exponent.len() > 0 {
        if decimal_digits(exponent.drop_first()) {
            lemma_digits_behind(exponent, 1);
        } else {
            lemma_digits_behind(exponent, 2);
        }
    }
    assert forall|k: int| 0 <= k < size.len() implies #[trigger] size[k] != '\n' && size[k]
        != '\r' by {
        if k < i {
            assert(whole[k] == size[k]);
        } else if k < j {
            assert(fraction[k - i] == size[k]);
        } else {
            assert(exponent[k - j] == size[k]);
        }
    }
    if s.len() > 0 && s[0] == '-' {
        assert forall|k: int| 0 <= k < s.len() implies #[trigger] s[k] != '\n' && s[k] != '\r' by {
            if k > 0 {
                assert(size[k - 1] == s[k]);
            }
        }
    }
}

/// Behind its first `n` characters `s` has digits alone, and no line break.
proof fn lemma_digits_behind(s: Seq<char>, n: int)
    requires
        0 <= n <= s.len(),
        decimal_digits(s.skip(n)),
    ensures
        forall|k: int| n <= k < s.len() ==> #[trigger] s[k] != '\n' && s[k] != '\r',
{
    assert forall|k: int| n <= k < s.len() implies #[trigger] s[k] != '\n' && s[k] != '\r' by {
        assert(s.skip(n)[k - n] == s[k]);
    }
}

/// The numbers of a well-formed value have no line break.
pub proof fn law_well_formed_numbers_are_plain(value: JsonView)
    requires
        well_formed(value),
    ensures
        plain_numbers(value),
    decreases value,
{
    match value {
        JsonView::Number(digits) => lemma_number_one_line(digits),
        JsonView::Array(items) => {
            assert forall|i: int| 0 <= i < items.len() implies plain_numbers(#[trigger] items[i]) by {
                law_well_formed_numbers_are_plain(items[i]);
            }
        },
        JsonView::Object(members) => {
            assert forall|i: int| 0 <= i < members.len() implies plain_numbers(
                (#[trigger] members[i]).1,
            ) by {
                law_well_formed_numbers_are_plain(members[i].1);
            }
        },
        _ => {},
    }
}

/// The text of a message is the compact text of one JSON object: the version, the
/// type, the id and the payload, in this order.
pub proof fn law_message_text_is_one_object(
    v: u16,
    kind: Seq<char>,
    id: Seq<char>,
    payload: JsonView,
)
    ensures
        message_json(v, kind, id, compact(payload)) == compact(
            JsonView::Object(
                seq![
                    ("v"@, JsonView::Number(decimal(v as nat))),
                    ("type"@, JsonView::Text(kind)),
                    ("id"@, JsonView::Text(id)),
                    ("payload"@, payload),
                ],
            ),
        ),
{
    let members = seq![
        ("v"@, JsonView::Number(decimal(v as nat))),
        ("type"@, JsonView::Text(kind)),
        ("id"@, JsonView::Text(id)),
        ("payload"@, payload),
    ];
    lemma_message_labels();
    assert(compact(members[0].1) == decimal(v as nat));
    assert(compact(members[1].1) == quoted(kind));
    assert(compact(members[2].1) == quoted(id));
    let head = compact_members(members, 1);
    assert(head == quoted("v"@) + seq![':'] + decimal(v as nat));
    lemma_next_member(members, 2, ",\"type\":"@);
    lemma_next_member(members, 3, ",\"id\":"@);
    lemma_next_member(members, 4, ",\"payload\":"@);
    assert(compact(JsonView::Object(members)) == seq!['{'] + compact_members(members, 4) + seq![
        '}',
    ]);
    lemma_opened(
        quoted("v"@),
        decimal(v as nat),
        ",\"type\":"@,
        quoted(kind),
        ",\"id\":"@,
        quoted(id),
        ",\"payload\":"@,
        compact(payload),
    );
}

/// What stands before the parts of a message is the key of each, as a JSON string,
/// between a brace or a comma and a colon.
proof fn lemma_message_labels()
    ensures
        "{\"v\":"@ == seq!['{'] + (quoted("v"@) + seq![':']),
        ",\"type\":"@ == seq![','] + quoted("type"@) + seq![':'],
        ",\"id\":"@ == seq![','] + quoted("id"@) + seq![':'],
        ",\"payload\":"@ == seq![','] + quoted("payload"@) + seq![':'],
        "}"@ == seq!['}'],
{
    reveal_strlit("v");
    reveal_strlit("type");
    reveal_strlit("id");
    reveal_strlit("payload");
    reveal_strlit("{\"v\":");
    reveal_strlit(",\"type\":");
    reveal_strlit(",\"id\":");
    reveal_strlit(",\"payload\":");
    reveal_strlit("}");
    lemma_plain_word("v"@);
    lemma_plain_word("type"@);
    lemma_plain_word("id"@);
    lemma_plain_word("payload"@);
}

/// One more member, behind a comma and its key.
proof fn lemma_next_member(members: Seq<(Seq<char>, JsonView)>, n: nat, label: Seq<char>)
    requires
        1 < n <= members.len(),
        label == seq![','] + quoted(members[n - 1].0) + seq![':'],
    ensures
        compact_members(members, n) == compact_members(members, (n - 1) as nat) + label + compact(
            members[n - 1].1,
        ),
{
    assert(compact_members(members, n) =~= compact_members(members, (n - 1) as nat) + label
        + compact(members[n - 1].1));
}

/// The opening brace may be put to the first key.
proof fn lemma_opened(
    key: Seq<char>,
    version: Seq<char>,
    type_label: Seq<char>,
    kind: Seq<char>,
    id_label: Seq<char>,
    id: Seq<char>,
    payload_label: Seq<char>,
    payload: Seq<char>,
)
    ensures
        seq!['{'] + (key + seq![':'] + version + type_label + kind + id_label + id + payload_label
            + payload) + seq!['}'] == (seq!['{'] + (key + seq![':'])) + version + type_label + kind
            + id_label + id + payload_label + payload + seq!['}'],
{
    let opened = seq!['{'] + (key + seq![':']);
    let inner = key + seq![':'];
    assert(seq!['{'] + (inner + version) == opened + version);
    assert(seq!['{'] + (inner + version + type_label) == opened + version + type_label);
    assert(seq!['{'] + (inner + version + type_label + kind) == opened + version + type_label
        + kind);
    assert(seq!['{'] + (inner + version + type_label + kind + id_label) == opened + version
        + type_label + kind + id_label);
    assert(seq!['{'] + (inner + version + type_label + kind + id_label + id) == opened + version
        + type_label + kind + id_label + id);
    assert(seq!['{'] + (inner + version + type_label + kind + id_label + id + payload_label)
        == opened + version + type_label + kind + id_label + id + payload_label);
    assert(seq!['{'] + (inner + version + type_label + kind + id_label + id + payload_label
        + payload) == opened + version + type_label + kind + id_label + id + payload_label
        + payload);
}

/// What an event carries is well formed.
pub open spec fn well_formed_event(event: EventView) -> bool {
    match event {
        EventView::Data(data) => well_formed(data),
        EventView::Output(output) => well_formed(output),
        _ => true,
    }
}

/// The output collected from well-formed events is well formed.
pub proof fn law_collected_output_is_well_formed(events: Seq<EventView>, gathered: Seq<JsonView>)
    requires
        forall|i: int| 0 <= i < events.len() ==> well_formed_event(#[trigger] events[i]),
        forall|i: int| 0 <= i < gathered.len() ==> well_formed(#[trigger] gathered[i]),
    ensures
        well_formed(capability_output(events, gathered)),
    decreases events.len(),
{
    if events.len() > 0 {
        assert(well_formed_event(events[0]));
        let rest = events.drop_first();
        match events[0] {
            EventView::Data(data) => law_collected_output_is_well_formed(rest, gathered.push(data)),
            EventView::Delta(content) => {
                assert(well_formed(JsonView::Text(content)));
                law_collected_output_is_well_formed(
                    rest,
                    gathered.push(JsonView::Text(content)),
                );
            },
            EventView::Error(message) => lemma_error_well_formed(message),
            _ => {},
        }
    }
}

/// An error as a JSON value is well formed.
proof fn lemma_error_well_formed(message: Seq<char>)
    ensures
        well_formed(error_value(message)),
{
    assert(well_formed(JsonView::Text(message)));
    assert(well_formed(object_of("message"@, JsonView::Text(message))));
}

/// What a reply of the worker carries is well formed.
pub open spec fn well_formed_reply(reply: ReplyView) -> bool {
    match reply {
        ReplyView::CapabilityDelta { data, .. } => well_formed(data),
        ReplyView::CapabilityFinish { output, .. } => well_formed(output),
        _ => true,
    }
}

/// The mock worker answers with well-formed values, whatever it is asked.
pub proof fn law_mock_replies_are_well_formed(worker_id: Seq<char>, job: CapabilityJob)
    ensures
        forall|i: int|
            0 <= i < capability_replies(worker_id, job).len() ==> well_formed_reply(
                #[trigger] capability_replies(worker_id, job)[i],
            ),
{
    let replies = capability_replies(worker_id, job);
    lemma_echo_output_well_formed(echo_response(echo_message(job.input@)), worker_id);
    assert forall|i: int| 0 <= i < replies.len() implies well_formed_reply(
        #[trigger] replies[i],
    ) by {
        if let ReplyView::CapabilityDelta { data, .. } = replies[i] {
            assert(well_formed(data->Object_0[0].1));
        }
    }
}

} // verus!
