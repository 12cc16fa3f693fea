//! What holds of replies, from a worker's messages to what the client is sent.

use vstd::prelude::*;

use crate::json::compact;
use crate::json::compact_items;
use crate::json::compact_members;
use crate::json::escaped;
use crate::json::escaped_char;
use crate::json::hex_digit;
use crate::json::object_of;
use crate::json::quoted;
use crate::json::JsonView;
use crate::protocol::CapabilityJob;
use crate::protocol::Envelope;
use crate::protocol::InferenceJob;
use crate::protocol::WorkerPayload;
use crate::protocol::WorkerRegister;
use crate::socket::socket_step;
use crate::socket::SocketInput;
use crate::socket::SocketStep;
use crate::state::registered;
use crate::state::PendingJob;
use crate::stream::capability_output;
use crate::stream::chat_content;
use crate::stream::chat_delta_value;
use crate::stream::error_value;
use crate::stream::event_views;
use crate::stream::is_capability_end;
use crate::stream::is_chat_end;
use crate::stream::sse_data;
use crate::stream::EventView;
use crate::stream::SseFormat;
use crate::text::joined;
use crate::text::lemma_split_behind_joined;
use crate::text::split_behind;
use crate::text::texts;
use crate::worker::capability_deltas;
use crate::worker::capability_replies;
use crate::worker::carries;
use crate::worker::echo_message;
use crate::worker::echo_output;
use crate::worker::echo_response;
use crate::worker::is_registration;
use crate::worker::job_deltas;
use crate::worker::job_replies;
use crate::worker::mock_registration;
use crate::worker::mock_response;
use crate::worker::prompt_of;
use crate::worker::replies_to;
use crate::worker::reply_kind;
use crate::worker::sends;
use crate::worker::worker_step;
use crate::worker::MockWorker;
use crate::worker::Outgoing;
use crate::worker::ReplyView;
use crate::worker::WorkerInput;
use crate::worker::WorkerStep;
use crate::workers::goes_by;
use crate::workers::ConnectedWorker;

verus! {

/// The events of the pieces of a chat completion.
pub open spec fn delta_events(pieces: Seq<Seq<char>>) -> Seq<EventView> {
    Seq::new(pieces.len(), |i: int| EventView::Delta(pieces[i]))
}

/// The collected text of a chat completion is the pieces that a streamed one shows,
/// put together: all those before the end, and nothing behind it.
pub proof fn law_collected_text_is_the_streamed_text(
    pieces: Seq<Seq<char>>,
    end: EventView,
    later: Seq<EventView>,
)
    requires
        is_chat_end(end),
    ensures
        chat_content(delta_events(pieces).push(end) + later) == joined(pieces),
    decreases pieces.len(),
{
    let events = delta_events(pieces).push(end) + later;
    if pieces.len() == 0 {
        assert(events[0] == end);
    } else {
        let rest = pieces.drop_first();
        law_collected_text_is_the_streamed_text(rest, end, later);
        assert(events.drop_first() == delta_events(rest).push(end) + later);
        assert(events[0] == EventView::Delta(pieces[0]));
    }
}

/// A reader of a chat completion may stop at the event that ends it: what comes
/// behind it changes nothing.
pub proof fn law_chat_ends_at_its_end(events: Seq<EventView>, k: int)
    requires
        0 <= k < events.len(),
        is_chat_end(events[k]),
    ensures
        chat_content(events.take(k + 1)) == chat_content(events),
    decreases events.len(),
{
    let read = events.take(k + 1);
    assert(read[0] == events[0]);
    if k > 0 {
        law_chat_ends_at_its_end(events.drop_first(), k - 1);
        assert(read.drop_first() == events.drop_first().take(k));
    }
}

/// A reader of a capability's output may stop at the event that ends it: what comes
/// behind it changes nothing.
pub proof fn law_capability_ends_at_its_end(
    events: Seq<EventView>,
    gathered: Seq<JsonView>,
    k: int,
)
    requires
        0 <= k < events.len(),
        is_capability_end(events[k]),
    ensures
        capability_output(events.take(k + 1), gathered) == capability_output(events, gathered),
    decreases events.len(),
{
    let read = events.take(k + 1);
    assert(read[0] == events[0]);
    if k > 0 {
        let rest = events.drop_first();
        assert(read.drop_first() == rest.take(k));
        match events[0] {
            EventView::Data(data) => {
                law_capability_ends_at_its_end(rest, gathered.push(data), k - 1);
            },
            EventView::Delta(content) => {
                law_capability_ends_at_its_end(
                    rest,
                    gathered.push(JsonView::Text(content)),
                    k - 1,
                );
            },
            _ => {},
        }
    }
}

/// An object with one member, as text.
proof fn lemma_compact_object(key: Seq<char>, value: JsonView)
    ensures
        compact(object_of(key, value)) == seq!['{'] + quoted(key) + seq![':'] + compact(value)
            + seq!['}'],
{
    let members = seq![(key, value)];
    assert(compact_members(members, 1) == quoted(key) + seq![':'] + compact(value));
    assert(compact(object_of(key, value)) == seq!['{'] + compact_members(members, 1) + seq!['}']);
    assert(compact(object_of(key, value)) =~= seq!['{'] + quoted(key) + seq![':'] + compact(value)
        + seq!['}']);
}

/// The data of streamed events, to the letter: a piece of a chat completion, a piece
/// of a capability's output and an error.
pub proof fn law_event_texts(text: Seq<char>)
    ensures
        sse_data(EventView::Delta(text), SseFormat::Chat)
            == "{\"choices\":[{\"delta\":{\"content\":"@ + quoted(text) + "}}]}"@,
        sse_data(EventView::Delta(text), SseFormat::Capability) == "{\"delta\":"@ + quoted(text)
            + "}"@,
        sse_data(EventView::Error(text), SseFormat::Chat) == "{\"error\":{\"message\":"@ + quoted(
            text,
        ) + "}}"@,
        sse_data(EventView::Error(text), SseFormat::Capability) == "{\"error\":{\"message\":"@
            + quoted(text) + "}}"@,
        sse_data(EventView::Done, SseFormat::Chat) == "[DONE]"@,
        sse_data(EventView::Done, SseFormat::Capability) == "[DONE]"@,
{
    lemma_delta_text(text);
    lemma_chat_delta_text(text);
    lemma_error_text(text);
}

/// The text of `{"delta":...}`.
proof fn lemma_delta_text(text: Seq<char>)
    ensures
        compact(object_of("delta"@, JsonView::Text(text))) == "{\"delta\":"@ + quoted(text) + "}"@,
{
    reveal_strlit("delta");
    reveal_strlit("{\"delta\":");
    reveal_strlit("}");
    lemma_plain_word("delta"@);
    lemma_compact_object("delta"@, JsonView::Text(text));
    assert(seq!['{'] + quoted("delta"@) + seq![':'] =~= "{\"delta\":"@);
    assert(seq!['}'] =~= "}"@);
}

/// The text of `{"error":{"message":...}}`.
proof fn lemma_error_text(text: Seq<char>)
    ensures
        compact(error_value(text)) == "{\"error\":{\"message\":"@ + quoted(text) + "}}"@,
{
    reveal_strlit("error");
    reveal_strlit("message");
    reveal_strlit("{\"error\":{\"message\":");
    reveal_strlit("}}");
    lemma_plain_word("error"@);
    lemma_plain_word("message"@);
    let inner = object_of("message"@, JsonView::Text(text));
    lemma_compact_object("message"@, JsonView::Text(text));
    lemma_compact_object("error"@, inner);
    let open_error = seq!['{'] + quoted("error"@) + seq![':'];
    let open_message = seq!['{'] + quoted("message"@) + seq![':'];
    assert(open_error + open_message =~= "{\"error\":{\"message\":"@);
    assert(seq!['}'] + seq!['}'] =~= "}}"@);
    lemma_wrap(open_error, open_message, quoted(text), seq!['}'], seq!['}']);
}

/// The text of `{"choices":[{"delta":{"content":...}}]}`.
proof fn lemma_chat_delta_text(text: Seq<char>)
    ensures
        compact(chat_delta_value(text)) == "{\"choices\":[{\"delta\":{\"content\":"@ + quoted(text)
            + "}}]}"@,
{
    reveal_strlit("choices");
    reveal_strlit("delta");
    reveal_strlit("content");
    reveal_strlit("{\"choices\":[{\"delta\":{\"content\":");
    reveal_strlit("}}]}");
    lemma_plain_word("choices"@);
    lemma_plain_word("delta"@);
    lemma_plain_word("content"@);
    let content = object_of("content"@, JsonView::Text(text));
    let delta = object_of("delta"@, content);
    let items = seq![delta];
    lemma_compact_object("content"@, JsonView::Text(text));
    lemma_compact_object("delta"@, content);
    lemma_compact_object("choices"@, JsonView::Array(items));
    assert(compact_items(items, 1) == compact(delta));
    assert(compact(JsonView::Array(items)) == seq!['['] + compact_items(items, 1) + seq![']']);
    let open_choices = seq!['{'] + quoted("choices"@) + seq![':'];
    let open_delta = seq!['{'] + quoted("delta"@) + seq![':'];
    let open_content = seq!['{'] + quoted("content"@) + seq![':'];
    let close = seq!['}'];
    lemma_wrap(open_delta, open_content, quoted(text), close, close);
    lemma_wrap(seq!['['], open_delta + open_content, quoted(text), close + close, seq![']']);
    lemma_wrap(
        open_choices,
        seq!['['] + (open_delta + open_content),
        quoted(text),
        close + close + seq![']'],
        close,
    );
    assert(open_choices + (seq!['['] + (open_delta + open_content))
        =~= "{\"choices\":[{\"delta\":{\"content\":"@);
    assert(close + close + seq![']'] + close =~= "}}]}"@);
}

/// What stands around a text stands around it at once or step by step.
proof fn lemma_wrap(
    outer: Seq<char>,
    inner: Seq<char>,
    text: Seq<char>,
    inner_end: Seq<char>,
    outer_end: Seq<char>,
)
    ensures
        outer + (inner + text + inner_end) + outer_end == (outer + inner) + text + (inner_end
            + outer_end),
{
    assert(outer + (inner + text + inner_end) + outer_end =~= (outer + inner) + text + (inner_end
        + outer_end));
}

/// A text of small letters needs no escape.
pub proof fn lemma_plain_word(word: Seq<char>)
    requires
        forall|i: int| 0 <= i < word.len() ==> 'a' <= #[trigger] word[i] <= 'z',
    ensures
        escaped(word) == word,
    decreases word.len(),
{
    if word.len() > 0 {
        lemma_plain_word(word.drop_last());
        assert(escaped_char(word.last()) == seq![word.last()]);
        assert(word.drop_last() + seq![word.last()] == word);
    }
}

/// A text without a line break.
pub open spec fn one_line(s: Seq<char>) -> bool {
    forall|i: int| 0 <= i < s.len() ==> #[trigger] s[i] != '\n' && s[i] != '\r'
}

/// The texts of the numbers in a value have no line break.
pub open spec fn plain_numbers(value: JsonView) -> bool
    decreases value,
{
    match value {
        JsonView::Number(digits) => one_line(digits),
        JsonView::Array(items) => forall|i: int|
            0 <= i < items.len() ==> plain_numbers(#[trigger] items[i]),
        JsonView::Object(members) => forall|i: int|
            0 <= i < members.len() ==> plain_numbers((#[trigger] members[i]).1),
        _ => true,
    }
}

/// The texts of the numbers in an event have no line break.
pub open spec fn plain_event(event: EventView) -> bool {
    match event {
        EventView::Data(data) => plain_numbers(data),
        EventView::Output(output) => plain_numbers(output),
        _ => true,
    }
}

/// A character inside a JSON string is no line break.
proof fn lemma_escaped_char_one_line(c: char)
    ensures
        one_line(escaped_char(c)),
{
    if c <= '\u{1f}' {
        let high = hex_digit(c as int / 16);
        let low = hex_digit(c as int % 16);
        assert('0' <= high <= 'f' && '0' <= low <= 'f');
    }
}

/// A JSON string has no line break.
proof fn lemma_quoted_one_line(s: Seq<char>)
    ensures
        one_line(escaped(s)),
        one_line(quoted(s)),
    decreases s.len(),
{
    if s.len() > 0 {
        lemma_quoted_one_line(s.drop_last());
        lemma_escaped_char_one_line(s.last());
    }
}

/// The compact text of a value has no line break.
proof fn lemma_compact_one_line(value: JsonView)
    requires
        plain_numbers(value),
    ensures
        one_line(compact(value)),
    decreases value, 0nat,
{
    reveal_strlit("null");
    reveal_strlit("true");
    reveal_strlit("false");
    match value {
        JsonView::Text(text) => lemma_quoted_one_line(text),
        JsonView::Array(items) => lemma_items_one_line(items, items.len()),
        JsonView::Object(members) => lemma_members_one_line(members, members.len()),
        _ => {},
    }
}

/// The compact texts of items have no line break.
proof fn lemma_items_one_line(items: Seq<JsonView>, n: nat)
    requires
        forall|i: int| 0 <= i < items.len() ==> plain_numbers(#[trigger] items[i]),
    ensures
        one_line(compact_items(items, n)),
    decreases items, n,
{
    if 0 < n <= items.len() {
        lemma_items_one_line(items, (n - 1) as nat);
        lemma_compact_one_line(items[n - 1]);
    }
}

/// The compact texts of members have no line break.
proof fn lemma_members_one_line(members: Seq<(Seq<char>, JsonView)>, n: nat)
    requires
        forall|i: int| 0 <= i < members.len() ==> plain_numbers((#[trigger] members[i]).1),
    ensures
        one_line(compact_members(members, n)),
    decreases members, n,
{
    if 0 < n <= members.len() {
        lemma_members_one_line(members, (n - 1) as nat);
        lemma_quoted_one_line(members[n - 1].0);
        lemma_compact_one_line(members[n - 1].1);
    }
}

/// The data of a streamed event stands on one line.
pub proof fn law_event_data_is_one_line(event: EventView, format: SseFormat)
    requires
        plain_event(event),
    ensures
        one_line(sse_data(event, format)),
{
    reveal_strlit("[DONE]");
    match event {
        EventView::Delta(content) => {
            let value = JsonView::Text(content);
            let delta = object_of("delta"@, object_of("content"@, value));
            assert(plain_numbers(value));
            assert(plain_numbers(object_of("delta"@, value)));
            assert(plain_numbers(object_of("content"@, value)));
            assert(plain_numbers(delta));
            assert(plain_numbers(JsonView::Array(seq![delta])));
            assert(plain_numbers(chat_delta_value(content)));
            lemma_compact_one_line(chat_delta_value(content));
            lemma_compact_one_line(object_of("delta"@, value));
        },
        EventView::Data(data) => lemma_compact_one_line(data),
        EventView::Output(output) => lemma_compact_one_line(output),
        EventView::Error(message) => {
            let inner = object_of("message"@, JsonView::Text(message));
            assert(plain_numbers(JsonView::Text(message)));
            assert(plain_numbers(inner));
            assert(plain_numbers(error_value(message)));
            lemma_compact_one_line(error_value(message));
        },
        EventView::Done => {},
    }
}

/// The events that the router sends to the client for a reply of the worker.
pub open spec fn relayed(reply: ReplyView) -> Seq<EventView> {
    match reply {
        ReplyView::JobDelta { content, .. } => seq![EventView::Delta(content)],
        ReplyView::JobFinish { .. } => seq![EventView::Done],
        ReplyView::JobError { message, .. } => seq![EventView::Error(message)],
        ReplyView::CapabilityDelta { data, .. } => seq![EventView::Data(data)],
        ReplyView::CapabilityFinish { output, .. } => seq![
            EventView::Output(output),
            EventView::Done,
        ],
        ReplyView::CapabilityError { message, .. } => seq![EventView::Error(message)],
    }
}

/// The events for a list of replies.
pub open spec fn relayed_all(replies: Seq<ReplyView>) -> Seq<EventView>
    decreases replies.len(),
{
    if replies.len() == 0 {
        seq![]
    } else {
        relayed(replies[0]) + relayed_all(replies.drop_first())
    }
}

/// The job that a reply belongs to.
pub open spec fn reply_job(reply: ReplyView) -> Seq<char> {
    match reply {
        ReplyView::JobDelta { job_id, .. } => job_id,
        ReplyView::JobFinish { job_id, .. } => job_id,
        ReplyView::JobError { job_id, .. } => job_id,
        ReplyView::CapabilityDelta { job_id, .. } => job_id,
        ReplyView::CapabilityFinish { job_id, .. } => job_id,
        ReplyView::CapabilityError { job_id, .. } => job_id,
    }
}

/// The router understands each reply of a worker: the client that waits for the job
/// is sent the events of the reply.
pub proof fn law_replies_reach_the_client<W, C: Clone>(
    workers: Seq<ConnectedWorker<W>>,
    pending: Map<Seq<char>, PendingJob<C>>,
    authorized: Seq<char>,
    is_registered: bool,
    envelope: Envelope<WorkerPayload>,
    out_tx: W,
    next_workers: Seq<ConnectedWorker<W>>,
    next_pending: Map<Seq<char>, PendingJob<C>>,
    next_registered: bool,
    step: SocketStep<C>,
    reply: ReplyView,
)
    requires
        socket_step(
            workers,
            pending,
            authorized,
            is_registered,
            SocketInput::Message(envelope),
            out_tx,
            next_workers,
            next_pending,
            next_registered,
            step,
        ),
        envelope.kind@ == reply_kind(reply),
        carries(envelope.payload, reply),
        pending.contains_key(reply_job(reply)),
    ensures
        step matches SocketStep::Continue(Some(delivery)) && cloned(
            pending[reply_job(reply)].tx,
            delivery.tx,
        ) && event_views(delivery.events@) == relayed(reply),
{
    assert(event_views(step->Continue_0->0.events@) =~= relayed(reply));
}

/// What the mock worker answers to a chat completion reaches the client whole: the
/// events of its replies, collected, are its response to the last message.
pub proof fn law_mock_chat_end_to_end(job: InferenceJob)
    ensures
        chat_content(relayed_all(job_replies(job))) == mock_response(prompt_of(job)),
{
    let response = mock_response(prompt_of(job));
    let pieces = split_behind(response, ' ');
    lemma_relayed_deltas(job.job_id@, pieces, "stop"@);
    law_collected_text_is_the_streamed_text(pieces, EventView::Done, seq![]);
    assert(delta_events(pieces).push(EventView::Done) + seq![] =~= delta_events(pieces).push(
        EventView::Done,
    ));
    lemma_split_behind_joined(response, ' ');
}

/// The events of the replies to a chat completion.
proof fn lemma_relayed_deltas(job_id: Seq<char>, pieces: Seq<Seq<char>>, finish_reason: Seq<char>)
    ensures
        relayed_all(job_deltas(job_id, pieces).push(ReplyView::JobFinish { job_id, finish_reason }))
            == delta_events(pieces).push(EventView::Done),
    decreases pieces.len(),
{
    let finish = ReplyView::JobFinish { job_id, finish_reason };
    let replies = job_deltas(job_id, pieces).push(finish);
    if pieces.len() == 0 {
        assert(replies[0] == finish);
        assert(replies.drop_first() == Seq::<ReplyView>::empty());
        assert(relayed_all(replies.drop_first()) == Seq::<EventView>::empty());
        assert(relayed_all(replies) =~= delta_events(pieces).push(EventView::Done));
    } else {
        let rest = pieces.drop_first();
        lemma_relayed_deltas(job_id, rest, finish_reason);
        assert(replies[0] == ReplyView::JobDelta { job_id, content: pieces[0] });
        assert(replies.drop_first() == job_deltas(job_id, rest).push(finish));
        assert(relayed_all(replies) =~= delta_events(pieces).push(EventView::Done));
    }
}

/// What the mock worker answers to a request for a capability reaches the client:
/// the output of the echo, or that the capability is not supported.
pub proof fn law_mock_capability_end_to_end(worker_id: Seq<char>, job: CapabilityJob)
    ensures
        capability_output(relayed_all(capability_replies(worker_id, job)), seq![])
            == if job.capability@ == "run_echo"@ {
            echo_output(echo_response(echo_message(job.input@)), worker_id)
        } else {
            error_value("unsupported capability"@)
        },
{
    let replies = capability_replies(worker_id, job);
    if job.capability@ == "run_echo"@ {
        let response = echo_response(echo_message(job.input@));
        lemma_capability_relayed(
            job.job_id@,
            split_behind(response, ' '),
            echo_output(response, worker_id),
            seq![],
        );
    } else {
        assert(relayed_all(replies)[0] == EventView::Error("unsupported capability"@));
    }
}

/// The output in the events of pieces and of the output that ends them.
proof fn lemma_capability_relayed(
    job_id: Seq<char>,
    pieces: Seq<Seq<char>>,
    output: JsonView,
    gathered: Seq<JsonView>,
)
    ensures
        capability_output(
            relayed_all(
                capability_deltas(job_id, pieces).push(
                    ReplyView::CapabilityFinish { job_id, output },
                ),
            ),
            gathered,
        ) == output,
    decreases pieces.len(),
{
    let finish = ReplyView::CapabilityFinish { job_id, output };
    let replies = capability_deltas(job_id, pieces).push(finish);
    let events = relayed_all(replies);
    if pieces.len() == 0 {
        assert(replies[0] == finish);
        assert(events[0] == EventView::Output(output));
    } else {
        let data = object_of("chunk"@, JsonView::Text(pieces[0]));
        let rest = pieces.drop_first();
        lemma_capability_relayed(job_id, rest, output, gathered.push(data));
        assert(replies[0] == ReplyView::CapabilityDelta { job_id, data });
        assert(replies.drop_first() == capability_deltas(job_id, rest).push(finish));
        assert(events[0] == EventView::Data(data));
        assert(events.drop_first() == relayed_all(replies.drop_first()));
    }
}

/// The messages that a step of the mock worker sends.
pub open spec fn sent_in(step: WorkerStep) -> Seq<Envelope<WorkerPayload>> {
    match step {
        WorkerStep::Send(outgoing) => outgoing@.map_values(|message: Outgoing| message.envelope),
        WorkerStep::Fail => seq![],
    }
}

/// The messages that a session of the mock worker sends: the one that opens it, then
/// those of its steps.
pub open spec fn session_messages(
    registration: Envelope<WorkerPayload>,
    steps: Seq<WorkerStep>,
) -> Seq<Envelope<WorkerPayload>>
    decreases steps.len(),
{
    if steps.len() == 0 {
        seq![registration]
    } else {
        session_messages(registration, steps.drop_last()) + sent_in(steps.last())
    }
}

/// The mock worker registers before it sends any other message, and never again:
/// whatever its connection brings, the first message of a session registers it, and
/// no later one does.
pub proof fn law_registration_comes_first(
    worker: MockWorker,
    registration: Envelope<WorkerPayload>,
    inputs: Seq<WorkerInput>,
    steps: Seq<WorkerStep>,
)
    requires
        is_registration(registration, worker.worker_id@),
        steps.len() == inputs.len(),
        forall|i: int| 0 <= i < steps.len() ==> worker_step(worker, inputs[i], #[trigger] steps[i]),
    ensures
        ({
            let sent = session_messages(registration, steps);
            &&& sent.len() > 0
            &&& is_registration(sent[0], worker.worker_id@)
            &&& forall|i: int|
                0 < i < sent.len() ==> (#[trigger] sent[i]).kind@ != "worker.register"@
                    && !(sent[i].payload is Register)
        }),
    decreases steps.len(),
{
    if steps.len() > 0 {
        law_registration_comes_first(worker, registration, inputs.drop_last(), steps.drop_last());
        lemma_step_does_not_register(worker, inputs.last(), steps.last());
    }
}

/// No step of the mock worker registers it.
proof fn lemma_step_does_not_register(worker: MockWorker, input: WorkerInput, step: WorkerStep)
    requires
        worker_step(worker, input, step),
    ensures
        forall|i: int|
            0 <= i < sent_in(step).len() ==> (#[trigger] sent_in(step)[i]).kind@
                != "worker.register"@ && !(sent_in(step)[i].payload is Register),
{
    reveal_strlit("worker.register");
    reveal_strlit("worker.telemetry");
    reveal_strlit("job.delta");
    reveal_strlit("job.finish");
    reveal_strlit("job.error");
    reveal_strlit("capability.delta");
    reveal_strlit("capability.finish");
    reveal_strlit("capability.error");
    assert("worker.telemetry"@ != "worker.register"@) by {
        assert("worker.telemetry"@.len() != "worker.register"@.len());
    }
    assert forall|i: int| 0 <= i < sent_in(step).len() implies (#[trigger] sent_in(step)[i]).kind@
        != "worker.register"@ && !(sent_in(step)[i].payload is Register) by {
        if let WorkerInput::Message(envelope) = input {
            let reply = replies_to(worker.worker_id@, envelope.kind@, envelope.payload)[i];
            assert(sends(step->Send_0@[i], reply));
            assert(reply_kind(reply)[0] != "worker.register"@[0]);
        }
    }
}

/// The mock worker, once registered, serves its model under its id and both aliases,
/// and offers the echo.
pub proof fn law_mock_worker_advertises<W>(
    register: WorkerRegister,
    worker_id: Seq<char>,
    tx: W,
)
    requires
        mock_registration(register, worker_id),
    ensures
        registered(register, tx).worker_id@ == worker_id,
        registered(register, tx).serves_model("mock-llm"@),
        registered(register, tx).serves_model("local-default"@),
        registered(register, tx).serves_model("fast"@),
        registered(register, tx).offers_capability("run_echo"@),
{
    let worker = registered(register, tx);
    let model = register.models@[0];
    assert(texts(model.aliases@).len() == seq!["local-default"@, "fast"@].len());
    assert(texts(model.aliases@)[0] == model.aliases@[0]@);
    assert(texts(model.aliases@)[1] == model.aliases@[1]@);
    assert(goes_by(worker.models@[0], "mock-llm"@));
    assert(goes_by(worker.models@[0], "local-default"@));
    assert(goes_by(worker.models@[0], "fast"@));
    assert(worker.capabilities@[0].name@ == "run_echo"@);
}

} // verus!
