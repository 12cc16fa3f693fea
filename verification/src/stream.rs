//! What clients are sent: server-sent events for a streamed reply, and the
//! collected reply for one that is not streamed.

use vstd::prelude::*;
use vstd::string::*;

use crate::json::compact;
use crate::json::object_of;
use crate::json::well_formed;
use crate::json::JsonView;
use crate::json::Value;

verus! {

/// An event of a job, on its way to the client that waits for it.
#[derive(Debug)]
pub enum RouterEvent {
    Delta(String),
    Data(Value),
    Done,
    Output(Value),
    Error(String),
}

/// What a [`RouterEvent`] stands for.
pub enum EventView {
    Delta(Seq<char>),
    Data(JsonView),
    Done,
    Output(JsonView),
    Error(Seq<char>),
}

impl View for RouterEvent {
    type V = EventView;

    open spec fn view(&self) -> EventView {
        match *self {
            RouterEvent::Delta(content) => EventView::Delta(content@),
            RouterEvent::Data(data) => EventView::Data(data@),
            RouterEvent::Done => EventView::Done,
            RouterEvent::Output(output) => EventView::Output(output@),
            RouterEvent::Error(message) => EventView::Error(message@),
        }
    }
}

/// What a list of events stands for.
pub open spec fn event_views(events: Seq<RouterEvent>) -> Seq<EventView> {
    events.map_values(|event: RouterEvent| event@)
}

/// The form of a streamed reply.
#[derive(Debug, Clone, Copy)]
pub enum SseFormat {
    Chat,
    Capability,
}

/// How a request is answered: event by event, in the given form, or with one reply
/// that is collected from the events.
#[derive(Debug, Clone, Copy)]
pub enum ReplyForm {
    Streamed(SseFormat),
    Collected,
}

/// The form of the reply to a request: streamed in the form `format` if the request
/// asks for a stream, and collected if it does not.
pub open spec fn form_for(stream: bool, format: SseFormat) -> ReplyForm {
    if stream {
        ReplyForm::Streamed(format)
    } else {
        ReplyForm::Collected
    }
}

/// The form of the reply to a request.
pub fn reply_form(stream: bool, format: SseFormat) -> (form: ReplyForm)
    ensures
        form == form_for(stream, format),
{
    if stream {
        ReplyForm::Streamed(format)
    } else {
        ReplyForm::Collected
    }
}

/// One server-sent event: the name of its type, if it has one, and its data.
#[derive(Debug)]
pub struct SseFrame {
    pub event: Option<String>,
    pub data: String,
}

/// An error as a JSON value: `{"error":{"message":...}}`.
pub open spec fn error_value(message: Seq<char>) -> JsonView {
    object_of("error"@, object_of("message"@, JsonView::Text(message)))
}

/// A piece of a chat completion as a JSON value: `{"choices":[{"delta":{"content":...}}]}`.
pub open spec fn chat_delta_value(content: Seq<char>) -> JsonView {
    object_of(
        "choices"@,
        JsonView::Array(
            seq![object_of("delta"@, object_of("content"@, JsonView::Text(content)))],
        ),
    )
}

/// The data of the server-sent event for `event`.
pub open spec fn sse_data(event: EventView, format: SseFormat) -> Seq<char> {
    match event {
        EventView::Delta(content) => match format {
            SseFormat::Chat => compact(chat_delta_value(content)),
            SseFormat::Capability => compact(object_of("delta"@, JsonView::Text(content))),
        },
        EventView::Data(data) => compact(data),
        EventView::Done => "[DONE]"@,
        EventView::Output(output) => compact(output),
        EventView::Error(message) => compact(error_value(message)),
    }
}

/// The type of the server-sent event for `event`.
pub open spec fn sse_event_name(event: EventView) -> Option<Seq<char>> {
    match event {
        EventView::Output(_) => Some("output"@),
        EventView::Error(_) => Some("error"@),
        _ => None,
    }
}

/// An error as a JSON value.
pub fn error_body(message: String) -> (body: Value)
    ensures
        body@ == error_value(message@),
        well_formed(body@),
{
    let text = Value::Text(message);
    assert(well_formed(text@));
    Value::object("error", Value::object("message", text))
}

/// `frame` is the server-sent event for `event` in a reply of the given form.
pub open spec fn is_frame_of(frame: SseFrame, event: EventView, format: SseFormat) -> bool {
    &&& frame.data@ == sse_data(event, format)
    &&& match sse_event_name(event) {
        Some(name) => frame.event matches Some(held) && held@ == name,
        None => frame.event is None,
    }
}

/// The server-sent event for `event` in a reply of the given form.
pub fn sse_frame(event: RouterEvent, format: SseFormat) -> (frame: SseFrame)
    ensures
        is_frame_of(frame, event@, format),
{
    match event {
        RouterEvent::Delta(content) => {
            let data = match format {
                SseFormat::Chat => Value::object(
                    "choices",
                    Value::array_of_one(
                        Value::object("delta", Value::object("content", Value::Text(content))),
                    ),
                ),
                SseFormat::Capability => Value::object("delta", Value::Text(content)),
            };
            SseFrame { event: None, data: data.to_text() }
        },
        RouterEvent::Data(data) => SseFrame { event: None, data: data.to_text() },
        RouterEvent::Done => SseFrame { event: None, data: "[DONE]".to_owned() },
        RouterEvent::Output(output) => SseFrame {
            event: Some("output".to_owned()),
            data: output.to_text(),
        },
        RouterEvent::Error(message) => SseFrame {
            event: Some("error".to_owned()),
            data: error_body(message).to_text(),
        },
    }
}

/// What a look at the events of a job gives: an event, none yet, or none any more.
#[derive(Debug)]
pub enum EventPoll {
    Ready(RouterEvent),
    Pending,
    Closed,
}

/// What a look at a streamed reply gives: a server-sent event, none yet, or its end.
#[derive(Debug)]
pub enum FramePoll {
    Ready(SseFrame),
    Pending,
    End,
}

/// What a streamed reply of the given form gives when the events of its job give
/// `polled`: one frame for each event, and its end only when no event can come.
pub fn poll_next(polled: EventPoll, format: SseFormat) -> (next: FramePoll)
    ensures
        match polled {
            EventPoll::Ready(event) => next matches FramePoll::Ready(frame) && is_frame_of(
                frame,
                event@,
                format,
            ),
            EventPoll::Pending => next is Pending,
            EventPoll::Closed => next is End,
        },
{
    match polled {
        EventPoll::Ready(event) => FramePoll::Ready(sse_frame(event, format)),
        EventPoll::Pending => FramePoll::Pending,
        EventPoll::Closed => FramePoll::End,
    }
}

/// The text of a chat completion that came in these events: what the events up to
/// the first `Done` or `Error` hold, in their order.
pub open spec fn chat_content(events: Seq<EventView>) -> Seq<char>
    decreases events.len(),
{
    if events.len() == 0 {
        seq![]
    } else {
        let rest = chat_content(events.drop_first());
        match events[0] {
            EventView::Delta(content) => content + rest,
            EventView::Data(data) => compact(data) + rest,
            EventView::Output(output) => compact(output) + rest,
            EventView::Done => seq![],
            EventView::Error(_) => seq![],
        }
    }
}

/// The output of a capability that came in these events, behind the pieces
/// `gathered` so far: the first output or error, or else the array of the pieces.
pub open spec fn capability_output(events: Seq<EventView>, gathered: Seq<JsonView>) -> JsonView
    decreases events.len(),
{
    if events.len() == 0 {
        JsonView::Array(gathered)
    } else {
        match events[0] {
            EventView::Data(data) => capability_output(events.drop_first(), gathered.push(data)),
            EventView::Delta(content) => capability_output(
                events.drop_first(),
                gathered.push(JsonView::Text(content)),
            ),
            EventView::Output(output) => output,
            EventView::Done => JsonView::Array(gathered),
            EventView::Error(message) => error_value(message),
        }
    }
}

/// `event` ends a chat completion.
pub open spec fn is_chat_end(event: EventView) -> bool {
    event is Done || event is Error
}

/// `event` ends the output of a capability.
pub open spec fn is_capability_end(event: EventView) -> bool {
    event is Done || event is Error || event is Output
}

/// Whether a chat completion ends with `event`.
pub fn ends_chat(event: &RouterEvent) -> (ends: bool)
    ensures
        ends == is_chat_end(event@),
{
    match event {
        RouterEvent::Done => true,
        RouterEvent::Error(_) => true,
        _ => false,
    }
}

/// Whether the output of a capability ends with `event`.
pub fn ends_capability(event: &RouterEvent) -> (ends: bool)
    ensures
        ends == is_capability_end(event@),
{
    match event {
        RouterEvent::Done => true,
        RouterEvent::Error(_) => true,
        RouterEvent::Output(_) => true,
        _ => false,
    }
}

/// The text of a chat completion from the events of its job.
pub fn collect_non_streaming(events: Vec<RouterEvent>) -> (content: String)
    ensures
        content@ == chat_content(event_views(events@)),
{
    let ghost views = event_views(events@);
    let mut content = String::new();
    let mut i: usize = 0;
    assert(views.skip(0) == views);
    while i < events.len()
        invariant
            i <= events@.len(),
            views == event_views(events@),
            chat_content(views) == content@ + chat_content(views.skip(i as int)),
        decreases events@.len() - i,
    {
        proof {
            assert(views.skip(i as int)[0] == events@[i as int]@);
            assert(views.skip(i as int).drop_first() == views.skip(i + 1));
        }
        match &events[i] {
            RouterEvent::Delta(delta) => content.append(delta.as_str()),
            RouterEvent::Data(data) => content.append(data.to_text().as_str()),
            RouterEvent::Output(output) => content.append(output.to_text().as_str()),
            RouterEvent::Done => {
                return content;
            },
            RouterEvent::Error(_) => {
                return content;
            },
        }
        i += 1;
    }
    content
}

/// The views of a list of values.
spec fn value_views(values: Seq<Value>) -> Seq<JsonView> {
    values.map_values(|value: Value| value@)
}

/// The output of a capability from the events of its job.
pub fn collect_capability_output(events: Vec<RouterEvent>) -> (output: Value)
    ensures
        output@ == capability_output(event_views(events@), seq![]),
{
    let ghost views = event_views(events@);
    let mut deltas: Vec<Value> = Vec::new();
    assert(views.skip(0) == views);
    assert(value_views(deltas@) =~= seq![]);
    for event in it: events
        invariant
            views == event_views(it.seq()),
            capability_output(views, seq![]) == capability_output(
                views.skip(it.index()),
                value_views(deltas@),
            ),
    {
        proof {
            assert(views.skip(it.index())[0] == event@);
            assert(views.skip(it.index()).drop_first() == views.skip(it.index() + 1));
        }
        let ghost before = deltas@;
        match event {
            RouterEvent::Data(data) => {
                deltas.push(data);
                assert(value_views(deltas@) == value_views(before).push(data@));
            },
            RouterEvent::Output(output) => {
                return output;
            },
            RouterEvent::Done => {
                return array_value(deltas);
            },
            RouterEvent::Error(message) => {
                return error_body(message);
            },
            RouterEvent::Delta(delta) => {
                let piece = Value::Text(delta);
                deltas.push(piece);
                assert(value_views(deltas@) == value_views(before).push(piece@));
            },
        }
    }
    array_value(deltas)
}

/// The array of `items`.
fn array_value(items: Vec<Value>) -> (array: Value)
    ensures
        array@ == JsonView::Array(value_views(items@)),
{
    let ghost views = value_views(items@);
    let array = Value::Array(items);
    assert(array@->Array_0 == views);
    array
}

} // verus!
