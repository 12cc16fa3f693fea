use epoll_router::json::Value;
use epoll_router::stream::{
    collect_capability_output, collect_non_streaming, ends_capability, ends_chat, error_body,
    poll_next, sse_frame, EventPoll, FramePoll, RouterEvent, SseFormat,
};

fn delta(content: &str) -> RouterEvent {
    RouterEvent::Delta(content.to_string())
}

fn text(content: &str) -> Value {
    Value::Text(content.to_string())
}

fn error(message: &str) -> RouterEvent {
    RouterEvent::Error(message.to_string())
}

fn frame(event: RouterEvent, format: SseFormat) -> (Option<String>, String) {
    let frame = sse_frame(event, format);
    (frame.event, frame.data)
}

#[test]
fn deltas_of_a_chat_are_choices() {
    assert_eq!(
        frame(delta("Mock "), SseFormat::Chat),
        (None, "{\"choices\":[{\"delta\":{\"content\":\"Mock \"}}]}".to_string())
    );
    assert_eq!(
        frame(delta("response "), SseFormat::Chat),
        (None, "{\"choices\":[{\"delta\":{\"content\":\"response \"}}]}".to_string())
    );
    assert_eq!(
        frame(delta("a\"\n"), SseFormat::Capability),
        (None, "{\"delta\":\"a\\\"\\n\"}".to_string())
    );
}

#[test]
fn the_other_events_look_alike_in_both_forms() {
    for format in [SseFormat::Chat, SseFormat::Capability] {
        assert_eq!(frame(RouterEvent::Done, format), (None, "[DONE]".to_string()));
        assert_eq!(
            frame(RouterEvent::Data(Value::object("chunk", text("a"))), format),
            (None, "{\"chunk\":\"a\"}".to_string())
        );
        assert_eq!(
            frame(RouterEvent::Output(Value::Null), format),
            (Some("output".to_string()), "null".to_string())
        );
        assert_eq!(
            frame(error("no\tway"), format),
            (
                Some("error".to_string()),
                "{\"error\":{\"message\":\"no\\tway\"}}".to_string()
            )
        );
    }
}

#[test]
fn a_stream_gives_a_frame_for_each_event() {
    let next = |polled| poll_next(polled, SseFormat::Capability);
    assert!(matches!(next(EventPoll::Pending), FramePoll::Pending));
    assert!(matches!(next(EventPoll::Closed), FramePoll::End));
    assert!(matches!(
        next(EventPoll::Ready(RouterEvent::Done)),
        FramePoll::Ready(frame) if frame.event.is_none() && frame.data == "[DONE]"
    ));
    assert!(matches!(
        next(EventPoll::Ready(delta("x"))),
        FramePoll::Ready(frame) if frame.event.is_none() && frame.data == "{\"delta\":\"x\"}"
    ));
}

#[test]
fn event_data_is_one_line() {
    let awkward = "a\r\nb\n\u{2028}c\r";
    for event in [
        delta(awkward),
        error(awkward),
        RouterEvent::Data(Value::object(awkward, text(awkward))),
        RouterEvent::Output(Value::array_of_one(text(awkward))),
    ] {
        let (_, data) = frame(event, SseFormat::Chat);
        assert!(!data.contains('\n') && !data.contains('\r'));
    }
}

#[test]
fn a_chat_is_the_text_up_to_its_end() {
    assert_eq!(collect_non_streaming(vec![]), "");
    assert_eq!(
        collect_non_streaming(vec![delta("Mock "), delta("response"), RouterEvent::Done, delta("x")]),
        "Mock response"
    );
    assert_eq!(collect_non_streaming(vec![delta("a"), error("b"), delta("c")]), "a");
    assert_eq!(
        collect_non_streaming(vec![
            RouterEvent::Data(Value::object("k", Value::Bool(true))),
            delta("-"),
            RouterEvent::Output(text("o")),
            delta("!"),
        ]),
        "{\"k\":true}-\"o\"!"
    );
}

#[test]
fn collected_text_is_the_streamed_text() {
    let pieces = ["Mock ", "response ", "to: ", "", "x"];
    let mut events: Vec<RouterEvent> = pieces.iter().map(|piece| delta(piece)).collect();
    events.push(RouterEvent::Done);
    assert_eq!(collect_non_streaming(events), pieces.concat());
}

#[test]
fn an_output_is_the_first_output_or_error() {
    let collected = |events: Vec<RouterEvent>| collect_capability_output(events).to_text();
    assert_eq!(collected(vec![]), "[]");
    assert_eq!(collected(vec![RouterEvent::Done, delta("x")]), "[]");
    assert_eq!(
        collected(vec![RouterEvent::Data(Value::Null), delta("x"), RouterEvent::Done]),
        "[null,\"x\"]"
    );
    assert_eq!(collected(vec![delta("x"), RouterEvent::Data(Value::Bool(false))]), "[\"x\",false]");
    assert_eq!(
        collected(vec![delta("x"), RouterEvent::Output(Value::Bool(true)), error("late")]),
        "true"
    );
    assert_eq!(
        collected(vec![delta("x"), error("bad"), RouterEvent::Output(Value::Null)]),
        "{\"error\":{\"message\":\"bad\"}}"
    );
    assert_eq!(error_body("bad".to_string()).to_text(), "{\"error\":{\"message\":\"bad\"}}");
}

#[test]
fn replies_end_with_their_last_event() {
    let events = || {
        vec![
            delta("x"),
            RouterEvent::Data(Value::Null),
            RouterEvent::Done,
            RouterEvent::Output(Value::Null),
            error("x"),
        ]
    };
    let chat: Vec<bool> = events().iter().map(ends_chat).collect();
    assert_eq!(chat, vec![false, false, true, false, true]);
    let capability: Vec<bool> = events().iter().map(ends_capability).collect();
    assert_eq!(capability, vec![false, false, true, true, true]);
}
