use axum::http::{HeaderMap, HeaderValue};
use epoll_router::api::{
    capability_job, capability_response, chat_job, chat_response, collected_capability,
    collected_chat, unavailable, worker_socket, CapabilityRequest, ChatCompletionRequest,
};
use epoll_router::auth::{parse_keys, KeyTable};
use epoll_router::json::Value;
use epoll_router::protocol::{ChatMessage, Float32, WorkerPayload};
use epoll_router::socket::{SocketInput, SocketStep};
use epoll_router::state::RouterState;
use epoll_router::stream::{reply_form, ReplyForm, RouterEvent, SseFormat};
use epoll_router::worker::{mock_register, MockWorker};

type State = RouterState<u32, u64>;

fn keys() -> KeyTable {
    parse_keys(None, "local-client:dev-client-token")
}

fn headers(token: &str) -> HeaderMap {
    let mut headers = HeaderMap::new();
    headers.insert("authorization", HeaderValue::from_str(&format!("Bearer {token}")).unwrap());
    headers
}

fn chat(model: &str, contents: &[&str]) -> ChatCompletionRequest {
    ChatCompletionRequest {
        model: model.to_string(),
        messages: contents
            .iter()
            .map(|content| ChatMessage { role: "user".to_string(), content: content.to_string() })
            .collect(),
        temperature: Some(Float32 { bits: 0.5f32.to_bits() }),
        top_p: None,
        max_tokens: Some(16),
        stream: true,
    }
}

fn connected() -> State {
    let mut state = State::new();
    state.register_worker(mock_register("mock-worker"), 1);
    state
}

#[test]
fn a_chat_of_a_known_client_goes_to_a_worker() {
    let mut state = connected();
    let opening = state
        .chat_completions(&headers("dev-client-token"), &keys(), chat("local-default", &["hi"]), 5)
        .unwrap();
    assert_eq!(opening.client_id, "local-client");
    assert_eq!(opening.model, "local-default");
    assert!(matches!(opening.reply, ReplyForm::Streamed(SseFormat::Chat)));
    assert!(opening.job_id.starts_with("job_"));
    assert_eq!(opening.job_id.len(), 40);
    assert_eq!(opening.dispatch.tx, 1);
    let envelope = opening.dispatch.envelope;
    assert_eq!((envelope.v, envelope.kind.as_str()), (1, "job.start"));
    assert!(envelope.id.starts_with("msg_"));
    assert_ne!(envelope.id[4..], opening.job_id[4..]);
    let WorkerPayload::JobStart(job) = envelope.payload else { panic!("no job") };
    assert_eq!(job.job_id, opening.job_id);
    assert_eq!(job.messages[0].content, "hi");
    assert_eq!(f32::from_bits(job.sampling.temperature.unwrap().bits), 0.5);
    assert!(job.sampling.top_p.is_none());
    assert_eq!(job.sampling.max_tokens, Some(16));
}

#[test]
fn a_chat_is_turned_down_for_a_reason() {
    let mut state = connected();
    let mut refused = |token: &str, request: ChatCompletionRequest| {
        let refusal = state.chat_completions(&headers(token), &keys(), request, 5).unwrap_err();
        (refusal.status, refusal.body)
    };
    let reply = |status: u16, body: &str| (status, body.to_string());
    assert_eq!(
        refused("wrong", chat("mock-llm", &[])),
        reply(401, "missing or invalid client bearer token")
    );
    assert_eq!(refused("dev-client-token", chat("other", &[])), reply(400, "messages must not be empty"));
    assert_eq!(
        refused("dev-client-token", chat("other", &["hi"])),
        reply(503, "no healthy worker has capacity for requested model")
    );
    let settled = state.settle_dispatch("j", false).map_err(unavailable).unwrap_err();
    assert_eq!(
        (settled.status, settled.body),
        reply(503, "selected worker disconnected before dispatch")
    );
}

#[test]
fn a_capability_of_a_known_client_goes_to_a_worker() {
    let mut state = connected();
    let request = CapabilityRequest { input: Value::Bool(true), stream: false };
    let opening = state
        .capability_request(&headers("dev-client-token"), &keys(), "run_echo".to_string(), request, 5)
        .unwrap();
    assert_eq!((opening.client_id.as_str(), opening.capability.as_str()), ("local-client", "run_echo"));
    assert!(matches!(opening.reply, ReplyForm::Collected));
    assert!(opening.job_id.starts_with("cap_"));
    let envelope = opening.dispatch.envelope;
    assert_eq!(envelope.kind, "capability.start");
    let WorkerPayload::CapabilityStart(job) = envelope.payload else { panic!("no job") };
    assert_eq!((job.job_id, job.capability), (opening.job_id, "run_echo".to_string()));
    assert!(matches!(job.input, Value::Bool(true)));
}

#[test]
fn a_capability_is_turned_down_for_a_reason() {
    let mut state = connected();
    let mut refused = |token: &str, capability: &str| {
        let request = CapabilityRequest { input: Value::Null, stream: true };
        let refusal = state
            .capability_request(&headers(token), &keys(), capability.to_string(), request, 5)
            .unwrap_err();
        (refusal.status, refusal.body)
    };
    assert_eq!(
        refused("wrong", "run_echo"),
        (401, "missing or invalid client bearer token".to_string())
    );
    assert_eq!(
        refused("dev-client-token", "dump_database"),
        (503, "no healthy worker has capacity for requested capability".to_string())
    );
}

#[test]
fn requests_under_a_given_id_and_client() {
    let mut state = connected();
    let opening = state
        .open_chat("client".to_string(), "job_x".to_string(), chat("fast", &["hi"]), 5)
        .unwrap();
    assert_eq!((opening.client_id.as_str(), opening.job_id.as_str()), ("client", "job_x"));
    assert!(opening.dispatch.envelope.id.starts_with("msg_"));
    let request = CapabilityRequest { input: Value::Null, stream: true };
    let opening = state
        .open_capability("client".to_string(), "cap_x".to_string(), "run_echo".to_string(), request, 5)
        .unwrap();
    assert_eq!((opening.client_id.as_str(), opening.job_id.as_str()), ("client", "cap_x"));
    assert!(opening.dispatch.envelope.id.starts_with("msg_"));
}

#[test]
fn jobs_ask_what_the_requests_ask() {
    let job = chat_job("job_1", chat("m", &["a", "b"]));
    assert_eq!((job.job_id.as_str(), job.model.as_str(), job.messages.len()), ("job_1", "m", 2));
    assert!(job.stream);
    let request = CapabilityRequest { input: Value::Null, stream: true };
    let job = capability_job("cap_1", "c".to_string(), request);
    assert_eq!((job.job_id.as_str(), job.capability.as_str(), job.stream), ("cap_1", "c", true));
}

#[test]
fn replies_that_are_not_streamed() {
    let response = chat_response("job_1".to_string(), "m".to_string(), "text".to_string());
    assert_eq!(
        (response.id.as_str(), response.object.as_str(), response.model.as_str()),
        ("job_1", "chat.completion", "m")
    );
    assert_eq!(response.choices.len(), 1);
    let choice = &response.choices[0];
    assert_eq!((choice.index, choice.finish_reason.as_str()), (0, "stop"));
    assert_eq!((choice.message.role.as_str(), choice.message.content.as_str()), ("assistant", "text"));
    let response = capability_response("cap_1".to_string(), "c".to_string(), Value::Bool(true));
    assert_eq!((response.id.as_str(), response.capability.as_str()), ("cap_1", "c"));
    assert_eq!(response.output.to_text(), "true");
}

#[test]
fn the_flag_of_a_request_decides_the_form_of_the_reply() {
    assert!(matches!(reply_form(true, SseFormat::Chat), ReplyForm::Streamed(SseFormat::Chat)));
    assert!(matches!(
        reply_form(true, SseFormat::Capability),
        ReplyForm::Streamed(SseFormat::Capability)
    ));
    assert!(matches!(reply_form(false, SseFormat::Chat), ReplyForm::Collected));
    assert!(matches!(reply_form(false, SseFormat::Capability), ReplyForm::Collected));
    let request = CapabilityRequest { input: Value::Null, stream: true };
    let opening = connected()
        .open_capability("c".to_string(), "j".to_string(), "run_echo".to_string(), request, 5)
        .unwrap();
    assert!(matches!(opening.reply, ReplyForm::Streamed(SseFormat::Capability)));
}

#[test]
fn replies_are_collected_from_events() {
    let delta = |text: &str| RouterEvent::Delta(text.to_string());
    let response = collected_chat(
        "job_1".to_string(),
        "m".to_string(),
        vec![delta("Mock "), delta("response"), RouterEvent::Done, delta("late")],
    );
    assert_eq!((response.id.as_str(), response.model.as_str()), ("job_1", "m"));
    assert_eq!(response.choices[0].message.content, "Mock response");
    let response = collected_capability(
        "cap_1".to_string(),
        "c".to_string(),
        vec![delta("x"), RouterEvent::Output(Value::Bool(true)), RouterEvent::Done],
    );
    assert_eq!((response.id.as_str(), response.capability.as_str()), ("cap_1", "c"));
    assert_eq!(response.output.to_text(), "true");
}

#[test]
fn a_worker_connects_with_its_token() {
    let worker_keys = parse_keys(None, "mock-worker:dev-worker-token");
    let refusal = worker_socket(&headers("dev-client-token"), &worker_keys).unwrap_err();
    assert_eq!(refusal.status, 401);
    assert_eq!(refusal.body, "missing or invalid worker bearer token");
    let mut connection = worker_socket(&headers("dev-worker-token"), &worker_keys).unwrap();
    let mut state = State::new();
    let (_, hello) = MockWorker::connect("mock-worker".to_string());
    let step = state.handle_worker_socket(&mut connection, SocketInput::Message(hello), 3);
    assert!(matches!(step, SocketStep::Continue(None)));
    let opening = state
        .open_chat("client".to_string(), "j".to_string(), chat("mock-llm", &["hi"]), 5)
        .unwrap();
    assert_eq!(opening.dispatch.tx, 3);
}
