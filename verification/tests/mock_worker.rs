use epoll_router::json::Value;
use epoll_router::protocol::{
    message_text, payload_of_kind, CapabilityError, CapabilityJob, ChatMessage, Envelope, InferenceJob, JobError,
    Sampling, WorkerPayload,
};
use epoll_router::socket::{SocketInput, SocketStep, WorkerConnection};
use epoll_router::state::RouterState;
use epoll_router::stream::{collect_capability_output, collect_non_streaming, RouterEvent};
use epoll_router::worker::{
    mock_register, MockWorker, Outgoing, WorkerInput, WorkerStep, PIECE_PAUSE_MS,
    RECONNECT_PAUSE_SECS, TELEMETRY_PERIOD_SECS,
};

fn worker() -> MockWorker {
    MockWorker::connect("mock-worker".to_string()).0
}

fn chat(messages: &[&str]) -> WorkerPayload {
    WorkerPayload::JobStart(InferenceJob {
        job_id: "job_1".to_string(),
        model: "fast".to_string(),
        messages: messages
            .iter()
            .map(|content| ChatMessage { role: "user".to_string(), content: content.to_string() })
            .collect(),
        sampling: Sampling { temperature: None, top_p: None, max_tokens: None },
        stream: true,
    })
}

fn echo(capability: &str, input: Value) -> WorkerPayload {
    WorkerPayload::CapabilityStart(CapabilityJob {
        job_id: "cap_1".to_string(),
        capability: capability.to_string(),
        input,
        stream: false,
    })
}

fn answer(kind: &str, payload: WorkerPayload) -> Vec<Outgoing> {
    worker().handle(Envelope::new(kind, "id", payload))
}

fn told(outgoing: &Outgoing) -> (String, String, u64) {
    let envelope = &outgoing.envelope;
    assert_eq!(envelope.v, 1);
    assert!(envelope.id.starts_with("msg_"));
    let said = match &envelope.payload {
        WorkerPayload::JobDelta(delta) => format!("{}:{}", delta.job_id, delta.content),
        WorkerPayload::JobFinish(finish) => format!("{}:{}", finish.job_id, finish.finish_reason),
        WorkerPayload::JobError(err) => format!("{}:{}", err.job_id, err.message),
        WorkerPayload::CapabilityDelta(delta) => {
            format!("{}:{}", delta.job_id, delta.data.to_text())
        }
        WorkerPayload::CapabilityFinish(finish) => {
            format!("{}:{}", finish.job_id, finish.output.to_text())
        }
        WorkerPayload::CapabilityError(err) => format!("{}:{}", err.job_id, err.message),
        other => panic!("unexpected payload {other:?}"),
    };
    (envelope.kind.clone(), said, outgoing.pause_ms)
}

fn line(kind: &str, said: &str, pause_ms: u64) -> (String, String, u64) {
    (kind.to_string(), said.to_string(), pause_ms)
}

#[test]
fn the_mock_worker_advertises_its_model_and_the_echo() {
    let register = mock_register("mock-worker");
    assert_eq!(register.worker_id, "mock-worker");
    assert_eq!(register.engine, "mock");
    assert_eq!(register.max_inflight, 4);
    assert_eq!(register.models.len(), 1);
    assert_eq!(register.models[0].id, "mock-llm");
    assert_eq!(register.models[0].aliases, vec!["local-default", "fast"]);
    assert_eq!(register.models[0].max_context_tokens, 8192);
    assert!(register.models[0].supports_streaming);
    assert_eq!(register.capabilities.len(), 1);
    let capability = &register.capabilities[0];
    assert_eq!(capability.name, "run_echo");
    assert_eq!(
        capability.description,
        "Echoes the provided input from inside the private worker."
    );
    assert!(capability.streams);
    assert_eq!(
        capability.input_schema.to_text(),
        "{\"properties\":{\"message\":{\"type\":\"string\"}},\"required\":[\"message\"],\"type\":\"object\"}"
    );
    let (idle, message) = MockWorker::connect("mock-worker".to_string());
    assert_eq!((idle.worker_id.as_str(), idle.active_jobs), ("mock-worker", 0));
    assert!(message.id.starts_with("msg_"));
    assert_eq!(message.kind, "worker.register");
    assert!(matches!(message.payload, WorkerPayload::Register(held) if held.worker_id == "mock-worker"));
}

#[test]
fn the_mock_worker_tells_how_it_is_doing() {
    let message = worker().telemetry();
    assert_eq!((message.v, message.kind.as_str()), (1, "worker.telemetry"));
    let WorkerPayload::Telemetry(telemetry) = message.payload else { panic!("no telemetry") };
    assert_eq!((telemetry.active_jobs, telemetry.queued_jobs, telemetry.healthy), (0, 0, true));
    assert_eq!(f64::from_bits(telemetry.tokens_per_second.unwrap().bits), 42.0);
}

#[test]
fn a_chat_is_answered_word_by_word() {
    let outgoing = answer("job.start", chat(&["first", "hello router"]));
    let said: Vec<(String, String, u64)> = outgoing.iter().map(told).collect();
    assert_eq!(PIECE_PAUSE_MS, 120);
    assert_eq!(
        said,
        vec![
            line("job.delta", "job_1:Mock ", 120),
            line("job.delta", "job_1:response ", 120),
            line("job.delta", "job_1:to: ", 120),
            line("job.delta", "job_1:hello ", 120),
            line("job.delta", "job_1:router", 120),
            line("job.finish", "job_1:stop", 0),
        ]
    );
}

#[test]
fn a_chat_without_messages_has_an_empty_prompt() {
    let said: Vec<(String, String, u64)> = answer("job.start", chat(&[])).iter().map(told).collect();
    assert_eq!(
        said,
        vec![
            line("job.delta", "job_1:Mock ", 120),
            line("job.delta", "job_1:response ", 120),
            line("job.delta", "job_1:to: ", 120),
            line("job.finish", "job_1:stop", 0),
        ]
    );
}

#[test]
fn the_echo_is_answered_word_by_word() {
    let input = Value::object("message", Value::Text("a \"b\"".to_string()));
    let said: Vec<(String, String, u64)> =
        answer("capability.start", echo("run_echo", input)).iter().map(told).collect();
    assert_eq!(
        said,
        vec![
            line("capability.delta", "cap_1:{\"chunk\":\"private \"}", 120),
            line("capability.delta", "cap_1:{\"chunk\":\"worker \"}", 120),
            line("capability.delta", "cap_1:{\"chunk\":\"echo: \"}", 120),
            line("capability.delta", "cap_1:{\"chunk\":\"a \"}", 120),
            line("capability.delta", "cap_1:{\"chunk\":\"\\\"b\\\"\"}", 120),
            line(
                "capability.finish",
                "cap_1:{\"message\":\"private worker echo: a \\\"b\\\"\",\"worker\":\"mock-worker\"}",
                0
            ),
        ]
    );
}

#[test]
fn an_echo_without_a_text_is_empty() {
    for input in [
        Value::Null,
        Value::object("message", Value::Bool(true)),
        Value::object("text", Value::Text("x".to_string())),
    ] {
        let outgoing = answer("capability.start", echo("run_echo", input));
        assert_eq!(outgoing.len(), 4);
        assert_eq!(
            told(&outgoing[3]).1,
            "cap_1:{\"message\":\"private worker echo: \",\"worker\":\"mock-worker\"}"
        );
    }
}

#[test]
fn other_messages_are_turned_down_or_passed_over() {
    let said: Vec<(String, String, u64)> =
        answer("capability.start", echo("dump_database", Value::Null)).iter().map(told).collect();
    assert_eq!(said, vec![line("capability.error", "cap_1:unsupported capability", 0)]);
    let said: Vec<(String, String, u64)> = answer("job.begin", chat(&["x"])).iter().map(told).collect();
    assert_eq!(said, vec![line("job.error", "job_1:unexpected job envelope", 0)]);
    assert!(answer("job.start", echo("run_echo", Value::Null)).is_empty());
    assert!(answer("job.start", WorkerPayload::Empty {}).is_empty());
}

#[test]
fn the_worker_is_as_busy_after_a_job_as_before() {
    let mut busy = worker();
    busy.active_jobs = 3;
    busy.handle(Envelope::new("job.start", "id", chat(&["x"])));
    busy.handle(Envelope::new("capability.start", "id", echo("run_echo", Value::Null)));
    busy.handle(Envelope::new("capability.start", "id", echo("other", Value::Null)));
    assert_eq!(busy.active_jobs, 3);
    busy.active_jobs = usize::MAX;
    assert_eq!(busy.handle(Envelope::new("other", "id", chat(&["x"]))).len(), 1);
}

#[test]
fn the_worker_does_what_its_connection_asks() {
    let mut worker = worker();
    assert!(matches!(worker.step(WorkerInput::Failed), WorkerStep::Fail));
    assert!(matches!(worker.step(WorkerInput::Invalid), WorkerStep::Fail));
    assert!(matches!(worker.step(WorkerInput::NotText), WorkerStep::Send(sent) if sent.is_empty()));
    let WorkerStep::Send(sent) = worker.step(WorkerInput::Tick) else { panic!("no telemetry") };
    assert_eq!(sent.len(), 1);
    assert_eq!((sent[0].envelope.kind.as_str(), sent[0].pause_ms), ("worker.telemetry", 0));
    let start = Envelope::new("job.start", "id", chat(&["x"]));
    let WorkerStep::Send(sent) = worker.step(WorkerInput::Message(start)) else { panic!("no answer") };
    assert_eq!(sent.len(), 5);
    assert_eq!(told(&sent[4]), line("job.finish", "job_1:stop", 0));
    assert_eq!((worker.worker_id.as_str(), worker.active_jobs), ("mock-worker", 0));
}

#[test]
fn the_registration_comes_first_and_once() {
    let (mut worker, registration) = MockWorker::connect("mock-worker".to_string());
    let mut kinds = vec![registration.kind];
    for input in [
        WorkerInput::Tick,
        WorkerInput::Message(Envelope::new("capability.start", "id", echo("other", Value::Null))),
        WorkerInput::NotText,
        WorkerInput::Message(Envelope::new("worker.register", "id", chat(&["x"]))),
        WorkerInput::Tick,
        WorkerInput::Failed,
    ] {
        if let WorkerStep::Send(sent) = worker.step(input) {
            kinds.extend(sent.into_iter().map(|outgoing| outgoing.envelope.kind));
        }
    }
    assert_eq!(
        kinds,
        vec![
            "worker.register",
            "worker.telemetry",
            "capability.error",
            "job.error",
            "worker.telemetry",
        ]
    );
}

#[test]
fn the_type_tells_errors_apart() {
    let job = || {
        WorkerPayload::JobError(JobError { job_id: "j".to_string(), message: "m".to_string() })
    };
    let capability = || {
        WorkerPayload::CapabilityError(CapabilityError {
            job_id: "j".to_string(),
            message: "m".to_string(),
        })
    };
    assert!(matches!(payload_of_kind("capability.error", job()), WorkerPayload::CapabilityError(err) if err.job_id == "j" && err.message == "m"));
    assert!(matches!(payload_of_kind("job.error", job()), WorkerPayload::JobError(_)));
    assert!(matches!(payload_of_kind("job.error", capability()), WorkerPayload::JobError(err) if err.job_id == "j" && err.message == "m"));
    assert!(matches!(payload_of_kind("other", capability()), WorkerPayload::CapabilityError(_)));
    assert!(matches!(payload_of_kind("job.error", WorkerPayload::Empty {}), WorkerPayload::Empty {}));
}

#[test]
fn a_message_is_written_as_one_object() {
    let message = Envelope::new("job.start", "msg_1", ());
    assert_eq!(
        message_text(&message, "{}"),
        "{\"v\":1,\"type\":\"job.start\",\"id\":\"msg_1\",\"payload\":{}}"
    );
    for v in [0u16, 9, 10, 100, 4096, 65535] {
        let message = Envelope { v, kind: "a \"b\"\n".to_string(), id: "\\".to_string(), payload: () };
        let text = message_text(&message, "[1,null]");
        let held: serde_json::Value = serde_json::from_str(&text).unwrap();
        assert_eq!(held["v"], v);
        assert_eq!(held["type"], "a \"b\"\n");
        assert_eq!(held["id"], "\\");
        assert_eq!(held["payload"].to_string(), "[1,null]");
    }
}

#[test]
fn the_worker_keeps_its_times() {
    assert_eq!((PIECE_PAUSE_MS, TELEMETRY_PERIOD_SECS, RECONNECT_PAUSE_SECS), (120, 5, 2));
}

#[test]
fn messages_take_texts_of_both_kinds() {
    let message = Envelope::new("kind", "id".to_string(), 7);
    assert_eq!((message.v, message.kind.as_str(), message.id.as_str(), message.payload), (1, "kind", "id", 7));
}

/// What the client gets of the mock worker's answer to a message.
fn relayed(state: &mut RouterState<u32, u32>, message: Envelope<WorkerPayload>) -> Vec<RouterEvent> {
    let mut connection = WorkerConnection::new("mock-worker".to_string());
    let mut events = Vec::new();
    for outgoing in worker().handle(message) {
        let step = state.handle_worker_socket(&mut connection, SocketInput::Message(outgoing.envelope), 0);
        let SocketStep::Continue(Some(delivery)) = step else { panic!("nothing delivered") };
        assert_eq!(delivery.tx, 9);
        events.extend(delivery.events);
    }
    events
}

#[test]
fn jobs_go_from_end_to_end() {
    let mut state: RouterState<u32, u32> = RouterState::new();
    state.register_worker(mock_register("mock-worker"), 1);
    let WorkerPayload::JobStart(job) = chat(&["hello router"]) else { panic!("no chat") };
    let dispatch = state.dispatch_job("job_1", job, 9).unwrap();
    let events = relayed(&mut state, dispatch.envelope);
    assert_eq!(collect_non_streaming(events), "Mock response to: hello router");

    let input = Value::object("message", Value::Text("hi".to_string()));
    let WorkerPayload::CapabilityStart(job) = echo("run_echo", input) else { panic!("no echo") };
    let dispatch = state.dispatch_capability("cap_1", job, 9).unwrap();
    let events = relayed(&mut state, dispatch.envelope);
    assert_eq!(
        collect_capability_output(events).to_text(),
        "{\"message\":\"private worker echo: hi\",\"worker\":\"mock-worker\"}"
    );
}
