use epoll_router::json::Value;
use epoll_router::protocol::{
    CapabilityDelta, CapabilityError, CapabilityFinish, Envelope, InferenceJob, JobDelta, JobError,
    JobFinish, Sampling, WorkerPayload, WorkerTelemetry,
};
use epoll_router::socket::{classify, SocketInput, SocketStep, WorkerConnection, WorkerMessage};
use epoll_router::state::RouterState;
use epoll_router::worker::mock_register;

type State = RouterState<u32, u64>;

fn connection() -> WorkerConnection {
    WorkerConnection::new("a".to_string())
}

fn message(kind: &str, payload: WorkerPayload) -> SocketInput {
    SocketInput::Message(Envelope::new(kind, "id", payload))
}

fn register(worker_id: &str) -> SocketInput {
    message("worker.register", WorkerPayload::Register(mock_register(worker_id)))
}

fn telemetry(active_jobs: usize, healthy: bool) -> SocketInput {
    message(
        "worker.telemetry",
        WorkerPayload::Telemetry(WorkerTelemetry {
            active_jobs,
            queued_jobs: 0,
            tokens_per_second: None,
            healthy,
        }),
    )
}

fn dispatch(state: &mut State, job_id: &str) -> Option<u32> {
    let job = InferenceJob {
        job_id: job_id.to_string(),
        model: "mock-llm".to_string(),
        messages: vec![],
        sampling: Sampling { temperature: None, top_p: None, max_tokens: None },
        stream: false,
    };
    state.dispatch_job(job_id, job, 5).ok().map(|dispatch| dispatch.tx)
}

fn quiet(step: SocketStep<u64>) -> bool {
    matches!(step, SocketStep::Continue(None))
}

fn closed(step: SocketStep<u64>) -> bool {
    matches!(step, SocketStep::Close)
}

#[test]
fn a_worker_registers_as_itself() {
    let mut state = State::new();
    let mut a = connection();
    assert!(quiet(state.handle_worker_socket(&mut a, register("a"), 1)));
    assert_eq!(dispatch(&mut state, "j"), Some(1));
    assert_eq!(state.end_worker_socket(a).as_deref(), Some("a"));
    assert_eq!(dispatch(&mut state, "k"), None);
}

#[test]
fn a_worker_cannot_register_as_another() {
    let mut state = State::new();
    state.register_worker(mock_register("b"), 2);
    let mut a = connection();
    assert!(closed(state.handle_worker_socket(&mut a, register("b"), 1)));
    assert_eq!(dispatch(&mut state, "j"), Some(2));
    assert_eq!(state.end_worker_socket(a), None);
    assert_eq!(dispatch(&mut state, "k"), Some(2));
}

#[test]
fn a_connection_that_did_not_register_changes_no_worker() {
    let mut state = State::new();
    state.register_worker(mock_register("a"), 2);
    let mut a = connection();
    assert!(quiet(state.handle_worker_socket(&mut a, telemetry(4, false), 1)));
    assert_eq!(dispatch(&mut state, "j"), Some(2));
    assert_eq!(state.end_worker_socket(a), None);
    assert_eq!(dispatch(&mut state, "k"), Some(2));
}

#[test]
fn telemetry_of_a_registered_worker_counts() {
    let mut state = State::new();
    let mut a = connection();
    state.handle_worker_socket(&mut a, register("a"), 1);
    assert!(quiet(state.handle_worker_socket(&mut a, telemetry(3, true), 1)));
    assert_eq!(dispatch(&mut state, "j"), Some(1));
    assert_eq!(dispatch(&mut state, "k"), None);
    state.handle_worker_socket(&mut a, telemetry(0, false), 1);
    assert_eq!(dispatch(&mut state, "l"), None);
}

#[test]
fn a_worker_that_is_gone_already_is_not_told_again() {
    let mut state = State::new();
    let mut first = connection();
    let mut second = connection();
    state.handle_worker_socket(&mut first, register("a"), 1);
    state.handle_worker_socket(&mut second, register("a"), 2);
    assert_eq!(state.end_worker_socket(first).as_deref(), Some("a"));
    assert_eq!(state.end_worker_socket(second), None);
}

#[test]
fn a_failure_closes_and_noise_does_nothing() {
    let mut state = State::new();
    let mut a = connection();
    assert!(closed(state.handle_worker_socket(&mut a, SocketInput::Failed, 1)));
    assert!(quiet(state.handle_worker_socket(&mut a, SocketInput::NotText, 1)));
    assert!(quiet(state.handle_worker_socket(&mut a, SocketInput::Invalid, 1)));
    assert!(quiet(state.handle_worker_socket(&mut a, message("x", WorkerPayload::Empty {}), 1)));
    let misnamed = message("job.finish", WorkerPayload::Register(mock_register("a")));
    assert!(quiet(state.handle_worker_socket(&mut a, misnamed, 1)));
    assert_eq!(dispatch(&mut state, "j"), None);
}

#[test]
fn messages_about_jobs_reach_their_clients() {
    let id = |text: &str| text.to_string();
    let cases: Vec<(SocketInput, Vec<&str>)> = vec![
        (
            message("job.delta", WorkerPayload::JobDelta(JobDelta { job_id: id("j"), content: id("c") })),
            vec!["Delta(\"c\")"],
        ),
        (
            message("capability.delta", WorkerPayload::CapabilityDelta(CapabilityDelta { job_id: id("j"), data: Value::Null })),
            vec!["Data(Null)"],
        ),
        (
            message("job.finish", WorkerPayload::JobFinish(JobFinish { job_id: id("j"), finish_reason: id("stop") })),
            vec!["Done"],
        ),
        (
            message("job.error", WorkerPayload::JobError(JobError { job_id: id("j"), message: id("m") })),
            vec!["Error(\"m\")"],
        ),
        (
            message("capability.finish", WorkerPayload::CapabilityFinish(CapabilityFinish { job_id: id("j"), output: Value::Bool(true) })),
            vec!["Output(Bool(true))", "Done"],
        ),
        (
            message("capability.error", WorkerPayload::CapabilityError(CapabilityError { job_id: id("j"), message: id("m") })),
            vec!["Error(\"m\")"],
        ),
    ];
    for (input, expected) in cases {
        let mut state = State::new();
        let mut a = connection();
        state.handle_worker_socket(&mut a, register("a"), 1);
        dispatch(&mut state, "j").unwrap();
        let SocketStep::Continue(Some(delivery)) = state.handle_worker_socket(&mut a, input, 1) else {
            panic!("nothing delivered for {expected:?}")
        };
        assert_eq!(delivery.tx, 5);
        let events: Vec<String> = delivery.events.iter().map(|event| format!("{event:?}")).collect();
        assert_eq!(events, expected);
    }
}

#[test]
fn a_message_is_what_its_type_and_payload_say() {
    let finish = |kind: &str| {
        classify(Envelope::new(
            kind,
            "id",
            WorkerPayload::JobFinish(JobFinish {
                job_id: "j".to_string(),
                finish_reason: "stop".to_string(),
            }),
        ))
    };
    assert!(matches!(finish("job.finish"), WorkerMessage::JobFinish(held) if held.job_id == "j"));
    assert!(matches!(finish("capability.finish"), WorkerMessage::Unexpected));
    assert!(matches!(finish(""), WorkerMessage::Unexpected));
    let started = WorkerPayload::CapabilityStart(epoll_router::protocol::CapabilityJob {
        job_id: "j".to_string(),
        capability: "c".to_string(),
        input: Value::Null,
        stream: false,
    });
    assert!(matches!(
        classify(Envelope::new("capability.start", "id", started)),
        WorkerMessage::Unexpected
    ));
}
