use epoll_router::json::Value;
use epoll_router::protocol::{
    CapabilityDelta, CapabilityDescriptor, CapabilityError, CapabilityFinish, CapabilityJob,
    ChatMessage, InferenceJob, JobDelta, JobError, JobFinish, ModelCapability, Sampling,
    WorkerPayload, WorkerRegister, WorkerTelemetry, PROTOCOL_VERSION,
};
use epoll_router::state::{Delivery, RouterState};
use epoll_router::stream::RouterEvent;

type State = RouterState<u32, u64>;

fn register(worker_id: &str, model: &str, aliases: &[&str], capabilities: &[&str], max: usize) -> WorkerRegister {
    WorkerRegister {
        worker_id: worker_id.to_string(),
        models: vec![ModelCapability {
            id: model.to_string(),
            aliases: aliases.iter().map(|alias| alias.to_string()).collect(),
            max_context_tokens: 8192,
            supports_streaming: true,
        }],
        capabilities: capabilities
            .iter()
            .map(|name| CapabilityDescriptor {
                name: name.to_string(),
                description: String::new(),
                input_schema: Value::Null,
                streams: true,
            })
            .collect(),
        max_inflight: max,
        engine: "test".to_string(),
    }
}

fn chat(job_id: &str, model: &str) -> InferenceJob {
    InferenceJob {
        job_id: job_id.to_string(),
        model: model.to_string(),
        messages: vec![ChatMessage { role: "user".to_string(), content: "hi".to_string() }],
        sampling: Sampling { temperature: None, top_p: None, max_tokens: None },
        stream: true,
    }
}

fn work(job_id: &str, capability: &str) -> CapabilityJob {
    CapabilityJob {
        job_id: job_id.to_string(),
        capability: capability.to_string(),
        input: Value::Null,
        stream: false,
    }
}

fn dispatch(state: &mut State, job_id: &str, model: &str) -> Result<u32, String> {
    state.dispatch_job(job_id, chat(job_id, model), 7).map(|dispatch| dispatch.tx)
}

fn finish(job_id: &str) -> JobFinish {
    JobFinish { job_id: job_id.to_string(), finish_reason: "stop".to_string() }
}

fn kinds(delivery: &Delivery<u64>) -> Vec<String> {
    delivery.events.iter().map(|event| format!("{event:?}")).collect()
}

const NO_MODEL: &str = "no healthy worker has capacity for requested model";
const NO_CAPABILITY: &str = "no healthy worker has capacity for requested capability";

#[test]
fn a_router_without_workers_turns_jobs_down() {
    let mut state = State::new();
    assert_eq!(dispatch(&mut state, "j", "m"), Err(NO_MODEL.to_string()));
    assert_eq!(state.dispatch_capability("j", work("j", "c"), 7).unwrap_err(), NO_CAPABILITY);
    assert!(state.forward_delta(JobDelta { job_id: "j".to_string(), content: String::new() }).is_none());
}

#[test]
fn a_job_becomes_a_message_for_the_worker() {
    let mut state = State::new();
    state.register_worker(register("w", "m", &["alias"], &["cap"], 4), 11);
    let sent = state.dispatch_job("job_1", chat("job_1", "alias"), 7).unwrap();
    assert_eq!(sent.tx, 11);
    assert_eq!(sent.envelope.v, PROTOCOL_VERSION);
    assert_eq!(sent.envelope.kind, "job.start");
    assert!(sent.envelope.id.starts_with("msg_"));
    assert_eq!(sent.envelope.id.len(), 40);
    assert!(matches!(sent.envelope.payload, WorkerPayload::JobStart(job) if job.model == "alias" && job.job_id == "job_1"));
    let sent = state.dispatch_capability("cap_1", work("cap_1", "cap"), 7).unwrap();
    assert_eq!(sent.envelope.kind, "capability.start");
    assert!(sent.envelope.id.starts_with("msg_"));
    assert!(matches!(sent.envelope.payload, WorkerPayload::CapabilityStart(job) if job.capability == "cap" && job.job_id == "cap_1"));
}

#[test]
fn the_first_match_takes_the_job() {
    let mut state = State::new();
    state.register_worker(register("other", "x", &[], &[], 4), 1);
    state.register_worker(register("a", "m", &["fast"], &[], 1), 2);
    state.register_worker(register("b", "n", &["m"], &[], 4), 3);
    assert_eq!(dispatch(&mut state, "j1", "m"), Ok(2));
    assert_eq!(dispatch(&mut state, "j2", "m"), Ok(3));
    assert_eq!(dispatch(&mut state, "j3", "fast"), Err(NO_MODEL.to_string()));
    assert_eq!(dispatch(&mut state, "j4", "x"), Ok(1));
    state.finish_job(finish("j1"));
    assert_eq!(dispatch(&mut state, "j5", "fast"), Ok(2));
}

#[test]
fn only_advertised_capabilities_are_asked_for() {
    let mut state = State::new();
    state.register_worker(register("a", "run_echo", &["run_echo"], &["read_service_logs"], 4), 1);
    assert_eq!(state.dispatch_capability("c", work("c", "run_echo"), 7).unwrap_err(), NO_CAPABILITY);
    assert_eq!(
        state.dispatch_capability("c", work("c", "dump_database"), 7).unwrap_err(),
        NO_CAPABILITY
    );
    assert_eq!(state.dispatch_capability("c", work("c", "read_service_logs"), 7).unwrap().tx, 1);
    assert_eq!(dispatch(&mut state, "j", "read_service_logs"), Err(NO_MODEL.to_string()));
}

#[test]
fn a_worker_has_room_for_one_job_at_least() {
    let mut state = State::new();
    state.register_worker(register("a", "m", &[], &[], 0), 1);
    assert_eq!(dispatch(&mut state, "j1", "m"), Ok(1));
    assert_eq!(dispatch(&mut state, "j2", "m"), Err(NO_MODEL.to_string()));
}

#[test]
fn telemetry_sets_jobs_and_health() {
    let mut state = State::new();
    state.register_worker(register("a", "m", &[], &[], 2), 1);
    let told = |active_jobs, healthy| WorkerTelemetry {
        active_jobs,
        queued_jobs: 9,
        tokens_per_second: None,
        healthy,
    };
    state.update_worker_telemetry("a", told(2, true));
    assert!(dispatch(&mut state, "j", "m").is_err());
    state.update_worker_telemetry("a", told(1, false));
    assert!(dispatch(&mut state, "j", "m").is_err());
    state.update_worker_telemetry("nobody", told(0, true));
    assert!(dispatch(&mut state, "j", "m").is_err());
    state.update_worker_telemetry("a", told(1, true));
    assert!(dispatch(&mut state, "j", "m").is_ok());
    assert!(dispatch(&mut state, "k", "m").is_err());
}

#[test]
fn the_number_of_jobs_does_not_fall_below_zero() {
    let mut state = State::new();
    state.register_worker(register("a", "m", &[], &[], 1), 1);
    state.decrement_worker_active("a");
    state.decrement_worker_active("nobody");
    assert!(dispatch(&mut state, "j", "m").is_ok());
    assert!(dispatch(&mut state, "k", "m").is_err());
    state.decrement_worker_active("a");
    assert!(dispatch(&mut state, "k", "m").is_ok());
}

#[test]
fn registering_again_takes_the_same_place() {
    let mut state = State::new();
    state.register_worker(register("a", "m", &[], &[], 1), 1);
    state.register_worker(register("b", "m", &[], &[], 1), 2);
    assert_eq!(dispatch(&mut state, "j1", "m"), Ok(1));
    state.register_worker(register("a", "m", &[], &[], 1), 3);
    assert_eq!(dispatch(&mut state, "j2", "m"), Ok(3));
    assert_eq!(dispatch(&mut state, "j3", "m"), Ok(2));
    assert!(dispatch(&mut state, "j4", "m").is_err());
}

#[test]
fn a_removed_worker_gets_no_jobs() {
    let mut state = State::new();
    state.register_worker(register("a", "m", &[], &[], 4), 1);
    state.register_worker(register("b", "m", &[], &[], 4), 2);
    assert_eq!(dispatch(&mut state, "j", "m"), Ok(1));
    state.workers.ids_are_distinct();
    assert!(state.remove_worker("a"));
    assert!(!state.remove_worker("nobody"));
    assert!(!state.remove_worker("a"));
    assert_eq!(dispatch(&mut state, "k", "m"), Ok(2));
    // The client of a job of the worker still waits for it.
    let delivery = state.finish_job(finish("j")).unwrap();
    assert_eq!(kinds(&delivery), vec!["Done"]);
}

#[test]
fn an_end_undoes_a_dispatch_and_a_second_end_does_nothing() {
    let mut state = State::new();
    state.register_worker(register("a", "m", &[], &[], 2), 1);
    dispatch(&mut state, "j1", "m").unwrap();
    dispatch(&mut state, "j2", "m").unwrap();
    assert!(state.finish_job(finish("j1")).is_some());
    assert!(state.finish_job(finish("j1")).is_none());
    assert!(state.fail_job(JobError { job_id: "j1".to_string(), message: "x".to_string() }).is_none());
    assert!(state.forward_delta(JobDelta { job_id: "j1".to_string(), content: "x".to_string() }).is_none());
    // One place is free, not more.
    assert!(dispatch(&mut state, "j3", "m").is_ok());
    assert!(dispatch(&mut state, "j4", "m").is_err());
}

#[test]
fn events_go_to_the_client_that_waits() {
    let mut state = State::new();
    state.register_worker(register("a", "m", &[], &["c"], 9), 1);
    state.dispatch_job("j", chat("j", "m"), 70).unwrap();
    state.dispatch_capability("k", work("k", "c"), 71).unwrap();
    state.dispatch_capability("l", work("l", "c"), 72).unwrap();
    state.dispatch_job("n", chat("n", "m"), 73).unwrap();
    let id = |text: &str| text.to_string();
    let delta = state.forward_delta(JobDelta { job_id: id("j"), content: id("x") }).unwrap();
    assert_eq!((delta.tx, kinds(&delta)), (70, vec![id("Delta(\"x\")")]));
    let data = state
        .forward_capability_delta(CapabilityDelta { job_id: id("k"), data: Value::Null })
        .unwrap();
    assert_eq!((data.tx, kinds(&data)), (71, vec![id("Data(Null)")]));
    let output = state
        .finish_capability(CapabilityFinish { job_id: id("k"), output: Value::Bool(true) })
        .unwrap();
    assert_eq!((output.tx, kinds(&output)), (71, vec![id("Output(Bool(true))"), id("Done")]));
    let failed = state
        .fail_capability(CapabilityError { job_id: id("l"), message: id("bad") })
        .unwrap();
    assert_eq!((failed.tx, kinds(&failed)), (72, vec![id("Error(\"bad\")")]));
    let failed = state.fail_job(JobError { job_id: id("n"), message: id("worse") }).unwrap();
    assert_eq!((failed.tx, kinds(&failed)), (73, vec![id("Error(\"worse\")")]));
    let done = state.finish_job(finish("j")).unwrap();
    assert_eq!((done.tx, kinds(&done)), (70, vec![id("Done")]));
    assert!(matches!(done.events[0], RouterEvent::Done));
}

#[test]
fn a_dispatch_that_fails_leaves_nobody_waiting() {
    let mut state = State::new();
    state.register_worker(register("a", "m", &[], &[], 1), 1);
    dispatch(&mut state, "j", "m").unwrap();
    assert_eq!(state.settle_dispatch("j", true), Ok(()));
    assert_eq!(
        state.settle_dispatch("j", false),
        Err("selected worker disconnected before dispatch".to_string())
    );
    assert!(state.finish_job(finish("j")).is_none());
    // The worker's number of jobs stays as it was.
    assert!(dispatch(&mut state, "k", "m").is_err());
}
