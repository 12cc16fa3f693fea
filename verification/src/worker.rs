//! A mock worker: what it advertises, and how it answers the jobs it is given.

use vstd::prelude::*;
use vstd::string::*;

use crate::json::keys_ascend;
use crate::json::member;
use crate::json::object_of;
use crate::json::well_formed;
use crate::json::JsonView;
use crate::json::Value;
use crate::protocol::is_message;
use crate::protocol::new_message;
use crate::protocol::CapabilityDelta;
use crate::protocol::CapabilityDescriptor;
use crate::protocol::CapabilityError;
use crate::protocol::CapabilityFinish;
use crate::protocol::CapabilityJob;
use crate::protocol::Envelope;
use crate::protocol::Float64;
use crate::protocol::InferenceJob;
use crate::protocol::JobDelta;
use crate::protocol::JobError;
use crate::protocol::JobFinish;
use crate::protocol::ModelCapability;
use crate::protocol::WorkerPayload;
use crate::protocol::WorkerRegister;
use crate::protocol::WorkerTelemetry;
use crate::text::concat;
use crate::text::split_behind;
use crate::text::split_inclusive;
use crate::text::texts;

verus! {

/// The milliseconds that the mock worker waits behind each piece of an answer.
pub const PIECE_PAUSE_MS: u64 = 120;

/// The seconds from one telemetry message of the mock worker to the next.
pub const TELEMETRY_PERIOD_SECS: u64 = 5;

/// The seconds that the mock worker waits before it connects again.
pub const RECONNECT_PAUSE_SECS: u64 = 2;

/// The bit pattern of 42, the tokens per second that the mock worker tells.
pub const MOCK_SPEED_BITS: u64 = 0x4045_0000_0000_0000;

/// The mock worker: its id, and how many jobs it is working on.
#[derive(Debug)]
pub struct MockWorker {
    pub worker_id: String,
    pub active_jobs: usize,
}

/// A message of the worker, and the milliseconds to wait when it is sent.
#[derive(Debug)]
pub struct Outgoing {
    pub envelope: Envelope<WorkerPayload>,
    pub pause_ms: u64,
}

/// What the worker's connection brings: the time to tell how it is doing, a failure,
/// a message that is no text, a text that is no message, or a message.
#[derive(Debug)]
pub enum WorkerInput {
    Tick,
    Failed,
    NotText,
    Invalid,
    Message(Envelope<WorkerPayload>),
}

/// What the worker does next: to send messages, in their order, or to give the
/// connection up.
#[derive(Debug)]
pub enum WorkerStep {
    Send(Vec<Outgoing>),
    Fail,
}

/// An answer of the worker to a job.
pub enum ReplyView {
    JobDelta { job_id: Seq<char>, content: Seq<char> },
    JobFinish { job_id: Seq<char>, finish_reason: Seq<char> },
    JobError { job_id: Seq<char>, message: Seq<char> },
    CapabilityDelta { job_id: Seq<char>, data: JsonView },
    CapabilityFinish { job_id: Seq<char>, output: JsonView },
    CapabilityError { job_id: Seq<char>, message: Seq<char> },
}

/// The type of the message that carries `reply`.
pub open spec fn reply_kind(reply: ReplyView) -> Seq<char> {
    match reply {
        ReplyView::JobDelta { .. } => "job.delta"@,
        ReplyView::JobFinish { .. } => "job.finish"@,
        ReplyView::JobError { .. } => "job.error"@,
        ReplyView::CapabilityDelta { .. } => "capability.delta"@,
        ReplyView::CapabilityFinish { .. } => "capability.finish"@,
        ReplyView::CapabilityError { .. } => "capability.error"@,
    }
}

/// `payload` carries `reply`.
pub open spec fn carries(payload: WorkerPayload, reply: ReplyView) -> bool {
    match reply {
        ReplyView::JobDelta { job_id, content } => {
            payload matches WorkerPayload::JobDelta(delta) && delta.job_id@ == job_id
                && delta.content@ == content
        },
        ReplyView::JobFinish { job_id, finish_reason } => {
            payload matches WorkerPayload::JobFinish(finish) && finish.job_id@ == job_id
                && finish.finish_reason@ == finish_reason
        },
        ReplyView::JobError { job_id, message } => {
            payload matches WorkerPayload::JobError(err) && err.job_id@ == job_id && err.message@
                == message
        },
        ReplyView::CapabilityDelta { job_id, data } => {
            payload matches WorkerPayload::CapabilityDelta(delta) && delta.job_id@ == job_id
                && delta.data@ == data
        },
        ReplyView::CapabilityFinish { job_id, output } => {
            payload matches WorkerPayload::CapabilityFinish(finish) && finish.job_id@ == job_id
                && finish.output@ == output
        },
        ReplyView::CapabilityError { job_id, message } => {
            payload matches WorkerPayload::CapabilityError(err) && err.job_id@ == job_id
                && err.message@ == message
        },
    }
}

/// How long the worker waits behind `reply`.
pub open spec fn pause_behind(reply: ReplyView) -> u64 {
    if reply is JobDelta || reply is CapabilityDelta {
        PIECE_PAUSE_MS
    } else {
        0
    }
}

/// `outgoing` sends `reply`.
pub open spec fn sends(outgoing: Outgoing, reply: ReplyView) -> bool {
    &&& is_message(outgoing.envelope, reply_kind(reply))
    &&& carries(outgoing.envelope.payload, reply)
    &&& outgoing.pause_ms == pause_behind(reply)
}

/// `outgoing` sends the replies, one by one.
pub open spec fn sends_all(outgoing: Seq<Outgoing>, replies: Seq<ReplyView>) -> bool {
    &&& outgoing.len() == replies.len()
    &&& forall|i: int| 0 <= i < replies.len() ==> sends(#[trigger] outgoing[i], replies[i])
}

/// The content of the last message of a chat; empty if there is none.
pub open spec fn prompt_of(job: InferenceJob) -> Seq<char> {
    if job.messages@.len() == 0 {
        seq![]
    } else {
        job.messages@.last().content@
    }
}

/// The mock worker's answer to a prompt.
pub open spec fn mock_response(prompt: Seq<char>) -> Seq<char> {
    "Mock response to: "@ + prompt
}

/// The text under `message` in the input of the echo; empty if there is none.
pub open spec fn echo_message(input: JsonView) -> Seq<char> {
    match member(input, "message"@) {
        Some(JsonView::Text(text)) => text,
        _ => seq![],
    }
}

/// The mock worker's echo of a message.
pub open spec fn echo_response(message: Seq<char>) -> Seq<char> {
    "private worker echo: "@ + message
}

/// The output of the echo.
pub open spec fn echo_output(response: Seq<char>, worker_id: Seq<char>) -> JsonView {
    JsonView::Object(
        seq![
            ("message"@, JsonView::Text(response)),
            ("worker"@, JsonView::Text(worker_id)),
        ],
    )
}

/// The pieces of a chat completion.
pub open spec fn job_deltas(job_id: Seq<char>, pieces: Seq<Seq<char>>) -> Seq<ReplyView> {
    Seq::new(pieces.len(), |i: int| ReplyView::JobDelta { job_id, content: pieces[i] })
}

/// The pieces of an echo.
pub open spec fn capability_deltas(job_id: Seq<char>, pieces: Seq<Seq<char>>) -> Seq<ReplyView> {
    Seq::new(
        pieces.len(),
        |i: int|
            ReplyView::CapabilityDelta {
                job_id,
                data: object_of("chunk"@, JsonView::Text(pieces[i])),
            },
    )
}

/// The answers to a chat completion: the response word by word, then the end.
pub open spec fn job_replies(job: InferenceJob) -> Seq<ReplyView> {
    job_deltas(job.job_id@, split_behind(mock_response(prompt_of(job)), ' ')).push(
        ReplyView::JobFinish { job_id: job.job_id@, finish_reason: "stop"@ },
    )
}

/// The answers to a request for a capability: the echo word by word, then its
/// output; an error for any other capability.
pub open spec fn capability_replies(worker_id: Seq<char>, job: CapabilityJob) -> Seq<ReplyView> {
    if job.capability@ == "run_echo"@ {
        let response = echo_response(echo_message(job.input@));
        capability_deltas(job.job_id@, split_behind(response, ' ')).push(
            ReplyView::CapabilityFinish {
                job_id: job.job_id@,
                output: echo_output(response, worker_id),
            },
        )
    } else {
        seq![
            ReplyView::CapabilityError { job_id: job.job_id@, message: "unsupported capability"@ },
        ]
    }
}

/// The answers of the worker `worker_id` to a message of the router.
pub open spec fn replies_to(
    worker_id: Seq<char>,
    kind: Seq<char>,
    payload: WorkerPayload,
) -> Seq<ReplyView> {
    match payload {
        WorkerPayload::JobStart(job) => if kind == "job.start"@ {
            job_replies(job)
        } else {
            seq![
                ReplyView::JobError { job_id: job.job_id@, message: "unexpected job envelope"@ },
            ]
        },
        WorkerPayload::CapabilityStart(job) => if kind == "capability.start"@ {
            capability_replies(worker_id, job)
        } else {
            seq![]
        },
        _ => seq![],
    }
}

/// A message of the router with this type and payload starts a job.
pub open spec fn starts_job(kind: Seq<char>, payload: WorkerPayload) -> bool {
    match payload {
        WorkerPayload::JobStart(_) => kind == "job.start"@,
        WorkerPayload::CapabilityStart(_) => kind == "capability.start"@,
        _ => false,
    }
}

/// The schema of the echo's input: an object with the text `message`.
pub open spec fn echo_schema() -> JsonView {
    JsonView::Object(
        seq![
            (
                "properties"@,
                object_of("message"@, object_of("type"@, JsonView::Text("string"@))),
            ),
            ("required"@, JsonView::Array(seq![JsonView::Text("message"@)])),
            ("type"@, JsonView::Text("object"@)),
        ],
    )
}

/// What the mock worker advertises: one model with two aliases, and the echo.
pub open spec fn mock_registration(register: WorkerRegister, worker_id: Seq<char>) -> bool {
    &&& register.worker_id@ == worker_id
    &&& register.engine@ == "mock"@
    &&& register.max_inflight == 4
    &&& register.models@.len() == 1
    &&& register.models@[0].id@ == "mock-llm"@
    &&& texts(register.models@[0].aliases@) == seq!["local-default"@, "fast"@]
    &&& register.models@[0].max_context_tokens == 8192
    &&& register.models@[0].supports_streaming
    &&& register.capabilities@.len() == 1
    &&& register.capabilities@[0].name@ == "run_echo"@
    &&& register.capabilities@[0].description@
        == "Echoes the provided input from inside the private worker."@
    &&& register.capabilities@[0].input_schema@ == echo_schema()
    &&& register.capabilities@[0].streams
}

/// The schema of the echo's input is well formed.
proof fn lemma_echo_schema_well_formed()
    ensures
        well_formed(echo_schema()),
{
    reveal_strlit("properties");
    reveal_strlit("required");
    reveal_strlit("type");
    let members = echo_schema()->Object_0;
    let text_type = object_of("type"@, JsonView::Text("string"@));
    assert(well_formed(JsonView::Text("string"@)) && well_formed(JsonView::Text("message"@)));
    assert(well_formed(text_type));
    assert(well_formed(members[0].1));
    assert(well_formed(members[1].1));
    assert(well_formed(members[2].1));
    assert(keys_ascend(members));
}

/// The output of the echo is well formed.
pub proof fn lemma_echo_output_well_formed(response: Seq<char>, worker_id: Seq<char>)
    ensures
        well_formed(echo_output(response, worker_id)),
{
    reveal_strlit("message");
    reveal_strlit("worker");
    let members = echo_output(response, worker_id)->Object_0;
    assert(well_formed(members[0].1));
    assert(well_formed(members[1].1));
    assert(keys_ascend(members));
}

/// The schema of the echo's input.
fn make_echo_schema() -> (schema: Value)
    ensures
        schema@ == echo_schema(),
        well_formed(schema@),
{
    let mut members: Vec<(String, Value)> = Vec::new();
    let text_type = Value::object("type", Value::Text("string".to_owned()));
    let required = Value::array_of_one(Value::Text("message".to_owned()));
    let kind = Value::Text("object".to_owned());
    assert(kind@ == JsonView::Text("object"@));
    members.push(("properties".to_owned(), Value::object("message", text_type)));
    members.push(("required".to_owned(), required));
    members.push(("type".to_owned(), kind));
    let schema = Value::Object(members);
    assert(schema@->Object_0 == echo_schema()->Object_0);
    proof {
        lemma_echo_schema_well_formed();
    }
    schema
}

/// The output of the echo.
fn make_echo_output(response: String, worker_id: String) -> (output: Value)
    ensures
        output@ == echo_output(response@, worker_id@),
        well_formed(output@),
{
    let mut members: Vec<(String, Value)> = Vec::new();
    let message = Value::Text(response);
    let worker = Value::Text(worker_id);
    assert(message@ == JsonView::Text(response@) && worker@ == JsonView::Text(worker_id@));
    members.push(("message".to_owned(), message));
    members.push(("worker".to_owned(), worker));
    let output = Value::Object(members);
    assert(output@->Object_0 == echo_output(response@, worker_id@)->Object_0);
    proof {
        lemma_echo_output_well_formed(response@, worker_id@);
    }
    output
}

/// `envelope` registers the worker `worker_id`.
pub open spec fn is_registration(
    envelope: Envelope<WorkerPayload>,
    worker_id: Seq<char>,
) -> bool {
    &&& is_message(envelope, "worker.register"@)
    &&& envelope.payload matches WorkerPayload::Register(register) && mock_registration(
        register,
        worker_id,
    )
}

/// `envelope` tells that the worker is healthy and has this many jobs.
pub open spec fn is_telemetry(envelope: Envelope<WorkerPayload>, active_jobs: usize) -> bool {
    &&& is_message(envelope, "worker.telemetry"@)
    &&& envelope.payload == WorkerPayload::Telemetry(
        WorkerTelemetry {
            active_jobs,
            queued_jobs: 0,
            tokens_per_second: Some(Float64 { bits: MOCK_SPEED_BITS }),
            healthy: true,
        },
    )
}

/// What the worker does about `input`: it tells how it is doing when it is time to,
/// answers a message, passes over what is no text, and gives the connection up when
/// it fails or brings a text that is no message.
pub open spec fn worker_step(worker: MockWorker, input: WorkerInput, step: WorkerStep) -> bool {
    match input {
        WorkerInput::Tick => {
            step matches WorkerStep::Send(outgoing) && outgoing@.len() == 1 && is_telemetry(
                outgoing@[0].envelope,
                worker.active_jobs,
            ) && outgoing@[0].pause_ms == 0
        },
        WorkerInput::Failed => step is Fail,
        WorkerInput::NotText => step matches WorkerStep::Send(outgoing) && outgoing@.len() == 0,
        WorkerInput::Invalid => step is Fail,
        WorkerInput::Message(envelope) => {
            step matches WorkerStep::Send(outgoing) && sends_all(
                outgoing@,
                replies_to(worker.worker_id@, envelope.kind@, envelope.payload),
            )
        },
    }
}

/// What the worker `worker_id` advertises.
pub fn mock_register(worker_id: &str) -> (register: WorkerRegister)
    ensures
        mock_registration(register, worker_id@),
        well_formed(register.capabilities@[0].input_schema@),
{
    let mut aliases: Vec<String> = Vec::new();
    aliases.push("local-default".to_owned());
    aliases.push("fast".to_owned());
    assert(texts(aliases@) == seq!["local-default"@, "fast"@]);
    let mut models: Vec<ModelCapability> = Vec::new();
    models.push(
        ModelCapability {
            id: "mock-llm".to_owned(),
            aliases,
            max_context_tokens: 8192,
            supports_streaming: true,
        },
    );
    let mut capabilities: Vec<CapabilityDescriptor> = Vec::new();
    capabilities.push(
        CapabilityDescriptor {
            name: "run_echo".to_owned(),
            description: "Echoes the provided input from inside the private worker.".to_owned(),
            input_schema: make_echo_schema(),
            streams: true,
        },
    );
    WorkerRegister {
        worker_id: worker_id.to_owned(),
        models,
        capabilities,
        max_inflight: 4,
        engine: "mock".to_owned(),
    }
}

/// The answers to a chat completion.
fn answer_job(job: InferenceJob) -> (outgoing: Vec<Outgoing>)
    ensures
        sends_all(outgoing@, job_replies(job)),
{
    let prompt: &str = if job.messages.len() == 0 {
        ""
    } else {
        job.messages[job.messages.len() - 1].content.as_str()
    };
    proof {
        reveal_strlit("");
        assert(prompt@ == prompt_of(job));
    }
    let response = concat("Mock response to: ", prompt);
    let pieces = split_inclusive(response.as_str(), ' ');
    let ghost views = split_behind(mock_response(prompt_of(job)), ' ');
    let mut outgoing: Vec<Outgoing> = Vec::new();
    let mut i: usize = 0;
    while i < pieces.len()
        invariant
            i <= pieces@.len(),
            views == texts(pieces@),
            outgoing@.len() == i,
            forall|j: int|
                0 <= j < i ==> sends(
                    #[trigger] outgoing@[j],
                    ReplyView::JobDelta { job_id: job.job_id@, content: views[j] },
                ),
        decreases pieces@.len() - i,
    {
        let delta = JobDelta { job_id: job.job_id.clone(), content: pieces[i].clone() };
        outgoing.push(
            Outgoing {
                envelope: new_message("job.delta", WorkerPayload::JobDelta(delta)),
                pause_ms: PIECE_PAUSE_MS,
            },
        );
        i += 1;
    }
    let finish = JobFinish { job_id: job.job_id, finish_reason: "stop".to_owned() };
    outgoing.push(
        Outgoing {
            envelope: new_message("job.finish", WorkerPayload::JobFinish(finish)),
            pause_ms: 0,
        },
    );
    outgoing
}

/// The answers of the worker `worker_id` to a request for a capability.
fn answer_capability(worker_id: &str, job: CapabilityJob) -> (outgoing: Vec<Outgoing>)
    ensures
        sends_all(outgoing@, capability_replies(worker_id@, job)),
{
    let mut outgoing: Vec<Outgoing> = Vec::new();
    if *job.capability.as_str() != *"run_echo" {
        let err = CapabilityError {
            job_id: job.job_id,
            message: "unsupported capability".to_owned(),
        };
        outgoing.push(
            Outgoing {
                envelope: new_message(
                    "capability.error",
                    WorkerPayload::CapabilityError(err),
                ),
                pause_ms: 0,
            },
        );
        return outgoing;
    }
    proof {
        reveal_strlit("");
    }
    let message: &str = match job.input.get("message") {
        Some(value) => match value.as_str() {
            Some(text) => text,
            None => "",
        },
        None => "",
    };
    assert(message@ == echo_message(job.input@));
    let response = concat("private worker echo: ", message);
    let pieces = split_inclusive(response.as_str(), ' ');
    let ghost views = split_behind(echo_response(echo_message(job.input@)), ' ');
    let mut i: usize = 0;
    while i < pieces.len()
        invariant
            i <= pieces@.len(),
            views == texts(pieces@),
            outgoing@.len() == i,
            forall|j: int|
                0 <= j < i ==> sends(
                    #[trigger] outgoing@[j],
                    ReplyView::CapabilityDelta {
                        job_id: job.job_id@,
                        data: object_of("chunk"@, JsonView::Text(views[j])),
                    },
                ),
        decreases pieces@.len() - i,
    {
        let delta = CapabilityDelta {
            job_id: job.job_id.clone(),
            data: Value::object("chunk", Value::Text(pieces[i].clone())),
        };
        outgoing.push(
            Outgoing {
                envelope: new_message("capability.delta", WorkerPayload::CapabilityDelta(delta)),
                pause_ms: PIECE_PAUSE_MS,
            },
        );
        i += 1;
    }
    let finish = CapabilityFinish {
        job_id: job.job_id,
        output: make_echo_output(response, worker_id.to_owned()),
    };
    outgoing.push(
        Outgoing {
            envelope: new_message(
                "capability.finish",
                WorkerPayload::CapabilityFinish(finish),
            ),
            pause_ms: 0,
        },
    );
    outgoing
}

impl MockWorker {
    /// Opens a session of the worker `worker_id`: the worker, idle, and the message
    /// with which it registers before it sends any other.
    pub fn connect(worker_id: String) -> (opened: (MockWorker, Envelope<WorkerPayload>))
        ensures
            opened.0 == (MockWorker { worker_id, active_jobs: 0 }),
            is_registration(opened.1, worker_id@),
    {
        let register = mock_register(worker_id.as_str());
        let registration = new_message("worker.register", WorkerPayload::Register(register));
        (MockWorker { worker_id, active_jobs: 0 }, registration)
    }

    /// The message with which the worker tells how it is doing.
    pub fn telemetry(&self) -> (envelope: Envelope<WorkerPayload>)
        ensures
            is_telemetry(envelope, self.active_jobs),
    {
        new_message(
            "worker.telemetry",
            WorkerPayload::Telemetry(
                WorkerTelemetry {
                    active_jobs: self.active_jobs,
                    queued_jobs: 0,
                    tokens_per_second: Some(Float64 { bits: MOCK_SPEED_BITS }),
                    healthy: true,
                },
            ),
        )
    }

    /// Handles what the worker's connection brought. The worker is as busy afterwards
    /// as before.
    pub fn step(&mut self, input: WorkerInput) -> (step: WorkerStep)
        requires
            input matches WorkerInput::Message(envelope) ==> (starts_job(
                envelope.kind@,
                envelope.payload,
            ) ==> old(self).active_jobs < usize::MAX),
        ensures
            worker_step(*old(self), input, step),
            *final(self) == *old(self),
    {
        match input {
            WorkerInput::Tick => {
                let mut outgoing: Vec<Outgoing> = Vec::new();
                outgoing.push(Outgoing { envelope: self.telemetry(), pause_ms: 0 });
                WorkerStep::Send(outgoing)
            },
            WorkerInput::Failed => WorkerStep::Fail,
            WorkerInput::NotText => WorkerStep::Send(Vec::new()),
            WorkerInput::Invalid => WorkerStep::Fail,
            WorkerInput::Message(envelope) => WorkerStep::Send(self.handle(envelope)),
        }
    }

    /// Works off a message of the router: the messages to send, in their order. When
    /// they are sent, the worker is as busy as before.
    pub fn handle(&mut self, envelope: Envelope<WorkerPayload>) -> (outgoing: Vec<Outgoing>)
        requires
            starts_job(envelope.kind@, envelope.payload) ==> old(self).active_jobs < usize::MAX,
        ensures
            sends_all(
                outgoing@,
                replies_to(old(self).worker_id@, envelope.kind@, envelope.payload),
            ),
            *final(self) == *old(self),
    {
        let kind: &str = envelope.kind.as_str();
        match envelope.payload {
            WorkerPayload::JobStart(job) => {
                if *kind == *"job.start" {
                    self.active_jobs = self.active_jobs + 1;
                    let outgoing = answer_job(job);
                    self.active_jobs = self.active_jobs.saturating_sub(1);
                    return outgoing;
                }
                let err = JobError {
                    job_id: job.job_id,
                    message: "unexpected job envelope".to_owned(),
                };
                let mut outgoing: Vec<Outgoing> = Vec::new();
                outgoing.push(
                    Outgoing {
                        envelope: new_message("job.error", WorkerPayload::JobError(err)),
                        pause_ms: 0,
                    },
                );
                outgoing
            },
            WorkerPayload::CapabilityStart(job) => {
                if *kind == *"capability.start" {
                    self.active_jobs = self.active_jobs + 1;
                    let outgoing = answer_capability(self.worker_id.as_str(), job);
                    self.active_jobs = self.active_jobs.saturating_sub(1);
                    return outgoing;
                }
                Vec::new()
            },
            _ => Vec::new(),
        }
    }
}

} // verus!
