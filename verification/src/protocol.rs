//! The messages that the router and its workers exchange.

use vstd::prelude::*;
use vstd::string::*;

use crate::ids::id_under;
use crate::ids::new_id;
use crate::json::quote;
use crate::json::quoted;
use crate::json::Value;
use crate::text::decimal;
use crate::text::decimal_text;

verus! {

/// The version that every message carries.
pub const PROTOCOL_VERSION: u16 = 1;

/// `String::from` on a `&str` (`std`): the same characters in a string of its own.
pub assume_specification<'a>[ <String as From<&'a str>>::from ](text: &str) -> (owned: String)
    ensures
        owned@ == text@,
;

/// `From::from` from a type to itself (`std`): the value unchanged.
pub assume_specification<Owned>[ <Owned as From<Owned>>::from ](value: Owned) -> (same: Owned)
    ensures
        same == value,
;

/// A message: its protocol version, its type, its id and what it carries.
#[derive(Debug, Clone)]
pub struct Envelope<T> {
    pub v: u16,
    pub kind: String,
    pub id: String,
    pub payload: T,
}

impl<T> Envelope<T> {
    /// A message of the current protocol version.
    pub fn new<K: Into<String>, I: Into<String>>(kind: K, id: I, payload: T) -> (envelope: Self)
        ensures
            envelope.v == PROTOCOL_VERSION,
            call_ensures(K::into, (kind,), envelope.kind),
            call_ensures(I::into, (id,), envelope.id),
            envelope.payload == payload,
    {
        Envelope { v: PROTOCOL_VERSION, kind: kind.into(), id: id.into(), payload }
    }
}

/// A single-precision number, by its IEEE 754 bit pattern; it is carried, never read.
#[derive(Debug, Clone, Copy)]
pub struct Float32 {
    pub bits: u32,
}

/// A double-precision number, by its IEEE 754 bit pattern; it is carried, never read.
#[derive(Debug, Clone, Copy)]
pub struct Float64 {
    pub bits: u64,
}

/// What a message carries.
#[derive(Debug, Clone)]
pub enum WorkerPayload {
    Register(WorkerRegister),
    Telemetry(WorkerTelemetry),
    JobStart(InferenceJob),
    JobDelta(JobDelta),
    JobFinish(JobFinish),
    JobError(JobError),
    CapabilityStart(CapabilityJob),
    CapabilityDelta(CapabilityDelta),
    CapabilityFinish(CapabilityFinish),
    CapabilityError(CapabilityError),
    Empty {  },
}

/// What a worker advertises when it connects.
#[derive(Debug, Clone)]
pub struct WorkerRegister {
    pub worker_id: String,
    pub models: Vec<ModelCapability>,
    pub capabilities: Vec<CapabilityDescriptor>,
    pub max_inflight: usize,
    pub engine: String,
}

/// A model that a worker serves, under its id and its aliases.
#[derive(Debug, Clone)]
pub struct ModelCapability {
    pub id: String,
    pub aliases: Vec<String>,
    pub max_context_tokens: usize,
    pub supports_streaming: bool,
}

/// A named kind of work that a worker is allowed to perform.
#[derive(Debug, Clone)]
pub struct CapabilityDescriptor {
    pub name: String,
    pub description: String,
    pub input_schema: Value,
    pub streams: bool,
}

/// How a worker is doing.
#[derive(Debug, Clone)]
pub struct WorkerTelemetry {
    pub active_jobs: usize,
    pub queued_jobs: usize,
    pub tokens_per_second: Option<Float64>,
    pub healthy: bool,
}

/// A chat completion that a worker is to perform.
#[derive(Debug, Clone)]
pub struct InferenceJob {
    pub job_id: String,
    pub model: String,
    pub messages: Vec<ChatMessage>,
    pub sampling: Sampling,
    pub stream: bool,
}

#[derive(Debug, Clone)]
pub struct ChatMessage {
    pub role: String,
    pub content: String,
}

#[derive(Debug, Clone)]
pub struct Sampling {
    pub temperature: Option<Float32>,
    pub top_p: Option<Float32>,
    pub max_tokens: Option<u32>,
}

/// A piece of a chat completion.
#[derive(Debug, Clone)]
pub struct JobDelta {
    pub job_id: String,
    pub content: String,
}

#[derive(Debug, Clone)]
pub struct JobFinish {
    pub job_id: String,
    pub finish_reason: String,
}

#[derive(Debug, Clone)]
pub struct JobError {
    pub job_id: String,
    pub message: String,
}

/// A request for a capability that a worker is to perform.
#[derive(Debug, Clone)]
pub struct CapabilityJob {
    pub job_id: String,
    pub capability: String,
    pub input: Value,
    pub stream: bool,
}

/// A piece of a capability's output.
#[derive(Debug, Clone)]
pub struct CapabilityDelta {
    pub job_id: String,
    pub data: Value,
}

#[derive(Debug, Clone)]
pub struct CapabilityFinish {
    pub job_id: String,
    pub output: Value,
}

#[derive(Debug, Clone)]
pub struct CapabilityError {
    pub job_id: String,
    pub message: String,
}

/// `envelope` is a message of this type: of the current version, under a message id
/// of its own.
pub open spec fn is_message(envelope: Envelope<WorkerPayload>, kind: Seq<char>) -> bool {
    &&& envelope.v == PROTOCOL_VERSION
    &&& envelope.kind@ == kind
    &&& id_under("msg_"@, envelope.id@)
}

/// A message of this type, under a new message id.
pub fn new_message(kind: &str, payload: WorkerPayload) -> (envelope: Envelope<WorkerPayload>)
    ensures
        is_message(envelope, kind@),
        envelope.payload == payload,
{
    Envelope::new(kind, new_id("msg_"), payload)
}

/// The JSON text of a message: its version, its type, its id and its payload, of
/// which `payload` is the JSON text.
pub open spec fn message_json(
    v: u16,
    kind: Seq<char>,
    id: Seq<char>,
    payload: Seq<char>,
) -> Seq<char> {
    "{\"v\":"@ + decimal(v as nat) + ",\"type\":"@ + quoted(kind) + ",\"id\":"@ + quoted(id)
        + ",\"payload\":"@ + payload + "}"@
}

/// The JSON text of a message, of whose payload `payload` is the JSON text.
pub fn message_text<T>(envelope: &Envelope<T>, payload: &str) -> (text: String)
    ensures
        text@ == message_json(envelope.v, envelope.kind@, envelope.id@, payload@),
{
    let mut text = "{\"v\":".to_owned();
    text.append(decimal_text(envelope.v).as_str());
    text.append(",\"type\":");
    text.append(quote(envelope.kind.as_str()).as_str());
    text.append(",\"id\":");
    text.append(quote(envelope.id.as_str()).as_str());
    text.append(",\"payload\":");
    text.append(payload);
    text.append("}");
    text
}

/// A payload as the type of its message tells it: the errors of a job and of a
/// capability hold the same fields, and only the type tells them apart.
pub fn payload_of_kind(kind: &str, payload: WorkerPayload) -> (told: WorkerPayload)
    ensures
        told == (match payload {
            WorkerPayload::JobError(err) if kind@ == "capability.error"@ => {
                WorkerPayload::CapabilityError(
                    CapabilityError { job_id: err.job_id, message: err.message },
                )
            },
            WorkerPayload::CapabilityError(err) if kind@ == "job.error"@ => {
                WorkerPayload::JobError(JobError { job_id: err.job_id, message: err.message })
            },
            other => other,
        }),
{
    match payload {
        WorkerPayload::JobError(err) => if *kind == *"capability.error" {
            WorkerPayload::CapabilityError(
                CapabilityError { job_id: err.job_id, message: err.message },
            )
        } else {
            WorkerPayload::JobError(err)
        },
        WorkerPayload::CapabilityError(err) => if *kind == *"job.error" {
            WorkerPayload::JobError(JobError { job_id: err.job_id, message: err.message })
        } else {
            WorkerPayload::CapabilityError(err)
        },
        other => other,
    }
}

} // verus!
