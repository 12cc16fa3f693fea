//! The HTTP requests: who may make them, which job each becomes, and the replies.

use axum::http::HeaderMap;
use vstd::prelude::*;
use vstd::string::*;

use crate::auth::authenticate;
use crate::auth::authenticated;
use crate::auth::header_contents;
use crate::auth::identifies;
use crate::auth::presented_token;
use crate::auth::KeyTable;
use crate::ids::id_under;
use crate::ids::new_id;
use crate::json::Value;
use crate::protocol::is_message;
use crate::protocol::CapabilityJob;
use crate::protocol::ChatMessage;
use crate::protocol::Float32;
use crate::protocol::InferenceJob;
use crate::protocol::Sampling;
use crate::protocol::WorkerPayload;
use crate::socket::WorkerConnection;
use crate::state::Dispatch;
use crate::state::PendingJob;
use crate::state::RouterState;
use crate::stream::capability_output;
use crate::stream::chat_content;
use crate::stream::collect_capability_output;
use crate::stream::collect_non_streaming;
use crate::stream::event_views;
use crate::stream::form_for;
use crate::stream::reply_form;
use crate::stream::ReplyForm;
use crate::stream::RouterEvent;
use crate::stream::SseFormat;
use crate::workers::pick_for_capability;
use crate::workers::pick_for_model;
use crate::workers::with_job_at;
use crate::workers::ConnectedWorker;

verus! {

/// A request for a chat completion.
#[derive(Debug)]
pub struct ChatCompletionRequest {
    pub model: String,
    pub messages: Vec<ChatMessage>,
    pub temperature: Option<Float32>,
    pub top_p: Option<Float32>,
    pub max_tokens: Option<u32>,
    pub stream: bool,
}

/// A chat completion that is not streamed.
#[derive(Debug)]
pub struct ChatCompletionResponse {
    pub id: String,
    pub object: String,
    pub model: String,
    pub choices: Vec<ChatChoice>,
}

#[derive(Debug)]
pub struct ChatChoice {
    pub index: usize,
    pub message: ChatMessage,
    pub finish_reason: String,
}

/// A request for the work of a capability.
#[derive(Debug)]
pub struct CapabilityRequest {
    pub input: Value,
    pub stream: bool,
}

/// The output of a capability that is not streamed.
#[derive(Debug)]
pub struct CapabilityResponse {
    pub id: String,
    pub capability: String,
    pub output: Value,
}

/// A request that is turned down: the HTTP status and the text of the reply.
#[derive(Debug)]
pub struct Refusal {
    pub status: u16,
    pub body: String,
}

/// The HTTP status of a request without a valid token.
pub const UNAUTHORIZED: u16 = 401;

/// The HTTP status of a request that asks for nothing.
pub const BAD_REQUEST: u16 = 400;

/// The HTTP status of a request that no worker can take.
pub const SERVICE_UNAVAILABLE: u16 = 503;

/// A chat completion that was given to a worker.
#[derive(Debug)]
pub struct ChatOpening<W> {
    pub client_id: String,
    pub job_id: String,
    pub model: String,
    pub reply: ReplyForm,
    pub dispatch: Dispatch<W>,
}

/// A request for a capability that was given to a worker.
#[derive(Debug)]
pub struct CapabilityOpening<W> {
    pub client_id: String,
    pub job_id: String,
    pub capability: String,
    pub reply: ReplyForm,
    pub dispatch: Dispatch<W>,
}

/// `reply` turns a request down with this status and this text.
pub open spec fn refused<T>(reply: Result<T, Refusal>, status: u16, body: Seq<char>) -> bool {
    reply matches Err(refusal) && refusal.status == status && refusal.body@ == body
}

/// `job` asks a worker for what `request` asks, under the id `job_id`.
pub open spec fn is_chat_job(
    job: InferenceJob,
    job_id: Seq<char>,
    request: ChatCompletionRequest,
) -> bool {
    &&& job.job_id@ == job_id
    &&& job.model == request.model
    &&& job.messages == request.messages
    &&& job.sampling == Sampling {
        temperature: request.temperature,
        top_p: request.top_p,
        max_tokens: request.max_tokens,
    }
    &&& job.stream == request.stream
}

/// `job` asks a worker for what `request` asks of `capability`, under the id `job_id`.
pub open spec fn is_capability_job(
    job: CapabilityJob,
    job_id: Seq<char>,
    capability: String,
    request: CapabilityRequest,
) -> bool {
    &&& job.job_id@ == job_id
    &&& job.capability == capability
    &&& job.input == request.input
    &&& job.stream == request.stream
}

/// A reply with this status and text.
fn refusal(status: u16, body: &str) -> (made: Refusal)
    ensures
        made.status == status,
        made.body@ == body@,
{
    Refusal { status, body: body.to_owned() }
}

/// The reply where no worker can take a request.
pub fn unavailable(message: String) -> (made: Refusal)
    ensures
        made == (Refusal { status: SERVICE_UNAVAILABLE, body: message }),
{
    Refusal { status: SERVICE_UNAVAILABLE, body: message }
}

/// The job for a chat completion.
pub fn chat_job(job_id: &str, request: ChatCompletionRequest) -> (job: InferenceJob)
    ensures
        is_chat_job(job, job_id@, request),
{
    InferenceJob {
        job_id: job_id.to_owned(),
        model: request.model,
        messages: request.messages,
        sampling: Sampling {
            temperature: request.temperature,
            top_p: request.top_p,
            max_tokens: request.max_tokens,
        },
        stream: request.stream,
    }
}

/// The job for the work of a capability.
pub fn capability_job(job_id: &str, capability: String, request: CapabilityRequest) -> (job:
    CapabilityJob)
    ensures
        is_capability_job(job, job_id@, capability, request),
{
    CapabilityJob {
        job_id: job_id.to_owned(),
        capability,
        input: request.input,
        stream: request.stream,
    }
}

/// The reply to a chat completion that is not streamed.
pub fn chat_response(job_id: String, model: String, content: String) -> (response:
    ChatCompletionResponse)
    ensures
        response.id == job_id,
        response.object@ == "chat.completion"@,
        response.model == model,
        response.choices@.len() == 1,
        response.choices@[0].index == 0,
        response.choices@[0].message.role@ == "assistant"@,
        response.choices@[0].message.content == content,
        response.choices@[0].finish_reason@ == "stop"@,
{
    let message = ChatMessage { role: "assistant".to_owned(), content };
    let mut choices: Vec<ChatChoice> = Vec::new();
    choices.push(ChatChoice { index: 0, message, finish_reason: "stop".to_owned() });
    ChatCompletionResponse { id: job_id, object: "chat.completion".to_owned(), model, choices }
}

/// The reply to a request for a capability that is not streamed.
pub fn capability_response(job_id: String, capability: String, output: Value) -> (response:
    CapabilityResponse)
    ensures
        response == (CapabilityResponse { id: job_id, capability, output }),
{
    CapabilityResponse { id: job_id, capability, output }
}

/// The reply to a chat completion that is not streamed, from the events of its job.
pub fn collected_chat(job_id: String, model: String, events: Vec<RouterEvent>) -> (response:
    ChatCompletionResponse)
    ensures
        response.id == job_id,
        response.object@ == "chat.completion"@,
        response.model == model,
        response.choices@.len() == 1,
        response.choices@[0].index == 0,
        response.choices@[0].message.role@ == "assistant"@,
        response.choices@[0].message.content@ == chat_content(event_views(events@)),
        response.choices@[0].finish_reason@ == "stop"@,
{
    chat_response(job_id, model, collect_non_streaming(events))
}

/// The reply to a request for a capability that is not streamed, from the events of
/// its job.
pub fn collected_capability(
    job_id: String,
    capability: String,
    events: Vec<RouterEvent>,
) -> (response: CapabilityResponse)
    ensures
        response.id == job_id,
        response.capability == capability,
        response.output@ == capability_output(event_views(events@), seq![]),
{
    capability_response(job_id, capability, collect_capability_output(events))
}

/// Lets a worker connect whose token is known.
pub fn worker_socket(headers: &HeaderMap, worker_keys: &KeyTable) -> (admitted: Result<
    WorkerConnection,
    Refusal,
>)
    ensures
        ({
            let token = presented_token(header_contents(*headers));
            match admitted {
                Ok(connection) => !connection.is_registered() && identifies(
                    worker_keys@,
                    token,
                    Some(connection.authorized()),
                ),
                Err(_) => !authenticated(worker_keys@, token) && refused(
                    admitted,
                    UNAUTHORIZED,
                    "missing or invalid worker bearer token"@,
                ),
            }
        }),
{
    match authenticate(headers, worker_keys) {
        Some(worker_id) => Ok(WorkerConnection::new(worker_id)),
        None => Err(refusal(UNAUTHORIZED, "missing or invalid worker bearer token")),
    }
}

/// What comes of a request for a chat completion from a client that is known: it is
/// turned down and nothing changes, or it is a job of the first worker that can
/// take it.
pub open spec fn chat_opened<W: Clone, C>(
    workers: Seq<ConnectedWorker<W>>,
    pending: Map<Seq<char>, PendingJob<C>>,
    request: ChatCompletionRequest,
    stream_tx: C,
    next_workers: Seq<ConnectedWorker<W>>,
    next_pending: Map<Seq<char>, PendingJob<C>>,
    opened: Result<ChatOpening<W>, Refusal>,
) -> bool {
    if request.messages@.len() == 0 {
        &&& refused(opened, BAD_REQUEST, "messages must not be empty"@)
        &&& next_workers == workers
        &&& next_pending == pending
    } else {
        match pick_for_model(workers, request.model@) {
            None => {
                &&& refused(
                    opened,
                    SERVICE_UNAVAILABLE,
                    "no healthy worker has capacity for requested model"@,
                )
                &&& next_workers == workers
                &&& next_pending == pending
            },
            Some(i) => {
                &&& opened is Ok
                &&& opened->Ok_0.model == request.model
                &&& opened->Ok_0.reply == form_for(request.stream, SseFormat::Chat)
                &&& cloned(workers[i].tx, opened->Ok_0.dispatch.tx)
                &&& is_message(opened->Ok_0.dispatch.envelope, "job.start"@)
                &&& opened->Ok_0.dispatch.envelope.payload matches WorkerPayload::JobStart(job)
                    && is_chat_job(job, opened->Ok_0.job_id@, request)
                &&& next_workers == with_job_at(workers, i)
                &&& next_pending == pending.insert(
                    opened->Ok_0.job_id@,
                    PendingJob { worker_id: workers[i].worker_id, tx: stream_tx },
                )
            },
        }
    }
}

/// What comes of a request for a capability from a client that is known: it is
/// turned down and nothing changes, or it is a job of the first worker that can
/// take it.
pub open spec fn capability_opened<W: Clone, C>(
    workers: Seq<ConnectedWorker<W>>,
    pending: Map<Seq<char>, PendingJob<C>>,
    capability: String,
    request: CapabilityRequest,
    stream_tx: C,
    next_workers: Seq<ConnectedWorker<W>>,
    next_pending: Map<Seq<char>, PendingJob<C>>,
    opened: Result<CapabilityOpening<W>, Refusal>,
) -> bool {
    match pick_for_capability(workers, capability@) {
        None => {
            &&& refused(
                opened,
                SERVICE_UNAVAILABLE,
                "no healthy worker has capacity for requested capability"@,
            )
            &&& next_workers == workers
            &&& next_pending == pending
        },
        Some(i) => {
            &&& opened is Ok
            &&& opened->Ok_0.capability == capability
            &&& opened->Ok_0.reply == form_for(request.stream, SseFormat::Capability)
            &&& cloned(workers[i].tx, opened->Ok_0.dispatch.tx)
            &&& is_message(opened->Ok_0.dispatch.envelope, "capability.start"@)
            &&& opened->Ok_0.dispatch.envelope.payload matches WorkerPayload::CapabilityStart(job)
                && is_capability_job(job, opened->Ok_0.job_id@, capability, request)
            &&& next_workers == with_job_at(workers, i)
            &&& next_pending == pending.insert(
                opened->Ok_0.job_id@,
                PendingJob { worker_id: workers[i].worker_id, tx: stream_tx },
            )
        },
    }
}

impl<W: Clone, C: Clone> RouterState<W, C> {
    /// Takes a request for a chat completion from the client `client_id`, under the
    /// id `job_id`.
    pub fn open_chat(
        &mut self,
        client_id: String,
        job_id: String,
        request: ChatCompletionRequest,
        stream_tx: C,
    ) -> (opened: Result<ChatOpening<W>, Refusal>)
        ensures
            chat_opened(
                old(self).workers@,
                old(self).pending_jobs@,
                request,
                stream_tx,
                final(self).workers@,
                final(self).pending_jobs@,
                opened,
            ),
            opened matches Ok(opening) ==> opening.client_id == client_id && opening.job_id
                == job_id,
    {
        if request.messages.len() == 0 {
            return Err(refusal(BAD_REQUEST, "messages must not be empty"));
        }
        let model = request.model.clone();
        let reply = reply_form(request.stream, SseFormat::Chat);
        let job = chat_job(job_id.as_str(), request);
        match self.dispatch_job(job_id.as_str(), job, stream_tx) {
            Ok(dispatch) => Ok(ChatOpening { client_id, job_id, model, reply, dispatch }),
            Err(message) => Err(unavailable(message)),
        }
    }

    /// Takes a request for a chat completion: it is turned down, or it becomes a job
    /// of the first worker that can take it. `stream_tx` is the way to the client.
    pub fn chat_completions(
        &mut self,
        headers: &HeaderMap,
        client_keys: &KeyTable,
        request: ChatCompletionRequest,
        stream_tx: C,
    ) -> (opened: Result<ChatOpening<W>, Refusal>)
        ensures
            ({
                let token = presented_token(header_contents(*headers));
                if authenticated(client_keys@, token) {
                    &&& chat_opened(
                        old(self).workers@,
                        old(self).pending_jobs@,
                        request,
                        stream_tx,
                        final(self).workers@,
                        final(self).pending_jobs@,
                        opened,
                    )
                    &&& opened matches Ok(opening) ==> identifies(
                        client_keys@,
                        token,
                        Some(opening.client_id@),
                    ) && id_under("job_"@, opening.job_id@)
                } else {
                    &&& refused(opened, UNAUTHORIZED, "missing or invalid client bearer token"@)
                    &&& final(self).workers@ == old(self).workers@
                    &&& final(self).pending_jobs@ == old(self).pending_jobs@
                }
            }),
    {
        match authenticate(headers, client_keys) {
            Some(client_id) => self.open_chat(client_id, new_id("job_"), request, stream_tx),
            None => Err(refusal(UNAUTHORIZED, "missing or invalid client bearer token")),
        }
    }

    /// Takes a request for the work of a capability from the client `client_id`,
    /// under the id `job_id`.
    pub fn open_capability(
        &mut self,
        client_id: String,
        job_id: String,
        capability: String,
        request: CapabilityRequest,
        stream_tx: C,
    ) -> (opened: Result<CapabilityOpening<W>, Refusal>)
        ensures
            capability_opened(
                old(self).workers@,
                old(self).pending_jobs@,
                capability,
                request,
                stream_tx,
                final(self).workers@,
                final(self).pending_jobs@,
                opened,
            ),
            opened matches Ok(opening) ==> opening.client_id == client_id && opening.job_id
                == job_id,
    {
        let reply = reply_form(request.stream, SseFormat::Capability);
        let job = capability_job(job_id.as_str(), capability.clone(), request);
        match self.dispatch_capability(job_id.as_str(), job, stream_tx) {
            Ok(dispatch) => Ok(CapabilityOpening { client_id, job_id, capability, reply, dispatch }),
            Err(message) => Err(unavailable(message)),
        }
    }

    /// Takes a request for the work of a capability: it is turned down, or it becomes
    /// a job of the first worker that can take it. `stream_tx` is the way to the
    /// client.
    pub fn capability_request(
        &mut self,
        headers: &HeaderMap,
        client_keys: &KeyTable,
        capability: String,
        request: CapabilityRequest,
        stream_tx: C,
    ) -> (opened: Result<CapabilityOpening<W>, Refusal>)
        ensures
            ({
                let token = presented_token(header_contents(*headers));
                if authenticated(client_keys@, token) {
                    &&& capability_opened(
                        old(self).workers@,
                        old(self).pending_jobs@,
                        capability,
                        request,
                        stream_tx,
                        final(self).workers@,
                        final(self).pending_jobs@,
                        opened,
                    )
                    &&& opened matches Ok(opening) ==> identifies(
                        client_keys@,
                        token,
                        Some(opening.client_id@),
                    ) && id_under("cap_"@, opening.job_id@)
                } else {
                    &&& refused(opened, UNAUTHORIZED, "missing or invalid client bearer token"@)
                    &&& final(self).workers@ == old(self).workers@
                    &&& final(self).pending_jobs@ == old(self).pending_jobs@
                }
            }),
    {
        match authenticate(headers, client_keys) {
            Some(client_id) => self.open_capability(
                client_id,
                new_id("cap_"),
                capability,
                request,
                stream_tx,
            ),
            None => Err(refusal(UNAUTHORIZED, "missing or invalid client bearer token")),
        }
    }
}

} // verus!
