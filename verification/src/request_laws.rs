//! What comes of each request, field by field.

use vstd::prelude::*;

use crate::api::capability_opened;
use crate::api::chat_opened;
use crate::api::is_capability_job;
use crate::api::is_chat_job;
use crate::api::refused;
use crate::api::CapabilityOpening;
use crate::api::CapabilityRequest;
use crate::api::ChatCompletionRequest;
use crate::api::ChatOpening;
use crate::api::Refusal;
use crate::api::BAD_REQUEST;
use crate::api::SERVICE_UNAVAILABLE;
use crate::api::UNAUTHORIZED;
use crate::json::member;
use crate::json::under_key;
use crate::json::JsonView;
use crate::protocol::is_message;
use crate::protocol::CapabilityJob;
use crate::protocol::Envelope;
use crate::protocol::InferenceJob;
use crate::protocol::WorkerPayload;
use crate::reply_laws::law_mock_capability_end_to_end;
use crate::reply_laws::law_mock_chat_end_to_end;
use crate::reply_laws::relayed_all;
use crate::search::lemma_first_where;
use crate::search::lemma_first_where_at;
use crate::state::PendingJob;
use crate::stream::capability_output;
use crate::stream::chat_content;
use crate::stream::form_for;
use crate::stream::ReplyForm;
use crate::stream::SseFormat;
use crate::text_laws::law_form_of_an_id;
use crate::worker::replies_to;
use crate::workers::pick_for_capability;
use crate::workers::pick_for_model;
use crate::workers::takes_capability;
use crate::workers::takes_model;
use crate::workers::ConnectedWorker;

verus! {

/// The job for a chat completion asks for what the request asks: each of its fields
/// is the field of the request.
pub proof fn law_chat_job_asks_what_the_request_asks(
    job: InferenceJob,
    job_id: Seq<char>,
    request: ChatCompletionRequest,
)
    requires
        is_chat_job(job, job_id, request),
    ensures
        job.job_id@ == job_id,
        job.model@ == request.model@,
        job.messages@ == request.messages@,
        job.sampling.temperature == request.temperature,
        job.sampling.top_p == request.top_p,
        job.sampling.max_tokens == request.max_tokens,
        job.stream == request.stream,
{
}

/// The job for a capability asks for what the request asks: each of its fields is
/// the field of the request, and its input is the input of the request, whatever
/// JSON value that is.
pub proof fn law_capability_job_asks_what_the_request_asks(
    job: CapabilityJob,
    job_id: Seq<char>,
    capability: String,
    request: CapabilityRequest,
)
    requires
        is_capability_job(job, job_id, capability, request),
    ensures
        job.job_id@ == job_id,
        job.capability@ == capability@,
        job.input == request.input,
        job.input@ == request.input@,
        job.stream == request.stream,
{
}

/// A request that is turned down gets an error with the given status and text.
pub proof fn law_refusal<T>(reply: Result<T, Refusal>, status: u16, body: Seq<char>)
    ensures
        refused(reply, status, body) <==> reply is Err && reply->Err_0.status == status
            && reply->Err_0.body@ == body,
        UNAUTHORIZED == 401,
        BAD_REQUEST == 400,
        SERVICE_UNAVAILABLE == 503,
{
}

/// A message carries the version of the protocol, its type, and an id of its own
/// under `msg_`.
pub proof fn law_form_of_a_message(envelope: Envelope<WorkerPayload>, kind: Seq<char>)
    requires
        is_message(envelope, kind),
    ensures
        envelope.v == 1,
        envelope.kind@ == kind,
        envelope.id@.len() == 40,
        envelope.id@.take(4) == "msg_"@,
{
    reveal_strlit("msg_");
    law_form_of_an_id("msg_"@, envelope.id@);
}

/// A request is answered event by event, in the form of its kind, if it asks for a
/// stream, and with one collected reply if it does not.
pub proof fn law_flag_decides_the_form(stream: bool, format: SseFormat)
    ensures
        form_for(stream, format) is Streamed <==> stream,
        form_for(stream, format) is Collected <==> !stream,
        stream ==> form_for(stream, format)->Streamed_0 == format,
{
}

/// A chat completion that a worker can take is that worker's job: the worker is sent
/// the request, field by field, under the job's id; it has one job more; the client
/// waits for the job; and nothing else changes.
pub proof fn law_chat_request_becomes_a_job<W: Clone, C>(
    workers: Seq<ConnectedWorker<W>>,
    pending: Map<Seq<char>, PendingJob<C>>,
    request: ChatCompletionRequest,
    stream_tx: C,
    next_workers: Seq<ConnectedWorker<W>>,
    next_pending: Map<Seq<char>, PendingJob<C>>,
    opened: Result<ChatOpening<W>, Refusal>,
    i: int,
)
    requires
        chat_opened(
            workers,
            pending,
            request,
            stream_tx,
            next_workers,
            next_pending,
            opened,
        ),
        request.messages@.len() > 0,
        pick_for_model(workers, request.model@) == Some(i),
    ensures
        opened is Ok,
        opened->Ok_0.model@ == request.model@,
        request.stream ==> opened->Ok_0.reply == ReplyForm::Streamed(SseFormat::Chat),
        !request.stream ==> opened->Ok_0.reply == ReplyForm::Collected,
        cloned(workers[i].tx, opened->Ok_0.dispatch.tx),
        opened->Ok_0.dispatch.envelope.v == 1,
        opened->Ok_0.dispatch.envelope.kind@ == "job.start"@,
        opened->Ok_0.dispatch.envelope.id@.len() == 40,
        opened->Ok_0.dispatch.envelope.id@.take(4) == "msg_"@,
        opened->Ok_0.dispatch.envelope.payload is JobStart,
        ({
            let job = opened->Ok_0.dispatch.envelope.payload->JobStart_0;
            &&& job.job_id@ == opened->Ok_0.job_id@
            &&& job.model@ == request.model@
            &&& job.messages@ == request.messages@
            &&& job.sampling.temperature == request.temperature
            &&& job.sampling.top_p == request.top_p
            &&& job.sampling.max_tokens == request.max_tokens
            &&& job.stream == request.stream
        }),
        next_workers.len() == workers.len(),
        next_workers[i].active_jobs == workers[i].active_jobs + 1,
        next_workers[i].worker_id == workers[i].worker_id,
        next_workers[i].models == workers[i].models,
        next_workers[i].capabilities == workers[i].capabilities,
        next_workers[i].max_inflight == workers[i].max_inflight,
        next_workers[i].healthy == workers[i].healthy,
        next_workers[i].tx == workers[i].tx,
        forall|j: int|
            0 <= j < workers.len() && j != i ==> #[trigger] next_workers[j] == workers[j],
        next_pending.contains_key(opened->Ok_0.job_id@),
        next_pending[opened->Ok_0.job_id@].worker_id == workers[i].worker_id,
        next_pending[opened->Ok_0.job_id@].tx == stream_tx,
        forall|other: Seq<char>|
            other != opened->Ok_0.job_id@ ==> #[trigger] next_pending.contains_key(other)
                == pending.contains_key(other),
        forall|other: Seq<char>|
            other != opened->Ok_0.job_id@ && pending.contains_key(other)
                ==> #[trigger] next_pending[other] == pending[other],
{
    lemma_first_where(workers, takes_model(request.model@));
    reveal_strlit("msg_");
    law_form_of_an_id("msg_"@, opened->Ok_0.dispatch.envelope.id@);
}

/// A chat completion without messages is turned down, and nothing changes.
pub proof fn law_chat_request_without_messages<W: Clone, C>(
    workers: Seq<ConnectedWorker<W>>,
    pending: Map<Seq<char>, PendingJob<C>>,
    request: ChatCompletionRequest,
    stream_tx: C,
    next_workers: Seq<ConnectedWorker<W>>,
    next_pending: Map<Seq<char>, PendingJob<C>>,
    opened: Result<ChatOpening<W>, Refusal>,
)
    requires
        chat_opened(
            workers,
            pending,
            request,
            stream_tx,
            next_workers,
            next_pending,
            opened,
        ),
        request.messages@.len() == 0,
    ensures
        opened is Err,
        opened->Err_0.status == 400,
        opened->Err_0.body@ == "messages must not be empty"@,
        next_workers == workers,
        next_pending == pending,
{
}

/// A chat completion that no worker can take is turned down, and nothing changes.
pub proof fn law_chat_request_without_worker<W: Clone, C>(
    workers: Seq<ConnectedWorker<W>>,
    pending: Map<Seq<char>, PendingJob<C>>,
    request: ChatCompletionRequest,
    stream_tx: C,
    next_workers: Seq<ConnectedWorker<W>>,
    next_pending: Map<Seq<char>, PendingJob<C>>,
    opened: Result<ChatOpening<W>, Refusal>,
)
    requires
        chat_opened(
            workers,
            pending,
            request,
            stream_tx,
            next_workers,
            next_pending,
            opened,
        ),
        request.messages@.len() > 0,
        pick_for_model(workers, request.model@) is None,
    ensures
        opened is Err,
        opened->Err_0.status == 503,
        opened->Err_0.body@ == "no healthy worker has capacity for requested model"@,
        next_workers == workers,
        next_pending == pending,
{
}

/// A request for a capability that a worker can take is that worker's job: the worker
/// is sent the request with its input, whatever JSON value that is, under the job's id;
/// it has one job more; the client waits for the job; and nothing else changes.
pub proof fn law_capability_request_becomes_a_job<W: Clone, C>(
    workers: Seq<ConnectedWorker<W>>,
    pending: Map<Seq<char>, PendingJob<C>>,
    capability: String,
    request: CapabilityRequest,
    stream_tx: C,
    next_workers: Seq<ConnectedWorker<W>>,
    next_pending: Map<Seq<char>, PendingJob<C>>,
    opened: Result<CapabilityOpening<W>, Refusal>,
    i: int,
)
    requires
        capability_opened(
            workers,
            pending,
            capability,
            request,
            stream_tx,
            next_workers,
            next_pending,
            opened,
        ),
        pick_for_capability(workers, capability@) == Some(i),
    ensures
        opened is Ok,
        opened->Ok_0.capability@ == capability@,
        request.stream ==> opened->Ok_0.reply == ReplyForm::Streamed(SseFormat::Capability),
        !request.stream ==> opened->Ok_0.reply == ReplyForm::Collected,
        cloned(workers[i].tx, opened->Ok_0.dispatch.tx),
        opened->Ok_0.dispatch.envelope.v == 1,
        opened->Ok_0.dispatch.envelope.kind@ == "capability.start"@,
        opened->Ok_0.dispatch.envelope.id@.len() == 40,
        opened->Ok_0.dispatch.envelope.id@.take(4) == "msg_"@,
        opened->Ok_0.dispatch.envelope.payload is CapabilityStart,
        ({
            let job = opened->Ok_0.dispatch.envelope.payload->CapabilityStart_0;
            &&& job.job_id@ == opened->Ok_0.job_id@
            &&& job.capability@ == capability@
            &&& job.input@ == request.input@
            &&& job.stream == request.stream
        }),
        next_workers.len() == workers.len(),
        next_workers[i].active_jobs == workers[i].active_jobs + 1,
        next_workers[i].worker_id == workers[i].worker_id,
        next_workers[i].models == workers[i].models,
        next_workers[i].capabilities == workers[i].capabilities,
        next_workers[i].max_inflight == workers[i].max_inflight,
        next_workers[i].healthy == workers[i].healthy,
        next_workers[i].tx == workers[i].tx,
        forall|j: int|
            0 <= j < workers.len() && j != i ==> #[trigger] next_workers[j] == workers[j],
        next_pending.contains_key(opened->Ok_0.job_id@),
        next_pending[opened->Ok_0.job_id@].worker_id == workers[i].worker_id,
        next_pending[opened->Ok_0.job_id@].tx == stream_tx,
        forall|other: Seq<char>|
            other != opened->Ok_0.job_id@ ==> #[trigger] next_pending.contains_key(other)
                == pending.contains_key(other),
        forall|other: Seq<char>|
            other != opened->Ok_0.job_id@ && pending.contains_key(other)
                ==> #[trigger] next_pending[other] == pending[other],
{
    lemma_first_where(workers, takes_capability(capability@));
    reveal_strlit("msg_");
    law_form_of_an_id("msg_"@, opened->Ok_0.dispatch.envelope.id@);
}

/// A request for a capability that no worker can take is turned down, and nothing
/// changes.
pub proof fn law_capability_request_without_worker<W: Clone, C>(
    workers: Seq<ConnectedWorker<W>>,
    pending: Map<Seq<char>, PendingJob<C>>,
    capability: String,
    request: CapabilityRequest,
    stream_tx: C,
    next_workers: Seq<ConnectedWorker<W>>,
    next_pending: Map<Seq<char>, PendingJob<C>>,
    opened: Result<CapabilityOpening<W>, Refusal>,
)
    requires
        capability_opened(
            workers,
            pending,
            capability,
            request,
            stream_tx,
            next_workers,
            next_pending,
            opened,
        ),
        pick_for_capability(workers, capability@) is None,
    ensures
        opened is Err,
        opened->Err_0.status == 503,
        opened->Err_0.body@ == "no healthy worker has capacity for requested capability"@,
        next_workers == workers,
        next_pending == pending,
{
}

/// A chat completion that the mock worker gets is answered with its last message: what
/// the client collects of the worker's replies is the worker's words and then that
/// message.
pub proof fn law_chat_from_request_to_reply<W: Clone, C>(
    workers: Seq<ConnectedWorker<W>>,
    pending: Map<Seq<char>, PendingJob<C>>,
    request: ChatCompletionRequest,
    stream_tx: C,
    next_workers: Seq<ConnectedWorker<W>>,
    next_pending: Map<Seq<char>, PendingJob<C>>,
    opened: Result<ChatOpening<W>, Refusal>,
    worker_id: Seq<char>,
)
    requires
        chat_opened(
            workers,
            pending,
            request,
            stream_tx,
            next_workers,
            next_pending,
            opened,
        ),
        opened is Ok,
    ensures
        ({
            let sent = opened->Ok_0.dispatch.envelope;
            chat_content(relayed_all(replies_to(worker_id, sent.kind@, sent.payload)))
                == "Mock response to: "@ + request.messages@.last().content@
        }),
{
    let sent = opened->Ok_0.dispatch.envelope;
    law_mock_chat_end_to_end(sent.payload->JobStart_0);
}

/// A request for the echo that the mock worker gets comes back: for the input with the
/// text `t` under `message` and nothing else, what the client collects is an object
/// with the worker's words and then `t`, and with the worker's id.
pub proof fn law_echo_from_request_to_output<W: Clone, C>(
    workers: Seq<ConnectedWorker<W>>,
    pending: Map<Seq<char>, PendingJob<C>>,
    capability: String,
    request: CapabilityRequest,
    stream_tx: C,
    next_workers: Seq<ConnectedWorker<W>>,
    next_pending: Map<Seq<char>, PendingJob<C>>,
    opened: Result<CapabilityOpening<W>, Refusal>,
    worker_id: Seq<char>,
    t: Seq<char>,
)
    requires
        capability_opened(
            workers,
            pending,
            capability,
            request,
            stream_tx,
            next_workers,
            next_pending,
            opened,
        ),
        opened is Ok,
        capability@ == "run_echo"@,
        request.input@ == JsonView::Object(seq![("message"@, JsonView::Text(t))]),
    ensures
        ({
            let sent = opened->Ok_0.dispatch.envelope;
            capability_output(
                relayed_all(replies_to(worker_id, sent.kind@, sent.payload)),
                seq![],
            ) == JsonView::Object(
                seq![
                    ("message"@, JsonView::Text("private worker echo: "@ + t)),
                    ("worker"@, JsonView::Text(worker_id)),
                ],
            )
        }),
{
    let sent = opened->Ok_0.dispatch.envelope;
    let job = sent.payload->CapabilityStart_0;
    law_mock_capability_end_to_end(worker_id, job);
    let members = seq![("message"@, JsonView::Text(t))];
    lemma_first_where_at(members, under_key("message"@), 0);
    assert(member(job.input@, "message"@) == Some(JsonView::Text(t)));
}

} // verus!
