//! What each message of a worker does, field by field.

use vstd::prelude::*;

use crate::protocol::CapabilityDelta;
use crate::protocol::CapabilityError;
use crate::protocol::CapabilityFinish;
use crate::protocol::Envelope;
use crate::protocol::JobDelta;
use crate::protocol::JobError;
use crate::protocol::JobFinish;
use crate::protocol::WorkerPayload;
use crate::protocol::WorkerRegister;
use crate::protocol::WorkerTelemetry;
use crate::search::lemma_first_where;
use crate::search::lemma_first_where_at;
use crate::socket::message_of;
use crate::socket::socket_step;
use crate::socket::SocketInput;
use crate::socket::SocketStep;
use crate::socket::WorkerMessage;
use crate::state::workers_after_end;
use crate::state::PendingJob;
use crate::stream::RouterEvent;
use crate::workers::is_worker;
use crate::workers::worker_index;
use crate::workers::ConnectedWorker;

verus! {

/// Telemetry of a worker that registered on the connection sets the worker's number of
/// jobs and its health to what it told, whatever else it told; the rest of the worker
/// and every other worker stay as they were, and nothing is sent.
pub proof fn law_telemetry_is_noted<W, C: Clone>(
    workers: Seq<ConnectedWorker<W>>,
    pending: Map<Seq<char>, PendingJob<C>>,
    authorized: Seq<char>,
    is_registered: bool,
    envelope: Envelope<WorkerPayload>,
    out_tx: W,
    next_workers: Seq<ConnectedWorker<W>>,
    next_pending: Map<Seq<char>, PendingJob<C>>,
    next_registered: bool,
    step: SocketStep<C>,
    telemetry: WorkerTelemetry,
    i: int,
)
    requires
        socket_step(
            workers,
            pending,
            authorized,
            is_registered,
            SocketInput::Message(envelope),
            out_tx,
            next_workers,
            next_pending,
            next_registered,
            step,
        ),
        envelope.kind@ == "worker.telemetry"@,
        envelope.payload == WorkerPayload::Telemetry(telemetry),
        is_registered,
        0 <= i < workers.len(),
        workers[i].worker_id@ == authorized,
        forall|j: int| 0 <= j < i ==> #[trigger] workers[j].worker_id@ != authorized,
    ensures
        next_workers.len() == workers.len(),
        next_workers[i].active_jobs == telemetry.active_jobs,
        next_workers[i].healthy == telemetry.healthy,
        next_workers[i].worker_id == workers[i].worker_id,
        next_workers[i].models == workers[i].models,
        next_workers[i].capabilities == workers[i].capabilities,
        next_workers[i].max_inflight == workers[i].max_inflight,
        next_workers[i].tx == workers[i].tx,
        forall|j: int|
            0 <= j < workers.len() && j != i ==> #[trigger] next_workers[j] == workers[j],
        next_pending == pending,
        next_registered,
        step == SocketStep::<C>::Continue(None),
{
    assert forall|j: int| 0 <= j < i implies !is_worker::<W>(authorized)(
        #[trigger] workers[j],
    ) by {
        assert(workers[j].worker_id@ != authorized);
    }
    lemma_first_where_at(workers, is_worker(authorized), i);
}

/// Telemetry on a connection without a registration changes nothing.
pub proof fn law_telemetry_of_a_stranger<W, C: Clone>(
    workers: Seq<ConnectedWorker<W>>,
    pending: Map<Seq<char>, PendingJob<C>>,
    authorized: Seq<char>,
    is_registered: bool,
    envelope: Envelope<WorkerPayload>,
    out_tx: W,
    next_workers: Seq<ConnectedWorker<W>>,
    next_pending: Map<Seq<char>, PendingJob<C>>,
    next_registered: bool,
    step: SocketStep<C>,
    telemetry: WorkerTelemetry,
)
    requires
        socket_step(
            workers,
            pending,
            authorized,
            is_registered,
            SocketInput::Message(envelope),
            out_tx,
            next_workers,
            next_pending,
            next_registered,
            step,
        ),
        envelope.kind@ == "worker.telemetry"@,
        envelope.payload == WorkerPayload::Telemetry(telemetry),
        !is_registered,
    ensures
        next_workers == workers,
        next_pending == pending,
        !next_registered,
        step == SocketStep::<C>::Continue(None),
{
}

/// A worker that registers under the identity that its token proved is connected as it
/// advertised itself, healthy and without a job, in its former place or last; every
/// worker with another id stays as it was.
pub proof fn law_registration_is_taken<W, C: Clone>(
    workers: Seq<ConnectedWorker<W>>,
    pending: Map<Seq<char>, PendingJob<C>>,
    authorized: Seq<char>,
    is_registered: bool,
    envelope: Envelope<WorkerPayload>,
    out_tx: W,
    next_workers: Seq<ConnectedWorker<W>>,
    next_pending: Map<Seq<char>, PendingJob<C>>,
    next_registered: bool,
    step: SocketStep<C>,
    register: WorkerRegister,
)
    requires
        socket_step(
            workers,
            pending,
            authorized,
            is_registered,
            SocketInput::Message(envelope),
            out_tx,
            next_workers,
            next_pending,
            next_registered,
            step,
        ),
        envelope.kind@ == "worker.register"@,
        envelope.payload == WorkerPayload::Register(register),
        register.worker_id@ == authorized,
    ensures
        exists|at: int|
            {
                &&& 0 <= at < next_workers.len()
                &&& (#[trigger] next_workers[at]).worker_id == register.worker_id
                &&& next_workers[at].models == register.models
                &&& next_workers[at].capabilities == register.capabilities
                &&& next_workers[at].max_inflight == if register.max_inflight == 0 {
                    1
                } else {
                    register.max_inflight
                }
                &&& next_workers[at].active_jobs == 0
                &&& next_workers[at].healthy
                &&& next_workers[at].tx == out_tx
                &&& at == workers.len() || (at < workers.len() && workers[at].worker_id@
                    == authorized)
            },
        workers.len() <= next_workers.len() <= workers.len() + 1,
        next_workers.len() == workers.len() <==> exists|j: int|
            0 <= j < workers.len() && #[trigger] workers[j].worker_id@ == authorized,
        forall|j: int|
            0 <= j < workers.len() && workers[j].worker_id@ != authorized
                ==> #[trigger] next_workers[j] == workers[j],
        next_pending == pending,
        next_registered,
        step == SocketStep::<C>::Continue(None),
{
    lemma_first_where(workers, is_worker(authorized));
    let at = match worker_index(workers, authorized) {
        Some(i) => i,
        None => workers.len() as int,
    };
    assert(next_workers[at].worker_id == register.worker_id);
    if at == workers.len() {
        assert forall|j: int| 0 <= j < workers.len() implies #[trigger] workers[j].worker_id@
            != authorized by {
            assert(!is_worker::<W>(authorized)(workers[j]));
        }
    } else {
        assert(workers[at].worker_id@ == authorized);
    }
}

/// A worker that tries to register under another identity is shut out, and nothing
/// changes.
pub proof fn law_false_registration_is_shut_out<W, C: Clone>(
    workers: Seq<ConnectedWorker<W>>,
    pending: Map<Seq<char>, PendingJob<C>>,
    authorized: Seq<char>,
    is_registered: bool,
    envelope: Envelope<WorkerPayload>,
    out_tx: W,
    next_workers: Seq<ConnectedWorker<W>>,
    next_pending: Map<Seq<char>, PendingJob<C>>,
    next_registered: bool,
    step: SocketStep<C>,
    register: WorkerRegister,
)
    requires
        socket_step(
            workers,
            pending,
            authorized,
            is_registered,
            SocketInput::Message(envelope),
            out_tx,
            next_workers,
            next_pending,
            next_registered,
            step,
        ),
        envelope.kind@ == "worker.register"@,
        envelope.payload == WorkerPayload::Register(register),
        register.worker_id@ != authorized,
    ensures
        next_workers == workers,
        next_pending == pending,
        next_registered == is_registered,
        step == SocketStep::<C>::Close,
{
}

/// A piece of a chat completion reaches the client that waits for the job, unchanged.
pub proof fn law_job_delta_is_relayed<W, C: Clone>(
    workers: Seq<ConnectedWorker<W>>,
    pending: Map<Seq<char>, PendingJob<C>>,
    authorized: Seq<char>,
    is_registered: bool,
    envelope: Envelope<WorkerPayload>,
    out_tx: W,
    next_workers: Seq<ConnectedWorker<W>>,
    next_pending: Map<Seq<char>, PendingJob<C>>,
    next_registered: bool,
    step: SocketStep<C>,
    delta: JobDelta,
)
    requires
        socket_step(
            workers,
            pending,
            authorized,
            is_registered,
            SocketInput::Message(envelope),
            out_tx,
            next_workers,
            next_pending,
            next_registered,
            step,
        ),
        envelope.kind@ == "job.delta"@,
        envelope.payload == WorkerPayload::JobDelta(delta),
    ensures
        next_workers == workers,
        next_pending == pending,
        next_registered == is_registered,
        step is Continue,
        step->Continue_0 is Some <==> pending.contains_key(delta.job_id@),
        step->Continue_0 is Some ==> cloned(
            pending[delta.job_id@].tx,
            step->Continue_0->0.tx,
        ) && step->Continue_0->0.events@ == seq![RouterEvent::Delta(delta.content)],
{
}

/// A piece of a capability's output reaches the client that waits for the job,
/// unchanged.
pub proof fn law_capability_delta_is_relayed<W, C: Clone>(
    workers: Seq<ConnectedWorker<W>>,
    pending: Map<Seq<char>, PendingJob<C>>,
    authorized: Seq<char>,
    is_registered: bool,
    envelope: Envelope<WorkerPayload>,
    out_tx: W,
    next_workers: Seq<ConnectedWorker<W>>,
    next_pending: Map<Seq<char>, PendingJob<C>>,
    next_registered: bool,
    step: SocketStep<C>,
    delta: CapabilityDelta,
)
    requires
        socket_step(
            workers,
            pending,
            authorized,
            is_registered,
            SocketInput::Message(envelope),
            out_tx,
            next_workers,
            next_pending,
            next_registered,
            step,
        ),
        envelope.kind@ == "capability.delta"@,
        envelope.payload == WorkerPayload::CapabilityDelta(delta),
    ensures
        next_workers == workers,
        next_pending == pending,
        next_registered == is_registered,
        step is Continue,
        step->Continue_0 is Some <==> pending.contains_key(delta.job_id@),
        step->Continue_0 is Some ==> cloned(
            pending[delta.job_id@].tx,
            step->Continue_0->0.tx,
        ) && step->Continue_0->0.events@ == seq![RouterEvent::Data(delta.data)],
{
}

/// The end of a chat completion is told to the client that waits for it, and nobody
/// waits for it any more.
pub proof fn law_job_finish_ends_the_job<W, C: Clone>(
    workers: Seq<ConnectedWorker<W>>,
    pending: Map<Seq<char>, PendingJob<C>>,
    authorized: Seq<char>,
    is_registered: bool,
    envelope: Envelope<WorkerPayload>,
    out_tx: W,
    next_workers: Seq<ConnectedWorker<W>>,
    next_pending: Map<Seq<char>, PendingJob<C>>,
    next_registered: bool,
    step: SocketStep<C>,
    finish: JobFinish,
)
    requires
        socket_step(
            workers,
            pending,
            authorized,
            is_registered,
            SocketInput::Message(envelope),
            out_tx,
            next_workers,
            next_pending,
            next_registered,
            step,
        ),
        envelope.kind@ == "job.finish"@,
        envelope.payload == WorkerPayload::JobFinish(finish),
    ensures
        next_workers == workers_after_end(workers, pending, finish.job_id@),
        !next_pending.contains_key(finish.job_id@),
        forall|other: Seq<char>|
            other != finish.job_id@ ==> #[trigger] next_pending.contains_key(other)
                == pending.contains_key(other),
        forall|other: Seq<char>|
            other != finish.job_id@ && pending.contains_key(other) ==> #[trigger] next_pending[other]
                == pending[other],
        next_registered == is_registered,
        step is Continue,
        step->Continue_0 is Some <==> pending.contains_key(finish.job_id@),
        step->Continue_0 is Some ==> cloned(
            pending[finish.job_id@].tx,
            step->Continue_0->0.tx,
        ) && step->Continue_0->0.events@ == seq![RouterEvent::Done],
{
}

/// The failure of a chat completion is told to the client that waits for it, and
/// nobody waits for it any more.
pub proof fn law_job_error_ends_the_job<W, C: Clone>(
    workers: Seq<ConnectedWorker<W>>,
    pending: Map<Seq<char>, PendingJob<C>>,
    authorized: Seq<char>,
    is_registered: bool,
    envelope: Envelope<WorkerPayload>,
    out_tx: W,
    next_workers: Seq<ConnectedWorker<W>>,
    next_pending: Map<Seq<char>, PendingJob<C>>,
    next_registered: bool,
    step: SocketStep<C>,
    err: JobError,
)
    requires
        socket_step(
            workers,
            pending,
            authorized,
            is_registered,
            SocketInput::Message(envelope),
            out_tx,
            next_workers,
            next_pending,
            next_registered,
            step,
        ),
        envelope.kind@ == "job.error"@,
        envelope.payload == WorkerPayload::JobError(err),
    ensures
        next_workers == workers_after_end(workers, pending, err.job_id@),
        !next_pending.contains_key(err.job_id@),
        forall|other: Seq<char>|
            other != err.job_id@ ==> #[trigger] next_pending.contains_key(other)
                == pending.contains_key(other),
        forall|other: Seq<char>|
            other != err.job_id@ && pending.contains_key(other) ==> #[trigger] next_pending[other]
                == pending[other],
        next_registered == is_registered,
        step is Continue,
        step->Continue_0 is Some <==> pending.contains_key(err.job_id@),
        step->Continue_0 is Some ==> cloned(
            pending[err.job_id@].tx,
            step->Continue_0->0.tx,
        ) && step->Continue_0->0.events@ == seq![RouterEvent::Error(err.message)],
{
}

/// The output of a capability and its end are told to the client that waits for it,
/// and nobody waits for it any more.
pub proof fn law_capability_finish_ends_the_job<W, C: Clone>(
    workers: Seq<ConnectedWorker<W>>,
    pending: Map<Seq<char>, PendingJob<C>>,
    authorized: Seq<char>,
    is_registered: bool,
    envelope: Envelope<WorkerPayload>,
    out_tx: W,
    next_workers: Seq<ConnectedWorker<W>>,
    next_pending: Map<Seq<char>, PendingJob<C>>,
    next_registered: bool,
    step: SocketStep<C>,
    finish: CapabilityFinish,
)
    requires
        socket_step(
            workers,
            pending,
            authorized,
            is_registered,
            SocketInput::Message(envelope),
            out_tx,
            next_workers,
            next_pending,
            next_registered,
            step,
        ),
        envelope.kind@ == "capability.finish"@,
        envelope.payload == WorkerPayload::CapabilityFinish(finish),
    ensures
        next_workers == workers_after_end(workers, pending, finish.job_id@),
        !next_pending.contains_key(finish.job_id@),
        forall|other: Seq<char>|
            other != finish.job_id@ ==> #[trigger] next_pending.contains_key(other)
                == pending.contains_key(other),
        forall|other: Seq<char>|
            other != finish.job_id@ && pending.contains_key(other) ==> #[trigger] next_pending[other]
                == pending[other],
        next_registered == is_registered,
        step is Continue,
        step->Continue_0 is Some <==> pending.contains_key(finish.job_id@),
        step->Continue_0 is Some ==> cloned(
            pending[finish.job_id@].tx,
            step->Continue_0->0.tx,
        ) && step->Continue_0->0.events@ == seq![RouterEvent::Output(finish.output), RouterEvent::Done],
{
}

/// The failure of a capability is told to the client that waits for it, and nobody
/// waits for it any more.
pub proof fn law_capability_error_ends_the_job<W, C: Clone>(
    workers: Seq<ConnectedWorker<W>>,
    pending: Map<Seq<char>, PendingJob<C>>,
    authorized: Seq<char>,
    is_registered: bool,
    envelope: Envelope<WorkerPayload>,
    out_tx: W,
    next_workers: Seq<ConnectedWorker<W>>,
    next_pending: Map<Seq<char>, PendingJob<C>>,
    next_registered: bool,
    step: SocketStep<C>,
    err: CapabilityError,
)
    requires
        socket_step(
            workers,
            pending,
            authorized,
            is_registered,
            SocketInput::Message(envelope),
            out_tx,
            next_workers,
            next_pending,
            next_registered,
            step,
        ),
        envelope.kind@ == "capability.error"@,
        envelope.payload == WorkerPayload::CapabilityError(err),
    ensures
        next_workers == workers_after_end(workers, pending, err.job_id@),
        !next_pending.contains_key(err.job_id@),
        forall|other: Seq<char>|
            other != err.job_id@ ==> #[trigger] next_pending.contains_key(other)
                == pending.contains_key(other),
        forall|other: Seq<char>|
            other != err.job_id@ && pending.contains_key(other) ==> #[trigger] next_pending[other]
                == pending[other],
        next_registered == is_registered,
        step is Continue,
        step->Continue_0 is Some <==> pending.contains_key(err.job_id@),
        step->Continue_0 is Some ==> cloned(
            pending[err.job_id@].tx,
            step->Continue_0->0.tx,
        ) && step->Continue_0->0.events@ == seq![RouterEvent::Error(err.message)],
{
}

/// A message whose type and payload do not fit, or that no worker may send, is passed
/// over.
pub proof fn law_unexpected_message_is_passed_over<W, C: Clone>(
    workers: Seq<ConnectedWorker<W>>,
    pending: Map<Seq<char>, PendingJob<C>>,
    authorized: Seq<char>,
    is_registered: bool,
    envelope: Envelope<WorkerPayload>,
    out_tx: W,
    next_workers: Seq<ConnectedWorker<W>>,
    next_pending: Map<Seq<char>, PendingJob<C>>,
    next_registered: bool,
    step: SocketStep<C>,
)
    requires
        socket_step(
            workers,
            pending,
            authorized,
            is_registered,
            SocketInput::Message(envelope),
            out_tx,
            next_workers,
            next_pending,
            next_registered,
            step,
        ),
        !(envelope.payload is Register && envelope.kind@ == "worker.register"@),
        !(envelope.payload is Telemetry && envelope.kind@ == "worker.telemetry"@),
        !(envelope.payload is JobDelta && envelope.kind@ == "job.delta"@),
        !(envelope.payload is JobFinish && envelope.kind@ == "job.finish"@),
        !(envelope.payload is JobError && envelope.kind@ == "job.error"@),
        !(envelope.payload is CapabilityDelta && envelope.kind@ == "capability.delta"@),
        !(envelope.payload is CapabilityFinish && envelope.kind@ == "capability.finish"@),
        !(envelope.payload is CapabilityError && envelope.kind@ == "capability.error"@),
    ensures
        next_workers == workers,
        next_pending == pending,
        next_registered == is_registered,
        step == SocketStep::<C>::Continue(None),
{
}

/// What is no message changes nothing: a failure ends the connection, and what is no
/// text or no message is passed over.
pub proof fn law_no_message_changes_nothing<W, C: Clone>(
    workers: Seq<ConnectedWorker<W>>,
    pending: Map<Seq<char>, PendingJob<C>>,
    authorized: Seq<char>,
    is_registered: bool,
    input: SocketInput,
    out_tx: W,
    next_workers: Seq<ConnectedWorker<W>>,
    next_pending: Map<Seq<char>, PendingJob<C>>,
    next_registered: bool,
    step: SocketStep<C>,
)
    requires
        socket_step(
            workers,
            pending,
            authorized,
            is_registered,
            input,
            out_tx,
            next_workers,
            next_pending,
            next_registered,
            step,
        ),
        !(input is Message),
    ensures
        next_workers == workers,
        next_pending == pending,
        next_registered == is_registered,
        input is Failed ==> step == SocketStep::<C>::Close,
        input is NotText || input is Invalid ==> step == SocketStep::<C>::Continue(None),
{
}

/// What a worker's message is, by its type and its payload alone: a payload goes
/// through unchanged under the type that belongs to it, and under no other.
pub proof fn law_message_by_type_and_payload(kind: Seq<char>, payload: WorkerPayload)
    ensures
        message_of(kind, payload) == (match payload {
            WorkerPayload::Register(held) => if kind == "worker.register"@ {
                WorkerMessage::Register(held)
            } else {
                WorkerMessage::Unexpected
            },
            WorkerPayload::Telemetry(held) => if kind == "worker.telemetry"@ {
                WorkerMessage::Telemetry(held)
            } else {
                WorkerMessage::Unexpected
            },
            WorkerPayload::JobDelta(held) => if kind == "job.delta"@ {
                WorkerMessage::JobDelta(held)
            } else {
                WorkerMessage::Unexpected
            },
            WorkerPayload::JobFinish(held) => if kind == "job.finish"@ {
                WorkerMessage::JobFinish(held)
            } else {
                WorkerMessage::Unexpected
            },
            WorkerPayload::JobError(held) => if kind == "job.error"@ {
                WorkerMessage::JobError(held)
            } else {
                WorkerMessage::Unexpected
            },
            WorkerPayload::CapabilityDelta(held) => if kind == "capability.delta"@ {
                WorkerMessage::CapabilityDelta(held)
            } else {
                WorkerMessage::Unexpected
            },
            WorkerPayload::CapabilityFinish(held) => if kind == "capability.finish"@ {
                WorkerMessage::CapabilityFinish(held)
            } else {
                WorkerMessage::Unexpected
            },
            WorkerPayload::CapabilityError(held) => if kind == "capability.error"@ {
                WorkerMessage::CapabilityError(held)
            } else {
                WorkerMessage::Unexpected
            },
            WorkerPayload::JobStart(_) => WorkerMessage::Unexpected,
            WorkerPayload::CapabilityStart(_) => WorkerMessage::Unexpected,
            WorkerPayload::Empty {  } => WorkerMessage::Unexpected,
        }),
{
}

} // verus!
