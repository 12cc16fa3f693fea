//! A worker's connection: what each message from the worker does.

use vstd::prelude::*;

use crate::protocol::CapabilityDelta;
use crate::protocol::CapabilityError;
use crate::protocol::CapabilityFinish;
use crate::protocol::Envelope;
use crate::protocol::JobDelta;
use crate::protocol::JobError;
use crate::protocol::JobFinish;
use crate::protocol::WorkerPayload;
use crate::protocol::WorkerRegister;
use crate::protocol::WorkerTelemetry;
use crate::state::delivered;
use crate::state::registered;
use crate::state::workers_after_end;
use crate::state::Delivery;
use crate::state::PendingJob;
use crate::state::RouterState;
use crate::stream::RouterEvent;
use crate::workers::with_telemetry;
use crate::workers::with_worker;
use crate::workers::without_worker;
use crate::workers::worker_index;
use crate::workers::ConnectedWorker;

verus! {

/// A message that a worker may send, or one that it may not.
#[derive(Debug)]
pub enum WorkerMessage {
    Register(WorkerRegister),
    Telemetry(WorkerTelemetry),
    JobDelta(JobDelta),
    JobFinish(JobFinish),
    JobError(JobError),
    CapabilityDelta(CapabilityDelta),
    CapabilityFinish(CapabilityFinish),
    CapabilityError(CapabilityError),
    Unexpected,
}

/// The message of a worker with this type and payload: its type and its payload
/// have to fit.
pub open spec fn message_of(kind: Seq<char>, payload: WorkerPayload) -> WorkerMessage {
    match payload {
        WorkerPayload::Register(register) if kind == "worker.register"@ => {
            WorkerMessage::Register(register)
        },
        WorkerPayload::Telemetry(telemetry) if kind == "worker.telemetry"@ => {
            WorkerMessage::Telemetry(telemetry)
        },
        WorkerPayload::JobDelta(delta) if kind == "job.delta"@ => WorkerMessage::JobDelta(delta),
        WorkerPayload::JobFinish(finish) if kind == "job.finish"@ => {
            WorkerMessage::JobFinish(finish)
        },
        WorkerPayload::JobError(err) if kind == "job.error"@ => WorkerMessage::JobError(err),
        WorkerPayload::CapabilityDelta(delta) if kind == "capability.delta"@ => {
            WorkerMessage::CapabilityDelta(delta)
        },
        WorkerPayload::CapabilityFinish(finish) if kind == "capability.finish"@ => {
            WorkerMessage::CapabilityFinish(finish)
        },
        WorkerPayload::CapabilityError(err) if kind == "capability.error"@ => {
            WorkerMessage::CapabilityError(err)
        },
        _ => WorkerMessage::Unexpected,
    }
}

/// Tells what a worker's message is.
pub fn classify(envelope: Envelope<WorkerPayload>) -> (message: WorkerMessage)
    ensures
        message == message_of(envelope.kind@, envelope.payload),
{
    let kind: &str = envelope.kind.as_str();
    match envelope.payload {
        WorkerPayload::Register(register) => if *kind == *"worker.register" {
            WorkerMessage::Register(register)
        } else {
            WorkerMessage::Unexpected
        },
        WorkerPayload::Telemetry(telemetry) => if *kind == *"worker.telemetry" {
            WorkerMessage::Telemetry(telemetry)
        } else {
            WorkerMessage::Unexpected
        },
        WorkerPayload::JobDelta(delta) => if *kind == *"job.delta" {
            WorkerMessage::JobDelta(delta)
        } else {
            WorkerMessage::Unexpected
        },
        WorkerPayload::JobFinish(finish) => if *kind == *"job.finish" {
            WorkerMessage::JobFinish(finish)
        } else {
            WorkerMessage::Unexpected
        },
        WorkerPayload::JobError(err) => if *kind == *"job.error" {
            WorkerMessage::JobError(err)
        } else {
            WorkerMessage::Unexpected
        },
        WorkerPayload::CapabilityDelta(delta) => if *kind == *"capability.delta" {
            WorkerMessage::CapabilityDelta(delta)
        } else {
            WorkerMessage::Unexpected
        },
        WorkerPayload::CapabilityFinish(finish) => if *kind == *"capability.finish" {
            WorkerMessage::CapabilityFinish(finish)
        } else {
            WorkerMessage::Unexpected
        },
        WorkerPayload::CapabilityError(err) => if *kind == *"capability.error" {
            WorkerMessage::CapabilityError(err)
        } else {
            WorkerMessage::Unexpected
        },
        _ => WorkerMessage::Unexpected,
    }
}

/// What a worker's connection brings: a failure, a message that is no text, a text
/// that is no message, or a message.
#[derive(Debug)]
pub enum SocketInput {
    Failed,
    NotText,
    Invalid,
    Message(Envelope<WorkerPayload>),
}

/// What is to be done next: to go on, with events for a client if there are any, or
/// to close the connection.
#[derive(Debug)]
pub enum SocketStep<C> {
    Continue(Option<Delivery<C>>),
    Close,
}

/// A worker's connection: the identity that its token proved, and the identity
/// under which it registered, if it did.
#[derive(Debug)]
pub struct WorkerConnection {
    authorized_worker_id: String,
    registered_worker_id: Option<String>,
}

impl WorkerConnection {
    #[verifier::type_invariant]
    spec fn wf(self) -> bool {
        self.registered_worker_id matches Some(id) ==> id@ == self.authorized_worker_id@
    }

    /// The identity that the connection's token proved.
    pub closed spec fn authorized(self) -> Seq<char> {
        self.authorized_worker_id@
    }

    /// Whether the worker has registered.
    pub closed spec fn is_registered(self) -> bool {
        self.registered_worker_id is Some
    }

    /// A new connection of the worker with this identity.
    pub fn new(authorized_worker_id: String) -> (connection: WorkerConnection)
        ensures
            connection.authorized() == authorized_worker_id@,
            !connection.is_registered(),
    {
        WorkerConnection { authorized_worker_id, registered_worker_id: None }
    }
}

/// The state, the connection and the next step after a connection brought `input`.
pub open spec fn socket_step<W, C: Clone>(
    workers: Seq<ConnectedWorker<W>>,
    pending: Map<Seq<char>, PendingJob<C>>,
    authorized: Seq<char>,
    is_registered: bool,
    input: SocketInput,
    out_tx: W,
    next_workers: Seq<ConnectedWorker<W>>,
    next_pending: Map<Seq<char>, PendingJob<C>>,
    next_registered: bool,
    step: SocketStep<C>,
) -> bool {
    let unchanged = next_workers == workers && next_pending == pending && next_registered
        == is_registered;
    match input {
        SocketInput::Failed => unchanged && step == SocketStep::<C>::Close,
        SocketInput::NotText => unchanged && step == SocketStep::<C>::Continue(None),
        SocketInput::Invalid => unchanged && step == SocketStep::<C>::Continue(None),
        SocketInput::Message(envelope) => match message_of(envelope.kind@, envelope.payload) {
            WorkerMessage::Register(register) => if register.worker_id@ == authorized {
                &&& next_workers == with_worker(workers, registered(register, out_tx))
                &&& next_pending == pending
                &&& next_registered
                &&& step == SocketStep::<C>::Continue(None)
            } else {
                unchanged && step == SocketStep::<C>::Close
            },
            WorkerMessage::Telemetry(telemetry) => {
                &&& next_workers == if is_registered {
                    with_telemetry(workers, authorized, telemetry.active_jobs, telemetry.healthy)
                } else {
                    workers
                }
                &&& next_pending == pending
                &&& next_registered == is_registered
                &&& step == SocketStep::<C>::Continue(None)
            },
            WorkerMessage::JobDelta(delta) => {
                &&& unchanged
                &&& step matches SocketStep::Continue(delivery) && delivered(
                    pending,
                    delta.job_id@,
                    seq![RouterEvent::Delta(delta.content)],
                    delivery,
                )
            },
            WorkerMessage::CapabilityDelta(delta) => {
                &&& unchanged
                &&& step matches SocketStep::Continue(delivery) && delivered(
                    pending,
                    delta.job_id@,
                    seq![RouterEvent::Data(delta.data)],
                    delivery,
                )
            },
            WorkerMessage::JobFinish(finish) => {
                &&& next_workers == workers_after_end(workers, pending, finish.job_id@)
                &&& next_pending == pending.remove(finish.job_id@)
                &&& next_registered == is_registered
                &&& step matches SocketStep::Continue(delivery) && delivered(
                    pending,
                    finish.job_id@,
                    seq![RouterEvent::Done],
                    delivery,
                )
            },
            WorkerMessage::CapabilityFinish(finish) => {
                &&& next_workers == workers_after_end(workers, pending, finish.job_id@)
                &&& next_pending == pending.remove(finish.job_id@)
                &&& next_registered == is_registered
                &&& step matches SocketStep::Continue(delivery) && delivered(
                    pending,
                    finish.job_id@,
                    seq![RouterEvent::Output(finish.output), RouterEvent::Done],
                    delivery,
                )
            },
            WorkerMessage::JobError(err) => {
                &&& next_workers == workers_after_end(workers, pending, err.job_id@)
                &&& next_pending == pending.remove(err.job_id@)
                &&& next_registered == is_registered
                &&& step matches SocketStep::Continue(delivery) && delivered(
                    pending,
                    err.job_id@,
                    seq![RouterEvent::Error(err.message)],
                    delivery,
                )
            },
            WorkerMessage::CapabilityError(err) => {
                &&& next_workers == workers_after_end(workers, pending, err.job_id@)
                &&& next_pending == pending.remove(err.job_id@)
                &&& next_registered == is_registered
                &&& step matches SocketStep::Continue(delivery) && delivered(
                    pending,
                    err.job_id@,
                    seq![RouterEvent::Error(err.message)],
                    delivery,
                )
            },
            WorkerMessage::Unexpected => unchanged && step == SocketStep::<C>::Continue(None),
        },
    }
}

impl<W: Clone, C: Clone> RouterState<W, C> {
    /// Handles what a worker's connection brought. `out_tx` is the way back to the
    /// worker.
    pub fn handle_worker_socket(
        &mut self,
        connection: &mut WorkerConnection,
        input: SocketInput,
        out_tx: W,
    ) -> (step: SocketStep<C>)
        ensures
            final(connection).authorized() == old(connection).authorized(),
            socket_step(
                old(self).workers@,
                old(self).pending_jobs@,
                old(connection).authorized(),
                old(connection).is_registered(),
                input,
                out_tx,
                final(self).workers@,
                final(self).pending_jobs@,
                final(connection).is_registered(),
                step,
            ),
    {
        let envelope = match input {
            SocketInput::Failed => {
                return SocketStep::Close;
            },
            SocketInput::NotText => {
                return SocketStep::Continue(None);
            },
            SocketInput::Invalid => {
                return SocketStep::Continue(None);
            },
            SocketInput::Message(envelope) => envelope,
        };
        match classify(envelope) {
            WorkerMessage::Register(register) => {
                if register.worker_id != connection.authorized_worker_id {
                    return SocketStep::Close;
                }
                self.register_worker(register, out_tx);
                let worker_id = connection.authorized_worker_id.clone();
                connection.registered_worker_id = Some(worker_id);
                SocketStep::Continue(None)
            },
            WorkerMessage::Telemetry(telemetry) => {
                proof {
                    use_type_invariant(&*connection);
                }
                match &connection.registered_worker_id {
                    Some(worker_id) => self.update_worker_telemetry(worker_id.as_str(), telemetry),
                    None => {},
                }
                SocketStep::Continue(None)
            },
            WorkerMessage::JobDelta(delta) => SocketStep::Continue(self.forward_delta(delta)),
            WorkerMessage::JobFinish(finish) => SocketStep::Continue(self.finish_job(finish)),
            WorkerMessage::JobError(err) => SocketStep::Continue(self.fail_job(err)),
            WorkerMessage::CapabilityDelta(delta) => SocketStep::Continue(
                self.forward_capability_delta(delta),
            ),
            WorkerMessage::CapabilityFinish(finish) => SocketStep::Continue(
                self.finish_capability(finish),
            ),
            WorkerMessage::CapabilityError(err) => SocketStep::Continue(self.fail_capability(err)),
            WorkerMessage::Unexpected => SocketStep::Continue(None),
        }
    }

    /// Ends a worker's connection: a worker that registered on it is forgotten. The
    /// answer is the id of the worker that is connected no more, if there is one.
    pub fn end_worker_socket(&mut self, connection: WorkerConnection) -> (gone: Option<String>)
        ensures
            if connection.is_registered() && worker_index(
                old(self).workers@,
                connection.authorized(),
            ) is Some {
                gone matches Some(id) && id@ == connection.authorized()
            } else {
                gone is None
            },
            final(self).workers@ == if connection.is_registered() {
                without_worker(old(self).workers@, connection.authorized())
            } else {
                old(self).workers@
            },
            final(self).pending_jobs@ == old(self).pending_jobs@,
    {
        proof {
            use_type_invariant(&connection);
        }
        match connection.registered_worker_id {
            Some(worker_id) => if self.remove_worker(worker_id.as_str()) {
                Some(worker_id)
            } else {
                None
            },
            None => None,
        }
    }
}

} // verus!
