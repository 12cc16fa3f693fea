//! The state of the router: who is connected, and who waits for which job.

use vstd::hash_map::StringHashMap;
use vstd::prelude::*;
use vstd::string::*;

use crate::protocol::is_message;
use crate::protocol::new_message;
use crate::protocol::CapabilityDelta;
use crate::protocol::CapabilityError;
use crate::protocol::CapabilityFinish;
use crate::protocol::CapabilityJob;
use crate::protocol::Envelope;
use crate::protocol::InferenceJob;
use crate::protocol::JobDelta;
use crate::protocol::JobError;
use crate::protocol::JobFinish;
use crate::protocol::WorkerPayload;
use crate::protocol::WorkerRegister;
use crate::protocol::WorkerTelemetry;
use crate::stream::RouterEvent;
use crate::workers::pick_for_capability;
use crate::workers::pick_for_model;
use crate::workers::with_job_at;
use crate::workers::with_job_ended;
use crate::workers::with_telemetry;
use crate::workers::with_worker;
use crate::workers::without_worker;
use crate::workers::worker_index;
use crate::workers::ConnectedWorker;
use crate::workers::WorkerTable;

verus! {

/// A job that a worker was given and has not ended: which worker, and the way to
/// the client that waits for it.
#[derive(Debug)]
pub struct PendingJob<C> {
    pub worker_id: String,
    pub tx: C,
}

/// The state of the router. `W` is the way to a worker and `C` the way to a client;
/// the router hands them out and leaves it to its caller to use them.
#[verifier::reject_recursive_types(C)]
pub struct RouterState<W, C> {
    pub workers: WorkerTable<W>,
    pub pending_jobs: StringHashMap<PendingJob<C>>,
}

/// A message for a worker, and the way to it.
#[derive(Debug)]
pub struct Dispatch<W> {
    pub tx: W,
    pub envelope: Envelope<WorkerPayload>,
}

/// Events for a client in their order, and the way to it.
#[derive(Debug)]
pub struct Delivery<C> {
    pub tx: C,
    pub events: Vec<RouterEvent>,
}

/// A worker as it stands when it has registered: healthy, with no job, and with
/// room for one job at least.
pub open spec fn registered<W>(register: WorkerRegister, tx: W) -> ConnectedWorker<W> {
    ConnectedWorker {
        worker_id: register.worker_id,
        models: register.models,
        capabilities: register.capabilities,
        max_inflight: if register.max_inflight > 1 {
            register.max_inflight
        } else {
            1
        },
        active_jobs: 0,
        healthy: true,
        tx,
    }
}

/// What comes of events for the job `job_id`: they go to the client that waits for
/// it, or nowhere if none does.
pub open spec fn delivered<C: Clone>(
    pending: Map<Seq<char>, PendingJob<C>>,
    job_id: Seq<char>,
    events: Seq<RouterEvent>,
    delivery: Option<Delivery<C>>,
) -> bool {
    if pending.contains_key(job_id) {
        delivery matches Some(d) && cloned(pending[job_id].tx, d.tx) && d.events@ == events
    } else {
        delivery is None
    }
}

/// The workers after the job `job_id` ended: if it was pending, its worker has one
/// job less.
pub open spec fn workers_after_end<W, C>(
    workers: Seq<ConnectedWorker<W>>,
    pending: Map<Seq<char>, PendingJob<C>>,
    job_id: Seq<char>,
) -> Seq<ConnectedWorker<W>> {
    if pending.contains_key(job_id) {
        with_job_ended(workers, pending[job_id].worker_id@)
    } else {
        workers
    }
}

impl<W: Clone, C: Clone> RouterState<W, C> {
    /// A router that no worker is connected to.
    pub fn new() -> (state: Self)
        ensures
            state.workers@ == Seq::<ConnectedWorker<W>>::empty(),
            state.pending_jobs@ == Map::<Seq<char>, PendingJob<C>>::empty(),
    {
        RouterState { workers: WorkerTable::new(), pending_jobs: StringHashMap::new() }
    }

    /// Gives a chat completion to the first healthy worker with room for it that
    /// serves its model; the answer says what is to be sent to that worker.
    pub fn dispatch_job(&mut self, job_id: &str, job: InferenceJob, stream_tx: C) -> (dispatched:
        Result<Dispatch<W>, String>)
        ensures
            match pick_for_model(old(self).workers@, job.model@) {
                Some(i) => {
                    &&& dispatched matches Ok(dispatch) && cloned(
                        old(self).workers@[i].tx,
                        dispatch.tx,
                    ) && is_message(dispatch.envelope, "job.start"@) && dispatch.envelope.payload
                        == WorkerPayload::JobStart(job)
                    &&& final(self).workers@ == with_job_at(old(self).workers@, i)
                    &&& final(self).pending_jobs@ == old(self).pending_jobs@.insert(
                        job_id@,
                        PendingJob { worker_id: old(self).workers@[i].worker_id, tx: stream_tx },
                    )
                },
                None => {
                    &&& dispatched matches Err(message) && message@
                        == "no healthy worker has capacity for requested model"@
                    &&& final(self).workers@ == old(self).workers@
                    &&& final(self).pending_jobs@ == old(self).pending_jobs@
                },
            },
    {
        match self.workers.take_for_model(job.model.as_str()) {
            Some((worker_id, tx)) => {
                self.pending_jobs.insert(job_id.to_owned(), PendingJob { worker_id, tx: stream_tx });
                let envelope = new_message("job.start", WorkerPayload::JobStart(job));
                Ok(Dispatch { tx, envelope })
            },
            None => Err("no healthy worker has capacity for requested model".to_owned()),
        }
    }

    /// Gives a request for a capability to the first healthy worker with room for it
    /// that advertises the capability; the answer says what is to be sent to that
    /// worker.
    pub fn dispatch_capability(
        &mut self,
        job_id: &str,
        job: CapabilityJob,
        stream_tx: C,
    ) -> (dispatched: Result<Dispatch<W>, String>)
        ensures
            match pick_for_capability(old(self).workers@, job.capability@) {
                Some(i) => {
                    &&& dispatched matches Ok(dispatch) && cloned(
                        old(self).workers@[i].tx,
                        dispatch.tx,
                    ) && is_message(dispatch.envelope, "capability.start"@) && dispatch.envelope.payload
                        == WorkerPayload::CapabilityStart(job)
                    &&& final(self).workers@ == with_job_at(old(self).workers@, i)
                    &&& final(self).pending_jobs@ == old(self).pending_jobs@.insert(
                        job_id@,
                        PendingJob { worker_id: old(self).workers@[i].worker_id, tx: stream_tx },
                    )
                },
                None => {
                    &&& dispatched matches Err(message) && message@
                        == "no healthy worker has capacity for requested capability"@
                    &&& final(self).workers@ == old(self).workers@
                    &&& final(self).pending_jobs@ == old(self).pending_jobs@
                },
            },
    {
        match self.workers.take_for_capability(job.capability.as_str()) {
            Some((worker_id, tx)) => {
                self.pending_jobs.insert(job_id.to_owned(), PendingJob { worker_id, tx: stream_tx });
                let envelope = new_message("capability.start", WorkerPayload::CapabilityStart(job));
                Ok(Dispatch { tx, envelope })
            },
            None => Err("no healthy worker has capacity for requested capability".to_owned()),
        }
    }

    /// Ends a dispatch: `sent` tells whether the message reached the worker's
    /// connection. If it did not, nobody waits for the job any more. The worker's
    /// number of active jobs stays as it is.
    pub fn settle_dispatch(&mut self, job_id: &str, sent: bool) -> (settled: Result<(), String>)
        ensures
            final(self).workers@ == old(self).workers@,
            if sent {
                &&& settled is Ok
                &&& final(self).pending_jobs@ == old(self).pending_jobs@
            } else {
                &&& settled matches Err(message) && message@
                    == "selected worker disconnected before dispatch"@
                &&& final(self).pending_jobs@ == old(self).pending_jobs@.remove(job_id@)
            },
    {
        if sent {
            Ok(())
        } else {
            self.pending_jobs.remove(job_id);
            Err("selected worker disconnected before dispatch".to_owned())
        }
    }

    /// Registers a worker, in the place of the one with its id if there is one.
    pub fn register_worker(&mut self, register: WorkerRegister, tx: W)
        ensures
            final(self).workers@ == with_worker(old(self).workers@, registered(register, tx)),
            final(self).pending_jobs@ == old(self).pending_jobs@,
    {
        let max_inflight: usize = if register.max_inflight > 1 {
            register.max_inflight
        } else {
            1
        };
        self.workers.insert(
            ConnectedWorker {
                worker_id: register.worker_id,
                models: register.models,
                capabilities: register.capabilities,
                max_inflight,
                active_jobs: 0,
                healthy: true,
                tx,
            },
        );
    }

    /// Notes how the worker `worker_id` is doing.
    pub fn update_worker_telemetry(&mut self, worker_id: &str, telemetry: WorkerTelemetry)
        ensures
            final(self).workers@ == with_telemetry(
                old(self).workers@,
                worker_id@,
                telemetry.active_jobs,
                telemetry.healthy,
            ),
            final(self).pending_jobs@ == old(self).pending_jobs@,
    {
        self.workers.update(worker_id, telemetry.active_jobs, telemetry.healthy);
    }

    /// Counts one job less at the worker `worker_id`.
    pub fn decrement_worker_active(&mut self, worker_id: &str)
        ensures
            final(self).workers@ == with_job_ended(old(self).workers@, worker_id@),
            final(self).pending_jobs@ == old(self).pending_jobs@,
    {
        self.workers.end_job(worker_id);
    }

    /// Forgets the worker `worker_id`, and says whether it was connected; the jobs
    /// that it was given stay pending.
    pub fn remove_worker(&mut self, worker_id: &str) -> (was_connected: bool)
        ensures
            was_connected == (worker_index(old(self).workers@, worker_id@) is Some),
            final(self).workers@ == without_worker(old(self).workers@, worker_id@),
            final(self).pending_jobs@ == old(self).pending_jobs@,
    {
        self.workers.remove(worker_id)
    }

    /// Passes `event` on to the client that waits for the job.
    fn forward(&self, job_id: &str, event: RouterEvent) -> (delivery: Option<Delivery<C>>)
        ensures
            delivered(self.pending_jobs@, job_id@, seq![event], delivery),
    {
        match self.pending_jobs.get(job_id) {
            Some(pending) => {
                let tx = pending.tx.clone();
                let mut events: Vec<RouterEvent> = Vec::new();
                events.push(event);
                Some(Delivery { tx, events })
            },
            None => None,
        }
    }

    /// Ends a job: its worker has one job less, and the client that waits for it is
    /// sent `events`.
    fn end_pending(&mut self, job_id: &str, events: Vec<RouterEvent>) -> (delivery: Option<
        Delivery<C>,
    >)
        ensures
            delivered(old(self).pending_jobs@, job_id@, events@, delivery),
            final(self).pending_jobs@ == old(self).pending_jobs@.remove(job_id@),
            final(self).workers@ == workers_after_end(
                old(self).workers@,
                old(self).pending_jobs@,
                job_id@,
            ),
    {
        let (worker_id, tx) = match self.pending_jobs.get(job_id) {
            Some(pending) => (pending.worker_id.clone(), pending.tx.clone()),
            None => {
                assert(self.pending_jobs@.remove(job_id@) =~= self.pending_jobs@);
                return None;
            },
        };
        self.pending_jobs.remove(job_id);
        self.decrement_worker_active(worker_id.as_str());
        Some(Delivery { tx, events })
    }

    /// A worker sent a piece of a chat completion: it goes to the client.
    pub fn forward_delta(&self, delta: JobDelta) -> (delivery: Option<Delivery<C>>)
        ensures
            delivered(
                self.pending_jobs@,
                delta.job_id@,
                seq![RouterEvent::Delta(delta.content)],
                delivery,
            ),
    {
        self.forward(delta.job_id.as_str(), RouterEvent::Delta(delta.content))
    }

    /// A worker finished a chat completion.
    pub fn finish_job(&mut self, finish: JobFinish) -> (delivery: Option<Delivery<C>>)
        ensures
            delivered(
                old(self).pending_jobs@,
                finish.job_id@,
                seq![RouterEvent::Done],
                delivery,
            ),
            final(self).pending_jobs@ == old(self).pending_jobs@.remove(finish.job_id@),
            final(self).workers@ == workers_after_end(
                old(self).workers@,
                old(self).pending_jobs@,
                finish.job_id@,
            ),
    {
        let mut events: Vec<RouterEvent> = Vec::new();
        events.push(RouterEvent::Done);
        self.end_pending(finish.job_id.as_str(), events)
    }

    /// A worker failed at a chat completion.
    pub fn fail_job(&mut self, err: JobError) -> (delivery: Option<Delivery<C>>)
        ensures
            delivered(
                old(self).pending_jobs@,
                err.job_id@,
                seq![RouterEvent::Error(err.message)],
                delivery,
            ),
            final(self).pending_jobs@ == old(self).pending_jobs@.remove(err.job_id@),
            final(self).workers@ == workers_after_end(
                old(self).workers@,
                old(self).pending_jobs@,
                err.job_id@,
            ),
    {
        let mut events: Vec<RouterEvent> = Vec::new();
        events.push(RouterEvent::Error(err.message));
        self.end_pending(err.job_id.as_str(), events)
    }

    /// A worker sent a piece of a capability's output: it goes to the client.
    pub fn forward_capability_delta(&self, delta: CapabilityDelta) -> (delivery: Option<
        Delivery<C>,
    >)
        ensures
            delivered(
                self.pending_jobs@,
                delta.job_id@,
                seq![RouterEvent::Data(delta.data)],
                delivery,
            ),
    {
        self.forward(delta.job_id.as_str(), RouterEvent::Data(delta.data))
    }

    /// A worker finished the work of a capability: the client is sent the output,
    /// then the end.
    pub fn finish_capability(&mut self, finish: CapabilityFinish) -> (delivery: Option<
        Delivery<C>,
    >)
        ensures
            delivered(
                old(self).pending_jobs@,
                finish.job_id@,
                seq![RouterEvent::Output(finish.output), RouterEvent::Done],
                delivery,
            ),
            final(self).pending_jobs@ == old(self).pending_jobs@.remove(finish.job_id@),
            final(self).workers@ == workers_after_end(
                old(self).workers@,
                old(self).pending_jobs@,
                finish.job_id@,
            ),
    {
        let mut events: Vec<RouterEvent> = Vec::new();
        events.push(RouterEvent::Output(finish.output));
        events.push(RouterEvent::Done);
        assert(events@ == seq![RouterEvent::Output(finish.output), RouterEvent::Done]);
        self.end_pending(finish.job_id.as_str(), events)
    }

    /// A worker failed at the work of a capability.
    pub fn fail_capability(&mut self, err: CapabilityError) -> (delivery: Option<Delivery<C>>)
        ensures
            delivered(
                old(self).pending_jobs@,
                err.job_id@,
                seq![RouterEvent::Error(err.message)],
                delivery,
            ),
            final(self).pending_jobs@ == old(self).pending_jobs@.remove(err.job_id@),
            final(self).workers@ == workers_after_end(
                old(self).workers@,
                old(self).pending_jobs@,
                err.job_id@,
            ),
    {
        let mut events: Vec<RouterEvent> = Vec::new();
        events.push(RouterEvent::Error(err.message));
        self.end_pending(err.job_id.as_str(), events)
    }
}

} // verus!
