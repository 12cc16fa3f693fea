//! The connected workers, in the order in which they first registered.

use vstd::prelude::*;

use crate::protocol::CapabilityDescriptor;
use crate::protocol::ModelCapability;
use crate::search::first_where;
use crate::search::lemma_first_where;
use crate::search::lemma_first_where_at;
use crate::search::lemma_first_where_none;

verus! {

/// A connected worker. `tx` is the way to it; what that is, is the caller's matter.
#[derive(Debug)]
pub struct ConnectedWorker<W> {
    pub worker_id: String,
    pub models: Vec<ModelCapability>,
    pub capabilities: Vec<CapabilityDescriptor>,
    pub max_inflight: usize,
    pub active_jobs: usize,
    pub healthy: bool,
    pub tx: W,
}

/// A model goes by `name`: it is its id or one of its aliases.
pub open spec fn goes_by(model: ModelCapability, name: Seq<char>) -> bool {
    ||| model.id@ == name
    ||| exists|i: int| 0 <= i < model.aliases@.len() && #[trigger] model.aliases@[i]@ == name
}

impl<W> ConnectedWorker<W> {
    /// The worker can take one more job.
    pub open spec fn available(self) -> bool {
        self.healthy && self.active_jobs < self.max_inflight
    }

    /// The worker advertises a model that goes by `name`.
    pub open spec fn serves_model(self, name: Seq<char>) -> bool {
        exists|i: int| 0 <= i < self.models@.len() && goes_by(#[trigger] self.models@[i], name)
    }

    /// The worker advertises the capability `name`.
    pub open spec fn offers_capability(self, name: Seq<char>) -> bool {
        exists|i: int|
            0 <= i < self.capabilities@.len() && #[trigger] self.capabilities@[i].name@ == name
    }

    /// The worker with another number of active jobs.
    pub open spec fn with_active(self, active_jobs: usize) -> ConnectedWorker<W> {
        ConnectedWorker { active_jobs, ..self }
    }

    /// Whether the worker can take one more job.
    fn is_available(&self) -> (available: bool)
        ensures
            available == self.available(),
    {
        self.healthy && self.active_jobs < self.max_inflight
    }

    /// Whether the worker advertises a model that goes by `name`.
    fn has_model(&self, name: &str) -> (has: bool)
        ensures
            has == self.serves_model(name@),
    {
        let mut i: usize = 0;
        while i < self.models.len()
            invariant
                i <= self.models@.len(),
                forall|j: int| 0 <= j < i ==> !goes_by(#[trigger] self.models@[j], name@),
            decreases self.models@.len() - i,
        {
            if model_goes_by(&self.models[i], name) {
                return true;
            }
            i += 1;
        }
        false
    }

    /// Whether the worker advertises the capability `name`.
    fn has_capability(&self, name: &str) -> (has: bool)
        ensures
            has == self.offers_capability(name@),
    {
        let mut i: usize = 0;
        while i < self.capabilities.len()
            invariant
                i <= self.capabilities@.len(),
                forall|j: int| 0 <= j < i ==> #[trigger] self.capabilities@[j].name@ != name@,
            decreases self.capabilities@.len() - i,
        {
            if *self.capabilities[i].name.as_str() == *name {
                return true;
            }
            i += 1;
        }
        false
    }
}

/// Whether `model` goes by `name`.
fn model_goes_by(model: &ModelCapability, name: &str) -> (does: bool)
    ensures
        does == goes_by(*model, name@),
{
    if *model.id.as_str() == *name {
        return true;
    }
    let mut i: usize = 0;
    while i < model.aliases.len()
        invariant
            i <= model.aliases@.len(),
            model.id@ != name@,
            forall|j: int| 0 <= j < i ==> #[trigger] model.aliases@[j]@ != name@,
        decreases model.aliases@.len() - i,
    {
        if *model.aliases[i].as_str() == *name {
            return true;
        }
        i += 1;
    }
    false
}

/// The condition of being the worker `id`.
pub open spec fn is_worker<W>(id: Seq<char>) -> spec_fn(ConnectedWorker<W>) -> bool {
    |worker: ConnectedWorker<W>| worker.worker_id@ == id
}

/// The condition of being able to take a job for the model `name`.
pub open spec fn takes_model<W>(name: Seq<char>) -> spec_fn(ConnectedWorker<W>) -> bool {
    |worker: ConnectedWorker<W>| worker.available() && worker.serves_model(name)
}

/// The condition of being able to take a job for the capability `name`.
pub open spec fn takes_capability<W>(name: Seq<char>) -> spec_fn(ConnectedWorker<W>) -> bool {
    |worker: ConnectedWorker<W>| worker.available() && worker.offers_capability(name)
}

/// Where the worker `id` stands.
pub open spec fn worker_index<W>(workers: Seq<ConnectedWorker<W>>, id: Seq<char>) -> Option<int> {
    first_where(workers, is_worker(id))
}

/// Where the first worker stands that can take a job for the model `name`.
pub open spec fn pick_for_model<W>(workers: Seq<ConnectedWorker<W>>, name: Seq<char>) -> Option<
    int,
> {
    first_where(workers, takes_model(name))
}

/// Where the first worker stands that can take a job for the capability `name`.
pub open spec fn pick_for_capability<W>(
    workers: Seq<ConnectedWorker<W>>,
    name: Seq<char>,
) -> Option<int> {
    first_where(workers, takes_capability(name))
}

/// No two workers have one id.
pub open spec fn distinct_workers<W>(workers: Seq<ConnectedWorker<W>>) -> bool {
    forall|i: int, j: int|
        0 <= i < j < workers.len() ==> #[trigger] workers[i].worker_id@
            != #[trigger] workers[j].worker_id@
}

/// The workers after `worker` registered: in the place of the one with its id, or last.
pub open spec fn with_worker<W>(
    workers: Seq<ConnectedWorker<W>>,
    worker: ConnectedWorker<W>,
) -> Seq<ConnectedWorker<W>> {
    match worker_index(workers, worker.worker_id@) {
        Some(i) => workers.update(i, worker),
        None => workers.push(worker),
    }
}

/// The workers after the worker `id` left.
pub open spec fn without_worker<W>(
    workers: Seq<ConnectedWorker<W>>,
    id: Seq<char>,
) -> Seq<ConnectedWorker<W>> {
    match worker_index(workers, id) {
        Some(i) => workers.remove(i),
        None => workers,
    }
}

/// The workers after the worker at `i` took a job.
pub open spec fn with_job_at<W>(workers: Seq<ConnectedWorker<W>>, i: int) -> Seq<
    ConnectedWorker<W>,
> {
    workers.update(i, workers[i].with_active((workers[i].active_jobs + 1) as usize))
}

/// The workers after a job of the worker `id` ended; the number of active jobs
/// does not fall below zero.
pub open spec fn with_job_ended<W>(
    workers: Seq<ConnectedWorker<W>>,
    id: Seq<char>,
) -> Seq<ConnectedWorker<W>> {
    match worker_index(workers, id) {
        Some(i) => workers.update(
            i,
            workers[i].with_active(
                if workers[i].active_jobs > 0 {
                    (workers[i].active_jobs - 1) as usize
                } else {
                    0
                },
            ),
        ),
        None => workers,
    }
}

/// The workers after the worker `id` told how it is doing.
pub open spec fn with_telemetry<W>(
    workers: Seq<ConnectedWorker<W>>,
    id: Seq<char>,
    active_jobs: usize,
    healthy: bool,
) -> Seq<ConnectedWorker<W>> {
    match worker_index(workers, id) {
        Some(i) => workers.update(i, ConnectedWorker { active_jobs, healthy, ..workers[i] }),
        None => workers,
    }
}

/// The connected workers: no two with one id.
#[derive(Debug)]
pub struct WorkerTable<W> {
    workers: Vec<ConnectedWorker<W>>,
}

impl<W> View for WorkerTable<W> {
    type V = Seq<ConnectedWorker<W>>;

    closed spec fn view(&self) -> Seq<ConnectedWorker<W>> {
        self.workers@
    }
}

impl<W> WorkerTable<W> {
    #[verifier::type_invariant]
    spec fn wf(self) -> bool {
        distinct_workers(self.workers@)
    }

    /// No workers.
    pub fn new() -> (table: WorkerTable<W>)
        ensures
            table@ == Seq::<ConnectedWorker<W>>::empty(),
    {
        WorkerTable { workers: Vec::new() }
    }

    /// Lets a caller know that no two workers of the table have one id.
    pub fn ids_are_distinct(&self)
        ensures
            distinct_workers(self@),
    {
        proof {
            use_type_invariant(self);
        }
    }

    /// Where the worker `id` stands, or the number of workers if it is not there.
    fn find(&self, id: &str) -> (at: usize)
        ensures
            match worker_index(self@, id@) {
                Some(i) => at == i && i < self@.len(),
                None => at == self@.len(),
            },
    {
        let mut at: usize = 0;
        while at < self.workers.len() && *self.workers[at].worker_id.as_str() != *id
            invariant
                at <= self.workers@.len(),
                forall|j: int| 0 <= j < at ==> #[trigger] self.workers@[j].worker_id@ != id@,
            decreases self.workers@.len() - at,
        {
            at += 1;
        }
        proof {
            if at < self.workers@.len() {
                lemma_first_where_at(self.workers@, is_worker(id@), at as int);
            } else {
                lemma_first_where_none(self.workers@, is_worker(id@));
            }
        }
        at
    }

    /// The first worker that can take a job for the model `name`.
    fn find_for_model(&self, name: &str) -> (at: Option<usize>)
        ensures
            match pick_for_model(self@, name@) {
                Some(i) => at matches Some(found) && found == i && i < self@.len(),
                None => at is None,
            },
    {
        let mut at: usize = 0;
        while at < self.workers.len()
            invariant
                at <= self.workers@.len(),
                forall|j: int|
                    0 <= j < at ==> !takes_model::<W>(name@)(#[trigger] self.workers@[j]),
            decreases self.workers@.len() - at,
        {
            if self.workers[at].is_available() && self.workers[at].has_model(name) {
                proof {
                    lemma_first_where_at(self.workers@, takes_model(name@), at as int);
                }
                return Some(at);
            }
            at += 1;
        }
        proof {
            lemma_first_where_none(self.workers@, takes_model(name@));
        }
        None
    }

    /// The first worker that can take a job for the capability `name`.
    fn find_for_capability(&self, name: &str) -> (at: Option<usize>)
        ensures
            match pick_for_capability(self@, name@) {
                Some(i) => at matches Some(found) && found == i && i < self@.len(),
                None => at is None,
            },
    {
        let mut at: usize = 0;
        while at < self.workers.len()
            invariant
                at <= self.workers@.len(),
                forall|j: int|
                    0 <= j < at ==> !takes_capability::<W>(name@)(#[trigger] self.workers@[j]),
            decreases self.workers@.len() - at,
        {
            if self.workers[at].is_available() && self.workers[at].has_capability(name) {
                proof {
                    lemma_first_where_at(self.workers@, takes_capability(name@), at as int);
                }
                return Some(at);
            }
            at += 1;
        }
        proof {
            lemma_first_where_none(self.workers@, takes_capability(name@));
        }
        None
    }

    /// Puts `worker` in the place of the one with its id, or last.
    pub fn insert(&mut self, worker: ConnectedWorker<W>)
        ensures
            final(self)@ == with_worker(old(self)@, worker),
    {
        proof {
            use_type_invariant(&*self);
        }
        let at = self.find(worker.worker_id.as_str());
        let ghost before = self@;
        let mut workers: Vec<ConnectedWorker<W>> = Vec::new();
        std::mem::swap(&mut workers, &mut self.workers);
        proof {
            lemma_first_where(before, is_worker(worker.worker_id@));
        }
        if at < workers.len() {
            workers[at] = worker;
        } else {
            workers.push(worker);
        }
        self.workers = workers;
    }

    /// Takes the worker `id` out; says whether it was there.
    pub fn remove(&mut self, id: &str) -> (was_there: bool)
        ensures
            final(self)@ == without_worker(old(self)@, id@),
            was_there == (worker_index(old(self)@, id@) is Some),
    {
        proof {
            use_type_invariant(&*self);
        }
        let at = self.find(id);
        let mut workers: Vec<ConnectedWorker<W>> = Vec::new();
        std::mem::swap(&mut workers, &mut self.workers);
        let was_there = at < workers.len();
        if was_there {
            workers.remove(at);
        }
        self.workers = workers;
        was_there
    }

    /// Counts one more job at the worker at `at`.
    fn start_job(&mut self, at: usize)
        requires
            at < old(self)@.len(),
            old(self)@[at as int].active_jobs < usize::MAX,
        ensures
            final(self)@ == with_job_at(old(self)@, at as int),
    {
        proof {
            use_type_invariant(&*self);
        }
        let mut workers: Vec<ConnectedWorker<W>> = Vec::new();
        std::mem::swap(&mut workers, &mut self.workers);
        workers[at].active_jobs = workers[at].active_jobs + 1;
        self.workers = workers;
    }

    /// Gives a job for the model `name` to the first worker that can take it: the
    /// id of that worker and the way to it.
    pub fn take_for_model(&mut self, name: &str) -> (taken: Option<(String, W)>) where W: Clone
        ensures
            match pick_for_model(old(self)@, name@) {
                Some(i) => {
                    &&& taken matches Some((id, tx)) && id == old(self)@[i].worker_id && cloned(
                        old(self)@[i].tx,
                        tx,
                    )
                    &&& final(self)@ == with_job_at(old(self)@, i)
                },
                None => taken is None && final(self)@ == old(self)@,
            },
    {
        proof {
            lemma_first_where(self@, takes_model(name@));
        }
        match self.find_for_model(name) {
            Some(at) => {
                let id = self.workers[at].worker_id.clone();
                let tx = self.workers[at].tx.clone();
                self.start_job(at);
                Some((id, tx))
            },
            None => None,
        }
    }

    /// Gives a job for the capability `name` to the first worker that can take it:
    /// the id of that worker and the way to it.
    pub fn take_for_capability(&mut self, name: &str) -> (taken: Option<(String, W)>) where
        W: Clone,

        ensures
            match pick_for_capability(old(self)@, name@) {
                Some(i) => {
                    &&& taken matches Some((id, tx)) && id == old(self)@[i].worker_id && cloned(
                        old(self)@[i].tx,
                        tx,
                    )
                    &&& final(self)@ == with_job_at(old(self)@, i)
                },
                None => taken is None && final(self)@ == old(self)@,
            },
    {
        proof {
            lemma_first_where(self@, takes_capability(name@));
        }
        match self.find_for_capability(name) {
            Some(at) => {
                let id = self.workers[at].worker_id.clone();
                let tx = self.workers[at].tx.clone();
                self.start_job(at);
                Some((id, tx))
            },
            None => None,
        }
    }

    /// Counts one job less at the worker `id`.
    pub fn end_job(&mut self, id: &str)
        ensures
            final(self)@ == with_job_ended(old(self)@, id@),
    {
        proof {
            use_type_invariant(&*self);
        }
        let at = self.find(id);
        let mut workers: Vec<ConnectedWorker<W>> = Vec::new();
        std::mem::swap(&mut workers, &mut self.workers);
        if at < workers.len() {
            workers[at].active_jobs = workers[at].active_jobs.saturating_sub(1);
        }
        self.workers = workers;
    }

    /// Notes what the worker `id` told of itself.
    pub fn update(&mut self, id: &str, active_jobs: usize, healthy: bool)
        ensures
            final(self)@ == with_telemetry(old(self)@, id@, active_jobs, healthy),
    {
        proof {
            use_type_invariant(&*self);
        }
        let at = self.find(id);
        let mut workers: Vec<ConnectedWorker<W>> = Vec::new();
        std::mem::swap(&mut workers, &mut self.workers);
        if at < workers.len() {
            workers[at].active_jobs = active_jobs;
            workers[at].healthy = healthy;
        }
        self.workers = workers;
    }
}

} // verus!
