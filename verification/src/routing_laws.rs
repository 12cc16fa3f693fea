//! What the operations on the workers and on the pending jobs do, field by field.

use vstd::prelude::*;

use crate::protocol::WorkerRegister;
use crate::search::lemma_first_where;
use crate::search::lemma_first_where_at;
use crate::search::lemma_first_where_none;
use crate::state::delivered;
use crate::state::registered;
use crate::state::workers_after_end;
use crate::state::Delivery;
use crate::state::PendingJob;
use crate::stream::RouterEvent;
use crate::workers::distinct_workers;
use crate::workers::is_worker;
use crate::workers::pick_for_capability;
use crate::workers::pick_for_model;
use crate::workers::takes_capability;
use crate::workers::takes_model;
use crate::workers::with_job_at;
use crate::workers::with_job_ended;
use crate::workers::with_telemetry;
use crate::workers::with_worker;
use crate::workers::without_worker;
use crate::workers::worker_index;
use crate::workers::ConnectedWorker;

verus! {

/// The worker that gets a chat completion advertises a model whose id, or one of
/// whose aliases, is the name that was asked for, letter for letter; it is healthy
/// and has room.
pub proof fn law_chat_goes_to_the_named_model<W>(workers: Seq<ConnectedWorker<W>>, name: Seq<char>)
    ensures
        pick_for_model(workers, name) matches Some(i) ==> {
            &&& 0 <= i < workers.len()
            &&& workers[i].healthy
            &&& workers[i].active_jobs < workers[i].max_inflight
            &&& exists|m: int|
                0 <= m < workers[i].models@.len() && ((#[trigger] workers[i].models@[m]).id@ == name
                    || exists|k: int|
                    0 <= k < workers[i].models@[m].aliases@.len()
                        && #[trigger] workers[i].models@[m].aliases@[k]@ == name)
        },
{
    lemma_first_where(workers, takes_model(name));
}

/// A chat completion goes no further than the first healthy worker with room that
/// advertises a model with the id, or with the alias, that was asked for; so where
/// there is such a worker, the request is not turned down.
pub proof fn law_chat_passes_no_worker_over<W>(
    workers: Seq<ConnectedWorker<W>>,
    name: Seq<char>,
    j: int,
    m: int,
)
    requires
        0 <= j < workers.len(),
        workers[j].healthy,
        workers[j].active_jobs < workers[j].max_inflight,
        0 <= m < workers[j].models@.len(),
        workers[j].models@[m].id@ == name || exists|k: int|
            0 <= k < workers[j].models@[m].aliases@.len()
                && #[trigger] workers[j].models@[m].aliases@[k]@ == name,
    ensures
        pick_for_model(workers, name) matches Some(i) && i <= j,
{
    lemma_first_where(workers, takes_model(name));
    assert(takes_model::<W>(name)(workers[j]));
}

/// The worker that gets a request for a capability advertises a capability of that
/// name, letter for letter; it is healthy and has room.
pub proof fn law_request_goes_to_the_named_capability<W>(
    workers: Seq<ConnectedWorker<W>>,
    name: Seq<char>,
)
    ensures
        pick_for_capability(workers, name) matches Some(i) ==> {
            &&& 0 <= i < workers.len()
            &&& workers[i].healthy
            &&& workers[i].active_jobs < workers[i].max_inflight
            &&& exists|c: int|
                0 <= c < workers[i].capabilities@.len() && #[trigger] workers[i].capabilities@[c].name@
                    == name
        },
{
    lemma_first_where(workers, takes_capability(name));
}

/// A request for a capability goes no further than the first healthy worker with room
/// that advertises it; so where there is such a worker, the request is not turned
/// down.
pub proof fn law_request_passes_no_worker_over<W>(
    workers: Seq<ConnectedWorker<W>>,
    name: Seq<char>,
    j: int,
    c: int,
)
    requires
        0 <= j < workers.len(),
        workers[j].healthy,
        workers[j].active_jobs < workers[j].max_inflight,
        0 <= c < workers[j].capabilities@.len(),
        workers[j].capabilities@[c].name@ == name,
    ensures
        pick_for_capability(workers, name) matches Some(i) && i <= j,
{
    lemma_first_where(workers, takes_capability(name));
    assert(takes_capability::<W>(name)(workers[j]));
}

/// A worker that takes a job has one job more and is the same otherwise; every other
/// worker is as it was.
pub proof fn law_taking_a_job<W>(workers: Seq<ConnectedWorker<W>>, i: int)
    requires
        0 <= i < workers.len(),
        workers[i].active_jobs < usize::MAX,
    ensures
        with_job_at(workers, i).len() == workers.len(),
        forall|j: int|
            0 <= j < workers.len() && j != i ==> #[trigger] with_job_at(workers, i)[j] == workers[j],
        with_job_at(workers, i)[i].active_jobs == workers[i].active_jobs + 1,
        with_job_at(workers, i)[i].worker_id == workers[i].worker_id,
        with_job_at(workers, i)[i].models == workers[i].models,
        with_job_at(workers, i)[i].capabilities == workers[i].capabilities,
        with_job_at(workers, i)[i].max_inflight == workers[i].max_inflight,
        with_job_at(workers, i)[i].healthy == workers[i].healthy,
        with_job_at(workers, i)[i].tx == workers[i].tx,
{
}

/// The first worker with an id is the one that is found under it.
proof fn lemma_found<W>(workers: Seq<ConnectedWorker<W>>, id: Seq<char>, i: int)
    requires
        0 <= i < workers.len(),
        workers[i].worker_id@ == id,
        forall|j: int| 0 <= j < i ==> #[trigger] workers[j].worker_id@ != id,
    ensures
        worker_index(workers, id) == Some(i),
{
    assert forall|j: int| 0 <= j < i implies !is_worker::<W>(id)(#[trigger] workers[j]) by {
        assert(workers[j].worker_id@ != id);
    }
    lemma_first_where_at(workers, is_worker(id), i);
}

/// Where no worker has an id, none is found under it.
proof fn lemma_not_found<W>(workers: Seq<ConnectedWorker<W>>, id: Seq<char>)
    requires
        forall|j: int| 0 <= j < workers.len() ==> #[trigger] workers[j].worker_id@ != id,
    ensures
        worker_index(workers, id) == None::<int>,
{
    assert forall|j: int| 0 <= j < workers.len() implies !is_worker::<W>(id)(
        #[trigger] workers[j],
    ) by {
        assert(workers[j].worker_id@ != id);
    }
    lemma_first_where_none(workers, is_worker(id));
}

/// What happens to the worker with an id, and to no other, when a job of it ends,
/// when it tells how it is doing, when it leaves and when it registers again.
pub proof fn law_changes_of_a_known_worker<W>(
    workers: Seq<ConnectedWorker<W>>,
    id: Seq<char>,
    i: int,
    active_jobs: usize,
    healthy: bool,
    again: ConnectedWorker<W>,
)
    requires
        0 <= i < workers.len(),
        workers[i].worker_id@ == id,
        forall|j: int| 0 <= j < i ==> #[trigger] workers[j].worker_id@ != id,
        again.worker_id@ == id,
    ensures
        worker_index(workers, id) == Some(i),
        with_job_ended(workers, id) == workers.update(
            i,
            ConnectedWorker {
                worker_id: workers[i].worker_id,
                models: workers[i].models,
                capabilities: workers[i].capabilities,
                max_inflight: workers[i].max_inflight,
                active_jobs: if workers[i].active_jobs == 0 {
                    0
                } else {
                    (workers[i].active_jobs - 1) as usize
                },
                healthy: workers[i].healthy,
                tx: workers[i].tx,
            },
        ),
        with_telemetry(workers, id, active_jobs, healthy) == workers.update(
            i,
            ConnectedWorker {
                worker_id: workers[i].worker_id,
                models: workers[i].models,
                capabilities: workers[i].capabilities,
                max_inflight: workers[i].max_inflight,
                active_jobs,
                healthy,
                tx: workers[i].tx,
            },
        ),
        without_worker(workers, id) == workers.take(i) + workers.skip(i + 1),
        with_worker(workers, again) == workers.update(i, again),
{
    lemma_found(workers, id, i);
    assert(workers.remove(i) =~= workers.take(i) + workers.skip(i + 1));
}

/// Where no worker has an id, the end of a job, telemetry and a departure under it
/// change nothing, and a worker that registers under it comes last.
pub proof fn law_changes_of_an_unknown_worker<W>(
    workers: Seq<ConnectedWorker<W>>,
    id: Seq<char>,
    active_jobs: usize,
    healthy: bool,
    new: ConnectedWorker<W>,
)
    requires
        forall|j: int| 0 <= j < workers.len() ==> #[trigger] workers[j].worker_id@ != id,
        new.worker_id@ == id,
    ensures
        worker_index(workers, id) == None::<int>,
        with_job_ended(workers, id) == workers,
        with_telemetry(workers, id, active_jobs, healthy) == workers,
        without_worker(workers, id) == workers,
        with_worker(workers, new) == workers + seq![new],
{
    lemma_not_found(workers, id);
    assert(workers.push(new) =~= workers + seq![new]);
}

/// Workers are distinct exactly if no two places hold one id.
pub proof fn law_distinct_workers<W>(workers: Seq<ConnectedWorker<W>>)
    ensures
        distinct_workers(workers) == (forall|i: int, j: int|
            0 <= i < workers.len() && 0 <= j < workers.len() && i != j
                ==> #[trigger] workers[i].worker_id@ != #[trigger] workers[j].worker_id@),
{
}

/// A worker that has registered is what it advertised: its id, its models, its
/// capabilities, as many jobs as it allows but one at least; it is healthy, has no
/// job, and is reached the given way.
pub proof fn law_registered_as_advertised<W>(register: WorkerRegister, tx: W)
    ensures
        registered(register, tx).worker_id == register.worker_id,
        registered(register, tx).models == register.models,
        registered(register, tx).capabilities == register.capabilities,
        register.max_inflight == 0 ==> registered(register, tx).max_inflight == 1,
        register.max_inflight > 0 ==> registered(register, tx).max_inflight
            == register.max_inflight,
        registered(register, tx).active_jobs == 0,
        registered(register, tx).healthy,
        registered(register, tx).tx == tx,
{
}

/// Events for a job go, all of them and in their order, to the client that waits for
/// it; where nobody waits they go nowhere.
pub proof fn law_events_go_to_the_waiting_client<C: Clone>(
    pending: Map<Seq<char>, PendingJob<C>>,
    job_id: Seq<char>,
    events: Seq<RouterEvent>,
    delivery: Option<Delivery<C>>,
)
    requires
        delivered(pending, job_id, events, delivery),
    ensures
        delivery is Some <==> pending.contains_key(job_id),
        delivery is Some ==> delivery->0.events@ == events,
        delivery is Some ==> cloned(pending[job_id].tx, delivery->0.tx),
{
}

/// The end of a job that was given to the worker at `i` takes one from that worker's
/// jobs; the end of a job that nobody waits for changes no worker.
pub proof fn law_end_counts_at_the_jobs_worker<W, C>(
    workers: Seq<ConnectedWorker<W>>,
    pending: Map<Seq<char>, PendingJob<C>>,
    job_id: Seq<char>,
    i: int,
)
    ensures
        !pending.contains_key(job_id) ==> workers_after_end(workers, pending, job_id) == workers,
        ({
            &&& pending.contains_key(job_id)
            &&& 0 <= i < workers.len()
            &&& workers[i].worker_id@ == pending[job_id].worker_id@
            &&& forall|j: int|
                0 <= j < i ==> #[trigger] workers[j].worker_id@ != pending[job_id].worker_id@
        }) ==> {
            let after = workers_after_end(workers, pending, job_id);
            &&& after.len() == workers.len()
            &&& after[i].active_jobs == if workers[i].active_jobs == 0 {
                0
            } else {
                workers[i].active_jobs - 1
            }
            &&& after[i].worker_id == workers[i].worker_id
            &&& after[i].models == workers[i].models
            &&& after[i].capabilities == workers[i].capabilities
            &&& after[i].max_inflight == workers[i].max_inflight
            &&& after[i].healthy == workers[i].healthy
            &&& after[i].tx == workers[i].tx
            &&& forall|j: int| 0 <= j < workers.len() && j != i ==> #[trigger] after[j] == workers[j]
        },
        ({
            &&& pending.contains_key(job_id)
            &&& forall|j: int|
                0 <= j < workers.len() ==> #[trigger] workers[j].worker_id@
                    != pending[job_id].worker_id@
        }) ==> workers_after_end(workers, pending, job_id) == workers,
{
    if pending.contains_key(job_id) {
        let id = pending[job_id].worker_id@;
        if 0 <= i < workers.len() && workers[i].worker_id@ == id && (forall|j: int|
            0 <= j < i ==> #[trigger] workers[j].worker_id@ != id) {
            lemma_found(workers, id, i);
        }
        if forall|j: int| 0 <= j < workers.len() ==> #[trigger] workers[j].worker_id@ != id {
            lemma_not_found(workers, id);
        }
    }
}

} // verus!
