//! What holds of the router as a whole, across its operations.

use vstd::prelude::*;
use vstd::utf8::*;

use crate::auth::authenticated;
use crate::auth::identifies;
use crate::auth::law_header_presents_its_token;
use crate::auth::presented_token;
use crate::auth::visible_token;
use crate::protocol::WorkerRegister;
use crate::search::lemma_first_where;
use crate::search::lemma_first_where_at;
use crate::search::lemma_first_where_none;
use crate::socket::message_of;
use crate::socket::socket_step;
use crate::socket::SocketInput;
use crate::socket::SocketStep;
use crate::socket::WorkerMessage;
use crate::state::delivered;
use crate::state::registered;
use crate::state::workers_after_end;
use crate::state::Delivery;
use crate::state::PendingJob;
use crate::stream::RouterEvent;
use crate::workers::distinct_workers;
use crate::workers::goes_by;
use crate::workers::is_worker;
use crate::workers::pick_for_capability;
use crate::workers::pick_for_model;
use crate::workers::takes_capability;
use crate::workers::takes_model;
use crate::workers::with_job_at;
use crate::workers::with_job_ended;
use crate::workers::with_telemetry;
use crate::workers::with_worker;
use crate::workers::without_worker;
use crate::workers::worker_index;
use crate::workers::ConnectedWorker;

verus! {

/// The worker `id`, if it is connected.
pub open spec fn worker_named<W>(workers: Seq<ConnectedWorker<W>>, id: Seq<char>) -> Option<
    ConnectedWorker<W>,
> {
    match worker_index(workers, id) {
        Some(i) => Some(workers[i]),
        None => None,
    }
}

/// A job goes to a worker that is healthy, has room for it and serves its model, and
/// every worker before that one lacks one of these; a job is turned down only if
/// every worker lacks one of these.
pub proof fn law_first_match_for_model<W>(workers: Seq<ConnectedWorker<W>>, model: Seq<char>)
    ensures
        match pick_for_model(workers, model) {
            Some(i) => {
                &&& 0 <= i < workers.len()
                &&& workers[i].healthy
                &&& workers[i].active_jobs < workers[i].max_inflight
                &&& workers[i].serves_model(model)
                &&& forall|j: int|
                    0 <= j < i ==> !((#[trigger] workers[j]).healthy && workers[j].active_jobs
                        < workers[j].max_inflight && workers[j].serves_model(model))
            },
            None => forall|j: int|
                0 <= j < workers.len() ==> !((#[trigger] workers[j]).healthy
                    && workers[j].active_jobs < workers[j].max_inflight
                    && workers[j].serves_model(model)),
        },
{
    lemma_first_where(workers, takes_model(model));
    match pick_for_model(workers, model) {
        Some(i) => {
            assert forall|j: int| 0 <= j < i implies !((#[trigger] workers[j]).healthy
                && workers[j].active_jobs < workers[j].max_inflight && workers[j].serves_model(
                model,
            )) by {
                assert(!takes_model::<W>(model)(workers[j]));
            }
        },
        None => {
            assert forall|j: int| 0 <= j < workers.len() implies !((#[trigger] workers[j]).healthy
                && workers[j].active_jobs < workers[j].max_inflight && workers[j].serves_model(
                model,
            )) by {
                assert(!takes_model::<W>(model)(workers[j]));
            }
        },
    }
}

/// A request for a capability goes to a worker that is healthy, has room for it and
/// advertises the capability, and every worker before that one lacks one of these;
/// it is turned down only if every worker lacks one of these. So no worker is asked
/// for a capability that it does not advertise.
pub proof fn law_only_advertised_capabilities<W>(
    workers: Seq<ConnectedWorker<W>>,
    capability: Seq<char>,
)
    ensures
        match pick_for_capability(workers, capability) {
            Some(i) => {
                &&& 0 <= i < workers.len()
                &&& workers[i].healthy
                &&& workers[i].active_jobs < workers[i].max_inflight
                &&& workers[i].offers_capability(capability)
                &&& forall|j: int|
                    0 <= j < i ==> !((#[trigger] workers[j]).healthy && workers[j].active_jobs
                        < workers[j].max_inflight && workers[j].offers_capability(capability))
            },
            None => forall|j: int|
                0 <= j < workers.len() ==> !((#[trigger] workers[j]).healthy
                    && workers[j].active_jobs < workers[j].max_inflight
                    && workers[j].offers_capability(capability)),
        },
{
    lemma_first_where(workers, takes_capability(capability));
    match pick_for_capability(workers, capability) {
        Some(i) => {
            assert forall|j: int| 0 <= j < i implies !((#[trigger] workers[j]).healthy
                && workers[j].active_jobs < workers[j].max_inflight && workers[j].offers_capability(
                capability,
            )) by {
                assert(!takes_capability::<W>(capability)(workers[j]));
            }
        },
        None => {
            assert forall|j: int| 0 <= j < workers.len() implies !((#[trigger] workers[j]).healthy
                && workers[j].active_jobs < workers[j].max_inflight && workers[j].offers_capability(
                capability,
            )) by {
                assert(!takes_capability::<W>(capability)(workers[j]));
            }
        },
    }
}

/// Giving a worker a job never takes it above the number of jobs that it allows, and
/// changes nothing else.
pub proof fn law_capacity_is_kept<W>(workers: Seq<ConnectedWorker<W>>, i: int, name: Seq<char>)
    requires
        pick_for_model(workers, name) == Some(i) || pick_for_capability(workers, name) == Some(i),
    ensures
        ({
            let after = with_job_at(workers, i);
            &&& after.len() == workers.len()
            &&& after[i].active_jobs == workers[i].active_jobs + 1
            &&& after[i].active_jobs <= after[i].max_inflight
            &&& after[i] == workers[i].with_active(after[i].active_jobs)
            &&& forall|j: int| 0 <= j < workers.len() && j != i ==> #[trigger] after[j] == workers[j]
        }),
{
    lemma_first_where(workers, takes_model(name));
    lemma_first_where(workers, takes_capability(name));
}

/// No operation on the workers makes two with one id.
pub proof fn law_workers_stay_distinct<W>(
    workers: Seq<ConnectedWorker<W>>,
    worker: ConnectedWorker<W>,
    id: Seq<char>,
    i: int,
    active_jobs: usize,
    healthy: bool,
)
    requires
        distinct_workers(workers),
    ensures
        distinct_workers(with_worker(workers, worker)),
        distinct_workers(without_worker(workers, id)),
        0 <= i < workers.len() ==> distinct_workers(with_job_at(workers, i)),
        distinct_workers(with_job_ended(workers, id)),
        distinct_workers(with_telemetry(workers, id, active_jobs, healthy)),
{
    lemma_first_where(workers, is_worker(worker.worker_id@));
    lemma_first_where(workers, is_worker(id));
}

/// Among workers with distinct ids, each is the one of its id.
proof fn lemma_index_of<W>(workers: Seq<ConnectedWorker<W>>, i: int)
    requires
        distinct_workers(workers),
        0 <= i < workers.len(),
    ensures
        worker_index(workers, workers[i].worker_id@) == Some(i),
{
    lemma_first_where_at(workers, is_worker(workers[i].worker_id@), i);
}

/// A change of one worker that keeps its id is seen under that id alone.
proof fn lemma_update_named<W>(
    workers: Seq<ConnectedWorker<W>>,
    i: int,
    worker: ConnectedWorker<W>,
    id: Seq<char>,
)
    requires
        distinct_workers(workers),
        0 <= i < workers.len(),
        worker.worker_id@ == workers[i].worker_id@,
    ensures
        worker_named(workers.update(i, worker), id) == if id == worker.worker_id@ {
            Some(worker)
        } else {
            worker_named(workers, id)
        },
{
    let after = workers.update(i, worker);
    assert(distinct_workers(after));
    lemma_first_where(workers, is_worker(id));
    if id == worker.worker_id@ {
        lemma_index_of(after, i);
    } else {
        match worker_index(workers, id) {
            Some(k) => {
                assert(after[k] == workers[k]);
                lemma_index_of(after, k);
            },
            None => {
                assert forall|j: int| 0 <= j < after.len() implies !is_worker::<W>(id)(
                    #[trigger] after[j],
                ) by {
                    assert(!is_worker::<W>(id)(workers[j]));
                }
                lemma_first_where_none(after, is_worker(id));
            },
        }
    }
}

/// A worker that registered is there under its id, as it registered; every other
/// worker is as it was.
pub proof fn law_registration<W>(
    workers: Seq<ConnectedWorker<W>>,
    worker: ConnectedWorker<W>,
    id: Seq<char>,
)
    requires
        distinct_workers(workers),
    ensures
        worker_named(with_worker(workers, worker), id) == if id == worker.worker_id@ {
            Some(worker)
        } else {
            worker_named(workers, id)
        },
{
    lemma_first_where(workers, is_worker(worker.worker_id@));
    match worker_index(workers, worker.worker_id@) {
        Some(i) => lemma_update_named(workers, i, worker, id),
        None => {
            let after = workers.push(worker);
            assert(distinct_workers(after)) by {
                assert forall|j: int| 0 <= j < workers.len() implies #[trigger] workers[j].worker_id@
                    != worker.worker_id@ by {
                    assert(!is_worker::<W>(worker.worker_id@)(workers[j]));
                }
            }
            lemma_first_where(workers, is_worker(id));
            if id == worker.worker_id@ {
                lemma_index_of(after, workers.len() as int);
            } else {
                match worker_index(workers, id) {
                    Some(k) => {
                        assert(after[k] == workers[k]);
                        lemma_index_of(after, k);
                    },
                    None => {
                        assert forall|j: int| 0 <= j < after.len() implies !is_worker::<W>(id)(
                            #[trigger] after[j],
                        ) by {
                            if j < workers.len() {
                                assert(!is_worker::<W>(id)(workers[j]));
                            }
                        }
                        lemma_first_where_none(after, is_worker(id));
                    },
                }
            }
        },
    }
}

/// A worker that left is not there any more; every other worker is as it was.
pub proof fn law_removal<W>(workers: Seq<ConnectedWorker<W>>, gone: Seq<char>, id: Seq<char>)
    requires
        distinct_workers(workers),
    ensures
        worker_named(without_worker(workers, gone), id) == if id == gone {
            None
        } else {
            worker_named(workers, id)
        },
{
    lemma_first_where(workers, is_worker(gone));
    match worker_index(workers, gone) {
        Some(i) => {
            let after = workers.remove(i);
            assert(distinct_workers(after));
            lemma_first_where(workers, is_worker(id));
            if id == gone {
                assert forall|j: int| 0 <= j < after.len() implies !is_worker::<W>(id)(
                    #[trigger] after[j],
                ) by {
                    assert(after[j] == workers[if j < i {
                        j
                    } else {
                        j + 1
                    }]);
                }
                lemma_first_where_none(after, is_worker(id));
            } else {
                match worker_index(workers, id) {
                    Some(k) => {
                        let at = if k < i {
                            k
                        } else {
                            k - 1
                        };
                        assert(after[at] == workers[k]);
                        lemma_index_of(after, at);
                    },
                    None => {
                        assert forall|j: int| 0 <= j < after.len() implies !is_worker::<W>(id)(
                            #[trigger] after[j],
                        ) by {
                            let was = if j < i {
                                j
                            } else {
                                j + 1
                            };
                            assert(after[j] == workers[was]);
                            assert(!is_worker::<W>(id)(workers[was]));
                        }
                        lemma_first_where_none(after, is_worker(id));
                    },
                }
            }
        },
        None => {},
    }
}

/// What a worker tells of itself changes its number of jobs and its health; every
/// other worker is as it was, and nobody joins or leaves.
pub proof fn law_telemetry<W>(
    workers: Seq<ConnectedWorker<W>>,
    teller: Seq<char>,
    active_jobs: usize,
    healthy: bool,
    id: Seq<char>,
)
    requires
        distinct_workers(workers),
    ensures
        worker_named(with_telemetry(workers, teller, active_jobs, healthy), id) == match worker_named(
            workers,
            id,
        ) {
            Some(worker) => Some(
                if id == teller {
                    ConnectedWorker { active_jobs, healthy, ..worker }
                } else {
                    worker
                },
            ),
            None => None,
        },
{
    lemma_first_where(workers, is_worker(teller));
    lemma_first_where(workers, is_worker(id));
    match worker_index(workers, teller) {
        Some(i) => {
            let worker = ConnectedWorker { active_jobs, healthy, ..workers[i] };
            lemma_update_named(workers, i, worker, id);
        },
        None => {},
    }
}

/// The end of a job changes the number of jobs of its worker, by one less but not
/// below zero; every other worker is as it was, and nobody joins or leaves.
pub proof fn law_job_end<W>(workers: Seq<ConnectedWorker<W>>, ended_at: Seq<char>, id: Seq<char>)
    requires
        distinct_workers(workers),
    ensures
        worker_named(with_job_ended(workers, ended_at), id) == match worker_named(workers, id) {
            Some(worker) => Some(
                if id == ended_at && worker.active_jobs > 0 {
                    worker.with_active((worker.active_jobs - 1) as usize)
                } else {
                    worker
                },
            ),
            None => None,
        },
{
    lemma_first_where(workers, is_worker(ended_at));
    lemma_first_where(workers, is_worker(id));
    match worker_index(workers, ended_at) {
        Some(i) => {
            let after = with_job_ended(workers, ended_at);
            lemma_update_named(workers, i, after[i], id);
            if workers[i].active_jobs == 0 {
                assert(after[i] == workers[i]);
            }
        },
        None => {},
    }
}

/// The end of a job undoes its dispatch: the workers and the pending jobs are what
/// they were before, if the id of the job was new.
pub proof fn law_end_undoes_dispatch<W, C>(
    workers: Seq<ConnectedWorker<W>>,
    pending: Map<Seq<char>, PendingJob<C>>,
    job_id: Seq<char>,
    name: Seq<char>,
    i: int,
    tx: C,
)
    requires
        distinct_workers(workers),
        !pending.contains_key(job_id),
        pick_for_model(workers, name) == Some(i) || pick_for_capability(workers, name) == Some(i),
    ensures
        ({
            let given = with_job_at(workers, i);
            let waiting = pending.insert(
                job_id,
                PendingJob { worker_id: workers[i].worker_id, tx },
            );
            &&& workers_after_end(given, waiting, job_id) == workers
            &&& waiting.remove(job_id) == pending
        }),
{
    lemma_first_where(workers, takes_model(name));
    lemma_first_where(workers, takes_capability(name));
    let given = with_job_at(workers, i);
    assert(distinct_workers(given));
    lemma_index_of(given, i);
    let waiting = pending.insert(job_id, PendingJob { worker_id: workers[i].worker_id, tx });
    assert(workers_after_end(given, waiting, job_id) =~= workers);
    assert(waiting.remove(job_id) =~= pending);
}

/// A dispatch that did not reach its worker leaves nobody waiting: the pending jobs
/// are what they were before, if the id of the job was new.
pub proof fn law_failed_dispatch_leaves_nobody_waiting<C>(
    pending: Map<Seq<char>, PendingJob<C>>,
    job_id: Seq<char>,
    job: PendingJob<C>,
)
    requires
        !pending.contains_key(job_id),
    ensures
        pending.insert(job_id, job).remove(job_id) == pending,
{
    assert(pending.insert(job_id, job).remove(job_id) =~= pending);
}

/// A job that has ended is over: nothing more is sent to its client, and its worker
/// is not counted down again.
pub proof fn law_ended_job_is_over<W, C: Clone>(
    workers: Seq<ConnectedWorker<W>>,
    pending: Map<Seq<char>, PendingJob<C>>,
    job_id: Seq<char>,
    events: Seq<RouterEvent>,
    delivery: Option<Delivery<C>>,
)
    requires
        delivered(pending.remove(job_id), job_id, events, delivery),
    ensures
        delivery is None,
        workers_after_end(workers, pending.remove(job_id), job_id) == workers,
        pending.remove(job_id).remove(job_id) == pending.remove(job_id),
{
    assert(pending.remove(job_id).remove(job_id) =~= pending.remove(job_id));
}

/// A worker that has just registered can take a job for each of its models, under
/// the model's id and its aliases, and for each of its capabilities.
pub proof fn law_registered_worker_can_work<W>(
    workers: Seq<ConnectedWorker<W>>,
    register: WorkerRegister,
    tx: W,
)
    ensures
        registered(register, tx).max_inflight >= 1,
        forall|m: int, name: Seq<char>|
            #![trigger goes_by(register.models@[m], name)]
            0 <= m < register.models@.len() && goes_by(register.models@[m], name)
                ==> pick_for_model(with_worker(workers, registered(register, tx)), name) is Some,
        forall|c: int|
            #![trigger register.capabilities@[c]]
            0 <= c < register.capabilities@.len() ==> pick_for_capability(
                with_worker(workers, registered(register, tx)),
                register.capabilities@[c].name@,
            ) is Some,
{
    let worker = registered(register, tx);
    let after = with_worker(workers, worker);
    lemma_first_where(workers, is_worker(worker.worker_id@));
    let at = match worker_index(workers, worker.worker_id@) {
        Some(i) => i,
        None => workers.len() as int,
    };
    assert(after[at] == worker);
    assert forall|m: int, name: Seq<char>|
        #![trigger goes_by(register.models@[m], name)]
        0 <= m < register.models@.len() && goes_by(
            register.models@[m],
            name,
        ) implies pick_for_model(after, name) is Some by {
        assert(goes_by(worker.models@[m], name));
        assert(takes_model::<W>(name)(after[at]));
        lemma_first_where(after, takes_model(name));
    }
    assert forall|c: int|
        #![trigger register.capabilities@[c]]
        0 <= c < register.capabilities@.len() implies pick_for_capability(
        after,
        register.capabilities@[c].name@,
    ) is Some by {
        let name = register.capabilities@[c].name@;
        assert(worker.capabilities@[c].name@ == name);
        assert(takes_capability::<W>(name)(after[at]));
        lemma_first_where(after, takes_capability(name));
    }
}

/// The same worker but for the number of jobs that it is counted for.
pub open spec fn same_but_for_jobs<W>(a: ConnectedWorker<W>, b: ConnectedWorker<W>) -> bool {
    a == b.with_active(a.active_jobs)
}

/// A connection speaks for the worker whose token opened it and for no other: all
/// that it can do to another worker is to end a job that the worker was given.
pub proof fn law_connection_speaks_for_itself<W, C: Clone>(
    workers: Seq<ConnectedWorker<W>>,
    pending: Map<Seq<char>, PendingJob<C>>,
    authorized: Seq<char>,
    is_registered: bool,
    input: SocketInput,
    out_tx: W,
    next_workers: Seq<ConnectedWorker<W>>,
    next_pending: Map<Seq<char>, PendingJob<C>>,
    next_registered: bool,
    step: SocketStep<C>,
    other: Seq<char>,
)
    requires
        distinct_workers(workers),
        other != authorized,
        socket_step(
            workers,
            pending,
            authorized,
            is_registered,
            input,
            out_tx,
            next_workers,
            next_pending,
            next_registered,
            step,
        ),
    ensures
        match worker_named(workers, other) {
            Some(before) => worker_named(next_workers, other) matches Some(after)
                && same_but_for_jobs(after, before) && after.active_jobs <= before.active_jobs,
            None => worker_named(next_workers, other) is None,
        },
        distinct_workers(next_workers),
{
    if let SocketInput::Message(envelope) = input {
        match message_of(envelope.kind@, envelope.payload) {
            WorkerMessage::Register(register) => {
                let worker = registered(register, out_tx);
                law_registration(workers, worker, other);
                law_workers_stay_distinct(workers, worker, other, -1, 0, true);
            },
            WorkerMessage::Telemetry(telemetry) => {
                law_telemetry(
                    workers,
                    authorized,
                    telemetry.active_jobs,
                    telemetry.healthy,
                    other,
                );
                lemma_first_where(workers, is_worker(authorized));
            },
            WorkerMessage::JobFinish(finish) => {
                lemma_end_seen(workers, pending, finish.job_id@, other);
            },
            WorkerMessage::JobError(err) => {
                lemma_end_seen(workers, pending, err.job_id@, other);
            },
            WorkerMessage::CapabilityFinish(finish) => {
                lemma_end_seen(workers, pending, finish.job_id@, other);
            },
            WorkerMessage::CapabilityError(err) => {
                lemma_end_seen(workers, pending, err.job_id@, other);
            },
            _ => {},
        }
    }
}

/// What the end of a job does, as seen under one id.
proof fn lemma_end_seen<W, C>(
    workers: Seq<ConnectedWorker<W>>,
    pending: Map<Seq<char>, PendingJob<C>>,
    job_id: Seq<char>,
    id: Seq<char>,
)
    requires
        distinct_workers(workers),
    ensures
        distinct_workers(workers_after_end(workers, pending, job_id)),
        match worker_named(workers, id) {
            Some(before) => worker_named(
                workers_after_end(workers, pending, job_id),
                id,
            ) matches Some(after) && same_but_for_jobs(after, before) && after.active_jobs
                <= before.active_jobs,
            None => worker_named(workers_after_end(workers, pending, job_id), id) is None,
        },
{
    if pending.contains_key(job_id) {
        law_job_end(workers, pending[job_id].worker_id@, id);
        lemma_first_where(workers, is_worker(pending[job_id].worker_id@));
    }
}

/// Whoever presents a configured token, in a header made from it, is admitted.
pub proof fn law_configured_token_is_admitted(
    keys: Map<Seq<char>, Seq<char>>,
    headers: Map<Seq<char>, Seq<u8>>,
    id: Seq<char>,
)
    requires
        keys.contains_key(id),
        visible_token(keys[id]),
        headers.contains_key("authorization"@),
        headers["authorization"@] == encode_utf8("Bearer "@ + keys[id]),
    ensures
        authenticated(keys, presented_token(headers)),
        identifies(keys, presented_token(headers), Some(id)),
{
    law_header_presents_its_token(headers, keys[id]);
}

} // verus!
