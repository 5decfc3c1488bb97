//! Host closures inside a graph: how a seam is woven into the queue, and what
//! its worker decides.

use crate::error::{Error, OpResult};
use crate::exec_ctx::{kept, Driver, ExecutionContext, Walk};
use crate::ids::{copy_ids, extend_ids};
use crate::leaf::{no_deps, single_dep};
use crate::obj::{Class, Command, Obj, Reply};
use vstd::prelude::*;

verus! {

broadcast use crate::exec_ctx::lemma_kept_over;

/// The status of an event that finished without error.
pub const CL_COMPLETE: i32 = 0;

/// The status with which a seam aborts what depends on it.
pub const ABORTED: i32 = -1;

/// Mapping a value for the host, object by object from index `i` on; plain data
/// needs no mapping: the run
/// afterwards, and the map events after those in `got`.
pub open spec fn maps_from(
    value: Seq<Obj>,
    i: nat,
    deps: Seq<u64>,
    got: Seq<u64>,
    pre: Walk,
    post: Walk,
    res: OpResult<Seq<u64>>,
) -> bool
    decreases value.len() - i,
{
    if i >= value.len() {
        post == pre && res == Ok::<Seq<u64>, Error>(got)
    } else if value[i as int].class == Class::Plain {
        maps_from(value, i + 1, deps, got, pre, post, res)
    } else {
        exists|q: Reply|
            {
                let s = #[trigger] pre.issued(
                    Command::MapMem { mem: value[i as int].mem_spec(), writable: true },
                    deps,
                    q,
                );
                match q {
                    Err(c) => post == s && res == Err::<Seq<u64>, Error>(Error::OpenCl(c)),
                    Ok(ev) => maps_from(value, i + 1, deps, got.push(ev), s, post, res),
                }
            }
    }
}

/// Unmapping a value, object by object from index `i` on, each behind `fire`.
pub open spec fn unmaps_from(
    value: Seq<Obj>,
    i: nat,
    fire: u64,
    got: Seq<u64>,
    pre: Walk,
    post: Walk,
    res: OpResult<Seq<u64>>,
) -> bool
    decreases value.len() - i,
{
    if i >= value.len() {
        post == pre && res == Ok::<Seq<u64>, Error>(got)
    } else if value[i as int].class == Class::Plain {
        unmaps_from(value, i + 1, fire, got, pre, post, res)
    } else {
        exists|q: Reply|
            {
                let s = #[trigger] pre.issued(
                    Command::UnmapMem { mem: value[i as int].mem_spec() },
                    seq![fire],
                    q,
                );
                match q {
                    Err(c) => post == s && res == Err::<Seq<u64>, Error>(Error::OpenCl(c)),
                    Ok(ev) => unmaps_from(value, i + 1, fire, got.push(ev), s, post, res),
                }
            }
    }
}

fn map_from<D: Driver>(
    ec: &mut ExecutionContext<D>,
    value: &Vec<Obj>,
    i: usize,
    deps: &Vec<u64>,
    got: Vec<u64>,
) -> (r: OpResult<Vec<u64>>)
    requires
        i <= value.len(),
    ensures
        maps_from(value@, i as nat, deps@, got@, old(ec)@, final(ec)@, ids_view(r)),
        kept(old(ec)@, final(ec)@),
    decreases value.len() - i,
{
    if i >= value.len() {
        return Ok(got);
    }
    if matches!(value[i].class, Class::Plain) {
        return map_from(ec, value, i + 1, deps, got);
    }
    let ghost pre = ec@;
    let q: Reply = ec.issue(Command::MapMem { mem: value[i].mem(), writable: true }, deps);
    assert(ec@ == pre.issued(
        Command::MapMem { mem: value@[i as int].mem_spec(), writable: true },
        deps@,
        q,
    ));
    match q {
        Err(c) => Err(Error::OpenCl(c)),
        Ok(ev) => {
            let mut more = got;
            more.push(ev);
            map_from(ec, value, i + 1, deps, more)
        },
    }
}

fn unmap_from<D: Driver>(
    ec: &mut ExecutionContext<D>,
    value: &Vec<Obj>,
    i: usize,
    fire: u64,
    got: Vec<u64>,
) -> (r: OpResult<Vec<u64>>)
    requires
        i <= value.len(),
    ensures
        unmaps_from(value@, i as nat, fire, got@, old(ec)@, final(ec)@, ids_view(r)),
        kept(old(ec)@, final(ec)@),
    decreases value.len() - i,
{
    if i >= value.len() {
        return Ok(got);
    }
    if matches!(value[i].class, Class::Plain) {
        return unmap_from(ec, value, i + 1, fire, got);
    }
    let ghost pre = ec@;
    let q: Reply = ec.issue(Command::UnmapMem { mem: value[i].mem() }, &single_dep(fire));
    assert(ec@ == pre.issued(
        Command::UnmapMem { mem: value@[i as int].mem_spec() },
        seq![fire],
        q,
    ));
    match q {
        Err(c) => Err(Error::OpenCl(c)),
        Ok(ev) => {
            let mut more = got;
            more.push(ev);
            unmap_from(ec, value, i + 1, fire, more)
        },
    }
}

/// A list of events as a sequence.
pub open spec fn ids_view(r: OpResult<Vec<u64>>) -> OpResult<Seq<u64>> {
    match r {
        Ok(v) => Ok(v@),
        Err(e) => Err(e),
    }
}

/// The run after a seam gave up: what waits behind its events is aborted.
pub open spec fn seam_aborted(s: Walk, fire: u64, proceed: u64, a: Reply, b: Reply) -> Walk {
    s.issued(Command::Complete { event: fire, status: ABORTED }, Seq::empty(), a).issued(
        Command::Complete { event: proceed, status: ABORTED },
        Seq::empty(),
        b,
    )
}

/// The end of a seam, once its two user events exist and the unmaps are in the
/// queue or were refused.
pub open spec fn seam_ends(
    value: Seq<Obj>,
    deps: Seq<u64>,
    maps: Seq<u64>,
    closure: u64,
    with_context: bool,
    fire: u64,
    proceed: u64,
    s: Walk,
    unmaps: OpResult<Seq<u64>>,
    post: Walk,
    res: OpResult<Seq<u64>>,
) -> bool {
    match unmaps {
        Err(e) => exists|a: Reply, b: Reply|
            post == (#[trigger] seam_aborted(s, fire, proceed, a, b)) && res == Err::<Seq<u64>, Error>(e),
        Ok(us) => exists|q: Reply|
            {
                let t = #[trigger] s.issued(
                    Command::Worker {
                        closure,
                        with_context,
                        fire,
                        proceed,
                        sources: deps.len() as usize,
                    },
                    deps + maps,
                    q,
                );
                match q {
                    Err(c) => exists|a: Reply, b: Reply|
                        post == (#[trigger] seam_aborted(t, fire, proceed, a, b)) && res == Err::<
                            Seq<u64>,
                            Error,
                        >(Error::OpenCl(c)),
                    Ok(worker) => post == (Walk { workers: t.workers.push(worker), ..t }) && res == Ok::<
                        Seq<u64>,
                        Error,
                    >(us.push(proceed)),
                }
            },
    }
}

/// A seam over `value`, which waits on `deps`: the value is mapped behind
/// `deps`; a worker calls the closure once the maps are done; `fire` releases the
/// unmaps and `proceed` what comes after. The result is what the value waits on
/// afterwards: the unmaps, and `proceed`.
pub open spec fn seam_runs(
    value: Seq<Obj>,
    deps: Seq<u64>,
    closure: u64,
    with_context: bool,
    pre: Walk,
    post: Walk,
    res: OpResult<Seq<u64>>,
) -> bool {
    exists|m1: Walk, r1: OpResult<Seq<u64>>|
        (#[trigger] maps_from(value, 0, deps, Seq::empty(), pre, m1, r1)) && match r1 {
            Err(e) => post == m1 && res == Err::<Seq<u64>, Error>(e),
            Ok(maps) => seam_mapped(value, deps, maps, closure, with_context, m1, post, res),
        }
}

/// A seam whose value is mapped.
pub open spec fn seam_mapped(
    value: Seq<Obj>,
    deps: Seq<u64>,
    maps: Seq<u64>,
    closure: u64,
    with_context: bool,
    m1: Walk,
    post: Walk,
    res: OpResult<Seq<u64>>,
) -> bool {
    exists|q1: Reply|
        {
            let s1 = #[trigger] m1.issued(Command::UserEvent, Seq::empty(), q1);
            match q1 {
                Err(c) => post == s1 && res == Err::<Seq<u64>, Error>(Error::OpenCl(c)),
                Ok(fire) => exists|q2: Reply|
                    {
                        let s2 = #[trigger] s1.issued(Command::UserEvent, Seq::empty(), q2);
                        match q2 {
                            Err(c) => post == s2 && res == Err::<Seq<u64>, Error>(Error::OpenCl(c)),
                            Ok(proceed) => exists|m3: Walk, r3: OpResult<Seq<u64>>|
                                (#[trigger] unmaps_from(value, 0, fire, Seq::empty(), s2, m3, r3))
                                    && seam_ends(
                                    value,
                                    deps,
                                    maps,
                                    closure,
                                    with_context,
                                    fire,
                                    proceed,
                                    m3,
                                    r3,
                                    post,
                                    res,
                                ),
                        }
                    },
            }
        }
}

fn abort_seam<D: Driver>(ec: &mut ExecutionContext<D>, fire: u64, proceed: u64)
    ensures
        exists|a: Reply, b: Reply|
            final(ec)@ == (#[trigger] seam_aborted(old(ec)@, fire, proceed, a, b)),
        kept(old(ec)@, final(ec)@),
{
    let ghost pre = ec@;
    let a: Reply = ec.issue(Command::Complete { event: fire, status: ABORTED }, &no_deps());
    let b: Reply = ec.issue(Command::Complete { event: proceed, status: ABORTED }, &no_deps());
    assert(ec@ == seam_aborted(pre, fire, proceed, a, b));
}

/// Weave a host closure over `value` into the queue.
pub fn run_host_seam<D: Driver>(
    ec: &mut ExecutionContext<D>,
    value: &Vec<Obj>,
    deps: &Vec<u64>,
    closure: u64,
    with_context: bool,
) -> (r: OpResult<Vec<u64>>)
    ensures
        seam_runs(value@, deps@, closure, with_context, old(ec)@, final(ec)@, ids_view(r)),
        kept(old(ec)@, final(ec)@),
{
    let ghost pre = ec@;
    let mapped: OpResult<Vec<u64>> = map_from(ec, value, 0, deps, no_deps());
    let ghost m1 = ec@;
    let maps: Vec<u64> = match mapped {
        Ok(v) => v,
        Err(e) => {
            assert(maps_from(value@, 0, deps@, Seq::empty(), pre, m1, Err(e)));
            return Err(e);
        },
    };
    assert(maps_from(value@, 0, deps@, Seq::empty(), pre, m1, Ok(maps@)));
    let q1: Reply = ec.issue(Command::UserEvent, &no_deps());
    let ghost s1 = ec@;
    assert(s1 == m1.issued(Command::UserEvent, Seq::empty(), q1));
    let fire: u64 = match q1 {
        Ok(ev) => ev,
        Err(c) => {
            assert(seam_mapped(
                value@,
                deps@,
                maps@,
                closure,
                with_context,
                m1,
                s1,
                Err(Error::OpenCl(c)),
            ));
            return Err(Error::OpenCl(c));
        },
    };
    let q2: Reply = ec.issue(Command::UserEvent, &no_deps());
    let ghost s2 = ec@;
    assert(s2 == s1.issued(Command::UserEvent, Seq::empty(), q2));
    let proceed: u64 = match q2 {
        Ok(ev) => ev,
        Err(c) => {
            assert(seam_mapped(
                value@,
                deps@,
                maps@,
                closure,
                with_context,
                m1,
                s2,
                Err(Error::OpenCl(c)),
            ));
            return Err(Error::OpenCl(c));
        },
    };
    let unmapped: OpResult<Vec<u64>> = unmap_from(ec, value, 0, fire, no_deps());
    let ghost m3 = ec@;
    let unmaps: Vec<u64> = match unmapped {
        Ok(v) => v,
        Err(e) => {
            assert(unmaps_from(value@, 0, fire, Seq::empty(), s2, m3, Err(e)));
            abort_seam(ec, fire, proceed);
            assert(seam_ends(
                value@,
                deps@,
                maps@,
                closure,
                with_context,
                fire,
                proceed,
                m3,
                Err(e),
                ec@,
                Err(e),
            ));
            assert(seam_mapped(value@, deps@, maps@, closure, with_context, m1, ec@, Err(e)));
            return Err(e);
        },
    };
    assert(unmaps_from(value@, 0, fire, Seq::empty(), s2, m3, Ok(unmaps@)));
    let mut waits: Vec<u64> = copy_ids(deps);
    extend_ids(&mut waits, &maps);
    let q: Reply = ec.issue(
        Command::Worker { closure, with_context, fire, proceed, sources: deps.len() },
        &waits,
    );
    let ghost t = ec@;
    assert(t == m3.issued(
        Command::Worker { closure, with_context, fire, proceed, sources: deps@.len() as usize },
        deps@ + maps@,
        q,
    ));
    match q {
        Err(c) => {
            abort_seam(ec, fire, proceed);
            assert(seam_ends(
                value@,
                deps@,
                maps@,
                closure,
                with_context,
                fire,
                proceed,
                m3,
                Ok(unmaps@),
                ec@,
                Err(Error::OpenCl(c)),
            ));
            assert(seam_mapped(
                value@,
                deps@,
                maps@,
                closure,
                with_context,
                m1,
                ec@,
                Err(Error::OpenCl(c)),
            ));
            Err(Error::OpenCl(c))
        },
        Ok(worker) => {
            ec.push_worker(worker);
            let mut out = unmaps;
            out.push(proceed);
            assert(seam_ends(
                value@,
                deps@,
                maps@,
                closure,
                with_context,
                fire,
                proceed,
                m3,
                Ok(unmaps@),
                ec@,
                Ok(out@),
            ));
            assert(seam_mapped(value@, deps@, maps@, closure, with_context, m1, ec@, Ok(out@)));
            Ok(out)
        },
    }
}

/// What a query for the status of an event answers.
pub type EventStatus = core::result::Result<i32, i32>;

/// Whether an event was cancelled. An event whose status cannot be read counts
/// as not cancelled.
pub open spec fn cancelled(s: EventStatus) -> bool {
    match s {
        Ok(code) => code < 0,
        Err(_) => false,
    }
}

/// Whether an event was cancelled.
pub fn event_is_cancelled(s: &EventStatus) -> (r: bool)
    ensures
        r == cancelled(*s),
{
    match s {
        Ok(code) => *code < 0,
        Err(_) => false,
    }
}

/// How a host closure ended.
pub enum ClosureEnd {
    /// It returned without error.
    Done,
    /// It returned an error.
    Failed(Error),
    /// It panicked with a text.
    PanickedWith(String),
    /// It panicked with something else.
    Panicked,
}

/// What a worker reports: the status for `proceed`, and the error for the run.
pub struct WorkerReport {
    pub status: i32,
    pub error: Option<Error>,
}

/// The text of a panic that carried none.
pub open spec fn no_panic_text() -> Seq<char> {
    "non-string panic payload"@
}

/// Whether a report is what the end of the closure calls for.
pub open spec fn reports_end(end: ClosureEnd, r: WorkerReport) -> bool {
    match end {
        ClosureEnd::Done => r.status == CL_COMPLETE && r.error is None,
        ClosureEnd::Failed(e) => r.status == ABORTED && r.error == Some(e),
        ClosureEnd::PanickedWith(msg) => r.status == ABORTED && r.error == Some(Error::HostPanic(msg)),
        ClosureEnd::Panicked => r.status == ABORTED && (r.error matches Some(Error::HostPanic(m))
            && m@ == no_panic_text()),
    }
}

/// The report on the end of a closure.
pub fn closure_report(end: ClosureEnd) -> (r: WorkerReport)
    ensures
        reports_end(end, r),
{
    match end {
        ClosureEnd::Done => WorkerReport { status: CL_COMPLETE, error: None },
        ClosureEnd::Failed(e) => WorkerReport { status: ABORTED, error: Some(e) },
        ClosureEnd::PanickedWith(msg) => WorkerReport {
            status: ABORTED,
            error: Some(Error::HostPanic(msg)),
        },
        ClosureEnd::Panicked => WorkerReport {
            status: ABORTED,
            error: Some(Error::HostPanic("non-string panic payload".to_owned())),
        },
    }
}

/// What a worker is about to do.
pub enum WorkerStep {
    /// Wait on the event of the value with this index.
    Source(usize),
    /// Wait on the map event with this index.
    Mapping(usize),
    /// Call the closure.
    Call,
    /// Report, without calling the closure.
    Stop(WorkerReport),
}

/// The first event of a worker's lists, from the given places on.
pub open spec fn step_at(i: nat, sources: nat, j: nat, maps: nat) -> WorkerStep {
    if i < sources {
        WorkerStep::Source(i as usize)
    } else if j < maps {
        WorkerStep::Mapping(j as usize)
    } else {
        WorkerStep::Call
    }
}

/// What a worker does first.
pub fn worker_start(sources: usize, maps: usize) -> (r: WorkerStep)
    ensures
        r == step_at(0, sources as nat, 0, maps as nat),
{
    if 0 < sources {
        WorkerStep::Source(0)
    } else if 0 < maps {
        WorkerStep::Mapping(0)
    } else {
        WorkerStep::Call
    }
}

/// What a worker does once the event of its step ended with a status: a
/// cancelled event of the value stops it silently, a cancelled mapping stops it
/// with the event's status as the error.
pub open spec fn step_after(step: WorkerStep, s: EventStatus, sources: nat, maps: nat) -> WorkerStep {
    match step {
        WorkerStep::Source(i) => if cancelled(s) {
            WorkerStep::Stop(WorkerReport { status: ABORTED, error: None })
        } else {
            step_at((i + 1) as nat, sources, 0, maps)
        },
        WorkerStep::Mapping(j) => if cancelled(s) {
            WorkerStep::Stop(WorkerReport { status: ABORTED, error: Some(Error::OpenCl(s->Ok_0)) })
        } else {
            step_at(sources, sources, (j + 1) as nat, maps)
        },
        other => other,
    }
}

/// What a worker does once the event of its step ended with a status.
pub fn run_host_worker(step: WorkerStep, s: EventStatus, sources: usize, maps: usize) -> (r: WorkerStep)
    requires
        step matches WorkerStep::Source(i) ==> i < sources,
        step matches WorkerStep::Mapping(j) ==> j < maps,
    ensures
        r == step_after(step, s, sources as nat, maps as nat),
{
    match step {
        WorkerStep::Source(i) => {
            if event_is_cancelled(&s) {
                WorkerStep::Stop(WorkerReport { status: ABORTED, error: None })
            } else if i + 1 < sources {
                WorkerStep::Source(i + 1)
            } else if 0 < maps {
                WorkerStep::Mapping(0)
            } else {
                WorkerStep::Call
            }
        },
        WorkerStep::Mapping(j) => {
            match s {
                Ok(code) => if code < 0 {
                    WorkerStep::Stop(
                        WorkerReport { status: ABORTED, error: Some(Error::OpenCl(code)) },
                    )
                } else if j + 1 < maps {
                    WorkerStep::Mapping(j + 1)
                } else {
                    WorkerStep::Call
                },
                Err(_) => if j + 1 < maps {
                    WorkerStep::Mapping(j + 1)
                } else {
                    WorkerStep::Call
                },
            }
        },
        other => other,
    }
}

/// A worker run over the statuses of its events, from its place `i` in the
/// value's list and `j` in the maps'.
pub open spec fn worker_run(
    step: WorkerStep,
    source_status: Seq<EventStatus>,
    map_status: Seq<EventStatus>,
    fuel: nat,
) -> WorkerStep
    decreases fuel,
{
    if fuel == 0 {
        step
    } else {
        match step {
            WorkerStep::Source(i) => worker_run(
                step_after(step, source_status[i as int], source_status.len(), map_status.len()),
                source_status,
                map_status,
                (fuel - 1) as nat,
            ),
            WorkerStep::Mapping(j) => worker_run(
                step_after(step, map_status[j as int], source_status.len(), map_status.len()),
                source_status,
                map_status,
                (fuel - 1) as nat,
            ),
            other => other,
        }
    }
}

/// What a worker comes to: a cancelled event of the value stops it silently;
/// else the first cancelled mapping stops it with that status; else it calls the
/// closure.
pub open spec fn worker_verdict(source_status: Seq<EventStatus>, map_status: Seq<EventStatus>) -> WorkerStep {
    if exists|i: int| 0 <= i < source_status.len() && cancelled(#[trigger] source_status[i]) {
        WorkerStep::Stop(WorkerReport { status: ABORTED, error: None })
    } else {
        first_bad_map(map_status, 0)
    }
}

/// The first cancelled mapping from index `j` on, or the call of the closure.
pub open spec fn first_bad_map(map_status: Seq<EventStatus>, j: nat) -> WorkerStep
    decreases map_status.len() - j,
{
    if j >= map_status.len() {
        WorkerStep::Call
    } else if cancelled(map_status[j as int]) {
        WorkerStep::Stop(
            WorkerReport { status: ABORTED, error: Some(Error::OpenCl(map_status[j as int]->Ok_0)) },
        )
    } else {
        first_bad_map(map_status, j + 1)
    }
}

proof fn lemma_worker_maps(source_status: Seq<EventStatus>, map_status: Seq<EventStatus>, j: nat, fuel: nat)
    requires
        j <= map_status.len(),
        fuel > map_status.len() - j,
        source_status.len() <= usize::MAX,
        map_status.len() <= usize::MAX,
    ensures
        worker_run(
            step_at(source_status.len(), source_status.len(), j, map_status.len()),
            source_status,
            map_status,
            fuel,
        ) == first_bad_map(map_status, j),
    decreases map_status.len() - j,
{
    if j < map_status.len() {
        if !cancelled(map_status[j as int]) {
            lemma_worker_maps(source_status, map_status, j + 1, (fuel - 1) as nat);
        } else {
            reveal_with_fuel(worker_run, 2);
        }
    }
}

proof fn lemma_worker_sources(source_status: Seq<EventStatus>, map_status: Seq<EventStatus>, i: nat, fuel: nat)
    requires
        i <= source_status.len(),
        fuel > source_status.len() - i + map_status.len(),
        source_status.len() <= usize::MAX,
        map_status.len() <= usize::MAX,
        forall|k: int| 0 <= k < i ==> !cancelled(#[trigger] source_status[k]),
    ensures
        worker_run(
            step_at(i, source_status.len(), 0, map_status.len()),
            source_status,
            map_status,
            fuel,
        ) == worker_verdict(source_status, map_status),
    decreases source_status.len() - i,
{
    if i < source_status.len() {
        if !cancelled(source_status[i as int]) {
            lemma_worker_sources(source_status, map_status, i + 1, (fuel - 1) as nat);
        } else {
            reveal_with_fuel(worker_run, 2);
        }
    } else {
        lemma_worker_maps(source_status, map_status, 0, fuel);
    }
}

/// A worker that steps through its events comes to the verdict on their
/// statuses.
pub proof fn law_worker_reaches_verdict(source_status: Seq<EventStatus>, map_status: Seq<EventStatus>)
    requires
        source_status.len() <= usize::MAX,
        map_status.len() <= usize::MAX,
    ensures
        worker_run(
            step_at(0, source_status.len(), 0, map_status.len()),
            source_status,
            map_status,
            source_status.len() + map_status.len() + 1,
        ) == worker_verdict(source_status, map_status),
{
    lemma_worker_sources(
        source_status,
        map_status,
        0,
        source_status.len() + map_status.len() + 1,
    );
}

/// The commands with which a worker ends, in order: the unmaps are always
/// released, and what comes after gets the worker's status.
pub open spec fn worker_end(fire: u64, proceed: u64, status: i32) -> Seq<Command> {
    seq![
        Command::Complete { event: fire, status: CL_COMPLETE },
        Command::Complete { event: proceed, status },
    ]
}

/// The commands with which a worker ends, in order.
pub fn worker_end_commands(fire: u64, proceed: u64, status: i32) -> (r: Vec<Command>)
    ensures
        r@ == worker_end(fire, proceed, status),
{
    let mut v: Vec<Command> = Vec::new();
    v.push(Command::Complete { event: fire, status: CL_COMPLETE });
    v.push(Command::Complete { event: proceed, status });
    assert(v@ =~= worker_end(fire, proceed, status));
    v
}

/// The error of a run that its host closures share: the first one stays.
pub struct HostErrorSlot {
    slot: Option<Error>,
}

impl View for HostErrorSlot {
    type V = Option<Error>;

    closed spec fn view(&self) -> Option<Error> {
        self.slot
    }
}

impl HostErrorSlot {
    /// No error.
    pub fn new() -> (r: HostErrorSlot)
        ensures
            r@ is None,
    {
        HostErrorSlot { slot: None }
    }

    /// Offer an error; it is dropped if there is one already.
    pub fn offer(&mut self, e: Error)
        ensures
            final(self)@ == (match old(self)@ {
                Some(first) => Some(first),
                None => Some(e),
            }),
    {
        if self.slot.is_none() {
            self.slot = Some(e);
        }
    }

    /// Take the error.
    pub fn take(&mut self) -> (r: Option<Error>)
        ensures
            r == old(self)@,
            final(self)@ is None,
    {
        self.slot.take()
    }
}

} // verus!
