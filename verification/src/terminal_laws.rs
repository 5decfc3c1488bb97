//! What holds of the ways to run a graph to its end: everything is waited for, every value
//! is handed out or goes back home, and a failure leaves nothing behind.

use crate::chain::{
    chain_enqueued, chain_failed, chain_flushed, chain_held, chain_marked, chain_starts, forgets_queue, joins, joins_from,
    preferred, releases, starts_as, winds_down, ChainStart, DeviceChainFuture,
};
use crate::error::{Error, OpResult};
use crate::exec_ctx::{kept, ExecMode, Walk};
use crate::graph::{reclaim_of, ready_of, seam_of, DeviceOp};
use crate::graph_laws::{joined, values_out};
use crate::host::CL_COMPLETE;
use crate::input::Input;
use crate::leaves::{buf_ctx, svm_ctx};
use crate::obj::{Class, Command, Home, MemRef, Obj, Reply};
use crate::seam_laws::did;
use crate::slots::SlotState;
use crate::store::{ParcelView, World};
use crate::terminals::{
    cleared, frees_from, here, image_ctx, severed_from, submit_runs, submits, sync_ends, sync_fails, sync_held,
    sync_marked, sync_mode, sync_waited, syncs, values_from, waits,
};
use crate::walk::{collects_of, dropped_from, join_runs, node_gathers, passes, CheckoutView, GatheredView};
use vstd::prelude::*;

verus! {

proof fn lemma_joins_each(workers: Seq<u64>, i: nat, pre: Walk, post: Walk)
    requires
        i <= workers.len(),
        joins_from(workers, i, pre, post),
    ensures
        post == (Walk { trace: post.trace, ..pre }),
        post.trace.len() == pre.trace.len() + (workers.len() - i),
        forall|k: int| 0 <= k < pre.trace.len() ==> pre.trace[k] == #[trigger] post.trace[k],
        forall|k: int|
            i <= k < workers.len() ==> post.trace[pre.trace.len() + (k - i)].command == (Command::Join {
                worker: #[trigger] workers[k],
            }),
    decreases workers.len() - i,
{
    if i < workers.len() {
        let x = choose|x: Reply|
            joins_from(
                workers,
                i + 1,
                #[trigger] pre.issued(Command::Join { worker: workers[i as int] }, Seq::empty(), x),
                post,
            );
        let s = pre.issued(Command::Join { worker: workers[i as int] }, Seq::empty(), x);
        lemma_joins_each(workers, i + 1, s, post);
        assert forall|k: int| 0 <= k < pre.trace.len() implies pre.trace[k] == #[trigger] post.trace[k] by {
            assert(s.trace[k] == post.trace[k]);
        }
        assert forall|k: int| i <= k < workers.len() implies post.trace[pre.trace.len() + (k - i)].command == (
        Command::Join { worker: #[trigger] workers[k] }) by {
            if k == i {
                assert(s.trace[pre.trace.len() as int] == post.trace[pre.trace.len() as int]);
            } else {
                assert(pre.trace.len() + (k - i) == s.trace.len() + (k - (i + 1)));
            }
        }
    }
}

/// At the end of a run every host worker is waited for, in the order in which they were
/// started, and none is left.
pub proof fn law_every_worker_is_joined(pre: Walk, post: Walk)
    requires
        joins(pre, post),
    ensures
        post.workers.len() == 0,
        post.w == pre.w,
        post.host_reads == pre.host_reads,
        post.device == pre.device,
        post.trace.len() == pre.trace.len() + pre.workers.len(),
        forall|k: int| 0 <= k < pre.trace.len() ==> pre.trace[k] == #[trigger] post.trace[k],
        forall|k: int|
            0 <= k < pre.workers.len() ==> post.trace[pre.trace.len() + k].command == (Command::Join {
                worker: #[trigger] pre.workers[k],
            }),
{
    lemma_joins_each(pre.workers, 0, Walk { workers: Seq::empty(), ..pre }, post);
    assert forall|k: int| 0 <= k < pre.workers.len() implies post.trace[pre.trace.len() + k].command == (
    Command::Join { worker: #[trigger] pre.workers[k] }) by {
        assert(pre.trace.len() + (k - 0) == pre.trace.len() + k);
    }
}

proof fn lemma_released(pre: Walk, post: Walk)
    requires
        releases(pre, post),
    ensures
        post == (Walk { trace: post.trace, ..pre }),
        pre.start is None ==> post == pre,
        pre.start matches Some(ev) ==> post.trace.len() == pre.trace.len() + 1 && post.trace.last().command == (
        Command::Complete { event: ev, status: CL_COMPLETE }),
        post.trace.len() >= pre.trace.len(),
        forall|k: int| 0 <= k < pre.trace.len() ==> pre.trace[k] == #[trigger] post.trace[k],
{
}

/// Whether a run looked for the error of a host closure once it was over, and found this.
pub open spec fn heard(pre: Walk, post: Walk, host: Option<Error>) -> bool {
    post.host_reads.len() == pre.host_reads.len() + 1 && post.host_reads.last() == host
}

/// A graph that was waited for well: its outputs are those that were gathered. Behind all
/// their events a marker was set; where the graph holds a host closure, the barrier was
/// opened behind that; then the marker was waited on, without an error; then every worker
/// was waited for, and no closure had failed.
pub proof fn law_sync_waits_for_its_outputs(
    op: DeviceOp,
    pre: Walk,
    post: Walk,
    outs: Seq<CheckoutView>,
) -> (r: (Walk, Walk, GatheredView, u64))
    requires
        syncs(op, pre, post, Ok(outs)),
    ensures
        ({
            let (start, m, g, marker) = r;
            let at = m.trace.len() as int;
            let held: int = if seam_of(op) {
                1
            } else {
                0
            };
            let n = m.workers.len() as int;
            &&& ready_of(op, pre.w) is Ok
            &&& start.w == pre.w
            &&& start.trace.len() == pre.trace.len() + held
            &&& seam_of(op) ==> (start.start matches Some(ev) && did(start, pre.trace.len() as int, Command::UserEvent, Seq::empty(), ev))
            &&& !seam_of(op) ==> start.start is None
            &&& node_gathers(
                op,
                start,
                m,
                if seam_of(op) {
                    ExecMode::Pipelined
                } else {
                    ExecMode::Blocking
                },
                Ok(g),
            )
            &&& outs == g.outs
            &&& post.trace.len() == at + 1 + held + 1 + n
            &&& did(post, at, Command::Marker, g.deps, marker)
            &&& seam_of(op) ==> post.trace[at + 1].command == (Command::Complete {
                event: start.start->Some_0,
                status: CL_COMPLETE,
            })
            &&& post.trace[at + 1 + held].command == (Command::Wait { event: marker })
            &&& post.trace[at + 1 + held].reply is Ok
            &&& forall|k: int|
                0 <= k < n ==> post.trace[at + 2 + held + k].command == (Command::Join { worker: #[trigger] m.workers[k] })
            &&& post.workers.len() == 0
            &&& heard(m, post, None)
            &&& post.w == reclaim_of(op, m.w)
        }),
{
    let res = Ok::<Seq<CheckoutView>, Error>(outs);
    let start = lemma_sync_start(op, pre, post, outs);
    let (m, h) = choose|m: Walk, h: OpResult<GatheredView>|
        #[trigger] passes(m, h) && kept(start, m) && node_gathers(op, start, m, sync_mode(op), h) && match h {
            Err(e) => sync_fails(op, m, Seq::empty(), e, post, res),
            Ok(g) => sync_marked(op, g, m, post, res),
        };
    let g = h->Ok_0;
    let (s, j) = choose|s: Walk, j: OpResult<u64>|
        #[trigger] passes(s, j) && join_runs(g.deps, m, s, j) && match j {
            Err(e) => sync_fails(op, s, g.outs, e, post, res),
            Ok(marker) => sync_waited(op, g, marker, s, post, res),
        };
    let marker = j->Ok_0;
    let (m1, q, m2, host) = choose|m1: Walk, q: Reply, m2: Walk, host: Option<Error>|
        {
            &&& #[trigger] passes(m1, (q, m2, host))
            &&& releases(s, m1)
            &&& joins(m1.issued(Command::Wait { event: marker }, Seq::empty(), q), m2)
            &&& sync_ends(op, g, q, m2, host, post, res)
        };
    let t = m1.issued(Command::Wait { event: marker }, Seq::empty(), q);
    lemma_released(s, m1);
    law_every_worker_is_joined(t, m2);
    let at = m.trace.len() as int;
    assert(s.trace[at].command is Marker);
    assert(m1.trace[at] == s.trace[at]);
    assert(t.trace[at] == s.trace[at]);
    assert(post.trace[at] == t.trace[at]);
    if seam_of(op) {
        assert(t.trace[at + 1] == m1.trace[at + 1]);
        assert(post.trace[at + 1] == t.trace[at + 1]);
        assert(post.trace[at + 2] == t.trace[at + 2]);
    } else {
        assert(post.trace[at + 1] == t.trace[at + 1]);
    }
    assert(m2.workers.len() == 0);
    (start, m, g, marker)
}

proof fn lemma_sync_start(op: DeviceOp, pre: Walk, post: Walk, outs: Seq<CheckoutView>) -> (start: Walk)
    requires
        syncs(op, pre, post, Ok(outs)),
    ensures
        ready_of(op, pre.w) is Ok,
        start.w == pre.w,
        seam_of(op) ==> start.trace.len() == pre.trace.len() + 1 && (start.start matches Some(ev) && did(
            start,
            pre.trace.len() as int,
            Command::UserEvent,
            Seq::empty(),
            ev,
        )),
        !seam_of(op) ==> start.start is None && start.trace == pre.trace,
        sync_held(op, start, post, Ok(outs)),
{
    let res = Ok::<Seq<CheckoutView>, Error>(outs);
    if seam_of(op) {
        let q = choose|q: Reply|
            {
                let s = #[trigger] pre.issued(Command::UserEvent, Seq::empty(), q);
                match q {
                    Err(c) => post == s && res == Err::<Seq<CheckoutView>, Error>(Error::OpenCl(c)),
                    Ok(ev) => sync_held(op, Walk { start: Some(ev), ..s }, post, res),
                }
            };
        let s = pre.issued(Command::UserEvent, Seq::empty(), q);
        Walk { start: Some(q->Ok_0), ..s }
    } else {
        Walk { start: None, ..pre }
    }
}

/// Where a host closure failed, its error is the answer of a run that is waited for,
/// whatever else went wrong.
pub proof fn law_host_error_comes_first(
    op: DeviceOp,
    pre: Walk,
    post: Walk,
    res: OpResult<Seq<CheckoutView>>,
    h: Error,
)
    requires
        syncs(op, pre, post, res),
        heard(pre, post, Some(h)),
    ensures
        res == Err::<Seq<CheckoutView>, Error>(h),
{
    let start = if seam_of(op) {
        let q = choose|q: Reply|
            {
                let s = #[trigger] pre.issued(Command::UserEvent, Seq::empty(), q);
                match q {
                    Err(c) => post == s && res == Err::<Seq<CheckoutView>, Error>(Error::OpenCl(c)),
                    Ok(ev) => sync_held(op, Walk { start: Some(ev), ..s }, post, res),
                }
            };
        Walk { start: Some(q->Ok_0), ..pre.issued(Command::UserEvent, Seq::empty(), q) }
    } else {
        Walk { start: None, ..pre }
    };
    let (m, g) = choose|m: Walk, h: OpResult<GatheredView>|
        #[trigger] passes(m, h) && kept(start, m) && node_gathers(op, start, m, sync_mode(op), h) && match h {
            Err(e) => sync_fails(op, m, Seq::empty(), e, post, res),
            Ok(g) => sync_marked(op, g, m, post, res),
        };
}

/// The answer of a run that is waited for, where no host closure failed, is the error that
/// the run met: that of the wait, once there was one to wait on.
pub proof fn law_wait_error_is_the_answer(
    op: DeviceOp,
    g: GatheredView,
    marker: u64,
    s: Walk,
    post: Walk,
    res: OpResult<Seq<CheckoutView>>,
)
    requires
        sync_waited(op, g, marker, s, post, res),
        heard(s, post, None),
    ensures
        ({
            let at: int = if s.start is Some {
                s.trace.len() as int + 1
            } else {
                s.trace.len() as int
            };
            &&& post.trace[at].command == (Command::Wait { event: marker })
            &&& post.trace[at].reply matches Err(c) ==> res == Err::<Seq<CheckoutView>, Error>(Error::OpenCl(c))
            &&& post.trace[at].reply is Ok ==> res == Ok::<Seq<CheckoutView>, Error>(g.outs)
        }),
{
    let (m1, q, m2, host) = choose|m1: Walk, q: Reply, m2: Walk, host: Option<Error>|
        {
            &&& #[trigger] passes(m1, (q, m2, host))
            &&& releases(s, m1)
            &&& joins(m1.issued(Command::Wait { event: marker }, Seq::empty(), q), m2)
            &&& sync_ends(op, g, q, m2, host, post, res)
        };
    let t = m1.issued(Command::Wait { event: marker }, Seq::empty(), q);
    lemma_released(s, m1);
    law_every_worker_is_joined(t, m2);
    let at: int = if s.start is Some {
        s.trace.len() as int + 1
    } else {
        s.trace.len() as int
    };
    assert(t.trace[at] == post.trace[at]);
}

proof fn lemma_values_in_order(outs: Seq<CheckoutView>, i: nat)
    requires
        i <= outs.len(),
    ensures
        values_from(outs, i) == values_out(outs.skip(i as int)),
    decreases outs.len() - i,
{
    let rest = outs.skip(i as int).map_values(|c: CheckoutView| c.value);
    if i < outs.len() {
        lemma_values_in_order(outs, i + 1);
        assert(rest.drop_first() =~= outs.skip((i + 1) as int).map_values(|c: CheckoutView| c.value));
        assert(rest.first() == outs[i as int].value);
    } else {
        assert(rest =~= Seq::empty());
    }
}

proof fn lemma_severs_each(outs: Seq<CheckoutView>, i: nat, w: World)
    requires
        i <= outs.len(),
    ensures
        severed_from(outs, i, w) == (World { slots: severed_from(outs, i, w).slots, ..w }),
        forall|c: u64| #[trigger] w.slot(c) is Severed ==> severed_from(outs, i, w).slot(c) is Severed,
        forall|k: int|
            i <= k < outs.len() && (#[trigger] outs[k]).home is Some && outs[k].home->Some_0 is Slot ==> severed_from(
                outs,
                i,
                w,
            ).slot(outs[k].home->Some_0->Slot_0) is Severed,
        forall|c: u64|
            (forall|k: int| i <= k < outs.len() ==> (#[trigger] outs[k]).home != Some(Home::Slot(c))) ==> #[trigger] severed_from(
                outs,
                i,
                w,
            ).slot(c) == w.slot(c),
    decreases outs.len() - i,
{
    if i < outs.len() {
        let w1 = w.severed(outs[i as int].home);
        lemma_severs_each(outs, i + 1, w1);
        assert forall|c: u64| #[trigger] w.slot(c) is Severed implies severed_from(outs, i, w).slot(c) is Severed by {
            assert(w1.slot(c) is Severed);
        }
        assert forall|k: int|
            i <= k < outs.len() && (#[trigger] outs[k]).home is Some && outs[k].home->Some_0 is Slot implies severed_from(
            outs,
            i,
            w,
        ).slot(outs[k].home->Some_0->Slot_0) is Severed by {
            if k == i {
                assert(w1.slot(outs[k].home->Some_0->Slot_0) is Severed);
            }
        }
        assert forall|c: u64|
            (forall|k: int| i <= k < outs.len() ==> (#[trigger] outs[k]).home != Some(Home::Slot(c))) implies #[trigger] severed_from(
            outs,
            i,
            w,
        ).slot(c) == w.slot(c) by {
            assert(outs[i as int].home != Some(Home::Slot(c)));
            assert(severed_from(outs, i + 1, w1).slot(c) == w1.slot(c));
        }
    }
}

/// Values that are waited for are taken for good: all values of all outputs come out, in
/// order; a slot that one of them came from does not expect it back, and all else is as the
/// wait left it.
pub proof fn law_waited_values_are_taken_for_good(op: DeviceOp, pre: Walk, post: Walk, v: Vec<Obj>) -> (r: (
    Walk,
    Seq<CheckoutView>,
))
    requires
        waits(op, pre, post, Ok(v)),
    ensures
        ({
            let (m, outs) = r;
            &&& syncs(op, pre, m, Ok(outs))
            &&& v@ == values_out(outs)
            &&& post.trace == m.trace
            &&& post.w == (World { slots: post.w.slots, ..m.w })
            &&& forall|k: int|
                0 <= k < outs.len() && (#[trigger] outs[k]).home is Some && outs[k].home->Some_0 is Slot
                    ==> post.w.slot(outs[k].home->Some_0->Slot_0) is Severed
            &&& forall|c: u64|
                (forall|k: int| 0 <= k < outs.len() ==> (#[trigger] outs[k]).home != Some(Home::Slot(c)))
                    ==> #[trigger] post.w.slot(c) == m.w.slot(c)
        }),
{
    let res = Ok::<Vec<Obj>, Error>(v);
    let (m, h) = choose|m: Walk, r: OpResult<Seq<CheckoutView>>|
        #[trigger] passes(m, r) && syncs(op, pre, m, r) && match r {
            Err(e) => post == m && res == Err::<Vec<Obj>, Error>(e),
            Ok(outs) => post == m.at(severed_from(outs, 0, m.w)) && (res matches Ok(v) && v@ == values_from(outs, 0)),
        };
    let outs = h->Ok_0;
    lemma_values_in_order(outs, 0);
    assert(outs.skip(0) =~= outs);
    lemma_severs_each(outs, 0, m.w);
    (m, outs)
}

/// A single value goes back to where it came from: to its cell or its slot as it is, and to
/// the cell of memory that was handed out as unwritten as unwritten memory again. A value
/// without a home, and a list of values, go nowhere.
pub proof fn law_value_goes_back_home(w: World, o: Obj, value: Seq<Obj>, home: Option<Home>, c: u64)
    ensures
        w.rehomed(Some(Home::Cell(c)), seq![o]).held(c) == Some(o),
        w.rehomed(Some(Home::Slot(c)), seq![o]).slot(c) == SlotState::Bound(o),
        w.rehomed(Some(Home::Downgrade(c)), seq![o]).held(c) matches Some(d) && d.id == o.id && d.len == o.len
            && d.bytes == o.bytes && d.class == (match o.class {
            Class::Device => Class::DeviceUninit,
            Class::Mapped => Class::MappedUninit,
            Class::Usm => Class::UsmUninit,
            k => k,
        }),
        w.rehomed(None, value) == w,
        value.len() != 1 ==> w.rehomed(home, value) == w,
        w.rehomed(home, value).pipes == w.pipes,
        w.rehomed(home, value).caches == w.caches,
{
}

proof fn lemma_dropped_keeps(outs: Seq<CheckoutView>, i: nat, w: World, c: u64)
    requires
        i <= outs.len(),
    ensures
        (forall|k: int|
            i <= k < outs.len() ==> (#[trigger] outs[k]).home != Some(Home::Cell(c)) && outs[k].home != Some(
                Home::Downgrade(c),
            )) ==> dropped_from(outs, i, w).held(c) == w.held(c),
        (forall|k: int| i <= k < outs.len() ==> (#[trigger] outs[k]).home != Some(Home::Slot(c))) ==> dropped_from(
            outs,
            i,
            w,
        ).slot(c) == w.slot(c),
    decreases outs.len() - i,
{
    if i < outs.len() {
        lemma_dropped_keeps(outs, i + 1, w.rehomed(outs[i as int].home, outs[i as int].value), c);
    }
}

/// Outputs that are dropped go back home, every one: where no later output has the same
/// home, the cell or the slot holds the value again.
pub proof fn law_dropped_outputs_go_home(outs: Seq<CheckoutView>, i: nat, w: World, k: int, c: u64)
    requires
        i <= k < outs.len(),
        outs[k].value.len() == 1,
    ensures
        outs[k].home == Some(Home::Cell(c)) && (forall|j: int|
            k < j < outs.len() ==> (#[trigger] outs[j]).home != Some(Home::Cell(c)) && outs[j].home != Some(
                Home::Downgrade(c),
            )) ==> dropped_from(outs, i, w).held(c) == Some(outs[k].value[0]),
        outs[k].home == Some(Home::Slot(c)) && (forall|j: int|
            k < j < outs.len() ==> (#[trigger] outs[j]).home != Some(Home::Slot(c))) ==> dropped_from(outs, i, w).slot(c)
            == SlotState::Bound(outs[k].value[0]),
    decreases outs.len() - i,
{
    let w1 = w.rehomed(outs[i as int].home, outs[i as int].value);
    if k > i {
        law_dropped_outputs_go_home(outs, i + 1, w1, k, c);
    } else {
        lemma_dropped_keeps(outs, i + 1, w1, c);
    }
}

/// A value that is left in flight: a queue of the run's device is asked for, the value is
/// that of the op run on that queue, and the event handed out is that of a marker behind all
/// events of the value.
pub proof fn law_submitted_value_is_behind_its_event(
    op: DeviceOp,
    pre: Walk,
    post: Walk,
    v: Seq<Obj>,
    ev: u64,
) -> (r: (Walk, Walk, ParcelView))
    requires
        submits(op, pre, post, Ok((v, ev))),
    ensures
        ({
            let (s, m, p) = r;
            &&& s.trace.len() == pre.trace.len() + 1
            &&& did(s, pre.trace.len() as int, Command::Queue { device: pre.device }, Seq::empty(), s.queue)
            &&& s.w == pre.w
            &&& collects_of(op, s, m, ExecMode::Pipelined, Ok(p))
            &&& v == p.value
            &&& post.trace.len() == m.trace.len() + 1
            &&& joined(post, p.deps, ev)
            &&& post.w == m.w
        }),
{
    let res = Ok::<(Seq<Obj>, u64), Error>((v, ev));
    let q = choose|q: Reply|
        {
            let s = #[trigger] pre.issued(Command::Queue { device: pre.device }, Seq::empty(), q);
            match q {
                Err(c) => post == s && res == Err::<(Seq<Obj>, u64), Error>(Error::OpenCl(c)),
                Ok(queue) => submit_runs(op, Walk { queue, ..s }, post, res),
            }
        };
    let s = Walk { queue: q->Ok_0, ..pre.issued(Command::Queue { device: pre.device }, Seq::empty(), q) };
    let (m, h) = choose|m: Walk, h: OpResult<ParcelView>|
        #[trigger] passes(m, h) && kept(s, m) && collects_of(op, s, m, ExecMode::Pipelined, h) && match h {
            Err(e) => post == m && res == Err::<(Seq<Obj>, u64), Error>(e),
            Ok(p) => exists|j: OpResult<u64>|
                #[trigger] passes(m, j) && join_runs(p.deps, m, post, j) && res == (match j {
                    Err(e) => Err::<(Seq<Obj>, u64), Error>(e),
                    Ok(ev) => Ok((p.value, ev)),
                }),
        };
    let p = h->Ok_0;
    let j = choose|j: OpResult<u64>|
        #[trigger] passes(m, j) && join_runs(p.deps, m, post, j) && res == (match j {
            Err(e) => Err::<(Seq<Obj>, u64), Error>(e),
            Ok(ev) => Ok((p.value, ev)),
        });
    (s, m, p)
}

proof fn lemma_chain_started(op: DeviceOp, pre: Walk, post: Walk, output: Seq<Obj>, event: u64) -> (s: Walk)
    requires
        chain_starts(op, pre, post, ChainStart::Running { output, event }),
    ensures
        ready_of(op, pre.w) is Ok,
        s.w == pre.w,
        s.trace.len() >= pre.trace.len() + 1,
        did(s, pre.trace.len() as int, Command::Queue { device: pre.device }, Seq::empty(), s.queue),
        chain_enqueued(op, s, post, ChainStart::Running { output, event }),
        !seam_of(op) ==> s.start is None && s.trace.len() == pre.trace.len() + 1,
        seam_of(op) ==> s.trace.len() == pre.trace.len() + 2 && (s.start matches Some(ev) && did(
            s,
            pre.trace.len() as int + 1,
            Command::UserEvent,
            Seq::empty(),
            ev,
        )),
{
    let res = ChainStart::Running { output, event };
    let q = choose|q: Reply|
        {
            let s = #[trigger] pre.issued(Command::Queue { device: pre.device }, Seq::empty(), q);
            match q {
                Err(c) => post == s && res == ChainStart::Errored(Error::OpenCl(c)),
                Ok(queue) => chain_held(op, Walk { queue, ..s }, post, res),
            }
        };
    let s = Walk { queue: q->Ok_0, ..pre.issued(Command::Queue { device: pre.device }, Seq::empty(), q) };
    if seam_of(op) {
        let u = choose|u: Reply|
            {
                let t = #[trigger] s.issued(Command::UserEvent, Seq::empty(), u);
                match u {
                    Err(c) => forgets_queue(t, post) && res == ChainStart::Errored(Error::OpenCl(c)),
                    Ok(ev) => chain_enqueued(op, Walk { start: Some(ev), ..t }, post, res),
                }
            };
        let t = s.issued(Command::UserEvent, Seq::empty(), u);
        assert(t.trace[pre.trace.len() as int] == s.trace[pre.trace.len() as int]);
        Walk { start: Some(u->Ok_0), ..t }
    } else {
        Walk { start: None, ..s }
    }
}

/// A graph that was started: a queue of the run's device was asked for, the output is the
/// value of the op enqueued on that queue, the event handed out is that of a marker behind
/// all events of the value, and what was enqueued was flushed. A graph with a host closure
/// is enqueued behind a start barrier, and no other is.
pub proof fn law_started_graph_ends_in_its_event(
    op: DeviceOp,
    pre: Walk,
    post: Walk,
    output: Seq<Obj>,
    event: u64,
) -> (r: (Walk, Walk, ParcelView))
    requires
        chain_starts(op, pre, post, ChainStart::Running { output, event }),
    ensures
        ({
            let (s, m, p) = r;
            &&& s.w == pre.w
            &&& ready_of(op, pre.w) is Ok
            &&& did(s, pre.trace.len() as int, Command::Queue { device: pre.device }, Seq::empty(), s.queue)
            &&& !seam_of(op) ==> s.start is None && s.trace.len() == pre.trace.len() + 1
            &&& seam_of(op) ==> s.trace.len() == pre.trace.len() + 2 && (s.start matches Some(ev) && did(
                s,
                pre.trace.len() as int + 1,
                Command::UserEvent,
                Seq::empty(),
                ev,
            ))
            &&& collects_of(op, s, m, ExecMode::Pipelined, Ok(p))
            &&& output == p.value
            &&& did(post, m.trace.len() as int, Command::Marker, p.deps, event)
            &&& post.trace.last().command is Flush
            &&& post.trace.last().reply is Ok
            &&& post.w == m.w
            &&& post.workers == m.workers
        }),
{
    let res = ChainStart::Running { output, event };
    let s = lemma_chain_started(op, pre, post, output, event);
    let (m, h) = choose|m: Walk, h: OpResult<ParcelView>|
        #[trigger] passes(m, h) && kept(s, m) && collects_of(op, s, m, ExecMode::Pipelined, h) && match h {
            Err(e) => chain_failed(m, e, post, res),
            Ok(p) => chain_marked(p, m, post, res),
        };
    let p = h->Ok_0;
    let q = choose|q: Reply|
        {
            let s = #[trigger] m.issued(Command::Marker, p.deps, q);
            match q {
                Err(c) => exists|m1: Walk|
                    #[trigger] passes(m1, ()) && releases(s, m1) && winds_down(m1, post) && res
                        == ChainStart::Errored(Error::OpenCl(c)),
                Ok(marker) => exists|m1: Walk|
                    #[trigger] passes(m1, ()) && releases(s, m1) && chain_flushed(p, marker, m1, post, res),
            }
        };
    let t = m.issued(Command::Marker, p.deps, q);
    let marker = q->Ok_0;
    let m1 = choose|m1: Walk| #[trigger] passes(m1, ()) && releases(t, m1) && chain_flushed(p, marker, m1, post, res);
    lemma_released(t, m1);
    let f = choose|f: Reply|
        {
            let u = #[trigger] m1.issued(Command::Flush, Seq::empty(), f);
            match f {
                Err(c) => winds_down(u, post) && res == ChainStart::Errored(Error::OpenCl(c)),
                Ok(_) => post == u && res == (ChainStart::Running { output: p.value, event: marker }),
            }
        };
    assert(post == m1.issued(Command::Flush, Seq::empty(), f));
    assert(post.trace[m.trace.len() as int] == m1.trace[m.trace.len() as int]);
    assert(m1.trace[m.trace.len() as int] == t.trace[m.trace.len() as int]);
    (s, m, p)
}

/// Letting go of values: each memory object among them that nothing else refers to is
/// released, in order, and nothing else is. Shared memory is released behind the launches
/// that use it.
pub proof fn law_owned_memory_is_released(value: Seq<Obj>, i: nat, pre: Walk, post: Walk)
    requires
        i <= value.len(),
        frees_from(value, i, pre, post),
        forall|a: int, b: int|
            i <= a < b < value.len() && owns(value[a]) && owns(value[b]) ==> (#[trigger] value[a]).mem_spec() != (
            #[trigger] value[b]).mem_spec(),
    ensures
        ({
            let owned = value.skip(i as int).filter(|o: Obj| owns(o));
            &&& post.trace.len() == pre.trace.len() + owned.len()
            &&& forall|k: int| 0 <= k < pre.trace.len() ==> pre.trace[k] == #[trigger] post.trace[k]
            &&& forall|k: int|
                0 <= k < owned.len() ==> {
                    let x = post.trace[pre.trace.len() + k];
                    let m = (#[trigger] owned[k]).mem_spec();
                    &&& x.command == (Command::Release { mem: m })
                    &&& m matches MemRef::Svm(p) ==> x.waits == pre.w.used_until(p)
                }
        }),
    decreases value.len() - i,
{
    let pred = |o: Obj| owns(o);
    let owned = value.skip(i as int).filter(pred);
    if i < value.len() {
        let o = value[i as int];
        let head = seq![o];
        let tail = value.skip((i + 1) as int);
        let rest = tail.filter(pred);
        assert(value.skip(i as int) =~= head + tail);
        Seq::filter_distributes_over_add(head, tail, pred);
        reveal_with_fuel(Seq::filter, 2);
        assert(head.drop_last() =~= Seq::empty());
        if owns(o) {
            assert(head.filter(pred) =~= head);
            let m = o.mem_spec();
            let x = choose|x: Reply|
                {
                    let s = #[trigger] pre.issued(Command::Release { mem: m }, pre.w.busy_until(m), x);
                    frees_from(value, i + 1, s.at(s.w.settled(m)), post)
                };
            let s = pre.issued(Command::Release { mem: m }, pre.w.busy_until(m), x);
            let t = s.at(s.w.settled(m));
            law_owned_memory_is_released(value, i + 1, t, post);
            assert(owned =~= head + rest);
            assert forall|k: int| 0 <= k < pre.trace.len() implies pre.trace[k] == #[trigger] post.trace[k] by {
                assert(t.trace[k] == post.trace[k]);
            }
            assert forall|k: int| 0 <= k < owned.len() implies {
                let x = post.trace[pre.trace.len() + k];
                let m = (#[trigger] owned[k]).mem_spec();
                &&& x.command == (Command::Release { mem: m })
                &&& m matches MemRef::Svm(p) ==> x.waits == pre.w.used_until(p)
            } by {
                if k == 0 {
                    assert(t.trace[pre.trace.len() as int] == post.trace[pre.trace.len() as int]);
                } else {
                    assert(owned[k] == rest[k - 1]);
                    assert(pre.trace.len() + k == t.trace.len() + (k - 1));
                    assert(rest.contains(rest[k - 1]));
                    tail.lemma_filter_contains_rev(pred, rest[k - 1]);
                    let j = tail.index_of(rest[k - 1]);
                    assert(tail.contains(rest[k - 1]));
                    assert(value[i + 1 + j] == rest[k - 1]);
                    assert(value[i as int].mem_spec() != value[i + 1 + j].mem_spec());
                }
            }
        } else {
            assert(head.filter(pred) =~= Seq::empty());
            law_owned_memory_is_released(value, i + 1, pre, post);
            assert(owned =~= rest);
        }
    } else {
        assert(value.skip(i as int) =~= Seq::empty());
        reveal_with_fuel(Seq::filter, 1);
    }
}

/// Whether an object is memory of its own: not a shared handle, not a view, and neither
/// host memory nor plain data.
pub open spec fn owns(o: Obj) -> bool {
    &&& !o.shared
    &&& o.class != Class::DeviceView
    &&& o.class != Class::MappedView
    &&& o.class != Class::Host
    &&& o.class != Class::Plain
}

/// An op that runs on what it owns runs only in the context of what it owns. Where it owns
/// nothing, being fed by a pipe or a slot, it is refused.
pub proof fn law_owned_memory_stays_in_its_context(w: World, input: Input, context: u64)
    ensures
        ({
            let owned: Option<Obj> = match input {
                Input::Concrete(c) => w.held(c),
                _ => None,
            };
            &&& here(buf_ctx(w, input), context) is Ok <==> (owned matches Some(o) && o.ctx == context)
            &&& here(svm_ctx(w, input), context) is Ok <==> (owned matches Some(o) && o.ctx == context)
            &&& here(image_ctx(w, input), context) is Ok <==> (owned matches Some(o) && o.ctx == context)
            &&& owned is None ==> here(buf_ctx(w, input), context)->Err_0 is NotSupported
            &&& owned is None ==> here(svm_ctx(w, input), context)->Err_0 is NotSupported
            &&& owned is None ==> here(image_ctx(w, input), context)->Err_0 is NotSupported
            &&& (owned matches Some(o) && o.ctx != context) ==> here(buf_ctx(w, input), context)->Err_0 is InvalidArgument
                && here(svm_ctx(w, input), context)->Err_0 is InvalidArgument && here(
                image_ctx(w, input),
                context,
            )->Err_0 is InvalidArgument
        }),
{
}

/// A graph that failed while it was enqueued: where it has a start barrier it is opened, then
/// every worker is waited for, the queue of the device is forgotten, and the answer is the
/// error of a host closure where one failed, and else the one that the graph met.
pub proof fn law_failed_start_winds_down(m: Walk, e: Error, post: Walk, res: ChainStart)
    requires
        chain_failed(m, e, post, res),
    ensures
        ({
            let at = m.trace.len() as int;
            let held: int = if m.start is Some {
                1
            } else {
                0
            };
            let n = m.workers.len() as int;
            &&& post.trace.len() == at + held + n + 1
            &&& m.start matches Some(ev) ==> post.trace[at].command == (Command::Complete { event: ev, status: 0 })
            &&& forall|k: int|
                0 <= k < n ==> post.trace[at + held + k].command == (Command::Join { worker: #[trigger] m.workers[k] })
            &&& post.trace.last().command == (Command::InvalidateQueue { device: m.device })
            &&& post.workers.len() == 0
            &&& post.host_reads.len() == m.host_reads.len() + 1
            &&& post.host_reads.last() matches Some(h) ==> res == ChainStart::Errored(h)
            &&& post.host_reads.last() is None ==> res == ChainStart::Errored(e)
            &&& post.w == m.w
        }),
{
    let (m1, m2, host) = choose|m1: Walk, m2: Walk, host: Option<Error>|
        #[trigger] passes(m1, (m2, host)) && releases(m, m1) && winds_down(m1, m2) && post == (Walk {
            host_reads: m2.host_reads.push(host),
            ..m2
        }) && res == ChainStart::Errored(preferred(host, e));
    lemma_released(m, m1);
    let m3 = choose|m3: Walk| #[trigger] passes(m3, ()) && joins(m1, m3) && forgets_queue(m3, m2);
    law_every_worker_is_joined(m1, m3);
    let x = choose|x: Reply|
        m2 == #[trigger] m3.issued(Command::InvalidateQueue { device: m3.device }, Seq::empty(), x);
    let at = m.trace.len() as int;
    if m.start is Some {
        assert(m3.trace[at] == m1.trace[at]);
        assert(m2.trace[at] == m3.trace[at]);
    }
    let n = m.workers.len() as int;
    let held: int = if m.start is Some {
        1
    } else {
        0
    };
    assert forall|k: int| 0 <= k < n implies post.trace[at + held + k].command == (Command::Join {
        worker: #[trigger] m.workers[k],
    }) by {
        assert(m3.trace[m1.trace.len() + k].command == (Command::Join { worker: m1.workers[k] }));
    }
}

/// A run that is waited for and fails before it can wait leaves nothing behind: the barrier
/// is opened where there is one, every worker is waited for, what was handed out goes back
/// home, and the answer is the error of a host closure before any other.
pub proof fn law_failed_sync_leaves_nothing_behind(
    op: DeviceOp,
    m: Walk,
    outs: Seq<CheckoutView>,
    e: Error,
    post: Walk,
    res: OpResult<Seq<CheckoutView>>,
)
    requires
        sync_fails(op, m, outs, e, post, res),
    ensures
        ({
            let at = m.trace.len() as int;
            let held: int = if m.start is Some {
                1
            } else {
                0
            };
            let n = m.workers.len() as int;
            &&& post.trace.len() == at + held + n
            &&& m.start matches Some(ev) ==> post.trace[at].command == (Command::Complete { event: ev, status: 0 })
            &&& forall|k: int|
                0 <= k < n ==> post.trace[at + held + k].command == (Command::Join { worker: #[trigger] m.workers[k] })
            &&& post.workers.len() == 0
            &&& post.host_reads.len() == m.host_reads.len() + 1
            &&& post.host_reads.last() matches Some(h) ==> res == Err::<Seq<CheckoutView>, Error>(h)
            &&& post.host_reads.last() is None ==> res == Err::<Seq<CheckoutView>, Error>(e)
            &&& post.w == reclaim_of(op, dropped_from(outs, 0, m.w))
        }),
{
    let (m1, m2, host) = choose|m1: Walk, m2: Walk, host: Option<Error>|
        #[trigger] passes(m1, (m2, host)) && releases(m, m1) && joins(m1, m2) && post == (Walk {
            host_reads: m2.host_reads.push(host),
            w: cleared(op, outs, m2.w),
            ..m2
        }) && res == Err::<Seq<CheckoutView>, Error>(preferred(host, e));
    lemma_released(m, m1);
    law_every_worker_is_joined(m1, m2);
    let at = m.trace.len() as int;
    let n = m.workers.len() as int;
    let held: int = if m.start is Some {
        1
    } else {
        0
    };
    if m.start is Some {
        assert(m2.trace[at] == m1.trace[at]);
    }
    assert forall|k: int| 0 <= k < n implies post.trace[at + held + k].command == (Command::Join {
        worker: #[trigger] m.workers[k],
    }) by {
        assert(m2.trace[m1.trace.len() + k].command == (Command::Join { worker: m1.workers[k] }));
    }
}

/// A future of a graph that was started awaits the graph's event, for which no callback was
/// registered yet, and holds the graph's output until then; that of a graph that failed holds
/// the error.
pub proof fn law_future_awaits_what_was_started(f: DeviceChainFuture, output: Seq<Obj>, event: u64, e: Error)
    ensures
        starts_as(f, ChainStart::Running { output, event }) ==> (f matches DeviceChainFuture::Running {
            output: o,
            event_future: ef,
        } && ef.event_spec() == event && !ef.is_registered() && o is Some && o->Some_0@ == output),
        starts_as(f, ChainStart::Errored(e)) ==> (f matches DeviceChainFuture::Errored(x) && x == Some(e)),
{
}

} // verus!
