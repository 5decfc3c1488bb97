//! What holds of the ops that combine others: every part runs once and in order, the
//! values of the parts stand in the order of the parts, and what comes after waits on all
//! of them.

use crate::cb::passed_through;
use crate::error::{Error, OpResult};
use crate::exec_ctx::{ExecMode, Walk, WalkMode};
use crate::graph::{
    output_pipe_of, outs_of, AndThen, ArcSplit, Arced, Bundle, DeviceDynOp, DeviceOp, FanOut, OnDevice, Profiled,
};
use crate::host::seam_runs;
use crate::ids::{with_id, with_ids};
use crate::leaves::DeviceTarget;
use crate::obj::{Command, Obj, Reply};
use crate::seam_laws::{did, law_seam_hands_every_output_on};
use crate::store::{ParcelView, Pipe, World};
use crate::walk::{
    all_deps, all_values, arced_after, back_from, branch_gathers, branch_points, cell_of, chain_collected,
    chain_ends, chain_gathered, checked_out, child_collects, child_gathers, child_runs, collects_from, collects_of,
    drain_from, fan_ends, gathers_from, gathers_of, host_gathers, join_runs, joined_gathers, joins_branches,
    merged, missing_of, node_gathers, node_runs, out_values, passes, profile_ends, profile_marked, routed,
    runs_from, runs_of, scatter_from, seam_reach, seam_step, split_from, CheckoutView, GatheredView,
    QUEUE_PROFILING_ENABLE,
};
use vstd::prelude::*;

verus! {

/// The values of parcels, one after the other.
pub open spec fn values_in(ps: Seq<ParcelView>) -> Seq<Obj> {
    ps.map_values(|p: ParcelView| p.value).flatten()
}

/// The events of parcels, one after the other.
pub open spec fn events_in(ps: Seq<ParcelView>) -> Seq<u64> {
    ps.map_values(|p: ParcelView| p.deps).flatten()
}

/// The values of checkouts, one after the other.
pub open spec fn values_out(outs: Seq<CheckoutView>) -> Seq<Obj> {
    outs.map_values(|c: CheckoutView| c.value).flatten()
}

/// Parcels taken as one hold the values of all of them, in order, and wait on the events of
/// all of them.
pub proof fn law_parcels_stand_in_order(ps: Seq<ParcelView>)
    ensures
        all_values(ps) == values_in(ps),
        all_deps(ps) == events_in(ps),
        merged(ps).value == values_in(ps),
        merged(ps).deps == events_in(ps),
        ps.len() == 1 ==> merged(ps).value == ps[0].value && merged(ps).deps == ps[0].deps && merged(ps).home
            == ps[0].home,
        ps.len() != 1 ==> merged(ps).home is None,
        checked_out(ps).outs.len() == ps.len(),
        forall|k: int|
            0 <= k < ps.len() ==> (#[trigger] checked_out(ps).outs[k]).value == ps[k].value
                && checked_out(ps).outs[k].home == ps[k].home,
        checked_out(ps).deps == events_in(ps),
    decreases ps.len(),
{
    let vals = ps.map_values(|p: ParcelView| p.value);
    let evs = ps.map_values(|p: ParcelView| p.deps);
    if ps.len() > 0 {
        let less = ps.drop_last();
        law_parcels_stand_in_order(less);
        let lv = less.map_values(|p: ParcelView| p.value);
        let le = less.map_values(|p: ParcelView| p.deps);
        assert(vals =~= lv.push(ps.last().value));
        assert(evs =~= le.push(ps.last().deps));
        lv.lemma_flatten_push(ps.last().value);
        le.lemma_flatten_push(ps.last().deps);
        if ps.len() == 1 {
            assert(less =~= Seq::empty());
            assert(lv =~= Seq::empty());
            assert(le =~= Seq::empty());
            assert(all_values(less) =~= Seq::empty());
            assert(all_deps(less) =~= Seq::empty());
            assert(all_values(ps) =~= ps[0].value);
            assert(all_deps(ps) =~= ps[0].deps);
        }
    } else {
        assert(vals =~= Seq::empty());
        assert(evs =~= Seq::empty());
    }
}

/// A closure gets the values of all checkouts, in order.
pub proof fn law_checkouts_stand_in_order(outs: Seq<CheckoutView>)
    ensures
        out_values(outs) == values_out(outs),
    decreases outs.len(),
{
    let vals = outs.map_values(|c: CheckoutView| c.value);
    if outs.len() > 0 {
        let less = outs.drop_last();
        law_checkouts_stand_in_order(less);
        let lv = less.map_values(|c: CheckoutView| c.value);
        assert(vals =~= lv.push(outs.last().value));
        lv.lemma_flatten_push(outs.last().value);
    } else {
        assert(vals =~= Seq::empty());
    }
}

/// Taking what lies on the output pipes: one parcel from each pipe, in the order of the
/// pipes, and each of them is empty afterwards.
pub proof fn law_outputs_are_taken_in_order(outs: Seq<Pipe>, w: World)
    ensures
        drain_from(outs, 0, Seq::empty(), w).1 matches Ok(ps) ==> {
            &&& ps.len() == outs.len()
            &&& forall|k: int| 0 <= k < outs.len() ==> w.parcel(outs[k].cell) == Some(#[trigger] ps[k])
            &&& forall|k: int|
                0 <= k < outs.len() ==> drain_from(outs, 0, Seq::empty(), w).0.parcel(
                    (#[trigger] outs[k]).cell,
                ) is None
        },
        drain_from(outs, 0, Seq::empty(), w).1 matches Err(k) ==> 0 <= k < outs.len(),
        (forall|k: int| 0 <= k < outs.len() ==> w.parcel((#[trigger] outs[k]).cell) is Some) && (forall|a: int, b: int|
            0 <= a < b < outs.len() ==> (#[trigger] outs[a]).cell != (#[trigger] outs[b]).cell)
            ==> drain_from(outs, 0, Seq::empty(), w).1 is Ok,
{
    lemma_drains_in_order(outs, 0, Seq::empty(), w, w);
    if (forall|k: int| 0 <= k < outs.len() ==> w.parcel((#[trigger] outs[k]).cell) is Some) && (forall|a: int, b: int|
        0 <= a < b < outs.len() ==> (#[trigger] outs[a]).cell != (#[trigger] outs[b]).cell) {
        lemma_full_pipes_drain(outs, 0, Seq::empty(), w);
    }
}

proof fn lemma_drains_in_order(outs: Seq<Pipe>, i: nat, got: Seq<ParcelView>, start: World, w: World)
    requires
        i <= outs.len(),
        got.len() == i,
        forall|c: u64| #[trigger] w.parcel(c) is Some ==> w.parcel(c) == start.parcel(c),
        forall|k: int| 0 <= k < i ==> start.parcel(outs[k].cell) == Some(#[trigger] got[k]),
        forall|k: int| 0 <= k < i ==> w.parcel((#[trigger] outs[k]).cell) is None,
    ensures
        drain_from(outs, i, got, w).1 matches Ok(ps) ==> {
            &&& ps.len() == outs.len()
            &&& forall|k: int| 0 <= k < outs.len() ==> start.parcel(outs[k].cell) == Some(#[trigger] ps[k])
            &&& forall|k: int|
                0 <= k < outs.len() ==> drain_from(outs, i, got, w).0.parcel((#[trigger] outs[k]).cell) is None
        },
        drain_from(outs, i, got, w).1 matches Err(k) ==> 0 <= k < outs.len(),
    decreases outs.len() - i,
{
    if i < outs.len() {
        let c = outs[i as int].cell;
        if let Some(p) = w.parcel(c) {
            assert(start.parcel(c) == Some(p));
            assert forall|d: u64| #[trigger] w.drained(c).parcel(d) is Some implies w.drained(c).parcel(d)
                == start.parcel(d) by {
                assert(w.parcel(d) is Some);
            }
            lemma_drains_in_order(outs, i + 1, got.push(p), start, w.drained(c));
        }
    }
}

proof fn lemma_full_pipes_drain(outs: Seq<Pipe>, i: nat, got: Seq<ParcelView>, w: World)
    requires
        i <= outs.len(),
        forall|k: int| i <= k < outs.len() ==> w.parcel((#[trigger] outs[k]).cell) is Some,
        forall|a: int, b: int|
            0 <= a < b < outs.len() ==> (#[trigger] outs[a]).cell != (#[trigger] outs[b]).cell,
    ensures
        drain_from(outs, i, got, w).1 is Ok,
    decreases outs.len() - i,
{
    if i < outs.len() {
        let c = outs[i as int].cell;
        let p = w.parcel(c)->Some_0;
        assert forall|k: int| i + 1 <= k < outs.len() implies w.drained(c).parcel((#[trigger] outs[k]).cell) is Some by {
            assert(outs[i as int].cell != outs[k].cell);
        }
        lemma_full_pipes_drain(outs, i + 1, got.push(p), w.drained(c));
    }
}

/// Whether states lead from one to another in a number of steps.
pub open spec fn leads(steps: Seq<Walk>, n: nat, pre: Walk, post: Walk) -> bool {
    steps.len() == n + 1 && steps[0] == pre && steps[n as int] == post
}

proof fn lemma_collects_each(ops: Vec<DeviceOp>, i: nat, got: Seq<ParcelView>, pre: Walk, post: Walk, ps: Seq<ParcelView>) -> (steps:
    Seq<Walk>)
    requires
        i <= ops.len(),
        got.len() == i,
        collects_from(ops, i, got, pre, post, Ok(ps)),
    ensures
        leads(steps, (ops.len() - i) as nat, pre, post),
        ps.len() == ops.len(),
        forall|k: int| 0 <= k < i ==> #[trigger] ps[k] == got[k],
        forall|k: int|
            i <= k < ops.len() ==> #[trigger] collects_of(
                ops[k],
                steps[k - i],
                steps[k - i + 1],
                ExecMode::Pipelined,
                Ok(ps[k]),
            ),
    decreases ops.len() - i,
{
    let res = Ok::<Seq<ParcelView>, Error>(ps);
    if i >= ops.len() {
        seq![pre]
    } else {
        let (m, r) = choose|m: Walk, r: OpResult<ParcelView>|
            (#[trigger] passes(m, r)) && collects_of(ops[i as int], pre, m, ExecMode::Pipelined, r) && match r {
                Err(e) => post == m && res == Err::<Seq<ParcelView>, Error>(e),
                Ok(p) => collects_from(ops, i + 1, got.push(p), m, post, res),
            };
        let more = got.push(r->Ok_0);
        let rest = lemma_collects_each(ops, i + 1, more, m, post, ps);
        let steps = seq![pre] + rest;
        assert(ps[i as int] == more[i as int]);
        assert forall|k: int| 0 <= k < i implies #[trigger] ps[k] == got[k] by {
            assert(more[k] == got[k]);
        }
        assert forall|k: int| i <= k < ops.len() implies #[trigger] collects_of(
            ops[k],
            steps[k - i],
            steps[k - i + 1],
            ExecMode::Pipelined,
            Ok(ps[k]),
        ) by {
            if k == i {
                assert(steps[0] == pre);
                assert(steps[1] == rest[0]);
            } else {
                assert(steps[k - i] == rest[k - (i + 1)]);
                assert(steps[k - i + 1] == rest[k - (i + 1) + 1]);
            }
        }
        steps
    }
}

/// Branches that are collected: every one runs once, one after the other, each from where
/// the one before ended, and the parcel with index `k` is that of branch `k`.
pub proof fn law_every_branch_is_collected(
    ops: Vec<DeviceOp>,
    pre: Walk,
    post: Walk,
    ps: Seq<ParcelView>,
) -> (steps: Seq<Walk>)
    requires
        collects_from(ops, 0, Seq::empty(), pre, post, Ok(ps)),
    ensures
        leads(steps, ops.len() as nat, pre, post),
        ps.len() == ops.len(),
        forall|k: int|
            0 <= k < ops.len() ==> #[trigger] collects_of(
                ops[k],
                steps[k],
                steps[k + 1],
                ExecMode::Pipelined,
                Ok(ps[k]),
            ),
{
    let steps = lemma_collects_each(ops, 0, Seq::empty(), pre, post, ps);
    assert forall|k: int| 0 <= k < ops.len() implies #[trigger] collects_of(
        ops[k],
        steps[k],
        steps[k + 1],
        ExecMode::Pipelined,
        Ok(ps[k]),
    ) by {
        assert(collects_of(ops[k], steps[k - 0], steps[k - 0 + 1], ExecMode::Pipelined, Ok(ps[k])));
    }
    steps
}

proof fn lemma_runs_each(ops: Vec<DeviceOp>, i: nat, pre: Walk, post: Walk) -> (steps: Seq<Walk>)
    requires
        i <= ops.len(),
        runs_from(ops, i, pre, post, Ok(())),
    ensures
        leads(steps, (ops.len() - i) as nat, pre, post),
        forall|k: int|
            i <= k < ops.len() ==> #[trigger] child_runs(
                ops[k],
                steps[k - i],
                steps[k - i + 1],
                ExecMode::Pipelined,
                Ok(()),
            ),
    decreases ops.len() - i,
{
    let res = Ok::<(), Error>(());
    if i >= ops.len() {
        seq![pre]
    } else {
        let (m, r) = choose|m: Walk, r: OpResult<()>|
            (#[trigger] passes(m, r)) && child_runs(ops[i as int], pre, m, ExecMode::Pipelined, r) && match r {
                Err(e) => post == m && res == Err::<(), Error>(e),
                Ok(_) => runs_from(ops, i + 1, m, post, res),
            };
        assert(r->Ok_0 == ());
        let rest = lemma_runs_each(ops, i + 1, m, post);
        let steps = seq![pre] + rest;
        assert forall|k: int| i <= k < ops.len() implies #[trigger] child_runs(
            ops[k],
            steps[k - i],
            steps[k - i + 1],
            ExecMode::Pipelined,
            Ok(()),
        ) by {
            if k == i {
                assert(steps[0] == pre);
                assert(steps[1] == rest[0]);
            } else {
                assert(steps[k - i] == rest[k - (i + 1)]);
                assert(steps[k - i + 1] == rest[k - (i + 1) + 1]);
            }
        }
        steps
    }
}

/// A bundle that ran well: every part ran once and well, each from where the one before
/// ended.
pub proof fn law_bundle_runs_every_part(n: Box<Bundle>, pre: Walk, post: Walk, mode: ExecMode) -> (steps: Seq<Walk>)
    requires
        runs_of(DeviceOp::Bundle(n), pre, post, mode, Ok(())),
    ensures
        leads(steps, n.ops.len() as nat, pre, post),
        forall|k: int|
            0 <= k < n.ops.len() ==> #[trigger] child_runs(
                n.ops[k],
                steps[k],
                steps[k + 1],
                ExecMode::Pipelined,
                Ok(()),
            ),
{
    let steps = lemma_runs_each(n.ops, 0, pre, post);
    assert forall|k: int| 0 <= k < n.ops.len() implies #[trigger] child_runs(
        n.ops[k],
        steps[k],
        steps[k + 1],
        ExecMode::Pipelined,
        Ok(()),
    ) by {
        assert(child_runs(n.ops[k], steps[k - 0], steps[k - 0 + 1], ExecMode::Pipelined, Ok(())));
    }
    steps
}

/// Whether the last thing that a run did was to join these events by a marker, which was
/// answered with this event.
pub open spec fn joined(s: Walk, waits: Seq<u64>, ev: u64) -> bool {
    did(s, s.trace.len() - 1, Command::Marker, waits, ev)
}

/// A bundle taken as one value: the values of all its parts, in order. Outside of command
/// buffers a marker waits on the events of all parts, and the value waits on the marker;
/// inside one the value waits on the events themselves.
pub proof fn law_bundle_joins_all_its_parts(
    n: Box<Bundle>,
    pre: Walk,
    post: Walk,
    mode: ExecMode,
    p: ParcelView,
) -> (r: (Seq<Walk>, Seq<ParcelView>))
    requires
        collects_of(DeviceOp::Bundle(n), pre, post, mode, Ok(p)),
    ensures
        ({
            let (steps, ps) = r;
            let m = steps.last();
            &&& leads(steps, n.ops.len() as nat, pre, m)
            &&& ps.len() == n.ops.len()
            &&& forall|k: int|
                0 <= k < n.ops.len() ==> #[trigger] collects_of(
                    n.ops[k],
                    steps[k],
                    steps[k + 1],
                    ExecMode::Pipelined,
                    Ok(ps[k]),
                )
            &&& p.value == values_in(ps)
            &&& p.home is None
            &&& post == (Walk { trace: post.trace, ..m })
            &&& if post.cb.live() is Off {
                p.deps.len() == 1 && post.trace.len() == m.trace.len() + 1 && joined(post, events_in(ps), p.deps[0])
            } else {
                p.deps == events_in(ps) && post.trace == m.trace
            }
        }),
{
    let res = Ok::<ParcelView, Error>(p);
    let (m, h) = choose|m: Walk, r: OpResult<Seq<ParcelView>>|
        (#[trigger] passes(m, r)) && collects_from(n.ops, 0, Seq::empty(), pre, m, r) && match r {
            Err(e) => post == m && res == Err::<ParcelView, Error>(e),
            Ok(ps) => exists|j: OpResult<Seq<u64>>|
                (#[trigger] passes(m, j)) && joins_branches(all_deps(ps), m, post, j) && res == (match j {
                    Err(e) => Err::<ParcelView, Error>(e),
                    Ok(deps) => Ok(ParcelView { value: all_values(ps), deps, home: None }),
                }),
        };
    let ps = h->Ok_0;
    let steps = law_every_branch_is_collected(n.ops, pre, m, ps);
    law_parcels_stand_in_order(ps);
    assert(steps.last() == m);
    assert(joins_branches(all_deps(ps), m, post, Ok(p.deps)));
    if m.cb.live() is Off {
        let j = choose|j: OpResult<u64>| #[trigger] join_runs(all_deps(ps), m, post, j) && Ok::<Seq<u64>, Error>(p.deps)
            == (match j {
            Err(e) => Err::<Seq<u64>, Error>(e),
            Ok(ev) => Ok(seq![ev]),
        });
        assert(join_runs(all_deps(ps), m, post, j));
    }
    (steps, ps)
}

/// The outputs of several gathers, one after the other.
pub open spec fn outs_in(gs: Seq<GatheredView>) -> Seq<CheckoutView> {
    gs.map_values(|g: GatheredView| g.outs).flatten()
}

/// The events of several gathers, one after the other.
pub open spec fn waits_in(gs: Seq<GatheredView>) -> Seq<u64> {
    gs.map_values(|g: GatheredView| g.deps).flatten()
}

proof fn lemma_front(g: GatheredView, gs: Seq<GatheredView>)
    ensures
        outs_in(seq![g] + gs) == g.outs + outs_in(gs),
        waits_in(seq![g] + gs) == g.deps + waits_in(gs),
{
    let all = seq![g] + gs;
    let o = all.map_values(|g: GatheredView| g.outs);
    let d = all.map_values(|g: GatheredView| g.deps);
    assert(o.first() == g.outs);
    assert(d.first() == g.deps);
    assert(o.drop_first() =~= gs.map_values(|g: GatheredView| g.outs));
    assert(d.drop_first() =~= gs.map_values(|g: GatheredView| g.deps));
}

proof fn lemma_gathers_each(
    ops: Vec<DeviceOp>,
    i: nat,
    as_children: bool,
    got: GatheredView,
    pre: Walk,
    post: Walk,
    total: GatheredView,
) -> (r: (Seq<Walk>, Seq<GatheredView>))
    requires
        i <= ops.len(),
        gathers_from(ops, i, as_children, got, pre, post, Ok(total)),
    ensures
        leads(r.0, (ops.len() - i) as nat, pre, post),
        r.1.len() == ops.len() - i,
        total.outs == got.outs + outs_in(r.1),
        total.deps == got.deps + waits_in(r.1),
        forall|k: int|
            i <= k < ops.len() ==> #[trigger] branch_gathers(
                ops[k],
                as_children,
                r.0[k - i],
                r.0[k - i + 1],
                Ok(r.1[k - i]),
            ),
    decreases ops.len() - i,
{
    let res = Ok::<GatheredView, Error>(total);
    if i >= ops.len() {
        let none = Seq::<GatheredView>::empty();
        assert(none.map_values(|g: GatheredView| g.outs) =~= Seq::empty());
        assert(none.map_values(|g: GatheredView| g.deps) =~= Seq::empty());
        assert(got.outs + outs_in(none) =~= got.outs);
        assert(got.deps + waits_in(none) =~= got.deps);
        (seq![pre], none)
    } else {
        let (m, r) = choose|m: Walk, r: OpResult<GatheredView>|
            (#[trigger] passes(m, r)) && branch_gathers(ops[i as int], as_children, pre, m, r) && match r {
                Err(e) => post == m && res == Err::<GatheredView, Error>(e),
                Ok(g) => gathers_from(
                    ops,
                    i + 1,
                    as_children,
                    GatheredView { outs: got.outs + g.outs, deps: got.deps + g.deps },
                    m,
                    post,
                    res,
                ),
            };
        let g = r->Ok_0;
        let more = GatheredView { outs: got.outs + g.outs, deps: got.deps + g.deps };
        let (rest, gs) = lemma_gathers_each(ops, i + 1, as_children, more, m, post, total);
        let steps = seq![pre] + rest;
        let all = seq![g] + gs;
        lemma_front(g, gs);
        assert(total.outs =~= got.outs + outs_in(all));
        assert(total.deps =~= got.deps + waits_in(all));
        assert forall|k: int| i <= k < ops.len() implies #[trigger] branch_gathers(
            ops[k],
            as_children,
            steps[k - i],
            steps[k - i + 1],
            Ok(all[k - i]),
        ) by {
            if k == i {
                assert(steps[0] == pre);
                assert(steps[1] == rest[0]);
                assert(all[0] == g);
            } else {
                assert(steps[k - i] == rest[k - (i + 1)]);
                assert(steps[k - i + 1] == rest[k - (i + 1) + 1]);
                assert(all[k - i] == gs[k - (i + 1)]);
            }
        }
        (steps, all)
    }
}

/// A bundle or a fan-out whose outputs are checked out: every part is gathered once, one
/// after the other; the checkouts are those of all parts, in order. Outside of command
/// buffers one marker waits on the events of all parts, and the checkouts wait on it.
pub proof fn law_gathered_parts_stand_in_order(
    op: DeviceOp,
    ops: Vec<DeviceOp>,
    pre: Walk,
    post: Walk,
    mode: ExecMode,
    g: GatheredView,
) -> (r: (Seq<Walk>, Seq<GatheredView>))
    requires
        gathers_of(op, pre, post, mode, Ok(g)),
        (op matches DeviceOp::Bundle(n) && n.ops == ops) || (op matches DeviceOp::FanOut(n) && n.ops == ops),
    ensures
        ({
            let (steps, gs) = r;
            let m = steps.last();
            &&& leads(steps, ops.len() as nat, pre, m)
            &&& gs.len() == ops.len()
            &&& forall|k: int|
                0 <= k < ops.len() ==> #[trigger] branch_gathers(ops[k], op is Bundle, steps[k], steps[k + 1], Ok(gs[k]))
            &&& g.outs == outs_in(gs)
            &&& post == (Walk { trace: post.trace, ..m })
            &&& if post.cb.live() is Off {
                g.deps.len() == 1 && post.trace.len() == m.trace.len() + 1 && joined(post, waits_in(gs), g.deps[0])
            } else {
                g.deps == waits_in(gs) && post.trace == m.trace
            }
        }),
{
    let res = Ok::<GatheredView, Error>(g);
    let as_children = op is Bundle;
    let none = GatheredView { outs: Seq::empty(), deps: Seq::empty() };
    assert(joined_gathers(ops, as_children, pre, post, res));
    let (m, h) = choose|m: Walk, r: OpResult<GatheredView>|
        (#[trigger] passes(m, r)) && gathers_from(
            ops,
            0,
            as_children,
            GatheredView { outs: Seq::empty(), deps: Seq::empty() },
            pre,
            m,
            r,
        ) && match r {
            Err(e) => post == m && res == Err::<GatheredView, Error>(e),
            Ok(g) => exists|j: OpResult<Seq<u64>>|
                (#[trigger] passes(m, j)) && joins_branches(g.deps, m, post, j) && res == (match j {
                    Err(e) => Err::<GatheredView, Error>(e),
                    Ok(deps) => Ok(GatheredView { outs: g.outs, deps }),
                }),
        };
    let total = h->Ok_0;
    let (steps, gs) = lemma_gathers_each(ops, 0, as_children, none, pre, m, total);
    assert(total.outs =~= outs_in(gs));
    assert(total.deps =~= waits_in(gs));
    assert(steps.last() == m);
    assert(joins_branches(total.deps, m, post, Ok(g.deps)));
    if m.cb.live() is Off {
        let j = choose|j: OpResult<u64>| #[trigger] join_runs(total.deps, m, post, j) && Ok::<Seq<u64>, Error>(g.deps)
            == (match j {
            Err(e) => Err::<Seq<u64>, Error>(e),
            Ok(ev) => Ok(seq![ev]),
        });
        assert(join_runs(total.deps, m, post, j));
    }
    assert forall|k: int| 0 <= k < ops.len() implies #[trigger] branch_gathers(
        ops[k],
        op is Bundle,
        steps[k],
        steps[k + 1],
        Ok(gs[k]),
    ) by {
        assert(branch_gathers(ops[k], as_children, steps[k - 0], steps[k - 0 + 1], Ok(gs[k - 0])));
    }
    (steps, gs)
}

/// A fan-out that ran well: every branch ran once and in order, and its output holds the
/// values of all branches, in order. On a queue one marker waits on the events of all
/// branches, and the output waits on the marker.
pub proof fn law_fan_out_joins_all_its_branches(
    n: Box<FanOut>,
    pre: Walk,
    post: Walk,
    mode: ExecMode,
) -> (r: (Seq<Walk>, Seq<ParcelView>))
    requires
        runs_of(DeviceOp::FanOut(n), pre, post, mode, Ok(())),
    ensures
        ({
            let (steps, ps) = r;
            let m = steps.last();
            &&& leads(steps, n.ops.len() as nat, pre, m)
            &&& ps.len() == n.ops.len()
            &&& forall|k: int|
                0 <= k < n.ops.len() ==> #[trigger] collects_of(
                    n.ops[k],
                    steps[k],
                    steps[k + 1],
                    ExecMode::Pipelined,
                    Ok(ps[k]),
                )
            &&& outs_of(DeviceOp::FanOut(n)) == seq![n.out]
            &&& post.w.parcel(n.out.cell) matches Some(p) && {
                &&& p.value == values_in(ps)
                &&& p.home is None
                &&& m.cb is Off ==> p.deps.len() == 1 && post.trace.len() == m.trace.len() + 1 && joined(
                    post,
                    events_in(ps),
                    p.deps[0],
                )
                &&& !(m.cb is Off) ==> p.deps.len() == 0 && post.trace == m.trace
            }
        }),
{
    let res = Ok::<(), Error>(());
    let (m, h) = choose|m: Walk, r: OpResult<Seq<ParcelView>>|
        (#[trigger] passes(m, r)) && collects_from(n.ops, 0, Seq::empty(), pre, m, r) && match r {
            Err(e) => post == m && res == Err::<(), Error>(e),
            Ok(ps) => fan_ends(*n, m, ps, post, res),
        };
    let ps = h->Ok_0;
    let steps = law_every_branch_is_collected(n.ops, pre, m, ps);
    law_parcels_stand_in_order(ps);
    assert(steps.last() == m);
    if m.cb is Build {
        lemma_points_enqueue_nothing(n.ops, 0, n.out.cell, Seq::empty(), m);
    }
    (steps, ps)
}

proof fn lemma_points_enqueue_nothing(ops: Vec<DeviceOp>, i: nat, out: u64, sps: Seq<u64>, m: Walk)
    ensures
        branch_points(ops, i, out, sps, m).0.trace == m.trace,
    decreases ops.len() - i,
{
    if i < ops.len() {
        match output_pipe_of(ops[i as int]) {
            None => {
                lemma_points_enqueue_nothing(ops, i + 1, out, sps, m);
            },
            Some(p) => {
                lemma_points_enqueue_nothing(
                    ops,
                    i + 1,
                    out,
                    with_ids(sps, m.sp_of(Some(p.cell))),
                    m.reaching(out, m.origins(None, Some(p.cell))),
                );
            },
        }
    }
}

proof fn lemma_id_is_added(s: Seq<u64>, x: u64)
    ensures
        with_id(s, x).contains(x),
        forall|y: u64| s.contains(y) ==> #[trigger] with_id(s, x).contains(y),
    decreases s.len(),
{
    let r = with_id(s, x);
    if s.len() == 0 || s.last() < x {
        assert(r =~= s.push(x));
        assert(r[s.len() as int] == x);
        assert forall|y: u64| s.contains(y) implies #[trigger] r.contains(y) by {
            let k = s.index_of(y);
            assert(r[k] == y);
        }
    } else if s.last() == x {
        assert(r == s);
        assert(s[s.len() - 1] == x);
    } else {
        let less = s.drop_last();
        let part = with_id(less, x);
        lemma_id_is_added(less, x);
        assert(r == part.push(s.last()));
        let k = part.index_of(x);
        assert(r[k] == x);
        assert forall|y: u64| s.contains(y) implies #[trigger] r.contains(y) by {
            let j = s.index_of(y);
            if j < less.len() {
                assert(less[j] == y);
                assert(part.contains(y));
                assert(r[part.index_of(y)] == y);
            } else {
                assert(r[part.len() as int] == y);
            }
        }
    }
}

/// A union of identities holds all of both.
pub proof fn lemma_ids_are_added(s: Seq<u64>, t: Seq<u64>)
    ensures
        forall|y: u64| s.contains(y) || t.contains(y) ==> #[trigger] with_ids(s, t).contains(y),
    decreases t.len(),
{
    if t.len() > 0 {
        let less = t.drop_last();
        lemma_ids_are_added(s, less);
        lemma_id_is_added(with_ids(s, less), t.last());
        assert forall|y: u64| s.contains(y) || t.contains(y) implies #[trigger] with_ids(s, t).contains(y) by {
            if t.contains(y) {
                let k = t.index_of(y);
                if k < less.len() {
                    assert(less[k] == y);
                    assert(less.contains(y));
                }
            }
            if s.contains(y) || less.contains(y) {
                assert(with_ids(s, less).contains(y));
            }
        }
    }
}

proof fn lemma_points_of_branches(ops: Vec<DeviceOp>, i: nat, out: u64, sps: Seq<u64>, m: Walk)
    ensures
        branch_points(ops, i, out, sps, m).0.sp == m.sp,
        forall|y: u64| sps.contains(y) ==> #[trigger] branch_points(ops, i, out, sps, m).1.contains(y),
        forall|k: int, y: u64|
            i <= k < ops.len() && output_pipe_of(ops[k]) is Some && m.sp_of(
                Some(output_pipe_of(#[trigger] ops[k])->Some_0.cell),
            ).contains(y) ==> #[trigger] branch_points(ops, i, out, sps, m).1.contains(y),
    decreases ops.len() - i,
{
    if i < ops.len() {
        match output_pipe_of(ops[i as int]) {
            None => {
                lemma_points_of_branches(ops, i + 1, out, sps, m);
            },
            Some(p) => {
                let here = m.sp_of(Some(p.cell));
                let m1 = m.reaching(out, m.origins(None, Some(p.cell)));
                let more = with_ids(sps, here);
                lemma_ids_are_added(sps, here);
                lemma_points_of_branches(ops, i + 1, out, more, m1);
                let all = branch_points(ops, i, out, sps, m).1;
                assert(all == branch_points(ops, i + 1, out, more, m1).1);
                assert forall|y: u64| sps.contains(y) implies #[trigger] all.contains(y) by {
                    assert(more.contains(y));
                }
                assert forall|k: int, y: u64|
                    i <= k < ops.len() && output_pipe_of(ops[k]) is Some && m.sp_of(
                        Some(output_pipe_of(#[trigger] ops[k])->Some_0.cell),
                    ).contains(y) implies #[trigger] all.contains(y) by {
                    if k == i {
                        assert(more.contains(y));
                    } else {
                        assert(m1.sp_of(Some(output_pipe_of(ops[k])->Some_0.cell)).contains(y));
                    }
                }
            },
        }
    }
}

/// A fan-out inside a command buffer that is built: what comes after waits on the sync
/// points of every branch.
pub proof fn law_recorded_fan_out_waits_on_every_branch(
    n: FanOut,
    m: Walk,
    ps: Seq<ParcelView>,
    post: Walk,
    k: int,
    y: u64,
)
    requires
        fan_ends(n, m, ps, post, Ok(())),
        m.cb is Build,
        0 <= k < n.ops.len(),
        output_pipe_of(n.ops[k]) is Some,
        m.sp_of(Some(output_pipe_of(n.ops[k])->Some_0.cell)).contains(y),
    ensures
        post.sp_of(Some(n.out.cell)).contains(y),
{
    lemma_points_of_branches(n.ops, 0, n.out.cell, Seq::empty(), m);
    assert(branch_points(n.ops, 0, n.out.cell, Seq::empty(), m).1.contains(y));
}

/// The value of a source, shared: the same memory with the same lengths, in the same order,
/// behind the same events.
pub proof fn law_shared_value_is_the_same_memory(
    n: Box<Arced>,
    pre: Walk,
    post: Walk,
    mode: ExecMode,
) -> (r: (Walk, ParcelView))
    requires
        runs_of(DeviceOp::Arced(n), pre, post, mode, Ok(())),
    ensures
        ({
            let (m, p) = r;
            &&& collects_of(n.source, pre, m, ExecMode::Pipelined, Ok(p))
            &&& post.trace == m.trace
            &&& outs_of(DeviceOp::Arced(n)) == seq![n.out]
            &&& post.w.parcel(n.out.cell) matches Some(q) && {
                &&& q.value.len() == p.value.len()
                &&& forall|i: int|
                    0 <= i < p.value.len() ==> {
                        let (a, b) = (p.value[i], #[trigger] q.value[i]);
                        b.shared && b.id == a.id && b.class == a.class && b.len == a.len && b.bytes == a.bytes
                            && b.mem_spec() == a.mem_spec()
                    }
                &&& q.home is None
                &&& m.cb.live() is Off ==> q.deps == p.deps
                &&& m.cb.live() is Build && output_pipe_of(n.source) is Some && output_pipe_of(
                    n.source,
                )->Some_0.cell != n.out.cell ==> post.sp_of(Some(n.out.cell)) == m.sp_of(
                    Some(output_pipe_of(n.source)->Some_0.cell),
                )
            }
        }),
{
    let res = Ok::<(), Error>(());
    let (m, h) = choose|m: Walk, r: OpResult<ParcelView>|
        (#[trigger] passes(m, r)) && collects_of(n.source, pre, m, ExecMode::Pipelined, r) && match r {
            Err(e) => post == m && res == Err::<(), Error>(e),
            Ok(p) => post == arced_after(*n, m, p) && res == Ok::<(), Error>(()),
        };
    let p = h->Ok_0;
    assert(post == arced_after(*n, m, p));
    (m, p)
}

proof fn lemma_split_reaches(src: Option<u64>, outs: Seq<Pipe>, i: nat, m: Walk, p: ParcelView, c: u64)
    requires
        i <= outs.len(),
        m.w.parcel(c) == Some(
            ParcelView {
                value: p.value,
                deps: if m.cb.live() is Off {
                    p.deps
                } else {
                    Seq::empty()
                },
                home: None,
            },
        ),
    ensures
        split_from(src, outs, i, m, p).w.parcel(c) == m.w.parcel(c),
        split_from(src, outs, i, m, p).trace == m.trace,
    decreases outs.len() - i,
{
    if i < outs.len() {
        let cell = outs[i as int].cell;
        let next = match m.cb.live() {
            WalkMode::Off => m.put(cell, p.value, p.deps, None),
            WalkMode::Build { .. } => passed_through(m, None, src, cell).put(cell, p.value, Seq::empty(), None),
            WalkMode::LendOnly { .. } => m.put(cell, p.value, Seq::empty(), None),
        };
        assert(next.cb == m.cb);
        lemma_split_reaches(src, outs, i + 1, next, p, c);
    }
}

proof fn lemma_split_covers(src: Option<u64>, outs: Seq<Pipe>, i: nat, m: Walk, p: ParcelView, k: int)
    requires
        i <= k < outs.len(),
    ensures
        split_from(src, outs, i, m, p).w.parcel(outs[k].cell) == Some(
            ParcelView {
                value: p.value,
                deps: if m.cb.live() is Off {
                    p.deps
                } else {
                    Seq::empty()
                },
                home: None,
            },
        ),
        split_from(src, outs, i, m, p).trace == m.trace,
    decreases outs.len() - i,
{
    let cell = outs[i as int].cell;
    let next = match m.cb.live() {
        WalkMode::Off => m.put(cell, p.value, p.deps, None),
        WalkMode::Build { .. } => passed_through(m, None, src, cell).put(cell, p.value, Seq::empty(), None),
        WalkMode::LendOnly { .. } => m.put(cell, p.value, Seq::empty(), None),
    };
    assert(next.cb == m.cb);
    if k > i {
        lemma_split_covers(src, outs, i + 1, next, p, k);
    } else {
        lemma_split_reaches(src, outs, i + 1, next, p, cell);
    }
}

/// A value that is split: every branch gets all of it, behind the events of the source.
pub proof fn law_every_branch_gets_the_value(
    n: Box<ArcSplit>,
    pre: Walk,
    post: Walk,
    mode: ExecMode,
) -> (r: (Walk, ParcelView))
    requires
        runs_of(DeviceOp::ArcSplit(n), pre, post, mode, Ok(())),
    ensures
        ({
            let (m, p) = r;
            &&& collects_of(n.source, pre, m, ExecMode::Pipelined, Ok(p))
            &&& outs_of(DeviceOp::ArcSplit(n)) == n.outs@
            &&& forall|k: int|
                0 <= k < n.outs.len() ==> (post.w.parcel((#[trigger] n.outs[k]).cell) matches Some(q) && q.value == p.value
                    && q.home is None && (m.cb.live() is Off ==> q.deps == p.deps))
            &&& n.outs.len() > 0 ==> post.trace == m.trace
        }),
{
    let res = Ok::<(), Error>(());
    let (m, h) = choose|m: Walk, r: OpResult<ParcelView>|
        (#[trigger] passes(m, r)) && collects_of(n.source, pre, m, ExecMode::Pipelined, r) && match r {
            Err(e) => post == m && res == Err::<(), Error>(e),
            Ok(p) => post == split_from(cell_of(output_pipe_of(n.source)), n.outs@, 0, m, p) && res == Ok::<
                (),
                Error,
            >(()),
        };
    let p = h->Ok_0;
    let src = cell_of(output_pipe_of(n.source));
    assert forall|k: int| 0 <= k < n.outs.len() implies (post.w.parcel((#[trigger] n.outs[k]).cell) matches Some(q)
        && q.value == p.value && q.home is None && (m.cb.live() is Off ==> q.deps == p.deps)) by {
        lemma_split_covers(src, n.outs@, 0, m, p, k);
    }
    if n.outs.len() > 0 {
        lemma_split_covers(src, n.outs@, 0, m, p, 0);
    }
    (m, p)
}

/// An op behind a single output: the inner op runs as it is asked to, and its value goes on
/// behind its events.
pub proof fn law_dyn_op_hands_its_value_on(
    n: Box<DeviceDynOp>,
    pre: Walk,
    post: Walk,
    mode: ExecMode,
) -> (r: (Walk, ParcelView))
    requires
        runs_of(DeviceOp::Dyn(n), pre, post, mode, Ok(())),
    ensures
        ({
            let (m, p) = r;
            &&& collects_of(n.inner, pre, m, mode, Ok(p))
            &&& post == m.put(n.out.cell, p.value, p.deps, None)
            &&& outs_of(DeviceOp::Dyn(n)) == seq![n.out]
        }),
{
    let res = Ok::<(), Error>(());
    let (m, h) = choose|m: Walk, r: OpResult<ParcelView>|
        (#[trigger] passes(m, r)) && collects_of(n.inner, pre, m, mode, r) && match r {
            Err(e) => post == m && res == Err::<(), Error>(e),
            Ok(p) => post == m.put(n.out.cell, p.value, p.deps, None) && res == Ok::<(), Error>(()),
        };
    (m, h->Ok_0)
}

/// An op routed to a device: a queue of that device is asked for, the op runs on that queue
/// outside of command buffers, and afterwards the run is back on its own device, queue and
/// command buffer. The value goes on behind the events of the op.
pub proof fn law_routed_op_runs_on_its_device(
    n: Box<OnDevice>,
    pre: Walk,
    post: Walk,
    mode: ExecMode,
) -> (r: (Walk, Walk, ParcelView))
    requires
        runs_of(DeviceOp::OnDevice(n), pre, post, mode, Ok(())),
    ensures
        ({
            let (s, m, p) = r;
            let device = match n.target {
                DeviceTarget::Concrete(d) => d,
                DeviceTarget::Index(i) => pre.devices[i as int],
            };
            &&& s.trace.len() == pre.trace.len() + 1
            &&& did(s, pre.trace.len() as int, Command::Queue { device }, Seq::empty(), s.queue)
            &&& s.device == device
            &&& s.cb is Off
            &&& s.w == pre.w
            &&& collects_of(n.source, s, m, mode, Ok(p))
            &&& post.queue == pre.queue
            &&& post.device == pre.device
            &&& post.cb == pre.cb
            &&& post.trace == m.trace
            &&& outs_of(DeviceOp::OnDevice(n)) == seq![n.out]
            &&& post.w.parcel(n.out.cell) matches Some(q) && q.value == p.value && q.deps == p.deps && q.home is None
        }),
{
    let res = Ok::<(), Error>(());
    let device = n.target.device(pre);
    let q = choose|q: Reply|
        {
            let s = #[trigger] pre.issued(Command::Queue { device: n.target.device(pre) }, Seq::empty(), q);
            match q {
                Err(c) => post == s && res == Err::<(), Error>(Error::OpenCl(c)),
                Ok(queue) => exists|m: Walk, r: OpResult<ParcelView>|
                    (#[trigger] passes(m, r)) && collects_of(n.source, routed(s, queue, n.target.device(pre)), m, mode, r)
                        && match r {
                        Err(e) => post == back_from(m, pre) && res == Err::<(), Error>(e),
                        Ok(p) => post == back_from(m, pre).put(n.out.cell, p.value, p.deps, None) && res == Ok::<
                            (),
                            Error,
                        >(()),
                    },
            }
        };
    let asked = pre.issued(Command::Queue { device }, Seq::empty(), q);
    let s = routed(asked, q->Ok_0, device);
    let (m, h) = choose|m: Walk, r: OpResult<ParcelView>|
        (#[trigger] passes(m, r)) && collects_of(n.source, s, m, mode, r) && match r {
            Err(e) => post == back_from(m, pre) && res == Err::<(), Error>(e),
            Ok(p) => post == back_from(m, pre).put(n.out.cell, p.value, p.deps, None) && res == Ok::<(), Error>(()),
        };
    (s, m, h->Ok_0)
}

/// An op that is timed: on a queue that times nothing it is refused. Else a marker waits on
/// the events of the value, the callback hears of the marker, and the value goes on, with
/// its home, behind the marker.
pub proof fn law_timed_op_reports_its_marker(
    n: Box<Profiled>,
    pre: Walk,
    post: Walk,
    mode: ExecMode,
) -> (r: (Walk, ParcelView, u64, u64))
    requires
        runs_of(DeviceOp::Profiled(n), pre, post, mode, Ok(())),
    ensures
        ({
            let (m, p, bits, ev) = r;
            let at = m.trace.len() as int;
            &&& collects_of(n.source, pre, m, ExecMode::Pipelined, Ok(p))
            &&& post.trace.len() == at + 3
            &&& did(post, at, Command::QueueProperties, Seq::empty(), bits)
            &&& bits & 2 != 0
            &&& did(post, at + 1, Command::Marker, p.deps, ev)
            &&& post.trace[at + 2].command == (Command::ProfilingCallback { event: ev, callback: n.cb })
            &&& post.trace[at + 2].reply is Ok
            &&& outs_of(DeviceOp::Profiled(n)) == seq![n.out]
            &&& post.w.parcel(n.out.cell) matches Some(q) && q.value == p.value && q.home == p.home && q.deps == seq![
                ev,
            ]
        }),
{
    let res = Ok::<(), Error>(());
    let (m, h) = choose|m: Walk, r: OpResult<ParcelView>|
        (#[trigger] passes(m, r)) && collects_of(n.source, pre, m, ExecMode::Pipelined, r) && match r {
            Err(e) => post == m && res == Err::<(), Error>(e),
            Ok(p) => profile_ends(*n, m, p, post, res),
        };
    let p = h->Ok_0;
    let q1 = choose|q1: Reply|
        {
            let s = #[trigger] m.issued(Command::QueueProperties, Seq::empty(), q1);
            match q1 {
                Err(c) => post == s && res == Err::<(), Error>(Error::OpenCl(c)),
                Ok(bits) => if bits & QUEUE_PROFILING_ENABLE == 0 {
                    post == s && res == Err::<(), Error>(Error::ProfilingDisabled)
                } else {
                    profile_marked(*n, s, p, post, res)
                },
            }
        };
    let s = m.issued(Command::QueueProperties, Seq::empty(), q1);
    let q2 = choose|q2: Reply|
        {
            let t = #[trigger] s.issued(Command::Marker, p.deps, q2);
            match q2 {
                Err(c) => post == t && res == Err::<(), Error>(Error::OpenCl(c)),
                Ok(ev) => exists|q3: Reply|
                    {
                        let u = #[trigger] t.issued(
                            Command::ProfilingCallback { event: ev, callback: n.cb },
                            Seq::empty(),
                            q3,
                        );
                        match q3 {
                            Err(c) => post == u && res == Err::<(), Error>(Error::OpenCl(c)),
                            Ok(_) => post == u.put(n.out.cell, p.value, seq![ev], p.home) && res == Ok::<
                                (),
                                Error,
                            >(()),
                        }
                    },
            }
        };
    let t = s.issued(Command::Marker, p.deps, q2);
    let ev = q2->Ok_0;
    let q3 = choose|q3: Reply|
        {
            let u = #[trigger] t.issued(
                Command::ProfilingCallback { event: ev, callback: n.cb },
                Seq::empty(),
                q3,
            );
            match q3 {
                Err(c) => post == u && res == Err::<(), Error>(Error::OpenCl(c)),
                Ok(_) => post == u.put(n.out.cell, p.value, seq![ev], p.home) && res == Ok::<(), Error>(()),
            }
        };
    let u = t.issued(Command::ProfilingCallback { event: ev, callback: n.cb }, Seq::empty(), q3);
    assert(post == u.put(n.out.cell, p.value, seq![ev], p.home));
    assert(u.trace[m.trace.len() as int] == s.trace[m.trace.len() as int]);
    (m, p, q1->Ok_0, ev)
}

/// A queue that times nothing refuses a timed op: nothing but its properties is asked for,
/// and no other op is refused so.
pub proof fn law_timing_needs_a_queue_that_times(n: Profiled, m: Walk, p: ParcelView, post: Walk, res: OpResult<()>)
    requires
        profile_ends(n, m, p, post, res),
    ensures
        post.trace.len() > m.trace.len(),
        post.trace[m.trace.len() as int].command == Command::QueueProperties,
        res == Err::<(), Error>(Error::ProfilingDisabled) <==> (post.trace[m.trace.len() as int].reply matches Ok(bits)
            && bits & 2 == 0),
        res == Err::<(), Error>(Error::ProfilingDisabled) ==> post.trace.len() == m.trace.len() + 1 && post.w == m.w,
{
    let q1 = choose|q1: Reply|
        {
            let s = #[trigger] m.issued(Command::QueueProperties, Seq::empty(), q1);
            match q1 {
                Err(c) => post == s && res == Err::<(), Error>(Error::OpenCl(c)),
                Ok(bits) => if bits & QUEUE_PROFILING_ENABLE == 0 {
                    post == s && res == Err::<(), Error>(Error::ProfilingDisabled)
                } else {
                    profile_marked(n, s, p, post, res)
                },
            }
        };
    let s = m.issued(Command::QueueProperties, Seq::empty(), q1);
    assert(s.trace[m.trace.len() as int].reply == q1);
    if q1 matches Ok(bits) && bits & QUEUE_PROFILING_ENABLE != 0 {
        assert(profile_marked(n, s, p, post, res));
        assert(post.trace[m.trace.len() as int] == s.trace[m.trace.len() as int]);
    }
}

/// What the second part of a sequence left of the first part's output.
pub open spec fn leftover(w: World, source: DeviceOp) -> Option<ParcelView> {
    match output_pipe_of(source) {
        Some(p) => w.parcel(p.cell),
        None => None,
    }
}

/// A sequence outside of command buffers that ran well: the first part ran, then the second,
/// as it was asked to, from where the first ended. Where the second part left the first
/// part's output, it is gone, and the second part's output waits on its events too.
pub proof fn law_sequence_runs_both_parts(n: Box<AndThen>, pre: Walk, post: Walk, mode: ExecMode) -> (r: (Walk, Walk))
    requires
        runs_of(DeviceOp::AndThen(n), pre, post, mode, Ok(())),
    ensures
        ({
            let (m1, m3) = r;
            &&& child_runs(n.source, pre, m1, ExecMode::Pipelined, Ok(()))
            &&& m1.cb is Off ==> {
                &&& child_runs(n.next, m1, m3, mode, Ok(()))
                &&& post.trace == m3.trace
                &&& post.workers == m3.workers
                &&& leftover(m3.w, n.source) is None ==> post.w == m3.w
                &&& leftover(m3.w, n.source) matches Some(x) ==> {
                    &&& post.w.parcel(output_pipe_of(n.source)->Some_0.cell) is None || output_pipe_of(n.next)
                        == output_pipe_of(n.source)
                    &&& output_pipe_of(n.next) matches Some(out) ==> (out.cell != output_pipe_of(n.source)->Some_0.cell
                        && m3.w.parcel(out.cell) is Some ==> post.w.parcel(out.cell) == Some(
                        ParcelView {
                            deps: m3.w.parcel(out.cell)->Some_0.deps + x.deps,
                            ..m3.w.parcel(out.cell)->Some_0
                        },
                    ))
                }
            }
            &&& outs_of(DeviceOp::AndThen(n)) == outs_of(n.next)
            &&& output_pipe_of(DeviceOp::AndThen(n)) == output_pipe_of(n.next)
        }),
{
    let res = Ok::<(), Error>(());
    let (m1, r1) = choose|m1: Walk, r1: OpResult<()>|
        (#[trigger] passes(m1, r1)) && child_runs(n.source, pre, m1, ExecMode::Pipelined, r1) && match r1 {
            Err(e) => post == m1 && res == Err::<(), Error>(e),
            Ok(_) => exists|m2: Walk, c: OpResult<bool>|
                (#[trigger] seam_step(n.source, n.next, m1, m2, c)) && match c {
                    Err(e) => post == m2 && res == Err::<(), Error>(e),
                    Ok(true) => exists|m3: Walk, r3: OpResult<()>|
                        (#[trigger] passes(m3, r3)) && node_runs(n.next, m2.in_mode(WalkMode::Off), m3, mode, r3)
                            && chain_ends(*n, m3.in_mode(m2.cb), r3, post, res),
                    Ok(false) => exists|m3: Walk, r3: OpResult<()>|
                        (#[trigger] passes(m3, r3)) && child_runs(n.next, m2, m3, mode, r3) && chain_ends(
                            *n,
                            m3,
                            r3,
                            post,
                            res,
                        ),
                },
        };
    assert(r1->Ok_0 == ());
    if m1.cb is Off {
        let (m2, c) = choose|m2: Walk, c: OpResult<bool>|
            (#[trigger] seam_step(n.source, n.next, m1, m2, c)) && match c {
                Err(e) => post == m2 && res == Err::<(), Error>(e),
                Ok(true) => exists|m3: Walk, r3: OpResult<()>|
                    (#[trigger] passes(m3, r3)) && node_runs(n.next, m2.in_mode(WalkMode::Off), m3, mode, r3)
                        && chain_ends(*n, m3.in_mode(m2.cb), r3, post, res),
                Ok(false) => exists|m3: Walk, r3: OpResult<()>|
                    (#[trigger] passes(m3, r3)) && child_runs(n.next, m2, m3, mode, r3) && chain_ends(
                        *n,
                        m3,
                        r3,
                        post,
                        res,
                    ),
            };
        assert(m2 == m1 && c == Ok::<bool, Error>(false));
        let (m3, r3) = choose|m3: Walk, r3: OpResult<()>|
            (#[trigger] passes(m3, r3)) && child_runs(n.next, m1, m3, mode, r3) && chain_ends(*n, m3, r3, post, res);
        assert(r3->Ok_0 == ());
        (m1, m3)
    } else {
        (m1, m1)
    }
}

/// A sequence outside of command buffers whose value is taken: the first part ran, then the
/// value is that of the second part, and it waits on the second part's events. Where the
/// second part left the first part's output, the value waits on its events too.
pub proof fn law_sequence_gives_its_second_value(
    n: Box<AndThen>,
    pre: Walk,
    post: Walk,
    mode: ExecMode,
    p: ParcelView,
) -> (r: (Walk, Walk, ParcelView))
    requires
        collects_of(DeviceOp::AndThen(n), pre, post, mode, Ok(p)),
    ensures
        ({
            let (m1, m3, q) = r;
            &&& child_runs(n.source, pre, m1, ExecMode::Pipelined, Ok(()))
            &&& m1.cb is Off ==> {
                &&& collects_of(n.next, m1, m3, mode, Ok(q))
                &&& p.value == q.value
                &&& p.home == q.home
                &&& forall|e: u64|
                    q.deps.contains(e) || (leftover(m3.w, n.source) matches Some(x) && x.deps.contains(e))
                        ==> #[trigger] p.deps.contains(e)
                &&& leftover(post.w, n.source) is None
                &&& post.trace == m3.trace
            }
        }),
{
    let res = Ok::<ParcelView, Error>(p);
    let (m1, r1) = choose|m1: Walk, r1: OpResult<()>|
        (#[trigger] passes(m1, r1)) && child_runs(n.source, pre, m1, ExecMode::Pipelined, r1) && match r1 {
            Err(e) => post == m1 && res == Err::<ParcelView, Error>(e),
            Ok(_) => exists|m2: Walk, c: OpResult<bool>|
                (#[trigger] seam_step(n.source, n.next, m1, m2, c)) && match c {
                    Err(e) => post == m2 && res == Err::<ParcelView, Error>(e),
                    Ok(true) => exists|m3: Walk, r3: OpResult<ParcelView>|
                        (#[trigger] passes(m3, r3)) && collects_of(n.next, m2.in_mode(WalkMode::Off), m3, mode, r3)
                            && chain_collected(*n, m3.in_mode(m2.cb), r3, post, res),
                    Ok(false) => exists|m3: Walk, r3: OpResult<ParcelView>|
                        (#[trigger] passes(m3, r3)) && child_collects(n.next, m2, m3, mode, r3) && chain_collected(
                            *n,
                            m3,
                            r3,
                            post,
                            res,
                        ),
                },
        };
    assert(r1->Ok_0 == ());
    if m1.cb is Off {
        let (m2, c) = choose|m2: Walk, c: OpResult<bool>|
            (#[trigger] seam_step(n.source, n.next, m1, m2, c)) && match c {
                Err(e) => post == m2 && res == Err::<ParcelView, Error>(e),
                Ok(true) => exists|m3: Walk, r3: OpResult<ParcelView>|
                    (#[trigger] passes(m3, r3)) && collects_of(n.next, m2.in_mode(WalkMode::Off), m3, mode, r3)
                        && chain_collected(*n, m3.in_mode(m2.cb), r3, post, res),
                Ok(false) => exists|m3: Walk, r3: OpResult<ParcelView>|
                    (#[trigger] passes(m3, r3)) && child_collects(n.next, m2, m3, mode, r3) && chain_collected(
                        *n,
                        m3,
                        r3,
                        post,
                        res,
                    ),
            };
        assert(m2 == m1 && c == Ok::<bool, Error>(false));
        let (m3, r3) = choose|m3: Walk, r3: OpResult<ParcelView>|
            (#[trigger] passes(m3, r3)) && child_collects(n.next, m1, m3, mode, r3) && chain_collected(
                *n,
                m3,
                r3,
                post,
                res,
            );
        let q = r3->Ok_0;
        assert forall|e: u64|
            q.deps.contains(e) || (leftover(m3.w, n.source) matches Some(x) && x.deps.contains(e)) implies #[trigger] p.deps.contains(
            e,
        ) by {
            if q.deps.contains(e) {
                let k = q.deps.index_of(e);
                assert(p.deps[k] == e);
            } else {
                let k = leftover(m3.w, n.source)->Some_0.deps.index_of(e);
                assert(p.deps[q.deps.len() + k] == e);
            }
        }
        (m1, m3, q)
    } else {
        (m1, m1, p)
    }
}

/// A sequence outside of command buffers whose outputs are checked out: the first part ran,
/// then the checkouts are those of the second part, and they wait on its events. Where the
/// second part left the first part's output, they wait on its events too.
pub proof fn law_sequence_checks_its_second_part_out(
    n: Box<AndThen>,
    pre: Walk,
    post: Walk,
    mode: ExecMode,
    g: GatheredView,
) -> (r: (Walk, Walk, GatheredView))
    requires
        gathers_of(DeviceOp::AndThen(n), pre, post, mode, Ok(g)),
    ensures
        ({
            let (m1, m3, q) = r;
            &&& child_runs(n.source, pre, m1, ExecMode::Pipelined, Ok(()))
            &&& m1.cb is Off ==> {
                &&& child_gathers(n.next, m1, m3, mode, Ok(q))
                &&& g.outs == q.outs
                &&& forall|e: u64|
                    q.deps.contains(e) || (leftover(m3.w, n.source) matches Some(x) && x.deps.contains(e))
                        ==> #[trigger] g.deps.contains(e)
                &&& leftover(post.w, n.source) is None
                &&& post.trace == m3.trace
            }
        }),
{
    let res = Ok::<GatheredView, Error>(g);
    let (m1, r1) = choose|m1: Walk, r1: OpResult<()>|
        (#[trigger] passes(m1, r1)) && child_runs(n.source, pre, m1, ExecMode::Pipelined, r1) && match r1 {
            Err(e) => post == m1 && res == Err::<GatheredView, Error>(e),
            Ok(_) => exists|m2: Walk, c: OpResult<bool>|
                (#[trigger] seam_step(n.source, n.next, m1, m2, c)) && match c {
                    Err(e) => post == m2 && res == Err::<GatheredView, Error>(e),
                    Ok(true) => exists|m3: Walk, r3: OpResult<GatheredView>|
                        (#[trigger] passes(m3, r3)) && node_gathers(n.next, m2.in_mode(WalkMode::Off), m3, mode, r3)
                            && chain_gathered(*n, m3.in_mode(m2.cb), r3, post, res),
                    Ok(false) => exists|m3: Walk, r3: OpResult<GatheredView>|
                        (#[trigger] passes(m3, r3)) && child_gathers(n.next, m2, m3, mode, r3) && chain_gathered(
                            *n,
                            m3,
                            r3,
                            post,
                            res,
                        ),
                },
        };
    assert(r1->Ok_0 == ());
    if m1.cb is Off {
        let (m2, c) = choose|m2: Walk, c: OpResult<bool>|
            (#[trigger] seam_step(n.source, n.next, m1, m2, c)) && match c {
                Err(e) => post == m2 && res == Err::<GatheredView, Error>(e),
                Ok(true) => exists|m3: Walk, r3: OpResult<GatheredView>|
                    (#[trigger] passes(m3, r3)) && node_gathers(n.next, m2.in_mode(WalkMode::Off), m3, mode, r3)
                        && chain_gathered(*n, m3.in_mode(m2.cb), r3, post, res),
                Ok(false) => exists|m3: Walk, r3: OpResult<GatheredView>|
                    (#[trigger] passes(m3, r3)) && child_gathers(n.next, m2, m3, mode, r3) && chain_gathered(
                        *n,
                        m3,
                        r3,
                        post,
                        res,
                    ),
            };
        assert(m2 == m1 && c == Ok::<bool, Error>(false));
        let (m3, r3) = choose|m3: Walk, r3: OpResult<GatheredView>|
            (#[trigger] passes(m3, r3)) && child_gathers(n.next, m1, m3, mode, r3) && chain_gathered(
                *n,
                m3,
                r3,
                post,
                res,
            );
        let q = r3->Ok_0;
        assert forall|e: u64|
            q.deps.contains(e) || (leftover(m3.w, n.source) matches Some(x) && x.deps.contains(e)) implies #[trigger] g.deps.contains(
            e,
        ) by {
            if q.deps.contains(e) {
                let k = q.deps.index_of(e);
                assert(g.deps[k] == e);
            } else {
                let k = leftover(m3.w, n.source)->Some_0.deps.index_of(e);
                assert(g.deps[q.deps.len() + k] == e);
            }
        }
        (m1, m3, q)
    } else {
        (m1, m1, g)
    }
}

/// Whether an op hands its source's outputs to a host closure, and on to these pipes.
pub open spec fn hosts(op: DeviceOp, source: DeviceOp, f: u64, with_context: bool, handle: Seq<Pipe>) -> bool {
    match op {
        DeviceOp::Host(n) => n.source == source && n.f == f && !with_context && n.handle@ == handle,
        DeviceOp::HostWithContext(n) => n.source == source && n.f == f && with_context && n.handle@ == handle,
        _ => false,
    }
}

/// A host closure behind an op: the source's outputs are checked out, the closure is woven in
/// over all their values, in order, behind all their events, and each output goes on to its
/// own pipe, with its home, behind the events that the closure's weaving gave.
pub proof fn law_host_op_hands_its_outputs_on(
    op: DeviceOp,
    source: DeviceOp,
    f: u64,
    with_context: bool,
    handle: Seq<Pipe>,
    pre: Walk,
    post: Walk,
    mode: ExecMode,
) -> (r: (Walk, GatheredView, Walk, Walk, Seq<u64>))
    requires
        hosts(op, source, f, with_context, handle),
        runs_of(op, pre, post, mode, Ok(())),
        forall|a: int, b: int|
            0 <= a < b < handle.len() ==> (#[trigger] handle[a]).cell != (#[trigger] handle[b]).cell,
    ensures
        ({
            let (m1, g, m2, m3, evs) = r;
            &&& child_gathers(source, pre, m1, ExecMode::Pipelined, Ok(g))
            &&& m2.trace == m1.trace
            &&& m2.workers == m1.workers
            &&& m2.w == m1.w
            &&& seam_runs(values_out(g.outs), g.deps, f, with_context, m2, m3, Ok(evs))
            &&& outs_of(op) == handle
            &&& forall|k: int|
                0 <= k < handle.len() && k < g.outs.len() ==> (post.w.parcel((#[trigger] handle[k]).cell) matches Some(q)
                    && q.value == g.outs[k].value && q.home == g.outs[k].home && q.deps == evs)
            &&& handle.len() > 0 && g.outs.len() > 0 ==> post.trace == m3.trace
        }),
{
    let res = Ok::<(), Error>(());
    let out = output_pipe_of(op);
    let (m1, r1) = choose|m1: Walk, r1: OpResult<GatheredView>|
        (#[trigger] passes(m1, r1)) && child_gathers(source, pre, m1, ExecMode::Pipelined, r1) && match r1 {
            Err(e) => post == m1 && res == Err::<(), Error>(e),
            Ok(g) => exists|m3: Walk, r3: OpResult<Seq<u64>>|
                (#[trigger] passes(m3, r3)) && seam_runs(
                    out_values(g.outs),
                    g.deps,
                    f,
                    with_context,
                    seam_reach(output_pipe_of(source), out, m1),
                    m3,
                    r3,
                ) && match r3 {
                    Err(e) => post == m3 && res == Err::<(), Error>(e),
                    Ok(deps) => post == scatter_from(handle, g.outs, 0, deps, m3) && res == Ok::<(), Error>(()),
                },
        };
    let g = r1->Ok_0;
    let m2 = seam_reach(output_pipe_of(source), out, m1);
    let (m3, r3) = choose|m3: Walk, r3: OpResult<Seq<u64>>|
        (#[trigger] passes(m3, r3)) && seam_runs(out_values(g.outs), g.deps, f, with_context, m2, m3, r3) && match r3 {
            Err(e) => post == m3 && res == Err::<(), Error>(e),
            Ok(deps) => post == scatter_from(handle, g.outs, 0, deps, m3) && res == Ok::<(), Error>(()),
        };
    let evs = r3->Ok_0;
    law_checkouts_stand_in_order(g.outs);
    assert forall|k: int| 0 <= k < handle.len() && k < g.outs.len() implies (post.w.parcel((#[trigger] handle[k]).cell)
        matches Some(q) && q.value == g.outs[k].value && q.home == g.outs[k].home && q.deps == evs) by {
        law_seam_hands_every_output_on(handle, g.outs, 0, evs, m3, k);
    }
    if handle.len() > 0 && g.outs.len() > 0 {
        law_seam_hands_every_output_on(handle, g.outs, 0, evs, m3, 0);
    }
    (m1, g, m2, m3, evs)
}

/// A host closure behind an op whose outputs are checked out: the closure is woven in over
/// all values of the source, in order, behind all their events; the checkouts are those of
/// the source, and they wait on what the weaving gave.
pub proof fn law_host_op_checks_its_outputs_out(
    op: DeviceOp,
    source: DeviceOp,
    f: u64,
    with_context: bool,
    handle: Seq<Pipe>,
    pre: Walk,
    post: Walk,
    mode: ExecMode,
    out: GatheredView,
) -> (r: (Walk, GatheredView))
    requires
        hosts(op, source, f, with_context, handle),
        gathers_of(op, pre, post, mode, Ok(out)),
    ensures
        ({
            let (m1, g) = r;
            &&& child_gathers(source, pre, m1, ExecMode::Pipelined, Ok(g))
            &&& seam_runs(values_out(g.outs), g.deps, f, with_context, m1, post, Ok(out.deps))
            &&& out.outs == g.outs
        }),
{
    let res = Ok::<GatheredView, Error>(out);
    assert(host_gathers(source, f, with_context, pre, post, res));
    let (m1, r1) = choose|m1: Walk, r1: OpResult<GatheredView>|
        (#[trigger] passes(m1, r1)) && child_gathers(source, pre, m1, ExecMode::Pipelined, r1) && match r1 {
            Err(e) => post == m1 && res == Err::<GatheredView, Error>(e),
            Ok(g) => exists|m3: Walk, r3: OpResult<Seq<u64>>|
                (#[trigger] passes(m3, r3)) && seam_runs(out_values(g.outs), g.deps, f, with_context, m1, m3, r3) && post
                    == m3 && res == (match r3 {
                    Err(e) => Err::<GatheredView, Error>(e),
                    Ok(deps) => Ok(GatheredView { outs: g.outs, deps }),
                }),
        };
    law_checkouts_stand_in_order(r1->Ok_0.outs);
    (m1, r1->Ok_0)
}

/// The value that is taken of an op other than a sequence or a bundle: the op runs as it is
/// asked to, and the value is what lies on its pipes then, in the order of the pipes, behind
/// all their events. The value of a single pipe has the home that it has there.
pub proof fn law_taken_value_is_what_the_op_left(
    op: DeviceOp,
    pre: Walk,
    post: Walk,
    mode: ExecMode,
    p: ParcelView,
) -> (r: (Walk, Seq<ParcelView>))
    requires
        !(op is AndThen),
        !(op is Bundle),
        collects_of(op, pre, post, mode, Ok(p)),
    ensures
        ({
            let (m, ps) = r;
            &&& runs_of(op, pre, m, mode, Ok(()))
            &&& ps.len() == outs_of(op).len()
            &&& forall|k: int| 0 <= k < ps.len() ==> m.w.parcel(outs_of(op)[k].cell) == Some(#[trigger] ps[k])
            &&& p.value == values_in(ps)
            &&& p.deps == events_in(ps)
            &&& ps.len() == 1 ==> p == ps[0]
            &&& post.trace == m.trace
            &&& forall|k: int| 0 <= k < outs_of(op).len() ==> post.w.parcel((#[trigger] outs_of(op)[k]).cell) is None
        }),
{
    let res = Ok::<ParcelView, Error>(p);
    let (m, h) = choose|m: Walk, r: OpResult<()>|
        (#[trigger] passes(m, r)) && runs_of(op, pre, m, mode, r) && match r {
            Err(e) => post == m && res == Err::<ParcelView, Error>(e),
            Ok(_) => {
                let (w, d) = drain_from(outs_of(op), 0, Seq::empty(), m.w);
                post == m.at(w) && res == (match d {
                    Ok(ps) => Ok::<ParcelView, Error>(merged(ps)),
                    Err(k) => Err(missing_of(op, k)),
                })
            },
        };
    assert(h->Ok_0 == ());
    let ps = drain_from(outs_of(op), 0, Seq::empty(), m.w).1->Ok_0;
    law_outputs_are_taken_in_order(outs_of(op), m.w);
    law_parcels_stand_in_order(ps);
    if ps.len() == 1 {
        assert(p =~= ps[0]);
    }
    (m, ps)
}

/// The outputs that are checked out of a leaf or an op with pipes of its own: the op runs as it
/// is asked to, and each output is what lies on its pipe then, with its home; they wait on the
/// events of all.
pub proof fn law_checked_out_outputs_are_what_the_op_left(
    op: DeviceOp,
    pre: Walk,
    post: Walk,
    mode: ExecMode,
    g: GatheredView,
) -> (r: (Walk, Seq<ParcelView>))
    requires
        !(op is AndThen) && !(op is Bundle) && !(op is FanOut) && !(op is Host) && !(op is HostWithContext),
        gathers_of(op, pre, post, mode, Ok(g)),
    ensures
        ({
            let (m, ps) = r;
            &&& runs_of(op, pre, m, mode, Ok(()))
            &&& ps.len() == outs_of(op).len()
            &&& g.outs.len() == ps.len()
            &&& forall|k: int|
                0 <= k < ps.len() ==> m.w.parcel(outs_of(op)[k].cell) == Some(#[trigger] ps[k]) && g.outs[k].value == ps[k].value
                    && g.outs[k].home == ps[k].home
            &&& g.deps == events_in(ps)
            &&& post.trace == m.trace
        }),
{
    let res = Ok::<GatheredView, Error>(g);
    let (m, h) = choose|m: Walk, r: OpResult<()>|
        (#[trigger] passes(m, r)) && runs_of(op, pre, m, mode, r) && match r {
            Err(e) => post == m && res == Err::<GatheredView, Error>(e),
            Ok(_) => {
                let (w, d) = drain_from(outs_of(op), 0, Seq::empty(), m.w);
                post == m.at(w) && res == (match d {
                    Ok(ps) => Ok::<GatheredView, Error>(checked_out(ps)),
                    Err(k) => Err(missing_of(op, k)),
                })
            },
        };
    assert(h->Ok_0 == ());
    let ps = drain_from(outs_of(op), 0, Seq::empty(), m.w).1->Ok_0;
    law_outputs_are_taken_in_order(outs_of(op), m.w);
    law_parcels_stand_in_order(ps);
    assert forall|k: int| 0 <= k < ps.len() implies m.w.parcel(outs_of(op)[k].cell) == Some(#[trigger] ps[k])
        && g.outs[k].value == ps[k].value && g.outs[k].home == ps[k].home by {
        assert(checked_out(ps).outs[k].value == ps[k].value);
    }
    (m, ps)
}

proof fn lemma_split_points(src: u64, outs: Seq<Pipe>, i: nat, m: Walk, p: ParcelView, k: int)
    requires
        m.cb.live() is Build,
        i <= k < outs.len(),
        forall|j: int| 0 <= j < outs.len() ==> (#[trigger] outs[j]).cell != src,
    ensures
        split_from(Some(src), outs, i, m, p).sp_of(Some(outs[k].cell)) == m.sp_of(Some(src)),
    decreases outs.len() - i,
{
    let cell = outs[i as int].cell;
    let next = passed_through(m, None, Some(src), cell).put(cell, p.value, Seq::empty(), None);
    assert(next.cb == m.cb);
    assert(next.sp_of(Some(src)) == m.sp_of(Some(src)));
    if k > i {
        lemma_split_points(src, outs, i + 1, next, p, k);
    } else {
        lemma_split_points_stay(src, outs, i + 1, next, p, cell);
    }
}

proof fn lemma_split_points_stay(src: u64, outs: Seq<Pipe>, i: nat, m: Walk, p: ParcelView, c: u64)
    requires
        m.cb.live() is Build,
        m.sp_of(Some(c)) == m.sp_of(Some(src)),
        forall|j: int| 0 <= j < outs.len() ==> (#[trigger] outs[j]).cell != src,
    ensures
        split_from(Some(src), outs, i, m, p).sp_of(Some(c)) == m.sp_of(Some(src)),
    decreases outs.len() - i,
{
    if i < outs.len() {
        let cell = outs[i as int].cell;
        let next = passed_through(m, None, Some(src), cell).put(cell, p.value, Seq::empty(), None);
        assert(next.cb == m.cb);
        assert(next.sp_of(Some(src)) == m.sp_of(Some(src)));
        lemma_split_points_stay(src, outs, i + 1, next, p, c);
    }
}

/// A value that is split inside a command buffer that is built: what follows on every branch
/// waits where the source was waited on.
pub proof fn law_recorded_branches_wait_on_their_source(
    n: ArcSplit,
    source: Pipe,
    m: Walk,
    p: ParcelView,
    k: int,
)
    requires
        m.cb.live() is Build,
        output_pipe_of(n.source) == Some(source),
        0 <= k < n.outs.len(),
        forall|j: int| 0 <= j < n.outs.len() ==> (#[trigger] n.outs@[j]).cell != source.cell,
    ensures
        split_from(cell_of(output_pipe_of(n.source)), n.outs@, 0, m, p).sp_of(Some(n.outs@[k].cell)) == m.sp_of(
            Some(source.cell),
        ),
{
    lemma_split_points(source.cell, n.outs@, 0, m, p, k);
}

/// A sequence that ran well, inside of command buffers or not: the first part ran; where the
/// command buffer ended between the parts, the second part ran outside of it, and the walk goes
/// on with it as submitted; else the second part ran with it.
pub proof fn law_sequence_goes_on_after_a_submission(
    n: Box<AndThen>,
    pre: Walk,
    post: Walk,
    mode: ExecMode,
) -> (r: (Walk, Walk, bool, Walk))
    requires
        runs_of(DeviceOp::AndThen(n), pre, post, mode, Ok(())),
    ensures
        ({
            let (m1, m2, closes, m3) = r;
            &&& child_runs(n.source, pre, m1, ExecMode::Pipelined, Ok(()))
            &&& seam_step(n.source, n.next, m1, m2, Ok(closes))
            &&& closes ==> node_runs(n.next, m2.in_mode(WalkMode::Off), m3, mode, Ok(())) && post.cb == m2.cb
            &&& !closes ==> child_runs(n.next, m2, m3, mode, Ok(())) && post.cb == m3.cb
            &&& post.trace == m3.trace
            &&& post.workers == m3.workers
        }),
{
    let res = Ok::<(), Error>(());
    let (m1, r1) = choose|m1: Walk, r1: OpResult<()>|
        (#[trigger] passes(m1, r1)) && child_runs(n.source, pre, m1, ExecMode::Pipelined, r1) && match r1 {
            Err(e) => post == m1 && res == Err::<(), Error>(e),
            Ok(_) => exists|m2: Walk, c: OpResult<bool>|
                (#[trigger] seam_step(n.source, n.next, m1, m2, c)) && match c {
                    Err(e) => post == m2 && res == Err::<(), Error>(e),
                    Ok(true) => exists|m3: Walk, r3: OpResult<()>|
                        (#[trigger] passes(m3, r3)) && node_runs(n.next, m2.in_mode(WalkMode::Off), m3, mode, r3)
                            && chain_ends(*n, m3.in_mode(m2.cb), r3, post, res),
                    Ok(false) => exists|m3: Walk, r3: OpResult<()>|
                        (#[trigger] passes(m3, r3)) && child_runs(n.next, m2, m3, mode, r3) && chain_ends(*n, m3, r3, post, res),
                },
        };
    assert(r1->Ok_0 == ());
    let (m2, c) = choose|m2: Walk, c: OpResult<bool>|
        (#[trigger] seam_step(n.source, n.next, m1, m2, c)) && match c {
            Err(e) => post == m2 && res == Err::<(), Error>(e),
            Ok(true) => exists|m3: Walk, r3: OpResult<()>|
                (#[trigger] passes(m3, r3)) && node_runs(n.next, m2.in_mode(WalkMode::Off), m3, mode, r3)
                    && chain_ends(*n, m3.in_mode(m2.cb), r3, post, res),
            Ok(false) => exists|m3: Walk, r3: OpResult<()>|
                (#[trigger] passes(m3, r3)) && child_runs(n.next, m2, m3, mode, r3) && chain_ends(*n, m3, r3, post, res),
        };
    if c->Ok_0 {
        let (m3, r3) = choose|m3: Walk, r3: OpResult<()>|
            (#[trigger] passes(m3, r3)) && node_runs(n.next, m2.in_mode(WalkMode::Off), m3, mode, r3) && chain_ends(
                *n,
                m3.in_mode(m2.cb),
                r3,
                post,
                res,
            );
        assert(r3->Ok_0 == ());
        (m1, m2, c->Ok_0, m3)
    } else {
        let (m3, r3) = choose|m3: Walk, r3: OpResult<()>|
            (#[trigger] passes(m3, r3)) && child_runs(n.next, m2, m3, mode, r3) && chain_ends(*n, m3, r3, post, res);
        assert(r3->Ok_0 == ());
        (m1, m2, c->Ok_0, m3)
    }
}

/// The same of a sequence whose value is taken: it is that of the second part.
pub proof fn law_taken_sequence_goes_on_after_a_submission(
    n: Box<AndThen>,
    pre: Walk,
    post: Walk,
    mode: ExecMode,
    out: ParcelView,
) -> (r: (Walk, Walk, bool, Walk, ParcelView))
    requires
        collects_of(DeviceOp::AndThen(n), pre, post, mode, Ok(out)),
    ensures
        ({
            let (m1, m2, closes, m3, q) = r;
            &&& child_runs(n.source, pre, m1, ExecMode::Pipelined, Ok(()))
            &&& seam_step(n.source, n.next, m1, m2, Ok(closes))
            &&& closes ==> collects_of(n.next, m2.in_mode(WalkMode::Off), m3, mode, Ok(q)) && post.cb == m2.cb
            &&& !closes ==> child_collects(n.next, m2, m3, mode, Ok(q)) && post.cb == m3.cb
            &&& post.trace == m3.trace
            &&& post.workers == m3.workers
            &&& out.value == q.value && out.home == q.home
        }),
{
    let res = Ok::<ParcelView, Error>(out);
    let (m1, r1) = choose|m1: Walk, r1: OpResult<()>|
        (#[trigger] passes(m1, r1)) && child_runs(n.source, pre, m1, ExecMode::Pipelined, r1) && match r1 {
            Err(e) => post == m1 && res == Err::<ParcelView, Error>(e),
            Ok(_) => exists|m2: Walk, c: OpResult<bool>|
                (#[trigger] seam_step(n.source, n.next, m1, m2, c)) && match c {
                    Err(e) => post == m2 && res == Err::<ParcelView, Error>(e),
                    Ok(true) => exists|m3: Walk, r3: OpResult<ParcelView>|
                        (#[trigger] passes(m3, r3)) && collects_of(n.next, m2.in_mode(WalkMode::Off), m3, mode, r3)
                            && chain_collected(*n, m3.in_mode(m2.cb), r3, post, res),
                    Ok(false) => exists|m3: Walk, r3: OpResult<ParcelView>|
                        (#[trigger] passes(m3, r3)) && child_collects(n.next, m2, m3, mode, r3) && chain_collected(*n, m3, r3, post, res),
                },
        };
    assert(r1->Ok_0 == ());
    let (m2, c) = choose|m2: Walk, c: OpResult<bool>|
        (#[trigger] seam_step(n.source, n.next, m1, m2, c)) && match c {
            Err(e) => post == m2 && res == Err::<ParcelView, Error>(e),
            Ok(true) => exists|m3: Walk, r3: OpResult<ParcelView>|
                (#[trigger] passes(m3, r3)) && collects_of(n.next, m2.in_mode(WalkMode::Off), m3, mode, r3)
                    && chain_collected(*n, m3.in_mode(m2.cb), r3, post, res),
            Ok(false) => exists|m3: Walk, r3: OpResult<ParcelView>|
                (#[trigger] passes(m3, r3)) && child_collects(n.next, m2, m3, mode, r3) && chain_collected(*n, m3, r3, post, res),
        };
    if c->Ok_0 {
        let (m3, r3) = choose|m3: Walk, r3: OpResult<ParcelView>|
            (#[trigger] passes(m3, r3)) && collects_of(n.next, m2.in_mode(WalkMode::Off), m3, mode, r3) && chain_collected(
                *n,
                m3.in_mode(m2.cb),
                r3,
                post,
                res,
            );
        (m1, m2, c->Ok_0, m3, r3->Ok_0)
    } else {
        let (m3, r3) = choose|m3: Walk, r3: OpResult<ParcelView>|
            (#[trigger] passes(m3, r3)) && child_collects(n.next, m2, m3, mode, r3) && chain_collected(*n, m3, r3, post, res);
        (m1, m2, c->Ok_0, m3, r3->Ok_0)
    }
}

/// The same of a sequence whose outputs are checked out: they are those of the second part.
pub proof fn law_gathered_sequence_goes_on_after_a_submission(
    n: Box<AndThen>,
    pre: Walk,
    post: Walk,
    mode: ExecMode,
    out: GatheredView,
) -> (r: (Walk, Walk, bool, Walk, GatheredView))
    requires
        gathers_of(DeviceOp::AndThen(n), pre, post, mode, Ok(out)),
    ensures
        ({
            let (m1, m2, closes, m3, q) = r;
            &&& child_runs(n.source, pre, m1, ExecMode::Pipelined, Ok(()))
            &&& seam_step(n.source, n.next, m1, m2, Ok(closes))
            &&& closes ==> node_gathers(n.next, m2.in_mode(WalkMode::Off), m3, mode, Ok(q)) && post.cb == m2.cb
            &&& !closes ==> child_gathers(n.next, m2, m3, mode, Ok(q)) && post.cb == m3.cb
            &&& post.trace == m3.trace
            &&& post.workers == m3.workers
            &&& out.outs == q.outs
        }),
{
    let res = Ok::<GatheredView, Error>(out);
    let (m1, r1) = choose|m1: Walk, r1: OpResult<()>|
        (#[trigger] passes(m1, r1)) && child_runs(n.source, pre, m1, ExecMode::Pipelined, r1) && match r1 {
            Err(e) => post == m1 && res == Err::<GatheredView, Error>(e),
            Ok(_) => exists|m2: Walk, c: OpResult<bool>|
                (#[trigger] seam_step(n.source, n.next, m1, m2, c)) && match c {
                    Err(e) => post == m2 && res == Err::<GatheredView, Error>(e),
                    Ok(true) => exists|m3: Walk, r3: OpResult<GatheredView>|
                        (#[trigger] passes(m3, r3)) && node_gathers(n.next, m2.in_mode(WalkMode::Off), m3, mode, r3)
                            && chain_gathered(*n, m3.in_mode(m2.cb), r3, post, res),
                    Ok(false) => exists|m3: Walk, r3: OpResult<GatheredView>|
                        (#[trigger] passes(m3, r3)) && child_gathers(n.next, m2, m3, mode, r3) && chain_gathered(*n, m3, r3, post, res),
                },
        };
    assert(r1->Ok_0 == ());
    let (m2, c) = choose|m2: Walk, c: OpResult<bool>|
        (#[trigger] seam_step(n.source, n.next, m1, m2, c)) && match c {
            Err(e) => post == m2 && res == Err::<GatheredView, Error>(e),
            Ok(true) => exists|m3: Walk, r3: OpResult<GatheredView>|
                (#[trigger] passes(m3, r3)) && node_gathers(n.next, m2.in_mode(WalkMode::Off), m3, mode, r3)
                    && chain_gathered(*n, m3.in_mode(m2.cb), r3, post, res),
            Ok(false) => exists|m3: Walk, r3: OpResult<GatheredView>|
                (#[trigger] passes(m3, r3)) && child_gathers(n.next, m2, m3, mode, r3) && chain_gathered(*n, m3, r3, post, res),
        };
    if c->Ok_0 {
        let (m3, r3) = choose|m3: Walk, r3: OpResult<GatheredView>|
            (#[trigger] passes(m3, r3)) && node_gathers(n.next, m2.in_mode(WalkMode::Off), m3, mode, r3) && chain_gathered(
                *n,
                m3.in_mode(m2.cb),
                r3,
                post,
                res,
            );
        (m1, m2, c->Ok_0, m3, r3->Ok_0)
    } else {
        let (m3, r3) = choose|m3: Walk, r3: OpResult<GatheredView>|
            (#[trigger] passes(m3, r3)) && child_gathers(n.next, m2, m3, mode, r3) && chain_gathered(*n, m3, r3, post, res);
        (m1, m2, c->Ok_0, m3, r3->Ok_0)
    }
}

proof fn lemma_reach_of_branches(ops: Vec<DeviceOp>, i: nat, out: u64, sps: Seq<u64>, m: Walk, y: u64)
    requires
        forall|k: int|
            i <= k < ops.len() ==> (output_pipe_of(#[trigger] ops[k]) matches Some(p) ==> p.cell != out),
        m.reach_of(Some(out)).contains(y) || exists|k: int|
            i <= k < ops.len() && (output_pipe_of(#[trigger] ops[k]) matches Some(p) && m.reach_of(
                Some(p.cell),
            ).contains(y)),
    ensures
        branch_points(ops, i, out, sps, m).0.reach_of(Some(out)).contains(y),
    decreases ops.len() - i,
{
    if i < ops.len() {
        let op = ops[i as int];
        match output_pipe_of(op) {
            None => {
                if !m.reach_of(Some(out)).contains(y) {
                    let k = choose|k: int|
                        i <= k < ops.len() && (output_pipe_of(#[trigger] ops[k]) matches Some(p) && m.reach_of(
                            Some(p.cell),
                        ).contains(y));
                    assert(i + 1 <= k);
                    assert(output_pipe_of(ops[k]) is Some);
                }
                lemma_reach_of_branches(ops, i + 1, out, sps, m, y);
            },
            Some(p) => {
                let origins = m.reach_of(Some(p.cell));
                let m1 = m.reaching(out, m.origins(None, Some(p.cell)));
                lemma_ids_are_added(m.reach_of(Some(out)), origins);
                assert(output_pipe_of(ops[i as int]) matches Some(p) ==> p.cell != out);
                if !m1.reach_of(Some(out)).contains(y) {
                    let k = choose|k: int|
                        i <= k < ops.len() && (output_pipe_of(#[trigger] ops[k]) matches Some(p) && m.reach_of(
                            Some(p.cell),
                        ).contains(y));
                    assert(k != i);
                    let c = output_pipe_of(ops[k])->Some_0.cell;
                    assert(m1.reach_of(Some(c)) == m.reach_of(Some(c)));
                    assert(i + 1 <= k < ops.len() && m1.reach_of(Some(c)).contains(y));
                }
                lemma_reach_of_branches(ops, i + 1, out, with_ids(sps, m.sp_of(Some(p.cell))), m1, y);
            },
        }
    }
}

/// A fan-out inside a command buffer that is built: its output comes from every slot that one of
/// its branches comes from, so that a change of any of them is noticed.
pub proof fn law_recorded_fan_out_comes_from_every_branch(
    n: FanOut,
    m: Walk,
    ps: Seq<ParcelView>,
    post: Walk,
    k: int,
    y: u64,
)
    requires
        fan_ends(n, m, ps, post, Ok(())),
        m.cb is Build,
        0 <= k < n.ops.len(),
        output_pipe_of(n.ops[k]) matches Some(p) && m.reach_of(Some(p.cell)).contains(y),
        forall|j: int|
            0 <= j < n.ops.len() ==> (output_pipe_of(#[trigger] n.ops[j]) matches Some(p) ==> p.cell != n.out.cell),
    ensures
        post.reach_of(Some(n.out.cell)).contains(y),
{
    lemma_reach_of_branches(n.ops, 0, n.out.cell, Seq::empty(), m, y);
}

} // verus!
