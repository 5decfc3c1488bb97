//! What command buffers promise: which ops they hold, what building one records,
//! and that a replay enqueues nothing of its own.

use crate::cb::{cb_enqueued, cb_finished, leaf_built, usable_cb};
use crate::copies::{copy_after, Copying};
use crate::entries::{forward_after, lift_after, Forward, Lift};
use crate::error::{Error, OpResult};
use crate::exec_ctx::{ExecMode, Walk, WalkMode};
use crate::graph::{
    addable_from, addable_of, cache_of, head_addable_of, outs_of, restamp_pipes, seam_from, seam_of, weight_from, weight_of,
    AndThen, DeviceOp,
};
use crate::ids::{with_id, with_ids};
use crate::input::{after_taking, found, pipe_of, slot_of};
use crate::kernel_op::{args_set, sets_from};
use crate::launch::ArgValue;
use crate::launch_op::{
    handed_on, launch_built, launch_cells, launch_points, memory_values, number_value, prepared, recorded_launch,
    sharing, taken_deps, Launch, LaunchArg, NumberArg, Prepared, TakenView,
};
use crate::leaf::{leaf_after, work_records, Leaf};
use crate::leaf_op::LeafOp;
use crate::leaves::LeafNode;
use crate::obj::{Command, Issued, Reply};
use crate::store::{ParcelView, Pipe, World};
use crate::walk::{
    all_deps, all_values, arced_after, boundary_gathers, branch_gathers, branch_points, build_end, build_gathers,
    cell_of, chain_collected, chain_ends, chain_gathered, child_collects, child_gathers, child_runs, collects_from,
    collects_of, delivered, drain_from, enqueue_runs, fan_ends, gathers_from, gathers_of, joined_gathers,
    joins_branches, node_gathers, node_runs, open_child_gathers, open_child_runs, opens_boundary, opens_span, passes,
    replay_mode, runs_from, runs_of, seam_step, split_from, GatheredView,
};
use vstd::prelude::*;

verus! {

/// Where the whole of an op can be part of a command buffer, its first op can.
pub proof fn law_addable_from_the_head(op: DeviceOp)
    ensures
        addable_of(op) ==> head_addable_of(op),
    decreases op,
{
    match op {
        DeviceOp::AndThen(n) => {
            law_addable_from_the_head(n.source);
        },
        DeviceOp::Arced(n) => {
            law_addable_from_the_head(n.source);
        },
        DeviceOp::ArcSplit(n) => {
            law_addable_from_the_head(n.source);
        },
        _ => {},
    }
}

/// A host closure is never part of a command buffer.
pub proof fn law_host_closures_stay_out(op: DeviceOp)
    ensures
        seam_of(op) ==> !addable_of(op),
    decreases op,
{
    match op {
        DeviceOp::AndThen(n) => {
            law_host_closures_stay_out(n.source);
            law_host_closures_stay_out(n.next);
        },
        DeviceOp::Arced(n) => {
            law_host_closures_stay_out(n.source);
        },
        DeviceOp::ArcSplit(n) => {
            law_host_closures_stay_out(n.source);
        },
        DeviceOp::Bundle(n) => {
            lemma_host_closures_from(n.ops, 0);
        },
        DeviceOp::FanOut(n) => {
            lemma_host_closures_from(n.ops, 0);
        },
        _ => {},
    }
}

proof fn lemma_host_closures_from(ops: Vec<DeviceOp>, i: nat)
    ensures
        seam_from(ops, i) ==> !addable_from(ops, i),
    decreases ops, ops.len() - i,
{
    if i < ops.len() {
        law_host_closures_stay_out(ops[i as int]);
        lemma_host_closures_from(ops, i + 1);
    }
}

/// An op becomes a command buffer as a whole, or opens one for its head, never
/// both; and neither inside another command buffer, on a context without them,
/// or for fewer than two commands.
pub proof fn law_when_command_buffers_open(op: DeviceOp, s: Walk)
    ensures
        !(opens_boundary(op, s) && opens_span(op, s)),
        opens_boundary(op, s) || opens_span(op, s) ==> s.cb is Off && s.has_cb && weight_of(op) >= 2 && cache_of(
            op,
        ) is Some,
        opens_boundary(op, s) ==> !seam_of(op),
{
    law_host_closures_stay_out(op);
}

/// Whether a run is inside a command buffer that was not submitted yet.
pub open spec fn inside(s: Walk) -> bool {
    !(s.cb is Off) && !s.cb.is_closed()
}

/// Whether a command only adds to a command buffer, or sets what is to be added: the
/// queue is left alone.
pub open spec fn builds(c: Command) -> bool {
    c is Record || c is SetArg
}

/// What ops inside a command buffer do to the queue: while it is replayed,
/// nothing; while it is built, they only ask for commands to be recorded and set
/// the arguments of kernels, and
/// where all could be, as many as `n` were. The kept command buffers stay.
pub open spec fn stays_inside(pre: Walk, post: Walk, n: nat, ok: bool) -> bool {
    &&& post.w.caches == pre.w.caches
    &&& match (pre.cb, post.cb) {
        (WalkMode::LendOnly { cache: c, closed: k, .. }, WalkMode::LendOnly { cache: d, closed: l, .. }) => {
            &&& c == d
            &&& k == l
            &&& post.trace == pre.trace
        },
        (
            WalkMode::Build { builder: x, cache: c, closed: k, .. },
            WalkMode::Build { builder: y, cache: d, closed: l, .. },
        ) => {
            &&& c == d
            &&& k == l
            &&& x.finalized == y.finalized
            &&& y.eligible ==> x.eligible
            &&& ok && y.eligible ==> y.recorded.len() == x.recorded.len() + n
            &&& pre.trace.len() <= post.trace.len()
            &&& forall|i: int| 0 <= i < pre.trace.len() ==> pre.trace[i] == #[trigger] post.trace[i]
            &&& forall|i: int|
                pre.trace.len() <= i < post.trace.len() ==> builds((#[trigger] post.trace[i]).command)
        },
        _ => false,
    }
}

proof fn lemma_inside_leaf(l: Leaf, pre: Walk, post: Walk, mode: ExecMode, r1: Reply, r2: Reply, res: OpResult<()>)
    requires
        inside(pre),
        work_records(l.work),
        leaf_after(l, pre, mode, r1, r2) == (post, res),
    ensures
        stays_inside(pre, post, 1, res is Ok),
{
}

proof fn lemma_inside_copy(c: Copying, pre: Walk, post: Walk, r1: Reply, res: OpResult<()>)
    requires
        inside(pre),
        copy_after(c, pre, r1) == (post, res),
    ensures
        stays_inside(pre, post, 1, res is Ok),
{
}

proof fn lemma_inside_lift(l: Lift, pre: Walk, post: Walk, res: OpResult<()>)
    requires
        inside(pre),
        lift_after(l, pre) == (post, res),
    ensures
        stays_inside(pre, post, 0, res is Ok),
{
}

proof fn lemma_inside_forward(f: Forward, pre: Walk, post: Walk, res: OpResult<()>)
    requires
        inside(pre),
        forward_after(f, pre) == (post, res),
    ensures
        stays_inside(pre, post, 0, res is Ok),
{
}

proof fn lemma_prepared_keeps_caches(args: Seq<LaunchArg>, i: nat, d: Prepared, barrier: Option<u64>)
    ensures
        prepared(args, i, d, barrier).0.w.caches == d.w.caches,
    decreases args.len() - i,
{
    if i < args.len() {
        match args[i as int] {
            LaunchArg::Local(bytes) => {
                lemma_prepared_keeps_caches(
                    args,
                    i + 1,
                    Prepared { values: d.values.push(ArgValue::Local(bytes)), ..d },
                    barrier,
                );
            },
            LaunchArg::Number(n) => {
                if let Ok(a) = n.reading(d.w) {
                    if let Some(v) = number_value(a) {
                        let cells = match n {
                            NumberArg::Slot { cell, .. } => with_id(d.cells, cell),
                            NumberArg::Given(_) => d.cells,
                        };
                        lemma_prepared_keeps_caches(
                            args,
                            i + 1,
                            Prepared { values: d.values.push(v), cells, ..d },
                            barrier,
                        );
                    }
                }
            },
            LaunchArg::Memory { input, out } => {
                if let Ok(p) = found(d.w, barrier, input) {
                    lemma_prepared_keeps_caches(
                        args,
                        i + 1,
                        Prepared {
                            w: after_taking(d.w, input),
                            values: d.values + memory_values(p.value[0]),
                            taken: d.taken.push(TakenView { parcel: p, input, out }),
                            cells: d.cells,
                        },
                        barrier,
                    );
                }
            },
        }
    }
}

proof fn lemma_handed_on_inside(taken: Seq<TakenView>, i: nat, s: Walk, deps: Seq<u64>)
    ensures
        handed_on(taken, i, s, deps).cb == s.cb,
        handed_on(taken, i, s, deps).trace == s.trace,
        handed_on(taken, i, s, deps).w.caches == s.w.caches,
    decreases taken.len() - i,
{
    if i < taken.len() {
        let t = taken[i as int];
        lemma_handed_on_inside(taken, i + 1, s.put(t.out.cell, t.parcel.value, deps, t.parcel.home), deps);
    }
}

proof fn lemma_launch_points_inside(taken: Seq<TakenView>, i: nat, s: Walk, sp: u64)
    ensures
        launch_points(taken, i, s, sp).cb == s.cb,
        launch_points(taken, i, s, sp).trace == s.trace,
        launch_points(taken, i, s, sp).w == s.w,
    decreases taken.len() - i,
{
    if i < taken.len() {
        lemma_launch_points_inside(taken, i + 1, s.with_sp(taken[i as int].out.cell, seq![sp]), sp);
    }
}

proof fn lemma_launch_built_inside(taken: Seq<TakenView>, i: nat, s: Walk, waits: Seq<u64>)
    requires
        s.cb is Build,
        inside(s),
    ensures
        stays_inside(s, launch_built(taken, i, s, waits).0, 0, true),
        launch_built(taken, i, s, waits).0.trace == s.trace,
    decreases taken.len() - i,
{
    if i < taken.len() {
        let t = taken[i as int];
        let pipe = pipe_of(s.w, t.input);
        let m = leaf_built(s, t.parcel.deps, slot_of(t.input), pipe, t.out.cell);
        assert(stays_inside(s, m, 0, true));
        lemma_launch_built_inside(taken, i + 1, m, with_ids(waits, s.sp_of(pipe)));
        lemma_inside_then(s, m, launch_built(taken, i, s, waits).0, 0, 0, true);
    }
}

proof fn lemma_sets_inside(kernel: u64, args: Seq<ArgValue>, i: nat, pre: Walk, post: Walk, res: OpResult<()>)
    requires
        sets_from(kernel, args, i, pre, post, res),
        pre.cb is Build,
        inside(pre),
    ensures
        stays_inside(pre, post, 0, true),
        post.cb == pre.cb,
    decreases args.len() - i,
{
    if i < args.len() {
        let q = choose|q: Reply|
            {
                let s = #[trigger] pre.issued(
                    Command::SetArg { kernel, index: i as usize, value: args[i as int] },
                    Seq::empty(),
                    q,
                );
                match q {
                    Err(c) => post == s && res == Err::<(), Error>(Error::OpenCl(c)),
                    Ok(_) => sets_from(kernel, args, i + 1, s, post, res),
                }
            };
        let s = pre.issued(
            Command::SetArg { kernel, index: i as usize, value: args[i as int] },
            Seq::empty(),
            q,
        );
        assert(stays_inside(pre, s, 0, true));
        if q is Ok {
            lemma_sets_inside(kernel, args, i + 1, s, post, res);
            lemma_inside_then(pre, s, post, 0, 0, true);
        }
    }
}

proof fn lemma_inside_launch(l: Launch, pre: Walk, post: Walk, mode: ExecMode, res: OpResult<()>)
    requires
        inside(pre),
        l.runs(pre, post, mode, res),
    ensures
        stays_inside(pre, post, 1, res is Ok),
{
    if let Ok(g) = l.grid.reading(pre.w) {
        let d0 = Prepared { w: pre.w, values: Seq::empty(), taken: Seq::empty(), cells: Seq::empty() };
        let (d, r) = prepared(l.args@, 0, d0, pre.start);
        lemma_prepared_keeps_caches(l.args@, 0, d0, pre.start);
        let s = pre.at(d.w);
        if r is Ok {
            if pre.cb is Build {
                let noted = sharing(s, d.taken).noting(launch_cells(l.grid, d.cells));
                assert(stays_inside(pre, noted, 0, true));
                lemma_launch_built_inside(d.taken, 0, noted, Seq::empty());
                let (b, waits) = launch_built(d.taken, 0, noted, Seq::empty());
                lemma_inside_then(pre, noted, b, 0, 0, true);
                let (m, r) = choose|m: Walk, r: OpResult<()>|
                    #[trigger] args_set(m, r) && sets_from(l.kernel, d.values, 0, b, m, r) && match r {
                        Err(e) => post == m && res == Err::<(), Error>(e),
                        Ok(_) => exists|q: Reply|
                            {
                                let t = #[trigger] m.recording(recorded_launch(l.kernel, g@), waits, q);
                                let u = match q {
                                    Ok(sp) => launch_points(d.taken, 0, t, sp),
                                    Err(_) => t,
                                };
                                post == handed_on(d.taken, 0, u, Seq::empty()) && res == Ok::<(), Error>(())
                            },
                    };
                lemma_sets_inside(l.kernel, d.values, 0, b, m, r);
                lemma_inside_then(pre, b, m, 0, 0, true);
                if r is Ok {
                    let q = choose|q: Reply|
                        {
                            let t = #[trigger] m.recording(recorded_launch(l.kernel, g@), waits, q);
                            let u = match q {
                                Ok(sp) => launch_points(d.taken, 0, t, sp),
                                Err(_) => t,
                            };
                            post == handed_on(d.taken, 0, u, Seq::empty()) && res == Ok::<(), Error>(())
                        };
                    let t = m.recording(recorded_launch(l.kernel, g@), waits, q);
                    let u = match q {
                        Ok(sp) => launch_points(d.taken, 0, t, sp),
                        Err(_) => t,
                    };
                    if let Ok(sp) = q {
                        lemma_launch_points_inside(d.taken, 0, t, sp);
                    }
                    lemma_handed_on_inside(d.taken, 0, u, Seq::empty());
                    assert(stays_inside(m, post, 1, true));
                    lemma_inside_then(pre, m, post, 0, 1, true);
                } else {
                    assert(stays_inside(pre, post, 1, false));
                }
            } else {
                lemma_handed_on_inside(
                    d.taken,
                    0,
                    sharing(s, d.taken).external(taken_deps(d.taken, 0)),
                    Seq::empty(),
                );
            }
        }
    }
}

proof fn lemma_inside_leaf_op(l: LeafOp, pre: Walk, post: Walk, mode: ExecMode, res: OpResult<()>)
    requires
        inside(pre),
        l.addable(),
        l.runs(pre, post, mode, res),
    ensures
        stays_inside(pre, post, l.weight(), res is Ok),
{
    match l {
        LeafOp::Fill(x) => {
            let (r1, r2) = choose|r1: Reply, r2: Reply|
                (#[trigger] leaf_after(x.leaf(), pre, mode, r1, r2)) == (post, res);
            lemma_inside_leaf(x.leaf(), pre, post, mode, r1, r2, res);
        },
        LeafOp::FillDeviceUninit(x) => {
            let (r1, r2) = choose|r1: Reply, r2: Reply|
                (#[trigger] leaf_after(x.leaf(), pre, mode, r1, r2)) == (post, res);
            lemma_inside_leaf(x.leaf(), pre, post, mode, r1, r2, res);
        },
        LeafOp::FillMapped(x) => {
            let (r1, r2) = choose|r1: Reply, r2: Reply|
                (#[trigger] leaf_after(x.leaf(), pre, mode, r1, r2)) == (post, res);
            lemma_inside_leaf(x.leaf(), pre, post, mode, r1, r2, res);
        },
        LeafOp::FillMappedUninit(x) => {
            let (r1, r2) = choose|r1: Reply, r2: Reply|
                (#[trigger] leaf_after(x.leaf(), pre, mode, r1, r2)) == (post, res);
            lemma_inside_leaf(x.leaf(), pre, post, mode, r1, r2, res);
        },
        LeafOp::ImageFill(x) => {
            let (r1, r2) = choose|r1: Reply, r2: Reply|
                (#[trigger] leaf_after(x.leaf(), pre, mode, r1, r2)) == (post, res);
            lemma_inside_leaf(x.leaf(), pre, post, mode, r1, r2, res);
        },
        LeafOp::CopyTo2(x) => {
            let r1 = choose|r1: Reply| (#[trigger] copy_after(x.copying(), pre, r1)) == (post, res);
            lemma_inside_copy(x.copying(), pre, post, r1, res);
        },
        LeafOp::ImageCopy(x) => {
            let r1 = choose|r1: Reply| (#[trigger] copy_after(x.copying(), pre, r1)) == (post, res);
            lemma_inside_copy(x.copying(), pre, post, r1, res);
        },
        LeafOp::Launch(x) => {
            lemma_inside_launch(x, pre, post, mode, res);
        },
        LeafOp::Lift(x) => {
            lemma_inside_lift(x, pre, post, res);
        },
        LeafOp::Forward(x) => {
            lemma_inside_forward(x, pre, post, res);
        },
        _ => {},
    }
}

proof fn lemma_inside_then(a: Walk, b: Walk, c: Walk, n: nat, m: nat, ok: bool)
    requires
        inside(a),
        stays_inside(a, b, n, true),
        stays_inside(b, c, m, ok),
    ensures
        stays_inside(a, c, n + m, ok),
        inside(b),
{
}

proof fn lemma_inside_child(op: DeviceOp, pre: Walk, post: Walk, mode: ExecMode, res: OpResult<()>)
    requires
        inside(pre),
        child_runs(op, pre, post, mode, res),
    ensures
        runs_of(op, pre, post, mode, res),
{
    assert(open_child_runs(op, pre, post, mode, res));
    assert(node_runs(op, pre, post, mode, res));
}

proof fn lemma_split_inside(src: Option<u64>, outs: Seq<Pipe>, i: nat, m: Walk, p: ParcelView)
    requires
        inside(m),
    ensures
        stays_inside(m, split_from(src, outs, i, m, p), 0, true),
    decreases outs.len() - i,
{
    if i < outs.len() {
        let cell = outs[i as int].cell;
        let next = match m.cb.live() {
            WalkMode::Off => m.put(cell, p.value, p.deps, None),
            WalkMode::Build { .. } => crate::cb::passed_through(m, None, src, cell).put(
                cell,
                p.value,
                Seq::empty(),
                None,
            ),
            WalkMode::LendOnly { .. } => m.put(cell, p.value, Seq::empty(), None),
        };
        lemma_split_inside(src, outs, i + 1, next, p);
    }
}

proof fn lemma_points_inside(ops: Vec<DeviceOp>, i: nat, out: u64, sps: Seq<u64>, m: Walk)
    ensures
        branch_points(ops, i, out, sps, m).0.cb == m.cb,
        branch_points(ops, i, out, sps, m).0.trace == m.trace,
        branch_points(ops, i, out, sps, m).0.w == m.w,
    decreases ops.len() - i,
{
    if i < ops.len() {
        match crate::graph::output_pipe_of(ops[i as int]) {
            None => {
                lemma_points_inside(ops, i + 1, out, sps, m);
            },
            Some(p) => {
                lemma_points_inside(
                    ops,
                    i + 1,
                    out,
                    crate::ids::with_ids(sps, m.sp_of(Some(p.cell))),
                    m.reaching(out, m.origins(None, Some(p.cell))),
                );
            },
        }
    }
}

proof fn lemma_drain_keeps_caches(outs: Seq<Pipe>, i: nat, got: Seq<ParcelView>, w: World)
    ensures
        drain_from(outs, i, got, w).0.caches == w.caches,
    decreases outs.len() - i,
{
    if i < outs.len() {
        match w.parcel(outs[i as int].cell) {
            None => {},
            Some(p) => {
                lemma_drain_keeps_caches(outs, i + 1, got.push(p), w.drained(outs[i as int].cell));
            },
        }
    }
}

/// Inside a command buffer, an op that can be recorded leaves the queue alone.
#[verifier::spinoff_prover]
#[verifier::rlimit(80)]
pub proof fn law_runs_stay_inside(op: DeviceOp, pre: Walk, post: Walk, mode: ExecMode, res: OpResult<()>)
    requires
        inside(pre),
        addable_of(op),
        runs_of(op, pre, post, mode, res),
    ensures
        stays_inside(pre, post, weight_of(op), res is Ok),
    decreases op, 0nat,
{
    match op {
        DeviceOp::Leaf(l) => {
            lemma_inside_leaf_op(l, pre, post, mode, res);
        },
        DeviceOp::AndThen(n) => {
            let (m1, r1) = choose|m1: Walk, r1: OpResult<()>|
                (#[trigger] passes(m1, r1)) && child_runs(n.source, pre, m1, ExecMode::Pipelined, r1)
                    && match r1 {
                    Err(e) => post == m1 && res == Err::<(), Error>(e),
                    Ok(_) => exists|m2: Walk, c: OpResult<bool>|
                        (#[trigger] seam_step(n.source, n.next, m1, m2, c)) && match c {
                            Err(e) => post == m2 && res == Err::<(), Error>(e),
                            Ok(true) => exists|m3: Walk, r3: OpResult<()>|
                                (#[trigger] passes(m3, r3)) && node_runs(
                                    n.next,
                                    m2.in_mode(WalkMode::Off),
                                    m3,
                                    mode,
                                    r3,
                                ) && chain_ends(*n, m3.in_mode(m2.cb), r3, post, res),
                            Ok(false) => exists|m3: Walk, r3: OpResult<()>|
                                (#[trigger] passes(m3, r3)) && child_runs(n.next, m2, m3, mode, r3)
                                    && chain_ends(*n, m3, r3, post, res),
                        },
                };
            lemma_inside_child(n.source, pre, m1, ExecMode::Pipelined, r1);
            law_runs_stay_inside(n.source, pre, m1, ExecMode::Pipelined, r1);
            if r1 is Ok {
                law_addable_from_the_head(n.next);
                assert(inside(m1));
                let (m3, r3) = choose|m3: Walk, r3: OpResult<()>|
                    (#[trigger] passes(m3, r3)) && child_runs(n.next, m1, m3, mode, r3) && chain_ends(
                        *n,
                        m3,
                        r3,
                        post,
                        res,
                    );
                lemma_inside_child(n.next, m1, m3, mode, r3);
                law_runs_stay_inside(n.next, m1, m3, mode, r3);
                assert(stays_inside(m1, post, weight_of(n.next), res is Ok));
                lemma_inside_then(
                    pre,
                    m1,
                    post,
                    weight_of(n.source),
                    weight_of(n.next),
                    res is Ok,
                );
            }
        },
        DeviceOp::Arced(n) => {
            let (m, r) = choose|m: Walk, r: OpResult<ParcelView>|
                (#[trigger] passes(m, r)) && collects_of(n.source, pre, m, ExecMode::Pipelined, r)
                    && match r {
                    Err(e) => post == m && res == Err::<(), Error>(e),
                    Ok(p) => post == arced_after(*n, m, p) && res == Ok::<(), Error>(()),
                };
            law_collects_stay_inside(n.source, pre, m, ExecMode::Pipelined, r);
        },
        DeviceOp::ArcSplit(n) => {
            let (m, r) = choose|m: Walk, r: OpResult<ParcelView>|
                (#[trigger] passes(m, r)) && collects_of(n.source, pre, m, ExecMode::Pipelined, r)
                    && match r {
                    Err(e) => post == m && res == Err::<(), Error>(e),
                    Ok(p) => post == split_from(
                        cell_of(crate::graph::output_pipe_of(n.source)),
                        n.outs@,
                        0,
                        m,
                        p,
                    ) && res == Ok::<(), Error>(()),
                };
            law_collects_stay_inside(n.source, pre, m, ExecMode::Pipelined, r);
            if r is Ok {
                lemma_split_inside(
                    cell_of(crate::graph::output_pipe_of(n.source)),
                    n.outs@,
                    0,
                    m,
                    r->Ok_0,
                );
                lemma_inside_then(pre, m, post, weight_of(op), 0, true);
            }
        },
        DeviceOp::Bundle(n) => {
            lemma_runs_from_inside(n.ops, 0, pre, post, res);
        },
        DeviceOp::FanOut(n) => {
            let (m, r) = choose|m: Walk, r: OpResult<Seq<ParcelView>>|
                (#[trigger] passes(m, r)) && collects_from(n.ops, 0, Seq::empty(), pre, m, r) && match r {
                    Err(e) => post == m && res == Err::<(), Error>(e),
                    Ok(ps) => fan_ends(*n, m, ps, post, res),
                };
            lemma_collects_from_inside(n.ops, 0, Seq::empty(), pre, m, r);
            if r is Ok {
                lemma_points_inside(n.ops, 0, n.out.cell, Seq::empty(), m);
            }
        },
        _ => {},
    }
}

proof fn lemma_runs_from_inside(ops: Vec<DeviceOp>, i: nat, pre: Walk, post: Walk, res: OpResult<()>)
    requires
        inside(pre),
        addable_from(ops, i),
        runs_from(ops, i, pre, post, res),
    ensures
        stays_inside(pre, post, weight_from(ops, i), res is Ok),
    decreases ops, ops.len() - i,
{
    if i < ops.len() {
        let (m, r) = choose|m: Walk, r: OpResult<()>|
            (#[trigger] passes(m, r)) && child_runs(ops[i as int], pre, m, ExecMode::Pipelined, r)
                && match r {
                Err(e) => post == m && res == Err::<(), Error>(e),
                Ok(_) => runs_from(ops, i + 1, m, post, res),
            };
        lemma_inside_child(ops[i as int], pre, m, ExecMode::Pipelined, r);
        law_runs_stay_inside(ops[i as int], pre, m, ExecMode::Pipelined, r);
        if r is Ok {
            lemma_runs_from_inside(ops, i + 1, m, post, res);
            lemma_inside_then(
                pre,
                m,
                post,
                weight_of(ops[i as int]),
                weight_from(ops, i + 1),
                res is Ok,
            );
        }
    }
}

proof fn lemma_collects_from_inside(
    ops: Vec<DeviceOp>,
    i: nat,
    got: Seq<ParcelView>,
    pre: Walk,
    post: Walk,
    res: OpResult<Seq<ParcelView>>,
)
    requires
        inside(pre),
        addable_from(ops, i),
        collects_from(ops, i, got, pre, post, res),
    ensures
        stays_inside(pre, post, weight_from(ops, i), res is Ok),
    decreases ops, ops.len() - i,
{
    if i < ops.len() {
        let (m, r) = choose|m: Walk, r: OpResult<ParcelView>|
            (#[trigger] passes(m, r)) && collects_of(ops[i as int], pre, m, ExecMode::Pipelined, r)
                && match r {
                Err(e) => post == m && res == Err::<Seq<ParcelView>, Error>(e),
                Ok(p) => collects_from(ops, i + 1, got.push(p), m, post, res),
            };
        law_collects_stay_inside(ops[i as int], pre, m, ExecMode::Pipelined, r);
        if r is Ok {
            lemma_collects_from_inside(ops, i + 1, got.push(r->Ok_0), m, post, res);
            lemma_inside_then(
                pre,
                m,
                post,
                weight_of(ops[i as int]),
                weight_from(ops, i + 1),
                res is Ok,
            );
        }
    }
}

/// Inside a command buffer, taking the value of an op that can be recorded leaves the queue
/// alone.
#[verifier::spinoff_prover]
#[verifier::rlimit(80)]
pub proof fn law_collects_stay_inside(
    op: DeviceOp,
    pre: Walk,
    post: Walk,
    mode: ExecMode,
    res: OpResult<ParcelView>,
)
    requires
        inside(pre),
        addable_of(op),
        collects_of(op, pre, post, mode, res),
    ensures
        stays_inside(pre, post, weight_of(op), res is Ok),
    decreases op, 1nat,
{
    match op {
        DeviceOp::AndThen(n) => {
            let (m1, r1) = choose|m1: Walk, r1: OpResult<()>|
                (#[trigger] passes(m1, r1)) && child_runs(n.source, pre, m1, ExecMode::Pipelined, r1)
                    && match r1 {
                    Err(e) => post == m1 && res == Err::<ParcelView, Error>(e),
                    Ok(_) => exists|m2: Walk, c: OpResult<bool>|
                        (#[trigger] seam_step(n.source, n.next, m1, m2, c)) && match c {
                            Err(e) => post == m2 && res == Err::<ParcelView, Error>(e),
                            Ok(true) => exists|m3: Walk, r3: OpResult<ParcelView>|
                                (#[trigger] passes(m3, r3)) && collects_of(
                                    n.next,
                                    m2.in_mode(WalkMode::Off),
                                    m3,
                                    mode,
                                    r3,
                                ) && chain_collected(*n, m3.in_mode(m2.cb), r3, post, res),
                            Ok(false) => exists|m3: Walk, r3: OpResult<ParcelView>|
                                (#[trigger] passes(m3, r3)) && child_collects(n.next, m2, m3, mode, r3)
                                    && chain_collected(*n, m3, r3, post, res),
                        },
                };
            lemma_inside_child(n.source, pre, m1, ExecMode::Pipelined, r1);
            law_runs_stay_inside(n.source, pre, m1, ExecMode::Pipelined, r1);
            if r1 is Ok {
                law_addable_from_the_head(n.next);
                let (m3, r3) = choose|m3: Walk, r3: OpResult<ParcelView>|
                    (#[trigger] passes(m3, r3)) && child_collects(n.next, m1, m3, mode, r3)
                        && chain_collected(*n, m3, r3, post, res);
                assert(collects_of(n.next, m1, m3, mode, r3));
                law_collects_stay_inside(n.next, m1, m3, mode, r3);
                assert(stays_inside(m1, post, weight_of(n.next), res is Ok));
                lemma_inside_then(
                    pre,
                    m1,
                    post,
                    weight_of(n.source),
                    weight_of(n.next),
                    res is Ok,
                );
            }
        },
        DeviceOp::Bundle(n) => {
            let (m, r) = choose|m: Walk, r: OpResult<Seq<ParcelView>>|
                (#[trigger] passes(m, r)) && collects_from(n.ops, 0, Seq::empty(), pre, m, r) && match r {
                    Err(e) => post == m && res == Err::<ParcelView, Error>(e),
                    Ok(ps) => exists|j: OpResult<Seq<u64>>|
                        (#[trigger] passes(m, j)) && joins_branches(all_deps(ps), m, post, j) && res == (match j {
                            Err(e) => Err::<ParcelView, Error>(e),
                            Ok(deps) => Ok(ParcelView { value: all_values(ps), deps, home: None }),
                        }),
                };
            lemma_collects_from_inside(n.ops, 0, Seq::empty(), pre, m, r);
        },
        _ => {
            let (m, r) = choose|m: Walk, r: OpResult<()>|
                (#[trigger] passes(m, r)) && runs_of(op, pre, m, mode, r) && match r {
                    Err(e) => post == m && res == Err::<ParcelView, Error>(e),
                    Ok(_) => {
                        let (w, d) = drain_from(outs_of(op), 0, Seq::empty(), m.w);
                        post == m.at(w) && res == (match d {
                            Ok(ps) => Ok::<ParcelView, Error>(crate::walk::merged(ps)),
                            Err(k) => Err(crate::walk::missing_of(op, k)),
                        })
                    },
                };
            law_runs_stay_inside(op, pre, m, mode, r);
            lemma_drain_keeps_caches(outs_of(op), 0, Seq::empty(), m.w);
        },
    }
}

proof fn lemma_inside_child_gather(op: DeviceOp, pre: Walk, post: Walk, mode: ExecMode, res: OpResult<GatheredView>)
    requires
        inside(pre),
        child_gathers(op, pre, post, mode, res),
    ensures
        gathers_of(op, pre, post, mode, res),
{
    assert(open_child_gathers(op, pre, post, mode, res));
    assert(node_gathers(op, pre, post, mode, res));
}

/// The steps of a sequence that is gathered inside a command buffer.
proof fn lemma_inside_gather_steps(
    n: AndThen,
    op: DeviceOp,
    pre: Walk,
    post: Walk,
    mode: ExecMode,
    res: OpResult<GatheredView>,
) -> (r: (Walk, OpResult<()>, Walk, OpResult<GatheredView>))
    requires
        op matches DeviceOp::AndThen(b) && *b == n,
        head_addable_of(n.next),
        gathers_of(op, pre, post, mode, res),
    ensures
        child_runs(n.source, pre, r.0, ExecMode::Pipelined, r.1),
        r.1 is Err ==> post == r.0 && res is Err,
        r.1 is Ok ==> child_gathers(n.next, r.0, r.2, mode, r.3) && chain_gathered(n, r.2, r.3, post, res),
{
    let (m1, r1) = choose|m1: Walk, r1: OpResult<()>|
        (#[trigger] passes(m1, r1)) && child_runs(n.source, pre, m1, ExecMode::Pipelined, r1) && match r1 {
            Err(e) => post == m1 && res == Err::<GatheredView, Error>(e),
            Ok(_) => exists|m2: Walk, c: OpResult<bool>|
                (#[trigger] seam_step(n.source, n.next, m1, m2, c)) && match c {
                    Err(e) => post == m2 && res == Err::<GatheredView, Error>(e),
                    Ok(true) => exists|m3: Walk, r3: OpResult<GatheredView>|
                        (#[trigger] passes(m3, r3)) && node_gathers(
                            n.next,
                            m2.in_mode(WalkMode::Off),
                            m3,
                            mode,
                            r3,
                        ) && chain_gathered(n, m3.in_mode(m2.cb), r3, post, res),
                    Ok(false) => exists|m3: Walk, r3: OpResult<GatheredView>|
                        (#[trigger] passes(m3, r3)) && child_gathers(n.next, m2, m3, mode, r3) && chain_gathered(
                            n,
                            m3,
                            r3,
                            post,
                            res,
                        ),
                },
        };
    if r1 is Err {
        (m1, r1, m1, res)
    } else {
        let (m2, c) = choose|m2: Walk, c: OpResult<bool>|
            (#[trigger] seam_step(n.source, n.next, m1, m2, c)) && match c {
                Err(e) => post == m2 && res == Err::<GatheredView, Error>(e),
                Ok(true) => exists|m3: Walk, r3: OpResult<GatheredView>|
                    (#[trigger] passes(m3, r3)) && node_gathers(n.next, m2.in_mode(WalkMode::Off), m3, mode, r3)
                        && chain_gathered(n, m3.in_mode(m2.cb), r3, post, res),
                Ok(false) => exists|m3: Walk, r3: OpResult<GatheredView>|
                    (#[trigger] passes(m3, r3)) && child_gathers(n.next, m2, m3, mode, r3) && chain_gathered(
                        n,
                        m3,
                        r3,
                        post,
                        res,
                    ),
            };
        let (m3, r3) = choose|m3: Walk, r3: OpResult<GatheredView>|
            (#[trigger] passes(m3, r3)) && child_gathers(n.next, m2, m3, mode, r3) && chain_gathered(
                n,
                m3,
                r3,
                post,
                res,
            );
        (m1, r1, m3, r3)
    }
}

/// Inside a command buffer, checking out the outputs of an op that can be recorded
/// leaves the queue alone.
pub proof fn law_gathers_stay_inside(
    op: DeviceOp,
    pre: Walk,
    post: Walk,
    mode: ExecMode,
    res: OpResult<GatheredView>,
)
    requires
        inside(pre),
        addable_of(op),
        gathers_of(op, pre, post, mode, res),
    ensures
        stays_inside(pre, post, weight_of(op), res is Ok),
    decreases op, 2nat,
{
    match op {
        DeviceOp::AndThen(n) => {
            law_addable_from_the_head(n.next);
            let (m1, r1, m3, r3) = lemma_inside_gather_steps(*n, op, pre, post, mode, res);
            lemma_inside_child(n.source, pre, m1, ExecMode::Pipelined, r1);
            law_runs_stay_inside(n.source, pre, m1, ExecMode::Pipelined, r1);
            if r1 is Ok {
                lemma_inside_child_gather(n.next, m1, m3, mode, r3);
                law_gathers_stay_inside(n.next, m1, m3, mode, r3);
                assert(stays_inside(m1, post, weight_of(n.next), res is Ok));
                lemma_inside_then(pre, m1, post, weight_of(n.source), weight_of(n.next), res is Ok);
            }
        },
        DeviceOp::Bundle(n) => {
            lemma_joined_inside(n.ops, true, pre, post, res);
        },
        DeviceOp::FanOut(n) => {
            lemma_joined_inside(n.ops, false, pre, post, res);
        },
        _ => {
            lemma_drained_inside(op, pre, post, mode, res);
        },
    }
}

proof fn lemma_drained_inside(op: DeviceOp, pre: Walk, post: Walk, mode: ExecMode, res: OpResult<GatheredView>)
    requires
        inside(pre),
        addable_of(op),
        gathers_of(op, pre, post, mode, res),
        !(op is AndThen) && !(op is Bundle) && !(op is FanOut),
    ensures
        stays_inside(pre, post, weight_of(op), res is Ok),
{
    let (m, r) = choose|m: Walk, r: OpResult<()>|
        (#[trigger] passes(m, r)) && runs_of(op, pre, m, mode, r) && match r {
            Err(e) => post == m && res == Err::<GatheredView, Error>(e),
            Ok(_) => {
                let (w, d) = drain_from(outs_of(op), 0, Seq::empty(), m.w);
                post == m.at(w) && res == (match d {
                    Ok(ps) => Ok::<GatheredView, Error>(crate::walk::checked_out(ps)),
                    Err(k) => Err(crate::walk::missing_of(op, k)),
                })
            },
        };
    law_runs_stay_inside(op, pre, m, mode, r);
    lemma_drain_keeps_caches(outs_of(op), 0, Seq::empty(), m.w);
}

proof fn lemma_joined_inside(
    ops: Vec<DeviceOp>,
    as_children: bool,
    pre: Walk,
    post: Walk,
    res: OpResult<GatheredView>,
)
    requires
        inside(pre),
        addable_from(ops, 0),
        joined_gathers(ops, as_children, pre, post, res),
    ensures
        stays_inside(pre, post, weight_from(ops, 0), res is Ok),
    decreases ops, ops.len() + 1,
{
    let none = GatheredView { outs: Seq::empty(), deps: Seq::empty() };
    let (m, r) = choose|m: Walk, r: OpResult<GatheredView>|
        (#[trigger] passes(m, r)) && gathers_from(ops, 0, as_children, none, pre, m, r) && match r {
            Err(e) => post == m && res == Err::<GatheredView, Error>(e),
            Ok(g) => exists|j: OpResult<Seq<u64>>|
                (#[trigger] passes(m, j)) && joins_branches(g.deps, m, post, j) && res == (match j {
                    Err(e) => Err::<GatheredView, Error>(e),
                    Ok(deps) => Ok(GatheredView { outs: g.outs, deps }),
                }),
        };
    lemma_gathers_from_inside(ops, 0, as_children, none, pre, m, r);
}

proof fn lemma_gathers_from_inside(
    ops: Vec<DeviceOp>,
    i: nat,
    as_children: bool,
    got: GatheredView,
    pre: Walk,
    post: Walk,
    res: OpResult<GatheredView>,
)
    requires
        inside(pre),
        addable_from(ops, i),
        gathers_from(ops, i, as_children, got, pre, post, res),
    ensures
        stays_inside(pre, post, weight_from(ops, i), res is Ok),
    decreases ops, ops.len() - i,
{
    if i < ops.len() {
        let (m, r) = choose|m: Walk, r: OpResult<GatheredView>|
            (#[trigger] passes(m, r)) && branch_gathers(ops[i as int], as_children, pre, m, r) && match r {
                Err(e) => post == m && res == Err::<GatheredView, Error>(e),
                Ok(g) => gathers_from(
                    ops,
                    i + 1,
                    as_children,
                    GatheredView { outs: got.outs + g.outs, deps: got.deps + g.deps },
                    m,
                    post,
                    res,
                ),
            };
        let op = ops[i as int];
        if as_children {
            lemma_inside_child_gather(op, pre, m, ExecMode::Pipelined, r);
        } else {
            assert(node_gathers(op, pre, m, ExecMode::Pipelined, r));
        }
        law_gathers_stay_inside(op, pre, m, ExecMode::Pipelined, r);
        if r is Ok {
            let g = r->Ok_0;
            lemma_gathers_from_inside(
                ops,
                i + 1,
                as_children,
                GatheredView { outs: got.outs + g.outs, deps: got.deps + g.deps },
                m,
                post,
                res,
            );
            lemma_inside_then(pre, m, post, weight_of(op), weight_from(ops, i + 1), res is Ok);
        }
    }
}

/// A gather that finds the command buffer of an earlier one replays it: it builds no
/// second one, all that it asks of the queue is the one submission, the outputs wait
/// on that submission alone, and the buffer stays where it is kept.
pub proof fn law_second_gather_replays(op: DeviceOp, pre: Walk, post: Walk, mode: ExecMode, cb: u64, g: GatheredView) -> (ev:
    u64)
    requires
        addable_of(op),
        cache_of(op) is Some,
        usable_cb(pre.w, cache_of(op)->Some_0, pre.queue) == Some(cb),
        boundary_gathers(op, pre, post, mode, Ok(g)),
    ensures
        post.trace.len() == pre.trace.len() + 1,
        post.trace.drop_last() == pre.trace,
        post.trace.last().command == (Command::EnqueueCb { cb }),
        post.trace.last().reply == Ok::<u64, i32>(ev),
        g.deps == seq![ev],
        usable_cb(post.w, cache_of(op)->Some_0, pre.queue) == Some(cb),
{
    let res = Ok::<GatheredView, Error>(g);
    let cache = cache_of(op)->Some_0;
    let s = pre.in_mode(replay_mode(cache));
    let (m, r) = choose|m: Walk, r: OpResult<GatheredView>|
        (#[trigger] passes(m, r)) && gathers_of(op, s, m, mode, r) && match r {
            Err(e) => post == m.in_mode(WalkMode::Off) && res == Err::<GatheredView, Error>(e),
            Ok(g) => if m.cb.is_closed() {
                post == m.in_mode(WalkMode::Off) && res == Ok::<GatheredView, Error>(g)
            } else {
                exists|t: Walk, j: OpResult<u64>|
                    (#[trigger] enqueue_runs(m, cb, t, j)) && delivered(g, t, j, post, res)
            },
        };
    law_gathers_stay_inside(op, s, m, mode, r);
    let (t, j) = choose|t: Walk, j: OpResult<u64>|
        (#[trigger] enqueue_runs(m, cb, t, j)) && delivered(r->Ok_0, t, j, post, res);
    let q = choose|q: Reply|
        t == (#[trigger] cb_enqueued(m, cb, q)) && j == (match q {
            Err(c) => Err::<u64, Error>(Error::OpenCl(c)),
            Ok(ev) => Ok(ev),
        });
    assert(post.trace == pre.trace.push(
        Issued { queue: m.queue, command: Command::EnqueueCb { cb }, waits: m.cb.ext(), reply: q },
    ));
    assert(post.trace.drop_last() =~= pre.trace);
    j->Ok_0
}

/// A gather that built its command buffer to the end and submitted it keeps it:
/// `cb` is the one that the next gather on the same queue replays.
pub proof fn law_gather_keeps_what_it_built(
    op: DeviceOp,
    start: World,
    g: GatheredView,
    m: Walk,
    post: Walk,
    mode: ExecMode,
    res: OpResult<GatheredView>,
    cb: u64,
)
    requires
        build_end(m.cb) is Finish,
        exists|u: Walk, j: OpResult<u64>|
            (#[trigger] enqueue_runs(cb_finished(m, Ok(cb)), cb, u, j)) && delivered(g, u, j, post, res),
    ensures
        build_gathers(op, start, g, m, post, mode, res),
        usable_cb(post.w, m.cb->Build_cache, m.queue) == Some(cb),
{
    let q: Reply = Ok(cb);
    let t = cb_finished(m, q);
    let (u, j) = choose|u: Walk, j: OpResult<u64>|
        (#[trigger] enqueue_runs(t, cb, u, j)) && delivered(g, u, j, post, res);
    assert(enqueue_runs(t, cb, u, j) && delivered(g, u, j, post, res));
}

/// Two gathers build once: where the first built the command buffer `cb` to its end,
/// and no slot that it captured was changed since, the second submits `cb` again and
/// does nothing else, its outputs wait on that submission alone, and `cb` is kept.
pub proof fn law_two_gathers_build_once(
    op: DeviceOp,
    start: World,
    first: GatheredView,
    built: Walk,
    between: Walk,
    res: OpResult<GatheredView>,
    pre: Walk,
    post: Walk,
    mode: ExecMode,
    cb: u64,
    g: GatheredView,
) -> (ev: u64)
    requires
        addable_of(op),
        cache_of(op) is Some,
        build_end(built.cb) is Finish,
        built.cb->Build_cache == cache_of(op)->Some_0,
        exists|u: Walk, j: OpResult<u64>|
            (#[trigger] enqueue_runs(cb_finished(built, Ok(cb)), cb, u, j)) && delivered(first, u, j, between, res),
        pre.w.caches == between.w.caches,
        pre.queue == built.queue,
        boundary_gathers(op, pre, post, mode, Ok(g)),
    ensures
        build_gathers(op, start, first, built, between, mode, res),
        post.trace.len() == pre.trace.len() + 1,
        post.trace.drop_last() == pre.trace,
        post.trace.last().command == (Command::EnqueueCb { cb }),
        post.trace.last().reply == Ok::<u64, i32>(ev),
        g.deps == seq![ev],
        usable_cb(post.w, cache_of(op)->Some_0, pre.queue) == Some(cb),
{
    law_gather_keeps_what_it_built(op, start, first, built, between, mode, res, cb);
    law_second_gather_replays(op, pre, post, mode, cb, g)
}

/// While a kept command buffer is replayed, a gather enqueues nothing of its own.
pub proof fn law_replayed_gather_enqueues_nothing(
    op: DeviceOp,
    pre: Walk,
    post: Walk,
    mode: ExecMode,
    res: OpResult<GatheredView>,
)
    requires
        pre.cb is LendOnly,
        !pre.cb.is_closed(),
        addable_of(op),
        gathers_of(op, pre, post, mode, res),
    ensures
        post.trace == pre.trace,
{
    law_gathers_stay_inside(op, pre, post, mode, res);
}

/// While a kept command buffer is replayed, its ops enqueue nothing: the replay
/// is the one command that submits it.
pub proof fn law_replay_enqueues_nothing(op: DeviceOp, pre: Walk, post: Walk, mode: ExecMode, res: OpResult<()>)
    requires
        pre.cb is LendOnly,
        !pre.cb.is_closed(),
        addable_of(op),
        runs_of(op, pre, post, mode, res),
    ensures
        post.trace == pre.trace,
{
    law_runs_stay_inside(op, pre, post, mode, res);
}

/// The weight of an op is the number of commands that it records when a command
/// buffer is built of it.
pub proof fn law_weight_counts_recorded_commands(
    op: DeviceOp,
    pre: Walk,
    post: Walk,
    mode: ExecMode,
)
    requires
        pre.cb is Build,
        !pre.cb.is_closed(),
        addable_of(op),
        runs_of(op, pre, post, mode, Ok(())),
    ensures
        post.cb matches WalkMode::Build { builder: y, .. } && (y.eligible ==> y.recorded.len()
            == pre.cb->Build_builder.recorded.len() + weight_of(op)),
        forall|i: int|
            pre.trace.len() <= i < post.trace.len() ==> builds((#[trigger] post.trace[i]).command),
{
    law_runs_stay_inside(op, pre, post, mode, Ok(()));
}

/// Before an op that cannot be recorded, a command buffer that misses a command
/// is not submitted, and the op does not run: the run starts again without.
pub proof fn law_unusable_buffer_stops_the_walk(
    source: DeviceOp,
    next: DeviceOp,
    pre: Walk,
    post: Walk,
    res: OpResult<bool>,
)
    requires
        pre.cb matches WalkMode::Build { builder, closed, .. } && !builder.eligible && !builder.finalized
            && !closed,
        !head_addable_of(next),
        seam_step(source, next, pre, post, res),
    ensures
        res is Err,
        post.trace == pre.trace,
        post.w == pre.w,
        post.cb.is_abandoned(),
{
}

/// A command buffer that was built is the one that the next run on the same
/// queue replays.
pub proof fn law_built_buffer_is_replayed(m: Walk, cb: u64)
    requires
        m.cb is Build,
    ensures
        usable_cb(cb_finished(m, Ok(cb)).w, m.cb->Build_cache, m.queue) == Some(cb),
{
}

/// A submitted command buffer's event reaches every output: whatever lies on one
/// of the pipes waits on it, and keeps its value and home.
pub proof fn law_restamp_reaches_every_output(pipes: Seq<Pipe>, i: nat, w: World, evs: Seq<u64>, p: Pipe)
    ensures
        ({
            let w1 = restamp_pipes(pipes, i, w, evs);
            match w.parcel(p.cell) {
                None => w1.parcel(p.cell) is None,
                Some(x) => w1.parcel(p.cell) matches Some(y) && y.value == x.value && y.home == x.home && (
                (exists|k: int| i <= k < pipes.len() && #[trigger] pipes[k] == p) ==> y.deps == evs)
                    && (x.deps == evs ==> y.deps == evs),
            }
        }),
    decreases pipes.len() - i,
{
    if i < pipes.len() {
        let w1 = w.restamped(pipes[i as int].cell, evs);
        law_restamp_reaches_every_output(pipes, i + 1, w1, evs, p);
        if exists|k: int| i <= k < pipes.len() && #[trigger] pipes[k] == p {
            let k = choose|k: int| i <= k < pipes.len() && #[trigger] pipes[k] == p;
            if k > i {
                assert(i + 1 <= k < pipes.len() && pipes[k] == p);
            }
        }
    }
}

} // verus!
