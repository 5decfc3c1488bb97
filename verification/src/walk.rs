//! Running a graph: how each op acts on the cells of the graph and on the queue,
//! and where runs of recordable ops become command buffers.

use crate::cb::{
    cb_close_span, cb_enqueue, cb_enqueued, cb_finish, cb_finished, cb_forward_passthrough, cb_forward_reach, cb_lookup_cached,
    cb_span_closed, passed_through, span_closed, usable_cb,
};
use crate::error::{Error, OpResult};
use crate::exec_ctx::{
    kept, CbWalk, Driver, ExecMode, ExecutionContext, Walk, WalkMode,
};
use crate::graph::{
    addable_of, cache_of, delay_of, devices_from, devices_of, head_addable_of, output_pipe_of, outs_of,
    restamp_of, weight_of, AndThen, Arced, ArcSplit, DeviceOp, FanOut, Profiled,
};
use crate::host::{ids_view, run_host_seam, seam_runs};
use crate::ids::{copy_ids, extend_ids, with_ids, IdSet};
use crate::input::Checkout;
use crate::leaf::{no_deps, single_dep, walk_kind, WalkKind};
use crate::leaves::LeafNode;
use crate::obj::{Command, Home, Obj, Reply};
use crate::store::{Parcel, ParcelView, Pipe, Snapshot, World};
use vstd::prelude::*;

verus! {

broadcast use crate::exec_ctx::lemma_kept_over;

/// The queue property that lets events be timed.
pub const QUEUE_PROFILING_ENABLE: u64 = 2;

/// A checkout as plain values.
#[verifier::ext_equal]
pub struct CheckoutView {
    pub value: Seq<Obj>,
    pub home: Option<Home>,
}

impl View for Checkout {
    type V = CheckoutView;

    open spec fn view(&self) -> CheckoutView {
        CheckoutView { value: self.value@, home: self.home }
    }
}

/// The outputs of a run, one checkout each, and the events they wait on.
pub struct Gathered {
    pub outs: Vec<Checkout>,
    pub deps: Vec<u64>,
}

/// The outputs of a run as plain values.
#[verifier::ext_equal]
pub struct GatheredView {
    pub outs: Seq<CheckoutView>,
    pub deps: Seq<u64>,
}

impl View for Gathered {
    type V = GatheredView;

    open spec fn view(&self) -> GatheredView {
        GatheredView { outs: self.outs@.map_values(|c: Checkout| c@), deps: self.deps@ }
    }
}

/// The outcome of a collect as plain values.
pub open spec fn parcel_view(r: OpResult<Parcel>) -> OpResult<ParcelView> {
    match r {
        Ok(p) => Ok(p@),
        Err(e) => Err(e),
    }
}

/// The outcome of a gather as plain values.
pub open spec fn gathered_view(r: OpResult<Gathered>) -> OpResult<GatheredView> {
    match r {
        Ok(g) => Ok(g@),
        Err(e) => Err(e),
    }
}

/// Parcels as plain values.
pub open spec fn parcel_views(v: Seq<Parcel>) -> Seq<ParcelView> {
    v.map_values(|p: Parcel| p@)
}

/// All values of some parcels, in order.
pub open spec fn all_values(ps: Seq<ParcelView>) -> Seq<Obj>
    decreases ps.len(),
{
    if ps.len() == 0 {
        Seq::empty()
    } else {
        all_values(ps.drop_last()) + ps.last().value
    }
}

/// All events of some parcels, in order.
pub open spec fn all_deps(ps: Seq<ParcelView>) -> Seq<u64>
    decreases ps.len(),
{
    if ps.len() == 0 {
        Seq::empty()
    } else {
        all_deps(ps.drop_last()) + ps.last().deps
    }
}

/// Some parcels as one. The home survives only where there is one parcel.
pub open spec fn merged(ps: Seq<ParcelView>) -> ParcelView {
    ParcelView {
        value: all_values(ps),
        deps: all_deps(ps),
        home: if ps.len() == 1 {
            ps[0].home
        } else {
            None
        },
    }
}

/// Some parcels as checkouts, one each.
pub open spec fn checked_out(ps: Seq<ParcelView>) -> GatheredView {
    GatheredView {
        outs: ps.map_values(|p: ParcelView| CheckoutView { value: p.value, home: p.home }),
        deps: all_deps(ps),
    }
}

/// All values of some checkouts, in order.
pub open spec fn out_values(outs: Seq<CheckoutView>) -> Seq<Obj>
    decreases outs.len(),
{
    if outs.len() == 0 {
        Seq::empty()
    } else {
        out_values(outs.drop_last()) + outs.last().value
    }
}

/// Taking the parcels from pipes, from index `i` on, after those in `got`: the
/// cells afterwards, and the parcels, or the index of the first empty pipe.
pub open spec fn drain_from(outs: Seq<Pipe>, i: nat, got: Seq<ParcelView>, w: World) -> (World, core::result::Result<
    Seq<ParcelView>,
    int,
>)
    decreases outs.len() - i,
{
    if i >= outs.len() {
        (w, Ok(got))
    } else {
        match w.parcel(outs[i as int].cell) {
            None => (w, Err(i as int)),
            Some(p) => drain_from(outs, i + 1, got.push(p), w.drained(outs[i as int].cell)),
        }
    }
}

/// The answer when the output with index `k` is missing after a run.
pub open spec fn missing_of(op: DeviceOp, k: int) -> Error {
    match op {
        DeviceOp::Leaf(l) => l.missing(k),
        DeviceOp::ArcSplit(_) => Error::NotSupported("eager arc_split: a branch produced no output"),
        _ => Error::NotSupported("eager graph: the op produced no output"),
    }
}

/// The events of a source whose output nobody took are not lost: they are added
/// to those of the next op's output.
pub open spec fn orphans_threaded(w: World, src: Option<Pipe>, out: Option<Pipe>) -> World {
    match src {
        None => w,
        Some(sp) => match w.parcel(sp.cell) {
            None => w,
            Some(p) => {
                let w1 = w.drained(sp.cell);
                match out {
                    None => w1,
                    Some(op) => match w1.parcel(op.cell) {
                        None => w1,
                        Some(q) => w1.put(op.cell, ParcelView { deps: q.deps + p.deps, ..q }),
                    },
                }
            },
        },
    }
}

/// The events of a source whose output nobody took.
pub open spec fn orphan_deps(w: World, src: Option<Pipe>) -> Seq<u64> {
    match src {
        None => Seq::empty(),
        Some(sp) => match w.parcel(sp.cell) {
            None => Seq::empty(),
            Some(p) => p.deps,
        },
    }
}

/// The cells once a source's output that nobody took is gone.
pub open spec fn orphans_dropped(w: World, src: Option<Pipe>) -> World {
    match src {
        None => w,
        Some(sp) => match w.parcel(sp.cell) {
            None => w,
            Some(_) => w.drained(sp.cell),
        },
    }
}

/// The values of a parcel as shared handles.
pub open spec fn shared_values(v: Seq<Obj>) -> Seq<Obj> {
    v.map_values(|o: Obj| o.as_shared())
}

/// The run after a source's value was shared.
pub open spec fn arced_after(n: Arced, m: Walk, p: ParcelView) -> Walk {
    let v = shared_values(p.value);
    match m.cb.live() {
        WalkMode::Off => m.put(n.out.cell, v, p.deps, None),
        WalkMode::Build { .. } => match output_pipe_of(n.source) {
            Some(sp) => passed_through(m, None, Some(sp.cell), n.out.cell).put(
                n.out.cell,
                v,
                Seq::empty(),
                None,
            ),
            None => m.put(n.out.cell, v, Seq::empty(), None),
        },
        WalkMode::LendOnly { .. } => m.put(n.out.cell, v, Seq::empty(), None),
    }
}

/// The run after a source's value went to the pipes `outs`, from index `i` on.
pub open spec fn split_from(src: Option<u64>, outs: Seq<Pipe>, i: nat, m: Walk, p: ParcelView) -> Walk
    decreases outs.len() - i,
{
    if i >= outs.len() {
        m
    } else {
        let cell = outs[i as int].cell;
        let next = match m.cb.live() {
            WalkMode::Off => m.put(cell, p.value, p.deps, None),
            WalkMode::Build { .. } => passed_through(m, None, src, cell).put(
                cell,
                p.value,
                Seq::empty(),
                None,
            ),
            WalkMode::LendOnly { .. } => m.put(cell, p.value, Seq::empty(), None),
        };
        split_from(src, outs, i + 1, next, p)
    }
}

/// The cell of a pipe.
pub open spec fn cell_of(p: Option<Pipe>) -> Option<u64> {
    match p {
        Some(p) => Some(p.cell),
        None => None,
    }
}

/// Joining the sync points of the branches from index `i` on onto `out`: the run
/// afterwards, and the sync points after those in `sps`.
pub open spec fn branch_points(ops: Vec<DeviceOp>, i: nat, out: u64, sps: Seq<u64>, m: Walk) -> (Walk, Seq<u64>)
    decreases ops.len() - i,
{
    if i >= ops.len() {
        (m, sps)
    } else {
        match output_pipe_of(ops[i as int]) {
            None => branch_points(ops, i + 1, out, sps, m),
            Some(p) => branch_points(
                ops,
                i + 1,
                out,
                with_ids(sps, m.sp_of(Some(p.cell))),
                m.reaching(out, m.origins(None, Some(p.cell))),
            ),
        }
    }
}

/// The end of a fan-out whose branches were collected.
pub open spec fn fan_ends(n: FanOut, m: Walk, ps: Seq<ParcelView>, post: Walk, res: OpResult<()>) -> bool {
    match m.cb {
        WalkMode::Build { .. } => {
            let (t, sps) = branch_points(n.ops, 0, n.out.cell, Seq::empty(), m);
            post == t.with_sp(n.out.cell, sps).put(n.out.cell, all_values(ps), Seq::empty(), None) && res
                == Ok::<(), Error>(())
        },
        WalkMode::LendOnly { .. } => post == m.put(n.out.cell, all_values(ps), Seq::empty(), None) && res
            == Ok::<(), Error>(()),
        WalkMode::Off => exists|q: Reply|
            {
                let t = #[trigger] m.issued(Command::Marker, all_deps(ps), q);
                match q {
                    Err(c) => post == t && res == Err::<(), Error>(Error::OpenCl(c)),
                    Ok(ev) => post == t.put(n.out.cell, all_values(ps), seq![ev], None) && res == Ok::<
                        (),
                        Error,
                    >(()),
                }
            },
    }
}

/// The end of a profiled op whose source was collected: a marker behind the
/// value is timed.
pub open spec fn profile_ends(n: Profiled, m: Walk, p: ParcelView, post: Walk, res: OpResult<()>) -> bool {
    exists|q1: Reply|
        {
            let s = #[trigger] m.issued(Command::QueueProperties, Seq::empty(), q1);
            match q1 {
                Err(c) => post == s && res == Err::<(), Error>(Error::OpenCl(c)),
                Ok(bits) => if bits & QUEUE_PROFILING_ENABLE == 0 {
                    post == s && res == Err::<(), Error>(Error::ProfilingDisabled)
                } else {
                    profile_marked(n, s, p, post, res)
                },
            }
        }
}

/// The end of a profiled op on a queue that can time events.
pub open spec fn profile_marked(n: Profiled, s: Walk, p: ParcelView, post: Walk, res: OpResult<()>) -> bool {
    exists|q2: Reply|
        {
            let t = #[trigger] s.issued(Command::Marker, p.deps, q2);
            match q2 {
                Err(c) => post == t && res == Err::<(), Error>(Error::OpenCl(c)),
                Ok(ev) => exists|q3: Reply|
                    {
                        let u = #[trigger] t.issued(
                            Command::ProfilingCallback { event: ev, callback: n.cb },
                            Seq::empty(),
                            q3,
                        );
                        match q3 {
                            Err(c) => post == u && res == Err::<(), Error>(Error::OpenCl(c)),
                            Ok(_) => post == u.put(n.out.cell, p.value, seq![ev], p.home) && res == Ok::<
                                (),
                                Error,
                            >(()),
                        }
                    },
            }
        }
}

/// The run with the outputs of a seam laid on its pipes, from index `i` on.
pub open spec fn scatter_from(handle: Seq<Pipe>, outs: Seq<CheckoutView>, i: nat, deps: Seq<u64>, m: Walk) -> Walk
    decreases handle.len() - i,
{
    if i >= handle.len() || i >= outs.len() {
        m
    } else {
        scatter_from(
            handle,
            outs,
            i + 1,
            deps,
            m.put(handle[i as int].cell, outs[i as int].value, deps, outs[i as int].home),
        )
    }
}

/// The run on its way into a host closure: the slots of the source's value go
/// along to the seam's output.
pub open spec fn seam_reach(src: Option<Pipe>, out: Option<Pipe>, m: Walk) -> Walk {
    match out {
        Some(p) => m.reaching(p.cell, m.origins(None, cell_of(src))),
        None => m,
    }
}

/// Whether a whole op becomes a command buffer of its own: it is outside any,
/// the context has them, all of it can be recorded, and it holds at least two
/// commands.
pub open spec fn opens_boundary(op: DeviceOp, s: Walk) -> bool {
    s.cb is Off && cache_of(op) is Some && s.has_cb && addable_of(op) && weight_of(op) >= 2
}

/// Whether a sequence opens a command buffer for the recordable ops at its head.
pub open spec fn opens_span(op: DeviceOp, s: Walk) -> bool {
    s.cb is Off && cache_of(op) is Some && s.has_cb && head_addable_of(op) && !addable_of(op) && weight_of(op)
        >= 2
}

/// Whether an op opens a command buffer for itself.
pub open spec fn opens_itself(op: DeviceOp, s: Walk) -> bool {
    match op {
        DeviceOp::AndThen(_) => opens_span(op, s),
        DeviceOp::Bundle(_) => opens_boundary(op, s),
        _ => false,
    }
}

/// The answer of a walk that met the end of a command buffer that cannot be
/// used: where the command buffer was opened, the run starts again without.
pub open spec fn abandoned_error() -> Error {
    Error::NotSupported("eager graph: the command buffer cannot be used")
}

/// The cells where a command buffer ends without a command: what the first part's
/// values waited on outside of it, they wait on again. Where it ended before, they
/// were seen to then.
pub open spec fn seam_delayed(source: DeviceOp, w: World, cb: WalkMode) -> World {
    if cb.is_closed() {
        w
    } else {
        delay_of(source, w, cb.ext())
    }
}

/// Between the two parts of a sequence: where the second cannot go on with the
/// command buffer, it is submitted, and the first part's outputs wait on it. The
/// result says whether the command buffer ends here. Where it cannot be used, the
/// second part does not run.
pub open spec fn seam_step(source: DeviceOp, next: DeviceOp, pre: Walk, post: Walk, res: OpResult<bool>) -> bool {
    if !(pre.cb is Off) && !head_addable_of(next) {
        exists|r1: Reply, r2: Reply|
            {
                let (s, r) = #[trigger] span_closed(pre, r1, r2);
                match r {
                    Err(e) => post == s && res == Err::<bool, Error>(e),
                    Ok(Some(ev)) => post == s.at(restamp_of(source, s.w, seq![ev])) && res == Ok::<
                        bool,
                        Error,
                    >(true),
                    Ok(None) => if s.cb.is_abandoned() {
                        post == s && res == Err::<bool, Error>(abandoned_error())
                    } else {
                        post == s.at(seam_delayed(source, s.w, pre.cb)) && res == Ok::<bool, Error>(true)
                    },
                }
            }
    } else {
        post == pre && res == Ok::<bool, Error>(false)
    }
}

/// The end of a sequence whose second part ran.
pub open spec fn chain_ends(n: AndThen, m: Walk, r: OpResult<()>, post: Walk, res: OpResult<()>) -> bool {
    match r {
        Err(e) => post == m && res == Err::<(), Error>(e),
        Ok(_) => post == m.at(
            orphans_threaded(m.w, output_pipe_of(n.source), output_pipe_of(n.next)),
        ) && res == Ok::<(), Error>(()),
    }
}

/// The end of a sequence whose second part was collected.
pub open spec fn chain_collected(
    n: AndThen,
    m: Walk,
    r: OpResult<ParcelView>,
    post: Walk,
    res: OpResult<ParcelView>,
) -> bool {
    match r {
        Err(e) => post == m && res == Err::<ParcelView, Error>(e),
        Ok(p) => post == m.at(orphans_dropped(m.w, output_pipe_of(n.source))) && res == Ok::<
            ParcelView,
            Error,
        >(ParcelView { deps: p.deps + orphan_deps(m.w, output_pipe_of(n.source)), ..p }),
    }
}

/// The end of a sequence whose second part was gathered.
pub open spec fn chain_gathered(
    n: AndThen,
    m: Walk,
    r: OpResult<GatheredView>,
    post: Walk,
    res: OpResult<GatheredView>,
) -> bool {
    match r {
        Err(e) => post == m && res == Err::<GatheredView, Error>(e),
        Ok(g) => post == m.at(orphans_dropped(m.w, output_pipe_of(n.source))) && res == Ok::<
            GatheredView,
            Error,
        >(GatheredView { deps: g.deps + orphan_deps(m.w, output_pipe_of(n.source)), ..g }),
    }
}

/// Joining branches by a marker: the event it gives.
pub open spec fn join_runs(deps: Seq<u64>, pre: Walk, post: Walk, res: OpResult<u64>) -> bool {
    exists|q: Reply|
        post == (#[trigger] pre.issued(Command::Marker, deps, q)) && res == (match q {
            Err(c) => Err::<u64, Error>(Error::OpenCl(c)),
            Ok(ev) => Ok(ev),
        })
}

/// Joining branches: a marker outside of command buffers; inside one the
/// branches are joined by their sync points, and nothing is enqueued. The result is
/// what the joined value waits on.
pub open spec fn joins_branches(deps: Seq<u64>, pre: Walk, post: Walk, res: OpResult<Seq<u64>>) -> bool {
    if pre.cb.live() is Off {
        exists|j: OpResult<u64>| #[trigger] join_runs(deps, pre, post, j) && res == (match j {
            Err(e) => Err::<Seq<u64>, Error>(e),
            Ok(ev) => Ok(seq![ev]),
        })
    } else {
        post == pre && res == Ok::<Seq<u64>, Error>(deps)
    }
}

/// The outputs of a replay that reached the end of its walk: the command buffer
/// is submitted with the events from outside, and its event comes back. The shared
/// memory that its launches use is used until then.
pub open spec fn enqueue_runs(m: Walk, cb: u64, post: Walk, res: OpResult<u64>) -> bool {
    exists|q: Reply|
        post == (#[trigger] cb_enqueued(m, cb, q)) && res == (match q {
            Err(c) => Err::<u64, Error>(Error::OpenCl(c)),
            Ok(ev) => Ok(ev),
        })
}

/// The replay of a command buffer.
pub open spec fn replay_mode(cache: u64) -> WalkMode {
    WalkMode::LendOnly { ext: Seq::empty(), svm: Seq::empty(), cache, closed: false }
}

/// The run once a command buffer was given up. Nothing was enqueued: all values
/// are where they were in `start`, and commands go to the queue.
pub open spec fn given_up(start: World, m: Walk) -> Walk {
    m.in_mode(WalkMode::Off).at(m.w.restored(start))
}

/// What comes of a walk that was to build a command buffer.
pub enum BuildEnd {
    /// It was submitted on the way.
    Submitted,
    /// It cannot be used.
    GivenUp,
    /// Nothing was recorded.
    Empty,
    /// It is to be finished.
    Finish,
}

/// What comes of a walk that was to build a command buffer.
pub open spec fn build_end(cb: WalkMode) -> BuildEnd {
    match cb {
        WalkMode::Build { builder, .. } => if builder.finalized {
            BuildEnd::Submitted
        } else if !builder.eligible {
            BuildEnd::GivenUp
        } else if builder.recorded.len() == 0 {
            BuildEnd::Empty
        } else {
            BuildEnd::Finish
        },
        _ => BuildEnd::Submitted,
    }
}

/// The cells once checkouts from index `i` on were dropped: each value goes back
/// home.
pub open spec fn dropped_from(outs: Seq<CheckoutView>, i: nat, w: World) -> World
    decreases outs.len() - i,
{
    if i >= outs.len() {
        w
    } else {
        dropped_from(outs, i + 1, w.rehomed(outs[i as int].home, outs[i as int].value))
    }
}

/// The run outside any command buffer, on another queue.
pub open spec fn routed(s: Walk, queue: u64, device: u64) -> Walk {
    Walk { queue, device, cb: WalkMode::Off, ..s }
}

/// The run back on the queue and in the way of `pre`.
pub open spec fn back_from(m: Walk, pre: Walk) -> Walk {
    Walk { queue: pre.queue, device: pre.device, cb: pre.cb, ..m }
}

/// Marks a state that a run passes through, with the result that it has there.
pub open spec fn passes<R>(m: Walk, r: R) -> bool {
    true
}

/// What one run of an op may do, without opening a command buffer for the op
/// itself.
pub open spec fn runs_of(op: DeviceOp, pre: Walk, post: Walk, mode: ExecMode, res: OpResult<()>) -> bool
    decreases op, 0nat,
{
    match op {
        DeviceOp::Leaf(l) => l.runs(pre, post, mode, res),
        DeviceOp::AndThen(n) => exists|m1: Walk, r1: OpResult<()>|
            (#[trigger] passes(m1, r1)) && child_runs(n.source, pre, m1, ExecMode::Pipelined, r1) && match r1 {
                Err(e) => post == m1 && res == Err::<(), Error>(e),
                Ok(_) => exists|m2: Walk, c: OpResult<bool>|
                    (#[trigger] seam_step(n.source, n.next, m1, m2, c)) && match c {
                        Err(e) => post == m2 && res == Err::<(), Error>(e),
                        Ok(true) => exists|m3: Walk, r3: OpResult<()>|
                            (#[trigger] passes(m3, r3)) && node_runs(n.next, m2.in_mode(WalkMode::Off), m3, mode, r3)
                                && chain_ends(*n, m3.in_mode(m2.cb), r3, post, res),
                        Ok(false) => exists|m3: Walk, r3: OpResult<()>|
                            (#[trigger] passes(m3, r3)) && child_runs(n.next, m2, m3, mode, r3) && chain_ends(
                                *n,
                                m3,
                                r3,
                                post,
                                res,
                            ),
                    },
            },
        DeviceOp::Arced(n) => exists|m: Walk, r: OpResult<ParcelView>|
            (#[trigger] passes(m, r)) && collects_of(n.source, pre, m, ExecMode::Pipelined, r) && match r {
                Err(e) => post == m && res == Err::<(), Error>(e),
                Ok(p) => post == arced_after(*n, m, p) && res == Ok::<(), Error>(()),
            },
        DeviceOp::ArcSplit(n) => exists|m: Walk, r: OpResult<ParcelView>|
            (#[trigger] passes(m, r)) && collects_of(n.source, pre, m, ExecMode::Pipelined, r) && match r {
                Err(e) => post == m && res == Err::<(), Error>(e),
                Ok(p) => post == split_from(cell_of(output_pipe_of(n.source)), n.outs@, 0, m, p) && res
                    == Ok::<(), Error>(()),
            },
        DeviceOp::Bundle(n) => runs_from(n.ops, 0, pre, post, res),
        DeviceOp::FanOut(n) => exists|m: Walk, r: OpResult<Seq<ParcelView>>|
            (#[trigger] passes(m, r)) && collects_from(n.ops, 0, Seq::empty(), pre, m, r) && match r {
                Err(e) => post == m && res == Err::<(), Error>(e),
                Ok(ps) => fan_ends(*n, m, ps, post, res),
            },
        DeviceOp::Dyn(n) => exists|m: Walk, r: OpResult<ParcelView>|
            (#[trigger] passes(m, r)) && collects_of(n.inner, pre, m, mode, r) && match r {
                Err(e) => post == m && res == Err::<(), Error>(e),
                Ok(p) => post == m.put(n.out.cell, p.value, p.deps, None) && res == Ok::<(), Error>(()),
            },
        DeviceOp::OnDevice(n) => exists|q: Reply|
            {
                let s = #[trigger] pre.issued(
                    Command::Queue { device: n.target.device(pre) },
                    Seq::empty(),
                    q,
                );
                match q {
                    Err(c) => post == s && res == Err::<(), Error>(Error::OpenCl(c)),
                    Ok(queue) => exists|m: Walk, r: OpResult<ParcelView>|
                        (#[trigger] passes(m, r)) && collects_of(n.source, routed(s, queue, n.target.device(pre)), m, mode, r)
                            && match r {
                            Err(e) => post == back_from(m, pre) && res == Err::<(), Error>(e),
                            Ok(p) => post == back_from(m, pre).put(n.out.cell, p.value, p.deps, None)
                                && res == Ok::<(), Error>(()),
                        },
                }
            },
        DeviceOp::Host(n) => host_runs(n.source, n.f, false, n.handle@, output_pipe_of(op), pre, post, res),
        DeviceOp::HostWithContext(n) => host_runs(
            n.source,
            n.f,
            true,
            n.handle@,
            output_pipe_of(op),
            pre,
            post,
            res,
        ),
        DeviceOp::Profiled(n) => exists|m: Walk, r: OpResult<ParcelView>|
            (#[trigger] passes(m, r)) && collects_of(n.source, pre, m, ExecMode::Pipelined, r) && match r {
                Err(e) => post == m && res == Err::<(), Error>(e),
                Ok(p) => profile_ends(*n, m, p, post, res),
            },
    }
}

/// A source, then a host closure over its outputs, which go on to `handle`.
pub open spec fn host_runs(
    source: DeviceOp,
    f: u64,
    with_context: bool,
    handle: Seq<Pipe>,
    out: Option<Pipe>,
    pre: Walk,
    post: Walk,
    res: OpResult<()>,
) -> bool
    decreases source, 10nat,
{
    exists|m1: Walk, r1: OpResult<GatheredView>|
        (#[trigger] passes(m1, r1)) && child_gathers(source, pre, m1, ExecMode::Pipelined, r1) && match r1 {
            Err(e) => post == m1 && res == Err::<(), Error>(e),
            Ok(g) => exists|m3: Walk, r3: OpResult<Seq<u64>>|
                (#[trigger] passes(m3, r3)) && seam_runs(
                    out_values(g.outs),
                    g.deps,
                    f,
                    with_context,
                    seam_reach(output_pipe_of(source), out, m1),
                    m3,
                    r3,
                ) && match r3 {
                    Err(e) => post == m3 && res == Err::<(), Error>(e),
                    Ok(deps) => post == scatter_from(handle, g.outs, 0, deps, m3) && res == Ok::<
                        (),
                        Error,
                    >(()),
                },
        }
}

/// A source, then a host closure over its outputs, which are checked out.
pub open spec fn host_gathers(
    source: DeviceOp,
    f: u64,
    with_context: bool,
    pre: Walk,
    post: Walk,
    res: OpResult<GatheredView>,
) -> bool
    decreases source, 10nat,
{
    exists|m1: Walk, r1: OpResult<GatheredView>|
        (#[trigger] passes(m1, r1)) && child_gathers(source, pre, m1, ExecMode::Pipelined, r1) && match r1 {
            Err(e) => post == m1 && res == Err::<GatheredView, Error>(e),
            Ok(g) => exists|m3: Walk, r3: OpResult<Seq<u64>>|
                (#[trigger] passes(m3, r3)) && seam_runs(out_values(g.outs), g.deps, f, with_context, m1, m3, r3) && post
                    == m3 && res == (match r3 {
                    Err(e) => Err::<GatheredView, Error>(e),
                    Ok(deps) => Ok(GatheredView { outs: g.outs, deps }),
                }),
        }
}

/// The ops from index `i` on, one after the other, each as a child.
pub open spec fn runs_from(ops: Vec<DeviceOp>, i: nat, pre: Walk, post: Walk, res: OpResult<()>) -> bool
    decreases ops, ops.len() - i,
{
    if i >= ops.len() {
        post == pre && res == Ok::<(), Error>(())
    } else {
        exists|m: Walk, r: OpResult<()>|
            (#[trigger] passes(m, r)) && child_runs(ops[i as int], pre, m, ExecMode::Pipelined, r) && match r {
                Err(e) => post == m && res == Err::<(), Error>(e),
                Ok(_) => runs_from(ops, i + 1, m, post, res),
            }
    }
}

/// The outputs of the ops from index `i` on, after those in `got`.
pub open spec fn collects_from(
    ops: Vec<DeviceOp>,
    i: nat,
    got: Seq<ParcelView>,
    pre: Walk,
    post: Walk,
    res: OpResult<Seq<ParcelView>>,
) -> bool
    decreases ops, ops.len() - i,
{
    if i >= ops.len() {
        post == pre && res == Ok::<Seq<ParcelView>, Error>(got)
    } else {
        exists|m: Walk, r: OpResult<ParcelView>|
            (#[trigger] passes(m, r)) && collects_of(ops[i as int], pre, m, ExecMode::Pipelined, r) && match r {
                Err(e) => post == m && res == Err::<Seq<ParcelView>, Error>(e),
                Ok(p) => collects_from(ops, i + 1, got.push(p), m, post, res),
            }
    }
}

/// The checkouts of the ops from index `i` on, after those in `got`. As children
/// they may open command buffers of their own.
pub open spec fn gathers_from(
    ops: Vec<DeviceOp>,
    i: nat,
    as_children: bool,
    got: GatheredView,
    pre: Walk,
    post: Walk,
    res: OpResult<GatheredView>,
) -> bool
    decreases ops, ops.len() - i,
{
    if i >= ops.len() {
        post == pre && res == Ok::<GatheredView, Error>(got)
    } else {
        exists|m: Walk, r: OpResult<GatheredView>|
            (#[trigger] passes(m, r)) && branch_gathers(ops[i as int], as_children, pre, m, r) && match r {
                Err(e) => post == m && res == Err::<GatheredView, Error>(e),
                Ok(g) => gathers_from(
                    ops,
                    i + 1,
                    as_children,
                    GatheredView { outs: got.outs + g.outs, deps: got.deps + g.deps },
                    m,
                    post,
                    res,
                ),
            }
    }
}

/// The checkouts of one branch.
pub open spec fn branch_gathers(
    op: DeviceOp,
    as_child: bool,
    pre: Walk,
    post: Walk,
    res: OpResult<GatheredView>,
) -> bool
    decreases op, 8nat,
{
    if as_child {
        child_gathers(op, pre, post, ExecMode::Pipelined, res)
    } else {
        node_gathers(op, pre, post, ExecMode::Pipelined, res)
    }
}

/// What one run of an op may hand out as a single value.
pub open spec fn collects_of(op: DeviceOp, pre: Walk, post: Walk, mode: ExecMode, res: OpResult<ParcelView>) -> bool
    decreases op, 1nat,
{
    match op {
        DeviceOp::AndThen(n) => exists|m1: Walk, r1: OpResult<()>|
            (#[trigger] passes(m1, r1)) && child_runs(n.source, pre, m1, ExecMode::Pipelined, r1) && match r1 {
                Err(e) => post == m1 && res == Err::<ParcelView, Error>(e),
                Ok(_) => exists|m2: Walk, c: OpResult<bool>|
                    (#[trigger] seam_step(n.source, n.next, m1, m2, c)) && match c {
                        Err(e) => post == m2 && res == Err::<ParcelView, Error>(e),
                        Ok(true) => exists|m3: Walk, r3: OpResult<ParcelView>|
                            (#[trigger] passes(m3, r3)) && collects_of(n.next, m2.in_mode(WalkMode::Off), m3, mode, r3)
                                && chain_collected(*n, m3.in_mode(m2.cb), r3, post, res),
                        Ok(false) => exists|m3: Walk, r3: OpResult<ParcelView>|
                            (#[trigger] passes(m3, r3)) && child_collects(n.next, m2, m3, mode, r3) && chain_collected(
                                *n,
                                m3,
                                r3,
                                post,
                                res,
                            ),
                    },
            },
        DeviceOp::Bundle(n) => exists|m: Walk, r: OpResult<Seq<ParcelView>>|
            (#[trigger] passes(m, r)) && collects_from(n.ops, 0, Seq::empty(), pre, m, r) && match r {
                Err(e) => post == m && res == Err::<ParcelView, Error>(e),
                Ok(ps) => exists|j: OpResult<Seq<u64>>|
                    (#[trigger] passes(m, j)) && joins_branches(all_deps(ps), m, post, j) && res == (match j {
                        Err(e) => Err::<ParcelView, Error>(e),
                        Ok(deps) => Ok(ParcelView { value: all_values(ps), deps, home: None }),
                    }),
            },
        _ => exists|m: Walk, r: OpResult<()>|
            (#[trigger] passes(m, r)) && runs_of(op, pre, m, mode, r) && match r {
                Err(e) => post == m && res == Err::<ParcelView, Error>(e),
                Ok(_) => {
                    let (w, d) = drain_from(outs_of(op), 0, Seq::empty(), m.w);
                    post == m.at(w) && res == (match d {
                        Ok(ps) => Ok::<ParcelView, Error>(merged(ps)),
                        Err(k) => Err(missing_of(op, k)),
                    })
                },
            },
    }
}

/// What one run of an op inside another may hand out as a single value. After a
/// command buffer was submitted, the rest of its walk runs without.
pub open spec fn child_collects(op: DeviceOp, pre: Walk, post: Walk, mode: ExecMode, res: OpResult<ParcelView>) -> bool
    decreases op, 2nat,
{
    if pre.cb.is_closed() {
        exists|m: Walk|
            (#[trigger] passes(m, ())) && collects_of(op, pre.in_mode(WalkMode::Off), m, mode, res) && post == m.in_mode(
                pre.cb,
            )
    } else {
        collects_of(op, pre, post, mode, res)
    }
}

/// What one run of an op may hand out as checkouts, without opening a command
/// buffer for the op itself.
pub open spec fn gathers_of(op: DeviceOp, pre: Walk, post: Walk, mode: ExecMode, res: OpResult<GatheredView>) -> bool
    decreases op, 2nat,
{
    match op {
        DeviceOp::AndThen(n) => exists|m1: Walk, r1: OpResult<()>|
            (#[trigger] passes(m1, r1)) && child_runs(n.source, pre, m1, ExecMode::Pipelined, r1) && match r1 {
                Err(e) => post == m1 && res == Err::<GatheredView, Error>(e),
                Ok(_) => exists|m2: Walk, c: OpResult<bool>|
                    (#[trigger] seam_step(n.source, n.next, m1, m2, c)) && match c {
                        Err(e) => post == m2 && res == Err::<GatheredView, Error>(e),
                        Ok(true) => exists|m3: Walk, r3: OpResult<GatheredView>|
                            (#[trigger] passes(m3, r3)) && node_gathers(n.next, m2.in_mode(WalkMode::Off), m3, mode, r3)
                                && chain_gathered(*n, m3.in_mode(m2.cb), r3, post, res),
                        Ok(false) => exists|m3: Walk, r3: OpResult<GatheredView>|
                            (#[trigger] passes(m3, r3)) && child_gathers(n.next, m2, m3, mode, r3) && chain_gathered(
                                *n,
                                m3,
                                r3,
                                post,
                                res,
                            ),
                    },
            },
        DeviceOp::Bundle(n) => joined_gathers(n.ops, true, pre, post, res),
        DeviceOp::FanOut(n) => joined_gathers(n.ops, false, pre, post, res),
        DeviceOp::Host(n) => host_gathers(n.source, n.f, false, pre, post, res),
        DeviceOp::HostWithContext(n) => host_gathers(n.source, n.f, true, pre, post, res),
        _ => exists|m: Walk, r: OpResult<()>|
            (#[trigger] passes(m, r)) && runs_of(op, pre, m, mode, r) && match r {
                Err(e) => post == m && res == Err::<GatheredView, Error>(e),
                Ok(_) => {
                    let (w, d) = drain_from(outs_of(op), 0, Seq::empty(), m.w);
                    post == m.at(w) && res == (match d {
                        Ok(ps) => Ok::<GatheredView, Error>(checked_out(ps)),
                        Err(k) => Err(missing_of(op, k)),
                    })
                },
            },
    }
}

/// The checkouts of all ops of a list, behind one marker.
pub open spec fn joined_gathers(
    ops: Vec<DeviceOp>,
    as_children: bool,
    pre: Walk,
    post: Walk,
    res: OpResult<GatheredView>,
) -> bool
    decreases ops, ops.len() + 1,
{
    exists|m: Walk, r: OpResult<GatheredView>|
        (#[trigger] passes(m, r)) && gathers_from(
            ops,
            0,
            as_children,
            GatheredView { outs: Seq::empty(), deps: Seq::empty() },
            pre,
            m,
            r,
        ) && match r {
            Err(e) => post == m && res == Err::<GatheredView, Error>(e),
            Ok(g) => exists|j: OpResult<Seq<u64>>|
                (#[trigger] passes(m, j)) && joins_branches(g.deps, m, post, j) && res == (match j {
                    Err(e) => Err::<GatheredView, Error>(e),
                    Ok(deps) => Ok(GatheredView { outs: g.outs, deps }),
                }),
        }
}

/// An op run as one command buffer: replayed where the op keeps one for the
/// queue, else built, kept and submitted; where it cannot be built, the op runs
/// without.
pub open spec fn boundary_runs(op: DeviceOp, pre: Walk, post: Walk, mode: ExecMode, res: OpResult<()>) -> bool
    decreases op, 2nat,
{
    let cache = cache_of(op)->Some_0;
    match usable_cb(pre.w, cache, pre.queue) {
        Some(cb) => exists|m: Walk, r: OpResult<()>|
            (#[trigger] passes(m, r)) && runs_of(op, pre.in_mode(replay_mode(cache)), m, mode, r) && match r {
                Err(e) => post == m.in_mode(WalkMode::Off) && res == Err::<(), Error>(e),
                Ok(_) => if m.cb.is_closed() {
                    post == m.in_mode(WalkMode::Off) && res == Ok::<(), Error>(())
                } else {
                    exists|t: Walk, j: OpResult<u64>|
                        (#[trigger] enqueue_runs(m, cb, t, j)) && submitted(op, t, j, post, res)
                },
            },
        None => exists|q: Reply|
            {
                let s = #[trigger] pre.issued(Command::OpenCb { queue: pre.queue }, Seq::empty(), q);
                match q {
                    Err(_) => runs_of(op, s, post, mode, res),
                    Ok(b) => exists|m: Walk, r: OpResult<()>|
                        (#[trigger] passes(m, r)) && runs_of(op, s.building(b, cache), m, mode, r) && match r {
                            Err(e) => if m.cb.is_abandoned() {
                                runs_of(op, given_up(pre.w, m), post, mode, res)
                            } else {
                                post == m.in_mode(WalkMode::Off) && res == Err::<(), Error>(e)
                            },
                            Ok(_) => build_runs(op, pre.w, m, post, mode, res),
                        },
                }
            },
    }
}

/// The end of an op run as one command buffer that was submitted: its outputs
/// wait on the completion event.
pub open spec fn submitted(op: DeviceOp, t: Walk, j: OpResult<u64>, post: Walk, res: OpResult<()>) -> bool {
    match j {
        Err(e) => post == t.in_mode(WalkMode::Off) && res == Err::<(), Error>(e),
        Ok(ev) => post == t.in_mode(WalkMode::Off).at(restamp_of(op, t.w, seq![ev])) && res == Ok::<
            (),
            Error,
        >(()),
    }
}

/// The end of an op whose walk was to build a command buffer, from the cells
/// `start` on.
pub open spec fn build_runs(op: DeviceOp, start: World, m: Walk, post: Walk, mode: ExecMode, res: OpResult<()>) -> bool
    decreases op, 1nat,
{
    match build_end(m.cb) {
        BuildEnd::Submitted => post == m.in_mode(WalkMode::Off) && res == Ok::<(), Error>(()),
        BuildEnd::GivenUp => runs_of(op, given_up(start, m), post, mode, res),
        BuildEnd::Empty => {
            let w = delay_of(op, m.w, m.cb.ext());
            post == m.in_mode(WalkMode::Off).at(w) && res == Ok::<(), Error>(())
        },
        BuildEnd::Finish => exists|q: Reply|
            {
                let t = #[trigger] cb_finished(m, q);
                match q {
                    Err(_) => runs_of(op, given_up(start, t), post, mode, res),
                    Ok(cb) => exists|u: Walk, j: OpResult<u64>|
                        (#[trigger] enqueue_runs(t, cb, u, j)) && submitted(op, u, j, post, res),
                }
            },
    }
}

/// The checkouts of an op run as one command buffer.
pub open spec fn boundary_gathers(
    op: DeviceOp,
    pre: Walk,
    post: Walk,
    mode: ExecMode,
    res: OpResult<GatheredView>,
) -> bool
    decreases op, 4nat,
{
    let cache = cache_of(op)->Some_0;
    match usable_cb(pre.w, cache, pre.queue) {
        Some(cb) => exists|m: Walk, r: OpResult<GatheredView>|
            (#[trigger] passes(m, r)) && gathers_of(op, pre.in_mode(replay_mode(cache)), m, mode, r) && match r {
                Err(e) => post == m.in_mode(WalkMode::Off) && res == Err::<GatheredView, Error>(e),
                Ok(g) => if m.cb.is_closed() {
                    post == m.in_mode(WalkMode::Off) && res == Ok::<GatheredView, Error>(g)
                } else {
                    exists|t: Walk, j: OpResult<u64>|
                        (#[trigger] enqueue_runs(m, cb, t, j)) && delivered(g, t, j, post, res)
                },
            },
        None => exists|q: Reply|
            {
                let s = #[trigger] pre.issued(Command::OpenCb { queue: pre.queue }, Seq::empty(), q);
                match q {
                    Err(_) => gathers_of(op, s, post, mode, res),
                    Ok(b) => exists|m: Walk, r: OpResult<GatheredView>|
                        (#[trigger] passes(m, r)) && gathers_of(op, s.building(b, cache), m, mode, r)
                            && match r {
                            Err(e) => if m.cb.is_abandoned() {
                                gathers_of(op, given_up(pre.w, m), post, mode, res)
                            } else {
                                post == m.in_mode(WalkMode::Off) && res == Err::<GatheredView, Error>(e)
                            },
                            Ok(g) => build_gathers(op, pre.w, g, m, post, mode, res),
                        },
                }
            },
    }
}

/// The end of a gather run as one command buffer that was submitted: the
/// checkouts wait on the completion event.
pub open spec fn delivered(
    g: GatheredView,
    t: Walk,
    j: OpResult<u64>,
    post: Walk,
    res: OpResult<GatheredView>,
) -> bool {
    post == t.in_mode(WalkMode::Off) && res == (match j {
        Err(e) => Err::<GatheredView, Error>(e),
        Ok(ev) => Ok(GatheredView { outs: g.outs, deps: seq![ev] }),
    })
}

/// The end of a gather whose walk was to build a command buffer, from the cells
/// `start` on.
pub open spec fn build_gathers(
    op: DeviceOp,
    start: World,
    g: GatheredView,
    m: Walk,
    post: Walk,
    mode: ExecMode,
    res: OpResult<GatheredView>,
) -> bool
    decreases op, 3nat,
{
    match build_end(m.cb) {
        BuildEnd::Submitted => post == m.in_mode(WalkMode::Off) && res == Ok::<GatheredView, Error>(g),
        BuildEnd::Empty => post == m.in_mode(WalkMode::Off) && res == Ok::<GatheredView, Error>(
            GatheredView { outs: g.outs, deps: g.deps + m.cb.ext() },
        ),
        BuildEnd::GivenUp => gathers_of(op, given_up(start, m), post, mode, res),
        BuildEnd::Finish => exists|q: Reply|
            {
                let t = #[trigger] cb_finished(m, q);
                match q {
                    Err(_) => gathers_of(op, given_up(start, t), post, mode, res),
                    Ok(cb) => exists|u: Walk, j: OpResult<u64>|
                        (#[trigger] enqueue_runs(t, cb, u, j)) && delivered(g, u, j, post, res),
                }
            },
    }
}

/// What one run of an op may do.
pub open spec fn node_runs(op: DeviceOp, pre: Walk, post: Walk, mode: ExecMode, res: OpResult<()>) -> bool
    decreases op, 3nat,
{
    if opens_itself(op, pre) {
        boundary_runs(op, pre, post, mode, res)
    } else {
        runs_of(op, pre, post, mode, res)
    }
}

/// What one run of an op inside another may do: it may become a command buffer
/// of its own. After a command buffer was submitted, the rest of its walk runs
/// without.
pub open spec fn child_runs(op: DeviceOp, pre: Walk, post: Walk, mode: ExecMode, res: OpResult<()>) -> bool
    decreases op, 5nat,
{
    if pre.cb.is_closed() {
        exists|m: Walk|
            (#[trigger] passes(m, ())) && open_child_runs(op, pre.in_mode(WalkMode::Off), m, mode, res) && post == m.in_mode(
                pre.cb,
            )
    } else {
        open_child_runs(op, pre, post, mode, res)
    }
}

/// What one run of an op inside another may do, while no command buffer was
/// submitted.
pub open spec fn open_child_runs(op: DeviceOp, pre: Walk, post: Walk, mode: ExecMode, res: OpResult<()>) -> bool
    decreases op, 4nat,
{
    if opens_boundary(op, pre) {
        boundary_runs(op, pre, post, mode, res)
    } else {
        node_runs(op, pre, post, mode, res)
    }
}

/// What one run of an op may hand out as checkouts.
pub open spec fn node_gathers(op: DeviceOp, pre: Walk, post: Walk, mode: ExecMode, res: OpResult<GatheredView>) -> bool
    decreases op, 5nat,
{
    if op is AndThen && opens_span(op, pre) {
        boundary_gathers(op, pre, post, mode, res)
    } else {
        gathers_of(op, pre, post, mode, res)
    }
}

/// What one run of an op inside another may hand out as checkouts.
pub open spec fn child_gathers(op: DeviceOp, pre: Walk, post: Walk, mode: ExecMode, res: OpResult<GatheredView>) -> bool
    decreases op, 7nat,
{
    if pre.cb.is_closed() {
        exists|m: Walk|
            (#[trigger] passes(m, ())) && open_child_gathers(op, pre.in_mode(WalkMode::Off), m, mode, res) && post
                == m.in_mode(pre.cb)
    } else {
        open_child_gathers(op, pre, post, mode, res)
    }
}

/// What one run of an op inside another may hand out as checkouts, while no
/// command buffer was submitted.
pub open spec fn open_child_gathers(
    op: DeviceOp,
    pre: Walk,
    post: Walk,
    mode: ExecMode,
    res: OpResult<GatheredView>,
) -> bool
    decreases op, 6nat,
{
    if opens_boundary(op, pre) {
        boundary_gathers(op, pre, post, mode, res)
    } else {
        node_gathers(op, pre, post, mode, res)
    }
}

fn drain_outs<D: Driver>(ec: &mut ExecutionContext<D>, outs: &Vec<Pipe>) -> (r: core::result::Result<Vec<Parcel>, usize>)
    ensures
        final(ec)@ == old(ec)@.at(drain_from(outs@, 0, Seq::empty(), old(ec)@.w).0),
        match r {
            Ok(v) => drain_from(outs@, 0, Seq::empty(), old(ec)@.w).1 == Ok::<Seq<ParcelView>, int>(
                parcel_views(v@),
            ),
            Err(k) => drain_from(outs@, 0, Seq::empty(), old(ec)@.w).1 == Err::<Seq<ParcelView>, int>(
                k as int,
            ),
        },
{
    let ghost pre = ec@;
    let mut got: Vec<Parcel> = Vec::new();
    let mut i: usize = 0;
    assert(parcel_views(got@) =~= Seq::empty());
    while i < outs.len()
        invariant
            i <= outs.len(),
            pre == old(ec)@,
            ec@ == pre.at(ec@.w),
            drain_from(outs@, 0, Seq::empty(), pre.w) == drain_from(
                outs@,
                i as nat,
                parcel_views(got@),
                ec@.w,
            ),
        decreases outs.len() - i,
    {
        let ghost before = ec@.w;
        let ghost views = parcel_views(got@);
        match ec.take_home(&outs[i]) {
            None => {
                assert(ec@.w =~= before);
                assert(drain_from(outs@, i as nat, views, before) == (
                    before,
                    Err::<Seq<ParcelView>, int>(i as int),
                ));
                return Err(i);
            },
            Some(p) => {
                got.push(p);
                assert(parcel_views(got@) =~= views.push(p@));
            },
        }
        i = i + 1;
    }
    Ok(got)
}

/// Append a copy of `v` to `out`.
pub fn push_objs(out: &mut Vec<Obj>, v: &Vec<Obj>)
    ensures
        final(out)@ == old(out)@ + v@,
{
    let mut i: usize = 0;
    while i < v.len()
        invariant
            i <= v@.len(),
            out@ =~= old(out)@ + v@.take(i as int),
        decreases v.len() - i,
    {
        out.push(v[i]);
        i = i + 1;
    }
    assert(v@.take(i as int) =~= v@);
}

fn values_of(ps: &Vec<Parcel>) -> (r: Vec<Obj>)
    ensures
        r@ == all_values(parcel_views(ps@)),
{
    let ghost views = parcel_views(ps@);
    let mut out: Vec<Obj> = Vec::new();
    let mut i: usize = 0;
    assert(views.take(0) =~= Seq::empty());
    while i < ps.len()
        invariant
            i <= ps.len(),
            views == parcel_views(ps@),
            out@ == all_values(views.take(i as int)),
        decreases ps.len() - i,
    {
        push_objs(&mut out, &ps[i].value);
        assert(views.take(i + 1).drop_last() =~= views.take(i as int));
        i = i + 1;
    }
    assert(views.take(i as int) =~= views);
    out
}

fn deps_of(ps: &Vec<Parcel>) -> (r: Vec<u64>)
    ensures
        r@ == all_deps(parcel_views(ps@)),
{
    let ghost views = parcel_views(ps@);
    let mut out: Vec<u64> = Vec::new();
    let mut i: usize = 0;
    assert(views.take(0) =~= Seq::empty());
    while i < ps.len()
        invariant
            i <= ps.len(),
            views == parcel_views(ps@),
            out@ == all_deps(views.take(i as int)),
        decreases ps.len() - i,
    {
        extend_ids(&mut out, &ps[i].deps);
        assert(views.take(i + 1).drop_last() =~= views.take(i as int));
        i = i + 1;
    }
    assert(views.take(i as int) =~= views);
    out
}

fn merge_parcels(ps: &Vec<Parcel>) -> (r: Parcel)
    ensures
        r@ == merged(parcel_views(ps@)),
{
    let home: Option<Home> = if ps.len() == 1 {
        ps[0].home
    } else {
        None
    };
    Parcel { value: values_of(ps), deps: deps_of(ps), home }
}

fn check_out(ps: Vec<Parcel>) -> (r: Gathered)
    ensures
        r@ == checked_out(parcel_views(ps@)),
{
    let deps: Vec<u64> = deps_of(&ps);
    let mut outs: Vec<Checkout> = Vec::new();
    let mut i: usize = 0;
    while i < ps.len()
        invariant
            i <= ps.len(),
            outs@.len() == i,
            forall|k: int|
                0 <= k < i ==> (#[trigger] outs@[k])@ == (CheckoutView {
                    value: ps@[k].value@,
                    home: ps@[k].home,
                }),
        decreases ps.len() - i,
    {
        let mut v: Vec<Obj> = Vec::new();
        push_objs(&mut v, &ps[i].value);
        assert(v@ =~= ps@[i as int].value@);
        outs.push(Checkout::new(v, ps[i].home));
        i = i + 1;
    }
    let r = Gathered { outs, deps };
    assert(r@ =~= checked_out(parcel_views(ps@)));
    r
}

fn outputs_of(outs: &Vec<Checkout>) -> (r: Vec<Obj>)
    ensures
        r@ == out_values(outs@.map_values(|c: Checkout| c@)),
{
    let ghost views = outs@.map_values(|c: Checkout| c@);
    let mut out: Vec<Obj> = Vec::new();
    let mut i: usize = 0;
    assert(views.take(0) =~= Seq::empty());
    while i < outs.len()
        invariant
            i <= outs.len(),
            views == outs@.map_values(|c: Checkout| c@),
            out@ == out_values(views.take(i as int)),
        decreases outs.len() - i,
    {
        push_objs(&mut out, &outs[i].value);
        assert(views.take(i + 1).drop_last() =~= views.take(i as int));
        i = i + 1;
    }
    assert(views.take(i as int) =~= views);
    out
}

fn missing_error(op: &DeviceOp, k: usize) -> (r: Error)
    ensures
        r == missing_of(*op, k as int),
{
    match op {
        DeviceOp::Leaf(l) => l.missing_error(k),
        DeviceOp::ArcSplit(_) => Error::NotSupported("eager arc_split: a branch produced no output"),
        _ => Error::NotSupported("eager graph: the op produced no output"),
    }
}

/// Add the events of a source whose output nobody took to those of the next op's
/// output.
fn thread_orphaned_source_deps<D: Driver>(ec: &mut ExecutionContext<D>, src: Option<Pipe>, out: Option<Pipe>)
    ensures
        final(ec)@ == old(ec)@.at(orphans_threaded(old(ec)@.w, src, out)),
{
    let ghost pre = ec@;
    if let Some(sp) = src {
        match ec.take_home(&sp) {
            None => {
                assert(ec@.w =~= pre.w);
            },
            Some(p) => {
                if let Some(op) = out {
                    let ghost mid = ec@;
                    match ec.take_home(&op) {
                        None => {
                            assert(ec@.w =~= mid.w);
                        },
                        Some(q) => {
                            let mut deps: Vec<u64> = copy_ids(&q.deps);
                            extend_ids(&mut deps, &p.deps);
                            ec.put_home(&op, q.value, deps, q.home);
                            assert(ec@.w =~= orphans_threaded(pre.w, src, out));
                        },
                    }
                }
            },
        }
    }
    assert(ec@ =~= pre.at(orphans_threaded(pre.w, src, out)));
}

/// Take the events of a source whose output nobody took.
fn take_orphan_deps<D: Driver>(ec: &mut ExecutionContext<D>, src: Option<Pipe>) -> (r: Vec<u64>)
    ensures
        r@ == orphan_deps(old(ec)@.w, src),
        final(ec)@ == old(ec)@.at(orphans_dropped(old(ec)@.w, src)),
{
    let ghost pre = ec@;
    match src {
        None => no_deps(),
        Some(sp) => match ec.take_home(&sp) {
            None => {
                assert(ec@.w =~= pre.w);
                no_deps()
            },
            Some(p) => p.deps,
        },
    }
}

fn share_values(v: &Vec<Obj>) -> (r: Vec<Obj>)
    ensures
        r@ == shared_values(v@),
{
    let mut out: Vec<Obj> = Vec::new();
    let mut i: usize = 0;
    while i < v.len()
        invariant
            i <= v.len(),
            out@ =~= shared_values(v@).take(i as int),
        decreases v.len() - i,
    {
        out.push(v[i].to_shared());
        i = i + 1;
    }
    assert(shared_values(v@).take(i as int) =~= shared_values(v@));
    out
}

fn copy_values(v: &Vec<Obj>) -> (r: Vec<Obj>)
    ensures
        r@ == v@,
{
    let mut out: Vec<Obj> = Vec::new();
    push_objs(&mut out, v);
    assert(out@ =~= v@);
    out
}

fn pipe_cell(p: &Option<Pipe>) -> (r: Option<u64>)
    ensures
        r == cell_of(*p),
{
    match p {
        Some(p) => Some(p.cell),
        None => None,
    }
}

/// The way of a run for the ops that are still to come.
fn live_kind<D: Driver>(ec: &ExecutionContext<D>) -> (r: WalkKind)
    ensures
        r == (match ec@.cb.live() {
            WalkMode::Off => WalkKind::Off,
            WalkMode::Build { .. } => WalkKind::Build,
            WalkMode::LendOnly { .. } => WalkKind::LendOnly,
        }),
{
    if cb_span_closed(ec) {
        WalkKind::Off
    } else {
        walk_kind(ec)
    }
}

fn split_to<D: Driver>(ec: &mut ExecutionContext<D>, src: Option<u64>, outs: &Vec<Pipe>, p: &Parcel)
    ensures
        final(ec)@ == split_from(src, outs@, 0, old(ec)@, p@),
        kept(old(ec)@, final(ec)@),
{
    let ghost pre = ec@;
    let mut i: usize = 0;
    while i < outs.len()
        invariant
            i <= outs.len(),
            split_from(src, outs@, 0, pre, p@) == split_from(src, outs@, i as nat, ec@, p@),
            kept(pre, ec@),
        decreases outs.len() - i,
    {
        match live_kind(ec) {
            WalkKind::Off => {
                ec.put_home(&outs[i], copy_values(&p.value), copy_ids(&p.deps), None);
            },
            WalkKind::Build => {
                cb_forward_passthrough(ec, None, src, outs[i].cell);
                ec.put_home(&outs[i], copy_values(&p.value), no_deps(), None);
            },
            WalkKind::LendOnly => {
                ec.put_home(&outs[i], copy_values(&p.value), no_deps(), None);
            },
        }
        i = i + 1;
    }
}

/// Join events by a marker; the answer is the marker's event.
pub fn deps_into_single_event<D: Driver>(ec: &mut ExecutionContext<D>, deps: &Vec<u64>) -> (r: OpResult<u64>)
    ensures
        join_runs(deps@, old(ec)@, final(ec)@, r),
        kept(old(ec)@, final(ec)@),
{
    let ghost pre = ec@;
    let q: Reply = ec.issue(Command::Marker, deps);
    assert(ec@ == pre.issued(Command::Marker, deps@, q));
    match q {
        Ok(ev) => Ok(ev),
        Err(c) => Err(Error::OpenCl(c)),
    }
}

/// Join branches; the answer is what the joined value waits on.
fn join_branches<D: Driver>(ec: &mut ExecutionContext<D>, deps: Vec<u64>) -> (r: OpResult<Vec<u64>>)
    ensures
        joins_branches(deps@, old(ec)@, final(ec)@, ids_view(r)),
        kept(old(ec)@, final(ec)@),
{
    if matches!(live_kind(ec), WalkKind::Off) {
        let ghost pre = ec@;
        let j: OpResult<u64> = deps_into_single_event(ec, &deps);
        assert(join_runs(deps@, pre, ec@, j));
        match j {
            Err(e) => Err(e),
            Ok(ev) => Ok(single_dep(ev)),
        }
    } else {
        Ok(deps)
    }
}

fn submit_cb<D: Driver>(ec: &mut ExecutionContext<D>, cb: u64) -> (r: OpResult<u64>)
    ensures
        enqueue_runs(old(ec)@, cb, final(ec)@, r),
        kept(old(ec)@, final(ec)@),
{
    let ghost pre = ec@;
    let q: Reply = cb_enqueue(ec, cb);
    assert(ec@ == cb_enqueued(pre, cb, q));
    match q {
        Ok(ev) => Ok(ev),
        Err(c) => Err(Error::OpenCl(c)),
    }
}

fn scatter<D: Driver>(ec: &mut ExecutionContext<D>, handle: &Vec<Pipe>, outs: &Vec<Checkout>, deps: &Vec<u64>)
    ensures
        final(ec)@ == scatter_from(
            handle@,
            outs@.map_values(|c: Checkout| c@),
            0,
            deps@,
            old(ec)@,
        ),
        kept(old(ec)@, final(ec)@),
{
    let ghost pre = ec@;
    let ghost views = outs@.map_values(|c: Checkout| c@);
    let mut i: usize = 0;
    while i < handle.len() && i < outs.len()
        invariant
            i <= handle.len(),
            views == outs@.map_values(|c: Checkout| c@),
            scatter_from(handle@, views, 0, deps@, pre) == scatter_from(
                handle@,
                views,
                i as nat,
                deps@,
                ec@,
            ),
            kept(pre, ec@),
        decreases handle.len() - i,
    {
        ec.put_home(&handle[i], copy_values(&outs[i].value), copy_ids(deps), outs[i].home);
        i = i + 1;
    }
}

/// Drop checkouts: each value goes back home.
pub fn drop_checkouts<D: Driver>(ec: &mut ExecutionContext<D>, outs: &Vec<Checkout>)
    ensures
        final(ec)@ == old(ec)@.at(
            dropped_from(outs@.map_values(|c: Checkout| c@), 0, old(ec)@.w),
        ),
{
    let ghost pre = ec@;
    let ghost views = outs@.map_values(|c: Checkout| c@);
    let mut i: usize = 0;
    while i < outs.len()
        invariant
            i <= outs.len(),
            views == outs@.map_values(|c: Checkout| c@),
            ec@ == pre.at(ec@.w),
            dropped_from(views, 0, pre.w) == dropped_from(views, i as nat, ec@.w),
        decreases outs.len() - i,
    {
        ec.rehome(outs[i].home, &outs[i].value);
        i = i + 1;
    }
}

fn join_points<D: Driver>(ec: &mut ExecutionContext<D>, ops: &Vec<DeviceOp>, out: u64) -> (r: IdSet)
    ensures
        (final(ec)@, r@) == branch_points(*ops, 0, out, Seq::empty(), old(ec)@),
        kept(old(ec)@, final(ec)@),
{
    let ghost pre = ec@;
    let mut sps: IdSet = IdSet::new();
    let mut i: usize = 0;
    while i < ops.len()
        invariant
            i <= ops.len(),
            branch_points(*ops, 0, out, Seq::empty(), pre) == branch_points(
                *ops,
                i as nat,
                out,
                sps@,
                ec@,
            ),
            kept(pre, ec@),
        decreases ops.len() - i,
    {
        if let Some(p) = ops[i].output_pipe() {
            let more: IdSet = ec.sp_lookup(Some(p.cell));
            sps.insert_all(&more);
            cb_forward_reach(ec, None, Some(p.cell), out);
        }
        i = i + 1;
    }
    sps
}

/// Whether an op can run as a command buffer at all.
pub fn cb_graph_eligible<D: Driver>(op: &DeviceOp, ec: &ExecutionContext<D>) -> (r: bool)
    ensures
        r == (ec@.has_cb && addable_of(*op)),
{
    ec.has_cl_khr_command_buffer() && op.cb_addable()
}

/// Whether a whole op becomes a command buffer of its own.
pub fn cb_should_open_boundary<D: Driver>(op: &DeviceOp, ec: &ExecutionContext<D>) -> (r: bool)
    ensures
        r == opens_boundary(*op, ec@),
{
    matches!(ec.cb(), CbWalk::Off) && op.cb_cache().is_some() && cb_graph_eligible(op, ec)
        && op.cbable_weight() >= 2
}

/// Whether a sequence opens a command buffer for the recordable ops at its head.
pub fn cb_should_open_span<D: Driver>(op: &DeviceOp, ec: &ExecutionContext<D>) -> (r: bool)
    ensures
        r == opens_span(*op, ec@),
{
    matches!(ec.cb(), CbWalk::Off) && op.cb_cache().is_some() && ec.has_cl_khr_command_buffer()
        && op.cb_spine_head_addable() && !op.cb_addable() && op.cbable_weight() >= 2
}

fn opens_for_itself<D: Driver>(op: &DeviceOp, ec: &ExecutionContext<D>) -> (r: bool)
    ensures
        r == opens_itself(*op, ec@),
{
    match op {
        DeviceOp::AndThen(_) => cb_should_open_span(op, ec),
        DeviceOp::Bundle(_) => cb_should_open_boundary(op, ec),
        _ => false,
    }
}

/// Whether the walk met the end of a command buffer that cannot be used.
fn build_abandoned<D: Driver>(ec: &ExecutionContext<D>) -> (r: bool)
    ensures
        r == ec@.cb.is_abandoned(),
{
    match ec.cb() {
        CbWalk::Build { builder, closed, .. } => *closed && !builder.is_finalized() && !builder.is_eligible(),
        _ => false,
    }
}

/// Submit the command buffer before an op that cannot go on with it; the answer
/// says whether the command buffer ends here. One that cannot be used is an error,
/// which the run meets where it opened the command buffer.
pub fn cb_close_before_seam<D: Driver>(
    source: &DeviceOp,
    next: &DeviceOp,
    ec: &mut ExecutionContext<D>,
) -> (r: OpResult<bool>)
    ensures
        seam_step(*source, *next, old(ec)@, final(ec)@, r),
        kept(old(ec)@, final(ec)@),
{
    let ghost pre = ec@;
    if matches!(ec.cb(), CbWalk::Off) || next.cb_spine_head_addable() {
        return Ok(false);
    }
    let before: bool = cb_span_closed(ec);
    let ext: Vec<u64> = ec.ext_deps();
    let closed: OpResult<Option<u64>> = cb_close_span(ec);
    let ghost s = ec@;
    let ghost (r1, r2) = choose|r1: Reply, r2: Reply|
        (#[trigger] span_closed(pre, r1, r2)) == (s, closed);
    assert(span_closed(pre, r1, r2) == (s, closed));
    match closed {
        Err(e) => Err(e),
        Ok(Some(ev)) => {
            source.cb_restamp(ec.store_mut(), &single_dep(ev));
            Ok(true)
        },
        Ok(None) => if build_abandoned(ec) {
            Err(Error::NotSupported("eager graph: the command buffer cannot be used"))
        } else {
            if !before {
                source.cb_delay(ec.store_mut(), &ext);
            }
            assert(ec@ =~= s.at(seam_delayed(*source, s.w, pre.cb)));
            Ok(true)
        },
    }
}

/// What comes of the walk that was to build a command buffer.
fn build_end_of<D: Driver>(ec: &ExecutionContext<D>) -> (r: BuildEnd)
    ensures
        r == build_end(ec@.cb),
{
    match ec.cb() {
        CbWalk::Build { builder, .. } => if builder.is_finalized() {
            BuildEnd::Submitted
        } else if !builder.is_eligible() {
            BuildEnd::GivenUp
        } else if builder.recorded() == 0 {
            BuildEnd::Empty
        } else {
            BuildEnd::Finish
        },
        _ => BuildEnd::Submitted,
    }
}

impl DeviceOp {
    /// Run the op without opening a command buffer for the op itself.
    pub fn execute_plain<D: Driver>(&self, ec: &mut ExecutionContext<D>, mode: ExecMode) -> (r: OpResult<()>)
        requires
            devices_of(*self) <= old(ec)@.devices.len(),
        ensures
            runs_of(*self, old(ec)@, final(ec)@, mode, r),
            kept(old(ec)@, final(ec)@),
        decreases self, 0nat,
    {
        let ghost pre = ec@;
        match self {
            DeviceOp::Leaf(l) => l.execute(ec, mode),
            DeviceOp::AndThen(n) => {
                let src = n.source.output_pipe();
                let out = n.next.output_pipe();
                let r1: OpResult<()> = cb_exec_child(&n.source, ec, ExecMode::Pipelined);
                let ghost m1 = ec@;
                assert(child_runs(n.source, pre, m1, ExecMode::Pipelined, r1));
                assert(passes(m1, r1));
                if let Err(e) = r1 {
                    return Err(e);
                }
                let c: OpResult<bool> = cb_close_before_seam(&n.source, &n.next, ec);
                let ghost m2 = ec@;
                assert(seam_step(n.source, n.next, m1, m2, c));
                let ended: bool = match c {
                    Err(e) => {
                        return Err(e);
                    },
                    Ok(b) => b,
                };
                let r3: OpResult<()> = if ended {
                    let saved = ec.with_cb(CbWalk::Off);
                    let r: OpResult<()> = n.next.execute(ec, mode);
                    assert(node_runs(n.next, m2.in_mode(WalkMode::Off), ec@, mode, r));
                    assert(passes(ec@, r));
                    ec.with_cb(saved);
                    assert(kept(m2, ec@));
                    r
                } else {
                    let r: OpResult<()> = cb_exec_child(&n.next, ec, mode);
                    assert(child_runs(n.next, m2, ec@, mode, r));
                    assert(passes(ec@, r));
                    r
                };
                match r3 {
                    Err(e) => Err(e),
                    Ok(_) => {
                        thread_orphaned_source_deps(ec, src, out);
                        Ok(())
                    },
                }
            },
            DeviceOp::Arced(n) => {
                let r: OpResult<Parcel> = n.source.collect_home(ec, ExecMode::Pipelined);
                let ghost m = ec@;
                assert(collects_of(n.source, pre, m, ExecMode::Pipelined, parcel_view(r)));
                assert(passes(m, parcel_view(r)));
                match r {
                    Err(e) => Err(e),
                    Ok(p) => {
                        let v: Vec<Obj> = share_values(&p.value);
                        match live_kind(ec) {
                            WalkKind::Off => {
                                ec.put_home(&n.out, v, p.deps, None);
                            },
                            WalkKind::Build => {
                                if let Some(sp) = n.source.output_pipe() {
                                    cb_forward_passthrough(ec, None, Some(sp.cell), n.out.cell);
                                }
                                ec.put_home(&n.out, v, no_deps(), None);
                            },
                            WalkKind::LendOnly => {
                                ec.put_home(&n.out, v, no_deps(), None);
                            },
                        }
                        assert(ec@ == arced_after(**n, m, p@));
                        Ok(())
                    },
                }
            },
            DeviceOp::ArcSplit(n) => {
                let r: OpResult<Parcel> = n.source.collect_home(ec, ExecMode::Pipelined);
                let ghost m = ec@;
                assert(collects_of(n.source, pre, m, ExecMode::Pipelined, parcel_view(r)));
                assert(passes(m, parcel_view(r)));
                match r {
                    Err(e) => Err(e),
                    Ok(p) => {
                        let src: Option<u64> = pipe_cell(&n.source.output_pipe());
                        split_to(ec, src, &n.outs, &p);
                        Ok(())
                    },
                }
            },
            DeviceOp::Bundle(n) => run_from(&n.ops, 0, ec),
            DeviceOp::FanOut(n) => {
                let r: OpResult<Vec<Parcel>> = collect_from(&n.ops, 0, Vec::new(), ec);
                let ghost m = ec@;
                assert(parcel_views(Seq::<Parcel>::empty()) =~= Seq::empty());
                assert(collects_from(n.ops, 0, Seq::empty(), pre, m, parcels_view(r)));
                assert(passes(m, parcels_view(r)));
                match r {
                    Err(e) => Err(e),
                    Ok(ps) => {
                        let v: Vec<Obj> = values_of(&ps);
                        let ghost pv = parcel_views(ps@);
                        match walk_kind(ec) {
                            WalkKind::Build => {
                                let sps: IdSet = join_points(ec, &n.ops, n.out.cell);
                                ec.sp_register(n.out.cell, sps);
                                ec.put_home(&n.out, v, no_deps(), None);
                                assert(fan_ends(**n, m, pv, ec@, Ok(())));
                                Ok(())
                            },
                            WalkKind::LendOnly => {
                                ec.put_home(&n.out, v, no_deps(), None);
                                assert(fan_ends(**n, m, pv, ec@, Ok(())));
                                Ok(())
                            },
                            WalkKind::Off => {
                                let deps: Vec<u64> = deps_of(&ps);
                                let q: Reply = ec.issue(Command::Marker, &deps);
                                assert(ec@ == m.issued(Command::Marker, all_deps(pv), q));
                                match q {
                                    Err(c) => {
                                        assert(fan_ends(**n, m, pv, ec@, Err(Error::OpenCl(c))));
                                        Err(Error::OpenCl(c))
                                    },
                                    Ok(ev) => {
                                        ec.put_home(&n.out, v, single_dep(ev), None);
                                        assert(fan_ends(**n, m, pv, ec@, Ok(())));
                                        Ok(())
                                    },
                                }
                            },
                        }
                    },
                }
            },
            DeviceOp::Dyn(n) => {
                let r: OpResult<Parcel> = n.inner.collect_home(ec, mode);
                assert(collects_of(n.inner, pre, ec@, mode, parcel_view(r)));
                assert(passes(ec@, parcel_view(r)));
                match r {
                    Err(e) => Err(e),
                    Ok(p) => {
                        ec.put_home(&n.out, p.value, p.deps, None);
                        Ok(())
                    },
                }
            },
            DeviceOp::OnDevice(n) => {
                let device: u64 = n.target.pick(ec);
                let old_queue: u64 = ec.cl_queue();
                let old_device: u64 = ec.device();
                let q: Reply = ec.issue(Command::Queue { device }, &no_deps());
                let ghost s = ec@;
                assert(s == pre.issued(
                    Command::Queue { device: n.target.device(pre) },
                    Seq::empty(),
                    q,
                ));
                match q {
                    Err(c) => Err(Error::OpenCl(c)),
                    Ok(queue) => {
                        ec.set_queue(queue, device);
                        let saved = ec.with_cb(CbWalk::Off);
                        assert(ec@ == routed(s, queue, device));
                        let r: OpResult<Parcel> = n.source.collect_home(ec, mode);
                        let ghost m = ec@;
                        assert(collects_of(
                            n.source,
                            routed(s, queue, n.target.device(pre)),
                            m,
                            mode,
                            parcel_view(r),
                        ));
                        assert(passes(m, parcel_view(r)));
                        ec.with_cb(saved);
                        ec.set_queue(old_queue, old_device);
                        assert(ec@ == back_from(m, pre));
                        assert(kept(pre, ec@)) by {
                            assert(m.trace[pre.trace.len() as int] == s.trace[pre.trace.len() as int]);
                        }
                        match r {
                            Err(e) => Err(e),
                            Ok(p) => {
                                ec.put_home(&n.out, p.value, p.deps, None);
                                Ok(())
                            },
                        }
                    },
                }
            },
            DeviceOp::Host(n) => run_host(&n.source, n.f, false, &n.handle, self.output_pipe(), ec),
            DeviceOp::HostWithContext(n) => run_host(
                &n.source,
                n.f,
                true,
                &n.handle,
                self.output_pipe(),
                ec,
            ),
            DeviceOp::Profiled(n) => {
                let r: OpResult<Parcel> = n.source.collect_home(ec, ExecMode::Pipelined);
                let ghost m = ec@;
                assert(collects_of(n.source, pre, m, ExecMode::Pipelined, parcel_view(r)));
                assert(passes(m, parcel_view(r)));
                match r {
                    Err(e) => Err(e),
                    Ok(p) => finish_profile(n, p, ec),
                }
            },
        }
    }

    /// Run the op and take its output, with its home, as a single value.
    pub fn collect_home<D: Driver>(&self, ec: &mut ExecutionContext<D>, mode: ExecMode) -> (r: OpResult<Parcel>)
        requires
            devices_of(*self) <= old(ec)@.devices.len(),
        ensures
            collects_of(*self, old(ec)@, final(ec)@, mode, parcel_view(r)),
            kept(old(ec)@, final(ec)@),
        decreases self, 1nat,
    {
        let ghost pre = ec@;
        match self {
            DeviceOp::AndThen(n) => {
                let src = n.source.output_pipe();
                let r1: OpResult<()> = cb_exec_child(&n.source, ec, ExecMode::Pipelined);
                let ghost m1 = ec@;
                assert(child_runs(n.source, pre, m1, ExecMode::Pipelined, r1));
                assert(passes(m1, r1));
                if let Err(e) = r1 {
                    return Err(e);
                }
                let c: OpResult<bool> = cb_close_before_seam(&n.source, &n.next, ec);
                let ghost m2 = ec@;
                assert(seam_step(n.source, n.next, m1, m2, c));
                let ended: bool = match c {
                    Err(e) => {
                        return Err(e);
                    },
                    Ok(b) => b,
                };
                let r3: OpResult<Parcel> = if ended {
                    let saved = ec.with_cb(CbWalk::Off);
                    let r: OpResult<Parcel> = n.next.collect_home(ec, mode);
                    assert(collects_of(n.next, m2.in_mode(WalkMode::Off), ec@, mode, parcel_view(r)));
                    assert(passes(ec@, parcel_view(r)));
                    ec.with_cb(saved);
                    assert(kept(m2, ec@));
                    r
                } else {
                    let r: OpResult<Parcel> = cb_collect_child(&n.next, ec, mode);
                    assert(child_collects(n.next, m2, ec@, mode, parcel_view(r)));
                    assert(passes(ec@, parcel_view(r)));
                    r
                };
                match r3 {
                    Err(e) => Err(e),
                    Ok(p) => {
                        let more: Vec<u64> = take_orphan_deps(ec, src);
                        let mut deps = p.deps;
                        extend_ids(&mut deps, &more);
                        Ok(Parcel { value: p.value, deps, home: p.home })
                    },
                }
            },
            DeviceOp::Bundle(n) => {
                let r: OpResult<Vec<Parcel>> = collect_from(&n.ops, 0, Vec::new(), ec);
                let ghost m = ec@;
                assert(parcel_views(Seq::<Parcel>::empty()) =~= Seq::empty());
                assert(collects_from(n.ops, 0, Seq::empty(), pre, m, parcels_view(r)));
                assert(passes(m, parcels_view(r)));
                match r {
                    Err(e) => Err(e),
                    Ok(ps) => {
                        let deps: Vec<u64> = deps_of(&ps);
                        let value: Vec<Obj> = values_of(&ps);
                        let j: OpResult<Vec<u64>> = join_branches(ec, deps);
                        assert(joins_branches(all_deps(parcel_views(ps@)), m, ec@, ids_view(j)));
                        assert(passes(m, ids_view(j)));
                        match j {
                            Err(e) => Err(e),
                            Ok(deps) => Ok(Parcel { value, deps, home: None }),
                        }
                    },
                }
            },
            _ => {
                let r: OpResult<()> = self.execute_plain(ec, mode);
                assert(runs_of(*self, pre, ec@, mode, r));
                assert(passes(ec@, r));
                match r {
                    Err(e) => Err(e),
                    Ok(_) => {
                        let outs: Vec<Pipe> = self.pipes();
                        match drain_outs(ec, &outs) {
                            Ok(ps) => Ok(merge_parcels(&ps)),
                            Err(k) => Err(missing_error(self, k)),
                        }
                    },
                }
            },
        }
    }

    /// Run the op and take its output as a single value, taken for good.
    pub fn collect<D: Driver>(&self, ec: &mut ExecutionContext<D>, mode: ExecMode) -> (r: OpResult<Parcel>)
        requires
            devices_of(*self) <= old(ec)@.devices.len(),
        ensures
            exists|h: OpResult<ParcelView>|
                (#[trigger] collects_of(*self, old(ec)@, final(ec)@, mode, h)) && parcel_view(r) == (match h {
                    Ok(p) => Ok::<ParcelView, Error>(ParcelView { home: None, ..p }),
                    Err(e) => Err(e),
                }),
            kept(old(ec)@, final(ec)@),
    {
        let r: OpResult<Parcel> = self.collect_home(ec, mode);
        assert(collects_of(*self, old(ec)@, ec@, mode, parcel_view(r)));
        assert(passes(ec@, parcel_view(r)));
        match r {
            Ok(p) => Ok(Parcel { value: p.value, deps: p.deps, home: None }),
            Err(e) => Err(e),
        }
    }

    /// Run the op and check its outputs out, without opening a command buffer for
    /// the op itself.
    pub fn gather_plain<D: Driver>(&self, ec: &mut ExecutionContext<D>, mode: ExecMode) -> (r: OpResult<Gathered>)
        requires
            devices_of(*self) <= old(ec)@.devices.len(),
        ensures
            gathers_of(*self, old(ec)@, final(ec)@, mode, gathered_view(r)),
            kept(old(ec)@, final(ec)@),
        decreases self, 2nat,
    {
        let ghost pre = ec@;
        match self {
            DeviceOp::AndThen(n) => {
                let src = n.source.output_pipe();
                let r1: OpResult<()> = cb_exec_child(&n.source, ec, ExecMode::Pipelined);
                let ghost m1 = ec@;
                assert(child_runs(n.source, pre, m1, ExecMode::Pipelined, r1));
                assert(passes(m1, r1));
                if let Err(e) = r1 {
                    return Err(e);
                }
                let c: OpResult<bool> = cb_close_before_seam(&n.source, &n.next, ec);
                let ghost m2 = ec@;
                assert(seam_step(n.source, n.next, m1, m2, c));
                let ended: bool = match c {
                    Err(e) => {
                        return Err(e);
                    },
                    Ok(b) => b,
                };
                let r3: OpResult<Gathered> = if ended {
                    let saved = ec.with_cb(CbWalk::Off);
                    let r: OpResult<Gathered> = n.next.gather_checkouts(ec, mode);
                    assert(node_gathers(n.next, m2.in_mode(WalkMode::Off), ec@, mode, gathered_view(r)));
                    assert(passes(ec@, gathered_view(r)));
                    ec.with_cb(saved);
                    assert(kept(m2, ec@));
                    r
                } else {
                    let r: OpResult<Gathered> = cb_gather_child(&n.next, ec, mode);
                    assert(child_gathers(n.next, m2, ec@, mode, gathered_view(r)));
                    assert(passes(ec@, gathered_view(r)));
                    r
                };
                match r3 {
                    Err(e) => Err(e),
                    Ok(g) => {
                        let more: Vec<u64> = take_orphan_deps(ec, src);
                        let mut deps = g.deps;
                        extend_ids(&mut deps, &more);
                        Ok(Gathered { outs: g.outs, deps })
                    },
                }
            },
            DeviceOp::Bundle(n) => gather_joined(&n.ops, true, ec),
            DeviceOp::FanOut(n) => gather_joined(&n.ops, false, ec),
            DeviceOp::Host(n) => gather_host(&n.source, n.f, false, ec),
            DeviceOp::HostWithContext(n) => gather_host(&n.source, n.f, true, ec),
            _ => {
                let r: OpResult<()> = self.execute_plain(ec, mode);
                assert(runs_of(*self, pre, ec@, mode, r));
                assert(passes(ec@, r));
                match r {
                    Err(e) => Err(e),
                    Ok(_) => {
                        let outs: Vec<Pipe> = self.pipes();
                        match drain_outs(ec, &outs) {
                            Ok(ps) => Ok(check_out(ps)),
                            Err(k) => Err(missing_error(self, k)),
                        }
                    },
                }
            },
        }
    }

    /// Run the op.
    pub fn execute<D: Driver>(&self, ec: &mut ExecutionContext<D>, mode: ExecMode) -> (r: OpResult<()>)
        requires
            devices_of(*self) <= old(ec)@.devices.len(),
        ensures
            node_runs(*self, old(ec)@, final(ec)@, mode, r),
            kept(old(ec)@, final(ec)@),
        decreases self, 3nat,
    {
        if opens_for_itself(self, ec) {
            cb_boundary_execute(self, ec, mode)
        } else {
            self.execute_plain(ec, mode)
        }
    }

    /// Run the op and check its outputs out.
    pub fn gather_checkouts<D: Driver>(&self, ec: &mut ExecutionContext<D>, mode: ExecMode) -> (r: OpResult<Gathered>)
        requires
            devices_of(*self) <= old(ec)@.devices.len(),
        ensures
            node_gathers(*self, old(ec)@, final(ec)@, mode, gathered_view(r)),
            kept(old(ec)@, final(ec)@),
        decreases self, 5nat,
    {
        if matches!(self, DeviceOp::AndThen(_)) && cb_should_open_span(self, ec) {
            cb_boundary_gather(self, ec, mode)
        } else {
            self.gather_plain(ec, mode)
        }
    }
}

/// The outcome of collecting a list as plain values.
pub open spec fn parcels_view(r: OpResult<Vec<Parcel>>) -> OpResult<Seq<ParcelView>> {
    match r {
        Ok(v) => Ok(parcel_views(v@)),
        Err(e) => Err(e),
    }
}

fn finish_profile<D: Driver>(n: &Profiled, p: Parcel, ec: &mut ExecutionContext<D>) -> (r: OpResult<()>)
    ensures
        profile_ends(*n, old(ec)@, p@, final(ec)@, r),
        kept(old(ec)@, final(ec)@),
{
    let ghost m = ec@;
    let q1: Reply = ec.issue(Command::QueueProperties, &no_deps());
    let ghost s = ec@;
    assert(s == m.issued(Command::QueueProperties, Seq::empty(), q1));
    let bits: u64 = match q1 {
        Ok(b) => b,
        Err(c) => {
            return Err(Error::OpenCl(c));
        },
    };
    if bits & QUEUE_PROFILING_ENABLE == 0 {
        return Err(Error::ProfilingDisabled);
    }
    let q2: Reply = ec.issue(Command::Marker, &p.deps);
    let ghost t = ec@;
    assert(t == s.issued(Command::Marker, p@.deps, q2));
    let ev: u64 = match q2 {
        Ok(ev) => ev,
        Err(c) => {
            assert(profile_marked(*n, s, p@, ec@, Err(Error::OpenCl(c))));
            return Err(Error::OpenCl(c));
        },
    };
    let q3: Reply = ec.issue(Command::ProfilingCallback { event: ev, callback: n.cb }, &no_deps());
    assert(ec@ == t.issued(
        Command::ProfilingCallback { event: ev, callback: n.cb },
        Seq::empty(),
        q3,
    ));
    match q3 {
        Err(c) => {
            assert(profile_marked(*n, s, p@, ec@, Err(Error::OpenCl(c))));
            Err(Error::OpenCl(c))
        },
        Ok(_) => {
            ec.put_home(&n.out, p.value, single_dep(ev), p.home);
            assert(profile_marked(*n, s, p@, ec@, Ok(())));
            Ok(())
        },
    }
}

fn run_host<D: Driver>(
    source: &DeviceOp,
    f: u64,
    with_context: bool,
    handle: &Vec<Pipe>,
    out: Option<Pipe>,
    ec: &mut ExecutionContext<D>,
) -> (r: OpResult<()>)
    requires
        devices_of(*source) <= old(ec)@.devices.len(),
    ensures
        host_runs(*source, f, with_context, handle@, out, old(ec)@, final(ec)@, r),
        kept(old(ec)@, final(ec)@),
    decreases source, 10nat,
{
    let ghost pre = ec@;
    let r1: OpResult<Gathered> = cb_gather_child(source, ec, ExecMode::Pipelined);
    let ghost m1 = ec@;
    assert(child_gathers(*source, pre, m1, ExecMode::Pipelined, gathered_view(r1)));
    assert(passes(m1, gathered_view(r1)));
    match r1 {
        Err(e) => Err(e),
        Ok(g) => {
            if let Some(p) = out {
                let src: Option<u64> = pipe_cell(&source.output_pipe());
                cb_forward_reach(ec, None, src, p.cell);
            }
            let ghost m2 = ec@;
            assert(m2 == seam_reach(output_pipe_of(*source), out, m1));
            assert(kept(pre, m2));
            let value: Vec<Obj> = outputs_of(&g.outs);
            let r3: OpResult<Vec<u64>> = run_host_seam(ec, &value, &g.deps, f, with_context);
            assert(seam_runs(
                out_values(g@.outs),
                g@.deps,
                f,
                with_context,
                seam_reach(output_pipe_of(*source), out, m1),
                ec@,
                ids_view(r3),
            ));
            assert(passes(ec@, ids_view(r3)));
            match r3 {
                Err(e) => Err(e),
                Ok(deps) => {
                    scatter(ec, handle, &g.outs, &deps);
                    Ok(())
                },
            }
        },
    }
}

fn gather_host<D: Driver>(source: &DeviceOp, f: u64, with_context: bool, ec: &mut ExecutionContext<D>) -> (r: OpResult<
    Gathered,
>)
    requires
        devices_of(*source) <= old(ec)@.devices.len(),
    ensures
        host_gathers(*source, f, with_context, old(ec)@, final(ec)@, gathered_view(r)),
        kept(old(ec)@, final(ec)@),
    decreases source, 10nat,
{
    let ghost pre = ec@;
    let r1: OpResult<Gathered> = cb_gather_child(source, ec, ExecMode::Pipelined);
    let ghost m1 = ec@;
    assert(child_gathers(*source, pre, m1, ExecMode::Pipelined, gathered_view(r1)));
    assert(passes(m1, gathered_view(r1)));
    match r1 {
        Err(e) => Err(e),
        Ok(g) => {
            let value: Vec<Obj> = outputs_of(&g.outs);
            let r3: OpResult<Vec<u64>> = run_host_seam(ec, &value, &g.deps, f, with_context);
            assert(seam_runs(out_values(g@.outs), g@.deps, f, with_context, m1, ec@, ids_view(r3)));
            assert(passes(ec@, ids_view(r3)));
            match r3 {
                Err(e) => Err(e),
                Ok(deps) => Ok(Gathered { outs: g.outs, deps }),
            }
        },
    }
}

fn run_from<D: Driver>(ops: &Vec<DeviceOp>, i: usize, ec: &mut ExecutionContext<D>) -> (r: OpResult<()>)
    requires
        i <= ops.len(),
        devices_from(*ops, i as nat) <= old(ec)@.devices.len(),
    ensures
        runs_from(*ops, i as nat, old(ec)@, final(ec)@, r),
        kept(old(ec)@, final(ec)@),
    decreases ops, ops.len() - i,
{
    if i >= ops.len() {
        return Ok(());
    }
    let ghost pre = ec@;
    let r: OpResult<()> = cb_exec_child(&ops[i], ec, ExecMode::Pipelined);
    assert(child_runs(ops[i as int], pre, ec@, ExecMode::Pipelined, r));
    assert(passes(ec@, r));
    match r {
        Err(e) => Err(e),
        Ok(_) => run_from(ops, i + 1, ec),
    }
}

fn collect_from<D: Driver>(ops: &Vec<DeviceOp>, i: usize, got: Vec<Parcel>, ec: &mut ExecutionContext<D>) -> (r: OpResult<
    Vec<Parcel>,
>)
    requires
        i <= ops.len(),
        devices_from(*ops, i as nat) <= old(ec)@.devices.len(),
    ensures
        collects_from(*ops, i as nat, parcel_views(got@), old(ec)@, final(ec)@, parcels_view(r)),
        kept(old(ec)@, final(ec)@),
    decreases ops, ops.len() - i,
{
    if i >= ops.len() {
        return Ok(got);
    }
    let ghost pre = ec@;
    let ghost views = parcel_views(got@);
    let r: OpResult<Parcel> = ops[i].collect_home(ec, ExecMode::Pipelined);
    assert(collects_of(ops[i as int], pre, ec@, ExecMode::Pipelined, parcel_view(r)));
    assert(passes(ec@, parcel_view(r)));
    match r {
        Err(e) => Err(e),
        Ok(p) => {
            let mut more = got;
            more.push(p);
            assert(parcel_views(more@) =~= views.push(p@));
            collect_from(ops, i + 1, more, ec)
        },
    }
}

fn push_checkouts(into: &mut Vec<Checkout>, from: Vec<Checkout>)
    ensures
        final(into)@.map_values(|c: Checkout| c@) == old(into)@.map_values(|c: Checkout| c@)
            + from@.map_values(|c: Checkout| c@),
{
    let mut from = from;
    let ghost before = into@;
    let ghost all = from@;
    into.append(&mut from);
    assert(into@ =~= before + all);
    assert(into@.map_values(|c: Checkout| c@) =~= before.map_values(|c: Checkout| c@)
        + all.map_values(|c: Checkout| c@));
}

fn gather_from<D: Driver>(
    ops: &Vec<DeviceOp>,
    i: usize,
    as_children: bool,
    got: Gathered,
    ec: &mut ExecutionContext<D>,
) -> (r: OpResult<Gathered>)
    requires
        i <= ops.len(),
        devices_from(*ops, i as nat) <= old(ec)@.devices.len(),
    ensures
        gathers_from(*ops, i as nat, as_children, got@, old(ec)@, final(ec)@, gathered_view(r)),
        kept(old(ec)@, final(ec)@),
    decreases ops, ops.len() - i,
{
    if i >= ops.len() {
        return Ok(got);
    }
    let ghost pre = ec@;
    let r: OpResult<Gathered> = if as_children {
        cb_gather_child(&ops[i], ec, ExecMode::Pipelined)
    } else {
        ops[i].gather_checkouts(ec, ExecMode::Pipelined)
    };
    assert(branch_gathers(ops[i as int], as_children, pre, ec@, gathered_view(r)));
    assert(passes(ec@, gathered_view(r)));
    match r {
        Err(e) => Err(e),
        Ok(g) => {
            let mut outs = got.outs;
            let mut deps = got.deps;
            push_checkouts(&mut outs, g.outs);
            extend_ids(&mut deps, &g.deps);
            let both = Gathered { outs, deps };
            assert(both@ =~= (GatheredView { outs: got@.outs + g@.outs, deps: got@.deps + g@.deps }));
            gather_from(ops, i + 1, as_children, both, ec)
        },
    }
}

fn gather_joined<D: Driver>(ops: &Vec<DeviceOp>, as_children: bool, ec: &mut ExecutionContext<D>) -> (r: OpResult<
    Gathered,
>)
    requires
        devices_from(*ops, 0) <= old(ec)@.devices.len(),
    ensures
        joined_gathers(*ops, as_children, old(ec)@, final(ec)@, gathered_view(r)),
        kept(old(ec)@, final(ec)@),
    decreases ops, ops.len() + 1,
{
    let ghost pre = ec@;
    let none = Gathered { outs: Vec::new(), deps: Vec::new() };
    assert(none@ =~= (GatheredView { outs: Seq::empty(), deps: Seq::empty() }));
    let r: OpResult<Gathered> = gather_from(ops, 0, as_children, none, ec);
    let ghost m = ec@;
    assert(gathers_from(
        *ops,
        0,
        as_children,
        GatheredView { outs: Seq::empty(), deps: Seq::empty() },
        pre,
        m,
        gathered_view(r),
    ));
    assert(passes(m, gathered_view(r)));
    match r {
        Err(e) => Err(e),
        Ok(g) => {
            let ghost gv = g@;
            let j: OpResult<Vec<u64>> = join_branches(ec, g.deps);
            assert(joins_branches(gv.deps, m, ec@, ids_view(j)));
            assert(passes(m, ids_view(j)));
            match j {
                Err(e) => Err(e),
                Ok(deps) => Ok(Gathered { outs: g.outs, deps }),
            }
        },
    }
}

/// Run an op as one command buffer.
pub fn cb_boundary_execute<D: Driver>(op: &DeviceOp, ec: &mut ExecutionContext<D>, mode: ExecMode) -> (r: OpResult<()>)
    requires
        devices_of(*op) <= old(ec)@.devices.len(),
        cache_of(*op) is Some,
        old(ec)@.cb is Off,
    ensures
        boundary_runs(*op, old(ec)@, final(ec)@, mode, r),
        kept(old(ec)@, final(ec)@),
    decreases op, 2nat,
{
    let ghost pre = ec@;
    let queue: u64 = ec.cl_queue();
    let cache: u64 = match op.cb_cache() {
        Some(c) => c,
        None => 0,
    };
    let cached: Option<u64> = cb_lookup_cached(ec.store(), cache, queue);
    if let Some(cb) = cached {
        ec.with_cb(CbWalk::LendOnly { ext: Vec::new(), svm: Vec::new(), cache, closed: false });
        assert(ec@.cb =~= replay_mode(cache));
        let r: OpResult<()> = op.execute_plain(ec, mode);
        let ghost m = ec@;
        assert(runs_of(*op, pre.in_mode(replay_mode(cache)), m, mode, r));
        assert(passes(m, r));
        if let Err(e) = r {
            ec.with_cb(CbWalk::Off);
            return Err(e);
        }
        if cb_span_closed(ec) {
            ec.with_cb(CbWalk::Off);
            return Ok(());
        }
        let j: OpResult<u64> = submit_cb(ec, cb);
        let ghost t = ec@;
        assert(enqueue_runs(m, cb, t, j));
        ec.with_cb(CbWalk::Off);
        return match j {
            Err(e) => Err(e),
            Ok(ev) => {
                op.cb_restamp(ec.store_mut(), &single_dep(ev));
                assert(submitted(*op, t, j, ec@, Ok(())));
                Ok(())
            },
        };
    }
    let q: Reply = ec.issue(Command::OpenCb { queue }, &no_deps());
    let ghost s = ec@;
    assert(s == pre.issued(Command::OpenCb { queue: pre.queue }, Seq::empty(), q));
    let b: u64 = match q {
        Err(_) => {
            return op.execute_plain(ec, mode);
        },
        Ok(b) => b,
    };
    let before: Snapshot = ec.store().snapshot();
    ec.start_build(b, cache);
    let r: OpResult<()> = op.execute_plain(ec, mode);
    let ghost m = ec@;
    assert(runs_of(*op, s.building(b, cache), m, mode, r));
    assert(passes(m, r));
    if let Err(e) = r {
        let again: bool = build_abandoned(ec);
        ec.with_cb(CbWalk::Off);
        assert(kept(s, ec@));
        if again {
            ec.store_mut().restore(before);
            assert(ec@ == given_up(pre.w, m));
            return op.execute_plain(ec, mode);
        }
        return Err(e);
    }
    assert(kept(s, m.in_mode(WalkMode::Off)));
    let r = finish_build(op, before, ec, mode);
    assert(build_runs(*op, pre.w, m, ec@, mode, r));
    r
}

fn finish_build<D: Driver>(
    op: &DeviceOp,
    before: Snapshot,
    ec: &mut ExecutionContext<D>,
    mode: ExecMode,
) -> (r: OpResult<()>)
    requires
        devices_of(*op) <= old(ec)@.devices.len(),
        old(ec)@.cb is Build,
    ensures
        forall|start: World|
            #[trigger] before.shows(start) ==> build_runs(*op, start, old(ec)@, final(ec)@, mode, r),
        kept(old(ec)@.in_mode(WalkMode::Off), final(ec)@),
    decreases op, 1nat,
{
    let ghost m = ec@;
    match build_end_of(ec) {
        BuildEnd::Submitted => {
            ec.with_cb(CbWalk::Off);
            Ok(())
        },
        BuildEnd::GivenUp => {
            ec.with_cb(CbWalk::Off);
            ec.store_mut().restore(before);
            assert(forall|start: World| #[trigger] before.shows(start) ==> ec@ == given_up(start, m));
            op.execute_plain(ec, mode)
        },
        BuildEnd::Empty => {
            let evs: Vec<u64> = ec.ext_deps();
            ec.with_cb(CbWalk::Off);
            op.cb_delay(ec.store_mut(), &evs);
            Ok(())
        },
        BuildEnd::Finish => {
            let done: Option<u64> = cb_finish(ec);
            let ghost t = ec@;
            let ghost q = choose|reply: Reply|
                {
                    &&& t == (#[trigger] cb_finished(m, reply))
                    &&& done == (match reply {
                        Ok(cb) => Some(cb),
                        Err(_) => None::<u64>,
                    })
                };
            assert(t == cb_finished(m, q));
            match done {
                None => {
                    ec.with_cb(CbWalk::Off);
                    ec.store_mut().restore(before);
                    assert(forall|start: World| #[trigger] before.shows(start) ==> ec@ == given_up(start, t));
                    op.execute_plain(ec, mode)
                },
                Some(cb) => {
                    let j: OpResult<u64> = submit_cb(ec, cb);
                    let ghost u = ec@;
                    assert(enqueue_runs(t, cb, u, j));
                    ec.with_cb(CbWalk::Off);
                    match j {
                        Err(e) => {
                            assert(submitted(*op, u, j, ec@, Err(e)));
                            Err(e)
                        },
                        Ok(ev) => {
                            op.cb_restamp(ec.store_mut(), &single_dep(ev));
                            assert(submitted(*op, u, j, ec@, Ok(())));
                            Ok(())
                        },
                    }
                },
            }
        },
    }
}

/// Run an op as one command buffer and check its outputs out.
pub fn cb_boundary_gather<D: Driver>(op: &DeviceOp, ec: &mut ExecutionContext<D>, mode: ExecMode) -> (r: OpResult<Gathered>)
    requires
        devices_of(*op) <= old(ec)@.devices.len(),
        cache_of(*op) is Some,
        old(ec)@.cb is Off,
    ensures
        boundary_gathers(*op, old(ec)@, final(ec)@, mode, gathered_view(r)),
        kept(old(ec)@, final(ec)@),
    decreases op, 4nat,
{
    let ghost pre = ec@;
    let queue: u64 = ec.cl_queue();
    let cache: u64 = match op.cb_cache() {
        Some(c) => c,
        None => 0,
    };
    let cached: Option<u64> = cb_lookup_cached(ec.store(), cache, queue);
    if let Some(cb) = cached {
        ec.with_cb(CbWalk::LendOnly { ext: Vec::new(), svm: Vec::new(), cache, closed: false });
        assert(ec@.cb =~= replay_mode(cache));
        let r: OpResult<Gathered> = op.gather_plain(ec, mode);
        let ghost m = ec@;
        assert(gathers_of(*op, pre.in_mode(replay_mode(cache)), m, mode, gathered_view(r)));
        assert(passes(m, gathered_view(r)));
        let g: Gathered = match r {
            Err(e) => {
                ec.with_cb(CbWalk::Off);
                return Err(e);
            },
            Ok(g) => g,
        };
        if cb_span_closed(ec) {
            ec.with_cb(CbWalk::Off);
            return Ok(g);
        }
        let j: OpResult<u64> = submit_cb(ec, cb);
        let ghost t = ec@;
        assert(enqueue_runs(m, cb, t, j));
        ec.with_cb(CbWalk::Off);
        return match j {
            Err(e) => {
                assert(delivered(g@, t, j, ec@, Err(e)));
                Err(e)
            },
            Ok(ev) => {
                let out = Gathered { outs: g.outs, deps: single_dep(ev) };
                assert(delivered(g@, t, j, ec@, Ok(out@)));
                Ok(out)
            },
        };
    }
    let q: Reply = ec.issue(Command::OpenCb { queue }, &no_deps());
    let ghost s = ec@;
    assert(s == pre.issued(Command::OpenCb { queue: pre.queue }, Seq::empty(), q));
    let b: u64 = match q {
        Err(_) => {
            return op.gather_plain(ec, mode);
        },
        Ok(b) => b,
    };
    let before: Snapshot = ec.store().snapshot();
    ec.start_build(b, cache);
    let r: OpResult<Gathered> = op.gather_plain(ec, mode);
    let ghost m = ec@;
    assert(gathers_of(*op, s.building(b, cache), m, mode, gathered_view(r)));
    assert(passes(m, gathered_view(r)));
    match r {
        Err(e) => {
            let again: bool = build_abandoned(ec);
            ec.with_cb(CbWalk::Off);
            assert(kept(s, ec@));
            if again {
                ec.store_mut().restore(before);
                assert(ec@ == given_up(pre.w, m));
                return op.gather_plain(ec, mode);
            }
            Err(e)
        },
        Ok(g) => {
            let ghost gv = g@;
            assert(kept(s, m.in_mode(WalkMode::Off)));
            let r = finish_gather(op, before, g, ec, mode);
            assert(build_gathers(*op, pre.w, gv, m, ec@, mode, gathered_view(r)));
            r
        },
    }
}

fn finish_gather<D: Driver>(
    op: &DeviceOp,
    before: Snapshot,
    g: Gathered,
    ec: &mut ExecutionContext<D>,
    mode: ExecMode,
) -> (r: OpResult<Gathered>)
    requires
        devices_of(*op) <= old(ec)@.devices.len(),
        old(ec)@.cb is Build,
    ensures
        forall|start: World|
            #[trigger] before.shows(start) ==> build_gathers(
                *op,
                start,
                g@,
                old(ec)@,
                final(ec)@,
                mode,
                gathered_view(r),
            ),
        kept(old(ec)@.in_mode(WalkMode::Off), final(ec)@),
    decreases op, 3nat,
{
    let ghost m = ec@;
    let ghost gv = g@;
    match build_end_of(ec) {
        BuildEnd::Submitted => {
            ec.with_cb(CbWalk::Off);
            Ok(g)
        },
        BuildEnd::Empty => {
            let ext: Vec<u64> = ec.ext_deps();
            ec.with_cb(CbWalk::Off);
            let mut deps = g.deps;
            extend_ids(&mut deps, &ext);
            Ok(Gathered { outs: g.outs, deps })
        },
        BuildEnd::GivenUp => {
            ec.with_cb(CbWalk::Off);
            ec.store_mut().restore(before);
            assert(forall|start: World| #[trigger] before.shows(start) ==> ec@ == given_up(start, m));
            op.gather_plain(ec, mode)
        },
        BuildEnd::Finish => {
            let done: Option<u64> = cb_finish(ec);
            let ghost t = ec@;
            let ghost q = choose|reply: Reply|
                {
                    &&& t == (#[trigger] cb_finished(m, reply))
                    &&& done == (match reply {
                        Ok(cb) => Some(cb),
                        Err(_) => None::<u64>,
                    })
                };
            assert(t == cb_finished(m, q));
            match done {
                None => {
                    ec.with_cb(CbWalk::Off);
                    ec.store_mut().restore(before);
                    assert(forall|start: World| #[trigger] before.shows(start) ==> ec@ == given_up(start, t));
                    op.gather_plain(ec, mode)
                },
                Some(cb) => {
                    let j: OpResult<u64> = submit_cb(ec, cb);
                    let ghost u = ec@;
                    assert(enqueue_runs(t, cb, u, j));
                    ec.with_cb(CbWalk::Off);
                    match j {
                        Err(e) => {
                            assert(delivered(gv, u, j, ec@, Err(e)));
                            Err(e)
                        },
                        Ok(ev) => {
                            let out = Gathered { outs: g.outs, deps: single_dep(ev) };
                            assert(delivered(gv, u, j, ec@, Ok(out@)));
                            Ok(out)
                        },
                    }
                },
            }
        },
    }
}

/// Run an op inside another.
pub fn cb_exec_child<D: Driver>(child: &DeviceOp, ec: &mut ExecutionContext<D>, mode: ExecMode) -> (r: OpResult<()>)
    requires
        devices_of(*child) <= old(ec)@.devices.len(),
    ensures
        child_runs(*child, old(ec)@, final(ec)@, mode, r),
        kept(old(ec)@, final(ec)@),
    decreases child, 5nat,
{
    let ghost pre = ec@;
    if cb_span_closed(ec) {
        let saved = ec.with_cb(CbWalk::Off);
        let r: OpResult<()> = exec_open_child(child, ec, mode);
        assert(open_child_runs(*child, pre.in_mode(WalkMode::Off), ec@, mode, r));
        assert(passes(ec@, ()));
        ec.with_cb(saved);
        r
    } else {
        exec_open_child(child, ec, mode)
    }
}

fn exec_open_child<D: Driver>(child: &DeviceOp, ec: &mut ExecutionContext<D>, mode: ExecMode) -> (r: OpResult<()>)
    requires
        devices_of(*child) <= old(ec)@.devices.len(),
    ensures
        open_child_runs(*child, old(ec)@, final(ec)@, mode, r),
        kept(old(ec)@, final(ec)@),
    decreases child, 4nat,
{
    if cb_should_open_boundary(child, ec) {
        cb_boundary_execute(child, ec, mode)
    } else {
        child.execute(ec, mode)
    }
}

/// Run an op inside another and take its output as a single value.
fn cb_collect_child<D: Driver>(child: &DeviceOp, ec: &mut ExecutionContext<D>, mode: ExecMode) -> (r: OpResult<Parcel>)
    requires
        devices_of(*child) <= old(ec)@.devices.len(),
    ensures
        child_collects(*child, old(ec)@, final(ec)@, mode, parcel_view(r)),
        kept(old(ec)@, final(ec)@),
    decreases child, 2nat,
{
    let ghost pre = ec@;
    if cb_span_closed(ec) {
        let saved = ec.with_cb(CbWalk::Off);
        let r: OpResult<Parcel> = child.collect_home(ec, mode);
        assert(collects_of(*child, pre.in_mode(WalkMode::Off), ec@, mode, parcel_view(r)));
        assert(passes(ec@, ()));
        ec.with_cb(saved);
        r
    } else {
        child.collect_home(ec, mode)
    }
}

/// Run an op inside another and check its outputs out.
pub fn cb_gather_child<D: Driver>(child: &DeviceOp, ec: &mut ExecutionContext<D>, mode: ExecMode) -> (r: OpResult<Gathered>)
    requires
        devices_of(*child) <= old(ec)@.devices.len(),
    ensures
        child_gathers(*child, old(ec)@, final(ec)@, mode, gathered_view(r)),
        kept(old(ec)@, final(ec)@),
    decreases child, 7nat,
{
    let ghost pre = ec@;
    if cb_span_closed(ec) {
        let saved = ec.with_cb(CbWalk::Off);
        let r: OpResult<Gathered> = gather_open_child(child, ec, mode);
        assert(open_child_gathers(*child, pre.in_mode(WalkMode::Off), ec@, mode, gathered_view(r)));
        assert(passes(ec@, ()));
        ec.with_cb(saved);
        r
    } else {
        gather_open_child(child, ec, mode)
    }
}

fn gather_open_child<D: Driver>(child: &DeviceOp, ec: &mut ExecutionContext<D>, mode: ExecMode) -> (r: OpResult<Gathered>)
    requires
        devices_of(*child) <= old(ec)@.devices.len(),
    ensures
        open_child_gathers(*child, old(ec)@, final(ec)@, mode, gathered_view(r)),
        kept(old(ec)@, final(ec)@),
    decreases child, 6nat,
{
    if cb_should_open_boundary(child, ec) {
        cb_boundary_gather(child, ec, mode)
    } else {
        child.gather_checkouts(ec, mode)
    }
}

} // verus!
