//! The terminals: running an op and waiting for it, or leaving it in flight.

use crate::chain::{join_chain_workers, joins, preferred, release_start, releases};
use crate::error::{Error, OpResult};
use crate::exec_ctx::{kept, Driver, ExecMode, ExecutionContext, Walk};
use crate::graph::{devices_of, ready_of, reclaim_of, seam_of, DeviceOp};
use crate::image_ops::{ImageCopy, ImageFill, ImageRead, ImageWrite};
use crate::input::{Checkout, Input};
use crate::leaf::no_deps;
use crate::leaf_op::LeafOp;
use crate::leaves::{
    buf_ctx, concrete_buf_ctx, concrete_svm_ctx, svm_ctx, Download, Fill, FillMapped, LeafNode, ReadInto, WriteDevice,
    WriteMapped,
};
use crate::obj::{is_svm, shares_memory, Class, Command, Obj, Reply};
use crate::store::{Parcel, ParcelView, Store, World};
use crate::walk::{
    collects_of, deps_into_single_event, drop_checkouts, dropped_from, gathered_view, join_runs, node_gathers,
    parcel_view, passes, push_objs, CheckoutView, Gathered, GatheredView,
};
use vstd::prelude::*;

verus! {

/// The outcome of a waiting terminal as plain values.
pub open spec fn outs_view(r: OpResult<Vec<Checkout>>) -> OpResult<Seq<CheckoutView>> {
    match r {
        Ok(v) => Ok(v@.map_values(|c: Checkout| c@)),
        Err(e) => Err(e),
    }
}

/// How a waiting terminal lets its ops run: a graph with a host closure is
/// enqueued as a whole, any other may block on its last command.
pub open spec fn sync_mode(op: DeviceOp) -> ExecMode {
    if seam_of(op) {
        ExecMode::Pipelined
    } else {
        ExecMode::Blocking
    }
}

/// Running an op and waiting for it: what is not ready is refused before
/// anything is enqueued, and a graph with a host closure runs behind a barrier.
pub open spec fn syncs(op: DeviceOp, pre: Walk, post: Walk, res: OpResult<Seq<CheckoutView>>) -> bool {
    match ready_of(op, pre.w) {
        Err(e) => post == pre && res == Err::<Seq<CheckoutView>, Error>(e),
        Ok(_) => if seam_of(op) {
            exists|q: Reply|
                {
                    let s = #[trigger] pre.issued(Command::UserEvent, Seq::empty(), q);
                    match q {
                        Err(c) => post == s && res == Err::<Seq<CheckoutView>, Error>(Error::OpenCl(c)),
                        Ok(ev) => sync_held(op, Walk { start: Some(ev), ..s }, post, res),
                    }
                }
        } else {
            sync_held(op, Walk { start: None, ..pre }, post, res)
        },
    }
}

/// The outputs are gathered, then a marker is set behind them, the barrier opens,
/// and the marker is waited on.
pub open spec fn sync_held(op: DeviceOp, pre: Walk, post: Walk, res: OpResult<Seq<CheckoutView>>) -> bool {
    exists|m: Walk, h: OpResult<GatheredView>|
        #[trigger] passes(m, h) && kept(pre, m) && node_gathers(op, pre, m, sync_mode(op), h) && match h {
            Err(e) => sync_fails(op, m, Seq::empty(), e, post, res),
            Ok(g) => sync_marked(op, g, m, post, res),
        }
}

/// The cells once the outputs of a run were dropped, and those inside the op that
/// nobody took went back home.
pub open spec fn cleared(op: DeviceOp, outs: Seq<CheckoutView>, w: World) -> World {
    reclaim_of(op, dropped_from(outs, 0, w))
}

/// A waiting terminal that failed: the barrier opens, the host workers end, the
/// outputs go back home, and the error of a host closure comes before `e`.
pub open spec fn sync_fails(
    op: DeviceOp,
    m: Walk,
    outs: Seq<CheckoutView>,
    e: Error,
    post: Walk,
    res: OpResult<Seq<CheckoutView>>,
) -> bool {
    exists|m1: Walk, m2: Walk, host: Option<Error>|
        #[trigger] passes(m1, (m2, host)) && releases(m, m1) && joins(m1, m2) && post == (Walk {
            host_reads: m2.host_reads.push(host),
            w: cleared(op, outs, m2.w),
            ..m2
        }) && res == Err::<Seq<CheckoutView>, Error>(preferred(host, e))
}

/// A waiting terminal whose outputs are gathered.
pub open spec fn sync_marked(
    op: DeviceOp,
    g: GatheredView,
    m: Walk,
    post: Walk,
    res: OpResult<Seq<CheckoutView>>,
) -> bool {
    exists|s: Walk, j: OpResult<u64>|
        #[trigger] passes(s, j) && join_runs(g.deps, m, s, j) && match j {
            Err(e) => sync_fails(op, s, g.outs, e, post, res),
            Ok(marker) => sync_waited(op, g, marker, s, post, res),
        }
}

/// A waiting terminal whose marker is set.
pub open spec fn sync_waited(
    op: DeviceOp,
    g: GatheredView,
    marker: u64,
    s: Walk,
    post: Walk,
    res: OpResult<Seq<CheckoutView>>,
) -> bool {
    exists|m1: Walk, q: Reply, m2: Walk, host: Option<Error>|
        {
            &&& #[trigger] passes(m1, (q, m2, host))
            &&& releases(s, m1)
            &&& joins(m1.issued(Command::Wait { event: marker }, Seq::empty(), q), m2)
            &&& sync_ends(op, g, q, m2, host, post, res)
        }
}

/// What a waiting terminal hands out. Values inside the op that nobody took go
/// back home.
pub open spec fn sync_ends(
    op: DeviceOp,
    g: GatheredView,
    q: Reply,
    m2: Walk,
    host: Option<Error>,
    post: Walk,
    res: OpResult<Seq<CheckoutView>>,
) -> bool {
    let end = Walk { host_reads: m2.host_reads.push(host), ..m2 };
    match (host, q) {
        (None, Ok(_)) => post == end.at(reclaim_of(op, end.w)) && res == Ok::<Seq<CheckoutView>, Error>(g.outs),
        (Some(h), _) => post == end.at(cleared(op, g.outs, end.w)) && res == Err::<
            Seq<CheckoutView>,
            Error,
        >(h),
        (None, Err(c)) => post == end.at(cleared(op, g.outs, end.w)) && res == Err::<
            Seq<CheckoutView>,
            Error,
        >(Error::OpenCl(c)),
    }
}

fn fail_sync<D: Driver>(op: &DeviceOp, ec: &mut ExecutionContext<D>, outs: &Vec<Checkout>, e: Error) -> (r: Error)
    ensures
        sync_fails(
            *op,
            old(ec)@,
            outs@.map_values(|c: Checkout| c@),
            e,
            final(ec)@,
            Err::<Seq<CheckoutView>, Error>(r),
        ),
{
    let ghost m = ec@;
    release_start(ec);
    let ghost m1 = ec@;
    join_chain_workers(ec);
    let ghost m2 = ec@;
    let host: Option<Error> = ec.take_host_error();
    assert(passes(m1, (m2, host)));
    drop_checkouts(ec, outs);
    op.reclaim_undelivered(ec.store_mut());
    assert(ec@ =~= (Walk {
        host_reads: m2.host_reads.push(host),
        w: cleared(*op, outs@.map_values(|c: Checkout| c@), m2.w),
        ..m2
    }));
    match host {
        Some(h) => h,
        None => e,
    }
}

/// Run an op and wait for it; its outputs are checked out.
pub fn sync<D: Driver>(op: &DeviceOp, ec: &mut ExecutionContext<D>) -> (r: OpResult<Vec<Checkout>>)
    requires
        ready_of(*op, old(ec)@.w) is Ok ==> devices_of(*op) <= old(ec)@.devices.len(),
    ensures
        syncs(*op, old(ec)@, final(ec)@, outs_view(r)),
{
    let ghost pre = ec@;
    if let Err(e) = op.check_ready(ec.store()) {
        return Err(e);
    }
    if op.contains_host_seam() {
        let q: Reply = ec.issue(Command::UserEvent, &no_deps());
        let ghost s = ec@;
        assert(s == pre.issued(Command::UserEvent, Seq::empty(), q));
        match q {
            Err(c) => {
                return Err(Error::OpenCl(c));
            },
            Ok(ev) => {
                ec.set_start(Some(ev));
            },
        }
        let r = sync_behind_barrier(op, ec);
        assert(sync_held(*op, Walk { start: Some(q->Ok_0), ..s }, ec@, outs_view(r)));
        r
    } else {
        ec.set_start(None);
        sync_behind_barrier(op, ec)
    }
}

fn sync_behind_barrier<D: Driver>(op: &DeviceOp, ec: &mut ExecutionContext<D>) -> (r: OpResult<Vec<Checkout>>)
    requires
        devices_of(*op) <= old(ec)@.devices.len(),
    ensures
        sync_held(*op, old(ec)@, final(ec)@, outs_view(r)),
{
    let mode = if op.contains_host_seam() {
        ExecMode::Pipelined
    } else {
        ExecMode::Blocking
    };
    let gathered: OpResult<Gathered> = op.gather_checkouts(ec, mode);
    let ghost m = ec@;
    assert(passes(m, gathered_view(gathered)));
    let g: Gathered = match gathered {
        Err(e) => {
            let none: Vec<Checkout> = Vec::new();
            assert(none@.map_values(|c: Checkout| c@) =~= Seq::<CheckoutView>::empty());
            return Err(fail_sync(op, ec, &none, e));
        },
        Ok(g) => g,
    };
    let ghost gv = g@;
    let j: OpResult<u64> = deps_into_single_event(ec, &g.deps);
    let ghost s = ec@;
    assert(passes(s, j));
    match j {
        Err(e) => {
            let err = fail_sync(op, ec, &g.outs, e);
            assert(sync_marked(*op, gv, m, ec@, Err::<Seq<CheckoutView>, Error>(err)));
            Err(err)
        },
        Ok(marker) => {
            release_start(ec);
            let ghost m1 = ec@;
            let q: Reply = ec.issue(Command::Wait { event: marker }, &no_deps());
            assert(ec@ == m1.issued(Command::Wait { event: marker }, Seq::empty(), q));
            join_chain_workers(ec);
            let ghost m2 = ec@;
            let host: Option<Error> = ec.take_host_error();
            assert(passes(m1, (q, m2, host)));
            let failure: Option<Error> = match host {
                Some(h) => Some(h),
                None => match q {
                    Err(c) => Some(Error::OpenCl(c)),
                    Ok(_) => None,
                },
            };
            match failure {
                Some(e) => {
                    drop_checkouts(ec, &g.outs);
                    op.reclaim_undelivered(ec.store_mut());
                    assert(sync_ends(*op, gv, q, m2, host, ec@, Err::<Seq<CheckoutView>, Error>(e)));
                    assert(sync_waited(*op, gv, marker, s, ec@, Err::<Seq<CheckoutView>, Error>(e)));
                    assert(sync_marked(*op, gv, m, ec@, Err::<Seq<CheckoutView>, Error>(e)));
                    Err(e)
                },
                None => {
                    op.reclaim_undelivered(ec.store_mut());
                    assert(sync_ends(*op, gv, q, m2, host, ec@, Ok::<Seq<CheckoutView>, Error>(gv.outs)));
                    assert(sync_waited(*op, gv, marker, s, ec@, Ok::<Seq<CheckoutView>, Error>(gv.outs)));
                    assert(sync_marked(*op, gv, m, ec@, Ok::<Seq<CheckoutView>, Error>(gv.outs)));
                    Ok(g.outs)
                },
            }
        },
    }
}

/// The cells once the values of checkouts from index `i` on were taken for good.
pub open spec fn severed_from(outs: Seq<CheckoutView>, i: nat, w: World) -> World
    decreases outs.len() - i,
{
    if i >= outs.len() {
        w
    } else {
        severed_from(outs, i + 1, w.severed(outs[i as int].home))
    }
}

/// The values of checkouts from index `i` on.
pub open spec fn values_from(outs: Seq<CheckoutView>, i: nat) -> Seq<Obj>
    decreases outs.len() - i,
{
    if i >= outs.len() {
        Seq::empty()
    } else {
        outs[i as int].value + values_from(outs, i + 1)
    }
}

/// Whether a value is memory that nothing else refers to.
pub open spec fn owns_memory(o: Obj) -> bool {
    !o.shared && (o.class == Class::Image || o.class == Class::Device || o.class == Class::DeviceUninit || is_svm(
        o.class,
    ))
}

/// Letting go of the memory among some values, from index `i` on: shared memory behind
/// the launches that use it.
pub open spec fn frees_from(value: Seq<Obj>, i: nat, pre: Walk, post: Walk) -> bool
    decreases value.len() - i,
{
    if i >= value.len() {
        post == pre
    } else if owns_memory(value[i as int]) {
        let m = value[i as int].mem_spec();
        exists|x: Reply|
            {
                let s = #[trigger] pre.issued(Command::Release { mem: m }, pre.w.busy_until(m), x);
                frees_from(value, i + 1, s.at(s.w.settled(m)), post)
            }
    } else {
        frees_from(value, i + 1, pre, post)
    }
}

fn free_from<D: Driver>(ec: &mut ExecutionContext<D>, value: &Vec<Obj>, i: usize)
    requires
        i <= value.len(),
    ensures
        frees_from(value@, i as nat, old(ec)@, final(ec)@),
        kept(old(ec)@, final(ec)@),
    decreases value.len() - i,
{
    if i >= value.len() {
        return ;
    }
    let o: Obj = value[i];
    if !o.shared && (matches!(o.class, Class::Image | Class::Device | Class::DeviceUninit) || shares_memory(o.class)) {
        let ghost pre = ec@;
        let users: Vec<u64> = ec.store().busy(o.mem());
        let x: Reply = ec.issue(Command::Release { mem: o.mem() }, &users);
        let ghost m = value@[i as int].mem_spec();
        let ghost s = ec@;
        assert(s == pre.issued(Command::Release { mem: m }, pre.w.busy_until(m), x));
        ec.settle(o.mem());
        assert(kept(pre, s) && kept(s, ec@));
    }
    free_from(ec, value, i + 1)
}

/// Drop an output: it goes back home, and memory without a home is let go of.
pub fn discard<D: Driver>(c: Checkout, ec: &mut ExecutionContext<D>)
    ensures
        match c.home {
            Some(_) => final(ec)@ == old(ec)@.at(old(ec)@.w.rehomed(c.home, c.value@)),
            None => frees_from(c.value@, 0, old(ec)@, final(ec)@),
        },
        kept(old(ec)@, final(ec)@),
{
    if c.home.is_some() {
        ec.rehome(c.home, &c.value);
    } else {
        free_from(ec, &c.value, 0);
    }
}

/// Running an op, waiting for it, and taking its outputs for good.
pub open spec fn waits(op: DeviceOp, pre: Walk, post: Walk, res: OpResult<Vec<Obj>>) -> bool {
    exists|m: Walk, r: OpResult<Seq<CheckoutView>>|
        #[trigger] passes(m, r) && syncs(op, pre, m, r) && match r {
            Err(e) => post == m && res == Err::<Vec<Obj>, Error>(e),
            Ok(outs) => post == m.at(severed_from(outs, 0, m.w)) && (res matches Ok(v) && v@ == values_from(
                outs,
                0,
            )),
        }
}

/// Run an op, wait for it, and take its outputs for good.
pub fn wait_for<D: Driver>(op: &DeviceOp, ec: &mut ExecutionContext<D>) -> (r: OpResult<Vec<Obj>>)
    requires
        ready_of(*op, old(ec)@.w) is Ok ==> devices_of(*op) <= old(ec)@.devices.len(),
    ensures
        waits(*op, old(ec)@, final(ec)@, r),
{
    let done: OpResult<Vec<Checkout>> = sync(op, ec);
    let ghost m = ec@;
    assert(passes(m, outs_view(done)));
    match done {
        Err(e) => Err(e),
        Ok(outs) => {
            let ghost views = outs@.map_values(|c: Checkout| c@);
            let mut out: Vec<Obj> = Vec::new();
            let mut i: usize = 0;
            while i < outs.len()
                invariant
                    i <= outs.len(),
                    views == outs@.map_values(|c: Checkout| c@),
                    ec@ == m.at(ec@.w),
                    severed_from(views, 0, m.w) == severed_from(views, i as nat, ec@.w),
                    values_from(views, 0) =~= out@ + values_from(views, i as nat),
                decreases outs.len() - i,
            {
                ec.store_mut().sever(outs[i].home);
                push_objs(&mut out, &outs[i].value);
                i = i + 1;
            }
            assert(out@ =~= values_from(views, 0));
            Ok(out)
        },
    }
}

/// The outcome of a submitting terminal as plain values.
pub open spec fn submit_view(r: OpResult<(Vec<Obj>, u64)>) -> OpResult<(Seq<Obj>, u64)> {
    match r {
        Ok(p) => Ok((p.0@, p.1)),
        Err(e) => Err(e),
    }
}

/// Running an op on the queue of the device and leaving it in flight: its value,
/// and the event of a marker behind it.
pub open spec fn submits(op: DeviceOp, pre: Walk, post: Walk, res: OpResult<(Seq<Obj>, u64)>) -> bool {
    exists|q: Reply|
        {
            let s = #[trigger] pre.issued(Command::Queue { device: pre.device }, Seq::empty(), q);
            match q {
                Err(c) => post == s && res == Err::<(Seq<Obj>, u64), Error>(Error::OpenCl(c)),
                Ok(queue) => submit_runs(op, Walk { queue, ..s }, post, res),
            }
        }
}

/// Running an op and leaving it in flight.
pub open spec fn submit_runs(op: DeviceOp, pre: Walk, post: Walk, res: OpResult<(Seq<Obj>, u64)>) -> bool {
    exists|m: Walk, h: OpResult<ParcelView>|
        #[trigger] passes(m, h) && kept(pre, m) && collects_of(op, pre, m, ExecMode::Pipelined, h) && match h {
            Err(e) => post == m && res == Err::<(Seq<Obj>, u64), Error>(e),
            Ok(p) => exists|j: OpResult<u64>|
                #[trigger] passes(m, j) && join_runs(p.deps, m, post, j) && res == (match j {
                    Err(e) => Err::<(Seq<Obj>, u64), Error>(e),
                    Ok(ev) => Ok((p.value, ev)),
                }),
        }
}

/// Run an op on the queue of the device and leave it in flight; the answer is
/// its value and the event of a marker behind it.
pub fn submit_value<D: Driver>(op: &DeviceOp, ec: &mut ExecutionContext<D>) -> (r: OpResult<(Vec<Obj>, u64)>)
    requires
        devices_of(*op) <= old(ec)@.devices.len(),
    ensures
        submits(*op, old(ec)@, final(ec)@, submit_view(r)),
{
    let ghost pre = ec@;
    let device: u64 = ec.device();
    let q: Reply = ec.issue(Command::Queue { device }, &no_deps());
    let ghost s = ec@;
    assert(s == pre.issued(Command::Queue { device: pre.device }, Seq::empty(), q));
    match q {
        Err(c) => Err(Error::OpenCl(c)),
        Ok(queue) => {
            ec.set_queue(queue, device);
            let ghost g = ec@;
            let h: OpResult<Parcel> = op.collect_home(ec, ExecMode::Pipelined);
            let ghost m = ec@;
            assert(passes(m, parcel_view(h)));
            let r: OpResult<(Vec<Obj>, u64)> = match h {
                Err(e) => Err(e),
                Ok(p) => {
                    let j: OpResult<u64> = deps_into_single_event(ec, &p.deps);
                    assert(passes(m, j));
                    match j {
                        Err(e) => Err(e),
                        Ok(ev) => Ok((p.value, ev)),
                    }
                },
            };
            assert(submit_runs(*op, g, ec@, submit_view(r)));
            assert(g == (Walk { queue, ..s }));
            r
        },
    }
}

/// The context of the image that an op owns, or a refusal for an op fed by a
/// pipe or a slot.
pub open spec fn image_ctx(w: World, input: Input) -> OpResult<u64> {
    match input {
        Input::Concrete(c) if w.held(c) is Some => Ok(w.held(c)->Some_0.ctx),
        _ => Err(
            Error::NotSupported(
                "concrete-head terminal (wait/submit) on a pipe-fed image op — use wait_on(&ctx) / sync(&ctx) for piped (graph) inputs",
            ),
        ),
    }
}

/// The context of the image that an op owns.
pub fn concrete_image_ctx(st: &Store, img: &Input) -> (r: OpResult<u64>)
    ensures
        r == image_ctx(st@, *img),
{
    match img.concrete_obj(st) {
        Some(o) => Ok(o.ctx),
        None => Err(
            Error::NotSupported(
                "concrete-head terminal (wait/submit) on a pipe-fed image op — use wait_on(&ctx) / sync(&ctx) for piped (graph) inputs",
            ),
        ),
    }
}

/// Whether what an op owns belongs to the context of the run.
pub open spec fn here(owned: OpResult<u64>, context: u64) -> OpResult<()> {
    match owned {
        Err(e) => Err(e),
        Ok(ctx) => if ctx == context {
            Ok(())
        } else {
            Err(Error::InvalidArgument("concrete-head terminal (wait/submit) on a context that is not the op's own"))
        },
    }
}

/// Whether what an op owns belongs to the context of the run.
pub fn check_here(owned: OpResult<u64>, context: u64) -> (r: OpResult<()>)
    ensures
        r == here(owned, context),
{
    match owned {
        Err(e) => Err(e),
        Ok(ctx) => if ctx == context {
            Ok(())
        } else {
            Err(Error::InvalidArgument("concrete-head terminal (wait/submit) on a context that is not the op's own"))
        },
    }
}

impl Fill {
    /// Run the op on its own buffer, wait for it, and take its output for good.
    pub fn wait<D: Driver>(self, ec: &mut ExecutionContext<D>) -> (r: OpResult<Vec<Obj>>)
        ensures
            match here(buf_ctx(old(ec)@.w, self.buf), old(ec)@.context) {
                Err(e) => r == Err::<Vec<Obj>, Error>(e) && final(ec)@ == old(ec)@,
                Ok(_) => waits(DeviceOp::Leaf(LeafOp::Fill(self)), old(ec)@, final(ec)@, r),
            },
    {
        if let Err(e) = check_here(concrete_buf_ctx(ec.store(), &self.buf), ec.context()) {
            return Err(e);
        }
        wait_for(&DeviceOp::Leaf(LeafOp::Fill(self)), ec)
    }

    /// Run the op on its own buffer and leave it in flight; the answer is the
    /// event behind it.
    pub fn submit<D: Driver>(self, ec: &mut ExecutionContext<D>) -> (r: OpResult<u64>)
        ensures
            match here(buf_ctx(old(ec)@.w, self.buf), old(ec)@.context) {
                Err(e) => r == Err::<u64, Error>(e) && final(ec)@ == old(ec)@,
                Ok(_) => exists|h: OpResult<(Seq<Obj>, u64)>|
                    (#[trigger] submits(
                        DeviceOp::Leaf(LeafOp::Fill(self)),
                        old(ec)@,
                        final(ec)@,
                        h,
                    )) && r == (match h {
                        Ok(p) => Ok::<u64, Error>(p.1),
                        Err(e) => Err(e),
                    }),
            },
    {
        if let Err(e) = check_here(concrete_buf_ctx(ec.store(), &self.buf), ec.context()) {
            return Err(e);
        }
        let op = DeviceOp::Leaf(LeafOp::Fill(self));
        let h: OpResult<(Vec<Obj>, u64)> = submit_value(&op, ec);
        assert(submits(op, old(ec)@, ec@, submit_view(h)));
        match h {
            Ok(p) => Ok(p.1),
            Err(e) => Err(e),
        }
    }
}

impl Download {
    /// Run the op on its own buffer, wait for it, and take its output for good.
    pub fn wait<D: Driver>(self, ec: &mut ExecutionContext<D>) -> (r: OpResult<Vec<Obj>>)
        ensures
            match here(buf_ctx(old(ec)@.w, self.buf), old(ec)@.context) {
                Err(e) => r == Err::<Vec<Obj>, Error>(e) && final(ec)@ == old(ec)@,
                Ok(_) => waits(DeviceOp::Leaf(LeafOp::Download(self)), old(ec)@, final(ec)@, r),
            },
    {
        if let Err(e) = check_here(concrete_buf_ctx(ec.store(), &self.buf), ec.context()) {
            return Err(e);
        }
        wait_for(&DeviceOp::Leaf(LeafOp::Download(self)), ec)
    }

    /// Run the op on its own buffer and leave it in flight; the answer is its output
    /// and the event behind it.
    pub fn submit<D: Driver>(self, ec: &mut ExecutionContext<D>) -> (r: OpResult<(Vec<Obj>, u64)>)
        ensures
            match here(buf_ctx(old(ec)@.w, self.buf), old(ec)@.context) {
                Err(e) => r == Err::<(Vec<Obj>, u64), Error>(e) && final(ec)@ == old(ec)@,
                Ok(_) => submits(
                    DeviceOp::Leaf(LeafOp::Download(self)),
                    old(ec)@,
                    final(ec)@,
                    submit_view(r),
                ),
            },
    {
        if let Err(e) = check_here(concrete_buf_ctx(ec.store(), &self.buf), ec.context()) {
            return Err(e);
        }
        submit_value(&DeviceOp::Leaf(LeafOp::Download(self)), ec)
    }
}

impl ReadInto {
    /// Run the op on its own buffer, wait for it, and take its output for good.
    pub fn wait<D: Driver>(self, ec: &mut ExecutionContext<D>) -> (r: OpResult<Vec<Obj>>)
        ensures
            match here(buf_ctx(old(ec)@.w, self.buf), old(ec)@.context) {
                Err(e) => r == Err::<Vec<Obj>, Error>(e) && final(ec)@ == old(ec)@,
                Ok(_) => waits(DeviceOp::Leaf(LeafOp::ReadInto(self)), old(ec)@, final(ec)@, r),
            },
    {
        if let Err(e) = check_here(concrete_buf_ctx(ec.store(), &self.buf), ec.context()) {
            return Err(e);
        }
        wait_for(&DeviceOp::Leaf(LeafOp::ReadInto(self)), ec)
    }

    /// Run the op on its own buffer and leave it in flight; the answer is the
    /// event behind it.
    pub fn submit<D: Driver>(self, ec: &mut ExecutionContext<D>) -> (r: OpResult<u64>)
        ensures
            match here(buf_ctx(old(ec)@.w, self.buf), old(ec)@.context) {
                Err(e) => r == Err::<u64, Error>(e) && final(ec)@ == old(ec)@,
                Ok(_) => exists|h: OpResult<(Seq<Obj>, u64)>|
                    (#[trigger] submits(
                        DeviceOp::Leaf(LeafOp::ReadInto(self)),
                        old(ec)@,
                        final(ec)@,
                        h,
                    )) && r == (match h {
                        Ok(p) => Ok::<u64, Error>(p.1),
                        Err(e) => Err(e),
                    }),
            },
    {
        if let Err(e) = check_here(concrete_buf_ctx(ec.store(), &self.buf), ec.context()) {
            return Err(e);
        }
        let op = DeviceOp::Leaf(LeafOp::ReadInto(self));
        let h: OpResult<(Vec<Obj>, u64)> = submit_value(&op, ec);
        assert(submits(op, old(ec)@, ec@, submit_view(h)));
        match h {
            Ok(p) => Ok(p.1),
            Err(e) => Err(e),
        }
    }
}

impl WriteDevice {
    /// Run the op on its own buffer, wait for it, and take its output for good.
    pub fn wait<D: Driver>(self, ec: &mut ExecutionContext<D>) -> (r: OpResult<Vec<Obj>>)
        ensures
            match here(buf_ctx(old(ec)@.w, self.buf), old(ec)@.context) {
                Err(e) => r == Err::<Vec<Obj>, Error>(e) && final(ec)@ == old(ec)@,
                Ok(_) => waits(DeviceOp::Leaf(LeafOp::WriteDevice(self)), old(ec)@, final(ec)@, r),
            },
    {
        if let Err(e) = check_here(concrete_buf_ctx(ec.store(), &self.buf), ec.context()) {
            return Err(e);
        }
        wait_for(&DeviceOp::Leaf(LeafOp::WriteDevice(self)), ec)
    }

    /// Run the op on its own buffer and leave it in flight; the answer is its output
    /// and the event behind it.
    pub fn submit<D: Driver>(self, ec: &mut ExecutionContext<D>) -> (r: OpResult<(Vec<Obj>, u64)>)
        ensures
            match here(buf_ctx(old(ec)@.w, self.buf), old(ec)@.context) {
                Err(e) => r == Err::<(Vec<Obj>, u64), Error>(e) && final(ec)@ == old(ec)@,
                Ok(_) => submits(
                    DeviceOp::Leaf(LeafOp::WriteDevice(self)),
                    old(ec)@,
                    final(ec)@,
                    submit_view(r),
                ),
            },
    {
        if let Err(e) = check_here(concrete_buf_ctx(ec.store(), &self.buf), ec.context()) {
            return Err(e);
        }
        submit_value(&DeviceOp::Leaf(LeafOp::WriteDevice(self)), ec)
    }
}

impl FillMapped {
    /// Run the op on its own buffer, wait for it, and take its output for good.
    pub fn wait<D: Driver>(self, ec: &mut ExecutionContext<D>) -> (r: OpResult<Vec<Obj>>)
        ensures
            match here(svm_ctx(old(ec)@.w, self.buf), old(ec)@.context) {
                Err(e) => r == Err::<Vec<Obj>, Error>(e) && final(ec)@ == old(ec)@,
                Ok(_) => waits(DeviceOp::Leaf(LeafOp::FillMapped(self)), old(ec)@, final(ec)@, r),
            },
    {
        if let Err(e) = check_here(concrete_svm_ctx(ec.store(), &self.buf), ec.context()) {
            return Err(e);
        }
        wait_for(&DeviceOp::Leaf(LeafOp::FillMapped(self)), ec)
    }

    /// Run the op on its own buffer and leave it in flight; the answer is the
    /// event behind it.
    pub fn submit<D: Driver>(self, ec: &mut ExecutionContext<D>) -> (r: OpResult<u64>)
        ensures
            match here(svm_ctx(old(ec)@.w, self.buf), old(ec)@.context) {
                Err(e) => r == Err::<u64, Error>(e) && final(ec)@ == old(ec)@,
                Ok(_) => exists|h: OpResult<(Seq<Obj>, u64)>|
                    (#[trigger] submits(
                        DeviceOp::Leaf(LeafOp::FillMapped(self)),
                        old(ec)@,
                        final(ec)@,
                        h,
                    )) && r == (match h {
                        Ok(p) => Ok::<u64, Error>(p.1),
                        Err(e) => Err(e),
                    }),
            },
    {
        if let Err(e) = check_here(concrete_svm_ctx(ec.store(), &self.buf), ec.context()) {
            return Err(e);
        }
        let op = DeviceOp::Leaf(LeafOp::FillMapped(self));
        let h: OpResult<(Vec<Obj>, u64)> = submit_value(&op, ec);
        assert(submits(op, old(ec)@, ec@, submit_view(h)));
        match h {
            Ok(p) => Ok(p.1),
            Err(e) => Err(e),
        }
    }
}

impl WriteMapped {
    /// Run the op on its own buffer, wait for it, and take its output for good.
    pub fn wait<D: Driver>(self, ec: &mut ExecutionContext<D>) -> (r: OpResult<Vec<Obj>>)
        ensures
            match here(svm_ctx(old(ec)@.w, self.buf), old(ec)@.context) {
                Err(e) => r == Err::<Vec<Obj>, Error>(e) && final(ec)@ == old(ec)@,
                Ok(_) => waits(DeviceOp::Leaf(LeafOp::WriteMapped(self)), old(ec)@, final(ec)@, r),
            },
    {
        if let Err(e) = check_here(concrete_svm_ctx(ec.store(), &self.buf), ec.context()) {
            return Err(e);
        }
        wait_for(&DeviceOp::Leaf(LeafOp::WriteMapped(self)), ec)
    }

    /// Run the op on its own buffer and leave it in flight; the answer is its output
    /// and the event behind it.
    pub fn submit<D: Driver>(self, ec: &mut ExecutionContext<D>) -> (r: OpResult<(Vec<Obj>, u64)>)
        ensures
            match here(svm_ctx(old(ec)@.w, self.buf), old(ec)@.context) {
                Err(e) => r == Err::<(Vec<Obj>, u64), Error>(e) && final(ec)@ == old(ec)@,
                Ok(_) => submits(
                    DeviceOp::Leaf(LeafOp::WriteMapped(self)),
                    old(ec)@,
                    final(ec)@,
                    submit_view(r),
                ),
            },
    {
        if let Err(e) = check_here(concrete_svm_ctx(ec.store(), &self.buf), ec.context()) {
            return Err(e);
        }
        submit_value(&DeviceOp::Leaf(LeafOp::WriteMapped(self)), ec)
    }
}

impl ImageWrite {
    /// Run the op on its own image, wait for it, and take its output for good.
    pub fn wait<D: Driver>(self, ec: &mut ExecutionContext<D>) -> (r: OpResult<Vec<Obj>>)
        ensures
            match here(image_ctx(old(ec)@.w, self.img), old(ec)@.context) {
                Err(e) => r == Err::<Vec<Obj>, Error>(e) && final(ec)@ == old(ec)@,
                Ok(_) => waits(DeviceOp::Leaf(LeafOp::ImageWrite(self)), old(ec)@, final(ec)@, r),
            },
    {
        if let Err(e) = check_here(concrete_image_ctx(ec.store(), &self.img), ec.context()) {
            return Err(e);
        }
        wait_for(&DeviceOp::Leaf(LeafOp::ImageWrite(self)), ec)
    }

    /// Run the op on its own image and leave it in flight; the answer is its output
    /// and the event behind it.
    pub fn submit<D: Driver>(self, ec: &mut ExecutionContext<D>) -> (r: OpResult<(Vec<Obj>, u64)>)
        ensures
            match here(image_ctx(old(ec)@.w, self.img), old(ec)@.context) {
                Err(e) => r == Err::<(Vec<Obj>, u64), Error>(e) && final(ec)@ == old(ec)@,
                Ok(_) => submits(
                    DeviceOp::Leaf(LeafOp::ImageWrite(self)),
                    old(ec)@,
                    final(ec)@,
                    submit_view(r),
                ),
            },
    {
        if let Err(e) = check_here(concrete_image_ctx(ec.store(), &self.img), ec.context()) {
            return Err(e);
        }
        submit_value(&DeviceOp::Leaf(LeafOp::ImageWrite(self)), ec)
    }
}

impl ImageRead {
    /// Run the op on its own image, wait for it, and take its output for good.
    pub fn wait<D: Driver>(self, ec: &mut ExecutionContext<D>) -> (r: OpResult<Vec<Obj>>)
        ensures
            match here(image_ctx(old(ec)@.w, self.img), old(ec)@.context) {
                Err(e) => r == Err::<Vec<Obj>, Error>(e) && final(ec)@ == old(ec)@,
                Ok(_) => waits(DeviceOp::Leaf(LeafOp::ImageRead(self)), old(ec)@, final(ec)@, r),
            },
    {
        if let Err(e) = check_here(concrete_image_ctx(ec.store(), &self.img), ec.context()) {
            return Err(e);
        }
        wait_for(&DeviceOp::Leaf(LeafOp::ImageRead(self)), ec)
    }

    /// Run the op on its own image and leave it in flight; the answer is its output
    /// and the event behind it.
    pub fn submit<D: Driver>(self, ec: &mut ExecutionContext<D>) -> (r: OpResult<(Vec<Obj>, u64)>)
        ensures
            match here(image_ctx(old(ec)@.w, self.img), old(ec)@.context) {
                Err(e) => r == Err::<(Vec<Obj>, u64), Error>(e) && final(ec)@ == old(ec)@,
                Ok(_) => submits(
                    DeviceOp::Leaf(LeafOp::ImageRead(self)),
                    old(ec)@,
                    final(ec)@,
                    submit_view(r),
                ),
            },
    {
        if let Err(e) = check_here(concrete_image_ctx(ec.store(), &self.img), ec.context()) {
            return Err(e);
        }
        submit_value(&DeviceOp::Leaf(LeafOp::ImageRead(self)), ec)
    }
}

impl ImageFill {
    /// Run the op on its own image, wait for it, and take its output for good.
    pub fn wait<D: Driver>(self, ec: &mut ExecutionContext<D>) -> (r: OpResult<Vec<Obj>>)
        ensures
            match here(image_ctx(old(ec)@.w, self.img), old(ec)@.context) {
                Err(e) => r == Err::<Vec<Obj>, Error>(e) && final(ec)@ == old(ec)@,
                Ok(_) => waits(DeviceOp::Leaf(LeafOp::ImageFill(self)), old(ec)@, final(ec)@, r),
            },
    {
        if let Err(e) = check_here(concrete_image_ctx(ec.store(), &self.img), ec.context()) {
            return Err(e);
        }
        wait_for(&DeviceOp::Leaf(LeafOp::ImageFill(self)), ec)
    }

    /// Run the op on its own image and leave it in flight; the answer is its output
    /// and the event behind it.
    pub fn submit<D: Driver>(self, ec: &mut ExecutionContext<D>) -> (r: OpResult<(Vec<Obj>, u64)>)
        ensures
            match here(image_ctx(old(ec)@.w, self.img), old(ec)@.context) {
                Err(e) => r == Err::<(Vec<Obj>, u64), Error>(e) && final(ec)@ == old(ec)@,
                Ok(_) => submits(
                    DeviceOp::Leaf(LeafOp::ImageFill(self)),
                    old(ec)@,
                    final(ec)@,
                    submit_view(r),
                ),
            },
    {
        if let Err(e) = check_here(concrete_image_ctx(ec.store(), &self.img), ec.context()) {
            return Err(e);
        }
        submit_value(&DeviceOp::Leaf(LeafOp::ImageFill(self)), ec)
    }
}

impl ImageCopy {
    /// Run the op on its own image, wait for it, and take its output for good.
    pub fn wait<D: Driver>(self, ec: &mut ExecutionContext<D>) -> (r: OpResult<Vec<Obj>>)
        ensures
            match here(image_ctx(old(ec)@.w, self.src), old(ec)@.context) {
                Err(e) => r == Err::<Vec<Obj>, Error>(e) && final(ec)@ == old(ec)@,
                Ok(_) => waits(DeviceOp::Leaf(LeafOp::ImageCopy(self)), old(ec)@, final(ec)@, r),
            },
    {
        if let Err(e) = check_here(concrete_image_ctx(ec.store(), &self.src), ec.context()) {
            return Err(e);
        }
        wait_for(&DeviceOp::Leaf(LeafOp::ImageCopy(self)), ec)
    }

    /// Run the op on its own image and leave it in flight; the answer is its output
    /// and the event behind it.
    pub fn submit<D: Driver>(self, ec: &mut ExecutionContext<D>) -> (r: OpResult<(Vec<Obj>, u64)>)
        ensures
            match here(image_ctx(old(ec)@.w, self.src), old(ec)@.context) {
                Err(e) => r == Err::<(Vec<Obj>, u64), Error>(e) && final(ec)@ == old(ec)@,
                Ok(_) => submits(
                    DeviceOp::Leaf(LeafOp::ImageCopy(self)),
                    old(ec)@,
                    final(ec)@,
                    submit_view(r),
                ),
            },
    {
        if let Err(e) = check_here(concrete_image_ctx(ec.store(), &self.src), ec.context()) {
            return Err(e);
        }
        submit_value(&DeviceOp::Leaf(LeafOp::ImageCopy(self)), ec)
    }
}

} // verus!
