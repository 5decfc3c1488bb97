//! The ops of a graph and the walks over its structure.

use crate::cb::{cb_cache_collect_id, cb_cache_invalidate, kept_handle, CbCache};
use crate::error::OpResult;
use crate::ids::IdSet;
use crate::input::{after_offer, offered, Input};
use crate::leaf_op::LeafOp;
use crate::leaves::{DeviceTarget, LeafNode};
use crate::slots::{Binding, SlotBinder};
use crate::obj::Obj;
use crate::store::{Pipe, Store, World};
use crate::text::{decimal, numbered};
use vstd::prelude::*;

verus! {

/// One op, then another that reads its output.
pub struct AndThen {
    pub source: DeviceOp,
    pub next: DeviceOp,
    pub cb_cache: CbCache,
}

/// An op whose output is shared, read-only.
pub struct Arced {
    pub source: DeviceOp,
    pub out: Pipe,
    pub cb_cache: CbCache,
}

/// An op whose shared output goes to several pipes.
pub struct ArcSplit {
    pub source: DeviceOp,
    pub outs: Vec<Pipe>,
    pub cb_cache: CbCache,
}

/// Several ops without an order between them, joined by a marker.
pub struct Bundle {
    pub ops: Vec<DeviceOp>,
    pub cb_cache: CbCache,
}

/// Several ops of one kind, whose outputs form one value.
pub struct FanOut {
    pub ops: Vec<DeviceOp>,
    pub out: Pipe,
    pub cb_cache: CbCache,
}

/// An op behind a single output.
pub struct DeviceDynOp {
    pub inner: DeviceOp,
    pub out: Pipe,
}

/// An op routed to another device.
pub struct OnDevice {
    pub source: DeviceOp,
    pub target: DeviceTarget,
    pub out: Pipe,
}

/// An op, then a host closure over its output.
pub struct AndThenHost {
    pub source: DeviceOp,
    pub f: u64,
    pub handle: Vec<Pipe>,
}

/// An op, then a host closure over its output and the context.
pub struct AndThenHostWithContext {
    pub source: DeviceOp,
    pub f: u64,
    pub handle: Vec<Pipe>,
}

/// An op whose timing is reported to a callback.
pub struct Profiled {
    pub source: DeviceOp,
    pub cb: u64,
    pub out: Pipe,
}

/// An op of a graph.
pub enum DeviceOp {
    Leaf(LeafOp),
    AndThen(Box<AndThen>),
    Arced(Box<Arced>),
    ArcSplit(Box<ArcSplit>),
    Bundle(Box<Bundle>),
    FanOut(Box<FanOut>),
    Dyn(Box<DeviceDynOp>),
    OnDevice(Box<OnDevice>),
    Host(Box<AndThenHost>),
    HostWithContext(Box<AndThenHostWithContext>),
    Profiled(Box<Profiled>),
}

/// The pipes that hold the outputs of an op.
pub open spec fn outs_of(op: DeviceOp) -> Seq<Pipe>
    decreases op,
{
    match op {
        DeviceOp::Leaf(l) => l.outs(),
        DeviceOp::AndThen(n) => outs_of(n.next),
        DeviceOp::Arced(n) => seq![n.out],
        DeviceOp::ArcSplit(n) => n.outs@,
        DeviceOp::Bundle(n) => outs_from(n.ops, 0),
        DeviceOp::FanOut(n) => seq![n.out],
        DeviceOp::Dyn(n) => seq![n.out],
        DeviceOp::OnDevice(n) => seq![n.out],
        DeviceOp::Host(n) => n.handle@,
        DeviceOp::HostWithContext(n) => n.handle@,
        DeviceOp::Profiled(n) => seq![n.out],
    }
}

/// The pipes that hold the outputs of the ops from index `i` on, in order.
pub open spec fn outs_from(ops: Vec<DeviceOp>, i: nat) -> Seq<Pipe>
    decreases ops, ops.len() - i,
{
    if i >= ops.len() {
        Seq::empty()
    } else {
        outs_of(ops[i as int]) + outs_from(ops, i + 1)
    }
}

/// What an op gives to the ops that are built after it: the pipe of an output, or
/// a host value itself.
pub enum Handle {
    Pipe(Pipe),
    Value(Vec<Obj>),
}

/// A handle as plain values.
pub enum HandleView {
    Pipe(Pipe),
    Value(Seq<Obj>),
}

impl View for Handle {
    type V = HandleView;

    open spec fn view(&self) -> HandleView {
        match self {
            Handle::Pipe(p) => HandleView::Pipe(*p),
            Handle::Value(v) => HandleView::Value(v@),
        }
    }
}

/// Handles as plain values.
pub open spec fn handle_views(v: Seq<Handle>) -> Seq<HandleView> {
    v.map_values(|h: Handle| h@)
}

/// The handles of pipes.
pub open spec fn pipe_handles(pipes: Seq<Pipe>) -> Seq<HandleView> {
    pipes.map_values(|p: Pipe| HandleView::Pipe(p))
}

/// The handles of an op, one for each output: a host value is its own handle,
/// every other output is known by its pipe.
pub open spec fn handles_of(op: DeviceOp) -> Seq<HandleView>
    decreases op,
{
    match op {
        DeviceOp::Leaf(LeafOp::Value(x)) => seq![HandleView::Value(x.v@)],
        DeviceOp::AndThen(n) => handles_of(n.next),
        DeviceOp::Bundle(n) => handles_from(n.ops, 0),
        _ => pipe_handles(outs_of(op)),
    }
}

/// The handles of the ops from index `i` on, in order.
pub open spec fn handles_from(ops: Vec<DeviceOp>, i: nat) -> Seq<HandleView>
    decreases ops, ops.len() - i,
{
    if i >= ops.len() {
        Seq::empty()
    } else {
        handles_of(ops[i as int]) + handles_from(ops, i + 1)
    }
}

fn pipes_as_handles(pipes: &Vec<Pipe>) -> (r: Vec<Handle>)
    ensures
        handle_views(r@) == pipe_handles(pipes@),
{
    let mut out: Vec<Handle> = Vec::new();
    let mut i: usize = 0;
    while i < pipes.len()
        invariant
            i <= pipes.len(),
            handle_views(out@) =~= pipe_handles(pipes@).take(i as int),
        decreases pipes.len() - i,
    {
        let ghost before = handle_views(out@);
        out.push(Handle::Pipe(pipes[i]));
        assert(handle_views(out@) =~= before.push(HandleView::Pipe(pipes@[i as int])));
        i = i + 1;
    }
    assert(pipe_handles(pipes@).take(i as int) =~= pipe_handles(pipes@));
    out
}

/// The one pipe that holds the output of an op, where there is just one.
pub open spec fn output_pipe_of(op: DeviceOp) -> Option<Pipe>
    decreases op,
{
    match op {
        DeviceOp::Leaf(l) => only_pipe(l.outs()),
        DeviceOp::AndThen(n) => output_pipe_of(n.next),
        DeviceOp::Arced(n) => Some(n.out),
        DeviceOp::ArcSplit(_) => None,
        DeviceOp::Bundle(_) => None,
        DeviceOp::FanOut(n) => Some(n.out),
        DeviceOp::Dyn(n) => Some(n.out),
        DeviceOp::OnDevice(n) => Some(n.out),
        DeviceOp::Host(n) => only_pipe(n.handle@),
        DeviceOp::HostWithContext(n) => only_pipe(n.handle@),
        DeviceOp::Profiled(n) => Some(n.out),
    }
}

/// The pipe of a list of one.
pub open spec fn only_pipe(v: Seq<Pipe>) -> Option<Pipe> {
    if v.len() == 1 {
        Some(v[0])
    } else {
        None
    }
}

/// The names of the ops inside an op, in the order in which they run.
pub open spec fn labels_of(op: DeviceOp) -> Seq<Seq<char>>
    decreases op,
{
    match op {
        DeviceOp::Leaf(l) => seq![l.label()],
        DeviceOp::AndThen(n) => labels_of(n.source) + labels_of(n.next),
        DeviceOp::Arced(n) => labels_of(n.source).push("arced"@),
        DeviceOp::ArcSplit(n) => labels_of(n.source).push(
            "arc_split["@ + decimal(n.outs@.len()) + "]"@,
        ),
        DeviceOp::Bundle(n) => (seq!["Bundle"@ + decimal(n.ops@.len()) + "{"@] + labels_from(n.ops, 0)).push(
            "}"@,
        ),
        DeviceOp::FanOut(n) => seq!["fan_out["@ + decimal(n.ops@.len()) + "]"@],
        DeviceOp::Dyn(n) => (seq!["dyn_op{"@] + labels_of(n.inner)).push("}"@),
        DeviceOp::OnDevice(n) => labels_of(n.source).push("on_device"@),
        DeviceOp::Host(n) => labels_of(n.source).push("and_then_host"@),
        DeviceOp::HostWithContext(n) => labels_of(n.source).push("and_then_host_with_context"@),
        DeviceOp::Profiled(n) => labels_of(n.source).push("profiled"@),
    }
}

/// The names inside the ops from index `i` on.
pub open spec fn labels_from(ops: Vec<DeviceOp>, i: nat) -> Seq<Seq<char>>
    decreases ops, ops.len() - i,
{
    if i >= ops.len() {
        Seq::empty()
    } else {
        labels_of(ops[i as int]) + labels_from(ops, i + 1)
    }
}

/// Whether a run can start an op: what the first input that is not ready
/// answers.
pub open spec fn ready_of(op: DeviceOp, w: World) -> OpResult<()>
    decreases op,
{
    match op {
        DeviceOp::Leaf(l) => l.ready(w),
        DeviceOp::AndThen(n) => match ready_of(n.source, w) {
            Err(e) => Err(e),
            Ok(_) => ready_of(n.next, w),
        },
        DeviceOp::Arced(n) => ready_of(n.source, w),
        DeviceOp::ArcSplit(n) => ready_of(n.source, w),
        DeviceOp::Bundle(n) => ready_from(n.ops, 0, w),
        DeviceOp::FanOut(n) => ready_from(n.ops, 0, w),
        DeviceOp::Dyn(n) => ready_of(n.inner, w),
        DeviceOp::OnDevice(n) => ready_of(n.source, w),
        DeviceOp::Host(n) => ready_of(n.source, w),
        DeviceOp::HostWithContext(n) => ready_of(n.source, w),
        DeviceOp::Profiled(n) => ready_of(n.source, w),
    }
}

/// Whether a run can start the ops from index `i` on.
pub open spec fn ready_from(ops: Vec<DeviceOp>, i: nat, w: World) -> OpResult<()>
    decreases ops, ops.len() - i,
{
    if i >= ops.len() {
        Ok(())
    } else {
        match ready_of(ops[i as int], w) {
            Err(e) => Err(e),
            Ok(_) => ready_from(ops, i + 1, w),
        }
    }
}

/// Offer a binding to a list of inputs from index `i` on, until a value that
/// can only be moved has been moved.
pub open spec fn bind_inputs(inputs: Seq<Input>, i: nat, w: World, b: Binding) -> (World, Binding)
    decreases inputs.len() - i,
{
    if i >= inputs.len() {
        (w, b)
    } else {
        let w1 = after_offer(w, inputs[i as int], b);
        let b1 = offered(w, inputs[i as int], b);
        if b1.done() {
            (w1, b1)
        } else {
            bind_inputs(inputs, i + 1, w1, b1)
        }
    }
}

/// Offer a binding to the slots of an op, in the order in which they run.
pub open spec fn bind_of(op: DeviceOp, w: World, b: Binding) -> (World, Binding)
    decreases op,
{
    match op {
        DeviceOp::Leaf(l) => bind_inputs(l.slots(), 0, w, b),
        DeviceOp::AndThen(n) => {
            let (w1, b1) = bind_of(n.source, w, b);
            if b1.done() {
                (w1, b1)
            } else {
                bind_of(n.next, w1, b1)
            }
        },
        DeviceOp::Bundle(n) => bind_from(n.ops, 0, w, b),
        DeviceOp::Host(n) => bind_of(n.source, w, b),
        DeviceOp::HostWithContext(n) => bind_of(n.source, w, b),
        _ => (w, b),
    }
}

/// Offer a binding to the slots of the ops from index `i` on.
pub open spec fn bind_from(ops: Vec<DeviceOp>, i: nat, w: World, b: Binding) -> (World, Binding)
    decreases ops, ops.len() - i,
{
    if i >= ops.len() {
        (w, b)
    } else {
        let (w1, b1) = bind_of(ops[i as int], w, b);
        if b1.done() {
            (w1, b1)
        } else {
            bind_from(ops, i + 1, w1, b1)
        }
    }
}

/// Send what lies on pipes from index `i` on back to where it came from.
pub open spec fn reclaim_pipes(pipes: Seq<Pipe>, i: nat, w: World) -> World
    decreases pipes.len() - i,
{
    if i >= pipes.len() {
        w
    } else {
        reclaim_pipes(pipes, i + 1, w.reclaimed(pipes[i as int].cell))
    }
}

/// Send the outputs of an op that no one took back to where they came from.
pub open spec fn reclaim_of(op: DeviceOp, w: World) -> World
    decreases op,
{
    match op {
        DeviceOp::Leaf(l) => reclaim_pipes(l.outs(), 0, w),
        DeviceOp::AndThen(n) => reclaim_of(n.next, reclaim_of(n.source, w)),
        DeviceOp::Arced(n) => w.reclaimed(n.out.cell),
        DeviceOp::ArcSplit(_) => w,
        DeviceOp::Bundle(n) => reclaim_from(n.ops, 0, w),
        DeviceOp::FanOut(n) => reclaim_from(n.ops, 0, w),
        DeviceOp::Dyn(n) => w.reclaimed(n.out.cell),
        DeviceOp::OnDevice(n) => w.reclaimed(n.out.cell),
        DeviceOp::Host(n) => reclaim_of(n.source, reclaim_pipes(n.handle@, 0, w)),
        DeviceOp::HostWithContext(n) => reclaim_of(n.source, reclaim_pipes(n.handle@, 0, w)),
        DeviceOp::Profiled(n) => w.reclaimed(n.out.cell),
    }
}

/// Send the outputs of the ops from index `i` on back to where they came from.
pub open spec fn reclaim_from(ops: Vec<DeviceOp>, i: nat, w: World) -> World
    decreases ops, ops.len() - i,
{
    if i >= ops.len() {
        w
    } else {
        reclaim_from(ops, i + 1, reclaim_of(ops[i as int], w))
    }
}

/// Replace the events that the parcels on pipes from index `i` on wait on.
pub open spec fn restamp_pipes(pipes: Seq<Pipe>, i: nat, w: World, evs: Seq<u64>) -> World
    decreases pipes.len() - i,
{
    if i >= pipes.len() {
        w
    } else {
        restamp_pipes(pipes, i + 1, w.restamped(pipes[i as int].cell, evs), evs)
    }
}

/// Replace the events that the outputs of an op wait on.
pub open spec fn restamp_of(op: DeviceOp, w: World, evs: Seq<u64>) -> World {
    restamp_pipes(outs_of(op), 0, w, evs)
}

/// The cells after what lies on pipes, from index `i` on, was made to wait on
/// more events.
pub open spec fn delay_pipes(pipes: Seq<Pipe>, i: nat, w: World, evs: Seq<u64>) -> World
    decreases pipes.len() - i,
{
    if i >= pipes.len() {
        w
    } else {
        delay_pipes(pipes, i + 1, w.delayed(pipes[i as int].cell, evs), evs)
    }
}

/// The cells after an op's outputs were made to wait on more events.
pub open spec fn delay_of(op: DeviceOp, w: World, evs: Seq<u64>) -> World {
    delay_pipes(outs_of(op), 0, w, evs)
}

/// Whether an op holds a host closure.
pub open spec fn seam_of(op: DeviceOp) -> bool
    decreases op,
{
    match op {
        DeviceOp::Leaf(_) => false,
        DeviceOp::AndThen(n) => seam_of(n.source) || seam_of(n.next),
        DeviceOp::Arced(n) => seam_of(n.source),
        DeviceOp::ArcSplit(n) => seam_of(n.source),
        DeviceOp::Bundle(n) => seam_from(n.ops, 0),
        DeviceOp::FanOut(n) => seam_from(n.ops, 0),
        DeviceOp::Dyn(n) => seam_of(n.inner),
        DeviceOp::OnDevice(n) => seam_of(n.source),
        DeviceOp::Host(_) => true,
        DeviceOp::HostWithContext(_) => true,
        DeviceOp::Profiled(n) => seam_of(n.source),
    }
}

/// Whether one of the ops from index `i` on holds a host closure.
pub open spec fn seam_from(ops: Vec<DeviceOp>, i: nat) -> bool
    decreases ops, ops.len() - i,
{
    i < ops.len() && (seam_of(ops[i as int]) || seam_from(ops, i + 1))
}

/// Whether an op can be part of a command buffer as a whole.
pub open spec fn addable_of(op: DeviceOp) -> bool
    decreases op,
{
    match op {
        DeviceOp::Leaf(l) => l.addable(),
        DeviceOp::AndThen(n) => addable_of(n.source) && addable_of(n.next),
        DeviceOp::Arced(n) => addable_of(n.source),
        DeviceOp::ArcSplit(n) => addable_of(n.source),
        DeviceOp::Bundle(n) => addable_from(n.ops, 0),
        DeviceOp::FanOut(n) => n.ops.len() > 0 && addable_from(n.ops, 0),
        _ => false,
    }
}

/// Whether all ops from index `i` on can be part of a command buffer.
pub open spec fn addable_from(ops: Vec<DeviceOp>, i: nat) -> bool
    decreases ops, ops.len() - i,
{
    i >= ops.len() || (addable_of(ops[i as int]) && addable_from(ops, i + 1))
}

/// How many commands an op records into a command buffer.
pub open spec fn weight_of(op: DeviceOp) -> nat
    decreases op,
{
    match op {
        DeviceOp::Leaf(l) => l.weight(),
        DeviceOp::AndThen(n) => weight_of(n.source) + weight_of(n.next),
        DeviceOp::Arced(n) => weight_of(n.source),
        DeviceOp::ArcSplit(n) => weight_of(n.source),
        DeviceOp::Bundle(n) => weight_from(n.ops, 0),
        DeviceOp::FanOut(n) => weight_from(n.ops, 0),
        _ => 0,
    }
}

/// How many commands the ops from index `i` on record.
pub open spec fn weight_from(ops: Vec<DeviceOp>, i: nat) -> nat
    decreases ops, ops.len() - i,
{
    if i >= ops.len() {
        0
    } else {
        weight_of(ops[i as int]) + weight_from(ops, i + 1)
    }
}

/// Whether the first op inside an op can be part of a command buffer.
pub open spec fn head_addable_of(op: DeviceOp) -> bool
    decreases op,
{
    match op {
        DeviceOp::AndThen(n) => head_addable_of(n.source),
        DeviceOp::Arced(n) => head_addable_of(n.source),
        DeviceOp::ArcSplit(n) => head_addable_of(n.source),
        _ => addable_of(op),
    }
}

/// Where an op keeps a command buffer.
pub open spec fn cache_of(op: DeviceOp) -> Option<CbCache> {
    match op {
        DeviceOp::Leaf(l) => l.cache(),
        DeviceOp::AndThen(n) => Some(n.cb_cache),
        DeviceOp::Arced(n) => Some(n.cb_cache),
        DeviceOp::ArcSplit(n) => Some(n.cb_cache),
        DeviceOp::Bundle(n) => Some(n.cb_cache),
        DeviceOp::FanOut(n) => Some(n.cb_cache),
        _ => None,
    }
}

/// Drop the command buffers inside an op that captured one of the slots in
/// `mutated`.
pub open spec fn invalidate_of(op: DeviceOp, w: World, mutated: Seq<u64>) -> World
    decreases op,
{
    match op {
        DeviceOp::Leaf(l) => match l.cache() {
            Some(c) => w.invalidated(c, mutated),
            None => w,
        },
        DeviceOp::AndThen(n) => invalidate_of(
            n.next,
            invalidate_of(n.source, w.invalidated(n.cb_cache, mutated), mutated),
            mutated,
        ),
        DeviceOp::Arced(n) => invalidate_of(n.source, w.invalidated(n.cb_cache, mutated), mutated),
        DeviceOp::ArcSplit(n) => invalidate_of(n.source, w.invalidated(n.cb_cache, mutated), mutated),
        DeviceOp::Bundle(n) => invalidate_from(n.ops, 0, w.invalidated(n.cb_cache, mutated), mutated),
        DeviceOp::FanOut(n) => invalidate_from(n.ops, 0, w.invalidated(n.cb_cache, mutated), mutated),
        DeviceOp::Host(n) => invalidate_of(n.source, w, mutated),
        DeviceOp::HostWithContext(n) => invalidate_of(n.source, w, mutated),
        _ => w,
    }
}

/// Drop the command buffers inside the ops from index `i` on.
pub open spec fn invalidate_from(ops: Vec<DeviceOp>, i: nat, w: World, mutated: Seq<u64>) -> World
    decreases ops, ops.len() - i,
{
    if i >= ops.len() {
        w
    } else {
        invalidate_from(ops, i + 1, invalidate_of(ops[i as int], w, mutated), mutated)
    }
}

/// The handles of the command buffers kept inside an op, outermost first.
pub open spec fn kept_ids_of(op: DeviceOp, w: World) -> Seq<u64>
    decreases op,
{
    match op {
        DeviceOp::Leaf(l) => match l.cache() {
            Some(c) => kept_handle(w, c),
            None => Seq::empty(),
        },
        DeviceOp::AndThen(n) => kept_handle(w, n.cb_cache) + kept_ids_of(n.source, w) + kept_ids_of(
            n.next,
            w,
        ),
        DeviceOp::Arced(n) => kept_handle(w, n.cb_cache) + kept_ids_of(n.source, w),
        DeviceOp::ArcSplit(n) => kept_handle(w, n.cb_cache) + kept_ids_of(n.source, w),
        DeviceOp::Bundle(n) => kept_handle(w, n.cb_cache) + kept_ids_from(n.ops, 0, w),
        DeviceOp::FanOut(n) => kept_handle(w, n.cb_cache) + kept_ids_from(n.ops, 0, w),
        DeviceOp::Host(n) => kept_ids_of(n.source, w),
        DeviceOp::HostWithContext(n) => kept_ids_of(n.source, w),
        _ => Seq::empty(),
    }
}

/// The handles of the command buffers kept inside the ops from index `i` on.
pub open spec fn kept_ids_from(ops: Vec<DeviceOp>, i: nat, w: World) -> Seq<u64>
    decreases ops, ops.len() - i,
{
    if i >= ops.len() {
        Seq::empty()
    } else {
        kept_ids_of(ops[i as int], w) + kept_ids_from(ops, i + 1, w)
    }
}

/// How many devices a context must have to run an op.
pub open spec fn devices_of(op: DeviceOp) -> nat
    decreases op,
{
    match op {
        DeviceOp::Leaf(l) => l.devices_needed(),
        DeviceOp::AndThen(n) => larger(devices_of(n.source), devices_of(n.next)),
        DeviceOp::Arced(n) => devices_of(n.source),
        DeviceOp::ArcSplit(n) => devices_of(n.source),
        DeviceOp::Bundle(n) => devices_from(n.ops, 0),
        DeviceOp::FanOut(n) => devices_from(n.ops, 0),
        DeviceOp::Dyn(n) => devices_of(n.inner),
        DeviceOp::OnDevice(n) => larger(devices_of(n.source), n.target.devices_needed()),
        DeviceOp::Host(n) => devices_of(n.source),
        DeviceOp::HostWithContext(n) => devices_of(n.source),
        DeviceOp::Profiled(n) => devices_of(n.source),
    }
}

/// How many devices a context must have to run the ops from index `i` on.
pub open spec fn devices_from(ops: Vec<DeviceOp>, i: nat) -> nat
    decreases ops, ops.len() - i,
{
    if i >= ops.len() {
        0
    } else {
        larger(devices_of(ops[i as int]), devices_from(ops, i + 1))
    }
}

/// The larger of two numbers.
pub open spec fn larger(a: nat, b: nat) -> nat {
    if a >= b {
        a
    } else {
        b
    }
}

/// A number, or the largest that fits.
pub open spec fn capped(n: nat) -> usize {
    if n <= usize::MAX {
        n as usize
    } else {
        usize::MAX
    }
}

fn add_capped(a: usize, b: usize) -> (r: usize)
    ensures
        forall|x: nat, y: nat| capped(x) == a && capped(y) == b ==> r == #[trigger] capped(x + y),
{
    if a <= usize::MAX - b {
        a + b
    } else {
        usize::MAX
    }
}

fn copy_pipes(v: &Vec<Pipe>) -> (r: Vec<Pipe>)
    ensures
        r@ == v@,
{
    let mut out: Vec<Pipe> = Vec::new();
    push_pipes(&mut out, v);
    assert(out@ =~= v@);
    out
}

fn push_pipes(out: &mut Vec<Pipe>, v: &Vec<Pipe>)
    ensures
        final(out)@ == old(out)@ + v@,
{
    let mut i: usize = 0;
    while i < v.len()
        invariant
            i <= v@.len(),
            out@ =~= old(out)@ + v@.take(i as int),
        decreases v.len() - i,
    {
        out.push(v[i]);
        i = i + 1;
    }
    assert(v@.take(i as int) =~= v@);
}

fn pipe_list(p: Pipe) -> (r: Vec<Pipe>)
    ensures
        r@ == seq![p],
{
    let mut v: Vec<Pipe> = Vec::new();
    v.push(p);
    assert(v@ =~= seq![p]);
    v
}

fn single_pipe(v: &Vec<Pipe>) -> (r: Option<Pipe>)
    ensures
        r == only_pipe(v@),
{
    if v.len() == 1 {
        Some(v[0])
    } else {
        None
    }
}

fn reclaim_list(st: &mut Store, pipes: &Vec<Pipe>)
    ensures
        final(st)@ == reclaim_pipes(pipes@, 0, old(st)@),
{
    let mut i: usize = 0;
    while i < pipes.len()
        invariant
            i <= pipes.len(),
            reclaim_pipes(pipes@, 0, old(st)@) == reclaim_pipes(pipes@, i as nat, st@),
        decreases pipes.len() - i,
    {
        st.reclaim(&pipes[i]);
        i = i + 1;
    }
}

/// The texts of a list of names.
pub open spec fn texts(v: Seq<String>) -> Seq<Seq<char>> {
    v.map_values(|s: String| s@)
}

fn push_label(out: &mut Vec<String>, s: String)
    ensures
        texts(final(out)@) == texts(old(out)@).push(s@),
{
    out.push(s);
    assert(texts(out@) =~= texts(old(out)@).push(s@));
}

/// One line of a graph's outline.
pub struct GraphNode {
    pub depth: usize,
    pub name: String,
    pub out_cells: Vec<u64>,
    pub in_cells: Vec<u64>,
    pub cb_addable: bool,
    pub seam: bool,
}

/// One line of a graph's outline, as plain values.
pub struct OutlineLine {
    pub depth: nat,
    pub name: Seq<char>,
    pub out_cells: Seq<u64>,
    pub in_cells: Seq<u64>,
    pub cb_addable: bool,
    pub seam: bool,
}

impl View for GraphNode {
    type V = OutlineLine;

    open spec fn view(&self) -> OutlineLine {
        OutlineLine {
            depth: self.depth as nat,
            name: self.name@,
            out_cells: self.out_cells@,
            in_cells: self.in_cells@,
            cb_addable: self.cb_addable,
            seam: self.seam,
        }
    }
}

/// The name of the op itself.
pub open spec fn node_label_of(op: DeviceOp) -> Seq<char> {
    match op {
        DeviceOp::Leaf(l) => l.label(),
        DeviceOp::AndThen(_) => "and_then(source→next)"@,
        DeviceOp::Arced(_) => "arced"@,
        DeviceOp::ArcSplit(n) => "arc_split["@ + decimal(n.outs@.len()) + "]"@,
        DeviceOp::Bundle(n) => "Bundle"@ + decimal(n.ops@.len()) + ""@,
        DeviceOp::FanOut(n) => "fan_out["@ + decimal(n.ops@.len()) + "]"@,
        DeviceOp::Dyn(_) => "dyn_op"@,
        DeviceOp::OnDevice(_) => "on_device"@,
        DeviceOp::Host(_) => "and_then_host"@,
        DeviceOp::HostWithContext(_) => "and_then_host_with_context"@,
        DeviceOp::Profiled(_) => "profiled"@,
    }
}

/// The line of an op in the outline.
pub open spec fn outline_line(op: DeviceOp, depth: nat) -> OutlineLine {
    OutlineLine {
        depth,
        name: node_label_of(op),
        out_cells: match output_pipe_of(op) {
            Some(p) => seq![p.cell],
            None => Seq::empty(),
        },
        in_cells: Seq::empty(),
        cb_addable: addable_of(op),
        seam: seam_of(op),
    }
}

/// The outline of an op: its own line, then those of a sequence's two parts one
/// level deeper.
pub open spec fn outline_of(op: DeviceOp, depth: nat) -> Seq<OutlineLine>
    decreases op,
{
    match op {
        DeviceOp::AndThen(n) => seq![outline_line(op, depth)] + outline_of(n.source, depth + 1)
            + outline_of(n.next, depth + 1),
        _ => seq![outline_line(op, depth)],
    }
}

/// How deep the outline of an op goes below its own line.
pub open spec fn outline_depth(op: DeviceOp) -> nat
    decreases op,
{
    match op {
        DeviceOp::AndThen(n) => 1 + larger(outline_depth(n.source), outline_depth(n.next)),
        _ => 0,
    }
}

/// The lines of an outline.
pub open spec fn lines(v: Seq<GraphNode>) -> Seq<OutlineLine> {
    v.map_values(|g: GraphNode| g@)
}

impl DeviceOp {
    /// The pipes that hold the outputs of the op.
    #[verifier::loop_isolation(false)]
    pub fn pipes(&self) -> (r: Vec<Pipe>)
        ensures
            r@ == outs_of(*self),
        decreases self,
    {
        match self {
            DeviceOp::Leaf(l) => l.pipes(),
            DeviceOp::AndThen(n) => n.next.pipes(),
            DeviceOp::Arced(n) => pipe_list(n.out),
            DeviceOp::ArcSplit(n) => copy_pipes(&n.outs),
            DeviceOp::Bundle(n) => {
                let mut out: Vec<Pipe> = Vec::new();
                let mut i: usize = 0;
                while i < n.ops.len()
                    invariant
                        i <= n.ops.len(),
                        outs_from(n.ops, 0) =~= out@ + outs_from(n.ops, i as nat),
                    decreases n.ops.len() - i,
                {
                    let h: Vec<Pipe> = n.ops[i].pipes();
                    push_pipes(&mut out, &h);
                    i = i + 1;
                }
                assert(out@ =~= outs_from(n.ops, 0));
                out
            },
            DeviceOp::FanOut(n) => pipe_list(n.out),
            DeviceOp::Dyn(n) => pipe_list(n.out),
            DeviceOp::OnDevice(n) => pipe_list(n.out),
            DeviceOp::Host(n) => copy_pipes(&n.handle),
            DeviceOp::HostWithContext(n) => copy_pipes(&n.handle),
            DeviceOp::Profiled(n) => pipe_list(n.out),
        }
    }

    /// What the op gives to the ops that are built after it, one handle for each
    /// output.
    #[verifier::loop_isolation(false)]
    pub fn handle(&self) -> (r: Vec<Handle>)
        ensures
            handle_views(r@) == handles_of(*self),
        decreases self,
    {
        match self {
            DeviceOp::Leaf(LeafOp::Value(x)) => {
                let mut out: Vec<Handle> = Vec::new();
                out.push(Handle::Value(x.handle()));
                assert(handle_views(out@) =~= handles_of(*self));
                out
            },
            DeviceOp::AndThen(n) => n.next.handle(),
            DeviceOp::Bundle(n) => {
                let mut out: Vec<Handle> = Vec::new();
                let mut i: usize = 0;
                assert(handle_views(out@) =~= Seq::empty());
                while i < n.ops.len()
                    invariant
                        i <= n.ops.len(),
                        handles_from(n.ops, 0) =~= handle_views(out@) + handles_from(n.ops, i as nat),
                    decreases n.ops.len() - i,
                {
                    let ghost before = handle_views(out@);
                    let mut more: Vec<Handle> = n.ops[i].handle();
                    let ghost added = handle_views(more@);
                    out.append(&mut more);
                    assert(handle_views(out@) =~= before + added);
                    i = i + 1;
                }
                out
            },
            _ => pipes_as_handles(&self.pipes()),
        }
    }

    /// The one pipe that holds the output of the op, where there is just one.
    pub fn output_pipe(&self) -> (r: Option<Pipe>)
        ensures
            r == output_pipe_of(*self),
        decreases self,
    {
        match self {
            DeviceOp::Leaf(l) => single_pipe(&l.pipes()),
            DeviceOp::AndThen(n) => n.next.output_pipe(),
            DeviceOp::Arced(n) => Some(n.out),
            DeviceOp::ArcSplit(_) => None,
            DeviceOp::Bundle(_) => None,
            DeviceOp::FanOut(n) => Some(n.out),
            DeviceOp::Dyn(n) => Some(n.out),
            DeviceOp::OnDevice(n) => Some(n.out),
            DeviceOp::Host(n) => single_pipe(&n.handle),
            DeviceOp::HostWithContext(n) => single_pipe(&n.handle),
            DeviceOp::Profiled(n) => Some(n.out),
        }
    }

    /// Append the names of the ops inside the op, in the order in which they
    /// run.
    #[verifier::loop_isolation(false)]
    pub fn describe(&self, out: &mut Vec<String>)
        ensures
            texts(final(out)@) == texts(old(out)@) + labels_of(*self),
        decreases self,
    {
        let ghost before = texts(out@);
        match self {
            DeviceOp::Leaf(l) => {
                push_label(out, l.describe());
            },
            DeviceOp::AndThen(n) => {
                n.source.describe(out);
                n.next.describe(out);
            },
            DeviceOp::Arced(n) => {
                n.source.describe(out);
                push_label(out, "arced".to_owned());
            },
            DeviceOp::ArcSplit(n) => {
                n.source.describe(out);
                push_label(out, numbered("arc_split[", n.outs.len(), "]"));
            },
            DeviceOp::Bundle(n) => {
                push_label(out, numbered("Bundle", n.ops.len(), "{"));
                let ghost opened = texts(out@);
                let mut i: usize = 0;
                assert(opened + labels_from(n.ops, 0) =~= texts(out@) + labels_from(n.ops, 0));
                while i < n.ops.len()
                    invariant
                        i <= n.ops.len(),
                        opened + labels_from(n.ops, 0) =~= texts(out@) + labels_from(n.ops, i as nat),
                    decreases n.ops.len() - i,
                {
                    n.ops[i].describe(out);
                    i = i + 1;
                }
                assert(texts(out@) =~= opened + labels_from(n.ops, 0));
                push_label(out, "}".to_owned());
            },
            DeviceOp::FanOut(n) => {
                push_label(out, numbered("fan_out[", n.ops.len(), "]"));
            },
            DeviceOp::Dyn(n) => {
                push_label(out, "dyn_op{".to_owned());
                n.inner.describe(out);
                push_label(out, "}".to_owned());
            },
            DeviceOp::OnDevice(n) => {
                n.source.describe(out);
                push_label(out, "on_device".to_owned());
            },
            DeviceOp::Host(n) => {
                n.source.describe(out);
                push_label(out, "and_then_host".to_owned());
            },
            DeviceOp::HostWithContext(n) => {
                n.source.describe(out);
                push_label(out, "and_then_host_with_context".to_owned());
            },
            DeviceOp::Profiled(n) => {
                n.source.describe(out);
                push_label(out, "profiled".to_owned());
            },
        }
        assert(texts(out@) =~= before + labels_of(*self));
    }

    /// The name of the op itself.
    pub fn node_label(&self) -> (r: String)
        ensures
            r@ == node_label_of(*self),
    {
        match self {
            DeviceOp::Leaf(l) => l.describe(),
            DeviceOp::AndThen(_) => "and_then(source→next)".to_owned(),
            DeviceOp::Arced(_) => "arced".to_owned(),
            DeviceOp::ArcSplit(n) => numbered("arc_split[", n.outs.len(), "]"),
            DeviceOp::Bundle(n) => numbered("Bundle", n.ops.len(), ""),
            DeviceOp::FanOut(n) => numbered("fan_out[", n.ops.len(), "]"),
            DeviceOp::Dyn(_) => "dyn_op".to_owned(),
            DeviceOp::OnDevice(_) => "on_device".to_owned(),
            DeviceOp::Host(_) => "and_then_host".to_owned(),
            DeviceOp::HostWithContext(_) => "and_then_host_with_context".to_owned(),
            DeviceOp::Profiled(_) => "profiled".to_owned(),
        }
    }

    /// Append the outline of the op, its own line at `depth`.
    pub fn dump_graph(&self, depth: usize, out: &mut Vec<GraphNode>)
        requires
            depth + outline_depth(*self) <= usize::MAX,
        ensures
            lines(final(out)@) == lines(old(out)@) + outline_of(*self, depth as nat),
        decreases self,
    {
        let ghost before = lines(out@);
        let mut out_cells: Vec<u64> = Vec::new();
        if let Some(p) = self.output_pipe() {
            out_cells.push(p.cell);
        }
        let line = GraphNode {
            depth,
            name: self.node_label(),
            out_cells,
            in_cells: Vec::new(),
            cb_addable: self.cb_addable(),
            seam: self.contains_host_seam(),
        };
        assert(line@.out_cells =~= outline_line(*self, depth as nat).out_cells);
        assert(line@.in_cells =~= Seq::<u64>::empty());
        assert(line@ == outline_line(*self, depth as nat));
        out.push(line);
        assert(lines(out@) =~= before.push(line@));
        match self {
            DeviceOp::AndThen(n) => {
                n.source.dump_graph(depth + 1, out);
                n.next.dump_graph(depth + 1, out);
            },
            _ => {},
        }
        assert(lines(out@) =~= before + outline_of(*self, depth as nat));
    }

    /// Whether a run can start the op.
    #[verifier::loop_isolation(false)]
    pub fn check_ready(&self, st: &Store) -> (r: OpResult<()>)
        ensures
            r == ready_of(*self, st@),
        decreases self,
    {
        match self {
            DeviceOp::Leaf(l) => l.check_ready(st),
            DeviceOp::AndThen(n) => match n.source.check_ready(st) {
                Err(e) => Err(e),
                Ok(_) => n.next.check_ready(st),
            },
            DeviceOp::Arced(n) => n.source.check_ready(st),
            DeviceOp::ArcSplit(n) => n.source.check_ready(st),
            DeviceOp::Bundle(n) => {
                let mut i: usize = 0;
                while i < n.ops.len()
                    invariant
                        i <= n.ops.len(),
                        ready_from(n.ops, 0, st@) == ready_from(n.ops, i as nat, st@),
                    decreases n.ops.len() - i,
                {
                    if let Err(e) = n.ops[i].check_ready(st) {
                        return Err(e);
                    }
                    i = i + 1;
                }
                Ok(())
            },
            DeviceOp::FanOut(n) => {
                let mut i: usize = 0;
                while i < n.ops.len()
                    invariant
                        i <= n.ops.len(),
                        ready_from(n.ops, 0, st@) == ready_from(n.ops, i as nat, st@),
                    decreases n.ops.len() - i,
                {
                    if let Err(e) = n.ops[i].check_ready(st) {
                        return Err(e);
                    }
                    i = i + 1;
                }
                Ok(())
            },
            DeviceOp::Dyn(n) => n.inner.check_ready(st),
            DeviceOp::OnDevice(n) => n.source.check_ready(st),
            DeviceOp::Host(n) => n.source.check_ready(st),
            DeviceOp::HostWithContext(n) => n.source.check_ready(st),
            DeviceOp::Profiled(n) => n.source.check_ready(st),
        }
    }

    /// Offer a binding to the slots of the op, in the order in which they run.
    #[verifier::loop_isolation(false)]
    pub fn bind_slots(&self, st: &mut Store, binder: &mut SlotBinder)
        ensures
            (final(st)@, final(binder)@) == bind_of(*self, old(st)@, old(binder)@),
        decreases self,
    {
        match self {
            DeviceOp::Leaf(l) => {
                let inputs: Vec<Input> = l.slot_inputs();
                let mut i: usize = 0;
                while i < inputs.len()
                    invariant
                        i <= inputs.len(),
                        inputs@ == l.slots(),
                        bind_inputs(inputs@, 0, old(st)@, old(binder)@) == bind_inputs(
                            inputs@,
                            i as nat,
                            st@,
                            binder@,
                        ),
                    decreases inputs.len() - i,
                {
                    inputs[i].try_bind_slot(st, binder);
                    if !binder.is_fanout() && binder.is_consumed() {
                        return ;
                    }
                    i = i + 1;
                }
            },
            DeviceOp::AndThen(n) => {
                n.source.bind_slots(st, binder);
                if !binder.is_fanout() && binder.is_consumed() {
                    return ;
                }
                n.next.bind_slots(st, binder);
            },
            DeviceOp::Bundle(n) => {
                let mut i: usize = 0;
                while i < n.ops.len()
                    invariant
                        i <= n.ops.len(),
                        bind_from(n.ops, 0, old(st)@, old(binder)@) == bind_from(
                            n.ops,
                            i as nat,
                            st@,
                            binder@,
                        ),
                    decreases n.ops.len() - i,
                {
                    n.ops[i].bind_slots(st, binder);
                    if !binder.is_fanout() && binder.is_consumed() {
                        return ;
                    }
                    i = i + 1;
                }
            },
            DeviceOp::Host(n) => {
                n.source.bind_slots(st, binder);
            },
            DeviceOp::HostWithContext(n) => {
                n.source.bind_slots(st, binder);
            },
            _ => {},
        }
    }

    /// Send the outputs of the op that no one took back to where they came from.
    #[verifier::loop_isolation(false)]
    pub fn reclaim_undelivered(&self, st: &mut Store)
        ensures
            final(st)@ == reclaim_of(*self, old(st)@),
        decreases self,
    {
        match self {
            DeviceOp::Leaf(l) => {
                reclaim_list(st, &l.pipes());
            },
            DeviceOp::AndThen(n) => {
                n.source.reclaim_undelivered(st);
                n.next.reclaim_undelivered(st);
            },
            DeviceOp::Arced(n) => {
                st.reclaim(&n.out);
            },
            DeviceOp::ArcSplit(_) => {},
            DeviceOp::Bundle(n) => {
                let mut i: usize = 0;
                while i < n.ops.len()
                    invariant
                        i <= n.ops.len(),
                        reclaim_from(n.ops, 0, old(st)@) == reclaim_from(n.ops, i as nat, st@),
                    decreases n.ops.len() - i,
                {
                    n.ops[i].reclaim_undelivered(st);
                    i = i + 1;
                }
            },
            DeviceOp::FanOut(n) => {
                let mut i: usize = 0;
                while i < n.ops.len()
                    invariant
                        i <= n.ops.len(),
                        reclaim_from(n.ops, 0, old(st)@) == reclaim_from(n.ops, i as nat, st@),
                    decreases n.ops.len() - i,
                {
                    n.ops[i].reclaim_undelivered(st);
                    i = i + 1;
                }
            },
            DeviceOp::Dyn(n) => {
                st.reclaim(&n.out);
            },
            DeviceOp::OnDevice(n) => {
                st.reclaim(&n.out);
            },
            DeviceOp::Host(n) => {
                reclaim_list(st, &n.handle);
                n.source.reclaim_undelivered(st);
            },
            DeviceOp::HostWithContext(n) => {
                reclaim_list(st, &n.handle);
                n.source.reclaim_undelivered(st);
            },
            DeviceOp::Profiled(n) => {
                st.reclaim(&n.out);
            },
        }
    }

    /// Replace the events that the outputs of the op wait on.
    pub fn cb_restamp(&self, st: &mut Store, evs: &Vec<u64>)
        ensures
            final(st)@ == restamp_of(*self, old(st)@, evs@),
    {
        let pipes: Vec<Pipe> = self.pipes();
        let mut i: usize = 0;
        while i < pipes.len()
            invariant
                i <= pipes.len(),
                restamp_pipes(pipes@, 0, old(st)@, evs@) == restamp_pipes(pipes@, i as nat, st@, evs@),
            decreases pipes.len() - i,
        {
            st.restamp(&pipes[i], evs);
            i = i + 1;
        }
    }

    /// Add to the events that the outputs of the op wait on.
    pub fn cb_delay(&self, st: &mut Store, evs: &Vec<u64>)
        ensures
            final(st)@ == delay_of(*self, old(st)@, evs@),
    {
        let pipes: Vec<Pipe> = self.pipes();
        let mut i: usize = 0;
        while i < pipes.len()
            invariant
                i <= pipes.len(),
                delay_pipes(pipes@, 0, old(st)@, evs@) == delay_pipes(pipes@, i as nat, st@, evs@),
            decreases pipes.len() - i,
        {
            st.delay(&pipes[i], evs);
            i = i + 1;
        }
    }

    /// Whether the op holds a host closure.
    #[verifier::loop_isolation(false)]
    pub fn contains_host_seam(&self) -> (r: bool)
        ensures
            r == seam_of(*self),
        decreases self,
    {
        match self {
            DeviceOp::Leaf(_) => false,
            DeviceOp::AndThen(n) => n.source.contains_host_seam() || n.next.contains_host_seam(),
            DeviceOp::Arced(n) => n.source.contains_host_seam(),
            DeviceOp::ArcSplit(n) => n.source.contains_host_seam(),
            DeviceOp::Bundle(n) => {
                let mut i: usize = 0;
                while i < n.ops.len()
                    invariant
                        i <= n.ops.len(),
                        seam_from(n.ops, 0) == seam_from(n.ops, i as nat),
                    decreases n.ops.len() - i,
                {
                    if n.ops[i].contains_host_seam() {
                        return true;
                    }
                    i = i + 1;
                }
                false
            },
            DeviceOp::FanOut(n) => {
                let mut i: usize = 0;
                while i < n.ops.len()
                    invariant
                        i <= n.ops.len(),
                        seam_from(n.ops, 0) == seam_from(n.ops, i as nat),
                    decreases n.ops.len() - i,
                {
                    if n.ops[i].contains_host_seam() {
                        return true;
                    }
                    i = i + 1;
                }
                false
            },
            DeviceOp::Dyn(n) => n.inner.contains_host_seam(),
            DeviceOp::OnDevice(n) => n.source.contains_host_seam(),
            DeviceOp::Host(_) => true,
            DeviceOp::HostWithContext(_) => true,
            DeviceOp::Profiled(n) => n.source.contains_host_seam(),
        }
    }

    /// Whether the op can be part of a command buffer as a whole.
    #[verifier::loop_isolation(false)]
    pub fn cb_addable(&self) -> (r: bool)
        ensures
            r == addable_of(*self),
        decreases self,
    {
        match self {
            DeviceOp::Leaf(l) => l.cb_addable(),
            DeviceOp::AndThen(n) => n.source.cb_addable() && n.next.cb_addable(),
            DeviceOp::Arced(n) => n.source.cb_addable(),
            DeviceOp::ArcSplit(n) => n.source.cb_addable(),
            DeviceOp::Bundle(n) => {
                let mut i: usize = 0;
                while i < n.ops.len()
                    invariant
                        i <= n.ops.len(),
                        addable_from(n.ops, 0) == addable_from(n.ops, i as nat),
                    decreases n.ops.len() - i,
                {
                    if !n.ops[i].cb_addable() {
                        return false;
                    }
                    i = i + 1;
                }
                true
            },
            DeviceOp::FanOut(n) => {
                if n.ops.len() == 0 {
                    return false;
                }
                let mut i: usize = 0;
                while i < n.ops.len()
                    invariant
                        i <= n.ops.len(),
                        addable_from(n.ops, 0) == addable_from(n.ops, i as nat),
                    decreases n.ops.len() - i,
                {
                    if !n.ops[i].cb_addable() {
                        return false;
                    }
                    i = i + 1;
                }
                true
            },
            _ => false,
        }
    }

    /// How many commands the op records into a command buffer, or the largest
    /// number that fits.
    #[verifier::loop_isolation(false)]
    pub fn cbable_weight(&self) -> (r: usize)
        ensures
            r == capped(weight_of(*self)),
        decreases self,
    {
        match self {
            DeviceOp::Leaf(l) => if l.cb_cache().is_some() {
                1
            } else {
                0
            },
            DeviceOp::AndThen(n) => add_capped(n.source.cbable_weight(), n.next.cbable_weight()),
            DeviceOp::Arced(n) => n.source.cbable_weight(),
            DeviceOp::ArcSplit(n) => n.source.cbable_weight(),
            DeviceOp::Bundle(n) => weight_sum(&n.ops, 0),
            DeviceOp::FanOut(n) => weight_sum(&n.ops, 0),
            _ => 0,
        }
    }

    /// Whether the first op inside the op can be part of a command buffer.
    pub fn cb_spine_head_addable(&self) -> (r: bool)
        ensures
            r == head_addable_of(*self),
        decreases self,
    {
        match self {
            DeviceOp::AndThen(n) => n.source.cb_spine_head_addable(),
            DeviceOp::Arced(n) => n.source.cb_spine_head_addable(),
            DeviceOp::ArcSplit(n) => n.source.cb_spine_head_addable(),
            _ => self.cb_addable(),
        }
    }

    /// Where the op keeps a command buffer.
    pub fn cb_cache(&self) -> (r: Option<CbCache>)
        ensures
            r == cache_of(*self),
    {
        match self {
            DeviceOp::Leaf(l) => l.cb_cache(),
            DeviceOp::AndThen(n) => Some(n.cb_cache),
            DeviceOp::Arced(n) => Some(n.cb_cache),
            DeviceOp::ArcSplit(n) => Some(n.cb_cache),
            DeviceOp::Bundle(n) => Some(n.cb_cache),
            DeviceOp::FanOut(n) => Some(n.cb_cache),
            _ => None,
        }
    }

    /// Drop the command buffers inside the op that captured one of the slots in
    /// `mutated`.
    #[verifier::loop_isolation(false)]
    pub fn invalidate_cbs(&self, st: &mut Store, mutated: &IdSet)
        ensures
            final(st)@ == invalidate_of(*self, old(st)@, mutated@),
        decreases self,
    {
        match self {
            DeviceOp::Leaf(l) => {
                if let Some(c) = l.cb_cache() {
                    cb_cache_invalidate(st, c, mutated);
                }
            },
            DeviceOp::AndThen(n) => {
                cb_cache_invalidate(st, n.cb_cache, mutated);
                n.source.invalidate_cbs(st, mutated);
                n.next.invalidate_cbs(st, mutated);
            },
            DeviceOp::Arced(n) => {
                cb_cache_invalidate(st, n.cb_cache, mutated);
                n.source.invalidate_cbs(st, mutated);
            },
            DeviceOp::ArcSplit(n) => {
                cb_cache_invalidate(st, n.cb_cache, mutated);
                n.source.invalidate_cbs(st, mutated);
            },
            DeviceOp::Bundle(n) => {
                cb_cache_invalidate(st, n.cb_cache, mutated);
                let ghost mid = st@;
                let mut i: usize = 0;
                while i < n.ops.len()
                    invariant
                        i <= n.ops.len(),
                        invalidate_from(n.ops, 0, mid, mutated@) == invalidate_from(
                            n.ops,
                            i as nat,
                            st@,
                            mutated@,
                        ),
                    decreases n.ops.len() - i,
                {
                    n.ops[i].invalidate_cbs(st, mutated);
                    i = i + 1;
                }
            },
            DeviceOp::FanOut(n) => {
                cb_cache_invalidate(st, n.cb_cache, mutated);
                let ghost mid = st@;
                let mut i: usize = 0;
                while i < n.ops.len()
                    invariant
                        i <= n.ops.len(),
                        invalidate_from(n.ops, 0, mid, mutated@) == invalidate_from(
                            n.ops,
                            i as nat,
                            st@,
                            mutated@,
                        ),
                    decreases n.ops.len() - i,
                {
                    n.ops[i].invalidate_cbs(st, mutated);
                    i = i + 1;
                }
            },
            DeviceOp::Host(n) => {
                n.source.invalidate_cbs(st, mutated);
            },
            DeviceOp::HostWithContext(n) => {
                n.source.invalidate_cbs(st, mutated);
            },
            _ => {},
        }
    }

    /// Whether a context with `count` devices has all that the op names by index.
    #[verifier::loop_isolation(false)]
    pub fn fits_devices(&self, count: usize) -> (r: bool)
        ensures
            r == (devices_of(*self) <= count),
        decreases self,
    {
        match self {
            DeviceOp::Leaf(l) => match l {
                LeafOp::TransferToDevice(x) => x.target.fits(count),
                _ => true,
            },
            DeviceOp::AndThen(n) => n.source.fits_devices(count) && n.next.fits_devices(count),
            DeviceOp::Arced(n) => n.source.fits_devices(count),
            DeviceOp::ArcSplit(n) => n.source.fits_devices(count),
            DeviceOp::Bundle(n) => {
                let mut i: usize = 0;
                while i < n.ops.len()
                    invariant
                        i <= n.ops.len(),
                        devices_from(n.ops, 0) <= count <==> devices_from(n.ops, i as nat) <= count,
                    decreases n.ops.len() - i,
                {
                    if !n.ops[i].fits_devices(count) {
                        return false;
                    }
                    i = i + 1;
                }
                true
            },
            DeviceOp::FanOut(n) => {
                let mut i: usize = 0;
                while i < n.ops.len()
                    invariant
                        i <= n.ops.len(),
                        devices_from(n.ops, 0) <= count <==> devices_from(n.ops, i as nat) <= count,
                    decreases n.ops.len() - i,
                {
                    if !n.ops[i].fits_devices(count) {
                        return false;
                    }
                    i = i + 1;
                }
                true
            },
            DeviceOp::Dyn(n) => n.inner.fits_devices(count),
            DeviceOp::OnDevice(n) => n.source.fits_devices(count) && n.target.fits(count),
            DeviceOp::Host(n) => n.source.fits_devices(count),
            DeviceOp::HostWithContext(n) => n.source.fits_devices(count),
            DeviceOp::Profiled(n) => n.source.fits_devices(count),
        }
    }

    /// Append the handles of the command buffers kept inside the op, outermost
    /// first.
    #[verifier::loop_isolation(false)]
    pub fn collect_cb_ids(&self, st: &Store, out: &mut Vec<u64>)
        ensures
            final(out)@ == old(out)@ + kept_ids_of(*self, st@),
        decreases self,
    {
        let ghost before = out@;
        match self {
            DeviceOp::Leaf(l) => {
                if let Some(c) = l.cb_cache() {
                    cb_cache_collect_id(st, c, out);
                }
            },
            DeviceOp::AndThen(n) => {
                cb_cache_collect_id(st, n.cb_cache, out);
                n.source.collect_cb_ids(st, out);
                n.next.collect_cb_ids(st, out);
            },
            DeviceOp::Arced(n) => {
                cb_cache_collect_id(st, n.cb_cache, out);
                n.source.collect_cb_ids(st, out);
            },
            DeviceOp::ArcSplit(n) => {
                cb_cache_collect_id(st, n.cb_cache, out);
                n.source.collect_cb_ids(st, out);
            },
            DeviceOp::Bundle(n) => {
                cb_cache_collect_id(st, n.cb_cache, out);
                let ghost mid = out@;
                let mut i: usize = 0;
                while i < n.ops.len()
                    invariant
                        i <= n.ops.len(),
                        mid + kept_ids_from(n.ops, 0, st@) =~= out@ + kept_ids_from(
                            n.ops,
                            i as nat,
                            st@,
                        ),
                    decreases n.ops.len() - i,
                {
                    n.ops[i].collect_cb_ids(st, out);
                    i = i + 1;
                }
            },
            DeviceOp::FanOut(n) => {
                cb_cache_collect_id(st, n.cb_cache, out);
                let ghost mid = out@;
                let mut i: usize = 0;
                while i < n.ops.len()
                    invariant
                        i <= n.ops.len(),
                        mid + kept_ids_from(n.ops, 0, st@) =~= out@ + kept_ids_from(
                            n.ops,
                            i as nat,
                            st@,
                        ),
                    decreases n.ops.len() - i,
                {
                    n.ops[i].collect_cb_ids(st, out);
                    i = i + 1;
                }
            },
            DeviceOp::Host(n) => {
                n.source.collect_cb_ids(st, out);
            },
            DeviceOp::HostWithContext(n) => {
                n.source.collect_cb_ids(st, out);
            },
            _ => {},
        }
        assert(out@ =~= before + kept_ids_of(*self, st@));
    }
}

fn weight_sum(ops: &Vec<DeviceOp>, i: usize) -> (r: usize)
    requires
        i <= ops.len(),
    ensures
        r == capped(weight_from(*ops, i as nat)),
    decreases ops, ops.len() - i,
{
    if i >= ops.len() {
        0
    } else {
        let first: usize = ops[i].cbable_weight();
        let rest: usize = weight_sum(ops, i + 1);
        add_capped(first, rest)
    }
}

} // verus!
