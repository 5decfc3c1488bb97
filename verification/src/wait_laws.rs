//! What holds of the order of commands inside command buffers: a recorded command
//! waits on the sync points of its inputs, the submission waits on what the inputs
//! wait on outside of it, and what follows waits on the submission.

use crate::cb::{leaf_built, span_closed};
use crate::copies::{copy_after, Copying};
use crate::entries::{forward_after, lift_after, Forward, Lift};
use crate::error::OpResult;
use crate::exec_ctx::{ExecMode, Walk, WalkMode};
use crate::graph::{delay_pipes, head_addable_of, outs_of, DeviceOp};
use crate::ids::{increasing, lemma_with_ids, with_ids};
use crate::input::{after_taking, found, pipe_of, slot_of};
use crate::launch_op::{launch_built, taken_deps, TakenView};
use crate::leaf::{leaf_after, work_record, work_records, Leaf};
use crate::obj::{Command, Issued, Reply};
use crate::store::{Pipe, World};
use crate::walk::{build_end, build_runs, enqueue_runs, seam_step};
use vstd::prelude::*;

verus! {

/// Inside a command buffer that is built, an op's command waits on the sync points
/// of the op upstream, its own sync point is what the next op waits on, and the
/// events that its input waits on outside are kept for the submission.
pub proof fn law_recorded_op_waits_on_its_input(l: Leaf, pre: Walk, mode: ExecMode, r1: Reply, r2: Reply)
    requires
        l.traced,
        work_records(l.work),
        pre.cb is Build,
        found(pre.w, pre.start, l.input) is Ok,
        found(pre.w, pre.start, l.input)->Ok_0.value.len() == 1,
    ensures
        ({
            let p = found(pre.w, pre.start, l.input)->Ok_0;
            let post = leaf_after(l, pre, mode, r1, r2).0;
            &&& post.trace == pre.trace.push(
                Issued {
                    queue: pre.queue,
                    command: Command::Record {
                        builder: pre.cb->Build_builder.handle,
                        what: work_record(l.work, p.value[0]),
                    },
                    waits: pre.sp_of(pipe_of(pre.w, l.input)),
                    reply: r1,
                },
            )
            &&& r1 matches Ok(sp) ==> post.sp_of(Some(l.out.cell)) == seq![sp]
            &&& post.cb.ext() == pre.cb.ext() + p.deps
        }),
{
}

/// Inside a command buffer that is replayed, an op enqueues nothing, and the events
/// that its input waits on outside are kept for the submission.
pub proof fn law_replayed_op_keeps_outside_events(l: Leaf, pre: Walk, mode: ExecMode, r1: Reply, r2: Reply)
    requires
        work_records(l.work),
        pre.cb is LendOnly,
        found(pre.w, pre.start, l.input) is Ok,
        found(pre.w, pre.start, l.input)->Ok_0.value.len() == 1,
    ensures
        ({
            let post = leaf_after(l, pre, mode, r1, r2).0;
            &&& post.trace == pre.trace
            &&& post.cb.ext() == pre.cb.ext() + found(pre.w, pre.start, l.input)->Ok_0.deps
        }),
{
}

/// Inside a command buffer, a copy waits on the sync points of both of its inputs,
/// and the events that they wait on outside are kept for the submission.
pub proof fn law_recorded_copy_waits_on_both_inputs(c: Copying, pre: Walk, r1: Reply)
    requires
        !(pre.cb is Off),
        copy_after(c, pre, r1).1 is Ok,
    ensures
        ({
            let ps = found(pre.w, pre.start, c.src)->Ok_0;
            let w1 = after_taking(pre.w, c.src);
            let pd = found(w1, pre.start, c.dst)->Ok_0;
            let w2 = after_taking(w1, c.dst);
            let post = copy_after(c, pre, r1).0;
            &&& post.cb.ext() == pre.cb.ext() + ps.deps + pd.deps
            &&& match pre.cb {
                WalkMode::Build { builder, .. } => post.trace == pre.trace.push(
                    Issued {
                        queue: pre.queue,
                        command: Command::Record {
                            builder: builder.handle,
                            what: c.record(ps.value[0], pd.value[0]),
                        },
                        waits: with_ids(pre.sp_of(pipe_of(w2, c.src)), pre.sp_of(pipe_of(w2, c.dst))),
                        reply: r1,
                    },
                ),
                _ => post.trace == pre.trace,
            }
        }),
{
}

/// A value that is handed on inside a command buffer loses none of the events that
/// it waits on: they are kept for the submission.
pub proof fn law_values_handed_on_keep_outside_events(l: Lift, f: Forward, pre: Walk)
    requires
        !(pre.cb is Off),
    ensures
        lift_after(l, pre).1 is Ok ==> lift_after(l, pre).0.cb.ext() == pre.cb.ext() + found(
            pre.w,
            pre.start,
            l.input,
        )->Ok_0.deps,
        forward_after(f, pre).1 is Ok ==> forward_after(f, pre).0.cb.ext() == pre.cb.ext() + found(
            pre.w,
            pre.start,
            f.input,
        )->Ok_0.deps,
{
}

/// The submission of a command buffer waits on all the events that its inputs wait
/// on outside of it.
pub proof fn law_submission_waits_on_outside_events(m: Walk, cb: u64, post: Walk, res: OpResult<u64>)
    requires
        enqueue_runs(m, cb, post, res),
    ensures
        post.trace.len() == m.trace.len() + 1,
        post.trace.last().command == (Command::EnqueueCb { cb }),
        post.trace.last().waits == m.cb.ext(),
        res matches Ok(ev) ==> post.trace.last().reply == Ok::<u64, i32>(ev),
{
}

/// Making pipes wait on more events keeps the values and all the events that they
/// wait on already.
pub proof fn law_delay_reaches_every_output(pipes: Seq<Pipe>, i: nat, w: World, evs: Seq<u64>, p: Pipe)
    ensures
        ({
            let w1 = delay_pipes(pipes, i, w, evs);
            match w.parcel(p.cell) {
                None => w1.parcel(p.cell) is None,
                Some(x) => w1.parcel(p.cell) matches Some(y) && y.value == x.value && y.home == x.home && (forall|
                    e: u64,
                | #[trigger]
                    x.deps.contains(e) ==> y.deps.contains(e)) && ((exists|k: int|
                    i <= k < pipes.len() && #[trigger] pipes[k] == p) ==> forall|e: u64| #[trigger]
                    evs.contains(e) ==> y.deps.contains(e)),
            }
        }),
    decreases pipes.len() - i,
{
    if i < pipes.len() {
        let w0 = w.delayed(pipes[i as int].cell, evs);
        let w1 = delay_pipes(pipes, i, w, evs);
        law_delay_reaches_every_output(pipes, i + 1, w0, evs, p);
        if let Some(x) = w.parcel(p.cell) {
            let x0 = w0.parcel(p.cell)->Some_0;
            let y = w1.parcel(p.cell)->Some_0;
            assert forall|e: u64| #[trigger] x.deps.contains(e) implies y.deps.contains(e) by {
                let j = choose|j: int| 0 <= j < x.deps.len() && x.deps[j] == e;
                assert(x0.deps[j] == e);
                assert(x0.deps.contains(e));
            }
            if exists|k: int| i <= k < pipes.len() && #[trigger] pipes[k] == p {
                let k = choose|k: int| i <= k < pipes.len() && #[trigger] pipes[k] == p;
                if k > i {
                    assert(i + 1 <= k < pipes.len() && pipes[k] == p);
                } else {
                    assert forall|e: u64| #[trigger] evs.contains(e) implies y.deps.contains(e) by {
                        let j = choose|j: int| 0 <= j < evs.len() && evs[j] == e;
                        assert(x0.deps == x.deps + evs);
                        assert(x0.deps[x.deps.len() + j] == e);
                        assert(x0.deps.contains(e));
                    }
                }
            }
        }
    }
}

/// What follows a command buffer waits on it. Where the next op cannot be part of
/// the command buffer, it is submitted behind the events from outside, and each
/// output of the ops inside waits on the submission. Where it has no command, each
/// output waits on the events from outside itself.
pub proof fn law_next_op_waits_on_the_command_buffer(
    source: DeviceOp,
    next: DeviceOp,
    pre: Walk,
    post: Walk,
    k: int,
)
    requires
        !(pre.cb is Off),
        !pre.cb.is_closed(),
        !head_addable_of(next),
        seam_step(source, next, pre, post, Ok(true)),
        0 <= k < outs_of(source).len(),
        pre.w.parcel(outs_of(source)[k].cell) is Some,
    ensures
        ({
            let x = pre.w.parcel(outs_of(source)[k].cell)->Some_0;
            let last = post.trace.last();
            &&& post.w.parcel(outs_of(source)[k].cell) matches Some(y)
            &&& y.value == x.value
            &&& y.home == x.home
            &&& {
                ||| last.command is EnqueueCb && last.waits == pre.cb.ext() && last.reply is Ok && y.deps
                    == seq![last.reply->Ok_0]
                ||| forall|e: u64|
                    #![trigger y.deps.contains(e)]
                    x.deps.contains(e) || pre.cb.ext().contains(e) ==> y.deps.contains(e)
            }
        }),
{
    let p = outs_of(source)[k];
    let (r1, r2) = choose|r1: Reply, r2: Reply|
        {
            let (s, r) = #[trigger] span_closed(pre, r1, r2);
            match r {
                Err(e) => false,
                Ok(Some(ev)) => post == s.at(crate::graph::restamp_of(source, s.w, seq![ev])),
                Ok(None) => !s.cb.is_abandoned() && post == s.at(
                    crate::walk::seam_delayed(source, s.w, pre.cb),
                ),
            }
        };
    let (s, r) = span_closed(pre, r1, r2);
    match r {
        Ok(Some(ev)) => {
            crate::cb_laws::law_restamp_reaches_every_output(outs_of(source), 0, s.w, seq![ev], p);
        },
        _ => {
            law_delay_reaches_every_output(outs_of(source), 0, s.w, pre.cb.ext(), p);
        },
    }
}

/// Where a command buffer ends without a command, nothing is submitted, and each
/// output waits on the events that the ops inside would have waited on.
pub proof fn law_empty_command_buffer_keeps_outside_events(
    op: DeviceOp,
    start: World,
    m: Walk,
    post: Walk,
    mode: ExecMode,
    res: OpResult<()>,
    k: int,
)
    requires
        build_end(m.cb) is Empty,
        build_runs(op, start, m, post, mode, res),
        0 <= k < outs_of(op).len(),
        m.w.parcel(outs_of(op)[k].cell) is Some,
    ensures
        res is Ok,
        post.trace == m.trace,
        post.w.parcel(outs_of(op)[k].cell) is Some,
        post.w.parcel(outs_of(op)[k].cell)->Some_0.value == m.w.parcel(outs_of(op)[k].cell)->Some_0.value,
        forall|e: u64| #[trigger]
            m.cb.ext().contains(e) ==> post.w.parcel(outs_of(op)[k].cell)->Some_0.deps.contains(e),
{
    law_delay_reaches_every_output(outs_of(op), 0, m.w, m.cb.ext(), outs_of(op)[k]);
}

/// Preparing to record a launch keeps all outside events of its memory for the
/// submission.
proof fn lemma_launch_keeps_outside_events(taken: Seq<TakenView>, i: nat, s: Walk, waits: Seq<u64>)
    requires
        s.cb is Build,
    ensures
        launch_built(taken, i, s, waits).0.cb is Build,
        launch_built(taken, i, s, waits).0.cb.ext() == s.cb.ext() + taken_deps(taken, i),
        launch_built(taken, i, s, waits).0.w == s.w,
        launch_built(taken, i, s, waits).0.sp == s.sp,
    decreases taken.len() - i,
{
    if i < taken.len() {
        let t = taken[i as int];
        let pipe = pipe_of(s.w, t.input);
        let m = leaf_built(s, t.parcel.deps, slot_of(t.input), pipe, t.out.cell);
        lemma_launch_keeps_outside_events(taken, i + 1, m, with_ids(waits, s.sp_of(pipe)));
        assert(s.cb.ext() + t.parcel.deps + taken_deps(taken, i + 1) =~= s.cb.ext() + taken_deps(taken, i));
    } else {
        assert(s.cb.ext() + taken_deps(taken, i) =~= s.cb.ext());
    }
}

/// Inside a command buffer that is built, a launch waits on the sync points of all
/// its memory, and the events that the memory waits on outside are kept for the
/// submission.
pub proof fn law_recorded_launch_waits_on_its_memory(taken: Seq<TakenView>, i: nat, s: Walk, waits: Seq<u64>, k: int, sp: u64)
    requires
        s.cb is Build,
        increasing(waits),
        i <= k < taken.len(),
        s.sp_of(pipe_of(s.w, taken[k].input)).contains(sp),
    ensures
        launch_built(taken, i, s, waits).1.contains(sp),
        launch_built(taken, i, s, waits).0.cb.ext() == s.cb.ext() + taken_deps(taken, i),
    decreases taken.len() - i,
{
    lemma_launch_keeps_outside_events(taken, i, s, waits);
    let t = taken[i as int];
    let pipe = pipe_of(s.w, t.input);
    let m = leaf_built(s, t.parcel.deps, slot_of(t.input), pipe, t.out.cell);
    let more = with_ids(waits, s.sp_of(pipe));
    lemma_with_ids(waits, s.sp_of(pipe));
    if k > i {
        assert(m.sp == s.sp && m.w == s.w);
        law_recorded_launch_waits_on_its_memory(taken, i + 1, m, more, k, sp);
    } else {
        assert(s.sp_of(pipe).to_set().contains(sp));
        assert(more.to_set().contains(sp));
        lemma_launch_waits_grow(taken, i + 1, m, more, sp);
    }
}

proof fn lemma_launch_waits_grow(taken: Seq<TakenView>, i: nat, s: Walk, waits: Seq<u64>, sp: u64)
    requires
        increasing(waits),
        waits.contains(sp),
    ensures
        launch_built(taken, i, s, waits).1.contains(sp),
    decreases taken.len() - i,
{
    if i < taken.len() {
        let t = taken[i as int];
        let pipe = pipe_of(s.w, t.input);
        let m = leaf_built(s, t.parcel.deps, slot_of(t.input), pipe, t.out.cell);
        let more = with_ids(waits, s.sp_of(pipe));
        lemma_with_ids(waits, s.sp_of(pipe));
        assert(waits.to_set().contains(sp));
        assert(more.to_set().contains(sp));
        lemma_launch_waits_grow(taken, i + 1, m, more, sp);
    }
}

} // verus!
