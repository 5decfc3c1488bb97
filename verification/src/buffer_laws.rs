//! What holds of a command buffer on its way: what is recorded and captured, when it is
//! finished, kept and submitted, and what is left where it is given up.

use crate::cb::{cb_enqueued, cb_finished, leaf_built, passed_through, span_closed, usable_cb};
use crate::cb_laws::{law_restamp_reaches_every_output, law_runs_stay_inside};
use crate::copies::{copy_after, Copying};
use crate::entries::{forward_after, lift_after, Forward, Lift};
use crate::error::{Error, OpResult};
use crate::exec_ctx::{ExecMode, Walk, WalkMode};
use crate::graph::{addable_of, cache_of, head_addable_of, outs_of, restamp_of, weight_of, DeviceOp};
use crate::graph_laws::lemma_ids_are_added;
use crate::ids::{with_id, with_ids};
use crate::input::{after_taking, found, pipe_of, slot_of, Input};
use crate::obj::{Command, Issued, Recorded, Reply};
use crate::seam_laws::did;
use crate::store::{CbView, ParcelView, World};
use crate::walk::{
    boundary_gathers, boundary_runs, build_end, build_gathers, build_runs, child_collects, child_gathers,
    child_runs, collects_of, delivered, enqueue_runs, gathers_of, given_up, node_gathers, node_runs,
    open_child_gathers, open_child_runs, opens_boundary, opens_itself, opens_span, passes, replay_mode, runs_of,
    seam_step, submitted, GatheredView,
};
use vstd::prelude::*;

verus! {

/// The end of a replay inside a walk: the command buffer that the node keeps for the queue is
/// submitted, behind the events from outside, and the answer is its event or the refusal.
pub proof fn law_replayed_span_is_submitted(pre: Walk, r1: Reply, r2: Reply, cb: CbView)
    requires
        pre.cb matches WalkMode::LendOnly { closed, cache, .. } && !closed && pre.w.cached(cache) == Some(cb),
        cb.queue == pre.queue,
    ensures
        ({
            let (post, res) = span_closed(pre, r1, r2);
            &&& post.trace.len() == pre.trace.len() + 1
            &&& post.trace.last().command == (Command::EnqueueCb { cb: cb.handle })
            &&& post.trace.last().waits == pre.cb->LendOnly_ext
            &&& post.trace.last().reply == r1
            &&& r1 matches Ok(ev) ==> res == Ok::<Option<u64>, Error>(Some(ev))
            &&& r1 matches Err(c) ==> res == Err::<Option<u64>, Error>(Error::OpenCl(c))
            &&& post.cb is LendOnly && post.cb->LendOnly_closed
        }),
{
}

/// The end of a construction inside a walk: a command buffer that holds all its commands is
/// finished, kept at its node for the queue with the slots that it captured, and submitted
/// behind the events from outside.
pub proof fn law_built_span_is_kept_and_submitted(pre: Walk, r2: Reply, cb: u64)
    requires
        pre.cb matches WalkMode::Build { closed, builder, .. } && !closed && builder.eligible && builder.recorded.len() > 0,
    ensures
        ({
            let (post, res) = span_closed(pre, Ok(cb), r2);
            let at = pre.trace.len() as int;
            &&& post.trace.len() == at + 2
            &&& did(post, at, Command::FinalizeCb { builder: pre.cb->Build_builder.handle }, Seq::empty(), cb)
            &&& post.trace[at + 1].command == (Command::EnqueueCb { cb })
            &&& post.trace[at + 1].waits == pre.cb->Build_ext
            &&& post.trace[at + 1].reply == r2
            &&& post.w.cached(pre.cb->Build_cache) == Some(
                CbView { handle: cb, queue: pre.queue, slots: pre.cb->Build_builder.slots },
            )
            &&& r2 matches Ok(ev) ==> res == Ok::<Option<u64>, Error>(Some(ev))
            &&& r2 matches Err(c) ==> res == Err::<Option<u64>, Error>(Error::OpenCl(c))
            &&& post.cb.is_closed()
            &&& !post.cb.is_abandoned()
        }),
{
}

/// A construction that misses a command, that recorded nothing, or that the driver does not
/// finish is not submitted and not kept.
pub proof fn law_unfinished_span_is_not_submitted(pre: Walk, r1: Reply, r2: Reply)
    requires
        pre.cb matches WalkMode::Build { closed, builder, .. } && !closed && (!builder.eligible || builder.recorded.len() == 0
            || r1 is Err),
    ensures
        ({
            let (post, res) = span_closed(pre, r1, r2);
            &&& res == Ok::<Option<u64>, Error>(None)
            &&& post.w == pre.w
            &&& forall|k: int| pre.trace.len() <= k < post.trace.len() ==> !((#[trigger] post.trace[k]).command is EnqueueCb)
            &&& post.cb.is_closed()
            &&& post.cb.is_abandoned() <==> !pre.cb->Build_builder.finalized && (!pre.cb->Build_builder.eligible
                || pre.cb->Build_builder.recorded.len() > 0)
        }),
{
}

/// Outside of a command buffer, and once it was submitted, there is nothing to close.
pub proof fn law_nothing_is_closed_twice(pre: Walk, r1: Reply, r2: Reply)
    requires
        pre.cb is Off || (pre.cb matches WalkMode::Build { closed, .. } && closed) || (pre.cb matches WalkMode::LendOnly {
            closed,
            ..
        } && closed),
    ensures
        span_closed(pre, r1, r2) == (pre, Ok::<Option<u64>, Error>(None)),
{
}

/// A command buffer that the driver finished is kept at its node, for the queue that it was
/// built for, with the slots that it captured; one that it does not finish cannot be used,
/// and nothing is kept.
pub proof fn law_finished_buffer_is_kept(s: Walk, reply: Reply)
    requires
        s.cb is Build,
    ensures
        ({
            let b = s.cb->Build_builder;
            let t = cb_finished(s, reply);
            &&& t.trace.len() == s.trace.len() + 1
            &&& t.trace.last().command == (Command::FinalizeCb { builder: b.handle })
            &&& t.trace.last().reply == reply
            &&& t.cb is Build
            &&& reply matches Ok(cb) ==> {
                &&& t.w.cached(s.cb->Build_cache) == Some(CbView { handle: cb, queue: s.queue, slots: b.slots })
                &&& usable_cb(t.w, s.cb->Build_cache, s.queue) == Some(cb)
                &&& build_end(t.cb) is Submitted
            }
            &&& reply is Err ==> t.w == s.w && !t.cb->Build_builder.eligible
        }),
{
}

/// A command buffer that is submitted waits on the events from outside that its ops met.
pub proof fn law_submission_waits_on_the_outside(s: Walk, cb: u64, r: Reply)
    ensures
        ({
            let t = cb_enqueued(s, cb, r);
            &&& t.trace.len() == s.trace.len() + 1
            &&& t.trace.last().command == (Command::EnqueueCb { cb })
            &&& t.trace.last().reply == r
            &&& s.cb matches WalkMode::Build { ext, .. } ==> t.trace.last().waits == ext
            &&& s.cb matches WalkMode::LendOnly { ext, .. } ==> t.trace.last().waits == ext
            &&& t.w == (World { uses: t.w.uses, ..s.w })
        }),
{
}

/// An op that prepares to record a command: the events of its input that come from outside
/// are kept for the submission, and the command buffer captures every slot that its input
/// comes from, which the output then comes from too.
pub proof fn law_recorded_command_captures_its_slots(
    s: Walk,
    deps: Seq<u64>,
    in_slot: Option<u64>,
    in_pipe: Option<u64>,
    out: u64,
    y: u64,
)
    requires
        s.cb is Build,
        in_slot == Some(y) || (in_pipe matches Some(p) && s.reach.contains_key(p) && s.reach[p].contains(y)),
    ensures
        ({
            let t = leaf_built(s, deps, in_slot, in_pipe, out);
            &&& t.cb is Build
            &&& t.cb->Build_ext == s.cb->Build_ext + deps
            &&& t.cb->Build_builder.slots.contains(y)
            &&& t.reach.contains_key(out) && t.reach[out].contains(y)
            &&& t.trace == s.trace
            &&& t.w == s.w
        }),
{
    let origins = s.origins(in_slot, in_pipe);
    let base = s.reach_of(in_pipe);
    if let Some(x) = in_slot {
        lemma_ids_are_added(base, seq![x]);
        reveal_with_fuel(with_ids, 2);
        assert(seq![x].drop_last() =~= Seq::empty());
        assert(with_ids(base, seq![x]) == with_id(base, x));
        assert(seq![x][0] == x);
        assert(seq![x].contains(x));
        if x != y {
            assert(base.contains(y));
        }
    }
    assert(origins.contains(y));
    lemma_ids_are_added(s.cb->Build_builder.slots, origins);
    let u = s.external(deps).noting(origins);
    lemma_ids_are_added(u.reach_of(Some(out)), origins);
}

/// What a command buffer captured, it keeps, whatever is recorded after.
pub proof fn law_captured_slots_stay_captured(
    s: Walk,
    deps: Seq<u64>,
    in_slot: Option<u64>,
    in_pipe: Option<u64>,
    out: u64,
    y: u64,
)
    requires
        s.cb is Build,
        s.cb->Build_builder.slots.contains(y),
    ensures
        leaf_built(s, deps, in_slot, in_pipe, out).cb->Build_builder.slots.contains(y),
{
    lemma_ids_are_added(s.cb->Build_builder.slots, s.origins(in_slot, in_pipe));
}

/// A value that is passed on inside a command buffer is waited on where its source was, and
/// comes from the slots that its source came from.
pub proof fn law_passed_value_keeps_its_origins(s: Walk, in_slot: Option<u64>, src: u64, out: u64, y: u64)
    requires
        s.sp.contains_key(src),
        s.reach.contains_key(src) && s.reach[src].contains(y) || in_slot == Some(y),
        src != out,
    ensures
        ({
            let t = passed_through(s, in_slot, Some(src), out);
            &&& t.sp.contains_key(out) && t.sp[out] == s.sp[src]
            &&& t.reach.contains_key(out) && t.reach[out].contains(y)
            &&& t.trace == s.trace
            &&& t.w == s.w
            &&& t.cb == s.cb
        }),
{
    let t = s.with_sp(out, s.sp_of(Some(src)));
    let base = t.reach_of(Some(src));
    let origins = t.origins(in_slot, Some(src));
    if let Some(x) = in_slot {
        lemma_ids_are_added(base, seq![x]);
        reveal_with_fuel(with_ids, 2);
        assert(seq![x].drop_last() =~= Seq::empty());
        assert(with_ids(base, seq![x]) == with_id(base, x));
        assert(seq![x][0] == x);
        assert(seq![x].contains(x));
        if x != y {
            assert(base.contains(y));
        }
    }
    assert(origins.contains(y));
    lemma_ids_are_added(t.reach_of(Some(out)), origins);
}

/// A command that the driver records is in the command buffer, behind the sync points that
/// it waits on; one that the driver refuses makes the command buffer unusable.
pub proof fn law_refused_record_spoils_the_buffer(s: Walk, what: Recorded, waits: Seq<u64>, reply: Reply)
    requires
        s.cb is Build,
    ensures
        ({
            let b = s.cb->Build_builder;
            let t = s.recording(what, waits, reply);
            &&& t.trace.len() == s.trace.len() + 1
            &&& t.trace.last().command == (Command::Record { builder: b.handle, what })
            &&& t.trace.last().waits == waits
            &&& t.trace.last().reply == reply
            &&& t.cb is Build
            &&& reply is Ok ==> t.cb->Build_builder.recorded == b.recorded.push(what) && t.cb->Build_builder.eligible
                == b.eligible
            &&& reply is Err ==> !t.cb->Build_builder.eligible && t.cb->Build_builder.recorded == b.recorded
            &&& t.cb->Build_ext == s.cb->Build_ext
            &&& t.w == s.w
        }),
{
}

/// A run that gives a command buffer up starts again from where it was: every value is back
/// in its cell, its slot and on its pipe, and commands go to the queue. What the run noted
/// otherwise stays.
pub proof fn law_given_up_run_starts_again(start: World, m: Walk)
    ensures
        ({
            let s = given_up(start, m);
            &&& s.w.cells == start.cells
            &&& s.w.slots == start.slots
            &&& s.w.pipes == start.pipes
            &&& s.w.caches == m.w.caches
            &&& s.w.sinks == m.w.sinks
            &&& s.w.uses == m.w.uses
            &&& s.w.next == m.w.next
            &&& s.cb is Off
            &&& s.trace == m.trace
            &&& s.workers == m.workers
            &&& s.queue == m.queue
        }),
{
}

/// What comes of a construction: one that was submitted on the way is done; else one that
/// misses a command is given up, one without a command comes to nothing, and any other is
/// finished.
pub proof fn law_how_a_construction_ends(m: Walk)
    requires
        m.cb is Build,
    ensures
        ({
            let b = m.cb->Build_builder;
            &&& b.finalized ==> build_end(m.cb) is Submitted
            &&& !b.finalized && !b.eligible ==> build_end(m.cb) is GivenUp
            &&& !b.finalized && b.eligible && b.recorded.len() == 0 ==> build_end(m.cb) is Empty
            &&& !b.finalized && b.eligible && b.recorded.len() > 0 ==> build_end(m.cb) is Finish
        }),
{
}

/// A construction starts with nothing recorded, captured or waited on, and a replay with
/// nothing waited on; both are for the node that opened them.
pub proof fn law_command_buffers_start_empty(s: Walk, builder: u64, cache: u64)
    ensures
        ({
            let t = s.building(builder, cache);
            &&& t.cb matches WalkMode::Build { builder: b, ext, svm, cache: c, closed } && b.handle == builder && b.recorded.len()
                == 0 && b.eligible && !b.finalized && b.slots.len() == 0 && ext.len() == 0 && svm.len() == 0 && c == cache
                && !closed
            &&& t.w == s.w
            &&& t.trace == s.trace
        }),
        replay_mode(cache) matches WalkMode::LendOnly { ext, svm, cache: c, closed } && ext.len() == 0 && svm.len() == 0 && c
            == cache && !closed,
{
}

/// The op inside an op that runs first as a whole.
pub open spec fn head_of(op: DeviceOp) -> DeviceOp
    decreases op,
{
    match op {
        DeviceOp::AndThen(n) => head_of(n.source),
        DeviceOp::Arced(n) => head_of(n.source),
        DeviceOp::ArcSplit(n) => head_of(n.source),
        _ => op,
    }
}

/// Whether the head of an op can be recorded is decided by what runs first.
pub proof fn law_head_is_what_runs_first(op: DeviceOp)
    ensures
        head_addable_of(op) == addable_of(head_of(op)),
    decreases op,
{
    match op {
        DeviceOp::AndThen(n) => law_head_is_what_runs_first(n.source),
        DeviceOp::Arced(n) => law_head_is_what_runs_first(n.source),
        DeviceOp::ArcSplit(n) => law_head_is_what_runs_first(n.source),
        _ => {},
    }
}

/// Outside of any command buffer, on a context that has them, an op with a place for one and
/// with two commands or more becomes one as a whole if all of it can be recorded, and else
/// opens one for its head if its head can be.
pub proof fn law_command_buffers_open_where_they_can(op: DeviceOp, s: Walk)
    requires
        s.cb is Off,
        s.has_cb,
        cache_of(op) is Some,
        weight_of(op) >= 2,
    ensures
        opens_boundary(op, s) <==> addable_of(op),
        opens_span(op, s) <==> !addable_of(op) && head_addable_of(op),
        op is AndThen ==> (opens_itself(op, s) <==> opens_span(op, s)),
        op is Bundle ==> (opens_itself(op, s) <==> opens_boundary(op, s)),
        !(op is AndThen) && !(op is Bundle) ==> !opens_itself(op, s),
{
}

/// Every combined op that can be recorded has a place for a command buffer, its own.
pub proof fn law_combined_ops_have_their_own_place(op: DeviceOp)
    ensures
        match op {
            DeviceOp::AndThen(n) => cache_of(op) == Some(n.cb_cache),
            DeviceOp::Arced(n) => cache_of(op) == Some(n.cb_cache),
            DeviceOp::ArcSplit(n) => cache_of(op) == Some(n.cb_cache),
            DeviceOp::Bundle(n) => cache_of(op) == Some(n.cb_cache),
            DeviceOp::FanOut(n) => cache_of(op) == Some(n.cb_cache),
            DeviceOp::Leaf(l) => cache_of(op) == l.cache(),
            _ => cache_of(op) is None,
        },
{
}

/// A part that can become a command buffer becomes one, when it runs and when its outputs
/// are checked out. Once the command buffer around a part was submitted, the part runs
/// outside of it.
pub proof fn law_parts_become_command_buffers(
    op: DeviceOp,
    pre: Walk,
    post: Walk,
    mode: ExecMode,
    a: OpResult<()>,
    b: OpResult<GatheredView>,
)
    ensures
        opens_boundary(op, pre) && child_runs(op, pre, post, mode, a) ==> boundary_runs(op, pre, post, mode, a),
        opens_boundary(op, pre) && child_gathers(op, pre, post, mode, b) ==> boundary_gathers(op, pre, post, mode, b),
        op is AndThen && opens_span(op, pre) && node_runs(op, pre, post, mode, a) ==> boundary_runs(op, pre, post, mode, a),
        op is AndThen && opens_span(op, pre) && node_gathers(op, pre, post, mode, b) ==> boundary_gathers(
            op,
            pre,
            post,
            mode,
            b,
        ),
        pre.cb.is_closed() && child_runs(op, pre, post, mode, a) ==> exists|m: Walk|
            #[trigger] passes(m, ()) && child_runs(op, pre.in_mode(WalkMode::Off), m, mode, a) && post == m.in_mode(pre.cb),
{
    if pre.cb.is_closed() && child_runs(op, pre, post, mode, a) {
        let m = choose|m: Walk|
            (#[trigger] passes(m, ())) && open_child_runs(op, pre.in_mode(WalkMode::Off), m, mode, a) && post == m.in_mode(
                pre.cb,
            );
        assert(passes(m, ()));
        assert(child_runs(op, pre.in_mode(WalkMode::Off), m, mode, a));
    }
}

/// A run that finds the command buffer of an earlier one replays it: it builds no second one,
/// all that it asks of the queue is the one submission, every output waits on that submission
/// alone, and the buffer stays where it is kept.
pub proof fn law_second_run_replays(op: DeviceOp, pre: Walk, post: Walk, mode: ExecMode, cb: u64) -> (ev: u64)
    requires
        addable_of(op),
        cache_of(op) is Some,
        usable_cb(pre.w, cache_of(op)->Some_0, pre.queue) == Some(cb),
        boundary_runs(op, pre, post, mode, Ok(())),
    ensures
        post.trace.len() == pre.trace.len() + 1,
        post.trace.drop_last() == pre.trace,
        post.trace.last().command == (Command::EnqueueCb { cb }),
        post.trace.last().reply == Ok::<u64, i32>(ev),
        forall|k: int|
            0 <= k < outs_of(op).len() ==> (post.w.parcel((#[trigger] outs_of(op)[k]).cell) matches Some(p) ==> p.deps
                == seq![ev]),
        post.cb is Off,
{
    let res = Ok::<(), Error>(());
    let cache = cache_of(op)->Some_0;
    let s = pre.in_mode(replay_mode(cache));
    let (m, r) = choose|m: Walk, r: OpResult<()>|
        (#[trigger] passes(m, r)) && runs_of(op, s, m, mode, r) && match r {
            Err(e) => post == m.in_mode(WalkMode::Off) && res == Err::<(), Error>(e),
            Ok(_) => if m.cb.is_closed() {
                post == m.in_mode(WalkMode::Off) && res == Ok::<(), Error>(())
            } else {
                exists|t: Walk, j: OpResult<u64>|
                    (#[trigger] enqueue_runs(m, cb, t, j)) && submitted(op, t, j, post, res)
            },
        };
    law_runs_stay_inside(op, s, m, mode, r);
    let (t, j) = choose|t: Walk, j: OpResult<u64>|
        (#[trigger] enqueue_runs(m, cb, t, j)) && submitted(op, t, j, post, res);
    let q = choose|q: Reply|
        t == (#[trigger] cb_enqueued(m, cb, q)) && j == (match q {
            Err(c) => Err::<u64, Error>(Error::OpenCl(c)),
            Ok(ev) => Ok(ev),
        });
    let ev = j->Ok_0;
    assert(post.trace == pre.trace.push(
        Issued { queue: m.queue, command: Command::EnqueueCb { cb }, waits: m.cb.ext(), reply: q },
    ));
    assert(post.trace.drop_last() =~= pre.trace);
    lemma_outputs_wait(op, t, ev);
    ev
}

proof fn lemma_outputs_wait(op: DeviceOp, t: Walk, ev: u64)
    ensures
        forall|k: int|
            0 <= k < outs_of(op).len() ==> (restamp_of(op, t.w, seq![ev]).parcel((#[trigger] outs_of(op)[k]).cell) matches
                Some(p) ==> p.deps == seq![ev]),
{
    assert forall|k: int| 0 <= k < outs_of(op).len() implies (restamp_of(op, t.w, seq![ev]).parcel(
        (#[trigger] outs_of(op)[k]).cell,
    ) matches Some(p) ==> p.deps == seq![ev]) by {
        law_restamp_reaches_every_output(outs_of(op), 0, t.w, seq![ev], outs_of(op)[k]);
    }
}

/// A run that built a command buffer to its end: the driver finishes it, it is kept for the
/// queue, it is submitted behind the events from outside, and every output waits on that
/// submission alone. Where the driver does not finish it, the op runs again from where the
/// run was, without a command buffer.
pub proof fn law_built_run_is_submitted(
    op: DeviceOp,
    start: World,
    m: Walk,
    post: Walk,
    mode: ExecMode,
    res: OpResult<()>,
) -> (q: Reply)
    requires
        build_end(m.cb) is Finish,
        build_runs(op, start, m, post, mode, res),
    ensures
        q is Err ==> runs_of(op, given_up(start, cb_finished(m, q)), post, mode, res),
        q matches Ok(cb) ==> {
            let at = m.trace.len() as int;
            &&& post.trace.len() == at + 2
            &&& did(post, at, Command::FinalizeCb { builder: m.cb->Build_builder.handle }, Seq::empty(), cb)
            &&& post.trace[at + 1].command == (Command::EnqueueCb { cb })
            &&& post.trace[at + 1].waits == m.cb->Build_ext
            &&& post.trace[at + 1].reply matches Err(c) ==> res == Err::<(), Error>(Error::OpenCl(c))
            &&& post.trace[at + 1].reply matches Ok(ev) ==> {
                &&& res is Ok
                &&& forall|k: int|
                    0 <= k < outs_of(op).len() ==> (post.w.parcel((#[trigger] outs_of(op)[k]).cell) matches Some(p) ==> p.deps
                        == seq![ev])
            }
            &&& post.cb is Off
        },
{
    let q = choose|q: Reply|
        {
            let t = #[trigger] cb_finished(m, q);
            match q {
                Err(_) => runs_of(op, given_up(start, t), post, mode, res),
                Ok(cb) => exists|u: Walk, j: OpResult<u64>|
                    (#[trigger] enqueue_runs(t, cb, u, j)) && submitted(op, u, j, post, res),
            }
        };
    if let Ok(cb) = q {
        let t = cb_finished(m, q);
        let (u, j) = choose|u: Walk, j: OpResult<u64>|
            (#[trigger] enqueue_runs(t, cb, u, j)) && submitted(op, u, j, post, res);
        let x = choose|x: Reply|
            u == (#[trigger] cb_enqueued(t, cb, x)) && j == (match x {
                Err(c) => Err::<u64, Error>(Error::OpenCl(c)),
                Ok(ev) => Ok(ev),
            });
        if let Ok(ev) = x {
            lemma_outputs_wait(op, u, ev);
        }
        assert(post.trace == u.trace);
        assert(u.trace[m.trace.len() as int] == t.trace[m.trace.len() as int]);
    }
    q
}

/// Between the two parts of a sequence: where the second part's head can go on with the command
/// buffer, or there is none, nothing happens.
pub proof fn law_recordable_part_goes_on(
    source: DeviceOp,
    next: DeviceOp,
    pre: Walk,
    post: Walk,
    res: OpResult<bool>,
)
    requires
        pre.cb is Off || head_addable_of(next),
        seam_step(source, next, pre, post, res),
    ensures
        post == pre,
        res == Ok::<bool, Error>(false),
{
}

/// A run that cannot use the command buffer that it builds runs the op again from where it was,
/// without a command buffer: every value is back at its place.
pub proof fn law_abandoned_run_starts_again(op: DeviceOp, pre: Walk, post: Walk, mode: ExecMode, res: OpResult<()>) -> (r: (
    Walk,
    Walk,
    Walk,
))
    requires
        cache_of(op) is Some,
        usable_cb(pre.w, cache_of(op)->Some_0, pre.queue) is None,
        boundary_runs(op, pre, post, mode, res),
    ensures
        ({
            let (s, m, again) = r;
            &&& s.trace.len() == pre.trace.len() + 1
            &&& s.trace.last().command == (Command::OpenCb { queue: pre.queue })
            &&& s.w == pre.w
            &&& s.trace.last().reply is Err ==> runs_of(op, s, post, mode, res)
            &&& s.trace.last().reply matches Ok(b) ==> {
                &&& s.cb matches WalkMode::Build { builder, .. } && builder.handle == b && builder.recorded.len() == 0
                &&& m.cb.is_abandoned() && !(runs_of(op, s, m, mode, Ok(()))) ==> {
                    &&& again.w.cells == pre.w.cells
                    &&& again.w.slots == pre.w.slots
                    &&& again.w.pipes == pre.w.pipes
                    &&& again.cb is Off
                    &&& again.trace == m.trace
                    &&& runs_of(op, again, post, mode, res)
                }
            }
        }),
{
    let cache = cache_of(op)->Some_0;
    let q = choose|q: Reply|
        {
            let s = #[trigger] pre.issued(Command::OpenCb { queue: pre.queue }, Seq::empty(), q);
            match q {
                Err(_) => runs_of(op, s, post, mode, res),
                Ok(b) => exists|m: Walk, r: OpResult<()>|
                    (#[trigger] passes(m, r)) && runs_of(op, s.building(b, cache), m, mode, r) && match r {
                        Err(e) => if m.cb.is_abandoned() {
                            runs_of(op, given_up(pre.w, m), post, mode, res)
                        } else {
                            post == m.in_mode(WalkMode::Off) && res == Err::<(), Error>(e)
                        },
                        Ok(_) => build_runs(op, pre.w, m, post, mode, res),
                    },
            }
        };
    let s = pre.issued(Command::OpenCb { queue: pre.queue }, Seq::empty(), q);
    match q {
        Err(_) => (s, s, s),
        Ok(b) => {
            let start = s.building(b, cache);
            let (m, r) = choose|m: Walk, r: OpResult<()>|
                (#[trigger] passes(m, r)) && runs_of(op, start, m, mode, r) && match r {
                    Err(e) => if m.cb.is_abandoned() {
                        runs_of(op, given_up(pre.w, m), post, mode, res)
                    } else {
                        post == m.in_mode(WalkMode::Off) && res == Err::<(), Error>(e)
                    },
                    Ok(_) => build_runs(op, pre.w, m, post, mode, res),
                };
            if r is Ok {
                assert(r->Ok_0 == ());
            }
            (start, m, given_up(pre.w, m))
        },
    }
}

/// A build whose command buffer misses a command runs the op again from where it was.
pub proof fn law_incomplete_build_runs_again(
    op: DeviceOp,
    start: World,
    m: Walk,
    post: Walk,
    mode: ExecMode,
    res: OpResult<()>,
)
    requires
        build_end(m.cb) is GivenUp,
        build_runs(op, start, m, post, mode, res),
    ensures
        ({
            let again = Walk { cb: WalkMode::Off, w: World { cells: start.cells, slots: start.slots, pipes: start.pipes, ..m.w }, ..m };
            runs_of(op, again, post, mode, res)
        }),
{
}

/// A copy inside a command buffer that is built: the command buffer captures the slots of both
/// of its inputs, and what follows on either output waits on the copy.
pub proof fn law_recorded_copy_captures_both_slots(c: Copying, pre: Walk, r1: Reply, y: u64)
    requires
        pre.cb is Build,
        copy_after(c, pre, r1).1 is Ok,
        slot_of(c.src) == Some(y) || slot_of(c.dst) == Some(y),
    ensures
        ({
            let post = copy_after(c, pre, r1).0;
            &&& post.cb is Build
            &&& post.cb->Build_builder.slots.contains(y)
            &&& r1 matches Ok(sp) ==> post.sp_of(Some(c.src_pipe.cell)) == seq![sp] && post.sp_of(Some(c.dst_pipe.cell))
                == seq![sp]
        }),
{
    let ps = found(pre.w, pre.start, c.src)->Ok_0;
    let w1 = after_taking(pre.w, c.src);
    let pd = found(w1, pre.start, c.dst)->Ok_0;
    let s = pre.at(w1).at(after_taking(w1, c.dst));
    let sp = pipe_of(s.w, c.src);
    let dp = pipe_of(s.w, c.dst);
    let b1 = leaf_built(s, ps.deps, slot_of(c.src), sp, c.src_pipe.cell);
    if slot_of(c.src) == Some(y) {
        law_recorded_command_captures_its_slots(s, ps.deps, slot_of(c.src), sp, c.src_pipe.cell, y);
        law_captured_slots_stay_captured(b1, pd.deps, slot_of(c.dst), dp, c.dst_pipe.cell, y);
    } else {
        law_recorded_command_captures_its_slots(b1, pd.deps, slot_of(c.dst), dp, c.dst_pipe.cell, y);
    }
}

/// A value that is lifted or forwarded inside a command buffer that is built comes from the
/// slots that its input comes from, and a forwarded one is waited on where its input was.
pub proof fn law_passed_inputs_keep_their_slots(l: Lift, f: Forward, pre: Walk, y: u64, z: u64)
    requires
        pre.cb is Build,
    ensures
        lift_after(l, pre).1 is Ok && slot_of(l.input) == Some(y) ==> lift_after(l, pre).0.reach_of(
            Some(l.out.cell),
        ).contains(y),
        forward_after(f, pre).1 is Ok && (f.input matches Input::Pipe(p) && p.cell != f.out.cell) ==> forward_after(
            f,
            pre,
        ).0.sp_of(Some(f.out.cell)) == pre.sp_of(Some(f.input->Pipe_0.cell)),
        forward_after(f, pre).1 is Ok && (f.input matches Input::Pipe(p) && p.cell != f.out.cell && pre.reach_of(
            Some(p.cell),
        ).contains(z)) ==> forward_after(f, pre).0.reach_of(Some(f.out.cell)).contains(z),
{
    if lift_after(l, pre).1 is Ok && slot_of(l.input) == Some(y) {
        let p = found(pre.w, pre.start, l.input)->Ok_0;
        let t = pre.at(after_taking(pre.w, l.input)).external(p.deps);
        let base = t.reach_of(pipe_of(pre.w, l.input));
        lemma_ids_are_added(base, seq![y]);
        reveal_with_fuel(with_ids, 2);
        assert(seq![y].drop_last() =~= Seq::empty());
        assert(with_ids(base, seq![y]) == with_id(base, y));
        assert(seq![y][0] == y);
        assert(seq![y].contains(y));
        lemma_ids_are_added(t.reach_of(Some(l.out.cell)), with_id(base, y));
    }
    if let Input::Pipe(p) = f.input {
        if forward_after(f, pre).1 is Ok && p.cell != f.out.cell {
            let x = found(pre.w, pre.start, f.input)->Ok_0;
            let t = pre.at(after_taking(pre.w, f.input)).external(x.deps);
            let u = t.with_sp(f.out.cell, t.sp_of(Some(p.cell)));
            lemma_ids_are_added(u.reach_of(Some(f.out.cell)), u.reach_of(Some(p.cell)));
        }
    }
}

/// A gather that cannot use the command buffer that it builds gathers again from where it was,
/// without a command buffer: every value is back at its place.
pub proof fn law_abandoned_gather_starts_again(
    op: DeviceOp,
    pre: Walk,
    post: Walk,
    mode: ExecMode,
    res: OpResult<GatheredView>,
) -> (r: (Walk, Walk, OpResult<GatheredView>, Walk))
    requires
        cache_of(op) is Some,
        usable_cb(pre.w, cache_of(op)->Some_0, pre.queue) is None,
        boundary_gathers(op, pre, post, mode, res),
    ensures
        ({
            let (s, m, h, again) = r;
            &&& s.trace.len() == pre.trace.len() + 1
            &&& s.trace.last().command == (Command::OpenCb { queue: pre.queue })
            &&& s.w == pre.w
            &&& s.trace.last().reply is Err ==> gathers_of(op, s, post, mode, res)
            &&& s.trace.last().reply matches Ok(b) ==> {
                &&& s.cb matches WalkMode::Build { builder, .. } && builder.handle == b && builder.recorded.len() == 0
                &&& gathers_of(op, s, m, mode, h)
                &&& h matches Ok(g) ==> build_gathers(op, pre.w, g, m, post, mode, res)
                &&& h is Err && m.cb.is_abandoned() ==> {
                    &&& again.w.cells == pre.w.cells
                    &&& again.w.slots == pre.w.slots
                    &&& again.w.pipes == pre.w.pipes
                    &&& again.cb is Off
                    &&& again.trace == m.trace
                    &&& gathers_of(op, again, post, mode, res)
                }
                &&& h matches Err(e) ==> (!m.cb.is_abandoned() ==> res == Err::<GatheredView, Error>(e) && post.trace
                    == m.trace && post.w == m.w)
            }
        }),
{
    let cache = cache_of(op)->Some_0;
    let q = choose|q: Reply|
        {
            let s = #[trigger] pre.issued(Command::OpenCb { queue: pre.queue }, Seq::empty(), q);
            match q {
                Err(_) => gathers_of(op, s, post, mode, res),
                Ok(b) => exists|m: Walk, r: OpResult<GatheredView>|
                    (#[trigger] passes(m, r)) && gathers_of(op, s.building(b, cache), m, mode, r) && match r {
                        Err(e) => if m.cb.is_abandoned() {
                            gathers_of(op, given_up(pre.w, m), post, mode, res)
                        } else {
                            post == m.in_mode(WalkMode::Off) && res == Err::<GatheredView, Error>(e)
                        },
                        Ok(g) => build_gathers(op, pre.w, g, m, post, mode, res),
                    },
            }
        };
    let s = pre.issued(Command::OpenCb { queue: pre.queue }, Seq::empty(), q);
    match q {
        Err(_) => (s, s, res, s),
        Ok(b) => {
            let start = s.building(b, cache);
            let (m, h) = choose|m: Walk, r: OpResult<GatheredView>|
                (#[trigger] passes(m, r)) && gathers_of(op, start, m, mode, r) && match r {
                    Err(e) => if m.cb.is_abandoned() {
                        gathers_of(op, given_up(pre.w, m), post, mode, res)
                    } else {
                        post == m.in_mode(WalkMode::Off) && res == Err::<GatheredView, Error>(e)
                    },
                    Ok(g) => build_gathers(op, pre.w, g, m, post, mode, res),
                };
            (start, m, h, given_up(pre.w, m))
        },
    }
}

/// How a gather that was to build a command buffer ends. Built to its end, it is finished, kept,
/// and submitted behind the events from outside, and the checkouts wait on that submission
/// alone; where the driver does not finish it, or it misses a command, the op is gathered again
/// from where it was. Without a command nothing is submitted, and the checkouts wait on the
/// events from outside themselves. The outputs are those that were gathered.
pub proof fn law_built_gather_is_submitted(
    op: DeviceOp,
    start: World,
    g: GatheredView,
    m: Walk,
    post: Walk,
    mode: ExecMode,
    res: OpResult<GatheredView>,
) -> (q: Reply)
    requires
        m.cb is Build,
        build_gathers(op, start, g, m, post, mode, res),
    ensures
        build_end(m.cb) is Finish && q is Err ==> gathers_of(op, given_up(start, cb_finished(m, q)), post, mode, res),
        build_end(m.cb) is Finish ==> (q matches Ok(cb) ==> {
            let at = m.trace.len() as int;
            &&& post.trace.len() == at + 2
            &&& did(post, at, Command::FinalizeCb { builder: m.cb->Build_builder.handle }, Seq::empty(), cb)
            &&& post.trace[at + 1].command == (Command::EnqueueCb { cb })
            &&& post.trace[at + 1].waits == m.cb->Build_ext
            &&& post.trace[at + 1].reply matches Err(c) ==> res == Err::<GatheredView, Error>(Error::OpenCl(c))
            &&& post.trace[at + 1].reply matches Ok(ev) ==> (res matches Ok(r) && r.outs == g.outs && r.deps == seq![ev])
            &&& post.w.cached(m.cb->Build_cache) == Some(
                CbView { handle: cb, queue: m.queue, slots: m.cb->Build_builder.slots },
            )
        }),
        build_end(m.cb) is GivenUp ==> gathers_of(
            op,
            Walk {
                cb: WalkMode::Off,
                w: World { cells: start.cells, slots: start.slots, pipes: start.pipes, ..m.w },
                ..m
            },
            post,
            mode,
            res,
        ),
        build_end(m.cb) is Empty ==> post.trace == m.trace && post.w == m.w && (res matches Ok(r) && r.outs == g.outs && (
        forall|e: u64| g.deps.contains(e) || m.cb->Build_ext.contains(e) ==> #[trigger] r.deps.contains(e))),
        build_end(m.cb) is Submitted ==> post.trace == m.trace && post.w == m.w && res == Ok::<GatheredView, Error>(g),
{
    if build_end(m.cb) is Finish {
        let q = choose|q: Reply|
            {
                let t = #[trigger] cb_finished(m, q);
                match q {
                    Err(_) => gathers_of(op, given_up(start, t), post, mode, res),
                    Ok(cb) => exists|u: Walk, j: OpResult<u64>|
                        (#[trigger] enqueue_runs(t, cb, u, j)) && delivered(g, u, j, post, res),
                }
            };
        if let Ok(cb) = q {
            let t = cb_finished(m, q);
            let (u, j) = choose|u: Walk, j: OpResult<u64>|
                (#[trigger] enqueue_runs(t, cb, u, j)) && delivered(g, u, j, post, res);
            assert(u.trace[m.trace.len() as int] == t.trace[m.trace.len() as int]);
        }
        q
    } else {
        if build_end(m.cb) is Empty {
            let r = res->Ok_0;
            assert forall|e: u64| g.deps.contains(e) || m.cb->Build_ext.contains(e) implies #[trigger] r.deps.contains(
                e,
            ) by {
                if g.deps.contains(e) {
                    assert(r.deps[g.deps.index_of(e)] == e);
                } else {
                    assert(r.deps[g.deps.len() + m.cb->Build_ext.index_of(e)] == e);
                }
            }
        }
        Err(0)
    }
}

/// A replay inside which the command buffer was submitted already ends as its walk ended.
pub proof fn law_replay_is_submitted_once(
    op: DeviceOp,
    pre: Walk,
    post: Walk,
    mode: ExecMode,
    cb: u64,
) -> (m: Walk)
    requires
        cache_of(op) is Some,
        usable_cb(pre.w, cache_of(op)->Some_0, pre.queue) == Some(cb),
        boundary_runs(op, pre, post, mode, Ok(())),
    ensures
        runs_of(op, pre.in_mode(replay_mode(cache_of(op)->Some_0)), m, mode, Ok(())),
        m.cb.is_closed() ==> post.trace == m.trace && post.w == m.w,
        !m.cb.is_closed() ==> post.trace.len() == m.trace.len() + 1 && post.trace.last().command == (Command::EnqueueCb {
            cb,
        }) && post.trace.last().waits == m.cb.ext(),
        post.cb is Off,
{
    let res = Ok::<(), Error>(());
    let cache = cache_of(op)->Some_0;
    let s = pre.in_mode(replay_mode(cache));
    let (m, r) = choose|m: Walk, r: OpResult<()>|
        (#[trigger] passes(m, r)) && runs_of(op, s, m, mode, r) && match r {
            Err(e) => post == m.in_mode(WalkMode::Off) && res == Err::<(), Error>(e),
            Ok(_) => if m.cb.is_closed() {
                post == m.in_mode(WalkMode::Off) && res == Ok::<(), Error>(())
            } else {
                exists|t: Walk, j: OpResult<u64>|
                    (#[trigger] enqueue_runs(m, cb, t, j)) && submitted(op, t, j, post, res)
            },
        };
    assert(r->Ok_0 == ());
    m
}

/// Once a command buffer was submitted, what follows runs as if there were none; until then it
/// goes on with it. It is abandoned where it was closed without being finished and misses a
/// command.
pub proof fn law_submitted_buffer_counts_as_none(m: WalkMode, deps: Seq<u64>, ptrs: Seq<u64>)
    ensures
        match m {
            WalkMode::Off => !m.is_closed() && m.live() is Off && !m.is_abandoned() && m.close() == m && m.with_ext(deps) == m
                && m.with_svm(ptrs) == m && m.ext().len() == 0 && m.svm().len() == 0,
            WalkMode::Build { builder, ext, svm, cache, closed } => {
                &&& m.is_closed() <==> closed
                &&& closed ==> m.live() is Off
                &&& !closed ==> m.live() == m
                &&& m.is_abandoned() <==> closed && !builder.finalized && !builder.eligible
                &&& m.ext() == ext && m.svm() == svm
                &&& m.close() == (WalkMode::Build { builder, ext, svm, cache, closed: true })
                &&& m.with_ext(deps) == (WalkMode::Build { builder, ext: ext + deps, svm, cache, closed })
                &&& m.with_svm(ptrs) == (WalkMode::Build { builder, ext, svm: svm + ptrs, cache, closed })
            },
            WalkMode::LendOnly { ext, svm, cache, closed } => {
                &&& m.is_closed() <==> closed
                &&& closed ==> m.live() is Off
                &&& !closed ==> m.live() == m
                &&& !m.is_abandoned()
                &&& m.ext() == ext && m.svm() == svm
                &&& m.close() == (WalkMode::LendOnly { ext, svm, cache, closed: true })
                &&& m.with_ext(deps) == (WalkMode::LendOnly { ext: ext + deps, svm, cache, closed })
                &&& m.with_svm(ptrs) == (WalkMode::LendOnly { ext, svm: svm + ptrs, cache, closed })
            },
        },
{
}

/// A part whose value is taken or whose outputs are checked out: once the command buffer around
/// it was submitted, that is done outside of it, and the walk goes on with it as submitted; else
/// it is done as for any op.
pub proof fn law_parts_run_outside_a_submitted_buffer(
    op: DeviceOp,
    pre: Walk,
    post: Walk,
    mode: ExecMode,
    a: OpResult<ParcelView>,
    b: OpResult<GatheredView>,
)
    ensures
        pre.cb.is_closed() && child_collects(op, pre, post, mode, a) ==> exists|m: Walk|
            #[trigger] passes(m, ()) && collects_of(op, pre.in_mode(WalkMode::Off), m, mode, a) && post == m.in_mode(
                pre.cb,
            ),
        !pre.cb.is_closed() && child_collects(op, pre, post, mode, a) ==> collects_of(op, pre, post, mode, a),
        pre.cb.is_closed() && child_gathers(op, pre, post, mode, b) ==> exists|m: Walk|
            #[trigger] passes(m, ()) && child_gathers(op, pre.in_mode(WalkMode::Off), m, mode, b) && post == m.in_mode(
                pre.cb,
            ),
        !pre.cb.is_closed() && !opens_boundary(op, pre) && child_gathers(op, pre, post, mode, b) ==> node_gathers(
            op,
            pre,
            post,
            mode,
            b,
        ),
{
    if pre.cb.is_closed() && child_gathers(op, pre, post, mode, b) {
        let m = choose|m: Walk|
            (#[trigger] passes(m, ())) && open_child_gathers(op, pre.in_mode(WalkMode::Off), m, mode, b) && post
                == m.in_mode(pre.cb);
        assert(passes(m, ()));
        assert(child_gathers(op, pre.in_mode(WalkMode::Off), m, mode, b));
    }
}

} // verus!
