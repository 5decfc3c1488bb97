//! Command buffers: what a node keeps, and how a recorded command is tied to
//! the values it depends on.

use crate::error::{Error, OpResult};
use crate::exec_ctx::{buffer_uses, kept, BuilderView, CbWalk, Driver, ExecutionContext, Walk, WalkMode};
use crate::launch::InFlight;
use crate::ids::{extend_ids, ids_meet, IdSet};
use crate::obj::{Command, Reply};
use crate::store::{CbView, FinalizedCb, Store, World};
use vstd::prelude::*;

verus! {

/// A place for a node to keep its command buffer.
pub type CbCache = u64;

/// A fresh place to keep a command buffer.
pub fn new_cb_cache(st: &mut Store) -> (r: CbCache)
    requires
        old(st)@.next < u64::MAX,
    ensures
        r == old(st)@.next,
        final(st)@ == old(st)@.fresh_ids(1nat),
{
    st.fresh()
}

/// Drop the command buffer kept at `cache` if it captured one of the slots in
/// `mutated`.
pub fn cb_cache_invalidate(st: &mut Store, cache: CbCache, mutated: &IdSet)
    ensures
        final(st)@ == old(st)@.invalidated(cache, mutated@),
{
    let stale: bool = match st.cached(cache) {
        Some(cb) => cb.slots.meets(mutated),
        None => false,
    };
    if stale {
        st.forget(cache);
    }
}

/// The handle of the command buffer kept at `cache`, as a list of none or one.
pub open spec fn kept_handle(w: World, cache: CbCache) -> Seq<u64> {
    match w.cached(cache) {
        Some(cb) => seq![cb.handle],
        None => Seq::empty(),
    }
}

/// Append the handle of the command buffer kept at `cache`, if there is one.
pub fn cb_cache_collect_id(st: &Store, cache: CbCache, out: &mut Vec<u64>)
    ensures
        final(out)@ == old(out)@ + kept_handle(st@, cache),
{
    if let Some(cb) = st.cached(cache) {
        out.push(cb.handle);
    }
    assert(out@ =~= old(out)@ + kept_handle(st@, cache));
}

/// Add the events of `deps` to those that a command buffer waits on from
/// outside.
pub fn cb_collect_external(ext: &mut Vec<u64>, deps: &Vec<u64>)
    ensures
        final(ext)@ == old(ext)@ + deps@,
{
    if deps.len() > 0 {
        extend_ids(ext, deps);
    }
    assert(ext@ =~= old(ext)@ + deps@);
}

/// The slots that a value comes from: those upstream of its pipe, and its own
/// slot.
pub fn cb_origins_of<D: Driver>(ec: &ExecutionContext<D>, slot_id: Option<u64>, pipe_id: Option<u64>) -> (r: IdSet)
    ensures
        r@ == ec@.origins(slot_id, pipe_id),
{
    let mut origins = ec.cb_reach_of(pipe_id);
    if let Some(s) = slot_id {
        origins.insert(s);
    }
    origins
}

/// The run after a leaf prepared to record a command on a value that comes from
/// `in_slot` or `in_pipe` and goes to `out_cell`.
pub open spec fn leaf_built(
    s: Walk,
    deps: Seq<u64>,
    in_slot: Option<u64>,
    in_pipe: Option<u64>,
    out_cell: u64,
) -> Walk {
    let origins = s.origins(in_slot, in_pipe);
    s.external(deps).noting(origins).reaching(out_cell, origins)
}

/// Prepare to record a command: note the events from outside and the slots that
/// the command depends on, and pass those slots on to the output. The answer is
/// the sync points that the command waits on.
pub fn cb_leaf_build<D: Driver>(
    ec: &mut ExecutionContext<D>,
    deps: &Vec<u64>,
    in_slot: Option<u64>,
    in_pipe: Option<u64>,
    out_cell: u64,
) -> (r: IdSet)
    ensures
        r@ == old(ec)@.sp_of(in_pipe),
        final(ec)@ == leaf_built(old(ec)@, deps@, in_slot, in_pipe, out_cell),
{
    ec.collect_external(deps);
    let waits = ec.sp_lookup(in_pipe);
    let origins = cb_origins_of(ec, in_slot, in_pipe);
    ec.note_slots(&origins);
    ec.cb_reach_extend(out_cell, &origins);
    waits
}

/// Pass the slots that a value comes from on to another pipe.
pub fn cb_forward_reach<D: Driver>(
    ec: &mut ExecutionContext<D>,
    in_slot: Option<u64>,
    src_cell: Option<u64>,
    out_cell: u64,
)
    ensures
        final(ec)@ == old(ec)@.reaching(out_cell, old(ec)@.origins(in_slot, src_cell)),
{
    let origins = cb_origins_of(ec, in_slot, src_cell);
    ec.cb_reach_extend(out_cell, &origins);
}

/// The run after a value was passed through unchanged: its sync points and
/// slots go along.
pub open spec fn passed_through(s: Walk, in_slot: Option<u64>, src: Option<u64>, out: u64) -> Walk {
    let t = s.with_sp(out, s.sp_of(src));
    t.reaching(out, t.origins(in_slot, src))
}

/// Pass a value through unchanged: its sync points and slots go along.
pub fn cb_forward_passthrough<D: Driver>(
    ec: &mut ExecutionContext<D>,
    in_slot: Option<u64>,
    src_cell: Option<u64>,
    out_cell: u64,
)
    ensures
        final(ec)@ == passed_through(old(ec)@, in_slot, src_cell, out_cell),
{
    let sps = ec.sp_lookup(src_cell);
    ec.sp_register(out_cell, sps);
    cb_forward_reach(ec, in_slot, src_cell, out_cell);
}

/// The command buffer kept at `cache`, if it was built for `queue`.
pub open spec fn usable_cb(w: World, cache: CbCache, queue: u64) -> Option<u64> {
    match w.cached(cache) {
        Some(cb) => if cb.queue == queue {
            Some(cb.handle)
        } else {
            None
        },
        None => None,
    }
}

/// The command buffer kept at `cache`, if it was built for `queue`.
pub fn cb_lookup_cached(st: &Store, cache: CbCache, queue: u64) -> (r: Option<u64>)
    ensures
        r == usable_cb(st@, cache, queue),
{
    match st.cached(cache) {
        Some(cb) => if cb.queue == queue {
            Some(cb.handle)
        } else {
            None
        },
        None => None,
    }
}

/// The events that the command buffer of the run waits on from outside.
pub fn drain_ext<D: Driver>(ec: &ExecutionContext<D>) -> (r: Vec<u64>)
    ensures
        r@ == ec@.cb.ext(),
{
    ec.ext_deps()
}

/// Whether the command buffer of the run was submitted before the end of the
/// walk.
pub fn cb_span_closed<D: Driver>(ec: &ExecutionContext<D>) -> (r: bool)
    ensures
        r == ec@.cb.is_closed(),
{
    match ec.cb() {
        CbWalk::Build { closed, .. } => *closed,
        CbWalk::LendOnly { closed, .. } => *closed,
        CbWalk::Off => false,
    }
}

/// The run once its command buffer counts as submitted.
pub open spec fn span_marked(s: Walk) -> Walk {
    s.in_mode(s.cb.close())
}

/// The run once the driver finished the command buffer under construction: it
/// is kept at its node.
pub open spec fn span_finished(s: Walk, handle: u64) -> Walk {
    match s.cb {
        WalkMode::Build { builder, cache, .. } => s.in_mode(
            s.cb.with_builder(BuilderView { finalized: true, ..builder }),
        ).at(s.w.keeping(cache, CbView { handle, queue: s.queue, slots: builder.slots })),
        _ => s,
    }
}

/// The run once the driver refused to finish the command buffer under
/// construction.
pub open spec fn span_unusable(s: Walk) -> Walk {
    match s.cb {
        WalkMode::Build { builder, .. } => s.in_mode(
            s.cb.with_builder(BuilderView { eligible: false, ..builder }),
        ),
        _ => s,
    }
}

/// The run after a finished command buffer was submitted: it waits on the events from
/// outside, and the shared memory that its launches use is used until its event.
pub open spec fn cb_enqueued(s: Walk, cb: u64, r: Reply) -> Walk {
    let t = s.issued(Command::EnqueueCb { cb }, s.cb.ext(), r);
    match r {
        Ok(ev) => t.at(t.w.using(buffer_uses(s.cb.svm(), ev))),
        Err(_) => t,
    }
}

/// Submit a finished command buffer.
pub fn cb_enqueue<D: Driver>(ec: &mut ExecutionContext<D>, cb: u64) -> (r: Reply)
    ensures
        final(ec)@ == cb_enqueued(old(ec)@, cb, r),
        kept(old(ec)@, final(ec)@),
{
    let ghost pre = ec@;
    let waits: Vec<u64> = drain_ext(ec);
    let r: Reply = ec.issue(Command::EnqueueCb { cb }, &waits);
    let ghost t = ec@;
    if let Ok(ev) = r {
        let uses: Vec<InFlight> = ec.cb_uses(ev);
        ec.note_uses(&uses);
        assert(kept(pre, t) && kept(t, ec@));
    }
    r
}

/// Closing a span: the run afterwards, and the event of the submitted command
/// buffer. A command buffer that misses a command is not submitted. `r1` and `r2` are the driver's answers, in order.
pub open spec fn span_closed(pre: Walk, r1: Reply, r2: Reply) -> (Walk, OpResult<Option<u64>>) {
    if pre.cb is Off || pre.cb.is_closed() {
        (pre, Ok(None))
    } else {
        let s = span_marked(pre);
        match pre.cb {
            WalkMode::LendOnly { cache, .. } => match usable_cb(pre.w, cache, pre.queue) {
                Some(cb) => (
                    cb_enqueued(s, cb, r1),
                    match r1 {
                        Ok(ev) => Ok(Some(ev)),
                        Err(c) => Err(Error::OpenCl(c)),
                    },
                ),
                None => (s, Ok(None)),
            },
            WalkMode::Build { builder, .. } => if !builder.eligible || builder.recorded.len() == 0 {
                (s, Ok(None))
            } else {
                let t = s.issued(
                    Command::FinalizeCb { builder: builder.handle },
                    Seq::empty(),
                    r1,
                );
                match r1 {
                    Err(_) => (span_unusable(t), Ok(None)),
                    Ok(cb) => (
                        cb_enqueued(span_finished(t, cb), cb, r2),
                        match r2 {
                            Ok(ev) => Ok(Some(ev)),
                            Err(c) => Err(Error::OpenCl(c)),
                        },
                    ),
                }
            },
            WalkMode::Off => (pre, Ok(None)),
        }
    }
}

/// Finish the command buffer under construction and keep it at its node.
pub fn cb_finish<D: Driver>(ec: &mut ExecutionContext<D>) -> (r: Option<u64>)
    requires
        old(ec)@.cb is Build,
    ensures
        exists|reply: Reply|
            {
                &&& final(ec)@ == (#[trigger] cb_finished(old(ec)@, reply))
                &&& r == (match reply {
                    Ok(cb) => Some(cb),
                    Err(_) => None::<u64>,
                })
            },
        kept(old(ec)@, final(ec)@),
{
    let none: Vec<u64> = Vec::new();
    let handle: u64 = match ec.cb() {
        CbWalk::Build { builder, .. } => builder.handle(),
        _ => 0,
    };
    let reply: Reply = ec.issue(Command::FinalizeCb { builder: handle }, &none);
    match reply {
        Err(_) => {
            ec.mark_ineligible();
            assert(none@ =~= Seq::<u64>::empty());
            assert(ec@ == cb_finished(old(ec)@, reply));
            None
        },
        Ok(cb) => {
            let queue: u64 = ec.cl_queue();
            if let CbWalk::Build { builder, cache, .. } = ec.cb() {
                let at: u64 = *cache;
                let kept = FinalizedCb { handle: cb, queue, slots: builder.slots() };
                ec.mark_finalized();
                ec.keep(at, kept);
            }
            assert(none@ =~= Seq::<u64>::empty());
            assert(ec@ =~= cb_finished(old(ec)@, reply));
            Some(cb)
        },
    }
}

/// The run after the driver was asked to finish the command buffer under
/// construction.
pub open spec fn cb_finished(s: Walk, reply: Reply) -> Walk {
    match s.cb {
        WalkMode::Build { builder, .. } => {
            let t = s.issued(Command::FinalizeCb { builder: builder.handle }, Seq::empty(), reply);
            match reply {
                Err(_) => span_unusable(t),
                Ok(cb) => span_finished(t, cb),
            }
        },
        _ => s,
    }
}

/// Submit the command buffer of the run before its walk ends. The first call
/// submits it, unless it is empty or cannot be used; a later call, or one outside a command buffer, does nothing. The
/// answer is the completion event, where something was submitted.
pub fn cb_close_span<D: Driver>(ec: &mut ExecutionContext<D>) -> (r: OpResult<Option<u64>>)
    ensures
        exists|r1: Reply, r2: Reply| (#[trigger] span_closed(old(ec)@, r1, r2)) == (final(ec)@, r),
        kept(old(ec)@, final(ec)@),
{
    let ghost pre = ec@;
    let ghost no: Reply = Err(0);
    if cb_span_closed(ec) {
        assert(span_closed(pre, no, no) == (ec@, Ok::<Option<u64>, Error>(None)));
        return Ok(None);
    }
    let queue: u64 = ec.cl_queue();
    let replay: Option<u64> = match ec.cb() {
        CbWalk::Off => {
            assert(span_closed(pre, no, no) == (ec@, Ok::<Option<u64>, Error>(None)));
            return Ok(None);
        },
        CbWalk::LendOnly { cache, .. } => Some(*cache),
        CbWalk::Build { .. } => None,
    };
    let empty: bool = match ec.cb() {
        CbWalk::Build { builder, .. } => !builder.is_eligible() || builder.recorded() == 0,
        _ => false,
    };
    ec.close();
    if let Some(cache) = replay {
        let found: Option<u64> = cb_lookup_cached(ec.store(), cache, queue);
        match found {
            None => {
                assert(span_closed(pre, no, no) == (ec@, Ok::<Option<u64>, Error>(None)));
                Ok(None)
            },
            Some(cb) => {
                let r1: Reply = cb_enqueue(ec, cb);
                match r1 {
                    Ok(ev) => {
                        assert(span_closed(pre, r1, no) == (ec@, Ok::<Option<u64>, Error>(Some(ev))));
                        Ok(Some(ev))
                    },
                    Err(c) => {
                        assert(span_closed(pre, r1, no) == (
                            ec@,
                            Err::<Option<u64>, Error>(Error::OpenCl(c)),
                        ));
                        Err(Error::OpenCl(c))
                    },
                }
            },
        }
    } else {
        if empty {
            assert(span_closed(pre, no, no) == (ec@, Ok::<Option<u64>, Error>(None)));
            return Ok(None);
        }
        let ghost marked = ec@;
        let finished: Option<u64> = cb_finish(ec);
        let ghost r1 = choose|reply: Reply|
            {
                &&& ec@ == (#[trigger] cb_finished(marked, reply))
                &&& finished == (match reply {
                    Ok(cb) => Some(cb),
                    Err(_) => None::<u64>,
                })
            };
        match finished {
            None => {
                assert(span_closed(pre, r1, no) == (ec@, Ok::<Option<u64>, Error>(None)));
                Ok(None)
            },
            Some(cb) => {
                let r2: Reply = cb_enqueue(ec, cb);
                match r2 {
                    Ok(ev) => {
                        assert(span_closed(pre, r1, r2) == (ec@, Ok::<Option<u64>, Error>(Some(ev))));
                        Ok(Some(ev))
                    },
                    Err(c) => {
                        assert(span_closed(pre, r1, r2) == (
                            ec@,
                            Err::<Option<u64>, Error>(Error::OpenCl(c)),
                        ));
                        Err(Error::OpenCl(c))
                    },
                }
            },
        }
    }
}

/// A span closes once: after a close, also one that the driver refused, another one
/// changes nothing and submits nothing.
pub proof fn law_span_closes_once(s: Walk, r1: Reply, r2: Reply, q1: Reply, q2: Reply)
    ensures
        span_closed(span_closed(s, r1, r2).0, q1, q2) == (
            span_closed(s, r1, r2).0,
            Ok::<Option<u64>, Error>(None),
        ),
{
}

/// The first command of a command buffer waits on no sync point: those of an
/// earlier command buffer do not count in it.
pub proof fn law_fresh_buffer_has_no_sync_points(s: Walk, builder: u64, cache: CbCache, pipe: Option<u64>)
    ensures
        s.building(builder, cache).sp_of(pipe) == Seq::<u64>::empty(),
{
}

/// A command buffer that misses a command is never submitted, and nothing is
/// asked of the queue on its account.
pub proof fn law_incomplete_buffer_is_not_submitted(s: Walk, r1: Reply, r2: Reply)
    requires
        s.cb matches WalkMode::Build { builder, closed, .. } && !builder.eligible && !builder.finalized && !closed,
    ensures
        span_closed(s, r1, r2).1 == Ok::<Option<u64>, Error>(None),
        span_closed(s, r1, r2).0.trace == s.trace,
        span_closed(s, r1, r2).0.w == s.w,
        span_closed(s, r1, r2).0.cb.is_abandoned(),
{
}

/// A command buffer that was kept is replayed only on the queue that it was
/// built for.
pub proof fn law_replay_needs_same_queue(w: World, cache: CbCache, queue: u64)
    ensures
        usable_cb(w, cache, queue) matches Some(h) ==> w.cached(cache) matches Some(cb) && cb.queue
            == queue && cb.handle == h,
{
}

/// Changing slots drops exactly the command buffers that captured one of them.
pub proof fn law_invalidation_is_precise(w: World, cache: CbCache, other: CbCache, mutated: Seq<u64>)
    ensures
        w.cached(cache) matches Some(cb) ==> (w.invalidated(cache, mutated).cached(cache)
            is None <==> ids_meet(cb.slots, mutated)),
        other != cache ==> w.invalidated(cache, mutated).cached(other) == w.cached(other),
        w.invalidated(cache, mutated).pipes == w.pipes,
        w.invalidated(cache, mutated).slots == w.slots,
        w.invalidated(cache, mutated).cells == w.cells,
{
}

} // verus!
