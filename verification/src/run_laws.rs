//! What runs promise: nothing is lost, what was lent comes back, and the start
//! barrier opens on every way out.

use crate::cb::cb_enqueued;
use crate::chain::{
    chain_enqueued, chain_failed, chain_flushed, chain_marked, chain_starts, forgets_queue, joins,
    joins_from, preferred, releases, winds_down, ChainStart,
};
use crate::error::{Error, OpResult};
use crate::exec_ctx::{buffer_uses, kept, ExecMode, Walk};
use crate::graph::{ready_of, DeviceOp};
use crate::host::CL_COMPLETE;
use crate::input::{barrier_deps, found, Input};
use crate::launch::InFlight;
use crate::launch_op::{handed_on, TakenView};
use crate::leaf::{leaf_after, work_command, worked, Leaf, Style, Work};
use crate::leaves::{download_after, Download};
use crate::obj::{is_svm, Command, Home, Issued, Obj, Reply};
use crate::seeds::{lemma_waits_alone, reseed_command, reseeded, seed_after, seeded_obj, waited_out, waits_for, Seed};
use crate::store::{noted, until, ParcelView, Pipe, World};
use crate::terminals::syncs;
use crate::walk::{collects_of, orphans_threaded, passes, CheckoutView};
use vstd::prelude::*;

verus! {

/// A graph that is not ready is refused whole: nothing is enqueued and no cell
/// changes.
pub proof fn law_unready_graph_is_untouched(op: DeviceOp, pre: Walk, post: Walk, e: Error)
    requires
        ready_of(op, pre.w) == Err::<(), Error>(e),
    ensures
        forall|s: ChainStart|
            (#[trigger] chain_starts(op, pre, post, s)) ==> post == pre && s == ChainStart::Errored(e),
        forall|r: OpResult<Seq<CheckoutView>>|
            (#[trigger] syncs(op, pre, post, r)) ==> post == pre && r == Err::<Seq<CheckoutView>, Error>(e),
{
}

/// A value without an upstream op waits on the start barrier of its run.
pub proof fn law_entries_wait_on_barrier(w: World, barrier: Option<u64>, input: Input)
    requires
        found(w, barrier, input) is Ok,
        match input {
            Input::Concrete(_) => true,
            Input::Slot { cell, .. } => w.slot(cell) is Bound,
            Input::Pipe(_) | Input::Scalar { .. } => false,
        },
    ensures
        found(w, barrier, input)->Ok_0.deps == barrier_deps(barrier),
{
}

/// Whether a run opened the barrier `ev` between two states.
pub open spec fn opened(pre: Walk, post: Walk, ev: u64) -> bool {
    exists|i: int|
        pre.trace.len() <= i < post.trace.len() && (#[trigger] post.trace[i]).command == (Command::Complete {
            event: ev,
            status: CL_COMPLETE,
        })
}

/// Whether the commands of `a` are the first of `b`.
pub open spec fn extends(a: Walk, b: Walk) -> bool {
    &&& a.trace.len() <= b.trace.len()
    &&& forall|i: int| 0 <= i < a.trace.len() ==> a.trace[i] == #[trigger] b.trace[i]
}

proof fn lemma_joins_extend(workers: Seq<u64>, i: nat, pre: Walk, post: Walk)
    requires
        joins_from(workers, i, pre, post),
    ensures
        extends(pre, post),
    decreases workers.len() - i,
{
    if i < workers.len() {
        let x = choose|x: Reply|
            joins_from(
                workers,
                i + 1,
                #[trigger] pre.issued(Command::Join { worker: workers[i as int] }, Seq::empty(), x),
                post,
            );
        let s = pre.issued(Command::Join { worker: workers[i as int] }, Seq::empty(), x);
        lemma_joins_extend(workers, i + 1, s, post);
        assert forall|k: int| 0 <= k < pre.trace.len() implies pre.trace[k] == #[trigger] post.trace[k] by {
            assert(s.trace[k] == post.trace[k]);
        }
    }
}

proof fn lemma_winding_down_extends(pre: Walk, post: Walk)
    requires
        winds_down(pre, post),
    ensures
        extends(pre, post),
{
    let m = choose|m: Walk| #[trigger] passes(m, ()) && joins(pre, m) && forgets_queue(m, post);
    lemma_joins_extend(pre.workers, 0, Walk { workers: Seq::empty(), ..pre }, m);
    assert forall|k: int| 0 <= k < pre.trace.len() implies pre.trace[k] == #[trigger] post.trace[k] by {
        assert(pre.trace[k] == m.trace[k]);
    }
}

proof fn lemma_release_opens(pre: Walk, mid: Walk, post: Walk, ev: u64)
    requires
        pre.start == Some(ev),
        releases(pre, mid),
        extends(mid, post),
    ensures
        opened(pre, post, ev),
{
    let k = pre.trace.len() as int;
    assert(mid.trace[k].command == (Command::Complete { event: ev, status: CL_COMPLETE }));
    assert(post.trace[k] == mid.trace[k]);
}

/// The start barrier of a run opens on every way out: success, a failure while
/// the graph is enqueued, and a refusal of the marker or the flush.
pub proof fn law_barrier_always_opens(op: DeviceOp, pre: Walk, post: Walk, res: ChainStart, ev: u64)
    requires
        pre.start == Some(ev),
        chain_enqueued(op, pre, post, res),
    ensures
        opened(pre, post, ev),
{
    let (m, h) = choose|m: Walk, h: OpResult<ParcelView>|
        #[trigger] passes(m, h) && kept(pre, m) && collects_of(op, pre, m, ExecMode::Pipelined, h)
            && match h {
            Err(e) => chain_failed(m, e, post, res),
            Ok(p) => chain_marked(p, m, post, res),
        };
    match h {
        Err(e) => {
            let (m1, m2, host) = choose|m1: Walk, m2: Walk, host: Option<Error>|
                #[trigger] passes(m1, (m2, host)) && releases(m, m1) && winds_down(m1, m2) && post == (Walk {
                    host_reads: m2.host_reads.push(host),
                    ..m2
                }) && res == ChainStart::Errored(preferred(host, e));
            lemma_winding_down_extends(m1, m2);
            assert(extends(m1, post));
            lemma_release_opens(m, m1, post, ev);
            lemma_opened_later(pre, m, post, ev);
        },
        Ok(p) => {
            let q = choose|q: Reply|
                {
                    let s = #[trigger] m.issued(Command::Marker, p.deps, q);
                    match q {
                        Err(c) => exists|m1: Walk|
                            #[trigger] passes(m1, ()) && releases(s, m1) && winds_down(m1, post) && res
                                == ChainStart::Errored(Error::OpenCl(c)),
                        Ok(marker) => exists|m1: Walk|
                            #[trigger] passes(m1, ()) && releases(s, m1) && chain_flushed(
                                p,
                                marker,
                                m1,
                                post,
                                res,
                            ),
                    }
                };
            let s = m.issued(Command::Marker, p.deps, q);
            match q {
                Err(c) => {
                    let m1 = choose|m1: Walk|
                        #[trigger] passes(m1, ()) && releases(s, m1) && winds_down(m1, post) && res
                            == ChainStart::Errored(Error::OpenCl(c));
                    lemma_winding_down_extends(m1, post);
                    lemma_release_opens(s, m1, post, ev);
                },
                Ok(marker) => {
                    let m1 = choose|m1: Walk|
                        #[trigger] passes(m1, ()) && releases(s, m1) && chain_flushed(p, marker, m1, post, res);
                    lemma_flush_extends(p, marker, m1, post, res);
                    lemma_release_opens(s, m1, post, ev);
                },
            }
            lemma_opened_later(pre, s, post, ev);
        },
    }
}

proof fn lemma_opened_later(pre: Walk, mid: Walk, post: Walk, ev: u64)
    requires
        pre.trace.len() <= mid.trace.len(),
        opened(mid, post, ev),
    ensures
        opened(pre, post, ev),
{
    let i = choose|i: int|
        mid.trace.len() <= i < post.trace.len() && (#[trigger] post.trace[i]).command == (Command::Complete {
            event: ev,
            status: CL_COMPLETE,
        });
    assert(post.trace[i].command == (Command::Complete { event: ev, status: CL_COMPLETE }));
}

proof fn lemma_flush_extends(p: ParcelView, marker: u64, m: Walk, post: Walk, res: ChainStart)
    requires
        chain_flushed(p, marker, m, post, res),
    ensures
        extends(m, post),
{
    let q = choose|q: Reply|
        {
            let s = #[trigger] m.issued(Command::Flush, Seq::empty(), q);
            match q {
                Err(c) => winds_down(s, post) && res == ChainStart::Errored(Error::OpenCl(c)),
                Ok(_) => post == s && res == (ChainStart::Running { output: p.value, event: marker }),
            }
        };
    let s = m.issued(Command::Flush, Seq::empty(), q);
    if q is Err {
        lemma_winding_down_extends(s, post);
        assert forall|k: int| 0 <= k < m.trace.len() implies m.trace[k] == #[trigger] post.trace[k] by {
            assert(s.trace[k] == post.trace[k]);
        }
    }
}

/// A graph that was started behind a barrier ends with the marker, then the
/// opening of the barrier, then the flush: all of it, the marker included, is
/// enqueued before any of it can run.
pub proof fn law_marker_is_set_before_barrier_opens(
    op: DeviceOp,
    pre: Walk,
    post: Walk,
    output: Seq<Obj>,
    event: u64,
    ev: u64,
)
    requires
        pre.start == Some(ev),
        chain_enqueued(op, pre, post, ChainStart::Running { output, event }),
    ensures
        ({
            let n = post.trace.len() as int;
            &&& n >= 3
            &&& post.trace[n - 3].command is Marker
            &&& post.trace[n - 3].reply == Ok::<u64, i32>(event)
            &&& post.trace[n - 2].command == (Command::Complete { event: ev, status: CL_COMPLETE })
            &&& post.trace[n - 1].command is Flush
        }),
{
    let res = ChainStart::Running { output, event };
    let (m, h) = choose|m: Walk, h: OpResult<ParcelView>|
        #[trigger] passes(m, h) && kept(pre, m) && collects_of(op, pre, m, ExecMode::Pipelined, h)
            && match h {
            Err(e) => chain_failed(m, e, post, res),
            Ok(p) => chain_marked(p, m, post, res),
        };
    let p = h->Ok_0;
    assert(chain_marked(p, m, post, res));
    let q = choose|q: Reply|
        {
            let s = #[trigger] m.issued(Command::Marker, p.deps, q);
            match q {
                Err(c) => exists|m1: Walk|
                    #[trigger] passes(m1, ()) && releases(s, m1) && winds_down(m1, post) && res
                        == ChainStart::Errored(Error::OpenCl(c)),
                Ok(marker) => exists|m1: Walk|
                    #[trigger] passes(m1, ()) && releases(s, m1) && chain_flushed(p, marker, m1, post, res),
            }
        };
    let s = m.issued(Command::Marker, p.deps, q);
    let marker = q->Ok_0;
    let m1 = choose|m1: Walk|
        #[trigger] passes(m1, ()) && releases(s, m1) && chain_flushed(p, marker, m1, post, res);
    let x = choose|x: Reply|
        m1 == #[trigger] s.issued(Command::Complete { event: ev, status: CL_COMPLETE }, Seq::empty(), x);
    let f = choose|f: Reply|
        {
            let t = #[trigger] m1.issued(Command::Flush, Seq::empty(), f);
            match f {
                Err(c) => winds_down(t, post) && res == ChainStart::Errored(Error::OpenCl(c)),
                Ok(_) => post == t && res == (ChainStart::Running { output: p.value, event: marker }),
            }
        };
    assert(post == m1.issued(Command::Flush, Seq::empty(), f));
    assert(marker == event);
}

/// Whether an op acts on its value in place: the output is owed to where the
/// input came from.
pub open spec fn in_place(l: Leaf) -> bool {
    l.keep_home && match l.work {
        Work::Fill(_) | Work::Write(_) | Work::ReadInto(_) | Work::WriteImage { .. } | Work::ReadImage { .. }
        | Work::FillImage { .. } => true,
        _ => false,
    }
}

/// An op that acts in place on a value of the graph's own hands it out with its
/// home: once it is given back, the input holds the same memory, and the next run
/// acts on it again.
pub proof fn law_in_place_ops_rearm(l: Leaf, pre: Walk, mode: ExecMode, r1: Reply, r2: Reply, barrier: Option<u64>)
    requires
        in_place(l),
        leaf_after(l, pre, mode, r1, r2).1 is Ok,
        match l.input {
            Input::Concrete(_) => true,
            Input::Slot { cell, .. } => pre.w.slot(cell) is Bound,
            Input::Pipe(_) | Input::Scalar { .. } => false,
        },
    ensures
        ({
            let before = found(pre.w, pre.start, l.input)->Ok_0;
            let post = leaf_after(l, pre, mode, r1, r2).0;
            let out = post.w.parcel(l.out.cell);
            &&& out matches Some(p) && p.home == before.home && p.value.len() == 1 && p.value[0].id
                == before.value[0].id
            &&& ({
                let back = post.w.reclaimed(l.out.cell);
                found(back, barrier, l.input) matches Ok(q) && q.value.len() == 1 && q.value[0].id
                    == before.value[0].id
            })
        }),
{
}

/// An op that takes its value from the graph and sends its command to the queue
/// waits on exactly the events of that value, and its output waits on exactly
/// the command.
pub proof fn law_ops_wait_on_their_input(l: Leaf, pre: Walk, ev: u64, r2: Reply)
    requires
        pre.cb is Off,
        l.style != Style::Host,
        leaf_after(l, pre, ExecMode::Pipelined, Ok(ev), r2).1 is Ok,
    ensures
        ({
            let p = found(pre.w, pre.start, l.input)->Ok_0;
            let post = leaf_after(l, pre, ExecMode::Pipelined, Ok(ev), r2).0;
            &&& post.trace == pre.trace.push(
                Issued {
                    queue: pre.queue,
                    command: work_command(l.work, p.value[0], false),
                    waits: p.deps,
                    reply: Ok(ev),
                },
            )
            &&& post.w.parcel(l.out.cell) == Some(
                ParcelView {
                    value: seq![worked(l.work, p.value[0])],
                    deps: seq![ev],
                    home: l.out_home(p),
                },
            )
        }),
{
}

/// A download gives its buffer back: the input is as it was before the run.
pub proof fn law_download_gives_buffer_back(d: Download, pre: Walk, mode: ExecMode, r1: Reply, r2: Reply)
    requires
        download_after(d, pre, mode, r1, r2).1 is Ok,
        match d.buf {
            Input::Concrete(_) => true,
            Input::Slot { cell, .. } => pre.w.slot(cell) is Bound,
            Input::Pipe(_) | Input::Scalar { .. } => false,
        },
    ensures
        ({
            let post = download_after(d, pre, mode, r1, r2).0;
            &&& post.w.cells =~= pre.w.cells
            &&& post.w.slots =~= pre.w.slots
            &&& post.w.pipes.remove(d.out.cell) =~= pre.w.pipes.remove(d.out.cell)
        }),
{
}

/// A seeded buffer is allocated once: after its first run, once the buffer is
/// given back, every later run hands out the same memory and allocates nothing.
pub proof fn law_seeded_buffer_keeps_its_handle(u: Seed, pre: Walk, h: u64, qs: Seq<Reply>, r2: Reply)
    requires
        pre.w.held(u.buf) is None,
        !pre.w.is_seeded(u.buf),
        is_svm(u.kind.class_spec()) ==> pre.has_svm,
    ensures
        ({
            let first = seed_after(u, pre, Seq::empty(), Ok(h)).0;
            let again = first.at(first.w.reclaimed(u.out.cell));
            let (post, res) = seed_after(u, again, qs, r2);
            &&& seed_after(u, pre, Seq::empty(), Ok(h)).1 is Ok
            &&& first.w.parcel(u.out.cell)->Some_0.value == seq![seeded_obj(u, pre.context, h)]
            &&& again.w.held(u.buf) == Some(seeded_obj(u, pre.context, h))
            &&& res is Ok ==> post.w.parcel(u.out.cell)->Some_0.value == seq![
                seeded_obj(u, pre.context, h),
            ]
            &&& forall|i: int|
                again.trace.len() <= i < post.trace.len() ==> !((#[trigger] post.trace[i]).command is Alloc)
        }),
{
    let first = seed_after(u, pre, Seq::empty(), Ok(h)).0;
    let again = first.at(first.w.reclaimed(u.out.cell));
    let o = seeded_obj(u, pre.context, h);
    let s = again.at(again.w.lent(u.buf));
    lemma_waits_alone(s.w.busy_until(o.mem_spec()), 0, s, qs);
}

/// What a launch notes is found again: its event is among those that the shared
/// memory is used until, and so are all that were there.
pub proof fn law_launches_are_followed(w: World, uses: Seq<InFlight>, ptr: u64, ev: u64)
    requires
        w.used_until(ptr).contains(ev) || exists|k: int|
            0 <= k < uses.len() && #[trigger] uses[k] == (InFlight { ptr, event: ev }),
    ensures
        w.using(uses).used_until(ptr).contains(ev),
{
    lemma_noted(w.uses, uses, 0, ptr, ev);
}

proof fn lemma_noted(m: Map<u64, Seq<u64>>, uses: Seq<InFlight>, i: nat, ptr: u64, ev: u64)
    requires
        until(m, ptr).contains(ev) || exists|k: int|
            i <= k < uses.len() && #[trigger] uses[k] == (InFlight { ptr, event: ev }),
    ensures
        until(noted(m, uses, i), ptr).contains(ev),
    decreases uses.len() - i,
{
    if i < uses.len() {
        let u = uses[i as int];
        let had = until(m, u.ptr);
        let m1 = m.insert(u.ptr, had.push(u.event));
        if until(m, ptr).contains(ev) {
            let j = choose|j: int| 0 <= j < until(m, ptr).len() && until(m, ptr)[j] == ev;
            assert(until(m1, ptr)[j] == ev);
        } else {
            let k = choose|k: int| i <= k < uses.len() && #[trigger] uses[k] == (InFlight { ptr, event: ev });
            if k == i {
                assert(until(m1, ptr)[had.len() as int] == ev);
            } else {
                assert(i + 1 <= k < uses.len() && uses[k] == (InFlight { ptr, event: ev }));
            }
        }
        lemma_noted(m1, uses, i + 1, ptr, ev);
    }
}

/// So is what a command buffer with launches in it uses: until the event of its
/// submission.
pub proof fn law_command_buffers_are_followed(s: Walk, cb: u64, ev: u64, ptr: u64)
    requires
        s.cb.svm().contains(ptr),
    ensures
        cb_enqueued(s, cb, Ok(ev)).w.used_until(ptr).contains(ev),
{
    let uses = buffer_uses(s.cb.svm(), ev);
    let k = choose|k: int| 0 <= k < s.cb.svm().len() && s.cb.svm()[k] == ptr;
    assert(uses[k] == (InFlight { ptr, event: ev }));
    law_launches_are_followed(s.w, uses, ptr, ev);
}

/// The host data of shared memory is written again only once every launch that uses
/// the memory has ended, and none of them is waited for twice.
pub proof fn law_reseed_waits_for_launches(u: Seed, o: Obj, s: Walk, qs: Seq<Reply>, r1: Reply, ev: u64) -> (k: int)
    requires
        reseeded(u, o, s, qs, r1).1 is Ok,
        s.w.busy_until(o.mem_spec()).contains(ev),
    ensures
        ({
            let post = reseeded(u, o, s, qs, r1).0;
            &&& s.trace.len() <= k < post.trace.len() - 1
            &&& waits_for(post, k, ev)
            &&& post.trace.last().command == reseed_command(u, o)
            &&& post.w.busy_until(o.mem_spec()).len() == 0
        }),
{
    let evs = s.w.busy_until(o.mem_spec());
    lemma_waits_alone(evs, 0, s, qs);
    let j = choose|j: int| 0 <= j < evs.len() && evs[j] == ev;
    let t = waited_out(evs, 0, s, qs).0;
    assert(waits_for(t, s.trace.len() + j - 0, evs[j]));
    s.trace.len() + j
}

/// While the buffer of a seed is out, another run of it is refused and enqueues
/// nothing.
pub proof fn law_busy_seed_is_refused(u: Seed, pre: Walk, qs: Seq<Reply>, r1: Reply)
    requires
        pre.w.held(u.buf) is None,
        pre.w.is_seeded(u.buf),
    ensures
        seed_after(u, pre, qs, r1).1 matches Err(e) && e is NotSupported,
        seed_after(u, pre, qs, r1).0.trace == pre.trace,
{
}

/// The events of a source whose output nobody took are not lost: the output of
/// the next op waits on them too, and keeps its value and home.
pub proof fn law_orphaned_events_are_kept(w: World, src: Pipe, out: Pipe)
    requires
        src.cell != out.cell,
        w.parcel(src.cell) is Some,
        w.parcel(out.cell) is Some,
    ensures
        ({
            let p = w.parcel(src.cell)->Some_0;
            let q = w.parcel(out.cell)->Some_0;
            orphans_threaded(w, Some(src), Some(out)).parcel(out.cell) == Some(
                ParcelView { value: q.value, deps: q.deps + p.deps, home: q.home },
            )
        }),
{
}

/// A copy into unwritten memory of the graph's own hands the memory out as
/// written, and takes it back as unwritten.
pub proof fn law_copied_memory_goes_back_unwritten(w: World, cell: u64, o: Obj)
    requires
        crate::obj::is_uninit(o.class),
    ensures
        w.rehomed(Some(Home::Downgrade(cell)), seq![crate::copies::copied(o)]).held(cell) == Some(o),
{
}

proof fn lemma_handed_on_elsewhere(taken: Seq<TakenView>, i: nat, s: Walk, deps: Seq<u64>, c: u64)
    requires
        forall|j: int| i <= j < taken.len() ==> (#[trigger] taken[j]).out.cell != c,
    ensures
        handed_on(taken, i, s, deps).w.parcel(c) == s.w.parcel(c),
    decreases taken.len() - i,
{
    if i < taken.len() {
        let t = taken[i as int];
        lemma_handed_on_elsewhere(
            taken,
            i + 1,
            s.put(t.out.cell, t.parcel.value, deps, t.parcel.home),
            deps,
            c,
        );
    }
}

/// A launch hands its memory on as it came, with the home that it came from: once it
/// is given back there, the next run finds it again.
pub proof fn law_launch_hands_memory_on(taken: Seq<TakenView>, i: nat, s: Walk, deps: Seq<u64>, k: int)
    requires
        i <= k < taken.len(),
        forall|a: int, b: int|
            i <= a < b < taken.len() ==> (#[trigger] taken[a]).out.cell != (#[trigger] taken[b]).out.cell,
    ensures
        handed_on(taken, i, s, deps).w.parcel(taken[k].out.cell) == Some(
            (ParcelView { value: taken[k].parcel.value, deps, home: taken[k].parcel.home }),
        ),
    decreases taken.len() - i,
{
    let t = taken[i as int];
    let m = s.put(t.out.cell, t.parcel.value, deps, t.parcel.home);
    if k > i {
        law_launch_hands_memory_on(taken, i + 1, m, deps, k);
    } else {
        lemma_handed_on_elsewhere(taken, i + 1, m, deps, t.out.cell);
    }
}

} // verus!
