//! What makes graphs reusable: ops that act in place hand the memory on with its
//! home, through sequences, command buffers and waiting terminals, and undelivered
//! values go back.

use crate::cb::{cb_finished, span_closed, usable_cb};
use crate::cb_laws::law_restamp_reaches_every_output;
use crate::error::{Error, OpResult};
use crate::exec_ctx::{kept, ExecMode, Walk, WalkMode};
use crate::graph::{
    cache_of, delay_pipes, output_pipe_of, outs_of, ready_of, reclaim_from, reclaim_of, reclaim_pipes,
    restamp_of, AndThen, DeviceOp,
};
use crate::input::{found, readiness, Input};
use crate::leaf::{leaf_after, Leaf};
use crate::leaf_op::LeafOp;
use crate::leaves::LeafNode;
use crate::obj::{Command, Reply};
use crate::run_laws::in_place;
use crate::store::{ParcelView, Pipe, World};
use crate::terminals::{sync_held, sync_marked, sync_mode, sync_waited, syncs};
use crate::walk::{
    boundary_gathers, boundary_runs, build_end, build_gathers, build_runs, chain_ends, chain_gathered,
    checked_out, child_gathers, child_runs, delivered, drain_from, enqueue_runs, gathers_of, given_up, join_runs, missing_of,
    node_gathers, node_runs, open_child_gathers, open_child_runs, opens_boundary, opens_itself, opens_span,
    passes, replay_mode, runs_of, seam_delayed, seam_step, submitted, BuildEnd, CheckoutView, GatheredView,
};
use vstd::prelude::*;

verus! {

/// The shape of a leaf op that acts on one value.
pub open spec fn shape_of(l: LeafOp) -> Option<Leaf> {
    match l {
        LeafOp::Fill(x) => Some(x.leaf()),
        LeafOp::FillMapped(x) => Some(x.leaf()),
        LeafOp::WriteDevice(x) => Some(x.leaf()),
        LeafOp::WriteMapped(x) => Some(x.leaf()),
        LeafOp::ReadInto(x) => Some(x.leaf()),
        LeafOp::ImageWrite(x) => Some(x.leaf()),
        LeafOp::ImageRead(x) => Some(x.leaf()),
        LeafOp::ImageFill(x) => Some(x.leaf()),
        _ => None,
    }
}

/// Whether an op hands the value at `input` through in place: it is an in-place
/// op over it, or a sequence of ops each of which acts on the output of the one
/// before.
pub open spec fn threads(op: DeviceOp, input: Input) -> bool
    decreases op,
{
    match op {
        DeviceOp::Leaf(l) => shape_of(l) matches Some(x) && in_place(x) && x.input == input,
        DeviceOp::AndThen(n) => output_pipe_of(n.source) matches Some(p) && output_pipe_of(n.next) matches Some(q)
            && p.cell != q.cell && threads(n.source, input) && threads(n.next, Input::Pipe(p)),
        _ => false,
    }
}

/// Whether the memory and home of `p` lie on a pipe.
pub open spec fn carried(w: World, out: Option<Pipe>, p: ParcelView) -> bool {
    out matches Some(o) && (w.parcel(o.cell) matches Some(q) && q.value.len() == 1 && p.value.len() == 1
        && q.value[0].id == p.value[0].id && q.home == p.home)
}

/// Whether the memory and home of `p` are the one output of a gather.
pub open spec fn handed_out(outs: Seq<CheckoutView>, p: ParcelView) -> bool {
    outs.len() == 1 && outs[0].value.len() == 1 && p.value.len() == 1 && outs[0].value[0].id == p.value[0].id
        && outs[0].home == p.home
}

proof fn lemma_leaf_carries(l: LeafOp, input: Input, pre: Walk, post: Walk, mode: ExecMode, res: OpResult<()>, p: ParcelView)
    requires
        res is Ok,
        threads(DeviceOp::Leaf(l), input),
        found(pre.w, pre.start, input) == Ok::<ParcelView, Error>(p),
        l.runs(pre, post, mode, res),
    ensures
        carried(post.w, output_pipe_of(DeviceOp::Leaf(l)), p),
        outs_of(DeviceOp::Leaf(l)).len() == 1,
        output_pipe_of(DeviceOp::Leaf(l)) == Some(outs_of(DeviceOp::Leaf(l))[0]),
{
    let x = shape_of(l)->Some_0;
    assert(exists|r1: Reply, r2: Reply|
        (#[trigger] leaf_after(x, pre, mode, r1, r2)) == (post, res));
    let (r1, r2) = choose|r1: Reply, r2: Reply|
        (#[trigger] leaf_after(x, pre, mode, r1, r2)) == (post, res);
    assert(post.w.parcel(x.out.cell) is Some);
}

/// There is one way to succeed without a value.
proof fn lemma_done(r: OpResult<()>)
    requires
        r is Ok,
    ensures
        r == Ok::<(), Error>(()),
{
    assert(r->Ok_0 == ());
}

proof fn lemma_one_output(op: DeviceOp, input: Input)
    requires
        threads(op, input),
    ensures
        outs_of(op).len() == 1,
        output_pipe_of(op) == Some(outs_of(op)[0]),
    decreases op,
{
    match op {
        DeviceOp::AndThen(n) => {
            lemma_one_output(n.next, Input::Pipe(output_pipe_of(n.source)->Some_0));
        },
        _ => {},
    }
}

proof fn lemma_restamp_carries(op: DeviceOp, w: World, evs: Seq<u64>, out: Option<Pipe>, p: ParcelView)
    requires
        carried(w, out, p),
    ensures
        carried(restamp_of(op, w, evs), out, p),
{
    law_restamp_reaches_every_output(outs_of(op), 0, w, evs, out->Some_0);
}

proof fn lemma_delay_carries(pipes: Seq<Pipe>, i: nat, w: World, evs: Seq<u64>, out: Option<Pipe>, p: ParcelView)
    requires
        carried(w, out, p),
    ensures
        carried(delay_pipes(pipes, i, w, evs), out, p),
    decreases pipes.len() - i,
{
    if i < pipes.len() {
        lemma_delay_carries(pipes, i + 1, w.delayed(pipes[i as int].cell, evs), evs, out, p);
    }
}

/// Between the parts of a sequence the outputs of the first stay where they are.
proof fn lemma_seam_carries(
    source: DeviceOp,
    next: DeviceOp,
    pre: Walk,
    post: Walk,
    c: OpResult<bool>,
    out: Option<Pipe>,
    p: ParcelView,
)
    requires
        seam_step(source, next, pre, post, c),
        carried(pre.w, out, p),
    ensures
        c is Ok ==> carried(post.w, out, p),
        post.start == pre.start,
        c == Ok::<bool, Error>(false) ==> post == pre,
{
    if c is Ok && !(pre.cb is Off) && !crate::graph::head_addable_of(next) {
        let (r1, r2) = choose|r1: Reply, r2: Reply|
            {
                let (s, r) = #[trigger] span_closed(pre, r1, r2);
                match r {
                    Err(e) => post == s && c == Err::<bool, Error>(e),
                    Ok(Some(ev)) => post == s.at(restamp_of(source, s.w, seq![ev])) && c == Ok::<
                        bool,
                        Error,
                    >(true),
                    Ok(None) => if s.cb.is_abandoned() {
                        post == s && c == Err::<bool, Error>(crate::walk::abandoned_error())
                    } else {
                        post == s.at(seam_delayed(source, s.w, pre.cb)) && c == Ok::<bool, Error>(true)
                    },
                }
            };
        let (s, r) = span_closed(pre, r1, r2);
        assert(s.w.pipes == pre.w.pipes);
        assert(carried(s.w, out, p));
        match r {
            Ok(Some(ev)) => {
                lemma_restamp_carries(source, s.w, seq![ev], out, p);
            },
            _ => {
                lemma_delay_carries(outs_of(source), 0, s.w, pre.cb.ext(), out, p);
            },
        }
    }
}

/// Whether the second part of a sequence ran from `m2` on, where the command buffer
/// ended before it or not.
pub open spec fn second_ran(n: AndThen, ended: bool, m2: Walk, m3: Walk, post: Walk, mode: ExecMode) -> bool {
    if ended {
        node_runs(n.next, m2.in_mode(WalkMode::Off), m3, mode, Ok(())) && chain_ends(
            n,
            m3.in_mode(m2.cb),
            Ok(()),
            post,
            Ok(()),
        )
    } else {
        child_runs(n.next, m2, m3, mode, Ok(())) && chain_ends(n, m3, Ok(()), post, Ok(()))
    }
}

/// The steps of a sequence that succeeded.
proof fn lemma_chain_steps(n: AndThen, op: DeviceOp, pre: Walk, post: Walk, mode: ExecMode) -> (r: (
    Walk,
    Walk,
    bool,
    Walk,
))
    requires
        op matches DeviceOp::AndThen(b) && *b == n,
        runs_of(op, pre, post, mode, Ok(())),
    ensures
        child_runs(n.source, pre, r.0, ExecMode::Pipelined, Ok(())),
        seam_step(n.source, n.next, r.0, r.1, Ok(r.2)),
        second_ran(n, r.2, r.1, r.3, post, mode),
{
    let res = Ok::<(), Error>(());
    let (m1, r1) = choose|m1: Walk, r1: OpResult<()>|
        (#[trigger] passes(m1, r1)) && child_runs(n.source, pre, m1, ExecMode::Pipelined, r1) && match r1 {
            Err(e) => post == m1 && res == Err::<(), Error>(e),
            Ok(_) => exists|m2: Walk, c: OpResult<bool>|
                (#[trigger] seam_step(n.source, n.next, m1, m2, c)) && match c {
                    Err(e) => post == m2 && res == Err::<(), Error>(e),
                    Ok(true) => exists|m3: Walk, r3: OpResult<()>|
                        (#[trigger] passes(m3, r3)) && node_runs(
                            n.next,
                            m2.in_mode(WalkMode::Off),
                            m3,
                            mode,
                            r3,
                        ) && chain_ends(n, m3.in_mode(m2.cb), r3, post, res),
                    Ok(false) => exists|m3: Walk, r3: OpResult<()>|
                        (#[trigger] passes(m3, r3)) && child_runs(n.next, m2, m3, mode, r3) && chain_ends(
                            n,
                            m3,
                            r3,
                            post,
                            res,
                        ),
                },
        };
    assert(r1 is Ok);
    lemma_done(r1);
    let (m2, c) = choose|m2: Walk, c: OpResult<bool>|
        (#[trigger] seam_step(n.source, n.next, m1, m2, c)) && match c {
            Err(e) => post == m2 && res == Err::<(), Error>(e),
            Ok(true) => exists|m3: Walk, r3: OpResult<()>|
                (#[trigger] passes(m3, r3)) && node_runs(n.next, m2.in_mode(WalkMode::Off), m3, mode, r3)
                    && chain_ends(n, m3.in_mode(m2.cb), r3, post, res),
            Ok(false) => exists|m3: Walk, r3: OpResult<()>|
                (#[trigger] passes(m3, r3)) && child_runs(n.next, m2, m3, mode, r3) && chain_ends(
                    n,
                    m3,
                    r3,
                    post,
                    res,
                ),
        };
    assert(c is Ok);
    if c->Ok_0 {
        let (m3, r3) = choose|m3: Walk, r3: OpResult<()>|
            (#[trigger] passes(m3, r3)) && node_runs(n.next, m2.in_mode(WalkMode::Off), m3, mode, r3)
                && chain_ends(n, m3.in_mode(m2.cb), r3, post, res);
        assert(r3 is Ok);
        lemma_done(r3);
        (m1, m2, true, m3)
    } else {
        let (m3, r3) = choose|m3: Walk, r3: OpResult<()>|
            (#[trigger] passes(m3, r3)) && child_runs(n.next, m2, m3, mode, r3) && chain_ends(
                n,
                m3,
                r3,
                post,
                res,
            );
        assert(r3 is Ok);
        lemma_done(r3);
        (m1, m2, false, m3)
    }
}

/// The end of a sequence leaves its output where it is.
proof fn lemma_end_carries(n: AndThen, m: Walk, post: Walk, p: ParcelView)
    requires
        output_pipe_of(n.source) matches Some(a) && (output_pipe_of(n.next) matches Some(b) && a.cell != b.cell),
        carried(m.w, output_pipe_of(n.next), p),
        chain_ends(n, m, Ok(()), post, Ok(())),
    ensures
        carried(post.w, output_pipe_of(n.next), p),
{
}

/// A sequence of in-place ops hands the memory on with its home.
proof fn lemma_runs_carry(op: DeviceOp, input: Input, pre: Walk, post: Walk, mode: ExecMode, res: OpResult<()>, p: ParcelView)
    requires
        res is Ok,
        threads(op, input),
        found(pre.w, pre.start, input) == Ok::<ParcelView, Error>(p),
        runs_of(op, pre, post, mode, res),
    ensures
        carried(post.w, output_pipe_of(op), p),
    decreases op, 0nat,
{
    lemma_done(res);
    match op {
        DeviceOp::Leaf(l) => {
            lemma_leaf_carries(l, input, pre, post, mode, Ok(()), p);
        },
        DeviceOp::AndThen(n) => {
            let (m1, m2, ended, m3) = lemma_chain_steps(*n, op, pre, post, mode);
            lemma_child_carries(n.source, input, pre, m1, ExecMode::Pipelined, Ok(()), p);
            let mid = output_pipe_of(n.source);
            lemma_seam_carries(n.source, n.next, m1, m2, Ok(ended), mid, p);
            let q = m2.w.parcel(mid->Some_0.cell)->Some_0;
            let by_pipe = Input::Pipe(mid->Some_0);
            if ended {
                lemma_node_carries(n.next, by_pipe, m2.in_mode(WalkMode::Off), m3, mode, Ok(()), q);
                lemma_end_carries(*n, m3.in_mode(m2.cb), post, q);
            } else {
                lemma_child_carries(n.next, by_pipe, m2, m3, mode, Ok(()), q);
                lemma_end_carries(*n, m3, post, q);
            }
        },
        _ => {},
    }
}

proof fn lemma_child_carries(op: DeviceOp, input: Input, pre: Walk, post: Walk, mode: ExecMode, res: OpResult<()>, p: ParcelView)
    requires
        res is Ok,
        threads(op, input),
        found(pre.w, pre.start, input) == Ok::<ParcelView, Error>(p),
        child_runs(op, pre, post, mode, res),
    ensures
        carried(post.w, output_pipe_of(op), p),
    decreases op, 5nat,
{
    lemma_done(res);
    if pre.cb.is_closed() {
        let m = choose|m: Walk|
            (#[trigger] passes(m, ())) && open_child_runs(op, pre.in_mode(WalkMode::Off), m, mode, res)
                && post == m.in_mode(pre.cb);
        lemma_open_child_carries(op, input, pre.in_mode(WalkMode::Off), m, mode, Ok(()), p);
    } else {
        lemma_open_child_carries(op, input, pre, post, mode, Ok(()), p);
    }
}

proof fn lemma_open_child_carries(op: DeviceOp, input: Input, pre: Walk, post: Walk, mode: ExecMode, res: OpResult<()>, p: ParcelView)
    requires
        res is Ok,
        threads(op, input),
        found(pre.w, pre.start, input) == Ok::<ParcelView, Error>(p),
        open_child_runs(op, pre, post, mode, res),
    ensures
        carried(post.w, output_pipe_of(op), p),
    decreases op, 4nat,
{
    lemma_done(res);
    if opens_boundary(op, pre) {
        lemma_boundary_carries(op, input, pre, post, mode, Ok(()), p);
    } else {
        lemma_node_carries(op, input, pre, post, mode, Ok(()), p);
    }
}

proof fn lemma_node_carries(op: DeviceOp, input: Input, pre: Walk, post: Walk, mode: ExecMode, res: OpResult<()>, p: ParcelView)
    requires
        res is Ok,
        threads(op, input),
        found(pre.w, pre.start, input) == Ok::<ParcelView, Error>(p),
        node_runs(op, pre, post, mode, res),
    ensures
        carried(post.w, output_pipe_of(op), p),
    decreases op, 3nat,
{
    lemma_done(res);
    if opens_itself(op, pre) {
        lemma_boundary_carries(op, input, pre, post, mode, Ok(()), p);
    } else {
        lemma_runs_carry(op, input, pre, post, mode, Ok(()), p);
    }
}

/// A submitted command buffer leaves the outputs where they are.
proof fn lemma_submitted_carries(
    op: DeviceOp,
    m: Walk,
    cb: u64,
    t: Walk,
    j: OpResult<u64>,
    post: Walk,
    p: ParcelView,
)
    requires
        enqueue_runs(m, cb, t, j),
        submitted(op, t, j, post, Ok(())),
        carried(m.w, output_pipe_of(op), p),
    ensures
        carried(post.w, output_pipe_of(op), p),
{
    assert(t.w.pipes == m.w.pipes);
    if let Ok(ev) = j {
        lemma_restamp_carries(op, t.w, seq![ev], output_pipe_of(op), p);
    }
}

/// What a command buffer that could be opened led to, where all went well.
pub open spec fn built(op: DeviceOp, pre: Walk, m: Walk, r: OpResult<()>, post: Walk, mode: ExecMode) -> bool {
    match r {
        Err(_) => m.cb.is_abandoned() && runs_of(op, given_up(pre.w, m), post, mode, Ok(())),
        Ok(_) => build_runs(op, pre.w, m, post, mode, Ok(())),
    }
}

/// The walk of an op that was to become a command buffer and succeeded.
proof fn lemma_build_steps(op: DeviceOp, pre: Walk, post: Walk, mode: ExecMode) -> (r: (Reply, Walk, OpResult<()>))
    requires
        boundary_runs(op, pre, post, mode, Ok(())),
        usable_cb(pre.w, cache_of(op)->Some_0, pre.queue) is None,
    ensures
        ({
            let s = pre.issued(Command::OpenCb { queue: pre.queue }, Seq::empty(), r.0);
            match r.0 {
                Err(_) => runs_of(op, s, post, mode, Ok(())),
                Ok(b) => runs_of(op, s.building(b, cache_of(op)->Some_0), r.1, mode, r.2) && built(
                    op,
                    pre,
                    r.1,
                    r.2,
                    post,
                    mode,
                ),
            }
        }),
{
    let res = Ok::<(), Error>(());
    let cache = cache_of(op)->Some_0;
    let q = choose|q: Reply|
        {
            let s = #[trigger] pre.issued(Command::OpenCb { queue: pre.queue }, Seq::empty(), q);
            match q {
                Err(_) => runs_of(op, s, post, mode, res),
                Ok(b) => exists|m: Walk, r: OpResult<()>|
                    (#[trigger] passes(m, r)) && runs_of(op, s.building(b, cache), m, mode, r) && match r {
                        Err(e) => if m.cb.is_abandoned() {
                            runs_of(op, given_up(pre.w, m), post, mode, res)
                        } else {
                            post == m.in_mode(WalkMode::Off) && res == Err::<(), Error>(e)
                        },
                        Ok(_) => build_runs(op, pre.w, m, post, mode, res),
                    },
            }
        };
    let s = pre.issued(Command::OpenCb { queue: pre.queue }, Seq::empty(), q);
    match q {
        Err(_) => (q, pre, res),
        Ok(b) => {
            let (m, r) = choose|m: Walk, r: OpResult<()>|
                (#[trigger] passes(m, r)) && runs_of(op, s.building(b, cache), m, mode, r) && match r {
                    Err(e) => if m.cb.is_abandoned() {
                        runs_of(op, given_up(pre.w, m), post, mode, res)
                    } else {
                        post == m.in_mode(WalkMode::Off) && res == Err::<(), Error>(e)
                    },
                    Ok(_) => build_runs(op, pre.w, m, post, mode, res),
                };
            (q, m, r)
        },
    }
}

/// The walk of an op that replayed a command buffer and succeeded.
#[verifier::rlimit(40)]
proof fn lemma_replay_steps(op: DeviceOp, pre: Walk, post: Walk, mode: ExecMode, cb: u64) -> (r: (
    Walk,
    Walk,
    OpResult<u64>,
))
    requires
        boundary_runs(op, pre, post, mode, Ok(())),
        usable_cb(pre.w, cache_of(op)->Some_0, pre.queue) == Some(cb),
    ensures
        runs_of(op, pre.in_mode(replay_mode(cache_of(op)->Some_0)), r.0, mode, Ok(())),
        if r.0.cb.is_closed() {
            post == r.0.in_mode(WalkMode::Off)
        } else {
            enqueue_runs(r.0, cb, r.1, r.2) && submitted(op, r.1, r.2, post, Ok(()))
        },
{
    let res = Ok::<(), Error>(());
    let cache = cache_of(op)->Some_0;
    let (m, r) = choose|m: Walk, r: OpResult<()>|
        (#[trigger] passes(m, r)) && runs_of(op, pre.in_mode(replay_mode(cache)), m, mode, r) && match r {
            Err(e) => post == m.in_mode(WalkMode::Off) && res == Err::<(), Error>(e),
            Ok(_) => if m.cb.is_closed() {
                post == m.in_mode(WalkMode::Off) && res == Ok::<(), Error>(())
            } else {
                exists|t: Walk, j: OpResult<u64>|
                    (#[trigger] enqueue_runs(m, cb, t, j)) && submitted(op, t, j, post, res)
            },
        };
    assert(r is Ok);
    lemma_done(r);
    if m.cb.is_closed() {
        (m, m, Ok(0))
    } else {
        let (t, j) = choose|t: Walk, j: OpResult<u64>|
            (#[trigger] enqueue_runs(m, cb, t, j)) && submitted(op, t, j, post, res);
        (m, t, j)
    }
}

proof fn lemma_boundary_carries(op: DeviceOp, input: Input, pre: Walk, post: Walk, mode: ExecMode, res: OpResult<()>, p: ParcelView)
    requires
        res is Ok,
        threads(op, input),
        found(pre.w, pre.start, input) == Ok::<ParcelView, Error>(p),
        boundary_runs(op, pre, post, mode, res),
    ensures
        carried(post.w, output_pipe_of(op), p),
    decreases op, 2nat, 1nat,
{
    lemma_done(res);
    let cache = cache_of(op)->Some_0;
    match usable_cb(pre.w, cache, pre.queue) {
        Some(cb) => {
            let (m, t, j) = lemma_replay_steps(op, pre, post, mode, cb);
            lemma_runs_carry(op, input, pre.in_mode(replay_mode(cache)), m, mode, Ok(()), p);
            if !m.cb.is_closed() {
                lemma_submitted_carries(op, m, cb, t, j, post, p);
            }
        },
        None => {
            let (q, m, r) = lemma_build_steps(op, pre, post, mode);
            let s = pre.issued(Command::OpenCb { queue: pre.queue }, Seq::empty(), q);
            match q {
                Err(_) => {
                    lemma_runs_carry(op, input, s, post, mode, Ok(()), p);
                },
                Ok(b) => match r {
                    Err(_) => {
                        lemma_again_carries(op, input, pre, m, post, mode, Ok(()), p);
                    },
                    Ok(_) => {
                        lemma_done(r);
                        lemma_runs_carry(op, input, s.building(b, cache), m, mode, Ok(()), p);
                        lemma_build_carries(op, input, pre, m, post, mode, Ok(()), p);
                    },
                },
            }
        },
    }
}

/// A run that starts over finds its input where it was.
proof fn lemma_again_carries(
    op: DeviceOp,
    input: Input,
    pre: Walk,
    m: Walk,
    post: Walk,
    mode: ExecMode,
    res: OpResult<()>,
    p: ParcelView,
)
    requires
        res is Ok,
        threads(op, input),
        found(pre.w, pre.start, input) == Ok::<ParcelView, Error>(p),
        runs_of(op, given_up(pre.w, m), post, mode, res),
    ensures
        carried(post.w, output_pipe_of(op), p),
    decreases op, 1nat,
{
    lemma_done(res);
    let s = given_up(pre.w, m);
    let again = found(s.w, s.start, input);
    assert(again is Ok);
    assert(again->Ok_0.home == p.home && again->Ok_0.value == p.value);
    lemma_runs_carry(op, input, s, post, mode, Ok(()), again->Ok_0);
}

proof fn lemma_build_carries(
    op: DeviceOp,
    input: Input,
    pre: Walk,
    m: Walk,
    post: Walk,
    mode: ExecMode,
    res: OpResult<()>,
    p: ParcelView,
)
    requires
        res is Ok,
        threads(op, input),
        found(pre.w, pre.start, input) == Ok::<ParcelView, Error>(p),
        carried(m.w, output_pipe_of(op), p),
        build_runs(op, pre.w, m, post, mode, res),
    ensures
        carried(post.w, output_pipe_of(op), p),
    decreases op, 2nat, 0nat,
{
    lemma_done(res);
    match build_end(m.cb) {
        BuildEnd::Submitted => {},
        BuildEnd::GivenUp => {
            lemma_again_carries(op, input, pre, m, post, mode, Ok(()), p);
        },
        BuildEnd::Empty => {
            lemma_delay_carries(outs_of(op), 0, m.w, m.cb.ext(), output_pipe_of(op), p);
        },
        BuildEnd::Finish => {
            let q = choose|q: Reply|
                {
                    let t = #[trigger] cb_finished(m, q);
                    match q {
                        Err(_) => runs_of(op, given_up(pre.w, t), post, mode, res),
                        Ok(cb) => exists|u: Walk, j: OpResult<u64>|
                            (#[trigger] enqueue_runs(t, cb, u, j)) && submitted(op, u, j, post, res),
                    }
                };
            let t = cb_finished(m, q);
            match q {
                Err(_) => {
                    lemma_again_carries(op, input, pre, t, post, mode, Ok(()), p);
                },
                Ok(cb) => {
                    let (u, j) = choose|u: Walk, j: OpResult<u64>|
                        (#[trigger] enqueue_runs(t, cb, u, j)) && submitted(op, u, j, post, res);
                    assert(t.w.pipes == m.w.pipes);
                    lemma_submitted_carries(op, t, cb, u, j, post, p);
                },
            }
        },
    }
}

/// Whether the second part of a sequence was gathered from `m2` on, where the
/// command buffer ended before it or not.
pub open spec fn second_gathered(
    n: AndThen,
    ended: bool,
    m2: Walk,
    m3: Walk,
    g: GatheredView,
    mode: ExecMode,
) -> bool {
    if ended {
        node_gathers(n.next, m2.in_mode(WalkMode::Off), m3, mode, Ok(g))
    } else {
        child_gathers(n.next, m2, m3, mode, Ok(g))
    }
}

/// The steps of a sequence that was gathered.
proof fn lemma_gather_steps(n: AndThen, op: DeviceOp, pre: Walk, post: Walk, mode: ExecMode, g: GatheredView) -> (r: (
    Walk,
    Walk,
    bool,
    Walk,
    GatheredView,
))
    requires
        op matches DeviceOp::AndThen(b) && *b == n,
        gathers_of(op, pre, post, mode, Ok(g)),
    ensures
        child_runs(n.source, pre, r.0, ExecMode::Pipelined, Ok(())),
        seam_step(n.source, n.next, r.0, r.1, Ok(r.2)),
        second_gathered(n, r.2, r.1, r.3, r.4, mode),
        g.outs == r.4.outs,
{
    let res = Ok::<GatheredView, Error>(g);
    let (m1, r1) = choose|m1: Walk, r1: OpResult<()>|
        (#[trigger] passes(m1, r1)) && child_runs(n.source, pre, m1, ExecMode::Pipelined, r1) && match r1 {
            Err(e) => post == m1 && res == Err::<GatheredView, Error>(e),
            Ok(_) => exists|m2: Walk, c: OpResult<bool>|
                (#[trigger] seam_step(n.source, n.next, m1, m2, c)) && match c {
                    Err(e) => post == m2 && res == Err::<GatheredView, Error>(e),
                    Ok(true) => exists|m3: Walk, r3: OpResult<GatheredView>|
                        (#[trigger] passes(m3, r3)) && node_gathers(
                            n.next,
                            m2.in_mode(WalkMode::Off),
                            m3,
                            mode,
                            r3,
                        ) && chain_gathered(n, m3.in_mode(m2.cb), r3, post, res),
                    Ok(false) => exists|m3: Walk, r3: OpResult<GatheredView>|
                        (#[trigger] passes(m3, r3)) && child_gathers(n.next, m2, m3, mode, r3) && chain_gathered(
                            n,
                            m3,
                            r3,
                            post,
                            res,
                        ),
                },
        };
    assert(r1 is Ok);
    lemma_done(r1);
    let (m2, c) = choose|m2: Walk, c: OpResult<bool>|
        (#[trigger] seam_step(n.source, n.next, m1, m2, c)) && match c {
            Err(e) => post == m2 && res == Err::<GatheredView, Error>(e),
            Ok(true) => exists|m3: Walk, r3: OpResult<GatheredView>|
                (#[trigger] passes(m3, r3)) && node_gathers(n.next, m2.in_mode(WalkMode::Off), m3, mode, r3)
                    && chain_gathered(n, m3.in_mode(m2.cb), r3, post, res),
            Ok(false) => exists|m3: Walk, r3: OpResult<GatheredView>|
                (#[trigger] passes(m3, r3)) && child_gathers(n.next, m2, m3, mode, r3) && chain_gathered(
                    n,
                    m3,
                    r3,
                    post,
                    res,
                ),
        };
    assert(c is Ok);
    if c->Ok_0 {
        let (m3, r3) = choose|m3: Walk, r3: OpResult<GatheredView>|
            (#[trigger] passes(m3, r3)) && node_gathers(n.next, m2.in_mode(WalkMode::Off), m3, mode, r3)
                && chain_gathered(n, m3.in_mode(m2.cb), r3, post, res);
        (m1, m2, true, m3, r3->Ok_0)
    } else {
        let (m3, r3) = choose|m3: Walk, r3: OpResult<GatheredView>|
            (#[trigger] passes(m3, r3)) && child_gathers(n.next, m2, m3, mode, r3) && chain_gathered(
                n,
                m3,
                r3,
                post,
                res,
            );
        (m1, m2, false, m3, r3->Ok_0)
    }
}

/// A leaf that was gathered hands out what lies on its pipe.
proof fn lemma_leaf_hands_out(l: LeafOp, input: Input, pre: Walk, post: Walk, mode: ExecMode, g: GatheredView, p: ParcelView)
    requires
        threads(DeviceOp::Leaf(l), input),
        found(pre.w, pre.start, input) == Ok::<ParcelView, Error>(p),
        gathers_of(DeviceOp::Leaf(l), pre, post, mode, Ok(g)),
    ensures
        handed_out(g.outs, p),
{
    let op = DeviceOp::Leaf(l);
    let res = Ok::<GatheredView, Error>(g);
    let (m, r) = choose|m: Walk, r: OpResult<()>|
        (#[trigger] passes(m, r)) && runs_of(op, pre, m, mode, r) && match r {
            Err(e) => post == m && res == Err::<GatheredView, Error>(e),
            Ok(_) => {
                let (w, d) = drain_from(outs_of(op), 0, Seq::empty(), m.w);
                post == m.at(w) && res == (match d {
                    Ok(ps) => Ok::<GatheredView, Error>(checked_out(ps)),
                    Err(k) => Err(missing_of(op, k)),
                })
            },
        };
    lemma_leaf_carries(l, input, pre, m, mode, r, p);
    let first = m.w.parcel(outs_of(op)[0].cell)->Some_0;
    let w1 = m.w.drained(outs_of(op)[0].cell);
    let none = Seq::<ParcelView>::empty();
    assert(drain_from(outs_of(op), 1, none.push(first), w1) == (
        w1,
        Ok::<Seq<ParcelView>, int>(none.push(first)),
    ));
    assert(drain_from(outs_of(op), 0, none, m.w) == drain_from(outs_of(op), 1, none.push(first), w1));
}

/// A sequence of in-place ops hands the memory out with its home.
proof fn lemma_gathers_hand_out(
    op: DeviceOp,
    input: Input,
    pre: Walk,
    post: Walk,
    mode: ExecMode,
    g: GatheredView,
    p: ParcelView,
)
    requires
        threads(op, input),
        found(pre.w, pre.start, input) == Ok::<ParcelView, Error>(p),
        gathers_of(op, pre, post, mode, Ok(g)),
    ensures
        handed_out(g.outs, p),
    decreases op, 0nat,
{
    match op {
        DeviceOp::Leaf(l) => {
            lemma_leaf_hands_out(l, input, pre, post, mode, g, p);
        },
        DeviceOp::AndThen(n) => {
            let (m1, m2, ended, m3, g3) = lemma_gather_steps(*n, op, pre, post, mode, g);
            lemma_child_carries(n.source, input, pre, m1, ExecMode::Pipelined, Ok(()), p);
            let mid = output_pipe_of(n.source);
            lemma_seam_carries(n.source, n.next, m1, m2, Ok(ended), mid, p);
            let q = m2.w.parcel(mid->Some_0.cell)->Some_0;
            let by_pipe = Input::Pipe(mid->Some_0);
            if ended {
                lemma_node_hands_out(n.next, by_pipe, m2.in_mode(WalkMode::Off), m3, mode, g3, q);
            } else {
                lemma_child_hands_out(n.next, by_pipe, m2, m3, mode, g3, q);
            }
        },
        _ => {},
    }
}

proof fn lemma_child_hands_out(
    op: DeviceOp,
    input: Input,
    pre: Walk,
    post: Walk,
    mode: ExecMode,
    g: GatheredView,
    p: ParcelView,
)
    requires
        threads(op, input),
        found(pre.w, pre.start, input) == Ok::<ParcelView, Error>(p),
        child_gathers(op, pre, post, mode, Ok(g)),
    ensures
        handed_out(g.outs, p),
    decreases op, 5nat,
{
    let res = Ok::<GatheredView, Error>(g);
    if pre.cb.is_closed() {
        let m = choose|m: Walk|
            (#[trigger] passes(m, ())) && open_child_gathers(op, pre.in_mode(WalkMode::Off), m, mode, res)
                && post == m.in_mode(pre.cb);
        lemma_open_child_hands_out(op, input, pre.in_mode(WalkMode::Off), m, mode, g, p);
    } else {
        lemma_open_child_hands_out(op, input, pre, post, mode, g, p);
    }
}

proof fn lemma_open_child_hands_out(
    op: DeviceOp,
    input: Input,
    pre: Walk,
    post: Walk,
    mode: ExecMode,
    g: GatheredView,
    p: ParcelView,
)
    requires
        threads(op, input),
        found(pre.w, pre.start, input) == Ok::<ParcelView, Error>(p),
        open_child_gathers(op, pre, post, mode, Ok(g)),
    ensures
        handed_out(g.outs, p),
    decreases op, 4nat,
{
    if opens_boundary(op, pre) {
        lemma_boundary_hands_out(op, input, pre, post, mode, g, p);
    } else {
        lemma_node_hands_out(op, input, pre, post, mode, g, p);
    }
}

proof fn lemma_node_hands_out(
    op: DeviceOp,
    input: Input,
    pre: Walk,
    post: Walk,
    mode: ExecMode,
    g: GatheredView,
    p: ParcelView,
)
    requires
        threads(op, input),
        found(pre.w, pre.start, input) == Ok::<ParcelView, Error>(p),
        node_gathers(op, pre, post, mode, Ok(g)),
    ensures
        handed_out(g.outs, p),
    decreases op, 3nat,
{
    if op is AndThen && opens_span(op, pre) {
        lemma_boundary_hands_out(op, input, pre, post, mode, g, p);
    } else {
        lemma_gathers_hand_out(op, input, pre, post, mode, g, p);
    }
}

/// The outputs of a gather that became a command buffer are those of a walk of it:
/// the one that built or replayed it, or the one that started over.
proof fn lemma_boundary_gather_steps(op: DeviceOp, pre: Walk, post: Walk, mode: ExecMode, g: GatheredView) -> (r: (
    Walk,
    Walk,
    GatheredView,
))
    requires
        boundary_gathers(op, pre, post, mode, Ok(g)),
    ensures
        gathers_of(op, r.0, r.1, mode, Ok(r.2)),
        g.outs == r.2.outs,
        r.0.start == pre.start || exists|m: Walk| r.0 == #[trigger] given_up(pre.w, m),
        r.0.w.cells == pre.w.cells,
        r.0.w.slots == pre.w.slots,
        r.0.w.pipes == pre.w.pipes,
{
    let res = Ok::<GatheredView, Error>(g);
    let cache = cache_of(op)->Some_0;
    match usable_cb(pre.w, cache, pre.queue) {
        Some(cb) => {
            let (m, r) = choose|m: Walk, r: OpResult<GatheredView>|
                (#[trigger] passes(m, r)) && gathers_of(op, pre.in_mode(replay_mode(cache)), m, mode, r)
                    && match r {
                    Err(e) => post == m.in_mode(WalkMode::Off) && res == Err::<GatheredView, Error>(e),
                    Ok(g) => if m.cb.is_closed() {
                        post == m.in_mode(WalkMode::Off) && res == Ok::<GatheredView, Error>(g)
                    } else {
                        exists|t: Walk, j: OpResult<u64>|
                            (#[trigger] enqueue_runs(m, cb, t, j)) && delivered(g, t, j, post, res)
                    },
                };
            (pre.in_mode(replay_mode(cache)), m, r->Ok_0)
        },
        None => {
            let q = choose|q: Reply|
                {
                    let s = #[trigger] pre.issued(Command::OpenCb { queue: pre.queue }, Seq::empty(), q);
                    match q {
                        Err(_) => gathers_of(op, s, post, mode, res),
                        Ok(b) => exists|m: Walk, r: OpResult<GatheredView>|
                            (#[trigger] passes(m, r)) && gathers_of(op, s.building(b, cache), m, mode, r)
                                && match r {
                                Err(e) => if m.cb.is_abandoned() {
                                    gathers_of(op, given_up(pre.w, m), post, mode, res)
                                } else {
                                    post == m.in_mode(WalkMode::Off) && res == Err::<GatheredView, Error>(e)
                                },
                                Ok(g) => build_gathers(op, pre.w, g, m, post, mode, res),
                            },
                    }
                };
            let s = pre.issued(Command::OpenCb { queue: pre.queue }, Seq::empty(), q);
            match q {
                Err(_) => (s, post, g),
                Ok(b) => {
                    let (m, r) = choose|m: Walk, r: OpResult<GatheredView>|
                        (#[trigger] passes(m, r)) && gathers_of(op, s.building(b, cache), m, mode, r)
                            && match r {
                            Err(e) => if m.cb.is_abandoned() {
                                gathers_of(op, given_up(pre.w, m), post, mode, res)
                            } else {
                                post == m.in_mode(WalkMode::Off) && res == Err::<GatheredView, Error>(e)
                            },
                            Ok(g) => build_gathers(op, pre.w, g, m, post, mode, res),
                        };
                    match r {
                        Err(_) => (given_up(pre.w, m), post, g),
                        Ok(g0) => lemma_build_gather_steps(op, s.building(b, cache), pre.w, g0, m, post, mode, g),
                    }
                },
            }
        },
    }
}

proof fn lemma_build_gather_steps(
    op: DeviceOp,
    built_from: Walk,
    start: World,
    g0: GatheredView,
    m: Walk,
    post: Walk,
    mode: ExecMode,
    g: GatheredView,
) -> (r: (Walk, Walk, GatheredView))
    requires
        gathers_of(op, built_from, m, mode, Ok(g0)),
        build_gathers(op, start, g0, m, post, mode, Ok(g)),
    ensures
        gathers_of(op, r.0, r.1, mode, Ok(r.2)),
        g.outs == r.2.outs,
        r.0 == built_from || exists|m: Walk| r.0 == #[trigger] given_up(start, m),
{
    let res = Ok::<GatheredView, Error>(g);
    match build_end(m.cb) {
        BuildEnd::Submitted | BuildEnd::Empty => (built_from, m, g0),
        BuildEnd::GivenUp => (given_up(start, m), post, g),
        BuildEnd::Finish => {
            let q = choose|q: Reply|
                {
                    let t = #[trigger] cb_finished(m, q);
                    match q {
                        Err(_) => gathers_of(op, given_up(start, t), post, mode, res),
                        Ok(cb) => exists|u: Walk, j: OpResult<u64>|
                            (#[trigger] enqueue_runs(t, cb, u, j)) && delivered(g0, u, j, post, res),
                    }
                };
            match q {
                Err(_) => (given_up(start, cb_finished(m, q)), post, g),
                Ok(_) => (built_from, m, g0),
            }
        },
    }
}

proof fn lemma_boundary_hands_out(
    op: DeviceOp,
    input: Input,
    pre: Walk,
    post: Walk,
    mode: ExecMode,
    g: GatheredView,
    p: ParcelView,
)
    requires
        threads(op, input),
        found(pre.w, pre.start, input) == Ok::<ParcelView, Error>(p),
        boundary_gathers(op, pre, post, mode, Ok(g)),
    ensures
        handed_out(g.outs, p),
    decreases op, 2nat,
{
    let (a, b, g1) = lemma_boundary_gather_steps(op, pre, post, mode, g);
    let again = found(a.w, a.start, input);
    assert(again is Ok);
    assert(again->Ok_0.home == p.home && again->Ok_0.value == p.value);
    lemma_gathers_hand_out(op, input, a, b, mode, g1, again->Ok_0);
}

/// What a waiting terminal hands out is what its graph gathered.
proof fn lemma_sync_gathers(op: DeviceOp, pre: Walk, post: Walk, outs: Seq<CheckoutView>) -> (r: (
    Walk,
    Walk,
    GatheredView,
))
    requires
        syncs(op, pre, post, Ok(outs)),
    ensures
        node_gathers(op, r.0, r.1, sync_mode(op), Ok(r.2)),
        r.2.outs == outs,
        r.0.w == pre.w,
{
    let res = Ok::<Seq<CheckoutView>, Error>(outs);
    let a = if crate::graph::seam_of(op) {
        let q = choose|q: Reply|
            {
                let s = #[trigger] pre.issued(Command::UserEvent, Seq::empty(), q);
                match q {
                    Err(c) => post == s && res == Err::<Seq<CheckoutView>, Error>(Error::OpenCl(c)),
                    Ok(ev) => sync_held(op, Walk { start: Some(ev), ..s }, post, res),
                }
            };
        Walk { start: Some(q->Ok_0), ..pre.issued(Command::UserEvent, Seq::empty(), q) }
    } else {
        Walk { start: None, ..pre }
    };
    assert(sync_held(op, a, post, res));
    let (m, h) = choose|m: Walk, h: OpResult<GatheredView>|
        #[trigger] passes(m, h) && kept(a, m) && node_gathers(op, a, m, sync_mode(op), h) && match h {
            Err(e) => crate::terminals::sync_fails(op, m, Seq::empty(), e, post, res),
            Ok(g) => sync_marked(op, g, m, post, res),
        };
    let g = h->Ok_0;
    let (s, j) = choose|s: Walk, j: OpResult<u64>|
        #[trigger] passes(s, j) && join_runs(g.deps, m, s, j) && match j {
            Err(e) => crate::terminals::sync_fails(op, s, g.outs, e, post, res),
            Ok(marker) => sync_waited(op, g, marker, s, post, res),
        };
    assert(sync_waited(op, g, j->Ok_0, s, post, res));
    (a, m, g)
}

/// A graph of in-place ops can be run again: it hands its memory out with the home
/// that it came from, and once that checkout is given back, the graph is as ready
/// as its input, which holds the same memory. Command buffers, replayed, built or
/// given up on the way, change nothing in that.
pub proof fn law_graphs_rearm(
    op: DeviceOp,
    input: Input,
    pre: Walk,
    post: Walk,
    outs: Seq<CheckoutView>,
    barrier: Option<u64>,
)
    requires
        threads(op, input),
        match input {
            Input::Concrete(_) => true,
            Input::Slot { cell, .. } => pre.w.slot(cell) is Bound,
            Input::Pipe(_) | Input::Scalar { .. } => false,
        },
        found(pre.w, None, input) is Ok,
        syncs(op, pre, post, Ok(outs)),
    ensures
        ({
            let p = found(pre.w, None, input)->Ok_0;
            let back = post.w.rehomed(outs[0].home, outs[0].value);
            &&& handed_out(outs, p)
            &&& found(back, barrier, input) matches Ok(q) && q.value.len() == 1 && q.value[0].id
                == p.value[0].id && q.home == p.home
            &&& readiness(back, input) is Ok ==> ready_of(op, back) is Ok
            &&& input is Concrete ==> ready_of(op, back) is Ok
        }),
{
    let (a, m, g) = lemma_sync_gathers(op, pre, post, outs);
    let p = found(a.w, a.start, input)->Ok_0;
    lemma_node_hands_out(op, input, a, m, sync_mode(op), g, p);
    lemma_ready_by_head(op, input, post.w.rehomed(outs[0].home, outs[0].value));
}

/// A sequence is ready where its first input is.
proof fn lemma_ready_by_head(op: DeviceOp, input: Input, w: World)
    requires
        threads(op, input),
    ensures
        readiness(w, input) is Ok ==> ready_of(op, w) is Ok,
    decreases op,
{
    match op {
        DeviceOp::AndThen(n) => {
            lemma_ready_by_head(n.source, input, w);
            lemma_ready_by_head(n.next, Input::Pipe(output_pipe_of(n.source)->Some_0), w);
        },
        _ => {},
    }
}

/// The pipes of an op that are cleared after a run.
pub open spec fn cleared_pipes(op: DeviceOp) -> Set<u64>
    decreases op,
{
    match op {
        DeviceOp::Leaf(l) => cells_of(l.outs()),
        DeviceOp::AndThen(n) => cleared_pipes(n.source).union(cleared_pipes(n.next)),
        DeviceOp::Arced(n) => set![n.out.cell],
        DeviceOp::ArcSplit(_) => Set::empty(),
        DeviceOp::Bundle(n) => cleared_from(n.ops, 0),
        DeviceOp::FanOut(n) => cleared_from(n.ops, 0),
        DeviceOp::Dyn(n) => set![n.out.cell],
        DeviceOp::OnDevice(n) => set![n.out.cell],
        DeviceOp::Host(n) => cells_of(n.handle@).union(cleared_pipes(n.source)),
        DeviceOp::HostWithContext(n) => cells_of(n.handle@).union(cleared_pipes(n.source)),
        DeviceOp::Profiled(n) => set![n.out.cell],
    }
}

/// The pipes of the ops from index `i` on that are cleared after a run.
pub open spec fn cleared_from(ops: Vec<DeviceOp>, i: nat) -> Set<u64>
    decreases ops, ops.len() - i,
{
    if i >= ops.len() {
        Set::empty()
    } else {
        cleared_pipes(ops[i as int]).union(cleared_from(ops, i + 1))
    }
}

/// The cells of pipes.
pub open spec fn cells_of(pipes: Seq<Pipe>) -> Set<u64> {
    Set::new(|c: u64| exists|k: int| 0 <= k < pipes.len() && (#[trigger] pipes[k]).cell == c)
}

proof fn lemma_reclaiming_pipes(pipes: Seq<Pipe>, i: nat, w: World, c: u64)
    ensures
        w.parcel(c) is None ==> reclaim_pipes(pipes, i, w).parcel(c) is None,
        (exists|k: int| i <= k < pipes.len() && (#[trigger] pipes[k]).cell == c) ==> reclaim_pipes(
            pipes,
            i,
            w,
        ).parcel(c) is None,
    decreases pipes.len() - i,
{
    if i < pipes.len() {
        let w1 = w.reclaimed(pipes[i as int].cell);
        lemma_reclaiming_pipes(pipes, i + 1, w1, c);
        if exists|k: int| i <= k < pipes.len() && (#[trigger] pipes[k]).cell == c {
            let k = choose|k: int| i <= k < pipes.len() && (#[trigger] pipes[k]).cell == c;
            if k > i {
                assert(i + 1 <= k < pipes.len() && pipes[k].cell == c);
            }
        }
    }
}

/// Clearing an op after a run leaves nothing on its pipes: each value went back to
/// where it came from.
pub proof fn law_reclaim_empties_pipes(op: DeviceOp, w: World, c: u64)
    ensures
        cleared_pipes(op).contains(c) ==> reclaim_of(op, w).parcel(c) is None,
        w.parcel(c) is None ==> reclaim_of(op, w).parcel(c) is None,
    decreases op,
{
    match op {
        DeviceOp::Leaf(l) => {
            lemma_reclaiming_pipes(l.outs(), 0, w, c);
        },
        DeviceOp::AndThen(n) => {
            law_reclaim_empties_pipes(n.source, w, c);
            law_reclaim_empties_pipes(n.next, reclaim_of(n.source, w), c);
        },
        DeviceOp::Bundle(n) => {
            lemma_reclaiming_from(n.ops, 0, w, c);
        },
        DeviceOp::FanOut(n) => {
            lemma_reclaiming_from(n.ops, 0, w, c);
        },
        DeviceOp::Host(n) => {
            lemma_reclaiming_pipes(n.handle@, 0, w, c);
            law_reclaim_empties_pipes(n.source, reclaim_pipes(n.handle@, 0, w), c);
        },
        DeviceOp::HostWithContext(n) => {
            lemma_reclaiming_pipes(n.handle@, 0, w, c);
            law_reclaim_empties_pipes(n.source, reclaim_pipes(n.handle@, 0, w), c);
        },
        _ => {},
    }
}

proof fn lemma_reclaiming_from(ops: Vec<DeviceOp>, i: nat, w: World, c: u64)
    ensures
        cleared_from(ops, i).contains(c) ==> reclaim_from(ops, i, w).parcel(c) is None,
        w.parcel(c) is None ==> reclaim_from(ops, i, w).parcel(c) is None,
    decreases ops, ops.len() - i,
{
    if i < ops.len() {
        law_reclaim_empties_pipes(ops[i as int], w, c);
        lemma_reclaiming_from(ops, i + 1, reclaim_of(ops[i as int], w), c);
    }
}

} // verus!
