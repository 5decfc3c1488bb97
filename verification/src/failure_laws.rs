//! Where a run may fail: for want of a value at an input, where the driver refuses a command,
//! or where a part fails. In every other case it succeeds.

use crate::access::MEM_READ_ONLY;
use crate::cb::{leaf_built, span_closed};
use crate::chain::{
    chain_enqueued, chain_failed, chain_flushed, chain_held, chain_marked, chain_starts, forgets_queue, joins,
    preferred, releases, winds_down, ChainStart,
};
use crate::copies::{copy_after, Copying};
use crate::entries::{forward_after, lift_after, Forward, Lift};
use crate::error::{Error, OpResult};
use crate::exec_ctx::{kept, ExecMode, Walk, WalkMode};
use crate::fill_kernel::{
    byte_fill_launched, byte_fill_written, byte_fills, fast_fills, fast_path_name, kernel_fills, launches,
    releases_buffer,
};
use crate::graph::{
    output_pipe_of, outs_of, ready_of, restamp_of, seam_of, AndThen, ArcSplit, Arced, Bundle, DeviceDynOp,
    DeviceOp, FanOut, OnDevice, Profiled,
};
use crate::graph_laws::hosts;
use crate::host::{maps_from, seam_ends, seam_mapped, seam_runs, unmaps_from};
use crate::ids::{with_id, with_ids};
use crate::image_ops::{image_download_after, image_upload_after, ImageDownloadEager, ImageUploadEager};
use crate::input::{after_taking, busy_error, empty_pipe_error, found, pipe_of, slot_of, Input};
use crate::kernel_op::{args_set, run_command, sets_from, KernelLaunch, KernelOp};
use crate::launch::{ArgValue, Grid, KernelArgs, LaunchSpec};
use crate::launch_op::{
    handed_on, launch_built, launch_cells, launch_ends, launch_points, launch_recorded, memory_values,
    number_value, prepared, recorded_launch, sharing, taken_deps, Launch, LaunchArg, NumberArg, Prepared,
    TakenView,
};
use crate::leaf::{leaf_after, Leaf, Style, Work};
use crate::leaves::{buf_ctx, download_after, svm_ctx, transfer_after, Download, LeafNode, TransferToDevice};
use crate::obj::{Class, Command, Contents, HostRef, MemRef, Obj, Reply};
use crate::seeds::{alloc_after, seed_after, seed_busy, waited_out, Seed, SeedKind};
use crate::slots::SlotState;
use crate::store::{ParcelView, Pipe, World};
use crate::terminal_laws::{law_every_worker_is_joined, law_failed_start_winds_down};
use crate::terminals::{
    cleared, here, image_ctx, submit_runs, submits, sync_ends, sync_fails, sync_held, sync_marked, sync_mode,
    sync_waited, syncs,
};
use crate::walk::{
    abandoned_error, arced_after, back_from, cell_of, chain_ends, child_gathers, child_runs, collects_from,
    collects_of, drain_from, fan_ends, join_runs, merged, missing_of, node_gathers, node_runs, out_values, passes,
    profile_ends, routed, runs_from, runs_of, scatter_from, seam_delayed, seam_reach, seam_step, split_from,
    CheckoutView, GatheredView,
};
use vstd::prelude::*;

verus! {

/// Whether the driver refused one of the commands between two states with this error.
pub open spec fn refused(pre: Walk, post: Walk, e: Error) -> bool {
    exists|k: int|
        pre.trace.len() <= k < post.trace.len() && (#[trigger] post.trace[k]).reply is Err && e == Error::OpenCl(
            post.trace[k].reply->Err_0,
        )
}

/// Whether a run finds one object at an input.
pub open spec fn finds_one(w: World, barrier: Option<u64>, input: Input) -> bool {
    found(w, barrier, input) matches Ok(p) && p.value.len() == 1
}

/// An op on one object succeeds wherever it finds one and the driver performs its commands; a
/// host write needs data of the memory's length, and is refused by name of both lengths
/// otherwise.
pub proof fn law_op_succeeds_where_the_driver_does(l: Leaf, pre: Walk, mode: ExecMode, ev: u64, done: u64)
    requires
        finds_one(pre.w, pre.start, l.input),
    ensures
        ({
            let o = found(pre.w, pre.start, l.input)->Ok_0.value[0];
            let mismatch = l.style == Style::Host && (l.work matches Work::HostWrite(src) && src.len != o.len);
            let res = leaf_after(l, pre, mode, Ok(ev), Ok(done)).1;
            &&& !mismatch ==> res is Ok
            &&& l.style == Style::Host && (l.work matches Work::HostWrite(src) && src.len != o.len) ==> res == Err::<
                (),
                Error,
            >(Error::LengthMismatch { src: l.work->HostWrite_0.len, dst: o.len })
        }),
{
}

/// An op on one object fails with the error of its input, where that has none, and is refused
/// where it finds more or less than one.
pub proof fn law_op_fails_with_its_input(l: Leaf, pre: Walk, mode: ExecMode, r1: Reply, r2: Reply)
    ensures
        found(pre.w, pre.start, l.input) matches Err(e) ==> leaf_after(l, pre, mode, r1, r2) == (pre, Err::<(), Error>(e)),
        (found(pre.w, pre.start, l.input) matches Ok(p) && p.value.len() != 1) ==> (leaf_after(l, pre, mode, r1, r2).1 matches
            Err(e) && e is InvalidArgument) && leaf_after(l, pre, mode, r1, r2).0.trace == pre.trace,
{
}

/// A copy succeeds wherever it finds its two objects and the driver performs it.
pub proof fn law_copy_succeeds_where_the_driver_does(c: Copying, pre: Walk, ev: u64, code: i32)
    requires
        finds_one(pre.w, pre.start, c.src),
        finds_one(after_taking(pre.w, c.src), pre.start, c.dst),
    ensures
        copy_after(c, pre, Ok(ev)).1 is Ok,
        pre.cb is Off ==> copy_after(c, pre, Err(code)).1 == Err::<(), Error>(Error::OpenCl(code)),
{
}

/// A download, an image download and a transfer succeed wherever they find their object and
/// the driver performs their commands; the first command that it refuses is the error.
pub proof fn law_moves_succeed_where_the_driver_does(
    d: Download,
    g: ImageDownloadEager,
    t: TransferToDevice,
    pre: Walk,
    mode: ExecMode,
    h: u64,
    ev: u64,
    code: i32,
    r: Reply,
)
    ensures
        finds_one(pre.w, pre.start, d.buf) ==> {
            &&& download_after(d, pre, mode, Ok(h), Ok(ev)).1 is Ok
            &&& download_after(d, pre, mode, Err(code), r).1 == Err::<(), Error>(Error::OpenCl(code))
            &&& download_after(d, pre, mode, Ok(h), Err(code)).1 == Err::<(), Error>(Error::OpenCl(code))
        },
        finds_one(pre.w, pre.start, g.img) ==> {
            &&& image_download_after(g, pre, Ok(h), Ok(ev)).1 is Ok
            &&& image_download_after(g, pre, Err(code), r).1 == Err::<(), Error>(Error::OpenCl(code))
            &&& image_download_after(g, pre, Ok(h), Err(code)).1 == Err::<(), Error>(Error::OpenCl(code))
        },
        finds_one(pre.w, pre.start, t.buf) ==> {
            &&& transfer_after(t, pre, Ok(h), Ok(ev)).1 is Ok
            &&& transfer_after(t, pre, Err(code), r).1 == Err::<(), Error>(Error::OpenCl(code))
            &&& transfer_after(t, pre, Ok(h), Err(code)).1 == Err::<(), Error>(Error::OpenCl(code))
        },
{
}

/// A value that is only passed on is, wherever there is one.
pub proof fn law_found_values_are_passed_on(l: Lift, f: Forward, pre: Walk)
    ensures
        lift_after(l, pre).1 is Ok <==> found(pre.w, pre.start, l.input) is Ok,
        forward_after(f, pre).1 is Ok <==> found(pre.w, pre.start, f.input) is Ok,
        found(pre.w, pre.start, l.input) matches Err(e) ==> lift_after(l, pre) == (pre, Err::<(), Error>(e)),
        found(pre.w, pre.start, f.input) matches Err(e) ==> forward_after(f, pre) == (pre, Err::<(), Error>(e)),
{
}

/// An allocation and an image upload succeed wherever the driver performs them; shared memory
/// needs a device that has it.
pub proof fn law_allocations_succeed_where_the_driver_does(
    pre: Walk,
    class: Class,
    len: usize,
    bytes: usize,
    flags: u64,
    contents: Contents,
    out: Pipe,
    u: ImageUploadEager,
    h: u64,
    ev: u64,
    code: i32,
    r: Reply,
)
    ensures
        ({
            let shared = class == Class::Mapped || class == Class::MappedUninit || class == Class::Usm || class
                == Class::UsmUninit;
            &&& pre.has_svm || !shared ==> alloc_after(pre, class, len, bytes, flags, contents, out, Ok(h)).1 is Ok
            &&& pre.has_svm || !shared ==> alloc_after(pre, class, len, bytes, flags, contents, out, Err(code)).1 == Err::<
                (),
                Error,
            >(Error::OpenCl(code))
            &&& shared && !pre.has_svm ==> alloc_after(pre, class, len, bytes, flags, contents, out, r) == (pre, Err::<
                (),
                Error,
            >(Error::SvmNotAvailable))
        }),
        image_upload_after(u, pre, Ok(h), Ok(ev), r).1 is Ok,
        image_upload_after(u, pre, Err(code), r, r).1 == Err::<(), Error>(Error::OpenCl(code)),
        image_upload_after(u, pre, Ok(h), Err(code), r).1 == Err::<(), Error>(Error::OpenCl(code)),
{
}

proof fn lemma_waits_succeed(evs: Seq<u64>, i: nat, s: Walk, qs: Seq<Reply>)
    requires
        forall|k: int| i <= k < evs.len() ==> (#[trigger] qs[k]) is Ok,
    ensures
        waited_out(evs, i, s, qs).1 is Ok,
    decreases evs.len() - i,
{
    if i < evs.len() {
        assert(qs[i as int] is Ok);
        let t = s.issued(Command::Wait { event: evs[i as int] }, Seq::empty(), qs[i as int]);
        lemma_waits_succeed(evs, i + 1, t, qs);
    }
}

/// A seeded buffer that is at hand is handed out wherever the driver performs the waits and
/// the write.
pub proof fn law_seeds_succeed_where_the_driver_does(u: Seed, pre: Walk, qs: Seq<Reply>, h: u64)
    requires
        pre.w.held(u.buf) is Some,
        forall|k: int|
            0 <= k < pre.w.busy_until(pre.w.held(u.buf)->Some_0.mem_spec()).len() ==> (#[trigger] qs[k]) is Ok,
    ensures
        seed_after(u, pre, qs, Ok(h)).1 is Ok,
{
    let o = pre.w.held(u.buf)->Some_0;
    let s = pre.at(pre.w.lent(u.buf));
    lemma_waits_succeed(s.w.busy_until(o.mem_spec()), 0, s, qs);
}

proof fn lemma_sets_fail(kernel: u64, args: Seq<ArgValue>, i: nat, pre: Walk, post: Walk, res: OpResult<()>)
    requires
        sets_from(kernel, args, i, pre, post, res),
    ensures
        pre.trace.len() <= post.trace.len(),
        res matches Err(e) ==> refused(pre, post, e),
        post == (Walk { trace: post.trace, ..pre }),
    decreases args.len() - i,
{
    if i < args.len() {
        let q = choose|q: Reply|
            {
                let s = #[trigger] pre.issued(
                    Command::SetArg { kernel, index: i as usize, value: args[i as int] },
                    Seq::empty(),
                    q,
                );
                match q {
                    Err(c) => post == s && res == Err::<(), Error>(Error::OpenCl(c)),
                    Ok(_) => sets_from(kernel, args, i + 1, s, post, res),
                }
            };
        let s = pre.issued(
            Command::SetArg { kernel, index: i as usize, value: args[i as int] },
            Seq::empty(),
            q,
        );
        if let Err(c) = q {
            assert(post.trace[pre.trace.len() as int].reply is Err);
        } else {
            lemma_sets_fail(kernel, args, i + 1, s, post, res);
            if let Err(e) = res {
                let k = choose|k: int|
                    s.trace.len() <= k < post.trace.len() && (#[trigger] post.trace[k]).reply is Err && e == Error::OpenCl(
                        post.trace[k].reply->Err_0,
                    );
                assert(post.trace[k].reply is Err);
            }
        }
    }
}

/// A kernel launch fails only where the driver refuses an argument or the launch.
pub proof fn law_kernel_fails_where_the_driver_does<A: KernelArgs>(
    k: KernelLaunch<A>,
    extra: Seq<u64>,
    pre: Walk,
    post: Walk,
    e: Error,
)
    requires
        k.enqueues(extra, pre, post, Err(e)),
    ensures
        refused(pre, post, e),
{
    let res = Err::<(Vec<Obj>, u64), Error>(e);
    let (m, r) = choose|m: Walk, r: OpResult<()>|
        #[trigger] args_set(m, r) && sets_from(k.kernel, k.args.all_values(), 0, pre, m, r) && match r {
            Err(e) => post == m && res == Err::<(Vec<Obj>, u64), Error>(e),
            Ok(_) => exists|t: Walk, j: OpResult<u64>|
                (#[trigger] launches(run_command(k.kernel, k.grid@), k.deps@ + extra, m, t, j)) && match j {
                    Err(e) => post == t && res == Err::<(Vec<Obj>, u64), Error>(e),
                    Ok(ev) => post == t.at(t.w.using(k.args.all_uses(ev))) && res == Ok::<(Vec<Obj>, u64), Error>(
                        (k.outputs, ev),
                    ),
                },
        };
    lemma_sets_fail(k.kernel, k.args.all_values(), 0, pre, m, r);
    if r is Ok {
        let (t, j) = choose|t: Walk, j: OpResult<u64>|
            (#[trigger] launches(run_command(k.kernel, k.grid@), k.deps@ + extra, m, t, j)) && match j {
                Err(e) => post == t && res == Err::<(Vec<Obj>, u64), Error>(e),
                Ok(ev) => post == t.at(t.w.using(k.args.all_uses(ev))) && res == Ok::<(Vec<Obj>, u64), Error>(
                    (k.outputs, ev),
                ),
            };
        assert(post.trace[m.trace.len() as int].reply is Err);
    }
}

/// A launch that fails does so for want of its grid, a number or memory, or because the
/// driver refuses one of its commands.
pub proof fn law_launch_fails_where_it_must(l: Launch, pre: Walk, post: Walk, mode: ExecMode, e: Error)
    requires
        l.runs(pre, post, mode, Err(e)),
    ensures
        ({
            let d0 = Prepared { w: pre.w, values: Seq::empty(), taken: Seq::empty(), cells: Seq::empty() };
            ||| l.grid.reading(pre.w) == Err::<LaunchSpec, Error>(e)
            ||| prepared(l.args@, 0, d0, pre.start).1 == Err::<(), Error>(e)
            ||| refused(pre, post, e)
        }),
{
    let res = Err::<(), Error>(e);
    let d0 = Prepared { w: pre.w, values: Seq::empty(), taken: Seq::empty(), cells: Seq::empty() };
    let (d, r) = prepared(l.args@, 0, d0, pre.start);
    if l.grid.reading(pre.w) is Ok && r is Ok {
        let g = l.grid.reading(pre.w)->Ok_0@;
        let s = pre.at(d.w);
        if pre.cb is Off {
            let (m, h) = choose|m: Walk, r: OpResult<()>|
                #[trigger] args_set(m, r) && sets_from(l.kernel, d.values, 0, s, m, r) && match r {
                    Err(e) => post == m && res == Err::<(), Error>(e),
                    Ok(_) => exists|t: Walk, j: OpResult<u64>|
                        #[trigger] passes(t, j) && launches(run_command(l.kernel, g), taken_deps(d.taken, 0), m, t, j)
                            && match j {
                            Err(e) => post == t && res == Err::<(), Error>(e),
                            Ok(ev) => launch_ends(d, ev, t, post, mode, res),
                        },
                };
            lemma_sets_fail(l.kernel, d.values, 0, s, m, h);
            if h is Err {
                let k = choose|k: int|
                    s.trace.len() <= k < m.trace.len() && (#[trigger] m.trace[k]).reply is Err && e == Error::OpenCl(
                        m.trace[k].reply->Err_0,
                    );
                assert(post.trace[k].reply is Err);
            } else {
                let (t, j) = choose|t: Walk, j: OpResult<u64>|
                    #[trigger] passes(t, j) && launches(run_command(l.kernel, g), taken_deps(d.taken, 0), m, t, j)
                        && match j {
                        Err(e) => post == t && res == Err::<(), Error>(e),
                        Ok(ev) => launch_ends(d, ev, t, post, mode, res),
                    };
                assert(t.trace.len() == m.trace.len() + 1);
                if j is Err {
                    assert(post.trace[m.trace.len() as int].reply is Err);
                } else {
                    assert(post.trace[t.trace.len() as int].reply is Err);
                }
            }
        } else if pre.cb is Build {
            lemma_recorded_launch_fails(l, g, d, s, post, e);
            let k = choose|k: int|
                s.trace.len() <= k < post.trace.len() && (#[trigger] post.trace[k]).reply is Err && e == Error::OpenCl(
                    post.trace[k].reply->Err_0,
                );
            assert(post.trace[k].reply is Err);
        }
    }
}

proof fn lemma_recorded_launch_fails(l: Launch, g: Grid, d: Prepared, s: Walk, post: Walk, e: Error)
    requires
        s.cb is Build,
        launch_recorded(
            l.kernel,
            g,
            d,
            launch_cells(l.grid, d.cells),
            s,
            post,
            Err(e),
        ),
    ensures
        refused(s, post, e),
{
    let res = Err::<(), Error>(e);
    let cells = launch_cells(l.grid, d.cells);
    let start = sharing(s, d.taken).noting(cells);
    let (b, waits) = launch_built(d.taken, 0, start, Seq::empty());
    lemma_built_trace(d.taken, 0, start, Seq::empty());
    let (m, r) = choose|m: Walk, r: OpResult<()>|
        #[trigger] args_set(m, r) && sets_from(l.kernel, d.values, 0, b, m, r) && match r {
            Err(e) => post == m && res == Err::<(), Error>(e),
            Ok(_) => exists|q: Reply|
                {
                    let t = #[trigger] m.recording(recorded_launch(l.kernel, g), waits, q);
                    let u = match q {
                        Ok(sp) => launch_points(d.taken, 0, t, sp),
                        Err(_) => t,
                    };
                    post == handed_on(d.taken, 0, u, Seq::empty()) && res == Ok::<(), Error>(())
                },
        };
    lemma_sets_fail(l.kernel, d.values, 0, b, m, r);
    let k = choose|k: int|
        b.trace.len() <= k < m.trace.len() && (#[trigger] m.trace[k]).reply is Err && e == Error::OpenCl(
            m.trace[k].reply->Err_0,
        );
    assert(post.trace[k].reply is Err);
}

proof fn lemma_built_trace(taken: Seq<TakenView>, i: nat, s: Walk, waits: Seq<u64>)
    ensures
        launch_built(taken, i, s, waits).0.trace == s.trace,
    decreases taken.len() - i,
{
    if i < taken.len() {
        let t = taken[i as int];
        let pipe = pipe_of(s.w, t.input);
        lemma_built_trace(
            taken,
            i + 1,
            leaf_built(s, t.parcel.deps, slot_of(t.input), pipe, t.out.cell),
            with_ids(waits, s.sp_of(pipe)),
        );
    }
}

/// Where a run takes the value of an input from.
pub enum Origin {
    Cell(u64),
    Slot(u64),
    Pipe(u64),
    Nowhere,
}

/// Where a run takes the value of an input from.
pub open spec fn origin_of(w: World, input: Input) -> Origin {
    match input {
        Input::Concrete(c) => Origin::Cell(c),
        Input::Pipe(p) => Origin::Pipe(p.cell),
        Input::Slot { cell, .. } => match w.slot(cell) {
            SlotState::FedByPipe(p) => Origin::Pipe(p.cell),
            _ => Origin::Slot(cell),
        },
        Input::Scalar { .. } => Origin::Nowhere,
    }
}

proof fn lemma_taken_apart(w: World, barrier: Option<u64>, a: Input, b: Input)
    requires
        origin_of(w, a) != origin_of(w, b),
    ensures
        found(after_taking(w, a), barrier, b) == found(w, barrier, b),
        after_taking(w, a).scalars == w.scalars,
        found(w, barrier, b) is Ok ==> origin_of(after_taking(w, a), b) == origin_of(w, b),
{
}

/// Whether an argument of a launch is at hand: a number that can be read, or one object.
pub open spec fn at_hand(w: World, barrier: Option<u64>, a: LaunchArg) -> bool {
    match a {
        LaunchArg::Local(_) => true,
        LaunchArg::Number(n) => n.reading(w) matches Ok(x) && !(x is Object) && !(x is Grid),
        LaunchArg::Memory { input, .. } => finds_one(w, barrier, input),
    }
}

/// A launch finds all its arguments where each is at hand and no two take their memory from
/// the same place.
pub proof fn law_launch_finds_what_is_at_hand(args: Seq<LaunchArg>, i: nat, d: Prepared, barrier: Option<u64>)
    requires
        forall|k: int| i <= k < args.len() ==> at_hand(d.w, barrier, #[trigger] args[k]),
        forall|a: int, b: int|
            i <= a < b < args.len() && (#[trigger] args[a]) is Memory && (#[trigger] args[b]) is Memory ==> origin_of(
                d.w,
                args[a]->Memory_input,
            ) != origin_of(d.w, args[b]->Memory_input),
    ensures
        prepared(args, i, d, barrier).1 is Ok,
    decreases args.len() - i,
{
    if i < args.len() {
        assert(at_hand(d.w, barrier, args[i as int]));
        match args[i as int] {
            LaunchArg::Local(bytes) => {
                let e = Prepared { values: d.values.push(ArgValue::Local(bytes)), ..d };
                law_launch_finds_what_is_at_hand(args, i + 1, e, barrier);
            },
            LaunchArg::Number(n) => {
                let x = n.reading(d.w)->Ok_0;
                let v = number_value(x)->Some_0;
                let e = Prepared {
                    values: d.values.push(v),
                    cells: match n {
                        NumberArg::Slot { cell, .. } => with_id(d.cells, cell),
                        NumberArg::Given(_) => d.cells,
                    },
                    ..d
                };
                law_launch_finds_what_is_at_hand(args, i + 1, e, barrier);
            },
            LaunchArg::Memory { input, out } => {
                let p = found(d.w, barrier, input)->Ok_0;
                let w = after_taking(d.w, input);
                let e = Prepared {
                    w,
                    values: d.values + memory_values(p.value[0]),
                    taken: d.taken.push(TakenView { parcel: p, input, out }),
                    cells: d.cells,
                };
                assert forall|k: int| i + 1 <= k < args.len() implies at_hand(w, barrier, #[trigger] args[k]) by {
                    assert(at_hand(d.w, barrier, args[k]));
                    match args[k] {
                        LaunchArg::Memory { input: other, .. } => {
                            assert(args[i as int] is Memory && args[k] is Memory);
                            lemma_taken_apart(d.w, barrier, input, other);
                        },
                        LaunchArg::Number(n) => {
                            assert(w.scalars == d.w.scalars);
                            assert(n.reading(w) == n.reading(d.w));
                        },
                        _ => {},
                    }
                }
                assert forall|a: int, b: int|
                    i + 1 <= a < b < args.len() && (#[trigger] args[a]) is Memory && (#[trigger] args[b]) is Memory implies origin_of(
                    w,
                    args[a]->Memory_input,
                ) != origin_of(w, args[b]->Memory_input) by {
                    assert(at_hand(d.w, barrier, args[a]) && at_hand(d.w, barrier, args[b]));
                    assert(args[i as int] is Memory);
                    lemma_taken_apart(d.w, barrier, input, args[a]->Memory_input);
                    lemma_taken_apart(d.w, barrier, input, args[b]->Memory_input);
                }
                law_launch_finds_what_is_at_hand(args, i + 1, e, barrier);
            },
        }
    }
}

/// A fill by a kernel that fails does so because there is too much to count, or because the
/// driver refuses one of its commands.
pub proof fn law_kernel_fill_fails_where_it_must(
    data: MemRef,
    pattern: HostRef,
    count: usize,
    deps: Seq<u64>,
    pre: Walk,
    post: Walk,
    e: Error,
)
    requires
        kernel_fills(data, pattern, count, deps, pre, post, Err(e)),
    ensures
        (count > u32::MAX && e is InvalidArgument) || (pattern.bytes > u32::MAX && e is InvalidArgument) || refused(
            pre,
            post,
            e,
        ),
{
    let res = Err::<u64, Error>(e);
    if count <= u32::MAX && !(pattern.bytes > u32::MAX && e is InvalidArgument) {
        let q = choose|q: Reply|
            {
                let s = #[trigger] pre.issued(Command::FillProgram, Seq::empty(), q);
                match q {
                    Err(c) => post == s && res == Err::<u64, Error>(Error::OpenCl(c)),
                    Ok(program) => if fast_path_name(pattern.bytes) is Some {
                        fast_fills(program, data, pattern, count, deps, s, post, res)
                    } else if pattern.bytes > u32::MAX {
                        post == s && res == Err::<u64, Error>(
                            Error::InvalidArgument("fill pattern size exceeds u32::MAX"),
                        )
                    } else {
                        byte_fills(program, data, pattern, count, deps, s, post, res)
                    },
                }
            };
        let s = pre.issued(Command::FillProgram, Seq::empty(), q);
        let at = pre.trace.len() as int;
        if q is Err {
            assert(post.trace[at].reply is Err);
        } else {
            let program = q->Ok_0;
            if fast_path_name(pattern.bytes) is Some {
                let k = choose|q: Reply|
                    {
                        let t = #[trigger] s.issued(
                            Command::FillKernel { program, width: pattern.bytes },
                            Seq::empty(),
                            q,
                        );
                        match q {
                            Err(c) => post == t && res == Err::<u64, Error>(Error::OpenCl(c)),
                            Ok(kernel) => launches(
                                Command::RunFill { kernel, data, pattern, count: count as u32, global: count },
                                deps,
                                t,
                                post,
                                res,
                            ),
                        }
                    };
                if k is Err {
                    assert(post.trace[at + 1].reply is Err);
                } else {
                    assert(post.trace[at + 2].reply is Err);
                }
            } else {
                lemma_byte_fill_fails(program, data, pattern, count, deps, s, post, e);
                let k = choose|k: int|
                    s.trace.len() <= k < post.trace.len() && (#[trigger] post.trace[k]).reply is Err && e == Error::OpenCl(
                        post.trace[k].reply->Err_0,
                    );
                assert(post.trace[k].reply is Err);
            }
        }
    }
}

proof fn lemma_byte_fill_fails(
    program: u64,
    data: MemRef,
    pattern: HostRef,
    count: usize,
    deps: Seq<u64>,
    s: Walk,
    post: Walk,
    e: Error,
)
    requires
        byte_fills(program, data, pattern, count, deps, s, post, Err(e)),
    ensures
        refused(s, post, e),
{
    let res = Err::<u64, Error>(e);
    let alloc = Command::Alloc {
        class: Class::DeviceUninit,
        len: pattern.bytes,
        bytes: pattern.bytes,
        flags: MEM_READ_ONLY,
        contents: Contents::Unwritten,
    };
    let at = s.trace.len() as int;
    let q1 = choose|q1: Reply|
        {
            let s1 = #[trigger] s.issued(alloc, Seq::empty(), q1);
            match q1 {
                Err(c) => post == s1 && res == Err::<u64, Error>(Error::OpenCl(c)),
                Ok(buf) => byte_fill_written(program, buf, data, pattern, count, deps, s1, post, res),
            }
        };
    let s1 = s.issued(alloc, Seq::empty(), q1);
    if q1 is Err {
        assert(post.trace[at].reply is Err);
    } else {
        let buf = q1->Ok_0;
        let write = Command::Write { mem: MemRef::Buffer(buf), src: pattern, blocking: true };
        let q2 = choose|q2: Reply|
            {
                let s2 = #[trigger] s1.issued(write, Seq::empty(), q2);
                match q2 {
                    Err(c) => releases_buffer(buf, s2, post) && res == Err::<u64, Error>(
                        Error::OpenCl(c),
                    ),
                    Ok(_) => byte_fill_launched(program, buf, data, pattern, count, deps, s2, post, res),
                }
            };
        let s2 = s1.issued(write, Seq::empty(), q2);
        if q2 is Err {
            assert(post.trace[at + 1].reply is Err);
        } else {
            let q3 = choose|q3: Reply|
                {
                    let s3 = #[trigger] s2.issued(Command::FillKernel { program, width: 0 }, Seq::empty(), q3);
                    match q3 {
                        Err(c) => releases_buffer(buf, s3, post) && res == Err::<u64, Error>(
                            Error::OpenCl(c),
                        ),
                        Ok(kernel) => exists|m: Walk| #[trigger] launches(
                            Command::RunFillBytes {
                                kernel,
                                data,
                                pattern: buf,
                                width: pattern.bytes as u32,
                                count: count as u32,
                                global: count,
                            },
                            deps,
                            s3,
                            m,
                            res,
                        ) && releases_buffer(buf, m, post),
                    }
                };
            if q3 is Err {
                assert(post.trace[at + 2].reply is Err);
            } else {
                assert(post.trace[at + 3].reply is Err);
            }
        }
    }
}

proof fn lemma_maps_fail(
    value: Seq<Obj>,
    i: nat,
    deps: Seq<u64>,
    got: Seq<u64>,
    pre: Walk,
    post: Walk,
    res: OpResult<Seq<u64>>,
)
    requires
        maps_from(value, i, deps, got, pre, post, res),
    ensures
        pre.trace.len() <= post.trace.len(),
        res matches Err(e) ==> refused(pre, post, e),
    decreases value.len() - i,
{
    if i < value.len() {
        if value[i as int].class == Class::Plain {
            lemma_maps_fail(value, i + 1, deps, got, pre, post, res);
        } else {
            let command = Command::MapMem { mem: value[i as int].mem_spec(), writable: true };
            let q = choose|q: Reply|
                {
                    let s = #[trigger] pre.issued(command, deps, q);
                    match q {
                        Err(c) => post == s && res == Err::<Seq<u64>, Error>(Error::OpenCl(c)),
                        Ok(ev) => maps_from(value, i + 1, deps, got.push(ev), s, post, res),
                    }
                };
            let s = pre.issued(command, deps, q);
            if q is Err {
                assert(post.trace[pre.trace.len() as int].reply is Err);
            } else {
                lemma_maps_fail(value, i + 1, deps, got.push(q->Ok_0), s, post, res);
                if let Err(e) = res {
                    lemma_refused_later(pre, s, post, e);
                }
            }
        }
    }
}

proof fn lemma_unmaps_fail(
    value: Seq<Obj>,
    i: nat,
    fire: u64,
    got: Seq<u64>,
    pre: Walk,
    post: Walk,
    res: OpResult<Seq<u64>>,
)
    requires
        unmaps_from(value, i, fire, got, pre, post, res),
    ensures
        pre.trace.len() <= post.trace.len(),
        res matches Err(e) ==> refused(pre, post, e),
    decreases value.len() - i,
{
    if i < value.len() {
        if value[i as int].class == Class::Plain {
            lemma_unmaps_fail(value, i + 1, fire, got, pre, post, res);
        } else {
            let command = Command::UnmapMem { mem: value[i as int].mem_spec() };
            let q = choose|q: Reply|
                {
                    let s = #[trigger] pre.issued(command, seq![fire], q);
                    match q {
                        Err(c) => post == s && res == Err::<Seq<u64>, Error>(Error::OpenCl(c)),
                        Ok(ev) => unmaps_from(value, i + 1, fire, got.push(ev), s, post, res),
                    }
                };
            let s = pre.issued(command, seq![fire], q);
            if q is Err {
                assert(post.trace[pre.trace.len() as int].reply is Err);
            } else {
                lemma_unmaps_fail(value, i + 1, fire, got.push(q->Ok_0), s, post, res);
                if let Err(e) = res {
                    lemma_refused_later(pre, s, post, e);
                }
            }
        }
    }
}

proof fn lemma_refused_later(pre: Walk, s: Walk, post: Walk, e: Error)
    requires
        refused(s, post, e),
        pre.trace.len() <= s.trace.len(),
    ensures
        refused(pre, post, e),
{
    let k = choose|k: int|
        s.trace.len() <= k < post.trace.len() && (#[trigger] post.trace[k]).reply is Err && e == Error::OpenCl(
            post.trace[k].reply->Err_0,
        );
    assert(post.trace[k].reply is Err);
}

proof fn lemma_refused_before(pre: Walk, m: Walk, post: Walk, e: Error)
    requires
        refused(pre, m, e),
        m.trace.len() <= post.trace.len(),
        forall|k: int| 0 <= k < m.trace.len() ==> m.trace[k] == #[trigger] post.trace[k],
    ensures
        refused(pre, post, e),
{
    let k = choose|k: int|
        pre.trace.len() <= k < m.trace.len() && (#[trigger] m.trace[k]).reply is Err && e == Error::OpenCl(
            m.trace[k].reply->Err_0,
        );
    assert(post.trace[k] == m.trace[k]);
}

/// Weaving in a host closure fails only where the driver refuses one of its commands.
pub proof fn law_seam_fails_where_the_driver_does(
    value: Seq<Obj>,
    deps: Seq<u64>,
    closure: u64,
    with_context: bool,
    pre: Walk,
    post: Walk,
    e: Error,
)
    requires
        seam_runs(value, deps, closure, with_context, pre, post, Err(e)),
    ensures
        refused(pre, post, e),
{
    let res = Err::<Seq<u64>, Error>(e);
    let (m1, r1) = choose|m1: Walk, r1: OpResult<Seq<u64>>|
        (#[trigger] maps_from(value, 0, deps, Seq::empty(), pre, m1, r1)) && match r1 {
            Err(e) => post == m1 && res == Err::<Seq<u64>, Error>(e),
            Ok(maps) => seam_mapped(value, deps, maps, closure, with_context, m1, post, res),
        };
    lemma_maps_fail(value, 0, deps, Seq::empty(), pre, m1, r1);
    if let Ok(maps) = r1 {
        let q1 = choose|q1: Reply|
            {
                let s1 = #[trigger] m1.issued(Command::UserEvent, Seq::empty(), q1);
                match q1 {
                    Err(c) => post == s1 && res == Err::<Seq<u64>, Error>(Error::OpenCl(c)),
                    Ok(fire) => exists|q2: Reply|
                        {
                            let s2 = #[trigger] s1.issued(Command::UserEvent, Seq::empty(), q2);
                            match q2 {
                                Err(c) => post == s2 && res == Err::<Seq<u64>, Error>(Error::OpenCl(c)),
                                Ok(proceed) => exists|m3: Walk, r3: OpResult<Seq<u64>>|
                                    (#[trigger] unmaps_from(value, 0, fire, Seq::empty(), s2, m3, r3)) && seam_ends(
                                        value,
                                        deps,
                                        maps,
                                        closure,
                                        with_context,
                                        fire,
                                        proceed,
                                        m3,
                                        r3,
                                        post,
                                        res,
                                    ),
                            }
                        },
                }
            };
        let s1 = m1.issued(Command::UserEvent, Seq::empty(), q1);
        if q1 is Err {
            assert(post.trace[m1.trace.len() as int].reply is Err);
        } else {
            let fire = q1->Ok_0;
            let q2 = choose|q2: Reply|
                {
                    let s2 = #[trigger] s1.issued(Command::UserEvent, Seq::empty(), q2);
                    match q2 {
                        Err(c) => post == s2 && res == Err::<Seq<u64>, Error>(Error::OpenCl(c)),
                        Ok(proceed) => exists|m3: Walk, r3: OpResult<Seq<u64>>|
                            (#[trigger] unmaps_from(value, 0, fire, Seq::empty(), s2, m3, r3)) && seam_ends(
                                value,
                                deps,
                                maps,
                                closure,
                                with_context,
                                fire,
                                proceed,
                                m3,
                                r3,
                                post,
                                res,
                            ),
                    }
                };
            let s2 = s1.issued(Command::UserEvent, Seq::empty(), q2);
            if q2 is Err {
                assert(post.trace[s1.trace.len() as int].reply is Err);
            } else {
                let proceed = q2->Ok_0;
                let (m3, r3) = choose|m3: Walk, r3: OpResult<Seq<u64>>|
                    (#[trigger] unmaps_from(value, 0, fire, Seq::empty(), s2, m3, r3)) && seam_ends(
                        value,
                        deps,
                        maps,
                        closure,
                        with_context,
                        fire,
                        proceed,
                        m3,
                        r3,
                        post,
                        res,
                    );
                lemma_unmaps_fail(value, 0, fire, Seq::empty(), s2, m3, r3);
                if r3 is Err {
                    lemma_refused_before(s2, m3, post, e);
                    lemma_refused_later(pre, s2, post, e);
                } else {
                    assert(post.trace[m3.trace.len() as int].reply is Err);
                }
            }
        }
    }
}

/// An op around another fails with that one's error, once it failed, and for no other reason.
pub proof fn law_wrapped_op_fails_with_what_it_wraps(
    a: Box<Arced>,
    b: Box<ArcSplit>,
    c: Box<DeviceDynOp>,
    pre: Walk,
    post: Walk,
    mode: ExecMode,
    e: Error,
)
    ensures
        runs_of(DeviceOp::Arced(a), pre, post, mode, Err(e)) ==> collects_of(
            a.source,
            pre,
            post,
            ExecMode::Pipelined,
            Err(e),
        ),
        runs_of(DeviceOp::ArcSplit(b), pre, post, mode, Err(e)) ==> collects_of(
            b.source,
            pre,
            post,
            ExecMode::Pipelined,
            Err(e),
        ),
        runs_of(DeviceOp::Dyn(c), pre, post, mode, Err(e)) ==> collects_of(c.inner, pre, post, mode, Err(e)),
{
    let res = Err::<(), Error>(e);
    if runs_of(DeviceOp::Arced(a), pre, post, mode, res) {
        let (m, r) = choose|m: Walk, r: OpResult<ParcelView>|
            (#[trigger] passes(m, r)) && collects_of(a.source, pre, m, ExecMode::Pipelined, r) && match r {
                Err(e) => post == m && res == Err::<(), Error>(e),
                Ok(p) => post == arced_after(*a, m, p) && res == Ok::<(), Error>(()),
            };
        assert(r == Err::<ParcelView, Error>(e));
    }
    if runs_of(DeviceOp::ArcSplit(b), pre, post, mode, res) {
        let (m, r) = choose|m: Walk, r: OpResult<ParcelView>|
            (#[trigger] passes(m, r)) && collects_of(b.source, pre, m, ExecMode::Pipelined, r) && match r {
                Err(e) => post == m && res == Err::<(), Error>(e),
                Ok(p) => post == split_from(
                    cell_of(output_pipe_of(b.source)),
                    b.outs@,
                    0,
                    m,
                    p,
                ) && res == Ok::<(), Error>(()),
            };
        assert(r == Err::<ParcelView, Error>(e));
    }
    if runs_of(DeviceOp::Dyn(c), pre, post, mode, res) {
        let (m, r) = choose|m: Walk, r: OpResult<ParcelView>|
            (#[trigger] passes(m, r)) && collects_of(c.inner, pre, m, mode, r) && match r {
                Err(e) => post == m && res == Err::<(), Error>(e),
                Ok(p) => post == m.put(c.out.cell, p.value, p.deps, None) && res == Ok::<(), Error>(()),
            };
        assert(r == Err::<ParcelView, Error>(e));
    }
}

/// A timed op fails with its source, or where the queue times nothing, or where the driver
/// refuses one of its commands.
pub proof fn law_timed_op_fails_where_it_must(n: Box<Profiled>, pre: Walk, post: Walk, mode: ExecMode, e: Error) -> (m:
    Walk)
    requires
        runs_of(DeviceOp::Profiled(n), pre, post, mode, Err(e)),
    ensures
        (collects_of(n.source, pre, m, ExecMode::Pipelined, Err(e)) && post == m) || e is ProfilingDisabled || refused(
            m,
            post,
            e,
        ),
{
    let res = Err::<(), Error>(e);
    let (m, r) = choose|m: Walk, r: OpResult<ParcelView>|
        (#[trigger] passes(m, r)) && collects_of(n.source, pre, m, ExecMode::Pipelined, r) && match r {
            Err(e) => post == m && res == Err::<(), Error>(e),
            Ok(p) => profile_ends(*n, m, p, post, res),
        };
    if r is Ok && !(e is ProfilingDisabled) {
        let at = m.trace.len() as int;
        assert(post.trace[at].reply is Err || post.trace[at + 1].reply is Err || post.trace[at + 2].reply is Err);
    }
    m
}

/// A routed op fails where the driver has no queue for the device, or with its source.
pub proof fn law_routed_op_fails_where_it_must(n: Box<OnDevice>, pre: Walk, post: Walk, mode: ExecMode, e: Error) -> (r: (
    Walk,
    Walk,
))
    requires
        runs_of(DeviceOp::OnDevice(n), pre, post, mode, Err(e)),
    ensures
        refused(pre, post, e) || collects_of(n.source, r.0, r.1, mode, Err(e)),
        post.queue == pre.queue && post.device == pre.device && post.cb == pre.cb,
{
    let res = Err::<(), Error>(e);
    let q = choose|q: Reply|
        {
            let s = #[trigger] pre.issued(Command::Queue { device: n.target.device(pre) }, Seq::empty(), q);
            match q {
                Err(c) => post == s && res == Err::<(), Error>(Error::OpenCl(c)),
                Ok(queue) => exists|m: Walk, r: OpResult<ParcelView>|
                    (#[trigger] passes(m, r)) && collects_of(n.source, routed(s, queue, n.target.device(pre)), m, mode, r)
                        && match r {
                        Err(e) => post == back_from(m, pre) && res == Err::<(), Error>(e),
                        Ok(p) => post == back_from(m, pre).put(n.out.cell, p.value, p.deps, None) && res
                            == Ok::<(), Error>(()),
                    },
            }
        };
    let s = pre.issued(Command::Queue { device: n.target.device(pre) }, Seq::empty(), q);
    if q is Err {
        assert(post.trace[pre.trace.len() as int].reply is Err);
        (pre, post)
    } else {
        let start = routed(s, q->Ok_0, n.target.device(pre));
        let (m, r) = choose|m: Walk, r: OpResult<ParcelView>|
            (#[trigger] passes(m, r)) && collects_of(n.source, start, m, mode, r) && match r {
                Err(e) => post == back_from(m, pre) && res == Err::<(), Error>(e),
                Ok(p) => post == back_from(m, pre).put(n.out.cell, p.value, p.deps, None) && res == Ok::<
                    (),
                    Error,
                >(()),
            };
        (start, m)
    }
}

proof fn lemma_branch_fails(
    ops: Vec<DeviceOp>,
    i: nat,
    got: Seq<ParcelView>,
    pre: Walk,
    post: Walk,
    e: Error,
) -> (r: (int, Walk))
    requires
        collects_from(ops, i, got, pre, post, Err(e)),
    ensures
        i <= r.0 < ops.len(),
        collects_of(ops[r.0], r.1, post, ExecMode::Pipelined, Err(e)),
    decreases ops.len() - i,
{
    let res = Err::<Seq<ParcelView>, Error>(e);
    let (m, r) = choose|m: Walk, r: OpResult<ParcelView>|
        (#[trigger] passes(m, r)) && collects_of(ops[i as int], pre, m, ExecMode::Pipelined, r) && match r {
            Err(e) => post == m && res == Err::<Seq<ParcelView>, Error>(e),
            Ok(p) => collects_from(ops, i + 1, got.push(p), m, post, res),
        };
    match r {
        Err(_) => (i as int, pre),
        Ok(p) => lemma_branch_fails(ops, i + 1, got.push(p), m, post, e),
    }
}

/// A fan-out fails with one of its branches, or where the driver refuses the marker.
pub proof fn law_fan_out_fails_where_it_must(n: Box<FanOut>, pre: Walk, post: Walk, mode: ExecMode, e: Error) -> (r: (
    int,
    Walk,
))
    requires
        runs_of(DeviceOp::FanOut(n), pre, post, mode, Err(e)),
    ensures
        (0 <= r.0 < n.ops.len() && collects_of(n.ops[r.0], r.1, post, ExecMode::Pipelined, Err(e))) || refused(
            r.1,
            post,
            e,
        ),
{
    let res = Err::<(), Error>(e);
    let (m, h) = choose|m: Walk, r: OpResult<Seq<ParcelView>>|
        (#[trigger] passes(m, r)) && collects_from(n.ops, 0, Seq::empty(), pre, m, r) && match r {
            Err(e) => post == m && res == Err::<(), Error>(e),
            Ok(ps) => fan_ends(*n, m, ps, post, res),
        };
    if h is Err {
        lemma_branch_fails(n.ops, 0, Seq::empty(), pre, post, e)
    } else {
        assert(post.trace[m.trace.len() as int].reply is Err);
        (-1, m)
    }
}

proof fn lemma_part_fails(ops: Vec<DeviceOp>, i: nat, pre: Walk, post: Walk, e: Error) -> (r: (int, Walk))
    requires
        runs_from(ops, i, pre, post, Err(e)),
    ensures
        i <= r.0 < ops.len(),
        child_runs(ops[r.0], r.1, post, ExecMode::Pipelined, Err(e)),
    decreases ops.len() - i,
{
    let res = Err::<(), Error>(e);
    let (m, r) = choose|m: Walk, r: OpResult<()>|
        (#[trigger] passes(m, r)) && child_runs(ops[i as int], pre, m, ExecMode::Pipelined, r) && match r {
            Err(e) => post == m && res == Err::<(), Error>(e),
            Ok(_) => runs_from(ops, i + 1, m, post, res),
        };
    match r {
        Err(_) => (i as int, pre),
        Ok(_) => lemma_part_fails(ops, i + 1, m, post, e),
    }
}

/// A bundle fails with one of its parts.
pub proof fn law_bundle_fails_with_a_part(n: Box<Bundle>, pre: Walk, post: Walk, mode: ExecMode, e: Error) -> (r: (
    int,
    Walk,
))
    requires
        runs_of(DeviceOp::Bundle(n), pre, post, mode, Err(e)),
    ensures
        0 <= r.0 < n.ops.len(),
        child_runs(n.ops[r.0], r.1, post, ExecMode::Pipelined, Err(e)),
{
    lemma_part_fails(n.ops, 0, pre, post, e)
}

/// A sequence outside of command buffers fails with its first part, and then the second does
/// not run, or with its second.
pub proof fn law_sequence_fails_with_a_part(n: Box<AndThen>, pre: Walk, post: Walk, mode: ExecMode, e: Error) -> (m: Walk)
    requires
        runs_of(DeviceOp::AndThen(n), pre, post, mode, Err(e)),
    ensures
        (child_runs(n.source, pre, m, ExecMode::Pipelined, Err(e)) && post == m) || (child_runs(
            n.source,
            pre,
            m,
            ExecMode::Pipelined,
            Ok(()),
        ) && (m.cb is Off ==> child_runs(n.next, m, post, mode, Err(e)))),
{
    let res = Err::<(), Error>(e);
    let (m1, r1) = choose|m1: Walk, r1: OpResult<()>|
        (#[trigger] passes(m1, r1)) && child_runs(n.source, pre, m1, ExecMode::Pipelined, r1) && match r1 {
            Err(e) => post == m1 && res == Err::<(), Error>(e),
            Ok(_) => exists|m2: Walk, c: OpResult<bool>|
                (#[trigger] seam_step(n.source, n.next, m1, m2, c)) && match c {
                    Err(e) => post == m2 && res == Err::<(), Error>(e),
                    Ok(true) => exists|m3: Walk, r3: OpResult<()>|
                        (#[trigger] passes(m3, r3)) && node_runs(
                            n.next,
                            m2.in_mode(WalkMode::Off),
                            m3,
                            mode,
                            r3,
                        ) && chain_ends(*n, m3.in_mode(m2.cb), r3, post, res),
                    Ok(false) => exists|m3: Walk, r3: OpResult<()>|
                        (#[trigger] passes(m3, r3)) && child_runs(n.next, m2, m3, mode, r3) && chain_ends(
                            *n,
                            m3,
                            r3,
                            post,
                            res,
                        ),
                },
        };
    if r1 is Ok {
        assert(r1->Ok_0 == ());
        if m1.cb is Off {
            let (m2, c) = choose|m2: Walk, c: OpResult<bool>|
                (#[trigger] seam_step(n.source, n.next, m1, m2, c)) && match c {
                    Err(e) => post == m2 && res == Err::<(), Error>(e),
                    Ok(true) => exists|m3: Walk, r3: OpResult<()>|
                        (#[trigger] passes(m3, r3)) && node_runs(
                            n.next,
                            m2.in_mode(WalkMode::Off),
                            m3,
                            mode,
                            r3,
                        ) && chain_ends(*n, m3.in_mode(m2.cb), r3, post, res),
                    Ok(false) => exists|m3: Walk, r3: OpResult<()>|
                        (#[trigger] passes(m3, r3)) && child_runs(n.next, m2, m3, mode, r3) && chain_ends(
                            *n,
                            m3,
                            r3,
                            post,
                            res,
                        ),
                };
            assert(m2 == m1 && c == Ok::<bool, Error>(false));
            let (m3, r3) = choose|m3: Walk, r3: OpResult<()>|
                (#[trigger] passes(m3, r3)) && child_runs(n.next, m1, m3, mode, r3) && chain_ends(
                    *n,
                    m3,
                    r3,
                    post,
                    res,
                );
            assert(r3 == Err::<(), Error>(e));
        }
    }
    m1
}

/// A host closure's op fails with its source, or where the driver refuses to weave the
/// closure in.
pub proof fn law_host_op_fails_where_it_must(
    op: DeviceOp,
    source: DeviceOp,
    f: u64,
    with_context: bool,
    handle: Seq<Pipe>,
    pre: Walk,
    post: Walk,
    mode: ExecMode,
    e: Error,
) -> (m: Walk)
    requires
        hosts(op, source, f, with_context, handle),
        runs_of(op, pre, post, mode, Err(e)),
    ensures
        (child_gathers(source, pre, m, ExecMode::Pipelined, Err(e)) && post == m) || refused(m, post, e),
{
    let res = Err::<(), Error>(e);
    let out = output_pipe_of(op);
    let (m1, r1) = choose|m1: Walk, r1: OpResult<GatheredView>|
        (#[trigger] passes(m1, r1)) && child_gathers(source, pre, m1, ExecMode::Pipelined, r1) && match r1 {
            Err(e) => post == m1 && res == Err::<(), Error>(e),
            Ok(g) => exists|m3: Walk, r3: OpResult<Seq<u64>>|
                (#[trigger] passes(m3, r3)) && seam_runs(
                    out_values(g.outs),
                    g.deps,
                    f,
                    with_context,
                    seam_reach(output_pipe_of(source), out, m1),
                    m3,
                    r3,
                ) && match r3 {
                    Err(e) => post == m3 && res == Err::<(), Error>(e),
                    Ok(deps) => post == scatter_from(handle, g.outs, 0, deps, m3) && res == Ok::<
                        (),
                        Error,
                    >(()),
                },
        };
    if let Ok(g) = r1 {
        let m2 = seam_reach(output_pipe_of(source), out, m1);
        let (m3, r3) = choose|m3: Walk, r3: OpResult<Seq<u64>>|
            (#[trigger] passes(m3, r3)) && seam_runs(
                out_values(g.outs),
                g.deps,
                f,
                with_context,
                m2,
                m3,
                r3,
            ) && match r3 {
                Err(e) => post == m3 && res == Err::<(), Error>(e),
                Ok(deps) => post == scatter_from(handle, g.outs, 0, deps, m3) && res == Ok::<(), Error>(()),
            };
        law_seam_fails_where_the_driver_does(
            out_values(g.outs),
            g.deps,
            f,
            with_context,
            m2,
            post,
            e,
        );
        lemma_refused_later(m1, m2, post, e);
    }
    m1
}

/// A graph that is started fails because it is not ready, because a host closure failed, with
/// the error of the graph itself, or where the driver refuses a command.
pub proof fn law_start_fails_where_it_must(op: DeviceOp, pre: Walk, post: Walk, e: Error) -> (r: (Walk, Walk))
    requires
        chain_starts(op, pre, post, ChainStart::Errored(e)),
    ensures
        ({
            let (s, m) = r;
            ||| ready_of(op, pre.w) == Err::<(), Error>(e)
            ||| refused(pre, post, e)
            ||| collects_of(op, s, m, ExecMode::Pipelined, Err(e))
            ||| post.host_reads.len() > pre.host_reads.len() && post.host_reads.last() == Some(e)
        }),
{
    let res = ChainStart::Errored(e);
    if ready_of(op, pre.w) is Err {
        (pre, post)
    } else {
        let q = choose|q: Reply|
            {
                let s = #[trigger] pre.issued(Command::Queue { device: pre.device }, Seq::empty(), q);
                match q {
                    Err(c) => post == s && res == ChainStart::Errored(Error::OpenCl(c)),
                    Ok(queue) => chain_held(op, Walk { queue, ..s }, post, res),
                }
            };
        let s = Walk { queue: q->Ok_0, ..pre.issued(Command::Queue { device: pre.device }, Seq::empty(), q) };
        if q is Err {
            assert(post.trace[pre.trace.len() as int].reply is Err);
            (pre, post)
        } else if seam_of(op) {
            let u = choose|u: Reply|
                {
                    let t = #[trigger] s.issued(Command::UserEvent, Seq::empty(), u);
                    match u {
                        Err(c) => forgets_queue(t, post) && res == ChainStart::Errored(Error::OpenCl(c)),
                        Ok(ev) => chain_enqueued(op, Walk { start: Some(ev), ..t }, post, res),
                    }
                };
            let t = s.issued(Command::UserEvent, Seq::empty(), u);
            if u is Err {
                assert(post.trace[s.trace.len() as int].reply is Err);
                (pre, post)
            } else {
                let start = Walk { start: Some(u->Ok_0), ..t };
                let m = lemma_enqueued_fails(op, start, post, e);
                if refused(start, post, e) {
                    lemma_refused_later(pre, start, post, e);
                }
                (start, m)
            }
        } else {
            let start = Walk { start: None, ..s };
            let m = lemma_enqueued_fails(op, start, post, e);
            if refused(start, post, e) {
                lemma_refused_later(pre, start, post, e);
            }
            (start, m)
        }
    }
}

proof fn lemma_enqueued_fails(op: DeviceOp, pre: Walk, post: Walk, e: Error) -> (m: Walk)
    requires
        chain_enqueued(op, pre, post, ChainStart::Errored(e)),
    ensures
        refused(pre, post, e) || collects_of(op, pre, m, ExecMode::Pipelined, Err(e)) || (post.host_reads.len()
            > pre.host_reads.len() && post.host_reads.last() == Some(e)),
{
    let res = ChainStart::Errored(e);
    let (m, h) = choose|m: Walk, h: OpResult<ParcelView>|
        #[trigger] passes(m, h) && kept(pre, m) && collects_of(op, pre, m, ExecMode::Pipelined, h) && match h {
            Err(e) => chain_failed(m, e, post, res),
            Ok(p) => chain_marked(p, m, post, res),
        };
    if let Err(x) = h {
        law_failed_start_winds_down(m, x, post, res);
    } else {
        let p = h->Ok_0;
        let q = choose|q: Reply|
            {
                let s = #[trigger] m.issued(Command::Marker, p.deps, q);
                match q {
                    Err(c) => exists|m1: Walk|
                        #[trigger] passes(m1, ()) && releases(s, m1) && winds_down(m1, post)
                            && res == ChainStart::Errored(Error::OpenCl(c)),
                    Ok(marker) => exists|m1: Walk|
                        #[trigger] passes(m1, ()) && releases(s, m1) && chain_flushed(p, marker, m1, post, res),
                }
            };
        let s = m.issued(Command::Marker, p.deps, q);
        let at = m.trace.len() as int;
        if q is Err {
            let m1 = choose|m1: Walk|
                #[trigger] passes(m1, ()) && releases(s, m1) && winds_down(m1, post) && res
                    == ChainStart::Errored(Error::OpenCl(q->Err_0));
            lemma_wound_down(m1, post);
            assert(m1.trace[at] == s.trace[at]);
            assert(post.trace[at] == m1.trace[at]);
        } else {
            let marker = q->Ok_0;
            let m1 = choose|m1: Walk|
                #[trigger] passes(m1, ()) && releases(s, m1) && chain_flushed(p, marker, m1, post, res);
            let f = choose|f: Reply|
                {
                    let u = #[trigger] m1.issued(Command::Flush, Seq::empty(), f);
                    match f {
                        Err(c) => winds_down(u, post) && res == ChainStart::Errored(Error::OpenCl(c)),
                        Ok(_) => post == u && res == (ChainStart::Running { output: p.value, event: marker }),
                    }
                };
            let u = m1.issued(Command::Flush, Seq::empty(), f);
            lemma_wound_down(u, post);
            assert(post.trace[m1.trace.len() as int] == u.trace[m1.trace.len() as int]);
        }
    }
    m
}

proof fn lemma_wound_down(pre: Walk, post: Walk)
    requires
        winds_down(pre, post),
    ensures
        pre.trace.len() <= post.trace.len(),
        forall|k: int| 0 <= k < pre.trace.len() ==> pre.trace[k] == #[trigger] post.trace[k],
{
    let m = choose|m: Walk| #[trigger] passes(m, ()) && joins(pre, m) && forgets_queue(m, post);
    law_every_worker_is_joined(pre, m);
    assert forall|k: int| 0 <= k < pre.trace.len() implies pre.trace[k] == #[trigger] post.trace[k] by {
        assert(m.trace[k] == pre.trace[k]);
    }
}

/// Taking the value of an op other than a sequence or a bundle fails with the op, or where the
/// op left one of its pipes empty.
pub proof fn law_taking_a_value_fails_where_it_must(op: DeviceOp, pre: Walk, post: Walk, mode: ExecMode, e: Error) -> (m:
    Walk)
    requires
        !(op is AndThen),
        !(op is Bundle),
        collects_of(op, pre, post, mode, Err(e)),
    ensures
        (runs_of(op, pre, m, mode, Err(e)) && post == m) || (runs_of(op, pre, m, mode, Ok(())) && e is NotSupported && drain_from(
            outs_of(op),
            0,
            Seq::empty(),
            m.w,
        ).1 is Err),
{
    let res = Err::<ParcelView, Error>(e);
    let (m, r) = choose|m: Walk, r: OpResult<()>|
        (#[trigger] passes(m, r)) && runs_of(op, pre, m, mode, r) && match r {
            Err(e) => post == m && res == Err::<ParcelView, Error>(e),
            Ok(_) => {
                let (w, d) = drain_from(outs_of(op), 0, Seq::empty(), m.w);
                post == m.at(w) && res == (match d {
                    Ok(ps) => Ok::<ParcelView, Error>(merged(ps)),
                    Err(k) => Err(missing_of(op, k)),
                })
            },
        };
    if r is Ok {
        assert(r->Ok_0 == ());
    }
    m
}

proof fn lemma_sync_failed(
    op: DeviceOp,
    m: Walk,
    outs: Seq<CheckoutView>,
    x: Error,
    post: Walk,
    e: Error,
)
    requires
        sync_fails(op, m, outs, x, post, Err(e)),
    ensures
        post.host_reads.len() == m.host_reads.len() + 1,
        e == x || post.host_reads.last() == Some(e),
        m.trace.len() <= post.trace.len(),
        forall|k: int| 0 <= k < m.trace.len() ==> m.trace[k] == #[trigger] post.trace[k],
{
    let res = Err::<Seq<CheckoutView>, Error>(e);
    let (m1, m2, host) = choose|m1: Walk, m2: Walk, host: Option<Error>|
        #[trigger] passes(m1, (m2, host)) && releases(m, m1) && joins(m1, m2) && post == (Walk {
            host_reads: m2.host_reads.push(host),
            w: cleared(op, outs, m2.w),
            ..m2
        }) && res == Err::<Seq<CheckoutView>, Error>(preferred(host, x));
    law_every_worker_is_joined(m1, m2);
    assert forall|k: int| 0 <= k < m.trace.len() implies m.trace[k] == #[trigger] post.trace[k] by {
        assert(m1.trace[k] == m.trace[k]);
        assert(m2.trace[k] == m1.trace[k]);
    }
}

/// A run that is waited for fails because it is not ready, because a host closure failed, with
/// the error of the graph itself, or where the driver refuses a command.
pub proof fn law_sync_fails_where_it_must(op: DeviceOp, pre: Walk, post: Walk, e: Error) -> (r: (Walk, Walk))
    requires
        syncs(op, pre, post, Err(e)),
    ensures
        ({
            let (s, m) = r;
            ||| ready_of(op, pre.w) == Err::<(), Error>(e)
            ||| refused(pre, post, e)
            ||| node_gathers(
                op,
                s,
                m,
                if seam_of(op) {
                    ExecMode::Pipelined
                } else {
                    ExecMode::Blocking
                },
                Err(e),
            )
            ||| post.host_reads.len() > pre.host_reads.len() && post.host_reads.last() == Some(e)
        }),
{
    let res = Err::<Seq<CheckoutView>, Error>(e);
    if ready_of(op, pre.w) is Err {
        (pre, post)
    } else if seam_of(op) {
        let q = choose|q: Reply|
            {
                let s = #[trigger] pre.issued(Command::UserEvent, Seq::empty(), q);
                match q {
                    Err(c) => post == s && res == Err::<Seq<CheckoutView>, Error>(Error::OpenCl(c)),
                    Ok(ev) => sync_held(op, Walk { start: Some(ev), ..s }, post, res),
                }
            };
        let s = pre.issued(Command::UserEvent, Seq::empty(), q);
        if q is Err {
            assert(post.trace[pre.trace.len() as int].reply is Err);
            (pre, post)
        } else {
            let start = Walk { start: Some(q->Ok_0), ..s };
            let m = lemma_held_fails(op, start, post, e);
            if refused(start, post, e) {
                lemma_refused_later(pre, start, post, e);
            }
            (start, m)
        }
    } else {
        let start = Walk { start: None, ..pre };
        let m = lemma_held_fails(op, start, post, e);
        if refused(start, post, e) {
            lemma_refused_later(pre, start, post, e);
        }
        (start, m)
    }
}

proof fn lemma_held_fails(op: DeviceOp, pre: Walk, post: Walk, e: Error) -> (m: Walk)
    requires
        sync_held(op, pre, post, Err(e)),
    ensures
        refused(pre, post, e) || node_gathers(op, pre, m, sync_mode(op), Err(e)) || (post.host_reads.len()
            > pre.host_reads.len() && post.host_reads.last() == Some(e)),
{
    let res = Err::<Seq<CheckoutView>, Error>(e);
    let (m, h) = choose|m: Walk, h: OpResult<GatheredView>|
        #[trigger] passes(m, h) && kept(pre, m) && node_gathers(op, pre, m, sync_mode(op), h) && match h {
            Err(e) => sync_fails(op, m, Seq::empty(), e, post, res),
            Ok(g) => sync_marked(op, g, m, post, res),
        };
    if let Err(x) = h {
        lemma_sync_failed(op, m, Seq::empty(), x, post, e);
    } else {
        let g = h->Ok_0;
        let (s, j) = choose|s: Walk, j: OpResult<u64>|
            #[trigger] passes(s, j) && join_runs(g.deps, m, s, j) && match j {
                Err(e) => sync_fails(op, s, g.outs, e, post, res),
                Ok(marker) => sync_waited(op, g, marker, s, post, res),
            };
        if let Err(x) = j {
            lemma_sync_failed(op, s, g.outs, x, post, e);
            assert(s.trace[m.trace.len() as int].reply is Err);
            assert(post.trace[m.trace.len() as int] == s.trace[m.trace.len() as int]);
        } else {
            let marker = j->Ok_0;
            let (m1, q, m2, host) = choose|m1: Walk, q: Reply, m2: Walk, host: Option<Error>|
                {
                    &&& #[trigger] passes(m1, (q, m2, host))
                    &&& releases(s, m1)
                    &&& joins(m1.issued(Command::Wait { event: marker }, Seq::empty(), q), m2)
                    &&& sync_ends(op, g, q, m2, host, post, res)
                };
            let t = m1.issued(Command::Wait { event: marker }, Seq::empty(), q);
            law_every_worker_is_joined(t, m2);
            if host is None {
                assert(t.trace[m1.trace.len() as int].reply is Err);
                assert(post.trace[m1.trace.len() as int] == t.trace[m1.trace.len() as int]);
            }
        }
    }
    m
}

/// A run that is left in flight fails with the graph, or where the driver refuses the queue or
/// the marker.
pub proof fn law_submit_fails_where_it_must(op: DeviceOp, pre: Walk, post: Walk, e: Error) -> (r: (Walk, Walk))
    requires
        submits(op, pre, post, Err(e)),
    ensures
        refused(pre, post, e) || collects_of(op, r.0, r.1, ExecMode::Pipelined, Err(e)),
{
    let res = Err::<(Seq<Obj>, u64), Error>(e);
    let q = choose|q: Reply|
        {
            let s = #[trigger] pre.issued(Command::Queue { device: pre.device }, Seq::empty(), q);
            match q {
                Err(c) => post == s && res == Err::<(Seq<Obj>, u64), Error>(Error::OpenCl(c)),
                Ok(queue) => submit_runs(op, Walk { queue, ..s }, post, res),
            }
        };
    let s = Walk { queue: q->Ok_0, ..pre.issued(Command::Queue { device: pre.device }, Seq::empty(), q) };
    if q is Err {
        assert(post.trace[pre.trace.len() as int].reply is Err);
        (pre, post)
    } else {
        let (m, h) = choose|m: Walk, h: OpResult<ParcelView>|
            #[trigger] passes(m, h) && kept(s, m) && collects_of(op, s, m, ExecMode::Pipelined, h) && match h {
                Err(e) => post == m && res == Err::<(Seq<Obj>, u64), Error>(e),
                Ok(p) => exists|j: OpResult<u64>|
                    #[trigger] passes(m, j) && join_runs(p.deps, m, post, j) && res == (match j {
                        Err(e) => Err::<(Seq<Obj>, u64), Error>(e),
                        Ok(ev) => Ok((p.value, ev)),
                    }),
            };
        if h is Ok {
            assert(post.trace[m.trace.len() as int].reply is Err);
        }
        (s, m)
    }
}

/// Closing a command buffer between two parts fails only where it cannot be used, or where the
/// driver refuses its submission.
pub proof fn law_closing_fails_where_it_must(source: DeviceOp, next: DeviceOp, pre: Walk, post: Walk, e: Error)
    requires
        seam_step(source, next, pre, post, Err(e)),
    ensures
        refused(pre, post, e) || (e is NotSupported && post.cb.is_abandoned()),
{
    let (r1, r2) = choose|r1: Reply, r2: Reply|
        {
            let (s, r) = #[trigger] span_closed(pre, r1, r2);
            match r {
                Err(x) => post == s && Err::<bool, Error>(e) == Err::<bool, Error>(x),
                Ok(Some(ev)) => post == s.at(restamp_of(source, s.w, seq![ev])) && Err::<bool, Error>(e) == Ok::<
                    bool,
                    Error,
                >(true),
                Ok(None) => if s.cb.is_abandoned() {
                    post == s && Err::<bool, Error>(e) == Err::<bool, Error>(abandoned_error())
                } else {
                    post == s.at(seam_delayed(source, s.w, pre.cb)) && Err::<bool, Error>(e) == Ok::<bool, Error>(true)
                },
            }
        };
    let (s, r) = span_closed(pre, r1, r2);
    if r is Err {
        assert(post.trace[post.trace.len() - 1].reply is Err);
    }
}

/// A refusal says what stands in the way: a buffer that is out, an output that is missing, or an
/// op that has no memory of its own to run on.
pub proof fn law_refusals_say_what_stands_in_the_way(w: World, p: Pipe, ctx: u64, other: u64)
    ensures
        busy_error() == Error::NotSupported("eager graph: an input buffer is already lent (the graph is busy)"),
        empty_pipe_error() == Error::NotSupported("eager graph: an input pipe holds no value"),
        seed_busy(SeedKind::Usm) == Error::NotSupported(
            "eager graph: a `usm_slice` buffer was already lent and not returned — a graph is `sync`'d while a previous `Checkout` is still alive (the graph is busy)",
        ),
        seed_busy(SeedKind::Scalar) == Error::NotSupported(
            "eager graph: a device-scalar upload buffer was already lent and not returned — a graph is `sync`'d while a previous `Checkout` is still alive (the graph is busy)",
        ),
        seed_busy(SeedKind::Upload) == Error::NotSupported(
            "eager graph: an upload buffer was already lent and not returned — a graph is `sync`'d while a previous `Checkout` is still alive (the graph is busy)",
        ),
        buf_ctx(w, Input::Pipe(p)) == Err::<u64, Error>(
            Error::NotSupported(
                "concrete-head terminal (wait/submit) on a pipe-fed buffer op — use wait_on(&ctx) / sync(&ctx) for piped (graph) inputs",
            ),
        ),
        svm_ctx(w, Input::Pipe(p)) == Err::<u64, Error>(
            Error::NotSupported(
                "concrete-head terminal (wait/submit) on a pipe-fed SVM op — use wait_on(&ctx) / sync(&ctx) for piped (graph) inputs",
            ),
        ),
        image_ctx(w, Input::Pipe(p)) == Err::<u64, Error>(
            Error::NotSupported(
                "concrete-head terminal (wait/submit) on a pipe-fed image op — use wait_on(&ctx) / sync(&ctx) for piped (graph) inputs",
            ),
        ),
        ctx != other ==> here(Ok(ctx), other) == Err::<(), Error>(
            Error::InvalidArgument("concrete-head terminal (wait/submit) on a context that is not the op's own"),
        ),
{
}

/// The answer where an op left an output out: a copy by its own name, an image copy by the
/// output that is missing, a split by its branch, and any other op as such.
pub proof fn law_missing_outputs_are_named(op: DeviceOp, k: int)
    ensures
        op matches DeviceOp::Leaf(l) ==> {
            &&& l is CopyTo2 ==> missing_of(op, k) == Error::NotSupported("eager graph: terminal copy produced no output")
            &&& l is ImageCopy && k == 0 ==> missing_of(op, k) == Error::NotSupported(
                "eager graph: image copy produced no src",
            )
            &&& l is ImageCopy && k != 0 ==> missing_of(op, k) == Error::NotSupported(
                "eager graph: image copy produced no dst",
            )
            &&& !(l is CopyTo2) && !(l is ImageCopy) ==> missing_of(op, k) == Error::NotSupported(
                "eager graph: the op produced no output",
            )
        },
        op is ArcSplit ==> missing_of(op, k) == Error::NotSupported("eager arc_split: a branch produced no output"),
        !(op is Leaf) && !(op is ArcSplit) ==> missing_of(op, k) == Error::NotSupported(
            "eager graph: the op produced no output",
        ),
{
}

} // verus!
