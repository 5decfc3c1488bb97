//! What a launch asks of the driver: each argument under its index, and one work-item
//! for each point of the grid, whether the launch is sent or recorded.

use crate::access::{KernelAccess, KernelReadable};
use crate::buffer_laws::{law_captured_slots_stay_captured, law_recorded_command_captures_its_slots};
use crate::cb::leaf_built;
use crate::error::{Error, OpResult};
use crate::exec_ctx::{buffer_uses, ExecMode, Walk};
use crate::fill_kernel::launches;
use crate::graph_laws::lemma_ids_are_added;
use crate::ids::{with_id, with_ids};
use crate::input::{after_taking, found, pipe_of, slot_of};
use crate::kernel_op::{args_set, run_command, sets_from, KernelLaunch, KernelOp};
use crate::launch::{
    ArgValue, ByValue, DeviceSlice, F32Bits, F64Bits, Grid, InFlight, IntoLaunchSpec, KernelArg, KernelArgs,
    KernelPointerArg, KernelScalarRefArg, KernelSliceReadArg, LaunchSpec, LocalBuffer, MappedSlice, Scalar,
    ScalarArg, USMSlice,
};
use crate::launch_op::{
    handed_on, launch_built, launch_cells, launch_ends, launch_points, launch_recorded, launch_sent, memory_values,
    number_value, prepared, recorded_launch, sharing, taken_deps, taken_svm, Launch, LaunchArg, NumberArg,
    Prepared, TakenView,
};
use crate::leaves::LeafNode;
use crate::obj::{Class, Command, MemRef, Obj, Recorded, Reply};
use crate::run_laws::{law_launch_hands_memory_on, law_launches_are_followed};
use crate::slots::{AnyValue, ScalarInput, SlotValue};
use crate::store::{ParcelView, World};
use crate::wait_laws::law_recorded_launch_waits_on_its_memory;
use crate::walk::passes;
use vstd::prelude::*;

verus! {

/// Whether a command launches a kernel with one work-item for each point of a grid: as
/// many dimensions as the grid has, the grid's sizes in their order, and the grid's
/// work-group sizes where it has some.
pub open spec fn launches_over(c: Command, kernel: u64, g: Grid) -> bool {
    &&& c matches Command::RunKernel { kernel: k, dims, global, with_local, local }
    &&& k == kernel
    &&& dims == g.global.len()
    &&& g.global.len() >= 1 ==> global.x == g.global[0]
    &&& g.global.len() >= 2 ==> global.y == g.global[1]
    &&& g.global.len() >= 3 ==> global.z == g.global[2]
    &&& with_local <==> g.local is Some
    &&& g.local matches Some(l) ==> {
        &&& l.len() >= 1 ==> local.x == l[0]
        &&& l.len() >= 2 ==> local.y == l[1]
        &&& l.len() >= 3 ==> local.z == l[2]
    }
}

/// The sizes of a grid stand in the launch in their order: the first runs along the
/// first dimension, and so on.
pub proof fn law_launch_has_the_sizes_of_its_grid(kernel: u64, g: Grid)
    requires
        1 <= g.global.len() <= 3,
        g.local matches Some(l) ==> l.len() == g.global.len(),
    ensures
        launches_over(run_command(kernel, g), kernel, g),
{
}

/// What is recorded of a launch is the launch: the same kernel, as many dimensions, and
/// the same sizes as what is sent to the queue.
pub proof fn law_recorded_launch_is_the_launch_sent(kernel: u64, g: Grid)
    requires
        1 <= g.global.len() <= 3,
        g.local matches Some(l) ==> l.len() == g.global.len(),
    ensures
        recorded_launch(kernel, g) matches Recorded::Kernel { kernel: k, dims, global, with_local, local }
            && launches_over(Command::RunKernel { kernel: k, dims, global, with_local, local }, kernel, g)
            && run_command(kernel, g) == (Command::RunKernel { kernel: k, dims, global, with_local, local }),
{
}

/// A grid that is written as sizes has these sizes, in this order, and as many
/// dimensions as sizes were written.
pub proof fn law_grids_are_as_written(
    a: [usize; 1],
    b: [usize; 2],
    c: [usize; 3],
    p: [usize; 1],
    q: [usize; 2],
    r: [usize; 3],
)
    ensures
        a.grid().global.len() == 1 && a.grid().global[0] == a[0] && a.grid().local is None,
        b.grid().global.len() == 2 && b.grid().global[0] == b[0] && b.grid().global[1] == b[1] && b.grid().local is None,
        c.grid().global.len() == 3 && c.grid().global[0] == c[0] && c.grid().global[1] == c[1] && c.grid().global[2]
            == c[2] && c.grid().local is None,
        (a, p).grid().global == a.grid().global,
        (a, p).grid().local matches Some(l) && l.len() == 1 && l[0] == p[0],
        (b, q).grid().global == b.grid().global,
        (b, q).grid().local matches Some(l) && l.len() == 2 && l[0] == q[0] && l[1] == q[1],
        (c, r).grid().global == c.grid().global,
        (c, r).grid().local matches Some(l) && l.len() == 3 && l[0] == r[0] && l[1] == r[1] && l[2] == r[2],
{
}

proof fn lemma_sets_in_order(kernel: u64, args: Seq<ArgValue>, i: nat, pre: Walk, post: Walk, res: OpResult<()>)
    requires
        sets_from(kernel, args, i, pre, post, res),
        res is Ok,
        i <= args.len(),
        args.len() <= usize::MAX,
    ensures
        post == (Walk { trace: post.trace, ..pre }),
        post.trace.len() == pre.trace.len() + (args.len() - i),
        forall|k: int| 0 <= k < pre.trace.len() ==> pre.trace[k] == #[trigger] post.trace[k],
        forall|k: int|
            pre.trace.len() <= k < post.trace.len() ==> (#[trigger] post.trace[k]).command == (Command::SetArg {
                kernel,
                index: (k - pre.trace.len() + i) as usize,
                value: args[k - pre.trace.len() + i],
            }),
    decreases args.len() - i,
{
    if i < args.len() {
        let q = choose|q: Reply|
            {
                let s = #[trigger] pre.issued(
                    Command::SetArg { kernel, index: i as usize, value: args[i as int] },
                    Seq::empty(),
                    q,
                );
                match q {
                    Err(c) => post == s && res == Err::<(), Error>(Error::OpenCl(c)),
                    Ok(_) => sets_from(kernel, args, i + 1, s, post, res),
                }
            };
        let s = pre.issued(Command::SetArg { kernel, index: i as usize, value: args[i as int] }, Seq::empty(), q);
        lemma_sets_in_order(kernel, args, i + 1, s, post, res);
        assert forall|k: int| 0 <= k < pre.trace.len() implies pre.trace[k] == #[trigger] post.trace[k] by {
            assert(s.trace[k] == post.trace[k]);
        }
        assert(s.trace[pre.trace.len() as int] == post.trace[pre.trace.len() as int]);
    }
}

/// Whether a stretch of a run sets kernel arguments, each under its own index.
pub open spec fn sets_all(kernel: u64, args: Seq<ArgValue>, pre: Walk, post: Walk) -> bool {
    &&& pre.trace.len() + args.len() <= post.trace.len()
    &&& forall|k: int| 0 <= k < pre.trace.len() ==> pre.trace[k] == #[trigger] post.trace[k]
    &&& forall|k: int|
        0 <= k < args.len() ==> post.trace[pre.trace.len() + k].command == (Command::SetArg {
            kernel,
            index: k as usize,
            value: #[trigger] args[k],
        })
}

/// A kernel that is launched gets each argument under its index, in order, and then runs
/// over the whole grid, behind its own events and those it is given. It hands back its
/// outputs with the event of the launch.
pub proof fn law_kernel_runs_over_its_grid<A: KernelArgs>(
    l: KernelLaunch<A>,
    extra: Seq<u64>,
    pre: Walk,
    post: Walk,
    out: Vec<Obj>,
    ev: u64,
)
    requires
        l.enqueues(extra, pre, post, Ok((out, ev))),
        1 <= l.grid@.global.len() <= 3,
        l.grid@.local matches Some(s) ==> s.len() == l.grid@.global.len(),
        l.args.all_values().len() <= usize::MAX,
    ensures
        sets_all(l.kernel, l.args.all_values(), pre, post),
        post.trace.len() == pre.trace.len() + l.args.all_values().len() + 1,
        launches_over(post.trace.last().command, l.kernel, l.grid@),
        post.trace.last().waits == l.deps@ + extra,
        post.trace.last().reply == Ok::<u64, i32>(ev),
        out == l.outputs,
{
    let args = l.args.all_values();
    let res = Ok::<(Vec<Obj>, u64), Error>((out, ev));
    let (m, r) = choose|m: Walk, r: OpResult<()>|
        #[trigger] args_set(m, r) && sets_from(l.kernel, args, 0, pre, m, r) && match r {
            Err(e) => post == m && res == Err::<(Vec<Obj>, u64), Error>(e),
            Ok(_) => exists|t: Walk, j: OpResult<u64>|
                (#[trigger] launches(run_command(l.kernel, l.grid@), l.deps@ + extra, m, t, j)) && match j {
                    Err(e) => post == t && res == Err::<(Vec<Obj>, u64), Error>(e),
                    Ok(ev) => post == t.at(t.w.using(l.args.all_uses(ev))) && res == Ok::<(Vec<Obj>, u64), Error>(
                        (l.outputs, ev),
                    ),
                },
        };
    lemma_sets_in_order(l.kernel, args, 0, pre, m, r);
    assert forall|k: int| 0 <= k < args.len() implies post.trace[pre.trace.len() + k].command == (Command::SetArg {
        kernel: l.kernel,
        index: k as usize,
        value: #[trigger] args[k],
    }) by {
        assert(m.trace[pre.trace.len() + k] == post.trace[pre.trace.len() + k]);
    }
    assert forall|k: int| 0 <= k < pre.trace.len() implies pre.trace[k] == #[trigger] post.trace[k] by {
        assert(m.trace[k] == post.trace[k]);
    }
    law_launch_has_the_sizes_of_its_grid(l.kernel, l.grid@);
}

proof fn lemma_handed_on_trace(taken: Seq<TakenView>, i: nat, s: Walk, deps: Seq<u64>)
    ensures
        handed_on(taken, i, s, deps).trace == s.trace,
    decreases taken.len() - i,
{
    if i < taken.len() {
        let t = taken[i as int];
        lemma_handed_on_trace(taken, i + 1, s.put(t.out.cell, t.parcel.value, deps, t.parcel.home), deps);
    }
}

proof fn lemma_points_trace(taken: Seq<TakenView>, i: nat, s: Walk, sp: u64)
    ensures
        launch_points(taken, i, s, sp).trace == s.trace,
    decreases taken.len() - i,
{
    if i < taken.len() {
        lemma_points_trace(taken, i + 1, s.with_sp(taken[i as int].out.cell, seq![sp]), sp);
    }
}

proof fn lemma_built_trace(taken: Seq<TakenView>, i: nat, s: Walk, waits: Seq<u64>)
    requires
        s.cb is Build,
    ensures
        launch_built(taken, i, s, waits).0.trace == s.trace,
        launch_built(taken, i, s, waits).0.cb is Build,
        launch_built(taken, i, s, waits).0.cb->Build_builder.handle == s.cb->Build_builder.handle,
    decreases taken.len() - i,
{
    if i < taken.len() {
        let t = taken[i as int];
        let pipe = pipe_of(s.w, t.input);
        let m = leaf_built(s, t.parcel.deps, slot_of(t.input), pipe, t.out.cell);
        lemma_built_trace(taken, i + 1, m, with_ids(waits, s.sp_of(pipe)));
    }
}

proof fn lemma_deps_are_all_there(taken: Seq<TakenView>, i: nat, k: int, e: u64)
    requires
        i <= k < taken.len(),
        taken[k].parcel.deps.contains(e),
    ensures
        taken_deps(taken, i).contains(e),
    decreases taken.len() - i,
{
    let first = taken[i as int].parcel.deps;
    let rest = taken_deps(taken, i + 1);
    if k == i {
        let j = choose|j: int| 0 <= j < first.len() && first[j] == e;
        assert((first + rest)[j] == e);
    } else {
        lemma_deps_are_all_there(taken, i + 1, k, e);
        let j = choose|j: int| 0 <= j < rest.len() && rest[j] == e;
        assert((first + rest)[first.len() + j] == e);
    }
}

/// A launch of a graph that goes to the queue sets its arguments in order and then runs
/// over the whole grid.
pub proof fn law_launch_op_runs_over_its_grid(
    kernel: u64,
    g: Grid,
    d: Prepared,
    s: Walk,
    post: Walk,
    mode: ExecMode,
)
    requires
        launch_sent(kernel, g, d, s, post, mode, Ok(())),
        1 <= g.global.len() <= 3,
        g.local matches Some(l) ==> l.len() == g.global.len(),
        d.values.len() <= usize::MAX,
    ensures
        sets_all(kernel, d.values, s, post),
        post.trace.len() > s.trace.len() + d.values.len(),
        launches_over(post.trace[(s.trace.len() + d.values.len()) as int].command, kernel, g),
        post.trace[(s.trace.len() + d.values.len()) as int].reply is Ok,
        forall|k: int, e: u64|
            0 <= k < d.taken.len() && (#[trigger] d.taken[k].parcel.deps.contains(e)) ==> post.trace[(s.trace.len()
                + d.values.len()) as int].waits.contains(e),
        mode == ExecMode::Blocking ==> post.trace.last().command == (Command::Wait {
            event: post.trace[(s.trace.len() + d.values.len()) as int].reply->Ok_0,
        }),
{
    let res = Ok::<(), Error>(());
    let (m, r) = choose|m: Walk, r: OpResult<()>|
        #[trigger] args_set(m, r) && sets_from(kernel, d.values, 0, s, m, r) && match r {
            Err(e) => post == m && res == Err::<(), Error>(e),
            Ok(_) => exists|t: Walk, j: OpResult<u64>|
                #[trigger] passes(t, j) && launches(
                    run_command(kernel, g),
                    taken_deps(d.taken, 0),
                    m,
                    t,
                    j,
                ) && match j {
                    Err(e) => post == t && res == Err::<(), Error>(e),
                    Ok(ev) => launch_ends(d, ev, t, post, mode, res),
                },
        };
    lemma_sets_in_order(kernel, d.values, 0, s, m, r);
    let (t, j) = choose|t: Walk, j: OpResult<u64>|
        #[trigger] passes(t, j) && launches(
            run_command(kernel, g),
            taken_deps(d.taken, 0),
            m,
            t,
            j,
        ) && match j {
            Err(e) => post == t && res == Err::<(), Error>(e),
            Ok(ev) => launch_ends(d, ev, t, post, mode, res),
        };
    assert forall|k: int, e: u64|
        0 <= k < d.taken.len() && (#[trigger] d.taken[k].parcel.deps.contains(e)) implies t.trace.last().waits.contains(
        e,
    ) by {
        lemma_deps_are_all_there(d.taken, 0, k, e);
    }
    let ev = j->Ok_0;
    let n = t.at(t.w.using(buffer_uses(taken_svm(d.taken, 0), ev)));
    if mode == ExecMode::Blocking {
        let q = choose|q: Reply|
            {
                let u = #[trigger] n.issued(Command::Wait { event: ev }, Seq::empty(), q);
                match q {
                    Err(c) => post == u && res == Err::<(), Error>(Error::OpenCl(c)),
                    Ok(_) => post == handed_on(d.taken, 0, u, Seq::empty()) && res == Ok::<(), Error>(()),
                }
            };
        lemma_handed_on_trace(d.taken, 0, n.issued(Command::Wait { event: ev }, Seq::empty(), q), Seq::empty());
    } else {
        lemma_handed_on_trace(d.taken, 0, n, seq![ev]);
    }
    assert forall|k: int| 0 <= k < d.values.len() implies post.trace[s.trace.len() + k].command == (Command::SetArg {
        kernel,
        index: k as usize,
        value: #[trigger] d.values[k],
    }) by {
        assert(m.trace[s.trace.len() + k] == post.trace[s.trace.len() + k]);
    }
    assert forall|k: int| 0 <= k < s.trace.len() implies s.trace[k] == #[trigger] post.trace[k] by {
        assert(m.trace[k] == post.trace[k]);
    }
    law_launch_has_the_sizes_of_its_grid(kernel, g);
}

/// The same launch inside a command buffer that is built sets the same arguments, and
/// what is recorded runs over the same grid.
pub proof fn law_recorded_launch_op_runs_over_its_grid(
    kernel: u64,
    g: Grid,
    d: Prepared,
    cells: Seq<u64>,
    s: Walk,
    post: Walk,
)
    requires
        s.cb is Build,
        launch_recorded(kernel, g, d, cells, s, post, Ok(())),
        1 <= g.global.len() <= 3,
        g.local matches Some(l) ==> l.len() == g.global.len(),
        d.values.len() <= usize::MAX,
    ensures
        sets_all(kernel, d.values, s, post),
        post.trace.len() == s.trace.len() + d.values.len() + 1,
        post.trace.last().command matches Command::Record { builder, what } && builder
            == s.cb->Build_builder.handle && (what matches Recorded::Kernel {
            kernel: k,
            dims,
            global,
            with_local,
            local,
        } && launches_over(Command::RunKernel { kernel: k, dims, global, with_local, local }, kernel, g)),
{
    let res = Ok::<(), Error>(());
    let noted = sharing(s, d.taken).noting(cells);
    lemma_built_trace(d.taken, 0, noted, Seq::empty());
    let (b, waits) = launch_built(d.taken, 0, noted, Seq::empty());
    let (m, r) = choose|m: Walk, r: OpResult<()>|
        #[trigger] args_set(m, r) && sets_from(kernel, d.values, 0, b, m, r) && match r {
            Err(e) => post == m && res == Err::<(), Error>(e),
            Ok(_) => exists|q: Reply|
                {
                    let t = #[trigger] m.recording(recorded_launch(kernel, g), waits, q);
                    let u = match q {
                        Ok(sp) => launch_points(d.taken, 0, t, sp),
                        Err(_) => t,
                    };
                    post == handed_on(d.taken, 0, u, Seq::empty()) && res == Ok::<(), Error>(())
                },
        };
    lemma_sets_in_order(kernel, d.values, 0, b, m, r);
    let q = choose|q: Reply|
        {
            let t = #[trigger] m.recording(recorded_launch(kernel, g), waits, q);
            let u = match q {
                Ok(sp) => launch_points(d.taken, 0, t, sp),
                Err(_) => t,
            };
            post == handed_on(d.taken, 0, u, Seq::empty()) && res == Ok::<(), Error>(())
        };
    let t = m.recording(recorded_launch(kernel, g), waits, q);
    let u = match q {
        Ok(sp) => launch_points(d.taken, 0, t, sp),
        Err(_) => t,
    };
    if let Ok(sp) = q {
        lemma_points_trace(d.taken, 0, t, sp);
    }
    lemma_handed_on_trace(d.taken, 0, u, Seq::empty());
    assert forall|k: int| 0 <= k < d.values.len() implies post.trace[s.trace.len() + k].command == (Command::SetArg {
        kernel,
        index: k as usize,
        value: #[trigger] d.values[k],
    }) by {
        assert(m.trace[s.trace.len() + k] == post.trace[s.trace.len() + k]);
    }
    assert forall|k: int| 0 <= k < s.trace.len() implies s.trace[k] == #[trigger] post.trace[k] by {
        assert(m.trace[k] == post.trace[k]);
    }
    law_recorded_launch_is_the_launch_sent(kernel, g);
}

proof fn lemma_prepared_goes_on(args: Seq<LaunchArg>, i: nat, d: Prepared, barrier: Option<u64>)
    requires
        prepared(args, i, d, barrier).1 is Ok,
    ensures
        prepared(args, i, d, barrier).0.values.len() >= d.values.len(),
        forall|k: int|
            0 <= k < d.values.len() ==> d.values[k] == #[trigger] prepared(args, i, d, barrier).0.values[k],
        prepared(args, i, d, barrier).0.taken.len() >= d.taken.len(),
        forall|k: int|
            0 <= k < d.taken.len() ==> d.taken[k] == #[trigger] prepared(args, i, d, barrier).0.taken[k],
    decreases args.len() - i,
{
    if i < args.len() {
        let next = after_one(args[i as int], d, barrier);
        lemma_prepared_goes_on(args, i + 1, next, barrier);
        let e = prepared(args, i, d, barrier).0;
        assert forall|k: int| 0 <= k < d.values.len() implies d.values[k] == #[trigger] e.values[k] by {
            assert(next.values[k] == e.values[k]);
        }
        assert forall|k: int| 0 <= k < d.taken.len() implies d.taken[k] == #[trigger] e.taken[k] by {
            assert(next.taken[k] == e.taken[k]);
        }
    }
}

spec fn after_one(arg: LaunchArg, d: Prepared, barrier: Option<u64>) -> Prepared {
    match arg {
        LaunchArg::Local(bytes) => Prepared { values: d.values.push(ArgValue::Local(bytes)), ..d },
        LaunchArg::Number(n) => Prepared {
            values: d.values.push(number_value(n.reading(d.w)->Ok_0)->Some_0),
            cells: match n {
                NumberArg::Slot { cell, .. } => with_id(d.cells, cell),
                NumberArg::Given(_) => d.cells,
            },
            ..d
        },
        LaunchArg::Memory { input, out } => {
            let p = found(d.w, barrier, input)->Ok_0;
            Prepared {
                w: after_taking(d.w, input),
                values: d.values + memory_values(p.value[0]),
                taken: d.taken.push(TakenView { parcel: p, input, out }),
                cells: d.cells,
            }
        },
    }
}

/// Each argument of a launch adds its own values behind those of the arguments before
/// it, and memory is taken from its input to go on along its own pipe.
pub proof fn law_launch_arguments_stand_in_order(args: Seq<LaunchArg>, i: nat, d: Prepared, barrier: Option<u64>)
    requires
        i < args.len(),
        prepared(args, i, d, barrier).1 is Ok,
    ensures
        ({
            let e = prepared(args, i, d, barrier).0;
            let n = d.values.len() as int;
            match args[i as int] {
                LaunchArg::Local(bytes) => e.values.len() > n && e.values[n] == ArgValue::Local(bytes),
                LaunchArg::Number(NumberArg::Given(a)) => e.values.len() > n && Some(e.values[n]) == number_value(a),
                LaunchArg::Number(NumberArg::Slot { cell, .. }) => e.values.len() > n && d.w.scalar(cell) is Some
                    && Some(e.values[n]) == number_value(d.w.scalar(cell)->Some_0),
                LaunchArg::Memory { input, out } => {
                    let p = found(d.w, barrier, input)->Ok_0;
                    &&& found(d.w, barrier, input) is Ok
                    &&& p.value.len() == 1
                    &&& e.values.len() >= n + memory_values(p.value[0]).len()
                    &&& forall|k: int|
                        0 <= k < memory_values(p.value[0]).len() ==> e.values[n + k] == #[trigger] memory_values(
                            p.value[0],
                        )[k]
                    &&& e.taken.len() > d.taken.len()
                    &&& e.taken[d.taken.len() as int].parcel == p
                    &&& e.taken[d.taken.len() as int].out == out
                },
            }
        }),
{
    let e = prepared(args, i, d, barrier).0;
    let next = after_one(args[i as int], d, barrier);
    lemma_prepared_goes_on(args, i + 1, next, barrier);
    let n = d.values.len() as int;
    match args[i as int] {
        LaunchArg::Memory { input, out } => {
            let v = memory_values(found(d.w, barrier, input)->Ok_0.value[0]);
            assert forall|k: int| 0 <= k < v.len() implies e.values[n + k] == #[trigger] v[k] by {
                assert(next.values[n + k] == v[k]);
                assert(e.values[n + k] == next.values[n + k]);
            }
            assert(e.taken[d.taken.len() as int] == next.taken[d.taken.len() as int]);
        },
        _ => {
            assert(e.values[n] == next.values[n]);
        },
    }
}

/// The arguments of a list stand in the order of its elements, none left out.
pub proof fn law_arguments_stand_in_order<A: KernelArg, B: KernelArg, C: KernelArg>(a: A, b: B, c: C)
    ensures
        (a,).all_values() == a.arg_values(),
        (a, b).all_values().len() == a.arg_values().len() + b.arg_values().len(),
        forall|k: int| 0 <= k < a.arg_values().len() ==> (#[trigger] (a, b).all_values()[k]) == a.arg_values()[k],
        forall|k: int|
            0 <= k < b.arg_values().len() ==> (a, b).all_values()[a.arg_values().len() + k] == #[trigger] b.arg_values()[k],
        (a, b, c).all_values() == (a, b).all_values() + c.arg_values(),
{
    assert((a, b, c).all_values() =~= (a, b).all_values() + c.arg_values());
}

/// The same of the longer lists: each adds its last element behind the others.
pub proof fn law_long_lists_stand_in_order<
    A: KernelArg,
    B: KernelArg,
    C: KernelArg,
    D: KernelArg,
    E: KernelArg,
    F: KernelArg,
    G: KernelArg,
    H: KernelArg,
>(a: A, b: B, c: C, d: D, e: E, f: F, g: G, h: H, ev: u64)
    ensures
        (a, b, c, d).all_values() == (a, b, c).all_values() + d.arg_values(),
        (a, b, c, d, e).all_values() == (a, b, c, d).all_values() + e.arg_values(),
        (a, b, c, d, e, f).all_values() == (a, b, c, d, e).all_values() + f.arg_values(),
        (a, b, c, d, e, f, g).all_values() == (a, b, c, d, e, f).all_values() + g.arg_values(),
        (a, b, c, d, e, f, g, h).all_values() == (a, b, c, d, e, f, g).all_values() + h.arg_values(),
        (a,).all_uses(ev) == a.uses_until(ev),
        (a, b).all_uses(ev) == a.uses_until(ev) + b.uses_until(ev),
        (a, b, c).all_uses(ev) == (a, b).all_uses(ev) + c.uses_until(ev),
        (a, b, c, d).all_uses(ev) == (a, b, c).all_uses(ev) + d.uses_until(ev),
        (a, b, c, d, e).all_uses(ev) == (a, b, c, d).all_uses(ev) + e.uses_until(ev),
        (a, b, c, d, e, f).all_uses(ev) == (a, b, c, d, e).all_uses(ev) + f.uses_until(ev),
        (a, b, c, d, e, f, g).all_uses(ev) == (a, b, c, d, e, f).all_uses(ev) + g.uses_until(ev),
        (a, b, c, d, e, f, g, h).all_uses(ev) == (a, b, c, d, e, f, g).all_uses(ev) + h.uses_until(ev),
{
    assert((a, b, c, d).all_values() =~= (a, b, c).all_values() + d.arg_values());
    assert((a, b, c, d, e).all_values() =~= (a, b, c, d).all_values() + e.arg_values());
    assert((a, b, c, d, e, f).all_values() =~= (a, b, c, d, e).all_values() + f.arg_values());
    assert((a, b, c, d, e, f, g).all_values() =~= (a, b, c, d, e, f).all_values() + g.arg_values());
    assert((a, b, c, d, e, f, g, h).all_values() =~= (a, b, c, d, e, f, g).all_values() + h.arg_values());
    assert((a, b, c).all_uses(ev) =~= (a, b).all_uses(ev) + c.uses_until(ev));
    assert((a, b, c, d).all_uses(ev) =~= (a, b, c).all_uses(ev) + d.uses_until(ev));
    assert((a, b, c, d, e).all_uses(ev) =~= (a, b, c, d).all_uses(ev) + e.uses_until(ev));
    assert((a, b, c, d, e, f).all_uses(ev) =~= (a, b, c, d, e).all_uses(ev) + f.uses_until(ev));
    assert((a, b, c, d, e, f, g).all_uses(ev) =~= (a, b, c, d, e, f).all_uses(ev) + g.uses_until(ev));
    assert((a, b, c, d, e, f, g, h).all_uses(ev) =~= (a, b, c, d, e, f, g).all_uses(ev) + h.uses_until(ev));
}

/// A slice takes two arguments: where its memory is, and how many elements it has. A
/// one-element buffer takes the first alone, local memory its size.
pub proof fn law_slices_are_passed_with_their_length<M: KernelAccess>(
    d: DeviceSlice<M>,
    m: MappedSlice<M>,
    u: USMSlice<M>,
    s: Scalar<DeviceSlice<M>>,
    l: LocalBuffer,
)
    ensures
        d.arg_values().len() == 2 && d.arg_values()[0] == ArgValue::Mem(d.mem) && d.arg_values()[1] == ArgValue::Len(d.len),
        m.arg_values().len() == 2 && m.arg_values()[0] == ArgValue::Svm(m.ptr) && m.arg_values()[1] == ArgValue::Len(m.len),
        u.arg_values().len() == 2 && u.arg_values()[0] == ArgValue::Svm(u.ptr) && u.arg_values()[1] == ArgValue::Len(u.len),
        s.arg_values().len() == 1 && s.arg_values()[0] == ArgValue::Mem(s.inner.mem),
        l.arg_values().len() == 1 && l.arg_values()[0] == ArgValue::Local(l.size_bytes),
{
}

/// Whether an argument is a number of so many bytes, in two's complement.
pub open spec fn passes_number(v: ArgValue, width: int, number: int) -> bool {
    &&& v matches ArgValue::Scalar { width: w, bits }
    &&& w == width
    &&& bits == (if number < 0 {
        number + (if width == 1 {
            0x100int
        } else if width == 2 {
            0x1_0000int
        } else if width == 4 {
            0x1_0000_0000int
        } else {
            0x1_0000_0000_0000_0000int
        })
    } else {
        number
    })
}

/// A number is passed as itself, in as many bytes as its type has.
pub proof fn law_numbers_are_passed_as_they_are(
    a: u8,
    b: u16,
    c: u32,
    d: u64,
    e: i8,
    f: i16,
    g: i32,
    h: i64,
    x: F32Bits,
    y: F64Bits,
)
    ensures
        ByValue(a).arg_values().len() == 1 && passes_number(ByValue(a).arg_values()[0], 1, a as int),
        ByValue(b).arg_values().len() == 1 && passes_number(ByValue(b).arg_values()[0], 2, b as int),
        ByValue(c).arg_values().len() == 1 && passes_number(ByValue(c).arg_values()[0], 4, c as int),
        ByValue(d).arg_values().len() == 1 && passes_number(ByValue(d).arg_values()[0], 8, d as int),
        ByValue(e).arg_values().len() == 1 && passes_number(ByValue(e).arg_values()[0], 1, e as int),
        ByValue(f).arg_values().len() == 1 && passes_number(ByValue(f).arg_values()[0], 2, f as int),
        ByValue(g).arg_values().len() == 1 && passes_number(ByValue(g).arg_values()[0], 4, g as int),
        ByValue(h).arg_values().len() == 1 && passes_number(ByValue(h).arg_values()[0], 8, h as int),
        ByValue(x).arg_values().len() == 1 && passes_number(ByValue(x).arg_values()[0], 4, x.0 as int),
        ByValue(y).arg_values().len() == 1 && passes_number(ByValue(y).arg_values()[0], 8, y.0 as int),
{
}

/// A launch of a graph passes numbers and memory as a single launch does.
pub proof fn law_launch_op_passes_what_it_holds(
    a: u8,
    b: u16,
    c: u32,
    d: u64,
    e: i8,
    f: i16,
    g: i32,
    h: i64,
    x: F32Bits,
    y: F64Bits,
    o: Obj,
)
    ensures
        number_value(AnyValue::U8(a)) matches Some(v) && passes_number(v, 1, a as int),
        number_value(AnyValue::U16(b)) matches Some(v) && passes_number(v, 2, b as int),
        number_value(AnyValue::U32(c)) matches Some(v) && passes_number(v, 4, c as int),
        number_value(AnyValue::U64(d)) matches Some(v) && passes_number(v, 8, d as int),
        number_value(AnyValue::I8(e)) matches Some(v) && passes_number(v, 1, e as int),
        number_value(AnyValue::I16(f)) matches Some(v) && passes_number(v, 2, f as int),
        number_value(AnyValue::I32(g)) matches Some(v) && passes_number(v, 4, g as int),
        number_value(AnyValue::I64(h)) matches Some(v) && passes_number(v, 8, h as int),
        number_value(AnyValue::F32(x)) matches Some(v) && passes_number(v, 4, x.0 as int),
        number_value(AnyValue::F64(y)) matches Some(v) && passes_number(v, 8, y.0 as int),
        o.class == Class::Device ==> memory_values(o) == seq![ArgValue::Mem(o.id), ArgValue::Len(o.len)],
        o.class == Class::Mapped || o.class == Class::Usm ==> memory_values(o) == seq![
            ArgValue::Svm(o.id),
            ArgValue::Len(o.len),
        ],
        o.class == Class::Image ==> memory_values(o) == seq![ArgValue::Mem(o.id)],
{
}

/// A launch captures every scalar slot that it reads, and a grid that is a slot.
pub proof fn law_launch_captures_its_scalars(
    args: Seq<LaunchArg>,
    i: nat,
    d: Prepared,
    barrier: Option<u64>,
    grid: ScalarInput<LaunchSpec>,
    y: u64,
)
    requires
        prepared(args, i, d, barrier).1 is Ok,
        d.cells.contains(y) || (exists|k: int|
            i <= k < args.len() && (#[trigger] args[k] matches LaunchArg::Number(NumberArg::Slot { cell, .. }) && cell == y)) || (
        grid matches ScalarInput::Slot { cell, .. } && cell == y),
    ensures
        launch_cells(grid, prepared(args, i, d, barrier).0.cells).contains(y),
    decreases args.len() - i,
{
    lemma_cells_are_kept(args, i, d, barrier, y);
    let cells = prepared(args, i, d, barrier).0.cells;
    if let ScalarInput::Slot { cell, .. } = grid {
        lemma_id_added(cells, cell);
    }
}

proof fn lemma_id_added(s: Seq<u64>, x: u64)
    ensures
        with_id(s, x).contains(x),
        forall|y: u64| s.contains(y) ==> #[trigger] with_id(s, x).contains(y),
{
    lemma_ids_are_added(s, seq![x]);
    reveal_with_fuel(with_ids, 2);
    assert(seq![x].drop_last() =~= Seq::empty());
    assert(with_ids(s, seq![x]) == with_id(s, x));
    assert(seq![x][0] == x);
    assert(seq![x].contains(x));
}

proof fn lemma_cells_are_kept(args: Seq<LaunchArg>, i: nat, d: Prepared, barrier: Option<u64>, y: u64)
    requires
        prepared(args, i, d, barrier).1 is Ok,
    ensures
        d.cells.contains(y) || (exists|k: int|
            i <= k < args.len() && (#[trigger] args[k] matches LaunchArg::Number(NumberArg::Slot { cell, .. }) && cell == y))
            ==> prepared(args, i, d, barrier).0.cells.contains(y),
    decreases args.len() - i,
{
    if i < args.len() {
        match args[i as int] {
            LaunchArg::Local(bytes) => {
                let e = Prepared { values: d.values.push(ArgValue::Local(bytes)), ..d };
                lemma_cells_are_kept(args, i + 1, e, barrier, y);
            },
            LaunchArg::Number(n) => {
                let v = number_value(n.reading(d.w)->Ok_0)->Some_0;
                let e = Prepared {
                    values: d.values.push(v),
                    cells: match n {
                        NumberArg::Slot { cell, .. } => with_id(d.cells, cell),
                        NumberArg::Given(_) => d.cells,
                    },
                    ..d
                };
                if let NumberArg::Slot { cell, .. } = n {
                    lemma_id_added(d.cells, cell);
                }
                lemma_cells_are_kept(args, i + 1, e, barrier, y);
            },
            LaunchArg::Memory { input, out } => {
                let p = found(d.w, barrier, input)->Ok_0;
                let e = Prepared {
                    w: after_taking(d.w, input),
                    values: d.values + memory_values(p.value[0]),
                    taken: d.taken.push(TakenView { parcel: p, input, out }),
                    cells: d.cells,
                };
                lemma_cells_are_kept(args, i + 1, e, barrier, y);
            },
        }
    }
}

/// What follows a recorded launch waits on it: each of its outputs is behind its sync point.
pub proof fn law_outputs_wait_on_the_recorded_launch(taken: Seq<TakenView>, i: nat, s: Walk, sp: u64, k: int)
    requires
        i <= k < taken.len(),
    ensures
        launch_points(taken, i, s, sp).sp_of(Some(taken[k].out.cell)) == seq![sp],
    decreases taken.len() - i,
{
    let next = s.with_sp(taken[i as int].out.cell, seq![sp]);
    if k > i {
        law_outputs_wait_on_the_recorded_launch(taken, i + 1, next, sp, k);
    } else {
        lemma_points_stay(taken, i + 1, next, sp, taken[k].out.cell);
    }
}

proof fn lemma_points_stay(taken: Seq<TakenView>, i: nat, s: Walk, sp: u64, c: u64)
    requires
        s.sp_of(Some(c)) == seq![sp],
    ensures
        launch_points(taken, i, s, sp).sp_of(Some(c)) == seq![sp],
    decreases taken.len() - i,
{
    if i < taken.len() {
        lemma_points_stay(taken, i + 1, s.with_sp(taken[i as int].out.cell, seq![sp]), sp, c);
    }
}

/// All shared memory among the memory of a launch counts as used by it.
pub proof fn law_launch_uses_all_its_shared_memory(taken: Seq<TakenView>, i: nat, k: int, p: u64)
    requires
        i <= k < taken.len(),
        taken[k].parcel.value[0].mem_spec() == MemRef::Svm(p),
    ensures
        taken_svm(taken, i).contains(p),
    decreases taken.len() - i,
{
    if k == i {
        assert(taken_svm(taken, i)[0] == p);
    } else {
        law_launch_uses_all_its_shared_memory(taken, i + 1, k, p);
        let rest = taken_svm(taken, i + 1);
        let j = rest.index_of(p);
        match taken[i as int].parcel.value[0].mem_spec() {
            MemRef::Svm(_) => {
                assert(taken_svm(taken, i)[j + 1] == p);
            },
            MemRef::Buffer(_) => {
                assert(taken_svm(taken, i)[j] == p);
            },
        }
    }
}

/// A launch in a command buffer makes the command buffer use its shared memory, besides what
/// it uses already.
pub proof fn law_command_buffer_uses_what_its_launches_use(s: Walk, taken: Seq<TakenView>, p: u64)
    requires
        !(s.cb is Off),
        s.cb.svm().contains(p) || taken_svm(taken, 0).contains(p),
    ensures
        sharing(s, taken).cb.svm().contains(p),
        sharing(s, taken).w == s.w,
        sharing(s, taken).cb.ext() == s.cb.ext(),
{
    let all = sharing(s, taken).cb.svm();
    if s.cb.svm().contains(p) {
        assert(all[s.cb.svm().index_of(p)] == p);
    } else {
        assert(all[s.cb.svm().len() + taken_svm(taken, 0).index_of(p)] == p);
    }
}

/// A slice stands for all its elements and all its bytes, by its handle; a scalar is passed
/// and recorded as the buffer that it lies in.
pub proof fn law_slices_stand_for_all_their_elements<M: KernelReadable>(
    d: DeviceSlice<M>,
    m: MappedSlice<M>,
    u: USMSlice<M>,
    s: Scalar<DeviceSlice<M>>,
    ev: u64,
)
    ensures
        d.elements() == d.len && m.elements() == m.len && u.elements() == u.len,
        d.handle_spec() matches Ok(h) && h.mem == MemRef::Buffer(d.mem) && h.byte_len == d.byte_len,
        m.handle_spec() matches Ok(h) && h.mem == MemRef::Svm(m.ptr) && h.byte_len == m.byte_len,
        u.handle_spec() matches Ok(h) && h.mem == MemRef::Svm(u.ptr) && h.byte_len == u.byte_len,
        d.pointer_value() == ArgValue::Mem(d.mem),
        m.pointer_value() == ArgValue::Svm(m.ptr),
        u.pointer_value() == ArgValue::Svm(u.ptr),
        s.arg_values() == seq![ArgValue::Mem(s.inner.mem)],
        s.scalar_handle_spec() matches Ok(h) && h.mem == MemRef::Buffer(s.inner.mem) && h.byte_len == s.inner.byte_len,
        d.uses_until(ev).len() == 0,
        m.uses_until(ev) == seq![InFlight { ptr: m.ptr, event: ev }],
        u.uses_until(ev) == seq![InFlight { ptr: u.ptr, event: ev }],
{
}

proof fn lemma_handed_on_keeps(taken: Seq<TakenView>, i: nat, s: Walk, deps: Seq<u64>)
    ensures
        handed_on(taken, i, s, deps).cb == s.cb,
        handed_on(taken, i, s, deps).sp == s.sp,
        handed_on(taken, i, s, deps).trace == s.trace,
        handed_on(taken, i, s, deps).w.uses == s.w.uses,
    decreases taken.len() - i,
{
    if i < taken.len() {
        let t = taken[i as int];
        lemma_handed_on_keeps(taken, i + 1, s.put(t.out.cell, t.parcel.value, deps, t.parcel.home), deps);
    }
}

proof fn lemma_points_keep(taken: Seq<TakenView>, i: nat, s: Walk, sp: u64)
    ensures
        launch_points(taken, i, s, sp).cb == s.cb,
        launch_points(taken, i, s, sp).w == s.w,
        launch_points(taken, i, s, sp).trace == s.trace,
    decreases taken.len() - i,
{
    if i < taken.len() {
        lemma_points_keep(taken, i + 1, s.with_sp(taken[i as int].out.cell, seq![sp]), sp);
    }
}

proof fn lemma_sets_keep(kernel: u64, args: Seq<ArgValue>, i: nat, pre: Walk, post: Walk, res: OpResult<()>)
    requires
        sets_from(kernel, args, i, pre, post, res),
    ensures
        post == (Walk { trace: post.trace, ..pre }),
        pre.trace.len() <= post.trace.len(),
    decreases args.len() - i,
{
    if i < args.len() {
        let q = choose|q: Reply|
            {
                let s = #[trigger] pre.issued(
                    Command::SetArg { kernel, index: i as usize, value: args[i as int] },
                    Seq::empty(),
                    q,
                );
                match q {
                    Err(c) => post == s && res == Err::<(), Error>(Error::OpenCl(c)),
                    Ok(_) => sets_from(kernel, args, i + 1, s, post, res),
                }
            };
        if q is Ok {
            let s = pre.issued(Command::SetArg { kernel, index: i as usize, value: args[i as int] }, Seq::empty(), q);
            lemma_sets_keep(kernel, args, i + 1, s, post, res);
        }
    }
}

proof fn lemma_built_captures(taken: Seq<TakenView>, i: nat, s: Walk, waits: Seq<u64>, y: u64)
    requires
        s.cb is Build,
    ensures
        ({
            let t = launch_built(taken, i, s, waits).0;
            &&& t.cb is Build
            &&& t.cb->Build_svm == s.cb->Build_svm
            &&& t.w == s.w
            &&& t.sp == s.sp
            &&& t.trace == s.trace
            &&& t.cb->Build_ext == s.cb->Build_ext + taken_deps(taken, i)
            &&& s.cb->Build_builder.slots.contains(y) || (exists|k: int|
                i <= k < taken.len() && slot_of((#[trigger] taken[k]).input) == Some(y))
                ==> t.cb->Build_builder.slots.contains(y)
        }),
    decreases taken.len() - i,
{
    let t = launch_built(taken, i, s, waits).0;
    if i < taken.len() {
        let x = taken[i as int];
        let pipe = pipe_of(s.w, x.input);
        let slot = slot_of(x.input);
        let m = leaf_built(s, x.parcel.deps, slot, pipe, x.out.cell);
        lemma_built_captures(taken, i + 1, m, with_ids(waits, s.sp_of(pipe)), y);
        assert(t.cb->Build_ext =~= s.cb->Build_ext + taken_deps(taken, i));
        if s.cb->Build_builder.slots.contains(y) {
            law_captured_slots_stay_captured(s, x.parcel.deps, slot, pipe, x.out.cell, y);
        }
        if slot == Some(y) {
            law_recorded_command_captures_its_slots(s, x.parcel.deps, slot, pipe, x.out.cell, y);
        }
    } else {
        assert(t.cb->Build_ext =~= s.cb->Build_ext + taken_deps(taken, i));
    }
}

/// Whether a grid is the one that a launch holds or reads from its slot.
pub open spec fn is_the_grid(grid: ScalarInput<LaunchSpec>, w: World, g: Grid) -> bool {
    match grid {
        ScalarInput::Concrete(v) => g == v@,
        ScalarInput::Slot { cell, .. } => w.scalar(cell) matches Some(AnyValue::Grid(v)) && g == v@,
    }
}

/// Whether the outputs of a launch are its memory as it came, each on its own pipe with its
/// own home, behind these events.
pub open spec fn hands_on_all(taken: Seq<TakenView>, w: World, deps: Seq<u64>) -> bool {
    forall|k: int|
        0 <= k < taken.len() ==> w.parcel((#[trigger] taken[k]).out.cell) == Some(
            (ParcelView { value: taken[k].parcel.value, deps, home: taken[k].parcel.home }),
        )
}

/// What a launch finds of its arguments.
pub open spec fn finds_of(l: Launch, pre: Walk) -> (Prepared, OpResult<()>) {
    prepared(
        l.args@,
        0,
        Prepared { w: pre.w, values: Seq::empty(), taken: Seq::empty(), cells: Seq::empty() },
        pre.start,
    )
}

/// A launch that goes to the queue is sent with the grid that it holds or reads and with what
/// it finds of its arguments. Its memory goes on behind the launch, or behind nothing in a
/// blocking run, and its shared memory is used until the launch has ended.
pub proof fn law_launch_sends_what_it_finds(l: Launch, pre: Walk, post: Walk, mode: ExecMode) -> (r: (Grid, u64))
    requires
        pre.cb is Off,
        l.runs(pre, post, mode, Ok(())),
        forall|a: int, b: int|
            0 <= a < b < finds_of(l, pre).0.taken.len() ==> (#[trigger] finds_of(l, pre).0.taken[a]).out.cell != (
            #[trigger] finds_of(l, pre).0.taken[b]).out.cell,
    ensures
        ({
            let (g, ev) = r;
            let d = finds_of(l, pre).0;
            &&& finds_of(l, pre).1 is Ok
            &&& is_the_grid(l.grid, pre.w, g)
            &&& launch_sent(l.kernel, g, d, pre.at(d.w), post, mode, Ok(()))
            &&& hands_on_all(
                d.taken,
                post.w,
                if mode == ExecMode::Blocking {
                    Seq::empty()
                } else {
                    seq![ev]
                },
            )
            &&& post.trace.len() > pre.trace.len()
            &&& exists|k: int|
                pre.trace.len() <= k < post.trace.len() && (#[trigger] post.trace[k]).command is RunKernel
                    && post.trace[k].reply == Ok::<u64, i32>(ev)
            &&& forall|k: int, p: u64|
                0 <= k < d.taken.len() && (#[trigger] d.taken[k]).parcel.value[0].mem_spec() == MemRef::Svm(p)
                    ==> (#[trigger] post.w.used_until(p)).contains(ev)
        }),
{
    let res = Ok::<(), Error>(());
    let (d, f) = finds_of(l, pre);
    let s = pre.at(d.w);
    let spec = l.grid.reading(pre.w)->Ok_0;
    let g = spec@;
    if let ScalarInput::Slot { cell, .. } = l.grid {
        LaunchSpec::lemma_kind(spec, pre.w.scalar(cell)->Some_0);
        assert(LaunchSpec::unerased(pre.w.scalar(cell)->Some_0) == Some(spec));
    }
    let (m, h) = choose|m: Walk, r: OpResult<()>|
        #[trigger] args_set(m, r) && sets_from(l.kernel, d.values, 0, s, m, r) && match r {
            Err(e) => post == m && res == Err::<(), Error>(e),
            Ok(_) => exists|t: Walk, j: OpResult<u64>|
                #[trigger] passes(t, j) && launches(run_command(l.kernel, g), taken_deps(d.taken, 0), m, t, j) && match j {
                    Err(e) => post == t && res == Err::<(), Error>(e),
                    Ok(ev) => launch_ends(d, ev, t, post, mode, res),
                },
        };
    lemma_sets_keep(l.kernel, d.values, 0, s, m, h);
    let (t, j) = choose|t: Walk, j: OpResult<u64>|
        #[trigger] passes(t, j) && launches(run_command(l.kernel, g), taken_deps(d.taken, 0), m, t, j) && match j {
            Err(e) => post == t && res == Err::<(), Error>(e),
            Ok(ev) => launch_ends(d, ev, t, post, mode, res),
        };
    let ev = j->Ok_0;
    let uses = buffer_uses(taken_svm(d.taken, 0), ev);
    let n = t.at(t.w.using(uses));
    let at = m.trace.len() as int;
    assert(t.trace[at].command is RunKernel);
    let (u, deps) = if mode == ExecMode::Blocking {
        let q = choose|q: Reply|
            {
                let u = #[trigger] n.issued(Command::Wait { event: ev }, Seq::empty(), q);
                match q {
                    Err(c) => post == u && res == Err::<(), Error>(Error::OpenCl(c)),
                    Ok(_) => post == handed_on(d.taken, 0, u, Seq::empty()) && res == Ok::<(), Error>(()),
                }
            };
        (n.issued(Command::Wait { event: ev }, Seq::empty(), q), Seq::<u64>::empty())
    } else {
        (n, seq![ev])
    };
    assert(post == handed_on(d.taken, 0, u, deps));
    lemma_handed_on_keeps(d.taken, 0, u, deps);
    assert forall|k: int| 0 <= k < d.taken.len() implies post.w.parcel((#[trigger] d.taken[k]).out.cell) == Some(
        (ParcelView { value: d.taken[k].parcel.value, deps, home: d.taken[k].parcel.home }),
    ) by {
        law_launch_hands_memory_on(d.taken, 0, u, deps, k);
    }
    assert(post.trace[at].command is RunKernel && post.trace[at].reply == Ok::<u64, i32>(ev));
    assert forall|k: int, p: u64|
        0 <= k < d.taken.len() && (#[trigger] d.taken[k]).parcel.value[0].mem_spec() == MemRef::Svm(p) implies (
    #[trigger] post.w.used_until(p)).contains(ev) by {
        law_launch_uses_all_its_shared_memory(d.taken, 0, k, p);
        let x = taken_svm(d.taken, 0).index_of(p);
        assert(uses[x] == (InFlight { ptr: p, event: ev }));
        law_launches_are_followed(t.w, uses, p, ev);
    }
    (g, ev)
}

/// A launch inside a command buffer that is built: what is recorded waits on the sync points of
/// all its memory. The command buffer captures the slots of its memory, its numbers and its
/// grid, waits on what its memory waited on outside, and uses its shared memory. Its memory
/// goes on behind the recorded launch.
pub proof fn law_recorded_launch_captures_what_it_finds(l: Launch, pre: Walk, post: Walk, mode: ExecMode) -> (g: Grid)
    requires
        pre.cb is Build,
        l.runs(pre, post, mode, Ok(())),
        forall|a: int, b: int|
            0 <= a < b < finds_of(l, pre).0.taken.len() ==> (#[trigger] finds_of(l, pre).0.taken[a]).out.cell != (
            #[trigger] finds_of(l, pre).0.taken[b]).out.cell,
    ensures
        ({
            let d = finds_of(l, pre).0;
            let s = pre.at(d.w);
            let last = post.trace.last();
            &&& finds_of(l, pre).1 is Ok
            &&& is_the_grid(l.grid, pre.w, g)
            &&& launch_recorded(l.kernel, g, d, launch_cells(l.grid, d.cells), s, post, Ok(()))
            &&& hands_on_all(d.taken, post.w, Seq::empty())
            &&& post.cb is Build
            &&& post.trace.len() > pre.trace.len()
            &&& last.command is Record
            &&& last.reply matches Ok(sp) ==> forall|k: int|
                0 <= k < d.taken.len() ==> post.sp_of(Some((#[trigger] d.taken[k]).out.cell)) == seq![sp]
            &&& forall|k: int, y: u64|
                0 <= k < d.taken.len() && pre.sp_of(
                    pipe_of(d.w, (#[trigger] d.taken[k]).input),
                ).contains(y) ==> #[trigger] last.waits.contains(y)
            &&& forall|y: u64|
                launch_cells(l.grid, d.cells).contains(y) ==> #[trigger] post.cb->Build_builder.slots.contains(y)
            &&& forall|k: int, y: u64|
                0 <= k < d.taken.len() && slot_of((#[trigger] d.taken[k]).input) == Some(y)
                    ==> #[trigger] post.cb->Build_builder.slots.contains(y)
            &&& post.cb->Build_ext == pre.cb->Build_ext + taken_deps(d.taken, 0)
            &&& post.cb->Build_svm == pre.cb->Build_svm + taken_svm(d.taken, 0)
        }),
{
    let res = Ok::<(), Error>(());
    let (d, f) = finds_of(l, pre);
    let s = pre.at(d.w);
    let spec = l.grid.reading(pre.w)->Ok_0;
    let g = spec@;
    if let ScalarInput::Slot { cell, .. } = l.grid {
        LaunchSpec::lemma_kind(spec, pre.w.scalar(cell)->Some_0);
        assert(LaunchSpec::unerased(pre.w.scalar(cell)->Some_0) == Some(spec));
    }
    let cells = launch_cells(l.grid, d.cells);
    let noted = sharing(s, d.taken).noting(cells);
    let (b, waits) = launch_built(d.taken, 0, noted, Seq::empty());
    let (m, r) = choose|m: Walk, r: OpResult<()>|
        #[trigger] args_set(m, r) && sets_from(l.kernel, d.values, 0, b, m, r) && match r {
            Err(e) => post == m && res == Err::<(), Error>(e),
            Ok(_) => exists|q: Reply|
                {
                    let t = #[trigger] m.recording(recorded_launch(l.kernel, g), waits, q);
                    let u = match q {
                        Ok(sp) => launch_points(d.taken, 0, t, sp),
                        Err(_) => t,
                    };
                    post == handed_on(d.taken, 0, u, Seq::empty()) && res == Ok::<(), Error>(())
                },
        };
    lemma_sets_keep(l.kernel, d.values, 0, b, m, r);
    let q = choose|q: Reply|
        {
            let t = #[trigger] m.recording(recorded_launch(l.kernel, g), waits, q);
            let u = match q {
                Ok(sp) => launch_points(d.taken, 0, t, sp),
                Err(_) => t,
            };
            post == handed_on(d.taken, 0, u, Seq::empty()) && res == Ok::<(), Error>(())
        };
    lemma_built_captures(d.taken, 0, noted, Seq::empty(), 0);
    let t = m.recording(recorded_launch(l.kernel, g), waits, q);
    let u = match q {
        Ok(sp) => launch_points(d.taken, 0, t, sp),
        Err(_) => t,
    };
    if let Ok(sp) = q {
        lemma_points_keep(d.taken, 0, t, sp);
    }
    lemma_handed_on_keeps(d.taken, 0, u, Seq::empty());
    assert forall|k: int| 0 <= k < d.taken.len() implies post.w.parcel((#[trigger] d.taken[k]).out.cell) == Some(
        (ParcelView { value: d.taken[k].parcel.value, deps: Seq::empty(), home: d.taken[k].parcel.home }),
    ) by {
        law_launch_hands_memory_on(d.taken, 0, u, Seq::empty(), k);
    }
    assert(post.trace.last() == t.trace.last());
    if let Ok(sp) = q {
        assert forall|k: int| 0 <= k < d.taken.len() implies post.sp_of(Some((#[trigger] d.taken[k]).out.cell)) == seq![
            sp,
        ] by {
            law_outputs_wait_on_the_recorded_launch(d.taken, 0, t, sp, k);
        }
    }
    assert forall|k: int, y: u64|
        0 <= k < d.taken.len() && pre.sp_of(pipe_of(d.w, (#[trigger] d.taken[k]).input)).contains(
            y,
        ) implies #[trigger] post.trace.last().waits.contains(y) by {
        law_recorded_launch_waits_on_its_memory(d.taken, 0, noted, Seq::empty(), k, y);
    }
    assert forall|y: u64| cells.contains(y) implies #[trigger] post.cb->Build_builder.slots.contains(y) by {
        lemma_ids_are_added(sharing(s, d.taken).cb->Build_builder.slots, cells);
        lemma_built_captures(d.taken, 0, noted, Seq::empty(), y);
    }
    assert forall|k: int, y: u64|
        0 <= k < d.taken.len() && slot_of((#[trigger] d.taken[k]).input) == Some(y) implies #[trigger] post.cb->Build_builder.slots.contains(
        y,
    ) by {
        lemma_built_captures(d.taken, 0, noted, Seq::empty(), y);
    }
    g
}

/// A launch inside a command buffer that is replayed enqueues nothing. The submission waits on
/// what its memory waited on outside, and uses its shared memory; the memory goes on.
pub proof fn law_replayed_launch_hands_its_memory_on(l: Launch, pre: Walk, post: Walk, mode: ExecMode)
    requires
        pre.cb is LendOnly,
        l.runs(pre, post, mode, Ok(())),
        forall|a: int, b: int|
            0 <= a < b < finds_of(l, pre).0.taken.len() ==> (#[trigger] finds_of(l, pre).0.taken[a]).out.cell != (
            #[trigger] finds_of(l, pre).0.taken[b]).out.cell,
    ensures
        ({
            let d = finds_of(l, pre).0;
            &&& finds_of(l, pre).1 is Ok
            &&& post.trace == pre.trace
            &&& post.cb is LendOnly
            &&& post.cb->LendOnly_ext == pre.cb->LendOnly_ext + taken_deps(d.taken, 0)
            &&& post.cb->LendOnly_svm == pre.cb->LendOnly_svm + taken_svm(d.taken, 0)
            &&& hands_on_all(d.taken, post.w, Seq::empty())
        }),
{
    let d = finds_of(l, pre).0;
    let s = pre.at(d.w);
    let u = sharing(s, d.taken).external(taken_deps(d.taken, 0));
    lemma_handed_on_keeps(d.taken, 0, u, Seq::empty());
    assert forall|k: int| 0 <= k < d.taken.len() implies post.w.parcel((#[trigger] d.taken[k]).out.cell) == Some(
        (ParcelView { value: d.taken[k].parcel.value, deps: Seq::empty(), home: d.taken[k].parcel.home }),
    ) by {
        law_launch_hands_memory_on(d.taken, 0, u, Seq::empty(), k);
    }
}

/// A kernel that is launched uses the shared memory among its arguments until the launch has
/// ended, and changes nothing else that the run notes.
pub proof fn law_kernel_uses_its_shared_memory<A: KernelArgs>(
    l: KernelLaunch<A>,
    extra: Seq<u64>,
    pre: Walk,
    post: Walk,
    out: Vec<Obj>,
    ev: u64,
    k: int,
)
    requires
        l.enqueues(extra, pre, post, Ok((out, ev))),
        0 <= k < l.args.all_uses(ev).len(),
        l.args.all_uses(ev)[k].event == ev,
    ensures
        post.w.used_until(l.args.all_uses(ev)[k].ptr).contains(ev),
        post.w == (World { uses: post.w.uses, ..pre.w }),
{
    let args = l.args.all_values();
    let res = Ok::<(Vec<Obj>, u64), Error>((out, ev));
    let (m, r) = choose|m: Walk, r: OpResult<()>|
        #[trigger] args_set(m, r) && sets_from(l.kernel, args, 0, pre, m, r) && match r {
            Err(e) => post == m && res == Err::<(Vec<Obj>, u64), Error>(e),
            Ok(_) => exists|t: Walk, j: OpResult<u64>|
                (#[trigger] launches(run_command(l.kernel, l.grid@), l.deps@ + extra, m, t, j)) && match j {
                    Err(e) => post == t && res == Err::<(Vec<Obj>, u64), Error>(e),
                    Ok(ev) => post == t.at(t.w.using(l.args.all_uses(ev))) && res == Ok::<(Vec<Obj>, u64), Error>(
                        (l.outputs, ev),
                    ),
                },
        };
    lemma_sets_keep(l.kernel, args, 0, pre, m, r);
    let u = l.args.all_uses(ev)[k];
    assert(u == (InFlight { ptr: u.ptr, event: ev }));
    law_launches_are_followed(m.w, l.args.all_uses(ev), u.ptr, ev);
}

} // verus!
