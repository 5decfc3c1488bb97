//! A kernel launch as an op of a graph: memory comes along its inputs, numbers and
//! the grid are given or come from slots.

use crate::cb::{cb_leaf_build, leaf_built, new_cb_cache, CbCache};
use crate::error::{Error, OpResult};
use crate::exec_ctx::{buffer_uses, kept, uses_at, Driver, ExecMode, ExecutionContext, Walk, WalkMode};
use crate::fill_kernel::{launch, launches};
use crate::ids::{extend_ids, with_id, with_ids, IdSet};
use crate::input::{after_taking, found, not_single_error, pipe_of, readiness, slot_of, Input, ToInput};
use crate::kernel_op::{args_set, run_command, set_from, sets_from, sizes, sizes_of};
use crate::launch::{ArgValue, Grid, LaunchSpec, LocalBuffer, ScalarArg};
use crate::leaf::{no_deps, single_dep, walk_kind, WalkKind};
use crate::leaves::{text_of, LeafNode};
use crate::obj::{Class, Command, Extent, MemRef, Obj, Recorded, Reply};
use crate::slots::{kind_of, value_kind, AnyValue, ScalarInput, SlotValue, ValueKind};
use crate::store::{Parcel, ParcelView, Pipe, Store, World};
use crate::walk::passes;
use vstd::prelude::*;

verus! {

broadcast use crate::exec_ctx::lemma_kept_over, crate::store::group_fresh_ids;

/// A number that a launch takes: given, or read from a slot in every run.
#[derive(Clone, Copy, Debug)]
pub enum NumberArg {
    Given(AnyValue),
    Slot { key: u64, name: &'static str, cell: u64, sink: u64, kind: ValueKind },
}

/// The answer when a kernel argument is no number.
pub open spec fn no_number_error() -> Error {
    Error::InvalidArgument("a kernel argument is no number")
}

impl NumberArg {
    /// The slot that a bind walk visits.
    pub open spec fn site_spec(self) -> Option<Input> {
        match self {
            NumberArg::Given(_) => None,
            NumberArg::Slot { key, name, cell, sink, kind } => Some(Input::Scalar { key, name, cell, sink, kind }),
        }
    }

    fn site(&self) -> (r: Option<Input>)
        ensures
            r == self.site_spec(),
    {
        match self {
            NumberArg::Given(_) => None,
            NumberArg::Slot { key, name, cell, sink, kind } => Some(
                Input::Scalar { key: *key, name, cell: *cell, sink: *sink, kind: *kind },
            ),
        }
    }

    /// What a run reads.
    pub open spec fn reading(self, w: World) -> OpResult<AnyValue> {
        match self {
            NumberArg::Given(a) => Ok::<AnyValue, Error>(a),
            NumberArg::Slot { name, cell, kind, .. } => match w.scalar(cell) {
                Some(a) => if kind_of(a) == kind {
                    Ok(a)
                } else {
                    Err(Error::SlotUnbound(name))
                },
                None => Err(Error::SlotUnbound(name)),
            },
        }
    }

    fn read(&self, st: &Store) -> (r: OpResult<AnyValue>)
        ensures
            r == self.reading(st@),
    {
        match self {
            NumberArg::Given(a) => Ok(*a),
            NumberArg::Slot { name, cell, kind, .. } => match st.scalar(*cell) {
                Some(a) => if value_kind(&a) == *kind {
                    Ok(a)
                } else {
                    Err(Error::SlotUnbound(name))
                },
                None => Err(Error::SlotUnbound(name)),
            },
        }
    }
}

/// A number as a kernel argument.
pub open spec fn number_value(a: AnyValue) -> Option<ArgValue> {
    match a {
        AnyValue::I8(x) => Some(ArgValue::Scalar { width: i8::width(), bits: x.bits() }),
        AnyValue::U8(x) => Some(ArgValue::Scalar { width: u8::width(), bits: x.bits() }),
        AnyValue::I16(x) => Some(ArgValue::Scalar { width: i16::width(), bits: x.bits() }),
        AnyValue::U16(x) => Some(ArgValue::Scalar { width: u16::width(), bits: x.bits() }),
        AnyValue::I32(x) => Some(ArgValue::Scalar { width: i32::width(), bits: x.bits() }),
        AnyValue::U32(x) => Some(ArgValue::Scalar { width: u32::width(), bits: x.bits() }),
        AnyValue::I64(x) => Some(ArgValue::Scalar { width: i64::width(), bits: x.bits() }),
        AnyValue::U64(x) => Some(ArgValue::Scalar { width: u64::width(), bits: x.bits() }),
        AnyValue::F32(x) => Some(ArgValue::Scalar { width: crate::launch::F32Bits::width(), bits: x.bits() }),
        AnyValue::F64(x) => Some(ArgValue::Scalar { width: crate::launch::F64Bits::width(), bits: x.bits() }),
        AnyValue::Object(_) | AnyValue::Grid(_) => None,
    }
}

fn number_arg(a: &AnyValue) -> (r: Option<ArgValue>)
    ensures
        r == number_value(*a),
{
    match a {
        AnyValue::I8(x) => Some(x.to_arg()),
        AnyValue::U8(x) => Some(x.to_arg()),
        AnyValue::I16(x) => Some(x.to_arg()),
        AnyValue::U16(x) => Some(x.to_arg()),
        AnyValue::I32(x) => Some(x.to_arg()),
        AnyValue::U32(x) => Some(x.to_arg()),
        AnyValue::I64(x) => Some(x.to_arg()),
        AnyValue::U64(x) => Some(x.to_arg()),
        AnyValue::F32(x) => Some(x.to_arg()),
        AnyValue::F64(x) => Some(x.to_arg()),
        _ => None,
    }
}

/// Memory as kernel arguments: an image by its handle, a slice by its pointer and
/// its length.
pub open spec fn memory_values(o: Obj) -> Seq<ArgValue> {
    if o.class == Class::Image {
        seq![ArgValue::Mem(o.id)]
    } else {
        match o.mem_spec() {
            MemRef::Buffer(m) => seq![ArgValue::Mem(m), ArgValue::Len(o.len)],
            MemRef::Svm(p) => seq![ArgValue::Svm(p), ArgValue::Len(o.len)],
        }
    }
}

fn push_memory(values: &mut Vec<ArgValue>, o: &Obj)
    ensures
        final(values)@ == old(values)@ + memory_values(*o),
{
    if matches!(o.class, Class::Image) {
        values.push(ArgValue::Mem(o.id));
    } else {
        match o.mem() {
            MemRef::Buffer(m) => {
                values.push(ArgValue::Mem(m));
            },
            MemRef::Svm(p) => {
                values.push(ArgValue::Svm(p));
            },
        }
        values.push(ArgValue::Len(o.len));
    }
    assert(values@ =~= old(values)@ + memory_values(*o));
}

/// An argument of a launch.
#[derive(Clone, Copy, Debug)]
pub enum LaunchArg {
    /// Memory, handed on along `out` once the kernel used it.
    Memory { input: Input, out: Pipe },
    Number(NumberArg),
    /// Work-group local memory of so many bytes.
    Local(usize),
}

impl LaunchArg {
    /// Memory as an argument.
    pub fn memory<B: ToInput>(st: &mut Store, buf: B) -> (r: LaunchArg)
        requires
            old(st)@.next + 2 <= u64::MAX,
        ensures
            r == (LaunchArg::Memory {
                input: buf.input_spec(old(st)@).0,
                out: Pipe { cell: buf.input_spec(old(st)@).1.next },
            }),
            final(st)@ == buf.input_spec(old(st)@).1.fresh_ids(1nat),
    {
        let input = buf.to_input(st);
        LaunchArg::Memory { input, out: st.pipe() }
    }

    /// A number as an argument.
    pub fn number<T: ScalarArg + SlotValue>(v: ScalarInput<T>) -> (r: LaunchArg)
        ensures
            r == LaunchArg::Number(
                match v {
                    ScalarInput::Concrete(x) => NumberArg::Given(x.erased()),
                    ScalarInput::Slot { key, name, cell, sink } => NumberArg::Slot {
                        key,
                        name,
                        cell,
                        sink,
                        kind: T::kind_spec(),
                    },
                },
            ),
    {
        LaunchArg::Number(
            match v {
                ScalarInput::Concrete(x) => NumberArg::Given(x.erase()),
                ScalarInput::Slot { key, name, cell, sink } => NumberArg::Slot {
                    key,
                    name,
                    cell,
                    sink,
                    kind: T::kind(),
                },
            },
        )
    }

    /// Local memory as an argument.
    pub fn local(b: LocalBuffer) -> (r: LaunchArg)
        ensures
            r == LaunchArg::Local(b.size_bytes),
    {
        LaunchArg::Local(b.size_bytes)
    }
}

/// Launch a kernel over a grid, and hand on the memory that it used.
#[derive(Debug)]
pub struct Launch {
    pub kernel: u64,
    pub grid: ScalarInput<LaunchSpec>,
    pub args: Vec<LaunchArg>,
    pub cb_cache: CbCache,
}

/// Launch `kernel` over `grid` with `args`.
pub fn launch_kernel(st: &mut Store, kernel: u64, grid: ScalarInput<LaunchSpec>, args: Vec<LaunchArg>) -> (r: Launch)
    requires
        old(st)@.next < u64::MAX,
    ensures
        r.kernel == kernel,
        r.grid == grid,
        r.args@ == args@,
        r.cb_cache == old(st)@.next,
        final(st)@ == old(st)@.fresh_ids(1nat),
{
    Launch { kernel, grid, args, cb_cache: new_cb_cache(st) }
}

/// The pipes of the arguments from index `i` on.
pub open spec fn arg_outs(args: Seq<LaunchArg>, i: nat) -> Seq<Pipe>
    decreases args.len() - i,
{
    if i >= args.len() {
        Seq::empty()
    } else {
        match args[i as int] {
            LaunchArg::Memory { out, .. } => seq![out] + arg_outs(args, i + 1),
            _ => arg_outs(args, i + 1),
        }
    }
}

/// The inputs that a bind visits among the arguments from index `i` on.
pub open spec fn arg_sites(args: Seq<LaunchArg>, i: nat) -> Seq<Input>
    decreases args.len() - i,
{
    if i >= args.len() {
        Seq::empty()
    } else {
        match args[i as int] {
            LaunchArg::Memory { input, .. } => seq![input] + arg_sites(args, i + 1),
            LaunchArg::Number(n) => match n.site_spec() {
                Some(s) => seq![s] + arg_sites(args, i + 1),
                None => arg_sites(args, i + 1),
            },
            LaunchArg::Local(_) => arg_sites(args, i + 1),
        }
    }
}

/// Whether a run can start with all of some inputs, from index `i` on.
pub open spec fn all_ready(inputs: Seq<Input>, i: nat, w: World) -> OpResult<()>
    decreases inputs.len() - i,
{
    if i >= inputs.len() {
        Ok(())
    } else {
        match readiness(w, inputs[i as int]) {
            Err(e) => Err(e),
            Ok(_) => all_ready(inputs, i + 1, w),
        }
    }
}

/// Memory that a launch took: what came, from where, and where it goes.
pub struct Taken {
    pub parcel: Parcel,
    pub input: Input,
    pub out: Pipe,
}

/// Memory that a launch took, as plain values.
#[verifier::ext_equal]
pub struct TakenView {
    pub parcel: ParcelView,
    pub input: Input,
    pub out: Pipe,
}

impl View for Taken {
    type V = TakenView;

    open spec fn view(&self) -> TakenView {
        TakenView { parcel: self.parcel@, input: self.input, out: self.out }
    }
}

/// What a launch has gathered of its arguments.
#[verifier::ext_equal]
pub struct Prepared {
    /// The cells once the memory was taken.
    pub w: World,
    pub values: Seq<ArgValue>,
    pub taken: Seq<TakenView>,
    /// The scalar slots that were read.
    pub cells: Seq<u64>,
}

/// Gathering the arguments from index `i` on.
pub open spec fn prepared(args: Seq<LaunchArg>, i: nat, d: Prepared, barrier: Option<u64>) -> (Prepared, OpResult<()>)
    decreases args.len() - i,
{
    if i >= args.len() {
        (d, Ok(()))
    } else {
        match args[i as int] {
            LaunchArg::Local(bytes) => prepared(
                args,
                i + 1,
                Prepared { values: d.values.push(ArgValue::Local(bytes)), ..d },
                barrier,
            ),
            LaunchArg::Number(n) => match n.reading(d.w) {
                Err(e) => (d, Err(e)),
                Ok(a) => match number_value(a) {
                    None => (d, Err(no_number_error())),
                    Some(v) => prepared(
                        args,
                        i + 1,
                        Prepared {
                            values: d.values.push(v),
                            cells: match n {
                                NumberArg::Slot { cell, .. } => with_id(d.cells, cell),
                                NumberArg::Given(_) => d.cells,
                            },
                            ..d
                        },
                        barrier,
                    ),
                },
            },
            LaunchArg::Memory { input, out } => match found(d.w, barrier, input) {
                Err(e) => (d, Err(e)),
                Ok(p) => {
                    let w = after_taking(d.w, input);
                    if p.value.len() != 1 {
                        (Prepared { w, ..d }, Err(not_single_error()))
                    } else {
                        prepared(
                            args,
                            i + 1,
                            Prepared {
                                w,
                                values: d.values + memory_values(p.value[0]),
                                taken: d.taken.push(TakenView { parcel: p, input, out }),
                                cells: d.cells,
                            },
                            barrier,
                        )
                    }
                },
            },
        }
    }
}

/// The events that some memory waits on, from index `i` on.
pub open spec fn taken_deps(taken: Seq<TakenView>, i: nat) -> Seq<u64>
    decreases taken.len() - i,
{
    if i >= taken.len() {
        Seq::empty()
    } else {
        taken[i as int].parcel.deps + taken_deps(taken, i + 1)
    }
}

/// The run once memory from index `i` on was handed on, waiting on `deps`.
pub open spec fn handed_on(taken: Seq<TakenView>, i: nat, s: Walk, deps: Seq<u64>) -> Walk
    decreases taken.len() - i,
{
    if i >= taken.len() {
        s
    } else {
        let t = taken[i as int];
        handed_on(taken, i + 1, s.put(t.out.cell, t.parcel.value, deps, t.parcel.home), deps)
    }
}

/// Preparing to record a launch: the outside events and the slots of the memory
/// from index `i` on, and the sync points that it waits on besides `waits`.
pub open spec fn launch_built(taken: Seq<TakenView>, i: nat, s: Walk, waits: Seq<u64>) -> (Walk, Seq<u64>)
    decreases taken.len() - i,
{
    if i >= taken.len() {
        (s, waits)
    } else {
        let t = taken[i as int];
        let pipe = pipe_of(s.w, t.input);
        launch_built(
            taken,
            i + 1,
            leaf_built(s, t.parcel.deps, slot_of(t.input), pipe, t.out.cell),
            with_ids(waits, s.sp_of(pipe)),
        )
    }
}

/// The run once the outputs from index `i` on are behind a sync point.
pub open spec fn launch_points(taken: Seq<TakenView>, i: nat, s: Walk, sp: u64) -> Walk
    decreases taken.len() - i,
{
    if i >= taken.len() {
        s
    } else {
        launch_points(taken, i + 1, s.with_sp(taken[i as int].out.cell, seq![sp]), sp)
    }
}

/// The launch as a recorded command.
pub open spec fn recorded_launch(kernel: u64, g: Grid) -> Recorded {
    Recorded::Kernel {
        kernel,
        dims: g.global.len() as u8,
        global: sizes(g.global),
        with_local: g.local is Some,
        local: match g.local {
            Some(l) => sizes(l),
            None => sizes(Seq::empty()),
        },
    }
}

/// A launch that goes to the queue: the arguments are set, the kernel waits on the
/// events of its memory, and a blocking run waits for it.
pub open spec fn launch_sent(
    kernel: u64,
    g: Grid,
    d: Prepared,
    s: Walk,
    post: Walk,
    mode: ExecMode,
    res: OpResult<()>,
) -> bool {
    exists|m: Walk, r: OpResult<()>|
        #[trigger] args_set(m, r) && sets_from(kernel, d.values, 0, s, m, r) && match r {
            Err(e) => post == m && res == Err::<(), Error>(e),
            Ok(_) => exists|t: Walk, j: OpResult<u64>|
                #[trigger] passes(t, j) && launches(run_command(kernel, g), taken_deps(d.taken, 0), m, t, j)
                    && match j {
                    Err(e) => post == t && res == Err::<(), Error>(e),
                    Ok(ev) => launch_ends(d, ev, t, post, mode, res),
                },
        }
}

/// The shared memory that a launch uses, from index `i` on.
pub open spec fn taken_svm(taken: Seq<TakenView>, i: nat) -> Seq<u64>
    decreases taken.len() - i,
{
    if i >= taken.len() {
        Seq::empty()
    } else {
        match taken[i as int].parcel.value[0].mem_spec() {
            MemRef::Svm(ptr) => seq![ptr] + taken_svm(taken, i + 1),
            MemRef::Buffer(_) => taken_svm(taken, i + 1),
        }
    }
}

/// The end of a launch whose event is `ev`: its uses of shared memory are noted, and
/// the memory is handed on.
pub open spec fn launch_ends(d: Prepared, ev: u64, s: Walk, post: Walk, mode: ExecMode, res: OpResult<()>) -> bool {
    let t = s.at(s.w.using(buffer_uses(taken_svm(d.taken, 0), ev)));
    if mode == ExecMode::Blocking {
        exists|q: Reply|
            {
                let u = #[trigger] t.issued(Command::Wait { event: ev }, Seq::empty(), q);
                match q {
                    Err(c) => post == u && res == Err::<(), Error>(Error::OpenCl(c)),
                    Ok(_) => post == handed_on(d.taken, 0, u, Seq::empty()) && res == Ok::<(), Error>(()),
                }
            }
    } else {
        post == handed_on(d.taken, 0, t, seq![ev]) && res == Ok::<(), Error>(())
    }
}

/// The run once the command buffer is known to use the shared memory of a launch.
pub open spec fn sharing(s: Walk, taken: Seq<TakenView>) -> Walk {
    s.in_mode(s.cb.with_svm(taken_svm(taken, 0)))
}

/// A launch inside a command buffer that is built: the arguments are set, and the
/// kernel is recorded behind the sync points of its memory. The command buffer
/// captures the slots of the memory, the numbers and the grid.
pub open spec fn launch_recorded(
    kernel: u64,
    g: Grid,
    d: Prepared,
    cells: Seq<u64>,
    s: Walk,
    post: Walk,
    res: OpResult<()>,
) -> bool {
    let (b, waits) = launch_built(d.taken, 0, sharing(s, d.taken).noting(cells), Seq::empty());
    exists|m: Walk, r: OpResult<()>|
        #[trigger] args_set(m, r) && sets_from(kernel, d.values, 0, b, m, r) && match r {
            Err(e) => post == m && res == Err::<(), Error>(e),
            Ok(_) => exists|q: Reply|
                {
                    let t = #[trigger] m.recording(recorded_launch(kernel, g), waits, q);
                    let u = match q {
                        Ok(sp) => launch_points(d.taken, 0, t, sp),
                        Err(_) => t,
                    };
                    post == handed_on(d.taken, 0, u, Seq::empty()) && res == Ok::<(), Error>(())
                },
        }
}

/// The scalar slots that a launch reads.
pub open spec fn launch_cells(grid: ScalarInput<LaunchSpec>, cells: Seq<u64>) -> Seq<u64> {
    match grid {
        ScalarInput::Slot { cell, .. } => with_id(cells, cell),
        ScalarInput::Concrete(_) => cells,
    }
}

/// One run of a launch.
pub open spec fn launch_runs(
    kernel: u64,
    grid: ScalarInput<LaunchSpec>,
    args: Seq<LaunchArg>,
    pre: Walk,
    post: Walk,
    mode: ExecMode,
    res: OpResult<()>,
) -> bool {
    match grid.reading(pre.w) {
        Err(e) => post == pre && res == Err::<(), Error>(e),
        Ok(g) => {
            let (d, r) = prepared(
                args,
                0,
                Prepared { w: pre.w, values: Seq::empty(), taken: Seq::empty(), cells: Seq::empty() },
                pre.start,
            );
            let s = pre.at(d.w);
            match r {
                Err(e) => post == s && res == Err::<(), Error>(e),
                Ok(_) => match pre.cb {
                    WalkMode::Off => launch_sent(kernel, g@, d, s, post, mode, res),
                    WalkMode::Build { .. } => launch_recorded(
                        kernel,
                        g@,
                        d,
                        launch_cells(grid, d.cells),
                        s,
                        post,
                        res,
                    ),
                    WalkMode::LendOnly { .. } => post == handed_on(
                        d.taken,
                        0,
                        sharing(s, d.taken).external(taken_deps(d.taken, 0)),
                        Seq::empty(),
                    ) && res == Ok::<(), Error>(()),
                },
            }
        },
    }
}

/// Views of what was taken.
pub open spec fn taken_views(taken: Seq<Taken>) -> Seq<TakenView> {
    taken.map_values(|t: Taken| t@)
}

fn prepare<D: Driver>(
    args: &Vec<LaunchArg>,
    ec: &mut ExecutionContext<D>,
    values: &mut Vec<ArgValue>,
    taken: &mut Vec<Taken>,
    cells: &mut IdSet,
) -> (r: OpResult<()>)
    requires
        old(values)@.len() == 0,
        old(taken)@.len() == 0,
        old(cells)@.len() == 0,
    ensures
        ({
            let d = Prepared {
                w: old(ec)@.w,
                values: Seq::empty(),
                taken: Seq::empty(),
                cells: Seq::empty(),
            };
            let (e, x) = prepared(args@, 0, d, old(ec)@.start);
            &&& x == r
            &&& final(ec)@ == old(ec)@.at(e.w)
            &&& r is Ok ==> final(values)@ == e.values && taken_views(final(taken)@) == e.taken && final(cells)@
                == e.cells
        }),
        forall|k: int| 0 <= k < final(taken)@.len() ==> (#[trigger] final(taken)@[k]).parcel.value@.len() == 1,
        kept(old(ec)@, final(ec)@),
{
    let ghost pre = ec@;
    let ghost d0 = Prepared { w: pre.w, values: Seq::empty(), taken: Seq::empty(), cells: Seq::empty() };
    let ghost whole = prepared(args@, 0, d0, pre.start);
    assert(taken_views(taken@) =~= Seq::empty());
    assert(values@ =~= Seq::empty());
    assert(cells@ =~= Seq::empty());
    assert(ec@ == pre.at(pre.w));
    let mut i: usize = 0;
    while i < args.len()
        invariant
            i <= args.len(),
            pre == old(ec)@,
            d0 == (Prepared { w: pre.w, values: Seq::empty(), taken: Seq::empty(), cells: Seq::empty() }),
            whole == prepared(args@, 0, d0, pre.start),
            ec@ == pre.at(ec@.w),
            kept(pre, ec@),
            forall|k: int| 0 <= k < taken@.len() ==> (#[trigger] taken@[k]).parcel.value@.len() == 1,
            whole == prepared(
                args@,
                i as nat,
                (Prepared { w: ec@.w, values: values@, taken: taken_views(taken@), cells: cells@ }),
                pre.start,
            ),
        decreases args.len() - i,
    {
        match args[i] {
            LaunchArg::Local(bytes) => {
                values.push(ArgValue::Local(bytes));
            },
            LaunchArg::Number(n) => {
                let a: AnyValue = match n.read(ec.store()) {
                    Ok(a) => a,
                    Err(e) => {
                        return Err(e);
                    },
                };
                match number_arg(&a) {
                    None => {
                        return Err(Error::InvalidArgument("a kernel argument is no number"));
                    },
                    Some(v) => {
                        values.push(v);
                    },
                }
                if let NumberArg::Slot { cell, .. } = n {
                    cells.insert(cell);
                }
            },
            LaunchArg::Memory { input, out } => {
                let p: Parcel = match ec.resolve_home(&input) {
                    Ok(p) => p,
                    Err(e) => {
                        return Err(e);
                    },
                };
                if p.value.len() != 1 {
                    return Err(Error::InvalidArgument("an op over one buffer was given a group of values"));
                }
                push_memory(values, &p.value[0]);
                let t = Taken { parcel: p, input, out };
                let ghost before = taken@;
                taken.push(t);
                assert(taken_views(taken@) =~= taken_views(before).push(t@));
            },
        }
        i = i + 1;
    }
    Ok(())
}

fn deps_of(taken: &Vec<Taken>) -> (r: Vec<u64>)
    ensures
        r@ == taken_deps(taken_views(taken@), 0),
{
    let ghost views = taken_views(taken@);
    let mut v: Vec<u64> = Vec::new();
    let mut i: usize = 0;
    while i < taken.len()
        invariant
            i <= taken.len(),
            views == taken_views(taken@),
            v@ + taken_deps(views, i as nat) =~= taken_deps(views, 0),
        decreases taken.len() - i,
    {
        assert(views[i as int] == taken@[i as int]@);
        extend_ids(&mut v, &taken[i].parcel.deps);
        i = i + 1;
    }
    assert(v@ =~= taken_deps(views, 0));
    v
}

fn svm_of(taken: &Vec<Taken>) -> (r: Vec<u64>)
    requires
        forall|k: int| 0 <= k < taken@.len() ==> (#[trigger] taken@[k]).parcel.value@.len() == 1,
    ensures
        r@ == taken_svm(taken_views(taken@), 0),
{
    let ghost views = taken_views(taken@);
    let mut v: Vec<u64> = Vec::new();
    let mut i: usize = 0;
    while i < taken.len()
        invariant
            i <= taken.len(),
            views == taken_views(taken@),
            forall|k: int| 0 <= k < taken@.len() ==> (#[trigger] taken@[k]).parcel.value@.len() == 1,
            v@ + taken_svm(views, i as nat) =~= taken_svm(views, 0),
        decreases taken.len() - i,
    {
        assert(views[i as int] == taken@[i as int]@);
        assert(taken@[i as int].parcel.value@.len() == 1);
        if let MemRef::Svm(ptr) = taken[i].parcel.value[0].mem() {
            v.push(ptr);
        }
        i = i + 1;
    }
    assert(v@ =~= taken_svm(views, 0));
    v
}

fn hand_on<D: Driver>(ec: &mut ExecutionContext<D>, taken: &Vec<Taken>, deps: &Vec<u64>)
    ensures
        final(ec)@ == handed_on(taken_views(taken@), 0, old(ec)@, deps@),
        kept(old(ec)@, final(ec)@),
{
    let ghost views = taken_views(taken@);
    let ghost pre = ec@;
    let mut i: usize = 0;
    while i < taken.len()
        invariant
            i <= taken.len(),
            views == taken_views(taken@),
            kept(pre, ec@),
            handed_on(views, i as nat, ec@, deps@) == handed_on(views, 0, pre, deps@),
        decreases taken.len() - i,
    {
        assert(views[i as int] == taken@[i as int]@);
        let t = &taken[i];
        ec.put_home(&t.out, crate::entries::copy_objs(&t.parcel.value), crate::ids::copy_ids(deps), t.parcel.home);
        i = i + 1;
    }
}

fn build_launch<D: Driver>(ec: &mut ExecutionContext<D>, taken: &Vec<Taken>) -> (r: IdSet)
    ensures
        launch_built(taken_views(taken@), 0, old(ec)@, Seq::empty()) == (final(ec)@, r@),
        kept(old(ec)@, final(ec)@),
{
    let ghost views = taken_views(taken@);
    let ghost pre = ec@;
    let mut waits = IdSet::new();
    assert(waits@ =~= Seq::empty());
    let mut i: usize = 0;
    while i < taken.len()
        invariant
            i <= taken.len(),
            views == taken_views(taken@),
            kept(pre, ec@),
            launch_built(views, i as nat, ec@, waits@) == launch_built(views, 0, pre, Seq::empty()),
        decreases taken.len() - i,
    {
        assert(views[i as int] == taken@[i as int]@);
        let t = &taken[i];
        let pipe: Option<u64> = t.input.pipe_cell_id(ec.store());
        let ghost before = ec@;
        let more: IdSet = cb_leaf_build(ec, &t.parcel.deps, t.input.slot_cell_id(), pipe, t.out.cell);
        waits.insert_all(&more);
        assert(kept(before, ec@));
        i = i + 1;
    }
    waits
}

fn point_outputs<D: Driver>(ec: &mut ExecutionContext<D>, taken: &Vec<Taken>, sp: u64)
    ensures
        final(ec)@ == launch_points(taken_views(taken@), 0, old(ec)@, sp),
        kept(old(ec)@, final(ec)@),
{
    let ghost views = taken_views(taken@);
    let ghost pre = ec@;
    let mut i: usize = 0;
    while i < taken.len()
        invariant
            i <= taken.len(),
            views == taken_views(taken@),
            kept(pre, ec@),
            launch_points(views, i as nat, ec@, sp) == launch_points(views, 0, pre, sp),
        decreases taken.len() - i,
    {
        assert(views[i as int] == taken@[i as int]@);
        ec.sp_register(taken[i].out.cell, IdSet::single(sp));
        i = i + 1;
    }
}

fn send_launch<D: Driver>(
    ec: &mut ExecutionContext<D>,
    kernel: u64,
    grid: &LaunchSpec,
    values: &Vec<ArgValue>,
    taken: &Vec<Taken>,
    mode: ExecMode,
    Ghost(d): Ghost<Prepared>,
) -> (r: OpResult<()>)
    requires
        d.values == values@,
        d.taken == taken_views(taken@),
        forall|k: int| 0 <= k < taken@.len() ==> (#[trigger] taken@[k]).parcel.value@.len() == 1,
    ensures
        launch_sent(kernel, grid@, d, old(ec)@, final(ec)@, mode, r),
        kept(old(ec)@, final(ec)@),
{
    let r: OpResult<()> = set_from(ec, kernel, values, 0);
    let ghost m = ec@;
    assert(args_set(m, r));
    if let Err(e) = r {
        return Err(e);
    }
    let deps: Vec<u64> = deps_of(taken);
    let command = command_of(kernel, grid);
    let j: OpResult<u64> = launch(ec, command, &deps);
    let ghost t = ec@;
    assert(passes(t, j));
    let ev: u64 = match j {
        Ok(ev) => ev,
        Err(e) => {
            return Err(e);
        },
    };
    ec.note_uses(&uses_at(&svm_of(taken), ev));
    let ghost noted = ec@;
    if matches!(mode, ExecMode::Blocking) {
        let q: Reply = ec.issue(Command::Wait { event: ev }, &no_deps());
        let ghost u = ec@;
        assert(u == noted.issued(Command::Wait { event: ev }, Seq::empty(), q));
        match q {
            Err(c) => {
                let out: OpResult<()> = Err(Error::OpenCl(c));
                assert(launch_ends(d, ev, t, ec@, mode, out));
                out
            },
            Ok(_) => {
                hand_on(ec, taken, &no_deps());
                let out: OpResult<()> = Ok(());
                assert(launch_ends(d, ev, t, ec@, mode, out));
                out
            },
        }
    } else {
        hand_on(ec, taken, &single_dep(ev));
        let out: OpResult<()> = Ok(());
        assert(launch_ends(d, ev, t, ec@, mode, out));
        out
    }
}

fn command_of(kernel: u64, grid: &LaunchSpec) -> (r: Command)
    ensures
        r == run_command(kernel, grid@),
{
    let dims: u8 = grid.dims();
    let global = sizes_of(grid.global());
    let (with_local, local) = match grid.local() {
        Some(l) => (true, sizes_of(l)),
        None => (false, Extent { x: 0, y: 0, z: 0 }),
    };
    Command::RunKernel { kernel, dims, global, with_local, local }
}

fn record_of(kernel: u64, grid: &LaunchSpec) -> (r: Recorded)
    ensures
        r == recorded_launch(kernel, grid@),
{
    let dims: u8 = grid.dims();
    let global = sizes_of(grid.global());
    let (with_local, local) = match grid.local() {
        Some(l) => (true, sizes_of(l)),
        None => (false, Extent { x: 0, y: 0, z: 0 }),
    };
    Recorded::Kernel { kernel, dims, global, with_local, local }
}

fn record_launch<D: Driver>(
    ec: &mut ExecutionContext<D>,
    kernel: u64,
    grid: &LaunchSpec,
    values: &Vec<ArgValue>,
    taken: &Vec<Taken>,
    cells: &IdSet,
    Ghost(d): Ghost<Prepared>,
) -> (r: OpResult<()>)
    requires
        old(ec)@.cb is Build,
        d.values == values@,
        d.taken == taken_views(taken@),
        forall|k: int| 0 <= k < taken@.len() ==> (#[trigger] taken@[k]).parcel.value@.len() == 1,
    ensures
        launch_recorded(kernel, grid@, d, cells@, old(ec)@, final(ec)@, r),
        kept(old(ec)@, final(ec)@),
{
    let ghost pre = ec@;
    ec.collect_svm(&svm_of(taken));
    ec.note_slots(cells);
    let waits: IdSet = build_launch(ec, taken);
    let ghost b = ec@;
    assert(kept(pre, b));
    let r: OpResult<()> = set_from(ec, kernel, values, 0);
    let ghost m = ec@;
    assert(args_set(m, r));
    if let Err(e) = r {
        return Err(e);
    }
    let what = record_of(kernel, grid);
    let sp: Option<u64> = ec.record(what, &waits);
    let ghost q = choose|reply: Reply|
        {
            &&& ec@ == #[trigger] m.recording(what, waits@, reply)
            &&& sp == (match reply {
                Ok(sp) => Some(sp),
                Err(_) => None::<u64>,
            })
        };
    let ghost t = m.recording(what, waits@, q);
    assert(kept(m, t));
    if let Some(sp) = sp {
        point_outputs(ec, taken, sp);
    }
    hand_on(ec, taken, &no_deps());
    Ok(())
}

impl Launch {
    /// The inputs that a bind is offered to, in order: the arguments', then the
    /// grid's.
    pub open spec fn sites(&self) -> Seq<Input> {
        match self.grid.site_spec() {
            Some(s) => arg_sites(self.args@, 0).push(s),
            None => arg_sites(self.args@, 0),
        }
    }

    /// The inputs that a bind is offered to, in order.
    pub fn slot_sites(&self) -> (r: Vec<Input>)
        ensures
            r@ == self.sites(),
    {
        let mut v: Vec<Input> = Vec::new();
        let mut i: usize = 0;
        while i < self.args.len()
            invariant
                i <= self.args.len(),
                v@ + arg_sites(self.args@, i as nat) =~= arg_sites(self.args@, 0),
            decreases self.args.len() - i,
        {
            match self.args[i] {
                LaunchArg::Memory { input, .. } => {
                    v.push(input);
                },
                LaunchArg::Number(n) => {
                    if let Some(s) = n.site() {
                        v.push(s);
                    }
                },
                LaunchArg::Local(_) => {},
            }
            i = i + 1;
        }
        assert(v@ =~= arg_sites(self.args@, 0));
        if let Some(s) = self.grid.site() {
            v.push(s);
        }
        v
    }
}

impl LeafNode for Launch {
    open spec fn outs(&self) -> Seq<Pipe> {
        arg_outs(self.args@, 0)
    }

    open spec fn label(&self) -> Seq<char> {
        "launch"@
    }

    open spec fn ready(&self, w: World) -> OpResult<()> {
        all_ready(self.sites(), 0, w)
    }

    open spec fn runs(&self, pre: Walk, post: Walk, mode: ExecMode, res: OpResult<()>) -> bool {
        launch_runs(self.kernel, self.grid, self.args@, pre, post, mode, res)
    }

    fn pipes(&self) -> (r: Vec<Pipe>) {
        let mut v: Vec<Pipe> = Vec::new();
        let mut i: usize = 0;
        while i < self.args.len()
            invariant
                i <= self.args.len(),
                v@ + arg_outs(self.args@, i as nat) =~= arg_outs(self.args@, 0),
            decreases self.args.len() - i,
        {
            if let LaunchArg::Memory { out, .. } = self.args[i] {
                v.push(out);
            }
            i = i + 1;
        }
        assert(v@ =~= arg_outs(self.args@, 0));
        v
    }

    fn describe(&self) -> (r: String) {
        text_of("launch")
    }

    fn check_ready(&self, st: &Store) -> (r: OpResult<()>) {
        let sites: Vec<Input> = self.slot_sites();
        let mut i: usize = 0;
        while i < sites.len()
            invariant
                i <= sites.len(),
                sites@ == self.sites(),
                all_ready(sites@, i as nat, st@) == all_ready(sites@, 0, st@),
            decreases sites.len() - i,
        {
            if let Err(e) = sites[i].check_ready(st) {
                return Err(e);
            }
            i = i + 1;
        }
        Ok(())
    }

    fn execute<D: Driver>(&self, ec: &mut ExecutionContext<D>, mode: ExecMode) -> (r: OpResult<()>) {
        let ghost pre = ec@;
        let grid: LaunchSpec = match self.grid.read(ec.store()) {
            Ok(g) => g,
            Err(e) => {
                return Err(e);
            },
        };
        let mut values: Vec<ArgValue> = Vec::new();
        let mut taken: Vec<Taken> = Vec::new();
        let mut cells = IdSet::new();
        let r: OpResult<()> = prepare(&self.args, ec, &mut values, &mut taken, &mut cells);
        let ghost d = prepared(
            self.args@,
            0,
            Prepared { w: pre.w, values: Seq::empty(), taken: Seq::empty(), cells: Seq::empty() },
            pre.start,
        ).0;
        if let Err(e) = r {
            return Err(e);
        }
        match walk_kind(ec) {
            WalkKind::Off => send_launch(ec, self.kernel, &grid, &values, &taken, mode, Ghost(d)),
            WalkKind::Build => {
                if let ScalarInput::Slot { cell, .. } = self.grid {
                    cells.insert(cell);
                }
                record_launch(ec, self.kernel, &grid, &values, &taken, &cells, Ghost(d))
            },
            WalkKind::LendOnly => {
                ec.collect_svm(&svm_of(&taken));
                let deps: Vec<u64> = deps_of(&taken);
                ec.collect_external(&deps);
                hand_on(ec, &taken, &no_deps());
                Ok(())
            },
        }
    }
}

} // verus!
