//! What holds of the inputs of ops: what a run finds there, what taking it leaves, when it
//! is ready, and which inputs and outputs each op has.

use crate::error::{Error, OpResult};
use crate::exec_ctx::{ExecMode, Walk};
use crate::input::{
    after_taking, copy_home, found, pipe_of, readiness, site_cell, site_key, slot_of, Checkout, Input, ToInput,
};
use crate::launch::LaunchSpec;
use crate::launch_op::{all_ready, arg_outs, arg_sites, Launch, LaunchArg, NumberArg};
use crate::leaf_op::LeafOp;
use crate::leaves::LeafNode;
use crate::obj::{Class, Home, Obj};
use crate::slots::{kind_of, ScalarInput, SlotState, SlotValue, ValueKind};
use crate::store::{ParcelView, Pipe, World};
use crate::text::decimal;
use vstd::prelude::*;

verus! {

/// Whether a parcel holds one object, is owed to a home, and waits on the start barrier
/// alone, where there is one.
pub open spec fn enters(p: ParcelView, o: Obj, home: Home, barrier: Option<u64>) -> bool {
    &&& p.value == seq![o]
    &&& p.home == Some(home)
    &&& barrier matches Some(ev) ==> p.deps == seq![ev]
    &&& barrier is None ==> p.deps.len() == 0
}

/// What a run finds at an input: an object of the op's own, or the value of a bound slot,
/// waiting on the start barrier and owed back; what lies on a pipe, as it lies there; and
/// an error where there is nothing.
pub proof fn law_run_finds_what_is_held(w: World, barrier: Option<u64>, input: Input)
    ensures
        match input {
            Input::Concrete(c) => match w.held(c) {
                Some(o) => found(w, barrier, input) matches Ok(p) && enters(p, o, Home::Cell(c), barrier),
                None => found(w, barrier, input) matches Err(e) && e is NotSupported,
            },
            Input::Pipe(x) => match w.parcel(x.cell) {
                Some(p) => found(w, barrier, input) == Ok::<ParcelView, Error>(p),
                None => found(w, barrier, input) matches Err(e) && e is NotSupported,
            },
            Input::Slot { name, cell, .. } => match w.slot(cell) {
                SlotState::Bound(o) => found(w, barrier, input) matches Ok(p) && enters(p, o, Home::Slot(cell), barrier),
                SlotState::FedByPipe(x) => match w.parcel(x.cell) {
                    Some(p) => found(w, barrier, input) == Ok::<ParcelView, Error>(p),
                    None => found(w, barrier, input) matches Err(e) && e is NotSupported,
                },
                SlotState::Unbound | SlotState::Lent | SlotState::Severed => found(w, barrier, input) == Err::<
                    ParcelView,
                    Error,
                >(Error::SlotUnbound(name)),
            },
            Input::Scalar { .. } => found(w, barrier, input) matches Err(e) && e is InvalidArgument,
        },
{
}

/// Taking a value leaves its input without it, and every other cell, slot and pipe as it
/// was. Where there is nothing to take, nothing changes.
pub proof fn law_taking_leaves_all_else(w: World, input: Input, c: u64)
    ensures
        ({
            let v = after_taking(w, input);
            &&& v == (World { cells: v.cells, slots: v.slots, pipes: v.pipes, ..w })
            &&& found(w, None, input) is Err ==> v == w
            &&& found(w, None, input) is Ok ==> match input {
                Input::Concrete(d) => {
                    &&& v.held(d) is None
                    &&& c != d ==> v.held(c) == w.held(c)
                    &&& v.slots == w.slots
                    &&& v.pipes == w.pipes
                },
                Input::Pipe(x) => {
                    &&& v.parcel(x.cell) is None
                    &&& c != x.cell ==> v.parcel(c) == w.parcel(c)
                    &&& v.cells == w.cells
                    &&& v.slots == w.slots
                },
                Input::Slot { cell, .. } => {
                    &&& v.cells == w.cells
                    &&& w.slot(cell) is Bound ==> v.slot(cell) is Lent && v.pipes == w.pipes && (c != cell ==> v.slot(c)
                        == w.slot(c))
                    &&& w.slot(cell) matches SlotState::FedByPipe(x) ==> v.parcel(x.cell) is None && v.slots == w.slots && (
                    c != x.cell ==> v.parcel(c) == w.parcel(c))
                },
                Input::Scalar { .. } => false,
            }
        }),
{
}

/// An input is ready if a run will find a value there: an object that is not lent, a slot
/// that is bound or fed, a scalar slot that holds a value of its type. A pipe is filled
/// during the run. A slot whose graph has a recorded error is not ready.
pub proof fn law_ready_means_a_value_is_there(w: World, input: Input)
    ensures
        match input {
            Input::Concrete(c) => readiness(w, input) is Ok <==> w.held(c) is Some,
            Input::Pipe(_) => readiness(w, input) is Ok,
            Input::Slot { name, cell, sink, .. } => {
                &&& readiness(w, input) is Ok <==> (w.slot(cell) is Bound || w.slot(cell) is FedByPipe) && w.sink(
                    sink,
                ).len() == 0
                &&& !(w.slot(cell) is Bound || w.slot(cell) is FedByPipe) ==> readiness(w, input) == Err::<(), Error>(
                    Error::SlotUnbound(name),
                )
            },
            Input::Scalar { name, cell, sink, kind, .. } => {
                let fits = w.scalar(cell) matches Some(a) && kind_of(a) == kind;
                &&& readiness(w, input) is Ok <==> fits && w.sink(sink).len() == 0
                &&& !fits ==> readiness(w, input) == Err::<(), Error>(Error::SlotUnbound(name))
            },
        },
{
}

/// Where a value that was copied goes back to: to its home, but unwritten memory is
/// written by the copy, so it goes back as unwritten memory, and only to the op's own cell.
pub proof fn law_copied_value_goes_back_as_it_came(input: Input, o: Obj, deps: Seq<u64>, home: Option<Home>)
    ensures
        ({
            let p = ParcelView { value: seq![o], deps, home };
            let unwritten = o.class == Class::DeviceUninit || o.class == Class::MappedUninit || o.class == Class::UsmUninit;
            &&& !unwritten ==> copy_home(input, p) == home
            &&& unwritten && input is Concrete && home is Some && home->Some_0 is Cell ==> copy_home(input, p) == Some(
                Home::Downgrade(home->Some_0->Cell_0),
            )
            &&& unwritten && !(input is Concrete) ==> copy_home(input, p) is None
        }),
{
}

/// What an input is known by: a slot by its cell and key, a pipe by its cell. A slot that
/// is fed is known by the pipe that feeds it too.
pub proof fn law_inputs_are_known_by_their_cells(w: World, input: Input)
    ensures
        match input {
            Input::Concrete(_) => slot_of(input) is None && pipe_of(w, input) is None && site_cell(input) is None
                && site_key(input) is None,
            Input::Pipe(p) => slot_of(input) is None && pipe_of(w, input) == Some(p.cell) && site_cell(input) is None
                && site_key(input) is None,
            Input::Slot { key, cell, .. } => {
                &&& slot_of(input) == Some(cell)
                &&& site_cell(input) == Some(cell)
                &&& site_key(input) == Some(key)
                &&& w.slot(cell) matches SlotState::FedByPipe(p) ==> pipe_of(w, input) == Some(p.cell)
                &&& !(w.slot(cell) is FedByPipe) ==> pipe_of(w, input) is None
            },
            Input::Scalar { key, cell, .. } => slot_of(input) is None && pipe_of(w, input) is None && site_cell(input)
                == Some(cell) && site_key(input) == Some(key),
        },
{
}

/// A value that is given to an op is what its run finds: an object in a cell of its own, a
/// checkout with its home and without events, a pipe as it is.
pub proof fn law_given_values_are_found(w: World, o: Obj, c: Checkout, p: Pipe, barrier: Option<u64>)
    requires
        w.next < u64::MAX,
    ensures
        ({
            let (i, v) = o.input_spec(w);
            &&& found(v, barrier, i) matches Ok(x) && x.value == seq![o]
            &&& v.pipes.submap_of(w.pipes)
        }),
        ({
            let (i, v) = c.input_spec(w);
            found(v, barrier, i) == Ok::<ParcelView, Error>(
                ParcelView { value: c.value@, deps: Seq::empty(), home: c.home },
            )
        }),
        p.input_spec(w) == (Input::Pipe(p), w),
{
}

/// The inputs that an op other than a launch takes its memory from, in order.
pub open spec fn inputs_of(l: LeafOp) -> Seq<Input> {
    match l {
        LeafOp::Fill(x) => seq![x.buf],
        LeafOp::FillDeviceUninit(x) => seq![x.uninit],
        LeafOp::FillMappedUninit(x) => seq![x.uninit],
        LeafOp::FillUsmUninit(x) => seq![x.uninit],
        LeafOp::FillMapped(x) => seq![x.buf],
        LeafOp::WriteDeviceUninit(x) => seq![x.uninit],
        LeafOp::WriteDevice(x) => seq![x.buf],
        LeafOp::WriteMappedUninit(x) => seq![x.uninit],
        LeafOp::WriteMapped(x) => seq![x.buf],
        LeafOp::WriteUsmUninit(x) => seq![x.uninit],
        LeafOp::ReadInto(x) => seq![x.buf],
        LeafOp::AcquireDeviceView(x) => seq![x.buf],
        LeafOp::AcquireDeviceViewRead(x) => seq![x.buf],
        LeafOp::ReleaseDeviceView(x) => seq![x.view],
        LeafOp::AcquireMappedView(x) => seq![x.buf],
        LeafOp::AcquireMappedViewRead(x) => seq![x.buf],
        LeafOp::ReleaseMappedView(x) => seq![x.view],
        LeafOp::Download(x) => seq![x.buf],
        LeafOp::TransferToDevice(x) => seq![x.buf],
        LeafOp::CopyTo2(x) => seq![x.src, x.dst],
        LeafOp::Lift(x) => seq![x.input],
        LeafOp::Forward(x) => seq![x.input],
        LeafOp::ImageWrite(x) => seq![x.img],
        LeafOp::ImageRead(x) => seq![x.img],
        LeafOp::ImageFill(x) => seq![x.img],
        LeafOp::ImageCopy(x) => seq![x.src, x.dst],
        LeafOp::ImageDownloadEager(x) => seq![x.img],
        _ => Seq::empty(),
    }
}

/// An op other than a launch is ready if and only if every input that it takes memory from
/// is; an op without inputs always is.
pub proof fn law_op_is_ready_when_its_inputs_are(l: LeafOp, w: World)
    requires
        !(l is Launch),
    ensures
        l.ready(w) is Ok <==> forall|k: int| 0 <= k < inputs_of(l).len() ==> readiness(w, #[trigger] inputs_of(l)[k]) is Ok,
        inputs_of(l).len() == 0 ==> l.ready(w) is Ok,
        inputs_of(l).len() == 1 ==> l.ready(w) == readiness(w, inputs_of(l)[0]),
{
    let inputs = inputs_of(l);
    if inputs.len() == 1 {
        assert(l.ready(w) == readiness(w, inputs[0]));
    } else if inputs.len() == 2 {
        assert(readiness(w, inputs[0]) is Ok && readiness(w, inputs[1]) is Ok <==> l.ready(w) is Ok);
    }
}

/// A bind is offered to every input of an op that can be a slot: all but those of unwritten
/// memory, and that of a value that is only passed on.
pub proof fn law_binds_reach_every_input(l: LeafOp)
    requires
        !(l is Launch),
    ensures
        l is FillDeviceUninit || l is FillMappedUninit || l is FillUsmUninit || l is WriteDeviceUninit || l is WriteMappedUninit
            || l is WriteUsmUninit || l is Forward ==> l.slots().len() == 0,
        !(l is FillDeviceUninit || l is FillMappedUninit || l is FillUsmUninit || l is WriteDeviceUninit
            || l is WriteMappedUninit || l is WriteUsmUninit || l is Forward) ==> l.slots() == inputs_of(l),
{
}

/// The ops that can be recorded are the fills by the device, the copies and the launches,
/// each as one command and each with a place for a command buffer; a value that is passed on
/// can be part of a command buffer and records nothing. No other op can.
pub proof fn law_which_ops_can_be_recorded(l: LeafOp)
    ensures
        ({
            let records = l is Fill || l is FillDeviceUninit || l is FillMappedUninit || l is FillMapped || l is CopyTo2
                || l is ImageFill || l is ImageCopy || l is Launch;
            &&& records <==> l.cache() is Some
            &&& l.weight() == (if records {
                1nat
            } else {
                0nat
            })
            &&& l.addable() <==> records || l is Lift || l is Forward
        }),
{
}

/// The pipes that an op other than a launch hands its outputs on along: a copy hands on its
/// source, then its destination, and any other op its one value.
pub open spec fn outputs_of(l: LeafOp) -> Seq<Pipe> {
    match l {
        LeafOp::Fill(x) => seq![x.out],
        LeafOp::FillDeviceUninit(x) => seq![x.out],
        LeafOp::FillMappedUninit(x) => seq![x.out],
        LeafOp::FillUsmUninit(x) => seq![x.out],
        LeafOp::FillMapped(x) => seq![x.out],
        LeafOp::WriteDeviceUninit(x) => seq![x.out],
        LeafOp::WriteDevice(x) => seq![x.out],
        LeafOp::WriteMappedUninit(x) => seq![x.out],
        LeafOp::WriteMapped(x) => seq![x.out],
        LeafOp::WriteUsmUninit(x) => seq![x.out],
        LeafOp::ReadInto(x) => seq![x.out],
        LeafOp::AcquireDeviceView(x) => seq![x.out],
        LeafOp::AcquireDeviceViewRead(x) => seq![x.out],
        LeafOp::ReleaseDeviceView(x) => seq![x.out],
        LeafOp::AcquireMappedView(x) => seq![x.out],
        LeafOp::AcquireMappedViewRead(x) => seq![x.out],
        LeafOp::ReleaseMappedView(x) => seq![x.out],
        LeafOp::Download(x) => seq![x.out],
        LeafOp::TransferToDevice(x) => seq![x.out],
        LeafOp::Upload(x) => seq![x.seed.out],
        LeafOp::ScalarUpload(x) => seq![x.seed.out],
        LeafOp::ScalarZero(x) => seq![x.inner.seed.out],
        LeafOp::UsmSlice(x) => seq![x.seed.out],
        LeafOp::AllocZero(x) => seq![x.out],
        LeafOp::DeviceAllocUninit(x) => seq![x.out],
        LeafOp::MappedAllocUninit(x) => seq![x.out],
        LeafOp::UsmAllocUninit(x) => seq![x.out],
        LeafOp::CopyTo2(x) => seq![x.src_pipe, x.dst_pipe],
        LeafOp::Value(x) => seq![x.out],
        LeafOp::Lift(x) => seq![x.out],
        LeafOp::Forward(x) => seq![x.out],
        LeafOp::ImageWrite(x) => seq![x.out],
        LeafOp::ImageRead(x) => seq![x.out],
        LeafOp::ImageFill(x) => seq![x.out],
        LeafOp::ImageCopy(x) => seq![x.src_pipe, x.dst_pipe],
        LeafOp::ImageUploadEager(x) => seq![x.out],
        LeafOp::ImageDownloadEager(x) => seq![x.out],
        LeafOp::Launch(_) => Seq::empty(),
    }
}

/// Every op fills the pipes of its outputs, in order.
pub proof fn law_outputs_stand_in_order(l: LeafOp)
    requires
        !(l is Launch),
    ensures
        l.outs() == outputs_of(l),
{
}

/// Every op is named for what it does.
pub proof fn law_ops_are_named(l: LeafOp)
    ensures
        match l {
            LeafOp::Fill(_) => l.label() == "fill"@,
            LeafOp::FillDeviceUninit(_) => l.label() == "fill_device_uninit"@,
            LeafOp::FillMappedUninit(_) => l.label() == "fill_mapped_uninit"@,
            LeafOp::FillUsmUninit(_) => l.label() == "fill_usm_uninit"@,
            LeafOp::FillMapped(_) => l.label() == "fill_mapped"@,
            LeafOp::WriteDeviceUninit(_) => l.label() == "write_device_uninit"@,
            LeafOp::WriteDevice(_) => l.label() == "write"@,
            LeafOp::WriteMappedUninit(_) => l.label() == "write_mapped_uninit"@,
            LeafOp::WriteMapped(_) => l.label() == "write_mapped"@,
            LeafOp::WriteUsmUninit(_) => l.label() == "write_usm_uninit"@,
            LeafOp::ReadInto(_) => l.label() == "read_into"@,
            LeafOp::AcquireDeviceView(_) => l.label() == "acquire_device_view"@,
            LeafOp::AcquireDeviceViewRead(_) => l.label() == "acquire_device_view_read"@,
            LeafOp::ReleaseDeviceView(_) => l.label() == "release_device_view"@,
            LeafOp::AcquireMappedView(_) => l.label() == "acquire_mapped_view"@,
            LeafOp::AcquireMappedViewRead(_) => l.label() == "acquire_mapped_view_read"@,
            LeafOp::ReleaseMappedView(_) => l.label() == "release_mapped_view"@,
            LeafOp::Download(_) => l.label() == "download"@,
            LeafOp::TransferToDevice(_) => l.label() == "transfer_to_device"@,
            LeafOp::Upload(_) => l.label() == "upload"@,
            LeafOp::ScalarUpload(_) => l.label() == "scalar_value"@,
            LeafOp::ScalarZero(_) => l.label() == "scalar_zero"@,
            LeafOp::UsmSlice(_) => l.label() == "usm_slice"@,
            LeafOp::AllocZero(x) => l.label() == "alloc_zero(len="@ + decimal(x.len as nat) + ")"@,
            LeafOp::DeviceAllocUninit(x) => l.label() == "device_alloc_uninit(len="@ + decimal(x.len as nat) + ")"@,
            LeafOp::MappedAllocUninit(x) => l.label() == "mapped_alloc_uninit(len="@ + decimal(x.len as nat) + ")"@,
            LeafOp::UsmAllocUninit(x) => l.label() == "usm_alloc_uninit(len="@ + decimal(x.len as nat) + ")"@,
            LeafOp::CopyTo2(_) => l.label() == "copy_to"@,
            LeafOp::Value(_) => l.label() == "value"@,
            LeafOp::Lift(_) => l.label() == "lift"@,
            LeafOp::Forward(_) => l.label() == "forward"@,
            LeafOp::ImageWrite(_) => l.label() == "image_write"@,
            LeafOp::ImageRead(_) => l.label() == "image_read"@,
            LeafOp::ImageFill(_) => l.label() == "image_fill"@,
            LeafOp::ImageCopy(_) => l.label() == "image_copy"@,
            LeafOp::ImageUploadEager(_) => l.label() == "image_upload"@,
            LeafOp::ImageDownloadEager(_) => l.label() == "image_download"@,
            LeafOp::Launch(_) => l.label() == "launch"@,
        },
{
}

/// The memory among the arguments of a launch, in order.
pub open spec fn memory_args(args: Seq<LaunchArg>) -> Seq<LaunchArg> {
    args.filter(|a: LaunchArg| a is Memory)
}

/// Whether an argument is a slot of a bind: memory, or a number that is not given.
pub open spec fn bindable_arg(a: LaunchArg) -> bool {
    match a {
        LaunchArg::Memory { .. } => true,
        LaunchArg::Number(n) => n is Slot,
        LaunchArg::Local(_) => false,
    }
}

proof fn lemma_filter_front(args: Seq<LaunchArg>, i: nat, pred: spec_fn(LaunchArg) -> bool)
    requires
        i < args.len(),
    ensures
        args.skip(i as int).filter(pred) == (if pred(args[i as int]) {
            seq![args[i as int]] + args.skip((i + 1) as int).filter(pred)
        } else {
            args.skip((i + 1) as int).filter(pred)
        }),
{
    let head = seq![args[i as int]];
    let tail = args.skip((i + 1) as int);
    assert(args.skip(i as int) =~= head + tail);
    Seq::filter_distributes_over_add(head, tail, pred);
    reveal_with_fuel(Seq::filter, 2);
    assert(head.drop_last() =~= Seq::empty());
    if pred(args[i as int]) {
        assert(head.filter(pred) =~= head);
    } else {
        assert(head.filter(pred) =~= Seq::empty());
        assert(head.filter(pred) + tail.filter(pred) =~= tail.filter(pred));
    }
}

proof fn lemma_arg_outs(args: Seq<LaunchArg>, i: nat)
    requires
        i <= args.len(),
    ensures
        ({
            let mem = memory_args(args.skip(i as int));
            &&& arg_outs(args, i).len() == mem.len()
            &&& forall|k: int| 0 <= k < mem.len() ==> (#[trigger] mem[k])->Memory_out == arg_outs(args, i)[k]
        }),
    decreases args.len() - i,
{
    let pred = |a: LaunchArg| a is Memory;
    let mem = memory_args(args.skip(i as int));
    if i < args.len() {
        lemma_filter_front(args, i, pred);
        lemma_arg_outs(args, i + 1);
        let rest = memory_args(args.skip((i + 1) as int));
        assert forall|k: int| 0 <= k < mem.len() implies (#[trigger] mem[k])->Memory_out == arg_outs(args, i)[k] by {
            if args[i as int] is Memory && k > 0 {
                assert(mem[k] == rest[k - 1]);
            } else if !(args[i as int] is Memory) {
                assert(mem[k] == rest[k]);
            }
        }
    } else {
        assert(args.skip(i as int) =~= Seq::empty());
        reveal_with_fuel(Seq::filter, 1);
    }
}

proof fn lemma_arg_sites(args: Seq<LaunchArg>, i: nat)
    requires
        i <= args.len(),
    ensures
        ({
            let sites = args.skip(i as int).filter(|a: LaunchArg| bindable_arg(a));
            &&& arg_sites(args, i).len() == sites.len()
            &&& forall|k: int| 0 <= k < sites.len() ==> stands_for(arg_sites(args, i)[k], #[trigger] sites[k])
        }),
    decreases args.len() - i,
{
    let pred = |a: LaunchArg| bindable_arg(a);
    let sites = args.skip(i as int).filter(pred);
    if i < args.len() {
        lemma_filter_front(args, i, pred);
        lemma_arg_sites(args, i + 1);
        let rest = args.skip((i + 1) as int).filter(pred);
        assert forall|k: int| 0 <= k < sites.len() implies stands_for(arg_sites(args, i)[k], #[trigger] sites[k]) by {
            if bindable_arg(args[i as int]) && k > 0 {
                assert(sites[k] == rest[k - 1]);
            } else if !bindable_arg(args[i as int]) {
                assert(sites[k] == rest[k]);
            }
        }
    } else {
        assert(args.skip(i as int) =~= Seq::empty());
        reveal_with_fuel(Seq::filter, 1);
    }
}

/// Whether an input is that of an argument of a launch.
pub open spec fn stands_for(input: Input, a: LaunchArg) -> bool {
    match a {
        LaunchArg::Memory { input: i, .. } => input == i,
        LaunchArg::Number(NumberArg::Slot { key, name, cell, sink, kind }) => input == (Input::Scalar {
            key,
            name,
            cell,
            sink,
            kind,
        }),
        _ => false,
    }
}

/// A launch hands on all of its memory, in the order of its arguments, and a bind is
/// offered to all its memory and all its numbers that are slots, in that order, and then to
/// a grid that is a slot.
pub proof fn law_launch_offers_all_its_arguments(l: Launch)
    ensures
        ({
            let mem = memory_args(l.args@);
            let sites = l.args@.filter(|a: LaunchArg| bindable_arg(a));
            let n = sites.len() as int;
            &&& LeafOp::Launch(l).outs().len() == mem.len()
            &&& forall|k: int| 0 <= k < mem.len() ==> (#[trigger] mem[k])->Memory_out == LeafOp::Launch(l).outs()[k]
            &&& forall|k: int| 0 <= k < n ==> stands_for(LeafOp::Launch(l).slots()[k], #[trigger] sites[k])
            &&& l.grid is Concrete ==> LeafOp::Launch(l).slots().len() == n
            &&& l.grid matches ScalarInput::Slot { key, name, cell, sink } ==> LeafOp::Launch(l).slots().len() == n + 1
                && LeafOp::Launch(l).slots()[n] == (Input::Scalar { key, name, cell, sink, kind: ValueKind::Grid })
        }),
{
    assert(l.args@.skip(0) =~= l.args@);
    lemma_arg_outs(l.args@, 0);
    lemma_arg_sites(l.args@, 0);
    LaunchSpec::lemma_kind(arbitrary(), arbitrary());
    let sites = l.args@.filter(|a: LaunchArg| bindable_arg(a));
    assert(LeafOp::Launch(l).outs() == arg_outs(l.args@, 0));
    assert forall|k: int| 0 <= k < sites.len() implies stands_for(LeafOp::Launch(l).slots()[k], #[trigger] sites[k]) by {
        assert(stands_for(arg_sites(l.args@, 0)[k], sites[k]));
    }
}

proof fn lemma_all_ready(inputs: Seq<Input>, i: nat, w: World)
    ensures
        all_ready(inputs, i, w) is Ok <==> forall|k: int| i <= k < inputs.len() ==> readiness(w, #[trigger] inputs[k]) is Ok,
    decreases inputs.len() - i,
{
    if i < inputs.len() {
        lemma_all_ready(inputs, i + 1, w);
    }
}

/// A launch is ready if and only if everything that a bind is offered to is.
pub proof fn law_launch_is_ready_when_its_arguments_are(l: Launch, w: World)
    ensures
        LeafOp::Launch(l).ready(w) is Ok <==> forall|k: int|
            0 <= k < LeafOp::Launch(l).slots().len() ==> readiness(w, #[trigger] LeafOp::Launch(l).slots()[k]) is Ok,
{
    lemma_all_ready(l.sites(), 0, w);
    assert(LeafOp::Launch(l).slots() == l.sites());
}

/// An op of a graph runs as the op that it is.
pub proof fn law_ops_run_as_what_they_are(l: LeafOp, pre: Walk, post: Walk, mode: ExecMode, res: OpResult<()>)
    ensures
        match l {
            LeafOp::Fill(x) => l.runs(pre, post, mode, res) == x.runs(pre, post, mode, res),
            LeafOp::FillDeviceUninit(x) => l.runs(pre, post, mode, res) == x.runs(pre, post, mode, res),
            LeafOp::FillMappedUninit(x) => l.runs(pre, post, mode, res) == x.runs(pre, post, mode, res),
            LeafOp::FillUsmUninit(x) => l.runs(pre, post, mode, res) == x.runs(pre, post, mode, res),
            LeafOp::FillMapped(x) => l.runs(pre, post, mode, res) == x.runs(pre, post, mode, res),
            LeafOp::WriteDeviceUninit(x) => l.runs(pre, post, mode, res) == x.runs(pre, post, mode, res),
            LeafOp::WriteDevice(x) => l.runs(pre, post, mode, res) == x.runs(pre, post, mode, res),
            LeafOp::WriteMappedUninit(x) => l.runs(pre, post, mode, res) == x.runs(pre, post, mode, res),
            LeafOp::WriteMapped(x) => l.runs(pre, post, mode, res) == x.runs(pre, post, mode, res),
            LeafOp::WriteUsmUninit(x) => l.runs(pre, post, mode, res) == x.runs(pre, post, mode, res),
            LeafOp::ReadInto(x) => l.runs(pre, post, mode, res) == x.runs(pre, post, mode, res),
            LeafOp::AcquireDeviceView(x) => l.runs(pre, post, mode, res) == x.runs(pre, post, mode, res),
            LeafOp::AcquireDeviceViewRead(x) => l.runs(pre, post, mode, res) == x.runs(pre, post, mode, res),
            LeafOp::ReleaseDeviceView(x) => l.runs(pre, post, mode, res) == x.runs(pre, post, mode, res),
            LeafOp::AcquireMappedView(x) => l.runs(pre, post, mode, res) == x.runs(pre, post, mode, res),
            LeafOp::AcquireMappedViewRead(x) => l.runs(pre, post, mode, res) == x.runs(pre, post, mode, res),
            LeafOp::ReleaseMappedView(x) => l.runs(pre, post, mode, res) == x.runs(pre, post, mode, res),
            LeafOp::Download(x) => l.runs(pre, post, mode, res) == x.runs(pre, post, mode, res),
            LeafOp::TransferToDevice(x) => l.runs(pre, post, mode, res) == x.runs(pre, post, mode, res),
            LeafOp::Upload(x) => l.runs(pre, post, mode, res) == x.runs(pre, post, mode, res),
            LeafOp::ScalarUpload(x) => l.runs(pre, post, mode, res) == x.runs(pre, post, mode, res),
            LeafOp::ScalarZero(x) => l.runs(pre, post, mode, res) == x.runs(pre, post, mode, res),
            LeafOp::UsmSlice(x) => l.runs(pre, post, mode, res) == x.runs(pre, post, mode, res),
            LeafOp::AllocZero(x) => l.runs(pre, post, mode, res) == x.runs(pre, post, mode, res),
            LeafOp::DeviceAllocUninit(x) => l.runs(pre, post, mode, res) == x.runs(pre, post, mode, res),
            LeafOp::MappedAllocUninit(x) => l.runs(pre, post, mode, res) == x.runs(pre, post, mode, res),
            LeafOp::UsmAllocUninit(x) => l.runs(pre, post, mode, res) == x.runs(pre, post, mode, res),
            LeafOp::CopyTo2(x) => l.runs(pre, post, mode, res) == x.runs(pre, post, mode, res),
            LeafOp::Value(x) => l.runs(pre, post, mode, res) == x.runs(pre, post, mode, res),
            LeafOp::Lift(x) => l.runs(pre, post, mode, res) == x.runs(pre, post, mode, res),
            LeafOp::Forward(x) => l.runs(pre, post, mode, res) == x.runs(pre, post, mode, res),
            LeafOp::ImageWrite(x) => l.runs(pre, post, mode, res) == x.runs(pre, post, mode, res),
            LeafOp::ImageRead(x) => l.runs(pre, post, mode, res) == x.runs(pre, post, mode, res),
            LeafOp::ImageFill(x) => l.runs(pre, post, mode, res) == x.runs(pre, post, mode, res),
            LeafOp::ImageCopy(x) => l.runs(pre, post, mode, res) == x.runs(pre, post, mode, res),
            LeafOp::ImageUploadEager(x) => l.runs(pre, post, mode, res) == x.runs(pre, post, mode, res),
            LeafOp::ImageDownloadEager(x) => l.runs(pre, post, mode, res) == x.runs(pre, post, mode, res),
            LeafOp::Launch(x) => l.runs(pre, post, mode, res) == x.runs(pre, post, mode, res),
        },
        l matches LeafOp::TransferToDevice(x) ==> l.devices_needed() == x.target.devices_needed(),
        !(l is TransferToDevice) ==> l.devices_needed() == 0,
{
}

} // verus!
