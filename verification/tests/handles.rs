use claspr::access::{ReadOnly, ReadWrite, WriteOnly};
use claspr::chain::run_eager_chain;
use claspr::combinators::bundle;
use claspr::entries::{lift, value};
use claspr::error::Error;
use claspr::exec_ctx::{Driver, ExecMode, ExecutionContext};
use claspr::graph::{AndThen, DeviceOp, Handle, OnDevice};
use claspr::image::{image_upload, Image1DBuffer, Image2D};
use claspr::input::{CopyHome, Input, ToInput};
use claspr::launch::{DeviceSlice, F32Bits, InFlight, KernelArg, KernelArgs, LaunchSpec, MappedSlice, USMSlice};
use claspr::leaf_op::LeafOp;
use claspr::leaves::{download, fill, DeviceTarget};
use claspr::obj::{Class, Command, Extent, Home, HostRef, MemRef, Obj, Reply};
use claspr::plain::{HostNumber, HostValue};
use claspr::seeds::{
    alloc_zero_as, device_alloc_uninit_as, mapped_alloc_uninit, scalar_value_as, upload_as, usm_alloc_uninit_as,
    usm_slice, usm_slice_as,
};
use claspr::slots::{SlotHandle, SlotTag};
use claspr::store::Store;
use claspr::terminals::{discard, sync};
use claspr::walk::cb_boundary_gather;
use std::collections::VecDeque;
use std::marker::PhantomData;

struct Script {
    replies: VecDeque<Reply>,
    next: u64,
    log: Vec<(Command, Vec<u64>)>,
}

impl Script {
    fn new() -> Script {
        Script { replies: VecDeque::new(), next: 100, log: Vec::new() }
    }
}

impl Driver for Script {
    fn issue(&mut self, _queue: u64, command: Command, waits: &Vec<u64>) -> Reply {
        self.log.push((command, waits.clone()));
        match self.replies.pop_front() {
            Some(r) => r,
            None => {
                self.next += 1;
                Ok(self.next - 1)
            }
        }
    }

    fn take_host_error(&mut self) -> Option<Error> {
        None
    }
}

fn device(id: u64) -> Obj {
    Obj {
        class: Class::Device,
        id,
        ctx: 9,
        extent: Extent { x: 8, y: 1, z: 1 },
        len: 8,
        bytes: 32,
        shared: false,
    }
}

const ONE: HostRef = HostRef { id: 50, len: 1, bytes: 4 };

fn leaf(l: LeafOp) -> DeviceOp {
    DeviceOp::Leaf(l)
}

fn context(st: Store, has_cb: bool) -> ExecutionContext<Script> {
    ExecutionContext::new(st, Script::new(), 9, 1, 20, vec![20], has_cb, true)
}

#[test]
fn the_handle_of_a_value_is_the_value() {
    let mut st = Store::new();
    let one = value(&mut st, 1u32);
    let n = u32::read(&one.handle()[0]).unwrap();
    assert_eq!(n, 1);
    let two = value(&mut st, n + 1);
    assert_eq!(u32::read(&two.handle()[0]), Some(2));
    assert_eq!(u64::read(&value(&mut st, u64::MAX).handle()[0]), Some(u64::MAX));
    assert_eq!(i8::read(&value(&mut st, -3i8).handle()[0]), Some(-3));
    assert_eq!(F32Bits::read(&value(&mut st, F32Bits(0x3f80_0000)).handle()[0]), Some(F32Bits(0x3f80_0000)));
    let words = value(&mut st, vec![3u64, 4, 5]);
    assert_eq!(words.handle(), vec![3u64, 4, 5].to_parts());
    assert_eq!(u32::read(&device(7)), None);
}

/// A host value of a type of its own.
struct Point {
    x: u32,
    y: u32,
}

impl HostValue for Point {
    fn to_parts(&self) -> Vec<Obj> {
        let mut v = self.x.to_parts();
        v.extend(self.y.to_parts());
        v
    }
}

#[test]
fn any_host_value_can_be_a_value() {
    let mut st = Store::new();
    let v = value(&mut st, Point { x: 3, y: 4 });
    let parts = v.handle();
    assert_eq!((u32::read(&parts[0]), u32::read(&parts[1])), (Some(3), Some(4)));
}

#[test]
fn a_value_is_handed_out_anew_in_every_run() {
    let mut st = Store::new();
    let v = value(&mut st, 5u16);
    let before = v.handle();
    let out = v.output_pipe().unwrap();
    let op = leaf(LeafOp::Value(v));
    let mut ec = context(st, false);
    for _ in 0..3 {
        assert!(op.execute(&mut ec, ExecMode::Pipelined).is_ok());
        let p = ec.take_home(&out).unwrap();
        assert_eq!((p.value.clone(), p.deps.len(), p.home), (before.clone(), 0, None));
        assert!(matches!(&op.handle()[0], Handle::Value(x) if *x == before));
    }
}

#[test]
fn a_bundle_hands_values_and_pipes_on() {
    let mut st = Store::new();
    let f = fill(&mut st, device(7), ONE);
    let pipe = f.out;
    let v = value(&mut st, 6u8);
    let b = bundle(&mut st, vec![leaf(LeafOp::Fill(f)), leaf(LeafOp::Value(v))]);
    let op = DeviceOp::Bundle(Box::new(b));
    let handles = op.handle();
    assert_eq!(handles.len(), 2);
    assert!(matches!(&handles[0], Handle::Pipe(p) if *p == pipe));
    let Handle::Value(x) = &handles[1] else { panic!("value") };
    assert_eq!(u8::read(&x[0]), Some(6));
    assert_eq!(op.pipes().len(), 2);
}

/// The creation flags of the first allocation of a run.
fn flags_of(st: Store, op: DeviceOp) -> u64 {
    let mut ec = context(st, false);
    assert!(op.execute(&mut ec, ExecMode::Pipelined).is_ok());
    let (_, d) = ec.into_parts();
    let Command::Alloc { flags, .. } = d.log[0].0 else { panic!("allocation") };
    flags
}

#[test]
fn memory_is_created_with_the_flags_of_its_marker() {
    let mut st = Store::new();
    let x = alloc_zero_as(&mut st, 4, 4, ReadOnly);
    assert_eq!(flags_of(st, leaf(LeafOp::AllocZero(x))), 4);
    let mut st = Store::new();
    let x = alloc_zero_as(&mut st, 4, 4, ReadWrite);
    assert_eq!(flags_of(st, leaf(LeafOp::AllocZero(x))), 1);
    let mut st = Store::new();
    let x = device_alloc_uninit_as(&mut st, 4, 4, WriteOnly);
    assert_eq!(flags_of(st, leaf(LeafOp::DeviceAllocUninit(x))), 2);
    let mut st = Store::new();
    let x = usm_alloc_uninit_as(&mut st, 4, 4, ReadOnly);
    assert_eq!(flags_of(st, leaf(LeafOp::UsmAllocUninit(x))), 4);
    let mut st = Store::new();
    let x = upload_as(&mut st, ONE, WriteOnly);
    assert_eq!(flags_of(st, leaf(LeafOp::Upload(x))), 2);
    let mut st = Store::new();
    let x = scalar_value_as(&mut st, ONE, ReadOnly);
    assert_eq!(flags_of(st, leaf(LeafOp::ScalarUpload(x))), 4);
    let mut st = Store::new();
    let x = usm_slice_as(&mut st, ONE, ReadOnly);
    assert_eq!(flags_of(st, leaf(LeafOp::UsmSlice(x))), 4);
}

#[test]
fn backing_memory_has_the_flags_of_the_image() {
    let mut ec = context(Store::new(), false);
    let b: Result<Image1DBuffer<ReadOnly, claspr::format::R32Float>, Error> = Image1DBuffer::create(&mut ec, 10);
    assert!(b.is_ok());
    let (_, d) = ec.into_parts();
    assert!(matches!(d.log[0].0, Command::Alloc { flags: 4, bytes: 40, .. }));
}

#[test]
fn shared_memory_needs_a_device_that_has_it() {
    let mut st = Store::new();
    let u = usm_slice(&mut st, ONE);
    let m = mapped_alloc_uninit(&mut st, 4, 4);
    let mut ec = ExecutionContext::new(st, Script::new(), 9, 1, 20, vec![20], false, false);
    for op in [leaf(LeafOp::UsmSlice(u)), leaf(LeafOp::MappedAllocUninit(m))] {
        assert!(matches!(op.execute(&mut ec, ExecMode::Pipelined), Err(Error::SvmNotAvailable)));
    }
    assert!(ec.into_parts().1.log.is_empty());
}

#[test]
fn a_terminal_runs_in_the_context_of_its_buffer() {
    let mut st = Store::new();
    let elsewhere = Obj { ctx: 8, ..device(7) };
    let w = claspr::leaves::write(&mut st, elsewhere, HostRef { id: 51, len: 8, bytes: 32 });
    let d = download(&mut st, elsewhere);
    let mut ec = context(st, false);
    assert!(matches!(w.wait(&mut ec), Err(Error::InvalidArgument(_))));
    assert!(matches!(d.submit(&mut ec), Err(Error::InvalidArgument(_))));
    assert!(ec.into_parts().1.log.is_empty());
}

#[test]
fn an_unready_graph_is_an_error_also_without_its_devices() {
    let mut st = Store::new();
    let slot = SlotHandle::new(&mut st, 1, "Target");
    let f = fill(&mut st, slot, ONE);
    let far = OnDevice::new(&mut st, leaf(LeafOp::Fill(f)), DeviceTarget::Index(5));
    let op = DeviceOp::OnDevice(Box::new(far));
    let mut ec = context(st, false);
    assert!(!op.fits_devices(1));
    assert!(matches!(sync(&op, &mut ec), Err(Error::SlotUnbound("Target"))));
    let _ = run_eager_chain(&op, &mut ec);
    assert!(ec.into_parts().1.log.is_empty());
}

#[test]
fn new_slots_are_unbound_and_apart() {
    let mut st = Store::new();
    let a = SlotHandle::new(&mut st, 1, "Target");
    let b = SlotHandle::new(&mut st, 1, "Target");
    assert_eq!((a.key, a.name), (b.key, b.name));
    assert_ne!(a.cell, b.cell);
    let i = a.into_slot_input(&mut st);
    assert!(matches!(i.check_ready(&st), Err(Error::SlotUnbound("Target"))));
    let f = fill(&mut st, a, ONE);
    let g = fill(&mut st, b, ONE);
    let op = leaf(LeafOp::Fill(f));
    let tag = SlotTag { key: 1, name: "Target", value: device(7), source: None };
    assert!(op.bind(&mut st, tag).is_ok());
    assert!(op.check_ready(&st).is_ok());
    assert!(matches!(leaf(LeafOp::Fill(g)).check_ready(&st), Err(Error::SlotUnbound("Target"))));
}

#[test]
fn an_empty_span_keeps_what_its_values_wait_on() {
    let mut st = Store::new();
    let w = claspr::leaves::write(&mut st, device(7), HostRef { id: 51, len: 8, bytes: 32 });
    let pending = w.out;
    let f = claspr::entries::forward(&mut st, pending);
    let d = download(&mut st, f.out);
    let out = d.out;
    let span = AndThen::new(&mut st, leaf(LeafOp::Forward(f)), leaf(LeafOp::Download(d)));
    let tail_a = fill(&mut st, device(8), ONE);
    let tail_b = fill(&mut st, tail_a.out, ONE);
    let tail = AndThen::new(&mut st, leaf(LeafOp::Fill(tail_a)), leaf(LeafOp::Fill(tail_b)));
    let all = AndThen::new(&mut st, DeviceOp::AndThen(Box::new(span)), DeviceOp::AndThen(Box::new(tail)));
    let op = DeviceOp::AndThen(Box::new(all));
    let first = leaf(LeafOp::WriteDevice(w));
    let mut ec = context(st, true);
    assert!(first.execute(&mut ec, ExecMode::Pipelined).is_ok());
    assert!(op.execute(&mut ec, ExecMode::Pipelined).is_ok());
    assert!(ec.take_home(&out).is_none());
    let (_, d) = ec.into_parts();
    assert!(matches!(d.log[0].0, Command::Write { .. }));
    assert!(matches!(d.log[1].0, Command::OpenCb { .. }));
    let read = d.log.iter().find(|x| matches!(x.0, Command::Read { .. })).unwrap();
    assert_eq!(read.1, vec![100]);
}

#[test]
fn joins_inside_command_buffers_enqueue_nothing() {
    let mut st = Store::new();
    let a = fill(&mut st, device(7), ONE);
    let b = fill(&mut st, device(8), ONE);
    let n = bundle(&mut st, vec![leaf(LeafOp::Fill(a)), leaf(LeafOp::Fill(b))]);
    let op = DeviceOp::Bundle(Box::new(n));
    let mut ec = context(st, true);
    for _ in 0..2 {
        let g = cb_boundary_gather(&op, &mut ec, ExecMode::Pipelined).unwrap();
        assert_eq!((g.outs.len(), g.deps.len()), (2, 1));
        for c in &g.outs {
            ec.rehome(c.home, &c.value);
        }
    }
    let (_, d) = ec.into_parts();
    let all: Vec<Command> = d.log.iter().map(|x| x.0).collect();
    assert!(!all.iter().any(|c| matches!(c, Command::Marker)));
    assert_eq!(all.iter().filter(|c| matches!(c, Command::OpenCb { .. })).count(), 1);
    assert_eq!(all[4], Command::EnqueueCb { cb: 103 });
    assert_eq!(all[5], Command::EnqueueCb { cb: 103 });
    assert_eq!(all.len(), 6);
}

#[test]
fn launches_note_the_shared_memory_they_use() {
    let m: MappedSlice<ReadWrite> = MappedSlice { ptr: 70, len: 2, byte_len: 8, mode: PhantomData };
    let u: USMSlice<ReadWrite> = USMSlice { ptr: 71, len: 2, byte_len: 8, mode: PhantomData };
    let b: DeviceSlice<ReadWrite> = DeviceSlice { mem: 7, len: 2, byte_len: 8, mode: PhantomData };
    let mut uses = Vec::new();
    b.register_completion(5, &mut uses);
    assert!(uses.is_empty());
    (b, m, u).register_all(6, &mut uses);
    assert_eq!(uses, vec![InFlight { ptr: 70, event: 6 }, InFlight { ptr: 71, event: 6 }]);
}

#[test]
fn grids_come_from_sizes() {
    let one = LaunchSpec::from([8]);
    let two = LaunchSpec::from([8, 4]);
    let three = LaunchSpec::from([8, 4, 2]);
    assert_eq!((one.dims(), one.global(), one.local().is_none()), (1, &[8usize][..], true));
    assert_eq!((two.dims(), two.global(), two.local().is_none()), (2, &[8usize, 4][..], true));
    assert_eq!((three.dims(), three.global(), three.local().is_none()), (3, &[8usize, 4, 2][..], true));
}

#[test]
fn images_beyond_memory_are_refused_by_the_driver_or_by_size() {
    let mut ec = context(Store::new(), false);
    type Wide = Image2D<ReadWrite, claspr::format::Rgba32Float>;
    let r: Result<Wide, Error> = Image2D::create(&mut ec, u32::MAX, u32::MAX);
    assert!(matches!(r, Err(Error::OpenCl(-40))));
    let (_, d) = ec.into_parts();
    assert!(matches!(d.log[0].0, Command::CreateImage { .. }));
    assert_eq!(d.log[1].0, Command::Release { mem: MemRef::Buffer(100) });
}

#[test]
fn memory_without_a_use_is_let_go_of() {
    let mut ec = ExecutionContext::new(
        Store::new(),
        Script { replies: vec![Ok(5), Err(-6)].into(), next: 100, log: Vec::new() },
        9,
        1,
        20,
        vec![20],
        false,
        true,
    );
    let b: Result<Image1DBuffer<ReadOnly, claspr::format::R32Float>, Error> = Image1DBuffer::create(&mut ec, 10);
    assert!(matches!(b, Err(Error::OpenCl(-6))));
    assert_eq!(ec.into_parts().1.log[2].0, Command::Release { mem: MemRef::Buffer(5) });
    let mut st = Store::new();
    let up = image_upload::<Image2D<ReadWrite, claspr::format::R8G8B8A8Uint>>(
        &mut st,
        HostRef { id: 51, len: 8, bytes: 32 },
        (4, 2),
    );
    let op = leaf(LeafOp::ImageUploadEager(up));
    let script = Script { replies: vec![Ok(5), Err(-5)].into(), next: 100, log: Vec::new() };
    let mut ec = ExecutionContext::new(st, script, 9, 1, 20, vec![20], false, true);
    assert!(matches!(op.execute(&mut ec, ExecMode::Pipelined), Err(Error::OpenCl(-5))));
    assert_eq!(ec.into_parts().1.log[2].0, Command::Release { mem: MemRef::Buffer(5) });
}

#[test]
fn copies_go_home_as_what_they_came_as() {
    assert_eq!(Class::Device.copy_home(3), Some(Home::Cell(3)));
    assert_eq!(Class::DeviceUninit.copy_home(3), Some(Home::Downgrade(3)));
    assert_eq!(Class::Usm.copy_slot_home(3), Some(Home::Slot(3)));
    assert_eq!(Class::UsmUninit.copy_slot_home(3), None);
    assert_eq!(Class::Mapped.pipe_home(Some(Home::Cell(4))), Some(Home::Cell(4)));
    assert_eq!(Class::MappedUninit.pipe_home(Some(Home::Cell(4))), None);
}

#[test]
fn dropped_outputs_go_home_or_are_let_go_of() {
    let mut st = Store::new();
    let f = fill(&mut st, device(7), ONE);
    let z = alloc_zero_as(&mut st, 4, 4, ReadWrite);
    let v = value(&mut st, 6u8);
    let (a, b, c) = (leaf(LeafOp::Fill(f)), leaf(LeafOp::AllocZero(z)), leaf(LeafOp::Value(v)));
    let mut ec = context(st, false);
    let x = sync(&a, &mut ec).unwrap().remove(0);
    discard(x, &mut ec);
    assert!(a.check_ready(ec.store()).is_ok());
    let y = sync(&b, &mut ec).unwrap().remove(0);
    let id = y.value[0].id;
    discard(y, &mut ec);
    let w = sync(&c, &mut ec).unwrap().remove(0);
    discard(w, &mut ec);
    let (_, d) = ec.into_parts();
    let released: Vec<Command> =
        d.log.iter().map(|x| x.0).filter(|c| matches!(c, Command::Release { .. })).collect();
    assert_eq!(released, vec![Command::Release { mem: MemRef::Buffer(id) }]);
}

#[test]
fn inputs_of_a_lift_are_their_own() {
    let mut st = Store::new();
    let l = lift(&mut st, device(7));
    assert!(matches!(l.input, Input::Concrete(_)));
    let i = device(8).to_input(&mut st);
    assert!(matches!(i, Input::Concrete(_)));
}
