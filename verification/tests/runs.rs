use claspr::access::{ReadOnly, ReadWrite};
use claspr::combinators::{arc_split, arced, bundle, fan_out, DeviceFanOutExt, DeviceProfileExt};
use claspr::copies::{eager_copy_to, CopyOutputs};
use claspr::entries::{forward, lift, value};
use claspr::error::Error;
use claspr::exec_ctx::{Driver, ExecMode, ExecutionContext};
use claspr::graph::{AndThen, AndThenHost, DeviceDynOp, DeviceOp, OnDevice};
use claspr::leaf_op::LeafOp;
use claspr::leaves::{
    acquire_device_view, download, fill, fill_device_uninit, fill_mapped, fill_usm_uninit, read_into,
    release_device_view, transfer_to_device, transfer_to_device_at, write_mapped, write_usm_uninit,
    DeviceTarget,
};
use claspr::obj::{Class, Command, Contents, Extent, Home, HostRef, MemRef, Obj, Reply};
use claspr::seeds::{
    alloc_zero, device_alloc_uninit, scalar_value, scalar_zero, upload, upload_as, usm_slice,
};
use claspr::store::{Pipe, Store};
use std::collections::VecDeque;

struct Script {
    replies: VecDeque<Reply>,
    next: u64,
    log: Vec<(Command, Vec<u64>)>,
    queues: Vec<u64>,
    host: Option<Error>,
}

impl Script {
    fn new() -> Script {
        Script { replies: VecDeque::new(), next: 100, log: Vec::new(), queues: Vec::new(), host: None }
    }

    fn with(replies: Vec<Reply>) -> Script {
        Script { replies: replies.into(), next: 100, log: Vec::new(), queues: Vec::new(), host: None }
    }
}

impl Driver for Script {
    fn issue(&mut self, queue: u64, command: Command, waits: &Vec<u64>) -> Reply {
        self.log.push((command, waits.clone()));
        self.queues.push(queue);
        match self.replies.pop_front() {
            Some(r) => r,
            None => {
                self.next += 1;
                Ok(self.next - 1)
            }
        }
    }

    fn take_host_error(&mut self) -> Option<Error> {
        self.host.take()
    }
}

fn context(st: Store, d: Script) -> ExecutionContext<Script> {
    ExecutionContext::new(st, d, 9, 1, 20, vec![20, 21], false, true)
}

fn obj(class: Class, id: u64, len: usize) -> Obj {
    Obj {
        class,
        id,
        ctx: 9,
        extent: Extent { x: len, y: 1, z: 1 },
        len,
        bytes: len * 4,
        shared: false,
    }
}

fn device(id: u64) -> Obj {
    obj(Class::Device, id, 8)
}

fn host(id: u64, len: usize) -> HostRef {
    HostRef { id, len, bytes: len * 4 }
}

const ONE: HostRef = HostRef { id: 50, len: 1, bytes: 4 };

fn leaf(l: LeafOp) -> DeviceOp {
    DeviceOp::Leaf(l)
}

#[test]
fn fill_sends_one_command_and_its_output_waits_on_it() {
    let mut st = Store::new();
    let f = fill(&mut st, device(7), ONE);
    let out = f.out;
    let op = leaf(LeafOp::Fill(f));
    let mut ec = context(st, Script::new());
    assert!(op.execute(&mut ec, ExecMode::Pipelined).is_ok());
    let p = ec.take_home(&out).unwrap();
    assert_eq!(p.value, vec![device(7)]);
    assert_eq!(p.deps, vec![100]);
    assert_eq!(p.home, Some(Home::Cell(0)));
    let (_, d) = ec.into_parts();
    assert_eq!(
        d.log,
        vec![(Command::Fill { mem: MemRef::Buffer(7), pattern: ONE, bytes: 32 }, vec![])]
    );
}

#[test]
fn blocking_fill_waits_on_its_event() {
    let mut st = Store::new();
    let f = fill_mapped(&mut st, obj(Class::Mapped, 7, 8), ONE);
    let out = f.out;
    let op = leaf(LeafOp::FillMapped(f));
    let mut ec = context(st, Script::new());
    assert!(op.execute(&mut ec, ExecMode::Blocking).is_ok());
    assert!(ec.take_home(&out).unwrap().deps.is_empty());
    let (_, d) = ec.into_parts();
    assert_eq!(d.log[0].0, Command::Fill { mem: MemRef::Svm(7), pattern: ONE, bytes: 32 });
    assert_eq!(d.log[1], (Command::Wait { event: 100 }, vec![]));
}

#[test]
fn driver_refusals_come_back_as_status_codes() {
    let mut st = Store::new();
    let f = fill(&mut st, device(7), ONE);
    let op = leaf(LeafOp::Fill(f));
    let mut ec = context(st, Script::with(vec![Err(-5)]));
    assert!(matches!(op.execute(&mut ec, ExecMode::Pipelined), Err(Error::OpenCl(-5))));
}

#[test]
fn a_lent_buffer_cannot_be_lent_again() {
    let mut st = Store::new();
    let f = fill(&mut st, device(7), ONE);
    let op = leaf(LeafOp::Fill(f));
    let mut ec = context(st, Script::new());
    assert!(op.execute(&mut ec, ExecMode::Pipelined).is_ok());
    assert!(op.check_ready(ec.store()).is_err());
    let again = op.execute(&mut ec, ExecMode::Pipelined);
    assert!(matches!(again, Err(Error::NotSupported(m)) if m.contains("busy")));
    let (_, d) = ec.into_parts();
    assert_eq!(d.log.len(), 1);
}

#[test]
fn in_place_ops_rearm_once_given_back() {
    let mut st = Store::new();
    let f = fill(&mut st, device(7), ONE);
    let op = leaf(LeafOp::Fill(f));
    let mut ec = context(st, Script::new());
    for _ in 0..3 {
        let g = op.gather_checkouts(&mut ec, ExecMode::Pipelined).unwrap();
        assert_eq!(g.outs.len(), 1);
        assert_eq!(g.outs[0].value[0].id, 7);
        for c in g.outs {
            c.give_back(ec.store_mut());
        }
    }
    let (_, d) = ec.into_parts();
    assert_eq!(d.log.len(), 3);
}

#[test]
fn device_writes_use_the_blocking_form() {
    for (mode, blocking) in [(ExecMode::Blocking, true), (ExecMode::Pipelined, false)] {
        let mut st = Store::new();
        let f = claspr::leaves::write(&mut st, device(7), host(51, 8));
        let out = f.out;
        let op = leaf(LeafOp::WriteDevice(f));
        let mut ec = context(st, Script::new());
        assert!(op.execute(&mut ec, mode).is_ok());
        assert_eq!(ec.take_home(&out).unwrap().deps.is_empty(), blocking);
        let (_, d) = ec.into_parts();
        assert_eq!(
            d.log,
            vec![(Command::Write { mem: MemRef::Buffer(7), src: host(51, 8), blocking }, vec![])]
        );
    }
}

#[test]
fn mapped_writes_wait_for_their_event() {
    let mut st = Store::new();
    let f = write_mapped(&mut st, obj(Class::Mapped, 7, 8), host(51, 8));
    let op = leaf(LeafOp::WriteMapped(f));
    let mut ec = context(st, Script::with(vec![Ok(5), Err(-14)]));
    assert!(matches!(op.execute(&mut ec, ExecMode::Blocking), Err(Error::OpenCl(-14))));
}

#[test]
fn host_writes_of_another_length_are_refused() {
    let mut st = Store::new();
    let f = write_usm_uninit(&mut st, obj(Class::UsmUninit, 7, 8), host(51, 9));
    let op = leaf(LeafOp::WriteUsmUninit(f));
    let mut ec = context(st, Script::new());
    let r = op.execute(&mut ec, ExecMode::Pipelined);
    assert!(matches!(r, Err(Error::LengthMismatch { src: 9, dst: 8 })));
    assert!(ec.into_parts().1.log.is_empty());
}

#[test]
fn host_fills_pass_earlier_events_on() {
    let mut st = Store::new();
    let a = device_alloc_uninit(&mut st, 8, 4);
    let b = fill_device_uninit(&mut st, a.out, ONE);
    let c = fill_usm_uninit(&mut st, b.out, ONE);
    let out = c.out;
    let ab = AndThen::new(&mut st, leaf(LeafOp::DeviceAllocUninit(a)), leaf(LeafOp::FillDeviceUninit(b)));
    let abc = AndThen::new(&mut st, DeviceOp::AndThen(Box::new(ab)), leaf(LeafOp::FillUsmUninit(c)));
    let op = DeviceOp::AndThen(Box::new(abc));
    let mut ec = context(st, Script::new());
    assert!(op.execute(&mut ec, ExecMode::Pipelined).is_ok());
    let p = ec.take_home(&out).unwrap();
    assert_eq!(p.value[0].class, Class::Device);
    assert_eq!(p.value[0].id, 100);
    assert_eq!(p.deps, vec![101]);
    assert_eq!(p.home, None);
    let (_, d) = ec.into_parts();
    assert_eq!(
        d.log[0].0,
        Command::Alloc { class: Class::DeviceUninit, len: 8, bytes: 32, flags: 1, contents: Contents::Unwritten }
    );
    assert_eq!(d.log[2], (Command::HostFill { mem: MemRef::Buffer(100), pattern: ONE, bytes: 32 }, vec![]));
}

#[test]
fn download_fills_a_host_vector_and_gives_the_buffer_back() {
    let mut st = Store::new();
    let f = download(&mut st, device(7));
    let out = f.out;
    let op = leaf(LeafOp::Download(f));
    let mut ec = context(st, Script::new());
    assert!(op.execute(&mut ec, ExecMode::Pipelined).is_ok());
    let p = ec.take_home(&out).unwrap();
    assert_eq!((p.value[0].class, p.value[0].id, p.value[0].len), (Class::Host, 100, 8));
    assert_eq!(p.deps, vec![101]);
    assert_eq!(p.home, None);
    assert_eq!(ec.store().held(0), Some(device(7)));
    assert!(op.check_ready(ec.store()).is_ok());
    let (_, d) = ec.into_parts();
    assert_eq!(d.log[0].0, Command::HostAlloc { len: 8, bytes: 32 });
    assert_eq!(d.log[1].0, Command::Read { mem: MemRef::Buffer(7), dst: 100, blocking: false });
}

#[test]
fn read_into_keeps_the_buffer() {
    let mut st = Store::new();
    let f = read_into(&mut st, device(7), 60);
    let out = f.out;
    let op = leaf(LeafOp::ReadInto(f));
    let mut ec = context(st, Script::new());
    assert!(op.execute(&mut ec, ExecMode::Blocking).is_ok());
    assert_eq!(ec.take_home(&out).unwrap().value, vec![device(7)]);
}

#[test]
fn transfers_go_to_the_queue_of_the_target() {
    let mut st = Store::new();
    let f = transfer_to_device_at(&mut st, device(7), 1);
    let g = transfer_to_device(&mut st, f.out, 77);
    let out = g.out;
    let chain = AndThen::new(
        &mut st,
        leaf(LeafOp::TransferToDevice(f)),
        leaf(LeafOp::TransferToDevice(g)),
    );
    let op = DeviceOp::AndThen(Box::new(chain));
    let mut ec = context(st, Script::new());
    assert!(op.execute(&mut ec, ExecMode::Blocking).is_ok());
    assert_eq!(ec.take_home(&out).unwrap().deps, vec![103]);
    let (_, d) = ec.into_parts();
    assert_eq!(
        d.log,
        vec![
            (Command::Queue { device: 21 }, vec![]),
            (Command::Migrate { mem: MemRef::Buffer(7), queue: 100 }, vec![]),
            (Command::Queue { device: 77 }, vec![]),
            (Command::Migrate { mem: MemRef::Buffer(7), queue: 102 }, vec![101]),
        ]
    );
}

#[test]
fn uploads_allocate_once_and_reseed_what_kernels_may_write() {
    for (reseed, extra) in [(true, 1), (false, 0)] {
        let mut st = Store::new();
        let u = if reseed {
            upload(&mut st, host(51, 8))
        } else {
            upload_as(&mut st, host(51, 8), ReadOnly)
        };
        let out = u.seed.out;
        let op = leaf(LeafOp::Upload(u));
        let mut ec = context(st, Script::new());
        assert!(op.execute(&mut ec, ExecMode::Pipelined).is_ok());
        let busy = op.execute(&mut ec, ExecMode::Pipelined);
        assert!(matches!(busy, Err(Error::NotSupported(m)) if m.starts_with("eager graph: an upload buffer was already lent")));
        ec.reclaim(&out);
        assert!(op.execute(&mut ec, ExecMode::Pipelined).is_ok());
        let p = ec.take_home(&out).unwrap();
        assert_eq!(p.value[0].id, 100);
        assert_eq!(p.value[0].bytes, 32);
        let (_, d) = ec.into_parts();
        assert_eq!(d.log.len(), 1 + extra);
        assert_eq!(
            d.log[0].0,
            Command::Alloc { class: Class::Device, len: 8, bytes: 32, flags: if reseed { 1 } else { 4 }, contents: Contents::From(host(51, 8)) }
        );
        if reseed {
            assert_eq!(
                d.log[1].0,
                Command::Write { mem: MemRef::Buffer(100), src: host(51, 8), blocking: true }
            );
        }
    }
}

#[test]
fn every_seed_has_its_own_busy_text() {
    let mut st = Store::new();
    let a = scalar_value(&mut st, ONE);
    let b = usm_slice(&mut st, host(51, 8));
    let z = scalar_zero(&mut st, ONE);
    let ops = [
        (leaf(LeafOp::ScalarUpload(a)), "a device-scalar upload buffer"),
        (leaf(LeafOp::UsmSlice(b)), "a `usm_slice` buffer"),
        (leaf(LeafOp::ScalarZero(z)), "a device-scalar upload buffer"),
    ];
    let mut ec = context(st, Script::new());
    for (op, text) in &ops {
        assert!(op.execute(&mut ec, ExecMode::Pipelined).is_ok());
        let r = op.execute(&mut ec, ExecMode::Pipelined);
        assert!(matches!(r, Err(Error::NotSupported(m)) if m.contains(text)));
    }
}

#[test]
fn shared_memory_is_reseeded_from_the_host() {
    let mut st = Store::new();
    let b = usm_slice(&mut st, host(51, 8));
    let out = b.seed.out;
    let op = leaf(LeafOp::UsmSlice(b));
    let mut ec = context(st, Script::new());
    assert!(op.execute(&mut ec, ExecMode::Pipelined).is_ok());
    ec.reclaim(&out);
    assert!(op.execute(&mut ec, ExecMode::Pipelined).is_ok());
    let (_, d) = ec.into_parts();
    assert_eq!(d.log[1].0, Command::HostWrite { mem: MemRef::Svm(100), src: host(51, 8) });
}

#[test]
fn views_map_and_unmap() {
    let mut st = Store::new();
    let a = acquire_device_view(&mut st, device(7));
    let b = release_device_view(&mut st, a.out);
    let out = b.out;
    let chain =
        AndThen::new(&mut st, leaf(LeafOp::AcquireDeviceView(a)), leaf(LeafOp::ReleaseDeviceView(b)));
    let op = DeviceOp::AndThen(Box::new(chain));
    let mut ec = context(st, Script::new());
    assert!(op.execute(&mut ec, ExecMode::Pipelined).is_ok());
    assert_eq!(ec.take_home(&out).unwrap().value[0].class, Class::Device);
    let (_, d) = ec.into_parts();
    assert_eq!(d.log[0].0, Command::MapMem { mem: MemRef::Buffer(7), writable: true });
    assert_eq!(d.log[1], (Command::UnmapMem { mem: MemRef::Buffer(7) }, vec![100]));
}

#[test]
fn copies_wait_on_both_sides_and_send_unwritten_memory_home_unwritten() {
    let mut st = Store::new();
    let a = fill(&mut st, device(7), ONE);
    let c = eager_copy_to(&mut st, a.out, obj(Class::DeviceUninit, 8, 8));
    let (src_pipe, dst_pipe) = (c.src_pipe, c.dst_pipe);
    let dst = match c.dst {
        claspr::input::Input::Concrete(cell) => cell,
        _ => unreachable!(),
    };
    let chain = AndThen::new(&mut st, leaf(LeafOp::Fill(a)), leaf(LeafOp::CopyTo2(c)));
    let op = DeviceOp::AndThen(Box::new(chain));
    let mut ec = context(st, Script::new());
    assert!(op.execute(&mut ec, ExecMode::Pipelined).is_ok());
    let s = ec.take_home(&src_pipe).unwrap();
    assert_eq!((s.value[0], s.deps.clone()), (device(7), vec![101]));
    let t = ec.take_home(&dst_pipe).unwrap();
    assert_eq!(t.value[0].class, Class::Device);
    assert_eq!(t.deps, vec![101]);
    assert_eq!(t.home, Some(Home::Downgrade(dst)));
    ec.rehome(t.home, &t.value);
    assert_eq!(ec.store().held(dst), Some(obj(Class::DeviceUninit, 8, 8)));
    let (_, d) = ec.into_parts();
    assert_eq!(
        d.log[1],
        (Command::Copy { src: MemRef::Buffer(7), dst: MemRef::Buffer(8), bytes: 32 }, vec![100])
    );
    assert_eq!((1, 2).into_parts(), (1, 2));
}

#[test]
fn a_copy_hands_out_two_checkouts() {
    let mut st = Store::new();
    let c = eager_copy_to(&mut st, device(7), device(8));
    let op = leaf(LeafOp::CopyTo2(c));
    let mut ec = context(st, Script::new());
    let g = op.gather_checkouts(&mut ec, ExecMode::Pipelined).unwrap();
    assert_eq!(g.outs.len(), 2);
    assert_eq!(g.deps, vec![100, 100]);
    let c2 = op.collect(&mut ec, ExecMode::Pipelined);
    assert!(c2.is_err());
    for c in g.outs {
        c.give_back(ec.store_mut());
    }
    let p = op.collect(&mut ec, ExecMode::Pipelined).unwrap();
    assert_eq!(p.value, vec![device(7), device(8)]);
    assert_eq!(p.home, None);
}

#[test]
fn events_of_an_unused_output_are_not_lost() {
    let mut st = Store::new();
    let a = fill(&mut st, device(7), ONE);
    let b = fill(&mut st, device(8), ONE);
    let out = b.out;
    let chain = AndThen::new(&mut st, leaf(LeafOp::Fill(a)), leaf(LeafOp::Fill(b)));
    let op = DeviceOp::AndThen(Box::new(chain));
    let mut ec = context(st, Script::new());
    assert!(op.execute(&mut ec, ExecMode::Pipelined).is_ok());
    let p = ec.take_home(&out).unwrap();
    assert_eq!(p.deps, vec![101, 100]);
    assert_eq!(p.home, Some(Home::Cell(b_cell(&b))));
    ec.rehome(p.home, &p.value);
    let mut st2 = Store::new();
    let c = fill(&mut st2, device(7), ONE);
    let e = fill(&mut st2, device(8), ONE);
    let chain2 = AndThen::new(&mut st2, leaf(LeafOp::Fill(c)), leaf(LeafOp::Fill(e)));
    let op2 = DeviceOp::AndThen(Box::new(chain2));
    let mut ec2 = context(st2, Script::new());
    let q = op2.collect(&mut ec2, ExecMode::Pipelined).unwrap();
    assert_eq!(q.deps, vec![101, 100]);
}

fn b_cell(f: &claspr::leaves::Fill) -> u64 {
    match f.buf {
        claspr::input::Input::Concrete(c) => c,
        _ => unreachable!(),
    }
}

#[test]
fn shared_outputs_go_to_every_branch() {
    let mut st = Store::new();
    let f = fill(&mut st, device(7), ONE);
    let shared = arced(&mut st, leaf(LeafOp::Fill(f)));
    let split = arc_split::<3>(&mut st, DeviceOp::Arced(Box::new(shared)));
    let outs: Vec<Pipe> = split.outs.iter().copied().collect();
    assert_eq!(outs.len(), 3);
    let op = DeviceOp::ArcSplit(Box::new(split));
    assert_eq!(op.output_pipe(), None);
    let mut ec = context(st, Script::new());
    let g = op.gather_checkouts(&mut ec, ExecMode::Pipelined).unwrap();
    assert_eq!(g.outs.len(), 3);
    assert_eq!(g.deps, vec![100, 100, 100]);
    for c in &g.outs {
        assert!(c.value[0].shared);
        assert_eq!(c.value[0].id, 7);
    }
}

#[test]
fn bundles_are_joined_by_a_marker() {
    let mut st = Store::new();
    let a = fill(&mut st, device(7), ONE);
    let b = fill(&mut st, device(8), ONE);
    let n = bundle(&mut st, vec![leaf(LeafOp::Fill(a)), leaf(LeafOp::Fill(b))]);
    let op = DeviceOp::Bundle(Box::new(n));
    let mut ec = context(st, Script::new());
    let g = op.gather_checkouts(&mut ec, ExecMode::Blocking).unwrap();
    assert_eq!(g.outs.len(), 2);
    assert_eq!(g.deps, vec![102]);
    let (_, d) = ec.into_parts();
    assert_eq!(d.log[2], (Command::Marker, vec![100, 101]));
}

#[test]
fn fan_outs_collect_one_value() {
    let mut st = Store::new();
    let a = fill(&mut st, device(7), ONE);
    let b = fill(&mut st, device(8), ONE);
    let fills = vec![a, b];
    let n = fan_out(&mut st, fills, |f| leaf(LeafOp::Fill(f)));
    let op = DeviceOp::FanOut(Box::new(n));
    let mut ec = context(st, Script::new());
    let p = op.collect(&mut ec, ExecMode::Blocking).unwrap();
    assert_eq!(p.value, vec![device(7), device(8)]);
    assert_eq!(p.deps, vec![102]);
    let mut st = Store::new();
    let none: Vec<claspr::leaves::Fill> = Vec::new();
    let n = none.fan_out(&mut st, |f| leaf(LeafOp::Fill(f)));
    let op = DeviceOp::FanOut(Box::new(n));
    assert!(!op.cb_addable());
    let mut ec = context(st, Script::new());
    let p = op.collect(&mut ec, ExecMode::Blocking).unwrap();
    assert!(p.value.is_empty());
    assert_eq!(p.deps, vec![100]);
}

#[test]
fn values_lifts_and_forwards_pass_values_on() {
    let mut st = Store::new();
    let l = lift(&mut st, device(7));
    let f = forward(&mut st, l.out);
    let out = f.out;
    let chain = AndThen::new(&mut st, leaf(LeafOp::Lift(l)), leaf(LeafOp::Forward(f)));
    let v = value(&mut st, vec![device(3), device(4)]);
    let vo = leaf(LeafOp::Value(v));
    let op = DeviceOp::AndThen(Box::new(chain));
    let mut ec = context(st, Script::new());
    assert!(op.execute(&mut ec, ExecMode::Pipelined).is_ok());
    let p = ec.take_home(&out).unwrap();
    assert_eq!(p.value, vec![device(7)]);
    assert_eq!(p.home, Some(Home::Cell(0)));
    assert_eq!(vo.collect(&mut ec, ExecMode::Pipelined).unwrap().value.len(), 2);
    assert!(ec.into_parts().1.log.is_empty());
}

#[test]
fn a_group_of_values_is_no_single_buffer() {
    let mut st = Store::new();
    let v = value(&mut st, vec![device(3), device(4)]);
    let f = fill(&mut st, v.out, ONE);
    let chain = AndThen::new(&mut st, leaf(LeafOp::Value(v)), leaf(LeafOp::Fill(f)));
    let op = DeviceOp::AndThen(Box::new(chain));
    let mut ec = context(st, Script::new());
    assert!(matches!(op.execute(&mut ec, ExecMode::Pipelined), Err(Error::InvalidArgument(_))));
}

#[test]
fn an_empty_pipe_is_an_error() {
    let mut st = Store::new();
    let p = st.pipe();
    let f = fill(&mut st, p, ONE);
    let op = leaf(LeafOp::Fill(f));
    assert!(op.check_ready(&st).is_ok());
    let mut ec = context(st, Script::new());
    assert!(matches!(op.execute(&mut ec, ExecMode::Pipelined), Err(Error::NotSupported(_))));
}

#[test]
fn ops_behind_one_output_and_on_another_device() {
    let mut st = Store::new();
    let f = fill(&mut st, device(7), ONE);
    let inner = DeviceDynOp::new(&mut st, leaf(LeafOp::Fill(f)));
    let routed =
        OnDevice::new(&mut st, DeviceOp::Dyn(Box::new(inner)), DeviceTarget::Index(1));
    let out = routed.out;
    let op = DeviceOp::OnDevice(Box::new(routed));
    let mut ec = context(st, Script::with(vec![Ok(55)]));
    assert!(op.execute(&mut ec, ExecMode::Pipelined).is_ok());
    assert_eq!(ec.cl_queue(), 1);
    assert_eq!(ec.device(), 20);
    let p = ec.take_home(&out).unwrap();
    assert_eq!(p.home, None);
    assert_eq!(p.deps, vec![100]);
    let (_, d) = ec.into_parts();
    assert_eq!(d.log[0], (Command::Queue { device: 21 }, vec![]));
    assert_eq!(d.queues, vec![1, 55]);
    let mut st = Store::new();
    let f = fill(&mut st, device(7), ONE);
    let routed =
        OnDevice::new(&mut st, leaf(LeafOp::Fill(f)), DeviceTarget::Concrete(88));
    let op = DeviceOp::OnDevice(Box::new(routed));
    let mut ec = context(st, Script::with(vec![Err(-33)]));
    assert!(matches!(op.execute(&mut ec, ExecMode::Pipelined), Err(Error::OpenCl(-33))));
    assert_eq!(ec.into_parts().1.log[0].0, Command::Queue { device: 88 });
}

#[test]
fn profiling_needs_a_queue_that_can_time() {
    let mut st = Store::new();
    let f = fill(&mut st, device(7), ONE);
    let n = leaf(LeafOp::Fill(f)).profiled(&mut st, 66);
    let op = DeviceOp::Profiled(Box::new(n));
    let mut ec = context(st, Script::with(vec![Ok(5), Ok(1)]));
    assert!(matches!(op.execute(&mut ec, ExecMode::Pipelined), Err(Error::ProfilingDisabled)));
    let mut st = Store::new();
    let f = fill(&mut st, device(7), ONE);
    let n = leaf(LeafOp::Fill(f)).profiled(&mut st, 66);
    let out = n.out;
    let op = DeviceOp::Profiled(Box::new(n));
    let mut ec = context(st, Script::with(vec![Ok(5), Ok(3), Ok(6), Ok(0)]));
    assert!(op.execute(&mut ec, ExecMode::Pipelined).is_ok());
    let p = ec.take_home(&out).unwrap();
    assert_eq!(p.deps, vec![6]);
    assert_eq!(p.home, Some(Home::Cell(0)));
    let (_, d) = ec.into_parts();
    assert_eq!(d.log[2], (Command::Marker, vec![5]));
    assert_eq!(d.log[3].0, Command::ProfilingCallback { event: 6, callback: 66 });
}

#[test]
fn graphs_describe_themselves() {
    let mut st = Store::new();
    let a = fill(&mut st, device(7), ONE);
    let b = download(&mut st, a.out);
    let z = alloc_zero(&mut st, 1024, 4);
    let ab = AndThen::new(&mut st, leaf(LeafOp::Fill(a)), leaf(LeafOp::Download(b)));
    let n = bundle(&mut st, vec![DeviceOp::AndThen(Box::new(ab)), leaf(LeafOp::AllocZero(z))]);
    let dynop = DeviceDynOp::new(&mut st, DeviceOp::Bundle(Box::new(n)));
    let h = AndThenHost::new(&mut st, DeviceOp::Dyn(Box::new(dynop)), 5);
    let s = arc_split::<2>(&mut st, DeviceOp::Host(Box::new(h)));
    let op = DeviceOp::ArcSplit(Box::new(s));
    let mut out = Vec::new();
    op.describe(&mut out);
    assert_eq!(
        out,
        vec![
            "dyn_op{",
            "Bundle2{",
            "fill",
            "download",
            "alloc_zero(len=1024)",
            "}",
            "}",
            "and_then_host",
            "arc_split[2]",
        ]
    );
    assert!(op.contains_host_seam());
}

#[test]
fn graphs_outline_their_sequences() {
    let mut st = Store::new();
    let a = fill(&mut st, device(7), ONE);
    let b = fill(&mut st, a.out, ONE);
    let (ao, bo) = (a.out.cell, b.out.cell);
    let ab = AndThen::new(&mut st, leaf(LeafOp::Fill(a)), leaf(LeafOp::Fill(b)));
    let op = DeviceOp::AndThen(Box::new(ab));
    let mut out = Vec::new();
    op.dump_graph(0, &mut out);
    assert_eq!(out.len(), 3);
    assert_eq!((out[0].depth, out[0].name.as_str()), (0, "and_then(source→next)"));
    assert_eq!(out[0].out_cells, vec![bo]);
    assert!(out[0].cb_addable);
    assert!(!out[0].seam);
    assert_eq!((out[1].depth, out[1].name.as_str()), (1, "fill"));
    assert_eq!(out[1].out_cells, vec![ao]);
}

#[test]
fn access_markers_decide_reseeding() {
    let mut st = Store::new();
    assert!(upload_as(&mut st, ONE, ReadWrite).seed.reseed);
    assert!(!upload_as(&mut st, ONE, ReadOnly).seed.reseed);
}

#[test]
fn graphs_say_how_many_devices_they_need() {
    let mut st = Store::new();
    let f = fill(&mut st, device(7), ONE);
    let routed = OnDevice::new(&mut st, leaf(LeafOp::Fill(f)), DeviceTarget::Index(1));
    let op = DeviceOp::OnDevice(Box::new(routed));
    assert!(op.fits_devices(2));
    assert!(!op.fits_devices(1));
    let t = transfer_to_device_at(&mut st, device(7), 3);
    let op = leaf(LeafOp::TransferToDevice(t));
    assert!(op.fits_devices(4));
    assert!(!op.fits_devices(3));
    let v = value(&mut st, Vec::<Obj>::new());
    assert!(leaf(LeafOp::Value(v)).fits_devices(0));
}
