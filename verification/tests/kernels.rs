use claspr::access::ReadWrite;
use claspr::error::Error;
use claspr::exec_ctx::{Driver, ExecMode, ExecutionContext};
use claspr::graph::{AndThen, DeviceOp};
use claspr::input::Checkout;
use claspr::kernel_op::{KernelLaunch, KernelOp};
use claspr::launch::{ArgValue, LaunchSpec, LocalBuffer, USMSlice};
use claspr::launch_op::{launch_kernel, Launch, LaunchArg};
use claspr::leaf_op::LeafOp;
use claspr::leaves::{download, fill};
use claspr::obj::{Class, Command, Extent, HostRef, MemRef, Obj, Recorded, Reply};
use claspr::seeds::usm_slice;
use claspr::slots::{grid_input, scalar_input, ScalarInput, SlotHandle, SlotTag};
use claspr::store::{Pipe, Store};
use claspr::terminals::discard;
use std::collections::VecDeque;
use std::marker::PhantomData;

struct Script {
    replies: VecDeque<Reply>,
    next: u64,
    log: Vec<(Command, Vec<u64>)>,
}

impl Script {
    fn new() -> Script {
        Script { replies: VecDeque::new(), next: 100, log: Vec::new() }
    }

    fn with(replies: Vec<Reply>) -> Script {
        Script { replies: replies.into(), next: 100, log: Vec::new() }
    }
}

impl Driver for Script {
    fn issue(&mut self, _queue: u64, command: Command, waits: &Vec<u64>) -> Reply {
        self.log.push((command, waits.clone()));
        match self.replies.pop_front() {
            Some(r) => r,
            None => {
                self.next += 1;
                Ok(self.next - 1)
            }
        }
    }

    fn take_host_error(&mut self) -> Option<Error> {
        None
    }
}

fn obj(class: Class, id: u64) -> Obj {
    Obj { class, id, ctx: 9, extent: Extent { x: 8, y: 1, z: 1 }, len: 8, bytes: 32, shared: false }
}

const ONE: HostRef = HostRef { id: 50, len: 1, bytes: 4 };

fn leaf(l: LeafOp) -> DeviceOp {
    DeviceOp::Leaf(l)
}

fn context(st: Store, d: Script, has_cb: bool) -> ExecutionContext<Script> {
    ExecutionContext::new(st, d, 9, 1, 20, vec![20], has_cb, true)
}

fn factor(v: u32) -> SlotTag<u32> {
    SlotTag { key: 3, name: "Factor", value: v, source: None }
}

fn grid(g: LaunchSpec) -> SlotTag<LaunchSpec> {
    SlotTag { key: 4, name: "Size", value: g, source: None }
}

fn slot_number(st: &mut Store) -> ScalarInput<u32> {
    SlotHandle::new(st, 3, "Factor").into_scalar_input(st)
}

fn slot_grid(st: &mut Store) -> ScalarInput<LaunchSpec> {
    SlotHandle::new(st, 4, "Size").into_scalar_input(st)
}

/// Kernel 70 over `buf` and a number from a slot.
fn scale(st: &mut Store, buf: Pipe) -> Launch {
    let m = LaunchArg::memory(st, buf);
    let n = LaunchArg::number(slot_number(st));
    let g = slot_grid(st);
    launch_kernel(st, 70, g, vec![m, n])
}

fn out_of(l: &Launch) -> Pipe {
    let LaunchArg::Memory { out, .. } = l.args[0] else { panic!("memory") };
    out
}

fn run(global: usize) -> Command {
    Command::RunKernel {
        kernel: 70,
        dims: 1,
        global: Extent { x: global, y: 0, z: 0 },
        with_local: false,
        local: Extent { x: 0, y: 0, z: 0 },
    }
}

#[test]
fn a_launch_sets_its_arguments_and_waits_on_its_memory() {
    let mut st = Store::new();
    let f = fill(&mut st, obj(Class::Device, 7), ONE);
    let a = LaunchArg::memory(&mut st, f.out);
    let b = LaunchArg::memory(&mut st, obj(Class::Usm, 8));
    let i = LaunchArg::memory(&mut st, obj(Class::Image, 9));
    let args = vec![a, LaunchArg::number(scalar_input(-1i16)), b, LaunchArg::local(LocalBuffer::bytes(64)), i];
    let l = launch_kernel(&mut st, 70, grid_input([16usize]), args);
    let op = leaf(LeafOp::Launch(l));
    let outs = op.pipes();
    assert_eq!(outs.len(), 3);
    let mut ec = context(st, Script::new(), false);
    assert!(leaf(LeafOp::Fill(f)).execute(&mut ec, ExecMode::Pipelined).is_ok());
    assert!(op.execute(&mut ec, ExecMode::Pipelined).is_ok());
    for (p, id) in outs.iter().zip([7, 8, 9]) {
        let x = ec.take_home(p).unwrap();
        assert_eq!((x.value[0].id, x.deps), (id, vec![108]));
    }
    let (_, d) = ec.into_parts();
    let values: Vec<ArgValue> = d
        .log
        .iter()
        .filter_map(|x| if let Command::SetArg { value, .. } = x.0 { Some(value) } else { None })
        .collect();
    assert_eq!(
        values,
        vec![
            ArgValue::Mem(7),
            ArgValue::Len(8),
            ArgValue::Scalar { width: 2, bits: 0xffff },
            ArgValue::Svm(8),
            ArgValue::Len(8),
            ArgValue::Local(64),
            ArgValue::Mem(9),
        ]
    );
    assert_eq!(d.log[8], (run(16), vec![100]));
}

#[test]
fn one_bind_fills_every_scalar_slot_of_its_tag() {
    let mut st = Store::new();
    let f = fill(&mut st, obj(Class::Device, 7), ONE);
    let a = scale(&mut st, f.out);
    let b = scale(&mut st, out_of(&a));
    let ab = AndThen::new(&mut st, leaf(LeafOp::Launch(a)), leaf(LeafOp::Launch(b)));
    let all = AndThen::new(&mut st, leaf(LeafOp::Fill(f)), DeviceOp::AndThen(Box::new(ab)));
    let op = DeviceOp::AndThen(Box::new(all));
    assert!(matches!(op.check_ready(&st), Err(Error::SlotUnbound("Factor"))));
    assert!(op.bind(&mut st, factor(5)).is_ok());
    assert!(matches!(op.check_ready(&st), Err(Error::SlotUnbound("Size"))));
    assert!(op.bind(&mut st, grid(LaunchSpec::from([32]))).is_ok());
    assert!(op.check_ready(&st).is_ok());
    assert!(op.bind(&mut st, factor(5)).is_ok());
    assert!(matches!(op.bind(&mut st, factor(6)), Err(Error::SlotConflict("Factor"))));
    assert!(matches!(
        op.bind(&mut st, SlotTag { key: 9, name: "Other", value: 1u32, source: None }),
        Err(Error::SlotNoSuchTag("Other"))
    ));
    assert!(op.mutate_bind(&mut st, factor(7)).is_ok());
    let mut ec = context(st, Script::new(), false);
    assert!(op.execute(&mut ec, ExecMode::Pipelined).is_ok());
    let (_, d) = ec.into_parts();
    let numbers: Vec<ArgValue> = d
        .log
        .iter()
        .filter_map(|x| if let Command::SetArg { index: 2, value, .. } = x.0 { Some(value) } else { None })
        .collect();
    assert_eq!(numbers, vec![ArgValue::Scalar { width: 4, bits: 7 }; 2]);
    assert_eq!(d.log.iter().filter(|x| x.0 == run(32)).count(), 2);
}

#[test]
fn launches_are_recorded_and_captured_by_their_scalars() {
    let mut st = Store::new();
    let f = fill(&mut st, obj(Class::Device, 7), ONE);
    let a = scale(&mut st, f.out);
    let out = out_of(&a);
    let inner = AndThen::new(&mut st, leaf(LeafOp::Fill(f)), leaf(LeafOp::Launch(a)));
    let d = download(&mut st, out);
    let all = AndThen::new(&mut st, DeviceOp::AndThen(Box::new(inner)), leaf(LeafOp::Download(d)));
    let op = DeviceOp::AndThen(Box::new(all));
    assert_eq!(op.cbable_weight(), 2);
    assert!(op.bind(&mut st, factor(5)).is_ok());
    assert!(op.bind(&mut st, grid(LaunchSpec::from([32]))).is_ok());
    let mut ec = context(st, Script::new(), true);
    let end = op.output_pipe().unwrap();
    for _ in 0..2 {
        assert!(op.execute(&mut ec, ExecMode::Pipelined).is_ok());
        assert!(ec.take_home(&end).is_some());
    }
    let mut ids = Vec::new();
    op.collect_cb_ids(ec.store(), &mut ids);
    assert_eq!(ids.len(), 1);
    assert!(op.mutate_bind(ec.store_mut(), factor(6)).is_ok());
    let mut ids = Vec::new();
    op.collect_cb_ids(ec.store(), &mut ids);
    assert!(ids.is_empty());
    let (_, d) = ec.into_parts();
    let recorded = d
        .log
        .iter()
        .find(|x| matches!(x.0, Command::Record { what: Recorded::Kernel { kernel: 70, .. }, .. }))
        .unwrap();
    assert_eq!(recorded.1, vec![101]);
    let all: Vec<Command> = d.log.iter().map(|x| x.0).collect();
    assert_eq!(all.iter().filter(|c| matches!(c, Command::EnqueueCb { .. })).count(), 2);
    assert_eq!(all.iter().filter(|c| matches!(c, Command::OpenCb { .. })).count(), 1);
    assert!(!all.iter().any(|c| matches!(c, Command::RunKernel { .. } | Command::Fill { .. })));
}

#[test]
fn a_blocking_launch_waits_for_its_kernel() {
    let mut st = Store::new();
    let m = LaunchArg::memory(&mut st, obj(Class::Device, 7));
    let l = launch_kernel(&mut st, 70, grid_input([4usize]), vec![m]);
    let out = out_of(&l);
    let op = leaf(LeafOp::Launch(l));
    let mut ec = context(st, Script::new(), false);
    assert!(op.execute(&mut ec, ExecMode::Blocking).is_ok());
    assert!(ec.take_home(&out).unwrap().deps.is_empty());
    let (st, d) = ec.into_parts();
    assert_eq!(d.log[3].0, Command::Wait { event: 102 });
    drop(st);
    let mut st = Store::new();
    let m = LaunchArg::memory(&mut st, obj(Class::Device, 7));
    let l = launch_kernel(&mut st, 70, grid_input([4usize]), vec![m]);
    let op = leaf(LeafOp::Launch(l));
    let mut ec = context(st, Script::with(vec![Ok(1), Err(-49)]), false);
    assert!(matches!(op.execute(&mut ec, ExecMode::Blocking), Err(Error::OpenCl(-49))));
}

/// Shared memory from host data, a kernel over it, and the output of the kernel.
fn shared_graph(st: &mut Store) -> (DeviceOp, Pipe) {
    let u = usm_slice(st, HostRef { id: 51, len: 8, bytes: 32 });
    let m = LaunchArg::memory(st, u.seed.out);
    let l = launch_kernel(st, 70, grid_input([4usize]), vec![m]);
    let out = out_of(&l);
    let all = AndThen::new(st, leaf(LeafOp::UsmSlice(u)), leaf(LeafOp::Launch(l)));
    (DeviceOp::AndThen(Box::new(all)), out)
}

#[test]
fn shared_memory_is_written_again_once_its_launches_ended() {
    let mut st = Store::new();
    let (op, out) = shared_graph(&mut st);
    let mut ec = context(st, Script::new(), false);
    assert!(op.execute(&mut ec, ExecMode::Pipelined).is_ok());
    assert_eq!(ec.store().busy(MemRef::Svm(100)), vec![103]);
    ec.reclaim(&out);
    assert!(op.execute(&mut ec, ExecMode::Pipelined).is_ok());
    assert_eq!(ec.store().busy(MemRef::Svm(100)), vec![108]);
    let (_, d) = ec.into_parts();
    assert!(matches!(d.log[3].0, Command::RunKernel { .. }));
    assert_eq!(d.log[4].0, Command::Wait { event: 103 });
    assert!(matches!(d.log[5].0, Command::HostWrite { mem: MemRef::Svm(100), .. }));
}

#[test]
fn a_launch_that_failed_keeps_its_memory_from_the_host() {
    let mut st = Store::new();
    let (op, out) = shared_graph(&mut st);
    let replies = vec![Ok(100), Ok(101), Ok(102), Ok(103), Err(-14)];
    let mut ec = context(st, Script::with(replies), false);
    assert!(op.execute(&mut ec, ExecMode::Pipelined).is_ok());
    ec.reclaim(&out);
    assert!(matches!(op.execute(&mut ec, ExecMode::Pipelined), Err(Error::OpenCl(-14))));
    let (_, d) = ec.into_parts();
    assert_eq!(d.log.len(), 5);
}

#[test]
fn launches_of_a_command_buffer_use_memory_until_its_event() {
    let mut st = Store::new();
    let mut pipe = None;
    let mut ops = Vec::new();
    for k in 0..2u64 {
        let m = match pipe {
            None => LaunchArg::memory(&mut st, obj(Class::Usm, 8)),
            Some(p) => LaunchArg::memory(&mut st, p),
        };
        let l = launch_kernel(&mut st, 70 + k, grid_input([4usize]), vec![m]);
        pipe = Some(out_of(&l));
        ops.push(leaf(LeafOp::Launch(l)));
    }
    let second = ops.remove(1);
    let first = ops.remove(0);
    let inner = AndThen::new(&mut st, first, second);
    let d = download(&mut st, pipe.unwrap());
    let all = AndThen::new(&mut st, DeviceOp::AndThen(Box::new(inner)), leaf(LeafOp::Download(d)));
    let op = DeviceOp::AndThen(Box::new(all));
    let mut ec = context(st, Script::new(), true);
    assert!(op.execute(&mut ec, ExecMode::Pipelined).is_ok());
    let submitted = ec.store().busy(MemRef::Svm(8));
    assert_eq!(submitted.len(), 2);
    assert_eq!(submitted[0], submitted[1]);
    let (_, d) = ec.into_parts();
    let read = d.log.iter().find(|x| matches!(x.0, Command::Read { .. })).unwrap();
    assert_eq!(read.1, vec![submitted[0]]);
}

#[test]
fn shared_memory_is_let_go_of_behind_its_launches() {
    let mut ec = context(Store::new(), Script::new(), false);
    let args = (USMSlice::<ReadWrite> { ptr: 8, len: 8, byte_len: 32, mode: PhantomData },);
    let grid = LaunchSpec::from([4]);
    let k = KernelLaunch { kernel: 70, args, grid, deps: vec![], outputs: vec![obj(Class::Usm, 8)] };
    let (out, ev) = k.enqueue_into(&mut ec, &vec![]).unwrap();
    assert_eq!(ec.store().busy(MemRef::Svm(8)), vec![ev]);
    discard(Checkout::new(out, None), &mut ec);
    assert!(ec.store().busy(MemRef::Svm(8)).is_empty());
    let (_, d) = ec.into_parts();
    assert_eq!(d.log.last().unwrap(), &(Command::Release { mem: MemRef::Svm(8) }, vec![ev]));
}
