use claspr::access::{ReadOnly, ReadWrite, WriteOnly};
use claspr::entries::value;
use claspr::error::Error;
use claspr::exec_ctx::{Driver, ExecMode, ExecutionContext};
use claspr::graph::{AndThen, DeviceOp};
use claspr::leaf_op::LeafOp;
use claspr::leaves::{
    acquire_device_view_read, acquire_mapped_view, acquire_mapped_view_read, fill, fill_mapped_uninit,
    release_mapped_view, write_device_uninit, write_mapped_uninit,
};
use claspr::obj::{Class, Command, Contents, Extent, Home, HostRef, MemRef, Obj, Reply};
use claspr::seeds::{
    alloc_zero_as, device_alloc_uninit_as, mapped_alloc_uninit, mapped_alloc_uninit_as, scalar_value_as,
    scalar_zero_as, usm_alloc_uninit, usm_alloc_uninit_as, usm_slice_as,
};
use claspr::store::Store;
use claspr::terminals::{submit_value, wait_for};
use std::collections::VecDeque;

struct Script {
    replies: VecDeque<Reply>,
    next: u64,
    log: Vec<(Command, Vec<u64>)>,
    queues: Vec<u64>,
    host: Option<Error>,
}

impl Script {
    fn new() -> Script {
        Script { replies: VecDeque::new(), next: 100, log: Vec::new(), queues: Vec::new(), host: None }
    }

    fn with(replies: Vec<Reply>) -> Script {
        Script { replies: replies.into(), next: 100, log: Vec::new(), queues: Vec::new(), host: None }
    }
}

impl Driver for Script {
    fn issue(&mut self, queue: u64, command: Command, waits: &Vec<u64>) -> Reply {
        self.log.push((command, waits.clone()));
        self.queues.push(queue);
        match self.replies.pop_front() {
            Some(r) => r,
            None => {
                self.next += 1;
                Ok(self.next - 1)
            }
        }
    }

    fn take_host_error(&mut self) -> Option<Error> {
        self.host.take()
    }
}

fn obj(class: Class, id: u64, len: usize) -> Obj {
    Obj {
        class,
        id,
        ctx: 9,
        extent: Extent { x: len, y: 1, z: 1 },
        len,
        bytes: len * 4,
        shared: false,
    }
}

fn device(id: u64) -> Obj {
    obj(Class::Device, id, 8)
}

const DATA: HostRef = HostRef { id: 50, len: 8, bytes: 32 };
const ONE: HostRef = HostRef { id: 51, len: 1, bytes: 4 };

fn context(st: Store, d: Script) -> ExecutionContext<Script> {
    ExecutionContext::new(st, d, 9, 1, 20, vec![20], false, true)
}

/// Run one leaf; the answer is its output, the events on it, its home and the
/// commands.
fn run(st: Store, l: LeafOp, mode: ExecMode) -> (Obj, Vec<u64>, Option<Home>, Vec<(Command, Vec<u64>)>) {
    let op = DeviceOp::Leaf(l);
    let out = op.output_pipe().unwrap();
    let mut ec = context(st, Script::new());
    assert!(op.execute(&mut ec, mode).is_ok());
    let p = ec.take_home(&out).unwrap();
    assert_eq!(p.value.len(), 1);
    (p.value[0], p.deps, p.home, ec.into_parts().1.log)
}

#[test]
fn writes_make_unwritten_memory_usable() {
    let mut st = Store::new();
    let l = write_device_uninit(&mut st, obj(Class::DeviceUninit, 7, 8), DATA);
    let (o, deps, home, log) = run(st, LeafOp::WriteDeviceUninit(l), ExecMode::Pipelined);
    assert_eq!((o.class, o.id, deps, home), (Class::Device, 7, vec![100], None));
    assert_eq!(
        log,
        vec![(Command::Write { mem: MemRef::Buffer(7), src: DATA, blocking: false }, vec![])]
    );
    let mut st = Store::new();
    let l = write_mapped_uninit(&mut st, obj(Class::MappedUninit, 7, 8), DATA);
    let (o, deps, _, log) = run(st, LeafOp::WriteMappedUninit(l), ExecMode::Blocking);
    assert_eq!((o.class, deps), (Class::Mapped, vec![]));
    assert_eq!(log[0].0, Command::Write { mem: MemRef::Svm(7), src: DATA, blocking: false });
    assert_eq!(log[1].0, Command::Wait { event: 100 });
    let mut st = Store::new();
    let l = fill_mapped_uninit(&mut st, obj(Class::MappedUninit, 7, 8), ONE);
    let (o, deps, _, log) = run(st, LeafOp::FillMappedUninit(l), ExecMode::Blocking);
    assert_eq!((o.class, deps), (Class::Mapped, vec![]));
    assert_eq!(log[0].0, Command::Fill { mem: MemRef::Svm(7), pattern: ONE, bytes: 32 });
    assert_eq!(log[1].0, Command::Wait { event: 100 });
}

#[test]
fn views_are_mapped_and_unmapped() {
    let mut st = Store::new();
    let l = acquire_device_view_read(&mut st, device(7));
    let (o, deps, _, log) = run(st, LeafOp::AcquireDeviceViewRead(l), ExecMode::Pipelined);
    assert_eq!((o.class, deps), (Class::DeviceView, vec![100]));
    assert_eq!(log[0].0, Command::MapMem { mem: MemRef::Buffer(7), writable: false });
    let mut st = Store::new();
    let l = acquire_mapped_view(&mut st, obj(Class::Mapped, 7, 8));
    let (o, _, _, log) = run(st, LeafOp::AcquireMappedView(l), ExecMode::Pipelined);
    assert_eq!(o.class, Class::MappedView);
    assert_eq!(log[0].0, Command::MapMem { mem: MemRef::Svm(7), writable: true });
    let mut st = Store::new();
    let l = acquire_mapped_view_read(&mut st, obj(Class::Mapped, 7, 8));
    let (_, _, _, log) = run(st, LeafOp::AcquireMappedViewRead(l), ExecMode::Pipelined);
    assert_eq!(log[0].0, Command::MapMem { mem: MemRef::Svm(7), writable: false });
    let mut st = Store::new();
    let l = release_mapped_view(&mut st, obj(Class::MappedView, 7, 8));
    let (o, _, _, log) = run(st, LeafOp::ReleaseMappedView(l), ExecMode::Pipelined);
    assert_eq!(o.class, Class::Mapped);
    assert_eq!(log[0].0, Command::UnmapMem { mem: MemRef::Svm(7) });
}

#[test]
fn allocations_name_their_family_and_size() {
    fn alloc_of(st: Store, l: LeafOp) -> (Obj, Command) {
        let (o, deps, home, log) = run(st, l, ExecMode::Pipelined);
        assert_eq!((deps, home, log.len()), (vec![], None, 1));
        (o, log[0].0)
    }
    let mut st = Store::new();
    let l = alloc_zero_as(&mut st, 5, 4, ReadWrite);
    let (o, c) = alloc_of(st, LeafOp::AllocZero(l));
    assert_eq!((o.class, o.id, o.len, o.bytes), (Class::Device, 100, 5, 20));
    assert_eq!(c, Command::Alloc { class: Class::Device, len: 5, bytes: 20, flags: 1, contents: Contents::Zero });
    let unwritten = |class| Command::Alloc { class, len: 5, bytes: 20, flags: 1, contents: Contents::Unwritten };
    let mut st = Store::new();
    let l = device_alloc_uninit_as(&mut st, 5, 4, ReadWrite);
    assert_eq!(alloc_of(st, LeafOp::DeviceAllocUninit(l)).1, unwritten(Class::DeviceUninit));
    let mut st = Store::new();
    let l = mapped_alloc_uninit(&mut st, 5, 4);
    assert_eq!(alloc_of(st, LeafOp::MappedAllocUninit(l)).1, unwritten(Class::MappedUninit));
    let mut st = Store::new();
    let l = mapped_alloc_uninit_as(&mut st, 5, 4, ReadWrite);
    assert_eq!(alloc_of(st, LeafOp::MappedAllocUninit(l)).1, unwritten(Class::MappedUninit));
    let mut st = Store::new();
    let l = usm_alloc_uninit(&mut st, 5, 4);
    assert_eq!(alloc_of(st, LeafOp::UsmAllocUninit(l)).1, unwritten(Class::UsmUninit));
    let mut st = Store::new();
    let l = usm_alloc_uninit_as(&mut st, 5, 4, ReadWrite);
    assert_eq!(alloc_of(st, LeafOp::UsmAllocUninit(l)).1, unwritten(Class::UsmUninit));
}

#[test]
fn seeds_are_made_once_and_written_again_where_kernels_write() {
    let mut st = Store::new();
    let kept = scalar_value_as(&mut st, ONE, ReadOnly);
    let usm = usm_slice_as(&mut st, DATA, WriteOnly);
    let zero = scalar_zero_as(&mut st, ONE, WriteOnly);
    for (l, class, writes) in [
        (LeafOp::ScalarUpload(kept), Class::Device, false),
        (LeafOp::UsmSlice(usm), Class::Usm, true),
        (LeafOp::ScalarZero(zero), Class::Device, true),
    ] {
        let op = DeviceOp::Leaf(l);
        let out = op.output_pipe().unwrap();
        let mut ec = context(st, Script::new());
        assert!(op.execute(&mut ec, ExecMode::Pipelined).is_ok());
        let p = ec.take_home(&out).unwrap();
        assert_eq!(p.value[0].class, class);
        ec.rehome(p.home, &p.value);
        assert!(op.execute(&mut ec, ExecMode::Pipelined).is_ok());
        let q = ec.take_home(&out).unwrap();
        assert_eq!(q.value, p.value);
        let (s, d) = ec.into_parts();
        assert!(matches!(d.log[0].0, Command::Alloc { .. }));
        assert_eq!(d.log.len(), if writes { 2 } else { 1 });
        st = s;
    }
}

#[test]
fn whole_graphs_wait_and_submit() {
    let mut st = Store::new();
    let a = fill(&mut st, device(7), ONE);
    let b = fill(&mut st, a.out, ONE);
    let ab = AndThen::new(&mut st, DeviceOp::Leaf(LeafOp::Fill(a)), DeviceOp::Leaf(LeafOp::Fill(b)));
    let op = DeviceOp::AndThen(Box::new(ab));
    assert_eq!(op.node_label(), "and_then(source→next)");
    let mut ec = context(st, Script::new());
    assert_eq!(wait_for(&op, &mut ec).unwrap(), vec![device(7)]);
    let mut st = Store::new();
    let v = value(&mut st, vec![device(3)]);
    let op = DeviceOp::Leaf(LeafOp::Value(v));
    let mut ec = context(st, Script::new());
    let (outs, ev) = submit_value(&op, &mut ec).unwrap();
    assert_eq!((outs, ev), (vec![device(3)], 101));
    let (_, d) = ec.into_parts();
    assert_eq!(d.log[1], (Command::Marker, vec![]));
    assert_eq!(d.queues, vec![1, 100]);
}

#[test]
fn a_refused_command_is_an_error_of_the_run() {
    let mut st = Store::new();
    let l = acquire_device_view_read(&mut st, device(7));
    let op = DeviceOp::Leaf(LeafOp::AcquireDeviceViewRead(l));
    let mut ec = context(st, Script::with(vec![Err(-12)]));
    assert!(matches!(op.execute(&mut ec, ExecMode::Pipelined), Err(Error::OpenCl(-12))));
}
