use claspr::access::{KernelAccess, ReadOnly, ReadWrite, WriteOnly};
use claspr::combinators::bundle;
use claspr::device_op::DeviceOperation;
use claspr::error::Error;
use claspr::exec_ctx::{Driver, ExecutionContext};
use claspr::fan_out::{fan_out, FanOutExt};
use claspr::fill_kernel::{fast_path_kernel_name, fill_via_kernel, FILL_PROGRAM_SOURCE, KERNEL_BYTES};
use claspr::graph::DeviceOp;
use claspr::ids::{contains_id, IdSet};
use claspr::kernel_op::{KernelLaunch, KernelOp};
use claspr::launch::{
    profiling_duration, ArgValue, ByValue, DeviceSlice, ExecuteKernel, F64Bits, IntoLaunchSpec, KernelArg,
    KernelArgs, KernelScalarRefArg, KernelSliceReadArg, LocalBuffer, MappedSlice, Scalar, ScalarRefArg,
};
use claspr::leaf_op::LeafOp;
use claspr::leaves::fill;
use claspr::map_primitive::{map_buffer, svm_map, svm_unmap, unmap_mem_object, MapPending};
use claspr::obj::{BufHandle, Class, Command, Contents, Extent, HostRef, MemRef, Obj, Reply};
use claspr::store::Store;
use std::collections::VecDeque;
use std::marker::PhantomData;
use std::sync::Arc;

struct Script {
    replies: VecDeque<Reply>,
    next: u64,
    log: Vec<(Command, Vec<u64>)>,
    queues: Vec<u64>,
    host: Option<Error>,
}

impl Script {
    fn new() -> Script {
        Script { replies: VecDeque::new(), next: 100, log: Vec::new(), queues: Vec::new(), host: None }
    }

    fn with(replies: Vec<Reply>) -> Script {
        Script { replies: replies.into(), next: 100, log: Vec::new(), queues: Vec::new(), host: None }
    }
}

impl Driver for Script {
    fn issue(&mut self, queue: u64, command: Command, waits: &Vec<u64>) -> Reply {
        self.log.push((command, waits.clone()));
        self.queues.push(queue);
        match self.replies.pop_front() {
            Some(r) => r,
            None => {
                self.next += 1;
                Ok(self.next - 1)
            }
        }
    }

    fn take_host_error(&mut self) -> Option<Error> {
        self.host.take()
    }
}

fn context(d: Script) -> ExecutionContext<Script> {
    ExecutionContext::new(Store::new(), d, 9, 1, 20, vec![20], false, true)
}

fn slice(mem: u64, len: usize) -> DeviceSlice<ReadWrite> {
    DeviceSlice { mem, len, byte_len: len * 4, mode: PhantomData }
}

fn device(id: u64) -> Obj {
    Obj {
        class: Class::Device,
        id,
        ctx: 9,
        extent: Extent { x: 8, y: 1, z: 1 },
        len: 8,
        bytes: 32,
        shared: false,
    }
}

fn set<K: KernelArg>(k: &K) -> Vec<ArgValue> {
    let mut e = ExecuteKernel::new();
    k.set(&mut e);
    e.args().clone()
}

#[test]
fn grids_keep_their_rank() {
    let g = [5usize].into_launch_spec();
    assert_eq!((g.dims(), g.global(), g.local()), (1, &[5usize][..], None));
    let g = [5usize, 6].into_launch_spec();
    assert_eq!((g.dims(), g.global(), g.local()), (2, &[5usize, 6][..], None));
    let g = ([5usize, 6, 7], [1usize, 2, 3]).into_launch_spec();
    assert_eq!(g.dims(), 3);
    assert_eq!(g.global(), &[5, 6, 7]);
    assert_eq!(g.local(), Some(&[1usize, 2, 3][..]));
    let h = g.into_launch_spec();
    assert_eq!(h.global(), &[5, 6, 7]);
}

#[test]
fn slices_take_two_arguments_and_scalars_one() {
    assert_eq!(set(&slice(7, 8)), vec![ArgValue::Mem(7), ArgValue::Len(8)]);
    assert_eq!(set(&Arc::new(slice(7, 8))), vec![ArgValue::Mem(7), ArgValue::Len(8)]);
    assert_eq!(set(&&slice(7, 8)), vec![ArgValue::Mem(7), ArgValue::Len(8)]);
    assert_eq!(set(&ScalarRefArg(&slice(7, 8))), vec![ArgValue::Mem(7)]);
    assert_eq!(set(&Scalar { inner: slice(7, 1) }), vec![ArgValue::Mem(7)]);
    let m: MappedSlice<ReadWrite> = MappedSlice { ptr: 3, len: 4, byte_len: 16, mode: PhantomData };
    assert_eq!(set(&m), vec![ArgValue::Svm(3), ArgValue::Len(4)]);
    assert_eq!(set(&LocalBuffer::bytes(64)), vec![ArgValue::Local(64)]);
    assert_eq!(LocalBuffer::of::<u64>(16).size_bytes, 128);
    assert_eq!(set(&ByValue(-1i8)), vec![ArgValue::Scalar { width: 1, bits: 0xff }]);
    assert_eq!(set(&ByValue(-2i64)), vec![ArgValue::Scalar { width: 8, bits: u64::MAX - 1 }]);
    assert_eq!(set(&ByValue(i32::MIN)), vec![ArgValue::Scalar { width: 4, bits: 0x8000_0000 }]);
    assert_eq!(
        set(&ByValue(F64Bits(1.5f64.to_bits()))),
        vec![ArgValue::Scalar { width: 8, bits: 1.5f64.to_bits() }]
    );
}

#[test]
fn argument_lists_keep_their_order() {
    let mut e = ExecuteKernel::new();
    (slice(7, 8), ByValue(5u16), LocalBuffer::bytes(4)).set_all(&mut e);
    assert_eq!(
        e.args(),
        &vec![
            ArgValue::Mem(7),
            ArgValue::Len(8),
            ArgValue::Scalar { width: 2, bits: 5 },
            ArgValue::Local(4),
        ]
    );
    ().set_all(&mut e);
    assert_eq!(e.args().len(), 4);
}

#[test]
fn recordable_arguments_name_their_memory() {
    let h = KernelSliceReadArg::record_handle(&slice(7, 8)).unwrap();
    assert_eq!(h, BufHandle { mem: MemRef::Buffer(7), byte_len: 32 });
    assert_eq!(slice(7, 8).element_count(), 8);
    let m: MappedSlice<ReadWrite> = MappedSlice { ptr: 3, len: 4, byte_len: 16, mode: PhantomData };
    let s = Scalar { inner: m };
    let h = KernelScalarRefArg::record_handle(&s).unwrap();
    assert_eq!(h, BufHandle { mem: MemRef::Svm(3), byte_len: 16 });
}

#[test]
fn access_markers_give_creation_flags() {
    assert_eq!(ReadOnly::kernel_flags(), opencl3::memory::CL_MEM_READ_ONLY as u64);
    assert_eq!(WriteOnly::kernel_flags(), opencl3::memory::CL_MEM_WRITE_ONLY as u64);
    assert_eq!(ReadWrite::kernel_flags(), opencl3::memory::CL_MEM_READ_WRITE as u64);
    assert!(!ReadOnly::reseed_on_replay());
    assert!(WriteOnly::reseed_on_replay());
}

#[test]
fn durations_need_both_counters() {
    assert_eq!(profiling_duration(Ok(10), Ok(25)), Some(15));
    assert_eq!(profiling_duration(Err(-7), Ok(25)), None);
    assert_eq!(profiling_duration(Ok(10), Err(-7)), None);
}

#[test]
fn fill_kernels_are_chosen_by_width() {
    assert_eq!(fast_path_kernel_name(1), Some("claspr_fill_1"));
    assert_eq!(fast_path_kernel_name(16), Some("claspr_fill_16"));
    assert_eq!(fast_path_kernel_name(0), None);
    assert_eq!(fast_path_kernel_name(12), None);
    for w in [1usize, 2, 4, 8, 16] {
        assert!(FILL_PROGRAM_SOURCE.contains(fast_path_kernel_name(w).unwrap()));
    }
    assert!(FILL_PROGRAM_SOURCE.contains(KERNEL_BYTES));
}

#[test]
fn narrow_patterns_are_kernel_arguments() {
    let mut ec = context(Script::new());
    let pattern = HostRef { id: 50, len: 1, bytes: 4 };
    let r = fill_via_kernel(&mut ec, MemRef::Buffer(7), pattern, 1000, &vec![3]);
    assert_eq!(r.unwrap(), 102);
    let (_, d) = ec.into_parts();
    assert_eq!(
        d.log,
        vec![
            (Command::FillProgram, vec![]),
            (Command::FillKernel { program: 100, width: 4 }, vec![]),
            (
                Command::RunFill {
                    kernel: 101,
                    data: MemRef::Buffer(7),
                    pattern,
                    count: 1000,
                    global: 1000,
                },
                vec![3],
            ),
        ]
    );
}

#[test]
fn wide_patterns_go_through_a_buffer() {
    let mut ec = context(Script::new());
    let pattern = HostRef { id: 50, len: 1, bytes: 12 };
    let r = fill_via_kernel(&mut ec, MemRef::Svm(7), pattern, 10, &vec![3]);
    assert_eq!(r.unwrap(), 104);
    let (_, d) = ec.into_parts();
    assert_eq!(
        d.log[1].0,
        Command::Alloc { class: Class::DeviceUninit, len: 12, bytes: 12, flags: 4, contents: Contents::Unwritten }
    );
    assert_eq!(
        d.log[2].0,
        Command::Write { mem: MemRef::Buffer(101), src: pattern, blocking: true }
    );
    assert_eq!(d.log[3].0, Command::FillKernel { program: 100, width: 0 });
    assert_eq!(
        d.log[4],
        (
            Command::RunFillBytes {
                kernel: 103,
                data: MemRef::Svm(7),
                pattern: 101,
                width: 12,
                count: 10,
                global: 10,
            },
            vec![3],
        )
    );
    assert_eq!(d.log[5].0, Command::Release { mem: MemRef::Buffer(101) });
    let mut ec = context(Script::with(vec![Ok(1), Ok(2), Ok(3), Ok(4), Err(-5)]));
    let r = fill_via_kernel(&mut ec, MemRef::Svm(7), pattern, 10, &vec![]);
    assert!(matches!(r, Err(Error::OpenCl(-5))));
    let (_, d) = ec.into_parts();
    assert_eq!(d.log[5].0, Command::Release { mem: MemRef::Buffer(2) });
}

#[test]
fn fills_beyond_the_kernels_counters_are_refused() {
    let mut ec = context(Script::new());
    let pattern = HostRef { id: 50, len: 1, bytes: 4 };
    let r = fill_via_kernel(&mut ec, MemRef::Buffer(7), pattern, 1 << 32, &vec![]);
    assert!(matches!(r, Err(Error::InvalidArgument("fill count exceeds u32::MAX"))));
    let wide = HostRef { id: 50, len: 1, bytes: 1 << 32 };
    let r = fill_via_kernel(&mut ec, MemRef::Buffer(7), wide, 1, &vec![]);
    assert!(matches!(r, Err(Error::InvalidArgument("fill pattern size exceeds u32::MAX"))));
    let r = fill_via_kernel(&mut ec, MemRef::Buffer(7), pattern, (1 << 32) - 1, &vec![]);
    assert!(r.is_ok());
    let mut ec = context(Script::with(vec![Ok(1), Err(-46)]));
    let r = fill_via_kernel(&mut ec, MemRef::Buffer(7), pattern, 1, &vec![]);
    assert!(matches!(r, Err(Error::OpenCl(-46))));
}

fn launch_of(o: Obj) -> KernelLaunch<(DeviceSlice<ReadWrite>, ByValue<u32>)> {
    KernelLaunch {
        kernel: 40,
        args: (slice(o.id, 8), ByValue(6u32)),
        grid: ([8usize], [4usize]).into_launch_spec(),
        deps: vec![2],
        outputs: vec![o],
    }
}

#[test]
fn kernel_launches_set_arguments_and_merge_their_waits() {
    let mut ec = context(Script::new());
    let (outs, ev) = launch_of(device(7)).enqueue_into(&mut ec, &vec![3]).unwrap();
    assert_eq!((outs, ev), (vec![device(7)], 103));
    let (_, d) = ec.into_parts();
    assert_eq!(d.log[0].0, Command::SetArg { kernel: 40, index: 0, value: ArgValue::Mem(7) });
    assert_eq!(d.log[1].0, Command::SetArg { kernel: 40, index: 1, value: ArgValue::Len(8) });
    assert_eq!(
        d.log[3],
        (
            Command::RunKernel {
                kernel: 40,
                dims: 1,
                global: Extent { x: 8, y: 0, z: 0 },
                with_local: true,
                local: Extent { x: 4, y: 0, z: 0 },
            },
            vec![2, 3],
        )
    );
    let mut ec = context(Script::with(vec![Ok(0), Err(-49)]));
    let r = launch_of(device(7)).enqueue_into(&mut ec, &vec![]);
    assert!(matches!(r, Err(Error::OpenCl(-49))));
}

#[test]
fn launches_fan_out_behind_one_marker() {
    let mut ec = context(Script::new());
    let f = fan_out(vec![device(7), device(8)], launch_of);
    let (outs, evs) = f.execute(&mut ec, &vec![9]).unwrap();
    assert_eq!(outs, vec![vec![device(7)], vec![device(8)]]);
    assert_eq!(evs, vec![108]);
    let (_, d) = ec.into_parts();
    assert_eq!(d.log[3].1, vec![2, 9]);
    assert_eq!(d.log[8], (Command::Marker, vec![103, 107]));
    let mut ec = context(Script::new());
    let none: Vec<Obj> = Vec::new();
    let (outs, _) = none.fan_out(launch_of).execute(&mut ec, &vec![9]).unwrap();
    assert!(outs.is_empty());
    assert_eq!(ec.into_parts().1.log, vec![(Command::Marker, vec![])]);
}

#[test]
fn fan_outs_of_fan_outs_join_twice() {
    let mut ec = context(Script::new());
    let f = fan_out(vec![7u64, 8], |id: u64| fan_out(vec![device(id), device(id + 10)], launch_of));
    let (outs, evs) = f.execute(&mut ec, &vec![]).unwrap();
    assert_eq!(outs.len(), 2);
    assert_eq!(outs[1], vec![vec![device(8)], vec![device(18)]]);
    let (_, d) = ec.into_parts();
    assert_eq!(d.log[8].0, Command::Marker);
    assert_eq!(d.log[17].0, Command::Marker);
    assert_eq!(d.log[18], (Command::Marker, vec![108, 117]));
    assert_eq!(evs, vec![118]);
}

fn as_it_is(op: DeviceOp) -> DeviceOp {
    op
}

#[test]
fn graphs_fan_out_behind_their_events() {
    let one = HostRef { id: 50, len: 1, bytes: 4 };
    let mut st = Store::new();
    let a = fill(&mut st, device(7), one);
    let b = fill(&mut st, device(8), one);
    let c = fill(&mut st, device(9), one);
    let bc = bundle(&mut st, vec![DeviceOp::Leaf(LeafOp::Fill(b)), DeviceOp::Leaf(LeafOp::Fill(c))]);
    let ops = vec![DeviceOp::Leaf(LeafOp::Fill(a)), DeviceOp::Bundle(Box::new(bc))];
    let mut ec = ExecutionContext::new(st, Script::new(), 9, 1, 20, vec![20], false, true);
    let (outs, evs) = fan_out(ops, as_it_is).execute(&mut ec, &vec![5, 6]).unwrap();
    assert_eq!(outs[0].value, vec![device(7)]);
    assert_eq!(outs[1].value, vec![device(8), device(9)]);
    let (_, d) = ec.into_parts();
    assert_eq!(d.log[0], (Command::Marker, vec![5, 6]));
    assert_eq!(d.log[1].1, vec![100]);
    assert_eq!(d.log[2], (Command::Marker, vec![5, 6]));
    assert_eq!((d.log[3].1.clone(), d.log[4].1.clone()), (vec![102], vec![102]));
    let last = d.log.last().unwrap();
    assert_eq!((last.0, last.1[0]), (Command::Marker, 101));
    assert_eq!(evs.len(), 1);
}

#[test]
fn mappings_hand_their_guard_out_once_done() {
    let mut ec = context(Script::new());
    let (host, ev) = map_buffer(&mut ec, 7, false, 3, 0, 32, &vec![1]).unwrap();
    assert_eq!((host, ev), (101, 100));
    let p = MapPending::new("guard", ev);
    assert_eq!(p.event(), 100);
    assert_eq!(p.wait(&mut ec).unwrap(), "guard");
    assert!(unmap_mem_object(&mut ec, 7, host, &vec![]).is_ok());
    assert!(svm_map(&mut ec, true, 1, 5, 16, &vec![]).is_ok());
    assert!(svm_unmap(&mut ec, 5, &vec![4]).is_ok());
    let (_, d) = ec.into_parts();
    assert_eq!(
        d.log[0],
        (Command::MapBuffer { mem: 7, blocking: false, flags: 3, offset: 0, size: 32 }, vec![1])
    );
    assert_eq!(d.log[1].0, Command::MappedAt { event: 100 });
    assert_eq!(d.log[2].0, Command::Wait { event: 100 });
    assert_eq!(d.log[3].0, Command::UnmapObject { mem: 7, host: 101 });
    assert_eq!(d.log[4].0, Command::SvmMap { ptr: 5, blocking: true, flags: 1, size: 16 });
    assert_eq!(d.log[5], (Command::SvmUnmap { ptr: 5 }, vec![4]));
    let mut ec = context(Script::with(vec![Err(-12)]));
    let r = MapPending::new(1, 2).wait(&mut ec);
    assert!(matches!(r, Err(Error::OpenCl(-12))));
}

#[test]
fn id_sets_stay_sorted() {
    let mut s = IdSet::new();
    for x in [5, 1, 9, 5, 3, 1] {
        s.insert(x);
    }
    assert_eq!(s.to_list(), vec![1, 3, 5, 9]);
    let mut t = IdSet::single(4);
    assert!(!s.meets(&t));
    t.insert_all(&s);
    assert_eq!(t.to_list(), vec![1, 3, 4, 5, 9]);
    assert!(s.meets(&t));
    assert_eq!(t.len(), 5);
    assert!(contains_id(&vec![2, 3], 3));
    assert!(!contains_id(&vec![], 3));
}
