use claspr::combinators::{arced, bundle};
use claspr::copies::eager_copy_to;
use claspr::entries::{forward, lift};
use claspr::error::Error;
use claspr::exec_ctx::{Driver, ExecMode, ExecutionContext};
use claspr::graph::{AndThen, AndThenHost, DeviceOp};
use claspr::ids::IdSet;
use claspr::leaf_op::LeafOp;
use claspr::leaves::fill;
use claspr::obj::{Class, Command, Extent, HostRef, MemRef, Obj, Recorded, Reply};
use claspr::slots::{SlotHandle, SlotTag};
use claspr::store::Store;
use claspr::terminals::sync;
use std::collections::VecDeque;

struct Script {
    replies: VecDeque<Reply>,
    next: u64,
    log: Vec<(Command, Vec<u64>)>,
    queues: Vec<u64>,
    host: Option<Error>,
}

impl Script {
    fn new() -> Script {
        Script { replies: VecDeque::new(), next: 100, log: Vec::new(), queues: Vec::new(), host: None }
    }

    fn with(replies: Vec<Reply>) -> Script {
        Script { replies: replies.into(), next: 100, log: Vec::new(), queues: Vec::new(), host: None }
    }
}

impl Driver for Script {
    fn issue(&mut self, queue: u64, command: Command, waits: &Vec<u64>) -> Reply {
        self.log.push((command, waits.clone()));
        self.queues.push(queue);
        match self.replies.pop_front() {
            Some(r) => r,
            None => {
                self.next += 1;
                Ok(self.next - 1)
            }
        }
    }

    fn take_host_error(&mut self) -> Option<Error> {
        self.host.take()
    }
}

fn obj(class: Class, id: u64, len: usize) -> Obj {
    Obj {
        class,
        id,
        ctx: 9,
        extent: Extent { x: len, y: 1, z: 1 },
        len,
        bytes: len * 4,
        shared: false,
    }
}

fn device(id: u64) -> Obj {
    obj(Class::Device, id, 8)
}

const ONE: HostRef = HostRef { id: 50, len: 1, bytes: 4 };

fn leaf(l: LeafOp) -> DeviceOp {
    DeviceOp::Leaf(l)
}

fn context(st: Store, d: Script) -> ExecutionContext<Script> {
    ExecutionContext::new(st, d, 9, 1, 20, vec![20], true, true)
}

/// Two fills of one buffer, run by a parent sequence with a non-recordable head.
fn two_fills(st: &mut Store, buf: Obj) -> DeviceOp {
    let a = fill(st, buf, ONE);
    let b = fill(st, a.out, ONE);
    let ab = AndThen::new(st, leaf(LeafOp::Fill(a)), leaf(LeafOp::Fill(b)));
    DeviceOp::AndThen(Box::new(ab))
}

/// The two fills as the source of a sequence, so that they run as a child.
fn child_chain(st: &mut Store) -> DeviceOp {
    let inner = two_fills(st, device(7));
    let out = inner.output_pipe().unwrap();
    let dl = claspr::leaves::download(st, out);
    let all = AndThen::new(st, inner, leaf(LeafOp::Download(dl)));
    DeviceOp::AndThen(Box::new(all))
}

fn commands(d: &Script) -> Vec<Command> {
    d.log.iter().map(|x| x.0).collect()
}

#[test]
fn a_recordable_child_is_built_kept_and_replayed() {
    let mut st = Store::new();
    let op = child_chain(&mut st);
    assert!(!op.cb_addable());
    assert_eq!(op.cbable_weight(), 2);
    let mut ec = context(st, Script::new());
    assert!(op.execute(&mut ec, ExecMode::Pipelined).is_ok());
    let out = op.output_pipe().unwrap();
    assert!(ec.take_home(&out).is_some());
    assert!(op.execute(&mut ec, ExecMode::Pipelined).is_ok());
    let mut ids = Vec::new();
    op.collect_cb_ids(ec.store(), &mut ids);
    assert_eq!(ids, vec![103]);
    let (_, d) = ec.into_parts();
    let fill = Recorded::Fill { mem: MemRef::Buffer(7), pattern: ONE, offset: 0, bytes: 32 };
    assert_eq!(
        commands(&d),
        vec![
            Command::OpenCb { queue: 1 },
            Command::Record { builder: 100, what: fill },
            Command::Record { builder: 100, what: fill },
            Command::FinalizeCb { builder: 100 },
            Command::EnqueueCb { cb: 103 },
            Command::HostAlloc { len: 8, bytes: 32 },
            Command::Read { mem: MemRef::Buffer(7), dst: 105, blocking: false },
            Command::EnqueueCb { cb: 103 },
            Command::HostAlloc { len: 8, bytes: 32 },
            Command::Read { mem: MemRef::Buffer(7), dst: 108, blocking: false },
        ]
    );
    assert_eq!(d.log[1].1, Vec::<u64>::new());
    assert_eq!(d.log[2].1, vec![101]);
    assert_eq!(d.log[6].1, vec![104]);
    assert_eq!(d.log[9].1, vec![107]);
}

#[test]
fn without_command_buffers_every_op_goes_to_the_queue() {
    let mut st = Store::new();
    let op = child_chain(&mut st);
    let mut ec = ExecutionContext::new(st, Script::new(), 9, 1, 20, vec![20], false, true);
    assert!(op.execute(&mut ec, ExecMode::Pipelined).is_ok());
    let (_, d) = ec.into_parts();
    assert!(matches!(d.log[0].0, Command::Fill { .. }));
    assert!(matches!(d.log[1].0, Command::Fill { .. }));
    assert_eq!(d.log[1].1, vec![100]);
}

#[test]
fn a_command_that_cannot_be_recorded_falls_back_to_the_queue() {
    let mut st = Store::new();
    let op = child_chain(&mut st);
    let mut ec = context(st, Script::with(vec![Ok(1), Ok(2), Err(-59), Err(-59)]));
    assert!(op.execute(&mut ec, ExecMode::Pipelined).is_ok());
    let mut ids = Vec::new();
    op.collect_cb_ids(ec.store(), &mut ids);
    assert!(ids.is_empty());
    let (_, d) = ec.into_parts();
    assert!(matches!(d.log[2].0, Command::Record { .. }));
    assert_eq!(d.log[3].0, Command::OpenCb { queue: 1 });
    assert!(matches!(d.log[4].0, Command::Fill { .. }));
    assert!(matches!(d.log[5].0, Command::Fill { .. }));
    assert_eq!(d.log[5].1, vec![100]);
}

#[test]
fn a_refused_builder_or_finish_falls_back_to_the_queue() {
    let mut st = Store::new();
    let op = child_chain(&mut st);
    let mut ec = context(st, Script::with(vec![Err(-59), Err(-59)]));
    assert!(op.execute(&mut ec, ExecMode::Pipelined).is_ok());
    assert!(matches!(ec.into_parts().1.log[2].0, Command::Fill { .. }));
    let mut st = Store::new();
    let op = child_chain(&mut st);
    let mut ec = context(st, Script::with(vec![Ok(1), Ok(2), Ok(3), Err(-59), Err(-59)]));
    assert!(op.execute(&mut ec, ExecMode::Pipelined).is_ok());
    let (_, d) = ec.into_parts();
    assert_eq!(d.log[3].0, Command::FinalizeCb { builder: 1 });
    assert_eq!(d.log[4].0, Command::OpenCb { queue: 1 });
    assert!(matches!(d.log[5].0, Command::Fill { .. }));
}

#[test]
fn a_refused_submission_is_an_error() {
    let mut st = Store::new();
    let op = child_chain(&mut st);
    let mut ec = context(st, Script::with(vec![Ok(1), Ok(2), Ok(3), Ok(4), Err(-36)]));
    assert!(matches!(op.execute(&mut ec, ExecMode::Pipelined), Err(Error::OpenCl(-36))));
}

#[test]
fn another_queue_builds_its_own_command_buffer() {
    let mut st = Store::new();
    let op = child_chain(&mut st);
    let mut ec = context(st, Script::new());
    assert!(op.execute(&mut ec, ExecMode::Pipelined).is_ok());
    ec.set_queue(2, 20);
    assert!(op.execute(&mut ec, ExecMode::Pipelined).is_ok());
    let (_, d) = ec.into_parts();
    let opened: Vec<Command> =
        commands(&d).into_iter().filter(|c| matches!(c, Command::OpenCb { .. })).collect();
    assert_eq!(opened, vec![Command::OpenCb { queue: 1 }, Command::OpenCb { queue: 2 }]);
}

#[test]
fn a_span_is_submitted_before_a_host_closure() {
    let mut st = Store::new();
    let inner = two_fills(&mut st, device(7));
    let third = fill(&mut st, inner.output_pipe().unwrap(), ONE);
    let pipe = third.out;
    let head = AndThen::new(&mut st, inner, leaf(LeafOp::Fill(third)));
    let fwd = claspr::leaves::download(&mut st, pipe);
    let chain =
        AndThen::new(&mut st, DeviceOp::AndThen(Box::new(head)), leaf(LeafOp::Download(fwd)));
    let op = DeviceOp::AndThen(Box::new(chain));
    assert!(op.cb_spine_head_addable());
    assert_eq!(op.cbable_weight(), 3);
    let mut ec = context(st, Script::new());
    let g = op.gather_checkouts(&mut ec, ExecMode::Pipelined).unwrap();
    assert_eq!(g.outs.len(), 1);
    let (_, d) = ec.into_parts();
    let c = commands(&d);
    assert_eq!(c[0], Command::OpenCb { queue: 1 });
    assert!(matches!(c[1], Command::Record { .. }));
    assert!(matches!(c[3], Command::Record { .. }));
    assert_eq!(c[4], Command::FinalizeCb { builder: 100 });
    assert_eq!(c[5], Command::EnqueueCb { cb: 104 });
    assert_eq!(c[6], Command::HostAlloc { len: 8, bytes: 32 });
    assert_eq!(d.log[7].1, vec![105]);
    assert_eq!(c.len(), 8);
}

#[test]
fn a_host_closure_breaks_the_graph_into_command_buffers() {
    let mut st = Store::new();
    let inner = two_fills(&mut st, device(7));
    let h = AndThenHost::new(&mut st, inner, 5);
    let op = DeviceOp::Host(Box::new(h));
    assert!(!op.cb_addable());
    let mut ec = context(st, Script::new());
    assert!(op.execute(&mut ec, ExecMode::Pipelined).is_ok());
    let (_, d) = ec.into_parts();
    let c = commands(&d);
    assert_eq!(c[4], Command::EnqueueCb { cb: 103 });
    assert_eq!(c[5], Command::MapMem { mem: MemRef::Buffer(7), writable: true });
    assert_eq!(d.log[5].1, vec![104]);
}

#[test]
fn bundles_of_recordable_ops_become_one_command_buffer() {
    let mut st = Store::new();
    let a = fill(&mut st, device(7), ONE);
    let b = fill(&mut st, device(8), ONE);
    let n = bundle(&mut st, vec![leaf(LeafOp::Fill(a)), leaf(LeafOp::Fill(b))]);
    let op = DeviceOp::Bundle(Box::new(n));
    let outs = op.pipes();
    let mut ec = context(st, Script::new());
    assert!(op.execute(&mut ec, ExecMode::Pipelined).is_ok());
    for p in &outs {
        assert_eq!(ec.take_home(p).unwrap().deps, vec![104]);
    }
    let (_, d) = ec.into_parts();
    assert_eq!(commands(&d)[0], Command::OpenCb { queue: 1 });
    assert_eq!(commands(&d)[4], Command::EnqueueCb { cb: 103 });
}

fn target(o: Obj) -> SlotTag<Obj> {
    SlotTag { key: 1, name: "Target", value: o, source: None }
}

/// A copy into a slot, then a fill of the copy, run as a child.
fn slot_chain(st: &mut Store) -> DeviceOp {
    let slot = SlotHandle::new(st, 1, "Target");
    let c = eager_copy_to(st, device(7), slot);
    let f = fill(st, c.dst_pipe, ONE);
    let out = f.out;
    let inner = AndThen::new(st, leaf(LeafOp::CopyTo2(c)), leaf(LeafOp::Fill(f)));
    let dl = claspr::leaves::download(st, out);
    let all = AndThen::new(st, DeviceOp::AndThen(Box::new(inner)), leaf(LeafOp::Download(dl)));
    DeviceOp::AndThen(Box::new(all))
}

#[test]
fn changing_a_slot_drops_the_command_buffers_that_captured_it() {
    let mut st = Store::new();
    let op = slot_chain(&mut st);
    assert!(op.bind(&mut st, target(device(8))).is_ok());
    let mut ec = context(st, Script::new());
    assert!(op.execute(&mut ec, ExecMode::Pipelined).is_ok());
    let mut ids = Vec::new();
    op.collect_cb_ids(ec.store(), &mut ids);
    assert_eq!(ids.len(), 1);
    assert!(op.mutate_bind(ec.store_mut(), target(device(9))).is_ok());
    let mut ids = Vec::new();
    op.collect_cb_ids(ec.store(), &mut ids);
    assert!(ids.is_empty());
    let (_, d) = ec.into_parts();
    assert_eq!(
        d.log[1].0,
        Command::Record {
            builder: 100,
            what: Recorded::Copy { src: MemRef::Buffer(7), dst: MemRef::Buffer(8), bytes: 32 },
        }
    );
}

#[test]
fn invalidation_is_by_captured_slot() {
    let mut st = Store::new();
    let op = child_chain(&mut st);
    let mut ec = context(st, Script::new());
    assert!(op.execute(&mut ec, ExecMode::Pipelined).is_ok());
    let mut other = IdSet::new();
    other.insert(77);
    op.invalidate_cbs(ec.store_mut(), &other);
    let mut ids = Vec::new();
    op.collect_cb_ids(ec.store(), &mut ids);
    assert_eq!(ids, vec![103]);
}

#[test]
fn after_a_refused_span_its_parts_may_still_be_recorded() {
    let mut st = Store::new();
    let op = child_chain(&mut st);
    let mut ec = context(st, Script::with(vec![Err(-59)]));
    assert!(op.execute(&mut ec, ExecMode::Pipelined).is_ok());
    let mut ids = Vec::new();
    op.collect_cb_ids(ec.store(), &mut ids);
    assert_eq!(ids.len(), 1);
    let (_, d) = ec.into_parts();
    assert_eq!(d.log[1].0, Command::OpenCb { queue: 1 });
    assert!(matches!(d.log[5].0, Command::EnqueueCb { .. }));
}

#[test]
fn a_transfer_behind_an_unusable_command_buffer_runs_once() {
    let mut st = Store::new();
    let op = child_chain(&mut st);
    let mut ec = context(st, Script::with(vec![Ok(1), Err(-59), Ok(2), Err(-59)]));
    assert!(op.execute(&mut ec, ExecMode::Pipelined).is_ok());
    let (_, d) = ec.into_parts();
    let all = commands(&d);
    assert_eq!(all.iter().filter(|c| matches!(c, Command::Read { .. })).count(), 1);
    assert_eq!(all.iter().filter(|c| matches!(c, Command::Fill { .. })).count(), 2);
    assert!(!all.iter().any(|c| matches!(c, Command::EnqueueCb { .. } | Command::FinalizeCb { .. })));
}

#[test]
fn what_follows_a_closed_span_waits_on_its_last_op() {
    let mut st = Store::new();
    let inner = child_chain(&mut st);
    let shared = arced(&mut st, inner);
    let last = forward(&mut st, shared.out);
    let out = last.out;
    let all = AndThen::new(&mut st, DeviceOp::Arced(Box::new(shared)), leaf(LeafOp::Forward(last)));
    let op = DeviceOp::AndThen(Box::new(all));
    let mut ec = context(st, Script::new());
    assert!(op.execute(&mut ec, ExecMode::Pipelined).is_ok());
    let p = ec.take_home(&out).unwrap();
    assert_eq!(p.deps, vec![106]);
    let (_, d) = ec.into_parts();
    assert_eq!(d.log[4].0, Command::EnqueueCb { cb: 103 });
    assert_eq!(d.log[6].1, vec![104]);
}

#[test]
fn an_empty_span_adds_what_it_met_to_what_follows() {
    let mut st = Store::new();
    let f = lift(&mut st, device(7));
    let dl = claspr::leaves::download(&mut st, f.out);
    let head = AndThen::new(&mut st, leaf(LeafOp::Lift(f)), leaf(LeafOp::Download(dl)));
    let tail = two_fills(&mut st, device(8));
    let all = AndThen::new(&mut st, DeviceOp::AndThen(Box::new(head)), tail);
    let op = DeviceOp::AndThen(Box::new(all));
    let out = op.output_pipe().unwrap();
    let mut ec = context(st, Script::new());
    assert!(op.execute(&mut ec, ExecMode::Pipelined).is_ok());
    let p = ec.take_home(&out).unwrap();
    let (_, d) = ec.into_parts();
    let all = commands(&d);
    assert!(matches!(all[0], Command::OpenCb { .. }));
    assert!(matches!(all[2], Command::Read { .. }));
    assert_eq!(all.iter().filter(|c| matches!(c, Command::EnqueueCb { .. })).count(), 1);
    assert_eq!(p.deps, vec![107, 102]);
}

#[test]
fn a_given_up_command_buffer_leaves_its_inputs_in_place() {
    let mut st = Store::new();
    let up = claspr::seeds::upload(&mut st, HostRef { id: 51, len: 8, bytes: 32 });
    let a = fill(&mut st, up.seed.out, ONE);
    let b = fill(&mut st, a.out, ONE);
    let ab = AndThen::new(&mut st, leaf(LeafOp::Fill(a)), leaf(LeafOp::Fill(b)));
    let all = AndThen::new(&mut st, leaf(LeafOp::Upload(up)), DeviceOp::AndThen(Box::new(ab)));
    let op = DeviceOp::AndThen(Box::new(all));
    let out = op.output_pipe().unwrap();
    let mut ec = context(st, Script::with(vec![Ok(1), Ok(2), Err(-59)]));
    assert!(op.execute(&mut ec, ExecMode::Pipelined).is_ok());
    let p = ec.take_home(&out).unwrap();
    assert_eq!(p.value[0].id, 1);
    let (_, d) = ec.into_parts();
    let all = commands(&d);
    assert!(matches!(all[2], Command::Record { .. }));
    assert!(matches!(all[3], Command::Record { .. }));
    assert!(matches!(all[4], Command::Fill { mem: MemRef::Buffer(1), .. }));
    assert!(matches!(all[5], Command::Fill { mem: MemRef::Buffer(1), .. }));
    assert_eq!(all.len(), 6);
}

#[test]
fn a_given_up_command_buffer_keeps_unwritten_inputs() {
    let mut st = Store::new();
    let a = claspr::leaves::fill_mapped_uninit(&mut st, obj(Class::MappedUninit, 7, 8), ONE);
    let b = claspr::leaves::fill_mapped(&mut st, a.out, ONE);
    let ab = AndThen::new(&mut st, leaf(LeafOp::FillMappedUninit(a)), leaf(LeafOp::FillMapped(b)));
    let dl = claspr::leaves::download(&mut st, b.out);
    let all = AndThen::new(&mut st, DeviceOp::AndThen(Box::new(ab)), leaf(LeafOp::Download(dl)));
    let op = DeviceOp::AndThen(Box::new(all));
    let mut ec = context(st, Script::with(vec![Ok(1), Err(-59), Ok(2), Ok(3), Err(-59)]));
    assert!(op.execute(&mut ec, ExecMode::Pipelined).is_ok());
    let (_, d) = ec.into_parts();
    let fills = commands(&d).iter().filter(|c| matches!(c, Command::Fill { .. })).count();
    assert_eq!(fills, 2);
}

#[test]
fn sync_points_stay_inside_their_command_buffer() {
    let mut st = Store::new();
    let first = two_fills(&mut st, device(7));
    let p = first.output_pipe().unwrap();
    let w = claspr::leaves::write(&mut st, device(9), HostRef { id: 51, len: 8, bytes: 32 });
    let a = fill(&mut st, p, ONE);
    let b = fill(&mut st, a.out, ONE);
    let ab = AndThen::new(&mut st, leaf(LeafOp::Fill(a)), leaf(LeafOp::Fill(b)));
    let rest = AndThen::new(&mut st, leaf(LeafOp::WriteDevice(w)), DeviceOp::AndThen(Box::new(ab)));
    let all = AndThen::new(&mut st, first, DeviceOp::AndThen(Box::new(rest)));
    let op = DeviceOp::AndThen(Box::new(all));
    let mut ec = context(st, Script::new());
    assert!(op.execute(&mut ec, ExecMode::Pipelined).is_ok());
    let (_, d) = ec.into_parts();
    let records: Vec<Vec<u64>> = d
        .log
        .iter()
        .filter(|x| matches!(x.0, Command::Record { .. }))
        .map(|x| x.1.clone())
        .collect();
    assert_eq!(records.len(), 4);
    assert_eq!((records[0].len(), records[1].len()), (0, 1));
    assert_eq!((records[2].len(), records[3].len()), (0, 1));
    let submitted: Vec<Vec<u64>> = d
        .log
        .iter()
        .filter(|x| matches!(x.0, Command::EnqueueCb { .. }))
        .map(|x| x.1.clone())
        .collect();
    assert_eq!(submitted, vec![vec![], vec![104]]);
}

#[test]
fn graphs_run_again_once_their_outputs_are_back() {
    for has_cb in [false, true] {
        let mut st = Store::new();
        let op = two_fills(&mut st, device(7));
        let mut ec = ExecutionContext::new(st, Script::new(), 9, 1, 20, vec![20], has_cb, true);
        for _ in 0..3 {
            let outs = sync(&op, &mut ec).unwrap();
            assert_eq!((outs.len(), outs[0].value[0]), (1, device(7)));
            assert!(sync(&op, &mut ec).is_err());
            ec.rehome(outs[0].home, &outs[0].value);
        }
    }
}
