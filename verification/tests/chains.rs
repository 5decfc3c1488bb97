use claspr::chain::{run_eager_chain, ChainPoll, DeviceChainFuture};
use claspr::error::Error;
use claspr::exec_ctx::{Driver, ExecMode, ExecutionContext};
use claspr::future::{EventFuture, EventFutureExt, EventPoll, LaunchFuture, PollStart};
use claspr::graph::{AndThen, AndThenHost, AndThenHostWithContext, DeviceOp};
use claspr::host::{
    closure_report, event_is_cancelled, run_host_worker, worker_end_commands, worker_start, ClosureEnd,
    HostErrorSlot, WorkerReport, WorkerStep,
};
use claspr::leaf_op::LeafOp;
use claspr::leaves::{download, fill, read_into, Fill};
use claspr::obj::{Class, Command, Extent, HostRef, MemRef, Obj, Reply};
use claspr::store::Store;
use claspr::terminals::sync;
use std::collections::VecDeque;

struct Script {
    replies: VecDeque<Reply>,
    next: u64,
    log: Vec<(Command, Vec<u64>)>,
    queues: Vec<u64>,
    host: Option<Error>,
}

impl Script {
    fn new() -> Script {
        Script { replies: VecDeque::new(), next: 100, log: Vec::new(), queues: Vec::new(), host: None }
    }

    fn with(replies: Vec<Reply>) -> Script {
        Script { replies: replies.into(), next: 100, log: Vec::new(), queues: Vec::new(), host: None }
    }
}

impl Driver for Script {
    fn issue(&mut self, queue: u64, command: Command, waits: &Vec<u64>) -> Reply {
        self.log.push((command, waits.clone()));
        self.queues.push(queue);
        match self.replies.pop_front() {
            Some(r) => r,
            None => {
                self.next += 1;
                Ok(self.next - 1)
            }
        }
    }

    fn take_host_error(&mut self) -> Option<Error> {
        self.host.take()
    }
}

fn obj(class: Class, id: u64, len: usize) -> Obj {
    Obj {
        class,
        id,
        ctx: 9,
        extent: Extent { x: len, y: 1, z: 1 },
        len,
        bytes: len * 4,
        shared: false,
    }
}

fn device(id: u64) -> Obj {
    obj(Class::Device, id, 8)
}

const ONE: HostRef = HostRef { id: 50, len: 1, bytes: 4 };

fn leaf(l: LeafOp) -> DeviceOp {
    DeviceOp::Leaf(l)
}

fn context(st: Store, d: Script) -> ExecutionContext<Script> {
    ExecutionContext::new(st, d, 9, 1, 20, vec![20], false, true)
}

fn commands(d: &Script) -> Vec<Command> {
    d.log.iter().map(|x| x.0).collect()
}

fn host_graph(st: &mut Store) -> (DeviceOp, Fill) {
    let f = fill(st, device(7), ONE);
    let h = AndThenHost::new(st, leaf(LeafOp::Fill(f)), 5);
    (DeviceOp::Host(Box::new(h)), f)
}

#[test]
fn a_device_graph_starts_without_a_barrier() {
    let mut st = Store::new();
    let f = fill(&mut st, device(7), ONE);
    let op = leaf(LeafOp::Fill(f));
    let mut ec = context(st, Script::new());
    let fut = run_eager_chain(&op, &mut ec);
    let DeviceChainFuture::Running { output, event_future } = fut else { panic!("running") };
    assert_eq!(output, Some(vec![device(7)]));
    assert_eq!(event_future.event(), 102);
    assert_eq!(ec.cl_queue(), 100);
    let (_, d) = ec.into_parts();
    assert_eq!(
        commands(&d),
        vec![
            Command::Queue { device: 20 },
            Command::Fill { mem: MemRef::Buffer(7), pattern: ONE, bytes: 32 },
            Command::Marker,
            Command::Flush,
        ]
    );
    assert_eq!(d.log[2].1, vec![101]);
}

#[test]
fn a_host_graph_runs_behind_a_barrier() {
    let mut st = Store::new();
    let (op, _) = host_graph(&mut st);
    let mut ec = context(st, Script::new());
    let fut = run_eager_chain(&op, &mut ec);
    assert!(matches!(fut, DeviceChainFuture::Running { .. }));
    let (_, d) = ec.into_parts();
    assert_eq!(
        commands(&d),
        vec![
            Command::Queue { device: 20 },
            Command::UserEvent,
            Command::Fill { mem: MemRef::Buffer(7), pattern: ONE, bytes: 32 },
            Command::MapMem { mem: MemRef::Buffer(7), writable: true },
            Command::UserEvent,
            Command::UserEvent,
            Command::UnmapMem { mem: MemRef::Buffer(7) },
            Command::Worker { closure: 5, with_context: false, fire: 104, proceed: 105, sources: 1 },
            Command::Marker,
            Command::Complete { event: 101, status: 0 },
            Command::Flush,
        ]
    );
    assert_eq!(d.log[2].1, vec![101]);
    assert_eq!(d.log[3].1, vec![102]);
    assert_eq!(d.log[6].1, vec![104]);
    assert_eq!(d.log[7].1, vec![102, 103]);
    assert_eq!(d.log[8].1, vec![106, 105]);
}

#[test]
fn a_failure_opens_the_barrier_and_winds_the_run_down() {
    let mut st = Store::new();
    let (op, f) = host_graph(&mut st);
    let second = fill(&mut st, device(8), ONE);
    let chain = AndThen::new(&mut st, op, leaf(LeafOp::Fill(second)));
    let op = DeviceOp::AndThen(Box::new(chain));
    let _ = f;
    let mut replies: Vec<Reply> = (1..9).map(Ok).collect();
    replies.push(Err(-6));
    let mut d = Script::with(replies);
    d.host = Some(Error::HostPanic("boom".to_string()));
    let mut ec = context(st, d);
    let mut fut = run_eager_chain(&op, &mut ec);
    let r = fut.poll(EventPoll::Pending, &mut ec);
    assert!(matches!(r, ChainPoll::Ready(Err(Error::HostPanic(m))) if m == "boom"));
    let (_, d) = ec.into_parts();
    let c = commands(&d);
    assert_eq!(
        &c[9..],
        &[
            Command::Complete { event: 2, status: 0 },
            Command::Join { worker: 8 },
            Command::InvalidateQueue { device: 20 },
        ]
    );
}

#[test]
fn a_refused_marker_or_flush_winds_down_too() {
    for (at, code) in [(2usize, -5), (3usize, -36)] {
        let mut st = Store::new();
        let f = fill(&mut st, device(7), ONE);
        let op = leaf(LeafOp::Fill(f));
        let mut replies: Vec<Reply> = (1..=at as u64).map(Ok).collect();
        replies.push(Err(code));
        let mut ec = context(st, Script::with(replies));
        let fut = run_eager_chain(&op, &mut ec);
        assert!(matches!(fut, DeviceChainFuture::Errored(Some(Error::OpenCl(c))) if c == code));
        let (_, d) = ec.into_parts();
        assert_eq!(commands(&d).last(), Some(&Command::InvalidateQueue { device: 20 }));
    }
}

#[test]
fn a_graph_that_is_not_ready_is_refused_whole() {
    let mut st = Store::new();
    let f = fill(&mut st, device(7), ONE);
    let op = leaf(LeafOp::Fill(f));
    let mut ec = context(st, Script::new());
    assert!(op.execute(&mut ec, ExecMode::Pipelined).is_ok());
    let fut = run_eager_chain(&op, &mut ec);
    assert!(matches!(fut, DeviceChainFuture::Errored(Some(Error::NotSupported(_)))));
    assert!(sync(&op, &mut ec).is_err());
    assert_eq!(ec.into_parts().1.log.len(), 1);
}

#[test]
fn a_refused_queue_or_barrier_is_an_error() {
    let mut st = Store::new();
    let (op, _) = host_graph(&mut st);
    let mut ec = context(st, Script::with(vec![Err(-33)]));
    assert!(matches!(
        run_eager_chain(&op, &mut ec),
        DeviceChainFuture::Errored(Some(Error::OpenCl(-33)))
    ));
    let mut st = Store::new();
    let (op, _) = host_graph(&mut st);
    let mut ec = context(st, Script::with(vec![Ok(1), Err(-6)]));
    assert!(matches!(
        run_eager_chain(&op, &mut ec),
        DeviceChainFuture::Errored(Some(Error::OpenCl(-6)))
    ));
    assert_eq!(ec.into_parts().1.log[2].0, Command::InvalidateQueue { device: 20 });
}

#[test]
fn polling_prefers_the_error_of_a_host_closure() {
    let mut st = Store::new();
    let f = fill(&mut st, device(7), ONE);
    let op = leaf(LeafOp::Fill(f));
    let mut d = Script::new();
    d.host = Some(Error::InvalidArgument("host"));
    let mut ec = context(st, d);
    let mut fut = run_eager_chain(&op, &mut ec);
    assert!(matches!(fut.poll(EventPoll::Pending, &mut ec), ChainPoll::Pending));
    let r = fut.poll(EventPoll::Ready(Ok(())), &mut ec);
    assert!(matches!(r, ChainPoll::Ready(Err(Error::InvalidArgument("host")))));
    let r = fut.poll(EventPoll::Ready(Ok(())), &mut ec);
    assert!(matches!(r, ChainPoll::Ready(Ok(v)) if v == vec![device(7)]));
    assert!(matches!(fut, DeviceChainFuture::Running { output: None, .. }));
}

#[test]
fn polling_reports_the_event_otherwise() {
    let mut st = Store::new();
    let f = fill(&mut st, device(7), ONE);
    let op = leaf(LeafOp::Fill(f));
    let mut ec = context(st, Script::new());
    let mut fut = run_eager_chain(&op, &mut ec);
    let r = fut.poll(EventPoll::Ready(Err(Error::OpenCl(-14))), &mut ec);
    assert!(matches!(r, ChainPoll::Ready(Err(Error::OpenCl(-14)))));
}

#[test]
fn a_seam_whose_unmap_is_refused_aborts_both_events() {
    let mut st = Store::new();
    let f = fill(&mut st, device(7), ONE);
    let h = AndThenHostWithContext::new(&mut st, leaf(LeafOp::Fill(f)), 5);
    let op = DeviceOp::HostWithContext(Box::new(h));
    let mut ec = context(st, Script::with(vec![Ok(1), Ok(2), Ok(3), Ok(4), Err(-30)]));
    assert!(matches!(op.execute(&mut ec, ExecMode::Pipelined), Err(Error::OpenCl(-30))));
    let (_, d) = ec.into_parts();
    assert_eq!(
        &commands(&d)[5..],
        &[
            Command::Complete { event: 3, status: -1 },
            Command::Complete { event: 4, status: -1 },
        ]
    );
}

#[test]
fn a_seam_hands_its_values_on_with_their_homes() {
    let mut st = Store::new();
    let f = fill(&mut st, device(7), ONE);
    let h = AndThenHostWithContext::new(&mut st, leaf(LeafOp::Fill(f)), 5);
    let out = h.handle[0];
    let op = DeviceOp::HostWithContext(Box::new(h));
    let mut ec = context(st, Script::new());
    assert!(op.execute(&mut ec, ExecMode::Pipelined).is_ok());
    let p = ec.take_home(&out).unwrap();
    assert_eq!(p.value, vec![device(7)]);
    assert_eq!(p.deps, vec![104, 103]);
    assert!(p.home.is_some());
    let (_, d) = ec.into_parts();
    assert!(matches!(d.log[5].0, Command::Worker { with_context: true, sources: 1, .. }));
}

#[test]
fn waiting_terminals_check_for_host_errors() {
    let mut st = Store::new();
    let (op, f) = host_graph(&mut st);
    let mut d = Script::new();
    d.host = Some(Error::HostPanic("late".to_string()));
    let mut ec = context(st, d);
    let r = sync(&op, &mut ec);
    assert!(matches!(r, Err(Error::HostPanic(m)) if m == "late"));
    let claspr::input::Input::Concrete(c) = f.buf else { panic!("concrete") };
    assert_eq!(ec.store().held(c), Some(device(7)));
    let r = sync(&op, &mut ec).unwrap();
    assert_eq!(r.len(), 1);
    assert_eq!(ec.store().held(c), None);
    let (_, d) = ec.into_parts();
    assert!(commands(&d).contains(&Command::Complete { event: 100, status: 0 }));
}

#[test]
fn concrete_ops_wait_and_submit_on_their_own() {
    let mut st = Store::new();
    let f = fill(&mut st, device(7), ONE);
    let mut ec = context(st, Script::new());
    assert_eq!(f.wait(&mut ec).unwrap(), vec![device(7)]);
    let (_, d) = ec.into_parts();
    assert_eq!(commands(&d)[1], Command::Wait { event: 100 });
    let mut st = Store::new();
    let f = fill(&mut st, device(7), ONE);
    let mut ec = context(st, Script::new());
    assert_eq!(f.submit(&mut ec).unwrap(), 102);
    let (_, d) = ec.into_parts();
    assert_eq!(d.log[2], (Command::Marker, vec![101]));
    let mut st = Store::new();
    let f = download(&mut st, device(7));
    let mut ec = context(st, Script::new());
    let (v, ev) = f.submit(&mut ec).unwrap();
    assert_eq!((v[0].class, ev), (Class::Host, 103));
}

#[test]
fn piped_ops_have_no_terminal_of_their_own() {
    let mut st = Store::new();
    let p = st.pipe();
    let f = read_into(&mut st, p, 60);
    let m = claspr::leaves::fill_mapped(&mut st, p, ONE);
    let mut ec = context(st, Script::new());
    assert!(matches!(f.wait(&mut ec), Err(Error::NotSupported(t)) if t.contains("pipe-fed buffer op")));
    assert!(matches!(m.submit(&mut ec), Err(Error::NotSupported(t)) if t.contains("pipe-fed SVM op")));
    assert!(ec.into_parts().1.log.is_empty());
}

#[test]
fn workers_stop_on_cancelled_events() {
    assert!(event_is_cancelled(&Ok(-14)));
    assert!(!event_is_cancelled(&Ok(0)));
    assert!(!event_is_cancelled(&Err(-58)));
    assert!(matches!(worker_start(0, 0), WorkerStep::Call));
    let s = worker_start(1, 2);
    assert!(matches!(s, WorkerStep::Source(0)));
    let s = run_host_worker(s, Ok(0), 1, 2);
    assert!(matches!(s, WorkerStep::Mapping(0)));
    let s = run_host_worker(s, Err(-58), 1, 2);
    assert!(matches!(s, WorkerStep::Mapping(1)));
    let s = run_host_worker(s, Ok(-5), 1, 2);
    assert!(matches!(
        s,
        WorkerStep::Stop(WorkerReport { status: -1, error: Some(Error::OpenCl(-5)) })
    ));
    let s = run_host_worker(worker_start(1, 0), Ok(-5), 1, 0);
    assert!(matches!(s, WorkerStep::Stop(WorkerReport { status: -1, error: None })));
    let s = run_host_worker(worker_start(1, 0), Ok(0), 1, 0);
    assert!(matches!(s, WorkerStep::Call));
}

#[test]
fn closures_end_in_reports() {
    let r = closure_report(ClosureEnd::Done);
    assert!(matches!(r, WorkerReport { status: 0, error: None }));
    let r = closure_report(ClosureEnd::Failed(Error::SvmNotAvailable));
    assert!(matches!(r, WorkerReport { status: -1, error: Some(Error::SvmNotAvailable) }));
    let r = closure_report(ClosureEnd::PanickedWith("x".to_string()));
    assert!(matches!(r.error, Some(Error::HostPanic(m)) if m == "x"));
    let r = closure_report(ClosureEnd::Panicked);
    assert!(matches!(r.error, Some(Error::HostPanic(m)) if m == "non-string panic payload"));
    assert_eq!(
        worker_end_commands(3, 4, -1),
        vec![
            Command::Complete { event: 3, status: 0 },
            Command::Complete { event: 4, status: -1 },
        ]
    );
}

#[test]
fn the_first_host_error_stays() {
    let mut s = HostErrorSlot::new();
    assert!(s.take().is_none());
    s.offer(Error::OpenCl(-1));
    s.offer(Error::OpenCl(-2));
    assert!(matches!(s.take(), Some(Error::OpenCl(-1))));
    assert!(s.take().is_none());
}

#[test]
fn event_futures_register_once() {
    let mut f: EventFuture = 7u64.into_future();
    assert_eq!(f.event(), 7);
    assert_eq!(f.poll_start(true), PollStart::Done);
    assert_eq!(f.poll_start(false), PollStart::Watch { register: true });
    let r = f.poll_watch(Some(Err(-5)), false);
    assert!(matches!(r, EventPoll::Ready(Err(Error::OpenCl(-5)))));
    assert_eq!(f.poll_start(false), PollStart::Watch { register: true });
    assert!(matches!(f.poll_watch(Some(Ok(())), false), EventPoll::Pending));
    assert_eq!(f.poll_start(false), PollStart::Watch { register: false });
    assert!(matches!(f.poll_watch(None, true), EventPoll::Ready(Ok(()))));
}

#[test]
fn launch_futures_carry_the_first_failure() {
    let mut f = LaunchFuture::start(Err(Error::SvmNotAvailable), Ok(()));
    assert!(matches!(f.take_error(), Some(Error::SvmNotAvailable)));
    assert!(f.take_error().is_none());
    let mut f = LaunchFuture::start(Ok(3), Err(-36));
    assert!(matches!(f.take_error(), Some(Error::OpenCl(-36))));
    let mut f = LaunchFuture::start(Ok(3), Ok(()));
    assert!(f.take_error().is_none());
    assert!(matches!(f, LaunchFuture::Running(e) if e.event() == 3));
}

#[test]
fn what_nobody_took_goes_back_home() {
    let mut st = Store::new();
    let a = fill(&mut st, device(7), ONE);
    let b = fill(&mut st, device(8), ONE);
    let both = claspr::combinators::bundle(&mut st, vec![leaf(LeafOp::Fill(a)), leaf(LeafOp::Fill(b))]);
    let dl = download(&mut st, a.out);
    let all = AndThen::new(&mut st, DeviceOp::Bundle(Box::new(both)), leaf(LeafOp::Download(dl)));
    let op = DeviceOp::AndThen(Box::new(all));
    let mut ec = context(st, Script::new());
    for _ in 0..2 {
        let outs = sync(&op, &mut ec).unwrap();
        assert_eq!(outs.len(), 1);
        let claspr::input::Input::Concrete(c) = b.buf else { panic!("concrete") };
        assert_eq!(ec.store().held(c), Some(device(8)));
    }
}
