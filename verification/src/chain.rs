//! Running a whole graph: the start barrier, the final marker, and what the caller
//! gets.

use crate::error::{Error, OpResult};
use crate::exec_ctx::{kept, Driver, ExecMode, ExecutionContext, Walk};
use crate::future::{EventFuture, EventPoll};
use crate::graph::{devices_of, ready_of, seam_of, DeviceOp};
use crate::host::CL_COMPLETE;
use crate::leaf::no_deps;
use crate::obj::{Command, Obj, Reply};
use crate::store::{Parcel, ParcelView};
use crate::walk::{collects_of, parcel_view, passes};
use vstd::prelude::*;

verus! {

/// A graph that runs in the background.
pub enum DeviceChainFuture {
    /// It could not be started, or failed while it was enqueued; the error is
    /// handed out once.
    Errored(Option<Error>),
    /// All of it is enqueued; the output is handed out once the event has
    /// finished.
    Running { output: Option<Vec<Obj>>, event_future: EventFuture },
}

/// What starting a graph came to, as plain values.
pub enum ChainStart {
    Errored(Error),
    Running { output: Seq<Obj>, event: u64 },
}

/// Whether a future is what starting a graph came to.
pub open spec fn starts_as(f: DeviceChainFuture, s: ChainStart) -> bool {
    match s {
        ChainStart::Errored(e) => f == DeviceChainFuture::Errored(Some(e)),
        ChainStart::Running { output, event } => f matches DeviceChainFuture::Running {
            output: o,
            event_future: ef,
        } && (o matches Some(v) && v@ == output) && ef.event_spec() == event && !ef.is_registered(),
    }
}

/// Opening the start barrier of a run, where it has one.
pub open spec fn releases(pre: Walk, post: Walk) -> bool {
    match pre.start {
        None => post == pre,
        Some(ev) => exists|x: Reply|
            post == #[trigger] pre.issued(
                Command::Complete { event: ev, status: CL_COMPLETE },
                Seq::empty(),
                x,
            ),
    }
}

/// Waiting for host workers to end, from index `i` on.
pub open spec fn joins_from(workers: Seq<u64>, i: nat, pre: Walk, post: Walk) -> bool
    decreases workers.len() - i,
{
    if i >= workers.len() {
        post == pre
    } else {
        exists|x: Reply|
            joins_from(
                workers,
                i + 1,
                #[trigger] pre.issued(Command::Join { worker: workers[i as int] }, Seq::empty(), x),
                post,
            )
    }
}

/// Waiting for all host workers of a run to end.
pub open spec fn joins(pre: Walk, post: Walk) -> bool {
    joins_from(pre.workers, 0, Walk { workers: Seq::empty(), ..pre }, post)
}

/// Forgetting the queue of a run that failed.
pub open spec fn forgets_queue(pre: Walk, post: Walk) -> bool {
    exists|x: Reply|
        post == #[trigger] pre.issued(
            Command::InvalidateQueue { device: pre.device },
            Seq::empty(),
            x,
        )
}

/// Winding a failed run down once its barrier is open: the host workers end and the
/// queue is forgotten.
pub open spec fn winds_down(pre: Walk, post: Walk) -> bool {
    exists|m: Walk| #[trigger] passes(m, ()) && joins(pre, m) && forgets_queue(m, post)
}

/// The error of a failed run: that of a host closure before any other.
pub open spec fn preferred(host: Option<Error>, e: Error) -> Error {
    match host {
        Some(h) => h,
        None => e,
    }
}

/// Starting a graph: what is not ready is refused before anything is enqueued;
/// else the graph runs on the queue of the device.
pub open spec fn chain_starts(op: DeviceOp, pre: Walk, post: Walk, res: ChainStart) -> bool {
    match ready_of(op, pre.w) {
        Err(e) => post == pre && res == ChainStart::Errored(e),
        Ok(_) => exists|q: Reply|
            {
                let s = #[trigger] pre.issued(Command::Queue { device: pre.device }, Seq::empty(), q);
                match q {
                    Err(c) => post == s && res == ChainStart::Errored(Error::OpenCl(c)),
                    Ok(queue) => chain_held(op, Walk { queue, ..s }, post, res),
                }
            },
    }
}

/// A graph with a host closure runs behind a start barrier.
pub open spec fn chain_held(op: DeviceOp, pre: Walk, post: Walk, res: ChainStart) -> bool {
    if seam_of(op) {
        exists|q: Reply|
            {
                let s = #[trigger] pre.issued(Command::UserEvent, Seq::empty(), q);
                match q {
                    Err(c) => forgets_queue(s, post) && res == ChainStart::Errored(Error::OpenCl(c)),
                    Ok(ev) => chain_enqueued(op, Walk { start: Some(ev), ..s }, post, res),
                }
            }
    } else {
        chain_enqueued(op, Walk { start: None, ..pre }, post, res)
    }
}

/// The graph is enqueued, then a marker behind its outputs; then the barrier opens
/// and the queues are flushed. On every failure the barrier opens too, and the run
/// is wound down.
pub open spec fn chain_enqueued(op: DeviceOp, pre: Walk, post: Walk, res: ChainStart) -> bool {
    exists|m: Walk, h: OpResult<ParcelView>|
        #[trigger] passes(m, h) && kept(pre, m) && collects_of(op, pre, m, ExecMode::Pipelined, h)
            && match h {
            Err(e) => chain_failed(m, e, post, res),
            Ok(p) => chain_marked(p, m, post, res),
        }
}

/// A graph that failed while it was enqueued.
pub open spec fn chain_failed(m: Walk, e: Error, post: Walk, res: ChainStart) -> bool {
    exists|m1: Walk, m2: Walk, host: Option<Error>|
        #[trigger] passes(m1, (m2, host)) && releases(m, m1) && winds_down(m1, m2) && post == (Walk {
            host_reads: m2.host_reads.push(host),
            ..m2
        }) && res == ChainStart::Errored(preferred(host, e))
}

/// A graph that is enqueued, up to its marker.
pub open spec fn chain_marked(p: ParcelView, m: Walk, post: Walk, res: ChainStart) -> bool {
    exists|q: Reply|
        {
            let s = #[trigger] m.issued(Command::Marker, p.deps, q);
            match q {
                Err(c) => exists|m1: Walk|
                    #[trigger] passes(m1, ()) && releases(s, m1) && winds_down(m1, post) && res
                        == ChainStart::Errored(Error::OpenCl(c)),
                Ok(marker) => exists|m1: Walk|
                    #[trigger] passes(m1, ()) && releases(s, m1) && chain_flushed(p, marker, m1, post, res),
            }
        }
}

/// A graph whose barrier is open.
pub open spec fn chain_flushed(p: ParcelView, marker: u64, m: Walk, post: Walk, res: ChainStart) -> bool {
    exists|q: Reply|
        {
            let s = #[trigger] m.issued(Command::Flush, Seq::empty(), q);
            match q {
                Err(c) => winds_down(s, post) && res == ChainStart::Errored(Error::OpenCl(c)),
                Ok(_) => post == s && res == (ChainStart::Running { output: p.value, event: marker }),
            }
        }
}

/// Open the start barrier of the run, where it has one.
pub fn release_start<D: Driver>(ec: &mut ExecutionContext<D>)
    ensures
        releases(old(ec)@, final(ec)@),
{
    let ghost pre = ec@;
    if let Some(ev) = ec.start_dep() {
        let x: Reply = ec.issue(Command::Complete { event: ev, status: CL_COMPLETE }, &no_deps());
        assert(ec@ == pre.issued(
            Command::Complete { event: ev, status: CL_COMPLETE },
            Seq::empty(),
            x,
        ));
    }
}

fn join_from<D: Driver>(ec: &mut ExecutionContext<D>, workers: &Vec<u64>, i: usize)
    requires
        i <= workers.len(),
    ensures
        joins_from(workers@, i as nat, old(ec)@, final(ec)@),
    decreases workers.len() - i,
{
    if i < workers.len() {
        let ghost pre = ec@;
        let x: Reply = ec.issue(Command::Join { worker: workers[i] }, &no_deps());
        assert(ec@ == pre.issued(Command::Join { worker: workers@[i as int] }, Seq::empty(), x));
        join_from(ec, workers, i + 1);
    }
}

/// Wait for all host workers of the run to end.
pub fn join_chain_workers<D: Driver>(ec: &mut ExecutionContext<D>)
    ensures
        joins(old(ec)@, final(ec)@),
{
    let workers: Vec<u64> = ec.take_workers();
    join_from(ec, &workers, 0);
}

fn forget_queue<D: Driver>(ec: &mut ExecutionContext<D>)
    ensures
        forgets_queue(old(ec)@, final(ec)@),
{
    let ghost pre = ec@;
    let device: u64 = ec.device();
    let x: Reply = ec.issue(Command::InvalidateQueue { device }, &no_deps());
    assert(ec@ == pre.issued(Command::InvalidateQueue { device: pre.device }, Seq::empty(), x));
}

fn wind_down<D: Driver>(ec: &mut ExecutionContext<D>)
    ensures
        winds_down(old(ec)@, final(ec)@),
{
    join_chain_workers(ec);
    let ghost m = ec@;
    assert(passes(m, ()));
    forget_queue(ec);
}

/// Start a graph in the background.
pub fn run_eager_chain<D: Driver>(chain: &DeviceOp, ec: &mut ExecutionContext<D>) -> (r: DeviceChainFuture)
    requires
        ready_of(*chain, old(ec)@.w) is Ok ==> devices_of(*chain) <= old(ec)@.devices.len(),
    ensures
        exists|s: ChainStart|
            #[trigger] starts_as(r, s) && chain_starts(*chain, old(ec)@, final(ec)@, s),
{
    let ghost pre = ec@;
    if let Err(e) = chain.check_ready(ec.store()) {
        assert(starts_as(DeviceChainFuture::Errored(Some(e)), ChainStart::Errored(e)));
        return DeviceChainFuture::Errored(Some(e));
    }
    let device: u64 = ec.device();
    let q: Reply = ec.issue(Command::Queue { device }, &no_deps());
    let ghost s = ec@;
    assert(s == pre.issued(Command::Queue { device: pre.device }, Seq::empty(), q));
    let queue: u64 = match q {
        Ok(queue) => queue,
        Err(c) => {
            let r = DeviceChainFuture::Errored(Some(Error::OpenCl(c)));
            assert(starts_as(r, ChainStart::Errored(Error::OpenCl(c))));
            return r;
        },
    };
    ec.set_queue(queue, device);
    let ghost g = ec@;
    assert(g == (Walk { queue, ..s }));
    let r = run_held(chain, ec);
    proof {
        let st = choose|st: ChainStart| #[trigger] starts_as(r, st) && chain_held(*chain, g, ec@, st);
        assert(starts_as(r, st));
    }
    r
}

fn run_held<D: Driver>(chain: &DeviceOp, ec: &mut ExecutionContext<D>) -> (r: DeviceChainFuture)
    requires
        devices_of(*chain) <= old(ec)@.devices.len(),
    ensures
        exists|s: ChainStart|
            #[trigger] starts_as(r, s) && chain_held(*chain, old(ec)@, final(ec)@, s),
{
    let ghost pre = ec@;
    if chain.contains_host_seam() {
        let q: Reply = ec.issue(Command::UserEvent, &no_deps());
        let ghost s = ec@;
        assert(s == pre.issued(Command::UserEvent, Seq::empty(), q));
        match q {
            Err(c) => {
                forget_queue(ec);
                let r = DeviceChainFuture::Errored(Some(Error::OpenCl(c)));
                assert(starts_as(r, ChainStart::Errored(Error::OpenCl(c))));
                return r;
            },
            Ok(ev) => {
                ec.set_start(Some(ev));
            },
        }
    } else {
        ec.set_start(None);
    }
    let ghost g = ec@;
    let r = run_enqueued(chain, ec);
    proof {
        let st = choose|st: ChainStart| #[trigger] starts_as(r, st) && chain_enqueued(*chain, g, ec@, st);
        assert(starts_as(r, st));
    }
    r
}

fn run_enqueued<D: Driver>(chain: &DeviceOp, ec: &mut ExecutionContext<D>) -> (r: DeviceChainFuture)
    requires
        devices_of(*chain) <= old(ec)@.devices.len(),
    ensures
        exists|s: ChainStart|
            #[trigger] starts_as(r, s) && chain_enqueued(*chain, old(ec)@, final(ec)@, s),
{
    let ghost pre = ec@;
    let collected: OpResult<Parcel> = chain.collect_home(ec, ExecMode::Pipelined);
    let ghost m = ec@;
    assert(passes(m, parcel_view(collected)));
    match collected {
        Err(e) => {
            release_start(ec);
            let ghost m1 = ec@;
            wind_down(ec);
            let ghost m2 = ec@;
            let host: Option<Error> = ec.take_host_error();
            assert(passes(m1, (m2, host)));
            let ghost st = ChainStart::Errored(preferred(host, e));
            assert(chain_failed(m, e, ec@, st));
            let err = match host {
                Some(h) => h,
                None => e,
            };
            let r = DeviceChainFuture::Errored(Some(err));
            assert(starts_as(r, st));
            r
        },
        Ok(p) => {
            let q: Reply = ec.issue(Command::Marker, &p.deps);
            let ghost s = ec@;
            assert(s == m.issued(Command::Marker, p@.deps, q));
            match q {
                Err(c) => {
                    release_start(ec);
                    assert(passes(ec@, ()));
                    wind_down(ec);
                    let ghost st = ChainStart::Errored(Error::OpenCl(c));
                    assert(chain_marked(p@, m, ec@, st));
                    let r = DeviceChainFuture::Errored(Some(Error::OpenCl(c)));
                    assert(starts_as(r, st));
                    r
                },
                Ok(marker) => {
                    release_start(ec);
                    let ghost m1 = ec@;
                    assert(passes(m1, ()));
                    let f: Reply = ec.issue(Command::Flush, &no_deps());
                    let ghost t = ec@;
                    assert(t == m1.issued(Command::Flush, Seq::empty(), f));
                    match f {
                        Err(c) => {
                            wind_down(ec);
                            let ghost st = ChainStart::Errored(Error::OpenCl(c));
                            assert(chain_flushed(p@, marker, m1, ec@, st));
                            assert(chain_marked(p@, m, ec@, st));
                            let r = DeviceChainFuture::Errored(Some(Error::OpenCl(c)));
                            assert(starts_as(r, st));
                            r
                        },
                        Ok(_) => {
                            let ghost st = ChainStart::Running { output: p@.value, event: marker };
                            assert(chain_flushed(p@, marker, m1, ec@, st));
                            assert(chain_marked(p@, m, ec@, st));
                            let r = DeviceChainFuture::Running {
                                output: Some(p.value),
                                event_future: EventFuture::new(marker),
                            };
                            assert(starts_as(r, st));
                            r
                        },
                    }
                },
            }
        },
    }
}

/// What a poll of a running graph answers.
pub enum ChainPoll {
    Ready(OpResult<Vec<Obj>>),
    Pending,
}

impl DeviceChainFuture {
    /// Poll the graph: `event` is what polling its event answered. Once the event
    /// has finished, the host workers end; the error of a host closure comes
    /// before any other, also where the event finished well.
    pub fn poll<D: Driver>(&mut self, event: EventPoll, ec: &mut ExecutionContext<D>) -> (r: ChainPoll)
        requires
            match *old(self) {
                DeviceChainFuture::Errored(e) => e is Some,
                DeviceChainFuture::Running { output, .. } => output is Some,
            },
        ensures
            match *old(self) {
                DeviceChainFuture::Errored(e) => r == ChainPoll::Ready(Err(e->Some_0)) && *final(self)
                    == DeviceChainFuture::Errored(None) && final(ec)@ == old(ec)@,
                DeviceChainFuture::Running { output, event_future } => match event {
                    EventPoll::Pending => r is Pending && *final(self) == *old(self) && final(ec)@ == old(ec)@,
                    EventPoll::Ready(done) => exists|m: Walk, host: Option<Error>|
                        {
                            &&& #[trigger] passes(m, host)
                            &&& joins(old(ec)@, m)
                            &&& final(ec)@ == (Walk { host_reads: m.host_reads.push(host), ..m })
                            &&& r == ChainPoll::Ready(
                                match (host, done) {
                                    (Some(h), _) => Err(h),
                                    (None, Err(e)) => Err(e),
                                    (None, Ok(_)) => Ok(output->Some_0),
                                },
                            )
                            &&& *final(self) == (DeviceChainFuture::Running {
                                output: if host is None && done is Ok {
                                    None
                                } else {
                                    output
                                },
                                event_future,
                            })
                        },
                },
            },
    {
        match self {
            DeviceChainFuture::Errored(slot) => match slot.take() {
                Some(e) => ChainPoll::Ready(Err(e)),
                None => ChainPoll::Pending,
            },
            DeviceChainFuture::Running { output, event_future: _ } => match event {
                EventPoll::Pending => ChainPoll::Pending,
                EventPoll::Ready(done) => {
                    join_chain_workers(ec);
                    let ghost m = ec@;
                    let host: Option<Error> = ec.take_host_error();
                    assert(passes(m, host));
                    match host {
                        Some(h) => ChainPoll::Ready(Err(h)),
                        None => match done {
                            Err(e) => ChainPoll::Ready(Err(e)),
                            Ok(_) => match output.take() {
                                Some(v) => ChainPoll::Ready(Ok(v)),
                                None => ChainPoll::Pending,
                            },
                        },
                    }
                },
            },
        }
    }
}

} // verus!
