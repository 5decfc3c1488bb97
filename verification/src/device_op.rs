//! Operations that run once, behind the events that they are given.

use crate::error::{Error, OpResult};
use crate::exec_ctx::{kept, Driver, ExecMode, ExecutionContext, Walk};
use crate::graph::{devices_of, DeviceOp};
use crate::ids::copy_ids;
use crate::input::Checkout;
use crate::kernel_op::KernelOp;
use crate::leaf::single_dep;
use crate::store::{Parcel, ParcelView};
use crate::walk::{collects_of, deps_into_single_event, join_runs, parcel_view, passes};
use vstd::prelude::*;

verus! {

broadcast use crate::exec_ctx::lemma_kept_over;

/// The outcome of an operation, with its events as a sequence.
pub open spec fn executed<O>(r: OpResult<(O, Vec<u64>)>) -> OpResult<(O, Seq<u64>)> {
    match r {
        Ok(p) => Ok((p.0, p.1@)),
        Err(e) => Err(e),
    }
}

/// An operation that is used up by its run: it waits on some events, and its output
/// waits on those that it hands back.
pub trait DeviceOperation: Sized {
    /// What the run hands back.
    type Output;

    /// Whether the operation can be part of a run.
    spec fn can_execute(self, s: Walk) -> bool;

    /// What executing it behind the events `deps` may do.
    spec fn executes(self, deps: Seq<u64>, pre: Walk, post: Walk, res: OpResult<(Self::Output, Seq<u64>)>) -> bool;

    /// What can be part of a run can be part of it later.
    proof fn lemma_still_can(self, a: Walk, b: Walk)
        requires
            self.can_execute(a),
            kept(a, b),
        ensures
            self.can_execute(b),
    ;

    fn execute<D: Driver>(self, ec: &mut ExecutionContext<D>, deps: &Vec<u64>) -> (r: OpResult<
        (Self::Output, Vec<u64>),
    >)
        requires
            self.can_execute(old(ec)@),
        ensures
            self.executes(deps@, old(ec)@, final(ec)@, executed(r)),
            kept(old(ec)@, final(ec)@),
    ;
}

/// The outcome of a launch as that of an operation: its output waits on the launch.
pub open spec fn launched<O>(r: OpResult<(O, u64)>) -> OpResult<(O, Seq<u64>)> {
    match r {
        Ok(p) => Ok((p.0, seq![p.1])),
        Err(e) => Err(e),
    }
}

impl<K: KernelOp> DeviceOperation for K {
    type Output = K::Output;

    open spec fn can_execute(self, s: Walk) -> bool {
        true
    }

    open spec fn executes(self, deps: Seq<u64>, pre: Walk, post: Walk, res: OpResult<(K::Output, Seq<u64>)>) -> bool {
        exists|r: OpResult<(K::Output, u64)>| #[trigger] self.enqueues(deps, pre, post, r) && res == launched(r)
    }

    proof fn lemma_still_can(self, a: Walk, b: Walk) {
    }

    fn execute<D: Driver>(self, ec: &mut ExecutionContext<D>, deps: &Vec<u64>) -> (r: OpResult<
        (K::Output, Vec<u64>),
    >) {
        let r: OpResult<(K::Output, u64)> = self.enqueue_into(ec, deps);
        assert(self.enqueues(deps@, old(ec)@, ec@, r));
        match r {
            Ok((out, ev)) => Ok((out, single_dep(ev))),
            Err(e) => Err(e),
        }
    }
}

/// The outcome of a graph as that of an operation: its value, still owed to its home,
/// and the events that it waits on.
pub open spec fn collected(r: OpResult<(Checkout, Seq<u64>)>) -> OpResult<ParcelView> {
    match r {
        Ok(p) => Ok(ParcelView { value: p.0.value@, deps: p.1, home: p.0.home }),
        Err(e) => Err(e),
    }
}

/// What a graph waits on before it starts: `deps`, and the start barrier of the run.
pub open spec fn start_deps(deps: Seq<u64>, start: Option<u64>) -> Seq<u64> {
    match start {
        Some(b) => deps.push(b),
        None => deps,
    }
}

/// Executing a graph behind the events `deps`: a marker behind them is the barrier that
/// its entries wait on. Without events none is needed.
pub open spec fn graph_executes(
    op: DeviceOp,
    deps: Seq<u64>,
    pre: Walk,
    post: Walk,
    res: OpResult<(Checkout, Seq<u64>)>,
) -> bool {
    if deps.len() == 0 {
        collects_of(op, pre, post, ExecMode::Pipelined, collected(res))
    } else {
        exists|s: Walk, j: OpResult<u64>|
            #[trigger] passes(s, j) && join_runs(start_deps(deps, pre.start), pre, s, j) && match j {
                Err(e) => post == s && res == Err::<(Checkout, Seq<u64>), Error>(e),
                Ok(ev) => exists|m: Walk|
                    #[trigger] passes(m, ()) && collects_of(
                        op,
                        Walk { start: Some(ev), ..s },
                        m,
                        ExecMode::Pipelined,
                        collected(res),
                    ) && post == (Walk { start: pre.start, ..m }),
            }
    }
}

fn checked_out(p: Parcel) -> (r: (Checkout, Vec<u64>))
    ensures
        r.0.value@ == p@.value,
        r.0.home == p@.home,
        r.1@ == p@.deps,
{
    (Checkout::new(p.value, p.home), p.deps)
}

impl DeviceOperation for DeviceOp {
    type Output = Checkout;

    open spec fn can_execute(self, s: Walk) -> bool {
        s.cb is Off && devices_of(self) <= s.devices.len()
    }

    open spec fn executes(self, deps: Seq<u64>, pre: Walk, post: Walk, res: OpResult<(Checkout, Seq<u64>)>) -> bool {
        graph_executes(self, deps, pre, post, res)
    }

    proof fn lemma_still_can(self, a: Walk, b: Walk) {
    }

    fn execute<D: Driver>(self, ec: &mut ExecutionContext<D>, deps: &Vec<u64>) -> (r: OpResult<
        (Checkout, Vec<u64>),
    >) {
        let ghost pre = ec@;
        if deps.len() == 0 {
            let r: OpResult<Parcel> = self.collect_home(ec, ExecMode::Pipelined);
            assert(collects_of(self, pre, ec@, ExecMode::Pipelined, parcel_view(r)));
            return match r {
                Ok(p) => Ok(checked_out(p)),
                Err(e) => Err(e),
            };
        }
        let start: Option<u64> = ec.start_dep();
        let mut all: Vec<u64> = copy_ids(deps);
        if let Some(b) = start {
            all.push(b);
        }
        let j: OpResult<u64> = deps_into_single_event(ec, &all);
        let ghost s = ec@;
        assert(passes(s, j));
        let ev: u64 = match j {
            Ok(ev) => ev,
            Err(e) => {
                return Err(e);
            },
        };
        ec.set_start(Some(ev));
        let r: OpResult<Parcel> = self.collect_home(ec, ExecMode::Pipelined);
        let ghost m = ec@;
        assert(passes(m, ()));
        ec.set_start(start);
        match r {
            Ok(p) => Ok(checked_out(p)),
            Err(e) => Err(e),
        }
    }
}

} // verus!
