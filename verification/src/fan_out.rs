//! One operation per input, joined by a marker.

use crate::device_op::{executed, DeviceOperation};
use crate::error::{Error, OpResult};
use crate::exec_ctx::{kept, Driver, ExecutionContext, Walk};
use crate::ids::extend_ids;
use crate::leaf::single_dep;
use crate::walk::{deps_into_single_event, join_runs, passes};
use vstd::prelude::*;

verus! {

broadcast use crate::exec_ctx::lemma_kept_over;

/// An operation for each of some inputs.
pub struct FanOut<I, F> {
    inputs: Vec<I>,
    f: F,
}

impl<I, F> FanOut<I, F> {
    /// The inputs.
    pub closed spec fn inputs_spec(&self) -> Seq<I> {
        self.inputs@
    }

    /// The function that makes an operation of an input.
    pub closed spec fn f_spec(&self) -> F {
        self.f
    }
}

/// An operation for each of `inputs`.
pub fn fan_out<I, F, U: DeviceOperation>(inputs: Vec<I>, f: F) -> (r: FanOut<I, F>) where F: Fn(I) -> U
    ensures
        r.inputs_spec() == inputs@,
        r.f_spec() == f,
{
    FanOut { inputs, f }
}

/// Lists that fan out.
pub trait FanOutExt<I>: Sized {
    /// The inputs.
    spec fn items(self) -> Seq<I>;

    fn fan_out<F, U: DeviceOperation>(self, f: F) -> (r: FanOut<I, F>) where F: Fn(I) -> U
        ensures
            r.inputs_spec() == self.items(),
            r.f_spec() == f,
    ;
}

impl<I> FanOutExt<I> for Vec<I> {
    open spec fn items(self) -> Seq<I> {
        self@
    }

    fn fan_out<F, U: DeviceOperation>(self, f: F) -> (r: FanOut<I, F>) where F: Fn(I) -> U {
        fan_out::<I, F, U>(self, f)
    }
}

/// The operations of the inputs from index `i` on: the outputs after those in `outs`,
/// and the events after those in `evs`.
pub open spec fn executes_from<I, F: Fn(I) -> U, U: DeviceOperation>(
    inputs: Seq<I>,
    f: F,
    i: nat,
    deps: Seq<u64>,
    outs: Seq<U::Output>,
    evs: Seq<u64>,
    pre: Walk,
    post: Walk,
    res: OpResult<(Seq<U::Output>, Seq<u64>)>,
) -> bool
    decreases inputs.len() - i,
{
    if i >= inputs.len() {
        post == pre && res == Ok::<(Seq<U::Output>, Seq<u64>), Error>((outs, evs))
    } else {
        exists|m: Walk, op: U, r: OpResult<(U::Output, Seq<u64>)>|
            #[trigger] passes(m, (op, r)) && call_ensures(f, (inputs[i as int],), op) && op.executes(
                deps,
                pre,
                m,
                r,
            ) && match r {
                Err(e) => post == m && res == Err::<(Seq<U::Output>, Seq<u64>), Error>(e),
                Ok(p) => executes_from::<I, F, U>(
                    inputs,
                    f,
                    i + 1,
                    deps,
                    outs.push(p.0),
                    evs + p.1,
                    m,
                    post,
                    res,
                ),
            }
    }
}

/// The whole fan-out: every operation waits on `deps`, and the outputs wait on one
/// marker behind the events of all.
pub open spec fn fans_out<I, F: Fn(I) -> U, U: DeviceOperation>(
    inputs: Seq<I>,
    f: F,
    deps: Seq<u64>,
    pre: Walk,
    post: Walk,
    res: OpResult<(Seq<U::Output>, Seq<u64>)>,
) -> bool {
    exists|m: Walk, r: OpResult<(Seq<U::Output>, Seq<u64>)>|
        #[trigger] passes(m, r) && executes_from::<I, F, U>(
            inputs,
            f,
            0,
            deps,
            Seq::empty(),
            Seq::empty(),
            pre,
            m,
            r,
        ) && match r {
            Err(e) => post == m && res == Err::<(Seq<U::Output>, Seq<u64>), Error>(e),
            Ok(p) => exists|j: OpResult<u64>|
                #[trigger] passes(m, j) && join_runs(p.1, m, post, j) && res == (match j {
                    Err(e) => Err::<(Seq<U::Output>, Seq<u64>), Error>(e),
                    Ok(ev) => Ok((p.0, seq![ev])),
                }),
        }
}

/// A list of outputs and events as sequences.
pub open spec fn outputs_view<O>(r: OpResult<(Vec<O>, Vec<u64>)>) -> OpResult<(Seq<O>, Seq<u64>)> {
    match r {
        Ok(p) => Ok((p.0@, p.1@)),
        Err(e) => Err(e),
    }
}

/// A list of outputs as a sequence, with its events.
pub open spec fn fan_view<O>(r: OpResult<(Vec<O>, Seq<u64>)>) -> OpResult<(Seq<O>, Seq<u64>)> {
    match r {
        Ok(p) => Ok((p.0@, p.1)),
        Err(e) => Err(e),
    }
}

/// Whether all that `f` makes of the inputs can be part of a run.
pub open spec fn all_can<I, F: Fn(I) -> U, U: DeviceOperation>(inputs: Seq<I>, f: F, s: Walk) -> bool {
    &&& forall|k: int| 0 <= k < inputs.len() ==> call_requires(f, (#[trigger] inputs[k],))
    &&& forall|k: int, op: U|
        0 <= k < inputs.len() && #[trigger] call_ensures(f, (inputs[k],), op) ==> op.can_execute(s)
}

proof fn lemma_all_still_can<I, F: Fn(I) -> U, U: DeviceOperation>(inputs: Seq<I>, f: F, a: Walk, b: Walk)
    requires
        all_can::<I, F, U>(inputs, f, a),
        kept(a, b),
    ensures
        all_can::<I, F, U>(inputs, f, b),
{
    assert forall|k: int, op: U|
        0 <= k < inputs.len() && #[trigger] call_ensures(f, (inputs[k],), op) implies op.can_execute(b) by {
        op.lemma_still_can(a, b);
    }
}

fn execute_rest<I, F: Fn(I) -> U, U: DeviceOperation, D: Driver>(
    rest: Vec<I>,
    f: &F,
    deps: &Vec<u64>,
    outs: Vec<U::Output>,
    evs: Vec<u64>,
    ec: &mut ExecutionContext<D>,
    all: Ghost<Seq<I>>,
    i: Ghost<nat>,
) -> (r: OpResult<(Vec<U::Output>, Vec<u64>)>)
    requires
        all_can::<I, F, U>(all@, *f, old(ec)@),
        i@ <= all@.len(),
        rest@ == all@.skip(i@ as int).reverse(),
    ensures
        executes_from::<I, F, U>(
            all@,
            *f,
            i@,
            deps@,
            outs@,
            evs@,
            old(ec)@,
            final(ec)@,
            outputs_view(r),
        ),
        kept(old(ec)@, final(ec)@),
    decreases all@.len() - i@,
{
    let mut rest = rest;
    match rest.pop() {
        None => Ok((outs, evs)),
        Some(x) => {
            let ghost pre = ec@;
            assert(x == all@[i@ as int]);
            assert(rest@ =~= all@.skip((i@ + 1) as int).reverse());
            let op: U = f(x);
            let ghost made = op;
            let r: OpResult<(U::Output, Vec<u64>)> = op.execute(ec, deps);
            assert(passes(ec@, (made, executed(r))));
            match r {
                Err(e) => Err(e),
                Ok(p) => {
                    let mut outs = outs;
                    let mut evs = evs;
                    outs.push(p.0);
                    extend_ids(&mut evs, &p.1);
                    proof {
                        lemma_all_still_can::<I, F, U>(all@, *f, pre, ec@);
                    }
                    execute_rest(rest, f, deps, outs, evs, ec, all, Ghost((i@ + 1) as nat))
                },
            }
        },
    }
}

fn reversed<I>(v: Vec<I>) -> (r: Vec<I>)
    ensures
        r@ == v@.reverse(),
{
    let mut v = v;
    let ghost all = v@;
    let mut r: Vec<I> = Vec::new();
    while v.len() > 0
        invariant
            all.reverse() =~= r@ + v@.reverse(),
        decreases v.len(),
    {
        let ghost before = v@;
        if let Some(x) = v.pop() {
            r.push(x);
            assert(before.reverse() =~= seq![x] + v@.reverse());
        }
    }
    assert(r@ =~= all.reverse());
    r
}

impl<I, F: Fn(I) -> U, U: DeviceOperation> DeviceOperation for FanOut<I, F> {
    type Output = Vec<U::Output>;

    open spec fn can_execute(self, s: Walk) -> bool {
        all_can::<I, F, U>(self.inputs_spec(), self.f_spec(), s)
    }

    open spec fn executes(
        self,
        deps: Seq<u64>,
        pre: Walk,
        post: Walk,
        res: OpResult<(Vec<U::Output>, Seq<u64>)>,
    ) -> bool {
        fans_out::<I, F, U>(self.inputs_spec(), self.f_spec(), deps, pre, post, fan_view(res))
    }

    proof fn lemma_still_can(self, a: Walk, b: Walk) {
        lemma_all_still_can::<I, F, U>(self.inputs_spec(), self.f_spec(), a, b);
    }

    fn execute<D: Driver>(self, ec: &mut ExecutionContext<D>, deps: &Vec<u64>) -> (r: OpResult<
        (Vec<U::Output>, Vec<u64>),
    >) {
        let ghost all = self.inputs@;
        assert(all.skip(0) =~= all);
        let f = self.f;
        assert(f == self.f_spec());
        let rest: Vec<I> = reversed(self.inputs);
        let none: Vec<U::Output> = Vec::new();
        let r: OpResult<(Vec<U::Output>, Vec<u64>)> = execute_rest(
            rest,
            &f,
            deps,
            none,
            Vec::new(),
            ec,
            Ghost(all),
            Ghost(0nat),
        );
        let ghost m = ec@;
        assert(passes(m, outputs_view(r)));
        match r {
            Err(e) => Err(e),
            Ok((outs, evs)) => {
                let j: OpResult<u64> = deps_into_single_event(ec, &evs);
                assert(passes(m, j));
                match j {
                    Err(e) => Err(e),
                    Ok(ev) => Ok((outs, single_dep(ev))),
                }
            },
        }
    }
}

} // verus!
