//! What holds of operations that run once: each waits on the events that it is given, every
//! input of a fan-out gets an operation, and what comes after waits on all of them.

use crate::device_op::{collected, graph_executes, launched, start_deps, DeviceOperation};
use crate::error::{Error, OpResult};
use crate::exec_ctx::{ExecMode, Walk};
use crate::fan_out::{executes_from, fans_out};
use crate::graph::DeviceOp;
use crate::graph_laws::{joined, leads};
use crate::input::Checkout;
use crate::kernel_op::KernelOp;
use crate::store::ParcelView;
use crate::walk::{collects_of, join_runs, passes};
use vstd::prelude::*;

verus! {

/// A graph that is executed behind events: a marker waits on all of them, and on the start
/// barrier of the run where there is one; the graph starts behind that marker, and the run
/// has its own barrier back afterwards. Without events the graph runs as it is. Either way
/// the output is the value of the graph, with its home and its events.
pub proof fn law_graph_starts_behind_its_events(
    op: DeviceOp,
    deps: Seq<u64>,
    pre: Walk,
    post: Walk,
    out: Checkout,
    evs: Seq<u64>,
) -> (r: (Walk, Walk))
    requires
        graph_executes(op, deps, pre, post, Ok((out, evs))),
    ensures
        ({
            let (s, m) = r;
            let value = ParcelView { value: out.value@, deps: evs, home: out.home };
            &&& collects_of(op, s, m, ExecMode::Pipelined, Ok(value))
            &&& s.w == pre.w
            &&& post.trace == m.trace
            &&& post.w == m.w
            &&& deps.len() == 0 ==> s == pre && post == m
            &&& deps.len() > 0 ==> {
                &&& s.trace.len() == pre.trace.len() + 1
                &&& s.trace.last().command is Marker
                &&& forall|k: int| 0 <= k < deps.len() ==> s.trace.last().waits.contains(#[trigger] deps[k])
                &&& pre.start matches Some(b) ==> s.trace.last().waits.contains(b)
                &&& s.start matches Some(ev) && s.trace.last().reply == Ok::<u64, i32>(ev)
                &&& post.start == pre.start
            }
        }),
{
    let res = Ok::<(Checkout, Seq<u64>), Error>((out, evs));
    if deps.len() == 0 {
        (pre, post)
    } else {
        let waits = match pre.start {
            Some(b) => deps.push(b),
            None => deps,
        };
        let (s, j) = choose|s: Walk, j: OpResult<u64>|
            #[trigger] passes(s, j) && join_runs(start_deps(deps, pre.start), pre, s, j) && match j {
                Err(e) => post == s && res == Err::<(Checkout, Seq<u64>), Error>(e),
                Ok(ev) => exists|m: Walk|
                    #[trigger] passes(m, ()) && collects_of(
                        op,
                        Walk { start: Some(ev), ..s },
                        m,
                        ExecMode::Pipelined,
                        collected(res),
                    ) && post == (Walk { start: pre.start, ..m }),
            };
        let start = Walk { start: Some(j->Ok_0), ..s };
        let m = choose|m: Walk|
            #[trigger] passes(m, ()) && collects_of(op, start, m, ExecMode::Pipelined, collected(res)) && post == (Walk {
                start: pre.start,
                ..m
            });
        assert(s.trace.last().waits == waits);
        assert forall|k: int| 0 <= k < deps.len() implies s.trace.last().waits.contains(#[trigger] deps[k]) by {
            assert(waits[k] == deps[k]);
        }
        if let Some(b) = pre.start {
            assert(waits[deps.len() as int] == b);
        }
        (start, m)
    }
}

/// A kernel that is executed behind events is enqueued behind them, and its output waits on
/// the event of the launch alone.
pub proof fn law_kernel_output_waits_on_its_launch<K: KernelOp>(
    k: K,
    deps: Seq<u64>,
    pre: Walk,
    post: Walk,
    out: K::Output,
    evs: Seq<u64>,
)
    requires
        k.executes(deps, pre, post, Ok((out, evs))),
    ensures
        evs.len() == 1,
        k.enqueues(deps, pre, post, Ok((out, evs[0]))),
{
    let res = Ok::<(K::Output, Seq<u64>), Error>((out, evs));
    let r = choose|r: OpResult<(K::Output, u64)>| #[trigger] k.enqueues(deps, pre, post, r) && res == launched(r);
    assert(r == Ok::<(K::Output, u64), Error>((r->Ok_0.0, r->Ok_0.1)));
    assert(r->Ok_0 == (out, evs[0]));
}

proof fn lemma_executes_each<I, F: Fn(I) -> U, U: DeviceOperation>(
    inputs: Seq<I>,
    f: F,
    i: nat,
    deps: Seq<u64>,
    outs: Seq<U::Output>,
    evs: Seq<u64>,
    pre: Walk,
    post: Walk,
    total: (Seq<U::Output>, Seq<u64>),
) -> (r: (Seq<Walk>, Seq<U>, Seq<Seq<u64>>))
    requires
        i <= inputs.len(),
        outs.len() == i,
        executes_from::<I, F, U>(inputs, f, i, deps, outs, evs, pre, post, Ok(total)),
    ensures
        leads(r.0, (inputs.len() - i) as nat, pre, post),
        r.1.len() == inputs.len() - i,
        r.2.len() == inputs.len() - i,
        total.0.len() == inputs.len(),
        forall|k: int| 0 <= k < i ==> #[trigger] total.0[k] == outs[k],
        total.1 == evs + r.2.flatten(),
        forall|k: int|
            i <= k < inputs.len() ==> {
                &&& call_ensures(f, (#[trigger] inputs[k],), r.1[k - i])
                &&& r.1[k - i].executes(deps, r.0[k - i], r.0[k - i + 1], Ok((total.0[k], r.2[k - i])))
            },
    decreases inputs.len() - i,
{
    let res = Ok::<(Seq<U::Output>, Seq<u64>), Error>(total);
    if i >= inputs.len() {
        let none = Seq::<Seq<u64>>::empty();
        assert(evs + none.flatten() =~= evs);
        (seq![pre], Seq::empty(), none)
    } else {
        let (m, op, h) = choose|m: Walk, op: U, r: OpResult<(U::Output, Seq<u64>)>|
            #[trigger] passes(m, (op, r)) && call_ensures(f, (inputs[i as int],), op) && op.executes(deps, pre, m, r)
                && match r {
                Err(e) => post == m && res == Err::<(Seq<U::Output>, Seq<u64>), Error>(e),
                Ok(p) => executes_from::<I, F, U>(inputs, f, i + 1, deps, outs.push(p.0), evs + p.1, m, post, res),
            };
        let p = h->Ok_0;
        let more = outs.push(p.0);
        let (rest, ops, es) = lemma_executes_each::<I, F, U>(
            inputs,
            f,
            i + 1,
            deps,
            more,
            evs + p.1,
            m,
            post,
            total,
        );
        let steps = seq![pre] + rest;
        let all_ops = seq![op] + ops;
        let all_es = seq![p.1] + es;
        assert(all_es.first() == p.1);
        assert(all_es.drop_first() =~= es);
        assert(total.1 =~= evs + all_es.flatten());
        assert(total.0[i as int] == more[i as int]);
        assert forall|k: int| 0 <= k < i implies #[trigger] total.0[k] == outs[k] by {
            assert(more[k] == outs[k]);
        }
        assert(h == Ok::<(U::Output, Seq<u64>), Error>((p.0, p.1)));
        assert forall|k: int| i <= k < inputs.len() implies {
            &&& call_ensures(f, (#[trigger] inputs[k],), all_ops[k - i])
            &&& all_ops[k - i].executes(deps, steps[k - i], steps[k - i + 1], Ok((total.0[k], all_es[k - i])))
        } by {
            if k == i {
                assert(steps[0] == pre);
                assert(steps[1] == rest[0]);
                assert(all_ops[0] == op);
                assert(all_es[0] == p.1);
            } else {
                assert(steps[k - i] == rest[k - (i + 1)]);
                assert(steps[k - i + 1] == rest[k - (i + 1) + 1]);
                assert(all_ops[k - i] == ops[k - (i + 1)]);
                assert(all_es[k - i] == es[k - (i + 1)]);
            }
        }
        (steps, all_ops, all_es)
    }
}

/// A fan-out that was executed well: for every input, in order, an operation was made and
/// executed behind the events that were given, from where the one before ended; the output
/// with index `k` is that of input `k`. A marker waits on the events of all operations, and
/// the outputs wait on that marker alone.
pub proof fn law_every_input_is_executed<I, F: Fn(I) -> U, U: DeviceOperation>(
    inputs: Seq<I>,
    f: F,
    deps: Seq<u64>,
    pre: Walk,
    post: Walk,
    outs: Seq<U::Output>,
    evs: Seq<u64>,
) -> (r: (Seq<Walk>, Seq<U>, Seq<Seq<u64>>))
    requires
        fans_out::<I, F, U>(inputs, f, deps, pre, post, Ok((outs, evs))),
    ensures
        ({
            let (steps, ops, es) = r;
            let m = steps.last();
            &&& leads(steps, inputs.len(), pre, m)
            &&& ops.len() == inputs.len()
            &&& es.len() == inputs.len()
            &&& outs.len() == inputs.len()
            &&& forall|k: int|
                0 <= k < inputs.len() ==> {
                    &&& call_ensures(f, (#[trigger] inputs[k],), ops[k])
                    &&& ops[k].executes(deps, steps[k], steps[k + 1], Ok((outs[k], es[k])))
                }
            &&& evs.len() == 1
            &&& post.trace.len() == m.trace.len() + 1
            &&& joined(post, es.flatten(), evs[0])
            &&& post.w == m.w
        }),
{
    let res = Ok::<(Seq<U::Output>, Seq<u64>), Error>((outs, evs));
    let (m, h) = choose|m: Walk, r: OpResult<(Seq<U::Output>, Seq<u64>)>|
        #[trigger] passes(m, r) && executes_from::<I, F, U>(
            inputs,
            f,
            0,
            deps,
            Seq::empty(),
            Seq::empty(),
            pre,
            m,
            r,
        ) && match r {
            Err(e) => post == m && res == Err::<(Seq<U::Output>, Seq<u64>), Error>(e),
            Ok(p) => exists|j: OpResult<u64>|
                #[trigger] passes(m, j) && join_runs(p.1, m, post, j) && res == (match j {
                    Err(e) => Err::<(Seq<U::Output>, Seq<u64>), Error>(e),
                    Ok(ev) => Ok((p.0, seq![ev])),
                }),
        };
    let total = h->Ok_0;
    let (steps, ops, es) = lemma_executes_each::<I, F, U>(
        inputs,
        f,
        0,
        deps,
        Seq::empty(),
        Seq::empty(),
        pre,
        m,
        total,
    );
    let j = choose|j: OpResult<u64>|
        #[trigger] passes(m, j) && join_runs(total.1, m, post, j) && res == (match j {
            Err(e) => Err::<(Seq<U::Output>, Seq<u64>), Error>(e),
            Ok(ev) => Ok((total.0, seq![ev])),
        });
    assert(total.1 =~= es.flatten());
    assert(total.0 == outs);
    assert(steps.last() == m);
    assert forall|k: int| 0 <= k < inputs.len() implies {
        &&& call_ensures(f, (#[trigger] inputs[k],), ops[k])
        &&& ops[k].executes(deps, steps[k], steps[k + 1], Ok((outs[k], es[k])))
    } by {
        assert(ops[k - 0] == ops[k]);
        assert(steps[k - 0 + 1] == steps[k + 1]);
    }
    (steps, ops, es)
}

} // verus!
