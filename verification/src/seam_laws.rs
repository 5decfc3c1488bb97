//! What holds of a host closure that is woven into a graph: all memory of its value is
//! mapped before the closure is called and unmapped after it, and what follows waits.

use crate::error::{Error, OpResult};
use crate::exec_ctx::Walk;
use crate::host::{
    cancelled, first_bad_map, maps_from, reports_end, seam_ends, seam_mapped, seam_runs, step_after, step_at, unmaps_from, worker_end, worker_verdict,
    ClosureEnd, EventStatus, WorkerReport, WorkerStep,
};
use crate::obj::{Class, Command, Obj, Reply};
use crate::store::Pipe;
use crate::walk::{out_values, scatter_from, CheckoutView};
use vstd::prelude::*;

verus! {

/// The objects of a value that the host sees only once they are mapped: all but plain
/// host data.
pub open spec fn memory_in(value: Seq<Obj>) -> Seq<Obj> {
    value.filter(|o: Obj| o.class != Class::Plain)
}

proof fn lemma_memory_from(value: Seq<Obj>, i: nat)
    requires
        i < value.len(),
    ensures
        value[i as int].class == Class::Plain ==> memory_in(value.skip(i as int)) == memory_in(value.skip((i + 1) as int)),
        value[i as int].class != Class::Plain ==> memory_in(value.skip(i as int)) == seq![value[i as int]] + memory_in(
            value.skip((i + 1) as int),
        ),
{
    let pred = |o: Obj| o.class != Class::Plain;
    let head = seq![value[i as int]];
    assert(value.skip(i as int) =~= head + value.skip((i + 1) as int));
    Seq::filter_distributes_over_add(head, value.skip((i + 1) as int), pred);
    reveal_with_fuel(Seq::filter, 2);
    assert(head.drop_last() =~= Seq::empty());
    assert(head.filter(pred) =~= if pred(value[i as int]) {
        head
    } else {
        Seq::empty()
    });
    assert(head.filter(pred) + memory_in(value.skip((i + 1) as int)) =~= memory_in(value.skip(i as int)));
    if !pred(value[i as int]) {
        assert(memory_in(value.skip(i as int)) =~= memory_in(value.skip((i + 1) as int)));
    }
}

proof fn lemma_maps_all(
    value: Seq<Obj>,
    i: nat,
    deps: Seq<u64>,
    got: Seq<u64>,
    pre: Walk,
    post: Walk,
    res: OpResult<Seq<u64>>,
)
    requires
        maps_from(value, i, deps, got, pre, post, res),
        res is Ok,
        i <= value.len(),
    ensures
        ({
            let mem = memory_in(value.skip(i as int));
            let maps = res->Ok_0;
            &&& post == (Walk { trace: post.trace, ..pre })
            &&& post.trace.len() == pre.trace.len() + mem.len()
            &&& maps.len() == got.len() + mem.len()
            &&& forall|k: int| 0 <= k < pre.trace.len() ==> pre.trace[k] == #[trigger] post.trace[k]
            &&& forall|k: int| 0 <= k < got.len() ==> got[k] == #[trigger] maps[k]
            &&& forall|k: int|
                0 <= k < mem.len() ==> {
                    let x = post.trace[pre.trace.len() + k];
                    &&& x.command == (Command::MapMem { mem: (#[trigger] mem[k]).mem_spec(), writable: true })
                    &&& x.waits == deps
                    &&& x.reply == Ok::<u64, i32>(maps[got.len() + k])
                }
        }),
    decreases value.len() - i,
{
    let mem = memory_in(value.skip(i as int));
    if i >= value.len() {
        assert(value.skip(i as int) =~= Seq::empty());
        reveal_with_fuel(Seq::filter, 1);
    } else {
        lemma_memory_from(value, i);
        if value[i as int].class == Class::Plain {
            lemma_maps_all(value, i + 1, deps, got, pre, post, res);
        } else {
            let command = Command::MapMem { mem: value[i as int].mem_spec(), writable: true };
            let q = choose|q: Reply|
                {
                    let s = #[trigger] pre.issued(command, deps, q);
                    match q {
                        Err(c) => post == s && res == Err::<Seq<u64>, Error>(Error::OpenCl(c)),
                        Ok(ev) => maps_from(value, i + 1, deps, got.push(ev), s, post, res),
                    }
                };
            let s = pre.issued(command, deps, q);
            let more = got.push(q->Ok_0);
            lemma_maps_all(value, i + 1, deps, more, s, post, res);
            let rest = memory_in(value.skip((i + 1) as int));
            let maps = res->Ok_0;
            assert forall|k: int| 0 <= k < pre.trace.len() implies pre.trace[k] == #[trigger] post.trace[k] by {
                assert(s.trace[k] == post.trace[k]);
            }
            assert forall|k: int| 0 <= k < got.len() implies got[k] == #[trigger] maps[k] by {
                assert(more[k] == maps[k]);
            }
            assert forall|k: int| 0 <= k < mem.len() implies {
                let x = post.trace[pre.trace.len() + k];
                &&& x.command == (Command::MapMem { mem: (#[trigger] mem[k]).mem_spec(), writable: true })
                &&& x.waits == deps
                &&& x.reply == Ok::<u64, i32>(maps[got.len() + k])
            } by {
                if k == 0 {
                    assert(s.trace[pre.trace.len() as int] == post.trace[pre.trace.len() as int]);
                    assert(more[got.len() as int] == maps[got.len() as int]);
                } else {
                    assert(mem[k] == rest[k - 1]);
                    assert(pre.trace.len() + k == s.trace.len() + (k - 1));
                    assert(got.len() + k == more.len() + (k - 1));
                }
            }
        }
    }
}

proof fn lemma_unmaps_all(
    value: Seq<Obj>,
    i: nat,
    fire: u64,
    got: Seq<u64>,
    pre: Walk,
    post: Walk,
    res: OpResult<Seq<u64>>,
)
    requires
        unmaps_from(value, i, fire, got, pre, post, res),
        res is Ok,
        i <= value.len(),
    ensures
        ({
            let mem = memory_in(value.skip(i as int));
            let unmaps = res->Ok_0;
            &&& post == (Walk { trace: post.trace, ..pre })
            &&& post.trace.len() == pre.trace.len() + mem.len()
            &&& unmaps.len() == got.len() + mem.len()
            &&& forall|k: int| 0 <= k < pre.trace.len() ==> pre.trace[k] == #[trigger] post.trace[k]
            &&& forall|k: int| 0 <= k < got.len() ==> got[k] == #[trigger] unmaps[k]
            &&& forall|k: int|
                0 <= k < mem.len() ==> {
                    let x = post.trace[pre.trace.len() + k];
                    &&& x.command == (Command::UnmapMem { mem: (#[trigger] mem[k]).mem_spec() })
                    &&& x.waits == seq![fire]
                    &&& x.reply == Ok::<u64, i32>(unmaps[got.len() + k])
                }
        }),
    decreases value.len() - i,
{
    let mem = memory_in(value.skip(i as int));
    if i >= value.len() {
        assert(value.skip(i as int) =~= Seq::empty());
        reveal_with_fuel(Seq::filter, 1);
    } else {
        lemma_memory_from(value, i);
        if value[i as int].class == Class::Plain {
            lemma_unmaps_all(value, i + 1, fire, got, pre, post, res);
        } else {
            let command = Command::UnmapMem { mem: value[i as int].mem_spec() };
            let q = choose|q: Reply|
                {
                    let s = #[trigger] pre.issued(command, seq![fire], q);
                    match q {
                        Err(c) => post == s && res == Err::<Seq<u64>, Error>(Error::OpenCl(c)),
                        Ok(ev) => unmaps_from(value, i + 1, fire, got.push(ev), s, post, res),
                    }
                };
            let s = pre.issued(command, seq![fire], q);
            let more = got.push(q->Ok_0);
            lemma_unmaps_all(value, i + 1, fire, more, s, post, res);
            let rest = memory_in(value.skip((i + 1) as int));
            let unmaps = res->Ok_0;
            assert forall|k: int| 0 <= k < pre.trace.len() implies pre.trace[k] == #[trigger] post.trace[k] by {
                assert(s.trace[k] == post.trace[k]);
            }
            assert forall|k: int| 0 <= k < got.len() implies got[k] == #[trigger] unmaps[k] by {
                assert(more[k] == unmaps[k]);
            }
            assert forall|k: int| 0 <= k < mem.len() implies {
                let x = post.trace[pre.trace.len() + k];
                &&& x.command == (Command::UnmapMem { mem: (#[trigger] mem[k]).mem_spec() })
                &&& x.waits == seq![fire]
                &&& x.reply == Ok::<u64, i32>(unmaps[got.len() + k])
            } by {
                if k == 0 {
                    assert(s.trace[pre.trace.len() as int] == post.trace[pre.trace.len() as int]);
                    assert(more[got.len() as int] == unmaps[got.len() as int]);
                } else {
                    assert(mem[k] == rest[k - 1]);
                    assert(pre.trace.len() + k == s.trace.len() + (k - 1));
                    assert(got.len() + k == more.len() + (k - 1));
                }
            }
        }
    }
}

/// Whether a command of a run is this one, behind these events, and was answered with
/// this event.
pub open spec fn did(s: Walk, k: int, command: Command, waits: Seq<u64>, ev: u64) -> bool {
    &&& 0 <= k < s.trace.len()
    &&& s.trace[k].command == command
    &&& s.trace[k].waits == waits
    &&& s.trace[k].reply == Ok::<u64, i32>(ev)
}

/// A host closure that was woven in over a value: every object of the value but plain
/// data is mapped behind the events of the value, and the worker waits on all of these
/// and on all maps. Every such object is unmapped behind `fire`. What comes after waits
/// on every unmap and on `proceed`. The worker gets the two events and the closure.
pub proof fn law_seam_maps_and_unmaps_all_memory(
    value: Seq<Obj>,
    deps: Seq<u64>,
    closure: u64,
    with_context: bool,
    pre: Walk,
    post: Walk,
    out: Seq<u64>,
) -> (r: (u64, u64, Seq<u64>))
    requires
        seam_runs(value, deps, closure, with_context, pre, post, Ok(out)),
        deps.len() <= usize::MAX,
    ensures
        ({
            let (fire, proceed, maps) = r;
            let mem = memory_in(value);
            let at = pre.trace.len() as int;
            let n = mem.len() as int;
            &&& forall|i: int| 0 <= i < value.len() && value[i].class != Class::Plain ==> mem.contains(#[trigger] value[i])
            &&& post.trace.len() == at + n + 2 + n + 1
            &&& forall|k: int| 0 <= k < at ==> pre.trace[k] == #[trigger] post.trace[k]
            &&& maps.len() == n
            &&& forall|k: int|
                0 <= k < n ==> did(
                    post,
                    at + k,
                    Command::MapMem { mem: (#[trigger] mem[k]).mem_spec(), writable: true },
                    deps,
                    maps[k],
                )
            &&& did(post, at + n, Command::UserEvent, Seq::empty(), fire)
            &&& did(post, at + n + 1, Command::UserEvent, Seq::empty(), proceed)
            &&& out.len() == n + 1
            &&& forall|k: int|
                0 <= k < n ==> did(
                    post,
                    at + n + 2 + k,
                    Command::UnmapMem { mem: (#[trigger] mem[k]).mem_spec() },
                    seq![fire],
                    out[k],
                )
            &&& out[n] == proceed
            &&& post.trace.last().command == (Command::Worker {
                closure,
                with_context,
                fire,
                proceed,
                sources: deps.len() as usize,
            })
            &&& post.trace.last().reply is Ok
            &&& post.workers == pre.workers.push(post.trace.last().reply->Ok_0)
            &&& post.trace.last().waits.len() == deps.len() + n
            &&& forall|k: int| 0 <= k < deps.len() ==> post.trace.last().waits[k] == #[trigger] deps[k]
            &&& forall|k: int| 0 <= k < n ==> post.trace.last().waits[deps.len() + k] == #[trigger] maps[k]
        }),
{
    let res = Ok::<Seq<u64>, Error>(out);
    let mem = memory_in(value);
    assert(value.skip(0) =~= value);
    broadcast use vstd::seq_lib::group_filter_ensures;
    let (m1, r1) = choose|m1: Walk, r1: OpResult<Seq<u64>>|
        (#[trigger] maps_from(value, 0, deps, Seq::empty(), pre, m1, r1)) && match r1 {
            Err(e) => post == m1 && res == Err::<Seq<u64>, Error>(e),
            Ok(maps) => seam_mapped(value, deps, maps, closure, with_context, m1, post, res),
        };
    lemma_maps_all(value, 0, deps, Seq::empty(), pre, m1, r1);
    let maps = r1->Ok_0;
    let (q1, q2, m3, r3) = lemma_seam_steps(value, deps, maps, closure, with_context, m1, post, out);
    let fire = q1->Ok_0;
    let proceed = q2->Ok_0;
    let s1 = m1.issued(Command::UserEvent, Seq::empty(), q1);
    let s2 = s1.issued(Command::UserEvent, Seq::empty(), q2);
    lemma_unmaps_all(value, 0, fire, Seq::empty(), s2, m3, r3);
    let us = r3->Ok_0;
    let worker = Command::Worker { closure, with_context, fire, proceed, sources: deps.len() as usize };
    let q = choose|q: Reply|
        {
            let t = #[trigger] m3.issued(worker, deps + maps, q);
            match q {
                Err(c) => false,
                Ok(w) => post == (Walk { workers: t.workers.push(w), ..t }) && out == us.push(proceed),
            }
        };
    let t = m3.issued(worker, deps + maps, q);
    let at = pre.trace.len() as int;
    let n = mem.len() as int;
    assert forall|k: int| 0 <= k < at implies pre.trace[k] == #[trigger] post.trace[k] by {
        assert(m1.trace[k] == pre.trace[k]);
        assert(s2.trace[k] == m3.trace[k]);
    }
    assert forall|k: int| 0 <= k < n implies did(
        post,
        at + k,
        Command::MapMem { mem: (#[trigger] mem[k]).mem_spec(), writable: true },
        deps,
        maps[k],
    ) by {
        assert(s2.trace[at + k] == m3.trace[at + k]);
        assert(maps[0 + k] == maps[k]);
    }
    assert(s2.trace[at + n] == m3.trace[at + n]);
    assert(s2.trace[at + n + 1] == m3.trace[at + n + 1]);
    assert forall|k: int| 0 <= k < n implies did(
        post,
        at + n + 2 + k,
        Command::UnmapMem { mem: (#[trigger] mem[k]).mem_spec() },
        seq![fire],
        out[k],
    ) by {
        assert(m3.trace[s2.trace.len() + k] == post.trace[at + n + 2 + k]);
        assert(out[k] == us[0 + k]);
    }
    (fire, proceed, maps)
}

proof fn lemma_seam_steps(
    value: Seq<Obj>,
    deps: Seq<u64>,
    maps: Seq<u64>,
    closure: u64,
    with_context: bool,
    m1: Walk,
    post: Walk,
    out: Seq<u64>,
) -> (r: (Reply, Reply, Walk, OpResult<Seq<u64>>))
    requires
        seam_mapped(value, deps, maps, closure, with_context, m1, post, Ok(out)),
    ensures
        ({
            let s1 = m1.issued(Command::UserEvent, Seq::empty(), r.0);
            let s2 = s1.issued(Command::UserEvent, Seq::empty(), r.1);
            &&& r.0 is Ok
            &&& r.1 is Ok
            &&& r.3 is Ok
            &&& unmaps_from(value, 0, r.0->Ok_0, Seq::empty(), s2, r.2, r.3)
            &&& seam_ends(
                value,
                deps,
                maps,
                closure,
                with_context,
                r.0->Ok_0,
                r.1->Ok_0,
                r.2,
                r.3,
                post,
                Ok(out),
            )
        }),
{
    let res = Ok::<Seq<u64>, Error>(out);
    let q1 = choose|q1: Reply|
        {
            let s1 = #[trigger] m1.issued(Command::UserEvent, Seq::empty(), q1);
            match q1 {
                Err(c) => post == s1 && res == Err::<Seq<u64>, Error>(Error::OpenCl(c)),
                Ok(fire) => exists|q2: Reply|
                    {
                        let s2 = #[trigger] s1.issued(Command::UserEvent, Seq::empty(), q2);
                        match q2 {
                            Err(c) => post == s2 && res == Err::<Seq<u64>, Error>(Error::OpenCl(c)),
                            Ok(proceed) => exists|m3: Walk, r3: OpResult<Seq<u64>>|
                                (#[trigger] unmaps_from(value, 0, fire, Seq::empty(), s2, m3, r3)) && seam_ends(
                                    value,
                                    deps,
                                    maps,
                                    closure,
                                    with_context,
                                    fire,
                                    proceed,
                                    m3,
                                    r3,
                                    post,
                                    res,
                                ),
                        }
                    },
            }
        };
    let s1 = m1.issued(Command::UserEvent, Seq::empty(), q1);
    let fire = q1->Ok_0;
    let q2 = choose|q2: Reply|
        {
            let s2 = #[trigger] s1.issued(Command::UserEvent, Seq::empty(), q2);
            match q2 {
                Err(c) => post == s2 && res == Err::<Seq<u64>, Error>(Error::OpenCl(c)),
                Ok(proceed) => exists|m3: Walk, r3: OpResult<Seq<u64>>|
                    (#[trigger] unmaps_from(value, 0, fire, Seq::empty(), s2, m3, r3)) && seam_ends(
                        value,
                        deps,
                        maps,
                        closure,
                        with_context,
                        fire,
                        proceed,
                        m3,
                        r3,
                        post,
                        res,
                    ),
            }
        };
    let s2 = s1.issued(Command::UserEvent, Seq::empty(), q2);
    let proceed = q2->Ok_0;
    let (m3, r3) = choose|m3: Walk, r3: OpResult<Seq<u64>>|
        (#[trigger] unmaps_from(value, 0, fire, Seq::empty(), s2, m3, r3)) && seam_ends(
            value,
            deps,
            maps,
            closure,
            with_context,
            fire,
            proceed,
            m3,
            r3,
            post,
            res,
        );
    (q1, q2, m3, r3)
}

/// Where a seam gives up after its two events exist, both are ended with a failure, so
/// that nothing behind them waits for ever.
pub proof fn law_seam_that_gives_up_ends_its_events(
    value: Seq<Obj>,
    deps: Seq<u64>,
    maps: Seq<u64>,
    closure: u64,
    with_context: bool,
    fire: u64,
    proceed: u64,
    s: Walk,
    unmaps: OpResult<Seq<u64>>,
    post: Walk,
    e: Error,
)
    requires
        seam_ends(value, deps, maps, closure, with_context, fire, proceed, s, unmaps, post, Err(e)),
    ensures
        post.trace.len() >= s.trace.len() + 2,
        post.trace[post.trace.len() - 2].command matches Command::Complete { event, status } && event == fire && status
            < 0,
        post.trace[post.trace.len() - 1].command matches Command::Complete { event, status } && event == proceed
            && status < 0,
        post.workers == s.workers,
{
}

/// The outputs of a closure's source go on as they are: each along its own pipe, with its
/// home, and behind the events of the seam.
pub proof fn law_seam_hands_every_output_on(
    handle: Seq<Pipe>,
    outs: Seq<CheckoutView>,
    i: nat,
    deps: Seq<u64>,
    m: Walk,
    k: int,
)
    requires
        i <= k < handle.len(),
        k < outs.len(),
        forall|a: int, b: int| i <= a < b < handle.len() ==> (#[trigger] handle[a]).cell != (#[trigger] handle[b]).cell,
    ensures
        scatter_from(handle, outs, i, deps, m).w.parcel(handle[k].cell) matches Some(p) && p.value == outs[k].value && p.home
            == outs[k].home && p.deps == deps,
        scatter_from(handle, outs, i, deps, m).trace == m.trace,
    decreases handle.len() - i,
{
    let next = m.put(handle[i as int].cell, outs[i as int].value, deps, outs[i as int].home);
    if k > i {
        law_seam_hands_every_output_on(handle, outs, i + 1, deps, next, k);
    } else {
        lemma_scatter_elsewhere(handle, outs, i + 1, deps, next, handle[i as int].cell);
    }
}

proof fn lemma_scatter_elsewhere(
    handle: Seq<Pipe>,
    outs: Seq<CheckoutView>,
    i: nat,
    deps: Seq<u64>,
    m: Walk,
    c: u64,
)
    requires
        forall|j: int| i <= j < handle.len() ==> (#[trigger] handle[j]).cell != c,
    ensures
        scatter_from(handle, outs, i, deps, m).w.parcel(c) == m.w.parcel(c),
        scatter_from(handle, outs, i, deps, m).trace == m.trace,
    decreases handle.len() - i,
{
    if i < handle.len() && i < outs.len() {
        lemma_scatter_elsewhere(
            handle,
            outs,
            i + 1,
            deps,
            m.put(handle[i as int].cell, outs[i as int].value, deps, outs[i as int].home),
            c,
        );
    }
}

/// A closure sees every object that its source handed out, in order.
pub proof fn law_closure_sees_every_output(outs: Seq<CheckoutView>, k: int, j: int)
    requires
        0 <= k < outs.len(),
        0 <= j < outs[k].value.len(),
    ensures
        out_values(outs).contains(outs[k].value[j]),
        outs.len() == 1 ==> out_values(outs) == outs[0].value,
        outs.len() == 2 ==> out_values(outs) == outs[0].value + outs[1].value,
    decreases outs.len(),
{
    let before = out_values(outs.drop_last());
    let last = outs.last().value;
    if k == outs.len() - 1 {
        assert((before + last)[before.len() + j] == outs[k].value[j]);
    } else {
        law_closure_sees_every_output(outs.drop_last(), k, j);
        let i = choose|i: int| 0 <= i < before.len() && before[i] == outs[k].value[j];
        assert((before + last)[i] == outs[k].value[j]);
    }
    reveal_with_fuel(out_values, 3);
    if outs.len() == 1 {
        assert(outs.drop_last() =~= Seq::empty());
        assert(out_values(outs) =~= outs[0].value);
    }
    if outs.len() == 2 {
        assert(outs.drop_last().drop_last() =~= Seq::empty());
        assert(out_values(outs) =~= outs[0].value + outs[1].value);
    }
}

/// An event is cancelled exactly where its status is a negative number.
pub proof fn law_negative_status_is_a_cancelled_event(code: i32, e: i32)
    ensures
        cancelled(Ok::<i32, i32>(code)) <==> code < 0,
        !cancelled(Err::<i32, i32>(e)),
{
}

/// What a worker does with the status of an event: a cancelled event of the value stops
/// it without an error of its own, a cancelled map with the status as the error, and in
/// either case the closure is not called and what follows is ended with a failure. An
/// event that finished leads to the next one of the list, then to the maps, then to the
/// closure: none is passed over.
pub proof fn law_worker_waits_for_every_event(i: usize, j: usize, code: i32, sources: usize, maps: usize)
    requires
        i < sources,
        j < maps,
    ensures
        code < 0 ==> (step_after(WorkerStep::Source(i), Ok(code), sources as nat, maps as nat) matches WorkerStep::Stop(r)
            && r.status < 0 && r.error is None),
        code < 0 ==> (step_after(WorkerStep::Mapping(j), Ok(code), sources as nat, maps as nat) matches WorkerStep::Stop(
            r,
        ) && r.status < 0 && r.error == Some(Error::OpenCl(code))),
        code >= 0 && i + 1 < sources ==> step_after(WorkerStep::Source(i), Ok(code), sources as nat, maps as nat)
            == WorkerStep::Source((i + 1) as usize),
        code >= 0 && i + 1 == sources ==> step_after(WorkerStep::Source(i), Ok(code), sources as nat, maps as nat)
            == WorkerStep::Mapping(0usize),
        code >= 0 && j + 1 < maps ==> step_after(WorkerStep::Mapping(j), Ok(code), sources as nat, maps as nat)
            == WorkerStep::Mapping((j + 1) as usize),
        code >= 0 && j + 1 == maps ==> step_after(WorkerStep::Mapping(j), Ok(code), sources as nat, maps as nat)
            is Call,
{
}

/// What a worker reports of a closure: zero and no error where it returned well, a
/// failure and the closure's own error where it did not, and a panic as an error with
/// the text of the panic.
pub proof fn law_report_says_how_the_closure_ended(end: ClosureEnd, r: WorkerReport)
    requires
        reports_end(end, r),
    ensures
        end is Done ==> r.status == 0 && r.error is None,
        !(end is Done) ==> r.status < 0 && r.error is Some,
        end matches ClosureEnd::Failed(e) ==> r.error == Some(e),
        end matches ClosureEnd::PanickedWith(msg) ==> r.error == Some(Error::HostPanic(msg)),
        end is Panicked ==> (r.error matches Some(Error::HostPanic(msg)) && msg@ == "non-string panic payload"@),
{
}

/// A worker ends by releasing the unmaps, whatever the closure did, and then what comes
/// after, with the closure's status.
pub proof fn law_worker_releases_unmaps_first(fire: u64, proceed: u64, status: i32)
    ensures
        worker_end(fire, proceed, status).len() == 2,
        worker_end(fire, proceed, status)[0] == (Command::Complete { event: fire, status: 0 }),
        worker_end(fire, proceed, status)[1] == (Command::Complete { event: proceed, status }),
{
}

/// A worker starts with the first event of the value, else with the first map, and calls the
/// closure at once only where there is neither. Behind the last event without maps comes the
/// call.
pub proof fn law_worker_starts_with_its_first_event(sources: nat, maps: nat, i: usize, code: i32)
    ensures
        sources > 0 ==> step_at(0, sources, 0, maps) == WorkerStep::Source(0usize),
        sources == 0 && maps > 0 ==> step_at(0, sources, 0, maps) == WorkerStep::Mapping(0usize),
        sources == 0 && maps == 0 ==> step_at(0, sources, 0, maps) is Call,
        i + 1 == sources && maps == 0 && code >= 0 ==> step_after(WorkerStep::Source(i), Ok(code), sources, maps) is Call,
{
}

/// How a worker's wait comes out: a cancelled event of the value stops it, and no error is
/// its own; else the first cancelled map does, with its status as the error; else it calls
/// the closure.
pub proof fn law_first_cancelled_map_decides(sources: Seq<EventStatus>, maps: Seq<EventStatus>, k: int, i: int)
    ensures
        0 <= i < sources.len() && cancelled(sources[i]) ==> (worker_verdict(sources, maps) matches WorkerStep::Stop(r)
            && r.status < 0 && r.error is None),
        (forall|i: int| 0 <= i < sources.len() ==> !cancelled(#[trigger] sources[i])) && 0 <= k < maps.len() && cancelled(
            maps[k],
        ) && (forall|j: int| 0 <= j < k ==> !cancelled(#[trigger] maps[j])) ==> (worker_verdict(sources, maps) matches
            WorkerStep::Stop(r) && r.status < 0 && r.error == Some(Error::OpenCl(maps[k]->Ok_0))),
        (forall|i: int| 0 <= i < sources.len() ==> !cancelled(#[trigger] sources[i])) && (forall|j: int|
            0 <= j < maps.len() ==> !cancelled(#[trigger] maps[j])) ==> worker_verdict(sources, maps) is Call,
{
    if 0 <= k < maps.len() && cancelled(maps[k]) && (forall|j: int| 0 <= j < k ==> !cancelled(#[trigger] maps[j])) {
        lemma_bad_map(maps, 0, k);
    }
    if forall|j: int| 0 <= j < maps.len() ==> !cancelled(#[trigger] maps[j]) {
        lemma_no_bad_map(maps, 0);
    }
}

proof fn lemma_bad_map(maps: Seq<EventStatus>, j: nat, k: int)
    requires
        j <= k < maps.len(),
        cancelled(maps[k]),
        forall|i: int| j <= i < k ==> !cancelled(#[trigger] maps[i]),
    ensures
        first_bad_map(maps, j) matches WorkerStep::Stop(r) && r.status < 0 && r.error == Some(
            Error::OpenCl(maps[k]->Ok_0),
        ),
    decreases k - j,
{
    if j < k {
        assert(!cancelled(maps[j as int]));
        lemma_bad_map(maps, j + 1, k);
    }
}

proof fn lemma_no_bad_map(maps: Seq<EventStatus>, j: nat)
    requires
        forall|i: int| j <= i < maps.len() ==> !cancelled(#[trigger] maps[i]),
    ensures
        first_bad_map(maps, j) is Call,
    decreases maps.len() - j,
{
    if j < maps.len() {
        assert(!cancelled(maps[j as int]));
        lemma_no_bad_map(maps, j + 1);
    }
}

} // verus!
