//! What slots promise: the table of binds, lending and giving back, and what a
//! bind does to a whole graph.

use crate::binding::{bound_world, fresh_binding, fresh_probe};
use crate::error::Error;
use crate::graph::{
    bind_from, bind_inputs, bind_of, invalidate_from, invalidate_of, ready_from, ready_of, DeviceOp,
};
use crate::ids::ids_meet;
use crate::input::{
    after_offer, after_taking, barrier_deps, binding_at, busy_error, found, offered, readiness, site_cell, site_key,
    site_sink, state_at, Input,
};
use crate::launch_op::all_ready;
use crate::leaf_op::LeafOp;
use crate::leaves::LeafNode;
use crate::obj::Obj;
use crate::slots::{
    deferred_error, deferred_world, kind_of, same_binding, AnyValue, BindFault, BindMode, Binding, SlotState,
    ScalarInput, SlotValue, ValueKind,
};
use crate::store::{ParcelView, Pipe, World};
use vstd::prelude::*;

verus! {

/// Counting as the same binding is an equivalence on values of one type.
pub proof fn law_same_binding_is_equivalence(a: AnyValue, b: AnyValue, c: AnyValue)
    ensures
        same_binding(a, a),
        same_binding(a, b) ==> same_binding(b, a),
        same_binding(a, b) && same_binding(b, c) ==> same_binding(a, c),
{
}

/// The table of binds, for a binding that carries an object and meets a slot
/// with its key: an unbound slot is filled by both verbs; a bound one accepts an
/// equal value again, refuses a different one under the set-once verb, and is
/// overwritten by the other; a lent slot refuses both and stays lent; a severed
/// one refuses the set-once verb and is filled by the other.
pub proof fn law_bind_table(s: SlotState<Obj>, cell: u64, name: &'static str, b: Binding, o: Obj)
    requires
        b.value == Some(o.erased()),
        !b.probe,
        b.feed is None,
    ensures
        s is Unbound ==> state_at(s, b) == SlotState::Bound(o) && binding_at(s, cell, name, b).outcome
            == b.outcome,
        s matches SlotState::Bound(cur) ==> {
            &&& b.mode == BindMode::SetOnce && cur.mem_spec() == o.mem_spec() ==> state_at(s, b) == s
                && binding_at(s, cell, name, b) == b
            &&& b.mode == BindMode::SetOnce && cur.mem_spec() != o.mem_spec() ==> state_at(s, b) == s
                && binding_at(s, cell, name, b) == b.refuse(BindFault::Conflict(name))
            &&& b.mode == BindMode::Mutate ==> state_at(s, b) == SlotState::Bound(o) && binding_at(
                s,
                cell,
                name,
                b,
            ).outcome == b.outcome
        },
        s is Lent ==> state_at(s, b) == s && binding_at(s, cell, name, b) == b.refuse(
            BindFault::CheckedOut(name),
        ),
        s is Severed ==> {
            &&& b.mode == BindMode::SetOnce ==> state_at(s, b) == s && binding_at(s, cell, name, b)
                == b.refuse(BindFault::Severed(name))
            &&& b.mode == BindMode::Mutate ==> state_at(s, b) == SlotState::Bound(o) && binding_at(
                s,
                cell,
                name,
                b,
            ).outcome == b.outcome
        },
{
}

/// A value lent by a concrete input or by a bound slot, and given back, leaves
/// every cell as it was.
pub proof fn law_lend_and_give_back(w: World, barrier: Option<u64>, input: Input)
    requires
        found(w, barrier, input) is Ok,
        match input {
            Input::Concrete(_) => true,
            Input::Slot { cell, .. } => w.slot(cell) is Bound,
            Input::Pipe(_) | Input::Scalar { .. } => false,
        },
    ensures
        ({
            let p = found(w, barrier, input)->Ok_0;
            after_taking(w, input).rehomed(p.home, p.value) == w
        }),
{
    let p = found(w, barrier, input)->Ok_0;
    match input {
        Input::Concrete(c) => {
            assert(w.cells.remove(c).insert(c, w.cells[c]) =~= w.cells);
        },
        Input::Slot { cell, .. } => {
            assert(w.slots.insert(cell, SlotState::Lent).insert(cell, w.slots[cell]) =~= w.slots);
        },
        _ => {},
    }
}

/// What is lent cannot be lent again before it is given back.
pub proof fn law_no_second_lend(w: World, barrier: Option<u64>, input: Input)
    requires
        found(w, barrier, input) is Ok,
    ensures
        match input {
            Input::Concrete(_) => found(after_taking(w, input), barrier, input) == Err::<ParcelView, Error>(
                busy_error(),
            ),
            Input::Slot { name, cell, .. } => w.slot(cell) is Bound ==> found(
                after_taking(w, input),
                barrier,
                input,
            ) == Err::<ParcelView, Error>(Error::SlotUnbound(name)),
            Input::Pipe(_) | Input::Scalar { .. } => found(after_taking(w, input), barrier, input) is Err,
        },
{
}

/// A slot whose lent value was taken for good is empty, refuses the set-once
/// verb, and takes a new value under the other.
pub proof fn law_sever_then_rebind(w: World, barrier: Option<u64>, input: Input, b: Binding, o: Obj)
    requires
        input matches Input::Slot { key, cell, .. } && w.slot(cell) is Bound && key == b.key,
        b.value == Some(o.erased()),
        !b.probe,
        b.feed is None,
    ensures
        ({
            let cell = input->Slot_cell;
            let name = input->Slot_name;
            let p = found(w, barrier, input)->Ok_0;
            let v = after_taking(w, input).severed(p.home);
            &&& v.slot(cell) == SlotState::<Obj>::Severed
            &&& found(v, barrier, input) == Err::<ParcelView, Error>(Error::SlotUnbound(name))
            &&& b.mode == BindMode::SetOnce ==> after_offer(v, input, b) == v && offered(v, input, b).outcome
                == Some(BindFault::Severed(name))
            &&& b.mode == BindMode::Mutate ==> after_offer(v, input, b).slot(cell) == SlotState::Bound(o)
        }),
{
}

/// What counts as ready can be taken: a run that was let through by the check
/// finds the value of every concrete input and every bound slot.
pub proof fn law_ready_inputs_can_be_taken(w: World, barrier: Option<u64>, input: Input)
    requires
        readiness(w, input) is Ok,
        match input {
            Input::Concrete(_) => true,
            Input::Slot { cell, .. } => !(w.slot(cell) is FedByPipe),
            Input::Pipe(_) | Input::Scalar { .. } => false,
        },
    ensures
        found(w, barrier, input) matches Ok(p) && p.value.len() == 1 && p.deps == barrier_deps(barrier),
{
}

/// An error recorded against a graph stays: later errors do not hide it, and
/// the slots behind the sink are never ready again.
pub proof fn law_recorded_errors_stay(w: World, input: Input, e: Error)
    requires
        input matches Input::Slot { sink, .. } && w.sink(sink).len() > 0,
    ensures
        readiness(w, input) is Err,
        ({
            let sink = input->Slot_sink;
            let v = World { sinks: w.sinks.insert(sink, w.sink(sink).push(e)), ..w };
            deferred_error(v.sink(sink)) == deferred_error(w.sink(sink)) && readiness(v, input) == readiness(
                w,
                input,
            )
        }),
{
    let sink = input->Slot_sink;
    assert(w.sink(sink).push(e)[0] == w.sink(sink)[0]);
}

/// What a probe foresees: with the lent slots whose checkouts are to be taken
/// for good counted as severed, the probe refuses exactly where a bind of some
/// value would be refused for the slot's state. Only a different value under the
/// set-once verb is beyond it.
pub proof fn law_probe_foresees_bind(
    s: SlotState<Obj>,
    cell: u64,
    name: &'static str,
    probe: Binding,
    b: Binding,
    o: Obj,
)
    requires
        probe.probe,
        probe.outcome is None,
        b.value == Some(o.erased()),
        !b.probe,
        b.feed is None,
        b.outcome is None,
        b.mode == probe.mode,
        s matches SlotState::Bound(cur) ==> b.mode == BindMode::Mutate || cur.mem_spec() == o.mem_spec(),
    ensures
        ({
            let then = if s is Lent && probe.severable.contains(cell) {
                SlotState::<Obj>::Severed
            } else {
                s
            };
            binding_at(s, cell, name, probe).outcome == binding_at(then, cell, name, b).outcome
        }),
{
}

proof fn lemma_probe_offer(w: World, input: Input, b: Binding)
    requires
        b.probe,
    ensures
        after_offer(w, input, b) == w,
        offered(w, input, b).probe,
{
}

proof fn lemma_probe_inputs(inputs: Seq<Input>, i: nat, w: World, b: Binding)
    requires
        b.probe,
    ensures
        bind_inputs(inputs, i, w, b).0 == w,
        bind_inputs(inputs, i, w, b).1.probe,
    decreases inputs.len() - i,
{
    if i < inputs.len() {
        lemma_probe_offer(w, inputs[i as int], b);
        let b1 = offered(w, inputs[i as int], b);
        if !b1.done() {
            lemma_probe_inputs(inputs, i + 1, w, b1);
        }
    }
}

/// A probe changes no cell.
pub proof fn law_probe_changes_nothing(op: DeviceOp, w: World, b: Binding)
    requires
        b.probe,
    ensures
        bind_of(op, w, b).0 == w,
        bind_of(op, w, b).1.probe,
    decreases op,
{
    match op {
        DeviceOp::Leaf(l) => {
            lemma_probe_inputs(l.slots(), 0, w, b);
        },
        DeviceOp::AndThen(n) => {
            law_probe_changes_nothing(n.source, w, b);
            let b1 = bind_of(n.source, w, b).1;
            law_probe_changes_nothing(n.next, w, b1);
        },
        DeviceOp::Bundle(n) => {
            lemma_probe_from(n.ops, 0, w, b);
        },
        DeviceOp::Host(n) => {
            law_probe_changes_nothing(n.source, w, b);
        },
        DeviceOp::HostWithContext(n) => {
            law_probe_changes_nothing(n.source, w, b);
        },
        _ => {},
    }
}

proof fn lemma_probe_from(ops: Vec<DeviceOp>, i: nat, w: World, b: Binding)
    requires
        b.probe,
    ensures
        bind_from(ops, i, w, b).0 == w,
        bind_from(ops, i, w, b).1.probe,
    decreases ops, ops.len() - i,
{
    if i < ops.len() {
        law_probe_changes_nothing(ops[i as int], w, b);
        let b1 = bind_of(ops[i as int], w, b).1;
        if !b1.done() {
            lemma_probe_from(ops, i + 1, w, b1);
        }
    }
}

/// Whether `c` is a slot of an op that a bind with key `key` is offered to.
pub open spec fn slot_in(op: DeviceOp, key: u64, c: u64) -> bool
    decreases op,
{
    match op {
        DeviceOp::Leaf(l) => slot_among(l.slots(), 0, key, c),
        DeviceOp::AndThen(n) => slot_in(n.source, key, c) || slot_in(n.next, key, c),
        DeviceOp::Bundle(n) => slot_in_from(n.ops, 0, key, c),
        DeviceOp::Host(n) => slot_in(n.source, key, c),
        DeviceOp::HostWithContext(n) => slot_in(n.source, key, c),
        _ => false,
    }
}

/// Whether `c` is a slot with key `key` of the ops from index `i` on.
pub open spec fn slot_in_from(ops: Vec<DeviceOp>, i: nat, key: u64, c: u64) -> bool
    decreases ops, ops.len() - i,
{
    i < ops.len() && (slot_in(ops[i as int], key, c) || slot_in_from(ops, i + 1, key, c))
}

/// Whether `c` is a slot with key `key` among inputs from index `i` on.
pub open spec fn slot_among(inputs: Seq<Input>, i: nat, key: u64, c: u64) -> bool
    decreases inputs.len() - i,
{
    i < inputs.len() && ((inputs[i as int] matches Input::Slot { key: k, cell, .. } && k == key && cell == c)
        || slot_among(inputs, i + 1, key, c))
}

/// Whether `c` is a slot of an op that a bind with key `key` is offered to.
pub open spec fn site_in(op: DeviceOp, key: u64, c: u64) -> bool
    decreases op,
{
    match op {
        DeviceOp::Leaf(l) => site_among(l.slots(), 0, key, c),
        DeviceOp::AndThen(n) => site_in(n.source, key, c) || site_in(n.next, key, c),
        DeviceOp::Bundle(n) => site_in_from(n.ops, 0, key, c),
        DeviceOp::Host(n) => site_in(n.source, key, c),
        DeviceOp::HostWithContext(n) => site_in(n.source, key, c),
        _ => false,
    }
}

/// Whether `c` is a slot, for memory or a scalar, with key `key` of the ops from index `i` on.
pub open spec fn site_in_from(ops: Vec<DeviceOp>, i: nat, key: u64, c: u64) -> bool
    decreases ops, ops.len() - i,
{
    i < ops.len() && (site_in(ops[i as int], key, c) || site_in_from(ops, i + 1, key, c))
}

/// Whether `c` is a slot, for memory or a scalar, with key `key` among inputs from index `i` on.
pub open spec fn site_among(inputs: Seq<Input>, i: nat, key: u64, c: u64) -> bool
    decreases inputs.len() - i,
{
    i < inputs.len() && ((site_key(inputs[i as int]) == Some(key) && site_cell(inputs[i as int]) == Some(c))
        || site_among(inputs, i + 1, key, c))
}

/// What a bind keeps on its way: its key, verb and kind, and everything in the
/// cells but the slots.
pub open spec fn bind_keeps(w: World, b: Binding, w1: World, b1: Binding) -> bool {
    &&& b1.key == b.key
    &&& b1.mode == b.mode
    &&& b1.probe == b.probe
    &&& b1.feed == b.feed
    &&& b1.severable == b.severable
    &&& b1.deferred == b.deferred
    &&& b1.value is Some ==> b1.value == b.value
    &&& w1 == (World { slots: w1.slots, scalars: w1.scalars, ..w })
}

proof fn lemma_keeps_offer(w: World, input: Input, b: Binding)
    ensures
        bind_keeps(w, b, after_offer(w, input, b), offered(w, input, b)),
{
}

proof fn lemma_keeps_inputs(inputs: Seq<Input>, i: nat, w: World, b: Binding)
    ensures
        bind_keeps(w, b, bind_inputs(inputs, i, w, b).0, bind_inputs(inputs, i, w, b).1),
    decreases inputs.len() - i,
{
    if i < inputs.len() {
        lemma_keeps_offer(w, inputs[i as int], b);
        let w1 = after_offer(w, inputs[i as int], b);
        let b1 = offered(w, inputs[i as int], b);
        if !b1.done() {
            lemma_keeps_inputs(inputs, i + 1, w1, b1);
        }
    }
}

/// A bind touches slots alone: pipes, concrete inputs, uploads, recorded errors
/// and command buffers stay as they are.
pub proof fn law_bind_touches_slots_alone(op: DeviceOp, w: World, b: Binding)
    ensures
        bind_keeps(w, b, bind_of(op, w, b).0, bind_of(op, w, b).1),
    decreases op,
{
    match op {
        DeviceOp::Leaf(l) => {
            lemma_keeps_inputs(l.slots(), 0, w, b);
        },
        DeviceOp::AndThen(n) => {
            law_bind_touches_slots_alone(n.source, w, b);
            let (w1, b1) = bind_of(n.source, w, b);
            law_bind_touches_slots_alone(n.next, w1, b1);
        },
        DeviceOp::Bundle(n) => {
            lemma_keeps_from(n.ops, 0, w, b);
        },
        DeviceOp::Host(n) => {
            law_bind_touches_slots_alone(n.source, w, b);
        },
        DeviceOp::HostWithContext(n) => {
            law_bind_touches_slots_alone(n.source, w, b);
        },
        _ => {},
    }
}

proof fn lemma_keeps_from(ops: Vec<DeviceOp>, i: nat, w: World, b: Binding)
    ensures
        bind_keeps(w, b, bind_from(ops, i, w, b).0, bind_from(ops, i, w, b).1),
    decreases ops, ops.len() - i,
{
    if i < ops.len() {
        law_bind_touches_slots_alone(ops[i as int], w, b);
        let (w1, b1) = bind_of(ops[i as int], w, b);
        if !b1.done() {
            lemma_keeps_from(ops, i + 1, w1, b1);
        }
    }
}

proof fn lemma_absent_inputs(inputs: Seq<Input>, i: nat, w: World, b: Binding)
    requires
        forall|c: u64| !(#[trigger] site_among(inputs, i, b.key, c)),
    ensures
        bind_inputs(inputs, i, w, b).0 == w,
        bind_inputs(inputs, i, w, b).1.matched == b.matched,
        bind_inputs(inputs, i, w, b).1.outcome == b.outcome,
        bind_inputs(inputs, i, w, b).1.key == b.key,
        bind_inputs(inputs, i, w, b).1.value == b.value,
    decreases inputs.len() - i,
{
    if i < inputs.len() {
        let b1 = offered(w, inputs[i as int], b);
        assert forall|c: u64| !(#[trigger] site_among(inputs, i + 1, b.key, c)) by {
            assert(!site_among(inputs, i, b.key, c));
        }
        if let Some(c) = site_cell(inputs[i as int]) {
            assert(!site_among(inputs, i, b.key, c));
        }
        if !b1.done() {
            lemma_absent_inputs(inputs, i + 1, after_offer(w, inputs[i as int], b), b1);
        }
    }
}

/// A tag that no slot of the graph carries: nothing is matched, and no cell
/// changes.
pub proof fn law_absent_tag_matches_nothing(op: DeviceOp, w: World, b: Binding)
    requires
        forall|c: u64| !(#[trigger] site_in(op, b.key, c)),
    ensures
        bind_of(op, w, b).0 == w,
        bind_of(op, w, b).1.matched == b.matched,
        bind_of(op, w, b).1.outcome == b.outcome,
        bind_of(op, w, b).1.key == b.key,
        bind_of(op, w, b).1.value == b.value,
    decreases op,
{
    match op {
        DeviceOp::Leaf(l) => {
            assert forall|c: u64| !(#[trigger] site_among(l.slots(), 0, b.key, c)) by {
                assert(!site_in(op, b.key, c));
            }
            lemma_absent_inputs(l.slots(), 0, w, b);
        },
        DeviceOp::AndThen(n) => {
            assert forall|c: u64| !(#[trigger] site_in(n.source, b.key, c)) by {
                assert(!site_in(op, b.key, c));
            }
            law_absent_tag_matches_nothing(n.source, w, b);
            let (w1, b1) = bind_of(n.source, w, b);
            assert forall|c: u64| !(#[trigger] site_in(n.next, b1.key, c)) by {
                assert(!site_in(op, b.key, c));
            }
            law_absent_tag_matches_nothing(n.next, w1, b1);
        },
        DeviceOp::Bundle(n) => {
            assert forall|c: u64| !(#[trigger] site_in_from(n.ops, 0, b.key, c)) by {
                assert(!site_in(op, b.key, c));
            }
            lemma_absent_from(n.ops, 0, w, b);
        },
        DeviceOp::Host(n) => {
            assert forall|c: u64| !(#[trigger] site_in(n.source, b.key, c)) by {
                assert(!site_in(op, b.key, c));
            }
            law_absent_tag_matches_nothing(n.source, w, b);
        },
        DeviceOp::HostWithContext(n) => {
            assert forall|c: u64| !(#[trigger] site_in(n.source, b.key, c)) by {
                assert(!site_in(op, b.key, c));
            }
            law_absent_tag_matches_nothing(n.source, w, b);
        },
        _ => {},
    }
}

proof fn lemma_absent_from(ops: Vec<DeviceOp>, i: nat, w: World, b: Binding)
    requires
        forall|c: u64| !(#[trigger] site_in_from(ops, i, b.key, c)),
    ensures
        bind_from(ops, i, w, b).0 == w,
        bind_from(ops, i, w, b).1.matched == b.matched,
        bind_from(ops, i, w, b).1.outcome == b.outcome,
        bind_from(ops, i, w, b).1.key == b.key,
        bind_from(ops, i, w, b).1.value == b.value,
    decreases ops, ops.len() - i,
{
    if i < ops.len() {
        assert forall|c: u64| !(#[trigger] site_in(ops[i as int], b.key, c)) by {
            assert(!site_in_from(ops, i, b.key, c));
        }
        law_absent_tag_matches_nothing(ops[i as int], w, b);
        let (w1, b1) = bind_of(ops[i as int], w, b);
        if !b1.done() {
            assert forall|c: u64| !(#[trigger] site_in_from(ops, i + 1, b1.key, c)) by {
                assert(!site_in_from(ops, i, b.key, c));
            }
            lemma_absent_from(ops, i + 1, w1, b1);
        }
    }
}

/// The error of a bind to a tag that no slot carries.
pub proof fn law_absent_tag_is_an_error(op: DeviceOp, w: World, b: Binding, name: &'static str)
    requires
        forall|c: u64| !(#[trigger] site_in(op, b.key, c)),
        b.matched.len() == 0,
        b.outcome is None,
    ensures
        bind_of(op, w, b).1.verdict(name) == Err::<(), Error>(Error::SlotNoSuchTag(name)),
{
    law_absent_tag_matches_nothing(op, w, b);
}

/// Whether no slot of an op with key `key` is lent, but for those in `severable`.
pub open spec fn none_held(op: DeviceOp, w: World, key: u64, severable: Seq<u64>) -> bool {
    forall|c: u64| #[trigger] slot_in(op, key, c) ==> !(w.slot(c) is Lent) || severable.contains(c)
}

proof fn lemma_probed_inputs(inputs: Seq<Input>, i: nat, w: World, b: Binding)
    requires
        b.probe,
        b.mode == BindMode::Mutate,
        bind_inputs(inputs, i, w, b).1.outcome is None,
    ensures
        b.outcome is None,
        forall|c: u64| #[trigger]
            slot_among(inputs, i, b.key, c) ==> !(w.slot(c) is Lent) || b.severable.contains(c),
    decreases inputs.len() - i,
{
    if i < inputs.len() {
        let b1 = offered(w, inputs[i as int], b);
        lemma_probe_offer(w, inputs[i as int], b);
        lemma_keeps_offer(w, inputs[i as int], b);
        lemma_probed_inputs(inputs, i + 1, w, b1);
        assert forall|c: u64| #[trigger] slot_among(inputs, i, b.key, c) implies !(w.slot(c) is Lent)
            || b.severable.contains(c) by {
            if slot_among(inputs, i + 1, b1.key, c) {
            } else {
                assert(inputs[i as int]->Slot_cell == c);
            }
        }
    }
}

proof fn lemma_probed_from(ops: Vec<DeviceOp>, i: nat, w: World, b: Binding)
    requires
        b.probe,
        b.mode == BindMode::Mutate,
        bind_from(ops, i, w, b).1.outcome is None,
    ensures
        b.outcome is None,
        forall|c: u64| #[trigger]
            slot_in_from(ops, i, b.key, c) ==> !(w.slot(c) is Lent) || b.severable.contains(c),
    decreases ops, ops.len() - i,
{
    if i < ops.len() {
        let op = ops[i as int];
        let (w1, b1) = bind_of(op, w, b);
        law_probe_changes_nothing(op, w, b);
        law_bind_touches_slots_alone(op, w, b);
        lemma_probed_from(ops, i + 1, w1, b1);
        lemma_probed(op, w, b);
        assert forall|c: u64| #[trigger] slot_in_from(ops, i, b.key, c) implies !(w.slot(c) is Lent)
            || b.severable.contains(c) by {
            if slot_in(op, b.key, c) {
            } else {
                assert(slot_in_from(ops, i + 1, b1.key, c));
            }
        }
    }
}

/// A probe under the changing verb that found nothing to refuse met no slot that
/// another checkout holds.
proof fn lemma_probed(op: DeviceOp, w: World, b: Binding)
    requires
        b.probe,
        b.mode == BindMode::Mutate,
        bind_of(op, w, b).1.outcome is None,
    ensures
        b.outcome is None,
        none_held(op, w, b.key, b.severable),
    decreases op,
{
    match op {
        DeviceOp::Leaf(l) => {
            lemma_probed_inputs(l.slots(), 0, w, b);
            assert forall|c: u64| #[trigger] slot_in(op, b.key, c) implies !(w.slot(c) is Lent)
                || b.severable.contains(c) by {
                assert(slot_among(l.slots(), 0, b.key, c));
            }
        },
        DeviceOp::AndThen(n) => {
            let (w1, b1) = bind_of(n.source, w, b);
            law_probe_changes_nothing(n.source, w, b);
            law_bind_touches_slots_alone(n.source, w, b);
            lemma_probed(n.next, w1, b1);
            lemma_probed(n.source, w, b);
            assert forall|c: u64| #[trigger] slot_in(op, b.key, c) implies !(w.slot(c) is Lent)
                || b.severable.contains(c) by {
                if slot_in(n.source, b.key, c) {
                } else {
                    assert(slot_in(n.next, b1.key, c));
                }
            }
        },
        DeviceOp::Bundle(n) => {
            lemma_probed_from(n.ops, 0, w, b);
            assert forall|c: u64| #[trigger] slot_in(op, b.key, c) implies !(w.slot(c) is Lent)
                || b.severable.contains(c) by {
                assert(slot_in_from(n.ops, 0, b.key, c));
            }
        },
        DeviceOp::Host(n) => {
            lemma_probed(n.source, w, b);
            assert forall|c: u64| #[trigger] slot_in(op, b.key, c) implies !(w.slot(c) is Lent)
                || b.severable.contains(c) by {
                assert(slot_in(n.source, b.key, c));
            }
        },
        DeviceOp::HostWithContext(n) => {
            lemma_probed(n.source, w, b);
            assert forall|c: u64| #[trigger] slot_in(op, b.key, c) implies !(w.slot(c) is Lent)
                || b.severable.contains(c) by {
                assert(slot_in(n.source, b.key, c));
            }
        },
        _ => {},
    }
}

/// Whether a binding carries an object, or has handed it out, under the changing
/// verb.
pub open spec fn changes(b: Binding) -> bool {
    !b.probe && b.feed is None && b.mode == BindMode::Mutate
}

/// What a bind under the changing verb does where no slot it meets is lent: it is
/// not refused, and no slot becomes lent.
pub open spec fn accepted(w: World, b: Binding, w1: World, b1: Binding) -> bool {
    &&& b1.outcome == b.outcome
    &&& changes(b1)
    &&& b1.key == b.key
    &&& b.matched.len() <= b1.matched.len()
    &&& forall|c: u64| !(w.slot(c) is Lent) ==> !(#[trigger] w1.slot(c) is Lent)
}

proof fn lemma_accepted_inputs(inputs: Seq<Input>, i: nat, w: World, b: Binding)
    requires
        changes(b),
        forall|c: u64| #[trigger] slot_among(inputs, i, b.key, c) ==> !(w.slot(c) is Lent),
    ensures
        accepted(w, b, bind_inputs(inputs, i, w, b).0, bind_inputs(inputs, i, w, b).1),
        (exists|c: u64| site_among(inputs, i, b.key, c)) && !b.done() ==> b.matched.len() < bind_inputs(
            inputs,
            i,
            w,
            b,
        ).1.matched.len(),
    decreases inputs.len() - i,
{
    if i < inputs.len() {
        let input = inputs[i as int];
        let w1 = after_offer(w, input, b);
        let b1 = offered(w, input, b);
        if input is Slot && input->Slot_key == b.key {
            assert(slot_among(inputs, i, b.key, input->Slot_cell));
        }
        assert(accepted(w, b, w1, b1));
        assert forall|c: u64| #[trigger] slot_among(inputs, i + 1, b1.key, c) implies !(w1.slot(c) is Lent) by {
            assert(slot_among(inputs, i, b.key, c));
        }
        lemma_accepted_inputs(inputs, i + 1, w1, b1);
        if (exists|c: u64| site_among(inputs, i, b.key, c)) && site_key(input) != Some(b.key) {
            let c = choose|c: u64| site_among(inputs, i, b.key, c);
            assert(site_among(inputs, i + 1, b1.key, c));
        }
    }
}

proof fn lemma_accepted_from(ops: Vec<DeviceOp>, i: nat, w: World, b: Binding)
    requires
        changes(b),
        forall|c: u64| #[trigger] slot_in_from(ops, i, b.key, c) ==> !(w.slot(c) is Lent),
    ensures
        accepted(w, b, bind_from(ops, i, w, b).0, bind_from(ops, i, w, b).1),
        (exists|c: u64| site_in_from(ops, i, b.key, c)) && !b.done() ==> b.matched.len() < bind_from(
            ops,
            i,
            w,
            b,
        ).1.matched.len(),
    decreases ops, ops.len() - i,
{
    if i < ops.len() {
        let op = ops[i as int];
        let (w1, b1) = bind_of(op, w, b);
        assert forall|c: u64| #[trigger] slot_in(op, b.key, c) implies !(w.slot(c) is Lent) by {
            assert(slot_in_from(ops, i, b.key, c));
        }
        lemma_accepted(op, w, b);
        assert forall|c: u64| #[trigger] slot_in_from(ops, i + 1, b1.key, c) implies !(w1.slot(c) is Lent) by {
            assert(slot_in_from(ops, i, b.key, c));
        }
        lemma_accepted_from(ops, i + 1, w1, b1);
        if (exists|c: u64| site_in_from(ops, i, b.key, c)) && !(exists|c: u64| site_in(op, b.key, c)) {
            let c = choose|c: u64| site_in_from(ops, i, b.key, c);
            assert(!site_in(op, b.key, c));
            assert(site_in_from(ops, i + 1, b1.key, c));
            assert forall|c: u64| !(#[trigger] site_in(op, b.key, c)) by {}
            law_absent_tag_matches_nothing(op, w, b);
        }
    }
}

/// A bind under the changing verb is accepted where no slot it meets is lent, and
/// meets a slot where there is one.
proof fn lemma_accepted(op: DeviceOp, w: World, b: Binding)
    requires
        changes(b),
        forall|c: u64| #[trigger] slot_in(op, b.key, c) ==> !(w.slot(c) is Lent),
    ensures
        accepted(w, b, bind_of(op, w, b).0, bind_of(op, w, b).1),
        (exists|c: u64| site_in(op, b.key, c)) && !b.done() ==> b.matched.len() < bind_of(
            op,
            w,
            b,
        ).1.matched.len(),
    decreases op,
{
    match op {
        DeviceOp::Leaf(l) => {
            assert forall|c: u64| #[trigger] slot_among(l.slots(), 0, b.key, c) implies !(w.slot(c) is Lent) by {
                assert(slot_in(op, b.key, c));
            }
            lemma_accepted_inputs(l.slots(), 0, w, b);
            if exists|c: u64| site_in(op, b.key, c) {
                let c = choose|c: u64| site_in(op, b.key, c);
                assert(site_among(l.slots(), 0, b.key, c));
            }
        },
        DeviceOp::AndThen(n) => {
            let (w1, b1) = bind_of(n.source, w, b);
            assert forall|c: u64| #[trigger] slot_in(n.source, b.key, c) implies !(w.slot(c) is Lent) by {
                assert(slot_in(op, b.key, c));
            }
            lemma_accepted(n.source, w, b);
            assert forall|c: u64| #[trigger] slot_in(n.next, b1.key, c) implies !(w1.slot(c) is Lent) by {
                assert(slot_in(op, b.key, c));
            }
            lemma_accepted(n.next, w1, b1);
            if (exists|c: u64| site_in(op, b.key, c)) && !(exists|c: u64| site_in(n.source, b.key, c)) {
                let c = choose|c: u64| site_in(op, b.key, c);
                assert(!site_in(n.source, b.key, c));
                assert(site_in(n.next, b1.key, c));
                assert forall|c: u64| !(#[trigger] site_in(n.source, b.key, c)) by {}
                law_absent_tag_matches_nothing(n.source, w, b);
            }
        },
        DeviceOp::Bundle(n) => {
            assert forall|c: u64| #[trigger] slot_in_from(n.ops, 0, b.key, c) implies !(w.slot(c) is Lent) by {
                assert(slot_in(op, b.key, c));
            }
            lemma_accepted_from(n.ops, 0, w, b);
            if exists|c: u64| site_in(op, b.key, c) {
                let c = choose|c: u64| site_in(op, b.key, c);
                assert(site_in_from(n.ops, 0, b.key, c));
            }
        },
        DeviceOp::Host(n) => {
            assert forall|c: u64| #[trigger] slot_in(n.source, b.key, c) implies !(w.slot(c) is Lent) by {
                assert(slot_in(op, b.key, c));
            }
            lemma_accepted(n.source, w, b);
            if exists|c: u64| site_in(op, b.key, c) {
                let c = choose|c: u64| site_in(op, b.key, c);
                assert(site_in(n.source, b.key, c));
            }
        },
        DeviceOp::HostWithContext(n) => {
            assert forall|c: u64| #[trigger] slot_in(n.source, b.key, c) implies !(w.slot(c) is Lent) by {
                assert(slot_in(op, b.key, c));
            }
            lemma_accepted(n.source, w, b);
            if exists|c: u64| site_in(op, b.key, c) {
                let c = choose|c: u64| site_in(op, b.key, c);
                assert(site_in(n.source, b.key, c));
            }
        },
        _ => {},
    }
}

/// Several values can be changed all or none: where a probe of the graph refuses
/// nothing, the bind under the changing verb succeeds once the checkouts of
/// `severable`, and no others, were taken for good.
pub proof fn law_probed_bind_succeeds(
    op: DeviceOp,
    w: World,
    after: World,
    key: u64,
    name: &'static str,
    severable: Seq<u64>,
    o: Obj,
)
    requires
        bind_of(op, w, fresh_probe(key, BindMode::Mutate, severable)).1.verdict(name) is Ok,
        forall|c: u64| #[trigger]
            after.slot(c) == (if w.slot(c) is Lent && severable.contains(c) {
                SlotState::<Obj>::Severed
            } else {
                w.slot(c)
            }),
    ensures
        bind_of(op, after, fresh_binding(key, o, BindMode::Mutate)).1.verdict(name) is Ok,
{
    let probe = fresh_probe(key, BindMode::Mutate, severable);
    let b = fresh_binding(key, o, BindMode::Mutate);
    lemma_probed(op, w, probe);
    if !(exists|c: u64| site_in(op, key, c)) {
        assert forall|c: u64| !(#[trigger] site_in(op, probe.key, c)) by {}
        law_absent_tag_matches_nothing(op, w, probe);
    }
    assert forall|c: u64| #[trigger] slot_in(op, b.key, c) implies !(after.slot(c) is Lent) by {
        assert(!(w.slot(c) is Lent) || severable.contains(c));
    }
    lemma_accepted(op, after, b);
}

/// A scalar argument that is ready can be read, and it gives what was bound.
pub proof fn law_ready_scalars_can_be_read<V: SlotValue + Copy>(i: ScalarInput<V>, w: World, v: V)
    ensures
        i.site_spec() matches Some(site) && readiness(w, site) is Ok ==> i.reading(w) is Ok,
        i matches ScalarInput::Slot { cell, .. } && w.scalar(cell) == Some(v.erased()) ==> i.reading(w) == Ok::<V, Error>(
            v,
        ),
{
    if let ScalarInput::Slot { cell, .. } = i {
        if let Some(a) = w.scalar(cell) {
            V::lemma_kind(v, a);
        }
    }
}

/// Whether `c` is a scalar slot of type `kind` with key `key` of an op that a bind
/// visits.
pub open spec fn scalar_in(op: DeviceOp, key: u64, kind: ValueKind, c: u64) -> bool
    decreases op,
{
    match op {
        DeviceOp::Leaf(l) => scalar_among(l.slots(), 0, key, kind, c),
        DeviceOp::AndThen(n) => scalar_in(n.source, key, kind, c) || scalar_in(n.next, key, kind, c),
        DeviceOp::Bundle(n) => scalar_in_from(n.ops, 0, key, kind, c),
        DeviceOp::Host(n) => scalar_in(n.source, key, kind, c),
        DeviceOp::HostWithContext(n) => scalar_in(n.source, key, kind, c),
        _ => false,
    }
}

/// Whether `c` is a scalar slot with key `key` of the ops from index `i` on.
pub open spec fn scalar_in_from(ops: Vec<DeviceOp>, i: nat, key: u64, kind: ValueKind, c: u64) -> bool
    decreases ops, ops.len() - i,
{
    i < ops.len() && (scalar_in(ops[i as int], key, kind, c) || scalar_in_from(ops, i + 1, key, kind, c))
}

/// Whether `c` is a scalar slot with key `key` among inputs from index `i` on.
pub open spec fn scalar_among(inputs: Seq<Input>, i: nat, key: u64, kind: ValueKind, c: u64) -> bool
    decreases inputs.len() - i,
{
    i < inputs.len() && ((inputs[i as int] matches Input::Scalar { key: k, cell, kind: t, .. } && k == key && cell == c
        && t == kind) || scalar_among(inputs, i + 1, key, kind, c))
}

/// What a bind of a number or a grid does to scalar slots: those in `hit` hold it,
/// unless they hold another value and the verb only sets; no other changes.
pub open spec fn scalars_filled(w: World, w1: World, b: Binding, a: AnyValue, hit: spec_fn(u64) -> bool) -> bool {
    &&& forall|c: u64|
        hit(c) && (b.mode == BindMode::Mutate || w.scalar(c) is None) ==> #[trigger] w1.scalar(c) == Some(a)
    &&& forall|c: u64| (#[trigger] w1.scalar(c)) == w.scalar(c) || w1.scalar(c) == Some(a)
}

/// Whether a binding carries the number or grid `a`.
pub open spec fn carries(b: Binding, a: AnyValue) -> bool {
    &&& b.value == Some(a)
    &&& !(a is Object)
    &&& !b.probe
    &&& b.feed is None
}

proof fn lemma_scalars_filled_twice(
    w: World,
    w1: World,
    w2: World,
    b: Binding,
    a: AnyValue,
    first: spec_fn(u64) -> bool,
    second: spec_fn(u64) -> bool,
    both: spec_fn(u64) -> bool,
)
    requires
        scalars_filled(w, w1, b, a, first),
        scalars_filled(w1, w2, b, a, second),
        forall|c: u64| #[trigger] both(c) ==> first(c) || second(c),
    ensures
        scalars_filled(w, w2, b, a, both),
{
    assert forall|c: u64| (#[trigger] w2.scalar(c)) == w.scalar(c) || w2.scalar(c) == Some(a) by {
        assert(w1.scalar(c) == w.scalar(c) || w1.scalar(c) == Some(a));
    }
    assert forall|c: u64|
        both(c) && (b.mode == BindMode::Mutate || w.scalar(c) is None) implies #[trigger] w2.scalar(c) == Some(a) by {
        assert(w1.scalar(c) == w.scalar(c) || w1.scalar(c) == Some(a));
    }
}

proof fn lemma_carry_inputs(inputs: Seq<Input>, i: nat, w: World, b: Binding, a: AnyValue)
    requires
        carries(b, a),
    ensures
        carries(bind_inputs(inputs, i, w, b).1, a),
        bind_inputs(inputs, i, w, b).1.key == b.key,
        bind_inputs(inputs, i, w, b).1.mode == b.mode,
        scalars_filled(w, bind_inputs(inputs, i, w, b).0, b, a, |c: u64| scalar_among(inputs, i, b.key, kind_of(a), c)),
    decreases inputs.len() - i,
{
    if i < inputs.len() {
        let input = inputs[i as int];
        let w1 = after_offer(w, input, b);
        let b1 = offered(w, input, b);
        assert(b.given::<Obj>() is None);
        assert(carries(b1, a));
        assert(!b1.done());
        let hit = |c: u64|
            input matches Input::Scalar { key, cell, kind, .. } && key == b.key && cell == c && kind == kind_of(a);
        assert(scalars_filled(w, w1, b, a, hit));
        lemma_carry_inputs(inputs, i + 1, w1, b1, a);
        lemma_scalars_filled_twice(
            w,
            w1,
            bind_inputs(inputs, i, w, b).0,
            b,
            a,
            hit,
            |c: u64| scalar_among(inputs, i + 1, b.key, kind_of(a), c),
            |c: u64| scalar_among(inputs, i, b.key, kind_of(a), c),
        );
    }
}

/// One bind of a number or a grid fills every scalar slot of its tag, in the whole
/// graph, and stays armed.
pub proof fn law_scalar_bind_fills_every_slot(op: DeviceOp, w: World, b: Binding, a: AnyValue)
    requires
        carries(b, a),
    ensures
        carries(bind_of(op, w, b).1, a),
        bind_of(op, w, b).1.key == b.key,
        bind_of(op, w, b).1.mode == b.mode,
        scalars_filled(w, bind_of(op, w, b).0, b, a, |c: u64| scalar_in(op, b.key, kind_of(a), c)),
    decreases op,
{
    let t = kind_of(a);
    let w2 = bind_of(op, w, b).0;
    let all = |c: u64| scalar_in(op, b.key, t, c);
    match op {
        DeviceOp::Leaf(l) => {
            lemma_carry_inputs(l.slots(), 0, w, b, a);
            let hit = |c: u64| scalar_among(l.slots(), 0, b.key, t, c);
            assert(scalars_filled(w2, w2, b, a, |c: u64| false));
            lemma_scalars_filled_twice(w, w2, w2, b, a, hit, |c: u64| false, all);
        },
        DeviceOp::AndThen(n) => {
            law_scalar_bind_fills_every_slot(n.source, w, b, a);
            let (w1, b1) = bind_of(n.source, w, b);
            assert(!b1.done());
            law_scalar_bind_fills_every_slot(n.next, w1, b1, a);
            lemma_scalars_filled_twice(
                w,
                w1,
                w2,
                b,
                a,
                |c: u64| scalar_in(n.source, b.key, t, c),
                |c: u64| scalar_in(n.next, b.key, t, c),
                all,
            );
        },
        DeviceOp::Bundle(n) => {
            lemma_carry_from(n.ops, 0, w, b, a);
            assert(scalars_filled(w2, w2, b, a, |c: u64| false));
            lemma_scalars_filled_twice(
                w,
                w2,
                w2,
                b,
                a,
                |c: u64| scalar_in_from(n.ops, 0, b.key, t, c),
                |c: u64| false,
                all,
            );
        },
        DeviceOp::Host(n) => {
            law_scalar_bind_fills_every_slot(n.source, w, b, a);
            assert(scalars_filled(w2, w2, b, a, |c: u64| false));
            lemma_scalars_filled_twice(
                w,
                w2,
                w2,
                b,
                a,
                |c: u64| scalar_in(n.source, b.key, t, c),
                |c: u64| false,
                all,
            );
        },
        DeviceOp::HostWithContext(n) => {
            law_scalar_bind_fills_every_slot(n.source, w, b, a);
            assert(scalars_filled(w2, w2, b, a, |c: u64| false));
            lemma_scalars_filled_twice(
                w,
                w2,
                w2,
                b,
                a,
                |c: u64| scalar_in(n.source, b.key, t, c),
                |c: u64| false,
                all,
            );
        },
        _ => {},
    }
}

proof fn lemma_carry_from(ops: Vec<DeviceOp>, i: nat, w: World, b: Binding, a: AnyValue)
    requires
        carries(b, a),
    ensures
        carries(bind_from(ops, i, w, b).1, a),
        bind_from(ops, i, w, b).1.key == b.key,
        bind_from(ops, i, w, b).1.mode == b.mode,
        scalars_filled(w, bind_from(ops, i, w, b).0, b, a, |c: u64| scalar_in_from(ops, i, b.key, kind_of(a), c)),
    decreases ops, ops.len() - i,
{
    if i < ops.len() {
        law_scalar_bind_fills_every_slot(ops[i as int], w, b, a);
        let (w1, b1) = bind_of(ops[i as int], w, b);
        assert(!b1.done());
        lemma_carry_from(ops, i + 1, w1, b1, a);
        lemma_scalars_filled_twice(
            w,
            w1,
            bind_from(ops, i, w, b).0,
            b,
            a,
            |c: u64| scalar_in(ops[i as int], b.key, kind_of(a), c),
            |c: u64| scalar_in_from(ops, i + 1, b.key, kind_of(a), c),
            |c: u64| scalar_in_from(ops, i, b.key, kind_of(a), c),
        );
    }
}

/// Whether a slot can take a value under the changing verb.
pub open spec fn can_fill(s: SlotState<Obj>) -> bool {
    s is Unbound || s is Bound || s is Severed
}

/// What a bind of a shared object under the changing verb does to slots: those in
/// `hit` that could take it hold it, those that held it still do, and no slot
/// becomes unable to take a value.
pub open spec fn filled(w: World, w1: World, o: Obj, hit: spec_fn(u64) -> bool) -> bool {
    &&& forall|c: u64| hit(c) && can_fill(w.slot(c)) ==> #[trigger] w1.slot(c) == SlotState::Bound(o)
    &&& forall|c: u64| w.slot(c) == SlotState::Bound(o) ==> #[trigger] w1.slot(c) == SlotState::Bound(o)
    &&& forall|c: u64| can_fill(w.slot(c)) ==> can_fill(#[trigger] w1.slot(c))
}

/// Whether a binding carries a shared object under the changing verb.
pub open spec fn shares(b: Binding, o: Obj) -> bool {
    &&& b.value == Some(o.erased())
    &&& o.shared
    &&& b.mode == BindMode::Mutate
    &&& !b.probe
    &&& b.feed is None
}

proof fn lemma_share_inputs(inputs: Seq<Input>, i: nat, w: World, b: Binding, o: Obj)
    requires
        shares(b, o),
    ensures
        shares(bind_inputs(inputs, i, w, b).1, o),
        bind_inputs(inputs, i, w, b).1.key == b.key,
        filled(w, bind_inputs(inputs, i, w, b).0, o, |c: u64| slot_among(inputs, i, b.key, c)),
    decreases inputs.len() - i,
{
    if i < inputs.len() {
        let w1 = after_offer(w, inputs[i as int], b);
        let b1 = offered(w, inputs[i as int], b);
        assert(b.given::<Obj>() == Some(o));
        assert(shares(b1, o));
        assert(!b1.done());
        lemma_share_inputs(inputs, i + 1, w1, b1, o);
        let w2 = bind_inputs(inputs, i, w, b).0;
        assert(w2 == bind_inputs(inputs, i + 1, w1, b1).0);
        assert forall|c: u64| slot_among(inputs, i, b.key, c) && can_fill(w.slot(c)) implies #[trigger] w2.slot(c)
            == SlotState::Bound(o) by {
            if slot_among(inputs, i + 1, b.key, c) {
                assert(can_fill(w1.slot(c)));
            } else {
                assert(w1.slot(c) == SlotState::Bound(o));
            }
        }
        assert forall|c: u64| w.slot(c) == SlotState::Bound(o) implies #[trigger] w2.slot(c) == SlotState::Bound(
            o,
        ) by {
            assert(w1.slot(c) == SlotState::Bound(o));
        }
        assert forall|c: u64| can_fill(w.slot(c)) implies can_fill(#[trigger] w2.slot(c)) by {
            assert(can_fill(w1.slot(c)));
        }
    }
}

/// A shared object bound under the changing verb fills every slot with its key
/// that is not lent and not fed by a pipe.
pub proof fn law_shared_value_fills_every_slot(op: DeviceOp, w: World, b: Binding, o: Obj)
    requires
        shares(b, o),
    ensures
        shares(bind_of(op, w, b).1, o),
        bind_of(op, w, b).1.key == b.key,
        filled(w, bind_of(op, w, b).0, o, |c: u64| slot_in(op, b.key, c)),
    decreases op,
{
    let w2 = bind_of(op, w, b).0;
    match op {
        DeviceOp::Leaf(l) => {
            lemma_share_inputs(l.slots(), 0, w, b, o);
            assert forall|c: u64| slot_in(op, b.key, c) && can_fill(w.slot(c)) implies #[trigger] w2.slot(c)
                == SlotState::Bound(o) by {
                assert(slot_among(l.slots(), 0, b.key, c));
            }
        },
        DeviceOp::AndThen(n) => {
            law_shared_value_fills_every_slot(n.source, w, b, o);
            let (w1, b1) = bind_of(n.source, w, b);
            assert(!b1.done());
            law_shared_value_fills_every_slot(n.next, w1, b1, o);
            lemma_filled_twice(
                w,
                w1,
                w2,
                o,
                |c: u64| slot_in(n.source, b.key, c),
                |c: u64| slot_in(n.next, b.key, c),
                |c: u64| slot_in(op, b.key, c),
            );
        },
        DeviceOp::Bundle(n) => {
            lemma_share_from(n.ops, 0, w, b, o);
            assert forall|c: u64| slot_in(op, b.key, c) && can_fill(w.slot(c)) implies #[trigger] w2.slot(c)
                == SlotState::Bound(o) by {
                assert(slot_in_from(n.ops, 0, b.key, c));
            }
        },
        DeviceOp::Host(n) => {
            law_shared_value_fills_every_slot(n.source, w, b, o);
            assert forall|c: u64| slot_in(op, b.key, c) && can_fill(w.slot(c)) implies #[trigger] w2.slot(c)
                == SlotState::Bound(o) by {
                assert(slot_in(n.source, b.key, c));
            }
        },
        DeviceOp::HostWithContext(n) => {
            law_shared_value_fills_every_slot(n.source, w, b, o);
            assert forall|c: u64| slot_in(op, b.key, c) && can_fill(w.slot(c)) implies #[trigger] w2.slot(c)
                == SlotState::Bound(o) by {
                assert(slot_in(n.source, b.key, c));
            }
        },
        _ => {},
    }
}

proof fn lemma_filled_twice(
    w: World,
    w1: World,
    w2: World,
    o: Obj,
    h1: spec_fn(u64) -> bool,
    h2: spec_fn(u64) -> bool,
    h: spec_fn(u64) -> bool,
)
    requires
        filled(w, w1, o, h1),
        filled(w1, w2, o, h2),
        forall|c: u64| #[trigger] h(c) ==> h1(c) || h2(c),
    ensures
        filled(w, w2, o, h),
{
    assert forall|c: u64| h(c) && can_fill(w.slot(c)) implies #[trigger] w2.slot(c) == SlotState::Bound(o) by {
        if h1(c) {
            assert(w1.slot(c) == SlotState::Bound(o));
        } else {
            assert(h2(c));
            assert(can_fill(w1.slot(c)));
        }
    }
    assert forall|c: u64| w.slot(c) == SlotState::Bound(o) implies #[trigger] w2.slot(c) == SlotState::Bound(o) by {
        assert(w1.slot(c) == SlotState::Bound(o));
    }
    assert forall|c: u64| can_fill(w.slot(c)) implies can_fill(#[trigger] w2.slot(c)) by {
        assert(can_fill(w1.slot(c)));
    }
}

proof fn lemma_share_from(ops: Vec<DeviceOp>, i: nat, w: World, b: Binding, o: Obj)
    requires
        shares(b, o),
    ensures
        shares(bind_from(ops, i, w, b).1, o),
        bind_from(ops, i, w, b).1.key == b.key,
        filled(w, bind_from(ops, i, w, b).0, o, |c: u64| slot_in_from(ops, i, b.key, c)),
    decreases ops, ops.len() - i,
{
    if i < ops.len() {
        law_shared_value_fills_every_slot(ops[i as int], w, b, o);
        let (w1, b1) = bind_of(ops[i as int], w, b);
        assert(!b1.done());
        lemma_share_from(ops, i + 1, w1, b1, o);
        lemma_filled_twice(
            w,
            w1,
            bind_from(ops, i, w, b).0,
            o,
            |c: u64| slot_in(ops[i as int], b.key, c),
            |c: u64| slot_in_from(ops, i + 1, b.key, c),
            |c: u64| slot_in_from(ops, i, b.key, c),
        );
    }
}

/// What a bind of an object that can only be moved does: while it is not used
/// up, no slot has changed; once it is, one slot holds it and no other has
/// changed.
pub open spec fn moved(w: World, w1: World, b1: Binding, o: Obj) -> bool {
    if b1.value is Some {
        forall|c: u64| #[trigger] w1.slot(c) == w.slot(c)
    } else {
        exists|at: u64|
            #[trigger] w1.slot(at) == SlotState::Bound(o) && forall|c: u64|
                c != at ==> #[trigger] w1.slot(c) == w.slot(c)
    }
}

/// Whether a binding carries an object that can only be moved.
pub open spec fn moves(b: Binding, o: Obj) -> bool {
    &&& b.value == Some(o.erased())
    &&& !o.shared
    &&& !b.probe
    &&& b.feed is None
}

proof fn lemma_move_inputs(inputs: Seq<Input>, i: nat, w: World, b: Binding, o: Obj)
    requires
        moves(b, o),
    ensures
        moved(w, bind_inputs(inputs, i, w, b).0, bind_inputs(inputs, i, w, b).1, o),
        bind_inputs(inputs, i, w, b).1.value is Some ==> moves(bind_inputs(inputs, i, w, b).1, o),
        bind_inputs(inputs, i, w, b).1.value is None ==> bind_inputs(inputs, i, w, b).1.done(),
    decreases inputs.len() - i,
{
    if i < inputs.len() {
        let w1 = after_offer(w, inputs[i as int], b);
        let b1 = offered(w, inputs[i as int], b);
        assert(b.given::<Obj>() == Some(o));
        if b1.value is Some {
            assert(moves(b1, o));
            assert(forall|c: u64| #[trigger] w1.slot(c) == w.slot(c));
            lemma_move_inputs(inputs, i + 1, w1, b1, o);
            lemma_moved_on(w, w1, bind_inputs(inputs, i, w, b).0, bind_inputs(inputs, i, w, b).1, o);
        } else {
            assert(b1.done());
            let at = inputs[i as int]->Slot_cell;
            assert(w1.slot(at) == SlotState::Bound(o));
        }
    }
}

proof fn lemma_moved_on(w: World, w1: World, w2: World, b2: Binding, o: Obj)
    requires
        forall|c: u64| #[trigger] w1.slot(c) == w.slot(c),
        moved(w1, w2, b2, o),
    ensures
        moved(w, w2, b2, o),
{
    if b2.value is Some {
        assert forall|c: u64| #[trigger] w2.slot(c) == w.slot(c) by {
            assert(w1.slot(c) == w.slot(c));
        }
    } else {
        let at = choose|at: u64|
            #[trigger] w2.slot(at) == SlotState::Bound(o) && forall|c: u64|
                c != at ==> #[trigger] w2.slot(c) == w1.slot(c);
        assert forall|c: u64| c != at implies #[trigger] w2.slot(c) == w.slot(c) by {
            assert(w1.slot(c) == w.slot(c));
        }
    }
}

/// An object that can only be moved fills at most one slot: the first that takes
/// it.
pub proof fn law_moved_value_fills_one_slot(op: DeviceOp, w: World, b: Binding, o: Obj)
    requires
        moves(b, o),
    ensures
        moved(w, bind_of(op, w, b).0, bind_of(op, w, b).1, o),
        bind_of(op, w, b).1.value is Some ==> moves(bind_of(op, w, b).1, o),
        bind_of(op, w, b).1.value is None ==> bind_of(op, w, b).1.done(),
    decreases op,
{
    match op {
        DeviceOp::Leaf(l) => {
            lemma_move_inputs(l.slots(), 0, w, b, o);
        },
        DeviceOp::AndThen(n) => {
            law_moved_value_fills_one_slot(n.source, w, b, o);
            let (w1, b1) = bind_of(n.source, w, b);
            if b1.value is Some {
                law_moved_value_fills_one_slot(n.next, w1, b1, o);
                lemma_moved_on(w, w1, bind_of(op, w, b).0, bind_of(op, w, b).1, o);
            }
        },
        DeviceOp::Bundle(n) => {
            lemma_move_from(n.ops, 0, w, b, o);
        },
        DeviceOp::Host(n) => {
            law_moved_value_fills_one_slot(n.source, w, b, o);
        },
        DeviceOp::HostWithContext(n) => {
            law_moved_value_fills_one_slot(n.source, w, b, o);
        },
        _ => {},
    }
}

proof fn lemma_move_from(ops: Vec<DeviceOp>, i: nat, w: World, b: Binding, o: Obj)
    requires
        moves(b, o),
    ensures
        moved(w, bind_from(ops, i, w, b).0, bind_from(ops, i, w, b).1, o),
        bind_from(ops, i, w, b).1.value is Some ==> moves(bind_from(ops, i, w, b).1, o),
        bind_from(ops, i, w, b).1.value is None ==> bind_from(ops, i, w, b).1.done(),
    decreases ops, ops.len() - i,
{
    if i < ops.len() {
        law_moved_value_fills_one_slot(ops[i as int], w, b, o);
        let (w1, b1) = bind_of(ops[i as int], w, b);
        if b1.value is Some {
            lemma_move_from(ops, i + 1, w1, b1, o);
            lemma_moved_on(w, w1, bind_from(ops, i, w, b).0, bind_from(ops, i, w, b).1, o);
        }
    }
}

/// Whether an op, or one inside it that a change of slots is passed on to, keeps
/// its command buffer at `c`.
pub open spec fn cache_in(op: DeviceOp, c: u64) -> bool
    decreases op,
{
    match op {
        DeviceOp::Leaf(l) => l.cache() == Some(c),
        DeviceOp::AndThen(n) => n.cb_cache == c || cache_in(n.source, c) || cache_in(n.next, c),
        DeviceOp::Arced(n) => n.cb_cache == c || cache_in(n.source, c),
        DeviceOp::ArcSplit(n) => n.cb_cache == c || cache_in(n.source, c),
        DeviceOp::Bundle(n) => n.cb_cache == c || cache_in_from(n.ops, 0, c),
        DeviceOp::FanOut(n) => n.cb_cache == c || cache_in_from(n.ops, 0, c),
        DeviceOp::Host(n) => cache_in(n.source, c),
        DeviceOp::HostWithContext(n) => cache_in(n.source, c),
        _ => false,
    }
}

/// Whether one of the ops from index `i` on keeps its command buffer at `c`.
pub open spec fn cache_in_from(ops: Vec<DeviceOp>, i: nat, c: u64) -> bool
    decreases ops, ops.len() - i,
{
    i < ops.len() && (cache_in(ops[i as int], c) || cache_in_from(ops, i + 1, c))
}

/// The command buffers once those in `hit` that captured one of the slots in
/// `mutated` are dropped.
pub open spec fn dropped_where(w: World, w1: World, mutated: Seq<u64>, hit: spec_fn(u64) -> bool) -> bool {
    &&& w1 == (World { caches: w1.caches, ..w })
    &&& forall|c: u64|
        #[trigger] w1.cached(c) == (match w.cached(c) {
            Some(cb) => if hit(c) && ids_meet(cb.slots, mutated) {
                None
            } else {
                Some(cb)
            },
            None => None,
        })
}

proof fn lemma_dropped_twice(
    w: World,
    w1: World,
    w2: World,
    mutated: Seq<u64>,
    h1: spec_fn(u64) -> bool,
    h2: spec_fn(u64) -> bool,
    h: spec_fn(u64) -> bool,
)
    requires
        dropped_where(w, w1, mutated, h1),
        dropped_where(w1, w2, mutated, h2),
        forall|c: u64| #[trigger] h(c) == (h1(c) || h2(c)),
    ensures
        dropped_where(w, w2, mutated, h),
{
    assert forall|c: u64|
        #[trigger] w2.cached(c) == (match w.cached(c) {
            Some(cb) => if h(c) && ids_meet(cb.slots, mutated) {
                None
            } else {
                Some(cb)
            },
            None => None,
        }) by {
        assert(w1.cached(c) == (match w.cached(c) {
            Some(cb) => if h1(c) && ids_meet(cb.slots, mutated) {
                None
            } else {
                Some(cb)
            },
            None => None,
        }));
        assert(h(c) == (h1(c) || h2(c)));
    }
}

proof fn lemma_dropped_one(w: World, cache: u64, mutated: Seq<u64>)
    ensures
        dropped_where(w, w.invalidated(cache, mutated), mutated, |c: u64| c == cache),
{
}

/// Changing slots drops exactly the command buffers of the graph that captured
/// one of them, and touches nothing else.
pub proof fn law_graph_invalidation_is_precise(op: DeviceOp, w: World, mutated: Seq<u64>)
    ensures
        dropped_where(w, invalidate_of(op, w, mutated), mutated, |c: u64| cache_in(op, c)),
    decreases op,
{
    let goal = |c: u64| cache_in(op, c);
    match op {
        DeviceOp::Leaf(l) => {
            if l.cache() is Some {
                lemma_dropped_one(w, l.cache()->Some_0, mutated);
            }
        },
        DeviceOp::AndThen(n) => {
            lemma_dropped_one(w, n.cb_cache, mutated);
            let w1 = w.invalidated(n.cb_cache, mutated);
            law_graph_invalidation_is_precise(n.source, w1, mutated);
            let w2 = invalidate_of(n.source, w1, mutated);
            law_graph_invalidation_is_precise(n.next, w2, mutated);
            let h1 = |c: u64| c == n.cb_cache;
            let h2 = |c: u64| cache_in(n.source, c);
            let h12 = |c: u64| c == n.cb_cache || cache_in(n.source, c);
            lemma_dropped_twice(w, w1, w2, mutated, h1, h2, h12);
            lemma_dropped_twice(
                w,
                w2,
                invalidate_of(op, w, mutated),
                mutated,
                h12,
                |c: u64| cache_in(n.next, c),
                goal,
            );
        },
        DeviceOp::Arced(n) => {
            lemma_dropped_one(w, n.cb_cache, mutated);
            let w1 = w.invalidated(n.cb_cache, mutated);
            law_graph_invalidation_is_precise(n.source, w1, mutated);
            lemma_dropped_twice(
                w,
                w1,
                invalidate_of(op, w, mutated),
                mutated,
                |c: u64| c == n.cb_cache,
                |c: u64| cache_in(n.source, c),
                goal,
            );
        },
        DeviceOp::ArcSplit(n) => {
            lemma_dropped_one(w, n.cb_cache, mutated);
            let w1 = w.invalidated(n.cb_cache, mutated);
            law_graph_invalidation_is_precise(n.source, w1, mutated);
            lemma_dropped_twice(
                w,
                w1,
                invalidate_of(op, w, mutated),
                mutated,
                |c: u64| c == n.cb_cache,
                |c: u64| cache_in(n.source, c),
                goal,
            );
        },
        DeviceOp::Bundle(n) => {
            lemma_dropped_one(w, n.cb_cache, mutated);
            let w1 = w.invalidated(n.cb_cache, mutated);
            lemma_dropped_from(n.ops, 0, w1, mutated);
            lemma_dropped_twice(
                w,
                w1,
                invalidate_of(op, w, mutated),
                mutated,
                |c: u64| c == n.cb_cache,
                |c: u64| cache_in_from(n.ops, 0, c),
                goal,
            );
        },
        DeviceOp::FanOut(n) => {
            lemma_dropped_one(w, n.cb_cache, mutated);
            let w1 = w.invalidated(n.cb_cache, mutated);
            lemma_dropped_from(n.ops, 0, w1, mutated);
            lemma_dropped_twice(
                w,
                w1,
                invalidate_of(op, w, mutated),
                mutated,
                |c: u64| c == n.cb_cache,
                |c: u64| cache_in_from(n.ops, 0, c),
                goal,
            );
        },
        DeviceOp::Host(n) => {
            law_graph_invalidation_is_precise(n.source, w, mutated);
        },
        DeviceOp::HostWithContext(n) => {
            law_graph_invalidation_is_precise(n.source, w, mutated);
        },
        _ => {},
    }
}

proof fn lemma_dropped_from(ops: Vec<DeviceOp>, i: nat, w: World, mutated: Seq<u64>)
    ensures
        dropped_where(w, invalidate_from(ops, i, w, mutated), mutated, |c: u64| cache_in_from(ops, i, c)),
    decreases ops, ops.len() - i,
{
    if i < ops.len() {
        law_graph_invalidation_is_precise(ops[i as int], w, mutated);
        let w1 = invalidate_of(ops[i as int], w, mutated);
        lemma_dropped_from(ops, i + 1, w1, mutated);
        lemma_dropped_twice(
            w,
            w1,
            invalidate_from(ops, i, w, mutated),
            mutated,
            |c: u64| cache_in(ops[i as int], c),
            |c: u64| cache_in_from(ops, i + 1, c),
            |c: u64| cache_in_from(ops, i, c),
        );
    }
}

/// Whether `sink` belongs to a slot of an op that binds are offered to.
pub open spec fn sink_in(op: DeviceOp, sink: u64) -> bool
    decreases op,
{
    match op {
        DeviceOp::Leaf(l) => sink_among(l.slots(), 0, sink),
        DeviceOp::AndThen(n) => sink_in(n.source, sink) || sink_in(n.next, sink),
        DeviceOp::Bundle(n) => sink_in_from(n.ops, 0, sink),
        DeviceOp::Host(n) => sink_in(n.source, sink),
        DeviceOp::HostWithContext(n) => sink_in(n.source, sink),
        _ => false,
    }
}

/// Whether `sink` belongs to a slot of the ops from index `i` on.
pub open spec fn sink_in_from(ops: Vec<DeviceOp>, i: nat, sink: u64) -> bool
    decreases ops, ops.len() - i,
{
    i < ops.len() && (sink_in(ops[i as int], sink) || sink_in_from(ops, i + 1, sink))
}

/// Whether `sink` belongs to a slot among inputs from index `i` on.
pub open spec fn sink_among(inputs: Seq<Input>, i: nat, sink: u64) -> bool
    decreases inputs.len() - i,
{
    i < inputs.len() && (site_sink(inputs[i as int]) == Some(sink) || sink_among(
        inputs,
        i + 1,
        sink,
    ))
}

proof fn lemma_inputs_poisoned(inputs: Seq<Input>, i: nat, w: World, sink: u64)
    requires
        sink_among(inputs, i, sink),
        w.sink(sink).len() > 0,
    ensures
        all_ready(inputs, i, w) is Err,
    decreases inputs.len() - i,
{
    if site_sink(inputs[i as int]) != Some(sink) {
        lemma_inputs_poisoned(inputs, i + 1, w, sink);
    }
}

proof fn lemma_leaf_poisoned(l: LeafOp, w: World, sink: u64)
    requires
        sink_among(l.slots(), 0, sink),
        w.sink(sink).len() > 0,
    ensures
        l.ready(w) is Err,
{
    reveal_with_fuel(sink_among, 4);
    match l {
        LeafOp::CopyTo2(x) => {
            assert(l.slots() =~= seq![x.src, x.dst]);
        },
        LeafOp::ImageCopy(x) => {
            assert(l.slots() =~= seq![x.src, x.dst]);
        },
        LeafOp::ImageFill(x) => {
            assert(l.slots() =~= seq![x.img]);
        },
        LeafOp::Launch(x) => {
            lemma_inputs_poisoned(x.sites(), 0, w, sink);
        },
        _ => {},
    }
}

/// A graph against which an error was recorded is never ready.
pub proof fn law_poisoned_graph_is_never_ready(op: DeviceOp, w: World, sink: u64)
    requires
        sink_in(op, sink),
        w.sink(sink).len() > 0,
    ensures
        ready_of(op, w) is Err,
    decreases op,
{
    match op {
        DeviceOp::Leaf(l) => {
            lemma_leaf_poisoned(l, w, sink);
        },
        DeviceOp::AndThen(n) => {
            if sink_in(n.source, sink) {
                law_poisoned_graph_is_never_ready(n.source, w, sink);
            } else {
                law_poisoned_graph_is_never_ready(n.next, w, sink);
            }
        },
        DeviceOp::Bundle(n) => {
            lemma_poisoned_from(n.ops, 0, w, sink);
        },
        DeviceOp::Host(n) => {
            law_poisoned_graph_is_never_ready(n.source, w, sink);
        },
        DeviceOp::HostWithContext(n) => {
            law_poisoned_graph_is_never_ready(n.source, w, sink);
        },
        _ => {},
    }
}

proof fn lemma_poisoned_from(ops: Vec<DeviceOp>, i: nat, w: World, sink: u64)
    requires
        sink_in_from(ops, i, sink),
        w.sink(sink).len() > 0,
    ensures
        ready_from(ops, i, w) is Err,
    decreases ops, ops.len() - i,
{
    if i < ops.len() {
        if sink_in(ops[i as int], sink) {
            law_poisoned_graph_is_never_ready(ops[i as int], w, sink);
        } else {
            lemma_poisoned_from(ops, i + 1, w, sink);
        }
    }
}

/// Whether the binding noted a sink of the ops it was offered to, if it had none
/// before.
pub open spec fn captures(b: Binding, b1: Binding, hit: spec_fn(u64) -> bool) -> bool {
    &&& b.sink is Some ==> b1.sink == b.sink
    &&& b.sink is None ==> (b1.sink matches Some(s) ==> hit(s))
}

proof fn lemma_capture_inputs(inputs: Seq<Input>, i: nat, w: World, b: Binding)
    ensures
        captures(b, bind_inputs(inputs, i, w, b).1, |s: u64| sink_among(inputs, i, s)),
        b.deferred && b.sink is None && (exists|s: u64| #[trigger] sink_among(inputs, i, s)) ==> bind_inputs(
            inputs,
            i,
            w,
            b,
        ).1.sink is Some || bind_inputs(inputs, i, w, b).1.done(),
    decreases inputs.len() - i,
{
    if i < inputs.len() {
        let b1 = offered(w, inputs[i as int], b);
        let w1 = after_offer(w, inputs[i as int], b);
        if let Some(s) = site_sink(inputs[i as int]) {
            assert(sink_among(inputs, i, s));
        }
        if !b1.done() {
            lemma_capture_inputs(inputs, i + 1, w1, b1);
            let b2 = bind_inputs(inputs, i, w, b).1;
            if b.sink is None && b1.sink is None && b2.sink is Some {
                assert(sink_among(inputs, i + 1, b2.sink->Some_0));
            }
            if exists|s: u64| #[trigger] sink_among(inputs, i, s) {
                let s = choose|s: u64| #[trigger] sink_among(inputs, i, s);
                if site_sink(inputs[i as int]) is None {
                    assert(sink_among(inputs, i + 1, s));
                }
            }
        }
    }
}

/// A deferred bind notes the sink of a slot of the graph, if it notes any.
pub proof fn law_deferred_bind_notes_a_sink_of_the_graph(op: DeviceOp, w: World, b: Binding)
    ensures
        captures(b, bind_of(op, w, b).1, |s: u64| sink_in(op, s)),
    decreases op,
{
    match op {
        DeviceOp::Leaf(l) => {
            lemma_capture_inputs(l.slots(), 0, w, b);
        },
        DeviceOp::AndThen(n) => {
            law_deferred_bind_notes_a_sink_of_the_graph(n.source, w, b);
            let (w1, b1) = bind_of(n.source, w, b);
            law_deferred_bind_notes_a_sink_of_the_graph(n.next, w1, b1);
        },
        DeviceOp::Bundle(n) => {
            lemma_capture_from(n.ops, 0, w, b);
        },
        DeviceOp::Host(n) => {
            law_deferred_bind_notes_a_sink_of_the_graph(n.source, w, b);
        },
        DeviceOp::HostWithContext(n) => {
            law_deferred_bind_notes_a_sink_of_the_graph(n.source, w, b);
        },
        _ => {},
    }
}

proof fn lemma_capture_from(ops: Vec<DeviceOp>, i: nat, w: World, b: Binding)
    ensures
        captures(b, bind_from(ops, i, w, b).1, |s: u64| sink_in_from(ops, i, s)),
    decreases ops, ops.len() - i,
{
    if i < ops.len() {
        law_deferred_bind_notes_a_sink_of_the_graph(ops[i as int], w, b);
        let (w1, b1) = bind_of(ops[i as int], w, b);
        if !b1.done() {
            lemma_capture_from(ops, i + 1, w1, b1);
        }
    }
}

/// A deferred bind that was refused, and that met a slot, keeps the graph from
/// ever being ready: no refusal is lost.
pub proof fn law_refused_deferred_bind_poisons(op: DeviceOp, w: World, b: Binding, name: &'static str)
    requires
        b.sink is None,
        bind_of(op, w, b).1.sink is Some,
        bind_of(op, w, b).1.verdict(name) is Err,
    ensures
        ready_of(op, deferred_world(bound_world(op, w, b), bind_of(op, w, b).1, name)) is Err,
{
    let b1 = bind_of(op, w, b).1;
    let sink = b1.sink->Some_0;
    law_deferred_bind_notes_a_sink_of_the_graph(op, w, b);
    assert(sink_in(op, sink));
    let v = deferred_world(bound_world(op, w, b), b1, name);
    law_poisoned_graph_is_never_ready(op, v, sink);
}

} // verus!
