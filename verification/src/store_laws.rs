//! What holds of the cells that a graph works on, and of what a bind comes to.

use crate::binding::{bound_world, fresh_binding, fresh_feed, fresh_probe};
use crate::combinators::fresh_pipes;
use crate::error::Error;
use crate::exec_ctx::Walk;
use crate::graph::{bind_of, DeviceOp};
use crate::graph_laws::lemma_ids_are_added;
use crate::ids::{ids_meet, lemma_with_ids, with_ids};
use crate::image::{owned_cached_image, owned_image, owned_images, ToInputImage};
use crate::input::{after_offer, found, offered, Checkout, Input, ToInput};
use crate::launch_op::NumberArg;
use crate::obj::{Home, MemRef, Obj};
use crate::slot_laws::{cache_in, law_bind_touches_slots_alone, law_graph_invalidation_is_precise};
use crate::slots::{
    deferred_error, deferred_world, kind_of, same_binding, scalar_binding_at, scalar_state_at, AnyValue, BindFault,
    BindMode, Binding, IntoBound, ScalarInput, SlotHandle, SlotState, SlotTag, SlotValue, Tag, ValueKind,
};
use crate::store::{ParcelView, Pipe, World};
use crate::walk::seam_reach;
use vstd::prelude::*;

verus! {

/// What lies on a pipe and is sent back goes to its home and leaves the pipe empty; an empty
/// pipe stays as it is.
pub proof fn law_reclaimed_value_goes_home(w: World, pipe: u64, o: Obj, deps: Seq<u64>, home: Home)
    ensures
        w.parcel(pipe) == Some(ParcelView { value: seq![o], deps, home: Some(home) }) ==> {
            let v = w.reclaimed(pipe);
            &&& v.parcel(pipe) is None
            &&& home matches Home::Cell(c) ==> v.held(c) == Some(o)
            &&& home matches Home::Slot(c) ==> v.slot(c) == SlotState::Bound(o)
            &&& home matches Home::Downgrade(c) ==> (v.held(c) matches Some(d) && d.id == o.id)
        },
        w.parcel(pipe) is None ==> w.reclaimed(pipe) == w,
{
}

/// Events that replace those of a parcel are all that it waits on; events that are added
/// come behind its own. Value and home stay, and so does every other pipe.
pub proof fn law_events_reach_their_parcel(w: World, pipe: u64, other: u64, p: ParcelView, evs: Seq<u64>)
    requires
        w.parcel(pipe) == Some(p),
        other != pipe,
    ensures
        w.restamped(pipe, evs).parcel(pipe) matches Some(q) && q.value == p.value && q.home == p.home && q.deps == evs,
        w.delayed(pipe, evs).parcel(pipe) matches Some(q) && q.value == p.value && q.home == p.home && q.deps.len()
            == p.deps.len() + evs.len() && (forall|k: int| 0 <= k < p.deps.len() ==> q.deps[k] == #[trigger] p.deps[k]) && (
        forall|k: int| 0 <= k < evs.len() ==> q.deps[p.deps.len() + k] == #[trigger] evs[k]),
        w.restamped(pipe, evs).parcel(other) == w.parcel(other),
        w.delayed(pipe, evs).parcel(other) == w.parcel(other),
        w.restamped(pipe, evs).slots == w.slots && w.restamped(pipe, evs).cells == w.cells,
        w.delayed(pipe, evs).slots == w.slots && w.delayed(pipe, evs).cells == w.cells,
{
}

/// A value that is taken for good leaves its slot severed; a value of a cell leaves nothing
/// to be noted.
pub proof fn law_severing_is_for_slots(w: World, c: u64, other: u64)
    ensures
        w.severed(Some(Home::Slot(c))).slot(c) is Severed,
        other != c ==> w.severed(Some(Home::Slot(c))).slot(other) == w.slot(other),
        w.severed(Some(Home::Cell(c))) == w,
        w.severed(Some(Home::Downgrade(c))) == w,
        w.severed(None) == w,
{
}

/// Shared memory is busy until the events of the launches that use it; once they ended it is
/// not, and other memory is as it was. A buffer is never followed.
pub proof fn law_busy_memory_is_shared_memory(w: World, p: u64, other: u64, b: u64)
    ensures
        w.busy_until(MemRef::Svm(p)) == w.used_until(p),
        w.busy_until(MemRef::Buffer(b)).len() == 0,
        w.settled(MemRef::Svm(p)).used_until(p).len() == 0,
        other != p ==> w.settled(MemRef::Svm(p)).used_until(other) == w.used_until(other),
        w.settled(MemRef::Buffer(b)) == w,
{
}

/// A fresh identity is held by nothing: it names no value, no slot, no scalar, no error, no
/// parcel and no command buffer. What earlier identities name stays.
pub proof fn law_fresh_identities_name_nothing(w: World, n: nat, c: u64)
    requires
        w.next + n <= u64::MAX,
    ensures
        w.fresh_ids(n).next == w.next + n,
        w.next <= c < w.next + n ==> {
            let v = w.fresh_ids(n);
            &&& v.held(c) is None
            &&& !v.is_seeded(c)
            &&& v.slot(c) is Unbound
            &&& v.scalar(c) is None
            &&& v.sink(c).len() == 0
            &&& v.parcel(c) is None
            &&& v.cached(c) is None
        },
        c < w.next ==> {
            let v = w.fresh_ids(n);
            &&& v.held(c) == w.held(c)
            &&& v.is_seeded(c) == w.is_seeded(c)
            &&& v.slot(c) == w.slot(c)
            &&& v.scalar(c) == w.scalar(c)
            &&& v.sink(c) == w.sink(c)
            &&& v.parcel(c) == w.parcel(c)
            &&& v.cached(c) == w.cached(c)
        },
{
}

/// What is put under an identity is what is found there, and nothing else changes.
pub proof fn law_what_is_put_is_found(w: World, c: u64, d: u64, o: Obj, p: ParcelView, a: AnyValue, s: SlotState<Obj>)
    ensures
        w.holding(c, o).held(c) == Some(o),
        w.put(c, p).parcel(c) == Some(p),
        w.with_scalar(c, a).scalar(c) == Some(a),
        w.with_slot(c, s).slot(c) == s,
        w.lent(c).held(c) is None,
        w.drained(c).parcel(c) is None,
        d != c ==> {
            &&& w.holding(c, o).held(d) == w.held(d)
            &&& w.put(c, p).parcel(d) == w.parcel(d)
            &&& w.with_scalar(c, a).scalar(d) == w.scalar(d)
            &&& w.with_slot(c, s).slot(d) == w.slot(d)
            &&& w.lent(c).held(d) == w.held(d)
            &&& w.drained(c).parcel(d) == w.parcel(d)
        },
{
}

/// What a bind comes to: the last refusal as its error, with the tag's name; an error where
/// no slot carries the tag; else success.
pub proof fn law_verdict_is_the_refusal(b: Binding, name: &'static str, tag: &'static str)
    ensures
        b.outcome == Some(BindFault::Conflict(tag)) ==> b.verdict(name) == Err::<(), Error>(Error::SlotConflict(tag)),
        b.outcome == Some(BindFault::CheckedOut(tag)) ==> b.verdict(name) == Err::<(), Error>(Error::SlotCheckedOut(tag)),
        b.outcome == Some(BindFault::Severed(tag)) ==> b.verdict(name) == Err::<(), Error>(Error::SlotSevered(tag)),
        b.outcome is None && b.matched.len() == 0 ==> b.verdict(name) == Err::<(), Error>(Error::SlotNoSuchTag(name)),
        b.outcome is None && b.matched.len() > 0 ==> b.verdict(name) is Ok,
{
}

/// A refusal of a deferred bind is added to the errors of the sink that it noted, behind
/// those that are there; without a refusal or without a sink nothing changes. The first error
/// is the one that comes up.
pub proof fn law_deferred_refusal_is_recorded(w: World, b: Binding, name: &'static str, sink: u64, other: u64, e: Error)
    ensures
        b.verdict(name) == Err::<(), Error>(e) && b.sink == Some(sink) ==> {
            let v = deferred_world(w, b, name);
            &&& v.sink(sink) == w.sink(sink).push(e)
            &&& other != sink ==> v.sink(other) == w.sink(other)
            &&& v.slots == w.slots
        },
        b.verdict(name) is Ok || b.sink is None ==> deferred_world(w, b, name) == w,
        w.sink(sink).len() == 0 ==> deferred_error(w.sink(sink)) is None,
        w.sink(sink).len() > 0 && (w.sink(sink)[0] is SlotConflict || w.sink(sink)[0] is SlotNoSuchTag || w.sink(sink)[0]
            is SlotCheckedOut || w.sink(sink)[0] is SlotSevered || w.sink(sink)[0] is SlotUnbound) ==> deferred_error(
            w.sink(sink),
        ) == Some(w.sink(sink)[0]),
        w.sink(sink).len() > 0 ==> deferred_error(w.sink(sink)) is Some,
{
}

/// A bind starts with its value, having met nothing; a feed with its pipe, under the verb
/// that changes; a probe with neither, and with the slots that count as severed.
pub proof fn law_binds_start_having_met_nothing(key: u64, o: Obj, mode: BindMode, pipe: Pipe, severable: Seq<u64>)
    ensures
        ({
            let b = fresh_binding(key, o, mode);
            &&& b.key == key && b.mode == mode && b.value == Some(AnyValue::Object(o))
            &&& b.outcome is None && b.matched.len() == 0 && !b.probe && b.feed is None && !b.deferred && b.sink is None
        }),
        ({
            let b = fresh_feed(key, pipe);
            &&& b.key == key && b.mode == BindMode::Mutate && b.value is None && b.feed == Some(pipe)
            &&& b.outcome is None && b.matched.len() == 0 && !b.probe && !b.deferred && b.sink is None
        }),
        ({
            let b = fresh_probe(key, mode, severable);
            &&& b.key == key && b.mode == mode && b.value is None && b.feed is None && b.probe && b.severable == severable
            &&& b.outcome is None && b.matched.len() == 0 && !b.deferred && b.sink is None
        }),
{
    assert(o.erased() == AnyValue::Object(o));
}

/// A slot that is fed takes what lies on the pipe that feeds it, whatever it held before.
pub proof fn law_fed_slot_takes_from_its_pipe(
    w: World,
    barrier: Option<u64>,
    key: u64,
    name: &'static str,
    cell: u64,
    sink: u64,
    pipe: Pipe,
    p: ParcelView,
)
    requires
        w.parcel(pipe.cell) == Some(p),
    ensures
        ({
            let input = Input::Slot { key, name, cell, sink };
            let b = fresh_feed(key, pipe);
            let v = after_offer(w, input, b);
            &&& v.slot(cell) == SlotState::<Obj>::FedByPipe(pipe)
            &&& found(v, barrier, input) == Ok::<ParcelView, Error>(p)
            &&& offered(w, input, b).verdict(name) is Ok
            &&& offered(w, input, b).matched == seq![cell]
        }),
{
    let input = Input::Slot { key, name, cell, sink };
    let b = fresh_feed(key, pipe);
    assert(offered(w, input, b).matched =~= seq![cell]);
}

/// A scalar slot: a bind fills an unbound one; a set-once bind leaves a bound one and is
/// refused where the values differ; a changing bind replaces the value. A value of another
/// type is never put in.
pub proof fn law_scalar_bind_table(s: Option<AnyValue>, kind: ValueKind, b: Binding, name: &'static str, a: AnyValue)
    requires
        !b.probe,
        b.value == Some(a),
        !(a is Object),
    ensures
        kind_of(a) == kind && (s is None || b.mode == BindMode::Mutate) ==> scalar_state_at(s, kind, b) == Some(a)
            && scalar_binding_at(s, b, name).outcome == b.outcome,
        s is Some && b.mode == BindMode::SetOnce ==> scalar_state_at(s, kind, b) == s,
        kind_of(a) != kind ==> scalar_state_at(s, kind, b) == s,
        b.mode == BindMode::SetOnce && (s matches Some(v) && kind_of(v) != kind_of(a)) ==> scalar_binding_at(
            s,
            b,
            name,
        ).outcome == Some(BindFault::Conflict(name)),
        (s matches Some(AnyValue::U32(x)) && a == AnyValue::U32(x)) ==> scalar_binding_at(s, b, name).outcome == b.outcome,
        (s matches Some(AnyValue::U32(x)) && (a matches AnyValue::U32(y) && y != x)) && b.mode == BindMode::SetOnce
            ==> scalar_binding_at(s, b, name).outcome == Some(BindFault::Conflict(name)),
        scalar_binding_at(s, b, name).value == b.value,
{
}

/// A changing bind drops the command buffers that captured a slot that it met; a set-once
/// bind drops none.
pub proof fn law_changed_slots_drop_their_command_buffers(op: DeviceOp, w: World, b: Binding, c: u64)
    ensures
        b.mode == BindMode::SetOnce ==> bound_world(op, w, b).caches == w.caches,
        b.mode == BindMode::Mutate && cache_in(op, c) && (w.cached(c) matches Some(cb) && ids_meet(
            cb.slots,
            bind_of(op, w, b).1.matched,
        )) ==> bound_world(op, w, b).cached(c) is None,
        b.mode == BindMode::Mutate && (w.cached(c) matches Some(cb) && !ids_meet(cb.slots, bind_of(op, w, b).1.matched))
            ==> bound_world(op, w, b).cached(c) == w.cached(c),
{
    let (w1, b1) = bind_of(op, w, b);
    law_bind_touches_slots_alone(op, w, b);
    let mutated = with_ids(Seq::empty(), b1.matched);
    lemma_with_ids(Seq::empty(), b1.matched);
    assert forall|x: u64| mutated.contains(x) <==> #[trigger] b1.matched.contains(x) by {
        assert(mutated.to_set().contains(x) <==> Seq::<u64>::empty().to_set().union(b1.matched.to_set()).contains(x));
        assert(!Seq::<u64>::empty().contains(x));
    }
    law_graph_invalidation_is_precise(op, w1, mutated);
    if let Some(cb) = w.cached(c) {
        assert(w1.cached(c) == Some(cb));
        if ids_meet(cb.slots, b1.matched) {
            let x = choose|x: u64| #[trigger] cb.slots.contains(x) && b1.matched.contains(x);
            assert(cb.slots.contains(x) && mutated.contains(x));
        }
        if ids_meet(cb.slots, mutated) {
            let x = choose|x: u64| #[trigger] cb.slots.contains(x) && mutated.contains(x);
            assert(cb.slots.contains(x) && b1.matched.contains(x));
        }
    }
}

/// Two values count as the same binding if they are of one type and are the same: numbers by
/// their bits, memory by what is behind the handle, grids by their sizes.
pub proof fn law_same_binding_is_the_same_value(a: AnyValue, b: AnyValue)
    ensures
        kind_of(a) != kind_of(b) ==> !same_binding(a, b),
        match (a, b) {
            (AnyValue::I8(x), AnyValue::I8(y)) => same_binding(a, b) <==> x == y,
            (AnyValue::U8(x), AnyValue::U8(y)) => same_binding(a, b) <==> x == y,
            (AnyValue::I16(x), AnyValue::I16(y)) => same_binding(a, b) <==> x == y,
            (AnyValue::U16(x), AnyValue::U16(y)) => same_binding(a, b) <==> x == y,
            (AnyValue::I32(x), AnyValue::I32(y)) => same_binding(a, b) <==> x == y,
            (AnyValue::U32(x), AnyValue::U32(y)) => same_binding(a, b) <==> x == y,
            (AnyValue::I64(x), AnyValue::I64(y)) => same_binding(a, b) <==> x == y,
            (AnyValue::U64(x), AnyValue::U64(y)) => same_binding(a, b) <==> x == y,
            (AnyValue::F32(x), AnyValue::F32(y)) => same_binding(a, b) <==> x == y,
            (AnyValue::F64(x), AnyValue::F64(y)) => same_binding(a, b) <==> x == y,
            (AnyValue::Object(x), AnyValue::Object(y)) => same_binding(a, b) <==> x.mem_spec() == y.mem_spec(),
            (AnyValue::Grid(x), AnyValue::Grid(y)) => same_binding(a, b) <==> x@ == y@,
            _ => true,
        },
{
}

/// Only memory that is not shared is moved by a bind; any other value may go to every slot
/// of its tag.
pub proof fn law_only_owned_memory_is_moved(b: Binding, a: AnyValue)
    requires
        b.value == Some(a),
        !b.probe,
        b.feed is None,
    ensures
        b.fanout() <==> !(a matches AnyValue::Object(o) && !o.shared),
        !b.done(),
        (Binding { value: None, ..b }).done(),
{
}

/// A tag carries its key, its name and its value. A bare value is bound as it is; the value of a
/// checkout is taken for good from the slot that lent it.
pub proof fn law_tags_carry_their_value(key: u64, name: &'static str, o: Obj, c: Checkout, w: World, cell: u64)
    requires
        c.value@.len() == 1,
    ensures
        ({
            let t = SlotTag { key, name, value: o, source: Some(cell) };
            t.key_spec() == key && t.name_spec() == name && t.value_spec() == o && t.source_spec() == Some(cell)
        }),
        IntoBound::<Obj>::bindable(o) && IntoBound::<Obj>::bound_value(o) == o,
        IntoBound::<Obj>::bound_source(&o) is None && IntoBound::<Obj>::bound_world(o, w) == w,
        IntoBound::<Obj>::bindable(c) && IntoBound::<Obj>::bound_value(c) == c.value@[0],
        c.home == Some(Home::Slot(cell)) ==> IntoBound::<Obj>::bound_source(&c) == Some(cell) && IntoBound::<Obj>::bound_world(c, w).slot(cell) is Severed,
        c.home == Some(Home::Cell(cell)) ==> IntoBound::<Obj>::bound_source(&c) == Some(cell) && IntoBound::<Obj>::bound_world(c, w) == w,
        c.home is None ==> IntoBound::<Obj>::bound_source(&c) is None && IntoBound::<Obj>::bound_world(c, w) == w,
{
}

/// A slot handle stands for its slot, wherever it is used, with a sink of its own.
pub proof fn law_slot_handles_stand_for_their_slot(h: SlotHandle, w: World)
    requires
        w.next < u64::MAX,
    ensures
        h.input_spec(w).0 == (Input::Slot { key: h.key, name: h.name, cell: h.cell, sink: w.next }),
        h.input_spec(w).1 == w.fresh_ids(1nat),
        h.image_input_spec(w) == h.input_spec(w),
        h.imageable(),
{
}

/// An image of a checkout is taken for good, and is what a run finds; a pipe stands for what
/// comes along it.
pub proof fn law_given_images_are_found(c: Checkout, p: Pipe, w: World, barrier: Option<u64>, cell: u64)
    requires
        w.next < u64::MAX,
        c.value@.len() == 1,
    ensures
        c.imageable(),
        ({
            let (i, v) = c.image_input_spec(w);
            &&& found(v, barrier, i) matches Ok(x) && x.value == seq![c.value@[0]] && x.home == Some(Home::Cell(w.next))
            &&& c.home == Some(Home::Slot(cell)) && cell < w.next ==> v.slot(cell) is Severed
        }),
        p.image_input_spec(w) == (Input::Pipe(p), w),
{
}

/// An image that is given to an op is what its run finds, and so are both images of a copy.
pub proof fn law_owned_images_are_found(w: World, a: Obj, b: Obj, barrier: Option<u64>)
    requires
        w.next + 5 <= u64::MAX,
    ensures
        found(owned_image(w, a), barrier, Input::Concrete(w.next)) matches Ok(x) && x.value == seq![a],
        found(owned_cached_image(w, a), barrier, Input::Concrete(w.next)) matches Ok(x) && x.value == seq![a],
        found(owned_images(w, a, b), barrier, Input::Concrete(w.next)) matches Ok(x) && x.value == seq![a],
        found(owned_images(w, a, b), barrier, Input::Concrete((w.next + 1) as u64)) matches Ok(x) && x.value == seq![b],
        owned_image(w, a).next == w.next + 2,
        owned_cached_image(w, a).next == w.next + 3,
        owned_images(w, a, b).next == w.next + 5,
{
}

/// A number of a launch and a grid are read as they were given, or as their slot holds them; a
/// slot without a value of its type is an error by its name.
pub proof fn law_scalars_are_read_as_they_are<V: SlotValue + Copy>(
    v: V,
    a: AnyValue,
    key: u64,
    name: &'static str,
    cell: u64,
    sink: u64,
    kind: ValueKind,
    w: World,
)
    ensures
        ScalarInput::Concrete(v).reading(w) == Ok::<V, Error>(v),
        ScalarInput::Concrete(v).site_spec() is None,
        ({
            let s = ScalarInput::<V>::Slot { key, name, cell, sink };
            &&& s.site_spec() == Some(Input::Scalar { key, name, cell, sink, kind: V::kind_spec() })
            &&& w.scalar(cell) is None ==> s.reading(w) == Err::<V, Error>(Error::SlotUnbound(name))
            &&& w.scalar(cell) == Some(v.erased()) ==> s.reading(w) == Ok::<V, Error>(v)
        }),
        NumberArg::Given(a).reading(w) == Ok::<AnyValue, Error>(a),
        ({
            let n = NumberArg::Slot { key, name, cell, sink, kind };
            &&& w.scalar(cell) == Some(a) && kind_of(a) == kind ==> n.reading(w) == Ok::<AnyValue, Error>(a)
            &&& w.scalar(cell) == Some(a) && kind_of(a) != kind ==> n.reading(w) == Err::<AnyValue, Error>(
                Error::SlotUnbound(name),
            )
            &&& w.scalar(cell) is None ==> n.reading(w) == Err::<AnyValue, Error>(Error::SlotUnbound(name))
        }),
{
    V::lemma_kind(v, a);
}

/// The pipes that are made for the branches of an op are as many as there are branches, all
/// fresh and all apart.
pub proof fn law_new_pipes_are_apart(from: u64, n: nat, a: int, b: int)
    requires
        from + n <= u64::MAX,
        0 <= a < b < n,
    ensures
        fresh_pipes(from, n).len() == n,
        fresh_pipes(from, n)[a].cell != fresh_pipes(from, n)[b].cell,
        from <= fresh_pipes(from, n)[a].cell < from + n,
{
}

/// What a host closure's output comes from: the slots that its source's output comes from.
pub proof fn law_seam_output_comes_from_its_source(src: Pipe, out: Pipe, m: Walk, y: u64)
    requires
        m.reach_of(Some(src.cell)).contains(y),
    ensures
        seam_reach(Some(src), Some(out), m).reach_of(Some(out.cell)).contains(y),
{
    lemma_ids_are_added(m.reach_of(Some(out.cell)), m.reach_of(Some(src.cell)));
}

} // verus!
