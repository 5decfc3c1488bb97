//! Binding values to the slots of a graph, and what that promises.

use crate::error::OpResult;
use crate::graph::{bind_of, invalidate_of, DeviceOp};
use crate::ids::{with_ids, IdSet};
use crate::slots::{deferred_world, BindMode, Binding, SlotBinder, SlotValue, Tag};
use crate::store::{Pipe, Store, World};
use vstd::prelude::*;

verus! {

/// A binding of `value` to the slots with key `key`, before it meets any.
pub open spec fn fresh_binding<V: SlotValue>(key: u64, value: V, mode: BindMode) -> Binding {
    Binding {
        key,
        mode,
        value: Some(value.erased()),
        outcome: None,
        matched: Seq::empty(),
        probe: false,
        severable: Seq::empty(),
        feed: None,
        deferred: false,
        sink: None,
    }
}

/// A binding that feeds the slots with key `key` from a pipe, before it meets any.
pub open spec fn fresh_feed(key: u64, pipe: Pipe) -> Binding {
    Binding {
        key,
        mode: BindMode::Mutate,
        value: None,
        outcome: None,
        matched: Seq::empty(),
        probe: false,
        severable: Seq::empty(),
        feed: Some(pipe),
        deferred: false,
        sink: None,
    }
}

/// A binding that only inspects the slots with key `key`, before it meets any.
pub open spec fn fresh_probe(key: u64, mode: BindMode, severable: Seq<u64>) -> Binding {
    Binding {
        key,
        mode,
        value: None,
        outcome: None,
        matched: Seq::empty(),
        probe: true,
        severable,
        feed: None,
        deferred: false,
        sink: None,
    }
}

fn id_set(ids: &Vec<u64>) -> (r: IdSet)
    ensures
        r@ == with_ids(Seq::empty(), ids@),
{
    let mut s = IdSet::new();
    let mut i: usize = 0;
    while i < ids.len()
        invariant
            i <= ids.len(),
            s@ == with_ids(Seq::empty(), ids@.take(i as int)),
        decreases ids.len() - i,
    {
        s.insert(ids[i]);
        assert(ids@.take(i + 1).drop_last() =~= ids@.take(i as int));
        i = i + 1;
    }
    assert(ids@.take(i as int) =~= ids@);
    s
}

/// The cells after a bind: its slots are filled, and a bind that may change
/// slots drops the command buffers that captured them.
pub open spec fn bound_world(op: DeviceOp, w: World, b: Binding) -> World {
    let (w1, b1) = bind_of(op, w, b);
    match b.mode {
        BindMode::SetOnce => w1,
        BindMode::Mutate => invalidate_of(op, w1, with_ids(Seq::empty(), b1.matched)),
    }
}

impl DeviceOp {
    fn fold_bind(&self, st: &mut Store, binder: &mut SlotBinder)
        ensures
            final(binder)@ == bind_of(*self, old(st)@, old(binder)@).1,
            final(st)@ == bound_world(*self, old(st)@, old(binder)@),
    {
        let mode = binder.mode();
        self.bind_slots(st, binder);
        if matches!(mode, BindMode::Mutate) {
            let mutated: IdSet = id_set(binder.matched_cells());
            self.invalidate_cbs(st, &mutated);
        }
    }

    /// Bind a value to the slots of `tag`, once: an equal value is accepted
    /// again, a different one is refused.
    pub fn bind<Tg: Tag>(&self, st: &mut Store, tag: Tg) -> (r: OpResult<()>)
        ensures
            ({
                let b = fresh_binding(tag.key_spec(), tag.value_spec(), BindMode::SetOnce);
                &&& r == bind_of(*self, old(st)@, b).1.verdict(tag.name_spec())
                &&& final(st)@ == bound_world(*self, old(st)@, b)
            }),
    {
        let (key, name) = (tag.key(), tag.name());
        let mut binder = SlotBinder::new(key, tag.into_value(), BindMode::SetOnce);
        self.fold_bind(st, &mut binder);
        binder.verdict(name)
    }

    /// Bind a value to the slots of `tag`, or change the one they have.
    pub fn mutate_bind<Tg: Tag>(&self, st: &mut Store, tag: Tg) -> (r: OpResult<()>)
        ensures
            ({
                let b = fresh_binding(tag.key_spec(), tag.value_spec(), BindMode::Mutate);
                &&& r == bind_of(*self, old(st)@, b).1.verdict(tag.name_spec())
                &&& final(st)@ == bound_world(*self, old(st)@, b)
            }),
    {
        let (key, name) = (tag.key(), tag.name());
        let mut binder = SlotBinder::new(key, tag.into_value(), BindMode::Mutate);
        self.fold_bind(st, &mut binder);
        binder.verdict(name)
    }

    /// What a bind to the slots with key `key` would come to, as far as the states of
    /// the slots decide, once the checkouts of `severable_cells` are taken for
    /// good.
    pub fn probe_bind(
        &self,
        st: &mut Store,
        key: u64,
        name: &'static str,
        mode: BindMode,
        severable_cells: Vec<u64>,
    ) -> (r: OpResult<()>)
        ensures
            ({
                let b = fresh_probe(key, mode, severable_cells@);
                &&& r == bind_of(*self, old(st)@, b).1.verdict(name)
                &&& final(st)@ == bind_of(*self, old(st)@, b).0
            }),
    {
        let mut binder = SlotBinder::probe(key, mode, severable_cells);
        self.bind_slots(st, &mut binder);
        binder.verdict(name)
    }

    /// Bind a value to the slots of `tag`, once; a refusal is recorded against
    /// the graph and comes up when it runs.
    pub fn bind_deferred<Tg: Tag>(&self, st: &mut Store, tag: Tg)
        ensures
            ({
                let b = Binding {
                    deferred: true,
                    ..fresh_binding(tag.key_spec(), tag.value_spec(), BindMode::SetOnce)
                };
                final(st)@ == deferred_world(
                    bound_world(*self, old(st)@, b),
                    bind_of(*self, old(st)@, b).1,
                    tag.name_spec(),
                )
            }),
    {
        let (key, name) = (tag.key(), tag.name());
        let mut binder = SlotBinder::new(key, tag.into_value(), BindMode::SetOnce);
        binder.mark_deferred();
        self.fold_bind(st, &mut binder);
        binder.record_deferred(st, name);
    }

    /// Feed the slots with key `key` from a pipe; a refusal is recorded against the
    /// graph and comes up when it runs.
    pub fn feed_deferred(&self, st: &mut Store, key: u64, name: &'static str, pipe: Pipe)
        ensures
            ({
                let b = Binding { deferred: true, ..fresh_feed(key, pipe) };
                final(st)@ == deferred_world(
                    bound_world(*self, old(st)@, b),
                    bind_of(*self, old(st)@, b).1,
                    name,
                )
            }),
    {
        let mut binder = SlotBinder::feed(key, pipe);
        binder.mark_deferred();
        self.fold_bind(st, &mut binder);
        binder.record_deferred(st, name);
    }
}

} // verus!
