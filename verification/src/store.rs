//! The cells of a graph: concrete inputs, slots, pipes and cached command
//! buffers, each under an identity.

use crate::error::Error;
use crate::ids::{copy_ids, extend_ids, ids_meet, IdSet};
use crate::launch::InFlight;
use crate::obj::{uninit_class, Home, MemRef, Obj};
use crate::slots::{AnyValue, SlotState};
use std::collections::HashMap;
use vstd::prelude::*;

verus! {

broadcast use vstd::std_specs::hash::group_hash_axioms;

/// An edge of the graph, by the identity of its cell.
#[derive(Clone, Copy, Debug, PartialEq, Eq, Structural)]
pub struct Pipe {
    pub cell: u64,
}

impl Pipe {
    /// The identity of the pipe's cell.
    pub fn cell_id(&self) -> (r: u64)
        ensures
            r == self.cell,
    {
        self.cell
    }
}

/// What lies on a pipe: a value, the events it waits on, and where it goes back
/// to.
#[derive(Clone, Debug)]
pub struct Parcel {
    pub value: Vec<Obj>,
    pub deps: Vec<u64>,
    pub home: Option<Home>,
}

/// A parcel as plain sequences.
#[verifier::ext_equal]
pub struct ParcelView {
    pub value: Seq<Obj>,
    pub deps: Seq<u64>,
    pub home: Option<Home>,
}

impl View for Parcel {
    type V = ParcelView;

    open spec fn view(&self) -> ParcelView {
        ParcelView { value: self.value@, deps: self.deps@, home: self.home }
    }
}

/// A finished command buffer: its handle, the queue it was built for, and the
/// slots whose values it captured.
pub struct FinalizedCb {
    pub handle: u64,
    pub queue: u64,
    pub slots: IdSet,
}

/// A finished command buffer as plain values.
#[verifier::ext_equal]
pub struct CbView {
    pub handle: u64,
    pub queue: u64,
    pub slots: Seq<u64>,
}

impl View for FinalizedCb {
    type V = CbView;

    open spec fn view(&self) -> CbView {
        CbView { handle: self.handle, queue: self.queue, slots: self.slots@ }
    }
}

/// The cells of a graph.
pub struct Store {
    cells: HashMap<u64, Obj>,
    seeded: HashMap<u64, bool>,
    slots: HashMap<u64, SlotState<Obj>>,
    scalars: HashMap<u64, AnyValue>,
    sinks: HashMap<u64, Vec<Error>>,
    pipes: HashMap<u64, Parcel>,
    caches: HashMap<u64, FinalizedCb>,
    uses: HashMap<u64, Vec<u64>>,
    next: u64,
}

/// The cells of a graph as plain maps.
#[verifier::ext_equal]
pub struct World {
    /// The value of each concrete input or upload that is not lent.
    pub cells: Map<u64, Obj>,
    /// The uploads that were allocated.
    pub seeded: Set<u64>,
    /// The state of each slot that was ever bound or fed.
    pub slots: Map<u64, SlotState<Obj>>,
    /// The value of each scalar slot that was bound.
    pub scalars: Map<u64, AnyValue>,
    /// The errors recorded by infallible binds, oldest first.
    pub sinks: Map<u64, Seq<Error>>,
    /// What lies on each pipe.
    pub pipes: Map<u64, ParcelView>,
    /// The command buffer kept by each node.
    pub caches: Map<u64, CbView>,
    /// The events of the launches that use shared memory, by its pointer.
    pub uses: Map<u64, Seq<u64>>,
    /// The next identity to hand out.
    pub next: u64,
}

impl World {
    /// What lies on a pipe.
    pub open spec fn parcel(self, pipe: u64) -> Option<ParcelView> {
        if self.pipes.contains_key(pipe) {
            Some(self.pipes[pipe])
        } else {
            None
        }
    }

    /// Lay a parcel on a pipe.
    pub open spec fn put(self, pipe: u64, p: ParcelView) -> World {
        World { pipes: self.pipes.insert(pipe, p), ..self }
    }

    /// Take what lies on a pipe away.
    pub open spec fn drained(self, pipe: u64) -> World {
        World { pipes: self.pipes.remove(pipe), ..self }
    }

    /// The state of a slot; one that was never touched is unbound.
    pub open spec fn slot(self, cell: u64) -> SlotState<Obj> {
        if self.slots.contains_key(cell) {
            self.slots[cell]
        } else {
            SlotState::Unbound
        }
    }

    pub open spec fn with_slot(self, cell: u64, s: SlotState<Obj>) -> World {
        World { slots: self.slots.insert(cell, s), ..self }
    }

    /// The value of a scalar slot, once it is bound.
    pub open spec fn scalar(self, cell: u64) -> Option<AnyValue> {
        if self.scalars.contains_key(cell) {
            Some(self.scalars[cell])
        } else {
            None
        }
    }

    pub open spec fn with_scalar(self, cell: u64, a: AnyValue) -> World {
        World { scalars: self.scalars.insert(cell, a), ..self }
    }

    /// Whether an upload was allocated.
    pub open spec fn is_seeded(self, cell: u64) -> bool {
        self.seeded.contains(cell)
    }

    /// The value of a concrete input or an upload that is not lent.
    pub open spec fn held(self, cell: u64) -> Option<Obj> {
        if self.cells.contains_key(cell) {
            Some(self.cells[cell])
        } else {
            None
        }
    }

    pub open spec fn holding(self, cell: u64, o: Obj) -> World {
        World { cells: self.cells.insert(cell, o), ..self }
    }

    pub open spec fn lent(self, cell: u64) -> World {
        World { cells: self.cells.remove(cell), ..self }
    }

    /// The errors that infallible binds recorded.
    pub open spec fn sink(self, id: u64) -> Seq<Error> {
        if self.sinks.contains_key(id) {
            self.sinks[id]
        } else {
            Seq::empty()
        }
    }

    /// The command buffer that a node keeps.
    pub open spec fn cached(self, cache: u64) -> Option<CbView> {
        if self.caches.contains_key(cache) {
            Some(self.caches[cache])
        } else {
            None
        }
    }

    pub open spec fn keeping(self, cache: u64, cb: CbView) -> World {
        World { caches: self.caches.insert(cache, cb), ..self }
    }

    /// The events of the launches that use shared memory.
    pub open spec fn used_until(self, ptr: u64) -> Seq<u64> {
        until(self.uses, ptr)
    }

    /// The events of the launches that use memory. Only shared memory is followed: the
    /// runtime itself keeps a memory object until its commands end.
    pub open spec fn busy_until(self, m: MemRef) -> Seq<u64> {
        match m {
            MemRef::Svm(p) => self.used_until(p),
            MemRef::Buffer(_) => Seq::empty(),
        }
    }

    /// Note the uses of a launch.
    pub open spec fn using(self, uses: Seq<InFlight>) -> World {
        World { uses: noted(self.uses, uses, 0), ..self }
    }

    /// Forget the uses of memory that have ended.
    pub open spec fn settled(self, m: MemRef) -> World {
        match m {
            MemRef::Svm(p) => World { uses: self.uses.remove(p), ..self },
            MemRef::Buffer(_) => self,
        }
    }

    /// Give a single value back to where it came from. A value without a home,
    /// or one that is not a single object, goes nowhere.
    pub open spec fn rehomed(self, home: Option<Home>, value: Seq<Obj>) -> World {
        if value.len() != 1 {
            self
        } else {
            match home {
                None => self,
                Some(Home::Cell(c)) => self.holding(c, value[0]),
                Some(Home::Slot(c)) => self.with_slot(c, SlotState::Bound(value[0])),
                Some(Home::Downgrade(c)) => self.holding(
                    c,
                    value[0].as_class(uninit_class(value[0].class)),
                ),
            }
        }
    }

    /// Take a lent value for good: its slot, if it came from one, no longer
    /// expects it back.
    pub open spec fn severed(self, home: Option<Home>) -> World {
        match home {
            Some(Home::Slot(c)) => self.with_slot(c, SlotState::Severed),
            _ => self,
        }
    }

    /// Replace the events that the parcel on a pipe waits on.
    pub open spec fn restamped(self, pipe: u64, evs: Seq<u64>) -> World {
        match self.parcel(pipe) {
            Some(p) => self.put(pipe, ParcelView { deps: evs, ..p }),
            None => self,
        }
    }

    /// Add to the events that the parcel on a pipe waits on.
    pub open spec fn delayed(self, pipe: u64, evs: Seq<u64>) -> World {
        match self.parcel(pipe) {
            Some(p) => self.put(pipe, ParcelView { deps: p.deps + evs, ..p }),
            None => self,
        }
    }

    /// Send what lies on a pipe back to where it came from.
    pub open spec fn reclaimed(self, pipe: u64) -> World {
        match self.parcel(pipe) {
            Some(p) => self.drained(pipe).rehomed(p.home, p.value),
            None => self,
        }
    }

    /// The cells once `n` identities were handed out. Nothing is under a fresh
    /// identity.
    pub open spec fn fresh_ids(self, n: nat) -> World {
        let new = ids_from(self.next, n);
        World {
            cells: self.cells.remove_keys(new),
            seeded: self.seeded.difference(new),
            slots: self.slots.remove_keys(new),
            scalars: self.scalars.remove_keys(new),
            sinks: self.sinks.remove_keys(new),
            pipes: self.pipes.remove_keys(new),
            caches: self.caches.remove_keys(new),
            uses: self.uses,
            next: (self.next + n) as u64,
        }
    }

    /// Put the values back to where they were in `from`: those of the inputs, in
    /// the slots and on the pipes.
    pub open spec fn restored(self, from: World) -> World {
        World { cells: from.cells, slots: from.slots, pipes: from.pipes, ..self }
    }

    /// Drop the command buffer that a node keeps if it captured one of the
    /// slots in `mutated`.
    pub open spec fn invalidated(self, cache: u64, mutated: Seq<u64>) -> World {
        match self.cached(cache) {
            Some(cb) => if ids_meet(cb.slots, mutated) {
                World { caches: self.caches.remove(cache), ..self }
            } else {
                self
            },
            None => self,
        }
    }
}

/// The events that each shared memory is used until.
pub open spec fn until(m: Map<u64, Seq<u64>>, ptr: u64) -> Seq<u64> {
    if m.contains_key(ptr) {
        m[ptr]
    } else {
        Seq::empty()
    }
}

/// The same once uses from index `i` on were noted.
pub open spec fn noted(m: Map<u64, Seq<u64>>, uses: Seq<InFlight>, i: nat) -> Map<u64, Seq<u64>>
    decreases uses.len() - i,
{
    if i >= uses.len() {
        m
    } else {
        let u = uses[i as int];
        noted(m.insert(u.ptr, until(m, u.ptr).push(u.event)), uses, i + 1)
    }
}

/// The `n` identities from `first` on.
pub open spec fn ids_from(first: u64, n: nat) -> Set<u64> {
    Set::new(|c: u64| first <= c && c < first + n)
}

/// Identities may be handed out in one go or one after the other.
pub broadcast proof fn lemma_fresh_twice(w: World, a: nat, b: nat)
    requires
        w.next + a + b <= u64::MAX,
    ensures
        (#[trigger] w.fresh_ids(a).fresh_ids(b)) == w.fresh_ids(a + b),
{
    assert(w.fresh_ids(a).fresh_ids(b) =~= w.fresh_ids(a + b));
}

/// Handing out an identity leaves what is held under earlier ones.
pub broadcast proof fn lemma_fresh_past_held(w: World, c: u64, o: Obj, n: nat)
    requires
        c < w.next,
    ensures
        (#[trigger] w.holding(c, o).fresh_ids(n)) == w.fresh_ids(n).holding(c, o),
{
    assert(w.holding(c, o).fresh_ids(n) =~= w.fresh_ids(n).holding(c, o));
}

/// Handing out an identity leaves what lies on earlier pipes.
pub broadcast proof fn lemma_fresh_past_put(w: World, c: u64, p: ParcelView, n: nat)
    requires
        c < w.next,
    ensures
        (#[trigger] w.put(c, p).fresh_ids(n)) == w.fresh_ids(n).put(c, p),
{
    assert(w.put(c, p).fresh_ids(n) =~= w.fresh_ids(n).put(c, p));
}

/// How handing out identities combines with what is there.
pub broadcast group group_fresh_ids {
    lemma_fresh_twice,
    lemma_fresh_past_held,
    lemma_fresh_past_put,
}

/// Where the values of a graph were at some time.
pub struct Snapshot {
    cells: HashMap<u64, Obj>,
    slots: HashMap<u64, SlotState<Obj>>,
    pipes: HashMap<u64, Parcel>,
}

impl Snapshot {
    /// Whether the values were where they are in `w`.
    pub closed spec fn shows(&self, w: World) -> bool {
        &&& self.cells@ == w.cells
        &&& self.slots@ == w.slots
        &&& self.pipes@.map_values(|p: Parcel| p@) == w.pipes
    }
}

impl View for Store {
    type V = World;

    closed spec fn view(&self) -> World {
        World {
            cells: self.cells@,
            seeded: self.seeded@.dom(),
            slots: self.slots@,
            scalars: self.scalars@,
            sinks: self.sinks@.map_values(|v: Vec<Error>| v@),
            pipes: self.pipes@.map_values(|p: Parcel| p@),
            caches: self.caches@.map_values(|c: FinalizedCb| c@),
            uses: self.uses@.map_values(|v: Vec<u64>| v@),
            next: self.next,
        }
    }
}

impl Store {
    /// No cell in use.
    pub fn new() -> (r: Store)
        ensures
            r@ == (World {
                cells: Map::empty(),
                seeded: Set::empty(),
                slots: Map::empty(),
                scalars: Map::empty(),
                sinks: Map::empty(),
                pipes: Map::empty(),
                caches: Map::empty(),
                uses: Map::empty(),
                next: 0,
            }),
    {
        let r = Store {
            cells: HashMap::new(),
            seeded: HashMap::new(),
            slots: HashMap::new(),
            scalars: HashMap::new(),
            sinks: HashMap::new(),
            pipes: HashMap::new(),
            caches: HashMap::new(),
            uses: HashMap::new(),
            next: 0,
        };
        assert(r@ =~= (World {
            cells: Map::empty(),
            seeded: Set::empty(),
            slots: Map::empty(),
            scalars: Map::empty(),
            sinks: Map::empty(),
            pipes: Map::empty(),
            caches: Map::empty(),
            uses: Map::empty(),
            next: 0,
        }));
        r
    }

    /// The next identity to be handed out.
    pub fn next_id(&self) -> (r: u64)
        ensures
            r == self@.next,
    {
        self.next
    }

    /// A fresh identity: nothing is under it.
    pub fn fresh(&mut self) -> (r: u64)
        requires
            old(self)@.next < u64::MAX,
        ensures
            r == old(self)@.next,
            final(self)@ == old(self)@.fresh_ids(1nat),
    {
        let r: u64 = self.next;
        self.cells.remove(&r);
        self.seeded.remove(&r);
        self.slots.remove(&r);
        self.scalars.remove(&r);
        self.sinks.remove(&r);
        self.pipes.remove(&r);
        self.caches.remove(&r);
        self.next = r + 1;
        assert(self@ =~= old(self)@.fresh_ids(1nat));
        r
    }

    /// A fresh, empty pipe.
    pub fn pipe(&mut self) -> (r: Pipe)
        requires
            old(self)@.next < u64::MAX,
        ensures
            r.cell == old(self)@.next,
            final(self)@ == old(self)@.fresh_ids(1nat),
    {
        Pipe { cell: self.fresh() }
    }

    /// Lay a value on a pipe, with the events it waits on and its home.
    pub fn put_home(&mut self, pipe: &Pipe, value: Vec<Obj>, deps: Vec<u64>, home: Option<Home>)
        ensures
            final(self)@ == old(self)@.put(
                pipe.cell,
                (ParcelView { value: value@, deps: deps@, home }),
            ),
    {
        let p = Parcel { value, deps, home };
        self.pipes.insert(pipe.cell, p);
        assert(self@ =~= old(self)@.put(pipe.cell, p@));
    }

    /// Take the parcel on a pipe.
    pub fn take_home(&mut self, pipe: &Pipe) -> (r: Option<Parcel>)
        ensures
            final(self)@ == old(self)@.drained(pipe.cell),
            match r {
                Some(p) => old(self)@.parcel(pipe.cell) == Some(p@),
                None => old(self)@.parcel(pipe.cell) is None,
            },
    {
        let r = self.pipes.remove(&pipe.cell);
        assert(self@ =~= old(self)@.drained(pipe.cell));
        r
    }

    /// The state of a slot.
    pub fn slot(&self, cell: u64) -> (r: SlotState<Obj>)
        ensures
            r == self@.slot(cell),
    {
        match self.slots.get(&cell) {
            Some(s) => *s,
            None => SlotState::Unbound,
        }
    }

    /// Change the state of a slot.
    pub fn set_slot(&mut self, cell: u64, s: SlotState<Obj>)
        ensures
            final(self)@ == old(self)@.with_slot(cell, s),
    {
        self.slots.insert(cell, s);
        assert(self@ =~= old(self)@.with_slot(cell, s));
    }

    /// The value of a scalar slot, once it is bound.
    pub fn scalar(&self, cell: u64) -> (r: Option<AnyValue>)
        ensures
            r == self@.scalar(cell),
    {
        match self.scalars.get(&cell) {
            Some(a) => Some(*a),
            None => None,
        }
    }

    /// Bind a scalar slot.
    pub fn set_scalar(&mut self, cell: u64, a: AnyValue)
        ensures
            final(self)@ == old(self)@.with_scalar(cell, a),
    {
        self.scalars.insert(cell, a);
        assert(self@ =~= old(self)@.with_scalar(cell, a));
    }

    /// The value of a concrete input or an upload, unless it is lent.
    pub fn held(&self, cell: u64) -> (r: Option<Obj>)
        ensures
            r == self@.held(cell),
    {
        match self.cells.get(&cell) {
            Some(o) => Some(*o),
            None => None,
        }
    }

    /// Put a value into the cell of a concrete input or an upload.
    pub fn hold(&mut self, cell: u64, o: Obj)
        ensures
            final(self)@ == old(self)@.holding(cell, o),
    {
        self.cells.insert(cell, o);
        assert(self@ =~= old(self)@.holding(cell, o));
    }

    /// Lend the value of a concrete input or an upload.
    pub fn lend(&mut self, cell: u64) -> (r: Option<Obj>)
        ensures
            r == old(self)@.held(cell),
            final(self)@ == old(self)@.lent(cell),
    {
        let r = self.cells.remove(&cell);
        assert(self@ =~= old(self)@.lent(cell));
        r
    }

    /// Whether an upload was allocated.
    pub fn is_seeded(&self, cell: u64) -> (r: bool)
        ensures
            r == self@.is_seeded(cell),
    {
        self.seeded.contains_key(&cell)
    }

    /// Note that an upload was allocated.
    pub fn mark_seeded(&mut self, cell: u64)
        ensures
            final(self)@ == (World { seeded: old(self)@.seeded.insert(cell), ..old(self)@ }),
    {
        self.seeded.insert(cell, true);
        assert(self@ =~= (World { seeded: old(self)@.seeded.insert(cell), ..old(self)@ }));
    }

    /// The errors recorded in a sink, oldest first.
    pub fn sink(&self, id: u64) -> (r: Option<&Vec<Error>>)
        ensures
            match r {
                Some(v) => self@.sink(id) == v@,
                None => self@.sink(id).len() == 0,
            },
    {
        self.sinks.get(&id)
    }

    /// Record an error in a sink.
    pub fn record(&mut self, id: u64, e: Error)
        ensures
            final(self)@ == (World {
                sinks: old(self)@.sinks.insert(id, old(self)@.sink(id).push(e)),
                ..old(self)@
            }),
    {
        let mut v: Vec<Error> = match self.sinks.remove(&id) {
            Some(v) => v,
            None => Vec::new(),
        };
        assert(v@ =~= old(self)@.sink(id));
        v.push(e);
        self.sinks.insert(id, v);
        assert(self@ =~= (World {
            sinks: old(self)@.sinks.insert(id, old(self)@.sink(id).push(e)),
            ..old(self)@
        }));
    }

    /// The command buffer that a node keeps.
    pub fn cached(&self, cache: u64) -> (r: Option<&FinalizedCb>)
        ensures
            match r {
                Some(cb) => self@.cached(cache) == Some(cb@),
                None => self@.cached(cache) is None,
            },
    {
        self.caches.get(&cache)
    }

    /// Keep a command buffer at a node.
    pub fn keep(&mut self, cache: u64, cb: FinalizedCb)
        ensures
            final(self)@ == old(self)@.keeping(cache, cb@),
    {
        self.caches.insert(cache, cb);
        assert(self@ =~= old(self)@.keeping(cache, cb@));
    }

    /// Drop the command buffer that a node keeps.
    pub fn forget(&mut self, cache: u64)
        ensures
            final(self)@ == (World { caches: old(self)@.caches.remove(cache), ..old(self)@ }),
    {
        self.caches.remove(&cache);
        assert(self@ =~= (World { caches: old(self)@.caches.remove(cache), ..old(self)@ }));
    }

    /// The events of the launches that use memory.
    pub fn busy(&self, m: MemRef) -> (r: Vec<u64>)
        ensures
            r@ == self@.busy_until(m),
    {
        match m {
            MemRef::Svm(p) => match self.uses.get(&p) {
                Some(v) => copy_ids(v),
                None => Vec::new(),
            },
            MemRef::Buffer(_) => Vec::new(),
        }
    }

    /// Note the uses of a launch.
    pub fn note_uses(&mut self, uses: &Vec<InFlight>)
        ensures
            final(self)@ == old(self)@.using(uses@),
    {
        let ghost pre = self@;
        let mut i: usize = 0;
        while i < uses.len()
            invariant
                i <= uses.len(),
                self@ == (World { uses: self@.uses, ..pre }),
                noted(pre.uses, uses@, 0) == noted(self@.uses, uses@, i as nat),
            decreases uses.len() - i,
        {
            let u: InFlight = uses[i];
            let ghost before = self@;
            let mut v: Vec<u64> = match self.uses.remove(&u.ptr) {
                Some(v) => v,
                None => Vec::new(),
            };
            assert(v@ =~= before.used_until(u.ptr));
            v.push(u.event);
            self.uses.insert(u.ptr, v);
            assert(self@ =~= (World {
                uses: before.uses.insert(u.ptr, before.used_until(u.ptr).push(u.event)),
                ..before
            }));
            i = i + 1;
        }
    }

    /// Forget the uses of memory that have ended.
    pub fn settle(&mut self, m: MemRef)
        ensures
            final(self)@ == old(self)@.settled(m),
    {
        if let MemRef::Svm(p) = m {
            self.uses.remove(&p);
        }
        assert(self@ =~= old(self)@.settled(m));
    }

    /// Give a lent value back to its home.
    pub fn rehome(&mut self, home: Option<Home>, value: &Vec<Obj>)
        ensures
            final(self)@ == old(self)@.rehomed(home, value@),
    {
        if value.len() != 1 {
            return ;
        }
        let o: Obj = value[0];
        match home {
            None => {},
            Some(Home::Cell(c)) => {
                self.hold(c, o);
            },
            Some(Home::Slot(c)) => {
                self.set_slot(c, SlotState::Bound(o));
            },
            Some(Home::Downgrade(c)) => {
                self.hold(c, o.from_init());
            },
        }
    }

    /// Take a lent value for good.
    pub fn sever(&mut self, home: Option<Home>)
        ensures
            final(self)@ == old(self)@.severed(home),
    {
        match home {
            Some(Home::Slot(c)) => {
                self.set_slot(c, SlotState::Severed);
            },
            _ => {},
        }
    }

    /// Replace the events that the parcel on a pipe waits on.
    pub fn restamp(&mut self, pipe: &Pipe, evs: &Vec<u64>)
        ensures
            final(self)@ == old(self)@.restamped(pipe.cell, evs@),
    {
        if let Some(p) = self.take_home(pipe) {
            self.put_home(pipe, p.value, copy_ids(evs), p.home);
            assert(self@ =~= old(self)@.restamped(pipe.cell, evs@));
        } else {
            assert(self@ =~= old(self)@);
        }
    }

    /// Add to the events that the parcel on a pipe waits on.
    pub fn delay(&mut self, pipe: &Pipe, evs: &Vec<u64>)
        ensures
            final(self)@ == old(self)@.delayed(pipe.cell, evs@),
    {
        if let Some(p) = self.take_home(pipe) {
            let mut deps: Vec<u64> = p.deps;
            extend_ids(&mut deps, evs);
            self.put_home(pipe, p.value, deps, p.home);
            assert(self@ =~= old(self)@.delayed(pipe.cell, evs@));
        } else {
            assert(self@ =~= old(self)@);
        }
    }

    /// Note where the values are.
    pub fn snapshot(&self) -> (r: Snapshot)
        ensures
            r.shows(self@),
    {
        Snapshot { cells: self.cells.clone(), slots: self.slots.clone(), pipes: self.pipes.clone() }
    }

    /// Put the values back to where they were.
    pub fn restore(&mut self, from: Snapshot)
        ensures
            forall|w: World| #[trigger] from.shows(w) ==> final(self)@ == old(self)@.restored(w),
    {
        let ghost shot = from;
        self.cells = from.cells;
        self.slots = from.slots;
        self.pipes = from.pipes;
        assert forall|w: World| #[trigger] shot.shows(w) implies self@ == old(self)@.restored(w) by {
            assert(self@ =~= old(self)@.restored(w));
        }
    }

    /// Send what lies on a pipe back to its home.
    pub fn reclaim(&mut self, pipe: &Pipe)
        ensures
            final(self)@ == old(self)@.reclaimed(pipe.cell),
    {
        if let Some(p) = self.take_home(pipe) {
            self.rehome(p.home, &p.value);
        } else {
            assert(self@ =~= old(self)@);
        }
    }
}

} // verus!
