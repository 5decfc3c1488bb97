//! The inputs of ops, and the checkouts that hand a run's outputs to the caller.

use crate::error::{Error, OpResult};
use crate::obj::{is_uninit, Class, Home, Obj};
use crate::slots::{
    deferred_error, kind_of, lent_fault, peek_deferred, same_binding, scalar_binding_at, scalar_state_at, value_kind,
    AnyValue, BindFault, BindMode, Binding, SlotBinder, SlotHandle, SlotState, SlotValue, ValueKind,
};
use crate::store::{Parcel, ParcelView, Pipe, Store, World};
use vstd::prelude::*;

verus! {

broadcast use crate::store::group_fresh_ids;

/// Where an op gets a value from.
#[derive(Clone, Copy, Debug)]
pub enum Input {
    /// A value of the op's own, in the cell with this identity.
    Concrete(u64),
    /// The output of an upstream op.
    Pipe(Pipe),
    /// A slot.
    Slot { key: u64, name: &'static str, cell: u64, sink: u64 },
    /// A slot for a scalar or a launch grid, which is read by copy and never taken.
    Scalar { key: u64, name: &'static str, cell: u64, sink: u64, kind: ValueKind },
}

/// The answer when a concrete input is still lent.
pub open spec fn busy_error() -> Error {
    Error::NotSupported("eager graph: an input buffer is already lent (the graph is busy)")
}

/// The answer when no upstream op filled the pipe.
pub open spec fn empty_pipe_error() -> Error {
    Error::NotSupported("eager graph: an input pipe holds no value")
}

/// The answer when a value does not have the single object that the op needs.
pub open spec fn not_single_error() -> Error {
    Error::InvalidArgument("an op over one buffer was given a group of values")
}

/// The answer when a scalar stands where an op takes memory.
pub open spec fn scalar_taken_error() -> Error {
    Error::InvalidArgument("a scalar slot holds no memory")
}

/// The events that a value without an upstream op waits on: the barrier of the
/// run, where it has one.
pub open spec fn barrier_deps(barrier: Option<u64>) -> Seq<u64> {
    match barrier {
        Some(ev) => seq![ev],
        None => Seq::empty(),
    }
}

fn barrier_list(barrier: Option<u64>) -> (r: Vec<u64>)
    ensures
        r@ == barrier_deps(barrier),
{
    let mut v: Vec<u64> = Vec::new();
    if let Some(ev) = barrier {
        v.push(ev);
    }
    assert(v@ =~= barrier_deps(barrier));
    v
}

/// What a run with the start barrier `barrier` finds at an input: the value with its
/// events and home, or why there is none.
pub open spec fn found(w: World, barrier: Option<u64>, input: Input) -> OpResult<ParcelView> {
    match input {
        Input::Concrete(c) => match w.held(c) {
            Some(o) => Ok(
                ParcelView { value: seq![o], deps: barrier_deps(barrier), home: Some(Home::Cell(c)) },
            ),
            None => Err(busy_error()),
        },
        Input::Pipe(p) => match w.parcel(p.cell) {
            Some(x) => Ok(x),
            None => Err(empty_pipe_error()),
        },
        Input::Slot { name, cell, .. } => match w.slot(cell) {
            SlotState::Bound(o) => Ok(
                ParcelView { value: seq![o], deps: barrier_deps(barrier), home: Some(Home::Slot(cell)) },
            ),
            SlotState::FedByPipe(p) => match w.parcel(p.cell) {
                Some(x) => Ok(x),
                None => Err(empty_pipe_error()),
            },
            _ => Err(Error::SlotUnbound(name)),
        },
        Input::Scalar { .. } => Err(scalar_taken_error()),
    }
}

/// The cells after a run took the value at an input.
pub open spec fn after_taking(w: World, input: Input) -> World {
    if found(w, None, input) is Err {
        w
    } else {
        match input {
            Input::Concrete(c) => w.lent(c),
            Input::Pipe(p) => w.drained(p.cell),
            Input::Slot { cell, .. } => match w.slot(cell) {
                SlotState::FedByPipe(p) => w.drained(p.cell),
                _ => w.with_slot(cell, SlotState::Lent),
            },
            Input::Scalar { .. } => w,
        }
    }
}

/// Whether a run can take the value at an input. A pipe counts as ready: its
/// value comes during the run.
pub open spec fn readiness(w: World, input: Input) -> OpResult<()> {
    match input {
        Input::Concrete(c) => if w.held(c) is Some {
            Ok(())
        } else {
            Err(busy_error())
        },
        Input::Pipe(_) => Ok(()),
        Input::Slot { name, cell, sink, .. } => match w.slot(cell) {
            SlotState::Bound(_) | SlotState::FedByPipe(_) => match deferred_error(w.sink(sink)) {
                Some(e) => Err(e),
                None => Ok(()),
            },
            _ => Err(Error::SlotUnbound(name)),
        },
        Input::Scalar { name, cell, sink, kind, .. } => match w.scalar(cell) {
            Some(a) => if kind_of(a) == kind {
                match deferred_error(w.sink(sink)) {
                    Some(e) => Err(e),
                    None => Ok(()),
                }
            } else {
                Err(Error::SlotUnbound(name))
            },
            None => Err(Error::SlotUnbound(name)),
        },
    }
}

/// What a bind that matched a slot changes in the binding.
pub open spec fn binding_at(s: SlotState<Obj>, cell: u64, name: &'static str, b: Binding) -> Binding {
    if b.probe {
        match s {
            SlotState::Lent => match lent_fault(b, cell, name) {
                Some(f) => b.refuse(f),
                None => b,
            },
            SlotState::Severed => if b.mode == BindMode::SetOnce {
                b.refuse(BindFault::Severed(name))
            } else {
                b
            },
            _ => b,
        }
    } else if b.feed is Some || b.consumed() {
        b
    } else {
        match s {
            SlotState::Unbound => b.after_giving::<Obj>(),
            SlotState::Bound(o) => match b.mode {
                BindMode::SetOnce => if same_binding(o.erased(), b.value->Some_0) {
                    b
                } else {
                    b.refuse(BindFault::Conflict(name))
                },
                BindMode::Mutate => b.after_giving::<Obj>(),
            },
            SlotState::Lent => b.refuse(BindFault::CheckedOut(name)),
            SlotState::Severed => match b.mode {
                BindMode::SetOnce => b.refuse(BindFault::Severed(name)),
                BindMode::Mutate => b.after_giving::<Obj>(),
            },
            SlotState::FedByPipe(_) => b,
        }
    }
}

/// What a bind that matched a slot leaves in the slot.
pub open spec fn state_at(s: SlotState<Obj>, b: Binding) -> SlotState<Obj> {
    if b.probe {
        s
    } else if b.feed is Some {
        SlotState::FedByPipe(b.feed->Some_0)
    } else if b.consumed() {
        s
    } else {
        let fills = match s {
            SlotState::Unbound => true,
            SlotState::Bound(_) | SlotState::Severed => b.mode == BindMode::Mutate,
            _ => false,
        };
        match b.given::<Obj>() {
            Some(o) if fills => SlotState::Bound(o),
            _ => s,
        }
    }
}

/// The binding after it was offered to an input.
pub open spec fn offered(w: World, input: Input, b: Binding) -> Binding {
    match input {
        Input::Slot { key, name, cell, sink } => {
            let seen = b.capture(sink);
            if key == b.key {
                binding_at(w.slot(cell), cell, name, seen.meet(cell))
            } else {
                seen
            }
        },
        Input::Scalar { key, name, cell, sink, .. } => {
            let seen = b.capture(sink);
            if key == b.key {
                scalar_binding_at(w.scalar(cell), seen.meet(cell), name)
            } else {
                seen
            }
        },
        _ => b,
    }
}

/// The cells after a binding was offered to an input.
pub open spec fn after_offer(w: World, input: Input, b: Binding) -> World {
    match input {
        Input::Slot { key, cell, .. } => {
            let s = state_at(w.slot(cell), b);
            if key == b.key && s != w.slot(cell) {
                w.with_slot(cell, s)
            } else {
                w
            }
        },
        Input::Scalar { key, cell, kind, .. } => {
            let s = scalar_state_at(w.scalar(cell), kind, b);
            if key == b.key && s != w.scalar(cell) {
                w.with_scalar(cell, s->Some_0)
            } else {
                w
            }
        },
        _ => w,
    }
}

/// The home of a copy's output. Unwritten memory goes back as unwritten memory,
/// and only to the cell of a concrete input.
pub open spec fn copy_home(input: Input, p: ParcelView) -> Option<Home> {
    if p.value.len() == 1 && is_uninit(p.value[0].class) {
        match (input, p.home) {
            (Input::Concrete(_), Some(Home::Cell(c))) => Some(Home::Downgrade(c)),
            _ => None,
        }
    } else {
        p.home
    }
}

/// Where the output of a copy goes back to, by the family of the memory that came
/// in.
pub trait CopyHome {
    /// Whether the copy hands the memory out as another family: unwritten memory is
    /// written by it.
    spec fn retyped(&self) -> bool;

    /// The home of memory that came from a concrete input.
    fn copy_home(&self, cell: u64) -> (r: Option<Home>)
        ensures
            r == Some(
                if self.retyped() {
                    Home::Downgrade(cell)
                } else {
                    Home::Cell(cell)
                },
            ),
    ;

    /// The home of memory that came from a slot.
    fn copy_slot_home(&self, cell: u64) -> (r: Option<Home>)
        ensures
            r == (if self.retyped() {
                None
            } else {
                Some(Home::Slot(cell))
            }),
    ;

    /// The home of memory that came along a pipe with a home of its own.
    fn pipe_home(&self, home: Option<Home>) -> (r: Option<Home>)
        ensures
            r == (if self.retyped() {
                None
            } else {
                home
            }),
    ;
}

impl CopyHome for Class {
    open spec fn retyped(&self) -> bool {
        is_uninit(*self)
    }

    fn copy_home(&self, cell: u64) -> (r: Option<Home>) {
        assert(self.retyped() == is_uninit(*self));
        match self {
            Class::DeviceUninit | Class::MappedUninit | Class::UsmUninit => Some(Home::Downgrade(cell)),
            _ => Some(Home::Cell(cell)),
        }
    }

    fn copy_slot_home(&self, cell: u64) -> (r: Option<Home>) {
        assert(self.retyped() == is_uninit(*self));
        match self {
            Class::DeviceUninit | Class::MappedUninit | Class::UsmUninit => None,
            _ => Some(Home::Slot(cell)),
        }
    }

    fn pipe_home(&self, home: Option<Home>) -> (r: Option<Home>) {
        assert(self.retyped() == is_uninit(*self));
        match self {
            Class::DeviceUninit | Class::MappedUninit | Class::UsmUninit => None,
            _ => home,
        }
    }
}

impl Input {
    /// An input that owns `o`, in a fresh cell.
    pub fn concrete(st: &mut Store, o: Obj) -> (r: Input)
        requires
            old(st)@.next < u64::MAX,
        ensures
            r == Input::Concrete(old(st)@.next),
            final(st)@ == old(st)@.fresh_ids(1nat).holding(
                old(st)@.next,
                o,
            ),
    {
        let c: u64 = st.fresh();
        st.hold(c, o);
        Input::Concrete(c)
    }

    /// An input fed by a fresh pipe that already holds a value with its home:
    /// the value of a checkout, still owed to the graph it came from.
    pub fn lent(st: &mut Store, value: Vec<Obj>, home: Option<Home>) -> (r: Input)
        requires
            old(st)@.next < u64::MAX,
        ensures
            r == Input::Pipe(Pipe { cell: old(st)@.next }),
            final(st)@ == old(st)@.fresh_ids(1nat).put(
                old(st)@.next,
                ParcelView { value: value@, deps: Seq::empty(), home },
            ),
    {
        let p = st.pipe();
        st.put_home(&p, value, Vec::new(), home);
        Input::Pipe(p)
    }

    /// The slot's identity.
    pub fn slot_cell_id(&self) -> (r: Option<u64>)
        ensures
            r == slot_of(*self),
    {
        match self {
            Input::Slot { cell, .. } => Some(*cell),
            _ => None,
        }
    }

    /// The pipe that a run takes the value from: the input's own, or the one
    /// that feeds its slot.
    pub fn pipe_cell_id(&self, st: &Store) -> (r: Option<u64>)
        ensures
            r == pipe_of(st@, *self),
    {
        match self {
            Input::Concrete(_) => None,
            Input::Pipe(p) => Some(p.cell),
            Input::Slot { cell, .. } => match st.slot(*cell) {
                SlotState::FedByPipe(p) => Some(p.cell),
                _ => None,
            },
            Input::Scalar { .. } => None,
        }
    }

    /// The object of a concrete input, unless it is lent.
    pub fn concrete_obj(&self, st: &Store) -> (r: Option<Obj>)
        ensures
            r == (match *self {
                Input::Concrete(c) => st@.held(c),
                _ => None::<Obj>,
            }),
    {
        match self {
            Input::Concrete(c) => st.held(*c),
            _ => None,
        }
    }

    /// Take the input's value, with the events it waits on and its home.
    pub fn resolve_home(&self, st: &mut Store, barrier: Option<u64>) -> (r: OpResult<Parcel>)
        ensures
            final(st)@ == after_taking(old(st)@, *self),
            match r {
                Ok(p) => found(old(st)@, barrier, *self) == Ok::<ParcelView, Error>(p@),
                Err(e) => found(old(st)@, barrier, *self) == Err::<ParcelView, Error>(e),
            },
    {
        match self {
            Input::Concrete(c) => match st.lend(*c) {
                Some(o) => {
                    let mut v: Vec<Obj> = Vec::new();
                    v.push(o);
                    assert(v@ =~= seq![o]);
                    Ok(Parcel { value: v, deps: barrier_list(barrier), home: Some(Home::Cell(*c)) })
                },
                None => {
                    assert(st@ =~= old(st)@);
                    Err(
                        Error::NotSupported(
                            "eager graph: an input buffer is already lent (the graph is busy)",
                        ),
                    )
                },
            },
            Input::Pipe(p) => match st.take_home(p) {
                Some(x) => Ok(x),
                None => {
                    assert(st@ =~= old(st)@);
                    Err(Error::NotSupported("eager graph: an input pipe holds no value"))
                },
            },
            Input::Slot { name, cell, .. } => match st.slot(*cell) {
                SlotState::Bound(o) => {
                    st.set_slot(*cell, SlotState::Lent);
                    let mut v: Vec<Obj> = Vec::new();
                    v.push(o);
                    assert(v@ =~= seq![o]);
                    Ok(Parcel { value: v, deps: barrier_list(barrier), home: Some(Home::Slot(*cell)) })
                },
                SlotState::FedByPipe(p) => match st.take_home(&p) {
                    Some(x) => Ok(x),
                    None => {
                        assert(st@ =~= old(st)@);
                        Err(Error::NotSupported("eager graph: an input pipe holds no value"))
                    },
                },
                _ => Err(Error::SlotUnbound(name)),
            },
            Input::Scalar { .. } => Err(Error::InvalidArgument("a scalar slot holds no memory")),
        }
    }

    /// Take the input's value for a copy, with the home that suits the copy's
    /// output.
    pub fn resolve_copy(&self, st: &mut Store, barrier: Option<u64>) -> (r: OpResult<Parcel>)
        ensures
            final(st)@ == after_taking(old(st)@, *self),
            match r {
                Ok(p) => found(old(st)@, barrier, *self) matches Ok(q) && p@ == (ParcelView {
                    home: copy_home(*self, q),
                    ..q
                }),
                Err(e) => found(old(st)@, barrier, *self) == Err::<ParcelView, Error>(e),
            },
    {
        match self.resolve_home(st, barrier) {
            Ok(p) => {
                let home = if p.value.len() == 1 {
                    let class: Class = p.value[0].class;
                    match (self, p.home) {
                        (Input::Concrete(_), Some(Home::Cell(c))) => class.copy_home(c),
                        (Input::Slot { .. }, Some(Home::Slot(c))) => class.copy_slot_home(c),
                        (_, home) => class.pipe_home(home),
                    }
                } else {
                    p.home
                };
                Ok(Parcel { value: p.value, deps: p.deps, home })
            },
            Err(e) => Err(e),
        }
    }

    /// Whether a run can take the input's value.
    pub fn check_ready(&self, st: &Store) -> (r: OpResult<()>)
        ensures
            r == readiness(st@, *self),
    {
        match self {
            Input::Concrete(c) => match st.held(*c) {
                Some(_) => Ok(()),
                None => Err(
                    Error::NotSupported(
                        "eager graph: an input buffer is already lent (the graph is busy)",
                    ),
                ),
            },
            Input::Pipe(_) => Ok(()),
            Input::Slot { name, cell, sink, .. } => match st.slot(*cell) {
                SlotState::Bound(_) | SlotState::FedByPipe(_) => match peek_deferred(st, *sink) {
                    Some(e) => Err(e),
                    None => Ok(()),
                },
                _ => Err(Error::SlotUnbound(name)),
            },
            Input::Scalar { name, cell, sink, kind, .. } => match st.scalar(*cell) {
                Some(a) => if value_kind(&a) == *kind {
                    match peek_deferred(st, *sink) {
                        Some(e) => Err(e),
                        None => Ok(()),
                    }
                } else {
                    Err(Error::SlotUnbound(name))
                },
                None => Err(Error::SlotUnbound(name)),
            },
        }
    }

    /// Offer a binding to the input.
    pub fn try_bind_slot(&self, st: &mut Store, binder: &mut SlotBinder)
        ensures
            final(st)@ == after_offer(old(st)@, *self, old(binder)@),
            final(binder)@ == offered(old(st)@, *self, old(binder)@),
    {
        match self {
            Input::Slot { key, name, cell, sink } => {
                binder.note(*sink);
                if *key != binder.key() {
                    return ;
                }
                binder.note_match(*cell);
                let now: SlotState<Obj> = st.slot(*cell);
                if binder.is_probe() {
                    match now {
                        SlotState::Lent => {
                            if let Some(f) = binder.probe_lent(*cell, name) {
                                binder.refuse(f);
                            }
                        },
                        SlotState::Severed => {
                            if matches!(binder.mode(), BindMode::SetOnce) {
                                binder.refuse(BindFault::Severed(name));
                            }
                        },
                        _ => {},
                    }
                    return ;
                }
                if let Some(p) = binder.feed_pipe() {
                    st.set_slot(*cell, SlotState::FedByPipe(p));
                    assert(st@ =~= after_offer(old(st)@, *self, old(binder)@));
                    return ;
                }
                if binder.is_consumed() {
                    return ;
                }
                match now {
                    SlotState::Unbound => {
                        self.fill_from(*cell, st, binder);
                    },
                    SlotState::Bound(o) => match binder.mode() {
                        BindMode::SetOnce => {
                            if !binder.equals(&o) {
                                binder.refuse(BindFault::Conflict(name));
                            }
                        },
                        BindMode::Mutate => {
                            self.fill_from(*cell, st, binder);
                        },
                    },
                    SlotState::Lent => {
                        binder.refuse(BindFault::CheckedOut(name));
                    },
                    SlotState::Severed => match binder.mode() {
                        BindMode::SetOnce => {
                            binder.refuse(BindFault::Severed(name));
                        },
                        BindMode::Mutate => {
                            self.fill_from(*cell, st, binder);
                        },
                    },
                    SlotState::FedByPipe(_) => {},
                }
                assert(st@ =~= after_offer(old(st)@, *self, old(binder)@));
            },
            Input::Scalar { key, name, cell, sink, kind } => {
                binder.note(*sink);
                if *key != binder.key() {
                    return ;
                }
                binder.note_match(*cell);
                if binder.is_probe() || binder.is_consumed() {
                    return ;
                }
                let now: Option<AnyValue> = st.scalar(*cell);
                let ghost met = binder@;
                match now {
                    None => {
                        if let Some(new) = binder.fit(*kind) {
                            st.set_scalar(*cell, new);
                        }
                    },
                    Some(cur) => match binder.mode() {
                        BindMode::SetOnce => {
                            if !binder.matches_scalar(&cur) {
                                binder.refuse(BindFault::Conflict(name));
                            }
                        },
                        BindMode::Mutate => {
                            if let Some(new) = binder.fit(*kind) {
                                st.set_scalar(*cell, new);
                            }
                        },
                    },
                }
                assert(binder@ == scalar_binding_at(now, met, name));
                assert(st@ =~= after_offer(old(st)@, *self, old(binder)@));
            },
            _ => {},
        }
    }

    fn fill_from(&self, cell: u64, st: &mut Store, binder: &mut SlotBinder)
        ensures
            final(binder)@ == old(binder)@.after_giving::<Obj>(),
            final(st)@ == match old(binder)@.given::<Obj>() {
                Some(o) => old(st)@.with_slot(cell, SlotState::Bound(o)),
                None => old(st)@,
            },
    {
        if let Some(o) = binder.provide::<Obj>() {
            st.set_slot(cell, SlotState::Bound(o));
        }
    }
}

/// The slot of an input.
pub open spec fn slot_of(input: Input) -> Option<u64> {
    match input {
        Input::Slot { cell, .. } => Some(cell),
        _ => None,
    }
}

/// The key of a slot, for memory or for a scalar.
pub open spec fn site_key(input: Input) -> Option<u64> {
    match input {
        Input::Slot { key, .. } => Some(key),
        Input::Scalar { key, .. } => Some(key),
        _ => None,
    }
}

/// The identity of a slot, for memory or for a scalar.
pub open spec fn site_cell(input: Input) -> Option<u64> {
    match input {
        Input::Slot { cell, .. } => Some(cell),
        Input::Scalar { cell, .. } => Some(cell),
        _ => None,
    }
}

/// The sink of a slot, for memory or for a scalar.
pub open spec fn site_sink(input: Input) -> Option<u64> {
    match input {
        Input::Slot { sink, .. } => Some(sink),
        Input::Scalar { sink, .. } => Some(sink),
        _ => None,
    }
}

/// The pipe that a run takes an input's value from.
pub open spec fn pipe_of(w: World, input: Input) -> Option<u64> {
    match input {
        Input::Concrete(_) => None,
        Input::Pipe(p) => Some(p.cell),
        Input::Slot { cell, .. } => match w.slot(cell) {
            SlotState::FedByPipe(p) => Some(p.cell),
            _ => None,
        },
        Input::Scalar { .. } => None,
    }
}

/// The output of a run, in the caller's hands. It is owed back to its home until
/// the caller takes it for good.
#[derive(Debug)]
pub struct Checkout {
    pub value: Vec<Obj>,
    pub home: Option<Home>,
}

impl Checkout {
    /// An output with its home.
    pub fn new(value: Vec<Obj>, home: Option<Home>) -> (r: Checkout)
        ensures
            r == (Checkout { value, home }),
    {
        Checkout { value, home }
    }

    /// The cell that the value is owed to.
    pub open spec fn home_cell(&self) -> Option<u64> {
        match self.home {
            Some(Home::Cell(c)) | Some(Home::Slot(c)) | Some(Home::Downgrade(c)) => Some(c),
            None => None,
        }
    }

    pub fn home_cell_id(&self) -> (r: Option<u64>)
        ensures
            r == self.home_cell(),
    {
        match self.home {
            Some(Home::Cell(c)) | Some(Home::Slot(c)) | Some(Home::Downgrade(c)) => Some(c),
            None => None,
        }
    }

    /// Take the value for good.
    pub fn into_inner(self, st: &mut Store) -> (r: Vec<Obj>)
        ensures
            r@ == self.value@,
            final(st)@ == old(st)@.severed(self.home),
    {
        st.sever(self.home);
        self.value
    }

    /// Part the value from its home without giving it back.
    pub fn into_value_and_home(self) -> (r: (Vec<Obj>, Option<Home>))
        ensures
            r.0@ == self.value@,
            r.1 == self.home,
    {
        (self.value, self.home)
    }

    /// Give the value back.
    pub fn give_back(self, st: &mut Store)
        ensures
            final(st)@ == old(st)@.rehomed(self.home, self.value@),
    {
        st.rehome(self.home, &self.value);
    }
}

/// What can stand as the buffer argument of an op.
pub trait ToInput: Sized {
    /// The input and the cells once it is made.
    spec fn input_spec(self, w: World) -> (Input, World);

    fn to_input(self, st: &mut Store) -> (r: Input)
        requires
            old(st)@.next < u64::MAX,
        ensures
            (r, final(st)@) == self.input_spec(old(st)@),
            final(st)@.next <= old(st)@.next + 1,
    ;
}

impl ToInput for Pipe {
    open spec fn input_spec(self, w: World) -> (Input, World) {
        (Input::Pipe(self), w)
    }

    fn to_input(self, st: &mut Store) -> (r: Input) {
        Input::Pipe(self)
    }
}

impl ToInput for Obj {
    open spec fn input_spec(self, w: World) -> (Input, World) {
        (Input::Concrete(w.next), w.fresh_ids(1nat).holding(w.next, self))
    }

    fn to_input(self, st: &mut Store) -> (r: Input) {
        Input::concrete(st, self)
    }
}

impl ToInput for Checkout {
    open spec fn input_spec(self, w: World) -> (Input, World) {
        (
            Input::Pipe(Pipe { cell: w.next }),
            w.fresh_ids(1nat).put(
                w.next,
                ParcelView { value: self.value@, deps: Seq::empty(), home: self.home },
            ),
        )
    }

    fn to_input(self, st: &mut Store) -> (r: Input) {
        let (value, home) = self.into_value_and_home();
        Input::lent(st, value, home)
    }
}

impl ToInput for SlotHandle {
    open spec fn input_spec(self, w: World) -> (Input, World) {
        (
            Input::Slot { key: self.key, name: self.name, cell: self.cell, sink: w.next },
            w.fresh_ids(1nat),
        )
    }

    fn to_input(self, st: &mut Store) -> (r: Input) {
        self.into_input(st)
    }
}

} // verus!
