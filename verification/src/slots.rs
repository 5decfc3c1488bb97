//! Typed slots: the states of a slot, and the binding of values to the slots of
//! a graph.

use crate::error::{Error, OpResult};
use crate::ids::contains_id;
use crate::input::{after_offer, offered, readiness, Checkout, Input};
use crate::launch::{F32Bits, F64Bits, IntoLaunchSpec, LaunchSpec};
use crate::obj::{MemRef, Obj};
use crate::store::{Pipe, Store, World};
use vstd::prelude::*;

verus! {

broadcast use crate::store::group_fresh_ids;

/// The state of a slot.
#[derive(Clone, Copy, Debug, PartialEq, Eq, Structural)]
pub enum SlotState<T> {
    /// Never bound.
    Unbound,
    /// Holds a value, ready to lend.
    Bound(T),
    /// The value is lent to a run or to a live checkout.
    Lent,
    /// Was bound; the value was taken for good.
    Severed,
    /// Each run's value comes along an upstream pipe.
    FedByPipe(Pipe),
}

/// The state of a slot for a scalar or a launch grid, which is read by copy and
/// never lent.
#[derive(Clone, Copy, Debug)]
pub enum ScalarSlotState<V> {
    Unbound,
    Bound(V),
}

/// The types of values that a slot can hold.
#[derive(Clone, Copy, Debug, PartialEq, Eq, Structural)]
pub enum ValueKind {
    Object,
    I8,
    U8,
    I16,
    U16,
    I32,
    U32,
    I64,
    U64,
    F32,
    F64,
    Grid,
}

/// The verb of a bind.
#[derive(Clone, Copy, Debug, PartialEq, Eq, Structural)]
pub enum BindMode {
    /// Set once: an equal value is accepted again, a different one is refused.
    SetOnce,
    /// Set or change.
    Mutate,
}

/// Stands for the key of a tag that has no type of its own for it.
#[derive(Clone, Copy, Debug, PartialEq, Eq, Structural)]
pub struct KeyMarker;

/// A value of any type that a slot can hold.
#[derive(Clone, Copy, Debug)]
pub enum AnyValue {
    Object(Obj),
    I8(i8),
    U8(u8),
    I16(i16),
    U16(u16),
    I32(i32),
    U32(u32),
    I64(i64),
    U64(u64),
    F32(F32Bits),
    F64(F64Bits),
    Grid(LaunchSpec),
}

/// The type of a value.
pub open spec fn kind_of(a: AnyValue) -> ValueKind {
    match a {
        AnyValue::Object(_) => ValueKind::Object,
        AnyValue::I8(_) => ValueKind::I8,
        AnyValue::U8(_) => ValueKind::U8,
        AnyValue::I16(_) => ValueKind::I16,
        AnyValue::U16(_) => ValueKind::U16,
        AnyValue::I32(_) => ValueKind::I32,
        AnyValue::U32(_) => ValueKind::U32,
        AnyValue::I64(_) => ValueKind::I64,
        AnyValue::U64(_) => ValueKind::U64,
        AnyValue::F32(_) => ValueKind::F32,
        AnyValue::F64(_) => ValueKind::F64,
        AnyValue::Grid(_) => ValueKind::Grid,
    }
}

pub fn value_kind(a: &AnyValue) -> (r: ValueKind)
    ensures
        r == kind_of(*a),
{
    match a {
        AnyValue::Object(_) => ValueKind::Object,
        AnyValue::I8(_) => ValueKind::I8,
        AnyValue::U8(_) => ValueKind::U8,
        AnyValue::I16(_) => ValueKind::I16,
        AnyValue::U16(_) => ValueKind::U16,
        AnyValue::I32(_) => ValueKind::I32,
        AnyValue::U32(_) => ValueKind::U32,
        AnyValue::I64(_) => ValueKind::I64,
        AnyValue::U64(_) => ValueKind::U64,
        AnyValue::F32(_) => ValueKind::F32,
        AnyValue::F64(_) => ValueKind::F64,
        AnyValue::Grid(_) => ValueKind::Grid,
    }
}

/// Whether two values count as the same binding: objects by the memory behind
/// them, numbers by their bits, grids by their sizes.
pub open spec fn same_binding(a: AnyValue, b: AnyValue) -> bool {
    match (a, b) {
        (AnyValue::Object(x), AnyValue::Object(y)) => x.mem_spec() == y.mem_spec(),
        (AnyValue::I8(x), AnyValue::I8(y)) => x == y,
        (AnyValue::U8(x), AnyValue::U8(y)) => x == y,
        (AnyValue::I16(x), AnyValue::I16(y)) => x == y,
        (AnyValue::U16(x), AnyValue::U16(y)) => x == y,
        (AnyValue::I32(x), AnyValue::I32(y)) => x == y,
        (AnyValue::U32(x), AnyValue::U32(y)) => x == y,
        (AnyValue::I64(x), AnyValue::I64(y)) => x == y,
        (AnyValue::U64(x), AnyValue::U64(y)) => x == y,
        (AnyValue::F32(x), AnyValue::F32(y)) => x == y,
        (AnyValue::F64(x), AnyValue::F64(y)) => x == y,
        (AnyValue::Grid(x), AnyValue::Grid(y)) => x@ == y@,
        _ => false,
    }
}

/// Whether a value may be put into several slots at once.
pub open spec fn copyable(a: AnyValue) -> bool {
    match a {
        AnyValue::Object(o) => o.shared,
        _ => true,
    }
}

fn is_copyable(a: &AnyValue) -> (r: bool)
    ensures
        r == copyable(*a),
{
    match a {
        AnyValue::Object(o) => o.shared,
        _ => true,
    }
}

fn is_same_binding(a: &AnyValue, b: &AnyValue) -> (r: bool)
    ensures
        r == same_binding(*a, *b),
{
    match (a, b) {
        (AnyValue::Object(x), AnyValue::Object(y)) => x.slot_eq(y),
        (AnyValue::I8(x), AnyValue::I8(y)) => x.slot_eq(y),
        (AnyValue::U8(x), AnyValue::U8(y)) => x.slot_eq(y),
        (AnyValue::I16(x), AnyValue::I16(y)) => x.slot_eq(y),
        (AnyValue::U16(x), AnyValue::U16(y)) => x.slot_eq(y),
        (AnyValue::I32(x), AnyValue::I32(y)) => x.slot_eq(y),
        (AnyValue::U32(x), AnyValue::U32(y)) => x.slot_eq(y),
        (AnyValue::I64(x), AnyValue::I64(y)) => x.slot_eq(y),
        (AnyValue::U64(x), AnyValue::U64(y)) => x.slot_eq(y),
        (AnyValue::F32(x), AnyValue::F32(y)) => x.slot_eq(y),
        (AnyValue::F64(x), AnyValue::F64(y)) => x.slot_eq(y),
        (AnyValue::Grid(x), AnyValue::Grid(y)) => x.slot_eq(y),
        _ => false,
    }
}

/// When a value counts as the one already bound.
pub trait SlotEq {
    /// Whether the two count as the same binding.
    spec fn same(&self, other: &Self) -> bool;

    fn slot_eq(&self, other: &Self) -> (r: bool)
        ensures
            r == self.same(other),
    ;
}

/// A type whose values a slot can hold.
pub trait SlotValue: Sized {
    /// The value without its type.
    spec fn erased(self) -> AnyValue;

    /// The value of this type that `a` holds.
    spec fn unerased(a: AnyValue) -> Option<Self>;

    /// The type itself.
    spec fn kind_spec() -> ValueKind;

    fn kind() -> (r: ValueKind)
        ensures
            r == Self::kind_spec(),
    ;

    /// What is held of this type is all of the value, and no other type holds it.
    proof fn lemma_kind(v: Self, a: AnyValue)
        ensures
            Self::unerased(v.erased()) == Some(v),
            kind_of(v.erased()) == Self::kind_spec(),
            Self::unerased(a) is Some <==> kind_of(a) == Self::kind_spec(),
    ;

    fn erase(self) -> (r: AnyValue)
        ensures
            r == self.erased(),
    ;

    fn restore(a: AnyValue) -> (r: Option<Self>)
        ensures
            r == Self::unerased(a),
    ;

    /// A copy to put into one slot of several, where the value may be shared.
    fn fill_clone(&self) -> (r: Option<AnyValue>)
        ensures
            r == (if copyable(self.erased()) {
                Some(self.erased())
            } else {
                None
            }),
    ;
}

impl SlotEq for Obj {
    open spec fn same(&self, other: &Self) -> bool {
        self.mem_spec() == other.mem_spec()
    }

    fn slot_eq(&self, other: &Self) -> (r: bool) {
        match (self.mem(), other.mem()) {
            (MemRef::Buffer(a), MemRef::Buffer(b)) => a == b,
            (MemRef::Svm(a), MemRef::Svm(b)) => a == b,
            _ => false,
        }
    }
}

impl SlotValue for Obj {
    open spec fn kind_spec() -> ValueKind {
        ValueKind::Object
    }

    fn kind() -> (r: ValueKind) {
        ValueKind::Object
    }

    proof fn lemma_kind(v: Self, a: AnyValue) {
        assert(v.erased() == AnyValue::Object(v));
        match a {
            AnyValue::Object(x) => {
                assert(Self::unerased(a) == Some(x));
            },
            _ => {},
        }
        assert(Self::unerased(AnyValue::Object(v)) == Some(v));
    }

    open spec fn erased(self) -> AnyValue {
        AnyValue::Object(self)
    }

    open spec fn unerased(a: AnyValue) -> Option<Self> {
        match a {
            AnyValue::Object(o) => Some(o),
            _ => None,
        }
    }

    fn erase(self) -> (r: AnyValue) {
        AnyValue::Object(self)
    }

    fn restore(a: AnyValue) -> (r: Option<Self>) {
        match a {
            AnyValue::Object(o) => Some(o),
            _ => None,
        }
    }

    fn fill_clone(&self) -> (r: Option<AnyValue>) {
        if self.shared {
            Some(AnyValue::Object(*self))
        } else {
            None
        }
    }
}

impl SlotEq for LaunchSpec {
    open spec fn same(&self, other: &Self) -> bool {
        self@ == other@
    }

    fn slot_eq(&self, other: &Self) -> (r: bool) {
        let d1: u8 = self.dims();
        let d2: u8 = other.dims();
        if d1 != d2 {
            return false;
        }
        if !same_sizes(self.global(), other.global()) {
            return false;
        }
        assert(self@.global =~= other@.global);
        match (self.local(), other.local()) {
            (Some(a), Some(b)) => {
                let r: bool = same_sizes(a, b);
                assert(r ==> self@ =~= other@);
                r
            },
            (None, None) => {
                assert(self@ =~= other@);
                true
            },
            _ => false,
        }
    }
}

fn same_sizes(a: &[usize], b: &[usize]) -> (r: bool)
    ensures
        r == (a@ == b@),
{
    if a.len() != b.len() {
        return false;
    }
    let mut i: usize = 0;
    while i < a.len()
        invariant
            i <= a@.len(),
            a@.len() == b@.len(),
            a@.take(i as int) =~= b@.take(i as int),
        decreases a.len() - i,
    {
        if a[i] != b[i] {
            return false;
        }
        assert(a@.take(i + 1) =~= a@.take(i as int).push(a@[i as int]));
        assert(b@.take(i + 1) =~= b@.take(i as int).push(b@[i as int]));
        i = i + 1;
    }
    assert(a@.take(i as int) =~= a@);
    assert(b@.take(i as int) =~= b@);
    true
}

impl SlotEq for i8 {
    open spec fn same(&self, other: &Self) -> bool {
        *self == *other
    }

    fn slot_eq(&self, other: &Self) -> (r: bool) {
        *self == *other
    }
}

impl SlotValue for i8 {
    open spec fn kind_spec() -> ValueKind {
        ValueKind::I8
    }

    fn kind() -> (r: ValueKind) {
        ValueKind::I8
    }

    proof fn lemma_kind(v: Self, a: AnyValue) {
        assert(v.erased() == AnyValue::I8(v));
        match a {
            AnyValue::I8(x) => {
                assert(Self::unerased(a) == Some(x));
            },
            _ => {},
        }
        assert(Self::unerased(AnyValue::I8(v)) == Some(v));
    }

    open spec fn erased(self) -> AnyValue {
        AnyValue::I8(self)
    }

    open spec fn unerased(a: AnyValue) -> Option<Self> {
        match a {
            AnyValue::I8(x) => Some(x),
            _ => None,
        }
    }

    fn erase(self) -> (r: AnyValue) {
        AnyValue::I8(self)
    }

    fn restore(a: AnyValue) -> (r: Option<Self>) {
        match a {
            AnyValue::I8(x) => Some(x),
            _ => None,
        }
    }

    fn fill_clone(&self) -> (r: Option<AnyValue>) {
        Some(AnyValue::I8(*self))
    }
}

impl SlotEq for u8 {
    open spec fn same(&self, other: &Self) -> bool {
        *self == *other
    }

    fn slot_eq(&self, other: &Self) -> (r: bool) {
        *self == *other
    }
}

impl SlotValue for u8 {
    open spec fn kind_spec() -> ValueKind {
        ValueKind::U8
    }

    fn kind() -> (r: ValueKind) {
        ValueKind::U8
    }

    proof fn lemma_kind(v: Self, a: AnyValue) {
        assert(v.erased() == AnyValue::U8(v));
        match a {
            AnyValue::U8(x) => {
                assert(Self::unerased(a) == Some(x));
            },
            _ => {},
        }
        assert(Self::unerased(AnyValue::U8(v)) == Some(v));
    }

    open spec fn erased(self) -> AnyValue {
        AnyValue::U8(self)
    }

    open spec fn unerased(a: AnyValue) -> Option<Self> {
        match a {
            AnyValue::U8(x) => Some(x),
            _ => None,
        }
    }

    fn erase(self) -> (r: AnyValue) {
        AnyValue::U8(self)
    }

    fn restore(a: AnyValue) -> (r: Option<Self>) {
        match a {
            AnyValue::U8(x) => Some(x),
            _ => None,
        }
    }

    fn fill_clone(&self) -> (r: Option<AnyValue>) {
        Some(AnyValue::U8(*self))
    }
}

impl SlotEq for i16 {
    open spec fn same(&self, other: &Self) -> bool {
        *self == *other
    }

    fn slot_eq(&self, other: &Self) -> (r: bool) {
        *self == *other
    }
}

impl SlotValue for i16 {
    open spec fn kind_spec() -> ValueKind {
        ValueKind::I16
    }

    fn kind() -> (r: ValueKind) {
        ValueKind::I16
    }

    proof fn lemma_kind(v: Self, a: AnyValue) {
        assert(v.erased() == AnyValue::I16(v));
        match a {
            AnyValue::I16(x) => {
                assert(Self::unerased(a) == Some(x));
            },
            _ => {},
        }
        assert(Self::unerased(AnyValue::I16(v)) == Some(v));
    }

    open spec fn erased(self) -> AnyValue {
        AnyValue::I16(self)
    }

    open spec fn unerased(a: AnyValue) -> Option<Self> {
        match a {
            AnyValue::I16(x) => Some(x),
            _ => None,
        }
    }

    fn erase(self) -> (r: AnyValue) {
        AnyValue::I16(self)
    }

    fn restore(a: AnyValue) -> (r: Option<Self>) {
        match a {
            AnyValue::I16(x) => Some(x),
            _ => None,
        }
    }

    fn fill_clone(&self) -> (r: Option<AnyValue>) {
        Some(AnyValue::I16(*self))
    }
}

impl SlotEq for u16 {
    open spec fn same(&self, other: &Self) -> bool {
        *self == *other
    }

    fn slot_eq(&self, other: &Self) -> (r: bool) {
        *self == *other
    }
}

impl SlotValue for u16 {
    open spec fn kind_spec() -> ValueKind {
        ValueKind::U16
    }

    fn kind() -> (r: ValueKind) {
        ValueKind::U16
    }

    proof fn lemma_kind(v: Self, a: AnyValue) {
        assert(v.erased() == AnyValue::U16(v));
        match a {
            AnyValue::U16(x) => {
                assert(Self::unerased(a) == Some(x));
            },
            _ => {},
        }
        assert(Self::unerased(AnyValue::U16(v)) == Some(v));
    }

    open spec fn erased(self) -> AnyValue {
        AnyValue::U16(self)
    }

    open spec fn unerased(a: AnyValue) -> Option<Self> {
        match a {
            AnyValue::U16(x) => Some(x),
            _ => None,
        }
    }

    fn erase(self) -> (r: AnyValue) {
        AnyValue::U16(self)
    }

    fn restore(a: AnyValue) -> (r: Option<Self>) {
        match a {
            AnyValue::U16(x) => Some(x),
            _ => None,
        }
    }

    fn fill_clone(&self) -> (r: Option<AnyValue>) {
        Some(AnyValue::U16(*self))
    }
}

impl SlotEq for i32 {
    open spec fn same(&self, other: &Self) -> bool {
        *self == *other
    }

    fn slot_eq(&self, other: &Self) -> (r: bool) {
        *self == *other
    }
}

impl SlotValue for i32 {
    open spec fn kind_spec() -> ValueKind {
        ValueKind::I32
    }

    fn kind() -> (r: ValueKind) {
        ValueKind::I32
    }

    proof fn lemma_kind(v: Self, a: AnyValue) {
        assert(v.erased() == AnyValue::I32(v));
        match a {
            AnyValue::I32(x) => {
                assert(Self::unerased(a) == Some(x));
            },
            _ => {},
        }
        assert(Self::unerased(AnyValue::I32(v)) == Some(v));
    }

    open spec fn erased(self) -> AnyValue {
        AnyValue::I32(self)
    }

    open spec fn unerased(a: AnyValue) -> Option<Self> {
        match a {
            AnyValue::I32(x) => Some(x),
            _ => None,
        }
    }

    fn erase(self) -> (r: AnyValue) {
        AnyValue::I32(self)
    }

    fn restore(a: AnyValue) -> (r: Option<Self>) {
        match a {
            AnyValue::I32(x) => Some(x),
            _ => None,
        }
    }

    fn fill_clone(&self) -> (r: Option<AnyValue>) {
        Some(AnyValue::I32(*self))
    }
}

impl SlotEq for u32 {
    open spec fn same(&self, other: &Self) -> bool {
        *self == *other
    }

    fn slot_eq(&self, other: &Self) -> (r: bool) {
        *self == *other
    }
}

impl SlotValue for u32 {
    open spec fn kind_spec() -> ValueKind {
        ValueKind::U32
    }

    fn kind() -> (r: ValueKind) {
        ValueKind::U32
    }

    proof fn lemma_kind(v: Self, a: AnyValue) {
        assert(v.erased() == AnyValue::U32(v));
        match a {
            AnyValue::U32(x) => {
                assert(Self::unerased(a) == Some(x));
            },
            _ => {},
        }
        assert(Self::unerased(AnyValue::U32(v)) == Some(v));
    }

    open spec fn erased(self) -> AnyValue {
        AnyValue::U32(self)
    }

    open spec fn unerased(a: AnyValue) -> Option<Self> {
        match a {
            AnyValue::U32(x) => Some(x),
            _ => None,
        }
    }

    fn erase(self) -> (r: AnyValue) {
        AnyValue::U32(self)
    }

    fn restore(a: AnyValue) -> (r: Option<Self>) {
        match a {
            AnyValue::U32(x) => Some(x),
            _ => None,
        }
    }

    fn fill_clone(&self) -> (r: Option<AnyValue>) {
        Some(AnyValue::U32(*self))
    }
}

impl SlotEq for i64 {
    open spec fn same(&self, other: &Self) -> bool {
        *self == *other
    }

    fn slot_eq(&self, other: &Self) -> (r: bool) {
        *self == *other
    }
}

impl SlotValue for i64 {
    open spec fn kind_spec() -> ValueKind {
        ValueKind::I64
    }

    fn kind() -> (r: ValueKind) {
        ValueKind::I64
    }

    proof fn lemma_kind(v: Self, a: AnyValue) {
        assert(v.erased() == AnyValue::I64(v));
        match a {
            AnyValue::I64(x) => {
                assert(Self::unerased(a) == Some(x));
            },
            _ => {},
        }
        assert(Self::unerased(AnyValue::I64(v)) == Some(v));
    }

    open spec fn erased(self) -> AnyValue {
        AnyValue::I64(self)
    }

    open spec fn unerased(a: AnyValue) -> Option<Self> {
        match a {
            AnyValue::I64(x) => Some(x),
            _ => None,
        }
    }

    fn erase(self) -> (r: AnyValue) {
        AnyValue::I64(self)
    }

    fn restore(a: AnyValue) -> (r: Option<Self>) {
        match a {
            AnyValue::I64(x) => Some(x),
            _ => None,
        }
    }

    fn fill_clone(&self) -> (r: Option<AnyValue>) {
        Some(AnyValue::I64(*self))
    }
}

impl SlotEq for u64 {
    open spec fn same(&self, other: &Self) -> bool {
        *self == *other
    }

    fn slot_eq(&self, other: &Self) -> (r: bool) {
        *self == *other
    }
}

impl SlotValue for u64 {
    open spec fn kind_spec() -> ValueKind {
        ValueKind::U64
    }

    fn kind() -> (r: ValueKind) {
        ValueKind::U64
    }

    proof fn lemma_kind(v: Self, a: AnyValue) {
        assert(v.erased() == AnyValue::U64(v));
        match a {
            AnyValue::U64(x) => {
                assert(Self::unerased(a) == Some(x));
            },
            _ => {},
        }
        assert(Self::unerased(AnyValue::U64(v)) == Some(v));
    }

    open spec fn erased(self) -> AnyValue {
        AnyValue::U64(self)
    }

    open spec fn unerased(a: AnyValue) -> Option<Self> {
        match a {
            AnyValue::U64(x) => Some(x),
            _ => None,
        }
    }

    fn erase(self) -> (r: AnyValue) {
        AnyValue::U64(self)
    }

    fn restore(a: AnyValue) -> (r: Option<Self>) {
        match a {
            AnyValue::U64(x) => Some(x),
            _ => None,
        }
    }

    fn fill_clone(&self) -> (r: Option<AnyValue>) {
        Some(AnyValue::U64(*self))
    }
}

impl SlotEq for F32Bits {
    open spec fn same(&self, other: &Self) -> bool {
        *self == *other
    }

    fn slot_eq(&self, other: &Self) -> (r: bool) {
        *self == *other
    }
}

impl SlotValue for F32Bits {
    open spec fn kind_spec() -> ValueKind {
        ValueKind::F32
    }

    fn kind() -> (r: ValueKind) {
        ValueKind::F32
    }

    proof fn lemma_kind(v: Self, a: AnyValue) {
        assert(v.erased() == AnyValue::F32(v));
        match a {
            AnyValue::F32(x) => {
                assert(Self::unerased(a) == Some(x));
            },
            _ => {},
        }
        assert(Self::unerased(AnyValue::F32(v)) == Some(v));
    }

    open spec fn erased(self) -> AnyValue {
        AnyValue::F32(self)
    }

    open spec fn unerased(a: AnyValue) -> Option<Self> {
        match a {
            AnyValue::F32(x) => Some(x),
            _ => None,
        }
    }

    fn erase(self) -> (r: AnyValue) {
        AnyValue::F32(self)
    }

    fn restore(a: AnyValue) -> (r: Option<Self>) {
        match a {
            AnyValue::F32(x) => Some(x),
            _ => None,
        }
    }

    fn fill_clone(&self) -> (r: Option<AnyValue>) {
        Some(AnyValue::F32(*self))
    }
}

impl SlotEq for F64Bits {
    open spec fn same(&self, other: &Self) -> bool {
        *self == *other
    }

    fn slot_eq(&self, other: &Self) -> (r: bool) {
        *self == *other
    }
}

impl SlotValue for F64Bits {
    open spec fn kind_spec() -> ValueKind {
        ValueKind::F64
    }

    fn kind() -> (r: ValueKind) {
        ValueKind::F64
    }

    proof fn lemma_kind(v: Self, a: AnyValue) {
        assert(v.erased() == AnyValue::F64(v));
        match a {
            AnyValue::F64(x) => {
                assert(Self::unerased(a) == Some(x));
            },
            _ => {},
        }
        assert(Self::unerased(AnyValue::F64(v)) == Some(v));
    }

    open spec fn erased(self) -> AnyValue {
        AnyValue::F64(self)
    }

    open spec fn unerased(a: AnyValue) -> Option<Self> {
        match a {
            AnyValue::F64(x) => Some(x),
            _ => None,
        }
    }

    fn erase(self) -> (r: AnyValue) {
        AnyValue::F64(self)
    }

    fn restore(a: AnyValue) -> (r: Option<Self>) {
        match a {
            AnyValue::F64(x) => Some(x),
            _ => None,
        }
    }

    fn fill_clone(&self) -> (r: Option<AnyValue>) {
        Some(AnyValue::F64(*self))
    }
}

impl SlotValue for LaunchSpec {
    open spec fn kind_spec() -> ValueKind {
        ValueKind::Grid
    }

    fn kind() -> (r: ValueKind) {
        ValueKind::Grid
    }

    proof fn lemma_kind(v: Self, a: AnyValue) {
        assert(v.erased() == AnyValue::Grid(v));
        match a {
            AnyValue::Grid(x) => {
                assert(Self::unerased(a) == Some(x));
            },
            _ => {},
        }
        assert(Self::unerased(AnyValue::Grid(v)) == Some(v));
    }

    open spec fn erased(self) -> AnyValue {
        AnyValue::Grid(self)
    }

    open spec fn unerased(a: AnyValue) -> Option<Self> {
        match a {
            AnyValue::Grid(x) => Some(x),
            _ => None,
        }
    }

    fn erase(self) -> (r: AnyValue) {
        AnyValue::Grid(self)
    }

    fn restore(a: AnyValue) -> (r: Option<Self>) {
        match a {
            AnyValue::Grid(x) => Some(x),
            _ => None,
        }
    }

    fn fill_clone(&self) -> (r: Option<AnyValue>) {
        Some(AnyValue::Grid(*self))
    }
}

/// A value for the slots with a key. Slots with the same key are filled together.
pub trait Tag: Sized {
    /// The type of the value.
    type Value: SlotEq + SlotValue;

    /// The key that identifies the slots.
    spec fn key_spec(&self) -> u64;

    /// The display name.
    spec fn name_spec(&self) -> &'static str;

    /// The value.
    spec fn value_spec(self) -> Self::Value;

    /// The slot that the value was lent from, where it comes out of a checkout.
    spec fn source_spec(&self) -> Option<u64>;

    fn key(&self) -> (r: u64)
        ensures
            r == self.key_spec(),
    ;

    fn name(&self) -> (r: &'static str)
        ensures
            r == self.name_spec(),
    ;

    fn into_value(self) -> (r: Self::Value)
        ensures
            r == self.value_spec(),
    ;

    fn source_cell_id(&self) -> (r: Option<u64>)
        ensures
            r == self.source_spec(),
    ;
}

/// A value for the slots with key `key`, which are called `name`.
#[derive(Clone, Copy, Debug)]
pub struct SlotTag<V> {
    pub key: u64,
    pub name: &'static str,
    pub value: V,
    pub source: Option<u64>,
}

impl<V: SlotEq + SlotValue> SlotTag<V> {
    /// A bare value or a checkout for the slots with key `key`. The value of a
    /// checkout is taken for good.
    pub fn of<B: IntoBound<V>>(st: &mut Store, key: u64, name: &'static str, v: B) -> (r: SlotTag<V>)
        requires
            v.bindable(),
        ensures
            r == (SlotTag { key, name, value: v.bound_value(), source: v.bound_source() }),
            final(st)@ == v.bound_world(old(st)@),
    {
        let source = v.source_cell_id();
        let value = v.into_bound(st);
        SlotTag { key, name, value, source }
    }
}

impl<V: SlotEq + SlotValue> Tag for SlotTag<V> {
    type Value = V;

    open spec fn key_spec(&self) -> u64 {
        self.key
    }

    open spec fn name_spec(&self) -> &'static str {
        self.name
    }

    open spec fn value_spec(self) -> V {
        self.value
    }

    open spec fn source_spec(&self) -> Option<u64> {
        self.source
    }

    fn key(&self) -> (r: u64) {
        self.key
    }

    fn name(&self) -> (r: &'static str) {
        self.name
    }

    fn into_value(self) -> (r: V) {
        self.value
    }

    fn source_cell_id(&self) -> (r: Option<u64>) {
        self.source
    }
}

/// What can be bound to a slot: a bare value, or a checkout, whose value is
/// taken for good.
pub trait IntoBound<V>: Sized {
    /// Whether there is a value to bind.
    spec fn bindable(self) -> bool;

    /// The value to bind.
    spec fn bound_value(self) -> V;

    /// The slot that the value is lent from.
    spec fn bound_source(&self) -> Option<u64>;

    /// The cells once the value is taken.
    spec fn bound_world(self, w: World) -> World;

    fn into_bound(self, st: &mut Store) -> (r: V)
        requires
            self.bindable(),
        ensures
            r == self.bound_value(),
            final(st)@ == self.bound_world(old(st)@),
    ;

    fn source_cell_id(&self) -> (r: Option<u64>)
        ensures
            r == self.bound_source(),
    ;
}

impl<V> IntoBound<V> for V {
    open spec fn bindable(self) -> bool {
        true
    }

    open spec fn bound_value(self) -> V {
        self
    }

    open spec fn bound_source(&self) -> Option<u64> {
        None
    }

    open spec fn bound_world(self, w: World) -> World {
        w
    }

    fn into_bound(self, st: &mut Store) -> (r: V) {
        self
    }

    fn source_cell_id(&self) -> (r: Option<u64>) {
        None
    }
}

impl IntoBound<Obj> for Checkout {
    open spec fn bindable(self) -> bool {
        self.value@.len() == 1
    }

    open spec fn bound_value(self) -> Obj {
        self.value@[0]
    }

    open spec fn bound_source(&self) -> Option<u64> {
        self.home_cell()
    }

    open spec fn bound_world(self, w: World) -> World {
        w.severed(self.home)
    }

    fn into_bound(self, st: &mut Store) -> (r: Obj) {
        let v: Vec<Obj> = self.into_inner(st);
        v[0]
    }

    fn source_cell_id(&self) -> (r: Option<u64>) {
        self.home_cell_id()
    }
}

/// Why a bind was refused, with the tag's name.
#[derive(Clone, Copy, Debug)]
pub enum BindFault {
    Conflict(&'static str),
    CheckedOut(&'static str),
    Severed(&'static str),
}

/// The fault as an error.
pub open spec fn fault_error(f: BindFault) -> Error {
    match f {
        BindFault::Conflict(n) => Error::SlotConflict(n),
        BindFault::CheckedOut(n) => Error::SlotCheckedOut(n),
        BindFault::Severed(n) => Error::SlotSevered(n),
    }
}

/// One binding on its way through the slots of a graph.
pub struct SlotBinder {
    key: u64,
    mode: BindMode,
    value: Option<AnyValue>,
    outcome: Option<BindFault>,
    matched_cells: Vec<u64>,
    probe: bool,
    severable_cells: Vec<u64>,
    feed_pipe: Option<Pipe>,
    deferred: bool,
    captured_sink: Option<u64>,
}

/// A binding on its way, as plain values.
#[verifier::ext_equal]
pub struct Binding {
    /// The key of the slots that it is for.
    pub key: u64,
    /// The verb.
    pub mode: BindMode,
    /// The value, until it is used up.
    pub value: Option<AnyValue>,
    /// The last refusal.
    pub outcome: Option<BindFault>,
    /// The slots with the key that were visited.
    pub matched: Seq<u64>,
    /// Whether slots are only inspected.
    pub probe: bool,
    /// The lent slots whose checkouts will be severed before the bind.
    pub severable: Seq<u64>,
    /// The pipe to feed the slots from.
    pub feed: Option<Pipe>,
    /// Whether refusals are recorded in a sink rather than returned.
    pub deferred: bool,
    /// The sink of the first slot visited.
    pub sink: Option<u64>,
}

impl View for SlotBinder {
    type V = Binding;

    closed spec fn view(&self) -> Binding {
        Binding {
            key: self.key,
            mode: self.mode,
            value: self.value,
            outcome: self.outcome,
            matched: self.matched_cells@,
            probe: self.probe,
            severable: self.severable_cells@,
            feed: self.feed_pipe,
            deferred: self.deferred,
            sink: self.captured_sink,
        }
    }
}

impl Binding {
    /// Whether the binding may go to every slot with its key.
    pub open spec fn fanout(self) -> bool {
        self.probe || self.feed is Some || (self.value matches Some(a) && copyable(a))
    }

    /// Whether the value is used up.
    pub open spec fn consumed(self) -> bool {
        self.value is None
    }

    /// Whether a walk stops here: a value that can only be moved has been moved.
    pub open spec fn done(self) -> bool {
        !self.fanout() && self.consumed()
    }

    /// The binding after a slot with `sink` came into view.
    pub open spec fn capture(self, sink: u64) -> Binding {
        if self.deferred && self.sink is None {
            Binding { sink: Some(sink), ..self }
        } else {
            self
        }
    }

    /// The binding after a slot with its key was met.
    pub open spec fn meet(self, cell: u64) -> Binding {
        Binding { matched: self.matched.push(cell), ..self }
    }

    /// The binding after a refusal.
    pub open spec fn refuse(self, f: BindFault) -> Binding {
        Binding { outcome: Some(f), ..self }
    }

    /// The value handed out for one slot of type `V`: a copy where the value may
    /// be shared, else the value itself. A value of another type is not handed
    /// out.
    pub open spec fn given<V: SlotValue>(self) -> Option<V> {
        match self.value {
            Some(a) => if self.fanout() && !copyable(a) {
                None
            } else {
                V::unerased(a)
            },
            None => None,
        }
    }

    /// The binding after the value was handed out to a slot of type `V`.
    pub open spec fn after_giving<V: SlotValue>(self) -> Binding {
        if !self.fanout() && self.given::<V>() is Some {
            Binding { value: None, ..self }
        } else {
            self
        }
    }

    /// The value for a scalar slot of a type: a copy, if it is of that type.
    pub open spec fn fitting(self, kind: ValueKind) -> Option<AnyValue> {
        match self.value {
            Some(a) => if copyable(a) && kind_of(a) == kind {
                Some(a)
            } else {
                None
            },
            None => None,
        }
    }

    /// What the bind came to: a refusal, an absent tag, or success.
    pub open spec fn verdict(self, name: &'static str) -> OpResult<()> {
        match self.outcome {
            Some(f) => Err(fault_error(f)),
            None => if self.matched.len() == 0 {
                Err(Error::SlotNoSuchTag(name))
            } else {
                Ok(())
            },
        }
    }
}

impl SlotBinder {
    /// A binding of `value` to the slots with key `key`.
    pub fn new<V: SlotValue>(key: u64, value: V, mode: BindMode) -> (r: SlotBinder)
        ensures
            r@ == (Binding {
                key,
                mode,
                value: Some(value.erased()),
                outcome: None,
                matched: Seq::empty(),
                probe: false,
                severable: Seq::empty(),
                feed: None,
                deferred: false,
                sink: None,
            }),
    {
        SlotBinder {
            key,
            mode,
            value: Some(value.erase()),
            outcome: None,
            matched_cells: Vec::new(),
            probe: false,
            severable_cells: Vec::new(),
            feed_pipe: None,
            deferred: false,
            captured_sink: None,
        }
    }

    /// A binding that feeds the slots with key `key` from a pipe.
    pub fn feed(key: u64, pipe: Pipe) -> (r: SlotBinder)
        ensures
            r@ == (Binding {
                key,
                mode: BindMode::Mutate,
                value: None,
                outcome: None,
                matched: Seq::empty(),
                probe: false,
                severable: Seq::empty(),
                feed: Some(pipe),
                deferred: false,
                sink: None,
            }),
    {
        SlotBinder {
            key,
            mode: BindMode::Mutate,
            value: None,
            outcome: None,
            matched_cells: Vec::new(),
            probe: false,
            severable_cells: Vec::new(),
            feed_pipe: Some(pipe),
            deferred: false,
            captured_sink: None,
        }
    }

    /// A binding that only inspects the slots with key `key`. A lent slot in
    /// `severable_cells` counts as severed.
    pub fn probe(key: u64, mode: BindMode, severable_cells: Vec<u64>) -> (r: SlotBinder)
        ensures
            r@ == (Binding {
                key,
                mode,
                value: None,
                outcome: None,
                matched: Seq::empty(),
                probe: true,
                severable: severable_cells@,
                feed: None,
                deferred: false,
                sink: None,
            }),
    {
        SlotBinder {
            key,
            mode,
            value: None,
            outcome: None,
            matched_cells: Vec::new(),
            probe: true,
            severable_cells,
            feed_pipe: None,
            deferred: false,
            captured_sink: None,
        }
    }

    /// Whether slots are only inspected.
    pub fn is_probe(&self) -> (r: bool)
        ensures
            r == self@.probe,
    {
        self.probe
    }

    /// What a bind will find at a slot that is lent now: severed where its
    /// checkout is among those to be severed, else still lent.
    pub fn probe_lent(&self, cell_id: u64, name: &'static str) -> (r: Option<BindFault>)
        ensures
            r == lent_fault(self@, cell_id, name),
    {
        if contains_id(&self.severable_cells, cell_id) {
            match self.mode {
                BindMode::Mutate => None,
                BindMode::SetOnce => Some(BindFault::Severed(name)),
            }
        } else {
            Some(BindFault::CheckedOut(name))
        }
    }

    /// A copy of the value, where it may be shared.
    pub fn fill_clone(&self) -> (r: Option<AnyValue>)
        ensures
            r == match self@.value {
                Some(a) => if copyable(a) {
                    Some(a)
                } else {
                    None
                },
                None => None,
            },
    {
        match &self.value {
            Some(a) => if is_copyable(a) {
                Some(*a)
            } else {
                None
            },
            None => None,
        }
    }

    /// Move the value out.
    pub fn take_value(&mut self) -> (r: Option<AnyValue>)
        ensures
            r == old(self)@.value,
            final(self)@ == (Binding { value: None, ..old(self)@ }),
    {
        let r: Option<AnyValue> = self.value;
        self.value = None;
        r
    }

    /// Hand the value out for one slot of type `V`.
    pub fn provide<V: SlotValue>(&mut self) -> (r: Option<V>)
        ensures
            r == old(self)@.given::<V>(),
            final(self)@ == old(self)@.after_giving::<V>(),
    {
        let fanout: bool = self.is_fanout();
        if fanout {
            match self.fill_clone() {
                Some(a) => V::restore(a),
                None => None,
            }
        } else {
            match self.take_value() {
                Some(a) => match V::restore(a) {
                    Some(v) => Some(v),
                    None => {
                        self.value = Some(a);
                        assert(self@ =~= old(self)@);
                        None
                    },
                },
                None => {
                    assert(self@ =~= old(self)@);
                    None
                },
            }
        }
    }

    /// A copy of the value for a scalar slot of a type.
    pub fn fit(&self, kind: ValueKind) -> (r: Option<AnyValue>)
        ensures
            r == self@.fitting(kind),
    {
        match &self.value {
            Some(a) => if is_copyable(a) && value_kind(a) == kind {
                Some(*a)
            } else {
                None
            },
            None => None,
        }
    }

    /// Whether a scalar slot holds the value already.
    pub fn matches_scalar(&self, bound: &AnyValue) -> (r: bool)
        ensures
            r == (self@.value matches Some(a) && same_binding(*bound, a)),
    {
        match &self.value {
            Some(a) => is_same_binding(bound, a),
            None => false,
        }
    }

    /// Whether the binding may go to every slot with its key.
    pub fn is_fanout(&self) -> (r: bool)
        ensures
            r == self@.fanout(),
    {
        self.probe || self.feed_pipe.is_some() || self.fill_clone().is_some()
    }

    /// Whether the value is used up.
    pub fn is_consumed(&self) -> (r: bool)
        ensures
            r == self@.consumed(),
    {
        self.value.is_none()
    }

    /// The last refusal, if any.
    pub fn outcome(&self) -> (r: OpResult<()>)
        ensures
            r == (match self@.outcome {
                Some(f) => Err::<(), Error>(fault_error(f)),
                None => Ok(()),
            }),
    {
        match self.outcome {
            None => Ok(()),
            Some(BindFault::Conflict(n)) => Err(Error::SlotConflict(n)),
            Some(BindFault::CheckedOut(n)) => Err(Error::SlotCheckedOut(n)),
            Some(BindFault::Severed(n)) => Err(Error::SlotSevered(n)),
        }
    }

    /// How many slots with the key were visited.
    pub fn matched(&self) -> (r: usize)
        ensures
            r == self@.matched.len(),
    {
        self.matched_cells.len()
    }

    /// The slots with the key that were visited.
    pub fn matched_cells(&self) -> (r: &Vec<u64>)
        ensures
            r@ == self@.matched,
    {
        &self.matched_cells
    }

    /// Record refusals in a sink of the graph rather than return them.
    pub fn mark_deferred(&mut self)
        ensures
            final(self)@ == (Binding { deferred: true, ..old(self)@ }),
    {
        self.deferred = true;
    }

    /// What the bind came to.
    pub fn verdict(&self, name: &'static str) -> (r: OpResult<()>)
        ensures
            r == self@.verdict(name),
    {
        match self.outcome() {
            Err(e) => Err(e),
            Ok(_) => if self.matched() == 0 {
                Err(Error::SlotNoSuchTag(name))
            } else {
                Ok(())
            },
        }
    }

    /// Record what the bind came to, unless it succeeded or no slot was visited.
    pub fn record_deferred(&self, st: &mut Store, name: &'static str)
        ensures
            final(st)@ == deferred_world(old(st)@, self@, name),
    {
        match (self.verdict(name), self.captured_sink) {
            (Err(e), Some(sink)) => {
                st.record(sink, e);
            },
            _ => {},
        }
    }

    /// Note a slot that came into view.
    pub fn note(&mut self, sink: u64)
        ensures
            final(self)@ == old(self)@.capture(sink),
    {
        if self.deferred && self.captured_sink.is_none() {
            self.captured_sink = Some(sink);
        }
    }

    /// Note a slot with the key.
    pub fn note_match(&mut self, cell: u64)
        ensures
            final(self)@ == old(self)@.meet(cell),
    {
        self.matched_cells.push(cell);
        assert(self@ =~= old(self)@.meet(cell));
    }

    /// Note a refusal.
    pub fn refuse(&mut self, f: BindFault)
        ensures
            final(self)@ == old(self)@.refuse(f),
    {
        self.outcome = Some(f);
    }

    /// The key of the slots that the binding is for.
    pub fn key(&self) -> (r: u64)
        ensures
            r == self@.key,
    {
        self.key
    }

    /// The verb.
    pub fn mode(&self) -> (r: BindMode)
        ensures
            r == self@.mode,
    {
        self.mode
    }

    /// The pipe to feed the slots from.
    pub fn feed_pipe(&self) -> (r: Option<Pipe>)
        ensures
            r == self@.feed,
    {
        self.feed_pipe
    }

    /// Whether the value counts as the one that is bound.
    pub fn equals<V: SlotValue + Copy>(&self, bound: &V) -> (r: bool)
        ensures
            r == (self@.value matches Some(a) && same_binding(bound.erased(), a)),
    {
        match &self.value {
            Some(a) => {
                let b: AnyValue = (*bound).erase();
                is_same_binding(&b, a)
            },
            None => false,
        }
    }
}

/// What a bind will find at a slot that is lent now.
pub open spec fn lent_fault(b: Binding, cell: u64, name: &'static str) -> Option<BindFault> {
    if b.severable.contains(cell) {
        match b.mode {
            BindMode::Mutate => None,
            BindMode::SetOnce => Some(BindFault::Severed(name)),
        }
    } else {
        Some(BindFault::CheckedOut(name))
    }
}

/// The cells after a deferred bind recorded what it came to.
pub open spec fn deferred_world(w: World, b: Binding, name: &'static str) -> World {
    match (b.verdict(name), b.sink) {
        (Err(e), Some(sink)) => World { sinks: w.sinks.insert(sink, w.sink(sink).push(e)), ..w },
        _ => w,
    }
}

/// The error that a sink holds against its graph, if any: the first that was
/// recorded.
pub open spec fn deferred_error(sink: Seq<Error>) -> Option<Error> {
    if sink.len() == 0 {
        None
    } else {
        match sink[0] {
            Error::SlotConflict(n) => Some(Error::SlotConflict(n)),
            Error::SlotNoSuchTag(n) => Some(Error::SlotNoSuchTag(n)),
            Error::SlotCheckedOut(n) => Some(Error::SlotCheckedOut(n)),
            Error::SlotSevered(n) => Some(Error::SlotSevered(n)),
            Error::SlotUnbound(n) => Some(Error::SlotUnbound(n)),
            _ => Some(
                Error::NotSupported(
                    "eager graph: a non-slot error was recorded in a deferred-error sink (internal inconsistency)",
                ),
            ),
        }
    }
}

/// The error that a sink holds against its graph, if any.
pub fn peek_deferred(st: &Store, sink: u64) -> (r: Option<Error>)
    ensures
        r == deferred_error(st@.sink(sink)),
{
    match st.sink(sink) {
        None => None,
        Some(v) => if v.len() == 0 {
            None
        } else {
            match &v[0] {
                Error::SlotConflict(n) => Some(Error::SlotConflict(n)),
                Error::SlotNoSuchTag(n) => Some(Error::SlotNoSuchTag(n)),
                Error::SlotCheckedOut(n) => Some(Error::SlotCheckedOut(n)),
                Error::SlotSevered(n) => Some(Error::SlotSevered(n)),
                Error::SlotUnbound(n) => Some(Error::SlotUnbound(n)),
                _ => Some(
                    Error::NotSupported(
                        "eager graph: a non-slot error was recorded in a deferred-error sink (internal inconsistency)",
                    ),
                ),
            }
        },
    }
}

/// A scalar or launch-grid argument: a value, or a slot for one.
#[derive(Clone, Copy, Debug)]
pub enum ScalarInput<V> {
    Concrete(V),
    Slot { key: u64, name: &'static str, cell: u64, sink: u64 },
}

/// What is in a scalar slot after a bind that matched it.
pub open spec fn scalar_state_at(s: Option<AnyValue>, kind: ValueKind, b: Binding) -> Option<AnyValue> {
    if b.probe || b.consumed() || (s is Some && b.mode == BindMode::SetOnce) {
        s
    } else {
        match b.fitting(kind) {
            Some(a) => Some(a),
            None => s,
        }
    }
}

/// The binding after it matched a scalar slot. It stays armed: one bind fills every
/// site of its tag.
pub open spec fn scalar_binding_at(s: Option<AnyValue>, b: Binding, name: &'static str) -> Binding {
    if b.probe || b.consumed() {
        b
    } else {
        match s {
            Some(v) if b.mode == BindMode::SetOnce && !same_binding(v, b.value->Some_0) => b.refuse(
                BindFault::Conflict(name),
            ),
            _ => b,
        }
    }
}

impl<V: SlotValue + Copy> ScalarInput<V> {
    /// The argument as a site that a bind walk visits.
    pub open spec fn site_spec(self) -> Option<Input> {
        match self {
            ScalarInput::Concrete(_) => None,
            ScalarInput::Slot { key, name, cell, sink } => Some(
                Input::Scalar { key, name, cell, sink, kind: V::kind_spec() },
            ),
        }
    }

    pub fn site(&self) -> (r: Option<Input>)
        ensures
            r == self.site_spec(),
    {
        match self {
            ScalarInput::Concrete(_) => None,
            ScalarInput::Slot { key, name, cell, sink } => Some(
                Input::Scalar { key: *key, name, cell: *cell, sink: *sink, kind: V::kind() },
            ),
        }
    }

    /// The state of the argument: a given value counts as bound.
    pub open spec fn state_spec(self, w: World) -> ScalarSlotState<V> {
        match self {
            ScalarInput::Concrete(v) => ScalarSlotState::Bound(v),
            ScalarInput::Slot { cell, .. } => match w.scalar(cell) {
                Some(a) => match V::unerased(a) {
                    Some(v) => ScalarSlotState::Bound(v),
                    None => ScalarSlotState::Unbound,
                },
                None => ScalarSlotState::Unbound,
            },
        }
    }

    pub fn state(&self, st: &Store) -> (r: ScalarSlotState<V>)
        ensures
            r == self.state_spec(st@),
    {
        match self {
            ScalarInput::Concrete(v) => ScalarSlotState::Bound(*v),
            ScalarInput::Slot { cell, .. } => match st.scalar(*cell) {
                Some(a) => match V::restore(a) {
                    Some(v) => ScalarSlotState::Bound(v),
                    None => ScalarSlotState::Unbound,
                },
                None => ScalarSlotState::Unbound,
            },
        }
    }

    /// The name of the slot.
    pub open spec fn slot_name(self) -> &'static str {
        match self {
            ScalarInput::Concrete(_) => "",
            ScalarInput::Slot { name, .. } => name,
        }
    }

    /// What a run reads.
    pub open spec fn reading(self, w: World) -> OpResult<V> {
        match self.state_spec(w) {
            ScalarSlotState::Bound(v) => Ok::<V, Error>(v),
            ScalarSlotState::Unbound => Err(Error::SlotUnbound(self.slot_name())),
        }
    }

    /// The argument's value.
    pub fn read(&self, st: &Store) -> (r: OpResult<V>)
        ensures
            r == self.reading(st@),
    {
        match self.state(st) {
            ScalarSlotState::Bound(v) => Ok(v),
            ScalarSlotState::Unbound => match self {
                ScalarInput::Concrete(v) => Ok(*v),
                ScalarInput::Slot { name, .. } => Err(Error::SlotUnbound(name)),
            },
        }
    }

    /// The identity of the slot.
    pub fn slot_cell_id(&self) -> (r: Option<u64>)
        ensures
            r == (match *self {
                ScalarInput::Concrete(_) => None::<u64>,
                ScalarInput::Slot { cell, .. } => Some(cell),
            }),
    {
        match self {
            ScalarInput::Concrete(_) => None,
            ScalarInput::Slot { cell, .. } => Some(*cell),
        }
    }

    /// Whether a run can read the argument: the slot is bound, and no bind of
    /// its graph was refused.
    pub fn check_ready(&self, st: &Store) -> (r: OpResult<()>)
        ensures
            r == (match self.site_spec() {
                None => Ok::<(), Error>(()),
                Some(i) => readiness(st@, i),
            }),
    {
        match self.site() {
            None => Ok(()),
            Some(i) => i.check_ready(st),
        }
    }

    /// Offer a binding to the slot.
    pub fn try_bind_slot(&self, st: &mut Store, binder: &mut SlotBinder)
        ensures
            match self.site_spec() {
                None => final(st)@ == old(st)@ && final(binder)@ == old(binder)@,
                Some(i) => final(st)@ == after_offer(old(st)@, i, old(binder)@) && final(binder)@ == offered(
                    old(st)@,
                    i,
                    old(binder)@,
                ),
            },
    {
        match self.site() {
            None => {},
            Some(i) => {
                i.try_bind_slot(st, binder);
            },
        }
    }
}

/// A slot of a graph under construction.
#[derive(Clone, Copy, Debug)]
pub struct SlotHandle {
    pub key: u64,
    pub name: &'static str,
    pub cell: u64,
}

impl SlotHandle {
    /// A fresh, unbound slot.
    pub fn new(st: &mut Store, key: u64, name: &'static str) -> (r: SlotHandle)
        requires
            old(st)@.next < u64::MAX,
        ensures
            r == (SlotHandle { key, name, cell: old(st)@.next }),
            final(st)@ == old(st)@.fresh_ids(1nat),
            final(st)@.slot(r.cell) is Unbound,
            final(st)@.scalar(r.cell) is None,
    {
        SlotHandle { key, name, cell: st.fresh() }
    }

    /// The slot as the input of an op, with a sink of its own.
    pub fn into_input(self, st: &mut Store) -> (r: Input)
        requires
            old(st)@.next < u64::MAX,
        ensures
            r == (Input::Slot { key: self.key, name: self.name, cell: self.cell, sink: old(st)@.next }),
            final(st)@ == old(st)@.fresh_ids(1nat),
            final(st)@.sink(old(st)@.next).len() == 0,
            self.cell != old(st)@.next ==> final(st)@.slot(self.cell) == old(st)@.slot(self.cell),
            old(st)@.slot(self.cell) is Unbound ==> readiness(final(st)@, r) == Err::<(), Error>(
                Error::SlotUnbound(self.name),
            ),
    {
        Input::Slot { key: self.key, name: self.name, cell: self.cell, sink: st.fresh() }
    }

    /// The slot as a scalar argument, with a sink of its own.
    pub fn into_scalar_input<V>(self, st: &mut Store) -> (r: ScalarInput<V>)
        requires
            old(st)@.next < u64::MAX,
        ensures
            r == (ScalarInput::<V>::Slot {
                key: self.key,
                name: self.name,
                cell: self.cell,
                sink: old(st)@.next,
            }),
            final(st)@ == old(st)@.fresh_ids(1nat),
            final(st)@.sink(old(st)@.next).len() == 0,
            self.cell != old(st)@.next ==> final(st)@.scalar(self.cell) == old(st)@.scalar(self.cell),
    {
        ScalarInput::Slot {
            key: self.key,
            name: self.name,
            cell: self.cell,
            sink: st.fresh(),
        }
    }

    /// The slot as the input of an op.
    pub fn into_slot_input(self, st: &mut Store) -> (r: Input)
        requires
            old(st)@.next < u64::MAX,
        ensures
            r == (Input::Slot { key: self.key, name: self.name, cell: self.cell, sink: old(st)@.next }),
            final(st)@ == old(st)@.fresh_ids(1nat),
            final(st)@.sink(old(st)@.next).len() == 0,
            self.cell != old(st)@.next ==> final(st)@.slot(self.cell) == old(st)@.slot(self.cell),
            old(st)@.slot(self.cell) is Unbound ==> readiness(final(st)@, r) == Err::<(), Error>(
                Error::SlotUnbound(self.name),
            ),
    {
        self.into_input(st)
    }
}

/// A launch grid as a scalar argument.
pub fn grid_input<G: IntoLaunchSpec>(g: G) -> (r: ScalarInput<LaunchSpec>)
    ensures
        r matches ScalarInput::Concrete(s) && s@ == g.grid(),
{
    ScalarInput::Concrete(g.into_launch_spec())
}

/// A number as a scalar argument.
pub fn scalar_input<V: SlotValue>(v: V) -> (r: ScalarInput<V>)
    ensures
        r == ScalarInput::Concrete(v),
{
    ScalarInput::Concrete(v)
}

} // verus!
