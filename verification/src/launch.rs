//! Kernel arguments and launch geometry.

use crate::access::{KernelAccess, KernelReadable, KernelWritable};
use crate::error::OpResult;
use crate::obj::{BufHandle, MemRef};
use core::marker::PhantomData;
use std::sync::Arc;
use vstd::layout::size_of;
use vstd::prelude::*;

verus! {

/// One value handed to a kernel, at one argument index.
#[derive(Clone, Copy, Debug, PartialEq, Eq, Structural)]
pub enum ArgValue {
    /// A memory object.
    Mem(u64),
    /// A shared-virtual-memory pointer.
    Svm(u64),
    /// A length that follows a slice's pointer.
    Len(usize),
    /// A scalar of `width` bytes, by its bits.
    Scalar { width: u8, bits: u64 },
    /// Work-group local memory of so many bytes.
    Local(usize),
}

/// The arguments set on a kernel so far, in index order.
pub struct ExecuteKernel {
    args: Vec<ArgValue>,
}

impl View for ExecuteKernel {
    type V = Seq<ArgValue>;

    closed spec fn view(&self) -> Seq<ArgValue> {
        self.args@
    }
}

impl ExecuteKernel {
    /// No argument set yet.
    pub fn new() -> (r: ExecuteKernel)
        ensures
            r@ == Seq::<ArgValue>::empty(),
    {
        ExecuteKernel { args: Vec::new() }
    }

    /// Set the next argument.
    pub fn set_arg(&mut self, a: ArgValue)
        ensures
            final(self)@ == old(self)@.push(a),
    {
        self.args.push(a);
    }

    /// The arguments in index order.
    pub fn args(&self) -> (r: &Vec<ArgValue>)
        ensures
            r@ == self@,
    {
        &self.args
    }
}

/// A value that takes one or more kernel arguments.
pub trait KernelArg {
    /// The arguments that the value takes, in order.
    spec fn arg_values(&self) -> Seq<ArgValue>;

    /// Set the arguments.
    fn set(&self, exec: &mut ExecuteKernel)
        ensures
            final(exec)@ == old(exec)@ + self.arg_values(),
    ;

    /// The uses of shared memory that end with a launch's event: until then such
    /// memory is neither let go of nor written by the host.
    spec fn uses_until(&self, event: u64) -> Seq<InFlight>;

    /// Note what the launch with this completion event uses.
    fn register_completion(&self, event: u64, uses: &mut Vec<InFlight>)
        ensures
            final(uses)@ == old(uses)@ + self.uses_until(event),
    ;
}

/// Shared memory that a launch uses until its event has finished.
#[derive(Clone, Copy, Debug, PartialEq, Eq, Structural)]
pub struct InFlight {
    pub ptr: u64,
    pub event: u64,
}

/// A kernel argument that can be passed as its bare pointer.
pub trait KernelPointerArg: KernelArg {
    /// The argument that holds the pointer.
    spec fn pointer_value(&self) -> ArgValue;

    /// Set the pointer alone, without the length.
    fn set_pointer_only(&self, exec: &mut ExecuteKernel)
        ensures
            final(exec)@ == old(exec)@.push(self.pointer_value()),
    ;
}

/// The families of slices that a kernel can take.
pub trait Sealed {

}

/// A slice that a kernel may read.
pub trait KernelSliceReadArg: KernelArg + KernelPointerArg + Sealed {
    /// The number of elements.
    spec fn elements(&self) -> usize;

    /// What a recorded command refers to.
    spec fn handle_spec(&self) -> OpResult<BufHandle>;

    fn element_count(&self) -> (r: usize)
        ensures
            r == self.elements(),
    ;

    fn record_handle(&self) -> (r: OpResult<BufHandle>)
        ensures
            r == self.handle_spec(),
    ;
}

/// A slice that a kernel may read and write.
pub trait KernelSliceReadWriteArg: KernelSliceReadArg {

}

/// Another name for a slice that a kernel may read and write.
pub trait KernelSliceArg: KernelSliceReadWriteArg {

}

impl<X: KernelSliceReadWriteArg> KernelSliceArg for X {

}

/// A one-element buffer passed as a reference to a scalar.
pub trait KernelScalarRefArg: KernelArg + KernelPointerArg {
    /// What a recorded command refers to.
    spec fn scalar_handle_spec(&self) -> OpResult<BufHandle>;

    fn record_handle(&self) -> (r: OpResult<BufHandle>)
        ensures
            r == self.scalar_handle_spec(),
    ;
}

/// A one-element buffer passed as a mutable reference to a scalar.
pub trait KernelScalarRefMutArg: KernelScalarRefArg {

}

/// A handle to `len` elements of device memory.
pub struct DeviceSlice<M> {
    pub mem: u64,
    pub len: usize,
    pub byte_len: usize,
    pub mode: PhantomData<M>,
}

/// A handle to `len` elements of mapped shared memory.
pub struct MappedSlice<M> {
    pub ptr: u64,
    pub len: usize,
    pub byte_len: usize,
    pub mode: PhantomData<M>,
}

/// A handle to `len` elements of fine-grained shared memory.
pub struct USMSlice<M> {
    pub ptr: u64,
    pub len: usize,
    pub byte_len: usize,
    pub mode: PhantomData<M>,
}

/// A one-element buffer.
pub struct Scalar<B> {
    pub inner: B,
}

impl<M: KernelAccess> KernelArg for DeviceSlice<M> {
    open spec fn arg_values(&self) -> Seq<ArgValue> {
        seq![ArgValue::Mem(self.mem), ArgValue::Len(self.len)]
    }

    fn set(&self, exec: &mut ExecuteKernel) {
        exec.set_arg(ArgValue::Mem(self.mem));
        exec.set_arg(ArgValue::Len(self.len));
        assert(exec@ =~= old(exec)@ + self.arg_values());
    }

    open spec fn uses_until(&self, event: u64) -> Seq<InFlight> {
        Seq::empty()
    }

    fn register_completion(&self, event: u64, uses: &mut Vec<InFlight>) {
        assert(uses@ =~= old(uses)@ + self.uses_until(event));
    }
}

impl<M: KernelAccess> KernelPointerArg for DeviceSlice<M> {
    open spec fn pointer_value(&self) -> ArgValue {
        ArgValue::Mem(self.mem)
    }

    fn set_pointer_only(&self, exec: &mut ExecuteKernel) {
        exec.set_arg(ArgValue::Mem(self.mem));
    }
}

impl<M: KernelAccess> Sealed for DeviceSlice<M> {

}

impl<M: KernelReadable> KernelSliceReadArg for DeviceSlice<M> {
    open spec fn elements(&self) -> usize {
        self.len
    }

    open spec fn handle_spec(&self) -> OpResult<BufHandle> {
        Ok(BufHandle { mem: MemRef::Buffer(self.mem), byte_len: self.byte_len })
    }

    fn element_count(&self) -> (r: usize) {
        self.len
    }

    fn record_handle(&self) -> (r: OpResult<BufHandle>) {
        Ok(BufHandle { mem: MemRef::Buffer(self.mem), byte_len: self.byte_len })
    }
}

impl<M: KernelReadable + KernelWritable> KernelSliceReadWriteArg for DeviceSlice<M> {

}

impl<M: KernelAccess> KernelArg for MappedSlice<M> {
    open spec fn arg_values(&self) -> Seq<ArgValue> {
        seq![ArgValue::Svm(self.ptr), ArgValue::Len(self.len)]
    }

    fn set(&self, exec: &mut ExecuteKernel) {
        exec.set_arg(ArgValue::Svm(self.ptr));
        exec.set_arg(ArgValue::Len(self.len));
        assert(exec@ =~= old(exec)@ + self.arg_values());
    }

    open spec fn uses_until(&self, event: u64) -> Seq<InFlight> {
        seq![InFlight { ptr: self.ptr, event }]
    }

    fn register_completion(&self, event: u64, uses: &mut Vec<InFlight>) {
        uses.push(InFlight { ptr: self.ptr, event });
        assert(uses@ =~= old(uses)@ + self.uses_until(event));
    }
}

impl<M: KernelAccess> KernelPointerArg for MappedSlice<M> {
    open spec fn pointer_value(&self) -> ArgValue {
        ArgValue::Svm(self.ptr)
    }

    fn set_pointer_only(&self, exec: &mut ExecuteKernel) {
        exec.set_arg(ArgValue::Svm(self.ptr));
    }
}

impl<M: KernelAccess> Sealed for MappedSlice<M> {

}

impl<M: KernelReadable> KernelSliceReadArg for MappedSlice<M> {
    open spec fn elements(&self) -> usize {
        self.len
    }

    open spec fn handle_spec(&self) -> OpResult<BufHandle> {
        Ok(BufHandle { mem: MemRef::Svm(self.ptr), byte_len: self.byte_len })
    }

    fn element_count(&self) -> (r: usize) {
        self.len
    }

    fn record_handle(&self) -> (r: OpResult<BufHandle>) {
        Ok(BufHandle { mem: MemRef::Svm(self.ptr), byte_len: self.byte_len })
    }
}

impl<M: KernelReadable + KernelWritable> KernelSliceReadWriteArg for MappedSlice<M> {

}

impl<M: KernelAccess> KernelArg for USMSlice<M> {
    open spec fn arg_values(&self) -> Seq<ArgValue> {
        seq![ArgValue::Svm(self.ptr), ArgValue::Len(self.len)]
    }

    fn set(&self, exec: &mut ExecuteKernel) {
        exec.set_arg(ArgValue::Svm(self.ptr));
        exec.set_arg(ArgValue::Len(self.len));
        assert(exec@ =~= old(exec)@ + self.arg_values());
    }

    open spec fn uses_until(&self, event: u64) -> Seq<InFlight> {
        seq![InFlight { ptr: self.ptr, event }]
    }

    fn register_completion(&self, event: u64, uses: &mut Vec<InFlight>) {
        uses.push(InFlight { ptr: self.ptr, event });
        assert(uses@ =~= old(uses)@ + self.uses_until(event));
    }
}

impl<M: KernelAccess> KernelPointerArg for USMSlice<M> {
    open spec fn pointer_value(&self) -> ArgValue {
        ArgValue::Svm(self.ptr)
    }

    fn set_pointer_only(&self, exec: &mut ExecuteKernel) {
        exec.set_arg(ArgValue::Svm(self.ptr));
    }
}

impl<M: KernelAccess> Sealed for USMSlice<M> {

}

impl<M: KernelReadable> KernelSliceReadArg for USMSlice<M> {
    open spec fn elements(&self) -> usize {
        self.len
    }

    open spec fn handle_spec(&self) -> OpResult<BufHandle> {
        Ok(BufHandle { mem: MemRef::Svm(self.ptr), byte_len: self.byte_len })
    }

    fn element_count(&self) -> (r: usize) {
        self.len
    }

    fn record_handle(&self) -> (r: OpResult<BufHandle>) {
        Ok(BufHandle { mem: MemRef::Svm(self.ptr), byte_len: self.byte_len })
    }
}

impl<M: KernelReadable + KernelWritable> KernelSliceReadWriteArg for USMSlice<M> {

}

impl<B: KernelPointerArg> KernelArg for Scalar<B> {
    open spec fn arg_values(&self) -> Seq<ArgValue> {
        seq![self.inner.pointer_value()]
    }

    fn set(&self, exec: &mut ExecuteKernel) {
        self.inner.set_pointer_only(exec);
        assert(exec@ =~= old(exec)@ + self.arg_values());
    }

    open spec fn uses_until(&self, event: u64) -> Seq<InFlight> {
        self.inner.uses_until(event)
    }

    fn register_completion(&self, event: u64, uses: &mut Vec<InFlight>) {
        self.inner.register_completion(event, uses)
    }
}

impl<B: KernelPointerArg> KernelPointerArg for Scalar<B> {
    open spec fn pointer_value(&self) -> ArgValue {
        self.inner.pointer_value()
    }

    fn set_pointer_only(&self, exec: &mut ExecuteKernel) {
        self.inner.set_pointer_only(exec);
    }
}

impl<B: KernelSliceReadArg> KernelScalarRefArg for Scalar<B> {
    open spec fn scalar_handle_spec(&self) -> OpResult<BufHandle> {
        self.inner.handle_spec()
    }

    fn record_handle(&self) -> (r: OpResult<BufHandle>) {
        self.inner.record_handle()
    }
}

impl<B: KernelSliceReadWriteArg> KernelScalarRefMutArg for Scalar<B> {

}

/// Pass a slice as a reference to its first element: the pointer, no length.
pub struct ScalarRefArg<'a, D: KernelPointerArg>(pub &'a D);

impl<'a, D: KernelPointerArg> KernelArg for ScalarRefArg<'a, D> {
    open spec fn arg_values(&self) -> Seq<ArgValue> {
        seq![self.0.pointer_value()]
    }

    fn set(&self, exec: &mut ExecuteKernel) {
        self.0.set_pointer_only(exec);
        assert(exec@ =~= old(exec)@ + self.arg_values());
    }

    open spec fn uses_until(&self, event: u64) -> Seq<InFlight> {
        self.0.uses_until(event)
    }

    fn register_completion(&self, event: u64, uses: &mut Vec<InFlight>) {
        self.0.register_completion(event, uses)
    }
}

impl<'a, T: KernelArg> KernelArg for &'a T {
    open spec fn arg_values(&self) -> Seq<ArgValue> {
        (**self).arg_values()
    }

    fn set(&self, exec: &mut ExecuteKernel) {
        (**self).set(exec);
    }

    open spec fn uses_until(&self, event: u64) -> Seq<InFlight> {
        (**self).uses_until(event)
    }

    fn register_completion(&self, event: u64, uses: &mut Vec<InFlight>) {
        (**self).register_completion(event, uses)
    }
}

impl<M: KernelAccess> KernelArg for Arc<DeviceSlice<M>> {
    open spec fn arg_values(&self) -> Seq<ArgValue> {
        (**self).arg_values()
    }

    fn set(&self, exec: &mut ExecuteKernel) {
        (**self).set(exec);
    }

    open spec fn uses_until(&self, event: u64) -> Seq<InFlight> {
        Seq::empty()
    }

    fn register_completion(&self, event: u64, uses: &mut Vec<InFlight>) {
        assert(uses@ =~= old(uses)@ + self.uses_until(event));
    }
}

impl<M: KernelAccess> KernelPointerArg for Arc<DeviceSlice<M>> {
    open spec fn pointer_value(&self) -> ArgValue {
        (**self).pointer_value()
    }

    fn set_pointer_only(&self, exec: &mut ExecuteKernel) {
        (**self).set_pointer_only(exec);
    }
}

impl<M: KernelAccess> Sealed for Arc<DeviceSlice<M>> {

}

/// A shared slice can be read.
impl<M: KernelReadable> KernelSliceReadArg for Arc<DeviceSlice<M>> {
    open spec fn elements(&self) -> usize {
        (**self).elements()
    }

    open spec fn handle_spec(&self) -> OpResult<BufHandle> {
        (**self).handle_spec()
    }

    fn element_count(&self) -> (r: usize) {
        (**self).element_count()
    }

    fn record_handle(&self) -> (r: OpResult<BufHandle>) {
        KernelSliceReadArg::record_handle(&**self)
    }
}

/// A plain number that a kernel takes by value.
pub trait ScalarArg: Copy {
    /// The bytes of the number.
    spec fn width() -> u8;

    /// Its bits, zero-extended.
    spec fn bits(&self) -> u64;

    fn to_arg(&self) -> (r: ArgValue)
        ensures
            r == (ArgValue::Scalar { width: Self::width(), bits: self.bits() }),
    ;
}

impl ScalarArg for u8 {
    open spec fn width() -> u8 {
        1
    }

    open spec fn bits(&self) -> u64 {
        *self as u64
    }

    fn to_arg(&self) -> (r: ArgValue) {
        ArgValue::Scalar { width: 1, bits: *self as u64 }
    }
}

impl ScalarArg for u16 {
    open spec fn width() -> u8 {
        2
    }

    open spec fn bits(&self) -> u64 {
        *self as u64
    }

    fn to_arg(&self) -> (r: ArgValue) {
        ArgValue::Scalar { width: 2, bits: *self as u64 }
    }
}

impl ScalarArg for u32 {
    open spec fn width() -> u8 {
        4
    }

    open spec fn bits(&self) -> u64 {
        *self as u64
    }

    fn to_arg(&self) -> (r: ArgValue) {
        ArgValue::Scalar { width: 4, bits: *self as u64 }
    }
}

impl ScalarArg for u64 {
    open spec fn width() -> u8 {
        8
    }

    open spec fn bits(&self) -> u64 {
        *self
    }

    fn to_arg(&self) -> (r: ArgValue) {
        ArgValue::Scalar { width: 8, bits: *self }
    }
}

impl ScalarArg for i8 {
    open spec fn width() -> u8 {
        1
    }

    open spec fn bits(&self) -> u64 {
        (if *self < 0 { *self + 0x100 } else { *self as int }) as u64
    }

    fn to_arg(&self) -> (r: ArgValue) {
        let v: i16 = *self as i16;
        let w: i16 = if v < 0 { v + 0x100 } else { v };
        ArgValue::Scalar { width: 1, bits: w as u64 }
    }
}

impl ScalarArg for i16 {
    open spec fn width() -> u8 {
        2
    }

    open spec fn bits(&self) -> u64 {
        (if *self < 0 { *self + 0x1_0000 } else { *self as int }) as u64
    }

    fn to_arg(&self) -> (r: ArgValue) {
        let v: i32 = *self as i32;
        let w: i32 = if v < 0 { v + 0x1_0000 } else { v };
        ArgValue::Scalar { width: 2, bits: w as u64 }
    }
}

impl ScalarArg for i32 {
    open spec fn width() -> u8 {
        4
    }

    open spec fn bits(&self) -> u64 {
        (if *self < 0 { *self + 0x1_0000_0000 } else { *self as int }) as u64
    }

    fn to_arg(&self) -> (r: ArgValue) {
        let v: i64 = *self as i64;
        let w: i64 = if v < 0 { v + 0x1_0000_0000 } else { v };
        ArgValue::Scalar { width: 4, bits: w as u64 }
    }
}

impl ScalarArg for i64 {
    open spec fn width() -> u8 {
        8
    }

    open spec fn bits(&self) -> u64 {
        (if *self < 0 { *self + 0x1_0000_0000_0000_0000 } else { *self as int }) as u64
    }

    fn to_arg(&self) -> (r: ArgValue) {
        let v: i128 = *self as i128;
        let w: i128 = if v < 0 { v + 0x1_0000_0000_0000_0000 } else { v };
        ArgValue::Scalar { width: 8, bits: w as u64 }
    }
}

/// A single-precision number, by its bits.
#[derive(Clone, Copy, Debug, PartialEq, Eq, Structural)]
pub struct F32Bits(pub u32);

/// A double-precision number, by its bits.
#[derive(Clone, Copy, Debug, PartialEq, Eq, Structural)]
pub struct F64Bits(pub u64);

impl ScalarArg for F32Bits {
    open spec fn width() -> u8 {
        4
    }

    open spec fn bits(&self) -> u64 {
        self.0 as u64
    }

    fn to_arg(&self) -> (r: ArgValue) {
        ArgValue::Scalar { width: 4, bits: self.0 as u64 }
    }
}

impl ScalarArg for F64Bits {
    open spec fn width() -> u8 {
        8
    }

    open spec fn bits(&self) -> u64 {
        self.0
    }

    fn to_arg(&self) -> (r: ArgValue) {
        ArgValue::Scalar { width: 8, bits: self.0 }
    }
}

/// A number passed by value.
pub struct ByValue<T: ScalarArg>(pub T);

impl<T: ScalarArg> KernelArg for ByValue<T> {
    open spec fn arg_values(&self) -> Seq<ArgValue> {
        seq![ArgValue::Scalar { width: T::width(), bits: self.0.bits() }]
    }

    fn set(&self, exec: &mut ExecuteKernel) {
        exec.set_arg(self.0.to_arg());
        assert(exec@ =~= old(exec)@ + self.arg_values());
    }

    open spec fn uses_until(&self, event: u64) -> Seq<InFlight> {
        Seq::empty()
    }

    fn register_completion(&self, event: u64, uses: &mut Vec<InFlight>) {
        assert(uses@ =~= old(uses)@ + self.uses_until(event));
    }
}

/// Work-group local memory, sized by the host.
#[derive(Clone, Copy, Debug, PartialEq, Eq, Structural)]
pub struct LocalBuffer {
    pub size_bytes: usize,
}

impl LocalBuffer {
    /// Local memory of `size_bytes` bytes.
    pub fn bytes(size_bytes: usize) -> (r: LocalBuffer)
        ensures
            r.size_bytes == size_bytes,
    {
        LocalBuffer { size_bytes }
    }

    /// Local memory for `count` elements of type `T`.
    pub fn of<T>(count: usize) -> (r: LocalBuffer)
        requires
            count * size_of::<T>() <= usize::MAX,
        ensures
            r.size_bytes == count * size_of::<T>(),
    {
        let width: usize = core::mem::size_of::<T>();
        LocalBuffer { size_bytes: count * width }
    }
}

impl KernelArg for LocalBuffer {
    open spec fn arg_values(&self) -> Seq<ArgValue> {
        seq![ArgValue::Local(self.size_bytes)]
    }

    fn set(&self, exec: &mut ExecuteKernel) {
        exec.set_arg(ArgValue::Local(self.size_bytes));
        assert(exec@ =~= old(exec)@ + self.arg_values());
    }

    open spec fn uses_until(&self, event: u64) -> Seq<InFlight> {
        Seq::empty()
    }

    fn register_completion(&self, event: u64, uses: &mut Vec<InFlight>) {
        assert(uses@ =~= old(uses)@ + self.uses_until(event));
    }
}

/// An argument list: the arguments of each element, in order.
pub trait KernelArgs {
    /// All arguments, in index order.
    spec fn all_values(&self) -> Seq<ArgValue>;

    fn set_all(&self, exec: &mut ExecuteKernel)
        ensures
            final(exec)@ == old(exec)@ + self.all_values(),
    ;

    /// The uses of shared memory that end with a launch's event.
    spec fn all_uses(&self, event: u64) -> Seq<InFlight>;

    /// Note what the launch with this completion event uses.
    fn register_all(&self, event: u64, uses: &mut Vec<InFlight>)
        ensures
            final(uses)@ == old(uses)@ + self.all_uses(event),
    ;
}

impl KernelArgs for () {
    open spec fn all_values(&self) -> Seq<ArgValue> {
        Seq::empty()
    }

    fn set_all(&self, exec: &mut ExecuteKernel) {
        assert(exec@ =~= old(exec)@ + self.all_values());
    }

    open spec fn all_uses(&self, event: u64) -> Seq<InFlight> {
        Seq::empty()
    }

    fn register_all(&self, event: u64, uses: &mut Vec<InFlight>) {
        assert(uses@ =~= old(uses)@ + self.all_uses(event));
    }
}

impl<A: KernelArg> KernelArgs for (A,) {
    open spec fn all_values(&self) -> Seq<ArgValue> {
        self.0.arg_values()
    }

    fn set_all(&self, exec: &mut ExecuteKernel) {
        self.0.set(exec);
        assert(exec@ =~= old(exec)@ + self.all_values());
    }

    open spec fn all_uses(&self, event: u64) -> Seq<InFlight> {
        self.0.uses_until(event)
    }

    fn register_all(&self, event: u64, uses: &mut Vec<InFlight>) {
        self.0.register_completion(event, uses);
        assert(uses@ =~= old(uses)@ + self.all_uses(event));
    }
}

impl<A: KernelArg, B: KernelArg> KernelArgs for (A, B) {
    open spec fn all_values(&self) -> Seq<ArgValue> {
        self.0.arg_values() + self.1.arg_values()
    }

    fn set_all(&self, exec: &mut ExecuteKernel) {
        self.0.set(exec);
        self.1.set(exec);
        assert(exec@ =~= old(exec)@ + self.all_values());
    }

    open spec fn all_uses(&self, event: u64) -> Seq<InFlight> {
        self.0.uses_until(event) + self.1.uses_until(event)
    }

    fn register_all(&self, event: u64, uses: &mut Vec<InFlight>) {
        self.0.register_completion(event, uses);
        self.1.register_completion(event, uses);
        assert(uses@ =~= old(uses)@ + self.all_uses(event));
    }
}

impl<A: KernelArg, B: KernelArg, C: KernelArg> KernelArgs for (A, B, C) {
    open spec fn all_values(&self) -> Seq<ArgValue> {
        self.0.arg_values() + self.1.arg_values() + self.2.arg_values()
    }

    fn set_all(&self, exec: &mut ExecuteKernel) {
        self.0.set(exec);
        self.1.set(exec);
        self.2.set(exec);
        assert(exec@ =~= old(exec)@ + self.all_values());
    }

    open spec fn all_uses(&self, event: u64) -> Seq<InFlight> {
        self.0.uses_until(event) + self.1.uses_until(event) + self.2.uses_until(event)
    }

    fn register_all(&self, event: u64, uses: &mut Vec<InFlight>) {
        self.0.register_completion(event, uses);
        self.1.register_completion(event, uses);
        self.2.register_completion(event, uses);
        assert(uses@ =~= old(uses)@ + self.all_uses(event));
    }
}

impl<A: KernelArg, B: KernelArg, C: KernelArg, D: KernelArg> KernelArgs for (A, B, C, D) {
    open spec fn all_values(&self) -> Seq<ArgValue> {
        self.0.arg_values() + self.1.arg_values() + self.2.arg_values() + self.3.arg_values()
    }

    fn set_all(&self, exec: &mut ExecuteKernel) {
        self.0.set(exec);
        self.1.set(exec);
        self.2.set(exec);
        self.3.set(exec);
        assert(exec@ =~= old(exec)@ + self.all_values());
    }

    open spec fn all_uses(&self, event: u64) -> Seq<InFlight> {
        self.0.uses_until(event) + self.1.uses_until(event) + self.2.uses_until(event) + self.3.uses_until(event)
    }

    fn register_all(&self, event: u64, uses: &mut Vec<InFlight>) {
        self.0.register_completion(event, uses);
        self.1.register_completion(event, uses);
        self.2.register_completion(event, uses);
        self.3.register_completion(event, uses);
        assert(uses@ =~= old(uses)@ + self.all_uses(event));
    }
}

impl<A: KernelArg, B: KernelArg, C: KernelArg, D: KernelArg, E: KernelArg> KernelArgs for (A, B, C, D, E) {
    open spec fn all_values(&self) -> Seq<ArgValue> {
        self.0.arg_values() + self.1.arg_values() + self.2.arg_values() + self.3.arg_values() + self.4.arg_values()
    }

    fn set_all(&self, exec: &mut ExecuteKernel) {
        self.0.set(exec);
        self.1.set(exec);
        self.2.set(exec);
        self.3.set(exec);
        self.4.set(exec);
        assert(exec@ =~= old(exec)@ + self.all_values());
    }

    open spec fn all_uses(&self, event: u64) -> Seq<InFlight> {
        self.0.uses_until(event) + self.1.uses_until(event) + self.2.uses_until(event) + self.3.uses_until(event) + self.4.uses_until(event)
    }

    fn register_all(&self, event: u64, uses: &mut Vec<InFlight>) {
        self.0.register_completion(event, uses);
        self.1.register_completion(event, uses);
        self.2.register_completion(event, uses);
        self.3.register_completion(event, uses);
        self.4.register_completion(event, uses);
        assert(uses@ =~= old(uses)@ + self.all_uses(event));
    }
}

impl<A: KernelArg, B: KernelArg, C: KernelArg, D: KernelArg, E: KernelArg, F: KernelArg> KernelArgs for (A, B, C, D, E, F) {
    open spec fn all_values(&self) -> Seq<ArgValue> {
        self.0.arg_values() + self.1.arg_values() + self.2.arg_values() + self.3.arg_values() + self.4.arg_values() + self.5.arg_values()
    }

    fn set_all(&self, exec: &mut ExecuteKernel) {
        self.0.set(exec);
        self.1.set(exec);
        self.2.set(exec);
        self.3.set(exec);
        self.4.set(exec);
        self.5.set(exec);
        assert(exec@ =~= old(exec)@ + self.all_values());
    }

    open spec fn all_uses(&self, event: u64) -> Seq<InFlight> {
        self.0.uses_until(event) + self.1.uses_until(event) + self.2.uses_until(event) + self.3.uses_until(event) + self.4.uses_until(event) + self.5.uses_until(event)
    }

    fn register_all(&self, event: u64, uses: &mut Vec<InFlight>) {
        self.0.register_completion(event, uses);
        self.1.register_completion(event, uses);
        self.2.register_completion(event, uses);
        self.3.register_completion(event, uses);
        self.4.register_completion(event, uses);
        self.5.register_completion(event, uses);
        assert(uses@ =~= old(uses)@ + self.all_uses(event));
    }
}

impl<A: KernelArg, B: KernelArg, C: KernelArg, D: KernelArg, E: KernelArg, F: KernelArg, G: KernelArg> KernelArgs for (A, B, C, D, E, F, G) {
    open spec fn all_values(&self) -> Seq<ArgValue> {
        self.0.arg_values() + self.1.arg_values() + self.2.arg_values() + self.3.arg_values() + self.4.arg_values() + self.5.arg_values() + self.6.arg_values()
    }

    fn set_all(&self, exec: &mut ExecuteKernel) {
        self.0.set(exec);
        self.1.set(exec);
        self.2.set(exec);
        self.3.set(exec);
        self.4.set(exec);
        self.5.set(exec);
        self.6.set(exec);
        assert(exec@ =~= old(exec)@ + self.all_values());
    }

    open spec fn all_uses(&self, event: u64) -> Seq<InFlight> {
        self.0.uses_until(event) + self.1.uses_until(event) + self.2.uses_until(event) + self.3.uses_until(event) + self.4.uses_until(event) + self.5.uses_until(event) + self.6.uses_until(event)
    }

    fn register_all(&self, event: u64, uses: &mut Vec<InFlight>) {
        self.0.register_completion(event, uses);
        self.1.register_completion(event, uses);
        self.2.register_completion(event, uses);
        self.3.register_completion(event, uses);
        self.4.register_completion(event, uses);
        self.5.register_completion(event, uses);
        self.6.register_completion(event, uses);
        assert(uses@ =~= old(uses)@ + self.all_uses(event));
    }
}

impl<A: KernelArg, B: KernelArg, C: KernelArg, D: KernelArg, E: KernelArg, F: KernelArg, G: KernelArg, H: KernelArg> KernelArgs for (A, B, C, D, E, F, G, H) {
    open spec fn all_values(&self) -> Seq<ArgValue> {
        self.0.arg_values() + self.1.arg_values() + self.2.arg_values() + self.3.arg_values() + self.4.arg_values() + self.5.arg_values() + self.6.arg_values() + self.7.arg_values()
    }

    fn set_all(&self, exec: &mut ExecuteKernel) {
        self.0.set(exec);
        self.1.set(exec);
        self.2.set(exec);
        self.3.set(exec);
        self.4.set(exec);
        self.5.set(exec);
        self.6.set(exec);
        self.7.set(exec);
        assert(exec@ =~= old(exec)@ + self.all_values());
    }

    open spec fn all_uses(&self, event: u64) -> Seq<InFlight> {
        self.0.uses_until(event) + self.1.uses_until(event) + self.2.uses_until(event) + self.3.uses_until(event) + self.4.uses_until(event) + self.5.uses_until(event) + self.6.uses_until(event) + self.7.uses_until(event)
    }

    fn register_all(&self, event: u64, uses: &mut Vec<InFlight>) {
        self.0.register_completion(event, uses);
        self.1.register_completion(event, uses);
        self.2.register_completion(event, uses);
        self.3.register_completion(event, uses);
        self.4.register_completion(event, uses);
        self.5.register_completion(event, uses);
        self.6.register_completion(event, uses);
        self.7.register_completion(event, uses);
        assert(uses@ =~= old(uses)@ + self.all_uses(event));
    }
}

/// The grid of a launch: one to three dimensions, with an optional work-group
/// size of the same rank.
#[derive(Clone, Copy, Debug)]
pub struct LaunchSpec {
    global: [usize; 3],
    local: Option<[usize; 3]>,
    dims: u8,
}

/// A launch grid as its sizes per dimension.
#[verifier::ext_equal]
pub struct Grid {
    pub global: Seq<usize>,
    pub local: Option<Seq<usize>>,
}

impl View for LaunchSpec {
    type V = Grid;

    closed spec fn view(&self) -> Grid {
        Grid {
            global: self.global@.take(self.dims as int),
            local: match self.local {
                Some(l) => Some(l@.take(self.dims as int)),
                None => None,
            },
        }
    }
}

impl LaunchSpec {
    /// The rank is one to three.
    #[verifier::type_invariant]
    closed spec fn inv(self) -> bool {
        1 <= self.dims <= 3
    }

    /// The rank of the grid.
    pub fn dims(&self) -> (r: u8)
        ensures
            r == self@.global.len(),
            1 <= r <= 3,
            self@.local matches Some(l) ==> l.len() == r,
    {
        proof {
            use_type_invariant(self);
        }
        self.dims
    }

    /// The global size in each dimension of the grid.
    pub fn global(&self) -> (r: &[usize])
        ensures
            r@ == self@.global,
    {
        proof {
            use_type_invariant(self);
        }
        let all: &[usize] = &self.global;
        vstd::slice::slice_subrange(all, 0, self.dims as usize)
    }

    /// The work-group size in each dimension, where one was given.
    pub fn local(&self) -> (r: Option<&[usize]>)
        ensures
            self@.local matches Some(l) ==> (r matches Some(s) && s@ == l),
            self@.local is None ==> r is None,
    {
        proof {
            use_type_invariant(self);
        }
        match &self.local {
            Some(l) => {
                let all: &[usize] = l;
                Some(vstd::slice::slice_subrange(all, 0, self.dims as usize))
            },
            None => None,
        }
    }
}

/// What can be written as a launch grid.
pub trait IntoLaunchSpec: Sized {
    /// The grid that the value stands for.
    spec fn grid(self) -> Grid;

    fn into_launch_spec(self) -> (r: LaunchSpec)
        ensures
            r@ == self.grid(),
    ;
}

impl IntoLaunchSpec for LaunchSpec {
    open spec fn grid(self) -> Grid {
        self@
    }

    fn into_launch_spec(self) -> (r: LaunchSpec) {
        self
    }
}

impl From<[usize; 1]> for LaunchSpec {
    fn from(v: [usize; 1]) -> (r: LaunchSpec) {
        LaunchSpec { global: [v[0], 0, 0], local: None, dims: 1 }
    }
}

impl vstd::std_specs::convert::FromSpecImpl<[usize; 1]> for LaunchSpec {
    open spec fn obeys_from_spec() -> bool {
        true
    }

    closed spec fn from_spec(v: [usize; 1]) -> LaunchSpec {
        LaunchSpec { global: [v[0], 0usize, 0usize], local: None, dims: 1 }
    }
}

impl From<[usize; 2]> for LaunchSpec {
    fn from(v: [usize; 2]) -> (r: LaunchSpec) {
        LaunchSpec { global: [v[0], v[1], 0], local: None, dims: 2 }
    }
}

impl vstd::std_specs::convert::FromSpecImpl<[usize; 2]> for LaunchSpec {
    open spec fn obeys_from_spec() -> bool {
        true
    }

    closed spec fn from_spec(v: [usize; 2]) -> LaunchSpec {
        LaunchSpec { global: [v[0], v[1], 0usize], local: None, dims: 2 }
    }
}

impl From<[usize; 3]> for LaunchSpec {
    fn from(v: [usize; 3]) -> (r: LaunchSpec) {
        LaunchSpec { global: [v[0], v[1], v[2]], local: None, dims: 3 }
    }
}

impl vstd::std_specs::convert::FromSpecImpl<[usize; 3]> for LaunchSpec {
    open spec fn obeys_from_spec() -> bool {
        true
    }

    closed spec fn from_spec(v: [usize; 3]) -> LaunchSpec {
        LaunchSpec { global: [v[0], v[1], v[2]], local: None, dims: 3 }
    }
}

impl IntoLaunchSpec for [usize; 1] {
    open spec fn grid(self) -> Grid {
        Grid { global: self@, local: None }
    }

    fn into_launch_spec(self) -> (r: LaunchSpec) {
        let r = LaunchSpec { global: [self[0], 0, 0], local: None, dims: 1 };
        assert(r@.global =~= self@);
        r
    }
}

impl IntoLaunchSpec for [usize; 2] {
    open spec fn grid(self) -> Grid {
        Grid { global: self@, local: None }
    }

    fn into_launch_spec(self) -> (r: LaunchSpec) {
        let r = LaunchSpec { global: [self[0], self[1], 0], local: None, dims: 2 };
        assert(r@.global =~= self@);
        r
    }
}

impl IntoLaunchSpec for [usize; 3] {
    open spec fn grid(self) -> Grid {
        Grid { global: self@, local: None }
    }

    fn into_launch_spec(self) -> (r: LaunchSpec) {
        let r = LaunchSpec { global: self, local: None, dims: 3 };
        assert(r@.global =~= self@);
        r
    }
}

impl IntoLaunchSpec for ([usize; 1], [usize; 1]) {
    open spec fn grid(self) -> Grid {
        Grid { global: self.0@, local: Some(self.1@) }
    }

    fn into_launch_spec(self) -> (r: LaunchSpec) {
        let r = LaunchSpec { global: [self.0[0], 0, 0], local: Some([self.1[0], 0, 0]), dims: 1 };
        assert(r@.global =~= self.0@);
        assert(r@.local->Some_0 =~= self.1@);
        r
    }
}

impl IntoLaunchSpec for ([usize; 2], [usize; 2]) {
    open spec fn grid(self) -> Grid {
        Grid { global: self.0@, local: Some(self.1@) }
    }

    fn into_launch_spec(self) -> (r: LaunchSpec) {
        let r = LaunchSpec {
            global: [self.0[0], self.0[1], 0],
            local: Some([self.1[0], self.1[1], 0]),
            dims: 2,
        };
        assert(r@.global =~= self.0@);
        assert(r@.local->Some_0 =~= self.1@);
        r
    }
}

impl IntoLaunchSpec for ([usize; 3], [usize; 3]) {
    open spec fn grid(self) -> Grid {
        Grid { global: self.0@, local: Some(self.1@) }
    }

    fn into_launch_spec(self) -> (r: LaunchSpec) {
        let r = LaunchSpec { global: self.0, local: Some(self.1), dims: 3 };
        assert(r@.global =~= self.0@);
        assert(r@.local->Some_0 =~= self.1@);
        r
    }
}

/// The nanoseconds between the start and end counters of a command, where both
/// could be read.
pub fn profiling_duration(start: core::result::Result<u64, i32>, end: core::result::Result<u64, i32>) -> (r: Option<u64>)
    requires
        start matches Ok(s) ==> (end matches Ok(e) ==> s <= e),
    ensures
        r == match (start, end) {
            (Ok(s), Ok(e)) => Some((e - s) as u64),
            _ => None,
        },
{
    match start {
        Ok(s) => match end {
            Ok(e) => Some(e - s),
            Err(_) => None,
        },
        Err(_) => None,
    }
}

/// A grid made from one size has these global sizes and no work-group size.
pub proof fn law_grid_of_one_size(v: [usize; 1])
    ensures
        <LaunchSpec as vstd::std_specs::convert::FromSpec<[usize; 1]>>::from_spec(v)@ == v.grid(),
{
    assert(<LaunchSpec as vstd::std_specs::convert::FromSpec<[usize; 1]>>::from_spec(v)@.global =~= v@);
}

/// A grid made from two sizes has these global sizes and no work-group size.
pub proof fn law_grid_of_two_sizes(v: [usize; 2])
    ensures
        <LaunchSpec as vstd::std_specs::convert::FromSpec<[usize; 2]>>::from_spec(v)@ == v.grid(),
{
    assert(<LaunchSpec as vstd::std_specs::convert::FromSpec<[usize; 2]>>::from_spec(v)@.global =~= v@);
}

/// A grid made from three sizes has these global sizes and no work-group size.
pub proof fn law_grid_of_three_sizes(v: [usize; 3])
    ensures
        <LaunchSpec as vstd::std_specs::convert::FromSpec<[usize; 3]>>::from_spec(v)@ == v.grid(),
{
    assert(<LaunchSpec as vstd::std_specs::convert::FromSpec<[usize; 3]>>::from_spec(v)@.global =~= v@);
}

} // verus!
