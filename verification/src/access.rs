//! Access markers: what a kernel may do with a memory object.

use vstd::prelude::*;

verus! {

/// `CL_MEM_READ_WRITE`.
pub const MEM_READ_WRITE: u64 = 1;

/// `CL_MEM_WRITE_ONLY`.
pub const MEM_WRITE_ONLY: u64 = 2;

/// `CL_MEM_READ_ONLY`.
pub const MEM_READ_ONLY: u64 = 4;

/// Kernels only read the object.
#[derive(Clone, Copy, Debug, PartialEq, Eq, Structural)]
pub struct ReadOnly;

/// Kernels only write the object.
#[derive(Clone, Copy, Debug, PartialEq, Eq, Structural)]
pub struct WriteOnly;

/// Kernels read and write the object.
#[derive(Clone, Copy, Debug, PartialEq, Eq, Structural)]
pub struct ReadWrite;

/// An access marker.
pub trait KernelAccess: Sized {
    /// Whether kernels may read the object.
    spec fn reads() -> bool;

    /// Whether kernels may write the object.
    spec fn writes() -> bool;

    /// The creation flags of the object.
    fn kernel_flags() -> (r: u64)
        ensures
            r == access_flags(Self::reads(), Self::writes()),
    ;

    /// Whether an upload must be written again before each replay: a kernel may
    /// have changed the object.
    fn reseed_on_replay() -> (r: bool)
        ensures
            r == Self::writes(),
    ;
}

/// The creation flags that stand for the two access rights.
pub open spec fn access_flags(reads: bool, writes: bool) -> u64 {
    if reads && writes {
        MEM_READ_WRITE
    } else if writes {
        MEM_WRITE_ONLY
    } else {
        MEM_READ_ONLY
    }
}

/// Markers of objects that a kernel may read.
pub trait KernelReadable: KernelAccess {

}

/// Markers of objects that a kernel may write.
pub trait KernelWritable: KernelAccess {

}

impl KernelAccess for ReadOnly {
    open spec fn reads() -> bool {
        true
    }

    open spec fn writes() -> bool {
        false
    }

    fn kernel_flags() -> (r: u64) {
        MEM_READ_ONLY
    }

    fn reseed_on_replay() -> (r: bool) {
        false
    }
}

impl KernelReadable for ReadOnly {

}

impl KernelAccess for WriteOnly {
    open spec fn reads() -> bool {
        false
    }

    open spec fn writes() -> bool {
        true
    }

    fn kernel_flags() -> (r: u64) {
        MEM_WRITE_ONLY
    }

    fn reseed_on_replay() -> (r: bool) {
        true
    }
}

impl KernelWritable for WriteOnly {

}

impl KernelAccess for ReadWrite {
    open spec fn reads() -> bool {
        true
    }

    open spec fn writes() -> bool {
        true
    }

    fn kernel_flags() -> (r: u64) {
        MEM_READ_WRITE
    }

    fn reseed_on_replay() -> (r: bool) {
        true
    }
}

impl KernelReadable for ReadWrite {

}

impl KernelWritable for ReadWrite {

}

} // verus!
