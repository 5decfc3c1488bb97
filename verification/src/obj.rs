//! Handles to memory objects and the commands that act on them.

use crate::launch::ArgValue;
use vstd::prelude::*;

verus! {

/// A memory object as a command names it.
#[derive(Clone, Copy, Debug, PartialEq, Eq, Structural)]
pub enum MemRef {
    /// A `cl_mem` object.
    Buffer(u64),
    /// A shared-virtual-memory pointer.
    Svm(u64),
}

/// A memory object and its size in bytes.
#[derive(Clone, Copy, Debug, PartialEq, Eq, Structural)]
pub struct BufHandle {
    pub mem: MemRef,
    pub byte_len: usize,
}

/// Three sizes: width, height or layers, depth or layers.
#[derive(Clone, Copy, Debug, PartialEq, Eq, Structural)]
pub struct Extent {
    pub x: usize,
    pub y: usize,
    pub z: usize,
}

/// The family that a value belongs to.
#[derive(Clone, Copy, Debug, PartialEq, Eq, Structural)]
pub enum Class {
    Device,
    DeviceUninit,
    Mapped,
    MappedUninit,
    Usm,
    UsmUninit,
    Image,
    DeviceView,
    MappedView,
    Host,
    /// A host value: `id` holds its bits.
    Plain,
}

/// A value that flows along the graph, by its handle.
#[derive(Clone, Copy, Debug, PartialEq, Eq, Structural)]
pub struct Obj {
    /// The family.
    pub class: Class,
    /// The handle of the memory behind it.
    pub id: u64,
    /// The context that owns it.
    pub ctx: u64,
    /// The number of elements per dimension.
    pub extent: Extent,
    /// The number of elements.
    pub len: usize,
    /// The size in bytes.
    pub bytes: usize,
    /// Whether it is a shared, read-only handle that may be copied.
    pub shared: bool,
}

/// The family of the same memory once its contents are written.
pub open spec fn init_class(c: Class) -> Class {
    match c {
        Class::DeviceUninit => Class::Device,
        Class::MappedUninit => Class::Mapped,
        Class::UsmUninit => Class::Usm,
        other => other,
    }
}

/// The family of the same memory once its contents count as unwritten.
pub open spec fn uninit_class(c: Class) -> Class {
    match c {
        Class::Device => Class::DeviceUninit,
        Class::Mapped => Class::MappedUninit,
        Class::Usm => Class::UsmUninit,
        other => other,
    }
}

/// Whether memory of the family is shared between host and device.
pub open spec fn is_svm(c: Class) -> bool {
    c == Class::Mapped || c == Class::MappedUninit || c == Class::Usm || c == Class::UsmUninit
}

/// Whether memory of the family is shared between host and device.
pub fn shares_memory(c: Class) -> (r: bool)
    ensures
        r == is_svm(c),
{
    matches!(c, Class::Mapped | Class::MappedUninit | Class::Usm | Class::UsmUninit)
}

/// Whether the family holds memory whose contents are not written yet.
pub open spec fn is_uninit(c: Class) -> bool {
    c == Class::DeviceUninit || c == Class::MappedUninit || c == Class::UsmUninit
}

/// Writing memory and then discarding the contents gives the family back.
pub proof fn law_uninit_round_trip(c: Class)
    requires
        is_uninit(c),
    ensures
        uninit_class(init_class(c)) == c,
        !is_uninit(init_class(c)),
{
}

impl Obj {
    /// The memory as commands name it.
    pub open spec fn mem_spec(self) -> MemRef {
        match self.class {
            Class::Mapped | Class::MappedUninit | Class::Usm | Class::UsmUninit | Class::MappedView => MemRef::Svm(
                self.id,
            ),
            _ => MemRef::Buffer(self.id),
        }
    }

    pub fn mem(&self) -> (r: MemRef)
        ensures
            r == self.mem_spec(),
    {
        match self.class {
            Class::Mapped | Class::MappedUninit | Class::Usm | Class::UsmUninit | Class::MappedView => MemRef::Svm(
                self.id,
            ),
            _ => MemRef::Buffer(self.id),
        }
    }

    /// The same memory in another family.
    pub open spec fn as_class(self, class: Class) -> Obj {
        Obj { class, ..self }
    }

    pub fn with_class(&self, class: Class) -> (r: Obj)
        ensures
            r == self.as_class(class),
    {
        Obj {
            class,
            id: self.id,
            ctx: self.ctx,
            extent: self.extent,
            len: self.len,
            bytes: self.bytes,
            shared: self.shared,
        }
    }

    /// The same memory as a shared, read-only handle.
    pub open spec fn as_shared(self) -> Obj {
        Obj { shared: true, ..self }
    }

    pub fn to_shared(&self) -> (r: Obj)
        ensures
            r == self.as_shared(),
    {
        Obj {
            class: self.class,
            id: self.id,
            ctx: self.ctx,
            extent: self.extent,
            len: self.len,
            bytes: self.bytes,
            shared: true,
        }
    }

    /// The same memory, its contents written.
    pub fn assume_init(&self) -> (r: Obj)
        ensures
            r == self.as_class(init_class(self.class)),
    {
        let class = match self.class {
            Class::DeviceUninit => Class::Device,
            Class::MappedUninit => Class::Mapped,
            Class::UsmUninit => Class::Usm,
            other => other,
        };
        self.with_class(class)
    }

    /// The same memory, its contents discarded.
    pub fn from_init(&self) -> (r: Obj)
        ensures
            r == self.as_class(uninit_class(self.class)),
    {
        let class = match self.class {
            Class::Device => Class::DeviceUninit,
            Class::Mapped => Class::MappedUninit,
            Class::Usm => Class::UsmUninit,
            other => other,
        };
        self.with_class(class)
    }
}

/// Host data of the application, by its handle.
#[derive(Clone, Copy, Debug, PartialEq, Eq, Structural)]
pub struct HostRef {
    pub id: u64,
    /// The number of elements.
    pub len: usize,
    /// The size in bytes.
    pub bytes: usize,
}

/// Where a lent value goes back to.
#[derive(Clone, Copy, Debug, PartialEq, Eq, Structural)]
pub enum Home {
    /// The cell of a concrete input or of an upload.
    Cell(u64),
    /// A slot.
    Slot(u64),
    /// The cell of a concrete input that held unwritten memory: the value goes
    /// back as unwritten memory.
    Downgrade(u64),
}

/// How a fresh buffer gets its contents.
#[derive(Clone, Copy, Debug, PartialEq, Eq, Structural)]
pub enum Contents {
    Unwritten,
    Zero,
    From(HostRef),
}

/// The shape and format of an image.
#[derive(Clone, Copy, Debug, PartialEq, Eq, Structural)]
pub struct ImageDesc {
    pub image_type: u32,
    pub width: usize,
    pub height: usize,
    pub depth: usize,
    pub array_size: usize,
    /// The buffer that the image shares its storage with; 0 for none.
    pub buffer: u64,
    pub channel_order: u32,
    pub channel_type: u32,
    pub flags: u64,
}

/// A command recorded into a command buffer.
#[derive(Clone, Copy, Debug, PartialEq, Eq, Structural)]
pub enum Recorded {
    Fill { mem: MemRef, pattern: HostRef, offset: usize, bytes: usize },
    Copy { src: MemRef, dst: MemRef, bytes: usize },
    FillImage { mem: MemRef, pattern: HostRef, region: Extent },
    CopyImage { src: MemRef, dst: MemRef, region: Extent },
    /// A kernel over a grid, with the arguments that are set on it.
    Kernel { kernel: u64, dims: u8, global: Extent, with_local: bool, local: Extent },
}

/// A request to the driver.
#[allow(inconsistent_fields)]
#[derive(Clone, Copy, Debug, PartialEq, Eq, Structural)]
pub enum Command {
    /// The out-of-order queue of a device; the reply is its handle.
    Queue { device: u64 },
    /// Forget the cached queue of a device.
    InvalidateQueue { device: u64 },
    /// Flush every out-of-order queue.
    Flush,
    /// The property bits of the queue.
    QueueProperties,
    /// A fresh user event; the reply is its handle.
    UserEvent,
    /// Set the status of a user event.
    Complete { event: u64, status: i32 },
    /// Block until an event has finished.
    Wait { event: u64 },
    /// A marker; the reply is its event.
    Marker,
    /// Fresh memory of `len` elements, created with `flags`; the reply is its
    /// handle.
    Alloc { class: Class, len: usize, bytes: usize, flags: u64, contents: Contents },
    /// Let go of memory that nothing refers to any more.
    Release { mem: MemRef },
    /// A fresh host vector of `len` elements; the reply is its handle.
    HostAlloc { len: usize, bytes: usize },
    /// Fill memory with a pattern.
    Fill { mem: MemRef, pattern: HostRef, bytes: usize },
    /// Write host data into memory.
    Write { mem: MemRef, src: HostRef, blocking: bool },
    /// Read memory into host data.
    Read { mem: MemRef, dst: u64, blocking: bool },
    /// Copy memory to memory.
    Copy { src: MemRef, dst: MemRef, bytes: usize },
    /// Move memory to the device of a queue.
    Migrate { mem: MemRef, queue: u64 },
    /// Fill shared memory from the host.
    HostFill { mem: MemRef, pattern: HostRef, bytes: usize },
    /// Write shared memory from the host.
    HostWrite { mem: MemRef, src: HostRef },
    /// Map memory for the host.
    MapMem { mem: MemRef, writable: bool },
    /// Unmap memory.
    UnmapMem { mem: MemRef },
    /// A fresh image; the reply is its handle.
    CreateImage { desc: ImageDesc },
    WriteImage { mem: MemRef, region: Extent, src: HostRef, blocking: bool },
    ReadImage { mem: MemRef, region: Extent, dst: u64, blocking: bool },
    CopyImage { src: MemRef, dst: MemRef, region: Extent },
    FillImage { mem: MemRef, region: Extent, pattern: HostRef },
    /// Open a command buffer; the reply is the builder's handle.
    OpenCb { queue: u64 },
    /// Record a command; the reply is its sync point.
    Record { builder: u64, what: Recorded },
    /// Finish a command buffer; the reply is its handle.
    FinalizeCb { builder: u64 },
    /// Run a finished command buffer; the reply is its event.
    EnqueueCb { cb: u64 },
    /// Start the host worker of a seam; the reply is its handle. Of the events
    /// it waits on, the first `sources` belong to the value, the rest to its
    /// mapping.
    Worker { closure: u64, with_context: bool, fire: u64, proceed: u64, sources: usize },
    /// Wait for a host worker to end.
    Join { worker: u64 },
    /// Report the profile of an event to a callback.
    ProfilingCallback { event: u64, callback: u64 },
    /// The program that holds the fill kernels; the reply is its handle.
    FillProgram,
    /// A kernel of a program by its pattern width, 0 for the byte-wise one.
    FillKernel { program: u64, width: usize },
    /// Run a fill kernel with the pattern as an argument.
    RunFill { kernel: u64, data: MemRef, pattern: HostRef, count: u32, global: usize },
    /// Run the byte-wise fill kernel with the pattern in a buffer.
    RunFillBytes { kernel: u64, data: MemRef, pattern: u64, width: u32, count: u32, global: usize },
    /// Set an argument of a kernel.
    SetArg { kernel: u64, index: usize, value: ArgValue },
    /// Run a kernel over a grid of `dims` dimensions; `local` counts where
    /// `with_local` says so.
    RunKernel { kernel: u64, dims: u8, global: Extent, with_local: bool, local: Extent },
    /// Map a range of a memory object.
    MapBuffer { mem: u64, blocking: bool, flags: u64, offset: usize, size: usize },
    /// Where the host finds the range that the map with this event maps.
    MappedAt { event: u64 },
    /// Unmap a memory object that was mapped at `host`.
    UnmapObject { mem: u64, host: u64 },
    /// Map a range of shared memory.
    SvmMap { ptr: u64, blocking: bool, flags: u64, size: usize },
    /// Unmap shared memory.
    SvmUnmap { ptr: u64 },
}

/// What the driver answers: a handle, or a status code.
pub type Reply = core::result::Result<u64, i32>;

/// One command, the queue that it was for, what it waited on, and the driver's
/// answer.
pub struct Issued {
    pub queue: u64,
    pub command: Command,
    pub waits: Seq<u64>,
    pub reply: Reply,
}

} // verus!
