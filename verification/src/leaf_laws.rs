//! What each op without ops inside asks of the driver, and what it hands on.

use crate::buffer_laws::law_recorded_command_captures_its_slots;
use crate::error::{Error, OpResult};
use crate::exec_ctx::{ExecMode, Walk};
use crate::image_ops::{ImageFill, ImageRead, ImageWrite};
use crate::input::{after_taking, found, pipe_of, slot_of, Input};
use crate::leaf::{leaf_after, work_records, Leaf, Style};
use crate::leaves::{
    AcquireDeviceView, AcquireDeviceViewRead, AcquireMappedView, AcquireMappedViewRead, Fill, FillDeviceUninit,
    FillMapped, FillMappedUninit, FillUsmUninit, LeafNode, ReadInto, ReleaseDeviceView, ReleaseMappedView, WriteDevice,
    WriteDeviceUninit, WriteMapped, WriteMappedUninit, WriteUsmUninit,
};
use crate::obj::{Class, Command, MemRef, Obj, Recorded, Reply};
use crate::store::{ParcelView, Pipe};
use vstd::prelude::*;

verus! {

/// The family of memory once it is written.
pub open spec fn written(c: Class) -> Class {
    if c == Class::DeviceUninit {
        Class::Device
    } else if c == Class::MappedUninit {
        Class::Mapped
    } else if c == Class::UsmUninit {
        Class::Usm
    } else {
        c
    }
}

/// The family of memory while the host sees it.
pub open spec fn mapped(c: Class) -> Class {
    if c == Class::Device {
        Class::DeviceView
    } else if c == Class::Mapped {
        Class::MappedView
    } else {
        c
    }
}

/// The family of memory once the host no longer sees it.
pub open spec fn unmapped(c: Class) -> Class {
    if c == Class::DeviceView {
        Class::Device
    } else if c == Class::MappedView {
        Class::Mapped
    } else {
        c
    }
}

/// How a blocking run makes sure of the work.
pub enum Done {
    /// The command itself blocks.
    Blocks,
    /// The run waits for its event.
    Waits,
    /// It does not: the output waits on the event.
    Stays,
}

/// Whether a run outside of command buffers did one piece of work: it took the single
/// value at `input`, sent one command behind exactly the events of that value, and laid
/// the same memory on `out`, where it waits on the command unless the work is done.
/// Nothing else changed.
pub open spec fn does(
    pre: Walk,
    post: Walk,
    mode: ExecMode,
    input: Input,
    out: Pipe,
    command: spec_fn(Obj) -> Command,
    done: Done,
    class: spec_fn(Class) -> Class,
    goes_home: bool,
) -> bool {
    &&& found(pre.w, pre.start, input) matches Ok(p)
    &&& p.value.len() == 1
    &&& pre.trace.len() < post.trace.len()
    &&& forall|k: int| 0 <= k < pre.trace.len() ==> pre.trace[k] == #[trigger] post.trace[k]
    &&& {
        let o = p.value[0];
        let x = post.trace[pre.trace.len() as int];
        let q = ParcelView {
            value: seq![Obj { class: class(o.class), ..o }],
            deps: if mode == ExecMode::Blocking && !(done is Stays) {
                Seq::empty()
            } else {
                seq![x.reply->Ok_0]
            },
            home: if goes_home {
                p.home
            } else {
                None
            },
        };
        &&& x.command == command(o)
        &&& x.waits == p.deps
        &&& x.queue == pre.queue
        &&& x.reply is Ok
        &&& if mode == ExecMode::Blocking && done is Waits {
            &&& post.trace.len() == pre.trace.len() + 2
            &&& post.trace.last().command == (Command::Wait { event: x.reply->Ok_0 })
            &&& post.trace.last().reply is Ok
        } else {
            post.trace.len() == pre.trace.len() + 1
        }
        &&& post.w == after_taking(pre.w, input).put(out.cell, q)
    }
}

/// A fill fills the whole of its buffer with its value.
pub proof fn law_fill_does_its_work(x: Fill, pre: Walk, post: Walk, mode: ExecMode)
    requires
        pre.cb is Off,
        x.runs(pre, post, mode, Ok(())),
    ensures
        does(
            pre,
            post,
            mode,
            x.buf,
            x.out,
            |o: Obj| Command::Fill { mem: o.mem_spec(), pattern: x.value, bytes: o.bytes },
            Done::Waits,
            |c: Class| written(c),
            true,
        ),
{
    let (r1, r2) = choose|r1: Reply, r2: Reply|
        (#[trigger] leaf_after(x.leaf(), pre, mode, r1, r2)) == (post, Ok::<(), Error>(()));
    let n = pre.trace.len() as int;
    assert(post.trace[n].reply == r1);
}

/// A fill of unwritten device memory fills the whole of it, and it counts as written from then on.
pub proof fn law_fill_device_uninit_does_its_work(x: FillDeviceUninit, pre: Walk, post: Walk, mode: ExecMode)
    requires
        pre.cb is Off,
        x.runs(pre, post, mode, Ok(())),
    ensures
        does(
            pre,
            post,
            mode,
            x.uninit,
            x.out,
            |o: Obj| Command::Fill { mem: o.mem_spec(), pattern: x.value, bytes: o.bytes },
            Done::Waits,
            |c: Class| written(c),
            false,
        ),
{
    let (r1, r2) = choose|r1: Reply, r2: Reply|
        (#[trigger] leaf_after(x.leaf(), pre, mode, r1, r2)) == (post, Ok::<(), Error>(()));
    let n = pre.trace.len() as int;
    assert(post.trace[n].reply == r1);
}

/// A fill of unwritten mapped memory fills the whole of it, and it counts as written from then on.
pub proof fn law_fill_mapped_uninit_does_its_work(x: FillMappedUninit, pre: Walk, post: Walk, mode: ExecMode)
    requires
        pre.cb is Off,
        x.runs(pre, post, mode, Ok(())),
    ensures
        does(
            pre,
            post,
            mode,
            x.uninit,
            x.out,
            |o: Obj| Command::Fill { mem: o.mem_spec(), pattern: x.value, bytes: o.bytes },
            Done::Waits,
            |c: Class| written(c),
            false,
        ),
{
    let (r1, r2) = choose|r1: Reply, r2: Reply|
        (#[trigger] leaf_after(x.leaf(), pre, mode, r1, r2)) == (post, Ok::<(), Error>(()));
    let n = pre.trace.len() as int;
    assert(post.trace[n].reply == r1);
}

/// A fill of mapped memory fills the whole of it.
pub proof fn law_fill_mapped_does_its_work(x: FillMapped, pre: Walk, post: Walk, mode: ExecMode)
    requires
        pre.cb is Off,
        x.runs(pre, post, mode, Ok(())),
    ensures
        does(
            pre,
            post,
            mode,
            x.buf,
            x.out,
            |o: Obj| Command::Fill { mem: o.mem_spec(), pattern: x.value, bytes: o.bytes },
            Done::Waits,
            |c: Class| written(c),
            true,
        ),
{
    let (r1, r2) = choose|r1: Reply, r2: Reply|
        (#[trigger] leaf_after(x.leaf(), pre, mode, r1, r2)) == (post, Ok::<(), Error>(()));
    let n = pre.trace.len() as int;
    assert(post.trace[n].reply == r1);
}

/// A write into unwritten device memory writes its data, and the memory counts as written from then on.
pub proof fn law_write_device_uninit_does_its_work(x: WriteDeviceUninit, pre: Walk, post: Walk, mode: ExecMode)
    requires
        pre.cb is Off,
        x.runs(pre, post, mode, Ok(())),
    ensures
        does(
            pre,
            post,
            mode,
            x.uninit,
            x.out,
            |o: Obj| Command::Write { mem: o.mem_spec(), src: x.src, blocking: mode == ExecMode::Blocking },
            Done::Blocks,
            |c: Class| written(c),
            false,
        ),
{
    let (r1, r2) = choose|r1: Reply, r2: Reply|
        (#[trigger] leaf_after(x.leaf(), pre, mode, r1, r2)) == (post, Ok::<(), Error>(()));
    let n = pre.trace.len() as int;
    assert(post.trace[n].reply == r1);
}

/// A write writes its data into its buffer.
pub proof fn law_write_device_does_its_work(x: WriteDevice, pre: Walk, post: Walk, mode: ExecMode)
    requires
        pre.cb is Off,
        x.runs(pre, post, mode, Ok(())),
    ensures
        does(
            pre,
            post,
            mode,
            x.buf,
            x.out,
            |o: Obj| Command::Write { mem: o.mem_spec(), src: x.src, blocking: mode == ExecMode::Blocking },
            Done::Blocks,
            |c: Class| written(c),
            true,
        ),
{
    let (r1, r2) = choose|r1: Reply, r2: Reply|
        (#[trigger] leaf_after(x.leaf(), pre, mode, r1, r2)) == (post, Ok::<(), Error>(()));
    let n = pre.trace.len() as int;
    assert(post.trace[n].reply == r1);
}

/// A write into unwritten mapped memory writes its data, and the memory counts as written from then on.
pub proof fn law_write_mapped_uninit_does_its_work(x: WriteMappedUninit, pre: Walk, post: Walk, mode: ExecMode)
    requires
        pre.cb is Off,
        x.runs(pre, post, mode, Ok(())),
    ensures
        does(
            pre,
            post,
            mode,
            x.uninit,
            x.out,
            |o: Obj| Command::Write { mem: o.mem_spec(), src: x.src, blocking: false },
            Done::Waits,
            |c: Class| written(c),
            false,
        ),
{
    let (r1, r2) = choose|r1: Reply, r2: Reply|
        (#[trigger] leaf_after(x.leaf(), pre, mode, r1, r2)) == (post, Ok::<(), Error>(()));
    let n = pre.trace.len() as int;
    assert(post.trace[n].reply == r1);
}

/// A write into mapped memory writes its data.
pub proof fn law_write_mapped_does_its_work(x: WriteMapped, pre: Walk, post: Walk, mode: ExecMode)
    requires
        pre.cb is Off,
        x.runs(pre, post, mode, Ok(())),
    ensures
        does(
            pre,
            post,
            mode,
            x.buf,
            x.out,
            |o: Obj| Command::Write { mem: o.mem_spec(), src: x.src, blocking: false },
            Done::Waits,
            |c: Class| written(c),
            true,
        ),
{
    let (r1, r2) = choose|r1: Reply, r2: Reply|
        (#[trigger] leaf_after(x.leaf(), pre, mode, r1, r2)) == (post, Ok::<(), Error>(()));
    let n = pre.trace.len() as int;
    assert(post.trace[n].reply == r1);
}

/// A read reads its buffer into its host data.
pub proof fn law_read_into_does_its_work(x: ReadInto, pre: Walk, post: Walk, mode: ExecMode)
    requires
        pre.cb is Off,
        x.runs(pre, post, mode, Ok(())),
    ensures
        does(
            pre,
            post,
            mode,
            x.buf,
            x.out,
            |o: Obj| Command::Read { mem: o.mem_spec(), dst: x.dst, blocking: mode == ExecMode::Blocking },
            Done::Blocks,
            |c: Class| c,
            true,
        ),
{
    let (r1, r2) = choose|r1: Reply, r2: Reply|
        (#[trigger] leaf_after(x.leaf(), pre, mode, r1, r2)) == (post, Ok::<(), Error>(()));
    let n = pre.trace.len() as int;
    assert(post.trace[n].reply == r1);
}

/// A device buffer is mapped for reading and writing.
pub proof fn law_acquire_device_view_does_its_work(x: AcquireDeviceView, pre: Walk, post: Walk, mode: ExecMode)
    requires
        pre.cb is Off,
        x.runs(pre, post, mode, Ok(())),
    ensures
        does(
            pre,
            post,
            mode,
            x.buf,
            x.out,
            |o: Obj| Command::MapMem { mem: o.mem_spec(), writable: true },
            Done::Stays,
            |c: Class| mapped(c),
            false,
        ),
{
    let (r1, r2) = choose|r1: Reply, r2: Reply|
        (#[trigger] leaf_after(x.leaf(), pre, mode, r1, r2)) == (post, Ok::<(), Error>(()));
    let n = pre.trace.len() as int;
    assert(post.trace[n].reply == r1);
}

/// A device buffer is mapped for reading alone.
pub proof fn law_acquire_device_view_read_does_its_work(x: AcquireDeviceViewRead, pre: Walk, post: Walk, mode: ExecMode)
    requires
        pre.cb is Off,
        x.runs(pre, post, mode, Ok(())),
    ensures
        does(
            pre,
            post,
            mode,
            x.buf,
            x.out,
            |o: Obj| Command::MapMem { mem: o.mem_spec(), writable: false },
            Done::Stays,
            |c: Class| mapped(c),
            false,
        ),
{
    let (r1, r2) = choose|r1: Reply, r2: Reply|
        (#[trigger] leaf_after(x.leaf(), pre, mode, r1, r2)) == (post, Ok::<(), Error>(()));
    let n = pre.trace.len() as int;
    assert(post.trace[n].reply == r1);
}

/// Mapped memory is mapped for reading and writing.
pub proof fn law_acquire_mapped_view_does_its_work(x: AcquireMappedView, pre: Walk, post: Walk, mode: ExecMode)
    requires
        pre.cb is Off,
        x.runs(pre, post, mode, Ok(())),
    ensures
        does(
            pre,
            post,
            mode,
            x.buf,
            x.out,
            |o: Obj| Command::MapMem { mem: o.mem_spec(), writable: true },
            Done::Stays,
            |c: Class| mapped(c),
            false,
        ),
{
    let (r1, r2) = choose|r1: Reply, r2: Reply|
        (#[trigger] leaf_after(x.leaf(), pre, mode, r1, r2)) == (post, Ok::<(), Error>(()));
    let n = pre.trace.len() as int;
    assert(post.trace[n].reply == r1);
}

/// Mapped memory is mapped for reading alone.
pub proof fn law_acquire_mapped_view_read_does_its_work(x: AcquireMappedViewRead, pre: Walk, post: Walk, mode: ExecMode)
    requires
        pre.cb is Off,
        x.runs(pre, post, mode, Ok(())),
    ensures
        does(
            pre,
            post,
            mode,
            x.buf,
            x.out,
            |o: Obj| Command::MapMem { mem: o.mem_spec(), writable: false },
            Done::Stays,
            |c: Class| mapped(c),
            false,
        ),
{
    let (r1, r2) = choose|r1: Reply, r2: Reply|
        (#[trigger] leaf_after(x.leaf(), pre, mode, r1, r2)) == (post, Ok::<(), Error>(()));
    let n = pre.trace.len() as int;
    assert(post.trace[n].reply == r1);
}

/// A device buffer that was mapped is unmapped.
pub proof fn law_release_device_view_does_its_work(x: ReleaseDeviceView, pre: Walk, post: Walk, mode: ExecMode)
    requires
        pre.cb is Off,
        x.runs(pre, post, mode, Ok(())),
    ensures
        does(
            pre,
            post,
            mode,
            x.view,
            x.out,
            |o: Obj| Command::UnmapMem { mem: o.mem_spec() },
            Done::Stays,
            |c: Class| unmapped(c),
            false,
        ),
{
    let (r1, r2) = choose|r1: Reply, r2: Reply|
        (#[trigger] leaf_after(x.leaf(), pre, mode, r1, r2)) == (post, Ok::<(), Error>(()));
    let n = pre.trace.len() as int;
    assert(post.trace[n].reply == r1);
}

/// Mapped memory that was mapped is unmapped.
pub proof fn law_release_mapped_view_does_its_work(x: ReleaseMappedView, pre: Walk, post: Walk, mode: ExecMode)
    requires
        pre.cb is Off,
        x.runs(pre, post, mode, Ok(())),
    ensures
        does(
            pre,
            post,
            mode,
            x.view,
            x.out,
            |o: Obj| Command::UnmapMem { mem: o.mem_spec() },
            Done::Stays,
            |c: Class| unmapped(c),
            false,
        ),
{
    let (r1, r2) = choose|r1: Reply, r2: Reply|
        (#[trigger] leaf_after(x.leaf(), pre, mode, r1, r2)) == (post, Ok::<(), Error>(()));
    let n = pre.trace.len() as int;
    assert(post.trace[n].reply == r1);
}

/// An image write writes its data into its region.
pub proof fn law_image_write_does_its_work(x: ImageWrite, pre: Walk, post: Walk, mode: ExecMode)
    requires
        pre.cb is Off,
        x.runs(pre, post, mode, Ok(())),
    ensures
        does(
            pre,
            post,
            mode,
            x.img,
            x.out,
            |o: Obj| Command::WriteImage { mem: o.mem_spec(), region: x.region, src: x.data, blocking: mode == ExecMode::Blocking },
            Done::Blocks,
            |c: Class| c,
            true,
        ),
{
    let (r1, r2) = choose|r1: Reply, r2: Reply|
        (#[trigger] leaf_after(x.leaf(), pre, mode, r1, r2)) == (post, Ok::<(), Error>(()));
    let n = pre.trace.len() as int;
    assert(post.trace[n].reply == r1);
}

/// An image read reads its region into its host data.
pub proof fn law_image_read_does_its_work(x: ImageRead, pre: Walk, post: Walk, mode: ExecMode)
    requires
        pre.cb is Off,
        x.runs(pre, post, mode, Ok(())),
    ensures
        does(
            pre,
            post,
            mode,
            x.img,
            x.out,
            |o: Obj| Command::ReadImage { mem: o.mem_spec(), region: x.region, dst: x.dst, blocking: mode == ExecMode::Blocking },
            Done::Blocks,
            |c: Class| c,
            true,
        ),
{
    let (r1, r2) = choose|r1: Reply, r2: Reply|
        (#[trigger] leaf_after(x.leaf(), pre, mode, r1, r2)) == (post, Ok::<(), Error>(()));
    let n = pre.trace.len() as int;
    assert(post.trace[n].reply == r1);
}

/// An image fill fills its region with its pattern.
pub proof fn law_image_fill_does_its_work(x: ImageFill, pre: Walk, post: Walk, mode: ExecMode)
    requires
        pre.cb is Off,
        x.runs(pre, post, mode, Ok(())),
    ensures
        does(
            pre,
            post,
            mode,
            x.img,
            x.out,
            |o: Obj| Command::FillImage { mem: o.mem_spec(), region: x.region, pattern: x.pattern },
            Done::Stays,
            |c: Class| c,
            true,
        ),
{
    let (r1, r2) = choose|r1: Reply, r2: Reply|
        (#[trigger] leaf_after(x.leaf(), pre, mode, r1, r2)) == (post, Ok::<(), Error>(()));
    let n = pre.trace.len() as int;
    assert(post.trace[n].reply == r1);
}

/// A fill of unwritten shared memory is done by the host at once: what the memory waits
/// on stays as it was.
pub proof fn law_fill_usm_uninit_is_done_by_the_host(x: FillUsmUninit, pre: Walk, post: Walk, mode: ExecMode)
    requires
        x.runs(pre, post, mode, Ok(())),
    ensures
        found(pre.w, pre.start, x.uninit) matches Ok(p) && p.value.len() == 1 && post.trace.len() == pre.trace.len() + 1
            && post.trace.drop_last() == pre.trace && post.trace.last().command == (Command::HostFill {
            mem: p.value[0].mem_spec(),
            pattern: x.value,
            bytes: p.value[0].bytes,
        }) && post.trace.last().reply is Ok && post.w == after_taking(pre.w, x.uninit).put(
            x.out.cell,
            ParcelView {
                value: seq![Obj { class: written(p.value[0].class), ..p.value[0] }],
                deps: p.deps,
                home: None,
            },
        ),
{
    let (r1, r2) = choose|r1: Reply, r2: Reply|
        (#[trigger] leaf_after(x.leaf(), pre, mode, r1, r2)) == (post, Ok::<(), Error>(()));
    assert(post.trace.drop_last() =~= pre.trace);
}

/// A write into unwritten shared memory is done by the host at once, and only where the
/// data has as many elements as the memory.
pub proof fn law_write_usm_uninit_is_done_by_the_host(
    x: WriteUsmUninit,
    pre: Walk,
    post: Walk,
    mode: ExecMode,
    res: OpResult<()>,
)
    requires
        x.runs(pre, post, mode, res),
    ensures
        found(pre.w, pre.start, x.uninit) matches Ok(p) ==> (p.value.len() == 1 && p.value[0].len != x.src.len ==> res
            == Err::<(), Error>(Error::LengthMismatch { src: x.src.len, dst: p.value[0].len }) && post.trace
            == pre.trace),
        res is Ok ==> (found(pre.w, pre.start, x.uninit) matches Ok(p) && p.value.len() == 1 && p.value[0].len
            == x.src.len && post.trace.len() == pre.trace.len() + 1 && post.trace.drop_last() == pre.trace
            && post.trace.last().command == (Command::HostWrite { mem: p.value[0].mem_spec(), src: x.src })
            && post.trace.last().reply is Ok && post.w == after_taking(pre.w, x.uninit).put(
            x.out.cell,
            ParcelView {
                value: seq![Obj { class: written(p.value[0].class), ..p.value[0] }],
                deps: p.deps,
                home: None,
            },
        )),
{
    let (r1, r2) = choose|r1: Reply, r2: Reply| (#[trigger] leaf_after(x.leaf(), pre, mode, r1, r2)) == (post, res);
    if res is Ok {
        assert(post.trace.drop_last() =~= pre.trace);
    }
}

/// Memory is named by its handle: shared memory as a pointer, all other as an object.
pub proof fn law_memory_is_named_by_its_handle(o: Obj)
    ensures
        o.class == Class::Device || o.class == Class::DeviceUninit || o.class == Class::DeviceView || o.class
            == Class::Image ==> o.mem_spec() == MemRef::Buffer(o.id),
        o.class == Class::Mapped || o.class == Class::MappedUninit || o.class == Class::MappedView || o.class
            == Class::Usm || o.class == Class::UsmUninit ==> o.mem_spec() == MemRef::Svm(o.id),
{
}

/// An op that is refused by the driver is an error of the run with the driver's code, and
/// leaves nothing on its output.
pub proof fn law_refused_command_is_the_error(l: Leaf, pre: Walk, mode: ExecMode, c: i32, r2: Reply)
    requires
        pre.cb is Off,
        found(pre.w, pre.start, l.input) is Ok,
        found(pre.w, pre.start, l.input)->Ok_0.value.len() == 1,
        l.style != Style::Host,
    ensures
        leaf_after(l, pre, mode, Err(c), r2).1 == Err::<(), Error>(Error::OpenCl(c)),
        leaf_after(l, pre, mode, Err(c), r2).0.w == after_taking(pre.w, l.input),
        leaf_after(l, pre, mode, Err(c), r2).0.trace.len() == pre.trace.len() + 1,
{
}

/// Whether what is recorded of a command is that command.
pub open spec fn records(what: Recorded, c: Command) -> bool {
    match what {
        Recorded::Fill { mem, pattern, offset, bytes } => offset == 0 && c == (Command::Fill { mem, pattern, bytes }),
        Recorded::Copy { src, dst, bytes } => c == (Command::Copy { src, dst, bytes }),
        Recorded::FillImage { mem, pattern, region } => c == (Command::FillImage { mem, region, pattern }),
        Recorded::CopyImage { src, dst, region } => c == (Command::CopyImage { src, dst, region }),
        Recorded::Kernel { kernel, dims, global, with_local, local } => c == (Command::RunKernel {
            kernel,
            dims,
            global,
            with_local,
            local,
        }),
    }
}

/// Whether a run inside a command buffer that is built did one piece of work: it took the
/// single value at `input`, recorded `command` into the command buffer that is built, and
/// laid the same memory on `out`, where it waits on nothing but that command. What the
/// value waited on, the command buffer waits on.
pub open spec fn records_work(
    pre: Walk,
    post: Walk,
    input: Input,
    out: Pipe,
    command: spec_fn(Obj) -> Command,
    class: spec_fn(Class) -> Class,
    goes_home: bool,
) -> bool {
    &&& found(pre.w, pre.start, input) matches Ok(p)
    &&& p.value.len() == 1
    &&& post.trace.len() == pre.trace.len() + 1
    &&& post.trace.drop_last() == pre.trace
    &&& post.trace.last().command matches Command::Record { builder, what }
    &&& builder == pre.cb->Build_builder.handle
    &&& records(what, command(p.value[0]))
    &&& post.trace.last().reply matches Ok(sp) ==> post.sp_of(Some(out.cell)) == seq![sp]
    &&& post.cb.ext() == pre.cb.ext() + p.deps
    &&& post.w == after_taking(pre.w, input).put(
        out.cell,
        ParcelView {
            value: seq![Obj { class: class(p.value[0].class), ..p.value[0] }],
            deps: Seq::empty(),
            home: if goes_home {
                p.home
            } else {
                None
            },
        },
    )
}

/// What a command buffer holds of a fill is the fill.
pub proof fn law_fill_is_recorded_as_it_is_sent(x: Fill, pre: Walk, post: Walk, mode: ExecMode)
    requires
        pre.cb is Build,
        x.runs(pre, post, mode, Ok(())),
    ensures
        records_work(
            pre,
            post,
            x.buf,
            x.out,
            |o: Obj| Command::Fill { mem: o.mem_spec(), pattern: x.value, bytes: o.bytes },
            |c: Class| written(c),
            true,
        ),
{
    let (r1, r2) = choose|r1: Reply, r2: Reply|
        (#[trigger] leaf_after(x.leaf(), pre, mode, r1, r2)) == (post, Ok::<(), Error>(()));
    assert(post.trace.drop_last() =~= pre.trace);
}

/// The same of a fill of unwritten device memory.
pub proof fn law_fill_device_uninit_is_recorded_as_it_is_sent(x: FillDeviceUninit, pre: Walk, post: Walk, mode: ExecMode)
    requires
        pre.cb is Build,
        x.runs(pre, post, mode, Ok(())),
    ensures
        records_work(
            pre,
            post,
            x.uninit,
            x.out,
            |o: Obj| Command::Fill { mem: o.mem_spec(), pattern: x.value, bytes: o.bytes },
            |c: Class| written(c),
            false,
        ),
{
    let (r1, r2) = choose|r1: Reply, r2: Reply|
        (#[trigger] leaf_after(x.leaf(), pre, mode, r1, r2)) == (post, Ok::<(), Error>(()));
    assert(post.trace.drop_last() =~= pre.trace);
}

/// The same of a fill of unwritten mapped memory.
pub proof fn law_fill_mapped_uninit_is_recorded_as_it_is_sent(x: FillMappedUninit, pre: Walk, post: Walk, mode: ExecMode)
    requires
        pre.cb is Build,
        x.runs(pre, post, mode, Ok(())),
    ensures
        records_work(
            pre,
            post,
            x.uninit,
            x.out,
            |o: Obj| Command::Fill { mem: o.mem_spec(), pattern: x.value, bytes: o.bytes },
            |c: Class| written(c),
            false,
        ),
{
    let (r1, r2) = choose|r1: Reply, r2: Reply|
        (#[trigger] leaf_after(x.leaf(), pre, mode, r1, r2)) == (post, Ok::<(), Error>(()));
    assert(post.trace.drop_last() =~= pre.trace);
}

/// The same of a fill of mapped memory.
pub proof fn law_fill_mapped_is_recorded_as_it_is_sent(x: FillMapped, pre: Walk, post: Walk, mode: ExecMode)
    requires
        pre.cb is Build,
        x.runs(pre, post, mode, Ok(())),
    ensures
        records_work(
            pre,
            post,
            x.buf,
            x.out,
            |o: Obj| Command::Fill { mem: o.mem_spec(), pattern: x.value, bytes: o.bytes },
            |c: Class| written(c),
            true,
        ),
{
    let (r1, r2) = choose|r1: Reply, r2: Reply|
        (#[trigger] leaf_after(x.leaf(), pre, mode, r1, r2)) == (post, Ok::<(), Error>(()));
    assert(post.trace.drop_last() =~= pre.trace);
}

/// The same of an image fill.
pub proof fn law_image_fill_is_recorded_as_it_is_sent(x: ImageFill, pre: Walk, post: Walk, mode: ExecMode)
    requires
        pre.cb is Build,
        x.runs(pre, post, mode, Ok(())),
    ensures
        records_work(
            pre,
            post,
            x.img,
            x.out,
            |o: Obj| Command::FillImage { mem: o.mem_spec(), region: x.region, pattern: x.pattern },
            |c: Class| c,
            true,
        ),
{
    let (r1, r2) = choose|r1: Reply, r2: Reply|
        (#[trigger] leaf_after(x.leaf(), pre, mode, r1, r2)) == (post, Ok::<(), Error>(()));
    assert(post.trace.drop_last() =~= pre.trace);
}

/// Whether what a run recorded last waits on the sync points of an input's pipe, and the
/// command buffer captured every slot that the input comes from, which the output then comes
/// from too.
pub open spec fn recorded_behind(pre: Walk, post: Walk, input: Input, out: Pipe) -> bool {
    &&& post.trace.len() > pre.trace.len()
    &&& post.trace.last().waits == pre.sp_of(pipe_of(pre.w, input))
    &&& post.cb is Build
    &&& forall|y: u64|
        slot_of(input) == Some(y) || pre.reach_of(pipe_of(pre.w, input)).contains(y)
            ==> #[trigger] post.cb->Build_builder.slots.contains(y) && post.reach_of(Some(out.cell)).contains(y)
}

proof fn lemma_recorded_behind(l: Leaf, pre: Walk, mode: ExecMode, r1: Reply, r2: Reply)
    requires
        pre.cb is Build,
        l.traced,
        work_records(l.work),
        leaf_after(l, pre, mode, r1, r2).1 is Ok,
    ensures
        recorded_behind(pre, leaf_after(l, pre, mode, r1, r2).0, l.input, l.out),
{
    let post = leaf_after(l, pre, mode, r1, r2).0;
    let p = found(pre.w, pre.start, l.input)->Ok_0;
    let s = pre.at(after_taking(pre.w, l.input));
    let slot = slot_of(l.input);
    let pipe = pipe_of(pre.w, l.input);
    assert forall|y: u64| slot == Some(y) || pre.reach_of(pipe).contains(y) implies #[trigger] post.cb->Build_builder.slots.contains(
        y,
    ) && post.reach_of(Some(l.out.cell)).contains(y) by {
        law_recorded_command_captures_its_slots(s, p.deps, slot, pipe, l.out.cell, y);
    }
}

/// A recorded fill waits on what was recorded on its buffer, and its slots are captured.
pub proof fn law_recorded_fill_waits_on_its_input(x: Fill, pre: Walk, post: Walk, mode: ExecMode)
    requires
        pre.cb is Build,
        x.runs(pre, post, mode, Ok(())),
    ensures
        recorded_behind(pre, post, x.buf, x.out),
{
    let (r1, r2) = choose|r1: Reply, r2: Reply|
        (#[trigger] leaf_after(x.leaf(), pre, mode, r1, r2)) == (post, Ok::<(), Error>(()));
    lemma_recorded_behind(x.leaf(), pre, mode, r1, r2);
}

/// The same of a recorded fill of mapped memory.
pub proof fn law_recorded_mapped_fill_waits_on_its_input(x: FillMapped, pre: Walk, post: Walk, mode: ExecMode)
    requires
        pre.cb is Build,
        x.runs(pre, post, mode, Ok(())),
    ensures
        recorded_behind(pre, post, x.buf, x.out),
{
    let (r1, r2) = choose|r1: Reply, r2: Reply|
        (#[trigger] leaf_after(x.leaf(), pre, mode, r1, r2)) == (post, Ok::<(), Error>(()));
    lemma_recorded_behind(x.leaf(), pre, mode, r1, r2);
}

/// The same of a recorded fill of an image.
pub proof fn law_recorded_image_fill_waits_on_its_input(x: ImageFill, pre: Walk, post: Walk, mode: ExecMode)
    requires
        pre.cb is Build,
        x.runs(pre, post, mode, Ok(())),
    ensures
        recorded_behind(pre, post, x.img, x.out),
{
    let (r1, r2) = choose|r1: Reply, r2: Reply|
        (#[trigger] leaf_after(x.leaf(), pre, mode, r1, r2)) == (post, Ok::<(), Error>(()));
    lemma_recorded_behind(x.leaf(), pre, mode, r1, r2);
}

} // verus!
