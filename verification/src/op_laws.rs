//! What copies, transfers, downloads, uploads and allocations ask of the driver, and what
//! they hand on.

use crate::access::{access_flags, KernelAccess, ReadOnly, ReadWrite, WriteOnly};
use crate::copies::{copy_after, CopyTo2};
use crate::entries::{Forward, Lift, Value};
use crate::error::{Error, OpResult};
use crate::exec_ctx::{ExecMode, Walk};
use crate::image_ops::{image_download_after, image_upload_after, ImageCopy, ImageDownloadEager, ImageUploadEager};
use crate::input::{after_taking, found, Input};
use crate::leaf_laws::{records, written};
use crate::leaves::{download_after, transfer_after, DeviceTarget, Download, LeafNode, TransferToDevice};
use crate::obj::{Class, Command, Contents, Extent, Home, Issued, MemRef, Obj, Reply};
use crate::seeds::{
    seed_after, AllocZero, DeviceAllocUninit, MappedAllocUninit, ScalarUpload, Seed, SeedKind, Upload,
    UsmAllocUninit, UsmSlice,
};
use crate::store::{ParcelView, Pipe};
use vstd::prelude::*;

verus! {

/// Where memory that a copy used goes back to: home, but for unwritten memory, which goes
/// back to a cell of its own as unwritten memory, and nowhere else.
pub open spec fn home_after_copy(input: Input, p: ParcelView) -> Option<Home> {
    let c = p.value[0].class;
    if c == Class::DeviceUninit || c == Class::MappedUninit || c == Class::UsmUninit {
        match (input, p.home) {
            (Input::Concrete(_), Some(Home::Cell(cell))) => Some(Home::Downgrade(cell)),
            _ => None,
        }
    } else {
        p.home
    }
}

/// Whether a run outside of command buffers copied: one command behind the events of both
/// operands, and both go on behind that command, the destination as written memory.
pub open spec fn copies(
    pre: Walk,
    post: Walk,
    src: Input,
    dst: Input,
    src_out: Pipe,
    dst_out: Pipe,
    command: spec_fn(Obj, Obj) -> Command,
) -> bool {
    let w1 = after_taking(pre.w, src);
    &&& found(pre.w, pre.start, src) matches Ok(p)
    &&& found(w1, pre.start, dst) matches Ok(q)
    &&& p.value.len() == 1
    &&& q.value.len() == 1
    &&& post.trace.len() == pre.trace.len() + 1
    &&& post.trace.drop_last() == pre.trace
    &&& post.trace.last().command == command(p.value[0], q.value[0])
    &&& post.trace.last().waits == p.deps + q.deps
    &&& post.trace.last().queue == pre.queue
    &&& post.trace.last().reply matches Ok(ev)
    &&& post.w == after_taking(w1, dst).put(
        src_out.cell,
        ParcelView { value: seq![p.value[0]], deps: seq![ev], home: home_after_copy(src, p) },
    ).put(
        dst_out.cell,
        ParcelView {
            value: seq![Obj { class: written(q.value[0].class), ..q.value[0] }],
            deps: seq![ev],
            home: home_after_copy(dst, q),
        },
    )
}

/// A copy copies all bytes of its source into its destination, not the other way round.
pub proof fn law_copy_goes_from_source_to_destination(x: CopyTo2, pre: Walk, post: Walk, mode: ExecMode)
    requires
        pre.cb is Off,
        x.runs(pre, post, mode, Ok(())),
    ensures
        copies(
            pre,
            post,
            x.src,
            x.dst,
            x.src_pipe,
            x.dst_pipe,
            |s: Obj, d: Obj| Command::Copy { src: s.mem_spec(), dst: d.mem_spec(), bytes: s.bytes },
        ),
{
    let r1 = choose|r1: Reply| (#[trigger] copy_after(x.copying(), pre, r1)) == (post, Ok::<(), Error>(()));
    assert(post.trace.drop_last() =~= pre.trace);
    let p = found(pre.w, pre.start, x.src)->Ok_0;
    assert(p.value =~= seq![p.value[0]]);
}

/// An image copy copies its region, or the whole of its source, from source to
/// destination.
pub proof fn law_image_copy_goes_from_source_to_destination(x: ImageCopy, pre: Walk, post: Walk, mode: ExecMode)
    requires
        pre.cb is Off,
        x.runs(pre, post, mode, Ok(())),
    ensures
        copies(
            pre,
            post,
            x.src,
            x.dst,
            x.src_pipe,
            x.dst_pipe,
            |s: Obj, d: Obj|
                Command::CopyImage {
                    src: s.mem_spec(),
                    dst: d.mem_spec(),
                    region: if x.region is Some {
                        x.region->Some_0
                    } else {
                        s.extent
                    },
                },
        ),
{
    let r1 = choose|r1: Reply| (#[trigger] copy_after(x.copying(), pre, r1)) == (post, Ok::<(), Error>(()));
    assert(post.trace.drop_last() =~= pre.trace);
    let p = found(pre.w, pre.start, x.src)->Ok_0;
    assert(p.value =~= seq![p.value[0]]);
}

/// Whether a run inside a command buffer that is built recorded a copy into it.
pub open spec fn records_copy(
    pre: Walk,
    post: Walk,
    src: Input,
    dst: Input,
    src_out: Pipe,
    dst_out: Pipe,
    command: spec_fn(Obj, Obj) -> Command,
) -> bool {
    let w1 = after_taking(pre.w, src);
    &&& found(pre.w, pre.start, src) matches Ok(p)
    &&& found(w1, pre.start, dst) matches Ok(q)
    &&& post.trace.len() == pre.trace.len() + 1
    &&& post.trace.drop_last() == pre.trace
    &&& post.trace.last().command matches Command::Record { builder, what }
    &&& builder == pre.cb->Build_builder.handle
    &&& records(what, command(p.value[0], q.value[0]))
    &&& post.cb.ext() == pre.cb.ext() + p.deps + q.deps
    &&& post.trace.last().reply matches Ok(sp) ==> post.sp_of(Some(src_out.cell)) == seq![sp] && post.sp_of(
        Some(dst_out.cell),
    ) == seq![sp]
    &&& post.w == after_taking(w1, dst).put(
        src_out.cell,
        ParcelView { value: seq![p.value[0]], deps: Seq::empty(), home: home_after_copy(src, p) },
    ).put(
        dst_out.cell,
        ParcelView {
            value: seq![Obj { class: written(q.value[0].class), ..q.value[0] }],
            deps: Seq::empty(),
            home: home_after_copy(dst, q),
        },
    )
}

/// What a command buffer holds of a copy is the copy.
pub proof fn law_copy_is_recorded_as_it_is_sent(x: CopyTo2, pre: Walk, post: Walk, mode: ExecMode)
    requires
        pre.cb is Build,
        x.runs(pre, post, mode, Ok(())),
    ensures
        records_copy(
            pre,
            post,
            x.src,
            x.dst,
            x.src_pipe,
            x.dst_pipe,
            |s: Obj, d: Obj| Command::Copy { src: s.mem_spec(), dst: d.mem_spec(), bytes: s.bytes },
        ),
{
    let r1 = choose|r1: Reply| (#[trigger] copy_after(x.copying(), pre, r1)) == (post, Ok::<(), Error>(()));
    assert(post.trace.drop_last() =~= pre.trace);
    let p = found(pre.w, pre.start, x.src)->Ok_0;
    assert(p.value =~= seq![p.value[0]]);
}

/// What a command buffer holds of an image copy is the copy.
pub proof fn law_image_copy_is_recorded_as_it_is_sent(x: ImageCopy, pre: Walk, post: Walk, mode: ExecMode)
    requires
        pre.cb is Build,
        x.runs(pre, post, mode, Ok(())),
    ensures
        records_copy(
            pre,
            post,
            x.src,
            x.dst,
            x.src_pipe,
            x.dst_pipe,
            |s: Obj, d: Obj|
                Command::CopyImage {
                    src: s.mem_spec(),
                    dst: d.mem_spec(),
                    region: if x.region is Some {
                        x.region->Some_0
                    } else {
                        s.extent
                    },
                },
        ),
{
    let r1 = choose|r1: Reply| (#[trigger] copy_after(x.copying(), pre, r1)) == (post, Ok::<(), Error>(()));
    assert(post.trace.drop_last() =~= pre.trace);
    let p = found(pre.w, pre.start, x.src)->Ok_0;
    assert(p.value =~= seq![p.value[0]]);
}

/// A download reads the whole of its buffer into a fresh host vector of the same length,
/// behind the events of the buffer, and hands out the vector. The buffer goes home at
/// once.
pub proof fn law_download_reads_all_of_its_buffer(x: Download, pre: Walk, post: Walk, mode: ExecMode)
    requires
        x.runs(pre, post, mode, Ok(())),
    ensures
        ({
            let n = pre.trace.len() as int;
            &&& found(pre.w, pre.start, x.buf) matches Ok(p)
            &&& p.value.len() == 1
            &&& post.trace.len() == n + 2
            &&& forall|k: int| 0 <= k < n ==> pre.trace[k] == #[trigger] post.trace[k]
            &&& post.trace[n].command == (Command::HostAlloc { len: p.value[0].len, bytes: p.value[0].bytes })
            &&& post.trace[n].reply matches Ok(h)
            &&& post.trace[n + 1].command == (Command::Read {
                mem: p.value[0].mem_spec(),
                dst: h,
                blocking: mode == ExecMode::Blocking,
            })
            &&& post.trace[n + 1].waits == p.deps
            &&& post.trace[n + 1].reply matches Ok(ev)
            &&& post.w == after_taking(pre.w, x.buf).rehomed(p.home, p.value).put(
                x.out.cell,
                ParcelView {
                    value: seq![
                        Obj {
                            class: Class::Host,
                            id: h,
                            ctx: p.value[0].ctx,
                            extent: Extent { x: p.value[0].len, y: 1, z: 1 },
                            len: p.value[0].len,
                            bytes: p.value[0].bytes,
                            shared: false,
                        },
                    ],
                    deps: if mode == ExecMode::Blocking {
                        Seq::empty()
                    } else {
                        seq![ev]
                    },
                    home: None,
                },
            )
        }),
{
    let (r1, r2) = choose|r1: Reply, r2: Reply|
        (#[trigger] download_after(x, pre, mode, r1, r2)) == (post, Ok::<(), Error>(()));
}

/// The device that a target stands for: itself, or the one with that index of the
/// context.
pub proof fn law_targets_name_their_device(d: u64, i: usize, s: Walk)
    requires
        i < s.devices.len(),
    ensures
        DeviceTarget::Concrete(d).device(s) == d,
        DeviceTarget::Index(i).device(s) == s.devices[i as int],
        DeviceTarget::Concrete(d).devices_needed() == 0,
        DeviceTarget::Index(i).devices_needed() <= s.devices.len(),
        DeviceTarget::Index(i).devices_needed() > i,
{
}

/// A transfer moves its buffer to the queue of the device that is meant, behind the
/// events of the buffer, and hands it on behind the move.
pub proof fn law_transfer_moves_to_its_target(x: TransferToDevice, pre: Walk, post: Walk, mode: ExecMode)
    requires
        x.runs(pre, post, mode, Ok(())),
    ensures
        ({
            let n = pre.trace.len() as int;
            &&& found(pre.w, pre.start, x.buf) matches Ok(p)
            &&& p.value.len() == 1
            &&& post.trace.len() == n + 2
            &&& forall|k: int| 0 <= k < n ==> pre.trace[k] == #[trigger] post.trace[k]
            &&& post.trace[n].command == (Command::Queue { device: x.target.device(pre) })
            &&& post.trace[n].reply matches Ok(queue)
            &&& post.trace[n + 1].command == (Command::Migrate { mem: p.value[0].mem_spec(), queue })
            &&& post.trace[n + 1].waits == p.deps
            &&& post.trace[n + 1].reply matches Ok(ev)
            &&& post.queue == pre.queue
            &&& post.w == after_taking(pre.w, x.buf).put(
                x.out.cell,
                ParcelView { value: p.value, deps: seq![ev], home: p.home },
            )
        }),
{
    let (r1, r2) = choose|r1: Reply, r2: Reply|
        (#[trigger] transfer_after(x, pre, r1, r2)) == (post, Ok::<(), Error>(()));
}

/// A value is laid on its pipe as it is, behind nothing and owed to nobody. Nothing is
/// asked of the driver.
pub proof fn law_value_is_handed_on_as_it_is(x: Value, pre: Walk, post: Walk, mode: ExecMode, res: OpResult<()>)
    requires
        x.runs(pre, post, mode, res),
    ensures
        res is Ok,
        post.trace == pre.trace,
        post.w == pre.w.put(x.out.cell, ParcelView { value: x.v@, deps: Seq::empty(), home: None }),
{
}

/// A value that is lifted or forwarded goes on as it came: the same objects, the same
/// home and, outside of command buffers, the same events. Nothing is asked of the driver.
pub proof fn law_values_pass_through(
    x: Lift,
    y: Forward,
    pre: Walk,
    a: Walk,
    b: Walk,
    mode: ExecMode,
)
    requires
        x.runs(pre, a, mode, Ok(())),
        y.runs(pre, b, mode, Ok(())),
    ensures
        a.trace == pre.trace,
        b.trace == pre.trace,
        found(pre.w, pre.start, x.input) matches Ok(p) && a.w == after_taking(pre.w, x.input).put(
            x.out.cell,
            ParcelView {
                deps: if pre.cb is Off {
                    p.deps
                } else {
                    Seq::empty()
                },
                ..p
            },
        ),
        found(pre.w, pre.start, y.input) matches Ok(p) && b.w == after_taking(pre.w, y.input).put(
            y.out.cell,
            ParcelView {
                deps: if pre.cb is Off {
                    p.deps
                } else {
                    Seq::empty()
                },
                ..p
            },
        ),
{
}

/// A buffer with host data is a device buffer, a one-element buffer too; a slice of shared
/// memory is shared memory.
pub proof fn law_seeds_have_their_family(k: SeedKind)
    ensures
        k == SeedKind::Upload || k == SeedKind::Scalar ==> k.class_spec() == Class::Device,
        k == SeedKind::Usm ==> k.class_spec() == Class::Usm,
{
}

/// Whether a run handed out memory that it allocated for it: of this family and size,
/// created with these flags and contents.
pub open spec fn allocates(
    pre: Walk,
    post: Walk,
    class: Class,
    len: usize,
    bytes: usize,
    flags: u64,
    contents: Contents,
    out: Pipe,
) -> bool {
    &&& post.trace.len() == pre.trace.len() + 1
    &&& post.trace.drop_last() == pre.trace
    &&& post.trace.last().command == (Command::Alloc { class, len, bytes, flags, contents })
    &&& post.trace.last().reply matches Ok(h)
    &&& post.w.parcel(out.cell) matches Some(p)
    &&& p.deps.len() == 0
    &&& p.value == seq![
        Obj { class, id: h, ctx: pre.context, extent: Extent { x: len, y: 1, z: 1 }, len, bytes, shared: false },
    ]
}

/// An allocation hands out memory of its own family, of its length, with its flags, and
/// either zeros or nothing in it.
pub proof fn law_allocations_have_their_family(
    z: AllocZero,
    d: DeviceAllocUninit,
    m: MappedAllocUninit,
    u: UsmAllocUninit,
    pre: Walk,
    post: Walk,
    mode: ExecMode,
)
    ensures
        z.runs(pre, post, mode, Ok(())) ==> allocates(
            pre,
            post,
            Class::Device,
            z.len,
            z.bytes,
            z.flags,
            Contents::Zero,
            z.out,
        ),
        d.runs(pre, post, mode, Ok(())) ==> allocates(
            pre,
            post,
            Class::DeviceUninit,
            d.len,
            d.bytes,
            d.flags,
            Contents::Unwritten,
            d.out,
        ),
        m.runs(pre, post, mode, Ok(())) ==> pre.has_svm && allocates(
            pre,
            post,
            Class::MappedUninit,
            m.len,
            m.bytes,
            m.flags,
            Contents::Unwritten,
            m.out,
        ),
        u.runs(pre, post, mode, Ok(())) ==> pre.has_svm && allocates(
            pre,
            post,
            Class::UsmUninit,
            u.len,
            u.bytes,
            u.flags,
            Contents::Unwritten,
            u.out,
        ),
{
    assert(forall|t: Seq<Issued>, x: Issued| (#[trigger] t.push(x)).drop_last() =~= t);
}

/// The first run of an upload, a one-element buffer or a shared slice allocates it from
/// its data; a device without shared memory refuses the last, and nothing is asked of
/// the driver.
pub proof fn law_first_runs_allocate_from_the_data(
    x: Upload,
    y: ScalarUpload,
    z: UsmSlice,
    pre: Walk,
    post: Walk,
    mode: ExecMode,
    res: OpResult<()>,
)
    requires
        x.seed.kind == SeedKind::Upload,
        y.seed.kind == SeedKind::Scalar,
        z.seed.kind == SeedKind::Usm,
    ensures
        x.runs(pre, post, mode, Ok(())) && pre.w.held(x.seed.buf) is None ==> allocates(
            pre,
            post,
            Class::Device,
            x.seed.src.len,
            x.seed.src.bytes,
            x.seed.flags,
            Contents::From(x.seed.src),
            x.seed.out,
        ),
        y.runs(pre, post, mode, Ok(())) && pre.w.held(y.seed.buf) is None ==> allocates(
            pre,
            post,
            Class::Device,
            y.seed.src.len,
            y.seed.src.bytes,
            y.seed.flags,
            Contents::From(y.seed.src),
            y.seed.out,
        ),
        z.runs(pre, post, mode, Ok(())) && pre.w.held(z.seed.buf) is None ==> pre.has_svm && allocates(
            pre,
            post,
            Class::Usm,
            z.seed.src.len,
            z.seed.src.bytes,
            z.seed.flags,
            Contents::From(z.seed.src),
            z.seed.out,
        ),
        z.runs(pre, post, mode, res) && pre.w.held(z.seed.buf) is None && !pre.w.is_seeded(z.seed.buf) && !pre.has_svm
            ==> res == Err::<(), Error>(Error::SvmNotAvailable) && post.trace == pre.trace,
{
    assert(forall|t: Seq<Issued>, x: Issued| (#[trigger] t.push(x)).drop_last() =~= t);
}

/// A later run writes the data again exactly where a kernel may have changed it: a device
/// buffer by a write that blocks, shared memory by the host. It hands out the memory
/// that it was given back, behind nothing.
pub proof fn law_later_runs_write_what_may_have_changed(u: Seed, pre: Walk, qs: Seq<Reply>, r1: Reply, o: Obj)
    requires
        pre.w.held(u.buf) == Some(o),
        pre.w.busy_until(o.mem_spec()).len() == 0,
        seed_after(u, pre, qs, r1).1 is Ok,
    ensures
        ({
            let post = seed_after(u, pre, qs, r1).0;
            &&& !u.reseed ==> post.trace == pre.trace
            &&& u.reseed ==> post.trace.len() == pre.trace.len() + 1 && post.trace.drop_last() == pre.trace
            &&& u.reseed && u.kind == SeedKind::Usm ==> post.trace.last().command == (Command::HostWrite {
                mem: o.mem_spec(),
                src: u.src,
            })
            &&& u.reseed && u.kind != SeedKind::Usm ==> post.trace.last().command == (Command::Write {
                mem: o.mem_spec(),
                src: u.src,
                blocking: true,
            })
            &&& post.w.parcel(u.out.cell) == Some(
                ParcelView { value: seq![o], deps: Seq::empty(), home: Some(Home::Cell(u.buf)) },
            )
        }),
{
    assert(forall|t: Seq<Issued>, x: Issued| (#[trigger] t.push(x)).drop_last() =~= t);
}

/// An image upload creates the image that it describes, writes its pixels into its
/// region, and hands the image out behind the write.
pub proof fn law_image_upload_writes_what_it_creates(x: ImageUploadEager, pre: Walk, post: Walk, mode: ExecMode)
    requires
        x.runs(pre, post, mode, Ok(())),
    ensures
        ({
            let n = pre.trace.len() as int;
            &&& post.trace.len() == n + 2
            &&& forall|k: int| 0 <= k < n ==> pre.trace[k] == #[trigger] post.trace[k]
            &&& post.trace[n].command == (Command::CreateImage { desc: x.desc })
            &&& post.trace[n].reply matches Ok(h)
            &&& post.trace[n + 1].command == (Command::WriteImage {
                mem: MemRef::Buffer(h),
                region: x.region,
                src: x.pixels,
                blocking: false,
            })
            &&& post.trace[n + 1].reply matches Ok(ev)
            &&& post.w == pre.w.put(
                x.out.cell,
                ParcelView {
                    value: seq![
                        Obj {
                            class: Class::Image,
                            id: h,
                            ctx: pre.context,
                            extent: x.region,
                            len: x.len,
                            bytes: x.bytes,
                            shared: false,
                        },
                    ],
                    deps: seq![ev],
                    home: None,
                },
            )
        }),
{
    let (r1, r2, r3) = choose|r1: Reply, r2: Reply, r3: Reply|
        (#[trigger] image_upload_after(x, pre, r1, r2, r3)) == (post, Ok::<(), Error>(()));
}

/// An image download reads the whole extent of its image into a fresh host vector with an
/// element for each pixel, behind the events of the image.
pub proof fn law_image_download_reads_the_whole_image(x: ImageDownloadEager, pre: Walk, post: Walk, mode: ExecMode)
    requires
        x.runs(pre, post, mode, Ok(())),
    ensures
        ({
            let n = pre.trace.len() as int;
            &&& found(pre.w, pre.start, x.img) matches Ok(p)
            &&& p.value.len() == 1
            &&& post.trace.len() == n + 2
            &&& forall|k: int| 0 <= k < n ==> pre.trace[k] == #[trigger] post.trace[k]
            &&& post.trace[n].command == (Command::HostAlloc { len: p.value[0].len, bytes: p.value[0].bytes })
            &&& post.trace[n].reply matches Ok(h)
            &&& post.trace[n + 1].command == (Command::ReadImage {
                mem: p.value[0].mem_spec(),
                region: p.value[0].extent,
                dst: h,
                blocking: false,
            })
            &&& post.trace[n + 1].waits == p.deps
            &&& post.trace[n + 1].reply matches Ok(ev)
            &&& post.w.parcel(x.out.cell) matches Some(q)
            &&& q.deps == seq![ev]
            &&& q.value.len() == 1
            &&& q.value[0].class == Class::Host
            &&& q.value[0].id == h
            &&& q.value[0].len == p.value[0].len
            &&& q.value[0].bytes == p.value[0].bytes
        }),
{
    let (r1, r2) = choose|r1: Reply, r2: Reply|
        (#[trigger] image_download_after(x, pre, r1, r2)) == (post, Ok::<(), Error>(()));
}

/// The access markers: what a kernel may do with an object, and the flag bits that the
/// object is created with.
pub proof fn law_markers_give_their_rights()
    ensures
        ReadOnly::reads() && !ReadOnly::writes(),
        !WriteOnly::reads() && WriteOnly::writes(),
        ReadWrite::reads() && ReadWrite::writes(),
        access_flags(ReadWrite::reads(), ReadWrite::writes()) == 1,
        access_flags(WriteOnly::reads(), WriteOnly::writes()) == 2,
        access_flags(ReadOnly::reads(), ReadOnly::writes()) == 4,
{
}

} // verus!
