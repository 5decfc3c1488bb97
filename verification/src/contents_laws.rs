//! What memory holds after the commands of a run, and what reads give back of
//! writes.

use crate::access::MEM_READ_ONLY;
use crate::chain::{joins, joins_from, releases};
use crate::copies::{copied, copy_after, CopyKind, Copying};
use crate::error::{Error, OpResult};
use crate::exec_ctx::{kept, ExecMode, Walk, WalkMode};
use crate::fill_kernel::{
    byte_fill_launched, byte_fill_written, byte_fills, fast_fills, fast_path_name, kernel_fills, launches,
    releases_buffer,
};
use crate::graph::{head_addable_of, outs_of, seam_of, AndThen, DeviceOp};
use crate::image_ops::{
    image_download_after, image_upload_after, uploaded_image, ImageDownloadEager, ImageRead, ImageUploadEager,
    ImageWrite,
};
use crate::input::{after_taking, found, Input};
use crate::leaf::{leaf_after, worked, Leaf, Work};
use crate::leaf_op::LeafOp;
use crate::leaves::{download_after, host_obj, Download, LeafNode, ReadInto};
use crate::obj::{is_svm, Class, Command, Contents, Extent, HostRef, Issued, MemRef, Obj, Reply};
use crate::seeds::{lemma_waits_alone, seed_after, seeded_obj, waited_out, Seed};
use crate::terminals::{
    severed_from, sync_ends, sync_fails, sync_held, sync_marked, sync_mode, sync_waited, syncs, values_from, waits,
};
use crate::walk::{
    chain_gathered, checked_out, child_gathers, child_runs, drain_from, gathers_of, join_runs, missing_of,
    node_gathers, node_runs, open_child_gathers, open_child_runs, passes, runs_of, seam_step, CheckoutView,
    GatheredView,
};
use vstd::prelude::*;

verus! {

/// A place that holds data: memory of the device or host data, of so many bytes, or an
/// image of an extent and so many bytes.
pub enum Place {
    Mem(MemRef, usize),
    Image(MemRef, Extent, usize),
    Host(u64, usize),
}

/// What a place holds.
pub enum Held {
    /// What another place held before the first command.
    Before(Place),
    Zero,
    /// A pattern over and over, from the first byte to the last.
    Repeated(Box<Held>),
    /// Nothing is known of it.
    Unknown,
}

/// The whole of an object.
pub open spec fn whole(o: Obj) -> Place {
    if o.class == Class::Image {
        Place::Image(o.mem_spec(), o.extent, o.bytes)
    } else {
        Place::Mem(o.mem_spec(), o.bytes)
    }
}

/// Host data.
pub open spec fn host_data(r: HostRef) -> Place {
    Place::Host(r.id, r.bytes)
}

/// The memory of an object of a class.
pub open spec fn memory_of(class: Class, id: u64) -> MemRef {
    if is_svm(class) {
        MemRef::Svm(id)
    } else {
        MemRef::Buffer(id)
    }
}

/// Whether a command leaves all data as it is.
pub open spec fn keeps_data(c: Command) -> bool {
    match c {
        Command::Queue { .. }
        | Command::InvalidateQueue { .. }
        | Command::Flush
        | Command::QueueProperties
        | Command::UserEvent
        | Command::Complete { .. }
        | Command::Wait { .. }
        | Command::Marker
        | Command::Migrate { .. }
        | Command::MapMem { .. }
        | Command::OpenCb { .. }
        | Command::Record { .. }
        | Command::FinalizeCb { .. }
        | Command::Join { .. }
        | Command::ProfilingCallback { .. }
        | Command::FillProgram
        | Command::FillKernel { .. }
        | Command::SetArg { .. }
        | Command::MapBuffer { .. }
        | Command::MappedAt { .. }
        | Command::SvmMap { .. } => true,
        _ => false,
    }
}

/// What a command does to a place.
pub enum Effect {
    Nothing,
    /// It holds what another place held.
    From(Place),
    /// It holds what another place held, over and over.
    Repeats(Place),
    Zero,
    Unknown,
}

/// What becomes of host data by a command that the driver answered with `h`.
pub open spec fn host_after(c: Command, h: u64, id: u64, n: usize) -> Effect {
    match c {
        Command::Read { mem, dst, .. } if dst == id => Effect::From(Place::Mem(mem, n)),
        Command::ReadImage { mem, region, dst, .. } if dst == id => Effect::From(Place::Image(mem, region, n)),
        Command::HostAlloc { bytes, .. } if h == id => if n == bytes {
            Effect::Zero
        } else {
            Effect::Unknown
        },
        Command::Worker { .. } => Effect::Unknown,
        _ => Effect::Nothing,
    }
}

/// What becomes of memory by a command that the driver answered with `h`.
pub open spec fn memory_after(c: Command, h: u64, m: MemRef, n: usize) -> Effect {
    match c {
        Command::Read { .. } | Command::ReadImage { .. } | Command::HostAlloc { .. } => Effect::Nothing,
        Command::CreateImage { .. } if m != MemRef::Buffer(h) => Effect::Nothing,
        Command::Release { mem } if m != mem => Effect::Nothing,
        Command::Alloc { class, .. } if m != memory_of(class, h) => Effect::Nothing,
        Command::Alloc { bytes, contents: Contents::Zero, .. } if n == bytes => Effect::Zero,
        Command::Alloc { bytes, contents: Contents::From(src), .. } if n == bytes && n == src.bytes => Effect::From(
            host_data(src),
        ),
        Command::Write { mem, src, .. } if m == mem && n == src.bytes => Effect::From(host_data(src)),
        Command::HostWrite { mem, src } if m == mem && n == src.bytes => Effect::From(host_data(src)),
        Command::Copy { src, dst, bytes } if m == dst && n == bytes => Effect::From(Place::Mem(src, n)),
        Command::Copy { src, dst, .. } if m == src && m != dst => Effect::Nothing,
        Command::Fill { mem, pattern, bytes } if m == mem && n == bytes => Effect::Repeats(host_data(pattern)),
        Command::HostFill { mem, pattern, bytes } if m == mem && n == bytes => Effect::Repeats(host_data(pattern)),
        Command::RunFill { data, pattern, count, .. } if m == data && n == count * pattern.bytes => Effect::Repeats(
            host_data(pattern),
        ),
        Command::RunFillBytes { data, pattern, width, count, .. } if m == data && n == count * width => Effect::Repeats(
            Place::Mem(MemRef::Buffer(pattern), width as usize),
        ),
        _ => Effect::Unknown,
    }
}

/// What becomes of an image by a command that the driver answered with `h`.
pub open spec fn image_after(c: Command, h: u64, m: MemRef, e: Extent, n: usize) -> Effect {
    match c {
        Command::Read { .. } | Command::ReadImage { .. } | Command::HostAlloc { .. } => Effect::Nothing,
        Command::CreateImage { .. } if m != MemRef::Buffer(h) => Effect::Nothing,
        Command::Release { mem } if m != mem => Effect::Nothing,
        Command::Alloc { class, .. } if m != memory_of(class, h) => Effect::Nothing,
        Command::WriteImage { mem, region, src, .. } if m == mem && e == region && n == src.bytes => Effect::From(
            host_data(src),
        ),
        Command::CopyImage { src, dst, region } if m == dst && e == region => Effect::From(
            Place::Image(src, e, n),
        ),
        Command::CopyImage { src, dst, .. } if m == src && m != dst => Effect::Nothing,
        Command::FillImage { mem, region, pattern } if m == mem && e == region => Effect::Repeats(host_data(pattern)),
        _ => Effect::Unknown,
    }
}

/// What becomes of a place by a command. One that the driver refused does nothing.
pub open spec fn effect(x: Issued, place: Place) -> Effect {
    match x.reply {
        Err(_) => Effect::Nothing,
        Ok(h) => if keeps_data(x.command) {
            Effect::Nothing
        } else {
            match place {
                Place::Host(id, n) => host_after(x.command, h, id, n),
                Place::Mem(m, n) => memory_after(x.command, h, m, n),
                Place::Image(m, e, n) => image_after(x.command, h, m, e, n),
            }
        },
    }
}

/// What a place holds once the commands of a log have run one after the other. A
/// command that covers only a part of a place leaves its contents unknown. Two handles
/// may stand for the same memory, so a command that writes one leaves the contents of
/// every other unknown; but for the source of a copy, which may not overlap its
/// destination.
pub open spec fn contents(log: Seq<Issued>, place: Place) -> Held
    decreases log.len(),
{
    if log.len() == 0 {
        Held::Before(place)
    } else {
        let before = log.drop_last();
        match effect(log.last(), place) {
            Effect::Nothing => contents(before, place),
            Effect::From(p) => contents(before, p),
            Effect::Repeats(p) => Held::Repeated(Box::new(contents(before, p))),
            Effect::Zero => Held::Zero,
            Effect::Unknown => Held::Unknown,
        }
    }
}

/// Whether `b` is `a` with commands behind it that leave all data as it is.
pub open spec fn quietly_extends(a: Seq<Issued>, b: Seq<Issued>) -> bool {
    &&& a.len() <= b.len()
    &&& forall|i: int| 0 <= i < a.len() ==> a[i] == #[trigger] b[i]
    &&& forall|i: int| a.len() <= i < b.len() ==> keeps_data((#[trigger] b[i]).command)
}

proof fn lemma_quiet_contents(a: Seq<Issued>, b: Seq<Issued>, place: Place)
    requires
        quietly_extends(a, b),
    ensures
        contents(b, place) == contents(a, place),
    decreases b.len(),
{
    if a.len() == b.len() {
        assert(a =~= b);
    } else {
        assert(keeps_data(b.last().command));
        lemma_quiet_contents(a, b.drop_last(), place);
    }
}

proof fn lemma_joins_are_quiet(workers: Seq<u64>, i: nat, pre: Walk, post: Walk)
    requires
        joins_from(workers, i, pre, post),
    ensures
        quietly_extends(pre.trace, post.trace),
    decreases workers.len() - i,
{
    if i < workers.len() {
        let x = choose|x: Reply|
            joins_from(
                workers,
                i + 1,
                #[trigger] pre.issued(Command::Join { worker: workers[i as int] }, Seq::empty(), x),
                post,
            );
        let s = pre.issued(Command::Join { worker: workers[i as int] }, Seq::empty(), x);
        lemma_joins_are_quiet(workers, i + 1, s, post);
        assert forall|k: int| 0 <= k < pre.trace.len() implies pre.trace[k] == #[trigger] post.trace[k] by {
            assert(s.trace[k] == post.trace[k]);
        }
        assert(s.trace[pre.trace.len() as int] == post.trace[pre.trace.len() as int]);
    }
}

/// What a waiting terminal hands out is what its graph gathered; the commands behind
/// it leave all data as it is.
proof fn lemma_waited(op: DeviceOp, pre: Walk, post: Walk, v: Vec<Obj>) -> (r: (Walk, GatheredView))
    requires
        waits(op, pre, post, Ok(v)),
        !seam_of(op),
    ensures
        node_gathers(op, Walk { start: None, ..pre }, r.0, ExecMode::Blocking, Ok(r.1)),
        quietly_extends(r.0.trace, post.trace),
        v@ == values_from(r.1.outs, 0),
{
    let (n, sr) = choose|m: Walk, r: OpResult<Seq<CheckoutView>>|
        #[trigger] passes(m, r) && syncs(op, pre, m, r) && match r {
            Err(e) => false,
            Ok(outs) => post == m.at(severed_from(outs, 0, m.w)) && v@ == values_from(outs, 0),
        };
    let a = Walk { start: None, ..pre };
    assert(sync_held(op, a, n, sr));
    let (m, h) = choose|m: Walk, h: OpResult<GatheredView>|
        #[trigger] passes(m, h) && kept(a, m) && node_gathers(op, a, m, sync_mode(op), h) && match h {
            Err(e) => sync_fails(op, m, Seq::empty(), e, n, sr),
            Ok(g) => sync_marked(op, g, m, n, sr),
        };
    let g = h->Ok_0;
    let (s, j) = choose|s: Walk, j: OpResult<u64>|
        #[trigger] passes(s, j) && join_runs(g.deps, m, s, j) && match j {
            Err(e) => sync_fails(op, s, g.outs, e, n, sr),
            Ok(marker) => sync_waited(op, g, marker, s, n, sr),
        };
    let marker = j->Ok_0;
    let (m1, q, m2, host) = choose|m1: Walk, q: Reply, m2: Walk, host: Option<Error>|
        {
            &&& #[trigger] passes(m1, (q, m2, host))
            &&& releases(s, m1)
            &&& joins(m1.issued(Command::Wait { event: marker }, Seq::empty(), q), m2)
            &&& sync_ends(op, g, q, m2, host, n, sr)
        };
    let t = m1.issued(Command::Wait { event: marker }, Seq::empty(), q);
    lemma_joins_are_quiet(t.workers, 0, Walk { workers: Seq::empty(), ..t }, m2);
    assert(s.trace == m.trace.push(s.trace.last()));
    assert(t.trace == s.trace.push(t.trace.last()));
    assert forall|k: int| 0 <= k < m.trace.len() implies m.trace[k] == #[trigger] post.trace[k] by {
        assert(t.trace[k] == m2.trace[k]);
    }
    assert forall|k: int| m.trace.len() <= k < post.trace.len() implies keeps_data(
        (#[trigger] post.trace[k]).command,
    ) by {
        if k < t.trace.len() {
            assert(t.trace[k] == m2.trace[k]);
        }
    }
    (m, g)
}

/// What is gathered of a leaf lies on its output once it ran.
proof fn lemma_gathered_leaf(l: LeafOp, pre: Walk, post: Walk, mode: ExecMode, g: GatheredView) -> (b: Walk)
    requires
        gathers_of(DeviceOp::Leaf(l), pre, post, mode, Ok(g)),
        l.outs().len() == 1,
    ensures
        l.runs(pre, b, mode, Ok(())),
        post.trace == b.trace,
        b.w.parcel(l.outs()[0].cell) is Some,
        values_from(g.outs, 0) == b.w.parcel(l.outs()[0].cell)->Some_0.value,
{
    let op = DeviceOp::Leaf(l);
    let h = Ok::<GatheredView, Error>(g);
    let (b, r) = choose|b: Walk, r: OpResult<()>|
        (#[trigger] passes(b, r)) && runs_of(op, pre, b, mode, r) && match r {
            Err(e) => post == b && h == Err::<GatheredView, Error>(e),
            Ok(_) => {
                let (w, d) = drain_from(outs_of(op), 0, Seq::empty(), b.w);
                post == b.at(w) && h == (match d {
                    Ok(ps) => Ok::<GatheredView, Error>(checked_out(ps)),
                    Err(k) => Err(missing_of(op, k)),
                })
            },
        };
    assert(r->Ok_0 == ());
    assert(l.runs(pre, b, mode, Ok(())));
    let p = b.w.parcel(l.outs()[0].cell);
    reveal_with_fuel(drain_from, 3);
    reveal_with_fuel(values_from, 3);
    assert(p is Some);
    assert(g.outs.len() == 1);
    assert(values_from(g.outs, 0) =~= p->Some_0.value);
    b
}

/// The shape of an op that writes host data into memory, and the data.
pub open spec fn writer(l: LeafOp) -> Option<(Leaf, HostRef)> {
    match l {
        LeafOp::WriteDevice(x) => Some((x.leaf(), x.src)),
        LeafOp::WriteDeviceUninit(x) => Some((x.leaf(), x.src)),
        LeafOp::WriteMapped(x) => Some((x.leaf(), x.src)),
        LeafOp::WriteMappedUninit(x) => Some((x.leaf(), x.src)),
        LeafOp::WriteUsmUninit(x) => Some((x.leaf(), x.src)),
        _ => None,
    }
}

/// Once an op that writes host data of the memory's size has run, the memory that it
/// hands out holds that data.
pub proof fn law_written_memory_holds_the_data(
    l: LeafOp,
    pre: Walk,
    mode: ExecMode,
    r1: Reply,
    r2: Reply,
)
    requires
        writer(l) is Some,
        leaf_after(writer(l)->Some_0.0, pre, mode, r1, r2).1 is Ok,
        found(pre.w, pre.start, writer(l)->Some_0.0.input)->Ok_0.value[0].bytes == writer(l)->Some_0.1.bytes,
    ensures
        ({
            let post = leaf_after(writer(l)->Some_0.0, pre, mode, r1, r2).0;
            let out = post.w.parcel(l.outs()[0].cell);
            &&& out is Some
            &&& out->Some_0.value.len() == 1
            &&& out->Some_0.value[0].bytes == writer(l)->Some_0.1.bytes
            &&& contents(
                post.trace,
                Place::Mem(out->Some_0.value[0].mem_spec(), writer(l)->Some_0.1.bytes),
            ) == contents(pre.trace, Place::Host(writer(l)->Some_0.1.id, writer(l)->Some_0.1.bytes))
        }),
{
    let (leaf, src) = writer(l)->Some_0;
    let post = leaf_after(leaf, pre, mode, r1, r2).0;
    let p = found(pre.w, pre.start, leaf.input)->Ok_0;
    let o = p.value[0];
    let place = Place::Mem(o.mem_spec(), src.bytes);
    assert(worked(leaf.work, o).mem_spec() == o.mem_spec());
    let n = pre.trace.len() as int;
    let first = pre.trace.push(post.trace[n]);
    assert(post.trace[n].reply == r1);
    assert(first.drop_last() =~= pre.trace);
    assert(contents(first, place) == contents(pre.trace, Place::Host(src.id, src.bytes)));
    assert(quietly_extends(first, post.trace));
    lemma_quiet_contents(first, post.trace, place);
}

/// A download hands out fresh host data with the contents of the memory.
pub proof fn law_downloaded_data_is_the_memory(d: Download, pre: Walk, mode: ExecMode, r1: Reply, r2: Reply)
    requires
        download_after(d, pre, mode, r1, r2).1 is Ok,
    ensures
        ({
            let post = download_after(d, pre, mode, r1, r2).0;
            let o = found(pre.w, pre.start, d.buf)->Ok_0.value[0];
            let out = post.w.parcel(d.out.cell);
            &&& out is Some
            &&& r1 is Ok
            &&& out->Some_0.value == seq![host_obj(r1->Ok_0, o)]
            &&& contents(post.trace, Place::Host(r1->Ok_0, o.bytes)) == contents(
                pre.trace,
                Place::Mem(o.mem_spec(), o.bytes),
            )
        }),
{
    let post = download_after(d, pre, mode, r1, r2).0;
    let n = pre.trace.len() as int;
    let mid = post.trace.drop_last();
    assert(mid.drop_last() =~= pre.trace);
    let o = found(pre.w, pre.start, d.buf)->Ok_0.value[0];
    assert(contents(post.trace, Place::Host(r1->Ok_0, o.bytes)) == contents(mid, Place::Mem(o.mem_spec(), o.bytes)));
}

/// Data that was written is read back: once a write of as many bytes as the memory
/// has was waited for, a download of what it handed out gives the data that was
/// written. Neither op's
/// making issues a command, so the download goes on from the same log.
pub proof fn law_download_gives_back_what_was_written(
    l: LeafOp,
    pre: Walk,
    mid: Walk,
    written: Vec<Obj>,
    cell: u64,
    d: Download,
    next: Walk,
    post: Walk,
    got: Vec<Obj>,
)
    requires
        writer(l) is Some,
        waits(DeviceOp::Leaf(l), pre, mid, Ok(written)),
        d.buf == Input::Concrete(cell),
        next.trace == mid.trace,
        written.len() == 1 ==> next.w.held(cell) == Some(written[0]) && written[0].bytes == writer(l)->Some_0.1.bytes,
        waits(DeviceOp::Leaf(LeafOp::Download(d)), next, post, Ok(got)),
    ensures
        written.len() == 1,
        got.len() == 1,
        got[0] == host_obj(got[0].id, written[0]),
        got[0].bytes == writer(l)->Some_0.1.bytes,
        contents(post.trace, Place::Host(got[0].id, got[0].bytes)) == contents(
            pre.trace,
            Place::Host(writer(l)->Some_0.1.id, writer(l)->Some_0.1.bytes),
        ),
{
    let a = Walk { start: None, ..pre };
    let (m, g) = lemma_waited(DeviceOp::Leaf(l), pre, mid, written);
    let b = lemma_gathered_leaf(l, a, m, ExecMode::Blocking, g);
    let leaf = writer(l)->Some_0.0;
    let (r1, r2) = choose|r1: Reply, r2: Reply|
        (#[trigger] leaf_after(leaf, a, ExecMode::Blocking, r1, r2)) == (b, Ok::<(), Error>(()));
    law_written_memory_holds_the_data(l, a, ExecMode::Blocking, r1, r2);
    let o = written[0];
    assert(written@[0] == o);
    let a2 = Walk { start: None, ..next };
    let (m2, g2) = lemma_waited(DeviceOp::Leaf(LeafOp::Download(d)), next, post, got);
    let b2 = lemma_gathered_leaf(LeafOp::Download(d), a2, m2, ExecMode::Blocking, g2);
    let (q1, q2) = choose|q1: Reply, q2: Reply|
        (#[trigger] download_after(d, a2, ExecMode::Blocking, q1, q2)) == (b2, Ok::<(), Error>(()));
    law_downloaded_data_is_the_memory(d, a2, ExecMode::Blocking, q1, q2);
    assert(got@[0] == host_obj(q1->Ok_0, o));
    lemma_quiet_contents(m.trace, mid.trace, Place::Mem(o.mem_spec(), o.bytes));
    lemma_quiet_contents(m2.trace, post.trace, Place::Host(q1->Ok_0, o.bytes));
}

/// Once a read into host data has run outside of command buffers, the host data holds
/// what the buffer held, and the buffer still holds it.
pub proof fn law_read_data_is_the_memory(x: ReadInto, pre: Walk, post: Walk, mode: ExecMode)
    requires
        pre.cb is Off,
        x.runs(pre, post, mode, Ok(())),
        found(pre.w, pre.start, x.buf) matches Ok(p) && (p.value.len() == 1 ==> p.value[0].class != Class::Image),
    ensures
        ({
            let o = found(pre.w, pre.start, x.buf)->Ok_0.value[0];
            &&& contents(post.trace, Place::Host(x.dst, o.bytes)) == contents(
                pre.trace,
                Place::Mem(o.mem_spec(), o.bytes),
            )
            &&& contents(post.trace, Place::Mem(o.mem_spec(), o.bytes)) == contents(
                pre.trace,
                Place::Mem(o.mem_spec(), o.bytes),
            )
            &&& post.w.parcel(x.out.cell) matches Some(q) && q.value == seq![o]
        }),
{
    let (r1, r2) = choose|r1: Reply, r2: Reply|
        (#[trigger] leaf_after(x.leaf(), pre, mode, r1, r2)) == (post, Ok::<(), Error>(()));
    let n = pre.trace.len() as int;
    let first = pre.trace.push(post.trace[n]);
    let o = found(pre.w, pre.start, x.buf)->Ok_0.value[0];
    assert(post.trace[n].reply == r1);
    assert(first.drop_last() =~= pre.trace);
    assert(quietly_extends(first, post.trace));
    lemma_quiet_contents(first, post.trace, Place::Host(x.dst, o.bytes));
    lemma_quiet_contents(first, post.trace, Place::Mem(o.mem_spec(), o.bytes));
}

/// Once a read into host data was waited for, the host data holds what the buffer that it
/// hands back held before, and the buffer still holds it.
pub proof fn law_waited_read_gives_the_memory(x: ReadInto, pre: Walk, post: Walk, v: Vec<Obj>)
    requires
        pre.cb is Off,
        waits(DeviceOp::Leaf(LeafOp::ReadInto(x)), pre, post, Ok(v)),
        v.len() == 1 ==> v[0].class != Class::Image,
    ensures
        v.len() == 1,
        contents(post.trace, Place::Host(x.dst, v[0].bytes)) == contents(
            pre.trace,
            Place::Mem(v[0].mem_spec(), v[0].bytes),
        ),
        contents(post.trace, Place::Mem(v[0].mem_spec(), v[0].bytes)) == contents(
            pre.trace,
            Place::Mem(v[0].mem_spec(), v[0].bytes),
        ),
{
    let a = Walk { start: None, ..pre };
    let l = LeafOp::ReadInto(x);
    let (m, g) = lemma_waited(DeviceOp::Leaf(l), pre, post, v);
    let b = lemma_gathered_leaf(l, a, m, ExecMode::Blocking, g);
    assert(x.runs(a, b, ExecMode::Blocking, Ok(())));
    let (r1, r2) = choose|r1: Reply, r2: Reply|
        (#[trigger] leaf_after(x.leaf(), a, ExecMode::Blocking, r1, r2)) == (b, Ok::<(), Error>(()));
    let o = found(a.w, a.start, x.buf)->Ok_0.value[0];
    assert(v@ =~= seq![o]);
    assert(v[0] == o);
    law_read_data_is_the_memory(x, a, b, ExecMode::Blocking);
    lemma_quiet_contents(m.trace, post.trace, Place::Host(x.dst, o.bytes));
    lemma_quiet_contents(m.trace, post.trace, Place::Mem(o.mem_spec(), o.bytes));
}

/// An image read of the whole image leaves its pixels in the host data, and an image write
/// of the whole image leaves the data in the image.
pub proof fn law_image_reads_and_writes_move_the_pixels(
    x: ImageRead,
    y: ImageWrite,
    pre: Walk,
    a: Walk,
    b: Walk,
    mode: ExecMode,
)
    requires
        pre.cb is Off,
        x.runs(pre, a, mode, Ok(())),
        y.runs(pre, b, mode, Ok(())),
        found(pre.w, pre.start, x.img) matches Ok(p) && (p.value.len() == 1 ==> p.value[0].class == Class::Image
            && p.value[0].extent == x.region),
        found(pre.w, pre.start, y.img) matches Ok(q) && (q.value.len() == 1 ==> q.value[0].class == Class::Image
            && q.value[0].extent == y.region && q.value[0].bytes == y.data.bytes),
    ensures
        ({
            let o = found(pre.w, pre.start, x.img)->Ok_0.value[0];
            let d = found(pre.w, pre.start, y.img)->Ok_0.value[0];
            &&& contents(a.trace, Place::Host(x.dst, o.bytes)) == contents(pre.trace, whole(o))
            &&& contents(a.trace, whole(o)) == contents(pre.trace, whole(o))
            &&& contents(b.trace, whole(d)) == contents(pre.trace, host_data(y.data))
        }),
{
    let (r1, r2) = choose|r1: Reply, r2: Reply|
        (#[trigger] leaf_after(x.leaf(), pre, mode, r1, r2)) == (a, Ok::<(), Error>(()));
    let (q1, q2) = choose|q1: Reply, q2: Reply|
        (#[trigger] leaf_after(y.leaf(), pre, mode, q1, q2)) == (b, Ok::<(), Error>(()));
    assert(a.trace.drop_last() =~= pre.trace);
    assert(b.trace.drop_last() =~= pre.trace);
}

/// The shape of an op that fills memory or an image, and the pattern.
pub open spec fn filler(l: LeafOp) -> Option<(Leaf, HostRef)> {
    match l {
        LeafOp::Fill(x) => Some((x.leaf(), x.value)),
        LeafOp::FillDeviceUninit(x) => Some((x.leaf(), x.value)),
        LeafOp::FillMappedUninit(x) => Some((x.leaf(), x.value)),
        LeafOp::FillUsmUninit(x) => Some((x.leaf(), x.value)),
        LeafOp::FillMapped(x) => Some((x.leaf(), x.value)),
        LeafOp::ImageFill(x) => Some((x.leaf(), x.pattern)),
        _ => None,
    }
}

/// Whether work is over the whole of an object: that on an image over the image's own
/// extent, any other on memory that is no image.
pub open spec fn covers(work: Work, o: Obj) -> bool {
    match work {
        Work::FillImage { region, .. } => o.class == Class::Image && region == o.extent,
        _ => o.class != Class::Image,
    }
}

/// A pattern over and over.
pub open spec fn repeated(pattern: Held) -> Held {
    Held::Repeated(Box::new(pattern))
}

/// Once an op that fills has run, what it hands out holds the pattern over and over,
/// from the first byte to the last.
pub proof fn law_filled_memory_holds_the_pattern(l: LeafOp, pre: Walk, mode: ExecMode, r1: Reply, r2: Reply)
    requires
        filler(l) is Some,
        pre.cb is Off,
        leaf_after(filler(l)->Some_0.0, pre, mode, r1, r2).1 is Ok,
        covers(
            filler(l)->Some_0.0.work,
            found(pre.w, pre.start, filler(l)->Some_0.0.input)->Ok_0.value[0],
        ),
    ensures
        ({
            let post = leaf_after(filler(l)->Some_0.0, pre, mode, r1, r2).0;
            let out = post.w.parcel(l.outs()[0].cell);
            &&& out is Some
            &&& out->Some_0.value.len() == 1
            &&& contents(post.trace, whole(out->Some_0.value[0])) == repeated(
                contents(pre.trace, host_data(filler(l)->Some_0.1)),
            )
        }),
{
    let (leaf, pattern) = filler(l)->Some_0;
    let post = leaf_after(leaf, pre, mode, r1, r2).0;
    let p = found(pre.w, pre.start, leaf.input)->Ok_0;
    let o = p.value[0];
    assert(whole(worked(leaf.work, o)) == whole(o));
    let n = pre.trace.len() as int;
    let first = pre.trace.push(post.trace[n]);
    assert(post.trace[n].reply == r1);
    assert(first.drop_last() =~= pre.trace);
    assert(contents(first, whole(o)) == repeated(contents(pre.trace, host_data(pattern))));
    assert(quietly_extends(first, post.trace));
    lemma_quiet_contents(first, post.trace, whole(o));
}

/// Once a fill was waited for, what it handed out holds the pattern over and over.
pub proof fn law_waited_fill_holds_the_pattern(l: LeafOp, pre: Walk, post: Walk, filled: Vec<Obj>)
    requires
        filler(l) is Some,
        pre.cb is Off,
        waits(DeviceOp::Leaf(l), pre, post, Ok(filled)),
        found(pre.w, None, filler(l)->Some_0.0.input) matches Ok(p) && (p.value.len() == 1 ==> covers(
            filler(l)->Some_0.0.work,
            p.value[0],
        )),
    ensures
        filled.len() == 1,
        contents(post.trace, whole(filled[0])) == repeated(
            contents(pre.trace, host_data(filler(l)->Some_0.1)),
        ),
{
    let a = Walk { start: None, ..pre };
    let (m, g) = lemma_waited(DeviceOp::Leaf(l), pre, post, filled);
    let b = lemma_gathered_leaf(l, a, m, ExecMode::Blocking, g);
    let leaf = filler(l)->Some_0.0;
    let (r1, r2) = choose|r1: Reply, r2: Reply|
        (#[trigger] leaf_after(leaf, a, ExecMode::Blocking, r1, r2)) == (b, Ok::<(), Error>(()));
    law_filled_memory_holds_the_pattern(l, a, ExecMode::Blocking, r1, r2);
    assert(filled@[0] == filled[0]);
    lemma_quiet_contents(m.trace, post.trace, whole(filled[0]));
}

/// Once a fill by a kernel has run, the memory holds the pattern over and over. The
/// buffer that the pattern may be passed in is another than the memory.
pub proof fn law_kernel_fill_holds_the_pattern(
    data: MemRef,
    pattern: HostRef,
    count: usize,
    deps: Seq<u64>,
    pre: Walk,
    post: Walk,
    ev: u64,
)
    requires
        kernel_fills(data, pattern, count, deps, pre, post, Ok(ev)),
        count * pattern.bytes <= usize::MAX,
        forall|i: int|
            pre.trace.len() <= i < post.trace.len() && (#[trigger] post.trace[i]).command is Alloc && post.trace[i].reply is Ok
                ==> data != MemRef::Buffer(post.trace[i].reply->Ok_0),
    ensures
        contents(post.trace, Place::Mem(data, (count * pattern.bytes) as usize)) == repeated(
            contents(pre.trace, host_data(pattern)),
        ),
{
    let res = Ok::<u64, Error>(ev);
    let place = Place::Mem(data, (count * pattern.bytes) as usize);
    let q = choose|q: Reply|
        {
            let s = #[trigger] pre.issued(Command::FillProgram, Seq::empty(), q);
            match q {
                Err(c) => false,
                Ok(program) => if fast_path_name(pattern.bytes) is Some {
                    fast_fills(program, data, pattern, count, deps, s, post, res)
                } else if pattern.bytes > u32::MAX {
                    false
                } else {
                    byte_fills(program, data, pattern, count, deps, s, post, res)
                },
            }
        };
    let s = pre.issued(Command::FillProgram, Seq::empty(), q);
    let program = q->Ok_0;
    assert(s.trace.drop_last() =~= pre.trace);
    if fast_path_name(pattern.bytes) is Some {
        let q1 = choose|q1: Reply|
            {
                let s1 = #[trigger] s.issued(Command::FillKernel { program, width: pattern.bytes }, Seq::empty(), q1);
                match q1 {
                    Err(c) => false,
                    Ok(kernel) => launches(
                        Command::RunFill { kernel, data, pattern, count: count as u32, global: count },
                        deps,
                        s1,
                        post,
                        res,
                    ),
                }
            };
        let s1 = s.issued(Command::FillKernel { program, width: pattern.bytes }, Seq::empty(), q1);
        assert(s1.trace.drop_last() =~= s.trace);
        assert(post.trace.drop_last() =~= s1.trace);
        assert(contents(post.trace, place) == repeated(contents(s1.trace, host_data(pattern))));
    } else {
        lemma_byte_fill_holds_the_pattern(program, data, pattern, count, deps, s, post, ev);
    }
}

/// The same of a fill whose pattern is passed in a buffer.
proof fn lemma_byte_fill_holds_the_pattern(
    program: u64,
    data: MemRef,
    pattern: HostRef,
    count: usize,
    deps: Seq<u64>,
    pre: Walk,
    post: Walk,
    ev: u64,
)
    requires
        byte_fills(program, data, pattern, count, deps, pre, post, Ok(ev)),
        count <= u32::MAX,
        pattern.bytes <= u32::MAX,
        count * pattern.bytes <= usize::MAX,
        forall|i: int|
            pre.trace.len() <= i < post.trace.len() && (#[trigger] post.trace[i]).command is Alloc && post.trace[i].reply is Ok
                ==> data != MemRef::Buffer(post.trace[i].reply->Ok_0),
    ensures
        contents(post.trace, Place::Mem(data, (count * pattern.bytes) as usize)) == repeated(
            contents(pre.trace, host_data(pattern)),
        ),
{
    let res = Ok::<u64, Error>(ev);
    let place = Place::Mem(data, (count * pattern.bytes) as usize);
    let made = Command::Alloc {
        class: Class::DeviceUninit,
        len: pattern.bytes,
        bytes: pattern.bytes,
        flags: MEM_READ_ONLY,
        contents: Contents::Unwritten,
    };
    let (q1, q2, q3, m, x) = lemma_byte_fill_steps(program, data, pattern, count, deps, pre, post, ev);
    let s1 = pre.issued(made, Seq::empty(), q1);
    let buf = q1->Ok_0;
    let s2 = s1.issued(Command::Write { mem: MemRef::Buffer(buf), src: pattern, blocking: true }, Seq::empty(), q2);
    let s3 = s2.issued(Command::FillKernel { program, width: 0 }, Seq::empty(), q3);
    assert(s1.trace.drop_last() =~= pre.trace);
    assert(s2.trace.drop_last() =~= s1.trace);
    assert(s3.trace.drop_last() =~= s2.trace);
    assert(m.trace.drop_last() =~= s3.trace);
    assert(post.trace.drop_last() =~= m.trace);
    assert(post.trace[pre.trace.len() as int] == s1.trace.last());
    let pat = Place::Mem(MemRef::Buffer(buf), pattern.bytes);
    assert(contents(post.trace, place) == contents(m.trace, place));
    assert(contents(m.trace, place) == repeated(contents(s3.trace, pat)));
    assert(contents(s3.trace, pat) == contents(s2.trace, pat));
    assert(contents(s2.trace, pat) == contents(s1.trace, host_data(pattern)));
}

proof fn lemma_byte_fill_steps(
    program: u64,
    data: MemRef,
    pattern: HostRef,
    count: usize,
    deps: Seq<u64>,
    pre: Walk,
    post: Walk,
    ev: u64,
) -> (r: (Reply, Reply, Reply, Walk, Reply))
    requires
        byte_fills(program, data, pattern, count, deps, pre, post, Ok(ev)),
    ensures
        ({
            let (q1, q2, q3, m, x) = r;
            let s1 = pre.issued(
                Command::Alloc {
                    class: Class::DeviceUninit,
                    len: pattern.bytes,
                    bytes: pattern.bytes,
                    flags: MEM_READ_ONLY,
                    contents: Contents::Unwritten,
                },
                Seq::empty(),
                q1,
            );
            let buf = MemRef::Buffer(q1->Ok_0);
            let s2 = s1.issued(Command::Write { mem: buf, src: pattern, blocking: true }, Seq::empty(), q2);
            let s3 = s2.issued(Command::FillKernel { program, width: 0 }, Seq::empty(), q3);
            &&& q1 is Ok
            &&& q2 is Ok
            &&& q3 is Ok
            &&& launches(
                Command::RunFillBytes {
                    kernel: q3->Ok_0,
                    data,
                    pattern: q1->Ok_0,
                    width: pattern.bytes as u32,
                    count: count as u32,
                    global: count,
                },
                deps,
                s3,
                m,
                Ok(ev),
            )
            &&& post == m.issued(Command::Release { mem: buf }, Seq::empty(), x)
        }),
{
    let res = Ok::<u64, Error>(ev);
    let made = Command::Alloc {
        class: Class::DeviceUninit,
        len: pattern.bytes,
        bytes: pattern.bytes,
        flags: MEM_READ_ONLY,
        contents: Contents::Unwritten,
    };
    let q1 = choose|q1: Reply|
        {
            let s1 = #[trigger] pre.issued(made, Seq::empty(), q1);
            match q1 {
                Err(c) => false,
                Ok(buf) => byte_fill_written(program, buf, data, pattern, count, deps, s1, post, res),
            }
        };
    let buf = q1->Ok_0;
    let s1 = pre.issued(made, Seq::empty(), q1);
    let write = Command::Write { mem: MemRef::Buffer(buf), src: pattern, blocking: true };
    let q2 = choose|q2: Reply|
        {
            let s2 = #[trigger] s1.issued(write, Seq::empty(), q2);
            match q2 {
                Err(c) => false,
                Ok(_) => byte_fill_launched(program, buf, data, pattern, count, deps, s2, post, res),
            }
        };
    let s2 = s1.issued(write, Seq::empty(), q2);
    let q3 = choose|q3: Reply|
        {
            let s3 = #[trigger] s2.issued(Command::FillKernel { program, width: 0 }, Seq::empty(), q3);
            match q3 {
                Err(c) => false,
                Ok(kernel) => exists|m: Walk| #[trigger] launches(
                    Command::RunFillBytes {
                        kernel,
                        data,
                        pattern: buf,
                        width: pattern.bytes as u32,
                        count: count as u32,
                        global: count,
                    },
                    deps,
                    s3,
                    m,
                    res,
                ) && releases_buffer(buf, m, post),
            }
        };
    let s3 = s2.issued(Command::FillKernel { program, width: 0 }, Seq::empty(), q3);
    let m = choose|m: Walk| #[trigger] launches(
        Command::RunFillBytes {
            kernel: q3->Ok_0,
            data,
            pattern: buf,
            width: pattern.bytes as u32,
            count: count as u32,
            global: count,
        },
        deps,
        s3,
        m,
        res,
    ) && releases_buffer(buf, m, post);
    let x = choose|x: Reply|
        post == #[trigger] m.issued(Command::Release { mem: MemRef::Buffer(buf) }, Seq::empty(), x);
    (q1, q2, q3, m, x)
}

/// Whether a copy is of all of the source and fills all of the destination.
pub open spec fn copies_all(c: Copying, s: Obj, d: Obj) -> bool {
    &&& s.bytes == d.bytes
    &&& match c.kind {
        CopyKind::Buffer => s.class != Class::Image && d.class != Class::Image,
        CopyKind::Image(region) => s.class == Class::Image && d.class == Class::Image && region == s.extent && region
            == d.extent,
        CopyKind::WholeImage => s.class == Class::Image && d.class == Class::Image && s.extent == d.extent,
    }
}

/// Once a copy of all bytes has run, the destination holds what the source held, and
/// the source keeps it.
pub proof fn law_copied_memory_holds_the_source(c: Copying, pre: Walk, r1: Reply)
    requires
        pre.cb is Off,
        copy_after(c, pre, r1).1 is Ok,
        ({
            let w1 = after_taking(pre.w, c.src);
            copies_all(
                c,
                found(pre.w, pre.start, c.src)->Ok_0.value[0],
                found(w1, pre.start, c.dst)->Ok_0.value[0],
            )
        }),
    ensures
        ({
            let w1 = after_taking(pre.w, c.src);
            let s = found(pre.w, pre.start, c.src)->Ok_0.value[0];
            let d = found(w1, pre.start, c.dst)->Ok_0.value[0];
            let post = copy_after(c, pre, r1).0;
            &&& contents(post.trace, whole(copied(d))) == contents(pre.trace, whole(s))
            &&& contents(post.trace, whole(s)) == contents(pre.trace, whole(s))
        }),
{
    let w1 = after_taking(pre.w, c.src);
    let d = found(w1, pre.start, c.dst)->Ok_0.value[0];
    let post = copy_after(c, pre, r1).0;
    assert(whole(copied(d)) == whole(d));
    assert(post.trace.drop_last() =~= pre.trace);
}

/// The shape of an op that copies.
pub open spec fn copier(l: LeafOp) -> Option<Copying> {
    match l {
        LeafOp::CopyTo2(x) => Some(x.copying()),
        LeafOp::ImageCopy(x) => Some(x.copying()),
        _ => None,
    }
}

/// What is gathered of a leaf with two outputs lies on them once it ran.
proof fn lemma_gathered_pair(l: LeafOp, pre: Walk, post: Walk, mode: ExecMode, g: GatheredView) -> (b: Walk)
    requires
        gathers_of(DeviceOp::Leaf(l), pre, post, mode, Ok(g)),
        l.outs().len() == 2,
        l.outs()[0].cell != l.outs()[1].cell,
    ensures
        l.runs(pre, b, mode, Ok(())),
        post.trace == b.trace,
        b.w.parcel(l.outs()[0].cell) is Some,
        b.w.parcel(l.outs()[1].cell) is Some,
        values_from(g.outs, 0) == b.w.parcel(l.outs()[0].cell)->Some_0.value + b.w.parcel(
            l.outs()[1].cell,
        )->Some_0.value,
{
    let op = DeviceOp::Leaf(l);
    let h = Ok::<GatheredView, Error>(g);
    let (b, r) = choose|b: Walk, r: OpResult<()>|
        (#[trigger] passes(b, r)) && runs_of(op, pre, b, mode, r) && match r {
            Err(e) => post == b && h == Err::<GatheredView, Error>(e),
            Ok(_) => {
                let (w, d) = drain_from(outs_of(op), 0, Seq::empty(), b.w);
                post == b.at(w) && h == (match d {
                    Ok(ps) => Ok::<GatheredView, Error>(checked_out(ps)),
                    Err(k) => Err(missing_of(op, k)),
                })
            },
        };
    assert(r->Ok_0 == ());
    assert(l.runs(pre, b, mode, Ok(())));
    let p = b.w.parcel(l.outs()[0].cell);
    let q = b.w.parcel(l.outs()[1].cell);
    reveal_with_fuel(drain_from, 4);
    reveal_with_fuel(values_from, 4);
    assert(p is Some);
    assert(q is Some);
    assert(g.outs.len() == 2);
    assert(values_from(g.outs, 0) =~= p->Some_0.value + q->Some_0.value);
    b
}

/// Once a copy of all bytes was waited for, it hands out the source and the
/// destination, and both hold what the source held.
pub proof fn law_waited_copy_holds_the_source(l: LeafOp, pre: Walk, post: Walk, both: Vec<Obj>)
    requires
        copier(l) is Some,
        pre.cb is Off,
        waits(DeviceOp::Leaf(l), pre, post, Ok(both)),
        copier(l)->Some_0.src_pipe.cell != copier(l)->Some_0.dst_pipe.cell,
        both.len() == 2 ==> copies_all(copier(l)->Some_0, both[0], both[1]),
    ensures
        both.len() == 2,
        contents(post.trace, whole(both[0])) == contents(pre.trace, whole(both[0])),
        contents(post.trace, whole(both[1])) == contents(pre.trace, whole(both[0])),
{
    let a = Walk { start: None, ..pre };
    let (m, g) = lemma_waited(DeviceOp::Leaf(l), pre, post, both);
    let b = lemma_gathered_pair(l, a, m, ExecMode::Blocking, g);
    let c = copier(l)->Some_0;
    let r1 = choose|r1: Reply| (#[trigger] copy_after(c, a, r1)) == (b, Ok::<(), Error>(()));
    let w1 = after_taking(a.w, c.src);
    let s = found(a.w, a.start, c.src)->Ok_0.value[0];
    let d = found(w1, a.start, c.dst)->Ok_0.value[0];
    assert(b.w.parcel(c.src_pipe.cell)->Some_0.value =~= seq![s]);
    assert(b.w.parcel(c.dst_pipe.cell)->Some_0.value =~= seq![copied(d)]);
    assert(both@ =~= seq![s, copied(d)]);
    assert(both[0] == s && both[1] == copied(d));
    law_copied_memory_holds_the_source(c, a, r1);
    lemma_quiet_contents(m.trace, post.trace, whole(s));
    lemma_quiet_contents(m.trace, post.trace, whole(copied(d)));
}

/// Once an image upload and an image download of its output have run, the download
/// holds the pixels: as many as the image has, read once they are written.
pub proof fn law_downloaded_image_is_the_upload(
    u: ImageUploadEager,
    d: ImageDownloadEager,
    pre: Walk,
    r1: Reply,
    r2: Reply,
    r3: Reply,
    q1: Reply,
    q2: Reply,
)
    requires
        d.img == Input::Pipe(u.out),
        u.pixels.bytes == u.bytes,
        image_upload_after(u, pre, r1, r2, r3).1 is Ok,
        image_download_after(d, image_upload_after(u, pre, r1, r2, r3).0, q1, q2).1 is Ok,
    ensures
        ({
            let mid = image_upload_after(u, pre, r1, r2, r3).0;
            let post = image_download_after(d, mid, q1, q2).0;
            let out = post.w.parcel(d.out.cell);
            let n = post.trace.len() as int;
            &&& out is Some
            &&& out->Some_0.value.len() == 1
            &&& out->Some_0.value[0].class == Class::Host
            &&& out->Some_0.value[0].len == u.len
            &&& out->Some_0.value[0].bytes == u.bytes
            &&& contents(post.trace, Place::Host(out->Some_0.value[0].id, u.bytes)) == contents(
                pre.trace,
                Place::Host(u.pixels.id, u.bytes),
            )
            &&& n == pre.trace.len() + 4
            &&& post.trace[n - 3].command is WriteImage
            &&& post.trace[n - 3].reply is Ok
            &&& post.trace[n - 1].command is ReadImage
            &&& post.trace[n - 1].waits == seq![post.trace[n - 3].reply->Ok_0]
        }),
{
    let mid = image_upload_after(u, pre, r1, r2, r3).0;
    let post = image_download_after(d, mid, q1, q2).0;
    let image = uploaded_image(u, pre.context, r1->Ok_0);
    let t3 = post.trace.drop_last();
    let t2 = t3.drop_last();
    let t1 = t2.drop_last();
    assert(t2 =~= mid.trace);
    assert(t1.drop_last() =~= pre.trace);
    assert(contents(post.trace, Place::Host(q1->Ok_0, u.bytes)) == contents(t3, whole(image)));
    assert(contents(t3, whole(image)) == contents(t2, whole(image)));
    assert(contents(t2, whole(image)) == contents(t1, Place::Host(u.pixels.id, u.bytes)));
    assert(contents(t1, Place::Host(u.pixels.id, u.bytes)) == contents(pre.trace, Place::Host(u.pixels.id, u.bytes)));
}

/// An image upload followed by an image download, run as one graph and waited for,
/// gives the pixels back, as many as the image has.
pub proof fn law_image_download_gives_back_the_upload(
    n: AndThen,
    op: DeviceOp,
    u: ImageUploadEager,
    d: ImageDownloadEager,
    pre: Walk,
    post: Walk,
    got: Vec<Obj>,
)
    requires
        op matches DeviceOp::AndThen(b) && *b == n,
        n.source == DeviceOp::Leaf(LeafOp::ImageUploadEager(u)),
        n.next == DeviceOp::Leaf(LeafOp::ImageDownloadEager(d)),
        d.img == Input::Pipe(u.out),
        u.pixels.bytes == u.bytes,
        pre.cb is Off,
        waits(op, pre, post, Ok(got)),
    ensures
        got.len() == 1,
        got[0].class == Class::Host,
        got[0].len == u.len,
        got[0].bytes == u.bytes,
        contents(post.trace, Place::Host(got[0].id, got[0].bytes)) == contents(pre.trace, Place::Host(u.pixels.id, u.bytes)),
{
    let a = Walk { start: None, ..pre };
    let up = LeafOp::ImageUploadEager(u);
    let down = LeafOp::ImageDownloadEager(d);
    let mode = ExecMode::Blocking;
    assert(!seam_of(op)) by {
        assert(!seam_of(n.source) && !seam_of(n.next));
    }
    let (m, g) = lemma_waited(op, pre, post, got);
    assert(!head_addable_of(op)) by {
        assert(!head_addable_of(n.source));
    }
    assert(gathers_of(op, a, m, mode, Ok(g)));
    let res = Ok::<GatheredView, Error>(g);
    let (m1, r1) = choose|m1: Walk, r1: OpResult<()>|
        (#[trigger] passes(m1, r1)) && child_runs(n.source, a, m1, ExecMode::Pipelined, r1) && match r1 {
            Err(e) => m == m1 && res == Err::<GatheredView, Error>(e),
            Ok(_) => exists|m2: Walk, c: OpResult<bool>|
                (#[trigger] seam_step(n.source, n.next, m1, m2, c)) && match c {
                    Err(e) => m == m2 && res == Err::<GatheredView, Error>(e),
                    Ok(true) => exists|m3: Walk, r3: OpResult<GatheredView>|
                        (#[trigger] passes(m3, r3)) && node_gathers(n.next, m2.in_mode(WalkMode::Off), m3, mode, r3)
                            && chain_gathered(n, m3.in_mode(m2.cb), r3, m, res),
                    Ok(false) => exists|m3: Walk, r3: OpResult<GatheredView>|
                        (#[trigger] passes(m3, r3)) && child_gathers(n.next, m2, m3, mode, r3) && chain_gathered(
                            n,
                            m3,
                            r3,
                            m,
                            res,
                        ),
                },
        };
    assert(open_child_runs(n.source, a, m1, ExecMode::Pipelined, r1));
    assert(node_runs(n.source, a, m1, ExecMode::Pipelined, r1));
    assert(runs_of(n.source, a, m1, ExecMode::Pipelined, r1));
    assert(up.runs(a, m1, ExecMode::Pipelined, r1));
    let (q1, q2, q3) = choose|q1: Reply, q2: Reply, q3: Reply|
        (#[trigger] image_upload_after(u, a, q1, q2, q3)) == (m1, r1);
    assert(m1.cb is Off);
    let (m3, r3) = choose|m3: Walk, r3: OpResult<GatheredView>|
        (#[trigger] passes(m3, r3)) && child_gathers(n.next, m1, m3, mode, r3) && chain_gathered(n, m3, r3, m, res);
    assert(open_child_gathers(n.next, m1, m3, mode, r3));
    assert(node_gathers(n.next, m1, m3, mode, r3));
    let g3 = r3->Ok_0;
    assert(gathers_of(n.next, m1, m3, mode, Ok(g3)));
    let b = lemma_gathered_leaf(down, m1, m3, mode, g3);
    let (p1, p2) = choose|p1: Reply, p2: Reply|
        (#[trigger] image_download_after(d, m1, p1, p2)) == (b, Ok::<(), Error>(()));
    law_downloaded_image_is_the_upload(u, d, a, q1, q2, q3, p1, p2);
    assert(got@.len() == 1);
    lemma_quiet_contents(m.trace, post.trace, Place::Host(got[0].id, got[0].bytes));
}

/// One run of a graph that starts from a seeded buffer.
pub struct SeedRun {
    /// The run when the buffer's turn comes.
    pub before: Walk,
    /// The driver's answers: to the waits for launches that use the memory, and to
    /// the allocation or the write.
    pub waits: Seq<Reply>,
    pub reply: Reply,
}

impl SeedRun {
    /// The run after the buffer's turn.
    pub open spec fn after(self, u: Seed) -> Walk {
        seed_after(u, self.before, self.waits, self.reply).0
    }
}

/// Runs one after the other of graphs that start from the same seeded buffer: the
/// buffer was never used, each run finds it as the one before gave it back, and
/// the driver refuses nothing. What happens between the runs is left open, and so
/// is what was done to the memory.
pub open spec fn seed_runs(u: Seed, runs: Seq<SeedRun>) -> bool {
    &&& forall|k: int| 0 <= k < runs.len() ==> (#[trigger] runs[k]).reply is Ok
    &&& forall|k: int, j: int|
        0 <= k < runs.len() && 0 <= j < runs[k].waits.len() ==> (#[trigger] runs[k].waits[j]) is Ok
    &&& forall|k: int|
        0 < k < runs.len() ==> (#[trigger] runs[k]).before.w.busy_until(
            seeded_obj(u, runs[0].before.context, runs[0].reply->Ok_0).mem_spec(),
        ).len() <= runs[k].waits.len()
    &&& runs.len() > 0 ==> runs[0].before.w.held(u.buf) is None && !runs[0].before.w.is_seeded(u.buf)
    &&& runs.len() > 0 && is_svm(u.kind.class_spec()) ==> runs[0].before.has_svm
    &&& forall|k: int|
        0 < k < runs.len() ==> (#[trigger] runs[k]).before.w.held(u.buf) == runs[k - 1].after(u).w.reclaimed(
            u.out.cell,
        ).held(u.buf)
}

/// A seeded buffer is the same memory in every run, waits on nothing, and, where
/// its data is written again for each run, holds that data however often it ran
/// and whatever was done to the memory in between.
pub proof fn law_seeded_contents_are_new_in_every_run(u: Seed, runs: Seq<SeedRun>, k: int)
    requires
        seed_runs(u, runs),
        0 <= k < runs.len(),
    ensures
        ({
            let o = seeded_obj(u, runs[0].before.context, runs[0].reply->Ok_0);
            let run = runs[k];
            &&& seed_after(u, run.before, run.waits, run.reply).1 is Ok
            &&& run.after(u).w.parcel(u.out.cell) is Some
            &&& run.after(u).w.parcel(u.out.cell)->Some_0.value == seq![o]
            &&& run.after(u).w.parcel(u.out.cell)->Some_0.deps.len() == 0
            &&& run.after(u).w.reclaimed(u.out.cell).held(u.buf) == Some(o)
            &&& k == 0 || u.reseed ==> contents(run.after(u).trace, Place::Mem(o.mem_spec(), o.bytes))
                == contents(run.before.trace, Place::Host(u.src.id, u.src.bytes))
        }),
    decreases k,
{
    let o = seeded_obj(u, runs[0].before.context, runs[0].reply->Ok_0);
    let run = runs[k];
    assert(run.reply is Ok);
    if k > 0 {
        law_seeded_contents_are_new_in_every_run(u, runs, k - 1);
        assert(run.before.w.held(u.buf) == Some(o));
    }
    if k == 0 {
        assert(run.after(u).trace.drop_last() =~= run.before.trace);
    } else if u.reseed {
        let s = run.before.at(run.before.w.lent(u.buf));
        let evs = s.w.busy_until(o.mem_spec());
        lemma_waits_succeed(evs, 0, s, run.waits);
        lemma_waits_alone(evs, 0, s, run.waits);
        let t = waited_out(evs, 0, s, run.waits).0;
        assert(run.after(u).trace.drop_last() =~= t.trace);
        lemma_quiet_contents(run.before.trace, t.trace, host_data(u.src));
    }
}

proof fn lemma_waits_succeed(evs: Seq<u64>, i: nat, s: Walk, qs: Seq<Reply>)
    requires
        evs.len() <= qs.len(),
        forall|j: int| 0 <= j < qs.len() ==> (#[trigger] qs[j]) is Ok,
    ensures
        waited_out(evs, i, s, qs).1 is Ok,
    decreases evs.len() - i,
{
    if i < evs.len() {
        assert(qs[i as int] is Ok);
        lemma_waits_succeed(
            evs,
            i + 1,
            s.issued(Command::Wait { event: evs[i as int] }, Seq::empty(), qs[i as int]),
            qs,
        );
    }
}

} // verus!
