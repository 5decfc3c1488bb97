//! The leaf ops on images.

use crate::cb::{new_cb_cache, CbCache};
use crate::copies::{copy_after, CopyKind, CopyOperand, Copying};
use crate::error::{Error, OpResult};
use crate::exec_ctx::{Driver, ExecMode, ExecutionContext, Walk};
use crate::input::{after_taking, found, not_single_error, readiness, Input, ToInput};
use crate::leaf::{leaf_after, no_deps, run_leaf, single_dep, single_obj, Leaf, Style, Work};
use crate::leaves::{host_obj, host_vec, one_pipe, text_of, two_pipes, LeafNode};
use crate::obj::{Class, Command, Extent, HostRef, ImageDesc, MemRef, Obj, Reply};
use crate::store::{Parcel, Pipe, Store, World};
use vstd::prelude::*;

verus! {

broadcast use crate::store::group_fresh_ids;

/// Write host pixels into an image.
#[derive(Clone, Copy, Debug)]
pub struct ImageWrite {
    pub img: Input,
    pub region: Extent,
    pub data: HostRef,
    pub out: Pipe,
}

impl ImageWrite {
    /// The shape of the op.
    pub open spec fn leaf(&self) -> Leaf {
        Leaf {
            input: self.img,
            out: self.out,
            work: Work::WriteImage { region: self.region, src: self.data },
            style: Style::Native,
            keep_home: true,
            traced: false,
        }
    }

    fn shape(&self) -> (r: Leaf)
        ensures
            r == self.leaf(),
    {
        Leaf {
            input: self.img,
            out: self.out,
            work: Work::WriteImage { region: self.region, src: self.data },
            style: Style::Native,
            keep_home: true,
            traced: false,
        }
    }
}

impl LeafNode for ImageWrite {
    open spec fn outs(&self) -> Seq<Pipe> {
        seq![self.out]
    }

    open spec fn label(&self) -> Seq<char> {
        "image_write"@
    }

    open spec fn ready(&self, w: World) -> OpResult<()> {
        readiness(w, self.img)
    }

    open spec fn runs(&self, pre: Walk, post: Walk, mode: ExecMode, res: OpResult<()>) -> bool {
        exists|r1: Reply, r2: Reply|
            (#[trigger] leaf_after(self.leaf(), pre, mode, r1, r2)) == (post, res)
    }

    fn pipes(&self) -> (r: Vec<Pipe>) {
        one_pipe(self.out)
    }

    fn describe(&self) -> (r: String) {
        text_of("image_write")
    }

    fn check_ready(&self, st: &Store) -> (r: OpResult<()>) {
        self.img.check_ready(st)
    }

    fn execute<D: Driver>(&self, ec: &mut ExecutionContext<D>, mode: ExecMode) -> (r: OpResult<()>) {
        run_leaf(ec, &self.shape(), mode)
    }
}

/// Read an image into host data of the caller.
#[derive(Clone, Copy, Debug)]
pub struct ImageRead {
    pub img: Input,
    pub region: Extent,
    pub dst: u64,
    pub out: Pipe,
}

impl ImageRead {
    /// The shape of the op.
    pub open spec fn leaf(&self) -> Leaf {
        Leaf {
            input: self.img,
            out: self.out,
            work: Work::ReadImage { region: self.region, dst: self.dst },
            style: Style::Native,
            keep_home: true,
            traced: false,
        }
    }

    fn shape(&self) -> (r: Leaf)
        ensures
            r == self.leaf(),
    {
        Leaf {
            input: self.img,
            out: self.out,
            work: Work::ReadImage { region: self.region, dst: self.dst },
            style: Style::Native,
            keep_home: true,
            traced: false,
        }
    }
}

impl LeafNode for ImageRead {
    open spec fn outs(&self) -> Seq<Pipe> {
        seq![self.out]
    }

    open spec fn label(&self) -> Seq<char> {
        "image_read"@
    }

    open spec fn ready(&self, w: World) -> OpResult<()> {
        readiness(w, self.img)
    }

    open spec fn runs(&self, pre: Walk, post: Walk, mode: ExecMode, res: OpResult<()>) -> bool {
        exists|r1: Reply, r2: Reply|
            (#[trigger] leaf_after(self.leaf(), pre, mode, r1, r2)) == (post, res)
    }

    fn pipes(&self) -> (r: Vec<Pipe>) {
        one_pipe(self.out)
    }

    fn describe(&self) -> (r: String) {
        text_of("image_read")
    }

    fn check_ready(&self, st: &Store) -> (r: OpResult<()>) {
        self.img.check_ready(st)
    }

    fn execute<D: Driver>(&self, ec: &mut ExecutionContext<D>, mode: ExecMode) -> (r: OpResult<()>) {
        run_leaf(ec, &self.shape(), mode)
    }
}

/// Fill every pixel of an image with a pattern.
#[derive(Clone, Copy, Debug)]
pub struct ImageFill {
    pub img: Input,
    pub region: Extent,
    pub pattern: HostRef,
    pub out: Pipe,
    pub cb_cache: CbCache,
}

impl ImageFill {
    /// The shape of the op.
    pub open spec fn leaf(&self) -> Leaf {
        Leaf {
            input: self.img,
            out: self.out,
            work: Work::FillImage { region: self.region, pattern: self.pattern },
            style: Style::Deferred,
            keep_home: true,
            traced: true,
        }
    }

    fn shape(&self) -> (r: Leaf)
        ensures
            r == self.leaf(),
    {
        Leaf {
            input: self.img,
            out: self.out,
            work: Work::FillImage { region: self.region, pattern: self.pattern },
            style: Style::Deferred,
            keep_home: true,
            traced: true,
        }
    }
}

impl LeafNode for ImageFill {
    open spec fn outs(&self) -> Seq<Pipe> {
        seq![self.out]
    }

    open spec fn label(&self) -> Seq<char> {
        "image_fill"@
    }

    open spec fn ready(&self, w: World) -> OpResult<()> {
        readiness(w, self.img)
    }

    open spec fn runs(&self, pre: Walk, post: Walk, mode: ExecMode, res: OpResult<()>) -> bool {
        exists|r1: Reply, r2: Reply|
            (#[trigger] leaf_after(self.leaf(), pre, mode, r1, r2)) == (post, res)
    }

    fn pipes(&self) -> (r: Vec<Pipe>) {
        one_pipe(self.out)
    }

    fn describe(&self) -> (r: String) {
        text_of("image_fill")
    }

    fn check_ready(&self, st: &Store) -> (r: OpResult<()>) {
        self.img.check_ready(st)
    }

    fn execute<D: Driver>(&self, ec: &mut ExecutionContext<D>, mode: ExecMode) -> (r: OpResult<()>) {
        run_leaf(ec, &self.shape(), mode)
    }
}

/// Copy one image into another and pass both on.
#[derive(Clone, Copy, Debug)]
pub struct ImageCopy {
    pub src: Input,
    pub dst: Input,
    /// The region; where there is none, the source's own extent.
    pub region: Option<Extent>,
    pub src_pipe: Pipe,
    pub dst_pipe: Pipe,
    pub cb_cache: CbCache,
}

impl ImageCopy {
    /// The kind of the copy.
    pub open spec fn kind_spec(&self) -> CopyKind {
        match self.region {
            Some(r) => CopyKind::Image(r),
            None => CopyKind::WholeImage,
        }
    }

    /// The shape of the op.
    pub open spec fn copying(&self) -> Copying {
        Copying {
            src: self.src,
            dst: self.dst,
            src_pipe: self.src_pipe,
            dst_pipe: self.dst_pipe,
            kind: self.kind_spec(),
        }
    }

    fn shape(&self) -> (r: Copying)
        ensures
            r == self.copying(),
    {
        let kind = match self.region {
            Some(r) => CopyKind::Image(r),
            None => CopyKind::WholeImage,
        };
        Copying { src: self.src, dst: self.dst, src_pipe: self.src_pipe, dst_pipe: self.dst_pipe, kind }
    }
}

/// Copy `src` into `dst`, over the extent that `src` has when the copy runs.
pub fn eager_image_copy<S: CopyOperand, T: CopyOperand>(st: &mut Store, src: S, dst: T) -> (r: ImageCopy)
    requires
        old(st)@.next + 5 <= u64::MAX,
    ensures
        r.region is None,
        ({
            let (i, w1) = src.input_spec(old(st)@);
            let (j, w2) = dst.input_spec(w1);
            &&& r.src == i
            &&& r.dst == j
            &&& r.src_pipe.cell == w2.next
            &&& r.dst_pipe.cell == w2.next + 1
            &&& r.cb_cache == w2.next + 2
            &&& final(st)@ == w2.fresh_ids(3nat)
        }),
{
    let src = src.into_copy_input(st);
    let dst = dst.into_copy_input(st);
    let src_pipe = st.pipe();
    let dst_pipe = st.pipe();
    let cb_cache = new_cb_cache(st);
    ImageCopy { src, dst, region: None, src_pipe, dst_pipe, cb_cache }
}

impl LeafNode for ImageCopy {
    open spec fn outs(&self) -> Seq<Pipe> {
        seq![self.src_pipe, self.dst_pipe]
    }

    open spec fn label(&self) -> Seq<char> {
        "image_copy"@
    }

    open spec fn ready(&self, w: World) -> OpResult<()> {
        self.copying().ready_spec(w)
    }

    open spec fn runs(&self, pre: Walk, post: Walk, mode: ExecMode, res: OpResult<()>) -> bool {
        exists|r1: Reply| (#[trigger] copy_after(self.copying(), pre, r1)) == (post, res)
    }

    fn pipes(&self) -> (r: Vec<Pipe>) {
        two_pipes(self.src_pipe, self.dst_pipe)
    }

    fn describe(&self) -> (r: String) {
        text_of("image_copy")
    }

    fn check_ready(&self, st: &Store) -> (r: OpResult<()>) {
        self.shape().check(st)
    }

    fn execute<D: Driver>(&self, ec: &mut ExecutionContext<D>, mode: ExecMode) -> (r: OpResult<()>) {
        self.shape().run(ec)
    }
}

/// Create an image and write host pixels into it, in every run.
#[derive(Clone, Copy, Debug)]
pub struct ImageUploadEager {
    pub pixels: HostRef,
    pub desc: ImageDesc,
    pub region: Extent,
    pub len: usize,
    /// The size of the image: its pixels times the size of one.
    pub bytes: usize,
    pub out: Pipe,
}

/// The image that an upload creates.
pub open spec fn uploaded_image(u: ImageUploadEager, ctx: u64, id: u64) -> Obj {
    Obj {
        class: Class::Image,
        id,
        ctx,
        extent: u.region,
        len: u.len,
        bytes: u.bytes,
        shared: false,
    }
}

/// One run of an image upload: `r1` answers the creation, `r2` the write. An image
/// that was not written is let go of, which `r3` answers.
pub open spec fn image_upload_after(u: ImageUploadEager, pre: Walk, r1: Reply, r2: Reply, r3: Reply) -> (
    Walk,
    OpResult<()>,
) {
    let s = pre.issued(Command::CreateImage { desc: u.desc }, Seq::empty(), r1);
    match r1 {
        Err(c) => (s, Err(Error::OpenCl(c))),
        Ok(h) => {
            let t = s.issued(
                Command::WriteImage {
                    mem: MemRef::Buffer(h),
                    region: u.region,
                    src: u.pixels,
                    blocking: false,
                },
                Seq::empty(),
                r2,
            );
            match r2 {
                Err(c) => (
                    t.issued(Command::Release { mem: MemRef::Buffer(h) }, Seq::empty(), r3),
                    Err(Error::OpenCl(c)),
                ),
                Ok(ev) => (
                    t.put(u.out.cell, seq![uploaded_image(u, pre.context, h)], seq![ev], None),
                    Ok(()),
                ),
            }
        },
    }
}

impl LeafNode for ImageUploadEager {
    open spec fn outs(&self) -> Seq<Pipe> {
        seq![self.out]
    }

    open spec fn label(&self) -> Seq<char> {
        "image_upload"@
    }

    open spec fn ready(&self, w: World) -> OpResult<()> {
        Ok(())
    }

    open spec fn runs(&self, pre: Walk, post: Walk, mode: ExecMode, res: OpResult<()>) -> bool {
        exists|r1: Reply, r2: Reply, r3: Reply|
            (#[trigger] image_upload_after(*self, pre, r1, r2, r3)) == (post, res)
    }

    fn pipes(&self) -> (r: Vec<Pipe>) {
        one_pipe(self.out)
    }

    fn describe(&self) -> (r: String) {
        text_of("image_upload")
    }

    fn check_ready(&self, st: &Store) -> (r: OpResult<()>) {
        Ok(())
    }

    fn execute<D: Driver>(&self, ec: &mut ExecutionContext<D>, mode: ExecMode) -> (r: OpResult<()>) {
        let ghost pre = ec@;
        let ghost no: Reply = Err(0);
        let r1: Reply = ec.issue(Command::CreateImage { desc: self.desc }, &no_deps());
        let h: u64 = match r1 {
            Ok(h) => h,
            Err(c) => {
                assert(image_upload_after(*self, pre, r1, no, no).0 == ec@);
                return Err(Error::OpenCl(c));
            },
        };
        let r2: Reply = ec.issue(
            Command::WriteImage {
                mem: MemRef::Buffer(h),
                region: self.region,
                src: self.pixels,
                blocking: false,
            },
            &no_deps(),
        );
        match r2 {
            Err(c) => {
                let r3: Reply = ec.issue(Command::Release { mem: MemRef::Buffer(h) }, &no_deps());
                assert(image_upload_after(*self, pre, r1, r2, r3).0 == ec@);
                Err(Error::OpenCl(c))
            },
            Ok(ev) => {
                let o = Obj {
                    class: Class::Image,
                    id: h,
                    ctx: ec.context(),
                    extent: self.region,
                    len: self.len,
                    bytes: self.bytes,
                    shared: false,
                };
                ec.put_home(&self.out, single_obj(o), single_dep(ev), None);
                assert(image_upload_after(*self, pre, r1, r2, no).0 == ec@);
                Ok(())
            },
        }
    }
}

/// Read an image into a fresh host vector.
#[derive(Clone, Copy, Debug)]
pub struct ImageDownloadEager {
    pub img: Input,
    pub out: Pipe,
}

/// Read an image into a fresh host vector.
pub fn image_download<B: ToInput>(st: &mut Store, img: B) -> (r: ImageDownloadEager)
    requires
        old(st)@.next + 2 <= u64::MAX,
    ensures
        r.img == img.input_spec(old(st)@).0,
        r.out.cell == img.input_spec(old(st)@).1.next,
        final(st)@ == img.input_spec(old(st)@).1.fresh_ids(1nat),
{
    let img = img.to_input(st);
    let out = st.pipe();
    ImageDownloadEager { img, out }
}

/// One run of an image download: `r1` answers the host allocation, `r2` the
/// read.
pub open spec fn image_download_after(d: ImageDownloadEager, pre: Walk, r1: Reply, r2: Reply) -> (Walk, OpResult<()>) {
    match found(pre.w, pre.start, d.img) {
        Err(e) => (pre, Err(e)),
        Ok(p) => {
            let s = pre.at(after_taking(pre.w, d.img));
            if p.value.len() != 1 {
                (s, Err(not_single_error()))
            } else {
                let o = p.value[0];
                let t = s.issued(Command::HostAlloc { len: o.len, bytes: o.bytes }, Seq::empty(), r1);
                match r1 {
                    Err(c) => (t, Err(Error::OpenCl(c))),
                    Ok(h) => {
                        let u = t.issued(
                            Command::ReadImage {
                                mem: o.mem_spec(),
                                region: o.extent,
                                dst: h,
                                blocking: false,
                            },
                            p.deps,
                            r2,
                        );
                        match r2 {
                            Err(c) => (u, Err(Error::OpenCl(c))),
                            Ok(ev) => (
                                u.put(d.out.cell, seq![host_obj(h, o)], seq![ev], None),
                                Ok(()),
                            ),
                        }
                    },
                }
            }
        },
    }
}

impl LeafNode for ImageDownloadEager {
    open spec fn outs(&self) -> Seq<Pipe> {
        seq![self.out]
    }

    open spec fn label(&self) -> Seq<char> {
        "image_download"@
    }

    open spec fn ready(&self, w: World) -> OpResult<()> {
        readiness(w, self.img)
    }

    open spec fn runs(&self, pre: Walk, post: Walk, mode: ExecMode, res: OpResult<()>) -> bool {
        exists|r1: Reply, r2: Reply|
            (#[trigger] image_download_after(*self, pre, r1, r2)) == (post, res)
    }

    fn pipes(&self) -> (r: Vec<Pipe>) {
        one_pipe(self.out)
    }

    fn describe(&self) -> (r: String) {
        text_of("image_download")
    }

    fn check_ready(&self, st: &Store) -> (r: OpResult<()>) {
        self.img.check_ready(st)
    }

    fn execute<D: Driver>(&self, ec: &mut ExecutionContext<D>, mode: ExecMode) -> (r: OpResult<()>) {
        let ghost pre = ec@;
        let ghost no: Reply = Err(0);
        let p: Parcel = match ec.resolve_home(&self.img) {
            Ok(p) => p,
            Err(e) => {
                assert(image_download_after(*self, pre, no, no).0 == ec@);
                return Err(e);
            },
        };
        if p.value.len() != 1 {
            assert(image_download_after(*self, pre, no, no).0 == ec@);
            return Err(Error::InvalidArgument("an op over one buffer was given a group of values"));
        }
        let o: Obj = p.value[0];
        let r1: Reply = ec.issue(Command::HostAlloc { len: o.len, bytes: o.bytes }, &no_deps());
        let h: u64 = match r1 {
            Ok(h) => h,
            Err(c) => {
                assert(image_download_after(*self, pre, r1, no).0 == ec@);
                return Err(Error::OpenCl(c));
            },
        };
        let r2: Reply = ec.issue(
            Command::ReadImage { mem: o.mem(), region: o.extent, dst: h, blocking: false },
            &p.deps,
        );
        match r2 {
            Err(c) => {
                assert(image_download_after(*self, pre, r1, r2).0 == ec@);
                Err(Error::OpenCl(c))
            },
            Ok(ev) => {
                let host = host_vec(h, &o);
                ec.put_home(&self.out, single_obj(host), single_dep(ev), None);
                assert(image_download_after(*self, pre, r1, r2).0 == ec@);
                Ok(())
            },
        }
    }
}

} // verus!
