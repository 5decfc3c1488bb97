//! Images: storage formats, the image types, and the ops they start.

use crate::access::{access_flags, KernelAccess, ReadOnly, ReadWrite, WriteOnly};
use crate::cb::new_cb_cache;
use crate::error::{Error, OpResult};
use crate::exec_ctx::{Driver, ExecutionContext, Walk};
use crate::image_ops::{ImageCopy, ImageFill, ImageRead, ImageUploadEager, ImageWrite};
use crate::input::{Checkout, Input};
use crate::launch::{ArgValue, DeviceSlice, ExecuteKernel, InFlight, KernelArg};
use crate::leaf::no_deps;
use crate::obj::{Class, Command, Contents, Extent, HostRef, ImageDesc, MemRef, Obj, Reply};
use crate::slots::SlotHandle;
use crate::store::{Pipe, Store, World};
use core::marker::PhantomData;
use vstd::prelude::*;

use crate::terminals::{check_here, here};

verus! {

broadcast use crate::store::group_fresh_ids;

/// `CL_INVALID_IMAGE_SIZE`.
pub const CL_INVALID_IMAGE_SIZE: i32 = -40;

/// `CL_INVALID_BUFFER_SIZE`.
pub const CL_INVALID_BUFFER_SIZE: i32 = -61;

/// `CL_R`.
pub const CL_R: u32 = 0x10B0;

/// `CL_RG`.
pub const CL_RG: u32 = 0x10B2;

/// `CL_RGBA`.
pub const CL_RGBA: u32 = 0x10B5;

/// `CL_SNORM_INT8`.
pub const CL_SNORM_INT8: u32 = 0x10D0;

/// `CL_SNORM_INT16`.
pub const CL_SNORM_INT16: u32 = 0x10D1;

/// `CL_UNORM_INT8`.
pub const CL_UNORM_INT8: u32 = 0x10D2;

/// `CL_UNORM_INT16`.
pub const CL_UNORM_INT16: u32 = 0x10D3;

/// `CL_SIGNED_INT8`.
pub const CL_SIGNED_INT8: u32 = 0x10D7;

/// `CL_SIGNED_INT16`.
pub const CL_SIGNED_INT16: u32 = 0x10D8;

/// `CL_SIGNED_INT32`.
pub const CL_SIGNED_INT32: u32 = 0x10D9;

/// `CL_UNSIGNED_INT8`.
pub const CL_UNSIGNED_INT8: u32 = 0x10DA;

/// `CL_UNSIGNED_INT16`.
pub const CL_UNSIGNED_INT16: u32 = 0x10DB;

/// `CL_UNSIGNED_INT32`.
pub const CL_UNSIGNED_INT32: u32 = 0x10DC;

/// `CL_HALF_FLOAT`.
pub const CL_HALF_FLOAT: u32 = 0x10DD;

/// `CL_FLOAT`.
pub const CL_FLOAT: u32 = 0x10DE;

/// `CL_MEM_OBJECT_IMAGE2D`.
pub const CL_MEM_OBJECT_IMAGE2D: u32 = 0x10F1;

/// `CL_MEM_OBJECT_IMAGE3D`.
pub const CL_MEM_OBJECT_IMAGE3D: u32 = 0x10F2;

/// `CL_MEM_OBJECT_IMAGE2D_ARRAY`.
pub const CL_MEM_OBJECT_IMAGE2D_ARRAY: u32 = 0x10F3;

/// `CL_MEM_OBJECT_IMAGE1D`.
pub const CL_MEM_OBJECT_IMAGE1D: u32 = 0x10F4;

/// `CL_MEM_OBJECT_IMAGE1D_ARRAY`.
pub const CL_MEM_OBJECT_IMAGE1D_ARRAY: u32 = 0x10F5;

/// `CL_MEM_OBJECT_IMAGE1D_BUFFER`.
pub const CL_MEM_OBJECT_IMAGE1D_BUFFER: u32 = 0x10F6;

/// The formats of this library.
pub trait Sealed {

}

/// The sampled-type families of this library.
pub trait FamilySealed {

}

/// What a kernel sees when it samples an image.
pub trait SampledTypeFamily: FamilySealed {

}

/// Kernels see unsigned integers.
#[derive(Clone, Copy, Debug)]
pub struct Uint;

impl FamilySealed for Uint {

}

impl SampledTypeFamily for Uint {

}

/// Kernels see signed integers.
#[derive(Clone, Copy, Debug)]
pub struct Sint;

impl FamilySealed for Sint {

}

impl SampledTypeFamily for Sint {

}

/// Kernels see floating-point numbers.
#[derive(Clone, Copy, Debug)]
pub struct Float;

impl FamilySealed for Float {

}

impl SampledTypeFamily for Float {

}

/// A storage format.
pub trait Format: Sealed + Sized {
    /// What a kernel sees when it samples an image of the format.
    type SampledFamily: SampledTypeFamily;

    /// The channel order.
    spec fn order() -> u32;

    /// The channel data type.
    spec fn ctype() -> u32;

    /// The bytes of one pixel.
    spec fn pixel_bytes() -> usize;

    fn channel_order() -> (r: u32)
        ensures
            r == Self::order(),
    ;

    fn channel_type() -> (r: u32)
        ensures
            r == Self::ctype(),
    ;

    fn pixel_size() -> (r: usize)
        ensures
            r == Self::pixel_bytes(),
            r > 0,
    ;
}

/// What the image ops need of an image: its handle, its context and its extent.
pub trait ImageEnqueue: Sized {
    /// The image as a value of the graph.
    spec fn obj(&self) -> Obj;

    /// The image as a value of the graph.
    fn to_obj(&self) -> (r: Obj)
        ensures
            r == self.obj(),
            r.class == Class::Image,
    ;

    /// The extent that the image ops work over.
    fn enqueue_region(&self) -> (r: Extent)
        ensures
            r == self.obj().extent,
    ;
}

/// Image types that an upload can create and a download can read.
pub trait ImageHostTransfer: ImageEnqueue {
    /// The dimensions of the image type.
    type Dims;

    /// Whether an image of these dimensions can be addressed.
    spec fn fits(dims: Self::Dims) -> bool;

    /// The description that an image of these dimensions is created from.
    spec fn desc_of(dims: Self::Dims) -> ImageDesc;

    /// The extent of an image of these dimensions.
    spec fn region_of(dims: Self::Dims) -> Extent;

    /// The pixels of an image of these dimensions.
    spec fn count_of(dims: Self::Dims) -> nat;

    /// The bytes of a pixel.
    spec fn pixel_bytes_of() -> nat;

    /// Description, extent, pixels and bytes of an image of these dimensions.
    fn plan(dims: Self::Dims) -> (r: (ImageDesc, Extent, usize, usize))
        requires
            Self::fits(dims),
        ensures
            r.0 == Self::desc_of(dims),
            r.1 == Self::region_of(dims),
            r.2 == Self::count_of(dims),
            r.3 == Self::count_of(dims) * Self::pixel_bytes_of(),
    ;

    /// The pixels of the image.
    fn pixel_count(&self) -> (r: usize)
        ensures
            r == self.obj().len,
    ;
}

/// Whether an image of these sizes and pixels can be addressed.
pub open spec fn image_fits(x: nat, y: nat, z: nat, pixel: nat) -> bool {
    x * y <= usize::MAX && x * y * z <= usize::MAX && x * y * z * pixel <= usize::MAX
}

fn fits_memory(x: usize, y: usize, z: usize, pixel: usize) -> (r: bool)
    ensures
        r == image_fits(x as nat, y as nat, z as nat, pixel as nat),
{
    match x.checked_mul(y) {
        None => false,
        Some(a) => match a.checked_mul(z) {
            None => false,
            Some(b) => b.checked_mul(pixel).is_some(),
        },
    }
}

/// Create an image of type `I` from host pixels, in every run.
pub fn image_upload<I: ImageHostTransfer>(st: &mut Store, pixels: HostRef, dims: I::Dims) -> (r: ImageUploadEager)
    requires
        I::fits(dims),
        old(st)@.next < u64::MAX,
    ensures
        r == (ImageUploadEager {
            pixels,
            desc: I::desc_of(dims),
            region: I::region_of(dims),
            len: I::count_of(dims) as usize,
            bytes: (I::count_of(dims) * I::pixel_bytes_of()) as usize,
            out: Pipe { cell: old(st)@.next },
        }),
        final(st)@ == old(st)@.fresh_ids(1nat),
{
    let (desc, region, len, bytes) = I::plan(dims);
    ImageUploadEager { pixels, desc, region, len, bytes, out: st.pipe() }
}

/// A read of a whole image into a fresh host vector.
#[derive(Clone, Copy, Debug)]
pub struct ImageReadAlloc {
    pub image: Obj,
    pub region: Extent,
    pub pixel_count: usize,
}

/// A read of a whole image into fresh host bytes.
#[derive(Clone, Copy, Debug)]
pub struct ImageReadBytesAlloc {
    pub image: Obj,
    pub region: Extent,
    pub byte_len: usize,
}

/// A blocking read of an image into fresh host data of `len` elements: `r1`
/// answers the host allocation, `r2` the read.
pub open spec fn read_alloc_after(
    image: Obj,
    region: Extent,
    len: usize,
    pre: Walk,
    r1: Reply,
    r2: Reply,
) -> (Walk, OpResult<u64>) {
    let s = pre.issued(Command::HostAlloc { len, bytes: image.bytes }, Seq::empty(), r1);
    match r1 {
        Err(c) => (s, Err(Error::OpenCl(c))),
        Ok(h) => (
            s.issued(
                Command::ReadImage { mem: image.mem_spec(), region, dst: h, blocking: true },
                Seq::empty(),
                r2,
            ),
            match r2 {
                Err(c) => Err(Error::OpenCl(c)),
                Ok(_) => Ok(h),
            },
        ),
    }
}

fn read_alloc<D: Driver>(ec: &mut ExecutionContext<D>, image: &Obj, region: Extent, len: usize) -> (r: OpResult<u64>)
    ensures
        exists|r1: Reply, r2: Reply|
            (#[trigger] read_alloc_after(*image, region, len, old(ec)@, r1, r2)) == (final(ec)@, r),
{
    let ghost pre = ec@;
    let r1: Reply = ec.issue(Command::HostAlloc { len, bytes: image.bytes }, &no_deps());
    match r1 {
        Err(c) => {
            assert(read_alloc_after(*image, region, len, pre, r1, Err(0)) == (
                ec@,
                Err::<u64, Error>(Error::OpenCl(c)),
            ));
            Err(Error::OpenCl(c))
        },
        Ok(h) => {
            let r2: Reply = ec.issue(
                Command::ReadImage { mem: image.mem(), region, dst: h, blocking: true },
                &no_deps(),
            );
            match r2 {
                Err(c) => {
                    assert(read_alloc_after(*image, region, len, pre, r1, r2) == (
                        ec@,
                        Err::<u64, Error>(Error::OpenCl(c)),
                    ));
                    Err(Error::OpenCl(c))
                },
                Ok(_) => {
                    assert(read_alloc_after(*image, region, len, pre, r1, r2) == (
                        ec@,
                        Ok::<u64, Error>(h),
                    ));
                    Ok(h)
                },
            }
        },
    }
}

impl ImageReadAlloc {
    /// Read the image and wait; the answer is the host vector.
    pub fn wait<D: Driver>(self, ec: &mut ExecutionContext<D>) -> (r: OpResult<u64>)
        ensures
            match here(Ok(self.image.ctx), old(ec)@.context) {
                Err(e) => r == Err::<u64, Error>(e) && final(ec)@ == old(ec)@,
                Ok(_) => exists|r1: Reply, r2: Reply|
                (#[trigger] read_alloc_after(
                    self.image,
                    self.region,
                    self.pixel_count,
                    old(ec)@,
                    r1,
                    r2,
                )) == (final(ec)@, r),
            },
    {
        if let Err(e) = check_here(Ok(self.image.ctx), ec.context()) {
            return Err(e);
        }
        self.wait_on(ec)
    }

    /// Read the image on the queue of `ec` and wait; the answer is the host
    /// vector.
    pub fn wait_on<D: Driver>(self, ec: &mut ExecutionContext<D>) -> (r: OpResult<u64>)
        ensures
            exists|r1: Reply, r2: Reply|
                (#[trigger] read_alloc_after(
                    self.image,
                    self.region,
                    self.pixel_count,
                    old(ec)@,
                    r1,
                    r2,
                )) == (final(ec)@, r),
    {
        read_alloc(ec, &self.image, self.region, self.pixel_count)
    }
}

impl ImageReadBytesAlloc {
    /// Read the image and wait; the answer is the host bytes.
    pub fn wait<D: Driver>(self, ec: &mut ExecutionContext<D>) -> (r: OpResult<u64>)
        ensures
            match here(Ok(self.image.ctx), old(ec)@.context) {
                Err(e) => r == Err::<u64, Error>(e) && final(ec)@ == old(ec)@,
                Ok(_) => exists|r1: Reply, r2: Reply|
                (#[trigger] read_alloc_after(
                    self.image,
                    self.region,
                    self.byte_len,
                    old(ec)@,
                    r1,
                    r2,
                )) == (final(ec)@, r),
            },
    {
        if let Err(e) = check_here(Ok(self.image.ctx), ec.context()) {
            return Err(e);
        }
        self.wait_on(ec)
    }

    /// Read the image on the queue of `ec` and wait; the answer is the host
    /// bytes.
    pub fn wait_on<D: Driver>(self, ec: &mut ExecutionContext<D>) -> (r: OpResult<u64>)
        ensures
            exists|r1: Reply, r2: Reply|
                (#[trigger] read_alloc_after(
                    self.image,
                    self.region,
                    self.byte_len,
                    old(ec)@,
                    r1,
                    r2,
                )) == (final(ec)@, r),
    {
        read_alloc(ec, &self.image, self.region, self.byte_len)
    }
}

/// What can stand as the image argument of a kernel.
pub trait ToInputImage: Sized {
    /// Whether there is an image to stand for.
    spec fn imageable(self) -> bool;

    /// The input and the cells once it is made.
    spec fn image_input_spec(self, w: World) -> (Input, World);

    fn to_input_image(self, st: &mut Store) -> (r: Input)
        requires
            self.imageable(),
            old(st)@.next < u64::MAX,
        ensures
            (r, final(st)@) == self.image_input_spec(old(st)@),
    ;
}

impl ToInputImage for Pipe {
    open spec fn imageable(self) -> bool {
        true
    }

    open spec fn image_input_spec(self, w: World) -> (Input, World) {
        (Input::Pipe(self), w)
    }

    fn to_input_image(self, st: &mut Store) -> (r: Input) {
        Input::Pipe(self)
    }
}

/// The image of a checkout is taken for good.
impl ToInputImage for Checkout {
    open spec fn imageable(self) -> bool {
        self.value@.len() == 1
    }

    open spec fn image_input_spec(self, w: World) -> (Input, World) {
        let v = w.severed(self.home);
        (Input::Concrete(v.next), v.fresh_ids(1nat).holding(v.next, self.value@[0]))
    }

    fn to_input_image(self, st: &mut Store) -> (r: Input) {
        let v: Vec<Obj> = self.into_inner(st);
        Input::concrete(st, v[0])
    }
}

impl ToInputImage for SlotHandle {
    open spec fn imageable(self) -> bool {
        true
    }

    open spec fn image_input_spec(self, w: World) -> (Input, World) {
        (
            Input::Slot { key: self.key, name: self.name, cell: self.cell, sink: w.next },
            w.fresh_ids(1nat),
        )
    }

    fn to_input_image(self, st: &mut Store) -> (r: Input) {
        self.into_slot_input(st)
    }
}

/// An image about to be written: a fresh input that owns it, and a fresh pipe.
fn own_image(st: &mut Store, o: Obj) -> (r: (Input, Pipe))
    requires
        old(st)@.next + 2 <= u64::MAX,
    ensures
        r.0 == Input::Concrete(old(st)@.next),
        r.1 == (Pipe { cell: (old(st)@.next + 1) as u64 }),
        final(st)@ == owned_image(old(st)@, o),
{
    let img = Input::concrete(st, o);
    let out = st.pipe();
    assert(st@ =~= owned_image(old(st)@, o));
    (img, out)
}

/// The cells once an op owns an image and has an output.
pub open spec fn owned_image(w: World, o: Obj) -> World {
    w.fresh_ids(2nat).holding(w.next, o)
}

/// The cells once an op owns an image, has an output, and can keep a command
/// buffer.
pub open spec fn owned_cached_image(w: World, o: Obj) -> World {
    w.fresh_ids(3nat).holding(w.next, o)
}

/// The cells once a copy owns two images.
pub open spec fn owned_images(w: World, a: Obj, b: Obj) -> World {
    w.fresh_ids(5nat).holding(w.next, a).holding((w.next + 1) as u64, b)
}

/// A two-dimensional image.
pub struct Image2D<A: KernelAccess, F: Format> {
    image: u64,
    ctx: u64,
    width: u32,
    height: u32,
    access: PhantomData<A>,
    format: PhantomData<F>,
}

/// The description of an image of these dimensions.
pub open spec fn image2d_desc<A: KernelAccess, F: Format>(width: u32, height: u32) -> ImageDesc {
    ImageDesc {
        image_type: CL_MEM_OBJECT_IMAGE2D,
        width: width as usize,
        height: height as usize,
        depth: 1,
        array_size: 0,
        buffer: 0,
        channel_order: F::order(),
        channel_type: F::ctype(),
        flags: crate::access::access_flags(A::reads(), A::writes()),
    }
}

impl<A: KernelAccess, F: Format> Image2D<A, F> {
    /// The image can be addressed.
    #[verifier::type_invariant]
    closed spec fn inv(self) -> bool {
        self.width * self.height * F::pixel_bytes() <= usize::MAX
    }

    /// The dimensions.
    pub closed spec fn dims_spec(&self) -> (u32, u32) {
        (self.width, self.height)
    }

    /// The handle of the image and its context.
    pub closed spec fn handle_spec(&self) -> (u64, u64) {
        (self.image, self.ctx)
    }

    fn count(&self) -> (r: usize)
        ensures
            r == self.width * self.height,
            r * F::pixel_bytes() <= usize::MAX,
    {
        proof {
            use_type_invariant(self);
        }
        let p: usize = F::pixel_size();
        proof {
            assert(self.width * self.height <= self.width * self.height * F::pixel_bytes()) by (nonlinear_arith)
                requires
                    F::pixel_bytes() > 0,
                    self.width * self.height >= 0,
            ;
        }
        (self.width as usize) * (self.height as usize)
    }

    /// Create an image.
    pub fn create<D: Driver>(ec: &mut ExecutionContext<D>, width: u32, height: u32) -> (r: OpResult<Self>)
        ensures
            exists|q: Reply, x: Reply|
                (#[trigger] image_made(
                    image2d_desc::<A, F>(width, height),
                    image_fits(width as nat, height as nat, 1, F::pixel_bytes() as nat),
                    old(ec)@,
                    q,
                    x,
                )) == (final(ec)@, (match r {
                    Ok(img) => Ok::<u64, Error>(img.handle_spec().0),
                    Err(e) => Err(e),
                })),
            r matches Ok(img) ==> img.dims_spec() == (width, height) && img.handle_spec().1 == old(ec)@.context,
    {
        let desc = ImageDesc {
                image_type: CL_MEM_OBJECT_IMAGE2D,
                width: width as usize,
                height: height as usize,
                depth: 1,
                array_size: 0,
                buffer: 0,
                channel_order: F::channel_order(),
                channel_type: F::channel_type(),
                flags: A::kernel_flags(),
            };
        let ctx: u64 = ec.context();
        let fits: bool = fits_memory(width as usize, height as usize, 1, F::pixel_size());
        assert(desc == image2d_desc::<A, F>(width, height));
        assert(fits == image_fits(width as nat, height as nat, 1, F::pixel_bytes() as nat));
        match make_image(ec, desc, fits) {
            Err(e) => Err(e),
            Ok(h) => Ok(Image2D { image: h, ctx, width, height, access: PhantomData, format: PhantomData }),
        }
    }

    /// The extent that the image ops work over.
    pub open spec fn region_spec(&self) -> Extent {
        Extent { x: self.dims_spec().0 as usize, y: self.dims_spec().1 as usize, z: 1 }
    }

    /// The pixels of the image.
    pub open spec fn count_spec(&self) -> nat {
        (self.dims_spec().0 * self.dims_spec().1) as nat
    }

    /// Read the image into the host data `dst`, which must hold a pixel per
    /// pixel of the image.
    pub fn read(self, st: &mut Store, dst: HostRef) -> (r: OpResult<ImageRead>)
        requires
            old(st)@.next + 2 <= u64::MAX,
        ensures
            if dst.len != self.count_spec() {
                r == Err::<ImageRead, Error>(
                    Error::LengthMismatch { src: self.count_spec() as usize, dst: dst.len },
                ) && final(st)@ == old(st)@
            } else {
                r == Ok::<ImageRead, Error>(
                    ImageRead {
                        img: Input::Concrete(old(st)@.next),
                        region: self.region_spec(),
                        dst: dst.id,
                        out: Pipe { cell: (old(st)@.next + 1) as u64 },
                    },
                ) && final(st)@ == owned_image(old(st)@, self.obj())
            },
    {
        let expected: usize = self.count();
        if dst.len != expected {
            return Err(Error::LengthMismatch { src: expected, dst: dst.len });
        }
        let region = self.enqueue_region();
        let (img, out) = own_image(st, self.to_obj());
        Ok(ImageRead { img, region, dst: dst.id, out })
    }

    /// Read the image into the host bytes `dst`, which must be as many as the
    /// image has.
    pub fn read_bytes(self, st: &mut Store, dst: HostRef) -> (r: OpResult<ImageRead>)
        requires
            old(st)@.next + 2 <= u64::MAX,
        ensures
            if dst.bytes != self.count_spec() * F::pixel_bytes() {
                r == Err::<ImageRead, Error>(
                    Error::LengthMismatch {
                        src: (self.count_spec() * F::pixel_bytes()) as usize,
                        dst: dst.bytes,
                    },
                ) && final(st)@ == old(st)@
            } else {
                r == Ok::<ImageRead, Error>(
                    ImageRead {
                        img: Input::Concrete(old(st)@.next),
                        region: self.region_spec(),
                        dst: dst.id,
                        out: Pipe { cell: (old(st)@.next + 1) as u64 },
                    },
                ) && final(st)@ == owned_image(old(st)@, self.obj())
            },
    {
        let count: usize = self.count();
        let p: usize = F::pixel_size();
        let expected: usize = count * p;
        if dst.bytes != expected {
            return Err(Error::LengthMismatch { src: expected, dst: dst.bytes });
        }
        let region = self.enqueue_region();
        let (img, out) = own_image(st, self.to_obj());
        Ok(ImageRead { img, region, dst: dst.id, out })
    }

    /// Read the image into a fresh host vector.
    pub fn read_alloc(&self) -> (r: ImageReadAlloc)
        ensures
            r == (ImageReadAlloc {
                image: self.obj(),
                region: self.region_spec(),
                pixel_count: self.count_spec() as usize,
            }),
    {
        let pixel_count: usize = self.count();
        ImageReadAlloc { image: self.to_obj(), region: self.enqueue_region(), pixel_count }
    }

    /// Read the image into fresh host bytes.
    pub fn read_bytes_alloc(&self) -> (r: ImageReadBytesAlloc)
        ensures
            r == (ImageReadBytesAlloc {
                image: self.obj(),
                region: self.region_spec(),
                byte_len: (self.count_spec() * F::pixel_bytes()) as usize,
            }),
    {
        let count: usize = self.count();
        let p: usize = F::pixel_size();
        ImageReadBytesAlloc { image: self.to_obj(), region: self.enqueue_region(), byte_len: count * p }
    }

    /// Write the host pixels `pixels`, one per pixel of the image.
    pub fn write(self, st: &mut Store, pixels: HostRef) -> (r: ImageWrite)
        requires
            old(st)@.next + 2 <= u64::MAX,
            pixels.len == self.count_spec(),
        ensures
            r == (ImageWrite {
                img: Input::Concrete(old(st)@.next),
                region: self.region_spec(),
                data: pixels,
                out: Pipe { cell: (old(st)@.next + 1) as u64 },
            }),
            final(st)@ == owned_image(old(st)@, self.obj()),
    {
        let region = self.enqueue_region();
        let (img, out) = own_image(st, self.to_obj());
        ImageWrite { img, region, data: pixels, out }
    }

    /// Write the host bytes `bytes`, as many as the image has.
    pub fn write_bytes(self, st: &mut Store, bytes: HostRef) -> (r: ImageWrite)
        requires
            old(st)@.next + 2 <= u64::MAX,
            bytes.bytes == self.count_spec() * F::pixel_bytes(),
        ensures
            r == (ImageWrite {
                img: Input::Concrete(old(st)@.next),
                region: self.region_spec(),
                data: bytes,
                out: Pipe { cell: (old(st)@.next + 1) as u64 },
            }),
            final(st)@ == owned_image(old(st)@, self.obj()),
    {
        let region = self.enqueue_region();
        let (img, out) = own_image(st, self.to_obj());
        ImageWrite { img, region, data: bytes, out }
    }

    /// Copy the image into `dst`, over the image's own extent.
    pub fn copy_to<A2: KernelAccess>(self, st: &mut Store, dst: Image2D<A2, F>) -> (r: ImageCopy)
        requires
            old(st)@.next + 5 <= u64::MAX,
        ensures
            r == (ImageCopy {
                src: Input::Concrete(old(st)@.next),
                dst: Input::Concrete((old(st)@.next + 1) as u64),
                region: Some(self.region_spec()),
                src_pipe: Pipe { cell: (old(st)@.next + 2) as u64 },
                dst_pipe: Pipe { cell: (old(st)@.next + 3) as u64 },
                cb_cache: (old(st)@.next + 4) as u64,
            }),
            final(st)@ == owned_images(old(st)@, self.obj(), dst.obj()),
    {
        let region = self.enqueue_region();
        let a = Input::concrete(st, self.to_obj());
        let b = Input::concrete(st, dst.to_obj());
        let src_pipe = st.pipe();
        let dst_pipe = st.pipe();
        let cb_cache = new_cb_cache(st);
        assert(st@ =~= owned_images(old(st)@, self.obj(), dst.obj()));
        ImageCopy { src: a, dst: b, region: Some(region), src_pipe, dst_pipe, cb_cache }
    }

    /// Fill every pixel with the four-component `pattern`.
    pub fn fill(self, st: &mut Store, pattern: HostRef) -> (r: ImageFill)
        requires
            old(st)@.next + 3 <= u64::MAX,
        ensures
            r == (ImageFill {
                img: Input::Concrete(old(st)@.next),
                region: self.region_spec(),
                pattern,
                out: Pipe { cell: (old(st)@.next + 1) as u64 },
                cb_cache: (old(st)@.next + 2) as u64,
            }),
            final(st)@ == owned_cached_image(old(st)@, self.obj()),
    {
        let region = self.enqueue_region();
        let (img, out) = own_image(st, self.to_obj());
        let cb_cache = new_cb_cache(st);
        assert(st@ =~= owned_cached_image(old(st)@, self.obj()));
        ImageFill { img, region, pattern, out, cb_cache }
    }

    /// The width in pixels.
    pub fn width(&self) -> (r: u32)
        ensures
            r == self.dims_spec().0,
    {
        self.width
    }

    /// The height in pixels.
    pub fn height(&self) -> (r: u32)
        ensures
            r == self.dims_spec().1,
    {
        self.height
    }

    /// The handle of the image.
    pub fn image(&self) -> (r: u64)
        ensures
            r == self.handle_spec().0,
    {
        self.image
    }
}

impl<A: KernelAccess, F: Format> ImageEnqueue for Image2D<A, F> {
    open spec fn obj(&self) -> Obj {
        Obj {
            class: Class::Image,
            id: self.handle_spec().0,
            ctx: self.handle_spec().1,
            extent: self.region_spec(),
            len: self.count_spec() as usize,
            bytes: (self.count_spec() * F::pixel_bytes()) as usize,
            shared: false,
        }
    }

    fn to_obj(&self) -> (r: Obj) {
        let len: usize = self.count();
        let p: usize = F::pixel_size();
        Obj {
            class: Class::Image,
            id: self.image,
            ctx: self.ctx,
            extent: self.enqueue_region(),
            len,
            bytes: len * p,
            shared: false,
        }
    }

    fn enqueue_region(&self) -> (r: Extent) {
        Extent { x: self.width as usize, y: self.height as usize, z: 1 }
    }
}

impl<A: KernelAccess, F: Format> KernelArg for Image2D<A, F> {
    open spec fn arg_values(&self) -> Seq<ArgValue> {
        seq![ArgValue::Mem(self.handle_spec().0)]
    }

    fn set(&self, exec: &mut ExecuteKernel) {
        exec.set_arg(ArgValue::Mem(self.image));
        assert(exec@ =~= old(exec)@ + self.arg_values());
    }

    open spec fn uses_until(&self, event: u64) -> Seq<InFlight> {
        Seq::empty()
    }

    fn register_completion(&self, event: u64, uses: &mut Vec<InFlight>) {
        assert(uses@ =~= old(uses)@ + self.uses_until(event));
    }
}

impl<A: KernelAccess, F: Format> ToInputImage for Image2D<A, F> {
    open spec fn imageable(self) -> bool {
        true
    }

    open spec fn image_input_spec(self, w: World) -> (Input, World) {
        (Input::Concrete(w.next), w.fresh_ids(1nat).holding(w.next, self.obj()))
    }

    fn to_input_image(self, st: &mut Store) -> (r: Input) {
        Input::concrete(st, self.to_obj())
    }
}

impl<A: KernelAccess, F: Format> ImageHostTransfer for Image2D<A, F> {
    type Dims = (u32, u32);

    open spec fn fits(dims: (u32, u32)) -> bool {
        dims.0 * dims.1 * F::pixel_bytes() <= usize::MAX
    }

    open spec fn desc_of(dims: (u32, u32)) -> ImageDesc {
        image2d_desc::<A, F>(dims.0, dims.1)
    }

    open spec fn region_of(dims: (u32, u32)) -> Extent {
        Extent { x: dims.0 as usize, y: dims.1 as usize, z: 1 }
    }

    open spec fn count_of(dims: (u32, u32)) -> nat {
        (dims.0 * dims.1) as nat
    }

    open spec fn pixel_bytes_of() -> nat {
        F::pixel_bytes() as nat
    }

    fn plan(dims: (u32, u32)) -> (r: (ImageDesc, Extent, usize, usize)) {
        let desc = ImageDesc {
            image_type: CL_MEM_OBJECT_IMAGE2D,
            width: dims.0 as usize,
            height: dims.1 as usize,
            depth: 1,
            array_size: 0,
            buffer: 0,
            channel_order: F::channel_order(),
            channel_type: F::channel_type(),
            flags: A::kernel_flags(),
        };
        let probe = Image2D::<A, F> {
            image: 0,
            ctx: 0,
            width: dims.0,
            height: dims.1,
            access: PhantomData,
            format: PhantomData,
        };
        let n: usize = probe.count();
        (desc, Extent { x: dims.0 as usize, y: dims.1 as usize, z: 1 }, n, n * F::pixel_size())
    }

    fn pixel_count(&self) -> (r: usize) {
        self.count()
    }
}

/// A one-dimensional image.
pub struct Image1D<A: KernelAccess, F: Format> {
    image: u64,
    ctx: u64,
    width: u32,
    access: PhantomData<A>,
    format: PhantomData<F>,
}

/// The description of an image of these dimensions.
pub open spec fn image1d_desc<A: KernelAccess, F: Format>(width: u32) -> ImageDesc {
    ImageDesc {
        image_type: CL_MEM_OBJECT_IMAGE1D,
        width: width as usize,
        height: 1,
        depth: 1,
        array_size: 0,
        buffer: 0,
        channel_order: F::order(),
        channel_type: F::ctype(),
        flags: crate::access::access_flags(A::reads(), A::writes()),
    }
}

impl<A: KernelAccess, F: Format> Image1D<A, F> {
    /// The image can be addressed.
    #[verifier::type_invariant]
    closed spec fn inv(self) -> bool {
        self.width * F::pixel_bytes() <= usize::MAX
    }

    /// The dimensions.
    pub closed spec fn dims_spec(&self) -> (u32,) {
        (self.width,)
    }

    /// The handle of the image and its context.
    pub closed spec fn handle_spec(&self) -> (u64, u64) {
        (self.image, self.ctx)
    }

    fn count(&self) -> (r: usize)
        ensures
            r == self.width,
            r * F::pixel_bytes() <= usize::MAX,
    {
        proof {
            use_type_invariant(self);
        }
        let p: usize = F::pixel_size();
        proof {
            assert(self.width <= self.width * F::pixel_bytes()) by (nonlinear_arith)
                requires
                    F::pixel_bytes() > 0,
                    self.width >= 0,
            ;
        }
        self.width as usize
    }

    /// Create an image.
    pub fn create<D: Driver>(ec: &mut ExecutionContext<D>, width: u32) -> (r: OpResult<Self>)
        ensures
            exists|q: Reply, x: Reply|
                (#[trigger] image_made(
                    image1d_desc::<A, F>(width),
                    image_fits(width as nat, 1, 1, F::pixel_bytes() as nat),
                    old(ec)@,
                    q,
                    x,
                )) == (final(ec)@, (match r {
                    Ok(img) => Ok::<u64, Error>(img.handle_spec().0),
                    Err(e) => Err(e),
                })),
            r matches Ok(img) ==> img.dims_spec() == (width,) && img.handle_spec().1 == old(ec)@.context,
    {
        let desc = ImageDesc {
                image_type: CL_MEM_OBJECT_IMAGE1D,
                width: width as usize,
                height: 1,
                depth: 1,
                array_size: 0,
                buffer: 0,
                channel_order: F::channel_order(),
                channel_type: F::channel_type(),
                flags: A::kernel_flags(),
            };
        let ctx: u64 = ec.context();
        let fits: bool = fits_memory(width as usize, 1, 1, F::pixel_size());
        assert(desc == image1d_desc::<A, F>(width));
        assert(fits == image_fits(width as nat, 1, 1, F::pixel_bytes() as nat));
        match make_image(ec, desc, fits) {
            Err(e) => Err(e),
            Ok(h) => Ok(Image1D { image: h, ctx, width, access: PhantomData, format: PhantomData }),
        }
    }

    /// The extent that the image ops work over.
    pub open spec fn region_spec(&self) -> Extent {
        Extent { x: self.dims_spec().0 as usize, y: 1, z: 1 }
    }

    /// The pixels of the image.
    pub open spec fn count_spec(&self) -> nat {
        (self.dims_spec().0) as nat
    }

    /// Read the image into the host data `dst`, which must hold a pixel per
    /// pixel of the image.
    pub fn read(self, st: &mut Store, dst: HostRef) -> (r: OpResult<ImageRead>)
        requires
            old(st)@.next + 2 <= u64::MAX,
        ensures
            if dst.len != self.count_spec() {
                r == Err::<ImageRead, Error>(
                    Error::LengthMismatch { src: self.count_spec() as usize, dst: dst.len },
                ) && final(st)@ == old(st)@
            } else {
                r == Ok::<ImageRead, Error>(
                    ImageRead {
                        img: Input::Concrete(old(st)@.next),
                        region: self.region_spec(),
                        dst: dst.id,
                        out: Pipe { cell: (old(st)@.next + 1) as u64 },
                    },
                ) && final(st)@ == owned_image(old(st)@, self.obj())
            },
    {
        let expected: usize = self.count();
        if dst.len != expected {
            return Err(Error::LengthMismatch { src: expected, dst: dst.len });
        }
        let region = self.enqueue_region();
        let (img, out) = own_image(st, self.to_obj());
        Ok(ImageRead { img, region, dst: dst.id, out })
    }

    /// Read the image into the host bytes `dst`, which must be as many as the
    /// image has.
    pub fn read_bytes(self, st: &mut Store, dst: HostRef) -> (r: OpResult<ImageRead>)
        requires
            old(st)@.next + 2 <= u64::MAX,
        ensures
            if dst.bytes != self.count_spec() * F::pixel_bytes() {
                r == Err::<ImageRead, Error>(
                    Error::LengthMismatch {
                        src: (self.count_spec() * F::pixel_bytes()) as usize,
                        dst: dst.bytes,
                    },
                ) && final(st)@ == old(st)@
            } else {
                r == Ok::<ImageRead, Error>(
                    ImageRead {
                        img: Input::Concrete(old(st)@.next),
                        region: self.region_spec(),
                        dst: dst.id,
                        out: Pipe { cell: (old(st)@.next + 1) as u64 },
                    },
                ) && final(st)@ == owned_image(old(st)@, self.obj())
            },
    {
        let count: usize = self.count();
        let p: usize = F::pixel_size();
        let expected: usize = count * p;
        if dst.bytes != expected {
            return Err(Error::LengthMismatch { src: expected, dst: dst.bytes });
        }
        let region = self.enqueue_region();
        let (img, out) = own_image(st, self.to_obj());
        Ok(ImageRead { img, region, dst: dst.id, out })
    }

    /// Read the image into a fresh host vector.
    pub fn read_alloc(&self) -> (r: ImageReadAlloc)
        ensures
            r == (ImageReadAlloc {
                image: self.obj(),
                region: self.region_spec(),
                pixel_count: self.count_spec() as usize,
            }),
    {
        let pixel_count: usize = self.count();
        ImageReadAlloc { image: self.to_obj(), region: self.enqueue_region(), pixel_count }
    }

    /// Read the image into fresh host bytes.
    pub fn read_bytes_alloc(&self) -> (r: ImageReadBytesAlloc)
        ensures
            r == (ImageReadBytesAlloc {
                image: self.obj(),
                region: self.region_spec(),
                byte_len: (self.count_spec() * F::pixel_bytes()) as usize,
            }),
    {
        let count: usize = self.count();
        let p: usize = F::pixel_size();
        ImageReadBytesAlloc { image: self.to_obj(), region: self.enqueue_region(), byte_len: count * p }
    }

    /// Write the host pixels `pixels`, one per pixel of the image.
    pub fn write(self, st: &mut Store, pixels: HostRef) -> (r: ImageWrite)
        requires
            old(st)@.next + 2 <= u64::MAX,
            pixels.len == self.count_spec(),
        ensures
            r == (ImageWrite {
                img: Input::Concrete(old(st)@.next),
                region: self.region_spec(),
                data: pixels,
                out: Pipe { cell: (old(st)@.next + 1) as u64 },
            }),
            final(st)@ == owned_image(old(st)@, self.obj()),
    {
        let region = self.enqueue_region();
        let (img, out) = own_image(st, self.to_obj());
        ImageWrite { img, region, data: pixels, out }
    }

    /// Write the host bytes `bytes`, as many as the image has.
    pub fn write_bytes(self, st: &mut Store, bytes: HostRef) -> (r: ImageWrite)
        requires
            old(st)@.next + 2 <= u64::MAX,
            bytes.bytes == self.count_spec() * F::pixel_bytes(),
        ensures
            r == (ImageWrite {
                img: Input::Concrete(old(st)@.next),
                region: self.region_spec(),
                data: bytes,
                out: Pipe { cell: (old(st)@.next + 1) as u64 },
            }),
            final(st)@ == owned_image(old(st)@, self.obj()),
    {
        let region = self.enqueue_region();
        let (img, out) = own_image(st, self.to_obj());
        ImageWrite { img, region, data: bytes, out }
    }

    /// Copy the image into `dst`, over the image's own extent.
    pub fn copy_to<A2: KernelAccess>(self, st: &mut Store, dst: Image1D<A2, F>) -> (r: ImageCopy)
        requires
            old(st)@.next + 5 <= u64::MAX,
        ensures
            r == (ImageCopy {
                src: Input::Concrete(old(st)@.next),
                dst: Input::Concrete((old(st)@.next + 1) as u64),
                region: Some(self.region_spec()),
                src_pipe: Pipe { cell: (old(st)@.next + 2) as u64 },
                dst_pipe: Pipe { cell: (old(st)@.next + 3) as u64 },
                cb_cache: (old(st)@.next + 4) as u64,
            }),
            final(st)@ == owned_images(old(st)@, self.obj(), dst.obj()),
    {
        let region = self.enqueue_region();
        let a = Input::concrete(st, self.to_obj());
        let b = Input::concrete(st, dst.to_obj());
        let src_pipe = st.pipe();
        let dst_pipe = st.pipe();
        let cb_cache = new_cb_cache(st);
        assert(st@ =~= owned_images(old(st)@, self.obj(), dst.obj()));
        ImageCopy { src: a, dst: b, region: Some(region), src_pipe, dst_pipe, cb_cache }
    }

    /// Fill every pixel with the four-component `pattern`.
    pub fn fill(self, st: &mut Store, pattern: HostRef) -> (r: ImageFill)
        requires
            old(st)@.next + 3 <= u64::MAX,
        ensures
            r == (ImageFill {
                img: Input::Concrete(old(st)@.next),
                region: self.region_spec(),
                pattern,
                out: Pipe { cell: (old(st)@.next + 1) as u64 },
                cb_cache: (old(st)@.next + 2) as u64,
            }),
            final(st)@ == owned_cached_image(old(st)@, self.obj()),
    {
        let region = self.enqueue_region();
        let (img, out) = own_image(st, self.to_obj());
        let cb_cache = new_cb_cache(st);
        assert(st@ =~= owned_cached_image(old(st)@, self.obj()));
        ImageFill { img, region, pattern, out, cb_cache }
    }

    /// The width in pixels.
    pub fn width(&self) -> (r: u32)
        ensures
            r == self.dims_spec().0,
    {
        self.width
    }

    /// The handle of the image.
    pub fn image(&self) -> (r: u64)
        ensures
            r == self.handle_spec().0,
    {
        self.image
    }
}

impl<A: KernelAccess, F: Format> ImageEnqueue for Image1D<A, F> {
    open spec fn obj(&self) -> Obj {
        Obj {
            class: Class::Image,
            id: self.handle_spec().0,
            ctx: self.handle_spec().1,
            extent: self.region_spec(),
            len: self.count_spec() as usize,
            bytes: (self.count_spec() * F::pixel_bytes()) as usize,
            shared: false,
        }
    }

    fn to_obj(&self) -> (r: Obj) {
        let len: usize = self.count();
        let p: usize = F::pixel_size();
        Obj {
            class: Class::Image,
            id: self.image,
            ctx: self.ctx,
            extent: self.enqueue_region(),
            len,
            bytes: len * p,
            shared: false,
        }
    }

    fn enqueue_region(&self) -> (r: Extent) {
        Extent { x: self.width as usize, y: 1, z: 1 }
    }
}

impl<A: KernelAccess, F: Format> KernelArg for Image1D<A, F> {
    open spec fn arg_values(&self) -> Seq<ArgValue> {
        seq![ArgValue::Mem(self.handle_spec().0)]
    }

    fn set(&self, exec: &mut ExecuteKernel) {
        exec.set_arg(ArgValue::Mem(self.image));
        assert(exec@ =~= old(exec)@ + self.arg_values());
    }

    open spec fn uses_until(&self, event: u64) -> Seq<InFlight> {
        Seq::empty()
    }

    fn register_completion(&self, event: u64, uses: &mut Vec<InFlight>) {
        assert(uses@ =~= old(uses)@ + self.uses_until(event));
    }
}

impl<A: KernelAccess, F: Format> ToInputImage for Image1D<A, F> {
    open spec fn imageable(self) -> bool {
        true
    }

    open spec fn image_input_spec(self, w: World) -> (Input, World) {
        (Input::Concrete(w.next), w.fresh_ids(1nat).holding(w.next, self.obj()))
    }

    fn to_input_image(self, st: &mut Store) -> (r: Input) {
        Input::concrete(st, self.to_obj())
    }
}

impl<A: KernelAccess, F: Format> ImageHostTransfer for Image1D<A, F> {
    type Dims = u32;

    open spec fn fits(dims: u32) -> bool {
        dims * F::pixel_bytes() <= usize::MAX
    }

    open spec fn desc_of(dims: u32) -> ImageDesc {
        image1d_desc::<A, F>(dims)
    }

    open spec fn region_of(dims: u32) -> Extent {
        Extent { x: dims as usize, y: 1, z: 1 }
    }

    open spec fn count_of(dims: u32) -> nat {
        (dims) as nat
    }

    open spec fn pixel_bytes_of() -> nat {
        F::pixel_bytes() as nat
    }

    fn plan(dims: u32) -> (r: (ImageDesc, Extent, usize, usize)) {
        let desc = ImageDesc {
            image_type: CL_MEM_OBJECT_IMAGE1D,
            width: dims as usize,
            height: 1,
            depth: 1,
            array_size: 0,
            buffer: 0,
            channel_order: F::channel_order(),
            channel_type: F::channel_type(),
            flags: A::kernel_flags(),
        };
        let probe = Image1D::<A, F> {
            image: 0,
            ctx: 0,
            width: dims,
            access: PhantomData,
            format: PhantomData,
        };
        let n: usize = probe.count();
        (desc, Extent { x: dims as usize, y: 1, z: 1 }, n, n * F::pixel_size())
    }

    fn pixel_count(&self) -> (r: usize) {
        self.count()
    }
}

/// A three-dimensional image.
pub struct Image3D<A: KernelAccess, F: Format> {
    image: u64,
    ctx: u64,
    width: u32,
    height: u32,
    depth: u32,
    access: PhantomData<A>,
    format: PhantomData<F>,
}

/// The description of an image of these dimensions.
pub open spec fn image3d_desc<A: KernelAccess, F: Format>(width: u32, height: u32, depth: u32) -> ImageDesc {
    ImageDesc {
        image_type: CL_MEM_OBJECT_IMAGE3D,
        width: width as usize,
        height: height as usize,
        depth: depth as usize,
        array_size: 0,
        buffer: 0,
        channel_order: F::order(),
        channel_type: F::ctype(),
        flags: crate::access::access_flags(A::reads(), A::writes()),
    }
}

impl<A: KernelAccess, F: Format> Image3D<A, F> {
    /// The image can be addressed.
    #[verifier::type_invariant]
    closed spec fn inv(self) -> bool {
        self.width * self.height * self.depth * F::pixel_bytes() <= usize::MAX
    }

    /// The dimensions.
    pub closed spec fn dims_spec(&self) -> (u32, u32, u32) {
        (self.width, self.height, self.depth)
    }

    /// The handle of the image and its context.
    pub closed spec fn handle_spec(&self) -> (u64, u64) {
        (self.image, self.ctx)
    }

    fn count(&self) -> (r: usize)
        ensures
            r == self.width * self.height * self.depth,
            r * F::pixel_bytes() <= usize::MAX,
    {
        proof {
            use_type_invariant(self);
        }
        let p: usize = F::pixel_size();
        proof {
            assert(self.width * self.height * self.depth <= self.width * self.height * self.depth * F::pixel_bytes()) by (nonlinear_arith)
                requires
                    F::pixel_bytes() > 0,
                    self.width * self.height * self.depth >= 0,
            ;
            assert(self.width * self.height <= self.width * self.height * self.depth || self.depth == 0) by (nonlinear_arith)
                requires
                    self.width >= 0,
                    self.height >= 0,
                    self.depth >= 0,
            ;
        }
        if self.depth == 0 {
            assert(self.width * self.height * self.depth == 0) by (nonlinear_arith)
                requires
                    self.depth == 0,
            ;
            return 0;
        }
        (self.width as usize) * (self.height as usize) * (self.depth as usize)
    }

    /// Create an image.
    pub fn create<D: Driver>(ec: &mut ExecutionContext<D>, width: u32, height: u32, depth: u32) -> (r: OpResult<Self>)
        ensures
            exists|q: Reply, x: Reply|
                (#[trigger] image_made(
                    image3d_desc::<A, F>(width, height, depth),
                    image_fits(width as nat, height as nat, depth as nat, F::pixel_bytes() as nat),
                    old(ec)@,
                    q,
                    x,
                )) == (final(ec)@, (match r {
                    Ok(img) => Ok::<u64, Error>(img.handle_spec().0),
                    Err(e) => Err(e),
                })),
            r matches Ok(img) ==> img.dims_spec() == (width, height, depth) && img.handle_spec().1 == old(ec)@.context,
    {
        let desc = ImageDesc {
                image_type: CL_MEM_OBJECT_IMAGE3D,
                width: width as usize,
                height: height as usize,
                depth: depth as usize,
                array_size: 0,
                buffer: 0,
                channel_order: F::channel_order(),
                channel_type: F::channel_type(),
                flags: A::kernel_flags(),
            };
        let ctx: u64 = ec.context();
        let fits: bool = fits_memory(width as usize, height as usize, depth as usize, F::pixel_size());
        assert(desc == image3d_desc::<A, F>(width, height, depth));
        assert(fits == image_fits(width as nat, height as nat, depth as nat, F::pixel_bytes() as nat));
        match make_image(ec, desc, fits) {
            Err(e) => Err(e),
            Ok(h) => Ok(Image3D { image: h, ctx, width, height, depth, access: PhantomData, format: PhantomData }),
        }
    }

    /// The extent that the image ops work over.
    pub open spec fn region_spec(&self) -> Extent {
        Extent { x: self.dims_spec().0 as usize, y: self.dims_spec().1 as usize, z: self.dims_spec().2 as usize }
    }

    /// The pixels of the image.
    pub open spec fn count_spec(&self) -> nat {
        (self.dims_spec().0 * self.dims_spec().1 * self.dims_spec().2) as nat
    }

    /// Read the image into the host data `dst`, which must hold a pixel per
    /// pixel of the image.
    pub fn read(self, st: &mut Store, dst: HostRef) -> (r: OpResult<ImageRead>)
        requires
            old(st)@.next + 2 <= u64::MAX,
        ensures
            if dst.len != self.count_spec() {
                r == Err::<ImageRead, Error>(
                    Error::LengthMismatch { src: self.count_spec() as usize, dst: dst.len },
                ) && final(st)@ == old(st)@
            } else {
                r == Ok::<ImageRead, Error>(
                    ImageRead {
                        img: Input::Concrete(old(st)@.next),
                        region: self.region_spec(),
                        dst: dst.id,
                        out: Pipe { cell: (old(st)@.next + 1) as u64 },
                    },
                ) && final(st)@ == owned_image(old(st)@, self.obj())
            },
    {
        let expected: usize = self.count();
        if dst.len != expected {
            return Err(Error::LengthMismatch { src: expected, dst: dst.len });
        }
        let region = self.enqueue_region();
        let (img, out) = own_image(st, self.to_obj());
        Ok(ImageRead { img, region, dst: dst.id, out })
    }

    /// Read the image into the host bytes `dst`, which must be as many as the
    /// image has.
    pub fn read_bytes(self, st: &mut Store, dst: HostRef) -> (r: OpResult<ImageRead>)
        requires
            old(st)@.next + 2 <= u64::MAX,
        ensures
            if dst.bytes != self.count_spec() * F::pixel_bytes() {
                r == Err::<ImageRead, Error>(
                    Error::LengthMismatch {
                        src: (self.count_spec() * F::pixel_bytes()) as usize,
                        dst: dst.bytes,
                    },
                ) && final(st)@ == old(st)@
            } else {
                r == Ok::<ImageRead, Error>(
                    ImageRead {
                        img: Input::Concrete(old(st)@.next),
                        region: self.region_spec(),
                        dst: dst.id,
                        out: Pipe { cell: (old(st)@.next + 1) as u64 },
                    },
                ) && final(st)@ == owned_image(old(st)@, self.obj())
            },
    {
        let count: usize = self.count();
        let p: usize = F::pixel_size();
        let expected: usize = count * p;
        if dst.bytes != expected {
            return Err(Error::LengthMismatch { src: expected, dst: dst.bytes });
        }
        let region = self.enqueue_region();
        let (img, out) = own_image(st, self.to_obj());
        Ok(ImageRead { img, region, dst: dst.id, out })
    }

    /// Read the image into a fresh host vector.
    pub fn read_alloc(&self) -> (r: ImageReadAlloc)
        ensures
            r == (ImageReadAlloc {
                image: self.obj(),
                region: self.region_spec(),
                pixel_count: self.count_spec() as usize,
            }),
    {
        let pixel_count: usize = self.count();
        ImageReadAlloc { image: self.to_obj(), region: self.enqueue_region(), pixel_count }
    }

    /// Read the image into fresh host bytes.
    pub fn read_bytes_alloc(&self) -> (r: ImageReadBytesAlloc)
        ensures
            r == (ImageReadBytesAlloc {
                image: self.obj(),
                region: self.region_spec(),
                byte_len: (self.count_spec() * F::pixel_bytes()) as usize,
            }),
    {
        let count: usize = self.count();
        let p: usize = F::pixel_size();
        ImageReadBytesAlloc { image: self.to_obj(), region: self.enqueue_region(), byte_len: count * p }
    }

    /// Write the host pixels `pixels`, one per pixel of the image.
    pub fn write(self, st: &mut Store, pixels: HostRef) -> (r: ImageWrite)
        requires
            old(st)@.next + 2 <= u64::MAX,
            pixels.len == self.count_spec(),
        ensures
            r == (ImageWrite {
                img: Input::Concrete(old(st)@.next),
                region: self.region_spec(),
                data: pixels,
                out: Pipe { cell: (old(st)@.next + 1) as u64 },
            }),
            final(st)@ == owned_image(old(st)@, self.obj()),
    {
        let region = self.enqueue_region();
        let (img, out) = own_image(st, self.to_obj());
        ImageWrite { img, region, data: pixels, out }
    }

    /// Write the host bytes `bytes`, as many as the image has.
    pub fn write_bytes(self, st: &mut Store, bytes: HostRef) -> (r: ImageWrite)
        requires
            old(st)@.next + 2 <= u64::MAX,
            bytes.bytes == self.count_spec() * F::pixel_bytes(),
        ensures
            r == (ImageWrite {
                img: Input::Concrete(old(st)@.next),
                region: self.region_spec(),
                data: bytes,
                out: Pipe { cell: (old(st)@.next + 1) as u64 },
            }),
            final(st)@ == owned_image(old(st)@, self.obj()),
    {
        let region = self.enqueue_region();
        let (img, out) = own_image(st, self.to_obj());
        ImageWrite { img, region, data: bytes, out }
    }

    /// Copy the image into `dst`, over the image's own extent.
    pub fn copy_to<A2: KernelAccess>(self, st: &mut Store, dst: Image3D<A2, F>) -> (r: ImageCopy)
        requires
            old(st)@.next + 5 <= u64::MAX,
        ensures
            r == (ImageCopy {
                src: Input::Concrete(old(st)@.next),
                dst: Input::Concrete((old(st)@.next + 1) as u64),
                region: Some(self.region_spec()),
                src_pipe: Pipe { cell: (old(st)@.next + 2) as u64 },
                dst_pipe: Pipe { cell: (old(st)@.next + 3) as u64 },
                cb_cache: (old(st)@.next + 4) as u64,
            }),
            final(st)@ == owned_images(old(st)@, self.obj(), dst.obj()),
    {
        let region = self.enqueue_region();
        let a = Input::concrete(st, self.to_obj());
        let b = Input::concrete(st, dst.to_obj());
        let src_pipe = st.pipe();
        let dst_pipe = st.pipe();
        let cb_cache = new_cb_cache(st);
        assert(st@ =~= owned_images(old(st)@, self.obj(), dst.obj()));
        ImageCopy { src: a, dst: b, region: Some(region), src_pipe, dst_pipe, cb_cache }
    }

    /// Fill every pixel with the four-component `pattern`.
    pub fn fill(self, st: &mut Store, pattern: HostRef) -> (r: ImageFill)
        requires
            old(st)@.next + 3 <= u64::MAX,
        ensures
            r == (ImageFill {
                img: Input::Concrete(old(st)@.next),
                region: self.region_spec(),
                pattern,
                out: Pipe { cell: (old(st)@.next + 1) as u64 },
                cb_cache: (old(st)@.next + 2) as u64,
            }),
            final(st)@ == owned_cached_image(old(st)@, self.obj()),
    {
        let region = self.enqueue_region();
        let (img, out) = own_image(st, self.to_obj());
        let cb_cache = new_cb_cache(st);
        assert(st@ =~= owned_cached_image(old(st)@, self.obj()));
        ImageFill { img, region, pattern, out, cb_cache }
    }

    /// The width in pixels.
    pub fn width(&self) -> (r: u32)
        ensures
            r == self.dims_spec().0,
    {
        self.width
    }

    /// The height in pixels.
    pub fn height(&self) -> (r: u32)
        ensures
            r == self.dims_spec().1,
    {
        self.height
    }

    /// The depth in pixels.
    pub fn depth(&self) -> (r: u32)
        ensures
            r == self.dims_spec().2,
    {
        self.depth
    }

    /// The handle of the image.
    pub fn image(&self) -> (r: u64)
        ensures
            r == self.handle_spec().0,
    {
        self.image
    }
}

impl<A: KernelAccess, F: Format> ImageEnqueue for Image3D<A, F> {
    open spec fn obj(&self) -> Obj {
        Obj {
            class: Class::Image,
            id: self.handle_spec().0,
            ctx: self.handle_spec().1,
            extent: self.region_spec(),
            len: self.count_spec() as usize,
            bytes: (self.count_spec() * F::pixel_bytes()) as usize,
            shared: false,
        }
    }

    fn to_obj(&self) -> (r: Obj) {
        let len: usize = self.count();
        let p: usize = F::pixel_size();
        Obj {
            class: Class::Image,
            id: self.image,
            ctx: self.ctx,
            extent: self.enqueue_region(),
            len,
            bytes: len * p,
            shared: false,
        }
    }

    fn enqueue_region(&self) -> (r: Extent) {
        Extent { x: self.width as usize, y: self.height as usize, z: self.depth as usize }
    }
}

impl<A: KernelAccess, F: Format> KernelArg for Image3D<A, F> {
    open spec fn arg_values(&self) -> Seq<ArgValue> {
        seq![ArgValue::Mem(self.handle_spec().0)]
    }

    fn set(&self, exec: &mut ExecuteKernel) {
        exec.set_arg(ArgValue::Mem(self.image));
        assert(exec@ =~= old(exec)@ + self.arg_values());
    }

    open spec fn uses_until(&self, event: u64) -> Seq<InFlight> {
        Seq::empty()
    }

    fn register_completion(&self, event: u64, uses: &mut Vec<InFlight>) {
        assert(uses@ =~= old(uses)@ + self.uses_until(event));
    }
}

impl<A: KernelAccess, F: Format> ToInputImage for Image3D<A, F> {
    open spec fn imageable(self) -> bool {
        true
    }

    open spec fn image_input_spec(self, w: World) -> (Input, World) {
        (Input::Concrete(w.next), w.fresh_ids(1nat).holding(w.next, self.obj()))
    }

    fn to_input_image(self, st: &mut Store) -> (r: Input) {
        Input::concrete(st, self.to_obj())
    }
}

impl<A: KernelAccess, F: Format> ImageHostTransfer for Image3D<A, F> {
    type Dims = (u32, u32, u32);

    open spec fn fits(dims: (u32, u32, u32)) -> bool {
        dims.0 * dims.1 * dims.2 * F::pixel_bytes() <= usize::MAX
    }

    open spec fn desc_of(dims: (u32, u32, u32)) -> ImageDesc {
        image3d_desc::<A, F>(dims.0, dims.1, dims.2)
    }

    open spec fn region_of(dims: (u32, u32, u32)) -> Extent {
        Extent { x: dims.0 as usize, y: dims.1 as usize, z: dims.2 as usize }
    }

    open spec fn count_of(dims: (u32, u32, u32)) -> nat {
        (dims.0 * dims.1 * dims.2) as nat
    }

    open spec fn pixel_bytes_of() -> nat {
        F::pixel_bytes() as nat
    }

    fn plan(dims: (u32, u32, u32)) -> (r: (ImageDesc, Extent, usize, usize)) {
        let desc = ImageDesc {
            image_type: CL_MEM_OBJECT_IMAGE3D,
            width: dims.0 as usize,
            height: dims.1 as usize,
            depth: dims.2 as usize,
            array_size: 0,
            buffer: 0,
            channel_order: F::channel_order(),
            channel_type: F::channel_type(),
            flags: A::kernel_flags(),
        };
        let probe = Image3D::<A, F> {
            image: 0,
            ctx: 0,
            width: dims.0,
            height: dims.1,
            depth: dims.2,
            access: PhantomData,
            format: PhantomData,
        };
        let n: usize = probe.count();
        (desc, Extent { x: dims.0 as usize, y: dims.1 as usize, z: dims.2 as usize }, n, n * F::pixel_size())
    }

    fn pixel_count(&self) -> (r: usize) {
        self.count()
    }
}

/// A stack of one-dimensional images.
pub struct Image1DArray<A: KernelAccess, F: Format> {
    image: u64,
    ctx: u64,
    width: u32,
    array_size: u32,
    access: PhantomData<A>,
    format: PhantomData<F>,
}

/// The description of an image of these dimensions.
pub open spec fn image1darray_desc<A: KernelAccess, F: Format>(width: u32, array_size: u32) -> ImageDesc {
    ImageDesc {
        image_type: CL_MEM_OBJECT_IMAGE1D_ARRAY,
        width: width as usize,
        height: 1,
        depth: 1,
        array_size: array_size as usize,
        buffer: 0,
        channel_order: F::order(),
        channel_type: F::ctype(),
        flags: crate::access::access_flags(A::reads(), A::writes()),
    }
}

impl<A: KernelAccess, F: Format> Image1DArray<A, F> {
    /// The image can be addressed.
    #[verifier::type_invariant]
    closed spec fn inv(self) -> bool {
        self.width * self.array_size * F::pixel_bytes() <= usize::MAX
    }

    /// The dimensions.
    pub closed spec fn dims_spec(&self) -> (u32, u32) {
        (self.width, self.array_size)
    }

    /// The handle of the image and its context.
    pub closed spec fn handle_spec(&self) -> (u64, u64) {
        (self.image, self.ctx)
    }

    fn count(&self) -> (r: usize)
        ensures
            r == self.width * self.array_size,
            r * F::pixel_bytes() <= usize::MAX,
    {
        proof {
            use_type_invariant(self);
        }
        let p: usize = F::pixel_size();
        proof {
            assert(self.width * self.array_size <= self.width * self.array_size * F::pixel_bytes()) by (nonlinear_arith)
                requires
                    F::pixel_bytes() > 0,
                    self.width * self.array_size >= 0,
            ;
        }
        (self.width as usize) * (self.array_size as usize)
    }

    /// Create an image.
    pub fn create<D: Driver>(ec: &mut ExecutionContext<D>, width: u32, array_size: u32) -> (r: OpResult<Self>)
        ensures
            exists|q: Reply, x: Reply|
                (#[trigger] image_made(
                    image1darray_desc::<A, F>(width, array_size),
                    image_fits(width as nat, array_size as nat, 1, F::pixel_bytes() as nat),
                    old(ec)@,
                    q,
                    x,
                )) == (final(ec)@, (match r {
                    Ok(img) => Ok::<u64, Error>(img.handle_spec().0),
                    Err(e) => Err(e),
                })),
            r matches Ok(img) ==> img.dims_spec() == (width, array_size) && img.handle_spec().1 == old(ec)@.context,
    {
        let desc = ImageDesc {
                image_type: CL_MEM_OBJECT_IMAGE1D_ARRAY,
                width: width as usize,
                height: 1,
                depth: 1,
                array_size: array_size as usize,
                buffer: 0,
                channel_order: F::channel_order(),
                channel_type: F::channel_type(),
                flags: A::kernel_flags(),
            };
        let ctx: u64 = ec.context();
        let fits: bool = fits_memory(width as usize, array_size as usize, 1, F::pixel_size());
        assert(desc == image1darray_desc::<A, F>(width, array_size));
        assert(fits == image_fits(width as nat, array_size as nat, 1, F::pixel_bytes() as nat));
        match make_image(ec, desc, fits) {
            Err(e) => Err(e),
            Ok(h) => Ok(Image1DArray { image: h, ctx, width, array_size, access: PhantomData, format: PhantomData }),
        }
    }

    /// The extent that the image ops work over.
    pub open spec fn region_spec(&self) -> Extent {
        Extent { x: self.dims_spec().0 as usize, y: self.dims_spec().1 as usize, z: 1 }
    }

    /// The pixels of the image.
    pub open spec fn count_spec(&self) -> nat {
        (self.dims_spec().0 * self.dims_spec().1) as nat
    }

    /// Read the image into the host data `dst`, which must hold a pixel per
    /// pixel of the image.
    pub fn read(self, st: &mut Store, dst: HostRef) -> (r: OpResult<ImageRead>)
        requires
            old(st)@.next + 2 <= u64::MAX,
        ensures
            if dst.len != self.count_spec() {
                r == Err::<ImageRead, Error>(
                    Error::LengthMismatch { src: self.count_spec() as usize, dst: dst.len },
                ) && final(st)@ == old(st)@
            } else {
                r == Ok::<ImageRead, Error>(
                    ImageRead {
                        img: Input::Concrete(old(st)@.next),
                        region: self.region_spec(),
                        dst: dst.id,
                        out: Pipe { cell: (old(st)@.next + 1) as u64 },
                    },
                ) && final(st)@ == owned_image(old(st)@, self.obj())
            },
    {
        let expected: usize = self.count();
        if dst.len != expected {
            return Err(Error::LengthMismatch { src: expected, dst: dst.len });
        }
        let region = self.enqueue_region();
        let (img, out) = own_image(st, self.to_obj());
        Ok(ImageRead { img, region, dst: dst.id, out })
    }

    /// Read the image into the host bytes `dst`, which must be as many as the
    /// image has.
    pub fn read_bytes(self, st: &mut Store, dst: HostRef) -> (r: OpResult<ImageRead>)
        requires
            old(st)@.next + 2 <= u64::MAX,
        ensures
            if dst.bytes != self.count_spec() * F::pixel_bytes() {
                r == Err::<ImageRead, Error>(
                    Error::LengthMismatch {
                        src: (self.count_spec() * F::pixel_bytes()) as usize,
                        dst: dst.bytes,
                    },
                ) && final(st)@ == old(st)@
            } else {
                r == Ok::<ImageRead, Error>(
                    ImageRead {
                        img: Input::Concrete(old(st)@.next),
                        region: self.region_spec(),
                        dst: dst.id,
                        out: Pipe { cell: (old(st)@.next + 1) as u64 },
                    },
                ) && final(st)@ == owned_image(old(st)@, self.obj())
            },
    {
        let count: usize = self.count();
        let p: usize = F::pixel_size();
        let expected: usize = count * p;
        if dst.bytes != expected {
            return Err(Error::LengthMismatch { src: expected, dst: dst.bytes });
        }
        let region = self.enqueue_region();
        let (img, out) = own_image(st, self.to_obj());
        Ok(ImageRead { img, region, dst: dst.id, out })
    }

    /// Read the image into a fresh host vector.
    pub fn read_alloc(&self) -> (r: ImageReadAlloc)
        ensures
            r == (ImageReadAlloc {
                image: self.obj(),
                region: self.region_spec(),
                pixel_count: self.count_spec() as usize,
            }),
    {
        let pixel_count: usize = self.count();
        ImageReadAlloc { image: self.to_obj(), region: self.enqueue_region(), pixel_count }
    }

    /// Read the image into fresh host bytes.
    pub fn read_bytes_alloc(&self) -> (r: ImageReadBytesAlloc)
        ensures
            r == (ImageReadBytesAlloc {
                image: self.obj(),
                region: self.region_spec(),
                byte_len: (self.count_spec() * F::pixel_bytes()) as usize,
            }),
    {
        let count: usize = self.count();
        let p: usize = F::pixel_size();
        ImageReadBytesAlloc { image: self.to_obj(), region: self.enqueue_region(), byte_len: count * p }
    }

    /// Write the host pixels `pixels`, one per pixel of the image.
    pub fn write(self, st: &mut Store, pixels: HostRef) -> (r: ImageWrite)
        requires
            old(st)@.next + 2 <= u64::MAX,
            pixels.len == self.count_spec(),
        ensures
            r == (ImageWrite {
                img: Input::Concrete(old(st)@.next),
                region: self.region_spec(),
                data: pixels,
                out: Pipe { cell: (old(st)@.next + 1) as u64 },
            }),
            final(st)@ == owned_image(old(st)@, self.obj()),
    {
        let region = self.enqueue_region();
        let (img, out) = own_image(st, self.to_obj());
        ImageWrite { img, region, data: pixels, out }
    }

    /// Write the host bytes `bytes`, as many as the image has.
    pub fn write_bytes(self, st: &mut Store, bytes: HostRef) -> (r: ImageWrite)
        requires
            old(st)@.next + 2 <= u64::MAX,
            bytes.bytes == self.count_spec() * F::pixel_bytes(),
        ensures
            r == (ImageWrite {
                img: Input::Concrete(old(st)@.next),
                region: self.region_spec(),
                data: bytes,
                out: Pipe { cell: (old(st)@.next + 1) as u64 },
            }),
            final(st)@ == owned_image(old(st)@, self.obj()),
    {
        let region = self.enqueue_region();
        let (img, out) = own_image(st, self.to_obj());
        ImageWrite { img, region, data: bytes, out }
    }

    /// Copy the image into `dst`, over the image's own extent.
    pub fn copy_to<A2: KernelAccess>(self, st: &mut Store, dst: Image1DArray<A2, F>) -> (r: ImageCopy)
        requires
            old(st)@.next + 5 <= u64::MAX,
        ensures
            r == (ImageCopy {
                src: Input::Concrete(old(st)@.next),
                dst: Input::Concrete((old(st)@.next + 1) as u64),
                region: Some(self.region_spec()),
                src_pipe: Pipe { cell: (old(st)@.next + 2) as u64 },
                dst_pipe: Pipe { cell: (old(st)@.next + 3) as u64 },
                cb_cache: (old(st)@.next + 4) as u64,
            }),
            final(st)@ == owned_images(old(st)@, self.obj(), dst.obj()),
    {
        let region = self.enqueue_region();
        let a = Input::concrete(st, self.to_obj());
        let b = Input::concrete(st, dst.to_obj());
        let src_pipe = st.pipe();
        let dst_pipe = st.pipe();
        let cb_cache = new_cb_cache(st);
        assert(st@ =~= owned_images(old(st)@, self.obj(), dst.obj()));
        ImageCopy { src: a, dst: b, region: Some(region), src_pipe, dst_pipe, cb_cache }
    }

    /// Fill every pixel with the four-component `pattern`.
    pub fn fill(self, st: &mut Store, pattern: HostRef) -> (r: ImageFill)
        requires
            old(st)@.next + 3 <= u64::MAX,
        ensures
            r == (ImageFill {
                img: Input::Concrete(old(st)@.next),
                region: self.region_spec(),
                pattern,
                out: Pipe { cell: (old(st)@.next + 1) as u64 },
                cb_cache: (old(st)@.next + 2) as u64,
            }),
            final(st)@ == owned_cached_image(old(st)@, self.obj()),
    {
        let region = self.enqueue_region();
        let (img, out) = own_image(st, self.to_obj());
        let cb_cache = new_cb_cache(st);
        assert(st@ =~= owned_cached_image(old(st)@, self.obj()));
        ImageFill { img, region, pattern, out, cb_cache }
    }

    /// The width in pixels.
    pub fn width(&self) -> (r: u32)
        ensures
            r == self.dims_spec().0,
    {
        self.width
    }

    /// The number of layers.
    pub fn array_size(&self) -> (r: u32)
        ensures
            r == self.dims_spec().1,
    {
        self.array_size
    }

    /// The handle of the image.
    pub fn image(&self) -> (r: u64)
        ensures
            r == self.handle_spec().0,
    {
        self.image
    }
}

impl<A: KernelAccess, F: Format> ImageEnqueue for Image1DArray<A, F> {
    open spec fn obj(&self) -> Obj {
        Obj {
            class: Class::Image,
            id: self.handle_spec().0,
            ctx: self.handle_spec().1,
            extent: self.region_spec(),
            len: self.count_spec() as usize,
            bytes: (self.count_spec() * F::pixel_bytes()) as usize,
            shared: false,
        }
    }

    fn to_obj(&self) -> (r: Obj) {
        let len: usize = self.count();
        let p: usize = F::pixel_size();
        Obj {
            class: Class::Image,
            id: self.image,
            ctx: self.ctx,
            extent: self.enqueue_region(),
            len,
            bytes: len * p,
            shared: false,
        }
    }

    fn enqueue_region(&self) -> (r: Extent) {
        Extent { x: self.width as usize, y: self.array_size as usize, z: 1 }
    }
}

impl<A: KernelAccess, F: Format> KernelArg for Image1DArray<A, F> {
    open spec fn arg_values(&self) -> Seq<ArgValue> {
        seq![ArgValue::Mem(self.handle_spec().0)]
    }

    fn set(&self, exec: &mut ExecuteKernel) {
        exec.set_arg(ArgValue::Mem(self.image));
        assert(exec@ =~= old(exec)@ + self.arg_values());
    }

    open spec fn uses_until(&self, event: u64) -> Seq<InFlight> {
        Seq::empty()
    }

    fn register_completion(&self, event: u64, uses: &mut Vec<InFlight>) {
        assert(uses@ =~= old(uses)@ + self.uses_until(event));
    }
}

impl<A: KernelAccess, F: Format> ToInputImage for Image1DArray<A, F> {
    open spec fn imageable(self) -> bool {
        true
    }

    open spec fn image_input_spec(self, w: World) -> (Input, World) {
        (Input::Concrete(w.next), w.fresh_ids(1nat).holding(w.next, self.obj()))
    }

    fn to_input_image(self, st: &mut Store) -> (r: Input) {
        Input::concrete(st, self.to_obj())
    }
}

impl<A: KernelAccess, F: Format> ImageHostTransfer for Image1DArray<A, F> {
    type Dims = (u32, u32);

    open spec fn fits(dims: (u32, u32)) -> bool {
        dims.0 * dims.1 * F::pixel_bytes() <= usize::MAX
    }

    open spec fn desc_of(dims: (u32, u32)) -> ImageDesc {
        image1darray_desc::<A, F>(dims.0, dims.1)
    }

    open spec fn region_of(dims: (u32, u32)) -> Extent {
        Extent { x: dims.0 as usize, y: dims.1 as usize, z: 1 }
    }

    open spec fn count_of(dims: (u32, u32)) -> nat {
        (dims.0 * dims.1) as nat
    }

    open spec fn pixel_bytes_of() -> nat {
        F::pixel_bytes() as nat
    }

    fn plan(dims: (u32, u32)) -> (r: (ImageDesc, Extent, usize, usize)) {
        let desc = ImageDesc {
            image_type: CL_MEM_OBJECT_IMAGE1D_ARRAY,
            width: dims.0 as usize,
            height: 1,
            depth: 1,
            array_size: dims.1 as usize,
            buffer: 0,
            channel_order: F::channel_order(),
            channel_type: F::channel_type(),
            flags: A::kernel_flags(),
        };
        let probe = Image1DArray::<A, F> {
            image: 0,
            ctx: 0,
            width: dims.0,
            array_size: dims.1,
            access: PhantomData,
            format: PhantomData,
        };
        let n: usize = probe.count();
        (desc, Extent { x: dims.0 as usize, y: dims.1 as usize, z: 1 }, n, n * F::pixel_size())
    }

    fn pixel_count(&self) -> (r: usize) {
        self.count()
    }
}

/// A stack of two-dimensional images.
pub struct Image2DArray<A: KernelAccess, F: Format> {
    image: u64,
    ctx: u64,
    width: u32,
    height: u32,
    array_size: u32,
    access: PhantomData<A>,
    format: PhantomData<F>,
}

/// The description of an image of these dimensions.
pub open spec fn image2darray_desc<A: KernelAccess, F: Format>(width: u32, height: u32, array_size: u32) -> ImageDesc {
    ImageDesc {
        image_type: CL_MEM_OBJECT_IMAGE2D_ARRAY,
        width: width as usize,
        height: height as usize,
        depth: 1,
        array_size: array_size as usize,
        buffer: 0,
        channel_order: F::order(),
        channel_type: F::ctype(),
        flags: crate::access::access_flags(A::reads(), A::writes()),
    }
}

impl<A: KernelAccess, F: Format> Image2DArray<A, F> {
    /// The image can be addressed.
    #[verifier::type_invariant]
    closed spec fn inv(self) -> bool {
        self.width * self.height * self.array_size * F::pixel_bytes() <= usize::MAX
    }

    /// The dimensions.
    pub closed spec fn dims_spec(&self) -> (u32, u32, u32) {
        (self.width, self.height, self.array_size)
    }

    /// The handle of the image and its context.
    pub closed spec fn handle_spec(&self) -> (u64, u64) {
        (self.image, self.ctx)
    }

    fn count(&self) -> (r: usize)
        ensures
            r == self.width * self.height * self.array_size,
            r * F::pixel_bytes() <= usize::MAX,
    {
        proof {
            use_type_invariant(self);
        }
        let p: usize = F::pixel_size();
        proof {
            assert(self.width * self.height * self.array_size <= self.width * self.height * self.array_size * F::pixel_bytes()) by (nonlinear_arith)
                requires
                    F::pixel_bytes() > 0,
                    self.width * self.height * self.array_size >= 0,
            ;
            assert(self.width * self.height <= self.width * self.height * self.array_size || self.array_size == 0) by (nonlinear_arith)
                requires
                    self.width >= 0,
                    self.height >= 0,
                    self.array_size >= 0,
            ;
        }
        if self.array_size == 0 {
            assert(self.width * self.height * self.array_size == 0) by (nonlinear_arith)
                requires
                    self.array_size == 0,
            ;
            return 0;
        }
        (self.width as usize) * (self.height as usize) * (self.array_size as usize)
    }

    /// Create an image.
    pub fn create<D: Driver>(ec: &mut ExecutionContext<D>, width: u32, height: u32, array_size: u32) -> (r: OpResult<Self>)
        ensures
            exists|q: Reply, x: Reply|
                (#[trigger] image_made(
                    image2darray_desc::<A, F>(width, height, array_size),
                    image_fits(width as nat, height as nat, array_size as nat, F::pixel_bytes() as nat),
                    old(ec)@,
                    q,
                    x,
                )) == (final(ec)@, (match r {
                    Ok(img) => Ok::<u64, Error>(img.handle_spec().0),
                    Err(e) => Err(e),
                })),
            r matches Ok(img) ==> img.dims_spec() == (width, height, array_size) && img.handle_spec().1 == old(ec)@.context,
    {
        let desc = ImageDesc {
                image_type: CL_MEM_OBJECT_IMAGE2D_ARRAY,
                width: width as usize,
                height: height as usize,
                depth: 1,
                array_size: array_size as usize,
                buffer: 0,
                channel_order: F::channel_order(),
                channel_type: F::channel_type(),
                flags: A::kernel_flags(),
            };
        let ctx: u64 = ec.context();
        let fits: bool = fits_memory(width as usize, height as usize, array_size as usize, F::pixel_size());
        assert(desc == image2darray_desc::<A, F>(width, height, array_size));
        assert(fits == image_fits(width as nat, height as nat, array_size as nat, F::pixel_bytes() as nat));
        match make_image(ec, desc, fits) {
            Err(e) => Err(e),
            Ok(h) => Ok(Image2DArray { image: h, ctx, width, height, array_size, access: PhantomData, format: PhantomData }),
        }
    }

    /// The extent that the image ops work over.
    pub open spec fn region_spec(&self) -> Extent {
        Extent { x: self.dims_spec().0 as usize, y: self.dims_spec().1 as usize, z: self.dims_spec().2 as usize }
    }

    /// The pixels of the image.
    pub open spec fn count_spec(&self) -> nat {
        (self.dims_spec().0 * self.dims_spec().1 * self.dims_spec().2) as nat
    }

    /// Read the image into the host data `dst`, which must hold a pixel per
    /// pixel of the image.
    pub fn read(self, st: &mut Store, dst: HostRef) -> (r: OpResult<ImageRead>)
        requires
            old(st)@.next + 2 <= u64::MAX,
        ensures
            if dst.len != self.count_spec() {
                r == Err::<ImageRead, Error>(
                    Error::LengthMismatch { src: self.count_spec() as usize, dst: dst.len },
                ) && final(st)@ == old(st)@
            } else {
                r == Ok::<ImageRead, Error>(
                    ImageRead {
                        img: Input::Concrete(old(st)@.next),
                        region: self.region_spec(),
                        dst: dst.id,
                        out: Pipe { cell: (old(st)@.next + 1) as u64 },
                    },
                ) && final(st)@ == owned_image(old(st)@, self.obj())
            },
    {
        let expected: usize = self.count();
        if dst.len != expected {
            return Err(Error::LengthMismatch { src: expected, dst: dst.len });
        }
        let region = self.enqueue_region();
        let (img, out) = own_image(st, self.to_obj());
        Ok(ImageRead { img, region, dst: dst.id, out })
    }

    /// Read the image into the host bytes `dst`, which must be as many as the
    /// image has.
    pub fn read_bytes(self, st: &mut Store, dst: HostRef) -> (r: OpResult<ImageRead>)
        requires
            old(st)@.next + 2 <= u64::MAX,
        ensures
            if dst.bytes != self.count_spec() * F::pixel_bytes() {
                r == Err::<ImageRead, Error>(
                    Error::LengthMismatch {
                        src: (self.count_spec() * F::pixel_bytes()) as usize,
                        dst: dst.bytes,
                    },
                ) && final(st)@ == old(st)@
            } else {
                r == Ok::<ImageRead, Error>(
                    ImageRead {
                        img: Input::Concrete(old(st)@.next),
                        region: self.region_spec(),
                        dst: dst.id,
                        out: Pipe { cell: (old(st)@.next + 1) as u64 },
                    },
                ) && final(st)@ == owned_image(old(st)@, self.obj())
            },
    {
        let count: usize = self.count();
        let p: usize = F::pixel_size();
        let expected: usize = count * p;
        if dst.bytes != expected {
            return Err(Error::LengthMismatch { src: expected, dst: dst.bytes });
        }
        let region = self.enqueue_region();
        let (img, out) = own_image(st, self.to_obj());
        Ok(ImageRead { img, region, dst: dst.id, out })
    }

    /// Read the image into a fresh host vector.
    pub fn read_alloc(&self) -> (r: ImageReadAlloc)
        ensures
            r == (ImageReadAlloc {
                image: self.obj(),
                region: self.region_spec(),
                pixel_count: self.count_spec() as usize,
            }),
    {
        let pixel_count: usize = self.count();
        ImageReadAlloc { image: self.to_obj(), region: self.enqueue_region(), pixel_count }
    }

    /// Read the image into fresh host bytes.
    pub fn read_bytes_alloc(&self) -> (r: ImageReadBytesAlloc)
        ensures
            r == (ImageReadBytesAlloc {
                image: self.obj(),
                region: self.region_spec(),
                byte_len: (self.count_spec() * F::pixel_bytes()) as usize,
            }),
    {
        let count: usize = self.count();
        let p: usize = F::pixel_size();
        ImageReadBytesAlloc { image: self.to_obj(), region: self.enqueue_region(), byte_len: count * p }
    }

    /// Write the host pixels `pixels`, one per pixel of the image.
    pub fn write(self, st: &mut Store, pixels: HostRef) -> (r: ImageWrite)
        requires
            old(st)@.next + 2 <= u64::MAX,
            pixels.len == self.count_spec(),
        ensures
            r == (ImageWrite {
                img: Input::Concrete(old(st)@.next),
                region: self.region_spec(),
                data: pixels,
                out: Pipe { cell: (old(st)@.next + 1) as u64 },
            }),
            final(st)@ == owned_image(old(st)@, self.obj()),
    {
        let region = self.enqueue_region();
        let (img, out) = own_image(st, self.to_obj());
        ImageWrite { img, region, data: pixels, out }
    }

    /// Write the host bytes `bytes`, as many as the image has.
    pub fn write_bytes(self, st: &mut Store, bytes: HostRef) -> (r: ImageWrite)
        requires
            old(st)@.next + 2 <= u64::MAX,
            bytes.bytes == self.count_spec() * F::pixel_bytes(),
        ensures
            r == (ImageWrite {
                img: Input::Concrete(old(st)@.next),
                region: self.region_spec(),
                data: bytes,
                out: Pipe { cell: (old(st)@.next + 1) as u64 },
            }),
            final(st)@ == owned_image(old(st)@, self.obj()),
    {
        let region = self.enqueue_region();
        let (img, out) = own_image(st, self.to_obj());
        ImageWrite { img, region, data: bytes, out }
    }

    /// Copy the image into `dst`, over the image's own extent.
    pub fn copy_to<A2: KernelAccess>(self, st: &mut Store, dst: Image2DArray<A2, F>) -> (r: ImageCopy)
        requires
            old(st)@.next + 5 <= u64::MAX,
        ensures
            r == (ImageCopy {
                src: Input::Concrete(old(st)@.next),
                dst: Input::Concrete((old(st)@.next + 1) as u64),
                region: Some(self.region_spec()),
                src_pipe: Pipe { cell: (old(st)@.next + 2) as u64 },
                dst_pipe: Pipe { cell: (old(st)@.next + 3) as u64 },
                cb_cache: (old(st)@.next + 4) as u64,
            }),
            final(st)@ == owned_images(old(st)@, self.obj(), dst.obj()),
    {
        let region = self.enqueue_region();
        let a = Input::concrete(st, self.to_obj());
        let b = Input::concrete(st, dst.to_obj());
        let src_pipe = st.pipe();
        let dst_pipe = st.pipe();
        let cb_cache = new_cb_cache(st);
        assert(st@ =~= owned_images(old(st)@, self.obj(), dst.obj()));
        ImageCopy { src: a, dst: b, region: Some(region), src_pipe, dst_pipe, cb_cache }
    }

    /// Fill every pixel with the four-component `pattern`.
    pub fn fill(self, st: &mut Store, pattern: HostRef) -> (r: ImageFill)
        requires
            old(st)@.next + 3 <= u64::MAX,
        ensures
            r == (ImageFill {
                img: Input::Concrete(old(st)@.next),
                region: self.region_spec(),
                pattern,
                out: Pipe { cell: (old(st)@.next + 1) as u64 },
                cb_cache: (old(st)@.next + 2) as u64,
            }),
            final(st)@ == owned_cached_image(old(st)@, self.obj()),
    {
        let region = self.enqueue_region();
        let (img, out) = own_image(st, self.to_obj());
        let cb_cache = new_cb_cache(st);
        assert(st@ =~= owned_cached_image(old(st)@, self.obj()));
        ImageFill { img, region, pattern, out, cb_cache }
    }

    /// The width in pixels.
    pub fn width(&self) -> (r: u32)
        ensures
            r == self.dims_spec().0,
    {
        self.width
    }

    /// The height in pixels.
    pub fn height(&self) -> (r: u32)
        ensures
            r == self.dims_spec().1,
    {
        self.height
    }

    /// The number of layers.
    pub fn array_size(&self) -> (r: u32)
        ensures
            r == self.dims_spec().2,
    {
        self.array_size
    }

    /// The handle of the image.
    pub fn image(&self) -> (r: u64)
        ensures
            r == self.handle_spec().0,
    {
        self.image
    }
}

impl<A: KernelAccess, F: Format> ImageEnqueue for Image2DArray<A, F> {
    open spec fn obj(&self) -> Obj {
        Obj {
            class: Class::Image,
            id: self.handle_spec().0,
            ctx: self.handle_spec().1,
            extent: self.region_spec(),
            len: self.count_spec() as usize,
            bytes: (self.count_spec() * F::pixel_bytes()) as usize,
            shared: false,
        }
    }

    fn to_obj(&self) -> (r: Obj) {
        let len: usize = self.count();
        let p: usize = F::pixel_size();
        Obj {
            class: Class::Image,
            id: self.image,
            ctx: self.ctx,
            extent: self.enqueue_region(),
            len,
            bytes: len * p,
            shared: false,
        }
    }

    fn enqueue_region(&self) -> (r: Extent) {
        Extent { x: self.width as usize, y: self.height as usize, z: self.array_size as usize }
    }
}

impl<A: KernelAccess, F: Format> KernelArg for Image2DArray<A, F> {
    open spec fn arg_values(&self) -> Seq<ArgValue> {
        seq![ArgValue::Mem(self.handle_spec().0)]
    }

    fn set(&self, exec: &mut ExecuteKernel) {
        exec.set_arg(ArgValue::Mem(self.image));
        assert(exec@ =~= old(exec)@ + self.arg_values());
    }

    open spec fn uses_until(&self, event: u64) -> Seq<InFlight> {
        Seq::empty()
    }

    fn register_completion(&self, event: u64, uses: &mut Vec<InFlight>) {
        assert(uses@ =~= old(uses)@ + self.uses_until(event));
    }
}

impl<A: KernelAccess, F: Format> ToInputImage for Image2DArray<A, F> {
    open spec fn imageable(self) -> bool {
        true
    }

    open spec fn image_input_spec(self, w: World) -> (Input, World) {
        (Input::Concrete(w.next), w.fresh_ids(1nat).holding(w.next, self.obj()))
    }

    fn to_input_image(self, st: &mut Store) -> (r: Input) {
        Input::concrete(st, self.to_obj())
    }
}

impl<A: KernelAccess, F: Format> ImageHostTransfer for Image2DArray<A, F> {
    type Dims = (u32, u32, u32);

    open spec fn fits(dims: (u32, u32, u32)) -> bool {
        dims.0 * dims.1 * dims.2 * F::pixel_bytes() <= usize::MAX
    }

    open spec fn desc_of(dims: (u32, u32, u32)) -> ImageDesc {
        image2darray_desc::<A, F>(dims.0, dims.1, dims.2)
    }

    open spec fn region_of(dims: (u32, u32, u32)) -> Extent {
        Extent { x: dims.0 as usize, y: dims.1 as usize, z: dims.2 as usize }
    }

    open spec fn count_of(dims: (u32, u32, u32)) -> nat {
        (dims.0 * dims.1 * dims.2) as nat
    }

    open spec fn pixel_bytes_of() -> nat {
        F::pixel_bytes() as nat
    }

    fn plan(dims: (u32, u32, u32)) -> (r: (ImageDesc, Extent, usize, usize)) {
        let desc = ImageDesc {
            image_type: CL_MEM_OBJECT_IMAGE2D_ARRAY,
            width: dims.0 as usize,
            height: dims.1 as usize,
            depth: 1,
            array_size: dims.2 as usize,
            buffer: 0,
            channel_order: F::channel_order(),
            channel_type: F::channel_type(),
            flags: A::kernel_flags(),
        };
        let probe = Image2DArray::<A, F> {
            image: 0,
            ctx: 0,
            width: dims.0,
            height: dims.1,
            array_size: dims.2,
            access: PhantomData,
            format: PhantomData,
        };
        let n: usize = probe.count();
        (desc, Extent { x: dims.0 as usize, y: dims.1 as usize, z: dims.2 as usize }, n, n * F::pixel_size())
    }

    fn pixel_count(&self) -> (r: usize) {
        self.count()
    }
}

/// A one-dimensional image over a buffer of its own.
pub struct Image1DBuffer<A: KernelAccess, F: Format> {
    image: u64,
    backing: u64,
    ctx: u64,
    width: u32,
    access: PhantomData<A>,
    format: PhantomData<F>,
}

/// The description of an image of these dimensions.
pub open spec fn image1dbuffer_desc<A: KernelAccess, F: Format>(width: u32, buffer: u64) -> ImageDesc {
    ImageDesc {
        image_type: CL_MEM_OBJECT_IMAGE1D_BUFFER,
        width: width as usize,
        height: 0,
        depth: 0,
        array_size: 0,
        buffer: buffer,
        channel_order: F::order(),
        channel_type: F::ctype(),
        flags: crate::access::access_flags(A::reads(), A::writes()),
    }
}

impl<A: KernelAccess, F: Format> Image1DBuffer<A, F> {
    /// The image can be addressed.
    #[verifier::type_invariant]
    closed spec fn inv(self) -> bool {
        self.width * F::pixel_bytes() <= usize::MAX
    }

    /// The dimensions.
    pub closed spec fn dims_spec(&self) -> (u32,) {
        (self.width,)
    }

    /// The handle of the image and its context.
    pub closed spec fn handle_spec(&self) -> (u64, u64) {
        (self.image, self.ctx)
    }

    fn count(&self) -> (r: usize)
        ensures
            r == self.width,
            r * F::pixel_bytes() <= usize::MAX,
    {
        proof {
            use_type_invariant(self);
        }
        let p: usize = F::pixel_size();
        proof {
            assert(self.width <= self.width * F::pixel_bytes()) by (nonlinear_arith)
                requires
                    F::pixel_bytes() > 0,
                    self.width >= 0,
            ;
        }
        self.width as usize
    }

    /// Create the buffer, then the image over it.
    pub fn create<D: Driver>(ec: &mut ExecutionContext<D>, width: u32) -> (r: OpResult<Self>)
        ensures
            exists|q1: Reply, q2: Reply, q3: Reply|
                (#[trigger] image_buffer_after::<A, F>(width, old(ec)@, q1, q2, q3)) == (final(ec)@, (match r {
                    Ok(img) => Ok::<u64, Error>(img.handle_spec().0),
                    Err(e) => Err(e),
                })),
            r matches Ok(img) ==> img.dims_spec() == (width,) && img.handle_spec().1 == old(ec)@.context,
    {
        let ghost pre = ec@;
        let ctx: u64 = ec.context();
        let p: usize = F::pixel_size();
        if !fits_memory(width as usize, 1, 1, p) {
            assert(image_buffer_after::<A, F>(width, pre, Err(0), Err(0), Err(0)) == (
                ec@,
                Err::<u64, Error>(Error::OpenCl(CL_INVALID_BUFFER_SIZE)),
            ));
            return Err(Error::OpenCl(CL_INVALID_BUFFER_SIZE));
        }
        let bytes: usize = (width as usize) * p;
        let q1: Reply = ec.issue(
            Command::Alloc { class: Class::DeviceUninit, len: bytes, bytes, flags: A::kernel_flags(), contents: Contents::Unwritten },
            &no_deps(),
        );
        match q1 {
            Err(c) => {
                assert(image_buffer_after::<A, F>(width, pre, q1, Err(0), Err(0)) == (
                    ec@,
                    Err::<u64, Error>(Error::OpenCl(c)),
                ));
                Err(Error::OpenCl(c))
            },
            Ok(backing) => {
                let desc = ImageDesc {
                        image_type: CL_MEM_OBJECT_IMAGE1D_BUFFER,
                        width: width as usize,
                        height: 0,
                        depth: 0,
                        array_size: 0,
                        buffer: backing,
                        channel_order: F::channel_order(),
                        channel_type: F::channel_type(),
                        flags: A::kernel_flags(),
                    };
                let q2: Reply = ec.issue(Command::CreateImage { desc }, &no_deps());
                match q2 {
                    Err(c) => {
                        let q3: Reply = ec.issue(Command::Release { mem: MemRef::Buffer(backing) }, &no_deps());
                        assert(image_buffer_after::<A, F>(width, pre, q1, q2, q3) == (
                            ec@,
                            Err::<u64, Error>(Error::OpenCl(c)),
                        ));
                        Err(Error::OpenCl(c))
                    },
                    Ok(h) => {
                        assert(image_buffer_after::<A, F>(width, pre, q1, q2, Err(0)) == (
                            ec@,
                            Ok::<u64, Error>(h),
                        ));
                        Ok(Image1DBuffer { image: h, backing, ctx, width, access: PhantomData, format: PhantomData })
                    },
                }
            },
        }
    }

    /// The extent that the image ops work over.
    pub open spec fn region_spec(&self) -> Extent {
        Extent { x: self.dims_spec().0 as usize, y: 1, z: 1 }
    }

    /// The pixels of the image.
    pub open spec fn count_spec(&self) -> nat {
        (self.dims_spec().0) as nat
    }

    /// Read the image into the host data `dst`, which must hold a pixel per
    /// pixel of the image.
    pub fn read(self, st: &mut Store, dst: HostRef) -> (r: OpResult<ImageRead>)
        requires
            old(st)@.next + 2 <= u64::MAX,
        ensures
            if dst.len != self.count_spec() {
                r == Err::<ImageRead, Error>(
                    Error::LengthMismatch { src: self.count_spec() as usize, dst: dst.len },
                ) && final(st)@ == old(st)@
            } else {
                r == Ok::<ImageRead, Error>(
                    ImageRead {
                        img: Input::Concrete(old(st)@.next),
                        region: self.region_spec(),
                        dst: dst.id,
                        out: Pipe { cell: (old(st)@.next + 1) as u64 },
                    },
                ) && final(st)@ == owned_image(old(st)@, self.obj())
            },
    {
        let expected: usize = self.count();
        if dst.len != expected {
            return Err(Error::LengthMismatch { src: expected, dst: dst.len });
        }
        let region = self.enqueue_region();
        let (img, out) = own_image(st, self.to_obj());
        Ok(ImageRead { img, region, dst: dst.id, out })
    }

    /// Read the image into the host bytes `dst`, which must be as many as the
    /// image has.
    pub fn read_bytes(self, st: &mut Store, dst: HostRef) -> (r: OpResult<ImageRead>)
        requires
            old(st)@.next + 2 <= u64::MAX,
        ensures
            if dst.bytes != self.count_spec() * F::pixel_bytes() {
                r == Err::<ImageRead, Error>(
                    Error::LengthMismatch {
                        src: (self.count_spec() * F::pixel_bytes()) as usize,
                        dst: dst.bytes,
                    },
                ) && final(st)@ == old(st)@
            } else {
                r == Ok::<ImageRead, Error>(
                    ImageRead {
                        img: Input::Concrete(old(st)@.next),
                        region: self.region_spec(),
                        dst: dst.id,
                        out: Pipe { cell: (old(st)@.next + 1) as u64 },
                    },
                ) && final(st)@ == owned_image(old(st)@, self.obj())
            },
    {
        let count: usize = self.count();
        let p: usize = F::pixel_size();
        let expected: usize = count * p;
        if dst.bytes != expected {
            return Err(Error::LengthMismatch { src: expected, dst: dst.bytes });
        }
        let region = self.enqueue_region();
        let (img, out) = own_image(st, self.to_obj());
        Ok(ImageRead { img, region, dst: dst.id, out })
    }

    /// Read the image into a fresh host vector.
    pub fn read_alloc(&self) -> (r: ImageReadAlloc)
        ensures
            r == (ImageReadAlloc {
                image: self.obj(),
                region: self.region_spec(),
                pixel_count: self.count_spec() as usize,
            }),
    {
        let pixel_count: usize = self.count();
        ImageReadAlloc { image: self.to_obj(), region: self.enqueue_region(), pixel_count }
    }

    /// Read the image into fresh host bytes.
    pub fn read_bytes_alloc(&self) -> (r: ImageReadBytesAlloc)
        ensures
            r == (ImageReadBytesAlloc {
                image: self.obj(),
                region: self.region_spec(),
                byte_len: (self.count_spec() * F::pixel_bytes()) as usize,
            }),
    {
        let count: usize = self.count();
        let p: usize = F::pixel_size();
        ImageReadBytesAlloc { image: self.to_obj(), region: self.enqueue_region(), byte_len: count * p }
    }

    /// Write the host pixels `pixels`, one per pixel of the image.
    pub fn write(self, st: &mut Store, pixels: HostRef) -> (r: ImageWrite)
        requires
            old(st)@.next + 2 <= u64::MAX,
            pixels.len == self.count_spec(),
        ensures
            r == (ImageWrite {
                img: Input::Concrete(old(st)@.next),
                region: self.region_spec(),
                data: pixels,
                out: Pipe { cell: (old(st)@.next + 1) as u64 },
            }),
            final(st)@ == owned_image(old(st)@, self.obj()),
    {
        let region = self.enqueue_region();
        let (img, out) = own_image(st, self.to_obj());
        ImageWrite { img, region, data: pixels, out }
    }

    /// Write the host bytes `bytes`, as many as the image has.
    pub fn write_bytes(self, st: &mut Store, bytes: HostRef) -> (r: ImageWrite)
        requires
            old(st)@.next + 2 <= u64::MAX,
            bytes.bytes == self.count_spec() * F::pixel_bytes(),
        ensures
            r == (ImageWrite {
                img: Input::Concrete(old(st)@.next),
                region: self.region_spec(),
                data: bytes,
                out: Pipe { cell: (old(st)@.next + 1) as u64 },
            }),
            final(st)@ == owned_image(old(st)@, self.obj()),
    {
        let region = self.enqueue_region();
        let (img, out) = own_image(st, self.to_obj());
        ImageWrite { img, region, data: bytes, out }
    }

    /// Copy the image into `dst`, over the image's own extent.
    pub fn copy_to<A2: KernelAccess>(self, st: &mut Store, dst: Image1DBuffer<A2, F>) -> (r: ImageCopy)
        requires
            old(st)@.next + 5 <= u64::MAX,
        ensures
            r == (ImageCopy {
                src: Input::Concrete(old(st)@.next),
                dst: Input::Concrete((old(st)@.next + 1) as u64),
                region: Some(self.region_spec()),
                src_pipe: Pipe { cell: (old(st)@.next + 2) as u64 },
                dst_pipe: Pipe { cell: (old(st)@.next + 3) as u64 },
                cb_cache: (old(st)@.next + 4) as u64,
            }),
            final(st)@ == owned_images(old(st)@, self.obj(), dst.obj()),
    {
        let region = self.enqueue_region();
        let a = Input::concrete(st, self.to_obj());
        let b = Input::concrete(st, dst.to_obj());
        let src_pipe = st.pipe();
        let dst_pipe = st.pipe();
        let cb_cache = new_cb_cache(st);
        assert(st@ =~= owned_images(old(st)@, self.obj(), dst.obj()));
        ImageCopy { src: a, dst: b, region: Some(region), src_pipe, dst_pipe, cb_cache }
    }

    /// Fill every pixel with the four-component `pattern`.
    pub fn fill(self, st: &mut Store, pattern: HostRef) -> (r: ImageFill)
        requires
            old(st)@.next + 3 <= u64::MAX,
        ensures
            r == (ImageFill {
                img: Input::Concrete(old(st)@.next),
                region: self.region_spec(),
                pattern,
                out: Pipe { cell: (old(st)@.next + 1) as u64 },
                cb_cache: (old(st)@.next + 2) as u64,
            }),
            final(st)@ == owned_cached_image(old(st)@, self.obj()),
    {
        let region = self.enqueue_region();
        let (img, out) = own_image(st, self.to_obj());
        let cb_cache = new_cb_cache(st);
        assert(st@ =~= owned_cached_image(old(st)@, self.obj()));
        ImageFill { img, region, pattern, out, cb_cache }
    }

    /// The width in pixels.
    pub fn width(&self) -> (r: u32)
        ensures
            r == self.dims_spec().0,
    {
        self.width
    }

    /// The handle of the image.
    pub fn image(&self) -> (r: u64)
        ensures
            r == self.handle_spec().0,
    {
        self.image
    }
}

impl<A: KernelAccess, F: Format> ImageEnqueue for Image1DBuffer<A, F> {
    open spec fn obj(&self) -> Obj {
        Obj {
            class: Class::Image,
            id: self.handle_spec().0,
            ctx: self.handle_spec().1,
            extent: self.region_spec(),
            len: self.count_spec() as usize,
            bytes: (self.count_spec() * F::pixel_bytes()) as usize,
            shared: false,
        }
    }

    fn to_obj(&self) -> (r: Obj) {
        let len: usize = self.count();
        let p: usize = F::pixel_size();
        Obj {
            class: Class::Image,
            id: self.image,
            ctx: self.ctx,
            extent: self.enqueue_region(),
            len,
            bytes: len * p,
            shared: false,
        }
    }

    fn enqueue_region(&self) -> (r: Extent) {
        Extent { x: self.width as usize, y: 1, z: 1 }
    }
}

impl<A: KernelAccess, F: Format> KernelArg for Image1DBuffer<A, F> {
    open spec fn arg_values(&self) -> Seq<ArgValue> {
        seq![ArgValue::Mem(self.handle_spec().0)]
    }

    fn set(&self, exec: &mut ExecuteKernel) {
        exec.set_arg(ArgValue::Mem(self.image));
        assert(exec@ =~= old(exec)@ + self.arg_values());
    }

    open spec fn uses_until(&self, event: u64) -> Seq<InFlight> {
        Seq::empty()
    }

    fn register_completion(&self, event: u64, uses: &mut Vec<InFlight>) {
        assert(uses@ =~= old(uses)@ + self.uses_until(event));
    }
}

impl<A: KernelAccess, F: Format> ToInputImage for Image1DBuffer<A, F> {
    open spec fn imageable(self) -> bool {
        true
    }

    open spec fn image_input_spec(self, w: World) -> (Input, World) {
        (Input::Concrete(w.next), w.fresh_ids(1nat).holding(w.next, self.obj()))
    }

    fn to_input_image(self, st: &mut Store) -> (r: Input) {
        Input::concrete(st, self.to_obj())
    }
}

/// Creating an image: `q` answers it. An image whose bytes cannot be counted is of no
/// use: it is let go of, which `x` answers.
pub open spec fn image_made(desc: ImageDesc, fits: bool, pre: Walk, q: Reply, x: Reply) -> (Walk, OpResult<u64>) {
    let s = pre.issued(Command::CreateImage { desc }, Seq::empty(), q);
    match q {
        Err(c) => (s, Err(Error::OpenCl(c))),
        Ok(h) => if fits {
            (s, Ok(h))
        } else {
            (
                s.issued(Command::Release { mem: MemRef::Buffer(h) }, Seq::empty(), x),
                Err(Error::OpenCl(CL_INVALID_IMAGE_SIZE)),
            )
        },
    }
}

fn make_image<D: Driver>(ec: &mut ExecutionContext<D>, desc: ImageDesc, fits: bool) -> (r: OpResult<u64>)
    ensures
        exists|q: Reply, x: Reply| (#[trigger] image_made(desc, fits, old(ec)@, q, x)) == (final(ec)@, r),
        r is Ok ==> fits,
{
    let ghost pre = ec@;
    let ghost no: Reply = Err(0);
    let q: Reply = ec.issue(Command::CreateImage { desc }, &no_deps());
    match q {
        Err(c) => {
            assert(image_made(desc, fits, pre, q, no).0 == ec@);
            Err(Error::OpenCl(c))
        },
        Ok(h) => {
            if fits {
                assert(image_made(desc, fits, pre, q, no).0 == ec@);
                return Ok(h);
            }
            let x: Reply = ec.issue(Command::Release { mem: MemRef::Buffer(h) }, &no_deps());
            assert(image_made(desc, fits, pre, q, x).0 == ec@);
            Err(Error::OpenCl(CL_INVALID_IMAGE_SIZE))
        },
    }
}

/// Creating an image over a buffer of its own: `q1` answers the allocation, `q2`
/// the creation. A buffer that got no image is let go of, which `q3` answers.
pub open spec fn image_buffer_after<A: KernelAccess, F: Format>(
    width: u32,
    pre: Walk,
    q1: Reply,
    q2: Reply,
    q3: Reply,
) -> (Walk, OpResult<u64>) {
    if width * F::pixel_bytes() > usize::MAX {
        (pre, Err(Error::OpenCl(CL_INVALID_BUFFER_SIZE)))
    } else {
        let s = pre.issued(
            Command::Alloc {
                class: Class::DeviceUninit,
                len: (width * F::pixel_bytes()) as usize,
                bytes: (width * F::pixel_bytes()) as usize,
                flags: access_flags(A::reads(), A::writes()),
                contents: Contents::Unwritten,
            },
            Seq::empty(),
            q1,
        );
        match q1 {
            Err(c) => (s, Err(Error::OpenCl(c))),
            Ok(backing) => {
                let t = s.issued(
                    Command::CreateImage { desc: image1dbuffer_desc::<A, F>(width, backing) },
                    Seq::empty(),
                    q2,
                );
                match q2 {
                    Err(c) => (
                        t.issued(Command::Release { mem: MemRef::Buffer(backing) }, Seq::empty(), q3),
                        Err(Error::OpenCl(c)),
                    ),
                    Ok(h) => (t, Ok(h)),
                }
            },
        }
    }
}

/// A device buffer seen as a one-dimensional image that shares its storage.
pub struct Image1DBufferView<M: KernelAccess, F: Format> {
    image: u64,
    width: u32,
    mode: PhantomData<M>,
    format: PhantomData<F>,
}

impl<M: KernelAccess, F: Format> Image1DBufferView<M, F> {
    /// The handle of the image.
    pub closed spec fn handle_spec(&self) -> u64 {
        self.image
    }

    /// The width in pixels.
    pub closed spec fn width_spec(&self) -> u32 {
        self.width
    }

    /// See a device buffer as an image. Its bytes must be whole pixels.
    #[verifier::truncate]
    pub fn view_of<D: Driver>(ec: &mut ExecutionContext<D>, slice: &DeviceSlice<M>) -> (r: OpResult<Self>)
        ensures
            if slice.byte_len % F::pixel_bytes() != 0 {
                r == Err::<Self, Error>(
                    Error::InvalidArgument(
                        "Image1DBufferView::view_of: slice byte length is not a multiple of the pixel size",
                    ),
                ) && final(ec)@ == old(ec)@
            } else {
                exists|q: Reply|
                    {
                        &&& final(ec)@ == #[trigger] old(ec)@.issued(
                            Command::CreateImage {
                                desc: view_desc::<M, F>(slice.byte_len / F::pixel_bytes(), slice.mem),
                            },
                            Seq::empty(),
                            q,
                        )
                        &&& match q {
                            Err(c) => r == Err::<Self, Error>(Error::OpenCl(c)),
                            Ok(h) => r matches Ok(v) && v.handle_spec() == h && v.width_spec() == (
                            slice.byte_len / F::pixel_bytes()) as u32,
                        }
                    }
            },
    {
        let p: usize = F::pixel_size();
        if slice.byte_len % p != 0 {
            return Err(
                Error::InvalidArgument(
                    "Image1DBufferView::view_of: slice byte length is not a multiple of the pixel size",
                ),
            );
        }
        let width: usize = slice.byte_len / p;
        let desc = ImageDesc {
            image_type: CL_MEM_OBJECT_IMAGE1D_BUFFER,
            width,
            height: 0,
            depth: 0,
            array_size: 0,
            buffer: slice.mem,
            channel_order: F::channel_order(),
            channel_type: F::channel_type(),
            flags: M::kernel_flags(),
        };
        let q: Reply = ec.issue(Command::CreateImage { desc }, &no_deps());
        assert(ec@ == old(ec)@.issued(
            Command::CreateImage {
                desc: view_desc::<M, F>(slice.byte_len / F::pixel_bytes(), slice.mem),
            },
            Seq::empty(),
            q,
        ));
        match q {
            Err(c) => Err(Error::OpenCl(c)),
            Ok(h) => Ok(
                Image1DBufferView { image: h, width: width as u32, mode: PhantomData, format: PhantomData },
            ),
        }
    }

    /// The width in pixels.
    pub fn width(&self) -> (r: u32)
        ensures
            r == self.width_spec(),
    {
        self.width
    }

    /// The handle of the image.
    pub fn image(&self) -> (r: u64)
        ensures
            r == self.handle_spec(),
    {
        self.image
    }
}

/// The description of an image that shares the storage of `buffer`.
pub open spec fn view_desc<M: KernelAccess, F: Format>(width: usize, buffer: u64) -> ImageDesc {
    ImageDesc {
        image_type: CL_MEM_OBJECT_IMAGE1D_BUFFER,
        width,
        height: 0,
        depth: 0,
        array_size: 0,
        buffer,
        channel_order: F::order(),
        channel_type: F::ctype(),
        flags: crate::access::access_flags(M::reads(), M::writes()),
    }
}

impl<M: KernelAccess, F: Format> KernelArg for Image1DBufferView<M, F> {
    open spec fn arg_values(&self) -> Seq<ArgValue> {
        seq![ArgValue::Mem(self.handle_spec())]
    }

    fn set(&self, exec: &mut ExecuteKernel) {
        exec.set_arg(ArgValue::Mem(self.image));
        assert(exec@ =~= old(exec)@ + self.arg_values());
    }

    open spec fn uses_until(&self, event: u64) -> Seq<InFlight> {
        Seq::empty()
    }

    fn register_completion(&self, event: u64, uses: &mut Vec<InFlight>) {
        assert(uses@ =~= old(uses)@ + self.uses_until(event));
    }
}

/// A host image for a 1D kernel parameter declared read_only, in the sampled-type
/// family `SF`.
pub trait KernelImage1DReadArg<SF: SampledTypeFamily>: KernelArg {

}

/// A host image for a 1D kernel parameter declared write_only, in the sampled-type
/// family `SF`.
pub trait KernelImage1DWriteArg<SF: SampledTypeFamily>: KernelArg {

}

/// A host image for a 1D kernel parameter declared read_write, in the sampled-type
/// family `SF`.
pub trait KernelImage1DReadWriteArg<SF: SampledTypeFamily>: KernelArg {

}

impl<F: Format> KernelImage1DReadArg<F::SampledFamily> for Image1D<ReadOnly, F> {

}

impl<F: Format> KernelImage1DWriteArg<F::SampledFamily> for Image1D<WriteOnly, F> {

}

impl<F: Format> KernelImage1DReadArg<F::SampledFamily> for Image1D<ReadWrite, F> {

}

impl<F: Format> KernelImage1DWriteArg<F::SampledFamily> for Image1D<ReadWrite, F> {

}

impl<F: Format> KernelImage1DReadWriteArg<F::SampledFamily> for Image1D<ReadWrite, F> {

}

/// A host image for a 2D kernel parameter declared read_only, in the sampled-type
/// family `SF`.
pub trait KernelImage2DReadArg<SF: SampledTypeFamily>: KernelArg {

}

/// A host image for a 2D kernel parameter declared write_only, in the sampled-type
/// family `SF`.
pub trait KernelImage2DWriteArg<SF: SampledTypeFamily>: KernelArg {

}

/// A host image for a 2D kernel parameter declared read_write, in the sampled-type
/// family `SF`.
pub trait KernelImage2DReadWriteArg<SF: SampledTypeFamily>: KernelArg {

}

impl<F: Format> KernelImage2DReadArg<F::SampledFamily> for Image2D<ReadOnly, F> {

}

impl<F: Format> KernelImage2DWriteArg<F::SampledFamily> for Image2D<WriteOnly, F> {

}

impl<F: Format> KernelImage2DReadArg<F::SampledFamily> for Image2D<ReadWrite, F> {

}

impl<F: Format> KernelImage2DWriteArg<F::SampledFamily> for Image2D<ReadWrite, F> {

}

impl<F: Format> KernelImage2DReadWriteArg<F::SampledFamily> for Image2D<ReadWrite, F> {

}

/// A host image for a 1D-buffer kernel parameter declared read_only, in the sampled-type
/// family `SF`.
pub trait KernelImageBufferReadArg<SF: SampledTypeFamily>: KernelArg {

}

/// A host image for a 1D-buffer kernel parameter declared write_only, in the sampled-type
/// family `SF`.
pub trait KernelImageBufferWriteArg<SF: SampledTypeFamily>: KernelArg {

}

/// A host image for a 1D-buffer kernel parameter declared read_write, in the sampled-type
/// family `SF`.
pub trait KernelImageBufferReadWriteArg<SF: SampledTypeFamily>: KernelArg {

}

impl<F: Format> KernelImageBufferReadArg<F::SampledFamily> for Image1DBuffer<ReadOnly, F> {

}

impl<F: Format> KernelImageBufferWriteArg<F::SampledFamily> for Image1DBuffer<WriteOnly, F> {

}

impl<F: Format> KernelImageBufferReadArg<F::SampledFamily> for Image1DBuffer<ReadWrite, F> {

}

impl<F: Format> KernelImageBufferWriteArg<F::SampledFamily> for Image1DBuffer<ReadWrite, F> {

}

impl<F: Format> KernelImageBufferReadWriteArg<F::SampledFamily> for Image1DBuffer<ReadWrite, F> {

}

/// A host image for a 3D kernel parameter declared read_only, in the sampled-type
/// family `SF`.
pub trait KernelImage3DReadArg<SF: SampledTypeFamily>: KernelArg {

}

/// A host image for a 3D kernel parameter declared write_only, in the sampled-type
/// family `SF`.
pub trait KernelImage3DWriteArg<SF: SampledTypeFamily>: KernelArg {

}

/// A host image for a 3D kernel parameter declared read_write, in the sampled-type
/// family `SF`.
pub trait KernelImage3DReadWriteArg<SF: SampledTypeFamily>: KernelArg {

}

impl<F: Format> KernelImage3DReadArg<F::SampledFamily> for Image3D<ReadOnly, F> {

}

impl<F: Format> KernelImage3DWriteArg<F::SampledFamily> for Image3D<WriteOnly, F> {

}

impl<F: Format> KernelImage3DReadArg<F::SampledFamily> for Image3D<ReadWrite, F> {

}

impl<F: Format> KernelImage3DWriteArg<F::SampledFamily> for Image3D<ReadWrite, F> {

}

impl<F: Format> KernelImage3DReadWriteArg<F::SampledFamily> for Image3D<ReadWrite, F> {

}

/// A host image for a 1D-array kernel parameter declared read_only, in the sampled-type
/// family `SF`.
pub trait KernelImage1DArrayReadArg<SF: SampledTypeFamily>: KernelArg {

}

/// A host image for a 1D-array kernel parameter declared write_only, in the sampled-type
/// family `SF`.
pub trait KernelImage1DArrayWriteArg<SF: SampledTypeFamily>: KernelArg {

}

/// A host image for a 1D-array kernel parameter declared read_write, in the sampled-type
/// family `SF`.
pub trait KernelImage1DArrayReadWriteArg<SF: SampledTypeFamily>: KernelArg {

}

impl<F: Format> KernelImage1DArrayReadArg<F::SampledFamily> for Image1DArray<ReadOnly, F> {

}

impl<F: Format> KernelImage1DArrayWriteArg<F::SampledFamily> for Image1DArray<WriteOnly, F> {

}

impl<F: Format> KernelImage1DArrayReadArg<F::SampledFamily> for Image1DArray<ReadWrite, F> {

}

impl<F: Format> KernelImage1DArrayWriteArg<F::SampledFamily> for Image1DArray<ReadWrite, F> {

}

impl<F: Format> KernelImage1DArrayReadWriteArg<F::SampledFamily> for Image1DArray<ReadWrite, F> {

}

/// A host image for a 2D-array kernel parameter declared read_only, in the sampled-type
/// family `SF`.
pub trait KernelImage2DArrayReadArg<SF: SampledTypeFamily>: KernelArg {

}

/// A host image for a 2D-array kernel parameter declared write_only, in the sampled-type
/// family `SF`.
pub trait KernelImage2DArrayWriteArg<SF: SampledTypeFamily>: KernelArg {

}

/// A host image for a 2D-array kernel parameter declared read_write, in the sampled-type
/// family `SF`.
pub trait KernelImage2DArrayReadWriteArg<SF: SampledTypeFamily>: KernelArg {

}

impl<F: Format> KernelImage2DArrayReadArg<F::SampledFamily> for Image2DArray<ReadOnly, F> {

}

impl<F: Format> KernelImage2DArrayWriteArg<F::SampledFamily> for Image2DArray<WriteOnly, F> {

}

impl<F: Format> KernelImage2DArrayReadArg<F::SampledFamily> for Image2DArray<ReadWrite, F> {

}

impl<F: Format> KernelImage2DArrayWriteArg<F::SampledFamily> for Image2DArray<ReadWrite, F> {

}

impl<F: Format> KernelImage2DArrayReadWriteArg<F::SampledFamily> for Image2DArray<ReadWrite, F> {

}

} // verus!
