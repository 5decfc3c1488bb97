//! What shape an image has: the one that is created, the region that the image ops work
//! over, and the pixels that are counted, are all of the dimensions that were asked for.

use crate::access::KernelAccess;
use crate::error::Error;
use crate::exec_ctx::Walk;
use crate::format::{
    R16Float, R16G16B16A16Float, R16G16B16A16Sint, R16G16B16A16Snorm, R16G16B16A16Uint, R16G16B16A16Unorm,
    R32Float, R32G32B32A32Float, R32G32B32A32Sint, R32G32B32A32Uint, R32G32Float, R32G32Uint, R32Sint, R32Uint,
    R8G8B8A8Sint, R8G8B8A8Snorm, R8G8B8A8Uint, R8G8B8A8Unorm, R8Unorm,
};
use crate::image::{
    image1d_desc, image1darray_desc, image2d_desc, image2darray_desc, image3d_desc, image_buffer_after, image_fits,
    image_made, read_alloc_after, view_desc, Format, Image1D, Image1DArray, Image1DBuffer, Image2D, Image2DArray,
    Image3D, ImageEnqueue, ImageHostTransfer, ToInputImage,
};
use crate::input::found;
use crate::launch::{ArgValue, KernelArg};
use crate::obj::{Class, Command, Contents, Extent, ImageDesc, MemRef, Obj, Reply};
use crate::store::World;
use vstd::prelude::*;

verus! {

/// Whether a description is of these sizes and of no others.
pub open spec fn describes(
    d: ImageDesc,
    image_type: int,
    width: usize,
    height: usize,
    depth: usize,
    layers: usize,
    buffer: u64,
) -> bool {
    &&& d.image_type == image_type
    &&& d.width == width
    &&& d.height == height
    &&& d.depth == depth
    &&& d.array_size == layers
    &&& d.buffer == buffer
}

/// Whether a description is of pixels of this format that kernels have this access to.
pub open spec fn describes_pixels<A: KernelAccess, F: Format>(d: ImageDesc) -> bool {
    &&& d.channel_order == F::order()
    &&& d.channel_type == F::ctype()
    &&& A::reads() && A::writes() ==> d.flags == 1
    &&& !A::reads() && A::writes() ==> d.flags == 2
    &&& A::reads() && !A::writes() ==> d.flags == 4
}

/// An image of two dimensions: what an upload creates is what the type itself creates, of the
/// dimensions that were asked for. The region that the upload writes is the whole of it,
/// and it counts all of its pixels.
pub proof fn law_image2d_has_its_dimensions<A: KernelAccess, F: Format>(width: u32, height: u32)
    ensures
        Image2D::<A, F>::desc_of((width, height)) == image2d_desc::<A, F>(width, height),
        describes(
            Image2D::<A, F>::desc_of((width, height)),
            0x10F1,
            width as usize,
            height as usize,
            1,
            0,
            0,
        ),
        describes_pixels::<A, F>(Image2D::<A, F>::desc_of((width, height))),
        Image2D::<A, F>::region_of((width, height)) == (Extent { x: width as usize, y: height as usize, z: 1 }),
        Image2D::<A, F>::count_of((width, height)) == width * height,
        Image2D::<A, F>::pixel_bytes_of() == F::pixel_bytes(),
        Image2D::<A, F>::fits((width, height)) <==> width * height * F::pixel_bytes() <= usize::MAX,
{
    assert(width * height >= 0) by (nonlinear_arith)
        requires
            width >= 0, height >= 0,
    ;
}

/// An image of two dimensions as a value of a graph: its own handle, its whole extent, and a
/// pixel for each point of it.
pub proof fn law_image2d_stands_for_all_its_pixels<A: KernelAccess, F: Format>(img: Image2D<A, F>)
    requires
        img.count_spec() * F::pixel_bytes() <= usize::MAX,
        img.count_spec() <= usize::MAX,
    ensures
        ({
            let o = img.obj();
            let d = img.dims_spec();
            &&& o.class == Class::Image
            &&& o.id == img.handle_spec().0
            &&& o.ctx == img.handle_spec().1
            &&& o.extent == (Extent { x: d.0 as usize, y: d.1 as usize, z: 1 })
            &&& o.len == o.extent.x * o.extent.y * o.extent.z
            &&& o.bytes == o.len * F::pixel_bytes()
            &&& img.arg_values() == seq![ArgValue::Mem(img.handle_spec().0)]
        }),
{
    let d = img.dims_spec();
    let e = img.obj().extent;
    assert(e.x * e.y * e.z == img.count_spec()) by (nonlinear_arith)
        requires
            e.x == d.0, e.y == d.1, e.z == 1,
            img.count_spec() == d.0 * d.1,
            d.0 >= 0, d.1 >= 0,
    ;
}

/// An image of one dimension: what an upload creates is what the type itself creates, of the
/// dimensions that were asked for. The region that the upload writes is the whole of it,
/// and it counts all of its pixels.
pub proof fn law_image1d_has_its_dimensions<A: KernelAccess, F: Format>(width: u32)
    ensures
        Image1D::<A, F>::desc_of(width) == image1d_desc::<A, F>(width),
        describes(
            Image1D::<A, F>::desc_of(width),
            0x10F4,
            width as usize,
            1,
            1,
            0,
            0,
        ),
        describes_pixels::<A, F>(Image1D::<A, F>::desc_of(width)),
        Image1D::<A, F>::region_of(width) == (Extent { x: width as usize, y: 1, z: 1 }),
        Image1D::<A, F>::count_of(width) == width as int,
        Image1D::<A, F>::pixel_bytes_of() == F::pixel_bytes(),
        Image1D::<A, F>::fits(width) <==> width * F::pixel_bytes() <= usize::MAX,
{
    assert(width >= 0) by (nonlinear_arith)
        requires
            width >= 0,
    ;
}

/// An image of one dimension as a value of a graph: its own handle, its whole extent, and a
/// pixel for each point of it.
pub proof fn law_image1d_stands_for_all_its_pixels<A: KernelAccess, F: Format>(img: Image1D<A, F>)
    requires
        img.count_spec() * F::pixel_bytes() <= usize::MAX,
        img.count_spec() <= usize::MAX,
    ensures
        ({
            let o = img.obj();
            let d = img.dims_spec();
            &&& o.class == Class::Image
            &&& o.id == img.handle_spec().0
            &&& o.ctx == img.handle_spec().1
            &&& o.extent == (Extent { x: d.0 as usize, y: 1, z: 1 })
            &&& o.len == o.extent.x * o.extent.y * o.extent.z
            &&& o.bytes == o.len * F::pixel_bytes()
            &&& img.arg_values() == seq![ArgValue::Mem(img.handle_spec().0)]
        }),
{
    let d = img.dims_spec();
    let e = img.obj().extent;
    assert(e.x * e.y * e.z == img.count_spec()) by (nonlinear_arith)
        requires
            e.x == d.0, e.y == 1, e.z == 1,
            img.count_spec() == d.0,
            d.0 >= 0,
    ;
}

/// An image of three dimensions: what an upload creates is what the type itself creates, of the
/// dimensions that were asked for. The region that the upload writes is the whole of it,
/// and it counts all of its pixels.
pub proof fn law_image3d_has_its_dimensions<A: KernelAccess, F: Format>(width: u32, height: u32, depth: u32)
    ensures
        Image3D::<A, F>::desc_of((width, height, depth)) == image3d_desc::<A, F>(width, height, depth),
        describes(
            Image3D::<A, F>::desc_of((width, height, depth)),
            0x10F2,
            width as usize,
            height as usize,
            depth as usize,
            0,
            0,
        ),
        describes_pixels::<A, F>(Image3D::<A, F>::desc_of((width, height, depth))),
        Image3D::<A, F>::region_of((width, height, depth)) == (Extent { x: width as usize, y: height as usize, z: depth as usize }),
        Image3D::<A, F>::count_of((width, height, depth)) == width * height * depth,
        Image3D::<A, F>::pixel_bytes_of() == F::pixel_bytes(),
        Image3D::<A, F>::fits((width, height, depth)) <==> width * height * depth * F::pixel_bytes() <= usize::MAX,
{
    assert(width * height * depth >= 0) by (nonlinear_arith)
        requires
            width >= 0, height >= 0, depth >= 0,
    ;
}

/// An image of three dimensions as a value of a graph: its own handle, its whole extent, and a
/// pixel for each point of it.
pub proof fn law_image3d_stands_for_all_its_pixels<A: KernelAccess, F: Format>(img: Image3D<A, F>)
    requires
        img.count_spec() * F::pixel_bytes() <= usize::MAX,
        img.count_spec() <= usize::MAX,
    ensures
        ({
            let o = img.obj();
            let d = img.dims_spec();
            &&& o.class == Class::Image
            &&& o.id == img.handle_spec().0
            &&& o.ctx == img.handle_spec().1
            &&& o.extent == (Extent { x: d.0 as usize, y: d.1 as usize, z: d.2 as usize })
            &&& o.len == o.extent.x * o.extent.y * o.extent.z
            &&& o.bytes == o.len * F::pixel_bytes()
            &&& img.arg_values() == seq![ArgValue::Mem(img.handle_spec().0)]
        }),
{
    let d = img.dims_spec();
    let e = img.obj().extent;
    assert(e.x * e.y * e.z == img.count_spec()) by (nonlinear_arith)
        requires
            e.x == d.0, e.y == d.1, e.z == d.2,
            img.count_spec() == d.0 * d.1 * d.2,
            d.0 >= 0, d.1 >= 0, d.2 >= 0,
    ;
}

/// An array of images of one dimension: what an upload creates is what the type itself creates, of the
/// dimensions that were asked for. The region that the upload writes is the whole of it,
/// and it counts all of its pixels.
pub proof fn law_image1darray_has_its_dimensions<A: KernelAccess, F: Format>(width: u32, layers: u32)
    ensures
        Image1DArray::<A, F>::desc_of((width, layers)) == image1darray_desc::<A, F>(width, layers),
        describes(
            Image1DArray::<A, F>::desc_of((width, layers)),
            0x10F5,
            width as usize,
            1,
            1,
            layers as usize,
            0,
        ),
        describes_pixels::<A, F>(Image1DArray::<A, F>::desc_of((width, layers))),
        Image1DArray::<A, F>::region_of((width, layers)) == (Extent { x: width as usize, y: layers as usize, z: 1 }),
        Image1DArray::<A, F>::count_of((width, layers)) == width * layers,
        Image1DArray::<A, F>::pixel_bytes_of() == F::pixel_bytes(),
        Image1DArray::<A, F>::fits((width, layers)) <==> width * layers * F::pixel_bytes() <= usize::MAX,
{
    assert(width * layers >= 0) by (nonlinear_arith)
        requires
            width >= 0, layers >= 0,
    ;
}

/// An array of images of one dimension as a value of a graph: its own handle, its whole extent, and a
/// pixel for each point of it.
pub proof fn law_image1darray_stands_for_all_its_pixels<A: KernelAccess, F: Format>(img: Image1DArray<A, F>)
    requires
        img.count_spec() * F::pixel_bytes() <= usize::MAX,
        img.count_spec() <= usize::MAX,
    ensures
        ({
            let o = img.obj();
            let d = img.dims_spec();
            &&& o.class == Class::Image
            &&& o.id == img.handle_spec().0
            &&& o.ctx == img.handle_spec().1
            &&& o.extent == (Extent { x: d.0 as usize, y: d.1 as usize, z: 1 })
            &&& o.len == o.extent.x * o.extent.y * o.extent.z
            &&& o.bytes == o.len * F::pixel_bytes()
            &&& img.arg_values() == seq![ArgValue::Mem(img.handle_spec().0)]
        }),
{
    let d = img.dims_spec();
    let e = img.obj().extent;
    assert(e.x * e.y * e.z == img.count_spec()) by (nonlinear_arith)
        requires
            e.x == d.0, e.y == d.1, e.z == 1,
            img.count_spec() == d.0 * d.1,
            d.0 >= 0, d.1 >= 0,
    ;
}

/// An array of images of two dimensions: what an upload creates is what the type itself creates, of the
/// dimensions that were asked for. The region that the upload writes is the whole of it,
/// and it counts all of its pixels.
pub proof fn law_image2darray_has_its_dimensions<A: KernelAccess, F: Format>(width: u32, height: u32, layers: u32)
    ensures
        Image2DArray::<A, F>::desc_of((width, height, layers)) == image2darray_desc::<A, F>(width, height, layers),
        describes(
            Image2DArray::<A, F>::desc_of((width, height, layers)),
            0x10F3,
            width as usize,
            height as usize,
            1,
            layers as usize,
            0,
        ),
        describes_pixels::<A, F>(Image2DArray::<A, F>::desc_of((width, height, layers))),
        Image2DArray::<A, F>::region_of((width, height, layers)) == (Extent { x: width as usize, y: height as usize, z: layers as usize }),
        Image2DArray::<A, F>::count_of((width, height, layers)) == width * height * layers,
        Image2DArray::<A, F>::pixel_bytes_of() == F::pixel_bytes(),
        Image2DArray::<A, F>::fits((width, height, layers)) <==> width * height * layers * F::pixel_bytes() <= usize::MAX,
{
    assert(width * height * layers >= 0) by (nonlinear_arith)
        requires
            width >= 0, height >= 0, layers >= 0,
    ;
}

/// An array of images of two dimensions as a value of a graph: its own handle, its whole extent, and a
/// pixel for each point of it.
pub proof fn law_image2darray_stands_for_all_its_pixels<A: KernelAccess, F: Format>(img: Image2DArray<A, F>)
    requires
        img.count_spec() * F::pixel_bytes() <= usize::MAX,
        img.count_spec() <= usize::MAX,
    ensures
        ({
            let o = img.obj();
            let d = img.dims_spec();
            &&& o.class == Class::Image
            &&& o.id == img.handle_spec().0
            &&& o.ctx == img.handle_spec().1
            &&& o.extent == (Extent { x: d.0 as usize, y: d.1 as usize, z: d.2 as usize })
            &&& o.len == o.extent.x * o.extent.y * o.extent.z
            &&& o.bytes == o.len * F::pixel_bytes()
            &&& img.arg_values() == seq![ArgValue::Mem(img.handle_spec().0)]
        }),
{
    let d = img.dims_spec();
    let e = img.obj().extent;
    assert(e.x * e.y * e.z == img.count_spec()) by (nonlinear_arith)
        requires
            e.x == d.0, e.y == d.1, e.z == d.2,
            img.count_spec() == d.0 * d.1 * d.2,
            d.0 >= 0, d.1 >= 0, d.2 >= 0,
    ;
}

/// An image over a buffer of its own: the buffer has room for exactly its pixels, with the
/// image's own access, and the image shares it.
pub proof fn law_image1dbuffer_shares_its_buffer<A: KernelAccess, F: Format>(
    width: u32,
    pre: Walk,
    q1: Reply,
    q2: Reply,
    q3: Reply,
    h: u64,
)
    requires
        image_buffer_after::<A, F>(width, pre, q1, q2, q3).1 == Ok::<u64, Error>(h),
    ensures
        ({
            let post = image_buffer_after::<A, F>(width, pre, q1, q2, q3).0;
            let n = pre.trace.len() as int;
            &&& post.trace.len() == n + 2
            &&& post.trace[n].command matches Command::Alloc { class, len, bytes, flags, contents }
            &&& class == Class::DeviceUninit
            &&& bytes == width * F::pixel_bytes()
            &&& len == bytes
            &&& contents == Contents::Unwritten
            &&& post.trace[n].reply matches Ok(backing)
            &&& post.trace[n + 1].command matches Command::CreateImage { desc }
            &&& describes(desc, 0x10F6, width as usize, 0, 0, 0, backing)
            &&& describes_pixels::<A, F>(desc)
            &&& flags == desc.flags
            &&& post.trace[n + 1].reply == Ok::<u64, i32>(h)
        }),
{
    assert(width * F::pixel_bytes() >= 0) by (nonlinear_arith)
        requires
            width >= 0,
            F::pixel_bytes() >= 0,
    ;
}

/// The image over a buffer as a value of a graph.
pub proof fn law_image1dbuffer_stands_for_all_its_pixels<A: KernelAccess, F: Format>(img: Image1DBuffer<A, F>)
    requires
        img.dims_spec().0 * F::pixel_bytes() <= usize::MAX,
    ensures
        img.obj().class == Class::Image,
        img.obj().id == img.handle_spec().0,
        img.obj().ctx == img.handle_spec().1,
        img.obj().extent == (Extent { x: img.dims_spec().0 as usize, y: 1, z: 1 }),
        img.obj().len == img.dims_spec().0,
        img.obj().bytes == img.dims_spec().0 * F::pixel_bytes(),
        img.arg_values() == seq![ArgValue::Mem(img.handle_spec().0)],
{
    assert(img.dims_spec().0 * F::pixel_bytes() >= 0) by (nonlinear_arith)
        requires
            img.dims_spec().0 >= 0,
            F::pixel_bytes() >= 0,
    ;
}

/// A view of a device buffer is an image that shares the buffer, with the buffer's access.
pub proof fn law_view_shares_its_buffer<M: KernelAccess, F: Format>(width: usize, buffer: u64)
    ensures
        describes(view_desc::<M, F>(width, buffer), 0x10F6, width, 0, 0, 0, buffer),
        describes_pixels::<M, F>(view_desc::<M, F>(width, buffer)),
{
}

/// Creating an image asks the driver for what is described, once. What the driver refuses
/// is the error; what it made is handed out under its handle, or let go of where its bytes
/// cannot be counted.
pub proof fn law_image_is_created_as_described(desc: ImageDesc, fits: bool, pre: Walk, q: Reply, x: Reply)
    ensures
        ({
            let (post, r) = image_made(desc, fits, pre, q, x);
            let n = pre.trace.len() as int;
            &&& post.trace.len() > n
            &&& post.trace[n].command == (Command::CreateImage { desc })
            &&& post.trace[n].reply == q
            &&& q matches Err(c) ==> r == Err::<u64, Error>(Error::OpenCl(c)) && post.trace.len() == n + 1
            &&& q matches Ok(h) ==> {
                &&& fits ==> r == Ok::<u64, Error>(h) && post.trace.len() == n + 1
                &&& !fits ==> r is Err && post.trace.len() == n + 2 && post.trace[n + 1].command == (Command::Release {
                    mem: MemRef::Buffer(h),
                })
            }
            &&& post.w == pre.w
        }),
{
}

/// Reading a whole image into a fresh host vector reads the region into the vector, in a
/// command that blocks.
pub proof fn law_read_alloc_reads_into_the_new_vector(
    image: Obj,
    region: Extent,
    len: usize,
    pre: Walk,
    r1: Reply,
    r2: Reply,
)
    requires
        read_alloc_after(image, region, len, pre, r1, r2).1 is Ok,
    ensures
        ({
            let (post, r) = read_alloc_after(image, region, len, pre, r1, r2);
            let n = pre.trace.len() as int;
            &&& post.trace.len() == n + 2
            &&& post.trace[n].command == (Command::HostAlloc { len, bytes: image.bytes })
            &&& post.trace[n].reply == Ok::<u64, i32>(r->Ok_0)
            &&& post.trace[n + 1].command == (Command::ReadImage {
                mem: image.mem_spec(),
                region,
                dst: r->Ok_0,
                blocking: true,
            })
        }),
{
}

/// An image can be addressed exactly where its bytes can be counted.
pub proof fn law_images_fit_where_their_bytes_do(x: nat, y: nat, z: nat, pixel: nat)
    requires
        pixel > 0,
        z > 0,
    ensures
        image_fits(x, y, z, pixel) <==> x * y * z * pixel <= usize::MAX,
{
    assert(x * y <= x * y * z) by (nonlinear_arith)
        requires
            z > 0,
            x * y >= 0,
    ;
    assert(x * y * z <= x * y * z * pixel) by (nonlinear_arith)
        requires
            pixel > 0,
            x * y * z >= 0,
    ;
}

/// Whether a format has this many channels, each of this many bytes and of this type; a
/// pixel then takes as many bytes as all its channels.
pub open spec fn stored_as<F: Format>(channels: nat, bytes: nat, channel_type: u32) -> bool {
    &&& channels == 1 ==> F::order() == 0x10B0
    &&& channels == 2 ==> F::order() == 0x10B2
    &&& channels == 4 ==> F::order() == 0x10B5
    &&& F::ctype() == channel_type
    &&& F::pixel_bytes() == channels * bytes
}

/// Each format is stored as its name says: its channels, their width and their type.
pub proof fn law_formats_are_stored_as_named()
    ensures
        stored_as::<R8G8B8A8Uint>(4, 1, 0x10DA),
        stored_as::<R8G8B8A8Sint>(4, 1, 0x10D7),
        stored_as::<R8G8B8A8Unorm>(4, 1, 0x10D2),
        stored_as::<R8G8B8A8Snorm>(4, 1, 0x10D0),
        stored_as::<R16G16B16A16Uint>(4, 2, 0x10DB),
        stored_as::<R16G16B16A16Sint>(4, 2, 0x10D8),
        stored_as::<R16G16B16A16Unorm>(4, 2, 0x10D3),
        stored_as::<R16G16B16A16Snorm>(4, 2, 0x10D1),
        stored_as::<R16G16B16A16Float>(4, 2, 0x10DD),
        stored_as::<R32G32B32A32Float>(4, 4, 0x10DE),
        stored_as::<R32G32B32A32Uint>(4, 4, 0x10DC),
        stored_as::<R32G32B32A32Sint>(4, 4, 0x10D9),
        stored_as::<R32Float>(1, 4, 0x10DE),
        stored_as::<R32Uint>(1, 4, 0x10DC),
        stored_as::<R32Sint>(1, 4, 0x10D9),
        stored_as::<R16Float>(1, 2, 0x10DD),
        stored_as::<R8Unorm>(1, 1, 0x10D2),
        stored_as::<R32G32Float>(2, 4, 0x10DE),
        stored_as::<R32G32Uint>(2, 4, 0x10DC),
{
}

/// An image that is given to an op is what its run finds.
pub proof fn law_image2d_is_found_as_it_is<A: KernelAccess, F: Format>(img: Image2D<A, F>, w: World, barrier: Option<u64>)
    requires
        w.next < u64::MAX,
    ensures
        img.imageable(),
        ({
            let (i, v) = img.image_input_spec(w);
            found(v, barrier, i) matches Ok(p) && p.value == seq![img.obj()]
        }),
{
}

/// The same of a further kind of image: it that is given to an op is what its run finds.
pub proof fn law_image1d_is_found_as_it_is<A: KernelAccess, F: Format>(img: Image1D<A, F>, w: World, barrier: Option<u64>)
    requires
        w.next < u64::MAX,
    ensures
        img.imageable(),
        ({
            let (i, v) = img.image_input_spec(w);
            found(v, barrier, i) matches Ok(p) && p.value == seq![img.obj()]
        }),
{
}

/// The same of a further kind of image: it that is given to an op is what its run finds.
pub proof fn law_image3d_is_found_as_it_is<A: KernelAccess, F: Format>(img: Image3D<A, F>, w: World, barrier: Option<u64>)
    requires
        w.next < u64::MAX,
    ensures
        img.imageable(),
        ({
            let (i, v) = img.image_input_spec(w);
            found(v, barrier, i) matches Ok(p) && p.value == seq![img.obj()]
        }),
{
}

/// The same of a further kind of image: it that is given to an op is what its run finds.
pub proof fn law_image1darray_is_found_as_it_is<A: KernelAccess, F: Format>(img: Image1DArray<A, F>, w: World, barrier: Option<u64>)
    requires
        w.next < u64::MAX,
    ensures
        img.imageable(),
        ({
            let (i, v) = img.image_input_spec(w);
            found(v, barrier, i) matches Ok(p) && p.value == seq![img.obj()]
        }),
{
}

/// The same of a further kind of image: it that is given to an op is what its run finds.
pub proof fn law_image2darray_is_found_as_it_is<A: KernelAccess, F: Format>(img: Image2DArray<A, F>, w: World, barrier: Option<u64>)
    requires
        w.next < u64::MAX,
    ensures
        img.imageable(),
        ({
            let (i, v) = img.image_input_spec(w);
            found(v, barrier, i) matches Ok(p) && p.value == seq![img.obj()]
        }),
{
}

/// The same of a further kind of image: it that is given to an op is what its run finds.
pub proof fn law_image1dbuffer_is_found_as_it_is<A: KernelAccess, F: Format>(img: Image1DBuffer<A, F>, w: World, barrier: Option<u64>)
    requires
        w.next < u64::MAX,
    ensures
        img.imageable(),
        ({
            let (i, v) = img.image_input_spec(w);
            found(v, barrier, i) matches Ok(p) && p.value == seq![img.obj()]
        }),
{
}

} // verus!
