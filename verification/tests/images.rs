use claspr::access::{ReadOnly, ReadWrite, WriteOnly};
use claspr::error::Error;
use claspr::exec_ctx::{Driver, ExecMode, ExecutionContext};
use claspr::graph::DeviceOp;
use claspr::image::{
    image_upload, Format, Image1D, Image1DArray, Image1DBuffer, Image1DBufferView, Image2D, Image2DArray, Image3D,
    ImageEnqueue, ImageHostTransfer, KernelImage2DReadArg, KernelImage2DWriteArg, ToInputImage, Uint,
};
use claspr::image_ops::{eager_image_copy, image_download};
use claspr::input::{Checkout, Input};
use claspr::launch::DeviceSlice;
use claspr::leaf_op::LeafOp;
use claspr::obj::{Class, Command, Contents, Extent, HostRef, ImageDesc, MemRef, Reply};
use claspr::store::Store;
use opencl3::memory;
use std::collections::VecDeque;
use std::marker::PhantomData;

struct Script {
    replies: VecDeque<Reply>,
    next: u64,
    log: Vec<(Command, Vec<u64>)>,
    queues: Vec<u64>,
    host: Option<Error>,
}

impl Script {
    fn new() -> Script {
        Script { replies: VecDeque::new(), next: 100, log: Vec::new(), queues: Vec::new(), host: None }
    }

    fn with(replies: Vec<Reply>) -> Script {
        Script { replies: replies.into(), next: 100, log: Vec::new(), queues: Vec::new(), host: None }
    }
}

impl Driver for Script {
    fn issue(&mut self, queue: u64, command: Command, waits: &Vec<u64>) -> Reply {
        self.log.push((command, waits.clone()));
        self.queues.push(queue);
        match self.replies.pop_front() {
            Some(r) => r,
            None => {
                self.next += 1;
                Ok(self.next - 1)
            }
        }
    }

    fn take_host_error(&mut self) -> Option<Error> {
        self.host.take()
    }
}

type Rgba = Image2D<ReadWrite, claspr::format::R8G8B8A8Uint>;

fn context(d: Script) -> ExecutionContext<Script> {
    ExecutionContext::new(Store::new(), d, 9, 1, 20, vec![20], false, true)
}

fn pixels(len: usize, bytes: usize) -> HostRef {
    HostRef { id: 50, len, bytes }
}

#[test]
fn formats_use_the_codes_of_opencl() {
    fn check<F: Format>(order: u32, ctype: u32, bytes: usize) {
        assert_eq!(F::channel_order(), order);
        assert_eq!(F::channel_type(), ctype);
        assert_eq!(F::pixel_size(), bytes);
    }
    check::<claspr::format::R8G8B8A8Uint>(memory::CL_RGBA, memory::CL_UNSIGNED_INT8, 4);
    check::<claspr::format::R8G8B8A8Sint>(memory::CL_RGBA, memory::CL_SIGNED_INT8, 4);
    check::<claspr::format::R8G8B8A8Unorm>(memory::CL_RGBA, memory::CL_UNORM_INT8, 4);
    check::<claspr::format::R8G8B8A8Snorm>(memory::CL_RGBA, memory::CL_SNORM_INT8, 4);
    check::<claspr::format::R16G16B16A16Uint>(memory::CL_RGBA, memory::CL_UNSIGNED_INT16, 8);
    check::<claspr::format::R16G16B16A16Sint>(memory::CL_RGBA, memory::CL_SIGNED_INT16, 8);
    check::<claspr::format::R16G16B16A16Unorm>(memory::CL_RGBA, memory::CL_UNORM_INT16, 8);
    check::<claspr::format::R16G16B16A16Snorm>(memory::CL_RGBA, memory::CL_SNORM_INT16, 8);
    check::<claspr::format::R16G16B16A16Float>(memory::CL_RGBA, memory::CL_HALF_FLOAT, 8);
    check::<claspr::format::Rgba32Float>(memory::CL_RGBA, memory::CL_FLOAT, 16);
    check::<claspr::format::R32G32B32A32Uint>(memory::CL_RGBA, memory::CL_UNSIGNED_INT32, 16);
    check::<claspr::format::R32G32B32A32Sint>(memory::CL_RGBA, memory::CL_SIGNED_INT32, 16);
    check::<claspr::format::R32Float>(memory::CL_R, memory::CL_FLOAT, 4);
    check::<claspr::format::R32Uint>(memory::CL_R, memory::CL_UNSIGNED_INT32, 4);
    check::<claspr::format::R32Sint>(memory::CL_R, memory::CL_SIGNED_INT32, 4);
    check::<claspr::format::R16Float>(memory::CL_R, memory::CL_HALF_FLOAT, 2);
    check::<claspr::format::R8Unorm>(memory::CL_R, memory::CL_UNORM_INT8, 1);
    check::<claspr::format::R32G32Float>(memory::CL_RG, memory::CL_FLOAT, 8);
    check::<claspr::format::R32G32Uint>(memory::CL_RG, memory::CL_UNSIGNED_INT32, 8);
}

#[test]
fn images_are_created_with_their_shape() {
    let mut ec = context(Script::new());
    let a: Rgba = Image2D::create(&mut ec, 32, 16).unwrap();
    let b: Image1D<ReadOnly, claspr::format::R32Float> = Image1D::create(&mut ec, 32).unwrap();
    let c: Image3D<WriteOnly, claspr::format::R32Uint> = Image3D::create(&mut ec, 4, 5, 6).unwrap();
    let d: Image1DArray<ReadWrite, claspr::format::R32Uint> = Image1DArray::create(&mut ec, 4, 3).unwrap();
    let e: Image2DArray<ReadWrite, claspr::format::R32Uint> = Image2DArray::create(&mut ec, 4, 5, 3).unwrap();
    assert_eq!((a.width(), a.height(), a.image()), (32, 16, 100));
    assert_eq!((b.width(), b.image()), (32, 101));
    assert_eq!((c.width(), c.height(), c.depth(), c.pixel_count()), (4, 5, 6, 120));
    assert_eq!((d.width(), d.array_size(), d.pixel_count()), (4, 3, 12));
    assert_eq!((e.width(), e.height(), e.array_size(), e.pixel_count()), (4, 5, 3, 60));
    assert_eq!(a.enqueue_region(), Extent { x: 32, y: 16, z: 1 });
    assert_eq!(b.enqueue_region(), Extent { x: 32, y: 1, z: 1 });
    assert_eq!(c.enqueue_region(), Extent { x: 4, y: 5, z: 6 });
    assert_eq!(d.enqueue_region(), Extent { x: 4, y: 3, z: 1 });
    assert_eq!(e.enqueue_region(), Extent { x: 4, y: 5, z: 3 });
    assert_eq!(a.to_obj().bytes, 32 * 16 * 4);
    let (_, s) = ec.into_parts();
    let desc = |i: usize| match s.log[i].0 {
        Command::CreateImage { desc } => desc,
        _ => unreachable!(),
    };
    assert_eq!(
        desc(0),
        ImageDesc {
            image_type: memory::CL_MEM_OBJECT_IMAGE2D,
            width: 32,
            height: 16,
            depth: 1,
            array_size: 0,
            buffer: 0,
            channel_order: memory::CL_RGBA,
            channel_type: memory::CL_UNSIGNED_INT8,
            flags: memory::CL_MEM_READ_WRITE as u64,
        }
    );
    assert_eq!(desc(1).image_type, memory::CL_MEM_OBJECT_IMAGE1D);
    assert_eq!(desc(1).flags, memory::CL_MEM_READ_ONLY as u64);
    assert_eq!((desc(1).height, desc(1).depth), (1, 1));
    assert_eq!((desc(2).image_type, desc(2).depth), (memory::CL_MEM_OBJECT_IMAGE3D, 6));
    assert_eq!((desc(3).image_type, desc(3).array_size), (memory::CL_MEM_OBJECT_IMAGE1D_ARRAY, 3));
    assert_eq!((desc(4).image_type, desc(4).array_size), (memory::CL_MEM_OBJECT_IMAGE2D_ARRAY, 3));
}

#[test]
fn a_refused_image_is_an_error() {
    let mut ec = context(Script::with(vec![Err(-10)]));
    let r: Result<Rgba, Error> = Image2D::create(&mut ec, 1, 1);
    assert!(matches!(r, Err(Error::OpenCl(-10))));
}

#[test]
fn reads_need_a_slice_of_the_right_length() {
    let mut ec = context(Script::new());
    let mut st = Store::new();
    let a: Rgba = Image2D::create(&mut ec, 4, 2).unwrap();
    assert!(matches!(
        a.read(&mut st, pixels(7, 28)),
        Err(Error::LengthMismatch { src: 8, dst: 7 })
    ));
    let a: Rgba = Image2D::create(&mut ec, 4, 2).unwrap();
    assert!(matches!(
        a.read_bytes(&mut st, pixels(8, 8)),
        Err(Error::LengthMismatch { src: 32, dst: 8 })
    ));
    let a: Rgba = Image2D::create(&mut ec, 4, 2).unwrap();
    let r = a.read(&mut st, pixels(8, 32)).unwrap();
    assert_eq!(r.region, Extent { x: 4, y: 2, z: 1 });
    let mut ec = ExecutionContext::new(st, Script::new(), 9, 1, 20, vec![20], false, true);
    let v = r.wait(&mut ec).unwrap();
    assert_eq!(v[0].class, Class::Image);
    let (_, d) = ec.into_parts();
    assert_eq!(
        d.log[0].0,
        Command::ReadImage {
            mem: MemRef::Buffer(102),
            region: Extent { x: 4, y: 2, z: 1 },
            dst: 50,
            blocking: true,
        }
    );
}

#[test]
fn images_are_written_filled_and_copied() {
    let mut ec = context(Script::new());
    let mut st = Store::new();
    let a: Image1D<ReadWrite, claspr::format::R32Uint> = Image1D::create(&mut ec, 8).unwrap();
    let w = a.write(&mut st, pixels(8, 32));
    let b: Image1D<ReadWrite, claspr::format::R32Uint> = Image1D::create(&mut ec, 8).unwrap();
    let f = b.fill(&mut st, pixels(4, 16));
    let c: Image1D<ReadWrite, claspr::format::R32Uint> = Image1D::create(&mut ec, 8).unwrap();
    let d: Image1D<ReadOnly, claspr::format::R32Uint> = Image1D::create(&mut ec, 8).unwrap();
    let cp = c.copy_to(&mut st, d);
    let mut ec = ExecutionContext::new(st, Script::new(), 9, 1, 20, vec![20], false, true);
    assert!(w.submit(&mut ec).is_ok());
    assert_eq!(f.wait(&mut ec).unwrap()[0].id, 101);
    let both = cp.wait(&mut ec).unwrap();
    assert_eq!((both[0].id, both[1].id), (102, 103));
    let (_, s) = ec.into_parts();
    let all: Vec<Command> = s.log.iter().map(|x| x.0).collect();
    let region = Extent { x: 8, y: 1, z: 1 };
    assert!(all.contains(&Command::WriteImage {
        mem: MemRef::Buffer(100),
        region,
        src: pixels(8, 32),
        blocking: false,
    }));
    assert!(all.contains(&Command::FillImage {
        mem: MemRef::Buffer(101),
        region,
        pattern: pixels(4, 16),
    }));
    assert!(all.contains(&Command::CopyImage {
        src: MemRef::Buffer(102),
        dst: MemRef::Buffer(103),
        region,
    }));
}

#[test]
fn piped_copies_take_the_extent_of_their_source() {
    let mut ec = context(Script::new());
    let mut st = Store::new();
    let a: Rgba = Image2D::create(&mut ec, 3, 2).unwrap();
    let b: Rgba = Image2D::create(&mut ec, 3, 2).unwrap();
    let p = st.pipe();
    st.put_home(&p, vec![a.to_obj()], vec![5], None);
    let c = eager_image_copy(&mut st, p, b.to_obj());
    assert_eq!(c.region, None);
    let op = DeviceOp::Leaf(LeafOp::ImageCopy(c));
    let mut ec = ExecutionContext::new(st, Script::new(), 9, 1, 20, vec![20], false, true);
    let g = op.gather_checkouts(&mut ec, ExecMode::Pipelined).unwrap();
    assert_eq!(g.outs.len(), 2);
    let (_, d) = ec.into_parts();
    assert_eq!(
        d.log[0],
        (
            Command::CopyImage {
                src: MemRef::Buffer(100),
                dst: MemRef::Buffer(101),
                region: Extent { x: 3, y: 2, z: 1 },
            },
            vec![5],
        )
    );
    let piped = c.wait(&mut context(Script::new()));
    assert!(matches!(piped, Err(Error::NotSupported(t)) if t.contains("pipe-fed image op")));
}

#[test]
fn uploads_and_downloads_move_whole_images() {
    let mut st = Store::new();
    let u = image_upload::<Rgba>(&mut st, pixels(8, 32), (4, 2));
    let d = image_download(&mut st, u.out);
    let (up, down) = (
        DeviceOp::Leaf(LeafOp::ImageUploadEager(u)),
        DeviceOp::Leaf(LeafOp::ImageDownloadEager(d)),
    );
    let mut ec = ExecutionContext::new(st, Script::new(), 9, 1, 20, vec![20], false, true);
    assert!(up.execute(&mut ec, ExecMode::Blocking).is_ok());
    let p = down.collect(&mut ec, ExecMode::Blocking).unwrap();
    assert_eq!((p.value[0].class, p.value[0].len, p.value[0].id), (Class::Host, 8, 102));
    assert_eq!(p.deps, vec![103]);
    let (_, s) = ec.into_parts();
    assert_eq!(s.log[3].1, vec![101]);
}

#[test]
fn fresh_reads_allocate_and_block() {
    let mut ec = context(Script::new());
    let a: Rgba = Image2D::create(&mut ec, 4, 2).unwrap();
    assert_eq!(a.read_alloc().wait(&mut ec).unwrap(), 101);
    assert_eq!(a.read_bytes_alloc().wait_on(&mut ec).unwrap(), 103);
    let (_, d) = ec.into_parts();
    assert_eq!(d.log[1].0, Command::HostAlloc { len: 8, bytes: 32 });
    assert_eq!(d.log[3].0, Command::HostAlloc { len: 32, bytes: 32 });
    let mut ec = context(Script::with(vec![Ok(1), Ok(2), Err(-5)]));
    let a: Rgba = Image2D::create(&mut ec, 4, 2).unwrap();
    assert!(matches!(a.read_alloc().wait(&mut ec), Err(Error::OpenCl(-5))));
}

#[test]
fn buffer_images_share_storage() {
    let mut ec = context(Script::new());
    let b: Image1DBuffer<ReadWrite, claspr::format::R32G32Float> = Image1DBuffer::create(&mut ec, 10).unwrap();
    assert_eq!((b.width(), b.image()), (10, 101));
    let s: DeviceSlice<ReadOnly> = DeviceSlice { mem: 7, len: 12, byte_len: 48, mode: PhantomData };
    let v: Image1DBufferView<ReadOnly, claspr::format::R32G32B32A32Float> =
        Image1DBufferView::view_of(&mut ec, &s).unwrap();
    assert_eq!((v.width(), v.image()), (3, 102));
    let odd: DeviceSlice<ReadOnly> = DeviceSlice { mem: 7, len: 5, byte_len: 20, mode: PhantomData };
    let r: Result<Image1DBufferView<ReadOnly, claspr::format::R32G32B32A32Float>, Error> =
        Image1DBufferView::view_of(&mut ec, &odd);
    assert!(matches!(r, Err(Error::InvalidArgument(_))));
    let (_, d) = ec.into_parts();
    assert_eq!(
        d.log[0].0,
        Command::Alloc { class: Class::DeviceUninit, len: 80, bytes: 80, flags: 1, contents: Contents::Unwritten }
    );
    let Command::CreateImage { desc } = d.log[1].0 else { panic!("image") };
    assert_eq!((desc.buffer, desc.width, desc.height), (100, 10, 0));
    let Command::CreateImage { desc } = d.log[2].0 else { panic!("image") };
    assert_eq!((desc.buffer, desc.width), (7, 3));
    assert_eq!(desc.flags, memory::CL_MEM_READ_ONLY as u64);
    assert_eq!(d.log.len(), 3);
}

#[test]
fn images_stand_as_kernel_arguments() {
    fn reads<I: KernelImage2DReadArg<Uint>>(_: &I) {}
    fn writes<I: KernelImage2DWriteArg<Uint>>(_: &I) {}
    let mut ec = context(Script::new());
    let mut st = Store::new();
    let a: Rgba = Image2D::create(&mut ec, 4, 2).unwrap();
    reads(&a);
    writes(&a);
    let o = a.to_obj();
    let i = a.to_input_image(&mut st);
    let Input::Concrete(c) = i else { panic!("concrete") };
    assert_eq!(st.held(c), Some(o));
    let j = Checkout::new(vec![o], None).to_input_image(&mut st);
    assert!(matches!(j, Input::Concrete(_)));
}
