use claspr::access::ReadWrite;
use claspr::cb::new_cb_cache;
use claspr::copies::eager_copy_to;
use claspr::error::Error;
use claspr::exec_ctx::{Driver, ExecMode, ExecutionContext};
use claspr::graph::{AndThen, DeviceOp};
use claspr::image::{image_upload, Image2D};
use claspr::image_ops::image_download;
use claspr::leaf_op::LeafOp;
use claspr::leaves::{download, fill, fill_usm_uninit};
use claspr::obj::{Class, Command, Contents, Extent, HostRef, MemRef, Obj, Reply};
use claspr::seeds::{alloc_zero, upload, usm_slice};
use claspr::store::Store;
use claspr::terminals::{sync, wait_for};
use std::collections::HashMap;

/// A driver with memory: host data and device memory are byte vectors.
struct Machine {
    next: u64,
    host: HashMap<u64, Vec<u8>>,
    buffers: HashMap<u64, Vec<u8>>,
    svm: HashMap<u64, Vec<u8>>,
    log: Vec<(Command, Vec<u64>)>,
}

impl Machine {
    fn new() -> Machine {
        Machine { next: 100, host: HashMap::new(), buffers: HashMap::new(), svm: HashMap::new(), log: Vec::new() }
    }

    fn with_host(mut self, id: u64, data: &[u8]) -> Machine {
        self.host.insert(id, data.to_vec());
        self
    }

    fn with_buffer(mut self, id: u64, bytes: usize) -> Machine {
        self.buffers.insert(id, vec![0xee; bytes]);
        self
    }

    fn memory(&mut self, m: MemRef) -> &mut Vec<u8> {
        match m {
            MemRef::Buffer(id) => self.buffers.entry(id).or_default(),
            MemRef::Svm(id) => self.svm.entry(id).or_default(),
        }
    }

    fn put(&mut self, m: MemRef, src: HostRef) {
        let data = self.host[&src.id].clone();
        let to = self.memory(m);
        let n = data.len().min(to.len());
        to[..n].copy_from_slice(&data[..n]);
    }

    fn get(&mut self, m: MemRef, dst: u64) {
        let data = self.memory(m).clone();
        let to = self.host.get_mut(&dst).unwrap();
        let n = data.len().min(to.len());
        to[..n].copy_from_slice(&data[..n]);
    }
}

impl Driver for Machine {
    fn issue(&mut self, _queue: u64, command: Command, waits: &Vec<u64>) -> Reply {
        self.log.push((command, waits.clone()));
        self.next += 1;
        let h = self.next - 1;
        match command {
            Command::Alloc { class, bytes, contents, .. } => {
                let data = match contents {
                    Contents::From(src) => self.host[&src.id].clone(),
                    Contents::Zero => vec![0; bytes],
                    Contents::Unwritten => vec![0xee; bytes],
                };
                match class {
                    Class::Usm | Class::UsmUninit | Class::Mapped | Class::MappedUninit => self.svm.insert(h, data),
                    _ => self.buffers.insert(h, data),
                };
            }
            Command::HostAlloc { bytes, .. } => {
                self.host.insert(h, vec![0; bytes]);
            }
            Command::CreateImage { desc } => {
                self.buffers.insert(h, vec![0xee; desc.width * desc.height * 4]);
            }
            Command::Write { mem, src, .. } | Command::HostWrite { mem, src } => self.put(mem, src),
            Command::WriteImage { mem, src, .. } => self.put(mem, src),
            Command::Read { mem, dst, .. } | Command::ReadImage { mem, dst, .. } => self.get(mem, dst),
            Command::Copy { src, dst, .. } | Command::CopyImage { src, dst, .. } => {
                let data = self.memory(src).clone();
                *self.memory(dst) = data;
            }
            Command::Fill { mem, pattern, .. }
            | Command::HostFill { mem, pattern, .. }
            | Command::FillImage { mem, pattern, .. } => {
                let data = self.host[&pattern.id].clone();
                for (k, b) in self.memory(mem).iter_mut().enumerate() {
                    *b = data[k % data.len()];
                }
            }
            _ => {}
        }
        Ok(h)
    }

    fn take_host_error(&mut self) -> Option<Error> {
        None
    }
}

fn context(st: Store, d: Machine) -> ExecutionContext<Machine> {
    ExecutionContext::new(st, d, 9, 1, 20, vec![20], false, true)
}

fn device(id: u64) -> Obj {
    Obj {
        class: Class::Device,
        id,
        ctx: 9,
        extent: Extent { x: 2, y: 1, z: 1 },
        len: 2,
        bytes: 8,
        shared: false,
    }
}

#[test]
fn a_download_gives_back_what_was_written() {
    let data = [1, 2, 3, 4, 5, 6, 7, 8];
    let mut st = Store::new();
    let w = claspr::leaves::write(&mut st, device(7), HostRef { id: 51, len: 2, bytes: 8 });
    let mut ec = context(st, Machine::new().with_host(51, &data).with_buffer(7, 8));
    let written = w.wait(&mut ec).unwrap();
    assert_eq!(written, vec![device(7)]);
    let d = download(ec.store_mut(), written[0]);
    let got = d.wait(&mut ec).unwrap();
    assert_eq!((got[0].class, got[0].len, got[0].bytes), (Class::Host, 2, 8));
    let (_, d) = ec.into_parts();
    assert_eq!(d.host[&got[0].id], data.to_vec());
}

#[test]
fn an_image_download_gives_back_the_uploaded_pixels() {
    let pixels: Vec<u8> = (0..32).collect();
    let mut st = Store::new();
    let up = image_upload::<Image2D<ReadWrite, claspr::format::R8G8B8A8Uint>>(
        &mut st,
        HostRef { id: 51, len: 8, bytes: 32 },
        (4, 2),
    );
    let down = image_download(&mut st, up.out);
    let all = AndThen::new(
        &mut st,
        DeviceOp::Leaf(LeafOp::ImageUploadEager(up)),
        DeviceOp::Leaf(LeafOp::ImageDownloadEager(down)),
    );
    let op = DeviceOp::AndThen(Box::new(all));
    let mut ec = context(st, Machine::new().with_host(51, &pixels));
    let got = wait_for(&op, &mut ec).unwrap();
    assert_eq!((got.len(), got[0].len, got[0].bytes), (1, 8, 32));
    let (_, d) = ec.into_parts();
    assert_eq!(d.host[&got[0].id], pixels);
    assert!(matches!(d.log[3].0, Command::ReadImage { .. }));
    assert_eq!(d.log[3].1, vec![101]);
}

#[test]
fn an_image_counts_its_own_pixels() {
    let mut st = Store::new();
    let up = image_upload::<Image2D<ReadWrite, claspr::format::R8G8B8A8Uint>>(
        &mut st,
        HostRef { id: 51, len: 9, bytes: 36 },
        (4, 2),
    );
    let op = DeviceOp::Leaf(LeafOp::ImageUploadEager(up));
    let mut ec = context(st, Machine::new().with_host(51, &[3; 36]));
    let p = op.collect(&mut ec, ExecMode::Pipelined).unwrap();
    assert_eq!((p.value[0].len, p.value[0].bytes), (8, 32));
}

#[test]
fn shared_slices_start_from_their_data_in_every_run() {
    let data = [9, 8, 7, 6];
    let mut st = Store::new();
    let u = usm_slice(&mut st, HostRef { id: 51, len: 1, bytes: 4 });
    let out = u.seed.out;
    let op = DeviceOp::Leaf(LeafOp::UsmSlice(u));
    let mut ec = context(st, Machine::new().with_host(51, &data));
    let mut seen = Vec::new();
    for _ in 0..4 {
        assert!(op.execute(&mut ec, ExecMode::Pipelined).is_ok());
        let p = ec.take_home(&out).unwrap();
        assert!(p.deps.is_empty());
        seen.push(p.value[0]);
        let (st, mut d) = ec.into_parts();
        assert_eq!(d.svm[&p.value[0].id], data.to_vec());
        d.svm.insert(p.value[0].id, vec![0; 4]);
        ec = context(st, d);
        ec.rehome(p.home, &p.value);
    }
    assert!(seen.iter().all(|o| *o == seen[0]));
}

#[test]
fn a_first_upload_holds_its_data() {
    let mut st = Store::new();
    let u = upload(&mut st, HostRef { id: 51, len: 1, bytes: 4 });
    let op = DeviceOp::Leaf(LeafOp::Upload(u));
    let mut ec = context(st, Machine::new().with_host(51, &[4, 3, 2, 1]));
    let outs = sync(&op, &mut ec).unwrap();
    let o = outs[0].value[0];
    assert_eq!((o.class, o.len, o.bytes), (Class::Device, 1, 4));
    let (_, d) = ec.into_parts();
    assert_eq!(d.buffers[&o.id], vec![4, 3, 2, 1]);
}

#[test]
fn every_run_of_zeros_is_new_memory() {
    let mut st = Store::new();
    let z = alloc_zero(&mut st, 3, 2);
    let op = DeviceOp::Leaf(LeafOp::AllocZero(z));
    let mut ec = context(st, Machine::new());
    let a = wait_for(&op, &mut ec).unwrap()[0];
    let b = wait_for(&op, &mut ec).unwrap()[0];
    assert_ne!(a.id, b.id);
    let (_, d) = ec.into_parts();
    assert_eq!((d.buffers[&a.id].clone(), d.buffers[&b.id].clone()), (vec![0; 6], vec![0; 6]));
}

#[test]
fn new_caches_are_empty_and_apart() {
    let mut st = Store::new();
    let a = new_cb_cache(&mut st);
    let b = new_cb_cache(&mut st);
    assert_ne!(a, b);
    assert!(st.cached(a).is_none());
    assert!(st.cached(b).is_none());
}

#[test]
fn a_copy_leaves_the_data_in_both_places() {
    let data = [1, 2, 3, 4, 5, 6, 7, 8];
    let mut st = Store::new();
    let c = eager_copy_to(&mut st, device(7), device(8));
    let w = claspr::leaves::write(&mut st, device(7), HostRef { id: 51, len: 2, bytes: 8 });
    let machine = Machine::new().with_host(51, &data).with_buffer(7, 8).with_buffer(8, 8);
    let mut ec = context(st, machine);
    assert!(w.wait(&mut ec).is_ok());
    let both = wait_for(&DeviceOp::Leaf(LeafOp::CopyTo2(c)), &mut ec).unwrap();
    assert_eq!(both, vec![device(7), device(8)]);
    let (_, d) = ec.into_parts();
    assert_eq!((d.buffers[&7].clone(), d.buffers[&8].clone()), (data.to_vec(), data.to_vec()));
}

#[test]
fn a_fill_repeats_its_pattern_to_the_last_byte() {
    let pattern = HostRef { id: 51, len: 1, bytes: 4 };
    let mut st = Store::new();
    let f = fill(&mut st, device(7), pattern);
    let shared = Obj { class: Class::UsmUninit, ..device(6) };
    let g = fill_usm_uninit(&mut st, shared, pattern);
    let mut machine = Machine::new().with_host(51, &[9, 8, 7, 6]).with_buffer(7, 8);
    machine.svm.insert(6, vec![0; 8]);
    let mut ec = context(st, machine);
    assert!(wait_for(&DeviceOp::Leaf(LeafOp::Fill(f)), &mut ec).is_ok());
    assert!(wait_for(&DeviceOp::Leaf(LeafOp::FillUsmUninit(g)), &mut ec).is_ok());
    let (_, d) = ec.into_parts();
    let full = vec![9, 8, 7, 6, 9, 8, 7, 6];
    assert_eq!((d.buffers[&7].clone(), d.svm[&6].clone()), (full.clone(), full));
}
