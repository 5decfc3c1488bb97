//! The leaf ops on buffers: fills, writes, reads, views and transfers.

use crate::cb::{new_cb_cache, CbCache};
use crate::error::{Error, OpResult};
use crate::exec_ctx::{kept, Driver, ExecMode, ExecutionContext, Walk};
use crate::input::{after_taking, found, not_single_error, readiness, Input, ToInput};
use crate::leaf::{leaf_after, no_deps, run_leaf, single_dep, single_obj, Leaf, Style, Work};
use crate::obj::{Class, Command, Extent, HostRef, Obj, Reply};
use crate::store::{Parcel, Pipe, Store, World};
use vstd::prelude::*;

verus! {

broadcast use crate::store::group_fresh_ids;

/// An op without ops inside it.
pub trait LeafNode {
    /// The pipes that it fills.
    spec fn outs(&self) -> Seq<Pipe>;

    /// Its name.
    spec fn label(&self) -> Seq<char>;

    /// Whether a run can start it.
    spec fn ready(&self, w: World) -> OpResult<()>;

    /// How many devices the context must have.
    open spec fn devices_needed(&self) -> nat {
        0
    }

    /// What one run of it may do.
    spec fn runs(&self, pre: Walk, post: Walk, mode: ExecMode, res: OpResult<()>) -> bool;

    fn pipes(&self) -> (r: Vec<Pipe>)
        ensures
            r@ == self.outs(),
    ;

    fn describe(&self) -> (r: String)
        ensures
            r@ == self.label(),
    ;

    fn check_ready(&self, st: &Store) -> (r: OpResult<()>)
        ensures
            r == self.ready(st@),
    ;

    fn execute<D: Driver>(&self, ec: &mut ExecutionContext<D>, mode: ExecMode) -> (r: OpResult<()>)
        requires
            self.devices_needed() <= old(ec)@.devices.len(),
        ensures
            self.runs(old(ec)@, final(ec)@, mode, r),
            kept(old(ec)@, final(ec)@),
    ;
}

/// A list of one pipe.
pub fn one_pipe(p: Pipe) -> (r: Vec<Pipe>)
    ensures
        r@ == seq![p],
{
    let mut v: Vec<Pipe> = Vec::new();
    v.push(p);
    assert(v@ =~= seq![p]);
    v
}

/// A list of two pipes.
pub fn two_pipes(p: Pipe, q: Pipe) -> (r: Vec<Pipe>)
    ensures
        r@ == seq![p, q],
{
    let mut v: Vec<Pipe> = Vec::new();
    v.push(p);
    v.push(q);
    assert(v@ =~= seq![p, q]);
    v
}

/// The name of an op as text.
pub fn text_of(s: &str) -> (r: String)
    ensures
        r@ == s@,
{
    s.to_owned()
}

/// The context of the buffer that an op owns, or a refusal for an op fed by a
/// pipe or a slot.
pub open spec fn buf_ctx(w: World, input: Input) -> OpResult<u64> {
    match input {
        Input::Concrete(c) if w.held(c) is Some => Ok(w.held(c)->Some_0.ctx),
        _ => Err(
            Error::NotSupported(
                "concrete-head terminal (wait/submit) on a pipe-fed buffer op — use wait_on(&ctx) / sync(&ctx) for piped (graph) inputs",
            ),
        ),
    }
}

/// The context of the buffer that an op owns.
pub fn concrete_buf_ctx(st: &Store, buf: &Input) -> (r: OpResult<u64>)
    ensures
        r == buf_ctx(st@, *buf),
{
    match buf.concrete_obj(st) {
        Some(o) => Ok(o.ctx),
        None => Err(
            Error::NotSupported(
                "concrete-head terminal (wait/submit) on a pipe-fed buffer op — use wait_on(&ctx) / sync(&ctx) for piped (graph) inputs",
            ),
        ),
    }
}

/// The context of the shared memory that an op owns, or a refusal for an op fed
/// by a pipe or a slot.
pub open spec fn svm_ctx(w: World, input: Input) -> OpResult<u64> {
    match input {
        Input::Concrete(c) if w.held(c) is Some => Ok(w.held(c)->Some_0.ctx),
        _ => Err(
            Error::NotSupported(
                "concrete-head terminal (wait/submit) on a pipe-fed SVM op — use wait_on(&ctx) / sync(&ctx) for piped (graph) inputs",
            ),
        ),
    }
}

/// The context of the shared memory that an op owns.
pub fn concrete_svm_ctx(st: &Store, buf: &Input) -> (r: OpResult<u64>)
    ensures
        r == svm_ctx(st@, *buf),
{
    match buf.concrete_obj(st) {
        Some(o) => Ok(o.ctx),
        None => Err(
            Error::NotSupported(
                "concrete-head terminal (wait/submit) on a pipe-fed SVM op — use wait_on(&ctx) / sync(&ctx) for piped (graph) inputs",
            ),
        ),
    }
}

/// Fill a device buffer with a value.
#[derive(Clone, Copy, Debug)]
pub struct Fill {
    pub buf: Input,
    pub value: HostRef,
    pub out: Pipe,
    pub cb_cache: CbCache,
}

/// Fill a device buffer with `value`.
pub fn fill<B: ToInput>(st: &mut Store, buf: B, value: HostRef) -> (r: Fill)
    requires
        old(st)@.next + 3 <= u64::MAX,
    ensures
        r.buf == buf.input_spec(old(st)@).0,
        r.value == value,
        r.out.cell == buf.input_spec(old(st)@).1.next,
        r.cb_cache == buf.input_spec(old(st)@).1.next + 1,
        final(st)@ == buf.input_spec(old(st)@).1.fresh_ids(2nat),
{
    let buf = buf.to_input(st);
    let out = st.pipe();
    let cb_cache = new_cb_cache(st);
    Fill { buf, value, out, cb_cache }
}

impl Fill {
    /// The shape of the op.
    pub open spec fn leaf(&self) -> Leaf {
        Leaf {
            input: self.buf,
            out: self.out,
            work: Work::Fill(self.value),
            style: Style::WaitAfter,
            keep_home: true,
            traced: true,
        }
    }

    fn shape(&self) -> (r: Leaf)
        ensures
            r == self.leaf(),
    {
        Leaf {
            input: self.buf,
            out: self.out,
            work: Work::Fill(self.value),
            style: Style::WaitAfter,
            keep_home: true,
            traced: true,
        }
    }
}

impl LeafNode for Fill {
    open spec fn outs(&self) -> Seq<Pipe> {
        seq![self.out]
    }

    open spec fn label(&self) -> Seq<char> {
        "fill"@
    }

    open spec fn ready(&self, w: World) -> OpResult<()> {
        readiness(w, self.buf)
    }

    open spec fn runs(&self, pre: Walk, post: Walk, mode: ExecMode, res: OpResult<()>) -> bool {
        exists|r1: Reply, r2: Reply|
            (#[trigger] leaf_after(self.leaf(), pre, mode, r1, r2)) == (post, res)
    }

    fn pipes(&self) -> (r: Vec<Pipe>) {
        one_pipe(self.out)
    }

    fn describe(&self) -> (r: String) {
        text_of("fill")
    }

    fn check_ready(&self, st: &Store) -> (r: OpResult<()>) {
        self.buf.check_ready(st)
    }

    fn execute<D: Driver>(&self, ec: &mut ExecutionContext<D>, mode: ExecMode) -> (r: OpResult<()>) {
        run_leaf(ec, &self.shape(), mode)
    }
}

/// Fill unwritten device memory with a value.
#[derive(Clone, Copy, Debug)]
pub struct FillDeviceUninit {
    pub uninit: Input,
    pub value: HostRef,
    pub out: Pipe,
    pub cb_cache: CbCache,
}

/// Fill unwritten device memory with `value`.
pub fn fill_device_uninit<B: ToInput>(st: &mut Store, buf: B, value: HostRef) -> (r: FillDeviceUninit)
    requires
        old(st)@.next + 3 <= u64::MAX,
    ensures
        r.uninit == buf.input_spec(old(st)@).0,
        r.value == value,
        r.out.cell == buf.input_spec(old(st)@).1.next,
        r.cb_cache == buf.input_spec(old(st)@).1.next + 1,
        final(st)@ == buf.input_spec(old(st)@).1.fresh_ids(2nat),
{
    let uninit = buf.to_input(st);
    let out = st.pipe();
    let cb_cache = new_cb_cache(st);
    FillDeviceUninit { uninit, value, out, cb_cache }
}

impl FillDeviceUninit {
    /// The shape of the op.
    pub open spec fn leaf(&self) -> Leaf {
        Leaf {
            input: self.uninit,
            out: self.out,
            work: Work::Fill(self.value),
            style: Style::WaitAfter,
            keep_home: false,
            traced: false,
        }
    }

    fn shape(&self) -> (r: Leaf)
        ensures
            r == self.leaf(),
    {
        Leaf {
            input: self.uninit,
            out: self.out,
            work: Work::Fill(self.value),
            style: Style::WaitAfter,
            keep_home: false,
            traced: false,
        }
    }
}

impl LeafNode for FillDeviceUninit {
    open spec fn outs(&self) -> Seq<Pipe> {
        seq![self.out]
    }

    open spec fn label(&self) -> Seq<char> {
        "fill_device_uninit"@
    }

    open spec fn ready(&self, w: World) -> OpResult<()> {
        readiness(w, self.uninit)
    }

    open spec fn runs(&self, pre: Walk, post: Walk, mode: ExecMode, res: OpResult<()>) -> bool {
        exists|r1: Reply, r2: Reply|
            (#[trigger] leaf_after(self.leaf(), pre, mode, r1, r2)) == (post, res)
    }

    fn pipes(&self) -> (r: Vec<Pipe>) {
        one_pipe(self.out)
    }

    fn describe(&self) -> (r: String) {
        text_of("fill_device_uninit")
    }

    fn check_ready(&self, st: &Store) -> (r: OpResult<()>) {
        self.uninit.check_ready(st)
    }

    fn execute<D: Driver>(&self, ec: &mut ExecutionContext<D>, mode: ExecMode) -> (r: OpResult<()>) {
        run_leaf(ec, &self.shape(), mode)
    }
}

/// Fill unwritten mapped memory with a value.
#[derive(Clone, Copy, Debug)]
pub struct FillMappedUninit {
    pub uninit: Input,
    pub value: HostRef,
    pub out: Pipe,
    pub cb_cache: CbCache,
}

/// Fill unwritten mapped memory with `value`.
pub fn fill_mapped_uninit<B: ToInput>(st: &mut Store, buf: B, value: HostRef) -> (r: FillMappedUninit)
    requires
        old(st)@.next + 3 <= u64::MAX,
    ensures
        r.uninit == buf.input_spec(old(st)@).0,
        r.value == value,
        r.out.cell == buf.input_spec(old(st)@).1.next,
        r.cb_cache == buf.input_spec(old(st)@).1.next + 1,
        final(st)@ == buf.input_spec(old(st)@).1.fresh_ids(2nat),
{
    let uninit = buf.to_input(st);
    let out = st.pipe();
    let cb_cache = new_cb_cache(st);
    FillMappedUninit { uninit, value, out, cb_cache }
}

impl FillMappedUninit {
    /// The shape of the op.
    pub open spec fn leaf(&self) -> Leaf {
        Leaf {
            input: self.uninit,
            out: self.out,
            work: Work::Fill(self.value),
            style: Style::WaitAfter,
            keep_home: false,
            traced: false,
        }
    }

    fn shape(&self) -> (r: Leaf)
        ensures
            r == self.leaf(),
    {
        Leaf {
            input: self.uninit,
            out: self.out,
            work: Work::Fill(self.value),
            style: Style::WaitAfter,
            keep_home: false,
            traced: false,
        }
    }
}

impl LeafNode for FillMappedUninit {
    open spec fn outs(&self) -> Seq<Pipe> {
        seq![self.out]
    }

    open spec fn label(&self) -> Seq<char> {
        "fill_mapped_uninit"@
    }

    open spec fn ready(&self, w: World) -> OpResult<()> {
        readiness(w, self.uninit)
    }

    open spec fn runs(&self, pre: Walk, post: Walk, mode: ExecMode, res: OpResult<()>) -> bool {
        exists|r1: Reply, r2: Reply|
            (#[trigger] leaf_after(self.leaf(), pre, mode, r1, r2)) == (post, res)
    }

    fn pipes(&self) -> (r: Vec<Pipe>) {
        one_pipe(self.out)
    }

    fn describe(&self) -> (r: String) {
        text_of("fill_mapped_uninit")
    }

    fn check_ready(&self, st: &Store) -> (r: OpResult<()>) {
        self.uninit.check_ready(st)
    }

    fn execute<D: Driver>(&self, ec: &mut ExecutionContext<D>, mode: ExecMode) -> (r: OpResult<()>) {
        run_leaf(ec, &self.shape(), mode)
    }
}

/// Fill unwritten shared memory with a value, from the host.
#[derive(Clone, Copy, Debug)]
pub struct FillUsmUninit {
    pub uninit: Input,
    pub value: HostRef,
    pub out: Pipe,
}

/// Fill unwritten shared memory with `value`, from the host.
pub fn fill_usm_uninit<B: ToInput>(st: &mut Store, buf: B, value: HostRef) -> (r: FillUsmUninit)
    requires
        old(st)@.next + 2 <= u64::MAX,
    ensures
        r.uninit == buf.input_spec(old(st)@).0,
        r.value == value,
        r.out.cell == buf.input_spec(old(st)@).1.next,
        final(st)@ == buf.input_spec(old(st)@).1.fresh_ids(1nat),
{
    let uninit = buf.to_input(st);
    let out = st.pipe();
    FillUsmUninit { uninit, value, out }
}

impl FillUsmUninit {
    /// The shape of the op.
    pub open spec fn leaf(&self) -> Leaf {
        Leaf {
            input: self.uninit,
            out: self.out,
            work: Work::HostFill(self.value),
            style: Style::Host,
            keep_home: false,
            traced: false,
        }
    }

    fn shape(&self) -> (r: Leaf)
        ensures
            r == self.leaf(),
    {
        Leaf {
            input: self.uninit,
            out: self.out,
            work: Work::HostFill(self.value),
            style: Style::Host,
            keep_home: false,
            traced: false,
        }
    }
}

impl LeafNode for FillUsmUninit {
    open spec fn outs(&self) -> Seq<Pipe> {
        seq![self.out]
    }

    open spec fn label(&self) -> Seq<char> {
        "fill_usm_uninit"@
    }

    open spec fn ready(&self, w: World) -> OpResult<()> {
        readiness(w, self.uninit)
    }

    open spec fn runs(&self, pre: Walk, post: Walk, mode: ExecMode, res: OpResult<()>) -> bool {
        exists|r1: Reply, r2: Reply|
            (#[trigger] leaf_after(self.leaf(), pre, mode, r1, r2)) == (post, res)
    }

    fn pipes(&self) -> (r: Vec<Pipe>) {
        one_pipe(self.out)
    }

    fn describe(&self) -> (r: String) {
        text_of("fill_usm_uninit")
    }

    fn check_ready(&self, st: &Store) -> (r: OpResult<()>) {
        self.uninit.check_ready(st)
    }

    fn execute<D: Driver>(&self, ec: &mut ExecutionContext<D>, mode: ExecMode) -> (r: OpResult<()>) {
        run_leaf(ec, &self.shape(), mode)
    }
}

/// Fill mapped memory with a value.
#[derive(Clone, Copy, Debug)]
pub struct FillMapped {
    pub buf: Input,
    pub value: HostRef,
    pub out: Pipe,
    pub cb_cache: CbCache,
}

/// Fill mapped memory with `value`.
pub fn fill_mapped<B: ToInput>(st: &mut Store, buf: B, value: HostRef) -> (r: FillMapped)
    requires
        old(st)@.next + 3 <= u64::MAX,
    ensures
        r.buf == buf.input_spec(old(st)@).0,
        r.value == value,
        r.out.cell == buf.input_spec(old(st)@).1.next,
        r.cb_cache == buf.input_spec(old(st)@).1.next + 1,
        final(st)@ == buf.input_spec(old(st)@).1.fresh_ids(2nat),
{
    let buf = buf.to_input(st);
    let out = st.pipe();
    let cb_cache = new_cb_cache(st);
    FillMapped { buf, value, out, cb_cache }
}

impl FillMapped {
    /// The shape of the op.
    pub open spec fn leaf(&self) -> Leaf {
        Leaf {
            input: self.buf,
            out: self.out,
            work: Work::Fill(self.value),
            style: Style::WaitAfter,
            keep_home: true,
            traced: true,
        }
    }

    fn shape(&self) -> (r: Leaf)
        ensures
            r == self.leaf(),
    {
        Leaf {
            input: self.buf,
            out: self.out,
            work: Work::Fill(self.value),
            style: Style::WaitAfter,
            keep_home: true,
            traced: true,
        }
    }
}

impl LeafNode for FillMapped {
    open spec fn outs(&self) -> Seq<Pipe> {
        seq![self.out]
    }

    open spec fn label(&self) -> Seq<char> {
        "fill_mapped"@
    }

    open spec fn ready(&self, w: World) -> OpResult<()> {
        readiness(w, self.buf)
    }

    open spec fn runs(&self, pre: Walk, post: Walk, mode: ExecMode, res: OpResult<()>) -> bool {
        exists|r1: Reply, r2: Reply|
            (#[trigger] leaf_after(self.leaf(), pre, mode, r1, r2)) == (post, res)
    }

    fn pipes(&self) -> (r: Vec<Pipe>) {
        one_pipe(self.out)
    }

    fn describe(&self) -> (r: String) {
        text_of("fill_mapped")
    }

    fn check_ready(&self, st: &Store) -> (r: OpResult<()>) {
        self.buf.check_ready(st)
    }

    fn execute<D: Driver>(&self, ec: &mut ExecutionContext<D>, mode: ExecMode) -> (r: OpResult<()>) {
        run_leaf(ec, &self.shape(), mode)
    }
}

/// Write host data into unwritten device memory.
#[derive(Clone, Copy, Debug)]
pub struct WriteDeviceUninit {
    pub uninit: Input,
    pub src: HostRef,
    pub out: Pipe,
}

/// Write `src` into unwritten device memory.
pub fn write_device_uninit<B: ToInput>(st: &mut Store, buf: B, src: HostRef) -> (r: WriteDeviceUninit)
    requires
        old(st)@.next + 2 <= u64::MAX,
    ensures
        r.uninit == buf.input_spec(old(st)@).0,
        r.src == src,
        r.out.cell == buf.input_spec(old(st)@).1.next,
        final(st)@ == buf.input_spec(old(st)@).1.fresh_ids(1nat),
{
    let uninit = buf.to_input(st);
    let out = st.pipe();
    WriteDeviceUninit { uninit, src, out }
}

impl WriteDeviceUninit {
    /// The shape of the op.
    pub open spec fn leaf(&self) -> Leaf {
        Leaf {
            input: self.uninit,
            out: self.out,
            work: Work::Write(self.src),
            style: Style::Native,
            keep_home: false,
            traced: false,
        }
    }

    fn shape(&self) -> (r: Leaf)
        ensures
            r == self.leaf(),
    {
        Leaf {
            input: self.uninit,
            out: self.out,
            work: Work::Write(self.src),
            style: Style::Native,
            keep_home: false,
            traced: false,
        }
    }
}

impl LeafNode for WriteDeviceUninit {
    open spec fn outs(&self) -> Seq<Pipe> {
        seq![self.out]
    }

    open spec fn label(&self) -> Seq<char> {
        "write_device_uninit"@
    }

    open spec fn ready(&self, w: World) -> OpResult<()> {
        readiness(w, self.uninit)
    }

    open spec fn runs(&self, pre: Walk, post: Walk, mode: ExecMode, res: OpResult<()>) -> bool {
        exists|r1: Reply, r2: Reply|
            (#[trigger] leaf_after(self.leaf(), pre, mode, r1, r2)) == (post, res)
    }

    fn pipes(&self) -> (r: Vec<Pipe>) {
        one_pipe(self.out)
    }

    fn describe(&self) -> (r: String) {
        text_of("write_device_uninit")
    }

    fn check_ready(&self, st: &Store) -> (r: OpResult<()>) {
        self.uninit.check_ready(st)
    }

    fn execute<D: Driver>(&self, ec: &mut ExecutionContext<D>, mode: ExecMode) -> (r: OpResult<()>) {
        run_leaf(ec, &self.shape(), mode)
    }
}

/// Write host data into a device buffer.
#[derive(Clone, Copy, Debug)]
pub struct WriteDevice {
    pub buf: Input,
    pub src: HostRef,
    pub out: Pipe,
}

/// Write `src` into a device buffer.
pub fn write<B: ToInput>(st: &mut Store, buf: B, src: HostRef) -> (r: WriteDevice)
    requires
        old(st)@.next + 2 <= u64::MAX,
    ensures
        r.buf == buf.input_spec(old(st)@).0,
        r.src == src,
        r.out.cell == buf.input_spec(old(st)@).1.next,
        final(st)@ == buf.input_spec(old(st)@).1.fresh_ids(1nat),
{
    let buf = buf.to_input(st);
    let out = st.pipe();
    WriteDevice { buf, src, out }
}

impl WriteDevice {
    /// The shape of the op.
    pub open spec fn leaf(&self) -> Leaf {
        Leaf {
            input: self.buf,
            out: self.out,
            work: Work::Write(self.src),
            style: Style::Native,
            keep_home: true,
            traced: false,
        }
    }

    fn shape(&self) -> (r: Leaf)
        ensures
            r == self.leaf(),
    {
        Leaf {
            input: self.buf,
            out: self.out,
            work: Work::Write(self.src),
            style: Style::Native,
            keep_home: true,
            traced: false,
        }
    }
}

impl LeafNode for WriteDevice {
    open spec fn outs(&self) -> Seq<Pipe> {
        seq![self.out]
    }

    open spec fn label(&self) -> Seq<char> {
        "write"@
    }

    open spec fn ready(&self, w: World) -> OpResult<()> {
        readiness(w, self.buf)
    }

    open spec fn runs(&self, pre: Walk, post: Walk, mode: ExecMode, res: OpResult<()>) -> bool {
        exists|r1: Reply, r2: Reply|
            (#[trigger] leaf_after(self.leaf(), pre, mode, r1, r2)) == (post, res)
    }

    fn pipes(&self) -> (r: Vec<Pipe>) {
        one_pipe(self.out)
    }

    fn describe(&self) -> (r: String) {
        text_of("write")
    }

    fn check_ready(&self, st: &Store) -> (r: OpResult<()>) {
        self.buf.check_ready(st)
    }

    fn execute<D: Driver>(&self, ec: &mut ExecutionContext<D>, mode: ExecMode) -> (r: OpResult<()>) {
        run_leaf(ec, &self.shape(), mode)
    }
}

/// Write host data into unwritten mapped memory.
#[derive(Clone, Copy, Debug)]
pub struct WriteMappedUninit {
    pub uninit: Input,
    pub src: HostRef,
    pub out: Pipe,
}

/// Write `src` into unwritten mapped memory.
pub fn write_mapped_uninit<B: ToInput>(st: &mut Store, buf: B, src: HostRef) -> (r: WriteMappedUninit)
    requires
        old(st)@.next + 2 <= u64::MAX,
    ensures
        r.uninit == buf.input_spec(old(st)@).0,
        r.src == src,
        r.out.cell == buf.input_spec(old(st)@).1.next,
        final(st)@ == buf.input_spec(old(st)@).1.fresh_ids(1nat),
{
    let uninit = buf.to_input(st);
    let out = st.pipe();
    WriteMappedUninit { uninit, src, out }
}

impl WriteMappedUninit {
    /// The shape of the op.
    pub open spec fn leaf(&self) -> Leaf {
        Leaf {
            input: self.uninit,
            out: self.out,
            work: Work::Write(self.src),
            style: Style::WaitAfter,
            keep_home: false,
            traced: false,
        }
    }

    fn shape(&self) -> (r: Leaf)
        ensures
            r == self.leaf(),
    {
        Leaf {
            input: self.uninit,
            out: self.out,
            work: Work::Write(self.src),
            style: Style::WaitAfter,
            keep_home: false,
            traced: false,
        }
    }
}

impl LeafNode for WriteMappedUninit {
    open spec fn outs(&self) -> Seq<Pipe> {
        seq![self.out]
    }

    open spec fn label(&self) -> Seq<char> {
        "write_mapped_uninit"@
    }

    open spec fn ready(&self, w: World) -> OpResult<()> {
        readiness(w, self.uninit)
    }

    open spec fn runs(&self, pre: Walk, post: Walk, mode: ExecMode, res: OpResult<()>) -> bool {
        exists|r1: Reply, r2: Reply|
            (#[trigger] leaf_after(self.leaf(), pre, mode, r1, r2)) == (post, res)
    }

    fn pipes(&self) -> (r: Vec<Pipe>) {
        one_pipe(self.out)
    }

    fn describe(&self) -> (r: String) {
        text_of("write_mapped_uninit")
    }

    fn check_ready(&self, st: &Store) -> (r: OpResult<()>) {
        self.uninit.check_ready(st)
    }

    fn execute<D: Driver>(&self, ec: &mut ExecutionContext<D>, mode: ExecMode) -> (r: OpResult<()>) {
        run_leaf(ec, &self.shape(), mode)
    }
}

/// Write host data into mapped memory.
#[derive(Clone, Copy, Debug)]
pub struct WriteMapped {
    pub buf: Input,
    pub src: HostRef,
    pub out: Pipe,
}

/// Write `src` into mapped memory.
pub fn write_mapped<B: ToInput>(st: &mut Store, buf: B, src: HostRef) -> (r: WriteMapped)
    requires
        old(st)@.next + 2 <= u64::MAX,
    ensures
        r.buf == buf.input_spec(old(st)@).0,
        r.src == src,
        r.out.cell == buf.input_spec(old(st)@).1.next,
        final(st)@ == buf.input_spec(old(st)@).1.fresh_ids(1nat),
{
    let buf = buf.to_input(st);
    let out = st.pipe();
    WriteMapped { buf, src, out }
}

impl WriteMapped {
    /// The shape of the op.
    pub open spec fn leaf(&self) -> Leaf {
        Leaf {
            input: self.buf,
            out: self.out,
            work: Work::Write(self.src),
            style: Style::WaitAfter,
            keep_home: true,
            traced: false,
        }
    }

    fn shape(&self) -> (r: Leaf)
        ensures
            r == self.leaf(),
    {
        Leaf {
            input: self.buf,
            out: self.out,
            work: Work::Write(self.src),
            style: Style::WaitAfter,
            keep_home: true,
            traced: false,
        }
    }
}

impl LeafNode for WriteMapped {
    open spec fn outs(&self) -> Seq<Pipe> {
        seq![self.out]
    }

    open spec fn label(&self) -> Seq<char> {
        "write_mapped"@
    }

    open spec fn ready(&self, w: World) -> OpResult<()> {
        readiness(w, self.buf)
    }

    open spec fn runs(&self, pre: Walk, post: Walk, mode: ExecMode, res: OpResult<()>) -> bool {
        exists|r1: Reply, r2: Reply|
            (#[trigger] leaf_after(self.leaf(), pre, mode, r1, r2)) == (post, res)
    }

    fn pipes(&self) -> (r: Vec<Pipe>) {
        one_pipe(self.out)
    }

    fn describe(&self) -> (r: String) {
        text_of("write_mapped")
    }

    fn check_ready(&self, st: &Store) -> (r: OpResult<()>) {
        self.buf.check_ready(st)
    }

    fn execute<D: Driver>(&self, ec: &mut ExecutionContext<D>, mode: ExecMode) -> (r: OpResult<()>) {
        run_leaf(ec, &self.shape(), mode)
    }
}

/// Write host data into unwritten shared memory, from the host.
#[derive(Clone, Copy, Debug)]
pub struct WriteUsmUninit {
    pub uninit: Input,
    pub src: HostRef,
    pub out: Pipe,
}

/// Write `src` into unwritten shared memory, from the host.
pub fn write_usm_uninit<B: ToInput>(st: &mut Store, buf: B, src: HostRef) -> (r: WriteUsmUninit)
    requires
        old(st)@.next + 2 <= u64::MAX,
    ensures
        r.uninit == buf.input_spec(old(st)@).0,
        r.src == src,
        r.out.cell == buf.input_spec(old(st)@).1.next,
        final(st)@ == buf.input_spec(old(st)@).1.fresh_ids(1nat),
{
    let uninit = buf.to_input(st);
    let out = st.pipe();
    WriteUsmUninit { uninit, src, out }
}

impl WriteUsmUninit {
    /// The shape of the op.
    pub open spec fn leaf(&self) -> Leaf {
        Leaf {
            input: self.uninit,
            out: self.out,
            work: Work::HostWrite(self.src),
            style: Style::Host,
            keep_home: false,
            traced: false,
        }
    }

    fn shape(&self) -> (r: Leaf)
        ensures
            r == self.leaf(),
    {
        Leaf {
            input: self.uninit,
            out: self.out,
            work: Work::HostWrite(self.src),
            style: Style::Host,
            keep_home: false,
            traced: false,
        }
    }
}

impl LeafNode for WriteUsmUninit {
    open spec fn outs(&self) -> Seq<Pipe> {
        seq![self.out]
    }

    open spec fn label(&self) -> Seq<char> {
        "write_usm_uninit"@
    }

    open spec fn ready(&self, w: World) -> OpResult<()> {
        readiness(w, self.uninit)
    }

    open spec fn runs(&self, pre: Walk, post: Walk, mode: ExecMode, res: OpResult<()>) -> bool {
        exists|r1: Reply, r2: Reply|
            (#[trigger] leaf_after(self.leaf(), pre, mode, r1, r2)) == (post, res)
    }

    fn pipes(&self) -> (r: Vec<Pipe>) {
        one_pipe(self.out)
    }

    fn describe(&self) -> (r: String) {
        text_of("write_usm_uninit")
    }

    fn check_ready(&self, st: &Store) -> (r: OpResult<()>) {
        self.uninit.check_ready(st)
    }

    fn execute<D: Driver>(&self, ec: &mut ExecutionContext<D>, mode: ExecMode) -> (r: OpResult<()>) {
        run_leaf(ec, &self.shape(), mode)
    }
}

/// Read a device buffer into host data of the caller.
#[derive(Clone, Copy, Debug)]
pub struct ReadInto {
    pub buf: Input,
    pub dst: u64,
    pub out: Pipe,
}

/// Read a device buffer into the host data `dst`.
pub fn read_into<B: ToInput>(st: &mut Store, buf: B, dst: u64) -> (r: ReadInto)
    requires
        old(st)@.next + 2 <= u64::MAX,
    ensures
        r.buf == buf.input_spec(old(st)@).0,
        r.dst == dst,
        r.out.cell == buf.input_spec(old(st)@).1.next,
        final(st)@ == buf.input_spec(old(st)@).1.fresh_ids(1nat),
{
    let buf = buf.to_input(st);
    let out = st.pipe();
    ReadInto { buf, dst, out }
}

impl ReadInto {
    /// The shape of the op.
    pub open spec fn leaf(&self) -> Leaf {
        Leaf {
            input: self.buf,
            out: self.out,
            work: Work::ReadInto(self.dst),
            style: Style::Native,
            keep_home: true,
            traced: false,
        }
    }

    fn shape(&self) -> (r: Leaf)
        ensures
            r == self.leaf(),
    {
        Leaf {
            input: self.buf,
            out: self.out,
            work: Work::ReadInto(self.dst),
            style: Style::Native,
            keep_home: true,
            traced: false,
        }
    }
}

impl LeafNode for ReadInto {
    open spec fn outs(&self) -> Seq<Pipe> {
        seq![self.out]
    }

    open spec fn label(&self) -> Seq<char> {
        "read_into"@
    }

    open spec fn ready(&self, w: World) -> OpResult<()> {
        readiness(w, self.buf)
    }

    open spec fn runs(&self, pre: Walk, post: Walk, mode: ExecMode, res: OpResult<()>) -> bool {
        exists|r1: Reply, r2: Reply|
            (#[trigger] leaf_after(self.leaf(), pre, mode, r1, r2)) == (post, res)
    }

    fn pipes(&self) -> (r: Vec<Pipe>) {
        one_pipe(self.out)
    }

    fn describe(&self) -> (r: String) {
        text_of("read_into")
    }

    fn check_ready(&self, st: &Store) -> (r: OpResult<()>) {
        self.buf.check_ready(st)
    }

    fn execute<D: Driver>(&self, ec: &mut ExecutionContext<D>, mode: ExecMode) -> (r: OpResult<()>) {
        run_leaf(ec, &self.shape(), mode)
    }
}

/// Map a device buffer for the host.
#[derive(Clone, Copy, Debug)]
pub struct AcquireDeviceView {
    pub buf: Input,
    pub out: Pipe,
}

/// Map a device buffer for the host.
pub fn acquire_device_view<B: ToInput>(st: &mut Store, buf: B) -> (r: AcquireDeviceView)
    requires
        old(st)@.next + 2 <= u64::MAX,
    ensures
        r.buf == buf.input_spec(old(st)@).0,
        r.out.cell == buf.input_spec(old(st)@).1.next,
        final(st)@ == buf.input_spec(old(st)@).1.fresh_ids(1nat),
{
    let buf = buf.to_input(st);
    let out = st.pipe();
    AcquireDeviceView { buf, out }
}

impl AcquireDeviceView {
    /// The shape of the op.
    pub open spec fn leaf(&self) -> Leaf {
        Leaf {
            input: self.buf,
            out: self.out,
            work: Work::Acquire { writable: true },
            style: Style::Deferred,
            keep_home: false,
            traced: false,
        }
    }

    fn shape(&self) -> (r: Leaf)
        ensures
            r == self.leaf(),
    {
        Leaf {
            input: self.buf,
            out: self.out,
            work: Work::Acquire { writable: true },
            style: Style::Deferred,
            keep_home: false,
            traced: false,
        }
    }
}

impl LeafNode for AcquireDeviceView {
    open spec fn outs(&self) -> Seq<Pipe> {
        seq![self.out]
    }

    open spec fn label(&self) -> Seq<char> {
        "acquire_device_view"@
    }

    open spec fn ready(&self, w: World) -> OpResult<()> {
        readiness(w, self.buf)
    }

    open spec fn runs(&self, pre: Walk, post: Walk, mode: ExecMode, res: OpResult<()>) -> bool {
        exists|r1: Reply, r2: Reply|
            (#[trigger] leaf_after(self.leaf(), pre, mode, r1, r2)) == (post, res)
    }

    fn pipes(&self) -> (r: Vec<Pipe>) {
        one_pipe(self.out)
    }

    fn describe(&self) -> (r: String) {
        text_of("acquire_device_view")
    }

    fn check_ready(&self, st: &Store) -> (r: OpResult<()>) {
        self.buf.check_ready(st)
    }

    fn execute<D: Driver>(&self, ec: &mut ExecutionContext<D>, mode: ExecMode) -> (r: OpResult<()>) {
        run_leaf(ec, &self.shape(), mode)
    }
}

/// Map a device buffer for the host to read.
#[derive(Clone, Copy, Debug)]
pub struct AcquireDeviceViewRead {
    pub buf: Input,
    pub out: Pipe,
}

/// Map a device buffer for the host to read.
pub fn acquire_device_view_read<B: ToInput>(st: &mut Store, buf: B) -> (r: AcquireDeviceViewRead)
    requires
        old(st)@.next + 2 <= u64::MAX,
    ensures
        r.buf == buf.input_spec(old(st)@).0,
        r.out.cell == buf.input_spec(old(st)@).1.next,
        final(st)@ == buf.input_spec(old(st)@).1.fresh_ids(1nat),
{
    let buf = buf.to_input(st);
    let out = st.pipe();
    AcquireDeviceViewRead { buf, out }
}

impl AcquireDeviceViewRead {
    /// The shape of the op.
    pub open spec fn leaf(&self) -> Leaf {
        Leaf {
            input: self.buf,
            out: self.out,
            work: Work::Acquire { writable: false },
            style: Style::Deferred,
            keep_home: false,
            traced: false,
        }
    }

    fn shape(&self) -> (r: Leaf)
        ensures
            r == self.leaf(),
    {
        Leaf {
            input: self.buf,
            out: self.out,
            work: Work::Acquire { writable: false },
            style: Style::Deferred,
            keep_home: false,
            traced: false,
        }
    }
}

impl LeafNode for AcquireDeviceViewRead {
    open spec fn outs(&self) -> Seq<Pipe> {
        seq![self.out]
    }

    open spec fn label(&self) -> Seq<char> {
        "acquire_device_view_read"@
    }

    open spec fn ready(&self, w: World) -> OpResult<()> {
        readiness(w, self.buf)
    }

    open spec fn runs(&self, pre: Walk, post: Walk, mode: ExecMode, res: OpResult<()>) -> bool {
        exists|r1: Reply, r2: Reply|
            (#[trigger] leaf_after(self.leaf(), pre, mode, r1, r2)) == (post, res)
    }

    fn pipes(&self) -> (r: Vec<Pipe>) {
        one_pipe(self.out)
    }

    fn describe(&self) -> (r: String) {
        text_of("acquire_device_view_read")
    }

    fn check_ready(&self, st: &Store) -> (r: OpResult<()>) {
        self.buf.check_ready(st)
    }

    fn execute<D: Driver>(&self, ec: &mut ExecutionContext<D>, mode: ExecMode) -> (r: OpResult<()>) {
        run_leaf(ec, &self.shape(), mode)
    }
}

/// Map shared memory for the host.
#[derive(Clone, Copy, Debug)]
pub struct AcquireMappedView {
    pub buf: Input,
    pub out: Pipe,
}

/// Map shared memory for the host.
pub fn acquire_mapped_view<B: ToInput>(st: &mut Store, buf: B) -> (r: AcquireMappedView)
    requires
        old(st)@.next + 2 <= u64::MAX,
    ensures
        r.buf == buf.input_spec(old(st)@).0,
        r.out.cell == buf.input_spec(old(st)@).1.next,
        final(st)@ == buf.input_spec(old(st)@).1.fresh_ids(1nat),
{
    let buf = buf.to_input(st);
    let out = st.pipe();
    AcquireMappedView { buf, out }
}

impl AcquireMappedView {
    /// The shape of the op.
    pub open spec fn leaf(&self) -> Leaf {
        Leaf {
            input: self.buf,
            out: self.out,
            work: Work::Acquire { writable: true },
            style: Style::Deferred,
            keep_home: false,
            traced: false,
        }
    }

    fn shape(&self) -> (r: Leaf)
        ensures
            r == self.leaf(),
    {
        Leaf {
            input: self.buf,
            out: self.out,
            work: Work::Acquire { writable: true },
            style: Style::Deferred,
            keep_home: false,
            traced: false,
        }
    }
}

impl LeafNode for AcquireMappedView {
    open spec fn outs(&self) -> Seq<Pipe> {
        seq![self.out]
    }

    open spec fn label(&self) -> Seq<char> {
        "acquire_mapped_view"@
    }

    open spec fn ready(&self, w: World) -> OpResult<()> {
        readiness(w, self.buf)
    }

    open spec fn runs(&self, pre: Walk, post: Walk, mode: ExecMode, res: OpResult<()>) -> bool {
        exists|r1: Reply, r2: Reply|
            (#[trigger] leaf_after(self.leaf(), pre, mode, r1, r2)) == (post, res)
    }

    fn pipes(&self) -> (r: Vec<Pipe>) {
        one_pipe(self.out)
    }

    fn describe(&self) -> (r: String) {
        text_of("acquire_mapped_view")
    }

    fn check_ready(&self, st: &Store) -> (r: OpResult<()>) {
        self.buf.check_ready(st)
    }

    fn execute<D: Driver>(&self, ec: &mut ExecutionContext<D>, mode: ExecMode) -> (r: OpResult<()>) {
        run_leaf(ec, &self.shape(), mode)
    }
}

/// Map shared memory for the host to read.
#[derive(Clone, Copy, Debug)]
pub struct AcquireMappedViewRead {
    pub buf: Input,
    pub out: Pipe,
}

/// Map shared memory for the host to read.
pub fn acquire_mapped_view_read<B: ToInput>(st: &mut Store, buf: B) -> (r: AcquireMappedViewRead)
    requires
        old(st)@.next + 2 <= u64::MAX,
    ensures
        r.buf == buf.input_spec(old(st)@).0,
        r.out.cell == buf.input_spec(old(st)@).1.next,
        final(st)@ == buf.input_spec(old(st)@).1.fresh_ids(1nat),
{
    let buf = buf.to_input(st);
    let out = st.pipe();
    AcquireMappedViewRead { buf, out }
}

impl AcquireMappedViewRead {
    /// The shape of the op.
    pub open spec fn leaf(&self) -> Leaf {
        Leaf {
            input: self.buf,
            out: self.out,
            work: Work::Acquire { writable: false },
            style: Style::Deferred,
            keep_home: false,
            traced: false,
        }
    }

    fn shape(&self) -> (r: Leaf)
        ensures
            r == self.leaf(),
    {
        Leaf {
            input: self.buf,
            out: self.out,
            work: Work::Acquire { writable: false },
            style: Style::Deferred,
            keep_home: false,
            traced: false,
        }
    }
}

impl LeafNode for AcquireMappedViewRead {
    open spec fn outs(&self) -> Seq<Pipe> {
        seq![self.out]
    }

    open spec fn label(&self) -> Seq<char> {
        "acquire_mapped_view_read"@
    }

    open spec fn ready(&self, w: World) -> OpResult<()> {
        readiness(w, self.buf)
    }

    open spec fn runs(&self, pre: Walk, post: Walk, mode: ExecMode, res: OpResult<()>) -> bool {
        exists|r1: Reply, r2: Reply|
            (#[trigger] leaf_after(self.leaf(), pre, mode, r1, r2)) == (post, res)
    }

    fn pipes(&self) -> (r: Vec<Pipe>) {
        one_pipe(self.out)
    }

    fn describe(&self) -> (r: String) {
        text_of("acquire_mapped_view_read")
    }

    fn check_ready(&self, st: &Store) -> (r: OpResult<()>) {
        self.buf.check_ready(st)
    }

    fn execute<D: Driver>(&self, ec: &mut ExecutionContext<D>, mode: ExecMode) -> (r: OpResult<()>) {
        run_leaf(ec, &self.shape(), mode)
    }
}

/// Unmap a device buffer.
#[derive(Clone, Copy, Debug)]
pub struct ReleaseDeviceView {
    pub view: Input,
    pub out: Pipe,
}

/// Unmap a device buffer.
pub fn release_device_view<B: ToInput>(st: &mut Store, buf: B) -> (r: ReleaseDeviceView)
    requires
        old(st)@.next + 2 <= u64::MAX,
    ensures
        r.view == buf.input_spec(old(st)@).0,
        r.out.cell == buf.input_spec(old(st)@).1.next,
        final(st)@ == buf.input_spec(old(st)@).1.fresh_ids(1nat),
{
    let view = buf.to_input(st);
    let out = st.pipe();
    ReleaseDeviceView { view, out }
}

impl ReleaseDeviceView {
    /// The shape of the op.
    pub open spec fn leaf(&self) -> Leaf {
        Leaf {
            input: self.view,
            out: self.out,
            work: Work::Release,
            style: Style::Deferred,
            keep_home: false,
            traced: false,
        }
    }

    fn shape(&self) -> (r: Leaf)
        ensures
            r == self.leaf(),
    {
        Leaf {
            input: self.view,
            out: self.out,
            work: Work::Release,
            style: Style::Deferred,
            keep_home: false,
            traced: false,
        }
    }
}

impl LeafNode for ReleaseDeviceView {
    open spec fn outs(&self) -> Seq<Pipe> {
        seq![self.out]
    }

    open spec fn label(&self) -> Seq<char> {
        "release_device_view"@
    }

    open spec fn ready(&self, w: World) -> OpResult<()> {
        readiness(w, self.view)
    }

    open spec fn runs(&self, pre: Walk, post: Walk, mode: ExecMode, res: OpResult<()>) -> bool {
        exists|r1: Reply, r2: Reply|
            (#[trigger] leaf_after(self.leaf(), pre, mode, r1, r2)) == (post, res)
    }

    fn pipes(&self) -> (r: Vec<Pipe>) {
        one_pipe(self.out)
    }

    fn describe(&self) -> (r: String) {
        text_of("release_device_view")
    }

    fn check_ready(&self, st: &Store) -> (r: OpResult<()>) {
        self.view.check_ready(st)
    }

    fn execute<D: Driver>(&self, ec: &mut ExecutionContext<D>, mode: ExecMode) -> (r: OpResult<()>) {
        run_leaf(ec, &self.shape(), mode)
    }
}

/// Unmap shared memory.
#[derive(Clone, Copy, Debug)]
pub struct ReleaseMappedView {
    pub view: Input,
    pub out: Pipe,
}

/// Unmap shared memory.
pub fn release_mapped_view<B: ToInput>(st: &mut Store, buf: B) -> (r: ReleaseMappedView)
    requires
        old(st)@.next + 2 <= u64::MAX,
    ensures
        r.view == buf.input_spec(old(st)@).0,
        r.out.cell == buf.input_spec(old(st)@).1.next,
        final(st)@ == buf.input_spec(old(st)@).1.fresh_ids(1nat),
{
    let view = buf.to_input(st);
    let out = st.pipe();
    ReleaseMappedView { view, out }
}

impl ReleaseMappedView {
    /// The shape of the op.
    pub open spec fn leaf(&self) -> Leaf {
        Leaf {
            input: self.view,
            out: self.out,
            work: Work::Release,
            style: Style::Deferred,
            keep_home: false,
            traced: false,
        }
    }

    fn shape(&self) -> (r: Leaf)
        ensures
            r == self.leaf(),
    {
        Leaf {
            input: self.view,
            out: self.out,
            work: Work::Release,
            style: Style::Deferred,
            keep_home: false,
            traced: false,
        }
    }
}

impl LeafNode for ReleaseMappedView {
    open spec fn outs(&self) -> Seq<Pipe> {
        seq![self.out]
    }

    open spec fn label(&self) -> Seq<char> {
        "release_mapped_view"@
    }

    open spec fn ready(&self, w: World) -> OpResult<()> {
        readiness(w, self.view)
    }

    open spec fn runs(&self, pre: Walk, post: Walk, mode: ExecMode, res: OpResult<()>) -> bool {
        exists|r1: Reply, r2: Reply|
            (#[trigger] leaf_after(self.leaf(), pre, mode, r1, r2)) == (post, res)
    }

    fn pipes(&self) -> (r: Vec<Pipe>) {
        one_pipe(self.out)
    }

    fn describe(&self) -> (r: String) {
        text_of("release_mapped_view")
    }

    fn check_ready(&self, st: &Store) -> (r: OpResult<()>) {
        self.view.check_ready(st)
    }

    fn execute<D: Driver>(&self, ec: &mut ExecutionContext<D>, mode: ExecMode) -> (r: OpResult<()>) {
        run_leaf(ec, &self.shape(), mode)
    }
}

/// The host vector that a download fills.
pub open spec fn host_obj(id: u64, o: Obj) -> Obj {
    Obj {
        class: Class::Host,
        id,
        ctx: o.ctx,
        extent: Extent { x: o.len, y: 1, z: 1 },
        len: o.len,
        bytes: o.bytes,
        shared: false,
    }
}

/// The host vector that a download fills.
pub fn host_vec(id: u64, o: &Obj) -> (r: Obj)
    ensures
        r == host_obj(id, *o),
{
    Obj {
        class: Class::Host,
        id,
        ctx: o.ctx,
        extent: Extent { x: o.len, y: 1, z: 1 },
        len: o.len,
        bytes: o.bytes,
        shared: false,
    }
}

/// Read a device buffer into a fresh host vector. The buffer goes back to where
/// it came from.
#[derive(Clone, Copy, Debug)]
pub struct Download {
    pub buf: Input,
    pub out: Pipe,
}

/// Read a device buffer into a fresh host vector.
pub fn download<B: ToInput>(st: &mut Store, buf: B) -> (r: Download)
    requires
        old(st)@.next + 2 <= u64::MAX,
    ensures
        r.buf == buf.input_spec(old(st)@).0,
        r.out.cell == buf.input_spec(old(st)@).1.next,
        final(st)@ == buf.input_spec(old(st)@).1.fresh_ids(1nat),
{
    let buf = buf.to_input(st);
    let out = st.pipe();
    Download { buf, out }
}

/// One run of a download: `r1` answers the host allocation, `r2` the read.
pub open spec fn download_after(d: Download, pre: Walk, mode: ExecMode, r1: Reply, r2: Reply) -> (Walk, OpResult<()>) {
    match found(pre.w, pre.start, d.buf) {
        Err(e) => (pre, Err(e)),
        Ok(p) => {
            let s = pre.at(after_taking(pre.w, d.buf));
            if p.value.len() != 1 {
                (s, Err(not_single_error()))
            } else {
                let o = p.value[0];
                let blocking = mode == ExecMode::Blocking;
                let t = s.issued(Command::HostAlloc { len: o.len, bytes: o.bytes }, Seq::empty(), r1);
                match r1 {
                    Err(c) => (t, Err(Error::OpenCl(c))),
                    Ok(h) => {
                        let u = t.issued(
                            Command::Read { mem: o.mem_spec(), dst: h, blocking },
                            p.deps,
                            r2,
                        );
                        match r2 {
                            Err(c) => (u, Err(Error::OpenCl(c))),
                            Ok(ev) => (
                                u.at(u.w.rehomed(p.home, p.value)).put(
                                    d.out.cell,
                                    seq![host_obj(h, o)],
                                    if blocking {
                                        Seq::empty()
                                    } else {
                                        seq![ev]
                                    },
                                    None,
                                ),
                                Ok(()),
                            ),
                        }
                    },
                }
            }
        },
    }
}

impl LeafNode for Download {
    open spec fn outs(&self) -> Seq<Pipe> {
        seq![self.out]
    }

    open spec fn label(&self) -> Seq<char> {
        "download"@
    }

    open spec fn ready(&self, w: World) -> OpResult<()> {
        readiness(w, self.buf)
    }

    open spec fn runs(&self, pre: Walk, post: Walk, mode: ExecMode, res: OpResult<()>) -> bool {
        exists|r1: Reply, r2: Reply|
            (#[trigger] download_after(*self, pre, mode, r1, r2)) == (post, res)
    }

    fn pipes(&self) -> (r: Vec<Pipe>) {
        one_pipe(self.out)
    }

    fn describe(&self) -> (r: String) {
        text_of("download")
    }

    fn check_ready(&self, st: &Store) -> (r: OpResult<()>) {
        self.buf.check_ready(st)
    }

    fn execute<D: Driver>(&self, ec: &mut ExecutionContext<D>, mode: ExecMode) -> (r: OpResult<()>) {
        let ghost pre = ec@;
        let ghost no: Reply = Err(0);
        let p: Parcel = match ec.resolve_home(&self.buf) {
            Ok(p) => p,
            Err(e) => {
                assert(download_after(*self, pre, mode, no, no).0 == ec@);
                return Err(e);
            },
        };
        if p.value.len() != 1 {
            assert(download_after(*self, pre, mode, no, no).0 == ec@);
            return Err(Error::InvalidArgument("an op over one buffer was given a group of values"));
        }
        let o: Obj = p.value[0];
        let blocking: bool = matches!(mode, ExecMode::Blocking);
        let r1: Reply = ec.issue(Command::HostAlloc { len: o.len, bytes: o.bytes }, &no_deps());
        let h: u64 = match r1 {
            Ok(h) => h,
            Err(c) => {
                assert(download_after(*self, pre, mode, r1, no).0 == ec@);
                return Err(Error::OpenCl(c));
            },
        };
        let r2: Reply = ec.issue(Command::Read { mem: o.mem(), dst: h, blocking }, &p.deps);
        match r2 {
            Err(c) => {
                assert(download_after(*self, pre, mode, r1, r2).0 == ec@);
                Err(Error::OpenCl(c))
            },
            Ok(ev) => {
                ec.rehome(p.home, &p.value);
                let deps: Vec<u64> = if blocking {
                    no_deps()
                } else {
                    single_dep(ev)
                };
                let host = host_vec(h, &o);
                ec.put_home(&self.out, single_obj(host), deps, None);
                assert(download_after(*self, pre, mode, r1, r2).0 == ec@);
                Ok(())
            },
        }
    }
}

/// The device that an op is routed to.
#[derive(Clone, Copy, Debug, PartialEq, Eq, Structural)]
pub enum DeviceTarget {
    /// This device.
    Concrete(u64),
    /// The device of the context with this index.
    Index(usize),
}

impl DeviceTarget {
    /// How many devices the context must have.
    pub open spec fn devices_needed(self) -> nat {
        match self {
            DeviceTarget::Concrete(_) => 0,
            DeviceTarget::Index(i) => (i + 1) as nat,
        }
    }

    /// Whether a context with `count` devices has it.
    pub fn fits(&self, count: usize) -> (r: bool)
        ensures
            r == (self.devices_needed() <= count),
    {
        match self {
            DeviceTarget::Concrete(_) => true,
            DeviceTarget::Index(i) => *i < count,
        }
    }

    /// The device that is meant.
    pub open spec fn device(self, s: Walk) -> u64 {
        match self {
            DeviceTarget::Concrete(d) => d,
            DeviceTarget::Index(i) => s.devices[i as int],
        }
    }

    /// The device that is meant.
    pub fn pick<D: Driver>(&self, ec: &ExecutionContext<D>) -> (r: u64)
        requires
            self.devices_needed() <= ec@.devices.len(),
        ensures
            r == self.device(ec@),
    {
        match self {
            DeviceTarget::Concrete(d) => *d,
            DeviceTarget::Index(i) => ec.device_at(*i),
        }
    }
}

/// Move a device buffer to another device.
#[derive(Clone, Copy, Debug)]
pub struct TransferToDevice {
    pub buf: Input,
    pub target: DeviceTarget,
    pub out: Pipe,
}

/// Move a device buffer to `device`.
pub fn transfer_to_device<B: ToInput>(st: &mut Store, buf: B, device: u64) -> (r: TransferToDevice)
    requires
        old(st)@.next + 2 <= u64::MAX,
    ensures
        r.buf == buf.input_spec(old(st)@).0,
        r.target == DeviceTarget::Concrete(device),
        r.out.cell == buf.input_spec(old(st)@).1.next,
        final(st)@ == buf.input_spec(old(st)@).1.fresh_ids(1nat),
{
    let buf = buf.to_input(st);
    let out = st.pipe();
    TransferToDevice { buf, target: DeviceTarget::Concrete(device), out }
}

/// Move a device buffer to the device with index `index`.
pub fn transfer_to_device_at<B: ToInput>(st: &mut Store, buf: B, index: usize) -> (r: TransferToDevice)
    requires
        old(st)@.next + 2 <= u64::MAX,
    ensures
        r.buf == buf.input_spec(old(st)@).0,
        r.target == DeviceTarget::Index(index),
        r.out.cell == buf.input_spec(old(st)@).1.next,
        final(st)@ == buf.input_spec(old(st)@).1.fresh_ids(1nat),
{
    let buf = buf.to_input(st);
    let out = st.pipe();
    TransferToDevice { buf, target: DeviceTarget::Index(index), out }
}

/// One run of a transfer: `r1` answers the request for the target's queue, `r2`
/// the move.
pub open spec fn transfer_after(d: TransferToDevice, pre: Walk, r1: Reply, r2: Reply) -> (Walk, OpResult<()>) {
    match found(pre.w, pre.start, d.buf) {
        Err(e) => (pre, Err(e)),
        Ok(p) => {
            let s = pre.at(after_taking(pre.w, d.buf));
            if p.value.len() != 1 {
                (s, Err(not_single_error()))
            } else {
                let t = s.issued(Command::Queue { device: d.target.device(pre) }, Seq::empty(), r1);
                match r1 {
                    Err(c) => (t, Err(Error::OpenCl(c))),
                    Ok(queue) => {
                        let u = t.issued(
                            Command::Migrate { mem: p.value[0].mem_spec(), queue },
                            p.deps,
                            r2,
                        );
                        match r2 {
                            Err(c) => (u, Err(Error::OpenCl(c))),
                            Ok(ev) => (u.put(d.out.cell, p.value, seq![ev], p.home), Ok(())),
                        }
                    },
                }
            }
        },
    }
}

impl LeafNode for TransferToDevice {
    open spec fn outs(&self) -> Seq<Pipe> {
        seq![self.out]
    }

    open spec fn label(&self) -> Seq<char> {
        "transfer_to_device"@
    }

    open spec fn ready(&self, w: World) -> OpResult<()> {
        readiness(w, self.buf)
    }

    open spec fn devices_needed(&self) -> nat {
        self.target.devices_needed()
    }

    open spec fn runs(&self, pre: Walk, post: Walk, mode: ExecMode, res: OpResult<()>) -> bool {
        exists|r1: Reply, r2: Reply|
            (#[trigger] transfer_after(*self, pre, r1, r2)) == (post, res)
    }

    fn pipes(&self) -> (r: Vec<Pipe>) {
        one_pipe(self.out)
    }

    fn describe(&self) -> (r: String) {
        text_of("transfer_to_device")
    }

    fn check_ready(&self, st: &Store) -> (r: OpResult<()>) {
        self.buf.check_ready(st)
    }

    fn execute<D: Driver>(&self, ec: &mut ExecutionContext<D>, mode: ExecMode) -> (r: OpResult<()>) {
        let ghost pre = ec@;
        let ghost no: Reply = Err(0);
        let p: Parcel = match ec.resolve_home(&self.buf) {
            Ok(p) => p,
            Err(e) => {
                assert(transfer_after(*self, pre, no, no).0 == ec@);
                return Err(e);
            },
        };
        if p.value.len() != 1 {
            assert(transfer_after(*self, pre, no, no).0 == ec@);
            return Err(Error::InvalidArgument("an op over one buffer was given a group of values"));
        }
        let device: u64 = self.target.pick(ec);
        let r1: Reply = ec.issue(Command::Queue { device }, &no_deps());
        let queue: u64 = match r1 {
            Ok(q) => q,
            Err(c) => {
                assert(transfer_after(*self, pre, r1, no).0 == ec@);
                return Err(Error::OpenCl(c));
            },
        };
        let r2: Reply = ec.issue(Command::Migrate { mem: p.value[0].mem(), queue }, &p.deps);
        match r2 {
            Err(c) => {
                assert(transfer_after(*self, pre, r1, r2).0 == ec@);
                Err(Error::OpenCl(c))
            },
            Ok(ev) => {
                ec.put_home(&self.out, p.value, single_dep(ev), p.home);
                assert(transfer_after(*self, pre, r1, r2).0 == ec@);
                Ok(())
            },
        }
    }
}

} // verus!
