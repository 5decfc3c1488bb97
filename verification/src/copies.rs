//! The ops that copy one value into another and pass both on.

use crate::cb::{cb_leaf_build, leaf_built, new_cb_cache, CbCache};
use crate::error::{Error, OpResult};
use crate::exec_ctx::{kept, Driver, ExecMode, ExecutionContext, Walk, WalkMode};
use crate::ids::{copy_ids, extend_ids, with_ids, IdSet};
use crate::input::{
    after_taking, copy_home, found, not_single_error, pipe_of, readiness, slot_of, Checkout, Input,
    ToInput,
};
use crate::leaf::{no_deps, single_dep, single_obj, walk_kind, WalkKind};
use crate::leaves::{text_of, two_pipes, LeafNode};
use crate::obj::{init_class, Command, Extent, Obj, Recorded, Reply};
use crate::slots::SlotHandle;
use crate::store::{Parcel, ParcelView, Pipe, Store, World};
use vstd::prelude::*;

verus! {

broadcast use crate::store::group_fresh_ids;

/// The kind of a copy.
#[derive(Clone, Copy, Debug, PartialEq, Eq, Structural)]
pub enum CopyKind {
    /// Between buffers.
    Buffer,
    /// Between images, over this region.
    Image(Extent),
    /// Between images, over the source's own extent.
    WholeImage,
}

/// An op that copies one value into another and passes both on.
#[derive(Clone, Copy, Debug)]
pub struct Copying {
    pub src: Input,
    pub dst: Input,
    pub src_pipe: Pipe,
    pub dst_pipe: Pipe,
    pub kind: CopyKind,
}

impl Copying {
    /// The command sent to the queue.
    pub open spec fn command(self, s: Obj, d: Obj) -> Command {
        match self.kind {
            CopyKind::Buffer => Command::Copy { src: s.mem_spec(), dst: d.mem_spec(), bytes: s.bytes },
            CopyKind::Image(region) => Command::CopyImage { src: s.mem_spec(), dst: d.mem_spec(), region },
            CopyKind::WholeImage => Command::CopyImage {
                src: s.mem_spec(),
                dst: d.mem_spec(),
                region: s.extent,
            },
        }
    }

    /// The command recorded into a command buffer.
    pub open spec fn record(self, s: Obj, d: Obj) -> Recorded {
        match self.kind {
            CopyKind::Buffer => Recorded::Copy { src: s.mem_spec(), dst: d.mem_spec(), bytes: s.bytes },
            CopyKind::Image(region) => Recorded::CopyImage { src: s.mem_spec(), dst: d.mem_spec(), region },
            CopyKind::WholeImage => Recorded::CopyImage {
                src: s.mem_spec(),
                dst: d.mem_spec(),
                region: s.extent,
            },
        }
    }

    fn command_of(&self, s: &Obj, d: &Obj) -> (r: Command)
        ensures
            r == self.command(*s, *d),
    {
        match self.kind {
            CopyKind::Buffer => Command::Copy { src: s.mem(), dst: d.mem(), bytes: s.bytes },
            CopyKind::Image(region) => Command::CopyImage { src: s.mem(), dst: d.mem(), region },
            CopyKind::WholeImage => Command::CopyImage { src: s.mem(), dst: d.mem(), region: s.extent },
        }
    }

    fn record_of(&self, s: &Obj, d: &Obj) -> (r: Recorded)
        ensures
            r == self.record(*s, *d),
    {
        match self.kind {
            CopyKind::Buffer => Recorded::Copy { src: s.mem(), dst: d.mem(), bytes: s.bytes },
            CopyKind::Image(region) => Recorded::CopyImage { src: s.mem(), dst: d.mem(), region },
            CopyKind::WholeImage => Recorded::CopyImage { src: s.mem(), dst: d.mem(), region: s.extent },
        }
    }
}

/// The destination once it was copied into.
pub open spec fn copied(d: Obj) -> Obj {
    d.as_class(init_class(d.class))
}

/// The run with both outputs of a copy laid on their pipes.
pub open spec fn copy_put(c: Copying, t: Walk, ps: ParcelView, pd: ParcelView, deps: Seq<u64>) -> Walk {
    t.put(c.src_pipe.cell, ps.value, deps, copy_home(c.src, ps)).put(
        c.dst_pipe.cell,
        seq![copied(pd.value[0])],
        deps,
        copy_home(c.dst, pd),
    )
}

/// The run after a copy was recorded, or refused, by the driver.
pub open spec fn copy_recorded(c: Copying, s: Walk, ps: ParcelView, pd: ParcelView, r1: Reply) -> Walk {
    let sp = pipe_of(s.w, c.src);
    let dp = pipe_of(s.w, c.dst);
    let b1 = leaf_built(s, ps.deps, slot_of(c.src), sp, c.src_pipe.cell);
    let b2 = leaf_built(b1, pd.deps, slot_of(c.dst), dp, c.dst_pipe.cell);
    let waits = with_ids(s.sp_of(sp), b1.sp_of(dp));
    let t = b2.recording(c.record(ps.value[0], pd.value[0]), waits, r1);
    let u = match r1 {
        Ok(x) => t.with_sp(c.src_pipe.cell, seq![x]).with_sp(c.dst_pipe.cell, seq![x]),
        Err(_) => t,
    };
    copy_put(c, u, ps, pd, Seq::empty())
}

/// One run of a copy: `r1` answers the command.
pub open spec fn copy_after(c: Copying, pre: Walk, r1: Reply) -> (Walk, OpResult<()>) {
    match found(pre.w, pre.start, c.src) {
        Err(e) => (pre, Err(e)),
        Ok(ps) => {
            let s1 = pre.at(after_taking(pre.w, c.src));
            match found(s1.w, pre.start, c.dst) {
                Err(e) => (s1, Err(e)),
                Ok(pd) => {
                    let s = s1.at(after_taking(s1.w, c.dst));
                    if ps.value.len() != 1 || pd.value.len() != 1 {
                        (s, Err(not_single_error()))
                    } else {
                        match pre.cb {
                            WalkMode::Build { .. } => (copy_recorded(c, s, ps, pd, r1), Ok(())),
                            WalkMode::LendOnly { .. } => (
                                copy_put(
                                    c,
                                    s.external(ps.deps).external(pd.deps),
                                    ps,
                                    pd,
                                    Seq::empty(),
                                ),
                                Ok(()),
                            ),
                            WalkMode::Off => {
                                let t = s.issued(
                                    c.command(ps.value[0], pd.value[0]),
                                    ps.deps + pd.deps,
                                    r1,
                                );
                                match r1 {
                                    Err(e) => (t, Err(Error::OpenCl(e))),
                                    Ok(ev) => (copy_put(c, t, ps, pd, seq![ev]), Ok(())),
                                }
                            },
                        }
                    }
                },
            }
        },
    }
}

impl Copying {
    /// Run the copy.
    pub fn run<D: Driver>(&self, ec: &mut ExecutionContext<D>) -> (r: OpResult<()>)
        ensures
            exists|r1: Reply| (#[trigger] copy_after(*self, old(ec)@, r1)) == (final(ec)@, r),
            kept(old(ec)@, final(ec)@),
    {
        let ghost pre = ec@;
        let ghost no: Reply = Err(0);
        let ps: Parcel = match ec.resolve_copy(&self.src) {
            Ok(p) => p,
            Err(e) => {
                assert(copy_after(*self, pre, no).0 == ec@);
                return Err(e);
            },
        };
        let pd: Parcel = match ec.resolve_copy(&self.dst) {
            Ok(p) => p,
            Err(e) => {
                assert(copy_after(*self, pre, no).0 == ec@);
                return Err(e);
            },
        };
        if ps.value.len() != 1 || pd.value.len() != 1 {
            assert(copy_after(*self, pre, no).0 == ec@);
            return Err(Error::InvalidArgument("an op over one buffer was given a group of values"));
        }
        let ghost s = ec@;
        let so: Obj = ps.value[0];
        let d_o: Obj = pd.value[0];
        match walk_kind(ec) {
            WalkKind::Build => {
                let sp: Option<u64> = self.src.pipe_cell_id(ec.store());
                let dp: Option<u64> = self.dst.pipe_cell_id(ec.store());
                let mut waits: IdSet = cb_leaf_build(
                    ec,
                    &ps.deps,
                    self.src.slot_cell_id(),
                    sp,
                    self.src_pipe.cell,
                );
                let more: IdSet = cb_leaf_build(
                    ec,
                    &pd.deps,
                    self.dst.slot_cell_id(),
                    dp,
                    self.dst_pipe.cell,
                );
                waits.insert_all(&more);
                let ghost built = ec@;
                let what = self.record_of(&so, &d_o);
                let done: Option<u64> = ec.record(what, &waits);
                let ghost r1 = choose|reply: Reply|
                    {
                        &&& ec@ == #[trigger] built.recording(what, waits@, reply)
                        &&& done == (match reply {
                            Ok(sp) => Some(sp),
                            Err(_) => None::<u64>,
                        })
                    };
                if let Some(x) = done {
                    ec.sp_register(self.src_pipe.cell, IdSet::single(x));
                    ec.sp_register(self.dst_pipe.cell, IdSet::single(x));
                }
                ec.put_home(&self.src_pipe, ps.value, no_deps(), ps.home);
                ec.put_home(&self.dst_pipe, single_obj(d_o.assume_init()), no_deps(), pd.home);
                assert(copy_after(*self, pre, r1).0 == ec@);
                Ok(())
            },
            WalkKind::LendOnly => {
                ec.collect_external(&ps.deps);
                ec.collect_external(&pd.deps);
                ec.put_home(&self.src_pipe, ps.value, no_deps(), ps.home);
                ec.put_home(&self.dst_pipe, single_obj(d_o.assume_init()), no_deps(), pd.home);
                assert(copy_after(*self, pre, no).0 == ec@);
                Ok(())
            },
            WalkKind::Off => {
                let mut deps: Vec<u64> = copy_ids(&ps.deps);
                extend_ids(&mut deps, &pd.deps);
                let r1: Reply = ec.issue(self.command_of(&so, &d_o), &deps);
                match r1 {
                    Err(c) => {
                        assert(copy_after(*self, pre, r1).0 == ec@);
                        Err(Error::OpenCl(c))
                    },
                    Ok(ev) => {
                        ec.put_home(&self.src_pipe, ps.value, single_dep(ev), ps.home);
                        ec.put_home(
                            &self.dst_pipe,
                            single_obj(d_o.assume_init()),
                            single_dep(ev),
                            pd.home,
                        );
                        assert(copy_after(*self, pre, r1).0 == ec@);
                        Ok(())
                    },
                }
            },
        }
    }

    /// Whether a run can start the copy: the source first, then the destination.
    pub open spec fn ready_spec(self, w: World) -> OpResult<()> {
        match readiness(w, self.src) {
            Err(e) => Err(e),
            Ok(_) => readiness(w, self.dst),
        }
    }

    /// Whether a run can start the copy.
    pub fn check(&self, st: &Store) -> (r: OpResult<()>)
        ensures
            r == self.ready_spec(st@),
    {
        match self.src.check_ready(st) {
            Err(e) => Err(e),
            Ok(_) => self.dst.check_ready(st),
        }
    }
}

/// The two outputs of a copy.
pub trait CopyOutputs: Sized {
    type Src;

    type Dst;

    /// The source and the destination.
    spec fn parts(self) -> (Self::Src, Self::Dst);

    fn into_parts(self) -> (r: (Self::Src, Self::Dst))
        ensures
            r == self.parts(),
    ;
}

impl<A, B> CopyOutputs for (A, B) {
    type Src = A;

    type Dst = B;

    open spec fn parts(self) -> (A, B) {
        self
    }

    fn into_parts(self) -> (r: (A, B)) {
        self
    }
}

/// What can stand as an operand of a copy.
pub trait CopyOperand: ToInput {
    fn into_copy_input(self, st: &mut Store) -> (r: Input)
        requires
            old(st)@.next < u64::MAX,
        ensures
            (r, final(st)@) == self.input_spec(old(st)@),
            final(st)@.next <= old(st)@.next + 1,
    ;
}

impl CopyOperand for Pipe {
    fn into_copy_input(self, st: &mut Store) -> (r: Input) {
        self.to_input(st)
    }
}

impl CopyOperand for Obj {
    fn into_copy_input(self, st: &mut Store) -> (r: Input) {
        self.to_input(st)
    }
}

impl CopyOperand for Checkout {
    fn into_copy_input(self, st: &mut Store) -> (r: Input) {
        self.to_input(st)
    }
}

impl CopyOperand for SlotHandle {
    fn into_copy_input(self, st: &mut Store) -> (r: Input) {
        self.to_input(st)
    }
}

/// Copy one buffer into another and pass both on.
#[derive(Clone, Copy, Debug)]
pub struct CopyTo2 {
    pub src: Input,
    pub dst: Input,
    pub src_pipe: Pipe,
    pub dst_pipe: Pipe,
    pub cb_cache: CbCache,
}

/// Copy `src` into `dst`.
pub fn eager_copy_to<S: CopyOperand, T: CopyOperand>(st: &mut Store, src: S, dst: T) -> (r: CopyTo2)
    requires
        old(st)@.next + 5 <= u64::MAX,
    ensures
        ({
            let (i, w1) = src.input_spec(old(st)@);
            let (j, w2) = dst.input_spec(w1);
            &&& r.src == i
            &&& r.dst == j
            &&& r.src_pipe.cell == w2.next
            &&& r.dst_pipe.cell == w2.next + 1
            &&& r.cb_cache == w2.next + 2
            &&& final(st)@ == w2.fresh_ids(3nat)
        }),
{
    let src = src.into_copy_input(st);
    let dst = dst.into_copy_input(st);
    let src_pipe = st.pipe();
    let dst_pipe = st.pipe();
    let cb_cache = new_cb_cache(st);
    CopyTo2 { src, dst, src_pipe, dst_pipe, cb_cache }
}

impl CopyTo2 {
    /// The shape of the op.
    pub open spec fn copying(&self) -> Copying {
        Copying {
            src: self.src,
            dst: self.dst,
            src_pipe: self.src_pipe,
            dst_pipe: self.dst_pipe,
            kind: CopyKind::Buffer,
        }
    }

    fn shape(&self) -> (r: Copying)
        ensures
            r == self.copying(),
    {
        Copying {
            src: self.src,
            dst: self.dst,
            src_pipe: self.src_pipe,
            dst_pipe: self.dst_pipe,
            kind: CopyKind::Buffer,
        }
    }
}

impl LeafNode for CopyTo2 {
    open spec fn outs(&self) -> Seq<Pipe> {
        seq![self.src_pipe, self.dst_pipe]
    }

    open spec fn label(&self) -> Seq<char> {
        "copy_to"@
    }

    open spec fn ready(&self, w: World) -> OpResult<()> {
        self.copying().ready_spec(w)
    }

    open spec fn runs(&self, pre: Walk, post: Walk, mode: ExecMode, res: OpResult<()>) -> bool {
        exists|r1: Reply| (#[trigger] copy_after(self.copying(), pre, r1)) == (post, res)
    }

    fn pipes(&self) -> (r: Vec<Pipe>) {
        two_pipes(self.src_pipe, self.dst_pipe)
    }

    fn describe(&self) -> (r: String) {
        text_of("copy_to")
    }

    fn check_ready(&self, st: &Store) -> (r: OpResult<()>) {
        self.shape().check(st)
    }

    fn execute<D: Driver>(&self, ec: &mut ExecutionContext<D>, mode: ExecMode) -> (r: OpResult<()>) {
        self.shape().run(ec)
    }
}

} // verus!
