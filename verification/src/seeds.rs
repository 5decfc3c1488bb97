//! The ops that bring memory into a graph: uploads, which are allocated once and
//! lent to every run, and plain allocations.

use crate::access::{access_flags, KernelAccess, ReadWrite};
use crate::error::{Error, OpResult};
use crate::exec_ctx::{kept, Driver, ExecMode, ExecutionContext, Walk};
use crate::input::Checkout;
use crate::leaf::{no_deps, single_obj};
use crate::leaves::{one_pipe, text_of, LeafNode};
use crate::obj::{is_svm, shares_memory, Class, Command, Contents, Extent, Home, HostRef, Obj, Reply};
use crate::store::{Pipe, Store, World};
use crate::text::{decimal, numbered};
use vstd::prelude::*;

verus! {

broadcast use crate::exec_ctx::lemma_kept_over, crate::store::group_fresh_ids;

/// What a seeded buffer is.
#[derive(Clone, Copy, Debug, PartialEq, Eq, Structural)]
pub enum SeedKind {
    /// A device buffer.
    Upload,
    /// A one-element device buffer.
    Scalar,
    /// Shared memory.
    Usm,
}

impl SeedKind {
    /// The family of the buffer.
    pub open spec fn class_spec(self) -> Class {
        if self == SeedKind::Usm {
            Class::Usm
        } else {
            Class::Device
        }
    }

    /// The family of the buffer.
    pub fn class(&self) -> (r: Class)
        ensures
            r == self.class_spec(),
    {
        match self {
            SeedKind::Usm => Class::Usm,
            _ => Class::Device,
        }
    }

    /// The answer when the buffer is still lent.
    pub fn busy(&self) -> (r: Error)
        ensures
            r == seed_busy(*self),
    {
        match self {
            SeedKind::Usm => Error::NotSupported(
                "eager graph: a `usm_slice` buffer was already lent and not returned — a graph is `sync`'d while a previous `Checkout` is still alive (the graph is busy)",
            ),
            SeedKind::Scalar => Error::NotSupported(
                "eager graph: a device-scalar upload buffer was already lent and not returned — a graph is `sync`'d while a previous `Checkout` is still alive (the graph is busy)",
            ),
            SeedKind::Upload => Error::NotSupported(
                "eager graph: an upload buffer was already lent and not returned — a graph is `sync`'d while a previous `Checkout` is still alive (the graph is busy)",
            ),
        }
    }
}

/// A buffer that is allocated from host data in the first run and lent again in
/// every later one.
#[derive(Clone, Copy, Debug)]
pub struct Seed {
    /// What is seeded.
    pub kind: SeedKind,
    /// The host data.
    pub src: HostRef,
    /// The cell that the buffer is owed to.
    pub buf: u64,
    /// Whether the host data is written again before each later run.
    pub reseed: bool,
    /// The creation flags of the buffer.
    pub flags: u64,
    pub out: Pipe,
}

/// The answer when a seeded buffer is still lent.
pub open spec fn seed_busy(kind: SeedKind) -> Error {
    match kind {
        SeedKind::Usm => Error::NotSupported(
            "eager graph: a `usm_slice` buffer was already lent and not returned — a graph is `sync`'d while a previous `Checkout` is still alive (the graph is busy)",
        ),
        SeedKind::Scalar => Error::NotSupported(
            "eager graph: a device-scalar upload buffer was already lent and not returned — a graph is `sync`'d while a previous `Checkout` is still alive (the graph is busy)",
        ),
        SeedKind::Upload => Error::NotSupported(
            "eager graph: an upload buffer was already lent and not returned — a graph is `sync`'d while a previous `Checkout` is still alive (the graph is busy)",
        ),
    }
}

/// The buffer that a first run allocates.
pub open spec fn seeded_obj(u: Seed, ctx: u64, id: u64) -> Obj {
    Obj {
        class: u.kind.class_spec(),
        id,
        ctx,
        extent: Extent { x: u.src.len, y: 1, z: 1 },
        len: u.src.len,
        bytes: u.src.bytes,
        shared: false,
    }
}

/// The command that writes the host data again.
pub open spec fn reseed_command(u: Seed, o: Obj) -> Command {
    if u.kind == SeedKind::Usm {
        Command::HostWrite { mem: o.mem_spec(), src: u.src }
    } else {
        Command::Write { mem: o.mem_spec(), src: u.src, blocking: true }
    }
}

/// Waiting until events from index `i` on have finished: `qs` holds the answers.
pub open spec fn waited_out(evs: Seq<u64>, i: nat, s: Walk, qs: Seq<Reply>) -> (Walk, OpResult<()>)
    decreases evs.len() - i,
{
    if i >= evs.len() {
        (s, Ok(()))
    } else {
        let t = s.issued(Command::Wait { event: evs[i as int] }, Seq::empty(), qs[i as int]);
        match qs[i as int] {
            Err(c) => (t, Err(Error::OpenCl(c))),
            Ok(_) => waited_out(evs, i + 1, t, qs),
        }
    }
}

/// Writing the host data of a seeded buffer again, once the launches that use its
/// memory have ended: `qs` answers the waits for them, `r1` the write.
pub open spec fn reseeded(u: Seed, o: Obj, s: Walk, qs: Seq<Reply>, r1: Reply) -> (Walk, OpResult<()>) {
    let (t, r) = waited_out(s.w.busy_until(o.mem_spec()), 0, s, qs);
    match r {
        Err(e) => (t, Err(e)),
        Ok(_) => (
            t.at(t.w.settled(o.mem_spec())).issued(reseed_command(u, o), Seq::empty(), r1),
            match r1 {
                Err(c) => Err(Error::OpenCl(c)),
                Ok(_) => Ok(()),
            },
        ),
    }
}

/// One run of a seeded buffer: `qs` answers the waits for the launches that use its
/// memory, `r1` the allocation, or the write of the host data.
pub open spec fn seed_after(u: Seed, pre: Walk, qs: Seq<Reply>, r1: Reply) -> (Walk, OpResult<()>) {
    let s = pre.at(pre.w.lent(u.buf));
    let home = Some(Home::Cell(u.buf));
    match pre.w.held(u.buf) {
        Some(o) => if u.reseed {
            let (t, r) = reseeded(u, o, s, qs, r1);
            match r {
                Err(e) => (t, Err(e)),
                Ok(_) => (t.put(u.out.cell, seq![o], Seq::empty(), home), Ok(())),
            }
        } else {
            (s.put(u.out.cell, seq![o], Seq::empty(), home), Ok(()))
        },
        None => if pre.w.is_seeded(u.buf) {
            (s, Err(seed_busy(u.kind)))
        } else if is_svm(u.kind.class_spec()) && !pre.has_svm {
            (s, Err(Error::SvmNotAvailable))
        } else {
            let t = s.issued(
                Command::Alloc {
                    class: u.kind.class_spec(),
                    len: u.src.len,
                    bytes: u.src.bytes,
                    flags: u.flags,
                    contents: Contents::From(u.src),
                },
                Seq::empty(),
                r1,
            );
            match r1 {
                Err(c) => (t, Err(Error::OpenCl(c))),
                Ok(h) => (
                    t.at(World { seeded: t.w.seeded.insert(u.buf), ..t.w }).put(
                        u.out.cell,
                        seq![seeded_obj(u, pre.context, h)],
                        Seq::empty(),
                        home,
                    ),
                    Ok(()),
                ),
            }
        },
    }
}

proof fn lemma_same_answers(evs: Seq<u64>, i: nat, s: Walk, qs: Seq<Reply>, ps: Seq<Reply>)
    requires
        forall|k: int| i <= k < evs.len() ==> qs[k] == #[trigger] ps[k],
    ensures
        waited_out(evs, i, s, qs) == waited_out(evs, i, s, ps),
    decreases evs.len() - i,
{
    if i < evs.len() {
        assert(qs[i as int] == ps[i as int]);
        let t = s.issued(Command::Wait { event: evs[i as int] }, Seq::empty(), qs[i as int]);
        lemma_same_answers(evs, i + 1, t, qs, ps);
    }
}

/// Whether a run went on by waits alone.
pub open spec fn only_waits(s: Walk, t: Walk) -> bool {
    &&& t == (Walk { trace: t.trace, ..s })
    &&& s.trace.len() <= t.trace.len()
    &&& forall|k: int| 0 <= k < s.trace.len() ==> s.trace[k] == #[trigger] t.trace[k]
    &&& forall|k: int| s.trace.len() <= k < t.trace.len() ==> (#[trigger] t.trace[k]).command is Wait
}

/// Whether command `k` of a run is a wait for `ev` that succeeded.
pub open spec fn waits_for(t: Walk, k: int, ev: u64) -> bool {
    &&& 0 <= k < t.trace.len()
    &&& t.trace[k].command == (Command::Wait { event: ev })
    &&& t.trace[k].reply is Ok
}

/// Waiting for events issues waits alone, one for each event where all succeed.
pub proof fn lemma_waits_alone(evs: Seq<u64>, i: nat, s: Walk, qs: Seq<Reply>)
    requires
        i <= evs.len(),
    ensures
        only_waits(s, waited_out(evs, i, s, qs).0),
        waited_out(evs, i, s, qs).1 is Ok ==> waited_out(evs, i, s, qs).0.trace.len() == s.trace.len() + (evs.len()
            - i),
        waited_out(evs, i, s, qs).1 is Ok ==> forall|k: int|
            i <= k < evs.len() ==> waits_for(waited_out(evs, i, s, qs).0, s.trace.len() + k - i, #[trigger] evs[k]),
    decreases evs.len() - i,
{
    if i < evs.len() {
        let t = s.issued(Command::Wait { event: evs[i as int] }, Seq::empty(), qs[i as int]);
        if qs[i as int] is Ok {
            lemma_waits_alone(evs, i + 1, t, qs);
            let (u, r) = waited_out(evs, i, s, qs);
            assert forall|k: int| 0 <= k < s.trace.len() implies s.trace[k] == #[trigger] u.trace[k] by {
                assert(t.trace[k] == u.trace[k]);
            }
            assert(t.trace[s.trace.len() as int] == u.trace[s.trace.len() as int]);
            if r is Ok {
                assert forall|k: int| i <= k < evs.len() implies waits_for(
                    u,
                    s.trace.len() + k - i,
                    #[trigger] evs[k],
                ) by {
                    if k > i {
                        assert(waits_for(u, t.trace.len() + k - (i + 1), evs[k]));
                    }
                }
            }
        }
    }
}

/// Wait until the events from index `i` on have finished.
fn wait_from<D: Driver>(evs: &Vec<u64>, i: usize, ec: &mut ExecutionContext<D>) -> (r: OpResult<()>)
    requires
        i <= evs.len(),
    ensures
        exists|qs: Seq<Reply>| (#[trigger] waited_out(evs@, i as nat, old(ec)@, qs)) == (final(ec)@, r),
        kept(old(ec)@, final(ec)@),
    decreases evs.len() - i,
{
    let ghost pre = ec@;
    if i >= evs.len() {
        assert(waited_out(evs@, i as nat, pre, Seq::empty()) == (ec@, Ok::<(), Error>(())));
        return Ok(());
    }
    let q: Reply = ec.issue(Command::Wait { event: evs[i] }, &no_deps());
    let ghost t = ec@;
    if let Err(c) = q {
        let ghost qs = Seq::new(evs@.len(), |k: int| q);
        assert(waited_out(evs@, i as nat, pre, qs).0 == ec@);
        return Err(Error::OpenCl(c));
    }
    let r: OpResult<()> = wait_from(evs, i + 1, ec);
    proof {
        let ps = choose|ps: Seq<Reply>| (#[trigger] waited_out(evs@, (i + 1) as nat, t, ps)) == (ec@, r);
        let qs = Seq::new(
            evs@.len(),
            |k: int|
                if k == i {
                    q
                } else {
                    ps[k]
                },
        );
        lemma_same_answers(evs@, (i + 1) as nat, t, qs, ps);
        assert(qs[i as int] == q);
        assert(waited_out(evs@, i as nat, pre, qs) == (ec@, r));
    }
    r
}

impl Seed {
    /// A seeded buffer that was not allocated yet.
    fn fresh(st: &mut Store, kind: SeedKind, src: HostRef, reseed: bool, flags: u64) -> (r: Seed)
        requires
            old(st)@.next + 2 <= u64::MAX,
        ensures
            r == (Seed {
                kind,
                src,
                buf: old(st)@.next,
                reseed,
                flags,
                out: Pipe { cell: (old(st)@.next + 1) as u64 },
            }),
            final(st)@ == old(st)@.fresh_ids(2nat),
    {
        let buf: u64 = st.fresh();
        let out = st.pipe();
        Seed { kind, src, buf, reseed, flags, out }
    }

    fn write_again<D: Driver>(&self, o: &Obj, ec: &mut ExecutionContext<D>) -> (r: OpResult<()>)
        ensures
            exists|qs: Seq<Reply>, r1: Reply| (#[trigger] reseeded(*self, *o, old(ec)@, qs, r1)) == (final(ec)@, r),
            kept(old(ec)@, final(ec)@),
    {
        let ghost s = ec@;
        let ghost no: Reply = Err(0);
        let evs: Vec<u64> = ec.store().busy(o.mem());
        let r: OpResult<()> = wait_from(&evs, 0, ec);
        let ghost qs = choose|qs: Seq<Reply>| (#[trigger] waited_out(evs@, 0, s, qs)) == (ec@, r);
        if let Err(e) = r {
            assert(reseeded(*self, *o, s, qs, no).0 == ec@);
            return Err(e);
        }
        ec.settle(o.mem());
        let again = if matches!(self.kind, SeedKind::Usm) {
            Command::HostWrite { mem: o.mem(), src: self.src }
        } else {
            Command::Write { mem: o.mem(), src: self.src, blocking: true }
        };
        let r1: Reply = ec.issue(again, &no_deps());
        assert(reseeded(*self, *o, s, qs, r1).0 == ec@);
        match r1 {
            Err(c) => Err(Error::OpenCl(c)),
            Ok(_) => Ok(()),
        }
    }

    fn run<D: Driver>(&self, ec: &mut ExecutionContext<D>) -> (r: OpResult<()>)
        ensures
            exists|qs: Seq<Reply>, r1: Reply| (#[trigger] seed_after(*self, old(ec)@, qs, r1)) == (final(ec)@, r),
            kept(old(ec)@, final(ec)@),
    {
        let ghost pre = ec@;
        let ghost no: Reply = Err(0);
        let seeded: bool = ec.store().is_seeded(self.buf);
        let home = Some(Home::Cell(self.buf));
        match ec.lend(self.buf) {
            Some(o) => {
                if self.reseed {
                    let ghost s = ec@;
                    let r: OpResult<()> = self.write_again(&o, ec);
                    let ghost (qs, r1) = choose|qs: Seq<Reply>, r1: Reply|
                        (#[trigger] reseeded(*self, o, s, qs, r1)) == (ec@, r);
                    if let Err(e) = r {
                        assert(seed_after(*self, pre, qs, r1).0 == ec@);
                        return Err(e);
                    }
                    ec.put_home(&self.out, single_obj(o), no_deps(), home);
                    assert(seed_after(*self, pre, qs, r1).0 == ec@);
                } else {
                    ec.put_home(&self.out, single_obj(o), no_deps(), home);
                    assert(seed_after(*self, pre, Seq::empty(), no).0 == ec@);
                }
                Ok(())
            },
            None => {
                if seeded {
                    assert(seed_after(*self, pre, Seq::empty(), no).0 == ec@);
                    return Err(self.kind.busy());
                }
                if shares_memory(self.kind.class()) && !ec.has_svm() {
                    assert(seed_after(*self, pre, Seq::empty(), no).0 == ec@);
                    return Err(Error::SvmNotAvailable);
                }
                let r1: Reply = ec.issue(
                    Command::Alloc {
                        class: self.kind.class(),
                        len: self.src.len,
                        bytes: self.src.bytes,
                        flags: self.flags,
                        contents: Contents::From(self.src),
                    },
                    &no_deps(),
                );
                match r1 {
                    Err(c) => {
                        assert(seed_after(*self, pre, Seq::empty(), r1).0 == ec@);
                        Err(Error::OpenCl(c))
                    },
                    Ok(h) => {
                        ec.mark_seeded(self.buf);
                        let o = Obj {
                            class: self.kind.class(),
                            id: h,
                            ctx: ec.context(),
                            extent: Extent { x: self.src.len, y: 1, z: 1 },
                            len: self.src.len,
                            bytes: self.src.bytes,
                            shared: false,
                        };
                        ec.put_home(&self.out, single_obj(o), no_deps(), home);
                        assert(seed_after(*self, pre, Seq::empty(), r1).0 == ec@);
                        Ok(())
                    },
                }
            },
        }
    }
}

/// Allocate a device buffer from host data once and lend it to every run.
#[derive(Clone, Copy, Debug)]
pub struct Upload {
    pub seed: Seed,
}

/// A device buffer with the contents of `src`.
pub fn upload(st: &mut Store, src: HostRef) -> (r: Upload)
    requires
        old(st)@.next + 2 <= u64::MAX,
    ensures
        r.seed == (Seed {
            kind: SeedKind::Upload,
            src: src,
            buf: old(st)@.next,
            reseed: true,
            flags: access_flags(true, true),
            out: Pipe { cell: (old(st)@.next + 1) as u64 },
        }),
        final(st)@ == old(st)@.fresh_ids(2nat),
{
    upload_as(st, src, ReadWrite)
}

/// A device buffer with the contents of `src`, with the access that `marker` stands for: what
/// kernels may write is written again before each later run.
pub fn upload_as<M: KernelAccess>(st: &mut Store, src: HostRef, marker: M) -> (r: Upload)
    requires
        old(st)@.next + 2 <= u64::MAX,
    ensures
        r.seed == (Seed {
            kind: SeedKind::Upload,
            src: src,
            buf: old(st)@.next,
            reseed: M::writes(),
            flags: access_flags(M::reads(), M::writes()),
            out: Pipe { cell: (old(st)@.next + 1) as u64 },
        }),
        final(st)@ == old(st)@.fresh_ids(2nat),
{
    Upload { seed: Seed::fresh(st, SeedKind::Upload, src, M::reseed_on_replay(), M::kernel_flags()) }
}

impl LeafNode for Upload {
    open spec fn outs(&self) -> Seq<Pipe> {
        seq![self.seed.out]
    }

    open spec fn label(&self) -> Seq<char> {
        "upload"@
    }

    open spec fn ready(&self, w: World) -> OpResult<()> {
        Ok(())
    }

    open spec fn runs(&self, pre: Walk, post: Walk, mode: ExecMode, res: OpResult<()>) -> bool {
        exists|qs: Seq<Reply>, r1: Reply| (#[trigger] seed_after(self.seed, pre, qs, r1)) == (post, res)
    }

    fn pipes(&self) -> (r: Vec<Pipe>) {
        one_pipe(self.seed.out)
    }

    fn describe(&self) -> (r: String) {
        text_of("upload")
    }

    fn check_ready(&self, st: &Store) -> (r: OpResult<()>) {
        Ok(())
    }

    fn execute<D: Driver>(&self, ec: &mut ExecutionContext<D>, mode: ExecMode) -> (r: OpResult<()>) {
        self.seed.run(ec)
    }
}

/// Allocate a one-element device buffer once and lend it to every run.
#[derive(Clone, Copy, Debug)]
pub struct ScalarUpload {
    pub seed: Seed,
}

/// A one-element device buffer that holds `value`.
pub fn scalar_value(st: &mut Store, value: HostRef) -> (r: ScalarUpload)
    requires
        old(st)@.next + 2 <= u64::MAX,
    ensures
        r.seed == (Seed {
            kind: SeedKind::Scalar,
            src: value,
            buf: old(st)@.next,
            reseed: true,
            flags: access_flags(true, true),
            out: Pipe { cell: (old(st)@.next + 1) as u64 },
        }),
        final(st)@ == old(st)@.fresh_ids(2nat),
{
    scalar_value_as(st, value, ReadWrite)
}

/// A one-element device buffer that holds `value`, with the access that `marker` stands for: what
/// kernels may write is written again before each later run.
pub fn scalar_value_as<M: KernelAccess>(st: &mut Store, value: HostRef, marker: M) -> (r: ScalarUpload)
    requires
        old(st)@.next + 2 <= u64::MAX,
    ensures
        r.seed == (Seed {
            kind: SeedKind::Scalar,
            src: value,
            buf: old(st)@.next,
            reseed: M::writes(),
            flags: access_flags(M::reads(), M::writes()),
            out: Pipe { cell: (old(st)@.next + 1) as u64 },
        }),
        final(st)@ == old(st)@.fresh_ids(2nat),
{
    ScalarUpload { seed: Seed::fresh(st, SeedKind::Scalar, value, M::reseed_on_replay(), M::kernel_flags()) }
}

impl LeafNode for ScalarUpload {
    open spec fn outs(&self) -> Seq<Pipe> {
        seq![self.seed.out]
    }

    open spec fn label(&self) -> Seq<char> {
        "scalar_value"@
    }

    open spec fn ready(&self, w: World) -> OpResult<()> {
        Ok(())
    }

    open spec fn runs(&self, pre: Walk, post: Walk, mode: ExecMode, res: OpResult<()>) -> bool {
        exists|qs: Seq<Reply>, r1: Reply| (#[trigger] seed_after(self.seed, pre, qs, r1)) == (post, res)
    }

    fn pipes(&self) -> (r: Vec<Pipe>) {
        one_pipe(self.seed.out)
    }

    fn describe(&self) -> (r: String) {
        text_of("scalar_value")
    }

    fn check_ready(&self, st: &Store) -> (r: OpResult<()>) {
        Ok(())
    }

    fn execute<D: Driver>(&self, ec: &mut ExecutionContext<D>, mode: ExecMode) -> (r: OpResult<()>) {
        self.seed.run(ec)
    }
}

/// Take a host vector as shared memory once and lend it to every run.
#[derive(Clone, Copy, Debug)]
pub struct UsmSlice {
    pub seed: Seed,
}

/// Shared memory with the contents of `data`.
pub fn usm_slice(st: &mut Store, data: HostRef) -> (r: UsmSlice)
    requires
        old(st)@.next + 2 <= u64::MAX,
    ensures
        r.seed == (Seed {
            kind: SeedKind::Usm,
            src: data,
            buf: old(st)@.next,
            reseed: true,
            flags: access_flags(true, true),
            out: Pipe { cell: (old(st)@.next + 1) as u64 },
        }),
        final(st)@ == old(st)@.fresh_ids(2nat),
{
    usm_slice_as(st, data, ReadWrite)
}

/// Shared memory with the contents of `data`, with the access that `marker` stands for: what
/// kernels may write is written again before each later run.
pub fn usm_slice_as<M: KernelAccess>(st: &mut Store, data: HostRef, marker: M) -> (r: UsmSlice)
    requires
        old(st)@.next + 2 <= u64::MAX,
    ensures
        r.seed == (Seed {
            kind: SeedKind::Usm,
            src: data,
            buf: old(st)@.next,
            reseed: M::writes(),
            flags: access_flags(M::reads(), M::writes()),
            out: Pipe { cell: (old(st)@.next + 1) as u64 },
        }),
        final(st)@ == old(st)@.fresh_ids(2nat),
{
    UsmSlice { seed: Seed::fresh(st, SeedKind::Usm, data, M::reseed_on_replay(), M::kernel_flags()) }
}

impl LeafNode for UsmSlice {
    open spec fn outs(&self) -> Seq<Pipe> {
        seq![self.seed.out]
    }

    open spec fn label(&self) -> Seq<char> {
        "usm_slice"@
    }

    open spec fn ready(&self, w: World) -> OpResult<()> {
        Ok(())
    }

    open spec fn runs(&self, pre: Walk, post: Walk, mode: ExecMode, res: OpResult<()>) -> bool {
        exists|qs: Seq<Reply>, r1: Reply| (#[trigger] seed_after(self.seed, pre, qs, r1)) == (post, res)
    }

    fn pipes(&self) -> (r: Vec<Pipe>) {
        one_pipe(self.seed.out)
    }

    fn describe(&self) -> (r: String) {
        text_of("usm_slice")
    }

    fn check_ready(&self, st: &Store) -> (r: OpResult<()>) {
        Ok(())
    }

    fn execute<D: Driver>(&self, ec: &mut ExecutionContext<D>, mode: ExecMode) -> (r: OpResult<()>) {
        self.seed.run(ec)
    }
}

/// A one-element device buffer that holds the zero of its type.
#[derive(Clone, Copy, Debug)]
pub struct ScalarZero {
    pub inner: ScalarUpload,
}

/// A one-element device buffer that holds the zero value `zero`.
pub fn scalar_zero(st: &mut Store, zero: HostRef) -> (r: ScalarZero)
    requires
        old(st)@.next + 2 <= u64::MAX,
    ensures
        r.inner.seed == (Seed {
            kind: SeedKind::Scalar,
            src: zero,
            buf: old(st)@.next,
            reseed: true,
            flags: access_flags(true, true),
            out: Pipe { cell: (old(st)@.next + 1) as u64 },
        }),
        final(st)@ == old(st)@.fresh_ids(2nat),
{
    ScalarZero { inner: scalar_value_as(st, zero, ReadWrite) }
}

/// A one-element device buffer that holds the zero value `zero`, with the
/// access that `marker` stands for.
pub fn scalar_zero_as<M: KernelAccess>(st: &mut Store, zero: HostRef, marker: M) -> (r: ScalarZero)
    requires
        old(st)@.next + 2 <= u64::MAX,
    ensures
        r.inner.seed == (Seed {
            kind: SeedKind::Scalar,
            src: zero,
            buf: old(st)@.next,
            reseed: M::writes(),
            flags: access_flags(M::reads(), M::writes()),
            out: Pipe { cell: (old(st)@.next + 1) as u64 },
        }),
        final(st)@ == old(st)@.fresh_ids(2nat),
{
    ScalarZero { inner: scalar_value_as(st, zero, marker) }
}

impl LeafNode for ScalarZero {
    open spec fn outs(&self) -> Seq<Pipe> {
        seq![self.inner.seed.out]
    }

    open spec fn label(&self) -> Seq<char> {
        "scalar_zero"@
    }

    open spec fn ready(&self, w: World) -> OpResult<()> {
        Ok(())
    }

    open spec fn runs(&self, pre: Walk, post: Walk, mode: ExecMode, res: OpResult<()>) -> bool {
        self.inner.runs(pre, post, mode, res)
    }

    fn pipes(&self) -> (r: Vec<Pipe>) {
        one_pipe(self.inner.seed.out)
    }

    fn describe(&self) -> (r: String) {
        text_of("scalar_zero")
    }

    fn check_ready(&self, st: &Store) -> (r: OpResult<()>) {
        Ok(())
    }

    fn execute<D: Driver>(&self, ec: &mut ExecutionContext<D>, mode: ExecMode) -> (r: OpResult<()>) {
        self.inner.execute(ec, mode)
    }
}

/// One run of an allocation: `r1` answers it. Shared memory needs a device that
/// has it.
pub open spec fn alloc_after(
    pre: Walk,
    class: Class,
    len: usize,
    bytes: usize,
    flags: u64,
    contents: Contents,
    out: Pipe,
    r1: Reply,
) -> (Walk, OpResult<()>) {
    if is_svm(class) && !pre.has_svm {
        (pre, Err(Error::SvmNotAvailable))
    } else {
        let t = pre.issued(Command::Alloc { class, len, bytes, flags, contents }, Seq::empty(), r1);
        match r1 {
            Err(c) => (t, Err(Error::OpenCl(c))),
            Ok(h) => (
                t.put(
                    out.cell,
                    seq![
                        Obj {
                            class,
                            id: h,
                            ctx: pre.context,
                            extent: Extent { x: len, y: 1, z: 1 },
                            len,
                            bytes,
                            shared: false,
                        },
                    ],
                    Seq::empty(),
                    None,
                ),
                Ok(()),
            ),
        }
    }
}

fn run_alloc<D: Driver>(
    ec: &mut ExecutionContext<D>,
    class: Class,
    len: usize,
    bytes: usize,
    flags: u64,
    contents: Contents,
    out: &Pipe,
) -> (r: OpResult<()>)
    ensures
        exists|r1: Reply|
            (#[trigger] alloc_after(old(ec)@, class, len, bytes, flags, contents, *out, r1)) == (final(ec)@, r),
        kept(old(ec)@, final(ec)@),
{
    let ghost pre = ec@;
    if shares_memory(class) && !ec.has_svm() {
        assert(alloc_after(pre, class, len, bytes, flags, contents, *out, Err(0)).0 == ec@);
        return Err(Error::SvmNotAvailable);
    }
    let r1: Reply = ec.issue(Command::Alloc { class, len, bytes, flags, contents }, &no_deps());
    match r1 {
        Err(c) => {
            assert(alloc_after(pre, class, len, bytes, flags, contents, *out, r1).0 == ec@);
            Err(Error::OpenCl(c))
        },
        Ok(h) => {
            let o = Obj {
                class,
                id: h,
                ctx: ec.context(),
                extent: Extent { x: len, y: 1, z: 1 },
                len,
                bytes,
                shared: false,
            };
            ec.put_home(out, single_obj(o), no_deps(), None);
            assert(alloc_after(pre, class, len, bytes, flags, contents, *out, r1).0 == ec@);
            Ok(())
        },
    }
}

/// Allocate a device buffer of zeros in every run.
#[derive(Clone, Copy, Debug)]
pub struct AllocZero {
    pub len: usize,
    pub bytes: usize,
    /// The creation flags of the memory.
    pub flags: u64,
    pub out: Pipe,
}

/// Allocate a device buffer of zeros in every run: `len` elements of `elem` bytes.
pub fn alloc_zero(st: &mut Store, len: usize, elem: usize) -> (r: AllocZero)
    requires
        old(st)@.next + 1 <= u64::MAX,
        len * elem <= usize::MAX,
    ensures
        r.len == len,
        r.bytes == len * elem,
        r.flags == access_flags(true, true),
        r.out.cell == old(st)@.next,
        final(st)@ == old(st)@.fresh_ids(1nat),
{
    alloc_zero_as(st, len, elem, ReadWrite)
}

/// Allocate a device buffer of zeros in every run, with the access that `marker` stands for.
pub fn alloc_zero_as<M: KernelAccess>(st: &mut Store, len: usize, elem: usize, marker: M) -> (r: AllocZero)
    requires
        old(st)@.next + 1 <= u64::MAX,
        len * elem <= usize::MAX,
    ensures
        r.len == len,
        r.bytes == len * elem,
        r.flags == access_flags(M::reads(), M::writes()),
        r.out.cell == old(st)@.next,
        final(st)@ == old(st)@.fresh_ids(1nat),
{
    AllocZero { len, bytes: len * elem, flags: M::kernel_flags(), out: st.pipe() }
}

impl LeafNode for AllocZero {
    open spec fn outs(&self) -> Seq<Pipe> {
        seq![self.out]
    }

    open spec fn label(&self) -> Seq<char> {
        "alloc_zero(len="@ + decimal(self.len as nat) + ")"@
    }

    open spec fn ready(&self, w: World) -> OpResult<()> {
        Ok(())
    }

    open spec fn runs(&self, pre: Walk, post: Walk, mode: ExecMode, res: OpResult<()>) -> bool {
        exists|r1: Reply|
            (#[trigger] alloc_after(pre, Class::Device, self.len, self.bytes, self.flags, Contents::Zero, self.out, r1)) == (post, res)
    }

    fn pipes(&self) -> (r: Vec<Pipe>) {
        one_pipe(self.out)
    }

    fn describe(&self) -> (r: String) {
        numbered("alloc_zero(len=", self.len, ")")
    }

    fn check_ready(&self, st: &Store) -> (r: OpResult<()>) {
        Ok(())
    }

    fn execute<D: Driver>(&self, ec: &mut ExecutionContext<D>, mode: ExecMode) -> (r: OpResult<()>) {
        run_alloc(ec, Class::Device, self.len, self.bytes, self.flags, Contents::Zero, &self.out)
    }
}

/// Allocate unwritten device memory in every run.
#[derive(Clone, Copy, Debug)]
pub struct DeviceAllocUninit {
    pub len: usize,
    pub bytes: usize,
    /// The creation flags of the memory.
    pub flags: u64,
    pub out: Pipe,
}

/// Allocate unwritten device memory in every run: `len` elements of `elem` bytes.
pub fn device_alloc_uninit(st: &mut Store, len: usize, elem: usize) -> (r: DeviceAllocUninit)
    requires
        old(st)@.next + 1 <= u64::MAX,
        len * elem <= usize::MAX,
    ensures
        r.len == len,
        r.bytes == len * elem,
        r.flags == access_flags(true, true),
        r.out.cell == old(st)@.next,
        final(st)@ == old(st)@.fresh_ids(1nat),
{
    device_alloc_uninit_as(st, len, elem, ReadWrite)
}

/// Allocate unwritten device memory in every run, with the access that `marker` stands for.
pub fn device_alloc_uninit_as<M: KernelAccess>(st: &mut Store, len: usize, elem: usize, marker: M) -> (r: DeviceAllocUninit)
    requires
        old(st)@.next + 1 <= u64::MAX,
        len * elem <= usize::MAX,
    ensures
        r.len == len,
        r.bytes == len * elem,
        r.flags == access_flags(M::reads(), M::writes()),
        r.out.cell == old(st)@.next,
        final(st)@ == old(st)@.fresh_ids(1nat),
{
    DeviceAllocUninit { len, bytes: len * elem, flags: M::kernel_flags(), out: st.pipe() }
}

impl LeafNode for DeviceAllocUninit {
    open spec fn outs(&self) -> Seq<Pipe> {
        seq![self.out]
    }

    open spec fn label(&self) -> Seq<char> {
        "device_alloc_uninit(len="@ + decimal(self.len as nat) + ")"@
    }

    open spec fn ready(&self, w: World) -> OpResult<()> {
        Ok(())
    }

    open spec fn runs(&self, pre: Walk, post: Walk, mode: ExecMode, res: OpResult<()>) -> bool {
        exists|r1: Reply|
            (#[trigger] alloc_after(pre, Class::DeviceUninit, self.len, self.bytes, self.flags, Contents::Unwritten, self.out, r1)) == (post, res)
    }

    fn pipes(&self) -> (r: Vec<Pipe>) {
        one_pipe(self.out)
    }

    fn describe(&self) -> (r: String) {
        numbered("device_alloc_uninit(len=", self.len, ")")
    }

    fn check_ready(&self, st: &Store) -> (r: OpResult<()>) {
        Ok(())
    }

    fn execute<D: Driver>(&self, ec: &mut ExecutionContext<D>, mode: ExecMode) -> (r: OpResult<()>) {
        run_alloc(ec, Class::DeviceUninit, self.len, self.bytes, self.flags, Contents::Unwritten, &self.out)
    }
}

/// Allocate unwritten mapped memory in every run.
#[derive(Clone, Copy, Debug)]
pub struct MappedAllocUninit {
    pub len: usize,
    pub bytes: usize,
    /// The creation flags of the memory.
    pub flags: u64,
    pub out: Pipe,
}

/// Allocate unwritten mapped memory in every run: `len` elements of `elem` bytes.
pub fn mapped_alloc_uninit(st: &mut Store, len: usize, elem: usize) -> (r: MappedAllocUninit)
    requires
        old(st)@.next + 1 <= u64::MAX,
        len * elem <= usize::MAX,
    ensures
        r.len == len,
        r.bytes == len * elem,
        r.flags == access_flags(true, true),
        r.out.cell == old(st)@.next,
        final(st)@ == old(st)@.fresh_ids(1nat),
{
    mapped_alloc_uninit_as(st, len, elem, ReadWrite)
}

/// Allocate unwritten mapped memory in every run, with the access that `marker` stands for.
pub fn mapped_alloc_uninit_as<M: KernelAccess>(st: &mut Store, len: usize, elem: usize, marker: M) -> (r: MappedAllocUninit)
    requires
        old(st)@.next + 1 <= u64::MAX,
        len * elem <= usize::MAX,
    ensures
        r.len == len,
        r.bytes == len * elem,
        r.flags == access_flags(M::reads(), M::writes()),
        r.out.cell == old(st)@.next,
        final(st)@ == old(st)@.fresh_ids(1nat),
{
    MappedAllocUninit { len, bytes: len * elem, flags: M::kernel_flags(), out: st.pipe() }
}

impl LeafNode for MappedAllocUninit {
    open spec fn outs(&self) -> Seq<Pipe> {
        seq![self.out]
    }

    open spec fn label(&self) -> Seq<char> {
        "mapped_alloc_uninit(len="@ + decimal(self.len as nat) + ")"@
    }

    open spec fn ready(&self, w: World) -> OpResult<()> {
        Ok(())
    }

    open spec fn runs(&self, pre: Walk, post: Walk, mode: ExecMode, res: OpResult<()>) -> bool {
        exists|r1: Reply|
            (#[trigger] alloc_after(pre, Class::MappedUninit, self.len, self.bytes, self.flags, Contents::Unwritten, self.out, r1)) == (post, res)
    }

    fn pipes(&self) -> (r: Vec<Pipe>) {
        one_pipe(self.out)
    }

    fn describe(&self) -> (r: String) {
        numbered("mapped_alloc_uninit(len=", self.len, ")")
    }

    fn check_ready(&self, st: &Store) -> (r: OpResult<()>) {
        Ok(())
    }

    fn execute<D: Driver>(&self, ec: &mut ExecutionContext<D>, mode: ExecMode) -> (r: OpResult<()>) {
        run_alloc(ec, Class::MappedUninit, self.len, self.bytes, self.flags, Contents::Unwritten, &self.out)
    }
}

/// Allocate unwritten shared memory in every run.
#[derive(Clone, Copy, Debug)]
pub struct UsmAllocUninit {
    pub len: usize,
    pub bytes: usize,
    /// The creation flags of the memory.
    pub flags: u64,
    pub out: Pipe,
}

/// Allocate unwritten shared memory in every run: `len` elements of `elem` bytes.
pub fn usm_alloc_uninit(st: &mut Store, len: usize, elem: usize) -> (r: UsmAllocUninit)
    requires
        old(st)@.next + 1 <= u64::MAX,
        len * elem <= usize::MAX,
    ensures
        r.len == len,
        r.bytes == len * elem,
        r.flags == access_flags(true, true),
        r.out.cell == old(st)@.next,
        final(st)@ == old(st)@.fresh_ids(1nat),
{
    usm_alloc_uninit_as(st, len, elem, ReadWrite)
}

/// Allocate unwritten shared memory in every run, with the access that `marker` stands for.
pub fn usm_alloc_uninit_as<M: KernelAccess>(st: &mut Store, len: usize, elem: usize, marker: M) -> (r: UsmAllocUninit)
    requires
        old(st)@.next + 1 <= u64::MAX,
        len * elem <= usize::MAX,
    ensures
        r.len == len,
        r.bytes == len * elem,
        r.flags == access_flags(M::reads(), M::writes()),
        r.out.cell == old(st)@.next,
        final(st)@ == old(st)@.fresh_ids(1nat),
{
    UsmAllocUninit { len, bytes: len * elem, flags: M::kernel_flags(), out: st.pipe() }
}

impl LeafNode for UsmAllocUninit {
    open spec fn outs(&self) -> Seq<Pipe> {
        seq![self.out]
    }

    open spec fn label(&self) -> Seq<char> {
        "usm_alloc_uninit(len="@ + decimal(self.len as nat) + ")"@
    }

    open spec fn ready(&self, w: World) -> OpResult<()> {
        Ok(())
    }

    open spec fn runs(&self, pre: Walk, post: Walk, mode: ExecMode, res: OpResult<()>) -> bool {
        exists|r1: Reply|
            (#[trigger] alloc_after(pre, Class::UsmUninit, self.len, self.bytes, self.flags, Contents::Unwritten, self.out, r1)) == (post, res)
    }

    fn pipes(&self) -> (r: Vec<Pipe>) {
        one_pipe(self.out)
    }

    fn describe(&self) -> (r: String) {
        numbered("usm_alloc_uninit(len=", self.len, ")")
    }

    fn check_ready(&self, st: &Store) -> (r: OpResult<()>) {
        Ok(())
    }

    fn execute<D: Driver>(&self, ec: &mut ExecutionContext<D>, mode: ExecMode) -> (r: OpResult<()>) {
        run_alloc(ec, Class::UsmUninit, self.len, self.bytes, self.flags, Contents::Unwritten, &self.out)
    }
}

} // verus!
