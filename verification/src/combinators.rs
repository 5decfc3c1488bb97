//! Building graphs out of ops.

use crate::cb::{new_cb_cache, CbCache};
use crate::graph::{
    outs_of, AndThen, AndThenHost, AndThenHostWithContext, Arced, ArcSplit, Bundle, DeviceDynOp, DeviceOp, FanOut,
    OnDevice, Profiled,
};
use crate::leaves::DeviceTarget;
use crate::store::{Pipe, Store};
use vstd::prelude::*;

verus! {

broadcast use crate::store::group_fresh_ids;

/// `n` fresh pipes from identity `from` on.
pub open spec fn fresh_pipes(from: u64, n: nat) -> Seq<Pipe> {
    Seq::new(n, |i: int| Pipe { cell: (from + i) as u64 })
}

fn take_pipes(st: &mut Store, n: usize) -> (r: Vec<Pipe>)
    requires
        old(st)@.next + n <= u64::MAX,
    ensures
        r@ == fresh_pipes(old(st)@.next, n as nat),
        final(st)@ == old(st)@.fresh_ids(n as nat),
{
    let mut v: Vec<Pipe> = Vec::new();
    let mut i: usize = 0;
    let ghost from = st@.next;
    assert(st@ =~= old(st)@.fresh_ids(0nat));
    while i < n
        invariant
            i <= n,
            from == old(st)@.next,
            from + n <= u64::MAX,
            v@ =~= fresh_pipes(from, i as nat),
            st@ == old(st)@.fresh_ids(i as nat),
        decreases n - i,
    {
        v.push(st.pipe());
        i = i + 1;
    }
    v
}

impl AndThen {
    /// `source`, then `next`.
    pub fn new(st: &mut Store, source: DeviceOp, next: DeviceOp) -> (r: AndThen)
        requires
            old(st)@.next < u64::MAX,
        ensures
            r == (AndThen { source, next, cb_cache: old(st)@.next }),
            final(st)@ == old(st)@.fresh_ids(1nat),
    {
        AndThen { source, next, cb_cache: new_cb_cache(st) }
    }
}

/// Share the output of `source`, read-only.
pub fn arced(st: &mut Store, source: DeviceOp) -> (r: Arced)
    requires
        old(st)@.next + 2 <= u64::MAX,
    ensures
        r == (Arced {
            source,
            out: Pipe { cell: old(st)@.next },
            cb_cache: (old(st)@.next + 1) as u64,
        }),
        final(st)@ == old(st)@.fresh_ids(2nat),
{
    let out = st.pipe();
    let cb_cache: CbCache = new_cb_cache(st);
    Arced { source, out, cb_cache }
}

/// Send the shared output of `source` to `N` pipes.
pub fn arc_split<const N: usize>(st: &mut Store, source: DeviceOp) -> (r: ArcSplit)
    requires
        old(st)@.next + N + 1 <= u64::MAX,
    ensures
        r.source == source,
        r.outs@ == fresh_pipes(old(st)@.next, N as nat),
        r.cb_cache == old(st)@.next + N,
        final(st)@ == old(st)@.fresh_ids((N + 1) as nat),
{
    let outs: Vec<Pipe> = take_pipes(st, N);
    let cb_cache: CbCache = new_cb_cache(st);
    ArcSplit { source, outs, cb_cache }
}

/// Run two to sixteen ops without an order between them.
pub fn bundle(st: &mut Store, ops: Vec<DeviceOp>) -> (r: Bundle)
    requires
        2 <= ops@.len() <= 16,
        old(st)@.next < u64::MAX,
    ensures
        r == (Bundle { ops, cb_cache: old(st)@.next }),
        final(st)@ == old(st)@.fresh_ids(1nat),
{
    Bundle { ops, cb_cache: new_cb_cache(st) }
}

/// One op for each of `inputs`, as `f` makes it.
pub fn fan_out<I, F: Fn(I) -> DeviceOp>(st: &mut Store, inputs: Vec<I>, f: F) -> (r: FanOut)
    requires
        old(st)@.next + 2 <= u64::MAX,
        forall|i: int| 0 <= i < inputs@.len() ==> call_requires(f, (#[trigger] inputs@[i],)),
    ensures
        r.ops@.len() == inputs@.len(),
        forall|i: int| 0 <= i < inputs@.len() ==> call_ensures(f, (inputs@[i],), #[trigger] r.ops@[i]),
        r.out.cell == old(st)@.next,
        r.cb_cache == old(st)@.next + 1,
        final(st)@ == old(st)@.fresh_ids(2nat),
{
    let ghost all = inputs@;
    let mut inputs = inputs;
    let mut rest: Vec<I> = Vec::new();
    while inputs.len() > 0
        invariant
            all =~= inputs@ + rest@.reverse(),
        decreases inputs.len(),
    {
        let ghost before = rest@;
        if let Some(x) = inputs.pop() {
            rest.push(x);
            assert(rest@.reverse() =~= seq![x] + before.reverse());
        }
    }
    assert(all =~= rest@.reverse());
    let mut ops: Vec<DeviceOp> = Vec::new();
    while rest.len() > 0
        invariant
            forall|i: int| 0 <= i < all.len() ==> call_requires(f, (#[trigger] all[i],)),
            ops@.len() + rest@.len() == all.len(),
            rest@.reverse() =~= all.skip(ops@.len() as int),
            forall|i: int| 0 <= i < ops@.len() ==> call_ensures(f, (all[i],), #[trigger] ops@[i]),
        decreases rest.len(),
    {
        let ghost before = rest@;
        if let Some(x) = rest.pop() {
            assert(before.reverse() =~= seq![x] + rest@.reverse());
            assert(x == all.skip(ops@.len() as int)[0]);
            assert(x == all[ops@.len() as int]);
            let op = f(x);
            let ghost n = ops@.len();
            ops.push(op);
            assert((seq![x] + rest@.reverse()).skip(1) =~= rest@.reverse());
            assert(all.skip(n as int).skip(1) =~= all.skip((n + 1) as int));
        }
    }
    FanOut::new(st, ops)
}

impl FanOut {
    /// All of `ops` side by side, as one value. Ops that need cells of the same
    /// store are built before.
    pub fn new(st: &mut Store, ops: Vec<DeviceOp>) -> (r: FanOut)
        requires
            old(st)@.next + 2 <= u64::MAX,
        ensures
            r == (FanOut {
                ops,
                out: Pipe { cell: old(st)@.next },
                cb_cache: (old(st)@.next + 1) as u64,
            }),
            final(st)@ == old(st)@.fresh_ids(2nat),
    {
        let out = st.pipe();
        let cb_cache: CbCache = new_cb_cache(st);
        FanOut { ops, out, cb_cache }
    }
}

/// Lists that fan out into graphs.
pub trait DeviceFanOutExt<I>: Sized {
    /// The inputs.
    spec fn items(self) -> Seq<I>;

    fn fan_out<F: Fn(I) -> DeviceOp>(self, st: &mut Store, f: F) -> (r: FanOut)
        requires
            old(st)@.next + 2 <= u64::MAX,
            forall|i: int| 0 <= i < self.items().len() ==> call_requires(f, (#[trigger] self.items()[i],)),
        ensures
            r.ops@.len() == self.items().len(),
            forall|i: int|
                0 <= i < self.items().len() ==> call_ensures(f, (self.items()[i],), #[trigger] r.ops@[i]),
            r.out.cell == old(st)@.next,
            r.cb_cache == old(st)@.next + 1,
            final(st)@ == old(st)@.fresh_ids(2nat),
    ;
}

impl<I> DeviceFanOutExt<I> for Vec<I> {
    open spec fn items(self) -> Seq<I> {
        self@
    }

    fn fan_out<F: Fn(I) -> DeviceOp>(self, st: &mut Store, f: F) -> (r: FanOut) {
        assert forall|i: int| 0 <= i < self@.len() implies call_requires(f, (#[trigger] self@[i],)) by {
            assert(call_requires(f, (self.items()[i],)));
        }
        fan_out(st, self, f)
    }
}

impl DeviceDynOp {
    /// Put `op` behind a single output.
    pub fn new(st: &mut Store, op: DeviceOp) -> (r: DeviceDynOp)
        requires
            old(st)@.next < u64::MAX,
        ensures
            r == (DeviceDynOp { inner: op, out: Pipe { cell: old(st)@.next } }),
            final(st)@ == old(st)@.fresh_ids(1nat),
    {
        DeviceDynOp { inner: op, out: st.pipe() }
    }
}

impl OnDevice {
    /// Route `source` to `target`.
    pub fn new(st: &mut Store, source: DeviceOp, target: DeviceTarget) -> (r: OnDevice)
        requires
            old(st)@.next < u64::MAX,
        ensures
            r == (OnDevice { source, target, out: Pipe { cell: old(st)@.next } }),
            final(st)@ == old(st)@.fresh_ids(1nat),
    {
        OnDevice { source, target, out: st.pipe() }
    }
}

impl AndThenHost {
    /// `source`, then the host closure `f`; each output of `source` gets a pipe of
    /// its own behind the closure.
    pub fn new(st: &mut Store, source: DeviceOp, f: u64) -> (r: AndThenHost)
        requires
            old(st)@.next + outs_of(source).len() <= u64::MAX,
        ensures
            r.source == source,
            r.f == f,
            r.handle@ == fresh_pipes(old(st)@.next, outs_of(source).len()),
            final(st)@ == old(st)@.fresh_ids(outs_of(source).len()),
    {
        let n: usize = source.pipes().len();
        let handle: Vec<Pipe> = take_pipes(st, n);
        AndThenHost { source, f, handle }
    }
}

impl AndThenHostWithContext {
    /// `source`, then the host closure `f` with the context; each output of
    /// `source` gets a pipe of its own behind the closure.
    pub fn new(st: &mut Store, source: DeviceOp, f: u64) -> (r: AndThenHostWithContext)
        requires
            old(st)@.next + outs_of(source).len() <= u64::MAX,
        ensures
            r.source == source,
            r.f == f,
            r.handle@ == fresh_pipes(old(st)@.next, outs_of(source).len()),
            final(st)@ == old(st)@.fresh_ids(outs_of(source).len()),
    {
        let n: usize = source.pipes().len();
        let handle: Vec<Pipe> = take_pipes(st, n);
        AndThenHostWithContext { source, f, handle }
    }
}

/// Ops that can be profiled.
pub trait DeviceProfileExt: Sized {
    /// The op.
    spec fn op(self) -> DeviceOp;

    /// Report the timing of the op to the callback `cb`.
    fn profiled(self, st: &mut Store, cb: u64) -> (r: Profiled)
        requires
            old(st)@.next < u64::MAX,
        ensures
            r == (Profiled { source: self.op(), cb, out: Pipe { cell: old(st)@.next } }),
            final(st)@ == old(st)@.fresh_ids(1nat),
    ;
}

impl DeviceProfileExt for DeviceOp {
    open spec fn op(self) -> DeviceOp {
        self
    }

    fn profiled(self, st: &mut Store, cb: u64) -> (r: Profiled) {
        Profiled { source: self, cb, out: st.pipe() }
    }
}

} // verus!
