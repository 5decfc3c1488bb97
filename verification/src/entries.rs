//! The ops that pass a value on without acting on it.

use crate::cb::{cb_forward_passthrough, cb_forward_reach, passed_through};
use crate::error::{Error, OpResult};
use crate::exec_ctx::{Driver, ExecMode, ExecutionContext, Walk, WalkMode};
use crate::input::{after_taking, found, pipe_of, readiness, slot_of, Input};
use crate::leaf::{no_deps, walk_kind, WalkKind};
use crate::leaves::{one_pipe, text_of, LeafNode};
use crate::obj::Obj;
use crate::plain::HostValue;
use crate::store::{Pipe, Store, World};
use vstd::prelude::*;

verus! {

broadcast use crate::store::group_fresh_ids;

/// A host value that every run passes on. Its handle is the value itself, so that
/// what follows can compute on it while the graph is built.
pub struct Value {
    pub v: Vec<Obj>,
    pub out: Pipe,
}

/// Pass a copy of `v` on in every run.
pub fn value<V: HostValue>(st: &mut Store, v: V) -> (r: Value)
    requires
        old(st)@.next + 1 <= u64::MAX,
    ensures
        r.v@ == v.parts(),
        r.out.cell == old(st)@.next,
        final(st)@ == old(st)@.fresh_ids(1nat),
{
    Value { v: v.to_parts(), out: st.pipe() }
}

impl Value {
    /// The value.
    pub fn handle(&self) -> (r: Vec<Obj>)
        ensures
            r@ == self.v@,
    {
        copy_objs(&self.v)
    }

    /// The pipe that each run lays a copy of the value on.
    pub fn output_pipe(&self) -> (r: Option<Pipe>)
        ensures
            r == Some(self.out),
    {
        Some(self.out)
    }
}

/// A copy of a list of values.
pub fn copy_objs(v: &Vec<Obj>) -> (r: Vec<Obj>)
    ensures
        r@ == v@,
{
    let mut out: Vec<Obj> = Vec::new();
    let mut i: usize = 0;
    while i < v.len()
        invariant
            i <= v@.len(),
            out@ =~= v@.take(i as int),
        decreases v.len() - i,
    {
        out.push(v[i]);
        i = i + 1;
    }
    assert(v@.take(i as int) =~= v@);
    out
}

impl LeafNode for Value {
    open spec fn outs(&self) -> Seq<Pipe> {
        seq![self.out]
    }

    open spec fn label(&self) -> Seq<char> {
        "value"@
    }

    open spec fn ready(&self, w: World) -> OpResult<()> {
        Ok(())
    }

    open spec fn runs(&self, pre: Walk, post: Walk, mode: ExecMode, res: OpResult<()>) -> bool {
        post == pre.put(self.out.cell, self.v@, Seq::empty(), None) && res == Ok::<(), Error>(())
    }

    fn pipes(&self) -> (r: Vec<Pipe>) {
        one_pipe(self.out)
    }

    fn describe(&self) -> (r: String) {
        text_of("value")
    }

    fn check_ready(&self, st: &Store) -> (r: OpResult<()>) {
        Ok(())
    }

    fn execute<D: Driver>(&self, ec: &mut ExecutionContext<D>, mode: ExecMode) -> (r: OpResult<()>) {
        ec.put_home(&self.out, copy_objs(&self.v), no_deps(), None);
        Ok(())
    }
}

/// A value of the graph's own, lent to every run.
#[derive(Clone, Copy, Debug)]
pub struct Lift {
    pub input: Input,
    pub out: Pipe,
}

/// Lend `v` to every run.
pub fn lift(st: &mut Store, v: Obj) -> (r: Lift)
    requires
        old(st)@.next + 2 <= u64::MAX,
    ensures
        r.input == Input::Concrete(old(st)@.next),
        r.out.cell == old(st)@.next + 1,
        final(st)@ == old(st)@.fresh_ids(2nat).holding(
            old(st)@.next,
            v,
        ),
{
    let input = Input::concrete(st, v);
    let out = st.pipe();
    Lift { input, out }
}

/// One run of a lift.
pub open spec fn lift_after(l: Lift, pre: Walk) -> (Walk, OpResult<()>) {
    match found(pre.w, pre.start, l.input) {
        Err(e) => (pre, Err(e)),
        Ok(p) => {
            let s = pre.at(after_taking(pre.w, l.input));
            if pre.cb is Off {
                (s.put(l.out.cell, p.value, p.deps, p.home), Ok(()))
            } else {
                let t = s.external(p.deps);
                (
                    t.reaching(l.out.cell, t.origins(slot_of(l.input), pipe_of(pre.w, l.input))).put(
                        l.out.cell,
                        p.value,
                        Seq::empty(),
                        p.home,
                    ),
                    Ok(()),
                )
            }
        },
    }
}

impl LeafNode for Lift {
    open spec fn outs(&self) -> Seq<Pipe> {
        seq![self.out]
    }

    open spec fn label(&self) -> Seq<char> {
        "lift"@
    }

    open spec fn ready(&self, w: World) -> OpResult<()> {
        readiness(w, self.input)
    }

    open spec fn runs(&self, pre: Walk, post: Walk, mode: ExecMode, res: OpResult<()>) -> bool {
        lift_after(*self, pre) == (post, res)
    }

    fn pipes(&self) -> (r: Vec<Pipe>) {
        one_pipe(self.out)
    }

    fn describe(&self) -> (r: String) {
        text_of("lift")
    }

    fn check_ready(&self, st: &Store) -> (r: OpResult<()>) {
        self.input.check_ready(st)
    }

    fn execute<D: Driver>(&self, ec: &mut ExecutionContext<D>, mode: ExecMode) -> (r: OpResult<()>) {
        let slot: Option<u64> = self.input.slot_cell_id();
        let pipe: Option<u64> = self.input.pipe_cell_id(ec.store());
        match ec.resolve_home(&self.input) {
            Err(e) => Err(e),
            Ok(p) => {
                match walk_kind(ec) {
                    WalkKind::Off => {
                        ec.put_home(&self.out, p.value, p.deps, p.home);
                    },
                    _ => {
                        ec.collect_external(&p.deps);
                        cb_forward_reach(ec, slot, pipe, self.out.cell);
                        ec.put_home(&self.out, p.value, no_deps(), p.home);
                    },
                }
                Ok(())
            },
        }
    }
}

/// The value of one pipe, passed on to another.
#[derive(Clone, Copy, Debug)]
pub struct Forward {
    pub input: Input,
    pub out: Pipe,
}

/// Pass the value of `pipe` on.
pub fn forward(st: &mut Store, pipe: Pipe) -> (r: Forward)
    requires
        old(st)@.next + 1 <= u64::MAX,
    ensures
        r.input == Input::Pipe(pipe),
        r.out.cell == old(st)@.next,
        final(st)@ == old(st)@.fresh_ids(1nat),
{
    Forward { input: Input::Pipe(pipe), out: st.pipe() }
}

/// One run of a forward.
pub open spec fn forward_after(f: Forward, pre: Walk) -> (Walk, OpResult<()>) {
    match found(pre.w, pre.start, f.input) {
        Err(e) => (pre, Err(e)),
        Ok(p) => {
            let s = pre.at(after_taking(pre.w, f.input));
            match pre.cb {
                WalkMode::Off => (s.put(f.out.cell, p.value, p.deps, p.home), Ok(())),
                WalkMode::Build { .. } => (
                    passed_through(
                        s.external(p.deps),
                        slot_of(f.input),
                        pipe_of(pre.w, f.input),
                        f.out.cell,
                    ).put(f.out.cell, p.value, Seq::empty(), p.home),
                    Ok(()),
                ),
                WalkMode::LendOnly { .. } => (
                    s.external(p.deps).put(f.out.cell, p.value, Seq::empty(), p.home),
                    Ok(()),
                ),
            }
        },
    }
}

impl LeafNode for Forward {
    open spec fn outs(&self) -> Seq<Pipe> {
        seq![self.out]
    }

    open spec fn label(&self) -> Seq<char> {
        "forward"@
    }

    open spec fn ready(&self, w: World) -> OpResult<()> {
        readiness(w, self.input)
    }

    open spec fn runs(&self, pre: Walk, post: Walk, mode: ExecMode, res: OpResult<()>) -> bool {
        forward_after(*self, pre) == (post, res)
    }

    fn pipes(&self) -> (r: Vec<Pipe>) {
        one_pipe(self.out)
    }

    fn describe(&self) -> (r: String) {
        text_of("forward")
    }

    fn check_ready(&self, st: &Store) -> (r: OpResult<()>) {
        self.input.check_ready(st)
    }

    fn execute<D: Driver>(&self, ec: &mut ExecutionContext<D>, mode: ExecMode) -> (r: OpResult<()>) {
        let slot: Option<u64> = self.input.slot_cell_id();
        let pipe: Option<u64> = self.input.pipe_cell_id(ec.store());
        match ec.resolve_home(&self.input) {
            Err(e) => Err(e),
            Ok(p) => {
                match walk_kind(ec) {
                    WalkKind::Off => {
                        ec.put_home(&self.out, p.value, p.deps, p.home);
                    },
                    WalkKind::Build => {
                        ec.collect_external(&p.deps);
                        cb_forward_passthrough(ec, slot, pipe, self.out.cell);
                        ec.put_home(&self.out, p.value, no_deps(), p.home);
                    },
                    WalkKind::LendOnly => {
                        ec.collect_external(&p.deps);
                        ec.put_home(&self.out, p.value, no_deps(), p.home);
                    },
                }
                Ok(())
            },
        }
    }
}

} // verus!
