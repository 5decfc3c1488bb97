//! The common shape of ops that take one value, act on it with one command, and
//! pass it on.

use crate::cb::{cb_leaf_build, leaf_built};
use crate::error::{Error, OpResult};
use crate::exec_ctx::{kept, CbWalk, Driver, ExecMode, ExecutionContext, Walk, WalkMode};
use crate::ids::IdSet;
use crate::input::{after_taking, found, not_single_error, pipe_of, slot_of, Input};
use crate::obj::{init_class, Class, Command, Extent, Home, HostRef, Obj, Recorded, Reply};
use crate::store::{Parcel, ParcelView, Pipe};
use vstd::prelude::*;

verus! {

/// What an op does with its value.
#[derive(Clone, Copy, Debug, PartialEq, Eq, Structural)]
pub enum Work {
    /// Fill it with a pattern.
    Fill(HostRef),
    /// Write host data into it.
    Write(HostRef),
    /// Read it into host data.
    ReadInto(u64),
    /// Fill it from the host, at once.
    HostFill(HostRef),
    /// Write it from the host, at once.
    HostWrite(HostRef),
    /// Map it for the host.
    Acquire { writable: bool },
    /// Unmap it.
    Release,
    /// Write host data into an image.
    WriteImage { region: Extent, src: HostRef },
    /// Read an image into host data.
    ReadImage { region: Extent, dst: u64 },
    /// Fill an image with a pattern.
    FillImage { region: Extent, pattern: HostRef },
}

/// When the work counts as done.
#[derive(Clone, Copy, Debug, PartialEq, Eq, Structural)]
pub enum Style {
    /// The command has a blocking form.
    Native,
    /// The command has none: a blocking run waits on its event.
    WaitAfter,
    /// The command stays in flight in every run.
    Deferred,
    /// The host does the work at once; earlier events stay in force.
    Host,
}

/// An op that takes one value, acts on it, and passes it on.
#[derive(Clone, Copy, Debug)]
pub struct Leaf {
    pub input: Input,
    pub out: Pipe,
    pub work: Work,
    pub style: Style,
    /// Whether the output is owed to where the input came from.
    pub keep_home: bool,
    /// Whether a recorded command depends on the input's slot and pipe.
    pub traced: bool,
}

/// The family of a mapped value.
pub open spec fn view_class(c: Class) -> Class {
    match c {
        Class::Device => Class::DeviceView,
        Class::Mapped => Class::MappedView,
        other => other,
    }
}

/// The family of an unmapped value.
pub open spec fn unview_class(c: Class) -> Class {
    match c {
        Class::DeviceView => Class::Device,
        Class::MappedView => Class::Mapped,
        other => other,
    }
}

/// The value that an op passes on.
pub open spec fn worked(work: Work, o: Obj) -> Obj {
    match work {
        Work::Fill(_) | Work::Write(_) | Work::HostFill(_) | Work::HostWrite(_) => o.as_class(
            init_class(o.class),
        ),
        Work::Acquire { .. } => o.as_class(view_class(o.class)),
        Work::Release => o.as_class(unview_class(o.class)),
        _ => o,
    }
}

fn worked_obj(work: Work, o: &Obj) -> (r: Obj)
    ensures
        r == worked(work, *o),
{
    match work {
        Work::Fill(_) | Work::Write(_) | Work::HostFill(_) | Work::HostWrite(_) => o.assume_init(),
        Work::Acquire { .. } => {
            let c = match o.class {
                Class::Device => Class::DeviceView,
                Class::Mapped => Class::MappedView,
                other => other,
            };
            o.with_class(c)
        },
        Work::Release => {
            let c = match o.class {
                Class::DeviceView => Class::Device,
                Class::MappedView => Class::Mapped,
                other => other,
            };
            o.with_class(c)
        },
        _ => *o,
    }
}

/// The command that does the work on a value.
pub open spec fn work_command(work: Work, o: Obj, blocking: bool) -> Command {
    match work {
        Work::Fill(pattern) => Command::Fill { mem: o.mem_spec(), pattern, bytes: o.bytes },
        Work::Write(src) => Command::Write { mem: o.mem_spec(), src, blocking },
        Work::ReadInto(dst) => Command::Read { mem: o.mem_spec(), dst, blocking },
        Work::HostFill(pattern) => Command::HostFill { mem: o.mem_spec(), pattern, bytes: o.bytes },
        Work::HostWrite(src) => Command::HostWrite { mem: o.mem_spec(), src },
        Work::Acquire { writable } => Command::MapMem { mem: o.mem_spec(), writable },
        Work::Release => Command::UnmapMem { mem: o.mem_spec() },
        Work::WriteImage { region, src } => Command::WriteImage {
            mem: o.mem_spec(),
            region,
            src,
            blocking,
        },
        Work::ReadImage { region, dst } => Command::ReadImage { mem: o.mem_spec(), region, dst, blocking },
        Work::FillImage { region, pattern } => Command::FillImage { mem: o.mem_spec(), region, pattern },
    }
}

fn command_of(work: Work, o: &Obj, blocking: bool) -> (r: Command)
    ensures
        r == work_command(work, *o, blocking),
{
    let mem = o.mem();
    match work {
        Work::Fill(pattern) => Command::Fill { mem, pattern, bytes: o.bytes },
        Work::Write(src) => Command::Write { mem, src, blocking },
        Work::ReadInto(dst) => Command::Read { mem, dst, blocking },
        Work::HostFill(pattern) => Command::HostFill { mem, pattern, bytes: o.bytes },
        Work::HostWrite(src) => Command::HostWrite { mem, src },
        Work::Acquire { writable } => Command::MapMem { mem, writable },
        Work::Release => Command::UnmapMem { mem },
        Work::WriteImage { region, src } => Command::WriteImage { mem, region, src, blocking },
        Work::ReadImage { region, dst } => Command::ReadImage { mem, region, dst, blocking },
        Work::FillImage { region, pattern } => Command::FillImage { mem, region, pattern },
    }
}

/// Whether the work can be recorded into a command buffer: fills can.
pub open spec fn work_records(work: Work) -> bool {
    work is Fill || work is FillImage
}

fn can_record(work: Work) -> (r: bool)
    ensures
        r == work_records(work),
{
    matches!(work, Work::Fill(_) | Work::FillImage { .. })
}

/// The work as a recorded command: an image fill, or a fill of the whole
/// buffer.
pub open spec fn work_record(work: Work, o: Obj) -> Recorded
    recommends
        work_records(work),
{
    match work {
        Work::FillImage { region, pattern } => Recorded::FillImage { mem: o.mem_spec(), pattern, region },
        Work::Fill(pattern) => Recorded::Fill { mem: o.mem_spec(), pattern, offset: 0, bytes: o.bytes },
        _ => arbitrary(),
    }
}

fn record_of(work: Work, o: &Obj) -> (r: Recorded)
    requires
        work_records(work),
    ensures
        r == work_record(work, *o),
{
    let mem = o.mem();
    match work {
        Work::FillImage { region, pattern } => Recorded::FillImage { mem, pattern, region },
        Work::Fill(pattern) => Recorded::Fill { mem, pattern, offset: 0, bytes: o.bytes },
        _ => vstd::pervasive::unreached(),
    }
}

/// Why the work cannot be done on a value at all: a host write of another
/// length.
pub open spec fn work_refusal(work: Work, o: Obj) -> Option<Error> {
    match work {
        Work::HostWrite(src) => if src.len != o.len {
            Some(Error::LengthMismatch { src: src.len, dst: o.len })
        } else {
            None
        },
        _ => None,
    }
}

impl Leaf {
    /// The home of the output.
    pub open spec fn out_home(self, p: ParcelView) -> Option<Home> {
        if self.keep_home {
            p.home
        } else {
            None
        }
    }

    /// The slot that a recorded command depends on.
    pub open spec fn origin_slot(self) -> Option<u64> {
        if self.traced {
            slot_of(self.input)
        } else {
            None
        }
    }

    /// The pipe whose sync points and slots a recorded command depends on.
    pub open spec fn origin_pipe(self, pre: Walk) -> Option<u64> {
        if self.traced {
            pipe_of(pre.w, self.input)
        } else {
            None
        }
    }
}

/// The run after the work's command was sent to the queue: `r1` answers it, and
/// `r2` the wait on its event in a blocking run.
pub open spec fn leaf_sent(
    l: Leaf,
    s: Walk,
    p: ParcelView,
    mode: ExecMode,
    r1: Reply,
    r2: Reply,
) -> (Walk, OpResult<()>) {
    let o = p.value[0];
    let blocking = mode == ExecMode::Blocking;
    let out = seq![worked(l.work, o)];
    let home = l.out_home(p);
    match l.style {
        Style::Host => match work_refusal(l.work, o) {
            Some(e) => (s, Err(e)),
            None => {
                let t = s.issued(work_command(l.work, o, true), Seq::empty(), r1);
                match r1 {
                    Err(c) => (t, Err(Error::OpenCl(c))),
                    Ok(_) => (t.put(l.out.cell, out, p.deps, home), Ok(())),
                }
            },
        },
        Style::Native => {
            let t = s.issued(work_command(l.work, o, blocking), p.deps, r1);
            match r1 {
                Err(c) => (t, Err(Error::OpenCl(c))),
                Ok(ev) => (
                    t.put(
                        l.out.cell,
                        out,
                        if blocking {
                            Seq::empty()
                        } else {
                            seq![ev]
                        },
                        home,
                    ),
                    Ok(()),
                ),
            }
        },
        Style::WaitAfter => {
            let t = s.issued(work_command(l.work, o, false), p.deps, r1);
            match r1 {
                Err(c) => (t, Err(Error::OpenCl(c))),
                Ok(ev) => if blocking {
                    let u = t.issued(Command::Wait { event: ev }, Seq::empty(), r2);
                    match r2 {
                        Err(c) => (u, Err(Error::OpenCl(c))),
                        Ok(_) => (u.put(l.out.cell, out, Seq::empty(), home), Ok(())),
                    }
                } else {
                    (t.put(l.out.cell, out, seq![ev], home), Ok(()))
                },
            }
        },
        Style::Deferred => {
            let t = s.issued(work_command(l.work, o, false), p.deps, r1);
            match r1 {
                Err(c) => (t, Err(Error::OpenCl(c))),
                Ok(ev) => (t.put(l.out.cell, out, seq![ev], home), Ok(())),
            }
        },
    }
}

/// The run after the work's command was recorded, or refused, by the driver.
pub open spec fn leaf_recorded(l: Leaf, pre: Walk, s: Walk, p: ParcelView, r1: Reply) -> Walk {
    let pipe = l.origin_pipe(pre);
    let built = leaf_built(s, p.deps, l.origin_slot(), pipe, l.out.cell);
    let t = built.recording(work_record(l.work, p.value[0]), s.sp_of(pipe), r1);
    let u = match r1 {
        Ok(sp) => t.with_sp(l.out.cell, seq![sp]),
        Err(_) => t,
    };
    u.put(l.out.cell, seq![worked(l.work, p.value[0])], Seq::empty(), l.out_home(p))
}

/// One run of a leaf: the run afterwards, and whether it succeeded, given the
/// driver's answers in order.
pub open spec fn leaf_after(l: Leaf, pre: Walk, mode: ExecMode, r1: Reply, r2: Reply) -> (Walk, OpResult<()>) {
    match found(pre.w, pre.start, l.input) {
        Err(e) => (pre, Err(e)),
        Ok(p) => {
            let s = pre.at(after_taking(pre.w, l.input));
            if p.value.len() != 1 {
                (s, Err(not_single_error()))
            } else if work_records(l.work) && pre.cb is Build {
                (leaf_recorded(l, pre, s, p, r1), Ok(()))
            } else if work_records(l.work) && pre.cb is LendOnly {
                (
                    s.external(p.deps).put(
                        l.out.cell,
                        seq![worked(l.work, p.value[0])],
                        Seq::empty(),
                        l.out_home(p),
                    ),
                    Ok(()),
                )
            } else {
                leaf_sent(l, s, p, mode, r1, r2)
            }
        },
    }
}

/// A list of one value.
pub fn single_obj(o: Obj) -> (r: Vec<Obj>)
    ensures
        r@ == seq![o],
{
    let mut v: Vec<Obj> = Vec::new();
    v.push(o);
    assert(v@ =~= seq![o]);
    v
}

/// A list of one event.
pub fn single_dep(ev: u64) -> (r: Vec<u64>)
    ensures
        r@ == seq![ev],
{
    let mut v: Vec<u64> = Vec::new();
    v.push(ev);
    assert(v@ =~= seq![ev]);
    v
}

/// No event.
pub fn no_deps() -> (r: Vec<u64>)
    ensures
        r@ == Seq::<u64>::empty(),
{
    let v: Vec<u64> = Vec::new();
    assert(v@ =~= Seq::<u64>::empty());
    v
}

/// The way of a run, without its contents.
#[derive(Clone, Copy, Debug, PartialEq, Eq, Structural)]
pub enum WalkKind {
    Off,
    Build,
    LendOnly,
}

/// The way of a run, without its contents.
pub fn walk_kind<D: Driver>(ec: &ExecutionContext<D>) -> (r: WalkKind)
    ensures
        r == (match ec@.cb {
            WalkMode::Off => WalkKind::Off,
            WalkMode::Build { .. } => WalkKind::Build,
            WalkMode::LendOnly { .. } => WalkKind::LendOnly,
        }),
{
    match ec.cb() {
        CbWalk::Off => WalkKind::Off,
        CbWalk::Build { .. } => WalkKind::Build,
        CbWalk::LendOnly { .. } => WalkKind::LendOnly,
    }
}

fn send_leaf<D: Driver>(ec: &mut ExecutionContext<D>, l: &Leaf, p: Parcel, mode: ExecMode) -> (r: OpResult<()>)
    requires
        p@.value.len() == 1,
    ensures
        exists|r1: Reply, r2: Reply|
            (#[trigger] leaf_sent(*l, old(ec)@, p@, mode, r1, r2)) == (final(ec)@, r),
        kept(old(ec)@, final(ec)@),
{
    let ghost pre = ec@;
    let ghost no: Reply = Err(0);
    let ghost pv = p@;
    let o: Obj = p.value[0];
    let blocking: bool = matches!(mode, ExecMode::Blocking);
    let out: Vec<Obj> = single_obj(worked_obj(l.work, &o));
    let home: Option<Home> = if l.keep_home {
        p.home
    } else {
        None
    };
    match l.style {
        Style::Host => {
            if let Work::HostWrite(src) = l.work {
                if src.len != o.len {
                    assert(leaf_sent(*l, pre, pv, mode, no, no).0 == ec@);
                    return Err(Error::LengthMismatch { src: src.len, dst: o.len });
                }
            }
            let r1: Reply = ec.issue(command_of(l.work, &o, true), &no_deps());
            match r1 {
                Err(c) => {
                    assert(leaf_sent(*l, pre, pv, mode, r1, no).0 == ec@);
                    Err(Error::OpenCl(c))
                },
                Ok(_) => {
                    ec.put_home(&l.out, out, p.deps, home);
                    assert(leaf_sent(*l, pre, pv, mode, r1, no).0 == ec@);
                    Ok(())
                },
            }
        },
        Style::Native => {
            let r1: Reply = ec.issue(command_of(l.work, &o, blocking), &p.deps);
            match r1 {
                Err(c) => {
                    assert(leaf_sent(*l, pre, pv, mode, r1, no).0 == ec@);
                    Err(Error::OpenCl(c))
                },
                Ok(ev) => {
                    let deps: Vec<u64> = if blocking {
                        no_deps()
                    } else {
                        single_dep(ev)
                    };
                    ec.put_home(&l.out, out, deps, home);
                    assert(leaf_sent(*l, pre, pv, mode, r1, no).0 == ec@);
                    Ok(())
                },
            }
        },
        Style::WaitAfter => {
            let r1: Reply = ec.issue(command_of(l.work, &o, false), &p.deps);
            match r1 {
                Err(c) => {
                    assert(leaf_sent(*l, pre, pv, mode, r1, no).0 == ec@);
                    Err(Error::OpenCl(c))
                },
                Ok(ev) => {
                    if blocking {
                        let r2: Reply = ec.issue(Command::Wait { event: ev }, &no_deps());
                        match r2 {
                            Err(c) => {
                                assert(leaf_sent(*l, pre, pv, mode, r1, r2).0 == ec@);
                                Err(Error::OpenCl(c))
                            },
                            Ok(_) => {
                                ec.put_home(&l.out, out, no_deps(), home);
                                assert(leaf_sent(*l, pre, pv, mode, r1, r2).0 == ec@);
                                Ok(())
                            },
                        }
                    } else {
                        ec.put_home(&l.out, out, single_dep(ev), home);
                        assert(leaf_sent(*l, pre, pv, mode, r1, no).0 == ec@);
                        Ok(())
                    }
                },
            }
        },
        Style::Deferred => {
            let r1: Reply = ec.issue(command_of(l.work, &o, false), &p.deps);
            match r1 {
                Err(c) => {
                    assert(leaf_sent(*l, pre, pv, mode, r1, no).0 == ec@);
                    Err(Error::OpenCl(c))
                },
                Ok(ev) => {
                    ec.put_home(&l.out, out, single_dep(ev), home);
                    assert(leaf_sent(*l, pre, pv, mode, r1, no).0 == ec@);
                    Ok(())
                },
            }
        },
    }
}

/// Run a leaf.
pub fn run_leaf<D: Driver>(ec: &mut ExecutionContext<D>, l: &Leaf, mode: ExecMode) -> (r: OpResult<()>)
    ensures
        exists|r1: Reply, r2: Reply|
            (#[trigger] leaf_after(*l, old(ec)@, mode, r1, r2)) == (final(ec)@, r),
        kept(old(ec)@, final(ec)@),
{
    let ghost pre = ec@;
    let ghost no: Reply = Err(0);
    let slot: Option<u64> = if l.traced {
        l.input.slot_cell_id()
    } else {
        None
    };
    let pipe: Option<u64> = if l.traced {
        l.input.pipe_cell_id(ec.store())
    } else {
        None
    };
    let p: Parcel = match ec.resolve_home(&l.input) {
        Ok(p) => p,
        Err(e) => {
            assert(leaf_after(*l, pre, mode, no, no).0 == ec@);
            return Err(e);
        },
    };
    let ghost pv = p@;
    let ghost s = ec@;
    if p.value.len() != 1 {
        assert(leaf_after(*l, pre, mode, no, no).0 == ec@);
        return Err(Error::InvalidArgument("an op over one buffer was given a group of values"));
    }
    let kind = walk_kind(ec);
    if can_record(l.work) && matches!(kind, WalkKind::Build) {
        let o: Obj = p.value[0];
        let home: Option<Home> = if l.keep_home {
            p.home
        } else {
            None
        };
        let waits: IdSet = cb_leaf_build(ec, &p.deps, slot, pipe, l.out.cell);
        let ghost built = ec@;
        let what = record_of(l.work, &o);
        let sp: Option<u64> = ec.record(what, &waits);
        let ghost r1 = choose|reply: Reply|
            {
                &&& ec@ == #[trigger] built.recording(what, waits@, reply)
                &&& sp == (match reply {
                    Ok(sp) => Some(sp),
                    Err(_) => None::<u64>,
                })
            };
        if let Some(sp) = sp {
            ec.sp_register(l.out.cell, IdSet::single(sp));
        }
        ec.put_home(&l.out, single_obj(worked_obj(l.work, &o)), no_deps(), home);
        assert(leaf_after(*l, pre, mode, r1, no).0 == ec@);
        Ok(())
    } else if can_record(l.work) && matches!(kind, WalkKind::LendOnly) {
        let o: Obj = p.value[0];
        let home: Option<Home> = if l.keep_home {
            p.home
        } else {
            None
        };
        ec.collect_external(&p.deps);
        ec.put_home(&l.out, single_obj(worked_obj(l.work, &o)), no_deps(), home);
        assert(leaf_after(*l, pre, mode, no, no).0 == ec@);
        Ok(())
    } else {
        let r = send_leaf(ec, l, p, mode);
        proof {
            let (r1, r2) = choose|r1: Reply, r2: Reply|
                (#[trigger] leaf_sent(*l, s, pv, mode, r1, r2)) == (ec@, r);
            assert(leaf_after(*l, pre, mode, r1, r2) == (ec@, r));
        }
        r
    }
}

} // verus!
