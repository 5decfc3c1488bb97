//! One run of a graph: its cells, the driver, and the command buffer that is
//! being built or replayed.

use crate::error::{Error, OpResult};
use crate::cb::cb_collect_external;
use crate::ids::{copy_ids, extend_ids, with_id, with_ids, IdSet};
use crate::input::{after_taking, copy_home, found, Input};
use crate::launch::InFlight;
use crate::obj::{Command, Home, Issued, MemRef, Obj, Recorded, Reply};
use crate::store::{FinalizedCb, Parcel, ParcelView, Pipe, Store, World};
use std::collections::HashMap;
use vstd::prelude::*;

verus! {

broadcast use vstd::std_specs::hash::group_hash_axioms;

/// What performs the commands of a run. A driver keeps account of what it was
/// handed: each command, with its queue, its waits and the answer, and each answer
/// to the question for a host error. It promises nothing of the answers.
pub trait Driver {
    /// The commands that it was handed, in order.
    open spec fn log(&self) -> Seq<Issued> {
        arbitrary()
    }

    /// What it answered when it was asked for a host error, in order.
    open spec fn answers(&self) -> Seq<Option<Error>> {
        arbitrary()
    }

    /// Perform a command that waits on `waits`. What is enqueued goes to `queue`.
    fn issue(&mut self, queue: u64, command: Command, waits: &Vec<u64>) -> (r: Reply)
        ensures
            final(self).log() == old(self).log().push(Issued { queue, command, waits: waits@, reply: r }),
            final(self).answers() == old(self).answers(),
    ;

    /// Take the first error that a host closure of the run reported, if any.
    fn take_host_error(&mut self) -> (r: Option<Error>)
        ensures
            final(self).answers() == old(self).answers().push(r),
            final(self).log() == old(self).log(),
    ;
}

/// Whether a run may leave its last command in flight.
#[derive(Clone, Copy, Debug, PartialEq, Eq, Structural)]
pub enum ExecMode {
    /// The op's work is done when `execute` returns.
    Blocking,
    /// The op's work may be in flight, behind the events on its output.
    Pipelined,
}

/// A command buffer under construction.
pub struct CbBuilder {
    handle: u64,
    recorded: Vec<Recorded>,
    eligible: bool,
    finalized: bool,
    slots: IdSet,
}

/// A command buffer under construction, as plain values.
#[verifier::ext_equal]
pub struct BuilderView {
    pub handle: u64,
    /// The commands that were recorded.
    pub recorded: Seq<Recorded>,
    /// Whether every command so far could be recorded.
    pub eligible: bool,
    /// Whether it was finished.
    pub finalized: bool,
    /// The slots whose values the recorded commands depend on.
    pub slots: Seq<u64>,
}

impl View for CbBuilder {
    type V = BuilderView;

    closed spec fn view(&self) -> BuilderView {
        BuilderView {
            handle: self.handle,
            recorded: self.recorded@,
            eligible: self.eligible,
            finalized: self.finalized,
            slots: self.slots@,
        }
    }
}

impl BuilderView {
    /// A builder with nothing recorded.
    pub open spec fn fresh(handle: u64) -> BuilderView {
        BuilderView {
            handle,
            recorded: Seq::empty(),
            eligible: true,
            finalized: false,
            slots: Seq::empty(),
        }
    }

    /// The builder after the driver answered a request to record.
    pub open spec fn after_record(self, what: Recorded, reply: Reply) -> BuilderView {
        match reply {
            Ok(_) => BuilderView { recorded: self.recorded.push(what), ..self },
            Err(_) => BuilderView { eligible: false, ..self },
        }
    }
}

impl CbBuilder {
    /// A builder with nothing recorded.
    pub fn new(handle: u64) -> (r: CbBuilder)
        ensures
            r@ == BuilderView::fresh(handle),
    {
        CbBuilder { handle, recorded: Vec::new(), eligible: true, finalized: false, slots: IdSet::new() }
    }

    /// The driver's handle.
    pub fn handle(&self) -> (r: u64)
        ensures
            r == self@.handle,
    {
        self.handle
    }

    /// How many commands were recorded.
    pub fn recorded(&self) -> (r: usize)
        ensures
            r == self@.recorded.len(),
    {
        self.recorded.len()
    }

    /// Whether every command so far could be recorded.
    pub fn is_eligible(&self) -> (r: bool)
        ensures
            r == self@.eligible,
    {
        self.eligible
    }

    /// Whether it was finished.
    pub fn is_finalized(&self) -> (r: bool)
        ensures
            r == self@.finalized,
    {
        self.finalized
    }

    /// Note the slots that a recorded command depends on.
    pub fn note_slots(&mut self, origins: &IdSet)
        ensures
            final(self)@ == (BuilderView { slots: with_ids(old(self)@.slots, origins@), ..old(self)@ }),
    {
        self.slots.insert_all(origins);
    }

    /// Note the driver's answer to a request to record.
    pub fn note_reply(&mut self, what: Recorded, reply: Reply)
        ensures
            final(self)@ == old(self)@.after_record(what, reply),
    {
        match reply {
            Ok(_) => {
                self.recorded.push(what);
            },
            Err(_) => {
                self.eligible = false;
            },
        }
        assert(self@ =~= old(self)@.after_record(what, reply));
    }

    /// Note that it was finished.
    pub fn mark_finalized(&mut self)
        ensures
            final(self)@ == (BuilderView { finalized: true, ..old(self)@ }),
    {
        self.finalized = true;
    }

    /// Note that it cannot be used.
    pub fn mark_ineligible(&mut self)
        ensures
            final(self)@ == (BuilderView { eligible: false, ..old(self)@ }),
    {
        self.eligible = false;
    }

    /// The slots that the recorded commands depend on.
    pub fn slots(&self) -> (r: IdSet)
        ensures
            r@ == self@.slots,
    {
        self.slots.copy()
    }
}

/// How a run treats the commands of its ops.
pub enum CbWalk {
    /// Each command goes to the queue.
    Off,
    /// Commands are recorded into a command buffer, which `cache` will keep.
    Build { builder: CbBuilder, ext: Vec<u64>, svm: Vec<u64>, cache: u64, closed: bool },
    /// A command buffer that was kept is replayed: ops only pass their values
    /// on.
    LendOnly { ext: Vec<u64>, svm: Vec<u64>, cache: u64, closed: bool },
}

/// How a run treats the commands of its ops, as plain values.
#[verifier::ext_equal]
pub enum WalkMode {
    Off,
    Build { builder: BuilderView, ext: Seq<u64>, svm: Seq<u64>, cache: u64, closed: bool },
    LendOnly { ext: Seq<u64>, svm: Seq<u64>, cache: u64, closed: bool },
}

impl View for CbWalk {
    type V = WalkMode;

    open spec fn view(&self) -> WalkMode {
        match *self {
            CbWalk::Off => WalkMode::Off,
            CbWalk::Build { builder, ext, svm, cache, closed } => WalkMode::Build {
                builder: builder@,
                ext: ext@,
                svm: svm@,
                cache,
                closed,
            },
            CbWalk::LendOnly { ext, svm, cache, closed } => WalkMode::LendOnly {
                ext: ext@,
                svm: svm@,
                cache,
                closed,
            },
        }
    }
}

impl WalkMode {
    /// The events from outside that the command buffer waits on.
    pub open spec fn ext(self) -> Seq<u64> {
        match self {
            WalkMode::Off => Seq::empty(),
            WalkMode::Build { ext, .. } => ext,
            WalkMode::LendOnly { ext, .. } => ext,
        }
    }

    /// Whether the command buffer was submitted before the end of the walk.
    pub open spec fn is_closed(self) -> bool {
        match self {
            WalkMode::Off => false,
            WalkMode::Build { closed, .. } => closed,
            WalkMode::LendOnly { closed, .. } => closed,
        }
    }

    /// The mode for the ops that are still to come: once the command buffer was
    /// submitted, they run without.
    pub open spec fn live(self) -> WalkMode {
        if self.is_closed() {
            WalkMode::Off
        } else {
            self
        }
    }

    /// Whether the walk met the end of a command buffer that cannot be used.
    pub open spec fn is_abandoned(self) -> bool {
        self matches WalkMode::Build { builder, closed, .. } && closed && !builder.finalized && !builder.eligible
    }

    /// The mode after events from outside were met.
    pub open spec fn with_ext(self, deps: Seq<u64>) -> WalkMode {
        match self {
            WalkMode::Off => self,
            WalkMode::Build { builder, ext, svm, cache, closed } => WalkMode::Build {
                builder,
                ext: ext + deps,
                svm,
                cache,
                closed,
            },
            WalkMode::LendOnly { ext, svm, cache, closed } => WalkMode::LendOnly {
                ext: ext + deps,
                svm,
                cache,
                closed,
            },
        }
    }

    /// The shared memory that the launches of the command buffer use.
    pub open spec fn svm(self) -> Seq<u64> {
        match self {
            WalkMode::Off => Seq::empty(),
            WalkMode::Build { svm, .. } => svm,
            WalkMode::LendOnly { svm, .. } => svm,
        }
    }

    /// The mode after a launch that uses shared memory.
    pub open spec fn with_svm(self, ptrs: Seq<u64>) -> WalkMode {
        match self {
            WalkMode::Off => self,
            WalkMode::Build { builder, ext, svm, cache, closed } => WalkMode::Build {
                builder,
                ext,
                svm: svm + ptrs,
                cache,
                closed,
            },
            WalkMode::LendOnly { ext, svm, cache, closed } => WalkMode::LendOnly {
                ext,
                svm: svm + ptrs,
                cache,
                closed,
            },
        }
    }

    /// The mode with another builder.
    pub open spec fn with_builder(self, b: BuilderView) -> WalkMode {
        match self {
            WalkMode::Build { ext, svm, cache, closed, .. } => WalkMode::Build { builder: b, ext, svm, cache, closed },
            _ => self,
        }
    }

    /// The mode once the command buffer counts as submitted.
    pub open spec fn close(self) -> WalkMode {
        match self {
            WalkMode::Off => self,
            WalkMode::Build { builder, ext, svm, cache, .. } => WalkMode::Build {
                builder,
                ext,
                svm,
                cache,
                closed: true,
            },
            WalkMode::LendOnly { ext, svm, cache, .. } => WalkMode::LendOnly { ext, svm, cache, closed: true },
        }
    }
}

/// The construction of a command buffer.
pub open spec fn build_mode(builder: u64, cache: u64) -> WalkMode {
    WalkMode::Build {
        builder: BuilderView::fresh(builder),
        ext: Seq::empty(),
        svm: Seq::empty(),
        cache,
        closed: false,
    }
}

/// The uses of shared memory that end with an event.
pub open spec fn buffer_uses(svm: Seq<u64>, event: u64) -> Seq<InFlight> {
    svm.map_values(|ptr: u64| InFlight { ptr, event })
}

/// The uses of shared memory that end with an event.
pub fn uses_at(svm: &Vec<u64>, event: u64) -> (r: Vec<InFlight>)
    ensures
        r@ == buffer_uses(svm@, event),
{
    let mut v: Vec<InFlight> = Vec::new();
    let mut i: usize = 0;
    while i < svm.len()
        invariant
            i <= svm.len(),
            v@ =~= buffer_uses(svm@, event).take(i as int),
        decreases svm.len() - i,
    {
        v.push(InFlight { ptr: svm[i], event });
        i = i + 1;
    }
    assert(v@ =~= buffer_uses(svm@, event));
    v
}

/// One run of a graph.
pub struct ExecutionContext<D> {
    store: Store,
    driver: D,
    context: u64,
    queue: u64,
    device: u64,
    devices: Vec<u64>,
    has_command_buffer: bool,
    has_svm: bool,
    start: Option<u64>,
    workers: Vec<u64>,
    cb: CbWalk,
    sp_edges: HashMap<u64, IdSet>,
    cb_reach: HashMap<u64, IdSet>,
}

/// One run of a graph, as plain values.
#[verifier::ext_equal]
pub struct Walk {
    /// The cells.
    pub w: World,
    /// Every command so far, with the driver's answer.
    pub trace: Seq<Issued>,
    /// What each look for a host error found.
    pub host_reads: Seq<Option<Error>>,
    /// The context.
    pub context: u64,
    /// The queue that commands go to.
    pub queue: u64,
    /// The device of the queue.
    pub device: u64,
    /// The devices of the context.
    pub devices: Seq<u64>,
    /// Whether the context has command buffers.
    pub has_cb: bool,
    /// Whether the device shares memory with the host.
    pub has_svm: bool,
    /// The barrier that the host seams of the run wait behind.
    pub start: Option<u64>,
    /// The host workers that were started.
    pub workers: Seq<u64>,
    /// How commands are treated.
    pub cb: WalkMode,
    /// The sync points that the value on each pipe waits on.
    pub sp: Map<u64, Seq<u64>>,
    /// The slots that the value on each pipe comes from.
    pub reach: Map<u64, Seq<u64>>,
}

impl<D: Driver> View for ExecutionContext<D> {
    type V = Walk;

    closed spec fn view(&self) -> Walk {
        Walk {
            w: self.store@,
            trace: self.driver.log(),
            host_reads: self.driver.answers(),
            context: self.context,
            queue: self.queue,
            device: self.device,
            devices: self.devices@,
            has_cb: self.has_command_buffer,
            has_svm: self.has_svm,
            start: self.start,
            workers: self.workers@,
            cb: self.cb@,
            sp: self.sp_edges@.map_values(|s: IdSet| s@),
            reach: self.cb_reach@.map_values(|s: IdSet| s@),
        }
    }
}

impl Walk {
    /// The run after a command for its queue was answered.
    pub open spec fn issued(self, command: Command, waits: Seq<u64>, reply: Reply) -> Walk {
        Walk { trace: self.trace.push(Issued { queue: self.queue, command, waits, reply }), ..self }
    }

    /// The run once it starts to build a command buffer. Sync points belong to the
    /// command buffer that they were given for, so it has none yet.
    pub open spec fn building(self, builder: u64, cache: u64) -> Walk {
        Walk { cb: build_mode(builder, cache), sp: Map::empty(), ..self }
    }

    /// The run with other cells.
    pub open spec fn at(self, w: World) -> Walk {
        Walk { w, ..self }
    }

    /// The run with a parcel laid on a pipe.
    pub open spec fn put(self, pipe: u64, value: Seq<Obj>, deps: Seq<u64>, home: Option<Home>) -> Walk {
        self.at(self.w.put(pipe, ParcelView { value, deps, home }))
    }

    /// The run in another mode.
    pub open spec fn in_mode(self, cb: WalkMode) -> Walk {
        Walk { cb, ..self }
    }

    /// The sync points that the value on a pipe waits on.
    pub open spec fn sp_of(self, pipe: Option<u64>) -> Seq<u64> {
        match pipe {
            Some(p) => if self.sp.contains_key(p) {
                self.sp[p]
            } else {
                Seq::empty()
            },
            None => Seq::empty(),
        }
    }

    /// The run with the sync points of a pipe set.
    pub open spec fn with_sp(self, pipe: u64, sps: Seq<u64>) -> Walk {
        Walk { sp: self.sp.insert(pipe, sps), ..self }
    }

    /// The slots that the value on a pipe comes from.
    pub open spec fn reach_of(self, pipe: Option<u64>) -> Seq<u64> {
        match pipe {
            Some(p) => if self.reach.contains_key(p) {
                self.reach[p]
            } else {
                Seq::empty()
            },
            None => Seq::empty(),
        }
    }

    /// The run with slots added to those that the value on a pipe comes from.
    pub open spec fn reaching(self, pipe: u64, origins: Seq<u64>) -> Walk {
        Walk { reach: self.reach.insert(pipe, with_ids(self.reach_of(Some(pipe)), origins)), ..self }
    }

    /// The slots that a value comes from: those upstream of its pipe, and its
    /// own slot.
    pub open spec fn origins(self, slot: Option<u64>, pipe: Option<u64>) -> Seq<u64> {
        match slot {
            Some(s) => with_id(self.reach_of(pipe), s),
            None => self.reach_of(pipe),
        }
    }

    /// The run after events from outside the command buffer were met.
    pub open spec fn external(self, deps: Seq<u64>) -> Walk {
        self.in_mode(self.cb.with_ext(deps))
    }

    /// The run after the builder noted the slots of a recorded command.
    pub open spec fn noting(self, origins: Seq<u64>) -> Walk {
        match self.cb {
            WalkMode::Build { builder, .. } => self.in_mode(
                self.cb.with_builder(
                    BuilderView { slots: with_ids(builder.slots, origins), ..builder },
                ),
            ),
            _ => self,
        }
    }

    /// The run after the driver answered a request to record a command.
    pub open spec fn recording(self, what: Recorded, waits: Seq<u64>, reply: Reply) -> Walk {
        match self.cb {
            WalkMode::Build { builder, .. } => self.issued(
                Command::Record { builder: builder.handle, what },
                waits,
                reply,
            ).in_mode(self.cb.with_builder(builder.after_record(what, reply))),
            _ => self,
        }
    }
}

/// What every op of a run leaves as it was: the context, the queue, the barrier and
/// the way commands are treated. Commands, workers and looks for host errors are
/// only ever added. Each command goes to the queue of the run, or to one that the
/// driver gave for a device on the way.
pub open spec fn kept(a: Walk, b: Walk) -> bool {
    &&& a.context == b.context
    &&& a.queue == b.queue
    &&& a.device == b.device
    &&& a.devices == b.devices
    &&& a.has_cb == b.has_cb
    &&& a.has_svm == b.has_svm
    &&& a.start == b.start
    &&& a.host_reads == b.host_reads
    &&& same_way(a.cb, b.cb)
    &&& a.trace.len() <= b.trace.len()
    &&& forall|i: int| 0 <= i < a.trace.len() ==> a.trace[i] == #[trigger] b.trace[i]
    &&& a.workers.len() <= b.workers.len()
    &&& forall|i: int| 0 <= i < a.workers.len() ==> a.workers[i] == #[trigger] b.workers[i]
    &&& forall|i: int| a.trace.len() <= i < b.trace.len() ==> well_routed(a, b.trace, #[trigger] b.trace[i])
}

/// Whether a command went to the queue of the run, or to one that the driver
/// gave for a device since.
pub open spec fn well_routed(a: Walk, trace: Seq<Issued>, x: Issued) -> bool {
    x.queue == a.queue || exists|k: int|
        a.trace.len() <= k < trace.len() && (#[trigger] trace[k]).command is Queue && trace[k].reply == Ok::<u64, i32>(
            x.queue,
        )
}

/// What two stretches of a run keep, the run over both keeps.
pub broadcast proof fn lemma_kept_over(a: Walk, b: Walk, c: Walk)
    requires
        #[trigger] kept(a, b),
        #[trigger] kept(b, c),
    ensures
        kept(a, c),
{
    assert forall|i: int| a.trace.len() <= i < c.trace.len() implies well_routed(a, c.trace, #[trigger] c.trace[i]) by {
        if i < b.trace.len() {
            assert(c.trace[i] == b.trace[i]);
            if b.trace[i].queue != a.queue {
                let k = choose|k: int|
                    a.trace.len() <= k < b.trace.len() && (#[trigger] b.trace[k]).command is Queue && b.trace[k].reply
                        == Ok::<u64, i32>(b.trace[i].queue);
                assert(c.trace[k] == b.trace[k]);
            }
        } else if c.trace[i].queue != b.queue {
            let k = choose|k: int|
                b.trace.len() <= k < c.trace.len() && (#[trigger] c.trace[k]).command is Queue && c.trace[k].reply
                    == Ok::<u64, i32>(c.trace[i].queue);
            assert(a.trace.len() <= k < c.trace.len());
        }
    }
}

/// Whether commands are treated in the same way, for the same command buffer.
pub open spec fn same_way(a: WalkMode, b: WalkMode) -> bool {
    match (a, b) {
        (WalkMode::Off, WalkMode::Off) => true,
        (
            WalkMode::Build { builder: x, cache: c, closed: k, .. },
            WalkMode::Build { builder: y, cache: d, closed: l, .. },
        ) => c == d && x.handle == y.handle && (k ==> l),
        (
            WalkMode::LendOnly { cache: c, closed: k, .. },
            WalkMode::LendOnly { cache: d, closed: l, .. },
        ) => c == d && (k ==> l),
        _ => false,
    }
}

impl<D: Driver> ExecutionContext<D> {
    /// A run that has not started, over the cells of `store`.
    pub fn new(
        store: Store,
        driver: D,
        context: u64,
        queue: u64,
        device: u64,
        devices: Vec<u64>,
        has_command_buffer: bool,
        has_svm: bool,
    ) -> (r: ExecutionContext<D>)
        ensures
            r@ == (Walk {
                w: store@,
                trace: driver.log(),
                host_reads: driver.answers(),
                context,
                queue,
                device,
                devices: devices@,
                has_cb: has_command_buffer,
                has_svm,
                start: None,
                workers: Seq::empty(),
                cb: WalkMode::Off,
                sp: Map::empty(),
                reach: Map::empty(),
            }),
    {
        let r = ExecutionContext {
            store,
            driver,
            context,
            queue,
            device,
            devices,
            has_command_buffer,
            has_svm,
            start: None,
            workers: Vec::new(),
            cb: CbWalk::Off,
            sp_edges: HashMap::new(),
            cb_reach: HashMap::new(),
        };
        assert(r@.sp =~= Map::<u64, Seq<u64>>::empty());
        assert(r@.reach =~= Map::<u64, Seq<u64>>::empty());
        r
    }

    /// The cells and the driver, once the run is over.
    pub fn into_parts(self) -> (r: (Store, D))
        ensures
            r.0@ == self@.w,
            r.1.log() == self@.trace,
            r.1.answers() == self@.host_reads,
    {
        (self.store, self.driver)
    }

    /// The cells.
    pub fn store(&self) -> (r: &Store)
        ensures
            r@ == self@.w,
    {
        &self.store
    }

    /// The cells, to be changed.
    pub fn store_mut(&mut self) -> (r: &mut Store)
        ensures
            kept(old(self)@, final(self)@),
            (*r)@ == old(self)@.w,
            final(self)@ == old(self)@.at((*final(r))@),
    {
        &mut self.store
    }

    /// The context of the run.
    pub fn context(&self) -> (r: u64)
        ensures
            r == self@.context,
    {
        self.context
    }

    /// The device of the run's queue.
    pub fn device(&self) -> (r: u64)
        ensures
            r == self@.device,
    {
        self.device
    }

    /// The devices of the context.
    pub fn devices(&self) -> (r: &Vec<u64>)
        ensures
            r@ == self@.devices,
    {
        &self.devices
    }

    /// The device with index `i`.
    pub fn device_at(&self, i: usize) -> (r: u64)
        requires
            i < self@.devices.len(),
        ensures
            r == self@.devices[i as int],
    {
        self.devices[i]
    }

    /// The queue that commands go to.
    pub fn cl_queue(&self) -> (r: u64)
        ensures
            r == self@.queue,
    {
        self.queue
    }

    /// Send commands to another queue.
    pub fn set_queue(&mut self, queue: u64, device: u64)
        ensures
            final(self)@ == (Walk { queue, device, ..old(self)@ }),
    {
        self.queue = queue;
        self.device = device;
    }

    /// Whether the context has command buffers.
    pub fn has_cl_khr_command_buffer(&self) -> (r: bool)
        ensures
            r == self@.has_cb,
    {
        self.has_command_buffer
    }

    /// Whether the device shares memory with the host.
    pub fn has_svm(&self) -> (r: bool)
        ensures
            r == self@.has_svm,
    {
        self.has_svm
    }

    /// How commands are treated.
    pub fn cb(&self) -> (r: &CbWalk)
        ensures
            r@ == self@.cb,
    {
        &self.cb
    }

    /// Treat commands in another way; the old way is handed back.
    pub fn with_cb(&mut self, cb: CbWalk) -> (r: CbWalk)
        ensures
            r@ == old(self)@.cb,
            final(self)@ == old(self)@.in_mode(cb@),
    {
        let mut other = cb;
        core::mem::swap(&mut self.cb, &mut other);
        assert(self@ =~= old(self)@.in_mode(cb@));
        other
    }

    /// The sync points that the value on a pipe waits on.
    pub fn sp_lookup(&self, cell_id: Option<u64>) -> (r: IdSet)
        ensures
            r@ == self@.sp_of(cell_id),
    {
        match cell_id {
            Some(id) => match self.sp_edges.get(&id) {
                Some(s) => s.copy(),
                None => IdSet::new(),
            },
            None => IdSet::new(),
        }
    }

    /// Start to build a command buffer: no command has a sync point yet.
    pub fn start_build(&mut self, builder: u64, cache: u64)
        ensures
            final(self)@ == old(self)@.building(builder, cache),
    {
        self.cb = CbWalk::Build {
            builder: CbBuilder::new(builder),
            ext: Vec::new(),
            svm: Vec::new(),
            cache,
            closed: false,
        };
        self.sp_edges = HashMap::new();
        assert(self@ =~= old(self)@.building(builder, cache));
    }

    /// Set the sync points that the value on a pipe waits on.
    pub fn sp_register(&mut self, cell_id: u64, sps: IdSet)
        ensures
            kept(old(self)@, final(self)@),
            final(self)@ == old(self)@.with_sp(cell_id, sps@),
    {
        self.sp_edges.insert(cell_id, sps);
        assert(self@.sp =~= old(self)@.sp.insert(cell_id, sps@));
        assert(self@ =~= old(self)@.with_sp(cell_id, sps@));
    }

    /// The slots that the value on a pipe comes from.
    pub fn cb_reach_of(&self, cell_id: Option<u64>) -> (r: IdSet)
        ensures
            r@ == self@.reach_of(cell_id),
    {
        match cell_id {
            Some(id) => match self.cb_reach.get(&id) {
                Some(s) => s.copy(),
                None => IdSet::new(),
            },
            None => IdSet::new(),
        }
    }

    /// Add slots to those that the value on a pipe comes from.
    pub fn cb_reach_extend(&mut self, cell_id: u64, origins: &IdSet)
        ensures
            kept(old(self)@, final(self)@),
            final(self)@ == old(self)@.reaching(cell_id, origins@),
    {
        let mut s = self.cb_reach_of(Some(cell_id));
        s.insert_all(origins);
        self.cb_reach.insert(cell_id, s);
        assert(self@.reach =~= old(self)@.reaching(cell_id, origins@).reach);
        assert(self@ =~= old(self)@.reaching(cell_id, origins@));
    }

    /// Open the barrier that the host seams of the run wait behind.
    pub fn set_start(&mut self, ev: Option<u64>)
        ensures
            final(self)@ == (Walk { start: ev, ..old(self)@ }),
    {
        self.start = ev;
    }

    /// The barrier that the host seams of the run wait behind.
    pub fn start_dep(&self) -> (r: Option<u64>)
        ensures
            r == self@.start,
    {
        self.start
    }

    /// Note a host worker that was started.
    pub fn push_worker(&mut self, worker: u64)
        ensures
            kept(old(self)@, final(self)@),
            final(self)@ == (Walk { workers: old(self)@.workers.push(worker), ..old(self)@ }),
    {
        self.workers.push(worker);
        assert(self@ =~= (Walk { workers: old(self)@.workers.push(worker), ..old(self)@ }));
    }

    /// Take the list of host workers.
    pub fn take_workers(&mut self) -> (r: Vec<u64>)
        ensures
            r@ == old(self)@.workers,
            final(self)@ == (Walk { workers: Seq::empty(), ..old(self)@ }),
    {
        let mut out: Vec<u64> = Vec::new();
        core::mem::swap(&mut self.workers, &mut out);
        assert(self@ =~= (Walk { workers: Seq::empty(), ..old(self)@ }));
        out
    }

    /// Lay a value on a pipe.
    pub fn put_home(&mut self, pipe: &Pipe, value: Vec<Obj>, deps: Vec<u64>, home: Option<Home>)
        ensures
            kept(old(self)@, final(self)@),
            final(self)@ == old(self)@.put(pipe.cell, value@, deps@, home),
    {
        self.store.put_home(pipe, value, deps, home);
    }

    /// Take the parcel on a pipe.
    pub fn take_home(&mut self, pipe: &Pipe) -> (r: Option<Parcel>)
        ensures
            kept(old(self)@, final(self)@),
            final(self)@ == old(self)@.at(old(self)@.w.drained(pipe.cell)),
            match r {
                Some(p) => old(self)@.w.parcel(pipe.cell) == Some(p@),
                None => old(self)@.w.parcel(pipe.cell) is None,
            },
    {
        self.store.take_home(pipe)
    }

    /// Take the value of an input.
    pub fn resolve_home(&mut self, input: &Input) -> (r: OpResult<Parcel>)
        ensures
            kept(old(self)@, final(self)@),
            final(self)@ == old(self)@.at(after_taking(old(self)@.w, *input)),
            match r {
                Ok(p) => found(old(self)@.w, old(self)@.start, *input) == Ok::<ParcelView, Error>(p@),
                Err(e) => found(old(self)@.w, old(self)@.start, *input) == Err::<ParcelView, Error>(e),
            },
    {
        input.resolve_home(&mut self.store, self.start)
    }

    /// Take the value of an input for a copy.
    pub fn resolve_copy(&mut self, input: &Input) -> (r: OpResult<Parcel>)
        ensures
            kept(old(self)@, final(self)@),
            final(self)@ == old(self)@.at(after_taking(old(self)@.w, *input)),
            match r {
                Ok(p) => found(old(self)@.w, old(self)@.start, *input) matches Ok(q) && p@ == (ParcelView {
                    home: copy_home(*input, q),
                    ..q
                }),
                Err(e) => found(old(self)@.w, old(self)@.start, *input) == Err::<ParcelView, Error>(e),
            },
    {
        input.resolve_copy(&mut self.store, self.start)
    }

    /// Give a value back to its home.
    pub fn rehome(&mut self, home: Option<Home>, value: &Vec<Obj>)
        ensures
            kept(old(self)@, final(self)@),
            final(self)@ == old(self)@.at(old(self)@.w.rehomed(home, value@)),
    {
        self.store.rehome(home, value);
    }

    /// Replace the events that the parcel on a pipe waits on.
    pub fn restamp(&mut self, pipe: &Pipe, evs: &Vec<u64>)
        ensures
            kept(old(self)@, final(self)@),
            final(self)@ == old(self)@.at(old(self)@.w.restamped(pipe.cell, evs@)),
    {
        self.store.restamp(pipe, evs);
    }

    /// Send what lies on a pipe back to its home.
    pub fn reclaim(&mut self, pipe: &Pipe)
        ensures
            kept(old(self)@, final(self)@),
            final(self)@ == old(self)@.at(old(self)@.w.reclaimed(pipe.cell)),
    {
        self.store.reclaim(pipe);
    }

    /// Lend the value of an upload.
    pub fn lend(&mut self, cell: u64) -> (r: Option<Obj>)
        ensures
            kept(old(self)@, final(self)@),
            r == old(self)@.w.held(cell),
            final(self)@ == old(self)@.at(old(self)@.w.lent(cell)),
    {
        self.store.lend(cell)
    }

    /// Note that an upload was allocated.
    pub fn mark_seeded(&mut self, cell: u64)
        ensures
            final(self)@ == old(self)@.at(
                World { seeded: old(self)@.w.seeded.insert(cell), ..old(self)@.w },
            ),
    {
        self.store.mark_seeded(cell);
    }

    /// Note the uses of a launch.
    pub fn note_uses(&mut self, uses: &Vec<InFlight>)
        ensures
            kept(old(self)@, final(self)@),
            final(self)@ == old(self)@.at(old(self)@.w.using(uses@)),
    {
        self.store.note_uses(uses);
    }

    /// Forget the uses of memory that have ended.
    pub fn settle(&mut self, m: MemRef)
        ensures
            kept(old(self)@, final(self)@),
            final(self)@ == old(self)@.at(old(self)@.w.settled(m)),
    {
        self.store.settle(m);
    }

    /// Keep a command buffer at a node.
    pub fn keep(&mut self, cache: u64, cb: FinalizedCb)
        ensures
            kept(old(self)@, final(self)@),
            final(self)@ == old(self)@.at(old(self)@.w.keeping(cache, cb@)),
    {
        self.store.keep(cache, cb);
    }

    /// Note events from outside the command buffer.
    pub fn collect_external(&mut self, deps: &Vec<u64>)
        ensures
            kept(old(self)@, final(self)@),
            final(self)@ == old(self)@.external(deps@),
    {
        match &mut self.cb {
            CbWalk::Off => {},
            CbWalk::Build { ext, .. } => {
                cb_collect_external(ext, deps);
            },
            CbWalk::LendOnly { ext, .. } => {
                cb_collect_external(ext, deps);
            },
        }
        assert(self@ =~= old(self)@.external(deps@));
    }

    /// The events from outside that the command buffer waits on.
    pub fn ext_deps(&self) -> (r: Vec<u64>)
        ensures
            r@ == self@.cb.ext(),
    {
        match &self.cb {
            CbWalk::Off => Vec::new(),
            CbWalk::Build { ext, .. } => copy_ids(ext),
            CbWalk::LendOnly { ext, .. } => copy_ids(ext),
        }
    }

    /// Note the shared memory that a launch of the command buffer uses.
    pub fn collect_svm(&mut self, ptrs: &Vec<u64>)
        ensures
            kept(old(self)@, final(self)@),
            final(self)@ == old(self)@.in_mode(old(self)@.cb.with_svm(ptrs@)),
    {
        match &mut self.cb {
            CbWalk::Off => {},
            CbWalk::Build { svm, .. } => {
                extend_ids(svm, ptrs);
            },
            CbWalk::LendOnly { svm, .. } => {
                extend_ids(svm, ptrs);
            },
        }
        assert(self@ =~= old(self)@.in_mode(old(self)@.cb.with_svm(ptrs@)));
    }

    /// The uses of shared memory that end with the event of the command buffer.
    pub fn cb_uses(&self, event: u64) -> (r: Vec<InFlight>)
        ensures
            r@ == buffer_uses(self@.cb.svm(), event),
    {
        match &self.cb {
            CbWalk::Off => uses_at(&Vec::new(), event),
            CbWalk::Build { svm, .. } => uses_at(svm, event),
            CbWalk::LendOnly { svm, .. } => uses_at(svm, event),
        }
    }

    /// Note the slots of a command about to be recorded.
    pub fn note_slots(&mut self, origins: &IdSet)
        ensures
            kept(old(self)@, final(self)@),
            final(self)@ == old(self)@.noting(origins@),
    {
        match &mut self.cb {
            CbWalk::Build { builder, .. } => {
                builder.note_slots(origins);
            },
            _ => {},
        }
        assert(self@ =~= old(self)@.noting(origins@));
    }

    /// Count the command buffer as submitted.
    pub fn close(&mut self)
        ensures
            kept(old(self)@, final(self)@),
            final(self)@ == old(self)@.in_mode(old(self)@.cb.close()),
    {
        match &mut self.cb {
            CbWalk::Off => {},
            CbWalk::Build { closed, .. } => {
                *closed = true;
            },
            CbWalk::LendOnly { closed, .. } => {
                *closed = true;
            },
        }
        assert(self@ =~= old(self)@.in_mode(old(self)@.cb.close()));
    }

    /// Note that the command buffer under construction was finished.
    pub fn mark_finalized(&mut self)
        ensures
            kept(old(self)@, final(self)@),
            final(self)@ == match old(self)@.cb {
                WalkMode::Build { builder, .. } => old(self)@.in_mode(
                    old(self)@.cb.with_builder(BuilderView { finalized: true, ..builder }),
                ),
                _ => old(self)@,
            },
    {
        match &mut self.cb {
            CbWalk::Build { builder, .. } => {
                builder.mark_finalized();
            },
            _ => {},
        }
        assert(self@ =~= match old(self)@.cb {
            WalkMode::Build { builder, .. } => old(self)@.in_mode(
                old(self)@.cb.with_builder(BuilderView { finalized: true, ..builder }),
            ),
            _ => old(self)@,
        });
    }

    /// Note that the command buffer under construction cannot be used.
    pub fn mark_ineligible(&mut self)
        ensures
            kept(old(self)@, final(self)@),
            final(self)@ == match old(self)@.cb {
                WalkMode::Build { builder, .. } => old(self)@.in_mode(
                    old(self)@.cb.with_builder(BuilderView { eligible: false, ..builder }),
                ),
                _ => old(self)@,
            },
    {
        match &mut self.cb {
            CbWalk::Build { builder, .. } => {
                builder.mark_ineligible();
            },
            _ => {},
        }
        assert(self@ =~= match old(self)@.cb {
            WalkMode::Build { builder, .. } => old(self)@.in_mode(
                old(self)@.cb.with_builder(BuilderView { eligible: false, ..builder }),
            ),
            _ => old(self)@,
        });
    }
}

impl<D: Driver> ExecutionContext<D> {
    /// Perform a command that waits on `waits`.
    pub fn issue(&mut self, command: Command, waits: &Vec<u64>) -> (r: Reply)
        ensures
            kept(old(self)@, final(self)@),
            final(self)@ == old(self)@.issued(command, waits@, r),
    {
        let r: Reply = self.driver.issue(self.queue, command, waits);
        assert(self@ =~= old(self)@.issued(command, waits@, r));
        r
    }

    /// Take the first error that a host closure of the run reported, if any.
    pub fn take_host_error(&mut self) -> (r: Option<Error>)
        ensures
            final(self)@ == (Walk { host_reads: old(self)@.host_reads.push(r), ..old(self)@ }),
    {
        let r: Option<Error> = self.driver.take_host_error();
        assert(self@ =~= (Walk { host_reads: old(self)@.host_reads.push(r), ..old(self)@ }));
        r
    }

    /// Record a command into the command buffer under construction; the answer
    /// is its sync point. A command that cannot be recorded makes the whole
    /// command buffer ineligible.
    pub fn record(&mut self, what: Recorded, waits: &IdSet) -> (r: Option<u64>)
        ensures
            old(self)@.cb is Build ==> exists|reply: Reply|
                {
                    &&& final(self)@ == #[trigger] old(self)@.recording(what, waits@, reply)
                    &&& r == (match reply {
                        Ok(sp) => Some(sp),
                        Err(_) => None::<u64>,
                    })
                },
            !(old(self)@.cb is Build) ==> r is None && final(self)@ == old(self)@,
    {
        let handle: u64 = match &self.cb {
            CbWalk::Build { builder, .. } => builder.handle(),
            _ => {
                return None;
            },
        };
        let list: Vec<u64> = waits.to_list();
        let reply: Reply = self.issue(Command::Record { builder: handle, what }, &list);
        match &mut self.cb {
            CbWalk::Build { builder, .. } => {
                builder.note_reply(what, reply);
            },
            _ => {},
        }
        assert(self@ =~= old(self)@.recording(what, waits@, reply));
        match reply {
            Ok(sp) => Some(sp),
            Err(_) => None,
        }
    }
}

} // verus!
