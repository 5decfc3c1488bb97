//! Mapping memory for the host, at the level of single commands.

use crate::error::{Error, OpResult};
use crate::exec_ctx::{Driver, ExecutionContext, Walk};
use crate::fill_kernel::{launch, launches};
use crate::leaf::no_deps;
use crate::obj::{Command, Reply};
use vstd::prelude::*;

verus! {

/// A mapping in flight: the guard is handed out once its event has finished.
pub struct MapPending<G> {
    guard: G,
    event: u64,
}

impl<G> MapPending<G> {
    /// The guard.
    pub closed spec fn guard_spec(&self) -> G {
        self.guard
    }

    /// The event.
    pub closed spec fn event_spec(&self) -> u64 {
        self.event
    }

    /// A mapping in flight.
    pub fn new(guard: G, event: u64) -> (r: MapPending<G>)
        ensures
            r.guard_spec() == guard,
            r.event_spec() == event,
    {
        MapPending { guard, event }
    }

    /// The event of the mapping.
    pub fn event(&self) -> (r: u64)
        ensures
            r == self.event_spec(),
    {
        self.event
    }

    /// Wait for the mapping and take the guard.
    pub fn wait<D: Driver>(self, ec: &mut ExecutionContext<D>) -> (r: OpResult<G>)
        ensures
            exists|q: Reply|
                final(ec)@ == (#[trigger] old(ec)@.issued(
                    Command::Wait { event: self.event_spec() },
                    Seq::empty(),
                    q,
                )) && r == (match q {
                    Err(c) => Err::<G, Error>(Error::OpenCl(c)),
                    Ok(_) => Ok(self.guard_spec()),
                }),
    {
        let ghost pre = ec@;
        let q: Reply = ec.issue(Command::Wait { event: self.event }, &no_deps());
        assert(ec@ == pre.issued(Command::Wait { event: self.event_spec() }, Seq::empty(), q));
        match q {
            Err(c) => Err(Error::OpenCl(c)),
            Ok(_) => Ok(self.guard),
        }
    }
}

/// Mapping a range of a memory object: the map itself, then where the host finds
/// it. The result is that address and the map's event.
pub open spec fn maps_range(
    command: Command,
    deps: Seq<u64>,
    pre: Walk,
    post: Walk,
    res: OpResult<(u64, u64)>,
) -> bool {
    exists|m: Walk, r: OpResult<u64>| #[trigger] launches(command, deps, pre, m, r) && match r {
        Err(e) => post == m && res == Err::<(u64, u64), Error>(e),
        Ok(ev) => exists|p: OpResult<u64>| #[trigger]
            launches(Command::MappedAt { event: ev }, Seq::empty(), m, post, p) && res == (match p {
                Err(e) => Err::<(u64, u64), Error>(e),
                Ok(host) => Ok((host, ev)),
            }),
    }
}

/// Map `size` bytes of a memory object from `offset` on, behind `deps`; the answer is
/// the address that the host sees the range at, and the event of the map.
pub fn map_buffer<D: Driver>(
    ec: &mut ExecutionContext<D>,
    mem: u64,
    blocking: bool,
    flags: u64,
    offset: usize,
    size: usize,
    deps: &Vec<u64>,
) -> (r: OpResult<(u64, u64)>)
    ensures
        maps_range(
            Command::MapBuffer { mem, blocking, flags, offset, size },
            deps@,
            old(ec)@,
            final(ec)@,
            r,
        ),
{
    let mapped: OpResult<u64> = launch(ec, Command::MapBuffer { mem, blocking, flags, offset, size }, deps);
    match mapped {
        Err(e) => Err(e),
        Ok(ev) => {
            let ghost m = ec@;
            let at: OpResult<u64> = launch(ec, Command::MappedAt { event: ev }, &no_deps());
            assert(launches(Command::MappedAt { event: ev }, Seq::empty(), m, ec@, at));
            match at {
                Err(e) => Err(e),
                Ok(host) => Ok((host, ev)),
            }
        },
    }
}

/// Unmap a memory object that was mapped at `host`, behind `deps`.
pub fn unmap_mem_object<D: Driver>(ec: &mut ExecutionContext<D>, mem: u64, host: u64, deps: &Vec<u64>) -> (r: OpResult<
    u64,
>)
    ensures
        launches(Command::UnmapObject { mem, host }, deps@, old(ec)@, final(ec)@, r),
{
    launch(ec, Command::UnmapObject { mem, host }, deps)
}

/// Map `size` bytes of shared memory, behind `deps`.
pub fn svm_map<D: Driver>(
    ec: &mut ExecutionContext<D>,
    blocking: bool,
    flags: u64,
    ptr: u64,
    size: usize,
    deps: &Vec<u64>,
) -> (r: OpResult<u64>)
    ensures
        launches(
            Command::SvmMap { ptr, blocking, flags, size },
            deps@,
            old(ec)@,
            final(ec)@,
            r,
        ),
{
    launch(ec, Command::SvmMap { ptr, blocking, flags, size }, deps)
}

/// Unmap shared memory, behind `deps`.
pub fn svm_unmap<D: Driver>(ec: &mut ExecutionContext<D>, ptr: u64, deps: &Vec<u64>) -> (r: OpResult<u64>)
    ensures
        launches(Command::SvmUnmap { ptr }, deps@, old(ec)@, final(ec)@, r),
{
    launch(ec, Command::SvmUnmap { ptr }, deps)
}

} // verus!
