//! Launching a kernel: its arguments, its grid, and what it waits on.

use crate::error::{Error, OpResult};
use crate::exec_ctx::{kept, Driver, ExecutionContext, Walk};
use crate::fill_kernel::{launch, launches};
use crate::ids::{copy_ids, extend_ids};
use crate::launch::{ArgValue, ExecuteKernel, Grid, InFlight, KernelArgs, LaunchSpec};
use crate::leaf::no_deps;
use crate::obj::{Command, Extent, Obj, Reply};
use vstd::prelude::*;

verus! {

broadcast use crate::exec_ctx::lemma_kept_over;

/// The kernel ops of this library.
pub trait Sealed {

}

/// An op that launches one kernel.
pub trait KernelOp: Sealed + Sized {
    /// What the launch hands back.
    type Output;

    /// What enqueueing the launch may do, with `extra` events to wait on besides
    /// the op's own.
    spec fn enqueues(
        self,
        extra: Seq<u64>,
        pre: Walk,
        post: Walk,
        res: OpResult<(Self::Output, u64)>,
    ) -> bool;

    fn enqueue_into<D: Driver>(self, ec: &mut ExecutionContext<D>, extra_deps: &Vec<u64>) -> (r: OpResult<
        (Self::Output, u64),
    >)
        ensures
            self.enqueues(extra_deps@, old(ec)@, final(ec)@, r),
            kept(old(ec)@, final(ec)@),
    ;
}

/// The sizes of up to three dimensions; those that are not there are 0.
pub open spec fn sizes(s: Seq<usize>) -> Extent {
    Extent {
        x: if s.len() > 0 {
            s[0]
        } else {
            0
        },
        y: if s.len() > 1 {
            s[1]
        } else {
            0
        },
        z: if s.len() > 2 {
            s[2]
        } else {
            0
        },
    }
}

pub fn sizes_of(s: &[usize]) -> (r: Extent)
    ensures
        r == sizes(s@),
{
    let n: usize = s.len();
    Extent {
        x: if n > 0 {
            s[0]
        } else {
            0
        },
        y: if n > 1 {
            s[1]
        } else {
            0
        },
        z: if n > 2 {
            s[2]
        } else {
            0
        },
    }
}

/// The launch of a kernel over a grid.
pub open spec fn run_command(kernel: u64, g: Grid) -> Command {
    Command::RunKernel {
        kernel,
        dims: g.global.len() as u8,
        global: sizes(g.global),
        with_local: g.local is Some,
        local: match g.local {
            Some(l) => sizes(l),
            None => sizes(Seq::empty()),
        },
    }
}

/// Setting kernel arguments from index `i` on.
pub open spec fn sets_from(kernel: u64, args: Seq<ArgValue>, i: nat, pre: Walk, post: Walk, res: OpResult<()>) -> bool
    decreases args.len() - i,
{
    if i >= args.len() {
        post == pre && res == Ok::<(), Error>(())
    } else {
        exists|q: Reply|
            {
                let s = #[trigger] pre.issued(
                    Command::SetArg { kernel, index: i as usize, value: args[i as int] },
                    Seq::empty(),
                    q,
                );
                match q {
                    Err(c) => post == s && res == Err::<(), Error>(Error::OpenCl(c)),
                    Ok(_) => sets_from(kernel, args, i + 1, s, post, res),
                }
            }
    }
}

pub fn set_from<D: Driver>(ec: &mut ExecutionContext<D>, kernel: u64, args: &Vec<ArgValue>, i: usize) -> (r: OpResult<()>)
    requires
        i <= args.len(),
    ensures
        sets_from(kernel, args@, i as nat, old(ec)@, final(ec)@, r),
        kept(old(ec)@, final(ec)@),
    decreases args.len() - i,
{
    if i >= args.len() {
        return Ok(());
    }
    let ghost pre = ec@;
    let q: Reply = ec.issue(Command::SetArg { kernel, index: i, value: args[i] }, &no_deps());
    assert(ec@ == pre.issued(
        Command::SetArg { kernel, index: i, value: args@[i as int] },
        Seq::empty(),
        q,
    ));
    match q {
        Err(c) => Err(Error::OpenCl(c)),
        Ok(_) => set_from(ec, kernel, args, i + 1),
    }
}

/// A kernel with its arguments, its grid, the events it waits on, and the values
/// it hands back.
pub struct KernelLaunch<A: KernelArgs> {
    pub kernel: u64,
    pub args: A,
    pub grid: LaunchSpec,
    pub deps: Vec<u64>,
    pub outputs: Vec<Obj>,
}

impl<A: KernelArgs> Sealed for KernelLaunch<A> {

}

/// Marks the run between setting the arguments and the launch.
pub open spec fn args_set(m: Walk, r: OpResult<()>) -> bool {
    true
}

impl<A: KernelArgs> KernelOp for KernelLaunch<A> {
    type Output = Vec<Obj>;

    open spec fn enqueues(
        self,
        extra: Seq<u64>,
        pre: Walk,
        post: Walk,
        res: OpResult<(Vec<Obj>, u64)>,
    ) -> bool {
        exists|m: Walk, r: OpResult<()>|
            #[trigger] args_set(m, r) && sets_from(self.kernel, self.args.all_values(), 0, pre, m, r)
                && match r {
                Err(e) => post == m && res == Err::<(Vec<Obj>, u64), Error>(e),
                Ok(_) => exists|t: Walk, j: OpResult<u64>|
                    (#[trigger] launches(
                        run_command(self.kernel, self.grid@),
                        self.deps@ + extra,
                        m,
                        t,
                        j,
                    )) && match j {
                        Err(e) => post == t && res == Err::<(Vec<Obj>, u64), Error>(e),
                        Ok(ev) => post == t.at(t.w.using(self.args.all_uses(ev))) && res == Ok::<
                            (Vec<Obj>, u64),
                            Error,
                        >((self.outputs, ev)),
                    },
            }
    }

    fn enqueue_into<D: Driver>(self, ec: &mut ExecutionContext<D>, extra_deps: &Vec<u64>) -> (r: OpResult<
        (Vec<Obj>, u64),
    >) {
        let ghost pre = ec@;
        let mut exec = ExecuteKernel::new();
        self.args.set_all(&mut exec);
        assert(exec@ =~= self.args.all_values());
        let r: OpResult<()> = set_from(ec, self.kernel, exec.args(), 0);
        let ghost m = ec@;
        assert(args_set(m, r));
        if let Err(e) = r {
            return Err(e);
        }
        let mut waits: Vec<u64> = copy_ids(&self.deps);
        extend_ids(&mut waits, extra_deps);
        let dims: u8 = self.grid.dims();
        let global = sizes_of(self.grid.global());
        let local = self.grid.local();
        let (with_local, local) = match local {
            Some(l) => (true, sizes_of(l)),
            None => (false, Extent { x: 0, y: 0, z: 0 }),
        };
        let command = Command::RunKernel { kernel: self.kernel, dims, global, with_local, local };
        assert(command == run_command(self.kernel, self.grid@));
        let j: OpResult<u64> = launch(ec, command, &waits);
        assert(launches(
            run_command(self.kernel, self.grid@),
            self.deps@ + extra_deps@,
            m,
            ec@,
            j,
        ));
        match j {
            Err(e) => Err(e),
            Ok(ev) => {
                let mut uses: Vec<InFlight> = Vec::new();
                self.args.register_all(ev, &mut uses);
                assert(uses@ =~= self.args.all_uses(ev));
                ec.note_uses(&uses);
                Ok((self.outputs, ev))
            },
        }
    }
}

} // verus!
