//! What holds of fills by a kernel and of maps by hand: the whole range, behind the events
//! that were given, and nothing left behind.

use crate::access::MEM_READ_ONLY;
use crate::error::{Error, OpResult};
use crate::exec_ctx::Walk;
use crate::fill_kernel::{
    byte_fill_launched, byte_fill_written, byte_fills, fast_fills, fast_path_name, kernel_fills, launches,
    releases_buffer,
};
use crate::map_primitive::maps_range;
use crate::obj::{Class, Command, Contents, HostRef, MemRef, Reply};
use crate::seam_laws::did;
use vstd::prelude::*;

verus! {

/// The widths of patterns that a fill kernel takes as an argument.
pub open spec fn fast_width(bytes: usize) -> bool {
    bytes == 1 || bytes == 2 || bytes == 4 || bytes == 8 || bytes == 16
}

/// There is a kernel of its own for each of the fast widths, and for no other.
pub proof fn law_fast_widths_have_their_kernels(bytes: usize)
    ensures
        fast_path_name(bytes) is Some <==> fast_width(bytes),
        fast_path_name(1) == Some("claspr_fill_1"),
        fast_path_name(2) == Some("claspr_fill_2"),
        fast_path_name(4) == Some("claspr_fill_4"),
        fast_path_name(8) == Some("claspr_fill_8"),
        fast_path_name(16) == Some("claspr_fill_16"),
{
}

/// A fill by a kernel that went well: the kernel for the width of the pattern was run over
/// as many items as there are patterns, on the memory that was given, behind the events
/// that were given, and the event handed out is that of the run. A pattern of another width
/// lies in a buffer of its own of just its size, written before the run and let go of at
/// the end.
pub proof fn law_kernel_fill_covers_every_pattern(
    data: MemRef,
    pattern: HostRef,
    count: usize,
    deps: Seq<u64>,
    pre: Walk,
    post: Walk,
    ev: u64,
) -> (r: (u64, u64, u64))
    requires
        kernel_fills(data, pattern, count, deps, pre, post, Ok(ev)),
    ensures
        ({
            let (program, kernel, buf) = r;
            let at = pre.trace.len() as int;
            &&& count <= u32::MAX
            &&& did(post, at, Command::FillProgram, Seq::empty(), program)
            &&& fast_width(pattern.bytes) ==> {
                &&& post.trace.len() == at + 3
                &&& did(post, at + 1, Command::FillKernel { program, width: pattern.bytes }, Seq::empty(), kernel)
                &&& did(
                    post,
                    at + 2,
                    Command::RunFill { kernel, data, pattern, count: count as u32, global: count },
                    deps,
                    ev,
                )
            }
            &&& !fast_width(pattern.bytes) ==> {
                &&& pattern.bytes <= u32::MAX
                &&& post.trace.len() == at + 6
                &&& post.trace[at + 1].command matches Command::Alloc { class, len, bytes, flags, contents } && class
                    == Class::DeviceUninit && len == pattern.bytes && bytes == pattern.bytes && flags == 4 && contents
                    == Contents::Unwritten
                &&& post.trace[at + 1].reply == Ok::<u64, i32>(buf)
                &&& post.trace[at + 2].command == (Command::Write { mem: MemRef::Buffer(buf), src: pattern, blocking: true })
                &&& post.trace[at + 2].reply is Ok
                &&& did(post, at + 3, Command::FillKernel { program, width: 0 }, Seq::empty(), kernel)
                &&& did(
                    post,
                    at + 4,
                    Command::RunFillBytes {
                        kernel,
                        data,
                        pattern: buf,
                        width: pattern.bytes as u32,
                        count: count as u32,
                        global: count,
                    },
                    deps,
                    ev,
                )
                &&& post.trace[at + 5].command == (Command::Release { mem: MemRef::Buffer(buf) })
            }
            &&& post.w == pre.w
        }),
{
    let res = Ok::<u64, Error>(ev);
    let q = choose|q: Reply|
        {
            let s = #[trigger] pre.issued(Command::FillProgram, Seq::empty(), q);
            match q {
                Err(c) => post == s && res == Err::<u64, Error>(Error::OpenCl(c)),
                Ok(program) => if fast_path_name(pattern.bytes) is Some {
                    fast_fills(program, data, pattern, count, deps, s, post, res)
                } else if pattern.bytes > u32::MAX {
                    post == s && res == Err::<u64, Error>(
                        Error::InvalidArgument("fill pattern size exceeds u32::MAX"),
                    )
                } else {
                    byte_fills(program, data, pattern, count, deps, s, post, res)
                },
            }
        };
    let s = pre.issued(Command::FillProgram, Seq::empty(), q);
    let program = q->Ok_0;
    let at = pre.trace.len() as int;
    assert(s.trace[at].command is FillProgram);
    if fast_path_name(pattern.bytes) is Some {
        let k = choose|q: Reply|
            {
                let t = #[trigger] s.issued(Command::FillKernel { program, width: pattern.bytes }, Seq::empty(), q);
                match q {
                    Err(c) => post == t && res == Err::<u64, Error>(Error::OpenCl(c)),
                    Ok(kernel) => launches(
                        Command::RunFill { kernel, data, pattern, count: count as u32, global: count },
                        deps,
                        t,
                        post,
                        res,
                    ),
                }
            };
        let t = s.issued(Command::FillKernel { program, width: pattern.bytes }, Seq::empty(), k);
        let kernel = k->Ok_0;
        let run = Command::RunFill { kernel, data, pattern, count: count as u32, global: count };
        lemma_launched(run, deps, t, post, ev);
        assert(post.trace[at] == t.trace[at]);
        assert(post.trace[at + 1] == t.trace[at + 1]);
        (program, kernel, 0)
    } else {
        let alloc = Command::Alloc {
            class: Class::DeviceUninit,
            len: pattern.bytes,
            bytes: pattern.bytes,
            flags: MEM_READ_ONLY,
            contents: Contents::Unwritten,
        };
        let q1 = choose|q1: Reply|
            {
                let s1 = #[trigger] s.issued(alloc, Seq::empty(), q1);
                match q1 {
                    Err(c) => post == s1 && res == Err::<u64, Error>(Error::OpenCl(c)),
                    Ok(buf) => byte_fill_written(program, buf, data, pattern, count, deps, s1, post, res),
                }
            };
        let s1 = s.issued(alloc, Seq::empty(), q1);
        let buf = q1->Ok_0;
        let write = Command::Write { mem: MemRef::Buffer(buf), src: pattern, blocking: true };
        let q2 = choose|q2: Reply|
            {
                let s2 = #[trigger] s1.issued(write, Seq::empty(), q2);
                match q2 {
                    Err(c) => releases_buffer(buf, s2, post) && res == Err::<u64, Error>(Error::OpenCl(c)),
                    Ok(_) => byte_fill_launched(program, buf, data, pattern, count, deps, s2, post, res),
                }
            };
        let s2 = s1.issued(write, Seq::empty(), q2);
        let q3 = choose|q3: Reply|
            {
                let s3 = #[trigger] s2.issued(Command::FillKernel { program, width: 0 }, Seq::empty(), q3);
                match q3 {
                    Err(c) => releases_buffer(buf, s3, post) && res == Err::<u64, Error>(Error::OpenCl(c)),
                    Ok(kernel) => exists|m: Walk| #[trigger] launches(
                        Command::RunFillBytes {
                            kernel,
                            data,
                            pattern: buf,
                            width: pattern.bytes as u32,
                            count: count as u32,
                            global: count,
                        },
                        deps,
                        s3,
                        m,
                        res,
                    ) && releases_buffer(buf, m, post),
                }
            };
        let s3 = s2.issued(Command::FillKernel { program, width: 0 }, Seq::empty(), q3);
        let kernel = q3->Ok_0;
        let run = Command::RunFillBytes {
            kernel,
            data,
            pattern: buf,
            width: pattern.bytes as u32,
            count: count as u32,
            global: count,
        };
        let m = choose|m: Walk| #[trigger] launches(run, deps, s3, m, res) && releases_buffer(buf, m, post);
        lemma_launched(run, deps, s3, m, ev);
        assert(s3.trace[at] == s.trace[at]);
        assert(s3.trace[at + 1] == s1.trace[at + 1]);
        assert(s3.trace[at + 2] == s2.trace[at + 2]);
        assert(m.trace[at] == s3.trace[at]);
        assert(m.trace[at + 1] == s3.trace[at + 1]);
        assert(m.trace[at + 2] == s3.trace[at + 2]);
        assert(m.trace[at + 3] == s3.trace[at + 3]);
        (program, kernel, buf)
    }
}

proof fn lemma_launched(command: Command, deps: Seq<u64>, pre: Walk, post: Walk, ev: u64)
    requires
        launches(command, deps, pre, post, Ok(ev)),
    ensures
        post.trace.len() == pre.trace.len() + 1,
        did(post, pre.trace.len() as int, command, deps, ev),
        forall|k: int| 0 <= k < pre.trace.len() ==> pre.trace[k] == #[trigger] post.trace[k],
        post == (Walk { trace: post.trace, ..pre }),
{
}

/// A fill by a kernel is refused, with nothing enqueued, if there are more patterns than a
/// kernel can count; and a pattern is refused whose width is none of the fast ones and
/// cannot be counted.
pub proof fn law_uncountable_fills_are_refused(
    data: MemRef,
    pattern: HostRef,
    count: usize,
    deps: Seq<u64>,
    pre: Walk,
    post: Walk,
    res: OpResult<u64>,
)
    requires
        kernel_fills(data, pattern, count, deps, pre, post, res),
    ensures
        count > u32::MAX ==> post == pre && (res matches Err(e) && e is InvalidArgument),
        count <= u32::MAX ==> post.trace.len() > pre.trace.len(),
        !fast_width(pattern.bytes) && pattern.bytes > u32::MAX ==> res is Err,
{
}

/// A launch is answered by its event, or by the driver's refusal as an error.
pub proof fn law_launch_is_answered_by_its_event(
    command: Command,
    deps: Seq<u64>,
    pre: Walk,
    post: Walk,
    res: OpResult<u64>,
)
    requires
        launches(command, deps, pre, post, res),
    ensures
        post.trace.len() == pre.trace.len() + 1,
        post.trace.last().command == command,
        post.trace.last().waits == deps,
        post.trace.last().reply matches Ok(ev) ==> res == Ok::<u64, Error>(ev),
        post.trace.last().reply matches Err(c) ==> res == Err::<u64, Error>(Error::OpenCl(c)),
        post == (Walk { trace: post.trace, ..pre }),
{
}

/// A map by hand that went well: the map itself, behind the events that were given, then
/// where the host finds it; the answer is that address and the event of the map.
pub proof fn law_mapped_range_is_where_the_map_put_it(
    command: Command,
    deps: Seq<u64>,
    pre: Walk,
    post: Walk,
    host: u64,
    ev: u64,
)
    requires
        maps_range(command, deps, pre, post, Ok((host, ev))),
    ensures
        post.trace.len() == pre.trace.len() + 2,
        did(post, pre.trace.len() as int, command, deps, ev),
        did(post, pre.trace.len() as int + 1, Command::MappedAt { event: ev }, Seq::empty(), host),
{
    let res = Ok::<(u64, u64), Error>((host, ev));
    let (m, r) = choose|m: Walk, r: OpResult<u64>| #[trigger] launches(command, deps, pre, m, r) && match r {
        Err(e) => post == m && res == Err::<(u64, u64), Error>(e),
        Ok(ev) => exists|p: OpResult<u64>| #[trigger]
            launches(Command::MappedAt { event: ev }, Seq::empty(), m, post, p) && res == (match p {
                Err(e) => Err::<(u64, u64), Error>(e),
                Ok(host) => Ok((host, ev)),
            }),
    };
    lemma_launched(command, deps, pre, m, r->Ok_0);
    let p = choose|p: OpResult<u64>| #[trigger]
        launches(Command::MappedAt { event: r->Ok_0 }, Seq::empty(), m, post, p) && res == (match p {
            Err(e) => Err::<(u64, u64), Error>(e),
            Ok(host) => Ok((host, r->Ok_0)),
        });
    lemma_launched(Command::MappedAt { event: r->Ok_0 }, Seq::empty(), m, post, p->Ok_0);
    assert(post.trace[pre.trace.len() as int] == m.trace[pre.trace.len() as int]);
}

} // verus!
