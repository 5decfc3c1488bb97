//! Filling memory with a kernel, where the device has no fill command for the
//! pattern.

use crate::access::MEM_READ_ONLY;
use crate::error::{Error, OpResult};
use crate::exec_ctx::{kept, Driver, ExecutionContext, Walk};
use crate::leaf::no_deps;
use crate::obj::{Class, Command, Contents, HostRef, MemRef, Reply};
use vstd::prelude::*;

verus! {

/// The kernel that fills from a pattern in a buffer, byte by byte.
pub const KERNEL_BYTES: &'static str = "claspr_fill_bytes";

/// The source of the program that holds the fill kernels.
pub const FILL_PROGRAM_SOURCE: &'static str = "
__kernel void claspr_fill_1 (__global uchar*  data, uchar  value, uint count) {
    uint id = get_global_id(0);
    if (id < count) data[id] = value;
}

__kernel void claspr_fill_2 (__global ushort* data, ushort value, uint count) {
    uint id = get_global_id(0);
    if (id < count) data[id] = value;
}

__kernel void claspr_fill_4 (__global uint*   data, uint   value, uint count) {
    uint id = get_global_id(0);
    if (id < count) data[id] = value;
}

__kernel void claspr_fill_8 (__global ulong*  data, ulong  value, uint count) {
    uint id = get_global_id(0);
    if (id < count) data[id] = value;
}

__kernel void claspr_fill_16(__global ulong2* data, ulong2 value, uint count) {
    uint id = get_global_id(0);
    if (id < count) data[id] = value;
}

/* Byte-generic fallback: pattern as small global buffer. The host
 * allocates a per-fill pattern buffer holding `pattern_size` bytes,
 * passes it as the second arg. Each work-item writes `pattern_size`
 * bytes from `pattern` to its slot in `data`. */
__kernel void claspr_fill_bytes(
    __global       uchar* data,
    __global const uchar* pattern,
    uint pattern_size,
    uint count
) {
    uint id = get_global_id(0);
    if (id < count) {
        uint base = id * pattern_size;
        for (uint i = 0; i < pattern_size; i++) {
            data[base + i] = pattern[i];
        }
    }
}
";

/// The name of the kernel for patterns of `pattern_size` bytes, where there is
/// one that takes the pattern as an argument.
pub open spec fn fast_path_name(pattern_size: usize) -> Option<&'static str> {
    if pattern_size == 1 {
        Some("claspr_fill_1")
    } else if pattern_size == 2 {
        Some("claspr_fill_2")
    } else if pattern_size == 4 {
        Some("claspr_fill_4")
    } else if pattern_size == 8 {
        Some("claspr_fill_8")
    } else if pattern_size == 16 {
        Some("claspr_fill_16")
    } else {
        None
    }
}

/// The name of the kernel for patterns of `pattern_size` bytes, where there is
/// one that takes the pattern as an argument.
pub fn fast_path_kernel_name(pattern_size: usize) -> (r: Option<&'static str>)
    ensures
        r == fast_path_name(pattern_size),
{
    match pattern_size {
        1 => Some("claspr_fill_1"),
        2 => Some("claspr_fill_2"),
        4 => Some("claspr_fill_4"),
        8 => Some("claspr_fill_8"),
        16 => Some("claspr_fill_16"),
        _ => None,
    }
}

/// A kernel fill of `count` patterns. More patterns, or a wider pattern, than
/// the kernels can count are refused.
pub open spec fn kernel_fills(
    data: MemRef,
    pattern: HostRef,
    count: usize,
    deps: Seq<u64>,
    pre: Walk,
    post: Walk,
    res: OpResult<u64>,
) -> bool {
    if count > u32::MAX {
        post == pre && res == Err::<u64, Error>(Error::InvalidArgument("fill count exceeds u32::MAX"))
    } else {
        exists|q: Reply|
            {
                let s = #[trigger] pre.issued(Command::FillProgram, Seq::empty(), q);
                match q {
                    Err(c) => post == s && res == Err::<u64, Error>(Error::OpenCl(c)),
                    Ok(program) => if fast_path_name(pattern.bytes) is Some {
                        fast_fills(program, data, pattern, count, deps, s, post, res)
                    } else if pattern.bytes > u32::MAX {
                        post == s && res == Err::<u64, Error>(
                            Error::InvalidArgument("fill pattern size exceeds u32::MAX"),
                        )
                    } else {
                        byte_fills(program, data, pattern, count, deps, s, post, res)
                    },
                }
            }
    }
}

/// A kernel fill with the pattern as an argument.
pub open spec fn fast_fills(
    program: u64,
    data: MemRef,
    pattern: HostRef,
    count: usize,
    deps: Seq<u64>,
    pre: Walk,
    post: Walk,
    res: OpResult<u64>,
) -> bool {
    exists|q: Reply|
        {
            let s = #[trigger] pre.issued(
                Command::FillKernel { program, width: pattern.bytes },
                Seq::empty(),
                q,
            );
            match q {
                Err(c) => post == s && res == Err::<u64, Error>(Error::OpenCl(c)),
                Ok(kernel) => launches(
                    Command::RunFill { kernel, data, pattern, count: count as u32, global: count },
                    deps,
                    s,
                    post,
                    res,
                ),
            }
        }
}

/// A launch: its event, or the driver's refusal.
pub open spec fn launches(command: Command, deps: Seq<u64>, pre: Walk, post: Walk, res: OpResult<u64>) -> bool {
    exists|q: Reply|
        post == (#[trigger] pre.issued(command, deps, q)) && res == (match q {
            Err(c) => Err::<u64, Error>(Error::OpenCl(c)),
            Ok(ev) => Ok(ev),
        })
}

/// Letting go of a buffer.
pub open spec fn releases_buffer(buf: u64, pre: Walk, post: Walk) -> bool {
    exists|x: Reply|
        post == #[trigger] pre.issued(Command::Release { mem: MemRef::Buffer(buf) }, Seq::empty(), x)
}

/// A kernel fill with the pattern in a buffer that is written first, and let go of
/// on every way out.
pub open spec fn byte_fills(
    program: u64,
    data: MemRef,
    pattern: HostRef,
    count: usize,
    deps: Seq<u64>,
    pre: Walk,
    post: Walk,
    res: OpResult<u64>,
) -> bool {
    exists|q1: Reply|
        {
            let s1 = #[trigger] pre.issued(
                Command::Alloc {
                    class: Class::DeviceUninit,
                    len: pattern.bytes,
                    bytes: pattern.bytes,
                    flags: MEM_READ_ONLY,
                    contents: Contents::Unwritten,
                },
                Seq::empty(),
                q1,
            );
            match q1 {
                Err(c) => post == s1 && res == Err::<u64, Error>(Error::OpenCl(c)),
                Ok(buf) => byte_fill_written(program, buf, data, pattern, count, deps, s1, post, res),
            }
        }
}

/// The same, from the writing of the pattern into its buffer on.
pub open spec fn byte_fill_written(
    program: u64,
    buf: u64,
    data: MemRef,
    pattern: HostRef,
    count: usize,
    deps: Seq<u64>,
    s1: Walk,
    post: Walk,
    res: OpResult<u64>,
) -> bool {
    exists|q2: Reply|
        {
            let s2 = #[trigger] s1.issued(
                Command::Write { mem: MemRef::Buffer(buf), src: pattern, blocking: true },
                Seq::empty(),
                q2,
            );
            match q2 {
                Err(c) => releases_buffer(buf, s2, post) && res == Err::<u64, Error>(Error::OpenCl(c)),
                Ok(_) => byte_fill_launched(program, buf, data, pattern, count, deps, s2, post, res),
            }
        }
}

/// The same, once the pattern is in its buffer.
pub open spec fn byte_fill_launched(
    program: u64,
    buf: u64,
    data: MemRef,
    pattern: HostRef,
    count: usize,
    deps: Seq<u64>,
    s2: Walk,
    post: Walk,
    res: OpResult<u64>,
) -> bool {
    exists|q3: Reply|
        {
            let s3 = #[trigger] s2.issued(Command::FillKernel { program, width: 0 }, Seq::empty(), q3);
            match q3 {
                Err(c) => releases_buffer(buf, s3, post) && res == Err::<u64, Error>(Error::OpenCl(c)),
                Ok(kernel) => exists|m: Walk| #[trigger] launches(
                    Command::RunFillBytes {
                        kernel,
                        data,
                        pattern: buf,
                        width: pattern.bytes as u32,
                        count: count as u32,
                        global: count,
                    },
                    deps,
                    s3,
                    m,
                    res,
                ) && releases_buffer(buf, m, post),
            }
        }
}

/// Perform a command whose answer is an event or a refusal.
pub fn launch<D: Driver>(ec: &mut ExecutionContext<D>, command: Command, deps: &Vec<u64>) -> (r: OpResult<u64>)
    ensures
        launches(command, deps@, old(ec)@, final(ec)@, r),
        kept(old(ec)@, final(ec)@),
{
    let ghost pre = ec@;
    let q: Reply = ec.issue(command, deps);
    assert(ec@ == pre.issued(command, deps@, q));
    match q {
        Ok(ev) => Ok(ev),
        Err(c) => Err(Error::OpenCl(c)),
    }
}

/// Fill `count` patterns of memory with a kernel.
pub fn fill_via_kernel<D: Driver>(
    ec: &mut ExecutionContext<D>,
    data: MemRef,
    pattern: HostRef,
    count: usize,
    deps: &Vec<u64>,
) -> (r: OpResult<u64>)
    ensures
        kernel_fills(data, pattern, count, deps@, old(ec)@, final(ec)@, r),
        kept(old(ec)@, final(ec)@),
{
    let ghost pre = ec@;
    if count > u32::MAX as usize {
        return Err(Error::InvalidArgument("fill count exceeds u32::MAX"));
    }
    let count_u32: u32 = count as u32;
    let q: Reply = ec.issue(Command::FillProgram, &no_deps());
    let ghost s = ec@;
    assert(s == pre.issued(Command::FillProgram, Seq::empty(), q));
    let program: u64 = match q {
        Ok(p) => p,
        Err(c) => {
            return Err(Error::OpenCl(c));
        },
    };
    if fast_path_kernel_name(pattern.bytes).is_some() {
        let q1: Reply = ec.issue(Command::FillKernel { program, width: pattern.bytes }, &no_deps());
        let ghost s1 = ec@;
        assert(s1 == s.issued(
            Command::FillKernel { program, width: pattern.bytes },
            Seq::empty(),
            q1,
        ));
        let kernel: u64 = match q1 {
            Ok(k) => k,
            Err(c) => {
                assert(fast_fills(
                    program,
                    data,
                    pattern,
                    count,
                    deps@,
                    s,
                    ec@,
                    Err(Error::OpenCl(c)),
                ));
                return Err(Error::OpenCl(c));
            },
        };
        let r = launch(
            ec,
            Command::RunFill { kernel, data, pattern, count: count_u32, global: count },
            deps,
        );
        assert(fast_fills(program, data, pattern, count, deps@, s, ec@, r));
        r
    } else if pattern.bytes > u32::MAX as usize {
        Err(Error::InvalidArgument("fill pattern size exceeds u32::MAX"))
    } else {
        let width: u32 = pattern.bytes as u32;
        let r = fill_bytes(ec, program, data, pattern, count, width, deps);
        assert(byte_fills(program, data, pattern, count, deps@, s, ec@, r));
        r
    }
}

fn fill_bytes<D: Driver>(
    ec: &mut ExecutionContext<D>,
    program: u64,
    data: MemRef,
    pattern: HostRef,
    count: usize,
    width: u32,
    deps: &Vec<u64>,
) -> (r: OpResult<u64>)
    requires
        count <= u32::MAX,
        width == pattern.bytes,
    ensures
        byte_fills(program, data, pattern, count, deps@, old(ec)@, final(ec)@, r),
        kept(old(ec)@, final(ec)@),
{
    let ghost pre = ec@;
    let q1: Reply = ec.issue(
        Command::Alloc {
            class: Class::DeviceUninit,
            len: pattern.bytes,
            bytes: pattern.bytes,
            flags: MEM_READ_ONLY,
            contents: Contents::Unwritten,
        },
        &no_deps(),
    );
    let ghost s1 = ec@;
    assert(s1 == pre.issued(
        Command::Alloc {
            class: Class::DeviceUninit,
            len: pattern.bytes,
            bytes: pattern.bytes,
            flags: MEM_READ_ONLY,
            contents: Contents::Unwritten,
        },
        Seq::empty(),
        q1,
    ));
    let buf: u64 = match q1 {
        Ok(b) => b,
        Err(c) => {
            return Err(Error::OpenCl(c));
        },
    };
    let q2: Reply = ec.issue(
        Command::Write { mem: MemRef::Buffer(buf), src: pattern, blocking: true },
        &no_deps(),
    );
    let ghost s2 = ec@;
    assert(s2 == s1.issued(
        Command::Write { mem: MemRef::Buffer(buf), src: pattern, blocking: true },
        Seq::empty(),
        q2,
    ));
    if let Err(c) = q2 {
        release_buffer(ec, buf);
        return Err(Error::OpenCl(c));
    }
    let q3: Reply = ec.issue(Command::FillKernel { program, width: 0 }, &no_deps());
    let ghost s3 = ec@;
    assert(s3 == s2.issued(Command::FillKernel { program, width: 0 }, Seq::empty(), q3));
    let kernel: u64 = match q3 {
        Ok(k) => k,
        Err(c) => {
            release_buffer(ec, buf);
            return Err(Error::OpenCl(c));
        },
    };
    let r: OpResult<u64> = launch(
        ec,
        Command::RunFillBytes {
            kernel,
            data,
            pattern: buf,
            width,
            count: count as u32,
            global: count,
        },
        deps,
    );
    release_buffer(ec, buf);
    r
}

fn release_buffer<D: Driver>(ec: &mut ExecutionContext<D>, buf: u64)
    ensures
        releases_buffer(buf, old(ec)@, final(ec)@),
        kept(old(ec)@, final(ec)@),
{
    let ghost pre = ec@;
    let x: Reply = ec.issue(Command::Release { mem: MemRef::Buffer(buf) }, &no_deps());
    assert(ec@ == pre.issued(Command::Release { mem: MemRef::Buffer(buf) }, Seq::empty(), x));
}

} // verus!
