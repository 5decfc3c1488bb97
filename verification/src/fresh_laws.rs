//! What holds of things that were just made.

use crate::contents_laws::{contents, Held, Place};
use crate::exec_ctx::Walk;
use crate::input::{after_offer, readiness, Input};
use crate::obj::{is_svm, Class, Command, Contents, Issued, Reply};
use crate::seeds::{alloc_after, seed_after, seeded_obj, AllocZero, Seed};
use crate::slots::{Binding, SlotHandle};
use crate::store::{CbView, World};
use vstd::prelude::*;

verus! {

broadcast use crate::store::group_fresh_ids;

/// Two ops made one after the other have two places for a command buffer. Both are
/// empty, and what the one keeps the other does not see.
pub proof fn law_new_caches_are_empty_and_apart(w: World, cb: CbView)
    requires
        w.next + 2 <= u64::MAX,
    ensures
        ({
            let a = w.next;
            let b = w.fresh_ids(1nat).next;
            let w2 = w.fresh_ids(1nat).fresh_ids(1nat);
            &&& a != b
            &&& w2.cached(a) is None
            &&& w2.cached(b) is None
            &&& w2.keeping(a, cb).cached(a) == Some(cb)
            &&& w2.keeping(a, cb).cached(b) is None
            &&& w2.keeping(b, cb).cached(a) is None
        }),
{
}

/// Two slots made for the same tag are two slots. Both start unbound, so that an
/// op with either is not ready; and a value offered to the one reaches the one
/// alone.
pub proof fn law_new_slots_are_unbound_and_apart(w: World, a: SlotHandle, b: SlotHandle, sink: u64, o: Binding)
    requires
        w.next + 2 <= u64::MAX,
        a.cell == w.next,
        b.cell == w.fresh_ids(1nat).next,
    ensures
        ({
            let w2 = w.fresh_ids(1nat).fresh_ids(1nat);
            let input = Input::Slot { key: a.key, name: a.name, cell: a.cell, sink };
            let other = Input::Slot { key: b.key, name: b.name, cell: b.cell, sink };
            &&& a.cell != b.cell
            &&& w2.slot(a.cell) is Unbound
            &&& w2.slot(b.cell) is Unbound
            &&& readiness(w2, input) is Err
            &&& readiness(w2, other) is Err
            &&& after_offer(w2, input, o).slot(b.cell) is Unbound
            &&& after_offer(w2, other, o).slot(a.cell) is Unbound
        }),
{
}

/// The first run of a buffer that was just made with host data allocates it, with
/// its creation flags and its data, and hands it out: the memory holds the data,
/// and nothing is to be waited for.
pub proof fn law_first_run_allocates_the_data(u: Seed, made: World, pre: Walk, h: u64)
    requires
        made.next + 2 <= u64::MAX,
        u.buf == made.next,
        pre.w == made.fresh_ids(2nat),
        is_svm(u.kind.class_spec()) ==> pre.has_svm,
    ensures
        ({
            let reply: Reply = Ok(h);
            let (post, r) = seed_after(u, pre, Seq::empty(), reply);
            let o = seeded_obj(u, pre.context, h);
            &&& r is Ok
            &&& post.trace == pre.trace.push(
                Issued {
                    queue: pre.queue,
                    command: Command::Alloc {
                        class: u.kind.class_spec(),
                        len: u.src.len,
                        bytes: u.src.bytes,
                        flags: u.flags,
                        contents: Contents::From(u.src),
                    },
                    waits: Seq::empty(),
                    reply,
                },
            )
            &&& post.w.parcel(u.out.cell) is Some
            &&& post.w.parcel(u.out.cell)->Some_0.value == seq![o]
            &&& post.w.parcel(u.out.cell)->Some_0.deps.len() == 0
            &&& contents(post.trace, Place::Mem(o.mem_spec(), o.bytes)) == contents(
                pre.trace,
                Place::Host(u.src.id, u.src.bytes),
            )
        }),
{
    let reply: Reply = Ok(h);
    let post = seed_after(u, pre, Seq::empty(), reply).0;
    assert(pre.w.held(u.buf) is None);
    assert(!pre.w.is_seeded(u.buf));
    assert(post.trace.drop_last() =~= pre.trace);
}

/// Every run of an allocation of zeros hands out new memory of its length that
/// holds zeros, created with its flags.
pub proof fn law_every_run_allocates_zeros(z: AllocZero, pre: Walk, h: u64)
    ensures
        ({
            let reply: Reply = Ok(h);
            let (post, r) = alloc_after(pre, Class::Device, z.len, z.bytes, z.flags, Contents::Zero, z.out, reply);
            let out = post.w.parcel(z.out.cell);
            &&& r is Ok
            &&& post.trace.len() == pre.trace.len() + 1
            &&& post.trace.last().command == (Command::Alloc {
                class: Class::Device,
                len: z.len,
                bytes: z.bytes,
                flags: z.flags,
                contents: Contents::Zero,
            })
            &&& out is Some
            &&& out->Some_0.value.len() == 1
            &&& out->Some_0.value[0].id == h
            &&& out->Some_0.value[0].len == z.len
            &&& out->Some_0.value[0].bytes == z.bytes
            &&& out->Some_0.deps.len() == 0
            &&& contents(post.trace, Place::Mem(out->Some_0.value[0].mem_spec(), z.bytes)) == Held::Zero
        }),
{
}

} // verus!
