//! What holds of a graph by its shape alone: what its parts ask for, the whole asks for.

use crate::cb::kept_handle;
use crate::error::Error;
use crate::graph::{
    addable_from, addable_of, cache_of, capped, devices_from, devices_of, handles_from, handles_of, kept_ids_from,
    kept_ids_of, labels_from, labels_of, node_label_of, outline_of, output_pipe_of, outs_from, outs_of, ready_from,
    ready_of, seam_from, seam_of, DeviceOp, HandleView,
};
use crate::leaf_op::LeafOp;
use crate::leaves::LeafNode;
use crate::store::World;
use crate::text::decimal;
use vstd::prelude::*;

verus! {

/// The ops that an op is made of, in the order in which they run.
pub open spec fn parts_of(op: DeviceOp) -> Seq<DeviceOp> {
    match op {
        DeviceOp::Leaf(_) => Seq::empty(),
        DeviceOp::AndThen(n) => seq![n.source, n.next],
        DeviceOp::Arced(n) => seq![n.source],
        DeviceOp::ArcSplit(n) => seq![n.source],
        DeviceOp::Bundle(n) => n.ops@,
        DeviceOp::FanOut(n) => n.ops@,
        DeviceOp::Dyn(n) => seq![n.inner],
        DeviceOp::OnDevice(n) => seq![n.source],
        DeviceOp::Host(n) => seq![n.source],
        DeviceOp::HostWithContext(n) => seq![n.source],
        DeviceOp::Profiled(n) => seq![n.source],
    }
}

proof fn lemma_ready_list(ops: Vec<DeviceOp>, i: nat, w: World)
    ensures
        ready_from(ops, i, w) is Ok <==> forall|k: int| i <= k < ops.len() ==> ready_of(#[trigger] ops[k], w) is Ok,
        ready_from(ops, i, w) matches Err(e) ==> exists|k: int|
            i <= k < ops.len() && ready_of(#[trigger] ops[k], w) == Err::<(), Error>(e) && (forall|j: int|
                i <= j < k ==> ready_of(#[trigger] ops[j], w) is Ok),
    decreases ops.len() - i,
{
    if i < ops.len() {
        lemma_ready_list(ops, i + 1, w);
        if ready_of(ops[i as int], w) is Ok {
            if let Err(e) = ready_from(ops, i, w) {
                let k = choose|k: int|
                    i + 1 <= k < ops.len() && ready_of(#[trigger] ops[k], w) == Err::<(), Error>(e) && (
                    forall|j: int| i + 1 <= j < k ==> ready_of(#[trigger] ops[j], w) is Ok);
                assert forall|j: int| i <= j < k implies ready_of(#[trigger] ops[j], w) is Ok by {}
            }
            assert forall|k: int| i <= k < ops.len() && ready_from(ops, i, w) is Ok implies ready_of(
                #[trigger] ops[k],
                w,
            ) is Ok by {}
        }
    }
}

/// A combined op is ready if and only if every part is; the answer of one that is not is
/// that of the first part that is not.
pub proof fn law_ready_when_every_part_is(op: DeviceOp, w: World)
    requires
        !(op is Leaf),
    ensures
        ready_of(op, w) is Ok <==> forall|k: int| 0 <= k < parts_of(op).len() ==> ready_of(#[trigger] parts_of(op)[k], w) is Ok,
        ready_of(op, w) matches Err(e) ==> exists|k: int|
            0 <= k < parts_of(op).len() && ready_of(#[trigger] parts_of(op)[k], w) == Err::<(), Error>(e)
                && (forall|j: int| 0 <= j < k ==> ready_of(#[trigger] parts_of(op)[j], w) is Ok),
{
    let parts = parts_of(op);
    match op {
        DeviceOp::Bundle(n) => {
            lemma_ready_list(n.ops, 0, w);
            assert forall|k: int| 0 <= k < parts.len() implies #[trigger] parts[k] == n.ops[k] by {}
            if let Err(e) = ready_of(op, w) {
                let k = choose|k: int|
                    0 <= k < n.ops.len() && ready_of(#[trigger] n.ops[k], w) == Err::<(), Error>(e) && (
                    forall|j: int| 0 <= j < k ==> ready_of(#[trigger] n.ops[j], w) is Ok);
                assert(ready_of(parts[k], w) == Err::<(), Error>(e));
                assert forall|j: int| 0 <= j < k implies ready_of(#[trigger] parts[j], w) is Ok by {
                    assert(ready_of(n.ops[j], w) is Ok);
                }
            } else {
                assert forall|j: int| 0 <= j < parts.len() implies ready_of(#[trigger] parts[j], w) is Ok by {
                    assert(ready_of(n.ops[j], w) is Ok);
                }
            }
        },
        DeviceOp::FanOut(n) => {
            lemma_ready_list(n.ops, 0, w);
            if let Err(e) = ready_of(op, w) {
                let k = choose|k: int|
                    0 <= k < n.ops.len() && ready_of(#[trigger] n.ops[k], w) == Err::<(), Error>(e) && (
                    forall|j: int| 0 <= j < k ==> ready_of(#[trigger] n.ops[j], w) is Ok);
                assert(ready_of(parts[k], w) == Err::<(), Error>(e));
                assert forall|j: int| 0 <= j < k implies ready_of(#[trigger] parts[j], w) is Ok by {
                    assert(ready_of(n.ops[j], w) is Ok);
                }
            } else {
                assert forall|j: int| 0 <= j < parts.len() implies ready_of(#[trigger] parts[j], w) is Ok by {
                    assert(ready_of(n.ops[j], w) is Ok);
                }
            }
        },
        DeviceOp::AndThen(n) => {
            assert(parts[0] == n.source && parts[1] == n.next);
        },
        _ => {
            assert(ready_of(parts[0], w) == ready_of(op, w));
        },
    }
}

proof fn lemma_devices_list(ops: Vec<DeviceOp>, i: nat)
    ensures
        forall|k: int| i <= k < ops.len() ==> devices_of(#[trigger] ops[k]) <= devices_from(ops, i),
        devices_from(ops, i) == 0 || exists|k: int|
            i <= k < ops.len() && devices_of(#[trigger] ops[k]) == devices_from(ops, i),
    decreases ops.len() - i,
{
    if i < ops.len() {
        lemma_devices_list(ops, i + 1);
        assert(devices_of(ops[i as int]) <= devices_from(ops, i));
    }
}

/// A context with the devices that a combined op needs has those that each part needs, and
/// the device that the op itself is routed to. No more are asked for than some part or the
/// routing needs.
pub proof fn law_devices_are_enough_for_every_part(op: DeviceOp)
    requires
        !(op is Leaf),
    ensures
        forall|k: int| 0 <= k < parts_of(op).len() ==> devices_of(#[trigger] parts_of(op)[k]) <= devices_of(op),
        op matches DeviceOp::OnDevice(n) ==> n.target.devices_needed() <= devices_of(op),
        devices_of(op) == 0 || (exists|k: int|
            0 <= k < parts_of(op).len() && devices_of(#[trigger] parts_of(op)[k]) == devices_of(op)) || (op matches
            DeviceOp::OnDevice(n) && n.target.devices_needed() == devices_of(op)),
{
    let parts = parts_of(op);
    match op {
        DeviceOp::Bundle(n) => {
            lemma_devices_list(n.ops, 0);
            assert forall|k: int| 0 <= k < parts.len() implies devices_of(#[trigger] parts[k]) <= devices_of(op) by {
                assert(devices_of(n.ops[k]) <= devices_from(n.ops, 0));
            }
            if devices_of(op) != 0 {
                let k = choose|k: int| 0 <= k < n.ops.len() && devices_of(#[trigger] n.ops[k]) == devices_from(n.ops, 0);
                assert(devices_of(parts[k]) == devices_of(op));
            }
        },
        DeviceOp::FanOut(n) => {
            lemma_devices_list(n.ops, 0);
            assert forall|k: int| 0 <= k < parts.len() implies devices_of(#[trigger] parts[k]) <= devices_of(op) by {
                assert(devices_of(n.ops[k]) <= devices_from(n.ops, 0));
            }
            if devices_of(op) != 0 {
                let k = choose|k: int| 0 <= k < n.ops.len() && devices_of(#[trigger] n.ops[k]) == devices_from(n.ops, 0);
                assert(devices_of(parts[k]) == devices_of(op));
            }
        },
        DeviceOp::AndThen(n) => {
            assert(parts[0] == n.source && parts[1] == n.next);
        },
        _ => {
            assert(devices_of(parts[0]) <= devices_of(op));
        },
    }
}

proof fn lemma_seam_list(ops: Vec<DeviceOp>, i: nat)
    ensures
        seam_from(ops, i) <==> exists|k: int| i <= k < ops.len() && seam_of(#[trigger] ops[k]),
    decreases ops.len() - i,
{
    if i < ops.len() {
        lemma_seam_list(ops, i + 1);
    }
}

/// An op holds a host closure if and only if it calls one itself or one of its parts holds
/// one.
pub proof fn law_host_closures_are_seen(op: DeviceOp)
    ensures
        seam_of(op) <==> (op is Host || op is HostWithContext || exists|k: int|
            0 <= k < parts_of(op).len() && seam_of(#[trigger] parts_of(op)[k])),
{
    let parts = parts_of(op);
    match op {
        DeviceOp::Leaf(_) => {},
        DeviceOp::Bundle(n) => {
            lemma_seam_list(n.ops, 0);
            assert forall|k: int| 0 <= k < parts.len() implies #[trigger] parts[k] == n.ops[k] by {}
            if seam_of(op) {
                let k = choose|k: int| 0 <= k < n.ops.len() && seam_of(#[trigger] n.ops[k]);
                assert(seam_of(parts[k]));
            }
        },
        DeviceOp::FanOut(n) => {
            lemma_seam_list(n.ops, 0);
            assert forall|k: int| 0 <= k < parts.len() implies #[trigger] parts[k] == n.ops[k] by {}
            if seam_of(op) {
                let k = choose|k: int| 0 <= k < n.ops.len() && seam_of(#[trigger] n.ops[k]);
                assert(seam_of(parts[k]));
            }
        },
        DeviceOp::AndThen(n) => {
            assert(parts[0] == n.source && parts[1] == n.next);
        },
        _ => {
            assert(parts[0] == parts[0]);
        },
    }
}

proof fn lemma_addable_list(ops: Vec<DeviceOp>, i: nat)
    ensures
        addable_from(ops, i) <==> forall|k: int| i <= k < ops.len() ==> addable_of(#[trigger] ops[k]),
    decreases ops.len() - i,
{
    if i < ops.len() {
        lemma_addable_list(ops, i + 1);
    }
}

/// A combined op can be part of a command buffer only if each of its parts can. A host
/// closure, a routed op, a timed op and an op behind a single output never can; a sequence,
/// a shared op and a bundle can wherever their parts can.
pub proof fn law_recordable_when_every_part_is(op: DeviceOp)
    requires
        !(op is Leaf),
    ensures
        addable_of(op) ==> forall|k: int| 0 <= k < parts_of(op).len() ==> addable_of(#[trigger] parts_of(op)[k]),
        op is Host || op is HostWithContext || op is OnDevice || op is Profiled || op is Dyn ==> !addable_of(op),
        (op is AndThen || op is Arced || op is ArcSplit || op is Bundle || (op is FanOut && parts_of(op).len() > 0)) && (
        forall|k: int| 0 <= k < parts_of(op).len() ==> addable_of(#[trigger] parts_of(op)[k])) ==> addable_of(op),
        op is FanOut && parts_of(op).len() == 0 ==> !addable_of(op),
{
    let parts = parts_of(op);
    match op {
        DeviceOp::Bundle(n) => {
            lemma_addable_list(n.ops, 0);
            assert forall|k: int| 0 <= k < parts.len() implies #[trigger] parts[k] == n.ops[k] by {}
            assert(forall|k: int| 0 <= k < n.ops.len() ==> #[trigger] n.ops[k] == parts[k]);
        },
        DeviceOp::FanOut(n) => {
            lemma_addable_list(n.ops, 0);
            assert(forall|k: int| 0 <= k < n.ops.len() ==> #[trigger] n.ops[k] == parts[k]);
        },
        DeviceOp::AndThen(n) => {
            assert(parts[0] == n.source && parts[1] == n.next);
        },
        _ => {
            assert(parts[0] == parts[0]);
        },
    }
}

/// Where an op has one output pipe, that pipe is all of its outputs.
pub proof fn law_single_output_is_the_output(op: DeviceOp)
    ensures
        output_pipe_of(op) matches Some(p) ==> outs_of(op) == seq![p],
    decreases op,
{
    match op {
        DeviceOp::AndThen(n) => {
            law_single_output_is_the_output(n.next);
        },
        DeviceOp::Leaf(l) => {
            if let Some(p) = output_pipe_of(op) {
                assert(l.outs() =~= seq![p]);
            }
        },
        DeviceOp::Host(n) => {
            if let Some(p) = output_pipe_of(op) {
                assert(n.handle@ =~= seq![p]);
            }
        },
        DeviceOp::HostWithContext(n) => {
            if let Some(p) = output_pipe_of(op) {
                assert(n.handle@ =~= seq![p]);
            }
        },
        _ => {},
    }
}

proof fn lemma_outs_list(ops: Vec<DeviceOp>, i: nat)
    requires
        i <= ops.len(),
    ensures
        outs_from(ops, i) == ops@.skip(i as int).map_values(|o: DeviceOp| outs_of(o)).flatten(),
        handles_from(ops, i) == ops@.skip(i as int).map_values(|o: DeviceOp| handles_of(o)).flatten(),
        labels_from(ops, i) == ops@.skip(i as int).map_values(|o: DeviceOp| labels_of(o)).flatten(),
    decreases ops.len() - i,
{
    let rest = ops@.skip(i as int);
    let o = rest.map_values(|o: DeviceOp| outs_of(o));
    let h = rest.map_values(|o: DeviceOp| handles_of(o));
    let l = rest.map_values(|o: DeviceOp| labels_of(o));
    if i < ops.len() {
        lemma_outs_list(ops, i + 1);
        let less = ops@.skip((i + 1) as int);
        assert(o.drop_first() =~= less.map_values(|o: DeviceOp| outs_of(o)));
        assert(h.drop_first() =~= less.map_values(|o: DeviceOp| handles_of(o)));
        assert(l.drop_first() =~= less.map_values(|o: DeviceOp| labels_of(o)));
        assert(o.first() == outs_of(ops[i as int]));
        assert(h.first() == handles_of(ops[i as int]));
        assert(l.first() == labels_of(ops[i as int]));
    } else {
        assert(o =~= Seq::empty());
        assert(h =~= Seq::empty());
        assert(l =~= Seq::empty());
    }
}

/// A bundle has the outputs and the handles of all its parts, in the order of the parts.
pub proof fn law_bundle_has_the_outputs_of_its_parts(op: DeviceOp)
    requires
        op is Bundle,
    ensures
        outs_of(op) == parts_of(op).map_values(|o: DeviceOp| outs_of(o)).flatten(),
        handles_of(op) == parts_of(op).map_values(|o: DeviceOp| handles_of(o)).flatten(),
{
    let ops = op->Bundle_0.ops;
    lemma_outs_list(ops, 0);
    assert(ops@.skip(0) =~= ops@);
}

/// The handles of an op stand for its outputs one by one: a host value is its own handle,
/// and any other handle is the pipe of its output.
pub proof fn law_handles_stand_for_outputs(op: DeviceOp)
    ensures
        handles_of(op).len() == outs_of(op).len(),
        forall|k: int|
            0 <= k < outs_of(op).len() ==> ((#[trigger] handles_of(op)[k]) matches HandleView::Pipe(p) ==> p == outs_of(
                op,
            )[k]),
        op matches DeviceOp::Leaf(LeafOp::Value(x)) ==> handles_of(op) == seq![HandleView::Value(x.v@)],
        op matches DeviceOp::Leaf(l) && !(l is Value) ==> forall|k: int|
            0 <= k < outs_of(op).len() ==> #[trigger] handles_of(op)[k] == HandleView::Pipe(outs_of(op)[k]),
    decreases op, 0nat,
{
    match op {
        DeviceOp::AndThen(n) => {
            law_handles_stand_for_outputs(n.next);
        },
        DeviceOp::Bundle(n) => {
            lemma_handles_list(n.ops, 0);
        },
        _ => {},
    }
}

proof fn lemma_handles_list(ops: Vec<DeviceOp>, i: nat)
    requires
        i <= ops.len(),
    ensures
        handles_from(ops, i).len() == outs_from(ops, i).len(),
        forall|k: int|
            0 <= k < outs_from(ops, i).len() ==> ((#[trigger] handles_from(ops, i)[k]) matches HandleView::Pipe(p) ==> p
                == outs_from(ops, i)[k]),
    decreases ops, ops.len() - i,
{
    if i < ops.len() {
        let first = ops[i as int];
        law_handles_stand_for_outputs(first);
        lemma_handles_list(ops, i + 1);
        let n = outs_of(first).len();
        assert forall|k: int| 0 <= k < outs_from(ops, i).len() implies ((#[trigger] handles_from(ops, i)[k]) matches
            HandleView::Pipe(p) ==> p == outs_from(ops, i)[k]) by {
            if k < n {
                assert(handles_of(first)[k] == handles_from(ops, i)[k]);
            } else {
                assert(handles_from(ops, i + 1)[k - n] == handles_from(ops, i)[k]);
            }
        }
    }
}

/// The names inside a combined op are those of its parts, in the order in which they run,
/// with at most one name before them and one after. A fan-out shows itself alone.
pub proof fn law_names_stand_in_running_order(op: DeviceOp) -> (r: (Seq<Seq<char>>, Seq<Seq<char>>))
    requires
        !(op is Leaf),
        !(op is FanOut),
    ensures
        r.0.len() <= 1,
        r.1.len() <= 1,
        labels_of(op) == r.0 + parts_of(op).map_values(|o: DeviceOp| labels_of(o)).flatten() + r.1,
        op is AndThen ==> r.0.len() == 0 && r.1.len() == 0,
{
    let parts = parts_of(op);
    let names = parts.map_values(|o: DeviceOp| labels_of(o));
    let none = Seq::<Seq<char>>::empty();
    match op {
        DeviceOp::Bundle(n) => {
            lemma_outs_list(n.ops, 0);
            assert(n.ops@.skip(0) =~= n.ops@);
            let a = seq![labels_of(op).first()];
            let b = seq![labels_of(op).last()];
            assert(labels_of(op) =~= a + names.flatten() + b);
            (a, b)
        },
        DeviceOp::AndThen(n) => {
            let rest = names.drop_first();
            assert(names.first() == labels_of(n.source));
            assert(rest.first() == labels_of(n.next));
            assert(rest.drop_first() =~= Seq::empty());
            reveal_with_fuel(Seq::flatten, 3);
            assert(labels_of(op) =~= none + names.flatten() + none);
            (none, none)
        },
        DeviceOp::Dyn(n) => {
            assert(names.first() == labels_of(n.inner));
            assert(names.drop_first() =~= Seq::empty());
            reveal_with_fuel(Seq::flatten, 2);
            let a = seq![labels_of(op).first()];
            let b = seq![labels_of(op).last()];
            assert(labels_of(op) =~= a + names.flatten() + b);
            (a, b)
        },
        _ => {
            let b = seq![labels_of(op).last()];
            assert(names.first() == labels_of(parts[0]));
            assert(names.drop_first() =~= Seq::empty());
            reveal_with_fuel(Seq::flatten, 2);
            assert(labels_of(op) =~= none + names.flatten() + b);
            (none, b)
        },
    }
}

/// A combined op other than a sequence shows its kind by name, with how many parts or
/// branches it has.
pub proof fn law_ops_show_their_kind(op: DeviceOp)
    ensures
        op is Arced ==> labels_of(op).last() == "arced"@ && node_label_of(op) == "arced"@,
        op matches DeviceOp::ArcSplit(n) ==> labels_of(op).last() == "arc_split["@ + decimal(n.outs@.len()) + "]"@
            && node_label_of(op) == labels_of(op).last(),
        op matches DeviceOp::Bundle(n) ==> labels_of(op).first() == "Bundle"@ + decimal(n.ops@.len()) + "{"@
            && labels_of(op).last() == "}"@ && node_label_of(op) == "Bundle"@ + decimal(n.ops@.len()),
        op matches DeviceOp::FanOut(n) ==> labels_of(op) == seq!["fan_out["@ + decimal(n.ops@.len()) + "]"@]
            && node_label_of(op) == labels_of(op).last(),
        op is Dyn ==> labels_of(op).first() == "dyn_op{"@ && labels_of(op).last() == "}"@ && node_label_of(op)
            == "dyn_op"@,
        op is OnDevice ==> labels_of(op).last() == "on_device"@ && node_label_of(op) == "on_device"@,
        op is Host ==> labels_of(op).last() == "and_then_host"@ && node_label_of(op) == "and_then_host"@,
        op is HostWithContext ==> labels_of(op).last() == "and_then_host_with_context"@ && node_label_of(op)
            == "and_then_host_with_context"@,
        op is Profiled ==> labels_of(op).last() == "profiled"@ && node_label_of(op) == "profiled"@,
{
    reveal_strlit("");
    if op is Bundle {
        let t = "Bundle"@ + decimal(op->Bundle_0.ops@.len());
        assert(""@ =~= Seq::empty());
        assert(t + ""@ =~= t);
    }
}

/// The outline of a graph: the first line is the op's own, at the depth asked for, and says
/// whether it can be recorded, whether it holds a host closure and where its single output
/// lies. Below a sequence stand the outlines of its two parts, the first part's before the
/// second's, one level deeper. No line stands above the depth asked for.
pub proof fn law_outline_shows_what_is_nested(op: DeviceOp, depth: nat)
    ensures
        outline_of(op, depth).len() >= 1,
        ({
            let line = outline_of(op, depth)[0];
            &&& line.depth == depth
            &&& line.name == node_label_of(op)
            &&& line.cb_addable == addable_of(op)
            &&& line.seam == seam_of(op)
            &&& output_pipe_of(op) matches Some(p) ==> line.out_cells == seq![p.cell]
            &&& output_pipe_of(op) is None ==> line.out_cells.len() == 0
        }),
        op matches DeviceOp::AndThen(n) ==> {
            let a = outline_of(n.source, depth + 1);
            let b = outline_of(n.next, depth + 1);
            &&& outline_of(op, depth).len() == 1 + a.len() + b.len()
            &&& forall|k: int| 0 <= k < a.len() ==> outline_of(op, depth)[1 + k] == #[trigger] a[k]
            &&& forall|k: int| 0 <= k < b.len() ==> outline_of(op, depth)[1 + a.len() + k] == #[trigger] b[k]
        },
        !(op is AndThen) ==> outline_of(op, depth).len() == 1,
        forall|k: int| 0 <= k < outline_of(op, depth).len() ==> (#[trigger] outline_of(op, depth)[k]).depth >= depth,
    decreases op,
{
    if let DeviceOp::AndThen(n) = op {
        law_outline_shows_what_is_nested(n.source, depth + 1);
        law_outline_shows_what_is_nested(n.next, depth + 1);
        let a = outline_of(n.source, depth + 1);
        let b = outline_of(n.next, depth + 1);
        let all = outline_of(op, depth);
        assert forall|k: int| 0 <= k < all.len() implies (#[trigger] all[k]).depth >= depth by {
            if 0 < k <= a.len() {
                assert(all[k] == a[k - 1]);
            } else if k > a.len() {
                assert(all[k] == b[k - 1 - a.len()]);
            }
        }
    }
}

proof fn lemma_kept_list(ops: Vec<DeviceOp>, i: nat, w: World)
    requires
        i <= ops.len(),
    ensures
        forall|k: int, x: u64|
            i <= k < ops.len() && kept_ids_of(#[trigger] ops[k], w).contains(x) ==> #[trigger] kept_ids_from(
                ops,
                i,
                w,
            ).contains(x),
    decreases ops.len() - i,
{
    if i < ops.len() {
        lemma_kept_list(ops, i + 1, w);
        let first = kept_ids_of(ops[i as int], w);
        let rest = kept_ids_from(ops, i + 1, w);
        let all = kept_ids_from(ops, i, w);
        assert forall|k: int, x: u64| i <= k < ops.len() && kept_ids_of(#[trigger] ops[k], w).contains(x) implies #[trigger] all.contains(
            x,
        ) by {
            if k == i {
                assert(all[first.index_of(x)] == x);
            } else {
                assert(rest.contains(x));
                assert(all[first.len() + rest.index_of(x)] == x);
            }
        }
    }
}

/// The command buffers that a graph keeps are all found: those that the op itself keeps, and
/// those of the parts of a sequence, a shared op, a bundle, a fan-out and a host closure.
pub proof fn law_kept_command_buffers_are_found(op: DeviceOp, w: World)
    ensures
        cache_of(op) is Some ==> forall|x: u64| kept_handle(w, cache_of(op)->Some_0).contains(x) ==> #[trigger] kept_ids_of(op, w).contains(x),
        op is AndThen || op is Arced || op is ArcSplit || op is Bundle || op is FanOut || op is Host || op is HostWithContext
            ==> forall|k: int, x: u64|
            0 <= k < parts_of(op).len() && kept_ids_of(#[trigger] parts_of(op)[k], w).contains(x) ==> #[trigger] kept_ids_of(
                op,
                w,
            ).contains(x),
{
    let all = kept_ids_of(op, w);
    let parts = parts_of(op);
    if cache_of(op) is Some {
        let own = kept_handle(w, cache_of(op)->Some_0);
        assert forall|x: u64| own.contains(x) implies #[trigger] all.contains(x) by {
            assert(all[own.index_of(x)] == x);
        }
    }
    match op {
        DeviceOp::AndThen(n) => {
            let own = kept_handle(w, n.cb_cache);
            let a = kept_ids_of(n.source, w);
            let b = kept_ids_of(n.next, w);
            assert forall|k: int, x: u64| 0 <= k < parts.len() && kept_ids_of(#[trigger] parts[k], w).contains(x) implies #[trigger] all.contains(
                x,
            ) by {
                if k == 0 {
                    assert(all[own.len() + a.index_of(x)] == x);
                } else {
                    assert(all[own.len() + a.len() + b.index_of(x)] == x);
                }
            }
        },
        DeviceOp::Bundle(n) => {
            lemma_kept_list(n.ops, 0, w);
            let own = kept_handle(w, n.cb_cache);
            let rest = kept_ids_from(n.ops, 0, w);
            assert forall|k: int, x: u64| 0 <= k < parts.len() && kept_ids_of(#[trigger] parts[k], w).contains(x) implies #[trigger] all.contains(
                x,
            ) by {
                assert(kept_ids_of(n.ops[k], w).contains(x));
                assert(rest.contains(x));
                assert(all[own.len() + rest.index_of(x)] == x);
            }
        },
        DeviceOp::FanOut(n) => {
            lemma_kept_list(n.ops, 0, w);
            let own = kept_handle(w, n.cb_cache);
            let rest = kept_ids_from(n.ops, 0, w);
            assert forall|k: int, x: u64| 0 <= k < parts.len() && kept_ids_of(#[trigger] parts[k], w).contains(x) implies #[trigger] all.contains(
                x,
            ) by {
                assert(kept_ids_of(n.ops[k], w).contains(x));
                assert(rest.contains(x));
                assert(all[own.len() + rest.index_of(x)] == x);
            }
        },
        DeviceOp::Arced(n) => {
            let own = kept_handle(w, n.cb_cache);
            let a = kept_ids_of(n.source, w);
            assert forall|x: u64| a.contains(x) implies #[trigger] all.contains(x) by {
                assert(all[own.len() + a.index_of(x)] == x);
            }
        },
        DeviceOp::ArcSplit(n) => {
            let own = kept_handle(w, n.cb_cache);
            let a = kept_ids_of(n.source, w);
            assert forall|x: u64| a.contains(x) implies #[trigger] all.contains(x) by {
                assert(all[own.len() + a.index_of(x)] == x);
            }
        },
        _ => {},
    }
}

/// A count that fits a machine word is given as it is, and a larger one as the largest word.
pub proof fn law_counts_are_exact_where_they_fit(n: nat)
    ensures
        n <= usize::MAX ==> capped(n) == n,
        n > usize::MAX ==> capped(n) == usize::MAX,
{
}

} // verus!
