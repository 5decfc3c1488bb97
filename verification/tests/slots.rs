use claspr::copies::eager_copy_to;
use claspr::error::Error;
use claspr::graph::{AndThen, DeviceOp};
use claspr::input::{Checkout, Input, ToInput};
use claspr::launch::{F32Bits, IntoLaunchSpec, LaunchSpec};
use claspr::leaf_op::LeafOp;
use claspr::obj::{Class, Extent, Home, HostRef, Obj};
use claspr::slots::{
    grid_input, scalar_input, BindMode, IntoBound, ScalarInput, SlotBinder, SlotEq, SlotHandle, SlotState,
    SlotTag, SlotValue,
};
use claspr::store::Store;

fn obj(class: Class, id: u64, len: usize) -> Obj {
    Obj {
        class,
        id,
        ctx: 9,
        extent: Extent { x: len, y: 1, z: 1 },
        len,
        bytes: len * 4,
        shared: false,
    }
}

fn device(id: u64) -> Obj {
    obj(Class::Device, id, 8)
}

fn a(o: Obj) -> SlotTag<Obj> {
    SlotTag { key: 1, name: "A", value: o, source: None }
}

fn b(o: Obj) -> SlotTag<Obj> {
    SlotTag { key: 2, name: "B", value: o, source: None }
}

fn n(v: u32) -> SlotTag<u32> {
    SlotTag { key: 3, name: "N", value: v, source: None }
}

fn shared(id: u64) -> Obj {
    Obj { shared: true, ..device(id) }
}

/// A copy from slot `A` into slot `B`; the slots' identities come along.
fn copy_a_to_b(st: &mut Store) -> (DeviceOp, u64, u64) {
    let x = SlotHandle::new(st, 1, "A");
    let y = SlotHandle::new(st, 2, "B");
    let c = eager_copy_to(st, x, y);
    let (Input::Slot { cell: x, .. }, Input::Slot { cell: y, .. }) = (c.src, c.dst) else {
        panic!("slots")
    };
    (DeviceOp::Leaf(LeafOp::CopyTo2(c)), x, y)
}

/// A copy from slot `A` into slot `A`.
fn copy_a_to_a(st: &mut Store) -> (DeviceOp, u64, u64) {
    let x = SlotHandle::new(st, 1, "A");
    let y = SlotHandle::new(st, 1, "A");
    let c = eager_copy_to(st, x, y);
    let (Input::Slot { cell: x, .. }, Input::Slot { cell: y, .. }) = (c.src, c.dst) else {
        panic!("slots")
    };
    (DeviceOp::Leaf(LeafOp::CopyTo2(c)), x, y)
}

#[test]
fn an_unbound_slot_is_filled_by_both_verbs() {
    let mut st = Store::new();
    let (op, x, y) = copy_a_to_b(&mut st);
    assert!(matches!(op.check_ready(&st), Err(Error::SlotUnbound("A"))));
    assert!(op.bind(&mut st, a(device(7))).is_ok());
    assert!(matches!(op.check_ready(&st), Err(Error::SlotUnbound("B"))));
    assert!(op.mutate_bind(&mut st, b(device(8))).is_ok());
    assert!(op.check_ready(&st).is_ok());
    assert_eq!(st.slot(x), SlotState::Bound(device(7)));
    assert_eq!(st.slot(y), SlotState::Bound(device(8)));
}

#[test]
fn a_bound_slot_takes_an_equal_value_and_refuses_another() {
    let mut st = Store::new();
    let (op, x, _) = copy_a_to_b(&mut st);
    assert!(op.bind(&mut st, a(device(7))).is_ok());
    assert!(op.bind(&mut st, a(device(7))).is_ok());
    assert!(matches!(op.bind(&mut st, a(device(8))), Err(Error::SlotConflict("A"))));
    assert_eq!(st.slot(x), SlotState::Bound(device(7)));
    assert!(op.mutate_bind(&mut st, a(device(8))).is_ok());
    assert_eq!(st.slot(x), SlotState::Bound(device(8)));
}

#[test]
fn a_lent_slot_refuses_both_verbs() {
    let mut st = Store::new();
    let (op, x, _) = copy_a_to_b(&mut st);
    st.set_slot(x, SlotState::Lent);
    assert!(matches!(op.bind(&mut st, a(device(7))), Err(Error::SlotCheckedOut("A"))));
    assert!(matches!(op.mutate_bind(&mut st, a(device(7))), Err(Error::SlotCheckedOut("A"))));
    assert!(matches!(op.check_ready(&st), Err(Error::SlotUnbound("A"))));
    assert_eq!(st.slot(x), SlotState::Lent);
}

#[test]
fn a_severed_slot_only_takes_a_change() {
    let mut st = Store::new();
    let (op, x, _) = copy_a_to_b(&mut st);
    st.set_slot(x, SlotState::Lent);
    let c = Checkout::new(vec![device(7)], Some(Home::Slot(x)));
    assert_eq!(c.home_cell_id(), Some(x));
    assert_eq!(c.into_inner(&mut st), vec![device(7)]);
    assert_eq!(st.slot(x), SlotState::Severed);
    assert!(matches!(op.bind(&mut st, a(device(8))), Err(Error::SlotSevered("A"))));
    assert!(op.mutate_bind(&mut st, a(device(8))).is_ok());
    assert_eq!(st.slot(x), SlotState::Bound(device(8)));
}

#[test]
fn a_checkout_that_is_dropped_rearms_its_slot() {
    let mut st = Store::new();
    let (op, x, _) = copy_a_to_b(&mut st);
    assert!(op.bind(&mut st, a(device(7))).is_ok());
    let DeviceOp::Leaf(LeafOp::CopyTo2(c)) = &op else { panic!("copy") };
    let p = c.src.resolve_home(&mut st, Some(3)).unwrap();
    assert_eq!(p.deps, vec![3]);
    assert_eq!(st.slot(x), SlotState::Lent);
    assert!(matches!(c.src.resolve_home(&mut st, None), Err(Error::SlotUnbound("A"))));
    Checkout::new(p.value, p.home).give_back(&mut st);
    assert_eq!(st.slot(x), SlotState::Bound(device(7)));
}

#[test]
fn an_absent_tag_is_an_error() {
    let mut st = Store::new();
    let (op, _, _) = copy_a_to_a(&mut st);
    assert!(matches!(op.bind(&mut st, b(device(7))), Err(Error::SlotNoSuchTag("B"))));
}

#[test]
fn a_shared_value_fills_every_slot_and_a_moved_one_the_first() {
    let mut st = Store::new();
    let (op, x, y) = copy_a_to_a(&mut st);
    assert!(op.bind(&mut st, a(shared(7))).is_ok());
    assert_eq!(st.slot(x), SlotState::Bound(shared(7)));
    assert_eq!(st.slot(y), SlotState::Bound(shared(7)));
    let mut st = Store::new();
    let (op, x, y) = copy_a_to_a(&mut st);
    assert!(op.bind(&mut st, a(device(7))).is_ok());
    assert_eq!(st.slot(x), SlotState::Bound(device(7)));
    assert_eq!(st.slot(y), SlotState::Unbound);
}

#[test]
fn a_probe_changes_nothing_and_foresees_refusals() {
    let mut st = Store::new();
    let (op, x, _) = copy_a_to_b(&mut st);
    assert!(op.probe_bind(&mut st, 1, "A", BindMode::SetOnce, vec![]).is_ok());
    assert_eq!(st.slot(x), SlotState::Unbound);
    st.set_slot(x, SlotState::Lent);
    assert!(matches!(
        op.probe_bind(&mut st, 1, "A", BindMode::Mutate, vec![]),
        Err(Error::SlotCheckedOut("A"))
    ));
    assert!(op.probe_bind(&mut st, 1, "A", BindMode::Mutate, vec![x]).is_ok());
    assert!(matches!(
        op.probe_bind(&mut st, 1, "A", BindMode::SetOnce, vec![x]),
        Err(Error::SlotSevered("A"))
    ));
    st.set_slot(x, SlotState::Severed);
    assert!(matches!(
        op.probe_bind(&mut st, 1, "A", BindMode::SetOnce, vec![]),
        Err(Error::SlotSevered("A"))
    ));
    assert_eq!(st.slot(x), SlotState::Severed);
}

#[test]
fn a_probe_visits_every_slot() {
    let mut st = Store::new();
    let (op, _, y) = copy_a_to_a(&mut st);
    st.set_slot(y, SlotState::Lent);
    assert!(matches!(
        op.probe_bind(&mut st, 1, "A", BindMode::Mutate, vec![]),
        Err(Error::SlotCheckedOut("A"))
    ));
}

#[test]
fn a_refused_deferred_bind_comes_up_when_the_graph_runs() {
    let mut st = Store::new();
    let (op, x, _) = copy_a_to_b(&mut st);
    op.bind_deferred(&mut st, a(device(7)));
    op.bind_deferred(&mut st, b(device(8)));
    assert!(op.check_ready(&st).is_ok());
    op.bind_deferred(&mut st, a(device(9)));
    assert_eq!(st.slot(x), SlotState::Bound(device(7)));
    assert!(matches!(op.check_ready(&st), Err(Error::SlotConflict("A"))));
    op.bind_deferred(&mut st, n(3));
    assert!(matches!(op.check_ready(&st), Err(Error::SlotConflict("A"))));
}

#[test]
fn an_absent_deferred_tag_comes_up_too() {
    let mut st = Store::new();
    let (op, _, _) = copy_a_to_b(&mut st);
    op.bind_deferred(&mut st, a(device(7)));
    op.bind_deferred(&mut st, b(device(8)));
    op.bind_deferred(&mut st, n(3));
    assert!(matches!(op.check_ready(&st), Err(Error::SlotNoSuchTag("N"))));
}

#[test]
fn other_errors_in_a_sink_are_reported_as_inconsistent() {
    let mut st = Store::new();
    let (op, _, _) = copy_a_to_b(&mut st);
    op.bind_deferred(&mut st, a(device(7)));
    op.bind_deferred(&mut st, b(device(8)));
    let DeviceOp::Leaf(LeafOp::CopyTo2(c)) = &op else { panic!("copy") };
    let Input::Slot { sink, .. } = c.src else { panic!("slot") };
    st.record(sink, Error::SvmNotAvailable);
    assert!(matches!(op.check_ready(&st), Err(Error::NotSupported(m)) if m.contains("internal inconsistency")));
}

#[test]
fn a_fed_slot_drains_its_pipe_and_stays_fed() {
    let mut st = Store::new();
    let (op, x, y) = copy_a_to_a(&mut st);
    let p = st.pipe();
    op.feed_deferred(&mut st, 1, "A", p);
    assert_eq!(st.slot(x), SlotState::FedByPipe(p));
    assert_eq!(st.slot(y), SlotState::FedByPipe(p));
    assert!(op.check_ready(&st).is_ok());
    let DeviceOp::Leaf(LeafOp::CopyTo2(c)) = &op else { panic!("copy") };
    assert!(c.src.resolve_home(&mut st, None).is_err());
    st.put_home(&p, vec![device(5)], vec![6], Some(Home::Cell(99)));
    let got = c.src.resolve_home(&mut st, None).unwrap();
    assert_eq!((got.value, got.deps, got.home), (vec![device(5)], vec![6], Some(Home::Cell(99))));
    assert_eq!(st.slot(x), SlotState::FedByPipe(p));
}

#[test]
fn binds_reach_both_parts_of_a_sequence() {
    let mut st = Store::new();
    let (one, _, _) = copy_a_to_a(&mut st);
    let (two, _, y) = copy_a_to_b(&mut st);
    let both = AndThen::new(&mut st, one, two);
    let op = DeviceOp::AndThen(Box::new(both));
    assert!(op.bind(&mut st, b(device(8))).is_ok());
    assert_eq!(st.slot(y), SlotState::Bound(device(8)));
    assert!(op.bind(&mut st, a(shared(7))).is_ok());
    assert!(op.check_ready(&st).is_ok());
}

#[test]
fn scalar_slots_follow_the_same_table_without_lending() {
    let mut st = Store::new();
    let i: ScalarInput<u32> = SlotHandle::new(&mut st, 3, "N").into_scalar_input(&mut st);
    assert!(matches!(i.read(&st), Err(Error::SlotUnbound("N"))));
    assert!(matches!(i.check_ready(&st), Err(Error::SlotUnbound("N"))));
    let mut binder = SlotBinder::new(3, 5u32, BindMode::SetOnce);
    i.try_bind_slot(&mut st, &mut binder);
    assert!(binder.outcome().is_ok());
    assert_eq!(binder.matched(), 1);
    assert_eq!(binder.matched_cells(), &vec![i.slot_cell_id().unwrap()]);
    assert!(!binder.is_consumed());
    assert_eq!(i.read(&st).unwrap(), 5);
    let mut binder = SlotBinder::new(3, 6u32, BindMode::SetOnce);
    i.try_bind_slot(&mut st, &mut binder);
    assert!(matches!(binder.outcome(), Err(Error::SlotConflict("N"))));
    assert_eq!(i.read(&st).unwrap(), 5);
    let mut binder = SlotBinder::new(3, 6u32, BindMode::Mutate);
    i.try_bind_slot(&mut st, &mut binder);
    assert_eq!(i.read(&st).unwrap(), 6);
    assert!(i.check_ready(&st).is_ok());
    let mut other = SlotBinder::new(1, device(1), BindMode::Mutate);
    i.try_bind_slot(&mut st, &mut other);
    assert_eq!(other.matched(), 0);
    let c = scalar_input(9u8);
    assert_eq!(c.read(&st).unwrap(), 9);
    assert_eq!(c.slot_cell_id(), None);
}

#[test]
fn grids_are_bound_by_their_sizes() {
    let plain: LaunchSpec = [64usize, 32].into_launch_spec();
    let grouped: LaunchSpec = ([64usize, 32], [8usize, 8]).into_launch_spec();
    assert!(plain.slot_eq(&[64usize, 32].into_launch_spec()));
    assert!(!plain.slot_eq(&grouped));
    assert!(!plain.slot_eq(&[64usize, 32, 1].into_launch_spec()));
    assert!(!grouped.slot_eq(&([64usize, 32], [8usize, 4]).into_launch_spec()));
    assert!(grouped.slot_eq(&([64usize, 32], [8usize, 8]).into_launch_spec()));
    assert_eq!(grid_input([7usize]).read(&Store::new()).unwrap().global(), &[7]);
}

#[test]
fn bindings_compare_memory_and_bits() {
    assert!(device(7).slot_eq(&obj(Class::Device, 7, 99)));
    assert!(!device(7).slot_eq(&device(8)));
    assert!(!device(7).slot_eq(&obj(Class::Usm, 7, 8)));
    assert!(obj(Class::Usm, 7, 8).slot_eq(&obj(Class::Mapped, 7, 8)));
    assert!(F32Bits(0f32.to_bits()).slot_eq(&F32Bits(0f32.to_bits())));
    assert!(!F32Bits(0f32.to_bits()).slot_eq(&F32Bits((-0f32).to_bits())));
    assert!(F32Bits(f32::NAN.to_bits()).slot_eq(&F32Bits(f32::NAN.to_bits())));
    assert!(device(7).fill_clone().is_none());
    assert!(shared(7).fill_clone().is_some());
    assert!(5u16.fill_clone().is_some());
}

#[test]
fn checkouts_lend_as_inputs_and_sever_as_bound_values() {
    let mut st = Store::new();
    let (_, x, _) = copy_a_to_b(&mut st);
    st.set_slot(x, SlotState::Lent);
    let c = Checkout::new(vec![device(7)], Some(Home::Slot(x)));
    let i = c.to_input(&mut st);
    assert_eq!(st.slot(x), SlotState::Lent);
    let p = i.resolve_home(&mut st, None).unwrap();
    assert_eq!(p.home, Some(Home::Slot(x)));
    let c = Checkout::new(p.value, p.home);
    assert_eq!(IntoBound::<Obj>::source_cell_id(&c), Some(x));
    assert_eq!(IntoBound::<Obj>::into_bound(c, &mut st), device(7));
    assert_eq!(st.slot(x), SlotState::Severed);
    assert_eq!(IntoBound::<u32>::source_cell_id(&5u32), None);
}

#[test]
fn a_tag_takes_the_value_of_a_checkout_for_good() {
    let mut st = Store::new();
    let (_, x, _) = copy_a_to_b(&mut st);
    st.set_slot(x, SlotState::Lent);
    let c = Checkout::new(vec![device(7)], Some(Home::Slot(x)));
    let t: SlotTag<Obj> = SlotTag::of(&mut st, 1, "A", c);
    assert_eq!(t.source, Some(x));
    assert_eq!(t.value, device(7));
    assert_eq!(st.slot(x), SlotState::Severed);
}

#[test]
fn slots_stand_wherever_a_buffer_may() {
    let mut st = Store::new();
    let h = SlotHandle::new(&mut st, 1, "A");
    let f = claspr::leaves::fill(&mut st, h, HostRef { id: 50, len: 1, bytes: 4 });
    let op = DeviceOp::Leaf(LeafOp::Fill(f));
    assert!(matches!(op.check_ready(&st), Err(Error::SlotUnbound("A"))));
    assert!(op.bind(&mut st, a(device(7))).is_ok());
    assert!(op.check_ready(&st).is_ok());
    let h = SlotHandle::new(&mut st, 1, "A");
    let d = claspr::leaves::download(&mut st, h);
    let op = DeviceOp::Leaf(LeafOp::Download(d));
    assert!(matches!(op.bind(&mut st, b(device(7))), Err(Error::SlotNoSuchTag("B"))));
    assert!(op.bind(&mut st, a(device(7))).is_ok());
    assert!(op.check_ready(&st).is_ok());
}

#[test]
fn what_a_probe_allows_can_be_bound() {
    let mut st = Store::new();
    let (op, x, _) = copy_a_to_b(&mut st);
    st.set_slot(x, SlotState::Lent);
    let refused = op.probe_bind(&mut st, 1, "A", BindMode::Mutate, vec![]);
    assert!(matches!(refused, Err(Error::SlotCheckedOut("A"))));
    assert!(op.probe_bind(&mut st, 1, "A", BindMode::Mutate, vec![x]).is_ok());
    assert_eq!(st.slot(x), SlotState::Lent);
    let c = Checkout::new(vec![device(7)], Some(Home::Slot(x)));
    let tag: SlotTag<Obj> = SlotTag::of(&mut st, 1, "A", c);
    assert!(op.mutate_bind(&mut st, tag).is_ok());
    assert_eq!(st.slot(x), SlotState::Bound(device(7)));
}
