use mmtk_openjdk::address::Address;
use mmtk_openjdk::api::{
    executable, mmtk_active_barrier, mmtk_active_plan, mmtk_array_copy_post, mmtk_array_copy_pre,
    BarrierSelector,
};
use mmtk_openjdk::options::PlanSelector;
use mmtk_openjdk::slots::{log_bytes_in_slot, OpenJDKSlot};

#[test]
fn collector_is_executable() {
    assert!(executable());
}

#[test]
fn barriers_have_names() {
    assert_eq!(mmtk_active_barrier(BarrierSelector::NoBarrier), "NoBarrier");
    assert_eq!(mmtk_active_barrier(BarrierSelector::ObjectBarrier), "ObjectBarrier");
    assert_eq!(mmtk_active_barrier(BarrierSelector::SATBBarrier), "SATBBarrier");
}

#[test]
fn plans_have_names() {
    assert_eq!(mmtk_active_plan(PlanSelector::NoGC), "NoGC");
    assert_eq!(mmtk_active_plan(PlanSelector::SemiSpace), "SemiSpace");
    assert_eq!(mmtk_active_plan(PlanSelector::GenCopy), "GenCopy");
    assert_eq!(mmtk_active_plan(PlanSelector::GenImmix), "GenImmix");
    assert_eq!(mmtk_active_plan(PlanSelector::MarkSweep), "MarkSweep");
    assert_eq!(mmtk_active_plan(PlanSelector::PageProtect), "PageProtect");
    assert_eq!(mmtk_active_plan(PlanSelector::Immix), "Immix");
    assert_eq!(mmtk_active_plan(PlanSelector::MarkCompact), "MarkCompact");
    assert_eq!(mmtk_active_plan(PlanSelector::Compressor), "Compressor");
    assert_eq!(mmtk_active_plan(PlanSelector::StickyImmix), "StickyImmix");
    assert_eq!(mmtk_active_plan(PlanSelector::ConcurrentImmix), "ConcurrentImmix");
}

#[test]
fn names_hold_no_zero() {
    assert!(!mmtk_active_plan(PlanSelector::Compressor).contains('\0'));
    assert!(!mmtk_active_barrier(BarrierSelector::SATBBarrier).contains('\0'));
}

#[test]
fn slots_are_four_or_eight_bytes_wide() {
    assert_eq!(log_bytes_in_slot(true), 2);
    assert_eq!(log_bytes_in_slot(false), 3);
    assert_eq!(OpenJDKSlot::<true>::bytes_in_slot(), 4);
    assert_eq!(OpenJDKSlot::<false>::bytes_in_slot(), 8);
}

#[test]
fn copied_regions_span_the_elements() {
    let before = mmtk_array_copy_pre(Address(0x1000), Address(0x2000), 5, true);
    assert_eq!(before.src.start, Address(0x1000));
    assert_eq!(before.src.end, Address(0x1014));
    assert_eq!(before.dst.start, Address(0x2000));
    assert_eq!(before.dst.end, Address(0x2014));
    let before = mmtk_array_copy_pre(Address(0x1000), Address(0x2000), 5, false);
    assert_eq!(before.src.end, Address(0x1028));
    assert_eq!(before.dst.end, Address(0x2028));
}

#[test]
fn barriers_before_and_after_see_the_same() {
    let before = mmtk_array_copy_pre(Address(0x1000), Address(0x3000), 9, false);
    let after = mmtk_array_copy_post(Address(0x1000), Address(0x3000), 9, false);
    assert_eq!(before, after);
    let empty = mmtk_array_copy_post(Address(0x1000), Address(0x3000), 0, true);
    assert_eq!(empty.src.start, empty.src.end);
    assert_eq!(empty.dst.start, empty.dst.end);
}

#[test]
fn count_of_too_many_slots_wraps() {
    let count = usize::MAX / 4 + 1 + 2;
    let regions = mmtk_array_copy_pre(Address(0x100), Address(0x200), count, true);
    assert_eq!(regions.src.end, Address(0x108));
    assert_eq!(regions.dst.end, Address(0x208));
}
