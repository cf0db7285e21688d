use mmtk_openjdk::address::Address;
use mmtk_openjdk::nmethods::{
    mmtk_add_nmethod_oop, mmtk_register_nmethod, mmtk_unregister_nmethod, CodeCacheRoots,
};

#[test]
fn gathered_slots_are_registered() {
    let mut slots: Vec<Address> = Vec::new();
    let mut roots = CodeCacheRoots::new();
    mmtk_add_nmethod_oop(&mut slots, Address(0x10));
    mmtk_add_nmethod_oop(&mut slots, Address(0x20));
    mmtk_register_nmethod(&mut slots, &mut roots, Address(0x1000));
    assert!(slots.is_empty());
    assert_eq!(roots.nursery.get(&0x1000), Some(&vec![Address(0x10), Address(0x20)]));
    assert!(roots.mature.is_empty());
}

#[test]
fn patched_method_goes_back_to_the_nursery() {
    let mut roots = CodeCacheRoots::new();
    roots.mature.insert(0x1000, vec![Address(0x10)]);
    roots.mature.insert(0x2000, vec![Address(0x30)]);
    let mut slots = vec![Address(0x18)];
    mmtk_register_nmethod(&mut slots, &mut roots, Address(0x1000));
    assert_eq!(roots.nursery.get(&0x1000), Some(&vec![Address(0x18)]));
    assert_eq!(roots.mature.get(&0x1000), None);
    assert_eq!(roots.mature.get(&0x2000), Some(&vec![Address(0x30)]));
}

#[test]
fn method_without_slots_is_left() {
    let mut roots = CodeCacheRoots::new();
    roots.mature.insert(0x1000, vec![Address(0x10)]);
    let mut slots: Vec<Address> = Vec::new();
    mmtk_register_nmethod(&mut slots, &mut roots, Address(0x1000));
    assert!(roots.nursery.is_empty());
    assert_eq!(roots.mature.get(&0x1000), Some(&vec![Address(0x10)]));
}

#[test]
fn method_is_registered_anew() {
    let mut roots = CodeCacheRoots::new();
    let mut slots = vec![Address(0x10)];
    mmtk_register_nmethod(&mut slots, &mut roots, Address(0x1000));
    mmtk_add_nmethod_oop(&mut slots, Address(0x40));
    mmtk_register_nmethod(&mut slots, &mut roots, Address(0x1000));
    assert_eq!(roots.nursery.get(&0x1000), Some(&vec![Address(0x40)]));
    assert_eq!(roots.nursery.len(), 1);
}

#[test]
fn forgotten_method_is_in_neither_group() {
    let mut roots = CodeCacheRoots::new();
    roots.nursery.insert(0x1000, vec![Address(0x10)]);
    roots.mature.insert(0x1000, vec![Address(0x10)]);
    roots.mature.insert(0x2000, vec![Address(0x20)]);
    mmtk_unregister_nmethod(&mut roots, Address(0x1000));
    assert!(roots.nursery.is_empty());
    assert_eq!(roots.mature.len(), 1);
    mmtk_unregister_nmethod(&mut roots, Address(0x1000));
    assert_eq!(roots.mature.get(&0x2000), Some(&vec![Address(0x20)]));
}
