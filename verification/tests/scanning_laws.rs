use mmtk_openjdk::address::Address;
use mmtk_openjdk::klass::{
    InstanceKlass, InstanceRefKlass, Klass, Oop, OopMapBlock, ReferenceType,
};
use mmtk_openjdk::object_scanning::{scan_object, ReferenceOptions, ScanAction, ScanFlags};
use mmtk_openjdk::slots::OpenJDKSlot;

/// The addresses that a scan visits, from the lowest to the highest.
fn visited(
    object: &Oop,
    suppress_weak_ref_discovery: bool,
    slot_rewrite_mode: bool,
    process_weak_referents: bool,
) -> Vec<usize> {
    let flags = ScanFlags { suppress_weak_ref_discovery, slot_rewrite_mode };
    let options = ReferenceOptions {
        no_reference_types: false,
        process_weak_referents,
        trace_discovered: true,
        trace_referents: true,
    };
    let mut addresses: Vec<usize> = Vec::new();
    for action in scan_object::<false>(object, flags, options) {
        if let ScanAction::VisitSlot(OpenJDKSlot { addr: Address(addr) }) = action {
            addresses.push(addr);
        }
    }
    addresses.sort();
    addresses
}

#[test]
fn every_state_visits_the_strong_slots_and_at_most_the_referent() {
    let object = |reference_type| Oop {
        start: Address(0x4000),
        klass: Klass::InstanceRef(InstanceRefKlass {
            instance_klass: InstanceKlass {
                nonstatic_oop_maps: vec![
                    OopMapBlock { offset: 64, count: 2 },
                    OopMapBlock { offset: 16, count: 1 },
                ],
                reference_type,
            },
            referent_address: Address(0x4020),
            discovered_address: Address(0x4028),
        }),
    };
    let strong = vec![0x4010, 0x4028, 0x4040, 0x4048];
    let with_referent = vec![0x4010, 0x4020, 0x4028, 0x4040, 0x4048];
    let types = [
        ReferenceType::Soft,
        ReferenceType::Weak,
        ReferenceType::Final,
        ReferenceType::Phantom,
    ];
    for reference_type in types {
        let is_final = reference_type == ReferenceType::Final;
        for suppress in [false, true] {
            for rewrite in [false, true] {
                for process in [false, true] {
                    let follows = if rewrite { process } else { suppress };
                    let expected =
                        if is_final || follows { with_referent.clone() } else { strong.clone() };
                    let object = object(reference_type);
                    assert_eq!(visited(&object, suppress, rewrite, process), expected);
                }
            }
        }
    }
}
