use mmtk_openjdk::address::{Address, ObjectReference};
use mmtk_openjdk::klass::{
    InstanceClassLoaderKlass, InstanceKlass, InstanceMirrorKlass, InstanceRefKlass, Klass,
    KlassKind, ObjArrayKlass, Oop, OopMapBlock, ReferenceType, TypeArrayKlass,
};
use mmtk_openjdk::object_scanning::{
    describe_slot, is_scannable, load_slot_at_offset, oop_iterate, scan_object, scan_object_for_fixup,
    slot_offset, ReferenceOptions, ReferenceReport, ScanAction, ScanFlags,
};
use mmtk_openjdk::slots::OpenJDKSlot;

fn plain_flags() -> ScanFlags {
    ScanFlags { suppress_weak_ref_discovery: false, slot_rewrite_mode: false }
}

fn plain_options() -> ReferenceOptions {
    ReferenceOptions {
        no_reference_types: false,
        process_weak_referents: false,
        trace_discovered: false,
        trace_referents: false,
    }
}

fn instance_klass(reference_type: ReferenceType) -> InstanceKlass {
    InstanceKlass {
        nonstatic_oop_maps: vec![
            OopMapBlock { offset: 8, count: 2 },
            OopMapBlock { offset: 32, count: 0 },
            OopMapBlock { offset: 40, count: 1 },
        ],
        reference_type,
    }
}

fn reference(reference_type: ReferenceType) -> Oop {
    Oop {
        start: Address(0x1000),
        klass: Klass::InstanceRef(InstanceRefKlass {
            instance_klass: instance_klass(reference_type),
            referent_address: Address(0x1010),
            discovered_address: Address(0x1018),
        }),
    }
}

fn visit<const COMPRESSED: bool>(addr: usize) -> ScanAction<COMPRESSED> {
    ScanAction::VisitSlot(OpenJDKSlot { addr: Address(addr) })
}

fn report(reference_type: ReferenceType, addr: usize) -> ReferenceReport<true> {
    ReferenceReport {
        reference: ObjectReference(Address(0x1000)),
        reference_type,
        slot: OpenJDKSlot { addr: Address(addr) },
    }
}

/// The visits of the fields that every scan of the reference makes, without the referent.
fn strong_visits() -> Vec<ScanAction<true>> {
    vec![visit(0x1008), visit(0x100c), visit(0x1028), visit(0x1018)]
}

fn with(mut actions: Vec<ScanAction<true>>, last: ScanAction<true>) -> Vec<ScanAction<true>> {
    actions.push(last);
    actions
}

#[test]
fn block_is_visited_slot_by_slot() {
    let block = OopMapBlock { offset: -8, count: 3 };
    let mut actions: Vec<ScanAction<true>> = vec![visit(1)];
    block.oop_iterate::<true>(Address(0x100), &mut actions);
    assert_eq!(actions, vec![visit(1), visit(0xf8), visit(0xfc), visit(0x100)]);
    let mut actions: Vec<ScanAction<false>> = Vec::new();
    block.oop_iterate::<false>(Address(0x100), &mut actions);
    assert_eq!(actions, vec![visit(0xf8), visit(0x100), visit(0x108)]);
}

#[test]
fn instance_is_visited_block_by_block() {
    let object = Oop {
        start: Address(0x1000),
        klass: Klass::Instance(instance_klass(ReferenceType::NoReference)),
    };
    let actions = scan_object::<true>(&object, plain_flags(), plain_options());
    assert_eq!(actions, vec![visit(0x1008), visit(0x100c), visit(0x1028)]);
    let actions = scan_object::<false>(&object, plain_flags(), plain_options());
    assert_eq!(actions, vec![visit(0x1008), visit(0x1010), visit(0x1028)]);
}

#[test]
fn class_loader_is_visited_like_an_instance() {
    let object = Oop {
        start: Address(0x1000),
        klass: Klass::InstanceClassLoader(InstanceClassLoaderKlass {
            instance_klass: instance_klass(ReferenceType::NoReference),
        }),
    };
    let actions = oop_iterate::<true>(&object, plain_flags(), plain_options());
    assert_eq!(actions, vec![visit(0x1008), visit(0x100c), visit(0x1028)]);
}

#[test]
fn mirror_is_visited_with_its_static_fields() {
    let object = Oop {
        start: Address(0x1000),
        klass: Klass::InstanceMirror(InstanceMirrorKlass {
            instance_klass: instance_klass(ReferenceType::NoReference),
            static_fields: Address(0x1080),
            static_oop_field_count: 2,
        }),
    };
    let actions = scan_object::<false>(&object, plain_flags(), plain_options());
    assert_eq!(
        actions,
        vec![visit(0x1008), visit(0x1010), visit(0x1028), visit(0x1080), visit(0x1088)]
    );
}

#[test]
fn array_is_visited_element_by_element() {
    let array = |length| Oop {
        start: Address(0x1000),
        klass: Klass::ObjArray(ObjArrayKlass { base: Address(0x1010), length }),
    };
    let actions = scan_object::<true>(&array(3), plain_flags(), plain_options());
    assert_eq!(actions, vec![visit(0x1010), visit(0x1014), visit(0x1018)]);
    assert!(scan_object::<true>(&array(0), plain_flags(), plain_options()).is_empty());
}

#[test]
fn array_of_primitive_values_is_not_visited() {
    let object = Oop { start: Address(0x1000), klass: Klass::TypeArray(TypeArrayKlass) };
    assert!(scan_object::<true>(&object, plain_flags(), plain_options()).is_empty());
}

#[test]
fn stack_chunk_is_left_to_the_virtual_machine() {
    let object = Oop { start: Address(0x1000), klass: Klass::InstanceStackChunk };
    let expected = vec![ScanAction::ScanByVm(ObjectReference(Address(0x1000)))];
    assert_eq!(scan_object::<true>(&object, plain_flags(), plain_options()), expected);
    let mut flags = plain_flags();
    assert_eq!(scan_object_for_fixup::<true>(&object, &mut flags, plain_options()), expected);
}

#[test]
fn weak_references_are_told_to_the_collector() {
    let object = ObjectReference(Address(0x1000));
    let cases = [
        (ReferenceType::Weak, ScanAction::AddWeakCandidate(object)),
        (ReferenceType::Soft, ScanAction::AddSoftCandidate(object)),
        (ReferenceType::Phantom, ScanAction::AddPhantomCandidate(object)),
        (ReferenceType::Final, visit(0x1010)),
    ];
    for (reference_type, last) in cases {
        let actions = scan_object::<true>(&reference(reference_type), plain_flags(), plain_options());
        assert_eq!(actions, with(strong_visits(), last));
    }
}

#[test]
fn referents_are_followed_where_references_are_not_told_apart() {
    let options = ReferenceOptions { no_reference_types: true, ..plain_options() };
    let suppressed = ScanFlags { suppress_weak_ref_discovery: true, slot_rewrite_mode: false };
    for reference_type in [
        ReferenceType::Weak,
        ReferenceType::Soft,
        ReferenceType::Phantom,
        ReferenceType::Final,
        ReferenceType::NoReference,
    ] {
        let object = reference(reference_type);
        let expected = with(strong_visits(), visit(0x1010));
        assert_eq!(scan_object::<true>(&object, plain_flags(), options), expected);
        assert_eq!(scan_object::<true>(&object, suppressed, plain_options()), expected);
    }
}

#[test]
fn reports_are_made_only_while_slots_are_rewritten() {
    let options =
        ReferenceOptions { trace_discovered: true, trace_referents: true, ..plain_options() };
    let object = reference(ReferenceType::Weak);
    assert_eq!(
        scan_object::<true>(&object, plain_flags(), options),
        scan_object::<true>(&object, plain_flags(), plain_options())
    );
}

#[test]
fn fixup_keeps_weak_referents() {
    for reference_type in [
        ReferenceType::Weak,
        ReferenceType::Soft,
        ReferenceType::Phantom,
        ReferenceType::NoReference,
    ] {
        let mut flags = plain_flags();
        let object = reference(reference_type);
        let actions = scan_object_for_fixup::<true>(&object, &mut flags, plain_options());
        assert_eq!(actions, strong_visits());
    }
    let mut flags = plain_flags();
    let object = reference(ReferenceType::Final);
    let actions = scan_object_for_fixup::<true>(&object, &mut flags, plain_options());
    assert_eq!(actions, with(strong_visits(), visit(0x1010)));
}

#[test]
fn fixup_rewrites_weak_referents_on_request() {
    let options = ReferenceOptions { process_weak_referents: true, ..plain_options() };
    let mut flags = plain_flags();
    let object = reference(ReferenceType::Weak);
    let actions = scan_object_for_fixup::<true>(&object, &mut flags, options);
    assert_eq!(actions, with(strong_visits(), visit(0x1010)));
}

#[test]
fn fixup_reports_what_it_does() {
    let weak = ReferenceType::Weak;
    let options =
        ReferenceOptions { trace_discovered: true, trace_referents: true, ..plain_options() };
    let mut flags = plain_flags();
    assert_eq!(
        scan_object_for_fixup::<true>(&reference(weak), &mut flags, options),
        vec![
            visit(0x1008),
            visit(0x100c),
            visit(0x1028),
            ScanAction::ReportDiscovered(report(weak, 0x1018)),
            visit(0x1018),
            ScanAction::ReportPreserved(report(weak, 0x1010)),
        ]
    );
    let options = ReferenceOptions { process_weak_referents: true, ..options };
    assert_eq!(
        scan_object_for_fixup::<true>(&reference(weak), &mut flags, options),
        vec![
            visit(0x1008),
            visit(0x100c),
            visit(0x1028),
            ScanAction::ReportDiscovered(report(weak, 0x1018)),
            visit(0x1018),
            ScanAction::ReportRewritten(report(weak, 0x1010)),
            visit(0x1010),
        ]
    );
    let last = ReferenceType::Final;
    assert_eq!(
        scan_object_for_fixup::<true>(&reference(last), &mut flags, options),
        vec![
            visit(0x1008),
            visit(0x100c),
            visit(0x1028),
            ScanAction::ReportDiscovered(report(last, 0x1018)),
            visit(0x1018),
            visit(0x1010),
        ]
    );
}

#[test]
fn fixup_leaves_the_state_as_it_was() {
    for suppress_weak_ref_discovery in [false, true] {
        for slot_rewrite_mode in [false, true] {
            let before = ScanFlags { suppress_weak_ref_discovery, slot_rewrite_mode };
            let mut flags = before;
            let object = reference(ReferenceType::Soft);
            let actions = scan_object_for_fixup::<true>(&object, &mut flags, plain_options());
            assert_eq!(actions, strong_visits());
            assert_eq!(flags, before);
        }
    }
}

#[test]
fn state_is_entered_and_left() {
    let mut flags = ScanFlags { suppress_weak_ref_discovery: true, slot_rewrite_mode: false };
    let previous = flags.enter_fixup();
    assert!(flags.suppress_weak_ref_discovery && flags.slot_rewrite_mode);
    flags.leave_fixup(previous);
    assert!(flags.suppress_weak_ref_discovery && !flags.slot_rewrite_mode);
}

#[test]
fn offset_of_a_slot_leads_back_to_it() {
    let object = ObjectReference(Address(0x1000));
    let slot = OpenJDKSlot::<true> { addr: Address(0x1024) };
    let offset = slot_offset::<true>(object, slot);
    assert_eq!(offset, 0x24);
    let loaded = load_slot_at_offset::<true, _>(object, offset, |slot: OpenJDKSlot<true>| {
        Some(ObjectReference(slot.addr))
    });
    assert_eq!(loaded, Some(ObjectReference(slot.addr)));
    let loaded = load_slot_at_offset::<true, _>(object, 0, |_slot: OpenJDKSlot<true>| None);
    assert_eq!(loaded, None);
}

#[test]
fn slot_is_described_by_class_and_offset() {
    let object = Oop {
        start: Address(0x1000),
        klass: Klass::ObjArray(ObjArrayKlass { base: Address(0x1010), length: 3 }),
    };
    let slot = OpenJDKSlot::<true> { addr: Address(0x1014) };
    assert_eq!(describe_slot(&object, slot), Some("klass=ObjArray, offset=20".to_string()));
    let slot = OpenJDKSlot::<true> { addr: Address(0x1000) };
    assert_eq!(describe_slot(&object, slot), Some("klass=ObjArray, offset=0".to_string()));
    let slot = OpenJDKSlot::<true> { addr: Address(0x1000 + 1234567890) };
    assert_eq!(describe_slot(&object, slot), Some("klass=ObjArray, offset=1234567890".to_string()));
}

#[test]
fn slot_of_a_reference_is_described_by_its_field() {
    let object = reference(ReferenceType::Phantom);
    let slot = |addr| OpenJDKSlot::<false> { addr: Address(addr) };
    assert_eq!(
        describe_slot(&object, slot(0x1010)),
        Some("klass=InstanceRef, offset=16, reference_type=Phantom, field=referent".to_string())
    );
    assert_eq!(
        describe_slot(&object, slot(0x1018)),
        Some("klass=InstanceRef, offset=24, reference_type=Phantom, field=discovered".to_string())
    );
    assert_eq!(
        describe_slot(&object, slot(0x1008)),
        Some("klass=InstanceRef, offset=8, reference_type=Phantom".to_string())
    );
}

#[test]
fn kinds_and_strengths_have_names() {
    assert_eq!(KlassKind::Instance.name(), "Instance");
    assert_eq!(KlassKind::InstanceRef.name(), "InstanceRef");
    assert_eq!(KlassKind::InstanceMirror.name(), "InstanceMirror");
    assert_eq!(KlassKind::InstanceClassLoader.name(), "InstanceClassLoader");
    assert_eq!(KlassKind::InstanceStackChunk.name(), "InstanceStackChunk");
    assert_eq!(KlassKind::TypeArray.name(), "TypeArray");
    assert_eq!(KlassKind::ObjArray.name(), "ObjArray");
    assert_eq!(KlassKind::Unknown.name(), "Unknown");
    assert_eq!(ReferenceType::NoReference.name(), "None");
    assert_eq!(ReferenceType::Soft.name(), "Soft");
    assert_eq!(ReferenceType::Weak.name(), "Weak");
    assert_eq!(ReferenceType::Final.name(), "Final");
    assert_eq!(ReferenceType::Phantom.name(), "Phantom");
}

#[test]
fn unknown_class_cannot_be_scanned() {
    let object = Oop { start: Address(0x1000), klass: Klass::Unknown };
    assert!(!is_scannable(&object, plain_flags(), plain_options(), true));
    for klass in [Klass::InstanceStackChunk, Klass::TypeArray(TypeArrayKlass)] {
        let object = Oop { start: Address(0x1000), klass };
        assert!(is_scannable(&object, plain_flags(), plain_options(), true));
    }
}

#[test]
fn reference_without_strength_cannot_be_told_to_the_collector() {
    let object = reference(ReferenceType::NoReference);
    assert!(!is_scannable(&object, plain_flags(), plain_options(), true));
    let suppressed = ScanFlags { suppress_weak_ref_discovery: true, slot_rewrite_mode: false };
    assert!(is_scannable(&object, suppressed, plain_options(), true));
    let rewriting = ScanFlags { suppress_weak_ref_discovery: false, slot_rewrite_mode: true };
    assert!(is_scannable(&object, rewriting, plain_options(), true));
    let strong = ReferenceOptions { no_reference_types: true, ..plain_options() };
    assert!(is_scannable(&object, plain_flags(), strong, true));
    assert!(is_scannable(&reference(ReferenceType::Weak), plain_flags(), plain_options(), true));
}

#[test]
fn slots_have_to_lie_in_memory() {
    let array = |base, length| Oop {
        start: Address(0x1000),
        klass: Klass::ObjArray(ObjArrayKlass { base: Address(base), length }),
    };
    let fits = |object: &Oop, compressed| {
        is_scannable(object, plain_flags(), plain_options(), compressed)
    };
    assert!(fits(&array(usize::MAX - 7, 2), true));
    assert!(fits(&array(usize::MAX - 7, 1), false));
    assert!(fits(&array(usize::MAX - 7, 2), true));
    assert!(!fits(&array(usize::MAX - 7, 3), true));
    assert!(!fits(&array(usize::MAX - 7, 2), false));
    assert!(fits(&array(usize::MAX, 0), false));
    assert!(!fits(&array(0, usize::MAX), true));
    let instance = |start, offset, count| Oop {
        start: Address(start),
        klass: Klass::Instance(InstanceKlass {
            nonstatic_oop_maps: vec![
                OopMapBlock { offset: 0, count: 1 },
                OopMapBlock { offset, count },
            ],
            reference_type: ReferenceType::NoReference,
        }),
    };
    assert!(fits(&instance(0x1000, -0x1000, 1), true));
    assert!(!fits(&instance(0x1000, -0x1001, 1), true));
    assert!(!fits(&instance(0x1000, i32::MIN, 0), true));
    assert!(!fits(&instance(usize::MAX - 8, 9, 1), true));
    assert!(fits(&instance(usize::MAX - 8, 8, 1), true));
    let mirror = |static_fields, static_oop_field_count| Oop {
        start: Address(0x1000),
        klass: Klass::InstanceMirror(InstanceMirrorKlass {
            instance_klass: instance_klass(ReferenceType::NoReference),
            static_fields: Address(static_fields),
            static_oop_field_count,
        }),
    };
    assert!(fits(&mirror(0x2000, 5), true));
    assert!(!fits(&mirror(usize::MAX - 3, 2), true));
}
