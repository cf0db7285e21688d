//! Laws of what a scan visits, and in which order, in terms of the object alone.

use crate::address::{Address, ObjectReference};
use crate::klass::{
    InstanceKlass, InstanceMirrorKlass, InstanceRefKlass, Klass, ObjArrayKlass, Oop, OopMapBlock,
    ReferenceType,
};
use crate::object_scanning::{
    can_be_scanned, object_fits, scan_actions, scans_weak_refs, slot_at, slot_description,
    slots_of_maps, visits, ReferenceOptions, ReferenceReport, ScanAction, ScanFlags,
};
use crate::scanning_laws::{
    is_field, is_in_run, lemma_run_holds_its_addresses, lemma_slots_are_the_fields,
};
use crate::slots::{run_fits, run_of_slots, slot_bytes, OpenJDKSlot};
use crate::text::decimal;
use vstd::prelude::*;

verus! {

/// Each slot of a list is visited once, in the order of the list.
pub proof fn law_slots_are_visited_in_their_order<const COMPRESSED: bool>(slots: Seq<Address>, i: int)
    ensures
        visits::<COMPRESSED>(slots).len() == slots.len(),
        0 <= i < slots.len() ==> visits::<COMPRESSED>(slots)[i] == ScanAction::<
            COMPRESSED,
        >::VisitSlot(OpenJDKSlot { addr: slots[i] }),
{
}

/// A block of fields has as many slots as it counts, and they go up slot by slot from its offset.
pub proof fn law_block_counts_its_fields(block: OopMapBlock, oop: Address, compressed: bool)
    ensures
        block.slots(oop, compressed) == Seq::new(
            block.count as nat,
            |i: int|
                Address(
                    (oop.0 + block.offset + i * (if compressed {
                        4int
                    } else {
                        8int
                    })) as usize,
                ),
        ),
        block.fits(oop, compressed) <==> {
            &&& 0 <= oop.0 + block.offset <= usize::MAX
            &&& block.count > 0 && compressed ==> oop.0 + block.offset + (block.count - 1) * 4
                <= usize::MAX
            &&& block.count > 0 && !compressed ==> oop.0 + block.offset + (block.count - 1) * 8
                <= usize::MAX
        },
{
    assert(block.slots(oop, compressed) =~= Seq::new(
        block.count as nat,
        |i: int|
            Address(
                (oop.0 + block.offset + i * (if compressed {
                    4int
                } else {
                    8int
                })) as usize,
            ),
    ));
}

/// An instance without blocks has no slots, and one more block adds the slots of that block behind
/// those of the others.
pub proof fn law_fields_grow_block_by_block(
    shorter: InstanceKlass,
    longer: InstanceKlass,
    block: OopMapBlock,
    oop: Address,
    compressed: bool,
)
    ensures
        shorter.nonstatic_oop_maps@.len() == 0 ==> shorter.slots(oop, compressed).len() == 0,
        longer.nonstatic_oop_maps@ == shorter.nonstatic_oop_maps@.push(block) ==> longer.slots(
            oop,
            compressed,
        ) == shorter.slots(oop, compressed) + Seq::new(
            block.count as nat,
            |i: int|
                Address(
                    (oop.0 + block.offset + i * (if compressed {
                        4int
                    } else {
                        8int
                    })) as usize,
                ),
        ),
{
    if longer.nonstatic_oop_maps@ == shorter.nonstatic_oop_maps@.push(block) {
        law_block_counts_its_fields(block, oop, compressed);
        let maps = longer.nonstatic_oop_maps@;
        assert(maps.drop_last() =~= shorter.nonstatic_oop_maps@);
        assert(maps.last() == block);
    }
}

/// The fields of an instance fit if each of its blocks does.
pub proof fn law_fields_fit_if_each_block_does(klass: InstanceKlass, oop: Address, compressed: bool)
    ensures
        klass.fits(oop, compressed) <==> forall|b: int|
            0 <= b < klass.nonstatic_oop_maps@.len() ==> {
                let block = #[trigger] klass.nonstatic_oop_maps@[b];
                &&& 0 <= oop.0 + block.offset <= usize::MAX
                &&& block.count > 0 && compressed ==> oop.0 + block.offset + (block.count - 1) * 4
                    <= usize::MAX
                &&& block.count > 0 && !compressed ==> oop.0 + block.offset + (block.count - 1) * 8
                    <= usize::MAX
            },
{
    let maps = klass.nonstatic_oop_maps@;
    assert forall|b: int| 0 <= b < maps.len() implies (#[trigger] maps[b]).fits(oop, compressed)
        == ({
        let block = maps[b];
        &&& 0 <= oop.0 + block.offset <= usize::MAX
        &&& block.count > 0 && compressed ==> oop.0 + block.offset + (block.count - 1) * 4
            <= usize::MAX
        &&& block.count > 0 && !compressed ==> oop.0 + block.offset + (block.count - 1) * 8
            <= usize::MAX
    }) by {
        law_block_counts_its_fields(maps[b], oop, compressed);
    }
}

/// A scan of an instance visits the slots of its fields, one after the other, and does nothing
/// else. A scan of a class loader does the same.
pub proof fn law_instance_is_visited_field_by_field<const COMPRESSED: bool>(
    oop: Oop,
    klass: InstanceKlass,
    flags: ScanFlags,
    options: ReferenceOptions,
    i: int,
)
    requires
        oop.klass == Klass::Instance(klass) || (
        oop.klass matches Klass::InstanceClassLoader(loader) && loader.instance_klass == klass),
    ensures
        ({
            let actions = scan_actions::<COMPRESSED>(oop, flags, options);
            let slots = klass.slots(oop.start, COMPRESSED);
            &&& actions.len() == slots.len()
            &&& 0 <= i < actions.len() ==> actions[i] == ScanAction::<COMPRESSED>::VisitSlot(
                OpenJDKSlot { addr: slots[i] },
            )
        }),
{
}

/// A scan of an array of references visits its elements, each once: there are as many visits as
/// elements, and each lies one slot above the one before, from the base on.
pub proof fn law_array_is_visited_element_by_element<const COMPRESSED: bool>(
    oop: Oop,
    klass: ObjArrayKlass,
    flags: ScanFlags,
    options: ReferenceOptions,
    i: int,
    j: int,
)
    requires
        oop.klass == Klass::ObjArray(klass),
        klass.length > 0 && COMPRESSED ==> klass.base.0 + (klass.length - 1) * 4 <= usize::MAX,
        klass.length > 0 && !COMPRESSED ==> klass.base.0 + (klass.length - 1) * 8 <= usize::MAX,
    ensures
        ({
            let width = if COMPRESSED {
                4int
            } else {
                8int
            };
            let actions = scan_actions::<COMPRESSED>(oop, flags, options);
            &&& actions.len() == klass.length
            &&& klass.slots(COMPRESSED).len() == klass.length
            &&& 0 <= i < klass.length ==> {
                &&& actions[i] matches ScanAction::VisitSlot(slot) && slot.addr.0 == klass.base.0 + i
                    * width
                &&& klass.slots(COMPRESSED)[i].0 == klass.base.0 + i * width
            }
            &&& 0 <= i < j < klass.length ==> actions[i] != actions[j]
        }),
{
    let width = slot_bytes(COMPRESSED) as int;
    let actions = scan_actions::<COMPRESSED>(oop, flags, options);
    if 0 <= i < klass.length {
        assert(0 <= i * width <= (klass.length - 1) * width) by (nonlinear_arith)
            requires
                0 <= i < klass.length,
                width == 4 || width == 8,
        ;
        assert(klass.slots(COMPRESSED)[i].0 == klass.base.0 + i * width);
    }
    if 0 <= i < j < klass.length {
        assert(i * width < j * width <= (klass.length - 1) * width) by (nonlinear_arith)
            requires
                0 <= i < j < klass.length,
                width == 4 || width == 8,
        ;
        assert(klass.slots(COMPRESSED)[j].0 == klass.base.0 + j * width);
        assert(actions[i] == ScanAction::<COMPRESSED>::VisitSlot(
            OpenJDKSlot { addr: klass.slots(COMPRESSED)[i] },
        ));
        assert(actions[j] == ScanAction::<COMPRESSED>::VisitSlot(
            OpenJDKSlot { addr: klass.slots(COMPRESSED)[j] },
        ));
    }
}

/// A scan of a mirror visits its own fields, as a scan of an instance would, and then the static
/// fields of the class that it stands for.
pub proof fn law_mirror_is_visited_with_its_static_fields<const COMPRESSED: bool>(
    oop: Oop,
    instance: Oop,
    klass: InstanceMirrorKlass,
    flags: ScanFlags,
    options: ReferenceOptions,
)
    requires
        oop.klass == Klass::InstanceMirror(klass),
        instance == (Oop { start: oop.start, klass: Klass::Instance(klass.instance_klass) }),
    ensures
        ({
            let width = if COMPRESSED {
                4int
            } else {
                8int
            };
            let statics = Seq::new(
                klass.static_oop_field_count as nat,
                |i: int| Address((klass.static_fields.0 + i * width) as usize),
            );
            let fields = klass.instance_klass.slots(oop.start, COMPRESSED);
            &&& scan_actions::<COMPRESSED>(oop, flags, options) == scan_actions::<COMPRESSED>(
                instance,
                flags,
                options,
            ) + statics.map_values(
                |addr: Address| ScanAction::<COMPRESSED>::VisitSlot(OpenJDKSlot { addr }),
            )
            &&& klass.slots(oop.start, COMPRESSED) == fields + statics
            &&& klass.fits(oop.start, COMPRESSED) <==> {
                &&& klass.instance_klass.fits(oop.start, COMPRESSED)
                &&& klass.static_oop_field_count > 0 ==> klass.static_fields.0 + (
                klass.static_oop_field_count - 1) * width <= usize::MAX
            }
        }),
{
    let width = slot_bytes(COMPRESSED) as int;
    let statics = Seq::new(
        klass.static_oop_field_count as nat,
        |i: int| Address((klass.static_fields.0 + i * width) as usize),
    );
    let fields = klass.instance_klass.slots(oop.start, COMPRESSED);
    assert(klass.slots(oop.start, COMPRESSED) =~= fields + statics);
    assert(visits::<COMPRESSED>(fields + statics) =~= visits::<COMPRESSED>(fields)
        + statics.map_values(
        |addr: Address| ScanAction::<COMPRESSED>::VisitSlot(OpenJDKSlot { addr }),
    ));
}

/// Nothing is done about an array of primitive values, and a stack chunk is left to the virtual
/// machine as a whole.
pub proof fn law_other_objects_have_no_slots_of_their_own<const COMPRESSED: bool>(
    oop: Oop,
    flags: ScanFlags,
    options: ReferenceOptions,
)
    ensures
        oop.klass is TypeArray ==> scan_actions::<COMPRESSED>(oop, flags, options).len() == 0,
        oop.klass is InstanceStackChunk ==> scan_actions::<COMPRESSED>(oop, flags, options) == seq![
            ScanAction::<COMPRESSED>::ScanByVm(ObjectReference(oop.start)),
        ],
{
}

/// A reference is told to the collector unless the settings or the thread rule it out.
pub proof fn law_references_are_told_unless_ruled_out(flags: ScanFlags, options: ReferenceOptions)
    ensures
        scans_weak_refs(flags, options) <==> !(options.no_reference_types
            || flags.suppress_weak_ref_discovery),
{
}

/// While slots are rewritten, both flags of the thread are set.
pub proof fn law_fixup_sets_both_flags()
    ensures
        ScanFlags::fixup().suppress_weak_ref_discovery,
        ScanFlags::fixup().slot_rewrite_mode,
{
}

/// Unless slots are rewritten, a scan of a `java.lang.ref.Reference` visits its fields, as a scan of
/// an instance would, then `discovered`, and then does one thing more: it tells the collector of a
/// weak, soft or phantom reference, each as what it is, unless that is ruled out, and else visits
/// the referent.
pub proof fn law_reference_is_told_or_followed<const COMPRESSED: bool>(
    oop: Oop,
    instance: Oop,
    klass: InstanceRefKlass,
    flags: ScanFlags,
    options: ReferenceOptions,
)
    requires
        oop.klass == Klass::InstanceRef(klass),
        instance == (Oop { start: oop.start, klass: Klass::Instance(klass.instance_klass) }),
        !flags.slot_rewrite_mode,
    ensures
        ({
            let fields = scan_actions::<COMPRESSED>(instance, flags, options);
            let actions = scan_actions::<COMPRESSED>(oop, flags, options);
            let strength = klass.instance_klass.reference_type;
            let is_told = !options.no_reference_types && !flags.suppress_weak_ref_discovery;
            let n = fields.len() as int;
            &&& actions == klass.actions::<COMPRESSED>(oop.start, flags, options)
            &&& actions.len() >= n + 1
            &&& actions.take(n) == fields
            &&& actions[n] == ScanAction::<COMPRESSED>::VisitSlot(
                OpenJDKSlot { addr: klass.discovered_address },
            )
            &&& !(is_told && strength == ReferenceType::NoReference) ==> actions.len() == n + 2
            &&& !is_told || strength == ReferenceType::Final ==> actions[n + 1] == ScanAction::<
                COMPRESSED,
            >::VisitSlot(OpenJDKSlot { addr: klass.referent_address })
            &&& is_told && strength == ReferenceType::Weak ==> actions[n + 1] == ScanAction::<
                COMPRESSED,
            >::AddWeakCandidate(ObjectReference(oop.start))
            &&& is_told && strength == ReferenceType::Soft ==> actions[n + 1] == ScanAction::<
                COMPRESSED,
            >::AddSoftCandidate(ObjectReference(oop.start))
            &&& is_told && strength == ReferenceType::Phantom ==> actions[n + 1] == ScanAction::<
                COMPRESSED,
            >::AddPhantomCandidate(ObjectReference(oop.start))
        }),
{
    let fields = scan_actions::<COMPRESSED>(instance, flags, options);
    let actions = scan_actions::<COMPRESSED>(oop, flags, options);
    assert(actions.take(fields.len() as int) =~= fields);
}

/// While slots are rewritten, a scan of a `java.lang.ref.Reference` visits its fields, as a scan of
/// an instance would, and `discovered`, which is reported just before if the settings ask for it.
/// The last thing is about the referent: it is visited if the reference is final or the settings ask
/// for it, and any other is reported, as rewritten before the visit, or as preserved in place of it,
/// if the settings ask for that. A report shows the object, its strength, and the slot.
pub proof fn law_rewriting_keeps_weak_referents<const COMPRESSED: bool>(
    oop: Oop,
    instance: Oop,
    klass: InstanceRefKlass,
    flags: ScanFlags,
    options: ReferenceOptions,
)
    requires
        oop.klass == Klass::InstanceRef(klass),
        instance == (Oop { start: oop.start, klass: Klass::Instance(klass.instance_klass) }),
        flags.slot_rewrite_mode,
    ensures
        ({
            let fields = scan_actions::<COMPRESSED>(instance, flags, options);
            let actions = scan_actions::<COMPRESSED>(oop, flags, options);
            let discovered = OpenJDKSlot::<COMPRESSED> { addr: klass.discovered_address };
            let referent = OpenJDKSlot::<COMPRESSED> { addr: klass.referent_address };
            let reference = ObjectReference(oop.start);
            let reference_type = klass.instance_klass.reference_type;
            let is_final = reference_type == ReferenceType::Final;
            let n = fields.len() as int;
            let d = if options.trace_discovered {
                n + 1
            } else {
                n
            };
            let is_visited = is_final || options.process_weak_referents;
            let is_reported = !is_final && options.trace_referents;
            let report = ReferenceReport { reference, reference_type, slot: referent };
            &&& actions == klass.actions::<COMPRESSED>(oop.start, flags, options)
            &&& actions.len() == d + 1 + (if is_reported {
                1int
            } else {
                0int
            }) + (if is_visited {
                1int
            } else {
                0int
            })
            &&& actions.take(n) == fields
            &&& options.trace_discovered ==> actions[n] == ScanAction::ReportDiscovered(
                ReferenceReport { reference, reference_type, slot: discovered },
            )
            &&& actions[d] == ScanAction::VisitSlot(discovered)
            &&& is_visited ==> actions.last() == ScanAction::VisitSlot(referent)
            &&& is_reported && is_visited ==> actions[d + 1] == ScanAction::ReportRewritten(report)
            &&& is_reported && !is_visited ==> actions[d + 1] == ScanAction::ReportPreserved(report)
        }),
{
    let fields = scan_actions::<COMPRESSED>(instance, flags, options);
    let actions = scan_actions::<COMPRESSED>(oop, flags, options);
    assert(actions.take(fields.len() as int) =~= fields);
}

/// The two slots of a reference that the oop maps leave out lie where the class says.
pub proof fn law_reference_fields_lie_where_the_class_says<const COMPRESSED: bool>(
    klass: InstanceRefKlass,
    flags: ScanFlags,
    options: ReferenceOptions,
)
    ensures
        klass.referent::<COMPRESSED>().addr == klass.referent_address,
        klass.discovered::<COMPRESSED>().addr == klass.discovered_address,
        klass.strength_is_known(flags, options) <==> {
            ||| klass.instance_klass.reference_type != ReferenceType::NoReference
            ||| flags.slot_rewrite_mode
            ||| options.no_reference_types
            ||| flags.suppress_weak_ref_discovery
        },
{
}

/// An object can be scanned if its class is known and its slots fit, and a reference whose strength
/// is not known only where it is not told to the collector.
pub proof fn law_objects_can_be_scanned_if_they_fit(
    oop: Oop,
    flags: ScanFlags,
    options: ReferenceOptions,
    compressed: bool,
)
    ensures
        can_be_scanned(oop, flags, options, compressed) <==> match oop.klass {
            Klass::Instance(klass) => klass.fits(oop.start, compressed),
            Klass::InstanceClassLoader(klass) => klass.instance_klass.fits(oop.start, compressed),
            Klass::InstanceMirror(klass) => klass.fits(oop.start, compressed),
            Klass::InstanceRef(klass) => klass.instance_klass.fits(oop.start, compressed) && (
            klass.instance_klass.reference_type != ReferenceType::NoReference
                || flags.slot_rewrite_mode || options.no_reference_types
                || flags.suppress_weak_ref_discovery),
            Klass::ObjArray(klass) => {
                &&& klass.length > 0 && compressed ==> klass.base.0 + (klass.length - 1) * 4
                    <= usize::MAX
                &&& klass.length > 0 && !compressed ==> klass.base.0 + (klass.length - 1) * 8
                    <= usize::MAX
            },
            Klass::TypeArray(_) => true,
            Klass::InstanceStackChunk => true,
            Klass::Unknown => false,
        },
        can_be_scanned(oop, flags, options, compressed) ==> object_fits(oop, compressed),
{
}

/// A slot at an offset lies that many bytes above the start of the object.
pub proof fn law_offset_is_counted_from_the_start<const COMPRESSED: bool>(
    object: ObjectReference,
    offset: usize,
)
    requires
        object.0.0 + offset <= usize::MAX,
    ensures
        slot_at::<COMPRESSED>(object, offset).addr.0 == object.0.0 + offset,
{
}

/// A slot is described by the kind of the class and the offset from the start of the object, and a
/// slot of a `java.lang.ref.Reference` by its strength too, and by the field if it is the referent
/// or `discovered`.
pub proof fn law_slot_is_described_by_its_place(oop: Oop, addr: Address)
    requires
        oop.start.0 <= addr.0,
    ensures
        ({
            let offset = ", offset="@ + decimal((addr.0 - oop.start.0) as nat);
            let text = slot_description(oop, addr);
            match oop.klass {
                Klass::Instance(_) => text == "klass="@ + "Instance"@ + offset,
                Klass::InstanceMirror(_) => text == "klass="@ + "InstanceMirror"@ + offset,
                Klass::InstanceClassLoader(_) => text == "klass="@ + "InstanceClassLoader"@ + offset,
                Klass::InstanceStackChunk => text == "klass="@ + "InstanceStackChunk"@ + offset,
                Klass::TypeArray(_) => text == "klass="@ + "TypeArray"@ + offset,
                Klass::ObjArray(_) => text == "klass="@ + "ObjArray"@ + offset,
                Klass::Unknown => text == "klass="@ + "Unknown"@ + offset,
                Klass::InstanceRef(klass) => text == "klass="@ + "InstanceRef"@ + offset
                    + ", reference_type="@ + (match klass.instance_klass.reference_type {
                    ReferenceType::NoReference => "None"@,
                    ReferenceType::Soft => "Soft"@,
                    ReferenceType::Weak => "Weak"@,
                    ReferenceType::Final => "Final"@,
                    ReferenceType::Phantom => "Phantom"@,
                }) + (if addr.0 == klass.referent_address.0 {
                    ", field=referent"@
                } else if addr.0 == klass.discovered_address.0 {
                    ", field=discovered"@
                } else {
                    Seq::empty()
                }),
            }
        }),
{
    let offset = ", offset="@ + decimal((addr.0 - oop.start.0) as nat);
    let kind = oop.klass.spec_kind().spec_name();
    assert("klass="@ + kind + ", offset="@ + decimal((addr.0 - oop.start.0) as nat) =~= "klass="@
        + kind + offset);
}

/// Two lists without repetition that share nothing make one without repetition.
proof fn lemma_nothing_twice_in_sum(first: Seq<Address>, second: Seq<Address>)
    requires
        first.no_duplicates(),
        second.no_duplicates(),
        forall|addr: Address| !(#[trigger] first.contains(addr) && second.contains(addr)),
    ensures
        (first + second).no_duplicates(),
{
    let sum = first + second;
    assert forall|i: int, j: int|
        0 <= i < sum.len() && 0 <= j < sum.len() && i != j implies sum[i] != sum[j] by {
        let n = first.len() as int;
        if i < n && j >= n {
            assert(first.contains(sum[i]));
            assert(second[j - n] == sum[j]);
            assert(sum[i] == sum[j] ==> second.contains(sum[i]));
        } else if i >= n && j < n {
            assert(first.contains(sum[j]));
            assert(second[i - n] == sum[i]);
            assert(sum[i] == sum[j] ==> second.contains(sum[j]));
        } else if i >= n {
            assert(sum[i] == second[i - n] && sum[j] == second[j - n]);
        }
    }
}

/// No slot of a run comes twice.
proof fn lemma_nothing_twice_in_run(start: int, count: nat, compressed: bool)
    requires
        run_fits(start, count, compressed),
    ensures
        run_of_slots(start, count, compressed).no_duplicates(),
{
    let slots = run_of_slots(start, count, compressed);
    let width = slot_bytes(compressed) as int;
    assert forall|i: int, j: int|
        0 <= i < slots.len() && 0 <= j < slots.len() && i != j implies slots[i] != slots[j] by {
        assert(i * width != j * width && 0 <= i * width <= (count - 1) * width && 0 <= j * width
            <= (count - 1) * width) by (nonlinear_arith)
            requires
                0 <= i < count,
                0 <= j < count,
                i != j,
                width == 4 || width == 8,
        ;
        assert(slots[i].at() == start + i * width);
        assert(slots[j].at() == start + j * width);
    }
}

/// An address is in one of two runs at most, if one ends before the other starts.
proof fn lemma_runs_apart_share_nothing(
    addr: Address,
    start: int,
    count: nat,
    other: int,
    others: nat,
    compressed: bool,
)
    requires
        count == 0 || others == 0 || start + count * slot_bytes(compressed) <= other || other
            + others * slot_bytes(compressed) <= start,
    ensures
        !(is_in_run(addr, start, count, compressed) && is_in_run(addr, other, others, compressed)),
{
    if is_in_run(addr, start, count, compressed) && is_in_run(addr, other, others, compressed) {
        let width = slot_bytes(compressed) as int;
        let i = choose|i: int|
            0 <= i < count && addr.at() == start + #[trigger] (i * slot_bytes(compressed));
        let j = choose|j: int|
            0 <= j < others && addr.at() == other + #[trigger] (j * slot_bytes(compressed));
        assert(0 <= i * width < count * width && 0 <= j * width < others * width)
            by (nonlinear_arith)
            requires
                0 <= i < count,
                0 <= j < others,
                width == 4 || width == 8,
        ;
    }
}

/// No field of an instance comes twice, if its blocks lie apart.
proof fn lemma_nothing_twice_in_fields(maps: Seq<OopMapBlock>, oop: Address, compressed: bool)
    requires
        forall|b: int| 0 <= b < maps.len() ==> (#[trigger] maps[b]).fits(oop, compressed),
        forall|b: int, c: int|
            #![trigger maps[b], maps[c]]
            0 <= b < c < maps.len() ==> maps[b].count == 0 || maps[c].count == 0 || maps[b].offset
                + maps[b].count * slot_bytes(compressed) <= maps[c].offset || maps[c].offset
                + maps[c].count * slot_bytes(compressed) <= maps[b].offset,
    ensures
        slots_of_maps(maps, oop, compressed).no_duplicates(),
    decreases maps.len(),
{
    if maps.len() > 0 {
        let before = maps.drop_last();
        let last = maps.last();
        let n = maps.len() - 1;
        assert forall|b: int| 0 <= b < before.len() implies (#[trigger] before[b]).fits(
            oop,
            compressed,
        ) by {
            assert(before[b] == maps[b]);
        }
        assert forall|b: int, c: int|
            #![trigger before[b], before[c]]
            0 <= b < c < before.len() implies before[b].count == 0 || before[c].count == 0
            || before[b].offset + before[b].count * slot_bytes(compressed) <= before[c].offset
            || before[c].offset + before[c].count * slot_bytes(compressed) <= before[b].offset by {
            assert(before[b] == maps[b] && before[c] == maps[c]);
        }
        lemma_nothing_twice_in_fields(before, oop, compressed);
        assert(maps[n] == last && last.fits(oop, compressed));
        lemma_nothing_twice_in_run(oop.at() + last.offset, last.count as nat, compressed);
        let first = slots_of_maps(before, oop, compressed);
        let second = last.slots(oop, compressed);
        assert forall|addr: Address| !(#[trigger] first.contains(addr) && second.contains(addr)) by {
            if first.contains(addr) && second.contains(addr) {
                lemma_slots_are_the_fields(before, oop, compressed, addr);
                lemma_run_holds_its_addresses(
                    oop.at() + last.offset,
                    last.count as nat,
                    compressed,
                    addr,
                );
                let b = choose|b: int|
                    0 <= b < before.len() && is_in_run(
                        addr,
                        oop.at() + (#[trigger] before[b]).offset,
                        before[b].count as nat,
                        compressed,
                    );
                assert(before[b] == maps[b]);
                lemma_runs_apart_share_nothing(
                    addr,
                    oop.at() + maps[b].offset,
                    maps[b].count as nat,
                    oop.at() + maps[n].offset,
                    maps[n].count as nat,
                    compressed,
                );
            }
        }
        lemma_nothing_twice_in_sum(first, second);
    }
}

/// A scan of an instance or of a class loader visits no slot twice, if the blocks of its fields lie
/// apart.
pub proof fn law_instance_visits_no_slot_twice<const COMPRESSED: bool>(
    oop: Oop,
    klass: InstanceKlass,
    flags: ScanFlags,
    options: ReferenceOptions,
    i: int,
    j: int,
)
    requires
        oop.klass == Klass::Instance(klass) || (
        oop.klass matches Klass::InstanceClassLoader(loader) && loader.instance_klass == klass),
        klass.fits(oop.start, COMPRESSED),
        forall|b: int, c: int|
            #![trigger klass.nonstatic_oop_maps@[b], klass.nonstatic_oop_maps@[c]]
            0 <= b < c < klass.nonstatic_oop_maps@.len() ==> {
                let one = klass.nonstatic_oop_maps@[b];
                let other = klass.nonstatic_oop_maps@[c];
                let width = if COMPRESSED {
                    4int
                } else {
                    8int
                };
                ||| one.count == 0
                ||| other.count == 0
                ||| one.offset + one.count * width <= other.offset
                ||| other.offset + other.count * width <= one.offset
            },
        0 <= i < j < scan_actions::<COMPRESSED>(oop, flags, options).len(),
    ensures
        scan_actions::<COMPRESSED>(oop, flags, options)[i] is VisitSlot,
        scan_actions::<COMPRESSED>(oop, flags, options)[i] != scan_actions::<COMPRESSED>(
            oop,
            flags,
            options,
        )[j],
{
    let maps = klass.nonstatic_oop_maps@;
    lemma_nothing_twice_in_fields(maps, oop.start, COMPRESSED);
    let slots = klass.slots(oop.start, COMPRESSED);
    let actions = scan_actions::<COMPRESSED>(oop, flags, options);
    assert(slots[i] != slots[j]);
    assert(actions[i] == ScanAction::<COMPRESSED>::VisitSlot(OpenJDKSlot { addr: slots[i] }));
    assert(actions[j] == ScanAction::<COMPRESSED>::VisitSlot(OpenJDKSlot { addr: slots[j] }));
}

/// A scan of a mirror visits no slot twice, if its own fields and the static fields lie apart.
pub proof fn law_mirror_visits_no_slot_twice<const COMPRESSED: bool>(
    oop: Oop,
    klass: InstanceMirrorKlass,
    flags: ScanFlags,
    options: ReferenceOptions,
    i: int,
    j: int,
)
    requires
        oop.klass == Klass::InstanceMirror(klass),
        klass.fits(oop.start, COMPRESSED),
        klass.instance_klass.slots(oop.start, COMPRESSED).no_duplicates(),
        forall|a: int|
            0 <= a < klass.instance_klass.slots(oop.start, COMPRESSED).len() ==> {
                let field = #[trigger] klass.instance_klass.slots(oop.start, COMPRESSED)[a];
                ||| field.0 < klass.static_fields.0
                ||| COMPRESSED && klass.static_fields.0 + klass.static_oop_field_count * 4 <= field.0
                ||| !COMPRESSED && klass.static_fields.0 + klass.static_oop_field_count * 8
                    <= field.0
            },
        0 <= i < j < scan_actions::<COMPRESSED>(oop, flags, options).len(),
    ensures
        scan_actions::<COMPRESSED>(oop, flags, options)[i] is VisitSlot,
        scan_actions::<COMPRESSED>(oop, flags, options)[i] != scan_actions::<COMPRESSED>(
            oop,
            flags,
            options,
        )[j],
{
    let fields = klass.instance_klass.slots(oop.start, COMPRESSED);
    let count = klass.static_oop_field_count as nat;
    let statics = run_of_slots(klass.static_fields.at(), count, COMPRESSED);
    lemma_nothing_twice_in_run(klass.static_fields.at(), count, COMPRESSED);
    assert forall|addr: Address| !(#[trigger] fields.contains(addr) && statics.contains(addr)) by {
        if fields.contains(addr) && statics.contains(addr) {
            lemma_run_holds_its_addresses(klass.static_fields.at(), count, COMPRESSED, addr);
            let a = choose|a: int| 0 <= a < fields.len() && fields[a] == addr;
            let s = choose|s: int|
                0 <= s < count && addr.at() == klass.static_fields.at() + #[trigger] (s
                    * slot_bytes(COMPRESSED));
            let width = slot_bytes(COMPRESSED) as int;
            assert(0 <= s * width < count * width) by (nonlinear_arith)
                requires
                    0 <= s < count,
                    width == 4 || width == 8,
            ;
            assert(fields[a] == addr);
        }
    }
    lemma_nothing_twice_in_sum(fields, statics);
    let slots = klass.slots(oop.start, COMPRESSED);
    let actions = scan_actions::<COMPRESSED>(oop, flags, options);
    assert(slots[i] != slots[j]);
    assert(actions[i] == ScanAction::<COMPRESSED>::VisitSlot(OpenJDKSlot { addr: slots[i] }));
    assert(actions[j] == ScanAction::<COMPRESSED>::VisitSlot(OpenJDKSlot { addr: slots[j] }));
}

/// A scan of a `java.lang.ref.Reference` does nothing twice, if no field of it comes twice and its
/// two other slots lie apart from them and from one another.
pub proof fn law_reference_visits_no_slot_twice<const COMPRESSED: bool>(
    oop: Oop,
    klass: InstanceRefKlass,
    flags: ScanFlags,
    options: ReferenceOptions,
    i: int,
    j: int,
)
    requires
        oop.klass == Klass::InstanceRef(klass),
        klass.instance_klass.slots(oop.start, COMPRESSED).no_duplicates(),
        !klass.instance_klass.slots(oop.start, COMPRESSED).contains(klass.discovered_address),
        !klass.instance_klass.slots(oop.start, COMPRESSED).contains(klass.referent_address),
        klass.discovered_address != klass.referent_address,
        0 <= i < j < scan_actions::<COMPRESSED>(oop, flags, options).len(),
    ensures
        scan_actions::<COMPRESSED>(oop, flags, options)[i] != scan_actions::<COMPRESSED>(
            oop,
            flags,
            options,
        )[j],
{
    let slots = klass.instance_klass.slots(oop.start, COMPRESSED);
    let actions = scan_actions::<COMPRESSED>(oop, flags, options);
    if i < slots.len() {
        assert(actions[i] == ScanAction::<COMPRESSED>::VisitSlot(OpenJDKSlot { addr: slots[i] }));
        assert(slots.contains(slots[i]));
    }
    if j < slots.len() {
        assert(actions[j] == ScanAction::<COMPRESSED>::VisitSlot(OpenJDKSlot { addr: slots[j] }));
        assert(slots[i] != slots[j]);
    }
}

} // verus!
