//! Laws of the scanning of objects.

use crate::address::{Address, ObjectReference};
use crate::klass::{InstanceKlass, InstanceRefKlass, Klass, Oop, OopMapBlock, ReferenceType};
use crate::object_scanning::{
    object_fits, scan_actions, scans_weak_refs, slot_at, slots_of_maps, visits, ReferenceOptions,
    ScanAction, ScanFlags,
};
use crate::reports::report_kind;
use crate::slots::{run_fits, run_of_slots, slot_bytes, OpenJDKSlot};
use vstd::prelude::*;

verus! {

/// Whether the step is a report, which has no bearing on the heap.
pub open spec fn is_report<const COMPRESSED: bool>(action: ScanAction<COMPRESSED>) -> bool {
    report_kind(action) is Some
}

/// Whether the step tells the collector of a reference.
pub open spec fn is_candidate<const COMPRESSED: bool>(action: ScanAction<COMPRESSED>) -> bool {
    ||| action is AddWeakCandidate
    ||| action is AddSoftCandidate
    ||| action is AddPhantomCandidate
}

/// The steps that are more than reports.
pub open spec fn effects<const COMPRESSED: bool>(actions: Seq<ScanAction<COMPRESSED>>) -> Seq<
    ScanAction<COMPRESSED>,
> {
    actions.filter(|action: ScanAction<COMPRESSED>| !is_report(action))
}

/// The step that tells the collector of the reference `object`, by its strength.
pub open spec fn candidate<const COMPRESSED: bool>(
    strength: ReferenceType,
    object: ObjectReference,
) -> Option<ScanAction<COMPRESSED>> {
    match strength {
        ReferenceType::Weak => Some(ScanAction::AddWeakCandidate(object)),
        ReferenceType::Soft => Some(ScanAction::AddSoftCandidate(object)),
        ReferenceType::Phantom => Some(ScanAction::AddPhantomCandidate(object)),
        _ => None,
    }
}

/// The slots of a `java.lang.ref.Reference` that are visited in every state: the fields that the
/// oop maps list, and `discovered`.
pub open spec fn strong_slots(klass: InstanceRefKlass, oop: Address, compressed: bool) -> Seq<
    Address,
> {
    klass.instance_klass.slots(oop, compressed).push(klass.discovered_address)
}

/// Visits are no reports: all of them are effects.
proof fn lemma_visits_are_effects<const COMPRESSED: bool>(slots: Seq<Address>)
    ensures
        effects(visits::<COMPRESSED>(slots)) == visits::<COMPRESSED>(slots),
    decreases slots.len(),
{
    let steps = visits::<COMPRESSED>(slots);
    reveal(Seq::filter);
    if slots.len() > 0 {
        lemma_visits_are_effects::<COMPRESSED>(slots.drop_last());
        assert(steps.drop_last() =~= visits::<COMPRESSED>(slots.drop_last()));
        assert(effects(steps) =~= steps);
    } else {
        assert(effects(steps) =~= steps);
    }
}

/// The effects of a scan of a `java.lang.ref.Reference` are the visits of the strong slots, and
/// the effects of what is done about the referent.
proof fn lemma_effects_of_reference<const COMPRESSED: bool>(
    klass: InstanceRefKlass,
    oop: Address,
    flags: ScanFlags,
    options: ReferenceOptions,
)
    ensures
        effects(klass.actions::<COMPRESSED>(oop, flags, options)) == visits::<COMPRESSED>(
            strong_slots(klass, oop, COMPRESSED),
        ) + effects(klass.referent_actions::<COMPRESSED>(oop, flags, options)),
{
    let keep = |action: ScanAction<COMPRESSED>| !is_report(action);
    let fields = visits::<COMPRESSED>(klass.instance_klass.slots(oop, COMPRESSED));
    let discovered = klass.discovered_actions::<COMPRESSED>(oop, flags, options);
    let referent = klass.referent_actions::<COMPRESSED>(oop, flags, options);
    Seq::filter_distributes_over_add(fields + discovered, referent, keep);
    Seq::filter_distributes_over_add(fields, discovered, keep);
    lemma_visits_are_effects::<COMPRESSED>(klass.instance_klass.slots(oop, COMPRESSED));
    reveal_with_fuel(Seq::filter, 3);
    let visit = seq![ScanAction::<COMPRESSED>::VisitSlot(klass.discovered())];
    assert(discovered.filter(keep) =~= visit) by {
        if flags.slot_rewrite_mode && options.trace_discovered {
            assert(discovered.drop_last() =~= seq![discovered[0]]);
            assert(discovered.drop_last().drop_last() =~= Seq::empty());
        } else {
            assert(discovered.drop_last() =~= Seq::empty());
        }
    }
    assert(visits::<COMPRESSED>(strong_slots(klass, oop, COMPRESSED)) =~= fields + visit);
}

/// The effects of what is done about the referent while slots are rewritten.
proof fn lemma_referent_while_rewriting<const COMPRESSED: bool>(
    klass: InstanceRefKlass,
    oop: Address,
    flags: ScanFlags,
    options: ReferenceOptions,
)
    requires
        flags.slot_rewrite_mode,
    ensures
        effects(klass.referent_actions::<COMPRESSED>(oop, flags, options))
            == if klass.instance_klass.reference_type == ReferenceType::Final
            || options.process_weak_referents {
            visits::<COMPRESSED>(seq![klass.referent_address])
        } else {
            Seq::empty()
        },
{
    let referent = klass.referent_actions::<COMPRESSED>(oop, flags, options);
    reveal_with_fuel(Seq::filter, 3);
    if referent.len() == 2 {
        assert(referent.drop_last() =~= seq![referent[0]]);
        assert(referent.drop_last().drop_last() =~= Seq::empty());
    } else if referent.len() == 1 {
        assert(referent.drop_last() =~= Seq::empty());
    }
    assert(visits::<COMPRESSED>(seq![klass.referent_address]) =~= seq![
        ScanAction::<COMPRESSED>::VisitSlot(klass.referent()),
    ]);
}

/// While slots are rewritten, a scan of a `java.lang.ref.Reference` visits its strong slots and,
/// if it is final or the settings ask for it, the referent. Other referents are kept as they are,
/// and nothing is told to the collector.
pub proof fn law_fixup_keeps_weak_referents<const COMPRESSED: bool>(
    oop: Oop,
    klass: InstanceRefKlass,
    options: ReferenceOptions,
)
    requires
        oop.klass == Klass::InstanceRef(klass),
    ensures
        effects(scan_actions::<COMPRESSED>(oop, ScanFlags::fixup(), options)) == visits::<
            COMPRESSED,
        >(
            if klass.instance_klass.reference_type == ReferenceType::Final
                || options.process_weak_referents {
                strong_slots(klass, oop.start, COMPRESSED).push(klass.referent_address)
            } else {
                strong_slots(klass, oop.start, COMPRESSED)
            },
        ),
{
    let flags = ScanFlags::fixup();
    lemma_effects_of_reference::<COMPRESSED>(klass, oop.start, flags, options);
    lemma_referent_while_rewriting::<COMPRESSED>(klass, oop.start, flags, options);
    let strong = strong_slots(klass, oop.start, COMPRESSED);
    assert(visits::<COMPRESSED>(strong.push(klass.referent_address)) =~= visits::<COMPRESSED>(
        strong,
    ) + visits::<COMPRESSED>(seq![klass.referent_address]));
}

/// A scan that rewrites slots tells the collector of no reference.
pub proof fn law_fixup_registers_nothing<const COMPRESSED: bool>(
    oop: Oop,
    options: ReferenceOptions,
    i: int,
)
    requires
        0 <= i < scan_actions::<COMPRESSED>(oop, ScanFlags::fixup(), options).len(),
    ensures
        !is_candidate(scan_actions::<COMPRESSED>(oop, ScanFlags::fixup(), options)[i]),
{
}

/// Unless slots are rewritten, a scan of a `java.lang.ref.Reference` visits its strong slots and
/// then does one thing more: it tells the collector of the reference, by its strength, or it
/// visits the referent. It tells the collector if references are treated apart and the reference
/// is weak, soft or phantom.
pub proof fn law_reference_is_registered_or_followed<const COMPRESSED: bool>(
    oop: Oop,
    klass: InstanceRefKlass,
    flags: ScanFlags,
    options: ReferenceOptions,
)
    requires
        oop.klass == Klass::InstanceRef(klass),
        klass.strength_is_known(flags, options),
        !flags.slot_rewrite_mode,
    ensures
        scan_actions::<COMPRESSED>(oop, flags, options) == visits::<COMPRESSED>(
            strong_slots(klass, oop.start, COMPRESSED),
        ).push(
            match candidate::<COMPRESSED>(
                klass.instance_klass.reference_type,
                ObjectReference(oop.start),
            ) {
                Some(told) if scans_weak_refs(flags, options) => told,
                _ => ScanAction::VisitSlot(klass.referent()),
            },
        ),
{
    let strong = visits::<COMPRESSED>(strong_slots(klass, oop.start, COMPRESSED));
    let actions = scan_actions::<COMPRESSED>(oop, flags, options);
    assert(actions.drop_last() =~= strong);
    assert(actions =~= strong.push(actions.last()));
}

/// The `discovered` field is held strongly: it is visited in every state.
pub proof fn law_discovered_is_always_visited<const COMPRESSED: bool>(
    oop: Oop,
    klass: InstanceRefKlass,
    flags: ScanFlags,
    options: ReferenceOptions,
)
    requires
        oop.klass == Klass::InstanceRef(klass),
    ensures
        scan_actions::<COMPRESSED>(oop, flags, options).contains(
            ScanAction::VisitSlot(klass.discovered()),
        ),
{
    let actions = scan_actions::<COMPRESSED>(oop, flags, options);
    let fields = visits::<COMPRESSED>(klass.instance_klass.slots(oop.start, COMPRESSED));
    let discovered = klass.discovered_actions::<COMPRESSED>(oop.start, flags, options);
    let at = fields.len() + discovered.len() - 1;
    assert(actions[at] == ScanAction::<COMPRESSED>::VisitSlot(klass.discovered()));
}

/// Reports change nothing: whatever is reported, the scan visits the same slots and tells the
/// collector of the same references, in the same order.
pub proof fn law_reports_have_no_effect<const COMPRESSED: bool>(
    oop: Oop,
    flags: ScanFlags,
    options: ReferenceOptions,
    others: ReferenceOptions,
)
    requires
        options.no_reference_types == others.no_reference_types,
        options.process_weak_referents == others.process_weak_referents,
    ensures
        effects(scan_actions::<COMPRESSED>(oop, flags, options)) == effects(
            scan_actions::<COMPRESSED>(oop, flags, others),
        ),
{
    if let Klass::InstanceRef(klass) = oop.klass {
        lemma_effects_of_reference::<COMPRESSED>(klass, oop.start, flags, options);
        lemma_effects_of_reference::<COMPRESSED>(klass, oop.start, flags, others);
        if flags.slot_rewrite_mode {
            lemma_referent_while_rewriting::<COMPRESSED>(klass, oop.start, flags, options);
            lemma_referent_while_rewriting::<COMPRESSED>(klass, oop.start, flags, others);
        }
    }
}

/// Only the scan of a `java.lang.ref.Reference` depends on the state of the thread and on the
/// settings.
pub proof fn law_only_references_depend_on_the_state<const COMPRESSED: bool>(
    oop: Oop,
    flags: ScanFlags,
    options: ReferenceOptions,
    other_flags: ScanFlags,
    other_options: ReferenceOptions,
)
    requires
        oop.klass !is InstanceRef,
    ensures
        scan_actions::<COMPRESSED>(oop, flags, options) == scan_actions::<COMPRESSED>(
            oop,
            other_flags,
            other_options,
        ),
{
}

/// Whether `addr` is the address of one of `count` slots from `start` on.
pub open spec fn is_in_run(addr: Address, start: int, count: nat, compressed: bool) -> bool {
    exists|i: int|
        0 <= i < count && addr.at() == start + #[trigger] (i * slot_bytes(compressed))
}

/// Whether `addr` is the address of a field of an instance that starts at `oop`.
pub open spec fn is_field(
    addr: Address,
    maps: Seq<OopMapBlock>,
    oop: Address,
    compressed: bool,
) -> bool {
    exists|b: int|
        0 <= b < maps.len() && is_in_run(
            addr,
            oop.at() + (#[trigger] maps[b]).offset,
            maps[b].count as nat,
            compressed,
        )
}

/// Whether `addr` is the address of a slot by which the object holds another one strongly,
/// whatever the state of the thread is. What a stack chunk holds is known to the virtual machine
/// alone.
pub open spec fn is_strong_slot(addr: Address, oop: Oop, compressed: bool) -> bool {
    match oop.klass {
        Klass::Instance(klass) => is_field(
            addr,
            klass.nonstatic_oop_maps@,
            oop.start,
            compressed,
        ),
        Klass::InstanceRef(klass) => is_field(
            addr,
            klass.instance_klass.nonstatic_oop_maps@,
            oop.start,
            compressed,
        ) || addr == klass.discovered_address,
        Klass::InstanceMirror(klass) => is_field(
            addr,
            klass.instance_klass.nonstatic_oop_maps@,
            oop.start,
            compressed,
        ) || is_in_run(
            addr,
            klass.static_fields.at(),
            klass.static_oop_field_count as nat,
            compressed,
        ),
        Klass::InstanceClassLoader(klass) => is_field(
            addr,
            klass.instance_klass.nonstatic_oop_maps@,
            oop.start,
            compressed,
        ),
        Klass::ObjArray(klass) => is_in_run(
            addr,
            klass.base.at(),
            klass.length as nat,
            compressed,
        ),
        Klass::TypeArray(_) => false,
        Klass::InstanceStackChunk => false,
        Klass::Unknown => false,
    }
}

/// The slots of a run are those at the addresses of the run.
pub(crate) proof fn lemma_run_holds_its_addresses(start: int, count: nat, compressed: bool, addr: Address)
    requires
        run_fits(start, count, compressed),
    ensures
        run_of_slots(start, count, compressed).contains(addr) == is_in_run(
            addr,
            start,
            count,
            compressed,
        ),
{
    let slots = run_of_slots(start, count, compressed);
    let width = slot_bytes(compressed) as int;
    assert forall|i: int| 0 <= i < count implies (#[trigger] slots[i]).at() == start + i * width by {
        assert(0 <= i * width <= (count - 1) * width) by (nonlinear_arith)
            requires
                0 <= i < count,
                width == 4 || width == 8,
        ;
    }
    if slots.contains(addr) {
        let i = choose|i: int| 0 <= i < slots.len() && slots[i] == addr;
        assert(slots[i].at() == start + i * width);
        assert(addr.at() == start + i * slot_bytes(compressed));
    }
    if is_in_run(addr, start, count, compressed) {
        let i = choose|i: int|
            0 <= i < count && addr.at() == start + #[trigger] (i * slot_bytes(compressed));
        assert(slots[i].at() == addr.at());
        assert(slots[i] == addr);
    }
}

/// The slots of an instance are its fields.
pub(crate) proof fn lemma_slots_are_the_fields(
    maps: Seq<OopMapBlock>,
    oop: Address,
    compressed: bool,
    addr: Address,
)
    requires
        forall|b: int| 0 <= b < maps.len() ==> (#[trigger] maps[b]).fits(oop, compressed),
    ensures
        slots_of_maps(maps, oop, compressed).contains(addr) == is_field(
            addr,
            maps,
            oop,
            compressed,
        ),
    decreases maps.len(),
{
    if maps.len() > 0 {
        let before = maps.drop_last();
        let last = maps.last();
        let first_slots = slots_of_maps(before, oop, compressed);
        let last_slots = last.slots(oop, compressed);
        assert forall|b: int| 0 <= b < before.len() implies (#[trigger] before[b]).fits(
            oop,
            compressed,
        ) by {
            assert(before[b] == maps[b]);
        }
        lemma_slots_are_the_fields(before, oop, compressed, addr);
        assert(maps[maps.len() - 1].fits(oop, compressed));
        lemma_run_holds_its_addresses(
            oop.at() + last.offset,
            last.count as nat,
            compressed,
            addr,
        );
        lemma_contains_in_sum(first_slots, last_slots, addr);
        if is_field(addr, before, oop, compressed) {
            let b = choose|b: int|
                0 <= b < before.len() && is_in_run(
                    addr,
                    oop.at() + (#[trigger] before[b]).offset,
                    before[b].count as nat,
                    compressed,
                );
            assert(maps[b] == before[b]);
        }
        if is_field(addr, maps, oop, compressed) {
            let b = choose|b: int|
                0 <= b < maps.len() && is_in_run(
                    addr,
                    oop.at() + (#[trigger] maps[b]).offset,
                    maps[b].count as nat,
                    compressed,
                );
            if b < before.len() {
                assert(before[b] == maps[b]);
            }
        }
    }
}

/// What is in one of two lists is in their sum, and the other way round.
proof fn lemma_contains_in_sum<A>(first: Seq<A>, second: Seq<A>, item: A)
    ensures
        (first + second).contains(item) == (first.contains(item) || second.contains(item)),
{
    let sum = first + second;
    if first.contains(item) {
        let i = choose|i: int| 0 <= i < first.len() && first[i] == item;
        assert(sum[i] == item);
    }
    if second.contains(item) {
        let i = choose|i: int| 0 <= i < second.len() && second[i] == item;
        assert(sum[first.len() + i] == item);
    }
    if sum.contains(item) {
        let i = choose|i: int| 0 <= i < sum.len() && sum[i] == item;
        if i < first.len() {
            assert(first[i] == item);
        } else {
            assert(second[i - first.len()] == item);
        }
    }
}

/// A slot is visited if it is among the slots that are visited.
proof fn lemma_visits_hold_the_slots<const COMPRESSED: bool>(slots: Seq<Address>, addr: Address)
    ensures
        visits::<COMPRESSED>(slots).contains(ScanAction::VisitSlot(OpenJDKSlot { addr }))
            == slots.contains(addr),
{
    let steps = visits::<COMPRESSED>(slots);
    let visit = ScanAction::<COMPRESSED>::VisitSlot(OpenJDKSlot { addr });
    if slots.contains(addr) {
        let i = choose|i: int| 0 <= i < slots.len() && slots[i] == addr;
        assert(steps[i] == visit);
    }
    if steps.contains(visit) {
        let i = choose|i: int| 0 <= i < steps.len() && steps[i] == visit;
        assert(slots[i] == addr);
    }
}

/// A scan misses no slot and invents none: it visits the slots by which the object holds others
/// strongly, and beyond them at most the referent of a `java.lang.ref.Reference`.
pub proof fn law_scan_visits_the_strong_slots<const COMPRESSED: bool>(
    oop: Oop,
    flags: ScanFlags,
    options: ReferenceOptions,
    addr: Address,
)
    requires
        object_fits(oop, COMPRESSED),
    ensures
        ({
            let visited = scan_actions::<COMPRESSED>(oop, flags, options).contains(
                ScanAction::VisitSlot(OpenJDKSlot { addr }),
            );
            &&& is_strong_slot(addr, oop, COMPRESSED) ==> visited
            &&& visited ==> is_strong_slot(addr, oop, COMPRESSED) || (
            oop.klass matches Klass::InstanceRef(klass) && addr == klass.referent_address)
        }),
{
    let visit = ScanAction::<COMPRESSED>::VisitSlot(OpenJDKSlot { addr });
    match oop.klass {
        Klass::Instance(klass) => {
            lemma_fields_are_visited::<COMPRESSED>(klass, oop.start, addr);
        },
        Klass::InstanceClassLoader(klass) => {
            lemma_fields_are_visited::<COMPRESSED>(klass.instance_klass, oop.start, addr);
        },
        Klass::InstanceMirror(klass) => {
            let fields = klass.instance_klass.slots(oop.start, COMPRESSED);
            let count = klass.static_oop_field_count as nat;
            let statics = run_of_slots(klass.static_fields.at(), count, COMPRESSED);
            lemma_visits_hold_the_slots::<COMPRESSED>(fields + statics, addr);
            lemma_contains_in_sum(fields, statics, addr);
            lemma_slots_are_the_fields(
                klass.instance_klass.nonstatic_oop_maps@,
                oop.start,
                COMPRESSED,
                addr,
            );
            lemma_run_holds_its_addresses(klass.static_fields.at(), count, COMPRESSED, addr);
        },
        Klass::ObjArray(klass) => {
            lemma_visits_hold_the_slots::<COMPRESSED>(klass.slots(COMPRESSED), addr);
            lemma_run_holds_its_addresses(
                klass.base.at(),
                klass.length as nat,
                COMPRESSED,
                addr,
            );
        },
        Klass::InstanceRef(klass) => {
            let fields = visits::<COMPRESSED>(klass.instance_klass.slots(oop.start, COMPRESSED));
            let discovered = klass.discovered_actions::<COMPRESSED>(oop.start, flags, options);
            let referent = klass.referent_actions::<COMPRESSED>(oop.start, flags, options);
            lemma_fields_are_visited::<COMPRESSED>(klass.instance_klass, oop.start, addr);
            lemma_contains_in_sum(fields, discovered, visit);
            lemma_contains_in_sum(fields + discovered, referent, visit);
            if addr == klass.discovered_address {
                assert(discovered[discovered.len() - 1] == visit);
            }
        },
        _ => {},
    }
}

/// The visits of the slots of an instance are those of its fields.
proof fn lemma_fields_are_visited<const COMPRESSED: bool>(
    klass: InstanceKlass,
    oop: Address,
    addr: Address,
)
    requires
        klass.fits(oop, COMPRESSED),
    ensures
        visits::<COMPRESSED>(klass.slots(oop, COMPRESSED)).contains(
            ScanAction::VisitSlot(OpenJDKSlot { addr }),
        ) == is_field(addr, klass.nonstatic_oop_maps@, oop, COMPRESSED),
{
    lemma_visits_hold_the_slots::<COMPRESSED>(klass.slots(oop, COMPRESSED), addr);
    lemma_slots_are_the_fields(klass.nonstatic_oop_maps@, oop, COMPRESSED, addr);
}

/// The offset of a slot leads back to the slot.
pub proof fn law_offset_leads_back_to_the_slot<const COMPRESSED: bool>(
    object: ObjectReference,
    slot: OpenJDKSlot<COMPRESSED>,
    offset: usize,
)
    requires
        object.0.at() <= slot.addr.at(),
        offset == slot.addr.at() - object.0.at(),
    ensures
        slot_at::<COMPRESSED>(object, offset) == slot,
{
}

} // verus!
