//! Scanning of objects: which slots of an object are visited, and what becomes of the referent
//! of a `java.lang.ref.Reference`.
//!
//! A scan gives the list of what is to be done, in the order in which it is to be done.

use crate::address::{Address, ObjectReference};
use crate::klass::{
    InstanceClassLoaderKlass, InstanceKlass, InstanceMirrorKlass, InstanceRefKlass, Klass,
    KlassKind, ObjArrayKlass, Oop, OopMapBlock, ReferenceType, TypeArrayKlass,
};
use crate::slots::{is_run_in_memory, run_fits, run_of_slots, slot_bytes, OpenJDKSlot};
use crate::text::{decimal, push_decimal};
use vstd::prelude::*;
use vstd::string::*;

verus! {

/// What is reported of a `java.lang.ref.Reference`: the object, its strength, and a slot of it,
/// whose contents are read when the report is made.
#[derive(Clone, Copy, Debug, PartialEq, Eq)]
pub struct ReferenceReport<const COMPRESSED: bool> {
    pub reference: ObjectReference,
    pub reference_type: ReferenceType,
    pub slot: OpenJDKSlot<COMPRESSED>,
}

/// One step of a scan.
#[derive(Clone, Copy, Debug, PartialEq, Eq)]
pub enum ScanAction<const COMPRESSED: bool> {
    /// Hand the slot to the visitor of the scan.
    VisitSlot(OpenJDKSlot<COMPRESSED>),
    /// Tell the collector of a weak reference.
    AddWeakCandidate(ObjectReference),
    /// Tell the collector of a soft reference.
    AddSoftCandidate(ObjectReference),
    /// Tell the collector of a phantom reference.
    AddPhantomCandidate(ObjectReference),
    /// Report the `discovered` field, as long as the budget for such reports lasts.
    ReportDiscovered(ReferenceReport<COMPRESSED>),
    /// Report a weak referent that is rewritten as if it were held strongly, as long as the
    /// budget for such reports lasts.
    ReportRewritten(ReferenceReport<COMPRESSED>),
    /// Report a referent that is kept as it is, as long as the budget for such reports lasts.
    ReportPreserved(ReferenceReport<COMPRESSED>),
    /// Let the virtual machine walk over the object.
    ScanByVm(ObjectReference),
}

/// The state of a thread that scans objects.
#[derive(Clone, Copy, Debug, PartialEq, Eq, Structural)]
pub struct ScanFlags {
    /// Weak references are not told to the collector.
    pub suppress_weak_ref_discovery: bool,
    /// Slots are rewritten after objects have moved.
    pub slot_rewrite_mode: bool,
}

/// The settings that bear on how a `java.lang.ref.Reference` is scanned.
#[derive(Clone, Copy, Debug, PartialEq, Eq, Structural)]
pub struct ReferenceOptions {
    /// The collector does not treat weak references apart from strong ones.
    pub no_reference_types: bool,
    /// While slots are rewritten, weak referents are rewritten too.
    pub process_weak_referents: bool,
    /// While slots are rewritten, `discovered` fields are reported.
    pub trace_discovered: bool,
    /// While slots are rewritten, referents are reported.
    pub trace_referents: bool,
}

/// The steps that visit `slots`, one after the other.
pub open spec fn visits<const COMPRESSED: bool>(slots: Seq<Address>) -> Seq<
    ScanAction<COMPRESSED>,
> {
    slots.map_values(|addr: Address| ScanAction::VisitSlot(OpenJDKSlot { addr }))
}

/// Visits the slots of one run.
fn visit_run<const COMPRESSED: bool>(
    start: Address,
    count: usize,
    actions: &mut Vec<ScanAction<COMPRESSED>>,
)
    requires
        run_fits(start.at(), count as nat, COMPRESSED),
    ensures
        final(actions)@ == old(actions)@ + visits::<COMPRESSED>(
            run_of_slots(start.at(), count as nat, COMPRESSED),
        ),
{
    let width: usize = OpenJDKSlot::<COMPRESSED>::bytes_in_slot();
    let ghost steps = visits::<COMPRESSED>(run_of_slots(start.at(), count as nat, COMPRESSED));
    assert(old(actions)@ =~= old(actions)@ + steps.take(0));
    let mut i: usize = 0;
    while i < count
        invariant
            i <= count,
            width == slot_bytes(COMPRESSED),
            run_fits(start.at(), count as nat, COMPRESSED),
            steps == visits::<COMPRESSED>(
                run_of_slots(start.at(), count as nat, COMPRESSED),
            ),
            actions@ == old(actions)@ + steps.take(i as int),
        decreases count - i,
    {
        proof {
            assert(0 <= i * width <= (count - 1) * width) by (nonlinear_arith)
                requires
                    0 <= i < count,
                    width == 4 || width == 8,
            ;
        }
        actions.push(ScanAction::VisitSlot(OpenJDKSlot { addr: start.plus(i * width) }));
        proof {
            assert(steps.take(i + 1) =~= steps.take(i as int).push(steps[i as int]));
        }
        i += 1;
    }
    assert(steps.take(count as int) =~= steps);
}

impl OopMapBlock {
    /// The slots of the block in the object that starts at `oop`.
    pub open spec fn slots(self, oop: Address, compressed: bool) -> Seq<Address> {
        run_of_slots(oop.at() + self.offset, self.count as nat, compressed)
    }

    /// Whether the block lies at addresses that exist in the object that starts at `oop`.
    pub open spec fn fits(self, oop: Address, compressed: bool) -> bool {
        run_fits(oop.at() + self.offset, self.count as nat, compressed)
    }

    /// Visits the slots of the block in the object that starts at `oop`.
    pub fn oop_iterate<const COMPRESSED: bool>(
        &self,
        oop: Address,
        actions: &mut Vec<ScanAction<COMPRESSED>>,
    )
        requires
            self.fits(oop, COMPRESSED),
        ensures
            final(actions)@ == old(actions)@ + visits::<COMPRESSED>(self.slots(oop, COMPRESSED)),
    {
        let start = oop.offset(self.offset);
        visit_run::<COMPRESSED>(start, self.count as usize, actions);
    }
}

/// The slots of the blocks `maps` in the object that starts at `oop`, block by block.
pub open spec fn slots_of_maps(maps: Seq<OopMapBlock>, oop: Address, compressed: bool) -> Seq<
    Address,
>
    decreases maps.len(),
{
    if maps.len() == 0 {
        Seq::empty()
    } else {
        slots_of_maps(maps.drop_last(), oop, compressed) + maps.last().slots(oop, compressed)
    }
}

impl InstanceKlass {
    /// The slots of the fields of an instance that starts at `oop`.
    pub open spec fn slots(self, oop: Address, compressed: bool) -> Seq<Address> {
        slots_of_maps(self.nonstatic_oop_maps@, oop, compressed)
    }

    /// Whether the fields of an instance that starts at `oop` lie at addresses that exist.
    pub open spec fn fits(self, oop: Address, compressed: bool) -> bool {
        forall|i: int|
            0 <= i < self.nonstatic_oop_maps@.len() ==> (
            #[trigger] self.nonstatic_oop_maps@[i]).fits(oop, compressed)
    }

    /// Visits the fields of the instance that starts at `oop`.
    pub fn oop_iterate<const COMPRESSED: bool>(
        &self,
        oop: Address,
        actions: &mut Vec<ScanAction<COMPRESSED>>,
    )
        requires
            self.fits(oop, COMPRESSED),
        ensures
            final(actions)@ == old(actions)@ + visits::<COMPRESSED>(self.slots(oop, COMPRESSED)),
    {
        let ghost maps = self.nonstatic_oop_maps@;
        assert(actions@ =~= old(actions)@ + visits::<COMPRESSED>(
            slots_of_maps(maps.take(0), oop, COMPRESSED),
        ));
        let mut i: usize = 0;
        while i < self.nonstatic_oop_maps.len()
            invariant
                i <= maps.len(),
                maps == self.nonstatic_oop_maps@,
                self.fits(oop, COMPRESSED),
                actions@ == old(actions)@ + visits::<COMPRESSED>(
                    slots_of_maps(maps.take(i as int), oop, COMPRESSED),
                ),
            decreases maps.len() - i,
        {
            self.nonstatic_oop_maps[i].oop_iterate::<COMPRESSED>(oop, actions);
            proof {
                let next = maps.take(i + 1);
                assert(next.drop_last() =~= maps.take(i as int));
                assert(actions@ =~= old(actions)@ + visits::<COMPRESSED>(
                    slots_of_maps(next, oop, COMPRESSED),
                ));
            }
            i += 1;
        }
        assert(maps.take(maps.len() as int) =~= maps);
    }
}

impl InstanceMirrorKlass {
    /// The slots of the mirror that starts at `oop`: its own fields, then the static fields of
    /// the class that it stands for.
    pub open spec fn slots(self, oop: Address, compressed: bool) -> Seq<Address> {
        self.instance_klass.slots(oop, compressed) + run_of_slots(
            self.static_fields.at(),
            self.static_oop_field_count as nat,
            compressed,
        )
    }

    /// Whether the slots of the mirror that starts at `oop` lie at addresses that exist.
    pub open spec fn fits(self, oop: Address, compressed: bool) -> bool {
        &&& self.instance_klass.fits(oop, compressed)
        &&& run_fits(self.static_fields.at(), self.static_oop_field_count as nat, compressed)
    }

    /// Visits the fields of the mirror that starts at `oop`, and then its static fields.
    pub fn oop_iterate<const COMPRESSED: bool>(
        &self,
        oop: Address,
        actions: &mut Vec<ScanAction<COMPRESSED>>,
    )
        requires
            self.fits(oop, COMPRESSED),
        ensures
            final(actions)@ == old(actions)@ + visits::<COMPRESSED>(self.slots(oop, COMPRESSED)),
    {
        self.instance_klass.oop_iterate::<COMPRESSED>(oop, actions);
        visit_run::<COMPRESSED>(self.static_fields, self.static_oop_field_count, actions);
        assert(actions@ =~= old(actions)@ + visits::<COMPRESSED>(self.slots(oop, COMPRESSED)));
    }
}

impl InstanceClassLoaderKlass {
    /// Visits the fields of the class loader that starts at `oop`.
    pub fn oop_iterate<const COMPRESSED: bool>(
        &self,
        oop: Address,
        actions: &mut Vec<ScanAction<COMPRESSED>>,
    )
        requires
            self.instance_klass.fits(oop, COMPRESSED),
        ensures
            final(actions)@ == old(actions)@ + visits::<COMPRESSED>(
                self.instance_klass.slots(oop, COMPRESSED),
            ),
    {
        self.instance_klass.oop_iterate::<COMPRESSED>(oop, actions);
    }
}

impl ObjArrayKlass {
    /// The slots of the elements.
    pub open spec fn slots(self, compressed: bool) -> Seq<Address> {
        run_of_slots(self.base.at(), self.length as nat, compressed)
    }

    /// Visits the elements.
    pub fn oop_iterate<const COMPRESSED: bool>(&self, actions: &mut Vec<ScanAction<COMPRESSED>>)
        requires
            run_fits(self.base.at(), self.length as nat, COMPRESSED),
        ensures
            final(actions)@ == old(actions)@ + visits::<COMPRESSED>(self.slots(COMPRESSED)),
            final(actions)@.len() == old(actions)@.len() + self.length,
    {
        visit_run::<COMPRESSED>(self.base, self.length, actions);
    }
}

impl TypeArrayKlass {
    /// Visits nothing: an array of primitive values holds no reference, and its class is kept
    /// alive by the loader that has no parent.
    pub fn oop_iterate<const COMPRESSED: bool>(&self, actions: &mut Vec<ScanAction<COMPRESSED>>)
        ensures
            final(actions)@ == old(actions)@,
    {
    }
}

/// Whether weak references are told to the collector.
pub open spec fn scans_weak_refs(flags: ScanFlags, options: ReferenceOptions) -> bool {
    !options.no_reference_types && !flags.suppress_weak_ref_discovery
}

impl InstanceRefKlass {
    /// Whether weak references are told to the collector: the collector treats them apart, and
    /// the thread does not suppress it.
    pub fn should_scan_weak_refs(flags: ScanFlags, options: ReferenceOptions) -> (scan: bool)
        ensures
            scan == scans_weak_refs(flags, options),
            scan == !(options.no_reference_types || flags.suppress_weak_ref_discovery),
    {
        !options.no_reference_types && !flags.suppress_weak_ref_discovery
    }

    /// The slot of the referent.
    pub open spec fn referent<const COMPRESSED: bool>(self) -> OpenJDKSlot<COMPRESSED> {
        OpenJDKSlot { addr: self.referent_address }
    }

    /// The slot of the `discovered` field.
    pub open spec fn discovered<const COMPRESSED: bool>(self) -> OpenJDKSlot<COMPRESSED> {
        OpenJDKSlot { addr: self.discovered_address }
    }

    /// What is reported of the reference that starts at `oop`, with the given slot of it.
    pub open spec fn report<const COMPRESSED: bool>(
        self,
        oop: Address,
        slot: OpenJDKSlot<COMPRESSED>,
    ) -> ReferenceReport<COMPRESSED> {
        ReferenceReport {
            reference: ObjectReference(oop),
            reference_type: self.instance_klass.reference_type,
            slot,
        }
    }

    /// What is done about the `discovered` field of the reference that starts at `oop`. It is
    /// held strongly; while slots are rewritten it may be reported first.
    pub open spec fn discovered_actions<const COMPRESSED: bool>(
        self,
        oop: Address,
        flags: ScanFlags,
        options: ReferenceOptions,
    ) -> Seq<ScanAction<COMPRESSED>> {
        let visit = seq![ScanAction::VisitSlot(self.discovered())];
        if flags.slot_rewrite_mode && options.trace_discovered {
            seq![ScanAction::ReportDiscovered(self.report(oop, self.discovered()))] + visit
        } else {
            visit
        }
    }

    /// What is done about the referent of the reference that starts at `oop`.
    pub open spec fn referent_actions<const COMPRESSED: bool>(
        self,
        oop: Address,
        flags: ScanFlags,
        options: ReferenceOptions,
    ) -> Seq<ScanAction<COMPRESSED>> {
        let strength = self.instance_klass.reference_type;
        let visit = seq![ScanAction::VisitSlot(self.referent())];
        let report = self.report(oop, self.referent());
        if flags.slot_rewrite_mode {
            // The collector has brought weak referents up to date already: they are kept unless
            // the settings ask for more. A final referent is held strongly.
            if strength == ReferenceType::Final {
                visit
            } else if options.process_weak_referents && options.trace_referents {
                seq![ScanAction::ReportRewritten(report)] + visit
            } else if options.process_weak_referents {
                visit
            } else if options.trace_referents {
                seq![ScanAction::ReportPreserved(report)]
            } else {
                Seq::empty()
            }
        } else if scans_weak_refs(flags, options) {
            match strength {
                ReferenceType::NoReference => Seq::empty(),
                ReferenceType::Weak => seq![ScanAction::AddWeakCandidate(ObjectReference(oop))],
                ReferenceType::Soft => seq![ScanAction::AddSoftCandidate(ObjectReference(oop))],
                ReferenceType::Phantom => seq![
                    ScanAction::AddPhantomCandidate(ObjectReference(oop)),
                ],
                ReferenceType::Final => visit,
            }
        } else {
            visit
        }
    }

    /// All that is done about the reference that starts at `oop`.
    pub open spec fn actions<const COMPRESSED: bool>(
        self,
        oop: Address,
        flags: ScanFlags,
        options: ReferenceOptions,
    ) -> Seq<ScanAction<COMPRESSED>> {
        visits::<COMPRESSED>(self.instance_klass.slots(oop, COMPRESSED))
            + self.discovered_actions::<COMPRESSED>(oop, flags, options)
            + self.referent_actions::<COMPRESSED>(oop, flags, options)
    }

    /// Whether it is settled what becomes of the referent: a class that says nothing of its
    /// strength cannot be told to the collector.
    pub open spec fn strength_is_known(self, flags: ScanFlags, options: ReferenceOptions) -> bool {
        self.instance_klass.reference_type == ReferenceType::NoReference ==> {
            ||| flags.slot_rewrite_mode
            ||| !scans_weak_refs(flags, options)
        }
    }

    /// Visits the referent as if it were held strongly.
    pub fn process_ref_as_strong<const COMPRESSED: bool>(
        &self,
        actions: &mut Vec<ScanAction<COMPRESSED>>,
    )
        ensures
            final(actions)@ == old(actions)@.push(ScanAction::VisitSlot(self.referent())),
            final(actions)@.last() == ScanAction::<COMPRESSED>::VisitSlot(
                OpenJDKSlot { addr: self.referent_address },
            ),
    {
        actions.push(ScanAction::VisitSlot(OpenJDKSlot { addr: self.referent_address }));
    }

    /// Scans the reference that starts at `oop`.
    ///
    /// The `discovered` field links the references that wait for their handler. It is not used
    /// to collect references here, so it is held strongly.
    pub fn oop_iterate<const COMPRESSED: bool>(
        &self,
        oop: Address,
        flags: ScanFlags,
        options: ReferenceOptions,
        actions: &mut Vec<ScanAction<COMPRESSED>>,
    )
        requires
            self.instance_klass.fits(oop, COMPRESSED),
            self.strength_is_known(flags, options),
        ensures
            final(actions)@ == old(actions)@ + self.actions::<COMPRESSED>(oop, flags, options),
    {
        let reference = ObjectReference(oop);
        let reference_type = self.instance_klass.reference_type;
        self.instance_klass.oop_iterate::<COMPRESSED>(oop, actions);

        let discovered = OpenJDKSlot { addr: self.discovered_address };
        if flags.slot_rewrite_mode && options.trace_discovered {
            actions.push(
                ScanAction::ReportDiscovered(
                    ReferenceReport { reference, reference_type, slot: discovered },
                ),
            );
        }
        actions.push(ScanAction::VisitSlot(discovered));
        assert(actions@ =~= old(actions)@ + (visits::<COMPRESSED>(
            self.instance_klass.slots(oop, COMPRESSED),
        ) + self.discovered_actions::<COMPRESSED>(oop, flags, options)));
        let ghost before = actions@;

        let report = ReferenceReport {
            reference,
            reference_type,
            slot: OpenJDKSlot { addr: self.referent_address },
        };
        if flags.slot_rewrite_mode {
            let is_final = reference_type == ReferenceType::Final;
            if is_final || options.process_weak_referents {
                if options.process_weak_referents && !is_final && options.trace_referents {
                    actions.push(ScanAction::ReportRewritten(report));
                }
                self.process_ref_as_strong::<COMPRESSED>(actions);
            } else if options.trace_referents {
                actions.push(ScanAction::ReportPreserved(report));
            }
        } else if Self::should_scan_weak_refs(flags, options) {
            match reference_type {
                ReferenceType::NoReference => {},
                ReferenceType::Weak => actions.push(ScanAction::AddWeakCandidate(reference)),
                ReferenceType::Soft => actions.push(ScanAction::AddSoftCandidate(reference)),
                ReferenceType::Phantom => actions.push(ScanAction::AddPhantomCandidate(reference)),
                ReferenceType::Final => self.process_ref_as_strong::<COMPRESSED>(actions),
            }
        } else {
            self.process_ref_as_strong::<COMPRESSED>(actions);
        }
        assert(actions@ =~= before + self.referent_actions::<COMPRESSED>(oop, flags, options));
        assert(actions@ =~= old(actions)@ + self.actions::<COMPRESSED>(oop, flags, options));
    }
}

/// Whether all slots of the object lie at addresses that exist.
pub open spec fn object_fits(oop: Oop, compressed: bool) -> bool {
    match oop.klass {
        Klass::Instance(klass) => klass.fits(oop.start, compressed),
        Klass::InstanceRef(klass) => klass.instance_klass.fits(oop.start, compressed),
        Klass::InstanceMirror(klass) => klass.fits(oop.start, compressed),
        Klass::InstanceClassLoader(klass) => klass.instance_klass.fits(oop.start, compressed),
        Klass::ObjArray(klass) => run_fits(klass.base.at(), klass.length as nat, compressed),
        Klass::TypeArray(_) => true,
        Klass::InstanceStackChunk => true,
        Klass::Unknown => true,
    }
}

/// Whether the object can be scanned: its kind is known, its slots lie at addresses that exist,
/// and for a `java.lang.ref.Reference` it is settled what becomes of the referent.
pub open spec fn can_be_scanned(
    oop: Oop,
    flags: ScanFlags,
    options: ReferenceOptions,
    compressed: bool,
) -> bool {
    &&& oop.klass !is Unknown
    &&& object_fits(oop, compressed)
    &&& oop.klass matches Klass::InstanceRef(klass) ==> klass.strength_is_known(flags, options)
}

impl OopMapBlock {
    /// Whether the block lies at addresses that exist in the object that starts at `oop`.
    fn is_in_memory(&self, oop: Address, compressed: bool) -> (fits: bool)
        ensures
            fits == self.fits(oop, compressed),
    {
        match oop.checked_offset(self.offset) {
            Some(start) => is_run_in_memory(start, self.count as usize, compressed),
            None => false,
        }
    }
}

impl InstanceKlass {
    /// Whether the fields of an instance that starts at `oop` lie at addresses that exist.
    fn is_in_memory(&self, oop: Address, compressed: bool) -> (fits: bool)
        ensures
            fits == self.fits(oop, compressed),
    {
        let mut i: usize = 0;
        while i < self.nonstatic_oop_maps.len()
            invariant
                i <= self.nonstatic_oop_maps@.len(),
                forall|j: int|
                    0 <= j < i ==> (#[trigger] self.nonstatic_oop_maps@[j]).fits(oop, compressed),
            decreases self.nonstatic_oop_maps@.len() - i,
        {
            if !self.nonstatic_oop_maps[i].is_in_memory(oop, compressed) {
                return false;
            }
            i += 1;
        }
        true
    }
}

/// Whether the object can be scanned. A caller that is not sure of it asks before it scans.
pub fn is_scannable(
    oop: &Oop,
    flags: ScanFlags,
    options: ReferenceOptions,
    compressed: bool,
) -> (scannable: bool)
    ensures
        scannable == can_be_scanned(*oop, flags, options, compressed),
{
    match &oop.klass {
        Klass::Instance(klass) => klass.is_in_memory(oop.start, compressed),
        Klass::InstanceRef(klass) => {
            let is_strength_known = klass.instance_klass.reference_type
                != ReferenceType::NoReference || flags.slot_rewrite_mode
                || !InstanceRefKlass::should_scan_weak_refs(flags, options);
            is_strength_known && klass.instance_klass.is_in_memory(oop.start, compressed)
        },
        Klass::InstanceMirror(klass) => klass.instance_klass.is_in_memory(oop.start, compressed)
            && is_run_in_memory(klass.static_fields, klass.static_oop_field_count, compressed),
        Klass::InstanceClassLoader(klass) => klass.instance_klass.is_in_memory(
            oop.start,
            compressed,
        ),
        Klass::ObjArray(klass) => is_run_in_memory(klass.base, klass.length, compressed),
        Klass::TypeArray(_) => true,
        Klass::InstanceStackChunk => true,
        Klass::Unknown => false,
    }
}

/// What a scan of the object does.
pub open spec fn scan_actions<const COMPRESSED: bool>(
    oop: Oop,
    flags: ScanFlags,
    options: ReferenceOptions,
) -> Seq<ScanAction<COMPRESSED>> {
    match oop.klass {
        Klass::Instance(klass) => visits(klass.slots(oop.start, COMPRESSED)),
        Klass::InstanceRef(klass) => klass.actions(oop.start, flags, options),
        Klass::InstanceMirror(klass) => visits(klass.slots(oop.start, COMPRESSED)),
        Klass::InstanceClassLoader(klass) => visits(
            klass.instance_klass.slots(oop.start, COMPRESSED),
        ),
        Klass::ObjArray(klass) => visits(klass.slots(COMPRESSED)),
        Klass::TypeArray(_) => Seq::empty(),
        Klass::InstanceStackChunk => seq![ScanAction::ScanByVm(ObjectReference(oop.start))],
        Klass::Unknown => Seq::empty(),
    }
}

/// Scans an object without the help of the virtual machine.
pub fn oop_iterate<const COMPRESSED: bool>(
    oop: &Oop,
    flags: ScanFlags,
    options: ReferenceOptions,
) -> (actions: Vec<ScanAction<COMPRESSED>>)
    requires
        oop.klass !is InstanceStackChunk,
        can_be_scanned(*oop, flags, options, COMPRESSED),
    ensures
        actions@ == scan_actions::<COMPRESSED>(*oop, flags, options),
{
    let mut actions: Vec<ScanAction<COMPRESSED>> = Vec::new();
    match &oop.klass {
        Klass::Instance(klass) => klass.oop_iterate::<COMPRESSED>(oop.start, &mut actions),
        Klass::InstanceClassLoader(klass) => klass.oop_iterate::<COMPRESSED>(
            oop.start,
            &mut actions,
        ),
        Klass::InstanceMirror(klass) => klass.oop_iterate::<COMPRESSED>(oop.start, &mut actions),
        Klass::ObjArray(klass) => klass.oop_iterate::<COMPRESSED>(&mut actions),
        Klass::TypeArray(klass) => klass.oop_iterate::<COMPRESSED>(&mut actions),
        Klass::InstanceRef(klass) => klass.oop_iterate::<COMPRESSED>(
            oop.start,
            flags,
            options,
            &mut actions,
        ),
        Klass::InstanceStackChunk => {},
        Klass::Unknown => {},
    }
    assert(actions@ =~= scan_actions::<COMPRESSED>(*oop, flags, options));
    actions
}

/// Scans an object that the virtual machine has to walk over.
fn oop_iterate_slow<const COMPRESSED: bool>(oop: &Oop) -> (actions: Vec<ScanAction<COMPRESSED>>)
    ensures
        actions@ == seq![ScanAction::<COMPRESSED>::ScanByVm(ObjectReference(oop.start))],
{
    let mut actions: Vec<ScanAction<COMPRESSED>> = Vec::new();
    actions.push(ScanAction::ScanByVm(ObjectReference(oop.start)));
    actions
}

/// Scans an object. The frames of a stack chunk are known to the virtual machine alone.
pub fn scan_object<const COMPRESSED: bool>(
    object: &Oop,
    flags: ScanFlags,
    options: ReferenceOptions,
) -> (actions: Vec<ScanAction<COMPRESSED>>)
    requires
        can_be_scanned(*object, flags, options, COMPRESSED),
    ensures
        actions@ == scan_actions::<COMPRESSED>(*object, flags, options),
{
    if object.klass.kind() == KlassKind::InstanceStackChunk {
        oop_iterate_slow::<COMPRESSED>(object)
    } else {
        oop_iterate::<COMPRESSED>(object, flags, options)
    }
}

impl ScanFlags {
    /// The state in which slots are rewritten and no reference is told to the collector.
    pub open spec fn fixup() -> ScanFlags {
        ScanFlags { suppress_weak_ref_discovery: true, slot_rewrite_mode: true }
    }

    /// Goes over to rewriting slots, and gives the state before.
    pub fn enter_fixup(&mut self) -> (previous: ScanFlags)
        ensures
            previous == *old(self),
            *final(self) == ScanFlags::fixup(),
            final(self).suppress_weak_ref_discovery,
            final(self).slot_rewrite_mode,
    {
        let previous = *self;
        self.suppress_weak_ref_discovery = true;
        self.slot_rewrite_mode = true;
        previous
    }

    /// Goes back to the state before.
    pub fn leave_fixup(&mut self, previous: ScanFlags)
        ensures
            *final(self) == previous,
    {
        self.slot_rewrite_mode = previous.slot_rewrite_mode;
        self.suppress_weak_ref_discovery = previous.suppress_weak_ref_discovery;
    }
}

/// Scans an object in order to rewrite its slots. The state of the thread is afterwards what it
/// was before.
pub fn scan_object_for_fixup<const COMPRESSED: bool>(
    object: &Oop,
    flags: &mut ScanFlags,
    options: ReferenceOptions,
) -> (actions: Vec<ScanAction<COMPRESSED>>)
    requires
        can_be_scanned(*object, ScanFlags::fixup(), options, COMPRESSED),
    ensures
        actions@ == scan_actions::<COMPRESSED>(*object, ScanFlags::fixup(), options),
        *final(flags) == *old(flags),
{
    let previous = flags.enter_fixup();
    let actions = scan_object::<COMPRESSED>(object, *flags, options);
    flags.leave_fixup(previous);
    actions
}

/// The slot that lies `offset` bytes from the start of the object.
pub open spec fn slot_at<const COMPRESSED: bool>(
    object: ObjectReference,
    offset: usize,
) -> OpenJDKSlot<COMPRESSED> {
    OpenJDKSlot { addr: Address((object.0.at() + offset) as usize) }
}

/// How many bytes from the start of the object the slot lies.
pub fn slot_offset<const COMPRESSED: bool>(
    object: ObjectReference,
    slot: OpenJDKSlot<COMPRESSED>,
) -> (offset: usize)
    requires
        object.0.at() <= slot.addr.at(),
    ensures
        offset == slot.addr.at() - object.0.at(),
        object.0.0 + offset == slot.addr.0,
{
    slot.addr.minus(object.to_raw_address())
}

/// What `load` reads from the slot that lies `offset` bytes from the start of the object.
pub fn load_slot_at_offset<
    const COMPRESSED: bool,
    L: Fn(OpenJDKSlot<COMPRESSED>) -> Option<ObjectReference>,
>(object: ObjectReference, offset: usize, load: L) -> (loaded: Option<ObjectReference>)
    requires
        object.0.at() + offset <= usize::MAX,
        call_requires(load, (slot_at::<COMPRESSED>(object, offset),)),
    ensures
        call_ensures(load, (slot_at::<COMPRESSED>(object, offset),), loaded),
        call_ensures(
            load,
            (OpenJDKSlot::<COMPRESSED> { addr: Address((object.0.0 + offset) as usize) },),
            loaded,
        ),
{
    load(OpenJDKSlot { addr: object.to_raw_address().plus(offset) })
}

/// Which of the two fields that the oop maps leave out lies at `addr`, as a text.
pub open spec fn field_description(klass: InstanceRefKlass, addr: Address) -> Seq<char> {
    if addr == klass.referent_address {
        ", field=referent"@
    } else if addr == klass.discovered_address {
        ", field=discovered"@
    } else {
        Seq::empty()
    }
}

/// What is said of a slot of the object that lies at `addr`: the kind of the class and the offset
/// of the slot, and of a `java.lang.ref.Reference` its strength, and the field if it is one that
/// the oop maps leave out.
pub open spec fn slot_description(oop: Oop, addr: Address) -> Seq<char> {
    let place = "klass="@ + oop.klass.spec_kind().spec_name() + ", offset="@ + decimal(
        (addr.at() - oop.start.at()) as nat,
    );
    match oop.klass {
        Klass::InstanceRef(klass) => place + ", reference_type="@
            + klass.instance_klass.reference_type.spec_name() + field_description(klass, addr),
        _ => place,
    }
}

/// Describes a slot of the object.
pub fn describe_slot<const COMPRESSED: bool>(
    object: &Oop,
    slot: OpenJDKSlot<COMPRESSED>,
) -> (description: Option<String>)
    requires
        object.start.at() <= slot.addr.at(),
    ensures
        description matches Some(text) && text@ == slot_description(*object, slot.addr),
{
    let offset = slot_offset::<COMPRESSED>(ObjectReference(object.start), slot);
    let mut text = String::new();
    text.append("klass=");
    text.append(object.klass.kind().name());
    text.append(", offset=");
    push_decimal(&mut text, offset);
    if let Klass::InstanceRef(klass) = &object.klass {
        text.append(", reference_type=");
        text.append(klass.instance_klass.reference_type.name());
        if slot.addr == klass.referent_address {
            text.append(", field=referent");
        } else if slot.addr == klass.discovered_address {
            text.append(", field=discovered");
        }
    }
    assert(text@ =~= slot_description(*object, slot.addr));
    Some(text)
}

} // verus!
