//! The calls by which the virtual machine sets up the collector and tells it of copied arrays.

use crate::address::{Address, AddressRange};
use crate::option_text::{
    is_named, is_option, is_settled_by_name, rests_on_the_machine, stands_for,
};
use crate::options::{
    builder_options, parsed_option, set_from_text, set_gc_trigger, set_plan, set_threads,
    set_transparent_hugepages, GCTriggerSelector, OptionValue, PlanSelector,
};
use crate::slots::{log_bytes_in_slot, slot_bytes};
use vstd::prelude::*;

verus! {

/// A barrier that a plan wants around writes to the heap.
#[derive(Clone, Copy, Debug, PartialEq, Eq, Structural)]
pub enum BarrierSelector {
    NoBarrier,
    ObjectBarrier,
    SATBBarrier,
}

impl BarrierSelector {
    /// The name of the barrier.
    pub open spec fn spec_name(self) -> Seq<char> {
        match self {
            BarrierSelector::NoBarrier => "NoBarrier"@,
            BarrierSelector::ObjectBarrier => "ObjectBarrier"@,
            BarrierSelector::SATBBarrier => "SATBBarrier"@,
        }
    }
}

/// The name of the barrier that the active plan wants.
pub fn mmtk_active_barrier(barrier: BarrierSelector) -> (name: &'static str)
    ensures
        name@ == barrier.spec_name(),
{
    match barrier {
        BarrierSelector::NoBarrier => "NoBarrier",
        BarrierSelector::ObjectBarrier => "ObjectBarrier",
        BarrierSelector::SATBBarrier => "SATBBarrier",
    }
}

/// The name of the active plan.
pub fn mmtk_active_plan(plan: PlanSelector) -> (name: &'static str)
    ensures
        name@ == plan.spec_name(),
{
    match plan {
        PlanSelector::NoGC => "NoGC",
        PlanSelector::SemiSpace => "SemiSpace",
        PlanSelector::GenCopy => "GenCopy",
        PlanSelector::GenImmix => "GenImmix",
        PlanSelector::MarkSweep => "MarkSweep",
        PlanSelector::PageProtect => "PageProtect",
        PlanSelector::Immix => "Immix",
        PlanSelector::MarkCompact => "MarkCompact",
        PlanSelector::Compressor => "Compressor",
        PlanSelector::StickyImmix => "StickyImmix",
        PlanSelector::ConcurrentImmix => "ConcurrentImmix",
    }
}

/// The plans for which the program was built, if it was built for one.
#[derive(Clone, Copy, Debug, PartialEq, Eq, Structural)]
pub struct BuildFeatures {
    pub nogc: bool,
    pub semispace: bool,
    pub gencopy: bool,
    pub marksweep: bool,
    pub markcompact: bool,
    pub pageprotect: bool,
    pub immix: bool,
    pub genimmix: bool,
    pub stickyimmix: bool,
    pub compressor: bool,
}

impl BuildFeatures {
    /// The plans that a program can be built for, each with whether this one was, by precedence.
    pub open spec fn plans(self) -> Seq<(bool, PlanSelector)> {
        seq![
            (self.nogc, PlanSelector::NoGC),
            (self.semispace, PlanSelector::SemiSpace),
            (self.gencopy, PlanSelector::GenCopy),
            (self.marksweep, PlanSelector::MarkSweep),
            (self.markcompact, PlanSelector::MarkCompact),
            (self.pageprotect, PlanSelector::PageProtect),
            (self.immix, PlanSelector::Immix),
            (self.genimmix, PlanSelector::GenImmix),
            (self.stickyimmix, PlanSelector::StickyImmix),
            (self.compressor, PlanSelector::Compressor),
        ]
    }

    /// The first plan that this program was built for.
    pub open spec fn spec_forced_plan(self) -> Option<PlanSelector> {
        first_enabled(self.plans(), 0)
    }

    /// The first plan that this program was built for.
    pub fn forced_plan(self) -> (plan: Option<PlanSelector>)
        ensures
            plan == self.spec_forced_plan(),
    {
        proof {
            reveal_with_fuel(first_enabled, 11);
        }
        if self.nogc {
            Some(PlanSelector::NoGC)
        } else if self.semispace {
            Some(PlanSelector::SemiSpace)
        } else if self.gencopy {
            Some(PlanSelector::GenCopy)
        } else if self.marksweep {
            Some(PlanSelector::MarkSweep)
        } else if self.markcompact {
            Some(PlanSelector::MarkCompact)
        } else if self.pageprotect {
            Some(PlanSelector::PageProtect)
        } else if self.immix {
            Some(PlanSelector::Immix)
        } else if self.genimmix {
            Some(PlanSelector::GenImmix)
        } else if self.stickyimmix {
            Some(PlanSelector::StickyImmix)
        } else if self.compressor {
            Some(PlanSelector::Compressor)
        } else {
            None
        }
    }
}

/// The first plan of the list, from place `i` on, that is enabled.
pub open spec fn first_enabled(plans: Seq<(bool, PlanSelector)>, i: int) -> Option<PlanSelector>
    decreases plans.len() - i,
{
    if i < 0 || i >= plans.len() {
        None
    } else if plans[i].0 {
        Some(plans[i].1)
    } else {
        first_enabled(plans, i + 1)
    }
}

/// Sets up the options before an instance is made: a program that was built for a plan uses that
/// plan.
pub fn openjdk_gc_init(builder: &mut mmtk::MMTKBuilder, features: BuildFeatures)
    ensures
        builder_options(*final(builder)) == match features.spec_forced_plan() {
            Some(plan) => builder_options(*old(builder)).insert(
                "plan"@,
                OptionValue::Plan(plan),
            ),
            None => builder_options(*old(builder)),
        },
{
    if let Some(plan) = features.forced_plan() {
        set_plan(builder, plan);
    }
}

/// What triggers a collection of a heap that is at least `min` and at most `max` bytes large.
pub open spec fn heap_trigger(min: usize, max: usize) -> GCTriggerSelector {
    if min == max {
        GCTriggerSelector::FixedHeapSize(min)
    } else {
        GCTriggerSelector::DynamicHeapSize(min, max)
    }
}

/// Sets the size of the heap. It is refused where the bounds are not in order, or both zero.
pub fn mmtk_set_heap_size(builder: &mut mmtk::MMTKBuilder, min: usize, max: usize) -> (accepted:
    bool)
    ensures
        accepted == (min < max || 0 < min == max),
        builder_options(*final(builder)) == if accepted {
            builder_options(*old(builder)).insert(
                "gc_trigger"@,
                OptionValue::Trigger(heap_trigger(min, max)),
            )
        } else {
            builder_options(*old(builder))
        },
        min < max ==> builder_options(*final(builder)) == builder_options(*old(builder)).insert(
            "gc_trigger"@,
            OptionValue::Trigger(GCTriggerSelector::DynamicHeapSize(min, max)),
        ),
        min == max && min > 0 ==> builder_options(*final(builder)) == builder_options(
            *old(builder),
        ).insert("gc_trigger"@, OptionValue::Trigger(GCTriggerSelector::FixedHeapSize(min))),
{
    let policy = if min == max {
        GCTriggerSelector::FixedHeapSize(min)
    } else {
        GCTriggerSelector::DynamicHeapSize(min, max)
    };
    set_gc_trigger(builder, policy)
}

/// Sets the option `name` to what the text `value` stands for, unless MMTk refuses it.
///
/// The affinity of threads can be set only where MMTk can count the processors, which
/// `counts_processors` says: on every operating system but macOS.
pub fn process(
    builder: &mut mmtk::MMTKBuilder,
    name: &str,
    value: &str,
    counts_processors: bool,
) -> (accepted: bool)
    requires
        name@ == "thread_affinity"@ ==> counts_processors,
    ensures
        accepted ==> is_option(name@),
        builder_options(*final(builder)) == if accepted {
            builder_options(*old(builder)).insert(name@, builder_options(*final(builder))[name@])
        } else {
            builder_options(*old(builder))
        },
        accepted && !is_named(name@, value@) ==> stands_for(
            name@,
            value@,
            builder_options(*final(builder))[name@],
        ),
        forall|standing: OptionValue| #[trigger]
            stands_for(name@, value@, standing) && !rests_on_the_machine(name@, standing)
                ==> accepted && builder_options(*final(builder)) == builder_options(
                *old(builder),
            ).insert(name@, standing),
        accepted && is_named(name@, value@) ==> parsed_option(name@, value@) == Some(
            builder_options(*final(builder))[name@],
        ),
        is_settled_by_name(name@, value@) ==> accepted == parsed_option(name@, value@) is Some,
        name@ == "thread_affinity"@ && value@.len() == 0 ==> accepted,
        name@ == "transparent_hugepages"@ && value@ == "true"@ ==> accepted == (builder_options(
            *old(builder),
        )["transparent_hugepages?"@] == OptionValue::Flag(true)),
        name@ == "perf_exclude_kernel"@ && (value@ == "true"@ || value@ == "false"@) ==> accepted
            == (builder_options(*old(builder))["perf_exclude_kernel?"@] == OptionValue::Flag(true)),
        name@ == "work_perf_events"@ ==> accepted == (builder_options(
            *old(builder),
        )["work_perf_events?"@] == OptionValue::Flag(true) && parsed_option(name@, value@) is Some),
        name@ == "phase_perf_events"@ ==> accepted == (builder_options(
            *old(builder),
        )["phase_perf_events?"@] == OptionValue::Flag(true) && parsed_option(name@, value@) is Some),
{
    set_from_text(builder, name, value, counts_processors)
}

/// Sets the number of threads that collect, unless it is zero.
pub fn mmtk_builder_set_threads(builder: &mut mmtk::MMTKBuilder, value: usize)
    ensures
        builder_options(*final(builder)) == if value > 0 {
            builder_options(*old(builder)).insert("threads"@, OptionValue::Count(value))
        } else {
            builder_options(*old(builder))
        },
{
    set_threads(builder, value);
}

/// The options after the virtual machine has asked for transparent huge pages, or for none. Where
/// the builder does not let them be turned on, the options stay.
pub open spec fn with_huge_pages(
    options: Map<Seq<char>, OptionValue>,
    value: bool,
) -> Map<Seq<char>, OptionValue> {
    if value && options["transparent_hugepages?"@] != OptionValue::Flag(true) {
        options
    } else {
        options.insert("transparent_hugepages"@, OptionValue::Flag(value))
    }
}

/// Sets whether the spaces of MMTk lie in transparent huge pages. Where the operating system has
/// none, they stay off.
pub fn mmtk_builder_set_transparent_hugepages(builder: &mut mmtk::MMTKBuilder, value: bool)
    ensures
        ({
            let changed = builder_options(*old(builder)).insert(
                "transparent_hugepages"@,
                OptionValue::Flag(value),
            );
            ||| builder_options(*final(builder)) == changed
            ||| value && builder_options(*final(builder)) == builder_options(*old(builder))
        }),
        builder_options(*final(builder)) == with_huge_pages(builder_options(*old(builder)), value),
        value && builder_options(*old(builder))["transparent_hugepages?"@] == OptionValue::Flag(
            true,
        ) ==> builder_options(*final(builder))["transparent_hugepages"@] == OptionValue::Flag(true),
        !value ==> builder_options(*final(builder))["transparent_hugepages"@] == OptionValue::Flag(
            false,
        ),
{
    set_transparent_hugepages(builder, value);
}

/// Tells the virtual machine that the collector can run.
pub fn executable() -> (yes: bool)
    ensures
        yes,
{
    true
}

/// The memory that is read and the memory that is written where elements of an array are copied.
#[derive(Clone, Copy, Debug, PartialEq, Eq, Structural)]
pub struct CopiedRegions {
    pub src: AddressRange,
    pub dst: AddressRange,
}

/// How many bytes `count` slots take, as far as an address can tell.
pub open spec fn copied_bytes(count: usize, compressed: bool) -> int {
    (count * slot_bytes(compressed)) % (usize::MAX + 1)
}

/// Whether `region` starts at `start` and takes `count` slots.
pub open spec fn is_region_of(
    region: AddressRange,
    start: Address,
    count: usize,
    compressed: bool,
) -> bool {
    &&& region.start == start
    &&& region.end.at() == start.at() + copied_bytes(count, compressed)
}

/// The memory that `count` slots from `src` and from `dst` on take.
fn copied_regions(src: Address, dst: Address, count: usize, compressed: bool) -> (regions:
    CopiedRegions)
    requires
        src.at() + copied_bytes(count, compressed) <= usize::MAX,
        dst.at() + copied_bytes(count, compressed) <= usize::MAX,
    ensures
        is_region_of(regions.src, src, count, compressed),
        is_region_of(regions.dst, dst, count, compressed),
        regions.src.start == src,
        regions.dst.start == dst,
        regions.src.end.0 - src.0 == regions.dst.end.0 - dst.0,
        compressed ==> regions.src.end.0 == src.0 + (count * 4) % (usize::MAX + 1),
        !compressed ==> regions.src.end.0 == src.0 + (count * 8) % (usize::MAX + 1),
{
    proof {
        assert(usize::BITS == 64 ==> count << 2usize == (count * 4) % 0x1_0000_0000_0000_0000)
            by (bit_vector);
        assert(usize::BITS == 64 ==> count << 3usize == (count * 8) % 0x1_0000_0000_0000_0000)
            by (bit_vector);
        assert(usize::BITS == 32 ==> count << 2usize == (count * 4) % 0x1_0000_0000)
            by (bit_vector);
        assert(usize::BITS == 32 ==> count << 3usize == (count * 8) % 0x1_0000_0000)
            by (bit_vector);
    }
    let bytes = count << log_bytes_in_slot(compressed);
    CopiedRegions {
        src: AddressRange { start: src, end: src.plus(bytes) },
        dst: AddressRange { start: dst, end: dst.plus(bytes) },
    }
}

/// The memory of which the barrier is told before `count` elements of an array are copied.
pub fn mmtk_array_copy_pre(src: Address, dst: Address, count: usize, compressed: bool) -> (regions:
    CopiedRegions)
    requires
        src.at() + copied_bytes(count, compressed) <= usize::MAX,
        dst.at() + copied_bytes(count, compressed) <= usize::MAX,
    ensures
        is_region_of(regions.src, src, count, compressed),
        is_region_of(regions.dst, dst, count, compressed),
        regions.src.start == src,
        regions.dst.start == dst,
        regions.src.end.0 - src.0 == regions.dst.end.0 - dst.0,
        compressed ==> regions.src.end.0 == src.0 + (count * 4) % (usize::MAX + 1),
        !compressed ==> regions.src.end.0 == src.0 + (count * 8) % (usize::MAX + 1),
{
    copied_regions(src, dst, count, compressed)
}

/// The memory of which the barrier is told after `count` elements of an array were copied.
pub fn mmtk_array_copy_post(src: Address, dst: Address, count: usize, compressed: bool) -> (regions:
    CopiedRegions)
    requires
        src.at() + copied_bytes(count, compressed) <= usize::MAX,
        dst.at() + copied_bytes(count, compressed) <= usize::MAX,
    ensures
        is_region_of(regions.src, src, count, compressed),
        is_region_of(regions.dst, dst, count, compressed),
        regions.src.start == src,
        regions.dst.start == dst,
        regions.src.end.0 - src.0 == regions.dst.end.0 - dst.0,
        compressed ==> regions.src.end.0 == src.0 + (count * 4) % (usize::MAX + 1),
        !compressed ==> regions.src.end.0 == src.0 + (count * 8) % (usize::MAX + 1),
{
    copied_regions(src, dst, count, compressed)
}

/// Two plans do not share a name.
pub proof fn law_plan_names_are_distinct(plan: PlanSelector, other: PlanSelector)
    ensures
        plan.spec_name() == other.spec_name() ==> plan == other,
{
    lemma_plan_name_literals();
    let name = plan.spec_name();
    let other_name = other.spec_name();
    if name == other_name {
        assert(name.len() == other_name.len());
        assert(name[0] == other_name[0]);
    }
}

/// Two barriers do not share a name.
pub proof fn law_barrier_names_are_distinct(barrier: BarrierSelector, other: BarrierSelector)
    ensures
        barrier.spec_name() == other.spec_name() ==> barrier == other,
{
    reveal_strlit("NoBarrier");
    reveal_strlit("ObjectBarrier");
    reveal_strlit("SATBBarrier");
    if barrier.spec_name() == other.spec_name() {
        assert(barrier.spec_name().len() == other.spec_name().len());
    }
}

/// Shows the characters of the names of the plans.
proof fn lemma_plan_name_literals()
    ensures
        "NoGC"@ == seq!['N', 'o', 'G', 'C'],
        "SemiSpace"@ == seq!['S', 'e', 'm', 'i', 'S', 'p', 'a', 'c', 'e'],
        "GenCopy"@ == seq!['G', 'e', 'n', 'C', 'o', 'p', 'y'],
        "GenImmix"@ == seq!['G', 'e', 'n', 'I', 'm', 'm', 'i', 'x'],
        "MarkSweep"@ == seq!['M', 'a', 'r', 'k', 'S', 'w', 'e', 'e', 'p'],
        "PageProtect"@ == seq!['P', 'a', 'g', 'e', 'P', 'r', 'o', 't', 'e', 'c', 't'],
        "Immix"@ == seq!['I', 'm', 'm', 'i', 'x'],
        "MarkCompact"@ == seq!['M', 'a', 'r', 'k', 'C', 'o', 'm', 'p', 'a', 'c', 't'],
        "Compressor"@ == seq!['C', 'o', 'm', 'p', 'r', 'e', 's', 's', 'o', 'r'],
        "StickyImmix"@ == seq!['S', 't', 'i', 'c', 'k', 'y', 'I', 'm', 'm', 'i', 'x'],
        "ConcurrentImmix"@ == seq![
            'C', 'o', 'n', 'c', 'u', 'r', 'r', 'e', 'n', 't', 'I', 'm', 'm', 'i', 'x',
        ],
{
    reveal_strlit("NoGC");
    reveal_strlit("SemiSpace");
    reveal_strlit("GenCopy");
    reveal_strlit("GenImmix");
    reveal_strlit("MarkSweep");
    reveal_strlit("PageProtect");
    reveal_strlit("Immix");
    reveal_strlit("MarkCompact");
    reveal_strlit("Compressor");
    reveal_strlit("StickyImmix");
    reveal_strlit("ConcurrentImmix");
}

/// No name of a plan or a barrier holds a character zero, which would end it early where it is
/// handed to native code.
pub proof fn law_names_hold_no_zero(plan: PlanSelector, barrier: BarrierSelector, i: int)
    ensures
        0 <= i < plan.spec_name().len() ==> plan.spec_name()[i] != '\0',
        0 <= i < barrier.spec_name().len() ==> barrier.spec_name()[i] != '\0',
{
    lemma_plan_name_literals();
    reveal_strlit("NoBarrier");
    reveal_strlit("ObjectBarrier");
    reveal_strlit("SATBBarrier");
}

/// The plan at place `i` of the list comes up where it is enabled and no plan before it is.
proof fn lemma_first_enabled(plans: Seq<(bool, PlanSelector)>, from: int, i: int)
    requires
        0 <= from <= i < plans.len(),
        plans[i].0,
        forall|j: int| from <= j < i ==> !(#[trigger] plans[j]).0,
    ensures
        first_enabled(plans, from) == Some(plans[i].1),
    decreases i - from,
{
    if from < i {
        assert(!plans[from].0);
        lemma_first_enabled(plans, from + 1, i);
    }
}

/// No plan comes up where none is enabled.
proof fn lemma_none_enabled(plans: Seq<(bool, PlanSelector)>, from: int)
    requires
        0 <= from <= plans.len(),
        forall|j: int| from <= j < plans.len() ==> !(#[trigger] plans[j]).0,
    ensures
        first_enabled(plans, from) is None,
    decreases plans.len() - from,
{
    if from < plans.len() {
        lemma_none_enabled(plans, from + 1);
    }
}

/// The plan that a program uses is one for which it was built, and it was built for none that takes
/// precedence: no collection, then semi-space, generational copying, mark-sweep, mark-compact, page
/// protection, Immix, generational Immix, sticky Immix, and the compressing plan. It leaves the
/// choice open only if it was built for none.
pub proof fn law_forced_plan_is_the_first_enabled(features: BuildFeatures)
    ensures
        match features.spec_forced_plan() {
            Some(PlanSelector::NoGC) => features.nogc,
            Some(PlanSelector::SemiSpace) => features.semispace && !features.nogc,
            Some(PlanSelector::GenCopy) => features.gencopy && !(features.nogc
                || features.semispace),
            Some(PlanSelector::MarkSweep) => features.marksweep && !(features.nogc
                || features.semispace || features.gencopy),
            Some(PlanSelector::MarkCompact) => features.markcompact && !(features.nogc
                || features.semispace || features.gencopy || features.marksweep),
            Some(PlanSelector::PageProtect) => features.pageprotect && !(features.nogc
                || features.semispace || features.gencopy || features.marksweep
                || features.markcompact),
            Some(PlanSelector::Immix) => features.immix && !(features.nogc || features.semispace
                || features.gencopy || features.marksweep || features.markcompact
                || features.pageprotect),
            Some(PlanSelector::GenImmix) => features.genimmix && !(features.nogc
                || features.semispace || features.gencopy || features.marksweep
                || features.markcompact || features.pageprotect || features.immix),
            Some(PlanSelector::StickyImmix) => features.stickyimmix && !(features.nogc
                || features.semispace || features.gencopy || features.marksweep
                || features.markcompact || features.pageprotect || features.immix
                || features.genimmix),
            Some(PlanSelector::Compressor) => features.compressor && !(features.nogc
                || features.semispace || features.gencopy || features.marksweep
                || features.markcompact || features.pageprotect || features.immix
                || features.genimmix || features.stickyimmix),
            Some(PlanSelector::ConcurrentImmix) => false,
            None => !(features.nogc || features.semispace || features.gencopy || features.marksweep
                || features.markcompact || features.pageprotect || features.immix
                || features.genimmix || features.stickyimmix || features.compressor),
        },
{
    reveal_with_fuel(first_enabled, 11);
}

/// A heap is of fixed size if and only if its bounds are equal, and is then that large; otherwise
/// it varies between just these bounds.
pub proof fn law_heap_varies_between_its_bounds(min: usize, max: usize)
    ensures
        heap_trigger(min, max) is FixedHeapSize <==> min == max,
        heap_trigger(min, max) matches GCTriggerSelector::FixedHeapSize(size) ==> size == min
            && size == max,
        min != max ==> heap_trigger(min, max) == GCTriggerSelector::DynamicHeapSize(min, max),
{
}

/// Where the builder lets transparent huge pages be turned on, they are on after they were asked
/// for. They are off after they were not. No other option changes, and nothing does where they
/// cannot be turned on.
pub proof fn law_huge_pages_are_as_asked_for(
    options: Map<Seq<char>, OptionValue>,
    value: bool,
    other: Seq<char>,
)
    ensures
        ({
            let after = with_huge_pages(options, value);
            let can_be_on = options["transparent_hugepages?"@] == OptionValue::Flag(true);
            &&& can_be_on ==> after["transparent_hugepages"@] == OptionValue::Flag(value)
            &&& !value ==> after["transparent_hugepages"@] == OptionValue::Flag(false)
            &&& value && !can_be_on ==> after == options
            &&& other != "transparent_hugepages"@ ==> after[other] == options[other]
        }),
{
}

/// The regions of a copy start where the copy starts, and hold each of its slots from its first to
/// its last byte, and nothing behind the last slot.
pub proof fn law_region_covers_the_copied_slots(
    region: AddressRange,
    start: Address,
    count: usize,
    compressed: bool,
    i: int,
)
    requires
        is_region_of(region, start, count, compressed),
        0 <= i < count,
        compressed ==> count * 4 <= usize::MAX,
        !compressed ==> count * 8 <= usize::MAX,
    ensures
        region.start == start,
        compressed ==> {
            &&& region.start.0 <= start.0 + i * 4
            &&& start.0 + i * 4 + 4 <= region.end.0
            &&& i == count - 1 ==> start.0 + i * 4 + 4 == region.end.0
        },
        !compressed ==> {
            &&& region.start.0 <= start.0 + i * 8
            &&& start.0 + i * 8 + 8 <= region.end.0
            &&& i == count - 1 ==> start.0 + i * 8 + 8 == region.end.0
        },
{
    law_region_holds_its_slots(region, start, count, compressed);
}

/// A region starts where the copy starts, and ends as many bytes above as its slots take, as far
/// as an address can tell.
pub proof fn law_region_goes_from_its_start(
    region: AddressRange,
    start: Address,
    count: usize,
    compressed: bool,
)
    ensures
        is_region_of(region, start, count, compressed) <==> {
            &&& region.start == start
            &&& compressed ==> region.end.0 == start.0 + (count * 4) % (usize::MAX + 1)
            &&& !compressed ==> region.end.0 == start.0 + (count * 8) % (usize::MAX + 1)
        },
        copied_bytes(count, true) == (count * 4) % (usize::MAX + 1),
        copied_bytes(count, false) == (count * 8) % (usize::MAX + 1),
{
}

/// A program that was built for several plans uses the one that takes precedence, and one that
/// was built for none leaves the choice open.
pub proof fn law_forced_plan_takes_precedence(features: BuildFeatures, i: int)
    requires
        0 <= i < features.plans().len(),
    ensures
        features.plans()[i].0 && (forall|j: int|
            0 <= j < i ==> !(#[trigger] features.plans()[j]).0) ==> features.spec_forced_plan()
            == Some(features.plans()[i].1),
        (forall|j: int| 0 <= j < features.plans().len() ==> !(#[trigger] features.plans()[j]).0)
            ==> features.spec_forced_plan() is None,
{
    let plans = features.plans();
    if plans[i].0 && (forall|j: int| 0 <= j < i ==> !(#[trigger] plans[j]).0) {
        lemma_first_enabled(plans, 0, i);
    }
    if forall|j: int| 0 <= j < plans.len() ==> !(#[trigger] plans[j]).0 {
        lemma_none_enabled(plans, 0);
    }
}

/// The barriers before and after a copy are told of the same memory.
pub proof fn law_both_barriers_see_the_same_memory(
    before: CopiedRegions,
    after: CopiedRegions,
    src: Address,
    dst: Address,
    count: usize,
    compressed: bool,
)
    requires
        is_region_of(before.src, src, count, compressed),
        is_region_of(before.dst, dst, count, compressed),
        is_region_of(after.src, src, count, compressed),
        is_region_of(after.dst, dst, count, compressed),
    ensures
        before == after,
{
}

/// A region is as long as its slots are together, as long as that is a number of bytes.
pub proof fn law_region_holds_its_slots(
    region: AddressRange,
    start: Address,
    count: usize,
    compressed: bool,
)
    requires
        is_region_of(region, start, count, compressed),
        count * slot_bytes(compressed) <= usize::MAX,
    ensures
        region.end.at() - region.start.at() == count * slot_bytes(compressed),
{
    vstd::arithmetic::div_mod::lemma_small_mod(
        (count * slot_bytes(compressed)) as nat,
        (usize::MAX + 1) as nat,
    );
}

} // verus!
