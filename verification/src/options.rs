//! The options of MMTk, as a builder holds them before an instance is made.
//!
//! The builder is MMTk's own. What is known of it here is the value of each option.

use crate::option_text::{
    is_named, is_option, is_settled_by_name, rests_on_the_machine, stands_for,
};
use vstd::prelude::*;

verus! {

/// A plan by which MMTk collects.
#[derive(Clone, Copy, Debug, PartialEq, Eq, Structural)]
pub enum PlanSelector {
    NoGC,
    SemiSpace,
    GenCopy,
    GenImmix,
    MarkSweep,
    PageProtect,
    Immix,
    MarkCompact,
    Compressor,
    StickyImmix,
    ConcurrentImmix,
}

impl PlanSelector {
    /// The name of the plan.
    pub open spec fn spec_name(self) -> Seq<char> {
        match self {
            PlanSelector::NoGC => "NoGC"@,
            PlanSelector::SemiSpace => "SemiSpace"@,
            PlanSelector::GenCopy => "GenCopy"@,
            PlanSelector::GenImmix => "GenImmix"@,
            PlanSelector::MarkSweep => "MarkSweep"@,
            PlanSelector::PageProtect => "PageProtect"@,
            PlanSelector::Immix => "Immix"@,
            PlanSelector::MarkCompact => "MarkCompact"@,
            PlanSelector::Compressor => "Compressor"@,
            PlanSelector::StickyImmix => "StickyImmix"@,
            PlanSelector::ConcurrentImmix => "ConcurrentImmix"@,
        }
    }
}

/// What triggers a collection.
#[derive(Clone, Copy, Debug, PartialEq, Eq, Structural)]
pub enum GCTriggerSelector {
    /// A heap of fixed size is full.
    FixedHeapSize(usize),
    /// MMTk decides, and the size of the heap varies between two bounds.
    DynamicHeapSize(usize, usize),
    /// Something outside MMTk decides.
    Delegated,
}

impl GCTriggerSelector {
    /// Whether MMTk takes the trigger: a heap of fixed size is not empty, and bounds are in order.
    pub open spec fn is_valid(self) -> bool {
        match self {
            GCTriggerSelector::FixedHeapSize(size) => size > 0,
            GCTriggerSelector::DynamicHeapSize(min, max) => min <= max,
            GCTriggerSelector::Delegated => true,
        }
    }
}

/// A heap of fixed size may not be empty, bounds may not be the wrong way round, and nothing else is
/// refused.
pub proof fn law_only_wrong_sizes_are_refused(trigger: GCTriggerSelector)
    ensures
        !trigger.is_valid() <==> {
            ||| trigger == GCTriggerSelector::FixedHeapSize(0)
            ||| trigger matches GCTriggerSelector::DynamicHeapSize(min, max) && max < min
        },
{
}

/// How memory is cleared for new objects.
#[derive(Clone, Copy, Debug, PartialEq, Eq, Structural)]
pub enum NurseryZeroing {
    Temporal,
    Nontemporal,
    Concurrent,
    Adaptive,
}

impl NurseryZeroing {
    /// The name of the way.
    pub open spec fn spec_name(self) -> Seq<char> {
        match self {
            NurseryZeroing::Temporal => "Temporal"@,
            NurseryZeroing::Nontemporal => "Nontemporal"@,
            NurseryZeroing::Concurrent => "Concurrent"@,
            NurseryZeroing::Adaptive => "Adaptive"@,
        }
    }
}

/// The size of the nursery, where it is a number of bytes.
#[derive(Clone, Copy, Debug, PartialEq, Eq, Structural)]
pub enum NurserySize {
    /// The size lies between two bounds.
    Bounded(usize, usize),
    /// The size is fixed.
    Fixed(usize),
}

impl NurserySize {
    /// Whether MMTk takes the size: bounds are in order.
    pub open spec fn is_valid(self) -> bool {
        match self {
            NurserySize::Bounded(min, max) => min <= max,
            NurserySize::Fixed(_) => true,
        }
    }
}

/// The value of an option.
pub enum OptionValue {
    Plan(PlanSelector),
    Trigger(GCTriggerSelector),
    Count(usize),
    Flag(bool),
    Location(usize),
    Zeroing(NurseryZeroing),
    Nursery(NurserySize),
    /// A value of any other type, as a text.
    Other(Seq<char>),
}

/// MMTk's builder, `mmtk::MMTKBuilder`.
#[verifier::external_type_specification]
#[verifier::external_body]
pub struct ExMMTKBuilder(mmtk::MMTKBuilder);

/// What a builder holds: under the name of each option its value, and under that name with a
/// question mark behind it whether the builder lets the option be set, where that is not the same
/// for all builders. A builder holds a test for each option. The test for `transparent_hugepages`
/// lets it be turned on, and those for the options that measure events let them be set, or not, by
/// how MMTk was built and for which operating system.
pub uninterp spec fn builder_options(builder: mmtk::MMTKBuilder) -> Map<Seq<char>, OptionValue>;

/// The value for which the text `value` stands where it is given for the option `name`, as
/// `mmtk::memory_manager::process` reads it, or `None` where it stands for none.
pub uninterp spec fn parsed_option(name: Seq<char>, value: Seq<char>) -> Option<OptionValue>;

/// Sets the plan.
///
/// Calls `MMTKOption::set` of `mmtk` on the option `plan`, of which it claims that it takes every
/// plan, and changes no other option.
#[verifier::external_body]
pub(crate) fn set_plan(builder: &mut mmtk::MMTKBuilder, plan: PlanSelector) -> (accepted: bool)
    ensures
        accepted,
        builder_options(*final(builder)) == builder_options(*old(builder)).insert(
            "plan"@,
            OptionValue::Plan(plan),
        ),
{
    builder.options.plan.set(match plan {
        PlanSelector::NoGC => mmtk::util::options::PlanSelector::NoGC,
        PlanSelector::SemiSpace => mmtk::util::options::PlanSelector::SemiSpace,
        PlanSelector::GenCopy => mmtk::util::options::PlanSelector::GenCopy,
        PlanSelector::GenImmix => mmtk::util::options::PlanSelector::GenImmix,
        PlanSelector::MarkSweep => mmtk::util::options::PlanSelector::MarkSweep,
        PlanSelector::PageProtect => mmtk::util::options::PlanSelector::PageProtect,
        PlanSelector::Immix => mmtk::util::options::PlanSelector::Immix,
        PlanSelector::MarkCompact => mmtk::util::options::PlanSelector::MarkCompact,
        PlanSelector::Compressor => mmtk::util::options::PlanSelector::Compressor,
        PlanSelector::StickyImmix => mmtk::util::options::PlanSelector::StickyImmix,
        PlanSelector::ConcurrentImmix => mmtk::util::options::PlanSelector::ConcurrentImmix,
    })
}

/// Sets what triggers a collection.
///
/// Calls `MMTKOption::set` of `mmtk` on the option `gc_trigger`, of which it claims that it takes
/// the valid triggers and no others, and changes no other option.
#[verifier::external_body]
pub(crate) fn set_gc_trigger(
    builder: &mut mmtk::MMTKBuilder,
    trigger: GCTriggerSelector,
) -> (accepted: bool)
    ensures
        accepted == trigger.is_valid(),
        builder_options(*final(builder)) == if trigger.is_valid() {
            builder_options(*old(builder)).insert("gc_trigger"@, OptionValue::Trigger(trigger))
        } else {
            builder_options(*old(builder))
        },
{
    builder.options.gc_trigger.set(match trigger {
        GCTriggerSelector::FixedHeapSize(size) => {
            mmtk::util::options::GCTriggerSelector::FixedHeapSize(size)
        },
        GCTriggerSelector::DynamicHeapSize(min, max) => {
            mmtk::util::options::GCTriggerSelector::DynamicHeapSize(min, max)
        },
        GCTriggerSelector::Delegated => mmtk::util::options::GCTriggerSelector::Delegated,
    })
}

/// Sets the number of threads that collect.
///
/// Calls `MMTKOption::set` of `mmtk` on the option `threads`, of which it claims that it takes
/// every number but zero, and changes no other option.
#[verifier::external_body]
pub(crate) fn set_threads(builder: &mut mmtk::MMTKBuilder, threads: usize) -> (accepted: bool)
    ensures
        accepted == (threads > 0),
        builder_options(*final(builder)) == if threads > 0 {
            builder_options(*old(builder)).insert("threads"@, OptionValue::Count(threads))
        } else {
            builder_options(*old(builder))
        },
{
    builder.options.threads.set(threads)
}

/// Sets whether the spaces of MMTk lie in transparent huge pages.
///
/// Calls `MMTKOption::set` of `mmtk` on the option `transparent_hugepages`, of which it claims
/// that it takes `false`, that it takes `true` if the builder lets the option be turned on, that it
/// sets what it takes, and that it changes nothing else.
#[verifier::external_body]
pub(crate) fn set_transparent_hugepages(
    builder: &mut mmtk::MMTKBuilder,
    enabled: bool,
) -> (accepted: bool)
    ensures
        !enabled ==> accepted,
        accepted == (!enabled || builder_options(*old(builder))["transparent_hugepages?"@]
            == OptionValue::Flag(true)),
        builder_options(*final(builder)) == if accepted {
            builder_options(*old(builder)).insert(
                "transparent_hugepages"@,
                OptionValue::Flag(enabled),
            )
        } else {
            builder_options(*old(builder))
        },
{
    builder.options.transparent_hugepages.set(enabled)
}

/// Sets the option `name` to what the text `value` stands for.
///
/// Calls `mmtk::memory_manager::process`, of which it claims: it takes no text for what is no
/// option; it sets the option for which it takes a text, and changes nothing else. Where
/// `stands_for` says what the text stands for, it takes the text if and only if it stands for a
/// value that the option can have, and sets that value. Where it does not, the value is the one
/// that `parsed_option` names; the text is taken if and only if there is one, for a size of the
/// nursery in proportion to the heap and for all threads on one set of processors. The empty text
/// is taken for the affinity of threads. A text is taken for an option that measures events, and
/// `true` for `transparent_hugepages`, if it stands for a value and the builder lets the option be
/// set.
///
/// It is left open whether processors that `thread_affinity` deals out to threads are taken: MMTk
/// asks how many there are.
///
/// For `thread_affinity` MMTk asks the operating system for the number of processors. It panics
/// where it cannot, which is on macOS: `counts_processors` says that it can.
#[verifier::external_body]
pub(crate) fn set_from_text(
    builder: &mut mmtk::MMTKBuilder,
    name: &str,
    value: &str,
    counts_processors: bool,
) -> (accepted: bool)
    requires
        name@ == "thread_affinity"@ ==> counts_processors,
    ensures
        accepted ==> is_option(name@),
        builder_options(*final(builder)) == if accepted {
            builder_options(*old(builder)).insert(name@, builder_options(*final(builder))[name@])
        } else {
            builder_options(*old(builder))
        },
        accepted && !is_named(name@, value@) ==> stands_for(
            name@,
            value@,
            builder_options(*final(builder))[name@],
        ),
        forall|standing: OptionValue| #[trigger]
            stands_for(name@, value@, standing) && !rests_on_the_machine(name@, standing)
                ==> accepted && builder_options(*final(builder)) == builder_options(
                *old(builder),
            ).insert(name@, standing),
        accepted && is_named(name@, value@) ==> parsed_option(name@, value@) == Some(
            builder_options(*final(builder))[name@],
        ),
        is_settled_by_name(name@, value@) ==> accepted == parsed_option(name@, value@) is Some,
        name@ == "thread_affinity"@ && value@.len() == 0 ==> accepted,
        name@ == "transparent_hugepages"@ && value@ == "true"@ ==> accepted == (builder_options(
            *old(builder),
        )["transparent_hugepages?"@] == OptionValue::Flag(true)),
        name@ == "perf_exclude_kernel"@ && (value@ == "true"@ || value@ == "false"@) ==> accepted
            == (builder_options(*old(builder))["perf_exclude_kernel?"@] == OptionValue::Flag(true)),
        name@ == "work_perf_events"@ ==> accepted == (builder_options(
            *old(builder),
        )["work_perf_events?"@] == OptionValue::Flag(true) && parsed_option(name@, value@) is Some),
        name@ == "phase_perf_events"@ ==> accepted == (builder_options(
            *old(builder),
        )["phase_perf_events?"@] == OptionValue::Flag(true) && parsed_option(name@, value@) is Some),
{
    mmtk::memory_manager::process(builder, name, value)
}

} // verus!
