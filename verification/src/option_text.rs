//! The texts by which the options of MMTk are set, and what they stand for.

use crate::api::law_plan_names_are_distinct;
use crate::options::{GCTriggerSelector, NurserySize, NurseryZeroing, OptionValue, PlanSelector};
use crate::text::{
    decimal, is_digits, law_number_is_read_back, size_value, unit, usize_value,
};
use vstd::prelude::*;

verus! {

/// The kinds of option, by what their texts look like.
pub enum OptionKind {
    /// The name of a plan.
    Plan,
    /// `true` or `false`.
    Flag,
    /// A number between two bounds.
    Count(usize, usize),
    /// An address.
    Location,
    /// The name of a way to clear memory.
    Zeroing,
    /// What triggers a collection.
    Trigger,
    /// The size of the nursery.
    Nursery,
    /// The processors on which threads run.
    Affinity,
    /// A list of events to measure.
    Events,
}

/// The kind of the option `name`, if MMTk has such an option.
pub open spec fn option_kind(name: Seq<char>) -> Option<OptionKind> {
    if name == "plan"@ {
        Some(OptionKind::Plan)
    } else if name == "gc_trigger"@ {
        Some(OptionKind::Trigger)
    } else if name == "nursery"@ {
        Some(OptionKind::Nursery)
    } else if name == "nursery_zeroing"@ {
        Some(OptionKind::Zeroing)
    } else if name == "vm_space_start"@ || name == "side_metadata_base_address"@ {
        Some(OptionKind::Location)
    } else if name == "thread_affinity"@ {
        Some(OptionKind::Affinity)
    } else if name == "work_perf_events"@ || name == "phase_perf_events"@ {
        Some(OptionKind::Events)
    } else if name == "threads"@ || name == "concurrent_threads"@ || name == "vm_space_size"@ {
        Some(OptionKind::Count(1, usize::MAX))
    } else if name == "stress_factor"@ || name == "analysis_factor"@ {
        Some(OptionKind::Count(0, usize::MAX))
    } else if name == "immix_defrag_headroom_percent"@ {
        Some(OptionKind::Count(0, 50))
    } else if is_flag_option(name) {
        Some(OptionKind::Flag)
    } else {
        None
    }
}

/// Whether `name` is an option that is on or off.
pub open spec fn is_flag_option(name: Seq<char>) -> bool {
    ||| name == "use_short_stack_scans"@
    ||| name == "use_return_barrier"@
    ||| name == "eager_complete_sweep"@
    ||| name == "ignore_system_gc"@
    ||| name == "full_heap_system_gc"@
    ||| name == "no_finalizer"@
    ||| name == "no_reference_types"@
    ||| name == "precise_stress"@
    ||| name == "perf_exclude_kernel"@
    ||| name == "transparent_hugepages"@
    ||| name == "count_live_bytes_in_gc"@
    ||| name == "immix_always_defrag"@
    ||| name == "immix_defrag_every_block"@
    ||| name == "concurrent_immix_disable_concurrent_marking"@
}

/// Whether `name` is an option of MMTk.
pub open spec fn is_option(name: Seq<char>) -> bool {
    option_kind(name) is Some
}

/// The text for a flag.
pub open spec fn flag_text(flag: bool) -> Seq<char> {
    if flag {
        "true"@
    } else {
        "false"@
    }
}

/// Whether `text` says that `trigger` triggers a collection. Whatever follows the word that leaves
/// it to something outside MMTk is ignored.
pub open spec fn is_trigger_text(text: Seq<char>, trigger: GCTriggerSelector) -> bool {
    match trigger {
        GCTriggerSelector::FixedHeapSize(size) => exists|digits: Seq<char>|
            text == "FixedHeapSize:"@ + digits && #[trigger] size_value(digits) == Some(size),
        GCTriggerSelector::DynamicHeapSize(min, max) => exists|least: Seq<char>, most: Seq<char>|
            text == "DynamicHeapSize:"@ + (least + seq![','] + most) && #[trigger] size_value(least)
                == Some(min) && #[trigger] size_value(most) == Some(max),
        GCTriggerSelector::Delegated => "Delegated"@.is_prefix_of(text),
    }
}

/// The least size of the nursery where its text leaves it open.
pub open spec fn default_min_nursery() -> usize {
    0x20_0000
}

/// The greatest size of the nursery where its text leaves it open.
pub open spec fn default_max_nursery() -> usize {
    if usize::BITS == 64 {
        0x100_0000_0000int as usize
    } else {
        0x200_0000
    }
}

/// The bound of the size of the nursery for which `text` stands: a number, or `_` for the default.
pub open spec fn nursery_bound(text: Seq<char>, default: usize) -> Option<usize> {
    if text == seq!['_'] {
        Some(default)
    } else {
        usize_value(text)
    }
}

/// Whether `text` says that the nursery has the size `size`.
pub open spec fn is_nursery_text(text: Seq<char>, size: NurserySize) -> bool {
    match size {
        NurserySize::Fixed(bytes) => exists|digits: Seq<char>|
            text == "Fixed:"@ + digits && #[trigger] usize_value(digits) == Some(bytes),
        NurserySize::Bounded(min, max) => exists|least: Seq<char>, most: Seq<char>|
            text == "Bounded:"@ + (least + seq![','] + most) && #[trigger] nursery_bound(
                least,
                default_min_nursery(),
            ) == Some(min) && #[trigger] nursery_bound(most, default_max_nursery()) == Some(max),
    }
}

/// Whether `text`, given for the option `name`, stands for `value`, and the option can have that
/// value. It is said of the options whose values can be written down in a line or two.
pub open spec fn stands_for(name: Seq<char>, text: Seq<char>, value: OptionValue) -> bool {
    match (option_kind(name), value) {
        (Some(OptionKind::Plan), OptionValue::Plan(plan)) => text == plan.spec_name(),
        (Some(OptionKind::Flag), OptionValue::Flag(flag)) => text == flag_text(flag),
        (Some(OptionKind::Count(least, greatest)), OptionValue::Count(count)) => usize_value(text)
            == Some(count) && least <= count <= greatest,
        (Some(OptionKind::Location), OptionValue::Location(address)) => usize_value(text) == Some(
            address,
        ),
        (Some(OptionKind::Zeroing), OptionValue::Zeroing(zeroing)) => text == zeroing.spec_name(),
        (Some(OptionKind::Trigger), OptionValue::Trigger(trigger)) => is_trigger_text(text, trigger)
            && trigger.is_valid(),
        (Some(OptionKind::Nursery), OptionValue::Nursery(size)) => is_nursery_text(text, size)
            && size.is_valid(),
        _ => false,
    }
}

/// Whether it rests on the operating system, or on how MMTk was built, if the option `name` can be
/// set to `value`.
pub open spec fn rests_on_the_machine(name: Seq<char>, value: OptionValue) -> bool {
    &&& value matches OptionValue::Flag(flag)
    &&& name == "perf_exclude_kernel"@ || (name == "transparent_hugepages"@ && flag)
}

/// Whether `text` sets the size of the nursery in proportion to the heap.
pub open spec fn is_proportional_nursery(name: Seq<char>, text: Seq<char>) -> bool {
    option_kind(name) == Some(OptionKind::Nursery) && "ProportionalBounded:"@.is_prefix_of(text)
}

/// Whether what `text` stands for, given for the option `name`, is named and not written down:
/// processors, events, and fractions.
pub open spec fn is_named(name: Seq<char>, text: Seq<char>) -> bool {
    ||| option_kind(name) == Some(OptionKind::Affinity)
    ||| option_kind(name) == Some(OptionKind::Events)
    ||| is_proportional_nursery(name, text)
}

/// Whether the text is taken wherever it stands for a value that is named and not written down:
/// fractions, and one set of processors for all threads.
pub open spec fn is_settled_by_name(name: Seq<char>, text: Seq<char>) -> bool {
    ||| is_proportional_nursery(name, text)
    ||| option_kind(name) == Some(OptionKind::Affinity) && "AllInSet:"@.is_prefix_of(text)
}

/// Two texts that differ behind a common beginning differ.
pub(crate) proof fn lemma_behind_the_beginning(beginning: Seq<char>, text: Seq<char>, other: Seq<char>)
    requires
        beginning + text == beginning + other,
    ensures
        text == other,
{
    let n = beginning.len() as int;
    assert((beginning + text).skip(n) =~= text);
    assert((beginning + other).skip(n) =~= other);
}

/// A pair of texts that is parted by a comma is parted at one place, if there is no other comma
/// before it.
pub(crate) proof fn lemma_one_comma(a: Seq<char>, b: Seq<char>, c: Seq<char>, d: Seq<char>)
    requires
        a + seq![','] + b == c + seq![','] + d,
        !a.contains(','),
        !c.contains(','),
    ensures
        a == c,
        b == d,
{
    let whole = a + seq![','] + b;
    let same = c + seq![','] + d;
    assert(whole[a.len() as int] == ',');
    assert(same[c.len() as int] == ',');
    if a.len() < c.len() {
        assert(c[a.len() as int] == same[a.len() as int]);
    }
    if c.len() < a.len() {
        assert(a[c.len() as int] == whole[c.len() as int]);
    }
    assert(a =~= whole.take(a.len() as int));
    assert(c =~= same.take(c.len() as int));
    assert(b =~= whole.skip(a.len() as int + 1));
    assert(d =~= same.skip(c.len() as int + 1));
}

/// There is no comma in a number.
pub(crate) proof fn lemma_no_comma(text: Seq<char>)
    ensures
        usize_value(text) is Some ==> !text.contains(','),
        size_value(text) is Some ==> !text.contains(','),
        text == seq!['_'] ==> !text.contains(','),
{
    if text.contains(',') {
        let i = choose|i: int| 0 <= i < text.len() && text[i] == ',';
        if usize_value(text) is Some {
            if text[0] == '+' {
                assert(text.drop_first()[i - 1] == ',');
            }
        }
        if size_value(text) is Some {
            if unit(text.last()) is Some {
                assert(text.drop_last()[i] == ',');
            }
        }
    }
}

/// A text stands for one trigger.
proof fn lemma_one_trigger(text: Seq<char>, a: GCTriggerSelector, b: GCTriggerSelector)
    requires
        is_trigger_text(text, a),
        is_trigger_text(text, b),
    ensures
        a == b,
{
    reveal_strlit("FixedHeapSize:");
    reveal_strlit("DynamicHeapSize:");
    reveal_strlit("Delegated");
    assert(a is FixedHeapSize ==> text[0] == 'F');
    assert(b is FixedHeapSize ==> text[0] == 'F');
    assert(a is DynamicHeapSize ==> text[1] == 'y');
    assert(b is DynamicHeapSize ==> text[1] == 'y');
    let word = text.subrange(0, "Delegated"@.len() as int);
    assert("Delegated"@.is_prefix_of(text) ==> word[0] == 'D' && word[1] == 'e');
    assert(a is Delegated ==> text[0] == 'D' && text[1] == 'e');
    assert(b is Delegated ==> text[0] == 'D' && text[1] == 'e');
    match (a, b) {
        (GCTriggerSelector::FixedHeapSize(m), GCTriggerSelector::FixedHeapSize(n)) => {
            let s = choose|s: Seq<char>|
                text == "FixedHeapSize:"@ + s && #[trigger] size_value(s) == Some(m);
            let t = choose|t: Seq<char>|
                text == "FixedHeapSize:"@ + t && #[trigger] size_value(t) == Some(n);
            lemma_behind_the_beginning("FixedHeapSize:"@, s, t);
        },
        (
            GCTriggerSelector::DynamicHeapSize(m, n),
            GCTriggerSelector::DynamicHeapSize(o, p),
        ) => {
            let (s, t) = choose|s: Seq<char>, t: Seq<char>|
                text == "DynamicHeapSize:"@ + (s + seq![','] + t) && #[trigger] size_value(s)
                    == Some(m) && #[trigger] size_value(t) == Some(n);
            let (u, v) = choose|u: Seq<char>, v: Seq<char>|
                text == "DynamicHeapSize:"@ + (u + seq![','] + v) && #[trigger] size_value(u)
                    == Some(o) && #[trigger] size_value(v) == Some(p);
            lemma_behind_the_beginning(
                "DynamicHeapSize:"@,
                s + seq![','] + t,
                u + seq![','] + v,
            );
            lemma_no_comma(s);
            lemma_no_comma(u);
            lemma_one_comma(s, t, u, v);
        },
        _ => {},
    }
}

/// A text stands for one size of the nursery.
proof fn lemma_one_nursery(text: Seq<char>, a: NurserySize, b: NurserySize)
    requires
        is_nursery_text(text, a),
        is_nursery_text(text, b),
    ensures
        a == b,
{
    reveal_strlit("Fixed:");
    reveal_strlit("Bounded:");
    assert(a is Fixed ==> text[0] == 'F');
    assert(b is Fixed ==> text[0] == 'F');
    assert(a is Bounded ==> text[0] == 'B');
    assert(b is Bounded ==> text[0] == 'B');
    let least = default_min_nursery();
    let most = default_max_nursery();
    match (a, b) {
        (NurserySize::Fixed(m), NurserySize::Fixed(n)) => {
            let s = choose|s: Seq<char>|
                text == "Fixed:"@ + s && #[trigger] usize_value(s) == Some(m);
            let t = choose|t: Seq<char>|
                text == "Fixed:"@ + t && #[trigger] usize_value(t) == Some(n);
            lemma_behind_the_beginning("Fixed:"@, s, t);
        },
        (NurserySize::Bounded(m, n), NurserySize::Bounded(o, p)) => {
            let (s, t) = choose|s: Seq<char>, t: Seq<char>|
                text == "Bounded:"@ + (s + seq![','] + t) && #[trigger] nursery_bound(s, least)
                    == Some(m) && #[trigger] nursery_bound(t, most) == Some(n);
            let (u, v) = choose|u: Seq<char>, v: Seq<char>|
                text == "Bounded:"@ + (u + seq![','] + v) && #[trigger] nursery_bound(u, least)
                    == Some(o) && #[trigger] nursery_bound(v, most) == Some(p);
            lemma_behind_the_beginning("Bounded:"@, s + seq![','] + t, u + seq![','] + v);
            lemma_no_comma(s);
            lemma_no_comma(u);
            lemma_one_comma(s, t, u, v);
        },
        _ => {},
    }
}

/// A text that is given for an option stands for one value at most.
pub proof fn law_text_stands_for_one_value(
    name: Seq<char>,
    text: Seq<char>,
    a: OptionValue,
    b: OptionValue,
)
    requires
        stands_for(name, text, a),
        stands_for(name, text, b),
    ensures
        a == b,
{
    match (a, b) {
        (OptionValue::Plan(plan), OptionValue::Plan(other)) => {
            law_plan_names_are_distinct(plan, other);
        },
        (OptionValue::Flag(_), OptionValue::Flag(_)) => {
            reveal_strlit("true");
            reveal_strlit("false");
            assert("true"@.len() != "false"@.len());
        },
        (OptionValue::Zeroing(_), OptionValue::Zeroing(_)) => {
            reveal_strlit("Temporal");
            reveal_strlit("Nontemporal");
            reveal_strlit("Concurrent");
            reveal_strlit("Adaptive");
            assert("Temporal"@[0] == 'T' && "Nontemporal"@[0] == 'N');
            assert("Concurrent"@[0] == 'C' && "Adaptive"@[0] == 'A');
        },
        (OptionValue::Trigger(trigger), OptionValue::Trigger(other)) => {
            lemma_one_trigger(text, trigger, other);
        },
        (OptionValue::Nursery(size), OptionValue::Nursery(other)) => {
            lemma_one_nursery(text, size, other);
        },
        _ => {},
    }
}

/// Every option has its kind: no two options share a name.
pub proof fn law_options_have_their_kinds()
    ensures
        option_kind("plan"@) == Some(OptionKind::Plan),
        option_kind("gc_trigger"@) == Some(OptionKind::Trigger),
        option_kind("nursery"@) == Some(OptionKind::Nursery),
        option_kind("nursery_zeroing"@) == Some(OptionKind::Zeroing),
        option_kind("vm_space_start"@) == Some(OptionKind::Location),
        option_kind("side_metadata_base_address"@) == Some(OptionKind::Location),
        option_kind("thread_affinity"@) == Some(OptionKind::Affinity),
        option_kind("work_perf_events"@) == Some(OptionKind::Events),
        option_kind("phase_perf_events"@) == Some(OptionKind::Events),
        option_kind("threads"@) == Some(OptionKind::Count(1, usize::MAX)),
        option_kind("concurrent_threads"@) == Some(OptionKind::Count(1, usize::MAX)),
        option_kind("vm_space_size"@) == Some(OptionKind::Count(1, usize::MAX)),
        option_kind("stress_factor"@) == Some(OptionKind::Count(0, usize::MAX)),
        option_kind("analysis_factor"@) == Some(OptionKind::Count(0, usize::MAX)),
        option_kind("immix_defrag_headroom_percent"@) == Some(OptionKind::Count(0, 50)),
        option_kind("use_short_stack_scans"@) == Some(OptionKind::Flag),
        option_kind("use_return_barrier"@) == Some(OptionKind::Flag),
        option_kind("eager_complete_sweep"@) == Some(OptionKind::Flag),
        option_kind("ignore_system_gc"@) == Some(OptionKind::Flag),
        option_kind("full_heap_system_gc"@) == Some(OptionKind::Flag),
        option_kind("no_finalizer"@) == Some(OptionKind::Flag),
        option_kind("no_reference_types"@) == Some(OptionKind::Flag),
        option_kind("precise_stress"@) == Some(OptionKind::Flag),
        option_kind("perf_exclude_kernel"@) == Some(OptionKind::Flag),
        option_kind("transparent_hugepages"@) == Some(OptionKind::Flag),
        option_kind("count_live_bytes_in_gc"@) == Some(OptionKind::Flag),
        option_kind("immix_always_defrag"@) == Some(OptionKind::Flag),
        option_kind("immix_defrag_every_block"@) == Some(OptionKind::Flag),
        option_kind("concurrent_immix_disable_concurrent_marking"@) == Some(OptionKind::Flag),
{
    reveal_strlit("plan");
    reveal_strlit("gc_trigger");
    reveal_strlit("nursery");
    reveal_strlit("nursery_zeroing");
    reveal_strlit("vm_space_start");
    reveal_strlit("side_metadata_base_address");
    reveal_strlit("thread_affinity");
    reveal_strlit("work_perf_events");
    reveal_strlit("phase_perf_events");
    reveal_strlit("threads");
    reveal_strlit("concurrent_threads");
    reveal_strlit("vm_space_size");
    reveal_strlit("stress_factor");
    reveal_strlit("analysis_factor");
    reveal_strlit("immix_defrag_headroom_percent");
    reveal_strlit("use_short_stack_scans");
    reveal_strlit("use_return_barrier");
    reveal_strlit("eager_complete_sweep");
    reveal_strlit("ignore_system_gc");
    reveal_strlit("full_heap_system_gc");
    reveal_strlit("no_finalizer");
    reveal_strlit("no_reference_types");
    reveal_strlit("precise_stress");
    reveal_strlit("perf_exclude_kernel");
    reveal_strlit("transparent_hugepages");
    reveal_strlit("count_live_bytes_in_gc");
    reveal_strlit("immix_always_defrag");
    reveal_strlit("immix_defrag_every_block");
    reveal_strlit("concurrent_immix_disable_concurrent_marking");
    // Names differ in their length or in their first character.
    assert("plan"@.len() == 4 && "plan"@[0] == 'p');
    assert("gc_trigger"@.len() == 10 && "gc_trigger"@[0] == 'g');
    assert("nursery"@.len() == 7 && "nursery"@[0] == 'n');
    assert("nursery_zeroing"@.len() == 15 && "nursery_zeroing"@[0] == 'n');
    assert("vm_space_start"@.len() == 14 && "vm_space_start"@[0] == 'v');
    assert("side_metadata_base_address"@.len() == 26 && "side_metadata_base_address"@[0] == 's');
    assert("thread_affinity"@.len() == 15 && "thread_affinity"@[0] == 't');
    assert("work_perf_events"@.len() == 16 && "work_perf_events"@[0] == 'w');
    assert("phase_perf_events"@.len() == 17 && "phase_perf_events"@[0] == 'p');
    assert("threads"@.len() == 7 && "threads"@[0] == 't');
    assert("concurrent_threads"@.len() == 18 && "concurrent_threads"@[0] == 'c');
    assert("vm_space_size"@.len() == 13 && "vm_space_size"@[0] == 'v');
    assert("stress_factor"@.len() == 13 && "stress_factor"@[0] == 's');
    assert("analysis_factor"@.len() == 15 && "analysis_factor"@[0] == 'a');
    assert("immix_defrag_headroom_percent"@.len() == 29 && "immix_defrag_headroom_percent"@[0] == 'i');
    assert("use_short_stack_scans"@.len() == 21 && "use_short_stack_scans"@[0] == 'u');
    assert("use_return_barrier"@.len() == 18 && "use_return_barrier"@[0] == 'u');
    assert("eager_complete_sweep"@.len() == 20 && "eager_complete_sweep"@[0] == 'e');
    assert("ignore_system_gc"@.len() == 16 && "ignore_system_gc"@[0] == 'i');
    assert("full_heap_system_gc"@.len() == 19 && "full_heap_system_gc"@[0] == 'f');
    assert("no_finalizer"@.len() == 12 && "no_finalizer"@[0] == 'n');
    assert("no_reference_types"@.len() == 18 && "no_reference_types"@[0] == 'n');
    assert("precise_stress"@.len() == 14 && "precise_stress"@[0] == 'p');
    assert("perf_exclude_kernel"@.len() == 19 && "perf_exclude_kernel"@[0] == 'p');
    assert("transparent_hugepages"@.len() == 21 && "transparent_hugepages"@[0] == 't');
    assert("count_live_bytes_in_gc"@.len() == 22 && "count_live_bytes_in_gc"@[0] == 'c');
    assert("immix_always_defrag"@.len() == 19 && "immix_always_defrag"@[0] == 'i');
    assert("immix_defrag_every_block"@.len() == 24 && "immix_defrag_every_block"@[0] == 'i');
    assert("concurrent_immix_disable_concurrent_marking"@.len() == 43 && "concurrent_immix_disable_concurrent_marking"@[0] == 'c');
}

/// A flag is set by the text for it, and transparent huge pages can be turned off on any machine.
pub proof fn law_flag_is_set_by_its_text(name: Seq<char>, flag: bool)
    requires
        is_flag_option(name),
    ensures
        stands_for(name, flag_text(flag), OptionValue::Flag(flag)),
        !rests_on_the_machine("transparent_hugepages"@, OptionValue::Flag(false)),
{
    law_options_have_their_kinds();
    reveal_strlit("perf_exclude_kernel");
    reveal_strlit("transparent_hugepages");
    assert("perf_exclude_kernel"@.len() != "transparent_hugepages"@.len());
}

/// A plan is set by the name under which it is known as the active one, and that name sets no
/// other plan.
pub proof fn law_plan_is_set_by_its_name(plan: PlanSelector, value: OptionValue)
    ensures
        stands_for("plan"@, plan.spec_name(), value) <==> value == OptionValue::Plan(plan),
{
    if stands_for("plan"@, plan.spec_name(), value) {
        law_text_stands_for_one_value(
            "plan"@,
            plan.spec_name(),
            value,
            OptionValue::Plan(plan),
        );
    }
}

/// The bounds of a heap are set by a text with their digits.
pub proof fn law_heap_size_is_set_by_its_digits(min: usize, max: usize)
    ensures
        min > 0 ==> stands_for(
            "gc_trigger"@,
            "FixedHeapSize:"@ + decimal(min as nat),
            OptionValue::Trigger(GCTriggerSelector::FixedHeapSize(min)),
        ),
        min <= max ==> stands_for(
            "gc_trigger"@,
            "DynamicHeapSize:"@ + (decimal(min as nat) + seq![','] + decimal(max as nat)),
            OptionValue::Trigger(GCTriggerSelector::DynamicHeapSize(min, max)),
        ),
{
    law_options_have_their_kinds();
    law_number_is_read_back(min);
    law_number_is_read_back(max);
}

/// A heap of fixed size cannot be empty, and the bounds of another have to be in order: no text
/// sets them otherwise.
pub proof fn law_no_text_sets_a_wrong_heap_size(text: Seq<char>, min: usize, max: usize)
    ensures
        !stands_for(
            "gc_trigger"@,
            text,
            OptionValue::Trigger(GCTriggerSelector::FixedHeapSize(0)),
        ),
        min > max ==> !stands_for(
            "gc_trigger"@,
            text,
            OptionValue::Trigger(GCTriggerSelector::DynamicHeapSize(min, max)),
        ),
{
}

/// The nursery has the fixed size whose digits are given.
pub proof fn law_nursery_is_set_by_its_digits(size: usize)
    ensures
        stands_for(
            "nursery"@,
            "Fixed:"@ + decimal(size as nat),
            OptionValue::Nursery(NurserySize::Fixed(size)),
        ),
{
    law_options_have_their_kinds();
    law_number_is_read_back(size);
}

} // verus!
