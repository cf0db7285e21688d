//! Laws of the texts by which the options of MMTk are set.

use crate::option_text::{
    default_max_nursery, default_min_nursery, is_named, is_nursery_text, is_option,
    is_settled_by_name, is_trigger_text, law_options_have_their_kinds, lemma_behind_the_beginning,
    lemma_no_comma, lemma_one_comma, nursery_bound, rests_on_the_machine, stands_for,
};
use crate::options::{GCTriggerSelector, NurserySize, NurseryZeroing, OptionValue, PlanSelector};
use crate::text::{size_value, usize_value};
use vstd::prelude::*;

verus! {

/// The options of MMTk are these, and no others.
pub proof fn law_options_are_these(name: Seq<char>)
    ensures
        is_option(name) <==> {
            ||| name == "plan"@
            ||| name == "gc_trigger"@
            ||| name == "nursery"@
            ||| name == "nursery_zeroing"@
            ||| name == "vm_space_start"@
            ||| name == "side_metadata_base_address"@
            ||| name == "thread_affinity"@
            ||| name == "work_perf_events"@
            ||| name == "phase_perf_events"@
            ||| name == "threads"@
            ||| name == "concurrent_threads"@
            ||| name == "vm_space_size"@
            ||| name == "stress_factor"@
            ||| name == "analysis_factor"@
            ||| name == "immix_defrag_headroom_percent"@
            ||| name == "use_short_stack_scans"@
            ||| name == "use_return_barrier"@
            ||| name == "eager_complete_sweep"@
            ||| name == "ignore_system_gc"@
            ||| name == "full_heap_system_gc"@
            ||| name == "no_finalizer"@
            ||| name == "no_reference_types"@
            ||| name == "precise_stress"@
            ||| name == "perf_exclude_kernel"@
            ||| name == "transparent_hugepages"@
            ||| name == "count_live_bytes_in_gc"@
            ||| name == "immix_always_defrag"@
            ||| name == "immix_defrag_every_block"@
            ||| name == "concurrent_immix_disable_concurrent_marking"@
        },
{
}

/// An option that is a number is set by a text that writes a number within its bounds, to that
/// number, and by no other text.
pub proof fn law_numbers_have_their_bounds(text: Seq<char>, value: OptionValue)
    ensures
        stands_for("threads"@, text, value) <==> (value matches OptionValue::Count(count)
            && usize_value(text) == Some(count) && 1 <= count),
        stands_for("concurrent_threads"@, text, value) <==> (value matches OptionValue::Count(count)
            && usize_value(text) == Some(count) && 1 <= count),
        stands_for("vm_space_size"@, text, value) <==> (value matches OptionValue::Count(count)
            && usize_value(text) == Some(count) && 1 <= count),
        stands_for("stress_factor"@, text, value) <==> (value matches OptionValue::Count(count)
            && usize_value(text) == Some(count)),
        stands_for("analysis_factor"@, text, value) <==> (value matches OptionValue::Count(count)
            && usize_value(text) == Some(count)),
        stands_for("immix_defrag_headroom_percent"@, text, value) <==> (value matches OptionValue::Count(count)
            && usize_value(text) == Some(count) && count <= 50),
{
    law_options_have_their_kinds();
}

/// An option that is on or off is turned on by `true` and off by `false`, and by no other text.
pub proof fn law_flags_are_true_or_false(name: Seq<char>, text: Seq<char>, value: OptionValue)
    requires
        ({
            ||| name == "use_short_stack_scans"@
            ||| name == "use_return_barrier"@
            ||| name == "eager_complete_sweep"@
            ||| name == "ignore_system_gc"@
            ||| name == "full_heap_system_gc"@
            ||| name == "no_finalizer"@
            ||| name == "no_reference_types"@
            ||| name == "precise_stress"@
            ||| name == "perf_exclude_kernel"@
            ||| name == "transparent_hugepages"@
            ||| name == "count_live_bytes_in_gc"@
            ||| name == "immix_always_defrag"@
            ||| name == "immix_defrag_every_block"@
            ||| name == "concurrent_immix_disable_concurrent_marking"@
        }),
    ensures
        stands_for(name, text, value) <==> (value == OptionValue::Flag(true) && text == "true"@) || (
        value == OptionValue::Flag(false) && text == "false"@),
{
    law_options_have_their_kinds();
}

/// An address is set by a text that writes it in decimal digits, and by no other text.
pub proof fn law_addresses_are_numbers(text: Seq<char>, value: OptionValue)
    ensures
        stands_for("vm_space_start"@, text, value) <==> (value matches OptionValue::Location(address)
            && usize_value(text) == Some(address)),
        stands_for("side_metadata_base_address"@, text, value) <==> (
        value matches OptionValue::Location(address) && usize_value(text) == Some(address)),
{
    law_options_have_their_kinds();
}

/// A plan is set by its own name, and by no other text.
pub proof fn law_plans_go_by_their_names(text: Seq<char>, value: OptionValue)
    ensures
        stands_for("plan"@, text, value) <==> match value {
            OptionValue::Plan(PlanSelector::NoGC) => text == "NoGC"@,
            OptionValue::Plan(PlanSelector::SemiSpace) => text == "SemiSpace"@,
            OptionValue::Plan(PlanSelector::GenCopy) => text == "GenCopy"@,
            OptionValue::Plan(PlanSelector::GenImmix) => text == "GenImmix"@,
            OptionValue::Plan(PlanSelector::MarkSweep) => text == "MarkSweep"@,
            OptionValue::Plan(PlanSelector::PageProtect) => text == "PageProtect"@,
            OptionValue::Plan(PlanSelector::Immix) => text == "Immix"@,
            OptionValue::Plan(PlanSelector::MarkCompact) => text == "MarkCompact"@,
            OptionValue::Plan(PlanSelector::Compressor) => text == "Compressor"@,
            OptionValue::Plan(PlanSelector::StickyImmix) => text == "StickyImmix"@,
            OptionValue::Plan(PlanSelector::ConcurrentImmix) => text == "ConcurrentImmix"@,
            _ => false,
        },
{
}

/// A way to clear memory is set by its own name, and by no other text.
pub proof fn law_ways_to_clear_memory_go_by_their_names(text: Seq<char>, value: OptionValue)
    ensures
        stands_for("nursery_zeroing"@, text, value) <==> match value {
            OptionValue::Zeroing(NurseryZeroing::Temporal) => text == "Temporal"@,
            OptionValue::Zeroing(NurseryZeroing::Nontemporal) => text == "Nontemporal"@,
            OptionValue::Zeroing(NurseryZeroing::Concurrent) => text == "Concurrent"@,
            OptionValue::Zeroing(NurseryZeroing::Adaptive) => text == "Adaptive"@,
            _ => false,
        },
{
    law_options_have_their_kinds();
}

/// A heap of fixed size is set by a text with its size behind a colon, if it is not zero.
pub proof fn law_fixed_heap_is_set_by_its_size(
    text: Seq<char>,
    digits: Seq<char>,
    size: usize,
)
    ensures
        ({
            let value = OptionValue::Trigger(GCTriggerSelector::FixedHeapSize(size));
            &&& stands_for("gc_trigger"@, "FixedHeapSize:"@ + digits, value) <==> size_value(digits)
                == Some(size) && size > 0
            &&& stands_for("gc_trigger"@, text, value) ==> text.len() >= 14 && text.take(14)
                == "FixedHeapSize:"@
        }),
{
    law_options_have_their_kinds();
    reveal_strlit("FixedHeapSize:");
    let trigger = GCTriggerSelector::FixedHeapSize(size);
    let whole = "FixedHeapSize:"@ + digits;
    if is_trigger_text(whole, trigger) {
        let other = choose|other: Seq<char>|
            whole == "FixedHeapSize:"@ + other && #[trigger] size_value(other) == Some(size);
        lemma_behind_the_beginning("FixedHeapSize:"@, digits, other);
    }
    if is_trigger_text(text, trigger) {
        let other = choose|other: Seq<char>|
            text == "FixedHeapSize:"@ + other && #[trigger] size_value(other) == Some(size);
        assert(text.take(14) =~= "FixedHeapSize:"@);
    }
}

/// A heap that varies is set by a text with its two bounds behind a colon, with one comma between
/// them, if they are in order.
pub proof fn law_varying_heap_is_set_by_its_bounds(
    text: Seq<char>,
    least: Seq<char>,
    most: Seq<char>,
    min: usize,
    max: usize,
)
    ensures
        ({
            let value = OptionValue::Trigger(GCTriggerSelector::DynamicHeapSize(min, max));
            let whole = "DynamicHeapSize:"@ + (least + seq![','] + most);
            &&& !least.contains(',') ==> (stands_for("gc_trigger"@, whole, value) <==> size_value(
                least,
            ) == Some(min) && size_value(most) == Some(max) && min <= max)
            &&& stands_for("gc_trigger"@, text, value) ==> exists|a: Seq<char>, b: Seq<char>|
                text == #[trigger] ("DynamicHeapSize:"@ + (a + seq![','] + b)) && !a.contains(',')
        }),
{
    law_options_have_their_kinds();
    let trigger = GCTriggerSelector::DynamicHeapSize(min, max);
    let whole = "DynamicHeapSize:"@ + (least + seq![','] + most);
    if is_trigger_text(whole, trigger) && !least.contains(',') {
        let (a, b) = choose|a: Seq<char>, b: Seq<char>|
            whole == "DynamicHeapSize:"@ + (a + seq![','] + b) && #[trigger] size_value(a) == Some(
                min,
            ) && #[trigger] size_value(b) == Some(max);
        lemma_behind_the_beginning(
            "DynamicHeapSize:"@,
            least + seq![','] + most,
            a + seq![','] + b,
        );
        lemma_no_comma(a);
        lemma_one_comma(least, most, a, b);
    }
    if is_trigger_text(text, trigger) {
        let (a, b) = choose|a: Seq<char>, b: Seq<char>|
            text == "DynamicHeapSize:"@ + (a + seq![','] + b) && #[trigger] size_value(a) == Some(
                min,
            ) && #[trigger] size_value(b) == Some(max);
        lemma_no_comma(a);
        assert(text == "DynamicHeapSize:"@ + (a + seq![','] + b));
    }
}

/// What triggers a collection is left to something outside MMTk by a text that begins with the word
/// for it, and nothing but a trigger is set for this option.
pub proof fn law_trigger_is_delegated_by_a_word(text: Seq<char>, value: OptionValue)
    ensures
        stands_for("gc_trigger"@, text, OptionValue::Trigger(GCTriggerSelector::Delegated)) <==> {
            &&& text.len() >= 9
            &&& text.take(9) == "Delegated"@
        },
        stands_for("gc_trigger"@, text, value) ==> value is Trigger,
{
    law_options_have_their_kinds();
    reveal_strlit("Delegated");
    assert("Delegated"@.len() == 9);
}

/// A nursery of fixed size is set by a text with its size behind a colon.
pub proof fn law_fixed_nursery_is_set_by_its_size(text: Seq<char>, digits: Seq<char>, size: usize)
    ensures
        ({
            let value = OptionValue::Nursery(NurserySize::Fixed(size));
            &&& stands_for("nursery"@, "Fixed:"@ + digits, value) <==> usize_value(digits) == Some(
                size,
            )
            &&& stands_for("nursery"@, text, value) ==> text.len() >= 6 && text.take(6) == "Fixed:"@
        }),
{
    law_options_have_their_kinds();
    reveal_strlit("Fixed:");
    let nursery = NurserySize::Fixed(size);
    let whole = "Fixed:"@ + digits;
    if is_nursery_text(whole, nursery) {
        let other = choose|other: Seq<char>|
            whole == "Fixed:"@ + other && #[trigger] usize_value(other) == Some(size);
        lemma_behind_the_beginning("Fixed:"@, digits, other);
    }
    if is_nursery_text(text, nursery) {
        let other = choose|other: Seq<char>|
            text == "Fixed:"@ + other && #[trigger] usize_value(other) == Some(size);
        assert(text.take(6) =~= "Fixed:"@);
    }
}

/// A nursery with bounds is set by a text with its two bounds behind a colon, with one comma
/// between them, if they are in order. An underscore stands for 2 MiB as the least size, and as the
/// greatest for 1 TiB where words have 64 bits, and else for 32 MiB.
pub proof fn law_bounded_nursery_is_set_by_its_bounds(
    text: Seq<char>,
    least: Seq<char>,
    most: Seq<char>,
    min: usize,
    max: usize,
    value: OptionValue,
)
    ensures
        ({
            let bounds = OptionValue::Nursery(NurserySize::Bounded(min, max));
            let whole = "Bounded:"@ + (least + seq![','] + most);
            let default_max = if usize::BITS == 64 {
                0x100_0000_0000int
            } else {
                0x200_0000int
            };
            &&& !least.contains(',') ==> (stands_for("nursery"@, whole, bounds) <==> {
                &&& usize_value(least) == Some(min) || (least == seq!['_'] && min == 0x20_0000)
                &&& usize_value(most) == Some(max) || (most == seq!['_'] && max == default_max)
                &&& min <= max
            })
            &&& stands_for("nursery"@, text, bounds) ==> exists|a: Seq<char>, b: Seq<char>|
                text == #[trigger] ("Bounded:"@ + (a + seq![','] + b)) && !a.contains(',')
            &&& stands_for("nursery"@, text, value) ==> value is Nursery
        }),
{
    law_options_have_their_kinds();
    let nursery = NurserySize::Bounded(min, max);
    let whole = "Bounded:"@ + (least + seq![','] + most);
    let low = default_min_nursery();
    let high = default_max_nursery();
    assert(usize_value(seq!['_']) is None) by {
        assert(seq!['_'][0] == '_');
    }
    if is_nursery_text(whole, nursery) && !least.contains(',') {
        let (a, b) = choose|a: Seq<char>, b: Seq<char>|
            whole == "Bounded:"@ + (a + seq![','] + b) && #[trigger] nursery_bound(a, low) == Some(
                min,
            ) && #[trigger] nursery_bound(b, high) == Some(max);
        lemma_behind_the_beginning("Bounded:"@, least + seq![','] + most, a + seq![','] + b);
        lemma_no_comma(a);
        lemma_one_comma(least, most, a, b);
    }
    if nursery_bound(least, low) == Some(min) && nursery_bound(most, high) == Some(max) {
        assert(is_nursery_text(whole, nursery));
    }
    if is_nursery_text(text, nursery) {
        let (a, b) = choose|a: Seq<char>, b: Seq<char>|
            text == "Bounded:"@ + (a + seq![','] + b) && #[trigger] nursery_bound(a, low) == Some(
                min,
            ) && #[trigger] nursery_bound(b, high) == Some(max);
        lemma_no_comma(a);
        assert(text == "Bounded:"@ + (a + seq![','] + b));
    }
}

/// What a text stands for is named, and not written down, for processors, for events, and for a
/// nursery in proportion to the heap. It is written down for all other options. The named value
/// settles whether the text is taken for such a nursery and for one set of processors.
pub proof fn law_named_options_are_these(name: Seq<char>, text: Seq<char>, value: OptionValue)
    ensures
        ({
            let is_fraction = name == "nursery"@ && text.len() >= 20 && text.take(20)
                == "ProportionalBounded:"@;
            &&& is_named(name, text) <==> {
                ||| name == "thread_affinity"@
                ||| name == "work_perf_events"@
                ||| name == "phase_perf_events"@
                ||| is_fraction
            }
            &&& is_settled_by_name(name, text) <==> is_fraction || (name == "thread_affinity"@
                && text.len() >= 9 && text.take(9) == "AllInSet:"@)
            &&& stands_for(name, text, value) ==> is_option(name) && name != "thread_affinity"@
                && name != "work_perf_events"@ && name != "phase_perf_events"@
        }),
{
    law_options_have_their_kinds();
    reveal_strlit("ProportionalBounded:");
    reveal_strlit("AllInSet:");
    assert("ProportionalBounded:"@.len() == 20);
    assert("AllInSet:"@.len() == 9);
}

/// It rests on the builder, and not on the text alone, if two flags can be set: to leave out the
/// kernel when events are measured, and to turn on transparent huge pages.
pub proof fn law_two_flags_rest_on_the_builder(name: Seq<char>, value: OptionValue)
    ensures
        rests_on_the_machine(name, value) <==> (value is Flag && name == "perf_exclude_kernel"@) || (
        value == OptionValue::Flag(true) && name == "transparent_hugepages"@),
{
}

/// What a builder says of the options that it lets be set stays what it is: the names under which it
/// says so are no options, and cannot be set.
pub proof fn law_questions_are_no_options()
    ensures
        !is_option("transparent_hugepages?"@),
        !is_option("perf_exclude_kernel?"@),
        !is_option("work_perf_events?"@),
        !is_option("phase_perf_events?"@),
{
    law_options_have_their_kinds();
    reveal_strlit("plan");
    reveal_strlit("gc_trigger");
    reveal_strlit("nursery");
    reveal_strlit("nursery_zeroing");
    reveal_strlit("vm_space_start");
    reveal_strlit("side_metadata_base_address");
    reveal_strlit("thread_affinity");
    reveal_strlit("work_perf_events");
    reveal_strlit("phase_perf_events");
    reveal_strlit("threads");
    reveal_strlit("concurrent_threads");
    reveal_strlit("vm_space_size");
    reveal_strlit("stress_factor");
    reveal_strlit("analysis_factor");
    reveal_strlit("immix_defrag_headroom_percent");
    reveal_strlit("use_short_stack_scans");
    reveal_strlit("use_return_barrier");
    reveal_strlit("eager_complete_sweep");
    reveal_strlit("ignore_system_gc");
    reveal_strlit("full_heap_system_gc");
    reveal_strlit("no_finalizer");
    reveal_strlit("no_reference_types");
    reveal_strlit("precise_stress");
    reveal_strlit("perf_exclude_kernel");
    reveal_strlit("transparent_hugepages");
    reveal_strlit("count_live_bytes_in_gc");
    reveal_strlit("immix_always_defrag");
    reveal_strlit("immix_defrag_every_block");
    reveal_strlit("concurrent_immix_disable_concurrent_marking");
    reveal_strlit("transparent_hugepages?");
    reveal_strlit("perf_exclude_kernel?");
    reveal_strlit("work_perf_events?");
    reveal_strlit("phase_perf_events?");
    assert("plan"@.len() == 4 && "plan"@[0] == 'p');
    assert("gc_trigger"@.len() == 10 && "gc_trigger"@[0] == 'g');
    assert("nursery"@.len() == 7 && "nursery"@[0] == 'n');
    assert("nursery_zeroing"@.len() == 15 && "nursery_zeroing"@[0] == 'n');
    assert("vm_space_start"@.len() == 14 && "vm_space_start"@[0] == 'v');
    assert("side_metadata_base_address"@.len() == 26 && "side_metadata_base_address"@[0] == 's');
    assert("thread_affinity"@.len() == 15 && "thread_affinity"@[0] == 't');
    assert("work_perf_events"@.len() == 16 && "work_perf_events"@[0] == 'w');
    assert("phase_perf_events"@.len() == 17 && "phase_perf_events"@[0] == 'p');
    assert("threads"@.len() == 7 && "threads"@[0] == 't');
    assert("concurrent_threads"@.len() == 18 && "concurrent_threads"@[0] == 'c');
    assert("vm_space_size"@.len() == 13 && "vm_space_size"@[0] == 'v');
    assert("stress_factor"@.len() == 13 && "stress_factor"@[0] == 's');
    assert("analysis_factor"@.len() == 15 && "analysis_factor"@[0] == 'a');
    assert("immix_defrag_headroom_percent"@.len() == 29 && "immix_defrag_headroom_percent"@[0] == 'i');
    assert("use_short_stack_scans"@.len() == 21 && "use_short_stack_scans"@[0] == 'u');
    assert("use_return_barrier"@.len() == 18 && "use_return_barrier"@[0] == 'u');
    assert("eager_complete_sweep"@.len() == 20 && "eager_complete_sweep"@[0] == 'e');
    assert("ignore_system_gc"@.len() == 16 && "ignore_system_gc"@[0] == 'i');
    assert("full_heap_system_gc"@.len() == 19 && "full_heap_system_gc"@[0] == 'f');
    assert("no_finalizer"@.len() == 12 && "no_finalizer"@[0] == 'n');
    assert("no_reference_types"@.len() == 18 && "no_reference_types"@[0] == 'n');
    assert("precise_stress"@.len() == 14 && "precise_stress"@[0] == 'p');
    assert("perf_exclude_kernel"@.len() == 19 && "perf_exclude_kernel"@[0] == 'p');
    assert("transparent_hugepages"@.len() == 21 && "transparent_hugepages"@[0] == 't');
    assert("count_live_bytes_in_gc"@.len() == 22 && "count_live_bytes_in_gc"@[0] == 'c');
    assert("immix_always_defrag"@.len() == 19 && "immix_always_defrag"@[0] == 'i');
    assert("immix_defrag_every_block"@.len() == 24 && "immix_defrag_every_block"@[0] == 'i');
    assert("concurrent_immix_disable_concurrent_marking"@.len() == 43 && "concurrent_immix_disable_concurrent_marking"@[0] == 'c');
    assert("transparent_hugepages?"@.len() == 22 && "transparent_hugepages?"@[0] == 't');
    assert("perf_exclude_kernel?"@.len() == 20 && "perf_exclude_kernel?"@[0] == 'p');
    assert("work_perf_events?"@.len() == 17 && "work_perf_events?"@[0] == 'w');
    assert("phase_perf_events?"@.len() == 18 && "phase_perf_events?"@[0] == 'p');
}

} // verus!
