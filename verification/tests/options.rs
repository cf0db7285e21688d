use mmtk::util::options::{
    AffinityKind, GCTriggerSelector, NurserySize, NurseryZeroingOptions, PlanSelector as MmtkPlan,
    DEFAULT_MAX_NURSERY, DEFAULT_MIN_NURSERY,
};
use mmtk::MMTKBuilder;
use mmtk_openjdk::api::{
    mmtk_active_plan, mmtk_builder_set_threads, mmtk_builder_set_transparent_hugepages,
    mmtk_set_heap_size, openjdk_gc_init, process, BuildFeatures,
};
use mmtk_openjdk::options::PlanSelector;

fn builder() -> MMTKBuilder {
    MMTKBuilder::new_no_env_vars()
}

fn no_features() -> BuildFeatures {
    BuildFeatures {
        nogc: false,
        semispace: false,
        gencopy: false,
        marksweep: false,
        markcompact: false,
        pageprotect: false,
        immix: false,
        genimmix: false,
        stickyimmix: false,
        compressor: false,
    }
}

#[test]
fn equal_bounds_fix_the_heap_size() {
    let mut builder = builder();
    assert!(mmtk_set_heap_size(&mut builder, 4096, 4096));
    assert_eq!(*builder.options.gc_trigger, GCTriggerSelector::FixedHeapSize(4096));
}

#[test]
fn different_bounds_let_the_heap_grow() {
    let mut builder = builder();
    assert!(mmtk_set_heap_size(&mut builder, 1024, 4096));
    assert_eq!(*builder.options.gc_trigger, GCTriggerSelector::DynamicHeapSize(1024, 4096));
    assert!(mmtk_set_heap_size(&mut builder, 0, 1));
    assert_eq!(*builder.options.gc_trigger, GCTriggerSelector::DynamicHeapSize(0, 1));
}

#[test]
fn wrong_bounds_are_refused() {
    let mut builder = builder();
    assert!(mmtk_set_heap_size(&mut builder, 1024, 4096));
    assert!(!mmtk_set_heap_size(&mut builder, 0, 0));
    assert!(!mmtk_set_heap_size(&mut builder, 4096, 1024));
    assert_eq!(*builder.options.gc_trigger, GCTriggerSelector::DynamicHeapSize(1024, 4096));
}

#[test]
fn number_of_threads_is_set_unless_zero() {
    let mut builder = builder();
    mmtk_builder_set_threads(&mut builder, 7);
    assert_eq!(*builder.options.threads, 7);
    mmtk_builder_set_threads(&mut builder, 0);
    assert_eq!(*builder.options.threads, 7);
}

#[test]
fn huge_pages_are_turned_on_where_there_are_any() {
    let mut by_text = builder();
    let there_are_any = process(&mut by_text, "transparent_hugepages", "true", true);
    let mut builder = builder();
    mmtk_builder_set_transparent_hugepages(&mut builder, true);
    assert_eq!(*builder.options.transparent_hugepages, there_are_any);
    mmtk_builder_set_transparent_hugepages(&mut builder, false);
    assert!(!*builder.options.transparent_hugepages);
}

#[test]
fn plan_is_set_by_its_name() {
    let plans = [
        (PlanSelector::NoGC, MmtkPlan::NoGC),
        (PlanSelector::SemiSpace, MmtkPlan::SemiSpace),
        (PlanSelector::GenCopy, MmtkPlan::GenCopy),
        (PlanSelector::GenImmix, MmtkPlan::GenImmix),
        (PlanSelector::MarkSweep, MmtkPlan::MarkSweep),
        (PlanSelector::PageProtect, MmtkPlan::PageProtect),
        (PlanSelector::Immix, MmtkPlan::Immix),
        (PlanSelector::MarkCompact, MmtkPlan::MarkCompact),
        (PlanSelector::Compressor, MmtkPlan::Compressor),
        (PlanSelector::StickyImmix, MmtkPlan::StickyImmix),
        (PlanSelector::ConcurrentImmix, MmtkPlan::ConcurrentImmix),
    ];
    let mut builder = builder();
    for (plan, expected) in plans {
        assert!(process(&mut builder, "plan", mmtk_active_plan(plan), true));
        assert_eq!(*builder.options.plan, expected);
    }
    assert!(!process(&mut builder, "plan", "nogc", true));
    assert!(!process(&mut builder, "plan", "", true));
    assert!(!process(&mut builder, "plan", "NoGC ", true));
    assert_eq!(*builder.options.plan, MmtkPlan::ConcurrentImmix);
}

#[test]
fn option_is_set_by_a_text() {
    let mut builder = builder();
    assert!(process(&mut builder, "threads", "3", true));
    assert_eq!(*builder.options.threads, 3);
    assert!(process(&mut builder, "no_reference_types", "true", true));
    assert!(*builder.options.no_reference_types);
    assert_eq!(*builder.options.threads, 3);
}

#[test]
fn numbers_have_their_bounds() {
    let mut builder = builder();
    assert!(process(&mut builder, "stress_factor", "+5", true));
    assert_eq!(*builder.options.stress_factor, 5);
    assert!(process(&mut builder, "stress_factor", "0", true));
    assert_eq!(*builder.options.stress_factor, 0);
    assert!(!process(&mut builder, "stress_factor", "-1", true));
    assert!(!process(&mut builder, "stress_factor", "", true));
    assert!(!process(&mut builder, "stress_factor", "+", true));
    assert!(process(&mut builder, "analysis_factor", "007", true));
    assert_eq!(*builder.options.analysis_factor, 7);
    assert!(process(&mut builder, "immix_defrag_headroom_percent", "50", true));
    assert!(!process(&mut builder, "immix_defrag_headroom_percent", "51", true));
    assert_eq!(*builder.options.immix_defrag_headroom_percent, 50);
    assert!(process(&mut builder, "concurrent_threads", "1", true));
    assert!(!process(&mut builder, "concurrent_threads", "0", true));
    assert!(process(&mut builder, "vm_space_size", "4096", true));
    assert!(!process(&mut builder, "vm_space_size", "0", true));
    assert_eq!(*builder.options.vm_space_size, 4096);
}

#[test]
fn flags_are_true_or_false() {
    let flags = [
        "use_short_stack_scans",
        "use_return_barrier",
        "eager_complete_sweep",
        "ignore_system_gc",
        "full_heap_system_gc",
        "no_finalizer",
        "no_reference_types",
        "precise_stress",
        "count_live_bytes_in_gc",
        "immix_always_defrag",
        "immix_defrag_every_block",
        "concurrent_immix_disable_concurrent_marking",
    ];
    let mut builder = builder();
    for flag in flags {
        assert!(process(&mut builder, flag, "true", true));
        assert!(process(&mut builder, flag, "false", true));
        assert!(!process(&mut builder, flag, "True", true));
        assert!(!process(&mut builder, flag, "1", true));
        assert!(!process(&mut builder, flag, "", true));
    }
    assert!(!*builder.options.precise_stress);
    assert!(process(&mut builder, "no_finalizer", "true", true));
    assert!(*builder.options.no_finalizer);
}

#[test]
fn unfit_text_leaves_the_option() {
    let mut builder = builder();
    assert!(process(&mut builder, "threads", "3", true));
    assert!(!process(&mut builder, "threads", "0", true));
    assert!(!process(&mut builder, "threads", "three", true));
    assert!(!process(&mut builder, "no_such_option", "3", true));
    assert_eq!(*builder.options.threads, 3);
}

#[test]
fn program_built_for_no_plan_keeps_the_choice() {
    let mut builder = builder();
    assert!(process(&mut builder, "plan", "SemiSpace", true));
    openjdk_gc_init(&mut builder, no_features());
    assert_eq!(*builder.options.plan, MmtkPlan::SemiSpace);
    assert_eq!(no_features().forced_plan(), None);
}

#[test]
fn program_built_for_a_plan_uses_it() {
    let none = no_features();
    let cases = [
        (BuildFeatures { nogc: true, ..none }, MmtkPlan::NoGC),
        (BuildFeatures { semispace: true, ..none }, MmtkPlan::SemiSpace),
        (BuildFeatures { gencopy: true, ..none }, MmtkPlan::GenCopy),
        (BuildFeatures { marksweep: true, ..none }, MmtkPlan::MarkSweep),
        (BuildFeatures { markcompact: true, ..none }, MmtkPlan::MarkCompact),
        (BuildFeatures { pageprotect: true, ..none }, MmtkPlan::PageProtect),
        (BuildFeatures { immix: true, ..none }, MmtkPlan::Immix),
        (BuildFeatures { genimmix: true, ..none }, MmtkPlan::GenImmix),
        (BuildFeatures { stickyimmix: true, ..none }, MmtkPlan::StickyImmix),
        (BuildFeatures { compressor: true, ..none }, MmtkPlan::Compressor),
    ];
    let mut builder = builder();
    for (features, expected) in cases {
        openjdk_gc_init(&mut builder, features);
        assert_eq!(*builder.options.plan, expected);
    }
}

#[test]
fn first_of_several_plans_takes_precedence() {
    let features = BuildFeatures { compressor: true, pageprotect: true, genimmix: true, ..no_features() };
    assert_eq!(features.forced_plan(), Some(PlanSelector::PageProtect));
    let features = BuildFeatures { immix: true, genimmix: true, ..no_features() };
    assert_eq!(features.forced_plan(), Some(PlanSelector::Immix));
}

#[test]
fn heap_size_is_set_by_a_text() {
    let mut builder = builder();
    let fixed = [
        ("FixedHeapSize:4096", 4096),
        ("FixedHeapSize:1", 1),
        ("FixedHeapSize:007", 7),
        ("FixedHeapSize:4k", 0x1000),
        ("FixedHeapSize:4K", 0x1000),
        ("FixedHeapSize:3m", 0x30_0000),
        ("FixedHeapSize:3M", 0x30_0000),
        ("FixedHeapSize:1g", 0x4000_0000),
        ("FixedHeapSize:1G", 0x4000_0000),
    ];
    for (text, size) in fixed {
        assert!(process(&mut builder, "gc_trigger", text, true));
        assert_eq!(*builder.options.gc_trigger, GCTriggerSelector::FixedHeapSize(size));
    }
    let bounded = [
        ("DynamicHeapSize:1024,4096", 1024, 4096),
        ("DynamicHeapSize:5,5", 5, 5),
        ("DynamicHeapSize:0,1M", 0, 0x10_0000),
        ("DynamicHeapSize:1k,1024", 1024, 1024),
    ];
    for (text, min, max) in bounded {
        assert!(process(&mut builder, "gc_trigger", text, true));
        assert_eq!(*builder.options.gc_trigger, GCTriggerSelector::DynamicHeapSize(min, max));
    }
    for text in ["Delegated", "Delegated:what follows"] {
        assert!(process(&mut builder, "gc_trigger", text, true));
        assert_eq!(*builder.options.gc_trigger, GCTriggerSelector::Delegated);
    }
}

#[test]
fn greatest_heap_size_is_that_of_an_address() {
    let mut builder = builder();
    let text = format!("FixedHeapSize:{}", usize::MAX);
    assert!(process(&mut builder, "gc_trigger", &text, true));
    assert_eq!(*builder.options.gc_trigger, GCTriggerSelector::FixedHeapSize(usize::MAX));
    let text = format!("FixedHeapSize:{}", usize::MAX as u128 + 1);
    assert!(!process(&mut builder, "gc_trigger", &text, true));
    let text = format!("FixedHeapSize:{}t", usize::MAX);
    assert!(!process(&mut builder, "gc_trigger", &text, true));
    assert_eq!(*builder.options.gc_trigger, GCTriggerSelector::FixedHeapSize(usize::MAX));
}

#[test]
fn unfit_heap_size_is_refused() {
    let mut builder = builder();
    assert!(process(&mut builder, "gc_trigger", "FixedHeapSize:4096", true));
    let texts = [
        "",
        "4096",
        "FixedHeapSize",
        "FixedHeapSize:",
        "FixedHeapSize:0",
        "FixedHeapSize:0k",
        "FixedHeapSize:k",
        "FixedHeapSize:+4",
        "FixedHeapSize:-4",
        "FixedHeapSize: 4",
        "FixedHeapSize:4 ",
        "FixedHeapSize:4\n",
        "FixedHeapSize:4kb",
        "FixedHeapSize:4p",
        "FixedHeapSize:\u{664}",
        "fixedheapsize:4",
        "DynamicHeapSize:4",
        "DynamicHeapSize:4096,1024",
        "DynamicHeapSize:1,2,3",
        "DynamicHeapSize:1,",
        "DynamicHeapSize:,1",
        "delegated",
        " Delegated",
    ];
    for text in texts {
        assert!(!process(&mut builder, "gc_trigger", text, true));
    }
    assert_eq!(*builder.options.gc_trigger, GCTriggerSelector::FixedHeapSize(4096));
}

#[test]
fn nursery_is_set_by_a_text() {
    let mut builder = builder();
    for (text, size) in [("Fixed:8192", 8192), ("Fixed:+5", 5), ("Fixed:0", 0)] {
        assert!(process(&mut builder, "nursery", text, true));
        assert!(matches!(*builder.options.nursery, NurserySize::Fixed(n) if n == size));
    }
    let bounded = [
        ("Bounded:1,2", 1, 2),
        ("Bounded:3,+3", 3, 3),
        ("Bounded:_,_", DEFAULT_MIN_NURSERY, DEFAULT_MAX_NURSERY),
        ("Bounded:7,_", 7, DEFAULT_MAX_NURSERY),
        ("Bounded:_,3000000", DEFAULT_MIN_NURSERY, 3000000),
    ];
    for (text, least, most) in bounded {
        assert!(process(&mut builder, "nursery", text, true));
        let NurserySize::Bounded { min, max } = *builder.options.nursery else {
            panic!("{} does not set bounds", text);
        };
        assert_eq!((min, max), (least, most));
    }
    assert!(process(&mut builder, "nursery", "ProportionalBounded:0.25,0.5", true));
    let NurserySize::ProportionalBounded { min, max } = *builder.options.nursery else {
        panic!("the nursery is not in proportion to the heap");
    };
    assert_eq!((min, max), (0.25, 0.5));
}

#[test]
fn nursery_has_its_defaults() {
    assert_eq!(DEFAULT_MIN_NURSERY, 0x20_0000);
    let most: u64 = if usize::BITS == 64 { 0x100_0000_0000 } else { 0x200_0000 };
    assert_eq!(DEFAULT_MAX_NURSERY as u64, most);
}

#[test]
fn unfit_nursery_is_refused() {
    let mut builder = builder();
    assert!(process(&mut builder, "nursery", "Fixed:8192", true));
    let texts = [
        "",
        "8192",
        "Fixed",
        "Fixed:",
        "Fixed:_",
        "Fixed:8k",
        "Fixed:-1",
        "Fixed:1,2",
        "Fixed:1:2",
        "fixed:1",
        "Bounded:1",
        "Bounded:2,1",
        "Bounded:_,1",
        "Bounded:1,2,3",
        "Bounded:1,2:3",
        "Bounded:,",
        "ProportionalBounded:0.5",
        "ProportionalBounded:0.5,0.25",
        "ProportionalBounded:0,1",
        "ProportionalBounded:0.5,1.5",
        "Other:1",
    ];
    for text in texts {
        assert!(!process(&mut builder, "nursery", text, true));
    }
    assert!(matches!(*builder.options.nursery, NurserySize::Fixed(8192)));
}

#[test]
fn way_to_clear_memory_is_set_by_its_name() {
    let mut builder = builder();
    assert!(process(&mut builder, "nursery_zeroing", "Nontemporal", true));
    assert!(matches!(*builder.options.nursery_zeroing, NurseryZeroingOptions::Nontemporal));
    assert!(process(&mut builder, "nursery_zeroing", "Concurrent", true));
    assert!(matches!(*builder.options.nursery_zeroing, NurseryZeroingOptions::Concurrent));
    assert!(process(&mut builder, "nursery_zeroing", "Temporal", true));
    assert!(matches!(*builder.options.nursery_zeroing, NurseryZeroingOptions::Temporal));
    assert!(process(&mut builder, "nursery_zeroing", "Adaptive", true));
    for text in ["", "adaptive", "Adaptive ", "NonTemporal", "1"] {
        assert!(!process(&mut builder, "nursery_zeroing", text, true));
    }
    assert!(matches!(*builder.options.nursery_zeroing, NurseryZeroingOptions::Adaptive));
}

#[test]
fn addresses_are_set_by_their_digits() {
    let mut builder = builder();
    assert!(process(&mut builder, "vm_space_start", "4096", true));
    assert!(process(&mut builder, "side_metadata_base_address", "+8192", true));
    for name in ["vm_space_start", "side_metadata_base_address"] {
        for text in ["", "0x1000", "-1", "4k", "99999999999999999999999"] {
            assert!(!process(&mut builder, name, text, true));
        }
    }
    assert_eq!(builder.options.vm_space_start.as_usize(), 4096);
    assert_eq!(builder.options.side_metadata_base_address.as_usize(), 8192);
}

#[test]
fn huge_pages_can_always_be_turned_off_by_a_text() {
    let mut builder = builder();
    mmtk_builder_set_transparent_hugepages(&mut builder, true);
    assert!(process(&mut builder, "transparent_hugepages", "false", true));
    assert!(!*builder.options.transparent_hugepages);
    assert!(!process(&mut builder, "transparent_hugepages", "off", true));
}

#[test]
fn threads_are_bound_by_a_text() {
    let mut builder = builder();
    assert!(process(&mut builder, "thread_affinity", "AllInSet:3,0-1,3", true));
    let AffinityKind::AllInSet(processors) = &*builder.options.thread_affinity else {
        panic!("the threads do not share a set of processors");
    };
    assert_eq!(*processors, vec![0, 1, 3]);
    for text in ["AllInSet:", "AllInSet:1-0", "AllInSet:a", "Some:0", "0,,1"] {
        assert!(!process(&mut builder, "thread_affinity", text, true));
    }
    assert!(process(&mut builder, "thread_affinity", "", true));
    assert!(matches!(*builder.options.thread_affinity, AffinityKind::OsDefault));
}

#[test]
fn unfit_events_are_refused() {
    let mut builder = builder();
    for name in ["work_perf_events", "phase_perf_events"] {
        assert!(!process(&mut builder, name, "cycles", true));
        assert!(!process(&mut builder, name, "cycles,0,all", true));
    }
    assert!(!process(&mut builder, "perf_exclude_kernel", "maybe", true));
}

#[test]
fn other_options_need_no_count_of_processors() {
    let mut builder = builder();
    assert!(process(&mut builder, "threads", "2", false));
    assert!(process(&mut builder, "gc_trigger", "FixedHeapSize:1m", false));
    assert!(!process(&mut builder, "no_such_option", "", false));
    assert_eq!(*builder.options.threads, 2);
}
