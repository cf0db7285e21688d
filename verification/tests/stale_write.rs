use mmtk_openjdk::address::{Address, NullableObjectReference, ObjectReference};
use mmtk_openjdk::budget::TraceBudget;
use mmtk_openjdk::stale_write::{
    slot_text, stale_target, trace_stale_uffd_write, CompactionState, WriteDescription, WriteFilters,
    WriteOutcome,
};

fn text(text: &str) -> Option<String> {
    Some(text.to_string())
}

fn write() -> WriteDescription {
    WriteDescription {
        src: "java.util.HashMap$Node".to_string(),
        src_role: text("class loader data"),
        new: "java.lang.String".to_string(),
        new_role: None,
        old_role: text("string table"),
        slot: "klass=Instance, offset=24".to_string(),
    }
}

fn no_filter(require_all: bool) -> WriteFilters {
    WriteFilters {
        src: None,
        src_role: None,
        new: None,
        new_role: None,
        old_role: None,
        slot: None,
        require_all,
    }
}

#[test]
fn setting_requires_all_unless_zero_or_absent() {
    assert!(!WriteFilters::requires_all(None));
    assert!(!WriteFilters::requires_all(Some("0")));
    assert!(WriteFilters::requires_all(Some("1")));
    assert!(WriteFilters::requires_all(Some("")));
    assert!(WriteFilters::requires_all(Some("00")));
    assert!(WriteFilters::requires_all(Some("false")));
}

#[test]
fn without_filters_all_is_traced_and_nothing_aborts() {
    assert!(no_filter(false).should_trace(&write()));
    assert!(!no_filter(false).should_abort(&write()));
    assert!(!no_filter(true).should_trace(&write()));
    assert!(!no_filter(true).should_abort(&write()));
}

#[test]
fn each_filter_looks_into_its_own_text() {
    let found = [
        WriteFilters { src: text("HashMap"), ..no_filter(false) },
        WriteFilters { src_role: text("loader"), ..no_filter(false) },
        WriteFilters { new: text("lang.String"), ..no_filter(false) },
        WriteFilters { old_role: text("table"), ..no_filter(false) },
        WriteFilters { slot: text("offset=24"), ..no_filter(false) },
    ];
    for filters in found {
        assert!(filters.should_trace(&write()));
        assert!(filters.should_abort(&write()));
    }
    let missed = [
        WriteFilters { src: text("String"), ..no_filter(false) },
        WriteFilters { src_role: text("table"), ..no_filter(false) },
        WriteFilters { new: text("HashMap"), ..no_filter(false) },
        WriteFilters { new_role: text(""), ..no_filter(false) },
        WriteFilters { old_role: text("loader"), ..no_filter(false) },
        WriteFilters { slot: text("offset=25"), ..no_filter(false) },
    ];
    for filters in missed {
        assert!(!filters.should_trace(&write()));
        assert!(!filters.should_abort(&write()));
    }
}

#[test]
fn role_of_the_new_object_is_looked_at() {
    let write = WriteDescription { new_role: text("mirror"), ..write() };
    assert!(WriteFilters { new_role: text("irr"), ..no_filter(false) }.should_abort(&write));
    assert!(!WriteFilters { new_role: text("mirrors"), ..no_filter(false) }.should_abort(&write));
}

#[test]
fn empty_text_is_found_in_every_text() {
    let filters = WriteFilters { src_role: text(""), ..no_filter(false) };
    assert!(filters.should_abort(&write()));
    assert!(!filters.should_abort(&WriteDescription { src_role: None, ..write() }));
}

#[test]
fn whole_text_and_its_ends_are_found() {
    for needle in ["java.lang.String", "java", "String", "g"] {
        let filters = WriteFilters { new: text(needle), ..no_filter(false) };
        assert!(filters.should_abort(&write()));
    }
    for needle in ["java.lang.Strings", "string", "ajav", "lang String"] {
        let filters = WriteFilters { new: text(needle), ..no_filter(false) };
        assert!(!filters.should_abort(&write()));
    }
}

#[test]
fn text_of_wide_characters_is_searched() {
    let write = WriteDescription { src: "Prüfgröße".to_string(), ..write() };
    assert!(WriteFilters { src: text("größ"), ..no_filter(false) }.should_abort(&write));
    assert!(!WriteFilters { src: text("grüß"), ..no_filter(false) }.should_abort(&write));
}

#[test]
fn one_found_text_is_enough_or_not() {
    let any = WriteFilters { src: text("HashMap"), new: text("HashMap"), ..no_filter(false) };
    assert!(any.should_trace(&write()));
    assert!(any.should_abort(&write()));
    let all = WriteFilters { src: text("HashMap"), new: text("HashMap"), ..no_filter(true) };
    assert!(!all.should_trace(&write()));
    assert!(!all.should_abort(&write()));
    let all = WriteFilters { src: text("HashMap"), new: text("String"), ..no_filter(true) };
    assert!(all.should_trace(&write()));
    assert!(all.should_abort(&write()));
    let all = WriteFilters { src: text("HashMap"), new_role: text(""), ..no_filter(true) };
    assert!(!all.should_trace(&write()));
    assert!(!all.should_abort(&write()));
}

#[test]
fn traced_write_is_reported_and_aborts() {
    let mut budget = TraceBudget::unset();
    let abort = WriteFilters { slot: text("offset=24"), ..no_filter(false) };
    let outcome = trace_stale_uffd_write(&write(), &no_filter(false), &abort, Some("2"), &mut budget);
    assert_eq!(outcome, WriteOutcome { report: true, abort: true });
    assert_eq!(budget.remaining, 1);
}

#[test]
fn write_that_is_not_traced_spends_nothing() {
    let mut budget = TraceBudget::unset();
    let trace = WriteFilters { src: text("String"), ..no_filter(false) };
    let abort = WriteFilters { src: text("Node"), ..no_filter(false) };
    let outcome = trace_stale_uffd_write(&write(), &trace, &abort, None, &mut budget);
    assert_eq!(outcome, WriteOutcome { report: false, abort: true });
    assert_eq!(budget.remaining, 64);
    let outcome = trace_stale_uffd_write(&write(), &trace, &no_filter(false), None, &mut budget);
    assert_eq!(outcome, WriteOutcome { report: false, abort: false });
    assert_eq!(budget.remaining, 64);
}

#[test]
fn spent_budget_keeps_the_program_alive() {
    let mut budget = TraceBudget { remaining: 0 };
    let abort = WriteFilters { slot: text("offset=24"), ..no_filter(false) };
    let outcome = trace_stale_uffd_write(&write(), &no_filter(false), &abort, None, &mut budget);
    assert_eq!(outcome, WriteOutcome { report: false, abort: false });
    assert_eq!(budget.remaining, -1);
    let outcome = trace_stale_uffd_write(&write(), &no_filter(false), &abort, None, &mut budget);
    assert_eq!(outcome, WriteOutcome { report: true, abort: true });
    assert_eq!(budget.remaining, 63);
}

#[test]
fn only_stale_targets_are_looked_at() {
    let target = NullableObjectReference(0x40);
    let found = Some(ObjectReference(Address(0x40)));
    let state = |is_active, is_stale| Some(CompactionState { is_active, is_stale });
    assert_eq!(stale_target(target, state(true, true)), found);
    assert_eq!(stale_target(target, state(true, false)), None);
    assert_eq!(stale_target(target, state(false, true)), None);
    assert_eq!(stale_target(target, None), None);
    assert_eq!(stale_target(NullableObjectReference(0), state(true, true)), None);
}

#[test]
fn slot_without_description_is_named_by_its_address() {
    assert_eq!(slot_text(text("klass=Instance, offset=8"), Address(0x10)), "klass=Instance, offset=8");
    assert_eq!(slot_text(text(""), Address(0x10)), "");
    for addr in [0, 9, 10, 15, 16, 0x1234, 0x9abc_def0, usize::MAX] {
        assert_eq!(slot_text(None, Address(addr)), format!("slot_addr=0x{:x}", addr));
    }
    assert_eq!(slot_text(None, Address(0xfe10)), "slot_addr=0xfe10");
}
