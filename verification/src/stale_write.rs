//! Tracing of writes that put a stale reference into the heap while objects are being moved.
//!
//! Such a write is described by six texts. Filters pick the writes that are reported, and those
//! on which the program is aborted.

use crate::address::{Address, NullableObjectReference, ObjectReference};
use crate::budget::{configured_budget, settled, spent, TraceBudget};
use crate::text::{contains, hexadecimal, is_zero, occurs_in, push_hexadecimal};
use vstd::prelude::*;
use vstd::string::*;

verus! {

/// What the compressing plan says of a write, where that plan is the active one.
#[derive(Clone, Copy, Debug, PartialEq, Eq, Structural)]
pub struct CompactionState {
    /// Objects are being moved while the program runs.
    pub is_active: bool,
    /// The reference that is written leads to where an object has been moved from.
    pub is_stale: bool,
}

/// The texts that describe a write.
#[derive(Debug, PartialEq, Eq)]
pub struct WriteDescription {
    /// The object that is written to.
    pub src: String,
    /// What the virtual machine uses that object for, if it knows.
    pub src_role: Option<String>,
    /// The object to which the new reference leads.
    pub new: String,
    /// What the virtual machine uses that object for, if it knows.
    pub new_role: Option<String>,
    /// What the virtual machine uses the object for to which the old reference led, if there was
    /// one and it knows.
    pub old_role: Option<String>,
    /// The slot that is written to.
    pub slot: String,
}

/// Texts to look for in the description of a write. One that is absent is not looked for.
#[derive(Debug, PartialEq, Eq)]
pub struct WriteFilters {
    pub src: Option<String>,
    pub src_role: Option<String>,
    pub new: Option<String>,
    pub new_role: Option<String>,
    pub old_role: Option<String>,
    pub slot: Option<String>,
    /// Whether all texts have to be found, or one of them is enough.
    pub require_all: bool,
}

/// What follows from a write.
#[derive(Clone, Copy, Debug, PartialEq, Eq, Structural)]
pub struct WriteOutcome {
    /// The write is reported.
    pub report: bool,
    /// The program is aborted.
    pub abort: bool,
}

/// One of the texts to look for, and the text in which to look for it.
pub struct Criterion {
    pub needle: Option<Seq<char>>,
    pub text: Option<Seq<char>>,
}

impl Criterion {
    /// Whether there is something to look for.
    pub open spec fn is_set(self) -> bool {
        self.needle is Some
    }

    /// Whether there is something to look for, and it is found.
    pub open spec fn is_met(self) -> bool {
        self.needle is Some && self.text is Some && occurs_in(self.needle->0, self.text->0)
    }
}

/// The characters of a text that may be absent.
pub open spec fn chars_of(text: Option<String>) -> Option<Seq<char>> {
    match text {
        Some(text) => Some(text@),
        None => None,
    }
}

/// The criteria by which the filters pick a write.
pub open spec fn criteria(filters: WriteFilters, write: WriteDescription) -> Seq<Criterion> {
    seq![
        Criterion { needle: chars_of(filters.src), text: Some(write.src@) },
        Criterion { needle: chars_of(filters.src_role), text: chars_of(write.src_role) },
        Criterion { needle: chars_of(filters.new), text: Some(write.new@) },
        Criterion { needle: chars_of(filters.new_role), text: chars_of(write.new_role) },
        Criterion { needle: chars_of(filters.old_role), text: chars_of(write.old_role) },
        Criterion { needle: chars_of(filters.slot), text: Some(write.slot@) },
    ]
}

/// Whether there is something to look for.
pub open spec fn any_is_set(criteria: Seq<Criterion>) -> bool {
    exists|i: int| 0 <= i < criteria.len() && (#[trigger] criteria[i]).is_set()
}

/// Whether all is found that there is to look for.
pub open spec fn all_are_met(criteria: Seq<Criterion>) -> bool {
    forall|i: int|
        0 <= i < criteria.len() && (#[trigger] criteria[i]).is_set() ==> criteria[i].is_met()
}

/// Whether something is found that there is to look for.
pub open spec fn any_is_met(criteria: Seq<Criterion>) -> bool {
    exists|i: int| 0 <= i < criteria.len() && (#[trigger] criteria[i]).is_met()
}

/// Whether the filters pick the write. Filters that look for nothing pick nothing.
pub open spec fn picks(filters: WriteFilters, write: WriteDescription) -> bool {
    let criteria = criteria(filters, write);
    if filters.require_all {
        any_is_set(criteria) && all_are_met(criteria)
    } else {
        any_is_met(criteria)
    }
}

/// Whether the write is to be reported. Filters that look for nothing let all writes through,
/// unless all texts have to be found.
pub open spec fn is_traced(filters: WriteFilters, write: WriteDescription) -> bool {
    picks(filters, write) || (!filters.require_all && !any_is_set(criteria(filters, write)))
}

/// Whether `needle` is there and occurs in `text`.
fn is_found_in(needle: &Option<String>, text: &str) -> (found: bool)
    ensures
        found == (Criterion { needle: chars_of(*needle), text: Some(text@) }).is_met(),
{
    match needle {
        Some(needle) => contains(text, needle.as_str()),
        None => false,
    }
}

/// Whether `needle` and `text` are there and the one occurs in the other.
fn is_found(needle: &Option<String>, text: &Option<String>) -> (found: bool)
    ensures
        found == (Criterion { needle: chars_of(*needle), text: chars_of(*text) }).is_met(),
{
    match text {
        Some(text) => is_found_in(needle, text.as_str()),
        None => false,
    }
}

impl WriteFilters {
    /// Whether all texts have to be found, by the setting that says so: it is there, and it is
    /// not zero.
    pub fn requires_all(setting: Option<&str>) -> (all: bool)
        ensures
            all == (setting is Some && setting->0@ != seq!['0']),
    {
        match setting {
            Some(setting) => !is_zero(setting),
            None => false,
        }
    }

    /// Whether the filters look for anything.
    fn is_any_set(&self) -> (set: bool)
        ensures
            forall|write: WriteDescription| set == any_is_set(#[trigger] criteria(*self, write)),
    {
        let set = self.src.is_some() || self.src_role.is_some() || self.new.is_some()
            || self.new_role.is_some() || self.old_role.is_some() || self.slot.is_some();
        proof {
            assert forall|write: WriteDescription|
                set == any_is_set(#[trigger] criteria(*self, write)) by {
                let c = criteria(*self, write);
                if set {
                    assert(c[0].is_set() || c[1].is_set() || c[2].is_set() || c[3].is_set()
                        || c[4].is_set() || c[5].is_set());
                }
            }
        }
        set
    }

    /// Whether all is found in the description for which the filters look.
    fn match_all(&self, write: &WriteDescription) -> (all: bool)
        ensures
            all == all_are_met(criteria(*self, *write)),
    {
        let all = (self.src.is_none() || is_found_in(&self.src, write.src.as_str())) && (
        self.src_role.is_none() || is_found(&self.src_role, &write.src_role)) && (
        self.new.is_none() || is_found_in(&self.new, write.new.as_str())) && (
        self.new_role.is_none() || is_found(&self.new_role, &write.new_role)) && (
        self.old_role.is_none() || is_found(&self.old_role, &write.old_role)) && (
        self.slot.is_none() || is_found_in(&self.slot, write.slot.as_str()));
        proof {
            let c = criteria(*self, *write);
            if all_are_met(c) {
                assert(c[0].is_set() ==> c[0].is_met());
                assert(c[1].is_set() ==> c[1].is_met());
                assert(c[2].is_set() ==> c[2].is_met());
                assert(c[3].is_set() ==> c[3].is_met());
                assert(c[4].is_set() ==> c[4].is_met());
                assert(c[5].is_set() ==> c[5].is_met());
            }
        }
        all
    }

    /// Whether something is found in the description for which the filters look.
    fn match_any(&self, write: &WriteDescription) -> (any: bool)
        ensures
            any == any_is_met(criteria(*self, *write)),
    {
        let any = is_found_in(&self.src, write.src.as_str()) || is_found(
            &self.src_role,
            &write.src_role,
        ) || is_found_in(&self.new, write.new.as_str()) || is_found(&self.new_role, &write.new_role)
            || is_found(&self.old_role, &write.old_role) || is_found_in(
            &self.slot,
            write.slot.as_str(),
        );
        proof {
            let c = criteria(*self, *write);
            if any {
                assert(c[0].is_met() || c[1].is_met() || c[2].is_met() || c[3].is_met()
                    || c[4].is_met() || c[5].is_met());
            }
        }
        any
    }

    /// Whether the write is to be reported.
    pub fn should_trace(&self, write: &WriteDescription) -> (trace: bool)
        ensures
            trace == is_traced(*self, *write),
    {
        if self.require_all {
            self.is_any_set() && self.match_all(write)
        } else if self.is_any_set() {
            self.match_any(write)
        } else {
            true
        }
    }

    /// Whether the program is to be aborted on the write.
    pub fn should_abort(&self, write: &WriteDescription) -> (abort: bool)
        ensures
            abort == picks(*self, *write),
    {
        if self.require_all {
            self.is_any_set() && self.match_all(write)
        } else {
            self.match_any(write)
        }
    }
}

/// The target of a write, if the write is to be looked at: there is a target, the compressing
/// plan is active and moves objects, and the target is stale.
pub fn stale_target(
    target: NullableObjectReference,
    compaction: Option<CompactionState>,
) -> (stale: Option<ObjectReference>)
    ensures
        stale == match compaction {
            Some(state) if state.is_active && state.is_stale => target.spec_to_option(),
            _ => None,
        },
        stale is Some <==> target.0 != 0 && compaction is Some && compaction->0.is_active
            && compaction->0.is_stale,
        stale matches Some(object) ==> object.0.0 == target.0,
{
    match (target.to_option(), compaction) {
        (Some(target), Some(state)) => if state.is_active && state.is_stale {
            Some(target)
        } else {
            None
        },
        _ => None,
    }
}

/// The text for the slot that is written to: its description, or its address where it has none.
pub fn slot_text(description: Option<String>, addr: Address) -> (text: String)
    ensures
        text@ == match description {
            Some(described) => described@,
            None => "slot_addr=0x"@ + hexadecimal(addr.at() as nat),
        },
{
    match description {
        Some(described) => described,
        None => {
            let mut text = String::new();
            text.append("slot_addr=0x");
            push_hexadecimal(&mut text, addr.0);
            assert(text@ =~= "slot_addr=0x"@ + hexadecimal(addr.at() as nat));
            text
        },
    }
}

/// Decides what follows from a stale write.
///
/// A write that the `trace` filters let through takes one report from the budget. If the budget
/// has none left, the write has no consequence at all. Otherwise the write is reported. Whether
/// reported or not let through, it aborts the program if the `abort` filters pick it.
pub fn trace_stale_uffd_write(
    write: &WriteDescription,
    trace: &WriteFilters,
    abort: &WriteFilters,
    configured: Option<&str>,
    budget: &mut TraceBudget,
) -> (outcome: WriteOutcome)
    ensures
        ({
            let configured = configured_budget(
                match configured {
                    Some(text) => Some(text@),
                    None => None,
                },
            );
            let available = settled(old(budget).remaining, configured);
            if is_traced(*trace, *write) {
                &&& outcome.report == (available > 0)
                &&& outcome.abort == (available > 0 && picks(*abort, *write))
                &&& final(budget).remaining == spent(available)
            } else {
                &&& !outcome.report
                &&& outcome.abort == picks(*abort, *write)
                &&& final(budget).remaining == available
            }
        }),
{
    budget.settle(configured);
    let traced = trace.should_trace(write);
    if traced && !budget.take() {
        return WriteOutcome { report: false, abort: false };
    }
    WriteOutcome { report: traced, abort: abort.should_abort(write) }
}

/// Where all texts have to be found, a write is picked if there is one to look for, and each of
/// the six that is there occurs in its own text of the description.
pub proof fn law_all_texts_have_to_occur(filters: WriteFilters, write: WriteDescription)
    requires
        filters.require_all,
    ensures
        picks(filters, write) <==> {
            &&& ({
                ||| filters.src is Some
                ||| filters.src_role is Some
                ||| filters.new is Some
                ||| filters.new_role is Some
                ||| filters.old_role is Some
                ||| filters.slot is Some
            })
            &&& filters.src is Some ==> occurs_in(filters.src->0@, write.src@)
            &&& filters.src_role is Some ==> write.src_role is Some && occurs_in(
                filters.src_role->0@,
                write.src_role->0@,
            )
            &&& filters.new is Some ==> occurs_in(filters.new->0@, write.new@)
            &&& filters.new_role is Some ==> write.new_role is Some && occurs_in(
                filters.new_role->0@,
                write.new_role->0@,
            )
            &&& filters.old_role is Some ==> write.old_role is Some && occurs_in(
                filters.old_role->0@,
                write.old_role->0@,
            )
            &&& filters.slot is Some ==> occurs_in(filters.slot->0@, write.slot@)
        },
{
    let c = criteria(filters, write);
    lemma_six_criteria(filters, write);
    if picks(filters, write) {
        let i = choose|i: int| 0 <= i < c.len() && (#[trigger] c[i]).is_set();
        assert(c[0].is_set() ==> c[0].is_met());
        assert(c[1].is_set() ==> c[1].is_met());
        assert(c[2].is_set() ==> c[2].is_met());
        assert(c[3].is_set() ==> c[3].is_met());
        assert(c[4].is_set() ==> c[4].is_met());
        assert(c[5].is_set() ==> c[5].is_met());
    }
}

/// Where one text is enough, a write is picked if one of the six that are there occurs in its own
/// text of the description.
pub proof fn law_one_text_has_to_occur(filters: WriteFilters, write: WriteDescription)
    requires
        !filters.require_all,
    ensures
        picks(filters, write) <==> {
            ||| filters.src is Some && occurs_in(filters.src->0@, write.src@)
            ||| filters.src_role is Some && write.src_role is Some && occurs_in(
                filters.src_role->0@,
                write.src_role->0@,
            )
            ||| filters.new is Some && occurs_in(filters.new->0@, write.new@)
            ||| filters.new_role is Some && write.new_role is Some && occurs_in(
                filters.new_role->0@,
                write.new_role->0@,
            )
            ||| filters.old_role is Some && write.old_role is Some && occurs_in(
                filters.old_role->0@,
                write.old_role->0@,
            )
            ||| filters.slot is Some && occurs_in(filters.slot->0@, write.slot@)
        },
{
    let c = criteria(filters, write);
    lemma_six_criteria(filters, write);
    if picks(filters, write) {
        let i = choose|i: int| 0 <= i < c.len() && (#[trigger] c[i]).is_met();
        assert(c[i].is_met());
    }
}

/// A write that is picked is traced. One that is not is traced only where there is no text to look
/// for, and one would be enough.
pub proof fn law_untouched_filters_trace_all(filters: WriteFilters, write: WriteDescription)
    ensures
        is_traced(filters, write) <==> picks(filters, write) || {
            &&& !filters.require_all
            &&& filters.src is None
            &&& filters.src_role is None
            &&& filters.new is None
            &&& filters.new_role is None
            &&& filters.old_role is None
            &&& filters.slot is None
        },
{
    lemma_six_criteria(filters, write);
}

/// Shows each of the six criteria.
proof fn lemma_six_criteria(filters: WriteFilters, write: WriteDescription)
    ensures
        criteria(filters, write).len() == 6,
        any_is_set(criteria(filters, write)) <==> {
            ||| filters.src is Some
            ||| filters.src_role is Some
            ||| filters.new is Some
            ||| filters.new_role is Some
            ||| filters.old_role is Some
            ||| filters.slot is Some
        },
{
    let c = criteria(filters, write);
    assert(c[0].is_set() == (filters.src is Some));
    assert(c[1].is_set() == (filters.src_role is Some));
    assert(c[2].is_set() == (filters.new is Some));
    assert(c[3].is_set() == (filters.new_role is Some));
    assert(c[4].is_set() == (filters.old_role is Some));
    assert(c[5].is_set() == (filters.slot is Some));
}

/// Filters that look for nothing pick nothing.
pub proof fn law_no_filter_picks_nothing(filters: WriteFilters, write: WriteDescription)
    requires
        !any_is_set(criteria(filters, write)),
    ensures
        !picks(filters, write),
{
}

/// The same filters let a write through for reporting if they pick it for an abort, and else
/// only where they look for nothing and one found text would be enough.
pub proof fn law_trace_and_abort_agree(filters: WriteFilters, write: WriteDescription)
    ensures
        picks(filters, write) ==> is_traced(filters, write),
        is_traced(filters, write) && !picks(filters, write) <==> !filters.require_all
            && !any_is_set(criteria(filters, write)),
{
    if !any_is_set(criteria(filters, write)) {
        law_no_filter_picks_nothing(filters, write);
    }
}

/// To require all texts narrows what is picked: what is picked then is also picked where one
/// text is enough.
pub proof fn law_requiring_all_picks_no_more(
    all: WriteFilters,
    any: WriteFilters,
    write: WriteDescription,
)
    requires
        all.require_all,
        any == (WriteFilters { require_all: false, ..all }),
    ensures
        picks(all, write) ==> picks(any, write),
        is_traced(all, write) ==> is_traced(any, write),
{
    let c = criteria(all, write);
    assert(criteria(any, write) == c);
    if picks(all, write) {
        let i = choose|i: int| 0 <= i < c.len() && (#[trigger] c[i]).is_set();
        assert(c[i].is_met());
    }
}

/// The empty text occurs in every text: to look for it is to ask whether the text is there.
pub proof fn law_empty_text_occurs_everywhere(text: Seq<char>)
    ensures
        occurs_in(Seq::empty(), text),
{
    assert(text.subrange(0, 0int + Seq::<char>::empty().len()) =~= Seq::<char>::empty());
}

} // verus!
