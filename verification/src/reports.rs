//! Which of the reports that a scan asks for are made.
//!
//! Each kind of report has a budget of its own.

use crate::budget::{law_budget_limits_reports, spent, taken, TraceBudget, DEFAULT_BUDGET};
use crate::object_scanning::ScanAction;
use vstd::prelude::*;

verus! {

/// The kinds of report.
#[derive(Clone, Copy, Debug, PartialEq, Eq, Structural)]
pub enum ReportKind {
    Discovered,
    Rewritten,
    Preserved,
}

/// The kind of report for which a step of a scan asks, if it asks for one.
pub open spec fn report_kind<const COMPRESSED: bool>(action: ScanAction<COMPRESSED>) -> Option<
    ReportKind,
> {
    match action {
        ScanAction::ReportDiscovered(_) => Some(ReportKind::Discovered),
        ScanAction::ReportRewritten(_) => Some(ReportKind::Rewritten),
        ScanAction::ReportPreserved(_) => Some(ReportKind::Preserved),
        _ => None,
    }
}

/// How many reports of each kind are still to be made.
#[derive(Clone, Copy, Debug, PartialEq, Eq, Structural)]
pub struct ReportBudgets {
    pub discovered: TraceBudget,
    pub rewritten: TraceBudget,
    pub preserved: TraceBudget,
}

impl ReportBudgets {
    /// The usual budget for each kind.
    pub open spec fn spec_usual() -> ReportBudgets {
        let usual = TraceBudget { remaining: DEFAULT_BUDGET };
        ReportBudgets { discovered: usual, rewritten: usual, preserved: usual }
    }

    /// The budget for one kind.
    pub open spec fn of(self, kind: ReportKind) -> i32 {
        match kind {
            ReportKind::Discovered => self.discovered.remaining,
            ReportKind::Rewritten => self.rewritten.remaining,
            ReportKind::Preserved => self.preserved.remaining,
        }
    }

    /// The budgets after one more report of a kind has come up.
    pub open spec fn after(self, kind: ReportKind) -> ReportBudgets {
        let less = TraceBudget { remaining: spent(self.of(kind)) };
        match kind {
            ReportKind::Discovered => ReportBudgets { discovered: less, ..self },
            ReportKind::Rewritten => ReportBudgets { rewritten: less, ..self },
            ReportKind::Preserved => ReportBudgets { preserved: less, ..self },
        }
    }

    /// The usual budget for each kind.
    pub fn usual() -> (budgets: ReportBudgets)
        ensures
            budgets == ReportBudgets::spec_usual(),
            budgets.discovered.remaining == 64,
            budgets.rewritten.remaining == 64,
            budgets.preserved.remaining == 64,
    {
        ReportBudgets {
            discovered: TraceBudget::usual(),
            rewritten: TraceBudget::usual(),
            preserved: TraceBudget::usual(),
        }
    }

    /// Whether the step of a scan is a report that is to be made. A report takes one from the
    /// budget of its kind.
    pub fn take<const COMPRESSED: bool>(&mut self, action: &ScanAction<COMPRESSED>) -> (granted:
        bool)
        ensures
            match report_kind(*action) {
                Some(kind) => {
                    &&& granted == (old(self).of(kind) > 0)
                    &&& *final(self) == old(self).after(kind)
                },
                None => !granted && *final(self) == *old(self),
            },
            action is ReportDiscovered ==> {
                &&& granted == (old(self).discovered.remaining > 0)
                &&& old(self).discovered.remaining > i32::MIN ==> final(self).discovered.remaining
                    == old(self).discovered.remaining - 1
                &&& old(self).discovered.remaining == i32::MIN ==> final(self).discovered.remaining
                    == i32::MAX
                &&& final(self).rewritten == old(self).rewritten
                &&& final(self).preserved == old(self).preserved
            },
            action is ReportRewritten ==> {
                &&& granted == (old(self).rewritten.remaining > 0)
                &&& old(self).rewritten.remaining > i32::MIN ==> final(self).rewritten.remaining
                    == old(self).rewritten.remaining - 1
                &&& old(self).rewritten.remaining == i32::MIN ==> final(self).rewritten.remaining
                    == i32::MAX
                &&& final(self).discovered == old(self).discovered
                &&& final(self).preserved == old(self).preserved
            },
            action is ReportPreserved ==> {
                &&& granted == (old(self).preserved.remaining > 0)
                &&& old(self).preserved.remaining > i32::MIN ==> final(self).preserved.remaining
                    == old(self).preserved.remaining - 1
                &&& old(self).preserved.remaining == i32::MIN ==> final(self).preserved.remaining
                    == i32::MAX
                &&& final(self).discovered == old(self).discovered
                &&& final(self).rewritten == old(self).rewritten
            },
            !(action is ReportDiscovered || action is ReportRewritten || action is ReportPreserved)
                ==> !granted && *final(self) == *old(self),
    {
        match action {
            ScanAction::ReportDiscovered(_) => self.discovered.take(),
            ScanAction::ReportRewritten(_) => self.rewritten.take(),
            ScanAction::ReportPreserved(_) => self.preserved.take(),
            _ => false,
        }
    }
}

/// A step is a report of one of three kinds, or none.
pub proof fn law_reports_have_their_kinds<const COMPRESSED: bool>(action: ScanAction<COMPRESSED>)
    ensures
        report_kind(action) == Some(ReportKind::Discovered) <==> action is ReportDiscovered,
        report_kind(action) == Some(ReportKind::Rewritten) <==> action is ReportRewritten,
        report_kind(action) == Some(ReportKind::Preserved) <==> action is ReportPreserved,
        report_kind(action) is None <==> !(action is ReportDiscovered || action is ReportRewritten
            || action is ReportPreserved),
{
}

/// A report of one kind takes one from the budget of its kind, and leaves the others.
pub proof fn law_a_report_leaves_other_budgets(
    budgets: ReportBudgets,
    kind: ReportKind,
    other: ReportKind,
)
    ensures
        kind != other ==> budgets.after(kind).of(other) == budgets.of(other),
        budgets.of(kind) > i32::MIN ==> budgets.after(kind).of(kind) == budgets.of(kind) - 1,
        budgets.of(ReportKind::Discovered) == budgets.discovered.remaining,
        budgets.of(ReportKind::Rewritten) == budgets.rewritten.remaining,
        budgets.of(ReportKind::Preserved) == budgets.preserved.remaining,
{
}

/// The budgets after the steps `actions`.
pub open spec fn budgets_after<const COMPRESSED: bool>(
    budgets: ReportBudgets,
    actions: Seq<ScanAction<COMPRESSED>>,
) -> ReportBudgets
    decreases actions.len(),
{
    if actions.len() == 0 {
        budgets
    } else {
        let before = budgets_after(budgets, actions.drop_last());
        match report_kind(actions.last()) {
            Some(kind) => before.after(kind),
            None => before,
        }
    }
}

/// How many reports of a kind the steps `actions` ask for.
pub open spec fn asked<const COMPRESSED: bool>(
    actions: Seq<ScanAction<COMPRESSED>>,
    kind: ReportKind,
) -> nat
    decreases actions.len(),
{
    if actions.len() == 0 {
        0
    } else {
        let before = asked(actions.drop_last(), kind);
        if report_kind(actions.last()) == Some(kind) {
            before + 1
        } else {
            before
        }
    }
}

/// How many reports of a kind are made in the steps `actions`.
pub open spec fn made<const COMPRESSED: bool>(
    budgets: ReportBudgets,
    actions: Seq<ScanAction<COMPRESSED>>,
    kind: ReportKind,
) -> nat
    decreases actions.len(),
{
    if actions.len() == 0 {
        0
    } else {
        let before = made(budgets, actions.drop_last(), kind);
        if report_kind(actions.last()) == Some(kind) && budgets_after(
            budgets,
            actions.drop_last(),
        ).of(kind) > 0 {
            before + 1
        } else {
            before
        }
    }
}

/// Each kind of report is counted as if there were no other.
proof fn lemma_kinds_are_apart<const COMPRESSED: bool>(
    budgets: ReportBudgets,
    actions: Seq<ScanAction<COMPRESSED>>,
    kind: ReportKind,
)
    ensures
        (made(budgets, actions, kind), budgets_after(budgets, actions).of(kind)) == taken(
            budgets.of(kind),
            asked(actions, kind),
        ),
    decreases actions.len(),
{
    if actions.len() > 0 {
        lemma_kinds_are_apart(budgets, actions.drop_last(), kind);
    }
}

/// Of each kind of report, as many are made as the usual budget allows, whatever other reports
/// come up. It holds until the budget has run through all negative numbers.
pub proof fn law_each_kind_has_its_own_budget<const COMPRESSED: bool>(
    actions: Seq<ScanAction<COMPRESSED>>,
    kind: ReportKind,
)
    requires
        asked(actions, kind) <= DEFAULT_BUDGET - i32::MIN,
    ensures
        made(ReportBudgets::spec_usual(), actions, kind) == if asked(actions, kind)
            <= DEFAULT_BUDGET {
            asked(actions, kind) as int
        } else {
            DEFAULT_BUDGET as int
        },
{
    lemma_kinds_are_apart(ReportBudgets::spec_usual(), actions, kind);
    law_budget_limits_reports(DEFAULT_BUDGET, asked(actions, kind));
}

} // verus!
