//! Budgets that limit how often something is reported.

use crate::text::{i32_value, parse_i32};
use vstd::prelude::*;

verus! {

/// The number of reports where nothing else is configured.
pub const DEFAULT_BUDGET: i32 = 64;

/// A budget that is not settled.
pub const UNSET_BUDGET: i32 = -1;

/// How many reports are still to be made. A negative number says that it is not settled.
#[derive(Clone, Copy, Debug, PartialEq, Eq, Structural)]
pub struct TraceBudget {
    pub remaining: i32,
}

/// The budget that `text` configures: the number that it writes, or the usual one.
pub open spec fn configured_budget(text: Option<Seq<char>>) -> i32 {
    match text {
        Some(text) => match i32_value(text) {
            Some(value) => value,
            None => DEFAULT_BUDGET,
        },
        None => DEFAULT_BUDGET,
    }
}

/// The budget that is settled: `budget`, or `configured` where `budget` is negative.
pub open spec fn settled(budget: i32, configured: i32) -> i32 {
    if budget < 0 {
        configured
    } else {
        budget
    }
}

/// The budget after one more report has come up. Below the least number lies the greatest.
pub open spec fn spent(budget: i32) -> i32 {
    if budget == i32::MIN {
        i32::MAX
    } else {
        (budget - 1) as i32
    }
}

impl TraceBudget {
    /// A budget that is not settled yet.
    pub fn unset() -> (budget: TraceBudget)
        ensures
            budget.remaining == UNSET_BUDGET,
            budget.remaining == -1,
    {
        TraceBudget { remaining: UNSET_BUDGET }
    }

    /// The usual budget.
    pub fn usual() -> (budget: TraceBudget)
        ensures
            budget.remaining == DEFAULT_BUDGET,
            budget.remaining == 64,
    {
        TraceBudget { remaining: DEFAULT_BUDGET }
    }

    /// Settles the budget by what is configured, unless it is settled.
    pub fn settle(&mut self, configured: Option<&str>)
        ensures
            final(self).remaining == settled(
                old(self).remaining,
                configured_budget(
                    match configured {
                        Some(text) => Some(text@),
                        None => None,
                    },
                ),
            ),
            old(self).remaining >= 0 ==> *final(self) == *old(self),
            old(self).remaining < 0 ==> final(self).remaining == match configured {
                Some(text) => match i32_value(text@) {
                    Some(value) => value as int,
                    None => 64,
                },
                None => 64,
            },
    {
        if self.remaining < 0 {
            let value = match configured {
                Some(text) => parse_i32(text),
                None => None,
            };
            self.remaining = match value {
                Some(value) => value,
                None => DEFAULT_BUDGET,
            };
        }
    }

    /// Spends one report, and says whether it may be made: the budget was positive.
    pub fn take(&mut self) -> (granted: bool)
        ensures
            granted == (old(self).remaining > 0),
            final(self).remaining == spent(old(self).remaining),
            old(self).remaining > i32::MIN ==> final(self).remaining == old(self).remaining - 1,
            old(self).remaining == i32::MIN ==> final(self).remaining == i32::MAX,
    {
        let granted = self.remaining > 0;
        if self.remaining == i32::MIN {
            self.remaining = i32::MAX;
        } else {
            self.remaining = self.remaining - 1;
        }
        granted
    }
}

/// A report takes one from the budget. Below the least number lies the greatest.
pub proof fn law_a_report_costs_one(budget: i32)
    ensures
        budget > i32::MIN ==> spent(budget) == budget - 1,
        spent(i32::MIN) == i32::MAX,
{
}

/// A budget that is not negative stays, whatever is configured; a negative one gives way.
pub proof fn law_only_a_negative_budget_is_settled(budget: i32, configured: i32)
    ensures
        budget >= 0 ==> settled(budget, configured) == budget,
        budget < 0 ==> settled(budget, configured) == configured,
{
}

/// A text that writes a number configures that number, and any other text, or none, configures
/// sixty-four reports.
pub proof fn law_a_number_configures_itself(text: Seq<char>)
    ensures
        i32_value(text) matches Some(value) ==> configured_budget(Some(text)) == value,
        i32_value(text) is None ==> configured_budget(Some(text)) == 64,
        configured_budget(None) == 64,
{
}

/// How many of `n` reports are made from `budget`, and the budget that is left.
pub open spec fn taken(budget: i32, n: nat) -> (nat, i32)
    decreases n,
{
    if n == 0 {
        (0, budget)
    } else {
        let (made, left) = taken(budget, (n - 1) as nat);
        (
            if left > 0 {
                made + 1
            } else {
                made
            },
            spent(left),
        )
    }
}

/// How many of `n` reports are made from `budget` where it is settled anew, by `configured`,
/// before each report, and the budget that is left.
pub open spec fn settled_and_taken(budget: i32, configured: i32, n: nat) -> (nat, i32)
    decreases n,
{
    if n == 0 {
        (0, budget)
    } else {
        let (made, left) = settled_and_taken(budget, configured, (n - 1) as nat);
        (
            if settled(left, configured) > 0 {
                made + 1
            } else {
                made
            },
            spent(settled(left, configured)),
        )
    }
}

/// A budget lets as many reports through as it was made for, and then none. It holds until the
/// budget has run through all negative numbers.
pub proof fn law_budget_limits_reports(budget: i32, n: nat)
    requires
        0 <= budget,
        n <= budget - i32::MIN,
    ensures
        taken(budget, n).0 == if n <= budget {
            n as int
        } else {
            budget as int
        },
        taken(budget, n).1 == budget - n,
    decreases n,
{
    if n > 0 {
        law_budget_limits_reports(budget, (n - 1) as nat);
    }
}

/// Two stretches of reports, one after the other, make one stretch.
proof fn lemma_stretches_add_up(budget: i32, configured: i32, n: nat, m: nat)
    ensures
        ({
            let first = settled_and_taken(budget, configured, n);
            let second = settled_and_taken(first.1, configured, m);
            settled_and_taken(budget, configured, n + m) == (first.0 + second.0, second.1)
        }),
    decreases m,
{
    if m > 0 {
        lemma_stretches_add_up(budget, configured, n, (m - 1) as nat);
        assert((n + m - 1) as nat == n + (m - 1) as nat);
    }
}

/// Within one round, the reports are made up to what is configured, and the one that follows is
/// dropped.
proof fn lemma_one_round(configured: i32, n: nat)
    requires
        0 < configured,
        0 < n <= configured + 1,
    ensures
        settled_and_taken(UNSET_BUDGET, configured, n) == if n <= configured {
            (n, (configured - n) as i32)
        } else {
            (configured as nat, UNSET_BUDGET)
        },
    decreases n,
{
    if n > 1 {
        lemma_one_round(configured, (n - 1) as nat);
    } else {
        assert(settled_and_taken(UNSET_BUDGET, configured, 0) == (0nat, UNSET_BUDGET));
    }
}

/// A budget that is settled before each report comes round: as many reports as are configured
/// are made, the next one is dropped, and then it starts over.
pub proof fn law_settled_budget_comes_round(configured: i32, rounds: nat)
    requires
        0 < configured,
    ensures
        settled_and_taken(UNSET_BUDGET, configured, rounds * ((configured + 1) as nat)) == (
            rounds * (configured as nat),
            UNSET_BUDGET,
        ),
    decreases rounds,
{
    let round = (configured + 1) as nat;
    if rounds == 0 {
        assert(rounds * round == 0 && rounds * (configured as nat) == 0) by (nonlinear_arith)
            requires
                rounds == 0,
        ;
    } else {
        let before = (rounds - 1) as nat;
        law_settled_budget_comes_round(configured, before);
        lemma_one_round(configured, round);
        lemma_stretches_add_up(UNSET_BUDGET, configured, before * round, round);
        assert(before * round + round == rounds * round) by (nonlinear_arith)
            requires
                before + 1 == rounds,
        ;
        let each = configured as nat;
        assert(before * each + each == rounds * each) by (nonlinear_arith)
            requires
                before + 1 == rounds,
        ;
    }
}

/// Where no report is configured, none is made. The least number is left out: one below it lies
/// the greatest.
pub proof fn law_no_budget_no_report(configured: i32, n: nat)
    requires
        i32::MIN < configured <= 0,
    ensures
        settled_and_taken(UNSET_BUDGET, configured, n).0 == 0,
        settled_and_taken(UNSET_BUDGET, configured, n).1 < 0,
    decreases n,
{
    if n > 0 {
        law_no_budget_no_report(configured, (n - 1) as nat);
    }
}

} // verus!
