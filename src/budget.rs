use vstd::prelude::*;

use crate::date::today;
use crate::expense::Expense;
use crate::money::Money;
use crate::revenue::Revenue;

verus! {

/// The expenses of `s` dated in `month`, in their order.
pub open spec fn expenses_in_month(s: Seq<Expense>, month: int) -> Seq<Expense>
    decreases s.len(),
{
    if s.len() == 0 {
        Seq::empty()
    } else {
        let rest = expenses_in_month(s.drop_last(), month);
        if s.last().spec_time().spec_month() == month {
            rest.push(s.last())
        } else {
            rest
        }
    }
}

/// The revenues of `s` dated in `month`, in their order.
pub open spec fn revenues_in_month(s: Seq<Revenue>, month: int) -> Seq<Revenue>
    decreases s.len(),
{
    if s.len() == 0 {
        Seq::empty()
    } else {
        let rest = revenues_in_month(s.drop_last(), month);
        if s.last().spec_time().spec_month() == month {
            rest.push(s.last())
        } else {
            rest
        }
    }
}

/// Sum in cents of the amounts of the expenses of `s` dated in `month`.
pub open spec fn expense_total(s: Seq<Expense>, month: int) -> int
    decreases s.len(),
{
    if s.len() == 0 {
        0
    } else {
        expense_total(s.drop_last(), month) + if s.last().spec_time().spec_month() == month {
            s.last().spec_amount()@
        } else {
            0
        }
    }
}

/// Sum in cents of the amounts of the revenues of `s` dated in `month`.
pub open spec fn revenue_total(s: Seq<Revenue>, month: int) -> int
    decreases s.len(),
{
    if s.len() == 0 {
        0
    } else {
        revenue_total(s.drop_last(), month) + if s.last().spec_time().spec_month() == month {
            s.last().spec_amount()@
        } else {
            0
        }
    }
}

/// What is left of `month`'s revenues once its expenses are paid, in cents.
pub open spec fn saving_of(expenses: Seq<Expense>, revenues: Seq<Revenue>, month: int) -> int {
    revenue_total(revenues, month) - expense_total(expenses, month)
}

/// The entries of one person's budget: expenses and revenues, each in the
/// order they were added.
#[derive(Debug, Clone)]
pub struct Budget {
    expenses: Vec<Expense>,
    revenues: Vec<Revenue>,
}

impl Budget {
    pub closed spec fn spec_expenses(self) -> Seq<Expense> {
        self.expenses@
    }

    pub closed spec fn spec_revenues(self) -> Seq<Revenue> {
        self.revenues@
    }

    /// The saving of `month` fits in a money value.
    pub open spec fn saving_fits(self, month: int) -> bool {
        i64::MIN <= saving_of(self.spec_expenses(), self.spec_revenues(), month) <= i64::MAX
    }

    /// An empty budget.
    pub fn new() -> (r: Budget)
        ensures
            r.spec_expenses().len() == 0,
            r.spec_revenues().len() == 0,
    {
        Budget { expenses: Vec::new(), revenues: Vec::new() }
    }

    /// A budget holding these entries as they are.
    pub fn build(expenses: Vec<Expense>, revenues: Vec<Revenue>) -> (r: Budget)
        ensures
            r.spec_expenses() == expenses@,
            r.spec_revenues() == revenues@,
    {
        Budget { expenses, revenues }
    }

    /// Adds a non-recurring expense dated today; an empty name or a negative
    /// amount adds nothing.
    pub fn new_expense(&mut self, name: &str, amount: Money)
        ensures
            final(self).spec_revenues() == old(self).spec_revenues(),
            name@.len() == 0 || amount@ < 0 ==> final(self).spec_expenses()
                == old(self).spec_expenses(),
            name@.len() > 0 && amount@ >= 0 ==> {
                let e = final(self).spec_expenses().last();
                &&& final(self).spec_expenses().drop_last() == old(self).spec_expenses()
                &&& final(self).spec_expenses().len() == old(self).spec_expenses().len() + 1
                &&& e.spec_name() == name@
                &&& e.spec_amount() == amount
                &&& !e.spec_recurring()
                &&& e.spec_time().wf()
            },
    {
        match Expense::new(amount, name, false) {
            Ok(expense) => {
                self.expenses.push(expense);
                proof {
                    assert(self.expenses@.drop_last() =~= old(self).expenses@);
                }
            },
            Err(_) => {},
        }
    }

    /// Adds a non-recurring revenue dated today; an empty name or a negative
    /// amount adds nothing.
    pub fn new_revenue(&mut self, name: &str, amount: Money)
        ensures
            final(self).spec_expenses() == old(self).spec_expenses(),
            name@.len() == 0 || amount@ < 0 ==> final(self).spec_revenues()
                == old(self).spec_revenues(),
            name@.len() > 0 && amount@ >= 0 ==> {
                let e = final(self).spec_revenues().last();
                &&& final(self).spec_revenues().drop_last() == old(self).spec_revenues()
                &&& final(self).spec_revenues().len() == old(self).spec_revenues().len() + 1
                &&& e.spec_name() == name@
                &&& e.spec_amount() == amount
                &&& !e.spec_recurring()
                &&& e.spec_time().wf()
            },
    {
        match Revenue::new(amount, false, name) {
            Ok(revenue) => {
                self.revenues.push(revenue);
                proof {
                    assert(self.revenues@.drop_last() =~= old(self).revenues@);
                }
            },
            Err(_) => {},
        }
    }

    /// Removes the expense at `idx`; those after it move one place left.
    pub fn remove_expense(&mut self, idx: usize)
        requires
            idx < old(self).spec_expenses().len(),
        ensures
            final(self).spec_expenses() == old(self).spec_expenses().remove(idx as int),
            final(self).spec_revenues() == old(self).spec_revenues(),
    {
        self.expenses.remove(idx);
    }

    /// Removes the revenue at `idx`; those after it move one place left.
    pub fn remove_revenue(&mut self, idx: usize)
        requires
            idx < old(self).spec_revenues().len(),
        ensures
            final(self).spec_revenues() == old(self).spec_revenues().remove(idx as int),
            final(self).spec_expenses() == old(self).spec_expenses(),
    {
        self.revenues.remove(idx);
    }

    pub fn expenses(&self) -> (r: &Vec<Expense>)
        ensures
            r@ == self.spec_expenses(),
    {
        &self.expenses
    }

    pub fn revenues(&self) -> (r: &Vec<Revenue>)
        ensures
            r@ == self.spec_revenues(),
    {
        &self.revenues
    }

    /// The expenses dated in `month` (1 to 12) of any year, in their order;
    /// `None` when there are none or `month` is out of range.
    pub fn get_month_expense(&self, month: u32) -> (r: Option<Vec<&Expense>>)
        ensures
            !(1 <= month <= 12) ==> r is None,
            1 <= month <= 12 ==> {
                let found = expenses_in_month(self.spec_expenses(), month as int);
                &&& found.len() == 0 ==> r is None
                &&& found.len() > 0 ==> (r matches Some(v) && v@.len() == found.len() && forall|k: int| 0 <= k < found.len() ==> *v@[k] == found[k])
            },
    {
        if !(1 <= month && month <= 12) {
            return None;
        }
        let mut found: Vec<&Expense> = Vec::new();
        let mut i: usize = 0;
        while i < self.expenses.len()
            invariant
                i <= self.expenses@.len(),
                found@.len() == expenses_in_month(self.expenses@.take(i as int), month as int).len(),
                forall|k: int|
                    0 <= k < found@.len() ==> *found@[k] == expenses_in_month(
                        self.expenses@.take(i as int),
                        month as int,
                    )[k],
            decreases self.expenses@.len() - i,
        {
            let e = &self.expenses[i];
            proof {
                assert(self.expenses@.take(i + 1).drop_last() =~= self.expenses@.take(i as int));
            }
            if e.time().month() == month {
                found.push(e);
            }
            i = i + 1;
        }
        proof {
            assert(self.expenses@.take(i as int) =~= self.expenses@);
        }
        if found.len() == 0 {
            None
        } else {
            Some(found)
        }
    }

    /// The revenues dated in `month` (1 to 12) of any year, in their order;
    /// `None` when there are none or `month` is out of range.
    pub fn get_month_revenue(&self, month: u32) -> (r: Option<Vec<&Revenue>>)
        ensures
            !(1 <= month <= 12) ==> r is None,
            1 <= month <= 12 ==> {
                let found = revenues_in_month(self.spec_revenues(), month as int);
                &&& found.len() == 0 ==> r is None
                &&& found.len() > 0 ==> (r matches Some(v) && v@.len() == found.len() && forall|k: int| 0 <= k < found.len() ==> *v@[k] == found[k])
            },
    {
        if !(1 <= month && month <= 12) {
            return None;
        }
        let mut found: Vec<&Revenue> = Vec::new();
        let mut i: usize = 0;
        while i < self.revenues.len()
            invariant
                i <= self.revenues@.len(),
                found@.len() == revenues_in_month(self.revenues@.take(i as int), month as int).len(),
                forall|k: int|
                    0 <= k < found@.len() ==> *found@[k] == revenues_in_month(
                        self.revenues@.take(i as int),
                        month as int,
                    )[k],
            decreases self.revenues@.len() - i,
        {
            let e = &self.revenues[i];
            proof {
                assert(self.revenues@.take(i + 1).drop_last() =~= self.revenues@.take(i as int));
            }
            if e.time().month() == month {
                found.push(e);
            }
            i = i + 1;
        }
        proof {
            assert(self.revenues@.take(i as int) =~= self.revenues@);
        }
        if found.len() == 0 {
            None
        } else {
            Some(found)
        }
    }

    /// Revenues minus expenses of the entries dated in `month` of any year.
    pub fn monthly_saving(&self, month: u32) -> (r: Money)
        requires
            self.saving_fits(month as int),
        ensures
            r@ == saving_of(self.spec_expenses(), self.spec_revenues(), month as int),
    {
        let spent = self.expense_sum(month);
        let earned = self.revenue_sum(month);
        Money::new((earned - spent) as i64)
    }

    /// Revenues minus expenses of the entries dated in the present month, of
    /// any year.
    pub fn current_monthly_saving(&self) -> (r: Money)
        requires
            forall|m: int| 1 <= m <= 12 ==> self.saving_fits(m),
        ensures
            exists|m: int|
                1 <= m <= 12 && r@ == saving_of(self.spec_expenses(), self.spec_revenues(), m),
    {
        let month = today().month();
        self.monthly_saving(month)
    }

    fn expense_sum(&self, month: u32) -> (r: i128)
        ensures
            r == expense_total(self.spec_expenses(), month as int),
            -0x8000_0000_0000_0000 * self.spec_expenses().len() <= r
                <= 0x8000_0000_0000_0000 * self.spec_expenses().len(),
    {
        let mut acc: i128 = 0;
        let mut i: usize = 0;
        while i < self.expenses.len()
            invariant
                i <= self.expenses@.len(),
                acc == expense_total(self.expenses@.take(i as int), month as int),
                -0x8000_0000_0000_0000 * i <= acc <= 0x8000_0000_0000_0000 * i,
            decreases self.expenses@.len() - i,
        {
            let e = &self.expenses[i];
            proof {
                assert(self.expenses@.take(i + 1).drop_last() =~= self.expenses@.take(i as int));
                assert(0x8000_0000_0000_0000 * (i + 1) <= 0x8000_0000_0000_0000 * 0x1_0000_0000_0000_0000)
                    by (nonlinear_arith)
                    requires
                        i < 0x1_0000_0000_0000_0000,
                ;
            }
            if e.time().month() == month {
                acc = acc + e.amount().value() as i128;
            }
            i = i + 1;
        }
        proof {
            assert(self.expenses@.take(i as int) =~= self.expenses@);
        }
        acc
    }

    fn revenue_sum(&self, month: u32) -> (r: i128)
        ensures
            r == revenue_total(self.spec_revenues(), month as int),
            -0x8000_0000_0000_0000 * self.spec_revenues().len() <= r
                <= 0x8000_0000_0000_0000 * self.spec_revenues().len(),
    {
        let mut acc: i128 = 0;
        let mut i: usize = 0;
        while i < self.revenues.len()
            invariant
                i <= self.revenues@.len(),
                acc == revenue_total(self.revenues@.take(i as int), month as int),
                -0x8000_0000_0000_0000 * i <= acc <= 0x8000_0000_0000_0000 * i,
            decreases self.revenues@.len() - i,
        {
            let e = &self.revenues[i];
            proof {
                assert(self.revenues@.take(i + 1).drop_last() =~= self.revenues@.take(i as int));
                assert(0x8000_0000_0000_0000 * (i + 1) <= 0x8000_0000_0000_0000 * 0x1_0000_0000_0000_0000)
                    by (nonlinear_arith)
                    requires
                        i < 0x1_0000_0000_0000_0000,
                ;
            }
            if e.time().month() == month {
                acc = acc + e.amount().value() as i128;
            }
            i = i + 1;
        }
        proof {
            assert(self.revenues@.take(i as int) =~= self.revenues@);
        }
        acc
    }
}

impl PartialEq for Budget {
    fn eq(&self, other: &Budget) -> (r: bool) {
        self.expenses == other.expenses && self.revenues == other.revenues
    }
}

impl vstd::std_specs::cmp::PartialEqSpecImpl for Budget {
    open spec fn obeys_eq_spec() -> bool {
        true
    }

    open spec fn eq_spec(&self, other: &Budget) -> bool {
        &&& self.spec_expenses().len() == other.spec_expenses().len()
        &&& forall|i: int|
            #![auto]
            0 <= i < self.spec_expenses().len() ==> self.spec_expenses()[i].same_as(
                other.spec_expenses()[i],
            )
        &&& self.spec_revenues().len() == other.spec_revenues().len()
        &&& forall|i: int|
            #![auto]
            0 <= i < self.spec_revenues().len() ==> self.spec_revenues()[i].same_as(
                other.spec_revenues()[i],
            )
    }
}

/// Removing the first of a run of expenses moves each later one a place to
/// the left and keeps their order.
pub proof fn lemma_remove_first_shifts(s: Seq<Expense>)
    requires
        s.len() > 0,
    ensures
        s.remove(0).len() == s.len() - 1,
        forall|k: int| 0 <= k < s.len() - 1 ==> #[trigger] s.remove(0)[k] == s[k + 1],
{
}

} // verus!
