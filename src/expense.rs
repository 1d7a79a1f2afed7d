use vstd::prelude::*;

use crate::date::{today, Date};
use crate::money::Money;

verus! {

/// Why an expense could not be made or changed.
#[derive(Debug, Clone, Copy, PartialEq, Eq, Structural)]
pub enum ExpenseError {
    EmptyName,
    NegativeValue,
}

/// An outflow of money: a named, non-negative amount on a date.
#[derive(Debug, Clone)]
pub struct Expense {
    name: String,
    amount: Money,
    is_recurring: bool,
    time: Date,
}

impl Expense {
    pub closed spec fn spec_name(self) -> Seq<char> {
        self.name@
    }

    pub closed spec fn spec_amount(self) -> Money {
        self.amount
    }

    pub closed spec fn spec_recurring(self) -> bool {
        self.is_recurring
    }

    pub closed spec fn spec_time(self) -> Date {
        self.time
    }

    /// All four fields agree.
    pub open spec fn same_as(self, other: Expense) -> bool {
        &&& self.spec_name() == other.spec_name()
        &&& self.spec_amount() == other.spec_amount()
        &&& self.spec_recurring() == other.spec_recurring()
        &&& self.spec_time() == other.spec_time()
    }

    /// The name is not empty and the amount is not negative.
    pub open spec fn wf(self) -> bool {
        self.spec_name().len() > 0 && self.spec_amount()@ >= 0
    }

    /// A new expense dated today. An empty name is refused first, then a
    /// negative amount.
    pub fn new(amount: Money, name: &str, is_recurring: bool) -> (r: Result<Expense, ExpenseError>)
        ensures
            name@.len() == 0 ==> r == Err::<Expense, ExpenseError>(ExpenseError::EmptyName),
            name@.len() > 0 && amount@ < 0 ==> r == Err::<Expense, ExpenseError>(
                ExpenseError::NegativeValue,
            ),
            name@.len() > 0 && amount@ >= 0 ==> r is Ok,
            r matches Ok(e) ==> e.spec_name() == name@ && e.spec_amount() == amount
                && e.spec_recurring() == is_recurring && e.spec_time().wf() && e.wf(),
    {
        if name.unicode_len() == 0 {
            return Err(ExpenseError::EmptyName);
        }
        if amount.value() < 0 {
            return Err(ExpenseError::NegativeValue);
        }
        Ok(Expense { name: String::from_str(name), amount, is_recurring, time: today() })
    }

    /// Replaces the amount, unless it is negative.
    pub fn edit_amount(&mut self, amount: Money) -> (r: Result<(), ExpenseError>)
        ensures
            amount@ < 0 ==> r == Err::<(), ExpenseError>(ExpenseError::NegativeValue)
                && *final(self) == *old(self),
            amount@ >= 0 ==> r is Ok && final(self).spec_amount() == amount
                && final(self).spec_name() == old(self).spec_name()
                && final(self).spec_recurring() == old(self).spec_recurring()
                && final(self).spec_time() == old(self).spec_time(),
            old(self).wf() ==> final(self).wf(),
    {
        if amount.value() < 0 {
            return Err(ExpenseError::NegativeValue);
        }
        self.amount = amount;
        Ok(())
    }

    /// Replaces the name, unless it is empty.
    pub fn edit_name(&mut self, name: &str) -> (r: Result<(), ExpenseError>)
        ensures
            name@.len() == 0 ==> r == Err::<(), ExpenseError>(ExpenseError::EmptyName)
                && *final(self) == *old(self),
            name@.len() > 0 ==> r is Ok && final(self).spec_name() == name@
                && final(self).spec_amount() == old(self).spec_amount()
                && final(self).spec_recurring() == old(self).spec_recurring()
                && final(self).spec_time() == old(self).spec_time(),
            old(self).wf() ==> final(self).wf(),
    {
        if name.unicode_len() == 0 {
            return Err(ExpenseError::EmptyName);
        }
        self.name = String::from_str(name);
        Ok(())
    }

    /// Sets whether the expense recurs.
    pub fn set_recurring(&mut self, is_recurring: bool)
        ensures
            final(self).spec_recurring() == is_recurring,
            final(self).spec_name() == old(self).spec_name(),
            final(self).spec_amount() == old(self).spec_amount(),
            final(self).spec_time() == old(self).spec_time(),
    {
        self.is_recurring = is_recurring;
    }

    /// Moves the expense to another date.
    pub fn edit_time(&mut self, time: Date)
        ensures
            final(self).spec_time() == time,
            final(self).spec_name() == old(self).spec_name(),
            final(self).spec_amount() == old(self).spec_amount(),
            final(self).spec_recurring() == old(self).spec_recurring(),
    {
        self.time = time;
    }

    pub fn name(&self) -> (r: &String)
        ensures
            r@ == self.spec_name(),
    {
        &self.name
    }

    pub fn amount(&self) -> (r: Money)
        ensures
            r == self.spec_amount(),
    {
        self.amount
    }

    pub fn time(&self) -> (r: &Date)
        ensures
            *r == self.spec_time(),
    {
        &self.time
    }

    pub fn recurring(&self) -> (r: bool)
        ensures
            r == self.spec_recurring(),
    {
        self.is_recurring
    }
}

impl PartialEq for Expense {
    fn eq(&self, other: &Expense) -> (r: bool) {
        self.name == other.name && self.amount == other.amount && self.is_recurring
            == other.is_recurring && self.time == other.time
    }
}

impl vstd::std_specs::cmp::PartialEqSpecImpl for Expense {
    open spec fn obeys_eq_spec() -> bool {
        true
    }

    open spec fn eq_spec(&self, other: &Expense) -> bool {
        self.same_as(*other)
    }
}

} // verus!
