use budget::{Budget, Date, Expense, ExpenseError, Money, Revenue, RevenueError};

fn date(y: i32, m: u32, d: u32) -> Date {
    Date::new(y, m, d).unwrap()
}

#[test]
fn expense_rejects_empty_name_and_negative_amount() {
    assert_eq!(Err(ExpenseError::EmptyName), Expense::new(Money::new(100), "", false));
    assert_eq!(Err(ExpenseError::NegativeValue), Expense::new(Money::new(-1), "rent", false));
    assert_eq!(Err(ExpenseError::EmptyName), Expense::new(Money::new(-1), "", false));
    let e = Expense::new(Money::new(0), "free", true).unwrap();
    assert_eq!(Money::new(0), e.amount());
    assert_eq!("free", e.name().as_str());
    assert!(e.recurring());
}

#[test]
fn revenue_checks_amount_before_name() {
    assert_eq!(Err(RevenueError::EmptyName), Revenue::new(Money::new(100), false, ""));
    assert_eq!(Err(RevenueError::NegativeValue), Revenue::new(Money::new(-1), false, "pay"));
    assert_eq!(Err(RevenueError::NegativeValue), Revenue::new(Money::new(-1), false, ""));
    let r = Revenue::new(Money::new(12000), false, "pay").unwrap();
    assert_eq!(Money::new(12000), r.amount());
}

#[test]
fn edits_validate_and_keep_state_on_failure() {
    let mut e = Expense::new(Money::new(500), "lunch", false).unwrap();
    assert_eq!(Err(ExpenseError::NegativeValue), e.edit_amount(Money::new(-5)));
    assert_eq!(Money::new(500), e.amount());
    assert_eq!(Ok(()), e.edit_amount(Money::new(750)));
    assert_eq!(Money::new(750), e.amount());
    assert_eq!(Err(ExpenseError::EmptyName), e.edit_name(""));
    assert_eq!("lunch", e.name().as_str());
    assert_eq!(Ok(()), e.edit_name("dinner"));
    assert_eq!("dinner", e.name().as_str());
    e.set_recurring(true);
    assert!(e.recurring());
    e.edit_time(date(2023, 3, 4));
    assert_eq!(date(2023, 3, 4), *e.time());

    let mut r = Revenue::new(Money::new(500), true, "gift").unwrap();
    assert_eq!(Err(RevenueError::NegativeValue), r.edit_amount(Money::new(-5)));
    assert_eq!(Err(RevenueError::EmptyName), r.edit_name(""));
    r.set_recurring(false);
    assert!(!r.recurring());
    r.edit_time(date(2022, 12, 31));
    assert_eq!(12, r.time().month());
}

#[test]
fn dates_are_validated() {
    assert!(Date::new(2024, 2, 29).is_some());
    assert!(Date::new(2023, 2, 29).is_none());
    assert!(Date::new(1900, 2, 29).is_none());
    assert!(Date::new(2000, 2, 29).is_some());
    assert!(Date::new(2024, 4, 31).is_none());
    assert!(Date::new(2024, 13, 1).is_none());
    assert!(Date::new(2024, 0, 1).is_none());
    assert!(Date::new(2024, 1, 0).is_none());
    let d = date(-4, 2, 29);
    assert_eq!((-4, 2, 29), (d.year(), d.month(), d.day()));
}

#[test]
fn invalid_entries_are_dropped_by_budget() {
    let mut budget = Budget::new();
    budget.new_expense("", Money::new(100));
    budget.new_expense("x", Money::new(-100));
    budget.new_revenue("", Money::new(100));
    budget.new_revenue("x", Money::new(-100));
    assert!(budget.expenses().is_empty());
    assert!(budget.revenues().is_empty());
}

#[test]
fn removing_first_expense_shifts_the_rest() {
    let mut budget = Budget::new();
    for i in 1..=4i64 {
        budget.new_expense(&format!("e{}", i), Money::new(i));
    }
    budget.remove_expense(0);
    let names: Vec<&str> = budget.expenses().iter().map(|e| e.name().as_str()).collect();
    assert_eq!(vec!["e2", "e3", "e4"], names);
}

fn dated_budget() -> Budget {
    let mut budget = Budget::new();
    budget.new_expense("jan", Money::new(1000));
    budget.new_expense("feb", Money::new(200));
    budget.new_expense("jan again", Money::new(300));
    budget.new_revenue("salary", Money::new(5000));
    budget.new_revenue("bonus", Money::new(700));
    let mut expenses = budget.expenses().to_owned();
    expenses[0].edit_time(date(2023, 1, 10));
    expenses[1].edit_time(date(2024, 2, 1));
    expenses[2].edit_time(date(2024, 1, 20));
    let mut revenues = budget.revenues().to_owned();
    revenues[0].edit_time(date(2024, 1, 1));
    revenues[1].edit_time(date(2024, 3, 1));
    Budget::build(expenses, revenues)
}

#[test]
fn month_filters_ignore_year_and_keep_order() {
    let budget = dated_budget();
    let jan = budget.get_month_expense(1).unwrap();
    let names: Vec<&str> = jan.iter().map(|e| e.name().as_str()).collect();
    assert_eq!(vec!["jan", "jan again"], names);
    assert_eq!(1, budget.get_month_revenue(3).unwrap().len());
}

#[test]
fn month_filters_return_none_for_bad_or_empty_month() {
    let budget = dated_budget();
    assert!(budget.get_month_expense(0).is_none());
    assert!(budget.get_month_expense(13).is_none());
    assert!(budget.get_month_expense(7).is_none());
    assert_eq!(budget.get_month_expense(13).is_none(), budget.get_month_expense(7).is_none());
    assert!(budget.get_month_revenue(0).is_none());
    assert!(budget.get_month_revenue(2).is_none());
}

#[test]
fn monthly_saving_sums_each_side() {
    let budget = dated_budget();
    assert_eq!(Money::new(5000 - 1300), budget.monthly_saving(1));
    assert_eq!(Money::new(-200), budget.monthly_saving(2));
    assert_eq!(Money::new(700), budget.monthly_saving(3));
    assert_eq!(Money::new(0), budget.monthly_saving(6));
}

#[test]
fn budgets_compare_by_entries() {
    let a = dated_budget();
    let b = dated_budget();
    assert_eq!(a, b);
    let mut c = dated_budget();
    c.remove_revenue(1);
    assert_ne!(a, c);
}
