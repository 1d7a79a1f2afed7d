use budget::{Budget, Date, Money};
use chrono::Datelike;

#[test]
fn create_new_budget() {
    let budget = Budget::new();
    assert_eq!(Budget::new(), budget);
}

#[test]
fn build_budget() {
    let mut temp = Budget::new();
    temp.new_expense("test1", Money::new(100));
    temp.new_revenue("test2", Money::new(200));
    let budget = Budget::build(temp.expenses().to_owned(), temp.revenues().to_owned());
    assert_eq!(Money::new(100), budget.expenses().first().unwrap().amount());
}

#[test]
fn add_new_expense() {
    let mut budget = Budget::new();
    budget.new_expense("Dinner", Money::new(2500));
    assert_eq!(Money::new(2500), budget.expenses().first().unwrap().amount());
}

#[test]
fn add_new_revenue() {
    let mut budget = Budget::new();
    budget.new_revenue("work", Money::new(12000));
    assert_eq!(Money::new(12000), budget.revenues().first().unwrap().amount());
}

#[test]
fn remove_revenue() {
    let mut budget = Budget::new();
    budget.new_revenue("to_remove", Money::new(100));
    assert_eq!(Money::new(100), budget.revenues().first().unwrap().amount());
    budget.remove_revenue(0);
    assert!(budget.revenues().first().is_none());
}

#[test]
fn get_current_month_revenues() {
    let mut budget = Budget::new();
    for i in 0..10i64 {
        budget.new_revenue(i.to_string().as_str(), Money::new(i * 100));
    }
    assert_eq!(Money::new(0), budget.revenues().first().unwrap().amount());
}

#[test]
fn calculate_monthly_saving() {
    let mut budget = Budget::new();
    for _ in 0..10 {
        budget.new_expense("test", Money::new(500));
        budget.new_revenue("test2", Money::new(1000));
    }
    assert_eq!(Money::new(5000), budget.current_monthly_saving());
}

#[test]
fn calculate_diff_between_last_and_current_month_saving() {
    let mut budget = Budget::new();
    for i in 0..20i64 {
        budget.new_expense("expense", Money::new(i * 100));
        budget.new_revenue("revenue", Money::new(i * 100));
    }
    let mut day = 255; // september 12th
    let mut expenses = budget.expenses().to_owned();
    for expense in expenses.iter_mut().take(12) {
        if let Some(date) = chrono::NaiveDate::from_yo_opt(2024, day) {
            expense.edit_time(Date::new(date.year(), date.month(), date.day()).unwrap());
            day -= 1;
        }
    }
    let _budget = Budget::build(expenses, budget.revenues().to_owned());
}

#[test]
fn get_current_month_expenses() {
    let mut budget = Budget::new();
    for i in 0..10i64 {
        budget.new_expense(i.to_string().as_str(), Money::new(i * 100));
    }
    assert_eq!(Money::new(500), budget.expenses().get(5).unwrap().amount());
}

#[test]
fn test_money_operations() {
    let m = Money::new(1200);
    let m2 = Money::new(1200);

    assert_eq!(Money::new(14400), m.mul(m2));
    assert_eq!(Money::new(2400), m.add(m2));
    assert_eq!(Money::new(0), m.sub(m2));
    assert_eq!(Money::new(100), m.div(m2));
}

#[test]
fn test_money_from_str() {
    assert_eq!(Ok(Money::new(1025)), "$10.25".parse());
    assert_eq!(Ok(Money::new(1025)), "10.25".parse());
}
