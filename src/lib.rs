//! A personal budget: expenses and revenues with validated names and amounts,
//! money held in whole cents, and totals per calendar month.
pub mod budget;
pub mod date;
pub mod expense;
pub mod money;
pub mod money_text;
pub mod revenue;

pub use budget::Budget;
pub use date::Date;
pub use expense::{Expense, ExpenseError};
pub use money::Money;
pub use money_text::ParseMoneyError;
pub use revenue::{Revenue, RevenueError};
