//! Sharing the expenses of a group of users: tabs of expenses, the users
//! that paid and shared them, the actions that change a tab, and the
//! settlements that balance it.

pub mod actions;
pub mod balance;
pub mod db;
pub mod error;
pub mod expense;
pub mod fair;
pub mod settlement;
pub mod tab;
pub mod user;

pub use self::actions::{
    AddExpense, AddUser, ChangeTabName, RemoveExpense, RemoveUser, UserAction, UserActionMetadata,
    UserActionType,
};
pub use self::error::CostingError;
pub use self::expense::{Expense, ExpenseCategory, ExpenseID};
pub use self::settlement::Settlement;
pub use self::tab::{Tab, TabID};
pub use self::user::{User, UserID};
