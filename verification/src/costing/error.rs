//! Errors of the operations on a [Tab](crate::costing::tab::Tab).

use vstd::prelude::*;
use crate::accounting::AccountingError;
use crate::currency::CurrencyError;
use crate::costing::expense::{ExpenseCategory, ExpenseID};
use crate::costing::user::UserID;

verus! {

/// Errors of the operations on a tab; the tab is named by its id.
#[derive(Debug)]
pub enum CostingError {
    /// An error of the accounting engine.
    Accounting(AccountingError),
    /// An error of an operation on amounts of money.
    Currency(CurrencyError),
    /// The user with this id is already on the tab.
    UserAlreadyExistsOnTab(UserID, uuid::Uuid),
    /// No user with this id is on the tab.
    UserDoesNotExistOnTab(UserID, uuid::Uuid),
    /// No account is kept for the user with this id on the tab.
    UserAccountDoesNotExistOnTab(UserID, uuid::Uuid),
    /// The expense with this id is already on the tab.
    ExpenseAlreadyExistsOnTab(ExpenseID, uuid::Uuid),
    /// No expense with this id is on the tab.
    ExpenseDoesNotExistOnTab(ExpenseID, uuid::Uuid),
    /// No account is kept for this expense category on the tab.
    NoExpenseCategoryAccountOnTab(ExpenseCategory, uuid::Uuid),
}

} // verus!
