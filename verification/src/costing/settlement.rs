//! Settlements: debts that one user owes another.

use vstd::prelude::*;
use crate::accounting::{Transaction, negated};
use crate::currency::Commodity;
use crate::costing::error::CostingError;
use crate::costing::tab::Tab;
use crate::costing::user::UserID;

verus! {

/// The settlement of a debt that one user owes another.
#[derive(Debug)]
pub struct Settlement {
    /// The user who has a debt and needs to send the money.
    pub sender: UserID,
    /// The user who is owed money.
    pub receiver: UserID,
    /// The amount of money the `sender` needs to send to the `receiver`.
    pub amount: Commodity,
}

impl Settlement {
    /// A new settlement.
    pub fn new(sender: UserID, receiver: UserID, amount: Commodity) -> (s: Settlement)
        ensures
            s == (Settlement { sender, receiver, amount }),
    {
        Settlement { sender, receiver, amount }
    }

    /// The transaction, dated `date` and described as `Settlement`, that
    /// moves the amount from the sender's account to the receiver's.
    pub fn to_transaction(&self, date: chrono::NaiveDate, tab: &Tab) -> (r: Result<Transaction, CostingError>)
        ensures
            tab.user_account(self.sender) is None ==> (r matches Err(CostingError::UserAccountDoesNotExistOnTab(u, t))
                && u == self.sender && t == tab.id),
            tab.user_account(self.sender) is Some && tab.user_account(self.receiver) is None ==> (
                r matches Err(CostingError::UserAccountDoesNotExistOnTab(u, t)) && u == self.receiver && t == tab.id),
            tab.user_account(self.sender) is Some && tab.user_account(self.receiver) is Some ==> (r matches Ok(tr)
                && tr.description matches Some(d) && d@ == "Settlement"@
                && tr.date == date
                && tr.elements.len() == 2
                && tr.elements[0].account == tab.user_account(self.sender)->0
                && tr.elements[0].amount == Some(negated(self.amount))
                && tr.elements[1].account == tab.user_account(self.receiver)->0
                && tr.elements[1].amount is None),
    {
        let from = tab.get_user_account(&self.sender)?.clone();
        let to = tab.get_user_account(&self.receiver)?.clone();
        Ok(Transaction::new_simple(Some("Settlement"), date, from, to, self.amount, None))
    }
}

} // verus!
