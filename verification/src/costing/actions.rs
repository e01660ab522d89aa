//! The actions that users perform to change a tab.

use vstd::prelude::*;
use crate::exchange_rate::UtcDateTime;
use crate::costing::error::CostingError;
use crate::costing::expense::{Expense, ExpenseID, same_expense};
use crate::costing::tab::{Tab, is_user_account};
use crate::costing::user::{User, UserID, same_user};

verus! {

/// Calls `chrono::Utc::now()`: the current time; nothing is promised of it.
#[verifier::external_body]
fn now() -> (t: UtcDateTime) {
    UtcDateTime { datetime: chrono::Utc::now() }
}

/// The actions that are kept as values.
#[derive(Debug)]
pub enum UserActionType {
    AddExpense(AddExpense),
    AddUser(AddUser),
}

/// Metadata about an action: who performed it, and when.
#[derive(Debug)]
pub struct UserActionMetadata {
    /// The user who performed the action.
    pub user_id: UserID,
    /// When the action was performed.
    pub datetime: UtcDateTime,
}

impl UserActionMetadata {
    /// Metadata with this user and time.
    pub fn new(user_id: UserID, datetime: UtcDateTime) -> (m: UserActionMetadata)
        ensures
            m == (UserActionMetadata { user_id, datetime }),
    {
        UserActionMetadata { user_id, datetime }
    }
}

impl Clone for UserActionMetadata {
    fn clone(&self) -> (r: Self)
        ensures
            r == *self,
    {
        UserActionMetadata { user_id: self.user_id, datetime: self.datetime }
    }
}

/// An action that a user can perform to modify a tab.
pub trait UserAction {
    /// Metadata about the action.
    fn metadata(&self) -> &UserActionMetadata;

    /// Performs the action on the tab.
    fn perform(&self, tab: &mut Tab) -> (r: Result<(), CostingError>)
        requires
            old(tab).wf(),
        ensures
            final(tab).wf(),
    ;
}

/// Adds an expense to a tab.
#[derive(Debug)]
pub struct AddExpense {
    /// Metadata about this action.
    pub metadata: UserActionMetadata,
    /// The expense to add.
    pub expense: Expense,
}

impl AddExpense {
    /// An action of this user, now, adding the expense.
    pub fn new(action_user_id: UserID, expense: Expense) -> (a: AddExpense)
        ensures
            a.metadata.user_id == action_user_id,
            a.expense == expense,
    {
        AddExpense { metadata: UserActionMetadata::new(action_user_id, now()), expense }
    }
}

/// The position of the first expense with this id.
fn expense_position(expenses: &Vec<Expense>, id: ExpenseID) -> (r: Option<usize>)
    ensures
        r is None <==> forall|j: int| 0 <= j < expenses.len() ==> (#[trigger] expenses@[j]).id != id,
        r matches Some(i) ==> i < expenses.len() && expenses@[i as int].id == id && forall|j: int|
            0 <= j < i ==> (#[trigger] expenses@[j]).id != id,
{
    let mut i: usize = 0;
    while i < expenses.len()
        invariant
            i <= expenses.len(),
            forall|j: int| 0 <= j < i ==> (#[trigger] expenses@[j]).id != id,
        decreases expenses.len() - i,
    {
        if expenses[i].id == id {
            return Some(i);
        }
        i = i + 1;
    }
    None
}

impl UserAction for AddExpense {
    fn metadata(&self) -> (m: &UserActionMetadata)
        ensures
            *m == self.metadata,
    {
        &self.metadata
    }

    /// Adds a copy of the expense at the end of the tab's expenses; an
    /// error, with the tab unchanged, when an expense with the same id is
    /// already there.
    fn perform(&self, tab: &mut Tab) -> (r: Result<(), CostingError>)
        ensures
            (exists|j: int| 0 <= j < old(tab).expenses.len() && (#[trigger] old(tab).expenses@[j]).id == self.expense.id) ==> (
                r matches Err(CostingError::ExpenseAlreadyExistsOnTab(e, t)) && e == self.expense.id && t == old(tab).id
                && *final(tab) == *old(tab)),
            (forall|j: int| 0 <= j < old(tab).expenses.len() ==> (#[trigger] old(tab).expenses@[j]).id != self.expense.id) ==> (r is Ok
                && final(tab).expenses.len() == old(tab).expenses.len() + 1
                && final(tab).expenses@.drop_last() == old(tab).expenses@
                && same_expense(self.expense, final(tab).expenses@.last())
                && final(tab).id == old(tab).id && final(tab).name == old(tab).name
                && final(tab).users_seq() == old(tab).users_seq()
                && final(tab).user_accounts_seq() == old(tab).user_accounts_seq()
                && final(tab).category_accounts_seq() == old(tab).category_accounts_seq()),
    {
        match expense_position(&tab.expenses, self.expense.id) {
            Some(i) => Err(CostingError::ExpenseAlreadyExistsOnTab(tab.expenses[i].id, tab.id)),
            None => {
                tab.expenses.push(self.expense.clone());
                proof {
                    assert(tab.expenses@.drop_last() =~= old(tab).expenses@);
                }
                Ok(())
            },
        }
    }
}

/// Removes an expense from a tab.
#[derive(Debug)]
pub struct RemoveExpense {
    /// Metadata about this action.
    pub metadata: UserActionMetadata,
    /// The id of the expense to remove.
    pub expense_id: ExpenseID,
}

impl RemoveExpense {
    /// An action of this user, now, removing the expense with this id.
    pub fn new(action_user_id: UserID, expense_to_remove_id: ExpenseID) -> (a: RemoveExpense)
        ensures
            a.metadata.user_id == action_user_id,
            a.expense_id == expense_to_remove_id,
    {
        RemoveExpense { metadata: UserActionMetadata::new(action_user_id, now()), expense_id: expense_to_remove_id }
    }
}

impl UserAction for RemoveExpense {
    fn metadata(&self) -> (m: &UserActionMetadata)
        ensures
            *m == self.metadata,
    {
        &self.metadata
    }

    /// Removes the first expense with the id; an error, with the tab
    /// unchanged, when there is none.
    fn perform(&self, tab: &mut Tab) -> (r: Result<(), CostingError>)
        ensures
            (forall|j: int| 0 <= j < old(tab).expenses.len() ==> (#[trigger] old(tab).expenses@[j]).id != self.expense_id) ==> (
                r matches Err(CostingError::ExpenseDoesNotExistOnTab(e, t)) && e == self.expense_id && t == old(tab).id
                && *final(tab) == *old(tab)),
            (exists|j: int| 0 <= j < old(tab).expenses.len() && (#[trigger] old(tab).expenses@[j]).id == self.expense_id) ==> (r is Ok
                && exists|i: int|
                    0 <= i < old(tab).expenses.len() && old(tab).expenses@[i].id == self.expense_id
                    && (forall|j: int| 0 <= j < i ==> (#[trigger] old(tab).expenses@[j]).id != self.expense_id)
                    && final(tab).expenses@ == old(tab).expenses@.remove(i))
                && final(tab).id == old(tab).id && final(tab).name == old(tab).name
                && final(tab).users_seq() == old(tab).users_seq()
                && final(tab).user_accounts_seq() == old(tab).user_accounts_seq()
                && final(tab).category_accounts_seq() == old(tab).category_accounts_seq(),
    {
        match expense_position(&tab.expenses, self.expense_id) {
            Some(i) => {
                tab.expenses.remove(i);
                Ok(())
            },
            None => Err(CostingError::ExpenseDoesNotExistOnTab(self.expense_id, tab.id)),
        }
    }
}

/// Renames a tab.
#[derive(Debug)]
pub struct ChangeTabName {
    /// Metadata about this action.
    pub metadata: UserActionMetadata,
    /// The new name.
    pub name: String,
}

impl ChangeTabName {
    /// An action of this user, now, renaming the tab.
    pub fn new(action_user_id: UserID, name: &str) -> (a: ChangeTabName)
        ensures
            a.metadata.user_id == action_user_id,
            a.name@ == name@,
    {
        ChangeTabName { metadata: UserActionMetadata::new(action_user_id, now()), name: name.to_owned() }
    }
}

impl UserAction for ChangeTabName {
    fn metadata(&self) -> (m: &UserActionMetadata)
        ensures
            *m == self.metadata,
    {
        &self.metadata
    }

    /// Sets the name of the tab.
    fn perform(&self, tab: &mut Tab) -> (r: Result<(), CostingError>)
        ensures
            r is Ok,
            *final(tab) == (Tab { name: self.name, ..*old(tab) }),
    {
        tab.name = self.name.clone();
        Ok(())
    }
}

/// Adds a user to a tab.
#[derive(Debug)]
pub struct AddUser {
    /// Metadata about this action.
    pub metadata: UserActionMetadata,
    /// The user to add to the tab.
    pub user_to_add: User,
}

impl AddUser {
    /// An action of this user, now, adding `user_to_add`.
    pub fn new(action_user_id: UserID, user_to_add: User) -> (a: AddUser)
        ensures
            a.metadata.user_id == action_user_id,
            a.user_to_add == user_to_add,
    {
        AddUser { metadata: UserActionMetadata::new(action_user_id, now()), user_to_add }
    }
}

impl UserAction for AddUser {
    fn metadata(&self) -> (m: &UserActionMetadata)
        ensures
            *m == self.metadata,
    {
        &self.metadata
    }

    /// Adds a copy of the user to the tab (see [Tab::add_user]).
    fn perform(&self, tab: &mut Tab) -> (r: Result<(), CostingError>)
        ensures
            old(tab).user_with_id(self.user_to_add.id) is Some ==> (r matches Err(CostingError::UserAlreadyExistsOnTab(u, t))
                && u == self.user_to_add.id && t == old(tab).id
                && final(tab).users_seq() == old(tab).users_seq()
                && final(tab).user_accounts_seq() == old(tab).user_accounts_seq()),
            old(tab).user_with_id(self.user_to_add.id) is None ==> r is Ok
                && final(tab).users_seq().len() == old(tab).users_seq().len() + 1
                && final(tab).users_seq().drop_last() == old(tab).users_seq()
                && same_user(self.user_to_add, *final(tab).users_seq().last())
                && final(tab).user_accounts_seq().drop_last() == old(tab).user_accounts_seq()
                && final(tab).user_accounts_seq().last().0 == self.user_to_add.id
                && is_user_account(*final(tab).user_accounts_seq().last().1, self.user_to_add, old(tab).working_currency),
    {
        tab.add_user(self.user_to_add.clone())
    }
}

/// Removes a user from a tab.
#[derive(Debug)]
pub struct RemoveUser {
    /// Metadata about this action.
    pub metadata: UserActionMetadata,
    /// The id of the user to remove from the tab.
    pub user_id: UserID,
}

impl RemoveUser {
    /// An action of this user, now, removing the user with this id.
    pub fn new(action_user_id: UserID, user_to_remove_id: UserID) -> (a: RemoveUser)
        ensures
            a.metadata.user_id == action_user_id,
            a.user_id == user_to_remove_id,
    {
        RemoveUser { metadata: UserActionMetadata::new(action_user_id, now()), user_id: user_to_remove_id }
    }
}

impl UserAction for RemoveUser {
    fn metadata(&self) -> (m: &UserActionMetadata)
        ensures
            *m == self.metadata,
    {
        &self.metadata
    }

    /// Removes the user with this id from the tab (see [Tab::remove_user]).
    fn perform(&self, tab: &mut Tab) -> (r: Result<(), CostingError>)
        ensures
            crate::search::first_match(old(tab).users_seq(), crate::costing::tab::has_user_id(self.user_id)) matches Some(i) ==> r is Ok
                && final(tab).users_seq() == old(tab).users_seq().remove(i),
            crate::search::first_match(old(tab).users_seq(), crate::costing::tab::has_user_id(self.user_id)) is None ==> (
                r matches Err(CostingError::UserDoesNotExistOnTab(u, t)) && u == self.user_id && t == old(tab).id
                && final(tab).users_seq() == old(tab).users_seq()),
    {
        tab.remove_user(&self.user_id)
    }
}


/// Removing an expense undoes adding it: adding an expense whose id is on no
/// expense of the tab (as [AddExpense] does) and then removing that id (as
/// [RemoveExpense] does) gives back the expenses.
pub proof fn law_remove_expense_undoes_add_expense(before: Seq<Expense>, added: Seq<Expense>, removed: Seq<Expense>, id: ExpenseID)
    requires
        forall|j: int| 0 <= j < before.len() ==> (#[trigger] before[j]).id != id,
        added.len() == before.len() + 1,
        added.drop_last() == before,
        added.last().id == id,
        forall|i: int|
            0 <= i < added.len() && added[i].id == id && (forall|j: int| 0 <= j < i ==> (#[trigger] added[j]).id != id) ==> removed
                == added.remove(i),
    ensures
        removed == before,
{
    let n = before.len() as int;
    assert forall|j: int| 0 <= j < n implies (#[trigger] added[j]).id != id by {
        assert(added[j] == before[j]);
    }
    assert(added.remove(n) =~= before);
}

} // verus!
