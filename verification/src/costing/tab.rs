//! A tab: a group of users and the expenses they paid and shared.

use vstd::prelude::*;
use std::rc::Rc;
use crate::accounting::{Account, AccountCategory, AccountID};
use crate::currency::{Currency, CurrencyCode};
use crate::costing::actions::UserActionType;
use crate::costing::error::CostingError;
use crate::costing::expense::{Expense, ExpenseCategory};
use crate::costing::user::{User, UserID, same_user};
use crate::search::{first_match, lemma_first_match, lemma_first_match_found};
use crate::text::{decimal_string, int_to_string, push_str};

verus! {

#[verifier::external_type_specification]
#[verifier::external_body]
pub struct ExUuid(uuid::Uuid);

/// The id of a [Tab].
pub type TabID = uuid::Uuid;

/// A collection of expenses, and the users who are responsible for or
/// associated with those expenses. Each user, and each category of expense,
/// has an account on the tab.
#[derive(Debug)]
pub struct Tab {
    /// The id of this tab.
    pub id: TabID,
    /// The name of this tab.
    pub name: String,
    /// The working currency of this tab.
    pub working_currency: CurrencyCode,
    /// The users involved with this tab.
    pub users: Vec<Rc<User>>,
    /// The account of each user, in the order of the users.
    pub user_accounts: Vec<(UserID, Rc<Account>)>,
    /// The expenses recorded on this tab.
    pub expenses: Vec<Expense>,
    /// The account of each expense category.
    pub expense_category_accounts: Vec<(ExpenseCategory, Rc<Account>)>,
    /// Actions performed by the users of this tab.
    pub user_actions: Vec<UserActionType>,
}

/// Holds of a user with this id.
pub open spec fn has_user_id(id: UserID) -> spec_fn(Rc<User>) -> bool {
    |u: Rc<User>| u.id == id
}

/// Holds of an account entry of the user with this id.
pub open spec fn keyed_by_user(id: UserID) -> spec_fn((UserID, Rc<Account>)) -> bool {
    |p: (UserID, Rc<Account>)| p.0 == id
}

/// Holds of an account entry of this expense category.
pub open spec fn keyed_by_category(category: Seq<char>) -> spec_fn((ExpenseCategory, Rc<Account>)) -> bool {
    |p: (ExpenseCategory, Rc<Account>)| p.0@ == category
}

/// No two users have the same id.
pub open spec fn unique_user_ids(users: Seq<Rc<User>>) -> bool {
    forall|i: int, j: int| 0 <= i < j < users.len() ==> #[trigger] users[i].id != #[trigger] users[j].id
}

/// The expense categories of the expenses, each once, in the order of
/// their first expense.
pub open spec fn categories_of(expenses: Seq<Expense>) -> Seq<Seq<char>>
    decreases expenses.len(),
{
    if expenses.len() == 0 {
        Seq::empty()
    } else {
        let before = categories_of(expenses.drop_last());
        if before.contains(expenses.last().category@) {
            before
        } else {
            before.push(expenses.last().category@)
        }
    }
}

/// The account that a tab keeps for a user: named `User-<id>-<name>`, in the
/// working currency, in the category `Users`.
pub open spec fn is_user_account(account: Account, user: User, working_currency: CurrencyCode) -> bool {
    &&& account.name matches Some(n) && n@ == "User-"@ + decimal_string(user.id as int) + "-"@ + user.name@
    &&& account.currency.code == working_currency
    &&& account.category matches Some(c) && c.name@ == "Users"@ && c.parent is None
}

/// The account that a tab keeps for an expense category: named after the
/// category, in the working currency, in the category `Expense`.
pub open spec fn is_category_account(account: Account, category: Seq<char>, working_currency: CurrencyCode) -> bool {
    &&& account.name matches Some(n) && n@ == category
    &&& account.currency.code == working_currency
    &&& account.category matches Some(c) && c.name@ == "Expense"@ && c.parent is None
}

impl Tab {
    /// The users of the tab.
    pub open spec fn users_seq(&self) -> Seq<Rc<User>> {
        self.users@
    }

    /// The account entries of the users, in the order of the users.
    pub open spec fn user_accounts_seq(&self) -> Seq<(UserID, Rc<Account>)> {
        self.user_accounts@
    }

    /// The account entries of the expense categories.
    pub open spec fn category_accounts_seq(&self) -> Seq<(ExpenseCategory, Rc<Account>)> {
        self.expense_category_accounts@
    }

    /// The users have distinct ids, the account entries are those of the
    /// users, in their order, and every account is in the working currency.
    pub open spec fn wf(&self) -> bool {
        &&& self.users_seq().len() == self.user_accounts_seq().len()
        &&& forall|i: int| 0 <= i < self.users_seq().len() ==> #[trigger] self.user_accounts_seq()[i].0 == self.users_seq()[i].id
        &&& unique_user_ids(self.users_seq())
        &&& forall|i: int| 0 <= i < self.user_accounts_seq().len() ==> (#[trigger] self.user_accounts_seq()[i]).1.currency.code == self.working_currency
        &&& forall|i: int| 0 <= i < self.category_accounts_seq().len() ==> (#[trigger] self.category_accounts_seq()[i]).1.currency.code == self.working_currency
    }

    /// The account of the user with this id, if the tab keeps one.
    pub open spec fn user_account(&self, id: UserID) -> Option<Rc<Account>> {
        match first_match(self.user_accounts_seq(), keyed_by_user(id)) {
            Some(i) => Some(self.user_accounts_seq()[i].1),
            None => None,
        }
    }

    /// The account of this expense category, if the tab keeps one.
    pub open spec fn category_account(&self, category: Seq<char>) -> Option<Rc<Account>> {
        match first_match(self.category_accounts_seq(), keyed_by_category(category)) {
            Some(i) => Some(self.category_accounts_seq()[i].1),
            None => None,
        }
    }

    /// The user with this id, if on the tab.
    pub open spec fn user_with_id(&self, id: UserID) -> Option<Rc<User>> {
        match first_match(self.users_seq(), has_user_id(id)) {
            Some(i) => Some(self.users_seq()[i]),
            None => None,
        }
    }
}

/// A new account for `user`, as a tab keeps it.
fn new_account_for_user(user: &User, working_currency: CurrencyCode) -> (a: Account)
    ensures
        is_user_account(a, *user, working_currency),
{
    let mut name = String::new();
    push_str(&mut name, "User-");
    let id = int_to_string(user.id);
    push_str(&mut name, id.as_str());
    push_str(&mut name, "-");
    push_str(&mut name, user.name.as_str());
    proof {
        assert(name@ =~= "User-"@ + decimal_string(user.id as int) + "-"@ + user.name@);
    }
    let category = AccountCategory { name: "Users".to_owned(), parent: None };
    Account::new(Some(name.as_str()), Rc::new(Currency::new(working_currency, None)), Some(Rc::new(category)))
}

/// A new account for the expense category, as a tab keeps it.
fn new_account_for_expense_category(category: &ExpenseCategory, working_currency: CurrencyCode) -> (a: Account)
    ensures
        is_category_account(a, category@, working_currency),
{
    let account_category = AccountCategory { name: "Expense".to_owned(), parent: None };
    Account::new(Some(category.as_str()), Rc::new(Currency::new(working_currency, None)), Some(Rc::new(account_category)))
}

/// The position of the first user with this id.
fn user_position(users: &Vec<Rc<User>>, id: UserID) -> (r: Option<usize>)
    ensures
        r is None <==> first_match(users@, has_user_id(id)) is None,
        r matches Some(i) ==> first_match(users@, has_user_id(id)) == Some(i as int) && i < users.len(),
{
    let mut i: usize = 0;
    while i < users.len()
        invariant
            i <= users.len(),
            forall|j: int| 0 <= j < i ==> !has_user_id(id)(#[trigger] users@[j]),
        decreases users.len() - i,
    {
        if users[i].id == id {
            proof {
                lemma_first_match(users@, has_user_id(id), i as int);
            }
            return Some(i);
        }
        i = i + 1;
    }
    proof {
        lemma_first_match(users@, has_user_id(id), i as int);
    }
    None
}

/// The position of the first account entry of the user with this id.
fn user_account_position(entries: &Vec<(UserID, Rc<Account>)>, id: UserID) -> (r: Option<usize>)
    ensures
        r is None <==> first_match(entries@, keyed_by_user(id)) is None,
        r matches Some(i) ==> first_match(entries@, keyed_by_user(id)) == Some(i as int) && i < entries.len(),
{
    let mut i: usize = 0;
    while i < entries.len()
        invariant
            i <= entries.len(),
            forall|j: int| 0 <= j < i ==> !keyed_by_user(id)(#[trigger] entries@[j]),
        decreases entries.len() - i,
    {
        if entries[i].0 == id {
            proof {
                lemma_first_match(entries@, keyed_by_user(id), i as int);
            }
            return Some(i);
        }
        i = i + 1;
    }
    proof {
        lemma_first_match(entries@, keyed_by_user(id), i as int);
    }
    None
}

/// The position of the first account entry of this expense category.
fn category_account_position(entries: &Vec<(ExpenseCategory, Rc<Account>)>, category: &ExpenseCategory) -> (r: Option<usize>)
    ensures
        r is None <==> first_match(entries@, keyed_by_category(category@)) is None,
        r matches Some(i) ==> first_match(entries@, keyed_by_category(category@)) == Some(i as int) && i < entries.len(),
{
    let mut i: usize = 0;
    while i < entries.len()
        invariant
            i <= entries.len(),
            forall|j: int| 0 <= j < i ==> !keyed_by_category(category@)(#[trigger] entries@[j]),
        decreases entries.len() - i,
    {
        if entries[i].0 == *category {
            proof {
                lemma_first_match(entries@, keyed_by_category(category@), i as int);
            }
            return Some(i);
        }
        i = i + 1;
    }
    proof {
        lemma_first_match(entries@, keyed_by_category(category@), i as int);
    }
    None
}

impl Tab {
    /// A tab with these users and expenses: each user gets an account, and
    /// so does each expense category, in the order of their first expense.
    /// The users must have distinct ids.
    pub fn new(id: TabID, name: &str, working_currency: CurrencyCode, users: Vec<Rc<User>>, expenses: Vec<Expense>) -> (t: Tab)
        requires
            unique_user_ids(users@),
        ensures
            t.wf(),
            t.id == id,
            t.name@ == name@,
            t.working_currency == working_currency,
            t.users_seq() == users@,
            t.expenses@ == expenses@,
            t.user_actions@.len() == 0,
            forall|i: int| 0 <= i < users.len() ==> is_user_account(*#[trigger] t.user_accounts_seq()[i].1, *users@[i], working_currency),
            t.category_accounts_seq().len() == categories_of(expenses@).len(),
            forall|i: int|
                0 <= i < t.category_accounts_seq().len() ==> (#[trigger] t.category_accounts_seq()[i]).0@ == categories_of(expenses@)[i]
                    && is_category_account(*t.category_accounts_seq()[i].1, categories_of(expenses@)[i], working_currency),
    {
        let mut user_accounts: Vec<(UserID, Rc<Account>)> = Vec::new();
        let mut i: usize = 0;
        while i < users.len()
            invariant
                i <= users.len(),
                user_accounts.len() == i,
                forall|j: int| 0 <= j < i ==> #[trigger] user_accounts@[j].0 == users@[j].id,
                forall|j: int| 0 <= j < i ==> is_user_account(*#[trigger] user_accounts@[j].1, *users@[j], working_currency),
            decreases users.len() - i,
        {
            let account = Rc::new(new_account_for_user(&users[i], working_currency));
            user_accounts.push((users[i].id, account));
            i = i + 1;
        }
        let mut category_accounts: Vec<(ExpenseCategory, Rc<Account>)> = Vec::new();
        let mut k: usize = 0;
        while k < expenses.len()
            invariant
                k <= expenses.len(),
                category_accounts.len() == categories_of(expenses@.take(k as int)).len(),
                forall|j: int|
                    0 <= j < category_accounts.len() ==> (#[trigger] category_accounts@[j]).0@ == categories_of(expenses@.take(k as int))[j]
                        && is_category_account(*category_accounts@[j].1, categories_of(expenses@.take(k as int))[j], working_currency),
            decreases expenses.len() - k,
        {
            let category = &expenses[k].category;
            let ghost before = categories_of(expenses@.take(k as int));
            proof {
                assert(expenses@.take(k + 1).drop_last() =~= expenses@.take(k as int));
                assert(expenses@.take(k + 1).last() == expenses@[k as int]);
            }
            match category_account_position(&category_accounts, category) {
                Some(_) => {
                    proof {
                        lemma_first_match_found(category_accounts@, keyed_by_category(category@));
                        let p = first_match(category_accounts@, keyed_by_category(category@))->0;
                        assert(before[p] == category@);
                        assert(before.contains(category@));
                    }
                },
                None => {
                    proof {
                        lemma_first_match_found(category_accounts@, keyed_by_category(category@));
                        if before.contains(category@) {
                            let p = choose|p: int| 0 <= p < before.len() && before[p] == category@;
                            assert(keyed_by_category(category@)(category_accounts@[p]));
                        }
                    }
                    let account = Rc::new(new_account_for_expense_category(category, working_currency));
                    category_accounts.push((category.clone(), account));
                },
            }
            k = k + 1;
        }
        proof {
            assert(expenses@.take(k as int) =~= expenses@);
            assert forall|j: int| 0 <= j < category_accounts.len() implies (#[trigger] category_accounts@[j]).0@ == categories_of(expenses@)[j]
                && is_category_account(*category_accounts@[j].1, categories_of(expenses@)[j], working_currency) by {
                assert(category_accounts@[j].0@ == categories_of(expenses@.take(k as int))[j]);
            }
        }
        let tab = Tab {
            id,
            name: name.to_owned(),
            working_currency,
            users,
            user_accounts,
            expenses,
            expense_category_accounts: category_accounts,
            user_actions: Vec::new(),
        };
        tab
    }
}


impl Tab {
    /// The user with this id; an error when no such user is on the tab.
    pub fn user(&self, user_id: &UserID) -> (r: Result<&Rc<User>, CostingError>)
        ensures
            self.user_with_id(*user_id) matches Some(u) ==> (r matches Ok(x) && *x == u),
            self.user_with_id(*user_id) is None ==> (r matches Err(CostingError::UserDoesNotExistOnTab(u, t))
                && u == *user_id && t == self.id),
    {
        match user_position(&self.users, *user_id) {
            Some(i) => Ok(&self.users[i]),
            None => Err(CostingError::UserDoesNotExistOnTab(*user_id, self.id)),
        }
    }

    /// The account of the user with this id; an error when the tab keeps
    /// none.
    pub fn get_user_account(&self, user_id: &UserID) -> (r: Result<&Rc<Account>, CostingError>)
        ensures
            self.user_account(*user_id) matches Some(a) ==> (r matches Ok(x) && *x == a),
            self.user_account(*user_id) is None ==> (r matches Err(CostingError::UserAccountDoesNotExistOnTab(u, t))
                && u == *user_id && t == self.id),
    {
        match user_account_position(&self.user_accounts, *user_id) {
            Some(i) => Ok(&self.user_accounts[i].1),
            None => Err(CostingError::UserAccountDoesNotExistOnTab(*user_id, self.id)),
        }
    }

    /// The account of this expense category; an error when the tab keeps
    /// none.
    pub fn get_expense_category_account(&self, category: &ExpenseCategory) -> (r: Result<&Rc<Account>, CostingError>)
        ensures
            self.category_account(category@) matches Some(a) ==> (r matches Ok(x) && *x == a),
            self.category_account(category@) is None ==> (r matches Err(CostingError::NoExpenseCategoryAccountOnTab(c, t))
                && c == *category && t == self.id),
    {
        match category_account_position(&self.expense_category_accounts, category) {
            Some(i) => Ok(&self.expense_category_accounts[i].1),
            None => Err(CostingError::NoExpenseCategoryAccountOnTab(category.clone(), self.id)),
        }
    }

    /// Removes the user with this id, and the user's account; an error,
    /// with the tab unchanged, when no such user is on the tab.
    pub fn remove_user(&mut self, user_id: &UserID) -> (r: Result<(), CostingError>)
        requires
            old(self).wf(),
        ensures
            final(self).wf(),
            final(self).id == old(self).id,
            final(self).name == old(self).name,
            final(self).working_currency == old(self).working_currency,
            final(self).expenses == old(self).expenses,
            final(self).category_accounts_seq() == old(self).category_accounts_seq(),
            final(self).user_actions == old(self).user_actions,
            first_match(old(self).users_seq(), has_user_id(*user_id)) matches Some(i) ==> r is Ok
                && final(self).users_seq() == old(self).users_seq().remove(i)
                && final(self).user_accounts_seq() == old(self).user_accounts_seq().remove(i),
            first_match(old(self).users_seq(), has_user_id(*user_id)) is None ==> (r matches Err(CostingError::UserDoesNotExistOnTab(u, t))
                && u == *user_id && t == old(self).id
                && final(self).users_seq() == old(self).users_seq()
                && final(self).user_accounts_seq() == old(self).user_accounts_seq()),
    {
        match user_position(&self.users, *user_id) {
            Some(i) => {
                proof {
                    lemma_first_match_found(self.users@, has_user_id(*user_id));
                    assert forall|j: int| 0 <= j < i implies !keyed_by_user(*user_id)(#[trigger] self.user_accounts@[j]) by {
                        assert(self.user_accounts@[j].0 == self.users@[j].id);
                    }
                    assert(self.user_accounts@[i as int].0 == self.users@[i as int].id);
                    lemma_first_match(self.user_accounts@, keyed_by_user(*user_id), i as int);
                }
                self.users.remove(i);
                self.user_accounts.remove(i);
                proof {
                    assert forall|a: int, b: int| 0 <= a < b < self.users@.len() implies #[trigger] self.users@[a].id != #[trigger] self.users@[b].id by {
                        let oa = if a < i { a } else { a + 1 };
                        let ob = if b < i { b } else { b + 1 };
                        assert(old(self).users@[oa] == self.users@[a]);
                        assert(old(self).users@[ob] == self.users@[b]);
                    }
                    assert forall|k: int| 0 <= k < self.users@.len() implies #[trigger] self.user_accounts@[k].0 == self.users@[k].id by {
                        let ok = if k < i { k } else { k + 1 };
                        assert(old(self).user_accounts@[ok].0 == old(self).users@[ok].id);
                    }
                }
                Ok(())
            },
            None => Err(CostingError::UserDoesNotExistOnTab(*user_id, self.id)),
        }
    }

    /// Adds the user, with a new account; an error, with the tab unchanged,
    /// when a user with the same id is already on the tab.
    pub fn add_user(&mut self, user: User) -> (r: Result<(), CostingError>)
        requires
            old(self).wf(),
        ensures
            final(self).wf(),
            final(self).id == old(self).id,
            final(self).name == old(self).name,
            final(self).working_currency == old(self).working_currency,
            final(self).expenses == old(self).expenses,
            final(self).category_accounts_seq() == old(self).category_accounts_seq(),
            final(self).user_actions == old(self).user_actions,
            old(self).user_with_id(user.id) is Some ==> (r matches Err(CostingError::UserAlreadyExistsOnTab(u, t))
                && u == user.id && t == old(self).id
                && final(self).users_seq() == old(self).users_seq()
                && final(self).user_accounts_seq() == old(self).user_accounts_seq()),
            old(self).user_with_id(user.id) is None ==> r is Ok
                && final(self).users_seq().len() == old(self).users_seq().len() + 1
                && final(self).users_seq().drop_last() == old(self).users_seq()
                && same_user(user, *final(self).users_seq().last())
                && final(self).user_accounts_seq().drop_last() == old(self).user_accounts_seq()
                && final(self).user_accounts_seq().last().0 == user.id
                && is_user_account(*final(self).user_accounts_seq().last().1, user, old(self).working_currency),
    {
        match user_position(&self.users, user.id) {
            Some(i) => {
                proof {
                    lemma_first_match_found(self.users@, has_user_id(user.id));
                }
                Err(CostingError::UserAlreadyExistsOnTab(self.users[i].id, self.id))
            },
            None => {
                proof {
                    lemma_first_match_found(self.users@, has_user_id(user.id));
                }
                let account = Rc::new(new_account_for_user(&user, self.working_currency));
                let id = user.id;
                let u = Rc::new(user);
                self.users.push(u);
                self.user_accounts.push((id, account));
                proof {
                    assert(self.users@.drop_last() =~= old(self).users@);
                    assert(self.user_accounts@.drop_last() =~= old(self).user_accounts@);
                    assert forall|a: int, b: int| 0 <= a < b < self.users@.len() implies #[trigger] self.users@[a].id != #[trigger] self.users@[b].id by {
                        if b == self.users@.len() - 1 {
                            assert(!has_user_id(id)(old(self).users@[a]));
                        } else {
                            assert(old(self).users@[a] == self.users@[a]);
                            assert(old(self).users@[b] == self.users@[b]);
                        }
                    }
                    assert forall|k: int| 0 <= k < self.users@.len() implies #[trigger] self.user_accounts@[k].0 == self.users@[k].id by {
                        if k < old(self).users@.len() {
                            assert(old(self).user_accounts@[k].0 == old(self).users@[k].id);
                        }
                    }
                }
                Ok(())
            },
        }
    }

    /// The users of the tab.
    pub fn users(&self) -> (r: &Vec<Rc<User>>)
        ensures
            r@ == self.users_seq(),
    {
        &self.users
    }

    /// The user whose account has this id: `None` when the tab keeps no
    /// user account with this id, and an error when the user of that
    /// account is not on the tab.
    pub(crate) fn get_user_with_account(&self, account_id: &AccountID) -> (r: Option<Result<Rc<User>, CostingError>>)
        ensures
            first_match(self.user_accounts_seq(), has_account_id(account_id@)) is None ==> r is None,
            first_match(self.user_accounts_seq(), has_account_id(account_id@)) matches Some(i) ==> ({
                let id = self.user_accounts_seq()[i].0;
                &&& self.user_with_id(id) matches Some(u) ==> r matches Some(Ok(x)) && x == u
                &&& self.user_with_id(id) is None ==> (r matches Some(Err(CostingError::UserDoesNotExistOnTab(u, t))) && u == id && t == self.id)
            }),
    {
        let mut i: usize = 0;
        while i < self.user_accounts.len()
            invariant
                i <= self.user_accounts.len(),
                forall|j: int| 0 <= j < i ==> !has_account_id(account_id@)(#[trigger] self.user_accounts@[j]),
            decreases self.user_accounts.len() - i,
        {
            if self.user_accounts[i].1.id == *account_id {
                proof {
                    lemma_first_match(self.user_accounts@, has_account_id(account_id@), i as int);
                }
                let id = self.user_accounts[i].0;
                return match self.user(&id) {
                    Ok(u) => Some(Ok(u.clone())),
                    Err(e) => Some(Err(e)),
                };
            }
            i = i + 1;
        }
        proof {
            lemma_first_match(self.user_accounts@, has_account_id(account_id@), i as int);
        }
        None
    }
}

/// The accounts that a well formed tab keeps are in its working currency.
pub proof fn lemma_tab_accounts(tab: Tab)
    requires
        tab.wf(),
    ensures
        forall|id: UserID| #[trigger] tab.user_account(id) is Some ==> tab.user_account(id)->0.currency.code == tab.working_currency,
        forall|c: Seq<char>| #[trigger] tab.category_account(c) is Some ==> tab.category_account(c)->0.currency.code == tab.working_currency,
{
    assert forall|id: UserID| #[trigger] tab.user_account(id) is Some implies tab.user_account(id)->0.currency.code == tab.working_currency by {
        lemma_first_match_found(tab.user_accounts_seq(), keyed_by_user(id));
    }
    assert forall|c: Seq<char>| #[trigger] tab.category_account(c) is Some implies tab.category_account(c)->0.currency.code == tab.working_currency by {
        lemma_first_match_found(tab.category_accounts_seq(), keyed_by_category(c));
    }
}

/// Holds of an account entry whose account has this id.
pub open spec fn has_account_id(id: Seq<char>) -> spec_fn((UserID, Rc<Account>)) -> bool {
    |p: (UserID, Rc<Account>)| p.1.id@ == id
}


/// Removing a user undoes adding them: adding a user whose id is not on a
/// well formed tab (as [Tab::add_user] does) and then removing that id (as
/// [Tab::remove_user] does) gives back the users and their accounts.
pub proof fn law_remove_user_undoes_add_user(before: Tab, added: Tab, removed: Tab, id: UserID)
    requires
        before.wf(),
        added.wf(),
        before.user_with_id(id) is None,
        added.users_seq().len() == before.users_seq().len() + 1,
        added.users_seq().drop_last() == before.users_seq(),
        added.users_seq().last().id == id,
        added.user_accounts_seq().drop_last() == before.user_accounts_seq(),
        first_match(added.users_seq(), has_user_id(id)) matches Some(i) ==> removed.users_seq() == added.users_seq().remove(i)
            && removed.user_accounts_seq() == added.user_accounts_seq().remove(i),
    ensures
        removed.users_seq() == before.users_seq(),
        removed.user_accounts_seq() == before.user_accounts_seq(),
{
    let n = before.users_seq().len() as int;
    lemma_first_match_found(before.users_seq(), has_user_id(id));
    assert forall|j: int| 0 <= j < n implies !has_user_id(id)(#[trigger] added.users_seq()[j]) by {
        assert(added.users_seq()[j] == before.users_seq()[j]);
    }
    lemma_first_match(added.users_seq(), has_user_id(id), n);
    assert(added.users_seq().remove(n) =~= before.users_seq());
    assert(added.user_accounts_seq().remove(n) =~= before.user_accounts_seq());
}

} // verus!
