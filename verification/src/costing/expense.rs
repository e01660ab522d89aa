//! Expenses: paid by one user, shared by several.

use vstd::prelude::*;
use crate::accounting::{Transaction, TransactionElement, negated};
use crate::currency::Commodity;
use crate::decimal::{Decimal, checked_quotient};
use crate::exchange_rate::{ExchangeRate, same_rate};
use crate::costing::error::CostingError;
use crate::costing::tab::Tab;
use crate::costing::user::UserID;

verus! {

/// The id of an [Expense].
pub type ExpenseID = i32;

/// The category that an expense is attributed to.
pub type ExpenseCategory = String;

/// Calls `chrono::Local::now().date_naive()`: today's date where the
/// program runs; nothing is promised of it.
#[verifier::external_body]
pub(crate) fn today() -> (d: chrono::NaiveDate) {
    chrono::Local::now().date_naive()
}

/// An expense which is paid by a user on a given date, and which is to be
/// shared by a list of users.
#[derive(Debug)]
pub struct Expense {
    /// The id of this expense.
    pub id: ExpenseID,
    /// The description of this expense.
    pub description: String,
    /// The category that the expense is attributed to.
    pub category: ExpenseCategory,
    /// The date that this expense was incurred.
    pub date: chrono::NaiveDate,
    /// The user who paid this expense.
    pub paid_by: UserID,
    /// The users who are sharing this expense.
    pub shared_by: Vec<UserID>,
    /// The amount of money.
    pub amount: Commodity,
    /// The exchange rate to use for converting the expense to the working
    /// currency.
    pub exchange_rate: Option<ExchangeRate>,
}

/// `b` is a copy of `a`: every field the same, and a copy of the exchange
/// rate.
pub open spec fn same_expense(a: Expense, b: Expense) -> bool {
    &&& a.id == b.id
    &&& a.description@ == b.description@
    &&& a.category@ == b.category@
    &&& a.date == b.date
    &&& a.paid_by == b.paid_by
    &&& a.shared_by@ == b.shared_by@
    &&& a.amount == b.amount
    &&& same_rate(a.exchange_rate, b.exchange_rate)
}

/// A copy of the exchange rate, if any.
pub(crate) fn clone_rate(rate: &Option<ExchangeRate>) -> (r: Option<ExchangeRate>)
    ensures
        same_rate(r, *rate),
{
    match rate {
        Some(r) => Some(r.clone()),
        None => None,
    }
}

impl Clone for Expense {
    fn clone(&self) -> (r: Self)
        ensures
            same_expense(*self, r),
    {
        Expense {
            id: self.id,
            description: self.description.clone(),
            category: self.category.clone(),
            date: self.date,
            paid_by: self.paid_by,
            shared_by: self.shared_by.clone(),
            amount: self.amount,
            exchange_rate: clone_rate(&self.exchange_rate),
        }
    }
}

/// The amount that each user sharing the expense bears: the negated amount
/// divided by the number of users sharing it.
pub open spec fn share_of(e: Expense) -> Commodity {
    negated(Commodity {
        value: Decimal::of_parts(checked_quotient(e.amount.value@, (e.shared_by.len() as int, 0int))->0),
        currency_code: e.amount.currency_code,
    })
}

/// The index of the first user sharing the expense that has no account
/// on the tab.
pub open spec fn first_without_account(tab: Tab, shared_by: Seq<UserID>) -> Option<int> {
    crate::search::first_match(shared_by, |u: UserID| tab.user_account(u) is None)
}

impl Expense {
    /// A new expense.
    pub fn new(
        id: ExpenseID,
        description: &str,
        category: &str,
        date: chrono::NaiveDate,
        paid_by: UserID,
        shared_by: Vec<UserID>,
        amount: Commodity,
        exchange_rate: Option<ExchangeRate>,
    ) -> (e: Expense)
        ensures
            e.id == id,
            e.description@ == description@,
            e.category@ == category@,
            e.date == date,
            e.paid_by == paid_by,
            e.shared_by == shared_by,
            e.amount == amount,
            e.exchange_rate == exchange_rate,
    {
        Expense {
            id,
            description: description.to_owned(),
            category: category.to_owned(),
            date,
            paid_by,
            shared_by,
            amount,
            exchange_rate,
        }
    }

    /// The transaction that occurred initially, where the user `paid_by`
    /// paid for the expense: the amount leaves the payer's account, and
    /// goes to the account of the expense's category.
    pub fn get_actual_transaction(&self, tab: &Tab) -> (r: Result<Transaction, CostingError>)
        ensures
            tab.user_account(self.paid_by) is None ==> (r matches Err(CostingError::UserAccountDoesNotExistOnTab(u, t))
                && u == self.paid_by && t == tab.id),
            tab.user_account(self.paid_by) is Some && tab.category_account(self.category@) is None ==> (
                r matches Err(CostingError::NoExpenseCategoryAccountOnTab(c, t)) && c == self.category && t == tab.id),
            tab.user_account(self.paid_by) is Some && tab.category_account(self.category@) is Some ==> (r matches Ok(tr)
                && tr.description matches Some(d) && d@ == self.description@
                && tr.date == self.date
                && tr.elements.len() == 2
                && tr.elements[0].account == tab.user_account(self.paid_by)->0
                && tr.elements[0].amount == Some(negated(self.amount))
                && tr.elements[1].account == tab.category_account(self.category@)->0
                && tr.elements[1].amount is None
                && same_rate(tr.elements[0].exchange_rate, self.exchange_rate)
                && same_rate(tr.elements[1].exchange_rate, self.exchange_rate)),
    {
        let payer_account = tab.get_user_account(&self.paid_by)?.clone();
        let category_account = tab.get_expense_category_account(&self.category)?.clone();
        let amount = self.amount.negate();
        proof {
            Decimal::lemma_of_parts(amount.value);
        }
        Ok(Transaction::new(
            Some(self.description.clone()),
            self.date,
            vec![
                TransactionElement::new(payer_account, Some(amount), clone_rate(&self.exchange_rate)),
                TransactionElement::new(category_account, None, clone_rate(&self.exchange_rate)),
            ],
        ))
    }

    /// The transaction where this expense is shared by all the users
    /// sharing it: each bears an equal share (the amount divided by their
    /// number), which goes to the account of the expense's category. The
    /// transaction is dated today. At least one user must share the expense,
    /// and the division must not overflow.
    pub fn get_shared_transaction(&self, tab: &Tab) -> (r: Result<Transaction, CostingError>)
        requires
            self.shared_by.len() <= i64::MAX,
            checked_quotient(self.amount.value@, (self.shared_by.len() as int, 0int)) is Some,
        ensures
            first_without_account(*tab, self.shared_by@) matches Some(i) ==> (r matches Err(CostingError::UserAccountDoesNotExistOnTab(u, t))
                && u == self.shared_by@[i] && t == tab.id),
            first_without_account(*tab, self.shared_by@) is None && tab.category_account(self.category@) is None ==> (
                r matches Err(CostingError::NoExpenseCategoryAccountOnTab(c, t)) && c == self.category && t == tab.id),
            first_without_account(*tab, self.shared_by@) is None && tab.category_account(self.category@) is Some ==> (r matches Ok(tr)
                && tr.description matches Some(d) && d@ == self.description@
                && tr.elements.len() == self.shared_by.len() + 1
                && (forall|i: int| 0 <= i < self.shared_by.len() ==> (#[trigger] tr.elements[i]).account == tab.user_account(self.shared_by@[i])->0
                    && tr.elements[i].amount == Some(share_of(*self))
                    && same_rate(tr.elements[i].exchange_rate, self.exchange_rate))
                && tr.elements[self.shared_by.len() as int].account == tab.category_account(self.category@)->0
                && tr.elements[self.shared_by.len() as int].amount is None
                && same_rate(tr.elements[self.shared_by.len() as int].exchange_rate, self.exchange_rate)),
    {
        let n: usize = self.shared_by.len();
        let quotient = self.amount.div_i64(n as i64);
        proof {
            Decimal::lemma_of_parts(quotient.value);
        }
        let divided = quotient.negate();
        proof {
            Decimal::lemma_of_parts(divided.value);
            assert(divided == share_of(*self));
        }
        let mut elements: Vec<TransactionElement> = Vec::new();
        let mut i: usize = 0;
        while i < n
            invariant
                n == self.shared_by.len(),
                i <= n,
                elements.len() == i,
                divided == share_of(*self),
                forall|j: int| 0 <= j < i ==> tab.user_account(#[trigger] self.shared_by@[j]) is Some,
                forall|j: int| 0 <= j < i ==> (#[trigger] elements[j]).account == tab.user_account(self.shared_by@[j])->0
                    && elements[j].amount == Some(share_of(*self))
                    && same_rate(elements[j].exchange_rate, self.exchange_rate),
            decreases n - i,
        {
            let account = match tab.get_user_account(&self.shared_by[i]) {
                Ok(a) => a.clone(),
                Err(e) => {
                    proof {
                        crate::search::lemma_first_match(self.shared_by@, |u: UserID| tab.user_account(u) is None, i as int);
                    }
                    return Err(e);
                },
            };
            elements.push(TransactionElement::new(account, Some(divided), clone_rate(&self.exchange_rate)));
            i = i + 1;
        }
        proof {
            crate::search::lemma_first_match(self.shared_by@, |u: UserID| tab.user_account(u) is None, n as int);
        }
        let category_account = tab.get_expense_category_account(&self.category)?.clone();
        elements.push(TransactionElement::new(category_account, None, clone_rate(&self.exchange_rate)));
        Ok(Transaction::new(Some(self.description.clone()), today(), elements))
    }

    /// [Expense::get_shared_transaction], or `None` when nobody shares the
    /// expense, or the division overflows, or more users share it than an
    /// `i64` counts.
    pub fn try_get_shared_transaction(&self, tab: &Tab) -> (r: Option<Result<Transaction, CostingError>>)
        ensures
            r is None <==> (self.shared_by.len() > i64::MAX || checked_quotient(self.amount.value@, (self.shared_by.len() as int, 0int)) is None),
            r matches Some(res) ==> (
                (first_without_account(*tab, self.shared_by@) matches Some(i) ==> (res matches Err(CostingError::UserAccountDoesNotExistOnTab(u, t))
                    && u == self.shared_by@[i] && t == tab.id))
                && (first_without_account(*tab, self.shared_by@) is None && tab.category_account(self.category@) is None ==> (
                    res matches Err(CostingError::NoExpenseCategoryAccountOnTab(c, t)) && c == self.category && t == tab.id))
                && (first_without_account(*tab, self.shared_by@) is None && tab.category_account(self.category@) is Some ==> (res matches Ok(tr)
                    && tr.description matches Some(d) && d@ == self.description@
                    && tr.elements.len() == self.shared_by.len() + 1
                    && (forall|i: int| 0 <= i < self.shared_by.len() ==> (#[trigger] tr.elements[i]).account == tab.user_account(self.shared_by@[i])->0
                        && tr.elements[i].amount == Some(share_of(*self))
                        && same_rate(tr.elements[i].exchange_rate, self.exchange_rate))
                    && tr.elements[self.shared_by.len() as int].account == tab.category_account(self.category@)->0
                    && tr.elements[self.shared_by.len() as int].amount is None
                    && same_rate(tr.elements[self.shared_by.len() as int].exchange_rate, self.exchange_rate)))),
    {
        let n: usize = self.shared_by.len();
        if n as u128 > 0x7FFF_FFFF_FFFF_FFFFu128 {
            return None;
        }
        match self.amount.try_div_i64(n as i64) {
            Some(_) => Some(self.get_shared_transaction(tab)),
            None => None,
        }
    }
}

} // verus!
