//! Balancing a tab: the settlements that make each user bear a fair share
//! of the expenses they took part in.

use vstd::prelude::*;
use std::rc::Rc;
use crate::accounting::{
    Account, AccountState, AccountStatus, AccountingError, ActionTypeValue, Program, ProgramState, Transaction, TransactionFailure, apply_elements,
    default_state, element_models, execute_spec, failure_error, first_empty, initial_states, lemma_state_index_found,
    copy_states, negated, perform_model, state_index, state_position, sum_except, sum_states_from, try_sum_account_states, two_empty, with_state,
};
use crate::currency::{Commodity, CurrencyCode, add_error};
use crate::decimal::{Decimal, checked_difference, checked_quotient, checked_sum, parts_eq, parts_lt};
use crate::costing::error::CostingError;
use crate::costing::expense::{Expense, first_without_account, share_of, today};
use crate::costing::tab::{Tab, has_account_id, lemma_tab_accounts};
use crate::costing::settlement::Settlement;
use crate::costing::user::{User, UserID};
use crate::search::first_match;
use crate::costing::fair::{fair, fair_fits};

verus! {

/// What the accounting reads of a transaction: the account and the amount
/// of each element.
pub type Elements = Seq<(Rc<Account>, Option<Commodity>)>;

/// The elements of the transaction where the payer of the expense pays it
/// (see [Expense::get_actual_transaction]).
pub open spec fn actual_elements(tab: Tab, e: Expense) -> Result<Elements, CostingError> {
    match tab.user_account(e.paid_by) {
        None => Err(CostingError::UserAccountDoesNotExistOnTab(e.paid_by, tab.id)),
        Some(payer) => match tab.category_account(e.category@) {
            None => Err(CostingError::NoExpenseCategoryAccountOnTab(e.category, tab.id)),
            Some(category) => Ok(seq![(payer, Some(negated(e.amount))), (category, None)]),
        },
    }
}

/// The elements of the transaction where the users sharing the expense
/// bear it (see [Expense::get_shared_transaction]); `None` where the share
/// is not defined.
pub open spec fn shared_elements(tab: Tab, e: Expense) -> Option<Result<Elements, CostingError>> {
    let n = e.shared_by.len();
    if n > i64::MAX || checked_quotient(e.amount.value@, (n as int, 0int)) is None {
        None
    } else {
        match first_without_account(tab, e.shared_by@) {
            Some(i) => Some(Err(CostingError::UserAccountDoesNotExistOnTab(e.shared_by@[i], tab.id))),
            None => match tab.category_account(e.category@) {
                None => Some(Err(CostingError::NoExpenseCategoryAccountOnTab(e.category, tab.id))),
                Some(category) => Some(Ok(Seq::new(n as nat, |i: int| (tab.user_account(e.shared_by@[i])->0, Some(share_of(e)))).push(
                    (category, None),
                ))),
            },
        }
    }
}

/// Holds of an account with this id.
pub open spec fn has_id(id: Seq<char>) -> spec_fn(Rc<Account>) -> bool {
    |a: Rc<Account>| a.id@ == id
}

/// The accounts after inserting `a` by its id: it replaces the account
/// with the same id, or is added at the end.
pub open spec fn insert_account(accounts: Seq<Rc<Account>>, a: Rc<Account>) -> Seq<Rc<Account>> {
    match first_match(accounts, has_id(a.id@)) {
        Some(k) => accounts.update(k, a),
        None => accounts.push(a),
    }
}

/// The transactions of the first `n` expenses, as elements (those where
/// each was paid, and those where it was shared), with the accounts of
/// their categories; the first error, or `None` where a share is not
/// defined.
pub open spec fn expense_models(tab: Tab, n: int) -> Option<Result<(Seq<Elements>, Seq<Elements>, Seq<Rc<Account>>), CostingError>>
    decreases n,
{
    if n <= 0 || n > tab.expenses.len() {
        Some(Ok((Seq::empty(), Seq::empty(), Seq::empty())))
    } else {
        match expense_models(tab, n - 1) {
            None => None,
            Some(Err(e)) => Some(Err(e)),
            Some(Ok((actual, shared, accounts))) => {
                let e = tab.expenses@[n - 1];
                match actual_elements(tab, e) {
                    Err(err) => Some(Err(err)),
                    Ok(a) => match shared_elements(tab, e) {
                        None => None,
                        Some(Err(err)) => Some(Err(err)),
                        Some(Ok(sh)) => Some(Ok((actual.push(a), shared.push(sh), insert_account(accounts, tab.category_account(e.category@)->0)))),
                    },
                }
            },
        }
    }
}

/// The accounts after adding those of the users from index `k` on; an
/// error for a user without an account, `None` where an account with the
/// same id is already there.
pub open spec fn add_user_accounts(tab: Tab, accounts: Seq<Rc<Account>>, k: int) -> Option<Result<Seq<Rc<Account>>, CostingError>>
    decreases tab.users.len() - k,
{
    if k < 0 || k >= tab.users.len() {
        Some(Ok(accounts))
    } else {
        let id = tab.users@[k].id;
        match tab.user_account(id) {
            None => Some(Err(CostingError::UserAccountDoesNotExistOnTab(id, tab.id))),
            Some(a) => if first_match(accounts, has_id(a.id@)) is Some {
                None
            } else {
                add_user_accounts(tab, accounts.push(a), k + 1)
            },
        }
    }
}

/// The states after performing the transactions with these elements from
/// index `i` on, stopping at the first that fails, whose index and failure
/// are given; `None` where one cannot be performed without a panic.
pub open spec fn run_models(ms: Seq<Elements>, i: int, states: Seq<AccountState>) -> Option<(Seq<AccountState>, Option<(int, TransactionFailure)>)>
    decreases ms.len() - i,
{
    if i < 0 || i >= ms.len() {
        Some((states, None))
    } else {
        match perform_model(ms[i], states) {
            None => None,
            Some((after, Some(f))) => Some((after, Some((i, f)))),
            Some((after, None)) => run_models(ms, i + 1, after),
        }
    }
}

/// `e` is the error for the failure `f` of a transaction with these
/// elements.
pub open spec fn model_failure_error(f: TransactionFailure, elements: Elements, e: AccountingError) -> bool {
    match f {
        TransactionFailure::TooFewElements => e matches AccountingError::InvalidTransaction(tt, r) && element_models(tt.elements@) == elements
            && r@ == "a transaction cannot have less than 2 elements"@,
        TransactionFailure::MultipleEmpty => e matches AccountingError::InvalidTransaction(tt, r) && element_models(tt.elements@) == elements
            && r@ == "multiple elements with no amount specified"@,
        TransactionFailure::NonZeroSum => e matches AccountingError::InvalidTransaction(tt, r) && element_models(tt.elements@) == elements
            && r@ == "sum of transaction elements does not equal zero"@,
        TransactionFailure::MissingAmount => e matches AccountingError::InvalidTransaction(tt, r) && element_models(tt.elements@) == elements
            && r@ == "unable to calculate all required amounts for this transaction"@,
        TransactionFailure::Incompatible(x, y) => e matches AccountingError::Currency(ce) && add_error(x, y, ce),
        TransactionFailure::ClosedAccount(a) => e matches AccountingError::InvalidAccountStatus { account, status } && account == a
            && status == AccountStatus::Closed,
    }
}

/// The states are open and hold amounts of this currency.
pub open spec fn in_currency(states: Seq<AccountState>, currency: CurrencyCode) -> bool {
    forall|i: int| 0 <= i < states.len() ==> (#[trigger] states[i]).amount.currency_code == currency && states[i].status == AccountStatus::Open
}

/// How balancing a tab ends.
pub enum Balance {
    /// The expenses were performed: the settlements are those that settle
    /// the tab fairly (see `fair`).
    Settled,
    /// An error of the tab.
    Failed(CostingError),
    /// A transaction with these elements failed so.
    TransactionFailed(TransactionFailure, Elements),
}

/// The outcome of balancing the tab (see [Tab::balance_transactions]): an
/// error of the tab, or of a transaction of its expenses, or the fair
/// settlements. `None` where the computation cannot go on: a share that is
/// not defined (an expense that no one shares), a sum that overflows, a
/// duplicate account, or amounts that do not fit at the tab's finest scale
/// (see `fair_fits`).
pub open spec fn balance_spec(tab: Tab) -> Option<Balance> {
    match expense_models(tab, tab.expenses.len() as int) {
        None => None,
        Some(Err(e)) => Some(Balance::Failed(e)),
        Some(Ok((actual, shared, expense_accounts))) => match add_user_accounts(tab, expense_accounts, 0) {
            None => None,
            Some(Err(e)) => Some(Balance::Failed(e)),
            Some(Ok(accounts)) => {
                let initial = initial_states(accounts, AccountStatus::Open);
                match run_models(actual, 0, initial) {
                    None => None,
                    Some((_, Some((j, f)))) => Some(Balance::TransactionFailed(f, actual[j])),
                    Some((_, None)) => match run_models(shared, 0, initial) {
                        None => None,
                        Some((_, Some((j, f)))) => Some(Balance::TransactionFailed(f, shared[j])),
                        Some((_, None)) => if fair_fits(tab) {
                            Some(Balance::Settled)
                        } else {
                            None
                        },
                    },
                }
            },
        },
    }
}


/// The actions are transactions with these elements.
pub open spec fn transactions_with(actions: Seq<ActionTypeValue>, ms: Seq<Elements>) -> bool {
    &&& actions.len() == ms.len()
    &&& forall|k: int| 0 <= k < actions.len() ==> (#[trigger] actions[k] matches ActionTypeValue::Transaction(t) && element_models(t.elements@) == ms[k])
}

/// Executing transactions is running their elements.
proof fn lemma_execute_models(actions: Seq<ActionTypeValue>, ms: Seq<Elements>, i: int, states: Seq<AccountState>)
    requires
        transactions_with(actions, ms),
        0 <= i,
    ensures
        execute_spec(actions, i, states) == run_models(ms, i, states),
    decreases actions.len() - i,
{
    if i < actions.len() {
        assert(actions[i] matches ActionTypeValue::Transaction(t) && element_models(t.elements@) == ms[i]);
        match perform_model(ms[i], states) {
            Some((after, None)) => lemma_execute_models(actions, ms, i + 1, after),
            _ => {},
        }
    }
}

/// The error of a failed transaction is that of its elements.
proof fn lemma_model_failure_error(f: TransactionFailure, t: Transaction, e: AccountingError)
    requires
        failure_error(f, t, e),
    ensures
        model_failure_error(f, element_models(t.elements@), e),
{
    match e {
        AccountingError::InvalidTransaction(tt, _) => {
            if !(f is Incompatible) && !(f is ClosedAccount) {
                assert(element_models(tt.elements@) =~= element_models(t.elements@)) by {
                    assert forall|k: int| 0 <= k < t.elements.len() implies element_models(tt.elements@)[k] == element_models(t.elements@)[k] by {
                        assert(t.elements@[k] == t.elements@[k] && tt.elements@[k] == tt.elements@[k]);
                    }
                }
            }
        },
        _ => {},
    }
}

/// Adding the elements keeps the states open and in the currency.
proof fn lemma_apply_in_currency(elements: Elements, i: int, states: Seq<AccountState>, w: CurrencyCode)
    requires
        in_currency(states, w),
    ensures
        apply_elements(elements, i, states) matches Some((after, _)) ==> in_currency(after, w),
    decreases elements.len() - i,
{
    if 0 <= i < elements.len() {
        let el = elements[i];
        match state_index(states, el.0.id@) {
            None => {},
            Some(k) => {
                lemma_state_index_found(states, el.0.id@);
                let st = states[k];
                if st.status != AccountStatus::Closed {
                    if let Some(a) = el.1 {
                        if st.amount.currency_code@ == a.currency_code@ {
                            if let Some(v) = checked_sum(st.amount.value@, a.value@) {
                                let next = states.update(k, AccountState {
                                    account: st.account,
                                    amount: Commodity { value: Decimal::of_parts(v), currency_code: st.amount.currency_code },
                                    status: st.status,
                                });
                                assert(in_currency(states, w));
                                assert(states[k].amount.currency_code == w && states[k].status == AccountStatus::Open);
                                assert forall|j: int| 0 <= j < next.len() implies (#[trigger] next[j]).amount.currency_code == w
                                    && next[j].status == AccountStatus::Open by {
                                    if j != k {
                                        assert(next[j] == states[j]);
                                    }
                                }
                                lemma_apply_in_currency(elements, i + 1, next, w);
                            }
                        }
                    }
                }
            },
        }
    }
}

/// Performing transactions keeps the states open and in the currency.
proof fn lemma_run_in_currency(ms: Seq<Elements>, i: int, states: Seq<AccountState>, w: CurrencyCode)
    requires
        in_currency(states, w),
    ensures
        run_models(ms, i, states) matches Some((after, _)) ==> in_currency(after, w),
    decreases ms.len() - i,
{
    if 0 <= i < ms.len() {
        let elements = ms[i];
        if elements.len() >= 2 && !two_empty(elements) {
            match first_empty(elements) {
                None => lemma_apply_in_currency(elements, 0, states, w),
                Some(e) => {
                    let zero = Commodity { value: Decimal::of_parts((0, 0)), currency_code: elements[e].0.currency.code };
                    if let Some(Ok(sum)) = sum_except(elements, e, 0, zero) {
                        lemma_apply_in_currency(elements.update(e, (elements[e].0, Some(negated(sum)))), 0, states, w);
                    }
                },
            }
        }
        match perform_model(ms[i], states) {
            Some((after, None)) => lemma_run_in_currency(ms, i + 1, after, w),
            _ => {},
        }
    }
}

/// The initial states of accounts of the currency are open and in it.
proof fn lemma_initial_in_currency(accounts: Seq<Rc<Account>>, w: CurrencyCode)
    requires
        forall|i: int| 0 <= i < accounts.len() ==> (#[trigger] accounts[i]).currency.code == w,
    ensures
        in_currency(initial_states(accounts, AccountStatus::Open), w),
    decreases accounts.len(),
{
    if accounts.len() > 0 {
        let rest = accounts.drop_last();
        assert forall|i: int| 0 <= i < rest.len() implies (#[trigger] rest[i]).currency.code == w by {
            assert(rest[i] == accounts[i]);
        }
        lemma_initial_in_currency(rest, w);
        let before = initial_states(rest, AccountStatus::Open);
        let st = default_state(accounts.last(), AccountStatus::Open);
        lemma_state_index_found(before, st.account.id@);
        let after = with_state(before, st);
        assert forall|j: int| 0 <= j < after.len() implies (#[trigger] after[j]).amount.currency_code == w
            && after[j].status == AccountStatus::Open by {
            match state_index(before, st.account.id@) {
                Some(k) => {
                    if j != k {
                        assert(after[j] == before[j]);
                    }
                },
                None => {
                    if j < before.len() {
                        assert(after[j] == before[j]);
                    }
                },
            }
        }
    }
}



/// The elements of each transaction.
pub open spec fn models_of(ts: Seq<Transaction>) -> Seq<Elements> {
    ts.map_values(|t: Transaction| element_models(t.elements@))
}

/// Once the transactions of the expenses fail, they fail the same way for
/// more expenses.
proof fn lemma_expense_models_stop(tab: Tab, n: int, m: int)
    requires
        0 <= n <= m <= tab.expenses.len(),
        !(expense_models(tab, n) matches Some(Ok(_))),
    ensures
        expense_models(tab, m) == expense_models(tab, n),
    decreases m - n,
{
    if m > n {
        lemma_expense_models_stop(tab, n, m - 1);
    }
}

/// The position of the first account with this id.
fn account_position(accounts: &Vec<Rc<Account>>, id: &String) -> (r: Option<usize>)
    ensures
        r is None <==> first_match(accounts@, has_id(id@)) is None,
        r matches Some(k) ==> first_match(accounts@, has_id(id@)) == Some(k as int) && k < accounts.len(),
{
    let mut i: usize = 0;
    while i < accounts.len()
        invariant
            i <= accounts.len(),
            forall|j: int| 0 <= j < i ==> !has_id(id@)(#[trigger] accounts@[j]),
        decreases accounts.len() - i,
    {
        if accounts[i].id == *id {
            proof {
                crate::search::lemma_first_match(accounts@, has_id(id@), i as int);
            }
            return Some(i);
        }
        i = i + 1;
    }
    proof {
        crate::search::lemma_first_match(accounts@, has_id(id@), i as int);
    }
    None
}

impl Tab {
    /// The transactions of the expenses (paid, and shared) and the accounts
    /// of their categories (see `expense_models`).
    fn expense_transactions(&self) -> (r: Option<Result<(Vec<Transaction>, Vec<Transaction>, Vec<Rc<Account>>), CostingError>>)
        requires
            self.wf(),
        ensures
            r matches Some(Ok((_, _, accounts))) ==> forall|k: int| 0 <= k < accounts.len() ==> (#[trigger] accounts@[k]).currency.code == self.working_currency,
            r is None <==> expense_models(*self, self.expenses.len() as int) is None,
            r matches Some(Err(e)) ==> expense_models(*self, self.expenses.len() as int) == Some(Err::<(Seq<Elements>, Seq<Elements>, Seq<Rc<Account>>), CostingError>(e)),
            r matches Some(Ok((a, sh, accounts))) ==> expense_models(*self, self.expenses.len() as int) == Some(Ok::<(Seq<Elements>, Seq<Elements>, Seq<Rc<Account>>), CostingError>((models_of(a@), models_of(sh@), accounts@))),
    {
        let mut actual: Vec<Transaction> = Vec::new();
        let mut shared: Vec<Transaction> = Vec::new();
        let mut accounts: Vec<Rc<Account>> = Vec::new();
        let mut i: usize = 0;
        proof {
            assert(models_of(actual@) =~= Seq::empty());
            assert(models_of(shared@) =~= Seq::empty());
        }
        while i < self.expenses.len()
            invariant
                i <= self.expenses.len(),
                expense_models(*self, i as int) == Some(Ok::<(Seq<Elements>, Seq<Elements>, Seq<Rc<Account>>), CostingError>((models_of(actual@), models_of(shared@), accounts@))),
                self.wf(),
                forall|k: int| 0 <= k < accounts.len() ==> (#[trigger] accounts@[k]).currency.code == self.working_currency,
            decreases self.expenses.len() - i,
        {
            let expense = &self.expenses[i];
            let ghost e = self.expenses@[i as int];
            let a = match expense.get_actual_transaction(self) {
                Ok(t) => t,
                Err(err) => {
                    proof {
                        assert(actual_elements(*self, e) == Err::<Elements, CostingError>(err));
                        lemma_expense_models_stop(*self, i + 1, self.expenses.len() as int);
                    }
                    return Some(Err(err));
                },
            };
            proof {
                assert(element_models(a.elements@) =~= seq![
                    (self.user_account(e.paid_by)->0, Some(negated(e.amount))),
                    (self.category_account(e.category@)->0, None::<Commodity>)
                ]);
                assert(actual_elements(*self, e) == Ok::<Elements, CostingError>(element_models(a.elements@)));
            }
            let sh = match expense.try_get_shared_transaction(self) {
                None => {
                    proof {
                        lemma_expense_models_stop(*self, i + 1, self.expenses.len() as int);
                    }
                    return None;
                },
                Some(Err(err)) => {
                    proof {
                        assert(shared_elements(*self, e) == Some(Err::<Elements, CostingError>(err)));
                        lemma_expense_models_stop(*self, i + 1, self.expenses.len() as int);
                    }
                    return Some(Err(err));
                },
                Some(Ok(t)) => t,
            };
            proof {
                let n = e.shared_by.len();
                assert(element_models(sh.elements@) =~= Seq::new(n as nat, |k: int| (self.user_account(e.shared_by@[k])->0, Some(share_of(e)))).push(
                    (self.category_account(e.category@)->0, None::<Commodity>),
                )) by {
                    assert forall|k: int| 0 <= k < n implies element_models(sh.elements@)[k] == (self.user_account(e.shared_by@[k])->0, Some(share_of(e))) by {
                        assert(sh.elements@[k] == sh.elements[k]);
                    }
                }
                assert(shared_elements(*self, e) == Some(Ok::<Elements, CostingError>(element_models(sh.elements@))));
            }
            let category_account = match self.get_expense_category_account(&expense.category) {
                Ok(acct) => acct.clone(),
                Err(_) => {
                    assert(false);
                    return None;
                },
            };
            proof {
                lemma_tab_accounts(*self);
                assert(self.category_account(e.category@) matches Some(x) && x.currency.code == self.working_currency);
            }
            match account_position(&accounts, &category_account.id) {
                Some(k) => {
                    accounts.set(k, category_account);
                },
                None => {
                    accounts.push(category_account);
                },
            }
            proof {
                assert(models_of(actual@.push(a)) =~= models_of(actual@).push(element_models(a.elements@)));
                assert(models_of(shared@.push(sh)) =~= models_of(shared@).push(element_models(sh.elements@)));
            }
            actual.push(a);
            shared.push(sh);
            i = i + 1;
        }
        Some(Ok((actual, shared, accounts)))
    }

    /// The accounts after adding those of the users (see
    /// `add_user_accounts`).
    fn with_user_accounts(&self, accounts: Vec<Rc<Account>>) -> (r: Option<Result<Vec<Rc<Account>>, CostingError>>)
        requires
            self.wf(),
            forall|k: int| 0 <= k < accounts.len() ==> (#[trigger] accounts@[k]).currency.code == self.working_currency,
        ensures
            r matches Some(Ok(all)) ==> forall|k: int| 0 <= k < all.len() ==> (#[trigger] all@[k]).currency.code == self.working_currency,
            r is None <==> add_user_accounts(*self, accounts@, 0) is None,
            r matches Some(Err(e)) ==> add_user_accounts(*self, accounts@, 0) == Some(Err::<Seq<Rc<Account>>, CostingError>(e)),
            r matches Some(Ok(all)) ==> add_user_accounts(*self, accounts@, 0) == Some(Ok::<Seq<Rc<Account>>, CostingError>(all@)),
    {
        let ghost goal = add_user_accounts(*self, accounts@, 0);
        let mut all = accounts;
        let mut k: usize = 0;
        while k < self.users.len()
            invariant
                k <= self.users.len(),
                goal == add_user_accounts(*self, all@, k as int),
                goal == add_user_accounts(*self, accounts@, 0),
                self.wf(),
                forall|q: int| 0 <= q < all.len() ==> (#[trigger] all@[q]).currency.code == self.working_currency,
            decreases self.users.len() - k,
        {
            let id = self.users[k].id;
            let account = match self.get_user_account(&id) {
                Ok(a) => a.clone(),
                Err(e) => {
                    return Some(Err(e));
                },
            };
            if account_position(&all, &account.id).is_some() {
                return None;
            }
            proof {
                lemma_tab_accounts(*self);
                assert(self.user_account(id) matches Some(x) && x.currency.code == self.working_currency);
            }
            all.push(account);
            k = k + 1;
        }
        Some(Ok(all))
    }
}


/// A failure of a run is at a transaction of the run.
proof fn lemma_run_index(ms: Seq<Elements>, i: int, states: Seq<AccountState>)
    requires
        0 <= i,
    ensures
        run_models(ms, i, states) matches Some((_, Some((j, _)))) ==> i <= j < ms.len(),
    decreases ms.len() - i,
{
    if i < ms.len() {
        match perform_model(ms[i], states) {
            Some((after, None)) => lemma_run_index(ms, i + 1, after),
            _ => {},
        }
    }
}


/// Performs the transactions, in order, on the initial (open) states of
/// the accounts: the states after them all, or the error of the first that
/// fails; `None` where one cannot be performed without a panic.
fn run_transactions(accounts: &Vec<Rc<Account>>, transactions: Vec<Transaction>) -> (r: Option<Result<Vec<AccountState>, AccountingError>>)
    ensures
        r is None <==> run_models(models_of(transactions@), 0, initial_states(accounts@, AccountStatus::Open)) is None,
        r matches Some(Ok(states)) ==> run_models(models_of(transactions@), 0, initial_states(accounts@, AccountStatus::Open)) == Some(
            (states@, None::<(int, TransactionFailure)>),
        ),
        r matches Some(Err(e)) ==> (run_models(models_of(transactions@), 0, initial_states(accounts@, AccountStatus::Open)) matches Some(
            (_, Some((j, f))),
        ) && model_failure_error(f, models_of(transactions@)[j], e)),
{
    let ghost ms = models_of(transactions@);
    let n: usize = transactions.len();
    let mut rest = transactions;
    let mut actions: Vec<ActionTypeValue> = Vec::new();
    let mut k: usize = 0;
    while rest.len() > 0
        invariant
            k + rest.len() == ms.len(),
            ms.len() == n,
            ms.len() == transactions@.len(),
            rest@ == transactions@.skip(k as int),
            ms == models_of(transactions@),
            transactions_with(actions@, ms.take(k as int)),
        decreases rest.len(),
    {
        let t = rest.remove(0);
        proof {
            assert(t == transactions@[k as int]);
            assert(rest@ =~= transactions@.skip(k + 1));
        }
        actions.push(ActionTypeValue::Transaction(t));
        k = k + 1;
        proof {
            assert forall|q: int| 0 <= q < actions.len() implies (#[trigger] actions@[q] matches ActionTypeValue::Transaction(tt)
                && element_models(tt.elements@) == ms.take(k as int)[q]) by {
                if q < k - 1 {
                    assert(ms.take(k as int)[q] == ms.take(k - 1)[q]);
                }
            }
        }
    }
    proof {
        assert(ms.take(k as int) =~= ms);
        lemma_execute_models(actions@, ms, 0, initial_states(accounts@, AccountStatus::Open));
    }
    let program = Program::new(actions);
    let mut state = ProgramState::new_with_status(accounts, AccountStatus::Open);
    match state.try_execute_program(&program) {
        None => None,
        Some(Ok(())) => Some(Ok(state.account_states)),
        Some(Err(e)) => {
            proof {
                lemma_run_index(ms, 0, initial_states(accounts@, AccountStatus::Open));
                let (_, failure) = execute_spec(program.actions@, 0, initial_states(accounts@, AccountStatus::Open))->0;
                let (j, f) = failure->0;
                assert(program.actions@[j] matches ActionTypeValue::Transaction(t) && element_models(t.elements@) == ms[j]);
                if let ActionTypeValue::Transaction(t) = program.actions@[j] {
                    lemma_model_failure_error(f, t, e);
                }
            }
            Some(Err(e))
        },
    }
}


/// The settlements `r` are what balancing the tab gives (see
/// `balance_spec`): the settlements in the working currency, or the error.
pub open spec fn balance_result(tab: Tab, r: Result<Vec<Settlement>, CostingError>) -> bool {
    match balance_spec(tab) {
        Some(Balance::Settled) => r matches Ok(v) && fair(tab, v@),
        Some(Balance::Failed(e)) => r == Err::<Vec<Settlement>, CostingError>(e),
        Some(Balance::TransactionFailed(f, elements)) => r matches Err(CostingError::Accounting(e)) && model_failure_error(f, elements, e),
        None => false,
    }
}

/// A copy of the accounts.
fn copy_accounts(accounts: &Vec<Rc<Account>>) -> (r: Vec<Rc<Account>>)
    ensures
        r@ == accounts@,
{
    let mut r: Vec<Rc<Account>> = Vec::new();
    let mut i: usize = 0;
    while i < accounts.len()
        invariant
            i <= accounts.len(),
            r@ == accounts@.take(i as int),
        decreases accounts.len() - i,
    {
        r.push(accounts[i].clone());
        i = i + 1;
        proof {
            assert(r@ =~= accounts@.take(i as int));
        }
    }
    proof {
        assert(r@ =~= accounts@);
    }
    r
}

impl Tab {
    /// Balancing the tab (see `balance_spec`), or `None` where the
    /// computation would panic.
    fn balance_core(&self) -> (r: Option<Result<Vec<Settlement>, CostingError>>)
        requires
            self.wf(),
        ensures
            r is None <==> balance_spec(*self) is None,
            r matches Some(res) ==> balance_result(*self, res),
    {
        let w = self.working_currency;
        let (actual, shared, expense_accounts) = match self.expense_transactions() {
            None => {
                return None;
            },
            Some(Err(e)) => {
                return Some(Err(e));
            },
            Some(Ok(x)) => x,
        };
        let accounts = match self.with_user_accounts(copy_accounts(&expense_accounts)) {
            None => {
                return None;
            },
            Some(Err(e)) => {
                return Some(Err(e));
            },
            Some(Ok(a)) => a,
        };
        let ghost initial = initial_states(accounts@, AccountStatus::Open);
        let ghost actual_models = models_of(actual@);
        let ghost shared_models = models_of(shared@);
        proof {
            lemma_initial_in_currency(accounts@, w);
            lemma_run_in_currency(actual_models, 0, initial, w);
            lemma_run_in_currency(shared_models, 0, initial, w);
        }
        // The transactions of the expenses run through the accounting
        // engine, as they are recorded: the first that fails gives the
        // error of the balancing. The balances themselves are then taken
        // from the expenses at one common scale (`fair_settlements`), where
        // they are exact integers; the engine's states hold the same
        // balances only where rust_decimal's sums happen to be exact, so
        // they are not read.
        match run_transactions(&accounts, actual) {
            None => {
                return None;
            },
            Some(Err(e)) => {
                return Some(Err(CostingError::Accounting(e)));
            },
            Some(Ok(_)) => {},
        }
        match run_transactions(&accounts, shared) {
            None => {
                return None;
            },
            Some(Err(e)) => {
                return Some(Err(CostingError::Accounting(e)));
            },
            Some(Ok(_)) => {},
        }
        match self.fair_settlements() {
            None => None,
            Some(settlements) => Some(Ok(settlements)),
        }
    }

    /// The settlements that, paid after the expenses of the tab, leave each
    /// user having paid their share of the expenses they took part in (see
    /// `fair`): each receives, less what they send, what they paid less
    /// their shares, up to what the divided shares miss of the expenses
    /// (nothing when the divisions are exact); each settlement goes from a
    /// user who owes to one who is owed, for no more than either balance;
    /// and there are fewer settlements than users with a balance. Each user
    /// who owes, smallest
    /// debt first, pays the whole debt to the first user owed at least as
    /// much (smallest claim first), or else pays the users owed in turn until
    /// the debt is paid. An error of the tab, or of a transaction of its
    /// expenses, is returned (see `balance_spec`). The computation must not
    /// overflow, and every expense must be shared by someone.
    pub fn balance_transactions(&self) -> (r: Result<Vec<Settlement>, CostingError>)
        requires
            self.wf(),
            balance_spec(*self) is Some,
        ensures
            balance_result(*self, r),
    {
        self.balance_core().unwrap()
    }

    /// [Tab::balance_transactions], or `None` where its computation cannot
    /// go on: a share that is not defined, a sum that overflows, a duplicate
    /// account, or amounts that do not fit at the tab's finest scale.
    pub fn try_balance_transactions(&self) -> (r: Option<Result<Vec<Settlement>, CostingError>>)
        requires
            self.wf(),
        ensures
            r is None <==> balance_spec(*self) is None,
            r matches Some(res) ==> balance_result(*self, res),
    {
        match self.balance_core() {
            None => None,
            Some(_) => Some(self.balance_transactions()),
        }
    }
}


} // verus!
