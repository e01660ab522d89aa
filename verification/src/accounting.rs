//! A double entry accounting engine: accounts, their states, and programs
//! of actions (transactions, status changes) that modify the states.

use vstd::prelude::*;
use std::rc::Rc;
use crate::currency::{Commodity, Currency, CurrencyCode, CurrencyError, add_error};
use crate::decimal::{Decimal, MAX_MANTISSA, checked_sum, exact_sum, parts_eq};
use crate::exchange_rate::{ExchangeRate, ExchangeRateError, convert_spec, same_rate};

verus! {

#[verifier::external_type_specification]
#[verifier::external_body]
pub struct ExNaiveDate(chrono::NaiveDate);

#[verifier::external_type_specification]
#[verifier::external_body]
pub struct ExParseError(chrono::ParseError);

/// The scale of the zero amount that new account states hold.
pub const DECIMAL_SCALE: u32 = 2;

/// The number of characters of a generated account id.
pub const ACCOUNT_ID_SIZE: usize = 20;

/// A character of nanoid's URL safe alphabet: `_`, `-`, a digit, or an
/// ASCII letter.
pub open spec fn safe_id_char(c: char) -> bool {
    c == '_' || c == '-' || ('0' <= c && c <= '9') || ('a' <= c && c <= 'z') || ('A' <= c && c <= 'Z')
}

/// Calls `nanoid::format` with the default random source and the safe
/// alphabet (what `nanoid!(20)` expands to); the id is random, and has
/// twenty characters of that alphabet.
#[verifier::external_body]
fn random_account_id() -> (id: String)
    ensures
        id@.len() == ACCOUNT_ID_SIZE,
        forall|i: int| 0 <= i < id@.len() ==> safe_id_char(#[trigger] id@[i]),
{
    nanoid::format(nanoid::rngs::default, &nanoid::alphabet::SAFE, ACCOUNT_ID_SIZE)
}

/// The id of an [Account].
pub type AccountID = String;

/// Whether an account can take part in transactions.
#[derive(Copy, Clone, Debug, PartialEq, Eq, Structural)]
pub enum AccountStatus {
    Open,
    Closed,
}

/// A category that accounts belong to, possibly within a parent category.
#[derive(Debug)]
pub struct AccountCategory {
    pub name: String,
    pub parent: Option<Rc<AccountCategory>>,
}

/// The kinds of [ActionTypeValue].
#[derive(Copy, Clone, Debug, PartialEq, Eq, Structural)]
pub enum ActionType {
    Transaction,
    EditAccountStatus,
}

/// Details of an account, which holds a [Commodity] of one [Currency].
#[derive(Debug)]
pub struct Account {
    /// A unique identifier for this account.
    pub id: AccountID,
    /// The name of this account.
    pub name: Option<String>,
    /// The currency stored in this account.
    pub currency: Rc<Currency>,
    /// The category of this account.
    pub category: Option<Rc<AccountCategory>>,
}

impl Account {
    /// A new account with a fresh random id.
    pub fn new(name: Option<&str>, currency: Rc<Currency>, category: Option<Rc<AccountCategory>>) -> (a: Account)
        ensures
            a.id@.len() == ACCOUNT_ID_SIZE,
            forall|i: int| 0 <= i < a.id@.len() ==> safe_id_char(#[trigger] a.id@[i]),
            name is None ==> a.name is None,
            name matches Some(n) ==> (a.name matches Some(m) && m@ == n@),
            a.currency == currency,
            a.category == category,
    {
        let name = match name {
            Some(s) => Some(s.to_owned()),
            None => None,
        };
        Account { id: random_account_id(), name, currency, category }
    }

    /// An account with the given id (for accounts read back, or for tests).
    pub fn new_with_id(id: AccountID, name: Option<String>, currency: Rc<Currency>, category: Option<Rc<AccountCategory>>) -> (a: Account)
        ensures
            a.id == id,
            a.name == name,
            a.currency == currency,
            a.category == category,
    {
        Account { id, name, currency, category }
    }
}

/// Accounts are equal when their ids are.
impl PartialEq for Account {
    fn eq(&self, other: &Account) -> (b: bool) {
        self.id == other.id
    }
}

impl vstd::std_specs::cmp::PartialEqSpecImpl for Account {
    open spec fn obeys_eq_spec() -> bool {
        true
    }

    open spec fn eq_spec(&self, other: &Account) -> bool {
        self.id@ == other.id@
    }
}

/// The state of an [Account]: its amount and status.
#[derive(Debug)]
pub struct AccountState {
    /// The account of this state.
    pub account: Rc<Account>,
    /// The amount currently in the account.
    pub amount: Commodity,
    /// Whether the account is open.
    pub status: AccountStatus,
}

impl Clone for AccountState {
    fn clone(&self) -> (r: Self)
        ensures
            r == *self,
    {
        AccountState { account: self.account.clone(), amount: self.amount, status: self.status }
    }
}

/// The state that a new account starts in: zero (of scale two) of its
/// currency, with the given status.
pub open spec fn default_state(account: Rc<Account>, status: AccountStatus) -> AccountState {
    AccountState {
        account,
        amount: Commodity { value: Decimal::of_parts((0, DECIMAL_SCALE as int)), currency_code: account.currency.code },
        status,
    }
}

impl AccountState {
    /// A state with this amount and status.
    pub fn new(account: Rc<Account>, amount: Commodity, status: AccountStatus) -> (s: AccountState)
        ensures
            s == (AccountState { account, amount, status }),
    {
        AccountState { account, amount, status }
    }

    /// The initial state of an account: zero, and closed.
    pub fn new_default(account: Rc<Account>) -> (s: AccountState)
        ensures
            s == default_state(account, AccountStatus::Closed),
    {
        AccountState::new_default_amount(account, AccountStatus::Closed)
    }

    /// The initial state of an account: zero, with this status.
    pub fn new_default_amount(account: Rc<Account>, status: AccountStatus) -> (s: AccountState)
        ensures
            s == default_state(account, status),
    {
        let value = Decimal::new(0, DECIMAL_SCALE);
        proof {
            Decimal::lemma_of_parts(value);
        }
        let code = account.currency.code;
        AccountState { account, amount: Commodity::new(value, code), status }
    }
}

/// The index of the first state of the account with this id.
pub open spec fn state_index(states: Seq<AccountState>, id: Seq<char>) -> Option<int>
    decreases states.len(),
{
    if states.len() == 0 {
        None
    } else if states[0].account.id@ == id {
        Some(0)
    } else {
        match state_index(states.drop_first(), id) {
            Some(i) => Some(i + 1),
            None => None,
        }
    }
}

/// `state_index` finds the first state with the id.
pub proof fn lemma_state_index(states: Seq<AccountState>, id: Seq<char>, i: int)
    requires
        0 <= i <= states.len(),
        forall|j: int| 0 <= j < i ==> states[j].account.id@ != id,
    ensures
        i < states.len() && states[i].account.id@ == id ==> state_index(states, id) == Some(i),
        i == states.len() ==> state_index(states, id) is None,
    decreases i,
{
    if states.len() > 0 && i > 0 {
        lemma_state_index(states.drop_first(), id, i - 1);
    }
}

/// A state found by `state_index` has the id.
pub proof fn lemma_state_index_found(states: Seq<AccountState>, id: Seq<char>)
    ensures
        state_index(states, id) matches Some(i) ==> 0 <= i < states.len() && states[i].account.id@ == id,
    decreases states.len(),
{
    if states.len() > 0 {
        lemma_state_index_found(states.drop_first(), id);
    }
}

/// The states after inserting `state`: it replaces the state of the same
/// account, or is added at the end.
pub open spec fn with_state(states: Seq<AccountState>, state: AccountState) -> Seq<AccountState> {
    match state_index(states, state.account.id@) {
        Some(i) => states.update(i, state),
        None => states.push(state),
    }
}

/// The states of a new program state over these accounts, each with the
/// default state of the given status.
pub open spec fn initial_states(accounts: Seq<Rc<Account>>, status: AccountStatus) -> Seq<AccountState>
    decreases accounts.len(),
{
    if accounts.len() == 0 {
        Seq::empty()
    } else {
        with_state(initial_states(accounts.drop_last(), status), default_state(accounts.last(), status))
    }
}

/// No two of the states belong to accounts with the same id.
pub open spec fn distinct_ids(states: Seq<AccountState>) -> bool {
    forall|i: int, j: int|
        0 <= i < j < states.len() ==> #[trigger] states[i].account.id@ != #[trigger] states[j].account.id@
}

/// Each of the accounts has a state among the states.
pub open spec fn states_cover(states: Seq<AccountState>, accounts: Seq<Rc<Account>>) -> bool {
    forall|a: int| 0 <= a < accounts.len() ==> exists|k: int|
        0 <= k < states.len() && #[trigger] states[k].account.id@ == (#[trigger] accounts[a]).id@
}

/// `state_index` finds nothing only where no state has the id.
pub proof fn lemma_state_index_none(states: Seq<AccountState>, id: Seq<char>)
    ensures
        state_index(states, id) is None ==> forall|j: int| 0 <= j < states.len() ==> #[trigger] states[j].account.id@ != id,
    decreases states.len(),
{
    if states.len() > 0 {
        lemma_state_index_none(states.drop_first(), id);
        if state_index(states, id) is None {
            assert forall|j: int| 0 <= j < states.len() implies #[trigger] states[j].account.id@ != id by {
                if j > 0 {
                    assert(states[j] == states.drop_first()[j - 1]);
                }
            }
        }
    }
}

/// Inserting a state keeps the ids distinct, and leaves a state with its
/// account's id.
pub proof fn lemma_with_state_distinct(states: Seq<AccountState>, state: AccountState)
    requires
        distinct_ids(states),
    ensures
        distinct_ids(with_state(states, state)),
        exists|k: int| 0 <= k < with_state(states, state).len() && #[trigger] with_state(states, state)[k] == state,
{
    lemma_state_index_found(states, state.account.id@);
    lemma_state_index_none(states, state.account.id@);
    let after = with_state(states, state);
    match state_index(states, state.account.id@) {
        Some(i) => {
            assert(after[i] == state);
        },
        None => {
            assert(after[states.len() as int] == state);
        },
    }
}

/// The states of a new program state have distinct ids, and each account
/// has one of them.
pub proof fn lemma_initial_states_distinct(accounts: Seq<Rc<Account>>, status: AccountStatus)
    ensures
        distinct_ids(initial_states(accounts, status)),
        states_cover(initial_states(accounts, status), accounts),
    decreases accounts.len(),
{
    if accounts.len() > 0 {
        let rest = accounts.drop_last();
        let before = initial_states(rest, status);
        let state = default_state(accounts.last(), status);
        lemma_initial_states_distinct(rest, status);
        lemma_with_state_distinct(before, state);
        lemma_state_index_found(before, state.account.id@);
        let after = initial_states(accounts, status);
        assert forall|a: int| 0 <= a < accounts.len() implies exists|k: int|
            0 <= k < after.len() && #[trigger] after[k].account.id@ == (#[trigger] accounts[a]).id@ by {
            if a == accounts.len() - 1 {
                let k = choose|k: int| 0 <= k < after.len() && #[trigger] after[k] == state;
                assert(after[k].account.id@ == accounts[a].id@);
            } else {
                assert(accounts[a] == rest[a]);
                let k = choose|k: int| 0 <= k < before.len() && #[trigger] before[k].account.id@ == rest[a].id@;
                match state_index(before, state.account.id@) {
                    Some(i) => {
                        if k == i {
                            assert(after[k].account.id@ == before[k].account.id@);
                        } else {
                            assert(after[k] == before[k]);
                        }
                    },
                    None => {
                        assert(after[k] == before[k]);
                    },
                }
            }
        }
    }
}

/// One part of a [Transaction]: an amount added to an account.
#[derive(Debug)]
pub struct TransactionElement {
    /// The account to add to.
    pub account: Rc<Account>,
    /// The amount to add; `None` for the one element whose amount balances
    /// the others.
    pub amount: Option<Commodity>,
    /// The exchange rate to use for converting the amount.
    pub exchange_rate: Option<ExchangeRate>,
}

impl TransactionElement {
    /// An element with these parts.
    pub fn new(account: Rc<Account>, amount: Option<Commodity>, exchange_rate: Option<ExchangeRate>) -> (e: TransactionElement)
        ensures
            e == (TransactionElement { account, amount, exchange_rate }),
    {
        TransactionElement { account, amount, exchange_rate }
    }
}

impl Clone for TransactionElement {
    fn clone(&self) -> (r: Self)
        ensures
            r.account == self.account,
            r.amount == self.amount,
            same_rate(r.exchange_rate, self.exchange_rate),
    {
        let exchange_rate = match &self.exchange_rate {
            Some(rate) => Some(rate.clone()),
            None => None,
        };
        TransactionElement { account: self.account.clone(), amount: self.amount, exchange_rate }
    }
}

/// A transfer between accounts, whose amounts add up to zero.
#[derive(Debug)]
pub struct Transaction {
    pub description: Option<String>,
    pub date: chrono::NaiveDate,
    pub elements: Vec<TransactionElement>,
}

/// `b` is a copy of `a`: same description, date, and accounts, amounts
/// and exchange rates of the elements.
pub open spec fn same_transaction(a: Transaction, b: Transaction) -> bool {
    &&& a.description == b.description
    &&& a.date == b.date
    &&& a.elements.len() == b.elements.len()
    &&& forall|i: int|
        #![trigger a.elements[i], b.elements[i]]
        0 <= i < a.elements.len() ==> a.elements[i].account == b.elements[i].account && a.elements[i].amount
            == b.elements[i].amount && same_rate(a.elements[i].exchange_rate, b.elements[i].exchange_rate)
}

impl Clone for Transaction {
    fn clone(&self) -> (r: Self)
        ensures
            same_transaction(*self, r),
    {
        let mut elements: Vec<TransactionElement> = Vec::new();
        let mut i: usize = 0;
        while i < self.elements.len()
            invariant
                i <= self.elements.len(),
                elements.len() == i,
                forall|j: int|
                    #![trigger elements[j]]
                    0 <= j < i ==> elements[j].account == self.elements[j].account && elements[j].amount
                        == self.elements[j].amount && same_rate(self.elements[j].exchange_rate, elements[j].exchange_rate),
            decreases self.elements.len() - i,
        {
            elements.push(self.elements[i].clone());
            i = i + 1;
        }
        let description = match &self.description {
            Some(d) => Some(d.clone()),
            None => None,
        };
        Transaction { description, date: self.date, elements }
    }
}

/// Errors while executing a [Program].
#[derive(Debug)]
pub enum AccountingError {
    Currency(CurrencyError),
    ExchangeRate(ExchangeRateError),
    InvalidAccountStatus { account: Rc<Account>, status: AccountStatus },
    DateParseError(chrono::ParseError),
    InvalidTransaction(Transaction, String),
    FailedCheckSum(Commodity),
    NoExchangeRateSupplied(Commodity, CurrencyCode),
    MissingAccountState(AccountID),
}

/// Why a transaction failed, as the spec sees it.
pub enum TransactionFailure {
    /// Fewer than two elements.
    TooFewElements,
    /// More than one element without an amount.
    MultipleEmpty,
    /// The amounts do not add up to zero.
    NonZeroSum,
    /// An element still without an amount when it is applied.
    MissingAmount,
    /// Adding the second commodity to the first failed: different currencies.
    Incompatible(Commodity, Commodity),
    /// The account of an element is closed.
    ClosedAccount(Rc<Account>),
}

/// `e` is the error that `perform` on `t` reports for the failure `f`.
pub open spec fn failure_error(f: TransactionFailure, t: Transaction, e: AccountingError) -> bool {
    match f {
        TransactionFailure::TooFewElements => e matches AccountingError::InvalidTransaction(tt, r) && same_transaction(t, tt)
            && r@ == "a transaction cannot have less than 2 elements"@,
        TransactionFailure::MultipleEmpty => e matches AccountingError::InvalidTransaction(tt, r) && same_transaction(t, tt)
            && r@ == "multiple elements with no amount specified"@,
        TransactionFailure::NonZeroSum => e matches AccountingError::InvalidTransaction(tt, r) && same_transaction(t, tt)
            && r@ == "sum of transaction elements does not equal zero"@,
        TransactionFailure::MissingAmount => e matches AccountingError::InvalidTransaction(tt, r) && same_transaction(t, tt)
            && r@ == "unable to calculate all required amounts for this transaction"@,
        TransactionFailure::Incompatible(x, y) => e matches AccountingError::Currency(ce) && add_error(x, y, ce),
        TransactionFailure::ClosedAccount(a) => e matches AccountingError::InvalidAccountStatus { account, status } && account
            == a && status == AccountStatus::Closed,
    }
}

/// What the accounting reads of a transaction element: its account and its
/// amount.
pub open spec fn element_model(e: TransactionElement) -> (Rc<Account>, Option<Commodity>) {
    (e.account, e.amount)
}

/// The accounts and amounts of the elements, in order.
pub open spec fn element_models(elements: Seq<TransactionElement>) -> Seq<(Rc<Account>, Option<Commodity>)> {
    elements.map_values(|e: TransactionElement| element_model(e))
}

/// The index of the first element without an amount.
pub open spec fn first_empty(elements: Seq<(Rc<Account>, Option<Commodity>)>) -> Option<int>
    decreases elements.len(),
{
    if elements.len() == 0 {
        None
    } else if elements[0].1 is None {
        Some(0)
    } else {
        match first_empty(elements.drop_first()) {
            Some(i) => Some(i + 1),
            None => None,
        }
    }
}

/// Two elements are without an amount.
pub open spec fn two_empty(elements: Seq<(Rc<Account>, Option<Commodity>)>) -> bool {
    exists|i: int, j: int|
        #![trigger elements[i], elements[j]]
        0 <= i < j < elements.len() && elements[i].1 is None && elements[j].1 is None
}

/// The sum, from index `i` on, of the amounts of the elements other than
/// the one at `skip`, added to `acc` in order; `None` on overflow, and the
/// two commodities when a currency differs.
pub open spec fn sum_except(elements: Seq<(Rc<Account>, Option<Commodity>)>, skip: int, i: int, acc: Commodity) -> Option<Result<Commodity, (Commodity, Commodity)>>
    decreases elements.len() - i,
{
    if i >= elements.len() || i < 0 {
        Some(Ok(acc))
    } else if i == skip {
        sum_except(elements, skip, i + 1, acc)
    } else {
        let a = elements[i].1->0;
        if acc.currency_code@ != a.currency_code@ {
            Some(Err((acc, a)))
        } else {
            match checked_sum(acc.value@, a.value@) {
                None => None,
                Some(v) => sum_except(elements, skip, i + 1, Commodity { value: Decimal::of_parts(v), currency_code: acc.currency_code }),
            }
        }
    }
}

/// The negated commodity.
pub open spec fn negated(c: Commodity) -> Commodity {
    Commodity { value: Decimal::of_parts((-c.value@.0, c.value@.1)), currency_code: c.currency_code }
}

/// The states after adding the amounts of the elements from index `i` on,
/// in order, with the failure that stops it, if any; `None` where an
/// account has no state or a sum overflows.
pub open spec fn apply_elements(elements: Seq<(Rc<Account>, Option<Commodity>)>, i: int, states: Seq<AccountState>) -> Option<(Seq<AccountState>, Option<TransactionFailure>)>
    decreases elements.len() - i,
{
    if i >= elements.len() || i < 0 {
        Some((states, None))
    } else {
        let el = elements[i];
        match state_index(states, el.0.id@) {
            None => None,
            Some(k) => {
                let st = states[k];
                if st.status == AccountStatus::Closed {
                    Some((states, Some(TransactionFailure::ClosedAccount(el.0))))
                } else {
                    match el.1 {
                        None => Some((states, Some(TransactionFailure::MissingAmount))),
                        Some(a) => if st.amount.currency_code@ != a.currency_code@ {
                            Some((states, Some(TransactionFailure::Incompatible(st.amount, a))))
                        } else {
                            match checked_sum(st.amount.value@, a.value@) {
                                None => None,
                                Some(v) => apply_elements(
                                    elements,
                                    i + 1,
                                    states.update(k, AccountState {
                                        account: st.account,
                                        amount: Commodity { value: Decimal::of_parts(v), currency_code: st.amount.currency_code },
                                        status: st.status,
                                    }),
                                ),
                            }
                        },
                    }
                }
            },
        }
    }
}

/// The states after performing a transaction with these elements on
/// `states`, with the failure, if any: fewer than two elements, or two
/// without an amount, fail; an element without an amount gets the negated
/// sum of the others (which must have its currency), and that sum plus its
/// negation must be zero; where every element has an amount, their sum
/// (in the currency of the first element's account) must be zero; then
/// each element's amount is added to its
/// account, which must be open and of the same currency, in order,
/// stopping at the first failure. `None` where an account has no state or
/// a sum overflows.
pub open spec fn perform_model(elements: Seq<(Rc<Account>, Option<Commodity>)>, states: Seq<AccountState>) -> Option<(Seq<AccountState>, Option<TransactionFailure>)> {
    if elements.len() < 2 {
        Some((states, Some(TransactionFailure::TooFewElements)))
    } else if two_empty(elements) {
        Some((states, Some(TransactionFailure::MultipleEmpty)))
    } else {
        match first_empty(elements) {
            None => {
                let zero = Commodity { value: Decimal::of_parts((0, 0)), currency_code: elements[0].0.currency.code };
                match sum_except(elements, -1, 0, zero) {
                    None => None,
                    Some(Err((x, y))) => Some((states, Some(TransactionFailure::Incompatible(x, y)))),
                    Some(Ok(sum)) => if !parts_eq(sum.value@, (0, 0)) {
                        Some((states, Some(TransactionFailure::NonZeroSum)))
                    } else {
                        apply_elements(elements, 0, states)
                    },
                }
            },
            Some(e) => {
                let zero = Commodity { value: Decimal::of_parts((0, 0)), currency_code: elements[e].0.currency.code };
                match sum_except(elements, e, 0, zero) {
                    None => None,
                    Some(Err((x, y))) => Some((states, Some(TransactionFailure::Incompatible(x, y)))),
                    Some(Ok(sum)) => match checked_sum(sum.value@, negated(sum).value@) {
                        None => None,
                        Some(z) => if !parts_eq(z, (0, 0)) {
                            Some((states, Some(TransactionFailure::NonZeroSum)))
                        } else {
                            apply_elements(elements.update(e, (elements[e].0, Some(negated(sum)))), 0, states)
                        },
                    },
                }
            },
        }
    }
}

/// The outcome of performing transaction `t` on `states` (see
/// `perform_model`).
pub open spec fn perform_spec(t: Transaction, states: Seq<AccountState>) -> Option<(Seq<AccountState>, Option<TransactionFailure>)> {
    perform_model(element_models(t.elements@), states)
}

/// The number with parts `p` is at scale `s`, or is zero.
pub open spec fn at_scale(p: (int, int), s: int) -> bool {
    p.1 == s || p.0 == 0
}

/// The amounts of the elements are at scale `s` (or zero).
pub open spec fn amounts_at_scale(elements: Seq<(Rc<Account>, Option<Commodity>)>, s: int) -> bool {
    forall|j: int| 0 <= j < elements.len() && (#[trigger] elements[j]).1 is Some ==> at_scale(elements[j].1->0.value@, s)
}

/// The amounts of the states are at scale `s` (or zero).
pub open spec fn states_at_scale(states: Seq<AccountState>, s: int) -> bool {
    forall|k: int| 0 <= k < states.len() ==> at_scale((#[trigger] states[k]).amount.value@, s)
}

/// The mantissa of the amount of element `j`; `fill` for the element `e`.
pub open spec fn amount_mantissa(elements: Seq<(Rc<Account>, Option<Commodity>)>, e: int, fill: int, j: int) -> int {
    if j == e {
        fill
    } else {
        match elements[j].1 {
            Some(a) => a.value@.0,
            None => 0,
        }
    }
}

/// The sum of the mantissas of the amounts of the elements before `k`,
/// with `fill` for the element `e`.
pub open spec fn mantissa_sum(elements: Seq<(Rc<Account>, Option<Commodity>)>, e: int, fill: int, k: int) -> int
    decreases k,
{
    if k <= 0 {
        0
    } else {
        mantissa_sum(elements, e, fill, k - 1) + amount_mantissa(elements, e, fill, k - 1)
    }
}

/// Adding the mantissas of the amounts from element `i` on, in order, to
/// the mantissas `ms` of the states of their accounts never leaves the 96
/// bits of a mantissa.
pub open spec fn apply_fits(elements: Seq<(Rc<Account>, Option<Commodity>)>, e: int, fill: int, i: int, states: Seq<AccountState>, ms: Seq<int>) -> bool
    decreases elements.len() - i,
{
    if i < 0 || i >= elements.len() {
        true
    } else {
        match state_index(states, elements[i].0.id@) {
            None => true,
            Some(k) => {
                let m = ms[k] + amount_mantissa(elements, e, fill, i);
                &&& -MAX_MANTISSA <= m <= MAX_MANTISSA
                &&& apply_fits(elements, e, fill, i + 1, states, ms.update(k, m))
            },
        }
    }
}

/// The mantissas of the amounts of the states.
pub open spec fn state_mantissas(states: Seq<AccountState>) -> Seq<int> {
    states.map_values(|st: AccountState| st.amount.value@.0)
}

/// The sum of the mantissas of the amounts of the states.
pub open spec fn mantissa_total(states: Seq<AccountState>) -> int
    decreases states.len(),
{
    if states.len() == 0 {
        0
    } else {
        mantissa_total(states.drop_last()) + states.last().amount.value@.0
    }
}

/// Every sum that performing `t` on `states` computes is exact in
/// `rust_decimal`: `t` has an element without an amount, the amounts and
/// the states' amounts are at scale `s` (or zero), and neither the running
/// sum of the given amounts nor an account's running amount leaves the 96
/// bits of a mantissa.
pub open spec fn exact_transaction(t: Transaction, states: Seq<AccountState>, s: int) -> bool {
    let elements = element_models(t.elements@);
    let e = first_empty(elements)->0;
    &&& first_empty(elements) is Some
    &&& amounts_at_scale(elements, s)
    &&& states_at_scale(states, s)
    &&& forall|k: int| 0 <= k <= elements.len() ==> -MAX_MANTISSA <= #[trigger] mantissa_sum(elements, e, 0, k) <= MAX_MANTISSA
    &&& apply_fits(elements, e, -mantissa_sum(elements, e, 0, elements.len() as int), 0, states, state_mantissas(states))
}

/// Some scale makes every sum of performing `t` on `states` exact (see
/// `exact_transaction`).
pub open spec fn exact_on(t: Transaction, states: Seq<AccountState>) -> bool {
    exists|s: int| exact_transaction(t, states, s)
}

/// A scale that makes every sum of performing `t` on `states` exact, if
/// one does.
pub open spec fn exact_scale(t: Transaction, states: Seq<AccountState>) -> int {
    choose|s: int| exact_transaction(t, states, s)
}

/// Two numbers at scale `s` (or zero) whose mantissas' sum fits are added
/// exactly by `rust_decimal`, to a number at scale `s` (or zero).
proof fn lemma_exact_at_scale(a: (int, int), b: (int, int), s: int)
    requires
        at_scale(a, s),
        at_scale(b, s),
        -MAX_MANTISSA <= a.0 + b.0 <= MAX_MANTISSA,
    ensures
        exact_sum(a, b) matches Some(p) && p.0 == a.0 + b.0 && at_scale(p, s),
{
}

/// The sum with `fill` for element `e` is the sum with zero for it plus
/// `fill`, once past `e`.
proof fn lemma_mantissa_sum_fill(elements: Seq<(Rc<Account>, Option<Commodity>)>, e: int, fill: int, k: int)
    requires
        0 <= e,
    ensures
        mantissa_sum(elements, e, fill, k) == mantissa_sum(elements, e, 0, k) + (if e < k { fill } else { 0 }),
    decreases k,
{
    if k > 0 {
        lemma_mantissa_sum_fill(elements, e, fill, k - 1);
    }
}

/// Changing the amount of one state changes the total of the mantissas by
/// the difference.
proof fn lemma_mantissa_total_update(states: Seq<AccountState>, k: int, st: AccountState)
    requires
        0 <= k < states.len(),
    ensures
        mantissa_total(states.update(k, st)) == mantissa_total(states) - states[k].amount.value@.0 + st.amount.value@.0,
    decreases states.len(),
{
    let updated = states.update(k, st);
    if k == states.len() - 1 {
        assert(updated.drop_last() =~= states.drop_last());
    } else {
        assert(updated.drop_last() =~= states.drop_last().update(k, st));
        lemma_mantissa_total_update(states.drop_last(), k, st);
    }
}

/// States with the same accounts, in order, find the same index for an id.
proof fn lemma_state_index_same_accounts(a: Seq<AccountState>, b: Seq<AccountState>, id: Seq<char>)
    requires
        a.len() == b.len(),
        forall|k: int| 0 <= k < a.len() ==> (#[trigger] a[k]).account == b[k].account,
    ensures
        state_index(a, id) == state_index(b, id),
    decreases a.len(),
{
    if a.len() > 0 {
        assert(a[0].account == b[0].account);
        assert forall|k: int| 0 <= k < a.drop_first().len() implies (#[trigger] a.drop_first()[k]).account == b.drop_first()[k].account by {
            assert(a[k + 1].account == b[k + 1].account);
        }
        lemma_state_index_same_accounts(a.drop_first(), b.drop_first(), id);
    }
}

/// `first_empty` finds the first element without an amount.
pub proof fn lemma_first_empty(elements: Seq<(Rc<Account>, Option<Commodity>)>, i: int)
    requires
        0 <= i <= elements.len(),
        forall|j: int| 0 <= j < i ==> elements[j].1 is Some,
    ensures
        i < elements.len() && elements[i].1 is None ==> first_empty(elements) == Some(i),
        i == elements.len() ==> first_empty(elements) is None,
    decreases i,
{
    if elements.len() > 0 && i > 0 {
        lemma_first_empty(elements.drop_first(), i - 1);
    }
}

/// A copy of the states.
pub(crate) fn copy_states(states: &Vec<AccountState>) -> (r: Vec<AccountState>)
    ensures
        r@ == states@,
{
    let mut r: Vec<AccountState> = Vec::new();
    let mut i: usize = 0;
    while i < states.len()
        invariant
            i <= states.len(),
            r@ == states@.take(i as int),
        decreases states.len() - i,
    {
        r.push(states[i].clone());
        i = i + 1;
        proof {
            assert(r@ =~= states@.take(i as int));
        }
    }
    proof {
        assert(r@ =~= states@);
    }
    r
}

/// The position of the first state of the account with this id.
pub(crate) fn state_position(states: &Vec<AccountState>, id: &AccountID) -> (r: Option<usize>)
    ensures
        r is None <==> state_index(states@, id@) is None,
        r matches Some(k) ==> state_index(states@, id@) == Some(k as int) && k < states.len(),
{
    let mut i: usize = 0;
    while i < states.len()
        invariant
            i <= states.len(),
            forall|j: int| 0 <= j < i ==> states@[j].account.id@ != id@,
        decreases states.len() - i,
    {
        if states[i].account.id == *id {
            proof {
                lemma_state_index(states@, id@, i as int);
            }
            return Some(i);
        }
        i = i + 1;
    }
    proof {
        lemma_state_index(states@, id@, i as int);
    }
    None
}

/// The state of the program: the state of each account. Each account has
/// at most one state.
pub struct ProgramState {
    /// The states of the accounts.
    pub account_states: Vec<AccountState>,
    /// The index of the action being executed.
    pub current_action_index: usize,
}

impl ProgramState {
    /// A program state over these accounts: each starts at zero, closed.
    pub fn new(accounts: Vec<Rc<Account>>) -> (p: ProgramState)
        ensures
            p.account_states@ == initial_states(accounts@, AccountStatus::Closed),
            distinct_ids(p.account_states@),
            states_cover(p.account_states@, accounts@),
    {
        ProgramState::new_with_status(&accounts, AccountStatus::Closed)
    }

    /// A program state over these accounts: each starts at zero, with the
    /// given status.
    pub fn new_with_status(accounts: &Vec<Rc<Account>>, status: AccountStatus) -> (p: ProgramState)
        ensures
            p.account_states@ == initial_states(accounts@, status),
            distinct_ids(p.account_states@),
            states_cover(p.account_states@, accounts@),
    {
        let mut states: Vec<AccountState> = Vec::new();
        let mut i: usize = 0;
        while i < accounts.len()
            invariant
                i <= accounts.len(),
                states@ == initial_states(accounts@.take(i as int), status),
            decreases accounts.len() - i,
        {
            let state = AccountState::new_default_amount(accounts[i].clone(), status);
            match state_position(&states, &accounts[i].id) {
                Some(k) => {
                    states.set(k, state);
                },
                None => {
                    states.push(state);
                },
            }
            proof {
                assert(accounts@.take(i + 1).drop_last() =~= accounts@.take(i as int));
                assert(accounts@.take(i + 1).last() == accounts@[i as int]);
            }
            i = i + 1;
        }
        proof {
            assert(accounts@.take(i as int) =~= accounts@);
            lemma_initial_states_distinct(accounts@, status);
        }
        ProgramState { account_states: states, current_action_index: 0 }
    }

    /// The state of the account with this id.
    pub fn get_account_state(&self, account_id: &AccountID) -> (r: Option<&AccountState>)
        ensures
            r is None <==> state_index(self.account_states@, account_id@) is None,
            r matches Some(st) ==> (state_index(self.account_states@, account_id@) matches Some(k)
                && *st == self.account_states@[k]),
    {
        match state_position(&self.account_states, account_id) {
            Some(k) => Some(&self.account_states[k]),
            None => None,
        }
    }
}

/// The outcome of `perform_spec` holds of the final states and the result.
pub open spec fn performed(t: Transaction, before: Seq<AccountState>, after: Seq<AccountState>, r: Result<(), AccountingError>) -> bool {
    perform_spec(t, before) matches Some((states, failure)) && after == states && match failure {
        None => r is Ok,
        Some(f) => r matches Err(e) && failure_error(f, t, e),
    }
}

impl Transaction {
    /// A transaction with these parts.
    pub fn new(description: Option<String>, date: chrono::NaiveDate, elements: Vec<TransactionElement>) -> (t: Transaction)
        ensures
            t == (Transaction { description, date, elements }),
    {
        Transaction { description, date, elements }
    }

    /// A transaction moving `amount` from one account to another: the first
    /// element takes the negated amount from `from_account`, and the second,
    /// without an amount, balances it into `to_account`.
    pub fn new_simple(
        description: Option<&str>,
        date: chrono::NaiveDate,
        from_account: Rc<Account>,
        to_account: Rc<Account>,
        amount: Commodity,
        exchange_rate: Option<ExchangeRate>,
    ) -> (t: Transaction)
        ensures
            description is None ==> t.description is None,
            description matches Some(d) ==> (t.description matches Some(s) && s@ == d@),
            t.date == date,
            t.elements.len() == 2,
            t.elements[0].account == from_account,
            t.elements[0].amount == Some(negated(amount)),
            same_rate(t.elements[0].exchange_rate, exchange_rate),
            t.elements[1].account == to_account,
            t.elements[1].amount is None,
            t.elements[1].exchange_rate == exchange_rate,
    {
        let description = match description {
            Some(d) => Some(d.to_owned()),
            None => None,
        };
        let first_rate = match &exchange_rate {
            Some(rate) => Some(rate.clone()),
            None => None,
        };
        let negated_amount = amount.negate();
        proof {
            Decimal::lemma_of_parts(negated_amount.value);
        }
        let elements = vec![
            TransactionElement::new(from_account, Some(negated_amount), first_rate),
            TransactionElement::new(to_account, None, exchange_rate),
        ];
        Transaction { description, date, elements }
    }

    /// The first element that adds to `account` (accounts compare by id).
    pub fn get_element(&self, account: &Account) -> (r: Option<&TransactionElement>)
        ensures
            r is None <==> forall|i: int| 0 <= i < self.elements.len() ==> self.elements[i].account.id@ != account.id@,
            r matches Some(el) ==> exists|i: int|
                0 <= i < self.elements.len() && *el == self.elements[i] && el.account.id@ == account.id@
                    && forall|j: int| 0 <= j < i ==> self.elements[j].account.id@ != account.id@,
    {
        let mut i: usize = 0;
        while i < self.elements.len()
            invariant
                i <= self.elements.len(),
                forall|j: int| 0 <= j < i ==> self.elements[j].account.id@ != account.id@,
            decreases self.elements.len() - i,
        {
            if *self.elements[i].account == *account {
                return Some(&self.elements[i]);
            }
            i = i + 1;
        }
        None
    }

    /// Performs this transaction on the states (see `perform_spec`), or
    /// gives `None` (with the states partly changed) where an account of an
    /// element has no state or a sum overflows.
    fn perform_on(&self, states: &mut Vec<AccountState>) -> (r: Option<Result<(), AccountingError>>)
        ensures
            r is None <==> perform_spec(*self, old(states)@) is None,
            r matches Some(res) ==> performed(*self, old(states)@, final(states)@, res),
            exact_on(*self, old(states)@) && (r matches Some(Ok(_))) ==> mantissa_total(final(states)@) == mantissa_total(old(states)@)
                && states_at_scale(final(states)@, exact_scale(*self, old(states)@)),
    {
        let ghost elements = element_models(self.elements@);
        let ghost orig = states@;
        let ghost s: int = exact_scale(*self, orig);
        let ghost g: bool = exact_transaction(*self, orig, s);
        if self.elements.len() < 2 {
            return Some(Err(AccountingError::InvalidTransaction(
                self.clone(),
                "a transaction cannot have less than 2 elements".to_owned(),
            )));
        }
        let mut empty_amount_element: Option<usize> = None;
        let mut i: usize = 0;
        while i < self.elements.len()
            invariant
                i <= self.elements.len(),
                elements == element_models(self.elements@),
                elements.len() == self.elements.len(),
                match empty_amount_element {
                    None => forall|j: int| 0 <= j < i ==> elements[j].1 is Some,
                    Some(e) => e < i && elements[e as int].1 is None
                        && forall|j: int| 0 <= j < i && j != e ==> elements[j].1 is Some,
                },
            decreases self.elements.len() - i,
        {
            if self.elements[i].amount.is_none() {
                if empty_amount_element.is_none() {
                    empty_amount_element = Some(i);
                } else {
                    proof {
                        let e = empty_amount_element->0 as int;
                        assert(elements[e] == elements[e] && elements[i as int] == elements[i as int]);
                        assert(two_empty(elements));
                    }
                    return Some(Err(AccountingError::InvalidTransaction(
                        self.clone(),
                        "multiple elements with no amount specified".to_owned(),
                    )));
                }
            }
            i = i + 1;
        }
        proof {
            assert(!two_empty(elements)) by {
                if two_empty(elements) {
                    let (a, b) = choose|a: int, b: int|
                        #![trigger elements[a], elements[b]]
                        0 <= a < b < elements.len() && elements[a].1 is None && elements[b].1 is None;
                    assert(elements[a] == elements[a]);
                }
            }
            match empty_amount_element {
                None => lemma_first_empty(elements, elements.len() as int),
                Some(e) => lemma_first_empty(elements, e as int),
            }
        }
        let ghost modified: Seq<(Rc<Account>, Option<Commodity>)> = elements;
        let ghost mut fill: int = 0;
        let ghost e_g: int = match empty_amount_element {
            Some(e) => e as int,
            None => -1,
        };
        let mut filled: Option<Commodity> = None;
        match empty_amount_element {
            None => {
                let sum_currency = self.elements[0].account.currency.code;
                let mut sum = Commodity::zero(sum_currency);
                proof {
                    Decimal::lemma_of_parts(sum.value);
                }
                let mut k: usize = 0;
                while k < self.elements.len()
                    invariant
                        k <= self.elements.len(),
                        elements == element_models(self.elements@),
                        elements.len() == self.elements.len(),
                        elements.len() >= 2,
                        forall|j: int| 0 <= j < elements.len() ==> elements[j].1 is Some,
                        !two_empty(elements),
                        first_empty(elements) is None,
                        sum_except(elements, -1, 0, Commodity { value: Decimal::of_parts((0, 0)), currency_code: elements[0].0.currency.code })
                            == sum_except(elements, -1, k as int, sum),
                        orig == states@,
                        orig == old(states)@,
                    decreases self.elements.len() - k,
                {
                    proof {
                        assert(elements[k as int] == element_model(self.elements@[k as int]));
                    }
                    let amount = self.elements[k].amount.unwrap();
                    match sum.try_add(&amount) {
                        None => {
                            proof {
                                assert(sum_except(elements, -1, k as int, sum) is None);
                            }
                            return None;
                        },
                        Some(Ok(v)) => {
                            proof {
                                Decimal::lemma_of_parts(v.value);
                            }
                            sum = v;
                        },
                        Some(Err(err)) => {
                            proof {
                                assert(sum_except(elements, -1, k as int, sum) == Some(
                                    Err::<Commodity, (Commodity, Commodity)>((sum, amount)),
                                ));
                            }
                            return Some(Err(AccountingError::Currency(err)));
                        },
                    }
                    k = k + 1;
                }
                if !sum.value.equals(&Decimal::zero()) {
                    return Some(Err(AccountingError::InvalidTransaction(
                        self.clone(),
                        "sum of transaction elements does not equal zero".to_owned(),
                    )));
                }
            },
            Some(e) => {
                let sum_currency = self.elements[e].account.currency.code;
                let mut sum = Commodity::zero(sum_currency);
                proof {
                    Decimal::lemma_of_parts(sum.value);
                }
                let mut k: usize = 0;
                while k < self.elements.len()
                    invariant
                        k <= self.elements.len(),
                        elements == element_models(self.elements@),
                        elements.len() == self.elements.len(),
                        e < elements.len(),
                        forall|j: int| 0 <= j < elements.len() && j != e ==> elements[j].1 is Some,
                        sum_except(elements, e as int, 0, Commodity { value: Decimal::of_parts((0, 0)), currency_code: elements[e as int].0.currency.code })
                            == sum_except(elements, e as int, k as int, sum),
                        orig == states@,
                        orig == old(states)@,
                        elements.len() >= 2,
                        !two_empty(elements),
                        first_empty(elements) == Some(e as int),
                        g == exact_transaction(*self, orig, s),
                        g ==> sum.value@.0 == mantissa_sum(elements, e as int, 0, k as int) && at_scale(sum.value@, s),
                    decreases self.elements.len() - k,
                {
                    if k != e {
                        let amount = self.elements[k].amount.unwrap();
                        proof {
                            if g {
                                assert(elements[k as int] == element_model(self.elements@[k as int]));
                                assert(elements[k as int].1 is Some);
                                assert(at_scale(amount.value@, s));
                                assert(-MAX_MANTISSA <= mantissa_sum(elements, e as int, 0, k + 1) <= MAX_MANTISSA);
                                lemma_exact_at_scale(sum.value@, amount.value@, s);
                            }
                        }
                        match sum.try_add(&amount) {
                            None => {
                                proof {
                                    assert(sum_except(elements, e as int, k as int, sum) is None);
                                }
                                return None;
                            },
                            Some(Ok(v)) => {
                                proof {
                                    Decimal::lemma_of_parts(v.value);
                                }
                                sum = v;
                            },
                            Some(Err(err)) => {
                                proof {
                                    assert(sum_except(elements, e as int, k as int, sum) == Some(
                                        Err::<Commodity, (Commodity, Commodity)>((sum, amount)),
                                    ));
                                }
                                return Some(Err(AccountingError::Currency(err)));
                            },
                        }
                    }
                    k = k + 1;
                }
                let negated_sum = sum.negate();
                proof {
                    Decimal::lemma_of_parts(negated_sum.value);
                    assert(negated_sum == negated(sum));
                }
                let check = match sum.try_add(&negated_sum) {
                    Some(Ok(c)) => c,
                    _ => {
                        return None;
                    },
                };
                if !check.value.equals(&Decimal::zero()) {
                    return Some(Err(AccountingError::InvalidTransaction(
                        self.clone(),
                        "sum of transaction elements does not equal zero".to_owned(),
                    )));
                }
                proof {
                    modified = elements.update(e as int, (elements[e as int].0, Some(negated(sum))));
                    fill = -mantissa_sum(elements, e as int, 0, elements.len() as int);
                }
                filled = Some(negated_sum);
            },
        }
        let ghost before = states@;
        let ghost mut ms: Seq<int> = state_mantissas(orig);
        assert(perform_spec(*self, orig) == apply_elements(modified, 0, orig));
        proof {
            if g {
                assert(empty_amount_element is Some);
                assert(mantissa_total(states@) == mantissa_total(orig) + mantissa_sum(elements, e_g, fill, 0));
            }
        }
        let mut i: usize = 0;
        while i < self.elements.len()
            invariant
                i <= self.elements.len(),
                elements == element_models(self.elements@),
                elements.len() == self.elements.len(),
                modified.len() == elements.len(),
                forall|j: int|
                    #![trigger modified[j]]
                    0 <= j < elements.len() ==> modified[j].0 == elements[j].0 && modified[j].1 == (
                    if empty_amount_element == Some(j as usize) { filled } else { elements[j].1 }),
                apply_elements(modified, 0, before) == apply_elements(modified, i as int, states@),
                before == orig,
                orig == old(states)@,
                perform_spec(*self, orig) == apply_elements(modified, 0, orig),
                states@.len() == orig.len(),
                forall|j: int| 0 <= j < orig.len() ==> (#[trigger] states@[j]).account == orig[j].account,
                g == exact_transaction(*self, orig, s),
                g ==> empty_amount_element == Some(e_g as usize) && 0 <= e_g < elements.len() && first_empty(elements) == Some(e_g),
                g ==> fill == -mantissa_sum(elements, e_g, 0, elements.len() as int),
                g ==> (filled matches Some(f) && f.value@.0 == fill && at_scale(f.value@, s)),
                g ==> ms.len() == orig.len(),
                g ==> forall|j: int| 0 <= j < orig.len() ==> (#[trigger] states@[j]).amount.value@.0 == ms[j] && at_scale(states@[j].amount.value@, s),
                g ==> apply_fits(elements, e_g, fill, i as int, orig, ms),
                g ==> mantissa_total(states@) == mantissa_total(orig) + mantissa_sum(elements, e_g, fill, i as int),
            decreases self.elements.len() - i,
        {
            let element = &self.elements[i];
            let amount = if empty_amount_element == Some(i) { filled } else { element.amount };
            assert(elements[i as int] == element_model(self.elements@[i as int]));
            assert(modified[i as int].0 == element.account);
            let k = match state_position(&states, &element.account.id) {
                Some(k) => k,
                None => {
                    return None;
                },
            };
            proof {
                lemma_state_index_found(states@, element.account.id@);
            }
            let status = states[k].status;
            if status == AccountStatus::Closed {
                proof {
                    assert(apply_elements(modified, i as int, states@) == Some(
                        (states@, Some(TransactionFailure::ClosedAccount(element.account))),
                    ));
                }
                let err = AccountingError::InvalidAccountStatus { account: element.account.clone(), status };
                return Some(Err(err));
            }
            let transaction_amount = match amount {
                Some(a) => a,
                None => {
                    proof {
                        assert(apply_elements(modified, i as int, states@) == Some(
                            (states@, Some(TransactionFailure::MissingAmount)),
                        ));
                    }
                    return Some(Err(AccountingError::InvalidTransaction(
                        self.clone(),
                        "unable to calculate all required amounts for this transaction".to_owned(),
                    )));
                },
            };
            proof {
                if g {
                    lemma_state_index_same_accounts(states@, orig, element.account.id@);
                    assert(elements[i as int].0 == element.account);
                    assert(-MAX_MANTISSA <= ms[k as int] + amount_mantissa(elements, e_g, fill, i as int) <= MAX_MANTISSA);
                    if i as int != e_g {
                        assert(elements[i as int] == element_model(self.elements@[i as int]));
                        assert(elements[i as int].1 is Some);
                    }
                    assert(transaction_amount.value@.0 == amount_mantissa(elements, e_g, fill, i as int));
                    assert(at_scale(transaction_amount.value@, s));
                    assert(at_scale(states@[k as int].amount.value@, s));
                    lemma_exact_at_scale(states@[k as int].amount.value@, transaction_amount.value@, s);
                }
            }
            let new_amount = match states[k].amount.try_add(&transaction_amount) {
                None => {
                    return None;
                },
                Some(Ok(c)) => c,
                Some(Err(err)) => {
                    proof {
                        assert(apply_elements(modified, i as int, states@) == Some(
                            (states@, Some(TransactionFailure::Incompatible(
                                states@[k as int].amount,
                                transaction_amount,
                            ))),
                        ));
                    }
                    return Some(Err(AccountingError::Currency(err)));
                },
            };
            proof {
                Decimal::lemma_of_parts(new_amount.value);
            }
            let new_state = AccountState {
                account: states[k].account.clone(),
                amount: new_amount,
                status,
            };
            proof {
                if g {
                    lemma_mantissa_total_update(states@, k as int, new_state);
                }
            }
            let ghost prior = states@;
            states.set(k, new_state);
            proof {
                let m = ms[k as int] + amount_mantissa(elements, e_g, fill, i as int);
                ms = ms.update(k as int, m);
                assert(forall|j: int| 0 <= j < orig.len() && j != k ==> #[trigger] states@[j] == prior[j]);
            }
            i = i + 1;
        }
        proof {
            if g {
                lemma_mantissa_sum_fill(elements, e_g, fill, elements.len() as int);
            }
        }
        Some(Ok(()))
    }

    /// Performs this transaction on the program state (see `perform_spec`):
    /// the element without an amount, if any, balances the others, then each
    /// amount is added to its account. The accounts of the elements must have
    /// states, and no sum may overflow.
    ///
    /// A transaction balanced by its element without an amount creates no
    /// money and destroys none: when it succeeds and its sums are exact (see
    /// `exact_transaction`), the accounts hold in total what they held
    /// before (their amounts all at one scale, or zero).
    pub fn perform(&self, program_state: &mut ProgramState) -> (r: Result<(), AccountingError>)
        requires
            perform_spec(*self, old(program_state).account_states@) is Some,
        ensures
            performed(*self, old(program_state).account_states@, final(program_state).account_states@, r),
            final(program_state).current_action_index == old(program_state).current_action_index,
            exact_on(*self, old(program_state).account_states@) && r is Ok ==> mantissa_total(final(program_state).account_states@)
                == mantissa_total(old(program_state).account_states@) && states_at_scale(
                final(program_state).account_states@,
                exact_scale(*self, old(program_state).account_states@),
            ),
    {
        self.perform_on(&mut program_state.account_states).unwrap()
    }

    /// [Transaction::perform], or `None`, with the program state unchanged,
    /// where an account of an element has no state or a sum overflows.
    pub fn try_perform(&self, program_state: &mut ProgramState) -> (r: Option<Result<(), AccountingError>>)
        ensures
            r is None <==> perform_spec(*self, old(program_state).account_states@) is None,
            r is None ==> *final(program_state) == *old(program_state),
            r matches Some(res) ==> performed(*self, old(program_state).account_states@, final(program_state).account_states@, res),
            final(program_state).current_action_index == old(program_state).current_action_index,
            exact_on(*self, old(program_state).account_states@) && (r matches Some(Ok(_))) ==> mantissa_total(
                final(program_state).account_states@,
            ) == mantissa_total(old(program_state).account_states@) && states_at_scale(
                final(program_state).account_states@,
                exact_scale(*self, old(program_state).account_states@),
            ),
    {
        let mut scratch = copy_states(&program_state.account_states);
        match self.perform_on(&mut scratch) {
            None => None,
            Some(_) => Some(self.perform(program_state)),
        }
    }
}

/// An action that changes the status of an account.
#[derive(Debug)]
pub struct EditAccountStatus {
    pub account: Rc<Account>,
    pub newstatus: AccountStatus,
    pub date: chrono::NaiveDate,
}

/// The states after setting the status of the edited account; `None` when
/// the account has no state.
pub open spec fn edit_spec(edit: EditAccountStatus, states: Seq<AccountState>) -> Option<Seq<AccountState>> {
    match state_index(states, edit.account.id@) {
        None => None,
        Some(k) => Some(states.update(k, AccountState {
            account: states[k].account,
            amount: states[k].amount,
            status: edit.newstatus,
        })),
    }
}

impl EditAccountStatus {
    /// An action setting the status of `account` to `newstatus`.
    pub fn new(account: Rc<Account>, newstatus: AccountStatus, date: chrono::NaiveDate) -> (e: EditAccountStatus)
        ensures
            e == (EditAccountStatus { account, newstatus, date }),
    {
        EditAccountStatus { account, newstatus, date }
    }

    /// Sets the status of the account's state, or gives `None` when the
    /// account has no state.
    fn perform_on(&self, states: &mut Vec<AccountState>) -> (r: Option<Result<(), AccountingError>>)
        ensures
            r is None <==> edit_spec(*self, old(states)@) is None,
            r is None ==> final(states)@ == old(states)@,
            r matches Some(res) ==> res is Ok && final(states)@ == edit_spec(*self, old(states)@)->0,
    {
        match state_position(states, &self.account.id) {
            None => None,
            Some(k) => {
                let state = AccountState {
                    account: states[k].account.clone(),
                    amount: states[k].amount,
                    status: self.newstatus,
                };
                states.set(k, state);
                Some(Ok(()))
            },
        }
    }

    /// Sets the status of the account's state, which must exist.
    pub fn perform(&self, program_state: &mut ProgramState) -> (r: Result<(), AccountingError>)
        requires
            edit_spec(*self, old(program_state).account_states@) is Some,
        ensures
            r is Ok,
            final(program_state).account_states@ == edit_spec(*self, old(program_state).account_states@)->0,
            final(program_state).current_action_index == old(program_state).current_action_index,
    {
        let k = state_position(&program_state.account_states, &self.account.id).unwrap();
        let state = AccountState {
            account: program_state.account_states[k].account.clone(),
            amount: program_state.account_states[k].amount,
            status: self.newstatus,
        };
        program_state.account_states.set(k, state);
        Ok(())
    }
}

/// An action of a [Program].
#[derive(Debug)]
pub enum ActionTypeValue {
    Transaction(Transaction),
    EditAccountStatus(EditAccountStatus),
}

/// The states after an action, with the failure of a transaction, if any;
/// `None` where the action cannot be performed without a panic.
pub open spec fn action_spec(action: ActionTypeValue, states: Seq<AccountState>) -> Option<(Seq<AccountState>, Option<TransactionFailure>)> {
    match action {
        ActionTypeValue::Transaction(t) => perform_spec(t, states),
        ActionTypeValue::EditAccountStatus(edit) => match edit_spec(edit, states) {
            Some(after) => Some((after, None)),
            None => None,
        },
    }
}

/// `e` is the error that `action` reports for failure `f`.
pub open spec fn action_error(action: ActionTypeValue, f: TransactionFailure, e: AccountingError) -> bool {
    match action {
        ActionTypeValue::Transaction(t) => failure_error(f, t, e),
        ActionTypeValue::EditAccountStatus(_) => false,
    }
}

impl ActionTypeValue {
    /// The kind of this action.
    pub fn action_type(&self) -> (t: ActionType)
        ensures
            self is Transaction ==> t == ActionType::Transaction,
            self is EditAccountStatus ==> t == ActionType::EditAccountStatus,
    {
        match self {
            ActionTypeValue::Transaction(_) => ActionType::Transaction,
            ActionTypeValue::EditAccountStatus(_) => ActionType::EditAccountStatus,
        }
    }

    /// The date of this action.
    pub fn date(&self) -> (d: chrono::NaiveDate)
        ensures
            self matches ActionTypeValue::Transaction(t) ==> d == t.date,
            self matches ActionTypeValue::EditAccountStatus(e) ==> d == e.date,
    {
        match self {
            ActionTypeValue::Transaction(t) => t.date,
            ActionTypeValue::EditAccountStatus(e) => e.date,
        }
    }

    /// Performs this action on the states, or gives `None` (with the states
    /// partly changed) where it cannot be performed without a panic.
    fn perform_on(&self, states: &mut Vec<AccountState>) -> (r: Option<Result<(), AccountingError>>)
        ensures
            r is None <==> action_spec(*self, old(states)@) is None,
            r matches Some(res) ==> action_spec(*self, old(states)@) matches Some((after, failure))
                && final(states)@ == after && match failure {
                None => res is Ok,
                Some(f) => res matches Err(e) && action_error(*self, f, e),
            },
    {
        match self {
            ActionTypeValue::Transaction(t) => t.perform_on(states),
            ActionTypeValue::EditAccountStatus(e) => e.perform_on(states),
        }
    }

    /// Performs this action on the program state.
    pub fn perform(&self, program_state: &mut ProgramState) -> (r: Result<(), AccountingError>)
        requires
            action_spec(*self, old(program_state).account_states@) is Some,
        ensures
            action_spec(*self, old(program_state).account_states@) matches Some((states, failure))
                && final(program_state).account_states@ == states && match failure {
                None => r is Ok,
                Some(f) => r matches Err(e) && action_error(*self, f, e),
            },
            final(program_state).current_action_index == old(program_state).current_action_index,
    {
        self.perform_on(&mut program_state.account_states).unwrap()
    }

    /// [ActionTypeValue::perform], or `None`, with the program state
    /// unchanged, where the action cannot be performed without a panic.
    pub fn try_perform(&self, program_state: &mut ProgramState) -> (r: Option<Result<(), AccountingError>>)
        ensures
            r is None <==> action_spec(*self, old(program_state).account_states@) is None,
            r is None ==> *final(program_state) == *old(program_state),
            r matches Some(res) ==> action_spec(*self, old(program_state).account_states@) matches Some((states, failure))
                && final(program_state).account_states@ == states && match failure {
                None => res is Ok,
                Some(f) => res matches Err(e) && action_error(*self, f, e),
            },
    {
        let mut scratch = copy_states(&program_state.account_states);
        match self.perform_on(&mut scratch) {
            None => None,
            Some(_) => Some(self.perform(program_state)),
        }
    }
}

/// A list of actions, executed in order.
#[derive(Debug)]
pub struct Program {
    pub actions: Vec<ActionTypeValue>,
}

impl Program {
    /// A program of these actions.
    pub fn new(actions: Vec<ActionTypeValue>) -> (p: Program)
        ensures
            p.actions == actions,
    {
        Program { actions }
    }
}

/// The states after executing the actions from index `i` on, in order,
/// stopping at the first failing action, whose index and failure are given;
/// `None` where an action cannot be performed without a panic.
pub open spec fn execute_spec(actions: Seq<ActionTypeValue>, i: int, states: Seq<AccountState>) -> Option<(Seq<AccountState>, Option<(int, TransactionFailure)>)>
    decreases actions.len() - i,
{
    if i >= actions.len() || i < 0 {
        Some((states, None))
    } else {
        match action_spec(actions[i], states) {
            None => None,
            Some((after, Some(f))) => Some((after, Some((i, f)))),
            Some((after, None)) => execute_spec(actions, i + 1, after),
        }
    }
}

/// The outcome of `execute_spec` holds of the program state after
/// executing `program` from `before`, and of the result.
pub open spec fn executed(program: Program, before: ProgramState, after: ProgramState, r: Result<(), AccountingError>) -> bool {
    execute_spec(program.actions@, 0, before.account_states@) matches Some((states, failure))
        && after.account_states@ == states && match failure {
        None => r is Ok && (program.actions.len() > 0 ==> after.current_action_index == program.actions.len() - 1)
            && (program.actions.len() == 0 ==> after.current_action_index == before.current_action_index),
        Some((j, f)) => r matches Err(e) && action_error(program.actions@[j], f, e)
            && (j > 0 ==> after.current_action_index == j - 1)
            && (j == 0 ==> after.current_action_index == before.current_action_index),
    }
}

impl ProgramState {
    /// Executes the program, or gives `None` (with the state partly
    /// changed) where an action cannot be performed without a panic.
    fn execute_on(&mut self, program: &Program) -> (r: Option<Result<(), AccountingError>>)
        ensures
            r is None <==> execute_spec(program.actions@, 0, old(self).account_states@) is None,
            r matches Some(res) ==> executed(*program, *old(self), *final(self), res),
    {
        let mut index: usize = 0;
        while index < program.actions.len()
            invariant
                index <= program.actions.len(),
                execute_spec(program.actions@, 0, old(self).account_states@) == execute_spec(program.actions@, index as int, self.account_states@),
                index > 0 ==> self.current_action_index == index - 1,
                index == 0 ==> self.current_action_index == old(self).current_action_index,
            decreases program.actions.len() - index,
        {
            let ghost before = self.account_states@;
            let result = program.actions[index].perform_on(&mut self.account_states);
            match result {
                None => {
                    return None;
                },
                Some(Ok(())) => {},
                Some(Err(e)) => {
                    proof {
                        let (after, failure) = action_spec(program.actions@[index as int], before)->0;
                        assert(execute_spec(program.actions@, index as int, before) == Some((after, Some((index as int, failure->0)))));
                    }
                    return Some(Err(e));
                },
            }
            self.current_action_index = index;
            index = index + 1;
        }
        Some(Ok(()))
    }

    /// Executes the actions of the program in order, stopping at the first
    /// error; `current_action_index` is left at the last action that
    /// succeeded. No action may panic (see `execute_spec`).
    pub fn execute_program(&mut self, program: &Program) -> (r: Result<(), AccountingError>)
        requires
            execute_spec(program.actions@, 0, old(self).account_states@) is Some,
        ensures
            executed(*program, *old(self), *final(self), r),
    {
        self.execute_on(program).unwrap()
    }

    /// [ProgramState::execute_program], or `None`, with the state unchanged,
    /// where an action cannot be performed without a panic.
    pub fn try_execute_program(&mut self, program: &Program) -> (r: Option<Result<(), AccountingError>>)
        ensures
            r is None <==> execute_spec(program.actions@, 0, old(self).account_states@) is None,
            r is None ==> *final(self) == *old(self),
            r matches Some(res) ==> executed(*program, *old(self), *final(self), res),
    {
        let mut scratch = ProgramState {
            account_states: copy_states(&self.account_states),
            current_action_index: self.current_action_index,
        };
        match scratch.execute_on(program) {
            None => None,
            Some(_) => Some(self.execute_program(program)),
        }
    }
}

/// Why a sum of account states failed, as the spec sees it.
pub enum SumFailure {
    /// An amount in another currency, and no exchange rate.
    NoExchangeRate(Commodity),
    /// The exchange rate could not convert an amount.
    Rate(ExchangeRateError),
}

/// The sum, from index `i` on, of the amounts of the states added to `acc`,
/// each first converted to `currency` with the exchange rate when its
/// currency differs; `None` where an operation would overflow or divide by
/// zero.
pub open spec fn sum_states_from(states: Seq<AccountState>, i: int, acc: (int, int), currency: CurrencyCode, rate: Option<ExchangeRate>) -> Option<Result<(int, int), SumFailure>>
    decreases states.len() - i,
{
    if i >= states.len() || i < 0 {
        Some(Ok(acc))
    } else {
        let amount = states[i].amount;
        let converted: Option<Result<(int, int), SumFailure>> = if amount.currency_code@ != currency@ {
            match rate {
                Some(r) => match convert_spec(r, amount, currency) {
                    None => None,
                    Some(Err(e)) => Some(Err(SumFailure::Rate(e))),
                    Some(Ok(v)) => Some(Ok(v)),
                },
                None => Some(Err(SumFailure::NoExchangeRate(amount))),
            }
        } else {
            Some(Ok(amount.value@))
        };
        match converted {
            None => None,
            Some(Err(f)) => Some(Err(f)),
            Some(Ok(v)) => match checked_sum(acc, v) {
                None => None,
                Some(next) => sum_states_from(states, i + 1, next, currency, rate),
            },
        }
    }
}

/// Summing the states with one more state after them goes on from where
/// the sum of the first ones stopped.
proof fn lemma_sum_push(states: Seq<AccountState>, s: AccountState, i: int, acc: (int, int), currency: CurrencyCode, rate: Option<ExchangeRate>)
    requires
        0 <= i <= states.len(),
    ensures
        sum_states_from(states.push(s), i, acc, currency, rate) == match sum_states_from(states, i, acc, currency, rate) {
            Some(Ok(a)) => sum_states_from(states.push(s), states.len() as int, a, currency, rate),
            other => other,
        },
    decreases states.len() - i,
{
    if i < states.len() {
        assert(states.push(s)[i] == states[i]);
        let amount = states[i].amount;
        let converted: Option<Result<(int, int), SumFailure>> = if amount.currency_code@ != currency@ {
            match rate {
                Some(r) => match convert_spec(r, amount, currency) {
                    None => None,
                    Some(Err(e)) => Some(Err(SumFailure::Rate(e))),
                    Some(Ok(v)) => Some(Ok(v)),
                },
                None => Some(Err(SumFailure::NoExchangeRate(amount))),
            }
        } else {
            Some(Ok(amount.value@))
        };
        if let Some(Ok(v)) = converted {
            if let Some(next) = checked_sum(acc, v) {
                lemma_sum_push(states, s, i + 1, next, currency, rate);
            }
        }
    }
}

/// What a sum of account states is made of: nothing sums to zero; and
/// one more state adds to the sum of the others (in order) its amount when
/// it is in the sum's currency, and otherwise the amount that
/// [ExchangeRate::convert] gives for it in that currency (an error without
/// an exchange rate, or when the conversion fails). A failure of the
/// others stays the failure of the whole.
pub proof fn law_sum_adds_converted_amounts(states: Seq<AccountState>, s: AccountState, currency: CurrencyCode, rate: Option<ExchangeRate>)
    ensures
        sum_states_from(Seq::empty(), 0, (0, 0), currency, rate) == Some(Ok::<(int, int), SumFailure>((0, 0))),
        sum_states_from(states, 0, (0, 0), currency, rate) matches Some(Ok(acc)) ==> sum_states_from(
            states.push(s),
            0,
            (0, 0),
            currency,
            rate,
        ) == (if s.amount.currency_code@ == currency@ {
            match checked_sum(acc, s.amount.value@) {
                Some(n) => Some(Ok::<(int, int), SumFailure>(n)),
                None => None,
            }
        } else {
            match rate {
                None => Some(Err(SumFailure::NoExchangeRate(s.amount))),
                Some(r) => match convert_spec(r, s.amount, currency) {
                    None => None,
                    Some(Err(e)) => Some(Err(SumFailure::Rate(e))),
                    Some(Ok(v)) => match checked_sum(acc, v) {
                        Some(n) => Some(Ok::<(int, int), SumFailure>(n)),
                        None => None,
                    },
                },
            }
        }),
        !(sum_states_from(states, 0, (0, 0), currency, rate) matches Some(Ok(_))) ==> sum_states_from(states.push(s), 0, (0, 0), currency, rate)
            == sum_states_from(states, 0, (0, 0), currency, rate),
{
    lemma_sum_push(states, s, 0, (0, 0), currency, rate);
    if let Some(Ok(acc)) = sum_states_from(states, 0, (0, 0), currency, rate) {
        let all = states.push(s);
        let n = states.len() as int;
        assert(all[n] == s);
        let amount = s.amount;
        let converted: Option<Result<(int, int), SumFailure>> = if amount.currency_code@ != currency@ {
            match rate {
                Some(r) => match convert_spec(r, amount, currency) {
                    None => None,
                    Some(Err(e)) => Some(Err(SumFailure::Rate(e))),
                    Some(Ok(v)) => Some(Ok(v)),
                },
                None => Some(Err(SumFailure::NoExchangeRate(amount))),
            }
        } else {
            Some(Ok(amount.value@))
        };
        if let Some(Ok(v)) = converted {
            if let Some(next) = checked_sum(acc, v) {
                assert(sum_states_from(all, n + 1, next, currency, rate) == Some(Ok::<(int, int), SumFailure>(next)));
            }
        }
    }
}

/// The exchange rate behind the reference, if any.
pub open spec fn deref_rate(rate: Option<&ExchangeRate>) -> Option<ExchangeRate> {
    match rate {
        Some(r) => Some(*r),
        None => None,
    }
}

/// `e` is the error `sum_account_states` gives for the failure `f`.
pub open spec fn sum_failure_error(f: SumFailure, currency: CurrencyCode, e: AccountingError) -> bool {
    match f {
        SumFailure::NoExchangeRate(amount) => e == AccountingError::NoExchangeRateSupplied(amount, currency),
        SumFailure::Rate(re) => e matches AccountingError::ExchangeRate(x) && x == re,
    }
}

/// The sum of the amounts of the account states in `sum_currency` (see
/// `sum_states_from`), or `None` where an operation would overflow or
/// divide by zero.
fn sum_states_core(account_states: &Vec<AccountState>, sum_currency: CurrencyCode, exchange_rate: Option<&ExchangeRate>) -> (r: Option<Result<Commodity, AccountingError>>)
    ensures
        r is None <==> sum_states_from(account_states@, 0, (0, 0), sum_currency, deref_rate(exchange_rate)) is None,
        r matches Some(res) ==> (sum_states_from(account_states@, 0, (0, 0), sum_currency, deref_rate(exchange_rate)) matches Some(spec_res) && match spec_res {
            Ok(v) => res matches Ok(c) && c.value@ == v && c.currency_code == sum_currency,
            Err(f) => res matches Err(e) && sum_failure_error(f, sum_currency, e),
        }),
{
    let ghost rate = deref_rate(exchange_rate);
    let mut sum = Commodity::zero(sum_currency);
    let mut i: usize = 0;
    while i < account_states.len()
        invariant
            i <= account_states.len(),
            rate == deref_rate(exchange_rate),
            sum.currency_code == sum_currency,
            sum_states_from(account_states@, 0, (0, 0), sum_currency, rate) == sum_states_from(account_states@, i as int, sum.value@, sum_currency, rate),
        decreases account_states.len() - i,
    {
        let account_state = &account_states[i];
        let account_amount = if !account_state.amount.currency_code.same_as(&sum_currency) {
            match exchange_rate {
                Some(rate) => match rate.try_convert(account_state.amount, sum_currency) {
                    None => {
                        return None;
                    },
                    Some(Ok(c)) => c,
                    Some(Err(e)) => {
                        return Some(Err(AccountingError::ExchangeRate(e)));
                    },
                },
                None => {
                    return Some(Err(AccountingError::NoExchangeRateSupplied(account_state.amount, sum_currency)));
                },
            }
        } else {
            account_state.amount
        };
        sum = match sum.try_add(&account_amount) {
            Some(Ok(c)) => c,
            Some(Err(_)) => {
                assert(false);
                return None;
            },
            None => {
                return None;
            },
        };
        i = i + 1;
    }
    Some(Ok(sum))
}

/// The sum of the amounts of the account states in `sum_currency`: an
/// amount in another currency is first converted with the exchange rate,
/// and is an error when there is none. No operation may overflow.
pub fn sum_account_states(account_states: &Vec<AccountState>, sum_currency: CurrencyCode, exchange_rate: Option<&ExchangeRate>) -> (r: Result<Commodity, AccountingError>)
    requires
        sum_states_from(account_states@, 0, (0, 0), sum_currency, deref_rate(exchange_rate)) is Some,
    ensures
        sum_states_from(account_states@, 0, (0, 0), sum_currency, deref_rate(exchange_rate)) matches Some(res) && match res {
            Ok(v) => r matches Ok(c) && c.value@ == v && c.currency_code == sum_currency,
            Err(f) => r matches Err(e) && sum_failure_error(f, sum_currency, e),
        },
{
    sum_states_core(account_states, sum_currency, exchange_rate).unwrap()
}

/// [sum_account_states], or `None` where an operation on the amounts would
/// overflow or divide by zero.
pub fn try_sum_account_states(account_states: &Vec<AccountState>, sum_currency: CurrencyCode, exchange_rate: Option<&ExchangeRate>) -> (r: Option<Result<Commodity, AccountingError>>)
    ensures
        r is None <==> sum_states_from(account_states@, 0, (0, 0), sum_currency, deref_rate(exchange_rate)) is None,
        r matches Some(res) ==> (sum_states_from(account_states@, 0, (0, 0), sum_currency, deref_rate(exchange_rate)) matches Some(spec_res) && match spec_res {
            Ok(v) => res matches Ok(c) && c.value@ == v && c.currency_code == sum_currency,
            Err(f) => res matches Err(e) && sum_failure_error(f, sum_currency, e),
        }),
{
    match sum_states_core(account_states, sum_currency, exchange_rate) {
        Some(_) => Some(sum_account_states(account_states, sum_currency, exchange_rate)),
        None => None,
    }
}


/// No element of the sequence, from index `i` on, names the account with
/// this id.
pub open spec fn names_no(elements: Seq<(Rc<Account>, Option<Commodity>)>, i: int, id: Seq<char>) -> bool {
    forall|j: int| i <= j < elements.len() ==> (#[trigger] elements[j]).0.id@ != id
}

/// Adding the amounts of elements keeps the accounts and statuses of the
/// states, and the states of accounts that no element names.
proof fn lemma_apply_keeps_accounts(elements: Seq<(Rc<Account>, Option<Commodity>)>, i: int, states: Seq<AccountState>)
    requires
        0 <= i,
    ensures
        apply_elements(elements, i, states) matches Some((after, _)) ==> {
            &&& after.len() == states.len()
            &&& forall|q: int| 0 <= q < states.len() ==> (#[trigger] after[q]).account == states[q].account && after[q].status == states[q].status
            &&& forall|q: int| 0 <= q < states.len() && names_no(elements, i, states[q].account.id@) ==> #[trigger] after[q] == states[q]
        },
    decreases elements.len() - i,
{
    if i < elements.len() {
        let el = elements[i];
        lemma_state_index_found(states, el.0.id@);
        match state_index(states, el.0.id@) {
            None => {},
            Some(k) => {
                let st = states[k];
                if st.status != AccountStatus::Closed {
                    if let Some(a) = el.1 {
                        if st.amount.currency_code@ == a.currency_code@ {
                            if let Some(v) = checked_sum(st.amount.value@, a.value@) {
                                let next = states.update(k, AccountState {
                                    account: st.account,
                                    amount: Commodity { value: Decimal::of_parts(v), currency_code: st.amount.currency_code },
                                    status: st.status,
                                });
                                lemma_apply_keeps_accounts(elements, i + 1, next);
                                if let Some((after, _)) = apply_elements(elements, i, states) {
                                    assert forall|q: int| 0 <= q < states.len() && names_no(elements, i, states[q].account.id@) implies #[trigger] after[q]
                                        == states[q] by {
                                        assert(elements[i] == el);
                                        assert(q != k);
                                        assert(next[q] == states[q]);
                                        assert(names_no(elements, i + 1, next[q].account.id@));
                                    }
                                }
                            }
                        }
                    }
                }
            },
        }
    }
}

/// The element that `first_empty` finds is one, without an amount.
proof fn lemma_first_empty_found(elements: Seq<(Rc<Account>, Option<Commodity>)>)
    ensures
        first_empty(elements) matches Some(e) ==> 0 <= e < elements.len() && elements[e].1 is None,
    decreases elements.len(),
{
    if elements.len() > 0 {
        lemma_first_empty_found(elements.drop_first());
    }
}

/// A transaction changes only the accounts it names: performing it keeps
/// every state's account and status, and leaves the state of an account
/// that no element names as it was.
pub proof fn law_transaction_changes_only_its_accounts(elements: Seq<(Rc<Account>, Option<Commodity>)>, states: Seq<AccountState>)
    ensures
        perform_model(elements, states) matches Some((after, _)) ==> {
            &&& after.len() == states.len()
            &&& forall|q: int| 0 <= q < states.len() ==> (#[trigger] after[q]).account == states[q].account && after[q].status == states[q].status
            &&& forall|q: int| 0 <= q < states.len() && names_no(elements, 0, states[q].account.id@) ==> #[trigger] after[q] == states[q]
        },
{
    lemma_apply_keeps_accounts(elements, 0, states);
    if elements.len() >= 2 && !two_empty(elements) {
        if let Some(e) = first_empty(elements) {
            lemma_first_empty_found(elements);
            let zero = Commodity { value: Decimal::of_parts((0, 0)), currency_code: elements[e].0.currency.code };
            if let Some(Ok(sum)) = sum_except(elements, e, 0, zero) {
                let filled = elements.update(e, (elements[e].0, Some(negated(sum))));
                lemma_apply_keeps_accounts(filled, 0, states);
                assert forall|q: int| 0 <= q < states.len() && names_no(elements, 0, states[q].account.id@) implies names_no(
                    filled,
                    0,
                    #[trigger] states[q].account.id@,
                ) by {
                    assert forall|j: int| 0 <= j < filled.len() implies (#[trigger] filled[j]).0.id@ != states[q].account.id@ by {
                        assert(filled[j].0 == elements[j].0);
                    }
                }
            }
        }
    }
}

/// Setting the status of an account changes only that: every state keeps
/// its account and amount, and every state but the edited one is kept.
pub proof fn law_edit_changes_only_status(edit: EditAccountStatus, states: Seq<AccountState>)
    ensures
        edit_spec(edit, states) matches Some(after) ==> {
            &&& after.len() == states.len()
            &&& forall|q: int| 0 <= q < states.len() ==> (#[trigger] after[q]).account == states[q].account && after[q].amount == states[q].amount
            &&& forall|q: int| 0 <= q < states.len() && states[q].account.id@ != edit.account.id@ ==> #[trigger] after[q] == states[q]
            &&& exists|k: int| 0 <= k < states.len() && states[k].account.id@ == edit.account.id@ && after[k].status == edit.newstatus
        },
{
    lemma_state_index_found(states, edit.account.id@);
    if let Some(k) = state_index(states, edit.account.id@) {
        let after = edit_spec(edit, states)->0;
        assert(states[k].account.id@ == edit.account.id@ && after[k].status == edit.newstatus);
    }
}

/// Executing a program keeps the accounts of the states: there are as many
/// states after it as before, each of the same account; so where each
/// account had one state, it still has one.
pub proof fn law_execution_keeps_accounts(actions: Seq<ActionTypeValue>, i: int, states: Seq<AccountState>)
    requires
        0 <= i,
    ensures
        execute_spec(actions, i, states) matches Some((after, _)) ==> after.len() == states.len() && (forall|q: int|
            0 <= q < states.len() ==> (#[trigger] after[q]).account == states[q].account) && (distinct_ids(states) ==> distinct_ids(
            after,
        )),
    decreases actions.len() - i,
{
    if i < actions.len() {
        match actions[i] {
            ActionTypeValue::Transaction(t) => law_transaction_changes_only_its_accounts(element_models(t.elements@), states),
            ActionTypeValue::EditAccountStatus(edit) => law_edit_changes_only_status(edit, states),
        }
        match action_spec(actions[i], states) {
            Some((after, None)) => {
                law_execution_keeps_accounts(actions, i + 1, after);
            },
            _ => {},
        }
    }
    if let Some((after, _)) = execute_spec(actions, i, states) {
        if distinct_ids(states) {
            assert forall|p: int, q: int| 0 <= p < q < after.len() implies #[trigger] after[p].account.id@ != #[trigger] after[q].account.id@ by {
                assert(after[p].account == states[p].account);
                assert(after[q].account == states[q].account);
            }
        }
    }
}

} // verus!
