use chrono::NaiveDate;
use coster::accounting::{
    sum_account_states, try_sum_account_states, Account, AccountState, AccountStatus, AccountingError, ActionType,
    ActionTypeValue, EditAccountStatus, Program, ProgramState, Transaction, TransactionElement,
};
use coster::currency::{Commodity, Currency, CurrencyCode};
use std::rc::Rc;
use std::str::FromStr;

#[test]
fn execute_program() {
    let currency = Rc::from(Currency::new(CurrencyCode::from_str("AUD").unwrap(), None));
    let account1 = Rc::from(Account::new(Some("Account 1"), currency.clone(), None));

    let account2 = Rc::from(Account::new(Some("Account 2"), currency.clone(), None));

    let accounts = vec![account1.clone(), account2.clone()];

    let mut program_state = ProgramState::new(accounts);

    let open_account1 = EditAccountStatus::new(account1.clone(), AccountStatus::Open, NaiveDate::from_str("2020-01-01").unwrap());

    let open_account2 = EditAccountStatus::new(account2.clone(), AccountStatus::Open, NaiveDate::from_str("2020-01-01").unwrap());

    let transaction1 = Transaction::new(
        Some(String::from("Transaction 1")),
        NaiveDate::from_str("2020-01-02").unwrap(),
        vec![
            TransactionElement::new(account1.clone(), Some(Commodity::from_str("-2.52 AUD").unwrap()), None),
            TransactionElement::new(account2.clone(), Some(Commodity::from_str("2.52 AUD").unwrap()), None),
        ],
    );

    let transaction2 = Transaction::new(
        Some(String::from("Transaction 2")),
        NaiveDate::from_str("2020-01-02").unwrap(),
        vec![
            TransactionElement::new(account1.clone(), Some(Commodity::from_str("-1.0 AUD").unwrap()), None),
            TransactionElement::new(account2.clone(), None, None),
        ],
    );

    let actions: Vec<ActionTypeValue> = vec![
        ActionTypeValue::EditAccountStatus(open_account1),
        ActionTypeValue::EditAccountStatus(open_account2),
        ActionTypeValue::Transaction(transaction1),
        ActionTypeValue::Transaction(transaction2),
    ];

    let program = Program::new(actions);

    let account1_state_before: AccountState = program_state.get_account_state(&account1.id).unwrap().clone();

    assert_eq!(AccountStatus::Closed, account1_state_before.status);

    program_state.execute_program(&program).unwrap();

    let account1_state_after: AccountState = program_state.get_account_state(&account1.id).unwrap().clone();

    assert_eq!(AccountStatus::Open, account1_state_after.status);
    assert_eq!(Commodity::from_str("-3.52 AUD").unwrap(), account1_state_after.amount);

    assert_eq!(
        Commodity::from_str("0.0 AUD").unwrap(),
        sum_account_states(&program_state.account_states, CurrencyCode::from_str("AUD").unwrap(), None).unwrap()
    );
}

fn two_accounts() -> (Rc<Account>, Rc<Account>, ProgramState) {
    let currency = Rc::from(Currency::new(CurrencyCode::from_str("AUD").unwrap(), None));
    let a = Rc::from(Account::new(Some("A"), currency.clone(), None));
    let b = Rc::from(Account::new(Some("B"), currency, None));
    let state = ProgramState::new_with_status(&vec![a.clone(), b.clone()], AccountStatus::Open);
    (a, b, state)
}

fn date() -> NaiveDate {
    NaiveDate::from_ymd_opt(2020, 1, 1).unwrap()
}

#[test]
fn transaction_failures() {
    let (a, b, mut state) = two_accounts();

    let single = Transaction::new(None, date(), vec![TransactionElement::new(a.clone(), None, None)]);
    match single.perform(&mut state) {
        Err(AccountingError::InvalidTransaction(_, reason)) => assert_eq!("a transaction cannot have less than 2 elements", reason),
        other => panic!("unexpected {:?}", other),
    }

    let two_empty = Transaction::new(None, date(), vec![TransactionElement::new(a.clone(), None, None), TransactionElement::new(b.clone(), None, None)]);
    match two_empty.perform(&mut state) {
        Err(AccountingError::InvalidTransaction(_, reason)) => assert_eq!("multiple elements with no amount specified", reason),
        other => panic!("unexpected {:?}", other),
    }

    let mixed = Transaction::new(
        None,
        date(),
        vec![
            TransactionElement::new(a.clone(), Some(Commodity::from_str("1 AUD").unwrap()), None),
            TransactionElement::new(b.clone(), Some(Commodity::from_str("1 USD").unwrap()), None),
        ],
    );
    assert!(matches!(mixed.perform(&mut state), Err(AccountingError::Currency(_))));

    let close = EditAccountStatus::new(b.clone(), AccountStatus::Closed, date());
    close.perform(&mut state).unwrap();
    let to_closed = Transaction::new_simple(Some("move"), date(), a.clone(), b.clone(), Commodity::from_str("5 AUD").unwrap(), None);
    match to_closed.perform(&mut state) {
        Err(AccountingError::InvalidAccountStatus { account, status }) => {
            assert_eq!(b.id, account.id);
            assert_eq!(AccountStatus::Closed, status);
        },
        other => panic!("unexpected {:?}", other),
    }
}

#[test]
fn simple_transaction_balances() {
    let (a, b, mut state) = two_accounts();
    let t = Transaction::new_simple(Some("move"), date(), a.clone(), b.clone(), Commodity::from_str("5.25 AUD").unwrap(), None);
    assert_eq!(Some(Commodity::from_str("-5.25 AUD").unwrap()), t.elements[0].amount);
    t.perform(&mut state).unwrap();
    assert_eq!(Commodity::from_str("-5.25 AUD").unwrap(), state.get_account_state(&a.id).unwrap().amount);
    assert_eq!(Commodity::from_str("5.25 AUD").unwrap(), state.get_account_state(&b.id).unwrap().amount);
    assert_eq!(ActionType::Transaction, ActionTypeValue::Transaction(t).action_type());
}

#[test]
fn missing_account_state_is_not_performed() {
    let (a, _b, mut state) = two_accounts();
    let currency = Rc::from(Currency::new(CurrencyCode::from_str("AUD").unwrap(), None));
    let stranger = Rc::from(Account::new(Some("C"), currency, None));
    let t = Transaction::new_simple(None, date(), a.clone(), stranger, Commodity::from_str("1 AUD").unwrap(), None);
    let before = state.get_account_state(&a.id).unwrap().amount;
    assert!(t.try_perform(&mut state).is_none());
    assert_eq!(before, state.get_account_state(&a.id).unwrap().amount);
}

#[test]
fn sum_needs_an_exchange_rate() {
    let currency = Rc::from(Currency::new(CurrencyCode::from_str("USD").unwrap(), None));
    let account = Rc::from(Account::new(None, currency, None));
    let state = ProgramState::new_with_status(&vec![account], AccountStatus::Open);
    let aud = CurrencyCode::from_str("AUD").unwrap();
    match sum_account_states(&state.account_states, aud, None) {
        Err(AccountingError::NoExchangeRateSupplied(amount, code)) => {
            assert_eq!(Commodity::from_str("0 USD").unwrap(), amount);
            assert_eq!(aud, code);
        },
        other => panic!("unexpected {:?}", other),
    }
    assert!(try_sum_account_states(&state.account_states, aud, None).unwrap().is_err());
}

#[test]
fn new_account_ids_are_random() {
    let currency = Rc::from(Currency::new(CurrencyCode::from_str("USD").unwrap(), None));
    let a = Account::new(None, currency.clone(), None);
    let b = Account::new(None, currency, None);
    assert_eq!(20, a.id.chars().count());
    assert_ne!(a.id, b.id);
    assert!(a.id.chars().all(|c| c == '_' || c == '-' || c.is_ascii_alphanumeric()));
}

#[test]
fn balanced_transaction_keeps_the_total() {
    let currency = Rc::from(Currency::new(CurrencyCode::from_str("AUD").unwrap(), None));
    let a = Rc::from(Account::new(Some("A"), currency.clone(), None));
    let b = Rc::from(Account::new(Some("B"), currency.clone(), None));
    let c = Rc::from(Account::new(Some("C"), currency, None));
    let mut state = ProgramState::new_with_status(&vec![a.clone(), b.clone(), c.clone()], AccountStatus::Open);
    let transaction = Transaction::new(
        None,
        date(),
        vec![
            TransactionElement::new(a.clone(), Some(Commodity::from_str("-2.50 AUD").unwrap()), None),
            TransactionElement::new(c.clone(), None, None),
            TransactionElement::new(b.clone(), Some(Commodity::from_str("-1.25 AUD").unwrap()), None),
        ],
    );
    transaction.perform(&mut state).unwrap();
    assert_eq!(Commodity::from_str("-2.50 AUD").unwrap(), state.get_account_state(&a.id).unwrap().amount);
    assert_eq!(Commodity::from_str("-1.25 AUD").unwrap(), state.get_account_state(&b.id).unwrap().amount);
    assert_eq!(Commodity::from_str("3.75 AUD").unwrap(), state.get_account_state(&c.id).unwrap().amount);
    let total: i128 = state.account_states.iter().map(|s| s.amount.value.mantissa()).sum();
    assert_eq!(0, total);
}

#[test]
fn program_state_has_one_state_per_account() {
    let currency = Rc::from(Currency::new(CurrencyCode::from_str("AUD").unwrap(), None));
    let a = Rc::from(Account::new_with_id("a".to_string(), Some("A".to_string()), currency.clone(), None));
    let b = Rc::from(Account::new_with_id("b".to_string(), Some("B".to_string()), currency.clone(), None));
    let a_again = Rc::from(Account::new_with_id("a".to_string(), Some("A again".to_string()), currency, None));
    let state = ProgramState::new(vec![a.clone(), b.clone(), a_again.clone()]);
    assert_eq!(2, state.account_states.len());
    assert_eq!(Some("A again".to_string()), state.account_states[0].account.name);
    assert_eq!("b", state.account_states[1].account.id);
}

#[test]
fn unbalanced_transaction_is_refused() {
    let (a, b, mut state) = two_accounts();
    let unbalanced = Transaction::new(
        None,
        date(),
        vec![
            TransactionElement::new(a.clone(), Some(Commodity::from_str("-2.52 AUD").unwrap()), None),
            TransactionElement::new(b.clone(), Some(Commodity::from_str("3.00 AUD").unwrap()), None),
        ],
    );
    match unbalanced.perform(&mut state) {
        Err(AccountingError::InvalidTransaction(_, reason)) => assert_eq!("sum of transaction elements does not equal zero", reason),
        other => panic!("unexpected {:?}", other),
    }
    assert!(state.account_states.iter().all(|s| s.amount.value.is_zero()));

    let balanced = Transaction::new(
        None,
        date(),
        vec![
            TransactionElement::new(a.clone(), Some(Commodity::from_str("-2.52 AUD").unwrap()), None),
            TransactionElement::new(b.clone(), Some(Commodity::from_str("2.52 AUD").unwrap()), None),
        ],
    );
    assert!(balanced.perform(&mut state).is_ok());
}
