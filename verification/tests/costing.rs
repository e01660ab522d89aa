use chrono::NaiveDate;
use coster::costing::{
    AddExpense, AddUser, ChangeTabName, CostingError, Expense, ExpenseCategory, ExpenseID, RemoveExpense, RemoveUser, Tab,
    User, UserAction, UserID,
};
use coster::currency::{Commodity, Currency, CurrencyCode};
use coster::decimal::Decimal;
use std::rc::Rc;
use uuid::Uuid;

fn create_test_commodity() -> CurrencyCode {
    Currency::from_alpha3("USD").unwrap().code
}

fn test_tab_id() -> Uuid {
    Uuid::parse_str("936DA01F9ABD4d9d80C702AF85C822A8").unwrap()
}

fn create_test_tab() -> Tab {
    Tab::new(test_tab_id(), "Test Tab", create_test_commodity(), vec![], vec![])
}

fn create_test_user(id: UserID, name: &str) -> Rc<User> {
    let email = format!("{}@test.com", name);
    Rc::from(User::new(id, name, Some(email.as_ref())))
}

fn create_test_expense(id: ExpenseID, category: ExpenseCategory, paid_by: UserID, shared_by: Vec<UserID>) -> Expense {
    let description = format!("Test Expense {}", id);
    Expense::new(
        id,
        &description,
        &category,
        NaiveDate::from_ymd_opt(2020, 05, 01).unwrap(),
        paid_by,
        shared_by,
        Commodity::new(Decimal::new(1, 0), create_test_commodity()),
        None,
    )
}

#[test]
fn add_user() {
    let mut tab = create_test_tab();
    let user0 = create_test_user(0, "User 0");
    let user1 = create_test_user(1, "User 1");
    let action = AddUser::new(user0.id, (*user1).clone());

    assert_eq!(0, tab.users().len());

    action.perform(&mut tab).unwrap();

    assert_eq!(1, tab.users().len());
    assert_eq!(1, tab.users().get(0).unwrap().id);
}

#[test]
fn remove_user() {
    let mut tab = create_test_tab();

    let user0 = create_test_user(0, "User 0");
    let user1 = create_test_user(1, "User 1");
    tab.add_user((*user1).clone()).unwrap();

    let action = RemoveUser::new(user0.id, user1.id);

    assert_eq!(1, tab.users().len());

    action.perform(&mut tab).unwrap();

    assert_eq!(0, tab.users().len());
}

#[test]
fn add_expense() {
    let mut tab = create_test_tab();

    let user0 = create_test_user(0, "User 0");
    let user1 = create_test_user(1, "User 1");

    tab.add_user((*user0).clone()).unwrap();
    tab.add_user((*user1).clone()).unwrap();

    let expense = create_test_expense(0, "General".to_string(), user0.id, vec![user0.id, user1.id]);

    let action = AddExpense::new(user0.id, expense);

    assert_eq!(0, tab.expenses.len());
    action.perform(&mut tab).unwrap();
    assert_eq!(1, tab.expenses.len());
    assert_eq!(0, tab.expenses.get(0).unwrap().id);
}

#[test]
fn remove_expense() {
    let mut tab = create_test_tab();

    let user0 = create_test_user(0, "User 0");
    let user1 = create_test_user(1, "User 1");

    let expense = create_test_expense(0, "Test".to_string(), user0.id, vec![user0.id, user1.id]);

    let action = RemoveExpense::new(user0.id, expense.id);

    tab.expenses.push(expense);

    assert_eq!(1, tab.expenses.len());
    action.perform(&mut tab).unwrap();
    assert_eq!(0, tab.expenses.len());
}

#[test]
fn change_tab_name() {
    let mut tab = create_test_tab();
    let user0 = create_test_user(0, "User 0");

    let action = ChangeTabName::new(user0.id, "New Name");

    assert_eq!("Test Tab", tab.name);
    action.perform(&mut tab).unwrap();
    assert_eq!("New Name", tab.name);
}

#[test]
fn balance_simple() {
    let aud = Rc::from(Currency::from_alpha3("AUD").unwrap());

    let user1 = Rc::from(User::new(1, "User 1", None));
    let user2 = Rc::from(User::new(2, "User 2", None));
    let user3 = Rc::from(User::new(3, "User 3", None));

    let expense = Expense::new(
        1,
        "Petrol",
        "Test",
        NaiveDate::from_ymd_opt(2020, 2, 27).unwrap(),
        user1.id,
        vec![user2.id, user3.id],
        Commodity::from_str("300.0 AUD").unwrap(),
        None,
    );

    let tab = Tab::new(test_tab_id(), "Test", aud.code, vec![user1.clone(), user2.clone(), user3.clone()], vec![expense]);

    let settlements = tab.balance_transactions().unwrap();

    assert_eq!(2, settlements.len());

    let user2_settlement = settlements.iter().find(|s| s.sender == user2.id).unwrap();
    assert!(user2_settlement.receiver == user1.id);
    assert_eq!(Commodity::from_str("150.0 AUD").unwrap(), user2_settlement.amount);

    let user3_settlement = settlements.iter().find(|s| s.sender == user3.id).unwrap();
    assert!(user3_settlement.receiver == user1.id);
    assert_eq!(Commodity::from_str("150.0 AUD").unwrap(), user3_settlement.amount);
}

#[test]
fn balance_complex() {
    let aud = Rc::from(Currency::from_alpha3("AUD").unwrap());

    let user1 = Rc::from(User::new(1, "User 1", None));
    let user2 = Rc::from(User::new(2, "User 2", None));
    let user3 = Rc::from(User::new(3, "User 3", None));

    let expenses = vec![
        Expense::new(
            1,
            "Cheese",
            "Food",
            NaiveDate::from_ymd_opt(2020, 2, 27).unwrap(),
            user1.id,
            vec![user1.id, user2.id, user3.id],
            Commodity::from_str("300.0 AUD").unwrap(),
            None,
        ),
        Expense::new(
            2,
            "Pickles",
            "Food",
            NaiveDate::from_ymd_opt(2020, 2, 27).unwrap(),
            user1.id,
            vec![user2.id, user3.id],
            Commodity::from_str("500.0 AUD").unwrap(),
            None,
        ),
        Expense::new(
            3,
            "Buns",
            "Food",
            NaiveDate::from_ymd_opt(2020, 2, 27).unwrap(),
            user2.id,
            vec![user1.id, user2.id, user3.id],
            Commodity::from_str("100.0 AUD").unwrap(),
            None,
        ),
    ];

    let tab = Tab::new(test_tab_id(), "Test", aud.code, vec![user1.clone(), user2.clone(), user3.clone()], expenses);

    let settlements = tab.balance_transactions().unwrap();

    assert_eq!(2, settlements.len());

    let user2_settlement = settlements.iter().find(|s| s.sender == user2.id).unwrap();
    assert!(user2_settlement.receiver == user1.id);
    assert!(user2_settlement.amount.eq_approx(
        Commodity::from_str("283.33333333333 AUD").unwrap(),
        Commodity::default_epsilon()
    ));

    let user3_settlement = settlements.iter().find(|s| s.sender == user3.id).unwrap();
    assert!(user3_settlement.receiver == user1.id);
    assert!(user3_settlement.amount.eq_approx(
        Commodity::from_str("383.33333333333 AUD").unwrap(),
        Commodity::default_epsilon()
    ));
}

#[test]
fn balance() {
    let aud = Rc::from(Currency::from_alpha3("AUD").unwrap());

    let user1 = Rc::from(User::new(1, "User 1", None));
    let user2 = Rc::from(User::new(2, "User 2", None));
    let user3 = Rc::from(User::new(3, "User 3", None));

    let expense = Expense::new(
        1,
        "some expense",
        "Expenses",
        NaiveDate::from_ymd_opt(2020, 2, 27).unwrap(),
        user1.id,
        vec![user2.id, user3.id],
        Commodity::from_str("300.0 AUD").unwrap(),
        None,
    );

    let tab = Tab::new(test_tab_id(), "Test", aud.code, vec![user1.clone(), user2.clone(), user3.clone()], vec![expense]);

    let _settlements = tab.balance_transactions().unwrap();
}

#[test]
fn balance_without_expenses_has_no_settlements() {
    let user1 = Rc::from(User::new(1, "User 1", None));
    let tab = Tab::new(test_tab_id(), "Test", create_test_commodity(), vec![user1], vec![]);
    assert_eq!(0, tab.balance_transactions().unwrap().len());
}

#[test]
fn balance_fair_expense_has_no_settlements() {
    let usd = create_test_commodity();
    let user1 = Rc::from(User::new(1, "User 1", None));
    let expense = Expense::new(
        1,
        "alone",
        "Food",
        NaiveDate::from_ymd_opt(2020, 2, 27).unwrap(),
        1,
        vec![1],
        Commodity::from_str("10.0 USD").unwrap(),
        None,
    );
    let tab = Tab::new(test_tab_id(), "Test", usd, vec![user1], vec![expense]);
    assert_eq!(0, tab.balance_transactions().unwrap().len());
}

#[test]
fn balance_one_creditor_several_debtors_in_order() {
    let usd = create_test_commodity();
    let users: Vec<Rc<User>> = (1..=4).map(|i| Rc::from(User::new(i, &format!("User {}", i), None))).collect();
    let expenses = vec![
        Expense::new(1, "a", "Food", NaiveDate::from_ymd_opt(2020, 1, 1).unwrap(), 1, vec![2], Commodity::from_str("30 USD").unwrap(), None),
        Expense::new(2, "b", "Food", NaiveDate::from_ymd_opt(2020, 1, 1).unwrap(), 1, vec![3], Commodity::from_str("10 USD").unwrap(), None),
        Expense::new(3, "c", "Food", NaiveDate::from_ymd_opt(2020, 1, 1).unwrap(), 1, vec![4], Commodity::from_str("20 USD").unwrap(), None),
    ];
    let tab = Tab::new(test_tab_id(), "Test", usd, users, expenses);
    let settlements = tab.balance_transactions().unwrap();
    // the smallest debt is settled first
    assert_eq!(3, settlements.len());
    assert_eq!((3, 1), (settlements[0].sender, settlements[0].receiver));
    assert_eq!(Commodity::from_str("10 USD").unwrap(), settlements[0].amount);
    assert_eq!((4, 1), (settlements[1].sender, settlements[1].receiver));
    assert_eq!(Commodity::from_str("20 USD").unwrap(), settlements[1].amount);
    assert_eq!((2, 1), (settlements[2].sender, settlements[2].receiver));
    assert_eq!(Commodity::from_str("30 USD").unwrap(), settlements[2].amount);
}

#[test]
fn balance_one_debtor_pays_two_creditors() {
    let usd = create_test_commodity();
    let users: Vec<Rc<User>> = (1..=3).map(|i| Rc::from(User::new(i, &format!("User {}", i), None))).collect();
    let expenses = vec![
        Expense::new(1, "a", "Food", NaiveDate::from_ymd_opt(2020, 1, 1).unwrap(), 1, vec![3], Commodity::from_str("4 USD").unwrap(), None),
        Expense::new(2, "b", "Food", NaiveDate::from_ymd_opt(2020, 1, 1).unwrap(), 2, vec![3], Commodity::from_str("6 USD").unwrap(), None),
    ];
    let tab = Tab::new(test_tab_id(), "Test", usd, users, expenses);
    // no creditor is owed the whole debt of user 3, who pays both off, the
    // smaller claim first
    let settlements = tab.balance_transactions().unwrap();
    assert_eq!(2, settlements.len());
    assert_eq!((3, 1), (settlements[0].sender, settlements[0].receiver));
    assert_eq!(Commodity::from_str("4 USD").unwrap(), settlements[0].amount);
    assert_eq!((3, 2), (settlements[1].sender, settlements[1].receiver));
    assert_eq!(Commodity::from_str("6 USD").unwrap(), settlements[1].amount);
}

#[test]
fn balance_shares_that_do_not_divide_exactly() {
    let usd = create_test_commodity();
    let users: Vec<Rc<User>> = (1..=3).map(|i| Rc::from(User::new(i, &format!("User {}", i), None))).collect();
    let expenses = vec![Expense::new(
        1,
        "a",
        "Food",
        NaiveDate::from_ymd_opt(2020, 1, 1).unwrap(),
        1,
        vec![1, 2, 3],
        Commodity::from_str("100 USD").unwrap(),
        None,
    )];
    let tab = Tab::new(test_tab_id(), "Test", usd, users, expenses);
    let settlements = tab.balance_transactions().unwrap();
    assert_eq!(2, settlements.len());
    let share = Commodity::from_str("100 USD").unwrap().div_i64(3);
    let epsilon = Commodity::default_epsilon();
    for s in &settlements {
        assert_eq!(1, s.receiver);
        assert!(s.amount.eq_approx(share, epsilon));
    }
    // each debtor pays the share exactly; the payer is short by what the
    // divided shares miss of the amount
    let received: Decimal = settlements[0].amount.value;
    let total = received.checked_add(&settlements[1].amount.value).unwrap();
    let owed = Commodity::from_str("100 USD").unwrap().subtract(&share).unwrap();
    assert!(Commodity::new(total, usd).eq_approx(owed, epsilon));
}

#[test]
fn balance_fair_for_every_user() {
    let usd = create_test_commodity();
    let users: Vec<Rc<User>> = (1..=4).map(|i| Rc::from(User::new(i, &format!("User {}", i), None))).collect();
    let expenses = vec![
        Expense::new(1, "a", "Food", NaiveDate::from_ymd_opt(2020, 1, 1).unwrap(), 1, vec![1, 2, 3, 4], Commodity::from_str("40 USD").unwrap(), None),
        Expense::new(2, "b", "Rent", NaiveDate::from_ymd_opt(2020, 1, 1).unwrap(), 2, vec![2, 3], Commodity::from_str("30 USD").unwrap(), None),
        Expense::new(3, "c", "Food", NaiveDate::from_ymd_opt(2020, 1, 1).unwrap(), 4, vec![1, 4], Commodity::from_str("10 USD").unwrap(), None),
    ];
    let tab = Tab::new(test_tab_id(), "Test", usd, users, expenses);
    let settlements = tab.balance_transactions().unwrap();
    // paid minus shares: user 1: 40 - 10 - 5 = 25, user 2: 30 - 10 - 15 = 5,
    // user 3: -10 - 15 = -25, user 4: 10 - 10 - 5 = -5
    let expected: [(UserID, i64); 4] = [(1, 25), (2, 5), (3, -25), (4, -5)];
    for (user, balance) in expected.iter() {
        let mut net = Commodity::zero(usd);
        for s in &settlements {
            if s.receiver == *user {
                net = net.add(&s.amount).unwrap();
            }
            if s.sender == *user {
                net = net.subtract(&s.amount).unwrap();
            }
        }
        assert!(net.equals(&Commodity::new(Decimal::new(*balance, 0), usd)));
    }
    // at most one fewer settlement than users with a balance
    assert!(settlements.len() <= 3);
}

#[test]
fn balance_without_debts_has_no_settlements_even_with_expenses() {
    let usd = create_test_commodity();
    let users: Vec<Rc<User>> = (1..=2).map(|i| Rc::from(User::new(i, &format!("User {}", i), None))).collect();
    let expenses = vec![
        Expense::new(1, "a", "Food", NaiveDate::from_ymd_opt(2020, 1, 1).unwrap(), 1, vec![1, 2], Commodity::from_str("10 USD").unwrap(), None),
        Expense::new(2, "b", "Food", NaiveDate::from_ymd_opt(2020, 1, 1).unwrap(), 2, vec![1, 2], Commodity::from_str("10 USD").unwrap(), None),
    ];
    let tab = Tab::new(test_tab_id(), "Test", usd, users, expenses);
    assert!(tab.balance_transactions().unwrap().is_empty());
}

#[test]
fn balance_errors() {
    let usd = create_test_commodity();
    let user1 = Rc::from(User::new(1, "User 1", None));

    // paid by a user who is not on the tab
    let expense = Expense::new(1, "a", "Food", NaiveDate::from_ymd_opt(2020, 1, 1).unwrap(), 7, vec![1], Commodity::from_str("4 USD").unwrap(), None);
    let tab = Tab::new(test_tab_id(), "Test", usd, vec![user1.clone()], vec![expense]);
    match tab.balance_transactions() {
        Err(CostingError::UserAccountDoesNotExistOnTab(7, id)) => assert_eq!(test_tab_id(), id),
        other => panic!("unexpected {:?}", other),
    }

    // an expense added later has no category account
    let mut tab = Tab::new(test_tab_id(), "Test", usd, vec![user1.clone()], vec![]);
    let expense = Expense::new(1, "a", "Travel", NaiveDate::from_ymd_opt(2020, 1, 1).unwrap(), 1, vec![1], Commodity::from_str("4 USD").unwrap(), None);
    AddExpense::new(1, expense).perform(&mut tab).unwrap();
    match tab.balance_transactions() {
        Err(CostingError::NoExpenseCategoryAccountOnTab(category, _)) => assert_eq!("Travel", category),
        other => panic!("unexpected {:?}", other),
    }

    // an expense in another currency than the tab's
    let expense = Expense::new(1, "a", "Food", NaiveDate::from_ymd_opt(2020, 1, 1).unwrap(), 1, vec![1], Commodity::from_str("4 AUD").unwrap(), None);
    let tab = Tab::new(test_tab_id(), "Test", usd, vec![user1.clone()], vec![expense]);
    assert!(matches!(tab.balance_transactions(), Err(CostingError::Accounting(_))));

    // nobody shares the expense: the share is not defined
    let expense = Expense::new(1, "a", "Food", NaiveDate::from_ymd_opt(2020, 1, 1).unwrap(), 1, vec![], Commodity::from_str("4 USD").unwrap(), None);
    let tab = Tab::new(test_tab_id(), "Test", usd, vec![user1], vec![expense]);
    assert!(tab.try_balance_transactions().is_none());
}

#[test]
fn tab_accounts() {
    let usd = create_test_commodity();
    let user1 = Rc::from(User::new(12, "Anne", None));
    let expense = Expense::new(1, "a", "Food", NaiveDate::from_ymd_opt(2020, 1, 1).unwrap(), 12, vec![12], Commodity::from_str("4 USD").unwrap(), None);
    let tab = Tab::new(test_tab_id(), "Test", usd, vec![user1], vec![expense]);
    let account = tab.get_user_account(&12).unwrap();
    assert_eq!(Some("User-12-Anne".to_string()), account.name);
    assert_eq!(20, account.id.chars().count());
    let food = tab.get_expense_category_account(&"Food".to_string()).unwrap();
    assert_eq!(Some("Food".to_string()), food.name);
    assert_ne!(account.id, food.id);
    assert!(matches!(tab.get_user_account(&13), Err(CostingError::UserAccountDoesNotExistOnTab(13, _))));
    assert!(matches!(tab.get_expense_category_account(&"Rent".to_string()), Err(CostingError::NoExpenseCategoryAccountOnTab(_, _))));
    assert_eq!("Anne", tab.user(&12).unwrap().name);
    assert!(matches!(tab.user(&13), Err(CostingError::UserDoesNotExistOnTab(13, _))));
}

#[test]
fn tab_user_errors() {
    let mut tab = create_test_tab();
    tab.add_user(User::new(1, "A", None)).unwrap();
    assert!(matches!(tab.add_user(User::new(1, "B", None)), Err(CostingError::UserAlreadyExistsOnTab(1, _))));
    assert_eq!(1, tab.users().len());
    assert!(matches!(tab.remove_user(&2), Err(CostingError::UserDoesNotExistOnTab(2, _))));
    tab.remove_user(&1).unwrap();
    assert!(tab.get_user_account(&1).is_err());
}

#[test]
fn expense_action_errors() {
    let mut tab = create_test_tab();
    let expense = create_test_expense(5, "Test".to_string(), 0, vec![0]);
    AddExpense::new(0, expense.clone()).perform(&mut tab).unwrap();
    assert!(matches!(AddExpense::new(0, expense).perform(&mut tab), Err(CostingError::ExpenseAlreadyExistsOnTab(5, _))));
    assert!(matches!(RemoveExpense::new(0, 6).perform(&mut tab), Err(CostingError::ExpenseDoesNotExistOnTab(6, _))));
    assert_eq!(1, tab.expenses.len());
}

#[test]
fn expense_transactions() {
    let usd = create_test_commodity();
    let users: Vec<Rc<User>> = (1..=3).map(|i| Rc::from(User::new(i, &format!("User {}", i), None))).collect();
    let expense = Expense::new(1, "Dinner", "Food", NaiveDate::from_ymd_opt(2020, 1, 1).unwrap(), 1, vec![2, 3], Commodity::from_str("300.0 USD").unwrap(), None);
    let tab = Tab::new(test_tab_id(), "Test", usd, users, vec![expense.clone()]);

    let actual = expense.get_actual_transaction(&tab).unwrap();
    assert_eq!(2, actual.elements.len());
    assert_eq!(Some(Commodity::from_str("-300.0 USD").unwrap()), actual.elements[0].amount);
    assert_eq!(None, actual.elements[1].amount);

    let shared = expense.get_shared_transaction(&tab).unwrap();
    assert_eq!(3, shared.elements.len());
    assert_eq!(Some(Commodity::from_str("-150.0 USD").unwrap()), shared.elements[0].amount);
    assert_eq!(Some(Commodity::from_str("-150.0 USD").unwrap()), shared.elements[1].amount);
    assert_eq!(None, shared.elements[2].amount);
    assert!(shared.get_element(&tab.get_user_account(&1).unwrap()).is_none());
}

#[test]
fn removing_an_added_user_restores_users_and_accounts() {
    let mut tab = create_test_tab();
    tab.add_user((*create_test_user(0, "User 0")).clone()).unwrap();
    tab.add_user((*create_test_user(1, "User 1")).clone()).unwrap();
    let users_before: Vec<UserID> = tab.users().iter().map(|u| u.id).collect();
    let accounts_before: Vec<String> = tab.user_accounts.iter().map(|(_, a)| a.id.clone()).collect();

    tab.add_user((*create_test_user(2, "User 2")).clone()).unwrap();
    assert_eq!(3, tab.users().len());
    tab.remove_user(&2).unwrap();

    let users_after: Vec<UserID> = tab.users().iter().map(|u| u.id).collect();
    let accounts_after: Vec<String> = tab.user_accounts.iter().map(|(_, a)| a.id.clone()).collect();
    assert_eq!(users_before, users_after);
    assert_eq!(accounts_before, accounts_after);
}

#[test]
fn removing_an_added_expense_restores_expenses() {
    let mut tab = create_test_tab();
    let user0 = create_test_user(0, "User 0");
    tab.add_user((*user0).clone()).unwrap();
    AddExpense::new(0, create_test_expense(0, "Food".to_string(), 0, vec![0])).perform(&mut tab).unwrap();
    let before: Vec<ExpenseID> = tab.expenses.iter().map(|e| e.id).collect();

    AddExpense::new(0, create_test_expense(7, "Rent".to_string(), 0, vec![0])).perform(&mut tab).unwrap();
    assert_eq!(2, tab.expenses.len());
    RemoveExpense::new(0, 7).perform(&mut tab).unwrap();

    let after: Vec<ExpenseID> = tab.expenses.iter().map(|e| e.id).collect();
    assert_eq!(before, after);
}
