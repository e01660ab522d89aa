use coster::currency::{Currency, CurrencyCode};
use coster::gui::new_tab::{FormData, FormFields, NewTabCommand, NewTabForm, NewTabMsg};
use coster::gui::reducer::CosterAction;
use coster::gui::state::AppRoute;
use coster::gui::validation::{Validatable, ValidationMessage};
use coster::text::trim;

fn aud() -> Currency {
    Currency::new(CurrencyCode::from_str("AUD").unwrap(), None)
}

#[test]
fn trim_removes_surrounding_white_space() {
    assert_eq!("hello world", trim("  hello world \t\n"));
    assert_eq!("", trim(" \u{3000}\u{a0} "));
    assert_eq!("a", trim("a"));
}

#[test]
fn empty_form_has_both_errors() {
    let data = FormData::default();
    let errors = data.validate().unwrap_err();
    assert_eq!(2, errors.errors.len());
    assert_eq!(FormFields::Name, errors.errors[0].key);
    assert_eq!(ValidationMessage::Text("Name cannot be empty".to_string()), errors.errors[0].message);
    assert_eq!(FormFields::WorkingCurrency, errors.errors[1].key);
    assert_eq!(ValidationMessage::Text("Please select a working currency".to_string()), errors.errors[1].message);
}

#[test]
fn white_space_name_is_empty() {
    let data = FormData { name: "   ".to_string(), working_currency: Some(aud()) };
    let errors = data.validate().unwrap_err();
    assert_eq!(1, errors.errors.len());
    assert_eq!(FormFields::Name, errors.errors[0].key);
}

#[test]
fn create_tab_from_valid_form() {
    let data = FormData { name: "Trip".to_string(), working_currency: Some(aud()) };
    assert!(data.validate().is_ok());
    let tab = data.create_tab().unwrap();
    assert_eq!("Trip", tab.name);
    assert_eq!(CurrencyCode::from_str("AUD").unwrap(), tab.working_currency);
    assert!(tab.users.is_empty());
    assert!(tab.expenses.is_empty());
}

#[test]
fn update_name_is_trimmed() {
    let mut form = NewTabForm::new(None);
    let (render, commands) = form.update(NewTabMsg::UpdateName("  Holiday  ".to_string()));
    assert!(render);
    assert!(commands.is_empty());
    assert_eq!("Holiday", form.form_data.name);
    assert!(form.form_is_valid);
}

#[test]
fn create_on_invalid_form_only_validates() {
    let mut form = NewTabForm::new(Some(aud()));
    let (render, commands) = form.update(NewTabMsg::Create);
    assert!(render);
    assert_eq!(1, commands.len());
    assert!(matches!(commands[0], NewTabCommand::ValidateAllFields));
    assert!(!form.form_is_valid);
}

#[test]
fn create_on_valid_form_creates_the_tab() {
    let mut form = NewTabForm::new(None);
    form.update(NewTabMsg::UpdateName("Holiday".to_string()));
    form.update(NewTabMsg::UpdateWorkingCurrency(aud()));
    let (render, commands) = form.update(NewTabMsg::Create);
    assert!(render);
    assert!(form.form_is_valid);
    assert_eq!(4, commands.len());
    assert!(matches!(commands[0], NewTabCommand::ValidateAllFields));
    match &commands[1] {
        NewTabCommand::Dispatch(CosterAction::ChangeLastSelectedCurrency(change)) => {
            assert!(change.write_to_database);
            assert_eq!(CurrencyCode::from_str("AUD").unwrap(), change.last_selected_currency.as_ref().unwrap().code);
        },
        _ => panic!("expected a change of the last selected currency"),
    }
    match &commands[2] {
        NewTabCommand::Dispatch(CosterAction::CreateTab { tab, write_to_database }) => {
            assert!(*write_to_database);
            assert_eq!("Holiday", tab.name);
        },
        _ => panic!("expected a new tab"),
    }
    assert!(matches!(commands[3], NewTabCommand::ChangeRoute(AppRoute::Index)));
}

#[test]
fn cancel_goes_to_the_index() {
    let mut form = NewTabForm::new(None);
    let (render, commands) = form.update(NewTabMsg::Cancel);
    assert!(render);
    assert_eq!(1, commands.len());
    assert!(matches!(commands[0], NewTabCommand::ChangeRoute(AppRoute::Index)));
}
