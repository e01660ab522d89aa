use coster::costing::Tab;
use coster::currency::Currency;
use coster::gui::reducer::{
    ChangeLastSelectedCurrency, ChangeSelectedLanguage, CosterAction, CosterEffect, CosterState, RouteChange, RouteStep,
};
use coster::gui::state::{AppRoute, CosterEvent, CosterReducer, RouteType};
use coster::gui::store::Reducer;
use std::rc::Rc;
use uuid::Uuid;

fn test_tab(name: &str) -> Rc<Tab> {
    let code = Currency::from_alpha3("AUD").unwrap().code;
    Rc::new(Tab::new(Uuid::new_v4(), name, code, vec![], vec![]))
}

#[test]
fn reducer_default_state() {
    let state = CosterState::default();
    assert_eq!(None, state.selected_language);
    assert_eq!(RouteType::Valid(AppRoute::Index), state.route);
    assert!(state.last_selected_currency.is_none());
    assert_eq!(0, state.tabs.len());
}

#[test]
fn reducer_change_language() {
    let prev = Rc::new(CosterState::default());
    let action = CosterAction::ChangeSelectedLanguage(ChangeSelectedLanguage {
        selected_language: Some("de".to_string()),
        write_to_database: true,
    });
    let result = CosterReducer.reduce(&prev, &action);
    assert_eq!(Some("de".to_string()), result.state.selected_language);
    assert_eq!(RouteType::Valid(AppRoute::Index), result.state.route);
    assert_eq!(vec![CosterEvent::LanguageChanged], result.events);
    assert_eq!(1, result.effects.len());
    assert!(matches!(&result.effects[0], CosterEffect::WriteSelectedLanguage(Some(l)) if l == "de"));

    let quiet = CosterAction::ChangeSelectedLanguage(ChangeSelectedLanguage {
        selected_language: None,
        write_to_database: false,
    });
    let result = CosterReducer.reduce(&result.state, &quiet);
    assert_eq!(None, result.state.selected_language);
    assert_eq!(0, result.effects.len());
}

#[test]
fn reducer_routes() {
    let prev = Rc::new(CosterState::default());
    let action = CosterAction::RouteAction(RouteChange::ChangeRoute(RouteType::Valid(AppRoute::Help)));
    let result = CosterReducer.reduce(&prev, &action);
    assert_eq!(RouteType::Valid(AppRoute::Help), result.state.route);
    assert_eq!(vec![CosterEvent::RouteChanged], result.events);
    assert!(result.effects.is_empty());

    let browser = CosterAction::RouteAction(RouteChange::BrowserChangeRoute(RouteType::Invalid("/nowhere".to_string())));
    let result = CosterReducer.reduce(&result.state, &browser);
    assert_eq!(RouteType::Invalid("/nowhere".to_string()), result.state.route);

    let poll = CosterAction::RouteAction(RouteChange::PollBrowserRoute);
    let polled = CosterReducer.reduce(&result.state, &poll);
    assert!(Rc::ptr_eq(&result.state, &polled.state));
    assert!(polled.events.is_empty());
    assert!(polled.effects.is_empty());
}

#[test]
fn reducer_currency_and_database() {
    let prev = Rc::new(CosterState::default());
    let currency = Currency::from_alpha3("EUR").unwrap();
    let action = CosterAction::ChangeLastSelectedCurrency(ChangeLastSelectedCurrency {
        last_selected_currency: Some(currency),
        write_to_database: true,
    });
    let result = CosterReducer.reduce(&prev, &action);
    assert_eq!("EUR", result.state.last_selected_currency.as_ref().unwrap().code.to_display_string());
    assert_eq!(vec![CosterEvent::LastSelectedCurrencyChanged], result.events);
    assert!(matches!(&result.effects[0], CosterEffect::WriteLastSelectedCurrency(Some(_))));

    let load = CosterReducer.reduce(&result.state, &CosterAction::LoadDatabase);
    assert!(Rc::ptr_eq(&result.state, &load.state));
    assert!(load.events.is_empty());
    assert!(matches!(&load.effects[..], [CosterEffect::LoadDatabase]));
}

#[test]
fn reducer_tabs() {
    let prev = Rc::new(CosterState::default());
    let first = test_tab("First");
    let action = CosterAction::CreateTab { tab: first.clone(), write_to_database: true };
    let result = CosterReducer.reduce(&prev, &action);
    assert_eq!(1, result.state.tabs.len());
    assert_eq!(vec![first.id], result.state.tab_ids());
    assert_eq!(vec![CosterEvent::TabsChanged], result.events);
    assert!(matches!(&result.effects[0], CosterEffect::WriteNewTab(t) if Rc::ptr_eq(t, &first)));

    let second = test_tab("Second");
    let third = test_tab("Third");
    let load = CosterAction::LoadTabs { tabs: vec![second.clone(), third.clone()], write_to_database: true };
    let loaded = CosterReducer.reduce(&result.state, &load);
    assert_eq!(vec![second.id, third.id], loaded.state.tab_ids());
    assert_eq!(vec![CosterEvent::TabsChanged], loaded.events);
    match &loaded.effects[..] {
        [CosterEffect::WriteAllTabs(written)] => assert_eq!(2, written.len()),
        _ => panic!("expected one write of all tabs"),
    }

    let quiet = CosterAction::LoadTabs { tabs: vec![], write_to_database: false };
    let emptied = CosterReducer.reduce(&loaded.state, &quiet);
    assert!(emptied.state.tabs.is_empty());
    assert!(emptied.effects.is_empty());
}

#[test]
fn route_actions_and_steps() {
    let help = RouteType::Valid(AppRoute::Help);
    let change = CosterAction::change_route(help.clone());
    assert_eq!(Some(&help), change.get_change_route());
    assert_eq!(None, change.get_browser_change_route());
    assert!(matches!(change.route_action(), Some(RouteChange::ChangeRoute(_))));
    assert!(matches!(change.route_step(), RouteStep::SetRouteThenReduce(RouteType::Valid(AppRoute::Help))));

    let browser = CosterAction::browser_change_route(RouteType::Invalid("/x".to_string()));
    assert_eq!(None, browser.get_change_route());
    assert_eq!(Some(&RouteType::Invalid("/x".to_string())), browser.get_browser_change_route());
    assert!(matches!(browser.route_step(), RouteStep::Reduce));

    assert!(matches!(CosterAction::poll_browser_route().route_step(), RouteStep::ReduceBrowserRoute));
    assert!(matches!(CosterAction::LoadDatabase.route_step(), RouteStep::Reduce));
    assert!(CosterAction::LoadDatabase.route_action().is_none());

    let language = CosterAction::change_selected_language(ChangeSelectedLanguage {
        selected_language: Some("en-US".to_string()),
        write_to_database: false,
    });
    assert_eq!(Some("en-US".to_string()), language.get_change_selected_language().unwrap().selected_language);
    assert!(CosterAction::LoadDatabase.get_change_selected_language().is_none());

    let state = CosterState::default();
    assert_eq!(&RouteType::Valid(AppRoute::Index), state.get_route());
    assert_eq!(&None, state.get_selected_language());
}
