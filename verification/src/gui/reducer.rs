//! The state of the web interface, the actions that change it, and the
//! reducer that computes, for a state and an action, the next state, the
//! events to notify, and the database work to do.

use vstd::prelude::*;
use std::rc::Rc;
use crate::costing::tab::{Tab, TabID};
use crate::currency::Currency;
use crate::gui::state::{AppRoute, CosterEvent, CosterReducer, RouteType};
use crate::gui::store::{Reducer, ReducerResult};

verus! {

/// The language the user selected (by its language tag), and whether to
/// keep it in the database.
#[derive(Debug)]
pub struct ChangeSelectedLanguage {
    pub selected_language: Option<String>,
    pub write_to_database: bool,
}

/// The currency the user selected last, and whether to keep it in the
/// database.
#[derive(Debug)]
pub struct ChangeLastSelectedCurrency {
    pub last_selected_currency: Option<Currency>,
    pub write_to_database: bool,
}

/// A change of route.
#[derive(Debug)]
pub enum RouteChange {
    /// The application changes to this route.
    ChangeRoute(RouteType),
    /// The browser changed to this route.
    BrowserChangeRoute(RouteType),
    /// Read the route of the browser.
    PollBrowserRoute,
}

/// The actions of the application's store.
#[derive(Debug)]
pub enum CosterAction {
    ChangeSelectedLanguage(ChangeSelectedLanguage),
    RouteAction(RouteChange),
    LoadDatabase,
    ChangeLastSelectedCurrency(ChangeLastSelectedCurrency),
    CreateTab { tab: Rc<Tab>, write_to_database: bool },
    LoadTabs { tabs: Vec<Rc<Tab>>, write_to_database: bool },
}

/// The database work that an action asks for, run after the state changed.
#[derive(Debug)]
pub enum CosterEffect {
    /// Write the selected language under `selected_language`.
    WriteSelectedLanguage(Option<String>),
    /// Write the last selected currency under `last_selected_currency`.
    WriteLastSelectedCurrency(Option<Currency>),
    /// Write the ids of the tabs, and the new tab.
    WriteNewTab(Rc<Tab>),
    /// Read the language, the currency and the tabs kept in the database,
    /// and dispatch them.
    LoadDatabase,
    /// Write all the tabs.
    WriteAllTabs(Vec<Rc<Tab>>),
}

/// The state of the application.
#[derive(Debug)]
pub struct CosterState {
    pub selected_language: Option<String>,
    pub route: RouteType,
    pub last_selected_currency: Option<Currency>,
    pub tabs: Vec<Rc<Tab>>,
}

/// A copy of the language tag.
fn copy_language(l: &Option<String>) -> (r: Option<String>)
    ensures
        r == *l,
{
    match l {
        Some(s) => Some(s.clone()),
        None => None,
    }
}

/// A copy of the currency.
pub(crate) fn copy_currency(c: &Option<Currency>) -> (r: Option<Currency>)
    ensures
        r == *c,
{
    match c {
        Some(currency) => {
            let name = match &currency.name {
                Some(n) => Some(n.clone()),
                None => None,
            };
            Some(Currency { code: currency.code, name })
        },
        None => None,
    }
}

/// A copy of the route.
fn copy_route(r: &RouteType) -> (c: RouteType)
    ensures
        c == *r,
{
    match r {
        RouteType::Valid(app_route) => RouteType::Valid(*app_route),
        RouteType::Invalid(path) => RouteType::Invalid(path.clone()),
    }
}

/// A copy of the tabs (the same tabs, shared).
fn copy_tabs(tabs: &Vec<Rc<Tab>>) -> (r: Vec<Rc<Tab>>)
    ensures
        r@ == tabs@,
{
    let mut r: Vec<Rc<Tab>> = Vec::new();
    let mut i: usize = 0;
    while i < tabs.len()
        invariant
            i <= tabs.len(),
            r@ == tabs@.take(i as int),
        decreases tabs.len() - i,
    {
        r.push(tabs[i].clone());
        i = i + 1;
        proof {
            assert(r@ =~= tabs@.take(i as int));
        }
    }
    proof {
        assert(r@ =~= tabs@);
    }
    r
}

impl Default for CosterState {
    fn default() -> (s: Self)
        ensures
            s.selected_language is None,
            s.route == RouteType::Valid(AppRoute::Index),
            s.last_selected_currency is None,
            s.tabs@.len() == 0,
    {
        CosterState { selected_language: None, route: RouteType::Valid(AppRoute::Index), last_selected_currency: None, tabs: Vec::new() }
    }
}

impl CosterState {
    /// This state with another route.
    pub fn change_route(&self, route: RouteType) -> (s: Self)
        ensures
            s.selected_language == self.selected_language,
            s.route == route,
            s.last_selected_currency == self.last_selected_currency,
            s.tabs@ == self.tabs@,
    {
        CosterState {
            selected_language: copy_language(&self.selected_language),
            route,
            last_selected_currency: copy_currency(&self.last_selected_currency),
            tabs: copy_tabs(&self.tabs),
        }
    }

    /// This state with another selected language.
    pub fn change_selected_language(&self, selected_language: Option<String>) -> (s: Self)
        ensures
            s.selected_language == selected_language,
            s.route == self.route,
            s.last_selected_currency == self.last_selected_currency,
            s.tabs@ == self.tabs@,
    {
        CosterState {
            selected_language,
            route: copy_route(&self.route),
            last_selected_currency: copy_currency(&self.last_selected_currency),
            tabs: copy_tabs(&self.tabs),
        }
    }

    /// This state with another last selected currency.
    pub fn change_last_selected_currency(&self, last_selected_currency: Option<Currency>) -> (s: Self)
        ensures
            s.selected_language == self.selected_language,
            s.route == self.route,
            s.last_selected_currency == last_selected_currency,
            s.tabs@ == self.tabs@,
    {
        CosterState {
            selected_language: copy_language(&self.selected_language),
            route: copy_route(&self.route),
            last_selected_currency,
            tabs: copy_tabs(&self.tabs),
        }
    }

    /// This state with other tabs.
    pub fn change_tabs(&self, tabs: Vec<Rc<Tab>>) -> (s: Self)
        ensures
            s.selected_language == self.selected_language,
            s.route == self.route,
            s.last_selected_currency == self.last_selected_currency,
            s.tabs@ == tabs@,
    {
        CosterState {
            selected_language: copy_language(&self.selected_language),
            route: copy_route(&self.route),
            last_selected_currency: copy_currency(&self.last_selected_currency),
            tabs,
        }
    }

    /// The ids of the tabs, in order.
    pub fn tab_ids(&self) -> (ids: Vec<TabID>)
        ensures
            ids@ == self.tabs@.map_values(|t: Rc<Tab>| t.id),
    {
        let mut ids: Vec<TabID> = Vec::new();
        let mut i: usize = 0;
        while i < self.tabs.len()
            invariant
                i <= self.tabs.len(),
                ids@ == self.tabs@.take(i as int).map_values(|t: Rc<Tab>| t.id),
            decreases self.tabs.len() - i,
        {
            ids.push(self.tabs[i].id);
            i = i + 1;
            proof {
                assert(ids@ =~= self.tabs@.take(i as int).map_values(|t: Rc<Tab>| t.id));
            }
        }
        proof {
            assert(self.tabs@.take(i as int) =~= self.tabs@);
        }
        ids
    }
}

impl CosterState {
    /// The current route.
    pub fn get_route(&self) -> (r: &RouteType)
        ensures
            *r == self.route,
    {
        &self.route
    }

    /// The language the user selected, if any.
    pub fn get_selected_language(&self) -> (r: &Option<String>)
        ensures
            *r == self.selected_language,
    {
        &self.selected_language
    }
}

/// What the route middleware does with an action before the reducer: set
/// the browser's route, or read it, or nothing.
#[derive(Debug)]
pub enum RouteStep {
    /// Set the browser's route to this one (without being notified of the
    /// change), then reduce the action.
    SetRouteThenReduce(RouteType),
    /// Read the browser's route, and reduce `BrowserChangeRoute` of it in
    /// place of the action.
    ReduceBrowserRoute,
    /// Reduce the action.
    Reduce,
}

impl CosterAction {
    /// Select this language.
    pub fn change_selected_language(action: ChangeSelectedLanguage) -> (a: CosterAction)
        ensures
            a == CosterAction::ChangeSelectedLanguage(action),
    {
        CosterAction::ChangeSelectedLanguage(action)
    }

    /// The language selection of this action, if it is one.
    pub fn get_change_selected_language(&self) -> (r: Option<&ChangeSelectedLanguage>)
        ensures
            *self matches CosterAction::ChangeSelectedLanguage(a) ==> r == Some(&a),
            !(*self is ChangeSelectedLanguage) ==> r is None,
    {
        match self {
            CosterAction::ChangeSelectedLanguage(action) => Some(action),
            _ => None,
        }
    }

    /// The change of route of this action, if it is one.
    pub fn route_action(&self) -> (r: Option<&RouteChange>)
        ensures
            *self matches CosterAction::RouteAction(a) ==> r == Some(&a),
            !(*self is RouteAction) ==> r is None,
    {
        match self {
            CosterAction::RouteAction(route_action) => Some(route_action),
            _ => None,
        }
    }

    /// Change to this route.
    pub fn change_route(route: RouteType) -> (a: CosterAction)
        ensures
            a == CosterAction::RouteAction(RouteChange::ChangeRoute(route)),
    {
        CosterAction::RouteAction(RouteChange::ChangeRoute(route))
    }

    /// The browser changed to this route.
    pub fn browser_change_route(route: RouteType) -> (a: CosterAction)
        ensures
            a == CosterAction::RouteAction(RouteChange::BrowserChangeRoute(route)),
    {
        CosterAction::RouteAction(RouteChange::BrowserChangeRoute(route))
    }

    /// Read the route of the browser.
    pub fn poll_browser_route() -> (a: CosterAction)
        ensures
            a == CosterAction::RouteAction(RouteChange::PollBrowserRoute),
    {
        CosterAction::RouteAction(RouteChange::PollBrowserRoute)
    }

    /// The route this action changes to, if it does.
    pub fn get_change_route(&self) -> (r: Option<&RouteType>)
        ensures
            *self matches CosterAction::RouteAction(RouteChange::ChangeRoute(route)) ==> r == Some(&route),
            !(*self matches CosterAction::RouteAction(RouteChange::ChangeRoute(_))) ==> r is None,
    {
        match self {
            CosterAction::RouteAction(RouteChange::ChangeRoute(route)) => Some(route),
            _ => None,
        }
    }

    /// The route the browser changed to, if this action says so.
    pub fn get_browser_change_route(&self) -> (r: Option<&RouteType>)
        ensures
            *self matches CosterAction::RouteAction(RouteChange::BrowserChangeRoute(route)) ==> r == Some(&route),
            !(*self matches CosterAction::RouteAction(RouteChange::BrowserChangeRoute(_))) ==> r is None,
    {
        match self {
            CosterAction::RouteAction(RouteChange::BrowserChangeRoute(route)) => Some(route),
            _ => None,
        }
    }

    /// What the route middleware does before reducing this action: a
    /// change of route sets the browser's route first; polling the browser
    /// reads its route and reduces the browser's change to it instead; any
    /// other action is reduced as it is.
    pub fn route_step(&self) -> (s: RouteStep)
        ensures
            *self matches CosterAction::RouteAction(RouteChange::ChangeRoute(route)) ==> s == RouteStep::SetRouteThenReduce(route),
            *self matches CosterAction::RouteAction(RouteChange::PollBrowserRoute) ==> s is ReduceBrowserRoute,
            !(*self matches CosterAction::RouteAction(RouteChange::ChangeRoute(_)))
                && !(*self matches CosterAction::RouteAction(RouteChange::PollBrowserRoute)) ==> s is Reduce,
    {
        match self.get_change_route() {
            Some(route) => RouteStep::SetRouteThenReduce(copy_route(route)),
            None => match self {
                CosterAction::RouteAction(RouteChange::PollBrowserRoute) => RouteStep::ReduceBrowserRoute,
                _ => RouteStep::Reduce,
            },
        }
    }
}

/// The states hold the same language, route, currency and tabs.
pub open spec fn same_state(a: CosterState, b: CosterState) -> bool {
    &&& a.selected_language == b.selected_language
    &&& a.route == b.route
    &&& a.last_selected_currency == b.last_selected_currency
    &&& a.tabs@ == b.tabs@
}

/// What the reducer does with an action: the next state (as a relation to
/// the previous one), the events and the effects.
pub open spec fn reduced(prev: CosterState, action: CosterAction, r: ReducerResult<CosterState, CosterEvent, CosterEffect>) -> bool {
    let next = *r.state;
    match action {
        CosterAction::ChangeSelectedLanguage(a) => {
            &&& same_state(next, CosterState { selected_language: a.selected_language, ..prev })
            &&& r.events@ == seq![CosterEvent::LanguageChanged]
            &&& r.effects@ == (if a.write_to_database { seq![CosterEffect::WriteSelectedLanguage(a.selected_language)] } else { Seq::empty() })
        },
        CosterAction::RouteAction(RouteChange::ChangeRoute(route)) | CosterAction::RouteAction(RouteChange::BrowserChangeRoute(route)) => {
            &&& same_state(next, CosterState { route, ..prev })
            &&& r.events@ == seq![CosterEvent::RouteChanged]
            &&& r.effects@.len() == 0
        },
        CosterAction::RouteAction(RouteChange::PollBrowserRoute) => {
            &&& next == prev
            &&& r.events@.len() == 0
            &&& r.effects@.len() == 0
        },
        CosterAction::ChangeLastSelectedCurrency(a) => {
            &&& same_state(next, CosterState { last_selected_currency: a.last_selected_currency, ..prev })
            &&& r.events@ == seq![CosterEvent::LastSelectedCurrencyChanged]
            &&& r.effects@ == (if a.write_to_database { seq![CosterEffect::WriteLastSelectedCurrency(a.last_selected_currency)] } else { Seq::empty() })
        },
        CosterAction::CreateTab { tab, write_to_database } => {
            &&& next.selected_language == prev.selected_language
            &&& next.route == prev.route
            &&& next.last_selected_currency == prev.last_selected_currency
            &&& next.tabs@ == prev.tabs@.push(tab)
            &&& r.events@ == seq![CosterEvent::TabsChanged]
            &&& r.effects@ == (if write_to_database { seq![CosterEffect::WriteNewTab(tab)] } else { Seq::empty() })
        },
        CosterAction::LoadDatabase => {
            &&& next == prev
            &&& r.events@.len() == 0
            &&& r.effects@ == seq![CosterEffect::LoadDatabase]
        },
        CosterAction::LoadTabs { tabs, write_to_database } => {
            &&& next.selected_language == prev.selected_language
            &&& next.route == prev.route
            &&& next.last_selected_currency == prev.last_selected_currency
            &&& next.tabs@ == tabs@
            &&& r.events@ == seq![CosterEvent::TabsChanged]
            &&& (if write_to_database { r.effects@.len() == 1 && (r.effects@[0] matches CosterEffect::WriteAllTabs(written) && written@ == tabs@) } else { r.effects@.len() == 0 })
        },
    }
}

impl Reducer<CosterState, CosterAction, CosterEvent, CosterEffect> for CosterReducer {
    /// See `reduced`.
    open spec fn reduces(&self, prev_state: Rc<CosterState>, action: CosterAction, result: ReducerResult<CosterState, CosterEvent, CosterEffect>) -> bool {
        reduced(*prev_state, action, result)
    }

    /// The next state for the action, the events it causes, and the
    /// database work it asks for.
    fn reduce(&self, prev_state: &Rc<CosterState>, action: &CosterAction) -> (r: ReducerResult<CosterState, CosterEvent, CosterEffect>) {
        let mut events: Vec<CosterEvent> = Vec::new();
        let mut effects: Vec<CosterEffect> = Vec::new();
        let state = match action {
            CosterAction::ChangeSelectedLanguage(a) => {
                events.push(CosterEvent::LanguageChanged);
                if a.write_to_database {
                    effects.push(CosterEffect::WriteSelectedLanguage(copy_language(&a.selected_language)));
                }
                Rc::new(prev_state.change_selected_language(copy_language(&a.selected_language)))
            },
            CosterAction::RouteAction(route_action) => match route_action {
                RouteChange::ChangeRoute(route) => {
                    events.push(CosterEvent::RouteChanged);
                    Rc::new(prev_state.change_route(copy_route(route)))
                },
                RouteChange::BrowserChangeRoute(route) => {
                    events.push(CosterEvent::RouteChanged);
                    Rc::new(prev_state.change_route(copy_route(route)))
                },
                RouteChange::PollBrowserRoute => prev_state.clone(),
            },
            CosterAction::ChangeLastSelectedCurrency(a) => {
                if a.write_to_database {
                    effects.push(CosterEffect::WriteLastSelectedCurrency(copy_currency(&a.last_selected_currency)));
                }
                events.push(CosterEvent::LastSelectedCurrencyChanged);
                Rc::new(prev_state.change_last_selected_currency(copy_currency(&a.last_selected_currency)))
            },
            CosterAction::CreateTab { tab, write_to_database } => {
                let mut tabs = copy_tabs(&prev_state.tabs);
                tabs.push(tab.clone());
                events.push(CosterEvent::TabsChanged);
                if *write_to_database {
                    effects.push(CosterEffect::WriteNewTab(tab.clone()));
                }
                Rc::new(prev_state.change_tabs(tabs))
            },
            CosterAction::LoadDatabase => {
                effects.push(CosterEffect::LoadDatabase);
                prev_state.clone()
            },
            CosterAction::LoadTabs { tabs, write_to_database } => {
                if *write_to_database {
                    effects.push(CosterEffect::WriteAllTabs(copy_tabs(tabs)));
                }
                events.push(CosterEvent::TabsChanged);
                Rc::new(prev_state.change_tabs(copy_tabs(tabs)))
            },
        };
        ReducerResult { state, events, effects }
    }
}

} // verus!
