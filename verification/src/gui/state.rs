//! The state of the web interface: its routes, its events, where it keeps
//! data, and the traits of its middleware.

use vstd::prelude::*;
use crate::costing::db::KeyValueDBStore;
use crate::gui::store::StoreEvent;

verus! {

/// A route that the router switches between.
pub trait SwitchRoute: Clone + PartialEq {
    /// The route matched nothing known.
    fn is_invalid(&self) -> bool;

    /// The path of the route.
    fn path(&self) -> String;

    /// The route of a path.
    fn switch(route: &str) -> Self;
}

/// The pages of the application.
#[derive(Clone, Copy, Debug, Hash, PartialEq, Eq, Structural)]
pub enum AppRoute {
    /// The `/tab` route.
    CostingTab,
    /// The `/new` route.
    NewCostingTab,
    /// The `/help` route.
    Help,
    /// The `/about` route.
    About,
    /// The `/` route.
    Index,
}

/// The path of each page.
pub open spec fn app_route_path(route: AppRoute) -> Seq<char> {
    match route {
        AppRoute::CostingTab => "/tab"@,
        AppRoute::NewCostingTab => "/new"@,
        AppRoute::Help => "/help"@,
        AppRoute::About => "/about"@,
        AppRoute::Index => "/"@,
    }
}

impl AppRoute {
    /// The path of the page (what the route displays).
    pub fn to_path_string(&self) -> (s: String)
        ensures
            s@ == app_route_path(*self),
    {
        match self {
            AppRoute::CostingTab => "/tab".to_owned(),
            AppRoute::NewCostingTab => "/new".to_owned(),
            AppRoute::Help => "/help".to_owned(),
            AppRoute::About => "/about".to_owned(),
            AppRoute::Index => "/".to_owned(),
        }
    }
}

/// A route: a page, or a path that is none.
#[derive(Clone, Debug, PartialEq)]
pub enum RouteType {
    Valid(AppRoute),
    Invalid(String),
}

impl RouteType {
    /// The path of the route.
    pub fn path(&self) -> (s: String)
        ensures
            *self matches RouteType::Valid(r) ==> s@ == app_route_path(r),
            *self matches RouteType::Invalid(p) ==> s@ == p@,
    {
        match self {
            RouteType::Valid(app_route) => app_route.to_path_string(),
            RouteType::Invalid(route) => route.clone(),
        }
    }

    /// The route matched no page.
    pub fn is_invalid(&self) -> (b: bool)
        ensures
            b == (self is Invalid),
    {
        match self {
            RouteType::Invalid(_) => true,
            _ => false,
        }
    }

    /// The route of a page.
    pub fn from_app_route(route: AppRoute) -> (r: RouteType)
        ensures
            r == RouteType::Valid(route),
    {
        RouteType::Valid(route)
    }
}

/// The events of the application's store.
#[derive(Debug, Clone, Copy, Hash, PartialEq, Eq, Structural)]
pub enum CosterEvent {
    StateChanged,
    LanguageChanged,
    RouteChanged,
    LastSelectedCurrencyChanged,
    TabsChanged,
    NoEvent,
}

impl StoreEvent for CosterEvent {
    fn none() -> (e: Self)
        ensures
            e == CosterEvent::NoEvent,
    {
        CosterEvent::NoEvent
    }

    fn is_none(&self) -> (b: bool)
        ensures
            b == (*self == CosterEvent::NoEvent),
    {
        *self == CosterEvent::NoEvent
    }
}

impl CosterEvent {
    /// The event that means "no event".
    pub fn no_event() -> (e: CosterEvent)
        ensures
            e == CosterEvent::NoEvent,
    {
        CosterEvent::NoEvent
    }

    /// This is the event that means "no event".
    pub fn is_no_event(&self) -> (b: bool)
        ensures
            b == (*self == CosterEvent::NoEvent),
    {
        *self == CosterEvent::NoEvent
    }
}

/// An event of a store that says the language changed.
pub trait LocalizeEvent: Sized {
    /// The event.
    fn language_changed() -> Self;
}

impl LocalizeEvent for CosterEvent {
    fn language_changed() -> (e: Self)
        ensures
            e == CosterEvent::LanguageChanged,
    {
        CosterEvent::LanguageChanged
    }
}

/// A state that holds the current route.
pub trait RouteState<SR> {
    /// The current route.
    fn get_route(&self) -> &SR;
}

/// An event of a store that says the route changed.
pub trait RouteEvent<SR: SwitchRoute>: Sized {
    /// The event.
    fn route_changed() -> Self;
}

/// The actions of a store that change the route.
pub trait RouteAction<SR: SwitchRoute>: Sized {
    /// Change to this route.
    fn change_route(route: SR) -> Self;

    /// The browser changed to this route.
    fn browser_change_route(route: SR) -> Self;

    /// Read the route of the browser.
    fn poll_browser_route() -> Self;

    /// The route this action changes to, if it does.
    fn get_change_route(&self) -> Option<&SR>;

    /// The route the browser changed to, if this action says so.
    fn get_browser_change_route(&self) -> Option<&SR>;
}

/// A shared reference to a store whose route can be changed.
pub trait RouteStoreRef<SR> {
    /// Changes the route.
    fn change_route(&self, route: SR);
}

/// A store whose route can be changed.
pub trait RouteStore<SR> {
    /// Changes the route.
    fn change_route(&mut self, route: SR);
}

/// Where the application keeps data in its key-value database.
#[derive(Debug, Clone, Copy, PartialEq, Eq, Structural)]
pub enum CosterClientDBStore {
    /// General application variables that need to be persisted (such as the
    /// language the user selected).
    General,
    /// The tabs.
    Tabs,
}

impl KeyValueDBStore for CosterClientDBStore {
    fn name(&self) -> (s: &str)
        ensures
            *self == CosterClientDBStore::General ==> s@ == "General"@,
            *self == CosterClientDBStore::Tabs ==> s@ == "Tabs"@,
    {
        match self {
            CosterClientDBStore::General => "General",
            CosterClientDBStore::Tabs => "Tabs",
        }
    }

    fn db_col(&self) -> (c: u32)
        ensures
            *self == CosterClientDBStore::General ==> c == 0,
            *self == CosterClientDBStore::Tabs ==> c == 1,
    {
        match self {
            CosterClientDBStore::General => 0,
            CosterClientDBStore::Tabs => 1,
        }
    }

    fn n_db_cols() -> (n: u32)
        ensures
            n == 2,
    {
        2
    }
}

impl CosterClientDBStore {
    /// The column of the database that holds the store.
    pub fn column(&self) -> (c: u32)
        ensures
            *self == CosterClientDBStore::General ==> c == 0,
            *self == CosterClientDBStore::Tabs ==> c == 1,
            c < 2,
    {
        match self {
            CosterClientDBStore::General => 0,
            CosterClientDBStore::Tabs => 1,
        }
    }

    /// The number of columns the stores use.
    pub fn column_count() -> (n: u32)
        ensures
            n == 2,
    {
        2
    }
}

/// The reducer of the application's store.
pub struct CosterReducer;

/// A store middleware that keeps the store's data in a key-value database.
pub struct DatabaseMiddleware<DB> {
    database: DB,
}

impl<DB> DatabaseMiddleware<DB> {
    /// The database the middleware keeps data in.
    pub closed spec fn database_spec(&self) -> DB {
        self.database
    }

    /// A middleware keeping data in `database`.
    pub fn new(database: DB) -> (m: Self)
        ensures
            m.database_spec() == database,
    {
        DatabaseMiddleware { database }
    }
}

} // verus!
