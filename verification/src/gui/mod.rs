//! The logic of the web interface: form validation, form fields, the
//! GraphQL client's configuration, routes, store events and middleware.

pub mod validation;
pub mod form;
pub mod client;
pub mod simple_logger;
pub mod store;
pub mod web_logger;
pub mod state;
pub mod reducer;
pub mod new_tab;
