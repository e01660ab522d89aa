//! Cost sharing between several people: money amounts in several
//! currencies, a small double entry accounting engine, and the
//! settlement of shared expenses.

pub mod decimal;
pub mod currency;
pub mod exchange_rate;
pub mod accounting;
pub mod costing;
pub mod gui;
pub mod i18n;
pub mod search;
pub mod text;

use vstd::prelude::*;

verus! {

} // verus!
