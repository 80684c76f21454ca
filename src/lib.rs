//! Data-access core of a plan scheduling service: the entity field model,
//! system field injection, statement planning and rendering, interpretation
//! of what the database returns, a model of the store with the laws the
//! engine obeys in it, and the calendar helpers used by the pages.

pub mod calendar;
pub mod crud;
pub mod ctx;
pub mod date;
pub mod error;
pub mod fields;
pub mod plan;
pub mod plandate;
pub mod sql;
pub mod store;
pub mod url_id;
pub mod user;
pub mod user_date;
pub mod utc;
pub mod web;
