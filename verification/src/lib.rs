//! Problem details for HTTP APIs (RFC 7807, RFC 9457): a status code and a
//! small JSON document, and the rule that turns the two into a response.
//!
//! A [`problem::Problem`] is built call by call and rendered with
//! [`problem::Problem::into_response`]. A [`handler::PanicHandlerBuilder`]
//! answers the unexpected failure of a request handler in the same form.
//!
//! The body of a problem is kept as a listing: its members in strictly
//! ascending order of their names, which is the order they are written in.
//! [`key`] defines that order, [`listing`] relates listings to the maps they
//! stand for, and [`laws`] states what follows for every problem. Status
//! codes and JSON values are those of the crates `http` and `serde_json`;
//! [`status`] and [`json`] hold what is taken on trust about them.

pub mod handler;
pub mod json;
pub mod key;
pub mod laws;
pub mod listing;
pub mod problem;
pub mod response;
pub mod status;

pub use crate::handler::PanicHandlerBuilder;
pub use crate::problem::{new, Problem};
pub use crate::response::Response;
