//! A per-user dashboard core over a classroom-management service: delegated
//! sign-in state, the cookie-held session, and the aggregation of pending work
//! across courses.

pub mod api;
pub mod auth;
pub mod due;
pub mod error;
pub mod oauth;
pub mod order;
pub mod routes;
pub mod state;
pub mod todo;
pub mod tokens;

pub use error::Error;
pub use state::{AppState, Config};
