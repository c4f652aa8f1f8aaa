//! What holds of the plugin as a whole, proved from the contracts of its parts.

pub mod access;
pub mod calls;
pub mod endpoints;
pub mod identity;
pub mod keys;
pub mod queries;
pub mod replies;
pub mod routes;
pub mod store;
pub mod terms;
pub mod texts;
