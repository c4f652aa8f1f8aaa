//! Public, API-key-authenticated HTTP surface of Peckboard.
//!
//! The plugin owns the routes under `/plugin-api/v1`. The endpoints for data and for keys ask for an
//! API key, presented as `Authorization: Bearer <key>` or `X-API-Key: <key>`: a missing or unknown
//! key is a 401, and a known key without the scope of the route a 403. The health check and the
//! management page are open to all.
//!
//! The keys are a managed set that the host keeps. It is made of the configured keys on the first
//! request with a valid key, and from then on the endpoints for keys alone change it. The bootstrap
//! secret of the configuration is valid at all times.
//!
//! - [`plugin`]: what the plugin declares, how it is configured, and how it serves a request
//! - [`routes`]: requests, and the endpoints that they name
//! - [`steps`]: what is done about a request, step by step
//! - [`auth`]: the configuration, how a request presents a key, and what that key grants
//! - [`managed`]: the managed set, and how it is kept
//! - [`hashing`]: the hashes that secrets are kept as
//! - [`minting`]: the secrets and names of new keys
//! - [`keys`]: the endpoints that manage keys
//! - [`response`]: the replies, and what the results of the host become
//! - [`assets`]: the management page
//! - [`query`]: query strings
//! - [`json`]: JSON values
//! - [`text`] and [`string_map`]: strings, and maps of them
//! - [`laws`]: what holds of the plugin as a whole

pub mod assets;
pub mod auth;
pub mod hashing;
pub mod json;
pub mod keys;
pub mod laws;
pub mod managed;
pub mod minting;
pub mod plugin;
pub mod query;
pub mod response;
pub mod routes;
pub mod steps;
pub mod string_map;
pub mod text;
