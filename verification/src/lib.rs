//! Core of a URL-shortening service: a uniqueness-enforcing entry store
//! mapping caller-chosen slugs to long URLs, together with the handler
//! layer that validates input and maps store outcomes to the API error
//! taxonomy. HTTP routing, authentication plumbing and process wiring
//! live outside this crate.

pub mod configuration;
pub mod errors;
pub mod models;
pub mod routes;
pub mod store;
