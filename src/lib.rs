//! Authentication and authorization core of a small account service:
//! password hashing, signed bearer tokens, role resolution and access decisions.

pub mod auth;
pub mod claims;
pub mod decimal;
pub mod errors;
pub mod guard;
pub mod models;
pub mod routes;
pub mod text;
