//! The decisions behind each endpoint, apart from the storage and transport around them.

pub mod admin;
pub mod login;
pub mod profile;
pub mod signup;
pub mod validate;
