//! The account record that the user directory stores.
use vstd::prelude::*;

verus! {

/// One account: its identity, names and stored password hash.
pub struct Users {
    pub id: i32,
    pub username: String,
    pub email: String,
    pub password: String,
}

} // verus!
