//! A small list-management web library: account signup and login with salted,
//! iterated password hashing, stateless authenticated session tokens carried
//! in a cookie, and the HTML-fragment view models for the item list.

use vstd::prelude::*;

pub mod auth;
pub mod crypto;
pub mod hex;
pub mod sessions;
pub mod todos;
pub mod users;

verus! {

/// Name of the session cookie set by the transport layer.
pub const SESSION_COOKIE_NAME: &'static str = "SESSION";

} // verus!
