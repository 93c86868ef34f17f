//! Authorization core for a Spotify playlist tool: the CSRF-protected
//! authorization-code handshake, the local callback routes, the token
//! exchange and refresh decisions, and the persisted configuration, all
//! with verified contracts. Network and terminal plumbing live outside
//! the library and hand plain values in and out.

use vstd::prelude::*;

pub mod actions;
pub mod authorize;
pub mod config;
pub mod json;
pub mod models;
mod numfmt;
pub mod selection;
pub mod store;
pub mod user_info;
mod urlenc;

pub use numfmt::u16_to_decimal;

verus! {

/// The core's output capability: an access token bound to the resolved
/// identity it was granted for, handed to every downstream collaborator.
#[derive(Debug)]
pub struct UserAccess {
    pub access: authorize::Access,
    pub user: user_info::User,
}

impl UserAccess {
    /// Attaches the session's bearer token to a request.
    pub fn authorize(&self, request_builder: reqwest::RequestBuilder) -> reqwest::RequestBuilder {
        self.access.authorize(request_builder)
    }
}

} // verus!
