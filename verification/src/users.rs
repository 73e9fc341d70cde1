//! User-facing authentication outcomes and the per-client authentication
//! state. The credential checks themselves live with the account store,
//! outside the core.

use vstd::prelude::*;

verus! {

/// How an authentication attempt ended.
#[derive(Debug, Clone, PartialEq, Eq)]
pub enum AuthenticationResult {
    /// The credentials or token named this account.
    Success { user_id: String },
    /// The username and password match no account.
    InvalidCredentials,
    /// The remember-me token is unknown or expired.
    InvalidToken,
}

/// Where a client stands with authentication.
#[derive(Debug, Clone, PartialEq, Eq)]
pub enum AuthenticationState {
    Unauthenticated,
    Authenticated { user_id: String },
}

/// A client's id on the server.
pub type ClientId = u64;

/// What the server broadcasts about its clients.
#[derive(Debug, Clone, Copy, PartialEq, Eq, Structural)]
pub enum ServerEvent {
    ClientAuthenticated(ClientId),
    ClientDisconnected(ClientId),
}

} // verus!
