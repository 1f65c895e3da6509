//! Plain data carried between the HTTP callback layer and the engine.
//!
//! The login handshake itself (redirects, token exchange) is an external
//! collaborator; these are the values it passes around.

use vstd::prelude::*;

verus! {

/// An authenticated panel session, as resolved from a login token.
pub struct AuthData {
    pub user_id: String,
    /// When the login session was created, as seconds since the epoch.
    pub created_at: i64,
    pub state: String,
}

/// Request body asking to resolve a login token.
pub struct GetAuthData {
    pub login_token: String,
}

/// Query carried by a login-creation redirect.
pub struct CreateLogin {
    pub state: String,
}

/// What the identity provider returns for an authorization code.
pub struct AccessTokenResponse {
    pub access_token: String,
    pub scope: String,
}

/// Query carried by the login-confirmation callback.
pub struct ConfirmLogin {
    pub code: String,
    pub state: String,
}

/// Timing of one finished onboarding attempt.
pub struct OnboardingMeta {
    /// When the attempt started, as seconds since the epoch.
    pub start_time: i64,
    /// When the quiz was submitted, as seconds since the epoch.
    pub end_time: i64,
}

} // verus!
