//! What a successful code exchange yields, as plain values.

use vstd::prelude::*;

verus! {

/// Identity claims from a verified ID token. Times are Unix seconds.
#[derive(Debug, Clone, PartialEq, Eq)]
pub struct TokenClaims {
    /// Stable identifier of the end user at the issuer.
    pub subject: String,
    pub user_email: Option<String>,
    pub email_verified: Option<bool>,
    /// Full display name.
    pub username: Option<String>,
    pub given_name: Option<String>,
    pub family_name: Option<String>,
    pub middle_name: Option<String>,
    pub birth_date: Option<String>,
    pub phone: Option<String>,
    pub phone_verified: Option<bool>,
    pub preferred_username: Option<String>,
    /// Profile page URL.
    pub profile: Option<String>,
    /// Profile picture URL.
    pub picture: Option<String>,
    pub issue_at: i64,
    pub expires_at: i64,
    /// When the user last actively authenticated.
    pub last_auth_time: Option<i64>,
    /// Authentication context class reference.
    pub auth_context_ref: Option<String>,
    /// Authentication method references.
    pub auth_method_refs: Option<Vec<String>>,
    /// The issuer's identifier URL.
    pub issuer: String,
    pub audiences: Vec<String>,
    pub nonce: Option<String>,
}

/// The tokens of a token response. `expires_at` is in Unix seconds.
#[derive(Debug, Clone, PartialEq, Eq)]
pub struct ResponseTokens {
    pub access_token: String,
    pub refresh_token: Option<String>,
    pub expires_at: Option<i64>,
    pub id_token: Option<String>,
    pub scopes: Vec<String>,
    pub token_type: String,
}

} // verus!
