//! Third-party login state: signed handshake tokens, the login state record
//! with its expiry rules, and the decisions of the login and callback flows.

pub mod primitives;
pub mod frame;
pub mod cache;
pub mod state;
pub mod settings;
pub mod tokens;
pub mod callback;
pub mod response;
pub mod login;
pub mod otp;
pub mod profile;
pub mod store;
pub mod host;
pub mod claims;
pub mod utils;
