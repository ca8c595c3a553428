//! Authentication, token and request-throttling core of a small lending backend.

/// Application errors and their HTTP status and kind.
pub mod error;
/// Character-level string helpers with their specifications.
pub mod text;
/// Per-client sliding-window request throttling.
pub mod rate_limit;
/// Deriving a request's throttling key from its headers.
pub mod client_id;
/// Accounts, their storage and the account use cases.
pub mod users;
/// Password hashing and credential checks.
pub mod credentials;
/// The canonical JSON form of token claims.
pub mod claims;
/// Issuing and verifying signed identity tokens.
pub mod token;
/// Response bodies.
pub mod responses;
/// Requests handed to the use cases, and the borrower rules.
pub mod requests;
/// The authorization of inbound requests.
pub mod middleware;
/// Incoming request bodies and their validation.
pub mod dtos;
/// Server configuration from raw settings.
pub mod config;
