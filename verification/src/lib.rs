//! Authentication and authorization for the services behind one identity
//! provider.
//!
//! A service verifies the signed token of a request by itself
//! ([`token::decode_and_verify`]), asks a cached rule set whether the bearer
//! may do what the operation needs ([`policy::is_authorized`]), and lets the
//! identity provider replace a token that has expired. [`guard::Guard`] ties
//! the three together: it takes a request to an identity that is allowed to
//! proceed, to the login page, or to a denial.
//!
//! Nothing here reads the environment, the clock or the network. Whoever
//! uses the library does that and hands over what was found.

pub mod config;
pub mod error;
pub mod guard;
pub mod invite;
pub mod key;
pub mod policy;
pub mod primitives;
pub mod refresh;
pub mod routes;
pub mod text;
pub mod token;

pub use crate::config::Variables;
pub use crate::error::AuthError;
pub use crate::error::ConfigError;
pub use crate::error::RefreshError;
pub use crate::error::Refusal;
pub use crate::error::TokenError;
pub use crate::guard::Capability;
pub use crate::guard::Guard;
pub use crate::guard::GuardAction;
pub use crate::guard::GuardEvent;
pub use crate::guard::GuardState;
pub use crate::key::SecretKey;
pub use crate::policy::is_authorized;
pub use crate::policy::Identity;
pub use crate::policy::PermissionResponse;
pub use crate::policy::PolicyCache;
pub use crate::policy::PolicyRule;
pub use crate::policy::PolicySet;
pub use crate::refresh::NewToken;
pub use crate::refresh::RefreshReply;
pub use crate::routes::RouteTable;
pub use crate::token::decode_and_verify;
pub use crate::token::Claims;
