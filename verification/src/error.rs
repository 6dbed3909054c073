use vstd::prelude::*;

verus! {

/// Why the configuration of a service could not be built. A service that
/// meets one of these at startup cannot serve and is expected to stop.
#[derive(Debug, Clone, Copy, PartialEq, Eq, Structural)]
pub enum ConfigError {
    /// The signing secret is not set.
    MissingSecret,
    /// The signing secret is not valid base64.
    InvalidSecret,
    /// The address of the login page is not set.
    MissingLoginAddress,
    /// The address of the refresh endpoint is not set.
    MissingRefreshAddress,
    /// The token lifetime is not set.
    MissingTokenDuration,
    /// The token lifetime is not a decimal number of seconds that fits 32 bits.
    InvalidTokenDuration,
    /// The name of the service is not set.
    MissingServiceName,
}

/// Why a token was not accepted.
#[derive(Debug, Clone, Copy, PartialEq, Eq, Structural)]
pub enum TokenError {
    /// The token does not have the shape of a token, or its payload does not
    /// hold claims.
    Malformed,
    /// The signature is not the one that the key gives for header and payload.
    InvalidSignature,
    /// The token is genuine and its lifetime is over.
    Expired,
}

/// Why the identity provider did not hand out a new token.
#[derive(Debug, Clone, Copy, PartialEq, Eq, Structural)]
pub enum RefreshError {
    /// The identity provider could not be reached or did not answer properly.
    Unavailable,
    /// The identity provider answered and refused.
    Rejected,
}

/// Every reason for which a request does not go through.
#[derive(Debug, Clone, Copy, PartialEq, Eq, Structural)]
pub enum AuthError {
    MissingToken,
    MalformedToken,
    InvalidSignature,
    Expired,
    RefreshUnavailable,
    RefreshRejected,
    InsufficientCapability,
}

/// The two answers that a refused request can get.
#[derive(Debug, Clone, Copy, PartialEq, Eq, Structural)]
pub enum Refusal {
    /// Send the user to the login page: nobody is logged in, as far as the
    /// service can tell.
    LoginRedirect,
    /// Tell the user that the operation is not allowed: logging in again
    /// would not help.
    CapabilityDenied,
}

impl AuthError {
    /// The answer that each reason leads to.
    pub open spec fn refusal_spec(self) -> Refusal {
        if self == AuthError::InsufficientCapability {
            Refusal::CapabilityDenied
        } else {
            Refusal::LoginRedirect
        }
    }

    /// The answer that this reason leads to: a capability denial for
    /// `InsufficientCapability`, the login redirect for everything else.
    pub fn refusal(&self) -> (r: Refusal)
        ensures
            r == self.refusal_spec(),
    {
        match self {
            AuthError::InsufficientCapability => Refusal::CapabilityDenied,
            _ => Refusal::LoginRedirect,
        }
    }

    pub open spec fn of_token_error_spec(e: TokenError) -> AuthError {
        match e {
            TokenError::Malformed => AuthError::MalformedToken,
            TokenError::InvalidSignature => AuthError::InvalidSignature,
            TokenError::Expired => AuthError::Expired,
        }
    }

    /// The reason that corresponds to a token error.
    pub fn of_token_error(e: TokenError) -> (r: AuthError)
        ensures
            r == Self::of_token_error_spec(e),
    {
        match e {
            TokenError::Malformed => AuthError::MalformedToken,
            TokenError::InvalidSignature => AuthError::InvalidSignature,
            TokenError::Expired => AuthError::Expired,
        }
    }

    pub open spec fn of_refresh_error_spec(e: RefreshError) -> AuthError {
        match e {
            RefreshError::Unavailable => AuthError::RefreshUnavailable,
            RefreshError::Rejected => AuthError::RefreshRejected,
        }
    }

    /// The reason that corresponds to a refresh error.
    pub fn of_refresh_error(e: RefreshError) -> (r: AuthError)
        ensures
            r == Self::of_refresh_error_spec(e),
    {
        match e {
            RefreshError::Unavailable => AuthError::RefreshUnavailable,
            RefreshError::Rejected => AuthError::RefreshRejected,
        }
    }
}

} // verus!
