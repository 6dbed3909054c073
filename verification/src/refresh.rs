use vstd::prelude::*;
use vstd::string::StringExecFns;
use vstd::string::StringSliceAdditionalSpecFns;
use crate::error::RefreshError;
use crate::primitives::percent_encode;
use crate::primitives::percent_encoded;

verus! {

/// A token that the identity provider handed out in place of an expired one,
/// with the time until which it is to be kept as the new carrier value.
#[derive(Debug, Clone, PartialEq, Eq)]
pub struct NewToken {
    pub token: String,
    pub expires_at: i64,
}

/// Mathematical value of a [`NewToken`].
pub struct NewTokenView {
    pub token: Seq<char>,
    pub expires_at: int,
}

impl View for NewToken {
    type V = NewTokenView;

    open spec fn view(&self) -> NewTokenView {
        NewTokenView { token: self.token@, expires_at: self.expires_at as int }
    }
}

/// What came back from the refresh endpoint.
#[derive(Debug, Clone, PartialEq, Eq)]
pub enum RefreshReply {
    /// The call failed before any answer was there.
    Unreachable,
    /// The identity provider answered with this status. `token` and
    /// `lifetime_seconds` are what could be read from the body.
    Answer { status: u16, token: Option<String>, lifetime_seconds: Option<u32> },
}

/// The status says that the request was served.
pub open spec fn is_success(status: u16) -> bool {
    200 <= status <= 299
}

/// The end of a lifetime that starts at `now`, held within the range of a
/// timestamp.
pub open spec fn expiry_after(now: int, lifetime_seconds: int) -> int {
    if now + lifetime_seconds > i64::MAX {
        i64::MAX as int
    } else {
        now + lifetime_seconds
    }
}

/// The lifetime that counts: the one that the identity provider stated, and
/// the configured one where it stated none.
pub open spec fn effective_lifetime(stated: Option<u32>, configured: u32) -> u32 {
    match stated {
        Some(seconds) => seconds,
        None => configured,
    }
}

/// What a reply amounts to. A served request whose body holds a token gives
/// the new token. A served request without a readable token counts as no
/// answer. Any other status is a refusal.
pub open spec fn outcome_of_reply(reply: RefreshReply, now: i64, configured: u32) -> Result<
    NewTokenView,
    RefreshError,
> {
    match reply {
        RefreshReply::Unreachable => Err(RefreshError::Unavailable),
        RefreshReply::Answer { status, token, lifetime_seconds } => {
            if !is_success(status) {
                Err(RefreshError::Rejected)
            } else {
                match token {
                    None => Err(RefreshError::Unavailable),
                    Some(text) => Ok(
                        NewTokenView {
                            token: text@,
                            expires_at: expiry_after(
                                now as int,
                                effective_lifetime(lifetime_seconds, configured) as int,
                            ),
                        },
                    ),
                }
            }
        },
    }
}

/// Adds a lifetime to a time without leaving the range of a timestamp.
pub fn expiry(now: i64, lifetime_seconds: u32) -> (r: i64)
    ensures
        r == expiry_after(now as int, lifetime_seconds as int),
{
    let end: i128 = now as i128 + lifetime_seconds as i128;
    if end > i64::MAX as i128 {
        i64::MAX
    } else {
        end as i64
    }
}

/// Reads the reply of the refresh endpoint. `now` is the time at which the
/// reply came in, `configured` the token lifetime of the settings.
pub fn interpret_reply(reply: RefreshReply, now: i64, configured: u32) -> (r: Result<
    NewToken,
    RefreshError,
>)
    ensures
        match outcome_of_reply(reply, now, configured) {
            Ok(fresh) => r matches Ok(got) && got@ == fresh,
            Err(e) => r matches Err(got) && got == e,
        },
{
    match reply {
        RefreshReply::Unreachable => Err(RefreshError::Unavailable),
        RefreshReply::Answer { status, token, lifetime_seconds } => {
            if status < 200 || status > 299 {
                return Err(RefreshError::Rejected);
            }
            match token {
                None => Err(RefreshError::Unavailable),
                Some(text) => {
                    let lifetime = match lifetime_seconds {
                        Some(seconds) => seconds,
                        None => configured,
                    };
                    Ok(NewToken { token: text, expires_at: expiry(now, lifetime) })
                },
            }
        },
    }
}

/// The address that a user without a usable token is sent to.
pub open spec fn login_location_spec(login_address: Seq<char>, return_to: Seq<u8>) -> Seq<char> {
    login_address + "?return_to="@ + percent_encoded(return_to)
}

/// Builds the address of the login page for a user who asked for
/// `return_to`: the login address with the percent-encoded address of the
/// request as its `return_to` parameter, so that the user comes back to where
/// they started.
pub fn login_location(login_address: &str, return_to: &str) -> (r: String)
    ensures
        r@ == login_location_spec(login_address@, return_to.spec_bytes()),
{
    let mut location = login_address.to_owned();
    location.append("?return_to=");
    let encoded = percent_encode(return_to);
    location.append(encoded.as_str());
    location
}

} // verus!
