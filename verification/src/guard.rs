use vstd::prelude::*;
use vstd::utf8::encode_utf8;
use crate::error::AuthError;
use crate::error::RefreshError;
use crate::error::Refusal;
use crate::error::TokenError;
use crate::key::SecretKey;
use crate::policy::is_authorized;
use crate::policy::Identity;
use crate::policy::IdentityView;
use crate::policy::PolicySet;
use crate::policy::PolicySetView;
use crate::refresh::NewToken;
use crate::refresh::NewTokenView;
use crate::token::decode_and_verify;
use crate::token::genuine;
use crate::token::lemma_expired_is_genuine;
use crate::token::verdict;
use crate::token::Claims;
use crate::token::ClaimsView;

verus! {

/// What a protected operation asks of its caller: the right to perform
/// `action` on `resource`. An operation states it where it is defined; it is
/// never read from a request.
#[derive(Debug, Clone, PartialEq, Eq)]
pub struct Capability {
    pub resource: String,
    pub action: String,
}

/// Mathematical value of a [`Capability`].
pub struct CapabilityView {
    pub resource: Seq<char>,
    pub action: Seq<char>,
}

impl View for Capability {
    type V = CapabilityView;

    open spec fn view(&self) -> CapabilityView {
        CapabilityView { resource: self.resource@, action: self.action@ }
    }
}

impl Capability {
    pub fn new(resource: String, action: String) -> (r: Capability)
        ensures
            r.resource == resource,
            r.action == action,
    {
        Capability { resource, action }
    }
}

/// Where the guard stands with one request.
///
/// A request starts in `NoToken`. `Refreshing` is the one state in which the
/// guard waits for the outside world: the token is genuine and expired, and
/// the identity provider is being asked for a new one. Every other state is
/// final. Verification itself never waits, so a token is verified, and
/// found valid, expired or invalid, within one step.
#[derive(Debug, Clone, PartialEq, Eq)]
pub enum GuardState {
    /// Nothing has been seen of the request yet.
    NoToken,
    /// `token` is genuine and expired.
    Refreshing { token: String },
    /// The request goes through as `identity`. `renewed` holds the token to
    /// keep from now on, where the one of the request was replaced.
    Authorized { identity: Identity, renewed: Option<NewToken> },
    /// The token of the request is malformed or forged.
    Invalid { reason: AuthError },
    /// There is no usable token, and no new one could be had.
    LoginRequired { reason: AuthError },
    /// The bearer is known and may not perform the operation.
    Forbidden,
}

/// Mathematical value of a [`GuardState`].
pub enum GuardStateView {
    NoToken,
    Refreshing { token: Seq<char> },
    Authorized { identity: IdentityView, renewed: Option<NewTokenView> },
    Invalid { reason: AuthError },
    LoginRequired { reason: AuthError },
    Forbidden,
}

impl View for GuardState {
    type V = GuardStateView;

    open spec fn view(&self) -> GuardStateView {
        match self {
            GuardState::NoToken => GuardStateView::NoToken,
            GuardState::Refreshing { token } => GuardStateView::Refreshing { token: token@ },
            GuardState::Authorized { identity, renewed } => GuardStateView::Authorized {
                identity: identity@,
                renewed: match renewed {
                    Some(fresh) => Some(fresh@),
                    None => None,
                },
            },
            GuardState::Invalid { reason } => GuardStateView::Invalid { reason: *reason },
            GuardState::LoginRequired { reason } => GuardStateView::LoginRequired {
                reason: *reason,
            },
            GuardState::Forbidden => GuardStateView::Forbidden,
        }
    }
}

/// What the outside world reports to the guard.
#[derive(Debug, PartialEq, Eq)]
pub enum GuardEvent {
    /// A request came in. `token` is what its carrier held, if anything.
    Request { token: Option<String> },
    /// The call to the identity provider has ended.
    Refreshed { outcome: Result<NewToken, RefreshError> },
}

/// Mathematical value of a [`GuardEvent`].
pub enum GuardEventView {
    Request { token: Option<Seq<char>> },
    Refreshed { outcome: Result<NewTokenView, RefreshError> },
}

impl View for GuardEvent {
    type V = GuardEventView;

    open spec fn view(&self) -> GuardEventView {
        match self {
            GuardEvent::Request { token } => GuardEventView::Request {
                token: match token {
                    Some(text) => Some(text@),
                    None => None,
                },
            },
            GuardEvent::Refreshed { outcome } => GuardEventView::Refreshed {
                outcome: match outcome {
                    Ok(fresh) => Ok(fresh@),
                    Err(e) => Err(*e),
                },
            },
        }
    }
}

/// What the caller of the guard has to do in a state.
#[derive(Debug, Clone, Copy, PartialEq, Eq, Structural)]
pub enum GuardAction {
    /// Hand over the request.
    AwaitRequest,
    /// Ask the identity provider for a new token and hand over the outcome.
    CallRefresh,
    /// Let the request through.
    Proceed,
    /// Answer with a redirect to the login page.
    RedirectToLogin,
    /// Answer that the operation is not allowed.
    Deny,
}

impl GuardStateView {
    /// The action that a state asks for.
    pub open spec fn action(self) -> GuardAction {
        match self {
            GuardStateView::NoToken => GuardAction::AwaitRequest,
            GuardStateView::Refreshing { .. } => GuardAction::CallRefresh,
            GuardStateView::Authorized { .. } => GuardAction::Proceed,
            GuardStateView::Invalid { .. } => GuardAction::RedirectToLogin,
            GuardStateView::LoginRequired { .. } => GuardAction::RedirectToLogin,
            GuardStateView::Forbidden => GuardAction::Deny,
        }
    }

    /// The reason for which a state refuses the request, if it does.
    pub open spec fn refused_for(self) -> Option<AuthError> {
        match self {
            GuardStateView::Invalid { reason } => Some(reason),
            GuardStateView::LoginRequired { reason } => Some(reason),
            GuardStateView::Forbidden => Some(AuthError::InsufficientCapability),
            _ => None,
        }
    }

    /// Nothing more happens to the request in this state.
    pub open spec fn is_final(self) -> bool {
        !(self is NoToken) && !(self is Refreshing)
    }

    /// Only `Forbidden` speaks of a missing capability, and `Invalid` only
    /// of a token that is malformed or forged.
    pub open spec fn wf(self) -> bool {
        match self {
            GuardStateView::Invalid { reason } => reason == AuthError::MalformedToken || reason
                == AuthError::InvalidSignature,
            GuardStateView::LoginRequired { reason } => reason
                != AuthError::InsufficientCapability,
            _ => true,
        }
    }
}

/// The identity that claims speak for.
pub open spec fn identity_of(claims: ClaimsView) -> IdentityView {
    IdentityView { username: claims.username, groups: claims.groups }
}

/// The state that verified claims lead to: the rule set decides.
pub open spec fn decide(
    claims: ClaimsView,
    renewed: Option<NewTokenView>,
    policy: PolicySetView,
    capability: CapabilityView,
) -> GuardStateView {
    if policy.permits(identity_of(claims), capability.resource, capability.action) {
        GuardStateView::Authorized { identity: identity_of(claims), renewed }
    } else {
        GuardStateView::Forbidden
    }
}

/// The state after a request has come in.
pub open spec fn on_request(
    token: Option<Seq<char>>,
    key: Seq<u8>,
    policy: PolicySetView,
    capability: CapabilityView,
    now: int,
) -> GuardStateView {
    match token {
        None => GuardStateView::LoginRequired { reason: AuthError::MissingToken },
        Some(text) => match verdict(encode_utf8(text), key, now) {
            Ok(claims) => decide(claims, None, policy, capability),
            Err(TokenError::Expired) => GuardStateView::Refreshing { token: text },
            Err(e) => GuardStateView::Invalid { reason: AuthError::of_token_error_spec(e) },
        },
    }
}

/// The state after the call to the identity provider has ended. A new token
/// is verified like any other; one that does not verify is not refreshed
/// again.
pub open spec fn on_refreshed(
    outcome: Result<NewTokenView, RefreshError>,
    key: Seq<u8>,
    policy: PolicySetView,
    capability: CapabilityView,
    now: int,
) -> GuardStateView {
    match outcome {
        Err(e) => GuardStateView::LoginRequired { reason: AuthError::of_refresh_error_spec(e) },
        Ok(fresh) => match verdict(encode_utf8(fresh.token), key, now) {
            Ok(claims) => decide(claims, Some(fresh), policy, capability),
            Err(e) => GuardStateView::LoginRequired {
                reason: AuthError::of_token_error_spec(e),
            },
        },
    }
}

/// The transition function of the guard. An event that a state does not
/// wait for leaves the state as it is.
pub open spec fn next_state(
    state: GuardStateView,
    event: GuardEventView,
    key: Seq<u8>,
    policy: PolicySetView,
    capability: CapabilityView,
    now: int,
) -> GuardStateView {
    match (state, event) {
        (GuardStateView::NoToken, GuardEventView::Request { token }) => on_request(
            token,
            key,
            policy,
            capability,
            now,
        ),
        (GuardStateView::Refreshing { .. }, GuardEventView::Refreshed { outcome }) => on_refreshed(
            outcome,
            key,
            policy,
            capability,
            now,
        ),
        _ => state,
    }
}

impl GuardState {
    /// The state in which every request starts.
    pub fn start() -> (r: GuardState)
        ensures
            r@ == GuardStateView::NoToken,
    {
        GuardState::NoToken
    }

    /// The action that this state asks for.
    pub fn action(&self) -> (r: GuardAction)
        ensures
            r == self@.action(),
    {
        match self {
            GuardState::NoToken => GuardAction::AwaitRequest,
            GuardState::Refreshing { .. } => GuardAction::CallRefresh,
            GuardState::Authorized { .. } => GuardAction::Proceed,
            GuardState::Invalid { .. } => GuardAction::RedirectToLogin,
            GuardState::LoginRequired { .. } => GuardAction::RedirectToLogin,
            GuardState::Forbidden => GuardAction::Deny,
        }
    }

    /// The reason for which this state refuses the request, if it does.
    pub fn refused_for(&self) -> (r: Option<AuthError>)
        ensures
            r == self@.refused_for(),
    {
        match self {
            GuardState::Invalid { reason } => Some(*reason),
            GuardState::LoginRequired { reason } => Some(*reason),
            GuardState::Forbidden => Some(AuthError::InsufficientCapability),
            _ => None,
        }
    }
}

/// The guard of one protected operation: the key that tokens are verified
/// with, the rule set in force while the request is looked at, and the
/// capability that the operation asks for. The guard only reads them.
pub struct Guard<'a> {
    pub key: &'a SecretKey,
    pub policy: &'a PolicySet,
    pub capability: &'a Capability,
}

impl<'a> Guard<'a> {
    pub fn new(key: &'a SecretKey, policy: &'a PolicySet, capability: &'a Capability) -> (r:
        Guard<'a>)
        ensures
            r.key == key,
            r.policy == policy,
            r.capability == capability,
    {
        Guard { key, policy, capability }
    }

    /// Asks the rule set about verified claims.
    pub fn decide(&self, claims: Claims, renewed: Option<NewToken>) -> (r: GuardState)
        ensures
            r@ == decide(
                claims@,
                match renewed {
                    Some(fresh) => Some(fresh@),
                    None => None,
                },
                self.policy@,
                self.capability@,
            ),
    {
        let identity = claims.into_identity();
        assert(identity@ == identity_of(claims@));
        if is_authorized(
            &identity,
            self.capability.resource.as_str(),
            self.capability.action.as_str(),
            self.policy,
        ) {
            GuardState::Authorized { identity, renewed }
        } else {
            GuardState::Forbidden
        }
    }

    /// Takes the guard from `state` to the next state on `event`; `now` is
    /// the time at which the event is looked at.
    pub fn step(&self, state: GuardState, event: GuardEvent, now: i64) -> (r: GuardState)
        ensures
            r@ == next_state(
                state@,
                event@,
                self.key@,
                self.policy@,
                self.capability@,
                now as int,
            ),
    {
        match (state, event) {
            (GuardState::NoToken, GuardEvent::Request { token }) => match token {
                None => GuardState::LoginRequired { reason: AuthError::MissingToken },
                Some(text) => match decode_and_verify(text.as_str(), self.key, now) {
                    Ok(claims) => self.decide(claims, None),
                    Err(TokenError::Expired) => GuardState::Refreshing { token: text },
                    Err(e) => GuardState::Invalid { reason: AuthError::of_token_error(e) },
                },
            },
            (GuardState::Refreshing { token }, GuardEvent::Refreshed { outcome }) => match outcome {
                Err(e) => GuardState::LoginRequired { reason: AuthError::of_refresh_error(e) },
                Ok(fresh) => match decode_and_verify(fresh.token.as_str(), self.key, now) {
                    Ok(claims) => self.decide(claims, Some(fresh)),
                    Err(e) => GuardState::LoginRequired { reason: AuthError::of_token_error(e) },
                },
            },
            (state, _) => state,
        }
    }
}

/// A refresh that succeeds decides by the new token: when the new token
/// verifies to claims that the rule set allows, the request goes through
/// under the identity of those claims, whatever the old token said, and the
/// new token is the one to keep.
pub proof fn lemma_refreshed_claims_are_used(
    old_token: Seq<char>,
    fresh: NewTokenView,
    claims: ClaimsView,
    key: Seq<u8>,
    policy: PolicySetView,
    capability: CapabilityView,
    now: int,
)
    requires
        verdict(encode_utf8(fresh.token), key, now) == Ok::<ClaimsView, TokenError>(claims),
        policy.permits(identity_of(claims), capability.resource, capability.action),
    ensures
        next_state(
            GuardStateView::Refreshing { token: old_token },
            GuardEventView::Refreshed { outcome: Ok(fresh) },
            key,
            policy,
            capability,
            now,
        ) == (GuardStateView::Authorized { identity: identity_of(claims), renewed: Some(fresh) }),
{
}

/// An expired token and a refresh that succeeds: the request that came in
/// at `now` with a token that had expired, and whose refresh ended at
/// `later` with a token that verifies to allowed claims, goes through under
/// the identity of the new claims.
pub proof fn lemma_expired_then_refreshed(
    token: Seq<char>,
    fresh: NewTokenView,
    claims: ClaimsView,
    key: Seq<u8>,
    policy: PolicySetView,
    capability: CapabilityView,
    now: int,
    later: int,
)
    requires
        verdict(encode_utf8(token), key, now) == Err::<ClaimsView, TokenError>(
            TokenError::Expired,
        ),
        verdict(encode_utf8(fresh.token), key, later) == Ok::<ClaimsView, TokenError>(claims),
        policy.permits(identity_of(claims), capability.resource, capability.action),
    ensures
        next_state(
            next_state(
                GuardStateView::NoToken,
                GuardEventView::Request { token: Some(token) },
                key,
                policy,
                capability,
                now,
            ),
            GuardEventView::Refreshed { outcome: Ok(fresh) },
            key,
            policy,
            capability,
            later,
        ) == (GuardStateView::Authorized { identity: identity_of(claims), renewed: Some(fresh) }),
{
}

/// An expired token and a refresh that fails: the guard ends in
/// `LoginRequired` with the reason of the failure, and asks for the login
/// redirect, never for a denial.
pub proof fn lemma_failed_refresh_redirects(
    token: Seq<char>,
    failure: RefreshError,
    key: Seq<u8>,
    policy: PolicySetView,
    capability: CapabilityView,
    now: int,
    later: int,
)
    requires
        verdict(encode_utf8(token), key, now) == Err::<ClaimsView, TokenError>(
            TokenError::Expired,
        ),
    ensures
        ({
            let end = next_state(
                next_state(
                    GuardStateView::NoToken,
                    GuardEventView::Request { token: Some(token) },
                    key,
                    policy,
                    capability,
                    now,
                ),
                GuardEventView::Refreshed { outcome: Err(failure) },
                key,
                policy,
                capability,
                later,
            );
            &&& end == (GuardStateView::LoginRequired {
                reason: AuthError::of_refresh_error_spec(failure),
            })
            &&& end.action() == GuardAction::RedirectToLogin
            &&& end.action() != GuardAction::Deny
        }),
{
}

/// The identity provider is asked for a new token only on a request whose
/// token is genuine and expired. Expiry alone opens the way to a refresh; a
/// missing, malformed or forged token never does.
pub proof fn lemma_refresh_only_when_expired(
    token: Option<Seq<char>>,
    key: Seq<u8>,
    policy: PolicySetView,
    capability: CapabilityView,
    now: int,
)
    ensures
        on_request(token, key, policy, capability, now) is Refreshing <==> (token is Some
            && verdict(encode_utf8(token->0), key, now) == Err::<ClaimsView, TokenError>(
            TokenError::Expired,
        )),
        on_request(token, key, policy, capability, now) is Refreshing ==> genuine(
            encode_utf8(token->0),
            key,
        ) && on_request(token, key, policy, capability, now)->Refreshing_token == token->0,
{
    if token is Some && verdict(encode_utf8(token->0), key, now) == Err::<ClaimsView, TokenError>(
        TokenError::Expired,
    ) {
        lemma_expired_is_genuine(encode_utf8(token->0), key, now);
    }
}

/// A token with a wrong signature ends the request at once, as invalid.
pub proof fn lemma_forged_token_is_invalid(
    token: Seq<char>,
    key: Seq<u8>,
    policy: PolicySetView,
    capability: CapabilityView,
    now: int,
)
    requires
        verdict(encode_utf8(token), key, now) == Err::<ClaimsView, TokenError>(
            TokenError::InvalidSignature,
        ),
    ensures
        on_request(Some(token), key, policy, capability, now) == (GuardStateView::Invalid {
            reason: AuthError::InvalidSignature,
        }),
{
}

/// A request without a token is sent to the login page at once: the state
/// after it asks for no call to the identity provider.
pub proof fn lemma_missing_token_redirects(
    key: Seq<u8>,
    policy: PolicySetView,
    capability: CapabilityView,
    now: int,
)
    ensures
        on_request(None, key, policy, capability, now) == (GuardStateView::LoginRequired {
            reason: AuthError::MissingToken,
        }),
        on_request(None, key, policy, capability, now).action() == GuardAction::RedirectToLogin,
{
}

/// Nothing moves a final state.
pub proof fn lemma_final_states_stay(
    state: GuardStateView,
    event: GuardEventView,
    key: Seq<u8>,
    policy: PolicySetView,
    capability: CapabilityView,
    now: int,
)
    requires
        state.is_final(),
    ensures
        next_state(state, event, key, policy, capability, now) == state,
{
}

/// Every state that the guard reaches is well formed, and what it asks for
/// fits its reason: a final state lets the request through, or refuses it
/// with exactly the answer that its reason leads to.
pub proof fn lemma_answers_fit_reasons(
    state: GuardStateView,
    event: GuardEventView,
    key: Seq<u8>,
    policy: PolicySetView,
    capability: CapabilityView,
    now: int,
)
    requires
        state.wf(),
    ensures
        ({
            let next = next_state(state, event, key, policy, capability, now);
            &&& next.wf()
            &&& next.refused_for() matches Some(reason) ==> (next.action() == (
            if reason.refusal_spec() == Refusal::LoginRedirect {
                GuardAction::RedirectToLogin
            } else {
                GuardAction::Deny
            }))
            &&& next is Authorized <==> next.action() == GuardAction::Proceed
            &&& next.is_final() <==> (next.action() == GuardAction::Proceed || next.action()
                == GuardAction::RedirectToLogin || next.action() == GuardAction::Deny)
        }),
{
}

} // verus!
