use vstd::prelude::*;
use vstd::slice::slice_subrange;
use vstd::string::StringSliceAdditionalSpecFns;
use crate::error::TokenError;
use crate::key::SecretKey;
use crate::policy::Identity;
use crate::primitives::base64url_decoded;
use crate::primitives::decode_base64url;
use crate::primitives::hmac_sha256;
use crate::primitives::json_integer;
use crate::primitives::json_object_members;
use crate::primitives::json_text;
use crate::primitives::json_text_list;
use crate::primitives::parse_integer;
use crate::primitives::parse_object;
use crate::primitives::parse_text;
use crate::primitives::parse_text_list;
use crate::text::pairs_view;
use crate::text::same_text;

verus! {

/// The byte that separates the three parts of a token: a full stop.
pub const DELIMITER: u8 = 0x2e;

/// The facts that a token carries about its bearer. Times are seconds since
/// the Unix epoch.
#[derive(Debug, Clone, PartialEq, Eq)]
pub struct Claims {
    pub username: String,
    pub groups: Vec<String>,
    pub issued_at: i64,
    pub expires_at: i64,
}

/// Mathematical value of [`Claims`].
pub struct ClaimsView {
    pub username: Seq<char>,
    pub groups: Seq<Seq<char>>,
    pub issued_at: int,
    pub expires_at: int,
}

impl ClaimsView {
    /// A token expires after it was issued.
    pub open spec fn wf(self) -> bool {
        self.expires_at > self.issued_at
    }
}

impl View for Claims {
    type V = ClaimsView;

    open spec fn view(&self) -> ClaimsView {
        ClaimsView {
            username: self.username@,
            groups: self.groups.deep_view(),
            issued_at: self.issued_at as int,
            expires_at: self.expires_at as int,
        }
    }
}

impl Claims {
    /// The identity that the claims speak for.
    pub fn into_identity(self) -> (r: Identity)
        ensures
            r@.username == self@.username,
            r@.groups == self@.groups,
    {
        Identity { username: self.username, groups: self.groups }
    }
}

/// `first` and `second` are the places of the only two delimiters in `token`.
pub open spec fn is_split(token: Seq<u8>, first: int, second: int) -> bool {
    &&& 0 <= first < second < token.len()
    &&& token[first] == DELIMITER
    &&& token[second] == DELIMITER
    &&& forall|k: int|
        0 <= k < token.len() && k != first && k != second ==> token[k] != DELIMITER
}

/// The places of the two delimiters of a token of exactly three parts, and
/// `None` for any other number of parts.
pub open spec fn split_of(token: Seq<u8>) -> Option<(int, int)> {
    if exists|first: int, second: int| is_split(token, first, second) {
        Some(choose|first: int, second: int| is_split(token, first, second))
    } else {
        None
    }
}

/// A token splits in one way at most.
pub proof fn lemma_split_is_unique(token: Seq<u8>, a: int, b: int, c: int, d: int)
    requires
        is_split(token, a, b),
        is_split(token, c, d),
    ensures
        a == c,
        b == d,
{
}

/// Where a token splits, [`split_of`] says so.
pub proof fn lemma_split_of(token: Seq<u8>, first: int, second: int)
    requires
        is_split(token, first, second),
    ensures
        split_of(token) == Some((first, second)),
{
    let (a, b) = choose|a: int, b: int| is_split(token, a, b);
    lemma_split_is_unique(token, a, b, first, second);
}

/// Finds the first delimiter at or after `from`, or the end of the token.
fn next_delimiter(token: &[u8], from: usize) -> (r: usize)
    requires
        from <= token@.len(),
    ensures
        from <= r <= token@.len(),
        r < token@.len() ==> token@[r as int] == DELIMITER,
        forall|k: int| from <= k < r ==> token@[k] != DELIMITER,
{
    let mut i: usize = from;
    while i < token.len()
        invariant
            from <= i <= token@.len(),
            forall|k: int| from <= k < i ==> token@[k] != DELIMITER,
        decreases token@.len() - i,
    {
        if token[i] == DELIMITER {
            return i;
        }
        i += 1;
    }
    i
}

/// Splits a token on its delimiter: the places of the two delimiters where
/// the token has exactly three parts, `None` where the count differs.
pub fn split_token(token: &[u8]) -> (r: Option<(usize, usize)>)
    ensures
        match r {
            Some((first, second)) => split_of(token@) == Some((first as int, second as int)),
            None => split_of(token@) is None,
        },
{
    let n = token.len();
    let first = next_delimiter(token, 0);
    if first >= n {
        assert forall|a: int, b: int| !is_split(token@, a, b) by {}
        return None;
    }
    let second = next_delimiter(token, first + 1);
    if second >= n {
        assert forall|a: int, b: int| !is_split(token@, a, b) by {}
        return None;
    }
    let third = next_delimiter(token, second + 1);
    if third < n {
        assert forall|a: int, b: int| !is_split(token@, a, b) by {
            if is_split(token@, a, b) {
                assert(token@[first as int] == DELIMITER);
                assert(token@[second as int] == DELIMITER);
                assert(token@[third as int] == DELIMITER);
            }
        }
        return None;
    }
    proof {
        assert(is_split(token@, first as int, second as int));
        lemma_split_of(token@, first as int, second as int);
    }
    Some((first, second))
}

/// The claims that the four values of a payload stand for: none where the
/// token would expire no later than it was issued.
pub open spec fn claims_of_fields(fields: Option<(Seq<char>, Seq<Seq<char>>, i64, i64)>) -> Option<
    ClaimsView,
> {
    match fields {
        None => None,
        Some((username, groups, issued_at, expires_at)) => {
            if expires_at > issued_at {
                Some(
                    ClaimsView {
                        username,
                        groups,
                        issued_at: issued_at as int,
                        expires_at: expires_at as int,
                    },
                )
            } else {
                None
            }
        },
    }
}

/// The JSON text of the member called `name`, if there is one.
pub open spec fn member_of(members: Seq<(Seq<char>, Seq<char>)>, name: Seq<char>) -> Option<
    Seq<char>,
>
    decreases members.len(),
{
    if members.len() == 0 {
        None
    } else if members[0].0 == name {
        Some(members[0].1)
    } else {
        member_of(members.drop_first(), name)
    }
}

/// The four values that the members of a payload give: `username` must be a
/// string, `groups` a list of strings, `issued_at` and `expires_at` integers.
/// Other members do not count. There are no values where one of the four is
/// missing or of another kind.
pub open spec fn fields_of_members(members: Seq<(Seq<char>, Seq<char>)>) -> Option<
    (Seq<char>, Seq<Seq<char>>, i64, i64),
> {
    match (
        member_of(members, "username"@),
        member_of(members, "groups"@),
        member_of(members, "issued_at"@),
        member_of(members, "expires_at"@),
    ) {
        (Some(username), Some(groups), Some(issued_at), Some(expires_at)) => match (
            json_text(username),
            json_text_list(groups),
            json_integer(issued_at),
            json_integer(expires_at),
        ) {
            (Some(u), Some(g), Some(i), Some(e)) => Some((u, g, i, e)),
            _ => None,
        },
        _ => None,
    }
}

/// The claims that the bytes of a payload hold, if they hold any: the
/// payload is a JSON object with the four members of claims.
pub open spec fn claims_of_payload(payload: Seq<u8>) -> Option<ClaimsView> {
    match json_object_members(payload) {
        Some(members) => claims_of_fields(fields_of_members(members)),
        None => None,
    }
}

/// What is made of claims at the time `now`: they stand while `now` is
/// before their expiry.
pub open spec fn admitted(claims: Option<ClaimsView>, now: int) -> Result<ClaimsView, TokenError> {
    match claims {
        None => Err(TokenError::Malformed),
        Some(c) => if c.expires_at > now {
            Ok(c)
        } else {
            Err(TokenError::Expired)
        },
    }
}

/// The outcome of verifying `token` under `key` at the time `now`.
///
/// The checks come in a fixed order. A token that is not of three parts, or
/// whose header or payload is not base64url, is malformed. Then the signature
/// must be the code of header, delimiter and payload, taken as they stand in
/// the token. Only then is the payload read as claims, and only then is the
/// expiry compared with `now`.
pub open spec fn verdict(token: Seq<u8>, key: Seq<u8>, now: int) -> Result<ClaimsView, TokenError> {
    match split_of(token) {
        None => Err(TokenError::Malformed),
        Some((first, second)) => {
            let header = token.subrange(0, first);
            let payload = token.subrange(first + 1, second);
            let signature = token.subrange(second + 1, token.len() as int);
            let signed = token.subrange(0, second);
            if base64url_decoded(header) is None {
                Err(TokenError::Malformed)
            } else {
                match base64url_decoded(payload) {
                    None => Err(TokenError::Malformed),
                    Some(body) => {
                        if base64url_decoded(signature) != Some(hmac_sha256(key, signed)) {
                            Err(TokenError::InvalidSignature)
                        } else {
                            admitted(claims_of_payload(body), now)
                        }
                    },
                }
            }
        },
    }
}

/// The part of a token that its signature covers: header, delimiter and
/// payload as they stand in the token. The token itself where it does not
/// split.
pub open spec fn signed_part(token: Seq<u8>) -> Seq<u8> {
    match split_of(token) {
        Some((first, second)) => token.subrange(0, second),
        None => token,
    }
}

/// The token splits in three parts and its signature part decodes to the
/// code of the signed part under `key`.
pub open spec fn genuine(token: Seq<u8>, key: Seq<u8>) -> bool {
    match split_of(token) {
        Some((first, second)) => base64url_decoded(
            token.subrange(second + 1, token.len() as int),
        ) == Some(hmac_sha256(key, token.subrange(0, second))),
        None => false,
    }
}

/// No byte of `part` is the delimiter.
pub open spec fn delimiter_free(part: Seq<u8>) -> bool {
    forall|k: int| 0 <= k < part.len() ==> part[k] != DELIMITER
}

/// The token made of three parts.
pub open spec fn assembled(header: Seq<u8>, payload: Seq<u8>, signature: Seq<u8>) -> Seq<u8> {
    header + seq![DELIMITER] + payload + seq![DELIMITER] + signature
}

/// A token made of three parts without a delimiter in them splits into
/// those parts again.
pub proof fn lemma_assembled_splits(header: Seq<u8>, payload: Seq<u8>, signature: Seq<u8>)
    requires
        delimiter_free(header),
        delimiter_free(payload),
        delimiter_free(signature),
    ensures
        ({
            let token = assembled(header, payload, signature);
            let first = header.len() as int;
            let second = (header.len() + 1 + payload.len()) as int;
            &&& split_of(token) == Some((first, second))
            &&& token.subrange(0, first) == header
            &&& token.subrange(first + 1, second) == payload
            &&& token.subrange(second + 1, token.len() as int) == signature
            &&& token.subrange(0, second) == header + seq![DELIMITER] + payload
        }),
{
    let token = assembled(header, payload, signature);
    let first = header.len() as int;
    let second = (header.len() + 1 + payload.len()) as int;
    assert(token.len() == second + 1 + signature.len());
    assert(token[first] == DELIMITER);
    assert(token[second] == DELIMITER);
    assert forall|k: int| 0 <= k < token.len() && k != first && k != second implies token[k]
        != DELIMITER by {
        if k < first {
            assert(token[k] == header[k]);
        } else if k < second {
            assert(token[k] == payload[k - first - 1]);
        } else {
            assert(token[k] == signature[k - second - 1]);
        }
    }
    assert(is_split(token, first, second));
    lemma_split_of(token, first, second);
    assert(token.subrange(0, first) =~= header);
    assert(token.subrange(first + 1, second) =~= payload);
    assert(token.subrange(second + 1, token.len() as int) =~= signature);
    assert(token.subrange(0, second) =~= header + seq![DELIMITER] + payload);
}

/// Round trip. Take any claims and any key. A token whose payload encodes
/// the claims and whose signature encodes the code of header, delimiter and
/// payload under the key verifies, before the claims expire, to those very
/// claims.
pub proof fn lemma_round_trip(
    header: Seq<u8>,
    payload: Seq<u8>,
    signature: Seq<u8>,
    key: Seq<u8>,
    claims: ClaimsView,
    now: int,
)
    requires
        delimiter_free(header),
        delimiter_free(payload),
        delimiter_free(signature),
        base64url_decoded(header) is Some,
        base64url_decoded(payload) matches Some(body) && claims_of_payload(body) == Some(claims),
        base64url_decoded(signature) == Some(
            hmac_sha256(key, header + seq![DELIMITER] + payload),
        ),
        now < claims.expires_at,
    ensures
        verdict(assembled(header, payload, signature), key, now) == Ok::<ClaimsView, TokenError>(
            claims,
        ),
{
    lemma_assembled_splits(header, payload, signature);
}

/// A token that verifies under one key fails with `InvalidSignature` under
/// any key that gives another code for its signed part, whatever the time.
pub proof fn lemma_other_key_is_refused(
    token: Seq<u8>,
    key: Seq<u8>,
    other: Seq<u8>,
    now: int,
    later: int,
)
    requires
        verdict(token, key, now) is Ok,
        hmac_sha256(other, signed_part(token)) != hmac_sha256(key, signed_part(token)),
    ensures
        verdict(token, other, later) == Err::<ClaimsView, TokenError>(
            TokenError::InvalidSignature,
        ),
{
}

/// A token of the right shape and with the right signature whose claims
/// expire at `now` or earlier fails with `Expired`, and so never with
/// `InvalidSignature`.
pub proof fn lemma_expired_not_forged(
    header: Seq<u8>,
    payload: Seq<u8>,
    signature: Seq<u8>,
    key: Seq<u8>,
    claims: ClaimsView,
    now: int,
)
    requires
        delimiter_free(header),
        delimiter_free(payload),
        delimiter_free(signature),
        base64url_decoded(header) is Some,
        base64url_decoded(payload) matches Some(body) && claims_of_payload(body) == Some(claims),
        base64url_decoded(signature) == Some(
            hmac_sha256(key, header + seq![DELIMITER] + payload),
        ),
        claims.expires_at <= now,
    ensures
        verdict(assembled(header, payload, signature), key, now) == Err::<ClaimsView, TokenError>(
            TokenError::Expired,
        ),
{
    lemma_assembled_splits(header, payload, signature);
}

/// Only a genuine token expires: whenever the verdict is `Expired`, the
/// signature has been found to be the code of the signed part, and the same
/// token would have verified at some earlier time.
pub proof fn lemma_expired_is_genuine(token: Seq<u8>, key: Seq<u8>, now: int)
    requires
        verdict(token, key, now) == Err::<ClaimsView, TokenError>(TokenError::Expired),
    ensures
        genuine(token, key),
        exists|earlier: int| earlier < now && (#[trigger] verdict(token, key, earlier)) is Ok,
{
    let (first, second) = split_of(token)->0;
    let body = base64url_decoded(token.subrange(first + 1, second))->0;
    let claims = claims_of_payload(body)->0;
    assert(verdict(token, key, claims.expires_at - 1) is Ok);
}

/// A verdict of `Ok` or `Expired` is never given to a token that is not
/// genuine.
pub proof fn lemma_forged_is_refused(token: Seq<u8>, key: Seq<u8>, now: int)
    requires
        !genuine(token, key),
    ensures
        verdict(token, key, now) == Err::<ClaimsView, TokenError>(TokenError::Malformed)
            || verdict(token, key, now) == Err::<ClaimsView, TokenError>(
            TokenError::InvalidSignature,
        ),
{
}

/// Whether a result of verification is the one that its specification gives.
pub open spec fn agrees(got: Result<Claims, TokenError>, expected: Result<ClaimsView, TokenError>) -> bool {
    match expected {
        Ok(claims) => got matches Ok(c) && c@ == claims,
        Err(e) => got matches Err(g) && g == e,
    }
}

/// Turns the four values of a payload into claims. The values are refused as
/// malformed where there are none, or where the expiry is not after the time
/// of issue.
pub fn claims_from_fields(fields: Option<(String, Vec<String>, i64, i64)>) -> (r: Result<
    Claims,
    TokenError,
>)
    ensures
        r == match fields {
            Some(f) if f.3 > f.2 => Ok::<Claims, TokenError>(
                Claims { username: f.0, groups: f.1, issued_at: f.2, expires_at: f.3 },
            ),
            _ => Err::<Claims, TokenError>(TokenError::Malformed),
        },
{
    match fields {
        None => Err(TokenError::Malformed),
        Some((username, groups, issued_at, expires_at)) => {
            if expires_at > issued_at {
                Ok(Claims { username, groups, issued_at, expires_at })
            } else {
                Err(TokenError::Malformed)
            }
        },
    }
}

/// Holds claims against the clock: they are returned unchanged while `now`
/// is before their expiry, and are expired from then on.
pub fn check_expiry(claims: Claims, now: i64) -> (r: Result<Claims, TokenError>)
    ensures
        r == if claims.expires_at > now {
            Ok::<Claims, TokenError>(claims)
        } else {
            Err::<Claims, TokenError>(TokenError::Expired)
        },
{
    if claims.expires_at > now {
        Ok(claims)
    } else {
        Err(TokenError::Expired)
    }
}

/// Finds the JSON text of the member called `name`.
pub fn find_member<'a>(members: &'a Vec<(String, String)>, name: &str) -> (r: Option<&'a str>)
    ensures
        match member_of(pairs_view(members@), name@) {
            Some(raw) => r matches Some(got) && got@ == raw,
            None => r is None,
        },
{
    let ghost all = pairs_view(members@);
    let mut i: usize = 0;
    assert(all.skip(0) =~= all);
    while i < members.len()
        invariant
            i <= members.len(),
            all == pairs_view(members@),
            member_of(all, name@) == member_of(all.skip(i as int), name@),
        decreases members.len() - i,
    {
        let ghost rest = all.skip(i as int);
        assert(rest[0] == all[i as int]);
        assert(rest.drop_first() =~= all.skip(i + 1));
        if same_text(members[i].0.as_str(), name) {
            return Some(members[i].1.as_str());
        }
        i += 1;
    }
    None
}

/// Picks the four values of claims from the members of a payload, as
/// [`fields_of_members`] defines them.
pub fn fields_from_members(members: &Vec<(String, String)>) -> (r: Option<
    (String, Vec<String>, i64, i64),
>)
    ensures
        match fields_of_members(pairs_view(members@)) {
            Some(fields) => r matches Some(got) && (got.0@, got.1.deep_view(), got.2, got.3)
                == fields,
            None => r is None,
        },
{
    let username = find_member(members, "username");
    let groups = find_member(members, "groups");
    let issued_at = find_member(members, "issued_at");
    let expires_at = find_member(members, "expires_at");
    match (username, groups, issued_at, expires_at) {
        (Some(username), Some(groups), Some(issued_at), Some(expires_at)) => {
            match (
                parse_text(username),
                parse_text_list(groups),
                parse_integer(issued_at),
                parse_integer(expires_at),
            ) {
                (Some(u), Some(g), Some(i), Some(e)) => Some((u, g, i, e)),
                _ => None,
            }
        },
        _ => None,
    }
}

/// Reads the decoded payload of a token whose signature has been checked,
/// and holds the claims against the clock.
pub fn read_claims(payload: &[u8], now: i64) -> (r: Result<Claims, TokenError>)
    ensures
        agrees(r, admitted(claims_of_payload(payload@), now as int)),
        r matches Ok(c) ==> (c@.wf() && c@.expires_at > now),
{
    let fields = match parse_object(payload) {
        Some(members) => fields_from_members(&members),
        None => None,
    };
    match claims_from_fields(fields) {
        Ok(claims) => check_expiry(claims, now),
        Err(e) => Err(e),
    }
}

/// Verifies a token and returns its claims.
///
/// `token` is the text `header.payload.signature`, each part in base64url;
/// `now` is the current time in seconds since the Unix epoch. The result is
/// the [`verdict`] on the bytes of the token. No claim is read before the
/// signature has been found genuine, and claims are returned only when every
/// check has passed.
pub fn decode_and_verify(token: &str, key: &SecretKey, now: i64) -> (r: Result<Claims, TokenError>)
    ensures
        agrees(r, verdict(token.spec_bytes(), key@, now as int)),
        r matches Ok(c) ==> (c@.wf() && c@.expires_at > now),
{
    let bytes = token.as_bytes();
    let (first, second) = match split_token(bytes) {
        Some(places) => places,
        None => {
            return Err(TokenError::Malformed);
        },
    };
    assert(is_split(bytes@, first as int, second as int));
    assert(second < bytes.len());
    let header = slice_subrange(bytes, 0, first);
    let payload = slice_subrange(bytes, first + 1, second);
    let signature = slice_subrange(bytes, second + 1, bytes.len());
    let signed = slice_subrange(bytes, 0, second);
    if decode_base64url(header).is_none() {
        return Err(TokenError::Malformed);
    }
    let body = match decode_base64url(payload) {
        Some(body) => body,
        None => {
            return Err(TokenError::Malformed);
        },
    };
    let genuine = match decode_base64url(signature) {
        Some(tag) => key.verify(signed, tag.as_slice()),
        None => false,
    };
    if !genuine {
        return Err(TokenError::InvalidSignature);
    }
    read_claims(body.as_slice(), now)
}

} // verus!
