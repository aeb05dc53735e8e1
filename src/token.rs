//! Signed, time-bounded session tokens (HS256 JSON web tokens).
use vstd::prelude::*;
use crate::error::ServiceError;

verus! {

/// Lifetime of an access token: one hour.
pub const ACCESS_TTL_SECS: u64 = 3600;

/// Lifetime of a refresh token: seven days.
pub const REFRESH_TTL_SECS: u64 = 604800;

/// The payload of a session token.
pub struct Claims {
    /// Subject: the text of the account id.
    pub sub: String,
    /// Expiry, in seconds since the epoch.
    pub exp: usize,
    /// Issue time, in seconds since the epoch.
    pub iat: usize,
    /// The realm that the token is scoped to, if any.
    pub realm_id: Option<String>,
}

pub ghost struct ClaimsModel {
    pub sub: Seq<char>,
    pub exp: usize,
    pub iat: usize,
    pub realm_id: Option<Seq<char>>,
}

pub open spec fn opt_view(o: Option<String>) -> Option<Seq<char>> {
    match o {
        Some(s) => Some(s@),
        None => None,
    }
}

impl View for Claims {
    type V = ClaimsModel;

    open spec fn view(&self) -> ClaimsModel {
        ClaimsModel { sub: self.sub@, exp: self.exp, iat: self.iat, realm_id: opt_view(self.realm_id) }
    }
}

/// The token that signing these claims with this secret gives.
pub uninterp spec fn signed_token(c: ClaimsModel, secret: Seq<char>) -> Seq<char>;

/// The claims that a token carries when its signature checks out under this
/// secret and its payload is well formed; `None` otherwise.
pub uninterp spec fn claims_in(token: Seq<char>, secret: Seq<char>) -> Option<ClaimsModel>;

/// What verification accepts at time `now`: the carried claims, while they
/// have not expired.
pub open spec fn verified_claims(token: Seq<char>, secret: Seq<char>, now: usize) -> Option<ClaimsModel> {
    match claims_in(token, secret) {
        Some(c) => if now < c.exp { Some(c) } else { None },
        None => None,
    }
}

/// Relies on `jsonwebtoken::encode` with the default HS256 header: the claims
/// as a JSON object, signed with the secret. An HMAC key of any length is
/// accepted and a JSON object always serialises, so encoding succeeds.
/// `jsonwebtoken::decode` under the same secret gives those claims back.
#[verifier::external_body]
fn encode_claims(c: &Claims, secret: &str) -> (r: Option<String>)
    ensures
        r is Some,
        r matches Some(t) ==> t@ == signed_token(c@, secret@) && claims_in(t@, secret@) == Some(c@),
{
    let mut m = serde_json::Map::new();
    m.insert("sub".to_owned(), c.sub.clone().into());
    m.insert("exp".to_owned(), c.exp.into());
    m.insert("iat".to_owned(), c.iat.into());
    m.insert("realm_id".to_owned(), c.realm_id.clone().into());
    let key = jsonwebtoken::EncodingKey::from_secret(secret.as_bytes());
    jsonwebtoken::encode(&jsonwebtoken::Header::default(), &m, &key).ok()
}

/// Relies on `jsonwebtoken::decode` with HS256, the expiry left to the
/// caller: the claims when the signature checks out under the secret.
#[verifier::external_body]
fn decode_claims(token: &str, secret: &str) -> (r: Option<Claims>)
    ensures
        opt_claims_view(r) == claims_in(token@, secret@),
{
    let mut v = jsonwebtoken::Validation::new(jsonwebtoken::Algorithm::HS256);
    v.validate_exp = false;
    let key = jsonwebtoken::DecodingKey::from_secret(secret.as_bytes());
    let m = jsonwebtoken::decode::<serde_json::Map<String, serde_json::Value>>(token, &key, &v).ok()?.claims;
    let sub = m.get("sub")?.as_str()?.to_owned();
    let exp = m.get("exp")?.as_u64()? as usize;
    let iat = m.get("iat")?.as_u64()? as usize;
    let realm_id = m.get("realm_id").and_then(serde_json::Value::as_str).map(str::to_owned);
    Some(Claims { sub, exp, iat, realm_id })
}

pub open spec fn opt_claims_view(o: Option<Claims>) -> Option<ClaimsModel> {
    match o {
        Some(c) => Some(c@),
        None => None,
    }
}

/// The claims that `sign_token` puts in a token.
pub open spec fn issued_claims(sub: Seq<char>, now: usize, ttl: u64, realm_id: Option<Seq<char>>) -> ClaimsModel {
    ClaimsModel { sub, exp: (now + ttl) as usize, iat: now, realm_id }
}

pub open spec fn opt_str_view(o: Option<&str>) -> Option<Seq<char>> {
    match o {
        Some(s) => Some(s@),
        None => None,
    }
}

/// Issues a token for `user_id` at time `now`, valid for `duration_secs`,
/// scoped to `realm_id` when one is given.
pub fn sign_token(user_id: &str, secret: &str, duration_secs: u64, realm_id: Option<&str>, now: usize) -> (r: Result<String, ServiceError>)
    ensures
        now + duration_secs > usize::MAX ==> r == Err::<String, ServiceError>(ServiceError::Invalid),
        now + duration_secs <= usize::MAX ==> r is Ok,
        r matches Ok(t) ==> {
            &&& now + duration_secs <= usize::MAX
            &&& t@ == signed_token(issued_claims(user_id@, now, duration_secs, opt_str_view(realm_id)), secret@)
            &&& claims_in(t@, secret@) == Some(issued_claims(user_id@, now, duration_secs, opt_str_view(realm_id)))
        },
{
    if duration_secs > (usize::MAX - now) as u64 {
        return Err(ServiceError::Invalid);
    }
    let realm = match realm_id {
        Some(s) => Some(s.to_owned()),
        None => None,
    };
    let claims = Claims { sub: user_id.to_owned(), exp: now + duration_secs as usize, iat: now, realm_id: realm };
    proof {
        assert(claims@ == issued_claims(user_id@, now, duration_secs, opt_str_view(realm_id)));
    }
    match encode_claims(&claims, secret) {
        Some(t) => Ok(t),
        None => Err(ServiceError::Internal),
    }
}

/// Checks a token's signature under `secret` and its expiry against `now`;
/// any failure is `Forbidden`, with no hint of its cause.
pub fn verify_token(token: &str, secret: &str, now: usize) -> (r: Result<Claims, ServiceError>)
    ensures
        match r {
            Ok(c) => verified_claims(token@, secret@, now) == Some(c@),
            Err(e) => verified_claims(token@, secret@, now) is None && e == ServiceError::Forbidden,
        },
{
    match decode_claims(token, secret) {
        Some(c) => {
            if now < c.exp {
                Ok(c)
            } else {
                Err(ServiceError::Forbidden)
            }
        },
        None => Err(ServiceError::Forbidden),
    }
}

/// A token issued for some claims verifies, under the same secret, to exactly
/// those claims before their expiry, and not from the expiry on.
pub proof fn lemma_issued_token_round_trip(token: Seq<char>, secret: Seq<char>, c: ClaimsModel, now: usize)
    requires
        claims_in(token, secret) == Some(c),
    ensures
        now < c.exp ==> verified_claims(token, secret, now) == Some(c),
        now >= c.exp ==> verified_claims(token, secret, now) is None,
{
}

} // verus!
