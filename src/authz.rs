//! The authorization resolver: from a bearer token and an optional realm to
//! an authorized account and realm, or a denial.
use vstd::prelude::*;
use vstd::string::*;
use crate::error::ServiceError;
use crate::ids::{parse_id, uuid_text, uuid_value};
use crate::model::{Grant, Store, has_grant};
use crate::token::{claims_in, verified_claims, verify_token, ClaimsModel};

verus! {

/// The request headers that identity is read from.
pub struct Headers {
    /// The value of the `Authorization` header, when present and readable.
    pub authorization: Option<String>,
}

pub open spec fn bearer_prefix() -> Seq<char> {
    seq!['B', 'e', 'a', 'r', 'e', 'r', ' ']
}

/// The token that an `Authorization` value carries after `Bearer `.
pub open spec fn bearer_token(h: Seq<char>) -> Option<Seq<char>> {
    if h.len() >= 7 && h.subrange(0, 7) == bearer_prefix() {
        Some(h.subrange(7, h.len() as int))
    } else {
        None
    }
}

/// The account that the headers authenticate at time `now`.
pub open spec fn authenticated(auth: Option<String>, secret: Seq<char>, now: usize) -> Option<u128> {
    match auth {
        None => None,
        Some(h) => match bearer_token(h@) {
            None => None,
            Some(t) => match verified_claims(t, secret, now) {
                None => None,
                Some(c) => uuid_value(c.sub),
            },
        },
    }
}

/// The token after `Bearer ` in an `Authorization` value.
pub fn bearer_token_of(h: &str) -> (r: Option<&str>)
    ensures
        match r {
            Some(t) => bearer_token(h@) == Some(t@),
            None => bearer_token(h@) is None,
        },
{
    let n = h.unicode_len();
    if n < 7 {
        return None;
    }
    let p = "Bearer ";
    proof {
        reveal_strlit("Bearer ");
        assert(p@ =~= bearer_prefix());
    }
    let mut i: usize = 0;
    while i < 7
        invariant
            n == h@.len(),
            n >= 7,
            p@ == bearer_prefix(),
            0 <= i <= 7,
            forall|j: int| 0 <= j < i ==> h@[j] == bearer_prefix()[j],
        decreases 7 - i,
    {
        if h.get_char(i) != p.get_char(i) {
            assert(h@.subrange(0, 7)[i as int] != bearer_prefix()[i as int]);
            return None;
        }
        i = i + 1;
    }
    assert(h@.subrange(0, 7) =~= bearer_prefix());
    Some(h.substring_char(7, n))
}

/// Resolves the account that a bearer token in the headers names; a missing
/// header, a missing `Bearer ` prefix, a token that does not verify or a
/// subject that is no id are all `Forbidden`.
pub fn extract_account_id_from_headers(headers: &Headers, jwt_secret: &str, now: usize) -> (r: Result<u128, ServiceError>)
    ensures
        match authenticated(headers.authorization, jwt_secret@, now) {
            Some(a) => r == Ok::<u128, ServiceError>(a),
            None => r == Err::<u128, ServiceError>(ServiceError::Forbidden),
        },
{
    let auth = match &headers.authorization {
        Some(h) => h.as_str(),
        None => return Err(ServiceError::Forbidden),
    };
    let token = match bearer_token_of(auth) {
        Some(t) => t,
        None => return Err(ServiceError::Forbidden),
    };
    let claims = match verify_token(token, jwt_secret, now) {
        Ok(c) => c,
        Err(_) => return Err(ServiceError::Forbidden),
    };
    match parse_id(claims.sub.as_str()) {
        Some(a) => Ok(a),
        None => Err(ServiceError::Forbidden),
    }
}

/// A bearer header carrying a token issued for an account's id text
/// authenticates that account until the token's expiry.
pub proof fn lemma_issued_token_authenticates(h: String, token: Seq<char>, secret: Seq<char>, c: ClaimsModel, account: u128, now: usize)
    requires
        h@ == bearer_prefix() + token,
        claims_in(token, secret) == Some(c),
        c.sub == uuid_text(account),
        uuid_value(uuid_text(account)) == Some(account),
        now < c.exp,
    ensures
        authenticated(Some(h), secret, now) == Some(account),
{
    assert(h@.subrange(0, 7) =~= bearer_prefix());
    assert(h@.subrange(7, h@.len() as int) =~= token);
}

/// The realm of the account's earliest grant.
pub open spec fn first_realm(g: Seq<Grant>, account: u128) -> Option<u128>
    decreases g.len(),
{
    if g.len() == 0 {
        None
    } else if g[0].account_id == account {
        Some(g[0].realm_id)
    } else {
        first_realm(g.drop_first(), account)
    }
}

/// The realm that a request acts in: the one it names, when the account has
/// a grant there; else, when it names none, the realm of the earliest grant.
pub open spec fn scoped_realm(g: Seq<Grant>, account: u128, requested: Seq<char>) -> Result<u128, ServiceError> {
    if requested.len() == 0 {
        match first_realm(g, account) {
            Some(r) => Ok(r),
            None => Err(ServiceError::Forbidden),
        }
    } else {
        match uuid_value(requested) {
            None => Err(ServiceError::Invalid),
            Some(r) => if has_grant(g, account, r) {
                Ok(r)
            } else {
                Err(ServiceError::Forbidden)
            },
        }
    }
}

/// The earliest grant's realm is one the account holds a grant in, and there
/// is one exactly when the account holds any grant.
pub proof fn lemma_first_realm(g: Seq<Grant>, account: u128)
    ensures
        first_realm(g, account) matches Some(r) ==> has_grant(g, account, r),
        first_realm(g, account) is None <==> forall|i: int| 0 <= i < g.len() ==> (#[trigger] g[i]).account_id != account,
    decreases g.len(),
{
    if g.len() > 0 {
        lemma_first_realm(g.drop_first(), account);
        if g[0].account_id != account {
            if let Some(r) = first_realm(g, account) {
                let i = choose|i: int| 0 <= i < g.drop_first().len() && (#[trigger] g.drop_first()[i]).account_id == account
                    && g.drop_first()[i].realm_id == r;
                assert(g[i + 1] == g.drop_first()[i]);
            }
            assert forall|i: int| 0 <= i < g.len() && (#[trigger] g[i]).account_id == account implies
                first_realm(g, account) is Some by {
                assert(g[i] == g.drop_first()[i - 1]);
            }
            assert((forall|i: int| 0 <= i < g.drop_first().len() ==> (#[trigger] g.drop_first()[i]).account_id != account)
                ==> (forall|i: int| 0 <= i < g.len() ==> (#[trigger] g[i]).account_id != account)) by {
                if forall|i: int| 0 <= i < g.drop_first().len() ==> (#[trigger] g.drop_first()[i]).account_id != account {
                    assert forall|i: int| 0 <= i < g.len() implies (#[trigger] g[i]).account_id != account by {
                        if i > 0 {
                            assert(g[i] == g.drop_first()[i - 1]);
                        }
                    }
                }
            }
        } else {
            assert(has_grant(g, account, g[0].realm_id));
        }
    }
}

/// A caller that names a realm it holds no grant in is denied, whatever
/// grants it holds in other realms.
pub proof fn lemma_foreign_realm_denied(g: Seq<Grant>, account: u128, requested: Seq<char>, realm: u128)
    requires
        requested.len() > 0,
        uuid_value(requested) == Some(realm),
        !has_grant(g, account, realm),
    ensures
        scoped_realm(g, account, requested) == Err::<u128, ServiceError>(ServiceError::Forbidden),
{
}

impl Store {
    /// The realm of the account's earliest grant; `Forbidden` when it holds none.
    pub fn extract_realm_id_from_account(&self, account_id: u128) -> (r: Result<u128, ServiceError>)
        ensures
            match first_realm(self.grants@, account_id) {
                Some(x) => r == Ok::<u128, ServiceError>(x),
                None => r == Err::<u128, ServiceError>(ServiceError::Forbidden),
            },
    {
        let mut i: usize = 0;
        assert(self.grants@.subrange(0, self.grants@.len() as int) =~= self.grants@);
        while i < self.grants.len()
            invariant
                0 <= i <= self.grants@.len(),
                first_realm(self.grants@, account_id) == first_realm(
                    self.grants@.subrange(i as int, self.grants@.len() as int),
                    account_id,
                ),
            decreases self.grants@.len() - i,
        {
            let ghost rest = self.grants@.subrange(i as int, self.grants@.len() as int);
            if self.grants[i].account_id == account_id {
                assert(rest[0] == self.grants@[i as int]);
                return Ok(self.grants[i].realm_id);
            }
            assert(rest.drop_first() =~= self.grants@.subrange(i + 1, self.grants@.len() as int));
            i = i + 1;
        }
        assert(self.grants@.subrange(i as int, self.grants@.len() as int).len() == 0);
        Err(ServiceError::Forbidden)
    }

    /// Whether the account holds any role in the realm.
    pub fn has_access(&self, account_id: u128, realm_id: u128) -> (r: bool)
        ensures
            r == has_grant(self.grants@, account_id, realm_id),
    {
        let mut i: usize = 0;
        while i < self.grants.len()
            invariant
                0 <= i <= self.grants@.len(),
                forall|j: int| 0 <= j < i ==> !((#[trigger] self.grants@[j]).account_id == account_id
                    && self.grants@[j].realm_id == realm_id),
            decreases self.grants@.len() - i,
        {
            if self.grants[i].account_id == account_id && self.grants[i].realm_id == realm_id {
                return true;
            }
            i = i + 1;
        }
        false
    }

    /// The realm a request acts in: the named one if the account holds a role
    /// there (`Invalid` if the name is no id, `Forbidden` if no grant), or the
    /// realm of its earliest grant when none is named.
    pub fn resolve_realm(&self, account_id: u128, realm_id: &str) -> (r: Result<u128, ServiceError>)
        ensures
            r == scoped_realm(self.grants@, account_id, realm_id@),
    {
        if realm_id.is_empty() {
            return self.extract_realm_id_from_account(account_id);
        }
        match parse_id(realm_id) {
            None => Err(ServiceError::Invalid),
            Some(x) => {
                if self.has_access(account_id, x) {
                    Ok(x)
                } else {
                    Err(ServiceError::Forbidden)
                }
            },
        }
    }
}

} // verus!
