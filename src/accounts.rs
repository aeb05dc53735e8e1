//! The account manager: registration, login, token refresh, logout and the
//! caller's own account.
use vstd::prelude::*;
use crate::authz::{authenticated, extract_account_id_from_headers, Headers};
use crate::error::ServiceError;
use crate::ids::{id_text, parse_id, uuid_text, uuid_value};
use crate::model::{Account, Grant, Store, has_account, has_grant, identity_taken, text_eq};
use crate::timestamp::{rfc3339_text, timestamp_text};
use crate::token::{
    claims_in, issued_claims, sign_token, signed_token, verified_claims, verify_token, ACCESS_TTL_SECS, REFRESH_TTL_SECS,
};

verus! {

pub struct RegisterRequest {
    pub email: String,
    pub username: String,
    pub password: String,
}

pub struct RegisterResponse {
    pub success: bool,
    pub message: String,
}

/// The public face of an account.
pub struct AccountInfo {
    pub id: String,
    pub email: String,
    pub username: String,
    pub created_at: String,
}

pub struct LoginResponse {
    pub success: bool,
    pub account: Option<AccountInfo>,
    pub access_token: String,
    pub refresh_token: String,
}

pub struct RefreshTokenResponse {
    pub success: bool,
    pub access_token: String,
    pub refresh_token: String,
}

pub struct LogoutResponse {
    pub success: bool,
}

/// The account row that a successful registration adds.
pub open spec fn registered_account(request: RegisterRequest, password_hash: String, id: u128, now: usize) -> Account {
    Account {
        id,
        username: request.username,
        email: request.email,
        password_hash: Some(password_hash),
        email_verified: false,
        is_active: true,
        created_at: now,
        updated_at: now,
        last_login_at: None,
    }
}

/// The index of the account with this email, if there is one.
pub open spec fn account_index_by_email(s: Seq<Account>, email: Seq<char>) -> Option<int> {
    if exists|i: int| 0 <= i < s.len() && (#[trigger] s[i]).email@ == email {
        Some(choose|i: int| 0 <= i < s.len() && (#[trigger] s[i]).email@ == email)
    } else {
        None
    }
}

/// The realm scope that a refresh asks for: none when `realm_id` is empty,
/// else the named realm, which must be an id that the subject holds a grant in.
pub open spec fn refresh_scope(grants: Seq<Grant>, sub: Seq<char>, realm_id: Seq<char>) -> Result<
    Option<Seq<char>>,
    ServiceError,
> {
    if realm_id.len() == 0 {
        Ok(None)
    } else {
        match uuid_value(realm_id) {
            None => Err(ServiceError::Invalid),
            Some(realm) => match uuid_value(sub) {
                None => Err(ServiceError::Invalid),
                Some(a) => if has_grant(grants, a, realm) {
                    Ok(Some(realm_id))
                } else {
                    Err(ServiceError::Forbidden)
                },
            },
        }
    }
}

/// The text of an instant, empty when it has none.
pub open spec fn instant_text(secs: usize) -> Seq<char> {
    match rfc3339_text(secs) {
        Some(t) => t,
        None => Seq::<char>::empty(),
    }
}

pub open spec fn info_matches(i: AccountInfo, a: Account) -> bool {
    &&& i.id@ == uuid_text(a.id)
    &&& i.email@ == a.email@
    &&& i.username@ == a.username@
    &&& i.created_at@ == instant_text(a.created_at)
}

/// A registered account blocks every later registration with its email or
/// its username.
pub proof fn lemma_registered_identity_taken(accounts: Seq<Account>, a: Account, email: Seq<char>, username: Seq<char>)
    requires
        a.email@ == email || a.username@ == username,
    ensures
        identity_taken(accounts.push(a), email, username),
{
    assert(accounts.push(a)[accounts.len() as int] == a);
}

/// The public face of an account.
pub fn account_info(a: &Account) -> (r: AccountInfo)
    ensures
        info_matches(r, *a),
{
    AccountInfo {
        id: id_text(a.id),
        email: a.email.clone(),
        username: a.username.clone(),
        created_at: timestamp_text(a.created_at),
    }
}

fn failed_login() -> (r: LoginResponse)
    ensures
        !r.success,
        r.account is None,
        r.access_token@.len() == 0,
        r.refresh_token@.len() == 0,
{
    LoginResponse { success: false, account: None, access_token: String::new(), refresh_token: String::new() }
}

impl Store {
    /// The index of the account with this email.
    pub fn find_account_by_email(&self, email: &str) -> (r: Option<usize>)
        requires
            self.wf(),
        ensures
            match r {
                Some(i) => account_index_by_email(self.accounts@, email@) == Some(i as int) && i < self.accounts@.len(),
                None => account_index_by_email(self.accounts@, email@) is None,
            },
    {
        let mut i: usize = 0;
        while i < self.accounts.len()
            invariant
                self.wf(),
                0 <= i <= self.accounts@.len(),
                forall|j: int| 0 <= j < i ==> (#[trigger] self.accounts@[j]).email@ != email@,
            decreases self.accounts@.len() - i,
        {
            if text_eq(self.accounts[i].email.as_str(), email) {
                let ghost k = choose|k: int| 0 <= k < self.accounts@.len() && (#[trigger] self.accounts@[k]).email@
                    == email@;
                assert(k == i) by {
                    if k != i {
                        assert(self.accounts@[k].email@ != self.accounts@[i as int].email@);
                    }
                }
                return Some(i);
            }
            i = i + 1;
        }
        None
    }

    /// The index of the account with this id.
    pub fn find_account(&self, id: u128) -> (r: Option<usize>)
        ensures
            match r {
                Some(i) => i < self.accounts@.len() && self.accounts@[i as int].id == id,
                None => !has_account(self.accounts@, id),
            },
    {
        let mut i: usize = 0;
        while i < self.accounts.len()
            invariant
                0 <= i <= self.accounts@.len(),
                forall|j: int| 0 <= j < i ==> (#[trigger] self.accounts@[j]).id != id,
            decreases self.accounts@.len() - i,
        {
            if self.accounts[i].id == id {
                return Some(i);
            }
            i = i + 1;
        }
        None
    }

    /// Whether an account with this email or this username exists.
    pub fn identity_exists(&self, email: &str, username: &str) -> (r: bool)
        ensures
            r == identity_taken(self.accounts@, email@, username@),
    {
        let mut i: usize = 0;
        while i < self.accounts.len()
            invariant
                0 <= i <= self.accounts@.len(),
                forall|j: int|
                    0 <= j < i ==> (#[trigger] self.accounts@[j]).email@ != email@ && self.accounts@[j].username@
                        != username@,
            decreases self.accounts@.len() - i,
        {
            if text_eq(self.accounts[i].email.as_str(), email) || text_eq(self.accounts[i].username.as_str(), username) {
                return true;
            }
            i = i + 1;
        }
        false
    }

    /// Registers an account with the digest of its password. Empty fields are
    /// `Invalid`; an email or username already in use gives `success: false`
    /// and leaves the store as it was.
    pub fn register(&mut self, request: RegisterRequest, password_hash: String, id: u128, now: usize) -> (r: Result<
        RegisterResponse,
        ServiceError,
    >)
        requires
            old(self).wf(),
        ensures
            final(self).wf(),
            request.email@.len() == 0 || request.username@.len() == 0 || request.password@.len() == 0 ==> {
                &&& r == Err::<RegisterResponse, ServiceError>(ServiceError::Invalid)
                &&& *final(self) == *old(self)
            },
            request.email@.len() > 0 && request.username@.len() > 0 && request.password@.len() > 0 ==> {
                if identity_taken(old(self).accounts@, request.email@, request.username@) {
                    &&& r matches Ok(resp) && !resp.success && resp.message@ == "Account already exists"@
                    &&& *final(self) == *old(self)
                } else if has_account(old(self).accounts@, id) {
                    &&& r == Err::<RegisterResponse, ServiceError>(ServiceError::Internal)
                    &&& *final(self) == *old(self)
                } else {
                    &&& r matches Ok(resp) && resp.success && resp.message@ == "Registration successful"@
                    &&& final(self).accounts@ == old(self).accounts@.push(
                        registered_account(request, password_hash, id, now),
                    )
                    &&& final(self).realms == old(self).realms
                    &&& final(self).roles == old(self).roles
                    &&& final(self).grants == old(self).grants
                    &&& final(self).bridges == old(self).bridges
                    &&& final(self).bots == old(self).bots
                }
            },
    {
        if request.email.as_str().is_empty() || request.password.as_str().is_empty() || request.username.as_str().is_empty() {
            return Err(ServiceError::Invalid);
        }
        if self.identity_exists(request.email.as_str(), request.username.as_str()) {
            return Ok(RegisterResponse { success: false, message: "Account already exists".to_owned() });
        }
        if self.find_account(id).is_some() {
            return Err(ServiceError::Internal);
        }
        let ghost acct = registered_account(request, password_hash, id, now);
        let account = Account {
            id,
            username: request.username,
            email: request.email,
            password_hash: Some(password_hash),
            email_verified: false,
            is_active: true,
            created_at: now,
            updated_at: now,
            last_login_at: None,
        };
        let ghost pre = self.accounts@;
        self.accounts.push(account);
        proof {
            let s = self.accounts@;
            assert(s[pre.len() as int] == acct);
            assert forall|i: int, j: int|
                #![trigger s[i], s[j]]
                0 <= i < s.len() && 0 <= j < s.len() && i != j implies s[i].id != s[j].id && s[i].email@
                    != s[j].email@ && s[i].username@ != s[j].username@ by {
                if i < pre.len() && j < pre.len() {
                    assert(pre[i] == s[i] && pre[j] == s[j]);
                } else if i < pre.len() {
                    assert(pre[i] == s[i]);
                } else {
                    assert(pre[j] == s[j]);
                }
            }
            assert forall|i: int| 0 <= i < self.grants@.len() implies has_account(
                self.accounts@,
                (#[trigger] self.grants@[i]).account_id,
            ) by {
                let k = choose|k: int| 0 <= k < pre.len() && (#[trigger] pre[k]).id == self.grants@[i].account_id;
                assert(s[k] == pre[k]);
            }
        }
        Ok(RegisterResponse { success: true, message: "Registration successful".to_owned() })
    }

    /// The password digest that a login with this email is checked against:
    /// `None` when no account has the email or the account has no password.
    pub fn login_password_hash(&self, email: &str) -> (r: Option<String>)
        requires
            self.wf(),
        ensures
            r == match account_index_by_email(self.accounts@, email@) {
                Some(i) => self.accounts@[i].password_hash,
                None => None,
            },
    {
        match self.find_account_by_email(email) {
            Some(i) => match &self.accounts[i].password_hash {
                Some(h) => Some(h.clone()),
                None => None,
            },
            None => None,
        }
    }

    /// Logs in by email. `password_valid` is the credential store's verdict on
    /// the password against `login_password_hash(email)`. An unknown email, an
    /// account without a password or a wrong password give `success: false`,
    /// no token, and an unchanged store. Otherwise the account's last login
    /// becomes `now` and an access and a refresh token are issued.
    pub fn login(&mut self, email: &str, password_valid: bool, jwt_secret: &str, now: usize) -> (r: Result<
        LoginResponse,
        ServiceError,
    >)
        requires
            old(self).wf(),
        ensures
            final(self).wf(),
            match account_index_by_email(old(self).accounts@, email@) {
                None => r matches Ok(resp) && !resp.success && resp.account is None && resp.access_token@.len() == 0
                    && resp.refresh_token@.len() == 0 && *final(self) == *old(self),
                Some(i) => if old(self).accounts@[i].password_hash is None || !password_valid {
                    r matches Ok(resp) && !resp.success && resp.account is None && resp.access_token@.len() == 0
                        && resp.refresh_token@.len() == 0 && *final(self) == *old(self)
                } else if now + REFRESH_TTL_SECS > usize::MAX {
                    r == Err::<LoginResponse, ServiceError>(ServiceError::Invalid) && *final(self) == *old(self)
                } else {
                    let a = old(self).accounts@[i];
                    let access = issued_claims(uuid_text(a.id), now, ACCESS_TTL_SECS, None);
                    let refresh = issued_claims(uuid_text(a.id), now, REFRESH_TTL_SECS, None);
                    &&& r matches Ok(resp) && {
                        &&& resp.success
                        &&& resp.account matches Some(info) && info_matches(info, a)
                        &&& resp.access_token@ == signed_token(access, jwt_secret@)
                        &&& claims_in(resp.access_token@, jwt_secret@) == Some(access)
                        &&& resp.refresh_token@ == signed_token(refresh, jwt_secret@)
                        &&& claims_in(resp.refresh_token@, jwt_secret@) == Some(refresh)
                    }
                    &&& final(self).accounts@ == old(self).accounts@.update(i, Account { last_login_at: Some(now), ..a })
                    &&& final(self).realms == old(self).realms
                    &&& final(self).roles == old(self).roles
                    &&& final(self).grants == old(self).grants
                    &&& final(self).bridges == old(self).bridges
                    &&& final(self).bots == old(self).bots
                },
            },
    {
        let i = match self.find_account_by_email(email) {
            Some(i) => i,
            None => return Ok(failed_login()),
        };
        if self.accounts[i].password_hash.is_none() || !password_valid {
            return Ok(failed_login());
        }
        if REFRESH_TTL_SECS > (usize::MAX - now) as u64 {
            return Err(ServiceError::Invalid);
        }
        let sub = id_text(self.accounts[i].id);
        let access_token = match sign_token(sub.as_str(), jwt_secret, ACCESS_TTL_SECS, None, now) {
            Ok(t) => t,
            Err(e) => return Err(e),
        };
        let refresh_token = match sign_token(sub.as_str(), jwt_secret, REFRESH_TTL_SECS, None, now) {
            Ok(t) => t,
            Err(e) => return Err(e),
        };
        let ghost pre = self.accounts@;
        self.accounts[i].last_login_at = Some(now);
        proof {
            let s = self.accounts@;
            assert(s =~= pre.update(i as int, Account { last_login_at: Some(now), ..pre[i as int] }));
            assert forall|a: int, b: int|
                #![trigger s[a], s[b]]
                0 <= a < s.len() && 0 <= b < s.len() && a != b implies s[a].id != s[b].id && s[a].email@
                    != s[b].email@ && s[a].username@ != s[b].username@ by {
                assert(pre[a].id != pre[b].id);
            }
            assert forall|k: int| 0 <= k < self.grants@.len() implies has_account(
                self.accounts@,
                (#[trigger] self.grants@[k]).account_id,
            ) by {
                let m = choose|m: int| 0 <= m < pre.len() && (#[trigger] pre[m]).id == self.grants@[k].account_id;
                assert(s[m].id == pre[m].id);
            }
        }
        let info = account_info(&self.accounts[i]);
        Ok(LoginResponse { success: true, account: Some(info), access_token, refresh_token })
    }

    /// Exchanges a refresh token for a fresh access token and a rotated refresh
    /// token, both scoped to `realm_id` when it is not empty. A token that does
    /// not verify is `Forbidden`; a realm id or a subject that is no id is
    /// `Invalid`; a realm the account holds no role in is `Forbidden`.
    pub fn refresh_token(&self, refresh_token: &str, realm_id: &str, jwt_secret: &str, now: usize) -> (r: Result<
        RefreshTokenResponse,
        ServiceError,
    >)
        ensures
            match verified_claims(refresh_token@, jwt_secret@, now) {
                None => r == Err::<RefreshTokenResponse, ServiceError>(ServiceError::Forbidden),
                Some(c) => match refresh_scope(self.grants@, c.sub, realm_id@) {
                    Err(e) => r == Err::<RefreshTokenResponse, ServiceError>(e),
                    Ok(realm) => if now + REFRESH_TTL_SECS > usize::MAX {
                        r == Err::<RefreshTokenResponse, ServiceError>(ServiceError::Invalid)
                    } else {
                        let access = issued_claims(c.sub, now, ACCESS_TTL_SECS, realm);
                        let refresh = issued_claims(c.sub, now, REFRESH_TTL_SECS, realm);
                        r matches Ok(resp) && {
                            &&& resp.success
                            &&& resp.access_token@ == signed_token(access, jwt_secret@)
                            &&& claims_in(resp.access_token@, jwt_secret@) == Some(access)
                            &&& resp.refresh_token@ == signed_token(refresh, jwt_secret@)
                            &&& claims_in(resp.refresh_token@, jwt_secret@) == Some(refresh)
                        }
                    },
                },
            },
    {
        let claims = match verify_token(refresh_token, jwt_secret, now) {
            Ok(c) => c,
            Err(_) => return Err(ServiceError::Forbidden),
        };
        let realm: Option<&str> = if !realm_id.is_empty() {
            let requested = match parse_id(realm_id) {
                Some(x) => x,
                None => return Err(ServiceError::Invalid),
            };
            let account_id = match parse_id(claims.sub.as_str()) {
                Some(a) => a,
                None => return Err(ServiceError::Invalid),
            };
            if !self.has_access(account_id, requested) {
                return Err(ServiceError::Forbidden);
            }
            Some(realm_id)
        } else {
            None
        };
        if REFRESH_TTL_SECS > (usize::MAX - now) as u64 {
            return Err(ServiceError::Invalid);
        }
        let access_token = match sign_token(claims.sub.as_str(), jwt_secret, ACCESS_TTL_SECS, realm, now) {
            Ok(t) => t,
            Err(e) => return Err(e),
        };
        let new_refresh_token = match sign_token(claims.sub.as_str(), jwt_secret, REFRESH_TTL_SECS, realm, now) {
            Ok(t) => t,
            Err(e) => return Err(e),
        };
        Ok(RefreshTokenResponse { success: true, access_token, refresh_token: new_refresh_token })
    }

    /// The account that the bearer token names: `Forbidden` when the token
    /// does not authenticate, `NotFound` when no such account exists.
    pub fn me(&self, headers: &Headers, jwt_secret: &str, now: usize) -> (r: Result<AccountInfo, ServiceError>)
        requires
            self.wf(),
        ensures
            match authenticated(headers.authorization, jwt_secret@, now) {
                None => r == Err::<AccountInfo, ServiceError>(ServiceError::Forbidden),
                Some(a) => if has_account(self.accounts@, a) {
                    r matches Ok(info) && exists|i: int|
                        0 <= i < self.accounts@.len() && (#[trigger] self.accounts@[i]).id == a && info_matches(
                            info,
                            self.accounts@[i],
                        )
                } else {
                    r == Err::<AccountInfo, ServiceError>(ServiceError::NotFound)
                },
            },
    {
        let account_id = match extract_account_id_from_headers(headers, jwt_secret, now) {
            Ok(a) => a,
            Err(e) => return Err(e),
        };
        match self.find_account(account_id) {
            Some(i) => Ok(account_info(&self.accounts[i])),
            None => Err(ServiceError::NotFound),
        }
    }
}

/// Acknowledges a logout: tokens are stateless and cannot be revoked here.
pub fn logout() -> (r: LogoutResponse)
    ensures
        r.success,
{
    LogoutResponse { success: true }
}

} // verus!
