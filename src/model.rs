//! The rows of the relational store and the invariants that tie them together.
use vstd::prelude::*;

verus! {

/// A user account; realm-independent.
pub struct Account {
    pub id: u128,
    pub username: String,
    pub email: String,
    /// Absent for accounts that only sign in through a federated provider.
    pub password_hash: Option<String>,
    pub email_verified: bool,
    pub is_active: bool,
    pub created_at: usize,
    pub updated_at: usize,
    pub last_login_at: Option<usize>,
}

/// A tenant.
pub struct Realm {
    pub id: u128,
    pub name: String,
    pub display_name: String,
    pub description: Option<String>,
    pub is_active: bool,
    pub created_by: Option<u128>,
    pub created_at: usize,
    pub updated_at: usize,
}

/// A named permission bundle scoped to one realm.
pub struct Role {
    pub id: u128,
    pub realm_id: u128,
    pub name: String,
    pub description: Option<String>,
    pub created_at: usize,
}

/// A role granted to an account within a realm.
pub struct Grant {
    pub account_id: u128,
    pub realm_id: u128,
    pub role_id: u128,
    pub granted_at: usize,
    pub granted_by: Option<u128>,
}

/// The credentials of a channel bridge; each kind carries only its own fields.
pub enum BridgeKind {
    OAuth {
        access_token: Option<String>,
        refresh_token: Option<String>,
        token_expiry: Option<usize>,
        oauth_scopes: Option<Vec<String>>,
    },
    Api { api_endpoint: Option<String>, api_version: Option<String> },
}

/// A stored third-party channel credential usable by a bot.
pub struct ChannelBridge {
    pub id: u128,
    pub kind: BridgeKind,
    pub third_provider_type: String,
    pub third_id: String,
    pub third_secret: String,
    pub created_at: usize,
    pub updated_at: usize,
}

/// A bot of a realm, reaching its channels through at least one bridge.
pub struct Bot {
    pub id: u128,
    pub realm_id: u128,
    pub name: String,
    pub display_name: String,
    pub description: Option<String>,
    pub api_channel_bridge_id: Option<u128>,
    pub oauth_channel_bridge_id: Option<u128>,
    pub is_active: bool,
    pub capabilities: Option<Vec<String>>,
    pub created_at: usize,
    pub updated_at: usize,
}

/// The tables of the store, each in insertion order.
pub struct Store {
    pub accounts: Vec<Account>,
    pub realms: Vec<Realm>,
    pub roles: Vec<Role>,
    pub grants: Vec<Grant>,
    pub bridges: Vec<ChannelBridge>,
    pub bots: Vec<Bot>,
}

pub open spec fn has_account(s: Seq<Account>, id: u128) -> bool {
    exists|i: int| 0 <= i < s.len() && (#[trigger] s[i]).id == id
}

pub open spec fn has_realm(s: Seq<Realm>, id: u128) -> bool {
    exists|i: int| 0 <= i < s.len() && (#[trigger] s[i]).id == id
}

pub open spec fn has_role(s: Seq<Role>, id: u128) -> bool {
    exists|i: int| 0 <= i < s.len() && (#[trigger] s[i]).id == id
}

pub open spec fn has_bridge(s: Seq<ChannelBridge>, id: u128) -> bool {
    exists|i: int| 0 <= i < s.len() && (#[trigger] s[i]).id == id
}

pub open spec fn has_bot(s: Seq<Bot>, id: u128) -> bool {
    exists|i: int| 0 <= i < s.len() && (#[trigger] s[i]).id == id
}

/// Some grant gives `account` a role in `realm`.
pub open spec fn has_grant(s: Seq<Grant>, account: u128, realm: u128) -> bool {
    exists|i: int| 0 <= i < s.len() && (#[trigger] s[i]).account_id == account && s[i].realm_id == realm
}

/// An account with this email or this username exists.
pub open spec fn identity_taken(s: Seq<Account>, email: Seq<char>, username: Seq<char>) -> bool {
    exists|i: int| 0 <= i < s.len() && ((#[trigger] s[i]).email@ == email || s[i].username@ == username)
}

pub open spec fn realm_name_taken(s: Seq<Realm>, name: Seq<char>) -> bool {
    exists|i: int| 0 <= i < s.len() && (#[trigger] s[i]).name@ == name
}

/// A bot of `realm` other than `except` has this name.
pub open spec fn bot_name_taken(s: Seq<Bot>, realm: u128, name: Seq<char>, except: Option<u128>) -> bool {
    exists|i: int|
        0 <= i < s.len() && (#[trigger] s[i]).realm_id == realm && s[i].name@ == name && Some(s[i].id) != except
}

/// A bot refers to at least one bridge.
pub open spec fn bot_has_bridge(b: Bot) -> bool {
    b.api_channel_bridge_id is Some || b.oauth_channel_bridge_id is Some
}

pub open spec fn accounts_wf(s: Seq<Account>) -> bool {
    forall|i: int, j: int|
        #![trigger s[i], s[j]]
        0 <= i < s.len() && 0 <= j < s.len() && i != j ==> s[i].id != s[j].id && s[i].email@ != s[j].email@
            && s[i].username@ != s[j].username@
}

pub open spec fn realms_wf(s: Seq<Realm>) -> bool {
    forall|i: int, j: int|
        #![trigger s[i], s[j]]
        0 <= i < s.len() && 0 <= j < s.len() && i != j ==> s[i].id != s[j].id && s[i].name@ != s[j].name@
}

pub open spec fn roles_wf(s: Seq<Role>, realms: Seq<Realm>) -> bool {
    &&& forall|i: int, j: int|
        #![trigger s[i], s[j]]
        0 <= i < s.len() && 0 <= j < s.len() && i != j ==> s[i].id != s[j].id
    &&& forall|i: int| 0 <= i < s.len() ==> has_realm(realms, (#[trigger] s[i]).realm_id)
}

pub open spec fn grants_wf(s: Seq<Grant>, accounts: Seq<Account>, realms: Seq<Realm>, roles: Seq<Role>) -> bool {
    forall|i: int|
        0 <= i < s.len() ==> has_account(accounts, (#[trigger] s[i]).account_id) && has_realm(realms, s[i].realm_id)
            && has_role(roles, s[i].role_id)
}

pub open spec fn bridges_wf(s: Seq<ChannelBridge>) -> bool {
    forall|i: int, j: int|
        #![trigger s[i], s[j]]
        0 <= i < s.len() && 0 <= j < s.len() && i != j ==> s[i].id != s[j].id
}

pub open spec fn bots_wf(s: Seq<Bot>, realms: Seq<Realm>) -> bool {
    &&& forall|i: int, j: int|
        #![trigger s[i], s[j]]
        0 <= i < s.len() && 0 <= j < s.len() && i != j ==> s[i].id != s[j].id && (s[i].realm_id != s[j].realm_id
            || s[i].name@ != s[j].name@)
    &&& forall|i: int| 0 <= i < s.len() ==> bot_has_bridge(#[trigger] s[i]) && has_realm(realms, s[i].realm_id)
}

impl Store {
    /// The store's invariants: keys unique, names unique where the data model
    /// says so, every reference resolved, every bot with a bridge.
    pub open spec fn wf(&self) -> bool {
        &&& accounts_wf(self.accounts@)
        &&& realms_wf(self.realms@)
        &&& roles_wf(self.roles@, self.realms@)
        &&& grants_wf(self.grants@, self.accounts@, self.realms@, self.roles@)
        &&& bridges_wf(self.bridges@)
        &&& bots_wf(self.bots@, self.realms@)
    }

    /// An empty store.
    pub fn new() -> (r: Store)
        ensures
            r.wf(),
            r.accounts@.len() == 0,
            r.realms@.len() == 0,
            r.roles@.len() == 0,
            r.grants@.len() == 0,
            r.bridges@.len() == 0,
            r.bots@.len() == 0,
    {
        Store {
            accounts: Vec::new(),
            realms: Vec::new(),
            roles: Vec::new(),
            grants: Vec::new(),
            bridges: Vec::new(),
            bots: Vec::new(),
        }
    }
}

/// Whether two texts are equal.
pub fn text_eq(a: &str, b: &str) -> (r: bool)
    ensures
        r == (a@ == b@),
{
    a.to_owned() == b.to_owned()
}

/// What a list of capabilities holds.
pub open spec fn caps_view(o: Option<Vec<String>>) -> Option<Seq<String>> {
    match o {
        Some(v) => Some(v@),
        None => None,
    }
}

pub fn copy_list(s: &Option<Vec<String>>) -> (r: Option<Vec<String>>)
    ensures
        caps_view(r) == caps_view(*s),
{
    match s {
        Some(v) => {
            let c = v.clone();
            assert forall|i: int| 0 <= i < v@.len() implies c@[i] == v@[i] by {
                assert(cloned(v[i], c[i]));
            }
            assert(c@ =~= v@);
            Some(c)
        },
        None => None,
    }
}

} // verus!
