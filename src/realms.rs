//! The realm manager: listing the caller's realms and creating a realm with
//! its admin role and the creator's grant, all or nothing.
use vstd::prelude::*;
use vstd::string::*;
use crate::accounts::instant_text;
use crate::authz::{authenticated, extract_account_id_from_headers, Headers};
use crate::error::ServiceError;
use crate::ids::{id_text, uuid_text};
use crate::model::{text_eq, Grant, Realm, Role, Store, has_account, has_grant, has_realm, has_role,
    realm_name_taken};
use crate::timestamp::timestamp_text;
use crate::token::opt_view;

verus! {

pub struct CreateRealmRequest {
    pub name: String,
    pub display_name: String,
    /// Empty for none.
    pub description: String,
}

/// The public face of a realm.
pub struct RealmInfo {
    pub id: String,
    pub name: String,
    pub display_name: String,
    /// Empty when the realm has none.
    pub description: String,
    pub is_active: bool,
    pub created_at: String,
}

pub struct ListRealmsResponse {
    pub realms: Vec<RealmInfo>,
}

pub struct CreateRealmResponse {
    pub success: bool,
    pub message: String,
    pub realm: Option<RealmInfo>,
}

pub open spec fn text_or_empty(o: Option<String>) -> Seq<char> {
    match o {
        Some(s) => s@,
        None => Seq::<char>::empty(),
    }
}

pub open spec fn realm_info_matches(i: RealmInfo, r: Realm) -> bool {
    &&& i.id@ == uuid_text(r.id)
    &&& i.name@ == r.name@
    &&& i.display_name@ == r.display_name@
    &&& i.description@ == text_or_empty(r.description)
    &&& i.is_active == r.is_active
    &&& i.created_at@ == instant_text(r.created_at)
}

/// The realms that an account sees: active ones it holds a role in.
pub open spec fn visible_to(grants: Seq<Grant>, account: u128) -> spec_fn(Realm) -> bool {
    |r: Realm| r.is_active && has_grant(grants, account, r.id)
}

/// The text for none when empty, else the text itself.
pub open spec fn optional_text(s: Seq<char>) -> Option<Seq<char>> {
    if s.len() == 0 {
        None
    } else {
        Some(s)
    }
}

/// The name of the role that a new realm's creator receives.
pub open spec fn admin_role_name() -> Seq<char> {
    "admin"@
}

/// The rows that creating a realm adds: the realm itself, its admin role,
/// and the creator's grant of that role.
pub open spec fn realm_created(old: Store, new: Store, request: CreateRealmRequest, creator: u128, realm_id: u128, role_id: u128, now: usize) -> bool {
    &&& new.realms@.len() == old.realms@.len() + 1
    &&& new.realms@.drop_last() == old.realms@
    &&& {
        let r = new.realms@.last();
        &&& r.id == realm_id
        &&& r.name@ == request.name@
        &&& r.display_name@ == request.display_name@
        &&& opt_view(r.description) == optional_text(request.description@)
        &&& r.is_active
        &&& r.created_by == Some(creator)
        &&& r.created_at == now
        &&& r.updated_at == now
    }
    &&& new.roles@.len() == old.roles@.len() + 1
    &&& new.roles@.drop_last() == old.roles@
    &&& new.roles@.last().id == role_id
    &&& new.roles@.last().realm_id == realm_id
    &&& new.roles@.last().name@ == admin_role_name()
    &&& new.grants@ == old.grants@.push(
        Grant { account_id: creator, realm_id, role_id, granted_at: now, granted_by: Some(creator) },
    )
    &&& new.accounts == old.accounts
    &&& new.bridges == old.bridges
    &&& new.bots == old.bots
}

/// The public face of a realm.
pub fn realm_info(r: &Realm) -> (i: RealmInfo)
    ensures
        realm_info_matches(i, *r),
{
    RealmInfo {
        id: id_text(r.id),
        name: r.name.clone(),
        display_name: r.display_name.clone(),
        description: match &r.description {
            Some(d) => d.clone(),
            None => String::new(),
        },
        is_active: r.is_active,
        created_at: timestamp_text(r.created_at),
    }
}

/// A realm just created is listed for its creator and for no other account:
/// the creator's grant is the only grant that refers to it.
pub proof fn lemma_new_realm_visible_only_to_creator(old: Store, new: Store, request: CreateRealmRequest, creator: u128, other: u128, realm_id: u128, role_id: u128, now: usize)
    requires
        old.wf(),
        !has_realm(old.realms@, realm_id),
        realm_created(old, new, request, creator, realm_id, role_id, now),
        other != creator,
    ensures
        new.realms@.filter(visible_to(new.grants@, creator)).contains(new.realms@.last()),
        !new.realms@.filter(visible_to(new.grants@, other)).contains(new.realms@.last()),
{
    let g = new.grants@;
    let r = new.realms@.last();
    assert(g[old.grants@.len() as int].account_id == creator);
    assert(has_grant(g, creator, realm_id));
    new.realms@.lemma_filter_contains(visible_to(g, creator), new.realms@.len() - 1);
    assert(!has_grant(g, other, realm_id)) by {
        if has_grant(g, other, realm_id) {
            let i = choose|i: int| 0 <= i < g.len() && (#[trigger] g[i]).account_id == other && g[i].realm_id == realm_id;
            if i < old.grants@.len() {
                assert(g[i] == old.grants@[i]);
                assert(has_realm(old.realms@, old.grants@[i].realm_id));
            }
        }
    }
    if new.realms@.filter(visible_to(g, other)).contains(r) {
        new.realms@.lemma_filter_contains_rev(visible_to(g, other), r);
        let k = choose|k: int| 0 <= k < new.realms@.filter(visible_to(g, other)).len()
            && new.realms@.filter(visible_to(g, other))[k] == r;
        new.realms@.lemma_filter_pred(visible_to(g, other), k);
    }
}

impl Store {
    /// The active realms in which the bearer holds a role, in table order,
    /// each once; `Forbidden` when the token does not authenticate.
    pub fn list_realms(&self, headers: &Headers, jwt_secret: &str, now: usize) -> (r: Result<ListRealmsResponse, ServiceError>)
        ensures
            match authenticated(headers.authorization, jwt_secret@, now) {
                None => r == Err::<ListRealmsResponse, ServiceError>(ServiceError::Forbidden),
                Some(a) => r matches Ok(resp) && {
                    let seen = self.realms@.filter(visible_to(self.grants@, a));
                    &&& resp.realms@.len() == seen.len()
                    &&& forall|k: int| 0 <= k < seen.len() ==> realm_info_matches(#[trigger] resp.realms@[k], seen[k])
                },
            },
    {
        let account_id = match extract_account_id_from_headers(headers, jwt_secret, now) {
            Ok(a) => a,
            Err(e) => return Err(e),
        };
        let ghost p = visible_to(self.grants@, account_id);
        let mut out: Vec<RealmInfo> = Vec::new();
        let mut i: usize = 0;
        proof {
            reveal(Seq::filter);
            assert(self.realms@.subrange(0, 0).filter(p) =~= Seq::<Realm>::empty());
        }
        while i < self.realms.len()
            invariant
                0 <= i <= self.realms@.len(),
                p == visible_to(self.grants@, account_id),
                out@.len() == self.realms@.subrange(0, i as int).filter(p).len(),
                forall|k: int|
                    0 <= k < out@.len() ==> realm_info_matches(
                        #[trigger] out@[k],
                        self.realms@.subrange(0, i as int).filter(p)[k],
                    ),
            decreases self.realms@.len() - i,
        {
            let ghost before = self.realms@.subrange(0, i as int);
            let ghost after = self.realms@.subrange(0, i + 1);
            proof {
                reveal(Seq::filter);
                assert(after.drop_last() =~= before);
                assert(after.last() == self.realms@[i as int]);
            }
            let realm = &self.realms[i];
            if realm.is_active && self.has_access(account_id, realm.id) {
                let info = realm_info(realm);
                out.push(info);
                assert(after.filter(p) == before.filter(p).push(self.realms@[i as int]));
            } else {
                assert(after.filter(p) == before.filter(p));
            }
            i = i + 1;
        }
        assert(self.realms@.subrange(0, i as int) =~= self.realms@);
        Ok(ListRealmsResponse { realms: out })
    }

    /// Whether a realm with this name exists.
    pub fn realm_name_exists(&self, name: &str) -> (r: bool)
        ensures
            r == realm_name_taken(self.realms@, name@),
    {
        let mut i: usize = 0;
        while i < self.realms.len()
            invariant
                0 <= i <= self.realms@.len(),
                forall|j: int| 0 <= j < i ==> (#[trigger] self.realms@[j]).name@ != name@,
            decreases self.realms@.len() - i,
        {
            if text_eq(self.realms[i].name.as_str(), name) {
                return true;
            }
            i = i + 1;
        }
        false
    }

    /// Whether a realm with this id exists.
    pub fn realm_exists(&self, id: u128) -> (r: bool)
        ensures
            r == has_realm(self.realms@, id),
    {
        let mut i: usize = 0;
        while i < self.realms.len()
            invariant
                0 <= i <= self.realms@.len(),
                forall|j: int| 0 <= j < i ==> (#[trigger] self.realms@[j]).id != id,
            decreases self.realms@.len() - i,
        {
            if self.realms[i].id == id {
                return true;
            }
            i = i + 1;
        }
        false
    }

    /// Whether a role with this id exists.
    pub fn role_exists(&self, id: u128) -> (r: bool)
        ensures
            r == has_role(self.roles@, id),
    {
        let mut i: usize = 0;
        while i < self.roles.len()
            invariant
                0 <= i <= self.roles@.len(),
                forall|j: int| 0 <= j < i ==> (#[trigger] self.roles@[j]).id != id,
            decreases self.roles@.len() - i,
        {
            if self.roles[i].id == id {
                return true;
            }
            i = i + 1;
        }
        false
    }

    /// Creates a realm named `request.name` for the bearer, with an "admin"
    /// role in it granted by the creator to itself. A token that does not
    /// authenticate is `Forbidden`; an empty name or display name is
    /// `Invalid`; a name in use gives `success: false`. A row that the store
    /// would refuse (an id in use, a creator with no account) is `Internal`.
    /// On every failure the store is left as it was.
    pub fn create_realm(&mut self, headers: &Headers, jwt_secret: &str, now: usize, request: CreateRealmRequest, realm_id: u128, role_id: u128) -> (r: Result<CreateRealmResponse, ServiceError>)
        requires
            old(self).wf(),
        ensures
            final(self).wf(),
            r is Err ==> *final(self) == *old(self),
            r matches Ok(resp) && !resp.success ==> *final(self) == *old(self),
            match authenticated(headers.authorization, jwt_secret@, now) {
                None => r == Err::<CreateRealmResponse, ServiceError>(ServiceError::Forbidden),
                Some(a) => if request.name@.len() == 0 || request.display_name@.len() == 0 {
                    r == Err::<CreateRealmResponse, ServiceError>(ServiceError::Invalid)
                } else if realm_name_taken(old(self).realms@, request.name@) {
                    r matches Ok(resp) && !resp.success && resp.realm is None && resp.message@ == "Realm with name '"@
                        + request.name@ + "' already exists"@
                } else if has_realm(old(self).realms@, realm_id) || has_role(old(self).roles@, role_id) || !has_account(
                    old(self).accounts@,
                    a,
                ) {
                    r == Err::<CreateRealmResponse, ServiceError>(ServiceError::Internal)
                } else {
                    &&& r matches Ok(resp) && resp.success && resp.message@ == "Realm created successfully"@ && (resp.realm matches Some(info) && realm_info_matches(
                        info,
                        final(self).realms@.last(),
                    ))
                    &&& realm_created(*old(self), *final(self), request, a, realm_id, role_id, now)
                },
            },
    {
        let account_id = match extract_account_id_from_headers(headers, jwt_secret, now) {
            Ok(a) => a,
            Err(e) => return Err(e),
        };
        if request.name.as_str().is_empty() || request.display_name.as_str().is_empty() {
            return Err(ServiceError::Invalid);
        }
        if self.realm_name_exists(request.name.as_str()) {
            let mut message = String::from_str("Realm with name '");
            message.append(request.name.as_str());
            message.append("' already exists");
            return Ok(CreateRealmResponse { success: false, message, realm: None });
        }
        if self.realm_exists(realm_id) || self.role_exists(role_id) || self.find_account(account_id).is_none() {
            return Err(ServiceError::Internal);
        }
        let description = if request.description.as_str().is_empty() {
            None
        } else {
            Some(request.description)
        };
        let realm = Realm {
            id: realm_id,
            name: request.name,
            display_name: request.display_name,
            description,
            is_active: true,
            created_by: Some(account_id),
            created_at: now,
            updated_at: now,
        };
        let role = Role {
            id: role_id,
            realm_id,
            name: "admin".to_owned(),
            description: Some("Administrator role with full access to the realm".to_owned()),
            created_at: now,
        };
        let grant = Grant {
            account_id,
            realm_id,
            role_id,
            granted_at: now,
            granted_by: Some(account_id),
        };
        let ghost old_store = *self;
        let info = realm_info(&realm);
        self.realms.push(realm);
        self.roles.push(role);
        self.grants.push(grant);
        proof {
            let rs = self.realms@;
            let ro = self.roles@;
            let gs = self.grants@;
            let n = old_store.realms@.len() as int;
            assert(rs.drop_last() =~= old_store.realms@);
            assert(ro.drop_last() =~= old_store.roles@);
            assert forall|i: int, j: int|
                #![trigger rs[i], rs[j]]
                0 <= i < rs.len() && 0 <= j < rs.len() && i != j implies rs[i].id != rs[j].id && rs[i].name@
                    != rs[j].name@ by {
                if i < n && j < n {
                    assert(old_store.realms@[i] == rs[i] && old_store.realms@[j] == rs[j]);
                } else if i < n {
                    assert(old_store.realms@[i] == rs[i]);
                } else {
                    assert(old_store.realms@[j] == rs[j]);
                }
            }
            assert forall|x: u128| has_realm(old_store.realms@, x) implies has_realm(rs, x) by {
                let k = choose|k: int| 0 <= k < n && (#[trigger] old_store.realms@[k]).id == x;
                assert(rs[k] == old_store.realms@[k]);
            }
            assert forall|x: u128| has_role(old_store.roles@, x) implies has_role(ro, x) by {
                let k = choose|k: int| 0 <= k < old_store.roles@.len() && (#[trigger] old_store.roles@[k]).id == x;
                assert(ro[k] == old_store.roles@[k]);
            }
            assert(has_realm(rs, realm_id)) by {
                assert(rs[n].id == realm_id);
            }
            assert(has_role(ro, role_id)) by {
                assert(ro[old_store.roles@.len() as int].id == role_id);
            }
            assert forall|i: int, j: int|
                #![trigger ro[i], ro[j]]
                0 <= i < ro.len() && 0 <= j < ro.len() && i != j implies ro[i].id != ro[j].id by {
                let m = old_store.roles@.len() as int;
                if i < m && j < m {
                    assert(old_store.roles@[i] == ro[i] && old_store.roles@[j] == ro[j]);
                } else if i < m {
                    assert(old_store.roles@[i] == ro[i]);
                } else {
                    assert(old_store.roles@[j] == ro[j]);
                }
            }
            assert forall|i: int| 0 <= i < ro.len() implies has_realm(rs, (#[trigger] ro[i]).realm_id) by {
                if i < old_store.roles@.len() {
                    assert(ro[i] == old_store.roles@[i]);
                }
            }
            assert forall|i: int| 0 <= i < gs.len() implies has_account(self.accounts@, (#[trigger] gs[i]).account_id)
                && has_realm(rs, gs[i].realm_id) && has_role(ro, gs[i].role_id) by {
                if i < old_store.grants@.len() {
                    assert(gs[i] == old_store.grants@[i]);
                }
            }
            assert forall|i: int| 0 <= i < self.bots@.len() implies has_realm(rs, (#[trigger] self.bots@[i]).realm_id) by {
                assert(has_realm(old_store.realms@, old_store.bots@[i].realm_id));
            }
        }
        Ok(CreateRealmResponse { success: true, message: "Realm created successfully".to_owned(), realm: Some(info) })
    }
}

} // verus!
