//! The bot manager: creating bots with their channel bridges, updating and
//! deleting them, always within the caller's realm.
use vstd::prelude::*;
use crate::accounts::instant_text;
use crate::authz::{authenticated, extract_account_id_from_headers, first_realm, scoped_realm, Headers};
use crate::error::ServiceError;
use crate::ids::{id_text, parse_id, uuid_text, uuid_value};
use crate::model::{copy_list, text_eq, Bot, BridgeKind, ChannelBridge, Store, bot_has_bridge,
    bot_name_taken, bridges_wf, has_bot, has_bridge, has_realm};
use crate::realms::text_or_empty;
use crate::timestamp::{parse_rfc3339, rfc3339_instant, timestamp_text};

verus! {

/// The fields of a channel bridge to create; `bridge_type` is "oauth" or "api"
/// and only the fields of that type are kept. Empty texts stand for none.
pub struct ChannelBridgeInput {
    pub bridge_type: String,
    pub third_provider_type: String,
    pub third_id: String,
    pub third_secret: String,
    pub access_token: String,
    pub refresh_token: String,
    pub token_expiry: String,
    pub oauth_scopes: Vec<String>,
    pub api_endpoint: String,
    pub api_version: String,
}

pub struct CreateBotRequest {
    /// Empty to act in the caller's first realm.
    pub realm_id: String,
    pub name: String,
    pub display_name: String,
    /// Empty for none.
    pub description: String,
    pub api_channel_bridge: Option<ChannelBridgeInput>,
    pub oauth_channel_bridge: Option<ChannelBridgeInput>,
    pub is_active: bool,
    /// Empty for none.
    pub capabilities: Vec<String>,
}

/// The ids that the rows of a new bot take.
pub struct NewBotIds {
    pub bot_id: u128,
    pub api_bridge_id: u128,
    pub oauth_bridge_id: u128,
}

/// A partial update: empty texts and `None` leave a field as it is, except
/// the description, where an empty text clears it.
pub struct UpdateBotRequest {
    pub id: String,
    pub name: String,
    pub display_name: String,
    pub description: String,
    pub api_channel_bridge_id: String,
    pub oauth_channel_bridge_id: String,
    pub is_active: Option<bool>,
    pub capabilities: Vec<String>,
}

/// The public face of a bot; absent references and texts are empty.
pub struct BotInfo {
    pub id: String,
    pub realm_id: String,
    pub name: String,
    pub display_name: String,
    pub description: String,
    pub api_channel_bridge_id: String,
    pub oauth_channel_bridge_id: String,
    pub is_active: bool,
    pub capabilities: Vec<String>,
    pub created_at: String,
    pub updated_at: String,
}

pub struct BotResponse {
    pub success: bool,
    pub message: String,
    pub bot: Option<BotInfo>,
}

pub struct DeleteBotResponse {
    pub success: bool,
    pub message: String,
}

pub open spec fn opt_id_text(o: Option<u128>) -> Seq<char> {
    match o {
        Some(x) => uuid_text(x),
        None => Seq::<char>::empty(),
    }
}

pub open spec fn caps_or_empty(o: Option<Vec<String>>) -> Seq<String> {
    match o {
        Some(v) => v@,
        None => Seq::<String>::empty(),
    }
}

pub open spec fn bot_info_matches(i: BotInfo, b: Bot) -> bool {
    &&& i.id@ == uuid_text(b.id)
    &&& i.realm_id@ == uuid_text(b.realm_id)
    &&& i.name@ == b.name@
    &&& i.display_name@ == b.display_name@
    &&& i.description@ == text_or_empty(b.description)
    &&& i.api_channel_bridge_id@ == opt_id_text(b.api_channel_bridge_id)
    &&& i.oauth_channel_bridge_id@ == opt_id_text(b.oauth_channel_bridge_id)
    &&& i.is_active == b.is_active
    &&& i.capabilities@ == caps_or_empty(b.capabilities)
    &&& i.created_at@ == instant_text(b.created_at)
    &&& i.updated_at@ == instant_text(b.updated_at)
}

/// `None` for an empty text, else the text.
pub open spec fn nonempty(s: String) -> Option<String> {
    if s@.len() == 0 {
        None
    } else {
        Some(s)
    }
}

pub open spec fn nonempty_list(v: Vec<String>) -> Option<Vec<String>> {
    if v@.len() == 0 {
        None
    } else {
        Some(v)
    }
}

/// The expiry that an OAuth input gives: the instant of its RFC 3339 text,
/// or none when the text is empty or denotes no instant from the epoch on.
pub open spec fn expiry_of(s: Seq<char>) -> Option<usize> {
    if s.len() == 0 {
        None
    } else {
        rfc3339_instant(s)
    }
}

/// The bridge row that an input gives, or `None` for an unknown bridge type.
pub open spec fn bridge_of(input: ChannelBridgeInput, id: u128, now: usize) -> Option<ChannelBridge> {
    let kind = if input.bridge_type@ == "oauth"@ {
        Some(
            BridgeKind::OAuth {
                access_token: nonempty(input.access_token),
                refresh_token: nonempty(input.refresh_token),
                token_expiry: expiry_of(input.token_expiry@),
                oauth_scopes: nonempty_list(input.oauth_scopes),
            },
        )
    } else if input.bridge_type@ == "api"@ {
        Some(BridgeKind::Api { api_endpoint: nonempty(input.api_endpoint), api_version: nonempty(input.api_version) })
    } else {
        None
    };
    match kind {
        Some(k) => Some(
            ChannelBridge {
                id,
                kind: k,
                third_provider_type: input.third_provider_type,
                third_id: input.third_id,
                third_secret: input.third_secret,
                created_at: now,
                updated_at: now,
            },
        ),
        None => None,
    }
}

/// Whether an optional input is well formed: absent, or of a known type.
pub open spec fn input_ok(o: Option<ChannelBridgeInput>) -> bool {
    match o {
        Some(i) => bridge_of(i, 0, 0) is Some,
        None => true,
    }
}

/// The rows for the bridges that a request supplies, API bridge first.
pub open spec fn bridges_of(request: CreateBotRequest, ids: NewBotIds, now: usize) -> Seq<ChannelBridge> {
    let a = match request.api_channel_bridge {
        Some(i) => seq![bridge_of(i, ids.api_bridge_id, now).unwrap()],
        None => Seq::<ChannelBridge>::empty(),
    };
    let o = match request.oauth_channel_bridge {
        Some(i) => seq![bridge_of(i, ids.oauth_bridge_id, now).unwrap()],
        None => Seq::<ChannelBridge>::empty(),
    };
    a + o
}

/// The bot row that a request creates in `realm`.
pub open spec fn bot_of(request: CreateBotRequest, realm: u128, ids: NewBotIds, now: usize) -> Bot {
    Bot {
        id: ids.bot_id,
        realm_id: realm,
        name: request.name,
        display_name: request.display_name,
        description: nonempty(request.description),
        api_channel_bridge_id: if request.api_channel_bridge is Some {
            Some(ids.api_bridge_id)
        } else {
            None
        },
        oauth_channel_bridge_id: if request.oauth_channel_bridge is Some {
            Some(ids.oauth_bridge_id)
        } else {
            None
        },
        is_active: request.is_active,
        capabilities: nonempty_list(request.capabilities),
        created_at: now,
        updated_at: now,
    }
}

/// The ids of new rows are not in use, and the two bridge ids differ.
pub open spec fn ids_fresh(s: Store, request: CreateBotRequest, ids: NewBotIds) -> bool {
    &&& !has_bot(s.bots@, ids.bot_id)
    &&& request.api_channel_bridge is Some ==> !has_bridge(s.bridges@, ids.api_bridge_id)
    &&& request.oauth_channel_bridge is Some ==> !has_bridge(s.bridges@, ids.oauth_bridge_id)
    &&& request.api_channel_bridge is Some && request.oauth_channel_bridge is Some ==> ids.api_bridge_id
        != ids.oauth_bridge_id
}

/// The index of the bot with this id, if there is one.
pub open spec fn bot_index(s: Seq<Bot>, id: u128) -> Option<int> {
    if has_bot(s, id) {
        Some(choose|i: int| 0 <= i < s.len() && (#[trigger] s[i]).id == id)
    } else {
        None
    }
}

/// A bridge reference after an update: the named one, or the old one when
/// none is named; `Err` when the name is no id.
pub open spec fn final_bridge(requested: Seq<char>, current: Option<u128>) -> Result<Option<u128>, ServiceError> {
    if requested.len() == 0 {
        Ok(current)
    } else {
        match uuid_value(requested) {
            Some(x) => Ok(Some(x)),
            None => Err(ServiceError::Invalid),
        }
    }
}

/// A bot after an update with resolved bridge references.
pub open spec fn updated_bot(b: Bot, request: UpdateBotRequest, api: Option<u128>, oauth: Option<u128>, now: usize) -> Bot {
    Bot {
        id: b.id,
        realm_id: b.realm_id,
        name: if request.name@.len() == 0 {
            b.name
        } else {
            request.name
        },
        display_name: if request.display_name@.len() == 0 {
            b.display_name
        } else {
            request.display_name
        },
        description: nonempty(request.description),
        api_channel_bridge_id: api,
        oauth_channel_bridge_id: oauth,
        is_active: match request.is_active {
            Some(x) => x,
            None => b.is_active,
        },
        capabilities: if request.capabilities@.len() == 0 {
            b.capabilities
        } else {
            Some(request.capabilities)
        },
        created_at: b.created_at,
        updated_at: now,
    }
}

/// What an update does to the bot at index `i`, checks passed: the result,
/// or the failure it ends in.
pub open spec fn update_outcome(s: Store, i: int, request: UpdateBotRequest, now: usize) -> Result<Bot, ServiceError> {
    let b = s.bots@[i];
    if request.name@.len() > 0 && request.name@ != b.name@ && bot_name_taken(s.bots@, b.realm_id, request.name@, Some(b.id)) {
        Err(ServiceError::Conflict)
    } else {
        match final_bridge(request.api_channel_bridge_id@, b.api_channel_bridge_id) {
            Err(e) => Err(e),
            Ok(api) => match final_bridge(request.oauth_channel_bridge_id@, b.oauth_channel_bridge_id) {
                Err(e) => Err(e),
                Ok(oauth) => if api is None && oauth is None {
                    Err(ServiceError::Invalid)
                } else if (api matches Some(x) && !has_bridge(s.bridges@, x)) || (oauth matches Some(x) && !has_bridge(s.bridges@, x)) {
                    Err(ServiceError::NotFound)
                } else {
                    Ok(updated_bot(b, request, api, oauth, now))
                },
            },
        }
    }
}

/// Where a bot update or deletion leads before the bot itself is touched:
/// the index of the caller's bot, or the failure.
pub open spec fn owned_bot(s: Store, auth: Option<String>, secret: Seq<char>, now: usize, bot_id: Seq<char>) -> Result<int, ServiceError> {
    match authenticated(auth, secret, now) {
        None => Err(ServiceError::Forbidden),
        Some(a) => match first_realm(s.grants@, a) {
            None => Err(ServiceError::Forbidden),
            Some(realm) => match uuid_value(bot_id) {
                None => Err(ServiceError::Invalid),
                Some(id) => match bot_index(s.bots@, id) {
                    None => Err(ServiceError::NotFound),
                    Some(i) => if s.bots@[i].realm_id != realm {
                        Err(ServiceError::Forbidden)
                    } else {
                        Ok(i)
                    },
                },
            },
        },
    }
}

/// An update never leaves a bot without a bridge: an accepted update keeps
/// at least one reference, and one that would resolve both to none fails.
pub proof fn lemma_update_keeps_a_bridge(s: Store, i: int, request: UpdateBotRequest, now: usize)
    requires
        0 <= i < s.bots@.len(),
    ensures
        update_outcome(s, i, request, now) matches Ok(b) ==> bot_has_bridge(b),
        final_bridge(request.api_channel_bridge_id@, s.bots@[i].api_channel_bridge_id) == Ok::<Option<u128>, ServiceError>(None)
            && final_bridge(request.oauth_channel_bridge_id@, s.bots@[i].oauth_channel_bridge_id) == Ok::<Option<u128>, ServiceError>(None)
            ==> update_outcome(s, i, request, now) is Err,
{
}

/// The row of a bridge input: `Invalid` unless its type is "oauth" or "api".
/// An OAuth expiry that does not parse is stored as none.
pub fn channel_bridge_input_to_active_model(input: ChannelBridgeInput, id: u128, now: usize) -> (r: Result<
    ChannelBridge,
    ServiceError,
>)
    ensures
        match bridge_of(input, id, now) {
            Some(b) => r == Ok::<ChannelBridge, ServiceError>(b),
            None => r == Err::<ChannelBridge, ServiceError>(ServiceError::Invalid),
        },
{
    let is_oauth = text_eq(input.bridge_type.as_str(), "oauth");
    let is_api = text_eq(input.bridge_type.as_str(), "api");
    let kind = if is_oauth {
        let token_expiry = if input.token_expiry.as_str().is_empty() {
            None
        } else {
            parse_rfc3339(input.token_expiry.as_str())
        };
        BridgeKind::OAuth {
            access_token: optional(input.access_token),
            refresh_token: optional(input.refresh_token),
            token_expiry,
            oauth_scopes: optional_list(input.oauth_scopes),
        }
    } else if is_api {
        BridgeKind::Api { api_endpoint: optional(input.api_endpoint), api_version: optional(input.api_version) }
    } else {
        return Err(ServiceError::Invalid);
    };
    Ok(
        ChannelBridge {
            id,
            kind,
            third_provider_type: input.third_provider_type,
            third_id: input.third_id,
            third_secret: input.third_secret,
            created_at: now,
            updated_at: now,
        },
    )
}

/// `None` for an empty text, else the text.
pub fn optional(s: String) -> (r: Option<String>)
    ensures
        r == nonempty(s),
{
    if s.as_str().is_empty() {
        None
    } else {
        Some(s)
    }
}

pub fn optional_list(v: Vec<String>) -> (r: Option<Vec<String>>)
    ensures
        r == nonempty_list(v),
{
    if v.len() == 0 {
        None
    } else {
        Some(v)
    }
}

fn opt_id(o: Option<u128>) -> (r: String)
    ensures
        r@ == opt_id_text(o),
{
    match o {
        Some(x) => id_text(x),
        None => String::new(),
    }
}

/// The public face of a bot.
pub fn bot_to_proto(bot: &Bot) -> (r: BotInfo)
    ensures
        bot_info_matches(r, *bot),
{
    let caps = copy_list(&bot.capabilities);
    let capabilities = match caps {
        Some(v) => v,
        None => Vec::new(),
    };
    BotInfo {
        id: id_text(bot.id),
        realm_id: id_text(bot.realm_id),
        name: bot.name.clone(),
        display_name: bot.display_name.clone(),
        description: match &bot.description {
            Some(d) => d.clone(),
            None => String::new(),
        },
        api_channel_bridge_id: opt_id(bot.api_channel_bridge_id),
        oauth_channel_bridge_id: opt_id(bot.oauth_channel_bridge_id),
        is_active: bot.is_active,
        capabilities,
        created_at: timestamp_text(bot.created_at),
        updated_at: timestamp_text(bot.updated_at),
    }
}

impl Store {
    /// The index of the bot with this id.
    pub fn find_bot(&self, id: u128) -> (r: Option<usize>)
        requires
            self.wf(),
        ensures
            match r {
                Some(i) => bot_index(self.bots@, id) == Some(i as int) && i < self.bots@.len(),
                None => bot_index(self.bots@, id) is None,
            },
    {
        let mut i: usize = 0;
        while i < self.bots.len()
            invariant
                self.wf(),
                0 <= i <= self.bots@.len(),
                forall|j: int| 0 <= j < i ==> (#[trigger] self.bots@[j]).id != id,
            decreases self.bots@.len() - i,
        {
            if self.bots[i].id == id {
                let ghost k = choose|k: int| 0 <= k < self.bots@.len() && (#[trigger] self.bots@[k]).id == id;
                assert(k == i) by {
                    if k != i {
                        assert(self.bots@[k].id != self.bots@[i as int].id);
                    }
                }
                return Some(i);
            }
            i = i + 1;
        }
        None
    }

    /// Whether a bot of `realm` other than `except` has this name.
    pub fn bot_name_exists(&self, realm: u128, name: &str, except: Option<u128>) -> (r: bool)
        ensures
            r == bot_name_taken(self.bots@, realm, name@, except),
    {
        let mut i: usize = 0;
        while i < self.bots.len()
            invariant
                0 <= i <= self.bots@.len(),
                forall|j: int|
                    0 <= j < i ==> !((#[trigger] self.bots@[j]).realm_id == realm && self.bots@[j].name@ == name@
                        && Some(self.bots@[j].id) != except),
            decreases self.bots@.len() - i,
        {
            let b = &self.bots[i];
            let other = match except {
                Some(x) => b.id != x,
                None => true,
            };
            if b.realm_id == realm && other && text_eq(b.name.as_str(), name) {
                return true;
            }
            i = i + 1;
        }
        false
    }

    /// Whether a bridge with this id exists.
    pub fn bridge_exists(&self, id: u128) -> (r: bool)
        ensures
            r == has_bridge(self.bridges@, id),
    {
        let mut i: usize = 0;
        while i < self.bridges.len()
            invariant
                0 <= i <= self.bridges@.len(),
                forall|j: int| 0 <= j < i ==> (#[trigger] self.bridges@[j]).id != id,
            decreases self.bridges@.len() - i,
        {
            if self.bridges[i].id == id {
                return true;
            }
            i = i + 1;
        }
        false
    }

    /// Whether a bot with this id exists.
    pub fn bot_exists(&self, id: u128) -> (r: bool)
        ensures
            r == has_bot(self.bots@, id),
    {
        let mut i: usize = 0;
        while i < self.bots.len()
            invariant
                0 <= i <= self.bots@.len(),
                forall|j: int| 0 <= j < i ==> (#[trigger] self.bots@[j]).id != id,
            decreases self.bots@.len() - i,
        {
            if self.bots[i].id == id {
                return true;
            }
            i = i + 1;
        }
        false
    }

    fn push_bridge(&mut self, b: ChannelBridge)
        requires
            bridges_wf(old(self).bridges@),
            !has_bridge(old(self).bridges@, b.id),
        ensures
            final(self).bridges@ == old(self).bridges@.push(b),
            bridges_wf(final(self).bridges@),
            final(self).accounts == old(self).accounts,
            final(self).realms == old(self).realms,
            final(self).roles == old(self).roles,
            final(self).grants == old(self).grants,
            final(self).bots == old(self).bots,
    {
        let ghost pre = self.bridges@;
        self.bridges.push(b);
        proof {
            let s = self.bridges@;
            assert forall|i: int, j: int|
                #![trigger s[i], s[j]]
                0 <= i < s.len() && 0 <= j < s.len() && i != j implies s[i].id != s[j].id by {
                if i < pre.len() && j < pre.len() {
                    assert(pre[i] == s[i] && pre[j] == s[j]);
                } else if i < pre.len() {
                    assert(pre[i] == s[i]);
                } else {
                    assert(pre[j] == s[j]);
                }
            }
        }
    }

    /// Creates a bot with the bridges it brings, in the realm that the request
    /// names or else the caller's first realm. The realm is resolved as the
    /// authorization resolver does; no bridge at all is `Invalid`; a name in
    /// use in the realm is `Conflict`; a bridge of unknown type is `Invalid`;
    /// an id in use is `Internal`. Bridges and bot are added together or not
    /// at all.
    pub fn create_bot(&mut self, headers: &Headers, jwt_secret: &str, now: usize, request: CreateBotRequest, ids: NewBotIds) -> (r: Result<BotResponse, ServiceError>)
        requires
            old(self).wf(),
        ensures
            final(self).wf(),
            r is Err ==> *final(self) == *old(self),
            match authenticated(headers.authorization, jwt_secret@, now) {
                None => r == Err::<BotResponse, ServiceError>(ServiceError::Forbidden),
                Some(a) => match scoped_realm(old(self).grants@, a, request.realm_id@) {
                    Err(e) => r == Err::<BotResponse, ServiceError>(e),
                    Ok(realm) => if request.api_channel_bridge is None && request.oauth_channel_bridge is None {
                        r == Err::<BotResponse, ServiceError>(ServiceError::Invalid)
                    } else if bot_name_taken(old(self).bots@, realm, request.name@, None) {
                        r == Err::<BotResponse, ServiceError>(ServiceError::Conflict)
                    } else if !input_ok(request.api_channel_bridge) || !input_ok(request.oauth_channel_bridge) {
                        r == Err::<BotResponse, ServiceError>(ServiceError::Invalid)
                    } else if !ids_fresh(*old(self), request, ids) {
                        r == Err::<BotResponse, ServiceError>(ServiceError::Internal)
                    } else {
                        &&& r matches Ok(resp) && resp.success && resp.message@ == "Bot created successfully"@ && (resp.bot matches Some(info) && bot_info_matches(
                            info,
                            bot_of(request, realm, ids, now),
                        ))
                        &&& final(self).bridges@ == old(self).bridges@ + bridges_of(request, ids, now)
                        &&& final(self).bots@ == old(self).bots@.push(bot_of(request, realm, ids, now))
                        &&& final(self).accounts == old(self).accounts
                        &&& final(self).realms == old(self).realms
                        &&& final(self).roles == old(self).roles
                        &&& final(self).grants == old(self).grants
                    },
                },
            },
    {
        let account_id = match extract_account_id_from_headers(headers, jwt_secret, now) {
            Ok(a) => a,
            Err(e) => return Err(e),
        };
        let realm_id = match self.resolve_realm(account_id, request.realm_id.as_str()) {
            Ok(x) => x,
            Err(e) => return Err(e),
        };
        proof {
            if request.realm_id@.len() == 0 {
                crate::authz::lemma_first_realm(self.grants@, account_id);
            }
            let k = choose|k: int| 0 <= k < self.grants@.len() && (#[trigger] self.grants@[k]).account_id == account_id
                && self.grants@[k].realm_id == realm_id;
            assert(has_realm(self.realms@, self.grants@[k].realm_id));
        }
        if request.api_channel_bridge.is_none() && request.oauth_channel_bridge.is_none() {
            return Err(ServiceError::Invalid);
        }
        if self.bot_name_exists(realm_id, request.name.as_str(), None) {
            return Err(ServiceError::Conflict);
        }
        let ghost req = request;
        let CreateBotRequest {
            realm_id: _,
            name,
            display_name,
            description,
            api_channel_bridge,
            oauth_channel_bridge,
            is_active,
            capabilities,
        } = request;
        let has_api = api_channel_bridge.is_some();
        let has_oauth = oauth_channel_bridge.is_some();
        let api_bridge = match api_channel_bridge {
            Some(input) => match channel_bridge_input_to_active_model(input, ids.api_bridge_id, now) {
                Ok(b) => Some(b),
                Err(e) => return Err(e),
            },
            None => None,
        };
        let oauth_bridge = match oauth_channel_bridge {
            Some(input) => match channel_bridge_input_to_active_model(input, ids.oauth_bridge_id, now) {
                Ok(b) => Some(b),
                Err(e) => return Err(e),
            },
            None => None,
        };
        proof {
            if let Some(i) = req.api_channel_bridge {
                assert(bridge_of(i, 0, 0) is Some <==> bridge_of(i, ids.api_bridge_id, now) is Some);
            }
            if let Some(i) = req.oauth_channel_bridge {
                assert(bridge_of(i, 0, 0) is Some <==> bridge_of(i, ids.oauth_bridge_id, now) is Some);
            }
        }
        if self.bot_exists(ids.bot_id) {
            return Err(ServiceError::Internal);
        }
        if has_api && self.bridge_exists(ids.api_bridge_id) {
            return Err(ServiceError::Internal);
        }
        if has_oauth && self.bridge_exists(ids.oauth_bridge_id) {
            return Err(ServiceError::Internal);
        }
        if has_api && has_oauth && ids.api_bridge_id == ids.oauth_bridge_id {
            return Err(ServiceError::Internal);
        }
        let ghost old_store = *self;
        let bot = Bot {
            id: ids.bot_id,
            realm_id,
            name,
            display_name,
            description: optional(description),
            api_channel_bridge_id: if has_api { Some(ids.api_bridge_id) } else { None },
            oauth_channel_bridge_id: if has_oauth { Some(ids.oauth_bridge_id) } else { None },
            is_active,
            capabilities: optional_list(capabilities),
            created_at: now,
            updated_at: now,
        };
        assert(bot == bot_of(req, realm_id, ids, now));
        match api_bridge {
            Some(b) => self.push_bridge(b),
            None => {},
        }
        let ghost mid = self.bridges@;
        match oauth_bridge {
            Some(b) => {
                assert(!has_bridge(mid, b.id)) by {
                    if has_bridge(mid, b.id) {
                        let k = choose|k: int| 0 <= k < mid.len() && (#[trigger] mid[k]).id == b.id;
                        if k < old_store.bridges@.len() {
                            assert(mid[k] == old_store.bridges@[k]);
                        }
                    }
                }
                self.push_bridge(b);
            },
            None => {},
        }
        assert(self.bridges@ =~= old_store.bridges@ + bridges_of(req, ids, now));
        let info = bot_to_proto(&bot);
        let ghost pre = self.bots@;
        self.bots.push(bot);
        proof {
            let s = self.bots@;
            assert(s[pre.len() as int] == bot);
            assert forall|i: int, j: int|
                #![trigger s[i], s[j]]
                0 <= i < s.len() && 0 <= j < s.len() && i != j implies s[i].id != s[j].id && (s[i].realm_id
                    != s[j].realm_id || s[i].name@ != s[j].name@) by {
                if i < pre.len() && j < pre.len() {
                    assert(pre[i] == s[i] && pre[j] == s[j]);
                } else if i < pre.len() {
                    assert(pre[i] == s[i]);
                    assert(!(pre[i].realm_id == realm_id && pre[i].name@ == bot.name@ && Some(pre[i].id) != None::<u128>));
                    assert(has_bot(pre, pre[i].id));
                } else {
                    assert(pre[j] == s[j]);
                    assert(!(pre[j].realm_id == realm_id && pre[j].name@ == bot.name@ && Some(pre[j].id) != None::<u128>));
                    assert(has_bot(pre, pre[j].id));
                }
            }
            assert forall|i: int| 0 <= i < s.len() implies bot_has_bridge(#[trigger] s[i]) && has_realm(
                self.realms@,
                s[i].realm_id,
            ) by {
                if i < pre.len() {
                    assert(pre[i] == s[i]);
                }
            }
        }
        Ok(BotResponse { success: true, message: "Bot created successfully".to_owned(), bot: Some(info) })
    }

    /// The index of the caller's bot that a request names, after the checks
    /// that update and delete share: authentication, the caller's realm, the
    /// id, the bot's existence and its realm.
    fn owned_bot_index(&self, headers: &Headers, jwt_secret: &str, now: usize, bot_id: &str) -> (r: Result<usize, ServiceError>)
        requires
            self.wf(),
        ensures
            match owned_bot(*self, headers.authorization, jwt_secret@, now, bot_id@) {
                Ok(i) => r matches Ok(j) && j as int == i && i < self.bots@.len(),
                Err(e) => r == Err::<usize, ServiceError>(e),
            },
    {
        let account_id = match extract_account_id_from_headers(headers, jwt_secret, now) {
            Ok(a) => a,
            Err(e) => return Err(e),
        };
        let realm_id = match self.extract_realm_id_from_account(account_id) {
            Ok(x) => x,
            Err(e) => return Err(e),
        };
        let id = match parse_id(bot_id) {
            Some(x) => x,
            None => return Err(ServiceError::Invalid),
        };
        let i = match self.find_bot(id) {
            Some(i) => i,
            None => return Err(ServiceError::NotFound),
        };
        if self.bots[i].realm_id != realm_id {
            return Err(ServiceError::Forbidden);
        }
        Ok(i)
    }

    /// A bridge reference after an update: the named one, or `current`.
    fn resolve_bridge(requested: &str, current: Option<u128>) -> (r: Result<Option<u128>, ServiceError>)
        ensures
            r == final_bridge(requested@, current),
    {
        if requested.is_empty() {
            Ok(current)
        } else {
            match parse_id(requested) {
                Some(x) => Ok(Some(x)),
                None => Err(ServiceError::Invalid),
            }
        }
    }

    /// Updates one of the caller's bots, in the realm of the caller's first
    /// grant. Only the fields that the request supplies change, the
    /// description is cleared by an empty text, and the bridge references
    /// are re-resolved: an update that would leave the bot with no bridge is
    /// `Invalid`. On every failure the store is left as it was.
    pub fn update_bot(&mut self, headers: &Headers, jwt_secret: &str, now: usize, request: UpdateBotRequest) -> (r: Result<BotResponse, ServiceError>)
        requires
            old(self).wf(),
        ensures
            final(self).wf(),
            r is Err ==> *final(self) == *old(self),
            match owned_bot(*old(self), headers.authorization, jwt_secret@, now, request.id@) {
                Ok(i) => final_bridge(request.api_channel_bridge_id@, old(self).bots@[i].api_channel_bridge_id)
                    == Ok::<Option<u128>, ServiceError>(None) && final_bridge(
                    request.oauth_channel_bridge_id@,
                    old(self).bots@[i].oauth_channel_bridge_id,
                ) == Ok::<Option<u128>, ServiceError>(None) ==> r is Err && *final(self) == *old(self),
                Err(_) => true,
            },
            match owned_bot(*old(self), headers.authorization, jwt_secret@, now, request.id@) {
                Err(e) => r == Err::<BotResponse, ServiceError>(e),
                Ok(i) => match update_outcome(*old(self), i, request, now) {
                    Err(e) => r == Err::<BotResponse, ServiceError>(e),
                    Ok(b) => {
                        &&& r matches Ok(resp) && resp.success && resp.message@ == "Bot updated successfully"@ && (resp.bot matches Some(info) && bot_info_matches(info, b))
                        &&& final(self).bots@ == old(self).bots@.update(i, b)
                        &&& final(self).accounts == old(self).accounts
                        &&& final(self).realms == old(self).realms
                        &&& final(self).roles == old(self).roles
                        &&& final(self).grants == old(self).grants
                        &&& final(self).bridges == old(self).bridges
                    },
                },
            },
    {
        let i = match self.owned_bot_index(headers, jwt_secret, now, request.id.as_str()) {
            Ok(i) => i,
            Err(e) => return Err(e),
        };
        let ghost old_store = *self;
        let ghost req = request;
        proof {
            lemma_update_keeps_a_bridge(old_store, i as int, req, now);
        }
        let bot_id = self.bots[i].id;
        let realm_id = self.bots[i].realm_id;
        if !request.name.as_str().is_empty() && !text_eq(request.name.as_str(), self.bots[i].name.as_str())
            && self.bot_name_exists(realm_id, request.name.as_str(), Some(bot_id)) {
            return Err(ServiceError::Conflict);
        }
        let api = match Self::resolve_bridge(request.api_channel_bridge_id.as_str(), self.bots[i].api_channel_bridge_id) {
            Ok(x) => x,
            Err(e) => return Err(e),
        };
        let oauth = match Self::resolve_bridge(
            request.oauth_channel_bridge_id.as_str(),
            self.bots[i].oauth_channel_bridge_id,
        ) {
            Ok(x) => x,
            Err(e) => return Err(e),
        };
        if api.is_none() && oauth.is_none() {
            return Err(ServiceError::Invalid);
        }
        match api {
            Some(x) => if !self.bridge_exists(x) {
                return Err(ServiceError::NotFound);
            },
            None => {},
        }
        match oauth {
            Some(x) => if !self.bridge_exists(x) {
                return Err(ServiceError::NotFound);
            },
            None => {},
        }
        let ghost target = updated_bot(old_store.bots@[i as int], req, api, oauth, now);
        let UpdateBotRequest {
            id: _,
            name,
            display_name,
            description,
            api_channel_bridge_id: _,
            oauth_channel_bridge_id: _,
            is_active,
            capabilities,
        } = request;
        if !name.as_str().is_empty() {
            self.bots[i].name = name;
        }
        if !display_name.as_str().is_empty() {
            self.bots[i].display_name = display_name;
        }
        self.bots[i].description = optional(description);
        match is_active {
            Some(x) => {
                self.bots[i].is_active = x;
            },
            None => {},
        }
        if capabilities.len() > 0 {
            self.bots[i].capabilities = Some(capabilities);
        }
        self.bots[i].api_channel_bridge_id = api;
        self.bots[i].oauth_channel_bridge_id = oauth;
        self.bots[i].updated_at = now;
        proof {
            let s = self.bots@;
            let pre = old_store.bots@;
            assert(s[i as int] == target);
            assert(s =~= pre.update(i as int, target));
            assert forall|a: int, b: int|
                #![trigger s[a], s[b]]
                0 <= a < s.len() && 0 <= b < s.len() && a != b implies s[a].id != s[b].id && (s[a].realm_id
                    != s[b].realm_id || s[a].name@ != s[b].name@) by {
                assert(pre[a].id != pre[b].id);
                if a == i {
                    assert(has_bot(pre, pre[b].id));
                } else if b == i {
                    assert(has_bot(pre, pre[a].id));
                }
            }
            assert forall|a: int| 0 <= a < s.len() implies bot_has_bridge(#[trigger] s[a]) && has_realm(
                self.realms@,
                s[a].realm_id,
            ) by {
                assert(bot_has_bridge(pre[a]) && has_realm(self.realms@, pre[a].realm_id));
            }
        }
        let info = bot_to_proto(&self.bots[i]);
        Ok(BotResponse { success: true, message: "Bot updated successfully".to_owned(), bot: Some(info) })
    }

    /// Deletes one of the caller's bots, after the same checks as an update.
    pub fn delete_bot(&mut self, headers: &Headers, jwt_secret: &str, now: usize, bot_id: &str) -> (r: Result<DeleteBotResponse, ServiceError>)
        requires
            old(self).wf(),
        ensures
            final(self).wf(),
            match owned_bot(*old(self), headers.authorization, jwt_secret@, now, bot_id@) {
                Err(e) => r == Err::<DeleteBotResponse, ServiceError>(e) && *final(self) == *old(self),
                Ok(i) => {
                    &&& r matches Ok(resp) && resp.success && resp.message@ == "Bot deleted successfully"@
                    &&& final(self).bots@ == old(self).bots@.remove(i)
                    &&& final(self).accounts == old(self).accounts
                    &&& final(self).realms == old(self).realms
                    &&& final(self).roles == old(self).roles
                    &&& final(self).grants == old(self).grants
                    &&& final(self).bridges == old(self).bridges
                },
            },
    {
        let i = match self.owned_bot_index(headers, jwt_secret, now, bot_id) {
            Ok(i) => i,
            Err(e) => return Err(e),
        };
        let ghost pre = self.bots@;
        let _removed = self.bots.remove(i);
        proof {
            let s = self.bots@;
            assert forall|a: int, b: int|
                #![trigger s[a], s[b]]
                0 <= a < s.len() && 0 <= b < s.len() && a != b implies s[a].id != s[b].id && (s[a].realm_id
                    != s[b].realm_id || s[a].name@ != s[b].name@) by {
                let pa = if a < i { a } else { a + 1 };
                let pb = if b < i { b } else { b + 1 };
                assert(s[a] == pre[pa] && s[b] == pre[pb]);
            }
            assert forall|a: int| 0 <= a < s.len() implies bot_has_bridge(#[trigger] s[a]) && has_realm(
                self.realms@,
                s[a].realm_id,
            ) by {
                let pa = if a < i { a } else { a + 1 };
                assert(s[a] == pre[pa]);
            }
        }
        Ok(DeleteBotResponse { success: true, message: "Bot deleted successfully".to_owned() })
    }
}

} // verus!
