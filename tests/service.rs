use realm_core::accounts::{logout, RegisterRequest};
use realm_core::authz::Headers;
use realm_core::bots::{ChannelBridgeInput, CreateBotRequest, NewBotIds, UpdateBotRequest};
use realm_core::error::ServiceError;
use realm_core::model::{BridgeKind, Store};
use realm_core::realms::CreateRealmRequest;
use realm_core::token::{sign_token, verify_token, ACCESS_TTL_SECS};

const SECRET: &str = "test-secret";
const NOW: usize = 1_700_000_000;

fn id_text(v: u128) -> String {
    format!("00000000-0000-0000-0000-{:012x}", v)
}

fn register(store: &mut Store, email: &str, username: &str, id: u128) -> bool {
    let req = RegisterRequest { email: email.to_string(), username: username.to_string(), password: "pw".to_string() };
    store.register(req, "digest".to_string(), id, NOW).unwrap().success
}

fn headers_for(id: u128) -> Headers {
    let t = sign_token(&id_text(id), SECRET, ACCESS_TTL_SECS, None, NOW).unwrap();
    Headers { authorization: Some(format!("Bearer {}", t)) }
}

fn realm_request(name: &str, display: &str) -> CreateRealmRequest {
    CreateRealmRequest { name: name.to_string(), display_name: display.to_string(), description: String::new() }
}

fn api_input() -> ChannelBridgeInput {
    ChannelBridgeInput {
        bridge_type: "api".to_string(),
        third_provider_type: "line".to_string(),
        third_id: "tid".to_string(),
        third_secret: "tsecret".to_string(),
        access_token: "ignored".to_string(),
        refresh_token: String::new(),
        token_expiry: String::new(),
        oauth_scopes: vec![],
        api_endpoint: "https://api.example".to_string(),
        api_version: String::new(),
    }
}

fn bot_request(realm_id: &str, name: &str) -> CreateBotRequest {
    CreateBotRequest {
        realm_id: realm_id.to_string(),
        name: name.to_string(),
        display_name: "Display".to_string(),
        description: "desc".to_string(),
        api_channel_bridge: Some(api_input()),
        oauth_channel_bridge: None,
        is_active: true,
        capabilities: vec!["chat".to_string()],
    }
}

fn ids(bot: u128, api: u128, oauth: u128) -> NewBotIds {
    NewBotIds { bot_id: bot, api_bridge_id: api, oauth_bridge_id: oauth }
}

/// A store with account 1 (alice) owning realm 100 ("acme").
fn store_with_realm() -> Store {
    let mut s = Store::new();
    assert!(register(&mut s, "alice@example.com", "alice", 1));
    let r = s.create_realm(&headers_for(1), SECRET, NOW, realm_request("acme", "Acme Corp"), 100, 101).unwrap();
    assert!(r.success);
    s
}

fn empty_update(id: u128) -> UpdateBotRequest {
    UpdateBotRequest {
        id: id_text(id),
        name: String::new(),
        display_name: String::new(),
        description: String::new(),
        api_channel_bridge_id: String::new(),
        oauth_channel_bridge_id: String::new(),
        is_active: None,
        capabilities: vec![],
    }
}

#[test]
fn second_registration_with_same_email_refused() {
    let mut s = Store::new();
    assert!(register(&mut s, "a@example.com", "a", 1));
    let req = RegisterRequest { email: "a@example.com".to_string(), username: "other".to_string(), password: "pw".to_string() };
    let r = s.register(req, "digest".to_string(), 2, NOW).unwrap();
    assert!(!r.success);
    assert_eq!(r.message, "Account already exists");
    assert_eq!(s.accounts.len(), 1);
}

#[test]
fn second_registration_with_same_username_refused() {
    let mut s = Store::new();
    assert!(register(&mut s, "a@example.com", "a", 1));
    assert!(!register(&mut s, "b@example.com", "a", 2));
    assert_eq!(s.accounts.len(), 1);
}

#[test]
fn registration_stores_new_active_account() {
    let mut s = Store::new();
    let req = RegisterRequest { email: "a@example.com".to_string(), username: "a".to_string(), password: "pw".to_string() };
    let r = s.register(req, "digest".to_string(), 7, NOW).unwrap();
    assert!(r.success);
    assert_eq!(r.message, "Registration successful");
    let a = &s.accounts[0];
    assert_eq!(a.id, 7);
    assert_eq!(a.password_hash, Some("digest".to_string()));
    assert!(a.is_active);
    assert!(!a.email_verified);
    assert_eq!(a.last_login_at, None);
}

#[test]
fn registration_with_empty_field_invalid() {
    let mut s = Store::new();
    let req = RegisterRequest { email: String::new(), username: "a".to_string(), password: "pw".to_string() };
    assert_eq!(s.register(req, "digest".to_string(), 1, NOW).err(), Some(ServiceError::Invalid));
    let req = RegisterRequest { email: "a@x".to_string(), username: "a".to_string(), password: String::new() };
    assert_eq!(s.register(req, "digest".to_string(), 1, NOW).err(), Some(ServiceError::Invalid));
    assert!(s.accounts.is_empty());
}

#[test]
fn registration_with_id_in_use_is_internal() {
    let mut s = Store::new();
    assert!(register(&mut s, "a@example.com", "a", 1));
    let req = RegisterRequest { email: "b@example.com".to_string(), username: "b".to_string(), password: "pw".to_string() };
    assert_eq!(s.register(req, "digest".to_string(), 1, NOW).err(), Some(ServiceError::Internal));
    assert_eq!(s.accounts.len(), 1);
}

#[test]
fn login_with_wrong_password_fails_without_tokens() {
    let mut s = Store::new();
    assert!(register(&mut s, "a@example.com", "a", 1));
    assert_eq!(s.login_password_hash("a@example.com"), Some("digest".to_string()));
    let r = s.login("a@example.com", false, SECRET, NOW).unwrap();
    assert!(!r.success);
    assert!(r.account.is_none());
    assert_eq!(r.access_token, "");
    assert_eq!(r.refresh_token, "");
    assert_eq!(s.accounts[0].last_login_at, None);
}

#[test]
fn login_with_unknown_email_fails() {
    let mut s = Store::new();
    assert!(register(&mut s, "a@example.com", "a", 1));
    assert_eq!(s.login_password_hash("a"), None);
    let r = s.login("a", true, SECRET, NOW).unwrap();
    assert!(!r.success);
    assert_eq!(r.access_token, "");
}

#[test]
fn login_success_issues_tokens_and_records_time() {
    let mut s = Store::new();
    assert!(register(&mut s, "a@example.com", "a", 0x2a));
    let r = s.login("a@example.com", true, SECRET, NOW + 5).unwrap();
    assert!(r.success);
    let info = r.account.unwrap();
    assert_eq!(info.id, "00000000-0000-0000-0000-00000000002a");
    assert_eq!(info.email, "a@example.com");
    assert_eq!(info.created_at, "2023-11-14T22:13:20+00:00");
    let access = verify_token(&r.access_token, SECRET, NOW + 5).unwrap();
    assert_eq!(access.sub, "00000000-0000-0000-0000-00000000002a");
    assert_eq!(access.exp, NOW + 5 + 3600);
    let refresh = verify_token(&r.refresh_token, SECRET, NOW + 5).unwrap();
    assert_eq!(refresh.exp, NOW + 5 + 604800);
    assert_eq!(s.accounts[0].last_login_at, Some(NOW + 5));
}

#[test]
fn refresh_rotates_tokens_with_realm_scope() {
    let s = store_with_realm();
    let refresh = sign_token(&id_text(1), SECRET, 604800, None, NOW).unwrap();
    let r = s.refresh_token(&refresh, &id_text(100), SECRET, NOW + 1).unwrap();
    assert!(r.success);
    let c = verify_token(&r.access_token, SECRET, NOW + 1).unwrap();
    assert_eq!(c.realm_id, Some(id_text(100)));
    assert_eq!(c.exp, NOW + 1 + 3600);
    let c = verify_token(&r.refresh_token, SECRET, NOW + 1).unwrap();
    assert_eq!(c.exp, NOW + 1 + 604800);
}

#[test]
fn refresh_denied_for_foreign_realm_and_bad_token() {
    let s = store_with_realm();
    let refresh = sign_token(&id_text(1), SECRET, 604800, None, NOW).unwrap();
    assert_eq!(s.refresh_token(&refresh, &id_text(999), SECRET, NOW).err(), Some(ServiceError::Forbidden));
    assert_eq!(s.refresh_token(&refresh, "not-an-id", SECRET, NOW).err(), Some(ServiceError::Invalid));
    assert_eq!(s.refresh_token("garbage", "", SECRET, NOW).err(), Some(ServiceError::Forbidden));
}

#[test]
fn logout_acknowledges() {
    assert!(logout().success);
}

#[test]
fn me_returns_caller_account() {
    let s = store_with_realm();
    let info = s.me(&headers_for(1), SECRET, NOW).unwrap();
    assert_eq!(info.username, "alice");
    assert_eq!(info.id, id_text(1));
    assert_eq!(s.me(&headers_for(9), SECRET, NOW).err(), Some(ServiceError::NotFound));
}

#[test]
fn missing_or_malformed_authorization_forbidden() {
    let s = store_with_realm();
    let none = Headers { authorization: None };
    assert_eq!(s.me(&none, SECRET, NOW).err(), Some(ServiceError::Forbidden));
    let t = sign_token(&id_text(1), SECRET, ACCESS_TTL_SECS, None, NOW).unwrap();
    let no_prefix = Headers { authorization: Some(t.clone()) };
    assert_eq!(s.me(&no_prefix, SECRET, NOW).err(), Some(ServiceError::Forbidden));
    let wrong_secret = Headers { authorization: Some(format!("Bearer {}", t)) };
    assert_eq!(s.me(&wrong_secret, "other", NOW).err(), Some(ServiceError::Forbidden));
    let expired = Headers { authorization: Some(format!("Bearer {}", t)) };
    assert_eq!(s.me(&expired, SECRET, NOW + 3600).err(), Some(ServiceError::Forbidden));
    let bad_sub = sign_token("alice", SECRET, ACCESS_TTL_SECS, None, NOW).unwrap();
    let bad_sub = Headers { authorization: Some(format!("Bearer {}", bad_sub)) };
    assert_eq!(s.me(&bad_sub, SECRET, NOW).err(), Some(ServiceError::Forbidden));
}

#[test]
fn create_realm_acme_grants_admin_to_creator_only() {
    let mut s = Store::new();
    assert!(register(&mut s, "a@example.com", "a", 1));
    assert!(register(&mut s, "b@example.com", "b", 2));
    let r = s.create_realm(&headers_for(1), SECRET, NOW, realm_request("acme", "Acme Corp"), 100, 101).unwrap();
    assert!(r.success);
    assert_eq!(r.message, "Realm created successfully");
    let info = r.realm.unwrap();
    assert_eq!(info.name, "acme");
    assert_eq!(info.display_name, "Acme Corp");
    assert_eq!(info.description, "");
    assert_eq!(info.id, "00000000-0000-0000-0000-000000000064");
    assert!(info.is_active);
    assert_eq!(s.roles.len(), 1);
    assert_eq!(s.roles[0].name, "admin");
    assert_eq!(s.roles[0].realm_id, 100);
    assert_eq!(s.grants.len(), 1);
    assert_eq!(s.grants[0].account_id, 1);
    assert_eq!(s.grants[0].role_id, 101);
    assert_eq!(s.grants[0].granted_by, Some(1));
    let listed = s.list_realms(&headers_for(1), SECRET, NOW).unwrap().realms;
    assert_eq!(listed.len(), 1);
    assert_eq!(listed[0].name, "acme");
    let other = s.list_realms(&headers_for(2), SECRET, NOW).unwrap().realms;
    assert!(other.is_empty());
}

#[test]
fn create_realm_duplicate_name_refused() {
    let mut s = store_with_realm();
    let r = s.create_realm(&headers_for(1), SECRET, NOW, realm_request("acme", "Again"), 200, 201).unwrap();
    assert!(!r.success);
    assert_eq!(r.message, "Realm with name 'acme' already exists");
    assert_eq!(s.realms.len(), 1);
}

#[test]
fn create_realm_empty_name_invalid() {
    let mut s = store_with_realm();
    let r = s.create_realm(&headers_for(1), SECRET, NOW, realm_request("", "X"), 200, 201);
    assert_eq!(r.err(), Some(ServiceError::Invalid));
    let r = s.create_realm(&headers_for(1), SECRET, NOW, realm_request("x", ""), 200, 201);
    assert_eq!(r.err(), Some(ServiceError::Invalid));
}

#[test]
fn create_realm_failed_role_insert_leaves_no_realm() {
    let mut s = store_with_realm();
    // Role id 101 is already taken: the admin role cannot be inserted.
    let r = s.create_realm(&headers_for(1), SECRET, NOW, realm_request("beta", "Beta"), 200, 101);
    assert_eq!(r.err(), Some(ServiceError::Internal));
    assert_eq!(s.realms.len(), 1);
    assert_eq!(s.roles.len(), 1);
    assert_eq!(s.grants.len(), 1);
}

#[test]
fn list_realms_skips_inactive() {
    let mut s = store_with_realm();
    s.realms[0].is_active = false;
    assert!(s.list_realms(&headers_for(1), SECRET, NOW).unwrap().realms.is_empty());
}

#[test]
fn resolver_denies_realm_without_grant() {
    let mut s = store_with_realm();
    assert!(register(&mut s, "b@example.com", "b", 2));
    let r = s.create_realm(&headers_for(2), SECRET, NOW, realm_request("other", "Other"), 200, 201).unwrap();
    assert!(r.success);
    assert_eq!(s.resolve_realm(1, &id_text(200)), Err(ServiceError::Forbidden));
    assert_eq!(s.resolve_realm(1, &id_text(100)), Ok(100));
    assert_eq!(s.resolve_realm(1, ""), Ok(100));
    assert_eq!(s.resolve_realm(1, "zzz"), Err(ServiceError::Invalid));
    assert_eq!(s.resolve_realm(3, ""), Err(ServiceError::Forbidden));
    let r = s.create_bot(&headers_for(1), SECRET, NOW, bot_request(&id_text(200), "bot"), ids(10, 11, 12));
    assert_eq!(r.err(), Some(ServiceError::Forbidden));
    assert!(s.bots.is_empty());
}

#[test]
fn create_bot_in_first_realm() {
    let mut s = store_with_realm();
    let r = s.create_bot(&headers_for(1), SECRET, NOW, bot_request("", "helper"), ids(10, 11, 12)).unwrap();
    assert!(r.success);
    let info = r.bot.unwrap();
    assert_eq!(info.realm_id, id_text(100));
    assert_eq!(info.api_channel_bridge_id, id_text(11));
    assert_eq!(info.oauth_channel_bridge_id, "");
    assert_eq!(info.capabilities, vec!["chat".to_string()]);
    assert_eq!(s.bots.len(), 1);
    assert_eq!(s.bridges.len(), 1);
    match &s.bridges[0].kind {
        BridgeKind::Api { api_endpoint, api_version } => {
            assert_eq!(api_endpoint.as_deref(), Some("https://api.example"));
            assert_eq!(*api_version, None);
        }
        BridgeKind::OAuth { .. } => panic!("api bridge expected"),
    }
}

#[test]
fn create_bot_requires_a_bridge() {
    let mut s = store_with_realm();
    let mut req = bot_request("", "helper");
    req.api_channel_bridge = None;
    assert_eq!(s.create_bot(&headers_for(1), SECRET, NOW, req, ids(10, 11, 12)).err(), Some(ServiceError::Invalid));
    assert!(s.bots.is_empty() && s.bridges.is_empty());
}

#[test]
fn create_bot_duplicate_name_conflict() {
    let mut s = store_with_realm();
    assert!(s.create_bot(&headers_for(1), SECRET, NOW, bot_request("", "helper"), ids(10, 11, 12)).is_ok());
    let r = s.create_bot(&headers_for(1), SECRET, NOW, bot_request("", "helper"), ids(20, 21, 22));
    assert_eq!(r.err(), Some(ServiceError::Conflict));
    assert_eq!(s.bots.len(), 1);
    assert_eq!(s.bridges.len(), 1);
}

#[test]
fn create_bot_unknown_bridge_type_invalid() {
    let mut s = store_with_realm();
    let mut req = bot_request("", "helper");
    let mut oauth = api_input();
    oauth.bridge_type = "smtp".to_string();
    req.oauth_channel_bridge = Some(oauth);
    assert_eq!(s.create_bot(&headers_for(1), SECRET, NOW, req, ids(10, 11, 12)).err(), Some(ServiceError::Invalid));
    assert!(s.bridges.is_empty());
}

#[test]
fn create_bot_with_oauth_bridge_keeps_oauth_fields_only() {
    let mut s = store_with_realm();
    let mut req = bot_request("", "helper");
    let mut oauth = api_input();
    oauth.bridge_type = "oauth".to_string();
    oauth.oauth_scopes = vec!["read".to_string()];
    req.api_channel_bridge = None;
    req.oauth_channel_bridge = Some(oauth);
    let r = s.create_bot(&headers_for(1), SECRET, NOW, req, ids(10, 11, 12)).unwrap();
    assert_eq!(r.bot.unwrap().oauth_channel_bridge_id, id_text(12));
    match &s.bridges[0].kind {
        BridgeKind::OAuth { access_token, refresh_token, token_expiry, oauth_scopes } => {
            assert_eq!(access_token.as_deref(), Some("ignored"));
            assert_eq!(*refresh_token, None);
            assert_eq!(*token_expiry, None);
            assert_eq!(oauth_scopes.clone(), Some(vec!["read".to_string()]));
        }
        BridgeKind::Api { .. } => panic!("oauth bridge expected"),
    }
}

#[test]
fn update_bot_applies_given_fields() {
    let mut s = store_with_realm();
    assert!(s.create_bot(&headers_for(1), SECRET, NOW, bot_request("", "helper"), ids(10, 11, 12)).is_ok());
    let mut req = empty_update(10);
    req.name = "renamed".to_string();
    req.is_active = Some(false);
    let r = s.update_bot(&headers_for(1), SECRET, NOW + 60, req).unwrap();
    assert!(r.success);
    let b = &s.bots[0];
    assert_eq!(b.name, "renamed");
    assert_eq!(b.display_name, "Display");
    assert_eq!(b.description, None);
    assert!(!b.is_active);
    assert_eq!(b.capabilities, Some(vec!["chat".to_string()]));
    assert_eq!(b.api_channel_bridge_id, Some(11));
    assert_eq!(b.updated_at, NOW + 60);
}

#[test]
fn update_bot_rejects_unknown_or_malformed_bridge() {
    let mut s = store_with_realm();
    assert!(s.create_bot(&headers_for(1), SECRET, NOW, bot_request("", "helper"), ids(10, 11, 12)).is_ok());
    let mut req = empty_update(10);
    req.oauth_channel_bridge_id = id_text(77);
    assert_eq!(s.update_bot(&headers_for(1), SECRET, NOW, req).err(), Some(ServiceError::NotFound));
    let mut req = empty_update(10);
    req.api_channel_bridge_id = "nope".to_string();
    req.name = "changed".to_string();
    assert_eq!(s.update_bot(&headers_for(1), SECRET, NOW, req).err(), Some(ServiceError::Invalid));
    assert_eq!(s.bots[0].name, "helper");
    assert_eq!(s.bots[0].oauth_channel_bridge_id, None);
}

#[test]
fn update_bot_name_conflict_and_missing_bot() {
    let mut s = store_with_realm();
    assert!(s.create_bot(&headers_for(1), SECRET, NOW, bot_request("", "one"), ids(10, 11, 12)).is_ok());
    assert!(s.create_bot(&headers_for(1), SECRET, NOW, bot_request("", "two"), ids(20, 21, 22)).is_ok());
    let mut req = empty_update(20);
    req.name = "one".to_string();
    assert_eq!(s.update_bot(&headers_for(1), SECRET, NOW, req).err(), Some(ServiceError::Conflict));
    assert_eq!(s.update_bot(&headers_for(1), SECRET, NOW, empty_update(99)).err(), Some(ServiceError::NotFound));
}

#[test]
fn bot_of_other_realm_is_forbidden() {
    let mut s = store_with_realm();
    assert!(s.create_bot(&headers_for(1), SECRET, NOW, bot_request("", "helper"), ids(10, 11, 12)).is_ok());
    assert!(register(&mut s, "b@example.com", "b", 2));
    assert!(s.create_realm(&headers_for(2), SECRET, NOW, realm_request("other", "Other"), 200, 201).unwrap().success);
    assert_eq!(s.update_bot(&headers_for(2), SECRET, NOW, empty_update(10)).err(), Some(ServiceError::Forbidden));
    assert_eq!(s.delete_bot(&headers_for(2), SECRET, NOW, &id_text(10)).err(), Some(ServiceError::Forbidden));
    assert_eq!(s.bots.len(), 1);
}

#[test]
fn delete_bot_removes_row() {
    let mut s = store_with_realm();
    assert!(s.create_bot(&headers_for(1), SECRET, NOW, bot_request("", "helper"), ids(10, 11, 12)).is_ok());
    assert_eq!(s.delete_bot(&headers_for(1), SECRET, NOW, "bad-id").err(), Some(ServiceError::Invalid));
    let r = s.delete_bot(&headers_for(1), SECRET, NOW, &id_text(10)).unwrap();
    assert!(r.success);
    assert!(s.bots.is_empty());
    assert_eq!(s.bridges.len(), 1);
    assert_eq!(s.delete_bot(&headers_for(1), SECRET, NOW, &id_text(10)).err(), Some(ServiceError::NotFound));
}
