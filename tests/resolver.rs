use bldr_session::cache::SessionCache;
use bldr_session::codec::{token_account_id, OAuthProvider};
use bldr_session::issuer::{new_account_for, parse_provider, session_create_short_circuit, OAuth2User};
use bldr_session::resolver::{
    Account, AccountToken, AuthError, Authentication, PatCheck, Step, StoreError,
    BUILDER_ACCOUNT_NAME,
};
use bldr_session::session::Session;

fn list_step(s: Step) -> PatCheck {
    match s {
        Step::ListTokens(p) => p,
        _ => panic!("expected a token listing"),
    }
}

fn fetch_step(s: Step) -> PatCheck {
    match s {
        Step::FetchAccount(p) => p,
        _ => panic!("expected an account fetch"),
    }
}

fn done(s: Step) -> Result<Session, AuthError> {
    match s {
        Step::Done(r) => r,
        _ => panic!("expected the end of resolution"),
    }
}

fn stored(t: &str) -> Result<Vec<AccountToken>, StoreError> {
    Ok(vec![AccountToken { account_id: 5, token: t.to_string() }])
}

fn profile() -> Result<Account, StoreError> {
    Ok(Account { id: 5, name: "wolverine".to_string(), email: "logan@example.com".to_string() })
}

#[test]
fn cached_session_returned_unchanged() {
    let auth = Authentication::new(false);
    let mut cache = SessionCache::new();
    let mut s = Session::new(42);
    s.name = "storm".to_string();
    s.token = "opaque".to_string();
    s.flags = 9;
    cache.set("opaque", s, Some(10));
    let r = done(auth.authenticate(&mut cache, "opaque")).unwrap();
    assert_eq!(r.id, 42);
    assert_eq!(r.name, "storm");
    assert_eq!(r.token, "opaque");
    assert_eq!(r.flags, 9);
    assert_eq!(cache.ttl("opaque"), Some(Some(10)));
}

#[test]
fn non_pat_miss_is_unauthorized() {
    let auth = Authentication::new(false);
    let mut cache = SessionCache::new();
    assert_eq!(done(auth.authenticate(&mut cache, "CAUQAw==")).err(), Some(AuthError::Authorization));
    assert!(cache.get("CAUQAw==").is_none());
}

#[test]
fn undecodable_pat_is_unauthorized() {
    let auth = Authentication::new(false);
    let mut cache = SessionCache::new();
    assert_eq!(done(auth.authenticate(&mut cache, "_!!")).err(), Some(AuthError::Authorization));
}

#[test]
fn builder_token_never_reaches_store() {
    let auth = Authentication::new(false);
    let mut cache = SessionCache::new();
    let s = done(auth.authenticate(&mut cache, "_CAAQBw==")).unwrap();
    assert_eq!(s.id, 0);
    assert_eq!(s.name, BUILDER_ACCOUNT_NAME);
    assert_eq!(s.flags, 7);
    assert_eq!(s.token, "_CAAQBw==");
    assert_eq!(cache.ttl("_CAAQBw=="), Some(None));
    let again = done(auth.authenticate(&mut cache, "_CAAQBw==")).unwrap();
    assert_eq!(again.name, "BUILDER");
}

#[test]
fn pat_matching_store_authenticates() {
    let auth = Authentication::new(false);
    let mut cache = SessionCache::new();
    let check = list_step(auth.authenticate(&mut cache, "_CAUQAw"));
    assert_eq!((check.account_id, check.flags), (5, 3));
    let fetch = fetch_step(auth.tokens_listed(check, stored("_CAUQAw==")));
    assert_eq!(fetch.token, "_CAUQAw==");
    let s = auth.account_fetched(&mut cache, fetch, profile()).unwrap();
    assert_eq!(s.id, 5);
    assert_eq!(s.name, "wolverine");
    assert_eq!(s.email, "logan@example.com");
    assert_eq!(s.flags, 3);
    assert_eq!(s.token, "_CAUQAw==");
    assert_eq!(cache.ttl("_CAUQAw=="), Some(None));
    assert!(cache.get("_CAUQAw").is_none());
}

#[test]
fn revoked_pat_is_unauthorized() {
    let auth = Authentication::new(false);
    let mut cache = SessionCache::new();
    let check = list_step(auth.authenticate(&mut cache, "_CAUQAw=="));
    let r = done(auth.tokens_listed(check, stored("_CAUQAx==")));
    assert_eq!(r.err(), Some(AuthError::Authorization));
}

#[test]
fn account_without_tokens_is_unauthorized_not_storage() {
    let auth = Authentication::new(false);
    let mut cache = SessionCache::new();
    let check = list_step(auth.authenticate(&mut cache, "_CAUQAw=="));
    let r = done(auth.tokens_listed(check, Ok(vec![])));
    assert_eq!(r.err(), Some(AuthError::Authorization));
}

#[test]
fn store_failures_are_storage() {
    let auth = Authentication::new(false);
    let mut cache = SessionCache::new();
    let check = list_step(auth.authenticate(&mut cache, "_CAUQAw=="));
    assert_eq!(done(auth.tokens_listed(check, Err(StoreError))).err(), Some(AuthError::Storage));
    let check = PatCheck { account_id: 5, flags: 0, token: "_CAU=".to_string() };
    assert_eq!(auth.account_fetched(&mut cache, check, Err(StoreError)).err(), Some(AuthError::Storage));
    assert!(cache.get("_CAU=").is_none());
}

#[test]
fn two_stored_tokens_are_a_system_failure() {
    let auth = Authentication::new(false);
    let check = PatCheck { account_id: 5, flags: 0, token: "_CAU=".to_string() };
    let two = Ok(vec![
        AccountToken { account_id: 5, token: "_CAU=".to_string() },
        AccountToken { account_id: 5, token: "_CAU=".to_string() },
    ]);
    assert_eq!(done(auth.tokens_listed(check, two)).err(), Some(AuthError::System));
}

#[test]
fn start_classifies_headers() {
    let auth = Authentication::new(false);
    let mut cache = SessionCache::new();
    assert!(matches!(auth.start(&mut cache, None), Step::Anonymous));
    assert_eq!(done(auth.start(&mut cache, Some("Basic abc"))).err(), Some(AuthError::Unauthenticated));
    assert_eq!(done(auth.start(&mut cache, Some("Bearer abc"))).err(), Some(AuthError::Authorization));
}

#[test]
fn test_mode_mystique_end_to_end() {
    let auth = Authentication::new(true);
    let mut cache = SessionCache::new();
    let q = match auth.start(&mut cache, Some("Bearer mystique")) {
        Step::Issue(q) => q,
        _ => panic!("expected issuance"),
    };
    assert_eq!(q.provider, "GitHub");
    assert_eq!(parse_provider(&q.provider), Some(OAuthProvider::GitHub));
    let new = new_account_for(&q.user);
    assert_eq!(new.name, "mystique");
    assert_eq!(new.email, "mystique@example.com");
    let account = Account { id: 1, name: new.name, email: new.email };
    let s = auth
        .session_create_oauth(&mut cache, &q.oauth_token, &q.user, &q.provider, Ok(account))
        .unwrap();
    assert_eq!(s.id, 1);
    assert_eq!(s.name, "mystique");
    assert_eq!(s.email, "mystique@example.com");
    assert_eq!(s.oauth_token, "mystique");
    assert_eq!(s.flags, 0);
    assert_eq!(s.token, "CAESATEaCG15c3RpcXVlIAA=");
    assert_eq!(cache.ttl(&s.token), Some(Some(259200)));
    assert_eq!(cache.get(&s.token).unwrap().name, "mystique");
}

#[test]
fn test_mode_unknown_token_is_system() {
    let auth = Authentication::new(true);
    let mut cache = SessionCache::new();
    assert_eq!(done(auth.authenticate(&mut cache, "rogue")).err(), Some(AuthError::System));
    assert!(session_create_short_circuit("bobo").is_ok());
    assert_eq!(session_create_short_circuit("hank").unwrap().user.id, "2");
}

#[test]
fn oauth_issuance_caches_one_session() {
    let auth = Authentication::new(false);
    let mut cache = SessionCache::new();
    let user = OAuth2User { id: "1".to_string(), email: None, username: "mystique".to_string() };
    let account = Account { id: 300, name: "mystique".to_string(), email: String::new() };
    let s = auth.session_create_oauth(&mut cache, "tk", &user, "gitlab", Ok(account)).unwrap();
    assert_eq!(s.token, "CKwCEgExGgJ0ayAC");
    assert_eq!(s.email, "");
    assert_eq!(token_account_id(&s.token), Some(300));
    assert_eq!(token_account_id(&s.token), Some(300));
    assert_eq!(cache.ttl(&s.token), Some(Some(Authentication::SESSION_DURATION)));
    let again = done(auth.authenticate(&mut cache, &s.token)).unwrap();
    assert_eq!(again.id, 300);
}

#[test]
fn oauth_issuance_failures() {
    let auth = Authentication::new(false);
    let mut cache = SessionCache::new();
    let user = OAuth2User { id: "1".to_string(), email: None, username: "x".to_string() };
    let account = Account { id: 3, name: "x".to_string(), email: String::new() };
    assert_eq!(
        auth.session_create_oauth(&mut cache, "tk", &user, "myspace", Ok(account)).err(),
        Some(AuthError::System)
    );
    assert_eq!(
        auth.session_create_oauth(&mut cache, "tk", &user, "github", Err(StoreError)).err(),
        Some(AuthError::Storage)
    );
}

#[test]
fn provider_names() {
    assert_eq!(parse_provider("GitHub"), Some(OAuthProvider::GitHub));
    assert_eq!(parse_provider("AZURE-AD"), Some(OAuthProvider::AzureAD));
    assert_eq!(parse_provider("chef-automate"), Some(OAuthProvider::ChefAutomate));
    assert_eq!(parse_provider("git hub"), None);
    assert_eq!(parse_provider(""), None);
}
