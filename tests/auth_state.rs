use oidc::cache::RedisCache;
use oidc::state::{hash_user_agent, AuthState, AuthStateManager, FingerprintWarning};

fn state_at(created_at: u64, ttl: u64) -> AuthState {
    AuthState::assemble(
        "github",
        &Some("/home".to_string()),
        ttl,
        Some("10.0.0.1".to_string()),
        Some("Mozilla/5.0".to_string()),
        created_at,
        "01ARZ3NDEKTSV4RRFFQ69G5FAV".to_string(),
        "nonce".to_string(),
        "verifier".to_string(),
        "csrf".to_string(),
    )
}

#[test]
fn user_agent_hash_is_hex_sha256() {
    assert_eq!(
        hash_user_agent("Mozilla/5.0"),
        "1066b48224bb188ceb955605f4fcff98893be2688d7e965afb04d36d17e7f0d7"
    );
}

#[test]
fn assemble_keeps_the_parts_and_hashes_the_user_agent() {
    let s = state_at(1000, 600);
    assert_eq!(s.oidc_partner, "github");
    assert_eq!(s.user_session_id, "01ARZ3NDEKTSV4RRFFQ69G5FAV");
    assert_eq!(s.return_url.as_deref(), Some("/home"));
    assert_eq!(s.created_at, 1000);
    assert_eq!(s.expires_at, 1600);
    assert_eq!(s.csrf_token.as_deref(), Some("csrf"));
    assert_eq!(s.user_agent_hash.as_deref(), Some(hash_user_agent("Mozilla/5.0").as_str()));
}

#[test]
fn expiry_saturates_at_the_largest_timestamp() {
    let s = state_at(u64::MAX - 5, 600);
    assert_eq!(s.expires_at, u64::MAX);
    assert!(!s.is_expired());
}

#[test]
fn new_state_has_a_ulid_and_is_not_expired() {
    let s = AuthState::new("github", &None, 600, None, Some("ua".to_string()));
    assert_eq!(s.user_session_id.len(), 26);
    assert_eq!(s.expires_at, s.created_at + 600);
    assert!(!s.is_expired());
    assert!(s.csrf_token.is_some());
    assert_eq!(s.code_verifier.len(), 43);
    assert_eq!(s.user_agent_hash, Some(hash_user_agent("ua")));
    let other = AuthState::new("github", &None, 600, None, None);
    assert_ne!(s.user_session_id, other.user_session_id);
    assert_ne!(s.nonce, other.nonce);
    assert_ne!(s.code_verifier, other.code_verifier);
}

#[test]
fn expiry_boundaries() {
    let s = state_at(1000, 600);
    assert!(!s.is_expired_at(1000));
    assert!(!s.is_expired_at(1600));
    assert!(s.is_expired_at(1601));
}

#[test]
fn validate_is_false_for_expired_state_even_with_matching_client() {
    let m = AuthStateManager::new(());
    let s = state_at(1000, 600);
    let ip = Some("10.0.0.1".to_string());
    let ua = Some("Mozilla/5.0".to_string());
    assert!(!m.validate_at(&s, &ip, &ua, 1601));
    assert!(m.fingerprint_warnings(&s, &ip, &ua).is_empty());
}

#[test]
fn validate_is_true_for_live_state_even_with_other_client() {
    let m = AuthStateManager::new(());
    let s = state_at(1000, 600);
    let ip = Some("192.168.1.1".to_string());
    let ua = Some("curl/8".to_string());
    assert!(m.validate_at(&s, &ip, &ua, 1200));
    assert_eq!(
        m.fingerprint_warnings(&s, &ip, &ua),
        vec![FingerprintWarning::IpAddressMismatch, FingerprintWarning::UserAgentMismatch]
    );
    assert_eq!(
        m.fingerprint_warnings(&s, &Some("10.0.0.1".to_string()), &None),
        vec![FingerprintWarning::UserAgentMismatch]
    );
}

#[test]
fn validate_by_the_clock() {
    let m = AuthStateManager::new(());
    let live = AuthState::new("github", &None, 600, None, None);
    assert!(m.validate(&live, &None, &None));
    let old = state_at(1000, 600);
    assert!(!m.validate(&old, &None, &None));
}

#[test]
fn store_ttl_is_the_lifetime() {
    let m = AuthStateManager::new(());
    assert_eq!(m.store_ttl(&state_at(1000, 600)), 600);
}

#[test]
fn cache_keys_carry_the_prefix() {
    let m = AuthStateManager::new(7u8);
    assert_eq!(m.state_cache.key_prefix, "auth-login-state");
    assert_eq!(m.state_cache.redis_pool, 7u8);
    assert_eq!(m.state_key("abc"), "auth-login-stateabc");
    let c = RedisCache::new((), "p:");
    assert_eq!(c.generate_key("x"), "p:x");
}
