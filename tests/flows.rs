use std::collections::HashMap;

use oidc::callback::{CallbackAction, CallbackError, CallbackEvent, CallbackFlow, CallbackHandler, CallbackStage};
use oidc::login::{
    require_connector, AuthorizedURLReq, LoginError, LoginEvent, LoginStage, LoginURLBuilder, LoginURLError,
    STATE_TTL_SECONDS,
};
use oidc::response::ErrorCode;
use oidc::settings::{DexConnector, DexSettings};
use oidc::state::{AuthState, AuthStateError, SignedState};
use oidc::tokens::{ResponseTokens, TokenClaims};

const SECRET: &str = "state-secret";

fn dex() -> DexSettings {
    DexSettings {
        client_id: "client".to_string(),
        client_secret: "secret".to_string(),
        issuer_url: "http://127.0.0.1:5556/dex".to_string(),
        token_url: "http://127.0.0.1:5556/dex/token".to_string(),
        callback_url: "http://127.0.0.1:8000/callback".to_string(),
        connectors: vec![
            DexConnector { id: "github".to_string(), connector_type: "github".to_string(), name: "GitHub".to_string() },
            DexConnector { id: "google".to_string(), connector_type: "oidc".to_string(), name: "Google".to_string() },
        ],
        scopes: vec!["openid".to_string(), "email".to_string()],
    }
}

fn tokens() -> (ResponseTokens, TokenClaims) {
    (
        ResponseTokens {
            access_token: "at".to_string(),
            refresh_token: None,
            expires_at: Some(2000),
            id_token: Some("idt".to_string()),
            scopes: vec![],
            token_type: "bearer".to_string(),
        },
        TokenClaims {
            subject: "user-1".to_string(),
            user_email: Some("a@b.c".to_string()),
            email_verified: Some(true),
            username: None,
            given_name: None,
            family_name: None,
            middle_name: None,
            birth_date: None,
            phone: None,
            phone_verified: None,
            preferred_username: None,
            profile: None,
            picture: None,
            issue_at: 1000,
            expires_at: 2000,
            last_auth_time: None,
            auth_context_ref: None,
            auth_method_refs: None,
            issuer: "http://127.0.0.1:5556/dex".to_string(),
            audiences: vec!["client".to_string()],
            nonce: None,
        },
    )
}

/// A stand-in for the key-value cache: set, get, delete.
struct Cache(HashMap<String, AuthState>);

impl Cache {
    fn get(&self, key: &str) -> Result<Option<AuthState>, AuthStateError> {
        Ok(self.0.get(key).cloned())
    }
}

fn state(created_at: u64) -> AuthState {
    AuthState::assemble(
        "github",
        &None,
        STATE_TTL_SECONDS,
        None,
        None,
        created_at,
        "01ARZ3NDEKTSV4RRFFQ69G5FAV".to_string(),
        "n-1".to_string(),
        "v-1".to_string(),
        "c-1".to_string(),
    )
}

#[test]
fn connector_must_be_configured() {
    assert!(require_connector(&dex(), "github").is_ok());
    match require_connector(&dex(), "gitlab") {
        Err(LoginError::IDPConnectorNotFound { name, .. }) => assert_eq!(name, "gitlab"),
        other => panic!("unexpected {:?}", other),
    }
}

#[test]
fn login_errors_answer_as_internal_errors() {
    let e = LoginError::IDPConnectorNotFound { name: "x".to_string(), message: "m".to_string() };
    assert_eq!(e.error_code(), ErrorCode::InternalServerError);
    assert_eq!(e.message(), "IDP connector not found");
    let e = LoginError::LoginUrlError(LoginURLError::BuildIssueURLError("bad".to_string()));
    assert_eq!(e.message(), "url build error");
    assert_eq!(e.error_code().status_code(), 500);
}

#[test]
fn error_codes_map_to_http_statuses() {
    assert_eq!(ErrorCode::NotFound.status_code(), 404);
    assert_eq!(ErrorCode::BadRequest.status_code(), 400);
    assert_eq!(ErrorCode::UnAuthorized.status_code(), 401);
    assert_eq!(ErrorCode::Forbidden.status_code(), 403);
    assert_eq!(ErrorCode::Conflict.status_code(), 409);
}

fn login_req() -> AuthorizedURLReq {
    AuthorizedURLReq {
        dex_config: dex(),
        partner_name: "github".to_string(),
        next_url: Some("/next".to_string()),
        client_ip: Some("10.0.0.1".to_string()),
        client_user_agent: None,
    }
}

#[test]
fn login_gives_the_url_only_after_the_state_is_persisted() {
    let builder = LoginURLBuilder::new((), SECRET);
    let flow = builder.start(login_req()).unwrap();
    assert!(matches!(flow.stage, LoginStage::Signed));
    assert_eq!(flow.auth_state.expires_at - flow.auth_state.created_at, STATE_TTL_SECONDS);
    let signed = SignedState::decode(&flow.state_token, SECRET).unwrap();
    assert_eq!(signed.state_id, flow.auth_state.user_session_id);

    let flow = builder.step(flow, LoginEvent::UrlBuilt { result: Ok("https://idp/auth?x".to_string()) });
    assert!(matches!(flow.stage, LoginStage::UrlBuilt { .. }));
    // A persisted event before the URL is built changes nothing; here the URL is built.
    let flow = builder.step(flow, LoginEvent::Persisted { result: Ok(()) });
    assert_eq!(builder.outcome(flow), Some(Ok("https://idp/auth?x".to_string())));
}

#[test]
fn login_fails_when_persisting_fails() {
    let builder = LoginURLBuilder::new((), SECRET);
    let flow = builder.start(login_req()).unwrap();
    let flow = builder.step(flow, LoginEvent::UrlBuilt { result: Ok("https://idp/auth".to_string()) });
    let failure = AuthStateError::EncodeError("cache down".to_string());
    let flow = builder.step(flow, LoginEvent::Persisted { result: Err(failure.clone()) });
    assert_eq!(builder.outcome(flow), Some(Err(LoginURLError::AuthStateError(failure))));
}

#[test]
fn login_without_url_gives_nothing() {
    let builder = LoginURLBuilder::new((), SECRET);
    let flow = builder.start(login_req()).unwrap();
    let flow = builder.step(flow, LoginEvent::Persisted { result: Ok(()) });
    assert!(matches!(flow.stage, LoginStage::Signed));
    assert_eq!(builder.outcome(flow), None);
    let flow = builder.start(login_req()).unwrap();
    let err = LoginURLError::FetchProviderMetadataError("down".to_string());
    let flow = builder.step(flow, LoginEvent::UrlBuilt { result: Err(err.clone()) });
    assert_eq!(builder.outcome(flow), Some(Err(err)));
}

fn run_to_exchange(handler: &CallbackHandler<()>, cache: &Cache, token: &str, now: u64) -> CallbackFlow {
    let flow = handler.begin("code-1", token);
    let key = match handler.next_action(&flow) {
        CallbackAction::Retrieve { session_id } => session_id,
        other => panic!("unexpected {:?}", other),
    };
    handler.step(flow, CallbackEvent::Retrieved { result: cache.get(&key), now })
}

#[test]
fn end_to_end_state_is_retrieved_once_and_then_gone() {
    let handler = CallbackHandler::new(&(), SECRET);
    let s = state(1000);
    let token = SignedState::signed_at(&s.user_session_id, 1000, SECRET).encode().unwrap();
    let decoded = SignedState::decode(&token, SECRET).unwrap();
    assert_eq!(decoded.state_id, s.user_session_id);

    let mut cache = Cache(HashMap::new());
    cache.0.insert(s.user_session_id.clone(), s.clone());
    assert_eq!(cache.get(&s.user_session_id).unwrap(), Some(s.clone()));

    let flow = run_to_exchange(&handler, &cache, &token, 1100);
    match handler.next_action(&flow) {
        CallbackAction::Exchange { code, code_verifier, nonce } => {
            assert_eq!(code, "code-1");
            assert_eq!(code_verifier, "v-1");
            assert_eq!(nonce, "n-1");
        }
        other => panic!("unexpected {:?}", other),
    }
    let flow = handler.step(flow, CallbackEvent::Exchanged { result: Ok(tokens()) });
    match handler.next_action(&flow) {
        CallbackAction::Invalidate { session_id } => {
            cache.0.remove(&session_id);
        }
        other => panic!("unexpected {:?}", other),
    }
    let flow = handler.step(flow, CallbackEvent::Invalidated { result: Ok(()) });
    assert_eq!(handler.next_action(&flow), CallbackAction::Finish);
    match flow.stage {
        CallbackStage::Terminal { result: Ok((auth_state, _, claims)) } => {
            assert_eq!(auth_state, s);
            assert_eq!(claims.subject, "user-1");
        }
        other => panic!("unexpected {:?}", other),
    }
    assert_eq!(cache.get(&s.user_session_id).unwrap(), None);

    // Replaying the same callback finds nothing.
    let flow = run_to_exchange(&handler, &cache, &token, 1100);
    assert!(matches!(flow.stage, CallbackStage::Terminal { result: Err(CallbackError::AuthStateNotFound) }));
}

#[test]
fn two_callbacks_in_turn_only_one_sees_the_state() {
    let handler = CallbackHandler::new(&(), SECRET);
    let s = state(1000);
    let token = SignedState::signed_at(&s.user_session_id, 1000, SECRET).encode().unwrap();
    let mut cache = Cache(HashMap::new());
    cache.0.insert(s.user_session_id.clone(), s.clone());

    let first = run_to_exchange(&handler, &cache, &token, 1100);
    let first = handler.step(first, CallbackEvent::Exchanged { result: Ok(tokens()) });
    if let CallbackAction::Invalidate { session_id } = handler.next_action(&first) {
        cache.0.remove(&session_id);
    }
    let first = handler.step(first, CallbackEvent::Invalidated { result: Ok(()) });
    let second = run_to_exchange(&handler, &cache, &token, 1100);
    let seen = [&first, &second]
        .iter()
        .filter(|f| matches!(f.stage, CallbackStage::Terminal { result: Ok(_) }))
        .count();
    assert_eq!(seen, 1);
    assert!(matches!(second.stage, CallbackStage::Terminal { result: Err(CallbackError::AuthStateNotFound) }));
}

#[test]
fn bad_tokens_end_the_callback() {
    let handler = CallbackHandler::new(&(), SECRET);
    let flow = handler.begin("code", "%%%");
    assert!(matches!(
        flow.stage,
        CallbackStage::Terminal { result: Err(CallbackError::SignedStateDecode(AuthStateError::DecodeError(_))) }
    ));
    assert_eq!(handler.next_action(&flow), CallbackAction::Finish);
    let foreign = SignedState::signed_at("abc", 5, "another-secret").encode().unwrap();
    let flow = handler.begin("code", &foreign);
    assert!(matches!(
        flow.stage,
        CallbackStage::Terminal {
            result: Err(CallbackError::SignedStateDecode(AuthStateError::SignatureMismatchError(_)))
        }
    ));
}

#[test]
fn cache_failure_is_a_retrieve_error() {
    let handler = CallbackHandler::new(&(), SECRET);
    let token = SignedState::signed_at("abc", 5, SECRET).encode().unwrap();
    let flow = handler.begin("code", &token);
    assert_eq!(handler.next_action(&flow), CallbackAction::Retrieve { session_id: "abc".to_string() });
    let e = AuthStateError::DecodeError("x".to_string());
    let flow = handler.step(flow, CallbackEvent::Retrieved { result: Err(e.clone()), now: 0 });
    assert!(matches!(flow.stage, CallbackStage::Terminal { result: Err(CallbackError::AuthStateRetrieve(ref got)) } if *got == e));
}

#[test]
fn expired_state_is_invalidated_and_refused() {
    let handler = CallbackHandler::new(&(), SECRET);
    let s = state(1000);
    let token = SignedState::signed_at(&s.user_session_id, 1000, SECRET).encode().unwrap();
    let mut cache = Cache(HashMap::new());
    cache.0.insert(s.user_session_id.clone(), s.clone());
    let flow = run_to_exchange(&handler, &cache, &token, 1000 + STATE_TTL_SECONDS + 1);
    assert_eq!(handler.next_action(&flow), CallbackAction::Invalidate { session_id: s.user_session_id.clone() });
    let flow = handler.step(flow, CallbackEvent::Invalidated { result: Ok(()) });
    assert!(matches!(flow.stage, CallbackStage::Terminal { result: Err(CallbackError::AuthStateValidation) }));
}

#[test]
fn failed_exchange_still_invalidates() {
    let handler = CallbackHandler::new(&(), SECRET);
    let s = state(1000);
    let token = SignedState::signed_at(&s.user_session_id, 1000, SECRET).encode().unwrap();
    let mut cache = Cache(HashMap::new());
    cache.0.insert(s.user_session_id.clone(), s.clone());
    let flow = run_to_exchange(&handler, &cache, &token, 1001);
    let flow = handler.step(flow, CallbackEvent::Exchanged { result: Err(CallbackError::IDTokenVerificationFailed) });
    assert_eq!(handler.next_action(&flow), CallbackAction::Invalidate { session_id: s.user_session_id.clone() });
    let flow = handler.step(flow, CallbackEvent::Invalidated { result: Err(AuthStateError::DecodeError("x".to_string())) });
    assert!(matches!(flow.stage, CallbackStage::Terminal { result: Err(CallbackError::IDTokenVerificationFailed) }));
}

#[test]
fn failed_invalidation_after_success_is_an_error() {
    let handler = CallbackHandler::new(&(), SECRET);
    let s = state(1000);
    let token = SignedState::signed_at(&s.user_session_id, 1000, SECRET).encode().unwrap();
    let mut cache = Cache(HashMap::new());
    cache.0.insert(s.user_session_id.clone(), s.clone());
    let flow = run_to_exchange(&handler, &cache, &token, 1001);
    let flow = handler.step(flow, CallbackEvent::Exchanged { result: Ok(tokens()) });
    let e = AuthStateError::DecodeError("x".to_string());
    let flow = handler.step(flow, CallbackEvent::Invalidated { result: Err(e.clone()) });
    assert!(matches!(flow.stage, CallbackStage::Terminal { result: Err(CallbackError::AuthStateInvalidate(ref got)) } if *got == e));
}

#[test]
fn events_out_of_turn_change_nothing() {
    let handler = CallbackHandler::new(&(), SECRET);
    let token = SignedState::signed_at("abc", 5, SECRET).encode().unwrap();
    let flow = handler.begin("code", &token);
    let flow = handler.step(flow, CallbackEvent::Invalidated { result: Ok(()) });
    assert_eq!(handler.next_action(&flow), CallbackAction::Retrieve { session_id: "abc".to_string() });
}
