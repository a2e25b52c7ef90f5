//! The start of a login as a state machine: a login state is made and signed,
//! the application has the identity provider's client build the authorization
//! URL around the signed state, then persists the login state; the URL is
//! given out only once the state is persisted, so no callback can race ahead
//! of an unknown state.

use vstd::prelude::*;
use crate::primitives::base64_url_of;
use crate::response::ErrorCode;
use crate::settings::{DexSettings, has_connector};
use crate::state::{
    AuthState, AuthStateError, AuthStateManager, SignedState, signature_of, signed_frame, expiry_of,
    opt_view, hash_opt,
};

verus! {

/// How long a login state lives, in seconds.
pub const STATE_TTL_SECONDS: u64 = 600;

/// The query of a login request.
#[derive(Debug, Clone, PartialEq, Eq)]
pub struct LoginReqQuery {
    /// The connector to log in with.
    pub partner: String,
    pub next_url: Option<String>,
    /// Answer with JSON rather than a redirect.
    pub is_api: bool,
}

/// The answer to a login request.
#[derive(Debug, Clone, PartialEq, Eq)]
pub struct AuthNLoginUrlResponse {
    pub uri: String,
}

/// Why building the authorization URL fails.
#[derive(Debug, Clone, PartialEq, Eq)]
pub enum LoginURLError {
    BuildIssueURLError(String),
    BuildRequestClientError(String),
    FetchProviderMetadataError(String),
    BuildRedirectURLError(String),
    AuthStateError(AuthStateError),
}

/// Why a login fails.
#[derive(Debug, Clone, PartialEq, Eq)]
pub enum LoginError {
    IDPConnectorNotFound { name: String, message: String },
    LoginUrlError(LoginURLError),
}

impl LoginError {
    /// The code under which the error is answered.
    pub fn error_code(&self) -> (r: ErrorCode)
        ensures
            r == ErrorCode::InternalServerError,
    {
        match self {
            LoginError::IDPConnectorNotFound { .. } => ErrorCode::InternalServerError,
            LoginError::LoginUrlError(_) => ErrorCode::InternalServerError,
        }
    }

    /// The message for the user.
    pub fn message(&self) -> (r: String)
        ensures
            self is IDPConnectorNotFound ==> r@ == "IDP connector not found"@,
            self is LoginUrlError ==> r@ == "url build error"@,
    {
        match self {
            LoginError::IDPConnectorNotFound { .. } => "IDP connector not found".to_owned(),
            LoginError::LoginUrlError(_) => "url build error".to_owned(),
        }
    }
}

/// Checks that the connector `oidc_partner` is configured.
pub fn require_connector(dex: &DexSettings, oidc_partner: &str) -> (r: Result<(), LoginError>)
    ensures
        r is Ok <==> has_connector(*dex, oidc_partner@),
        r matches Err(LoginError::IDPConnectorNotFound { name, .. }) ==> name@ == oidc_partner@,
        r is Err ==> r->Err_0 is IDPConnectorNotFound,
{
    if dex.has_connector(oidc_partner) {
        Ok(())
    } else {
        Err(
            LoginError::IDPConnectorNotFound {
                name: oidc_partner.to_owned(),
                message: "no `idp-connector` found".to_owned(),
            },
        )
    }
}

/// A request for an authorization URL.
#[derive(Debug, Clone)]
pub struct AuthorizedURLReq {
    pub dex_config: DexSettings,
    pub partner_name: String,
    pub next_url: Option<String>,
    pub client_ip: Option<String>,
    pub client_user_agent: Option<String>,
}

/// Where a login start stands.
#[derive(Debug)]
pub enum LoginStage {
    /// The login state is made and signed; the URL is to be built.
    Signed,
    /// The URL is built; the login state is to be persisted.
    UrlBuilt { url: String },
    /// The login state is persisted; the URL may be given out.
    StatePersisted { url: String },
    /// The login failed; nothing is given out.
    Failed { error: LoginURLError },
}

/// What the application reports back.
#[derive(Debug)]
#[allow(inconsistent_fields)]
pub enum LoginEvent {
    /// The identity provider's client built the URL (or failed to).
    UrlBuilt { result: Result<String, LoginURLError> },
    /// The login state was written to the cache (or not).
    Persisted { result: Result<(), AuthStateError> },
}

/// One login start in progress.
#[derive(Debug)]
pub struct LoginFlow {
    /// The connector to log in with.
    pub partner_name: String,
    /// The login state, to be persisted.
    pub auth_state: AuthState,
    /// The encoded signed state: the `state` parameter of the URL.
    pub state_token: String,
    pub stage: LoginStage,
}

/// The next stage after `event` at `stage`. An event that does not answer the
/// stage leaves it as it is.
pub open spec fn next_login_stage(stage: LoginStage, event: LoginEvent) -> LoginStage {
    match (stage, event) {
        (LoginStage::Signed, LoginEvent::UrlBuilt { result }) => match result {
            Ok(url) => LoginStage::UrlBuilt { url },
            Err(error) => LoginStage::Failed { error },
        },
        (LoginStage::UrlBuilt { url }, LoginEvent::Persisted { result }) => match result {
            Ok(()) => LoginStage::StatePersisted { url },
            Err(e) => LoginStage::Failed { error: LoginURLError::AuthStateError(e) },
        },
        (s, _) => s,
    }
}

/// What a login start gives out at `stage`: the URL once the state is
/// persisted, the error once it failed, nothing before.
pub open spec fn login_outcome(stage: LoginStage) -> Option<Result<String, LoginURLError>> {
    match stage {
        LoginStage::StatePersisted { url } => Some(Ok(url)),
        LoginStage::Failed { error } => Some(Err(error)),
        _ => None,
    }
}

/// Builds authorization requests against the login states of one cache.
pub struct LoginURLBuilder<P> {
    pub state_manager: AuthStateManager<P>,
    /// The secret under which states are signed.
    pub state_secret: String,
}

impl<P> LoginURLBuilder<P> {
    pub fn new(redis_pool: P, state_secret: &str) -> (r: Self)
        ensures
            r.state_manager.state_cache.redis_pool == redis_pool,
            r.state_manager.state_cache.key_prefix@ == "auth-login-state"@,
            r.state_secret@ == state_secret@,
    {
        Self { state_manager: AuthStateManager::new(redis_pool), state_secret: state_secret.to_owned() }
    }

    /// Starts a login: a fresh login state, living `STATE_TTL_SECONDS`, signed
    /// now and encoded.
    pub fn start(&self, req: AuthorizedURLReq) -> (r: Result<LoginFlow, LoginURLError>)
        ensures
            r matches Ok(flow) && flow.stage is Signed && flow.partner_name@ == req.partner_name@
                && flow.auth_state.oidc_partner@ == req.partner_name@
                && opt_view(flow.auth_state.return_url) == opt_view(req.next_url)
                && opt_view(flow.auth_state.ip_address) == opt_view(req.client_ip)
                && opt_view(flow.auth_state.user_agent_hash) == hash_opt(opt_view(req.client_user_agent))
                && flow.auth_state.user_session_id@.len() == 26
                && flow.auth_state.code_verifier@.len() == 43
                && flow.auth_state.csrf_token is Some && flow.auth_state.expires_at
                == expiry_of(flow.auth_state.created_at, STATE_TTL_SECONDS) && exists|ts: u64|
                flow.state_token@ == base64_url_of(
                    signed_frame(
                        flow.auth_state.user_session_id@,
                        ts,
                        signature_of(flow.auth_state.user_session_id@, ts, self.state_secret@),
                    ),
                ),
    {
        let auth_state = AuthState::new(
            req.partner_name.as_str(),
            &req.next_url,
            STATE_TTL_SECONDS,
            req.client_ip,
            req.client_user_agent,
        );
        let signed = match SignedState::new(auth_state.user_session_id.as_str(), self.state_secret.as_str()) {
            Ok(s) => s,
            Err(e) => {
                return Err(LoginURLError::AuthStateError(e));
            },
        };
        self.start_signed(req.partner_name, auth_state, signed)
    }

    /// Starts a login with a login state and its signed identifier.
    pub fn start_signed(&self, partner_name: String, auth_state: AuthState, signed: SignedState) -> (r: Result<
        LoginFlow,
        LoginURLError,
    >)
        ensures
            r matches Ok(flow) && flow.stage is Signed && flow.partner_name == partner_name
                && flow.auth_state == auth_state && flow.state_token@ == base64_url_of(signed.frame()),
    {
        let state_token = match signed.encode() {
            Ok(t) => t,
            Err(e) => {
                return Err(LoginURLError::AuthStateError(e));
            },
        };
        Ok(LoginFlow { partner_name, auth_state, state_token, stage: LoginStage::Signed })
    }

    /// Moves the login on with what the application reports.
    pub fn step(&self, flow: LoginFlow, event: LoginEvent) -> (r: LoginFlow)
        ensures
            r.partner_name == flow.partner_name,
            r.auth_state == flow.auth_state,
            r.state_token == flow.state_token,
            r.stage == next_login_stage(flow.stage, event),
    {
        let LoginFlow { partner_name, auth_state, state_token, stage } = flow;
        let stage = match (stage, event) {
            (LoginStage::Signed, LoginEvent::UrlBuilt { result }) => match result {
                Ok(url) => LoginStage::UrlBuilt { url },
                Err(error) => LoginStage::Failed { error },
            },
            (LoginStage::UrlBuilt { url }, LoginEvent::Persisted { result }) => match result {
                Ok(()) => LoginStage::StatePersisted { url },
                Err(e) => LoginStage::Failed { error: LoginURLError::AuthStateError(e) },
            },
            (s, _) => s,
        };
        LoginFlow { partner_name, auth_state, state_token, stage }
    }

    /// What the login gives out: the URL once the state is persisted.
    pub fn outcome(&self, flow: LoginFlow) -> (r: Option<Result<String, LoginURLError>>)
        ensures
            r == login_outcome(flow.stage),
    {
        match flow.stage {
            LoginStage::StatePersisted { url } => Some(Ok(url)),
            LoginStage::Failed { error } => Some(Err(error)),
            _ => None,
        }
    }
}

/// The authorization URL is given out only after the login state was
/// persisted: the only step to a stage that gives out a URL is a successful
/// write of the state, made after the URL was built.
pub proof fn lemma_url_only_after_persist(stage: LoginStage, event: LoginEvent)
    requires
        !(login_outcome(stage) matches Some(Ok(_))),
        login_outcome(next_login_stage(stage, event)) matches Some(Ok(_)),
    ensures
        stage is UrlBuilt,
        event matches LoginEvent::Persisted { result: Ok(()) },
{
}

} // verus!
