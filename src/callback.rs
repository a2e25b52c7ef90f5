//! The sign-in callback as a state machine: the application performs each
//! action that a stage asks for (a cache read, the code exchange with the
//! identity provider, a cache delete) and hands the outcome back as an event.
//!
//! Stages: the signed state is verified, the login state is looked up and
//! validated, the code is exchanged, and the login state is invalidated before
//! the result is given out. Once a login state has been retrieved it is
//! invalidated whatever comes after, so one callback can never be replayed.

use vstd::prelude::*;
use crate::primitives::base64_url_of;
use crate::settings::DexSettings;
use crate::state::{
    AuthState, AuthStateError, AuthStateManager, SignedState, TokenFault, decoded_frame, signature_of,
    signed_frame, lemma_signed_round_trip,
};
use crate::tokens::{ResponseTokens, TokenClaims};

verus! {

/// Why a callback fails.
#[derive(Debug, Clone, PartialEq, Eq)]
pub enum CallbackError {
    SignedStateDecode(AuthStateError),
    AuthStateNotFound,
    AuthStateRetrieve(AuthStateError),
    AuthStateValidation,
    BuildIssueURLError(String),
    BuildRequestClientError(String),
    FetchProviderMetadataError(String),
    BuildRedirectURLError(String),
    FailedToCreateAuthExchReq(String),
    FailedToExchTokenForCode(String),
    IDTokenExpectedInTokenResponse,
    IDTokenVerificationFailed,
    AuthStateInvalidate(AuthStateError),
}

/// The query of a callback from the identity provider.
#[derive(Debug, Clone, PartialEq, Eq)]
pub struct CallbackQuery {
    /// The authorization code.
    pub code: String,
    /// The signed state token.
    pub state: String,
}

/// What a finished callback answers with.
#[derive(Debug, Clone, PartialEq, Eq)]
pub struct CallbackResult {
    pub user_id: String,
    pub session_id: String,
    pub next_url: String,
}

/// The request behind a callback.
#[derive(Debug, Clone)]
pub struct CallbackReq {
    pub dex: DexSettings,
    pub client_ip: Option<String>,
    pub client_user_agent: Option<String>,
}

/// Where a callback stands.
#[derive(Debug)]
pub enum CallbackStage {
    /// The signed state checked out; the login state is to be looked up.
    StateVerified { session_id: String },
    /// The login state was found and is good; the code is to be exchanged.
    Validated { auth_state: AuthState },
    /// The login state is to be invalidated; `outcome` is given out after.
    Invalidating {
        session_id: String,
        outcome: Result<(AuthState, ResponseTokens, TokenClaims), CallbackError>,
    },
    /// Done.
    Terminal { result: Result<(AuthState, ResponseTokens, TokenClaims), CallbackError> },
}

/// What the application is to do next.
#[derive(Debug, Clone, PartialEq, Eq)]
pub enum CallbackAction {
    /// Read the login state with this session identifier from the cache.
    Retrieve { session_id: String },
    /// Exchange the authorization code, with the PKCE verifier, and verify the
    /// ID token against the nonce.
    Exchange { code: String, code_verifier: String, nonce: String },
    /// Delete the login state with this session identifier from the cache.
    Invalidate { session_id: String },
    /// Nothing: the callback is over.
    Finish,
}

/// What the application reports back.
#[derive(Debug)]
#[allow(inconsistent_fields)]
pub enum CallbackEvent {
    /// The cache read, made at Unix second `now`.
    Retrieved { result: Result<Option<AuthState>, AuthStateError>, now: u64 },
    /// The code exchange.
    Exchanged { result: Result<(ResponseTokens, TokenClaims), CallbackError> },
    /// The cache delete.
    Invalidated { result: Result<(), AuthStateError> },
}

/// One callback in progress.
#[derive(Debug)]
pub struct CallbackFlow {
    /// The authorization code from the identity provider.
    pub code: String,
    pub stage: CallbackStage,
}

/// The stage that a verified token leads to, for token bytes that decode to `d`.
pub open spec fn begun(stage: CallbackStage, d: Result<(Seq<char>, u64, Seq<char>), TokenFault>) -> bool {
    match d {
        Ok((id, _, _)) => stage matches CallbackStage::StateVerified { session_id } && session_id@
            == id,
        Err(TokenFault::Structure) => stage matches CallbackStage::Terminal {
            result: Err(CallbackError::SignedStateDecode(AuthStateError::DeserializeError(_))),
        },
        Err(TokenFault::Signature) => stage matches CallbackStage::Terminal {
            result: Err(CallbackError::SignedStateDecode(AuthStateError::SignatureMismatchError(_))),
        },
    }
}

/// The next stage after `event` at `stage`. An event that does not answer the
/// stage's action leaves the stage as it is.
pub open spec fn next_stage(stage: CallbackStage, event: CallbackEvent) -> CallbackStage {
    match (stage, event) {
        (CallbackStage::StateVerified { .. }, CallbackEvent::Retrieved { result, now }) => match result {
            Err(e) => CallbackStage::Terminal { result: Err(CallbackError::AuthStateRetrieve(e)) },
            Ok(None) => CallbackStage::Terminal { result: Err(CallbackError::AuthStateNotFound) },
            Ok(Some(s)) => if s.expired_at(now) {
                CallbackStage::Invalidating {
                    session_id: s.user_session_id,
                    outcome: Err(CallbackError::AuthStateValidation),
                }
            } else {
                CallbackStage::Validated { auth_state: s }
            },
        },
        (CallbackStage::Validated { auth_state }, CallbackEvent::Exchanged { result }) => {
            CallbackStage::Invalidating {
                session_id: auth_state.user_session_id,
                outcome: match result {
                    Ok((tokens, claims)) => Ok((auth_state, tokens, claims)),
                    Err(e) => Err(e),
                },
            }
        },
        (CallbackStage::Invalidating { outcome, .. }, CallbackEvent::Invalidated { result }) => {
            CallbackStage::Terminal {
                result: match (result, outcome) {
                    (Ok(()), o) => o,
                    (Err(e), Ok(_)) => Err(CallbackError::AuthStateInvalidate(e)),
                    (Err(_), Err(e)) => Err(e),
                },
            }
        },
        (s, _) => s,
    }
}

/// The action that a stage asks for.
pub open spec fn action_of(code: String, stage: CallbackStage) -> CallbackAction {
    match stage {
        CallbackStage::StateVerified { session_id } => CallbackAction::Retrieve { session_id },
        CallbackStage::Validated { auth_state } => CallbackAction::Exchange {
            code,
            code_verifier: auth_state.code_verifier,
            nonce: auth_state.nonce,
        },
        CallbackStage::Invalidating { session_id, .. } => CallbackAction::Invalidate { session_id },
        CallbackStage::Terminal { .. } => CallbackAction::Finish,
    }
}

/// Handles sign-in callbacks against the login states of one cache.
pub struct CallbackHandler<P> {
    pub state_manager: AuthStateManager<P>,
    /// The secret under which signed states are checked.
    pub state_secret: String,
}

impl<P: Clone> CallbackHandler<P> {
    pub fn new(redis_pool: &P, state_secret: &str) -> (r: Self)
        ensures
            r.state_manager.state_cache.key_prefix@ == "auth-login-state"@,
            r.state_secret@ == state_secret@,
    {
        Self {
            state_manager: AuthStateManager::new(redis_pool.clone()),
            state_secret: state_secret.to_owned(),
        }
    }
}

impl<P> CallbackHandler<P> {
    /// Starts a callback: decodes the signed state and checks its signature.
    /// A token that fails is the end of the callback.
    pub fn begin(&self, code: &str, state_id: &str) -> (r: CallbackFlow)
        ensures
            r.code@ == code@,
            forall|b: Seq<u8>|
                base64_url_of(b) == state_id@ ==> begun(
                    r.stage,
                    #[trigger] decoded_frame(b, self.state_secret@),
                ),
            (forall|b: Seq<u8>| base64_url_of(b) != state_id@) ==> r.stage matches CallbackStage::Terminal {
                result: Err(CallbackError::SignedStateDecode(AuthStateError::DecodeError(_))),
            },
    {
        let stage = match SignedState::decode(state_id, self.state_secret.as_str()) {
            Ok(signed) => CallbackStage::StateVerified { session_id: signed.state_id },
            Err(e) => CallbackStage::Terminal { result: Err(CallbackError::SignedStateDecode(e)) },
        };
        CallbackFlow { code: code.to_owned(), stage }
    }

    /// What the application is to do next.
    pub fn next_action(&self, flow: &CallbackFlow) -> (r: CallbackAction)
        ensures
            r == action_of(flow.code, flow.stage),
    {
        match &flow.stage {
            CallbackStage::StateVerified { session_id } => CallbackAction::Retrieve {
                session_id: session_id.clone(),
            },
            CallbackStage::Validated { auth_state } => CallbackAction::Exchange {
                code: flow.code.clone(),
                code_verifier: auth_state.code_verifier.clone(),
                nonce: auth_state.nonce.clone(),
            },
            CallbackStage::Invalidating { session_id, .. } => CallbackAction::Invalidate {
                session_id: session_id.clone(),
            },
            CallbackStage::Terminal { .. } => CallbackAction::Finish,
        }
    }

    /// Moves the callback on with what the application reports.
    pub fn step(&self, flow: CallbackFlow, event: CallbackEvent) -> (r: CallbackFlow)
        ensures
            r.code == flow.code,
            r.stage == next_stage(flow.stage, event),
    {
        let CallbackFlow { code, stage } = flow;
        let stage = match (stage, event) {
            (CallbackStage::StateVerified { session_id }, CallbackEvent::Retrieved { result, now }) => {
                match result {
                    Err(e) => CallbackStage::Terminal {
                        result: Err(CallbackError::AuthStateRetrieve(e)),
                    },
                    Ok(None) => CallbackStage::Terminal { result: Err(CallbackError::AuthStateNotFound) },
                    Ok(Some(s)) => {
                        if s.is_expired_at(now) {
                            CallbackStage::Invalidating {
                                session_id: s.user_session_id,
                                outcome: Err(CallbackError::AuthStateValidation),
                            }
                        } else {
                            CallbackStage::Validated { auth_state: s }
                        }
                    },
                }
            },
            (CallbackStage::Validated { auth_state }, CallbackEvent::Exchanged { result }) => {
                let session_id = auth_state.user_session_id.clone();
                CallbackStage::Invalidating {
                    session_id,
                    outcome: match result {
                        Ok((tokens, claims)) => Ok((auth_state, tokens, claims)),
                        Err(e) => Err(e),
                    },
                }
            },
            (CallbackStage::Invalidating { outcome, .. }, CallbackEvent::Invalidated { result }) => {
                CallbackStage::Terminal {
                    result: match (result, outcome) {
                        (Ok(()), o) => o,
                        (Err(e), Ok(_)) => Err(CallbackError::AuthStateInvalidate(e)),
                        (Err(_), Err(e)) => Err(e),
                    },
                }
            },
            (s, _) => s,
        };
        CallbackFlow { code, stage }
    }
}

/// Single use: a callback that has read a login state ends only by
/// invalidating it. The only steps into the end are the invalidation itself and
/// a cache read that found no state (or failed).
pub proof fn lemma_end_only_after_invalidation(stage: CallbackStage, event: CallbackEvent)
    requires
        !(stage is Terminal),
        next_stage(stage, event) is Terminal,
    ensures
        (stage is Invalidating && event is Invalidated) || (stage is StateVerified && (
        event matches CallbackEvent::Retrieved { result, .. } && !(result matches Ok(Some(_))))),
{
}

/// A login state that was read and is expired is invalidated, not exchanged.
pub proof fn lemma_expired_state_invalidated(session_id: String, state: AuthState, now: u64)
    requires
        state.expired_at(now),
    ensures
        next_stage(
            CallbackStage::StateVerified { session_id },
            CallbackEvent::Retrieved { result: Ok(Some(state)), now },
        ) == (CallbackStage::Invalidating {
            session_id: state.user_session_id,
            outcome: Err(CallbackError::AuthStateValidation),
        }),
{
}

/// The state token that a login hands out starts, under the same secret, a
/// callback on that login's session identifier.
pub proof fn lemma_login_token_accepted(
    state_id: Seq<char>,
    timestamp: u64,
    secret: Seq<char>,
    stage: CallbackStage,
)
    requires
        begun(
            stage,
            decoded_frame(
                signed_frame(state_id, timestamp, signature_of(state_id, timestamp, secret)),
                secret,
            ),
        ),
    ensures
        stage matches CallbackStage::StateVerified { session_id } && session_id@ == state_id,
{
    lemma_signed_round_trip(state_id, timestamp, secret);
}

} // verus!
