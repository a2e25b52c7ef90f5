//! The login state record, its signed handshake token, and the rules that
//! decide whether a state is still good.

use vstd::prelude::*;
use vstd::utf8::{decode_utf8, encode_utf8, valid_utf8, encode_utf8_decode_utf8, encode_utf8_valid_utf8};
use crate::primitives::{
    hex_of, sha256_of, hmac_sha256_of, base64_url_of, hex_encode, sha256, hmac_sha256,
    base64_url_encode, base64_url_decode, string_from_utf8, unix_now, new_ulid, random_token,
    random_pkce_verifier, is_crockford, is_base64_url_char,
};
use crate::frame::{
    frame_of, parse_frame, lemma_parse_frame, write_frame, read_frame, push_all,
};
use crate::cache::{RedisCache, StateCacheError};

verus! {

/// Errors of signing, encoding, decoding and storing login states.
#[derive(Debug, Clone, PartialEq, Eq)]
pub enum AuthStateError {
    SecretHMacError(String),
    SignatureMismatchError(String),
    DecodeError(String),
    DeserializeError(String),
    SerializeError(String),
    EncodeError(String),
    AuthStateCacheError(StateCacheError),
}

/// One login attempt in flight.
#[derive(Debug, Clone, PartialEq, Eq)]
pub struct AuthState {
    /// The identity-provider connector that was selected.
    pub oidc_partner: String,
    /// The session identifier (a ULID): the cache key and the correlation id.
    pub user_session_id: String,
    /// Bound into the identity token request, against replay.
    pub nonce: String,
    /// The PKCE code verifier.
    pub code_verifier: String,
    /// Where to go after login.
    pub return_url: Option<String>,
    /// Unix seconds at creation.
    pub created_at: u64,
    pub csrf_token: Option<String>,
    /// Unix seconds after which the state is expired.
    pub expires_at: u64,
    /// The client address seen at creation.
    pub ip_address: Option<String>,
    /// The hash of the client user agent seen at creation.
    pub user_agent_hash: Option<String>,
}

/// The text of an optional string.
pub open spec fn opt_view(o: Option<String>) -> Option<Seq<char>> {
    match o {
        Some(s) => Some(s@),
        None => None,
    }
}

/// The one-way hash under which a user agent is kept: SHA-256 of its UTF-8
/// bytes, in lowercase hexadecimal.
pub open spec fn user_agent_hash_of(user_agent: Seq<char>) -> Seq<char> {
    hex_of(sha256_of(encode_utf8(user_agent)))
}

/// The hash of an optional user agent.
pub open spec fn hash_opt(user_agent: Option<Seq<char>>) -> Option<Seq<char>> {
    match user_agent {
        Some(ua) => Some(user_agent_hash_of(ua)),
        None => None,
    }
}

/// `created_at + ttl`, held at the largest timestamp.
pub open spec fn expiry_of(created_at: u64, ttl: u64) -> u64 {
    if created_at + ttl > u64::MAX {
        u64::MAX
    } else {
        (created_at + ttl) as u64
    }
}

impl AuthState {
    /// A state is expired at `now` once `now` is past its expiry.
    pub open spec fn expired_at(&self, now: u64) -> bool {
        now > self.expires_at
    }

    /// Starts a login attempt: a fresh session identifier, nonce, PKCE code
    /// verifier and CSRF token, created now and good for `ttl_seconds`; the user
    /// agent is kept only as its hash.
    pub fn new(
        oidc_partner: &str,
        return_url: &Option<String>,
        ttl_seconds: u64,
        ip_address: Option<String>,
        user_agent: Option<String>,
    ) -> (r: Self)
        ensures
            r.oidc_partner@ == oidc_partner@,
            opt_view(r.return_url) == opt_view(*return_url),
            r.expires_at == expiry_of(r.created_at, ttl_seconds),
            opt_view(r.ip_address) == opt_view(ip_address),
            opt_view(r.user_agent_hash) == hash_opt(opt_view(user_agent)),
            r.user_session_id@.len() == 26,
            forall|i: int| 0 <= i < 26 ==> is_crockford(#[trigger] r.user_session_id@[i]),
            r.csrf_token is Some,
            r.code_verifier@.len() == 43,
            forall|i: int| 0 <= i < 43 ==> is_base64_url_char(#[trigger] r.code_verifier@[i]),
    {
        let created_at = unix_now();
        let session_id = new_ulid();
        let code_verifier = random_pkce_verifier();
        let nonce = random_token();
        let csrf_token = random_token();
        Self::assemble(
            oidc_partner,
            return_url,
            ttl_seconds,
            ip_address,
            user_agent,
            created_at,
            session_id,
            nonce,
            code_verifier,
            csrf_token,
        )
    }

    /// Builds a state from its clock reading and its random parts.
    pub fn assemble(
        oidc_partner: &str,
        return_url: &Option<String>,
        ttl_seconds: u64,
        ip_address: Option<String>,
        user_agent: Option<String>,
        created_at: u64,
        session_id: String,
        nonce: String,
        code_verifier: String,
        csrf_token: String,
    ) -> (r: Self)
        ensures
            r.oidc_partner@ == oidc_partner@,
            r.user_session_id@ == session_id@,
            r.nonce@ == nonce@,
            r.code_verifier@ == code_verifier@,
            opt_view(r.return_url) == opt_view(*return_url),
            r.created_at == created_at,
            opt_view(r.csrf_token) == Some(csrf_token@),
            r.expires_at == expiry_of(created_at, ttl_seconds),
            opt_view(r.ip_address) == opt_view(ip_address),
            opt_view(r.user_agent_hash) == hash_opt(opt_view(user_agent)),
    {
        let expires_at = if ttl_seconds > u64::MAX - created_at {
            u64::MAX
        } else {
            created_at + ttl_seconds
        };
        let return_url = match return_url {
            Some(u) => Some(u.clone()),
            None => None,
        };
        let user_agent_hash = match user_agent {
            Some(ua) => Some(hash_user_agent(ua.as_str())),
            None => None,
        };
        Self {
            oidc_partner: oidc_partner.to_owned(),
            user_session_id: session_id,
            nonce,
            code_verifier,
            return_url,
            created_at,
            csrf_token: Some(csrf_token),
            expires_at,
            ip_address,
            user_agent_hash,
        }
    }

    /// Whether the state is expired by the clock now. A state whose expiry is
    /// the largest timestamp never is.
    pub fn is_expired(&self) -> (r: bool)
        ensures
            self.expires_at == u64::MAX ==> !r,
    {
        self.is_expired_at(unix_now())
    }

    /// Whether the state is expired at `now`.
    pub fn is_expired_at(&self, now: u64) -> (r: bool)
        ensures
            r == self.expired_at(now),
    {
        now > self.expires_at
    }
}

/// Hashes a user agent for privacy: SHA-256, in lowercase hexadecimal.
pub fn hash_user_agent(user_agent: &str) -> (r: String)
    ensures
        r@ == user_agent_hash_of(user_agent@),
{
    let digest = sha256(user_agent.as_bytes());
    hex_encode(digest.as_slice())
}

/// Little-endian bytes of `v`, `n` of them.
pub open spec fn le_bytes_of(v: nat, n: nat) -> Seq<u8>
    decreases n,
{
    if n == 0 {
        Seq::empty()
    } else {
        seq![(v % 256) as u8] + le_bytes_of(v / 256, (n - 1) as nat)
    }
}

/// The signature of a state identifier at a timestamp under a secret:
/// HMAC-SHA-256 keyed by the secret's UTF-8 bytes, over the identifier's UTF-8
/// bytes followed by the timestamp's eight little-endian bytes, in lowercase
/// hexadecimal.
pub open spec fn signature_of(state_id: Seq<char>, timestamp: u64, secret: Seq<char>) -> Seq<
    char,
> {
    hex_of(
        hmac_sha256_of(
            encode_utf8(secret),
            encode_utf8(state_id) + le_bytes_of(timestamp as nat, 8),
        ),
    )
}

/// The frame of a signed state, over the UTF-8 bytes of its text fields.
pub open spec fn signed_frame(state_id: Seq<char>, timestamp: u64, signature: Seq<char>) -> Seq<
    u8,
> {
    frame_of(encode_utf8(state_id), timestamp, encode_utf8(signature))
}

/// Why the bytes of a token are refused.
#[derive(Debug, Clone, Copy, PartialEq, Eq)]
pub enum TokenFault {
    /// Not the frame of a signed state.
    Structure,
    /// The signature is not that of the identifier and timestamp under the secret.
    Signature,
}

/// What the bytes inside a token decode to under `secret`.
pub open spec fn decoded_frame(b: Seq<u8>, secret: Seq<char>) -> Result<
    (Seq<char>, u64, Seq<char>),
    TokenFault,
> {
    match parse_frame(b) {
        None => Err(TokenFault::Structure),
        Some((id, timestamp, signature)) => {
            if !valid_utf8(id) || !valid_utf8(signature) {
                Err(TokenFault::Structure)
            } else if decode_utf8(signature) != signature_of(
                decode_utf8(id),
                timestamp,
                secret,
            ) {
                Err(TokenFault::Signature)
            } else {
                Ok((decode_utf8(id), timestamp, decode_utf8(signature)))
            }
        },
    }
}

/// `r` is what `decode` owes for a token whose bytes decode to `d`.
pub open spec fn decode_outcome(
    r: Result<SignedState, AuthStateError>,
    d: Result<(Seq<char>, u64, Seq<char>), TokenFault>,
) -> bool {
    match d {
        Ok((id, timestamp, signature)) => r is Ok && r->Ok_0.state_id@ == id && r->Ok_0.timestamp
            == timestamp && r->Ok_0.signature@ == signature,
        Err(TokenFault::Structure) => r is Err && r->Err_0 is DeserializeError,
        Err(TokenFault::Signature) => r is Err && r->Err_0 is SignatureMismatchError,
    }
}

/// A state identifier signed at a timestamp: the token that travels through
/// the identity provider and back.
#[derive(Debug, Clone, PartialEq, Eq)]
pub struct SignedState {
    /// The session identifier of the login state.
    pub state_id: String,
    /// Unix seconds at signing.
    pub timestamp: u64,
    /// `signature_of(state_id, timestamp, secret)`.
    pub signature: String,
}

fn le_bytes(v: u64) -> (r: Vec<u8>)
    ensures
        r@ == le_bytes_of(v as nat, 8),
{
    let mut out: Vec<u8> = Vec::new();
    let mut x = v;
    let mut i: usize = 0;
    while i < 8
        invariant
            i <= 8,
            out@ + le_bytes_of(x as nat, (8 - i) as nat) == le_bytes_of(v as nat, 8),
        decreases 8 - i,
    {
        let ghost before = out@;
        let ghost rest = le_bytes_of(x as nat, (8 - i) as nat);
        out.push((x % 256) as u8);
        x = x / 256;
        i = i + 1;
        assert(rest == seq![(rest[0])] + le_bytes_of(x as nat, (8 - i) as nat));
        assert(out@ + le_bytes_of(x as nat, (8 - i) as nat) =~= before + rest);
    }
    assert(out@ + le_bytes_of(x as nat, 0) =~= out@);
    out
}

impl SignedState {
    /// The frame that `encode` puts in base64.
    pub open spec fn frame(&self) -> Seq<u8> {
        signed_frame(self.state_id@, self.timestamp, self.signature@)
    }

    /// Signs `state_id` now under `secret`.
    pub fn new(state_id: &str, secret: &str) -> (r: Result<Self, AuthStateError>)
        ensures
            r is Ok,
            r->Ok_0.state_id@ == state_id@,
            r->Ok_0.signature@ == signature_of(state_id@, r->Ok_0.timestamp, secret@),
            r->Ok_0.signature@.len() == 64,
    {
        Ok(Self::signed_at(state_id, unix_now(), secret))
    }

    /// Signs `state_id` at `timestamp` under `secret`.
    pub fn signed_at(state_id: &str, timestamp: u64, secret: &str) -> (r: Self)
        ensures
            r.state_id@ == state_id@,
            r.timestamp == timestamp,
            r.signature@ == signature_of(state_id@, timestamp, secret@),
            r.signature@.len() == 64,
    {
        Self {
            state_id: state_id.to_owned(),
            timestamp,
            signature: Self::compute_signature(state_id, timestamp, secret),
        }
    }

    fn compute_signature(state_id: &str, timestamp: u64, secret: &str) -> (r: String)
        ensures
            r@ == signature_of(state_id@, timestamp, secret@),
            r@.len() == 64,
    {
        let mut message: Vec<u8> = Vec::new();
        push_all(&mut message, state_id.as_bytes());
        push_all(&mut message, le_bytes(timestamp).as_slice());
        let tag = hmac_sha256(secret.as_bytes(), message.as_slice());
        proof {
            lemma_hex_len(tag@);
        }
        hex_encode(tag.as_slice())
    }

    /// Checks the signature against the one that `secret` gives.
    pub fn verify_signature(&self, secret: &str) -> (r: Result<(), AuthStateError>)
        ensures
            r is Ok <==> self.signature@ == signature_of(self.state_id@, self.timestamp, secret@),
            r is Err ==> r->Err_0 is SignatureMismatchError,
    {
        let computed = Self::compute_signature(self.state_id.as_str(), self.timestamp, secret);
        if computed != self.signature {
            return Err(AuthStateError::SignatureMismatchError("signature verification failed".to_string()));
        }
        Ok(())
    }

    /// The token: the frame in unpadded URL-safe base64. Every state has one.
    pub fn encode(&self) -> (r: Result<String, AuthStateError>)
        ensures
            r is Ok,
            r->Ok_0@ == base64_url_of(self.frame()),
    {
        let id = self.state_id.as_str().as_bytes();
        let signature = self.signature.as_str().as_bytes();
        let framed = write_frame(id, self.timestamp, signature);
        Ok(base64_url_encode(framed.as_slice()))
    }

    /// Reads a token back and checks its signature under `secret`: text that is
    /// not base64 is a `DecodeError`, bytes that are not a JSON object of the
    /// three members (see `frame`) or hold text that is not UTF-8 a
    /// `DeserializeError`, and a wrong signature a `SignatureMismatchError`.
    pub fn decode(encoded: &str, secret: &str) -> (r: Result<Self, AuthStateError>)
        ensures
            forall|b: Seq<u8>|
                base64_url_of(b) == encoded@ ==> decode_outcome(r, #[trigger] decoded_frame(b, secret@)),
            (forall|b: Seq<u8>| base64_url_of(b) != encoded@) ==> r is Err && r->Err_0 is DecodeError,
    {
        let data = match base64_url_decode(encoded) {
            Some(d) => d,
            None => {
                return Err(AuthStateError::DecodeError("token is not unpadded URL-safe base64".to_string()));
            },
        };
        assert forall|b: Seq<u8>| base64_url_of(b) == encoded@ implies b == data@ by {}
        let (id, timestamp, signature) = match read_frame(data.as_slice()) {
            Some(f) => f,
            None => {
                return Err(AuthStateError::DeserializeError("token does not hold a signed state".to_string()));
            },
        };
        let state_id = match string_from_utf8(id) {
            Some(s) => s,
            None => {
                return Err(AuthStateError::DeserializeError("state id is not UTF-8".to_string()));
            },
        };
        let signature = match string_from_utf8(signature) {
            Some(s) => s,
            None => {
                return Err(AuthStateError::DeserializeError("signature is not UTF-8".to_string()));
            },
        };
        let state = SignedState { state_id, timestamp, signature };
        match state.verify_signature(secret) {
            Ok(()) => Ok(state),
            Err(e) => Err(e),
        }
    }
}

/// Hexadecimal text has two digits per byte.
pub proof fn lemma_hex_len(b: Seq<u8>)
    ensures
        hex_of(b).len() == 2 * b.len(),
    decreases b.len(),
{
    if b.len() > 0 {
        lemma_hex_len(b.drop_last());
    }
}

/// Signing a state identifier, framing the signed state and decoding that
/// frame with the same secret gives back the identifier, the timestamp and the
/// signature. `SignedState::encode` puts exactly this frame in base64, and
/// `SignedState::decode` reads the bytes of base64 text through
/// `decoded_frame`, so a token decodes under the secret that signed it.
pub proof fn lemma_signed_round_trip(state_id: Seq<char>, timestamp: u64, secret: Seq<char>)
    ensures
        decoded_frame(
            signed_frame(state_id, timestamp, signature_of(state_id, timestamp, secret)),
            secret,
        ) == Ok::<(Seq<char>, u64, Seq<char>), TokenFault>(
            (state_id, timestamp, signature_of(state_id, timestamp, secret)),
        ),
{
    let signature = signature_of(state_id, timestamp, secret);
    lemma_parse_frame(encode_utf8(state_id), timestamp, encode_utf8(signature));
    encode_utf8_valid_utf8(state_id);
    encode_utf8_valid_utf8(signature);
    encode_utf8_decode_utf8(state_id);
    encode_utf8_decode_utf8(signature);
}

/// A frame signed under one secret is refused, as a signature mismatch, under
/// another secret that signs the same identifier and timestamp differently.
pub proof fn lemma_other_secret_refused(
    state_id: Seq<char>,
    timestamp: u64,
    secret: Seq<char>,
    other: Seq<char>,
)
    requires
        signature_of(state_id, timestamp, secret) != signature_of(state_id, timestamp, other),
    ensures
        decoded_frame(
            signed_frame(state_id, timestamp, signature_of(state_id, timestamp, secret)),
            other,
        ) == Err::<(Seq<char>, u64, Seq<char>), TokenFault>(TokenFault::Signature),
{
    lemma_signed_round_trip(state_id, timestamp, secret);
    let signature = signature_of(state_id, timestamp, secret);
    lemma_parse_frame(encode_utf8(state_id), timestamp, encode_utf8(signature));
    encode_utf8_valid_utf8(state_id);
    encode_utf8_valid_utf8(signature);
    encode_utf8_decode_utf8(state_id);
    encode_utf8_decode_utf8(signature);
}

/// A state made with a positive time to live is not expired at its creation,
/// and is expired at every moment past `created_at + ttl`.
pub proof fn lemma_expiry(state: AuthState, ttl: u64, now: u64)
    requires
        ttl > 0,
        state.expires_at == expiry_of(state.created_at, ttl),
    ensures
        !state.expired_at(state.created_at),
        now > state.created_at + ttl ==> state.expired_at(now),
{
}

/// An advisory finding of validation: the client differs from the one that
/// began the login. It never fails a login on its own, since proxies and
/// browser updates change these legitimately.
#[derive(Debug, Clone, Copy, PartialEq, Eq)]
pub enum FingerprintWarning {
    IpAddressMismatch,
    UserAgentMismatch,
}

/// The advisory findings for a client with address `ip` and user agent `ua`.
pub open spec fn fingerprint_findings(
    state: AuthState,
    ip: Option<Seq<char>>,
    ua: Option<Seq<char>>,
) -> Seq<FingerprintWarning> {
    (if opt_view(state.ip_address) != ip {
        seq![FingerprintWarning::IpAddressMismatch]
    } else {
        Seq::empty()
    }) + (if hash_opt(ua) != opt_view(state.user_agent_hash) {
        seq![FingerprintWarning::UserAgentMismatch]
    } else {
        Seq::empty()
    })
}

/// The time to live of a state's cache entry: its lifetime, so that the entry
/// and the state expire together.
pub open spec fn store_ttl_of(state: AuthState) -> u64 {
    if state.expires_at >= state.created_at {
        (state.expires_at - state.created_at) as u64
    } else {
        0
    }
}

fn same_text(a: &Option<String>, b: &Option<String>) -> (r: bool)
    ensures
        r == (opt_view(*a) == opt_view(*b)),
{
    match (a, b) {
        (Some(x), Some(y)) => x.eq(y),
        (None, None) => true,
        _ => false,
    }
}

/// Stores, looks up, checks and invalidates login states in a cache reached
/// through a connection pool `P`.
pub struct AuthStateManager<P> {
    pub state_cache: RedisCache<P>,
}

impl<P> AuthStateManager<P> {
    pub fn new(redis_pool: P) -> (r: Self)
        ensures
            r.state_cache.redis_pool == redis_pool,
            r.state_cache.key_prefix@ == "auth-login-state"@,
    {
        Self { state_cache: RedisCache::new(redis_pool, "auth-login-state") }
    }

    /// The cache key of the state with this session identifier.
    pub fn state_key(&self, session_id: &str) -> (r: String)
        ensures
            r@ == self.state_cache.key_prefix@ + session_id@,
    {
        self.state_cache.generate_key(session_id)
    }

    /// The time to live with which `state` is stored.
    pub fn store_ttl(&self, state: &AuthState) -> (r: u64)
        ensures
            r == store_ttl_of(*state),
    {
        if state.expires_at >= state.created_at {
            state.expires_at - state.created_at
        } else {
            0
        }
    }

    /// Whether `state` is still good by the clock now. Address and user agent
    /// are advisory only (see `fingerprint_warnings`). A state whose expiry is
    /// the largest timestamp always passes.
    pub fn validate(
        &self,
        state: &AuthState,
        client_ip: &Option<String>,
        client_user_agent: &Option<String>,
    ) -> (r: bool)
        ensures
            state.expires_at == u64::MAX ==> r,
    {
        self.validate_at(state, client_ip, client_user_agent, unix_now())
    }

    /// Whether `state` is still good at `now`: it is exactly when it is not
    /// expired, whatever the client's address and user agent.
    pub fn validate_at(
        &self,
        state: &AuthState,
        client_ip: &Option<String>,
        client_user_agent: &Option<String>,
        now: u64,
    ) -> (r: bool)
        ensures
            r == !state.expired_at(now),
    {
        !state.is_expired_at(now)
    }

    /// The advisory findings on a client against the one that began the login.
    pub fn fingerprint_warnings(
        &self,
        state: &AuthState,
        client_ip: &Option<String>,
        client_user_agent: &Option<String>,
    ) -> (r: Vec<FingerprintWarning>)
        ensures
            r@ == fingerprint_findings(*state, opt_view(*client_ip), opt_view(*client_user_agent)),
    {
        let mut warnings: Vec<FingerprintWarning> = Vec::new();
        if !same_text(&state.ip_address, client_ip) {
            warnings.push(FingerprintWarning::IpAddressMismatch);
        }
        let hashed = match client_user_agent {
            Some(ua) => Some(hash_user_agent(ua.as_str())),
            None => None,
        };
        if !same_text(&hashed, &state.user_agent_hash) {
            warnings.push(FingerprintWarning::UserAgentMismatch);
        }
        assert(warnings@ =~= fingerprint_findings(
            *state,
            opt_view(*client_ip),
            opt_view(*client_user_agent),
        ));
        warnings
    }
}

/// `256` to the power `n`.
pub open spec fn pow256(n: nat) -> nat
    decreases n,
{
    if n == 0 {
        1
    } else {
        256 * pow256((n - 1) as nat)
    }
}

proof fn lemma_le_bytes_len(v: nat, n: nat)
    ensures
        le_bytes_of(v, n).len() == n,
    decreases n,
{
    if n > 0 {
        lemma_le_bytes_len(v / 256, (n - 1) as nat);
    }
}

proof fn lemma_le_bytes_injective(a: nat, b: nat, n: nat)
    requires
        le_bytes_of(a, n) == le_bytes_of(b, n),
        a < pow256(n),
        b < pow256(n),
    ensures
        a == b,
    decreases n,
{
    if n > 0 {
        let m = (n - 1) as nat;
        lemma_le_bytes_len(a / 256, m);
        lemma_le_bytes_len(b / 256, m);
        assert(le_bytes_of(a, n) == seq![(a % 256) as u8] + le_bytes_of(a / 256, m));
        assert(le_bytes_of(b, n) == seq![(b % 256) as u8] + le_bytes_of(b / 256, m));
        assert(le_bytes_of(a, n)[0] == (a % 256) as u8);
        assert(le_bytes_of(b, n)[0] == (b % 256) as u8);
        assert((a % 256) as u8 == (b % 256) as u8);
        assert(a % 256 == b % 256);
        assert(le_bytes_of(a / 256, m) =~= le_bytes_of(a, n).drop_first());
        assert(le_bytes_of(b / 256, m) =~= le_bytes_of(b, n).drop_first());
        let p = pow256(m);
        assert(a / 256 < p) by (nonlinear_arith)
            requires
                a < 256 * p,
        ;
        assert(b / 256 < p) by (nonlinear_arith)
            requires
                b < 256 * p,
        ;
        lemma_le_bytes_injective(a / 256, b / 256, m);
        assert(a == (a / 256) * 256 + a % 256);
        assert(b == (b / 256) * 256 + b % 256);
    }
}

/// The message that a signature covers determines the state identifier and
/// the timestamp: changing either changes what is signed.
pub proof fn lemma_signed_message_injective(id1: Seq<char>, t1: u64, id2: Seq<char>, t2: u64)
    requires
        encode_utf8(id1) + le_bytes_of(t1 as nat, 8) == encode_utf8(id2) + le_bytes_of(t2 as nat, 8),
    ensures
        id1 == id2,
        t1 == t2,
{
    let m1 = encode_utf8(id1) + le_bytes_of(t1 as nat, 8);
    let m2 = encode_utf8(id2) + le_bytes_of(t2 as nat, 8);
    lemma_le_bytes_len(t1 as nat, 8);
    lemma_le_bytes_len(t2 as nat, 8);
    let n = m1.len() - 8;
    assert(encode_utf8(id1) =~= m1.subrange(0, n));
    assert(encode_utf8(id2) =~= m2.subrange(0, n));
    assert(le_bytes_of(t1 as nat, 8) =~= m1.subrange(n, m1.len() as int));
    assert(le_bytes_of(t2 as nat, 8) =~= m2.subrange(n, m2.len() as int));
    encode_utf8_decode_utf8(id1);
    encode_utf8_decode_utf8(id2);
    assert(pow256(8) == 18446744073709551616) by {
        assert(pow256(0) == 1);
        assert(pow256(1) == 256);
        assert(pow256(2) == 65536);
        assert(pow256(3) == 16777216);
        assert(pow256(4) == 4294967296);
        assert(pow256(5) == 1099511627776);
        assert(pow256(6) == 281474976710656);
        assert(pow256(7) == 72057594037927936);
    }
    lemma_le_bytes_injective(t1 as nat, t2 as nat, 8);
}

} // verus!
