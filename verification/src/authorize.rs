//! The handshake and token lifecycle: the callback routes' decisions,
//! the correlation-token check, and the exchange/refresh state machine.

use vstd::prelude::*;

use rand::distr::SampleString;

use crate::config::SpautofyConfig;
use crate::json::{pairs_model, parse_object, parse_object_spec, JsonScalar, ScalarModel};
use crate::store::{config_snapshot, file_json, find_idx, find_val};

verus! {

#[verifier::external_type_specification]
#[verifier::external_body]
pub struct ExReqwestError(reqwest::Error);

#[verifier::external_type_specification]
#[verifier::external_body]
pub struct ExRequestBuilder(reqwest::RequestBuilder);

/// What can go wrong between the captured code and an authorized session.
#[derive(Debug)]
pub enum AuthorizeError {
    /// The exchange was attempted before any authorization code existed.
    NoUserAuthCode,
    /// The provider rejected the code or the refresh material.
    ExpiredUserCode,
    /// The request did not complete at the transport level.
    RequestError(reqwest::Error),
    Unknown,
}

impl From<reqwest::Error> for AuthorizeError {
    fn from(err: reqwest::Error) -> (r: Self) {
        AuthorizeError::RequestError(err)
    }
}

impl vstd::std_specs::convert::FromSpecImpl<reqwest::Error> for AuthorizeError {
    open spec fn obeys_from_spec() -> bool {
        true
    }

    open spec fn from_spec(err: reqwest::Error) -> Self {
        AuthorizeError::RequestError(err)
    }
}

impl AuthorizeError {
    /// A fixed diagnostic line for each failure kind.
    pub fn message(&self) -> (r: String)
        ensures
            self is NoUserAuthCode ==> r@ == "Have not received user authorization yet."@,
            self is ExpiredUserCode ==> r@ == "User code has expired."@,
            self is RequestError ==> r@ == "Request error."@,
            self is Unknown ==> r@ == "Unknown error."@,
    {
        match self {
            AuthorizeError::NoUserAuthCode => String::from_str(
                "Have not received user authorization yet.",
            ),
            AuthorizeError::ExpiredUserCode => String::from_str("User code has expired."),
            AuthorizeError::RequestError(_) => String::from_str("Request error."),
            AuthorizeError::Unknown => String::from_str("Unknown error."),
        }
    }
}

/// An access/refresh token pair as received from the token endpoint,
/// together with the moment (in seconds) it was received.
#[derive(Debug, Clone)]
pub struct Access {
    pub access_token: String,
    pub scope: String,
    pub expires_in: u64,
    pub refresh_token: String,
    pub received_at: u64,
}

/// The rendering of a bearer authorization header value.
pub open spec fn bearer_header_chars(token: Seq<char>) -> Seq<char> {
    "Bearer "@ + token
}

impl Access {
    /// Seconds elapsed since the token set was received; a clock that
    /// reads earlier than the receipt counts as no time passed.
    pub open spec fn elapsed_spec(self, now: u64) -> nat {
        if now >= self.received_at {
            (now - self.received_at) as nat
        } else {
            0
        }
    }

    /// Whether the access token has outlived its granted lifetime.
    pub open spec fn is_expired_spec(self, now: u64) -> bool {
        self.elapsed_spec(now) > self.expires_in
    }

    pub fn is_expired(&self, now: u64) -> (r: bool)
        ensures
            r == self.is_expired_spec(now),
    {
        let elapsed: u64 = if now >= self.received_at {
            now - self.received_at
        } else {
            0
        };
        elapsed > self.expires_in
    }

    /// The value of the authorization header this token set grants.
    pub fn bearer_header(&self) -> (r: String)
        ensures
            r@ == bearer_header_chars(self.access_token@),
    {
        let mut s = String::new();
        s.append("Bearer ");
        s.append(self.access_token.as_str());
        s
    }

    /// Relies on reqwest's RequestBuilder::bearer_auth: attaches an
    /// `Authorization: Bearer <access token>` header to the request.
    #[verifier::external_body]
    pub fn authorize(&self, request_builder: reqwest::RequestBuilder) -> reqwest::RequestBuilder {
        request_builder.bearer_auth(self.access_token.as_str())
    }
}

/// A token set is not expired at the moment it was received, stays valid
/// for its whole granted lifetime, and is expired as soon as more than
/// `expires_in` seconds have elapsed.
pub proof fn lemma_expiry(a: Access, now: u64)
    ensures
        now == a.received_at ==> !a.is_expired_spec(now),
        a.received_at <= now <= a.received_at + a.expires_in ==> !a.is_expired_spec(now),
        now > a.received_at + a.expires_in ==> a.is_expired_spec(now),
{
}

pub open spec fn is_alnum_char(c: char) -> bool {
    ('a' <= c && c <= 'z') || ('A' <= c && c <= 'Z') || ('0' <= c && c <= '9')
}

/// Relies on rand's Alphanumeric distribution and SampleString: a string
/// of exactly 30 characters drawn uniformly from a-z, A-Z and 0-9.
#[verifier::external_body]
pub(crate) fn random_state() -> (r: String)
    ensures
        r@.len() == 30,
        forall|i: int| 0 <= i < r@.len() ==> is_alnum_char(#[trigger] r@[i]),
{
    rand::distr::Alphanumeric.sample_string(&mut rand::rng(), 30)
}

/// Why a callback ends the handshake instead of capturing a code.
#[derive(Debug)]
pub enum CallbackAbort {
    /// The `state` parameter does not equal the correlation token issued
    /// for this session (or no token was issued): a protocol violation.
    StateMismatch,
    /// The provider reported an error instead of a code.
    ProviderDenied(String),
    /// Neither a code nor an error came back: a protocol violation.
    MissingCode,
}

/// The route serving `/`: sends the browser on to `/done` once a code has
/// been captured, else to `/auth`.
pub fn index(config: &SpautofyConfig) -> (r: &'static str)
    ensures
        config.user_auth_code is Some ==> r@ == "/done"@,
        config.user_auth_code is None ==> r@ == "/auth"@,
{
    if config.user_auth_code.is_some() {
        "/done"
    } else {
        "/auth"
    }
}

/// The route serving `/auth`: issues a fresh correlation token for this
/// session (invalidating any earlier one) and sends the browser to the
/// provider's authorization URL built for it.
pub fn auth(config: &mut SpautofyConfig) -> (r: String)
    requires
        old(config).credentials_present(),
    ensures
        final(config).random_state@.len() == 30,
        forall|i: int|
            0 <= i < final(config).random_state@.len() ==> is_alnum_char(
                #[trigger] final(config).random_state@[i],
            ),
        final(config).address == old(config).address,
        final(config).port == old(config).port,
        final(config).client_id == old(config).client_id,
        final(config).client_secret == old(config).client_secret,
        final(config).user_auth_code == old(config).user_auth_code,
        r@ == final(config).auth_url_chars(),
{
    let token = random_state();
    config.random_state = token;
    config.auth_request()
}

/// The route serving `/callback`: validates the `state` parameter against
/// the issued correlation token before anything else. On a mismatch, on a
/// provider-reported error, or when neither code nor error came back, the
/// handshake is aborted and the configuration is left untouched; only a
/// matching callback carrying a code stores it.
pub fn callback(config: &mut SpautofyConfig, state: String, code: Option<String>, error: Option<
    String,
>) -> (r: Result<&'static str, CallbackAbort>)
    ensures
        (old(config).random_state@.len() == 0 || state@ != old(config).random_state@) ==> (r
            == Err::<&'static str, CallbackAbort>(CallbackAbort::StateMismatch) && *final(config)
            == *old(config)),
        (old(config).random_state@.len() > 0 && state@ == old(config).random_state@) ==> (match error {
            Some(e) => r == Err::<&'static str, CallbackAbort>(CallbackAbort::ProviderDenied(e))
                && *final(config) == *old(config),
            None => (match code {
                Some(c) => r is Ok && r->Ok_0@ == "/done"@ && *final(config) == (SpautofyConfig {
                    user_auth_code: Some(c),
                    ..*old(config)
                }),
                None => r == Err::<&'static str, CallbackAbort>(CallbackAbort::MissingCode)
                    && *final(config) == *old(config),
            }),
        }),
{
    if config.random_state.as_str().is_empty() || !(state == config.random_state) {
        return Err(CallbackAbort::StateMismatch);
    }
    if let Some(e) = error {
        return Err(CallbackAbort::ProviderDenied(e));
    }
    match code {
        Some(c) => {
            config.user_auth_code = Some(c);
            Ok("/done")
        },
        None => Err(CallbackAbort::MissingCode),
    }
}

/// What the token step should do next; deciding it performs no network
/// call, so a still-valid token set is returned as it is (a pure read).
pub enum TokenDecision {
    /// The step cannot proceed; carries the typed failure.
    Failed(AuthorizeError),
    /// The current token set is still valid: use it, ask nothing.
    UseExisting(Access),
    /// POST this form body to the token endpoint.
    RequestTokens(String),
}

/// Decides the token step from the configuration, the token set of the
/// previous step (if any) and the current time. Without a captured code
/// the step fails; a non-expired token set is handed back untouched; an
/// expired one leads to a refresh request, none at all to a code
/// exchange.
pub fn token_request_decision(config: &SpautofyConfig, old_access: Option<Access>, now: u64) -> (d:
    TokenDecision)
    ensures
        config.user_auth_code is None ==> d == TokenDecision::Failed(
            AuthorizeError::NoUserAuthCode,
        ),
        config.user_auth_code is Some && old_access is Some && !old_access->0.is_expired_spec(now)
            ==> d == TokenDecision::UseExisting(old_access->0),
        config.user_auth_code is Some && old_access is Some && old_access->0.is_expired_spec(now)
            ==> d is RequestTokens && d->RequestTokens_0@
            == SpautofyConfig::refresh_request_body_chars(old_access->0.refresh_token@),
        config.user_auth_code is Some && old_access is None ==> d is RequestTokens
            && d->RequestTokens_0@ == config.token_request_body_chars(
            config.user_auth_code->0@,
        ),
{
    if config.needs_auth() {
        return TokenDecision::Failed(AuthorizeError::NoUserAuthCode);
    }
    match old_access {
        Some(access) => {
            if !access.is_expired(now) {
                TokenDecision::UseExisting(access)
            } else {
                let body = config.refresh_token_request(access.refresh_token.as_str());
                TokenDecision::RequestTokens(body)
            }
        },
        None => {
            match config.access_token_request() {
                Ok(body) => TokenDecision::RequestTokens(body),
                Err(e) => TokenDecision::Failed(e),  // unreachable: a code is present
            }
        },
    }
}

/// Turns the outcome of parsing the token endpoint's response body into
/// the step's result: a response that does not parse as a token set means
/// the provider rejected the code or refresh material.
pub fn interpret_token_response(parsed: Option<Access>) -> (r: Result<Access, AuthorizeError>)
    ensures
        parsed is Some ==> r == Ok::<Access, AuthorizeError>(parsed->0),
        parsed is None ==> r == Err::<Access, AuthorizeError>(AuthorizeError::ExpiredUserCode),
{
    match parsed {
        Some(access) => Ok(access),
        None => Err(AuthorizeError::ExpiredUserCode),
    }
}

/// What the route serving `/done` does.
pub enum DoneOutcome {
    /// No code has been captured yet: send the browser back to `/auth`.
    RedirectToAuth,
    /// The handshake is complete: persist exactly this snapshot text and
    /// shut the listener down.
    Complete(String),
}

/// The route serving `/done`: until a code is captured it sends the
/// browser back to `/auth`; once one is, it hands back the exact snapshot
/// text to persist and signals the listener to shut down.
pub fn done(config: &SpautofyConfig) -> (r: DoneOutcome)
    ensures
        (config.user_auth_code is None) <==> (r is RedirectToAuth),
        config.user_auth_code is Some ==> r is Complete && r->0@ == file_json(
            config_snapshot(*config),
        ),
{
    if config.needs_auth() {
        DoneOutcome::RedirectToAuth
    } else {
        let file = config.to_file();
        proof {
            assert(file@ == config_snapshot(*config));
        }
        DoneOutcome::Complete(file.serialize())
    }
}

/// The page shown in the browser once the handshake is complete.
pub fn done_message() -> (r: &'static str)
    ensures
        r@ == "You successfully authorized the app. The web server is going to stop. You can close this window now."@,
{
    "You successfully authorized the app. The web server is going to stop. You can close this window now."
}

/// The mathematical reading of a token set.
pub struct AccessModel {
    pub access_token: Seq<char>,
    pub scope: Seq<char>,
    pub expires_in: nat,
    pub refresh_token: Seq<char>,
    pub received_at: nat,
}

impl View for Access {
    type V = AccessModel;

    open spec fn view(&self) -> AccessModel {
        AccessModel {
            access_token: self.access_token@,
            scope: self.scope@,
            expires_in: self.expires_in as nat,
            refresh_token: self.refresh_token@,
            received_at: self.received_at as nat,
        }
    }
}

/// How the token endpoint's members are read back as a token set: all
/// four fields must be present with the right shapes; the receipt time is
/// the caller's clock reading, taken before the body was parsed.
pub open spec fn access_of_pairs(ms: Seq<(Seq<char>, ScalarModel)>, now: u64) -> Option<
    AccessModel,
> {
    match (
        find_val(ms, "access_token"@),
        find_val(ms, "scope"@),
        find_val(ms, "expires_in"@),
        find_val(ms, "refresh_token"@),
    ) {
        (
            Some(ScalarModel::TextV(t)),
            Some(ScalarModel::TextV(sc)),
            Some(ScalarModel::NumberV(e)),
            Some(ScalarModel::TextV(rt)),
        ) => Some(
            AccessModel {
                access_token: t,
                scope: sc,
                expires_in: e,
                refresh_token: rt,
                received_at: now as nat,
            },
        ),
        _ => None,
    }
}

/// Reads a parsed token-endpoint member list into a token set.
pub fn token_set_from_pairs(pairs: &Vec<(String, JsonScalar)>, now: u64) -> (r: Option<Access>)
    ensures
        match r {
            Some(a) => access_of_pairs(pairs_model(pairs@), now) == Some(a@),
            None => access_of_pairs(pairs_model(pairs@), now) is None,
        },
{
    let key_token = String::from_str("access_token");
    let key_scope = String::from_str("scope");
    let key_expires = String::from_str("expires_in");
    let key_refresh = String::from_str("refresh_token");
    let access_token = match find_idx(pairs, &key_token) {
        Some(i) => match &pairs[i].1 {
            JsonScalar::Text(s) => s.clone(),
            JsonScalar::Number(_) | JsonScalar::Other => {
                return None;
            },
        },
        None => {
            return None;
        },
    };
    let scope = match find_idx(pairs, &key_scope) {
        Some(i) => match &pairs[i].1 {
            JsonScalar::Text(s) => s.clone(),
            JsonScalar::Number(_) | JsonScalar::Other => {
                return None;
            },
        },
        None => {
            return None;
        },
    };
    let expires_in = match find_idx(pairs, &key_expires) {
        Some(i) => match &pairs[i].1 {
            JsonScalar::Number(e) => *e,
            JsonScalar::Text(_) | JsonScalar::Other => {
                return None;
            },
        },
        None => {
            return None;
        },
    };
    let refresh_token = match find_idx(pairs, &key_refresh) {
        Some(i) => match &pairs[i].1 {
            JsonScalar::Text(s) => s.clone(),
            JsonScalar::Number(_) | JsonScalar::Other => {
                return None;
            },
        },
        None => {
            return None;
        },
    };
    Some(Access { access_token, scope, expires_in, refresh_token, received_at: now })
}

/// What reading a whole token-endpoint response body means.
pub open spec fn parse_token_spec(s: Seq<char>, now: u64) -> Option<AccessModel> {
    match parse_object_spec(s) {
        Some(ms) => access_of_pairs(ms, now),
        None => None,
    }
}

/// Reads a token-endpoint response body; `now` is the clock reading taken
/// when the response arrived, so the token's lifetime is not undercounted.
pub fn parse_token_response(s: &str, now: u64) -> (r: Option<Access>)
    ensures
        match r {
            Some(a) => parse_token_spec(s@, now) == Some(a@) && a.received_at == now,
            None => parse_token_spec(s@, now) is None,
        },
{
    match parse_object(s) {
        Some(pairs) => token_set_from_pairs(&pairs, now),
        None => None,
    }
}

} // verus!
