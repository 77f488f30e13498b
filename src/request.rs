use vstd::prelude::*;

use crate::auth::{AuthError, Authenticator, TokenCheck, TokenState};
use crate::ratelimit::{spec_reset_at, spec_wait, LimitMethod, RateLimiter};

verus! {

#[verifier::external_type_specification]
#[verifier::external_body]
pub struct ExJsonValue(serde_json::Value);

/// Whether a text is one JSON document, as serde_json reads it.
pub uninterp spec fn json_accepts(s: Seq<char>) -> bool;

/// Relies on serde_json::from_str: it yields a value exactly when the text is
/// one well-formed JSON document.
#[verifier::external_body]
fn parse_json(body: &str) -> (r: Option<serde_json::Value>)
    ensures
        r is Some <==> json_accepts(body@),
{
    serde_json::from_str::<serde_json::Value>(body).ok()
}

/// The ways in which a request can fail.
#[derive(Clone, PartialEq, Eq, Debug)]
pub enum ApiError {
    /// The request could not be carried (network, DNS, TLS).
    Transport(String),
    /// The server answered with a status other than success.
    BadRequest { request: String, response: String },
    /// The server answered with success but the body is not JSON.
    BadResponse { request: String, response: String },
    /// No usable credential: nothing was sent.
    Forbidden { request: String },
    /// Obtaining a new token failed.
    AuthRenewalFailed(String),
    /// A request URL could not be built: the base is not an absolute URL.
    InvalidUrl { url: String },
}

/// Whether an HTTP status is a success (2xx).
pub open spec fn spec_is_success(status: u16) -> bool {
    200 <= status && status <= 299
}

/// The outcome of a request that the server answered, given the status, the
/// descriptions of request and response, the body and what reading the body
/// as JSON gave.
pub open spec fn spec_outcome(
    status: u16,
    request: String,
    response: String,
    body: String,
    parsed: Option<serde_json::Value>,
) -> Result<serde_json::Value, ApiError> {
    if !spec_is_success(status) {
        Err(ApiError::BadRequest { request, response })
    } else {
        match parsed {
            Some(v) => Ok(v),
            None => Err(ApiError::BadResponse { request, response: body }),
        }
    }
}

/// Classifies an answered request: a status other than success is a bad
/// request, carrying both descriptions; a body that did not read as JSON is
/// a bad response, carrying the body; otherwise the value read.
pub fn classify_response(
    status: u16,
    request: String,
    response: String,
    body: String,
    parsed: Option<serde_json::Value>,
) -> (r: Result<serde_json::Value, ApiError>)
    ensures
        r == spec_outcome(status, request, response, body, parsed),
{
    if !(200 <= status && status <= 299) {
        Err(ApiError::BadRequest { request, response })
    } else {
        match parsed {
            Some(v) => Ok(v),
            None => Err(ApiError::BadResponse { request, response: body }),
        }
    }
}

/// Finishes an answered request: the body is read as JSON only when the
/// status is a success.
pub fn finish_response(status: u16, request: String, response: String, body: String) -> (r: Result<
    serde_json::Value,
    ApiError,
>)
    ensures
        !spec_is_success(status) ==> r == Err::<serde_json::Value, ApiError>(
            ApiError::BadRequest { request, response },
        ),
        spec_is_success(status) ==> (r is Ok <==> json_accepts(body@)),
        spec_is_success(status) && !json_accepts(body@) ==> r == Err::<serde_json::Value, ApiError>(
            ApiError::BadResponse { request, response: body },
        ),
{
    if 200 <= status && status <= 299 {
        let parsed = parse_json(body.as_str());
        classify_response(status, request, response, body, parsed)
    } else {
        classify_response(status, request, response, body, None)
    }
}

/// The `User-Agent` value that identifies an application.
pub open spec fn spec_user_agent(name: Seq<char>, version: Seq<char>, author: Seq<char>) -> Seq<char> {
    "linux:"@ + name + ":"@ + version + " (by "@ + author + ")"@
}

/// Builds the `User-Agent` value `linux:<name>:<version> (by <author>)`.
pub fn user_agent(name: &str, version: &str, author: &str) -> (r: String)
    ensures
        r@ == spec_user_agent(name@, version@, author@),
{
    let mut s = String::from_str("linux:");
    s.append(name);
    s.append(":");
    s.append(version);
    s.append(" (by ");
    s.append(author);
    s.append(")");
    s
}

/// Builds the `Authorization` value `Bearer <token>`.
pub fn bearer(token: &str) -> (r: String)
    ensures
        r@ == "Bearer "@ + token@,
{
    let mut s = String::from_str("Bearer ");
    s.append(token);
    s
}

/// What to do before an authorized request is sent.
#[derive(Clone, PartialEq, Eq, Debug)]
pub enum AuthStep {
    /// Send it with this `Authorization` value.
    Send(String),
    /// Obtain a new token first, then end with `Connection::complete_renewal`.
    Renew,
    /// Do not send it: fail with this error.
    Refuse(ApiError),
}

/// Holder of what every request to the server shares: the credentials, the
/// identification of the application, and the pacing state.
#[derive(Clone, Debug)]
pub struct Connection {
    /// Credentials, needed for authorized requests.
    pub auth: Option<Authenticator>,
    /// `User-Agent` value sent with every request.
    pub useragent: String,
    /// How requests are paced.
    pub limit: LimitMethod,
    /// The quota last reported.
    pub limiter: RateLimiter,
}

impl Connection {
    /// A connection for the application `appname`, version `appversion`, by
    /// `appauthor`, created at `now`: no credentials, steady pacing, no quota
    /// known yet.
    pub fn new(appname: &str, appversion: &str, appauthor: &str, now: u64) -> (r: Connection)
        ensures
            r.auth is None,
            r.useragent@ == spec_user_agent(appname@, appversion@, appauthor@),
            r.limit == LimitMethod::Steady,
            r.limiter == (RateLimiter { used: 0, remaining: None, reset_at: now }),
    {
        Connection {
            auth: None,
            useragent: user_agent(appname, appversion, appauthor),
            limit: LimitMethod::Steady,
            limiter: RateLimiter::new(now),
        }
    }

    /// Sets how requests are paced, from the next request on.
    pub fn set_limit(&mut self, limit: LimitMethod)
        ensures
            *final(self) == (Connection { limit, ..*old(self) }),
    {
        self.limit = limit;
    }

    /// How long to wait at `now` before the next request is sent.
    pub fn wait_ms(&self, now: u64) -> (r: u64)
        ensures
            r == spec_wait(self.limiter, self.limit, now),
    {
        self.limiter.wait_ms(self.limit, now)
    }

    /// Takes in the quota headers of a response received at `now`.
    pub fn record_quota(&mut self, used: Option<i32>, remaining: Option<i32>, reset_secs: Option<u64>, now: u64)
        ensures
            final(self).auth == old(self).auth,
            final(self).useragent == old(self).useragent,
            final(self).limit == old(self).limit,
            final(self).limiter.used == (match used {
                Some(u) => u,
                None => old(self).limiter.used,
            }),
            final(self).limiter.remaining == (match remaining {
                Some(x) => Some(x),
                None => old(self).limiter.remaining,
            }),
            final(self).limiter.reset_at == (match reset_secs {
                Some(s) => spec_reset_at(now, s),
                None => old(self).limiter.reset_at as int,
            }),
    {
        self.limiter.update(used, remaining, reset_secs, now);
    }

    /// Decides at `now` how an authorized request goes on: without
    /// credentials, or with an expired token that cannot be renewed, it is
    /// refused before anything is sent; with a token that needs renewal, the
    /// renewal comes first; otherwise it is sent with the bearer token.
    pub fn authorize(&self, now: u64, request: String) -> (r: AuthStep)
        ensures
            match self.auth {
                None => r == AuthStep::Refuse(ApiError::Forbidden { request }),
                Some(a) => match a.spec_check(now) {
                    TokenCheck::Current => r matches AuthStep::Send(v) && v@ == "Bearer "@
                        + a.spec_state().token@,
                    TokenCheck::Renew => r == AuthStep::Renew,
                    TokenCheck::Expired => r == AuthStep::Refuse(ApiError::Forbidden { request }),
                },
            },
    {
        match &self.auth {
            None => AuthStep::Refuse(ApiError::Forbidden { request }),
            Some(a) => match a.check(now) {
                TokenCheck::Current => AuthStep::Send(bearer(a.token().as_str())),
                TokenCheck::Renew => AuthStep::Renew,
                TokenCheck::Expired => AuthStep::Refuse(ApiError::Forbidden { request }),
            },
        }
    }

    /// Ends the renewal that `authorize` asked for, with its outcome. A new
    /// token state replaces the old one as a whole, and the request goes on
    /// with the new bearer token; a failed renewal changes nothing and fails
    /// the request.
    pub fn complete_renewal(&mut self, outcome: Result<TokenState, String>, request: String) -> (r: Result<
        String,
        ApiError,
    >)
        ensures
            final(self).useragent == old(self).useragent,
            final(self).limit == old(self).limit,
            final(self).limiter == old(self).limiter,
            match old(self).auth {
                None => {
                    &&& final(self).auth is None
                    &&& r == Err::<String, ApiError>(ApiError::Forbidden { request })
                },
                Some(a) => match outcome {
                    Ok(fresh) => {
                        &&& final(self).auth == Some(a.spec_with_state(fresh))
                        &&& r matches Ok(v) && v@ == "Bearer "@ + fresh.token@
                    },
                    Err(msg) => {
                        &&& final(self).auth == old(self).auth
                        &&& r == Err::<String, ApiError>(ApiError::AuthRenewalFailed(msg))
                    },
                },
            },
    {
        match &mut self.auth {
            None => Err(ApiError::Forbidden { request }),
            Some(a) => match a.complete_renewal(outcome) {
                Ok(token) => Ok(bearer(token.as_str())),
                Err(AuthError::RenewalFailed(msg)) => Err(ApiError::AuthRenewalFailed(msg)),
                Err(AuthError::Expired) => Err(ApiError::Forbidden { request }),
            },
        }
    }
}

} // verus!
