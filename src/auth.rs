use vstd::prelude::*;

use crate::forms::{form_encode, form_encoded, pairs_view, push_pair};
use crate::ratelimit::{spec_reset_at, MILLIS_PER_SEC};

verus! {

/// Look-ahead before expiry at which a token that can be renewed is renewed,
/// so that the token does not expire while a request is in flight.
pub const RENEWAL_MARGIN_MS: u64 = 120_000;

/// The bearer token in use, when it expires, and the refresh token of an
/// installed app. It is only ever replaced as a whole.
///
/// Instants are milliseconds on the caller's monotonic clock; a token with no
/// expiry never expires.
#[derive(Clone, Debug)]
pub struct TokenState {
    /// The bearer token.
    pub token: String,
    /// Instant at which the token stops being valid.
    pub expires_at: Option<u64>,
    /// Token with which an installed app obtains a new bearer token.
    pub refresh_token: Option<String>,
}

impl TokenState {
    /// The state after a grant received at `now`: `token`, valid for
    /// `expires_in_secs` seconds, with the refresh token given, if any.
    pub fn from_grant(token: String, expires_in_secs: u64, refresh_token: Option<String>, now: u64) -> (r: TokenState)
        ensures
            r.token == token,
            r.expires_at matches Some(e) && e == spec_reset_at(now, expires_in_secs),
            r.refresh_token == refresh_token,
    {
        let expires_at = match expires_in_secs.checked_mul(MILLIS_PER_SEC) {
            Some(ms) => now.saturating_add(ms),
            None => u64::MAX,
        };
        TokenState { token, expires_at: Some(expires_at), refresh_token }
    }

    /// Whether the token may still be used at `now`.
    pub open spec fn spec_usable(&self, now: u64) -> bool {
        match self.expires_at {
            None => true,
            Some(e) => now < e,
        }
    }
}

/// The credentials of an application and the token it holds.
#[derive(Clone, Debug)]
pub enum Authenticator {
    /// A confidential ("script") application, which logs in with a password
    /// and can always obtain a new token.
    Script { id: String, secret: String, username: String, password: String, state: TokenState },
    /// An installed application, which can renew its token only while it
    /// holds a refresh token.
    InstalledApp { id: String, redirect: String, state: TokenState },
}

/// What has to happen before the token can be sent.
#[derive(Clone, Copy, PartialEq, Eq, Debug)]
pub enum TokenCheck {
    /// The token in hand may be used.
    Current,
    /// A new token must be obtained first.
    Renew,
    /// The token has expired and cannot be renewed: a new authorization is needed.
    Expired,
}

/// Why no usable token could be had.
#[derive(Clone, PartialEq, Eq, Debug)]
pub enum AuthError {
    /// The token has expired and there is no way to renew it.
    Expired,
    /// The renewal request failed, for the reason given.
    RenewalFailed(String),
}

impl Authenticator {
    /// The token state held.
    pub open spec fn spec_state(&self) -> TokenState {
        match self {
            Authenticator::Script { state, .. } => *state,
            Authenticator::InstalledApp { state, .. } => *state,
        }
    }

    /// The same credentials with `fresh` in place of the token state.
    pub open spec fn spec_with_state(&self, fresh: TokenState) -> Authenticator {
        match self {
            Authenticator::Script { id, secret, username, password, .. } => Authenticator::Script {
                id: *id,
                secret: *secret,
                username: *username,
                password: *password,
                state: fresh,
            },
            Authenticator::InstalledApp { id, redirect, .. } => Authenticator::InstalledApp {
                id: *id,
                redirect: *redirect,
                state: fresh,
            },
        }
    }

    /// What must happen at `now` before the token is used.
    ///
    /// A confidential client renews when its token expires within the
    /// margin, or when it has no expiry yet (it has no token yet). An
    /// installed app that holds a refresh token renews when its token has
    /// expired or expires within the same margin; without a refresh token an
    /// expired token is final. A token with no expiry held by
    /// an installed app is used as it is.
    pub open spec fn spec_check(&self, now: u64) -> TokenCheck {
        match self {
            Authenticator::Script { state, .. } => match state.expires_at {
                None => TokenCheck::Renew,
                Some(e) => if now + RENEWAL_MARGIN_MS > e {
                    TokenCheck::Renew
                } else {
                    TokenCheck::Current
                },
            },
            Authenticator::InstalledApp { state, .. } => match state.expires_at {
                None => TokenCheck::Current,
                Some(e) => if state.refresh_token is Some {
                    if now + RENEWAL_MARGIN_MS > e {
                        TokenCheck::Renew
                    } else {
                        TokenCheck::Current
                    }
                } else if now < e {
                    TokenCheck::Current
                } else {
                    TokenCheck::Expired
                },
            },
        }
    }

    /// A confidential client whose token has not been obtained yet.
    pub fn script(id: String, secret: String, username: String, password: String) -> (r: Authenticator)
        ensures
            r matches Authenticator::Script { id: i, secret: s, username: u, password: p, state }
                && i == id && s == secret && u == username && p == password
                && state.token@ == Seq::<char>::empty() && state.expires_at is None
                && state.refresh_token is None,
    {
        Authenticator::Script {
            id,
            secret,
            username,
            password,
            state: TokenState { token: String::new(), expires_at: None, refresh_token: None },
        }
    }

    /// An installed application holding the token state of a past authorization.
    pub fn installed_app(id: String, redirect: String, state: TokenState) -> (r: Authenticator)
        ensures
            r == (Authenticator::InstalledApp { id, redirect, state }),
    {
        Authenticator::InstalledApp { id, redirect, state }
    }

    /// The bearer token held.
    pub fn token(&self) -> (r: &String)
        ensures
            *r == self.spec_state().token,
    {
        match self {
            Authenticator::Script { state, .. } => &state.token,
            Authenticator::InstalledApp { state, .. } => &state.token,
        }
    }

    /// Decides at `now` whether the token in hand can be used.
    pub fn check(&self, now: u64) -> (r: TokenCheck)
        ensures
            r == self.spec_check(now),
    {
        match self {
            Authenticator::Script { state, .. } => match state.expires_at {
                None => TokenCheck::Renew,
                Some(e) => {
                    let late = match now.checked_add(RENEWAL_MARGIN_MS) {
                        Some(t) => t > e,
                        None => true,
                    };
                    if late {
                        TokenCheck::Renew
                    } else {
                        TokenCheck::Current
                    }
                },
            },
            Authenticator::InstalledApp { state, .. } => match state.expires_at {
                None => TokenCheck::Current,
                Some(e) => {
                    if state.refresh_token.is_some() {
                        let late = match now.checked_add(RENEWAL_MARGIN_MS) {
                            Some(t) => t > e,
                            None => true,
                        };
                        if late {
                            TokenCheck::Renew
                        } else {
                            TokenCheck::Current
                        }
                    } else if now < e {
                        TokenCheck::Current
                    } else {
                        TokenCheck::Expired
                    }
                },
            },
        }
    }

    /// Replaces the whole token state by `fresh`; the credentials stay.
    pub fn renewed(&mut self, fresh: TokenState)
        ensures
            *final(self) == old(self).spec_with_state(fresh),
            final(self).spec_state() == fresh,
    {
        match self {
            Authenticator::Script { state, .. } => {
                *state = fresh;
            },
            Authenticator::InstalledApp { state, .. } => {
                *state = fresh;
            },
        }
    }

    /// The form pairs of the token request that renews the token: a
    /// password grant for a confidential client, a refresh-token grant for an
    /// installed app that holds a refresh token, and none otherwise.
    pub open spec fn spec_renewal_pairs(&self) -> Option<Seq<(Seq<char>, Seq<char>)>> {
        match self {
            Authenticator::Script { username, password, .. } => Some(
                seq![("grant_type"@, "password"@), ("username"@, username@), ("password"@, password@)],
            ),
            Authenticator::InstalledApp { state, .. } => match state.refresh_token {
                Some(rt) => Some(seq![("grant_type"@, "refresh_token"@), ("refresh_token"@, rt@)]),
                None => None,
            },
        }
    }

    /// The body of the token request that renews the token, when renewal is
    /// possible at all.
    pub fn renewal_form(&self) -> (r: Option<String>)
        ensures
            match self.spec_renewal_pairs() {
                Some(p) => r matches Some(s) && s@ == form_encoded(p),
                None => r is None,
            },
    {
        let mut v: Vec<(String, String)> = Vec::new();
        match self {
            Authenticator::Script { username, password, .. } => {
                push_pair(&mut v, "grant_type", String::from_str("password"));
                push_pair(&mut v, "username", username.clone());
                push_pair(&mut v, "password", password.clone());
            },
            Authenticator::InstalledApp { state, .. } => match &state.refresh_token {
                Some(rt) => {
                    push_pair(&mut v, "grant_type", String::from_str("refresh_token"));
                    push_pair(&mut v, "refresh_token", rt.clone());
                },
                None => {
                    return None;
                },
            },
        }
        assert(pairs_view(v@) =~= self.spec_renewal_pairs()->0);
        Some(form_encode(&v))
    }

    /// The client id and secret that authenticate the token request; an
    /// installed app has no secret.
    pub fn client_credentials(&self) -> (r: (String, String))
        ensures
            match self {
                Authenticator::Script { id, secret, .. } => r.0 == id && r.1 == secret,
                Authenticator::InstalledApp { id, .. } => r.0 == id && r.1@ == Seq::<char>::empty(),
            },
    {
        match self {
            Authenticator::Script { id, secret, .. } => (id.clone(), secret.clone()),
            Authenticator::InstalledApp { id, .. } => (id.clone(), String::new()),
        }
    }

    /// The token state after a grant received at `now`: `token`, valid for
    /// `expires_in_secs` seconds, with the refresh token of the grant, or the
    /// one held when the grant carries none.
    pub fn grant_state(&self, token: String, expires_in_secs: u64, refresh_token: Option<String>, now: u64) -> (r: TokenState)
        ensures
            r.token == token,
            r.expires_at matches Some(e) && e == spec_reset_at(now, expires_in_secs),
            r.refresh_token == (match refresh_token {
                Some(t) => Some(t),
                None => self.spec_state().refresh_token,
            }),
    {
        let kept = match refresh_token {
            Some(t) => Some(t),
            None => {
                let held = match self {
                    Authenticator::Script { state, .. } => &state.refresh_token,
                    Authenticator::InstalledApp { state, .. } => &state.refresh_token,
                };
                match held {
                    Some(t) => Some(t.clone()),
                    None => None,
                }
            },
        };
        TokenState::from_grant(token, expires_in_secs, kept, now)
    }

    /// Ends a renewal with its outcome: a new token state replaces the old
    /// one as a whole and its token is returned; a failure leaves everything
    /// as it was and is handed on.
    pub fn complete_renewal(&mut self, outcome: Result<TokenState, String>) -> (r: Result<String, AuthError>)
        ensures
            match outcome {
                Ok(fresh) => {
                    &&& *final(self) == old(self).spec_with_state(fresh)
                    &&& r == Ok::<String, AuthError>(fresh.token)
                },
                Err(msg) => {
                    &&& *final(self) == *old(self)
                    &&& r == Err::<String, AuthError>(AuthError::RenewalFailed(msg))
                },
            },
    {
        match outcome {
            Ok(fresh) => {
                let token = fresh.token.clone();
                self.renewed(fresh);
                Ok(token)
            },
            Err(msg) => Err(AuthError::RenewalFailed(msg)),
        }
    }
}

/// Renewals do not mix: after two renewals, in either order of arrival, the
/// token state is exactly the one of the renewal that completed last, and the
/// credentials are those held before.
pub proof fn lemma_last_renewal_wins(a: Authenticator, first: TokenState, second: TokenState)
    ensures
        a.spec_with_state(first).spec_with_state(second) == a.spec_with_state(second),
        a.spec_with_state(first).spec_with_state(second).spec_state() == second,
{
}

/// A renewal settles the token: once a token state is installed whose token
/// stays valid past the look-ahead at `now`, the check at `now` asks for no
/// further renewal, so callers that observed the same expiring token do not
/// renew again.
pub proof fn lemma_renewal_settles(a: Authenticator, fresh: TokenState, now: u64)
    requires
        fresh.expires_at matches Some(e) && now + RENEWAL_MARGIN_MS <= e,
    ensures
        a.spec_with_state(fresh).spec_check(now) == TokenCheck::Current,
{
}

/// An installed app whose token has expired and which holds no refresh token
/// is refused at the check, and is never sent to renew.
pub proof fn lemma_expired_without_refresh(a: Authenticator, now: u64)
    requires
        a is InstalledApp,
        a.spec_state().refresh_token is None,
        a.spec_state().expires_at matches Some(e) && e <= now,
    ensures
        a.spec_check(now) == TokenCheck::Expired,
{
}

/// A token is used only while valid: whenever the check lets the token in
/// hand be used, it is usable at that instant.
pub proof fn lemma_current_is_usable(a: Authenticator, now: u64)
    requires
        a.spec_check(now) == TokenCheck::Current,
    ensures
        a.spec_state().spec_usable(now),
{
}

} // verus!
