use reddit_core::{
    basic_authorization, bearer, user_agent, AuthError, AuthStep, Authenticator, Connection, LimitMethod, RateLimiter,
    TokenCheck, TokenState, ApiError,
};

const NOW: u64 = 1_000_000;

#[test]
fn burst_exhausted_waits_until_reset() {
    let r = RateLimiter { used: 10, remaining: Some(0), reset_at: NOW + 10_000 };
    assert_eq!(r.wait_ms(LimitMethod::Burst, NOW), 10_000);
}

#[test]
fn steady_spreads_window_over_remaining() {
    let r = RateLimiter { used: 10, remaining: Some(5), reset_at: NOW + 10_000 };
    assert_eq!(r.wait_ms(LimitMethod::Steady, NOW), 2_000);
}

#[test]
fn steady_with_nothing_remaining_waits_whole_window() {
    let r = RateLimiter { used: 600, remaining: Some(0), reset_at: NOW + 7_000 };
    assert_eq!(r.wait_ms(LimitMethod::Steady, NOW), 7_000);
}

#[test]
fn burst_with_requests_left_does_not_wait() {
    let r = RateLimiter { used: 3, remaining: Some(4), reset_at: NOW + 7_000 };
    assert_eq!(r.wait_ms(LimitMethod::Burst, NOW), 0);
}

#[test]
fn unknown_quota_or_passed_reset_does_not_wait() {
    let r = RateLimiter::new(NOW);
    assert_eq!(r.wait_ms(LimitMethod::Steady, NOW), 0);
    assert_eq!(r.wait_ms(LimitMethod::Burst, NOW), 0);
    let r = RateLimiter { used: 3, remaining: Some(0), reset_at: NOW };
    assert_eq!(r.wait_ms(LimitMethod::Burst, NOW + 5), 0);
    assert_eq!(r.wait_ms(LimitMethod::Steady, NOW + 5), 0);
}

#[test]
fn update_replaces_present_headers_only() {
    let mut r = RateLimiter::new(NOW);
    r.update(Some(12), Some(588), Some(300), NOW);
    assert_eq!(r, RateLimiter { used: 12, remaining: Some(588), reset_at: NOW + 300_000 });
    r.update(None, Some(587), None, NOW + 10);
    assert_eq!(r, RateLimiter { used: 12, remaining: Some(587), reset_at: NOW + 300_000 });
    r.update(None, None, Some(u64::MAX), NOW);
    assert_eq!(r.reset_at, u64::MAX);
}

#[test]
fn connection_paces_with_its_method() {
    let mut c = Connection::new("app", "1.0", "/u/me", NOW);
    assert_eq!(c.wait_ms(NOW), 0);
    c.record_quota(Some(10), Some(0), Some(10), NOW);
    assert_eq!(c.wait_ms(NOW), 10_000);
    c.record_quota(None, Some(5), None, NOW);
    assert_eq!(c.wait_ms(NOW), 2_000);
    c.set_limit(LimitMethod::Burst);
    assert_eq!(c.limit, LimitMethod::Burst);
    assert_eq!(c.wait_ms(NOW), 0);
}

#[test]
fn user_agent_has_fixed_format() {
    assert_eq!(user_agent("bot", "0.2", "/u/someone"), "linux:bot:0.2 (by /u/someone)");
    let c = Connection::new("bot", "0.2", "/u/someone", NOW);
    assert_eq!(c.useragent, "linux:bot:0.2 (by /u/someone)");
    assert!(c.auth.is_none());
    assert_eq!(bearer("abc"), "Bearer abc");
}

fn script(expires_at: Option<u64>) -> Authenticator {
    let mut a = Authenticator::script("id".to_string(), "secret".to_string(), "user".to_string(), "pw".to_string());
    if let Some(e) = expires_at {
        a.renewed(TokenState { token: "old".to_string(), expires_at: Some(e), refresh_token: None });
    }
    a
}

#[test]
fn confidential_renews_inside_margin() {
    assert_eq!(script(Some(NOW + 60_000)).check(NOW), TokenCheck::Renew);
    assert_eq!(script(Some(NOW + 300_000)).check(NOW), TokenCheck::Current);
    assert_eq!(script(Some(NOW + 120_000)).check(NOW), TokenCheck::Current);
    assert_eq!(script(Some(NOW + 119_999)).check(NOW), TokenCheck::Renew);
    assert_eq!(script(None).check(NOW), TokenCheck::Renew);
}

#[test]
fn confidential_sends_existing_token_outside_margin() {
    let mut c = Connection::new("a", "1", "/u/b", NOW);
    c.auth = Some(script(Some(NOW + 300_000)));
    assert_eq!(c.authorize(NOW, "req".to_string()), AuthStep::Send("Bearer old".to_string()));
    c.auth = Some(script(Some(NOW + 60_000)));
    assert_eq!(c.authorize(NOW, "req".to_string()), AuthStep::Renew);
}

#[test]
fn installed_app_expired_without_refresh_is_forbidden() {
    let state = TokenState { token: "tok".to_string(), expires_at: Some(NOW - 1), refresh_token: None };
    let a = Authenticator::installed_app("id".to_string(), "http://localhost".to_string(), state);
    assert_eq!(a.check(NOW), TokenCheck::Expired);
    let mut c = Connection::new("a", "1", "/u/b", NOW);
    c.auth = Some(a);
    assert_eq!(
        c.authorize(NOW, "GET /api/me".to_string()),
        AuthStep::Refuse(ApiError::Forbidden { request: "GET /api/me".to_string() })
    );
}

#[test]
fn installed_app_cases() {
    let mk = |expires_at: Option<u64>, refresh: Option<&str>| {
        Authenticator::installed_app(
            "id".to_string(),
            "uri".to_string(),
            TokenState { token: "t".to_string(), expires_at, refresh_token: refresh.map(|s| s.to_string()) },
        )
    };
    assert_eq!(mk(None, None).check(NOW), TokenCheck::Current);
    assert_eq!(mk(Some(NOW + 1), None).check(NOW), TokenCheck::Current);
    assert_eq!(mk(Some(NOW), Some("r")).check(NOW), TokenCheck::Renew);
    assert_eq!(mk(Some(NOW + 60_000), Some("r")).check(NOW), TokenCheck::Renew);
    assert_eq!(mk(Some(NOW + 119_999), Some("r")).check(NOW), TokenCheck::Renew);
    assert_eq!(mk(Some(NOW + 120_000), Some("r")).check(NOW), TokenCheck::Current);
    assert_eq!(mk(Some(NOW + 300_000), Some("r")).check(NOW), TokenCheck::Current);
}

#[test]
fn no_credentials_is_forbidden() {
    let c = Connection::new("a", "1", "/u/b", NOW);
    assert_eq!(c.authorize(NOW, "r".to_string()), AuthStep::Refuse(ApiError::Forbidden { request: "r".to_string() }));
}

#[test]
fn renewal_replaces_whole_state_and_last_wins() {
    let mut c = Connection::new("a", "1", "/u/b", NOW);
    c.auth = Some(script(Some(NOW + 60_000)));
    let first = TokenState::from_grant("new1".to_string(), 3600, None, NOW);
    assert_eq!(first.expires_at, Some(NOW + 3_600_000));
    assert_eq!(c.complete_renewal(Ok(first), "r".to_string()), Ok("Bearer new1".to_string()));
    let second = TokenState::from_grant("new2".to_string(), 60, Some("rt".to_string()), NOW);
    assert_eq!(c.complete_renewal(Ok(second), "r".to_string()), Ok("Bearer new2".to_string()));
    let a = c.auth.as_ref().unwrap();
    assert_eq!(a.token(), "new2");
    match a {
        Authenticator::Script { state, username, .. } => {
            assert_eq!(state.expires_at, Some(NOW + 60_000));
            assert_eq!(state.refresh_token.as_deref(), Some("rt"));
            assert_eq!(username, "user");
        }
        _ => panic!("variant changed"),
    }
}

#[test]
fn renewal_settles_for_later_callers() {
    let mut a = script(Some(NOW + 10_000));
    assert_eq!(a.check(NOW), TokenCheck::Renew);
    let r = a.complete_renewal(Ok(TokenState::from_grant("fresh".to_string(), 3600, None, NOW)));
    assert_eq!(r, Ok("fresh".to_string()));
    assert_eq!(a.check(NOW), TokenCheck::Current);
}

#[test]
fn failed_renewal_changes_nothing() {
    let mut c = Connection::new("a", "1", "/u/b", NOW);
    c.auth = Some(script(Some(NOW + 60_000)));
    assert_eq!(
        c.complete_renewal(Err("timeout".to_string()), "r".to_string()),
        Err(ApiError::AuthRenewalFailed("timeout".to_string()))
    );
    assert_eq!(c.auth.as_ref().unwrap().token(), "old");
    let mut a = script(None);
    assert_eq!(a.complete_renewal(Err("x".to_string())), Err(AuthError::RenewalFailed("x".to_string())));
    let mut bare = Connection::new("a", "1", "/u/b", NOW);
    assert_eq!(
        bare.complete_renewal(Ok(TokenState::from_grant("t".to_string(), 1, None, NOW)), "r".to_string()),
        Err(ApiError::Forbidden { request: "r".to_string() })
    );
}

#[test]
fn renewal_requests() {
    let a = script(None);
    assert_eq!(a.renewal_form(), Some("grant_type=password&username=user&password=pw".to_string()));
    assert_eq!(a.client_credentials(), ("id".to_string(), "secret".to_string()));
    let with_refresh = Authenticator::installed_app(
        "cid".to_string(),
        "uri".to_string(),
        TokenState { token: "t".to_string(), expires_at: Some(0), refresh_token: Some("r 1".to_string()) },
    );
    assert_eq!(with_refresh.renewal_form(), Some("grant_type=refresh_token&refresh_token=r+1".to_string()));
    assert_eq!(with_refresh.client_credentials(), ("cid".to_string(), String::new()));
    let without = Authenticator::installed_app(
        "cid".to_string(),
        "uri".to_string(),
        TokenState { token: "t".to_string(), expires_at: Some(0), refresh_token: None },
    );
    assert_eq!(without.renewal_form(), None);
    assert_eq!(basic_authorization("id", "secret"), "Basic aWQ6c2VjcmV0");
    assert_eq!(basic_authorization("a", ""), "Basic YTo=");
    assert_eq!(basic_authorization("ab", ""), "Basic YWI6");
    assert_eq!(basic_authorization("", ""), "Basic Og==");
}

#[test]
fn grant_keeps_refresh_token_unless_replaced() {
    let held = Authenticator::installed_app(
        "cid".to_string(),
        "uri".to_string(),
        TokenState { token: "t".to_string(), expires_at: Some(0), refresh_token: Some("keep".to_string()) },
    );
    let s = held.grant_state("n".to_string(), 10, None, NOW);
    assert_eq!(s.refresh_token.as_deref(), Some("keep"));
    assert_eq!(s.expires_at, Some(NOW + 10_000));
    let s = held.grant_state("n".to_string(), 10, Some("new".to_string()), NOW);
    assert_eq!(s.refresh_token.as_deref(), Some("new"));
    assert_eq!(s.token, "n");
}
