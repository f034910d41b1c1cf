use positron::jwt::{JwtClaims, JwtSpecial, JwtStateOther, JwtTotpRequired, JwtType, SameSite};

#[test]
fn cookie_names_are_stable() {
    assert_eq!(JwtSpecial::cookie_name(), "special");
    assert_eq!(JwtTotpRequired::cookie_name(), "totp_required");
}

fn state() -> JwtStateOther {
    JwtStateOther::new("positron".to_string(), "kid-1".to_string())
}

#[test]
fn new_state_issues_five_minute_tokens() {
    let s = state();
    assert_eq!(s.exp, 300);
    assert_eq!(s.iss, "positron");
    assert_eq!(s.kid, "kid-1");
}

#[test]
fn create_cookie_sets_security_attributes() {
    let s = state();
    let cookie = s.create_cookie("session", "value".to_string(), true);
    assert_eq!(cookie.name, "session");
    assert_eq!(cookie.value, "value");
    assert!(cookie.http_only);
    assert!(cookie.secure);
    assert_eq!(cookie.same_site, SameSite::Lax);
    assert_eq!(cookie.path, "/");
    assert_eq!(cookie.max_age, 300);

    let non_http = s.create_cookie("x", "y".to_string(), false);
    assert!(!non_http.http_only);
}

#[test]
fn token_cookie_is_named_after_its_kind() {
    let s = state();
    let special = s.token_cookie::<JwtSpecial>("tok".to_string());
    assert_eq!(special.name, "special");
    assert_eq!(special.value, "tok");
    assert!(special.http_only);
    let totp = s.token_cookie::<JwtTotpRequired>("tok2".to_string());
    assert_eq!(totp.name, "totp_required");
}

#[test]
fn claims_expire_after_the_lifetime_in_whole_seconds() {
    let s = state();
    // 2024-06-01T12:00:00.5Z in microseconds
    let now = 1_717_243_200_500_000i64;
    let c: JwtClaims<JwtSpecial> = s.claims_at(42, now).unwrap();
    assert_eq!(c.exp, 1_717_243_500);
    assert_eq!(c.iss, "positron");
    assert_eq!(c.sub, 42);
    assert_eq!(c.type_, JwtSpecial::Special);
}

#[test]
fn claims_before_the_epoch_round_towards_the_past() {
    let s = JwtStateOther { iss: "i".to_string(), exp: 1, kid: "k".to_string() };
    // half a second before the epoch, one second later
    let c: JwtClaims<JwtTotpRequired> = s.claims_at(7, -1_500_000).unwrap();
    assert_eq!(c.exp, -1);
}

#[test]
fn claims_by_the_clock_lie_about_five_minutes_ahead() {
    let s = state();
    let before = chrono::Utc::now().timestamp();
    let c: JwtClaims<JwtSpecial> = s.claims(9).unwrap();
    let after = chrono::Utc::now().timestamp();
    assert!(c.exp >= before + 300 && c.exp <= after + 300);
    assert_eq!(c.sub, 9);
}

#[test]
fn claims_fail_when_the_expiry_cannot_be_represented() {
    let s = JwtStateOther { iss: "i".to_string(), exp: i64::MAX / 1000, kid: "k".to_string() };
    assert!(s.claims_at::<JwtSpecial>(1, 0).is_none());
}
