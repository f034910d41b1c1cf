use positron::origins::comma_pieces;
use positron::totp::{registration_is_live, TotpConfigError, TotpState};
use positron::webauthn::{additional_origins, relying_party, RelyingPartyError};

#[test]
fn comma_pieces_keep_empty_and_untrimmed_pieces() {
    assert_eq!(comma_pieces(""), vec!["".to_string()]);
    assert_eq!(comma_pieces("a, b,,"), vec!["a".to_string(), " b".to_string(), "".to_string(), "".to_string()]);
}

#[test]
fn additional_origins_keep_only_urls() {
    assert_eq!(
        additional_origins("https://a.example,not a url,,http://b.example:8080/x"),
        vec!["https://a.example/".to_string(), "http://b.example:8080/x".to_string()]
    );
    assert!(additional_origins("").is_empty());
    // the url crate ignores spaces around a URL
    assert_eq!(additional_origins(" https://c.example"), vec!["https://c.example/".to_string()]);
}

#[test]
fn relying_party_defaults_to_site_url_and_its_host() {
    let rp = relying_party(None, None, "https://positron.example/".to_string()).unwrap();
    assert_eq!(rp.id, "positron.example");
    assert_eq!(rp.origin, "https://positron.example/");
}

#[test]
fn relying_party_uses_configured_values() {
    let rp = relying_party(
        Some("id.example".to_string()),
        Some("https://login.example/".to_string()),
        "https://site.example/".to_string(),
    )
    .unwrap();
    assert_eq!(rp.id, "id.example");
    assert_eq!(rp.origin, "https://login.example/");
    let rp = relying_party(None, Some("http://localhost:3000/".to_string()), "https://s.example/".to_string())
        .unwrap();
    assert_eq!(rp.id, "localhost");
}

#[test]
fn relying_party_needs_a_host_without_configured_id() {
    assert!(matches!(
        relying_party(None, Some("data:text/plain,hi".to_string()), "https://s.example/".to_string()),
        Err(RelyingPartyError::OriginWithoutHost)
    ));
}

#[test]
fn totp_issuer_without_colon() {
    assert_eq!(TotpState::init("Positron".to_string()).unwrap().issuer, "Positron");
    assert!(matches!(TotpState::init("a:b".to_string()), Err(TotpConfigError::IssuerWithColon)));
}

#[test]
fn registrations_live_five_minutes() {
    assert!(registration_is_live(299));
    assert!(!registration_is_live(300));
}
