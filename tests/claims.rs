use oidc::claims::{pick_localized, IdTokenClaimSet, LocalizedText};
use oidc::tokens::TokenClaims;

fn text(default: Option<&str>, tagged: &[(&str, &str)]) -> Option<LocalizedText> {
    Some(LocalizedText {
        default: default.map(|s| s.to_string()),
        by_locale: tagged.iter().map(|(l, v)| (l.to_string(), v.to_string())).collect(),
    })
}

#[test]
fn localized_claims_follow_the_locale() {
    let t = text(Some("Jane"), &[("fr", "Jeanne"), ("de", "Johanna")]);
    assert_eq!(pick_localized(&t, &None), Some("Jane".to_string()));
    assert_eq!(pick_localized(&t, &Some("fr".to_string())), Some("Jeanne".to_string()));
    assert_eq!(pick_localized(&t, &Some("de".to_string())), Some("Johanna".to_string()));
    assert_eq!(pick_localized(&t, &Some("es".to_string())), None);
    assert_eq!(pick_localized(&None, &None), None);
}

#[test]
fn claims_map_field_by_field() {
    let set = IdTokenClaimSet {
        subject: "sub".to_string(),
        email: Some("a@b.c".to_string()),
        email_verified: Some(true),
        name: text(Some("Jane Doe"), &[("fr", "Jeanne Doe")]),
        given_name: text(Some("Jane"), &[]),
        family_name: text(Some("Doe"), &[]),
        middle_name: None,
        birthdate: Some("1990-01-01".to_string()),
        phone_number: None,
        phone_number_verified: None,
        preferred_username: Some("jd".to_string()),
        profile: None,
        picture: text(None, &[("fr", "https://p/fr.png")]),
        locale: Some("fr".to_string()),
        issue_time: 100,
        expiration: 200,
        auth_time: Some(90),
        auth_context_ref: None,
        auth_method_refs: Some(vec!["pwd".to_string()]),
        issuer: "https://issuer".to_string(),
        audiences: vec!["client".to_string()],
        nonce: Some("n".to_string()),
    };
    let c = TokenClaims::from_id_token_claims(set);
    assert_eq!(c.subject, "sub");
    assert_eq!(c.username, Some("Jeanne Doe".to_string()));
    assert_eq!(c.given_name, None);
    assert_eq!(c.family_name, None);
    assert_eq!(c.picture, Some("https://p/fr.png".to_string()));
    assert_eq!(c.issue_at, 100);
    assert_eq!(c.expires_at, 200);
    assert_eq!(c.last_auth_time, Some(90));
    assert_eq!(c.auth_method_refs, Some(vec!["pwd".to_string()]));
    assert_eq!(c.nonce, Some("n".to_string()));
}
