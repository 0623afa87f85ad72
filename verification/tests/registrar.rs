use minghe_sip::sip::digest::{
    generate_nonce, md5_hex, parse_authorization, split_digest_params, validate_digest,
};
use minghe_sip::sip::message::{Response, SipUri};
use minghe_sip::sip::registrar::{RegisterRequest, RegistrarService, Verdict};

#[test]
fn test_md5_hex() {
    // MD5("abc") = 900150983cd24fb0d6963f7d28e17f72
    assert_eq!(md5_hex("abc"), "900150983cd24fb0d6963f7d28e17f72");
}

#[test]
fn test_digest_validation_no_qop() {
    // RFC 2069, without qop:
    // HA1 = MD5("1001:minghe.local:minghe@2024")
    // HA2 = MD5("REGISTER:sip:minghe.local")
    // expected = MD5(HA1:testnonce:HA2)
    let ha1 = md5_hex("1001:minghe.local:minghe@2024");
    let ha2 = md5_hex("REGISTER:sip:minghe.local");
    let response = md5_hex(&format!("{}:testnonce:{}", ha1, ha2));

    assert!(validate_digest(
        "1001",
        "minghe.local",
        "minghe@2024",
        "testnonce",
        "sip:minghe.local",
        "REGISTER",
        &response,
        None,
        None,
        None,
    ));
}

#[test]
fn test_digest_validation_qop_auth() {
    // RFC 2617, with qop=auth:
    // response = MD5(HA1:nonce:nc:cnonce:auth:HA2)
    let ha1 = md5_hex("1001:minghe.local:minghe@2024");
    let ha2 = md5_hex("REGISTER:sip:minghe.local");
    let response = md5_hex(&format!("{}:testnonce:00000001:clientnonce:auth:{}", ha1, ha2));

    assert!(validate_digest(
        "1001",
        "minghe.local",
        "minghe@2024",
        "testnonce",
        "sip:minghe.local",
        "REGISTER",
        &response,
        Some("auth"),
        Some("00000001"),
        Some("clientnonce"),
    ));
}

#[test]
fn test_digest_validation_wrong_password() {
    let ha1 = md5_hex("1001:minghe.local:wrongpassword");
    let ha2 = md5_hex("REGISTER:sip:minghe.local");
    let response = md5_hex(&format!("{}:testnonce:{}", ha1, ha2));

    assert!(!validate_digest(
        "1001",
        "minghe.local",
        "minghe@2024",
        "testnonce",
        "sip:minghe.local",
        "REGISTER",
        &response,
        None,
        None,
        None,
    ));
}

#[test]
fn test_parse_authorization() {
    let header = r#"Digest username="1001", realm="minghe.local", nonce="abc123", uri="sip:minghe.local", response="deadbeef""#;
    let params = parse_authorization(header).unwrap();
    assert_eq!(params.username, "1001");
    assert_eq!(params.realm, "minghe.local");
    assert_eq!(params.nonce, "abc123");
    assert_eq!(params.uri, "sip:minghe.local");
    assert_eq!(params.response, "deadbeef");
}

#[test]
fn test_generate_nonce() {
    let nonce = generate_nonce();
    assert_eq!(nonce.len(), 32); // 16 bytes = 32 hex chars
}

#[test]
fn nonces_are_fresh_lower_case_hex() {
    let first = generate_nonce();
    let second = generate_nonce();
    assert_ne!(first, second);
    assert!(first.chars().all(|c| c.is_ascii_digit() || ('a'..='f').contains(&c)));
}

#[test]
fn digest_defaults_for_missing_count_and_client_nonce() {
    let ha1 = md5_hex("u:r:p");
    let ha2 = md5_hex("REGISTER:sip:x");
    let response = md5_hex(&format!("{}:n:00000001::auth:{}", ha1, ha2));
    assert!(validate_digest("u", "r", "p", "n", "sip:x", "REGISTER", &response, Some("auth"), None, None));
    // Another qop counts as none.
    let plain = md5_hex(&format!("{}:n:{}", ha1, ha2));
    assert!(validate_digest("u", "r", "p", "n", "sip:x", "REGISTER", &plain, Some("auth-int"), None, None));
}

#[test]
fn digest_response_is_compared_without_case() {
    let ha1 = md5_hex("u:r:p");
    let ha2 = md5_hex("REGISTER:sip:x");
    let response = md5_hex(&format!("{}:n:{}", ha1, ha2)).to_uppercase();
    assert!(validate_digest("u", "r", "p", "n", "sip:x", "REGISTER", &response, None, None, None));
}

#[test]
fn commas_in_quotes_do_not_split() {
    assert_eq!(
        split_digest_params(r#"a="1,2", b=3,, ,c="x"#),
        vec![r#"a="1,2""#, " b=3", r#"c="x"#]
    );
    assert!(split_digest_params("").is_empty());
    assert!(split_digest_params(" , ").is_empty());
}

#[test]
fn authorization_keeps_the_last_value_and_ignores_case_of_names() {
    let params = parse_authorization(
        r#"  USERNAME=a, username="b", nonce=n, Response="r", qop=auth, NC=00000002, cnonce="c", algorithm=MD5 "#,
    )
    .unwrap();
    assert_eq!(params.username, "b");
    assert_eq!(params.realm, "");
    assert_eq!(params.qop.as_deref(), Some("auth"));
    assert_eq!(params.nc.as_deref(), Some("00000002"));
    assert_eq!(params.cnonce.as_deref(), Some("c"));
}

#[test]
fn authorization_needs_user_nonce_and_response() {
    assert!(parse_authorization(r#"Digest nonce="n", response="r""#).is_none());
    assert!(parse_authorization(r#"Digest username="u", response="r""#).is_none());
    assert!(parse_authorization(r#"Digest username="u", nonce="n""#).is_none());
    assert!(parse_authorization("").is_none());
}

fn uri(extension: &str) -> Option<SipUri> {
    Some(SipUri { extension: Some(extension.to_string()) })
}

fn service() -> RegistrarService {
    RegistrarService::new(
        "minghe.local".to_string(),
        "minghe@2024".to_string(),
        vec![
            ("1002".to_string(), "old".to_string()),
            ("1002".to_string(), "own".to_string()),
        ],
        1000,
        2000,
    )
}

fn authorized(extension: &str, password: &str, expires: Option<u64>, contact: Option<&str>) -> RegisterRequest {
    let ha1 = md5_hex(&format!("{}:minghe.local:{}", extension, password));
    let ha2 = md5_hex("REGISTER:sip:minghe.local");
    let response = md5_hex(&format!("{}:n:{}", ha1, ha2));
    RegisterRequest {
        to: uri(extension),
        from: uri("1999"),
        authorization: Some(format!(
            r#"Digest username="{}", realm="minghe.local", nonce="n", uri="sip:minghe.local", response="{}""#,
            extension, response
        )),
        expires,
        contact_uri: contact.map(|c| c.to_string()),
    }
}

fn header<'a>(response: &'a Response, name: &str) -> Option<&'a str> {
    response.headers.iter().find(|h| h.name == name).map(|h| h.value.as_str())
}

#[test]
fn register_without_authorization_is_challenged() {
    let mut service = service();
    let request = RegisterRequest {
        to: uri("1001"),
        from: None,
        authorization: None,
        expires: None,
        contact_uri: None,
    };
    let response = service.handle_register(&request, "10.0.0.1:5061").unwrap();
    assert_eq!(response.status, 401);
    assert_eq!(response.reason, "Unauthorized");
    let challenge = header(&response, "WWW-Authenticate").unwrap();
    assert!(challenge.starts_with("Digest realm=\"minghe.local\", nonce=\""));
    assert!(challenge.ends_with("\", algorithm=MD5, qop=\"auth\""));
    assert_eq!(challenge.len(), "Digest realm=\"minghe.local\", nonce=\"\", algorithm=MD5, qop=\"auth\"".len() + 32);
    assert!(!service.is_registered("1001"));
}

#[test]
fn challenge_has_the_nonce() {
    let mut service = service();
    let response = service.settle(Verdict::Challenged, "a", "abc", 0).unwrap();
    assert_eq!(
        header(&response, "WWW-Authenticate"),
        Some("Digest realm=\"minghe.local\", nonce=\"abc\", algorithm=MD5, qop=\"auth\"")
    );
}

#[test]
fn register_makes_the_extension_online() {
    let mut service = service();
    let request = authorized("1001", "minghe@2024", Some(60), Some("sips:1001@phone"));
    let response = service.handle_register(&request, "10.0.0.1:5061").unwrap();
    assert_eq!(response.status, 200);
    assert_eq!(response.reason, "OK");
    assert_eq!(header(&response, "Contact"), Some("<sips:1001@phone>;expires=60"));
    assert_eq!(header(&response, "Expires"), Some("60"));
    assert!(service.is_registered("1001"));
    assert_eq!(service.online_count(), 1);
    let found = service.lookup("1001").unwrap();
    assert_eq!(found.extension, "1001");
    assert_eq!(found.contact, "sips:1001@phone");
    assert_eq!(found.transport_addr, "10.0.0.1:5061");
    service.cleanup_expired();
    assert!(service.is_registered("1001"));
    assert!(!service.is_registered("1002"));
}

#[test]
fn registration_ends_with_its_lifetime() {
    let mut service = service();
    let request = authorized("1001", "minghe@2024", None, None);
    let verdict = service.judge(&request, "10.0.0.1:5061");
    let response = service.settle(verdict, "10.0.0.1:5061", "", 1000).unwrap();
    assert_eq!(header(&response, "Contact"), Some("<sip:1001@10.0.0.1:5061>;expires=3600"));
    assert_eq!(service.lookup_at("1001", 4599).unwrap().expires_at, 4600);
    assert!(service.lookup_at("1001", 4600).is_none());
    assert!(service.is_registered_at("1001", 4599));
    assert!(!service.is_registered_at("1001", 4600));
    assert_eq!(service.online_count_at(4599), 1);
    assert_eq!(service.online_count_at(4600), 0);
    service.cleanup_expired_at(4599);
    assert_eq!(service.online_count_at(4599), 1);
    service.cleanup_expired_at(4600);
    assert_eq!(service.online_count_at(4599), 0);
}

#[test]
fn register_with_zero_lifetime_unregisters() {
    let mut service = service();
    let request = authorized("1001", "minghe@2024", Some(60), None);
    service.handle_register(&request, "a").unwrap();
    let request = authorized("1001", "minghe@2024", Some(0), None);
    let response = service.handle_register(&request, "a").unwrap();
    assert_eq!(response.status, 200);
    assert_eq!(header(&response, "Expires"), Some("0"));
    assert_eq!(header(&response, "Contact"), None);
    assert!(!service.is_registered("1001"));
    assert_eq!(service.online_count(), 0);
}

#[test]
fn own_password_goes_before_the_default() {
    let mut service = service();
    assert_eq!(service.get_password("1002"), "own");
    assert_eq!(service.get_password("1001"), "minghe@2024");
    let wrong = authorized("1002", "minghe@2024", None, None);
    let response = service.handle_register(&wrong, "a").unwrap();
    assert_eq!((response.status, response.reason.as_str()), (403, "Forbidden"));
    assert!(!service.is_registered("1002"));
    let right = authorized("1002", "own", None, None);
    assert_eq!(service.handle_register(&right, "a").unwrap().status, 200);
    assert!(service.is_registered("1002"));
    service.unregister("1002");
    assert!(!service.is_registered("1002"));
}

#[test]
fn refused_requests() {
    let mut service = service();
    let bare = |to: Option<SipUri>, from: Option<SipUri>| RegisterRequest {
        to,
        from,
        authorization: None,
        expires: None,
        contact_uri: None,
    };
    // Without an extension, also where only the From header names one.
    assert_eq!(service.handle_register(&bare(None, None), "a").unwrap().status, 400);
    let nameless = || Some(SipUri { extension: None });
    assert_eq!(service.handle_register(&bare(nameless(), uri("1001")), "a").unwrap().status, 400);
    // From stands in for a missing To.
    assert_eq!(service.handle_register(&bare(None, uri("1001")), "a").unwrap().status, 401);
    // Out of range, or no number.
    assert_eq!(service.handle_register(&bare(uri("999"), None), "a").unwrap().status, 403);
    assert_eq!(service.handle_register(&bare(uri("1000"), None), "a").unwrap().status, 401);
    assert_eq!(service.handle_register(&bare(uri("2000"), None), "a").unwrap().status, 401);
    assert_eq!(service.handle_register(&bare(uri("2001"), None), "a").unwrap().status, 403);
    assert_eq!(service.handle_register(&bare(uri("alice"), None), "a").unwrap().status, 403);
    assert_eq!(service.handle_register(&bare(uri("99999999999"), None), "a").unwrap().status, 403);
    // An Authorization header that cannot be read.
    let mut request = bare(uri("1001"), None);
    request.authorization = Some("Basic xyz".to_string());
    let response = service.handle_register(&request, "a").unwrap();
    assert_eq!((response.status, response.reason.as_str()), (400, "Bad Request"));
    assert_eq!(service.online_count(), 0);
}

#[test]
fn a_lifetime_beyond_the_clock_has_no_answer() {
    let mut service = service();
    let request = authorized("1001", "minghe@2024", Some(u64::MAX), None);
    assert!(service.handle_register(&request, "a").is_none());
    assert_eq!(service.online_count(), 0);
}

#[test]
fn quoted_values_are_read_back() {
    let header = r#"Digest Username="a,b", realm="", nonce="n", uri="sip:x,y=z", response="r", username="c, d""#;
    let params = parse_authorization(header).unwrap();
    assert_eq!(params.username, "c, d");
    assert_eq!(params.realm, "");
    assert_eq!(params.nonce, "n");
    assert_eq!(params.uri, "sip:x,y=z");
    assert_eq!(params.response, "r");
    assert_eq!(params.qop, None);
}

#[test]
fn client_that_answers_with_qop_registers() {
    let mut service = service();
    let ha1 = md5_hex("1002:minghe.local:own");
    let ha2 = md5_hex("REGISTER:sip:minghe.local");
    let response = md5_hex(&format!("{}:n:00000002:client:auth:{}", ha1, ha2)).to_uppercase();
    let request = RegisterRequest {
        to: None,
        from: uri("1002"),
        authorization: Some(format!(
            r#"Digest username="1002", realm="minghe.local", nonce="n", uri="sip:minghe.local", response="{}", qop="auth", nc="00000002", cnonce="client""#,
            response
        )),
        expires: Some(60),
        contact_uri: None,
    };
    assert_eq!(service.handle_register(&request, "a").unwrap().status, 200);
    assert_eq!(service.lookup("1002").unwrap().contact, "sip:1002@a");
}

#[test]
fn requests_touch_only_their_own_extension() {
    let mut service = service();
    service.handle_register(&authorized("1001", "minghe@2024", Some(60), None), "a").unwrap();
    service.handle_register(&authorized("1002", "own", Some(60), None), "b").unwrap();
    assert_eq!(service.online_count(), 2);
    service.handle_register(&authorized("1001", "minghe@2024", Some(0), None), "a").unwrap();
    service.handle_register(&authorized("1001", "wrong", Some(60), None), "a").unwrap();
    assert_eq!(service.lookup("1002").unwrap().transport_addr, "b");
    assert!(service.lookup("1001").is_none());
    assert_eq!(service.get_password("1002"), "own");
}

#[test]
fn register_at_a_given_time() {
    let mut service = service();
    let request = authorized("1001", "minghe@2024", Some(60), Some("sips:c"));
    let response = service.handle_register_at(&request, "a", "n", 1000).unwrap();
    assert_eq!(response.status, 200);
    assert_eq!(service.lookup_at("1001", 1059).unwrap().contact, "sips:c");
    assert!(service.lookup_at("1001", 1060).is_none());

    // The answer is owed up to the last lifetime that fits.
    let longest = authorized("1001", "minghe@2024", Some(u64::MAX - 1000), None);
    assert_eq!(service.handle_register_at(&longest, "b", "n", 1000).unwrap().status, 200);
    assert_eq!(service.lookup_at("1001", 0).unwrap().expires_at, u64::MAX);
    assert!(service.handle_register_at(&longest, "c", "n", 1001).is_none());
    assert_eq!(service.lookup_at("1001", 0).unwrap().transport_addr, "b");

    let bare = RegisterRequest { authorization: None, ..request };
    let response = service.handle_register_at(&bare, "a", "abc", u64::MAX).unwrap();
    assert_eq!(response.status, 401);
    assert!(header(&response, "WWW-Authenticate").unwrap().contains("nonce=\"abc\""));
}
