use minghe_sip::sip::forward::{
    build_forwarded_invite_response, first_header_line, header_lines, rebuild_request_with_sdp,
    replace_request_uri, rewrite_request_uri, rewrite_request_uri_at, rewrite_request_uri_bytes,
    server_contact_uri,
};
use minghe_sip::sip::registrar::{RegistrarService, Verdict};

#[test]
fn forwarded_invite_response_preserves_callee_to_tag_and_adds_server_contact() {
    let original_invite = "INVITE sip:1002@example.com SIP/2.0\r\n\
        Via: SIP/2.0/TLS caller.example.com;branch=z9hG4bKcaller\r\n\
        From: <sips:1001@example.com>;tag=caller-tag\r\n\
        To: <sips:1002@example.com>\r\n\
        Call-ID: call-1\r\n\
        CSeq: 1 INVITE\r\n\
        Content-Length: 0\r\n\r\n";
    let callee_response = "SIP/2.0 200 OK\r\n\
        Via: SIP/2.0/TLS caller.example.com;branch=z9hG4bKcaller\r\n\
        From: <sips:1001@example.com>;tag=caller-tag\r\n\
        To: <sips:1002@example.com>;tag=callee-tag\r\n\
        Call-ID: call-1\r\n\
        CSeq: 1 INVITE\r\n\
        Content-Length: 0\r\n\r\n";

    let response = build_forwarded_invite_response(
        original_invite,
        callee_response,
        200,
        "OK",
        "sips:1002@example.com;transport=tls",
        "v=0\r\n",
    );
    let response_text = String::from_utf8(response).unwrap();

    assert!(response_text.contains("To: <sips:1002@example.com>;tag=callee-tag\r\n"));
    assert!(response_text.contains("Contact: <sips:1002@example.com;transport=tls>\r\n"));
    assert!(!response_text.contains("caller-tag;tag="));
}

#[test]
fn in_dialog_request_uri_is_rewritten_to_target_contact_fallback() {
    let registrar = RegistrarService::new(
        "example.com".to_string(),
        "secret".to_string(),
        Vec::new(),
        1000,
        2000,
    );
    let ack = "ACK sips:1002@stale-contact.invalid SIP/2.0\r\n\
        Via: SIP/2.0/TLS caller.example.com;branch=z9hG4bKack\r\n\
        From: <sips:1001@example.com>;tag=caller-tag\r\n\
        To: <sips:1002@example.com>;tag=callee-tag\r\n\
        Call-ID: call-1\r\n\
        CSeq: 1 ACK\r\n\
        Content-Length: 0\r\n\r\n";

    let rewritten = rewrite_request_uri(ack, "1002", "example.com", &registrar);

    assert!(rewritten.starts_with("ACK sips:1002@example.com;transport=tls SIP/2.0\r\n"));
    assert!(!rewritten.contains("stale-contact.invalid"));
    assert!(rewritten.contains("To: <sips:1002@example.com>;tag=callee-tag\r\n"));
}

const INVITE: &str = "INVITE sip:1002@example.com SIP/2.0\r\n\
    v: SIP/2.0/TLS a\r\n\
    VIA: SIP/2.0/TLS b\r\n\
    f: <sips:1001@example.com>;tag=x\r\n\
    T: <sips:1002@example.com>\r\n\
    i: call-1\r\n\
    cseq: 1 INVITE\r\n\
    Content-Length: 3\r\n\r\nVia: no header\r\n";

#[test]
fn forwarded_response_exactly() {
    let busy = "SIP/2.0 486 Busy\r\nContent-Length: 0\r\n\r\n";
    let response = build_forwarded_invite_response(INVITE, busy, 486, "Busy Here", "sips:c", "");
    assert_eq!(
        String::from_utf8(response).unwrap(),
        "SIP/2.0 486 Busy Here\r\n\
         v: SIP/2.0/TLS a\r\n\
         VIA: SIP/2.0/TLS b\r\n\
         f: <sips:1001@example.com>;tag=x\r\n\
         T: <sips:1002@example.com>\r\n\
         i: call-1\r\n\
         cseq: 1 INVITE\r\n\
         Content-Length: 0\r\n\r\n"
    );
    let response = build_forwarded_invite_response("", "", 299, "Fine", "sips:c", "é");
    assert_eq!(
        String::from_utf8(response).unwrap(),
        "SIP/2.0 299 Fine\r\n\
         To: <sips:sips:c>\r\n\
         Contact: <sips:c>\r\n\
         Content-Type: application/sdp\r\n\
         Content-Length: 2\r\n\r\né"
    );
}

#[test]
fn forwarded_response_reads_back() {
    let ok = "SIP/2.0 200 OK\r\nTo: <sips:1002@example.com>;tag=y\r\n\r\n";
    let bytes = build_forwarded_invite_response(INVITE, ok, 200, "OK", "sips:c", "v=0\r\nTo: body");
    let response = String::from_utf8(bytes).unwrap();
    for (name, short) in [("Via", Some("v")), ("From", Some("f")), ("Call-ID", Some("i")), ("CSeq", None)] {
        assert_eq!(header_lines(&response, name, short), header_lines(INVITE, name, short));
    }
    assert_eq!(header_lines(&response, "To", Some("t")), header_lines(ok, "To", Some("t")));
    assert_eq!(header_lines(&response, "Content-Length", Some("l")), vec!["Content-Length: 13"]);
    assert_eq!(header_lines(&response, "Contact", None), vec!["Contact: <sips:c>"]);
}

#[test]
fn headers_end_at_the_blank_line() {
    assert_eq!(header_lines(INVITE, "Via", Some("v")), vec!["v: SIP/2.0/TLS a", "VIA: SIP/2.0/TLS b"]);
    assert_eq!(header_lines(INVITE, "via", None), vec!["VIA: SIP/2.0/TLS b"]);
    assert_eq!(first_header_line(INVITE, "Via", Some("V")).as_deref(), Some("v: SIP/2.0/TLS a"));
    assert_eq!(first_header_line(INVITE, "Contact", Some("m")), None);
    assert_eq!(header_lines("  To: a  \n \nTo: b", "To", None), vec!["To: a"]);
    assert_eq!(header_lines("ÄB: x\r\n", "äb", None), vec!["ÄB: x"]);
    // What stands behind the name may be any text.
    assert_eq!(header_lines("TO: Ünal Ω\r\n", "To", None), vec!["TO: Ünal Ω"]);
    assert_eq!(header_lines("To Ü: a\r\n", "To", None), Vec::<String>::new());
}

#[test]
fn rebuilt_request_has_type_and_length() {
    let rebuilt = rebuild_request_with_sdp(INVITE, "v=0é\r\n");
    let expected = INVITE.split("\r\n\r\n").next().unwrap().replace("Content-Length: 3", "Content-Length: 7");
    assert_eq!(
        String::from_utf8(rebuilt).unwrap(),
        format!("{}\r\nContent-Type: application/sdp\r\n\r\nv=0é\r\n", expected)
    );
    assert_eq!(
        String::from_utf8(rebuild_request_with_sdp("A\r\nL: 9\r\nCONTENT-TYPE: x", "ab")).unwrap(),
        "A\r\nContent-Length: 2\r\nCONTENT-TYPE: x\r\n\r\nab"
    );
    assert_eq!(
        String::from_utf8(rebuild_request_with_sdp("", "")).unwrap(),
        "Content-Type: application/sdp\r\nContent-Length: 0\r\n\r\n"
    );
}

#[test]
fn request_line_gets_the_uri() {
    assert_eq!(replace_request_uri("BYE  a\tSIP/2.0\nX: y\r\n\r\nz", "b"), "BYE b SIP/2.0\r\nX: y\r\n\r\nz");
    assert_eq!(replace_request_uri("BYE a SIP/2.0\r\n\r\n", "b"), "BYE b SIP/2.0\r\n\r\n");
    assert_eq!(replace_request_uri("BYE a SIP/2.0", "b"), "BYE b SIP/2.0");
    // A bare line feed after an empty last line is lost.
    assert_eq!(replace_request_uri("BYE a SIP/2.0\n\n", "b"), "BYE b SIP/2.0\r\n");
    // Without a URI it is no longer a request, and stays as it is.
    let bare = replace_request_uri("BYE a SIP/2.0\r\n\r\n", "");
    assert_eq!(bare, "BYE  SIP/2.0\r\n\r\n");
    assert_eq!(replace_request_uri(&bare, "b"), bare);
    // Twice is as good as once.
    let twice = replace_request_uri(&replace_request_uri(INVITE, "first"), "second");
    assert_eq!(twice, replace_request_uri(INVITE, "second"));
}

#[test]
fn what_is_no_request_stays() {
    for message in ["", "SIP/2.0 200 OK\r\n", "SIP/2.0x y z", "one two", "a b c d\r\n", "\r\na b c"] {
        assert_eq!(replace_request_uri(message, "uri"), message);
    }
}

#[test]
fn requests_go_to_the_registered_contact() {
    let mut registrar = RegistrarService::new(
        "example.com".to_string(),
        "secret".to_string(),
        Vec::new(),
        1000,
        2000,
    );
    let verdict = Verdict::Registered {
        extension: "1002".to_string(),
        contact: "sips:1002@10.0.0.2:5061".to_string(),
        expires: 100,
    };
    registrar.settle(verdict, "10.0.0.2:5061", "", 50);
    let bye = "BYE sip:x SIP/2.0\r\n\r\n";
    assert_eq!(
        rewrite_request_uri_at(bye, "1002", "example.com", &registrar, 149),
        "BYE sips:1002@10.0.0.2:5061 SIP/2.0\r\n\r\n"
    );
    assert_eq!(
        rewrite_request_uri_at(bye, "1002", "example.com", &registrar, 150),
        "BYE sips:1002@example.com;transport=tls SIP/2.0\r\n\r\n"
    );
    assert_eq!(
        rewrite_request_uri_bytes(bye.as_bytes(), "1002", "example.com", &registrar, 149),
        b"BYE sips:1002@10.0.0.2:5061 SIP/2.0\r\n\r\n"
    );
    let broken = b"BYE sip:\xff SIP/2.0\r\n\r\n";
    assert_eq!(rewrite_request_uri_bytes(broken, "1002", "example.com", &registrar, 149), broken);
    assert_eq!(server_contact_uri("1", "d"), "sips:1@d;transport=tls");
}

#[test]
fn the_last_session_description_counts() {
    for request in [INVITE, "", "\r\n", "A", "A\r\n", "\r\nA: b\r\nl: 3", "A\r\nContent-Type: x\r\nContent-Length: 1\r\n\r\ny"] {
        let once = String::from_utf8(rebuild_request_with_sdp(request, "first\r\n\r\n")).unwrap();
        for sdp in ["", "second", "first\r\n\r\n"] {
            assert_eq!(rebuild_request_with_sdp(&once, sdp), rebuild_request_with_sdp(request, sdp));
        }
    }
    // A bare line feed before an empty line ends the headers only once it is rewritten.
    let once = String::from_utf8(rebuild_request_with_sdp("A\n\nB: c", "s")).unwrap();
    assert_ne!(rebuild_request_with_sdp(&once, "s"), rebuild_request_with_sdp("A\n\nB: c", "s"));
}

#[test]
fn readdressed_request_keeps_its_rest() {
    for request in ["BYE a SIP/2.0", " BYE \t a  SIP/2.0 \r\n", "BYE a SIP/2.0\r\n\r\nx\r\n\r\n", "BYE a SIP/2.0\r\nA: b\rc\r\r\n"] {
        let rest = &request[request.find("\r\n").unwrap_or(request.len())..];
        let expected = format!("BYE uri SIP/2.0{}", rest);
        assert_eq!(replace_request_uri(request, "uri"), expected);
        assert_eq!(replace_request_uri(&expected, "uri"), expected);
    }
}
