use minghe_sip::sip::call::{
    ByeAction, ByeStage, CalleeResponse, CancelAction, CancelStage, DialogRequest, InviteAction,
    InvitePlan, InviteRequest, InviteStage, InviteStep, LocalKeys, RelayPlan, RelaySession,
    ResponseAction, ResponseStage,
};
use minghe_sip::sip::media::SrtpCryptoSuite;
use minghe_sip::sip::message::{Response, SipUri};
use minghe_sip::sip::registrar::{RegistrarService, Verdict};
use minghe_sip::sip::router::Router;

const CALLER: u64 = 1;
const CALLEE: u64 = 2;
const NOW: u64 = 1000;
const INVITE: &str = "INVITE sip:1002@example.com SIP/2.0\r\n\
    Via: SIP/2.0/TLS caller\r\n\
    From: <sips:1001@example.com>;tag=a\r\n\
    To: <sips:1002@example.com>\r\n\
    Call-ID: call-1\r\n\
    CSeq: 1 INVITE\r\n\
    Content-Length: 0\r\n\r\n";

fn registrar() -> RegistrarService {
    let mut registrar = RegistrarService::new(
        "example.com".to_string(),
        "secret".to_string(),
        Vec::new(),
        1000,
        2000,
    );
    for extension in ["1001", "1002", "1003"] {
        let verdict = Verdict::Registered {
            extension: extension.to_string(),
            contact: format!("sips:{}@phone", extension),
            expires: 100,
        };
        registrar.settle(verdict, "10.0.0.1:5061", "", NOW);
    }
    registrar
}

fn router() -> Router {
    let mut router = Router::new("example.com".to_string(), "203.0.113.1".to_string());
    router.register_writer("1001", CALLER);
    router.register_writer("1002", CALLEE);
    router
}

fn keys(sdes: &str) -> SrtpCryptoSuite {
    SrtpCryptoSuite { sdes: sdes.to_string() }
}

fn invite(callee: &str, body: Option<&str>, crypto: Option<&str>) -> InviteRequest {
    InviteRequest {
        text: INVITE.to_string(),
        from: Some(SipUri { extension: Some("1001".to_string()) }),
        request_uri: Some(SipUri { extension: Some(callee.to_string()) }),
        call_id: Some("call-1".to_string()),
        from_tag: Some("a".to_string()),
        body: body.map(|b| b.to_string()),
        body_crypto: crypto.map(keys),
    }
}

fn response(status: u16, body: Option<&str>, crypto: Option<&str>) -> CalleeResponse {
    CalleeResponse {
        text: format!("SIP/2.0 {} X\r\nTo: <sips:1002@example.com>;tag=b\r\n\r\n", status),
        call_id: Some("call-1".to_string()),
        status: Some(status),
        to_tag: Some("b".to_string()),
        body: body.map(|b| b.to_string()),
        body_crypto: crypto.map(keys),
    }
}

fn dialog(method: &str) -> DialogRequest {
    DialogRequest { text: format!("{} sip:x SIP/2.0\r\n\r\n", method), call_id: Some("call-1".to_string()) }
}

fn answer(response: &Response) -> (u16, &str) {
    assert!(response.headers.is_empty());
    (response.status, response.reason.as_str())
}

fn reply(step: &InviteStep) -> (u16, &str) {
    match &step.action {
        InviteAction::Reply { response } => answer(response),
        other => panic!("{:?}", other),
    }
}

const SESSION: RelaySession = RelaySession { caller_port: 40000, callee_port: 40002 };

/// Sets up a call without a session description.
fn call(router: &mut Router) {
    let invite = invite("1002", None, None);
    let stage = InviteStage::Allocated { callee_writer: CALLEE, granted: Some(SESSION) };
    let step = router.handle_invite_at(&invite, CALLER, stage, &registrar(), NOW);
    assert!(matches!(step.action, InviteAction::Forward { .. }));
    assert!(!step.release);
    assert!(router.has_active_call("call-1"));
}

#[test]
fn invite_to_an_offline_callee() {
    let mut router = router();
    for (callee, now) in [("1009", NOW), ("1002", NOW + 100)] {
        let step = router.handle_invite_at(&invite(callee, None, None), CALLER, InviteStage::Received, &registrar(), now);
        assert_eq!(reply(&step), (404, "Not Found"));
        assert!(!step.release);
    }
    assert!(!router.has_active_call("call-1"));
}

#[test]
fn invite_to_a_callee_without_channel() {
    let mut router = router();
    let received = |router: &mut Router, callee: &str| {
        router.handle_invite_at(&invite(callee, None, None), CALLER, InviteStage::Received, &registrar(), NOW)
    };
    assert_eq!(reply(&received(&mut router, "1003")), (480, "Temporarily Unavailable"));
    let step = received(&mut router, "1002");
    assert!(matches!(step.action, InviteAction::AllocateSession { callee_writer: CALLEE }));
    router.unregister_writer("1002");
    assert_eq!(reply(&received(&mut router, "1002")), (480, "Temporarily Unavailable"));
}

#[test]
fn invite_without_media_relay() {
    let mut router = router();
    let stage = InviteStage::Allocated { callee_writer: CALLEE, granted: None };
    let step = router.handle_invite(&invite("1002", None, None), CALLER, stage, &registrar());
    assert_eq!(reply(&step), (503, "Service Unavailable"));
    assert!(!router.has_active_call("call-1"));
}

#[test]
fn invite_without_session_description() {
    let mut router = router();
    let stage = InviteStage::Allocated { callee_writer: CALLEE, granted: Some(SESSION) };
    let step = router.handle_invite_at(&invite("1002", None, None), CALLER, stage, &registrar(), NOW);
    match step.action {
        InviteAction::Forward { outgoing } => {
            assert_eq!(outgoing.to, CALLEE);
            assert_eq!(
                String::from_utf8(outgoing.message).unwrap(),
                INVITE.replace("sip:1002@example.com", "sips:1002@phone")
            );
        }
        other => panic!("{:?}", other),
    }
    assert!(router.has_active_call("call-1"));
    assert_eq!(router.find_peer_extension("call-1", "1001").as_deref(), Some("1002"));
    assert_eq!(router.find_peer_extension("call-1", "1002").as_deref(), Some("1001"));
    assert_eq!(router.find_peer_extension("call-2", "1001"), None);
    let stage = InviteStage::Delivered { delivered: true };
    let step = router.handle_invite(&invite("1002", None, None), CALLER, stage, &registrar());
    assert_eq!(reply(&step), (100, "Trying"));
    assert!(router.has_active_call("call-1"));
}

#[test]
fn invite_that_cannot_be_delivered() {
    let mut router = router();
    call(&mut router);
    let stage = InviteStage::Delivered { delivered: false };
    let step = router.handle_invite(&invite("1002", None, None), CALLER, stage, &registrar());
    assert_eq!(reply(&step), (500, "Internal Server Error"));
    assert!(step.release);
    assert!(!router.has_active_call("call-1"));
}

#[test]
fn invite_gives_up_an_earlier_call_with_its_id() {
    let mut router = router();
    call(&mut router);
    let step = router.handle_invite_at(&invite("1002", None, None), CALLER, InviteStage::Received, &registrar(), NOW);
    assert!(step.release);
    assert!(matches!(step.action, InviteAction::AllocateSession { .. }));
    assert!(!router.has_active_call("call-1"));
}

/// Sets up a call with SRTP on both sides.
fn srtp_call(router: &mut Router) {
    let invite = invite("1002", Some("v=0\r\n"), Some("inline:caller"));
    let stage = InviteStage::Allocated { callee_writer: CALLEE, granted: Some(SESSION) };
    let step = router.handle_invite_at(&invite, CALLER, stage, &registrar(), NOW);
    let (callee_writer, session) = match step.action {
        InviteAction::GenerateKeys { callee_writer, session } => (callee_writer, session),
        other => panic!("{:?}", other),
    };
    let keys = LocalKeys { caller: keys("x inline:to-caller"), callee: keys("x inline:to-callee") };
    let stage = InviteStage::Keyed { callee_writer, session, keys };
    let step = router.handle_invite_at(&invite, CALLER, stage, &registrar(), NOW);
    let plan: InvitePlan = match step.action {
        InviteAction::RewriteSdp { plan, rewrite } => {
            assert_eq!(rewrite.body, "v=0\r\n");
            assert_eq!(rewrite.media_addr, "203.0.113.1");
            assert_eq!(rewrite.port, 40002);
            assert_eq!(rewrite.key.as_deref(), Some("to-callee"));
            plan
        }
        other => panic!("{:?}", other),
    };
    assert!(!router.has_active_call("call-1"));
    let stage = InviteStage::Described { plan, sdp: "v=1\r\n".to_string() };
    let step = router.handle_invite_at(&invite, CALLER, stage, &registrar(), NOW);
    match step.action {
        InviteAction::Forward { outgoing } => {
            let message = String::from_utf8(outgoing.message).unwrap();
            assert!(message.starts_with("INVITE sips:1002@phone SIP/2.0\r\n"));
            assert!(message.ends_with(
                "\r\nContent-Length: 5\r\nContent-Type: application/sdp\r\n\r\nv=1\r\n"
            ));
        }
        other => panic!("{:?}", other),
    }
    assert!(router.has_active_call("call-1"));
}

fn finish(router: &mut Router, response: &CalleeResponse) -> (bool, Option<RelayPlan>) {
    match router.handle_callee_response(response, ResponseStage::Delivered) {
        ResponseAction::Finish { release, relay } => (release, relay),
        other => panic!("{:?}", other),
    }
}

#[test]
fn srtp_call_is_established() {
    let mut router = router();
    srtp_call(&mut router);

    // Without keys of the callee there is no relay.
    let early = response(200, None, None);
    match router.handle_callee_response(&early, ResponseStage::Received) {
        ResponseAction::Forward { outgoing } => {
            assert_eq!(outgoing.to, CALLER);
            let message = String::from_utf8(outgoing.message).unwrap();
            assert!(message.starts_with("SIP/2.0 200 OK\r\nVia: SIP/2.0/TLS caller\r\n"));
            assert!(message.contains("To: <sips:1002@example.com>;tag=b\r\n"));
            assert!(message.contains("Contact: <sips:1002@example.com;transport=tls>\r\n"));
        }
        other => panic!("{:?}", other),
    }
    let (release, relay) = finish(&mut router, &early);
    assert!(!release && relay.is_none());

    let full = response(200, Some("v=2\r\n"), Some("inline:callee"));
    let forwarding = match router.handle_callee_response(&full, ResponseStage::Received) {
        ResponseAction::RewriteSdp { forwarding, rewrite } => {
            assert_eq!(rewrite.body, "v=2\r\n");
            assert_eq!(rewrite.port, 40000);
            assert_eq!(rewrite.key.as_deref(), Some("to-caller"));
            forwarding
        }
        other => panic!("{:?}", other),
    };
    let stage = ResponseStage::Described { forwarding, sdp: "v=3\r\n".to_string() };
    match router.handle_callee_response(&full, stage) {
        ResponseAction::Forward { outgoing } => {
            let message = String::from_utf8(outgoing.message).unwrap();
            assert!(message.ends_with("Content-Length: 5\r\n\r\nv=3\r\n"));
        }
        other => panic!("{:?}", other),
    }
    let (release, relay) = finish(&mut router, &full);
    assert!(!release);
    let relay = relay.unwrap();
    assert_eq!((relay.call_id.as_str(), relay.media_addr.as_str()), ("call-1", "203.0.113.1"));
    assert_eq!((relay.caller_port, relay.callee_port), (40000, 40002));
    assert_eq!(relay.caller_decrypt.unwrap().sdes, "inline:caller");
    assert_eq!(relay.callee_encrypt.unwrap().sdes, "x inline:to-callee");
    assert_eq!(relay.callee_decrypt.unwrap().sdes, "inline:callee");
    assert_eq!(relay.caller_encrypt.unwrap().sdes, "x inline:to-caller");

    // The relay starts once.
    let (release, relay) = finish(&mut router, &full);
    assert!(!release && relay.is_none());
}

#[test]
fn plain_call_is_established() {
    let mut router = router();
    call(&mut router);
    let ringing = response(180, None, None);
    assert!(matches!(
        router.handle_callee_response(&ringing, ResponseStage::Received),
        ResponseAction::Forward { .. }
    ));
    let (release, relay) = finish(&mut router, &ringing);
    assert!(!release && relay.is_none());
    let ok = response(200, Some("v=0"), None);
    match router.handle_callee_response(&ok, ResponseStage::Received) {
        ResponseAction::RewriteSdp { rewrite, .. } => assert_eq!(rewrite.key, None),
        other => panic!("{:?}", other),
    }
    let relay = finish(&mut router, &ok).1.unwrap();
    assert!(relay.caller_decrypt.is_none() && relay.callee_encrypt.is_none());
    assert!(relay.callee_decrypt.is_none() && relay.caller_encrypt.is_none());
}

#[test]
fn refused_call_ends() {
    let mut router = router();
    for (status, reason) in [(486, "Busy Here"), (487, "Request Terminated"), (603, "Decline"), (404, "Unknown")] {
        call(&mut router);
        let refused = response(status, None, None);
        match router.handle_callee_response(&refused, ResponseStage::Received) {
            ResponseAction::Forward { outgoing } => {
                let start = format!("SIP/2.0 {} {}\r\n", status, reason);
                assert!(String::from_utf8(outgoing.message).unwrap().starts_with(&start));
            }
            other => panic!("{:?}", other),
        }
        assert!(router.has_active_call("call-1"));
        let (release, relay) = finish(&mut router, &refused);
        assert!(release && relay.is_none());
        assert!(!router.has_active_call("call-1"));
    }
}

#[test]
fn responses_of_no_call() {
    let mut router = router();
    let mut stray = response(200, None, None);
    assert!(matches!(router.handle_callee_response(&stray, ResponseStage::Received), ResponseAction::Ignore));
    call(&mut router);
    stray.status = None;
    assert!(matches!(router.handle_callee_response(&stray, ResponseStage::Received), ResponseAction::Ignore));
    stray.status = Some(200);
    stray.call_id = None;
    assert!(matches!(router.handle_callee_response(&stray, ResponseStage::Received), ResponseAction::Ignore));
}

#[test]
fn reason_of_a_session_progress() {
    let mut router = router();
    call(&mut router);
    for (status, reason) in [(100, "Trying"), (180, "Ringing"), (183, "Session Progress"), (200, "OK"), (202, "Unknown")] {
        let progress = response(status, Some("v=0"), None);
        let forwarding = match router.handle_callee_response(&progress, ResponseStage::Received) {
            ResponseAction::RewriteSdp { forwarding, .. } => forwarding,
            other => panic!("{:?}", other),
        };
        let stage = ResponseStage::Described { forwarding, sdp: String::new() };
        match router.handle_callee_response(&progress, stage) {
            ResponseAction::Forward { outgoing } => {
                let start = format!("SIP/2.0 {} {}\r\n", status, reason);
                assert!(String::from_utf8(outgoing.message).unwrap().starts_with(&start));
            }
            other => panic!("{:?}", other),
        }
    }
}

#[test]
fn ack_goes_to_the_callee() {
    let mut router = router();
    assert!(router.handle_ack(&dialog("ACK"), &registrar()).is_none());
    call(&mut router);
    let outgoing = router.handle_ack_at(&dialog("ACK"), &registrar(), NOW).unwrap();
    assert_eq!(outgoing.to, CALLEE);
    assert_eq!(outgoing.message, b"ACK sips:1002@phone SIP/2.0\r\n\r\n");
    let nameless = DialogRequest { text: "ACK x SIP/2.0".to_string(), call_id: None };
    assert!(router.handle_ack(&nameless, &registrar()).is_none());
}

#[test]
fn bye_goes_to_the_other_party() {
    for (from, to, uri) in [("1001", CALLEE, "sips:1002@phone"), ("1002", CALLER, "sips:1001@phone")] {
        let mut router = router();
        call(&mut router);
        match router.handle_bye_at(&dialog("BYE"), from, ByeStage::Received, &registrar(), NOW) {
            ByeAction::Forward { outgoing } => {
                assert_eq!(outgoing.to, to);
                assert_eq!(String::from_utf8(outgoing.message).unwrap(), format!("BYE {} SIP/2.0\r\n\r\n", uri));
            }
            other => panic!("{:?}", other),
        }
        assert!(router.has_active_call("call-1"));
        match router.handle_bye(&dialog("BYE"), from, ByeStage::Forwarded, &registrar()) {
            ByeAction::Reply { release, response } => {
                assert!(release);
                assert_eq!(answer(&response), (200, "OK"));
            }
            other => panic!("{:?}", other),
        }
        assert!(!router.has_active_call("call-1"));
    }
}

#[test]
fn cancel_ends_the_call() {
    let mut router = router();
    call(&mut router);
    let original_invite = match router.handle_cancel_at(&dialog("CANCEL"), CancelStage::Received, &registrar(), NOW) {
        CancelAction::Forward { outgoing, original_invite } => {
            assert_eq!(outgoing.to, CALLEE);
            assert_eq!(outgoing.message, b"CANCEL sips:1002@phone SIP/2.0\r\n\r\n");
            assert_eq!(original_invite, INVITE);
            original_invite
        }
        other => panic!("{:?}", other),
    };
    match router.handle_cancel(&dialog("CANCEL"), CancelStage::Forwarded { original_invite }, &registrar()) {
        CancelAction::Notify { to, request, response } => {
            assert_eq!(to, CALLER);
            assert_eq!(request, INVITE);
            assert_eq!(answer(&response), (487, "Request Terminated"));
        }
        other => panic!("{:?}", other),
    }
    match router.handle_cancel(&dialog("CANCEL"), CancelStage::Notified, &registrar()) {
        CancelAction::Reply { release, response } => {
            assert!(release);
            assert_eq!(answer(&response), (200, "OK"));
        }
        other => panic!("{:?}", other),
    }
    assert!(!router.has_active_call("call-1"));
}

#[test]
fn requests_of_no_call() {
    let mut router = router();
    call(&mut router);
    let unknown = DialogRequest { text: "BYE x SIP/2.0".to_string(), call_id: Some("call-2".to_string()) };
    let nameless = DialogRequest { text: "BYE x SIP/2.0".to_string(), call_id: None };
    for request in [unknown, nameless] {
        match router.handle_bye(&request, "1001", ByeStage::Received, &registrar()) {
            ByeAction::Reply { release, response } => {
                assert!(!release);
                assert_eq!(answer(&response), (481, "Call/Transaction Does Not Exist"));
            }
            other => panic!("{:?}", other),
        }
        match router.handle_cancel(&request, CancelStage::Received, &registrar()) {
            CancelAction::Reply { release, response } => {
                assert!(!release);
                assert_eq!(answer(&response), (481, "Call/Transaction Does Not Exist"));
            }
            other => panic!("{:?}", other),
        }
    }
    assert!(router.has_active_call("call-1"));
}

#[test]
fn calls_do_not_touch_each_other() {
    let mut router = router();
    call(&mut router);
    let mut other = invite("1002", None, None);
    other.call_id = Some("call-2".to_string());
    let stage = InviteStage::Allocated { callee_writer: CALLEE, granted: Some(SESSION) };
    router.handle_invite_at(&other, CALLER, stage, &registrar(), NOW);
    router.handle_bye(&dialog("BYE"), "1001", ByeStage::Forwarded, &registrar());
    assert!(!router.has_active_call("call-1"));
    assert!(router.has_active_call("call-2"));
    let step = router.handle_invite_at(&other, CALLER, InviteStage::Received, &registrar(), NOW);
    assert!(step.release);
    assert!(matches!(step.action, InviteAction::AllocateSession { callee_writer: CALLEE }));
}
