//! Routing: what goes out for each message, to whom, and what is kept of a call.

use crate::laws::lines;
use crate::laws::requests;
use crate::laws::responses;
use crate::number;
use crate::sip::call;
use crate::sip::forward;
use crate::sip::media;
use crate::sip::registrar::RegistrarView;
use crate::sip::router::{self, RouterView};
use crate::text;
use vstd::prelude::*;

verus! {

// ---------------------------------------------------------------------------
// INVITE
// ---------------------------------------------------------------------------

/// An INVITE that has just come ends an earlier call with its Call-ID, whose relay is given back.
/// The callee is the extension of the request URI. Where it has no registration, or one that is
/// over, the caller is answered 404; where it has no channel, 480; else a relay is asked for, and
/// the channel of the callee is kept. Nothing else changes.
pub proof fn law_invite_needs_a_reachable_callee(
    before: RouterView,
    invite: call::InviteView,
    caller_writer: call::WriterId,
    registrar: RegistrarView,
    now: u64,
)
    ensures
        ({
            let id = match invite.call_id {
                Some(call_id) => call_id,
                None => Seq::empty(),
            };
            let callee = match invite.request_uri {
                Some(Some(extension)) => extension,
                _ => Seq::empty(),
            };
            let online = registrar.registrations.dom().contains(callee) && now
                < registrar.registrations[callee].expires_at;
            let reachable = before.writers.dom().contains(callee);
            let (after, step) = before.invite_step(
                invite,
                caller_writer,
                call::InviteStageView::Received,
                registrar,
                now,
            );
            &&& after.calls == before.calls.remove(id)
            &&& after == (RouterView { calls: after.calls, ..before })
            &&& step.release == before.calls.dom().contains(id)
            &&& !online ==> (step.action matches call::InviteActionView::Reply { response }
                && response.status == 404 && response.reason == "Not Found"@
                && response.headers.len() == 0)
            &&& online && !reachable ==> (step.action matches call::InviteActionView::Reply {
                response,
            } && response.status == 480 && response.reason == "Temporarily Unavailable"@
                && response.headers.len() == 0)
            &&& online && reachable ==> (step.action matches call::InviteActionView::AllocateSession {
                callee_writer,
            } && callee_writer == before.writers[callee])
        }),
{
}

/// Without a relay the caller is answered 503. With one, a caller that offers SRTP has keys
/// generated for it; any other goes on without keys. The channel of the callee and the relay are
/// handed on as they came, and the router stays as it is until the INVITE goes out.
pub proof fn law_relay_and_keys_are_handed_on(
    before: RouterView,
    invite: call::InviteView,
    caller_writer: call::WriterId,
    callee_writer: call::WriterId,
    session: call::RelaySession,
    keys: (Seq<char>, Seq<char>),
    registrar: RegistrarView,
    now: u64,
)
    ensures
        ({
            let (after, step) = before.invite_step(
                invite,
                caller_writer,
                call::InviteStageView::Allocated { callee_writer, granted: None },
                registrar,
                now,
            );
            &&& after == before
            &&& !step.release
            &&& step.action matches call::InviteActionView::Reply { response }
            &&& response.status == 503 && response.reason == "Service Unavailable"@
                && response.headers.len() == 0
        }),
        ({
            let (after, step) = before.invite_step(
                invite,
                caller_writer,
                call::InviteStageView::Allocated { callee_writer, granted: Some(session) },
                registrar,
                now,
            );
            &&& !step.release
            &&& invite.body_crypto is Some ==> after == before && (
            step.action matches call::InviteActionView::GenerateKeys { callee_writer: to, session: s }
                && to == callee_writer && s == session)
            &&& invite.body_crypto is None && invite.body is Some ==> after == before && (
            step.action matches call::InviteActionView::RewriteSdp { plan, .. }
                && plan.callee_writer == callee_writer && plan.session == session
                && plan.keys is None)
            &&& invite.body_crypto is None && invite.body is None ==> (
            step.action matches call::InviteActionView::Forward { outgoing } && outgoing.to
                == callee_writer)
        }),
        ({
            let (after, step) = before.invite_step(
                invite,
                caller_writer,
                call::InviteStageView::Keyed { callee_writer, session, keys },
                registrar,
                now,
            );
            &&& !step.release
            &&& invite.body is Some ==> after == before && (
            step.action matches call::InviteActionView::RewriteSdp { plan, .. }
                && plan.callee_writer == callee_writer && plan.session == session && plan.keys
                == Some(keys))
            &&& invite.body is None ==> (step.action matches call::InviteActionView::Forward {
                outgoing,
            } && outgoing.to == callee_writer)
        }),
{
}

/// Where a session description is to be rewritten, it is that of the very message, and it gets the
/// media address of the router and, for the callee, the port on its side of the relay and the key
/// that the server announces to it; for the caller, those on its own side. There is no key where
/// the server has none. A response to be rewritten keeps the channel and the INVITE of the caller,
/// and the extension of the callee.
pub proof fn law_rewrite_names_the_relay(
    before: RouterView,
    invite: call::InviteView,
    caller_writer: call::WriterId,
    stage: call::InviteStageView,
    registrar: RegistrarView,
    now: u64,
    response: call::CalleeResponseView,
    response_stage: call::ResponseStageView,
)
    ensures
        before.invite_step(
            invite,
            caller_writer,
            stage,
            registrar,
            now,
        ).1.action matches call::InviteActionView::RewriteSdp { plan, rewrite } ==> {
            &&& invite.body == Some(rewrite.body)
            &&& rewrite.media_addr == before.media_addr
            &&& rewrite.port == plan.session.callee_port
            &&& match plan.keys {
                Some(keys) => rewrite.key == Some(media::inline_key(keys.1)),
                None => rewrite.key is None,
            }
        },
        before.response_step(
            response,
            response_stage,
        ).1 matches call::ResponseActionView::RewriteSdp { forwarding, rewrite } ==> {
            let info = before.calls[response.call_id->0];
            &&& response_stage is Received
            &&& response.call_id is Some && before.calls.dom().contains(response.call_id->0)
            &&& response.body == Some(rewrite.body)
            &&& rewrite.media_addr == before.media_addr
            &&& rewrite.port == info.caller_relay_port
            &&& match info.caller_local_crypto {
                Some(sdes) => rewrite.key == Some(media::inline_key(sdes)),
                None => rewrite.key is None,
            }
            &&& forwarding.caller_writer == info.caller_writer
            &&& forwarding.original_invite == info.original_invite
            &&& forwarding.callee_ext == info.callee_ext
        },
{
}

/// The call that stands behind an INVITE that has gone out: its parties, channels, ports and keys
/// are those of the INVITE and of what was decided for it.
pub proof fn law_call_of_a_forwarded_invite(
    before: RouterView,
    invite: call::InviteView,
    caller_writer: call::WriterId,
    plan: call::PlanView,
    sdp: Seq<char>,
    registrar: RegistrarView,
    now: u64,
)
    ensures
        ({
            let id = match invite.call_id {
                Some(call_id) => call_id,
                None => Seq::empty(),
            };
            let (after, step) = before.invite_step(
                invite,
                caller_writer,
                call::InviteStageView::Described { plan, sdp },
                registrar,
                now,
            );
            let info = after.calls[id];
            &&& !step.release
            &&& after.calls == before.calls.insert(id, info)
            &&& after == (RouterView { calls: after.calls, ..before })
            &&& info.call_id == id
            &&& info.caller_ext == (match invite.from {
                Some(Some(extension)) => extension,
                _ => Seq::empty(),
            })
            &&& info.callee_ext == (match invite.request_uri {
                Some(Some(extension)) => extension,
                _ => Seq::empty(),
            })
            &&& info.caller_tag == (match invite.from_tag {
                Some(tag) => tag,
                None => Seq::empty(),
            })
            &&& info.callee_tag is None
            &&& info.state == call::CallState::Trying
            &&& info.original_invite == invite.text
            &&& info.caller_writer == caller_writer
            &&& info.callee_writer == Some(plan.callee_writer)
            &&& info.caller_remote_crypto == invite.body_crypto
            &&& info.callee_remote_crypto is None
            &&& match plan.keys {
                Some(keys) => info.caller_local_crypto == Some(keys.0) && info.callee_local_crypto
                    == Some(keys.1),
                None => info.caller_local_crypto is None && info.callee_local_crypto is None,
            }
            &&& info.caller_relay_port == plan.session.caller_port
            &&& info.callee_relay_port == plan.session.callee_port
            &&& !info.relay_started
        }),
{
}

/// The same call comes of an INVITE without a session description, for which there is nothing to
/// rewrite: with the keys where there are any, and without where there are none.
pub proof fn law_call_of_an_invite_without_body(
    before: RouterView,
    invite: call::InviteView,
    caller_writer: call::WriterId,
    callee_writer: call::WriterId,
    session: call::RelaySession,
    keys: (Seq<char>, Seq<char>),
    sdp: Seq<char>,
    registrar: RegistrarView,
    now: u64,
)
    requires
        invite.body is None,
    ensures
        invite.body_crypto is None ==> before.invite_step(
            invite,
            caller_writer,
            call::InviteStageView::Allocated { callee_writer, granted: Some(session) },
            registrar,
            now,
        ).0 == before.invite_step(
            invite,
            caller_writer,
            call::InviteStageView::Described {
                plan: call::PlanView { callee_writer, session, keys: None },
                sdp,
            },
            registrar,
            now,
        ).0,
        before.invite_step(
            invite,
            caller_writer,
            call::InviteStageView::Keyed { callee_writer, session, keys },
            registrar,
            now,
        ).0 == before.invite_step(
            invite,
            caller_writer,
            call::InviteStageView::Described {
                plan: call::PlanView { callee_writer, session, keys: Some(keys) },
                sdp,
            },
            registrar,
            now,
        ).0,
{
}

/// The URI under which a request reaches an extension: the contact of its registration while that
/// lasts, and otherwise `sips:`, the extension, `@`, the domain and `;transport=tls`.
pub open spec fn reached_at(
    extension: Seq<char>,
    domain: Seq<char>,
    registrar: RegistrarView,
    now: u64,
) -> Seq<char> {
    if registrar.registrations.dom().contains(extension) && now
        < registrar.registrations[extension].expires_at {
        registrar.registrations[extension].contact
    } else {
        "sips:"@ + extension + "@"@ + domain + ";transport=tls"@
    }
}

/// Whatever request the router sends on to an extension, its bytes are those of the request with
/// the URI under which the extension is reached.
pub proof fn law_request_is_addressed_to_its_extension(
    router: RouterView,
    request: Seq<char>,
    extension: Seq<char>,
    registrar: RegistrarView,
    now: u64,
)
    ensures
        ({
            let online = registrar.registrations.dom().contains(extension) && now
                < registrar.registrations[extension].expires_at;
            let uri = forward::target_uri(registrar, extension, router.domain, now);
            &&& online ==> uri == registrar.registrations[extension].contact
            &&& !online ==> uri == "sips:"@ + extension + "@"@ + router.domain + ";transport=tls"@
            &&& reached_at(extension, router.domain, registrar, now) == uri
            &&& router.addressed(request, extension, registrar, now) == vstd::utf8::encode_utf8(
                forward::with_request_uri(request, uri),
            )
        }),
        forward::server_contact(extension, router.domain) == "sips:"@ + extension + "@"@
            + router.domain + ";transport=tls"@,
{
}

/// An INVITE goes out on the channel that was decided on, whatever keys there are. Its bytes are
/// those of the INVITE of the caller with the rewritten session description, where it has one, and
/// with the URI under which the callee is reached.
pub proof fn law_invite_goes_out_rewritten(
    before: RouterView,
    invite: call::InviteView,
    caller_writer: call::WriterId,
    plan: call::PlanView,
    sdp: Seq<char>,
    callee_writer: call::WriterId,
    session: call::RelaySession,
    keys: (Seq<char>, Seq<char>),
    registrar: RegistrarView,
    now: u64,
)
    ensures
        ({
            let callee = match invite.request_uri {
                Some(Some(extension)) => extension,
                _ => Seq::empty(),
            };
            let uri = reached_at(callee, before.domain, registrar, now);
            &&& before.invite_step(
                invite,
                caller_writer,
                call::InviteStageView::Described { plan, sdp },
                registrar,
                now,
            ).1.action matches call::InviteActionView::Forward { outgoing }
            &&& outgoing.to == plan.callee_writer
            &&& outgoing.message == vstd::utf8::encode_utf8(
                forward::with_request_uri(forward::with_sdp(invite.text, sdp), uri),
            )
        }),
        invite.body is None ==> {
            let callee = match invite.request_uri {
                Some(Some(extension)) => extension,
                _ => Seq::empty(),
            };
            let sent = vstd::utf8::encode_utf8(
                forward::with_request_uri(
                    invite.text,
                    reached_at(callee, before.domain, registrar, now),
                ),
            );
            &&& before.invite_step(
                invite,
                caller_writer,
                call::InviteStageView::Keyed { callee_writer, session, keys },
                registrar,
                now,
            ).1.action matches call::InviteActionView::Forward { outgoing } && outgoing.message
                == sent && outgoing.to == callee_writer
            &&& invite.body_crypto is None ==> (before.invite_step(
                invite,
                caller_writer,
                call::InviteStageView::Allocated { callee_writer, granted: Some(session) },
                registrar,
                now,
            ).1.action matches call::InviteActionView::Forward { outgoing } && outgoing.message
                == sent && outgoing.to == callee_writer)
        },
{
}

/// What the callee reads from the INVITE that it gets. What follows the first blank line is the
/// rewritten session description, and the length is that of it in bytes, whatever keys there are.
/// The request URI is the one under which the callee is reached; the method, the version and all
/// other headers are those of the INVITE of the caller. The INVITE and the description have no
/// bare line feed, and the URI holds no white space.
pub proof fn law_callee_reads_the_rewritten_invite(
    before: RouterView,
    invite: call::InviteView,
    caller_writer: call::WriterId,
    plan: call::PlanView,
    sdp: Seq<char>,
    registrar: RegistrarView,
    now: u64,
)
    requires
        lines::no_bare_line_feed(invite.text),
        lines::no_bare_line_feed(sdp),
        requests::is_spaceless(
            reached_at(
                match invite.request_uri {
                    Some(Some(extension)) => extension,
                    _ => Seq::empty(),
                },
                before.domain,
                registrar,
                now,
            ),
        ),
        ({
            let given = text::lines(text::before(invite.text, "\r\n\r\n"@));
            &&& given.len() > 0
            &&& text::words(given[0]).len() == 3
            &&& !"SIP/2.0"@.is_prefix_of(text::words(given[0])[0])
            &&& !requests::is_length_line(given[0])
        }),
    ensures
        ({
            let callee = match invite.request_uri {
                Some(Some(extension)) => extension,
                _ => Seq::empty(),
            };
            let uri = reached_at(callee, before.domain, registrar, now);
            let given = text::lines(text::before(invite.text, "\r\n\r\n"@));
            let words = text::words(given[0]);
            let length = "Content-Length: "@ + number::decimal(
                vstd::utf8::encode_utf8(sdp).len(),
            );
            &&& before.invite_step(
                invite,
                caller_writer,
                call::InviteStageView::Described { plan, sdp },
                registrar,
                now,
            ).1.action matches call::InviteActionView::Forward { outgoing }
            &&& outgoing.to == plan.callee_writer
            &&& {
                let sent = vstd::utf8::decode_utf8(outgoing.message);
                let head = text::before(sent, "\r\n\r\n"@);
                let headers = text::lines(head);
                &&& sent == head + "\r\n\r\n"@ + sdp
                &&& given.len() <= headers.len()
                &&& headers[0] == words[0] + " "@ + uri + " "@ + words[2]
                &&& forall|i: int|
                    0 < i < given.len() && !requests::is_length_line(#[trigger] given[i])
                        ==> headers[i] == given[i]
                &&& headers.contains(length)
                &&& forall|i: int|
                    0 < i < headers.len() && requests::is_length_line(#[trigger] headers[i])
                        ==> headers[i] == length
            }
        }),
{
    let callee = match invite.request_uri {
        Some(Some(extension)) => extension,
        _ => Seq::empty(),
    };
    let uri = reached_at(callee, before.domain, registrar, now);
    requests::law_addressed_request_has_its_session_description(invite.text, sdp, uri);
    vstd::utf8::encode_utf8_decode_utf8(
        forward::with_request_uri(forward::with_sdp(invite.text, sdp), uri),
    );
}

/// An INVITE that could be handed to the callee is answered 100, and its call stays; one that
/// could not is answered 500, its call is given up, and so is the relay of the call.
pub proof fn law_invite_is_answered(
    before: RouterView,
    invite: call::InviteView,
    caller_writer: call::WriterId,
    registrar: RegistrarView,
    now: u64,
)
    ensures
        ({
            let (after, step) = before.invite_step(
                invite,
                caller_writer,
                call::InviteStageView::Delivered { delivered: true },
                registrar,
                now,
            );
            &&& after == before
            &&& !step.release
            &&& step.action matches call::InviteActionView::Reply { response }
            &&& response.status == 100 && response.reason == "Trying"@ && response.headers.len()
                == 0
        }),
        ({
            let id = match invite.call_id {
                Some(call_id) => call_id,
                None => Seq::empty(),
            };
            let (after, step) = before.invite_step(
                invite,
                caller_writer,
                call::InviteStageView::Delivered { delivered: false },
                registrar,
                now,
            );
            &&& after.calls == before.calls.remove(id)
            &&& after == (RouterView { calls: after.calls, ..before })
            &&& step.release == before.calls.dom().contains(id)
            &&& step.action matches call::InviteActionView::Reply { response }
            &&& response.status == 500 && response.reason == "Internal Server Error"@
                && response.headers.len() == 0
        }),
{
}

// ---------------------------------------------------------------------------
// Responses of the callee
// ---------------------------------------------------------------------------

/// What a response of the callee does to its call. 180 and 183 make it ring, 200 establishes it,
/// 400 and above end it; all else leaves it as it is. The first of 180, 183 and 200 that names a
/// tag of the callee gives the call that tag. A 200 gives it the keys of the callee, where the
/// server has announced keys to the callee and knows none of it yet.
pub proof fn law_response_updates_the_call(
    before: RouterView,
    response: call::CalleeResponseView,
    call_id: Seq<char>,
    status: u16,
)
    requires
        response.call_id == Some(call_id),
        response.status == Some(status),
        before.calls.dom().contains(call_id),
    ensures
        ({
            let (after, _) = before.response_step(response, call::ResponseStageView::Received);
            let known = before.calls[call_id];
            let info = after.calls[call_id];
            &&& after.calls == before.calls.insert(call_id, info)
            &&& after == (RouterView { calls: after.calls, ..before })
            &&& info.state == (if status == 180 || status == 183 {
                call::CallState::Ringing
            } else if status == 200 {
                call::CallState::Established
            } else if status >= 400 {
                call::CallState::Terminated
            } else {
                known.state
            })
            &&& info.callee_tag == (if known.callee_tag is None && (status == 180 || status == 183
                || status == 200) {
                response.to_tag
            } else {
                known.callee_tag
            })
            &&& info.callee_remote_crypto == (if status == 200 && known.callee_local_crypto is Some
                && known.callee_remote_crypto is None {
                response.body_crypto
            } else {
                known.callee_remote_crypto
            })
            &&& info == (call::CallView {
                state: info.state,
                callee_tag: info.callee_tag,
                callee_remote_crypto: info.callee_remote_crypto,
                ..known
            })
        }),
{
}

/// A response goes to the caller of its call: with the rewritten session description where the
/// callee has sent one, and without a body otherwise. It is built from the INVITE that the caller
/// sent and from the response, has the status of the response and the reason that goes with it,
/// and names the server as the contact, under the extension of the callee.
pub proof fn law_response_goes_to_the_caller(
    before: RouterView,
    response: call::CalleeResponseView,
    call_id: Seq<char>,
    status: u16,
    forwarding: call::ForwardingView,
    sdp: Seq<char>,
)
    requires
        response.call_id == Some(call_id),
        response.status == Some(status),
    ensures
        ({
            let reason = if status == 100 {
                "Trying"@
            } else if status == 180 {
                "Ringing"@
            } else if status == 183 {
                "Session Progress"@
            } else if status == 200 {
                "OK"@
            } else {
                "Unknown"@
            };
            let (after, action) = before.response_step(
                response,
                call::ResponseStageView::Described { forwarding, sdp },
            );
            &&& after == before
            &&& action matches call::ResponseActionView::Forward { outgoing }
            &&& outgoing.to == forwarding.caller_writer
            &&& outgoing.message == vstd::utf8::encode_utf8(
                forward::forwarded_response(
                    forwarding.original_invite,
                    response.text,
                    status,
                    reason,
                    "sips:"@ + forwarding.callee_ext + "@"@ + before.domain + ";transport=tls"@,
                    sdp,
                ),
            )
        }),
        before.calls.dom().contains(call_id) && response.body is Some ==> before.response_step(
            response,
            call::ResponseStageView::Received,
        ).1 is RewriteSdp,
        before.calls.dom().contains(call_id) && response.body is None ==> {
            let reason = if status == 100 {
                "Trying"@
            } else if status == 180 {
                "Ringing"@
            } else if status == 183 {
                "Session Progress"@
            } else if status == 200 {
                "OK"@
            } else if status == 486 {
                "Busy Here"@
            } else if status == 487 {
                "Request Terminated"@
            } else if status == 603 {
                "Decline"@
            } else {
                "Unknown"@
            };
            let info = before.calls[call_id];
            &&& before.response_step(
                response,
                call::ResponseStageView::Received,
            ).1 matches call::ResponseActionView::Forward { outgoing }
            &&& outgoing.to == info.caller_writer
            &&& outgoing.message == vstd::utf8::encode_utf8(
                forward::forwarded_response(
                    info.original_invite,
                    response.text,
                    status,
                    reason,
                    "sips:"@ + info.callee_ext + "@"@ + before.domain + ";transport=tls"@,
                    Seq::empty(),
                ),
            )
        },
{
    reveal_strlit("");
    assert(""@ =~= Seq::<char>::empty());
}

/// What the caller reads from a response with a session description. It comes on the channel of
/// the caller. Its first line is the status of the callee, with a reason; Via, From, Call-ID and
/// CSeq are those of the INVITE that the caller sent, To is that of the callee. Exactly a success
/// names the server as the contact. What follows the first blank line is the rewritten session
/// description, and the length is that of it in bytes. Extension and domain hold no line feed.
pub proof fn law_caller_reads_the_rewritten_response(
    before: RouterView,
    response: call::CalleeResponseView,
    call_id: Seq<char>,
    status: u16,
    forwarding: call::ForwardingView,
    sdp: Seq<char>,
)
    requires
        response.call_id == Some(call_id),
        response.status == Some(status),
        !forwarding.callee_ext.contains('\n'),
        !before.domain.contains('\n'),
    ensures
        ({
            let invite = forwarding.original_invite;
            let contact = "sips:"@ + forwarding.callee_ext + "@"@ + before.domain
                + ";transport=tls"@;
            let from = forward::headers_of(invite, "From"@, Some("f"@));
            let id = forward::headers_of(invite, "Call-ID"@, Some("i"@));
            let cseq = forward::headers_of(invite, "CSeq"@, None);
            let to = forward::headers_of(response.text, "To"@, Some("t"@));
            &&& before.response_step(
                response,
                call::ResponseStageView::Described { forwarding, sdp },
            ).1 matches call::ResponseActionView::Forward { outgoing }
            &&& outgoing.to == forwarding.caller_writer
            &&& {
                let sent = vstd::utf8::decode_utf8(outgoing.message);
                let head = text::before(sent, "\r\n\r\n"@);
                &&& ("SIP/2.0 "@ + number::decimal(status as nat) + " "@).is_prefix_of(
                    text::lines(sent)[0],
                )
                &&& sent == head + "\r\n\r\n"@ + sdp
                &&& forward::headers_of(sent, "Via"@, Some("v"@)) == forward::headers_of(
                    invite,
                    "Via"@,
                    Some("v"@),
                )
                &&& from.len() > 0 ==> forward::headers_of(sent, "From"@, Some("f"@)) == seq![
                    from[0],
                ]
                &&& id.len() > 0 ==> forward::headers_of(sent, "Call-ID"@, Some("i"@)) == seq![
                    id[0],
                ]
                &&& cseq.len() > 0 ==> forward::headers_of(sent, "CSeq"@, None) == seq![cseq[0]]
                &&& to.len() > 0 ==> forward::headers_of(sent, "To"@, Some("t"@)) == seq![to[0]]
                &&& forward::headers_of(sent, "Contact"@, None) == (if 200 <= status <= 299 {
                    seq!["Contact: <"@ + contact + ">"@]
                } else {
                    Seq::empty()
                })
                &&& forward::headers_of(sent, "Content-Length"@, Some("l"@)) == seq![
                    "Content-Length: "@ + number::decimal(vstd::utf8::encode_utf8(sdp).len()),
                ]
            }
        }),
{
    let reason = router::reason_with_body(status);
    let contact = forward::server_contact(forwarding.callee_ext, before.domain);
    let invite = forwarding.original_invite;
    reveal_strlit("Trying");
    reveal_strlit("Ringing");
    reveal_strlit("Session Progress");
    reveal_strlit("OK");
    reveal_strlit("Unknown");
    reveal_strlit("sips:");
    reveal_strlit("@");
    reveal_strlit(";transport=tls");
    assert(!reason.contains('\n'));
    lines::lemma_no_line_feed("sips:"@, forwarding.callee_ext);
    lines::lemma_no_line_feed("sips:"@ + forwarding.callee_ext, "@"@);
    lines::lemma_no_line_feed("sips:"@ + forwarding.callee_ext + "@"@, before.domain);
    lines::lemma_no_line_feed(
        "sips:"@ + forwarding.callee_ext + "@"@ + before.domain,
        ";transport=tls"@,
    );
    let sent = forward::forwarded_response(invite, response.text, status, reason, contact, sdp);
    vstd::utf8::encode_utf8_decode_utf8(sent);
    responses::law_caller_recognises_forwarded_response(
        invite,
        response.text,
        status,
        reason,
        contact,
        sdp,
    );
    responses::law_forwarded_response_is_read_line_by_line(
        invite,
        response.text,
        status,
        reason,
        contact,
        sdp,
    );
    let start = "SIP/2.0 "@ + number::decimal(status as nat) + " "@;
    assert(start =~= (start + reason).subrange(0, start.len() as int));
}

/// When a response has been handed to the caller: one of 400 and above takes the call out, and
/// gives back its relay. A 200 starts the relay of its call, unless it was started before or keys
/// of the callee are missing; then it counts as started. Any other changes nothing and starts
/// nothing. The relay stands at the media address, has the ports of the call, decrypts with what
/// each party has announced, and encrypts with what the server has announced to it.
pub proof fn law_relay_starts_with_the_answer(
    before: RouterView,
    response: call::CalleeResponseView,
    call_id: Seq<char>,
    status: u16,
)
    requires
        response.call_id == Some(call_id),
        response.status == Some(status),
    ensures
        ({
            let known = before.calls.dom().contains(call_id);
            let info = before.calls[call_id];
            let ready = known && !info.relay_started && (info.callee_local_crypto is None
                || info.callee_remote_crypto is Some);
            let (after, action) = before.response_step(
                response,
                call::ResponseStageView::Delivered,
            );
            &&& action matches call::ResponseActionView::Finish { release, relay }
            &&& after == (RouterView { calls: after.calls, ..before })
            &&& release == (status >= 400 && known)
            &&& status >= 400 ==> after.calls == before.calls.remove(call_id)
            &&& relay is Some == (status == 200 && ready)
            &&& status < 400 && !(status == 200 && ready) ==> after == before
            &&& relay matches Some(plan) ==> {
                &&& after.calls == before.calls.insert(
                    call_id,
                    call::CallView { relay_started: true, ..info },
                )
                &&& plan.call_id == call_id
                &&& plan.media_addr == before.media_addr
                &&& plan.caller_port == info.caller_relay_port
                &&& plan.callee_port == info.callee_relay_port
                &&& plan.caller_decrypt == info.caller_remote_crypto
                &&& plan.callee_decrypt == info.callee_remote_crypto
                &&& plan.caller_encrypt == info.caller_local_crypto
                &&& plan.callee_encrypt == info.callee_local_crypto
            }
        }),
{
}

/// A response without a Call-ID or a status, at any stage, and one for a call that does not
/// exist, is ignored.
pub proof fn law_stray_response_is_ignored(
    before: RouterView,
    response: call::CalleeResponseView,
    stage: call::ResponseStageView,
)
    ensures
        response.call_id is None || response.status is None ==> before.response_step(response, stage)
            == (before, call::ResponseActionView::Ignore),
        stage is Received && !before.calls.dom().contains(response.call_id->0)
            ==> before.response_step(response, stage) == (before, call::ResponseActionView::Ignore),
{
}

// ---------------------------------------------------------------------------
// ACK, BYE, CANCEL
// ---------------------------------------------------------------------------

/// An ACK goes to the callee of its call, on its channel, in whatever state the call is.
pub proof fn law_ack_goes_to_the_callee(
    before: RouterView,
    request: call::DialogView,
    registrar: RegistrarView,
    now: u64,
)
    requires
        before.in_order(),
    ensures
        ({
            let known = request.call_id is Some && before.calls.dom().contains(request.call_id->0);
            let info = before.calls[request.call_id->0];
            &&& !known ==> before.ack(request, registrar, now) is None
            &&& known ==> (before.ack(request, registrar, now) matches Some(outgoing)
                && info.callee_writer == Some(outgoing.to) && outgoing.message
                == vstd::utf8::encode_utf8(
                forward::with_request_uri(
                    request.text,
                    reached_at(info.callee_ext, before.domain, registrar, now),
                ),
            ))
        }),
{
    if request.call_id is Some && before.calls.dom().contains(request.call_id->0) {
        assert(before.has_call(request.call_id->0));
    }
}

/// A BYE goes to the party that did not send it: from the caller to the callee, and from anyone
/// else to the caller. When it has gone out, the call is taken out, its relay is given back where
/// there was a call, and the answer is 200. One for no call is answered 481, and changes nothing.
pub proof fn law_bye_goes_to_the_other_party(
    before: RouterView,
    request: call::DialogView,
    from_extension: Seq<char>,
    registrar: RegistrarView,
    now: u64,
)
    requires
        before.in_order(),
    ensures
        ({
            let known = request.call_id is Some && before.calls.dom().contains(request.call_id->0);
            let info = before.calls[request.call_id->0];
            let (after, action) = before.bye_step(
                request,
                from_extension,
                call::ByeStage::Received,
                registrar,
                now,
            );
            &&& after == before
            &&& !known ==> (action matches call::ByeActionView::Reply { release, response }
                && !release && response.status == 481 && response.reason
                == "Call/Transaction Does Not Exist"@ && response.headers.len() == 0)
            &&& known && from_extension == info.caller_ext ==> (
            action matches call::ByeActionView::Forward { outgoing } && info.callee_writer == Some(
                outgoing.to,
            ) && outgoing.message == vstd::utf8::encode_utf8(
                forward::with_request_uri(
                    request.text,
                    reached_at(info.callee_ext, before.domain, registrar, now),
                ),
            ))
            &&& known && from_extension != info.caller_ext ==> (
            action matches call::ByeActionView::Forward { outgoing } && info.caller_writer
                == outgoing.to && outgoing.message == vstd::utf8::encode_utf8(
                forward::with_request_uri(
                    request.text,
                    reached_at(info.caller_ext, before.domain, registrar, now),
                ),
            ))
        }),
        request.call_id matches Some(call_id) ==> {
            let (after, action) = before.bye_step(
                request,
                from_extension,
                call::ByeStage::Forwarded,
                registrar,
                now,
            );
            &&& after.calls == before.calls.remove(call_id)
            &&& after == (RouterView { calls: after.calls, ..before })
            &&& action matches call::ByeActionView::Reply { release, response }
            &&& release == before.calls.dom().contains(call_id)
            &&& response.status == 200 && response.reason == "OK"@ && response.headers.len() == 0
        },
{
    if request.call_id is Some && before.calls.dom().contains(request.call_id->0) {
        assert(before.has_call(request.call_id->0));
    }
}

/// A CANCEL goes to the callee, and marks the call as over. Then the caller is told 487, on its
/// channel, in answer to the INVITE that was handed on; then the call is taken out, its relay is
/// given back where there was a call, and the answer is 200. One for no call is answered 481, and
/// changes nothing.
pub proof fn law_cancel_goes_to_the_callee(
    before: RouterView,
    request: call::DialogView,
    original_invite: Seq<char>,
    registrar: RegistrarView,
    now: u64,
)
    requires
        before.in_order(),
    ensures
        ({
            let known = request.call_id is Some && before.calls.dom().contains(request.call_id->0);
            let info = before.calls[request.call_id->0];
            let (after, action) = before.cancel_step(
                request,
                call::CancelStageView::Received,
                registrar,
                now,
            );
            &&& !known ==> after == before && (action matches call::CancelActionView::Reply {
                release,
                response,
            } && !release && response.status == 481 && response.reason
                == "Call/Transaction Does Not Exist"@ && response.headers.len() == 0)
            &&& known ==> after.calls == before.calls.insert(
                request.call_id->0,
                call::CallView { state: call::CallState::Terminated, ..info },
            ) && after == (RouterView { calls: after.calls, ..before }) && (
            action matches call::CancelActionView::Forward { outgoing, original_invite: kept }
                && info.callee_writer == Some(outgoing.to) && kept == info.original_invite
                && outgoing.message == vstd::utf8::encode_utf8(
                forward::with_request_uri(
                    request.text,
                    reached_at(info.callee_ext, before.domain, registrar, now),
                ),
            ))
        }),
        request.call_id matches Some(call_id) ==> before.calls.dom().contains(call_id) ==> {
            let (after, action) = before.cancel_step(
                request,
                call::CancelStageView::Forwarded { original_invite },
                registrar,
                now,
            );
            &&& after == before
            &&& action matches call::CancelActionView::Notify { to, request: answered, response }
            &&& to == before.calls[call_id].caller_writer
            &&& answered == original_invite
            &&& response.status == 487 && response.reason == "Request Terminated"@
                && response.headers.len() == 0
        },
        request.call_id matches Some(call_id) ==> !before.calls.dom().contains(call_id) ==> {
            let (after, action) = before.cancel_step(
                request,
                call::CancelStageView::Forwarded { original_invite },
                registrar,
                now,
            );
            &&& after == before
            &&& action matches call::CancelActionView::Reply { release, response }
            &&& !release
            &&& response.status == 200 && response.reason == "OK"@ && response.headers.len() == 0
        },
        request.call_id matches Some(call_id) ==> {
            let (after, action) = before.cancel_step(
                request,
                call::CancelStageView::Notified,
                registrar,
                now,
            );
            &&& after.calls == before.calls.remove(call_id)
            &&& after == (RouterView { calls: after.calls, ..before })
            &&& action matches call::CancelActionView::Reply { release, response }
            &&& release == before.calls.dom().contains(call_id)
            &&& response.status == 200 && response.reason == "OK"@ && response.headers.len() == 0
        },
{
    if request.call_id is Some && before.calls.dom().contains(request.call_id->0) {
        assert(before.has_call(request.call_id->0));
    }
    if request.call_id is Some && !before.calls.dom().contains(request.call_id->0) {
        assert(before.calls.remove(request.call_id->0) =~= before.calls);
    }
}

/// A BYE or a CANCEL without a Call-ID is answered 481 at every stage, and changes nothing.
pub proof fn law_no_call_id_no_call(
    before: RouterView,
    request: call::DialogView,
    from_extension: Seq<char>,
    bye_stage: call::ByeStage,
    cancel_stage: call::CancelStageView,
    registrar: RegistrarView,
    now: u64,
)
    requires
        request.call_id is None,
    ensures
        ({
            let (after, action) = before.bye_step(
                request,
                from_extension,
                bye_stage,
                registrar,
                now,
            );
            &&& after == before
            &&& action matches call::ByeActionView::Reply { release, response }
            &&& !release && response.status == 481 && response.reason
                == "Call/Transaction Does Not Exist"@ && response.headers.len() == 0
        }),
        ({
            let (after, action) = before.cancel_step(request, cancel_stage, registrar, now);
            &&& after == before
            &&& action matches call::CancelActionView::Reply { release, response }
            &&& !release && response.status == 481 && response.reason
                == "Call/Transaction Does Not Exist"@ && response.headers.len() == 0
        }),
{
}

/// The calls are in order exactly where each is filed under its own Call-ID and has a channel to
/// its callee. A request names a call exactly where there is one with its Call-ID.
pub proof fn law_calls_are_filed(state: RouterView, request: call::DialogView)
    ensures
        state.in_order() <==> forall|call_id: Seq<char>| #[trigger]
            state.calls.dom().contains(call_id) ==> state.calls[call_id].call_id == call_id
                && state.calls[call_id].callee_writer is Some,
        request.call_id matches Some(call_id) ==> state.names_call(request)
            == state.calls.dom().contains(call_id),
        request.call_id is None ==> !state.names_call(request),
{
    if state.in_order() {
        assert forall|call_id: Seq<char>| #[trigger]
            state.calls.dom().contains(call_id) implies state.calls[call_id].call_id == call_id
            && state.calls[call_id].callee_writer is Some by {
            assert(state.has_call(call_id));
        }
    }
}

/// The other party of a call is the callee for the caller, and the caller for everyone else.
pub proof fn law_the_other_party(info: call::CallView, extension: Seq<char>)
    ensures
        extension == info.caller_ext ==> info.peer(extension) == info.callee_ext,
        extension != info.caller_ext ==> info.peer(extension) == info.caller_ext,
{
}

} // verus!
