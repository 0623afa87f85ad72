//! Calls: what the steps of their handling keep.

use crate::sip::call;
use crate::sip::media;
use crate::sip::message;
use crate::sip::registrar::RegistrarView;
use crate::sip::router::{self, RouterView};
use vstd::prelude::*;

verus! {

/// Whether a call was given up.
pub open spec fn dropped(before: RouterView, after: RouterView, call_id: Seq<char>) -> bool {
    before.has_call(call_id) && !after.has_call(call_id)
}

/// Whether nothing but the call `call_id` has changed.
pub open spec fn only_call_changes(
    before: RouterView,
    after: RouterView,
    call_id: Seq<char>,
) -> bool {
    &&& after.writers == before.writers
    &&& after.domain == before.domain
    &&& after.media_addr == before.media_addr
    &&& forall|other: Seq<char>|
        other != call_id ==> (#[trigger] after.has_call(other) == before.has_call(other)) && (
        before.has_call(other) ==> after.calls[other] == before.calls[other])
}

/// Every step for an INVITE leaves other calls, the channels and the settings alone, and gives
/// the media relay back exactly when it gives up the call.
pub proof fn law_invite_releases_what_it_drops(
    before: RouterView,
    invite: call::InviteView,
    caller_writer: call::WriterId,
    stage: call::InviteStageView,
    registrar: RegistrarView,
    now: u64,
)
    ensures
        ({
            let (after, step) = before.invite_step(invite, caller_writer, stage, registrar, now);
            &&& only_call_changes(before, after, invite.id())
            &&& step.release == dropped(before, after, invite.id())
        }),
{
}

/// Every step for a response of the callee leaves other calls, the channels and the settings
/// alone, and gives the media relay back exactly when it gives up the call.
pub proof fn law_response_releases_what_it_drops(
    before: RouterView,
    response: call::CalleeResponseView,
    stage: call::ResponseStageView,
    call_id: Seq<char>,
)
    requires
        response.call_id == Some(call_id),
    ensures
        ({
            let (after, action) = before.response_step(response, stage);
            &&& only_call_changes(before, after, call_id)
            &&& (action matches call::ResponseActionView::Finish { release, .. } && release)
                == dropped(before, after, call_id)
        }),
{
}

/// Every step for a BYE leaves other calls, the channels and the settings alone, and gives the
/// media relay back exactly when it gives up the call.
pub proof fn law_bye_releases_what_it_drops(
    before: RouterView,
    request: call::DialogView,
    from_extension: Seq<char>,
    stage: call::ByeStage,
    registrar: RegistrarView,
    now: u64,
    call_id: Seq<char>,
)
    requires
        request.call_id == Some(call_id),
    ensures
        ({
            let (after, action) = before.bye_step(request, from_extension, stage, registrar, now);
            &&& only_call_changes(before, after, call_id)
            &&& (action matches call::ByeActionView::Reply { release, .. } && release) == dropped(
                before,
                after,
                call_id,
            )
        }),
{
}

/// Every step for a CANCEL leaves other calls, the channels and the settings alone, and gives
/// the media relay back exactly when it gives up the call.
pub proof fn law_cancel_releases_what_it_drops(
    before: RouterView,
    request: call::DialogView,
    stage: call::CancelStageView,
    registrar: RegistrarView,
    now: u64,
    call_id: Seq<char>,
)
    requires
        request.call_id == Some(call_id),
    ensures
        ({
            let (after, action) = before.cancel_step(request, stage, registrar, now);
            &&& only_call_changes(before, after, call_id)
            &&& (action matches call::CancelActionView::Reply { release, .. } && release)
                == dropped(before, after, call_id)
        }),
{
}

/// A message without a Call-ID changes nothing: a BYE and a CANCEL are answered 481, an ACK and
/// a response go nowhere.
pub proof fn law_nothing_without_call_id(
    before: RouterView,
    request: call::DialogView,
    response: call::CalleeResponseView,
    from_extension: Seq<char>,
    bye_stage: call::ByeStage,
    cancel_stage: call::CancelStageView,
    response_stage: call::ResponseStageView,
    registrar: RegistrarView,
    now: u64,
)
    requires
        request.call_id is None,
        response.call_id is None,
    ensures
        before.bye_step(request, from_extension, bye_stage, registrar, now) == (
            before,
            call::ByeActionView::Reply { release: false, response: router::no_such_call() },
        ),
        before.cancel_step(request, cancel_stage, registrar, now) == (
            before,
            call::CancelActionView::Reply { release: false, response: router::no_such_call() },
        ),
        before.ack(request, registrar, now) is None,
        before.response_step(response, response_stage) == (
            before,
            call::ResponseActionView::Ignore,
        ),
{
}

/// A message for a call that does not exist changes nothing: a BYE and a CANCEL are answered
/// 481, an ACK and a response go nowhere.
pub proof fn law_unknown_call(
    before: RouterView,
    request: call::DialogView,
    response: call::CalleeResponseView,
    from_extension: Seq<char>,
    registrar: RegistrarView,
    now: u64,
    call_id: Seq<char>,
)
    requires
        !before.has_call(call_id),
        request.call_id == Some(call_id),
        response.call_id == Some(call_id),
    ensures
        before.bye_step(request, from_extension, call::ByeStage::Received, registrar, now) == (
            before,
            call::ByeActionView::Reply { release: false, response: router::no_such_call() },
        ),
        before.cancel_step(request, call::CancelStageView::Received, registrar, now) == (
            before,
            call::CancelActionView::Reply { release: false, response: router::no_such_call() },
        ),
        before.ack(request, registrar, now) is None,
        before.response_step(response, call::ResponseStageView::Received) == (
            before,
            call::ResponseActionView::Ignore,
        ),
{
}

/// An INVITE for a callee that is offline is answered 404, one for a callee without a channel
/// 480, one without a media relay 503, one that cannot be handed on 500. None of these leaves a
/// call behind.
pub proof fn law_refused_invite_leaves_no_call(
    before: RouterView,
    invite: call::InviteView,
    caller_writer: call::WriterId,
    callee_writer: call::WriterId,
    registrar: RegistrarView,
    now: u64,
)
    ensures
        ({
            let (after, step) = before.invite_step(
                invite,
                caller_writer,
                call::InviteStageView::Received,
                registrar,
                now,
            );
            let offline = registrar.current(invite.callee(), now) is None;
            let unreachable = !before.writers.dom().contains(invite.callee());
            &&& !after.has_call(invite.id())
            &&& offline ==> step.action == (call::InviteActionView::Reply {
                response: message::plain(404, "Not Found"@),
            })
            &&& !offline && unreachable ==> step.action == (call::InviteActionView::Reply {
                response: message::plain(480, "Temporarily Unavailable"@),
            })
            &&& !offline && !unreachable ==> step.action == (
            call::InviteActionView::AllocateSession {
                callee_writer: before.writers[invite.callee()],
            })
        }),
        ({
            let (after, step) = before.invite_step(
                invite,
                caller_writer,
                call::InviteStageView::Allocated { callee_writer, granted: None },
                registrar,
                now,
            );
            &&& after == before
            &&& step.action == (call::InviteActionView::Reply {
                response: message::plain(503, "Service Unavailable"@),
            })
        }),
        ({
            let (after, step) = before.invite_step(
                invite,
                caller_writer,
                call::InviteStageView::Delivered { delivered: false },
                registrar,
                now,
            );
            &&& !after.has_call(invite.id())
            &&& step.action == (call::InviteActionView::Reply {
                response: message::plain(500, "Internal Server Error"@),
            })
        }),
{
}

/// An INVITE is handed to the callee exactly when its call begins. The call then stands between
/// the two parties that the INVITE names, is being set up, and has no relay under way.
pub proof fn law_forwarded_invite_begins_a_call(
    before: RouterView,
    invite: call::InviteView,
    caller_writer: call::WriterId,
    stage: call::InviteStageView,
    registrar: RegistrarView,
    now: u64,
)
    ensures
        ({
            let (after, step) = before.invite_step(invite, caller_writer, stage, registrar, now);
            step.action matches call::InviteActionView::Forward { outgoing } ==> {
                let info = after.calls[invite.id()];
                &&& after.has_call(invite.id())
                &&& info.call_id == invite.id()
                &&& info.caller_ext == invite.caller()
                &&& info.callee_ext == invite.callee()
                &&& info.caller_writer == caller_writer
                &&& info.callee_writer == Some(outgoing.to)
                &&& info.original_invite == invite.text
                &&& info.state == call::CallState::Trying
                &&& info.callee_tag is None
                &&& !info.relay_started
            }
        }),
        ({
            let (after, step) = before.invite_step(invite, caller_writer, stage, registrar, now);
            !(step.action is Forward) && after.has_call(invite.id()) ==> after == before
        }),
{
}

/// What the state of a call becomes when the callee responds: ringing after 180 and 183,
/// established after 200, over after 400 and above, and what it was after all else.
pub open spec fn state_after(state: call::CallState, status: u16) -> call::CallState {
    if status == 180 || status == 183 {
        call::CallState::Ringing
    } else if status == 200 {
        call::CallState::Established
    } else if status >= 400 {
        call::CallState::Terminated
    } else {
        state
    }
}

/// A response of the callee moves its call to the state that the status calls for. The tag of the
/// callee, once known, stays; so do the parties, their channels, the ports and the keys of the
/// server.
pub proof fn law_response_moves_the_call(
    before: RouterView,
    response: call::CalleeResponseView,
    call_id: Seq<char>,
    status: u16,
)
    requires
        response.call_id == Some(call_id),
        response.status == Some(status),
        before.has_call(call_id),
    ensures
        ({
            let (after, _) = before.response_step(response, call::ResponseStageView::Received);
            let old_info = before.calls[call_id];
            let info = after.calls[call_id];
            &&& after.has_call(call_id)
            &&& info.state == state_after(old_info.state, status)
            &&& old_info.callee_tag is Some ==> info.callee_tag == old_info.callee_tag
            &&& old_info.callee_remote_crypto is Some ==> info.callee_remote_crypto
                == old_info.callee_remote_crypto
            &&& info == (call::CallView {
                state: info.state,
                callee_tag: info.callee_tag,
                callee_remote_crypto: info.callee_remote_crypto,
                ..old_info
            })
        }),
{
}

/// A call that the callee refuses, with 400 or above, is over once the caller has been told, and
/// its media relay is given back.
pub proof fn law_refused_call_ends(
    before: RouterView,
    response: call::CalleeResponseView,
    call_id: Seq<char>,
    status: u16,
)
    requires
        response.call_id == Some(call_id),
        response.status == Some(status),
        status >= 400,
        before.has_call(call_id),
    ensures
        before.response_step(response, call::ResponseStageView::Delivered) == (
            before.without_call(call_id),
            call::ResponseActionView::Finish { release: true, relay: None },
        ),
{
}

/// The media relay of a call is started only after a 200, only where no keys are missing, and at
/// most once: then it counts as started, and it can never start again while the call lasts.
pub proof fn law_relay_starts_once(
    before: RouterView,
    response: call::CalleeResponseView,
    stage: call::ResponseStageView,
    call_id: Seq<char>,
)
    requires
        response.call_id == Some(call_id),
    ensures
        ({
            let (after, action) = before.response_step(response, stage);
            &&& action matches call::ResponseActionView::Finish { relay: Some(relay), .. } ==> {
                &&& response.status == Some(200u16)
                &&& before.has_call(call_id)
                &&& !before.calls[call_id].relay_started
                &&& !before.calls[call_id].lacks_keys()
                &&& after.has_call(call_id)
                &&& after.calls[call_id].relay_started
                &&& relay == before.calls[call_id].relay(call_id, before.media_addr)
            }
            &&& before.has_call(call_id) && before.calls[call_id].relay_started ==> !(action matches
            call::ResponseActionView::Finish { relay: Some(_), .. }) && (after.has_call(call_id)
                ==> after.calls[call_id].relay_started)
        }),
{
}

/// The keys that a party is told are those with which the relay encrypts what it gets. The
/// callee hears of them in the INVITE, the caller in the responses.
pub proof fn law_announced_keys_are_used(
    before: RouterView,
    invite: call::InviteView,
    caller_writer: call::WriterId,
    plan: call::PlanView,
    registrar: RegistrarView,
    now: u64,
    response: call::CalleeResponseView,
    call_id: Seq<char>,
    status: u16,
    media_addr: Seq<char>,
)
    requires
        before.has_call(call_id),
    ensures
        before.invite_planned(
            invite,
            caller_writer,
            plan,
            registrar,
            now,
        ).1.action matches call::InviteActionView::RewriteSdp { rewrite, .. } ==> {
            let relay = call::CallView::begun(invite, caller_writer, plan).relay(
                invite.id(),
                media_addr,
            );
            &&& rewrite.port == relay.callee_port
            &&& match relay.callee_encrypt {
                Some(sdes) => rewrite.key == Some(media::inline_key(sdes)),
                None => rewrite.key is None,
            }
        },
        before.response_received(
            response,
            call_id,
            status,
        ).1 matches call::ResponseActionView::RewriteSdp { rewrite, .. } ==> {
            let relay = before.calls[call_id].relay(call_id, media_addr);
            &&& rewrite.port == relay.caller_port
            &&& match relay.caller_encrypt {
                Some(sdes) => rewrite.key == Some(media::inline_key(sdes)),
                None => rewrite.key is None,
            }
        },
{
}

/// Whether what has been decided so far for an INVITE has keys of the server exactly where the
/// caller offers SRTP.
pub open spec fn keys_fit(invite: call::InviteView, stage: call::InviteStageView) -> bool {
    match stage {
        call::InviteStageView::Keyed { .. } => invite.body_crypto is Some,
        call::InviteStageView::Described { plan, .. } => plan.keys is Some
            == invite.body_crypto is Some,
        _ => true,
    }
}

/// A caller that offers SRTP gets a call with keys of the server for both sides; any other
/// caller gets one without keys. What a step decides for the next one keeps to that.
pub proof fn law_srtp_on_both_sides_or_none(
    before: RouterView,
    invite: call::InviteView,
    caller_writer: call::WriterId,
    stage: call::InviteStageView,
    registrar: RegistrarView,
    now: u64,
    keys: (Seq<char>, Seq<char>),
    sdp: Seq<char>,
)
    requires
        keys_fit(invite, stage),
    ensures
        ({
            let (after, step) = before.invite_step(invite, caller_writer, stage, registrar, now);
            &&& step.action matches call::InviteActionView::GenerateKeys { callee_writer, session }
                ==> keys_fit(
                invite,
                call::InviteStageView::Keyed { callee_writer, session, keys },
            )
            &&& step.action matches call::InviteActionView::RewriteSdp { plan, .. } ==> keys_fit(
                invite,
                call::InviteStageView::Described { plan, sdp },
            )
            &&& step.action is Forward ==> {
                let info = after.calls[invite.id()];
                &&& info.caller_remote_crypto == invite.body_crypto
                &&& info.caller_local_crypto is Some == invite.body_crypto is Some
                &&& info.callee_local_crypto is Some == invite.body_crypto is Some
            }
        }),
{
}

/// A BYE from start to end. Without a Call-ID or an active call it is answered 481, and nothing is
/// sent or changed. Else exactly one message goes out, to the other party: the callee where the
/// caller hangs up, and the caller otherwise. Whether or not it could be delivered, the call is
/// then over, its media relay is given back, and the answer is 200; the same BYE again is answered
/// 481.
pub proof fn law_bye_ends_the_call(
    before: RouterView,
    request: call::DialogView,
    from_extension: Seq<char>,
    registrar: RegistrarView,
    now: u64,
    later: u64,
    again: u64,
)
    requires
        before.in_order(),
    ensures
        ({
            let refusal = call::ByeActionView::Reply {
                release: false,
                response: router::no_such_call(),
            };
            let (first, forward) = before.bye_step(
                request,
                from_extension,
                call::ByeStage::Received,
                registrar,
                now,
            );
            let (second, reply) = first.bye_step(
                request,
                from_extension,
                call::ByeStage::Forwarded,
                registrar,
                later,
            );
            let call_id = request.call_id->0;
            let info = before.calls[call_id];
            let hangs_up = from_extension == info.caller_ext;
            &&& !before.names_call(request) ==> first == before && forward == refusal
            &&& before.names_call(request) ==> {
                &&& first == before
                &&& forward == (call::ByeActionView::Forward {
                    outgoing: call::OutgoingView {
                        to: if hangs_up {
                            info.callee_writer->0
                        } else {
                            info.caller_writer
                        },
                        message: before.addressed(
                            request.text,
                            if hangs_up {
                                info.callee_ext
                            } else {
                                info.caller_ext
                            },
                            registrar,
                            now,
                        ),
                    },
                })
                &&& second == before.without_call(call_id)
                &&& !second.has_call(call_id)
                &&& reply == (call::ByeActionView::Reply {
                    release: true,
                    response: message::plain(200, "OK"@),
                })
                &&& second.bye_step(
                    request,
                    from_extension,
                    call::ByeStage::Received,
                    registrar,
                    again,
                ) == (second, refusal)
            }
        }),
{
    if before.names_call(request) {
        assert(before.has_call(request.call_id->0));
    }
}

/// A CANCEL from start to end. Without a Call-ID or an active call it is answered 481, and nothing
/// is sent or changed. Else it goes to the callee; then the caller is told 487 on its channel, in
/// answer to its INVITE. Whether or not these could be delivered, the call is then over, its media
/// relay is given back, and the answer is 200; the same CANCEL again is answered 481.
pub proof fn law_cancel_ends_the_call(
    before: RouterView,
    request: call::DialogView,
    registrar: RegistrarView,
    now: u64,
    later: u64,
    again: u64,
)
    requires
        before.in_order(),
    ensures
        ({
            let refusal = call::CancelActionView::Reply {
                release: false,
                response: router::no_such_call(),
            };
            let call_id = request.call_id->0;
            let info = before.calls[call_id];
            let (first, forward) = before.cancel_step(
                request,
                call::CancelStageView::Received,
                registrar,
                now,
            );
            let (second, notify) = first.cancel_step(
                request,
                call::CancelStageView::Forwarded { original_invite: info.original_invite },
                registrar,
                later,
            );
            let (third, reply) = second.cancel_step(
                request,
                call::CancelStageView::Notified,
                registrar,
                later,
            );
            &&& !before.names_call(request) ==> first == before && forward == refusal
            &&& before.names_call(request) ==> {
                &&& forward == (call::CancelActionView::Forward {
                    outgoing: call::OutgoingView {
                        to: info.callee_writer->0,
                        message: before.addressed(request.text, info.callee_ext, registrar, now),
                    },
                    original_invite: info.original_invite,
                })
                &&& first == before.with_call(
                    call_id,
                    call::CallView { state: call::CallState::Terminated, ..info },
                )
                &&& second == first
                &&& notify == (call::CancelActionView::Notify {
                    to: info.caller_writer,
                    request: info.original_invite,
                    response: message::plain(487, "Request Terminated"@),
                })
                &&& third == before.without_call(call_id)
                &&& !third.has_call(call_id)
                &&& reply == (call::CancelActionView::Reply {
                    release: true,
                    response: message::plain(200, "OK"@),
                })
                &&& third.cancel_step(
                    request,
                    call::CancelStageView::Received,
                    registrar,
                    again,
                ) == (third, refusal)
            }
        }),
{
    if before.names_call(request) {
        let call_id = request.call_id->0;
        assert(before.has_call(call_id));
        assert(before.with_call(
            call_id,
            call::CallView { state: call::CallState::Terminated, ..before.calls[call_id] },
        ).without_call(call_id) =~= before.without_call(call_id));
    }
}

/// Each party of a call is the peer of the other.
pub proof fn law_peers(info: call::CallView)
    ensures
        info.peer(info.caller_ext) == info.callee_ext,
        info.peer(info.callee_ext) == info.caller_ext,
{
}

/// A router without calls has its calls in order.
pub proof fn law_calls_start_in_order(state: RouterView)
    requires
        state.calls == Map::<Seq<char>, call::CallView>::empty(),
    ensures
        state.in_order(),
{
}

/// Every step keeps the calls in order.
pub proof fn law_calls_stay_in_order(
    before: RouterView,
    invite: call::InviteView,
    caller_writer: call::WriterId,
    invite_stage: call::InviteStageView,
    response: call::CalleeResponseView,
    response_stage: call::ResponseStageView,
    request: call::DialogView,
    from_extension: Seq<char>,
    bye_stage: call::ByeStage,
    cancel_stage: call::CancelStageView,
    registrar: RegistrarView,
    now: u64,
)
    requires
        before.in_order(),
    ensures
        before.invite_step(invite, caller_writer, invite_stage, registrar, now).0.in_order(),
        before.response_step(response, response_stage).0.in_order(),
        before.bye_step(request, from_extension, bye_stage, registrar, now).0.in_order(),
        before.cancel_step(request, cancel_stage, registrar, now).0.in_order(),
{
    assert forall|call_id: Seq<char>| #[trigger]
        before.invite_step(invite, caller_writer, invite_stage, registrar, now).0.has_call(
            call_id,
        ) implies {
        let after = before.invite_step(invite, caller_writer, invite_stage, registrar, now).0;
        after.calls[call_id].call_id == call_id && after.calls[call_id].callee_writer is Some
    } by {
        assert(call_id != invite.id() ==> before.has_call(call_id));
    }
    assert forall|call_id: Seq<char>| #[trigger]
        before.response_step(response, response_stage).0.has_call(call_id) implies {
        let after = before.response_step(response, response_stage).0;
        after.calls[call_id].call_id == call_id && after.calls[call_id].callee_writer is Some
    } by {
        assert(before.has_call(call_id));
    }
    assert forall|call_id: Seq<char>| #[trigger]
        before.bye_step(request, from_extension, bye_stage, registrar, now).0.has_call(
            call_id,
        ) implies {
        let after = before.bye_step(request, from_extension, bye_stage, registrar, now).0;
        after.calls[call_id].call_id == call_id && after.calls[call_id].callee_writer is Some
    } by {
        assert(before.has_call(call_id));
    }
    assert forall|call_id: Seq<char>| #[trigger]
        before.cancel_step(request, cancel_stage, registrar, now).0.has_call(call_id) implies {
        let after = before.cancel_step(request, cancel_stage, registrar, now).0;
        after.calls[call_id].call_id == call_id && after.calls[call_id].callee_writer is Some
    } by {
        assert(before.has_call(call_id));
    }
}

} // verus!
