//! Call routing.
//!
//! The server stands between the parties of a call as a back-to-back user agent: it relays the
//! signalling of INVITE, ACK, BYE and CANCEL, and keeps the media session of each call.
//!
//! What takes a message out to the network or asks another part of the server for something is
//! an action: a handler says what is to be done next, and is called again with the outcome.

use crate::clock::{self, unix_seconds};
use crate::sip::call::{
    self, ByeAction, ByeStage, CallInfo, CallState, CalleeResponse, CancelAction, CancelStage,
    DialogRequest, Forwarding, InviteAction, InvitePlan, InviteRequest, InviteStage, InviteStep,
    Outgoing, RelayPlan, ResponseAction, ResponseStage, SdpRewrite, WriterId,
};
use crate::sip::forward::{
    self, build_forwarded_invite_response, rebuild_request_with_sdp, rewrite_request_uri_at,
    rewrite_request_uri_bytes, server_contact_uri,
};
use crate::sip::media::{self, copy_suite};
use crate::sip::message::{self, Response, SipUri};
use crate::sip::registrar::{self, RegistrarService};
use crate::table::Table;
use crate::text::{self, same};
use std::time::SystemTime;
use vstd::prelude::*;
use vstd::string::*;

verus! {

/// The router: the calls, and the channels to the registered extensions.
pub struct Router {
    active_calls: Table<CallInfo>,
    connection_writers: Table<WriterId>,
    domain: String,
    media_addr: String,
}

/// What [`Router`] holds.
#[verifier::ext_equal]
pub struct RouterView {
    /// The active calls, by Call-ID.
    pub calls: Map<Seq<char>, call::CallView>,
    /// The channels, by extension.
    pub writers: Map<Seq<char>, WriterId>,
    /// The domain of the server.
    pub domain: Seq<char>,
    /// The address of the media relay.
    pub media_addr: Seq<char>,
}

impl View for Router {
    type V = RouterView;

    closed spec fn view(&self) -> RouterView {
        RouterView {
            calls: self.active_calls@,
            writers: self.connection_writers@,
            domain: self.domain@,
            media_addr: self.media_addr@,
        }
    }
}

/// The answer to a request within a call that does not exist.
pub open spec fn no_such_call() -> message::ResponseView {
    message::plain(481, "Call/Transaction Does Not Exist"@)
}

/// The reason phrase of a forwarded response with a session description.
pub open spec fn reason_with_body(status: u16) -> Seq<char> {
    if status == 100 {
        "Trying"@
    } else if status == 180 {
        "Ringing"@
    } else if status == 183 {
        "Session Progress"@
    } else if status == 200 {
        "OK"@
    } else {
        "Unknown"@
    }
}

/// The reason phrase of a forwarded response without a session description.
pub open spec fn reason_without_body(status: u16) -> Seq<char> {
    if status == 486 {
        "Busy Here"@
    } else if status == 487 {
        "Request Terminated"@
    } else if status == 603 {
        "Decline"@
    } else {
        reason_with_body(status)
    }
}

impl call::CallView {
    /// The call that an INVITE sets up.
    pub open spec fn begun(
        invite: call::InviteView,
        caller_writer: WriterId,
        plan: call::PlanView,
    ) -> Self {
        call::CallView {
            call_id: invite.id(),
            caller_ext: invite.caller(),
            callee_ext: invite.callee(),
            caller_tag: text::or_empty(invite.from_tag),
            callee_tag: None,
            state: CallState::Trying,
            original_invite: invite.text,
            caller_writer,
            callee_writer: Some(plan.callee_writer),
            caller_remote_crypto: invite.body_crypto,
            caller_local_crypto: match plan.keys {
                Some(keys) => Some(keys.0),
                None => None,
            },
            callee_remote_crypto: None,
            callee_local_crypto: match plan.keys {
                Some(keys) => Some(keys.1),
                None => None,
            },
            caller_relay_port: plan.session.caller_port,
            callee_relay_port: plan.session.callee_port,
            relay_started: false,
        }
    }

    /// The tag of the callee after a response: the first one that it gave.
    pub open spec fn tag_after(self, response: call::CalleeResponseView) -> Option<Seq<char>> {
        match self.callee_tag {
            Some(tag) => Some(tag),
            None => response.to_tag,
        }
    }

    /// Whether the keys of the callee are still missing: SRTP was offered to it, and it has
    /// announced none.
    pub open spec fn lacks_keys(self) -> bool {
        self.callee_local_crypto is Some && self.callee_remote_crypto is None
    }

    /// The call after a response of the callee with this status.
    pub open spec fn after_response(
        self,
        response: call::CalleeResponseView,
        status: u16,
    ) -> Self {
        if status == 180 || status == 183 {
            call::CallView {
                state: CallState::Ringing,
                callee_tag: self.tag_after(response),
                ..self
            }
        } else if status == 200 {
            call::CallView {
                state: CallState::Established,
                callee_tag: self.tag_after(response),
                callee_remote_crypto: if self.lacks_keys() {
                    response.body_crypto
                } else {
                    self.callee_remote_crypto
                },
                ..self
            }
        } else if status >= 400 {
            call::CallView { state: CallState::Terminated, ..self }
        } else {
            self
        }
    }

    /// Whether the media relay can be started: it has not been, and no keys are missing.
    pub open spec fn relay_ready(self) -> bool {
        !self.relay_started && !self.lacks_keys()
    }

    /// The media relay of the call.
    pub open spec fn relay(self, call_id: Seq<char>, media_addr: Seq<char>) -> call::RelayPlanView {
        call::RelayPlanView {
            call_id,
            media_addr,
            caller_port: self.caller_relay_port,
            callee_port: self.callee_relay_port,
            caller_decrypt: self.caller_remote_crypto,
            callee_encrypt: self.callee_local_crypto,
            callee_decrypt: self.callee_remote_crypto,
            caller_encrypt: self.caller_local_crypto,
        }
    }

    /// The extension of the party that is not `extension`.
    pub open spec fn peer(self, extension: Seq<char>) -> Seq<char> {
        if extension == self.caller_ext {
            self.callee_ext
        } else {
            self.caller_ext
        }
    }

    /// The channel to the party that is not `extension`.
    pub open spec fn peer_writer(self, extension: Seq<char>) -> Option<WriterId> {
        if extension == self.caller_ext {
            self.callee_writer
        } else {
            Some(self.caller_writer)
        }
    }
}

impl RouterView {
    /// Whether a call is active.
    pub open spec fn has_call(self, call_id: Seq<char>) -> bool {
        self.calls.dom().contains(call_id)
    }

    /// Whether a request names a call that is active.
    pub open spec fn names_call(self, request: call::DialogView) -> bool {
        match request.call_id {
            Some(call_id) => self.has_call(call_id),
            None => false,
        }
    }

    /// Whether each call is filed under its own Call-ID and has a channel to its callee.
    pub open spec fn in_order(self) -> bool {
        forall|call_id: Seq<char>| #[trigger]
            self.has_call(call_id) ==> self.calls[call_id].call_id == call_id
                && self.calls[call_id].callee_writer is Some
    }

    /// The router without a call.
    pub open spec fn without_call(self, call_id: Seq<char>) -> Self {
        RouterView { calls: self.calls.remove(call_id), ..self }
    }

    /// The router with a call, in place of one with the same Call-ID.
    pub open spec fn with_call(self, call_id: Seq<char>, info: call::CallView) -> Self {
        RouterView { calls: self.calls.insert(call_id, info), ..self }
    }

    /// `request` as it goes to an extension at the time `now`.
    pub open spec fn addressed(
        self,
        request: Seq<char>,
        extension: Seq<char>,
        registrar: registrar::RegistrarView,
        now: u64,
    ) -> Seq<u8> {
        vstd::utf8::encode_utf8(
            forward::with_request_uri(
                request,
                forward::target_uri(registrar, extension, self.domain, now),
            ),
        )
    }

    // -----------------------------------------------------------------------
    // INVITE
    // -----------------------------------------------------------------------

    /// An INVITE has come. A call with the same Call-ID, left over from an earlier one, is given
    /// up. The callee must be online and have a channel.
    pub open spec fn invite_received(
        self,
        invite: call::InviteView,
        registrar: registrar::RegistrarView,
        now: u64,
    ) -> (Self, call::InviteStepView) {
        (
            self.without_call(invite.id()),
            call::InviteStepView {
                release: self.has_call(invite.id()),
                action: if registrar.current(invite.callee(), now) is None {
                    call::InviteActionView::Reply { response: message::plain(404, "Not Found"@) }
                } else if !self.writers.dom().contains(invite.callee()) {
                    call::InviteActionView::Reply {
                        response: message::plain(480, "Temporarily Unavailable"@),
                    }
                } else {
                    call::InviteActionView::AllocateSession {
                        callee_writer: self.writers[invite.callee()],
                    }
                },
            },
        )
    }

    /// The INVITE goes to the callee, with the session description `sdp` where it has one, and
    /// the call is recorded.
    pub open spec fn invite_forwarded(
        self,
        invite: call::InviteView,
        caller_writer: WriterId,
        plan: call::PlanView,
        sdp: Option<Seq<char>>,
        registrar: registrar::RegistrarView,
        now: u64,
    ) -> (Self, call::InviteStepView) {
        let request = match sdp {
            Some(body) => forward::with_sdp(invite.text, body),
            None => invite.text,
        };
        (
            self.with_call(invite.id(), call::CallView::begun(invite, caller_writer, plan)),
            call::InviteStepView {
                release: false,
                action: call::InviteActionView::Forward {
                    outgoing: call::OutgoingView {
                        to: plan.callee_writer,
                        message: self.addressed(request, invite.callee(), registrar, now),
                    },
                },
            },
        )
    }

    /// All is decided for an INVITE: its session description, where it has one, is rewritten
    /// for the callee.
    pub open spec fn invite_planned(
        self,
        invite: call::InviteView,
        caller_writer: WriterId,
        plan: call::PlanView,
        registrar: registrar::RegistrarView,
        now: u64,
    ) -> (Self, call::InviteStepView) {
        match invite.body {
            Some(body) => (
                self,
                call::InviteStepView {
                    release: false,
                    action: call::InviteActionView::RewriteSdp {
                        plan,
                        rewrite: call::SdpRewriteView {
                            body,
                            media_addr: self.media_addr,
                            port: plan.session.callee_port,
                            key: match plan.keys {
                                Some(keys) => Some(media::inline_key(keys.1)),
                                None => None,
                            },
                        },
                    },
                },
            ),
            None => self.invite_forwarded(invite, caller_writer, plan, None, registrar, now),
        }
    }

    /// A media relay was asked for. Without one the caller is refused; where it offers SRTP,
    /// keys are needed.
    pub open spec fn invite_allocated(
        self,
        invite: call::InviteView,
        caller_writer: WriterId,
        callee_writer: WriterId,
        granted: Option<call::RelaySession>,
        registrar: registrar::RegistrarView,
        now: u64,
    ) -> (Self, call::InviteStepView) {
        match granted {
            None => (
                self,
                call::InviteStepView {
                    release: false,
                    action: call::InviteActionView::Reply {
                        response: message::plain(503, "Service Unavailable"@),
                    },
                },
            ),
            Some(session) => if invite.body_crypto is Some {
                (
                    self,
                    call::InviteStepView {
                        release: false,
                        action: call::InviteActionView::GenerateKeys { callee_writer, session },
                    },
                )
            } else {
                let plan = call::PlanView { callee_writer, session, keys: None };
                self.invite_planned(invite, caller_writer, plan, registrar, now)
            },
        }
    }

    /// The INVITE was handed to the callee, or could not be: then the call is given up.
    pub open spec fn invite_delivered(
        self,
        invite: call::InviteView,
        delivered: bool,
    ) -> (Self, call::InviteStepView) {
        if delivered {
            (
                self,
                call::InviteStepView {
                    release: false,
                    action: call::InviteActionView::Reply {
                        response: message::plain(100, "Trying"@),
                    },
                },
            )
        } else {
            (
                self.without_call(invite.id()),
                call::InviteStepView {
                    release: self.has_call(invite.id()),
                    action: call::InviteActionView::Reply {
                        response: message::plain(500, "Internal Server Error"@),
                    },
                },
            )
        }
    }

    /// The next step in the handling of an INVITE, at the time `now`.
    pub open spec fn invite_step(
        self,
        invite: call::InviteView,
        caller_writer: WriterId,
        stage: call::InviteStageView,
        registrar: registrar::RegistrarView,
        now: u64,
    ) -> (Self, call::InviteStepView) {
        match stage {
            call::InviteStageView::Received => self.invite_received(invite, registrar, now),
            call::InviteStageView::Allocated { callee_writer, granted } => self.invite_allocated(
                invite,
                caller_writer,
                callee_writer,
                granted,
                registrar,
                now,
            ),
            call::InviteStageView::Keyed { callee_writer, session, keys } => {
                let plan = call::PlanView { callee_writer, session, keys: Some(keys) };
                self.invite_planned(invite, caller_writer, plan, registrar, now)
            },
            call::InviteStageView::Described { plan, sdp } => self.invite_forwarded(
                invite,
                caller_writer,
                plan,
                Some(sdp),
                registrar,
                now,
            ),
            call::InviteStageView::Delivered { delivered } => self.invite_delivered(
                invite,
                delivered,
            ),
        }
    }

    // -----------------------------------------------------------------------
    // Responses of the callee
    // -----------------------------------------------------------------------

    /// A response of the callee as it goes to the caller.
    pub open spec fn response_forwarded(
        self,
        response: call::CalleeResponseView,
        status: u16,
        reason: Seq<char>,
        forwarding: call::ForwardingView,
        sdp: Seq<char>,
    ) -> call::ResponseActionView {
        call::ResponseActionView::Forward {
            outgoing: call::OutgoingView {
                to: forwarding.caller_writer,
                message: vstd::utf8::encode_utf8(
                    forward::forwarded_response(
                        forwarding.original_invite,
                        response.text,
                        status,
                        reason,
                        forward::server_contact(forwarding.callee_ext, self.domain),
                        sdp,
                    ),
                ),
            },
        }
    }

    /// A response of the callee has come for the call `info`.
    pub open spec fn response_received(
        self,
        response: call::CalleeResponseView,
        call_id: Seq<char>,
        status: u16,
    ) -> (Self, call::ResponseActionView) {
        let info = self.calls[call_id].after_response(response, status);
        let forwarding = call::ForwardingView {
            caller_writer: info.caller_writer,
            original_invite: info.original_invite,
            callee_ext: info.callee_ext,
        };
        (
            self.with_call(call_id, info),
            match response.body {
                Some(body) => call::ResponseActionView::RewriteSdp {
                    forwarding,
                    rewrite: call::SdpRewriteView {
                        body,
                        media_addr: self.media_addr,
                        port: info.caller_relay_port,
                        key: match info.caller_local_crypto {
                            Some(sdes) => Some(media::inline_key(sdes)),
                            None => None,
                        },
                    },
                },
                None => self.response_forwarded(
                    response,
                    status,
                    reason_without_body(status),
                    forwarding,
                    ""@,
                ),
            },
        )
    }

    /// A response was handed to the caller, or could not be. A refused call is given up; an
    /// established one gets its media relay, once.
    pub open spec fn response_delivered(
        self,
        call_id: Seq<char>,
        status: u16,
    ) -> (Self, call::ResponseActionView) {
        if status >= 400 {
            (
                self.without_call(call_id),
                call::ResponseActionView::Finish { release: self.has_call(call_id), relay: None },
            )
        } else if status == 200 && self.has_call(call_id) && self.calls[call_id].relay_ready() {
            let info = call::CallView { relay_started: true, ..self.calls[call_id] };
            (
                self.with_call(call_id, info),
                call::ResponseActionView::Finish {
                    release: false,
                    relay: Some(info.relay(call_id, self.media_addr)),
                },
            )
        } else {
            (self, call::ResponseActionView::Finish { release: false, relay: None })
        }
    }

    /// The next step in the handling of a response of the callee.
    pub open spec fn response_step(
        self,
        response: call::CalleeResponseView,
        stage: call::ResponseStageView,
    ) -> (Self, call::ResponseActionView) {
        match (response.call_id, response.status) {
            (Some(call_id), Some(status)) => match stage {
                call::ResponseStageView::Received => if self.has_call(call_id) {
                    self.response_received(response, call_id, status)
                } else {
                    (self, call::ResponseActionView::Ignore)
                },
                call::ResponseStageView::Described { forwarding, sdp } => (
                    self,
                    self.response_forwarded(
                        response,
                        status,
                        reason_with_body(status),
                        forwarding,
                        sdp,
                    ),
                ),
                call::ResponseStageView::Delivered => self.response_delivered(call_id, status),
            },
            _ => (self, call::ResponseActionView::Ignore),
        }
    }

    // -----------------------------------------------------------------------
    // ACK, BYE, CANCEL
    // -----------------------------------------------------------------------

    /// The ACK as it goes to the callee at the time `now`, where its call exists and the callee
    /// has a channel.
    pub open spec fn ack(
        self,
        request: call::DialogView,
        registrar: registrar::RegistrarView,
        now: u64,
    ) -> Option<call::OutgoingView> {
        match request.call_id {
            Some(call_id) if self.has_call(call_id) => match self.calls[call_id].callee_writer {
                Some(to) => Some(
                    call::OutgoingView {
                        to,
                        message: self.addressed(
                            request.text,
                            self.calls[call_id].callee_ext,
                            registrar,
                            now,
                        ),
                    },
                ),
                None => None,
            },
            _ => None,
        }
    }

    /// A BYE is done with: its call is given up.
    pub open spec fn bye_finished(self, call_id: Seq<char>) -> (Self, call::ByeActionView) {
        (
            self.without_call(call_id),
            call::ByeActionView::Reply {
                release: self.has_call(call_id),
                response: message::plain(200, "OK"@),
            },
        )
    }

    /// The next step in the handling of a BYE from an extension, at the time `now`.
    pub open spec fn bye_step(
        self,
        request: call::DialogView,
        from_extension: Seq<char>,
        stage: ByeStage,
        registrar: registrar::RegistrarView,
        now: u64,
    ) -> (Self, call::ByeActionView) {
        match (request.call_id, stage) {
            (Some(call_id), ByeStage::Forwarded) => self.bye_finished(call_id),
            (Some(call_id), ByeStage::Received) if self.has_call(call_id) => {
                let info = self.calls[call_id];
                match info.peer_writer(from_extension) {
                    Some(to) => (
                        self,
                        call::ByeActionView::Forward {
                            outgoing: call::OutgoingView {
                                to,
                                message: self.addressed(
                                    request.text,
                                    info.peer(from_extension),
                                    registrar,
                                    now,
                                ),
                            },
                        },
                    ),
                    None => self.bye_finished(call_id),
                }
            },
            _ => (self, call::ByeActionView::Reply { release: false, response: no_such_call() }),
        }
    }

    /// A CANCEL is done with: its call is given up.
    pub open spec fn cancel_finished(self, call_id: Seq<char>) -> (Self, call::CancelActionView) {
        (
            self.without_call(call_id),
            call::CancelActionView::Reply {
                release: self.has_call(call_id),
                response: message::plain(200, "OK"@),
            },
        )
    }

    /// A CANCEL has come for a call.
    pub open spec fn cancel_received(
        self,
        request: call::DialogView,
        call_id: Seq<char>,
        registrar: registrar::RegistrarView,
        now: u64,
    ) -> (Self, call::CancelActionView) {
        let info = call::CallView { state: CallState::Terminated, ..self.calls[call_id] };
        match info.callee_writer {
            Some(to) => (
                self.with_call(call_id, info),
                call::CancelActionView::Forward {
                    outgoing: call::OutgoingView {
                        to,
                        message: self.addressed(request.text, info.callee_ext, registrar, now),
                    },
                    original_invite: info.original_invite,
                },
            ),
            None => self.cancel_finished(call_id),
        }
    }

    /// The next step in the handling of a CANCEL, at the time `now`.
    pub open spec fn cancel_step(
        self,
        request: call::DialogView,
        stage: call::CancelStageView,
        registrar: registrar::RegistrarView,
        now: u64,
    ) -> (Self, call::CancelActionView) {
        match (request.call_id, stage) {
            (Some(call_id), call::CancelStageView::Received) if self.has_call(call_id) =>
                self.cancel_received(request, call_id, registrar, now),
            (
                Some(call_id),
                call::CancelStageView::Forwarded { original_invite },
            ) if self.has_call(call_id) => (
                self,
                call::CancelActionView::Notify {
                    to: self.calls[call_id].caller_writer,
                    request: original_invite,
                    response: message::plain(487, "Request Terminated"@),
                },
            ),
            (Some(call_id), call::CancelStageView::Forwarded { .. }) => self.cancel_finished(
                call_id,
            ),
            (Some(call_id), call::CancelStageView::Notified) => self.cancel_finished(call_id),
            _ => (
                self,
                call::CancelActionView::Reply { release: false, response: no_such_call() },
            ),
        }
    }
}

/// Giving up a call keeps the others in order.
proof fn lemma_without_call_in_order(before: RouterView, call_id: Seq<char>)
    requires
        before.in_order(),
    ensures
        before.without_call(call_id).in_order(),
{
    assert forall|id: Seq<char>| #[trigger]
        before.without_call(call_id).has_call(id) implies before.without_call(
        call_id,
    ).calls[id].call_id == id && before.without_call(call_id).calls[id].callee_writer is Some by {
        assert(before.has_call(id));
    }
}

/// A call that is in order keeps the others in order.
proof fn lemma_with_call_in_order(before: RouterView, call_id: Seq<char>, info: call::CallView)
    requires
        before.in_order(),
        info.call_id == call_id,
        info.callee_writer is Some,
    ensures
        before.with_call(call_id, info).in_order(),
{
    assert forall|id: Seq<char>| #[trigger]
        before.with_call(call_id, info).has_call(id) implies before.with_call(
        call_id,
        info,
    ).calls[id].call_id == id && before.with_call(call_id, info).calls[id].callee_writer is Some by {
        if id != call_id {
            assert(before.has_call(id));
        }
    }
}

/// A copy of an optional text; empty where there is none.
fn text_or_empty(value: &Option<String>) -> (copy: String)
    ensures
        copy@ == text::or_empty(text::text_view(*value)),
{
    match value {
        Some(t) => t.clone(),
        None => String::new(),
    }
}

/// The extension of an optional URI; empty where there is none.
fn extension_of(uri: &Option<SipUri>) -> (extension: String)
    ensures
        extension@ == call::extension_or_empty(message::uri_view(*uri)),
{
    match uri {
        Some(u) => text_or_empty(&u.extension),
        None => String::new(),
    }
}

/// A copy of an optional text.
fn copy_text(value: &Option<String>) -> (copy: Option<String>)
    ensures
        text::text_view(copy) == text::text_view(*value),
{
    match value {
        Some(t) => Some(t.clone()),
        None => None,
    }
}

/// The reason phrase of a forwarded response with a session description.
fn phrase_with_body(status: u16) -> (reason: &'static str)
    ensures
        reason@ == reason_with_body(status),
{
    match status {
        100 => "Trying",
        180 => "Ringing",
        183 => "Session Progress",
        200 => "OK",
        _ => "Unknown",
    }
}

/// The reason phrase of a forwarded response without a session description.
fn phrase_without_body(status: u16) -> (reason: &'static str)
    ensures
        reason@ == reason_without_body(status),
{
    match status {
        100 => "Trying",
        180 => "Ringing",
        183 => "Session Progress",
        200 => "OK",
        486 => "Busy Here",
        487 => "Request Terminated",
        603 => "Decline",
        _ => "Unknown",
    }
}

/// The answer to a request within a call that does not exist.
fn unknown_call() -> (response: Response)
    ensures
        response@ == no_such_call(),
{
    Response::new(481, "Call/Transaction Does Not Exist")
}

impl Router {
    /// The tables are well formed.
    pub closed spec fn tables_wf(self) -> bool {
        self.active_calls.wf() && self.connection_writers.wf()
    }

    /// The tables are well formed, and the calls are in order.
    pub open spec fn wf(self) -> bool {
        self.tables_wf() && self@.in_order()
    }

    /// A router without calls and channels.
    pub fn new(domain: String, media_addr: String) -> (router: Self)
        ensures
            router.wf(),
            router@ == (RouterView {
                calls: Map::empty(),
                writers: Map::empty(),
                domain: domain@,
                media_addr: media_addr@,
            }),
    {
        Router {
            active_calls: Table::new(),
            connection_writers: Table::new(),
            domain,
            media_addr,
        }
    }

    /// Records the channel to an extension, in place of the one that it has.
    pub fn register_writer(&mut self, extension: &str, writer: WriterId)
        requires
            old(self).wf(),
        ensures
            final(self).wf(),
            final(self)@ == (RouterView {
                writers: old(self)@.writers.insert(extension@, writer),
                ..old(self)@
            }),
    {
        let ghost before = self@;
        self.connection_writers.insert(extension.to_owned(), writer);
        assert forall|id: Seq<char>| #[trigger] self@.has_call(id) implies self@.calls[id].call_id
            == id && self@.calls[id].callee_writer is Some by {
            assert(before.has_call(id));
        }
    }

    /// Takes out the channel to an extension.
    pub fn unregister_writer(&mut self, extension: &str)
        requires
            old(self).wf(),
        ensures
            final(self).wf(),
            final(self)@ == (RouterView {
                writers: old(self)@.writers.remove(extension@),
                ..old(self)@
            }),
    {
        let ghost before = self@;
        self.connection_writers.remove(extension);
        assert forall|id: Seq<char>| #[trigger] self@.has_call(id) implies self@.calls[id].call_id
            == id && self@.calls[id].callee_writer is Some by {
            assert(before.has_call(id));
        }
    }

    /// The channel to an extension.
    fn get_writer(&self, extension: &str) -> (writer: Option<WriterId>)
        requires
            self.wf(),
        ensures
            writer == (if self@.writers.dom().contains(extension@) {
                Some(self@.writers[extension@])
            } else {
                None
            }),
    {
        match self.connection_writers.get(extension) {
            Some(writer) => Some(*writer),
            None => None,
        }
    }

    /// The extension of the other party of a call.
    pub fn find_peer_extension(&self, call_id: &str, from_ext: &str) -> (peer: Option<String>)
        requires
            self.wf(),
        ensures
            text::text_view(peer) == (if self@.has_call(call_id@) {
                Some(self@.calls[call_id@].peer(from_ext@))
            } else {
                None
            }),
    {
        match self.active_calls.get(call_id) {
            Some(info) => if same(info.caller_ext.as_str(), from_ext) {
                Some(info.callee_ext.clone())
            } else {
                Some(info.caller_ext.clone())
            },
            None => None,
        }
    }

    /// Whether a call is active.
    pub fn has_active_call(&self, call_id: &str) -> (active: bool)
        requires
            self.wf(),
        ensures
            active == self@.has_call(call_id@),
    {
        self.active_calls.contains_key(call_id)
    }

    /// Gives up a call, and says whether there was one.
    fn cleanup_call(&mut self, call_id: &str) -> (removed: bool)
        requires
            old(self).wf(),
        ensures
            final(self).wf(),
            final(self)@ == old(self)@.without_call(call_id@),
            removed == old(self)@.has_call(call_id@),
    {
        proof {
            lemma_without_call_in_order(self@, call_id@);
        }
        self.active_calls.remove(call_id).is_some()
    }

    /// The request as it goes to an extension at the time `now`.
    fn address(&self, request: &str, extension: &str, registrar: &RegistrarService, now: u64) -> (
    message: Vec<u8>)
        requires
            registrar.wf(),
        ensures
            message@ == self@.addressed(request@, extension@, registrar@, now),
    {
        rewrite_request_uri_at(
            request,
            extension,
            self.domain.as_str(),
            registrar,
            now,
        ).as_str().as_bytes_vec()
    }

    fn invite_received(
        &mut self,
        invite: &InviteRequest,
        registrar: &RegistrarService,
        now: u64,
    ) -> (step: InviteStep)
        requires
            old(self).wf(),
            registrar.wf(),
        ensures
            final(self).wf(),
            (final(self)@, step@) == old(self)@.invite_received(invite@, registrar@, now),
    {
        let call_id = text_or_empty(&invite.call_id);
        let callee_ext = extension_of(&invite.request_uri);
        let release = self.cleanup_call(call_id.as_str());
        let action = if !registrar.is_registered_at(callee_ext.as_str(), now) {
            InviteAction::Reply { response: Response::new(404, "Not Found") }
        } else {
            match self.get_writer(callee_ext.as_str()) {
                Some(callee_writer) => InviteAction::AllocateSession { callee_writer },
                None => InviteAction::Reply {
                    response: Response::new(480, "Temporarily Unavailable"),
                },
            }
        };
        InviteStep { release, action }
    }

    fn invite_planned(
        &mut self,
        invite: &InviteRequest,
        caller_writer: WriterId,
        plan: InvitePlan,
        registrar: &RegistrarService,
        now: u64,
    ) -> (step: InviteStep)
        requires
            old(self).wf(),
            registrar.wf(),
        ensures
            final(self).wf(),
            (final(self)@, step@) == old(self)@.invite_planned(
                invite@,
                caller_writer,
                plan@,
                registrar@,
                now,
            ),
    {
        match &invite.body {
            Some(body) => {
                let key = match &plan.keys {
                    Some(keys) => Some(keys.callee.key()),
                    None => None,
                };
                let rewrite = SdpRewrite {
                    body: body.clone(),
                    media_addr: self.media_addr.clone(),
                    port: plan.session.callee_port,
                    key,
                };
                InviteStep { release: false, action: InviteAction::RewriteSdp { plan, rewrite } }
            },
            None => self.invite_forwarded(invite, caller_writer, plan, None, registrar, now),
        }
    }

    fn invite_forwarded(
        &mut self,
        invite: &InviteRequest,
        caller_writer: WriterId,
        plan: InvitePlan,
        sdp: Option<String>,
        registrar: &RegistrarService,
        now: u64,
    ) -> (step: InviteStep)
        requires
            old(self).wf(),
            registrar.wf(),
        ensures
            final(self).wf(),
            (final(self)@, step@) == old(self)@.invite_forwarded(
                invite@,
                caller_writer,
                plan@,
                text::text_view(sdp),
                registrar@,
                now,
            ),
    {
        let call_id = text_or_empty(&invite.call_id);
        let callee_ext = extension_of(&invite.request_uri);
        let message = match &sdp {
            Some(body) => {
                let rebuilt = rebuild_request_with_sdp(invite.text.as_str(), body.as_str());
                proof {
                    vstd::utf8::encode_utf8_valid_utf8(forward::with_sdp(invite.text@, body@));
                    vstd::utf8::encode_utf8_decode_utf8(forward::with_sdp(invite.text@, body@));
                }
                rewrite_request_uri_bytes(
                    rebuilt.as_slice(),
                    callee_ext.as_str(),
                    self.domain.as_str(),
                    registrar,
                    now,
                )
            },
            None => self.address(invite.text.as_str(), callee_ext.as_str(), registrar, now),
        };
        let to = plan.callee_writer;
        let session = plan.session;
        let (caller_local_crypto, callee_local_crypto) = match plan.keys {
            Some(keys) => (Some(keys.caller), Some(keys.callee)),
            None => (None, None),
        };
        let info = CallInfo {
            call_id: call_id.clone(),
            caller_ext: extension_of(&invite.from),
            callee_ext,
            caller_tag: text_or_empty(&invite.from_tag),
            callee_tag: None,
            state: CallState::Trying,
            original_invite: invite.text.clone(),
            caller_writer,
            callee_writer: Some(to),
            caller_remote_crypto: copy_suite(&invite.body_crypto),
            caller_local_crypto,
            callee_remote_crypto: None,
            callee_local_crypto,
            caller_relay_port: session.caller_port,
            callee_relay_port: session.callee_port,
            relay_started: false,
        };
        proof {
            lemma_with_call_in_order(self@, call_id@, info@);
        }
        self.active_calls.insert(call_id, info);
        InviteStep {
            release: false,
            action: InviteAction::Forward { outgoing: Outgoing { to, message } },
        }
    }

    /// The next step in the handling of an INVITE from the channel `caller_writer`, at the time
    /// `now`.
    pub fn handle_invite_at(
        &mut self,
        invite: &InviteRequest,
        caller_writer: WriterId,
        stage: InviteStage,
        registrar: &RegistrarService,
        now: u64,
    ) -> (step: InviteStep)
        requires
            old(self).wf(),
            registrar.wf(),
        ensures
            final(self).wf(),
            (final(self)@, step@) == old(self)@.invite_step(
                invite@,
                caller_writer,
                stage@,
                registrar@,
                now,
            ),
    {
        match stage {
            InviteStage::Received => self.invite_received(invite, registrar, now),
            InviteStage::Allocated { callee_writer, granted } => match granted {
                None => InviteStep {
                    release: false,
                    action: InviteAction::Reply {
                        response: Response::new(503, "Service Unavailable"),
                    },
                },
                Some(session) => if invite.body_crypto.is_some() {
                    InviteStep {
                        release: false,
                        action: InviteAction::GenerateKeys { callee_writer, session },
                    }
                } else {
                    let plan = InvitePlan { callee_writer, session, keys: None };
                    self.invite_planned(invite, caller_writer, plan, registrar, now)
                },
            },
            InviteStage::Keyed { callee_writer, session, keys } => {
                let plan = InvitePlan { callee_writer, session, keys: Some(keys) };
                self.invite_planned(invite, caller_writer, plan, registrar, now)
            },
            InviteStage::Described { plan, sdp } => self.invite_forwarded(
                invite,
                caller_writer,
                plan,
                Some(sdp),
                registrar,
                now,
            ),
            InviteStage::Delivered { delivered } => if delivered {
                InviteStep {
                    release: false,
                    action: InviteAction::Reply { response: Response::new(100, "Trying") },
                }
            } else {
                let release = self.cleanup_call(text_or_empty(&invite.call_id).as_str());
                InviteStep {
                    release,
                    action: InviteAction::Reply {
                        response: Response::new(500, "Internal Server Error"),
                    },
                }
            },
        }
    }

    /// The next step in the handling of an INVITE from the channel `caller_writer`:
    ///
    /// 1. the callee must be online (404) and have a channel (480),
    /// 2. a media relay is allocated (503 where there is none),
    /// 3. keys are generated where the caller offers SRTP,
    /// 4. the INVITE goes to the callee with a rewritten session description (500 where it
    ///    cannot), and the caller is answered 100.
    pub fn handle_invite(
        &mut self,
        invite: &InviteRequest,
        caller_writer: WriterId,
        stage: InviteStage,
        registrar: &RegistrarService,
    ) -> (step: InviteStep)
        requires
            old(self).wf(),
            registrar.wf(),
        ensures
            final(self).wf(),
            exists|reading: SystemTime|
                (final(self)@, step@) == #[trigger] old(self)@.invite_step(
                    invite@,
                    caller_writer,
                    stage@,
                    registrar@,
                    clock::unix_time(reading),
                ),
    {
        let now = unix_seconds();
        let step = self.handle_invite_at(invite, caller_writer, stage, registrar, now);
        assert((final(self)@, step@) == old(self)@.invite_step(
            invite@,
            caller_writer,
            stage@,
            registrar@,
            now,
        ));
        step
    }

    fn response_received(
        &mut self,
        response: &CalleeResponse,
        call_id: &str,
        status: u16,
    ) -> (action: ResponseAction)
        requires
            old(self).wf(),
            old(self)@.has_call(call_id@),
        ensures
            final(self).wf(),
            (final(self)@, action@) == old(self)@.response_received(response@, call_id@, status),
    {
        let ghost before = self@;
        let ghost updated = before.calls[call_id@].after_response(response@, status);
        proof {
            lemma_with_call_in_order(before, call_id@, updated);
        }
        match self.active_calls.get_mut(call_id) {
            Some(info) => {
                if status == 180 || status == 183 {
                    info.state = CallState::Ringing;
                    if info.callee_tag.is_none() {
                        info.callee_tag = copy_text(&response.to_tag);
                    }
                } else if status == 200 {
                    info.state = CallState::Established;
                    if info.callee_tag.is_none() {
                        info.callee_tag = copy_text(&response.to_tag);
                    }
                    if info.callee_local_crypto.is_some() && info.callee_remote_crypto.is_none() {
                        info.callee_remote_crypto = copy_suite(&response.body_crypto);
                    }
                } else if status >= 400 {
                    info.state = CallState::Terminated;
                }
            },
            None => {},
        }
        assert(self@ == before.with_call(call_id@, updated));
        match self.active_calls.get(call_id) {
            Some(info) => {
                let forwarding = Forwarding {
                    caller_writer: info.caller_writer,
                    original_invite: info.original_invite.clone(),
                    callee_ext: info.callee_ext.clone(),
                };
                match &response.body {
                    Some(body) => {
                        let key = match &info.caller_local_crypto {
                            Some(suite) => Some(suite.key()),
                            None => None,
                        };
                        let rewrite = SdpRewrite {
                            body: body.clone(),
                            media_addr: self.media_addr.clone(),
                            port: info.caller_relay_port,
                            key,
                        };
                        ResponseAction::RewriteSdp { forwarding, rewrite }
                    },
                    None => self.forward_response(
                        response,
                        status,
                        phrase_without_body(status),
                        &forwarding,
                        "",
                    ),
                }
            },
            None => ResponseAction::Ignore,
        }
    }

    fn forward_response(
        &self,
        response: &CalleeResponse,
        status: u16,
        reason: &str,
        forwarding: &Forwarding,
        sdp: &str,
    ) -> (action: ResponseAction)
        ensures
            action@ == self@.response_forwarded(response@, status, reason@, forwarding@, sdp@),
    {
        let contact = server_contact_uri(forwarding.callee_ext.as_str(), self.domain.as_str());
        let message = build_forwarded_invite_response(
            forwarding.original_invite.as_str(),
            response.text.as_str(),
            status,
            reason,
            contact.as_str(),
            sdp,
        );
        ResponseAction::Forward { outgoing: Outgoing { to: forwarding.caller_writer, message } }
    }

    /// Marks the media relay of a call as started, where it can be, and says what is to be
    /// started.
    fn start_media_relay(&mut self, call_id: &str) -> (relay: Option<RelayPlan>)
        requires
            old(self).wf(),
        ensures
            final(self).wf(),
            ({
                let ready = old(self)@.has_call(call_id@)
                    && old(self)@.calls[call_id@].relay_ready();
                let info = call::CallView { relay_started: true, ..old(self)@.calls[call_id@] };
                &&& ready ==> final(self)@ == old(self)@.with_call(call_id@, info)
                    && call::relay_view(relay) == Some(info.relay(call_id@, old(self)@.media_addr))
                &&& !ready ==> final(self)@ == old(self)@ && relay is None
            }),
    {
        proof {
            if self@.has_call(call_id@) {
                lemma_with_call_in_order(
                    self@,
                    call_id@,
                    call::CallView { relay_started: true, ..self@.calls[call_id@] },
                );
                lemma_with_call_in_order(self@, call_id@, self@.calls[call_id@]);
            }
        }
        let media_addr = self.media_addr.clone();
        match self.active_calls.get_mut(call_id) {
            Some(info) => {
                let has_required_crypto = info.callee_local_crypto.is_none()
                    || info.callee_remote_crypto.is_some();
                if !info.relay_started && has_required_crypto {
                    info.relay_started = true;
                    Some(
                        RelayPlan {
                            call_id: call_id.to_owned(),
                            media_addr,
                            caller_port: info.caller_relay_port,
                            callee_port: info.callee_relay_port,
                            caller_decrypt: copy_suite(&info.caller_remote_crypto),
                            callee_encrypt: copy_suite(&info.callee_local_crypto),
                            callee_decrypt: copy_suite(&info.callee_remote_crypto),
                            caller_encrypt: copy_suite(&info.caller_local_crypto),
                        },
                    )
                } else {
                    None
                }
            },
            None => None,
        }
    }

    /// The next step in the handling of a response of the callee.
    ///
    /// The caller gets the response with the headers of its own INVITE: with those of the
    /// callee it would not recognise it.
    pub fn handle_callee_response(&mut self, response: &CalleeResponse, stage: ResponseStage) -> (
    action: ResponseAction)
        requires
            old(self).wf(),
        ensures
            final(self).wf(),
            (final(self)@, action@) == old(self)@.response_step(response@, stage@),
    {
        let call_id = match &response.call_id {
            Some(call_id) => call_id.as_str(),
            None => {
                return ResponseAction::Ignore;
            },
        };
        let status = match response.status {
            Some(status) => status,
            None => {
                return ResponseAction::Ignore;
            },
        };
        match stage {
            ResponseStage::Received => if self.has_active_call(call_id) {
                self.response_received(response, call_id, status)
            } else {
                ResponseAction::Ignore
            },
            ResponseStage::Described { forwarding, sdp } => self.forward_response(
                response,
                status,
                phrase_with_body(status),
                &forwarding,
                sdp.as_str(),
            ),
            ResponseStage::Delivered => if status >= 400 {
                let release = self.cleanup_call(call_id);
                ResponseAction::Finish { release, relay: None }
            } else if status == 200 {
                let relay = self.start_media_relay(call_id);
                ResponseAction::Finish { release: false, relay }
            } else {
                ResponseAction::Finish { release: false, relay: None }
            },
        }
    }

    /// The ACK as it goes to the callee at the time `now`.
    pub fn handle_ack_at(&self, request: &DialogRequest, registrar: &RegistrarService, now: u64) -> (
    outgoing: Option<Outgoing>)
        requires
            self.wf(),
            registrar.wf(),
        ensures
            call::outgoing_view(outgoing) == self@.ack(request@, registrar@, now),
            outgoing is Some <==> self@.names_call(request@),
    {
        let info = match &request.call_id {
            Some(call_id) => match self.active_calls.get(call_id.as_str()) {
                Some(info) => info,
                None => {
                    return None;
                },
            },
            None => {
                return None;
            },
        };
        match info.callee_writer {
            Some(to) => {
                let message = self.address(
                    request.text.as_str(),
                    info.callee_ext.as_str(),
                    registrar,
                    now,
                );
                Some(Outgoing { to, message })
            },
            None => None,
        }
    }

    /// The ACK as it goes to the callee.
    pub fn handle_ack(&self, request: &DialogRequest, registrar: &RegistrarService) -> (outgoing:
        Option<Outgoing>)
        requires
            self.wf(),
            registrar.wf(),
        ensures
            exists|reading: SystemTime|
                call::outgoing_view(outgoing) == #[trigger] self@.ack(
                    request@,
                    registrar@,
                    clock::unix_time(reading),
                ),
            outgoing is Some <==> self@.names_call(request@),
    {
        let now = unix_seconds();
        self.handle_ack_at(request, registrar, now)
    }

    fn bye_finished(&mut self, call_id: &str) -> (action: ByeAction)
        requires
            old(self).wf(),
        ensures
            final(self).wf(),
            (final(self)@, action@) == old(self)@.bye_finished(call_id@),
    {
        let release = self.cleanup_call(call_id);
        ByeAction::Reply { release, response: Response::new(200, "OK") }
    }

    /// The next step in the handling of a BYE from an extension, at the time `now`.
    pub fn handle_bye_at(
        &mut self,
        request: &DialogRequest,
        from_extension: &str,
        stage: ByeStage,
        registrar: &RegistrarService,
        now: u64,
    ) -> (action: ByeAction)
        requires
            old(self).wf(),
            registrar.wf(),
        ensures
            final(self).wf(),
            (final(self)@, action@) == old(self)@.bye_step(
                request@,
                from_extension@,
                stage,
                registrar@,
                now,
            ),
            stage is Received ==> (action@ is Forward <==> old(self)@.names_call(request@)),
    {
        let call_id = match &request.call_id {
            Some(call_id) => call_id.as_str(),
            None => {
                return ByeAction::Reply { release: false, response: unknown_call() };
            },
        };
        match stage {
            ByeStage::Forwarded => self.bye_finished(call_id),
            ByeStage::Received => {
                let (to, peer) = match self.active_calls.get(call_id) {
                    Some(info) => if same(from_extension, info.caller_ext.as_str()) {
                        (info.callee_writer, info.callee_ext.as_str())
                    } else {
                        (Some(info.caller_writer), info.caller_ext.as_str())
                    },
                    None => {
                        return ByeAction::Reply { release: false, response: unknown_call() };
                    },
                };
                match to {
                    Some(to) => {
                        let message = self.address(request.text.as_str(), peer, registrar, now);
                        ByeAction::Forward { outgoing: Outgoing { to, message } }
                    },
                    None => self.bye_finished(call_id),
                }
            },
        }
    }

    /// The next step in the handling of a BYE from an extension: it goes to the other party, the
    /// call is given up, and the answer is 200 (481 where there is no such call).
    pub fn handle_bye(
        &mut self,
        request: &DialogRequest,
        from_extension: &str,
        stage: ByeStage,
        registrar: &RegistrarService,
    ) -> (action: ByeAction)
        requires
            old(self).wf(),
            registrar.wf(),
        ensures
            final(self).wf(),
            exists|reading: SystemTime|
                (final(self)@, action@) == #[trigger] old(self)@.bye_step(
                    request@,
                    from_extension@,
                    stage,
                    registrar@,
                    clock::unix_time(reading),
                ),
            stage is Received ==> (action@ is Forward <==> old(self)@.names_call(request@)),
    {
        let now = unix_seconds();
        let action = self.handle_bye_at(request, from_extension, stage, registrar, now);
        assert((final(self)@, action@) == old(self)@.bye_step(
            request@,
            from_extension@,
            stage,
            registrar@,
            now,
        ));
        action
    }

    fn cancel_finished(&mut self, call_id: &str) -> (action: CancelAction)
        requires
            old(self).wf(),
        ensures
            final(self).wf(),
            (final(self)@, action@) == old(self)@.cancel_finished(call_id@),
    {
        let release = self.cleanup_call(call_id);
        CancelAction::Reply { release, response: Response::new(200, "OK") }
    }

    fn cancel_received(
        &mut self,
        request: &DialogRequest,
        call_id: &str,
        registrar: &RegistrarService,
        now: u64,
    ) -> (action: CancelAction)
        requires
            old(self).wf(),
            registrar.wf(),
            old(self)@.has_call(call_id@),
        ensures
            final(self).wf(),
            (final(self)@, action@) == old(self)@.cancel_received(
                request@,
                call_id@,
                registrar@,
                now,
            ),
    {
        let ghost before = self@;
        let ghost info = call::CallView {
            state: CallState::Terminated,
            ..before.calls[call_id@]
        };
        proof {
            lemma_with_call_in_order(before, call_id@, info);
        }
        if let Some(info) = self.active_calls.get_mut(call_id) {
            info.state = CallState::Terminated;
        }
        assert(self@ == before.with_call(call_id@, info));
        let (to, callee_ext, original_invite) = match self.active_calls.get(call_id) {
            Some(info) => (
                info.callee_writer,
                info.callee_ext.as_str(),
                info.original_invite.clone(),
            ),
            None => (None, "", String::new()),
        };
        match to {
            Some(to) => {
                let message = self.address(request.text.as_str(), callee_ext, registrar, now);
                CancelAction::Forward { outgoing: Outgoing { to, message }, original_invite }
            },
            None => {
                assert(before.with_call(call_id@, info).without_call(call_id@)
                    =~= before.without_call(call_id@));
                self.cancel_finished(call_id)
            },
        }
    }

    /// The next step in the handling of a CANCEL, at the time `now`.
    pub fn handle_cancel_at(
        &mut self,
        request: &DialogRequest,
        stage: CancelStage,
        registrar: &RegistrarService,
        now: u64,
    ) -> (action: CancelAction)
        requires
            old(self).wf(),
            registrar.wf(),
        ensures
            final(self).wf(),
            (final(self)@, action@) == old(self)@.cancel_step(request@, stage@, registrar@, now),
            stage is Received ==> (action@ is Forward <==> old(self)@.names_call(request@)),
    {
        let call_id = match &request.call_id {
            Some(call_id) => call_id.as_str(),
            None => {
                return CancelAction::Reply { release: false, response: unknown_call() };
            },
        };
        match stage {
            CancelStage::Received => if self.has_active_call(call_id) {
                self.cancel_received(request, call_id, registrar, now)
            } else {
                CancelAction::Reply { release: false, response: unknown_call() }
            },
            CancelStage::Forwarded { original_invite } => match self.active_calls.get(call_id) {
                Some(info) => CancelAction::Notify {
                    to: info.caller_writer,
                    request: original_invite,
                    response: Response::new(487, "Request Terminated"),
                },
                None => self.cancel_finished(call_id),
            },
            CancelStage::Notified => self.cancel_finished(call_id),
        }
    }

    /// The next step in the handling of a CANCEL: it goes to the callee, the caller is told that
    /// its INVITE is over (487), the call is given up, and the answer is 200 (481 where there is
    /// no such call).
    pub fn handle_cancel(
        &mut self,
        request: &DialogRequest,
        stage: CancelStage,
        registrar: &RegistrarService,
    ) -> (action: CancelAction)
        requires
            old(self).wf(),
            registrar.wf(),
        ensures
            final(self).wf(),
            exists|reading: SystemTime|
                (final(self)@, action@) == #[trigger] old(self)@.cancel_step(
                    request@,
                    stage@,
                    registrar@,
                    clock::unix_time(reading),
                ),
            stage is Received ==> (action@ is Forward <==> old(self)@.names_call(request@)),
    {
        let now = unix_seconds();
        let action = self.handle_cancel_at(request, stage, registrar, now);
        assert((final(self)@, action@) == old(self)@.cancel_step(
            request@,
            stage@,
            registrar@,
            now,
        ));
        action
    }
}

} // verus!
