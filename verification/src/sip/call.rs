//! Calls: what is known of one, and what the steps of its handling hand to each other.

use crate::sip::media::{self, SrtpCryptoSuite};
use crate::sip::message::{self, Response, SipUri};
use crate::text;
use vstd::prelude::*;

verus! {

/// The channel to a connection, by the number under which the server keeps it.
pub type WriterId = u64;

/// The state of a call.
#[derive(Debug, Clone, Copy, PartialEq, Eq, Structural)]
pub enum CallState {
    /// It is being set up.
    Trying,
    /// The phone of the callee rings.
    Ringing,
    /// The callee has answered.
    Established,
    /// It is over.
    Terminated,
}

/// A call.
#[derive(Debug)]
pub struct CallInfo {
    /// The Call-ID.
    pub call_id: String,
    /// The extension of the caller.
    pub caller_ext: String,
    /// The extension of the callee.
    pub callee_ext: String,
    /// The tag of the caller, from the From header.
    pub caller_tag: String,
    /// The tag of the callee, from the To header of its responses.
    pub callee_tag: Option<String>,
    /// The state of the call.
    pub state: CallState,
    /// The INVITE of the caller, from which the responses to it are built.
    pub original_invite: String,
    /// The channel to the caller.
    pub caller_writer: WriterId,
    /// The channel to the callee.
    pub callee_writer: Option<WriterId>,
    /// The keys that the caller has offered: what it sends is decrypted with them.
    pub caller_remote_crypto: Option<SrtpCryptoSuite>,
    /// The keys that the server has answered the caller: what it gets is encrypted with them.
    pub caller_local_crypto: Option<SrtpCryptoSuite>,
    /// The keys that the callee has answered: what it sends is decrypted with them.
    pub callee_remote_crypto: Option<SrtpCryptoSuite>,
    /// The keys that the server has offered the callee: what it gets is encrypted with them.
    pub callee_local_crypto: Option<SrtpCryptoSuite>,
    /// The relay port on the side of the caller.
    pub caller_relay_port: u16,
    /// The relay port on the side of the callee.
    pub callee_relay_port: u16,
    /// Whether the media relay has been started.
    pub relay_started: bool,
}

/// What [`CallInfo`] holds.
pub struct CallView {
    pub call_id: Seq<char>,
    pub caller_ext: Seq<char>,
    pub callee_ext: Seq<char>,
    pub caller_tag: Seq<char>,
    pub callee_tag: Option<Seq<char>>,
    pub state: CallState,
    pub original_invite: Seq<char>,
    pub caller_writer: WriterId,
    pub callee_writer: Option<WriterId>,
    pub caller_remote_crypto: Option<Seq<char>>,
    pub caller_local_crypto: Option<Seq<char>>,
    pub callee_remote_crypto: Option<Seq<char>>,
    pub callee_local_crypto: Option<Seq<char>>,
    pub caller_relay_port: u16,
    pub callee_relay_port: u16,
    pub relay_started: bool,
}

impl View for CallInfo {
    type V = CallView;

    open spec fn view(&self) -> CallView {
        CallView {
            call_id: self.call_id@,
            caller_ext: self.caller_ext@,
            callee_ext: self.callee_ext@,
            caller_tag: self.caller_tag@,
            callee_tag: text::text_view(self.callee_tag),
            state: self.state,
            original_invite: self.original_invite@,
            caller_writer: self.caller_writer,
            callee_writer: self.callee_writer,
            caller_remote_crypto: media::suite_view(self.caller_remote_crypto),
            caller_local_crypto: media::suite_view(self.caller_local_crypto),
            callee_remote_crypto: media::suite_view(self.callee_remote_crypto),
            callee_local_crypto: media::suite_view(self.callee_local_crypto),
            caller_relay_port: self.caller_relay_port,
            callee_relay_port: self.callee_relay_port,
            relay_started: self.relay_started,
        }
    }
}

/// A message on its way to a connection.
#[derive(Debug)]
pub struct Outgoing {
    /// The channel to the connection.
    pub to: WriterId,
    /// The message.
    pub message: Vec<u8>,
}

/// What [`Outgoing`] holds.
pub struct OutgoingView {
    pub to: WriterId,
    pub message: Seq<u8>,
}

impl View for Outgoing {
    type V = OutgoingView;

    open spec fn view(&self) -> OutgoingView {
        OutgoingView { to: self.to, message: self.message@ }
    }
}

/// The view of an optional message.
pub open spec fn outgoing_view(outgoing: Option<Outgoing>) -> Option<OutgoingView> {
    match outgoing {
        Some(o) => Some(o@),
        None => None,
    }
}

/// The ports of a media relay.
#[derive(Debug, Clone, Copy)]
pub struct RelaySession {
    /// The port on the side of the caller.
    pub caller_port: u16,
    /// The port on the side of the callee.
    pub callee_port: u16,
}

/// The keys that the server announces to both parties.
#[derive(Debug)]
pub struct LocalKeys {
    /// Those announced to the caller.
    pub caller: SrtpCryptoSuite,
    /// Those announced to the callee.
    pub callee: SrtpCryptoSuite,
}

impl View for LocalKeys {
    type V = (Seq<char>, Seq<char>);

    open spec fn view(&self) -> (Seq<char>, Seq<char>) {
        (self.caller@, self.callee@)
    }
}

/// What has been decided for a call that is not yet forwarded.
#[derive(Debug)]
pub struct InvitePlan {
    /// The channel to the callee.
    pub callee_writer: WriterId,
    /// The media relay.
    pub session: RelaySession,
    /// The keys of the server, where the caller has offered SRTP.
    pub keys: Option<LocalKeys>,
}

/// What [`InvitePlan`] holds.
pub struct PlanView {
    pub callee_writer: WriterId,
    pub session: RelaySession,
    pub keys: Option<(Seq<char>, Seq<char>)>,
}

impl View for InvitePlan {
    type V = PlanView;

    open spec fn view(&self) -> PlanView {
        PlanView {
            callee_writer: self.callee_writer,
            session: self.session,
            keys: match self.keys {
                Some(keys) => Some(keys@),
                None => None,
            },
        }
    }
}

/// A session description to be rewritten: it gets the address and the port of the relay, and
/// the key where there is one.
#[derive(Debug)]
pub struct SdpRewrite {
    pub body: String,
    pub media_addr: String,
    pub port: u16,
    pub key: Option<String>,
}

/// What [`SdpRewrite`] holds.
pub struct SdpRewriteView {
    pub body: Seq<char>,
    pub media_addr: Seq<char>,
    pub port: u16,
    pub key: Option<Seq<char>>,
}

impl View for SdpRewrite {
    type V = SdpRewriteView;

    open spec fn view(&self) -> SdpRewriteView {
        SdpRewriteView {
            body: self.body@,
            media_addr: self.media_addr@,
            port: self.port,
            key: text::text_view(self.key),
        }
    }
}

// ---------------------------------------------------------------------------
// INVITE
// ---------------------------------------------------------------------------

/// What the router reads from an INVITE.
#[derive(Debug)]
pub struct InviteRequest {
    /// The whole message.
    pub text: String,
    /// The URI of the From header.
    pub from: Option<SipUri>,
    /// The request URI.
    pub request_uri: Option<SipUri>,
    /// The Call-ID.
    pub call_id: Option<String>,
    /// The tag of the From header.
    pub from_tag: Option<String>,
    /// The session description.
    pub body: Option<String>,
    /// The keys that the session description offers.
    pub body_crypto: Option<SrtpCryptoSuite>,
}

/// What [`InviteRequest`] holds.
pub struct InviteView {
    pub text: Seq<char>,
    pub from: Option<Option<Seq<char>>>,
    pub request_uri: Option<Option<Seq<char>>>,
    pub call_id: Option<Seq<char>>,
    pub from_tag: Option<Seq<char>>,
    pub body: Option<Seq<char>>,
    pub body_crypto: Option<Seq<char>>,
}

impl View for InviteRequest {
    type V = InviteView;

    open spec fn view(&self) -> InviteView {
        InviteView {
            text: self.text@,
            from: message::uri_view(self.from),
            request_uri: message::uri_view(self.request_uri),
            call_id: text::text_view(self.call_id),
            from_tag: text::text_view(self.from_tag),
            body: text::text_view(self.body),
            body_crypto: media::suite_view(self.body_crypto),
        }
    }
}

/// The extension of an optional URI; empty where there is none.
pub open spec fn extension_or_empty(uri: Option<Option<Seq<char>>>) -> Seq<char> {
    match uri {
        Some(extension) => text::or_empty(extension),
        None => Seq::empty(),
    }
}

impl InviteView {
    /// The Call-ID; empty where there is none.
    pub open spec fn id(self) -> Seq<char> {
        text::or_empty(self.call_id)
    }

    /// The extension of the caller; empty where there is none.
    pub open spec fn caller(self) -> Seq<char> {
        extension_or_empty(self.from)
    }

    /// The extension of the callee; empty where there is none.
    pub open spec fn callee(self) -> Seq<char> {
        extension_or_empty(self.request_uri)
    }
}

/// How far the handling of an INVITE has come, with the outcome of the last action.
#[derive(Debug)]
pub enum InviteStage {
    /// The INVITE has come.
    Received,
    /// A media relay was asked for.
    Allocated { callee_writer: WriterId, granted: Option<RelaySession> },
    /// Keys were generated.
    Keyed { callee_writer: WriterId, session: RelaySession, keys: LocalKeys },
    /// The session description was rewritten.
    Described { plan: InvitePlan, sdp: String },
    /// The INVITE was handed to the callee, or could not be.
    Delivered { delivered: bool },
}

/// What [`InviteStage`] holds.
pub enum InviteStageView {
    Received,
    Allocated { callee_writer: WriterId, granted: Option<RelaySession> },
    Keyed { callee_writer: WriterId, session: RelaySession, keys: (Seq<char>, Seq<char>) },
    Described { plan: PlanView, sdp: Seq<char> },
    Delivered { delivered: bool },
}

impl View for InviteStage {
    type V = InviteStageView;

    open spec fn view(&self) -> InviteStageView {
        match *self {
            InviteStage::Received => InviteStageView::Received,
            InviteStage::Allocated { callee_writer, granted } => InviteStageView::Allocated {
                callee_writer,
                granted,
            },
            InviteStage::Keyed { callee_writer, session, keys } => InviteStageView::Keyed {
                callee_writer,
                session,
                keys: keys@,
            },
            InviteStage::Described { plan, sdp } => InviteStageView::Described {
                plan: plan@,
                sdp: sdp@,
            },
            InviteStage::Delivered { delivered } => InviteStageView::Delivered { delivered },
        }
    }
}

/// What is to be done next for an INVITE.
#[derive(Debug)]
pub enum InviteAction {
    /// Answer the caller; the handling ends.
    Reply { response: Response },
    /// Ask for a media relay for the call.
    AllocateSession { callee_writer: WriterId },
    /// Generate keys for both parties.
    GenerateKeys { callee_writer: WriterId, session: RelaySession },
    /// Rewrite the session description.
    RewriteSdp { plan: InvitePlan, rewrite: SdpRewrite },
    /// Hand the INVITE to the callee.
    Forward { outgoing: Outgoing },
}

/// What [`InviteAction`] holds.
pub enum InviteActionView {
    Reply { response: message::ResponseView },
    AllocateSession { callee_writer: WriterId },
    GenerateKeys { callee_writer: WriterId, session: RelaySession },
    RewriteSdp { plan: PlanView, rewrite: SdpRewriteView },
    Forward { outgoing: OutgoingView },
}

impl View for InviteAction {
    type V = InviteActionView;

    open spec fn view(&self) -> InviteActionView {
        match *self {
            InviteAction::Reply { response } => InviteActionView::Reply { response: response@ },
            InviteAction::AllocateSession { callee_writer } => InviteActionView::AllocateSession {
                callee_writer,
            },
            InviteAction::GenerateKeys { callee_writer, session } =>
                InviteActionView::GenerateKeys { callee_writer, session },
            InviteAction::RewriteSdp { plan, rewrite } => InviteActionView::RewriteSdp {
                plan: plan@,
                rewrite: rewrite@,
            },
            InviteAction::Forward { outgoing } => InviteActionView::Forward {
                outgoing: outgoing@,
            },
        }
    }
}

/// A step in the handling of an INVITE.
#[derive(Debug)]
pub struct InviteStep {
    /// Whether the media relay of the call is to be given back, before anything else.
    pub release: bool,
    /// What is to be done next.
    pub action: InviteAction,
}

/// What [`InviteStep`] holds.
pub struct InviteStepView {
    pub release: bool,
    pub action: InviteActionView,
}

impl View for InviteStep {
    type V = InviteStepView;

    open spec fn view(&self) -> InviteStepView {
        InviteStepView { release: self.release, action: self.action@ }
    }
}

// ---------------------------------------------------------------------------
// Responses of the callee
// ---------------------------------------------------------------------------

/// What the router reads from a response of the callee.
#[derive(Debug)]
pub struct CalleeResponse {
    /// The whole message.
    pub text: String,
    /// The Call-ID.
    pub call_id: Option<String>,
    /// The status code.
    pub status: Option<u16>,
    /// The tag of the To header.
    pub to_tag: Option<String>,
    /// The session description.
    pub body: Option<String>,
    /// The keys that the session description answers.
    pub body_crypto: Option<SrtpCryptoSuite>,
}

/// What [`CalleeResponse`] holds.
pub struct CalleeResponseView {
    pub text: Seq<char>,
    pub call_id: Option<Seq<char>>,
    pub status: Option<u16>,
    pub to_tag: Option<Seq<char>>,
    pub body: Option<Seq<char>>,
    pub body_crypto: Option<Seq<char>>,
}

impl View for CalleeResponse {
    type V = CalleeResponseView;

    open spec fn view(&self) -> CalleeResponseView {
        CalleeResponseView {
            text: self.text@,
            call_id: text::text_view(self.call_id),
            status: self.status,
            to_tag: text::text_view(self.to_tag),
            body: text::text_view(self.body),
            body_crypto: media::suite_view(self.body_crypto),
        }
    }
}

/// What a response needs from its call to be forwarded.
#[derive(Debug)]
pub struct Forwarding {
    /// The channel to the caller.
    pub caller_writer: WriterId,
    /// The INVITE of the caller.
    pub original_invite: String,
    /// The extension of the callee.
    pub callee_ext: String,
}

/// What [`Forwarding`] holds.
pub struct ForwardingView {
    pub caller_writer: WriterId,
    pub original_invite: Seq<char>,
    pub callee_ext: Seq<char>,
}

impl View for Forwarding {
    type V = ForwardingView;

    open spec fn view(&self) -> ForwardingView {
        ForwardingView {
            caller_writer: self.caller_writer,
            original_invite: self.original_invite@,
            callee_ext: self.callee_ext@,
        }
    }
}

/// How far the handling of a response has come, with the outcome of the last action.
#[derive(Debug)]
pub enum ResponseStage {
    /// The response has come.
    Received,
    /// The session description was rewritten.
    Described { forwarding: Forwarding, sdp: String },
    /// The response was handed to the caller, or could not be.
    Delivered,
}

/// What [`ResponseStage`] holds.
pub enum ResponseStageView {
    Received,
    Described { forwarding: ForwardingView, sdp: Seq<char> },
    Delivered,
}

impl View for ResponseStage {
    type V = ResponseStageView;

    open spec fn view(&self) -> ResponseStageView {
        match *self {
            ResponseStage::Received => ResponseStageView::Received,
            ResponseStage::Described { forwarding, sdp } => ResponseStageView::Described {
                forwarding: forwarding@,
                sdp: sdp@,
            },
            ResponseStage::Delivered => ResponseStageView::Delivered,
        }
    }
}

/// The media relay of a call, ready to be started.
#[derive(Debug)]
pub struct RelayPlan {
    pub call_id: String,
    pub media_addr: String,
    pub caller_port: u16,
    pub callee_port: u16,
    /// What the caller sends is decrypted with these.
    pub caller_decrypt: Option<SrtpCryptoSuite>,
    /// What the callee gets is encrypted with these.
    pub callee_encrypt: Option<SrtpCryptoSuite>,
    /// What the callee sends is decrypted with these.
    pub callee_decrypt: Option<SrtpCryptoSuite>,
    /// What the caller gets is encrypted with these.
    pub caller_encrypt: Option<SrtpCryptoSuite>,
}

/// What [`RelayPlan`] holds.
pub struct RelayPlanView {
    pub call_id: Seq<char>,
    pub media_addr: Seq<char>,
    pub caller_port: u16,
    pub callee_port: u16,
    pub caller_decrypt: Option<Seq<char>>,
    pub callee_encrypt: Option<Seq<char>>,
    pub callee_decrypt: Option<Seq<char>>,
    pub caller_encrypt: Option<Seq<char>>,
}

impl View for RelayPlan {
    type V = RelayPlanView;

    open spec fn view(&self) -> RelayPlanView {
        RelayPlanView {
            call_id: self.call_id@,
            media_addr: self.media_addr@,
            caller_port: self.caller_port,
            callee_port: self.callee_port,
            caller_decrypt: media::suite_view(self.caller_decrypt),
            callee_encrypt: media::suite_view(self.callee_encrypt),
            callee_decrypt: media::suite_view(self.callee_decrypt),
            caller_encrypt: media::suite_view(self.caller_encrypt),
        }
    }
}

/// The view of an optional relay plan.
pub open spec fn relay_view(plan: Option<RelayPlan>) -> Option<RelayPlanView> {
    match plan {
        Some(p) => Some(p@),
        None => None,
    }
}

/// What is to be done next for a response of the callee.
#[derive(Debug)]
pub enum ResponseAction {
    /// Nothing: the response belongs to no call.
    Ignore,
    /// Rewrite the session description.
    RewriteSdp { forwarding: Forwarding, rewrite: SdpRewrite },
    /// Hand the response to the caller.
    Forward { outgoing: Outgoing },
    /// Give back the media relay of the call, or start it; the handling ends.
    Finish { release: bool, relay: Option<RelayPlan> },
}

/// What [`ResponseAction`] holds.
pub enum ResponseActionView {
    Ignore,
    RewriteSdp { forwarding: ForwardingView, rewrite: SdpRewriteView },
    Forward { outgoing: OutgoingView },
    Finish { release: bool, relay: Option<RelayPlanView> },
}

impl View for ResponseAction {
    type V = ResponseActionView;

    open spec fn view(&self) -> ResponseActionView {
        match *self {
            ResponseAction::Ignore => ResponseActionView::Ignore,
            ResponseAction::RewriteSdp { forwarding, rewrite } => ResponseActionView::RewriteSdp {
                forwarding: forwarding@,
                rewrite: rewrite@,
            },
            ResponseAction::Forward { outgoing } => ResponseActionView::Forward {
                outgoing: outgoing@,
            },
            ResponseAction::Finish { release, relay } => ResponseActionView::Finish {
                release,
                relay: relay_view(relay),
            },
        }
    }
}

// ---------------------------------------------------------------------------
// Requests within a call
// ---------------------------------------------------------------------------

/// What the router reads from an ACK, a BYE or a CANCEL.
#[derive(Debug)]
pub struct DialogRequest {
    /// The whole message.
    pub text: String,
    /// The Call-ID.
    pub call_id: Option<String>,
}

/// What [`DialogRequest`] holds.
pub struct DialogView {
    pub text: Seq<char>,
    pub call_id: Option<Seq<char>>,
}

impl View for DialogRequest {
    type V = DialogView;

    open spec fn view(&self) -> DialogView {
        DialogView { text: self.text@, call_id: text::text_view(self.call_id) }
    }
}

/// How far the handling of a BYE has come.
#[derive(Debug, Clone, Copy)]
pub enum ByeStage {
    /// The BYE has come.
    Received,
    /// It was handed to the other party, or could not be.
    Forwarded,
}

/// What is to be done next for a BYE.
#[derive(Debug)]
pub enum ByeAction {
    /// Hand the BYE to the other party.
    Forward { outgoing: Outgoing },
    /// Give back the media relay of the call where `release` says so, and answer; the handling
    /// ends.
    Reply { release: bool, response: Response },
}

/// What [`ByeAction`] holds.
pub enum ByeActionView {
    Forward { outgoing: OutgoingView },
    Reply { release: bool, response: message::ResponseView },
}

impl View for ByeAction {
    type V = ByeActionView;

    open spec fn view(&self) -> ByeActionView {
        match *self {
            ByeAction::Forward { outgoing } => ByeActionView::Forward { outgoing: outgoing@ },
            ByeAction::Reply { release, response } => ByeActionView::Reply {
                release,
                response: response@,
            },
        }
    }
}

/// How far the handling of a CANCEL has come.
#[derive(Debug)]
pub enum CancelStage {
    /// The CANCEL has come.
    Received,
    /// It was handed to the callee, or could not be.
    Forwarded { original_invite: String },
    /// The caller was told that its INVITE is over, or could not be.
    Notified,
}

/// What [`CancelStage`] holds.
pub enum CancelStageView {
    Received,
    Forwarded { original_invite: Seq<char> },
    Notified,
}

impl View for CancelStage {
    type V = CancelStageView;

    open spec fn view(&self) -> CancelStageView {
        match *self {
            CancelStage::Received => CancelStageView::Received,
            CancelStage::Forwarded { original_invite } => CancelStageView::Forwarded {
                original_invite: original_invite@,
            },
            CancelStage::Notified => CancelStageView::Notified,
        }
    }
}

/// What is to be done next for a CANCEL.
#[derive(Debug)]
pub enum CancelAction {
    /// Hand the CANCEL to the callee.
    Forward { outgoing: Outgoing, original_invite: String },
    /// Answer the INVITE `request` of the caller, on its channel.
    Notify { to: WriterId, request: String, response: Response },
    /// Give back the media relay of the call where `release` says so, and answer the CANCEL;
    /// the handling ends.
    Reply { release: bool, response: Response },
}

/// What [`CancelAction`] holds.
pub enum CancelActionView {
    Forward { outgoing: OutgoingView, original_invite: Seq<char> },
    Notify { to: WriterId, request: Seq<char>, response: message::ResponseView },
    Reply { release: bool, response: message::ResponseView },
}

impl View for CancelAction {
    type V = CancelActionView;

    open spec fn view(&self) -> CancelActionView {
        match *self {
            CancelAction::Forward { outgoing, original_invite } => CancelActionView::Forward {
                outgoing: outgoing@,
                original_invite: original_invite@,
            },
            CancelAction::Notify { to, request, response } => CancelActionView::Notify {
                to,
                request: request@,
                response: response@,
            },
            CancelAction::Reply { release, response } => CancelActionView::Reply {
                release,
                response: response@,
            },
        }
    }
}

} // verus!
