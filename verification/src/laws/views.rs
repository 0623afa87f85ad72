//! Views: what the contracts speak of is what the values hold.

use crate::sip::call;
use crate::sip::digest;
use crate::sip::media;
use crate::sip::message;
use crate::sip::registrar;
use crate::sip::transaction;
use crate::text;
use crate::tls;
use vstd::prelude::*;

verus! {

/// An optional text shows its characters where there is one; the text of none is empty.
pub proof fn law_optional_texts(text: String, slice: &str, value: Seq<char>, list: Seq<String>)
    ensures
        text::text_view(Some(text)) == Some(text@),
        text::text_view(None) is None,
        text::str_view(Some(slice)) == Some(slice@),
        text::str_view(None) is None,
        text::or_empty(Some(value)) == value,
        text::or_empty(None).len() == 0,
        text::views(list).len() == list.len(),
        forall|i: int| 0 <= i < list.len() ==> #[trigger] text::views(list)[i] == list[i]@,
{
}

/// What is shown of a call is what it holds.
pub proof fn law_call_is_shown(info: call::CallInfo)
    ensures
        info@.call_id == info.call_id@,
        info@.caller_ext == info.caller_ext@,
        info@.callee_ext == info.callee_ext@,
        info@.caller_tag == info.caller_tag@,
        info@.callee_tag == (match info.callee_tag {
            Some(shown) => Some(shown@),
            None => None,
        }),
        info@.state == info.state,
        info@.original_invite == info.original_invite@,
        info@.caller_writer == info.caller_writer,
        info@.callee_writer == info.callee_writer,
        info@.caller_remote_crypto == (match info.caller_remote_crypto {
            Some(shown) => Some(shown.sdes@),
            None => None,
        }),
        info@.caller_local_crypto == (match info.caller_local_crypto {
            Some(shown) => Some(shown.sdes@),
            None => None,
        }),
        info@.callee_remote_crypto == (match info.callee_remote_crypto {
            Some(shown) => Some(shown.sdes@),
            None => None,
        }),
        info@.callee_local_crypto == (match info.callee_local_crypto {
            Some(shown) => Some(shown.sdes@),
            None => None,
        }),
        info@.caller_relay_port == info.caller_relay_port,
        info@.callee_relay_port == info.callee_relay_port,
        info@.relay_started == info.relay_started,
{
}

/// What is shown of an INVITE is what was read from it.
pub proof fn law_invite_is_shown(invite: call::InviteRequest)
    ensures
        invite@.text == invite.text@,
        invite@.from == (match invite.from {
            Some(uri) => Some(
                match uri.extension {
                    Some(shown) => Some(shown@),
                    None => None,
                },
            ),
            None => None,
        }),
        invite@.request_uri == (match invite.request_uri {
            Some(uri) => Some(
                match uri.extension {
                    Some(shown) => Some(shown@),
                    None => None,
                },
            ),
            None => None,
        }),
        invite@.call_id == (match invite.call_id {
            Some(shown) => Some(shown@),
            None => None,
        }),
        invite@.from_tag == (match invite.from_tag {
            Some(shown) => Some(shown@),
            None => None,
        }),
        invite@.body == (match invite.body {
            Some(shown) => Some(shown@),
            None => None,
        }),
        invite@.body_crypto == (match invite.body_crypto {
            Some(shown) => Some(shown.sdes@),
            None => None,
        }),
{
}

/// What is shown of a response of the callee is what was read from it.
pub proof fn law_response_is_shown(response: call::CalleeResponse)
    ensures
        response@.text == response.text@,
        response@.call_id == (match response.call_id {
            Some(shown) => Some(shown@),
            None => None,
        }),
        response@.status == response.status,
        response@.to_tag == (match response.to_tag {
            Some(shown) => Some(shown@),
            None => None,
        }),
        response@.body == (match response.body {
            Some(shown) => Some(shown@),
            None => None,
        }),
        response@.body_crypto == (match response.body_crypto {
            Some(shown) => Some(shown.sdes@),
            None => None,
        }),
{
}

/// What is shown of a request within a call is what was read from it.
pub proof fn law_request_is_shown(request: call::DialogRequest)
    ensures
        request@.text == request.text@,
        request@.call_id == (match request.call_id {
            Some(shown) => Some(shown@),
            None => None,
        }),
{
}

/// What is shown of the pieces that one step hands to the next is what they hold.
pub proof fn law_pieces_are_shown(
    outgoing: call::Outgoing,
    keys: call::LocalKeys,
    plan: call::InvitePlan,
    rewrite: call::SdpRewrite,
    forwarding: call::Forwarding,
)
    ensures
        outgoing@.to == outgoing.to,
        outgoing@.message == outgoing.message@,
        call::outgoing_view(Some(outgoing)) == Some(outgoing@),
        call::outgoing_view(None) is None,
        keys@.0 == keys.caller.sdes@,
        keys@.1 == keys.callee.sdes@,
        plan@.callee_writer == plan.callee_writer,
        plan@.session == plan.session,
        plan@.keys == (match plan.keys {
            Some(shown) => Some((shown.caller.sdes@, shown.callee.sdes@)),
            None => None,
        }),
        rewrite@.body == rewrite.body@,
        rewrite@.media_addr == rewrite.media_addr@,
        rewrite@.port == rewrite.port,
        rewrite@.key == (match rewrite.key {
            Some(shown) => Some(shown@),
            None => None,
        }),
        forwarding@.caller_writer == forwarding.caller_writer,
        forwarding@.original_invite == forwarding.original_invite@,
        forwarding@.callee_ext == forwarding.callee_ext@,
{
}

/// What is shown of a relay to be started is what it holds.
pub proof fn law_relay_is_shown(plan: call::RelayPlan)
    ensures
        plan@.call_id == plan.call_id@,
        plan@.media_addr == plan.media_addr@,
        plan@.caller_port == plan.caller_port,
        plan@.callee_port == plan.callee_port,
        plan@.caller_decrypt == (match plan.caller_decrypt {
            Some(shown) => Some(shown.sdes@),
            None => None,
        }),
        plan@.callee_encrypt == (match plan.callee_encrypt {
            Some(shown) => Some(shown.sdes@),
            None => None,
        }),
        plan@.callee_decrypt == (match plan.callee_decrypt {
            Some(shown) => Some(shown.sdes@),
            None => None,
        }),
        plan@.caller_encrypt == (match plan.caller_encrypt {
            Some(shown) => Some(shown.sdes@),
            None => None,
        }),
        call::relay_view(Some(plan)) == Some(plan@),
        call::relay_view(None) is None,
{
}

/// What is shown of a stage in the handling of an INVITE is what it holds.
pub proof fn law_invite_stage_is_shown(stage: call::InviteStage)
    ensures
        stage is Received ==> stage@ is Received,
        stage matches call::InviteStage::Allocated { callee_writer, granted } ==> stage@ == (
        call::InviteStageView::Allocated { callee_writer, granted }),
        stage matches call::InviteStage::Keyed { callee_writer, session, keys } ==> stage@ == (
        call::InviteStageView::Keyed {
            callee_writer,
            session,
            keys: (keys.caller.sdes@, keys.callee.sdes@),
        }),
        stage matches call::InviteStage::Described { plan, sdp } ==> stage@ == (
        call::InviteStageView::Described { plan: plan@, sdp: sdp@ }),
        stage matches call::InviteStage::Delivered { delivered } ==> stage@ == (
        call::InviteStageView::Delivered { delivered }),
{
}

/// What is shown of an action for an INVITE is what it holds.
pub proof fn law_invite_action_is_shown(step: call::InviteStep)
    ensures
        step@.release == step.release,
        step.action matches call::InviteAction::Reply { response } ==> step@.action == (
        call::InviteActionView::Reply { response: response@ }),
        step.action matches call::InviteAction::AllocateSession { callee_writer } ==> step@.action
            == (call::InviteActionView::AllocateSession { callee_writer }),
        step.action matches call::InviteAction::GenerateKeys { callee_writer, session }
            ==> step@.action == (call::InviteActionView::GenerateKeys { callee_writer, session }),
        step.action matches call::InviteAction::RewriteSdp { plan, rewrite } ==> step@.action == (
        call::InviteActionView::RewriteSdp { plan: plan@, rewrite: rewrite@ }),
        step.action matches call::InviteAction::Forward { outgoing } ==> step@.action == (
        call::InviteActionView::Forward { outgoing: outgoing@ }),
{
}

/// What is shown of a stage and of an action in the handling of a response is what they hold.
pub proof fn law_response_step_is_shown(stage: call::ResponseStage, action: call::ResponseAction)
    ensures
        stage is Received ==> stage@ is Received,
        stage matches call::ResponseStage::Described { forwarding, sdp } ==> stage@ == (
        call::ResponseStageView::Described { forwarding: forwarding@, sdp: sdp@ }),
        stage is Delivered ==> stage@ is Delivered,
        action is Ignore ==> action@ is Ignore,
        action matches call::ResponseAction::RewriteSdp { forwarding, rewrite } ==> action@ == (
        call::ResponseActionView::RewriteSdp { forwarding: forwarding@, rewrite: rewrite@ }),
        action matches call::ResponseAction::Forward { outgoing } ==> action@ == (
        call::ResponseActionView::Forward { outgoing: outgoing@ }),
        action matches call::ResponseAction::Finish { release, relay } ==> action@ == (
        call::ResponseActionView::Finish {
            release,
            relay: match relay {
                Some(plan) => Some(plan@),
                None => None,
            },
        }),
{
}

/// What is shown of a stage and of an action for a BYE or a CANCEL is what they hold.
pub proof fn law_ending_is_shown(
    bye: call::ByeAction,
    stage: call::CancelStage,
    cancel: call::CancelAction,
)
    ensures
        bye matches call::ByeAction::Forward { outgoing } ==> bye@ == (
        call::ByeActionView::Forward { outgoing: outgoing@ }),
        bye matches call::ByeAction::Reply { release, response } ==> bye@ == (
        call::ByeActionView::Reply { release, response: response@ }),
        stage is Received ==> stage@ is Received,
        stage matches call::CancelStage::Forwarded { original_invite } ==> stage@ == (
        call::CancelStageView::Forwarded { original_invite: original_invite@ }),
        stage is Notified ==> stage@ is Notified,
        cancel matches call::CancelAction::Forward { outgoing, original_invite } ==> cancel@ == (
        call::CancelActionView::Forward {
            outgoing: outgoing@,
            original_invite: original_invite@,
        }),
        cancel matches call::CancelAction::Notify { to, request, response } ==> cancel@ == (
        call::CancelActionView::Notify { to, request: request@, response: response@ }),
        cancel matches call::CancelAction::Reply { release, response } ==> cancel@ == (
        call::CancelActionView::Reply { release, response: response@ }),
{
}

/// What is shown of an answer is its status, its reason and its headers, in their order; one
/// without added headers has none.
pub proof fn law_answer_is_shown(answer: message::Response, status: u16, reason: Seq<char>)
    ensures
        answer@.status == answer.status,
        answer@.reason == answer.reason@,
        answer@.headers.len() == answer.headers@.len(),
        forall|i: int|
            0 <= i < answer.headers@.len() ==> #[trigger] answer@.headers[i] == (
                answer.headers@[i].name@,
                answer.headers@[i].value@,
            ),
        message::plain(status, reason).status == status,
        message::plain(status, reason).reason == reason,
        message::plain(status, reason).headers.len() == 0,
{
}

/// What is shown of a registration is what it holds.
pub proof fn law_registration_is_shown(registration: registrar::Registration)
    ensures
        registration@.extension == registration.extension@,
        registration@.contact == registration.contact@,
        registration@.expires_at == registration.expires_at,
        registration@.transport_addr == registration.transport_addr@,
        registrar::registration_view(Some(registration)) == Some(registration@),
        registrar::registration_view(None) is None,
{
}

/// What is shown of a REGISTER request is what was read from it.
pub proof fn law_register_is_shown(request: registrar::RegisterRequest)
    ensures
        request@.to == (match request.to {
            Some(uri) => Some(
                match uri.extension {
                    Some(shown) => Some(shown@),
                    None => None,
                },
            ),
            None => None,
        }),
        request@.from == (match request.from {
            Some(uri) => Some(
                match uri.extension {
                    Some(shown) => Some(shown@),
                    None => None,
                },
            ),
            None => None,
        }),
        request@.authorization == (match request.authorization {
            Some(shown) => Some(shown@),
            None => None,
        }),
        request@.expires == request.expires,
        request@.contact_uri == (match request.contact_uri {
            Some(shown) => Some(shown@),
            None => None,
        }),
{
}

/// What is shown of a verdict is what it says.
pub proof fn law_verdict_is_shown(verdict: registrar::Verdict)
    ensures
        verdict is Malformed ==> verdict@ is Malformed,
        verdict is Forbidden ==> verdict@ is Forbidden,
        verdict is Challenged ==> verdict@ is Challenged,
        verdict matches registrar::Verdict::Unregistered { extension } ==> verdict@ == (
        registrar::VerdictView::Unregistered { extension: extension@ }),
        verdict matches registrar::Verdict::Registered { extension, contact, expires } ==> verdict@
            == (registrar::VerdictView::Registered {
            extension: extension@,
            contact: contact@,
            expires,
        }),
{
}

/// What is shown of the parameters of an Authorization header is what they hold.
pub proof fn law_parameters_are_shown(params: digest::DigestParams)
    ensures
        params@.username == params.username@,
        params@.realm == params.realm@,
        params@.nonce == params.nonce@,
        params@.uri == params.uri@,
        params@.response == params.response@,
        params@.qop == (match params.qop {
            Some(shown) => Some(shown@),
            None => None,
        }),
        params@.nc == (match params.nc {
            Some(shown) => Some(shown@),
            None => None,
        }),
        params@.cnonce == (match params.cnonce {
            Some(shown) => Some(shown@),
            None => None,
        }),
{
}

/// What is shown of a transaction is what it holds.
pub proof fn law_transaction_is_shown(transaction: transaction::Transaction)
    ensures
        transaction@.branch == transaction.branch@,
        transaction@.method == transaction.method@,
        transaction@.call_id == transaction.call_id@,
        transaction@.created_at == transaction.created_at,
        transaction@.state == transaction.state,
{
}

/// What is shown of keys is the attribute that announces them.
pub proof fn law_keys_are_shown(suite: media::SrtpCryptoSuite)
    ensures
        suite@ == suite.sdes@,
        media::suite_view(Some(suite)) == Some(suite.sdes@),
        media::suite_view(None) is None,
{
}

/// What is shown of certificates that were read is each of them, in their order; of those that
/// could not be read, why.
pub proof fn law_certificates_are_shown(certs: Vec<Vec<u8>>, error: tls::TlsError, message: String)
    ensures
        tls::der_views(certs@).len() == certs@.len(),
        forall|i: int|
            0 <= i < certs@.len() ==> #[trigger] tls::der_views(certs@)[i] == certs@[i]@,
        tls::certs_view(Ok(certs)) == Ok::<Seq<Seq<u8>>, Seq<char>>(tls::der_views(certs@)),
        tls::certs_view(Err(message)) == Err::<Seq<Seq<u8>>, Seq<char>>(message@),
        tls::chain_view(Ok(certs)) == Ok::<Seq<Seq<u8>>, tls::TlsErrorView>(
            tls::der_views(certs@),
        ),
        tls::chain_view(Err(error)) == Err::<Seq<Seq<u8>>, tls::TlsErrorView>(error@),
{
}

/// What is shown of a key that was read is its kind and its bytes; of one that could not be read,
/// why.
pub proof fn law_private_key_is_shown(key: tls::PrivateKey, error: tls::TlsError, message: String)
    ensures
        key matches tls::PrivateKey::Pkcs1 { der } ==> key@ == (tls::PrivateKeyView::Pkcs1 {
            der: der@,
        }),
        key matches tls::PrivateKey::Sec1 { der } ==> key@ == (tls::PrivateKeyView::Sec1 {
            der: der@,
        }),
        key matches tls::PrivateKey::Pkcs8 { der } ==> key@ == (tls::PrivateKeyView::Pkcs8 {
            der: der@,
        }),
        tls::key_view(Ok(Some(key))) == Ok::<Option<tls::PrivateKeyView>, Seq<char>>(Some(key@)),
        tls::key_view(Ok(None)) == Ok::<Option<tls::PrivateKeyView>, Seq<char>>(None),
        tls::key_view(Err(message)) == Err::<Option<tls::PrivateKeyView>, Seq<char>>(message@),
        tls::private_key_view(Ok(key)) == Ok::<tls::PrivateKeyView, tls::TlsErrorView>(key@),
        tls::private_key_view(Err(error)) == Err::<tls::PrivateKeyView, tls::TlsErrorView>(error@),
{
}

/// What is shown of an error with certificates and keys is its kind and its message.
pub proof fn law_tls_error_is_shown(error: tls::TlsError)
    ensures
        error matches tls::TlsError::CertificatePem { message } ==> error@ == (
        tls::TlsErrorView::CertificatePem { message: message@ }),
        error is NoCertificate ==> error@ is NoCertificate,
        error matches tls::TlsError::KeyPem { message } ==> error@ == (
        tls::TlsErrorView::KeyPem { message: message@ }),
        error is NoKey ==> error@ is NoKey,
        error matches tls::TlsError::Acceptor { message } ==> error@ == (
        tls::TlsErrorView::Acceptor { message: message@ }),
        error matches tls::TlsError::HostName { message } ==> error@ == (
        tls::TlsErrorView::HostName { message: message@ }),
        error matches tls::TlsError::KeyPair { message } ==> error@ == (
        tls::TlsErrorView::KeyPair { message: message@ }),
        error matches tls::TlsError::Signing { message } ==> error@ == (
        tls::TlsErrorView::Signing { message: message@ }),
        error is Clock ==> error@ is Clock,
{
}

/// What is shown of the record of an expiry is what is written.
pub proof fn law_expiry_record_is_shown(record: tls::ExpiryRecord)
    ensures
        record is Skip ==> record@ is Skip,
        record is OutOfRange ==> record@ is OutOfRange,
        record matches tls::ExpiryRecord::Write { text: written } ==> record@ == (
        tls::ExpiryRecordView::Write { text: written@ }),
{
}

/// What is shown of a certificate that is asked for is what it is to say.
pub proof fn law_certificate_request_is_shown(request: tls::CertificateRequest)
    ensures
        request@.names.len() == request.names@.len(),
        forall|i: int|
            0 <= i < request.names@.len() ==> #[trigger] request@.names[i] == request.names@[i]@,
        request@.common_name == request.common_name@,
        request@.organization == request.organization@,
        request@.not_before == request.not_before,
        request@.not_after == request.not_after,
{
}

} // verus!
