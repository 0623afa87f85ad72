//! Registration: who gets in, who is found, and for how long.

use crate::number;
use crate::sip::digest;
use crate::sip::message;
use crate::sip::registrar::{self, RegistrarView, RegisterView};
use vstd::prelude::*;

verus! {

/// A request that is not answered with 200 changes nothing.
pub proof fn law_refusal_changes_nothing(
    before: RegistrarView,
    request: RegisterView,
    from_addr: Seq<char>,
    nonce: Seq<char>,
    now: u64,
    after: RegistrarView,
    response: message::ResponseView,
)
    requires
        before.registers(request, from_addr, nonce, now, after, response),
        response.status != 200,
    ensures
        after == before,
{
}

/// Whether a request names an extension in the range, and carries an Authorization header that
/// can be read and whose response fits the password of that extension.
pub open spec fn entitled(registrar: RegistrarView, request: RegisterView) -> bool {
    match (request.extension(), request.authorization) {
        (Some(extension), Some(header)) => match digest::authorization(header) {
            Some(params) => registrar.in_range(extension) && registrar.authentic(extension, params),
            None => false,
        },
        _ => false,
    }
}

/// The answer is 200 if and only if the request names an extension in the range, and carries an
/// Authorization header that can be read and whose response fits the password of that extension.
pub proof fn law_only_the_password_registers(
    before: RegistrarView,
    request: RegisterView,
    from_addr: Seq<char>,
    nonce: Seq<char>,
    now: u64,
    after: RegistrarView,
    response: message::ResponseView,
)
    requires
        before.registers(request, from_addr, nonce, now, after, response),
    ensures
        response.status == 200 <==> entitled(before, request),
{
}

/// A request for an extension in the range without an Authorization header is answered 401,
/// with a challenge for the realm of the server and the nonce; nothing changes.
pub proof fn law_unauthenticated_is_challenged(
    before: RegistrarView,
    request: RegisterView,
    from_addr: Seq<char>,
    nonce: Seq<char>,
    now: u64,
    after: RegistrarView,
    response: message::ResponseView,
)
    requires
        before.registers(request, from_addr, nonce, now, after, response),
        request.extension() matches Some(extension) && before.in_range(extension),
        request.authorization is None,
    ensures
        response.status == 401,
        response.headers == seq![("WWW-Authenticate"@, before.challenge(nonce))],
        after == before,
{
}

/// A request for an extension outside the range is answered 403, whatever else it says.
pub proof fn law_out_of_range_is_forbidden(
    before: RegistrarView,
    request: RegisterView,
    from_addr: Seq<char>,
    nonce: Seq<char>,
    now: u64,
    after: RegistrarView,
    response: message::ResponseView,
)
    requires
        before.registers(request, from_addr, nonce, now, after, response),
        request.extension() matches Some(extension) && !before.in_range(extension),
    ensures
        response.status == 403,
        after == before,
{
}

/// An extension that registers is found under its contact and address until its lifetime is
/// over, and not after.
pub proof fn law_registered_until_expiry(
    before: RegistrarView,
    request: RegisterView,
    from_addr: Seq<char>,
    nonce: Seq<char>,
    now: u64,
    after: RegistrarView,
    response: message::ResponseView,
    extension: Seq<char>,
    time: u64,
)
    requires
        before.registers(request, from_addr, nonce, now, after, response),
        response.status == 200,
        request.extension() == Some(extension),
        request.lifetime() > 0,
    ensures
        time < now + request.lifetime() ==> (after.current(extension, time) matches Some(found)
            && found.extension == extension && found.contact == request.contact(
            extension,
            from_addr,
        ) && found.transport_addr == from_addr && found.expires_at == now + request.lifetime()),
        time >= now + request.lifetime() ==> after.current(extension, time) is None,
{
}

/// An extension that asks for the lifetime 0 is not found any more.
pub proof fn law_zero_lifetime_unregisters(
    before: RegistrarView,
    request: RegisterView,
    from_addr: Seq<char>,
    nonce: Seq<char>,
    now: u64,
    after: RegistrarView,
    response: message::ResponseView,
    extension: Seq<char>,
    time: u64,
)
    requires
        before.registers(request, from_addr, nonce, now, after, response),
        response.status == 200,
        request.extension() == Some(extension),
        request.lifetime() == 0,
    ensures
        after.current(extension, time) is None,
{
}

/// A request touches no extension but the one that it names.
pub proof fn law_others_are_untouched(
    before: RegistrarView,
    request: RegisterView,
    from_addr: Seq<char>,
    nonce: Seq<char>,
    now: u64,
    after: RegistrarView,
    response: message::ResponseView,
    other: Seq<char>,
    time: u64,
)
    requires
        before.registers(request, from_addr, nonce, now, after, response),
        request.extension() != Some(other),
    ensures
        after.current(other, time) == before.current(other, time),
{
}

/// No request changes the domain, the passwords or the range.
pub proof fn law_configuration_is_kept(
    before: RegistrarView,
    request: RegisterView,
    from_addr: Seq<char>,
    nonce: Seq<char>,
    now: u64,
    after: RegistrarView,
    response: message::ResponseView,
)
    requires
        before.registers(request, from_addr, nonce, now, after, response),
    ensures
        after == (RegistrarView { registrations: after.registrations, ..before }),
{
}

/// Cleaning up takes nothing away that could still be found.
pub proof fn law_cleanup_is_invisible(
    registrar: RegistrarView,
    now: u64,
    extension: Seq<char>,
    time: u64,
)
    requires
        now <= time,
    ensures
        registrar.without_expired(now).current(extension, time) == registrar.current(
            extension,
            time,
        ),
{
}

/// After a cleanup the registrations are those that are found, and cleaning up again at the same
/// time changes nothing.
pub proof fn law_cleanup_leaves_what_is_online(registrar: RegistrarView, now: u64)
    ensures
        forall|extension: Seq<char>| #[trigger]
            registrar.without_expired(now).registrations.dom().contains(extension)
                <==> registrar.current(extension, now) is Some,
        registrar.without_expired(now).without_expired(now) == registrar.without_expired(now),
{
    assert(registrar.without_expired(now).without_expired(now) =~= registrar.without_expired(now));
}

/// An extension with a password of its own is held to that one, every other to the default one.
/// Where the list names an extension more than once, the last password counts.
pub proof fn law_own_password_goes_first(
    registrar: RegistrarView,
    list: Seq<(String, String)>,
    extension: Seq<char>,
)
    requires
        registrar.passwords == registrar::password_map(list),
    ensures
        forall|i: int|
            0 <= i < list.len() && (#[trigger] list[i]).0@ == extension && (forall|j: int|
                i < j < list.len() ==> (#[trigger] list[j]).0@ != extension)
                ==> registrar.password(extension) == list[i].1@,
        (forall|i: int| 0 <= i < list.len() ==> (#[trigger] list[i]).0@ != extension)
            ==> registrar.password(extension) == registrar.default_password,
{
    lemma_password_map(list, extension);
}

/// What the list says of an extension.
proof fn lemma_password_map(list: Seq<(String, String)>, extension: Seq<char>)
    ensures
        forall|i: int|
            0 <= i < list.len() && (#[trigger] list[i]).0@ == extension && (forall|j: int|
                i < j < list.len() ==> (#[trigger] list[j]).0@ != extension)
                ==> registrar::password_map(list).dom().contains(extension)
                && registrar::password_map(list)[extension] == list[i].1@,
        (forall|i: int| 0 <= i < list.len() ==> (#[trigger] list[i]).0@ != extension)
            ==> !registrar::password_map(list).dom().contains(extension),
    decreases list.len(),
{
    if list.len() > 0 {
        let shorter = list.drop_last();
        lemma_password_map(shorter, extension);
        assert forall|i: int|
            0 <= i < list.len() && (#[trigger] list[i]).0@ == extension && (forall|j: int|
                i < j < list.len() ==> (#[trigger] list[j]).0@ != extension) implies {
            &&& registrar::password_map(list).dom().contains(extension)
            &&& registrar::password_map(list)[extension] == list[i].1@
        } by {
            if i < list.len() - 1 {
                assert(list[list.len() - 1].0@ != extension);
                assert(shorter[i] == list[i]);
                assert forall|j: int| i < j < shorter.len() implies (
                #[trigger] shorter[j]).0@ != extension by {
                    assert(shorter[j] == list[j]);
                }
            }
        }
        if forall|i: int| 0 <= i < list.len() ==> (#[trigger] list[i]).0@ != extension {
            assert(list.last().0@ != extension);
            assert forall|i: int| 0 <= i < shorter.len() implies (
            #[trigger] shorter[i]).0@ != extension by {
                assert(shorter[i] == list[i]);
            }
        }
    }
}

/// What a REGISTER request asks for. The extension is that of the To header, and that of the From
/// header only where there is no To header. The lifetime is 3600 seconds where none is given. The
/// contact is the one that is given, or else `sip:`, the extension, `@` and the address that the
/// request came from.
pub proof fn law_what_a_request_asks_for(
    request: RegisterView,
    extension: Seq<char>,
    from_addr: Seq<char>,
)
    ensures
        request.to matches Some(named) ==> request.extension() == named,
        request.to is None ==> (request.from matches Some(named) ==> request.extension() == named),
        request.to is None && request.from is None ==> request.extension() is None,
        request.expires matches Some(seconds) ==> request.lifetime() == seconds,
        request.expires is None ==> request.lifetime() == 3600,
        request.contact_uri matches Some(uri) ==> request.contact(extension, from_addr) == uri,
        request.contact_uri is None ==> request.contact(extension, from_addr) == "sip:"@ + extension
            + "@"@ + from_addr,
{
}

/// An extension is in the range exactly where it is a number between both ends, with them.
pub proof fn law_range_goes_by_the_number(registrar: RegistrarView, extension: Seq<char>)
    ensures
        registrar.in_range(extension) <==> (number::parse_unsigned(
            extension,
            4294967295,
        ) matches Some(n) && registrar.range_start <= n && n <= registrar.range_end),
{
}

/// The answer to each REGISTER request, with what it changes. Without an extension it is 400; for
/// an extension outside the range 403; without an Authorization header 401, with a challenge of
/// the realm and the nonce; with one that cannot be read 400; with a wrong response 403. Else it
/// is 200: with the lifetime 0 the registration is taken out, and with any other it is entered,
/// under the extension, with its contact, the address, and the end of its lifetime. Only then
/// anything changes, and only the registration of that extension.
pub proof fn law_answer_to_each_request(
    before: RegistrarView,
    request: RegisterView,
    from_addr: Seq<char>,
    nonce: Seq<char>,
    now: u64,
    after: RegistrarView,
    response: message::ResponseView,
)
    requires
        before.registers(request, from_addr, nonce, now, after, response),
    ensures
        ({
            let named = request.extension();
            let in_range = before.in_range(named->0);
            let read = digest::authorization(request.authorization->0);
            let authentic = before.authentic(named->0, read->0);
            let lifetime = request.lifetime();
            let contact = request.contact(named->0, from_addr);
            let malformed = named is None || (in_range && request.authorization is Some
                && read is None);
            let forbidden = named is Some && (!in_range || (request.authorization is Some
                && read is Some && !authentic));
            let challenged = named is Some && in_range && request.authorization is None;
            let accepted = named is Some && in_range && request.authorization is Some
                && read is Some && authentic;
            &&& malformed ==> response.status == 400 && response.reason == "Bad Request"@
                && response.headers.len() == 0
            &&& forbidden ==> response.status == 403 && response.reason == "Forbidden"@
                && response.headers.len() == 0
            &&& challenged ==> response.status == 401 && response.reason == "Unauthorized"@
                && response.headers == seq![
                (
                    "WWW-Authenticate"@,
                    "Digest realm=\""@ + before.domain + "\", nonce=\""@ + nonce
                        + "\", algorithm=MD5, qop=\"auth\""@,
                ),
            ]
            &&& !accepted ==> after == before
            &&& accepted ==> response.status == 200 && response.reason == "OK"@ && after == (
            RegistrarView { registrations: after.registrations, ..before })
            &&& accepted && lifetime == 0 ==> response.headers == seq![("Expires"@, "0"@)]
                && after.registrations == before.registrations.remove(named->0)
            &&& accepted && lifetime > 0 ==> {
                let entry = after.registrations[named->0];
                &&& response.headers == seq![
                    (
                        "Contact"@,
                        "<"@ + contact + ">;expires="@ + number::decimal(lifetime as nat),
                    ),
                    ("Expires"@, number::decimal(lifetime as nat)),
                ]
                &&& after.registrations == before.registrations.insert(named->0, entry)
                &&& entry.extension == named->0
                &&& entry.contact == contact
                &&& entry.transport_addr == from_addr
                &&& entry.expires_at == now + lifetime
            }
        }),
{
}

/// There is an answer exactly where the end of the lifetime can be counted; only a request that
/// is accepted and asks for a lifetime has one.
pub proof fn law_when_there_is_an_answer(
    registrar: RegistrarView,
    request: RegisterView,
    from_addr: Seq<char>,
    now: u64,
)
    ensures
        registrar::expiry_fits(registrar.verdict(request, from_addr), now) <==> !(entitled(
            registrar,
            request,
        ) && request.lifetime() > 0 && now + request.lifetime() > 18446744073709551615),
{
}

/// What a request comes to: it is malformed, forbidden, challenged, or carried out as one that
/// registers or unregisters.
pub proof fn law_what_a_request_comes_to(
    before: RegistrarView,
    request: RegisterView,
    from_addr: Seq<char>,
)
    ensures
        ({
            let named = request.extension();
            let in_range = before.in_range(named->0);
            let read = digest::authorization(request.authorization->0);
            let authentic = before.authentic(named->0, read->0);
            let verdict = before.verdict(request, from_addr);
            &&& named is None ==> verdict is Malformed
            &&& named is Some && !in_range ==> verdict is Forbidden
            &&& named is Some && in_range && request.authorization is None ==> verdict is Challenged
            &&& named is Some && in_range && request.authorization is Some ==> {
                &&& read is None ==> verdict is Malformed
                &&& read is Some && !authentic ==> verdict is Forbidden
                &&& read is Some && authentic && request.lifetime() == 0 ==> (
                verdict matches registrar::VerdictView::Unregistered { extension } && extension
                    == named->0)
                &&& read is Some && authentic && request.lifetime() > 0 ==> (
                verdict matches registrar::VerdictView::Registered { extension, contact, expires }
                    && extension == named->0 && contact == request.contact(named->0, from_addr)
                    && expires == request.lifetime())
            }
        }),
{
}

/// A verdict is carried out and answered for what it is, wherever it comes from.
pub proof fn law_verdict_is_carried_out(
    before: RegistrarView,
    extension: Seq<char>,
    contact: Seq<char>,
    expires: u64,
    from_addr: Seq<char>,
    nonce: Seq<char>,
    now: u64,
)
    requires
        now + expires <= 18446744073709551615,
    ensures
        ({
            let verdict = registrar::VerdictView::Malformed;
            let answer = before.answer(verdict, nonce);
            &&& answer.status == 400 && answer.reason == "Bad Request"@ && answer.headers.len() == 0
            &&& before.after(verdict, from_addr, now) == before
        }),
        ({
            let verdict = registrar::VerdictView::Forbidden;
            let answer = before.answer(verdict, nonce);
            &&& answer.status == 403 && answer.reason == "Forbidden"@ && answer.headers.len() == 0
            &&& before.after(verdict, from_addr, now) == before
        }),
        ({
            let verdict = registrar::VerdictView::Challenged;
            let answer = before.answer(verdict, nonce);
            &&& answer.status == 401 && answer.reason == "Unauthorized"@
            &&& answer.headers == seq![
                (
                    "WWW-Authenticate"@,
                    "Digest realm=\""@ + before.domain + "\", nonce=\""@ + nonce
                        + "\", algorithm=MD5, qop=\"auth\""@,
                ),
            ]
            &&& before.after(verdict, from_addr, now) == before
        }),
        ({
            let verdict = registrar::VerdictView::Unregistered { extension };
            let answer = before.answer(verdict, nonce);
            let after = before.after(verdict, from_addr, now);
            &&& answer.status == 200 && answer.reason == "OK"@
            &&& answer.headers == seq![("Expires"@, "0"@)]
            &&& after.registrations == before.registrations.remove(extension)
            &&& after == (RegistrarView { registrations: after.registrations, ..before })
        }),
        ({
            let verdict = registrar::VerdictView::Registered { extension, contact, expires };
            let answer = before.answer(verdict, nonce);
            let after = before.after(verdict, from_addr, now);
            let entry = after.registrations[extension];
            &&& answer.status == 200 && answer.reason == "OK"@
            &&& answer.headers == seq![
                ("Contact"@, "<"@ + contact + ">;expires="@ + number::decimal(expires as nat)),
                ("Expires"@, number::decimal(expires as nat)),
            ]
            &&& after.registrations == before.registrations.insert(extension, entry)
            &&& after == (RegistrarView { registrations: after.registrations, ..before })
            &&& entry.extension == extension && entry.contact == contact
            &&& entry.transport_addr == from_addr && entry.expires_at == now + expires
        }),
{
}

/// An extension is found exactly while its registration lasts, and as it was registered.
pub proof fn law_found_while_it_lasts(registrar: RegistrarView, extension: Seq<char>, now: u64)
    ensures
        ({
            let lasts = registrar.registrations.dom().contains(extension) && now
                < registrar.registrations[extension].expires_at;
            &&& registrar.current(extension, now) is Some == lasts
            &&& lasts ==> registrar.current(extension, now) == Some(
                registrar.registrations[extension],
            )
        }),
{
}

/// A cleanup keeps exactly the registrations that last, each as it is, and all settings.
pub proof fn law_cleanup_keeps_what_lasts(registrar: RegistrarView, now: u64, extension: Seq<char>)
    ensures
        ({
            let after = registrar.without_expired(now);
            let lasts = registrar.registrations.dom().contains(extension) && now
                < registrar.registrations[extension].expires_at;
            &&& after.registrations.dom().contains(extension) == lasts
            &&& lasts ==> after.registrations[extension] == registrar.registrations[extension]
            &&& after == (RegistrarView { registrations: after.registrations, ..registrar })
        }),
{
}

/// The password of an extension is its own where it has one, and the default one where it has
/// none.
pub proof fn law_password_of_an_extension(registrar: RegistrarView, extension: Seq<char>)
    ensures
        registrar.passwords.dom().contains(extension) ==> registrar.password(extension)
            == registrar.passwords[extension],
        !registrar.passwords.dom().contains(extension) ==> registrar.password(extension)
            == registrar.default_password,
{
}

} // verus!
