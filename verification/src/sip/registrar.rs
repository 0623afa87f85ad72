//! Registration of extensions, with Digest authentication.
//!
//! A REGISTER request is challenged, checked, and then registers or unregisters the extension.

use crate::clock::{self, unix_seconds};
use crate::number::{self, decimal_text, parse_u32};
use crate::sip::digest::{self, generate_nonce, parse_authorization, validate_digest};
use crate::sip::message::{self, Response, SipUri};
use crate::table::Table;
use crate::text;
use std::time::SystemTime;
use vstd::prelude::*;
use vstd::string::*;

verus! {

/// A registered extension.
#[derive(Debug)]
pub struct Registration {
    /// The extension, such as `1001`.
    pub extension: String,
    /// The contact URI.
    pub contact: String,
    /// When the registration expires, in seconds since the Unix epoch.
    pub expires_at: u64,
    /// The transport address that the request came from, in its text form.
    pub transport_addr: String,
}

/// What [`Registration`] holds.
pub struct RegistrationView {
    pub extension: Seq<char>,
    pub contact: Seq<char>,
    pub expires_at: u64,
    pub transport_addr: Seq<char>,
}

impl View for Registration {
    type V = RegistrationView;

    open spec fn view(&self) -> RegistrationView {
        RegistrationView {
            extension: self.extension@,
            contact: self.contact@,
            expires_at: self.expires_at,
            transport_addr: self.transport_addr@,
        }
    }
}

impl Clone for Registration {
    fn clone(&self) -> (copy: Self)
        ensures
            copy@ == self@,
    {
        Registration {
            extension: self.extension.clone(),
            contact: self.contact.clone(),
            expires_at: self.expires_at,
            transport_addr: self.transport_addr.clone(),
        }
    }
}

/// What the registrar reads from a REGISTER request.
#[derive(Debug)]
pub struct RegisterRequest {
    /// The URI of the To header.
    pub to: Option<SipUri>,
    /// The URI of the From header.
    pub from: Option<SipUri>,
    /// The value of the Authorization header.
    pub authorization: Option<String>,
    /// The lifetime that is asked for, in seconds.
    pub expires: Option<u64>,
    /// The URI of the Contact header.
    pub contact_uri: Option<String>,
}

/// What [`RegisterRequest`] holds.
pub struct RegisterView {
    pub to: Option<Option<Seq<char>>>,
    pub from: Option<Option<Seq<char>>>,
    pub authorization: Option<Seq<char>>,
    pub expires: Option<u64>,
    pub contact_uri: Option<Seq<char>>,
}

impl View for RegisterRequest {
    type V = RegisterView;

    open spec fn view(&self) -> RegisterView {
        RegisterView {
            to: message::uri_view(self.to),
            from: message::uri_view(self.from),
            authorization: text::text_view(self.authorization),
            expires: self.expires,
            contact_uri: text::text_view(self.contact_uri),
        }
    }
}

/// The registrar: who is registered, and who may register.
pub struct RegistrarService {
    registrations: Table<Registration>,
    domain: String,
    default_password: String,
    passwords: Table<String>,
    range_start: u32,
    range_end: u32,
}

/// What [`RegistrarService`] holds.
#[verifier::ext_equal]
pub struct RegistrarView {
    /// The registrations, by extension.
    pub registrations: Map<Seq<char>, RegistrationView>,
    /// The domain of the server, the realm of its challenges.
    pub domain: Seq<char>,
    /// The password of an extension without one of its own.
    pub default_password: Seq<char>,
    /// The passwords of single extensions.
    pub passwords: Map<Seq<char>, Seq<char>>,
    /// The lowest extension that may register.
    pub range_start: u32,
    /// The highest extension that may register.
    pub range_end: u32,
}

impl View for RegistrarService {
    type V = RegistrarView;

    closed spec fn view(&self) -> RegistrarView {
        RegistrarView {
            registrations: self.registrations@,
            domain: self.domain@,
            default_password: self.default_password@,
            passwords: self.passwords@,
            range_start: self.range_start,
            range_end: self.range_end,
        }
    }
}

/// What becomes of a REGISTER request.
#[derive(Debug)]
pub enum Verdict {
    /// It names no extension, or its Authorization header cannot be read.
    Malformed,
    /// The extension may not register, or the client does not know its password.
    Forbidden,
    /// It carries no Authorization header and is challenged.
    Challenged,
    /// The extension is unregistered.
    Unregistered { extension: String },
    /// The extension is registered.
    Registered { extension: String, contact: String, expires: u64 },
}

/// What [`Verdict`] says.
pub enum VerdictView {
    Malformed,
    Forbidden,
    Challenged,
    Unregistered { extension: Seq<char> },
    Registered { extension: Seq<char>, contact: Seq<char>, expires: u64 },
}

impl View for Verdict {
    type V = VerdictView;

    open spec fn view(&self) -> VerdictView {
        match *self {
            Verdict::Malformed => VerdictView::Malformed,
            Verdict::Forbidden => VerdictView::Forbidden,
            Verdict::Challenged => VerdictView::Challenged,
            Verdict::Unregistered { extension } => VerdictView::Unregistered {
                extension: extension@,
            },
            Verdict::Registered { extension, contact, expires } => VerdictView::Registered {
                extension: extension@,
                contact: contact@,
                expires,
            },
        }
    }
}

/// The lifetime of a registration that asks for none.
pub const DEFAULT_EXPIRES: u64 = 3600;

impl RegisterView {
    /// The extension that the request names: in the To header, or in the From header where
    /// there is no To header with a URI.
    pub open spec fn extension(self) -> Option<Seq<char>> {
        match self.to {
            Some(extension) => extension,
            None => match self.from {
                Some(extension) => extension,
                None => None,
            },
        }
    }

    /// The lifetime that the request asks for.
    pub open spec fn lifetime(self) -> u64 {
        match self.expires {
            Some(seconds) => seconds,
            None => DEFAULT_EXPIRES,
        }
    }

    /// The contact of the request, or one made of the extension and the transport address.
    pub open spec fn contact(self, extension: Seq<char>, from_addr: Seq<char>) -> Seq<char> {
        match self.contact_uri {
            Some(uri) => uri,
            None => "sip:"@ + extension + "@"@ + from_addr,
        }
    }
}

impl RegistrarView {
    /// The password of an extension: its own, or the default one.
    pub open spec fn password(self, extension: Seq<char>) -> Seq<char> {
        if self.passwords.dom().contains(extension) {
            self.passwords[extension]
        } else {
            self.default_password
        }
    }

    /// Whether an extension is a number in the range of the server.
    pub open spec fn in_range(self, extension: Seq<char>) -> bool {
        match number::parse_unsigned(extension, u32::MAX as nat) {
            Some(n) => self.range_start <= n <= self.range_end,
            None => false,
        }
    }

    /// Whether the response of a client fits the password of the extension.
    pub open spec fn authentic(self, extension: Seq<char>, params: digest::DigestView) -> bool {
        text::lowercase(params.response) == text::lowercase(
            digest::digest_response(
                params.username,
                params.realm,
                self.password(extension),
                params.nonce,
                params.uri,
                "REGISTER"@,
                params.qop,
                params.nc,
                params.cnonce,
            ),
        )
    }

    /// What becomes of a request.
    pub open spec fn verdict(self, request: RegisterView, from_addr: Seq<char>) -> VerdictView {
        match (request.extension(), request.authorization) {
            (None, _) => VerdictView::Malformed,
            (Some(extension), _) if !self.in_range(extension) => VerdictView::Forbidden,
            (Some(_), None) => VerdictView::Challenged,
            (Some(extension), Some(header)) => match digest::authorization(header) {
                None => VerdictView::Malformed,
                Some(params) => if !self.authentic(extension, params) {
                    VerdictView::Forbidden
                } else if request.lifetime() == 0 {
                    VerdictView::Unregistered { extension }
                } else {
                    VerdictView::Registered {
                        extension,
                        contact: request.contact(extension, from_addr),
                        expires: request.lifetime(),
                    }
                },
            },
        }
    }

    /// The value of the WWW-Authenticate header with this nonce.
    pub open spec fn challenge(self, nonce: Seq<char>) -> Seq<char> {
        "Digest realm=\""@ + self.domain + "\", nonce=\""@ + nonce
            + "\", algorithm=MD5, qop=\"auth\""@
    }

    /// The answer to a request with this verdict.
    pub open spec fn answer(self, verdict: VerdictView, nonce: Seq<char>) -> message::ResponseView {
        match verdict {
            VerdictView::Malformed => message::plain(400, "Bad Request"@),
            VerdictView::Forbidden => message::plain(403, "Forbidden"@),
            VerdictView::Challenged => message::ResponseView {
                status: 401,
                reason: "Unauthorized"@,
                headers: seq![("WWW-Authenticate"@, self.challenge(nonce))],
            },
            VerdictView::Unregistered { .. } => message::ResponseView {
                status: 200,
                reason: "OK"@,
                headers: seq![("Expires"@, "0"@)],
            },
            VerdictView::Registered { contact, expires, .. } => message::ResponseView {
                status: 200,
                reason: "OK"@,
                headers: seq![
                    (
                        "Contact"@,
                        "<"@ + contact + ">;expires="@ + number::decimal(expires as nat),
                    ),
                    ("Expires"@, number::decimal(expires as nat)),
                ],
            },
        }
    }

    /// The registrar after a request with this verdict at the time `now`.
    pub open spec fn after(self, verdict: VerdictView, from_addr: Seq<char>, now: u64) -> Self {
        match verdict {
            VerdictView::Unregistered { extension } => RegistrarView {
                registrations: self.registrations.remove(extension),
                ..self
            },
            VerdictView::Registered { extension, contact, expires } => RegistrarView {
                registrations: self.registrations.insert(
                    extension,
                    RegistrationView {
                        extension,
                        contact,
                        expires_at: (now + expires) as u64,
                        transport_addr: from_addr,
                    },
                ),
                ..self
            },
            _ => self,
        }
    }

    /// Whether a request at the time `now`, with `nonce` for a challenge, leads to the registrar
    /// `next` and to this answer.
    pub open spec fn registers(
        self,
        request: RegisterView,
        from_addr: Seq<char>,
        nonce: Seq<char>,
        now: u64,
        next: Self,
        response: message::ResponseView,
    ) -> bool {
        let verdict = self.verdict(request, from_addr);
        &&& expiry_fits(verdict, now)
        &&& next == self.after(verdict, from_addr, now)
        &&& response == self.answer(verdict, nonce)
    }

    /// The registration of an extension that has not expired at the time `now`.
    pub open spec fn current(self, extension: Seq<char>, now: u64) -> Option<RegistrationView> {
        if self.registrations.dom().contains(extension)
            && self.registrations[extension].expires_at > now {
            Some(self.registrations[extension])
        } else {
            None
        }
    }

    /// The registrar without the registrations that have expired at the time `now`.
    pub open spec fn without_expired(self, now: u64) -> Self {
        RegistrarView {
            registrations: Map::new(
                |extension: Seq<char>| self.current(extension, now) is Some,
                |extension: Seq<char>| self.registrations[extension],
            ),
            ..self
        }
    }
}

/// Whether a verdict at the time `now` gives an expiry that a `u64` can hold.
pub open spec fn expiry_fits(verdict: VerdictView, now: u64) -> bool {
    verdict matches VerdictView::Registered { expires, .. } ==> now + expires <= u64::MAX
}

/// The view of an optional registration.
pub open spec fn registration_view(found: Option<Registration>) -> Option<RegistrationView> {
    match found {
        Some(registration) => Some(registration@),
        None => None,
    }
}

impl RegistrarService {
    /// The tables are well formed.
    pub closed spec fn wf(self) -> bool {
        self.registrations.wf() && self.passwords.wf()
    }

    /// A registrar without registrations. Where `passwords` names an extension twice, the last
    /// password counts.
    pub fn new(
        domain: String,
        default_password: String,
        passwords: Vec<(String, String)>,
        range_start: u32,
        range_end: u32,
    ) -> (service: Self)
        ensures
            service.wf(),
            service@ == (RegistrarView {
                registrations: Map::empty(),
                domain: domain@,
                default_password: default_password@,
                passwords: password_map(passwords@),
                range_start,
                range_end,
            }),
    {
        let mut table: Table<String> = Table::new();
        for i in 0..passwords.len()
            invariant
                table.wf(),
                table@ == password_map(passwords@.take(i as int)),
        {
            proof {
                let taken = passwords@.take(i + 1);
                assert(taken.drop_last() =~= passwords@.take(i as int));
                assert(taken.last() == passwords@[i as int]);
            }
            table.insert(passwords[i].0.clone(), passwords[i].1.clone());
        }
        assert(passwords@.take(passwords@.len() as int) =~= passwords@);
        RegistrarService {
            registrations: Table::new(),
            domain,
            default_password,
            passwords: table,
            range_start,
            range_end,
        }
    }

    /// The password of an extension: its own, or the default one.
    pub fn get_password(&self, extension: &str) -> (password: &str)
        requires
            self.wf(),
        ensures
            password@ == self@.password(extension@),
    {
        match self.passwords.get(extension) {
            Some(own) => own.as_str(),
            None => self.default_password.as_str(),
        }
    }

    /// Decides what becomes of a REGISTER request.
    pub fn judge(&self, request: &RegisterRequest, from_addr: &str) -> (verdict: Verdict)
        requires
            self.wf(),
        ensures
            verdict@ == self@.verdict(request@, from_addr@),
    {
        let named: &Option<String> = match &request.to {
            Some(uri) => &uri.extension,
            None => match &request.from {
                Some(uri) => &uri.extension,
                None => &None,
            },
        };
        let extension = match named {
            Some(extension) => extension,
            None => {
                return Verdict::Malformed;
            },
        };
        match parse_u32(extension.as_str()) {
            Some(n) => {
                if n < self.range_start || n > self.range_end {
                    return Verdict::Forbidden;
                }
            },
            None => {
                return Verdict::Forbidden;
            },
        }
        let header = match &request.authorization {
            Some(header) => header,
            None => {
                return Verdict::Challenged;
            },
        };
        let params = match parse_authorization(header.as_str()) {
            Some(params) => params,
            None => {
                return Verdict::Malformed;
            },
        };
        if !validate_digest(
            params.username.as_str(),
            params.realm.as_str(),
            self.get_password(extension.as_str()),
            params.nonce.as_str(),
            params.uri.as_str(),
            "REGISTER",
            params.response.as_str(),
            text::as_str_option(&params.qop),
            text::as_str_option(&params.nc),
            text::as_str_option(&params.cnonce),
        ) {
            return Verdict::Forbidden;
        }
        let expires = match request.expires {
            Some(seconds) => seconds,
            None => DEFAULT_EXPIRES,
        };
        if expires == 0 {
            return Verdict::Unregistered { extension: extension.clone() };
        }
        let contact = match &request.contact_uri {
            Some(uri) => uri.clone(),
            None => {
                let mut uri = "sip:".to_owned();
                uri.append(extension.as_str());
                uri.append("@");
                uri.append(from_addr);
                uri
            },
        };
        Verdict::Registered { extension: extension.clone(), contact, expires }
    }

    /// Carries out a verdict at the time `now`, and answers the request. A challenge uses
    /// `nonce`. There is no answer, and nothing changes, where the expiry of the registration does
    /// not fit into a `u64`.
    pub fn settle(&mut self, verdict: Verdict, from_addr: &str, nonce: &str, now: u64) -> (response:
        Option<Response>)
        requires
            old(self).wf(),
        ensures
            final(self).wf(),
            response is Some == expiry_fits(verdict@, now),
            response is Some ==> final(self)@ == old(self)@.after(verdict@, from_addr@, now)
                && response->0@ == old(self)@.answer(verdict@, nonce@),
            response is None ==> final(self)@ == old(self)@,
    {
        let ghost before = self@;
        match verdict {
            Verdict::Malformed => Some(Response::new(400, "Bad Request")),
            Verdict::Forbidden => Some(Response::new(403, "Forbidden")),
            Verdict::Challenged => {
                let mut challenge = "Digest realm=\"".to_owned();
                challenge.append(self.domain.as_str());
                challenge.append("\", nonce=\"");
                challenge.append(nonce);
                challenge.append("\", algorithm=MD5, qop=\"auth\"");
                let mut response = Response::new(401, "Unauthorized");
                response.add_header("WWW-Authenticate", challenge.as_str());
                assert(response@ =~= before.answer(verdict@, nonce@));
                Some(response)
            },
            Verdict::Unregistered { extension } => {
                self.unregister(extension.as_str());
                let mut response = Response::new(200, "OK");
                response.add_header("Expires", "0");
                assert(response@ =~= before.answer(verdict@, nonce@));
                Some(response)
            },
            Verdict::Registered { extension, contact, expires } => {
                if expires > u64::MAX - now {
                    return None;
                }
                let lifetime = decimal_text(expires);
                let mut entry = "<".to_owned();
                entry.append(contact.as_str());
                entry.append(">;expires=");
                entry.append(lifetime.as_str());
                self.register(
                    Registration {
                        extension,
                        contact,
                        expires_at: now + expires,
                        transport_addr: from_addr.to_owned(),
                    },
                );
                let mut response = Response::new(200, "OK");
                response.add_header("Contact", entry.as_str());
                response.add_header("Expires", lifetime.as_str());
                assert(response@ =~= before.answer(verdict@, nonce@));
                Some(response)
            },
        }
    }

    /// Handles a REGISTER request from the address `from_addr` at the time `now`; a challenge uses
    /// `nonce`. There is no answer, and nothing changes, if and only if the expiry of the
    /// registration does not fit into a `u64`.
    pub fn handle_register_at(
        &mut self,
        request: &RegisterRequest,
        from_addr: &str,
        nonce: &str,
        now: u64,
    ) -> (response: Option<Response>)
        requires
            old(self).wf(),
        ensures
            final(self).wf(),
            response is Some == expiry_fits(old(self)@.verdict(request@, from_addr@), now),
            response is Some ==> old(self)@.registers(
                request@,
                from_addr@,
                nonce@,
                now,
                final(self)@,
                response->0@,
            ),
            response is None ==> final(self)@ == old(self)@,
    {
        let verdict = self.judge(request, from_addr);
        self.settle(verdict, from_addr, nonce, now)
    }

    /// Handles a REGISTER request from the address `from_addr`:
    ///
    /// 1. takes the extension from the To or the From header,
    /// 2. checks that it is in the range of the server,
    /// 3. challenges a request without an Authorization header (401), and checks the Digest
    ///    response of one with it: where it is wrong, the answer is 403; else the extension is
    ///    registered or unregistered, and the answer is 200.
    ///
    /// There is no answer, and nothing changes, where the expiry of the registration does not
    /// fit into a `u64`.
    pub fn handle_register(&mut self, request: &RegisterRequest, from_addr: &str) -> (response:
        Option<Response>)
        requires
            old(self).wf(),
        ensures
            final(self).wf(),
            response is Some ==> exists|nonce: Seq<char>, reading: SystemTime|
                (old(self)@.verdict(request@, from_addr@) is Challenged ==> digest::is_nonce(nonce))
                    && #[trigger] old(self)@.registers(
                    request@,
                    from_addr@,
                    nonce,
                    clock::unix_time(reading),
                    final(self)@,
                    response->0@,
                ),
            response is None ==> final(self)@ == old(self)@ && exists|reading: SystemTime|
                !#[trigger] expiry_fits(
                    old(self)@.verdict(request@, from_addr@),
                    clock::unix_time(reading),
                ),
    {
        let verdict = self.judge(request, from_addr);
        let nonce = match &verdict {
            Verdict::Challenged => generate_nonce(),
            _ => String::new(),
        };
        let now = unix_seconds();
        let response = self.settle(verdict, from_addr, nonce.as_str(), now);
        proof {
            if response is Some {
                assert(old(self)@.registers(
                    request@,
                    from_addr@,
                    nonce@,
                    now,
                    final(self)@,
                    response->0@,
                ));
            } else {
                assert(!expiry_fits(old(self)@.verdict(request@, from_addr@), now));
            }
        }
        response
    }

    /// Registers an extension, in place of a registration that it has.
    fn register(&mut self, registration: Registration)
        requires
            old(self).wf(),
        ensures
            final(self).wf(),
            final(self)@ == (RegistrarView {
                registrations: old(self)@.registrations.insert(
                    registration.extension@,
                    registration@,
                ),
                ..old(self)@
            }),
    {
        let extension = registration.extension.clone();
        self.registrations.insert(extension, registration);
    }

    /// Takes out the registration of an extension.
    pub fn unregister(&mut self, extension: &str)
        requires
            old(self).wf(),
        ensures
            final(self).wf(),
            final(self)@ == (RegistrarView {
                registrations: old(self)@.registrations.remove(extension@),
                ..old(self)@
            }),
    {
        self.registrations.remove(extension);
    }

    /// The registration of an extension, unless it has expired at the time `now`.
    pub fn lookup_at(&self, extension: &str, now: u64) -> (found: Option<Registration>)
        requires
            self.wf(),
        ensures
            registration_view(found) == self@.current(extension@, now),
    {
        match self.registrations.get(extension) {
            Some(registration) => if registration.expires_at > now {
                Some(registration.clone())
            } else {
                None
            },
            None => None,
        }
    }

    /// The registration of an extension, unless it has expired.
    pub fn lookup(&self, extension: &str) -> (found: Option<Registration>)
        requires
            self.wf(),
        ensures
            exists|reading: SystemTime|
                registration_view(found) == #[trigger] self@.current(
                    extension@,
                    clock::unix_time(reading),
                ),
    {
        let now = unix_seconds();
        self.lookup_at(extension, now)
    }

    /// Whether an extension is online at the time `now`: registered, and not expired.
    pub fn is_registered_at(&self, extension: &str, now: u64) -> (online: bool)
        requires
            self.wf(),
        ensures
            online == self@.current(extension@, now) is Some,
    {
        self.lookup_at(extension, now).is_some()
    }

    /// Whether an extension is online: registered, and not expired.
    pub fn is_registered(&self, extension: &str) -> (online: bool)
        requires
            self.wf(),
        ensures
            exists|reading: SystemTime|
                online == (#[trigger] self@.current(extension@, clock::unix_time(reading)) is Some),
    {
        self.lookup(extension).is_some()
    }

    /// The number of extensions that are online at the time `now`.
    pub fn online_count_at(&self, now: u64) -> (count: usize)
        requires
            self.wf(),
        ensures
            count == self@.without_expired(now).registrations.len(),
    {
        let n = self.registrations.len();
        let mut count: usize = 0;
        let ghost keys = self.registrations.key_list();
        let ghost mut online: Set<Seq<char>> = Set::empty();
        for i in 0..n
            invariant
                self.wf(),
                keys == self.registrations.key_list(),
                n == keys.len(),
                keys.no_duplicates(),
                count <= i,
                count == online.len(),
                online.finite(),
                forall|k: Seq<char>| #[trigger]
                    online.contains(k) ==> self@.current(k, now) is Some && exists|j: int|
                        0 <= j < i && keys[j] == k,
                forall|j: int|
                    0 <= j < i && self@.current(#[trigger] keys[j], now) is Some
                        ==> online.contains(keys[j]),
        {
            let ghost key = keys[i as int];
            proof {
                self.registrations.lemma_keys(key);
                assert(keys.contains(key));
            }
            if self.registrations.value_at(i).expires_at > now {
                count += 1;
                proof {
                    online = online.insert(key);
                }
            }
        }
        proof {
            let live = self@.without_expired(now).registrations;
            assert forall|k: Seq<char>| online.contains(k) == #[trigger] live.dom().contains(k) by {
                self.registrations.lemma_keys(k);
                if live.dom().contains(k) {
                    let j = keys.index_of(k);
                    assert(keys[j] == k);
                }
            }
            assert(online =~= live.dom());
        }
        count
    }

    /// The number of extensions that are online.
    pub fn online_count(&self) -> (count: usize)
        requires
            self.wf(),
        ensures
            exists|reading: SystemTime|
                count == (#[trigger] self@.without_expired(
                    clock::unix_time(reading),
                )).registrations.len(),
    {
        let now = unix_seconds();
        self.online_count_at(now)
    }

    /// Takes out the registrations that have expired at the time `now`.
    pub fn cleanup_expired_at(&mut self, now: u64)
        requires
            old(self).wf(),
        ensures
            final(self).wf(),
            final(self)@ == old(self)@.without_expired(now),
    {
        let ghost before = self@;
        let ghost table = self.registrations;
        let n = self.registrations.len();
        let mut keep: Vec<bool> = Vec::new();
        for i in 0..n
            invariant
                self.registrations == table,
                table.wf(),
                n == table.key_list().len(),
                keep@.len() == i,
                forall|j: int|
                    0 <= j < i ==> keep@[j] == (table@[#[trigger] table.key_list()[j]].expires_at
                        > now),
        {
            keep.push(self.registrations.value_at(i).expires_at > now);
        }
        self.registrations.retain(&keep);
        proof {
            let kept = before.without_expired(now).registrations;
            assert forall|k: Seq<char>| self@.registrations.dom().contains(k)
                == #[trigger] kept.dom().contains(k) by {
                table.lemma_keys(k);
                if table@.dom().contains(k) {
                    let i = table.key_list().index_of(k);
                    assert(table.key_list()[i] == k);
                    assert(self.registrations@.dom().contains(table.key_list()[i]) == keep@[i]);
                    assert(before.registrations[k] == table@[k]);
                } else {
                    assert(!self.registrations@.dom().contains(k));
                }
            }
            assert forall|k: Seq<char>| #[trigger]
                self@.registrations.dom().contains(k) implies self@.registrations[k]
                == kept[k] by {
                assert(kept.dom().contains(k));
                assert(self.registrations@.dom().contains(k));
                assert(self.registrations@[k] == table@[k]);
            }
            assert(self@.registrations =~= kept);
            assert(self@ =~= before.without_expired(now));
        }
    }

    /// Takes out the registrations that have expired.
    pub fn cleanup_expired(&mut self)
        requires
            old(self).wf(),
        ensures
            final(self).wf(),
            exists|reading: SystemTime|
                final(self)@ == #[trigger] old(self)@.without_expired(clock::unix_time(reading)),
    {
        let now = unix_seconds();
        self.cleanup_expired_at(now);
    }
}

/// The passwords in a list, by extension; the last one counts.
pub open spec fn password_map(list: Seq<(String, String)>) -> Map<Seq<char>, Seq<char>>
    decreases list.len(),
{
    if list.len() == 0 {
        Map::empty()
    } else {
        password_map(list.drop_last()).insert(list.last().0@, list.last().1@)
    }
}

} // verus!
