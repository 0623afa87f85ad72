//! What is written anew in a message before it goes on to the other party: the request URI, the
//! session description, and the headers of a response.

use crate::clock::{self, unix_seconds};
use crate::number::{self, push_decimal};
use crate::sip::registrar::{self, RegistrarService};
use crate::text::{
    self, ends_with, joined_lines, split_lines, split_words, starts_with, text_before, to_lowercase,
    trimmed,
};
use std::time::SystemTime;
use vstd::prelude::*;
use vstd::string::*;

verus! {

// ---------------------------------------------------------------------------
// Header lines
// ---------------------------------------------------------------------------

/// Whether `line`, in lower case, starts with `name`, in lower case, and a colon.
pub open spec fn names_header(line: Seq<char>, name: Seq<char>) -> bool {
    (text::lowercase(name) + ":"@).is_prefix_of(text::lowercase(line))
}

/// Whether `line` is a header with this name or with this compact name.
pub open spec fn is_header(line: Seq<char>, name: Seq<char>, compact: Option<Seq<char>>) -> bool {
    names_header(line, name) || (compact matches Some(short) && names_header(line, short))
}

/// The headers with this name among `lines`, without the white space around them. The headers
/// end at the first blank line.
pub open spec fn headers_among(
    lines: Seq<Seq<char>>,
    name: Seq<char>,
    compact: Option<Seq<char>>,
) -> Seq<Seq<char>>
    decreases lines.len(),
{
    if lines.len() == 0 || text::trim(lines[0]).len() == 0 {
        Seq::empty()
    } else {
        let rest = headers_among(lines.drop_first(), name, compact);
        let line = text::trim(lines[0]);
        if is_header(line, name, compact) {
            seq![line] + rest
        } else {
            rest
        }
    }
}

/// The headers of a message with this name or with this compact name, in order.
pub open spec fn headers_of(
    message: Seq<char>,
    name: Seq<char>,
    compact: Option<Seq<char>>,
) -> Seq<Seq<char>> {
    headers_among(text::lines(message), name, compact)
}

/// The first header of a message with this name or with this compact name.
pub open spec fn first_header_of(
    message: Seq<char>,
    name: Seq<char>,
    compact: Option<Seq<char>>,
) -> Option<Seq<char>> {
    let found = headers_of(message, name, compact);
    if found.len() == 0 {
        None
    } else {
        Some(found[0])
    }
}

/// The start of a header line with this name, in lower case.
fn header_prefix(name: &str) -> (prefix: String)
    ensures
        prefix@ == text::lowercase(name@) + ":"@,
{
    let mut prefix = to_lowercase(name);
    prefix.append(":");
    prefix
}

/// The header lines of a message with this name or with this compact name.
pub fn header_lines(msg: &str, name: &str, compact: Option<&str>) -> (found: Vec<String>)
    ensures
        text::views(found@) == headers_of(msg@, name@, text::str_view(compact)),
{
    let prefix = header_prefix(name);
    let short_prefix: Option<String> = match compact {
        Some(short) => Some(header_prefix(short)),
        None => None,
    };
    let list = split_lines(msg);
    let mut found: Vec<String> = Vec::new();
    let ghost short = text::str_view(compact);
    let ghost lines = text::lines(msg@);
    assert(lines.skip(0) =~= lines);
    assert(text::views(found@) + headers_among(lines, name@, short) =~= headers_among(
        lines,
        name@,
        short,
    ));
    for i in 0..list.len()
        invariant
            lines == text::lines(msg@),
            text::views(list@) == lines,
            short == text::str_view(compact),
            prefix@ == text::lowercase(name@) + ":"@,
            text::text_view(short_prefix) == (match short {
                Some(s) => Some(text::lowercase(s) + ":"@),
                None => None,
            }),
            text::views(found@) + headers_among(lines.skip(i as int), name@, short)
                == headers_among(lines, name@, short),
    {
        let ghost rest = lines.skip(i as int);
        let ghost done = text::views(found@);
        assert(rest[0] == list@[i as int]@);
        assert(rest.drop_first() =~= lines.skip(i + 1));
        let line = trimmed(list[i].as_str());
        if line.as_str().is_empty() {
            assert(text::views(found@) =~= headers_among(lines, name@, short));
            return found;
        }
        let lower = to_lowercase(line.as_str());
        let mut matching = starts_with(lower.as_str(), prefix.as_str());
        if let Some(p) = &short_prefix {
            matching = matching || starts_with(lower.as_str(), p.as_str());
        }
        if matching {
            found.push(line);
            assert(text::views(found@) =~= done + seq![line@]);
        }
        assert(text::views(found@) + headers_among(lines.skip(i + 1), name@, short) =~= done
            + headers_among(rest, name@, short));
    }
    assert(text::views(found@) =~= headers_among(lines, name@, short));
    found
}

/// The first header line of a message with this name or with this compact name.
pub fn first_header_line(msg: &str, name: &str, compact: Option<&str>) -> (found: Option<String>)
    ensures
        text::text_view(found) == first_header_of(msg@, name@, text::str_view(compact)),
{
    let list = header_lines(msg, name, compact);
    let ghost all = text::views(list@);
    if list.len() == 0 {
        None
    } else {
        assert(all[0] == list@[0]@);
        Some(list[0].clone())
    }
}

// ---------------------------------------------------------------------------
// Responses
// ---------------------------------------------------------------------------

/// Each line of `list`, with its line end.
pub open spec fn ended_lines(list: Seq<Seq<char>>) -> Seq<char>
    decreases list.len(),
{
    if list.len() == 0 {
        Seq::empty()
    } else {
        ended_lines(list.drop_last()) + list.last() + text::crlf()
    }
}

/// An optional line, with its line end.
pub open spec fn ended(line: Option<Seq<char>>) -> Seq<char> {
    match line {
        Some(l) => l + text::crlf(),
        None => Seq::empty(),
    }
}

/// The size of `body` in bytes, as it stands in a Content-Length header.
pub open spec fn length_line(body: Seq<char>) -> Seq<char> {
    "Content-Length: "@ + number::decimal(vstd::utf8::encode_utf8(body).len())
}

/// The line that names the type of a session description.
pub open spec fn type_line() -> Seq<char> {
    "Content-Type: application/sdp"@
}

/// The URI under which the server stands for an extension.
pub open spec fn server_contact(extension: Seq<char>, domain: Seq<char>) -> Seq<char> {
    "sips:"@ + extension + "@"@ + domain + ";transport=tls"@
}

/// The URI under which the server stands for an extension.
pub fn server_contact_uri(extension: &str, domain: &str) -> (uri: String)
    ensures
        uri@ == server_contact(extension@, domain@),
{
    let mut uri = "sips:".to_owned();
    uri.append(extension);
    uri.append("@");
    uri.append(domain);
    uri.append(";transport=tls");
    uri
}

/// The To header of a forwarded response: that of the callee, or that of the INVITE.
pub open spec fn forwarded_to(
    invite: Seq<char>,
    callee_response: Seq<char>,
    contact: Seq<char>,
) -> Seq<char> {
    match first_header_of(callee_response, "To"@, Some("t"@)) {
        Some(line) => line,
        None => match first_header_of(invite, "To"@, Some("t"@)) {
            Some(line) => line,
            None => "To: <sips:"@ + contact + ">"@,
        },
    }
}

/// The Contact header of a forwarded response, which only a success has.
pub open spec fn forwarded_contact(status: u16, contact: Seq<char>) -> Option<Seq<char>> {
    if 200 <= status < 300 {
        Some("Contact: <"@ + contact + ">"@)
    } else {
        None
    }
}

/// The Content-Type header of a forwarded response, which only one with a body has.
pub open spec fn forwarded_type(body: Seq<char>) -> Option<Seq<char>> {
    if body.len() > 0 {
        Some(type_line())
    } else {
        None
    }
}

/// A response of the callee as the caller gets it: Via, From, Call-ID and CSeq are those of the
/// INVITE that the caller sent; To is that of the callee.
pub open spec fn forwarded_response(
    invite: Seq<char>,
    callee_response: Seq<char>,
    status: u16,
    reason: Seq<char>,
    contact: Seq<char>,
    body: Seq<char>,
) -> Seq<char> {
    ("SIP/2.0 "@ + number::decimal(status as nat) + " "@ + reason + text::crlf())
        + ended_lines(headers_of(invite, "Via"@, Some("v"@)))
        + ended(first_header_of(invite, "From"@, Some("f"@)))
        + ended(Some(forwarded_to(invite, callee_response, contact)))
        + ended(first_header_of(invite, "Call-ID"@, Some("i"@)))
        + ended(first_header_of(invite, "CSeq"@, None))
        + ended(forwarded_contact(status, contact))
        + ended(forwarded_type(body))
        + ended(Some(length_line(body)))
        + text::crlf()
        + body
}

/// Appends a line with its line end.
fn push_line(out: &mut String, line: &str)
    ensures
        final(out)@ == old(out)@ + ended(Some(line@)),
{
    let ghost start = out@;
    out.append(line);
    out.append("\r\n");
    assert(out@ =~= start + ended(Some(line@)));
}

/// Appends a line with its line end, where there is one.
fn push_optional_line(out: &mut String, line: &Option<String>)
    ensures
        final(out)@ == old(out)@ + ended(text::text_view(*line)),
{
    match line {
        Some(l) => push_line(out, l.as_str()),
        None => {
            assert(out@ + Seq::empty() =~= out@);
        },
    }
}

/// Appends each line with its line end.
fn push_lines(out: &mut String, list: &Vec<String>)
    ensures
        final(out)@ == old(out)@ + ended_lines(text::views(list@)),
{
    let ghost start = out@;
    let ghost all = text::views(list@);
    assert(start + ended_lines(all.take(0)) =~= start);
    for i in 0..list.len()
        invariant
            all == text::views(list@),
            out@ == start + ended_lines(all.take(i as int)),
    {
        push_line(out, list[i].as_str());
        proof {
            let taken = all.take(i + 1);
            assert(taken.drop_last() =~= all.take(i as int));
            assert(taken.last() == list@[i as int]@);
            assert(out@ =~= start + ended_lines(taken));
        }
    }
    assert(all.take(list@.len() as int) =~= all);
}

/// The Content-Length header for `body`.
fn content_length(body: &str) -> (line: String)
    ensures
        line@ == length_line(body@),
{
    let mut line = "Content-Length: ".to_owned();
    push_decimal(&mut line, body.as_bytes().len() as u64);
    line
}

/// The response of the callee as the caller gets it, with the session description `body`.
pub fn build_forwarded_invite_response(
    original_invite: &str,
    callee_response: &str,
    status_code: u16,
    reason: &str,
    contact_uri: &str,
    body: &str,
) -> (message: Vec<u8>)
    ensures
        message@ == vstd::utf8::encode_utf8(
            forwarded_response(
                original_invite@,
                callee_response@,
                status_code,
                reason@,
                contact_uri@,
                body@,
            ),
        ),
{
    let mut response = "SIP/2.0 ".to_owned();
    push_decimal(&mut response, status_code as u64);
    response.append(" ");
    response.append(reason);
    response.append("\r\n");

    push_lines(&mut response, &header_lines(original_invite, "Via", Some("v")));
    push_optional_line(&mut response, &first_header_line(original_invite, "From", Some("f")));

    let to = match first_header_line(callee_response, "To", Some("t")) {
        Some(line) => line,
        None => match first_header_line(original_invite, "To", Some("t")) {
            Some(line) => line,
            None => {
                let mut line = "To: <sips:".to_owned();
                line.append(contact_uri);
                line.append(">");
                line
            },
        },
    };
    push_line(&mut response, to.as_str());
    push_optional_line(&mut response, &first_header_line(original_invite, "Call-ID", Some("i")));
    push_optional_line(&mut response, &first_header_line(original_invite, "CSeq", None));

    let contact: Option<String> = if status_code >= 200 && status_code < 300 {
        let mut line = "Contact: <".to_owned();
        line.append(contact_uri);
        line.append(">");
        Some(line)
    } else {
        None
    };
    push_optional_line(&mut response, &contact);

    let content_type: Option<String> = if !body.is_empty() {
        Some("Content-Type: application/sdp".to_owned())
    } else {
        None
    };
    push_optional_line(&mut response, &content_type);
    push_line(&mut response, content_length(body).as_str());
    response.append("\r\n");
    response.append(body);

    response.as_str().as_bytes_vec()
}

// ---------------------------------------------------------------------------
// Requests with a new session description
// ---------------------------------------------------------------------------

/// Whether `line`, in lower case, starts with `prefix`.
pub open spec fn starts_lower(line: Seq<char>, prefix: Seq<char>) -> bool {
    prefix.is_prefix_of(text::lowercase(line))
}

/// Whether one of `lines`, in lower case, starts with `prefix`.
pub open spec fn any_starts_lower(lines: Seq<Seq<char>>, prefix: Seq<char>) -> bool {
    exists|i: int| 0 <= i < lines.len() && starts_lower(#[trigger] lines[i], prefix)
}

/// Whether `line` gives the length of the body.
pub open spec fn gives_length(line: Seq<char>) -> bool {
    starts_lower(line, "content-length:"@) || starts_lower(line, "l:"@)
}

/// `line`, with the length of `sdp` where it gives the length of the body.
pub open spec fn resized(line: Seq<char>, sdp: Seq<char>) -> Seq<char> {
    if gives_length(line) {
        length_line(sdp)
    } else {
        line
    }
}

/// The headers of `request` for the body `sdp`: the length is that of `sdp`, and the headers
/// that say type and length are there.
pub open spec fn headers_for_sdp(request: Seq<char>, sdp: Seq<char>) -> Seq<Seq<char>> {
    let given = text::lines(text::before(request, "\r\n\r\n"@));
    let sized = Seq::new(given.len(), |i: int| resized(given[i], sdp));
    let typed = if any_starts_lower(sized, "content-type:"@) {
        sized
    } else {
        sized.push(type_line())
    };
    if any_starts_lower(typed, "content-length:"@) {
        typed
    } else {
        typed.push(length_line(sdp))
    }
}

/// `request` with the body `sdp`.
pub open spec fn with_sdp(request: Seq<char>, sdp: Seq<char>) -> Seq<char> {
    text::join_lines(headers_for_sdp(request, sdp)) + "\r\n\r\n"@ + sdp
}

/// Whether one of the lines, in lower case, starts with `prefix`.
fn any_line_starts(list: &Vec<String>, prefix: &str) -> (found: bool)
    ensures
        found == any_starts_lower(text::views(list@), prefix@),
{
    let ghost all = text::views(list@);
    for i in 0..list.len()
        invariant
            all == text::views(list@),
            forall|j: int| 0 <= j < i ==> !starts_lower(#[trigger] all[j], prefix@),
    {
        let lower = to_lowercase(list[i].as_str());
        assert(all[i as int] == list@[i as int]@);
        if starts_with(lower.as_str(), prefix) {
            return true;
        }
    }
    false
}

/// The request with the body `new_sdp`.
pub fn rebuild_request_with_sdp(request: &str, new_sdp: &str) -> (message: Vec<u8>)
    ensures
        message@ == vstd::utf8::encode_utf8(with_sdp(request@, new_sdp@)),
{
    let head = text_before(request, "\r\n\r\n");
    let given = split_lines(head.as_str());
    let length = content_length(new_sdp);
    let mut headers: Vec<String> = Vec::new();
    let ghost lines = text::lines(head@);
    let ghost sized = Seq::new(lines.len(), |i: int| resized(lines[i], new_sdp@));
    for i in 0..given.len()
        invariant
            text::views(given@) == lines,
            length@ == length_line(new_sdp@),
            sized == Seq::new(lines.len(), |i: int| resized(lines[i], new_sdp@)),
            text::views(headers@) == sized.take(i as int),
    {
        let line = &given[i];
        let lower = to_lowercase(line.as_str());
        let ghost before = text::views(headers@);
        assert(lines[i as int] == line@);
        assert(sized[i as int] == resized(line@, new_sdp@));
        if starts_with(lower.as_str(), "content-length:") || starts_with(lower.as_str(), "l:") {
            headers.push(length.clone());
        } else {
            headers.push(line.clone());
        }
        assert(text::views(headers@) =~= before.push(resized(line@, new_sdp@)));
        assert(sized.take(i + 1) =~= sized.take(i as int).push(sized[i as int]));
    }
    assert(text::views(headers@) =~= sized);
    if !any_line_starts(&headers, "content-type:") {
        headers.push("Content-Type: application/sdp".to_owned());
        assert(text::views(headers@) =~= sized.push(type_line()));
    }
    let ghost typed = text::views(headers@);
    if !any_line_starts(&headers, "content-length:") {
        headers.push(length);
        assert(text::views(headers@) =~= typed.push(length_line(new_sdp@)));
    }
    let mut result = joined_lines(&headers);
    result.append("\r\n\r\n");
    result.append(new_sdp);
    result.as_str().as_bytes_vec()
}

// ---------------------------------------------------------------------------
// Requests with a new request URI
// ---------------------------------------------------------------------------

/// Whether `request` starts with a request line: three words, the first of which is no SIP
/// version.
pub open spec fn has_request_line(request: Seq<char>) -> bool {
    let lines = text::lines(request);
    let words = text::words(lines[0]);
    lines.len() > 0 && words.len() == 3 && !"SIP/2.0"@.is_prefix_of(words[0])
}

/// The first line of `request` with the URI `uri`.
pub open spec fn request_line(request: Seq<char>, uri: Seq<char>) -> Seq<char> {
    let words = text::words(text::lines(request)[0]);
    words[0] + " "@ + uri + " "@ + words[2]
}

/// `request` with the request URI `uri`. What has no request line stays as it is.
pub open spec fn with_request_uri(request: Seq<char>, uri: Seq<char>) -> Seq<char> {
    if !has_request_line(request) {
        request
    } else {
        let body = text::join_lines(text::lines(request).update(0, request_line(request, uri)));
        if text::crlf().is_suffix_of(request) {
            body + text::crlf()
        } else {
            body
        }
    }
}

/// The request with the request URI `uri`.
pub fn replace_request_uri(request: &str, uri: &str) -> (rewritten: String)
    ensures
        rewritten@ == with_request_uri(request@, uri@),
{
    let mut list = split_lines(request);
    let ghost lines = text::lines(request@);
    if list.len() == 0 {
        return request.to_owned();
    }
    assert(lines[0] == list@[0]@);
    let words = split_words(list[0].as_str());
    let ghost parts = text::words(lines[0]);
    if words.len() != 3 {
        return request.to_owned();
    }
    assert(parts[0] == words@[0]@ && parts[2] == words@[2]@);
    if starts_with(words[0].as_str(), "SIP/2.0") {
        return request.to_owned();
    }
    let mut first = words[0].clone();
    first.append(" ");
    first.append(uri);
    first.append(" ");
    first.append(words[2].as_str());
    list.set(0, first);
    assert(text::views(list@) =~= lines.update(0, request_line(request@, uri@)));
    let mut rewritten = joined_lines(&list);
    if ends_with(request, "\r\n") {
        rewritten.append("\r\n");
    }
    rewritten
}

/// The URI at which an extension is reached at the time `now`: the contact that it has
/// registered, or the one under which the server stands for it.
pub open spec fn target_uri(
    registrar: registrar::RegistrarView,
    extension: Seq<char>,
    domain: Seq<char>,
    now: u64,
) -> Seq<char> {
    match registrar.current(extension, now) {
        Some(registration) => registration.contact,
        None => server_contact(extension, domain),
    }
}

/// The request, addressed to the contact of an extension at the time `now`.
pub fn rewrite_request_uri_at(
    request: &str,
    target_ext: &str,
    domain: &str,
    registrar: &RegistrarService,
    now: u64,
) -> (rewritten: String)
    requires
        registrar.wf(),
    ensures
        rewritten@ == with_request_uri(
            request@,
            target_uri(registrar@, target_ext@, domain@, now),
        ),
{
    let uri = match registrar.lookup_at(target_ext, now) {
        Some(registration) => registration.contact,
        None => server_contact_uri(target_ext, domain),
    };
    replace_request_uri(request, uri.as_str())
}

/// The request, addressed to the contact of an extension.
pub fn rewrite_request_uri(
    request: &str,
    target_ext: &str,
    domain: &str,
    registrar: &RegistrarService,
) -> (rewritten: String)
    requires
        registrar.wf(),
    ensures
        exists|reading: SystemTime|
            rewritten@ == with_request_uri(
                request@,
                #[trigger] target_uri(
                    registrar@,
                    target_ext@,
                    domain@,
                    clock::unix_time(reading),
                ),
            ),
{
    let now = unix_seconds();
    rewrite_request_uri_at(request, target_ext, domain, registrar, now)
}

/// `std::str::from_utf8`: the text whose UTF-8 form the bytes are, where they are valid UTF-8.
#[verifier::external_body]
fn utf8_text(bytes: &[u8]) -> (found: Option<&str>)
    ensures
        found is Some == vstd::utf8::valid_utf8(bytes@),
        found matches Some(t) ==> vstd::utf8::encode_utf8(t@) == bytes@,
{
    match std::str::from_utf8(bytes) {
        Ok(t) => Some(t),
        Err(_) => None,
    }
}

/// The request in bytes, addressed to the contact of an extension at the time `now`. Bytes that
/// are no text stay as they are.
pub fn rewrite_request_uri_bytes(
    request: &[u8],
    target_ext: &str,
    domain: &str,
    registrar: &RegistrarService,
    now: u64,
) -> (rewritten: Vec<u8>)
    requires
        registrar.wf(),
    ensures
        vstd::utf8::valid_utf8(request@) ==> rewritten@ == vstd::utf8::encode_utf8(
            with_request_uri(
                vstd::utf8::decode_utf8(request@),
                target_uri(registrar@, target_ext@, domain@, now),
            ),
        ),
        !vstd::utf8::valid_utf8(request@) ==> rewritten@ == request@,
{
    match utf8_text(request) {
        Some(t) => {
            proof {
                vstd::utf8::encode_utf8_decode_utf8(t@);
            }
            rewrite_request_uri_at(t, target_ext, domain, registrar, now).as_str().as_bytes_vec()
        },
        None => vstd::slice::slice_to_vec(request),
    }
}

} // verus!
