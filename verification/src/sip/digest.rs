//! SIP Digest authentication.
//!
//! A client proves that it knows a password by hashing it together with a nonce:
//!
//! ```text
//! HA1 = MD5(username:realm:password)
//! HA2 = MD5(method:uri)
//! response = MD5(HA1:nonce:HA2)                    without qop (RFC 2069)
//! response = MD5(HA1:nonce:nc:cnonce:auth:HA2)     with qop=auth (RFC 2617)
//! ```

use crate::text::{
    self, chars_of, same, split_once, strip_prefix, to_lowercase, trimmed, unquoted, Class,
};
use md5::Digest;
use rand::Rng;
use vstd::prelude::*;
use vstd::string::*;

verus! {

// ---------------------------------------------------------------------------
// Hashing
// ---------------------------------------------------------------------------

/// The character of a hexadecimal digit, in lower case.
pub open spec fn hex_digit(n: int) -> char
    recommends
        0 <= n < 16,
{
    if n < 10 {
        ('0' as int + n) as char
    } else {
        ('a' as int + n - 10) as char
    }
}

/// `bytes` in hexadecimal: two lower-case digits for each byte, the high half first.
pub open spec fn hex_text(bytes: Seq<u8>) -> Seq<char> {
    Seq::new(
        2 * bytes.len(),
        |i: int|
            if i % 2 == 0 {
                hex_digit(bytes[i / 2] as int / 16)
            } else {
                hex_digit(bytes[i / 2] as int % 16)
            },
    )
}

/// `hex::encode`: two lower-case hexadecimal digits for each byte, the high half first. The text
/// must fit into memory.
#[verifier::external_body]
fn hex_encode(bytes: &[u8]) -> (text: String)
    requires
        2 * bytes@.len() <= isize::MAX,
    ensures
        text@ == hex_text(bytes@),
{
    hex::encode(bytes)
}

/// The MD5 hash of `bytes`.
pub uninterp spec fn md5_sum(bytes: Seq<u8>) -> [u8; 16];

/// `Md5::digest`: the MD5 hash, which depends on the bytes alone.
#[verifier::external_body]
fn md5_digest(bytes: &[u8]) -> (sum: [u8; 16])
    ensures
        sum == md5_sum(bytes@),
{
    md5::Md5::digest(bytes).into()
}

/// The MD5 hash of a text, in hexadecimal.
pub open spec fn md5_text(s: Seq<char>) -> Seq<char> {
    hex_text(md5_sum(vstd::utf8::encode_utf8(s))@)
}

/// The MD5 hash of `input`, in lower-case hexadecimal.
pub fn md5_hex(input: &str) -> (text: String)
    ensures
        text@ == md5_text(input@),
        text@.len() == 32,
{
    let sum = md5_digest(input.as_bytes());
    hex_encode(sum.as_slice())
}

/// `ThreadRng::gen` for 16 bytes: nothing is promised of them.
#[verifier::external_body]
fn random_bytes() -> (bytes: [u8; 16]) {
    rand::thread_rng().gen()
}

/// Whether `s` is a nonce: 16 bytes in hexadecimal.
pub open spec fn is_nonce(s: Seq<char>) -> bool {
    exists|bytes: Seq<u8>| bytes.len() == 16 && s == #[trigger] hex_text(bytes)
}

/// A fresh random nonce: 16 bytes, as 32 hexadecimal characters.
pub fn generate_nonce() -> (nonce: String)
    ensures
        is_nonce(nonce@),
        nonce@.len() == 32,
{
    let bytes = random_bytes();
    hex_encode(bytes.as_slice())
}

// ---------------------------------------------------------------------------
// The Authorization header
// ---------------------------------------------------------------------------

/// The position of the first comma of `s` that stands outside quotes; the length of `s` where
/// there is none. `quoted` says whether `s` starts inside quotes.
pub open spec fn comma_at(s: Seq<char>, quoted: bool) -> nat
    decreases s.len(),
{
    if s.len() == 0 {
        0
    } else if s[0] == '"' {
        1 + comma_at(s.drop_first(), !quoted)
    } else if s[0] == ',' && !quoted {
        0
    } else {
        1 + comma_at(s.drop_first(), quoted)
    }
}

/// `piece` as a list: empty where it holds white space only.
pub open spec fn unless_blank(piece: Seq<char>) -> Seq<Seq<char>> {
    if text::trim(piece).len() == 0 {
        Seq::empty()
    } else {
        seq![piece]
    }
}

/// The pieces of `s` between the commas outside quotes, without the blank ones.
pub open spec fn digest_pieces(s: Seq<char>) -> Seq<Seq<char>>
    decreases s.len(),
{
    let end = comma_at(s, false);
    if end >= s.len() {
        unless_blank(s)
    } else {
        unless_blank(s.take(end as int)) + digest_pieces(s.skip(end as int + 1))
    }
}

/// Splits the parameters of an Authorization header at the commas outside quotes.
pub fn split_digest_params(input: &str) -> (params: Vec<String>)
    ensures
        text::views(params@) == digest_pieces(input@),
{
    let chars = chars_of(input);
    let mut params: Vec<String> = Vec::new();
    let mut current = String::new();
    let mut in_quotes = false;
    let ghost mut start: int = 0;
    assert(input@.skip(0) =~= input@);
    assert(text::views(params@) + digest_pieces(input@) =~= digest_pieces(input@));
    for i in 0..chars.len()
        invariant
            chars@ == input@,
            0 <= start <= i,
            current@ == chars@.subrange(start, i as int),
            comma_at(chars@.skip(start), false) == i - start + comma_at(
                chars@.skip(i as int),
                in_quotes,
            ),
            text::views(params@) + digest_pieces(chars@.skip(start)) == digest_pieces(input@),
    {
        let ch = chars[i];
        let ghost rest = chars@.skip(i as int);
        let ghost done = text::views(params@);
        assert(rest[0] == ch);
        assert(rest.drop_first() =~= chars@.skip(i + 1));
        if ch == '"' {
            in_quotes = !in_quotes;
            current.push(ch);
            assert(current@ =~= chars@.subrange(start, i + 1));
        } else if ch == ',' && !in_quotes {
            let ghost whole = chars@.skip(start);
            assert(whole.take(i - start) =~= current@);
            assert(whole.skip(i - start + 1) =~= chars@.skip(i + 1));
            if !trimmed(current.as_str()).as_str().is_empty() {
                params.push(current.clone());
                assert(text::views(params@) =~= done + seq![current@]);
            }
            assert(text::views(params@) =~= done + unless_blank(current@));
            current = String::new();
            proof {
                start = i + 1;
            }
            assert(text::views(params@) + digest_pieces(chars@.skip(start)) =~= done + digest_pieces(
                whole,
            ));
            assert(current@ =~= chars@.subrange(start, i + 1));
        } else {
            current.push(ch);
            assert(current@ =~= chars@.subrange(start, i + 1));
        }
    }
    proof {
        let whole = chars@.skip(start);
        assert(chars@.skip(chars@.len() as int).len() == 0);
        assert(whole =~= current@);
        assert(digest_pieces(whole) == unless_blank(whole));
    }
    let ghost done = text::views(params@);
    if !trimmed(current.as_str()).as_str().is_empty() {
        params.push(current);
        assert(text::views(params@) =~= done + seq![current@]);
    }
    assert(text::views(params@) =~= done + unless_blank(current@));
    params
}

/// The parameters of an Authorization header.
#[derive(Debug)]
pub struct DigestParams {
    pub username: String,
    pub realm: String,
    pub nonce: String,
    pub uri: String,
    pub response: String,
    /// The quality of protection, such as `auth`; clients may leave it out.
    pub qop: Option<String>,
    /// The nonce count, in hexadecimal, such as `00000001`.
    pub nc: Option<String>,
    /// The nonce of the client.
    pub cnonce: Option<String>,
}

/// What [`DigestParams`] holds.
pub struct DigestView {
    pub username: Seq<char>,
    pub realm: Seq<char>,
    pub nonce: Seq<char>,
    pub uri: Seq<char>,
    pub response: Seq<char>,
    pub qop: Option<Seq<char>>,
    pub nc: Option<Seq<char>>,
    pub cnonce: Option<Seq<char>>,
}

impl View for DigestParams {
    type V = DigestView;

    open spec fn view(&self) -> DigestView {
        DigestView {
            username: self.username@,
            realm: self.realm@,
            nonce: self.nonce@,
            uri: self.uri@,
            response: self.response@,
            qop: text::text_view(self.qop),
            nc: text::text_view(self.nc),
            cnonce: text::text_view(self.cnonce),
        }
    }
}

/// The name, in lower case, and the value, without quotes, of one `name=value` parameter.
pub open spec fn name_and_value(piece: Seq<char>) -> Option<(Seq<char>, Seq<char>)> {
    let param = text::trim(piece);
    let mark = text::find(param, Class::Is('='));
    if mark >= param.len() {
        None
    } else {
        Some(
            (
                text::lowercase(text::trim(param.take(mark as int))),
                text::unquote(text::trim(param.skip(mark as int + 1))),
            ),
        )
    }
}

/// The value of the last parameter with this name.
pub open spec fn last_value(pieces: Seq<Seq<char>>, name: Seq<char>) -> Option<Seq<char>>
    decreases pieces.len(),
{
    if pieces.len() == 0 {
        None
    } else {
        match name_and_value(pieces.last()) {
            Some((found, value)) if found == name => Some(value),
            _ => last_value(pieces.drop_last(), name),
        }
    }
}

/// The parameters after the word `Digest`, which may be missing.
pub open spec fn digest_part(header: Seq<char>) -> Seq<char> {
    let value = text::trim(header);
    if "Digest"@.is_prefix_of(value) {
        text::trim(value.skip("Digest"@.len() as int))
    } else {
        value
    }
}

/// What an Authorization header says: each parameter has the value given last. There is nothing
/// where the user name, the nonce or the response is missing or empty.
pub open spec fn authorization(header: Seq<char>) -> Option<DigestView> {
    let pieces = digest_pieces(digest_part(header));
    let params = DigestView {
        username: text::or_empty(last_value(pieces, "username"@)),
        realm: text::or_empty(last_value(pieces, "realm"@)),
        nonce: text::or_empty(last_value(pieces, "nonce"@)),
        uri: text::or_empty(last_value(pieces, "uri"@)),
        response: text::or_empty(last_value(pieces, "response"@)),
        qop: last_value(pieces, "qop"@),
        nc: last_value(pieces, "nc"@),
        cnonce: last_value(pieces, "cnonce"@),
    };
    if params.username.len() == 0 || params.nonce.len() == 0 || params.response.len() == 0 {
        None
    } else {
        Some(params)
    }
}

/// Reads an Authorization header, such as
/// `Digest username="1001", realm="minghe.local", nonce="xxx", uri="sip:minghe.local", response="yyy"`.
pub fn parse_authorization(header_value: &str) -> (params: Option<DigestParams>)
    ensures
        params is Some == authorization(header_value@) is Some,
        params matches Some(p) ==> Some(p@) == authorization(header_value@),
{
    let value = trimmed(header_value);
    let value = match strip_prefix(value.as_str(), "Digest") {
        Some(rest) => trimmed(rest.as_str()),
        None => value,
    };
    let list = split_digest_params(value.as_str());

    let mut username = String::new();
    let mut realm = String::new();
    let mut nonce = String::new();
    let mut uri = String::new();
    let mut response = String::new();
    let mut qop: Option<String> = None;
    let mut nc: Option<String> = None;
    let mut cnonce: Option<String> = None;

    let ghost pieces = text::views(list@);
    for i in 0..list.len()
        invariant
            pieces == text::views(list@),
            username@ == text::or_empty(last_value(pieces.take(i as int), "username"@)),
            realm@ == text::or_empty(last_value(pieces.take(i as int), "realm"@)),
            nonce@ == text::or_empty(last_value(pieces.take(i as int), "nonce"@)),
            uri@ == text::or_empty(last_value(pieces.take(i as int), "uri"@)),
            response@ == text::or_empty(last_value(pieces.take(i as int), "response"@)),
            text::text_view(qop) == last_value(pieces.take(i as int), "qop"@),
            text::text_view(nc) == last_value(pieces.take(i as int), "nc"@),
            text::text_view(cnonce) == last_value(pieces.take(i as int), "cnonce"@),
    {
        proof {
            let taken = pieces.take(i + 1);
            assert(taken.drop_last() =~= pieces.take(i as int));
            assert(taken.last() == list@[i as int]@);
        }
        let param = trimmed(list[i].as_str());
        if let Some((name, value)) = split_once(param.as_str(), '=') {
            let name = to_lowercase(trimmed(name.as_str()).as_str());
            let value = unquoted(trimmed(value.as_str()).as_str());
            if same(name.as_str(), "username") {
                username = value.clone();
            }
            if same(name.as_str(), "realm") {
                realm = value.clone();
            }
            if same(name.as_str(), "nonce") {
                nonce = value.clone();
            }
            if same(name.as_str(), "uri") {
                uri = value.clone();
            }
            if same(name.as_str(), "response") {
                response = value.clone();
            }
            if same(name.as_str(), "qop") {
                qop = Some(value.clone());
            }
            if same(name.as_str(), "nc") {
                nc = Some(value.clone());
            }
            if same(name.as_str(), "cnonce") {
                cnonce = Some(value);
            }
        }
    }
    assert(pieces.take(list@.len() as int) =~= pieces);

    if username.as_str().is_empty() || nonce.as_str().is_empty() || response.as_str().is_empty() {
        return None;
    }
    Some(DigestParams { username, realm, nonce, uri, response, qop, nc, cnonce })
}

// ---------------------------------------------------------------------------
// The response
// ---------------------------------------------------------------------------

/// `HA1`: the hash of user name, realm and password.
pub open spec fn ha1(username: Seq<char>, realm: Seq<char>, password: Seq<char>) -> Seq<char> {
    md5_text(username + ":"@ + realm + ":"@ + password)
}

/// `HA2`: the hash of method and URI.
pub open spec fn ha2(method: Seq<char>, uri: Seq<char>) -> Seq<char> {
    md5_text(method + ":"@ + uri)
}

/// The response that a client with this password gives.
pub open spec fn digest_response(
    username: Seq<char>,
    realm: Seq<char>,
    password: Seq<char>,
    nonce: Seq<char>,
    uri: Seq<char>,
    method: Seq<char>,
    qop: Option<Seq<char>>,
    nc: Option<Seq<char>>,
    cnonce: Option<Seq<char>>,
) -> Seq<char> {
    if qop == Some("auth"@) {
        let count = match nc {
            Some(count) => count,
            None => "00000001"@,
        };
        md5_text(
            ha1(username, realm, password) + ":"@ + nonce + ":"@ + count + ":"@ + text::or_empty(cnonce)
                + ":auth:"@ + ha2(method, uri),
        )
    } else {
        md5_text(ha1(username, realm, password) + ":"@ + nonce + ":"@ + ha2(method, uri))
    }
}

/// Checks the response of a client, without regard to case.
pub fn validate_digest(
    username: &str,
    realm: &str,
    password: &str,
    nonce: &str,
    uri: &str,
    method: &str,
    response: &str,
    qop: Option<&str>,
    nc: Option<&str>,
    cnonce: Option<&str>,
) -> (valid: bool)
    ensures
        valid == (text::lowercase(response@) == text::lowercase(
            digest_response(
                username@,
                realm@,
                password@,
                nonce@,
                uri@,
                method@,
                text::str_view(qop),
                text::str_view(nc),
                text::str_view(cnonce),
            ),
        )),
{
    let mut a1 = username.to_owned();
    a1.append(":");
    a1.append(realm);
    a1.append(":");
    a1.append(password);
    let ha1 = md5_hex(a1.as_str());

    let mut a2 = method.to_owned();
    a2.append(":");
    a2.append(uri);
    let ha2 = md5_hex(a2.as_str());

    let auth = match qop {
        Some(kind) => same(kind, "auth"),
        None => false,
    };
    let mut joined = ha1;
    joined.append(":");
    joined.append(nonce);
    if auth {
        joined.append(":");
        match nc {
            Some(count) => joined.append(count),
            None => joined.append("00000001"),
        }
        joined.append(":");
        match cnonce {
            Some(own) => joined.append(own),
            None => {
                assert(joined@ + Seq::empty() =~= joined@);
            },
        }
        joined.append(":auth:");
    } else {
        joined.append(":");
    }
    joined.append(ha2.as_str());
    let expected = md5_hex(joined.as_str());

    same(to_lowercase(expected.as_str()).as_str(), to_lowercase(response).as_str())
}

} // verus!
