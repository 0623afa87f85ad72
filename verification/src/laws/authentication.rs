//! Authentication: what is read from an Authorization header, and which client is let in.

use crate::laws::registration;
use crate::sip::digest;
use crate::sip::registrar::{RegistrarView, RegisterView};
use crate::text;
use vstd::prelude::*;

verus! {

// ---------------------------------------------------------------------------
// Headers with quoted values
// ---------------------------------------------------------------------------

/// A parameter with its value in quotes.
pub open spec fn quoted_param(param: (Seq<char>, Seq<char>)) -> Seq<char> {
    param.0 + "=\""@ + param.1 + "\""@
}

/// Parameters with their values in quotes, with a comma and a blank between each two.
pub open spec fn param_list(params: Seq<(Seq<char>, Seq<char>)>) -> Seq<char>
    decreases params.len(),
{
    if params.len() == 0 {
        Seq::empty()
    } else if params.len() == 1 {
        quoted_param(params[0])
    } else {
        quoted_param(params[0]) + ", "@ + param_list(params.drop_first())
    }
}

/// An Authorization header with these parameters.
pub open spec fn digest_header(params: Seq<(Seq<char>, Seq<char>)>) -> Seq<char> {
    "Digest "@ + param_list(params)
}

/// Whether `name` can name a parameter: it is not empty, and holds no white space, quote, comma
/// or equals sign.
pub open spec fn is_param_name(name: Seq<char>) -> bool {
    name.len() > 0 && forall|i: int|
        0 <= i < name.len() ==> !text::white_space(#[trigger] name[i]) && name[i] != '"' && name[i]
            != ',' && name[i] != '='
}

/// Whether a value can stand in quotes: it holds none.
pub open spec fn is_quotable(value: Seq<char>) -> bool {
    forall|i: int| 0 <= i < value.len() ==> #[trigger] value[i] != '"'
}

/// Whether the parameters can be written with their values in quotes.
pub open spec fn writable(params: Seq<(Seq<char>, Seq<char>)>) -> bool {
    params.len() > 0 && forall|i: int|
        0 <= i < params.len() ==> is_param_name((#[trigger] params[i]).0) && is_quotable(
            params[i].1,
        )
}

/// The value that is given last for a name, in whatever case.
pub open spec fn last_given(
    params: Seq<(Seq<char>, Seq<char>)>,
    name: Seq<char>,
) -> Option<Seq<char>>
    decreases params.len(),
{
    if params.len() == 0 {
        None
    } else if text::lowercase(params.last().0) == name {
        Some(params.last().1)
    } else {
        last_given(params.drop_last(), name)
    }
}

/// Text without quotes, and without commas unless it stands in quotes, is passed over.
pub(crate) proof fn lemma_comma_skip(s: Seq<char>, rest: Seq<char>, quoted: bool)
    requires
        is_quotable(s),
        quoted || forall|i: int| 0 <= i < s.len() ==> #[trigger] s[i] != ',',
    ensures
        digest::comma_at(s + rest, quoted) == s.len() + digest::comma_at(rest, quoted),
    decreases s.len(),
{
    if s.len() == 0 {
        assert(s + rest =~= rest);
    } else {
        let t = s.drop_first();
        assert((s + rest)[0] == s[0]);
        assert((s + rest).drop_first() =~= t + rest);
        assert forall|i: int| 0 <= i < t.len() implies #[trigger] t[i] != '"' by {
            assert(t[i] == s[i + 1]);
        }
        if !quoted {
            assert forall|i: int| 0 <= i < t.len() implies #[trigger] t[i] != ',' by {
                assert(t[i] == s[i + 1]);
            }
        }
        lemma_comma_skip(t, rest, quoted);
    }
}

/// Whether `lead` is nothing or one blank.
spec fn is_lead(lead: Seq<char>) -> bool {
    lead == Seq::<char>::empty() || lead == " "@
}

/// A parameter with its value in quotes is passed over.
proof fn lemma_comma_after_param(
    lead: Seq<char>,
    param: (Seq<char>, Seq<char>),
    rest: Seq<char>,
)
    requires
        is_lead(lead),
        is_param_name(param.0),
        is_quotable(param.1),
    ensures
        digest::comma_at(lead + quoted_param(param) + rest, false) == (lead + quoted_param(
            param,
        )).len() + digest::comma_at(rest, false),
{
    reveal_strlit(" ");
    reveal_strlit("=\"");
    reveal_strlit("\"");
    let name = param.0;
    let value = param.1;
    let s = lead + quoted_param(param) + rest;
    let front = lead + name + seq!['='];
    let quote = seq!['"'];
    let closed = quote + rest;
    let inside = value + closed;
    let opened = quote + inside;
    assert(s =~= front + opened);
    assert forall|i: int| 0 <= i < front.len() implies #[trigger] front[i] != '"' && front[i]
        != ',' by {
        if i >= lead.len() && i < lead.len() + name.len() {
            assert(front[i] == name[i - lead.len()]);
        }
    }
    lemma_comma_skip(front, opened, false);
    assert(opened.drop_first() =~= inside);
    lemma_comma_skip(value, closed, true);
    assert(closed.drop_first() =~= rest);
}

/// What a parameter with its value in quotes says.
proof fn lemma_param_read(lead: Seq<char>, param: (Seq<char>, Seq<char>))
    requires
        is_lead(lead),
        is_param_name(param.0),
        is_quotable(param.1),
    ensures
        digest::name_and_value(lead + quoted_param(param)) == Some(
            (text::lowercase(param.0), param.1),
        ),
        text::trim(lead + quoted_param(param)) == quoted_param(param),
{
    reveal_strlit(" ");
    reveal_strlit("=\"");
    reveal_strlit("\"");
    let name = param.0;
    let value = param.1;
    let x = quoted_param(param);
    let s = lead + x;
    assert(x[0] == name[0]);
    assert(x.last() == '"');
    lemma_trim_lead(lead, x);
    let mark = name.len();
    assert forall|j: int| 0 <= j < mark implies !text::Class::Is('=').holds(#[trigger] x[j]) by {
        assert(x[j] == name[j]);
    }
    assert(x[mark as int] == '=');
    text::lemma_find_at(x, text::Class::Is('='), mark);
    assert(x.take(mark as int) =~= name);
    text::lemma_trim_solid(name);
    let quoted = x.skip(mark as int + 1);
    assert(quoted =~= "\""@ + value + "\""@);
    text::lemma_trim_solid(quoted);
    lemma_unquote(value);
}

/// A blank before a text that starts and ends with other characters is trimmed away.
proof fn lemma_trim_lead(lead: Seq<char>, x: Seq<char>)
    requires
        is_lead(lead),
        x.len() > 0,
        !text::white_space(x[0]),
        !text::white_space(x.last()),
    ensures
        text::trim(lead + x) == x,
{
    reveal_strlit(" ");
    let s = lead + x;
    if lead.len() == 0 {
        assert(s =~= x);
        text::lemma_trim_solid(x);
    } else {
        assert forall|j: int| 0 <= j < 1 implies !text::Class::NotSpace.holds(#[trigger] s[j]) by {
            assert(s[j] == ' ');
        }
        assert(s[1] == x[0]);
        text::lemma_find_at(s, text::Class::NotSpace, 1);
        assert(s.skip(1) =~= x);
    }
}

/// Quotes around a value without quotes come off.
proof fn lemma_unquote(value: Seq<char>)
    requires
        is_quotable(value),
    ensures
        text::unquote("\""@ + value + "\""@) == value,
{
    reveal_strlit("\"");
    let s = "\""@ + value + "\""@;
    let outside = text::Class::Not('"');
    if value.len() == 0 {
        assert forall|j: int| 0 <= j < 2 implies !outside.holds(#[trigger] s[j]) by {}
        text::lemma_find_at(s, outside, 2);
        assert(s.skip(2) =~= value);
    } else {
        assert(s[0] == '"');
        assert(s[1] == value[0]);
        text::lemma_find_at(s, outside, 1);
        let rest = s.skip(1);
        assert(rest =~= value + "\""@);
        assert(rest.last() == '"');
        assert(rest.drop_last() =~= value);
        assert(outside.holds(value[value.len() - 1]));
        assert(text::trim_end(value, outside) == value);
    }
}

/// The pieces of a parameter list, of which all but the first start with a blank.
spec fn param_pieces(lead: Seq<char>, params: Seq<(Seq<char>, Seq<char>)>) -> Seq<Seq<char>> {
    Seq::new(
        params.len(),
        |i: int|
            if i == 0 {
                lead + quoted_param(params[i])
            } else {
                " "@ + quoted_param(params[i])
            },
    )
}

/// A parameter list splits into its parameters.
proof fn lemma_pieces(lead: Seq<char>, params: Seq<(Seq<char>, Seq<char>)>)
    requires
        is_lead(lead),
        writable(params),
    ensures
        digest::digest_pieces(lead + param_list(params)) == param_pieces(lead, params),
    decreases params.len(),
{
    reveal_strlit(" ");
    reveal_strlit(", ");
    reveal_strlit("=\"");
    reveal_strlit("\"");
    let piece = lead + quoted_param(params[0]);
    let s = lead + param_list(params);
    assert(is_param_name(params[0].0));
    lemma_param_read(lead, params[0]);
    assert(digest::unless_blank(piece) =~= seq![piece]);
    if params.len() == 1 {
        let none = Seq::<char>::empty();
        lemma_comma_after_param(lead, params[0], none);
        assert(piece + none =~= s);
        assert(digest::digest_pieces(s) =~= param_pieces(lead, params));
    } else {
        let others = params.drop_first();
        assert forall|i: int| 0 <= i < others.len() implies is_param_name(
            (#[trigger] others[i]).0,
        ) && is_quotable(others[i].1) by {
            assert(others[i] == params[i + 1]);
        }
        let rest = ", "@ + param_list(others);
        lemma_comma_after_param(lead, params[0], rest);
        assert(piece + rest =~= s);
        assert(rest[0] == ',');
        assert(digest::comma_at(rest, false) == 0);
        assert(s.take(piece.len() as int) =~= piece);
        assert(s.skip(piece.len() as int + 1) =~= " "@ + param_list(others));
        lemma_pieces(" "@, others);
        let pieces = param_pieces(lead, params);
        let tail = param_pieces(" "@, others);
        assert forall|i: int| 0 < i < pieces.len() implies #[trigger] pieces[i] == tail[i
            - 1] by {
            assert(others[i - 1] == params[i]);
        }
        assert(seq![piece] + tail =~= pieces);
        assert(digest::digest_pieces(s) =~= pieces);
    }
}

/// The last value in the pieces is the last one given.
pub(crate) proof fn lemma_last_value(
    pieces: Seq<Seq<char>>,
    params: Seq<(Seq<char>, Seq<char>)>,
    name: Seq<char>,
)
    requires
        pieces.len() == params.len(),
        forall|i: int|
            0 <= i < pieces.len() ==> digest::name_and_value(#[trigger] pieces[i]) == Some(
                (text::lowercase(params[i].0), params[i].1),
            ),
    ensures
        digest::last_value(pieces, name) == last_given(params, name),
    decreases pieces.len(),
{
    if pieces.len() > 0 {
        let shorter = pieces.drop_last();
        let fewer = params.drop_last();
        assert(digest::name_and_value(pieces[pieces.len() - 1]) is Some);
        assert forall|i: int| 0 <= i < shorter.len() implies digest::name_and_value(
            #[trigger] shorter[i],
        ) == Some((text::lowercase(fewer[i].0), fewer[i].1)) by {
            assert(shorter[i] == pieces[i]);
            assert(fewer[i] == params[i]);
        }
        lemma_last_value(shorter, fewer, name);
    }
}

/// A parameter list starts and ends with characters that are not white space.
proof fn lemma_list_ends(params: Seq<(Seq<char>, Seq<char>)>)
    requires
        writable(params),
    ensures
        param_list(params).len() > 0,
        !text::white_space(param_list(params)[0]),
        param_list(params).last() == '"',
    decreases params.len(),
{
    reveal_strlit("=\"");
    reveal_strlit("\"");
    assert(is_param_name(params[0].0));
    assert(quoted_param(params[0])[0] == params[0].0[0]);
    assert(quoted_param(params[0]).last() == '"');
    if params.len() > 1 {
        let others = params.drop_first();
        assert forall|i: int| 0 <= i < others.len() implies is_param_name(
            (#[trigger] others[i]).0,
        ) && is_quotable(others[i].1) by {
            assert(others[i] == params[i + 1]);
        }
        lemma_list_ends(others);
    }
}

/// What a list of parameters says, each with the value given last.
pub open spec fn said(params: Seq<(Seq<char>, Seq<char>)>) -> digest::DigestView {
    digest::DigestView {
        username: text::or_empty(last_given(params, "username"@)),
        realm: text::or_empty(last_given(params, "realm"@)),
        nonce: text::or_empty(last_given(params, "nonce"@)),
        uri: text::or_empty(last_given(params, "uri"@)),
        response: text::or_empty(last_given(params, "response"@)),
        qop: last_given(params, "qop"@),
        nc: last_given(params, "nc"@),
        cnonce: last_given(params, "cnonce"@),
    }
}

/// What is heard of a list of parameters: nothing where the user name, the nonce or the response is
/// missing or empty.
pub open spec fn heard(params: Seq<(Seq<char>, Seq<char>)>) -> Option<digest::DigestView> {
    if said(params).username.len() == 0 || said(params).nonce.len() == 0 || said(
        params,
    ).response.len() == 0 {
        None
    } else {
        Some(said(params))
    }
}

/// An Authorization header that is written with quoted values is read back: each parameter has
/// the value that was written last for it, commas in it included; there is nothing where the
/// user name, the nonce or the response is missing or empty.
pub proof fn law_authorization_is_read_back(params: Seq<(Seq<char>, Seq<char>)>)
    requires
        writable(params),
    ensures
        digest::authorization(digest_header(params)) == heard(params),
{
    reveal_strlit("Digest ");
    reveal_strlit("Digest");
    reveal_strlit(" ");
    let list = param_list(params);
    let header = digest_header(params);
    lemma_list_ends(params);
    assert(header[0] == 'D');
    assert(header.last() == '"');
    text::lemma_trim_solid(header);
    assert("Digest"@ =~= header.subrange(0, 6));
    assert(header.skip(6) =~= " "@ + list);
    lemma_trim_lead(" "@, list);
    assert(digest::digest_part(header) == list);

    let none = Seq::<char>::empty();
    lemma_pieces(none, params);
    assert(none + list =~= list);
    let pieces = param_pieces(none, params);
    assert forall|i: int| 0 <= i < pieces.len() implies digest::name_and_value(
        #[trigger] pieces[i],
    ) == Some((text::lowercase(params[i].0), params[i].1)) by {
        assert(is_param_name(params[i].0));
        lemma_param_read(none, params[i]);
        lemma_param_read(" "@, params[i]);
    }
    lemma_last_value(pieces, params, "username"@);
    lemma_last_value(pieces, params, "realm"@);
    lemma_last_value(pieces, params, "nonce"@);
    lemma_last_value(pieces, params, "uri"@);
    lemma_last_value(pieces, params, "response"@);
    lemma_last_value(pieces, params, "qop"@);
    lemma_last_value(pieces, params, "nc"@);
    lemma_last_value(pieces, params, "cnonce"@);
}

// ---------------------------------------------------------------------------
// Responses
// ---------------------------------------------------------------------------

/// Hexadecimal text is lower-case ASCII without quotes.
proof fn lemma_hex_text(bytes: Seq<u8>)
    ensures
        text::lowercase(digest::hex_text(bytes)) == digest::hex_text(bytes),
        is_quotable(digest::hex_text(bytes)),
{
    let s = digest::hex_text(bytes);
    assert forall|i: int| 0 <= i < s.len() implies ('0' <= #[trigger] s[i] <= '9') || ('a' <= s[i]
        <= 'f') by {
        let byte = bytes[i / 2];
        assert(0 <= byte as int / 16 < 16);
        assert(0 <= byte as int % 16 < 16);
    }
    assert(vstd::utf8::is_ascii_chars(s));
    assert(text::lowercase(s) =~= s);
}

/// The response that is expected of a client is 32 characters of lower-case hexadecimal.
proof fn lemma_response(
    username: Seq<char>,
    realm: Seq<char>,
    password: Seq<char>,
    nonce: Seq<char>,
    uri: Seq<char>,
    method: Seq<char>,
    qop: Option<Seq<char>>,
    nc: Option<Seq<char>>,
    cnonce: Option<Seq<char>>,
)
    ensures
        ({
            let expected = digest::digest_response(
                username,
                realm,
                password,
                nonce,
                uri,
                method,
                qop,
                nc,
                cnonce,
            );
            &&& expected.len() == 32
            &&& text::lowercase(expected) == expected
            &&& is_quotable(expected)
        }),
{
    let a1 = digest::ha1(username, realm, password);
    let a2 = digest::ha2(method, uri);
    let count = match nc {
        Some(count) => count,
        None => "00000001"@,
    };
    let with_qop = vstd::utf8::encode_utf8(
        a1 + ":"@ + nonce + ":"@ + count + ":"@ + text::or_empty(cnonce) + ":auth:"@ + a2,
    );
    let without = vstd::utf8::encode_utf8(a1 + ":"@ + nonce + ":"@ + a2);
    lemma_hex_text(digest::md5_sum(with_qop)@);
    lemma_hex_text(digest::md5_sum(without)@);
}

/// The MD5 hash of a text is written with two lower-case hexadecimal digits for each of its 16
/// bytes, the high half first.
pub proof fn law_hash_in_hexadecimal(s: Seq<char>)
    ensures
        digest::md5_text(s).len() == 32,
        forall|i: int|
            0 <= i < 16 ==> {
                let byte = #[trigger] digest::md5_sum(vstd::utf8::encode_utf8(s))@[i] as int;
                let high = digest::md5_text(s)[2 * i] as int;
                let low = digest::md5_text(s)[2 * i + 1] as int;
                &&& high == (if byte / 16 < 10 {
                    48 + byte / 16
                } else {
                    87 + byte / 16
                })
                &&& low == (if byte % 16 < 10 {
                    48 + byte % 16
                } else {
                    87 + byte % 16
                })
            },
{
    let sum = digest::md5_sum(vstd::utf8::encode_utf8(s))@;
    assert forall|i: int| 0 <= i < 16 implies {
        let byte = #[trigger] sum[i] as int;
        let high = digest::md5_text(s)[2 * i] as int;
        let low = digest::md5_text(s)[2 * i + 1] as int;
        &&& high == (if byte / 16 < 10 {
            48 + byte / 16
        } else {
            87 + byte / 16
        })
        &&& low == (if byte % 16 < 10 {
            48 + byte % 16
        } else {
            87 + byte % 16
        })
    } by {
        let byte = sum[i] as int;
        assert(0 <= byte / 16 < 16);
        assert(0 <= byte % 16 < 16);
        assert((2 * i) / 2 == i);
        assert((2 * i + 1) / 2 == i);
    }
}

/// A nonce is 32 lower-case hexadecimal digits.
pub proof fn law_nonce_in_hexadecimal(nonce: Seq<char>)
    requires
        digest::is_nonce(nonce),
    ensures
        nonce.len() == 32,
        forall|i: int|
            0 <= i < 32 ==> 48 <= #[trigger] nonce[i] as int <= 57 || 97 <= nonce[i] as int <= 102,
{
    let bytes = choose|bytes: Seq<u8>| bytes.len() == 16 && nonce == #[trigger] digest::hex_text(
        bytes,
    );
    assert forall|i: int| 0 <= i < 32 implies 48 <= #[trigger] nonce[i] as int <= 57 || 97
        <= nonce[i] as int <= 102 by {
        let byte = bytes[i / 2] as int;
        assert(0 <= byte / 16 < 16);
        assert(0 <= byte % 16 < 16);
    }
}

/// The response that fits, written out over the hash. With the quality of protection `auth` it is
/// the hash of `HA1:nonce:nc:cnonce:auth:HA2`, with the count `00000001` and an empty nonce of the
/// client where they are missing; with any other, or none, the hash of `HA1:nonce:HA2`. `HA1` is
/// the hash of `username:realm:password`, `HA2` that of `method:uri`. All texts count whole.
pub proof fn law_response_over_the_hash(
    username: Seq<char>,
    realm: Seq<char>,
    password: Seq<char>,
    nonce: Seq<char>,
    uri: Seq<char>,
    method: Seq<char>,
    qop: Option<Seq<char>>,
    nc: Option<Seq<char>>,
    cnonce: Option<Seq<char>>,
)
    ensures
        ({
            let expected = digest::digest_response(
                username,
                realm,
                password,
                nonce,
                uri,
                method,
                qop,
                nc,
                cnonce,
            );
            let h1 = digest::md5_text(username + ":"@ + realm + ":"@ + password);
            let h2 = digest::md5_text(method + ":"@ + uri);
            let count = match nc {
                Some(given) => given,
                None => "00000001"@,
            };
            let own = match cnonce {
                Some(given) => given,
                None => Seq::empty(),
            };
            &&& qop == Some("auth"@) ==> expected == digest::md5_text(
                h1 + ":"@ + nonce + ":"@ + count + ":"@ + own + ":auth:"@ + h2,
            )
            &&& qop != Some("auth"@) ==> expected == digest::md5_text(
                h1 + ":"@ + nonce + ":"@ + h2,
            )
            &&& text::lowercase(expected) == expected
        }),
{
    lemma_response(username, realm, password, nonce, uri, method, qop, nc, cnonce);
}

/// A client of an extension is authentic exactly where its response, in whatever case, is the hash
/// over what its header says, the method `REGISTER` and the password of the extension: its own,
/// or the default one where it has none.
pub proof fn law_authentic_over_the_hash(
    registrar: RegistrarView,
    extension: Seq<char>,
    params: digest::DigestView,
)
    ensures
        ({
            let password = if registrar.passwords.dom().contains(extension) {
                registrar.passwords[extension]
            } else {
                registrar.default_password
            };
            let h1 = digest::md5_text(params.username + ":"@ + params.realm + ":"@ + password);
            let h2 = digest::md5_text("REGISTER"@ + ":"@ + params.uri);
            let count = match params.nc {
                Some(given) => given,
                None => "00000001"@,
            };
            let own = match params.cnonce {
                Some(given) => given,
                None => Seq::empty(),
            };
            registrar.authentic(extension, params) <==> text::lowercase(params.response) == (
            if params.qop == Some("auth"@) {
                digest::md5_text(
                    h1 + ":"@ + params.nonce + ":"@ + count + ":"@ + own + ":auth:"@ + h2,
                )
            } else {
                digest::md5_text(h1 + ":"@ + params.nonce + ":"@ + h2)
            })
        }),
{
    law_response_over_the_hash(
        params.username,
        params.realm,
        registrar.password(extension),
        params.nonce,
        params.uri,
        "REGISTER"@,
        params.qop,
        params.nc,
        params.cnonce,
    );
}

/// A client that gives the expected response is authentic, whether it writes the digits above 9
/// in upper or in lower case.
pub proof fn law_case_of_response_does_not_matter(
    registrar: RegistrarView,
    extension: Seq<char>,
    params: digest::DigestView,
)
    ensures
        registrar.authentic(extension, params) <==> text::lowercase(params.response)
            == digest::digest_response(
            params.username,
            params.realm,
            registrar.password(extension),
            params.nonce,
            params.uri,
            "REGISTER"@,
            params.qop,
            params.nc,
            params.cnonce,
        ),
{
    lemma_response(
        params.username,
        params.realm,
        registrar.password(extension),
        params.nonce,
        params.uri,
        "REGISTER"@,
        params.qop,
        params.nc,
        params.cnonce,
    );
}

/// The parameters of a client that answers without qop.
pub open spec fn plain_answer(
    username: Seq<char>,
    realm: Seq<char>,
    password: Seq<char>,
    nonce: Seq<char>,
    uri: Seq<char>,
) -> Seq<(Seq<char>, Seq<char>)> {
    seq![
        ("username"@, username),
        ("realm"@, realm),
        ("nonce"@, nonce),
        ("uri"@, uri),
        (
            "response"@,
            digest::md5_text(
                digest::md5_text(username + ":"@ + realm + ":"@ + password) + ":"@ + nonce + ":"@
                    + digest::md5_text("REGISTER"@ + ":"@ + uri),
            ),
        ),
    ]
}

/// The parameters of a client that answers with qop.
pub open spec fn auth_answer(
    username: Seq<char>,
    realm: Seq<char>,
    password: Seq<char>,
    nonce: Seq<char>,
    uri: Seq<char>,
    nc: Seq<char>,
    cnonce: Seq<char>,
) -> Seq<(Seq<char>, Seq<char>)> {
    seq![
        ("username"@, username),
        ("realm"@, realm),
        ("nonce"@, nonce),
        ("uri"@, uri),
        (
            "response"@,
            digest::md5_text(
                digest::md5_text(username + ":"@ + realm + ":"@ + password) + ":"@ + nonce + ":"@
                    + nc + ":"@ + cnonce + ":auth:"@ + digest::md5_text(
                    "REGISTER"@ + ":"@ + uri,
                ),
            ),
        ),
        ("qop"@, "auth"@),
        ("nc"@, nc),
        ("cnonce"@, cnonce),
    ]
}

/// The names of the parameters are names in lower case, and differ.
proof fn lemma_param_names()
    ensures
        is_param_name("username"@) && text::lowercase("username"@) == "username"@,
        is_param_name("realm"@) && text::lowercase("realm"@) == "realm"@,
        is_param_name("nonce"@) && text::lowercase("nonce"@) == "nonce"@,
        is_param_name("uri"@) && text::lowercase("uri"@) == "uri"@,
        is_param_name("response"@) && text::lowercase("response"@) == "response"@,
        is_param_name("qop"@) && text::lowercase("qop"@) == "qop"@,
        is_param_name("nc"@) && text::lowercase("nc"@) == "nc"@,
        is_param_name("cnonce"@) && text::lowercase("cnonce"@) == "cnonce"@,
        "username"@[0] == 'u' && "username"@.len() == 8,
        "realm"@[0] == 'r' && "realm"@.len() == 5,
        "nonce"@[0] == 'n' && "nonce"@.len() == 5,
        "uri"@[0] == 'u' && "uri"@.len() == 3,
        "response"@[0] == 'r' && "response"@.len() == 8,
        "qop"@[0] == 'q' && "qop"@.len() == 3,
        "nc"@[0] == 'n' && "nc"@.len() == 2,
        "cnonce"@[0] == 'c' && "cnonce"@.len() == 6,
        is_quotable("auth"@),
{
    reveal_strlit("username");
    reveal_strlit("realm");
    reveal_strlit("nonce");
    reveal_strlit("uri");
    reveal_strlit("response");
    reveal_strlit("qop");
    reveal_strlit("nc");
    reveal_strlit("cnonce");
    reveal_strlit("auth");
    assert(text::lowercase("username"@) =~= "username"@);
    assert(text::lowercase("realm"@) =~= "realm"@);
    assert(text::lowercase("nonce"@) =~= "nonce"@);
    assert(text::lowercase("uri"@) =~= "uri"@);
    assert(text::lowercase("response"@) =~= "response"@);
    assert(text::lowercase("qop"@) =~= "qop"@);
    assert(text::lowercase("nc"@) =~= "nc"@);
    assert(text::lowercase("cnonce"@) =~= "cnonce"@);
}

/// A client that knows the password of its extension, and answers a challenge for it without
/// qop, is let in.
pub proof fn law_knowing_client_is_let_in(
    registrar: RegistrarView,
    request: RegisterView,
    extension: Seq<char>,
    username: Seq<char>,
    realm: Seq<char>,
    nonce: Seq<char>,
    uri: Seq<char>,
)
    requires
        request.extension() == Some(extension),
        registrar.in_range(extension),
        username.len() > 0,
        nonce.len() > 0,
        is_quotable(username),
        is_quotable(realm),
        is_quotable(nonce),
        is_quotable(uri),
        request.authorization == Some(
            digest_header(
                plain_answer(username, realm, registrar.password(extension), nonce, uri),
            ),
        ),
    ensures
        registration::entitled(registrar, request),
{
    let params = plain_answer(username, realm, registrar.password(extension), nonce, uri);
    lemma_param_names();
    lemma_response(
        username,
        realm,
        registrar.password(extension),
        nonce,
        uri,
        "REGISTER"@,
        None,
        None,
        None,
    );
    assert(writable(params));
    law_authorization_is_read_back(params);
    reveal_with_fuel(last_given, 6);
    assert(said(params) == (digest::DigestView {
        username,
        realm,
        nonce,
        uri,
        response: params[4].1,
        qop: None,
        nc: None,
        cnonce: None,
    }));
}

/// A client that knows the password of its extension, and answers a challenge for it with qop, is
/// let in.
pub proof fn law_knowing_client_is_let_in_with_qop(
    registrar: RegistrarView,
    request: RegisterView,
    extension: Seq<char>,
    username: Seq<char>,
    realm: Seq<char>,
    nonce: Seq<char>,
    uri: Seq<char>,
    nc: Seq<char>,
    cnonce: Seq<char>,
)
    requires
        request.extension() == Some(extension),
        registrar.in_range(extension),
        username.len() > 0,
        nonce.len() > 0,
        is_quotable(username),
        is_quotable(realm),
        is_quotable(nonce),
        is_quotable(uri),
        is_quotable(nc),
        is_quotable(cnonce),
        request.authorization == Some(
            digest_header(
                auth_answer(
                    username,
                    realm,
                    registrar.password(extension),
                    nonce,
                    uri,
                    nc,
                    cnonce,
                ),
            ),
        ),
    ensures
        registration::entitled(registrar, request),
{
    let password = registrar.password(extension);
    let params = auth_answer(username, realm, password, nonce, uri, nc, cnonce);
    lemma_param_names();
    lemma_response(
        username,
        realm,
        password,
        nonce,
        uri,
        "REGISTER"@,
        Some("auth"@),
        Some(nc),
        Some(cnonce),
    );
    assert(writable(params));
    law_authorization_is_read_back(params);
    reveal_with_fuel(last_given, 9);
    assert(said(params) == (digest::DigestView {
        username,
        realm,
        nonce,
        uri,
        response: params[4].1,
        qop: Some("auth"@),
        nc: Some(nc),
        cnonce: Some(cnonce),
    }));
}

} // verus!
