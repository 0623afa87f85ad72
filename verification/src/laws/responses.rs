//! Responses: what the caller reads from a response that is forwarded to it.

use crate::laws::lines;
use crate::number;
use crate::sip::forward;
use crate::text;
use vstd::prelude::*;

verus! {

/// The names of the headers of a forwarded response, in their order.
pub open spec fn header_name(kind: int) -> Seq<char> {
    if kind == 0 {
        "Via"@
    } else if kind == 1 {
        "From"@
    } else if kind == 2 {
        "To"@
    } else if kind == 3 {
        "Call-ID"@
    } else if kind == 4 {
        "CSeq"@
    } else if kind == 5 {
        "Contact"@
    } else if kind == 6 {
        "Content-Type"@
    } else {
        "Content-Length"@
    }
}

/// The compact names of the headers of a forwarded response.
pub open spec fn header_short(kind: int) -> Option<Seq<char>> {
    if kind == 0 {
        Some("v"@)
    } else if kind == 1 {
        Some("f"@)
    } else if kind == 2 {
        Some("t"@)
    } else if kind == 3 {
        Some("i"@)
    } else if kind == 7 {
        Some("l"@)
    } else {
        None
    }
}

/// Whether `low` starts as a header of this kind does in lower case, as far as it takes to tell
/// the kinds apart.
spec fn starts_as(low: Seq<char>, kind: int) -> bool {
    low.len() > 1 && if kind == 0 {
        low[0] == 'v'
    } else if kind == 1 {
        low[0] == 'f'
    } else if kind == 2 {
        low[0] == 't'
    } else if kind == 3 {
        low[0] == 'i' || (low[0] == 'c' && low[1] == 'a')
    } else if kind == 4 {
        low[0] == 'c' && low[1] == 's'
    } else if kind == 5 {
        low[0] == 'c' && low[1] == 'o' && low[4] == 'a'
    } else if kind == 6 {
        low[0] == 'c' && low[1] == 'o' && low[4] == 'e' && low[8] == 't'
    } else {
        low[0] == 'l' || (low[0] == 'c' && low[1] == 'o' && low[4] == 'e' && low[8] == 'l')
    }
}

/// How a header of this kind starts.
proof fn lemma_header_starts(line: Seq<char>, kind: int)
    requires
        0 <= kind < 8,
    ensures
        forward::is_header(line, header_name(kind), header_short(kind)) ==> starts_as(
            text::lowercase(line),
            kind,
        ),
{
    reveal_strlit("Via");
    reveal_strlit("v");
    reveal_strlit("From");
    reveal_strlit("f");
    reveal_strlit("To");
    reveal_strlit("t");
    reveal_strlit("Call-ID");
    reveal_strlit("i");
    reveal_strlit("CSeq");
    reveal_strlit("Contact");
    reveal_strlit("Content-Type");
    reveal_strlit("Content-Length");
    reveal_strlit("l");
    lines::lemma_names_start(line, "Via"@);
    lines::lemma_names_start(line, "v"@);
    lines::lemma_names_start(line, "From"@);
    lines::lemma_names_start(line, "f"@);
    lines::lemma_names_start(line, "To"@);
    lines::lemma_names_start(line, "t"@);
    lines::lemma_names_start(line, "Call-ID"@);
    lines::lemma_names_start(line, "i"@);
    lines::lemma_names_start(line, "CSeq"@);
    lines::lemma_names_start(line, "Contact"@);
    lines::lemma_names_start(line, "Content-Type"@);
    lines::lemma_names_start(line, "Content-Length"@);
    lines::lemma_names_start(line, "l"@);
}

/// The parts of a list, put together.
spec fn together(parts: Seq<Seq<Seq<char>>>) -> Seq<Seq<char>>
    decreases parts.len(),
{
    if parts.len() == 0 {
        Seq::empty()
    } else {
        together(parts.drop_last()) + parts.last()
    }
}

/// The parts, put together, can all stand as headers where those of each part can.
proof fn lemma_together_clean(parts: Seq<Seq<Seq<char>>>)
    requires
        forall|p: int| 0 <= p < parts.len() ==> lines::all_clean(#[trigger] parts[p]),
    ensures
        lines::all_clean(together(parts)),
    decreases parts.len(),
{
    if parts.len() > 0 {
        let shorter = parts.drop_last();
        assert forall|p: int| 0 <= p < shorter.len() implies lines::all_clean(#[trigger] shorter[p]) by {
            assert(shorter[p] == parts[p]);
        }
        lemma_together_clean(shorter);
        assert(lines::all_clean(parts[parts.len() - 1]));
        let all = together(parts);
        assert forall|i: int| 0 <= i < all.len() implies lines::is_clean(#[trigger] all[i]) by {
            if i < together(shorter).len() {
                assert(all[i] == together(shorter)[i]);
            } else {
                assert(all[i] == parts.last()[i - together(shorter).len()]);
            }
        }
    }
}

/// Of parts that each hold headers of one kind, the headers of kind `kind` are the part `kind`.
proof fn lemma_headers_of_kind(parts: Seq<Seq<Seq<char>>>, kind: int)
    requires
        parts.len() <= 8,
        0 <= kind < 8,
        forall|p: int| 0 <= p < parts.len() ==> lines::all_clean(#[trigger] parts[p]),
        forall|p: int, i: int|
            0 <= p < parts.len() && 0 <= i < parts[p].len() ==> forward::is_header(
                #[trigger] parts[p][i],
                header_name(p),
                header_short(p),
            ),
    ensures
        forward::headers_among(together(parts), header_name(kind), header_short(kind)) == (
        if kind < parts.len() {
            parts[kind]
        } else {
            Seq::empty()
        }),
    decreases parts.len(),
{
    let name = header_name(kind);
    let short = header_short(kind);
    if parts.len() > 0 {
        let shorter = parts.drop_last();
        let at = parts.len() - 1;
        let last = parts[at];
        assert forall|p: int| 0 <= p < shorter.len() implies lines::all_clean(#[trigger] shorter[p]) by {
            assert(shorter[p] == parts[p]);
        }
        assert forall|p: int, i: int|
            0 <= p < shorter.len() && 0 <= i < shorter[p].len() implies forward::is_header(
            #[trigger] shorter[p][i],
            header_name(p),
            header_short(p),
        ) by {
            assert(shorter[p][i] == parts[p][i]);
        }
        lemma_headers_of_kind(shorter, kind);
        lemma_together_clean(shorter);
        lines::lemma_headers_concat(together(shorter), last, name, short);
        lines::lemma_headers_same(last, name, short);
        if at == kind {
            assert(forall|i: int|
                0 <= i < last.len() ==> forward::is_header(#[trigger] last[i], name, short));
        } else {
            assert forall|i: int| 0 <= i < last.len() implies !forward::is_header(
                #[trigger] last[i],
                name,
                short,
            ) by {
                assert(forward::is_header(parts[at][i], header_name(at), header_short(at)));
                lemma_header_starts(last[i], at);
                lemma_header_starts(last[i], kind);
            }
        }
        assert(forward::headers_among(together(parts), name, short) =~= if kind < parts.len() {
            parts[kind]
        } else {
            Seq::empty()
        });
    }
}

/// An optional line as a list.
pub open spec fn listed(line: Option<Seq<char>>) -> Seq<Seq<char>> {
    match line {
        Some(l) => seq![l],
        None => Seq::empty(),
    }
}

/// An optional line with its line end.
proof fn lemma_ended_listed(line: Option<Seq<char>>)
    ensures
        forward::ended(line) == forward::ended_lines(listed(line)),
{
    reveal_with_fuel(forward::ended_lines, 2);
    if let Some(l) = line {
        assert(seq![l].drop_last() =~= Seq::empty());
        assert(forward::ended(line) =~= forward::ended_lines(listed(line)));
    }
}

/// The first line of a forwarded response.
pub open spec fn status_line(status: u16, reason: Seq<char>) -> Seq<char> {
    "SIP/2.0 "@ + number::decimal(status as nat) + " "@ + reason
}

/// The headers of a forwarded response, kind by kind.
pub open spec fn response_parts(
    invite: Seq<char>,
    callee_response: Seq<char>,
    status: u16,
    contact: Seq<char>,
    body: Seq<char>,
) -> Seq<Seq<Seq<char>>> {
    seq![
        forward::headers_of(invite, "Via"@, Some("v"@)),
        listed(forward::first_header_of(invite, "From"@, Some("f"@))),
        seq![forward::forwarded_to(invite, callee_response, contact)],
        listed(forward::first_header_of(invite, "Call-ID"@, Some("i"@))),
        listed(forward::first_header_of(invite, "CSeq"@, None)),
        listed(forward::forwarded_contact(status, contact)),
        listed(forward::forwarded_type(body)),
        seq![forward::length_line(body)],
    ]
}

/// A forwarded response is its first line, its headers, a blank line and the body.
proof fn lemma_response_layout(
    invite: Seq<char>,
    callee_response: Seq<char>,
    status: u16,
    reason: Seq<char>,
    contact: Seq<char>,
    body: Seq<char>,
)
    ensures
        forward::forwarded_response(invite, callee_response, status, reason, contact, body)
            == status_line(status, reason) + text::crlf() + (forward::ended_lines(
            together(response_parts(invite, callee_response, status, contact, body)),
        ) + (text::crlf() + body)),
{
    let parts = response_parts(invite, callee_response, status, contact, body);
    let head = status_line(status, reason) + text::crlf();
    lemma_ended_listed(forward::first_header_of(invite, "From"@, Some("f"@)));
    lemma_ended_listed(Some(forward::forwarded_to(invite, callee_response, contact)));
    lemma_ended_listed(forward::first_header_of(invite, "Call-ID"@, Some("i"@)));
    lemma_ended_listed(forward::first_header_of(invite, "CSeq"@, None));
    lemma_ended_listed(forward::forwarded_contact(status, contact));
    lemma_ended_listed(forward::forwarded_type(body));
    lemma_ended_listed(Some(forward::length_line(body)));
    lemma_eight_parts(head, parts);
    lemma_regroup(head, forward::ended_lines(together(parts)), text::crlf(), body);
}

/// Concatenation can be regrouped.
proof fn lemma_regroup(a: Seq<char>, b: Seq<char>, c: Seq<char>, d: Seq<char>)
    ensures
        (a + b) + c + d == a + (b + (c + d)),
{
    assert((a + b) + c + d =~= a + (b + (c + d)));
}

/// Eight parts with their line ends, one after the other.
proof fn lemma_eight_parts(head: Seq<char>, parts: Seq<Seq<Seq<char>>>)
    requires
        parts.len() == 8,
    ensures
        head + forward::ended_lines(parts[0]) + forward::ended_lines(parts[1])
            + forward::ended_lines(parts[2]) + forward::ended_lines(parts[3])
            + forward::ended_lines(parts[4]) + forward::ended_lines(parts[5])
            + forward::ended_lines(parts[6]) + forward::ended_lines(parts[7]) == head
            + forward::ended_lines(together(parts)),
{
    assert(parts.take(8) =~= parts);
    assert(head =~= head + forward::ended_lines(together(parts.take(0))));
    lemma_ended_part(head, parts, 0);
    lemma_ended_part(head, parts, 1);
    lemma_ended_part(head, parts, 2);
    lemma_ended_part(head, parts, 3);
    lemma_ended_part(head, parts, 4);
    lemma_ended_part(head, parts, 5);
    lemma_ended_part(head, parts, 6);
    lemma_ended_part(head, parts, 7);
}

/// The part `p` comes after those before it.
proof fn lemma_ended_part(head: Seq<char>, parts: Seq<Seq<Seq<char>>>, p: int)
    requires
        0 <= p < parts.len(),
    ensures
        head + forward::ended_lines(together(parts.take(p + 1))) == head + forward::ended_lines(
            together(parts.take(p)),
        ) + forward::ended_lines(parts[p]),
{
    assert(parts.take(p + 1).drop_last() =~= parts.take(p));
    lines::lemma_ended_concat(together(parts.take(p)), parts[p]);
    assert(head + (forward::ended_lines(together(parts.take(p))) + forward::ended_lines(parts[p]))
        =~= head + forward::ended_lines(together(parts.take(p))) + forward::ended_lines(parts[p]));
}

/// The first header of a message with a name can stand as a header with that name.
proof fn lemma_first_header(message: Seq<char>, name: Seq<char>, compact: Option<Seq<char>>)
    ensures
        forward::first_header_of(message, name, compact) matches Some(line) ==> lines::is_clean(line)
            && forward::is_header(line, name, compact),
{
    text::lemma_lines(message);
    lines::lemma_headers_found(text::lines(message), name, compact);
}

/// The To header of a forwarded response is a To header.
proof fn lemma_to_header(invite: Seq<char>, callee_response: Seq<char>, contact: Seq<char>)
    requires
        !contact.contains('\n'),
    ensures
        lines::is_clean(forward::forwarded_to(invite, callee_response, contact)),
        forward::is_header(
            forward::forwarded_to(invite, callee_response, contact),
            "To"@,
            Some("t"@),
        ),
{
    lemma_first_header(callee_response, "To"@, Some("t"@));
    lemma_first_header(invite, "To"@, Some("t"@));
    reveal_strlit("To");
    reveal_strlit("To: <sips:");
    reveal_strlit(": <sips:");
    reveal_strlit(">");
    let line = "To: <sips:"@ + contact + ">"@;
    let rest = ": <sips:"@ + contact + ">"@;
    lines::law_header_goes_by_its_name("To"@, "To"@, rest);
    assert(line =~= "To"@ + rest);
    lines::lemma_no_line_feed("To: <sips:"@, contact);
    lines::lemma_no_line_feed("To: <sips:"@ + contact, ">"@);
}

/// The Contact header of a forwarded response is one.
proof fn lemma_contact_header(contact: Seq<char>)
    requires
        !contact.contains('\n'),
    ensures
        lines::is_clean("Contact: <"@ + contact + ">"@),
        forward::is_header("Contact: <"@ + contact + ">"@, "Contact"@, None),
{
    reveal_strlit("Contact");
    reveal_strlit("Contact: <");
    reveal_strlit(": <");
    reveal_strlit(">");
    let line = "Contact: <"@ + contact + ">"@;
    let rest = ": <"@ + contact + ">"@;
    lines::law_header_goes_by_its_name("Contact"@, "Contact"@, rest);
    assert(line =~= "Contact"@ + rest);
    lines::lemma_no_line_feed("Contact: <"@, contact);
    lines::lemma_no_line_feed("Contact: <"@ + contact, ">"@);
}

/// The first line of a forwarded response is one line, and no header.
proof fn lemma_status_line(status: u16, reason: Seq<char>, kind: int)
    requires
        !reason.contains('\n'),
        0 <= kind < 8,
    ensures
        !status_line(status, reason).contains('\n'),
        text::trim(status_line(status, reason)).len() > 0,
        !forward::is_header(
            text::trim(status_line(status, reason)),
            header_name(kind),
            header_short(kind),
        ),
{
    let line = status_line(status, reason);
    let digits = number::decimal(status as nat);
    number::lemma_decimal_value(status as nat);
    reveal_strlit("SIP/2.0 ");
    reveal_strlit(" ");
    assert(!digits.contains('\n')) by {
        if digits.contains('\n') {
            assert(number::is_digit(digits[digits.index_of('\n')]));
        }
    }
    lines::lemma_no_line_feed("SIP/2.0 "@, digits);
    lines::lemma_no_line_feed("SIP/2.0 "@ + digits, " "@);
    lines::lemma_no_line_feed("SIP/2.0 "@ + digits + " "@, reason);
    assert(line[0] == 'S');
    text::lemma_trim(line);
    let kept = text::trim(line);
    assert(kept.take(1) =~= seq!['S']);
    text::lemma_lowercase_prefix(kept, 1);
    lemma_header_starts(kept, kind);
    assert(text::lowercase(kept)[0] == 's');
}

/// The headers that are read from a forwarded response, kind by kind.
proof fn lemma_response_headers(
    invite: Seq<char>,
    callee_response: Seq<char>,
    status: u16,
    reason: Seq<char>,
    contact: Seq<char>,
    body: Seq<char>,
    kind: int,
)
    requires
        !reason.contains('\n'),
        !contact.contains('\n'),
        0 <= kind < 8,
    ensures
        forward::headers_of(
            forward::forwarded_response(invite, callee_response, status, reason, contact, body),
            header_name(kind),
            header_short(kind),
        ) == response_parts(invite, callee_response, status, contact, body)[kind],
{
    let parts = response_parts(invite, callee_response, status, contact, body);
    let name = header_name(kind);
    let short = header_short(kind);
    lemma_response_parts(invite, callee_response, status, contact, body);
    lemma_headers_of_kind(parts, kind);
    lemma_together_clean(parts);
    lemma_status_line(status, reason, kind);
    lemma_response_layout(invite, callee_response, status, reason, contact, body);

    let first = status_line(status, reason);
    let heads = together(parts);
    let end = text::crlf() + body;
    let rest = forward::ended_lines(heads) + end;
    text::lemma_lines_first(first, rest);
    assert forall|i: int| 0 <= i < heads.len() implies !(#[trigger] heads[i]).contains('\n') by {
        assert(lines::is_clean(heads[i]));
    }
    lines::lemma_ended_lines(heads, end);
    let blank = Seq::<char>::empty();
    assert(blank + text::crlf() + body =~= end);
    text::lemma_lines_first(blank, body);
    let tail = seq![blank] + text::lines(body);
    text::lemma_trim_solid(blank);
    lines::lemma_headers_concat(heads, tail, name, short);
    assert(tail[0] == blank);
    let all = seq![first] + (heads + tail);
    assert(all[0] == first);
    assert(all.drop_first() =~= heads + tail);
    assert(forward::headers_among(heads, name, short) + Seq::<Seq<char>>::empty()
        =~= forward::headers_among(heads, name, short));
}

/// Each part of a forwarded response holds headers of its kind.
proof fn lemma_response_parts(
    invite: Seq<char>,
    callee_response: Seq<char>,
    status: u16,
    contact: Seq<char>,
    body: Seq<char>,
)
    requires
        !contact.contains('\n'),
    ensures
        ({
            let parts = response_parts(invite, callee_response, status, contact, body);
            &&& parts.len() == 8
            &&& forall|p: int| 0 <= p < parts.len() ==> lines::all_clean(#[trigger] parts[p])
            &&& forall|p: int, i: int|
                0 <= p < parts.len() && 0 <= i < parts[p].len() ==> forward::is_header(
                    #[trigger] parts[p][i],
                    header_name(p),
                    header_short(p),
                )
        }),
{
    text::lemma_lines(invite);
    lines::lemma_headers_found(text::lines(invite), "Via"@, Some("v"@));
    lemma_first_header(invite, "From"@, Some("f"@));
    lemma_to_header(invite, callee_response, contact);
    lemma_first_header(invite, "Call-ID"@, Some("i"@));
    lemma_first_header(invite, "CSeq"@, None);
    lemma_contact_header(contact);
    lines::lemma_type_header();
    lines::lemma_length_header(body);
}

/// The caller recognises a response that is forwarded to it: Via, From, Call-ID and CSeq are
/// read from it as they stand in the INVITE that the caller sent, and To is read as the callee
/// has given it, with its tag. A success, and nothing else, names the server as the contact, and
/// the length is that of the body. Reason and contact stand on one line.
pub proof fn law_caller_recognises_forwarded_response(
    invite: Seq<char>,
    callee_response: Seq<char>,
    status: u16,
    reason: Seq<char>,
    contact: Seq<char>,
    body: Seq<char>,
)
    requires
        !reason.contains('\n'),
        !contact.contains('\n'),
    ensures
        ({
            let out = forward::forwarded_response(
                invite,
                callee_response,
                status,
                reason,
                contact,
                body,
            );
            &&& forward::headers_of(out, "Via"@, Some("v"@)) == forward::headers_of(
                invite,
                "Via"@,
                Some("v"@),
            )
            &&& forward::headers_of(out, "From"@, Some("f"@)) == listed(
                forward::first_header_of(invite, "From"@, Some("f"@)),
            )
            &&& forward::headers_of(out, "Call-ID"@, Some("i"@)) == listed(
                forward::first_header_of(invite, "Call-ID"@, Some("i"@)),
            )
            &&& forward::headers_of(out, "CSeq"@, None) == listed(
                forward::first_header_of(invite, "CSeq"@, None),
            )
            &&& forward::headers_of(out, "To"@, Some("t"@)) == seq![
                forward::forwarded_to(invite, callee_response, contact),
            ]
            &&& forward::first_header_of(callee_response, "To"@, Some("t"@)) is Some
                ==> forward::first_header_of(out, "To"@, Some("t"@)) == forward::first_header_of(
                callee_response,
                "To"@,
                Some("t"@),
            )
            &&& forward::headers_of(out, "Contact"@, None) == (if 200 <= status < 300 {
                seq!["Contact: <"@ + contact + ">"@]
            } else {
                Seq::empty()
            })
            &&& forward::headers_of(out, "Content-Length"@, Some("l"@)) == seq![
                forward::length_line(body),
            ]
        }),
{
    lemma_response_headers(invite, callee_response, status, reason, contact, body, 0);
    lemma_response_headers(invite, callee_response, status, reason, contact, body, 1);
    lemma_response_headers(invite, callee_response, status, reason, contact, body, 2);
    lemma_response_headers(invite, callee_response, status, reason, contact, body, 3);
    lemma_response_headers(invite, callee_response, status, reason, contact, body, 4);
    lemma_response_headers(invite, callee_response, status, reason, contact, body, 5);
    lemma_response_headers(invite, callee_response, status, reason, contact, body, 7);
}

/// Every forwarded response is, from start to end: the SIP version, status and reason; the Via
/// lines of the INVITE; its first From line; a To line, that of the callee, else that of the
/// INVITE, else one made of the contact; its first Call-ID line and its first CSeq line; for a
/// success the contact; for a body its type; the length of the body in bytes; a blank line, and
/// the body.
pub proof fn law_forwarded_response_from_start_to_end(
    invite: Seq<char>,
    callee_response: Seq<char>,
    status: u16,
    reason: Seq<char>,
    contact: Seq<char>,
    body: Seq<char>,
)
    ensures
        ({
            let via = forward::headers_of(invite, "Via"@, Some("v"@));
            let from = forward::headers_of(invite, "From"@, Some("f"@));
            let callee_to = forward::headers_of(callee_response, "To"@, Some("t"@));
            let invite_to = forward::headers_of(invite, "To"@, Some("t"@));
            let call_id = forward::headers_of(invite, "Call-ID"@, Some("i"@));
            let cseq = forward::headers_of(invite, "CSeq"@, None);
            let to = if callee_to.len() > 0 {
                callee_to[0]
            } else if invite_to.len() > 0 {
                invite_to[0]
            } else {
                "To: <sips:"@ + contact + ">"@
            };
            let success = if 200 <= status <= 299 {
                seq!["Contact: <"@ + contact + ">"@]
            } else {
                Seq::empty()
            };
            let kind = if body.len() > 0 {
                seq!["Content-Type: application/sdp"@]
            } else {
                Seq::empty()
            };
            let length = "Content-Length: "@ + number::decimal(
                vstd::utf8::encode_utf8(body).len(),
            );
            let first = "SIP/2.0 "@ + number::decimal(status as nat) + " "@ + reason;
            let headers = seq![first] + via + from.take(if from.len() > 0 {
                1
            } else {
                0
            }) + seq![to] + call_id.take(if call_id.len() > 0 {
                1
            } else {
                0
            }) + cseq.take(if cseq.len() > 0 {
                1
            } else {
                0
            }) + success + kind + seq![length];
            forward::forwarded_response(invite, callee_response, status, reason, contact, body)
                == forward::ended_lines(headers) + "\r\n"@ + body
        }),
{
    let parts = response_parts(invite, callee_response, status, contact, body);
    let first = status_line(status, reason);
    lemma_response_joined(invite, callee_response, status, reason, contact, body);
    lemma_eight_together(parts);
    lemma_in_front(first, parts);
    lemma_at_most_one(invite, "From"@, Some("f"@));
    lemma_at_most_one(invite, "Call-ID"@, Some("i"@));
    lemma_at_most_one(invite, "CSeq"@, None);
}

/// A forwarded response is its lines with their line ends, one more line end and the body.
proof fn lemma_response_joined(
    invite: Seq<char>,
    callee_response: Seq<char>,
    status: u16,
    reason: Seq<char>,
    contact: Seq<char>,
    body: Seq<char>,
)
    ensures
        forward::forwarded_response(invite, callee_response, status, reason, contact, body)
            == forward::ended_lines(
            seq![status_line(status, reason)] + together(
                response_parts(invite, callee_response, status, contact, body),
            ),
        ) + text::crlf() + body,
{
    let heads = together(response_parts(invite, callee_response, status, contact, body));
    let first = status_line(status, reason);
    lemma_response_layout(invite, callee_response, status, reason, contact, body);
    lemma_ended_listed(Some(first));
    assert(listed(Some(first)) =~= seq![first]);
    lines::lemma_ended_concat(seq![first], heads);
    lemma_regroup(first + text::crlf(), forward::ended_lines(heads), text::crlf(), body);
}

/// A line in front of eight parts.
proof fn lemma_in_front(first: Seq<char>, parts: Seq<Seq<Seq<char>>>)
    requires
        parts.len() == 8,
    ensures
        seq![first] + (parts[0] + parts[1] + parts[2] + parts[3] + parts[4] + parts[5] + parts[6]
            + parts[7]) == seq![first] + parts[0] + parts[1] + parts[2] + parts[3] + parts[4]
            + parts[5] + parts[6] + parts[7],
{
    assert(seq![first] + (parts[0] + parts[1] + parts[2] + parts[3] + parts[4] + parts[5] + parts[6]
        + parts[7]) =~= seq![first] + parts[0] + parts[1] + parts[2] + parts[3] + parts[4]
        + parts[5] + parts[6] + parts[7]);
}

/// The first header of a name, as a list.
proof fn lemma_at_most_one(message: Seq<char>, name: Seq<char>, compact: Option<Seq<char>>)
    ensures
        ({
            let found = forward::headers_of(message, name, compact);
            listed(forward::first_header_of(message, name, compact)) == found.take(
                if found.len() > 0 {
                    1
                } else {
                    0
                },
            )
        }),
{
    let found = forward::headers_of(message, name, compact);
    assert(listed(forward::first_header_of(message, name, compact)) =~= found.take(
        if found.len() > 0 {
            1
        } else {
            0
        },
    ));
}

/// Eight parts, put together.
proof fn lemma_eight_together(parts: Seq<Seq<Seq<char>>>)
    requires
        parts.len() == 8,
    ensures
        together(parts) == parts[0] + parts[1] + parts[2] + parts[3] + parts[4] + parts[5]
            + parts[6] + parts[7],
{
    reveal_with_fuel(together, 9);
    let p7 = parts.drop_last();
    let p6 = p7.drop_last();
    let p5 = p6.drop_last();
    let p4 = p5.drop_last();
    let p3 = p4.drop_last();
    let p2 = p3.drop_last();
    let p1 = p2.drop_last();
    assert(together(p1.drop_last()) =~= Seq::empty());
    assert(together(p1) =~= parts[0]);
    assert(together(p2) == together(p1) + parts[1]);
    assert(together(p3) == together(p2) + parts[2]);
    assert(together(p4) == together(p3) + parts[3]);
    assert(together(p5) == together(p4) + parts[4]);
    assert(together(p6) == together(p5) + parts[5]);
    assert(together(p7) == together(p6) + parts[6]);
    assert(together(parts) == together(p7) + parts[7]);
}

/// What the caller reads from a forwarded response: the lines come apart again, the blank line
/// stands behind the headers, and all that follows it is the body. Reason and contact stand on one
/// line.
pub proof fn law_forwarded_response_is_read_line_by_line(
    invite: Seq<char>,
    callee_response: Seq<char>,
    status: u16,
    reason: Seq<char>,
    contact: Seq<char>,
    body: Seq<char>,
)
    requires
        !reason.contains('\n'),
        !contact.contains('\n'),
    ensures
        ({
            let out = forward::forwarded_response(
                invite,
                callee_response,
                status,
                reason,
                contact,
                body,
            );
            let head = text::before(out, "\r\n\r\n"@);
            &&& text::lines(out)[0] == "SIP/2.0 "@ + number::decimal(status as nat) + " "@ + reason
            &&& out == head + "\r\n\r\n"@ + body
        }),
{
    let parts = response_parts(invite, callee_response, status, contact, body);
    let first = status_line(status, reason);
    let heads = together(parts);
    let list = seq![first] + heads;
    lemma_response_layout(invite, callee_response, status, reason, contact, body);
    lemma_response_parts(invite, callee_response, status, contact, body);
    lemma_together_clean(parts);
    lemma_status_line(status, reason, 0);
    let out = forward::forwarded_response(invite, callee_response, status, reason, contact, body);
    text::lemma_lines_first(first, forward::ended_lines(heads) + (text::crlf() + body));
    assert forall|i: int| 0 <= i < list.len() implies !(#[trigger] list[i]).contains('\n') && (i > 0
        ==> list[i].len() > 0) by {
        if i > 0 {
            assert(list[i] == heads[i - 1]);
            assert(lines::is_clean(heads[i - 1]));
        }
    }
    lemma_response_joined(invite, callee_response, status, reason, contact, body);
    lines::lemma_joined_lines(list);
    lines::lemma_head_end_behind(list, body);
    reveal_strlit("\r\n");
    reveal_strlit("\r\n\r\n");
    let mark = lines::head_end();
    assert(mark =~= text::crlf() + text::crlf());
    assert(text::join_lines(list) + mark =~= text::join_lines(list) + text::crlf() + text::crlf());
    assert(out == text::join_lines(list) + mark + body);
    assert(text::before(out, mark) =~= text::join_lines(list));
}

} // verus!
