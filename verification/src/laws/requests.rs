//! Requests: what is read from one that was given a new session description or a new address.

use crate::laws::lines;
use crate::number;
use crate::sip::forward;
use crate::sip::registrar::RegistrarView;
use crate::sip::router::RouterView;
use crate::text;
use vstd::prelude::*;

verus! {

/// The headers that a request gets for a session description are single lines.
proof fn lemma_headers_for_sdp(request: Seq<char>, sdp: Seq<char>)
    ensures
        lines::all_single(forward::headers_for_sdp(request, sdp)),
        forward::headers_for_sdp(request, sdp).len() > 0,
        forward::headers_for_sdp(request, sdp).contains(forward::length_line(sdp)),
        forward::any_starts_lower(forward::headers_for_sdp(request, sdp), "content-type:"@),
        forall|i: int|
            0 <= i < forward::headers_for_sdp(request, sdp).len() && forward::gives_length(
                #[trigger] forward::headers_for_sdp(request, sdp)[i],
            ) ==> forward::headers_for_sdp(request, sdp)[i] == forward::length_line(sdp),
{
    let length = forward::length_line(sdp);
    let kind = forward::type_line();
    let given = text::lines(text::before(request, "\r\n\r\n"@));
    let sized = Seq::new(given.len(), |i: int| forward::resized(given[i], sdp));
    let typed = if forward::any_starts_lower(sized, "content-type:"@) {
        sized
    } else {
        sized.push(kind)
    };
    let headers = forward::headers_for_sdp(request, sdp);
    lines::lemma_length_header(sdp);
    lines::lemma_type_header();
    lemma_own_lines(sdp);
    text::lemma_lines(text::before(request, "\r\n\r\n"@));
    assert forall|i: int| 0 <= i < sized.len() implies !(#[trigger] sized[i]).contains('\n') && (
    forward::gives_length(sized[i]) ==> sized[i] == length) by {
        assert(!given[i].contains('\n'));
    }
    assert(forward::any_starts_lower(typed, "content-type:"@)) by {
        if !forward::any_starts_lower(sized, "content-type:"@) {
            assert(typed[sized.len() as int] == kind);
        }
    }
    assert forall|i: int| 0 <= i < typed.len() implies !(#[trigger] typed[i]).contains('\n') && (
    forward::gives_length(typed[i]) ==> typed[i] == length) by {
        if i < sized.len() {
            assert(typed[i] == sized[i]);
        }
    }
    assert forall|i: int| 0 <= i < headers.len() implies !(#[trigger] headers[i]).contains('\n') && (
    forward::gives_length(headers[i]) ==> headers[i] == length) by {
        if i < typed.len() {
            assert(headers[i] == typed[i]);
        }
    }
    if forward::any_starts_lower(typed, "content-length:"@) {
        let i = choose|i: int|
            0 <= i < typed.len() && forward::starts_lower(#[trigger] typed[i], "content-length:"@);
        assert(headers[i] == length);
    } else {
        assert(headers[typed.len() as int] == length);
        let i = choose|i: int|
            0 <= i < typed.len() && forward::starts_lower(#[trigger] typed[i], "content-type:"@);
        assert(headers[i] == typed[i]);
    }
}

/// How the lines start that the server writes itself.
proof fn lemma_own_lines(sdp: Seq<char>)
    ensures
        forward::starts_lower(forward::length_line(sdp), "content-length:"@),
        forward::starts_lower(forward::type_line(), "content-type:"@),
        !forward::gives_length(forward::type_line()),
{
    lines::lemma_length_header(sdp);
    lines::lemma_type_header();
    reveal_strlit("Content-Length: ");
    reveal_strlit("content-length:");
    reveal_strlit("Content-Type: application/sdp");
    reveal_strlit("content-type:");
    reveal_strlit("l:");
    let length = text::lowercase(forward::length_line(sdp));
    assert("content-length:"@ =~= length.subrange(0, 15));
    let kind = text::lowercase(forward::type_line());
    assert("content-type:"@ =~= kind.subrange(0, 13));
    lines::lemma_prefix("content-length:"@, kind);
    lines::lemma_prefix("l:"@, kind);
    assert(kind[8] == 't' && "content-length:"@[8] == 'l');
    assert(kind[0] == 'c' && "l:"@[0] == 'l');
}

/// A request with a new session description is read as its headers, a blank line and the session
/// description. There is a Content-Type and a Content-Length header; every line that gives a
/// length gives that of the session description; the other headers stand where they stood.
pub proof fn law_rebuilt_request_fits_its_body(request: Seq<char>, sdp: Seq<char>)
    ensures
        ({
            let given = text::lines(text::before(request, "\r\n\r\n"@));
            let headers = forward::headers_for_sdp(request, sdp);
            &&& text::lines(forward::with_sdp(request, sdp)) == headers + seq![
                Seq::<char>::empty(),
            ] + text::lines(sdp)
            &&& headers.contains(forward::length_line(sdp))
            &&& forward::any_starts_lower(headers, "content-type:"@)
            &&& forall|i: int|
                0 <= i < headers.len() && forward::gives_length(#[trigger] headers[i])
                    ==> headers[i] == forward::length_line(sdp)
            &&& given.len() <= headers.len()
            &&& forall|i: int|
                0 <= i < given.len() && !forward::gives_length(#[trigger] given[i]) ==> headers[i]
                    == given[i]
        }),
{
    let given = text::lines(text::before(request, "\r\n\r\n"@));
    let headers = forward::headers_for_sdp(request, sdp);
    let blank = Seq::<char>::empty();
    lemma_headers_for_sdp(request, sdp);
    lines::lemma_joined_lines(headers);
    let end = blank + text::crlf() + sdp;
    text::lemma_lines_first(blank, sdp);
    lines::lemma_ended_lines(headers, end);
    reveal_strlit("\r\n");
    reveal_strlit("\r\n\r\n");
    assert("\r\n\r\n"@ =~= text::crlf() + text::crlf());
    assert(forward::with_sdp(request, sdp) =~= forward::ended_lines(headers) + end);
    assert(headers + (seq![blank] + text::lines(sdp)) =~= headers + seq![blank] + text::lines(sdp));
    assert forall|i: int|
        0 <= i < given.len() && !forward::gives_length(#[trigger] given[i]) implies headers[i]
        == given[i] by {}
}

/// The headers for one session description are those for another, with its length.
proof fn lemma_headers_resized(request: Seq<char>, first: Seq<char>, second: Seq<char>)
    ensures
        ({
            let headers = forward::headers_for_sdp(request, first);
            forward::headers_for_sdp(request, second) == Seq::new(
                headers.len(),
                |i: int| forward::resized(headers[i], second),
            )
        }),
{
    let given = text::lines(text::before(request, lines::head_end()));
    let one = Seq::new(given.len(), |i: int| forward::resized(given[i], first));
    let two = Seq::new(given.len(), |i: int| forward::resized(given[i], second));
    lemma_own_lines(first);
    lemma_own_lines(second);
    lemma_length_is_no_type(first);
    lemma_length_is_no_type(second);
    lemma_starts_agree(given, first, second, "content-type:"@);
    lemma_starts_agree(given, second, first, "content-type:"@);
    lemma_starts_agree(given, first, second, "content-length:"@);
    lemma_starts_agree(given, second, first, "content-length:"@);
    let kind = forward::type_line();
    let typed_one = if forward::any_starts_lower(one, "content-type:"@) {
        one
    } else {
        one.push(kind)
    };
    let typed_two = if forward::any_starts_lower(two, "content-type:"@) {
        two
    } else {
        two.push(kind)
    };
    assert(forward::any_starts_lower(typed_one, "content-length:"@) == forward::any_starts_lower(
        typed_two,
        "content-length:"@,
    )) by {
        if !forward::any_starts_lower(one, "content-type:"@) {
            lemma_push_starts(one, kind, "content-length:"@);
            lemma_push_starts(two, kind, "content-length:"@);
        }
    }
    let headers = forward::headers_for_sdp(request, first);
    assert(forward::headers_for_sdp(request, second) =~= Seq::new(
        headers.len(),
        |i: int| forward::resized(headers[i], second),
    ));
}

/// A length line does not name a type, nor does a type line give a length.
proof fn lemma_length_is_no_type(sdp: Seq<char>)
    ensures
        !forward::starts_lower(forward::length_line(sdp), "content-type:"@),
        !forward::starts_lower(forward::type_line(), "content-length:"@),
{
    lemma_own_lines(sdp);
    lines::lemma_length_header(sdp);
    reveal_strlit("Content-Length: ");
    reveal_strlit("content-type:");
    let length = text::lowercase(forward::length_line(sdp));
    lines::lemma_prefix("content-type:"@, length);
    assert(length[8] == 'l' && "content-type:"@[8] == 't');
}

/// Whether a line with this start is there does not depend on the session description.
proof fn lemma_starts_agree(
    given: Seq<Seq<char>>,
    first: Seq<char>,
    second: Seq<char>,
    prefix: Seq<char>,
)
    requires
        prefix == "content-type:"@ || prefix == "content-length:"@,
    ensures
        forward::any_starts_lower(
            Seq::new(given.len(), |i: int| forward::resized(given[i], first)),
            prefix,
        ) ==> forward::any_starts_lower(
            Seq::new(given.len(), |i: int| forward::resized(given[i], second)),
            prefix,
        ),
{
    let one = Seq::new(given.len(), |i: int| forward::resized(given[i], first));
    let two = Seq::new(given.len(), |i: int| forward::resized(given[i], second));
    lemma_own_lines(second);
    lemma_length_is_no_type(first);
    if forward::any_starts_lower(one, prefix) {
        let i = choose|i: int|
            0 <= i < one.len() && forward::starts_lower(#[trigger] one[i], prefix);
        assert(forward::starts_lower(two[i], prefix));
    }
}

/// A line that does not start so changes nothing.
proof fn lemma_push_starts(list: Seq<Seq<char>>, line: Seq<char>, prefix: Seq<char>)
    requires
        !forward::starts_lower(line, prefix),
    ensures
        forward::any_starts_lower(list.push(line), prefix) == forward::any_starts_lower(
            list,
            prefix,
        ),
{
    let more = list.push(line);
    if forward::any_starts_lower(list, prefix) {
        let i = choose|i: int|
            0 <= i < list.len() && forward::starts_lower(#[trigger] list[i], prefix);
        assert(more[i] == list[i]);
    }
    if forward::any_starts_lower(more, prefix) {
        let i = choose|i: int|
            0 <= i < more.len() && forward::starts_lower(#[trigger] more[i], prefix);
        assert(i < list.len());
        assert(list[i] == more[i]);
    }
}

/// The headers for a session description, none of which but the first is empty, are read back
/// from the request that has them.
proof fn lemma_headers_read_back(request: Seq<char>, sdp: Seq<char>)
    requires
        lines::no_bare_line_feed(request),
    ensures
        text::lines(text::before(forward::with_sdp(request, sdp), lines::head_end()))
            == forward::headers_for_sdp(request, sdp),
{
    let head = text::before(request, lines::head_end());
    let given = text::lines(head);
    let headers = forward::headers_for_sdp(request, sdp);
    lines::lemma_head(request);
    lines::lemma_no_blank_lines(head);
    lemma_headers_for_sdp(request, sdp);
    lines::lemma_length_header(sdp);
    lines::lemma_type_header();
    assert forall|i: int| 0 < i < headers.len() implies (#[trigger] headers[i]).len() > 0 by {
        if i < given.len() {
            assert(given[i].len() > 0);
            assert(headers[i] == forward::resized(given[i], sdp));
        }
    }
    assert(headers.last().len() > 0) by {
        if headers.len() == 1 {
            let i = choose|i: int|
                0 <= i < headers.len() && forward::starts_lower(
                    #[trigger] headers[i],
                    "content-type:"@,
                );
            reveal_strlit("content-type:");
            assert(text::lowercase(headers[i]).len() > 0);
        }
    }
    lines::lemma_head_end_behind(headers, sdp);
    let out = forward::with_sdp(request, sdp);
    assert(text::before(out, lines::head_end()) =~= text::join_lines(headers));
    lines::lemma_lines_of_joined(headers);
}

/// A request that is given one session description and then another is the request with the last
/// one; giving it the same one twice changes nothing. The request has no bare line feed.
pub proof fn law_last_session_description_counts(
    request: Seq<char>,
    first: Seq<char>,
    second: Seq<char>,
)
    requires
        lines::no_bare_line_feed(request),
    ensures
        forward::with_sdp(forward::with_sdp(request, first), second) == forward::with_sdp(
            request,
            second,
        ),
        forward::with_sdp(forward::with_sdp(request, first), first) == forward::with_sdp(
            request,
            first,
        ),
{
    lemma_rebuilt_again(request, first, second);
    lemma_rebuilt_again(request, first, first);
}

/// A request that is given a second session description.
proof fn lemma_rebuilt_again(request: Seq<char>, first: Seq<char>, second: Seq<char>)
    requires
        lines::no_bare_line_feed(request),
    ensures
        forward::with_sdp(forward::with_sdp(request, first), second) == forward::with_sdp(
            request,
            second,
        ),
{
    let once = forward::with_sdp(request, first);
    let headers = forward::headers_for_sdp(request, first);
    let wanted = forward::headers_for_sdp(request, second);
    lemma_headers_read_back(request, first);
    lemma_headers_resized(request, first, second);
    lemma_headers_for_sdp(request, second);
    lemma_own_lines(second);
    let sized = Seq::new(headers.len(), |i: int| forward::resized(headers[i], second));
    assert(sized == wanted);
    assert(forward::any_starts_lower(wanted, "content-length:"@)) by {
        let i = wanted.index_of(forward::length_line(second));
        assert(wanted[i] == forward::length_line(second));
    }
    assert(forward::headers_for_sdp(once, second) == wanted);
}

/// A row of characters without white space at the start of a text, with white space or the end
/// after it, is its first word.
proof fn lemma_first_word(word: Seq<char>, rest: Seq<char>)
    requires
        word.len() > 0,
        forall|i: int| 0 <= i < word.len() ==> !text::white_space(#[trigger] word[i]),
        rest.len() > 0 ==> text::white_space(rest[0]),
    ensures
        text::words(word + rest) == seq![word] + text::words(rest),
{
    let s = word + rest;
    assert(s[0] == word[0]);
    assert(text::find(s, text::Class::NotSpace) == 0);
    assert(s.skip(0) =~= s);
    assert forall|j: int| 0 <= j < word.len() implies !text::Class::Space.holds(
        #[trigger] s[j],
    ) by {
        assert(s[j] == word[j]);
    }
    if rest.len() > 0 {
        assert(s[word.len() as int] == rest[0]);
    }
    text::lemma_find_at(s, text::Class::Space, word.len());
    assert(s.take(word.len() as int) =~= word);
    assert(s.skip(word.len() as int) =~= rest);
}

/// A blank at the start does not matter.
proof fn lemma_blank_before_words(rest: Seq<char>)
    ensures
        text::words(" "@ + rest) == text::words(rest),
{
    reveal_strlit(" ");
    let s = " "@ + rest;
    let n = text::find(rest, text::Class::NotSpace) as int;
    text::lemma_find(rest, text::Class::NotSpace);
    assert(s.drop_first() =~= rest);
    assert(text::find(s, text::Class::NotSpace) == n + 1);
    assert(s.skip(n + 1) =~= rest.skip(n));
}

/// Words are not empty and hold no white space.
proof fn lemma_words(s: Seq<char>)
    ensures
        forall|i: int|
            0 <= i < text::words(s).len() ==> (#[trigger] text::words(s)[i]).len() > 0,
        forall|i: int, j: int|
            0 <= i < text::words(s).len() && 0 <= j < text::words(s)[i].len()
                ==> !text::white_space(#[trigger] text::words(s)[i][j]),
    decreases s.len(),
{
    let start = text::find(s, text::Class::NotSpace);
    text::lemma_find(s, text::Class::NotSpace);
    if start < s.len() {
        let rest = s.skip(start as int);
        let width = text::find(rest, text::Class::Space);
        text::lemma_find(rest, text::Class::Space);
        assert(rest[0] == s[start as int]);
        let word = rest.take(width as int);
        let tail = rest.skip(width as int);
        lemma_words(tail);
        let all = text::words(s);
        assert(all == seq![word] + text::words(tail));
        assert forall|i: int| 0 <= i < all.len() implies (#[trigger] all[i]).len() > 0 by {
            if i > 0 {
                assert(all[i] == text::words(tail)[i - 1]);
            }
        }
        assert forall|i: int, j: int|
            0 <= i < all.len() && 0 <= j < all[i].len() implies !text::white_space(
            #[trigger] all[i][j],
        ) by {
            if i > 0 {
                assert(all[i] == text::words(tail)[i - 1]);
                assert(!text::white_space(text::words(tail)[i - 1][j]));
            } else {
                assert(all[i][j] == rest[j]);
                assert(!text::Class::Space.holds(rest[j]));
            }
        }
    }
}

/// Whether `uri` holds no white space.
pub open spec fn is_spaceless(uri: Seq<char>) -> bool {
    forall|i: int| 0 <= i < uri.len() ==> !text::white_space(#[trigger] uri[i])
}

/// Whether `uri` is one word.
pub open spec fn is_word(uri: Seq<char>) -> bool {
    uri.len() > 0 && is_spaceless(uri)
}

/// The words of the new first line.
proof fn lemma_request_line(request: Seq<char>, uri: Seq<char>)
    requires
        forward::has_request_line(request),
        is_spaceless(uri),
    ensures
        ({
            let old_words = text::words(text::lines(request)[0]);
            let line = forward::request_line(request, uri);
            &&& uri.len() > 0 ==> text::words(line) == seq![old_words[0], uri, old_words[2]]
            &&& uri.len() == 0 ==> text::words(line) == seq![old_words[0], old_words[2]]
            &&& line.len() > 0
            &&& !line.contains('\n')
        }),
{
    let old_words = text::words(text::lines(request)[0]);
    lemma_words(text::lines(request)[0]);
    reveal_strlit(" ");
    let method = old_words[0];
    let version = old_words[2];
    let line = forward::request_line(request, uri);
    let tail = uri + (" "@ + version);
    assert(line =~= method + (" "@ + tail));
    assert forall|i: int| 0 <= i < method.len() implies !text::white_space(
        #[trigger] method[i],
    ) by {
        assert(!text::white_space(old_words[0][i]));
    }
    assert forall|i: int| 0 <= i < version.len() implies !text::white_space(
        #[trigger] version[i],
    ) by {
        assert(!text::white_space(old_words[2][i]));
    }
    assert((" "@ + tail)[0] == ' ');
    assert((" "@ + version)[0] == ' ');
    lemma_first_word(method, " "@ + tail);
    lemma_blank_before_words(tail);
    lemma_blank_before_words(version);
    let none = Seq::<char>::empty();
    assert(version + none =~= version);
    lemma_first_word(version, none);
    assert(text::words(none) =~= Seq::empty());
    if uri.len() > 0 {
        lemma_first_word(uri, " "@ + version);
        assert(text::words(line) =~= seq![method, uri, version]);
    } else {
        assert(tail =~= " "@ + version);
        assert(text::words(line) =~= seq![method, version]);
    }
    if line.contains('\n') {
        let i = line.index_of('\n');
        let m = method.len() as int;
        let u = uri.len() as int;
        if i < m {
            assert(line[i] == method[i]);
        } else if i == m {
            assert(line[i] == ' ');
        } else if i < m + 1 + u {
            assert(line[i] == uri[i - m - 1]);
        } else if i == m + 1 + u {
            assert(line[i] == ' ');
        } else {
            assert(line[i] == version[i - m - u - 2]);
        }
    }
}

/// Whether `request` ends in a line end as SIP has it, or its last line is not empty.
pub open spec fn ends_well(request: Seq<char>) -> bool {
    text::crlf().is_suffix_of(request) || (text::lines(request).len() > 0 && text::lines(
        request,
    ).last().len() > 0)
}

/// A request that is addressed anew has the new URI between the method and the version that it
/// had, and all its other lines are as they were. With an empty URI it is no request any more. The
/// URI holds no white space, and the request does not end in an empty line with a bare line feed.
pub proof fn law_readdressed_request(request: Seq<char>, uri: Seq<char>)
    requires
        forward::has_request_line(request),
        is_spaceless(uri),
        ends_well(request),
    ensures
        ({
            let out = forward::with_request_uri(request, uri);
            let old_words = text::words(text::lines(request)[0]);
            &&& text::lines(out) == text::lines(request).update(
                0,
                forward::request_line(request, uri),
            )
            &&& forward::has_request_line(out) == (uri.len() > 0)
            &&& uri.len() > 0 ==> text::words(text::lines(out)[0]) == seq![
                old_words[0],
                uri,
                old_words[2],
            ]
        }),
{
    let old_lines = text::lines(request);
    let list = old_lines.update(0, forward::request_line(request, uri));
    lemma_request_line(request, uri);
    text::lemma_lines(request);
    assert forall|i: int| 0 <= i < list.len() implies !(#[trigger] list[i]).contains('\n') by {
        if i > 0 {
            assert(list[i] == old_lines[i]);
        }
    }
    if text::crlf().is_suffix_of(request) {
        let none = Seq::<char>::empty();
        lines::lemma_joined_lines(list);
        lines::lemma_ended_lines(list, none);
        assert(forward::ended_lines(list) + none =~= forward::ended_lines(list));
        assert(text::lines(none) =~= Seq::empty());
        assert(list + text::lines(none) =~= list);
    } else {
        lines::lemma_lines_of_joined(list);
    }
}

/// Addressing a request twice is addressing it to the second URI. The first one is one word.
pub proof fn law_last_address_counts(request: Seq<char>, first: Seq<char>, second: Seq<char>)
    requires
        forward::has_request_line(request),
        is_word(first),
        ends_well(request),
    ensures
        forward::with_request_uri(forward::with_request_uri(request, first), second)
            == forward::with_request_uri(request, second),
{
    let once = forward::with_request_uri(request, first);
    let list = text::lines(request);
    law_readdressed_request(request, first);
    lemma_request_line(request, first);
    let updated = list.update(0, forward::request_line(request, first));
    assert(updated.update(0, forward::request_line(request, second)) =~= list.update(
        0,
        forward::request_line(request, second),
    ));
    lemma_line_end_kept(request, first);
}

/// Addressing a request anew keeps whether it ends in a line end as SIP has it.
proof fn lemma_line_end_kept(request: Seq<char>, uri: Seq<char>)
    requires
        forward::has_request_line(request),
        is_word(uri),
        ends_well(request),
    ensures
        text::crlf().is_suffix_of(forward::with_request_uri(request, uri))
            == text::crlf().is_suffix_of(request),
{
    reveal_strlit("\r\n");
    let out = forward::with_request_uri(request, uri);
    let list = text::lines(request).update(0, forward::request_line(request, uri));
    if text::crlf().is_suffix_of(request) {
        let body = text::join_lines(list);
        assert(out.subrange(out.len() - 2, out.len() as int) =~= text::crlf());
    } else {
        lemma_request_line(request, uri);
        text::lemma_lines(request);
        let last = list.last();
        assert(!last.contains('\n'));
        lemma_joined_ends(list);
        if text::crlf().is_suffix_of(out) {
            assert(out.last() == out.subrange(out.len() - 2, out.len() as int)[1]);
            assert(out.last() == last.last());
            assert(last.contains(last.last()));
        }
    }
}

/// Joined lines end as the last of them does.
proof fn lemma_joined_ends(list: Seq<Seq<char>>)
    requires
        list.len() > 0,
        list.last().len() > 0,
    ensures
        text::join_lines(list).len() > 0,
        text::join_lines(list).last() == list.last().last(),
{
}

/// A request without a bare line feed that is addressed anew has a new first line: the method
/// that it had, the new URI and the version that it had; from its first line end on it stays as it
/// was, character for character. Addressing it to the same URI again changes nothing. The URI
/// holds no white space.
pub proof fn law_readdressed_request_keeps_its_rest(request: Seq<char>, uri: Seq<char>)
    requires
        forward::has_request_line(request),
        lines::no_bare_line_feed(request),
        is_spaceless(uri),
    ensures
        ({
            let out = forward::with_request_uri(request, uri);
            let end = text::find_text(request, text::crlf()) as int;
            let words = text::words(request.take(end));
            &&& words.len() == 3
            &&& out == words[0] + " "@ + uri + " "@ + words[2] + request.skip(end)
            &&& forward::with_request_uri(out, uri) == out
        }),
{
    reveal_strlit("\r\n");
    let list = text::lines(request);
    let line = forward::request_line(request, uri);
    let updated = list.update(0, line);
    let end = text::find_text(request, text::crlf()) as int;
    let out = forward::with_request_uri(request, uri);
    assert(request.len() > 0);
    lines::lemma_lines_joined_again(request);
    if request.contains('\n') {
        let (first, rest) = lines::lemma_first_line(request);
        lines::lemma_line_end_at(first, rest);
        assert(list[0] == first);
        assert(request.take(end) =~= first);
        assert(request.skip(end) =~= text::crlf() + rest);
        assert(updated =~= seq![line] + text::lines(rest));
        if rest.len() == 0 {
            assert(text::lines(rest) =~= Seq::empty());
            assert(updated =~= seq![line]);
            assert(text::join_lines(updated) == line);
            assert(request.subrange(request.len() - 2, request.len() as int) =~= text::crlf());
            assert(out =~= line + request.skip(end));
        } else {
            lines::lemma_lines_joined_again(rest);
            lines::lemma_join_front(line, text::lines(rest));
            lines::lemma_suffix_of_rest(first, rest);
            assert(out =~= line + request.skip(end));
        }
    } else {
        text::lemma_lines_last(request);
        lines::lemma_no_line_end(request);
        assert(request.take(end) =~= request);
        assert(updated =~= seq![line]);
        assert(text::join_lines(updated) == line);
        if text::crlf().is_suffix_of(request) {
            assert(request.subrange(request.len() - 2, request.len() as int)[1]
                == request[request.len() - 1]);
            assert(request.contains('\n'));
        }
        assert(out =~= line + request.skip(end));
    }
    if uri.len() > 0 {
        law_last_address_counts(request, uri, uri);
    } else {
        law_readdressed_request(request, uri);
    }
}

/// What is no request stays as it is.
pub proof fn law_responses_are_not_addressed(message: Seq<char>, uri: Seq<char>)
    requires
        !forward::has_request_line(message),
    ensures
        forward::with_request_uri(message, uri) == message,
{
}

/// A request that the router sends on to an extension names, as its URI, the contact that the
/// extension has registered; where it has none, the URI under which the server stands for it.
pub proof fn law_request_goes_to_registered_contact(
    router: RouterView,
    request: Seq<char>,
    extension: Seq<char>,
    registrar: RegistrarView,
    now: u64,
)
    requires
        forward::has_request_line(request),
        ends_well(request),
        is_word(forward::target_uri(registrar, extension, router.domain, now)),
    ensures
        ({
            let sent = vstd::utf8::decode_utf8(
                router.addressed(request, extension, registrar, now),
            );
            let uri = text::words(text::lines(sent)[0])[1];
            &&& registrar.current(extension, now) matches Some(found) ==> uri == found.contact
            &&& registrar.current(extension, now) is None ==> uri == forward::server_contact(
                extension,
                router.domain,
            )
            &&& text::lines(sent).skip(1) == text::lines(request).skip(1)
        }),
{
    let uri = forward::target_uri(registrar, extension, router.domain, now);
    let out = forward::with_request_uri(request, uri);
    vstd::utf8::encode_utf8_decode_utf8(out);
    law_readdressed_request(request, uri);
    assert(text::lines(out).skip(1) =~= text::lines(request).skip(1));
}

/// Every message that starts with a request line, of three words and no SIP version in front, gets
/// a new one of its method, the URI and its version. Its other lines stay, each with a SIP line
/// end, and the last line has one where it had one. Every other message stays as it is.
pub proof fn law_any_request_is_addressed(request: Seq<char>, uri: Seq<char>)
    ensures
        ({
            let list = text::lines(request);
            let words = text::words(list[0]);
            let is_request = list.len() > 0 && words.len() == 3 && !"SIP/2.0"@.is_prefix_of(
                words[0],
            );
            let line_end = seq!['\r', '\n'];
            let ended = request.len() >= 2 && request.skip(request.len() - 2) == line_end;
            let out = forward::with_request_uri(request, uri);
            let joined = text::join_lines(
                list.update(0, words[0] + seq![' '] + uri + seq![' '] + words[2]),
            );
            &&& forward::has_request_line(request) == is_request
            &&& !is_request ==> out == request
            &&& is_request && ended ==> out == joined + line_end
            &&& is_request && !ended ==> out == joined
        }),
{
    reveal_strlit("\r\n");
    reveal_strlit(" ");
    let line_end = seq!['\r', '\n'];
    assert(text::crlf() =~= line_end);
    assert(" "@ =~= seq![' ']);
    if request.len() >= 2 {
        assert(request.subrange(request.len() - 2, request.len() as int) =~= request.skip(
            request.len() - 2,
        ));
    }
}

/// Whether a line, in whatever case, gives the length of a body: by its name or its short name.
pub open spec fn is_length_line(line: Seq<char>) -> bool {
    "content-length:"@.is_prefix_of(text::lowercase(line)) || "l:"@.is_prefix_of(
        text::lowercase(line),
    )
}

/// A line gives the length of a body where it starts, in whatever case, with `Content-Length:` or
/// with `l:`.
pub proof fn law_which_lines_give_a_length(line: Seq<char>)
    ensures
        is_length_line(line) == ("content-length:"@.is_prefix_of(text::lowercase(line))
            || "l:"@.is_prefix_of(text::lowercase(line))),
        forward::gives_length(line) == is_length_line(line),
{
}

/// Every request that gets a session description ends in a blank line and that description. In
/// front stand the lines that it had before its first blank line, each that gave a length with the
/// length of the description in bytes; then, where none of them named a type, a line that does;
/// then, where none gave a length, a line that does.
pub proof fn law_any_request_gets_its_session_description(request: Seq<char>, sdp: Seq<char>)
    ensures
        ({
            let given = text::lines(text::before(request, "\r\n\r\n"@));
            let length = "Content-Length: "@ + number::decimal(
                vstd::utf8::encode_utf8(sdp).len(),
            );
            let typed = exists|i: int|
                0 <= i < given.len() && "content-type:"@.is_prefix_of(
                    text::lowercase(#[trigger] given[i]),
                );
            let sized = exists|i: int| 0 <= i < given.len() && is_length_line(#[trigger] given[i]);
            let kept = Seq::new(
                given.len(),
                |i: int|
                    if is_length_line(given[i]) {
                        length
                    } else {
                        given[i]
                    },
            );
            let kind = if typed {
                Seq::empty()
            } else {
                seq!["Content-Type: application/sdp"@]
            };
            let size = if sized {
                Seq::empty()
            } else {
                seq![length]
            };
            forward::with_sdp(request, sdp) == text::join_lines(kept + kind + size)
                + "\r\n\r\n"@ + sdp
        }),
{
    let given = text::lines(text::before(request, "\r\n\r\n"@));
    let length = "Content-Length: "@ + number::decimal(vstd::utf8::encode_utf8(sdp).len());
    let typed = exists|i: int|
        0 <= i < given.len() && "content-type:"@.is_prefix_of(text::lowercase(#[trigger] given[i]));
    let sized = exists|i: int| 0 <= i < given.len() && is_length_line(#[trigger] given[i]);
    let kept = Seq::new(
        given.len(),
        |i: int|
            if is_length_line(given[i]) {
                length
            } else {
                given[i]
            },
    );
    let kind = if typed {
        Seq::empty()
    } else {
        seq!["Content-Type: application/sdp"@]
    };
    let size = if sized {
        Seq::empty()
    } else {
        seq![length]
    };
    lemma_own_lines(sdp);
    lemma_length_is_no_type(sdp);
    let resized = Seq::new(given.len(), |i: int| forward::resized(given[i], sdp));
    assert(kept =~= resized);
    assert(forward::any_starts_lower(resized, "content-type:"@) == typed) by {
        if typed {
            let i = choose|i: int|
                0 <= i < given.len() && "content-type:"@.is_prefix_of(
                    text::lowercase(#[trigger] given[i]),
                );
            lemma_type_gives_no_length(given[i]);
            assert(forward::starts_lower(resized[i], "content-type:"@));
        }
        if forward::any_starts_lower(resized, "content-type:"@) {
            let i = choose|i: int|
                0 <= i < resized.len() && forward::starts_lower(
                    #[trigger] resized[i],
                    "content-type:"@,
                );
            assert(resized[i] == forward::resized(given[i], sdp));
            assert("content-type:"@.is_prefix_of(text::lowercase(given[i])));
        }
    }
    assert(forward::any_starts_lower(resized, "content-length:"@) == sized) by {
        if sized {
            let i = choose|i: int| 0 <= i < given.len() && is_length_line(#[trigger] given[i]);
            assert(forward::starts_lower(resized[i], "content-length:"@));
        }
        if forward::any_starts_lower(resized, "content-length:"@) {
            let i = choose|i: int|
                0 <= i < resized.len() && forward::starts_lower(
                    #[trigger] resized[i],
                    "content-length:"@,
                );
            assert(resized[i] == forward::resized(given[i], sdp));
            assert(is_length_line(given[i]));
        }
    }
    if !typed {
        lemma_push_starts(resized, forward::type_line(), "content-length:"@);
    }
    assert(forward::headers_for_sdp(request, sdp) =~= kept + kind + size);
}

/// A line that names a type gives no length.
proof fn lemma_type_gives_no_length(line: Seq<char>)
    requires
        "content-type:"@.is_prefix_of(text::lowercase(line)),
    ensures
        !is_length_line(line),
{
    reveal_strlit("content-type:");
    reveal_strlit("content-length:");
    reveal_strlit("l:");
    let low = text::lowercase(line);
    lines::lemma_prefix("content-type:"@, low);
    lines::lemma_prefix("content-length:"@, low);
    lines::lemma_prefix("l:"@, low);
    assert(low[0] == "content-type:"@[0] && low[8] == "content-type:"@[8]);
    if "content-length:"@.is_prefix_of(low) {
        assert(low[8] == "content-length:"@[8]);
    }
    if "l:"@.is_prefix_of(low) {
        assert(low[0] == "l:"@[0]);
    }
}

/// What is read from a request that was given a session description and then addressed. What
/// follows its first blank line is the description. Its first line is the method that it had, the
/// URI and the version that it had; the other lines that it had in front of its body stand where
/// they stood, but for those that give a length. One line gives the length of the description in
/// bytes, and none gives another. Request and description have no bare line feed; the URI holds no
/// white space.
pub proof fn law_addressed_request_has_its_session_description(
    request: Seq<char>,
    sdp: Seq<char>,
    uri: Seq<char>,
)
    requires
        lines::no_bare_line_feed(request),
        lines::no_bare_line_feed(sdp),
        is_spaceless(uri),
        ({
            let given = text::lines(text::before(request, "\r\n\r\n"@));
            &&& given.len() > 0
            &&& text::words(given[0]).len() == 3
            &&& !"SIP/2.0"@.is_prefix_of(text::words(given[0])[0])
            &&& !is_length_line(given[0])
        }),
    ensures
        ({
            let given = text::lines(text::before(request, "\r\n\r\n"@));
            let words = text::words(given[0]);
            let length = "Content-Length: "@ + number::decimal(
                vstd::utf8::encode_utf8(sdp).len(),
            );
            let out = forward::with_request_uri(forward::with_sdp(request, sdp), uri);
            let head = text::before(out, "\r\n\r\n"@);
            let headers = text::lines(head);
            &&& out == head + "\r\n\r\n"@ + sdp
            &&& given.len() <= headers.len()
            &&& headers[0] == words[0] + " "@ + uri + " "@ + words[2]
            &&& forall|i: int|
                0 < i < given.len() && !is_length_line(#[trigger] given[i]) ==> headers[i]
                    == given[i]
            &&& headers.contains(length)
            &&& forall|i: int|
                0 < i < headers.len() && is_length_line(#[trigger] headers[i]) ==> headers[i]
                    == length
        }),
{
    let mark = lines::head_end();
    let given = text::lines(text::before(request, mark));
    let words = text::words(given[0]);
    let headers = forward::headers_for_sdp(request, sdp);
    let middle = forward::with_sdp(request, sdp);
    let line = words[0] + " "@ + uri + " "@ + words[2];
    let updated = headers.update(0, line);
    reveal_strlit("\r\n");
    reveal_strlit("\r\n\r\n");
    lemma_headers_for_sdp(request, sdp);
    lemma_own_lines(sdp);
    assert(headers[0] == given[0]);

    // The request with its description has no bare line feed, and its first line is that of the
    // request.
    lines::lemma_joined_no_bare(headers);
    lines::lemma_crlf_no_bare();
    lines::lemma_no_bare_concat(text::join_lines(headers), mark);
    lines::lemma_no_bare_concat(text::join_lines(headers) + mark, sdp);
    law_rebuilt_request_fits_its_body(request, sdp);
    assert(text::lines(middle)[0] == given[0]);
    assert(forward::has_request_line(middle));
    law_readdressed_request_keeps_its_rest(middle, uri);
    let out = forward::with_request_uri(middle, uri);

    // The first line end of it stands behind the first line.
    let rest = lemma_split_first(headers, sdp);
    assert(!headers[0].contains('\n'));
    lines::lemma_line_end_at(headers[0], rest);
    assert(middle.take(headers[0].len() as int) =~= headers[0]);
    assert(middle.skip(headers[0].len() as int) =~= text::crlf() + rest);
    let other = lemma_split_first(updated, sdp);
    assert(other == rest) by {
        lemma_same_rest(headers, line, sdp);
    }
    assert(out =~= text::join_lines(updated) + mark + sdp);

    // The blank line stands behind the headers.
    lemma_headers_not_blank(request, sdp);
    lemma_request_line(middle, uri);
    assert(line == forward::request_line(middle, uri));
    assert forall|i: int| 0 <= i < updated.len() implies !(#[trigger] updated[i]).contains('\n') && (
    i > 0 ==> updated[i].len() > 0) by {
        if i > 0 {
            assert(updated[i] == headers[i]);
        }
    }
    lines::lemma_head_end_behind(updated, sdp);
    assert(text::before(out, mark) =~= text::join_lines(updated));
    assert(updated.last().len() > 0);
    lines::lemma_lines_of_joined(updated);

    // The lines that give the length.
    let length = forward::length_line(sdp);
    let at = headers.index_of(length);
    assert(headers[at] == length);
    assert(is_length_line(length));
    assert(at != 0);
    assert(updated[at] == length);
    assert forall|i: int|
        0 < i < updated.len() && is_length_line(#[trigger] updated[i]) implies updated[i]
        == length by {
        assert(updated[i] == headers[i]);
        assert(forward::gives_length(headers[i]));
    }
    assert forall|i: int|
        0 < i < given.len() && !is_length_line(#[trigger] given[i]) implies updated[i]
        == given[i] by {
        assert(!forward::gives_length(given[i]));
        assert(headers[i] == given[i]);
    }
}

/// Lines, a blank line and a body are the first line, its line end and a rest.
proof fn lemma_split_first(list: Seq<Seq<char>>, body: Seq<char>) -> (rest: Seq<char>)
    requires
        list.len() > 0,
    ensures
        text::join_lines(list) + lines::head_end() + body == list[0] + text::crlf() + rest,
        rest == (if list.len() == 1 {
            text::crlf() + body
        } else {
            text::join_lines(list.drop_first()) + lines::head_end() + body
        }),
{
    reveal_strlit("\r\n");
    reveal_strlit("\r\n\r\n");
    assert(lines::head_end() =~= text::crlf() + text::crlf());
    if list.len() == 1 {
        let rest = text::crlf() + body;
        assert(text::join_lines(list) + lines::head_end() + body =~= list[0] + text::crlf() + rest);
        rest
    } else {
        let others = list.drop_first();
        let rest = text::join_lines(others) + lines::head_end() + body;
        lines::lemma_join_front(list[0], others);
        assert(seq![list[0]] + others =~= list);
        assert(text::join_lines(list) + lines::head_end() + body =~= list[0] + text::crlf() + rest);
        rest
    }
}

/// The rest does not depend on the first line.
proof fn lemma_same_rest(list: Seq<Seq<char>>, line: Seq<char>, body: Seq<char>)
    requires
        list.len() > 0,
    ensures
        list.update(0, line).drop_first() == list.drop_first(),
{
    assert(list.update(0, line).drop_first() =~= list.drop_first());
}

/// None of the headers for a session description but the first is empty.
proof fn lemma_headers_not_blank(request: Seq<char>, sdp: Seq<char>)
    requires
        lines::no_bare_line_feed(request),
    ensures
        forall|i: int|
            0 < i < forward::headers_for_sdp(request, sdp).len() ==> (
            #[trigger] forward::headers_for_sdp(request, sdp)[i]).len() > 0,
{
    let head = text::before(request, lines::head_end());
    let given = text::lines(head);
    let headers = forward::headers_for_sdp(request, sdp);
    lines::lemma_head(request);
    lines::lemma_no_blank_lines(head);
    lines::lemma_length_header(sdp);
    lines::lemma_type_header();
    assert forall|i: int| 0 < i < headers.len() implies (#[trigger] headers[i]).len() > 0 by {
        if i < given.len() {
            assert(given[i].len() > 0);
            assert(headers[i] == forward::resized(given[i], sdp));
        }
    }
}

} // verus!
