//! Lines and headers: how they come apart again after they were put together.

use crate::number;
use crate::sip::forward;
use crate::text;
use vstd::prelude::*;

verus! {

/// Whether `line` can stand as a header: one line, not blank, with no white space at its ends.
pub open spec fn is_clean(line: Seq<char>) -> bool {
    &&& line.len() > 0
    &&& !line.contains('\n')
    &&& !text::white_space(line[0])
    &&& !text::white_space(line.last())
}

/// Whether all of `lines` can stand as headers.
pub open spec fn all_clean(lines: Seq<Seq<char>>) -> bool {
    forall|i: int| 0 <= i < lines.len() ==> is_clean(#[trigger] lines[i])
}

/// Whether none of `lines` holds a line feed.
pub open spec fn all_single(lines: Seq<Seq<char>>) -> bool {
    forall|i: int| 0 <= i < lines.len() ==> !(#[trigger] lines[i]).contains('\n')
}

/// Lines with their line ends come off the front of a text.
pub(crate) proof fn lemma_ended_lines(list: Seq<Seq<char>>, rest: Seq<char>)
    requires
        all_single(list),
    ensures
        text::lines(forward::ended_lines(list) + rest) == list + text::lines(rest),
    decreases list.len(),
{
    if list.len() == 0 {
        assert(forward::ended_lines(list) + rest =~= rest);
        assert(list + text::lines(rest) =~= text::lines(rest));
    } else {
        let shorter = list.drop_last();
        let last = list.last();
        let tail = last + text::crlf() + rest;
        assert forall|i: int| 0 <= i < shorter.len() implies !(
        #[trigger] shorter[i]).contains('\n') by {
            assert(shorter[i] == list[i]);
        }
        lemma_ended_lines(shorter, tail);
        text::lemma_lines_first(last, rest);
        assert(forward::ended_lines(list) + rest =~= forward::ended_lines(shorter) + tail);
        assert(shorter + (seq![last] + text::lines(rest)) =~= list + text::lines(rest));
    }
}

/// Joined lines and one more line end are lines with their line ends.
pub(crate) proof fn lemma_joined_lines(list: Seq<Seq<char>>)
    requires
        list.len() > 0,
    ensures
        text::join_lines(list) + text::crlf() == forward::ended_lines(list),
    decreases list.len(),
{
    let shorter = list.drop_last();
    if list.len() == 1 {
        assert(forward::ended_lines(shorter) =~= Seq::empty());
        assert(text::join_lines(list) + text::crlf() =~= forward::ended_lines(list));
    } else {
        lemma_joined_lines(shorter);
        assert(text::join_lines(list) + text::crlf() =~= forward::ended_lines(list));
    }
}

/// The headers among two lists of lines, of which the first has no blank line, are those among
/// the one and those among the other.
pub(crate) proof fn lemma_headers_concat(
    first: Seq<Seq<char>>,
    second: Seq<Seq<char>>,
    name: Seq<char>,
    compact: Option<Seq<char>>,
)
    requires
        all_clean(first),
    ensures
        forward::headers_among(first + second, name, compact) == forward::headers_among(
            first,
            name,
            compact,
        ) + forward::headers_among(second, name, compact),
    decreases first.len(),
{
    if first.len() == 0 {
        assert(first + second =~= second);
        assert(forward::headers_among(first, name, compact) + forward::headers_among(
            second,
            name,
            compact,
        ) =~= forward::headers_among(second, name, compact));
    } else {
        let shorter = first.drop_first();
        assert((first + second).drop_first() =~= shorter + second);
        assert((first + second)[0] == first[0]);
        assert(is_clean(first[0]));
        text::lemma_trim_solid(first[0]);
        assert forall|i: int| 0 <= i < shorter.len() implies is_clean(#[trigger] shorter[i]) by {
            assert(shorter[i] == first[i + 1]);
        }
        lemma_headers_concat(shorter, second, name, compact);
        assert(forward::headers_among(first + second, name, compact) =~= forward::headers_among(
            first,
            name,
            compact,
        ) + forward::headers_among(second, name, compact));
    }
}

/// Lines that all are headers with this name are all found, lines that none is are not.
pub(crate) proof fn lemma_headers_same(lines: Seq<Seq<char>>, name: Seq<char>, compact: Option<Seq<char>>)
    requires
        all_clean(lines),
    ensures
        (forall|i: int|
            0 <= i < lines.len() ==> forward::is_header(#[trigger] lines[i], name, compact))
            ==> forward::headers_among(lines, name, compact) == lines,
        (forall|i: int|
            0 <= i < lines.len() ==> !forward::is_header(#[trigger] lines[i], name, compact))
            ==> forward::headers_among(lines, name, compact) == Seq::<Seq<char>>::empty(),
    decreases lines.len(),
{
    if lines.len() > 0 {
        let shorter = lines.drop_first();
        assert forall|i: int| 0 <= i < shorter.len() implies #[trigger] shorter[i] == lines[i
            + 1] by {}
        assert(is_clean(lines[0]));
        text::lemma_trim_solid(lines[0]);
        assert(all_clean(shorter)) by {
            assert forall|i: int| 0 <= i < shorter.len() implies is_clean(
                #[trigger] shorter[i],
            ) by {
                assert(is_clean(lines[i + 1]));
            }
        }
        lemma_headers_same(shorter, name, compact);
        if forall|i: int|
            0 <= i < lines.len() ==> forward::is_header(#[trigger] lines[i], name, compact) {
            assert(forward::is_header(lines[0], name, compact));
            assert forall|i: int| 0 <= i < shorter.len() implies forward::is_header(
                #[trigger] shorter[i],
                name,
                compact,
            ) by {
                assert(forward::is_header(lines[i + 1], name, compact));
            }
            assert(seq![lines[0]] + shorter =~= lines);
        }
        if forall|i: int|
            0 <= i < lines.len() ==> !forward::is_header(#[trigger] lines[i], name, compact) {
            assert(!forward::is_header(lines[0], name, compact));
            assert forall|i: int| 0 <= i < shorter.len() implies !forward::is_header(
                #[trigger] shorter[i],
                name,
                compact,
            ) by {
                assert(!forward::is_header(lines[i + 1], name, compact));
            }
        }
    }
}

/// The headers of a message can stand as headers again, with the same name.
pub(crate) proof fn lemma_headers_found(lines: Seq<Seq<char>>, name: Seq<char>, compact: Option<Seq<char>>)
    requires
        all_single(lines),
    ensures
        all_clean(forward::headers_among(lines, name, compact)),
        forall|i: int|
            0 <= i < forward::headers_among(lines, name, compact).len() ==> forward::is_header(
                #[trigger] forward::headers_among(lines, name, compact)[i],
                name,
                compact,
            ),
    decreases lines.len(),
{
    let found = forward::headers_among(lines, name, compact);
    if lines.len() > 0 && text::trim(lines[0]).len() > 0 {
        let shorter = lines.drop_first();
        let line = text::trim(lines[0]);
        assert forall|i: int| 0 <= i < shorter.len() implies !(
        #[trigger] shorter[i]).contains('\n') by {
            assert(shorter[i] == lines[i + 1]);
        }
        lemma_headers_found(shorter, name, compact);
        text::lemma_trim(lines[0]);
        assert(!lines[0].contains('\n'));
        assert(is_clean(line));
        let rest = forward::headers_among(shorter, name, compact);
        assert forall|i: int| 0 <= i < found.len() implies is_clean(#[trigger] found[i])
            && forward::is_header(found[i], name, compact) by {
            if forward::is_header(line, name, compact) {
                if i > 0 {
                    assert(found[i] == rest[i - 1]);
                }
            } else {
                assert(found[i] == rest[i]);
            }
        }
    }
}

/// What a prefix says of the characters.
pub(crate) proof fn lemma_prefix(prefix: Seq<char>, s: Seq<char>)
    ensures
        prefix.is_prefix_of(s) ==> prefix.len() <= s.len() && forall|i: int|
            0 <= i < prefix.len() ==> s[i] == #[trigger] prefix[i],
{
    if prefix.is_prefix_of(s) {
        assert forall|i: int| 0 <= i < prefix.len() implies s[i] == #[trigger] prefix[i] by {
            assert(s.subrange(0, prefix.len() as int)[i] == s[i]);
        }
    }
}

/// How a line starts, in lower case, that has an ASCII name.
pub(crate) proof fn lemma_names_start(line: Seq<char>, name: Seq<char>)
    requires
        vstd::utf8::is_ascii_chars(name),
    ensures
        forward::names_header(line, name) ==> text::lowercase(line).len() > name.len()
            && forall|i: int|
            0 <= i < name.len() ==> #[trigger] text::lowercase(line)[i] == text::ascii_lowercase(
                name[i],
            ),
{
    reveal_strlit(":");
    let prefix = text::lowercase(name) + ":"@;
    lemma_prefix(prefix, text::lowercase(line));
    assert forall|i: int| 0 <= i < name.len() implies prefix[i] == text::ascii_lowercase(
        #[trigger] name[i],
    ) by {}
    if forward::names_header(line, name) {
        assert forall|i: int| 0 <= i < name.len() implies #[trigger] text::lowercase(line)[i]
            == text::ascii_lowercase(name[i]) by {
            assert(prefix[i] == text::ascii_lowercase(name[i]));
            assert(text::lowercase(line)[i] == prefix[i]);
        }
    }
}

/// A line that starts with the name of a header, in whatever case, and a colon is a header with
/// that name, whatever characters follow.
pub proof fn law_header_goes_by_its_name(name: Seq<char>, given: Seq<char>, rest: Seq<char>)
    requires
        vstd::utf8::is_ascii_chars(given),
        text::lowercase(given) == text::lowercase(name),
        rest.len() > 0,
        rest[0] == ':',
    ensures
        forward::names_header(given + rest, name),
{
    reveal_strlit(":");
    let line = given + rest;
    let n = given.len() as int + 1;
    let start = line.take(n);
    assert forall|i: int| 0 <= i < start.len() implies '\0' <= #[trigger] start[i]
        <= '\u{7f}' by {
        if i < given.len() {
            assert(start[i] == given[i]);
        }
    }
    text::lemma_lowercase_prefix(line, n);
    let prefix = text::lowercase(given) + ":"@;
    assert(prefix =~= text::lowercase(line).subrange(0, n));
}

/// The concatenation of two ASCII texts is ASCII.
pub(crate) proof fn lemma_ascii_concat(a: Seq<char>, b: Seq<char>)
    requires
        vstd::utf8::is_ascii_chars(a),
        vstd::utf8::is_ascii_chars(b),
    ensures
        vstd::utf8::is_ascii_chars(a + b),
{
    let s = a + b;
    assert forall|i: int| 0 <= i < s.len() implies '\0' <= #[trigger] s[i] <= '\u{7f}' by {
        if i < a.len() {
            assert(s[i] == a[i]);
        } else {
            assert(s[i] == b[i - a.len()]);
        }
    }
}

/// The concatenation of two texts without line feeds has none.
pub(crate) proof fn lemma_no_line_feed(a: Seq<char>, b: Seq<char>)
    requires
        !a.contains('\n'),
        !b.contains('\n'),
    ensures
        !(a + b).contains('\n'),
{
    if (a + b).contains('\n') {
        let i = (a + b).index_of('\n');
        if i < a.len() {
            assert(a[i] == '\n');
        } else {
            assert(b[i - a.len()] == '\n');
        }
    }
}

/// The line that names the type of a session description is a Content-Type header.
pub(crate) proof fn lemma_type_header()
    ensures
        is_clean(forward::type_line()),
        forward::is_header(forward::type_line(), "Content-Type"@, None),
        vstd::utf8::is_ascii_chars(forward::type_line()),
{
    reveal_strlit("Content-Type");
    reveal_strlit("Content-Type: application/sdp");
    reveal_strlit(": application/sdp");
    law_header_goes_by_its_name("Content-Type"@, "Content-Type"@, ": application/sdp"@);
    assert(forward::type_line() =~= "Content-Type"@ + ": application/sdp"@);
}

/// The line that gives the length of a body is a Content-Length header.
pub(crate) proof fn lemma_length_header(body: Seq<char>)
    ensures
        is_clean(forward::length_line(body)),
        forward::names_header(forward::length_line(body), "Content-Length"@),
        vstd::utf8::is_ascii_chars(forward::length_line(body)),
{
    let digits = number::decimal(vstd::utf8::encode_utf8(body).len());
    number::lemma_decimal_value(vstd::utf8::encode_utf8(body).len());
    reveal_strlit("Content-Length");
    reveal_strlit("Content-Length: ");
    reveal_strlit(": ");
    assert forall|i: int| 0 <= i < digits.len() implies '\0' <= #[trigger] digits[i]
        <= '\u{7f}' by {
        assert(number::is_digit(digits[i]));
    }
    lemma_ascii_concat("Content-Length: "@, digits);
    law_header_goes_by_its_name("Content-Length"@, "Content-Length"@, ": "@ + digits);
    let line = forward::length_line(body);
    assert(line =~= "Content-Length"@ + (": "@ + digits));
    assert(number::is_digit(digits[digits.len() - 1]));
    if line.contains('\n') {
        let i = line.index_of('\n');
        assert(i < 16 || number::is_digit(digits[i - 16]));
    }
}

/// The length that a Content-Length line gives is the number of bytes of the body.
pub proof fn law_length_line_counts_bytes(body: Seq<char>)
    ensures
        number::parse_unsigned(
            forward::length_line(body).skip("Content-Length: "@.len() as int),
            vstd::utf8::encode_utf8(body).len(),
        ) == Some(vstd::utf8::encode_utf8(body).len()),
{
    let n = vstd::utf8::encode_utf8(body).len();
    number::lemma_decimal_value(n);
    let digits = forward::length_line(body).skip("Content-Length: "@.len() as int);
    assert(digits =~= number::decimal(n));
    assert(number::is_digit(digits[0]));
}

/// The lines of two lists with their line ends.
pub(crate) proof fn lemma_ended_concat(first: Seq<Seq<char>>, second: Seq<Seq<char>>)
    ensures
        forward::ended_lines(first + second) == forward::ended_lines(first) + forward::ended_lines(
            second,
        ),
    decreases second.len(),
{
    if second.len() == 0 {
        assert(first + second =~= first);
        assert(forward::ended_lines(first) + forward::ended_lines(second) =~= forward::ended_lines(
            first,
        ));
    } else {
        let shorter = second.drop_last();
        lemma_ended_concat(first, shorter);
        assert((first + second).drop_last() =~= first + shorter);
        assert((first + second).last() == second.last());
        assert(forward::ended_lines(first + second) =~= forward::ended_lines(first)
            + forward::ended_lines(second));
    }
}

/// The lines of joined lines, the last of which is not empty.
pub(crate) proof fn lemma_lines_of_joined(list: Seq<Seq<char>>)
    requires
        list.len() > 0,
        all_single(list),
        list.last().len() > 0,
    ensures
        text::lines(text::join_lines(list)) == list,
{
    let last = list.last();
    text::lemma_lines_last(last);
    if list.len() == 1 {
        assert(seq![list[0]] =~= list);
    } else {
        let shorter = list.drop_last();
        lemma_joined_lines(shorter);
        assert(all_single(shorter)) by {
            assert forall|i: int| 0 <= i < shorter.len() implies !(
            #[trigger] shorter[i]).contains('\n') by {
                assert(shorter[i] == list[i]);
            }
        }
        lemma_ended_lines(shorter, last);
        assert(shorter + seq![last] =~= list);
    }
}

/// Joined lines, taken from the front.
pub(crate) proof fn lemma_join_front(line: Seq<char>, list: Seq<Seq<char>>)
    requires
        list.len() > 0,
    ensures
        text::join_lines(seq![line] + list) == line + text::crlf() + text::join_lines(list),
    decreases list.len(),
{
    let all = seq![line] + list;
    let shorter = list.drop_last();
    assert(all.last() == list.last());
    assert(all.drop_last() =~= seq![line] + shorter);
    if list.len() == 1 {
        assert(seq![line] + shorter =~= seq![line]);
        assert(text::join_lines(seq![line]) == line);
        assert(text::join_lines(all) =~= line + text::crlf() + text::join_lines(list));
    } else {
        lemma_join_front(line, shorter);
        assert(text::join_lines(all) =~= line + text::crlf() + text::join_lines(list));
    }
}

// ---------------------------------------------------------------------------
// Texts without bare line feeds
// ---------------------------------------------------------------------------

/// Whether every line feed of `s` stands behind a carriage return.
pub open spec fn no_bare_line_feed(s: Seq<char>) -> bool {
    forall|i: int| 0 <= i < s.len() && #[trigger] s[i] == '\n' ==> i > 0 && s[i - 1] == '\r'
}

/// The blank line that ends the headers, with the line end before it.
pub open spec fn head_end() -> Seq<char> {
    "\r\n\r\n"@
}

/// Splits a text with a line feed into its first line and what follows the line end.
pub(crate) proof fn lemma_first_line(s: Seq<char>) -> (parts: (Seq<char>, Seq<char>))
    requires
        no_bare_line_feed(s),
        s.contains('\n'),
    ensures
        s == parts.0 + text::crlf() + parts.1,
        !parts.0.contains('\n'),
        no_bare_line_feed(parts.1),
        text::lines(s) == seq![parts.0] + text::lines(parts.1),
        parts.1.len() < s.len(),
{
    reveal_strlit("\r\n");
    let end = text::find(s, text::Class::Is('\n')) as int;
    text::lemma_find(s, text::Class::Is('\n'));
    let at = s.index_of('\n');
    assert(s[at] == '\n');
    if end >= s.len() {
        assert(!text::Class::Is('\n').holds(s[at]));
    }
    assert(s[end] == '\n');
    let line = s.take(end - 1);
    let rest = s.skip(end + 1);
    assert(s =~= line + text::crlf() + rest);
    if line.contains('\n') {
        let i = line.index_of('\n');
        assert(s[i] == line[i]);
        assert(!text::Class::Is('\n').holds(s[i]));
    }
    assert forall|i: int| 0 <= i < rest.len() && #[trigger] rest[i] == '\n' implies i > 0 && rest[i
        - 1] == '\r' by {
        assert(s[end + 1 + i] == '\n');
        assert(s[end + i] == '\r');
        if i > 0 {
            assert(rest[i - 1] == s[end + i]);
        }
    }
    text::lemma_lines_first(line, rest);
    (line, rest)
}

/// Whether the line end stands at the end is decided by what follows the first line.
pub(crate) proof fn lemma_suffix_of_rest(line: Seq<char>, rest: Seq<char>)
    requires
        rest.len() > 0,
        no_bare_line_feed(rest),
    ensures
        text::crlf().is_suffix_of(line + text::crlf() + rest) == text::crlf().is_suffix_of(rest),
{
    reveal_strlit("\r\n");
    let s = line + text::crlf() + rest;
    if rest.len() >= 2 {
        assert(s.subrange(s.len() - 2, s.len() as int) =~= rest.subrange(
            rest.len() - 2,
            rest.len() as int,
        ));
    } else {
        assert(s.subrange(s.len() - 2, s.len() as int)[1] == rest[0]);
    }
}

/// A text without bare line feeds is its lines, joined, with a line end where it ends in one.
pub(crate) proof fn lemma_lines_joined_again(s: Seq<char>)
    requires
        no_bare_line_feed(s),
        s.len() > 0,
    ensures
        text::lines(s).len() > 0,
        text::crlf().is_suffix_of(s) ==> s == text::join_lines(text::lines(s)) + text::crlf(),
        !text::crlf().is_suffix_of(s) ==> s == text::join_lines(text::lines(s)) && text::lines(
            s,
        ).last().len() > 0,
    decreases s.len(),
{
    reveal_strlit("\r\n");
    if !s.contains('\n') {
        text::lemma_lines_last(s);
        if text::crlf().is_suffix_of(s) {
            assert(s.subrange(s.len() - 2, s.len() as int)[1] == s[s.len() - 1]);
            assert(s.contains('\n'));
        }
    } else {
        let (line, rest) = lemma_first_line(s);
        if rest.len() == 0 {
            assert(text::lines(rest) =~= Seq::empty());
            assert(text::lines(s) =~= seq![line]);
            assert(s =~= line + text::crlf());
            assert(s.subrange(s.len() - 2, s.len() as int) =~= text::crlf());
        } else {
            lemma_lines_joined_again(rest);
            lemma_join_front(line, text::lines(rest));
            lemma_suffix_of_rest(line, rest);
            let all = text::lines(s);
            assert(all.last() == text::lines(rest).last());
            if text::crlf().is_suffix_of(s) {
                assert(s =~= text::join_lines(all) + text::crlf());
            } else {
                assert(s =~= text::join_lines(all));
            }
        }
    }
}

/// Where the first line of a text ends.
pub(crate) proof fn lemma_line_end_at(line: Seq<char>, rest: Seq<char>)
    requires
        !line.contains('\n'),
    ensures
        text::find_text(line + text::crlf() + rest, text::crlf()) == line.len(),
{
    reveal_strlit("\r\n");
    let s = line + text::crlf() + rest;
    let end = line.len();
    assert forall|k: int| 0 <= k < end implies !text::crlf().is_prefix_of(
        #[trigger] s.skip(k),
    ) by {
        lemma_prefix(text::crlf(), s.skip(k));
        if text::crlf().is_prefix_of(s.skip(k)) {
            assert(s.skip(k)[1] == text::crlf()[1]);
            assert(s[k + 1] == '\n');
            if k + 1 < end {
                assert(line[k + 1] == '\n');
            }
        }
    }
    assert(s.skip(end as int).subrange(0, 2) =~= text::crlf());
    text::lemma_find_text_at(s, text::crlf(), end);
}

/// A text without a line feed has no line end.
pub(crate) proof fn lemma_no_line_end(s: Seq<char>)
    requires
        !s.contains('\n'),
    ensures
        text::find_text(s, text::crlf()) == s.len(),
{
    reveal_strlit("\r\n");
    assert forall|k: int| 0 <= k < s.len() implies !text::crlf().is_prefix_of(
        #[trigger] s.skip(k),
    ) by {
        lemma_prefix(text::crlf(), s.skip(k));
        if text::crlf().is_prefix_of(s.skip(k)) {
            assert(s.skip(k)[1] == text::crlf()[1]);
            assert(s[k + 1] == '\n');
        }
    }
    text::lemma_find_text_at(s, text::crlf(), s.len());
}

/// Where the headers end, seen from the first line: behind it, where a line end follows; else
/// where they end in what follows.
pub(crate) proof fn lemma_head_end_first(line: Seq<char>, rest: Seq<char>)
    requires
        !line.contains('\n'),
    ensures
        text::crlf().is_prefix_of(rest) ==> text::find_text(
            line + text::crlf() + rest,
            head_end(),
        ) == line.len(),
        !text::crlf().is_prefix_of(rest) ==> text::find_text(line + text::crlf() + rest, head_end())
            == line.len() + 2 + text::find_text(rest, head_end()),
{
    reveal_strlit("\r\n");
    reveal_strlit("\r\n\r\n");
    let s = line + text::crlf() + rest;
    let n = line.len() as int;
    let mark = head_end();
    assert forall|k: int| 0 <= k < n implies !mark.is_prefix_of(#[trigger] s.skip(k)) by {
        lemma_prefix(mark, s.skip(k));
        if mark.is_prefix_of(s.skip(k)) {
            assert(s.skip(k)[1] == mark[1]);
            assert(s[k + 1] == '\n');
            if k + 1 < n {
                assert(line[k + 1] == '\n');
            }
        }
    }
    if text::crlf().is_prefix_of(rest) {
        lemma_prefix(text::crlf(), rest);
        assert(rest[0] == text::crlf()[0] && rest[1] == text::crlf()[1]);
        assert(s.skip(n).subrange(0, 4) =~= mark);
        text::lemma_find_text_at(s, mark, line.len());
    } else {
        let m = text::find_text(rest, mark);
        text::lemma_find_text(rest, mark);
        assert forall|k: int| 0 <= k < n + 2 + m implies !mark.is_prefix_of(
            #[trigger] s.skip(k),
        ) by {
            lemma_prefix(mark, s.skip(k));
            if k == n {
                if mark.is_prefix_of(s.skip(k)) {
                    assert(s.skip(k)[2] == mark[2] && s.skip(k)[3] == mark[3]);
                    assert(rest[0] == '\r' && rest[1] == '\n');
                    assert(rest.subrange(0, 2) =~= text::crlf());
                }
            } else if k == n + 1 {
                if mark.is_prefix_of(s.skip(k)) {
                    assert(s.skip(k)[0] == mark[0]);
                    assert(s[k] == '\n');
                }
            } else if k >= n + 2 {
                text::lemma_find_text_before(rest, mark, k - n - 2);
                assert(s.skip(k) =~= rest.skip(k - n - 2));
            }
        }
        if m < rest.len() {
            assert(s.skip(n + 2 + m) =~= rest.skip(m as int));
        }
        text::lemma_find_text_at(s, mark, (n + 2 + m) as nat);
    }
}

/// The headers end behind lines of which none but the first is empty.
pub(crate) proof fn lemma_head_end_behind(list: Seq<Seq<char>>, body: Seq<char>)
    requires
        list.len() > 0,
        all_single(list),
        forall|i: int| 0 < i < list.len() ==> (#[trigger] list[i]).len() > 0,
    ensures
        text::find_text(text::join_lines(list) + head_end() + body, head_end())
            == text::join_lines(list).len(),
    decreases list.len(),
{
    reveal_strlit("\r\n");
    reveal_strlit("\r\n\r\n");
    let line = list[0];
    assert(!line.contains('\n'));
    assert(head_end() =~= text::crlf() + text::crlf());
    if list.len() == 1 {
        let rest = text::crlf() + body;
        assert(text::join_lines(list) + head_end() + body =~= line + text::crlf() + rest);
        assert(rest.subrange(0, 2) =~= text::crlf());
        lemma_head_end_first(line, rest);
    } else {
        let others = list.drop_first();
        assert forall|i: int| 0 <= i < others.len() implies !(#[trigger] others[i]).contains('\n')
            && others[i].len() > 0 by {
            assert(others[i] == list[i + 1]);
        }
        lemma_head_end_behind(others, body);
        lemma_join_front(line, others);
        assert(seq![line] + others =~= list);
        let rest = text::join_lines(others) + head_end() + body;
        assert(text::join_lines(list) + head_end() + body =~= line + text::crlf() + rest);
        assert(!text::crlf().is_prefix_of(rest)) by {
            lemma_join_starts(others, body);
            let second = others[0];
            lemma_prefix(text::crlf(), rest);
            if text::crlf().is_prefix_of(rest) {
                assert(rest[1] == text::crlf()[1]);
                if second.len() > 1 {
                    assert(rest[1] == second[1]);
                    assert(second.contains(second[1]));
                } else {
                    assert(rest[1] == '\r');
                }
            }
        }
        lemma_head_end_first(line, rest);
    }
}

/// How joined lines and a blank line start: with the first line and a line end.
proof fn lemma_join_starts(list: Seq<Seq<char>>, body: Seq<char>)
    requires
        list.len() > 0,
    ensures
        ({
            let s = text::join_lines(list) + head_end() + body;
            &&& s.len() > list[0].len() + 1
            &&& forall|i: int| 0 <= i < list[0].len() ==> #[trigger] s[i] == list[0][i]
            &&& s[list[0].len() as int] == '\r'
        }),
{
    reveal_strlit("\r\n");
    reveal_strlit("\r\n\r\n");
    if list.len() > 1 {
        let others = list.drop_first();
        lemma_join_front(list[0], others);
        assert(seq![list[0]] + others =~= list);
    }
}

/// A text without bare line feeds in which the headers do not end has no empty line but, perhaps,
/// the first.
pub(crate) proof fn lemma_no_blank_lines(s: Seq<char>)
    requires
        no_bare_line_feed(s),
        text::find_text(s, head_end()) >= s.len(),
    ensures
        forall|i: int| 0 < i < text::lines(s).len() ==> (#[trigger] text::lines(s)[i]).len() > 0,
        !text::crlf().is_prefix_of(s) && text::lines(s).len() > 0 ==> text::lines(s)[0].len() > 0,
    decreases s.len(),
{
    reveal_strlit("\r\n");
    reveal_strlit("\r\n\r\n");
    if s.contains('\n') {
        let (line, rest) = lemma_first_line(s);
        lemma_head_end_first(line, rest);
        text::lemma_find_text(rest, head_end());
        lemma_no_blank_lines(rest);
        let all = text::lines(s);
        assert forall|i: int| 0 < i < all.len() implies (#[trigger] all[i]).len() > 0 by {
            assert(all[i] == text::lines(rest)[i - 1]);
        }
        if line.len() == 0 {
            assert(s.subrange(0, 2) =~= text::crlf());
        }
    } else if s.len() > 0 {
        text::lemma_lines_last(s);
    }
}

/// The part of a text before the end of its headers holds no such end, and no bare line feed
/// where the text has none.
pub(crate) proof fn lemma_head(s: Seq<char>)
    requires
        no_bare_line_feed(s),
    ensures
        no_bare_line_feed(text::before(s, head_end())),
        text::find_text(text::before(s, head_end()), head_end()) >= text::before(
            s,
            head_end(),
        ).len(),
{
    reveal_strlit("\r\n\r\n");
    let mark = head_end();
    let n = text::find_text(s, mark) as int;
    text::lemma_find_text(s, mark);
    let head = text::before(s, mark);
    assert forall|i: int| 0 <= i < head.len() && #[trigger] head[i] == '\n' implies i > 0 && head[i
        - 1] == '\r' by {
        assert(s[i] == '\n');
    }
    let m = text::find_text(head, mark) as int;
    text::lemma_find_text(head, mark);
    if m < head.len() {
        text::lemma_find_text_before(s, mark, m);
        lemma_prefix(mark, head.skip(m));
        assert(mark =~= s.skip(m).subrange(0, 4)) by {
            assert forall|i: int| 0 <= i < 4 implies mark[i] == #[trigger] s.skip(m).subrange(
                0,
                4,
            )[i] by {
                assert(head.skip(m)[i] == mark[i]);
            }
        }
    }
}

// ---------------------------------------------------------------------------
// Headers
// ---------------------------------------------------------------------------

/// The headers with a name are found line by line, in their order, up to the first blank line. A
/// line counts, without the white space around it, where it starts with the name, or with the
/// compact name, and a colon, in whatever case.
pub proof fn law_headers_line_by_line(
    line: Seq<char>,
    rest: Seq<Seq<char>>,
    name: Seq<char>,
    compact: Option<Seq<char>>,
)
    ensures
        forward::headers_among(Seq::empty(), name, compact).len() == 0,
        ({
            let found = forward::headers_among(seq![line] + rest, name, compact);
            let header = text::trim(line);
            let low = text::lowercase(header);
            let named = (text::lowercase(name) + seq![':']).is_prefix_of(low) || (
            compact matches Some(short) && (text::lowercase(short) + seq![':']).is_prefix_of(low));
            &&& header.len() == 0 ==> found.len() == 0
            &&& header.len() > 0 && named ==> found == seq![header] + forward::headers_among(
                rest,
                name,
                compact,
            )
            &&& header.len() > 0 && !named ==> found == forward::headers_among(rest, name, compact)
        }),
{
    reveal_strlit(":");
    assert(":"@ =~= seq![':']);
    let all = seq![line] + rest;
    assert(all[0] == line);
    assert(all.drop_first() =~= rest);
}

/// The headers of a message are those among its lines, and the first of them is the one that
/// counts where there can be only one.
pub proof fn law_headers_of_a_message(
    message: Seq<char>,
    name: Seq<char>,
    compact: Option<Seq<char>>,
)
    ensures
        forward::headers_of(message, name, compact) == forward::headers_among(
            text::lines(message),
            name,
            compact,
        ),
        ({
            let found = forward::headers_among(text::lines(message), name, compact);
            forward::first_header_of(message, name, compact) == (if found.len() > 0 {
                Some(found[0])
            } else {
                None
            })
        }),
{
}

/// Lines with their line ends stand one behind the other, each with a carriage return and a line
/// feed.
pub proof fn law_ended_lines(list: Seq<Seq<char>>, line: Seq<char>)
    ensures
        forward::ended_lines(Seq::<Seq<char>>::empty()).len() == 0,
        forward::ended_lines(list.push(line)) == forward::ended_lines(list) + line
            + seq!['\r', '\n'],
{
    reveal_strlit("\r\n");
    assert(text::crlf() =~= seq!['\r', '\n']);
    assert(list.push(line).drop_last() =~= list);
}

/// Joined lines hold no bare line feed where the lines hold none at all.
pub(crate) proof fn lemma_joined_no_bare(list: Seq<Seq<char>>)
    requires
        all_single(list),
    ensures
        no_bare_line_feed(text::join_lines(list)),
    decreases list.len(),
{
    reveal_strlit("\r\n");
    if list.len() == 1 {
        lemma_single_no_bare(list[0]);
    } else if list.len() > 1 {
        let shorter = list.drop_last();
        assert forall|i: int| 0 <= i < shorter.len() implies !(
        #[trigger] shorter[i]).contains('\n') by {
            assert(shorter[i] == list[i]);
        }
        lemma_joined_no_bare(shorter);
        assert(!list[list.len() - 1].contains('\n'));
        lemma_single_no_bare(list.last());
        lemma_crlf_no_bare();
        lemma_no_bare_concat(text::join_lines(shorter), text::crlf());
        lemma_no_bare_concat(text::join_lines(shorter) + text::crlf(), list.last());
    }
}

/// A text without line feeds has no bare one.
proof fn lemma_single_no_bare(s: Seq<char>)
    requires
        !s.contains('\n'),
    ensures
        no_bare_line_feed(s),
{
    assert forall|i: int| 0 <= i < s.len() && #[trigger] s[i] == '\n' implies i > 0 && s[i - 1]
        == '\r' by {
        assert(s.contains(s[i]));
    }
}

/// Line ends have no bare line feed.
pub(crate) proof fn lemma_crlf_no_bare()
    ensures
        no_bare_line_feed(text::crlf()),
        no_bare_line_feed(head_end()),
{
    reveal_strlit("\r\n");
    reveal_strlit("\r\n\r\n");
}

/// Two texts without bare line feeds have none together.
pub(crate) proof fn lemma_no_bare_concat(a: Seq<char>, b: Seq<char>)
    requires
        no_bare_line_feed(a),
        no_bare_line_feed(b),
    ensures
        no_bare_line_feed(a + b),
{
    let s = a + b;
    assert forall|i: int| 0 <= i < s.len() && #[trigger] s[i] == '\n' implies i > 0 && s[i - 1]
        == '\r' by {
        if i < a.len() {
            assert(a[i] == '\n');
        } else {
            assert(b[i - a.len()] == '\n');
        }
    }
}

} // verus!
