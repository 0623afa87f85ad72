//! Texts and numbers: how they come apart, and how they are put together.

use crate::number;
use crate::text;
use vstd::prelude::*;

verus! {

/// White space is what Unicode counts as such.
pub proof fn law_white_space(c: char)
    ensures
        text::white_space(c) == ({
            let n = c as int;
            9 <= n <= 13 || n == 0x20 || n == 0x85 || n == 0xa0 || n == 0x1680 || 0x2000 <= n
                <= 0x200a || n == 0x2028 || n == 0x2029 || n == 0x202f || n == 0x205f || n == 0x3000
        }),
{
}

/// A search stops at the first character of the kind that is looked for, or at the end.
pub proof fn law_search_stops_at_the_first(s: Seq<char>, mark: char)
    ensures
        ({
            let at = text::find(s, text::Class::Is(mark)) as int;
            &&& 0 <= at <= s.len()
            &&& forall|i: int| 0 <= i < at ==> #[trigger] s[i] != mark
            &&& at < s.len() ==> s[at] == mark
        }),
        ({
            let at = text::find(s, text::Class::Not(mark)) as int;
            &&& 0 <= at <= s.len()
            &&& forall|i: int| 0 <= i < at ==> #[trigger] s[i] == mark
            &&& at < s.len() ==> s[at] != mark
        }),
        ({
            let at = text::find(s, text::Class::Space) as int;
            &&& 0 <= at <= s.len()
            &&& forall|i: int| 0 <= i < at ==> !text::white_space(#[trigger] s[i])
            &&& at < s.len() ==> text::white_space(s[at])
        }),
        ({
            let at = text::find(s, text::Class::NotSpace) as int;
            &&& 0 <= at <= s.len()
            &&& forall|i: int| 0 <= i < at ==> text::white_space(#[trigger] s[i])
            &&& at < s.len() ==> !text::white_space(s[at])
        }),
{
    text::lemma_find(s, text::Class::Is(mark));
    text::lemma_find(s, text::Class::Not(mark));
    text::lemma_find(s, text::Class::Space);
    text::lemma_find(s, text::Class::NotSpace);
    assert forall|i: int| 0 <= i < text::find(s, text::Class::Is(mark)) implies #[trigger] s[i]
        != mark by {
        assert(!text::Class::Is(mark).holds(s[i]));
    }
    assert forall|i: int| 0 <= i < text::find(s, text::Class::Not(mark)) implies #[trigger] s[i]
        == mark by {
        assert(!text::Class::Not(mark).holds(s[i]));
    }
    assert forall|i: int|
        0 <= i < text::find(s, text::Class::Space) implies !text::white_space(#[trigger] s[i]) by {
        assert(!text::Class::Space.holds(s[i]));
    }
    assert forall|i: int| 0 <= i < text::find(s, text::Class::NotSpace) implies text::white_space(
        #[trigger] s[i],
    ) by {
        assert(!text::Class::NotSpace.holds(s[i]));
    }
}

/// Whether all of `s` is white space.
pub open spec fn is_blank(s: Seq<char>) -> bool {
    forall|i: int| 0 <= i < s.len() ==> text::white_space(#[trigger] s[i])
}

/// White space at both ends is trimmed away, and nothing else.
pub proof fn law_trim(lead: Seq<char>, inner: Seq<char>, tail: Seq<char>)
    requires
        is_blank(lead),
        is_blank(tail),
        inner.len() > 0 ==> !text::white_space(inner[0]) && !text::white_space(inner.last()),
    ensures
        text::trim(lead + inner + tail) == inner,
{
    let s = lead + inner + tail;
    if inner.len() == 0 {
        assert forall|j: int| 0 <= j < s.len() implies !text::Class::NotSpace.holds(
            #[trigger] s[j],
        ) by {
            if j < lead.len() {
                assert(s[j] == lead[j]);
            } else {
                assert(s[j] == tail[j - lead.len()]);
            }
        }
        text::lemma_find_at(s, text::Class::NotSpace, s.len());
        assert(s.skip(s.len() as int) =~= inner);
    } else {
        assert forall|j: int| 0 <= j < lead.len() implies !text::Class::NotSpace.holds(
            #[trigger] s[j],
        ) by {
            assert(s[j] == lead[j]);
        }
        assert(s[lead.len() as int] == inner[0]);
        text::lemma_find_at(s, text::Class::NotSpace, lead.len());
        assert(s.skip(lead.len() as int) =~= inner + tail);
        lemma_trim_tail(inner, tail);
    }
}

/// White space at the end is trimmed away.
proof fn lemma_trim_tail(inner: Seq<char>, tail: Seq<char>)
    requires
        is_blank(tail),
        inner.len() > 0,
        !text::white_space(inner.last()),
    ensures
        text::trim_end(inner + tail, text::Class::NotSpace) == inner,
    decreases tail.len(),
{
    let s = inner + tail;
    if tail.len() == 0 {
        assert(s =~= inner);
    } else {
        assert(s.last() == tail[tail.len() - 1]);
        assert(s.drop_last() =~= inner + tail.drop_last());
        lemma_trim_tail(inner, tail.drop_last());
    }
}

/// Double quotes at both ends come off, however many, and nothing else.
pub proof fn law_unquote(lead: Seq<char>, inner: Seq<char>, tail: Seq<char>)
    requires
        forall|i: int| 0 <= i < lead.len() ==> #[trigger] lead[i] == '"',
        forall|i: int| 0 <= i < tail.len() ==> #[trigger] tail[i] == '"',
        inner.len() > 0 ==> inner[0] != '"' && inner.last() != '"',
    ensures
        text::unquote(lead + inner + tail) == inner,
{
    let s = lead + inner + tail;
    let outside = text::Class::Not('"');
    if inner.len() == 0 {
        assert forall|j: int| 0 <= j < s.len() implies !outside.holds(#[trigger] s[j]) by {
            if j < lead.len() {
                assert(s[j] == lead[j]);
            } else {
                assert(s[j] == tail[j - lead.len()]);
            }
        }
        text::lemma_find_at(s, outside, s.len());
        assert(s.skip(s.len() as int) =~= inner);
    } else {
        assert forall|j: int| 0 <= j < lead.len() implies !outside.holds(#[trigger] s[j]) by {
            assert(s[j] == lead[j]);
        }
        assert(s[lead.len() as int] == inner[0]);
        text::lemma_find_at(s, outside, lead.len());
        assert(s.skip(lead.len() as int) =~= inner + tail);
        lemma_unquote_tail(inner, tail);
    }
}

/// Double quotes at the end come off.
proof fn lemma_unquote_tail(inner: Seq<char>, tail: Seq<char>)
    requires
        forall|i: int| 0 <= i < tail.len() ==> #[trigger] tail[i] == '"',
        inner.len() > 0,
        inner.last() != '"',
    ensures
        text::trim_end(inner + tail, text::Class::Not('"')) == inner,
    decreases tail.len(),
{
    let s = inner + tail;
    if tail.len() == 0 {
        assert(s =~= inner);
    } else {
        assert(s.last() == tail[tail.len() - 1]);
        assert(s.drop_last() =~= inner + tail.drop_last());
        lemma_unquote_tail(inner, tail.drop_last());
    }
}

/// A text comes apart at its line feeds, each of which takes a carriage return before it along.
/// What follows the last one is a line, unless it is empty.
pub proof fn law_lines(line: Seq<char>, rest: Seq<char>)
    requires
        !line.contains('\n'),
    ensures
        text::lines(Seq::<char>::empty()).len() == 0,
        line.len() > 0 ==> text::lines(line) == seq![line],
        text::lines(line + seq!['\r', '\n'] + rest) == seq![line] + text::lines(rest),
        !(line.len() > 0 && line.last() == '\r') ==> text::lines(line + seq!['\n'] + rest)
            == seq![line] + text::lines(rest),
{
    reveal_strlit("\r\n");
    assert(text::crlf() =~= seq!['\r', '\n']);
    text::lemma_lines_first(line, rest);
    if line.len() > 0 {
        text::lemma_lines_last(line);
    }
    if !(line.len() > 0 && line.last() == '\r') {
        let s = line + seq!['\n'] + rest;
        assert forall|j: int| 0 <= j < line.len() implies !text::Class::Is('\n').holds(
            #[trigger] s[j],
        ) by {
            assert(s[j] == line[j]);
            assert(line.contains(line[j]));
        }
        assert(s[line.len() as int] == '\n');
        text::lemma_find_at(s, text::Class::Is('\n'), line.len());
        assert(s.take(line.len() as int) =~= line);
        assert(s.skip(line.len() as int + 1) =~= rest);
    }
}

/// Lines are joined with a carriage return and a line feed between each two.
pub proof fn law_join_lines(list: Seq<Seq<char>>, line: Seq<char>)
    ensures
        text::join_lines(Seq::<Seq<char>>::empty()).len() == 0,
        text::join_lines(seq![line]) == line,
        list.len() > 0 ==> text::join_lines(list.push(line)) == text::join_lines(list)
            + seq!['\r', '\n'] + line,
        text::crlf() == seq!['\r', '\n'],
{
    reveal_strlit("\r\n");
    assert(text::crlf() =~= seq!['\r', '\n']);
    assert(list.push(line).drop_last() =~= list);
}

/// A text comes apart into its words at white space, however much of it there is.
pub proof fn law_words(blank: char, word: Seq<char>, rest: Seq<char>)
    requires
        text::white_space(blank),
        word.len() > 0,
        forall|i: int| 0 <= i < word.len() ==> !text::white_space(#[trigger] word[i]),
    ensures
        text::words(Seq::<char>::empty()).len() == 0,
        text::words(seq![blank] + rest) == text::words(rest),
        rest.len() == 0 || text::white_space(rest[0]) ==> text::words(word + rest) == seq![word]
            + text::words(rest),
{
    let s = seq![blank] + rest;
    let n = text::find(rest, text::Class::NotSpace) as int;
    text::lemma_find(rest, text::Class::NotSpace);
    assert(s.drop_first() =~= rest);
    assert(s[0] == blank);
    assert(text::find(s, text::Class::NotSpace) == n + 1);
    assert(s.skip(n + 1) =~= rest.skip(n));
    if rest.len() == 0 || text::white_space(rest[0]) {
        let t = word + rest;
        assert(t[0] == word[0]);
        assert(text::find(t, text::Class::NotSpace) == 0);
        assert(t.skip(0) =~= t);
        assert forall|j: int| 0 <= j < word.len() implies !text::Class::Space.holds(
            #[trigger] t[j],
        ) by {
            assert(t[j] == word[j]);
        }
        if rest.len() > 0 {
            assert(t[word.len() as int] == rest[0]);
        }
        text::lemma_find_at(t, text::Class::Space, word.len());
        assert(t.take(word.len() as int) =~= word);
        assert(t.skip(word.len() as int) =~= rest);
    }
}

/// What stands before the first occurrence of a mark is all up to there, and all of the text where
/// the mark does not occur.
pub proof fn law_before_the_mark(s: Seq<char>, mark: Seq<char>)
    ensures
        ({
            let head = text::before(s, mark);
            &&& head == s.take(head.len() as int)
            &&& forall|k: int|
                0 <= k < head.len() ==> !mark.is_prefix_of(#[trigger] s.skip(k))
            &&& head.len() < s.len() ==> mark.is_prefix_of(s.skip(head.len() as int))
        }),
{
    text::lemma_find_text(s, mark);
    let n = text::find_text(s, mark) as int;
    assert(text::before(s, mark).len() == n);
    assert forall|k: int| 0 <= k < n implies !mark.is_prefix_of(#[trigger] s.skip(k)) by {
        text::lemma_find_text_before(s, mark, k);
    }
}

/// What stands between the first two occurrences of a mark starts behind the first one, and ends
/// at the next or at the end of the text. Where the mark does not occur, it is empty.
pub proof fn law_between_the_marks(s: Seq<char>, mark: Seq<char>)
    ensures
        text::before(s, mark) == s ==> text::between(s, mark).len() == 0,
        text::before(s, mark) != s ==> text::between(s, mark) == text::before(
            s.skip((text::before(s, mark).len() + mark.len()) as int),
            mark,
        ),
{
    text::lemma_find_text(s, mark);
    let n = text::find_text(s, mark) as int;
    assert(text::before(s, mark).len() == n);
    if n >= s.len() {
        assert(text::before(s, mark) =~= s);
    }
}

/// The lower-case form of an ASCII text has a small letter for each capital one, and is otherwise
/// the same. Where other characters follow, the ASCII characters in front are lowered so too.
pub proof fn law_lower_case(s: Seq<char>, n: int)
    requires
        0 <= n <= s.len(),
        forall|i: int| 0 <= i < n ==> 0 <= #[trigger] s[i] as int <= 127,
    ensures
        n == s.len() ==> text::lowercase(s).len() == n,
        text::lowercase(s).len() >= n,
        forall|i: int|
            0 <= i < n ==> #[trigger] text::lowercase(s)[i] as int == (if 65 <= s[i] as int <= 90 {
                s[i] as int + 32
            } else {
                s[i] as int
            }),
{
    let start = s.take(n);
    assert forall|i: int| 0 <= i < start.len() implies '\0' <= #[trigger] start[i]
        <= '\u{7f}' by {
        assert(start[i] == s[i]);
    }
    text::lemma_lowercase_prefix(s, n);
    if n == s.len() {
        assert(start =~= s);
    }
}

// ---------------------------------------------------------------------------
// Numbers
// ---------------------------------------------------------------------------

/// A number is written in decimal digits, without a zero in front but for 0 itself, and stands for
/// itself; a negative one has a minus sign in front.
pub proof fn law_decimal(n: nat)
    ensures
        number::decimal(n).len() > 0,
        forall|i: int| 0 <= i < number::decimal(n).len() ==> 48 <= #[trigger] number::decimal(n)[i] as int
            <= 57,
        number::decimal(n).len() > 1 ==> number::decimal(n)[0] as int != 48,
        number::value(number::decimal(n)) == n,
        number::signed_decimal(n as int) == number::decimal(n),
        n > 0 ==> number::signed_decimal(-(n as int)) == seq!['-'] + number::decimal(n),
{
    number::lemma_decimal_value(n);
    assert forall|i: int| 0 <= i < number::decimal(n).len() implies 48
        <= #[trigger] number::decimal(n)[i] as int <= 57 by {
        assert(number::is_digit(number::decimal(n)[i]));
    }
    lemma_no_leading_zero(n);
}

/// The first digit is not zero, but for 0 itself.
proof fn lemma_no_leading_zero(n: nat)
    ensures
        number::decimal(n).len() > 0,
        n > 0 ==> number::decimal(n)[0] as int != 48,
        n < 10 ==> number::decimal(n).len() == 1,
    decreases n,
{
    if n >= 10 {
        lemma_no_leading_zero(n / 10);
        assert(number::decimal(n)[0] == number::decimal(n / 10)[0]);
    }
}

/// A row of digits stands for a number, digit by digit.
pub proof fn law_value(digits: Seq<char>, last: char)
    requires
        48 <= last as int <= 57,
    ensures
        number::value(Seq::<char>::empty()) == 0,
        number::value(digits.push(last)) == number::value(digits) * 10 + (last as int - 48),
{
    assert(digits.push(last).drop_last() =~= digits);
}

/// Whether `s` is a row of digits.
pub open spec fn is_number(s: Seq<char>) -> bool {
    s.len() > 0 && forall|i: int| 0 <= i < s.len() ==> 48 <= #[trigger] s[i] as int <= 57
}

/// A number is read from its digits, with or without a plus sign, where it is not too large; and
/// from nothing else.
pub proof fn law_reading_unsigned(s: Seq<char>, max: nat)
    ensures
        is_number(s) ==> number::parse_unsigned(s, max) == (if number::value(s) <= max {
            Some(number::value(s))
        } else {
            None
        }),
        s.len() > 0 && s[0] == '+' && is_number(s.skip(1)) ==> number::parse_unsigned(s, max) == (
        if number::value(s.skip(1)) <= max {
            Some(number::value(s.skip(1)))
        } else {
            None
        }),
        !is_number(s) && !(s.len() > 0 && s[0] == '+' && is_number(s.skip(1)))
            ==> number::parse_unsigned(s, max) is None,
{
    lemma_digits(s);
    lemma_digits(s.skip(1));
    if s.len() > 0 && s[0] == '+' && is_number(s) {
        assert(48 <= s[0] as int);
    }
}

/// A row of digits is one.
proof fn lemma_digits(s: Seq<char>)
    ensures
        number::all_digits(s) == is_number(s),
{
    if number::all_digits(s) {
        assert forall|i: int| 0 <= i < s.len() implies 48 <= #[trigger] s[i] as int <= 57 by {
            assert(number::is_digit(s[i]));
        }
    }
    if is_number(s) {
        assert forall|i: int| 0 <= i < s.len() implies number::is_digit(#[trigger] s[i]) by {
            assert(48 <= s[i] as int <= 57);
        }
    }
}

/// A number with a sign is read from its digits, with a plus or a minus sign in front or without
/// one, where an `i64` holds it; and from nothing else.
pub proof fn law_reading_signed(s: Seq<char>)
    ensures
        is_number(s) ==> number::parse_signed(s) == (if number::value(s) <= i64::MAX {
            Some(number::value(s) as int)
        } else {
            None
        }),
        s.len() > 0 && s[0] == '+' && is_number(s.skip(1)) ==> number::parse_signed(s) == (
        if number::value(s.skip(1)) <= i64::MAX {
            Some(number::value(s.skip(1)) as int)
        } else {
            None
        }),
        s.len() > 0 && s[0] == '-' && is_number(s.skip(1)) ==> number::parse_signed(s) == (
        if -(number::value(s.skip(1)) as int) >= i64::MIN {
            Some(-(number::value(s.skip(1)) as int))
        } else {
            None
        }),
        !is_number(s) && !(s.len() > 0 && (s[0] == '+' || s[0] == '-') && is_number(s.skip(1)))
            ==> number::parse_signed(s) is None,
{
    lemma_digits(s);
    lemma_digits(s.skip(1));
    if s.len() > 0 && is_number(s) {
        assert(48 <= s[0] as int);
    }
}

} // verus!
