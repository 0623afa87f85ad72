//! Text handling on characters: lines, words, trimming, searching, lower case.
//!
//! Every function is stated over `Seq<char>`, the view of a string.

use vstd::prelude::*;
use vstd::string::*;

verus! {

broadcast use vstd::string::group_string_axioms;

/// `String::push` appends one character.
pub assume_specification[ String::push ](s: &mut String, c: char)
    ensures
        final(s)@ == old(s)@.push(c),
;

/// The views of a list of strings.
pub open spec fn views(list: Seq<String>) -> Seq<Seq<char>> {
    Seq::new(list.len(), |i: int| list[i]@)
}

/// The view of an optional string.
pub open spec fn text_view(text: Option<String>) -> Option<Seq<char>> {
    match text {
        Some(t) => Some(t@),
        None => None,
    }
}

/// The view of an optional string slice.
pub open spec fn str_view(text: Option<&str>) -> Option<Seq<char>> {
    match text {
        Some(t) => Some(t@),
        None => None,
    }
}

/// The text of an optional value; empty where there is none.
pub open spec fn or_empty(value: Option<Seq<char>>) -> Seq<char> {
    match value {
        Some(text) => text,
        None => Seq::empty(),
    }
}

/// An optional string as an optional string slice.
pub fn as_str_option(text: &Option<String>) -> (slice: Option<&str>)
    ensures
        str_view(slice) == text_view(*text),
{
    match text {
        Some(t) => Some(t.as_str()),
        None => None,
    }
}

/// The characters of `text`.
pub fn chars_of(text: &str) -> (chars: Vec<char>)
    ensures
        chars@ == text@,
{
    let mut chars: Vec<char> = Vec::new();
    for c in it: text.chars()
        invariant
            chars@ == it.seq().take(it.index() as int),
            it.seq() == text@,
    {
        chars.push(c);
    }
    chars
}

/// The string made of the characters `from..to`.
pub fn string_of(chars: &Vec<char>, from: usize, to: usize) -> (text: String)
    requires
        from <= to <= chars@.len(),
    ensures
        text@ == chars@.subrange(from as int, to as int),
{
    let mut text = String::new();
    for i in from..to
        invariant
            from <= to <= chars@.len(),
            text@ == chars@.subrange(from as int, i as int),
    {
        text.push(chars[i]);
    }
    text
}

/// Whether two texts have the same characters.
pub fn same(a: &str, b: &str) -> (equal: bool)
    ensures
        equal == (a@ == b@),
{
    let xs = chars_of(a);
    let ys = chars_of(b);
    if xs.len() != ys.len() {
        return false;
    }
    for i in 0..xs.len()
        invariant
            xs@ == a@,
            ys@ == b@,
            xs@.len() == ys@.len(),
            forall|j: int| 0 <= j < i ==> xs@[j] == ys@[j],
    {
        if xs[i] != ys[i] {
            return false;
        }
    }
    assert(a@ =~= b@);
    true
}

/// A set of characters to search for.
#[derive(Clone, Copy)]
pub enum Class {
    /// Exactly this character.
    Is(char),
    /// Every other character.
    Not(char),
    /// White space.
    Space,
    /// Everything but white space.
    NotSpace,
}

/// The Unicode `White_Space` property.
pub open spec fn white_space(c: char) -> bool {
    ||| '\u{9}' <= c <= '\u{d}'
    ||| c == ' '
    ||| c == '\u{85}'
    ||| c == '\u{a0}'
    ||| c == '\u{1680}'
    ||| '\u{2000}' <= c <= '\u{200a}'
    ||| c == '\u{2028}'
    ||| c == '\u{2029}'
    ||| c == '\u{202f}'
    ||| c == '\u{205f}'
    ||| c == '\u{3000}'
}

/// Whether `c` is white space.
pub fn is_white_space(c: char) -> (white: bool)
    ensures
        white == white_space(c),
{
    ('\u{9}' <= c && c <= '\u{d}') || c == ' ' || c == '\u{85}' || c == '\u{a0}' || c == '\u{1680}'
        || ('\u{2000}' <= c && c <= '\u{200a}') || c == '\u{2028}' || c == '\u{2029}' || c
        == '\u{202f}' || c == '\u{205f}' || c == '\u{3000}'
}

impl Class {
    /// Whether the class holds `c`.
    pub open spec fn holds(self, c: char) -> bool {
        match self {
            Class::Is(x) => c == x,
            Class::Not(x) => c != x,
            Class::Space => white_space(c),
            Class::NotSpace => !white_space(c),
        }
    }

    /// Whether the class holds `c`.
    pub fn contains(self, c: char) -> (inside: bool)
        ensures
            inside == self.holds(c),
    {
        match self {
            Class::Is(x) => c == x,
            Class::Not(x) => c != x,
            Class::Space => is_white_space(c),
            Class::NotSpace => !is_white_space(c),
        }
    }
}

/// The position of the first character of `s` in `class`; the length of `s` where there is none.
pub open spec fn find(s: Seq<char>, class: Class) -> nat
    decreases s.len(),
{
    if s.len() == 0 || class.holds(s[0]) {
        0
    } else {
        1 + find(s.drop_first(), class)
    }
}

/// `find` gives a position at most the length, with no match before it, and a match at it
/// unless it is the length.
pub proof fn lemma_find(s: Seq<char>, class: Class)
    ensures
        find(s, class) <= s.len(),
        forall|j: int| 0 <= j < find(s, class) ==> !class.holds(#[trigger] s[j]),
        find(s, class) < s.len() ==> class.holds(s[find(s, class) as int]),
    decreases s.len(),
{
    if s.len() != 0 && !class.holds(s[0]) {
        let t = s.drop_first();
        lemma_find(t, class);
        assert forall|j: int| 0 <= j < find(s, class) implies !class.holds(#[trigger] s[j]) by {
            if j > 0 {
                assert(s[j] == t[j - 1]);
            }
        }
    }
}

/// The only position with no match before it and a match (or the end) at it is `find`.
pub proof fn lemma_find_at(s: Seq<char>, class: Class, n: nat)
    requires
        n <= s.len(),
        forall|j: int| 0 <= j < n ==> !class.holds(#[trigger] s[j]),
        n < s.len() ==> class.holds(s[n as int]),
    ensures
        find(s, class) == n,
{
    lemma_find(s, class);
    let m = find(s, class);
    if m < n {
        assert(!class.holds(s[m as int]));
    }
    if n < m {
        assert(!class.holds(s[n as int]));
    }
}

/// The position, counted from `from`, of the first character in `class`.
pub fn find_from(chars: &Vec<char>, class: Class, from: usize) -> (at: usize)
    requires
        from <= chars@.len(),
    ensures
        from <= at <= chars@.len(),
        at - from == find(chars@.skip(from as int), class),
{
    let mut at: usize = from;
    let ghost rest = chars@.skip(from as int);
    while at < chars.len() && !class.contains(chars[at])
        invariant
            from <= at <= chars@.len(),
            rest == chars@.skip(from as int),
            forall|j: int| 0 <= j < at - from ==> !class.holds(#[trigger] rest[j]),
        decreases chars@.len() - at,
    {
        assert(rest[at - from] == chars@[at as int]);
        at += 1;
    }
    proof {
        if at < chars@.len() {
            assert(rest[at - from] == chars@[at as int]);
        }
        lemma_find_at(rest, class, (at - from) as nat);
    }
    at
}

/// `s` without the characters of `class` at its start.
///
/// `outside` is the class of all other characters.
pub open spec fn trim_start(s: Seq<char>, outside: Class) -> Seq<char> {
    s.skip(find(s, outside) as int)
}

/// `s` without the characters at its end that `outside` does not hold.
pub open spec fn trim_end(s: Seq<char>, outside: Class) -> Seq<char>
    decreases s.len(),
{
    if s.len() > 0 && !outside.holds(s.last()) {
        trim_end(s.drop_last(), outside)
    } else {
        s
    }
}

/// `s` without the characters at both ends that `outside` does not hold.
pub open spec fn trim_to(s: Seq<char>, outside: Class) -> Seq<char> {
    trim_end(trim_start(s, outside), outside)
}

/// `s` without the white space at both ends.
pub open spec fn trim(s: Seq<char>) -> Seq<char> {
    trim_to(s, Class::NotSpace)
}

/// `s` without the double quotes at both ends.
pub open spec fn unquote(s: Seq<char>) -> Seq<char> {
    trim_to(s, Class::Not('"'))
}

fn trimmed_to(text: &str, outside: Class) -> (inner: String)
    ensures
        inner@ == trim_to(text@, outside),
{
    let chars = chars_of(text);
    assert(chars@.skip(0) =~= chars@);
    proof {
        lemma_find(text@, outside);
    }
    let start = find_from(&chars, outside, 0);
    let mut end: usize = chars.len();
    assert(chars@.subrange(start as int, end as int) =~= trim_start(text@, outside));
    while start < end && !outside.contains(chars[end - 1])
        invariant
            start <= end <= chars@.len(),
            trim_end(chars@.subrange(start as int, end as int), outside) == trim_to(text@, outside),
        decreases end,
    {
        let ghost piece = chars@.subrange(start as int, end as int);
        assert(piece.last() == chars@[end - 1]);
        assert(piece.drop_last() =~= chars@.subrange(start as int, end - 1));
        end -= 1;
    }
    proof {
        let piece = chars@.subrange(start as int, end as int);
        if start < end {
            assert(piece.last() == chars@[end - 1]);
        }
        assert(trim_end(piece, outside) == piece);
    }
    string_of(&chars, start, end)
}

/// The text without the white space at both ends.
pub fn trimmed(text: &str) -> (inner: String)
    ensures
        inner@ == trim(text@),
{
    trimmed_to(text, Class::NotSpace)
}

/// The text without the double quotes at both ends.
pub fn unquoted(text: &str) -> (inner: String)
    ensures
        inner@ == unquote(text@),
{
    trimmed_to(text, Class::Not('"'))
}

/// A text with no white space at its ends is its own trimmed form.
pub proof fn lemma_trim_solid(s: Seq<char>)
    requires
        s.len() == 0 || !white_space(s[0]),
        s.len() == 0 || !white_space(s.last()),
    ensures
        trim(s) == s,
{
    assert(find(s, Class::NotSpace) == 0);
    assert(s.skip(0) =~= s);
}

/// Trimming at the end leaves a start of the text that ends in a character of `outside`.
proof fn lemma_trim_end(s: Seq<char>, outside: Class)
    ensures
        trim_end(s, outside).is_prefix_of(s),
        trim_end(s, outside).len() > 0 ==> outside.holds(trim_end(s, outside).last()),
        forall|j: int| trim_end(s, outside).len() <= j < s.len() ==> !outside.holds(#[trigger] s[j]),
    decreases s.len(),
{
    if s.len() > 0 && !outside.holds(s.last()) {
        let shorter = s.drop_last();
        lemma_trim_end(shorter, outside);
        let kept = trim_end(shorter, outside);
        assert(kept =~= s.subrange(0, kept.len() as int));
        assert forall|j: int| kept.len() <= j < s.len() implies !outside.holds(#[trigger] s[j]) by {
            if j < shorter.len() {
                assert(shorter[j] == s[j]);
            }
        }
    } else {
        assert(s =~= s.subrange(0, s.len() as int));
    }
}

/// Trimming leaves a text with no white space at its ends, made of characters of `s`.
pub proof fn lemma_trim(s: Seq<char>)
    ensures
        trim(s).len() > 0 ==> !white_space(trim(s)[0]) && !white_space(trim(s).last()),
        forall|c: char| #[trigger] trim(s).contains(c) ==> s.contains(c),
        trim(trim(s)) == trim(s),
        s.len() > 0 && !white_space(s[0]) ==> trim(s).len() > 0 && trim(s)[0] == s[0],
{
    let start = find(s, Class::NotSpace) as int;
    let rest = trim_start(s, Class::NotSpace);
    let kept = trim(s);
    lemma_find(s, Class::NotSpace);
    lemma_trim_end(rest, Class::NotSpace);
    assert forall|c: char| #[trigger] kept.contains(c) implies s.contains(c) by {
        let i = kept.index_of(c);
        assert(kept[i] == rest[i]);
        assert(s[start + i] == c);
    }
    if s.len() > 0 && !white_space(s[0]) {
        assert(start == 0);
        assert(Class::NotSpace.holds(rest[0]));
    }
    if kept.len() > 0 {
        assert(kept[0] == rest[0]);
        assert(rest[0] == s[start]);
    }
    lemma_trim_solid(kept);
}

/// `line` without one carriage return at its end.
pub open spec fn without_return(line: Seq<char>) -> Seq<char> {
    if line.len() > 0 && line.last() == '\r' {
        line.drop_last()
    } else {
        line
    }
}

/// The lines of `s`. A line ends with a line feed, which takes one carriage return before it
/// along; what follows the last line feed is a line unless it is empty.
pub open spec fn lines(s: Seq<char>) -> Seq<Seq<char>>
    decreases s.len(),
{
    let end = find(s, Class::Is('\n'));
    if s.len() == 0 {
        Seq::empty()
    } else if end >= s.len() {
        seq![s]
    } else {
        seq![without_return(s.take(end as int))] + lines(s.skip(end as int + 1))
    }
}

/// The lines of `text`.
pub fn split_lines(text: &str) -> (list: Vec<String>)
    ensures
        views(list@) == lines(text@),
{
    let chars = chars_of(text);
    let mut list: Vec<String> = Vec::new();
    let mut at: usize = 0;
    assert(chars@.skip(0) =~= text@);
    assert(views(list@) + lines(text@) =~= lines(text@));
    while at < chars.len()
        invariant
            at <= chars@.len(),
            views(list@) + lines(chars@.skip(at as int)) == lines(text@),
        decreases chars@.len() - at,
    {
        let ghost rest = chars@.skip(at as int);
        let ghost before = views(list@);
        let end = find_from(&chars, Class::Is('\n'), at);
        let stop: usize = if end < chars.len() && end > at && chars[end - 1] == '\r' {
            end - 1
        } else {
            end
        };
        let line = string_of(&chars, at, stop);
        proof {
            let width = end - at;
            assert(rest.take(width) =~= chars@.subrange(at as int, end as int));
            if width > 0 {
                assert(rest.take(width).last() == chars@[end - 1]);
            }
            if end < chars@.len() {
                assert(line@ =~= without_return(rest.take(width)));
                assert(rest.skip(width + 1) =~= chars@.skip(end + 1));
            } else {
                assert(line@ =~= rest);
                assert(lines(rest) =~= seq![line@]);
            }
        }
        list.push(line);
        assert(views(list@) =~= before + seq![line@]);
        at = if end < chars.len() {
            end + 1
        } else {
            end
        };
        assert(views(list@) + lines(chars@.skip(at as int)) =~= before + lines(rest));
    }
    assert(views(list@) =~= lines(text@));
    list
}

/// No line holds a line feed.
pub proof fn lemma_lines(s: Seq<char>)
    ensures
        forall|i: int|
            0 <= i < lines(s).len() ==> !(#[trigger] lines(s)[i]).contains('\n'),
    decreases s.len(),
{
    let end = find(s, Class::Is('\n'));
    lemma_find(s, Class::Is('\n'));
    if s.len() == 0 {
    } else if end >= s.len() {
        assert(!s.contains('\n'));
    } else {
        let rest = s.skip(end as int + 1);
        let first = without_return(s.take(end as int));
        lemma_lines(rest);
        assert forall|i: int| 0 <= i < lines(s).len() implies !(
        #[trigger] lines(s)[i]).contains('\n') by {
            if i > 0 {
                assert(lines(s)[i] == lines(rest)[i - 1]);
            } else {
                assert(lines(s)[0] == first);
                if first.contains('\n') {
                    let j = first.index_of('\n');
                    assert(first[j] == s[j]);
                }
            }
        }
    }
}

/// A line with its line end comes off the front of a text.
pub proof fn lemma_lines_first(line: Seq<char>, rest: Seq<char>)
    requires
        !line.contains('\n'),
    ensures
        lines(line + crlf() + rest) == seq![line] + lines(rest),
{
    reveal_strlit("\r\n");
    let s = line + crlf() + rest;
    let end = line.len() + 1;
    assert forall|j: int| 0 <= j < end implies !Class::Is('\n').holds(#[trigger] s[j]) by {
        if j < line.len() {
            assert(s[j] == line[j]);
        } else {
            assert(s[j] == '\r');
        }
    }
    assert(s[end as int] == '\n');
    lemma_find_at(s, Class::Is('\n'), end);
    assert(s.take(end as int).drop_last() =~= line);
    assert(s.skip(end as int + 1) =~= rest);
}

/// A text without a line feed is one line, unless it is empty.
pub proof fn lemma_lines_last(line: Seq<char>)
    requires
        !line.contains('\n'),
        line.len() > 0,
    ensures
        lines(line) == seq![line],
{
    assert forall|j: int| 0 <= j < line.len() implies !Class::Is('\n').holds(
        #[trigger] line[j],
    ) by {
        assert(line.contains(line[j]));
    }
    lemma_find_at(line, Class::Is('\n'), line.len());
}

/// The words of `s`: what stands between runs of white space.
pub open spec fn words(s: Seq<char>) -> Seq<Seq<char>>
    decreases s.len(),
{
    let start = find(s, Class::NotSpace);
    let rest = s.skip(start as int);
    let width = find(rest, Class::Space);
    if start >= s.len() {
        Seq::empty()
    } else {
        proof {
            lemma_find(s, Class::NotSpace);
            lemma_find(rest, Class::Space);
            assert(rest[0] == s[start as int]);
        }
        seq![rest.take(width as int)] + words(rest.skip(width as int))
    }
}

/// The words of `text`.
pub fn split_words(text: &str) -> (list: Vec<String>)
    ensures
        views(list@) == words(text@),
{
    let chars = chars_of(text);
    let mut list: Vec<String> = Vec::new();
    let mut at: usize = 0;
    assert(chars@.skip(0) =~= text@);
    assert(views(list@) + words(text@) =~= words(text@));
    while at < chars.len()
        invariant
            at <= chars@.len(),
            views(list@) + words(chars@.skip(at as int)) == words(text@),
        decreases chars@.len() - at,
    {
        let ghost rest = chars@.skip(at as int);
        let ghost before = views(list@);
        let start = find_from(&chars, Class::NotSpace, at);
        if start == chars.len() {
            assert(words(rest) =~= Seq::empty());
            assert(views(list@) =~= words(text@));
            return list;
        }
        let end = find_from(&chars, Class::Space, start);
        let word = string_of(&chars, start, end);
        proof {
            let skipped = rest.skip(start - at);
            assert(skipped =~= chars@.skip(start as int));
            lemma_find(rest, Class::NotSpace);
            lemma_find(skipped, Class::Space);
            assert(skipped[0] == rest[start - at]);
            assert(word@ =~= skipped.take(end - start));
            assert(skipped.skip(end - start) =~= chars@.skip(end as int));
            assert(words(rest) =~= seq![word@] + words(chars@.skip(end as int)));
        }
        list.push(word);
        assert(views(list@) =~= before + seq![word@]);
        at = end;
        assert(views(list@) + words(chars@.skip(at as int)) =~= before + words(rest));
    }
    assert(words(chars@.skip(at as int)) =~= Seq::empty());
    assert(views(list@) =~= words(text@));
    list
}

/// Whether the characters from `from` on start with `pattern`.
fn matches_at(chars: &Vec<char>, pattern: &Vec<char>, from: usize) -> (found: bool)
    requires
        from <= chars@.len(),
    ensures
        found == pattern@.is_prefix_of(chars@.skip(from as int)),
{
    if pattern.len() > chars.len() - from {
        return false;
    }
    let ghost rest = chars@.skip(from as int);
    for i in 0..pattern.len()
        invariant
            from <= chars@.len(),
            pattern@.len() <= chars.len() - from,
            rest == chars@.skip(from as int),
            forall|j: int| 0 <= j < i ==> pattern@[j] == rest[j],
    {
        assert(rest[i as int] == chars@[from + i]);
        if pattern[i] != chars[from + i] {
            assert(pattern@[i as int] != rest.subrange(0, pattern@.len() as int)[i as int]);
            return false;
        }
    }
    assert(pattern@ =~= rest.subrange(0, pattern@.len() as int));
    true
}

/// Whether `text` starts with `prefix`.
pub fn starts_with(text: &str, prefix: &str) -> (starts: bool)
    ensures
        starts == prefix@.is_prefix_of(text@),
{
    let chars = chars_of(text);
    assert(chars@.skip(0) =~= text@);
    matches_at(&chars, &chars_of(prefix), 0)
}

/// Whether `text` ends with `suffix`.
pub fn ends_with(text: &str, suffix: &str) -> (ends: bool)
    ensures
        ends == suffix@.is_suffix_of(text@),
{
    let chars = chars_of(text);
    let pattern = chars_of(suffix);
    if pattern.len() > chars.len() {
        return false;
    }
    let from = chars.len() - pattern.len();
    let ends = matches_at(&chars, &pattern, from);
    proof {
        let tail = text@.skip(from as int);
        assert(tail.subrange(0, suffix@.len() as int) =~= tail);
    }
    ends
}

/// What follows `prefix` at the start of `text`, where it stands there.
pub fn strip_prefix(text: &str, prefix: &str) -> (rest: Option<String>)
    ensures
        rest is Some == prefix@.is_prefix_of(text@),
        rest matches Some(r) ==> r@ == text@.skip(prefix@.len() as int),
{
    let chars = chars_of(text);
    let pattern = chars_of(prefix);
    assert(chars@.skip(0) =~= text@);
    if matches_at(&chars, &pattern, 0) {
        let rest = string_of(&chars, pattern.len(), chars.len());
        assert(rest@ =~= text@.skip(prefix@.len() as int));
        Some(rest)
    } else {
        None
    }
}

/// The position of the first occurrence of `pattern` in `s`; the length of `s` where there is
/// none.
pub open spec fn find_text(s: Seq<char>, pattern: Seq<char>) -> nat
    decreases s.len(),
{
    if s.len() == 0 || pattern.is_prefix_of(s) {
        0
    } else {
        1 + find_text(s.drop_first(), pattern)
    }
}

/// `find_text` is at most the length.
pub proof fn lemma_find_text(s: Seq<char>, pattern: Seq<char>)
    ensures
        find_text(s, pattern) <= s.len(),
        find_text(s, pattern) < s.len() ==> pattern.is_prefix_of(
            s.skip(find_text(s, pattern) as int),
        ),
    decreases s.len(),
{
    if s.len() == 0 || pattern.is_prefix_of(s) {
        assert(s.skip(0) =~= s);
    } else {
        lemma_find_text(s.drop_first(), pattern);
        let n = find_text(s.drop_first(), pattern) as int;
        assert(s.drop_first().skip(n) =~= s.skip(n + 1));
    }
}

/// There is no occurrence before `find_text`.
pub proof fn lemma_find_text_before(s: Seq<char>, pattern: Seq<char>, k: int)
    requires
        0 <= k < find_text(s, pattern),
    ensures
        !pattern.is_prefix_of(s.skip(k)),
    decreases s.len(),
{
    if k == 0 {
        assert(s.skip(0) =~= s);
    } else {
        lemma_find_text(s, pattern);
        lemma_find_text_before(s.drop_first(), pattern, k - 1);
        assert(s.drop_first().skip(k - 1) =~= s.skip(k));
    }
}

/// The only position with no occurrence before it and one (or the end) at it is `find_text`.
pub proof fn lemma_find_text_at(s: Seq<char>, pattern: Seq<char>, n: nat)
    requires
        n <= s.len(),
        forall|k: int| 0 <= k < n ==> !pattern.is_prefix_of(#[trigger] s.skip(k)),
        n < s.len() ==> pattern.is_prefix_of(s.skip(n as int)),
    ensures
        find_text(s, pattern) == n,
{
    lemma_find_text(s, pattern);
    let m = find_text(s, pattern);
    if m < n {
        assert(!pattern.is_prefix_of(s.skip(m as int)));
    }
    if n < m {
        lemma_find_text_before(s, pattern, n as int);
    }
}

/// The position, counted from `from`, of the first occurrence of `pattern`.
pub fn find_text_from(chars: &Vec<char>, pattern: &Vec<char>, from: usize) -> (at: usize)
    requires
        from <= chars@.len(),
    ensures
        from <= at <= chars@.len(),
        at - from == find_text(chars@.skip(from as int), pattern@),
{
    let mut at: usize = from;
    while at < chars.len() && !matches_at(chars, pattern, at)
        invariant
            from <= at <= chars@.len(),
            find_text(chars@.skip(from as int), pattern@) == at - from + find_text(
                chars@.skip(at as int),
                pattern@,
            ),
        decreases chars@.len() - at,
    {
        assert(chars@.skip(at as int).drop_first() =~= chars@.skip(at + 1));
        at += 1;
    }
    at
}

/// The part of `s` before the first occurrence of `pattern`; all of `s` where there is none.
pub open spec fn before(s: Seq<char>, pattern: Seq<char>) -> Seq<char> {
    s.take(find_text(s, pattern) as int)
}

/// The part of `text` before the first occurrence of `pattern`.
pub fn text_before(text: &str, pattern: &str) -> (head: String)
    ensures
        head@ == before(text@, pattern@),
{
    let chars = chars_of(text);
    assert(chars@.skip(0) =~= text@);
    let end = find_text_from(&chars, &chars_of(pattern), 0);
    string_of(&chars, 0, end)
}

/// The part of `s` between the first two occurrences of `pattern`; up to the end where there is
/// one; empty where there is none.
pub open spec fn between(s: Seq<char>, pattern: Seq<char>) -> Seq<char> {
    let at = find_text(s, pattern);
    if at >= s.len() {
        Seq::empty()
    } else {
        before(s.skip((at + pattern.len()) as int), pattern)
    }
}

/// The part of `text` between the first two occurrences of `pattern`.
pub fn text_between(text: &str, pattern: &str) -> (inner: String)
    ensures
        inner@ == between(text@, pattern@),
{
    let chars = chars_of(text);
    let mark = chars_of(pattern);
    assert(chars@.skip(0) =~= text@);
    proof {
        lemma_find_text(text@, pattern@);
    }
    let at = find_text_from(&chars, &mark, 0);
    if at == chars.len() {
        return String::new();
    }
    let start = at + mark.len();
    let end = find_text_from(&chars, &mark, start);
    let inner = string_of(&chars, start, end);
    proof {
        let rest = text@.skip(start as int);
        assert(inner@ =~= rest.take(end - start));
    }
    inner
}

/// Splits at the first `mark`: what stands before it and what stands after it.
pub fn split_once(text: &str, mark: char) -> (halves: Option<(String, String)>)
    ensures
        halves is Some == (find(text@, Class::Is(mark)) < text@.len()),
        halves matches Some((left, right)) ==> left@ == text@.take(
            find(text@, Class::Is(mark)) as int,
        ) && right@ == text@.skip(find(text@, Class::Is(mark)) as int + 1),
{
    let chars = chars_of(text);
    assert(chars@.skip(0) =~= text@);
    let at = find_from(&chars, Class::Is(mark), 0);
    if at < chars.len() {
        let left = string_of(&chars, 0, at);
        let right = string_of(&chars, at + 1, chars.len());
        assert(left@ =~= text@.take(at as int));
        assert(right@ =~= text@.skip(at + 1));
        Some((left, right))
    } else {
        None
    }
}

/// The lower-case form of an ASCII character.
pub open spec fn ascii_lowercase(c: char) -> char {
    if 'A' <= c <= 'Z' {
        (c as int + 32) as char
    } else {
        c
    }
}

/// The lower-case form of an ASCII text: `A` to `Z` turn into `a` to `z`.
pub open spec fn ascii_lowercase_text(s: Seq<char>) -> Seq<char> {
    s.map_values(|c: char| ascii_lowercase(c))
}

/// The number of ASCII characters at the start of `s`.
pub open spec fn ascii_len(s: Seq<char>) -> nat
    decreases s.len(),
{
    if s.len() == 0 || s[0] > '\u{7f}' {
        0
    } else {
        1 + ascii_len(s.drop_first())
    }
}

/// What a text has in lower case behind the ASCII characters at its start, as the Unicode tables
/// of `std` have it.
pub uninterp spec fn unicode_lowercase_rest(s: Seq<char>) -> Seq<char>;

/// The lower-case form of a text. The ASCII characters at its start are lowered one by one; what
/// follows them goes by the Unicode tables.
pub open spec fn lowercase(s: Seq<char>) -> Seq<char> {
    if vstd::utf8::is_ascii_chars(s) {
        ascii_lowercase_text(s)
    } else {
        ascii_lowercase_text(s.take(ascii_len(s) as int)) + unicode_lowercase_rest(s)
    }
}

/// `str::to_lowercase`. The result depends on the text alone. The ASCII characters at the start of
/// the text, up to the first other one or up to its end, keep their places: `A` to `Z` turn into
/// `a` to `z`, the others stay as they are.
#[verifier::external_body]
pub(crate) fn to_lowercase(text: &str) -> (lower: String)
    ensures
        vstd::utf8::is_ascii_chars(text@) ==> lower@ == ascii_lowercase_text(text@),
        !vstd::utf8::is_ascii_chars(text@) ==> lower@ == ascii_lowercase_text(
            text@.take(ascii_len(text@) as int),
        ) + unicode_lowercase_rest(text@),
{
    text.to_lowercase()
}

/// ASCII characters at the start of a text are among those counted.
proof fn lemma_ascii_len(s: Seq<char>, n: int)
    requires
        0 <= n <= s.len(),
        vstd::utf8::is_ascii_chars(s.take(n)),
    ensures
        n <= ascii_len(s) <= s.len(),
    decreases s.len(),
{
    if s.len() > 0 {
        let rest = s.drop_first();
        if n > 0 {
            assert(s.take(n)[0] == s[0]);
            assert(rest.take(n - 1) =~= s.take(n).drop_first());
            assert forall|i: int| 0 <= i < n - 1 implies '\0' <= #[trigger] rest.take(n - 1)[i]
                <= '\u{7f}' by {
                assert(rest.take(n - 1)[i] == s.take(n)[i + 1]);
            }
            lemma_ascii_len(rest, n - 1);
        } else {
            lemma_ascii_len(rest, 0);
        }
    }
}

/// ASCII characters at the start of a text stand in lower case at the start of its lower-case
/// form.
pub proof fn lemma_lowercase_prefix(s: Seq<char>, n: int)
    requires
        0 <= n <= s.len(),
        vstd::utf8::is_ascii_chars(s.take(n)),
    ensures
        lowercase(s.take(n)).is_prefix_of(lowercase(s)),
        lowercase(s).len() >= n,
        forall|i: int| 0 <= i < n ==> #[trigger] lowercase(s)[i] == ascii_lowercase(s[i]),
{
    lemma_ascii_len(s, n);
    let low = lowercase(s);
    assert forall|i: int| 0 <= i < n implies #[trigger] low[i] == ascii_lowercase(s[i]) by {
        if !vstd::utf8::is_ascii_chars(s) {
            let head = s.take(ascii_len(s) as int);
            assert(low[i] == ascii_lowercase_text(head)[i]);
        }
    }
    assert(lowercase(s.take(n)) =~= low.subrange(0, n));
}

/// The line end of SIP messages.
pub open spec fn crlf() -> Seq<char> {
    "\r\n"@
}

/// The lines of `list`, with a line end between each two.
pub open spec fn join_lines(list: Seq<Seq<char>>) -> Seq<char>
    decreases list.len(),
{
    if list.len() == 0 {
        Seq::empty()
    } else if list.len() == 1 {
        list[0]
    } else {
        join_lines(list.drop_last()) + crlf() + list.last()
    }
}

/// The lines of `list`, with a line end between each two.
pub fn joined_lines(list: &Vec<String>) -> (text: String)
    ensures
        text@ == join_lines(views(list@)),
{
    let mut text = String::new();
    let ghost all = views(list@);
    for i in 0..list.len()
        invariant
            all == views(list@),
            text@ == join_lines(all.take(i as int)),
    {
        proof {
            let taken = all.take(i + 1);
            assert(taken.drop_last() =~= all.take(i as int));
            assert(taken.last() == list@[i as int]@);
        }
        if i > 0 {
            text.append("\r\n");
            text.append(list[i].as_str());
        } else {
            text.append(list[i].as_str());
            assert(text@ =~= all.take(1)[0]);
        }
    }
    assert(all.take(list@.len() as int) =~= all);
    text
}

} // verus!
