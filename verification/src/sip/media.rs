//! The keys of the media streams, as session descriptions carry them.

use crate::text::{self, split_lines, starts_with, text_between, trimmed};
use vstd::prelude::*;

verus! {

/// The SRTP keys of one direction, as the SDES attribute that announces them.
#[derive(Debug)]
pub struct SrtpCryptoSuite {
    pub sdes: String,
}

impl View for SrtpCryptoSuite {
    type V = Seq<char>;

    open spec fn view(&self) -> Seq<char> {
        self.sdes@
    }
}

impl Clone for SrtpCryptoSuite {
    fn clone(&self) -> (copy: Self)
        ensures
            copy@ == self@,
    {
        SrtpCryptoSuite { sdes: self.sdes.clone() }
    }
}

/// The view of optional keys.
pub open spec fn suite_view(suite: Option<SrtpCryptoSuite>) -> Option<Seq<char>> {
    match suite {
        Some(s) => Some(s@),
        None => None,
    }
}

/// The key in an SDES attribute: what follows the mark `inline:`.
pub open spec fn inline_key(sdes: Seq<char>) -> Seq<char> {
    text::between(sdes, "inline:"@)
}

impl SrtpCryptoSuite {
    /// The key in the attribute.
    pub fn key(&self) -> (key: String)
        ensures
            key@ == inline_key(self@),
    {
        text_between(self.sdes.as_str(), "inline:")
    }
}

/// A copy of optional keys.
pub fn copy_suite(suite: &Option<SrtpCryptoSuite>) -> (copy: Option<SrtpCryptoSuite>)
    ensures
        suite_view(copy) == suite_view(*suite),
{
    match suite {
        Some(s) => Some(s.clone()),
        None => None,
    }
}

/// Whether a line of a session description announces keys.
pub open spec fn announces_keys(line: Seq<char>) -> bool {
    "a=crypto"@.is_prefix_of(line) || "crypto:"@.is_prefix_of(line)
}

/// The lines that announce keys, without the white space around them.
pub open spec fn key_lines_among(lines: Seq<Seq<char>>) -> Seq<Seq<char>>
    decreases lines.len(),
{
    if lines.len() == 0 {
        Seq::empty()
    } else {
        let line = text::trim(lines.last());
        let before = key_lines_among(lines.drop_last());
        if announces_keys(line) {
            before.push(line)
        } else {
            before
        }
    }
}

/// The lines of a session description that announce SRTP keys, in order.
pub fn srtp_crypto_lines(sdp: &str) -> (found: Vec<String>)
    ensures
        text::views(found@) == key_lines_among(text::lines(sdp@)),
{
    let list = split_lines(sdp);
    let mut found: Vec<String> = Vec::new();
    let ghost lines = text::lines(sdp@);
    assert(text::views(found@) =~= key_lines_among(lines.take(0)));
    for i in 0..list.len()
        invariant
            lines == text::lines(sdp@),
            text::views(list@) == lines,
            text::views(found@) == key_lines_among(lines.take(i as int)),
    {
        let ghost before = text::views(found@);
        proof {
            let taken = lines.take(i + 1);
            assert(taken.drop_last() =~= lines.take(i as int));
            assert(taken.last() == list@[i as int]@);
        }
        let line = trimmed(list[i].as_str());
        if starts_with(line.as_str(), "a=crypto") || starts_with(line.as_str(), "crypto:") {
            found.push(line);
            assert(text::views(found@) =~= before.push(line@));
        }
    }
    assert(lines.take(list@.len() as int) =~= lines);
    found
}

/// The first keys in a list of what could be read.
pub open spec fn first_suite(parsed: Seq<Option<SrtpCryptoSuite>>) -> Option<Seq<char>>
    decreases parsed.len(),
{
    if parsed.len() == 0 {
        None
    } else {
        match parsed[0] {
            Some(suite) => Some(suite@),
            None => first_suite(parsed.drop_first()),
        }
    }
}

/// The keys of a session description: those of the first line that could be read. `parsed` says
/// for each line of [`srtp_crypto_lines`] what was read from it.
pub fn extract_srtp_crypto_from_sdp(parsed: &Vec<Option<SrtpCryptoSuite>>) -> (found: Option<
    SrtpCryptoSuite,
>)
    ensures
        suite_view(found) == first_suite(parsed@),
{
    assert(parsed@.skip(0) =~= parsed@);
    for i in 0..parsed.len()
        invariant
            first_suite(parsed@.skip(i as int)) == first_suite(parsed@),
    {
        let ghost rest = parsed@.skip(i as int);
        assert(rest[0] == parsed@[i as int]);
        assert(rest.drop_first() =~= parsed@.skip(i + 1));
        if let Some(suite) = &parsed[i] {
            return Some(suite.clone());
        }
    }
    None
}

} // verus!
