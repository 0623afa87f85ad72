//! Keys: what is read of them from a session description.

use crate::sip::media::{self, SrtpCryptoSuite};
use crate::text;
use vstd::prelude::*;

verus! {

/// The lines that announce keys are found line by line, in their order, without the white space
/// around them: those that start with `a=crypto` or with `crypto:`.
pub proof fn law_key_lines_line_by_line(lines: Seq<Seq<char>>, line: Seq<char>)
    ensures
        media::key_lines_among(Seq::empty()).len() == 0,
        ({
            let trimmed = text::trim(line);
            let announces = "a=crypto"@.is_prefix_of(trimmed) || "crypto:"@.is_prefix_of(trimmed);
            media::key_lines_among(lines.push(line)) == (if announces {
                media::key_lines_among(lines).push(trimmed)
            } else {
                media::key_lines_among(lines)
            })
        }),
{
    assert(lines.push(line).drop_last() =~= lines);
}

/// The keys of a session description are those of the first line that could be read.
pub proof fn law_first_readable_keys_count(parsed: Seq<Option<SrtpCryptoSuite>>)
    ensures
        forall|i: int|
            0 <= i < parsed.len() && (#[trigger] parsed[i]) is Some && (forall|j: int|
                0 <= j < i ==> (#[trigger] parsed[j]) is None) ==> media::first_suite(parsed)
                == Some(parsed[i]->0.sdes@),
        (forall|j: int| 0 <= j < parsed.len() ==> (#[trigger] parsed[j]) is None)
            ==> media::first_suite(parsed) is None,
    decreases parsed.len(),
{
    if parsed.len() > 0 {
        let rest = parsed.drop_first();
        law_first_readable_keys_count(rest);
        assert forall|i: int|
            0 <= i < parsed.len() && (#[trigger] parsed[i]) is Some && (forall|j: int|
                0 <= j < i ==> (#[trigger] parsed[j]) is None) implies media::first_suite(parsed)
            == Some(parsed[i]->0.sdes@) by {
            if i > 0 {
                assert(parsed[0] is None);
                assert(rest[i - 1] == parsed[i]);
                assert forall|j: int| 0 <= j < i - 1 implies (#[trigger] rest[j]) is None by {
                    assert(rest[j] == parsed[j + 1]);
                }
            }
        }
        if forall|j: int| 0 <= j < parsed.len() ==> (#[trigger] parsed[j]) is None {
            assert(parsed[0] is None);
            assert forall|j: int| 0 <= j < rest.len() implies (#[trigger] rest[j]) is None by {
                assert(rest[j] == parsed[j + 1]);
            }
        }
    }
}

/// The key in an attribute is what follows its first `inline:`, up to the next one or the end.
pub proof fn law_key_follows_the_mark(front: Seq<char>, key: Seq<char>, rest: Seq<char>)
    requires
        text::before(front + "inline:"@ + key + rest, "inline:"@) == front,
        text::before(key + rest, "inline:"@) == key,
    ensures
        media::inline_key(front + "inline:"@ + key + rest) == key,
{
    reveal_strlit("inline:");
    let s = front + "inline:"@ + key + rest;
    text::lemma_find_text(s, "inline:"@);
    assert(text::before(s, "inline:"@).len() == text::find_text(s, "inline:"@));
    assert(s.skip((front.len() + "inline:"@.len()) as int) =~= key + rest);
}

/// An attribute without the mark `inline:` holds no key.
pub proof fn law_no_mark_no_key(sdes: Seq<char>)
    requires
        text::before(sdes, "inline:"@) == sdes,
    ensures
        media::inline_key(sdes).len() == 0,
{
    text::lemma_find_text(sdes, "inline:"@);
}

} // verus!
