//! Authorization headers: what is read from one, however its parameters are written.

use crate::laws::authentication;
use crate::laws::texts;
use crate::sip::digest;
use crate::text;
use vstd::prelude::*;

verus! {

/// A parameter as a client may write it: with white space before and behind it and on both sides
/// of the equals sign, and with its value in quotes or without.
pub struct WrittenParam {
    pub lead: Seq<char>,
    pub name: Seq<char>,
    pub gap: Seq<char>,
    pub pad: Seq<char>,
    pub value: Seq<char>,
    pub quoted: bool,
    pub tail: Seq<char>,
}

impl WrittenParam {
    /// Whether it can be written so: what stands around is white space, the name is one, and the
    /// value holds no quote. A value without quotes around it is not empty, holds no comma, and
    /// has no white space at its ends.
    pub open spec fn wf(self) -> bool {
        &&& texts::is_blank(self.lead)
        &&& texts::is_blank(self.gap)
        &&& texts::is_blank(self.pad)
        &&& texts::is_blank(self.tail)
        &&& authentication::is_param_name(self.name)
        &&& authentication::is_quotable(self.value)
        &&& !self.quoted ==> {
            &&& self.value.len() > 0
            &&& !text::white_space(self.value[0])
            &&& !text::white_space(self.value.last())
            &&& forall|i: int| 0 <= i < self.value.len() ==> #[trigger] self.value[i] != ','
        }
    }

    /// The value, in quotes where it is written so.
    pub open spec fn right(self) -> Seq<char> {
        if self.quoted {
            seq!['"'] + self.value + seq!['"']
        } else {
            self.value
        }
    }

    /// The parameter without the white space around it.
    pub open spec fn solid(self) -> Seq<char> {
        self.name + self.gap + seq!['='] + self.pad + self.right()
    }

    /// The parameter as it is written.
    pub open spec fn text(self) -> Seq<char> {
        self.lead + self.solid() + self.tail
    }
}

/// Whether there are parameters, and all of them can be written.
pub open spec fn all_wf(list: Seq<WrittenParam>) -> bool {
    list.len() > 0 && forall|i: int| 0 <= i < list.len() ==> (#[trigger] list[i]).wf()
}

/// The parameters as they are written, with a comma between each two.
pub open spec fn list_text(list: Seq<WrittenParam>) -> Seq<char>
    decreases list.len(),
{
    if list.len() == 0 {
        Seq::empty()
    } else if list.len() == 1 {
        list[0].text()
    } else {
        list[0].text() + seq![','] + list_text(list.drop_first())
    }
}

/// The names and the values of the parameters.
pub open spec fn names_and_values(list: Seq<WrittenParam>) -> Seq<(Seq<char>, Seq<char>)> {
    Seq::new(list.len(), |i: int| (list[i].name, list[i].value))
}

/// The ends of a parameter without the white space around it.
proof fn lemma_solid_ends(p: WrittenParam)
    requires
        p.wf(),
    ensures
        p.solid().len() > 0,
        p.solid()[0] == p.name[0],
        !text::white_space(p.solid()[0]),
        !text::white_space(p.solid().last()),
        p.right().len() > 0,
        !text::white_space(p.right()[0]),
        !text::white_space(p.right().last()),
        p.solid().last() == p.right().last(),
{
    assert(!text::white_space(p.name[0]));
}

/// What a parameter says, however it is written.
pub proof fn law_parameter_is_read(p: WrittenParam)
    requires
        p.wf(),
    ensures
        digest::name_and_value(p.text()) == Some((text::lowercase(p.name), p.value)),
{
    lemma_solid_ends(p);
    texts::law_trim(p.lead, p.solid(), p.tail);
    let x = p.solid();
    let mark = (p.name.len() + p.gap.len()) as int;
    assert forall|j: int| 0 <= j < mark implies !text::Class::Is('=').holds(#[trigger] x[j]) by {
        if j < p.name.len() {
            assert(x[j] == p.name[j]);
        } else {
            assert(x[j] == p.gap[j - p.name.len()]);
        }
    }
    assert(x[mark] == '=');
    text::lemma_find_at(x, text::Class::Is('='), mark as nat);
    let none = Seq::<char>::empty();
    assert(x.take(mark) =~= none + p.name + p.gap);
    assert(!text::white_space(p.name[0]));
    assert(!text::white_space(p.name[p.name.len() - 1]));
    texts::law_trim(none, p.name, p.gap);
    assert(x.skip(mark + 1) =~= p.pad + p.right() + none);
    texts::law_trim(p.pad, p.right(), none);
    if p.value.len() > 0 {
        assert(p.value[0] != '"');
        assert(p.value[p.value.len() - 1] != '"');
    }
    if p.quoted {
        texts::law_unquote(seq!['"'], p.value, seq!['"']);
    } else {
        texts::law_unquote(none, p.value, none);
        assert(none + p.value + none =~= p.value);
    }
}

/// The first comma outside quotes comes behind a parameter.
proof fn lemma_comma_behind(p: WrittenParam, rest: Seq<char>)
    requires
        p.wf(),
    ensures
        digest::comma_at(p.text() + rest, false) == p.text().len() + digest::comma_at(rest, false),
{
    let front = p.lead + p.name + p.gap + seq!['='] + p.pad;
    let back = p.tail + rest;
    assert forall|i: int| 0 <= i < front.len() implies #[trigger] front[i] != '"' && front[i]
        != ',' by {
        let a = p.lead.len() as int;
        let b = a + p.name.len();
        let c = b + p.gap.len();
        if i < a {
            assert(front[i] == p.lead[i]);
        } else if i < b {
            assert(front[i] == p.name[i - a]);
        } else if i < c {
            assert(front[i] == p.gap[i - b]);
        } else if i > c {
            assert(front[i] == p.pad[i - c - 1]);
        }
    }
    assert forall|i: int| 0 <= i < p.tail.len() implies #[trigger] p.tail[i] != '"' && p.tail[i]
        != ',' by {
        assert(text::white_space(p.tail[i]));
    }
    authentication::lemma_comma_skip(p.tail, rest, false);
    if p.quoted {
        let closed = seq!['"'] + back;
        let inside = p.value + closed;
        let opened = seq!['"'] + inside;
        assert(p.text() + rest =~= front + opened);
        authentication::lemma_comma_skip(front, opened, false);
        assert(opened.drop_first() =~= inside);
        authentication::lemma_comma_skip(p.value, closed, true);
        assert(closed.drop_first() =~= back);
    } else {
        let right = p.value + back;
        assert(p.text() + rest =~= front + right);
        authentication::lemma_comma_skip(front, right, false);
        authentication::lemma_comma_skip(p.value, back, false);
    }
}

/// Parameters come apart at the commas between them, and not at those in quotes.
pub proof fn law_parameters_come_apart(list: Seq<WrittenParam>)
    requires
        all_wf(list),
    ensures
        digest::digest_pieces(list_text(list)) == Seq::new(list.len(), |i: int| list[i].text()),
    decreases list.len(),
{
    let first = list[0];
    let s = list_text(list);
    let wanted = Seq::new(list.len(), |i: int| list[i].text());
    lemma_solid_ends(first);
    texts::law_trim(first.lead, first.solid(), first.tail);
    if list.len() == 1 {
        let none = Seq::<char>::empty();
        lemma_comma_behind(first, none);
        assert(first.text() + none =~= s);
        assert(digest::digest_pieces(s) =~= wanted);
    } else {
        let others = list.drop_first();
        assert forall|i: int| 0 <= i < others.len() implies (#[trigger] others[i]).wf() by {
            assert(others[i] == list[i + 1]);
        }
        law_parameters_come_apart(others);
        let rest = seq![','] + list_text(others);
        lemma_comma_behind(first, rest);
        assert(first.text() + rest =~= s);
        assert(digest::comma_at(rest, false) == 0);
        let n = first.text().len() as int;
        assert(s.take(n) =~= first.text());
        assert(s.skip(n + 1) =~= list_text(others));
        assert(digest::digest_pieces(s) =~= wanted);
    }
}

/// The parameters without white space in front of the first one.
spec fn without_lead(list: Seq<WrittenParam>) -> Seq<WrittenParam> {
    list.update(0, WrittenParam { lead: Seq::empty(), ..list[0] })
}

/// The parameters without white space behind the last one.
spec fn without_tail(list: Seq<WrittenParam>) -> Seq<WrittenParam> {
    list.update(list.len() - 1, WrittenParam { tail: Seq::empty(), ..list.last() })
}

/// The white space in front comes off.
proof fn lemma_without_lead(list: Seq<WrittenParam>)
    requires
        all_wf(list),
    ensures
        all_wf(without_lead(list)),
        list_text(list) == list[0].lead + list_text(without_lead(list)),
        names_and_values(without_lead(list)) == names_and_values(list),
        list_text(without_lead(list)).len() > list[0].name.len(),
        forall|i: int|
            0 <= i < list[0].name.len() ==> #[trigger] list_text(without_lead(list))[i]
                == list[0].name[i],
        ({
            let c = list_text(without_lead(list))[list[0].name.len() as int];
            c == '=' || text::white_space(c)
        }),
{
    let cut = without_lead(list);
    let p = list[0];
    assert forall|i: int| 0 <= i < cut.len() implies (#[trigger] cut[i]).wf() by {
        assert(list[i].wf());
        assert(p.wf());
    }
    assert(cut.drop_first() =~= list.drop_first());
    assert(cut[0].solid() == p.solid());
    assert(cut[0].text() =~= p.solid() + p.tail);
    assert(names_and_values(cut) =~= names_and_values(list));
    assert(list_text(list) =~= p.lead + list_text(cut));
    let s = list_text(cut);
    assert forall|i: int| 0 <= i < p.name.len() implies #[trigger] s[i] == p.name[i] by {
        assert(s[i] == cut[0].text()[i]);
    }
    let n = p.name.len() as int;
    assert(s[n] == cut[0].text()[n]);
    if p.gap.len() > 0 {
        assert(s[n] == p.gap[0]);
    }
}

/// The white space behind comes off.
proof fn lemma_without_tail(list: Seq<WrittenParam>)
    requires
        all_wf(list),
    ensures
        all_wf(without_tail(list)),
        list_text(list) == list_text(without_tail(list)) + list.last().tail,
        names_and_values(without_tail(list)) == names_and_values(list),
        list_text(without_tail(list)).len() > 0,
        !text::white_space(list_text(without_tail(list)).last()),
    decreases list.len(),
{
    let cut = without_tail(list);
    let p = list.last();
    assert(list[list.len() - 1].wf());
    assert forall|i: int| 0 <= i < cut.len() implies (#[trigger] cut[i]).wf() by {
        assert(list[i].wf());
    }
    assert(names_and_values(cut) =~= names_and_values(list));
    if list.len() == 1 {
        lemma_solid_ends(p);
        assert(cut[0].solid() == p.solid());
        assert(cut[0].text() =~= p.lead + p.solid());
        assert(list_text(list) =~= list_text(cut) + p.tail);
    } else {
        let others = list.drop_first();
        assert forall|i: int| 0 <= i < others.len() implies (#[trigger] others[i]).wf() by {
            assert(others[i] == list[i + 1]);
        }
        lemma_without_tail(others);
        assert(cut.drop_first() =~= without_tail(others));
        assert(list_text(list) =~= list_text(cut) + p.tail);
    }
}

/// What is read from the parameters of a header.
proof fn lemma_said(list: Seq<WrittenParam>, header: Seq<char>)
    requires
        all_wf(list),
        digest::digest_part(header) == list_text(list),
    ensures
        digest::authorization(header) == authentication::heard(names_and_values(list)),
{
    law_parameters_come_apart(list);
    let pieces = digest::digest_pieces(list_text(list));
    let params = names_and_values(list);
    assert forall|i: int| 0 <= i < pieces.len() implies digest::name_and_value(
        #[trigger] pieces[i],
    ) == Some((text::lowercase(params[i].0), params[i].1)) by {
        law_parameter_is_read(list[i]);
    }
    authentication::lemma_last_value(pieces, params, "username"@);
    authentication::lemma_last_value(pieces, params, "realm"@);
    authentication::lemma_last_value(pieces, params, "nonce"@);
    authentication::lemma_last_value(pieces, params, "uri"@);
    authentication::lemma_last_value(pieces, params, "response"@);
    authentication::lemma_last_value(pieces, params, "qop"@);
    authentication::lemma_last_value(pieces, params, "nc"@);
    authentication::lemma_last_value(pieces, params, "cnonce"@);
}

/// An Authorization header is read however it is written: with the word `Digest` in front or, where
/// the first name does not start with it, without; with quotes around a value or without; with any
/// white space between its parts. Each parameter has the value that was written last for it.
pub proof fn law_authorization_however_written(front: Seq<char>, list: Seq<WrittenParam>)
    requires
        texts::is_blank(front),
        all_wf(list),
    ensures
        digest::authorization(front + "Digest"@ + list_text(list)) == authentication::heard(
            names_and_values(list),
        ),
        !"Digest"@.is_prefix_of(list[0].name) ==> digest::authorization(list_text(list))
            == authentication::heard(names_and_values(list)),
{
    reveal_strlit("Digest");
    let none = Seq::<char>::empty();
    let cut = without_tail(list);
    let tail = list.last().tail;
    lemma_without_tail(list);
    assert(list[list.len() - 1].wf());
    let bare = without_lead(cut);
    lemma_without_lead(cut);
    let lead = cut[0].lead;
    assert(lead == list[0].lead);
    assert(cut[0].name == list[0].name);
    assert(list[0].wf());
    let inner = list_text(bare);
    let name = list[0].name;
    assert(inner[0] == name[0]);
    assert(!text::white_space(name[0]));
    assert(inner.last() == list_text(cut).last());

    let header = front + "Digest"@ + list_text(list);
    let solid = "Digest"@ + lead + inner;
    assert(header =~= front + solid + tail);
    assert(solid[0] == 'D');
    assert(solid.last() == inner.last());
    texts::law_trim(front, solid, tail);
    assert("Digest"@ =~= solid.subrange(0, 6));
    assert(solid.skip(6) =~= lead + inner + none);
    texts::law_trim(lead, inner, none);
    lemma_said(bare, header);

    if !"Digest"@.is_prefix_of(name) {
        let plain = list_text(list);
        assert(plain =~= lead + inner + tail);
        texts::law_trim(lead, inner, tail);
        if "Digest"@.is_prefix_of(inner) {
            assert forall|i: int| 0 <= i < 6 implies inner[i] == #[trigger] "Digest"@[i] by {
                assert(inner.subrange(0, 6)[i] == inner[i]);
            }
            if name.len() >= 6 {
                assert("Digest"@ =~= name.subrange(0, 6)) by {
                    assert forall|i: int| 0 <= i < 6 implies #[trigger] "Digest"@[i]
                        == name.subrange(0, 6)[i] by {
                        assert(inner[i] == name[i]);
                    }
                }
            } else {
                let n = name.len() as int;
                assert(inner[n] == "Digest"@[n]);
            }
        }
        lemma_said(bare, plain);
    }
}

/// Whether a parameter is written at all, in whatever case.
pub open spec fn is_written(list: Seq<WrittenParam>, name: Seq<char>) -> bool {
    exists|i: int| 0 <= i < list.len() && text::lowercase((#[trigger] list[i]).name) == name
}

/// Whether the parameter at position `i` is the last one that is written with this name.
pub open spec fn is_last(list: Seq<WrittenParam>, i: int, name: Seq<char>) -> bool {
    &&& 0 <= i < list.len()
    &&& text::lowercase(list[i].name) == name
    &&& forall|j: int| i < j < list.len() ==> text::lowercase((#[trigger] list[j]).name) != name
}

/// What is found for a name.
proof fn lemma_last_given(list: Seq<WrittenParam>, name: Seq<char>)
    ensures
        !is_written(list, name) ==> authentication::last_given(names_and_values(list), name) is None,
        is_written(list, name) ==> exists|i: int| #[trigger]
            is_last(list, i, name) && authentication::last_given(names_and_values(list), name)
                == Some(list[i].value),
        forall|i: int| #[trigger]
            is_last(list, i, name) ==> authentication::last_given(names_and_values(list), name)
                == Some(list[i].value),
    decreases list.len(),
{
    let params = names_and_values(list);
    if list.len() > 0 {
        let shorter = list.drop_last();
        let last = list.len() - 1;
        assert(names_and_values(shorter) =~= params.drop_last());
        lemma_last_given(shorter, name);
        if text::lowercase(list[last].name) == name {
            assert(is_last(list, last, name));
            assert forall|i: int| #[trigger] is_last(list, i, name) implies i == last by {
                if i < last {
                    assert(text::lowercase(list[last].name) != name);
                }
            }
        } else {
            assert forall|i: int| #[trigger] is_last(list, i, name) implies is_last(
                shorter,
                i,
                name,
            ) by {
                assert(i < last);
                assert(shorter[i] == list[i]);
                assert forall|j: int| i < j < shorter.len() implies text::lowercase(
                    (#[trigger] shorter[j]).name,
                ) != name by {
                    assert(shorter[j] == list[j]);
                }
            }
            if is_written(list, name) {
                let k = choose|k: int|
                    0 <= k < list.len() && text::lowercase((#[trigger] list[k]).name) == name;
                assert(shorter[k] == list[k]);
                let i = choose|i: int| #[trigger]
                    is_last(shorter, i, name) && authentication::last_given(
                        names_and_values(shorter),
                        name,
                    ) == Some(shorter[i].value);
                assert(shorter[i] == list[i]);
                assert forall|j: int| i < j < list.len() implies text::lowercase(
                    (#[trigger] list[j]).name,
                ) != name by {
                    if j < last {
                        assert(shorter[j] == list[j]);
                    }
                }
                assert(is_last(list, i, name));
            }
            if is_written(shorter, name) {
                let k = choose|k: int|
                    0 <= k < shorter.len() && text::lowercase((#[trigger] shorter[k]).name) == name;
                assert(list[k] == shorter[k]);
            }
        }
    }
}

/// Each part of an Authorization header comes from the parameter of its own name, written last;
/// what is not written is empty, or missing where it may be. There is nothing exactly where the
/// user name, the nonce or the response is not written, or is empty where it is written last.
pub proof fn law_each_parameter_by_its_name(front: Seq<char>, list: Seq<WrittenParam>)
    requires
        texts::is_blank(front),
        all_wf(list),
    ensures
        ({
            let read = digest::authorization(front + "Digest"@ + list_text(list));
            &&& read is Some <==> {
                &&& is_written(list, "username"@) && forall|i: int| #[trigger]
                    is_last(list, i, "username"@) ==> list[i].value.len() > 0
                &&& is_written(list, "nonce"@) && forall|i: int| #[trigger]
                    is_last(list, i, "nonce"@) ==> list[i].value.len() > 0
                &&& is_written(list, "response"@) && forall|i: int| #[trigger]
                    is_last(list, i, "response"@) ==> list[i].value.len() > 0
            }
            &&& read matches Some(params) ==> forall|i: int| #[trigger]
                is_last(list, i, "username"@) ==> params.username == list[i].value
            &&& read matches Some(params) ==> forall|i: int| #[trigger]
                is_last(list, i, "realm"@) ==> params.realm == list[i].value
            &&& read matches Some(params) ==> forall|i: int| #[trigger]
                is_last(list, i, "nonce"@) ==> params.nonce == list[i].value
            &&& read matches Some(params) ==> forall|i: int| #[trigger]
                is_last(list, i, "uri"@) ==> params.uri == list[i].value
            &&& read matches Some(params) ==> forall|i: int| #[trigger]
                is_last(list, i, "response"@) ==> params.response == list[i].value
            &&& read matches Some(params) ==> forall|i: int| #[trigger]
                is_last(list, i, "qop"@) ==> params.qop == Some(list[i].value)
            &&& read matches Some(params) ==> forall|i: int| #[trigger]
                is_last(list, i, "nc"@) ==> params.nc == Some(list[i].value)
            &&& read matches Some(params) ==> forall|i: int| #[trigger]
                is_last(list, i, "cnonce"@) ==> params.cnonce == Some(list[i].value)
            &&& read matches Some(params) ==> {
                &&& !is_written(list, "realm"@) ==> params.realm.len() == 0
                &&& !is_written(list, "uri"@) ==> params.uri.len() == 0
                &&& !is_written(list, "qop"@) ==> params.qop is None
                &&& !is_written(list, "nc"@) ==> params.nc is None
                &&& !is_written(list, "cnonce"@) ==> params.cnonce is None
            }
        }),
{
    law_authorization_however_written(front, list);
    lemma_last_given(list, "username"@);
    lemma_last_given(list, "realm"@);
    lemma_last_given(list, "nonce"@);
    lemma_last_given(list, "uri"@);
    lemma_last_given(list, "response"@);
    lemma_last_given(list, "qop"@);
    lemma_last_given(list, "nc"@);
    lemma_last_given(list, "cnonce"@);
}

/// A piece of white space between two commas says nothing.
pub proof fn law_empty_parameter_says_nothing(blank: Seq<char>, rest: Seq<char>)
    requires
        texts::is_blank(blank),
    ensures
        digest::digest_pieces(blank + seq![','] + rest) == digest::digest_pieces(rest),
        digest::digest_pieces(blank).len() == 0,
{
    let none = Seq::<char>::empty();
    let s = blank + seq![','] + rest;
    let behind = seq![','] + rest;
    assert forall|i: int| 0 <= i < blank.len() implies #[trigger] blank[i] != '"' && blank[i]
        != ',' by {
        assert(text::white_space(blank[i]));
    }
    authentication::lemma_comma_skip(blank, behind, false);
    assert(s =~= blank + behind);
    assert(digest::comma_at(behind, false) == 0);
    authentication::lemma_comma_skip(blank, none, false);
    assert(blank + none =~= blank);
    texts::law_trim(blank, none, none);
    assert(blank + none + none =~= blank);
    let n = blank.len() as int;
    assert(s.take(n) =~= blank);
    assert(s.skip(n + 1) =~= rest);
    assert(digest::digest_pieces(s) =~= digest::digest_pieces(rest));
}

/// A parameter without an equals sign says nothing.
pub proof fn law_no_equals_sign_no_parameter(piece: Seq<char>)
    requires
        !piece.contains('='),
    ensures
        digest::name_and_value(piece) is None,
{
    let param = text::trim(piece);
    text::lemma_trim(piece);
    text::lemma_find(param, text::Class::Is('='));
    let at = text::find(param, text::Class::Is('=')) as int;
    if at < param.len() {
        assert(param.contains(param[at]));
    }
}

/// The number of double quotes in `s`.
pub open spec fn quotes(s: Seq<char>) -> nat
    decreases s.len(),
{
    if s.len() == 0 {
        0
    } else {
        (if s[0] == '"' {
            1nat
        } else {
            0nat
        }) + quotes(s.drop_first())
    }
}

/// The comma that ends a parameter is the first one with an even number of quotes before it.
pub proof fn law_comma_outside_quotes(s: Seq<char>)
    ensures
        ({
            let at = digest::comma_at(s, false) as int;
            &&& 0 <= at <= s.len()
            &&& at < s.len() ==> s[at] == ',' && quotes(s.take(at)) % 2 == 0
            &&& forall|i: int|
                0 <= i < at && #[trigger] s[i] == ',' ==> quotes(s.take(i)) % 2 == 1
        }),
{
    lemma_comma(s, false);
}

/// The comma that ends a parameter, seen from inside or outside quotes.
proof fn lemma_comma(s: Seq<char>, quoted: bool)
    ensures
        ({
            let at = digest::comma_at(s, quoted) as int;
            let open = if quoted {
                1int
            } else {
                0int
            };
            &&& 0 <= at <= s.len()
            &&& at < s.len() ==> s[at] == ',' && (quotes(s.take(at)) + open) % 2 == 0
            &&& forall|i: int|
                0 <= i < at && #[trigger] s[i] == ',' ==> (quotes(s.take(i)) + open) % 2 == 1
        }),
    decreases s.len(),
{
    let at = digest::comma_at(s, quoted) as int;
    let open = if quoted {
        1int
    } else {
        0int
    };
    if s.len() > 0 {
        let rest = s.drop_first();
        let inside = if s[0] == '"' {
            !quoted
        } else {
            quoted
        };
        lemma_comma(rest, inside);
        assert(s.take(0).len() == 0);
        assert forall|i: int| 0 < i <= s.len() implies quotes(#[trigger] s.take(i)) == (if s[0]
            == '"' {
            1nat
        } else {
            0nat
        }) + quotes(rest.take(i - 1)) by {
            assert(s.take(i)[0] == s[0]);
            assert(s.take(i).drop_first() =~= rest.take(i - 1));
        }
        if at > 0 {
            assert forall|i: int| 0 <= i < at && #[trigger] s[i] == ',' implies (quotes(s.take(i))
                + open) % 2 == 1 by {
                if i > 0 {
                    assert(rest[i - 1] == s[i]);
                }
            }
            if at < s.len() {
                assert(rest[at - 1] == s[at]);
            }
        }
    }
}

/// Every text comes apart at its commas outside quotes, and pieces of white space are left out.
pub proof fn law_any_text_comes_apart(s: Seq<char>)
    ensures
        ({
            let at = digest::comma_at(s, false) as int;
            let piece = s.take(at);
            let kept = if text::trim(piece).len() == 0 {
                Seq::empty()
            } else {
                seq![piece]
            };
            digest::digest_pieces(s) == (if at < s.len() {
                kept + digest::digest_pieces(s.skip(at + 1))
            } else {
                kept
            })
        }),
{
    law_comma_outside_quotes(s);
    let at = digest::comma_at(s, false) as int;
    if at >= s.len() {
        assert(s.take(at) =~= s);
    }
}

/// Every parameter comes apart at its first equals sign: in front the name, whose case does not
/// matter, and behind the value, without the quotes around it; both without the white space around
/// them. Where there is none, it says nothing.
pub proof fn law_any_parameter(name: Seq<char>, value: Seq<char>)
    requires
        !name.contains('='),
        name.len() > 0,
        !text::white_space(name[0]),
        value.len() > 0 ==> !text::white_space(value.last()),
    ensures
        digest::name_and_value(name + seq!['='] + value) == Some(
            (text::lowercase(text::trim(name)), text::unquote(text::trim(value))),
        ),
{
    let x = name + seq!['='] + value;
    assert(x[0] == name[0]);
    if value.len() > 0 {
        assert(x.last() == value.last());
    } else {
        assert(x.last() == '=');
    }
    text::lemma_trim_solid(x);
    let mark = name.len();
    assert forall|j: int| 0 <= j < mark implies !text::Class::Is('=').holds(#[trigger] x[j]) by {
        assert(x[j] == name[j]);
        assert(name.contains(name[j]));
    }
    text::lemma_find_at(x, text::Class::Is('='), mark);
    assert(x.take(mark as int) =~= name);
    assert(x.skip(mark as int + 1) =~= value);
}

/// Of several pieces, the last one with a name gives the value for it.
pub proof fn law_last_piece_counts(pieces: Seq<Seq<char>>, piece: Seq<char>, name: Seq<char>)
    ensures
        digest::last_value(Seq::empty(), name) is None,
        digest::last_value(pieces.push(piece), name) == (match digest::name_and_value(piece) {
            Some((found, value)) if found == name => Some(value),
            _ => digest::last_value(pieces, name),
        }),
{
    assert(pieces.push(piece).drop_last() =~= pieces);
}

/// What is read from any header: of the pieces behind the word `Digest`, or of all where it does
/// not start so, the last value for each name.
pub proof fn law_any_header(header: Seq<char>)
    ensures
        ({
            let trimmed = text::trim(header);
            let rest = if "Digest"@.is_prefix_of(trimmed) {
                text::trim(trimmed.skip(6))
            } else {
                trimmed
            };
            let pieces = digest::digest_pieces(rest);
            let username = digest::last_value(pieces, "username"@);
            let nonce = digest::last_value(pieces, "nonce"@);
            let response = digest::last_value(pieces, "response"@);
            let whole = (username matches Some(value) && value.len() > 0) && (
            nonce matches Some(value) && value.len() > 0) && (response matches Some(value)
                && value.len() > 0);
            &&& digest::authorization(header) is Some == whole
            &&& digest::authorization(header) matches Some(params) ==> {
                &&& Some(params.username) == username
                &&& Some(params.nonce) == nonce
                &&& Some(params.response) == response
                &&& params.realm == (match digest::last_value(pieces, "realm"@) {
                    Some(value) => value,
                    None => Seq::empty(),
                })
                &&& params.uri == (match digest::last_value(pieces, "uri"@) {
                    Some(value) => value,
                    None => Seq::empty(),
                })
                &&& params.qop == digest::last_value(pieces, "qop"@)
                &&& params.nc == digest::last_value(pieces, "nc"@)
                &&& params.cnonce == digest::last_value(pieces, "cnonce"@)
            }
        }),
{
    reveal_strlit("Digest");
}

} // verus!
