//! Identifiers made from names.

use crate::text;
use vstd::prelude::*;

verus! {

/// What `char::is_alphanumeric` returns: whether a character has the Unicode property
/// `Alphabetic` or a numeric general category.
pub uninterp spec fn unicode_alphanumeric(c: char) -> bool;

/// `char::is_alphanumeric`: its result is a function of the character alone.
#[verifier::external_body]
fn char_is_alphanumeric(c: char) -> (r: bool)
    ensures
        r == unicode_alphanumeric(c),
{
    c.is_alphanumeric()
}

/// What `str::to_lowercase` returns: the string mapped by the Unicode rules for lower case.
pub uninterp spec fn unicode_lowercase(s: Seq<char>) -> Seq<char>;

/// `str::to_lowercase`: its result is a function of the characters alone.
#[verifier::external_body]
fn str_to_lowercase(s: &str) -> (r: String)
    ensures
        r@ == unicode_lowercase(s@),
{
    s.to_lowercase()
}

/// Whether `c` is a letter or a digit.
pub open spec fn is_alnum(c: char) -> bool {
    if (c as u32) < 128 {
        ('0' <= c <= '9') || ('A' <= c <= 'Z') || ('a' <= c <= 'z')
    } else {
        unicode_alphanumeric(c)
    }
}

/// Whether `c` is a letter or a digit.
pub fn alnum(c: char) -> (r: bool)
    ensures
        r == is_alnum(c),
{
    if (c as u32) < 128 {
        ('0' <= c && c <= '9') || ('A' <= c && c <= 'Z') || ('a' <= c && c <= 'z')
    } else {
        char_is_alphanumeric(c)
    }
}

/// Whether every character of `s` is an ASCII character.
pub open spec fn ascii(s: Seq<char>) -> bool {
    forall|i: int| 0 <= i < s.len() ==> (#[trigger] s[i] as u32) < 128
}

/// `s` in lower case.
pub open spec fn lowercase(s: Seq<char>) -> Seq<char> {
    if ascii(s) {
        text::lowered(s)
    } else {
        unicode_lowercase(s)
    }
}

/// `s` in lower case.
pub fn to_lowercase(s: &str) -> (r: String)
    ensures
        r@ == lowercase(s@),
{
    let v = text::chars(s);
    let mut r = String::new();
    for i in 0..v.len()
        invariant
            v@ == s@,
            forall|k: int| 0 <= k < i ==> (#[trigger] v@[k] as u32) < 128,
            r@ == text::lowered(v@.take(i as int)),
    {
        if v[i] as u32 >= 128 {
            assert((s@[i as int] as u32) >= 128);
            return str_to_lowercase(s);
        }
        r.push(text::ascii_lower(v[i]));
        assert(r@ =~= text::lowered(v@.take(i + 1)));
    }
    assert(v@.take(v@.len() as int) =~= v@);
    r
}

/// `c` where it may stand in an identifier, a dash otherwise.
pub open spec fn kept(c: char) -> char {
    if is_alnum(c) || c == '-' {
        c
    } else {
        '-'
    }
}

/// `c` in lower case where it is a letter or a digit, a dash otherwise.
pub open spec fn kept_lower(c: char) -> char {
    if is_alnum(c) {
        text::lower(c)
    } else {
        '-'
    }
}

/// Whether a part of an identifier holds something.
pub open spec fn nonempty() -> spec_fn(Seq<char>) -> bool {
    |p: Seq<char>| p.len() > 0
}

/// The parts of `s` between dashes that are not empty.
pub open spec fn dashed_parts(s: Seq<char>) -> Seq<Seq<char>> {
    text::pieces(s, '-', '-').filter(nonempty())
}

/// `s` with runs of dashes made one, and none at either end.
pub open spec fn squeezed(s: Seq<char>) -> Seq<char> {
    text::joined(dashed_parts(s), "-"@)
}

/// The identifier that a name in lower case gives.
pub open spec fn slug_of(s: Seq<char>) -> Seq<char> {
    squeezed(lowercase(s).map_values(|c: char| kept(c)))
}

/// The identifier that a name gives where only ASCII capitals are turned small.
pub open spec fn ascii_slug_of(s: Seq<char>) -> Seq<char> {
    squeezed(s.map_values(|c: char| kept_lower(c)))
}

/// `s` with runs of dashes made one, and none at either end.
fn squeeze(s: &str) -> (r: String)
    ensures
        r@ == squeezed(s@),
{
    let parts = text::split(s, '-', '-');
    let ghost all = text::pieces(s@, '-', '-');
    let mut some: Vec<String> = Vec::new();
    for i in 0..parts.len()
        invariant
            text::views(parts@) == all,
            text::views(some@) == all.take(i as int).filter(nonempty()),
    {
        reveal(Seq::filter);
        let p = parts[i].as_str();
        assert(p@ == all[i as int]);
        assert(all.take(i + 1).drop_last() =~= all.take(i as int));
        if !p.is_empty() {
            let ghost before = text::views(some@);
            some.push(p.to_string());
            assert(text::views(some@) =~= before.push(p@));
        }
    }
    assert(all.take(all.len() as int) =~= all);
    text::join(&some, "-")
}

/// The identifier for a name: lower case, letters and digits in parts with one dash between two
/// of them.
pub fn slugify(s: &str) -> (r: String)
    ensures
        r@ == slug_of(s@),
{
    let low = to_lowercase(s);
    let v = text::chars(low.as_str());
    let mut t = String::new();
    for i in 0..v.len()
        invariant
            t@ == v@.take(i as int).map_values(|c: char| kept(c)),
    {
        let c: char = v[i];
        t.push(
            if c == '-' || alnum(c) {
                c
            } else {
                '-'
            },
        );
        assert(t@ =~= v@.take(i + 1).map_values(|c: char| kept(c)));
    }
    assert(v@.take(v@.len() as int) =~= v@);
    squeeze(t.as_str())
}

/// The identifier for a name where only ASCII capitals are turned small.
pub fn ascii_slugify(s: &str) -> (r: String)
    ensures
        r@ == ascii_slug_of(s@),
{
    let v = text::chars(s);
    let mut t = String::new();
    for i in 0..v.len()
        invariant
            t@ == v@.take(i as int).map_values(|c: char| kept_lower(c)),
    {
        let c: char = v[i];
        t.push(
            if alnum(c) {
                text::ascii_lower(c)
            } else {
                '-'
            },
        );
        assert(t@ =~= v@.take(i + 1).map_values(|c: char| kept_lower(c)));
    }
    assert(v@.take(v@.len() as int) =~= v@);
    squeeze(t.as_str())
}

proof fn lemma_filtered(s: Seq<Seq<char>>)
    ensures
        forall|i: int|
            0 <= i < s.filter(nonempty()).len() ==> (#[trigger] s.filter(nonempty())[i]).len() > 0
                && s.contains(s.filter(nonempty())[i]),
    decreases s.len(),
{
    reveal(Seq::filter);
    let r = s.filter(nonempty());
    if s.len() > 0 {
        let t = s.drop_last();
        lemma_filtered(t);
        assert forall|i: int| 0 <= i < r.len() implies (#[trigger] r[i]).len() > 0 && s.contains(
            r[i],
        ) by {
            if i < t.filter(nonempty()).len() {
                assert(r[i] == t.filter(nonempty())[i]);
                let k = choose|k: int| 0 <= k < t.len() && t[k] == r[i];
                assert(s[k] == r[i]);
            } else {
                assert(r[i] == s.last());
                assert(s[s.len() - 1] == r[i]);
            }
        }
    }
}

proof fn lemma_all_kept(s: Seq<Seq<char>>)
    requires
        forall|i: int| 0 <= i < s.len() ==> (#[trigger] s[i]).len() > 0,
    ensures
        s.filter(nonempty()) == s,
    decreases s.len(),
{
    reveal(Seq::filter);
    if s.len() > 0 {
        let t = s.drop_last();
        assert forall|i: int| 0 <= i < t.len() implies (#[trigger] t[i]).len() > 0 by {
            assert(t[i] == s[i]);
        }
        lemma_all_kept(t);
        assert(s[s.len() - 1].len() > 0);
        assert(t.push(s.last()) =~= s);
    }
}

/// An identifier that is not empty has letters and digits at both ends, and no two dashes in a
/// row: cut at its dashes, it has no empty part.
pub proof fn law_slug_has_no_empty_part(s: Seq<char>)
    ensures
        squeezed(s).len() > 0 ==> {
            &&& pieces_of_slug(squeezed(s)) == dashed_parts(s)
            &&& forall|i: int|
                0 <= i < pieces_of_slug(squeezed(s)).len() ==> (#[trigger] pieces_of_slug(
                    squeezed(s),
                )[i]).len() > 0
        },
        squeezed(s).len() == 0 <==> dashed_parts(s).len() == 0,
{
    let all = text::pieces(s, '-', '-');
    let parts = dashed_parts(s);
    text::lemma_pieces_clean(s, '-', '-');
    lemma_filtered(all);
    reveal_strlit("-");
    assert("-"@ =~= seq!['-']);
    if parts.len() > 0 {
        assert forall|i: int| 0 <= i < parts.len() implies !(#[trigger] parts[i]).contains('-') by {
            let k = choose|k: int| 0 <= k < all.len() && all[k] == parts[i];
            assert(!all[k].contains('-'));
        }
        text::lemma_pieces_joined(parts, '-');
        if squeezed(s).len() == 0 {
            assert(squeezed(s) =~= Seq::<char>::empty());
            assert(parts[0].len() > 0);
        }
    }
}

/// The parts of an identifier.
pub open spec fn pieces_of_slug(r: Seq<char>) -> Seq<Seq<char>> {
    text::pieces(r, '-', '-')
}

/// Squeezing dashes out twice is the same as once.
pub proof fn law_squeezing_twice(s: Seq<char>)
    ensures
        squeezed(squeezed(s)) == squeezed(s),
{
    law_slug_has_no_empty_part(s);
    if squeezed(s).len() > 0 {
        lemma_all_kept(pieces_of_slug(squeezed(s)));
    } else {
        reveal_with_fuel(Seq::filter, 2);
        let e = squeezed(s);
        assert(text::pieces(e, '-', '-') =~= seq![Seq::<char>::empty()]);
        let one = seq![Seq::<char>::empty()];
        assert(one.drop_last() =~= Seq::<Seq<char>>::empty());
        assert(one.filter(nonempty()) =~= Seq::<Seq<char>>::empty());
    }
}

/// Every character of a part of `s` is one of `s`, and so it is in what they are joined to.
proof fn lemma_joined_chars(parts: Seq<Seq<char>>, good: spec_fn(char) -> bool)
    requires
        good('-'),
        forall|i: int, k: int|
            0 <= i < parts.len() && 0 <= k < parts[i].len() ==> good(#[trigger] parts[i][k]),
    ensures
        forall|k: int|
            0 <= k < text::joined(parts, seq!['-']).len() ==> good(
                #[trigger] text::joined(parts, seq!['-'])[k],
            ),
    decreases parts.len(),
{
    if parts.len() > 1 {
        let front = parts.drop_last();
        assert forall|i: int, k: int| 0 <= i < front.len() && 0 <= k < front[i].len() implies good(
            #[trigger] front[i][k],
        ) by {
            assert(front[i][k] == parts[i][k]);
        }
        lemma_joined_chars(front, good);
        let r = text::joined(parts, seq!['-']);
        let f = text::joined(front, seq!['-']);
        assert forall|k: int| 0 <= k < r.len() implies good(#[trigger] r[k]) by {
            if k < f.len() {
                assert(r[k] == f[k]);
            } else if k > f.len() {
                assert(r[k] == parts[parts.len() - 1][k - f.len() - 1]);
            }
        }
    } else if parts.len() == 1 {
        assert forall|k: int| 0 <= k < parts[0].len() implies good(#[trigger] parts[0][k]) by {
        }
    }
}

proof fn lemma_piece_chars(s: Seq<char>, a: char, good: spec_fn(char) -> bool)
    requires
        forall|k: int| 0 <= k < s.len() ==> good(#[trigger] s[k]),
    ensures
        forall|i: int, k: int|
            0 <= i < text::pieces(s, a, a).len() && 0 <= k < text::pieces(s, a, a)[i].len() ==> good(
                #[trigger] text::pieces(s, a, a)[i][k],
            ),
    decreases s.len(),
{
    if s.len() > 0 {
        let t = s.drop_last();
        assert forall|k: int| 0 <= k < t.len() implies good(#[trigger] t[k]) by {
            assert(t[k] == s[k]);
        }
        lemma_piece_chars(t, a, good);
        text::lemma_pieces_some(t, a, a);
        let p = text::pieces(t, a, a);
        let r = text::pieces(s, a, a);
        assert(good(s[s.len() - 1]));
        assert forall|i: int, k: int| 0 <= i < r.len() && 0 <= k < r[i].len() implies good(
            #[trigger] r[i][k],
        ) by {
            if i < p.len() && k < p[i].len() {
                assert(p[i][k] == r[i][k]);
            }
        }
    }
}

/// What stands in an identifier: a small letter or a digit, or a dash.
pub open spec fn settled() -> spec_fn(char) -> bool {
    |c: char| c == '-' || kept_lower(c) == c
}

proof fn lemma_squeezed_chars(m: Seq<char>, good: spec_fn(char) -> bool)
    requires
        good('-'),
        forall|k: int| 0 <= k < m.len() ==> good(#[trigger] m[k]),
    ensures
        forall|k: int| 0 <= k < squeezed(m).len() ==> good(#[trigger] squeezed(m)[k]),
{
    reveal_strlit("-");
    assert("-"@ =~= seq!['-']);
    lemma_piece_chars(m, '-', good);
    let all = text::pieces(m, '-', '-');
    let parts = dashed_parts(m);
    lemma_filtered(all);
    assert forall|i: int, k: int| 0 <= i < parts.len() && 0 <= k < parts[i].len() implies good(
        #[trigger] parts[i][k],
    ) by {
        let j = choose|j: int| 0 <= j < all.len() && all[j] == parts[i];
        assert(good(all[j][k]));
    }
    lemma_joined_chars(parts, good);
}

/// An identifier made of an identifier is that identifier.
pub proof fn law_ascii_slug_of_slug(s: Seq<char>)
    ensures
        ascii_slug_of(ascii_slug_of(s)) == ascii_slug_of(s),
{
    let m = s.map_values(|c: char| kept_lower(c));
    let r = squeezed(m);
    assert forall|k: int| 0 <= k < m.len() implies settled()(#[trigger] m[k]) by {
        let c = s[k];
        assert(m[k] == kept_lower(c));
        if is_alnum(c) && 'A' <= c <= 'Z' {
            assert('a' <= text::lower(c) <= 'z');
        }
    }
    lemma_squeezed_chars(m, settled());
    let again = r.map_values(|c: char| kept_lower(c));
    assert forall|k: int| 0 <= k < r.len() implies again[k] == r[k] by {
        assert(settled()(r[k]));
    }
    assert(again =~= r);
    law_squeezing_twice(m);
}

/// Whether a text has a dash neither at an end nor behind another.
pub open spec fn tidy(s: Seq<char>) -> bool {
    &&& s.len() > 0 ==> s[0] != '-' && s[s.len() - 1] != '-'
    &&& forall|i: int, j: int|
        0 <= i && j == i + 1 && j < s.len() ==> !(#[trigger] s[i] == '-' && #[trigger] s[j] == '-')
}

/// Whether every character of a text is a letter, a digit or a dash.
pub open spec fn plain(s: Seq<char>) -> bool {
    forall|i: int| 0 <= i < s.len() ==> is_alnum(#[trigger] s[i]) || s[i] == '-'
}

/// Whether a text has a letter or a digit.
pub open spec fn has_alnum(s: Seq<char>) -> bool {
    exists|i: int| 0 <= i < s.len() && is_alnum(#[trigger] s[i])
}

proof fn lemma_joined_tidy(parts: Seq<Seq<char>>)
    requires
        forall|i: int| 0 <= i < parts.len() ==> (#[trigger] parts[i]).len() > 0,
        forall|i: int| 0 <= i < parts.len() ==> !(#[trigger] parts[i]).contains('-'),
    ensures
        tidy(text::joined(parts, seq!['-'])),
    decreases parts.len(),
{
    let r = text::joined(parts, seq!['-']);
    if parts.len() == 1 {
        assert forall|k: int| 0 <= k < r.len() implies #[trigger] r[k] != '-' by {
            assert(parts[0].contains(parts[0][k]));
        }
    } else if parts.len() > 1 {
        let front = parts.drop_last();
        assert forall|i: int| 0 <= i < front.len() implies (#[trigger] front[i]).len() > 0
            && !front[i].contains('-') by {
            assert(front[i] == parts[i]);
        }
        lemma_joined_tidy(front);
        let f = text::joined(front, seq!['-']);
        let last = parts[parts.len() - 1];
        assert(r =~= f + seq!['-'] + last);
        assert(f.len() > 0) by {
            assert(front[0].len() > 0);
            lemma_joined_some(front);
        }
        assert forall|k: int| f.len() < k < r.len() implies #[trigger] r[k] != '-' by {
            assert(last[k - f.len() - 1] == r[k]);
            assert(last.contains(r[k]));
        }
        assert forall|k: int| 0 <= k < f.len() implies #[trigger] r[k] == f[k] by {}
    }
}

proof fn lemma_joined_some(parts: Seq<Seq<char>>)
    requires
        parts.len() > 0,
        parts[parts.len() - 1].len() > 0,
    ensures
        text::joined(parts, seq!['-']).len() > 0,
{
}

/// Of text without letters and digits nothing is left.
proof fn lemma_squeezed_dashes(m: Seq<char>)
    requires
        forall|k: int| 0 <= k < m.len() ==> #[trigger] m[k] == '-',
    ensures
        squeezed(m).len() == 0,
{
    let only = |c: char| c == '-';
    lemma_squeezed_chars(m, only);
    lemma_squeezed_tidy(m);
    let r = squeezed(m);
    if r.len() > 0 {
        assert(only(r[0]));
    }
}

proof fn lemma_squeezed_tidy(m: Seq<char>)
    ensures
        tidy(squeezed(m)),
{
    reveal_strlit("-");
    assert("-"@ =~= seq!['-']);
    let all = text::pieces(m, '-', '-');
    let parts = dashed_parts(m);
    text::lemma_pieces_clean(m, '-', '-');
    lemma_filtered(all);
    assert forall|i: int| 0 <= i < parts.len() implies !(#[trigger] parts[i]).contains('-') by {
        let k = choose|k: int| 0 <= k < all.len() && all[k] == parts[i];
        assert(!all[k].contains('-'));
    }
    lemma_joined_tidy(parts);
}

/// An identifier is made of letters, digits and dashes, with a dash neither at an end nor behind
/// another. It is empty where the name in lower case has neither letter nor digit.
pub proof fn law_slugs_are_plain_and_tidy(s: Seq<char>)
    ensures
        plain(slug_of(s)),
        tidy(slug_of(s)),
        !has_alnum(lowercase(s)) ==> slug_of(s).len() == 0,
        plain(ascii_slug_of(s)),
        tidy(ascii_slug_of(s)),
        !has_alnum(s) ==> ascii_slug_of(s).len() == 0,
{
    let fine = |c: char| is_alnum(c) || c == '-';
    let low = lowercase(s);
    let a = low.map_values(|c: char| kept(c));
    let b = s.map_values(|c: char| kept_lower(c));
    assert forall|k: int| 0 <= k < a.len() implies fine(#[trigger] a[k]) by {
        assert(a[k] == kept(low[k]));
    }
    assert forall|k: int| 0 <= k < b.len() implies fine(#[trigger] b[k]) by {
        assert(b[k] == kept_lower(s[k]));
        if 'A' <= s[k] <= 'Z' {
            assert('a' <= text::lower(s[k]) <= 'z');
        }
    }
    lemma_squeezed_chars(a, fine);
    lemma_squeezed_chars(b, fine);
    assert forall|k: int| 0 <= k < slug_of(s).len() implies is_alnum(#[trigger] slug_of(s)[k])
        || slug_of(s)[k] == '-' by {
        assert(fine(squeezed(a)[k]));
    }
    assert forall|k: int| 0 <= k < ascii_slug_of(s).len() implies is_alnum(
        #[trigger] ascii_slug_of(s)[k],
    ) || ascii_slug_of(s)[k] == '-' by {
        assert(fine(squeezed(b)[k]));
    }
    lemma_squeezed_tidy(a);
    lemma_squeezed_tidy(b);
    if !has_alnum(low) {
        assert forall|k: int| 0 <= k < a.len() implies #[trigger] a[k] == '-' by {
            assert(!is_alnum(low[k]));
        }
        lemma_squeezed_dashes(a);
    }
    if !has_alnum(s) {
        assert forall|k: int| 0 <= k < b.len() implies #[trigger] b[k] == '-' by {
            assert(!is_alnum(s[k]));
        }
        lemma_squeezed_dashes(b);
    }
}

/// An identifier that is in lower case throughout gives itself again.
pub proof fn law_slug_of_slug(s: Seq<char>)
    requires
        lowercase(slug_of(s)) == slug_of(s),
    ensures
        slug_of(slug_of(s)) == slug_of(s),
{
    let r = slug_of(s);
    law_slugs_are_plain_and_tidy(s);
    assert(r.map_values(|c: char| kept(c)) =~= r);
    law_squeezing_twice(lowercase(s).map_values(|c: char| kept(c)));
}

/// Of an ASCII name both identifiers are the same: it has no capital, it is empty where the name has
/// neither letter nor digit, and it gives itself again.
pub proof fn law_ascii_names_have_one_slug(s: Seq<char>)
    requires
        ascii(s),
    ensures
        slug_of(s) == ascii_slug_of(s),
        ascii(slug_of(s)),
        forall|i: int| 0 <= i < slug_of(s).len() ==> !('A' <= #[trigger] slug_of(s)[i] <= 'Z'),
        !has_alnum(s) ==> slug_of(s).len() == 0,
        slug_of(slug_of(s)) == slug_of(s),
{
    lemma_slugs_agree(s);
    law_slugs_are_plain_and_tidy(s);
    let b = s.map_values(|c: char| kept_lower(c));
    let small = |c: char| (c as u32) < 128 && !('A' <= c <= 'Z');
    assert forall|k: int| 0 <= k < b.len() implies small(#[trigger] b[k]) by {
        assert(b[k] == kept_lower(s[k]));
        assert((s[k] as u32) < 128);
    }
    lemma_squeezed_chars(b, small);
    let r = slug_of(s);
    assert forall|k: int| 0 <= k < r.len() implies (#[trigger] r[k] as u32) < 128 && !('A' <= r[k]
        <= 'Z') by {
        assert(small(squeezed(b)[k]));
    }
    lemma_slugs_agree(r);
    law_ascii_slug_of_slug(s);
}

proof fn lemma_slugs_agree(s: Seq<char>)
    requires
        ascii(s),
    ensures
        slug_of(s) == ascii_slug_of(s),
{
    let a = lowercase(s).map_values(|c: char| kept(c));
    let b = s.map_values(|c: char| kept_lower(c));
    assert forall|k: int| 0 <= k < b.len() implies a[k] == b[k] by {
        let c = s[k];
        assert((c as u32) < 128);
        assert(a[k] == kept(text::lower(c)));
        assert(b[k] == kept_lower(c));
        if 'A' <= c <= 'Z' {
            assert('a' <= text::lower(c) <= 'z');
        }
    }
    assert(a =~= b);
}

} // verus!
