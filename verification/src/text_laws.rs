//! What the operations on text come to, in plain terms.

use crate::text;
use vstd::prelude::*;

verus! {

/// Whether one text stands in another.
pub open spec fn stands_in(s: Seq<char>, p: Seq<char>) -> bool {
    exists|i: int| 0 <= i && i + p.len() <= s.len() && #[trigger] s.subrange(i, i + p.len()) == p
}

/// A text is found in another just where it stands in it.
pub proof fn law_found_where_it_stands(s: Seq<char>, p: Seq<char>)
    ensures
        text::has(s, p) <==> stands_in(s, p),
        text::first(s, p) matches Some(i) ==> 0 <= i && i + p.len() <= s.len() && s.subrange(
            i,
            i + p.len(),
        ) == p && forall|j: int|
            0 <= j < i ==> #[trigger] s.subrange(j, j + p.len()) != p,
{
    lemma_first_least(s, p, 0);
    if stands_in(s, p) {
        let i = choose|i: int|
            0 <= i && i + p.len() <= s.len() && #[trigger] s.subrange(i, i + p.len()) == p;
        text::lemma_present(s, p, 0, i);
    }
    if let Some(i) = text::first(s, p) {
        assert(s.subrange(i, i + p.len()) == p);
        assert forall|j: int| 0 <= j < i implies #[trigger] s.subrange(j, j + p.len()) != p by {
            assert(!text::occurs_at(s, p, j));
        }
    }
}

proof fn lemma_first_least(s: Seq<char>, p: Seq<char>, i: int)
    requires
        0 <= i,
    ensures
        text::first_from(s, p, i) matches Some(n) ==> i <= n && text::occurs_at(s, p, n) && forall|
            j: int,
        |
            i <= j < n ==> !#[trigger] text::occurs_at(s, p, j),
    decreases s.len() - i + 1,
{
    if i + p.len() <= s.len() && !text::occurs_at(s, p, i) {
        lemma_first_least(s, p, i + 1);
    }
}

/// A text is found at the end of what stands in front of it, where it does not stand earlier.
pub proof fn law_found_behind(a: Seq<char>, p: Seq<char>, b: Seq<char>)
    requires
        forall|j: int| 0 <= j < a.len() ==> #[trigger] (a + p).subrange(j, j + p.len()) != p,
    ensures
        text::first(a + p + b, p) == Some(a.len() as int),
        text::halves(a + p + b, p) == Some((a, b)),
        text::has(a + p + b, p),
{
    let s = a + p + b;
    let n = a.len() as int;
    assert forall|j: int| 0 <= j < n implies !#[trigger] text::occurs_at(s, p, j) by {
        assert(s.subrange(j, j + p.len()) =~= (a + p).subrange(j, j + p.len()));
    }
    assert(s.subrange(n, n + p.len()) =~= p);
    text::lemma_first_skips(s, p, 0, n);
    assert(s.take(n) =~= a);
    assert(s.skip(n + p.len()) =~= b);
}

/// A text that was cut in two at another one is made of the two halves and what was between them.
pub proof fn law_halves_make_the_whole(s: Seq<char>, p: Seq<char>)
    ensures
        match text::halves(s, p) {
            Some((a, b)) => s == a + p + b && forall|j: int|
                0 <= j < a.len() ==> #[trigger] s.subrange(j, j + p.len()) != p,
            None => !stands_in(s, p),
        },
{
    law_found_where_it_stands(s, p);
    if let Some(i) = text::first(s, p) {
        assert(s =~= s.take(i) + s.subrange(i, i + p.len()) + s.skip(i + p.len()));
    }
}

/// A text begins with another one just where that one and a rest make it, and likewise at its end.
pub proof fn law_begins_and_ends(p: Seq<char>, rest: Seq<char>, s: Seq<char>)
    ensures
        text::begins(p + rest, p),
        text::ends(rest + p, p),
        text::begins(s, p) ==> s == p + s.skip(p.len() as int),
        text::ends(s, p) ==> s.len() >= p.len() && s == s.take(s.len() - p.len()) + p,
{
    assert((p + rest).subrange(0, p.len() as int) =~= p);
    let n = rest.len() as int;
    assert((rest + p).subrange(n, n + p.len()) =~= p);
    if text::begins(s, p) {
        assert(s =~= s.subrange(0, p.len() as int) + s.skip(p.len() as int));
    }
    if text::ends(s, p) {
        let n = s.len() - p.len();
        assert(s =~= s.take(n) + s.subrange(n, n + p.len()));
    }
}

/// Blanks, tabs and line ends are white space; no other character of ASCII is.
pub proof fn law_white_space(c: char)
    requires
        (c as u32) < 128,
    ensures
        text::is_space(c) <==> c == ' ' || c == '\t' || c == '\n' || c == '\r' || c as u32 == 11
            || c as u32 == 12,
{
}

/// Beyond ASCII, white space is what Unicode counts as such.
pub proof fn law_wide_white_space(c: char)
    requires
        (c as u32) >= 128,
    ensures
        text::is_space(c) <==> c == '\u{85}' || c == '\u{a0}' || c == '\u{1680}' || '\u{2000}' <= c
            <= '\u{200a}' || c == '\u{2028}' || c == '\u{2029}' || c == '\u{202f}' || c
            == '\u{205f}' || c == '\u{3000}',
{
}

/// What is trimmed keeps its middle: only white space is taken, and all of it at both ends.
pub proof fn law_trimming(a: Seq<char>, t: Seq<char>, b: Seq<char>)
    requires
        forall|i: int| 0 <= i < a.len() ==> text::is_space(#[trigger] a[i]),
        forall|i: int| 0 <= i < b.len() ==> text::is_space(#[trigger] b[i]),
        t.len() > 0 ==> !text::is_space(t[0]) && !text::is_space(t.last()),
    ensures
        text::trimmed(a + t + b) == t,
        t.len() > 0 ==> !text::blank(a + t + b),
        t.len() == 0 ==> text::blank(a + t + b),
{
    lemma_trim_front(a, t + b);
    assert(a + t + b =~= a + (t + b));
    if t.len() > 0 {
        assert((t + b)[0] == t[0]);
        assert(text::trimmed_start(t + b) == t + b);
        lemma_trim_back(t, b);
        assert(text::trimmed_end(t) == t);
    } else {
        assert(t + b =~= b);
        let e = Seq::<char>::empty();
        assert(b + e =~= b);
        lemma_trim_front(b, e);
        assert(text::trimmed_start(e) == e);
        assert(text::trimmed_end(e) == e);
        assert(t =~= e);
    }
}

proof fn lemma_trim_front(a: Seq<char>, s: Seq<char>)
    requires
        forall|i: int| 0 <= i < a.len() ==> text::is_space(#[trigger] a[i]),
    ensures
        text::trimmed_start(a + s) == text::trimmed_start(s),
    decreases a.len(),
{
    if a.len() > 0 {
        let x = a + s;
        assert(x[0] == a[0]);
        assert(x.skip(1) =~= a.skip(1) + s);
        assert forall|i: int| 0 <= i < a.skip(1).len() implies text::is_space(
            #[trigger] a.skip(1)[i],
        ) by {
            assert(a.skip(1)[i] == a[i + 1]);
        }
        lemma_trim_front(a.skip(1), s);
    } else {
        assert(a + s =~= s);
    }
}

proof fn lemma_trim_back(s: Seq<char>, b: Seq<char>)
    requires
        forall|i: int| 0 <= i < b.len() ==> text::is_space(#[trigger] b[i]),
    ensures
        text::trimmed_end(s + b) == text::trimmed_end(s),
    decreases b.len(),
{
    if b.len() > 0 {
        let x = s + b;
        assert(x.last() == b[b.len() - 1]);
        assert(x.drop_last() =~= s + b.drop_last());
        assert forall|i: int| 0 <= i < b.drop_last().len() implies text::is_space(
            #[trigger] b.drop_last()[i],
        ) by {
            assert(b.drop_last()[i] == b[i]);
        }
        lemma_trim_back(s, b.drop_last());
    } else {
        assert(s + b =~= s);
    }
}

/// The pieces of a text, put together again, make the text, and no piece holds the character at
/// which it was cut.
pub proof fn law_pieces_make_the_whole(s: Seq<char>, a: char)
    ensures
        text::joined(text::pieces(s, a, a), seq![a]) == s,
        forall|i: int|
            0 <= i < text::pieces(s, a, a).len() ==> !(#[trigger] text::pieces(s, a, a)[i]).contains(
                a,
            ),
        text::pieces(s, a, a).len() >= 1,
    decreases s.len(),
{
    text::lemma_pieces_clean(s, a, a);
    text::lemma_pieces_some(s, a, a);
    let p = text::pieces(s, a, a);
    if s.len() == 0 {
        assert(p =~= seq![Seq::<char>::empty()]);
        assert(s =~= Seq::<char>::empty());
    } else {
        let t = s.drop_last();
        law_pieces_make_the_whole(t, a);
        let q = text::pieces(t, a, a);
        if s.last() == a {
            assert(p.drop_last() =~= q);
            assert(text::joined(p, seq![a]) =~= t + seq![a]);
            assert(s =~= t + seq![a]);
        } else {
            assert(p.drop_last() =~= q.drop_last());
            assert(p.last() == q.last().push(s.last()));
            if q.len() == 1 {
                assert(q[0] == t);
                assert(p[0] =~= s);
            } else {
                assert(text::joined(p, seq![a]) =~= text::joined(q, seq![a]).push(s.last()));
                assert(s =~= t.push(s.last()));
            }
        }
    }
}

/// What stands in front of the first place where a text is cut is its first piece.
pub proof fn law_first_piece(x: Seq<char>, a: char, b: char, c: char, rest: Seq<char>)
    requires
        !x.contains(a),
        !x.contains(b),
        c == a || c == b,
    ensures
        text::pieces(x, a, b)[0] == x,
        text::pieces(x.push(c) + rest, a, b)[0] == x,
    decreases rest.len(),
{
    lemma_whole_piece(x, a, b);
    let s = x.push(c) + rest;
    text::lemma_pieces_some(s, a, b);
    if rest.len() == 0 {
        assert(s =~= x.push(c));
        assert(s.drop_last() =~= x);
        assert(text::pieces(s, a, b) =~= seq![x, Seq::<char>::empty()]);
    } else {
        law_first_piece(x, a, b, c, rest.drop_last());
        let t = x.push(c) + rest.drop_last();
        assert(s.drop_last() =~= t);
        lemma_two_pieces(x, a, b, c, rest.drop_last());
        assert(text::pieces(s, a, b)[0] == text::pieces(t, a, b)[0]);
    }
}

proof fn lemma_whole_piece(x: Seq<char>, a: char, b: char)
    requires
        !x.contains(a),
        !x.contains(b),
    ensures
        text::pieces(x, a, b) == seq![x],
    decreases x.len(),
{
    if x.len() > 0 {
        let t = x.drop_last();
        assert forall|i: int| 0 <= i < t.len() implies t[i] != a && t[i] != b by {
            assert(t[i] == x[i]);
        }
        assert(x[x.len() - 1] != a && x[x.len() - 1] != b);
        lemma_whole_piece(t, a, b);
        assert(t.push(x.last()) =~= x);
        assert(seq![t].drop_last().push(t.push(x.last())) =~= seq![x]);
    } else {
        assert(x =~= Seq::<char>::empty());
    }
}

proof fn lemma_two_pieces(x: Seq<char>, a: char, b: char, c: char, rest: Seq<char>)
    requires
        c == a || c == b,
    ensures
        text::pieces(x.push(c) + rest, a, b).len() >= 2,
    decreases rest.len(),
{
    let s = x.push(c) + rest;
    if rest.len() == 0 {
        assert(s =~= x.push(c));
        assert(s.drop_last() =~= x);
        text::lemma_pieces_some(x, a, b);
    } else {
        lemma_two_pieces(x, a, b, c, rest.drop_last());
        assert(s.drop_last() =~= x.push(c) + rest.drop_last());
    }
}

proof fn lemma_digits(n: nat)
    ensures
        text::digits(n).len() > 0,
        text::all_digits(text::digits(n)),
        text::number(text::digits(n)) == n,
    decreases n,
{
    let d = text::digits(n);
    if n >= 10 {
        lemma_digits(n / 10);
        assert(d.drop_last() =~= text::digits(n / 10));
    } else {
        assert(d.drop_last() =~= Seq::<char>::empty());
        assert(text::number(d.drop_last()) == 0);
    }
}

/// A number is read back from its digits, as long as it is not above the limit, and two numbers with
/// the same digits are the same.
pub proof fn law_numbers_are_read_back(n: nat, m: nat, max: nat)
    ensures
        n <= max ==> text::uint(text::digits(n), max) == Some(n),
        n > max ==> text::uint(text::digits(n), max) is None,
        text::digits(n) == text::digits(m) ==> n == m,
        forall|i: int|
            0 <= i < text::digits(n).len() ==> '0' <= #[trigger] text::digits(n)[i] <= '9',
        text::digits(n).len() > 0,
{
    lemma_digits(n);
    lemma_digits(m);
    let d = text::digits(n);
    assert(text::is_digit(d[0]));
    assert(text::unsigned(d) == d);
}

/// Digits are read from the front, each counting ten times less than the one before it; zeros in front
/// and one plus do not count.
pub proof fn law_digits_are_read(t: Seq<char>, c: char, n: nat, max: nat)
    requires
        '0' <= c <= '9',
        forall|i: int| 0 <= i < t.len() ==> '0' <= #[trigger] t[i] <= '9',
        t.len() > 0,
        text::uint(t, max) == Some(n),
    ensures
        10 * n + (c as int - 48) <= max ==> text::uint(t.push(c), max) == Some(
            (10 * n + (c as int - 48)) as nat,
        ),
        10 * n + (c as int - 48) > max ==> text::uint(t.push(c), max) is None,
        c as int - 48 <= max ==> text::uint(seq![c], max) == Some((c as int - 48) as nat),
        text::uint(seq!['+'] + t, max) == Some(n),
{
    let u = t.push(c);
    assert(t[0] != '+');
    assert(u[0] == t[0]);
    assert(u.drop_last() =~= t);
    assert(u.last() == c);
    assert forall|i: int| 0 <= i < u.len() implies text::is_digit(#[trigger] u[i]) by {
        if i < t.len() {
            assert(u[i] == t[i]);
        }
    }
    let one = seq![c];
    assert(one.drop_last() =~= Seq::<char>::empty());
    assert(text::number(Seq::empty()) == 0);
    assert((seq!['+'] + t).skip(1) =~= t);
}

/// A number is read only from digits, with a plus in front at most, and never above the limit.
pub proof fn law_only_digits_are_numbers(s: Seq<char>, max: nat)
    ensures
        text::uint(s, max) matches Some(n) ==> n <= max && s.len() > 0 && forall|i: int|
            0 <= i < s.len() ==> '0' <= #[trigger] s[i] <= '9' || (i == 0 && s[i] == '+'),
        text::uint(Seq::empty(), max) is None,
{
    if text::uint(s, max) is Some {
        let t = text::unsigned(s);
        assert forall|i: int| 0 <= i < s.len() implies '0' <= #[trigger] s[i] <= '9' || (i == 0
            && s[i] == '+') by {
            if s.len() > 1 && s[0] == '+' {
                if i > 0 {
                    assert(t[i - 1] == s[i]);
                    assert(text::is_digit(t[i - 1]));
                }
            } else {
                assert(text::is_digit(t[i]));
            }
        }
    }
}

/// Small letters: `A` to `Z` are made small, everything else stays.
pub proof fn law_lower_case(s: Seq<char>)
    ensures
        text::lowered(s).len() == s.len(),
        forall|i: int|
            0 <= i < s.len() ==> #[trigger] text::lowered(s)[i] == (if 'A' <= s[i] <= 'Z' {
                (s[i] as u32 + 32) as char
            } else {
                s[i]
            }),
        text::lowered(text::lowered(s)) == text::lowered(s),
{
    assert forall|i: int| 0 <= i < s.len() implies text::lowered(text::lowered(s))[i]
        == text::lowered(s)[i] by {
        let c = s[i];
        if 'A' <= c <= 'Z' {
            assert('a' <= text::lower(c) <= 'z');
        }
    }
    assert(text::lowered(text::lowered(s)) =~= text::lowered(s));
}

/// The order of texts: the first character that differs decides, and a text comes before one that
/// goes on from it.
pub proof fn law_order_of_texts(p: Seq<char>, c: char, d: char, x: Seq<char>, y: Seq<char>)
    requires
        c < d,
    ensures
        text::not_after(p.push(c) + x, p.push(d) + y),
        !text::not_after(p.push(d) + y, p.push(c) + x),
        text::not_after(p, p + x),
        x.len() > 0 ==> !text::not_after(p + x, p),
    decreases p.len(),
{
    let a = p.push(c) + x;
    let b = p.push(d) + y;
    if p.len() > 0 {
        law_order_of_texts(p.skip(1), c, d, x, y);
        assert(a.skip(1) =~= p.skip(1).push(c) + x);
        assert(b.skip(1) =~= p.skip(1).push(d) + y);
        assert((p + x).skip(1) =~= p.skip(1) + x);
    } else {
        assert(p + x =~= x);
    }
}

/// A text of words with white space between them has as many words as that.
pub proof fn law_words_are_counted(s: Seq<char>, gap: char, w: Seq<char>)
    requires
        text::is_space(gap),
        w.len() > 0,
        forall|i: int| 0 <= i < w.len() ==> !text::is_space(#[trigger] w[i]),
    ensures
        text::word_count(w) == 1,
        text::word_count(s.push(gap)) == text::word_count(s),
        text::word_count(s.push(gap) + w) == text::word_count(s) + 1,
    decreases w.len(),
{
    assert(s.push(gap).drop_last() =~= s);
    assert(s.push(gap).last() == gap);
    assert(text::word_count(s.push(gap)) == text::word_count(s));
    let t = w.drop_last();
    let x = s.push(gap) + w;
    assert(x.drop_last() =~= s.push(gap) + t);
    assert(x.last() == w[w.len() - 1]);
    if t.len() == 0 {
        assert(s.push(gap) + t =~= s.push(gap));
        assert(x[x.len() - 2] == gap);
        assert(!text::is_space(w[0]));
        assert(x.last() == w[0]);
        assert(text::word_count(x) == text::word_count(x.drop_last()) + 1);
        assert(t =~= Seq::<char>::empty());
        assert(text::word_count(t) == 0);
    } else {
        assert forall|i: int| 0 <= i < t.len() implies !text::is_space(#[trigger] t[i]) by {
            assert(t[i] == w[i]);
        }
        law_words_are_counted(s, gap, t);
        assert(x[x.len() - 2] == w[w.len() - 2]);
        assert(!text::is_space(w[w.len() - 2]));
        assert(!text::is_space(w[w.len() - 1]));
    }
}

/// The first word of a text is what stands between the white space in front and the next.
pub proof fn law_first_word(a: Seq<char>, w: Seq<char>, gap: char, rest: Seq<char>)
    requires
        forall|i: int| 0 <= i < a.len() ==> text::is_space(#[trigger] a[i]),
        w.len() > 0,
        forall|i: int| 0 <= i < w.len() ==> !text::is_space(#[trigger] w[i]),
        text::is_space(gap),
    ensures
        text::first_word_of(a + w) == Some(w),
        text::first_word_of(a + w.push(gap) + rest) == Some(w),
{
    lemma_trim_front(a, w);
    let s = w.push(gap) + rest;
    assert(a + w.push(gap) + rest =~= a + s);
    lemma_trim_front(a, s);
    assert(s[0] == w[0]);
    assert(!text::is_space(w[0]));
    lemma_word_front(w, gap, rest);
}

proof fn lemma_word_front(w: Seq<char>, gap: char, rest: Seq<char>)
    requires
        forall|i: int| 0 <= i < w.len() ==> !text::is_space(#[trigger] w[i]),
        text::is_space(gap),
    ensures
        text::up_to_space(w) == w,
        text::up_to_space(w.push(gap) + rest) == w,
    decreases w.len(),
{
    let s = w.push(gap) + rest;
    if w.len() > 0 {
        let t = w.skip(1);
        assert forall|i: int| 0 <= i < t.len() implies !text::is_space(#[trigger] t[i]) by {
            assert(t[i] == w[i + 1]);
        }
        lemma_word_front(t, gap, rest);
        assert(s.skip(1) =~= t.push(gap) + rest);
        assert(s[0] == w[0]);
        assert(seq![w[0]] + t =~= w);
    } else {
        assert(s[0] == gap);
        assert(w =~= Seq::<char>::empty());
    }
}

/// Lines that end in a line feed, whether or not a carriage return stands before it, are read as
/// they are.
pub proof fn law_lines_are_read(front: Seq<char>, line: Seq<char>)
    requires
        !line.contains('\n'),
        line.len() > 0 ==> line.last() != '\r',
    ensures
        text::line_seq(Seq::empty()) == Seq::<Seq<char>>::empty(),
        text::line_seq(front.push('\n') + line.push('\n')) == text::line_seq(
            front.push('\n'),
        ).push(line),
        text::line_seq(front.push('\n') + line.push('\r').push('\n')) == text::line_seq(
            front.push('\n'),
        ).push(line),
        line.len() > 0 ==> text::line_seq(front.push('\n') + line) == text::line_seq(
            front.push('\n'),
        ).push(line),
{
    let e = Seq::<char>::empty();
    let pf = text::pieces(front, '\n', '\n');
    assert(text::pieces(e, '\n', '\n') =~= seq![e]);
    assert(text::line_seq(e) =~= Seq::<Seq<char>>::empty());
    let base = front.push('\n');
    assert(base + e =~= base);
    text::lemma_pieces_around(front, e, '\n');
    let pb = text::pieces(base, '\n', '\n');
    assert(pb =~= pf.push(e));
    assert(pb.drop_last() =~= pf);
    let cut = |l: Seq<char>| text::without_cr(l);
    assert(text::line_seq(base) =~= pf.map_values(cut));
    text::lemma_pieces_whole(line, '\n');
    let cr = line.push('\r');
    assert forall|i: int| 0 <= i < cr.len() implies cr[i] != '\n' by {
        if i < line.len() {
            assert(line[i] != '\n');
        }
    }
    text::lemma_pieces_whole(cr, '\n');
    assert(cr.drop_last() =~= line);
    // The last line without an end.
    text::lemma_pieces_around(front, line, '\n');
    let p1 = text::pieces(base + line, '\n', '\n');
    assert(p1 =~= pf.push(line));
    assert(p1.drop_last() =~= pf);
    // With a line feed.
    let s2 = base + line.push('\n');
    assert(s2 =~= (base + line).push('\n') + e);
    text::lemma_pieces_around(base + line, e, '\n');
    let p2 = text::pieces(s2, '\n', '\n');
    assert(p2 =~= pf.push(line).push(e));
    assert(p2.drop_last() =~= pf.push(line));
    assert(text::line_seq(s2) =~= pf.map_values(cut).push(line));
    // With a carriage return as well.
    text::lemma_pieces_around(front, cr, '\n');
    let s3 = base + cr.push('\n');
    assert(s3 =~= (base + cr).push('\n') + e);
    text::lemma_pieces_around(base + cr, e, '\n');
    let p3 = text::pieces(s3, '\n', '\n');
    assert(p3 =~= pf.push(cr).push(e));
    assert(p3.drop_last() =~= pf.push(cr));
    assert(text::line_seq(s3) =~= pf.map_values(cut).push(line));
}

} // verus!
