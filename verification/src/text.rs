//! Operations on text, stated over sequences of characters.

use vstd::prelude::*;

verus! {

/// `String::push` appends one character at the end of the string.
pub assume_specification[ String::push ](s: &mut String, c: char)
    ensures
        final(s)@ == old(s)@.push(c),
;

/// The characters of a vector of strings, string by string.
pub open spec fn views(v: Seq<String>) -> Seq<Seq<char>> {
    v.map_values(|s: String| s@)
}

/// The view of an optional string.
pub open spec fn opt_view(s: Option<String>) -> Option<Seq<char>> {
    match s {
        Some(t) => Some(t@),
        None => None,
    }
}

/// The characters of `s` as a vector.
pub fn chars(s: &str) -> (r: Vec<char>)
    ensures
        r@ == s@,
{
    let mut r: Vec<char> = Vec::new();
    for c in it: s.chars()
        invariant
            it.seq() == s@,
            r@ == s@.take(it.index() as int),
    {
        assert(s@.take(it.index() as int + 1) =~= s@.take(it.index() as int).push(c));
        r.push(c);
    }
    assert(s@.take(s@.len() as int) =~= s@);
    r
}

/// The string made of the characters of `v`.
pub fn string(v: &Vec<char>) -> (r: String)
    ensures
        r@ == v@,
{
    let mut r = String::new();
    for i in 0..v.len()
        invariant
            r@ == v@.take(i as int),
    {
        assert(v@.take(i + 1) =~= v@.take(i as int).push(v[i as int]));
        r.push(v[i]);
    }
    assert(v@.take(v@.len() as int) =~= v@);
    r
}

/// The characters of `v` from `from` up to, not including, `to`.
pub fn part(v: &Vec<char>, from: usize, to: usize) -> (r: String)
    requires
        from <= to <= v@.len(),
    ensures
        r@ == v@.subrange(from as int, to as int),
{
    let mut r = String::new();
    for i in from..to
        invariant
            from <= i <= to <= v@.len(),
            r@ == v@.subrange(from as int, i as int),
    {
        assert(v@.subrange(from as int, i + 1) =~= v@.subrange(from as int, i as int).push(
            v[i as int],
        ));
        r.push(v[i]);
    }
    r
}

/// Whether two strings hold the same characters.
pub fn same(a: &str, b: &str) -> (r: bool)
    ensures
        r == (a@ == b@),
{
    let x = chars(a);
    let y = chars(b);
    if x.len() != y.len() {
        return false;
    }
    for i in 0..x.len()
        invariant
            x@ == a@,
            y@ == b@,
            x@.len() == y@.len(),
            x@.take(i as int) == y@.take(i as int),
    {
        if x[i] != y[i] {
            assert(a@[i as int] != b@[i as int]);
            return false;
        }
        assert(x@.take(i + 1) =~= x@.take(i as int).push(x[i as int]));
        assert(y@.take(i + 1) =~= y@.take(i as int).push(y[i as int]));
    }
    assert(x@.take(x@.len() as int) =~= x@);
    assert(y@.take(y@.len() as int) =~= y@);
    true
}

// ---------------------------------------------------------------------------
// White space
// ---------------------------------------------------------------------------

/// The characters with the Unicode property `White_Space`.
pub open spec fn is_space(c: char) -> bool {
    let n = c as u32;
    ||| 0x09 <= n <= 0x0d
    ||| n == 0x20
    ||| n == 0x85
    ||| n == 0xa0
    ||| n == 0x1680
    ||| 0x2000 <= n <= 0x200a
    ||| n == 0x2028
    ||| n == 0x2029
    ||| n == 0x202f
    ||| n == 0x205f
    ||| n == 0x3000
}

/// Whether `c` is white space.
pub fn white(c: char) -> (r: bool)
    ensures
        r == is_space(c),
{
    let n: u32 = c as u32;
    (0x09 <= n && n <= 0x0d) || n == 0x20 || n == 0x85 || n == 0xa0 || n == 0x1680 || (0x2000 <= n
        && n <= 0x200a) || n == 0x2028 || n == 0x2029 || n == 0x202f || n == 0x205f || n == 0x3000
}

/// `s` without its leading white space.
pub open spec fn trimmed_start(s: Seq<char>) -> Seq<char>
    decreases s.len(),
{
    if s.len() > 0 && is_space(s[0]) {
        trimmed_start(s.skip(1))
    } else {
        s
    }
}

/// `s` without its trailing white space.
pub open spec fn trimmed_end(s: Seq<char>) -> Seq<char>
    decreases s.len(),
{
    if s.len() > 0 && is_space(s.last()) {
        trimmed_end(s.drop_last())
    } else {
        s
    }
}

/// `s` without white space at either end.
pub open spec fn trimmed(s: Seq<char>) -> Seq<char> {
    trimmed_end(trimmed_start(s))
}

/// Whether nothing is left of `s` once it is trimmed.
pub open spec fn blank(s: Seq<char>) -> bool {
    trimmed(s).len() == 0
}

/// `s` without white space at either end.
pub fn trim(s: &str) -> (r: String)
    ensures
        r@ == trimmed(s@),
{
    let v = chars(s);
    let mut from: usize = 0;
    assert(v@.skip(0) =~= v@);
    while from < v.len() && white(v[from])
        invariant
            from <= v@.len(),
            trimmed_start(v@) == trimmed_start(v@.skip(from as int)),
        decreases v@.len() - from,
    {
        assert(v@.skip(from as int).skip(1) =~= v@.skip(from + 1));
        from += 1;
    }
    let ghost t = v@.skip(from as int);
    assert(trimmed_start(v@) == t);
    let mut to: usize = v.len();
    assert(t.take(to - from) =~= t);
    while to > from && white(v[to - 1])
        invariant
            from <= to <= v@.len(),
            t == v@.skip(from as int),
            trimmed_end(t) == trimmed_end(t.take(to - from)),
        decreases to,
    {
        assert(t.take(to - from).drop_last() =~= t.take(to - 1 - from));
        to -= 1;
    }
    assert(t.take(to - from) =~= v@.subrange(from as int, to as int));
    part(&v, from, to)
}

/// Whether nothing is left of `s` once it is trimmed.
pub fn is_blank(s: &str) -> (r: bool)
    ensures
        r == blank(s@),
{
    let t = trim(s);
    t.as_str().is_empty()
}

// ---------------------------------------------------------------------------
// Searching
// ---------------------------------------------------------------------------

/// Whether `p` stands in `s` at position `i`.
pub open spec fn occurs_at(s: Seq<char>, p: Seq<char>, i: int) -> bool {
    0 <= i && i + p.len() <= s.len() && s.subrange(i, i + p.len()) == p
}

/// The first position at or after `i` where `p` stands in `s`.
pub open spec fn first_from(s: Seq<char>, p: Seq<char>, i: int) -> Option<int>
    decreases s.len() - i + 1,
{
    if i < 0 || i + p.len() > s.len() {
        None
    } else if occurs_at(s, p, i) {
        Some(i)
    } else {
        first_from(s, p, i + 1)
    }
}

/// The first position where `p` stands in `s`.
pub open spec fn first(s: Seq<char>, p: Seq<char>) -> Option<int> {
    first_from(s, p, 0)
}

/// Whether `p` stands somewhere in `s`.
pub open spec fn has(s: Seq<char>, p: Seq<char>) -> bool {
    first(s, p) is Some
}

/// The search for a text goes past places where it does not stand.
pub proof fn lemma_first_skips(s: Seq<char>, p: Seq<char>, i: int, n: int)
    requires
        0 <= i <= n,
        n + p.len() <= s.len(),
        forall|j: int| i <= j < n ==> !occurs_at(s, p, j),
    ensures
        first_from(s, p, i) == first_from(s, p, n),
    decreases n - i,
{
    if i < n {
        lemma_first_skips(s, p, i + 1, n);
    }
}

/// A text that stands somewhere is found at or before that place.
pub proof fn lemma_present(s: Seq<char>, p: Seq<char>, i: int, k: int)
    requires
        0 <= i <= k,
        occurs_at(s, p, k),
    ensures
        first_from(s, p, i) is Some,
    decreases k - i,
{
    if i < k {
        lemma_present(s, p, i + 1, k);
    }
}

/// A text that stands nowhere from some position on is not found there.
pub proof fn lemma_absent(s: Seq<char>, p: Seq<char>, i: int)
    requires
        forall|k: int| i <= k ==> !#[trigger] occurs_at(s, p, k),
    ensures
        first_from(s, p, i) is None,
    decreases s.len() - i + 1,
{
    if i >= 0 && i + p.len() <= s.len() {
        assert(!occurs_at(s, p, i));
        lemma_absent(s, p, i + 1);
    }
}

/// Whether `p` stands in `v` at position `i`.
fn stands_at(v: &Vec<char>, p: &Vec<char>, i: usize) -> (r: bool)
    requires
        i + p@.len() <= v@.len(),
    ensures
        r == occurs_at(v@, p@, i as int),
{
    let n: usize = v.len();
    for j in 0..p.len()
        invariant
            n == v@.len(),
            i + p@.len() <= n,
            forall|k: int| 0 <= k < j ==> v@[i + k] == p@[k],
    {
        if v[i + j] != p[j] {
            assert(v@.subrange(i as int, i + p@.len())[j as int] == v@[i + j]);
            return false;
        }
    }
    assert(v@.subrange(i as int, i + p@.len()) =~= p@);
    true
}

/// The first position where `p` stands in `v`, at or after `from`.
pub fn find_from(v: &Vec<char>, p: &Vec<char>, from: usize) -> (r: Option<usize>)
    requires
        from <= v@.len(),
    ensures
        match r {
            Some(i) => first_from(v@, p@, from as int) == Some(i as int) && from <= i && i + p@.len()
                <= v@.len(),
            None => first_from(v@, p@, from as int) is None,
        },
{
    let mut i: usize = from;
    while p.len() <= v.len() - i
        invariant
            from <= i <= v@.len(),
            first_from(v@, p@, from as int) == first_from(v@, p@, i as int),
        decreases v@.len() - i,
    {
        if stands_at(v, p, i) {
            return Some(i);
        }
        if i == v.len() {
            assert(first_from(v@, p@, i + 1) is None);
            return None;
        }
        i += 1;
    }
    None
}

/// Whether `p` stands somewhere in `s`.
pub fn contains(s: &str, p: &str) -> (r: bool)
    ensures
        r == has(s@, p@),
{
    let v = chars(s);
    let q = chars(p);
    match find_from(&v, &q, 0) {
        Some(_) => true,
        None => false,
    }
}

/// Whether `p` begins `s`.
pub open spec fn begins(s: Seq<char>, p: Seq<char>) -> bool {
    occurs_at(s, p, 0)
}

/// Whether `p` ends `s`.
pub open spec fn ends(s: Seq<char>, p: Seq<char>) -> bool {
    occurs_at(s, p, s.len() - p.len())
}

/// Whether `p` begins `s`.
pub fn starts_with(s: &str, p: &str) -> (r: bool)
    ensures
        r == begins(s@, p@),
{
    let v = chars(s);
    let q = chars(p);
    q.len() <= v.len() && stands_at(&v, &q, 0)
}

/// What follows the prefix `p` of `s`.
pub fn strip_prefix(s: &str, p: &str) -> (r: Option<String>)
    ensures
        opt_view(r) == (if begins(s@, p@) { Some(s@.skip(p@.len() as int)) } else { None }),
{
    let v = chars(s);
    let q = chars(p);
    if q.len() <= v.len() && stands_at(&v, &q, 0) {
        assert(v@.subrange(q@.len() as int, v@.len() as int) =~= s@.skip(p@.len() as int));
        Some(part(&v, q.len(), v.len()))
    } else {
        None
    }
}

/// What precedes the suffix `p` of `s`.
pub fn strip_suffix(s: &str, p: &str) -> (r: Option<String>)
    ensures
        opt_view(r) == (if ends(s@, p@) { Some(s@.take(s@.len() - p@.len())) } else { None }),
{
    let v = chars(s);
    let q = chars(p);
    if q.len() <= v.len() && stands_at(&v, &q, v.len() - q.len()) {
        assert(v@.subrange(0, v@.len() - q@.len()) =~= s@.take(s@.len() - p@.len()));
        Some(part(&v, 0, v.len() - q.len()))
    } else {
        None
    }
}

/// The two parts of `s` around the first place where `p` stands.
pub open spec fn halves(s: Seq<char>, p: Seq<char>) -> Option<(Seq<char>, Seq<char>)> {
    match first(s, p) {
        Some(i) => Some((s.take(i), s.skip(i + p.len()))),
        None => None,
    }
}

/// The view of an optional pair of strings.
pub open spec fn pair_view(r: Option<(String, String)>) -> Option<(Seq<char>, Seq<char>)> {
    match r {
        Some((a, b)) => Some((a@, b@)),
        None => None,
    }
}

/// The two parts of `s` around the first place where `p` stands.
pub fn split_once(s: &str, p: &str) -> (r: Option<(String, String)>)
    ensures
        pair_view(r) == halves(s@, p@),
{
    let v = chars(s);
    let q = chars(p);
    match find_from(&v, &q, 0) {
        Some(i) => {
            assert(v@.subrange(0, i as int) =~= s@.take(i as int));
            assert(v@.subrange(i + q@.len(), v@.len() as int) =~= s@.skip(i + p@.len()));
            let n: usize = v.len();
            Some((part(&v, 0, i), part(&v, i + q.len(), n)))
        },
        None => None,
    }
}

// ---------------------------------------------------------------------------
// Cutting and joining
// ---------------------------------------------------------------------------

/// `s` cut at every `a` and every `b`: one piece more than there are cuts.
pub open spec fn pieces(s: Seq<char>, a: char, b: char) -> Seq<Seq<char>>
    decreases s.len(),
{
    if s.len() == 0 {
        seq![Seq::<char>::empty()]
    } else {
        let p = pieces(s.drop_last(), a, b);
        if s.last() == a || s.last() == b {
            p.push(Seq::<char>::empty())
        } else {
            p.drop_last().push(p.last().push(s.last()))
        }
    }
}

/// There is always at least one piece.
pub proof fn lemma_pieces_some(s: Seq<char>, a: char, b: char)
    ensures
        pieces(s, a, b).len() >= 1,
    decreases s.len(),
{
    if s.len() > 0 {
        lemma_pieces_some(s.drop_last(), a, b);
    }
}

/// `s` cut at every `a` and every `b`.
pub fn split(s: &str, a: char, b: char) -> (r: Vec<String>)
    ensures
        views(r@) == pieces(s@, a, b),
        r@.len() >= 1,
{
    let v = chars(s);
    let mut r: Vec<String> = Vec::new();
    let mut current = String::new();
    assert(v@.take(0) =~= Seq::<char>::empty());
    assert(views(r@).push(current@) =~= pieces(v@.take(0), a, b));
    for i in 0..v.len()
        invariant
            views(r@).push(current@) == pieces(v@.take(i as int), a, b),
    {
        let c: char = v[i];
        let ghost before = views(r@).push(current@);
        assert(before.last() == current@ && before.drop_last() =~= views(r@));
        assert(v@.take(i + 1).drop_last() =~= v@.take(i as int));
        if c == a || c == b {
            r.push(current);
            assert(views(r@) =~= before);
            current = String::new();
        } else {
            current.push(c);
        }
    }
    assert(v@.take(v@.len() as int) =~= v@);
    let ghost before = views(r@).push(current@);
    r.push(current);
    assert(views(r@) =~= before);
    r
}

/// A text in which no cut falls is one piece.
pub proof fn lemma_pieces_whole(s: Seq<char>, a: char)
    requires
        !s.contains(a),
    ensures
        pieces(s, a, a) == seq![s],
    decreases s.len(),
{
    if s.len() > 0 {
        let t = s.drop_last();
        assert forall|i: int| 0 <= i < t.len() implies t[i] != a by {
            assert(t[i] == s[i]);
        }
        assert(s[s.len() - 1] != a);
        lemma_pieces_whole(t, a);
        assert(seq![t].drop_last().push(t.push(s.last())) =~= seq![t.push(s.last())]);
        assert(t.push(s.last()) =~= s);
    } else {
        assert(s =~= Seq::<char>::empty());
    }
}

/// The pieces of two texts with a cut between them are those of the first, then those of the
/// second.
pub proof fn lemma_pieces_around(x: Seq<char>, y: Seq<char>, a: char)
    ensures
        pieces(x.push(a) + y, a, a) == pieces(x, a, a) + pieces(y, a, a),
    decreases y.len(),
{
    let s = x.push(a) + y;
    if y.len() == 0 {
        assert(s =~= x.push(a));
        assert(s.drop_last() =~= x);
        assert(pieces(x, a, a).push(Seq::<char>::empty()) =~= pieces(x, a, a) + pieces(y, a, a));
    } else {
        let z = y.drop_last();
        lemma_pieces_around(x, z, a);
        lemma_pieces_some(z, a, a);
        assert(s.drop_last() =~= x.push(a) + z);
        let p = pieces(x, a, a);
        let q = pieces(z, a, a);
        assert((p + q).push(Seq::<char>::empty()) =~= p + q.push(Seq::<char>::empty()));
        assert((p + q).drop_last().push((p + q).last().push(y.last())) =~= p + q.drop_last().push(
            q.last().push(y.last()),
        ));
    }
}

/// Cutting a joined text where it was joined gives the parts back.
pub proof fn lemma_pieces_joined(parts: Seq<Seq<char>>, a: char)
    requires
        parts.len() > 0,
        forall|i: int| 0 <= i < parts.len() ==> !(#[trigger] parts[i]).contains(a),
    ensures
        pieces(joined(parts, seq![a]), a, a) == parts,
    decreases parts.len(),
{
    if parts.len() == 1 {
        lemma_pieces_whole(parts[0], a);
        assert(seq![parts[0]] =~= parts);
    } else {
        let front = parts.drop_last();
        assert forall|i: int| 0 <= i < front.len() implies !(#[trigger] front[i]).contains(a) by {
            assert(front[i] == parts[i]);
        }
        lemma_pieces_joined(front, a);
        lemma_pieces_whole(parts[parts.len() - 1], a);
        let x = joined(front, seq![a]);
        assert(x + seq![a] + parts.last() =~= x.push(a) + parts.last());
        lemma_pieces_around(x, parts.last(), a);
        assert(front + seq![parts.last()] =~= parts);
    }
}

/// No piece holds a character at which the text is cut.
pub proof fn lemma_pieces_clean(s: Seq<char>, a: char, b: char)
    ensures
        forall|i: int|
            0 <= i < pieces(s, a, b).len() ==> !(#[trigger] pieces(s, a, b)[i]).contains(a)
                && !pieces(s, a, b)[i].contains(b),
    decreases s.len(),
{
    let r = pieces(s, a, b);
    if s.len() > 0 {
        lemma_pieces_clean(s.drop_last(), a, b);
        lemma_pieces_some(s.drop_last(), a, b);
        let p = pieces(s.drop_last(), a, b);
        let c = s.last();
        assert forall|i: int| 0 <= i < r.len() implies !(#[trigger] r[i]).contains(a)
            && !r[i].contains(b) by {
            if c == a || c == b {
                if i < p.len() {
                    assert(r[i] == p[i]);
                }
            } else if i < p.len() - 1 {
                assert(r[i] == p[i]);
            } else {
                let l = p[p.len() - 1];
                assert(r[i] == l.push(c));
                assert forall|k: int| 0 <= k < r[i].len() implies r[i][k] != a && r[i][k] != b by {
                    if k < l.len() {
                        assert(l[k] == r[i][k]);
                    }
                }
            }
        }
    }
}

/// A line that a line feed ends, without a carriage return before it.
pub open spec fn without_cr(s: Seq<char>) -> Seq<char> {
    if s.len() > 0 && s.last() == '\r' {
        s.drop_last()
    } else {
        s
    }
}

/// The lines of `s`: each ends at a line feed, which a carriage return may precede; what follows
/// the last line feed is a line unless it is empty.
pub open spec fn line_seq(s: Seq<char>) -> Seq<Seq<char>> {
    let p = pieces(s, '\n', '\n');
    let ended = p.drop_last().map_values(|l: Seq<char>| without_cr(l));
    if p.last().len() == 0 {
        ended
    } else {
        ended.push(p.last())
    }
}

/// The lines of `s`.
pub fn lines(s: &str) -> (r: Vec<String>)
    ensures
        views(r@) == line_seq(s@),
{
    let p = split(s, '\n', '\n');
    let ghost all = pieces(s@, '\n', '\n');
    let n: usize = p.len();
    let mut r: Vec<String> = Vec::new();
    for i in 0..n - 1
        invariant
            n >= 1,
            n == p@.len(),
            views(p@) == all,
            views(r@) == all.take(i as int).map_values(|l: Seq<char>| without_cr(l)),
    {
        let v = chars(p[i].as_str());
        assert(all[i as int] == v@);
        let ghost before = views(r@);
        if v.len() > 0 && v[v.len() - 1] == '\r' {
            let l = part(&v, 0, v.len() - 1);
            assert(v@.subrange(0, v@.len() - 1) =~= v@.drop_last());
            r.push(l);
        } else {
            r.push(string(&v));
        }
        assert(views(r@) =~= before.push(without_cr(all[i as int])));
        assert(all.take(i + 1).map_values(|l: Seq<char>| without_cr(l)) =~= before.push(
            without_cr(all[i as int]),
        ));
    }
    assert(all.take(n - 1) =~= all.drop_last());
    let last = p[n - 1].as_str();
    assert(last@ == all.last());
    if !last.is_empty() {
        let ghost before = views(r@);
        r.push(last.to_string());
        assert(views(r@) =~= before.push(all.last()));
    }
    r
}

/// The parts one after the other, with `sep` between two of them.
pub open spec fn joined(parts: Seq<Seq<char>>, sep: Seq<char>) -> Seq<char>
    decreases parts.len(),
{
    if parts.len() == 0 {
        Seq::<char>::empty()
    } else if parts.len() == 1 {
        parts[0]
    } else {
        joined(parts.drop_last(), sep) + sep + parts.last()
    }
}

/// The parts one after the other, with `sep` between two of them.
pub fn join(parts: &Vec<String>, sep: &str) -> (r: String)
    ensures
        r@ == joined(views(parts@), sep@),
{
    let mut r = String::new();
    let ghost all = views(parts@);
    for i in 0..parts.len()
        invariant
            all == views(parts@),
            r@ == joined(all.take(i as int), sep@),
    {
        assert(all.take(i + 1).drop_last() =~= all.take(i as int));
        assert(all[i as int] == parts[i as int]@);
        if i > 0 {
            r.append(sep);
        }
        r.append(parts[i].as_str());
        if i == 0 {
            assert(r@ =~= parts[0]@);
        }
    }
    assert(all.take(all.len() as int) =~= all);
    r
}

/// How many words, runs of characters other than white space, `s` holds.
pub open spec fn word_count(s: Seq<char>) -> nat
    decreases s.len(),
{
    if s.len() == 0 {
        0
    } else if !is_space(s.last()) && (s.len() == 1 || is_space(s[s.len() - 2])) {
        word_count(s.drop_last()) + 1
    } else {
        word_count(s.drop_last())
    }
}

/// How many words `s` holds.
pub fn count_words(s: &str) -> (r: usize)
    ensures
        r == word_count(s@),
{
    let v = chars(s);
    let mut n: usize = 0;
    let mut in_word = false;
    for i in 0..v.len()
        invariant
            n <= i,
            n == word_count(v@.take(i as int)),
            in_word == (i > 0 && !is_space(v@[i - 1])),
    {
        assert(v@.take(i + 1).drop_last() =~= v@.take(i as int));
        if white(v[i]) {
            in_word = false;
        } else {
            if !in_word {
                n += 1;
            }
            in_word = true;
        }
    }
    assert(v@.take(v@.len() as int) =~= v@);
    n
}

/// The longest beginning of `s` that holds no white space.
pub open spec fn up_to_space(s: Seq<char>) -> Seq<char>
    decreases s.len(),
{
    if s.len() == 0 || is_space(s[0]) {
        Seq::<char>::empty()
    } else {
        seq![s[0]] + up_to_space(s.skip(1))
    }
}

/// The first word of `s`.
pub open spec fn first_word_of(s: Seq<char>) -> Option<Seq<char>> {
    let t = trimmed_start(s);
    if t.len() == 0 {
        None
    } else {
        Some(up_to_space(t))
    }
}

/// The first word of `s`.
pub fn first_word(s: &str) -> (r: Option<String>)
    ensures
        opt_view(r) == first_word_of(s@),
{
    let v = chars(s);
    let mut from: usize = 0;
    assert(v@.skip(0) =~= v@);
    while from < v.len() && white(v[from])
        invariant
            from <= v@.len(),
            trimmed_start(v@) == trimmed_start(v@.skip(from as int)),
        decreases v@.len() - from,
    {
        assert(v@.skip(from as int).skip(1) =~= v@.skip(from + 1));
        from += 1;
    }
    if from == v.len() {
        return None;
    }
    let ghost t = v@.skip(from as int);
    let mut to: usize = from;
    assert(v@.subrange(from as int, to as int) + up_to_space(v@.skip(to as int)) =~= up_to_space(
        t,
    ));
    while to < v.len() && !white(v[to])
        invariant
            from <= to <= v@.len(),
            v@.subrange(from as int, to as int) + up_to_space(v@.skip(to as int)) == up_to_space(t),
        decreases v@.len() - to,
    {
        assert(v@.skip(to as int).skip(1) =~= v@.skip(to + 1));
        assert(v@.subrange(from as int, to as int) + (seq![v@[to as int]] + up_to_space(
            v@.skip(to + 1),
        )) =~= v@.subrange(from as int, to + 1) + up_to_space(v@.skip(to + 1)));
        to += 1;
    }
    assert(up_to_space(v@.skip(to as int)) =~= Seq::<char>::empty());
    assert(v@.subrange(from as int, to as int) =~= up_to_space(t));
    Some(part(&v, from, to))
}

// ---------------------------------------------------------------------------
// Numbers
// ---------------------------------------------------------------------------

/// Whether `c` is one of the ten decimal digits.
pub open spec fn is_digit(c: char) -> bool {
    '0' <= c <= '9'
}

/// Whether `s` holds decimal digits only.
pub open spec fn all_digits(s: Seq<char>) -> bool {
    forall|i: int| 0 <= i < s.len() ==> is_digit(#[trigger] s[i])
}

/// The number that the digits of `s` write.
pub open spec fn number(s: Seq<char>) -> nat
    decreases s.len(),
{
    if s.len() == 0 {
        0
    } else {
        number(s.drop_last()) * 10 + (s.last() as nat - '0' as nat) as nat
    }
}

/// `s` without a leading plus sign that something follows.
pub open spec fn unsigned(s: Seq<char>) -> Seq<char> {
    if s.len() > 1 && s[0] == '+' {
        s.skip(1)
    } else {
        s
    }
}

/// The number not above `max` that `s` writes: decimal digits, which a plus sign may precede.
pub open spec fn uint(s: Seq<char>, max: nat) -> Option<nat> {
    let t = unsigned(s);
    if t.len() > 0 && all_digits(t) && number(t) <= max {
        Some(number(t))
    } else {
        None
    }
}

proof fn lemma_number_grows(s: Seq<char>, k: int)
    requires
        all_digits(s),
        0 <= k <= s.len(),
    ensures
        number(s.take(k)) <= number(s),
    decreases s.len(),
{
    if k == s.len() {
        assert(s.take(k) =~= s);
    } else {
        let t = s.drop_last();
        assert(is_digit(s[s.len() - 1]));
        assert forall|i: int| 0 <= i < t.len() implies is_digit(#[trigger] t[i]) by {
            assert(t[i] == s[i]);
        }
        assert(t.take(k) =~= s.take(k));
        lemma_number_grows(t, k);
    }
}

/// The number not above `max` that `s` writes.
pub fn parse_uint(s: &str, max: u64) -> (r: Option<u64>)
    ensures
        match r {
            Some(n) => uint(s@, max as nat) == Some(n as nat),
            None => uint(s@, max as nat) is None,
        },
{
    let v = chars(s);
    let from: usize = if v.len() > 1 && v[0] == '+' {
        1
    } else {
        0
    };
    let ghost t = unsigned(s@);
    assert(v@.skip(from as int) =~= t);
    if v.len() == from {
        return None;
    }
    let mut n: u64 = 0;
    assert(t.take(0) =~= Seq::<char>::empty());
    for i in from..v.len()
        invariant
            from <= i <= v@.len(),
            v@ == s@,
            t == v@.skip(from as int),
            t == unsigned(s@),
            n == number(t.take(i - from)),
            n <= max,
            forall|k: int| 0 <= k < i - from ==> is_digit(#[trigger] t[k]),
    {
        let c: char = v[i];
        assert(t[i - from] == c);
        assert(t.take(i + 1 - from).drop_last() =~= t.take(i - from));
        if c < '0' || c > '9' {
            assert(!is_digit(t[i - from]));
            return None;
        }
        let d: u64 = (c as u32 - '0' as u32) as u64;
        assert(number(t.take(i + 1 - from)) == n * 10 + d);
        if n > (u64::MAX - d) / 10 || n * 10 + d > max {
            proof {
                assert(n * 10 + d > max);
                if all_digits(t) {
                    lemma_number_grows(t, i + 1 - from);
                }
            }
            return None;
        }
        n = n * 10 + d;
    }
    assert(t.take(v@.len() - from) =~= t);
    assert(all_digits(t));
    Some(n)
}

/// The decimal digits of `n`, without leading zeros.
pub open spec fn digits(n: nat) -> Seq<char>
    decreases n,
{
    if n < 10 {
        seq![('0' as nat + n) as char]
    } else {
        digits(n / 10).push(('0' as nat + n % 10) as char)
    }
}

/// The digit of value `d`.
fn digit(d: u64) -> (c: char)
    requires
        d < 10,
    ensures
        c == ('0' as nat + d) as char,
{
    if d == 0 {
        '0'
    } else if d == 1 {
        '1'
    } else if d == 2 {
        '2'
    } else if d == 3 {
        '3'
    } else if d == 4 {
        '4'
    } else if d == 5 {
        '5'
    } else if d == 6 {
        '6'
    } else if d == 7 {
        '7'
    } else if d == 8 {
        '8'
    } else {
        '9'
    }
}

/// The decimal digits of `n`.
pub fn decimal(n: u64) -> (r: String)
    ensures
        r@ == digits(n as nat),
    decreases n,
{
    let mut r = if n < 10 {
        String::new()
    } else {
        decimal(n / 10)
    };
    r.push(digit(n % 10));
    if n < 10 {
        assert(r@ =~= digits(n as nat));
    }
    r
}

/// `n` written with at least two digits.
pub open spec fn two_digits(n: nat) -> Seq<char> {
    if n < 10 {
        "0"@ + digits(n)
    } else {
        digits(n)
    }
}

/// `n` written with at least two digits.
pub fn two_digit(n: u64) -> (r: String)
    ensures
        r@ == two_digits(n as nat),
{
    let mut r = String::new();
    if n < 10 {
        r.append("0");
    }
    let d = decimal(n);
    r.append(d.as_str());
    assert(r@ =~= two_digits(n as nat));
    r
}

// ---------------------------------------------------------------------------
// Case and order
// ---------------------------------------------------------------------------

/// `c` with an ASCII capital turned into its small letter.
pub open spec fn lower(c: char) -> char {
    if 'A' <= c <= 'Z' {
        (c as u32 + 32) as char
    } else {
        c
    }
}

/// `c` with an ASCII capital turned into its small letter.
pub fn ascii_lower(c: char) -> (r: char)
    ensures
        r == lower(c),
{
    if 'A' <= c && c <= 'Z' {
        let n: u8 = c as u8;
        (n + 32) as char
    } else {
        c
    }
}

/// `s` with its ASCII capitals turned into small letters.
pub open spec fn lowered(s: Seq<char>) -> Seq<char> {
    s.map_values(|c: char| lower(c))
}

/// Whether two strings are the same but for the case of ASCII letters.
pub fn eq_ignore_ascii_case(a: &str, b: &str) -> (r: bool)
    ensures
        r == (lowered(a@) == lowered(b@)),
{
    let x = chars(a);
    let y = chars(b);
    if x.len() != y.len() {
        assert(lowered(a@).len() != lowered(b@).len());
        return false;
    }
    for i in 0..x.len()
        invariant
            x@ == a@,
            y@ == b@,
            x@.len() == y@.len(),
            forall|k: int| 0 <= k < i ==> lower(x@[k]) == lower(y@[k]),
    {
        if ascii_lower(x[i]) != ascii_lower(y[i]) {
            assert(lowered(a@)[i as int] != lowered(b@)[i as int]);
            return false;
        }
    }
    assert(lowered(a@) =~= lowered(b@));
    true
}

/// Whether `a` stands before `b`, or is `b`, in the order of code points.
pub open spec fn not_after(a: Seq<char>, b: Seq<char>) -> bool
    decreases a.len(),
{
    if a.len() == 0 {
        true
    } else if b.len() == 0 {
        false
    } else if a[0] != b[0] {
        a[0] < b[0]
    } else {
        not_after(a.skip(1), b.skip(1))
    }
}

/// Whether `a` stands before `b`, or is `b`, in the order of code points.
pub fn le(a: &str, b: &str) -> (r: bool)
    ensures
        r == not_after(a@, b@),
{
    let x = chars(a);
    let y = chars(b);
    let mut i: usize = 0;
    assert(x@.skip(0) =~= x@);
    assert(y@.skip(0) =~= y@);
    while i < x.len() && i < y.len()
        invariant
            i <= x@.len(),
            i <= y@.len(),
            x@ == a@,
            y@ == b@,
            not_after(a@, b@) == not_after(x@.skip(i as int), y@.skip(i as int)),
        decreases x@.len() - i,
    {
        if x[i] != y[i] {
            return x[i] < y[i];
        }
        assert(x@.skip(i as int).skip(1) =~= x@.skip(i + 1));
        assert(y@.skip(i as int).skip(1) =~= y@.skip(i + 1));
        i += 1;
    }
    i == x.len()
}

/// The order is total.
pub proof fn lemma_order_total(a: Seq<char>, b: Seq<char>)
    ensures
        not_after(a, b) || not_after(b, a),
    decreases a.len(),
{
    if a.len() > 0 && b.len() > 0 && a[0] == b[0] {
        lemma_order_total(a.skip(1), b.skip(1));
    }
}

/// The order is transitive.
pub proof fn lemma_order_transitive(a: Seq<char>, b: Seq<char>, c: Seq<char>)
    requires
        not_after(a, b),
        not_after(b, c),
    ensures
        not_after(a, c),
    decreases a.len(),
{
    if a.len() > 0 && b.len() > 0 && c.len() > 0 && a[0] == b[0] && b[0] == c[0] {
        lemma_order_transitive(a.skip(1), b.skip(1), c.skip(1));
    }
}

/// A text without a character at its front, however often it stands there.
pub open spec fn stripped_front(s: Seq<char>, c: char) -> Seq<char>
    decreases s.len(),
{
    if s.len() > 0 && s[0] == c {
        stripped_front(s.skip(1), c)
    } else {
        s
    }
}

/// A text without a character at its end, however often it stands there.
pub open spec fn stripped_back(s: Seq<char>, c: char) -> Seq<char>
    decreases s.len(),
{
    if s.len() > 0 && s.last() == c {
        stripped_back(s.drop_last(), c)
    } else {
        s
    }
}

/// A text without a character at its front, however often it stands there.
pub fn strip_front(s: &str, c: char) -> (r: String)
    ensures
        r@ == stripped_front(s@, c),
{
    let v = chars(s);
    let mut i: usize = 0;
    assert(v@.skip(0) =~= v@);
    while i < v.len() && v[i] == c
        invariant
            i <= v@.len(),
            v@ == s@,
            stripped_front(s@, c) == stripped_front(v@.skip(i as int), c),
        decreases v@.len() - i,
    {
        assert(v@.skip(i as int).skip(1) =~= v@.skip(i + 1));
        i += 1;
    }
    let r = part(&v, i, v.len());
    assert(r@ =~= v@.skip(i as int));
    r
}

/// A text without a character at its end, however often it stands there.
pub fn strip_back(s: &str, c: char) -> (r: String)
    ensures
        r@ == stripped_back(s@, c),
{
    let v = chars(s);
    let mut n: usize = v.len();
    assert(v@.take(n as int) =~= v@);
    while n > 0 && v[n - 1] == c
        invariant
            n <= v@.len(),
            v@ == s@,
            stripped_back(s@, c) == stripped_back(v@.take(n as int), c),
        decreases n,
    {
        assert(v@.take(n as int).drop_last() =~= v@.take(n - 1));
        n -= 1;
    }
    let r = part(&v, 0, n);
    assert(r@ =~= v@.take(n as int));
    r
}

/// A number in decimal digits, with a sign where it is negative.
pub open spec fn signed_digits(n: int) -> Seq<char> {
    if n < 0 {
        "-"@ + digits((-n) as nat)
    } else {
        digits(n as nat)
    }
}

/// A number in decimal digits, with a sign where it is negative.
pub fn signed_decimal(n: i32) -> (r: String)
    ensures
        r@ == signed_digits(n as int),
{
    if n < 0 {
        let m: i64 = -(n as i64);
        let mut r = "-".to_string();
        let d = decimal(m as u64);
        r.append(d.as_str());
        r
    } else {
        decimal(n as u64)
    }
}

} // verus!
