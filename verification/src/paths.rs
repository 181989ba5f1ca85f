//! Paths with `/` between their components.

use crate::text;
use vstd::prelude::*;

verus! {

/// Whether a path starts at the root.
pub open spec fn absolute(p: Seq<char>) -> bool {
    p.len() > 0 && p[0] == '/'
}

/// `path` taken from `base`: an absolute path replaces it.
pub open spec fn joined_path(base: Seq<char>, path: Seq<char>) -> Seq<char> {
    if absolute(path) {
        path
    } else if base.len() == 0 || base.last() == '/' {
        base + path
    } else {
        base.push('/') + path
    }
}

/// `path` without separators, and components `.`, at its end.
pub open spec fn without_tail(path: Seq<char>) -> Seq<char>
    decreases path.len(),
{
    if path.len() > 0 && path.last() == '/' {
        without_tail(path.drop_last())
    } else if path.len() > 1 && path.last() == '.' && path[path.len() - 2] == '/' {
        without_tail(path.drop_last())
    } else {
        path
    }
}

/// How many characters stand behind the last separator of `path`.
pub open spec fn last_len(path: Seq<char>) -> nat
    decreases path.len(),
{
    if path.len() == 0 || path.last() == '/' {
        0
    } else {
        last_len(path.drop_last()) + 1
    }
}

/// The last component of a path, unless the path is empty, the root, or ends in `.` or `..`.
pub open spec fn name_of(path: Seq<char>) -> Option<Seq<char>> {
    let t = without_tail(path);
    let name = t.skip(t.len() - last_len(t));
    if t.len() == 0 || name == ".."@ || name == "."@ {
        None
    } else {
        Some(name)
    }
}

/// The path without its last component; neither the empty path nor the root has one.
pub open spec fn parent_of(path: Seq<char>) -> Option<Seq<char>> {
    let t = without_tail(path);
    if t.len() == 0 {
        None
    } else {
        let rest = t.take(t.len() - last_len(t));
        let short = without_tail(rest);
        if short.len() == 0 && absolute(rest) {
            Some("/"@)
        } else {
            Some(short)
        }
    }
}

/// Whether a piece between separators is a component that counts: it is not empty, and `.` counts
/// only where it opens a relative path.
pub open spec fn counts(piece: Seq<char>, opens: bool) -> bool {
    piece.len() > 0 && (piece != "."@ || opens)
}

/// The components among the first `n` pieces of `p`.
pub open spec fn components_to(p: Seq<Seq<char>>, n: nat) -> Seq<Seq<char>>
    decreases n,
{
    if n == 0 {
        Seq::<Seq<char>>::empty()
    } else if counts(p[n - 1], n == 1) {
        components_to(p, (n - 1) as nat).push(p[n - 1])
    } else {
        components_to(p, (n - 1) as nat)
    }
}

/// The components of a path, its root left aside.
pub open spec fn components(path: Seq<char>) -> Seq<Seq<char>> {
    let p = text::pieces(path, '/', '/');
    components_to(p, p.len())
}

/// Whether `base` leads `path`, component by component; the empty path leads every path.
pub open spec fn under(path: Seq<char>, base: Seq<char>) -> bool {
    let p = components(path);
    let b = components(base);
    &&& absolute(path) == absolute(base) || base.len() == 0
    &&& b.len() <= p.len()
    &&& p.take(b.len() as int) == b
}

/// Where components lead, each `..` taken back with the component in front of it: above the root
/// there is nothing, and above the start of a relative path `..` stays.
pub open spec fn resolved(c: Seq<Seq<char>>, from_root: bool) -> Seq<Seq<char>>
    decreases c.len(),
{
    if c.len() == 0 {
        Seq::empty()
    } else {
        let front = resolved(c.drop_last(), from_root);
        if c.last() == "."@ {
            front
        } else if c.last() != ".."@ {
            front.push(c.last())
        } else if front.len() > 0 && front.last() != ".."@ {
            front.drop_last()
        } else if from_root {
            front
        } else {
            front.push(".."@)
        }
    }
}

/// Whether what `path` leads to lies below what `base` leads to, or is the same.
pub open spec fn leads_below(path: Seq<char>, base: Seq<char>) -> bool {
    let p = resolved(components(path), absolute(path));
    let b = resolved(components(base), absolute(base));
    &&& absolute(path) == absolute(base)
    &&& b.len() <= p.len()
    &&& p.take(b.len() as int) == b
    &&& p.len() > b.len() ==> p[b.len() as int] != ".."@
}

/// Whether `base` leads `path`, component by component, and the path stays below it.
pub open spec fn inside(path: Seq<char>, base: Seq<char>) -> bool {
    under(path, base) && leads_below(path, base)
}

/// Whether a path starts at the root.
pub fn is_absolute(p: &str) -> (r: bool)
    ensures
        r == absolute(p@),
{
    let v = text::chars(p);
    v.len() > 0 && v[0] == '/'
}

/// `path` taken from `base`.
pub fn join(base: &str, path: &str) -> (r: String)
    ensures
        r@ == joined_path(base@, path@),
{
    if is_absolute(path) {
        return path.to_string();
    }
    let v = text::chars(base);
    let mut r = text::string(&v);
    if v.len() > 0 && v[v.len() - 1] != '/' {
        r.push('/');
    }
    r.append(path);
    r
}

/// Where `without_tail` cuts the first `n` characters of `v`.
fn cut_tail(v: &Vec<char>, n: usize) -> (r: usize)
    requires
        n <= v@.len(),
    ensures
        r <= n,
        v@.take(r as int) == without_tail(v@.take(n as int)),
{
    let mut i: usize = n;
    while i > 0 && (v[i - 1] == '/' || (i > 1 && v[i - 1] == '.' && v[i - 2] == '/'))
        invariant
            i <= n <= v@.len(),
            without_tail(v@.take(i as int)) == without_tail(v@.take(n as int)),
        decreases i,
    {
        assert(v@.take(i as int).drop_last() =~= v@.take(i - 1));
        i -= 1;
    }
    i
}

/// Where the last component of the first `n` characters of `v` starts.
fn cut_name(v: &Vec<char>, n: usize) -> (r: usize)
    requires
        n <= v@.len(),
    ensures
        r <= n,
        r == n - last_len(v@.take(n as int)),
{
    let mut i: usize = n;
    while i > 0 && v[i - 1] != '/'
        invariant
            i <= n <= v@.len(),
            n - i + last_len(v@.take(i as int)) == last_len(v@.take(n as int)),
        decreases i,
    {
        assert(v@.take(i as int).drop_last() =~= v@.take(i - 1));
        i -= 1;
    }
    i
}

/// The last component of a path.
pub fn file_name(path: &str) -> (r: Option<String>)
    ensures
        text::opt_view(r) == name_of(path@),
{
    let v = text::chars(path);
    assert(v@.take(v@.len() as int) =~= v@);
    let n = cut_tail(&v, v.len());
    let from = cut_name(&v, n);
    let name = text::part(&v, from, n);
    assert(v@.take(n as int).skip(from as int) =~= v@.subrange(from as int, n as int));
    if n == 0 || text::same(name.as_str(), "..") || text::same(name.as_str(), ".") {
        None
    } else {
        Some(name)
    }
}

/// The path without its last component.
pub fn parent(path: &str) -> (r: Option<String>)
    ensures
        text::opt_view(r) == parent_of(path@),
{
    let v = text::chars(path);
    assert(v@.take(v@.len() as int) =~= v@);
    let n = cut_tail(&v, v.len());
    if n == 0 {
        return None;
    }
    let m = cut_name(&v, n);
    assert(v@.take(n as int).take(m as int) =~= v@.take(m as int));
    let k = cut_tail(&v, m);
    if k == 0 && m > 0 && v[0] == '/' {
        Some("/".to_string())
    } else {
        assert(v@.subrange(0, k as int) =~= v@.take(k as int));
        Some(text::part(&v, 0, k))
    }
}

/// The components of a path, its root left aside.
pub fn components_of(path: &str) -> (r: Vec<String>)
    ensures
        text::views(r@) == components(path@),
{
    let p = text::split(path, '/', '/');
    let ghost all = text::pieces(path@, '/', '/');
    let mut r: Vec<String> = Vec::new();
    assert(text::views(r@) =~= components_to(all, 0));
    for i in 0..p.len()
        invariant
            text::views(p@) == all,
            text::views(r@) == components_to(all, i as nat),
    {
        let piece = p[i].as_str();
        assert(piece@ == all[i as int]);
        if !piece.is_empty() && (i == 0 || !text::same(piece, ".")) {
            let ghost before = text::views(r@);
            r.push(piece.to_string());
            assert(text::views(r@) =~= before.push(piece@));
        }
    }
    r
}

/// Whether `base` leads `path`, component by component.
pub fn is_under(path: &str, base: &str) -> (r: bool)
    ensures
        r == under(path@, base@),
{
    if is_absolute(path) != is_absolute(base) && !base.is_empty() {
        return false;
    }
    let p = components_of(path);
    let b = components_of(base);
    if b.len() > p.len() {
        return false;
    }
    let ghost ps = text::views(p@);
    let ghost bs = text::views(b@);
    for i in 0..b.len()
        invariant
            ps == text::views(p@),
            bs == text::views(b@),
            ps == components(path@),
            bs == components(base@),
            b@.len() <= p@.len(),
            forall|k: int| 0 <= k < i ==> ps[k] == bs[k],
    {
        if !text::same(p[i].as_str(), b[i].as_str()) {
            assert(ps.take(bs.len() as int)[i as int] != bs[i as int]);
            return false;
        }
    }
    assert(ps.take(bs.len() as int) =~= bs);
    true
}

/// Where components lead, each `..` taken back with the component in front of it.
fn resolve(c: &Vec<String>, from_root: bool) -> (r: Vec<String>)
    ensures
        text::views(r@) == resolved(text::views(c@), from_root),
{
    let ghost all = text::views(c@);
    let mut r: Vec<String> = Vec::new();
    assert(text::views(r@) =~= resolved(all.take(0), from_root));
    for i in 0..c.len()
        invariant
            all == text::views(c@),
            text::views(r@) == resolved(all.take(i as int), from_root),
    {
        let ghost front = text::views(r@);
        assert(all.take(i + 1).drop_last() =~= all.take(i as int));
        assert(all.take(i + 1).last() == c@[i as int]@);
        if text::same(c[i].as_str(), ".") {
        } else if !text::same(c[i].as_str(), "..") {
            r.push(c[i].clone());
            assert(text::views(r@) =~= front.push(c@[i as int]@));
        } else if r.len() > 0 && !text::same(r[r.len() - 1].as_str(), "..") {
            assert(front.last() == r@.last()@);
            r.pop();
            assert(text::views(r@) =~= front.drop_last());
        } else {
            assert(front.len() > 0 ==> front.last() == r@.last()@);
            if !from_root {
                r.push("..".to_string());
                assert(text::views(r@) =~= front.push(".."@));
            }
        }
    }
    assert(all.take(all.len() as int) =~= all);
    r
}

/// Whether what `path` leads to lies below what `base` leads to, or is the same.
pub fn stays_below(path: &str, base: &str) -> (r: bool)
    ensures
        r == leads_below(path@, base@),
{
    let from_root = is_absolute(path);
    if from_root != is_absolute(base) {
        return false;
    }
    let p = resolve(&components_of(path), from_root);
    let b = resolve(&components_of(base), from_root);
    if b.len() > p.len() {
        return false;
    }
    let ghost ps = text::views(p@);
    let ghost bs = text::views(b@);
    for i in 0..b.len()
        invariant
            ps == text::views(p@),
            bs == text::views(b@),
            ps == resolved(components(path@), absolute(path@)),
            bs == resolved(components(base@), absolute(base@)),
            b@.len() <= p@.len(),
            forall|k: int| 0 <= k < i ==> ps[k] == bs[k],
    {
        if !text::same(p[i].as_str(), b[i].as_str()) {
            assert(ps.take(bs.len() as int)[i as int] != bs[i as int]);
            return false;
        }
    }
    assert(ps.take(bs.len() as int) =~= bs);
    p.len() == b.len() || !text::same(p[b.len()].as_str(), "..")
}

/// Whether `base` leads `path`, component by component, and the path stays below it.
pub fn is_inside(path: &str, base: &str) -> (r: bool)
    ensures
        r == inside(path@, base@),
{
    is_under(path, base) && stays_below(path, base)
}

/// Where the last dot of a name stands.
pub open spec fn last_dot(name: Seq<char>) -> Option<int>
    decreases name.len(),
{
    if name.len() == 0 {
        None
    } else if name.last() == '.' {
        Some(name.len() - 1)
    } else {
        last_dot(name.drop_last())
    }
}

/// The extension of a path: what follows the last dot of its name, unless the name has no dot but
/// one in front.
pub open spec fn extension_of(path: Seq<char>) -> Option<Seq<char>> {
    match name_of(path) {
        Some(name) => match last_dot(name) {
            Some(i) => if i > 0 {
                Some(name.skip(i + 1))
            } else {
                None
            },
            None => None,
        },
        None => None,
    }
}

/// Whether a path has an extension, and which it is.
pub fn has_extension(path: &str, ext: &str) -> (r: bool)
    ensures
        r == (extension_of(path@) == Some(ext@)),
{
    let name = match file_name(path) {
        Some(n) => n,
        None => return false,
    };
    let v = text::chars(name.as_str());
    let mut i: usize = v.len();
    assert(name@.take(i as int) =~= name@);
    while i > 0
        invariant
            i <= v@.len(),
            v@ == name@,
            name_of(path@) == Some(name@),
            last_dot(name@) == last_dot(name@.take(i as int)),
        decreases i,
    {
        assert(name@.take(i as int).drop_last() =~= name@.take(i - 1));
        if v[i - 1] == '.' {
            if i == 1 {
                return false;
            }
            let after = text::part(&v, i, v.len());
            assert(after@ =~= name@.skip(i as int));
            return text::same(after.as_str(), ext);
        }
        i -= 1;
    }
    false
}

/// Whether two paths have the same root and the same components.
pub open spec fn equal(a: Seq<char>, b: Seq<char>) -> bool {
    absolute(a) == absolute(b) && components(a) == components(b)
}

/// Whether two paths have the same root and the same components.
pub fn same_path(a: &str, b: &str) -> (r: bool)
    ensures
        r == equal(a@, b@),
{
    let x = is_under(a, b);
    let y = is_under(b, a);
    proof {
        let p = components(a@);
        let q = components(b@);
        if x && y {
            assert(p.take(p.len() as int) =~= p);
            assert(q.take(q.len() as int) =~= q);
        }
        if equal(a@, b@) {
            assert(p.take(p.len() as int) =~= p);
        }
    }
    x && y
}

/// Where the components behind a base do not go up, the path stays below it.
pub proof fn law_straight_paths_stay_below(path: Seq<char>, base: Seq<char>)
    requires
        base.len() > 0,
        under(path, base),
        !components(path).skip(components(base).len() as int).contains(".."@),
    ensures
        leads_below(path, base),
{
    let c = components(path);
    let n = components(base).len() as int;
    assert forall|i: int| n <= i < c.len() implies c[i] != ".."@ by {
        assert(c.skip(n)[i - n] == c[i]);
    }
    lemma_resolved_grows(c, n, absolute(path));
}

proof fn lemma_resolved_grows(c: Seq<Seq<char>>, n: int, from_root: bool)
    requires
        0 <= n <= c.len(),
        forall|i: int| n <= i < c.len() ==> c[i] != ".."@,
    ensures
        ({
            let b = resolved(c.take(n), from_root);
            let p = resolved(c, from_root);
            &&& b.len() <= p.len()
            &&& p.take(b.len() as int) == b
            &&& p.len() > b.len() ==> p[b.len() as int] != ".."@
        }),
    decreases c.len(),
{
    let b = resolved(c.take(n), from_root);
    let p = resolved(c, from_root);
    if n == c.len() {
        assert(c.take(n) =~= c);
        assert(p.take(b.len() as int) =~= b);
    } else {
        let front = c.drop_last();
        assert(front.take(n) =~= c.take(n));
        lemma_resolved_grows(front, n, from_root);
        let f = resolved(front, from_root);
        assert(c.last() == c[c.len() - 1]);
        assert(p.take(b.len() as int) =~= f.take(b.len() as int));
    }
}

/// A relative path joined to a base leads on from that base.
pub proof fn law_join_stays_under(base: Seq<char>, path: Seq<char>)
    requires
        !absolute(path),
    ensures
        under(joined_path(base, path), base),
{
    if base.len() == 0 {
        assert(text::pieces(base, '/', '/') =~= seq![Seq::<char>::empty()]);
        reveal_with_fuel(components_to, 2);
        assert(components(joined_path(base, path)).take(0) =~= components(base));
    } else {
        lemma_join_some(base, path);
    }
}

proof fn lemma_join_some(base: Seq<char>, path: Seq<char>)
    requires
        base.len() > 0,
        !absolute(path),
    ensures
        under(joined_path(base, path), base),
{
    let full = joined_path(base, path);
    let s = if base.last() == '/' {
        base.drop_last()
    } else {
        base
    };
    assert(full =~= s.push('/') + path);
    text::lemma_pieces_around(s, path, '/');
    let ps = text::pieces(s, '/', '/');
    let pf = text::pieces(full, '/', '/');
    let pb = text::pieces(base, '/', '/');
    text::lemma_pieces_some(s, '/', '/');
    text::lemma_pieces_some(path, '/', '/');
    lemma_components_prefix(ps, pf, ps.len());
    if base.last() == '/' {
        assert(base =~= s.push('/') + Seq::<char>::empty());
        text::lemma_pieces_around(s, Seq::<char>::empty(), '/');
        let e = seq![Seq::<char>::empty()];
        assert(text::pieces(Seq::<char>::empty(), '/', '/') =~= e);
        assert(pb =~= ps + e);
        lemma_components_prefix(ps, pb, ps.len());
        assert(components_to(pb, pb.len()) == components_to(pb, ps.len()));
    }
    assert(components(base) == components_to(pf, ps.len()));
    lemma_components_grow(pf, ps.len(), pf.len());
    assert(absolute(full) == absolute(base)) by {
        assert(full[0] == base[0]);
    }
}

/// A path of one component other than `..`, joined to a base, stays inside that base.
pub proof fn law_plain_name_stays_inside(base: Seq<char>, name: Seq<char>)
    requires
        base.len() > 0,
        !name.contains('/'),
        name != ".."@,
    ensures
        inside(joined_path(base, name), base),
{
    let full = joined_path(base, name);
    law_join_stays_under(base, name);
    let s = if base.last() == '/' {
        base.drop_last()
    } else {
        base
    };
    assert(full =~= s.push('/') + name);
    text::lemma_pieces_around(s, name, '/');
    text::lemma_pieces_whole(name, '/');
    text::lemma_pieces_some(s, '/', '/');
    let ps = text::pieces(s, '/', '/');
    let pf = text::pieces(full, '/', '/');
    lemma_components_prefix(ps, pf, ps.len());
    if base.last() == '/' {
        let e = Seq::<char>::empty();
        assert(base =~= s.push('/') + e);
        text::lemma_pieces_around(s, e, '/');
        let pb = text::pieces(base, '/', '/');
        assert(text::pieces(e, '/', '/') =~= seq![e]);
        lemma_components_prefix(ps, pb, ps.len());
        assert(components_to(pb, pb.len()) == components_to(pb, ps.len()));
    }
    let b = components(base);
    assert(b == components_to(pf, ps.len()));
    assert(pf.len() == ps.len() + 1);
    assert(pf[pf.len() - 1] == name);
    let rest = components(full).skip(b.len() as int);
    assert forall|k: int| 0 <= k < rest.len() implies rest[k] != ".."@ by {}
    law_straight_paths_stay_below(full, base);
}

proof fn lemma_components_prefix(p: Seq<Seq<char>>, q: Seq<Seq<char>>, n: nat)
    requires
        n <= p.len(),
        n <= q.len(),
        forall|i: int| 0 <= i < n ==> p[i] == q[i],
    ensures
        components_to(p, n) == components_to(q, n),
    decreases n,
{
    if n > 0 {
        lemma_components_prefix(p, q, (n - 1) as nat);
    }
}

proof fn lemma_components_grow(p: Seq<Seq<char>>, n: nat, m: nat)
    requires
        n <= m <= p.len(),
    ensures
        components_to(p, n).len() <= components_to(p, m).len(),
        components_to(p, m).take(components_to(p, n).len() as int) == components_to(p, n),
    decreases m,
{
    let a = components_to(p, n);
    if n < m {
        lemma_components_grow(p, n, (m - 1) as nat);
        let b = components_to(p, (m - 1) as nat);
        let c = components_to(p, m);
        assert(c.take(a.len() as int) =~= b.take(a.len() as int));
    } else {
        assert(a.take(a.len() as int) =~= a);
    }
}

} // verus!
