//! What paths come to, in plain terms.

use crate::paths;
use crate::text;
use vstd::prelude::*;

verus! {

/// A relative path goes below its base, with one separator between them; an absolute one stands for
/// itself.
pub proof fn law_joining(base: Seq<char>, path: Seq<char>)
    ensures
        path.len() > 0 && path[0] == '/' ==> paths::joined_path(base, path) == path,
        (path.len() == 0 || path[0] != '/') && base.len() > 0 && base.last() != '/'
            ==> paths::joined_path(base, path) == base.push('/') + path,
        (path.len() == 0 || path[0] != '/') && base.len() > 0 && base.last() == '/'
            ==> paths::joined_path(base, path) == base + path,
        (path.len() == 0 || path[0] != '/') && base.len() == 0 ==> paths::joined_path(base, path)
            == path,
{
    if base.len() == 0 {
        assert(base + path =~= path);
    }
}

/// Whether a text can be the one component behind a folder: it is not empty, holds no separator, and
/// is not `.`.
pub open spec fn one_component(name: Seq<char>) -> bool {
    name.len() > 0 && !name.contains('/') && name != seq!['.']
}

/// Whether the path of a folder is written without a separator or a `.` at its end.
pub open spec fn plain_folder(dir: Seq<char>) -> bool {
    &&& dir.len() > 0
    &&& dir.last() != '/'
    &&& !(dir.len() > 1 && dir.last() == '.' && dir[dir.len() - 2] == '/')
}

proof fn lemma_last_len(dir: Seq<char>, name: Seq<char>)
    requires
        !name.contains('/'),
        dir.len() > 0 ==> dir.last() == '/',
    ensures
        paths::last_len(dir + name) == name.len(),
    decreases name.len(),
{
    let s = dir + name;
    if name.len() > 0 {
        let t = name.drop_last();
        assert forall|i: int| 0 <= i < t.len() implies t[i] != '/' by {
            assert(t[i] == name[i]);
        }
        lemma_last_len(dir, t);
        assert(s.drop_last() =~= dir + t);
        assert(name[name.len() - 1] != '/');
    } else {
        assert(s =~= dir);
    }
}

/// A file in a folder has that folder as its parent, and its own name as its name.
pub proof fn law_name_and_folder(dir: Seq<char>, name: Seq<char>)
    requires
        plain_folder(dir),
        one_component(name),
    ensures
        paths::parent_of(dir.push('/') + name) == Some(dir),
        name != seq!['.', '.'] ==> paths::name_of(dir.push('/') + name) == Some(name),
        name != seq!['.', '.'] ==> paths::name_of(name) == Some(name),
{
    let d = dir.push('/');
    let s = d + name;
    assert(name[name.len() - 1] != '/');
    assert(s.last() == name.last());
    if name.len() == 1 {
        assert(name =~= seq![name[0]]);
    } else {
        assert(s[s.len() - 2] == name[name.len() - 2]);
        assert(name[name.len() - 2] != '/');
    }
    assert(paths::without_tail(s) == s);
    assert(paths::without_tail(name) == name);
    lemma_last_len(d, name);
    lemma_last_len(Seq::empty(), name);
    assert(Seq::<char>::empty() + name =~= name);
    assert(s.skip(s.len() - name.len()) =~= name);
    assert(name.skip(0) =~= name);
    assert(s.take(s.len() - name.len()) =~= d);
    assert(d.drop_last() =~= dir);
    assert(paths::without_tail(d) == paths::without_tail(dir));
    assert(paths::without_tail(dir) == dir);
    reveal_strlit("..");
    reveal_strlit(".");
    assert(".."@ =~= seq!['.', '.']);
    assert("."@ =~= seq!['.']);
}

proof fn lemma_last_dot(stem: Seq<char>, ext: Seq<char>)
    requires
        !ext.contains('.'),
    ensures
        paths::last_dot(stem.push('.') + ext) == Some(stem.len() as int),
    decreases ext.len(),
{
    let s = stem.push('.') + ext;
    if ext.len() > 0 {
        let t = ext.drop_last();
        assert forall|i: int| 0 <= i < t.len() implies t[i] != '.' by {
            assert(t[i] == ext[i]);
        }
        lemma_last_dot(stem, t);
        assert(s.drop_last() =~= stem.push('.') + t);
        assert(ext[ext.len() - 1] != '.');
    } else {
        assert(s =~= stem.push('.'));
    }
}

/// The extension of a file is what stands behind the last dot of its name.
pub proof fn law_extension(dir: Seq<char>, stem: Seq<char>, ext: Seq<char>)
    requires
        plain_folder(dir),
        stem.len() > 0,
        ext.len() > 0,
        !stem.contains('/'),
        !ext.contains('/'),
        !ext.contains('.'),
    ensures
        paths::extension_of(stem.push('.') + ext) == Some(ext),
        paths::extension_of(dir.push('/') + (stem.push('.') + ext)) == Some(ext),
{
    let name = stem.push('.') + ext;
    assert forall|i: int| 0 <= i < name.len() implies name[i] != '/' by {
        if i < stem.len() {
            assert(name[i] == stem[i]);
        } else if i > stem.len() {
            assert(name[i] == ext[i - stem.len() - 1]);
        }
    }
    assert(name.last() == ext[ext.len() - 1]);
    assert(name != seq!['.', '.'] && name != seq!['.']);
    law_name_and_folder(dir, name);
    lemma_last_dot(stem, ext);
    assert(name.skip(stem.len() as int + 1) =~= ext);
}

proof fn lemma_dot_is(name: Seq<char>)
    ensures
        paths::last_dot(name) matches Some(i) ==> 0 <= i < name.len() && name[i] == '.' && forall|
            j: int,
        |
            i < j < name.len() ==> name[j] != '.',
        paths::last_dot(name) is None ==> !name.contains('.'),
    decreases name.len(),
{
    if name.len() > 0 && name.last() != '.' {
        lemma_dot_is(name.drop_last());
        if paths::last_dot(name) is None {
            assert forall|i: int| 0 <= i < name.len() implies name[i] != '.' by {
                if i < name.len() - 1 {
                    assert(name.drop_last()[i] == name[i]);
                }
            }
        } else {
            assert forall|j: int|
                paths::last_dot(name).unwrap() < j < name.len() implies name[j] != '.' by {
                if j < name.len() - 1 {
                    assert(name.drop_last()[j] == name[j]);
                }
            }
        }
    }
}

/// A name has an extension only where it ends in a dot and that extension, with something in front.
pub proof fn law_only_extensions(name: Seq<char>, ext: Seq<char>)
    requires
        one_component(name),
        paths::extension_of(name) == Some(ext),
    ensures
        !ext.contains('.'),
        exists|stem: Seq<char>| stem.len() > 0 && name == #[trigger] stem.push('.') + ext,
{
    law_name_and_folder(seq!['x'], name);
    reveal_strlit("..");
    assert(".."@ =~= seq!['.', '.']);
    assert(paths::without_tail(name) == name) by {
        assert(name[name.len() - 1] != '/');
        if name.len() > 1 {
            assert(name[name.len() - 2] != '/');
        } else {
            assert(name =~= seq![name[0]]);
        }
    }
    lemma_last_len(Seq::empty(), name);
    assert(Seq::<char>::empty() + name =~= name);
    assert(name.skip(0) =~= name);
    lemma_dot_is(name);
    let i = paths::last_dot(name).unwrap();
    let stem = name.take(i);
    assert(name =~= stem.push('.') + ext);
    assert forall|j: int| 0 <= j < ext.len() implies ext[j] != '.' by {
        assert(ext[j] == name[i + 1 + j]);
    }
}

/// A file at the root has the root as its parent, and one that stands alone has none but the empty
/// path; separators at the end of a path do not count.
pub proof fn law_names_without_a_folder(name: Seq<char>, path: Seq<char>)
    requires
        one_component(name),
        name != seq!['.', '.'],
    ensures
        paths::parent_of(seq!['/'] + name) == Some(seq!['/']),
        paths::name_of(seq!['/'] + name) == Some(name),
        paths::parent_of(name) == Some(Seq::<char>::empty()),
        paths::name_of(path.push('/')) == paths::name_of(path),
        paths::parent_of(path.push('/')) == paths::parent_of(path),
        paths::name_of(Seq::empty()) is None,
        paths::parent_of(Seq::empty()) is None,
        paths::name_of(seq!['.', '.']) is None,
{
    reveal_strlit("..");
    reveal_strlit(".");
    reveal_strlit("/");
    assert(".."@ =~= seq!['.', '.']);
    assert("."@ =~= seq!['.']);
    assert("/"@ =~= seq!['/']);
    let e = Seq::<char>::empty();
    let d = seq!['/'];
    let s = d + name;
    assert(name[name.len() - 1] != '/');
    assert(s.last() == name.last());
    if name.len() == 1 {
        assert(name =~= seq![name[0]]);
        assert(s[0] == '/');
    } else {
        assert(s[s.len() - 2] == name[name.len() - 2]);
        assert(name[name.len() - 2] != '/');
    }
    assert(paths::without_tail(s) == s);
    assert(paths::without_tail(name) == name);
    lemma_last_len(d, name);
    lemma_last_len(e, name);
    assert(e + name =~= name);
    assert(s.skip(s.len() - name.len()) =~= name);
    assert(s.take(s.len() - name.len()) =~= d);
    assert(d.drop_last() =~= e);
    assert(paths::without_tail(d) == paths::without_tail(e));
    assert(name.take(0) =~= e);
    assert(path.push('/').drop_last() =~= path);
    let up = seq!['.', '.'];
    assert(paths::without_tail(up) == up);
    lemma_last_len(e, up);
    assert(e + up =~= up);
    assert(up.skip(0) =~= up);
}

proof fn lemma_same_front(p: Seq<Seq<char>>, q: Seq<Seq<char>>, n: nat)
    requires
        n <= p.len(),
        n <= q.len(),
        forall|i: int| 0 <= i < n ==> p[i] == q[i],
    ensures
        paths::components_to(p, n) == paths::components_to(q, n),
    decreases n,
{
    if n > 0 {
        lemma_same_front(p, q, (n - 1) as nat);
    }
}

/// A path has one component more where one more is written behind it; a `.` and a second separator
/// add none.
pub proof fn law_components_are_counted(path: Seq<char>, name: Seq<char>)
    requires
        !name.contains('/'),
    ensures
        name.len() > 0 && name != seq!['.'] ==> paths::components(path.push('/') + name)
            == paths::components(path).push(name),
        name.len() == 0 || name == seq!['.'] ==> paths::components(path.push('/') + name)
            == paths::components(path),
        name.len() > 0 ==> paths::components(name) == seq![name],
        paths::components(Seq::empty()).len() == 0,
{
    reveal_strlit(".");
    assert("."@ =~= seq!['.']);
    text::lemma_pieces_around(path, name, '/');
    text::lemma_pieces_whole(name, '/');
    text::lemma_pieces_some(path, '/', '/');
    let p = text::pieces(path, '/', '/');
    let q = text::pieces(path.push('/') + name, '/', '/');
    assert(q =~= p.push(name));
    lemma_same_front(p, q, p.len());
    reveal_with_fuel(paths::components_to, 2);
    assert(paths::components_to(seq![name], 0).push(name) =~= seq![name]);
    let e = Seq::<char>::empty();
    text::lemma_pieces_whole(e, '/');
}

/// Where a path goes up it leaves the component before; a `.` stays where it is.
pub proof fn law_going_up_and_down(c: Seq<Seq<char>>, x: Seq<char>, from_root: bool)
    requires
        x != seq!['.'],
        x != seq!['.', '.'],
    ensures
        paths::resolved(Seq::empty(), from_root).len() == 0,
        paths::resolved(c.push(x), from_root) == paths::resolved(c, from_root).push(x),
        paths::resolved(c.push(seq!['.']), from_root) == paths::resolved(c, from_root),
        paths::resolved(c.push(x).push(seq!['.', '.']), from_root) == paths::resolved(c, from_root),
        paths::resolved(seq![seq!['.', '.']], true).len() == 0,
        paths::resolved(seq![seq!['.', '.']], false) == seq![seq!['.', '.']],
{
    reveal_strlit("..");
    reveal_strlit(".");
    let dot = seq!['.'];
    let up = seq!['.', '.'];
    assert(".."@ =~= up);
    assert("."@ =~= dot);
    assert(up.len() != dot.len());
    assert(c.push(x).drop_last() =~= c);
    assert(c.push(dot).drop_last() =~= c);
    let over = c.push(x).push(up);
    assert(over.drop_last() =~= c.push(x));
    assert(over.last() == up);
    assert(up != dot);
    let r = paths::resolved(c, from_root);
    assert(c.push(x).last() == x);
    assert(paths::resolved(c.push(x), from_root) == r.push(x));
    assert(r.push(x).drop_last() =~= r);
    assert(paths::resolved(over, from_root) == r.push(x).drop_last());
    let one = seq![up];
    assert(one.last() == up);
    reveal_with_fuel(paths::resolved, 2);
    assert(one.drop_last() =~= Seq::<Seq<char>>::empty());
    assert(Seq::<Seq<char>>::empty().push(up) =~= one);
}

/// Whether a path begins at the root.
pub open spec fn rooted(path: Seq<char>) -> bool {
    path.len() > 0 && path[0] == '/'
}

/// Where a path comes to, once every `..` has left the component before it.
pub open spec fn comes_to(path: Seq<char>) -> Seq<Seq<char>> {
    paths::resolved(paths::components(path), rooted(path))
}

/// A path leads below a base just where both begin at the root or neither does, and the one comes to
/// where the other does and to something behind it that does not go up.
pub proof fn law_what_lies_below(path: Seq<char>, base: Seq<char>)
    ensures
        paths::leads_below(path, base) <==> rooted(path) == rooted(base) && exists|
            tail: Seq<Seq<char>>,
        |
            comes_to(path) == #[trigger] (comes_to(base) + tail) && (tail.len() > 0 ==> tail[0]
                != seq!['.', '.']),
{
    reveal_strlit("..");
    assert(".."@ =~= seq!['.', '.']);
    let p = comes_to(path);
    let b = comes_to(base);
    if paths::leads_below(path, base) {
        let tail = p.skip(b.len() as int);
        assert(p =~= b + tail);
    }
    if exists|tail: Seq<Seq<char>>|
        p == #[trigger] (b + tail) && (tail.len() > 0 ==> tail[0] != seq!['.', '.']) {
        let tail = choose|tail: Seq<Seq<char>>|
            p == #[trigger] (b + tail) && (tail.len() > 0 ==> tail[0] != seq!['.', '.']);
        assert(p.take(b.len() as int) =~= b);
        if tail.len() > 0 {
            assert(p[b.len() as int] == tail[0]);
        }
    }
}

/// Going out of a base and into another folder does not lead below the base; going out of a folder of
/// the base does.
pub proof fn law_climbing_out(base: Seq<char>, a: Seq<char>, x: Seq<char>)
    requires
        base.len() > 0,
        one_component(a),
        one_component(x),
        a != seq!['.', '.'],
        x != seq!['.', '.'],
        comes_to(base).len() > 0,
        comes_to(base).last() != seq!['.', '.'],
    ensures
        ({
            let up = seq!['.', '.'];
            let out = (base.push('/') + up).push('/') + x;
            let back = ((base.push('/') + a).push('/') + up).push('/') + x;
            &&& paths::leads_below(out, base) <==> x == comes_to(base).last()
            &&& paths::leads_below(back, base)
            &&& paths::leads_below(base.push('/') + x, base)
        }),
{
    reveal_strlit("..");
    reveal_strlit(".");
    let up = seq!['.', '.'];
    let dot = seq!['.'];
    assert(".."@ =~= up);
    assert("."@ =~= dot);
    assert(up.len() != dot.len());
    assert(!up.contains('/'));
    let root = base[0] == '/';
    let c = paths::components(base);
    let r = paths::resolved(c, root);
    // Straight on.
    let on = base.push('/') + x;
    law_components_are_counted(base, x);
    law_going_up_and_down(c, x, root);
    assert(on[0] == base[0]);
    assert(r.push(x).take(r.len() as int) =~= r);
    // Out and in.
    let over = base.push('/') + up;
    law_components_are_counted(base, up);
    law_components_are_counted(over, x);
    let out = over.push('/') + x;
    assert(out[0] == base[0]);
    let cu = c.push(up);
    assert(cu.drop_last() =~= c);
    assert(paths::resolved(cu, root) == r.drop_last());
    law_going_up_and_down(cu, x, root);
    let p = r.drop_last().push(x);
    if x == r.last() {
        assert(p =~= r);
        assert(p.take(r.len() as int) =~= r);
    } else {
        assert(p.take(r.len() as int)[r.len() - 1] == x);
    }
    // In, out and in.
    let low = base.push('/') + a;
    law_components_are_counted(base, a);
    law_components_are_counted(low, up);
    let half = low.push('/') + up;
    law_components_are_counted(half, x);
    law_going_up_and_down(c, a, root);
    law_going_up_and_down(c.push(a).push(up), x, root);
    let back = half.push('/') + x;
    assert(back[0] == base[0]);
}

} // verus!
