//! What reading `server.properties` gives back of what was written to it.

use crate::properties;
use crate::text;
use vstd::prelude::*;

verus! {

/// Whether a line can set this key: it is trimmed, holds neither `=` nor a line feed, and does not
/// start like a comment.
pub open spec fn key_fits(k: Seq<char>) -> bool {
    &&& text::trimmed(k) == k
    &&& !k.contains('=')
    &&& !k.contains('\n')
    &&& k.len() > 0 ==> k[0] != '#'
}

/// Whether a line can set a key to this value: it is trimmed and holds no line feed.
pub open spec fn value_fits(v: Seq<char>) -> bool {
    &&& text::trimmed(v) == v
    &&& !v.contains('\n')
}

/// Whether lines can make all these settings.
pub open spec fn all_fit(p: Seq<(Seq<char>, Seq<char>)>) -> bool {
    forall|i: int| 0 <= i < p.len() ==> key_fits((#[trigger] p[i]).0) && value_fits(p[i].1)
}

proof fn lemma_start_shrinks(s: Seq<char>)
    ensures
        text::trimmed_start(s).len() <= s.len(),
        s.len() > 0 && text::is_space(s[0]) ==> text::trimmed_start(s).len() < s.len(),
        text::trimmed_start(s) == s.skip(s.len() - text::trimmed_start(s).len()),
        text::trimmed_start(s).len() > 0 ==> !text::is_space(text::trimmed_start(s)[0]),
    decreases s.len(),
{
    if s.len() > 0 && text::is_space(s[0]) {
        lemma_start_shrinks(s.skip(1));
        let t = text::trimmed_start(s);
        assert(s.skip(1).skip(s.len() - 1 - t.len()) =~= s.skip(s.len() - t.len()));
    } else {
        assert(s.skip(0) =~= s);
    }
}

proof fn lemma_end_shrinks(s: Seq<char>)
    ensures
        text::trimmed_end(s).len() <= s.len(),
        s.len() > 0 && text::is_space(s.last()) ==> text::trimmed_end(s).len() < s.len(),
        text::trimmed_end(s) == s.take(text::trimmed_end(s).len() as int),
        text::trimmed_end(s).len() > 0 ==> !text::is_space(text::trimmed_end(s).last()),
    decreases s.len(),
{
    if s.len() > 0 && text::is_space(s.last()) {
        lemma_end_shrinks(s.drop_last());
        let t = text::trimmed_end(s);
        assert(s.drop_last().take(t.len() as int) =~= s.take(t.len() as int));
    } else {
        assert(s.take(s.len() as int) =~= s);
    }
}

/// A trimmed text has no white space at either end, and holds no character that was not there.
pub proof fn lemma_trimmed(s: Seq<char>)
    ensures
        text::trimmed(s).len() <= s.len(),
        text::trimmed(s).len() > 0 ==> !text::is_space(text::trimmed(s)[0]) && !text::is_space(
            text::trimmed(s).last(),
        ),
        forall|c: char| text::trimmed(s).contains(c) ==> s.contains(c),
        text::trimmed(text::trimmed(s)) == text::trimmed(s),
{
    let a = text::trimmed_start(s);
    let t = text::trimmed(s);
    lemma_start_shrinks(s);
    lemma_end_shrinks(a);
    let d = s.len() - a.len();
    assert forall|c: char| t.contains(c) implies s.contains(c) by {
        let k = choose|k: int| 0 <= k < t.len() && t[k] == c;
        assert(a[k] == c);
        assert(s[k + d] == c);
    }
    if t.len() > 0 {
        assert(t[0] == a[0]);
    }
}

proof fn lemma_trimmed_fixed(s: Seq<char>)
    requires
        s.len() > 0,
        text::trimmed(s) == s,
    ensures
        !text::is_space(s[0]),
        !text::is_space(s.last()),
{
    lemma_trimmed(s);
}

proof fn lemma_start_push(s: Seq<char>, c: char)
    ensures
        text::trimmed_start(s).len() > 0 ==> text::trimmed_start(s.push(c)) == text::trimmed_start(
            s,
        ).push(c),
        text::trimmed_start(s).len() == 0 && text::is_space(c) ==> text::trimmed_start(
            s.push(c),
        ).len() == 0,
    decreases s.len(),
{
    if s.len() > 0 && text::is_space(s[0]) {
        assert(s.push(c).skip(1) =~= s.skip(1).push(c));
        lemma_start_push(s.skip(1), c);
    } else if s.len() == 0 && text::is_space(c) {
        assert(s.push(c).skip(1) =~= Seq::<char>::empty());
        assert(text::trimmed_start(s.push(c)) == text::trimmed_start(s.push(c).skip(1)));
    }
}

/// A white space character at the end of a text does not show once the text is trimmed.
proof fn lemma_trimmed_space_end(s: Seq<char>)
    requires
        s.len() > 0,
        text::is_space(s.last()),
    ensures
        text::trimmed(s) == text::trimmed(s.drop_last()),
{
    let t = s.drop_last();
    lemma_start_push(t, s.last());
    assert(t.push(s.last()) =~= s);
    if text::trimmed_start(t).len() > 0 {
        assert(text::trimmed_start(s).drop_last() =~= text::trimmed_start(t));
    } else {
        assert(text::trimmed_start(s) =~= text::trimmed_start(t));
    }
}

proof fn lemma_first_is(s: Seq<char>, p: Seq<char>, i: int)
    ensures
        match text::first_from(s, p, i) {
            Some(n) => i <= n && text::occurs_at(s, p, n) && forall|j: int|
                i <= j < n ==> !text::occurs_at(s, p, j),
            None => true,
        },
    decreases s.len() - i + 1,
{
    if 0 <= i && i + p.len() <= s.len() && !text::occurs_at(s, p, i) {
        lemma_first_is(s, p, i + 1);
    }
}

proof fn lemma_equals_sign()
    ensures
        "="@ == seq!['='],
        "\n"@ == seq!['\n'],
{
    reveal_strlit("=");
    reveal_strlit("\n");
    assert("="@ =~= seq!['=']);
    assert("\n"@ =~= seq!['\n']);
}

/// A line that sets a key to a value is read as that setting.
pub proof fn law_setting_line_read_back(k: Seq<char>, v: Seq<char>)
    requires
        key_fits(k),
        value_fits(v),
    ensures
        properties::setting(properties::setting_line(k, v)) == Some((k, v)),
{
    lemma_equals_sign();
    let l = properties::setting_line(k, v);
    let n = k.len() as int;
    assert(l[n] == '=');
    assert(!text::is_space('='));
    if k.len() > 0 {
        lemma_trimmed_fixed(k);
        assert(l[0] == k[0]);
    }
    if v.len() > 0 {
        lemma_trimmed_fixed(v);
        assert(l.last() == v.last());
    } else {
        assert(l.last() == '=');
    }
    assert(text::trimmed(l) == l);
    assert forall|j: int| 0 <= j < n implies !text::occurs_at(l, "="@, j) by {
        assert(k[j] != '=');
        assert(l.subrange(j, j + 1)[0] == k[j]);
    }
    text::lemma_first_skips(l, "="@, 0, n);
    assert(l.subrange(n, n + 1) =~= "="@);
    assert(text::first(l, "="@) == Some(n));
    assert(l.take(n) =~= k);
    assert(l.skip(n + 1) =~= v);
}

/// What a line sets can be set by a line.
proof fn lemma_setting_fits(line: Seq<char>)
    requires
        !line.contains('\n'),
    ensures
        match properties::setting(line) {
            Some((k, v)) => key_fits(k) && value_fits(v),
            None => true,
        },
{
    lemma_equals_sign();
    let t = text::trimmed(line);
    lemma_trimmed(line);
    if let Some((a, b)) = text::halves(t, "="@) {
        let n = text::first(t, "="@)->0;
        lemma_first_is(t, "="@, 0);
        lemma_trimmed(a);
        lemma_trimmed(b);
        let k = text::trimmed(a);
        assert forall|c: char| a.contains(c) implies t.contains(c) by {
            let i = choose|i: int| 0 <= i < a.len() && a[i] == c;
            assert(t[i] == c);
        }
        assert forall|c: char| b.contains(c) implies t.contains(c) by {
            let i = choose|i: int| 0 <= i < b.len() && b[i] == c;
            assert(t[i + n + 1] == c);
        }
        assert(!a.contains('=')) by {
            if a.contains('=') {
                let i = choose|i: int| 0 <= i < a.len() && a[i] == '=';
                assert(t.subrange(i, i + 1) =~= "="@);
                assert(text::occurs_at(t, "="@, i));
            }
        }
        if k.len() > 0 && t[0] != '#' {
            lemma_start_shrinks(a);
            lemma_end_shrinks(text::trimmed_start(a));
            assert(a.len() > 0);
            assert(a[0] == t[0]);
            assert(text::trimmed_start(a) == a);
            assert(k[0] == a[0]);
        }
    }
}

proof fn lemma_setting_without_cr(line: Seq<char>)
    ensures
        properties::setting(text::without_cr(line)) == properties::setting(line),
{
    if line.len() > 0 && line.last() == '\r' {
        lemma_trimmed_space_end(line);
    }
}

proof fn lemma_settings_without_cr(lines: Seq<Seq<char>>)
    ensures
        properties::settings(lines.map_values(|l: Seq<char>| text::without_cr(l)))
            == properties::settings(lines),
    decreases lines.len(),
{
    if lines.len() > 0 {
        let m = lines.map_values(|l: Seq<char>| text::without_cr(l));
        lemma_settings_without_cr(lines.drop_last());
        lemma_setting_without_cr(lines.last());
        assert(m.drop_last() =~= lines.drop_last().map_values(|l: Seq<char>| text::without_cr(l)));
        assert(m.last() == text::without_cr(lines.last()));
    }
}

/// A key that was set has its value, and every other key the one it had.
pub proof fn law_put_then_get(p: Seq<(Seq<char>, Seq<char>)>, key: Seq<char>, value: Seq<char>)
    ensures
        forall|k: Seq<char>| #[trigger]
            properties::value_of(properties::put(p, key, value), k) == (if k == key {
                Some(value)
            } else {
                properties::value_of(p, k)
            }),
        properties::distinct_keys(p) ==> properties::distinct_keys(
            properties::put(p, key, value),
        ),
{
    let q = properties::put(p, key, value);
    properties::lemma_key_index(p, key);
    assert forall|k: Seq<char>| #[trigger] properties::value_of(q, k) == (if k == key {
        Some(value)
    } else {
        properties::value_of(p, k)
    }) by {
        properties::lemma_key_index(p, k);
        properties::lemma_key_index(q, k);
        match properties::key_index(p, key) {
            Some(i) => {
                assert(q[i] == (key, value));
                assert forall|j: int| 0 <= j < q.len() implies (#[trigger] q[j]).0 == p[j].0 by {
                }
                if k == key {
                    if let Some(j) = properties::key_index(q, k) {
                        assert(q[j].0 == p[j].0);
                        if j < i {
                            assert(p[j].0 != key);
                        }
                        if i < j {
                            assert(q[i].0 != k);
                        }
                    }
                } else {
                    match (properties::key_index(p, k), properties::key_index(q, k)) {
                        (Some(a), Some(b)) => {
                            assert(q[a].0 == p[a].0);
                            assert(q[b].0 == p[b].0);
                            if a < b {
                                assert(q[a].0 != k);
                            }
                            if b < a {
                                assert(p[b].0 != k);
                            }
                            assert(a == b);
                            assert(a != i);
                        },
                        (Some(a), None) => {
                            assert(q[a].0 == p[a].0);
                        },
                        (None, Some(b)) => {
                            assert(q[b].0 == p[b].0);
                        },
                        (None, None) => {},
                    }
                }
            },
            None => {
                let n = p.len() as int;
                assert(q[n] == (key, value));
                assert forall|j: int| 0 <= j < n implies (#[trigger] q[j]) == p[j] by {
                }
                assert(q.drop_last() =~= p);
            },
        }
    }
    if properties::distinct_keys(p) {
        assert forall|i: int, j: int| 0 <= i < j < q.len() implies (#[trigger] q[i]).0 != (
        #[trigger] q[j]).0 by {
            match properties::key_index(p, key) {
                Some(n) => {
                    assert(q[i].0 == p[i].0);
                    assert(q[j].0 == p[j].0);
                },
                None => {
                    assert(q[i] == p[i]);
                },
            }
        }
    }
}

/// How the value of a key that lines set changes where `p` has one for it.
spec fn overridden(old: Option<Seq<char>>, new: Option<Seq<char>>) -> Option<Seq<char>> {
    match old {
        None => None,
        Some(_) => match new {
            Some(v) => Some(v),
            None => old,
        },
    }
}

proof fn lemma_rewritten_settings(ls: Seq<Seq<char>>, p: Seq<(Seq<char>, Seq<char>)>)
    requires
        all_fit(p),
    ensures
        forall|k: Seq<char>| #[trigger]
            properties::value_of(
                properties::settings(properties::all_rewritten(ls, p)),
                k,
            ) == overridden(
                properties::value_of(properties::settings(ls), k),
                properties::value_of(p, k),
            ),
    decreases ls.len(),
{
    let m = properties::all_rewritten(ls, p);
    if ls.len() > 0 {
        let front = ls.drop_last();
        lemma_rewritten_settings(front, p);
        let mf = properties::all_rewritten(front, p);
        assert(m.drop_last() =~= mf);
        let l = ls.last();
        assert(m.last() == properties::rewritten(l, p));
        if let Some((k, v)) = properties::setting(l) {
            law_put_then_get(properties::settings(front), k, v);
            if let Some(w) = properties::value_of(p, k) {
                properties::lemma_key_index(p, k);
                let i = properties::key_index(p, k)->0;
                assert(key_fits(p[i].0) && value_fits(p[i].1));
                law_setting_line_read_back(k, w);
                law_put_then_get(properties::settings(mf), k, w);
            } else {
                law_put_then_get(properties::settings(mf), k, v);
            }
        }
    } else {
        assert(m =~= ls);
    }
}

proof fn lemma_added_settings(
    start: Seq<Seq<char>>,
    p: Seq<(Seq<char>, Seq<char>)>,
    old: Seq<(Seq<char>, Seq<char>)>,
    n: nat,
)
    requires
        all_fit(p),
        properties::distinct_keys(p),
        n <= p.len(),
        forall|k: Seq<char>| #[trigger]
            properties::value_of(properties::settings(start), k) == overridden(
                properties::value_of(old, k),
                properties::value_of(p, k),
            ),
    ensures
        forall|k: Seq<char>| #[trigger]
            properties::value_of(
                properties::settings(start + properties::added(p, old, n)),
                k,
            ) == (match properties::key_index(p, k) {
                Some(i) => if i < n || properties::value_of(old, k) is Some {
                    Some(p[i].1)
                } else {
                    None
                },
                None => properties::value_of(old, k),
            }),
    decreases n,
{
    let s = start + properties::added(p, old, n);
    if n == 0 {
        assert(s =~= start);
        assert forall|k: Seq<char>| #[trigger]
            properties::value_of(properties::settings(s), k) == (match properties::key_index(p, k) {
                Some(i) => if i < n || properties::value_of(old, k) is Some {
                    Some(p[i].1)
                } else {
                    None
                },
                None => properties::value_of(old, k),
            }) by {
            properties::lemma_key_index(p, k);
        }
    } else {
        let m = (n - 1) as nat;
        lemma_added_settings(start, p, old, m);
        let f = start + properties::added(p, old, m);
        let (key, value) = p[m as int];
        assert(key_fits(p[m as int].0) && value_fits(p[m as int].1));
        properties::lemma_key_index(p, key);
        assert(properties::key_index(p, key) == Some(m as int)) by {
            let i = properties::key_index(p, key)->0;
            if i != m {
                assert(p[i].0 != p[m as int].0);
            }
        }
        if properties::key_index(old, key) is None {
            let l = properties::setting_line(key, value);
            assert(s =~= f.push(l));
            assert(s.drop_last() =~= f);
            law_setting_line_read_back(key, value);
            law_put_then_get(properties::settings(f), key, value);
        }
        assert forall|k: Seq<char>| #[trigger]
            properties::value_of(properties::settings(s), k) == (match properties::key_index(p, k) {
                Some(i) => if i < n || properties::value_of(old, k) is Some {
                    Some(p[i].1)
                } else {
                    None
                },
                None => properties::value_of(old, k),
            }) by {
            properties::lemma_key_index(p, k);
            if let Some(i) = properties::key_index(p, k) {
                if i == m {
                    assert(p[i].0 == key);
                }
            }
            assert(properties::value_of(properties::settings(f), k) == (
            match properties::key_index(p, k) {
                Some(i) => if i < m || properties::value_of(old, k) is Some {
                    Some(p[i].1)
                } else {
                    None
                },
                None => properties::value_of(old, k),
            }));
        }
    }
}

proof fn lemma_lines_clean(content: Seq<char>)
    ensures
        forall|i: int|
            0 <= i < text::line_seq(content).len() ==> !(#[trigger] text::line_seq(
                content,
            )[i]).contains('\n'),
{
    let p = text::pieces(content, '\n', '\n');
    let ls = text::line_seq(content);
    text::lemma_pieces_clean(content, '\n', '\n');
    text::lemma_pieces_some(content, '\n', '\n');
    assert forall|i: int| 0 <= i < ls.len() implies !(#[trigger] ls[i]).contains('\n') by {
        assert(!p[i].contains('\n'));
        if i < p.len() - 1 {
            assert(ls[i] == text::without_cr(p[i]));
            assert forall|k: int| 0 <= k < ls[i].len() implies ls[i][k] != '\n' by {
                assert(ls[i][k] == p[i][k]);
            }
        } else {
            assert(ls[i] == p[i]);
        }
    }
}

/// The lines of a file are those it was made of, but for carriage returns at their ends.
pub proof fn law_file_lines(lines: Seq<Seq<char>>)
    requires
        lines.len() > 0,
        forall|i: int| 0 <= i < lines.len() ==> !(#[trigger] lines[i]).contains('\n'),
    ensures
        text::line_seq(properties::file_of(lines)) == lines.map_values(
            |l: Seq<char>| text::without_cr(l),
        ),
{
    lemma_equals_sign();
    text::lemma_pieces_joined(lines, '\n');
    let j = text::joined(lines, "\n"@);
    text::lemma_pieces_around(j, Seq::<char>::empty(), '\n');
    let f = properties::file_of(lines);
    assert(j.push('\n') + Seq::<char>::empty() =~= f);
    let p = text::pieces(f, '\n', '\n');
    assert(text::pieces(Seq::<char>::empty(), '\n', '\n') =~= seq![Seq::<char>::empty()]);
    assert(p =~= lines.push(Seq::<char>::empty()));
    assert(p.drop_last() =~= lines);
}

proof fn lemma_new_lines_clean(content: Seq<char>, p: Seq<(Seq<char>, Seq<char>)>)
    requires
        all_fit(p),
    ensures
        forall|i: int|
            0 <= i < properties::new_lines(text::line_seq(content), p).len() ==> !(
            #[trigger] properties::new_lines(text::line_seq(content), p)[i]).contains('\n'),
{
    let ls = text::line_seq(content);
    let out = properties::new_lines(ls, p);
    lemma_lines_clean(content);
    lemma_added_clean(p, properties::settings(ls), p.len());
    assert forall|i: int| 0 <= i < out.len() implies !(#[trigger] out[i]).contains('\n') by {
        if i < ls.len() {
            assert(!ls[i].contains('\n'));
            assert(out[i] == properties::rewritten(ls[i], p));
            if let Some((k, _)) = properties::setting(ls[i]) {
                if let Some(v) = properties::value_of(p, k) {
                    properties::lemma_key_index(p, k);
                    let n = properties::key_index(p, k)->0;
                    lemma_setting_line_clean(p[n].0, p[n].1);
                }
            }
        } else {
            assert(out[i] == properties::added(p, properties::settings(ls), p.len())[i - ls.len()]);
        }
    }
}

proof fn lemma_setting_line_clean(k: Seq<char>, v: Seq<char>)
    requires
        key_fits(k),
        value_fits(v),
    ensures
        !properties::setting_line(k, v).contains('\n'),
{
    lemma_equals_sign();
    let l = properties::setting_line(k, v);
    assert forall|i: int| 0 <= i < l.len() implies l[i] != '\n' by {
        if i < k.len() {
            assert(l[i] == k[i]);
        } else if i > k.len() {
            assert(l[i] == v[i - k.len() - 1]);
        }
    }
}

proof fn lemma_added_clean(
    p: Seq<(Seq<char>, Seq<char>)>,
    old: Seq<(Seq<char>, Seq<char>)>,
    n: nat,
)
    requires
        all_fit(p),
        n <= p.len(),
    ensures
        forall|i: int|
            0 <= i < properties::added(p, old, n).len() ==> !(#[trigger] properties::added(
                p,
                old,
                n,
            )[i]).contains('\n'),
    decreases n,
{
    if n > 0 {
        let m = (n - 1) as nat;
        lemma_added_clean(p, old, m);
        assert(key_fits(p[m as int].0) && value_fits(p[m as int].1));
        lemma_setting_line_clean(p[m as int].0, p[m as int].1);
        let f = properties::added(p, old, m);
        let r = properties::added(p, old, n);
        assert forall|i: int| 0 <= i < r.len() implies !(#[trigger] r[i]).contains('\n') by {
            if i < f.len() {
                assert(r[i] == f[i]);
            }
        }
    }
}

/// Reading a file back after settings were written to it gives each of them; a key that none of
/// them names keeps the value it had.
pub proof fn law_read_after_write(content: Seq<char>, p: Seq<(Seq<char>, Seq<char>)>)
    requires
        properties::distinct_keys(p),
        all_fit(p),
    ensures
        forall|k: Seq<char>| #[trigger]
            properties::value_of(
                properties::settings(text::line_seq(properties::written(content, p))),
                k,
            ) == (match properties::value_of(p, k) {
                Some(v) => Some(v),
                None => properties::value_of(properties::settings(text::line_seq(content)), k),
            }),
{
    let ls = text::line_seq(content);
    let out = properties::new_lines(ls, p);
    let file = properties::written(content, p);
    lemma_new_lines_clean(content, p);
    if out.len() > 0 {
        law_file_lines(out);
        lemma_settings_without_cr(out);
    } else {
        lemma_equals_sign();
        assert(file =~= seq!['\n']);
        assert(file.drop_last() =~= Seq::<char>::empty());
        let e = Seq::<char>::empty();
        assert(text::pieces(e, '\n', '\n') =~= seq![e]);
        assert(text::pieces(file, '\n', '\n') =~= seq![e, e]);
        let m = text::line_seq(file);
        assert(m =~= seq![e]);
        assert(m.drop_last() =~= Seq::<Seq<char>>::empty());
        assert(properties::setting(e) is None);
        assert(properties::settings(m) =~= properties::settings(out));
    }
    assert(properties::settings(text::line_seq(file)) == properties::settings(out));
    lemma_rewritten_settings(ls, p);
    let start = properties::all_rewritten(ls, p);
    lemma_added_settings(start, p, properties::settings(ls), p.len());
    assert forall|k: Seq<char>| #[trigger]
        properties::value_of(properties::settings(text::line_seq(file)), k) == (
        match properties::value_of(p, k) {
            Some(v) => Some(v),
            None => properties::value_of(properties::settings(ls), k),
        }) by {
        properties::lemma_key_index(p, k);
        assert(properties::value_of(properties::settings(out), k) == (match properties::key_index(
            p,
            k,
        ) {
            Some(i) => if i < p.len() || properties::value_of(properties::settings(ls), k) is Some {
                Some(p[i].1)
            } else {
                None
            },
            None => properties::value_of(properties::settings(ls), k),
        }));
    }
}

proof fn lemma_settings_fit(ls: Seq<Seq<char>>)
    requires
        forall|i: int| 0 <= i < ls.len() ==> !(#[trigger] ls[i]).contains('\n'),
    ensures
        all_fit(properties::settings(ls)),
        properties::distinct_keys(properties::settings(ls)),
    decreases ls.len(),
{
    if ls.len() > 0 {
        let front = ls.drop_last();
        assert forall|i: int| 0 <= i < front.len() implies !(#[trigger] front[i]).contains(
            '\n',
        ) by {
            assert(front[i] == ls[i]);
        }
        lemma_settings_fit(front);
        assert(!ls[ls.len() - 1].contains('\n'));
        lemma_setting_fits(ls.last());
        if let Some((k, v)) = properties::setting(ls.last()) {
            law_put_then_get(properties::settings(front), k, v);
            lemma_put_fits(properties::settings(front), k, v);
        }
    }
}

proof fn lemma_put_fits(p: Seq<(Seq<char>, Seq<char>)>, k: Seq<char>, v: Seq<char>)
    requires
        all_fit(p),
        key_fits(k),
        value_fits(v),
    ensures
        all_fit(properties::put(p, k, v)),
{
    let q = properties::put(p, k, v);
    properties::lemma_key_index(p, k);
    assert forall|i: int| 0 <= i < q.len() implies key_fits((#[trigger] q[i]).0) && value_fits(
        q[i].1,
    ) by {
        if i < p.len() {
            assert(key_fits(p[i].0) && value_fits(p[i].1));
        }
    }
}

proof fn lemma_put_all(base: Seq<(Seq<char>, Seq<char>)>, updates: Seq<(Seq<char>, Seq<char>)>)
    requires
        all_fit(base),
        properties::distinct_keys(base),
        all_fit(updates),
    ensures
        all_fit(properties::put_all(base, updates)),
        properties::distinct_keys(properties::put_all(base, updates)),
        forall|k: Seq<char>| #[trigger]
            properties::value_of(properties::put_all(base, updates), k) == (match last_update(
                updates,
                k,
            ) {
                Some(v) => Some(v),
                None => properties::value_of(base, k),
            }),
    decreases updates.len(),
{
    if updates.len() > 0 {
        let front = updates.drop_last();
        assert forall|i: int| 0 <= i < front.len() implies key_fits((#[trigger] front[i]).0)
            && value_fits(front[i].1) by {
            assert(front[i] == updates[i]);
        }
        lemma_put_all(base, front);
        let (k, v) = updates.last();
        assert(key_fits(updates[updates.len() - 1].0) && value_fits(
            updates[updates.len() - 1].1,
        ));
        law_put_then_get(properties::put_all(base, front), k, v);
        lemma_put_fits(properties::put_all(base, front), k, v);
    }
}

/// The value that the last update of a key sets.
pub open spec fn last_update(updates: Seq<(Seq<char>, Seq<char>)>, k: Seq<char>) -> Option<
    Seq<char>,
>
    decreases updates.len(),
{
    if updates.len() == 0 {
        None
    } else if updates.last().0 == k {
        Some(updates.last().1)
    } else {
        last_update(updates.drop_last(), k)
    }
}

/// After settings were changed, reading the file gives each key the value it was last set to, and
/// every other key the value it had.
pub proof fn law_set_then_read(content: Seq<char>, updates: Seq<(Seq<char>, Seq<char>)>)
    requires
        all_fit(updates),
    ensures
        forall|k: Seq<char>| #[trigger]
            properties::value_of(
                properties::settings(
                    text::line_seq(
                        properties::written(
                            content,
                            properties::put_all(
                                properties::settings(text::line_seq(content)),
                                updates,
                            ),
                        ),
                    ),
                ),
                k,
            ) == (match last_update(updates, k) {
                Some(v) => Some(v),
                None => properties::value_of(properties::settings(text::line_seq(content)), k),
            }),
{
    let base = properties::settings(text::line_seq(content));
    lemma_lines_clean(content);
    lemma_settings_fit(text::line_seq(content));
    lemma_put_all(base, updates);
    law_read_after_write(content, properties::put_all(base, updates));
}

/// Keys and values as a map.
pub open spec fn as_map(p: Seq<(Seq<char>, Seq<char>)>) -> Map<Seq<char>, Seq<char>> {
    Map::new(
        |k: Seq<char>| properties::value_of(p, k) is Some,
        |k: Seq<char>| properties::value_of(p, k).unwrap(),
    )
}

proof fn lemma_one_update(updates: Seq<(Seq<char>, Seq<char>)>, k: Seq<char>)
    requires
        properties::distinct_keys(updates),
    ensures
        last_update(updates, k) == properties::value_of(updates, k),
    decreases updates.len(),
{
    if updates.len() > 0 {
        let front = updates.drop_last();
        assert forall|i: int, j: int| 0 <= i < j < front.len() implies (#[trigger] front[i]).0 != (
        #[trigger] front[j]).0 by {
            assert(updates[i].0 != updates[j].0);
        }
        lemma_one_update(front, k);
        properties::lemma_key_index(front, k);
        properties::lemma_key_index(updates, k);
        if updates.last().0 == k {
            if let Some(i) = properties::key_index(front, k) {
                assert(front[i] == updates[i]);
                assert(updates[i].0 != updates[updates.len() - 1].0);
            }
        } else if let Some(i) = properties::key_index(front, k) {
            assert(front[i] == updates[i]);
        }
    }
}

/// The whole round trip: after a change of settings the file shows the settings that it showed
/// before, with every updated key at its new value.
pub proof fn law_settings_round_trip(content: Seq<char>, updates: Seq<(Seq<char>, Seq<char>)>)
    requires
        all_fit(updates),
        properties::distinct_keys(updates),
    ensures
        as_map(properties::shown(properties::content_after(content, updates))) == as_map(
            properties::shown(content),
        ).union_prefer_right(as_map(updates)),
{
    let after = properties::shown(properties::content_after(content, updates));
    let before = properties::shown(content);
    law_set_then_read(content, updates);
    assert forall|k: Seq<char>| #[trigger] properties::value_of(after, k) == (
    match properties::value_of(updates, k) {
        Some(v) => Some(v),
        None => properties::value_of(before, k),
    }) by {
        lemma_one_update(updates, k);
    }
    assert(as_map(after) =~= as_map(before).union_prefer_right(as_map(updates)));
}

/// Writing settings keeps every line in its place: comments, blank lines and lines without `=` as
/// they are, and the others with their key.
pub proof fn law_lines_keep_their_place(content: Seq<char>, p: Seq<(Seq<char>, Seq<char>)>)
    requires
        all_fit(p),
    ensures
        ({
            let ls = text::line_seq(content);
            let out = properties::new_lines(ls, p);
            &&& out.len() >= ls.len()
            &&& forall|i: int|
                0 <= i < ls.len() ==> (match properties::setting(#[trigger] ls[i]) {
                    None => out[i] == ls[i],
                    Some((k, _)) => out[i] == ls[i] || (properties::value_of(p, k) matches Some(v)
                        && out[i] == properties::setting_line(k, v)),
                })
            &&& out.len() > 0 ==> text::line_seq(properties::written(content, p)) == out.map_values(
                |l: Seq<char>| text::without_cr(l),
            )
        }),
{
    let ls = text::line_seq(content);
    let out = properties::new_lines(ls, p);
    lemma_new_lines_clean(content, p);
    if out.len() > 0 {
        law_file_lines(out);
    }
    assert forall|i: int| 0 <= i < ls.len() implies (match properties::setting(#[trigger] ls[i]) {
        None => out[i] == ls[i],
        Some((k, _)) => out[i] == ls[i] || (properties::value_of(p, k) matches Some(v) && out[i]
            == properties::setting_line(k, v)),
    }) by {
        assert(out[i] == properties::rewritten(ls[i], p));
    }
}

} // verus!
