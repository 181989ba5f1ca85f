//! The file `server.properties`: lines `key=value`, comments and blank lines.

use crate::text;
use vstd::prelude::*;

verus! {

/// The view of a list of keys and values.
pub open spec fn pairs_view(v: Seq<(String, String)>) -> Seq<(Seq<char>, Seq<char>)> {
    v.map_values(|p: (String, String)| (p.0@, p.1@))
}

/// Where a key stands first in a list.
pub open spec fn key_index(p: Seq<(Seq<char>, Seq<char>)>, key: Seq<char>) -> Option<int>
    decreases p.len(),
{
    if p.len() == 0 {
        None
    } else {
        match key_index(p.drop_last(), key) {
            Some(i) => Some(i),
            None => if p.last().0 == key {
                Some(p.len() - 1)
            } else {
                None
            },
        }
    }
}

/// The value of a key.
pub open spec fn value_of(p: Seq<(Seq<char>, Seq<char>)>, key: Seq<char>) -> Option<Seq<char>> {
    match key_index(p, key) {
        Some(i) => Some(p[i].1),
        None => None,
    }
}

/// The list with a key set to a value: in place where the key stands, at the end where it is new.
pub open spec fn put(
    p: Seq<(Seq<char>, Seq<char>)>,
    key: Seq<char>,
    value: Seq<char>,
) -> Seq<(Seq<char>, Seq<char>)> {
    match key_index(p, key) {
        Some(i) => p.update(i, (key, value)),
        None => p.push((key, value)),
    }
}

/// The list with the pairs of `updates` set, one after the other.
pub open spec fn put_all(
    p: Seq<(Seq<char>, Seq<char>)>,
    updates: Seq<(Seq<char>, Seq<char>)>,
) -> Seq<(Seq<char>, Seq<char>)>
    decreases updates.len(),
{
    if updates.len() == 0 {
        p
    } else {
        put(put_all(p, updates.drop_last()), updates.last().0, updates.last().1)
    }
}

/// Whether no key stands twice.
pub open spec fn distinct_keys(p: Seq<(Seq<char>, Seq<char>)>) -> bool {
    forall|i: int, j: int| 0 <= i < j < p.len() ==> (#[trigger] p[i]).0 != (#[trigger] p[j]).0
}

/// The key and the value that a line sets; a comment, a blank line and a line without `=` set
/// none.
pub open spec fn setting(line: Seq<char>) -> Option<(Seq<char>, Seq<char>)> {
    let t = text::trimmed(line);
    if t.len() == 0 || t[0] == '#' {
        None
    } else {
        match text::halves(t, "="@) {
            Some((k, v)) => Some((text::trimmed(k), text::trimmed(v))),
            None => None,
        }
    }
}

/// The keys and values that lines set; a later line overrides an earlier one.
pub open spec fn settings(lines: Seq<Seq<char>>) -> Seq<(Seq<char>, Seq<char>)>
    decreases lines.len(),
{
    if lines.len() == 0 {
        Seq::<(Seq<char>, Seq<char>)>::empty()
    } else {
        match setting(lines.last()) {
            Some((k, v)) => put(settings(lines.drop_last()), k, v),
            None => settings(lines.drop_last()),
        }
    }
}

/// The line that sets `key` to `value`.
pub open spec fn setting_line(key: Seq<char>, value: Seq<char>) -> Seq<char> {
    key + "="@ + value
}

/// A line with its value replaced by the one that `p` has for its key.
pub open spec fn rewritten(line: Seq<char>, p: Seq<(Seq<char>, Seq<char>)>) -> Seq<char> {
    match setting(line) {
        Some((k, _)) => match value_of(p, k) {
            Some(v) => setting_line(k, v),
            None => line,
        },
        None => line,
    }
}

/// Every line with its value replaced.
pub open spec fn all_rewritten(
    lines: Seq<Seq<char>>,
    p: Seq<(Seq<char>, Seq<char>)>,
) -> Seq<Seq<char>> {
    lines.map_values(|l: Seq<char>| rewritten(l, p))
}

/// The lines that set those among the first `n` pairs of `p` whose key no line of `old` sets.
pub open spec fn added(
    p: Seq<(Seq<char>, Seq<char>)>,
    old: Seq<(Seq<char>, Seq<char>)>,
    n: nat,
) -> Seq<Seq<char>>
    decreases n,
{
    if n == 0 {
        Seq::<Seq<char>>::empty()
    } else {
        let front = added(p, old, (n - 1) as nat);
        let (k, v) = p[n - 1];
        if key_index(old, k) is None {
            front.push(setting_line(k, v))
        } else {
            front
        }
    }
}

/// The lines of a file once it holds the settings of `p`: those it had, in their order, with new
/// values, then those that set new keys.
pub open spec fn new_lines(
    lines: Seq<Seq<char>>,
    p: Seq<(Seq<char>, Seq<char>)>,
) -> Seq<Seq<char>> {
    all_rewritten(lines, p) + added(p, settings(lines), p.len())
}

/// The content of a file with these lines.
pub open spec fn file_of(lines: Seq<Seq<char>>) -> Seq<char> {
    text::joined(lines, "\n"@) + "\n"@
}

/// The content of a file once it holds the settings of `p`.
pub open spec fn written(content: Seq<char>, p: Seq<(Seq<char>, Seq<char>)>) -> Seq<char> {
    file_of(new_lines(text::line_seq(content), p))
}

/// The place of a key holds the key, and no earlier place does.
pub proof fn lemma_key_index(p: Seq<(Seq<char>, Seq<char>)>, key: Seq<char>)
    ensures
        match key_index(p, key) {
            Some(i) => 0 <= i < p.len() && p[i].0 == key && forall|j: int|
                0 <= j < i ==> (#[trigger] p[j]).0 != key,
            None => forall|j: int| 0 <= j < p.len() ==> (#[trigger] p[j]).0 != key,
        },
    decreases p.len(),
{
    if p.len() > 0 {
        let t = p.drop_last();
        lemma_key_index(t, key);
        match key_index(t, key) {
            Some(i) => {
                assert(p[i] == t[i]);
                assert forall|j: int| 0 <= j < i implies (#[trigger] p[j]).0 != key by {
                    assert(t[j] == p[j]);
                }
            },
            None => {
                assert forall|j: int| 0 <= j < p.len() - 1 implies (#[trigger] p[j]).0 != key by {
                    assert(t[j] == p[j]);
                }
            },
        }
    }
}

/// Where a key stands in a list.
fn find_key(p: &Vec<(String, String)>, key: &str) -> (r: Option<usize>)
    ensures
        match r {
            Some(i) => i < p@.len() && key_index(pairs_view(p@), key@) == Some(i as int),
            None => key_index(pairs_view(p@), key@) is None,
        },
{
    let ghost v = pairs_view(p@);
    for i in 0..p.len()
        invariant
            v == pairs_view(p@),
            forall|j: int| 0 <= j < i ==> (#[trigger] v[j]).0 != key@,
    {
        assert(v[i as int] == (p[i as int].0@, p[i as int].1@));
        if text::same(p[i].0.as_str(), key) {
            proof {
                lemma_key_index(v, key@);
            }
            return Some(i);
        }
    }
    proof {
        lemma_key_index(v, key@);
    }
    None
}

/// The value of a key.
pub fn get(p: &Vec<(String, String)>, key: &str) -> (r: Option<String>)
    ensures
        text::opt_view(r) == value_of(pairs_view(p@), key@),
{
    match find_key(p, key) {
        Some(i) => Some(p[i].1.clone()),
        None => None,
    }
}

/// The list with a key set to a value.
pub fn set(p: Vec<(String, String)>, key: &str, value: &str) -> (r: Vec<(String, String)>)
    ensures
        pairs_view(r@) == put(pairs_view(p@), key@, value@),
{
    let ghost before = pairs_view(p@);
    let mut q = p;
    match find_key(&q, key) {
        Some(i) => {
            q.set(i, (key.to_string(), value.to_string()));
            assert(pairs_view(q@) =~= before.update(i as int, (key@, value@)));
        },
        None => {
            q.push((key.to_string(), value.to_string()));
            assert(pairs_view(q@) =~= before.push((key@, value@)));
        },
    }
    q
}

/// The list with the pairs of `updates` set, one after the other.
pub fn set_all(p: Vec<(String, String)>, updates: &Vec<(String, String)>) -> (r: Vec<
    (String, String),
>)
    ensures
        pairs_view(r@) == put_all(pairs_view(p@), pairs_view(updates@)),
{
    let ghost before = pairs_view(p@);
    let ghost u = pairs_view(updates@);
    let mut q = p;
    assert(u.take(0) =~= Seq::<(Seq<char>, Seq<char>)>::empty());
    for i in 0..updates.len()
        invariant
            u == pairs_view(updates@),
            pairs_view(q@) == put_all(before, u.take(i as int)),
    {
        assert(u.take(i + 1).drop_last() =~= u.take(i as int));
        assert(u[i as int] == (updates[i as int].0@, updates[i as int].1@));
        q = set(q, updates[i].0.as_str(), updates[i].1.as_str());
    }
    assert(u.take(u.len() as int) =~= u);
    q
}

/// The key and the value that a line sets.
pub fn parse_line(line: &str) -> (r: Option<(String, String)>)
    ensures
        text::pair_view(r) == setting(line@),
{
    let t = text::trim(line);
    let v = text::chars(t.as_str());
    if v.len() == 0 || v[0] == '#' {
        return None;
    }
    match text::split_once(t.as_str(), "=") {
        Some((k, w)) => Some((text::trim(k.as_str()), text::trim(w.as_str()))),
        None => None,
    }
}

/// The settings of a file.
pub fn parse_server_properties(content: &str) -> (r: Vec<(String, String)>)
    ensures
        pairs_view(r@) == shown(content@),
{
    let ls = text::lines(content);
    let ghost all = text::line_seq(content@);
    let mut r: Vec<(String, String)> = Vec::new();
    assert(pairs_view(r@) =~= settings(all.take(0)));
    for i in 0..ls.len()
        invariant
            all == text::views(ls@),
            pairs_view(r@) == settings(all.take(i as int)),
    {
        assert(all.take(i + 1).drop_last() =~= all.take(i as int));
        assert(all[i as int] == ls[i as int]@);
        if let Some((k, v)) = parse_line(ls[i].as_str()) {
            r = set(r, k.as_str(), v.as_str());
        }
    }
    assert(all.take(all.len() as int) =~= all);
    r
}

/// The content of a file once it holds the settings of `props`.
pub fn write_server_properties(content: &str, props: &Vec<(String, String)>) -> (r: String)
    ensures
        r@ == written(content@, pairs_view(props@)),
{
    let ls = text::lines(content);
    let old = parse_server_properties(content);
    let ghost all = text::line_seq(content@);
    let ghost p = pairs_view(props@);
    let mut out: Vec<String> = Vec::new();
    for i in 0..ls.len()
        invariant
            all == text::views(ls@),
            p == pairs_view(props@),
            text::views(out@) == all_rewritten(all.take(i as int), p),
    {
        assert(all[i as int] == ls[i as int]@);
        let ghost before = text::views(out@);
        let line = match parse_line(ls[i].as_str()) {
            Some((k, _)) => match get(props, k.as_str()) {
                Some(v) => {
                    let mut l = k;
                    l.append("=");
                    l.append(v.as_str());
                    l
                },
                None => ls[i].clone(),
            },
            None => ls[i].clone(),
        };
        assert(line@ == rewritten(all[i as int], p));
        out.push(line);
        assert(text::views(out@) =~= before.push(rewritten(all[i as int], p)));
        assert(all_rewritten(all.take(i + 1), p) =~= before.push(
            rewritten(all[i as int], p),
        ));
    }
    assert(all.take(all.len() as int) =~= all);
    let ghost front = text::views(out@);
    let ghost olds = pairs_view(old@);
    assert(text::views(out@) =~= front + added(p, olds, 0));
    for i in 0..props.len()
        invariant
            p == pairs_view(props@),
            olds == pairs_view(old@),
            text::views(out@) == front + added(p, olds, i as nat),
    {
        let ghost before = text::views(out@);
        assert(p[i as int] == (props[i as int].0@, props[i as int].1@));
        if find_key(&old, props[i].0.as_str()).is_none() {
            let mut l = props[i].0.clone();
            l.append("=");
            l.append(props[i].1.as_str());
            let ghost s = l@;
            out.push(l);
            assert(text::views(out@) =~= before.push(s));
            assert(text::views(out@) =~= front + added(p, olds, (i + 1) as nat));
        }
    }
    let mut r = text::join(&out, "\n");
    r.append("\n");
    r
}

/// The settings that a file shows.
pub open spec fn shown(content: Seq<char>) -> Seq<(Seq<char>, Seq<char>)> {
    settings(text::line_seq(content))
}

/// The content of a file after the settings in `updates` were made.
pub open spec fn content_after(
    content: Seq<char>,
    updates: Seq<(Seq<char>, Seq<char>)>,
) -> Seq<char> {
    written(content, put_all(shown(content), updates))
}

/// The content of a file after the settings in `updates` were made; there may be no file yet.
pub fn set_properties(content: Option<&str>, updates: &Vec<(String, String)>) -> (r: String)
    ensures
        r@ == content_after(
            match content {
                Some(c) => c@,
                None => ""@,
            },
            pairs_view(updates@),
        ),
{
    let old: &str = match content {
        Some(c) => c,
        None => "",
    };
    let props = set_all(parse_server_properties(old), updates);
    write_server_properties(old, &props)
}

/// The name of the folder that holds the world: what the first line that sets `level-name` to
/// something sets it to.
pub open spec fn level_name_in(lines: Seq<Seq<char>>) -> Option<Seq<char>>
    decreases lines.len(),
{
    if lines.len() == 0 {
        None
    } else {
        match level_name_in(lines.drop_last()) {
            Some(v) => Some(v),
            None => match setting(lines.last()) {
                Some((k, v)) => if k == "level-name"@ && v.len() > 0 {
                    Some(v)
                } else {
                    None
                },
                None => None,
            },
        }
    }
}

proof fn lemma_level_name_first(lines: Seq<Seq<char>>, n: int)
    requires
        0 <= n <= lines.len(),
        level_name_in(lines.take(n)) is Some,
    ensures
        level_name_in(lines) == level_name_in(lines.take(n)),
    decreases lines.len(),
{
    if n < lines.len() {
        assert(lines.drop_last().take(n) =~= lines.take(n));
        lemma_level_name_first(lines.drop_last(), n);
    } else {
        assert(lines.take(n) =~= lines);
    }
}

/// The name of the folder that holds the world, as the settings give it.
pub fn read_level_name(content: &str) -> (r: Option<String>)
    ensures
        text::opt_view(r) == level_name_in(text::line_seq(content@)),
{
    let ls = text::lines(content);
    let ghost all = text::line_seq(content@);
    for i in 0..ls.len()
        invariant
            all == text::views(ls@),
            all == text::line_seq(content@),
            level_name_in(all.take(i as int)) is None,
    {
        assert(all.take(i + 1).drop_last() =~= all.take(i as int));
        assert(all[i as int] == ls[i as int]@);
        if let Some((k, v)) = parse_line(ls[i].as_str()) {
            if text::same(k.as_str(), "level-name") && !v.as_str().is_empty() {
                proof {
                    lemma_level_name_first(all, i + 1);
                }
                return Some(v);
            }
        }
    }
    assert(all.take(all.len() as int) =~= all);
    None
}

/// The port that the first line starting with `server-port=` gives, where it gives one.
pub open spec fn port_in(lines: Seq<Seq<char>>) -> Option<nat>
    decreases lines.len(),
{
    if lines.len() == 0 {
        None
    } else if text::begins(lines[0], "server-port="@) {
        text::uint(text::trimmed(lines[0].skip("server-port="@.len() as int)), 65535)
    } else {
        port_in(lines.skip(1))
    }
}

/// The port that the settings give.
pub fn read_port(content: &str) -> (r: Option<u16>)
    ensures
        match r {
            Some(n) => port_in(text::line_seq(content@)) == Some(n as nat),
            None => port_in(text::line_seq(content@)) is None,
        },
{
    let ls = text::lines(content);
    let ghost all = text::line_seq(content@);
    assert(all.skip(0) =~= all);
    for i in 0..ls.len()
        invariant
            all == text::views(ls@),
            all == text::line_seq(content@),
            port_in(all) == port_in(all.skip(i as int)),
    {
        assert(all.skip(i as int)[0] == ls[i as int]@);
        assert(all.skip(i as int).skip(1) =~= all.skip(i + 1));
        if let Some(rest) = text::strip_prefix(ls[i].as_str(), "server-port=") {
            let t = text::trim(rest.as_str());
            return match text::parse_uint(t.as_str(), 65535) {
                Some(n) => Some(n as u16),
                None => None,
            };
        }
    }
    None
}

} // verus!
