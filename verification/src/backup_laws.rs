//! What holds of the backups of an instance once the old ones were removed.

use crate::backup;
use crate::backup::BackupModel;
use crate::order;
use crate::paths;
use vstd::prelude::*;

verus! {

/// The items of which `p` holds, in order.
pub open spec fn kept<T>(s: Seq<T>, p: spec_fn(T) -> bool) -> Seq<T>
    decreases s.len(),
{
    if s.len() == 0 {
        s
    } else if p(s.last()) {
        kept(s.drop_last(), p).push(s.last())
    } else {
        kept(s.drop_last(), p)
    }
}

/// The files of a folder that are left once those with certain names were removed.
pub open spec fn files_left(files: Seq<(Seq<char>, u64)>, gone: Seq<Seq<char>>) -> Seq<
    (Seq<char>, u64),
> {
    kept(files, |f: (Seq<char>, u64)| !gone.contains(f.0))
}

/// Whether no two files of a folder share a name.
pub open spec fn distinct_names(files: Seq<(Seq<char>, u64)>) -> bool {
    forall|i: int, j: int| 0 <= i < j < files.len() ==> files[i].0 != files[j].0
}

/// The backups of a folder, newest first.
pub open spec fn listed(files: Seq<(Seq<char>, u64)>) -> Seq<BackupModel> {
    order::arranged(backup::infos_of(files), backup::newest_first())
}

/// The newest backups, as many as are to be kept.
pub open spec fn newest(all: Seq<BackupModel>, keep_count: nat) -> Seq<BackupModel> {
    if all.len() <= keep_count {
        all
    } else {
        all.take(keep_count as int)
    }
}

proof fn lemma_kept_members<T>(s: Seq<T>, p: spec_fn(T) -> bool)
    ensures
        forall|x: T| kept(s, p).contains(x) <==> s.contains(x) && p(x),
    decreases s.len(),
{
    if s.len() > 0 {
        let t = s.drop_last();
        lemma_kept_members(t, p);
        assert forall|x: T| kept(s, p).contains(x) <==> s.contains(x) && p(x) by {
            let k = kept(t, p);
            if s.contains(x) && s.index_of(x) < t.len() {
                assert(t[s.index_of(x)] == x);
            }
            if t.contains(x) {
                assert(s[t.index_of(x)] == x);
            }
            assert(s[s.len() - 1] == s.last());
            if p(s.last()) {
                let w = k.push(s.last());
                assert(w[k.len() as int] == s.last());
                if k.contains(x) {
                    assert(w[k.index_of(x)] == x);
                }
                if w.contains(x) && w.index_of(x) < k.len() {
                    assert(k[w.index_of(x)] == x);
                }
            }
        }
    }
}

proof fn lemma_kept_placed<T>(s: Seq<T>, x: T, p: spec_fn(T) -> bool, leq: spec_fn(T, T) -> bool)
    requires
        order::total_preorder(leq),
        order::ascending(s, leq),
    ensures
        kept(order::placed(s, x, leq), p) == if p(x) {
            order::placed(kept(s, p), x, leq)
        } else {
            kept(s, p)
        },
    decreases s.len(),
{
    let r = order::placed(s, x, leq);
    let k = kept(s, p);
    if s.len() == 0 || leq(s.last(), x) {
        assert(r.drop_last() =~= s);
        if p(x) && k.len() > 0 {
            lemma_kept_members(s, p);
            assert(k[k.len() - 1] == k.last());
            assert(k.contains(k.last()));
            assert(s.contains(k.last()));
            let i = s.index_of(k.last());
            if i < s.len() - 1 {
                assert(leq(s[i], s[s.len() - 1]));
            }
            assert(leq(k.last(), x));
        }
    } else {
        let t = s.drop_last();
        assert forall|i: int, j: int| 0 <= i < j < t.len() implies #[trigger] leq(t[i], t[j]) by {
            assert(leq(s[i], s[j]));
        }
        lemma_kept_placed(t, x, p, leq);
        assert(r.drop_last() =~= order::placed(t, x, leq));
        if p(s.last()) {
            assert(k.drop_last() =~= kept(t, p));
        }
    }
}

proof fn lemma_kept_arranged<T>(s: Seq<T>, p: spec_fn(T) -> bool, leq: spec_fn(T, T) -> bool)
    requires
        order::total_preorder(leq),
    ensures
        order::arranged(kept(s, p), leq) == kept(order::arranged(s, leq), p),
    decreases s.len(),
{
    if s.len() > 0 {
        let t = s.drop_last();
        lemma_kept_arranged(t, p, leq);
        order::lemma_arranged(t, leq);
        lemma_kept_placed(order::arranged(t, leq), s.last(), p, leq);
        if p(s.last()) {
            assert(kept(s, p).drop_last() =~= kept(t, p));
        }
    }
}

proof fn lemma_infos_kept(files: Seq<(Seq<char>, u64)>, gone: Seq<Seq<char>>)
    ensures
        backup::infos_of(files_left(files, gone)) == kept(
            backup::infos_of(files),
            |b: BackupModel| !gone.contains(b.filename),
        ),
    decreases files.len(),
{
    let p = |b: BackupModel| !gone.contains(b.filename);
    if files.len() > 0 {
        let t = files.drop_last();
        let f = files.last();
        lemma_infos_kept(t, gone);
        if !gone.contains(f.0) {
            assert(files_left(files, gone).drop_last() =~= files_left(t, gone));
        }
        if paths::extension_of(f.0) == Some("zst"@) {
            assert(backup::infos_of(files).drop_last() =~= backup::infos_of(t));
        }
    }
}

proof fn lemma_infos_from(files: Seq<(Seq<char>, u64)>)
    ensures
        forall|i: int|
            0 <= i < backup::infos_of(files).len() ==> paths::extension_of(
                (#[trigger] backup::infos_of(files)[i]).filename,
            ) == Some("zst"@) && exists|k: int|
                0 <= k < files.len() && #[trigger] files[k].0 == backup::infos_of(files)[i].filename,
    decreases files.len(),
{
    let infos = backup::infos_of(files);
    if files.len() > 0 {
        let t = files.drop_last();
        lemma_infos_from(t);
        let front = backup::infos_of(t);
        assert forall|i: int| 0 <= i < infos.len() implies paths::extension_of(
            (#[trigger] infos[i]).filename,
        ) == Some("zst"@) && exists|k: int|
            0 <= k < files.len() && #[trigger] files[k].0 == infos[i].filename by {
            if i < front.len() {
                assert(infos[i] == front[i]);
                let k = choose|k: int| 0 <= k < t.len() && #[trigger] t[k].0 == front[i].filename;
                assert(files[k].0 == infos[i].filename);
            } else {
                assert(files[files.len() - 1].0 == infos[i].filename);
            }
        }
    }
}

proof fn lemma_infos_distinct(files: Seq<(Seq<char>, u64)>)
    requires
        distinct_names(files),
    ensures
        forall|i: int, j: int|
            0 <= i < j < backup::infos_of(files).len() ==> backup::infos_of(files)[i].filename
                != backup::infos_of(files)[j].filename,
    decreases files.len(),
{
    if files.len() > 0 {
        let t = files.drop_last();
        lemma_infos_distinct(t);
        lemma_infos_from(t);
        let front = backup::infos_of(t);
        let infos = backup::infos_of(files);
        assert forall|i: int, j: int| 0 <= i < j < infos.len() implies infos[i].filename
            != infos[j].filename by {
            assert(infos[i] == front[i]);
            if j < front.len() {
                assert(infos[j] == front[j]);
            } else {
                let k = choose|k: int| 0 <= k < t.len() && #[trigger] t[k].0 == front[i].filename;
                assert(files[k].0 != files[files.len() - 1].0);
            }
        }
    }
}

/// No two backups of a listing share a name.
proof fn lemma_listed_distinct(files: Seq<(Seq<char>, u64)>)
    requires
        distinct_names(files),
    ensures
        forall|i: int, j: int|
            0 <= i < j < listed(files).len() ==> listed(files)[i].filename
                != listed(files)[j].filename,
{
    let infos = backup::infos_of(files);
    let all = listed(files);
    let leq = backup::newest_first();
    assert(order::total_preorder(leq));
    lemma_infos_distinct(files);
    assert(infos.no_duplicates());
    order::lemma_arranged(infos, leq);
    order::lemma_arranged_members(infos, leq);
    infos.lemma_multiset_has_no_duplicates();
    all.lemma_multiset_has_no_duplicates_conv();
    assert forall|i: int, j: int| 0 <= i < j < all.len() implies all[i].filename
        != all[j].filename by {
        assert(all.contains(all[i]) && all.contains(all[j]));
        assert(infos.contains(all[i]) && infos.contains(all[j]));
        let a = infos.index_of(all[i]);
        let b = infos.index_of(all[j]);
        assert(infos[a] == all[i] && infos[b] == all[j]);
        assert(all[i] != all[j]);
    }
}

proof fn lemma_kept_front<T>(s: Seq<T>, p: spec_fn(T) -> bool, n: int)
    requires
        0 <= n <= s.len(),
        forall|i: int| 0 <= i < s.len() ==> (p(#[trigger] s[i]) <==> i < n),
    ensures
        kept(s, p) == s.take(n),
    decreases s.len(),
{
    if s.len() > 0 {
        let t = s.drop_last();
        assert forall|i: int| 0 <= i < t.len() implies (p(#[trigger] t[i]) <==> i < n) by {
            assert(t[i] == s[i]);
        }
        assert(s.last() == s[s.len() - 1]);
        if n == s.len() {
            lemma_kept_front(t, p, n - 1);
            assert(t.take(n - 1).push(s.last()) =~= s.take(n));
        } else {
            lemma_kept_front(t, p, n);
            assert(t.take(n) =~= s.take(n));
        }
    } else {
        assert(s.take(n) =~= s);
    }
}

/// Once the outdated backups of a folder were removed, the list holds the newest, as many as are to
/// be kept; to apply the rule again removes nothing, and files that are no backups stay.
pub proof fn law_retention_leaves_the_newest(files: Seq<(Seq<char>, u64)>, keep_count: nat)
    requires
        distinct_names(files),
    ensures
        ({
            let gone = backup::outdated(listed(files), keep_count);
            let left = files_left(files, gone);
            &&& listed(left) == newest(listed(files), keep_count)
            &&& backup::outdated(listed(left), keep_count).len() == 0
            &&& listed(files).len() <= keep_count ==> left == files
            &&& forall|f: (Seq<char>, u64)|
                #![trigger left.contains(f)]
                files.contains(f) && paths::extension_of(f.0) != Some("zst"@) ==> left.contains(f)
        }),
{
    let infos = backup::infos_of(files);
    let all = listed(files);
    let gone = backup::outdated(all, keep_count);
    let left = files_left(files, gone);
    let leq = backup::newest_first();
    let p = |b: BackupModel| !gone.contains(b.filename);
    let n: int = if all.len() <= keep_count {
        all.len() as int
    } else {
        keep_count as int
    };
    assert(order::total_preorder(leq));
    lemma_infos_kept(files, gone);
    lemma_kept_arranged(infos, p, leq);
    lemma_listed_distinct(files);
    assert forall|i: int| 0 <= i < all.len() implies (p(#[trigger] all[i]) <==> i < n) by {
        if i < n {
            if gone.contains(all[i].filename) {
                let k = gone.index_of(all[i].filename);
                assert(gone[k] == all[n + k].filename);
            }
        } else {
            assert(gone[i - n] == all[i].filename);
        }
    }
    lemma_kept_front(all, p, n);
    assert(all.take(all.len() as int) =~= all);
    assert(listed(left) =~= newest(all, keep_count));
    let q = |f: (Seq<char>, u64)| !gone.contains(f.0);
    lemma_kept_members(files, q);
    if all.len() <= keep_count {
        lemma_kept_front(files, q, files.len() as int);
        assert(files.take(files.len() as int) =~= files);
    }
    lemma_infos_from(files);
    order::lemma_arranged_members(infos, leq);
    assert forall|f: (Seq<char>, u64)|
        #![trigger left.contains(f)]
        files.contains(f) && paths::extension_of(f.0) != Some("zst"@) implies left.contains(f) by {
        if gone.contains(f.0) {
            let k = gone.index_of(f.0);
            assert(gone[k] == all[n + k].filename);
            assert(all.contains(all[n + k]));
            assert(infos.contains(all[n + k]));
            let i = infos.index_of(all[n + k]);
            assert(infos[i].filename == f.0);
        }
    }
}

/// The order in which a folder is read makes no difference to the list where no two backups are of
/// one second.
pub proof fn law_listing_ignores_the_order_of_the_folder(
    files: Seq<(Seq<char>, u64)>,
    again: Seq<(Seq<char>, u64)>,
)
    requires
        backup::infos_of(again).to_multiset() == backup::infos_of(files).to_multiset(),
        forall|i: int, j: int|
            0 <= i < j < backup::infos_of(files).len() ==> backup::infos_of(files)[i].created_at
                != backup::infos_of(files)[j].created_at,
    ensures
        listed(again) == listed(files),
{
    let leq = backup::newest_first();
    let infos = backup::infos_of(files);
    assert(order::total_preorder(leq));
    order::lemma_arranged(infos, leq);
    order::lemma_arranged(backup::infos_of(again), leq);
    order::lemma_arranged_members(infos, leq);
    let x = listed(files);
    assert(infos.no_duplicates());
    infos.lemma_multiset_has_no_duplicates();
    x.lemma_multiset_has_no_duplicates_conv();
    assert forall|i: int, j: int| 0 <= i < j < x.len() implies x[i].created_at
        > x[j].created_at by {
        assert(leq(x[i], x[j]));
        assert(x.contains(x[i]) && x.contains(x[j]));
        assert(infos.contains(x[i]) && infos.contains(x[j]));
        let a = infos.index_of(x[i]);
        let b = infos.index_of(x[j]);
        assert(infos[a] == x[i] && infos[b] == x[j]);
    }
    lemma_one_order(x, listed(again));
}

proof fn lemma_one_order(x: Seq<BackupModel>, y: Seq<BackupModel>)
    requires
        forall|i: int, j: int| 0 <= i < j < x.len() ==> x[i].created_at > x[j].created_at,
        order::ascending(y, backup::newest_first()),
        x.to_multiset() == y.to_multiset(),
    ensures
        x == y,
    decreases x.len(),
{
    broadcast use vstd::seq_lib::group_to_multiset_ensures;

    let leq = backup::newest_first();
    assert(x.to_multiset().len() == x.len() && y.to_multiset().len() == y.len());
    if x.len() > 0 {
        let n = x.len() - 1;
        assert(x.contains(x[n]) && y.contains(y[n]));
        assert(y.to_multiset().count(x[n]) > 0 && x.to_multiset().count(y[n]) > 0);
        assert(x.contains(y[n]) && y.contains(x[n]));
        let i = x.index_of(y[n]);
        let j = y.index_of(x[n]);
        assert(x[i] == y[n] && y[j] == x[n]);
        if j < n {
            assert(leq(y[j], y[n]));
        }
        assert(x[n] == y[n]);
        let s = x.drop_last();
        let t = y.drop_last();
        assert(x =~= s.push(x[n]) && y =~= t.push(y[n]));
        assert(s.to_multiset() =~= t.to_multiset()) by {
            assert(s.to_multiset() =~= x.to_multiset().remove(x[n]));
            assert(t.to_multiset() =~= y.to_multiset().remove(y[n]));
        }
        assert forall|a: int, b: int| 0 <= a < b < t.len() implies #[trigger] leq(t[a], t[b]) by {
            assert(leq(y[a], y[b]));
        }
        lemma_one_order(s, t);
    } else {
        assert(x =~= y);
    }
}

} // verus!
