//! What scanning, checking for newer versions, and updating are for.

use crate::datapack_mgr;
use crate::datapack_mgr::PackModel;
use crate::digest;
use crate::mod_mgr;
use crate::mod_mgr::ActionModel;
use crate::mod_mgr::AddModel;
use crate::mod_mgr::PendingModel;
use crate::mod_mgr::ProgressModel;
use crate::mod_mgr::ReplyModel;
use crate::modrinth;
use crate::modrinth::EntryModel;
use crate::modrinth::FileModel;
use crate::modrinth::UpdateActionModel;
use crate::modrinth::UpdateModel;
use crate::modrinth::UpdateReplyModel;
use crate::modrinth::UpdateRunModel;
use crate::modrinth::UpdateStage;
use crate::modrinth::VersionModel;
use crate::order;
use crate::path_laws;
use crate::paths;
use crate::text;
use vstd::prelude::*;

verus! {

/// Whether a file of a version is the one to install: its first primary file, or its first file
/// where none is primary.
pub open spec fn is_main(files: Seq<FileModel>, i: int) -> bool {
    &&& 0 <= i < files.len()
    &&& (files[i].primary && forall|j: int| 0 <= j < i ==> !(#[trigger] files[j]).primary) || (i == 0
        && forall|j: int| 0 <= j < files.len() ==> !(#[trigger] files[j]).primary)
}

proof fn lemma_first_primary(files: Seq<FileModel>)
    ensures
        match modrinth::first_primary(files) {
            Some(f) => exists|i: int|
                0 <= i < files.len() && #[trigger] files[i] == f && f.primary && forall|j: int|
                    0 <= j < i ==> !(#[trigger] files[j]).primary,
            None => forall|j: int| 0 <= j < files.len() ==> !(#[trigger] files[j]).primary,
        },
    decreases files.len(),
{
    if files.len() > 0 && !files[0].primary {
        let rest = files.skip(1);
        lemma_first_primary(rest);
        match modrinth::first_primary(rest) {
            Some(f) => {
                let i = choose|i: int|
                    0 <= i < rest.len() && #[trigger] rest[i] == f && f.primary && forall|j: int|
                        0 <= j < i ==> !(#[trigger] rest[j]).primary;
                assert(files[i + 1] == f);
                assert forall|j: int| 0 <= j < i + 1 implies !(#[trigger] files[j]).primary by {
                    if j > 0 {
                        assert(rest[j - 1] == files[j]);
                    }
                }
            },
            None => {
                assert forall|j: int| 0 <= j < files.len() implies !(
                #[trigger] files[j]).primary by {
                    if j > 0 {
                        assert(rest[j - 1] == files[j]);
                    }
                }
            },
        }
    }
}

/// Of the files of a version the first primary one is taken, or the first one where none is primary;
/// only a version without files has none to take.
pub proof fn law_main_file(files: Seq<FileModel>)
    ensures
        match modrinth::main_file(files) {
            Some(f) => exists|i: int| #[trigger] is_main(files, i) && files[i] == f,
            None => files.len() == 0,
        },
{
    lemma_first_primary(files);
    if let Some(f) = modrinth::first_primary(files) {
        let i = choose|i: int|
            0 <= i < files.len() && #[trigger] files[i] == f && f.primary && forall|j: int|
                0 <= j < i ==> !(#[trigger] files[j]).primary;
        assert(is_main(files, i));
    } else if files.len() > 0 {
        assert(is_main(files, 0));
    }
}

/// Whether an offer brings a version for an installed file: what is installed is told as it is, and
/// the address, the name and the fingerprint are those of one file of the version.
pub open spec fn brings(
    u: UpdateModel,
    e: EntryModel,
    hash: Seq<char>,
    v: VersionModel,
    i: int,
) -> bool {
    &&& e.sha512 == hash
    &&& u.project == e.project
    &&& u.name == e.name
    &&& u.installed_version == e.version
    &&& u.installed_number == e.number
    &&& u.latest_version == v.id
    &&& u.latest_number == v.version_number
    &&& u.installed_version != u.latest_version
    &&& is_main(v.files, i)
    &&& u.url == v.files[i].url
    &&& u.filename == v.files[i].filename
    &&& u.sha512 == v.files[i].sha512
}

/// What looking for newer versions gives.
pub open spec fn found_updates(
    lock: Seq<EntryModel>,
    latest: Seq<(Seq<char>, VersionModel)>,
) -> Seq<UpdateModel> {
    order::arranged(modrinth::offers(lock, latest), modrinth::updates_by_name())
}

proof fn lemma_last_entry(lock: Seq<EntryModel>, hash: Seq<char>)
    ensures
        match modrinth::last_entry(lock, hash) {
            Some(e) => exists|j: int|
                0 <= j < lock.len() && #[trigger] lock[j] == e && e.sha512 == hash && forall|k: int|
                    j < k < lock.len() ==> (#[trigger] lock[k]).sha512 != hash,
            None => forall|j: int| 0 <= j < lock.len() ==> (#[trigger] lock[j]).sha512 != hash,
        },
    decreases lock.len(),
{
    if lock.len() > 0 {
        let front = lock.drop_last();
        if lock.last().sha512 == hash {
            assert(lock[lock.len() - 1] == lock.last());
        } else {
            lemma_last_entry(front, hash);
            assert forall|j: int| 0 <= j < front.len() implies #[trigger] lock[j] == front[j] by {}
            if let Some(e) = modrinth::last_entry(front, hash) {
                let j = choose|j: int|
                    0 <= j < front.len() && #[trigger] front[j] == e && e.sha512 == hash && forall|
                        k: int,
                    |
                        j < k < front.len() ==> (#[trigger] front[k]).sha512 != hash;
                assert(lock[j] == e);
                assert forall|k: int| j < k < lock.len() implies (#[trigger] lock[k]).sha512
                    != hash by {
                    if k < front.len() {
                        assert(front[k] == lock[k]);
                    }
                }
            }
        }
    }
}

proof fn lemma_offers(lock: Seq<EntryModel>, latest: Seq<(Seq<char>, VersionModel)>, n: int)
    requires
        0 <= n < modrinth::offers(lock, latest).len(),
    ensures
        exists|j: int, k: int, i: int|
            0 <= j < lock.len() && 0 <= k < latest.len() && #[trigger] brings(
                modrinth::offers(lock, latest)[n],
                lock[j],
                latest[k].0,
                latest[k].1,
                i,
            ),
    decreases latest.len(),
{
    let front = latest.drop_last();
    let all = modrinth::offers(lock, latest);
    let some = modrinth::offers(lock, front);
    if n < some.len() {
        lemma_offers(lock, front, n);
        assert(all[n] == some[n]);
        let (j, k, i) = choose|j: int, k: int, i: int|
            0 <= j < lock.len() && 0 <= k < front.len() && #[trigger] brings(
                some[n],
                lock[j],
                front[k].0,
                front[k].1,
                i,
            );
        assert(brings(all[n], lock[j], latest[k].0, latest[k].1, i));
    } else {
        let (hash, v) = latest.last();
        lemma_last_entry(lock, hash);
        law_main_file(v.files);
        let e = modrinth::last_entry(lock, hash).unwrap();
        let j = choose|j: int|
            0 <= j < lock.len() && #[trigger] lock[j] == e && e.sha512 == hash && forall|k: int|
                j < k < lock.len() ==> (#[trigger] lock[k]).sha512 != hash;
        let f = modrinth::main_file(v.files).unwrap();
        let i = choose|i: int| #[trigger] is_main(v.files, i) && v.files[i] == f;
        let k = latest.len() - 1;
        assert(brings(all[n], lock[j], latest[k].0, latest[k].1, i));
    }
}

/// Every offer tells of one installed file and of one file of the latest version: its address, its
/// name and its fingerprint belong to that one file.
pub proof fn law_offers_tell_of_one_file(
    lock: Seq<EntryModel>,
    latest: Seq<(Seq<char>, VersionModel)>,
    n: int,
)
    requires
        0 <= n < found_updates(lock, latest).len(),
    ensures
        exists|j: int, k: int, i: int|
            0 <= j < lock.len() && 0 <= k < latest.len() && #[trigger] brings(
                found_updates(lock, latest)[n],
                lock[j],
                latest[k].0,
                latest[k].1,
                i,
            ),
{
    let all = modrinth::offers(lock, latest);
    let found = found_updates(lock, latest);
    order::lemma_arranged_members(all, modrinth::updates_by_name());
    assert(found.contains(found[n]));
    assert(all.contains(found[n]));
    let m = all.index_of(found[n]);
    assert(all[m] == found[n]);
    lemma_offers(lock, latest, m);
}

proof fn lemma_offered(
    lock: Seq<EntryModel>,
    latest: Seq<(Seq<char>, VersionModel)>,
    j: int,
    k: int,
)
    requires
        0 <= j < lock.len(),
        0 <= k < latest.len(),
        lock[j].sha512 == latest[k].0,
        forall|m: int| j < m < lock.len() ==> (#[trigger] lock[m]).sha512 != latest[k].0,
        lock[j].version != latest[k].1.id,
        latest[k].1.files.len() > 0,
    ensures
        exists|n: int, i: int|
            0 <= n < modrinth::offers(lock, latest).len() && #[trigger] brings(
                modrinth::offers(lock, latest)[n],
                lock[j],
                latest[k].0,
                latest[k].1,
                i,
            ),
    decreases latest.len(),
{
    let front = latest.drop_last();
    let all = modrinth::offers(lock, latest);
    let some = modrinth::offers(lock, front);
    if k < front.len() {
        assert(front[k] == latest[k]);
        lemma_offered(lock, front, j, k);
        let (n, i) = choose|n: int, i: int|
            0 <= n < some.len() && #[trigger] brings(
                some[n],
                lock[j],
                front[k].0,
                front[k].1,
                i,
            );
        assert(all[n] == some[n]);
        assert(brings(all[n], lock[j], latest[k].0, latest[k].1, i));
    } else {
        let (hash, v) = latest.last();
        lemma_last_entry(lock, hash);
        law_main_file(v.files);
        let e = modrinth::last_entry(lock, hash).unwrap();
        let m = choose|m: int|
            0 <= m < lock.len() && #[trigger] lock[m] == e && e.sha512 == hash && forall|x: int|
                m < x < lock.len() ==> (#[trigger] lock[x]).sha512 != hash;
        assert(m == j) by {
            if m < j {
                assert(lock[j].sha512 != hash);
            }
            if j < m {
                assert(lock[m].sha512 != hash);
            }
        }
        let f = modrinth::main_file(v.files).unwrap();
        let i = choose|i: int| #[trigger] is_main(v.files, i) && v.files[i] == f;
        assert(brings(all[all.len() - 1], lock[j], latest[k].0, latest[k].1, i));
    }
}

/// Every newer version is offered: where the latest version for the fingerprint of an installed file
/// is another one and has a file, there is an offer that brings it.
pub proof fn law_newer_versions_are_offered(
    lock: Seq<EntryModel>,
    latest: Seq<(Seq<char>, VersionModel)>,
    j: int,
    k: int,
)
    requires
        0 <= j < lock.len(),
        0 <= k < latest.len(),
        lock[j].sha512 == latest[k].0,
        forall|m: int| j < m < lock.len() ==> (#[trigger] lock[m]).sha512 != latest[k].0,
        lock[j].version != latest[k].1.id,
        latest[k].1.files.len() > 0,
    ensures
        exists|n: int, i: int|
            0 <= n < found_updates(lock, latest).len() && #[trigger] brings(
                found_updates(lock, latest)[n],
                lock[j],
                latest[k].0,
                latest[k].1,
                i,
            ),
{
    lemma_offered(lock, latest, j, k);
    let all = modrinth::offers(lock, latest);
    let found = found_updates(lock, latest);
    let (m, i) = choose|m: int, i: int|
        0 <= m < all.len() && #[trigger] brings(all[m], lock[j], latest[k].0, latest[k].1, i);
    order::lemma_arranged_members(all, modrinth::updates_by_name());
    assert(all.contains(all[m]));
    assert(found.contains(all[m]));
    let n = found.index_of(all[m]);
    assert(brings(found[n], lock[j], latest[k].0, latest[k].1, i));
}

/// An update that was offered can be made: the bytes of the file that it tells of pass the check and
/// go to disk under the name of that file, the old file goes where it had another name, and the list
/// then tells of the new version.
pub proof fn law_offered_updates_can_be_made(
    lock: Seq<EntryModel>,
    u: UpdateModel,
    e: EntryModel,
    v: VersionModel,
    i: int,
    bytes: Seq<u8>,
    old_filename: Seq<char>,
)
    requires
        brings(u, e, e.sha512, v, i),
        digest::hex_text(digest::sha512(bytes)) == v.files[i].sha512,
    ensures
        ({
            let first = UpdateRunModel {
                lock,
                update: u,
                old_filename,
                stage: UpdateStage::Download,
            };
            let (second, write) = modrinth::update_advanced(first, UpdateReplyModel::Bytes(bytes));
            let (third, next) = modrinth::update_advanced(second, UpdateReplyModel::Done);
            let (fourth, last) = modrinth::update_advanced(third, UpdateReplyModel::Done);
            &&& write == (UpdateActionModel::Write { filename: v.files[i].filename })
            &&& old_filename == v.files[i].filename ==> next is Finish && third.lock
                == modrinth::lock_after_update(lock, u)
            &&& old_filename != v.files[i].filename ==> {
                &&& next == (UpdateActionModel::Remove { filename: old_filename })
                &&& third.lock == lock
                &&& last is Finish
                &&& fourth.lock == modrinth::lock_after_update(lock, u)
            }
        }),
{
}

/// Other bytes are refused, and so is a download, a write or a removal that failed; the list stays
/// as it is.
pub proof fn law_failed_updates_change_nothing(m: UpdateRunModel, bytes: Seq<u8>, e: Seq<char>)
    ensures
        digest::hex_text(digest::sha512(bytes)) != m.update.sha512 ==> {
            let (next, action) = modrinth::update_advanced(m, UpdateReplyModel::Bytes(bytes));
            action is Fail && next.lock == m.lock
        },
        modrinth::update_advanced(m, UpdateReplyModel::Failed(e)).1 is Fail,
        modrinth::update_advanced(m, UpdateReplyModel::Failed(e)).0.lock == m.lock,
        modrinth::update_advanced(m, UpdateReplyModel::Unreadable(e)).1 is Fail,
        modrinth::update_advanced(m, UpdateReplyModel::Unreadable(e)).0.lock == m.lock,
{
}

/// What is said of an update that failed: at which step, and of what.
pub proof fn law_failed_updates_are_told(m: UpdateRunModel, e: Seq<char>, bytes: Seq<u8>)
    ensures
        m.stage == UpdateStage::Download ==> modrinth::update_failure(
            m,
            UpdateReplyModel::Failed(e),
        ) == "Download failed for "@ + m.update.name + ": "@ + e,
        m.stage == UpdateStage::Write ==> modrinth::update_failure(m, UpdateReplyModel::Failed(e))
            == "Failed to write "@ + m.update.filename + ": "@ + e,
        m.stage == UpdateStage::Remove ==> modrinth::update_failure(
            m,
            UpdateReplyModel::Failed(e),
        ) == "Failed to remove old file "@ + m.old_filename + ": "@ + e,
        modrinth::update_failure(m, UpdateReplyModel::Unreadable(e)) == "Download read failed: "@
            + e,
        modrinth::update_failure(m, UpdateReplyModel::Bytes(bytes)) == "SHA512 mismatch for "@
            + m.update.filename + ": file may be corrupted"@,
{
}

/// An update changes the first entry of its project and no other: the version, its number, the file
/// and its fingerprint are the new ones, the name and the project stay.
pub proof fn law_update_changes_one_entry(lock: Seq<EntryModel>, u: UpdateModel, k: int)
    requires
        0 <= k < lock.len(),
        lock[k].project == u.project,
        forall|j: int| 0 <= j < k ==> (#[trigger] lock[j]).project != u.project,
    ensures
        modrinth::lock_after_update(lock, u) == lock.update(
            k,
            EntryModel {
                name: lock[k].name,
                project: lock[k].project,
                version: u.latest_version,
                number: u.latest_number,
                filename: u.filename,
                sha512: u.sha512,
            },
        ),
{
    modrinth::lemma_entry_slot(lock, u.project);
    let i = modrinth::entry_slot(lock, u.project).unwrap();
    if k < i {
        assert(lock[k].project != u.project);
    }
    assert(i == k);
}

/// The updates that are found are in the order of their names.
pub proof fn law_updates_are_in_order(
    lock: Seq<EntryModel>,
    latest: Seq<(Seq<char>, VersionModel)>,
    a: int,
    b: int,
)
    requires
        0 <= a < b < found_updates(lock, latest).len(),
    ensures
        text::not_after(
            found_updates(lock, latest)[a].name,
            found_updates(lock, latest)[b].name,
        ),
{
    let leq = modrinth::updates_by_name();
    lemma_names_ordered_updates();
    order::lemma_arranged(modrinth::offers(lock, latest), leq);
    assert(leq(found_updates(lock, latest)[a], found_updates(lock, latest)[b]));
}

proof fn lemma_names_ordered_updates()
    ensures
        order::total_preorder(modrinth::updates_by_name()),
{
    let leq = modrinth::updates_by_name();
    assert forall|a: UpdateModel, b: UpdateModel| #[trigger] leq(a, b) || leq(b, a) by {
        text::lemma_order_total(a.name, b.name);
    }
    assert forall|a: UpdateModel, b: UpdateModel, c: UpdateModel| #[trigger] leq(a, b)
        && #[trigger] leq(b, c) implies leq(a, c) by {
        text::lemma_order_transitive(a.name, b.name, c.name);
    }
}

// ---------------------------------------------------------------------------
// Scanning
// ---------------------------------------------------------------------------

/// What a scan gives.
pub open spec fn scanned(
    found: Seq<(Seq<char>, VersionModel)>,
    files: Seq<(Seq<char>, Seq<char>)>,
    projects: Seq<(Seq<char>, Seq<char>)>,
) -> Seq<EntryModel> {
    order::arranged(modrinth::entries_for(found, files, projects), modrinth::by_name())
}

proof fn lemma_last_with(pairs: Seq<(Seq<char>, Seq<char>)>, key: Seq<char>)
    ensures
        match modrinth::last_with(pairs, key) {
            Some(v) => exists|j: int| 0 <= j < pairs.len() && #[trigger] pairs[j] == (key, v),
            None => forall|j: int| 0 <= j < pairs.len() ==> (#[trigger] pairs[j]).0 != key,
        },
    decreases pairs.len(),
{
    if pairs.len() > 0 {
        let front = pairs.drop_last();
        if pairs.last().0 == key {
            assert(pairs[pairs.len() - 1] == (key, pairs.last().1));
        } else {
            lemma_last_with(front, key);
            assert forall|j: int| 0 <= j < front.len() implies #[trigger] pairs[j] == front[j] by {}
            if let Some(v) = modrinth::last_with(front, key) {
                let j = choose|j: int| 0 <= j < front.len() && #[trigger] front[j] == (key, v);
                assert(pairs[j] == (key, v));
            }
        }
    }
}

/// Whether no two pairs share their first part.
pub open spec fn apart(pairs: Seq<(Seq<char>, Seq<char>)>) -> bool {
    forall|i: int, j: int|
        0 <= i < pairs.len() && 0 <= j < pairs.len() && (#[trigger] pairs[i]).0 == (
        #[trigger] pairs[j]).0 ==> i == j
}

proof fn lemma_entries(
    found: Seq<(Seq<char>, VersionModel)>,
    files: Seq<(Seq<char>, Seq<char>)>,
    projects: Seq<(Seq<char>, Seq<char>)>,
    k: int,
    e: EntryModel,
)
    requires
        0 <= k < found.len(),
        modrinth::entry_for(found[k].0, found[k].1, files, projects) == Some(e),
    ensures
        modrinth::entries_for(found, files, projects).contains(e),
    decreases found.len(),
{
    let front = found.drop_last();
    let all = modrinth::entries_for(found, files, projects);
    let some = modrinth::entries_for(front, files, projects);
    if k < front.len() {
        assert(front[k] == found[k]);
        lemma_entries(front, files, projects, k, e);
        let n = some.index_of(e);
        assert(all[n] == e);
    } else {
        assert(all[all.len() - 1] == e);
    }
}

/// A scan lists every file that Modrinth knows: with its name in the folder and its fingerprint, with
/// the project, the version and the number that Modrinth tells, and under the title of the project.
pub proof fn law_known_files_are_listed(
    found: Seq<(Seq<char>, VersionModel)>,
    files: Seq<(Seq<char>, Seq<char>)>,
    projects: Seq<(Seq<char>, Seq<char>)>,
    k: int,
    j: int,
    p: int,
    dir: Seq<char>,
    filename: Seq<char>,
)
    requires
        0 <= k < found.len(),
        0 <= j < files.len(),
        0 <= p < projects.len(),
        apart(files),
        apart(projects),
        files[j].0 == found[k].0,
        files[j].1 == dir.push('/') + filename,
        path_laws::plain_folder(dir),
        path_laws::one_component(filename),
        filename != seq!['.', '.'],
        projects[p].0 == found[k].1.project_id,
    ensures
        scanned(found, files, projects).contains(
            EntryModel {
                name: projects[p].1,
                project: found[k].1.project_id,
                version: found[k].1.id,
                number: found[k].1.version_number,
                filename,
                sha512: found[k].0,
            },
        ),
{
    let e = EntryModel {
        name: projects[p].1,
        project: found[k].1.project_id,
        version: found[k].1.id,
        number: found[k].1.version_number,
        filename,
        sha512: found[k].0,
    };
    path_laws::law_name_and_folder(dir, filename);
    lemma_last_with(files, found[k].0);
    lemma_last_with(projects, found[k].1.project_id);
    assert(modrinth::last_with(files, found[k].0) is Some) by {
        assert(files[j].0 == found[k].0);
    }
    let path = modrinth::last_with(files, found[k].0).unwrap();
    let a = choose|a: int| 0 <= a < files.len() && #[trigger] files[a] == (found[k].0, path);
    assert(files[a].0 == files[j].0);
    assert(modrinth::last_with(projects, found[k].1.project_id) is Some) by {
        assert(projects[p].0 == found[k].1.project_id);
    }
    let t = modrinth::last_with(projects, found[k].1.project_id).unwrap();
    let b = choose|b: int|
        0 <= b < projects.len() && #[trigger] projects[b] == (found[k].1.project_id, t);
    assert(projects[b].0 == projects[p].0);
    lemma_entries(found, files, projects, k, e);
    order::lemma_arranged_members(
        modrinth::entries_for(found, files, projects),
        modrinth::by_name(),
    );
}

proof fn lemma_entries_from(
    found: Seq<(Seq<char>, VersionModel)>,
    files: Seq<(Seq<char>, Seq<char>)>,
    projects: Seq<(Seq<char>, Seq<char>)>,
)
    ensures
        forall|n: int|
            #![trigger modrinth::entries_for(found, files, projects)[n]]
            0 <= n < modrinth::entries_for(found, files, projects).len() ==> exists|k: int|
                0 <= k < found.len() && told_by(
                    modrinth::entries_for(found, files, projects)[n],
                    #[trigger] found[k],
                    files,
                ),
    decreases found.len(),
{
    if found.len() > 0 {
        let front = found.drop_last();
        lemma_entries_from(front, files, projects);
        let all = modrinth::entries_for(found, files, projects);
        let some = modrinth::entries_for(front, files, projects);
        assert forall|n: int|
            #![trigger all[n]]
            0 <= n < all.len() implies exists|k: int|
            0 <= k < found.len() && told_by(all[n], #[trigger] found[k], files) by {
            if n < some.len() {
                assert(all[n] == some[n]);
                let k = choose|k: int|
                    0 <= k < front.len() && told_by(some[n], #[trigger] front[k], files);
                assert(told_by(all[n], found[k], files));
            } else {
                lemma_last_with(files, found.last().0);
                assert(told_by(all[n], found[found.len() - 1], files));
            }
        }
    }
}

/// A file whose project has no title among the answers goes by the project itself.
pub proof fn law_files_without_a_title(
    found: Seq<(Seq<char>, VersionModel)>,
    files: Seq<(Seq<char>, Seq<char>)>,
    projects: Seq<(Seq<char>, Seq<char>)>,
    k: int,
    j: int,
    dir: Seq<char>,
    filename: Seq<char>,
)
    requires
        0 <= k < found.len(),
        0 <= j < files.len(),
        apart(files),
        files[j].0 == found[k].0,
        files[j].1 == dir.push('/') + filename,
        path_laws::plain_folder(dir),
        path_laws::one_component(filename),
        filename != seq!['.', '.'],
        forall|p: int|
            0 <= p < projects.len() ==> (#[trigger] projects[p]).0 != found[k].1.project_id,
    ensures
        scanned(found, files, projects).contains(
            EntryModel {
                name: found[k].1.project_id,
                project: found[k].1.project_id,
                version: found[k].1.id,
                number: found[k].1.version_number,
                filename,
                sha512: found[k].0,
            },
        ),
{
    let e = EntryModel {
        name: found[k].1.project_id,
        project: found[k].1.project_id,
        version: found[k].1.id,
        number: found[k].1.version_number,
        filename,
        sha512: found[k].0,
    };
    path_laws::law_name_and_folder(dir, filename);
    lemma_last_with(files, found[k].0);
    lemma_last_with(projects, found[k].1.project_id);
    assert(modrinth::last_with(files, found[k].0) is Some) by {
        assert(files[j].0 == found[k].0);
    }
    let path = modrinth::last_with(files, found[k].0).unwrap();
    let a = choose|a: int| 0 <= a < files.len() && #[trigger] files[a] == (found[k].0, path);
    assert(files[a].0 == files[j].0);
    assert(modrinth::last_with(projects, found[k].1.project_id) is None);
    lemma_entries(found, files, projects, k, e);
    order::lemma_arranged_members(
        modrinth::entries_for(found, files, projects),
        modrinth::by_name(),
    );
}

/// An update of a project that is not listed changes nothing.
pub proof fn law_updates_of_others_change_nothing(lock: Seq<EntryModel>, u: UpdateModel)
    requires
        forall|j: int| 0 <= j < lock.len() ==> (#[trigger] lock[j]).project != u.project,
    ensures
        modrinth::lock_after_update(lock, u) == lock,
{
    modrinth::lemma_entry_slot(lock, u.project);
}

/// Whether an entry tells of a file in the folder and of the version that it was found to be of.
pub open spec fn told_by(
    e: EntryModel,
    f: (Seq<char>, VersionModel),
    files: Seq<(Seq<char>, Seq<char>)>,
) -> bool {
    &&& e.sha512 == f.0
    &&& e.project == f.1.project_id
    &&& e.version == f.1.id
    &&& e.number == f.1.version_number
    &&& exists|j: int|
        0 <= j < files.len() && (#[trigger] files[j]).0 == f.0 && paths::name_of(files[j].1) == Some(
            e.filename,
        )
}

/// A scan lists nothing but files that are there and that Modrinth knows.
pub proof fn law_only_known_files_are_listed(
    found: Seq<(Seq<char>, VersionModel)>,
    files: Seq<(Seq<char>, Seq<char>)>,
    projects: Seq<(Seq<char>, Seq<char>)>,
    n: int,
)
    requires
        0 <= n < scanned(found, files, projects).len(),
    ensures
        exists|k: int|
            0 <= k < found.len() && told_by(
                scanned(found, files, projects)[n],
                #[trigger] found[k],
                files,
            ),
{
    let all = modrinth::entries_for(found, files, projects);
    let s = scanned(found, files, projects);
    order::lemma_arranged_members(all, modrinth::by_name());
    assert(s.contains(s[n]));
    assert(all.contains(s[n]));
    let m = all.index_of(s[n]);
    assert(all[m] == s[n]);
    lemma_entries_from(found, files, projects);
}

/// A search for mods is narrowed to mods of that loader and version of the game, and one for
/// datapacks to datapacks of that version.
pub proof fn law_searches_are_narrowed(mc_version: Seq<char>, loader: Seq<char>)
    ensures
        modrinth::mod_facets(mc_version, loader).contains(seq!["project_type:"@ + "mod"@]),
        modrinth::mod_facets(mc_version, loader).contains(seq!["categories:"@ + loader]),
        modrinth::mod_facets(mc_version, loader).contains(seq!["versions:"@ + mc_version]),
        modrinth::mod_facets(mc_version, loader).len() == 3,
        modrinth::datapack_facets(mc_version).contains(seq!["project_type:"@ + "datapack"@]),
        modrinth::datapack_facets(mc_version).contains(seq!["versions:"@ + mc_version]),
        modrinth::datapack_facets(mc_version).len() == 2,
{
    let m = modrinth::mod_facets(mc_version, loader);
    assert(m[0] == seq!["project_type:"@ + "mod"@]);
    assert(m[1] == seq!["categories:"@ + loader]);
    assert(m[2] == seq!["versions:"@ + mc_version]);
    let d = modrinth::datapack_facets(mc_version);
    assert(d[0] == seq!["project_type:"@ + "datapack"@]);
    assert(d[1] == seq!["versions:"@ + mc_version]);
}

/// Newer versions are asked for with the fingerprint of every installed file, in order.
pub proof fn law_every_file_is_asked_about(
    lock: Seq<EntryModel>,
    mc_version: Seq<char>,
    loader: Option<Seq<char>>,
)
    ensures
        match modrinth::update_request_of(lock, mc_version, loader) {
            Some(q) => {
                &&& lock.len() > 0
                &&& q.hashes.len() == lock.len()
                &&& forall|i: int| 0 <= i < lock.len() ==> #[trigger] q.hashes[i] == lock[i].sha512
                &&& q.game_versions == Some(seq![mc_version])
                &&& loader matches Some(l) ==> q.loaders == Some(seq![l])
                &&& loader is None ==> q.loaders is None
                &&& q.algorithm == "sha512"@
            },
            None => lock.len() == 0,
        },
{
}

// ---------------------------------------------------------------------------
// Adding
// ---------------------------------------------------------------------------

/// Whether nothing has to be done for a project: it was seen in this run, or a mod of it is listed.
pub open spec fn done_with(p: ProgressModel, project: Seq<char>) -> bool {
    ||| exists|i: int| 0 <= i < p.visited.len() && #[trigger] p.visited[i] == project
    ||| exists|i: int| 0 <= i < p.lock.len() && (#[trigger] p.lock[i]).project == project
}

/// A version that was asked for is downloaded just where its project was neither seen nor listed, and
/// then the file to download is the one to install.
pub proof fn law_new_projects_are_downloaded(m: AddModel, version_id: Seq<char>, v: VersionModel)
    requires
        m.pending == (PendingModel::Version { version_id }),
        v.files.len() > 0,
    ensures
        ({
            let (next, action) = mod_mgr::advanced(m, ReplyModel::Version(v));
            &&& action is Download <==> !done_with(m.progress, v.project_id)
            &&& action is Download ==> exists|i: int| #[trigger]
                is_main(v.files, i) && action == (ActionModel::Download { url: v.files[i].url })
                    && next.pending == (PendingModel::Download { version: v, file: v.files[i] })
        }),
{
    let p = m.progress;
    law_main_file(v.files);
    lemma_onward_asks(p);
    assert(done_with(p, v.project_id) <==> mod_mgr::settled(p, v.project_id)) by {
        if p.visited.contains(v.project_id) {
            let i = p.visited.index_of(v.project_id);
            assert(p.visited[i] == v.project_id);
        }
    }
}

proof fn lemma_onward_asks(p: ProgressModel)
    ensures
        mod_mgr::onward(p).1 !is Download,
        mod_mgr::onward(p).1 !is Write,
    decreases p.deps.len(), p.queue.len(),
{
    if p.deps.len() > 0 {
        let d = p.deps[0];
        let rest = ProgressModel { deps: p.deps.skip(1), ..p };
        lemma_onward_asks(rest);
        if let Some(v) = d.version_id {
            lemma_onward_asks(
                ProgressModel {
                    queue: p.queue.push(
                        mod_mgr::WantModel { version_id: v, project_id: d.project_id },
                    ),
                    ..rest
                },
            );
        }
    } else if p.queue.len() > 0 {
        lemma_onward_asks(ProgressModel { queue: p.queue.drop_last(), ..p });
    }
}

/// The right bytes of a file are accepted and written under its name, and other bytes end the adding.
pub proof fn law_right_bytes_are_written(
    m: AddModel,
    v: VersionModel,
    f: FileModel,
    bytes: Seq<u8>,
)
    requires
        m.pending == (PendingModel::Download { version: v, file: f }),
    ensures
        ({
            let (next, action) = mod_mgr::advanced(m, ReplyModel::Bytes(bytes));
            let sum = digest::hex_text(digest::sha512(bytes));
            &&& sum == f.sha512 ==> action == (ActionModel::Write { filename: f.filename })
                && next.pending == (PendingModel::Write { version: v, file: f, sha512: sum })
                && next.progress == m.progress
            &&& sum != f.sha512 ==> action is Fail
        }),
{
}

/// A mod that is on disk is listed: under the title of its project, with the version, the number, the
/// file and the fingerprint of what was written; entries of other projects stay.
pub proof fn law_written_mods_are_listed(
    m: AddModel,
    v: VersionModel,
    f: FileModel,
    sha512: Seq<char>,
    id: Seq<char>,
    title: Seq<char>,
)
    requires
        m.pending == (PendingModel::Title { version: v, file: f, sha512 }),
    ensures
        ({
            let (next, action) = mod_mgr::advanced(m, ReplyModel::Project { id, title });
            let e = EntryModel {
                name: title,
                project: v.project_id,
                version: v.id,
                number: v.version_number,
                filename: f.filename,
                sha512,
            };
            &&& next.progress.lock.contains(e)
            &&& next.progress.installed == m.progress.installed.push(e)
            &&& forall|i: int|
                0 <= i < m.progress.lock.len() && (#[trigger] m.progress.lock[i]).project
                    != v.project_id ==> next.progress.lock.contains(m.progress.lock[i])
            &&& forall|i: int|
                0 <= i < m.progress.lock.len() && (#[trigger] m.progress.lock[i]).project
                    == v.project_id && m.progress.lock[i] != e ==> !next.progress.lock.contains(
                    m.progress.lock[i],
                )
        }),
{
    let p = m.progress;
    let e = EntryModel {
        name: title,
        project: v.project_id,
        version: v.id,
        number: v.version_number,
        filename: f.filename,
        sha512,
    };
    let pred = mod_mgr::of_other_project(v.project_id);
    let kept = p.lock.filter(pred);
    let q = ProgressModel {
        lock: kept.push(e),
        installed: p.installed.push(e),
        deps: v.dependencies,
        ..p
    };
    assert(q.lock[kept.len() as int] == e);
    lemma_onward_keeps(q);
    assert forall|i: int| 0 <= i < p.lock.len() && (#[trigger] p.lock[i]).project
        != v.project_id implies q.lock.contains(p.lock[i]) by {
        p.lock.lemma_filter_contains(pred, i);
        let k = kept.index_of(p.lock[i]);
        assert(q.lock[k] == p.lock[i]);
    }
    assert forall|i: int| 0 <= i < p.lock.len() && (#[trigger] p.lock[i]).project == v.project_id
        && p.lock[i] != e implies !q.lock.contains(p.lock[i]) by {
        if q.lock.contains(p.lock[i]) {
            let k = q.lock.index_of(p.lock[i]);
            assert(kept[k] == p.lock[i]);
            p.lock.lemma_filter_pred(pred, k);
        }
    }
}

proof fn lemma_onward_keeps(p: ProgressModel)
    ensures
        mod_mgr::onward(p).0.progress.installed == p.installed,
        forall|e: EntryModel|
            p.lock.contains(e) <==> #[trigger] mod_mgr::onward(p).0.progress.lock.contains(e),
    decreases p.deps.len(), p.queue.len(),
{
    if p.deps.len() > 0 {
        let d = p.deps[0];
        let rest = ProgressModel { deps: p.deps.skip(1), ..p };
        lemma_onward_keeps(rest);
        if let Some(v) = d.version_id {
            lemma_onward_keeps(
                ProgressModel {
                    queue: p.queue.push(
                        mod_mgr::WantModel { version_id: v, project_id: d.project_id },
                    ),
                    ..rest
                },
            );
        }
    } else if p.queue.len() > 0 {
        lemma_onward_keeps(ProgressModel { queue: p.queue.drop_last(), ..p });
    } else {
        order::lemma_arranged_members(p.lock, modrinth::by_name());
    }
}

/// Adding a mod begins by asking for the version that was chosen, unless a mod of its project is
/// listed; then it is over at once.
pub proof fn law_adding_begins_with_the_version(
    lock: Seq<EntryModel>,
    project_id: Seq<char>,
    version_id: Seq<char>,
    mc_version: Seq<char>,
    loader: Seq<char>,
)
    ensures
        ({
            let (m, action) = mod_mgr::onward(
                mod_mgr::started(lock, project_id, version_id, mc_version, loader),
            );
            let listed = exists|i: int|
                0 <= i < lock.len() && (#[trigger] lock[i]).project == project_id;
            &&& listed ==> action is Finish && m.progress.installed.len() == 0
            &&& !listed ==> m.pending == (PendingModel::Version { version_id }) && action == (
            ActionModel::FetchVersion {
                url: "https://api.modrinth.com/v2"@ + "/version/"@ + version_id + ""@,
            })
        }),
{
    let p = mod_mgr::started(lock, project_id, version_id, mc_version, loader);
    let rest = ProgressModel { queue: p.queue.drop_last(), ..p };
    assert(p.queue.last() == p.queue[0]);
    assert(rest.queue.len() == 0);
    reveal_with_fuel(mod_mgr::onward, 2);
}

/// Adding a datapack: the file to install is downloaded, only the right bytes are written, and in
/// the end the datapack is listed once, with what was written, beside those of other projects.
pub proof fn law_datapacks_are_added(
    m: PackModel,
    v: VersionModel,
    f: FileModel,
    bytes: Seq<u8>,
    sha512: Seq<char>,
    id: Seq<char>,
    title: Seq<char>,
)
    ensures
        m.pending is Version && v.files.len() > 0 ==> ({
            let (next, action) = datapack_mgr::pack_advanced(m, ReplyModel::Version(v));
            exists|i: int| #[trigger]
                is_main(v.files, i) && action == (ActionModel::Download { url: v.files[i].url })
                    && next.pending == (PendingModel::Download { version: v, file: v.files[i] })
        }),
        m.pending == (PendingModel::Download { version: v, file: f }) ==> ({
            let (next, action) = datapack_mgr::pack_advanced(m, ReplyModel::Bytes(bytes));
            let sum = digest::hex_text(digest::sha512(bytes));
            &&& sum == f.sha512 ==> action == (ActionModel::Write { filename: f.filename })
                && next.pending == (PendingModel::Write { version: v, file: f, sha512: sum })
            &&& sum != f.sha512 ==> action is Fail && next.lock == m.lock
        }),
        m.pending == (PendingModel::Title { version: v, file: f, sha512 }) ==> ({
            let (next, action) = datapack_mgr::pack_advanced(m, ReplyModel::Project { id, title });
            let e = EntryModel {
                name: title,
                project: m.project_id,
                version: v.id,
                number: v.version_number,
                filename: f.filename,
                sha512,
            };
            &&& action is Finish
            &&& next.added == Some(e)
            &&& next.lock.contains(e)
            &&& forall|i: int|
                0 <= i < m.lock.len() && (#[trigger] m.lock[i]).project != m.project_id
                    ==> next.lock.contains(m.lock[i])
        }),
{
    law_main_file(v.files);
    if m.pending == (PendingModel::Title { version: v, file: f, sha512 }) {
        let e = EntryModel {
            name: title,
            project: m.project_id,
            version: v.id,
            number: v.version_number,
            filename: f.filename,
            sha512,
        };
        let pred = mod_mgr::of_other_project(m.project_id);
        let kept = m.lock.filter(pred);
        let all = kept.push(e);
        assert(all[kept.len() as int] == e);
        order::lemma_arranged_members(all, modrinth::by_name());
        assert forall|i: int| 0 <= i < m.lock.len() && (#[trigger] m.lock[i]).project
            != m.project_id implies all.contains(m.lock[i]) by {
            m.lock.lemma_filter_contains(pred, i);
            let k = kept.index_of(m.lock[i]);
            assert(all[k] == m.lock[i]);
        }
        assert(all.contains(e));
        let next = datapack_mgr::pack_advanced(m, ReplyModel::Project { id, title }).0;
        assert(next.lock == order::arranged(all, modrinth::by_name()));
    }
}

} // verus!
