//! What holds however the adding of a mod goes.

use crate::digest;
use crate::mod_mgr;
use crate::mod_mgr::AddModel;
use crate::mod_mgr::PendingModel;
use crate::mod_mgr::ProgressModel;
use crate::mod_mgr::ReplyModel;
use crate::modrinth;
use crate::modrinth::DependencyModel;
use crate::modrinth::EntryModel;
use crate::modrinth::VersionModel;
use crate::order;
use vstd::prelude::*;

verus! {

/// Whether what was added is as it should be: no project twice, and none that was there before.
pub open spec fn added_anew(lock: Seq<EntryModel>, installed: Seq<EntryModel>) -> bool {
    &&& forall|i: int, j: int|
        0 <= i < j < installed.len() ==> installed[i].project != installed[j].project
    &&& forall|i: int|
        0 <= i < installed.len() ==> !modrinth::has_project(
            lock,
            (#[trigger] installed[i]).project,
        )
}

/// Whether the adding keeps to its rules: the mods are those that were there followed by those
/// added, each added project was seen, and the one under way is seen but not installed.
pub open spec fn sound(m: AddModel, lock: Seq<EntryModel>) -> bool {
    let p = m.progress;
    &&& m.pending !is Over ==> p.lock == lock + p.installed
    &&& added_anew(lock, p.installed)
    &&& forall|i: int|
        0 <= i < p.installed.len() ==> p.visited.contains((#[trigger] p.installed[i]).project)
    &&& match m.pending {
        PendingModel::Download { version, .. } => under_way(p, version),
        PendingModel::Write { version, .. } => under_way(p, version),
        PendingModel::Title { version, .. } => under_way(p, version),
        _ => true,
    }
}

/// Whether a version is being installed for the first time.
pub open spec fn under_way(p: ProgressModel, v: VersionModel) -> bool {
    p.visited.contains(v.project_id) && !modrinth::has_project(p.lock, v.project_id)
}

proof fn lemma_onward(p: ProgressModel)
    ensures
        ({
            let (m, a) = mod_mgr::onward(p);
            &&& m.progress.installed == p.installed
            &&& m.progress.visited == p.visited
            &&& a !is Fail
            &&& a !is Download
            &&& a !is Write
            &&& a is Finish <==> m.pending is Over
            &&& m.pending is Over || m.pending is Version || m.pending is Lookup
            &&& m.progress.lock == (if a is Finish {
                order::arranged(p.lock, modrinth::by_name())
            } else {
                p.lock
            })
        }),
    decreases p.deps.len(), p.queue.len(),
{
    if p.deps.len() > 0 {
        let d = p.deps[0];
        let rest = ProgressModel { deps: p.deps.skip(1), ..p };
        lemma_onward(rest);
        if let Some(v) = d.version_id {
            lemma_onward(
                ProgressModel {
                    queue: p.queue.push(
                        mod_mgr::WantModel { version_id: v, project_id: d.project_id },
                    ),
                    ..rest
                },
            );
        }
    } else if p.queue.len() > 0 {
        lemma_onward(ProgressModel { queue: p.queue.drop_last(), ..p });
    }
}

proof fn lemma_nothing_to_drop(lock: Seq<EntryModel>, project: Seq<char>)
    requires
        !modrinth::has_project(lock, project),
    ensures
        lock.filter(mod_mgr::of_other_project(project)) == lock,
    decreases lock.len(),
{
    reveal(Seq::filter);
    if lock.len() > 0 {
        let front = lock.drop_last();
        assert forall|i: int| 0 <= i < front.len() implies (#[trigger] front[i]).project
            != project by {
            assert(lock[i].project != project);
        }
        lemma_nothing_to_drop(front, project);
        assert(lock[lock.len() - 1].project != project);
        assert(lock =~= front.push(lock.last()));
    } else {
        assert(lock.filter(mod_mgr::of_other_project(project)) =~= lock);
    }
}

/// The adding of a mod begins by the rules.
pub proof fn law_adding_starts_sound(
    lock: Seq<EntryModel>,
    project_id: Seq<char>,
    version_id: Seq<char>,
    mc_version: Seq<char>,
    loader: Seq<char>,
)
    ensures
        sound(
            mod_mgr::onward(
                mod_mgr::started(lock, project_id, version_id, mc_version, loader),
            ).0,
            lock,
        ),
{
    let p = mod_mgr::started(lock, project_id, version_id, mc_version, loader);
    lemma_onward(p);
    assert(p.lock =~= lock + p.installed);
}

/// The progress with which a reply goes on.
spec fn next_progress(m: AddModel, reply: ReplyModel) -> ProgressModel {
    let p = m.progress;
    match m.pending {
        PendingModel::Title { version, file, sha512 } => {
            let e = mod_mgr::added_entry(version, file, sha512, reply->Project_title);
            ProgressModel {
                lock: p.lock.filter(mod_mgr::of_other_project(version.project_id)).push(e),
                installed: p.installed.push(e),
                deps: version.dependencies,
                ..p
            }
        },
        PendingModel::Lookup { project_id } => if reply->Versions_0.len() > 0 {
            ProgressModel {
                queue: p.queue.push(
                    mod_mgr::WantModel {
                        version_id: reply->Versions_0[0].id,
                        project_id: Some(project_id),
                    },
                ),
                ..p
            }
        } else {
            p
        },
        _ => p,
    }
}

/// What is done next never asks for a file or writes one where nothing is under way.
proof fn lemma_after_reply(m: AddModel, reply: ReplyModel)
    requires
        mod_mgr::replies_to(reply, m.pending),
    ensures
        mod_mgr::advanced(m, reply).1 is Write ==> m.pending is Download,
        mod_mgr::advanced(m, reply).1 is Download ==> m.pending is Version,
{
    lemma_onward(next_progress(m, reply));
}

proof fn lemma_one_more(
    lock: Seq<EntryModel>,
    installed: Seq<EntryModel>,
    visited: Seq<Seq<char>>,
    e: EntryModel,
)
    requires
        added_anew(lock, installed),
        forall|i: int|
            0 <= i < installed.len() ==> visited.contains((#[trigger] installed[i]).project),
        !modrinth::has_project(lock + installed, e.project),
        visited.contains(e.project),
    ensures
        added_anew(lock, installed.push(e)),
        forall|i: int|
            0 <= i < installed.push(e).len() ==> visited.contains(
                (#[trigger] installed.push(e)[i]).project,
            ),
{
    let both = lock + installed;
    let more = installed.push(e);
    assert forall|i: int| 0 <= i < installed.len() implies (#[trigger] installed[i]).project
        != e.project by {
        assert(both[lock.len() + i] == installed[i]);
    }
    assert(!modrinth::has_project(lock, e.project)) by {
        if modrinth::has_project(lock, e.project) {
            let k = choose|k: int| 0 <= k < lock.len() && (#[trigger] lock[k]).project == e.project;
            assert(both[k].project == e.project);
        }
    }
    assert forall|i: int, j: int| 0 <= i < j < more.len() implies more[i].project
        != more[j].project by {
        assert(more[i] == installed[i]);
        if j < installed.len() {
            assert(more[j] == installed[j]);
        }
    }
    assert forall|i: int| 0 <= i < more.len() implies !modrinth::has_project(
        lock,
        (#[trigger] more[i]).project,
    ) && visited.contains(more[i].project) by {
        if i < installed.len() {
            assert(more[i] == installed[i]);
        }
    }
}

proof fn lemma_sound_after_title(m: AddModel, reply: ReplyModel, lock: Seq<EntryModel>)
    requires
        sound(m, lock),
        m.pending is Title,
    ensures
        next_progress(m, reply).lock == lock + next_progress(m, reply).installed,
        added_anew(lock, next_progress(m, reply).installed),
        forall|i: int|
            0 <= i < next_progress(m, reply).installed.len() ==> m.progress.visited.contains(
                (#[trigger] next_progress(m, reply).installed[i]).project,
            ),
{
    let p = m.progress;
    match m.pending {
        PendingModel::Title { version, file, sha512 } => {
            let e = mod_mgr::added_entry(version, file, sha512, reply->Project_title);
            lemma_nothing_to_drop(p.lock, version.project_id);
            lemma_one_more(lock, p.installed, p.visited, e);
            assert(p.lock.push(e) =~= lock + p.installed.push(e));
        },
        _ => {},
    }
}

proof fn lemma_sound_after_version(m: AddModel, reply: ReplyModel, lock: Seq<EntryModel>)
    requires
        sound(m, lock),
        m.pending is Version,
        reply is Version,
    ensures
        sound(mod_mgr::advanced(m, reply).0, lock),
{
    let p = m.progress;
    let v = reply->Version_0;
    lemma_onward(p);
    if !mod_mgr::settled(p, v.project_id) {
        let seen = p.visited.push(v.project_id);
        assert(seen.last() == v.project_id);
        assert forall|i: int| 0 <= i < p.installed.len() implies seen.contains(
            (#[trigger] p.installed[i]).project,
        ) by {
            let k = choose|k: int|
                0 <= k < p.visited.len() && p.visited[k] == p.installed[i].project;
            assert(seen[k] == p.installed[i].project);
        }
    }
}

/// Whatever comes back, the rules are kept: nothing that was installed is lost, no project is added
/// twice, and in the end the mods are those that were there and those added, in order of names.
pub proof fn law_adding_stays_sound(m: AddModel, reply: ReplyModel, lock: Seq<EntryModel>)
    requires
        sound(m, lock),
        mod_mgr::replies_to(reply, m.pending),
    ensures
        sound(mod_mgr::advanced(m, reply).0, lock),
        mod_mgr::advanced(m, reply).1 is Finish ==> mod_mgr::advanced(m, reply).0.progress.lock
            == order::arranged(
            lock + mod_mgr::advanced(m, reply).0.progress.installed,
            modrinth::by_name(),
        ),
{
    lemma_onward(next_progress(m, reply));
    if reply is Version {
        lemma_sound_after_version(m, reply, lock);
    } else if reply is Project {
        lemma_sound_after_title(m, reply, lock);
    }
}

/// A file is asked for only where its project was neither seen nor installed before, and the
/// project counts as seen from then on: no project is downloaded twice.
pub proof fn law_each_project_is_downloaded_once(m: AddModel, reply: ReplyModel)
    requires
        mod_mgr::replies_to(reply, m.pending),
        mod_mgr::advanced(m, reply).1 is Download,
    ensures
        ({
            let next = mod_mgr::advanced(m, reply).0;
            &&& next.pending matches PendingModel::Download { version, .. }
            &&& !mod_mgr::settled(m.progress, version.project_id)
            &&& mod_mgr::settled(next.progress, version.project_id)
        }),
{
    lemma_after_reply(m, reply);
    lemma_onward(m.progress);
    let v = reply->Version_0;
    assert(m.progress.visited.push(v.project_id).last() == v.project_id);
}

/// A file goes to disk only where its fingerprint is the one that Modrinth told.
pub proof fn law_only_checked_files_are_written(m: AddModel, reply: ReplyModel)
    requires
        mod_mgr::replies_to(reply, m.pending),
        mod_mgr::advanced(m, reply).1 is Write,
    ensures
        m.pending matches PendingModel::Download { file, .. } && reply matches ReplyModel::Bytes(b)
            && digest::fingerprint_of(b) == file.sha512,
{
    lemma_after_reply(m, reply);
}

// ---------------------------------------------------------------------------
// What mods require
// ---------------------------------------------------------------------------

/// What Modrinth tells: what each version is, and which versions of each project fit the server.
pub struct Catalog {
    pub version: spec_fn(Seq<char>) -> VersionModel,
    pub fitting: spec_fn(Seq<char>) -> Seq<VersionModel>,
}

/// Whether a catalog does not contradict itself: each version goes by its id, the versions of a
/// project are of that project, and a dependency on a version names the project of that version.
pub open spec fn coherent(c: Catalog) -> bool {
    &&& forall|id: Seq<char>| (#[trigger] (c.version)(id)).id == id
    &&& forall|project: Seq<char>|
        (#[trigger] (c.fitting)(project)).len() > 0 ==> (c.version)(
            (c.fitting)(project)[0].id,
        ).project_id == project
    &&& forall|id: Seq<char>, k: int|
        0 <= k < (c.version)(id).dependencies.len() ==> fits(
            c,
            #[trigger] (c.version)(id).dependencies[k],
        )
}

/// Whether a dependency on a version names the project of that version.
pub open spec fn fits(c: Catalog, d: DependencyModel) -> bool {
    d.version_id matches Some(v) && d.project_id matches Some(project) ==> (c.version)(v).project_id
        == project
}

/// The project that a dependency asks for: none where it is not required, or where no version of it
/// fits the server.
pub open spec fn required(c: Catalog, d: DependencyModel) -> Option<Seq<char>> {
    if d.dependency_type != "required"@ {
        None
    } else {
        match d.version_id {
            Some(v) => Some((c.version)(v).project_id),
            None => match d.project_id {
                Some(project) => if (c.fitting)(project).len() > 0 {
                    Some(project)
                } else {
                    None
                },
                None => None,
            },
        }
    }
}

/// Whether a reply is what the catalog tells.
pub open spec fn faithful(c: Catalog, pending: PendingModel, reply: ReplyModel) -> bool {
    match pending {
        PendingModel::Version { version_id } => reply matches ReplyModel::Version(v) ==> v == (
        c.version)(version_id),
        PendingModel::Lookup { project_id } => reply matches ReplyModel::Versions(all) ==> all == (
        c.fitting)(project_id),
        _ => true,
    }
}

/// Whether a project is installed or stands in line to be.
pub open spec fn in_line(c: Catalog, p: ProgressModel, project: Seq<char>) -> bool {
    ||| modrinth::has_project(p.lock, project)
    ||| exists|i: int|
        0 <= i < p.queue.len() && (c.version)((#[trigger] p.queue[i]).version_id).project_id
            == project
    ||| exists|i: int| 0 <= i < p.deps.len() && required(c, #[trigger] p.deps[i]) == Some(project)
}

/// Whether a project is what the adding waits for.
pub open spec fn awaited(c: Catalog, pending: PendingModel, project: Seq<char>) -> bool {
    match pending {
        PendingModel::Version { version_id } => (c.version)(version_id).project_id == project,
        PendingModel::Download { version, .. } => version.project_id == project,
        PendingModel::Write { version, .. } => version.project_id == project,
        PendingModel::Title { version, .. } => version.project_id == project,
        PendingModel::Lookup { project_id } => project_id == project && (c.fitting)(
            project,
        ).len() > 0,
        PendingModel::Over => false,
    }
}

/// Whether a project is installed, stands in line or is under way.
pub open spec fn to_come(c: Catalog, m: AddModel, project: Seq<char>) -> bool {
    in_line(c, m.progress, project) || awaited(c, m.pending, project)
}

/// Whether what stands in line goes by the catalog.
pub open spec fn line_ok(c: Catalog, p: ProgressModel) -> bool {
    &&& forall|i: int|
        0 <= i < p.queue.len() ==> ((#[trigger] p.queue[i]).project_id matches Some(project) ==> (
        c.version)(p.queue[i].version_id).project_id == project)
    &&& forall|i: int| 0 <= i < p.deps.len() ==> fits(c, #[trigger] p.deps[i])
}

/// Whether every project that was seen is installed, but for one that may be under way.
pub open spec fn seen_is_in(p: ProgressModel, but: Option<Seq<char>>) -> bool {
    forall|i: int|
        0 <= i < p.visited.len() ==> modrinth::has_project(p.lock, #[trigger] p.visited[i]) || but
            == Some(p.visited[i])
}

/// The version that is under way.
pub open spec fn version_under_way(pending: PendingModel) -> Option<VersionModel> {
    match pending {
        PendingModel::Download { version, .. } => Some(version),
        PendingModel::Write { version, .. } => Some(version),
        PendingModel::Title { version, .. } => Some(version),
        _ => None,
    }
}

/// Whether the adding goes by the catalog.
pub open spec fn on_course(c: Catalog, m: AddModel) -> bool {
    &&& line_ok(c, m.progress)
    &&& seen_is_in(
        m.progress,
        match version_under_way(m.pending) {
            Some(v) => Some(v.project_id),
            None => None,
        },
    )
    &&& version_under_way(m.pending) matches Some(v) ==> v == (c.version)(v.id)
    &&& m.pending is Version || version_under_way(m.pending) is Some ==> m.progress.deps.len() == 0
}

/// Whether what a mod requires is all installed, in line or under way, for every mod that was added.
pub open spec fn nothing_forgotten(c: Catalog, m: AddModel) -> bool {
    forall|i: int, k: int|
        #![trigger (c.version)(m.progress.installed[i].version).dependencies[k]]
        0 <= i < m.progress.installed.len() && 0 <= k < (c.version)(
            m.progress.installed[i].version,
        ).dependencies.len() ==> (required(
            c,
            (c.version)(m.progress.installed[i].version).dependencies[k],
        ) matches Some(project) ==> to_come(c, m, project))
}

proof fn lemma_in_line_onward(c: Catalog, p: ProgressModel, project: Seq<char>)
    requires
        coherent(c),
        line_ok(c, p),
        seen_is_in(p, None),
    ensures
        in_line(c, p, project) ==> to_come(c, mod_mgr::onward(p).0, project),
        on_course(c, mod_mgr::onward(p).0),
        mod_mgr::onward(p).1 is Finish ==> (in_line(c, p, project) ==> modrinth::has_project(
            mod_mgr::onward(p).0.progress.lock,
            project,
        )),
    decreases p.deps.len(), p.queue.len(),
{
    let (m, a) = mod_mgr::onward(p);
    if p.deps.len() > 0 {
        let d = p.deps[0];
        let rest = ProgressModel { deps: p.deps.skip(1), ..p };
        assert(fits(c, d));
        assert forall|i: int| 0 <= i < rest.deps.len() implies fits(c, #[trigger] rest.deps[i]) by {
            assert(rest.deps[i] == p.deps[i + 1]);
        }
        assert(in_line(c, p, project) ==> in_line(c, rest, project) || required(c, d) == Some(
            project,
        )) by {
            if exists|i: int|
                0 <= i < p.deps.len() && required(c, #[trigger] p.deps[i]) == Some(project) {
                let i = choose|i: int|
                    0 <= i < p.deps.len() && required(c, #[trigger] p.deps[i]) == Some(project);
                if i > 0 {
                    assert(rest.deps[i - 1] == p.deps[i]);
                }
            }
        }
        if d.dependency_type == "required"@ && d.version_id is Some {
            let v = d.version_id.unwrap();
            let w = mod_mgr::WantModel { version_id: v, project_id: d.project_id };
            let more = ProgressModel { queue: p.queue.push(w), ..rest };
            assert(more.queue[p.queue.len() as int] == w);
            assert forall|i: int| 0 <= i < more.queue.len() implies (
            (#[trigger] more.queue[i]).project_id matches Some(x) ==> (c.version)(
                more.queue[i].version_id,
            ).project_id == x) by {
                if i < p.queue.len() {
                    assert(more.queue[i] == p.queue[i]);
                }
            }
            if in_line(c, rest, project) {
                if exists|i: int|
                    0 <= i < rest.queue.len() && (c.version)(
                        (#[trigger] rest.queue[i]).version_id,
                    ).project_id == project {
                    let i = choose|i: int|
                        0 <= i < rest.queue.len() && (c.version)(
                            (#[trigger] rest.queue[i]).version_id,
                        ).project_id == project;
                    assert(more.queue[i] == rest.queue[i]);
                }
                assert(in_line(c, more, project));
            }
            lemma_in_line_onward(c, more, project);
        } else if d.dependency_type == "required"@ && d.project_id is Some && !mod_mgr::settled(
            p,
            d.project_id.unwrap(),
        ) {
            assert(m.progress == rest);
        } else {
            if d.dependency_type == "required"@ && d.project_id is Some {
                let x = d.project_id.unwrap();
                if p.visited.contains(x) {
                    let k = p.visited.index_of(x);
                    assert(modrinth::has_project(p.lock, p.visited[k]));
                }
            }
            lemma_in_line_onward(c, rest, project);
        }
    } else if p.queue.len() > 0 {
        let w = p.queue.last();
        let rest = ProgressModel { queue: p.queue.drop_last(), ..p };
        assert(p.queue[p.queue.len() - 1] == w);
        assert forall|i: int| 0 <= i < rest.queue.len() implies (
        (#[trigger] rest.queue[i]).project_id matches Some(x) ==> (c.version)(
            rest.queue[i].version_id,
        ).project_id == x) by {
            assert(rest.queue[i] == p.queue[i]);
        }
        assert(in_line(c, p, project) ==> in_line(c, rest, project) || (c.version)(
            w.version_id,
        ).project_id == project) by {
            if exists|i: int|
                0 <= i < p.queue.len() && (c.version)(
                    (#[trigger] p.queue[i]).version_id,
                ).project_id == project {
                let i = choose|i: int|
                    0 <= i < p.queue.len() && (c.version)(
                        (#[trigger] p.queue[i]).version_id,
                    ).project_id == project;
                if i < rest.queue.len() {
                    assert(rest.queue[i] == p.queue[i]);
                }
            }
        }
        if w.project_id matches Some(x) && mod_mgr::settled(p, x) {
            let x = w.project_id.unwrap();
            if p.visited.contains(x) {
                let k = p.visited.index_of(x);
                assert(modrinth::has_project(p.lock, p.visited[k]));
            }
            lemma_in_line_onward(c, rest, project);
        } else {
            assert(m.progress == rest);
        }
    } else {
        lemma_sorted_projects(p.lock);
    }
}

proof fn lemma_sorted_projects(lock: Seq<EntryModel>)
    ensures
        forall|project: Seq<char>| #[trigger]
            modrinth::has_project(lock, project) ==> modrinth::has_project(
                order::arranged(lock, modrinth::by_name()),
                project,
            ),
{
    let sorted = order::arranged(lock, modrinth::by_name());
    order::lemma_arranged_members(lock, modrinth::by_name());
    assert forall|project: Seq<char>| #[trigger]
        modrinth::has_project(lock, project) implies modrinth::has_project(sorted, project) by {
        let i = choose|i: int| 0 <= i < lock.len() && (#[trigger] lock[i]).project == project;
        assert(lock.contains(lock[i]));
        assert(sorted.contains(lock[i]));
        let k = sorted.index_of(lock[i]);
        assert(sorted[k].project == project);
    }
}

proof fn lemma_has_more(lock: Seq<EntryModel>, e: EntryModel, project: Seq<char>)
    ensures
        modrinth::has_project(lock, project) || e.project == project ==> modrinth::has_project(
            lock.filter(mod_mgr::of_other_project(e.project)).push(e),
            project,
        ),
{
    let pred = mod_mgr::of_other_project(e.project);
    let kept = lock.filter(pred);
    let next = kept.push(e);
    assert(next[kept.len() as int] == e);
    if modrinth::has_project(lock, project) && e.project != project {
        let i = choose|i: int| 0 <= i < lock.len() && (#[trigger] lock[i]).project == project;
        lock.lemma_filter_contains(pred, i);
        let k = kept.index_of(lock[i]);
        assert(next[k] == lock[i]);
    }
}

/// The progress once a mod was added goes by the catalog, and nothing leaves the line.
proof fn lemma_course_title(
    c: Catalog,
    m: AddModel,
    reply: ReplyModel,
    project: Seq<char>,
)
    requires
        coherent(c),
        on_course(c, m),
        m.pending is Title,
    ensures
        line_ok(c, next_progress(m, reply)),
        seen_is_in(next_progress(m, reply), None),
        to_come(c, m, project) ==> in_line(c, next_progress(m, reply), project),
        forall|k: int|
            0 <= k < next_progress(m, reply).deps.len() ==> (required(
                c,
                #[trigger] next_progress(m, reply).deps[k],
            ) matches Some(x) ==> in_line(c, next_progress(m, reply), x)),
{
    let p = m.progress;
    let q = next_progress(m, reply);
    match m.pending {
        PendingModel::Title { version, file, sha512 } => {
            let e = mod_mgr::added_entry(version, file, sha512, reply->Project_title);
            lemma_has_more(p.lock, e, project);
            assert forall|i: int| 0 <= i < q.visited.len() implies modrinth::has_project(
                q.lock,
                #[trigger] q.visited[i],
            ) by {
                lemma_has_more(p.lock, e, p.visited[i]);
            }
            assert forall|k: int| 0 <= k < q.deps.len() implies fits(c, #[trigger] q.deps[k]) by {
                assert(q.deps[k] == (c.version)(version.id).dependencies[k]);
            }
        },
        _ => {},
    }
}

proof fn lemma_course(c: Catalog, m: AddModel, reply: ReplyModel, project: Seq<char>)
    requires
        coherent(c),
        on_course(c, m),
        mod_mgr::replies_to(reply, m.pending),
        faithful(c, m.pending, reply),
        mod_mgr::advanced(m, reply).1 !is Fail,
    ensures
        on_course(c, mod_mgr::advanced(m, reply).0),
        to_come(c, m, project) ==> to_come(c, mod_mgr::advanced(m, reply).0, project),
        mod_mgr::advanced(m, reply).1 is Finish && to_come(c, m, project) ==> modrinth::has_project(
            mod_mgr::advanced(m, reply).0.progress.lock,
            project,
        ),
{
    let p = m.progress;
    match m.pending {
        PendingModel::Version { version_id } => {
            let v = reply->Version_0;
            assert((c.version)(version_id).id == version_id);
            if mod_mgr::settled(p, v.project_id) {
                if p.visited.contains(v.project_id) {
                    let k = p.visited.index_of(v.project_id);
                    assert(modrinth::has_project(p.lock, p.visited[k]));
                }
                lemma_in_line_onward(c, p, project);
            } else {
                let seen = p.visited.push(v.project_id);
                let next = mod_mgr::advanced(m, reply).0.progress;
                assert forall|i: int| 0 <= i < seen.len() implies modrinth::has_project(
                    p.lock,
                    #[trigger] seen[i],
                ) || seen[i] == v.project_id by {
                    if i < p.visited.len() {
                        assert(seen[i] == p.visited[i]);
                    }
                }
                assert(next.visited == seen);
            }
        },
        PendingModel::Title { .. } => {
            lemma_course_title(c, m, reply, project);
            lemma_in_line_onward(c, next_progress(m, reply), project);
        },
        PendingModel::Lookup { project_id } => {
            let q = next_progress(m, reply);
            let all = reply->Versions_0;
            if all.len() > 0 {
                assert((c.fitting)(project_id).len() > 0);
                let w = q.queue[p.queue.len() as int];
                assert((c.version)(w.version_id).project_id == project_id);
                assert forall|i: int| 0 <= i < q.queue.len() implies (
                (#[trigger] q.queue[i]).project_id matches Some(x) ==> (c.version)(
                    q.queue[i].version_id,
                ).project_id == x) by {
                    if i < p.queue.len() {
                        assert(q.queue[i] == p.queue[i]);
                    }
                }
                if exists|i: int|
                    0 <= i < p.queue.len() && (c.version)(
                        (#[trigger] p.queue[i]).version_id,
                    ).project_id == project {
                    let i = choose|i: int|
                        0 <= i < p.queue.len() && (c.version)(
                            (#[trigger] p.queue[i]).version_id,
                        ).project_id == project;
                    assert(q.queue[i] == p.queue[i]);
                }
            }
            lemma_in_line_onward(c, q, project);
        },
        _ => {},
    }
}

/// The adding of a mod begins on the course of the catalog, with the asked-for project to come.
pub proof fn law_requirements_are_taken_up(
    c: Catalog,
    lock: Seq<EntryModel>,
    project_id: Seq<char>,
    version_id: Seq<char>,
    mc_version: Seq<char>,
    loader: Seq<char>,
)
    requires
        coherent(c),
        (c.version)(version_id).project_id == project_id,
    ensures
        ({
            let (m, a) = mod_mgr::onward(
                mod_mgr::started(lock, project_id, version_id, mc_version, loader),
            );
            &&& on_course(c, m)
            &&& nothing_forgotten(c, m)
            &&& to_come(c, m, project_id)
            &&& a is Finish ==> modrinth::has_project(m.progress.lock, project_id)
        }),
{
    let p = mod_mgr::started(lock, project_id, version_id, mc_version, loader);
    assert((c.version)(p.queue[0].version_id).project_id == project_id);
    lemma_onward(p);
    lemma_in_line_onward(c, p, project_id);
}

/// As long as nothing fails and Modrinth tells what the catalog holds, no required project is
/// forgotten: at the end every project that an added mod requires is in the list, and so is every
/// other one that was to come.
pub proof fn law_required_mods_end_in_the_list(
    c: Catalog,
    m: AddModel,
    reply: ReplyModel,
    project: Seq<char>,
)
    requires
        coherent(c),
        on_course(c, m),
        nothing_forgotten(c, m),
        mod_mgr::replies_to(reply, m.pending),
        faithful(c, m.pending, reply),
        mod_mgr::advanced(m, reply).1 !is Fail,
    ensures
        ({
            let (next, a) = mod_mgr::advanced(m, reply);
            &&& on_course(c, next)
            &&& nothing_forgotten(c, next)
            &&& to_come(c, m, project) ==> to_come(c, next, project)
            &&& a is Finish && to_come(c, m, project) ==> modrinth::has_project(
                next.progress.lock,
                project,
            )
            &&& a is Finish ==> forall|i: int, k: int|
                #![trigger (c.version)(next.progress.installed[i].version).dependencies[k]]
                0 <= i < next.progress.installed.len() && 0 <= k < (c.version)(
                    next.progress.installed[i].version,
                ).dependencies.len() ==> (required(
                    c,
                    (c.version)(next.progress.installed[i].version).dependencies[k],
                ) matches Some(x) ==> modrinth::has_project(next.progress.lock, x))
        }),
{
    let (next, a) = mod_mgr::advanced(m, reply);
    lemma_course(c, m, reply, project);
    let q = next_progress(m, reply);
    lemma_onward(q);
    assert forall|i: int, k: int|
        #![trigger (c.version)(next.progress.installed[i].version).dependencies[k]]
        0 <= i < next.progress.installed.len() && 0 <= k < (c.version)(
            next.progress.installed[i].version,
        ).dependencies.len() implies (required(
        c,
        (c.version)(next.progress.installed[i].version).dependencies[k],
    ) matches Some(x) ==> to_come(c, next, x) && (a is Finish ==> modrinth::has_project(
        next.progress.lock,
        x,
    ))) by {
        let e = next.progress.installed[i];
        let d = (c.version)(e.version).dependencies[k];
        if let Some(x) = required(c, d) {
            if i < m.progress.installed.len() {
                assert(m.progress.installed[i] == e);
                assert((c.version)(m.progress.installed[i].version).dependencies[k] == d);
                assert(to_come(c, m, x));
                lemma_course(c, m, reply, x);
            } else {
                assert(m.pending is Title);
                lemma_course_title(c, m, reply, x);
                assert(q.deps[k] == d);
                lemma_in_line_onward(c, q, x);
            }
        }
    }
}

} // verus!
