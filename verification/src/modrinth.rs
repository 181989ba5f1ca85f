//! Files that come from Modrinth: which of them are installed, and which could be newer.

use crate::digest;
use crate::order;
use crate::paths;
use crate::properties;
use crate::text;
use vstd::prelude::*;

verus! {

/// Where Modrinth answers.
pub const MODRINTH: &'static str = "https://api.modrinth.com/v2";

/// How the manager names itself.
pub const USER_AGENT: &'static str = "msm/0.1 (minecraft-server-manager; contact@example.com)";

// ---------------------------------------------------------------------------
// Answers of Modrinth
// ---------------------------------------------------------------------------

/// A file of a version.
#[derive(Debug)]
pub struct MrFile {
    pub url: String,
    pub filename: String,
    pub sha512: String,
    pub primary: bool,
}

/// The view of a file.
pub struct FileModel {
    pub url: Seq<char>,
    pub filename: Seq<char>,
    pub sha512: Seq<char>,
    pub primary: bool,
}

impl View for MrFile {
    type V = FileModel;

    open spec fn view(&self) -> FileModel {
        FileModel {
            url: self.url@,
            filename: self.filename@,
            sha512: self.sha512@,
            primary: self.primary,
        }
    }
}

impl Clone for MrFile {
    fn clone(&self) -> (r: Self)
        ensures
            r == *self,
    {
        MrFile {
            url: self.url.clone(),
            filename: self.filename.clone(),
            sha512: self.sha512.clone(),
            primary: self.primary,
        }
    }
}

/// What a version depends on.
#[derive(Debug)]
pub struct MrDependency {
    pub version_id: Option<String>,
    pub project_id: Option<String>,
    pub dependency_type: String,
}

/// The view of a dependency.
pub struct DependencyModel {
    pub version_id: Option<Seq<char>>,
    pub project_id: Option<Seq<char>>,
    pub dependency_type: Seq<char>,
}

impl View for MrDependency {
    type V = DependencyModel;

    open spec fn view(&self) -> DependencyModel {
        DependencyModel {
            version_id: text::opt_view(self.version_id),
            project_id: text::opt_view(self.project_id),
            dependency_type: self.dependency_type@,
        }
    }
}

/// A version of a project.
#[derive(Debug)]
pub struct MrVersion {
    pub id: String,
    pub project_id: String,
    pub version_number: String,
    pub files: Vec<MrFile>,
    pub dependencies: Vec<MrDependency>,
}

/// The view of a version.
#[verifier::ext_equal]
pub struct VersionModel {
    pub id: Seq<char>,
    pub project_id: Seq<char>,
    pub version_number: Seq<char>,
    pub files: Seq<FileModel>,
    pub dependencies: Seq<DependencyModel>,
}

/// The views of files.
pub open spec fn file_views(s: Seq<MrFile>) -> Seq<FileModel> {
    s.map_values(|f: MrFile| f@)
}

/// The views of dependencies.
pub open spec fn dependency_views(s: Seq<MrDependency>) -> Seq<DependencyModel> {
    s.map_values(|d: MrDependency| d@)
}

impl View for MrVersion {
    type V = VersionModel;

    open spec fn view(&self) -> VersionModel {
        VersionModel {
            id: self.id@,
            project_id: self.project_id@,
            version_number: self.version_number@,
            files: file_views(self.files@),
            dependencies: dependency_views(self.dependencies@),
        }
    }
}

/// A project.
#[derive(Debug)]
pub struct MrProject {
    pub id: String,
    pub title: String,
}

/// The ids and titles of projects.
pub open spec fn project_views(s: Seq<MrProject>) -> Seq<(Seq<char>, Seq<char>)> {
    s.map_values(|p: MrProject| (p.id@, p.title@))
}

/// The view of versions that answer to fingerprints.
pub open spec fn found_views(s: Seq<(String, MrVersion)>) -> Seq<(Seq<char>, VersionModel)> {
    s.map_values(|p: (String, MrVersion)| (p.0@, p.1@))
}

// ---------------------------------------------------------------------------
// What is installed
// ---------------------------------------------------------------------------

/// An installed file.
#[derive(Debug)]
pub struct Entry {
    pub name: String,
    pub modrinth_project_id: String,
    pub modrinth_version_id: String,
    pub version_number: String,
    pub filename: String,
    pub sha512: String,
}

/// The view of an installed file.
pub struct EntryModel {
    pub name: Seq<char>,
    pub project: Seq<char>,
    pub version: Seq<char>,
    pub number: Seq<char>,
    pub filename: Seq<char>,
    pub sha512: Seq<char>,
}

impl View for Entry {
    type V = EntryModel;

    open spec fn view(&self) -> EntryModel {
        EntryModel {
            name: self.name@,
            project: self.modrinth_project_id@,
            version: self.modrinth_version_id@,
            number: self.version_number@,
            filename: self.filename@,
            sha512: self.sha512@,
        }
    }
}

impl Clone for Entry {
    fn clone(&self) -> (r: Self)
        ensures
            r == *self,
    {
        Entry {
            name: self.name.clone(),
            modrinth_project_id: self.modrinth_project_id.clone(),
            modrinth_version_id: self.modrinth_version_id.clone(),
            version_number: self.version_number.clone(),
            filename: self.filename.clone(),
            sha512: self.sha512.clone(),
        }
    }
}

/// The views of installed files.
pub open spec fn entry_views(s: Seq<Entry>) -> Seq<EntryModel> {
    s.map_values(|e: Entry| e@)
}

/// A newer version of an installed file.
#[derive(Debug)]
pub struct Update {
    pub project_id: String,
    pub name: String,
    pub installed_version_id: String,
    pub installed_version_number: String,
    pub latest_version_id: String,
    pub latest_version_number: String,
    pub download_url: String,
    pub filename: String,
    pub sha512: String,
}

/// The view of a newer version.
pub struct UpdateModel {
    pub project: Seq<char>,
    pub name: Seq<char>,
    pub installed_version: Seq<char>,
    pub installed_number: Seq<char>,
    pub latest_version: Seq<char>,
    pub latest_number: Seq<char>,
    pub url: Seq<char>,
    pub filename: Seq<char>,
    pub sha512: Seq<char>,
}

impl View for Update {
    type V = UpdateModel;

    open spec fn view(&self) -> UpdateModel {
        UpdateModel {
            project: self.project_id@,
            name: self.name@,
            installed_version: self.installed_version_id@,
            installed_number: self.installed_version_number@,
            latest_version: self.latest_version_id@,
            latest_number: self.latest_version_number@,
            url: self.download_url@,
            filename: self.filename@,
            sha512: self.sha512@,
        }
    }
}

/// The views of newer versions.
pub open spec fn update_views(s: Seq<Update>) -> Seq<UpdateModel> {
    s.map_values(|u: Update| u@)
}

/// A project that a search found.
#[derive(Debug, Clone)]
pub struct SearchHit {
    pub project_id: String,
    pub slug: String,
    pub title: String,
    pub description: String,
    pub downloads: u64,
    pub icon_url: Option<String>,
}

// ---------------------------------------------------------------------------
// Order by name
// ---------------------------------------------------------------------------

/// The order of installed files.
pub open spec fn by_name() -> spec_fn(EntryModel, EntryModel) -> bool {
    |a: EntryModel, b: EntryModel| text::not_after(a.name, b.name)
}

/// The order of newer versions.
pub open spec fn updates_by_name() -> spec_fn(UpdateModel, UpdateModel) -> bool {
    |a: UpdateModel, b: UpdateModel| text::not_after(a.name, b.name)
}

/// Installed files in the order of their names.
pub fn sort_entries(v: Vec<Entry>) -> (r: Vec<Entry>)
    ensures
        entry_views(r@) == order::arranged(entry_views(v@), by_name()),
{
    let ghost leq = |a: Entry, b: Entry| text::not_after(a.name@, b.name@);
    let ghost all = v@;
    let le = |a: &Entry, b: &Entry| -> (c: bool)
        ensures
            c == text::not_after(a.name@, b.name@),
        { text::le(a.name.as_str(), b.name.as_str()) };
    let r = order::arrange(v, le, Ghost(leq));
    proof {
        order::lemma_arranged_map(all, |e: Entry| e@, leq, by_name());
    }
    r
}

/// Newer versions in the order of their names.
pub fn sort_updates(v: Vec<Update>) -> (r: Vec<Update>)
    ensures
        update_views(r@) == order::arranged(update_views(v@), updates_by_name()),
{
    let ghost leq = |a: Update, b: Update| text::not_after(a.name@, b.name@);
    let ghost all = v@;
    let le = |a: &Update, b: &Update| -> (c: bool)
        ensures
            c == text::not_after(a.name@, b.name@),
        { text::le(a.name.as_str(), b.name.as_str()) };
    let r = order::arrange(v, le, Ghost(leq));
    proof {
        order::lemma_arranged_map(all, |u: Update| u@, leq, updates_by_name());
    }
    r
}

// ---------------------------------------------------------------------------
// Scanning a folder
// ---------------------------------------------------------------------------

/// Which paths have an extension.
pub open spec fn has_ext(ext: Seq<char>) -> spec_fn(Seq<char>) -> bool {
    |p: Seq<char>| paths::extension_of(p) == Some(ext)
}

/// The paths with an extension, in the order given.
pub fn with_extension(all: &Vec<String>, ext: &str) -> (r: Vec<String>)
    ensures
        text::views(r@) == text::views(all@).filter(has_ext(ext@)),
{
    let mut r: Vec<String> = Vec::new();
    let ghost views = text::views(all@);
    proof {
        reveal(Seq::filter);
        assert(views.take(0).filter(has_ext(ext@)) =~= Seq::<Seq<char>>::empty());
    }
    for i in 0..all.len()
        invariant
            views == text::views(all@),
            text::views(r@) == views.take(i as int).filter(has_ext(ext@)),
    {
        proof {
            reveal(Seq::filter);
            assert(views.take(i + 1).drop_last() =~= views.take(i as int));
            assert(views.take(i + 1).last() == all@[i as int]@);
        }
        let ghost before = r@;
        if paths::has_extension(all[i].as_str(), ext) {
            r.push(all[i].clone());
            assert(text::views(r@) =~= text::views(before).push(all@[i as int]@));
        }
    }
    assert(views.take(all@.len() as int) =~= views);
    r
}

/// The value that stands last under a key.
pub open spec fn last_with(pairs: Seq<(Seq<char>, Seq<char>)>, key: Seq<char>) -> Option<Seq<char>>
    decreases pairs.len(),
{
    if pairs.len() == 0 {
        None
    } else if pairs.last().0 == key {
        Some(pairs.last().1)
    } else {
        last_with(pairs.drop_last(), key)
    }
}

/// The value that stands last under a key.
fn find_last(pairs: &Vec<(String, String)>, key: &str) -> (r: Option<String>)
    ensures
        text::opt_view(r) == last_with(properties::pairs_view(pairs@), key@),
{
    let ghost views = properties::pairs_view(pairs@);
    let mut i: usize = pairs.len();
    assert(views.take(i as int) =~= views);
    while i > 0
        invariant
            i <= pairs@.len(),
            views == properties::pairs_view(pairs@),
            last_with(views, key@) == last_with(views.take(i as int), key@),
        decreases i,
    {
        i -= 1;
        assert(views.take(i + 1).last() == (pairs@[i as int].0@, pairs@[i as int].1@));
        assert(views.take(i + 1).drop_last() =~= views.take(i as int));
        if text::same(pairs[i].0.as_str(), key) {
            return Some(pairs[i].1.clone());
        }
    }
    None
}

/// The title of a project, where it was told; of several the last counts.
fn find_title(projects: &Vec<MrProject>, id: &str) -> (r: Option<String>)
    ensures
        text::opt_view(r) == last_with(project_views(projects@), id@),
{
    let ghost views = project_views(projects@);
    let mut i: usize = projects.len();
    assert(views.take(i as int) =~= views);
    while i > 0
        invariant
            i <= projects@.len(),
            views == project_views(projects@),
            last_with(views, id@) == last_with(views.take(i as int), id@),
        decreases i,
    {
        i -= 1;
        assert(views.take(i + 1).last() == (projects@[i as int].id@, projects@[i as int].title@));
        assert(views.take(i + 1).drop_last() =~= views.take(i as int));
        if text::same(projects[i].id.as_str(), id) {
            return Some(projects[i].title.clone());
        }
    }
    None
}

/// The projects of versions, each once, in the order in which they come first.
pub open spec fn projects_of(found: Seq<(Seq<char>, VersionModel)>) -> Seq<Seq<char>>
    decreases found.len(),
{
    if found.len() == 0 {
        Seq::empty()
    } else {
        let front = projects_of(found.drop_last());
        if front.contains(found.last().1.project_id) {
            front
        } else {
            front.push(found.last().1.project_id)
        }
    }
}

/// Whether a text is among others.
pub fn is_among(s: &str, all: &Vec<String>) -> (r: bool)
    ensures
        r == text::views(all@).contains(s@),
{
    for i in 0..all.len()
        invariant
            forall|j: int| 0 <= j < i ==> text::views(all@)[j] != s@,
    {
        assert(text::views(all@)[i as int] == all@[i as int]@);
        if text::same(all[i].as_str(), s) {
            return true;
        }
    }
    false
}

/// The projects of versions, each once.
pub fn project_ids(found: &Vec<(String, MrVersion)>) -> (r: Vec<String>)
    ensures
        text::views(r@) == projects_of(found_views(found@)),
{
    let ghost views = found_views(found@);
    let mut r: Vec<String> = Vec::new();
    assert(text::views(r@) =~= projects_of(views.take(0)));
    for i in 0..found.len()
        invariant
            views == found_views(found@),
            text::views(r@) == projects_of(views.take(i as int)),
    {
        assert(views.take(i + 1).drop_last() =~= views.take(i as int));
        assert(views.take(i + 1).last() == (found@[i as int].0@, found@[i as int].1@));
        let ghost before = r@;
        if !is_among(found[i].1.project_id.as_str(), &r) {
            r.push(found[i].1.project_id.clone());
            assert(text::views(r@) =~= text::views(before).push(found@[i as int].1.project_id@));
        }
    }
    assert(views.take(found@.len() as int) =~= views);
    r
}

/// The entry for a file whose fingerprint is that of a version: `files` tells fingerprints and
/// paths, `projects` ids and titles. A project without a title goes by its id.
pub open spec fn entry_for(
    hash: Seq<char>,
    version: VersionModel,
    files: Seq<(Seq<char>, Seq<char>)>,
    projects: Seq<(Seq<char>, Seq<char>)>,
) -> Option<EntryModel> {
    match last_with(files, hash) {
        Some(path) => match paths::name_of(path) {
            Some(filename) => Some(
                EntryModel {
                    name: match last_with(projects, version.project_id) {
                        Some(t) => t,
                        None => version.project_id,
                    },
                    project: version.project_id,
                    version: version.id,
                    number: version.version_number,
                    filename,
                    sha512: hash,
                },
            ),
            None => None,
        },
        None => None,
    }
}

/// The entries for all versions that were found.
pub open spec fn entries_for(
    found: Seq<(Seq<char>, VersionModel)>,
    files: Seq<(Seq<char>, Seq<char>)>,
    projects: Seq<(Seq<char>, Seq<char>)>,
) -> Seq<EntryModel>
    decreases found.len(),
{
    if found.len() == 0 {
        Seq::empty()
    } else {
        let front = entries_for(found.drop_last(), files, projects);
        match entry_for(found.last().0, found.last().1, files, projects) {
            Some(e) => front.push(e),
            None => front,
        }
    }
}

/// What is installed, from the fingerprints of the files in a folder and the versions they are of,
/// in the order of names.
pub fn identify(
    files: &Vec<(String, String)>,
    found: &Vec<(String, MrVersion)>,
    projects: &Vec<MrProject>,
) -> (r: Vec<Entry>)
    ensures
        entry_views(r@) == order::arranged(
            entries_for(
                found_views(found@),
                properties::pairs_view(files@),
                project_views(projects@),
            ),
            by_name(),
        ),
{
    let ghost views = found_views(found@);
    let ghost fs = properties::pairs_view(files@);
    let ghost ps = project_views(projects@);
    let mut r: Vec<Entry> = Vec::new();
    assert(entry_views(r@) =~= entries_for(views.take(0), fs, ps));
    for i in 0..found.len()
        invariant
            views == found_views(found@),
            fs == properties::pairs_view(files@),
            ps == project_views(projects@),
            entry_views(r@) == entries_for(views.take(i as int), fs, ps),
    {
        assert(views.take(i + 1).drop_last() =~= views.take(i as int));
        assert(views.take(i + 1).last() == (found@[i as int].0@, found@[i as int].1@));
        let ghost before = r@;
        let version = &found[i].1;
        if let Some(path) = find_last(files, found[i].0.as_str()) {
            if let Some(filename) = paths::file_name(path.as_str()) {
                let name = match find_title(projects, version.project_id.as_str()) {
                    Some(t) => t,
                    None => version.project_id.clone(),
                };
                r.push(
                    Entry {
                        name,
                        modrinth_project_id: version.project_id.clone(),
                        modrinth_version_id: version.id.clone(),
                        version_number: version.version_number.clone(),
                        filename,
                        sha512: found[i].0.clone(),
                    },
                );
                assert(entry_views(r@) =~= entry_views(before).push(r@.last()@));
            }
        }
    }
    assert(views.take(found@.len() as int) =~= views);
    sort_entries(r)
}

// ---------------------------------------------------------------------------
// Newer versions
// ---------------------------------------------------------------------------

/// The first file of a version that is marked as primary.
pub open spec fn first_primary(files: Seq<FileModel>) -> Option<FileModel>
    decreases files.len(),
{
    if files.len() == 0 {
        None
    } else if files[0].primary {
        Some(files[0])
    } else {
        first_primary(files.skip(1))
    }
}

/// The file that stands for a version: the primary one, or else the first.
pub open spec fn main_file(files: Seq<FileModel>) -> Option<FileModel> {
    match first_primary(files) {
        Some(f) => Some(f),
        None => if files.len() > 0 {
            Some(files[0])
        } else {
            None
        },
    }
}

/// The file that stands for a version.
pub fn pick_file(files: &Vec<MrFile>) -> (r: Option<MrFile>)
    ensures
        match r {
            Some(f) => main_file(file_views(files@)) == Some(f@),
            None => main_file(file_views(files@)) is None,
        },
{
    let ghost views = file_views(files@);
    let n: usize = files.len();
    let mut i: usize = 0;
    assert(views.skip(0) =~= views);
    while i < n
        invariant
            i <= n,
            n == files@.len(),
            views == file_views(files@),
            first_primary(views) == first_primary(views.skip(i as int)),
        decreases n - i,
    {
        assert(views.skip(i as int)[0] == files@[i as int]@);
        assert(views.skip(i as int).skip(1) =~= views.skip(i + 1));
        if files[i].primary {
            return Some(files[i].clone());
        }
        i += 1;
    }
    if n > 0 {
        assert(views[0] == files@[0]@);
        Some(files[0].clone())
    } else {
        None
    }
}

/// The entry that stands last under a fingerprint.
pub open spec fn last_entry(lock: Seq<EntryModel>, hash: Seq<char>) -> Option<EntryModel>
    decreases lock.len(),
{
    if lock.len() == 0 {
        None
    } else if lock.last().sha512 == hash {
        Some(lock.last())
    } else {
        last_entry(lock.drop_last(), hash)
    }
}

fn find_entry(lock: &Vec<Entry>, hash: &str) -> (r: Option<usize>)
    ensures
        match r {
            Some(i) => i < lock@.len() && last_entry(entry_views(lock@), hash@) == Some(
                lock@[i as int]@,
            ),
            None => last_entry(entry_views(lock@), hash@) is None,
        },
{
    let ghost views = entry_views(lock@);
    let mut i: usize = lock.len();
    assert(views.take(i as int) =~= views);
    while i > 0
        invariant
            i <= lock@.len(),
            views == entry_views(lock@),
            last_entry(views, hash@) == last_entry(views.take(i as int), hash@),
        decreases i,
    {
        i -= 1;
        assert(views.take(i + 1).last() == lock@[i as int]@);
        assert(views.take(i + 1).drop_last() =~= views.take(i as int));
        if text::same(lock[i].sha512.as_str(), hash) {
            return Some(i);
        }
    }
    None
}

/// The newer version that is offered for an installed file: none where it is the one installed, or
/// where the version has no file.
pub open spec fn offer(e: EntryModel, latest: VersionModel) -> Option<UpdateModel> {
    if latest.id == e.version {
        None
    } else {
        match main_file(latest.files) {
            Some(f) => Some(
                UpdateModel {
                    project: e.project,
                    name: e.name,
                    installed_version: e.version,
                    installed_number: e.number,
                    latest_version: latest.id,
                    latest_number: latest.version_number,
                    url: f.url,
                    filename: f.filename,
                    sha512: f.sha512,
                },
            ),
            None => None,
        }
    }
}

/// The newer versions that are offered, where `latest` tells the latest version for fingerprints.
pub open spec fn offers(lock: Seq<EntryModel>, latest: Seq<(Seq<char>, VersionModel)>) -> Seq<
    UpdateModel,
>
    decreases latest.len(),
{
    if latest.len() == 0 {
        Seq::empty()
    } else {
        let front = offers(lock, latest.drop_last());
        match last_entry(lock, latest.last().0) {
            Some(e) => match offer(e, latest.last().1) {
                Some(u) => front.push(u),
                None => front,
            },
            None => front,
        }
    }
}

/// The newer versions of what is installed, in the order of names.
pub fn newer_versions(lock: &Vec<Entry>, latest: &Vec<(String, MrVersion)>) -> (r: Vec<Update>)
    ensures
        update_views(r@) == order::arranged(
            offers(entry_views(lock@), found_views(latest@)),
            updates_by_name(),
        ),
{
    let ghost views = found_views(latest@);
    let ghost ls = entry_views(lock@);
    let mut r: Vec<Update> = Vec::new();
    assert(update_views(r@) =~= offers(ls, views.take(0)));
    for i in 0..latest.len()
        invariant
            views == found_views(latest@),
            ls == entry_views(lock@),
            update_views(r@) == offers(ls, views.take(i as int)),
    {
        assert(views.take(i + 1).drop_last() =~= views.take(i as int));
        assert(views.take(i + 1).last() == (latest@[i as int].0@, latest@[i as int].1@));
        let ghost before = r@;
        let version = &latest[i].1;
        if let Some(k) = find_entry(lock, latest[i].0.as_str()) {
            let e = &lock[k];
            if !text::same(version.id.as_str(), e.modrinth_version_id.as_str()) {
                if let Some(f) = pick_file(&version.files) {
                    r.push(
                        Update {
                            project_id: e.modrinth_project_id.clone(),
                            name: e.name.clone(),
                            installed_version_id: e.modrinth_version_id.clone(),
                            installed_version_number: e.version_number.clone(),
                            latest_version_id: version.id.clone(),
                            latest_version_number: version.version_number.clone(),
                            download_url: f.url,
                            filename: f.filename,
                            sha512: f.sha512,
                        },
                    );
                    assert(update_views(r@) =~= update_views(before).push(r@.last()@));
                }
            }
        }
    }
    assert(views.take(latest@.len() as int) =~= views);
    sort_updates(r)
}

/// The fingerprints of what is installed.
pub open spec fn hashes_in(lock: Seq<EntryModel>) -> Seq<Seq<char>> {
    lock.map_values(|e: EntryModel| e.sha512)
}

/// The fingerprints of what is installed.
pub fn hashes_of(lock: &Vec<Entry>) -> (r: Vec<String>)
    ensures
        text::views(r@) == hashes_in(entry_views(lock@)),
{
    let mut r: Vec<String> = Vec::new();
    for i in 0..lock.len()
        invariant
            r@.len() == i,
            forall|j: int| 0 <= j < i ==> (#[trigger] r@[j])@ == lock@[j].sha512@,
    {
        r.push(lock[i].sha512.clone());
    }
    assert(text::views(r@) =~= hashes_in(entry_views(lock@)));
    r
}

// ---------------------------------------------------------------------------
// Replacing a file by a newer one
// ---------------------------------------------------------------------------

/// Whether a project is installed.
pub open spec fn has_project(lock: Seq<EntryModel>, project: Seq<char>) -> bool {
    exists|i: int| 0 <= i < lock.len() && (#[trigger] lock[i]).project == project
}

/// Where the first entry of a project stands.
pub open spec fn entry_slot(lock: Seq<EntryModel>, project: Seq<char>) -> Option<int>
    decreases lock.len(),
{
    if lock.len() == 0 {
        None
    } else {
        match entry_slot(lock.drop_last(), project) {
            Some(i) => Some(i),
            None => if lock.last().project == project {
                Some(lock.len() - 1)
            } else {
                None
            },
        }
    }
}

/// What a slot is: the first place of a project, and there is none where no slot is.
pub proof fn lemma_entry_slot(lock: Seq<EntryModel>, project: Seq<char>)
    ensures
        match entry_slot(lock, project) {
            Some(i) => 0 <= i < lock.len() && lock[i].project == project && forall|j: int|
                0 <= j < i ==> (#[trigger] lock[j]).project != project,
            None => !has_project(lock, project),
        },
    decreases lock.len(),
{
    if lock.len() > 0 {
        let front = lock.drop_last();
        lemma_entry_slot(front, project);
        assert forall|j: int| 0 <= j < front.len() implies (#[trigger] lock[j]) == front[j] by {}
        if entry_slot(lock, project) is None {
            assert forall|j: int| 0 <= j < lock.len() implies (#[trigger] lock[j]).project
                != project by {
                if j < front.len() {
                    assert(front[j].project != project);
                }
            }
        }
    }
}

/// Where the first entry of a project stands.
pub fn find_project(lock: &Vec<Entry>, project: &str) -> (r: Option<usize>)
    ensures
        match r {
            Some(i) => i < lock@.len() && entry_slot(entry_views(lock@), project@) == Some(
                i as int,
            ),
            None => entry_slot(entry_views(lock@), project@) is None,
        },
{
    let ghost views = entry_views(lock@);
    for i in 0..lock.len()
        invariant
            views == entry_views(lock@),
            entry_slot(views.take(i as int), project@) is None,
    {
        assert(views.take(i + 1).drop_last() =~= views.take(i as int));
        assert(views.take(i + 1).last() == lock@[i as int]@);
        if text::same(lock[i].modrinth_project_id.as_str(), project) {
            proof {
                lemma_entry_slot(views, project@);
                lemma_entry_slot(views.take(i + 1), project@);
                assert(views[i as int].project == project@);
                let k = entry_slot(views, project@).unwrap();
                if k < i {
                    assert(views.take(i as int)[k].project == project@);
                    lemma_entry_slot(views.take(i as int), project@);
                }
            }
            return Some(i);
        }
    }
    assert(views.take(lock@.len() as int) =~= views);
    None
}

/// `<kind> '<project>' not in lock file`.
pub open spec fn not_installed_message(kind: Seq<char>, project: Seq<char>) -> Seq<char> {
    kind + " '"@ + project + "' not in lock file"@
}

/// The file that an update replaces.
pub fn replaced_file(lock: &Vec<Entry>, update: &Update, kind: &str) -> (r: Result<String, String>)
    ensures
        match r {
            Ok(f) => entry_slot(entry_views(lock@), update@.project) matches Some(i) && f@
                == entry_views(lock@)[i].filename,
            Err(e) => entry_slot(entry_views(lock@), update@.project) is None && e@
                == not_installed_message(kind@, update@.project),
        },
{
    match find_project(lock, update.project_id.as_str()) {
        Some(i) => {
            assert(entry_views(lock@)[i as int] == lock@[i as int]@);
            Ok(lock[i].filename.clone())
        },
        None => {
            let mut m = kind.to_string();
            m.append(" '");
            m.append(update.project_id.as_str());
            m.append("' not in lock file");
            Err(m)
        },
    }
}

/// The file that has to go once an update was written: the old one, unless the new one has its
/// name.
pub fn stale_file(old_filename: &str, update: &Update) -> (r: Option<String>)
    ensures
        text::opt_view(r) == (if old_filename@ == update@.filename {
            None
        } else {
            Some(old_filename@)
        }),
{
    if text::same(old_filename, update.filename.as_str()) {
        None
    } else {
        Some(old_filename.to_string())
    }
}

/// An entry after an update.
pub open spec fn updated(e: EntryModel, u: UpdateModel) -> EntryModel {
    EntryModel {
        version: u.latest_version,
        number: u.latest_number,
        filename: u.filename,
        sha512: u.sha512,
        ..e
    }
}

/// What is installed after an update.
pub open spec fn lock_after_update(lock: Seq<EntryModel>, u: UpdateModel) -> Seq<EntryModel> {
    match entry_slot(lock, u.project) {
        Some(i) => lock.update(i, updated(lock[i], u)),
        None => lock,
    }
}

/// Takes in that an update was written.
pub fn record_update(lock: &mut Vec<Entry>, update: &Update)
    ensures
        entry_views(final(lock)@) == lock_after_update(entry_views(old(lock)@), update@),
{
    let ghost before = lock@;
    if let Some(i) = find_project(lock, update.project_id.as_str()) {
        lock[i].modrinth_version_id = update.latest_version_id.clone();
        lock[i].version_number = update.latest_version_number.clone();
        lock[i].filename = update.filename.clone();
        lock[i].sha512 = update.sha512.clone();
    }
    assert(entry_views(lock@) =~= lock_after_update(entry_views(before), update@));
}

/// What the replacing of a file waits for.
#[derive(Debug, Clone, Copy, PartialEq, Eq, Structural)]
pub enum UpdateStage {
    Download,
    Write,
    Remove,
    Over,
}

/// What is done next.
#[derive(Debug)]
pub enum UpdateAction {
    Download { url: String },
    /// The file that was downloaded is written under this name.
    Write { filename: String },
    /// The file of this name is removed, where it is there.
    Remove { filename: String },
    Finish,
    Fail { error: String },
}

/// The view of what is done next.
pub enum UpdateActionModel {
    Download { url: Seq<char> },
    Write { filename: Seq<char> },
    Remove { filename: Seq<char> },
    Finish,
    Fail { error: Seq<char> },
}

impl View for UpdateAction {
    type V = UpdateActionModel;

    open spec fn view(&self) -> UpdateActionModel {
        match *self {
            UpdateAction::Download { url } => UpdateActionModel::Download { url: url@ },
            UpdateAction::Write { filename } => UpdateActionModel::Write { filename: filename@ },
            UpdateAction::Remove { filename } => UpdateActionModel::Remove { filename: filename@ },
            UpdateAction::Finish => UpdateActionModel::Finish,
            UpdateAction::Fail { error } => UpdateActionModel::Fail { error: error@ },
        }
    }
}

/// What comes back from outside.
#[derive(Debug)]
pub enum UpdateReply {
    Bytes(Vec<u8>),
    Done,
    Failed(String),
    /// The download went through, but could not be read.
    Unreadable(String),
}

/// The view of what comes back.
pub enum UpdateReplyModel {
    Bytes(Seq<u8>),
    Done,
    Failed(Seq<char>),
    Unreadable(Seq<char>),
}

impl View for UpdateReply {
    type V = UpdateReplyModel;

    open spec fn view(&self) -> UpdateReplyModel {
        match *self {
            UpdateReply::Bytes(b) => UpdateReplyModel::Bytes(b@),
            UpdateReply::Done => UpdateReplyModel::Done,
            UpdateReply::Failed(e) => UpdateReplyModel::Failed(e@),
            UpdateReply::Unreadable(e) => UpdateReplyModel::Unreadable(e@),
        }
    }
}

/// The replacing of a file by a newer one.
#[derive(Debug)]
pub struct UpdateRun {
    pub lock: Vec<Entry>,
    pub update: Update,
    pub old_filename: String,
    pub stage: UpdateStage,
}

/// The view of the replacing of a file.
#[verifier::ext_equal]
pub struct UpdateRunModel {
    pub lock: Seq<EntryModel>,
    pub update: UpdateModel,
    pub old_filename: Seq<char>,
    pub stage: UpdateStage,
}

impl View for UpdateRun {
    type V = UpdateRunModel;

    open spec fn view(&self) -> UpdateRunModel {
        UpdateRunModel {
            lock: entry_views(self.lock@),
            update: self.update@,
            old_filename: self.old_filename@,
            stage: self.stage,
        }
    }
}

/// Whether a reply can come to what is waited for.
pub open spec fn update_replies_to(reply: UpdateReplyModel, stage: UpdateStage) -> bool {
    match stage {
        UpdateStage::Download => reply !is Done,
        UpdateStage::Over => false,
        _ => reply is Done || reply is Failed,
    }
}

/// What is said where the replacing of a file fails.
pub open spec fn update_failure(m: UpdateRunModel, reply: UpdateReplyModel) -> Seq<char> {
    match reply {
        UpdateReplyModel::Failed(e) => match m.stage {
            UpdateStage::Download => "Download failed for "@ + m.update.name + ": "@ + e,
            UpdateStage::Write => "Failed to write "@ + m.update.filename + ": "@ + e,
            _ => "Failed to remove old file "@ + m.old_filename + ": "@ + e,
        },
        UpdateReplyModel::Unreadable(e) => "Download read failed: "@ + e,
        _ => digest::mismatch_message(m.update.filename),
    }
}

/// The replacing of a file is over: what is installed is brought up to date.
pub open spec fn update_finished(m: UpdateRunModel) -> (UpdateRunModel, UpdateActionModel) {
    (
        UpdateRunModel {
            lock: lock_after_update(m.lock, m.update),
            stage: UpdateStage::Over,
            ..m
        },
        UpdateActionModel::Finish,
    )
}

/// The replacing of a file after a reply: the new file is checked and written, the old one is
/// removed where it has another name, and only then the list changes.
pub open spec fn update_advanced(m: UpdateRunModel, reply: UpdateReplyModel) -> (
    UpdateRunModel,
    UpdateActionModel,
) {
    let failed = (
        UpdateRunModel { stage: UpdateStage::Over, ..m },
        UpdateActionModel::Fail { error: update_failure(m, reply) },
    );
    match reply {
        UpdateReplyModel::Failed(_) => failed,
        UpdateReplyModel::Unreadable(_) => failed,
        UpdateReplyModel::Bytes(b) => if digest::fingerprint_of(b) == m.update.sha512 {
            (
                UpdateRunModel { stage: UpdateStage::Write, ..m },
                UpdateActionModel::Write { filename: m.update.filename },
            )
        } else {
            failed
        },
        UpdateReplyModel::Done => if m.stage == UpdateStage::Write && m.old_filename
            != m.update.filename {
            (
                UpdateRunModel { stage: UpdateStage::Remove, ..m },
                UpdateActionModel::Remove { filename: m.old_filename },
            )
        } else {
            update_finished(m)
        },
    }
}

/// Begins to replace a file by a newer one.
pub fn start_update(lock: Vec<Entry>, update: Update, kind: &str) -> (r: Result<
    (UpdateRun, UpdateAction),
    String,
>)
    ensures
        match r {
            Ok((run, action)) => {
                &&& entry_slot(entry_views(lock@), update@.project) matches Some(i)
                &&& run@ == (UpdateRunModel {
                    lock: entry_views(lock@),
                    update: update@,
                    old_filename: entry_views(lock@)[i].filename,
                    stage: UpdateStage::Download,
                })
                &&& action@ == (UpdateActionModel::Download { url: update@.url })
            },
            Err(e) => entry_slot(entry_views(lock@), update@.project) is None && e@
                == not_installed_message(kind@, update@.project),
        },
{
    match replaced_file(&lock, &update, kind) {
        Ok(old_filename) => {
            let url = update.download_url.clone();
            Ok(
                (
                    UpdateRun { lock, update, old_filename, stage: UpdateStage::Download },
                    UpdateAction::Download { url },
                ),
            )
        },
        Err(e) => Err(e),
    }
}

impl UpdateRun {
    fn give_up(self, error: String) -> (r: (UpdateRun, UpdateAction))
        ensures
            r.0@ == (UpdateRunModel { stage: UpdateStage::Over, ..self@ }),
            r.1@ == (UpdateActionModel::Fail { error: error@ }),
    {
        let UpdateRun { lock, update, old_filename, stage: _ } = self;
        (
            UpdateRun { lock, update, old_filename, stage: UpdateStage::Over },
            UpdateAction::Fail { error },
        )
    }

    fn failure_text(&self, e: &str) -> (r: String)
        ensures
            r@ == update_failure(self@, UpdateReplyModel::Failed(e@)),
    {
        let mut m = String::new();
        match self.stage {
            UpdateStage::Download => {
                m.append("Download failed for ");
                m.append(self.update.name.as_str());
            },
            UpdateStage::Write => {
                m.append("Failed to write ");
                m.append(self.update.filename.as_str());
            },
            _ => {
                m.append("Failed to remove old file ");
                m.append(self.old_filename.as_str());
            },
        }
        m.append(": ");
        m.append(e);
        assert(m@ =~= update_failure(self@, UpdateReplyModel::Failed(e@)));
        m
    }

    /// What is done next once a reply came.
    pub fn step(self, reply: UpdateReply) -> (r: (UpdateRun, UpdateAction))
        requires
            update_replies_to(reply@, self@.stage),
        ensures
            (r.0@, r.1@) == update_advanced(self@, reply@),
    {
        match reply {
            UpdateReply::Failed(e) => {
                let m = self.failure_text(e.as_str());
                self.give_up(m)
            },
            UpdateReply::Unreadable(e) => {
                let mut m = "Download read failed: ".to_string();
                m.append(e.as_str());
                self.give_up(m)
            },
            UpdateReply::Bytes(bytes) => match digest::verify_download(
                &bytes,
                self.update.sha512.as_str(),
                self.update.filename.as_str(),
            ) {
                Ok(_) => {
                    let UpdateRun { lock, update, old_filename, stage: _ } = self;
                    let filename = update.filename.clone();
                    (
                        UpdateRun { lock, update, old_filename, stage: UpdateStage::Write },
                        UpdateAction::Write { filename },
                    )
                },
                Err(e) => self.give_up(e),
            },
            UpdateReply::Done => {
                let UpdateRun { lock, update, old_filename, stage } = self;
                if stage == UpdateStage::Write {
                    if let Some(filename) = stale_file(old_filename.as_str(), &update) {
                        return (
                            UpdateRun { lock, update, old_filename, stage: UpdateStage::Remove },
                            UpdateAction::Remove { filename },
                        );
                    }
                }
                let mut lock = lock;
                record_update(&mut lock, &update);
                (
                    UpdateRun { lock, update, old_filename, stage: UpdateStage::Over },
                    UpdateAction::Finish,
                )
            },
        }
    }
}

/// The list changes only once the new file is in place, and the new file is written only where it
/// has the fingerprint that was told.
pub proof fn law_update_changes_the_list_last(m: UpdateRunModel, reply: UpdateReplyModel)
    requires
        update_replies_to(reply, m.stage),
    ensures
        update_advanced(m, reply).1 !is Finish ==> update_advanced(m, reply).0.lock == m.lock,
        update_advanced(m, reply).1 is Finish ==> m.stage == UpdateStage::Write || m.stage
            == UpdateStage::Remove,
        update_advanced(m, reply).1 is Write ==> (reply matches UpdateReplyModel::Bytes(b)
            && digest::fingerprint_of(b) == m.update.sha512),
{
}

/// A version that was installed as an update is not offered again for the same file.
pub proof fn law_update_is_offered_once(
    lock: Seq<EntryModel>,
    u: UpdateModel,
    latest: VersionModel,
)
    requires
        has_project(lock, u.project),
        latest.id == u.latest_version,
    ensures
        ({
            let after = lock_after_update(lock, u);
            &&& entry_slot(after, u.project) == entry_slot(lock, u.project)
            &&& entry_slot(after, u.project) matches Some(i)
            &&& offer(after[i], latest) is None
        }),
{
    let after = lock_after_update(lock, u);
    lemma_entry_slot(lock, u.project);
    lemma_entry_slot(after, u.project);
    let i = entry_slot(lock, u.project).unwrap();
    assert(after[i].project == u.project);
    let k = entry_slot(after, u.project).unwrap();
    if k < i {
        assert(after[k] == lock[k]);
    }
}

/// Whether at most one entry of a list is of a project.
pub open spec fn one_of_project(lock: Seq<EntryModel>, project: Seq<char>) -> bool {
    forall|i: int, j: int|
        0 <= i < lock.len() && 0 <= j < lock.len() && (#[trigger] lock[i]).project == project && (
        #[trigger] lock[j]).project == project ==> i == j
}

/// Looking for newer versions does not offer a version again that was installed as an update,
/// whatever versions are told to be the latest.
pub proof fn law_installed_update_is_not_found_again(
    lock: Seq<EntryModel>,
    u: UpdateModel,
    latest: Seq<(Seq<char>, VersionModel)>,
)
    requires
        has_project(lock, u.project),
        one_of_project(lock, u.project),
    ensures
        ({
            let found = order::arranged(
                offers(lock_after_update(lock, u), latest),
                updates_by_name(),
            );
            forall|i: int|
                0 <= i < found.len() && (#[trigger] found[i]).project == u.project
                    ==> found[i].latest_version != u.latest_version
        }),
{
    let after = lock_after_update(lock, u);
    let all = offers(after, latest);
    let found = order::arranged(all, updates_by_name());
    lemma_entry_slot(lock, u.project);
    let k = entry_slot(lock, u.project).unwrap();
    law_offers_are_new(after, latest);
    order::lemma_arranged_members(all, updates_by_name());
    assert forall|i: int| 0 <= i < found.len() && (#[trigger] found[i]).project
        == u.project implies found[i].latest_version != u.latest_version by {
        assert(found.contains(found[i]));
        assert(all.contains(found[i]));
        let a = all.index_of(found[i]);
        assert(all[a] == found[i]);
        let j = choose|j: int|
            0 <= j < after.len() && (#[trigger] after[j]).project == all[a].project
                && after[j].version == all[a].installed_version;
        if j != k {
            assert(after[j] == lock[j]);
            assert(lock[j].project == lock[k].project);
        }
    }
}

/// What is offered is always another version than the one installed, for a file that is installed.
pub proof fn law_offers_are_new(lock: Seq<EntryModel>, latest: Seq<(Seq<char>, VersionModel)>)
    ensures
        forall|i: int|
            0 <= i < offers(lock, latest).len() ==> {
                let u = #[trigger] offers(lock, latest)[i];
                &&& u.latest_version != u.installed_version
                &&& exists|j: int|
                    0 <= j < lock.len() && (#[trigger] lock[j]).project == u.project
                        && lock[j].version == u.installed_version
            },
    decreases latest.len(),
{
    if latest.len() > 0 {
        law_offers_are_new(lock, latest.drop_last());
        let hash = latest.last().0;
        lemma_last_entry(lock, hash);
        let front = offers(lock, latest.drop_last());
        let all = offers(lock, latest);
        assert forall|i: int| 0 <= i < all.len() implies ({
            let u = #[trigger] all[i];
            &&& u.latest_version != u.installed_version
            &&& exists|j: int|
                0 <= j < lock.len() && (#[trigger] lock[j]).project == u.project && lock[j].version
                    == u.installed_version
        }) by {
            if i < front.len() {
                assert(all[i] == front[i]);
            } else {
                let e = last_entry(lock, hash).unwrap();
                let j = choose|j: int| 0 <= j < lock.len() && #[trigger] lock[j] == e;
                assert(lock[j].project == all[i].project);
            }
        }
    }
}

proof fn lemma_last_entry(lock: Seq<EntryModel>, hash: Seq<char>)
    ensures
        last_entry(lock, hash) matches Some(e) ==> e.sha512 == hash && exists|j: int|
            0 <= j < lock.len() && #[trigger] lock[j] == e,
    decreases lock.len(),
{
    if lock.len() > 0 {
        if lock.last().sha512 != hash {
            lemma_last_entry(lock.drop_last(), hash);
            if let Some(e) = last_entry(lock, hash) {
                let j = choose|j: int| 0 <= j < lock.drop_last().len() && #[trigger] lock.drop_last()[j] == e;
                assert(lock[j] == e);
            }
        } else {
            assert(lock[lock.len() - 1] == lock.last());
        }
    }
}

// ---------------------------------------------------------------------------
// Requests
// ---------------------------------------------------------------------------

/// What `serde_json::to_string` makes of a list of texts.
pub uninterp spec fn json_list(items: Seq<Seq<char>>) -> Seq<char>;

/// `serde_json::to_string` on a list of texts: what it writes depends on the texts alone. It fails
/// on no such list.
#[verifier::external_body]
fn list_to_json(items: &Vec<String>) -> (r: String)
    ensures
        r@ == json_list(text::views(items@)),
{
    serde_json::to_string(items).unwrap_or_default()
}

/// The views of lists of texts.
pub open spec fn list_views(s: Seq<Vec<String>>) -> Seq<Seq<Seq<char>>> {
    s.map_values(|v: Vec<String>| text::views(v@))
}

/// What `serde_json::to_string` makes of a list of lists of texts.
pub uninterp spec fn json_lists(items: Seq<Seq<Seq<char>>>) -> Seq<char>;

/// `serde_json::to_string` on a list of lists of texts: what it writes depends on the texts alone.
/// It fails on no such list.
#[verifier::external_body]
fn lists_to_json(items: &Vec<Vec<String>>) -> (r: String)
    ensures
        r@ == json_lists(list_views(items@)),
{
    serde_json::to_string(items).unwrap_or_default()
}

/// The query that asks for the titles of projects.
pub fn titles_query(ids: &Vec<String>) -> (r: Vec<(String, String)>)
    ensures
        properties::pairs_view(r@) == seq![("ids"@, json_list(text::views(ids@)))],
{
    let json = list_to_json(ids);
    let mut q: Vec<(String, String)> = Vec::new();
    q.push(("ids".to_string(), json));
    assert(properties::pairs_view(q@) =~= seq![("ids"@, json_list(text::views(ids@)))]);
    q
}

/// The query of a search, from the term and the facets as they are sent.
pub open spec fn search_query_of(term: Seq<char>, facets: Seq<char>) -> Seq<
    (Seq<char>, Seq<char>),
> {
    seq![("query"@, term), ("facets"@, facets), ("limit"@, "20"@)]
}

/// The query of a search, from the term and the facets as they are sent.
pub fn search_query(term: &str, facets: &str) -> (r: Vec<(String, String)>)
    ensures
        properties::pairs_view(r@) == search_query_of(term@, facets@),
{
    let mut q: Vec<(String, String)> = Vec::new();
    q.push(("query".to_string(), term.to_string()));
    q.push(("facets".to_string(), facets.to_string()));
    q.push(("limit".to_string(), "20".to_string()));
    assert(properties::pairs_view(q@) =~= search_query_of(term@, facets@));
    q
}

/// The facet that a mod loader is searched by.
pub open spec fn facet(label: Seq<char>, value: Seq<char>) -> Seq<Seq<char>> {
    seq![label + value]
}

fn one_facet(label: &str, value: &str) -> (r: Vec<String>)
    ensures
        text::views(r@) == facet(label@, value@),
{
    let mut s = label.to_string();
    s.append(value);
    let mut v: Vec<String> = Vec::new();
    v.push(s);
    assert(text::views(v@) =~= facet(label@, value@));
    v
}

/// The facets that mods are searched by.
pub open spec fn mod_facets(mc_version: Seq<char>, loader: Seq<char>) -> Seq<Seq<Seq<char>>> {
    seq![
        facet("project_type:"@, "mod"@),
        facet("categories:"@, loader),
        facet("versions:"@, mc_version),
    ]
}

/// The facets that datapacks are searched by.
pub open spec fn datapack_facets(mc_version: Seq<char>) -> Seq<Seq<Seq<char>>> {
    seq![facet("project_type:"@, "datapack"@), facet("versions:"@, mc_version)]
}

/// The query of a search for mods.
pub fn mods_query(term: &str, mc_version: &str, loader: &str) -> (r: Vec<(String, String)>)
    ensures
        properties::pairs_view(r@) == search_query_of(
            term@,
            json_lists(mod_facets(mc_version@, loader@)),
        ),
{
    let mut facets: Vec<Vec<String>> = Vec::new();
    facets.push(one_facet("project_type:", "mod"));
    facets.push(one_facet("categories:", loader));
    facets.push(one_facet("versions:", mc_version));
    assert(list_views(facets@) =~= mod_facets(mc_version@, loader@));
    let json = lists_to_json(&facets);
    search_query(term, json.as_str())
}

/// The query of a search for datapacks.
pub fn datapacks_query(term: &str, mc_version: &str) -> (r: Vec<(String, String)>)
    ensures
        properties::pairs_view(r@) == search_query_of(
            term@,
            json_lists(datapack_facets(mc_version@)),
        ),
{
    let mut facets: Vec<Vec<String>> = Vec::new();
    facets.push(one_facet("project_type:", "datapack"));
    facets.push(one_facet("versions:", mc_version));
    assert(list_views(facets@) =~= datapack_facets(mc_version@));
    let json = lists_to_json(&facets);
    search_query(term, json.as_str())
}

/// The query that asks for the versions of a project that fit a loader and a version of the game.
pub open spec fn fitting_query_of(mc_version: Seq<char>, loader: Seq<char>) -> Seq<
    (Seq<char>, Seq<char>),
> {
    seq![
        ("loaders"@, json_list(seq![loader])),
        ("game_versions"@, json_list(seq![mc_version])),
    ]
}

/// The query that asks for the versions of a project that fit a loader and a version of the game.
pub fn fitting_query(mc_version: &str, loader: &str) -> (r: Vec<(String, String)>)
    ensures
        properties::pairs_view(r@) == fitting_query_of(mc_version@, loader@),
{
    let mut loaders: Vec<String> = Vec::new();
    loaders.push(loader.to_string());
    let mut versions: Vec<String> = Vec::new();
    versions.push(mc_version.to_string());
    assert(text::views(loaders@) =~= seq![loader@]);
    assert(text::views(versions@) =~= seq![mc_version@]);
    let mut q: Vec<(String, String)> = Vec::new();
    q.push(("loaders".to_string(), list_to_json(&loaders)));
    q.push(("game_versions".to_string(), list_to_json(&versions)));
    assert(properties::pairs_view(q@) =~= fitting_query_of(mc_version@, loader@));
    q
}

/// What Modrinth is asked about files: their fingerprints and how those are made, and where newer
/// versions are asked for, the loaders and the versions of the game that they have to fit.
#[derive(Debug)]
pub struct FilesRequest {
    pub hashes: Vec<String>,
    pub algorithm: String,
    pub loaders: Option<Vec<String>>,
    pub game_versions: Option<Vec<String>>,
}

/// The view of what Modrinth is asked about files.
pub struct FilesRequestModel {
    pub hashes: Seq<Seq<char>>,
    pub algorithm: Seq<char>,
    pub loaders: Option<Seq<Seq<char>>>,
    pub game_versions: Option<Seq<Seq<char>>>,
}

/// The view of a list of texts that may be missing.
pub open spec fn opt_views(s: Option<Vec<String>>) -> Option<Seq<Seq<char>>> {
    match s {
        Some(v) => Some(text::views(v@)),
        None => None,
    }
}

impl View for FilesRequest {
    type V = FilesRequestModel;

    open spec fn view(&self) -> FilesRequestModel {
        FilesRequestModel {
            hashes: text::views(self.hashes@),
            algorithm: self.algorithm@,
            loaders: opt_views(self.loaders),
            game_versions: opt_views(self.game_versions),
        }
    }
}

fn one_text(s: &str) -> (r: Vec<String>)
    ensures
        text::views(r@) == seq![s@],
{
    let mut v: Vec<String> = Vec::new();
    v.push(s.to_string());
    assert(text::views(v@) =~= seq![s@]);
    v
}

/// Asks which versions the files with these fingerprints are of.
pub fn scan_request(files: &Vec<(String, String)>) -> (r: FilesRequest)
    ensures
        r@.hashes == properties::pairs_view(files@).map_values(
            |f: (Seq<char>, Seq<char>)| f.0,
        ),
        r@.algorithm == "sha512"@,
        r@.loaders is None,
        r@.game_versions is None,
{
    let ghost all = properties::pairs_view(files@).map_values(|f: (Seq<char>, Seq<char>)| f.0);
    let mut hashes: Vec<String> = Vec::new();
    for i in 0..files.len()
        invariant
            all == properties::pairs_view(files@).map_values(|f: (Seq<char>, Seq<char>)| f.0),
            text::views(hashes@) == all.take(i as int),
    {
        let ghost before = text::views(hashes@);
        hashes.push(files[i].0.clone());
        assert(text::views(hashes@) =~= before.push(files@[i as int].0@));
        assert(all.take(i + 1) =~= all.take(i as int).push(all[i as int]));
    }
    assert(all.take(all.len() as int) =~= all);
    FilesRequest { hashes, algorithm: "sha512".to_string(), loaders: None, game_versions: None }
}

/// What is asked to find newer versions of installed files: all their fingerprints, for the game's
/// version, and for the loader where one matters. Nothing is asked where nothing is installed.
pub open spec fn update_request_of(
    lock: Seq<EntryModel>,
    mc_version: Seq<char>,
    loader: Option<Seq<char>>,
) -> Option<FilesRequestModel> {
    if lock.len() == 0 {
        None
    } else {
        Some(
            FilesRequestModel {
                hashes: hashes_in(lock),
                algorithm: "sha512"@,
                loaders: match loader {
                    Some(l) => Some(seq![l]),
                    None => None,
                },
                game_versions: Some(seq![mc_version]),
            },
        )
    }
}

/// The view of what Modrinth is asked, where it is asked.
pub open spec fn opt_request(r: Option<FilesRequest>) -> Option<FilesRequestModel> {
    match r {
        Some(q) => Some(q@),
        None => None,
    }
}

/// What is asked to find newer versions of installed files.
pub fn update_request(lock: &Vec<Entry>, mc_version: &str, loader: Option<&str>) -> (r: Option<
    FilesRequest,
>)
    ensures
        opt_request(r) == update_request_of(
            entry_views(lock@),
            mc_version@,
            match loader {
                Some(l) => Some(l@),
                None => None,
            },
        ),
{
    if lock.len() == 0 {
        return None;
    }
    let hashes = hashes_of(lock);
    let loaders = match loader {
        Some(l) => Some(one_text(l)),
        None => None,
    };
    let game_versions = one_text(mc_version);
    let q = FilesRequest {
        hashes,
        algorithm: "sha512".to_string(),
        loaders,
        game_versions: Some(game_versions),
    };
    Some(q)
}

/// The address of something of Modrinth.
pub open spec fn address_of(path: Seq<char>, id: Seq<char>, tail: Seq<char>) -> Seq<char> {
    MODRINTH@ + path + id + tail
}

/// The address of something of Modrinth.
pub fn address(path: &str, id: &str, tail: &str) -> (r: String)
    ensures
        r@ == address_of(path@, id@, tail@),
{
    let mut u = MODRINTH.to_string();
    u.append(path);
    u.append(id);
    u.append(tail);
    u
}

} // verus!
