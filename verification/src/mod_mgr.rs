//! The mods of a server: what is installed, what could be newer, and how a mod is added together
//! with what it requires.

use crate::digest;
use crate::modrinth;
use crate::modrinth::DependencyModel;
use crate::modrinth::Entry;
use crate::modrinth::EntryModel;
use crate::modrinth::FileModel;
use crate::modrinth::FilesRequest;
use crate::modrinth::MrDependency;
use crate::modrinth::MrFile;
use crate::modrinth::MrProject;
use crate::modrinth::MrVersion;
use crate::modrinth::SearchHit;
use crate::modrinth::Update;
use crate::modrinth::UpdateAction;
use crate::modrinth::UpdateActionModel;
use crate::modrinth::UpdateRun;
use crate::modrinth::UpdateRunModel;
use crate::modrinth::UpdateStage;
use crate::modrinth::VersionModel;
use crate::order;
use crate::properties;
use crate::text;
use vstd::prelude::*;

verus! {

/// An installed mod.
pub type ModEntry = Entry;

/// A newer version of an installed mod.
pub type ModUpdate = Update;

/// A mod that a search found.
pub type ModSearchHit = SearchHit;

/// The mods of an instance.
#[derive(Debug)]
pub struct ModLock {
    pub mods: Vec<ModEntry>,
}

impl Default for ModLock {
    fn default() -> (r: Self)
        ensures
            r.mods@.len() == 0,
    {
        ModLock { mods: Vec::new() }
    }
}

/// The mods among the files of a folder.
pub fn mod_files(paths: &Vec<String>) -> (r: Vec<String>)
    ensures
        text::views(r@) == text::views(paths@).filter(modrinth::has_ext("jar"@)),
{
    modrinth::with_extension(paths, "jar")
}

/// The mods of a server, from the fingerprints of its files, the versions that they are of, and the
/// titles of the projects.
pub fn scan_mods(
    files: &Vec<(String, String)>,
    found: &Vec<(String, MrVersion)>,
    projects: &Vec<MrProject>,
) -> (r: ModLock)
    ensures
        modrinth::entry_views(r.mods@) == order::arranged(
            modrinth::entries_for(
                modrinth::found_views(found@),
                properties::pairs_view(files@),
                modrinth::project_views(projects@),
            ),
            modrinth::by_name(),
        ),
{
    ModLock { mods: modrinth::identify(files, found, projects) }
}

/// What Modrinth is asked to find newer versions of the mods of a server; nothing where it has none.
pub fn update_request(lock: &ModLock, mc_version: &str, loader: &str) -> (r: Option<FilesRequest>)
    ensures
        modrinth::opt_request(r) == modrinth::update_request_of(
            modrinth::entry_views(lock.mods@),
            mc_version@,
            Some(loader@),
        ),
{
    modrinth::update_request(&lock.mods, mc_version, Some(loader))
}

/// The newer versions of the mods of a server, where `latest` tells the latest version for each
/// fingerprint.
pub fn check_updates(lock: &ModLock, latest: &Vec<(String, MrVersion)>) -> (r: Vec<ModUpdate>)
    ensures
        modrinth::update_views(r@) == order::arranged(
            modrinth::offers(modrinth::entry_views(lock.mods@), modrinth::found_views(latest@)),
            modrinth::updates_by_name(),
        ),
{
    modrinth::newer_versions(&lock.mods, latest)
}

/// The query of a search for mods.
pub fn search_mods(term: &str, mc_version: &str, loader: &str) -> (r: Vec<(String, String)>)
    ensures
        properties::pairs_view(r@) == modrinth::search_query_of(
            term@,
            modrinth::json_lists(modrinth::mod_facets(mc_version@, loader@)),
        ),
{
    modrinth::mods_query(term, mc_version, loader)
}

/// Begins to replace a mod by a newer version.
pub fn apply_update(lock: ModLock, update: ModUpdate) -> (r: Result<
    (UpdateRun, UpdateAction),
    String,
>)
    ensures
        match r {
            Ok((run, action)) => {
                let mods = modrinth::entry_views(lock.mods@);
                &&& modrinth::entry_slot(mods, update@.project) matches Some(i)
                &&& run@ == (UpdateRunModel {
                    lock: mods,
                    update: update@,
                    old_filename: mods[i].filename,
                    stage: UpdateStage::Download,
                })
                &&& action@ == (UpdateActionModel::Download { url: update@.url })
            },
            Err(e) => modrinth::entry_slot(modrinth::entry_views(lock.mods@), update@.project)
                is None && e@ == modrinth::not_installed_message("Mod"@, update@.project),
        },
{
    modrinth::start_update(lock.mods, update, "Mod")
}

// ---------------------------------------------------------------------------
// Adding a mod
// ---------------------------------------------------------------------------

/// A version that is to be installed, with its project where that is known.
#[derive(Debug)]
pub struct Want {
    pub version_id: String,
    pub project_id: Option<String>,
}

/// The view of a version that is to be installed.
pub struct WantModel {
    pub version_id: Seq<char>,
    pub project_id: Option<Seq<char>>,
}

impl View for Want {
    type V = WantModel;

    open spec fn view(&self) -> WantModel {
        WantModel { version_id: self.version_id@, project_id: text::opt_view(self.project_id) }
    }
}

/// The views of versions that are to be installed.
pub open spec fn want_views(s: Seq<Want>) -> Seq<WantModel> {
    s.map_values(|w: Want| w@)
}

/// How far the adding of a mod has come, apart from what is waited for: the mods of the instance,
/// the versions still to be installed, the projects seen, the mods added, the dependencies of the
/// last one that are still to be looked at, and what everything has to fit.
#[derive(Debug)]
pub struct Progress {
    pub lock: Vec<Entry>,
    pub queue: Vec<Want>,
    pub visited: Vec<String>,
    pub installed: Vec<Entry>,
    pub deps: Vec<MrDependency>,
    pub mc_version: String,
    pub loader: String,
}

/// The view of how far the adding of a mod has come.
#[verifier::ext_equal]
pub struct ProgressModel {
    pub lock: Seq<EntryModel>,
    pub queue: Seq<WantModel>,
    pub visited: Seq<Seq<char>>,
    pub installed: Seq<EntryModel>,
    pub deps: Seq<DependencyModel>,
    pub mc_version: Seq<char>,
    pub loader: Seq<char>,
}

impl View for Progress {
    type V = ProgressModel;

    open spec fn view(&self) -> ProgressModel {
        ProgressModel {
            lock: modrinth::entry_views(self.lock@),
            queue: want_views(self.queue@),
            visited: text::views(self.visited@),
            installed: modrinth::entry_views(self.installed@),
            deps: modrinth::dependency_views(self.deps@),
            mc_version: self.mc_version@,
            loader: self.loader@,
        }
    }
}

/// What the adding of a mod waits for.
#[derive(Debug)]
pub enum Pending {
    /// What a version is.
    Version { version_id: String },
    /// The file of a version.
    Download { version: MrVersion, file: MrFile },
    /// That the file is on disk.
    Write { version: MrVersion, file: MrFile, sha512: String },
    /// The title of the project.
    Title { version: MrVersion, file: MrFile, sha512: String },
    /// The versions of a required project.
    Lookup { project_id: String },
    /// Nothing more.
    Over,
}

/// The view of what is waited for.
pub enum PendingModel {
    Version { version_id: Seq<char> },
    Download { version: VersionModel, file: FileModel },
    Write { version: VersionModel, file: FileModel, sha512: Seq<char> },
    Title { version: VersionModel, file: FileModel, sha512: Seq<char> },
    Lookup { project_id: Seq<char> },
    Over,
}

impl View for Pending {
    type V = PendingModel;

    open spec fn view(&self) -> PendingModel {
        match *self {
            Pending::Version { version_id } => PendingModel::Version { version_id: version_id@ },
            Pending::Download { version, file } => PendingModel::Download {
                version: version@,
                file: file@,
            },
            Pending::Write { version, file, sha512 } => PendingModel::Write {
                version: version@,
                file: file@,
                sha512: sha512@,
            },
            Pending::Title { version, file, sha512 } => PendingModel::Title {
                version: version@,
                file: file@,
                sha512: sha512@,
            },
            Pending::Lookup { project_id } => PendingModel::Lookup { project_id: project_id@ },
            Pending::Over => PendingModel::Over,
        }
    }
}

/// What comes back from outside.
#[derive(Debug)]
pub enum Reply {
    Version(MrVersion),
    Bytes(Vec<u8>),
    Written,
    Project(MrProject),
    Versions(Vec<MrVersion>),
    /// A request or a write failed.
    Failed(String),
    /// A request went through, but what it brought could not be read.
    Unreadable(String),
}

/// The views of versions.
pub open spec fn version_views(s: Seq<MrVersion>) -> Seq<VersionModel> {
    s.map_values(|v: MrVersion| v@)
}

/// The view of what comes back.
pub enum ReplyModel {
    Version(VersionModel),
    Bytes(Seq<u8>),
    Written,
    Project { id: Seq<char>, title: Seq<char> },
    Versions(Seq<VersionModel>),
    Failed(Seq<char>),
    Unreadable(Seq<char>),
}

impl View for Reply {
    type V = ReplyModel;

    open spec fn view(&self) -> ReplyModel {
        match *self {
            Reply::Version(v) => ReplyModel::Version(v@),
            Reply::Bytes(b) => ReplyModel::Bytes(b@),
            Reply::Written => ReplyModel::Written,
            Reply::Project(p) => ReplyModel::Project { id: p.id@, title: p.title@ },
            Reply::Versions(v) => ReplyModel::Versions(version_views(v@)),
            Reply::Failed(e) => ReplyModel::Failed(e@),
            Reply::Unreadable(e) => ReplyModel::Unreadable(e@),
        }
    }
}

/// What is done next.
#[derive(Debug)]
pub enum Action {
    FetchVersion { url: String },
    Download { url: String },
    /// The file that was downloaded is written under this name.
    Write { filename: String },
    FetchProject { url: String },
    /// The versions of a project that fit the server are asked for.
    FetchVersions { url: String, query: Vec<(String, String)> },
    /// The list of mods is written.
    Finish,
    Fail { error: String },
}

/// The view of what is done next.
pub enum ActionModel {
    FetchVersion { url: Seq<char> },
    Download { url: Seq<char> },
    Write { filename: Seq<char> },
    FetchProject { url: Seq<char> },
    FetchVersions { url: Seq<char>, query: Seq<(Seq<char>, Seq<char>)> },
    Finish,
    Fail { error: Seq<char> },
}

impl View for Action {
    type V = ActionModel;

    open spec fn view(&self) -> ActionModel {
        match *self {
            Action::FetchVersion { url } => ActionModel::FetchVersion { url: url@ },
            Action::Download { url } => ActionModel::Download { url: url@ },
            Action::Write { filename } => ActionModel::Write { filename: filename@ },
            Action::FetchProject { url } => ActionModel::FetchProject { url: url@ },
            Action::FetchVersions { url, query } => ActionModel::FetchVersions {
                url: url@,
                query: properties::pairs_view(query@),
            },
            Action::Finish => ActionModel::Finish,
            Action::Fail { error } => ActionModel::Fail { error: error@ },
        }
    }
}

/// The adding of a mod.
#[derive(Debug)]
pub struct AddMod {
    pub progress: Progress,
    pub pending: Pending,
}

/// The view of the adding of a mod.
pub struct AddModel {
    pub progress: ProgressModel,
    pub pending: PendingModel,
}

impl View for AddMod {
    type V = AddModel;

    open spec fn view(&self) -> AddModel {
        AddModel { progress: self.progress@, pending: self.pending@ }
    }
}

/// Whether nothing has to be done for a project: it was seen, or it is installed.
pub open spec fn settled(p: ProgressModel, project: Seq<char>) -> bool {
    p.visited.contains(project) || modrinth::has_project(p.lock, project)
}

/// What is done next where nothing is waited for. The dependencies of the last mod come first: a
/// required one is queued by its version, or its versions are asked for. Then the version queued
/// last is asked for, unless its project is settled. In the end the mods are put in order.
pub open spec fn onward(p: ProgressModel) -> (AddModel, ActionModel)
    decreases p.deps.len(), p.queue.len(),
{
    if p.deps.len() > 0 {
        let d = p.deps[0];
        let rest = ProgressModel { deps: p.deps.skip(1), ..p };
        if d.dependency_type != "required"@ {
            onward(rest)
        } else {
            match d.version_id {
                Some(v) => onward(
                    ProgressModel {
                        queue: p.queue.push(WantModel { version_id: v, project_id: d.project_id }),
                        ..rest
                    },
                ),
                None => match d.project_id {
                    Some(project) => if settled(p, project) {
                        onward(rest)
                    } else {
                        (
                            AddModel {
                                progress: rest,
                                pending: PendingModel::Lookup { project_id: project },
                            },
                            ActionModel::FetchVersions {
                                url: modrinth::address_of("/project/"@, project, "/version"@),
                                query: modrinth::fitting_query_of(p.mc_version, p.loader),
                            },
                        )
                    },
                    None => onward(rest),
                },
            }
        }
    } else if p.queue.len() > 0 {
        let w = p.queue.last();
        let rest = ProgressModel { queue: p.queue.drop_last(), ..p };
        if w.project_id matches Some(project) && settled(p, project) {
            onward(rest)
        } else {
            (
                AddModel {
                    progress: rest,
                    pending: PendingModel::Version { version_id: w.version_id },
                },
                ActionModel::FetchVersion {
                    url: modrinth::address_of("/version/"@, w.version_id, ""@),
                },
            )
        }
    } else {
        (
            AddModel {
                progress: ProgressModel { lock: order::arranged(p.lock, modrinth::by_name()), ..p },
                pending: PendingModel::Over,
            },
            ActionModel::Finish,
        )
    }
}

/// The adding is over without success.
pub open spec fn given_up(p: ProgressModel, error: Seq<char>) -> (AddModel, ActionModel) {
    (AddModel { progress: p, pending: PendingModel::Over }, ActionModel::Fail { error })
}

/// What is done next once a version is known: it is skipped where its project is settled, and
/// otherwise its file is asked for.
pub open spec fn on_version(p: ProgressModel, version_id: Seq<char>, v: VersionModel) -> (
    AddModel,
    ActionModel,
) {
    if settled(p, v.project_id) {
        onward(p)
    } else {
        let seen = ProgressModel { visited: p.visited.push(v.project_id), ..p };
        match modrinth::main_file(v.files) {
            Some(f) => (
                AddModel {
                    progress: seen,
                    pending: PendingModel::Download { version: v, file: f },
                },
                ActionModel::Download { url: f.url },
            ),
            None => given_up(seen, "No files found for version "@ + version_id),
        }
    }
}

/// The mod that was added.
pub open spec fn added_entry(
    v: VersionModel,
    f: FileModel,
    sha512: Seq<char>,
    title: Seq<char>,
) -> EntryModel {
    EntryModel {
        name: title,
        project: v.project_id,
        version: v.id,
        number: v.version_number,
        filename: f.filename,
        sha512,
    }
}

/// Which entries are of other projects.
pub open spec fn of_other_project(project: Seq<char>) -> spec_fn(EntryModel) -> bool {
    |e: EntryModel| e.project != project
}

/// What is done next once a mod is on disk and its title is known.
pub open spec fn on_title(
    p: ProgressModel,
    v: VersionModel,
    f: FileModel,
    sha512: Seq<char>,
    title: Seq<char>,
) -> (AddModel, ActionModel) {
    let e = added_entry(v, f, sha512, title);
    onward(
        ProgressModel {
            lock: p.lock.filter(of_other_project(v.project_id)).push(e),
            installed: p.installed.push(e),
            deps: v.dependencies,
            ..p
        },
    )
}

/// What is said where a request fails or cannot be read.
pub open spec fn failure(pending: PendingModel, failed: bool, e: Seq<char>) -> Seq<char> {
    match pending {
        PendingModel::Download { .. } => (if failed {
            "Download failed: "@
        } else {
            "Download read failed: "@
        }) + e,
        PendingModel::Write { file, .. } => "Failed to write "@ + file.filename + ": "@ + e,
        PendingModel::Lookup { project_id } => (if failed {
            "Dependency lookup failed for "@
        } else {
            "Dependency parse error for "@
        }) + project_id + ": "@ + e,
        _ => (if failed {
            "Modrinth request failed: "@
        } else {
            "Modrinth parse error: "@
        }) + e,
    }
}

/// Whether a reply can come to what is waited for.
pub open spec fn replies_to(reply: ReplyModel, pending: PendingModel) -> bool {
    match pending {
        PendingModel::Version { .. } => reply is Version || reply is Failed || reply is Unreadable,
        PendingModel::Download { .. } => reply is Bytes || reply is Failed || reply is Unreadable,
        PendingModel::Write { .. } => reply is Written || reply is Failed,
        PendingModel::Title { .. } => reply is Project || reply is Failed || reply is Unreadable,
        PendingModel::Lookup { .. } => reply is Versions || reply is Failed || reply is Unreadable,
        PendingModel::Over => false,
    }
}

/// What is done next once a reply came.
pub open spec fn advanced(m: AddModel, reply: ReplyModel) -> (AddModel, ActionModel) {
    let p = m.progress;
    match reply {
        ReplyModel::Failed(e) => given_up(p, failure(m.pending, true, e)),
        ReplyModel::Unreadable(e) => given_up(p, failure(m.pending, false, e)),
        _ => match m.pending {
            PendingModel::Version { version_id } => on_version(p, version_id, reply->Version_0),
            PendingModel::Download { version, file } => {
                let actual = digest::fingerprint_of(reply->Bytes_0);
                if actual == file.sha512 {
                    (
                        AddModel {
                            progress: p,
                            pending: PendingModel::Write { version, file, sha512: actual },
                        },
                        ActionModel::Write { filename: file.filename },
                    )
                } else {
                    given_up(p, digest::mismatch_message(file.filename))
                }
            },
            PendingModel::Write { version, file, sha512 } => (
                AddModel {
                    progress: p,
                    pending: PendingModel::Title { version, file, sha512 },
                },
                ActionModel::FetchProject {
                    url: modrinth::address_of("/project/"@, version.project_id, ""@),
                },
            ),
            PendingModel::Title { version, file, sha512 } => on_title(
                p,
                version,
                file,
                sha512,
                reply->Project_title,
            ),
            PendingModel::Lookup { project_id } => if reply->Versions_0.len() > 0 {
                onward(
                    ProgressModel {
                        queue: p.queue.push(
                            WantModel {
                                version_id: reply->Versions_0[0].id,
                                project_id: Some(project_id),
                            },
                        ),
                        ..p
                    },
                )
            } else {
                onward(p)
            },
            PendingModel::Over => given_up(p, Seq::empty()),
        },
    }
}

impl Progress {
    /// Whether nothing has to be done for a project.
    fn is_settled(&self, project: &str) -> (r: bool)
        ensures
            r == settled(self@, project@),
    {
        proof {
            modrinth::lemma_entry_slot(modrinth::entry_views(self.lock@), project@);
        }
        modrinth::is_among(project, &self.visited) || modrinth::find_project(
            &self.lock,
            project,
        ).is_some()
    }
}

/// What is done next where nothing is waited for.
fn go_on(start: Progress) -> (r: (AddMod, Action))
    ensures
        (r.0@, r.1@) == onward(start@),
{
    let mut p = start;
    let ghost first = p@;
    while p.deps.len() > 0
        invariant
            first == start@,
            onward(first) == onward(p@),
        decreases p.deps@.len(),
    {
        let ghost before = p@;
        let d = p.deps.remove(0);
        assert(before.deps[0] == d@);
        assert(modrinth::dependency_views(p.deps@) =~= before.deps.skip(1));
        let ghost rest = ProgressModel { deps: before.deps.skip(1), ..before };
        assert(p@ == rest);
        if text::same(d.dependency_type.as_str(), "required") {
            match d.version_id {
                Some(v) => {
                    p.queue.push(Want { version_id: v, project_id: d.project_id });
                    assert(want_views(p.queue@) =~= before.queue.push(
                        WantModel { version_id: v@, project_id: before.deps[0].project_id },
                    ));
                },
                None => {
                    if let Some(project) = d.project_id {
                        if !p.is_settled(project.as_str()) {
                            let url = modrinth::address("/project/", project.as_str(), "/version");
                            let query = modrinth::fitting_query(
                                p.mc_version.as_str(),
                                p.loader.as_str(),
                            );
                            return (
                                AddMod {
                                    progress: p,
                                    pending: Pending::Lookup { project_id: project },
                                },
                                Action::FetchVersions { url, query },
                            );
                        }
                    }
                },
            }
        }
    }
    while p.queue.len() > 0
        invariant
            p.deps@.len() == 0,
            first == start@,
            onward(first) == onward(p@),
        decreases p.queue@.len(),
    {
        let ghost before = p@;
        let n: usize = p.queue.len();
        let w = p.queue.remove(n - 1);
        assert(before.queue.last() == w@);
        assert(want_views(p.queue@) =~= before.queue.drop_last());
        assert(p@ == (ProgressModel { queue: before.queue.drop_last(), ..before }));
        let skip = match &w.project_id {
            Some(project) => p.is_settled(project.as_str()),
            None => false,
        };
        if !skip {
            let url = modrinth::address("/version/", w.version_id.as_str(), "");
            return (
                AddMod { progress: p, pending: Pending::Version { version_id: w.version_id } },
                Action::FetchVersion { url },
            );
        }
    }
    let Progress { lock, queue, visited, installed, deps, mc_version, loader } = p;
    let sorted = modrinth::sort_entries(lock);
    (
        AddMod {
            progress: Progress {
                lock: sorted,
                queue,
                visited,
                installed,
                deps,
                mc_version,
                loader,
            },
            pending: Pending::Over,
        },
        Action::Finish,
    )
}

/// The adding is over without success.
fn give_up(p: Progress, error: String) -> (r: (AddMod, Action))
    ensures
        (r.0@, r.1@) == given_up(p@, error@),
{
    (AddMod { progress: p, pending: Pending::Over }, Action::Fail { error })
}

/// The entries of other projects.
pub(crate) fn without_project(lock: Vec<Entry>, project: &str) -> (r: Vec<Entry>)
    ensures
        modrinth::entry_views(r@) == modrinth::entry_views(lock@).filter(
            of_other_project(project@),
        ),
{
    let ghost views = modrinth::entry_views(lock@);
    let mut r: Vec<Entry> = Vec::new();
    proof {
        reveal(Seq::filter);
        assert(views.take(0).filter(of_other_project(project@)) =~= Seq::<EntryModel>::empty());
    }
    for i in 0..lock.len()
        invariant
            views == modrinth::entry_views(lock@),
            modrinth::entry_views(r@) == views.take(i as int).filter(of_other_project(project@)),
    {
        proof {
            reveal(Seq::filter);
            assert(views.take(i + 1).drop_last() =~= views.take(i as int));
            assert(views.take(i + 1).last() == lock@[i as int]@);
        }
        let ghost before = r@;
        if !text::same(lock[i].modrinth_project_id.as_str(), project) {
            r.push(lock[i].clone());
            assert(modrinth::entry_views(r@) =~= modrinth::entry_views(before).push(
                lock@[i as int]@,
            ));
        }
    }
    assert(views.take(lock@.len() as int) =~= views);
    r
}

/// What is said where a request fails or cannot be read.
pub(crate) fn failure_text(pending: &Pending, failed: bool, e: &str) -> (r: String)
    ensures
        r@ == failure(pending@, failed, e@),
{
    let mut m = String::new();
    match pending {
        Pending::Download { .. } => {
            if failed {
                m.append("Download failed: ");
            } else {
                m.append("Download read failed: ");
            }
        },
        Pending::Write { file, .. } => {
            m.append("Failed to write ");
            m.append(file.filename.as_str());
            m.append(": ");
        },
        Pending::Lookup { project_id } => {
            if failed {
                m.append("Dependency lookup failed for ");
            } else {
                m.append("Dependency parse error for ");
            }
            m.append(project_id.as_str());
            m.append(": ");
        },
        _ => {
            if failed {
                m.append("Modrinth request failed: ");
            } else {
                m.append("Modrinth parse error: ");
            }
        },
    }
    m.append(e);
    assert(m@ =~= failure(pending@, failed, e@));
    m
}

/// What is done next once a version is known.
fn take_version(p: Progress, version_id: &str, v: MrVersion) -> (r: (AddMod, Action))
    ensures
        (r.0@, r.1@) == on_version(p@, version_id@, v@),
{
    if p.is_settled(v.project_id.as_str()) {
        return go_on(p);
    }
    let ghost before = p@;
    let mut p = p;
    p.visited.push(v.project_id.clone());
    assert(text::views(p.visited@) =~= before.visited.push(v@.project_id));
    match modrinth::pick_file(&v.files) {
        Some(file) => {
            let url = file.url.clone();
            (
                AddMod { progress: p, pending: Pending::Download { version: v, file } },
                Action::Download { url },
            )
        },
        None => {
            let mut m = "No files found for version ".to_string();
            m.append(version_id);
            give_up(p, m)
        },
    }
}

/// What is done next once a mod is on disk and its title is known.
fn take_title(p: Progress, v: MrVersion, f: MrFile, sha512: String, title: String) -> (r: (
    AddMod,
    Action,
))
    ensures
        (r.0@, r.1@) == on_title(p@, v@, f@, sha512@, title@),
{
    let ghost before = p@;
    let Progress { lock, queue, visited, installed, deps, mc_version, loader } = p;
    let MrVersion { id, project_id, version_number, files, dependencies } = v;
    let mut lock = without_project(lock, project_id.as_str());
    let ghost kept = lock@;
    let mut installed = installed;
    let entry = Entry {
        name: title,
        modrinth_project_id: project_id,
        modrinth_version_id: id,
        version_number,
        filename: f.filename,
        sha512,
    };
    installed.push(entry.clone());
    lock.push(entry);
    let next = Progress {
        lock,
        queue,
        visited,
        installed,
        deps: dependencies,
        mc_version,
        loader,
    };
    proof {
        let e = added_entry(v@, f@, sha512@, title@);
        assert(entry@ == e);
        assert(next@.lock =~= before.lock.filter(of_other_project(v@.project_id)).push(e));
        assert(next@.installed =~= before.installed.push(e));
    }
    go_on(next)
}

/// Begins to add a version of a project to the mods of an instance, for a version of the game and a
/// loader that everything it requires has to fit.
pub fn add_mod(
    lock: ModLock,
    project_id: &str,
    version_id: &str,
    mc_version: &str,
    loader: &str,
) -> (r: (AddMod, Action))
    ensures
        (r.0@, r.1@) == onward(
            started(
                modrinth::entry_views(lock.mods@),
                project_id@,
                version_id@,
                mc_version@,
                loader@,
            ),
        ),
{
    let mut queue: Vec<Want> = Vec::new();
    queue.push(
        Want { version_id: version_id.to_string(), project_id: Some(project_id.to_string()) },
    );
    let p = Progress {
        lock: lock.mods,
        queue,
        visited: Vec::new(),
        installed: Vec::new(),
        deps: Vec::new(),
        mc_version: mc_version.to_string(),
        loader: loader.to_string(),
    };
    assert(p@ =~= started(
        modrinth::entry_views(lock.mods@),
        project_id@,
        version_id@,
        mc_version@,
        loader@,
    ));
    go_on(p)
}

impl AddMod {
    /// What is done next once a reply came.
    pub fn step(self, reply: Reply) -> (r: (AddMod, Action))
        requires
            replies_to(reply@, self@.pending),
        ensures
            (r.0@, r.1@) == advanced(self@, reply@),
    {
        let ghost m = self@;
        let AddMod { progress, pending } = self;
        match reply {
            Reply::Failed(e) => {
                let text = failure_text(&pending, true, e.as_str());
                return give_up(progress, text);
            },
            Reply::Unreadable(e) => {
                let text = failure_text(&pending, false, e.as_str());
                return give_up(progress, text);
            },
            Reply::Version(v) => match pending {
                Pending::Version { version_id } => take_version(progress, version_id.as_str(), v),
                _ => give_up(progress, String::new()),
            },
            Reply::Bytes(bytes) => match pending {
                Pending::Download { version, file } => match digest::verify_download(
                    &bytes,
                    file.sha512.as_str(),
                    file.filename.as_str(),
                ) {
                    Ok(sha512) => {
                        let filename = file.filename.clone();
                        (
                            AddMod { progress, pending: Pending::Write { version, file, sha512 } },
                            Action::Write { filename },
                        )
                    },
                    Err(e) => give_up(progress, e),
                },
                _ => give_up(progress, String::new()),
            },
            Reply::Written => match pending {
                Pending::Write { version, file, sha512 } => {
                    let url = modrinth::address("/project/", version.project_id.as_str(), "");
                    (
                        AddMod { progress, pending: Pending::Title { version, file, sha512 } },
                        Action::FetchProject { url },
                    )
                },
                _ => give_up(progress, String::new()),
            },
            Reply::Project(project) => match pending {
                Pending::Title { version, file, sha512 } => take_title(
                    progress,
                    version,
                    file,
                    sha512,
                    project.title,
                ),
                _ => give_up(progress, String::new()),
            },
            Reply::Versions(versions) => match pending {
                Pending::Lookup { project_id } => {
                    let mut p = progress;
                    let ghost before = p@;
                    if versions.len() > 0 {
                        assert(version_views(versions@)[0] == versions@[0]@);
                        p.queue.push(
                            Want {
                                version_id: versions[0].id.clone(),
                                project_id: Some(project_id),
                            },
                        );
                        assert(want_views(p.queue@) =~= before.queue.push(
                            WantModel {
                                version_id: versions@[0].id@,
                                project_id: Some(project_id@),
                            },
                        ));
                    }
                    go_on(p)
                },
                _ => give_up(progress, String::new()),
            },
        }
    }
}

/// The adding of a version of a project before anything was done.
pub open spec fn started(
    lock: Seq<EntryModel>,
    project_id: Seq<char>,
    version_id: Seq<char>,
    mc_version: Seq<char>,
    loader: Seq<char>,
) -> ProgressModel {
    ProgressModel {
        lock,
        queue: seq![WantModel { version_id, project_id: Some(project_id) }],
        visited: Seq::empty(),
        installed: Seq::empty(),
        deps: Seq::empty(),
        mc_version,
        loader,
    }
}

} // verus!
