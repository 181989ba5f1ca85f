//! The datapacks of a server: where they lie, what is installed, what could be newer, and how one
//! is added.

use crate::digest;
use crate::mod_mgr;
use crate::mod_mgr::Action;
use crate::mod_mgr::ActionModel;
use crate::mod_mgr::Pending;
use crate::mod_mgr::PendingModel;
use crate::mod_mgr::Reply;
use crate::mod_mgr::ReplyModel;
use crate::modrinth;
use crate::modrinth::Entry;
use crate::modrinth::EntryModel;
use crate::modrinth::FileModel;
use crate::modrinth::FilesRequest;
use crate::modrinth::MrProject;
use crate::modrinth::MrVersion;
use crate::modrinth::SearchHit;
use crate::modrinth::Update;
use crate::modrinth::UpdateAction;
use crate::modrinth::UpdateActionModel;
use crate::modrinth::UpdateRun;
use crate::modrinth::UpdateRunModel;
use crate::modrinth::UpdateStage;
use crate::modrinth::VersionModel;
use crate::order;
use crate::paths;
use crate::properties;
use crate::text;
use vstd::prelude::*;

verus! {

/// An installed datapack.
pub type DatapackEntry = Entry;

/// A newer version of an installed datapack.
pub type DatapackUpdate = Update;

/// A datapack that a search found.
pub type DatapackSearchHit = SearchHit;

/// The datapacks of an instance.
#[derive(Debug)]
pub struct DatapackLock {
    pub datapacks: Vec<DatapackEntry>,
}

impl Default for DatapackLock {
    fn default() -> (r: Self)
        ensures
            r.datapacks@.len() == 0,
    {
        DatapackLock { datapacks: Vec::new() }
    }
}

/// The folder of datapacks in the world of a server.
pub open spec fn datapacks_in(server_path: Seq<char>, world: Seq<char>) -> Seq<char> {
    paths::joined_path(paths::joined_path(server_path, world), "datapacks"@)
}

/// The world that `server.properties` names.
pub open spec fn world_name(properties_file: Option<Seq<char>>) -> Seq<char> {
    match properties_file {
        Some(p) => match properties::level_name_in(text::line_seq(p)) {
            Some(n) => n,
            None => "world"@,
        },
        None => "world"@,
    }
}

/// The folder of datapacks: in the world named `world` where it exists, and else in the world that
/// `server.properties` names.
pub fn find_datapacks_dir(
    server_path: &str,
    default_exists: bool,
    properties_file: Option<&str>,
) -> (r: String)
    ensures
        r@ == (if default_exists {
            datapacks_in(server_path@, "world"@)
        } else {
            datapacks_in(server_path@, world_name(crate::config::opt_str(properties_file)))
        }),
{
    if default_exists {
        return default_datapacks_dir(server_path);
    }
    let level = match properties_file {
        Some(p) => match properties::read_level_name(p) {
            Some(n) => n,
            None => "world".to_string(),
        },
        None => "world".to_string(),
    };
    let world = paths::join(server_path, level.as_str());
    paths::join(world.as_str(), "datapacks")
}

/// The folder of datapacks in the world named `world`.
pub fn default_datapacks_dir(server_path: &str) -> (r: String)
    ensures
        r@ == datapacks_in(server_path@, "world"@),
{
    let world = paths::join(server_path, "world");
    paths::join(world.as_str(), "datapacks")
}

/// The datapacks among the files of a folder.
pub fn datapack_files(all: &Vec<String>) -> (r: Vec<String>)
    ensures
        text::views(r@) == text::views(all@).filter(modrinth::has_ext("zip"@)),
{
    modrinth::with_extension(all, "zip")
}

/// The datapacks of a server, from the fingerprints of its files, the versions that they are of,
/// and the titles of the projects.
pub fn scan_datapacks(
    files: &Vec<(String, String)>,
    found: &Vec<(String, MrVersion)>,
    projects: &Vec<MrProject>,
) -> (r: DatapackLock)
    ensures
        modrinth::entry_views(r.datapacks@) == order::arranged(
            modrinth::entries_for(
                modrinth::found_views(found@),
                properties::pairs_view(files@),
                modrinth::project_views(projects@),
            ),
            modrinth::by_name(),
        ),
{
    DatapackLock { datapacks: modrinth::identify(files, found, projects) }
}

/// What Modrinth is asked to find newer versions of the datapacks of a server; nothing where it has
/// none.
pub fn update_request(lock: &DatapackLock, mc_version: &str) -> (r: Option<FilesRequest>)
    ensures
        modrinth::opt_request(r) == modrinth::update_request_of(
            modrinth::entry_views(lock.datapacks@),
            mc_version@,
            None,
        ),
{
    modrinth::update_request(&lock.datapacks, mc_version, None)
}

/// The newer versions of the datapacks of a server, where `latest` tells the latest version for
/// each fingerprint.
pub fn check_updates(lock: &DatapackLock, latest: &Vec<(String, MrVersion)>) -> (r: Vec<
    DatapackUpdate,
>)
    ensures
        modrinth::update_views(r@) == order::arranged(
            modrinth::offers(
                modrinth::entry_views(lock.datapacks@),
                modrinth::found_views(latest@),
            ),
            modrinth::updates_by_name(),
        ),
{
    modrinth::newer_versions(&lock.datapacks, latest)
}

/// The query of a search for datapacks.
pub fn search_datapacks(term: &str, mc_version: &str) -> (r: Vec<(String, String)>)
    ensures
        properties::pairs_view(r@) == modrinth::search_query_of(
            term@,
            modrinth::json_lists(modrinth::datapack_facets(mc_version@)),
        ),
{
    modrinth::datapacks_query(term, mc_version)
}

/// Begins to replace a datapack by a newer version.
pub fn apply_update(lock: DatapackLock, update: DatapackUpdate) -> (r: Result<
    (UpdateRun, UpdateAction),
    String,
>)
    ensures
        match r {
            Ok((run, action)) => {
                let packs = modrinth::entry_views(lock.datapacks@);
                &&& modrinth::entry_slot(packs, update@.project) matches Some(i)
                &&& run@ == (UpdateRunModel {
                    lock: packs,
                    update: update@,
                    old_filename: packs[i].filename,
                    stage: UpdateStage::Download,
                })
                &&& action@ == (UpdateActionModel::Download { url: update@.url })
            },
            Err(e) => modrinth::entry_slot(
                modrinth::entry_views(lock.datapacks@),
                update@.project,
            ) is None && e@ == modrinth::not_installed_message("Datapack"@, update@.project),
        },
{
    modrinth::start_update(lock.datapacks, update, "Datapack")
}

// ---------------------------------------------------------------------------
// Adding a datapack
// ---------------------------------------------------------------------------

/// The adding of a datapack.
#[derive(Debug)]
pub struct AddDatapack {
    pub lock: Vec<DatapackEntry>,
    pub project_id: String,
    pub version_id: String,
    pub added: Option<DatapackEntry>,
    pub pending: Pending,
}

/// The view of the adding of a datapack.
#[verifier::ext_equal]
pub struct PackModel {
    pub lock: Seq<EntryModel>,
    pub project_id: Seq<char>,
    pub version_id: Seq<char>,
    pub added: Option<EntryModel>,
    pub pending: PendingModel,
}

impl View for AddDatapack {
    type V = PackModel;

    open spec fn view(&self) -> PackModel {
        PackModel {
            lock: modrinth::entry_views(self.lock@),
            project_id: self.project_id@,
            version_id: self.version_id@,
            added: match self.added {
                Some(e) => Some(e@),
                None => None,
            },
            pending: self.pending@,
        }
    }
}

/// The adding is over without success.
pub open spec fn pack_given_up(m: PackModel, error: Seq<char>) -> (PackModel, ActionModel) {
    (PackModel { pending: PendingModel::Over, ..m }, ActionModel::Fail { error })
}

/// The datapack that was added: it goes by the project that was asked for.
pub open spec fn pack_entry(
    project_id: Seq<char>,
    v: VersionModel,
    f: FileModel,
    sha512: Seq<char>,
    title: Seq<char>,
) -> EntryModel {
    EntryModel {
        name: title,
        project: project_id,
        version: v.id,
        number: v.version_number,
        filename: f.filename,
        sha512,
    }
}

/// The datapacks with one more, in the place of others of the same project, in order of names.
pub open spec fn with_pack(lock: Seq<EntryModel>, e: EntryModel) -> Seq<EntryModel> {
    order::arranged(
        lock.filter(mod_mgr::of_other_project(e.project)).push(e),
        modrinth::by_name(),
    )
}

/// What is done next once a reply came: the version is followed by its file, the file by its
/// writing, the writing by the title of the project, and the title by the new list.
pub open spec fn pack_advanced(m: PackModel, reply: ReplyModel) -> (PackModel, ActionModel) {
    match reply {
        ReplyModel::Failed(e) => pack_given_up(m, mod_mgr::failure(m.pending, true, e)),
        ReplyModel::Unreadable(e) => pack_given_up(m, mod_mgr::failure(m.pending, false, e)),
        _ => match m.pending {
            PendingModel::Version { .. } => match modrinth::main_file(reply->Version_0.files) {
                Some(f) => (
                    PackModel {
                        pending: PendingModel::Download { version: reply->Version_0, file: f },
                        ..m
                    },
                    ActionModel::Download { url: f.url },
                ),
                None => pack_given_up(m, "No files found for version "@ + m.version_id),
            },
            PendingModel::Download { version, file } => {
                let actual = digest::fingerprint_of(reply->Bytes_0);
                if actual == file.sha512 {
                    (
                        PackModel {
                            pending: PendingModel::Write { version, file, sha512: actual },
                            ..m
                        },
                        ActionModel::Write { filename: file.filename },
                    )
                } else {
                    pack_given_up(m, digest::mismatch_message(file.filename))
                }
            },
            PendingModel::Write { version, file, sha512 } => (
                PackModel { pending: PendingModel::Title { version, file, sha512 }, ..m },
                ActionModel::FetchProject {
                    url: modrinth::address_of("/project/"@, m.project_id, ""@),
                },
            ),
            PendingModel::Title { version, file, sha512 } => {
                let e = pack_entry(m.project_id, version, file, sha512, reply->Project_title);
                (
                    PackModel {
                        lock: with_pack(m.lock, e),
                        added: Some(e),
                        pending: PendingModel::Over,
                        ..m
                    },
                    ActionModel::Finish,
                )
            },
            _ => pack_given_up(m, Seq::empty()),
        },
    }
}

/// Begins to add a version of a project to the datapacks of an instance.
pub fn add_datapack(lock: DatapackLock, project_id: &str, version_id: &str) -> (r: (
    AddDatapack,
    Action,
))
    ensures
        r.0@ == (PackModel {
            lock: modrinth::entry_views(lock.datapacks@),
            project_id: project_id@,
            version_id: version_id@,
            added: None,
            pending: PendingModel::Version { version_id: version_id@ },
        }),
        r.1@ == (ActionModel::FetchVersion {
            url: modrinth::address_of("/version/"@, version_id@, ""@),
        }),
{
    (
        AddDatapack {
            lock: lock.datapacks,
            project_id: project_id.to_string(),
            version_id: version_id.to_string(),
            added: None,
            pending: Pending::Version { version_id: version_id.to_string() },
        },
        Action::FetchVersion { url: modrinth::address("/version/", version_id, "") },
    )
}

impl AddDatapack {
    fn give_up(self, error: String) -> (r: (AddDatapack, Action))
        ensures
            (r.0@, r.1@) == pack_given_up(self@, error@),
    {
        let AddDatapack { lock, project_id, version_id, added, pending } = self;
        (
            AddDatapack { lock, project_id, version_id, added, pending: Pending::Over },
            Action::Fail { error },
        )
    }

    fn await_next(self, pending: Pending) -> (r: AddDatapack)
        ensures
            r@ == (PackModel { pending: pending@, ..self@ }),
    {
        let AddDatapack { lock, project_id, version_id, added, pending: _ } = self;
        AddDatapack { lock, project_id, version_id, added, pending }
    }

    fn take_version(self, version: MrVersion) -> (r: (AddDatapack, Action))
        requires
            self@.pending is Version,
        ensures
            (r.0@, r.1@) == pack_advanced(self@, ReplyModel::Version(version@)),
    {
        match modrinth::pick_file(&version.files) {
            Some(file) => {
                let url = file.url.clone();
                (self.await_next(Pending::Download { version, file }), Action::Download { url })
            },
            None => {
                let mut m = "No files found for version ".to_string();
                m.append(self.version_id.as_str());
                self.give_up(m)
            },
        }
    }

    /// What is done next once a reply came.
    pub fn step(self, reply: Reply) -> (r: (AddDatapack, Action))
        requires
            mod_mgr::replies_to(reply@, self@.pending),
            self@.pending !is Lookup,
        ensures
            (r.0@, r.1@) == pack_advanced(self@, reply@),
    {
        match reply {
            Reply::Failed(e) => {
                let text = mod_mgr::failure_text(&self.pending, true, e.as_str());
                self.give_up(text)
            },
            Reply::Unreadable(e) => {
                let text = mod_mgr::failure_text(&self.pending, false, e.as_str());
                self.give_up(text)
            },
            Reply::Version(version) => self.take_version(version),
            _ => {
                let AddDatapack { lock, project_id, version_id, added, pending } = self;
                match pending {
                    Pending::Download { version, file } => {
                        let checked = match &reply {
                            Reply::Bytes(bytes) => digest::verify_download(
                                bytes,
                                file.sha512.as_str(),
                                file.filename.as_str(),
                            ),
                            _ => Err(String::new()),
                        };
                        let filename = file.filename.clone();
                        let rest = AddDatapack {
                            lock,
                            project_id,
                            version_id,
                            added,
                            pending: Pending::Over,
                        };
                        match checked {
                            Ok(sha512) => (
                                rest.await_next(Pending::Write { version, file, sha512 }),
                                Action::Write { filename },
                            ),
                            Err(e) => rest.give_up(e),
                        }
                    },
                    Pending::Write { version, file, sha512 } => {
                        let url = modrinth::address("/project/", project_id.as_str(), "");
                        (
                            AddDatapack {
                                lock,
                                project_id,
                                version_id,
                                added,
                                pending: Pending::Title { version, file, sha512 },
                            },
                            Action::FetchProject { url },
                        )
                    },
                    Pending::Title { version, file, sha512 } => {
                        let title = match reply {
                            Reply::Project(p) => p.title,
                            _ => String::new(),
                        };
                        let entry = Entry {
                            name: title,
                            modrinth_project_id: project_id.clone(),
                            modrinth_version_id: version.id,
                            version_number: version.version_number,
                            filename: file.filename,
                            sha512,
                        };
                        let mut kept = mod_mgr::without_project(lock, project_id.as_str());
                        let ghost others = kept@;
                        kept.push(entry.clone());
                        assert(modrinth::entry_views(kept@) =~= modrinth::entry_views(others).push(
                            entry@,
                        ));
                        let sorted = modrinth::sort_entries(kept);
                        (
                            AddDatapack {
                                lock: sorted,
                                project_id,
                                version_id,
                                added: Some(entry),
                                pending: Pending::Over,
                            },
                            Action::Finish,
                        )
                    },
                    _ => {
                        (
                            AddDatapack {
                                lock,
                                project_id,
                                version_id,
                                added,
                                pending: Pending::Over,
                            },
                            Action::Fail { error: String::new() },
                        )
                    },
                }
            },
        }
    }
}

/// After a datapack was added, it is the only one of its project, and every datapack of another
/// project is still there.
pub proof fn law_added_pack_stands_alone(lock: Seq<EntryModel>, e: EntryModel)
    ensures
        with_pack(lock, e).contains(e),
        forall|x: EntryModel|
            #![trigger with_pack(lock, e).contains(x)]
            with_pack(lock, e).contains(x) ==> x == e || (x.project != e.project && lock.contains(
                x,
            )),
        forall|x: EntryModel|
            #![trigger lock.contains(x)]
            lock.contains(x) && x.project != e.project ==> with_pack(lock, e).contains(x),
{
    let pred = mod_mgr::of_other_project(e.project);
    let kept = lock.filter(pred);
    let more = kept.push(e);
    let after = with_pack(lock, e);
    assert(after == order::arranged(more, modrinth::by_name()));
    order::lemma_arranged_members(more, modrinth::by_name());
    assert(more.last() == e);
    assert(more.contains(e));
    assert(after.contains(e));
    assert forall|x: EntryModel| #[trigger] more.contains(x) implies x == e || (x.project
        != e.project && lock.contains(x)) by {
        let k = choose|k: int| 0 <= k < more.len() && more[k] == x;
        if k < kept.len() {
            assert(kept[k] == x);
            assert(kept.contains(x));
            lock.lemma_filter_contains_rev(pred, x);
            lock.lemma_filter_pred(pred, k);
        }
    }
    assert forall|x: EntryModel| #[trigger] after.contains(x) implies x == e || (x.project
        != e.project && lock.contains(x)) by {
        assert(more.contains(x));
    }
    assert forall|x: EntryModel| #[trigger] lock.contains(x) && x.project
        != e.project implies after.contains(x) by {
        let k = choose|k: int| 0 <= k < lock.len() && lock[k] == x;
        lock.lemma_filter_contains(pred, k);
        let j = choose|j: int| 0 <= j < kept.len() && kept[j] == x;
        assert(more[j] == x);
        assert(more.contains(x));
    }
}

} // verus!
