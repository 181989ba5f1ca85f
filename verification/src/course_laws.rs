//! How an import and the adding of a mod go on, step by step, in plain terms.

use crate::archive;
use crate::archive::PlacementModel;
use crate::datapack_mgr;
use crate::datapack_mgr::PackModel;
use crate::import;
use crate::import::ImportActionModel;
use crate::import::ImportModel;
use crate::import::ImportReplyModel;
use crate::import::LoaderKind;
use crate::import::PlanModel;
use crate::import::Source;
use crate::import::StageModel;
use crate::java;
use crate::mod_mgr;
use crate::mod_mgr::ActionModel;
use crate::mod_mgr::AddModel;
use crate::mod_mgr::PendingModel;
use crate::mod_mgr::ProgressModel;
use crate::mod_mgr::ReplyModel;
use crate::mod_mgr::WantModel;
use crate::modpack;
use crate::modrinth;
use crate::modrinth::EntryModel;
use crate::modrinth::VersionModel;
use crate::order;
use crate::paths;
use crate::text;
use crate::update_laws;
use vstd::prelude::*;

verus! {

// ---------------------------------------------------------------------------
// Imports
// ---------------------------------------------------------------------------

/// The archive of a pack is gone through from its first entry to its last: an entry with a place is
/// put there, a folder as a folder and a file with its own bytes; one without a place is passed over;
/// one that would leave the folder of the server ends the import.
pub proof fn law_archives_are_gone_through(
    p: PlanModel,
    i: nat,
    n: nat,
    name: Seq<char>,
    is_dir: bool,
    log: Seq<Seq<char>>,
)
    requires
        archive::zip_count(p.archive) == Ok::<nat, Seq<char>>(n),
    ensures
        i >= n ==> import::at_overrides(p, i, log) == import::at_loader(p, log),
        i < n && archive::zip_entry(p.archive, i) == Ok::<(Seq<char>, bool), Seq<char>>(
            (name, is_dir),
        ) ==> ({
            let next = import::at_overrides(p, i, log);
            let place = archive::placement_of(name, p.server_path);
            &&& place is Skip ==> next == import::at_overrides(p, i + 1, log)
            &&& place is Unsafe ==> next.action == (ImportActionModel::Fail {
                error: "Unsafe path in archive: "@ + name,
            })
            &&& place matches PlacementModel::At(path) ==> (is_dir ==> next.action == (
            ImportActionModel::MakeDir { path })) && (!is_dir ==> next.action == (
            ImportActionModel::WriteEntry { path, parent: paths::parent_of(path), index: i }))
                && import::import_advanced(next.import, ImportReplyModel::Done)
                == import::at_overrides(p, i + 1, Seq::empty())
        }),
{
}

/// After the folder of the server comes the archive of a Modrinth pack, or the loader of an FTB pack;
/// after the loader come the files, and those of Modrinth begin with their folder.
pub proof fn law_order_of_an_import(p: PlanModel, java_path: Option<Seq<char>>)
    ensures
        ({
            let done = ImportReplyModel::Done;
            let begun = import::import_advanced(
                ImportModel { plan: p, java_path, stage: StageModel::Directory },
                done,
            );
            let loaded = import::import_advanced(
                ImportModel { plan: p, java_path, stage: StageModel::Loader },
                done,
            );
            &&& p.source == Source::Modrinth ==> begun == import::at_overrides(
                p,
                0,
                seq!["Extracting config overrides…"@],
            )
            &&& p.source == Source::Ftb ==> begun == import::at_loader(p, Seq::empty())
            &&& p.source == Source::Modrinth ==> loaded.action == (ImportActionModel::MakeDir {
                path: paths::joined_path(p.server_path, "mods"@),
            }) && loaded.log == seq![
                "Downloading "@ + text::digits(p.jobs.len()) + " mod files…"@,
            ] && import::import_advanced(loaded.import, done) == import::at_job(
                p,
                0,
                Seq::empty(),
            )
            &&& p.source == Source::Ftb ==> loaded == import::at_job(
                p,
                0,
                seq!["Downloading "@ + text::digits(p.jobs.len()) + " files…"@],
            )
        }),
        import::at_job(p, p.jobs.len(), Seq::empty()).action == (ImportActionModel::FindJava {
            required: java::java_for(p.mc_version),
        }),
{
    let none = Seq::<Seq<char>>::empty();
    assert(none.push("Downloading "@ + text::digits(p.jobs.len()) + " mod files…"@) =~= seq![
        "Downloading "@ + text::digits(p.jobs.len()) + " mod files…"@,
    ]);
    assert(none.push("Downloading "@ + text::digits(p.jobs.len()) + " files…"@) =~= seq![
        "Downloading "@ + text::digits(p.jobs.len()) + " files…"@,
    ]);
}

/// A step that fails ends an import and is told; only the folders for the files of a Modrinth pack may
/// fail, and the import goes on as if they had been made.
pub proof fn law_failed_steps_end_the_import(m: ImportModel, e: Seq<char>)
    ensures
        ({
            let next = import::import_advanced(m, ImportReplyModel::Failed(e));
            let may_fail = m.plan.source == Source::Modrinth && (m.stage is ModsDir
                || m.stage is JobDir);
            &&& may_fail ==> next == import::import_advanced(m, ImportReplyModel::Done)
            &&& !may_fail ==> next.action is Fail && next.import.stage is Over
            &&& m.stage is Directory ==> next.action == (ImportActionModel::Fail {
                error: "Failed to create directory: "@ + e,
            })
            &&& m.stage is Override || m.stage is Loader ==> next.action == (
            ImportActionModel::Fail { error: e })
            &&& m.stage is InstanceDir ==> next.action == (ImportActionModel::Fail {
                error: "Failed to create instance directory: "@ + e,
            })
            &&& m.stage is Config ==> next.action == (ImportActionModel::Fail {
                error: "Failed to write msm.toml: "@ + e,
            })
        }),
        m.stage is Config ==> import::import_advanced(m, ImportReplyModel::Unreadable(e)).action
            == (ImportActionModel::Fail { error: "Failed to serialize config: "@ + e }),
{
}

/// A file that cannot be brought ends an import, and its name is told.
pub proof fn law_failed_files_are_named(
    p: PlanModel,
    java_path: Option<Seq<char>>,
    i: nat,
    e: Seq<char>,
)
    requires
        i < p.jobs.len(),
    ensures
        import::import_advanced(
            ImportModel { plan: p, java_path, stage: StageModel::Download(i) },
            ImportReplyModel::Failed(e),
        ).action == (ImportActionModel::Fail {
            error: "Failed to download "@ + p.jobs[i as int].name + ": "@ + e,
        }),
        import::import_advanced(
            ImportModel { plan: p, java_path, stage: StageModel::Download(i) },
            ImportReplyModel::Unreadable(e),
        ).action == (ImportActionModel::Fail {
            error: "Failed to read "@ + p.jobs[i as int].name + ": "@ + e,
        }),
        import::import_advanced(
            ImportModel { plan: p, java_path, stage: StageModel::Write(i) },
            ImportReplyModel::Failed(e),
        ).action == (ImportActionModel::Fail {
            error: "Failed to write "@ + p.jobs[i as int].name + ": "@ + e,
        }),
        p.source == Source::Ftb ==> import::import_advanced(
            ImportModel { plan: p, java_path, stage: StageModel::JobDir(i) },
            ImportReplyModel::Failed(e),
        ).action == (ImportActionModel::Fail {
            error: "Failed to create dir for "@ + p.jobs[i as int].name + ": "@ + e,
        }),
{
}

/// What is said of the Java that a pack needs: where it was found; nothing where the Java of the
/// system is the right one; and a warning otherwise.
pub proof fn law_java_is_told(
    source: Source,
    required: u32,
    found: Seq<char>,
    system: Option<u32>,
)
    ensures
        import::java_lines(source, required as nat, Some(found), system) == seq![
            "Java "@ + text::digits(required as nat) + " required — found at "@ + found
                + " — configuring instance."@,
        ],
        import::java_lines(source, required as nat, None, Some(required)).len() == 0,
        system != Some(required) ==> import::java_lines(
            Source::Modrinth,
            required as nat,
            None,
            system,
        ) == seq![
            "Warning: Java "@ + text::digits(required as nat)
                + " required but not found on this system. Set the Java path manually in instance settings."@,
        ],
        system != Some(required) ==> import::java_lines(Source::Ftb, required as nat, None, system)
            == seq![
            "Warning: Java "@ + text::digits(required as nat)
                + " required but not found. Set java_path manually in instance settings."@,
        ],
{
}

/// What is said of the pack and of its loader.
pub proof fn law_packs_are_told(
    name: Seq<char>,
    game: Seq<char>,
    loader: Seq<char>,
    version: Seq<char>,
)
    ensures
        modpack::info_line(name, game, Some(loader), Some(version)) == "Modpack: "@ + name
            + " — MC "@ + game + " | "@ + (loader + (" "@ + version)),
        modpack::info_line(name, game, None, None) == "Modpack: "@ + name + " — MC "@ + game
            + " | "@ + "vanilla"@,
        import::install_line(Source::Modrinth, LoaderKind::Fabric, version)
            == "Installing Fabric loader "@ + version + "…"@,
        import::install_line(Source::Ftb, LoaderKind::Fabric, version) == "Installing Fabric "@
            + version + "…"@,
        forall|s: Source|
            #[trigger] import::install_line(s, LoaderKind::NeoForge, version)
                == "Installing NeoForge "@ + version + "…"@,
        forall|s: Source|
            #[trigger] import::install_line(s, LoaderKind::Forge, version) == "Installing Forge "@
                + version + "…"@,
{
    assert("vanilla"@ + Seq::<char>::empty() =~= "vanilla"@);
}

// ---------------------------------------------------------------------------
// Mods
// ---------------------------------------------------------------------------

/// What a mod depends on: only what is required is taken up. A version that is named is wanted; of a
/// project alone the versions that fit are asked for, unless nothing has to be done for it.
pub proof fn law_dependencies_are_taken_up(p: ProgressModel, v: Seq<char>, project: Seq<char>)
    requires
        p.deps.len() > 0,
    ensures
        ({
            let d = p.deps[0];
            let rest = ProgressModel { deps: p.deps.skip(1), ..p };
            let next = mod_mgr::onward(p);
            &&& d.dependency_type != "required"@ ==> next == mod_mgr::onward(rest)
            &&& d.dependency_type == "required"@ && d.version_id is None && d.project_id is None
                ==> next == mod_mgr::onward(rest)
            &&& d.dependency_type == "required"@ && d.version_id == Some(v) ==> next
                == mod_mgr::onward(
                ProgressModel {
                    queue: p.queue.push(WantModel { version_id: v, project_id: d.project_id }),
                    ..rest
                },
            )
            &&& d.dependency_type == "required"@ && d.version_id is None && d.project_id == Some(
                project,
            ) && update_laws::done_with(p, project) ==> next == mod_mgr::onward(rest)
            &&& d.dependency_type == "required"@ && d.version_id is None && d.project_id == Some(
                project,
            ) && !update_laws::done_with(p, project) ==> next.0.progress == rest && next.1 == (
            ActionModel::FetchVersions {
                url: modrinth::address_of("/project/"@, project, "/version"@),
                query: modrinth::fitting_query_of(p.mc_version, p.loader),
            }) && next.0.pending == (PendingModel::Lookup { project_id: project })
        }),
{
    lemma_done(p, project);
}

proof fn lemma_done(p: ProgressModel, project: Seq<char>)
    ensures
        mod_mgr::settled(p, project) <==> update_laws::done_with(p, project),
{
    if p.visited.contains(project) {
        let i = p.visited.index_of(project);
        assert(p.visited[i] == project);
    }
    if update_laws::done_with(p, project) && !modrinth::has_project(p.lock, project) {
        let i = choose|i: int| 0 <= i < p.visited.len() && #[trigger] p.visited[i] == project;
        assert(p.visited.contains(p.visited[i]));
    }
}

/// What is wanted is taken from the end of the line: it is asked for, unless nothing has to be done
/// for its project; and where nothing is left the mods are put in order and the adding is done.
pub proof fn law_wanted_versions_are_asked_for(p: ProgressModel, project: Seq<char>)
    requires
        p.deps.len() == 0,
    ensures
        p.queue.len() > 0 ==> ({
            let w = p.queue.last();
            let rest = ProgressModel { queue: p.queue.drop_last(), ..p };
            let next = mod_mgr::onward(p);
            let over = w.project_id == Some(project) && update_laws::done_with(p, project);
            let free = w.project_id is None || (w.project_id == Some(project)
                && !update_laws::done_with(p, project));
            &&& over ==> next == mod_mgr::onward(rest)
            &&& free ==> next.1 == (ActionModel::FetchVersion {
                url: modrinth::address_of("/version/"@, w.version_id, ""@),
            }) && next.0.progress == rest && next.0.pending == (PendingModel::Version {
                version_id: w.version_id,
            })
        }),
        p.queue.len() == 0 ==> mod_mgr::onward(p).1 == ActionModel::Finish && mod_mgr::onward(
            p,
        ).0.progress.lock == order::arranged(p.lock, modrinth::by_name()) && mod_mgr::onward(
            p,
        ).0.progress.installed == p.installed,
{
    lemma_done(p, project);
}

/// Of the versions that fit, the first is wanted; where none fits the adding goes on without it.
pub proof fn law_first_fitting_version_is_wanted(
    p: ProgressModel,
    project: Seq<char>,
    versions: Seq<VersionModel>,
)
    ensures
        ({
            let next = mod_mgr::advanced(
                AddModel { progress: p, pending: PendingModel::Lookup { project_id: project } },
                ReplyModel::Versions(versions),
            );
            &&& versions.len() > 0 ==> next == mod_mgr::onward(
                ProgressModel {
                    queue: p.queue.push(
                        WantModel { version_id: versions[0].id, project_id: Some(project) },
                    ),
                    ..p
                },
            )
            &&& versions.len() == 0 ==> next == mod_mgr::onward(p)
        }),
{
}

/// Whatever fails, the adding of a mod ends with it, nothing more is listed, and it is told at which
/// step.
pub proof fn law_failed_additions(m: AddModel, e: Seq<char>)
    ensures
        ({
            let a = mod_mgr::advanced(m, ReplyModel::Failed(e));
            let b = mod_mgr::advanced(m, ReplyModel::Unreadable(e));
            &&& a.0.progress == m.progress && a.0.pending is Over
            &&& b.0.progress == m.progress && b.0.pending is Over
            &&& m.pending is Download ==> a.1 == (ActionModel::Fail {
                error: "Download failed: "@ + e,
            }) && b.1 == (ActionModel::Fail { error: "Download read failed: "@ + e })
            &&& m.pending is Write ==> a.1 == (
            ActionModel::Fail {
                error: "Failed to write "@ + m.pending->Write_file.filename + ": "@ + e,
            })
            &&& m.pending is Lookup ==> a.1 == (
            ActionModel::Fail {
                error: "Dependency lookup failed for "@ + m.pending->project_id + ": "@ + e,
            }) && b.1 == (ActionModel::Fail {
                error: "Dependency parse error for "@ + m.pending->project_id + ": "@ + e,
            })
            &&& m.pending is Version || m.pending is Title ==> a.1 == (ActionModel::Fail {
                error: "Modrinth request failed: "@ + e,
            }) && b.1 == (ActionModel::Fail { error: "Modrinth parse error: "@ + e })
        }),
{
}

/// A version without files, and a file with a wrong fingerprint, end the adding.
pub proof fn law_unusable_versions(
    m: AddModel,
    version_id: Seq<char>,
    v: VersionModel,
    bytes: Seq<u8>,
)
    ensures
        m.pending == (PendingModel::Version { version_id }) && v.files.len() == 0
            && !update_laws::done_with(m.progress, v.project_id) ==> mod_mgr::advanced(
            m,
            ReplyModel::Version(v),
        ).1 == (ActionModel::Fail { error: "No files found for version "@ + version_id })
            && mod_mgr::advanced(m, ReplyModel::Version(v)).0.progress.lock == m.progress.lock,
        (m.pending matches PendingModel::Download { file, .. } && crate::digest::hex_text(
            crate::digest::sha512(bytes),
        ) != file.sha512) ==> mod_mgr::advanced(m, ReplyModel::Bytes(bytes)).1 is Fail
            && mod_mgr::advanced(m, ReplyModel::Bytes(bytes)).0.progress == m.progress,
{
    lemma_done(m.progress, v.project_id);
}

// ---------------------------------------------------------------------------
// Datapacks
// ---------------------------------------------------------------------------

/// Whatever fails, the adding of a datapack ends with it and nothing more is listed.
pub proof fn law_failed_datapacks(m: PackModel, e: Seq<char>, bytes: Seq<u8>, v: VersionModel)
    ensures
        ({
            let a = datapack_mgr::pack_advanced(m, ReplyModel::Failed(e));
            let b = datapack_mgr::pack_advanced(m, ReplyModel::Unreadable(e));
            &&& a.1 is Fail && a.0 == (PackModel { pending: PendingModel::Over, ..m })
            &&& b.1 is Fail && b.0 == (PackModel { pending: PendingModel::Over, ..m })
        }),
        (m.pending matches PendingModel::Download { file, .. } && crate::digest::hex_text(
            crate::digest::sha512(bytes),
        ) != file.sha512) ==> datapack_mgr::pack_advanced(m, ReplyModel::Bytes(bytes)).1 is Fail,
        m.pending is Version && v.files.len() == 0 ==> datapack_mgr::pack_advanced(
            m,
            ReplyModel::Version(v),
        ).1 == (ActionModel::Fail { error: "No files found for version "@ + m.version_id }),
{
}

/// A datapack that was added is listed with the others, without the one of its project that was
/// listed before, by name.
pub proof fn law_datapacks_are_listed(lock: Seq<EntryModel>, e: EntryModel, i: int)
    requires
        0 <= i < lock.len(),
    ensures
        datapack_mgr::with_pack(lock, e).contains(e),
        lock[i].project != e.project ==> datapack_mgr::with_pack(lock, e).contains(lock[i]),
        lock[i].project == e.project && lock[i] != e ==> !datapack_mgr::with_pack(lock, e).contains(
            lock[i],
        ),
{
    let pred = mod_mgr::of_other_project(e.project);
    let others = lock.filter(pred);
    let more = others.push(e);
    order::lemma_arranged_members(more, modrinth::by_name());
    assert(more[others.len() as int] == e);
    assert(more.contains(e));
    if lock[i].project != e.project {
        lock.lemma_filter_contains(pred, i);
        let k = others.index_of(lock[i]);
        assert(more[k] == lock[i]);
        assert(more.contains(lock[i]));
    } else if lock[i] != e && more.contains(lock[i]) {
        let k = more.index_of(lock[i]);
        assert(others[k] == lock[i]);
        lock.lemma_filter_pred(pred, k);
    }
}

} // verus!
