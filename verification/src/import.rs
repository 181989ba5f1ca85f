//! How a modpack becomes an instance: the folder, the files that go over it, the loader, the files
//! of the pack, the Java, and the settings.

use crate::archive;
use crate::archive::Placement;
use crate::archive::PlacementModel;
use crate::config;
use crate::config::InstanceConfig;
use crate::config::InstanceMeta;
use crate::config::ServerConfig;
use crate::digest;
use crate::java;
use crate::paths;
use crate::state;
use crate::state::EventModel;
use crate::state::InstanceInfo;
use crate::state::InstanceModel;
use crate::state::InstanceState;
use crate::state::Registry;
use crate::state::WsEvent;
use crate::text;
use vstd::prelude::*;

verus! {

// ---------------------------------------------------------------------------
// The plan
// ---------------------------------------------------------------------------

/// Where a modpack comes from.
#[derive(Debug, Clone, Copy, PartialEq, Eq, Structural)]
pub enum Source {
    Modrinth,
    Ftb,
}

/// A file of a modpack: how it is named in the log and in errors, where it goes, where it comes
/// from, its fingerprint, and whether its path was found to start with the folder of the server,
/// where that is looked at.
#[derive(Debug)]
pub struct FileJob {
    pub label: String,
    pub name: String,
    pub dest: String,
    pub parent: Option<String>,
    pub url: Option<String>,
    pub sha512: Option<String>,
    pub safe: bool,
}

/// The view of a file of a modpack.
pub struct JobModel {
    pub label: Seq<char>,
    pub name: Seq<char>,
    pub dest: Seq<char>,
    pub parent: Option<Seq<char>>,
    pub url: Option<Seq<char>>,
    pub sha512: Option<Seq<char>>,
    pub safe: bool,
}

impl View for FileJob {
    type V = JobModel;

    open spec fn view(&self) -> JobModel {
        JobModel {
            label: self.label@,
            name: self.name@,
            dest: self.dest@,
            parent: text::opt_view(self.parent),
            url: text::opt_view(self.url),
            sha512: text::opt_view(self.sha512),
            safe: self.safe,
        }
    }
}

/// The views of files of a modpack.
pub open spec fn job_views(s: Seq<FileJob>) -> Seq<JobModel> {
    s.map_values(|j: FileJob| j@)
}

/// What is known of a modpack before anything is done.
#[derive(Debug)]
pub struct Plan {
    pub source: Source,
    pub instance_id: String,
    pub display_name: String,
    pub server_path: String,
    pub instance_dir: String,
    pub mc_version: String,
    pub loader: Option<String>,
    pub loader_version: Option<String>,
    pub port: u16,
    pub project_id: Option<String>,
    pub archive: Vec<u8>,
    pub jobs: Vec<FileJob>,
}

/// The view of a plan.
#[verifier::ext_equal]
pub struct PlanModel {
    pub source: Source,
    pub instance_id: Seq<char>,
    pub display_name: Seq<char>,
    pub server_path: Seq<char>,
    pub instance_dir: Seq<char>,
    pub mc_version: Seq<char>,
    pub loader: Option<Seq<char>>,
    pub loader_version: Option<Seq<char>>,
    pub port: u16,
    pub project_id: Option<Seq<char>>,
    pub archive: Seq<u8>,
    pub jobs: Seq<JobModel>,
}

impl View for Plan {
    type V = PlanModel;

    open spec fn view(&self) -> PlanModel {
        PlanModel {
            source: self.source,
            instance_id: self.instance_id@,
            display_name: self.display_name@,
            server_path: self.server_path@,
            instance_dir: self.instance_dir@,
            mc_version: self.mc_version@,
            loader: text::opt_view(self.loader),
            loader_version: text::opt_view(self.loader_version),
            port: self.port,
            project_id: text::opt_view(self.project_id),
            archive: self.archive@,
            jobs: job_views(self.jobs@),
        }
    }
}

/// Why the name of a new instance is refused.
pub open spec fn name_refusal(reg: Seq<InstanceModel>, id: Seq<char>) -> Option<Seq<char>> {
    if id.len() == 0 {
        Some("Instance name produces an empty ID"@)
    } else if state::known(reg, id) {
        Some("An instance named '"@ + id + "' already exists"@)
    } else {
        None
    }
}

/// Checks the id of a new instance.
pub fn check_name(reg: &Registry, id: &str) -> (r: Result<(), String>)
    ensures
        match r {
            Ok(_) => name_refusal(reg@, id@) is None,
            Err(e) => name_refusal(reg@, id@) == Some(e@),
        },
{
    if id.is_empty() {
        return Err("Instance name produces an empty ID".to_string());
    }
    if reg.contains(id) {
        let mut m = "An instance named '".to_string();
        m.append(id);
        m.append("' already exists");
        return Err(m);
    }
    Ok(())
}

/// The folder of the server: the one asked for, or one of its own under `servers` where none is.
pub open spec fn server_dir_of(asked: Seq<char>, data: Seq<char>, id: Seq<char>) -> Seq<char> {
    if text::blank(asked) {
        config::folder_of(data, "servers"@, id)
    } else {
        asked
    }
}

/// The folder of the server.
pub fn server_dir(asked: &str, data: &str, id: &str) -> (r: String)
    ensures
        r@ == server_dir_of(asked@, data@, id@),
{
    if text::is_blank(asked) {
        config::folder(data, "servers", id)
    } else {
        asked.to_string()
    }
}

/// The loader as it is shown: `vanilla` where there is none, and its version where it is known.
pub open spec fn loader_label(loader: Option<Seq<char>>, version: Option<Seq<char>>) -> Seq<char> {
    (match loader {
        Some(l) => l,
        None => "vanilla"@,
    }) + (match version {
        Some(v) => " "@ + v,
        None => Seq::empty(),
    })
}

/// The loader as it is shown.
pub fn loader_text(loader: &Option<String>, version: &Option<String>) -> (r: String)
    ensures
        r@ == loader_label(text::opt_view(*loader), text::opt_view(*version)),
{
    let mut s = match loader {
        Some(l) => l.clone(),
        None => "vanilla".to_string(),
    };
    if let Some(v) = version {
        s.append(" ");
        s.append(v.as_str());
    }
    assert(s@ =~= loader_label(text::opt_view(*loader), text::opt_view(*version)));
    s
}

// ---------------------------------------------------------------------------
// Steps
// ---------------------------------------------------------------------------

/// What an import waits for. The numbers are indices of entries of the archive and of files.
#[derive(Debug, Clone, Copy, PartialEq, Eq, Structural)]
pub enum Stage {
    Directory,
    Override(usize),
    Loader,
    ModsDir,
    JobDir(usize),
    Download(usize),
    Write(usize),
    Java,
    InstanceDir,
    Config,
    Over,
}

/// The view of what an import waits for.
pub enum StageModel {
    Directory,
    Override(nat),
    Loader,
    ModsDir,
    JobDir(nat),
    Download(nat),
    Write(nat),
    Java,
    InstanceDir,
    Config,
    Over,
}

impl View for Stage {
    type V = StageModel;

    open spec fn view(&self) -> StageModel {
        match *self {
            Stage::Directory => StageModel::Directory,
            Stage::Override(i) => StageModel::Override(i as nat),
            Stage::Loader => StageModel::Loader,
            Stage::ModsDir => StageModel::ModsDir,
            Stage::JobDir(i) => StageModel::JobDir(i as nat),
            Stage::Download(i) => StageModel::Download(i as nat),
            Stage::Write(i) => StageModel::Write(i as nat),
            Stage::Java => StageModel::Java,
            Stage::InstanceDir => StageModel::InstanceDir,
            Stage::Config => StageModel::Config,
            Stage::Over => StageModel::Over,
        }
    }
}

/// A loader that can be installed.
#[derive(Debug, Clone, Copy, PartialEq, Eq, Structural)]
pub enum LoaderKind {
    NeoForge,
    Forge,
    Fabric,
}

/// What is done next.
#[derive(Debug)]
pub enum ImportAction {
    MakeDir { path: String },
    /// An entry of the archive is written to a path, whose folder is made first.
    WriteEntry { path: String, parent: Option<String>, index: usize },
    Install { kind: LoaderKind, version: String },
    Download { url: String },
    /// What was downloaded is written to a path.
    Write { path: String },
    FindJava { required: u32 },
    WriteConfig,
    Finish,
    Fail { error: String },
}

/// The view of what is done next.
pub enum ImportActionModel {
    MakeDir { path: Seq<char> },
    WriteEntry { path: Seq<char>, parent: Option<Seq<char>>, index: nat },
    Install { kind: LoaderKind, version: Seq<char> },
    Download { url: Seq<char> },
    Write { path: Seq<char> },
    FindJava { required: nat },
    WriteConfig,
    Finish,
    Fail { error: Seq<char> },
}

impl View for ImportAction {
    type V = ImportActionModel;

    open spec fn view(&self) -> ImportActionModel {
        match *self {
            ImportAction::MakeDir { path } => ImportActionModel::MakeDir { path: path@ },
            ImportAction::WriteEntry { path, parent, index } => ImportActionModel::WriteEntry {
                path: path@,
                parent: text::opt_view(parent),
                index: index as nat,
            },
            ImportAction::Install { kind, version } => ImportActionModel::Install {
                kind,
                version: version@,
            },
            ImportAction::Download { url } => ImportActionModel::Download { url: url@ },
            ImportAction::Write { path } => ImportActionModel::Write { path: path@ },
            ImportAction::FindJava { required } => ImportActionModel::FindJava {
                required: required as nat,
            },
            ImportAction::WriteConfig => ImportActionModel::WriteConfig,
            ImportAction::Finish => ImportActionModel::Finish,
            ImportAction::Fail { error } => ImportActionModel::Fail { error: error@ },
        }
    }
}

/// What comes back from outside.
#[derive(Debug)]
pub enum ImportReply {
    Done,
    Bytes(Vec<u8>),
    /// The Java that was found, and the version that the one of the system tells.
    Java { path: Option<String>, system: Option<u32> },
    Failed(String),
    /// What a download brought could not be read, or what was to be written could not be put down.
    Unreadable(String),
}

/// The view of what comes back.
pub enum ImportReplyModel {
    Done,
    Bytes(Seq<u8>),
    Java { path: Option<Seq<char>>, system: Option<u32> },
    Failed(Seq<char>),
    Unreadable(Seq<char>),
}

impl View for ImportReply {
    type V = ImportReplyModel;

    open spec fn view(&self) -> ImportReplyModel {
        match *self {
            ImportReply::Done => ImportReplyModel::Done,
            ImportReply::Bytes(b) => ImportReplyModel::Bytes(b@),
            ImportReply::Java { path, system } => ImportReplyModel::Java {
                path: text::opt_view(path),
                system,
            },
            ImportReply::Failed(e) => ImportReplyModel::Failed(e@),
            ImportReply::Unreadable(e) => ImportReplyModel::Unreadable(e@),
        }
    }
}

/// An import under way.
#[derive(Debug)]
pub struct Import {
    pub plan: Plan,
    pub java_path: Option<String>,
    pub stage: Stage,
}

/// The view of an import under way.
pub struct ImportModel {
    pub plan: PlanModel,
    pub java_path: Option<Seq<char>>,
    pub stage: StageModel,
}

impl View for Import {
    type V = ImportModel;

    open spec fn view(&self) -> ImportModel {
        ImportModel {
            plan: self.plan@,
            java_path: text::opt_view(self.java_path),
            stage: self.stage@,
        }
    }
}

/// An import after a step: what is logged, and what is done next.
#[derive(Debug)]
pub struct Next {
    pub import: Import,
    pub log: Vec<String>,
    pub action: ImportAction,
}

/// The view of an import after a step.
#[verifier::ext_equal]
pub struct NextModel {
    pub import: ImportModel,
    pub log: Seq<Seq<char>>,
    pub action: ImportActionModel,
}

impl View for Next {
    type V = NextModel;

    open spec fn view(&self) -> NextModel {
        NextModel { import: self.import@, log: text::views(self.log@), action: self.action@ }
    }
}

/// An import that waits for something, with no Java chosen yet.
pub open spec fn waiting(
    p: PlanModel,
    stage: StageModel,
    log: Seq<Seq<char>>,
    action: ImportActionModel,
) -> NextModel {
    NextModel { import: ImportModel { plan: p, java_path: None, stage }, log, action }
}

/// An import that is over without success.
pub open spec fn failed(
    p: PlanModel,
    java_path: Option<Seq<char>>,
    log: Seq<Seq<char>>,
    error: Seq<char>,
) -> NextModel {
    NextModel {
        import: ImportModel { plan: p, java_path, stage: StageModel::Over },
        log,
        action: ImportActionModel::Fail { error },
    }
}

/// An import that looks at the entries of the archive from an index on: those for the server are
/// written one by one, and then the loader is installed.
pub open spec fn at_overrides(p: PlanModel, i: nat, log: Seq<Seq<char>>) -> NextModel
    decreases (match archive::zip_count(p.archive) {
        Ok(n) => n,
        Err(_) => 0,
    }) - i,
{
    match archive::zip_count(p.archive) {
        Err(e) => failed(p, None, log, "Failed to open mrpack archive: "@ + e),
        Ok(n) => if i >= n {
            at_loader(p, log)
        } else {
            match archive::zip_entry(p.archive, i) {
                Err(e) => failed(p, None, log, "ZIP read error: "@ + e),
                Ok((name, is_dir)) => match archive::placement_of(name, p.server_path) {
                    PlacementModel::Skip => at_overrides(p, i + 1, log),
                    PlacementModel::Unsafe => failed(
                        p,
                        None,
                        log,
                        "Unsafe path in archive: "@ + name,
                    ),
                    PlacementModel::At(path) => waiting(
                        p,
                        StageModel::Override(i + 1),
                        log,
                        if is_dir {
                            ImportActionModel::MakeDir { path }
                        } else {
                            ImportActionModel::WriteEntry {
                                path,
                                parent: paths::parent_of(path),
                                index: i,
                            }
                        },
                    ),
                },
            }
        },
    }
}

/// The loader of a plan that can be installed.
pub open spec fn loader_kind(loader: Option<Seq<char>>) -> Option<LoaderKind> {
    match loader {
        Some(l) => if l == "neoforge"@ {
            Some(LoaderKind::NeoForge)
        } else if l == "forge"@ {
            Some(LoaderKind::Forge)
        } else if l == "fabric"@ {
            Some(LoaderKind::Fabric)
        } else {
            None
        },
        None => None,
    }
}

/// What is logged when a loader is installed.
pub open spec fn install_line(source: Source, kind: LoaderKind, version: Seq<char>) -> Seq<char> {
    (match kind {
        LoaderKind::NeoForge => "Installing NeoForge "@,
        LoaderKind::Forge => "Installing Forge "@,
        LoaderKind::Fabric => match source {
            Source::Modrinth => "Installing Fabric loader "@,
            Source::Ftb => "Installing Fabric "@,
        },
    }) + version + "…"@
}

/// An import that comes to the loader.
pub open spec fn at_loader(p: PlanModel, log: Seq<Seq<char>>) -> NextModel {
    match loader_kind(p.loader) {
        Some(kind) => {
            let version = match p.loader_version {
                Some(v) => v,
                None => Seq::empty(),
            };
            waiting(
                p,
                StageModel::Loader,
                log.push(install_line(p.source, kind, version)),
                ImportActionModel::Install { kind, version },
            )
        },
        None => at_files(
            p,
            log.push("No known mod loader — skipping loader installation."@),
        ),
    }
}

/// What is logged before the files of the pack.
pub open spec fn files_line(source: Source, n: nat) -> Seq<char> {
    "Downloading "@ + text::digits(n) + (match source {
        Source::Modrinth => " mod files…"@,
        Source::Ftb => " files…"@,
    })
}

/// An import that comes to the files of the pack.
pub open spec fn at_files(p: PlanModel, log: Seq<Seq<char>>) -> NextModel {
    let more = log.push(files_line(p.source, p.jobs.len()));
    match p.source {
        Source::Modrinth => waiting(
            p,
            StageModel::ModsDir,
            more,
            ImportActionModel::MakeDir { path: paths::joined_path(p.server_path, "mods"@) },
        ),
        Source::Ftb => at_job(p, 0, more),
    }
}

/// `[<i>/<n>] `.
pub open spec fn progress_mark(i: nat, n: nat) -> Seq<char> {
    "["@ + text::digits(i) + "/"@ + text::digits(n) + "] "@
}

/// An import that comes to a file of the pack: its folder is made first.
pub open spec fn at_job(p: PlanModel, i: nat, log: Seq<Seq<char>>) -> NextModel
    decreases p.jobs.len() - i, 1nat,
{
    if i >= p.jobs.len() {
        waiting(
            p,
            StageModel::Java,
            log,
            ImportActionModel::FindJava { required: java::java_for(p.mc_version) },
        )
    } else if !p.jobs[i as int].safe {
        failed(p, None, log, "Unsafe path in manifest: "@ + p.jobs[i as int].label)
    } else {
        match p.jobs[i as int].parent {
            Some(d) => waiting(
                p,
                StageModel::JobDir(i),
                log,
                ImportActionModel::MakeDir { path: d },
            ),
            None => at_download(p, i, log),
        }
    }
}

/// An import whose next file has its folder: the file is asked for, or skipped where nobody offers
/// it.
pub open spec fn at_download(p: PlanModel, i: nat, log: Seq<Seq<char>>) -> NextModel
    decreases p.jobs.len() - i, 0nat,
{
    if i >= p.jobs.len() {
        failed(p, None, log, Seq::empty())
    } else {
        match p.jobs[i as int].url {
            Some(url) => waiting(
                p,
                StageModel::Download(i),
                log,
                ImportActionModel::Download { url },
            ),
            None => at_job(
                p,
                i + 1,
                log.push(
                    progress_mark(i + 1, p.jobs.len()) + "Skipping "@ + p.jobs[i as int].label
                        + " (no download URL)"@,
                ),
            ),
        }
    }
}

/// What is logged of the Java of a new instance.
pub open spec fn java_lines(
    source: Source,
    required: nat,
    path: Option<Seq<char>>,
    system: Option<u32>,
) -> Seq<Seq<char>> {
    match path {
        Some(found) => seq![
            "Java "@ + text::digits(required) + " required — found at "@ + found
                + " — configuring instance."@,
        ],
        None => if java::opt_nat(system) == Some(required) {
            Seq::empty()
        } else {
            match source {
                Source::Modrinth => seq![
                    "Warning: Java "@ + text::digits(required)
                        + " required but not found on this system. Set the Java path manually in instance settings."@,
                ],
                Source::Ftb => seq![
                    "Warning: Java "@ + text::digits(required)
                        + " required but not found. Set java_path manually in instance settings."@,
                ],
            }
        },
    }
}

/// What is said where something fails.
pub open spec fn failure_of(p: PlanModel, stage: StageModel, unreadable: bool, e: Seq<char>) -> Seq<
    char,
> {
    match stage {
        StageModel::Directory => "Failed to create directory: "@ + e,
        StageModel::JobDir(i) => "Failed to create dir for "@ + p.jobs[i as int].name + ": "@ + e,
        StageModel::Download(i) => (if unreadable {
            "Failed to read "@
        } else {
            "Failed to download "@
        }) + p.jobs[i as int].name + ": "@ + e,
        StageModel::Write(i) => "Failed to write "@ + p.jobs[i as int].name + ": "@ + e,
        StageModel::InstanceDir => "Failed to create instance directory: "@ + e,
        StageModel::Config => (if unreadable {
            "Failed to serialize config: "@
        } else {
            "Failed to write msm.toml: "@
        }) + e,
        _ => e,
    }
}

/// Whether an index that an import waits at is one of a file.
pub open spec fn stage_ok(p: PlanModel, stage: StageModel) -> bool {
    match stage {
        StageModel::JobDir(i) => i < p.jobs.len(),
        StageModel::Download(i) => i < p.jobs.len(),
        StageModel::Write(i) => i < p.jobs.len(),
        _ => true,
    }
}

/// Whether a reply can come to what is waited for.
pub open spec fn import_replies_to(reply: ImportReplyModel, stage: StageModel) -> bool {
    match stage {
        StageModel::Download(_) => reply is Bytes || reply is Failed || reply is Unreadable,
        StageModel::Java => reply is Java,
        StageModel::Config => reply is Done || reply is Failed || reply is Unreadable,
        StageModel::Over => false,
        _ => reply is Done || reply is Failed,
    }
}

/// Whether a failure is passed over: the folders of a pack of Modrinth are only tried.
pub open spec fn passed_over(source: Source, stage: StageModel) -> bool {
    source == Source::Modrinth && (stage is ModsDir || stage is JobDir)
}

/// An import after a reply.
pub open spec fn import_advanced(m: ImportModel, reply: ImportReplyModel) -> NextModel {
    let p = m.plan;
    let none = Seq::<Seq<char>>::empty();
    match reply {
        ImportReplyModel::Failed(e) if !passed_over(p.source, m.stage) => failed(
            p,
            m.java_path,
            none,
            failure_of(p, m.stage, false, e),
        ),
        ImportReplyModel::Unreadable(e) => failed(
            p,
            m.java_path,
            none,
            failure_of(p, m.stage, true, e),
        ),
        _ => match m.stage {
            StageModel::Directory => match p.source {
                Source::Modrinth => at_overrides(p, 0, seq!["Extracting config overrides…"@]),
                Source::Ftb => at_loader(p, none),
            },
            StageModel::Override(i) => at_overrides(p, i, none),
            StageModel::Loader => at_files(p, none),
            StageModel::ModsDir => at_job(p, 0, none),
            StageModel::JobDir(i) => at_download(p, i, none),
            StageModel::Download(i) => {
                let job = p.jobs[i as int];
                if job.sha512 matches Some(expected) && digest::fingerprint_of(reply->Bytes_0)
                    != expected {
                    failed(p, None, none, "Hash mismatch for "@ + job.name)
                } else {
                    waiting(
                        p,
                        StageModel::Write(i),
                        none,
                        ImportActionModel::Write { path: job.dest },
                    )
                }
            },
            StageModel::Write(i) => at_job(
                p,
                i + 1,
                seq![progress_mark(i + 1, p.jobs.len()) + p.jobs[i as int].label],
            ),
            StageModel::Java => NextModel {
                import: ImportModel {
                    plan: p,
                    java_path: reply->Java_path,
                    stage: StageModel::InstanceDir,
                },
                log: java_lines(
                    p.source,
                    java::java_for(p.mc_version),
                    reply->Java_path,
                    reply->system,
                ).push("Registering instance…"@),
                action: ImportActionModel::MakeDir { path: p.instance_dir },
            },
            StageModel::InstanceDir => NextModel {
                import: ImportModel { stage: StageModel::Config, ..m },
                log: none,
                action: ImportActionModel::WriteConfig,
            },
            StageModel::Config => NextModel {
                import: ImportModel { stage: StageModel::Over, ..m },
                log: none,
                action: ImportActionModel::Finish,
            },
            StageModel::Over => failed(p, m.java_path, none, Seq::empty()),
        },
    }
}

fn wait_at(plan: Plan, stage: Stage, log: Vec<String>, action: ImportAction) -> (r: Next)
    ensures
        r@ == waiting(plan@, stage@, text::views(log@), action@),
{
    Next { import: Import { plan, java_path: None, stage }, log, action }
}

fn fail_with(plan: Plan, java_path: Option<String>, log: Vec<String>, error: String) -> (r: Next)
    ensures
        r@ == failed(plan@, text::opt_view(java_path), text::views(log@), error@),
{
    Next {
        import: Import { plan, java_path, stage: Stage::Over },
        log,
        action: ImportAction::Fail { error },
    }
}

fn logged(log: Vec<String>, line: String) -> (r: Vec<String>)
    ensures
        text::views(r@) == text::views(log@).push(line@),
{
    let ghost before = log@;
    let mut log = log;
    log.push(line);
    assert(text::views(log@) =~= text::views(before).push(line@));
    log
}

fn no_log() -> (r: Vec<String>)
    ensures
        text::views(r@) == Seq::<Seq<char>>::empty(),
{
    let r: Vec<String> = Vec::new();
    assert(text::views(r@) =~= Seq::<Seq<char>>::empty());
    r
}

fn go_overrides(plan: Plan, start: usize, log: Vec<String>) -> (r: Next)
    ensures
        r@ == at_overrides(plan@, start as nat, text::views(log@)),
{
    let n: usize = match archive::entry_count(&plan.archive) {
        Ok(n) => n,
        Err(e) => {
            let m = archive::error_text("Failed to open mrpack archive: ", e.as_str());
            return fail_with(plan, None, log, m);
        },
    };
    let mut i: usize = start;
    while i < n
        invariant
            archive::zip_count(plan@.archive) == Ok::<nat, Seq<char>>(n as nat),
            at_overrides(plan@, start as nat, text::views(log@)) == at_overrides(
                plan@,
                i as nat,
                text::views(log@),
            ),
        decreases n - i,
    {
        let (name, is_dir) = match archive::entry_at(&plan.archive, i) {
            Ok(x) => x,
            Err(e) => {
                let m = archive::error_text("ZIP read error: ", e.as_str());
                return fail_with(plan, None, log, m);
            },
        };
        match archive::place(name.as_str(), plan.server_path.as_str()) {
            Placement::Skip => {},
            Placement::Unsafe => {
                let m = archive::error_text("Unsafe path in archive: ", name.as_str());
                return fail_with(plan, None, log, m);
            },
            Placement::At(path) => {
                let action = if is_dir {
                    ImportAction::MakeDir { path }
                } else {
                    let parent = paths::parent(path.as_str());
                    ImportAction::WriteEntry { path, parent, index: i }
                };
                return wait_at(plan, Stage::Override(i + 1), log, action);
            },
        }
        i += 1;
    }
    go_loader(plan, log)
}

fn find_kind(loader: &Option<String>) -> (r: Option<LoaderKind>)
    ensures
        r == loader_kind(text::opt_view(*loader)),
{
    match loader {
        Some(l) => if text::same(l.as_str(), "neoforge") {
            Some(LoaderKind::NeoForge)
        } else if text::same(l.as_str(), "forge") {
            Some(LoaderKind::Forge)
        } else if text::same(l.as_str(), "fabric") {
            Some(LoaderKind::Fabric)
        } else {
            None
        },
        None => None,
    }
}

fn go_loader(plan: Plan, log: Vec<String>) -> (r: Next)
    ensures
        r@ == at_loader(plan@, text::views(log@)),
{
    match find_kind(&plan.loader) {
        Some(kind) => {
            let version = match &plan.loader_version {
                Some(v) => v.clone(),
                None => String::new(),
            };
            let mut line = match kind {
                LoaderKind::NeoForge => "Installing NeoForge ".to_string(),
                LoaderKind::Forge => "Installing Forge ".to_string(),
                LoaderKind::Fabric => match plan.source {
                    Source::Modrinth => "Installing Fabric loader ".to_string(),
                    Source::Ftb => "Installing Fabric ".to_string(),
                },
            };
            line.append(version.as_str());
            line.append("…");
            assert(plan@.loader_version is None ==> version@ =~= Seq::<char>::empty());
            let log = logged(log, line);
            wait_at(plan, Stage::Loader, log, ImportAction::Install { kind, version })
        },
        None => {
            let log = logged(
                log,
                "No known mod loader — skipping loader installation.".to_string(),
            );
            go_files(plan, log)
        },
    }
}

fn go_files(plan: Plan, log: Vec<String>) -> (r: Next)
    ensures
        r@ == at_files(plan@, text::views(log@)),
{
    let mut line = "Downloading ".to_string();
    let n = text::decimal(plan.jobs.len() as u64);
    line.append(n.as_str());
    match plan.source {
        Source::Modrinth => line.append(" mod files…"),
        Source::Ftb => line.append(" files…"),
    }
    let log = logged(log, line);
    match plan.source {
        Source::Modrinth => {
            let path = paths::join(plan.server_path.as_str(), "mods");
            wait_at(plan, Stage::ModsDir, log, ImportAction::MakeDir { path })
        },
        Source::Ftb => go_job(plan, 0, log),
    }
}

fn mark(i: usize, n: usize) -> (r: String)
    ensures
        r@ == progress_mark(i as nat, n as nat),
{
    let mut s = "[".to_string();
    let a = text::decimal(i as u64);
    let b = text::decimal(n as u64);
    s.append(a.as_str());
    s.append("/");
    s.append(b.as_str());
    s.append("] ");
    s
}

fn go_job(plan: Plan, start: usize, log_before: Vec<String>) -> (r: Next)
    ensures
        r@ == at_job(plan@, start as nat, text::views(log_before@)),
{
    let n: usize = plan.jobs.len();
    let mut i: usize = start;
    let mut log = log_before;
    while i < n
        invariant
            n == plan.jobs@.len(),
            at_job(plan@, start as nat, text::views(log_before@)) == at_job(
                plan@,
                i as nat,
                text::views(log@),
            ),
        decreases n - i,
    {
        assert(plan@.jobs[i as int] == plan.jobs@[i as int]@);
        if !plan.jobs[i].safe {
            let m = archive::error_text("Unsafe path in manifest: ", plan.jobs[i].label.as_str());
            return fail_with(plan, None, log, m);
        }
        if let Some(d) = &plan.jobs[i].parent {
            let path = d.clone();
            return wait_at(plan, Stage::JobDir(i), log, ImportAction::MakeDir { path });
        }
        if let Some(u) = &plan.jobs[i].url {
            let url = u.clone();
            return wait_at(plan, Stage::Download(i), log, ImportAction::Download { url });
        }
        let line = skip_line(&plan, i);
        log = logged(log, line);
        i += 1;
    }
    let required: u32 = java::recommended_java(plan.mc_version.as_str());
    wait_at(plan, Stage::Java, log, ImportAction::FindJava { required })
}

fn skip_line(plan: &Plan, i: usize) -> (r: String)
    requires
        i < plan.jobs@.len(),
    ensures
        r@ == progress_mark((i + 1) as nat, plan@.jobs.len()) + "Skipping "@
            + plan@.jobs[i as int].label + " (no download URL)"@,
{
    let n: usize = plan.jobs.len();
    let mut line = mark(i + 1, n);
    line.append("Skipping ");
    line.append(plan.jobs[i].label.as_str());
    line.append(" (no download URL)");
    line
}

fn go_download(plan: Plan, i: usize, log: Vec<String>) -> (r: Next)
    requires
        i < plan.jobs@.len(),
    ensures
        r@ == at_download(plan@, i as nat, text::views(log@)),
{
    assert(plan@.jobs[i as int] == plan.jobs@[i as int]@);
    if let Some(u) = &plan.jobs[i].url {
        let url = u.clone();
        return wait_at(plan, Stage::Download(i), log, ImportAction::Download { url });
    }
    let n: usize = plan.jobs.len();
    let line = skip_line(&plan, i);
    let log = logged(log, line);
    assert(i < n);
    go_job(plan, i + 1, log)
}

fn failure_text(plan: &Plan, stage: Stage, unreadable: bool, e: &str) -> (r: String)
    requires
        stage_ok(plan@, stage@),
    ensures
        r@ == failure_of(plan@, stage@, unreadable, e@),
{
    let mut m = String::new();
    match stage {
        Stage::Directory => {
            m.append("Failed to create directory: ");
        },
        Stage::JobDir(i) => {
            assert(plan@.jobs[i as int] == plan.jobs@[i as int]@);
            m.append("Failed to create dir for ");
            m.append(plan.jobs[i].name.as_str());
            m.append(": ");
        },
        Stage::Download(i) => {
            assert(plan@.jobs[i as int] == plan.jobs@[i as int]@);
            if unreadable {
                m.append("Failed to read ");
            } else {
                m.append("Failed to download ");
            }
            m.append(plan.jobs[i].name.as_str());
            m.append(": ");
        },
        Stage::Write(i) => {
            assert(plan@.jobs[i as int] == plan.jobs@[i as int]@);
            m.append("Failed to write ");
            m.append(plan.jobs[i].name.as_str());
            m.append(": ");
        },
        Stage::InstanceDir => {
            m.append("Failed to create instance directory: ");
        },
        Stage::Config => {
            if unreadable {
                m.append("Failed to serialize config: ");
            } else {
                m.append("Failed to write msm.toml: ");
            }
        },
        _ => {},
    }
    m.append(e);
    assert(m@ =~= failure_of(plan@, stage@, unreadable, e@));
    m
}

fn java_log(source: Source, required: u32, path: &Option<String>, system: Option<u32>) -> (r: Vec<
    String,
>)
    ensures
        text::views(r@) == java_lines(source, required as nat, text::opt_view(*path), system),
{
    let n = text::decimal(required as u64);
    match path {
        Some(found) => {
            let mut line = "Java ".to_string();
            line.append(n.as_str());
            line.append(" required — found at ");
            line.append(found.as_str());
            line.append(" — configuring instance.");
            let r = logged(no_log(), line);
            assert(text::views(r@) =~= seq![line@]);
            r
        },
        None => {
            let right = match system {
                Some(v) => v == required,
                None => false,
            };
            if right {
                return no_log();
            }
            let mut line = "Warning: Java ".to_string();
            line.append(n.as_str());
            match source {
                Source::Modrinth => line.append(
                    " required but not found on this system. Set the Java path manually in instance settings.",
                ),
                Source::Ftb => line.append(
                    " required but not found. Set java_path manually in instance settings.",
                ),
            }
            let r = logged(no_log(), line);
            assert(text::views(r@) =~= seq![line@]);
            r
        },
    }
}

impl Import {
    /// Begins an import: the folder of the server is made.
    pub fn start(plan: Plan) -> (r: Next)
        ensures
            r@ == waiting(
                plan@,
                StageModel::Directory,
                seq!["Creating directory "@ + plan@.server_path + "…"@],
                ImportActionModel::MakeDir { path: plan@.server_path },
            ),
    {
        let mut line = "Creating directory ".to_string();
        line.append(plan.server_path.as_str());
        line.append("…");
        let log = logged(no_log(), line);
        assert(text::views(log@) =~= seq!["Creating directory "@ + plan@.server_path + "…"@]);
        let path = plan.server_path.clone();
        wait_at(plan, Stage::Directory, log, ImportAction::MakeDir { path })
    }

    fn take_bytes(self, i: usize, bytes: &Vec<u8>) -> (r: Next)
        requires
            self@.stage == StageModel::Download(i as nat),
            stage_ok(self@.plan, self@.stage),
        ensures
            r@ == import_advanced(self@, ImportReplyModel::Bytes(bytes@)),
    {
        let plan = self.plan;
        assert(plan@.jobs[i as int] == plan.jobs@[i as int]@);
        if let Some(expected) = &plan.jobs[i].sha512 {
            let actual = digest::fingerprint(bytes);
            if !text::same(actual.as_str(), expected.as_str()) {
                let m = archive::error_text("Hash mismatch for ", plan.jobs[i].name.as_str());
                return fail_with(plan, None, no_log(), m);
            }
        }
        let path = plan.jobs[i].dest.clone();
        wait_at(plan, Stage::Write(i), no_log(), ImportAction::Write { path })
    }

    fn take_java(self, path: Option<String>, system: Option<u32>) -> (r: Next)
        requires
            self@.stage == StageModel::Java,
        ensures
            r@ == import_advanced(
                self@,
                ImportReplyModel::Java { path: text::opt_view(path), system },
            ),
    {
        let plan = self.plan;
        let required: u32 = java::recommended_java(plan.mc_version.as_str());
        let lines = java_log(plan.source, required, &path, system);
        let log = logged(lines, "Registering instance…".to_string());
        let dir = plan.instance_dir.clone();
        Next {
            import: Import { plan, java_path: path, stage: Stage::InstanceDir },
            log,
            action: ImportAction::MakeDir { path: dir },
        }
    }

    /// What is done next once a reply came.
    pub fn step(self, reply: ImportReply) -> (r: Next)
        requires
            stage_ok(self@.plan, self@.stage),
            import_replies_to(reply@, self@.stage),
        ensures
            r@ == import_advanced(self@, reply@),
            stage_ok(r@.import.plan, r@.import.stage),
    {
        let r = self.step_to(reply);
        proof {
            lemma_stage_ok(self@, reply@);
        }
        r
    }

    fn step_to(self, reply: ImportReply) -> (r: Next)
        requires
            stage_ok(self@.plan, self@.stage),
            import_replies_to(reply@, self@.stage),
        ensures
            r@ == import_advanced(self@, reply@),
    {
        let skip = match self.plan.source {
            Source::Modrinth => match self.stage {
                Stage::ModsDir | Stage::JobDir(_) => true,
                _ => false,
            },
            Source::Ftb => false,
        };
        match reply {
            ImportReply::Unreadable(e) => {
                let m = failure_text(&self.plan, self.stage, true, e.as_str());
                return fail_with(self.plan, self.java_path, no_log(), m);
            },
            ImportReply::Failed(e) => {
                if !skip {
                    let m = failure_text(&self.plan, self.stage, false, e.as_str());
                    return fail_with(self.plan, self.java_path, no_log(), m);
                }
            },
            ImportReply::Bytes(bytes) => {
                return match self.stage {
                    Stage::Download(i) => self.take_bytes(i, &bytes),
                    _ => fail_with(self.plan, self.java_path, no_log(), String::new()),
                };
            },
            ImportReply::Java { path, system } => {
                return self.take_java(path, system);
            },
            ImportReply::Done => {},
        }
        let Import { plan, java_path, stage } = self;
        match stage {
            Stage::Directory => match plan.source {
                Source::Modrinth => {
                    let log = logged(no_log(), "Extracting config overrides…".to_string());
                    assert(text::views(log@) =~= seq!["Extracting config overrides…"@]);
                    go_overrides(plan, 0, log)
                },
                Source::Ftb => go_loader(plan, no_log()),
            },
            Stage::Override(i) => go_overrides(plan, i, no_log()),
            Stage::Loader => go_files(plan, no_log()),
            Stage::ModsDir => go_job(plan, 0, no_log()),
            Stage::JobDir(i) => go_download(plan, i, no_log()),
            Stage::Write(i) => {
                assert(plan@.jobs[i as int] == plan.jobs@[i as int]@);
                let n: usize = plan.jobs.len();
                let mut line = mark(i + 1, n);
                line.append(plan.jobs[i].label.as_str());
                let log = logged(no_log(), line);
                assert(text::views(log@) =~= seq![line@]);
                go_job(plan, i + 1, log)
            },
            Stage::InstanceDir => Next {
                import: Import { plan, java_path, stage: Stage::Config },
                log: no_log(),
                action: ImportAction::WriteConfig,
            },
            Stage::Config => Next {
                import: Import { plan, java_path, stage: Stage::Over },
                log: no_log(),
                action: ImportAction::Finish,
            },
            _ => fail_with(plan, java_path, no_log(), String::new()),
        }
    }
}

// ---------------------------------------------------------------------------
// The new instance
// ---------------------------------------------------------------------------

/// Whether settings are those of an import.
pub open spec fn settings_of(c: InstanceConfig, m: ImportModel) -> bool {
    &&& c.instance.name@ == m.plan.instance_id
    &&& text::opt_view(c.instance.display_name) == Some(m.plan.display_name)
    &&& c.instance.minecraft_version@ == m.plan.mc_version
    &&& text::opt_view(c.instance.loader) == m.plan.loader
    &&& text::opt_view(c.instance.loader_version) == m.plan.loader_version
    &&& c.instance.port == m.plan.port
    &&& text::opt_view(c.instance.modrinth_project_id) == m.plan.project_id
    &&& c.server.path@ == m.plan.server_path
    &&& c.server.java_opts is None
    &&& text::opt_view(c.server.java_path) == m.java_path
    &&& config::fresh_backup(c.backup)
    &&& c.restart is None
    &&& c.alerts is None
    &&& c.schedules@.len() == 0
}

impl Import {
    /// The settings of the new instance.
    pub fn settings(&self) -> (r: InstanceConfig)
        ensures
            settings_of(r, self@),
    {
        InstanceConfig {
            restart: None,
            instance: InstanceMeta {
                name: self.plan.instance_id.clone(),
                display_name: Some(self.plan.display_name.clone()),
                minecraft_version: self.plan.mc_version.clone(),
                loader: state::copied_opt(&self.plan.loader),
                loader_version: state::copied_opt(&self.plan.loader_version),
                port: self.plan.port,
                modrinth_project_id: state::copied_opt(&self.plan.project_id),
            },
            server: ServerConfig {
                path: self.plan.server_path.clone(),
                java_opts: None,
                java_path: state::copied_opt(&self.java_path),
            },
            backup: config::new_backup_config(),
            alerts: None,
            schedules: Vec::new(),
        }
    }

    /// Adds the new instance and tells of it.
    pub fn register(&self, reg: &mut Registry) -> (r: WsEvent)
        requires
            old(reg).wf(),
        ensures
            final(reg).wf(),
            exists|inst: InstanceModel|
                {
                    &&& inst.id == self@.plan.instance_id
                    &&& inst.instance_dir == self@.plan.instance_dir
                    &&& settings_of(inst.config, self@)
                    &&& inst.fresh()
                    &&& final(reg)@ == #[trigger] state::with_instance(old(reg)@, inst)
                    &&& r@ == (EventModel::InstanceAdded { instance: inst.info() })
                },
    {
        let inst = InstanceState::new(
            self.plan.instance_id.as_str(),
            self.plan.instance_dir.as_str(),
            self.settings(),
        );
        let info = InstanceInfo::from(&inst);
        let ghost m = inst@;
        reg.insert(inst);
        assert(reg@ == state::with_instance(old(reg)@, m));
        WsEvent::InstanceAdded { instance: info }
    }
}

/// What is told once an import is over.
pub fn outcome_events(result: &Result<(), String>, server_path: &str) -> (r: Vec<WsEvent>)
    ensures
        state::event_views(r@) == (match *result {
            Ok(_) => seq![
                EventModel::ModpackLog { message: "Done!"@ },
                EventModel::ModpackDone { server_path: server_path@ },
            ],
            Err(e) => seq![EventModel::ModpackFailed { error: e@ }],
        }),
{
    let mut r: Vec<WsEvent> = Vec::new();
    match result {
        Ok(_) => {
            r.push(WsEvent::ModpackLog { message: "Done!".to_string() });
            r.push(WsEvent::ModpackDone { server_path: server_path.to_string() });
            assert(state::event_views(r@) =~= seq![
                EventModel::ModpackLog { message: "Done!"@ },
                EventModel::ModpackDone { server_path: server_path@ },
            ]);
        },
        Err(e) => {
            r.push(WsEvent::ModpackFailed { error: e.clone() });
            assert(state::event_views(r@) =~= seq![EventModel::ModpackFailed { error: e@ }]);
        },
    }
    r
}

proof fn lemma_overrides_ok(p: PlanModel, i: nat, log: Seq<Seq<char>>)
    ensures
        stage_ok(at_overrides(p, i, log).import.plan, at_overrides(p, i, log).import.stage),
    decreases (match archive::zip_count(p.archive) {
        Ok(n) => n,
        Err(_) => 0,
    }) - i,
{
    lemma_loader_ok(p, log);
    if let Ok(n) = archive::zip_count(p.archive) {
        if i < n {
            lemma_overrides_ok(p, i + 1, log);
        }
    }
}

proof fn lemma_loader_ok(p: PlanModel, log: Seq<Seq<char>>)
    ensures
        stage_ok(at_loader(p, log).import.plan, at_loader(p, log).import.stage),
{
    lemma_files_ok(p, log.push("No known mod loader — skipping loader installation."@));
}

proof fn lemma_files_ok(p: PlanModel, log: Seq<Seq<char>>)
    ensures
        stage_ok(at_files(p, log).import.plan, at_files(p, log).import.stage),
{
    lemma_job_ok(p, 0, log.push(files_line(p.source, p.jobs.len())));
}

proof fn lemma_job_ok(p: PlanModel, i: nat, log: Seq<Seq<char>>)
    ensures
        stage_ok(at_job(p, i, log).import.plan, at_job(p, i, log).import.stage),
        stage_ok(at_download(p, i, log).import.plan, at_download(p, i, log).import.stage),
    decreases p.jobs.len() - i,
{
    if i < p.jobs.len() {
        lemma_job_ok(
            p,
            i + 1,
            log.push(
                progress_mark(i + 1, p.jobs.len()) + "Skipping "@ + p.jobs[i as int].label
                    + " (no download URL)"@,
            ),
        );
    }
}

proof fn lemma_stage_ok(m: ImportModel, reply: ImportReplyModel)
    requires
        stage_ok(m.plan, m.stage),
        import_replies_to(reply, m.stage),
    ensures
        stage_ok(import_advanced(m, reply).import.plan, import_advanced(m, reply).import.stage),
{
    let p = m.plan;
    let none = Seq::<Seq<char>>::empty();
    match m.stage {
        StageModel::Directory => {
            lemma_overrides_ok(p, 0, seq!["Extracting config overrides…"@]);
            lemma_loader_ok(p, none);
        },
        StageModel::Override(i) => {
            lemma_overrides_ok(p, i, none);
        },
        StageModel::Loader => {
            lemma_files_ok(p, none);
        },
        StageModel::ModsDir => {
            lemma_job_ok(p, 0, none);
        },
        StageModel::JobDir(i) => {
            lemma_job_ok(p, i, none);
        },
        StageModel::Write(i) => {
            lemma_job_ok(
                p,
                i + 1,
                seq![progress_mark(i + 1, p.jobs.len()) + p.jobs[i as int].label],
            );
        },
        _ => {},
    }
}

} // verus!
