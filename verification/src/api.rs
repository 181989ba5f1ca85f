//! The decisions behind the requests of the dashboard.

use crate::backup;
use crate::config;
use crate::config::InstanceConfig;
use crate::config::InstanceMeta;
use crate::config::RestartConfig;
use crate::config::ServerConfig;
use crate::ftb;
use crate::instance;
use crate::mod_mgr::ModLock;
use crate::modpack;
use crate::modrinth;
use crate::modrinth::Update;
use crate::order;
use crate::paths;
use crate::slug;
use crate::sse;
use crate::state;
use crate::state::InfoModel;
use crate::state::InstanceInfo;
use crate::state::InstanceModel;
use crate::state::InstanceState;
use crate::state::LogLine;
use crate::state::Registry;
use crate::text;
use crate::update_all;
use crate::update_all::BatchStep;
use vstd::prelude::*;

verus! {

// ---------------------------------------------------------------------------
// Errors
// ---------------------------------------------------------------------------

/// What is said of a request that failed.
#[derive(Debug)]
pub struct ApiError {
    pub error: String,
}

/// A request that failed, with the status of the answer.
pub type Failure = (u16, ApiError);

/// The status of an answer without contents.
pub const NO_CONTENT: u16 = 204;

/// The status of an answer to what goes on behind.
pub const ACCEPTED: u16 = 202;

/// The status of an answer to a request that makes no sense.
pub const BAD_REQUEST: u16 = 400;

/// The status of an answer where something is missing.
pub const NOT_FOUND: u16 = 404;

/// The status of an answer where something is there already.
pub const CONFLICT: u16 = 409;

/// The status of an answer where the manager failed.
pub const INTERNAL_ERROR: u16 = 500;

/// The status of an answer where a service outside failed.
pub const BAD_GATEWAY: u16 = 502;

/// Whether a failure has a status and a text.
pub open spec fn says(f: Failure, code: u16, message: Seq<char>) -> bool {
    f.0 == code && f.1.error@ == message
}

/// A failure with a status and a text.
pub fn err(code: u16, message: &str) -> (r: Failure)
    ensures
        says(r, code, message@),
{
    (code, ApiError { error: message.to_string() })
}

/// The answer to a request that came to a result: one status where it went through, another where
/// it did not.
pub fn answer(result: &Result<(), String>, done: u16, failed: u16) -> (r: Result<u16, Failure>)
    ensures
        match r {
            Ok(code) => result is Ok && code == done,
            Err(f) => *result matches Err(e) && says(f, failed, e@),
        },
{
    match result {
        Ok(_) => Ok(done),
        Err(e) => Err(err(failed, e.as_str())),
    }
}

/// Finds an instance, or fails because there is none.
pub fn find_instance<'a>(reg: &'a Registry, id: &str) -> (r: Result<&'a InstanceState, Failure>)
    ensures
        match r {
            Ok(inst) => state::slot(reg@, id@) matches Some(i) && inst@ == reg@[i],
            Err(f) => !state::known(reg@, id@) && says(
                f,
                NOT_FOUND,
                instance::instance_message(id@, "not found"@),
            ),
        },
{
    match reg.get(id) {
        Some(inst) => Ok(inst),
        None => {
            let m = instance::message(id, "not found");
            Err(err(NOT_FOUND, m.as_str()))
        },
    }
}

// ---------------------------------------------------------------------------
// Instances
// ---------------------------------------------------------------------------

/// The order in which instances are shown.
pub open spec fn by_display_name() -> spec_fn(InfoModel, InfoModel) -> bool {
    |a: InfoModel, b: InfoModel| text::not_after(a.display_name, b.display_name)
}

/// What is shown of all instances, in the order of their names.
pub fn list_instances(reg: &Registry) -> (r: Vec<InstanceInfo>)
    ensures
        sse::info_views(r@) == order::arranged(sse::infos_of(reg@), by_display_name()),
{
    let infos = sse::all_infos(reg);
    let ghost leq = |a: InstanceInfo, b: InstanceInfo|
        text::not_after(a.display_name@, b.display_name@);
    let ghost all = infos@;
    let le = |a: &InstanceInfo, b: &InstanceInfo| -> (c: bool)
        ensures
            c == text::not_after(a.display_name@, b.display_name@),
        { text::le(a.display_name.as_str(), b.display_name.as_str()) };
    let r = order::arrange(infos, le, Ghost(leq));
    proof {
        order::lemma_arranged_map(all, |i: InstanceInfo| i@, leq, by_display_name());
    }
    r
}

/// The lines that are kept of the console of an instance.
pub fn get_logs(reg: &Registry, id: &str) -> (r: Result<Vec<LogLine>, Failure>)
    ensures
        match r {
            Ok(lines) => state::slot(reg@, id@) matches Some(i) && state::log_views(lines@)
                == reg@[i].log,
            Err(f) => !state::known(reg@, id@) && says(
                f,
                NOT_FOUND,
                instance::instance_message(id@, "not found"@),
            ),
        },
{
    match find_instance(reg, id) {
        Ok(inst) => Ok(sse::log_lines(inst)),
        Err(f) => Err(f),
    }
}

/// A command for a console.
#[derive(Debug)]
pub struct CmdRequest {
    pub command: String,
}

/// What is asked of a new instance.
#[derive(Debug)]
pub struct AddInstanceRequest {
    pub id: String,
    pub display_name: String,
    pub server_path: String,
    pub minecraft_version: String,
    pub port: u16,
    pub java_path: Option<String>,
}

/// The id of a new instance; it must not be empty, and it must be free.
pub fn new_instance_id(reg: &Registry, req: &AddInstanceRequest) -> (r: Result<String, Failure>)
    ensures
        match r {
            Ok(id) => id@ == slug::slug_of(req.id@) && id@.len() > 0 && !state::known(reg@, id@),
            Err(f) => {
                let id = slug::slug_of(req.id@);
                if id.len() == 0 {
                    says(f, BAD_REQUEST, "Invalid instance ID"@)
                } else {
                    state::known(reg@, id) && says(
                        f,
                        CONFLICT,
                        instance::instance_message(id, "already exists"@),
                    )
                }
            },
        },
{
    let id = slug::slugify(req.id.as_str());
    if id.as_str().is_empty() {
        return Err(err(BAD_REQUEST, "Invalid instance ID"));
    }
    if reg.contains(id.as_str()) {
        let m = instance::message(id.as_str(), "already exists");
        return Err(err(CONFLICT, m.as_str()));
    }
    Ok(id)
}

/// What is said where the folder of a server is missing.
pub fn missing_server_path(path: &str) -> (r: Failure)
    ensures
        says(r, BAD_REQUEST, "Server path '"@ + path@ + "' does not exist"@),
{
    let mut m = "Server path '".to_string();
    m.append(path);
    m.append("' does not exist");
    err(BAD_REQUEST, m.as_str())
}

/// The id that is asked for a new instance.
pub open spec fn asked_id(req: AddInstanceRequest) -> Seq<char> {
    slug::slug_of(req.id@)
}

/// Checks a request for a new instance, where `path_exists` tells whether its server path is there,
/// and gives the id. The request makes no sense where the id is empty, or where the id is free but
/// the path is missing; it is in conflict where the id is taken.
pub fn check_new_instance(reg: &Registry, req: &AddInstanceRequest, path_exists: bool) -> (r: Result<
    String,
    Failure,
>)
    ensures
        r is Ok <==> asked_id(*req).len() > 0 && !state::known(reg@, asked_id(*req)) && path_exists,
        (r matches Err(f) && f.0 == BAD_REQUEST) <==> asked_id(*req).len() == 0 || (!state::known(
            reg@,
            asked_id(*req),
        ) && !path_exists),
        (r matches Err(f) && f.0 == CONFLICT) <==> asked_id(*req).len() > 0 && state::known(
            reg@,
            asked_id(*req),
        ),
        match r {
            Ok(id) => id@ == asked_id(*req),
            Err(f) => f.1.error@ == (if asked_id(*req).len() == 0 {
                "Invalid instance ID"@
            } else if state::known(reg@, asked_id(*req)) {
                instance::instance_message(asked_id(*req), "already exists"@)
            } else {
                "Server path '"@ + req.server_path@ + "' does not exist"@
            }),
        },
{
    let id = match new_instance_id(reg, req) {
        Ok(id) => id,
        Err(f) => return Err(f),
    };
    if !path_exists {
        return Err(missing_server_path(req.server_path.as_str()));
    }
    Ok(id)
}

/// A text that says something.
pub open spec fn meaningful(s: Option<Seq<char>>) -> Option<Seq<char>> {
    match s {
        Some(t) => if text::blank(t) {
            None
        } else {
            Some(t)
        },
        None => None,
    }
}

/// A text that says something.
pub fn unless_blank(s: &Option<String>) -> (r: Option<String>)
    ensures
        text::opt_view(r) == meaningful(text::opt_view(*s)),
{
    match s {
        Some(t) => if text::is_blank(t.as_str()) {
            None
        } else {
            Some(t.clone())
        },
        None => None,
    }
}

/// Whether settings are those of a new instance.
pub open spec fn settings_for(c: InstanceConfig, req: AddInstanceRequest, id: Seq<char>) -> bool {
    &&& c.instance.name@ == id
    &&& text::opt_view(c.instance.display_name) == Some(req.display_name@)
    &&& c.instance.minecraft_version@ == req.minecraft_version@
    &&& text::opt_view(c.instance.loader) == Some("neoforge"@)
    &&& c.instance.loader_version is None
    &&& c.instance.port == req.port
    &&& c.instance.modrinth_project_id is None
    &&& c.server.path@ == req.server_path@
    &&& c.server.java_opts is None
    &&& text::opt_view(c.server.java_path) == meaningful(text::opt_view(req.java_path))
    &&& config::fresh_backup(c.backup)
    &&& c.restart is None
    &&& c.alerts is None
    &&& c.schedules@.len() == 0
}

/// The settings of a new instance.
pub fn new_instance_settings(req: &AddInstanceRequest, id: &str) -> (r: InstanceConfig)
    ensures
        settings_for(r, *req, id@),
{
    InstanceConfig {
        restart: None,
        instance: InstanceMeta {
            name: id.to_string(),
            display_name: Some(req.display_name.clone()),
            minecraft_version: req.minecraft_version.clone(),
            loader: Some("neoforge".to_string()),
            loader_version: None,
            port: req.port,
            modrinth_project_id: None,
        },
        server: ServerConfig {
            path: req.server_path.clone(),
            java_opts: None,
            java_path: unless_blank(&req.java_path),
        },
        backup: config::new_backup_config(),
        alerts: None,
        schedules: Vec::new(),
    }
}

/// Adds a new instance, and gives what is shown of it.
pub fn add_instance(reg: &mut Registry, id: &str, dir: &str, settings: InstanceConfig) -> (r: InstanceInfo)
    requires
        old(reg).wf(),
    ensures
        final(reg).wf(),
        exists|inst: InstanceModel|
            {
                &&& inst.id == id@
                &&& inst.instance_dir == dir@
                &&& inst.config == settings
                &&& inst.fresh()
                &&& final(reg)@ == #[trigger] state::with_instance(old(reg)@, inst)
                &&& r@ == inst.info()
            },
{
    let inst = InstanceState::new(id, dir, settings);
    let info = InstanceInfo::from(&inst);
    let ghost m = inst@;
    reg.insert(inst);
    assert(reg@ == state::with_instance(old(reg)@, m));
    info
}

// ---------------------------------------------------------------------------
// Backups
// ---------------------------------------------------------------------------

/// To which instance a backup is copied.
#[derive(Debug)]
pub struct CopyBackupRequest {
    pub target_instance_id: String,
}

/// Checks that both instances of a copy are there, and that the name of the backup is plain, and
/// gives the two files.
pub fn copy_backup(reg: &Registry, id: &str, filename: &str, req: &CopyBackupRequest, data: &str) -> (r: Result<
    (String, String),
    Failure,
>)
    ensures
        match r {
            Ok((from, to)) => {
                &&& state::known(reg@, id@)
                &&& state::known(reg@, req.target_instance_id@)
                &&& backup::plain_name(filename@)
                &&& from@ == paths::joined_path(
                    backup::backup_dir_of(data@, id@),
                    filename@,
                )
                &&& to@ == paths::joined_path(
                    backup::backup_dir_of(data@, req.target_instance_id@),
                    filename@,
                )
            },
            Err(f) => if !state::known(reg@, id@) {
                says(f, NOT_FOUND, instance::instance_message(id@, "not found"@))
            } else if !state::known(reg@, req.target_instance_id@) {
                says(
                    f,
                    NOT_FOUND,
                    "Target instance '"@ + req.target_instance_id@ + "' not found"@,
                )
            } else {
                !backup::plain_name(filename@) && says(
                    f,
                    BAD_REQUEST,
                    "Invalid backup filename"@,
                )
            },
        },
{
    if let Err(f) = find_instance(reg, id) {
        return Err(f);
    }
    if !reg.contains(req.target_instance_id.as_str()) {
        let mut m = "Target instance '".to_string();
        m.append(req.target_instance_id.as_str());
        m.append("' not found");
        return Err(err(NOT_FOUND, m.as_str()));
    }
    let from = match backup::backup_path(data, id, filename) {
        Ok(p) => p,
        Err(e) => return Err(err(BAD_REQUEST, e.as_str())),
    };
    let to = match backup::backup_path(data, req.target_instance_id.as_str(), filename) {
        Ok(p) => p,
        Err(e) => return Err(err(BAD_REQUEST, e.as_str())),
    };
    Ok((from, to))
}

/// How a browser is told to put down a backup.
pub fn disposition(filename: &str) -> (r: String)
    ensures
        r@ == "attachment; filename=\""@ + filename@ + "\""@,
{
    let mut m = "attachment; filename=\"".to_string();
    m.append(filename);
    m.append("\"");
    m
}

// ---------------------------------------------------------------------------
// Mods
// ---------------------------------------------------------------------------

/// What has to be known of an instance to manage its mods.
#[derive(Debug)]
pub struct ModContext {
    pub server_path: String,
    pub instance_dir: String,
    pub mc_version: String,
    pub loader: String,
}

/// What has to be known of an instance to manage its mods. NeoForge stands in for a loader that is
/// not set.
pub fn mod_context(reg: &Registry, id: &str) -> (r: Result<ModContext, Failure>)
    ensures
        match r {
            Ok(c) => {
                &&& state::slot(reg@, id@) matches Some(i)
                &&& c.server_path@ == reg@[i].config.server.path@
                &&& c.instance_dir@ == reg@[i].instance_dir
                &&& c.mc_version@ == reg@[i].config.instance.minecraft_version@
                &&& c.loader@ == (match reg@[i].config.instance.loader {
                    Some(l) => l@,
                    None => "neoforge"@,
                })
            },
            Err(f) => !state::known(reg@, id@) && says(
                f,
                NOT_FOUND,
                instance::instance_message(id@, "not found"@),
            ),
        },
{
    match find_instance(reg, id) {
        Ok(inst) => Ok(
            ModContext {
                server_path: inst.config.server.path.clone(),
                instance_dir: inst.instance_dir.clone(),
                mc_version: inst.config.instance.minecraft_version.clone(),
                loader: match &inst.config.instance.loader {
                    Some(l) => l.clone(),
                    None => "neoforge".to_string(),
                },
            },
        ),
        Err(f) => Err(f),
    }
}

/// Where the first update of a project stands.
pub open spec fn update_slot(updates: Seq<Update>, project: Seq<char>) -> Option<int>
    decreases updates.len(),
{
    if updates.len() == 0 {
        None
    } else {
        match update_slot(updates.drop_last(), project) {
            Some(i) => Some(i),
            None => if updates.last().project_id@ == project {
                Some(updates.len() - 1)
            } else {
                None
            },
        }
    }
}

proof fn lemma_update_slot(updates: Seq<Update>, n: int, project: Seq<char>)
    requires
        0 <= n <= updates.len(),
        update_slot(updates.take(n), project) is Some,
    ensures
        update_slot(updates, project) == update_slot(updates.take(n), project),
    decreases updates.len() - n,
{
    if n < updates.len() {
        assert(updates.take(n + 1).drop_last() =~= updates.take(n));
        lemma_update_slot(updates, n + 1, project);
    } else {
        assert(updates.take(n) =~= updates);
    }
}

/// Where the update of a mod stands among those that are offered.
pub fn update_single_mod(updates: &Vec<Update>, project: &str) -> (r: Result<usize, Failure>)
    ensures
        match r {
            Ok(i) => i < updates@.len() && update_slot(updates@, project@) == Some(i as int),
            Err(f) => update_slot(updates@, project@) is None && says(
                f,
                NOT_FOUND,
                "No update available for this mod"@,
            ),
        },
{
    for i in 0..updates.len()
        invariant
            update_slot(updates@.take(i as int), project@) is None,
    {
        assert(updates@.take(i + 1).drop_last() =~= updates@.take(i as int));
        assert(updates@.take(i + 1).last() == updates@[i as int]);
        if text::same(updates[i].project_id.as_str(), project) {
            proof {
                lemma_update_slot(updates@, i + 1, project@);
            }
            return Ok(i);
        }
    }
    assert(updates@.take(updates@.len() as int) =~= updates@);
    Err(err(NOT_FOUND, "No update available for this mod"))
}

/// Begins to install all newer mods of an instance, in the order in which they are offered.
pub fn update_all_mods(lock: ModLock, updates: Vec<Update>) -> (r: BatchStep)
    ensures
        r@ == update_all::next_update(
            modrinth::entry_views(lock.mods@),
            modrinth::update_views(updates@),
        ),
{
    update_all::begin(lock, updates)
}

/// What mods are searched by.
#[derive(Debug)]
pub struct SearchModsQuery {
    pub term: String,
}

/// Which mod is added.
#[derive(Debug)]
pub struct AddModRequest {
    pub project_id: String,
    pub version_id: String,
}

// ---------------------------------------------------------------------------
// Versions and modpacks
// ---------------------------------------------------------------------------

/// To which version a server is brought.
#[derive(Debug)]
pub struct UpdateVersionRequest {
    pub neoforge_version: String,
}

/// Checks a request to bring a server to another version.
pub fn update_server_version(reg: &Registry, id: &str, req: &UpdateVersionRequest) -> (r: Result<
    u16,
    Failure,
>)
    ensures
        match r {
            Ok(code) => code == ACCEPTED && !text::blank(req.neoforge_version@) && state::known(
                reg@,
                id@,
            ),
            Err(f) => if text::blank(req.neoforge_version@) {
                says(f, BAD_REQUEST, "neoforge_version is required"@)
            } else {
                !state::known(reg@, id@) && says(
                    f,
                    NOT_FOUND,
                    instance::instance_message(id@, "not found"@),
                )
            },
        },
{
    if text::is_blank(req.neoforge_version.as_str()) {
        return Err(err(BAD_REQUEST, "neoforge_version is required"));
    }
    match find_instance(reg, id) {
        Ok(_) => Ok(ACCEPTED),
        Err(f) => Err(f),
    }
}

/// What a new server is made from.
#[derive(Debug)]
pub struct InstallRequest {
    pub version: String,
    pub server_path: String,
}

/// Checks a request for a new server.
pub fn install_neoforge(req: &InstallRequest) -> (r: Result<u16, Failure>)
    ensures
        match r {
            Ok(code) => code == ACCEPTED && !text::blank(req.version@) && !text::blank(
                req.server_path@,
            ),
            Err(f) => (text::blank(req.version@) || text::blank(req.server_path@)) && says(
                f,
                BAD_REQUEST,
                "version and server_path are required"@,
            ),
        },
{
    if text::is_blank(req.version.as_str()) || text::is_blank(req.server_path.as_str()) {
        return Err(err(BAD_REQUEST, "version and server_path are required"));
    }
    Ok(ACCEPTED)
}

/// What is asked of an import of a modpack of Modrinth.
#[derive(Debug)]
pub struct ImportModpackRequest {
    pub version_id: String,
    pub server_path: String,
    pub instance_name: String,
    pub port: u16,
}

/// Checks a request to import a modpack of Modrinth.
pub fn import_modpack(req: ImportModpackRequest) -> (r: Result<modpack::ImportRequest, Failure>)
    ensures
        match r {
            Ok(q) => {
                &&& !text::blank(req.version_id@)
                &&& !text::blank(req.instance_name@)
                &&& q.version_id == req.version_id
                &&& q.server_path == req.server_path
                &&& q.instance_name == req.instance_name
                &&& q.port == req.port
            },
            Err(f) => (text::blank(req.version_id@) || text::blank(req.instance_name@)) && says(
                f,
                BAD_REQUEST,
                "version_id and instance_name are required"@,
            ),
        },
{
    if text::is_blank(req.version_id.as_str()) || text::is_blank(req.instance_name.as_str()) {
        return Err(err(BAD_REQUEST, "version_id and instance_name are required"));
    }
    Ok(
        modpack::ImportRequest {
            version_id: req.version_id,
            server_path: req.server_path,
            instance_name: req.instance_name,
            port: req.port,
        },
    )
}

/// What is asked of an import of a modpack of FTB.
#[derive(Debug)]
pub struct FtbImportRequest {
    pub pack_id: u64,
    pub version_id: u64,
    pub server_path: String,
    pub instance_name: String,
    pub port: u16,
}

/// Checks a request to import a modpack of FTB.
pub fn import_ftb_pack(req: FtbImportRequest) -> (r: Result<ftb::FtbImportRequest, Failure>)
    ensures
        match r {
            Ok(q) => {
                &&& !text::blank(req.instance_name@)
                &&& q.pack_id == req.pack_id
                &&& q.version_id == req.version_id
                &&& q.server_path == req.server_path
                &&& q.instance_name == req.instance_name
                &&& q.port == req.port
            },
            Err(f) => text::blank(req.instance_name@) && says(
                f,
                BAD_REQUEST,
                "instance_name is required"@,
            ),
        },
{
    if text::is_blank(req.instance_name.as_str()) {
        return Err(err(BAD_REQUEST, "instance_name is required"));
    }
    Ok(
        ftb::FtbImportRequest {
            pack_id: req.pack_id,
            version_id: req.version_id,
            server_path: req.server_path,
            instance_name: req.instance_name,
            port: req.port,
        },
    )
}

/// How a search of FTB names a pack: by its number, by an object that may hold one, or by something
/// else.
#[derive(Debug, Clone, Copy, PartialEq, Eq, Structural)]
pub enum PackRef {
    Number(u64),
    Object(Option<u64>),
    Other,
}

/// The number of a pack.
pub open spec fn pack_number(p: PackRef) -> Option<u64> {
    match p {
        PackRef::Number(n) => Some(n),
        PackRef::Object(n) => n,
        PackRef::Other => None,
    }
}

/// The numbers of packs that have one.
pub open spec fn pack_numbers(packs: Seq<PackRef>) -> Seq<u64>
    decreases packs.len(),
{
    if packs.len() == 0 {
        Seq::empty()
    } else {
        let front = pack_numbers(packs.drop_last());
        match pack_number(packs.last()) {
            Some(n) => front.push(n),
            None => front,
        }
    }
}

/// How many packs a search shows at most.
pub const PACK_LIMIT: usize = 12;

/// The numbers of the packs that a search shows: the first twelve that have one.
pub fn ftb_search(packs: &Vec<PackRef>) -> (r: Vec<u64>)
    ensures
        r@ == (if pack_numbers(packs@).len() <= PACK_LIMIT {
            pack_numbers(packs@)
        } else {
            pack_numbers(packs@).take(PACK_LIMIT as int)
        }),
{
    let mut r: Vec<u64> = Vec::new();
    let n: usize = packs.len();
    let mut i: usize = 0;
    while i < n && r.len() < PACK_LIMIT
        invariant
            i <= n,
            n == packs@.len(),
            r@.len() <= PACK_LIMIT,
            r@ == pack_numbers(packs@.take(i as int)),
        decreases n - i,
    {
        assert(packs@.take(i + 1).drop_last() =~= packs@.take(i as int));
        assert(packs@.take(i + 1).last() == packs@[i as int]);
        match packs[i] {
            PackRef::Number(k) => {
                r.push(k);
            },
            PackRef::Object(Some(k)) => {
                r.push(k);
            },
            _ => {},
        }
        i += 1;
    }
    proof {
        lemma_numbers_grow(packs@, i as int);
        assert(packs@.take(n as int) =~= packs@);
        if r@.len() == PACK_LIMIT {
            assert(r@ =~= pack_numbers(packs@).take(PACK_LIMIT as int));
            if pack_numbers(packs@).len() == PACK_LIMIT {
                assert(pack_numbers(packs@).take(PACK_LIMIT as int) =~= pack_numbers(packs@));
            }
        }
    }
    r
}

proof fn lemma_numbers_grow(packs: Seq<PackRef>, n: int)
    requires
        0 <= n <= packs.len(),
    ensures
        pack_numbers(packs.take(n)).len() <= pack_numbers(packs).len(),
        pack_numbers(packs).take(pack_numbers(packs.take(n)).len() as int) == pack_numbers(
            packs.take(n),
        ),
    decreases packs.len(),
{
    let part = pack_numbers(packs.take(n));
    if n < packs.len() {
        let front = packs.drop_last();
        lemma_numbers_grow(front, n);
        assert(front.take(n) =~= packs.take(n));
        assert(pack_numbers(packs).take(part.len() as int) =~= pack_numbers(front).take(
            part.len() as int,
        ));
    } else {
        assert(packs.take(n) =~= packs);
        assert(part.take(part.len() as int) =~= part);
    }
}

// ---------------------------------------------------------------------------
// Settings
// ---------------------------------------------------------------------------

/// Which Java an instance is run with.
#[derive(Debug)]
pub struct JavaConfigRequest {
    pub java_path: Option<String>,
}

/// Sets the Java that an instance is run with, and gives the folder of its settings. A blank path
/// stands for none.
pub fn set_java_config(reg: &mut Registry, id: &str, req: &JavaConfigRequest) -> (r: Result<
    String,
    Failure,
>)
    requires
        old(reg).wf(),
    ensures
        final(reg).wf(),
        match r {
            Ok(dir) => {
                &&& state::slot(old(reg)@, id@) matches Some(i)
                &&& dir@ == old(reg)@[i].instance_dir
                &&& final(reg)@ == old(reg)@.update(i, final(reg)@[i])
                &&& final(reg)@[i] == (InstanceModel {
                    config: InstanceConfig {
                        server: ServerConfig {
                            java_path: final(reg)@[i].config.server.java_path,
                            ..old(reg)@[i].config.server
                        },
                        ..old(reg)@[i].config
                    },
                    ..old(reg)@[i]
                })
                &&& text::opt_view(final(reg)@[i].config.server.java_path) == meaningful(
                    text::opt_view(req.java_path),
                )
            },
            Err(f) => !state::known(old(reg)@, id@) && final(reg)@ == old(reg)@ && says(
                f,
                NOT_FOUND,
                instance::instance_message(id@, "not found"@),
            ),
        },
{
    let ghost before = reg@;
    match reg.find(id) {
        Some(i) => {
            reg.list[i].config.server.java_path = unless_blank(&req.java_path);
            assert(reg@ =~= before.update(i as int, reg@[i as int]));
            Ok(reg.list[i].instance_dir.clone())
        },
        None => {
            let m = instance::message(id, "not found");
            Err(err(NOT_FOUND, m.as_str()))
        },
    }
}

/// How an instance is restarted.
#[derive(Debug)]
pub struct RestartConfigRequest {
    pub auto_restart: bool,
    pub max_attempts: u32,
    pub delay_secs: u64,
    pub schedule: Option<String>,
    pub warning_secs: u64,
}

/// Whether settings of restarts are those that were asked for. A blank schedule stands for none.
pub open spec fn restart_set(c: Option<RestartConfig>, req: RestartConfigRequest) -> bool {
    &&& c matches Some(r)
    &&& r.auto_restart == req.auto_restart
    &&& r.max_attempts == req.max_attempts
    &&& r.delay_secs == req.delay_secs
    &&& text::opt_view(r.schedule) == meaningful(text::opt_view(req.schedule))
    &&& r.warning_secs == req.warning_secs
}

/// Sets how an instance is restarted, and gives the folder of its settings.
pub fn update_restart_config(reg: &mut Registry, id: &str, req: &RestartConfigRequest) -> (r: Result<
    String,
    Failure,
>)
    requires
        old(reg).wf(),
    ensures
        final(reg).wf(),
        match r {
            Ok(dir) => {
                &&& state::slot(old(reg)@, id@) matches Some(i)
                &&& dir@ == old(reg)@[i].instance_dir
                &&& final(reg)@ == old(reg)@.update(i, final(reg)@[i])
                &&& final(reg)@[i] == (InstanceModel {
                    config: InstanceConfig {
                        restart: final(reg)@[i].config.restart,
                        ..old(reg)@[i].config
                    },
                    ..old(reg)@[i]
                })
                &&& restart_set(final(reg)@[i].config.restart, *req)
            },
            Err(f) => !state::known(old(reg)@, id@) && final(reg)@ == old(reg)@ && says(
                f,
                NOT_FOUND,
                instance::instance_message(id@, "not found"@),
            ),
        },
{
    let ghost before = reg@;
    match reg.find(id) {
        Some(i) => {
            let settings = RestartConfig {
                auto_restart: req.auto_restart,
                max_attempts: req.max_attempts,
                delay_secs: req.delay_secs,
                schedule: unless_blank(&req.schedule),
                warning_secs: req.warning_secs,
            };
            reg.list[i].config.restart = Some(settings);
            assert(reg@ =~= before.update(i as int, reg@[i as int]));
            Ok(reg.list[i].instance_dir.clone())
        },
        None => {
            let m = instance::message(id, "not found");
            Err(err(NOT_FOUND, m.as_str()))
        },
    }
}

// ---------------------------------------------------------------------------
// Whitelist and bans
// ---------------------------------------------------------------------------

/// Who is put on the whitelist.
#[derive(Debug)]
pub struct AddWhitelistRequest {
    pub username: String,
}

/// Who is banned, and why.
#[derive(Debug)]
pub struct BanPlayerRequest {
    pub username: String,
    pub reason: String,
}

/// Which address is banned, and why.
#[derive(Debug)]
pub struct BanIpRequest {
    pub ip: String,
    pub reason: String,
}

/// What was typed, without white space around it; it must not be empty. `what` names it.
pub fn required_text(typed: &str, what: &str) -> (r: Result<String, Failure>)
    ensures
        match r {
            Ok(t) => t@ == text::trimmed(typed@) && t@.len() > 0,
            Err(f) => text::trimmed(typed@).len() == 0 && says(
                f,
                BAD_REQUEST,
                what@ + " is required"@,
            ),
        },
{
    let t = text::trim(typed);
    if t.as_str().is_empty() {
        let mut m = what.to_string();
        m.append(" is required");
        return Err(err(BAD_REQUEST, m.as_str()));
    }
    Ok(t)
}

} // verus!
