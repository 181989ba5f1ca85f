//! Settings of the manager and of its instances, and what can be told of a server from its files.

use crate::paths;
use crate::properties;
use crate::state::InstanceState;
use crate::text;
use vstd::prelude::*;

verus! {

/// The settings of the manager.
#[derive(Debug, Clone)]
pub struct GlobalConfig {
    pub discord: Option<DiscordConfig>,
    pub web: Option<WebConfig>,
}

impl Default for GlobalConfig {
    fn default() -> (r: Self)
        ensures
            r.discord is None,
            r.web is None,
    {
        GlobalConfig { discord: None, web: None }
    }
}

/// How to reach Discord.
#[derive(Debug, Clone)]
pub struct DiscordConfig {
    pub token: String,
    pub guild_id: u64,
    pub channel_id: u64,
    pub notify: DiscordNotifyConfig,
}

/// Which events are posted to Discord.
#[derive(Debug, Clone, Copy)]
pub struct DiscordNotifyConfig {
    pub server_started: bool,
    pub server_stopped: bool,
    pub server_crashed: bool,
    pub backup_done: bool,
    pub backup_failed: bool,
    pub health_alerts: bool,
}

impl Default for DiscordNotifyConfig {
    fn default() -> (r: Self)
        ensures
            r.server_started && r.server_stopped && r.server_crashed,
            r.backup_done && r.backup_failed && r.health_alerts,
    {
        DiscordNotifyConfig {
            server_started: true,
            server_stopped: true,
            server_crashed: true,
            backup_done: true,
            backup_failed: true,
            health_alerts: true,
        }
    }
}

/// Where the dashboard is served.
#[derive(Debug, Clone, Copy)]
pub struct WebConfig {
    pub port: Option<u16>,
}

/// The settings of an instance.
#[derive(Debug, Clone)]
pub struct InstanceConfig {
    pub instance: InstanceMeta,
    pub server: ServerConfig,
    pub backup: Option<BackupConfig>,
    pub restart: Option<RestartConfig>,
    pub alerts: Option<AlertConfig>,
    pub schedules: Vec<ScheduleEntry>,
}

/// When an instance counts as unhealthy. The lowest tick rate is kept by the bits of its
/// single-precision representation.
#[derive(Debug, Clone, Copy)]
pub struct AlertConfig {
    pub enabled: bool,
    pub tps_min_bits: u32,
    pub tps_consecutive: u32,
    pub ram_pct_max: u32,
    pub max_ram_mb: u64,
}

impl Default for AlertConfig {
    fn default() -> (r: Self)
        ensures
            !r.enabled,
            r.tps_min_bits == 0,
            r.tps_consecutive == 0,
            r.ram_pct_max == 0,
            r.max_ram_mb == 0,
    {
        AlertConfig {
            enabled: false,
            tps_min_bits: 0,
            tps_consecutive: 0,
            ram_pct_max: 0,
            max_ram_mb: 0,
        }
    }
}

/// A console command that is sent again and again.
#[derive(Debug, Clone)]
pub struct ScheduleEntry {
    pub name: String,
    pub interval_secs: u64,
    pub command: String,
    pub enabled: bool,
}

/// How an instance is restarted.
#[derive(Debug, Clone)]
pub struct RestartConfig {
    pub auto_restart: bool,
    pub max_attempts: u32,
    pub delay_secs: u64,
    pub schedule: Option<String>,
    pub warning_secs: u64,
}

impl Default for RestartConfig {
    fn default() -> (r: Self)
        ensures
            !r.auto_restart,
            r.max_attempts == 0,
            r.delay_secs == 0,
            r.schedule is None,
            r.warning_secs == 0,
    {
        RestartConfig {
            auto_restart: false,
            max_attempts: 0,
            delay_secs: 0,
            schedule: None,
            warning_secs: 0,
        }
    }
}

/// What an instance is.
#[derive(Debug, Clone)]
pub struct InstanceMeta {
    pub name: String,
    pub display_name: Option<String>,
    pub minecraft_version: String,
    pub loader: Option<String>,
    pub loader_version: Option<String>,
    pub port: u16,
    pub modrinth_project_id: Option<String>,
}

/// Where the files of a server lie and which Java runs it.
#[derive(Debug, Clone)]
pub struct ServerConfig {
    pub path: String,
    pub java_opts: Option<String>,
    pub java_path: Option<String>,
}

/// How an instance is backed up.
#[derive(Debug, Clone)]
pub struct BackupConfig {
    pub enabled: bool,
    pub schedule: Option<String>,
    pub keep_count: usize,
    pub world_only: bool,
}

// ---------------------------------------------------------------------------
// Defaults
// ---------------------------------------------------------------------------

/// The bits of 15.0, the lowest tick rate where none is set.
pub fn default_tps_min_bits() -> (r: u32)
    ensures
        r == 0x41700000,
{
    0x41700000
}

/// How many low readings in a row count where no number is set.
pub fn default_tps_consecutive() -> (r: u32)
    ensures
        r == 3,
{
    3
}

/// The highest share of memory in per cent where none is set.
pub fn default_ram_pct_max() -> (r: u32)
    ensures
        r == 90,
{
    90
}

/// What a switch is set to where nothing is said.
pub fn default_true() -> (r: bool)
    ensures
        r,
{
    true
}

/// How often a crashed server is started again where no number is set.
pub fn default_max_attempts() -> (r: u32)
    ensures
        r == 3,
{
    3
}

/// How long to wait before a crashed server is started again where no time is set.
pub fn default_delay_secs() -> (r: u64)
    ensures
        r == 10,
{
    10
}

/// How long before a restart players are warned where no time is set.
pub fn default_warning_secs() -> (r: u64)
    ensures
        r == 300,
{
    300
}

/// The port of the dashboard where none is set.
pub const DEFAULT_WEB_PORT: u16 = 7331;

/// The port of the dashboard.
pub fn web_port(config: &GlobalConfig) -> (r: u16)
    ensures
        r == (match config.web {
            Some(w) => match w.port {
                Some(p) => p,
                None => DEFAULT_WEB_PORT,
            },
            None => DEFAULT_WEB_PORT,
        }),
{
    match &config.web {
        Some(w) => match w.port {
            Some(p) => p,
            None => DEFAULT_WEB_PORT,
        },
        None => DEFAULT_WEB_PORT,
    }
}

/// The settings of backups that a new instance gets.
pub open spec fn fresh_backup(b: Option<BackupConfig>) -> bool {
    b matches Some(c) && !c.enabled && c.schedule is None && c.keep_count == 10 && !c.world_only
}

/// The settings of backups that a new instance gets.
pub fn new_backup_config() -> (r: Option<BackupConfig>)
    ensures
        fresh_backup(r),
{
    Some(BackupConfig { enabled: false, schedule: None, keep_count: 10, world_only: false })
}

// ---------------------------------------------------------------------------
// Folders
// ---------------------------------------------------------------------------

/// `dirs::data_local_dir`: the folder for data of the user who runs the manager, where the
/// environment tells one. It depends on the environment, so nothing is claimed of it.
#[verifier::external_body]
fn local_data_dir() -> (r: Option<String>) {
    dirs::data_local_dir().map(|p| p.to_string_lossy().into_owned())
}

/// The folder that holds all data of the manager, in a folder for data of the user.
pub open spec fn data_dir_in(base: Seq<char>) -> Seq<char> {
    paths::joined_path(base, "msm"@)
}

/// The folder that holds all data of the manager.
pub fn data_dir() -> (r: String)
    ensures
        exists|base: Seq<char>| r@ == data_dir_in(base),
{
    let base = local_data_dir();
    data_dir_from(base)
}

/// The folder that holds all data of the manager, where `base` is the folder for data of the
/// user; the current folder stands in for it where there is none.
pub fn data_dir_from(base: Option<String>) -> (r: String)
    ensures
        r@ == data_dir_in(
            match base {
                Some(b) => b@,
                None => "."@,
            },
        ),
{
    match base {
        Some(b) => paths::join(b.as_str(), "msm"),
        None => paths::join(".", "msm"),
    }
}

/// A folder of `data`, and in it one for an instance.
pub open spec fn folder_of(data: Seq<char>, kind: Seq<char>, id: Seq<char>) -> Seq<char> {
    paths::joined_path(paths::joined_path(data, kind), id)
}

/// A folder of `data`, and in it one for an instance.
pub fn folder(data: &str, kind: &str, id: &str) -> (r: String)
    ensures
        r@ == folder_of(data@, kind@, id@),
{
    let k = paths::join(data, kind);
    paths::join(k.as_str(), id)
}

// ---------------------------------------------------------------------------
// What run.sh tells
// ---------------------------------------------------------------------------

/// A mod loader and the version of the game it is for.
#[derive(Debug)]
pub struct LoaderInfo {
    pub minecraft_version: String,
    pub loader: String,
    pub loader_version: Option<String>,
}

/// The view of a loader.
pub struct LoaderModel {
    pub minecraft_version: Seq<char>,
    pub loader: Seq<char>,
    pub loader_version: Option<Seq<char>>,
}

impl View for LoaderInfo {
    type V = LoaderModel;

    open spec fn view(&self) -> LoaderModel {
        LoaderModel {
            minecraft_version: self.minecraft_version@,
            loader: self.loader@,
            loader_version: text::opt_view(self.loader_version),
        }
    }
}

/// What a search for one loader comes to.
pub enum Search<T> {
    /// The loader is not mentioned.
    Absent,
    /// It is mentioned, but its version cannot be told.
    Unclear,
    Found(T),
}

/// What follows the first place where `mark` stands.
pub open spec fn behind(s: Seq<char>, mark: Seq<char>) -> Option<Seq<char>> {
    match text::first(s, mark) {
        Some(i) => Some(s.skip(i + mark.len())),
        None => None,
    }
}

/// What stands before the first slash.
pub open spec fn up_to_slash(s: Seq<char>) -> Seq<char> {
    text::pieces(s, '/', '/')[0]
}

/// The version of the game from the first two numbers of a NeoForge version: the second is left
/// out where it is zero.
pub open spec fn game_version(major: Seq<char>, minor: Seq<char>, zero: bool) -> Seq<char> {
    if zero {
        "1."@ + major
    } else {
        "1."@ + major + "."@ + minor
    }
}

/// NeoForge, mentioned by a path like `/neoforged/neoforge/21.1.172/`.
pub open spec fn neoforge_in(run_sh: Seq<char>) -> Search<LoaderModel> {
    match behind(run_sh, "/neoforged/neoforge/"@) {
        None => Search::Absent,
        Some(after) => {
            let version = up_to_slash(after);
            let parts = text::pieces(version, '.', '.');
            if parts.len() < 2 {
                Search::Absent
            } else {
                match text::uint(parts[1], u32::MAX as nat) {
                    None => Search::Unclear,
                    Some(minor) => Search::Found(
                        LoaderModel {
                            minecraft_version: game_version(parts[0], parts[1], minor == 0),
                            loader: "neoforge"@,
                            loader_version: Some(version),
                        },
                    ),
                }
            }
        },
    }
}

/// Forge, mentioned by a path like `/net/minecraftforge/forge/1.20.1-47.3.0/`.
pub open spec fn forge_in(run_sh: Seq<char>) -> Search<LoaderModel> {
    match behind(run_sh, "/net/minecraftforge/forge/"@) {
        None => Search::Absent,
        Some(after) => match text::halves(up_to_slash(after), "-"@) {
            None => Search::Unclear,
            Some((game, forge)) => Search::Found(
                LoaderModel {
                    minecraft_version: game,
                    loader: "forge"@,
                    loader_version: Some(forge),
                },
            ),
        },
    }
}

/// Fabric, mentioned by a file like `fabric-server-mc.1.20.1-loader.0.15.0-launcher.1.0.0.jar`.
pub open spec fn fabric_in(run_sh: Seq<char>) -> Search<LoaderModel> {
    match behind(run_sh, "fabric-server-mc."@) {
        None => Search::Absent,
        Some(after) => match text::halves(after, "-loader."@) {
            None => Search::Unclear,
            Some((game, rest)) => Search::Found(
                LoaderModel {
                    minecraft_version: game,
                    loader: "fabric"@,
                    loader_version: Some(text::pieces(rest, '-', '-')[0]),
                },
            ),
        },
    }
}

/// The loader that a start script mentions: NeoForge before Forge before Fabric.
pub open spec fn loader_in(run_sh: Seq<char>) -> Option<LoaderModel> {
    match neoforge_in(run_sh) {
        Search::Found(m) => Some(m),
        Search::Unclear => None,
        Search::Absent => match forge_in(run_sh) {
            Search::Found(m) => Some(m),
            Search::Unclear => None,
            Search::Absent => match fabric_in(run_sh) {
                Search::Found(m) => Some(m),
                Search::Unclear => None,
                Search::Absent => if text::has(run_sh, "fabric-server-launch.jar"@) {
                    Some(
                        LoaderModel {
                            minecraft_version: "unknown"@,
                            loader: "fabric"@,
                            loader_version: None,
                        },
                    )
                } else {
                    None
                },
            },
        },
    }
}

/// The view of an optional loader.
pub open spec fn opt_loader(l: Option<LoaderInfo>) -> Option<LoaderModel> {
    match l {
        Some(i) => Some(i@),
        None => None,
    }
}

spec fn search_view(l: Search<LoaderInfo>) -> Search<LoaderModel> {
    match l {
        Search::Absent => Search::Absent,
        Search::Unclear => Search::Unclear,
        Search::Found(i) => Search::Found(i@),
    }
}

/// What follows the first place where `mark` stands.
fn text_behind(s: &str, mark: &str) -> (r: Option<String>)
    ensures
        text::opt_view(r) == behind(s@, mark@),
{
    match text::split_once(s, mark) {
        Some((_, b)) => Some(b),
        None => None,
    }
}

/// The version of the game from the first two numbers of a NeoForge version.
pub fn game_version_of(major: &str, minor: &str, zero: bool) -> (r: String)
    ensures
        r@ == game_version(major@, minor@, zero),
{
    let mut r = "1.".to_string();
    r.append(major);
    if !zero {
        r.append(".");
        r.append(minor);
    }
    r
}

fn find_neoforge(run_sh: &str) -> (r: Search<LoaderInfo>)
    ensures
        search_view(r) == neoforge_in(run_sh@),
{
    let after = match text_behind(run_sh, "/neoforged/neoforge/") {
        Some(a) => a,
        None => return Search::Absent,
    };
    let first = text::split(after.as_str(), '/', '/');
    let version = first[0].clone();
    assert(text::views(first@)[0] == version@);
    let parts = text::split(version.as_str(), '.', '.');
    let ghost ps = text::views(parts@);
    if parts.len() < 2 {
        return Search::Absent;
    }
    assert(ps[0] == parts[0]@ && ps[1] == parts[1]@);
    match text::parse_uint(parts[1].as_str(), u32::MAX as u64) {
        Some(minor) => Search::Found(
            LoaderInfo {
                minecraft_version: game_version_of(
                    parts[0].as_str(),
                    parts[1].as_str(),
                    minor == 0,
                ),
                loader: "neoforge".to_string(),
                loader_version: Some(version),
            },
        ),
        None => Search::Unclear,
    }
}

fn find_forge(run_sh: &str) -> (r: Search<LoaderInfo>)
    ensures
        search_view(r) == forge_in(run_sh@),
{
    let after = match text_behind(run_sh, "/net/minecraftforge/forge/") {
        Some(a) => a,
        None => return Search::Absent,
    };
    let first = text::split(after.as_str(), '/', '/');
    assert(text::views(first@)[0] == first[0]@);
    match text::split_once(first[0].as_str(), "-") {
        Some((game, forge)) => Search::Found(
            LoaderInfo {
                minecraft_version: game,
                loader: "forge".to_string(),
                loader_version: Some(forge),
            },
        ),
        None => Search::Unclear,
    }
}

fn find_fabric(run_sh: &str) -> (r: Search<LoaderInfo>)
    ensures
        search_view(r) == fabric_in(run_sh@),
{
    let after = match text_behind(run_sh, "fabric-server-mc.") {
        Some(a) => a,
        None => return Search::Absent,
    };
    match text::split_once(after.as_str(), "-loader.") {
        Some((game, rest)) => {
            let parts = text::split(rest.as_str(), '-', '-');
            assert(text::views(parts@)[0] == parts[0]@);
            Search::Found(
                LoaderInfo {
                    minecraft_version: game,
                    loader: "fabric".to_string(),
                    loader_version: Some(parts[0].clone()),
                },
            )
        },
        None => Search::Unclear,
    }
}

/// The version of the game, the loader and its version, as the start script tells them. NeoForge,
/// Forge and Fabric are known.
pub fn detect_loader_info(run_sh: &str) -> (r: Option<LoaderInfo>)
    ensures
        opt_loader(r) == loader_in(run_sh@),
{
    match find_neoforge(run_sh) {
        Search::Found(i) => return Some(i),
        Search::Unclear => return None,
        Search::Absent => {},
    }
    match find_forge(run_sh) {
        Search::Found(i) => return Some(i),
        Search::Unclear => return None,
        Search::Absent => {},
    }
    match find_fabric(run_sh) {
        Search::Found(i) => return Some(i),
        Search::Unclear => return None,
        Search::Absent => {},
    }
    if text::contains(run_sh, "fabric-server-launch.jar") {
        Some(
            LoaderInfo {
                minecraft_version: "unknown".to_string(),
                loader: "fabric".to_string(),
                loader_version: None,
            },
        )
    } else {
        None
    }
}

// ---------------------------------------------------------------------------
// Settings for a folder that has none
// ---------------------------------------------------------------------------

/// Whether `c` is what can be told of the server in `dir`: its name from the folder, its port from
/// `server.properties`, its loader from `run.sh`.
pub open spec fn told_by_files(
    c: InstanceConfig,
    dir: Seq<char>,
    properties_file: Option<Seq<char>>,
    run_sh: Option<Seq<char>>,
) -> bool {
    let port = match properties_file {
        Some(p) => match properties::port_in(text::line_seq(p)) {
            Some(n) => n,
            None => 25565,
        },
        None => 25565,
    };
    let loader = match run_sh {
        Some(s) => loader_in(s),
        None => None,
    };
    &&& Some(c.instance.name@) == paths::name_of(dir)
    &&& c.instance.display_name is None
    &&& c.instance.port == port
    &&& c.instance.modrinth_project_id is None
    &&& c.server.path@ == dir
    &&& c.server.java_opts is None
    &&& c.server.java_path is None
    &&& fresh_backup(c.backup)
    &&& c.restart is None
    &&& c.alerts is None
    &&& c.schedules@.len() == 0
    &&& match loader {
        Some(l) => {
            &&& c.instance.minecraft_version@ == l.minecraft_version
            &&& text::opt_view(c.instance.loader) == Some(l.loader)
            &&& text::opt_view(c.instance.loader_version) == l.loader_version
        },
        None => {
            &&& c.instance.minecraft_version@ == "unknown"@
            &&& c.instance.loader is None
            &&& c.instance.loader_version is None
        },
    }
}

/// The view of an optional string slice.
pub open spec fn opt_str(s: Option<&str>) -> Option<Seq<char>> {
    match s {
        Some(t) => Some(t@),
        None => None,
    }
}

/// Settings for a folder without any, where it holds a start script.
pub fn auto_detect_config(
    dir: &str,
    has_run_sh: bool,
    properties_file: Option<&str>,
    run_sh: Option<&str>,
) -> (r: Option<InstanceConfig>)
    ensures
        match r {
            Some(c) => has_run_sh && told_by_files(c, dir@, opt_str(properties_file), opt_str(run_sh)),
            None => !has_run_sh || paths::name_of(dir@) is None,
        },
{
    if !has_run_sh {
        return None;
    }
    let id = match paths::file_name(dir) {
        Some(n) => n,
        None => return None,
    };
    let port: u16 = match properties_file {
        Some(p) => match properties::read_port(p) {
            Some(n) => n,
            None => 25565,
        },
        None => 25565,
    };
    let info = match run_sh {
        Some(s) => detect_loader_info(s),
        None => None,
    };
    let (minecraft_version, loader, loader_version) = match info {
        Some(i) => (i.minecraft_version, Some(i.loader), i.loader_version),
        None => ("unknown".to_string(), None, None),
    };
    Some(
        InstanceConfig {
            restart: None,
            instance: InstanceMeta {
                name: id,
                display_name: None,
                minecraft_version,
                loader,
                loader_version,
                port,
                modrinth_project_id: None,
            },
            server: ServerConfig { path: dir.to_string(), java_opts: None, java_path: None },
            backup: new_backup_config(),
            alerts: None,
            schedules: Vec::new(),
        },
    )
}

/// What was found of the settings of a folder.
#[derive(Debug)]
pub enum SettingsFile {
    /// There is no file with settings.
    Missing,
    /// There is one, but it cannot be read, or it does not hold settings.
    Bad,
    Read(InstanceConfig),
}

/// The settings of a folder, and whether they were made and are to be written.
#[derive(Debug)]
pub struct ChosenSettings {
    pub settings: InstanceConfig,
    pub generated: bool,
}

/// The settings of a folder. Those that were read go before everything else, and a bad file gives
/// none; only where there is no file are they made from the files of a server.
pub fn choose_settings(
    dir: &str,
    found: SettingsFile,
    has_run_sh: bool,
    properties_file: Option<&str>,
    run_sh: Option<&str>,
) -> (r: Option<ChosenSettings>)
    ensures
        match found {
            SettingsFile::Read(c) => r == Some(ChosenSettings { settings: c, generated: false }),
            SettingsFile::Bad => r is None,
            SettingsFile::Missing => match r {
                Some(c) => has_run_sh && c.generated && told_by_files(
                    c.settings,
                    dir@,
                    opt_str(properties_file),
                    opt_str(run_sh),
                ),
                None => !has_run_sh || paths::name_of(dir@) is None,
            },
        },
{
    match found {
        SettingsFile::Read(settings) => Some(ChosenSettings { settings, generated: false }),
        SettingsFile::Bad => None,
        SettingsFile::Missing => match auto_detect_config(
            dir,
            has_run_sh,
            properties_file,
            run_sh,
        ) {
            Some(settings) => Some(ChosenSettings { settings, generated: true }),
            None => None,
        },
    }
}

// ---------------------------------------------------------------------------
// The folder of the server
// ---------------------------------------------------------------------------

/// The folder of a server whose settings stand in `dir`: a relative path is taken from there.
pub fn resolve_server_path(dir: &str, path: &str) -> (r: String)
    ensures
        r@ == paths::joined_path(dir@, path@),
{
    paths::join(dir, path)
}

/// The instance whose settings stand in a folder: its id is the name of the folder, and a relative
/// server path is taken from there.
pub fn load_instance_dir(dir: &str, settings: InstanceConfig) -> (r: Option<InstanceState>)
    ensures
        match r {
            Some(inst) => {
                &&& paths::name_of(dir@) == Some(inst@.id)
                &&& inst@.instance_dir == dir@
                &&& inst@.fresh()
                &&& inst@.wf()
                &&& inst.config.server.path@ == paths::joined_path(dir@, settings.server.path@)
                &&& inst.config == (InstanceConfig {
                    server: ServerConfig {
                        path: inst.config.server.path,
                        ..settings.server
                    },
                    ..settings
                })
            },
            None => paths::name_of(dir@) is None,
        },
{
    let id = match paths::file_name(dir) {
        Some(n) => n,
        None => return None,
    };
    let mut resolved = settings;
    let path = resolve_server_path(dir, resolved.server.path.as_str());
    resolved.server.path = path;
    Some(InstanceState::new(id.as_str(), dir, resolved))
}

/// Where the files of a server are to be moved: a server that shares the folder of its settings
/// moves to a folder of its own under `servers`.
pub open spec fn migration_of(
    instance_dir: Seq<char>,
    server_path: Seq<char>,
    data: Seq<char>,
) -> Option<Seq<char>> {
    if !paths::equal(server_path, instance_dir) {
        None
    } else {
        match paths::name_of(instance_dir) {
            Some(id) => Some(folder_of(data, "servers"@, id)),
            None => None,
        }
    }
}

/// Where the files of a server are to be moved, if they are to be moved at all.
pub fn migration_target(instance_dir: &str, server_path: &str, data: &str) -> (r: Option<String>)
    ensures
        text::opt_view(r) == migration_of(instance_dir@, server_path@, data@),
{
    if !paths::same_path(server_path, instance_dir) {
        return None;
    }
    match paths::file_name(instance_dir) {
        Some(id) => Some(folder(data, "servers", id.as_str())),
        None => None,
    }
}

/// Whether a file moves along with the server: what the manager keeps beside its settings does not.
pub open spec fn moves(name: Seq<char>) -> bool {
    name != "msm.toml"@ && name != "mods.lock.toml"@ && name != "datapacks.lock.toml"@
}

/// Whether a file moves along with the server.
pub fn moves_with_server(name: &str) -> (r: bool)
    ensures
        r == moves(name@),
{
    !text::same(name, "msm.toml") && !text::same(name, "mods.lock.toml") && !text::same(
        name,
        "datapacks.lock.toml",
    )
}

/// Those among the files of a folder that move along with the server, or those that stay, in order.
pub open spec fn parted(names: Seq<Seq<char>>, moving: bool) -> Seq<Seq<char>>
    decreases names.len(),
{
    if names.len() == 0 {
        Seq::empty()
    } else if moves(names.last()) == moving {
        parted(names.drop_last(), moving).push(names.last())
    } else {
        parted(names.drop_last(), moving)
    }
}

/// How the files of a server are moved out of the folder of its settings.
#[derive(Debug)]
pub struct Migration {
    /// Where the server stands then.
    pub server_path: String,
    /// The files that move there.
    pub moved: Vec<String>,
}

/// How the files of a server are moved, where its folder holds the files `names`: not at all where
/// it has a folder of its own, or where something stands in the new place already.
pub fn plan_migration(
    instance_dir: &str,
    server_path: &str,
    data: &str,
    target_exists: bool,
    names: &Vec<String>,
) -> (r: Option<Migration>)
    ensures
        match r {
            Some(m) => {
                &&& !target_exists
                &&& migration_of(instance_dir@, server_path@, data@) == Some(m.server_path@)
                &&& text::views(m.moved@) == parted(text::views(names@), true)
            },
            None => target_exists || migration_of(instance_dir@, server_path@, data@) is None,
        },
{
    if target_exists {
        return None;
    }
    let target = match migration_target(instance_dir, server_path, data) {
        Some(t) => t,
        None => return None,
    };
    let ghost all = text::views(names@);
    let mut moved: Vec<String> = Vec::new();
    assert(text::views(moved@) =~= parted(all.take(0), true));
    for i in 0..names.len()
        invariant
            all == text::views(names@),
            text::views(moved@) == parted(all.take(i as int), true),
    {
        assert(all.take(i + 1).drop_last() =~= all.take(i as int));
        assert(all.take(i + 1).last() == names@[i as int]@);
        if moves_with_server(names[i].as_str()) {
            let ghost before = text::views(moved@);
            moved.push(names[i].clone());
            assert(text::views(moved@) =~= before.push(all[i as int]));
        }
    }
    assert(all.take(all.len() as int) =~= all);
    Some(Migration { server_path: target, moved })
}

/// How an instance stands on disk: where its server is, the files in the folder of its settings,
/// and those in the folder that a migration moves to, where there is one.
pub struct Layout {
    pub server_path: Seq<char>,
    pub beside_settings: Seq<Seq<char>>,
    pub target: Option<Seq<Seq<char>>>,
}

/// How an instance stands on disk once it was migrated, every file having been moved.
pub open spec fn migrated(l: Layout, instance_dir: Seq<char>, data: Seq<char>) -> Layout {
    match migration_of(instance_dir, l.server_path, data) {
        Some(t) => if l.target is None {
            Layout {
                server_path: t,
                beside_settings: parted(l.beside_settings, false),
                target: Some(parted(l.beside_settings, true)),
            }
        } else {
            l
        },
        None => l,
    }
}

/// A second migration right after a first one changes nothing, and neither does one of a server with
/// a folder of its own, or whose new place is taken.
pub proof fn law_second_migration_does_nothing(l: Layout, instance_dir: Seq<char>, data: Seq<char>)
    ensures
        migrated(migrated(l, instance_dir, data), instance_dir, data) == migrated(
            l,
            instance_dir,
            data,
        ),
        !paths::equal(l.server_path, instance_dir) || l.target is Some ==> migrated(
            l,
            instance_dir,
            data,
        ) == l,
{
}

/// What the manager keeps beside the settings is there after a migration as before, and every other
/// file is in the folder of the server.
pub proof fn law_migration_keeps_every_file(
    l: Layout,
    instance_dir: Seq<char>,
    data: Seq<char>,
    name: Seq<char>,
)
    requires
        migration_of(instance_dir, l.server_path, data) is Some,
        l.target is None,
    ensures
        ({
            let after = migrated(l, instance_dir, data);
            &&& after.beside_settings.contains(name) <==> l.beside_settings.contains(name)
                && !moves(name)
            &&& after.target matches Some(t) && (t.contains(name)
                <==> l.beside_settings.contains(name) && moves(name))
        }),
{
    lemma_parted(l.beside_settings, true, name);
    lemma_parted(l.beside_settings, false, name);
}

proof fn lemma_parted(names: Seq<Seq<char>>, moving: bool, name: Seq<char>)
    ensures
        parted(names, moving).contains(name) <==> names.contains(name) && moves(name) == moving,
    decreases names.len(),
{
    if names.len() > 0 {
        let front = names.drop_last();
        let part = parted(front, moving);
        lemma_parted(front, moving, name);
        if names.contains(name) {
            let i = names.index_of(name);
            if i < front.len() {
                assert(front[i] == name);
            }
        }
        if front.contains(name) {
            assert(names[front.index_of(name)] == name);
        }
        assert(names[names.len() - 1] == names.last());
        if moves(names.last()) == moving {
            let whole = part.push(names.last());
            assert(whole[part.len() as int] == names.last());
            if part.contains(name) {
                assert(whole[part.index_of(name)] == name);
            }
            if whole.contains(name) && whole.index_of(name) < part.len() {
                assert(part[whole.index_of(name)] == name);
            }
        }
    }
}

} // verus!
