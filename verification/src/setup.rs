//! Installing a mod loader, and bringing a server to another version of it.

use crate::config;
use crate::config::InstanceConfig;
use crate::config::InstanceMeta;
use crate::import::LoaderKind;
use crate::instance;
use crate::paths;
use crate::state;
use crate::state::EventModel;
use crate::state::InstanceModel;
use crate::state::InstanceStatus;
use crate::state::Registry;
use crate::state::WsEvent;
use crate::text;
use vstd::prelude::*;

verus! {

// ---------------------------------------------------------------------------
// Installers
// ---------------------------------------------------------------------------

/// Where the installer of a loader lies. Forge goes by the version of the game and its own; the
/// others go by one version.
pub open spec fn installer_address(
    kind: LoaderKind,
    mc_version: Seq<char>,
    version: Seq<char>,
) -> Seq<char> {
    match kind {
        LoaderKind::NeoForge => "https://maven.neoforged.net/releases/net/neoforged/neoforge/"@
            + version + "/neoforge-"@ + version + "-installer.jar"@,
        LoaderKind::Forge => "https://maven.minecraftforge.net/net/minecraftforge/forge/"@
            + mc_version + "-"@ + version + "/forge-"@ + mc_version + "-"@ + version
            + "-installer.jar"@,
        LoaderKind::Fabric => "https://maven.fabricmc.net/net/fabricmc/fabric-installer/"@ + version
            + "/fabric-installer-"@ + version + ".jar"@,
    }
}

/// Where the installer of a loader lies.
pub fn installer_url(kind: LoaderKind, mc_version: &str, version: &str) -> (r: String)
    ensures
        r@ == installer_address(kind, mc_version@, version@),
{
    let mut u = String::new();
    match kind {
        LoaderKind::NeoForge => {
            u.append("https://maven.neoforged.net/releases/net/neoforged/neoforge/");
            u.append(version);
            u.append("/neoforge-");
            u.append(version);
            u.append("-installer.jar");
        },
        LoaderKind::Forge => {
            u.append("https://maven.minecraftforge.net/net/minecraftforge/forge/");
            u.append(mc_version);
            u.append("-");
            u.append(version);
            u.append("/forge-");
            u.append(mc_version);
            u.append("-");
            u.append(version);
            u.append("-installer.jar");
        },
        LoaderKind::Fabric => {
            u.append("https://maven.fabricmc.net/net/fabricmc/fabric-installer/");
            u.append(version);
            u.append("/fabric-installer-");
            u.append(version);
            u.append(".jar");
        },
    }
    assert(u@ =~= installer_address(kind, mc_version@, version@));
    u
}

/// The name under which the installer of a loader is put down.
pub open spec fn installer_name(
    kind: LoaderKind,
    mc_version: Seq<char>,
    version: Seq<char>,
) -> Seq<char> {
    match kind {
        LoaderKind::NeoForge => "neoforge-"@ + version + "-installer.jar"@,
        LoaderKind::Forge => "forge-"@ + mc_version + "-"@ + version + "-installer.jar"@,
        LoaderKind::Fabric => "fabric-installer-"@ + version + ".jar"@,
    }
}

/// The name under which the installer of a loader is put down.
pub fn installer_filename(kind: LoaderKind, mc_version: &str, version: &str) -> (r: String)
    ensures
        r@ == installer_name(kind, mc_version@, version@),
{
    let mut u = String::new();
    match kind {
        LoaderKind::NeoForge => {
            u.append("neoforge-");
            u.append(version);
            u.append("-installer.jar");
        },
        LoaderKind::Forge => {
            u.append("forge-");
            u.append(mc_version);
            u.append("-");
            u.append(version);
            u.append("-installer.jar");
        },
        LoaderKind::Fabric => {
            u.append("fabric-installer-");
            u.append(version);
            u.append(".jar");
        },
    }
    assert(u@ =~= installer_name(kind, mc_version@, version@));
    u
}

/// What Java is run with to install a loader.
pub open spec fn installer_args_of(
    kind: LoaderKind,
    installer: Seq<char>,
    mc_version: Seq<char>,
    version: Seq<char>,
) -> Seq<Seq<char>> {
    match kind {
        LoaderKind::Fabric => seq![
            "-jar"@,
            installer,
            "server"@,
            "-mcversion"@,
            mc_version,
            "-loader"@,
            version,
            "-downloadMinecraft"@,
        ],
        _ => seq!["-jar"@, installer, "--installServer"@],
    }
}

/// What Java is run with to install a loader.
pub fn installer_args(kind: LoaderKind, installer: &str, mc_version: &str, version: &str) -> (r: Vec<
    String,
>)
    ensures
        text::views(r@) == installer_args_of(kind, installer@, mc_version@, version@),
{
    let mut r: Vec<String> = Vec::new();
    r.push("-jar".to_string());
    r.push(installer.to_string());
    match kind {
        LoaderKind::Fabric => {
            r.push("server".to_string());
            r.push("-mcversion".to_string());
            r.push(mc_version.to_string());
            r.push("-loader".to_string());
            r.push(version.to_string());
            r.push("-downloadMinecraft".to_string());
        },
        _ => {
            r.push("--installServer".to_string());
        },
    }
    assert(text::views(r@) =~= installer_args_of(kind, installer@, mc_version@, version@));
    r
}

/// What is logged before an installer is downloaded.
pub open spec fn download_line_of(kind: LoaderKind, version: Seq<char>) -> Seq<char> {
    match kind {
        LoaderKind::NeoForge => "Downloading NeoForge "@ + version + " installer…"@,
        LoaderKind::Forge => "Downloading Forge installer…"@,
        LoaderKind::Fabric => "Downloading Fabric installer "@ + version + "…"@,
    }
}

/// What is logged before an installer is downloaded.
pub fn download_line(kind: LoaderKind, version: &str) -> (r: String)
    ensures
        r@ == download_line_of(kind, version@),
{
    match kind {
        LoaderKind::NeoForge => {
            let mut s = "Downloading NeoForge ".to_string();
            s.append(version);
            s.append(" installer…");
            s
        },
        LoaderKind::Forge => "Downloading Forge installer…".to_string(),
        LoaderKind::Fabric => {
            let mut s = "Downloading Fabric installer ".to_string();
            s.append(version);
            s.append("…");
            s
        },
    }
}

/// What is logged before an installer is run.
pub open spec fn run_line_of(kind: LoaderKind) -> Seq<char> {
    match kind {
        LoaderKind::NeoForge => "Running installer — this may take several minutes…"@,
        LoaderKind::Forge => "Running Forge installer — this may take a few minutes…"@,
        LoaderKind::Fabric => "Running Fabric installer…"@,
    }
}

/// What is logged before an installer is run.
pub fn run_line(kind: LoaderKind) -> (r: String)
    ensures
        r@ == run_line_of(kind),
{
    match kind {
        LoaderKind::NeoForge => "Running installer — this may take several minutes…".to_string(),
        LoaderKind::Forge => "Running Forge installer — this may take a few minutes…".to_string(),
        LoaderKind::Fabric => "Running Fabric installer…".to_string(),
    }
}

/// A step of an installation that can fail.
#[derive(Debug, Clone, Copy, PartialEq, Eq, Structural)]
pub enum InstallStep {
    /// The installer could not be asked for.
    Request,
    /// It was asked for, and refused with a status.
    Status,
    /// It could not be read.
    Read,
    /// It could not be put down.
    Write,
    /// Java could not be run.
    Launch,
    /// Its end could not be waited for.
    Wait,
}

/// What is said where a step of an installation fails.
pub open spec fn install_failure(kind: LoaderKind, step: InstallStep, e: Seq<char>) -> Seq<char> {
    match step {
        InstallStep::Request => (match kind {
            LoaderKind::NeoForge => "Download failed: "@,
            LoaderKind::Forge => "Forge download failed: "@,
            LoaderKind::Fabric => "Fabric download failed: "@,
        }) + e,
        InstallStep::Status => (match kind {
            LoaderKind::NeoForge => "Download failed: HTTP "@,
            LoaderKind::Forge => "Forge download failed: HTTP "@,
            LoaderKind::Fabric => "Fabric download failed: HTTP "@,
        }) + e,
        InstallStep::Read => (match kind {
            LoaderKind::NeoForge => "Download read error: "@,
            _ => "Read error: "@,
        }) + e,
        InstallStep::Write => (match kind {
            LoaderKind::NeoForge => "Failed to write installer: "@,
            LoaderKind::Forge => "Failed to write Forge installer: "@,
            LoaderKind::Fabric => "Failed to write Fabric installer: "@,
        }) + e,
        InstallStep::Launch => "Failed to launch java: "@ + e + ". Is Java installed?"@,
        InstallStep::Wait => (match kind {
            LoaderKind::Fabric => "Fabric installer wait failed: "@,
            _ => "Installer wait failed: "@,
        }) + e,
    }
}

/// What is said where a step of an installation fails.
pub fn install_error(kind: LoaderKind, step: InstallStep, e: &str) -> (r: String)
    ensures
        r@ == install_failure(kind, step, e@),
{
    let mut m = String::new();
    match step {
        InstallStep::Request => match kind {
            LoaderKind::NeoForge => m.append("Download failed: "),
            LoaderKind::Forge => m.append("Forge download failed: "),
            LoaderKind::Fabric => m.append("Fabric download failed: "),
        },
        InstallStep::Status => match kind {
            LoaderKind::NeoForge => m.append("Download failed: HTTP "),
            LoaderKind::Forge => m.append("Forge download failed: HTTP "),
            LoaderKind::Fabric => m.append("Fabric download failed: HTTP "),
        },
        InstallStep::Read => match kind {
            LoaderKind::NeoForge => m.append("Download read error: "),
            _ => m.append("Read error: "),
        },
        InstallStep::Write => match kind {
            LoaderKind::NeoForge => m.append("Failed to write installer: "),
            LoaderKind::Forge => m.append("Failed to write Forge installer: "),
            LoaderKind::Fabric => m.append("Failed to write Fabric installer: "),
        },
        InstallStep::Launch => m.append("Failed to launch java: "),
        InstallStep::Wait => match kind {
            LoaderKind::Fabric => m.append("Fabric installer wait failed: "),
            _ => m.append("Installer wait failed: "),
        },
    }
    m.append(e);
    if step == InstallStep::Launch {
        m.append(". Is Java installed?");
    }
    assert(m@ =~= install_failure(kind, step, e@));
    m
}

/// What an installer that has exited comes to.
pub fn installer_result(kind: LoaderKind, success: bool, code: Option<i32>) -> (r: Result<
    (),
    String,
>)
    ensures
        match r {
            Ok(_) => exit_failure(kind, success, code) is None,
            Err(e) => exit_failure(kind, success, code) == Some(e@),
        },
{
    if success {
        return Ok(());
    }
    let mut m = match kind {
        LoaderKind::Fabric => "Fabric installer exited with code ".to_string(),
        _ => "Installer exited with code ".to_string(),
    };
    let c: i32 = match code {
        Some(c) => c,
        None => -1,
    };
    let n = text::signed_decimal(c);
    m.append(n.as_str());
    Err(m)
}

/// The start script of a server with Fabric.
pub open spec fn fabric_script() -> Seq<char> {
    "#!/usr/bin/env bash\nexec java -jar fabric-server-launch.jar \"$@\"\n"@
}

/// The start script of a server with Fabric.
pub fn fabric_run_sh() -> (r: String)
    ensures
        r@ == fabric_script(),
{
    "#!/usr/bin/env bash\nexec java -jar fabric-server-launch.jar \"$@\"\n".to_string()
}

/// A version of the installer of Fabric.
#[derive(Debug)]
pub struct FabricInstallerMeta {
    pub version: String,
    pub stable: bool,
}

/// The first stable version of the installer of Fabric.
pub open spec fn first_stable(metas: Seq<FabricInstallerMeta>) -> Option<Seq<char>>
    decreases metas.len(),
{
    if metas.len() == 0 {
        None
    } else if metas[0].stable {
        Some(metas[0].version@)
    } else {
        first_stable(metas.skip(1))
    }
}

/// The version of the installer of Fabric that is used: the first stable one, or else the first.
pub fn pick_fabric_installer(metas: &Vec<FabricInstallerMeta>) -> (r: Result<String, String>)
    ensures
        match r {
            Ok(v) => metas@.len() > 0 && v@ == (match first_stable(metas@) {
                Some(s) => s,
                None => metas@[0].version@,
            }),
            Err(e) => metas@.len() == 0 && e@ == "No Fabric installer versions found"@,
        },
{
    let n: usize = metas.len();
    let mut i: usize = 0;
    assert(metas@.skip(0) =~= metas@);
    while i < n
        invariant
            i <= n,
            n == metas@.len(),
            first_stable(metas@) == first_stable(metas@.skip(i as int)),
        decreases n - i,
    {
        assert(metas@.skip(i as int)[0] == metas@[i as int]);
        assert(metas@.skip(i as int).skip(1) =~= metas@.skip(i + 1));
        if metas[i].stable {
            return Ok(metas[i].version.clone());
        }
        i += 1;
    }
    if n > 0 {
        Ok(metas[0].version.clone())
    } else {
        Err("No Fabric installer versions found".to_string())
    }
}

// ---------------------------------------------------------------------------
// The course of an installation
// ---------------------------------------------------------------------------

/// Where the versions of the installer of Fabric are listed.
pub const FABRIC_INSTALLERS: &'static str = "https://meta.fabricmc.net/v2/versions/installer";

/// What an installation waits for.
#[derive(Debug)]
pub enum InstallStage {
    /// The versions of the installer of Fabric.
    Versions,
    Download,
    Write,
    Run,
    /// That the installer is gone; `failed` is what the installer came to otherwise.
    Remove { failed: Option<String> },
    /// That the start script of Fabric is there.
    Script,
    Over,
}

/// The view of what an installation waits for.
pub enum InstallStageModel {
    Versions,
    Download,
    Write,
    Run,
    Remove { failed: Option<Seq<char>> },
    Script,
    Over,
}

impl View for InstallStage {
    type V = InstallStageModel;

    open spec fn view(&self) -> InstallStageModel {
        match *self {
            InstallStage::Versions => InstallStageModel::Versions,
            InstallStage::Download => InstallStageModel::Download,
            InstallStage::Write => InstallStageModel::Write,
            InstallStage::Run => InstallStageModel::Run,
            InstallStage::Remove { failed } => InstallStageModel::Remove {
                failed: text::opt_view(failed),
            },
            InstallStage::Script => InstallStageModel::Script,
            InstallStage::Over => InstallStageModel::Over,
        }
    }
}

/// What is done next.
#[derive(Debug)]
pub enum InstallAction {
    FetchVersions,
    Download { url: String },
    /// What was downloaded is written to a path.
    Write { path: String },
    /// Java is run in the folder of the server.
    Run { args: Vec<String> },
    Remove { path: String },
    /// A file is written, where it is not there yet.
    WriteMissing { path: String, content: String },
    Finish,
    Fail { error: String },
}

/// The view of what is done next.
pub enum InstallActionModel {
    FetchVersions,
    Download { url: Seq<char> },
    Write { path: Seq<char> },
    Run { args: Seq<Seq<char>> },
    Remove { path: Seq<char> },
    WriteMissing { path: Seq<char>, content: Seq<char> },
    Finish,
    Fail { error: Seq<char> },
}

impl View for InstallAction {
    type V = InstallActionModel;

    open spec fn view(&self) -> InstallActionModel {
        match *self {
            InstallAction::FetchVersions => InstallActionModel::FetchVersions,
            InstallAction::Download { url } => InstallActionModel::Download { url: url@ },
            InstallAction::Write { path } => InstallActionModel::Write { path: path@ },
            InstallAction::Run { args } => InstallActionModel::Run { args: text::views(args@) },
            InstallAction::Remove { path } => InstallActionModel::Remove { path: path@ },
            InstallAction::WriteMissing { path, content } => InstallActionModel::WriteMissing {
                path: path@,
                content: content@,
            },
            InstallAction::Finish => InstallActionModel::Finish,
            InstallAction::Fail { error } => InstallActionModel::Fail { error: error@ },
        }
    }
}

/// What comes back from outside.
#[derive(Debug)]
pub enum InstallReply {
    Versions(Vec<FabricInstallerMeta>),
    Done,
    /// Java has exited.
    Exited { success: bool, code: Option<i32> },
    /// A step failed.
    Failed { step: InstallStep, error: String },
}

/// The view of what comes back.
pub enum InstallReplyModel {
    Versions(Seq<FabricInstallerMeta>),
    Done,
    Exited { success: bool, code: Option<i32> },
    Failed { step: InstallStep, error: Seq<char> },
}

impl View for InstallReply {
    type V = InstallReplyModel;

    open spec fn view(&self) -> InstallReplyModel {
        match *self {
            InstallReply::Versions(v) => InstallReplyModel::Versions(v@),
            InstallReply::Done => InstallReplyModel::Done,
            InstallReply::Exited { success, code } => InstallReplyModel::Exited { success, code },
            InstallReply::Failed { step, error } => InstallReplyModel::Failed {
                step,
                error: error@,
            },
        }
    }
}

/// An installation under way. `installer` is the version of the installer, `version` that of the
/// loader.
#[derive(Debug)]
pub struct Installation {
    pub kind: LoaderKind,
    pub mc_version: String,
    pub version: String,
    pub work_dir: String,
    pub installer: String,
    pub stage: InstallStage,
}

/// The view of an installation under way.
pub struct InstallModel {
    pub kind: LoaderKind,
    pub mc_version: Seq<char>,
    pub version: Seq<char>,
    pub work_dir: Seq<char>,
    pub installer: Seq<char>,
    pub stage: InstallStageModel,
}

impl View for Installation {
    type V = InstallModel;

    open spec fn view(&self) -> InstallModel {
        InstallModel {
            kind: self.kind,
            mc_version: self.mc_version@,
            version: self.version@,
            work_dir: self.work_dir@,
            installer: self.installer@,
            stage: self.stage@,
        }
    }
}

/// An installation after a step: what is logged, if anything, and what is done next.
#[derive(Debug)]
pub struct InstallNext {
    pub run: Installation,
    pub log: Option<String>,
    pub action: InstallAction,
}

/// The view of an installation after a step.
pub struct InstallNextModel {
    pub run: InstallModel,
    pub log: Option<Seq<char>>,
    pub action: InstallActionModel,
}

impl View for InstallNext {
    type V = InstallNextModel;

    open spec fn view(&self) -> InstallNextModel {
        InstallNextModel {
            run: self.run@,
            log: text::opt_view(self.log),
            action: self.action@,
        }
    }
}

/// The path of the installer.
pub open spec fn installer_path_of(m: InstallModel) -> Seq<char> {
    paths::joined_path(m.work_dir, installer_name(m.kind, m.mc_version, m.installer))
}

/// An installation that waits for something.
pub open spec fn install_at(
    m: InstallModel,
    stage: InstallStageModel,
    log: Option<Seq<char>>,
    action: InstallActionModel,
) -> InstallNextModel {
    InstallNextModel { run: InstallModel { stage, ..m }, log, action }
}

/// An installation that asks for the installer.
pub open spec fn install_download(m: InstallModel) -> InstallNextModel {
    install_at(
        m,
        InstallStageModel::Download,
        Some(download_line_of(m.kind, m.installer)),
        InstallActionModel::Download { url: installer_address(m.kind, m.mc_version, m.installer) },
    )
}

/// An installation as it begins: Fabric is first asked for the version of its installer.
pub open spec fn install_started(m: InstallModel) -> InstallNextModel {
    match m.kind {
        LoaderKind::Fabric => install_at(
            m,
            InstallStageModel::Versions,
            Some("Fetching Fabric installer version…"@),
            InstallActionModel::FetchVersions,
        ),
        _ => install_download(m),
    }
}

/// An installation that is over without success.
pub open spec fn install_failed(m: InstallModel, error: Seq<char>) -> InstallNextModel {
    install_at(m, InstallStageModel::Over, None, InstallActionModel::Fail { error })
}

/// What an installer that has exited came to, where it failed.
pub open spec fn exit_failure(kind: LoaderKind, success: bool, code: Option<i32>) -> Option<
    Seq<char>,
> {
    if success {
        None
    } else {
        Some(
            (match kind {
                LoaderKind::Fabric => "Fabric installer exited with code "@,
                _ => "Installer exited with code "@,
            }) + text::signed_digits(
                match code {
                    Some(c) => c as int,
                    None => -1,
                },
            ),
        )
    }
}

/// What is said where a step fails; the versions of the installer of Fabric have words of their own.
pub open spec fn step_failure(m: InstallModel, step: InstallStep, e: Seq<char>) -> Seq<char> {
    match m.stage {
        InstallStageModel::Versions => (if step == InstallStep::Read {
            "Failed to parse Fabric installer list: "@
        } else {
            "Failed to fetch Fabric installer list: "@
        }) + e,
        InstallStageModel::Script => "Failed to create run.sh: "@ + e,
        _ => install_failure(m.kind, step, e),
    }
}

/// Whether a reply can come to what is waited for.
pub open spec fn install_replies_to(reply: InstallReplyModel, stage: InstallStageModel) -> bool {
    match stage {
        InstallStageModel::Versions => reply is Versions || reply is Failed,
        InstallStageModel::Run => reply is Exited || reply is Failed,
        InstallStageModel::Over => false,
        _ => reply is Done || reply is Failed,
    }
}

/// An installation after a reply. Whatever the installer comes to, it is removed before that is
/// told; for Fabric the start script is put down at the end.
pub open spec fn install_advanced(m: InstallModel, reply: InstallReplyModel) -> InstallNextModel {
    let remove = InstallActionModel::Remove { path: installer_path_of(m) };
    match m.stage {
        InstallStageModel::Run => match reply {
            InstallReplyModel::Failed { step, error } => install_at(
                m,
                InstallStageModel::Remove { failed: Some(install_failure(m.kind, step, error)) },
                None,
                remove,
            ),
            _ => install_at(
                m,
                InstallStageModel::Remove {
                    failed: exit_failure(m.kind, reply->success, reply->code),
                },
                None,
                remove,
            ),
        },
        InstallStageModel::Remove { failed } => match failed {
            Some(e) => install_failed(m, e),
            None => match m.kind {
                LoaderKind::Fabric => install_at(
                    m,
                    InstallStageModel::Script,
                    None,
                    InstallActionModel::WriteMissing {
                        path: paths::joined_path(m.work_dir, "run.sh"@),
                        content: fabric_script(),
                    },
                ),
                _ => install_at(m, InstallStageModel::Over, None, InstallActionModel::Finish),
            },
        },
        _ => match reply {
            InstallReplyModel::Failed { step, error } => install_failed(
                m,
                step_failure(m, step, error),
            ),
            InstallReplyModel::Versions(metas) => if metas.len() == 0 {
                install_failed(m, "No Fabric installer versions found"@)
            } else {
                install_download(
                    InstallModel {
                        installer: match first_stable(metas) {
                            Some(s) => s,
                            None => metas[0].version@,
                        },
                        ..m
                    },
                )
            },
            _ => match m.stage {
                InstallStageModel::Download => install_at(
                    m,
                    InstallStageModel::Write,
                    None,
                    InstallActionModel::Write { path: installer_path_of(m) },
                ),
                InstallStageModel::Write => install_at(
                    m,
                    InstallStageModel::Run,
                    Some(run_line_of(m.kind)),
                    InstallActionModel::Run {
                        args: installer_args_of(
                            m.kind,
                            installer_path_of(m),
                            m.mc_version,
                            m.version,
                        ),
                    },
                ),
                _ => install_at(m, InstallStageModel::Over, None, InstallActionModel::Finish),
            },
        },
    }
}

impl Installation {
    fn at(self, stage: InstallStage, log: Option<String>, action: InstallAction) -> (r: InstallNext)
        ensures
            r@ == install_at(self@, stage@, text::opt_view(log), action@),
    {
        let Installation { kind, mc_version, version, work_dir, installer, stage: _ } = self;
        InstallNext {
            run: Installation { kind, mc_version, version, work_dir, installer, stage },
            log,
            action,
        }
    }

    fn failed(self, error: String) -> (r: InstallNext)
        ensures
            r@ == install_failed(self@, error@),
    {
        self.at(InstallStage::Over, None, InstallAction::Fail { error })
    }

    fn path(&self) -> (r: String)
        ensures
            r@ == installer_path_of(self@),
    {
        let name = installer_filename(
            self.kind,
            self.mc_version.as_str(),
            self.installer.as_str(),
        );
        paths::join(self.work_dir.as_str(), name.as_str())
    }

    fn download(self) -> (r: InstallNext)
        ensures
            r@ == install_download(self@),
    {
        let url = installer_url(self.kind, self.mc_version.as_str(), self.installer.as_str());
        let line = download_line(self.kind, self.installer.as_str());
        self.at(InstallStage::Download, Some(line), InstallAction::Download { url })
    }

    /// Begins to install a version of a loader in the folder of a server.
    pub fn start(kind: LoaderKind, mc_version: &str, version: &str, work_dir: &str) -> (r: InstallNext)
        ensures
            r@ == install_started(
                InstallModel {
                    kind,
                    mc_version: mc_version@,
                    version: version@,
                    work_dir: work_dir@,
                    installer: version@,
                    stage: InstallStageModel::Over,
                },
            ),
    {
        let run = Installation {
            kind,
            mc_version: mc_version.to_string(),
            version: version.to_string(),
            work_dir: work_dir.to_string(),
            installer: version.to_string(),
            stage: InstallStage::Over,
        };
        match kind {
            LoaderKind::Fabric => run.at(
                InstallStage::Versions,
                Some("Fetching Fabric installer version…".to_string()),
                InstallAction::FetchVersions,
            ),
            _ => run.download(),
        }
    }

    fn take_versions(self, metas: &Vec<FabricInstallerMeta>) -> (r: InstallNext)
        requires
            self@.stage is Versions,
        ensures
            r@ == install_advanced(self@, InstallReplyModel::Versions(metas@)),
    {
        match pick_fabric_installer(metas) {
            Ok(v) => {
                let Installation { kind, mc_version, version, work_dir, installer: _, stage } =
                    self;
                let run = Installation {
                    kind,
                    mc_version,
                    version,
                    work_dir,
                    installer: v,
                    stage,
                };
                run.download()
            },
            Err(e) => self.failed(e),
        }
    }

    fn take_failure(self, step: InstallStep, e: &str) -> (r: InstallNext)
        requires
            self@.stage !is Remove,
            self@.stage !is Over,
        ensures
            r@ == install_advanced(self@, InstallReplyModel::Failed { step, error: e@ }),
    {
        match self.stage {
            InstallStage::Versions => {
                let mut m = if step == InstallStep::Read {
                    "Failed to parse Fabric installer list: ".to_string()
                } else {
                    "Failed to fetch Fabric installer list: ".to_string()
                };
                m.append(e);
                self.failed(m)
            },
            InstallStage::Script => {
                let mut m = "Failed to create run.sh: ".to_string();
                m.append(e);
                self.failed(m)
            },
            InstallStage::Run => {
                let m = install_error(self.kind, step, e);
                let path = self.path();
                self.at(
                    InstallStage::Remove { failed: Some(m) },
                    None,
                    InstallAction::Remove { path },
                )
            },
            _ => {
                let m = install_error(self.kind, step, e);
                self.failed(m)
            },
        }
    }

    fn take_exit(self, success: bool, code: Option<i32>) -> (r: InstallNext)
        requires
            self@.stage is Run,
        ensures
            r@ == install_advanced(self@, InstallReplyModel::Exited { success, code }),
    {
        let failed = match installer_result(self.kind, success, code) {
            Ok(_) => None,
            Err(e) => Some(e),
        };
        let path = self.path();
        self.at(InstallStage::Remove { failed }, None, InstallAction::Remove { path })
    }

    fn after_remove(self, failed: Option<String>) -> (r: InstallNext)
        requires
            self@.stage == (InstallStageModel::Remove { failed: text::opt_view(failed) }),
        ensures
            r@ == install_advanced(self@, InstallReplyModel::Done),
    {
        match failed {
            Some(e) => self.failed(e),
            None => match self.kind {
                LoaderKind::Fabric => {
                    let path = paths::join(self.work_dir.as_str(), "run.sh");
                    let content = fabric_run_sh();
                    self.at(
                        InstallStage::Script,
                        None,
                        InstallAction::WriteMissing { path, content },
                    )
                },
                _ => self.at(InstallStage::Over, None, InstallAction::Finish),
            },
        }
    }

    fn take_done(self) -> (r: InstallNext)
        requires
            self@.stage is Download || self@.stage is Write || self@.stage is Script,
        ensures
            r@ == install_advanced(self@, InstallReplyModel::Done),
    {
        match self.stage {
            InstallStage::Download => {
                let path = self.path();
                self.at(InstallStage::Write, None, InstallAction::Write { path })
            },
            InstallStage::Write => {
                let path = self.path();
                let args = installer_args(
                    self.kind,
                    path.as_str(),
                    self.mc_version.as_str(),
                    self.version.as_str(),
                );
                let line = run_line(self.kind);
                self.at(InstallStage::Run, Some(line), InstallAction::Run { args })
            },
            _ => self.at(InstallStage::Over, None, InstallAction::Finish),
        }
    }

    /// What is done next once a reply came.
    pub fn step(self, reply: InstallReply) -> (r: InstallNext)
        requires
            install_replies_to(reply@, self@.stage),
        ensures
            r@ == install_advanced(self@, reply@),
    {
        let Installation { kind, mc_version, version, work_dir, installer, stage } = self;
        match stage {
            InstallStage::Remove { failed } => {
                let copy = state::copied_opt(&failed);
                let run = Installation {
                    kind,
                    mc_version,
                    version,
                    work_dir,
                    installer,
                    stage: InstallStage::Remove { failed },
                };
                run.after_remove(copy)
            },
            other => {
                let run = Installation {
                    kind,
                    mc_version,
                    version,
                    work_dir,
                    installer,
                    stage: other,
                };
                match reply {
                    InstallReply::Versions(metas) => run.take_versions(&metas),
                    InstallReply::Exited { success, code } => run.take_exit(success, code),
                    InstallReply::Failed { step, error } => run.take_failure(step, error.as_str()),
                    InstallReply::Done => run.take_done(),
                }
            },
        }
    }
}

/// An installer that was run is removed, whatever it came to, before anything is told.
pub proof fn law_installers_are_removed(m: InstallModel, reply: InstallReplyModel)
    requires
        m.stage is Run,
        install_replies_to(reply, m.stage),
    ensures
        install_advanced(m, reply).action == (InstallActionModel::Remove {
            path: installer_path_of(m),
        }),
{
}

// ---------------------------------------------------------------------------
// A new server
// ---------------------------------------------------------------------------

/// What is told when the installation of a new server begins.
pub fn setup_started(server_path: &str) -> (r: WsEvent)
    ensures
        r@ == (EventModel::SetupLog { message: "Creating directory "@ + server_path@ + "…"@ }),
{
    let mut m = "Creating directory ".to_string();
    m.append(server_path);
    m.append("…");
    WsEvent::SetupLog { message: m }
}

/// What is told when the folder of a new server cannot be made.
pub fn setup_dir_failed(e: &str) -> (r: WsEvent)
    ensures
        r@ == (EventModel::SetupFailed { error: "Failed to create directory: "@ + e@ }),
{
    let mut m = "Failed to create directory: ".to_string();
    m.append(e);
    WsEvent::SetupFailed { error: m }
}

/// What is told once the installation of a new server is over.
pub fn install_neoforge(result: &Result<(), String>, server_path: &str) -> (r: Vec<WsEvent>)
    ensures
        state::event_views(r@) == (match *result {
            Ok(_) => seq![
                EventModel::SetupLog { message: "Installation complete."@ },
                EventModel::SetupDone { server_path: server_path@ },
            ],
            Err(e) => seq![EventModel::SetupFailed { error: e@ }],
        }),
{
    let mut r: Vec<WsEvent> = Vec::new();
    match result {
        Ok(_) => {
            r.push(WsEvent::SetupLog { message: "Installation complete.".to_string() });
            r.push(WsEvent::SetupDone { server_path: server_path.to_string() });
            assert(state::event_views(r@) =~= seq![
                EventModel::SetupLog { message: "Installation complete."@ },
                EventModel::SetupDone { server_path: server_path@ },
            ]);
        },
        Err(e) => {
            r.push(WsEvent::SetupFailed { error: e.clone() });
            assert(state::event_views(r@) =~= seq![EventModel::SetupFailed { error: e@ }]);
        },
    }
    r
}

// ---------------------------------------------------------------------------
// Another version
// ---------------------------------------------------------------------------

/// The version of the game that a version of NeoForge is for.
pub open spec fn game_for_neoforge(nf: Seq<char>) -> Seq<char> {
    let parts = text::pieces(nf, '.', '.');
    if parts.len() >= 2 {
        config::game_version(
            parts[0],
            parts[1],
            text::uint(parts[1], u32::MAX as nat) == Some(0nat),
        )
    } else {
        nf
    }
}

/// The version of the game that a version of NeoForge is for.
pub fn neoforge_to_mc(nf: &str) -> (r: String)
    ensures
        r@ == game_for_neoforge(nf@),
{
    let parts = text::split(nf, '.', '.');
    if parts.len() >= 2 {
        proof {
            let views = text::views(parts@);
            assert(views[0] == parts@[0]@ && views[1] == parts@[1]@);
        }
        let zero = match text::parse_uint(parts[1].as_str(), u32::MAX as u64) {
            Some(n) => n == 0,
            None => false,
        };
        config::game_version_of(parts[0].as_str(), parts[1].as_str(), zero)
    } else {
        nf.to_string()
    }
}

/// Why a server cannot be brought to another version.
pub open spec fn update_refusal(reg: Seq<InstanceModel>, id: Seq<char>) -> Option<Seq<char>> {
    match state::slot(reg, id) {
        Some(i) => if reg[i].status == InstanceStatus::Stopped || reg[i].status
            == InstanceStatus::Crashed {
            None
        } else {
            Some("Server must be stopped before updating."@)
        },
        None => Some(instance::instance_message(id, "not found"@)),
    }
}

/// The folders of a server that is to be brought to another version, and of its settings.
pub fn begin_update(reg: &Registry, id: &str) -> (r: Result<(String, String), String>)
    ensures
        match r {
            Ok((server_path, instance_dir)) => {
                &&& update_refusal(reg@, id@) is None
                &&& state::slot(reg@, id@) matches Some(i)
                &&& server_path@ == reg@[i].config.server.path@
                &&& instance_dir@ == reg@[i].instance_dir
            },
            Err(e) => update_refusal(reg@, id@) == Some(e@),
        },
{
    match reg.get(id) {
        Some(inst) => if inst.status == InstanceStatus::Stopped || inst.status
            == InstanceStatus::Crashed {
            Ok((inst.config.server.path.clone(), inst.instance_dir.clone()))
        } else {
            Err("Server must be stopped before updating.".to_string())
        },
        None => Err(instance::message(id, "not found")),
    }
}

/// What is told when a server is about to be brought to another version.
pub fn update_started(id: &str, version: &str) -> (r: WsEvent)
    ensures
        r@ == (EventModel::UpdateLog {
            id: id@,
            message: "Updating NeoForge to "@ + version@ + "…"@,
        }),
{
    let mut m = "Updating NeoForge to ".to_string();
    m.append(version);
    m.append("…");
    WsEvent::UpdateLog { instance_id: id.to_string(), message: m }
}

/// Whether settings differ only in the versions of the game and of the loader.
pub open spec fn versions_set(
    before: InstanceConfig,
    after: InstanceConfig,
    mc_version: Seq<char>,
    loader_version: Seq<char>,
) -> bool {
    &&& after.instance.minecraft_version@ == mc_version
    &&& text::opt_view(after.instance.loader_version) == Some(loader_version)
    &&& after == (InstanceConfig {
        instance: InstanceMeta {
            minecraft_version: after.instance.minecraft_version,
            loader_version: after.instance.loader_version,
            ..before.instance
        },
        ..before
    })
}

/// The view of what an update came to.
pub open spec fn result_view(r: Result<(), String>) -> Result<(), Seq<char>> {
    match r {
        Ok(_) => Ok(()),
        Err(e) => Err(e@),
    }
}

/// What is told at the end of an update: that it failed, or that it is done.
pub open spec fn update_events(
    id: Seq<char>,
    version: Seq<char>,
    result: Result<(), Seq<char>>,
) -> Seq<EventModel> {
    match result {
        Ok(_) => seq![
            EventModel::UpdateLog {
                id,
                message: "Updated to NeoForge "@ + version + " (MC "@ + game_for_neoforge(version)
                    + ")."@,
            },
            EventModel::UpdateDone { id, minecraft_version: game_for_neoforge(version) },
        ],
        Err(e) => seq![EventModel::UpdateFailed { id, error: e }],
    }
}

/// Takes in what an update came to, and tells of it: a refusal or what the installer came to. Where
/// it failed nothing changes, and otherwise the settings get the new versions.
pub fn update_server_version(
    reg: &mut Registry,
    id: &str,
    version: &str,
    result: &Result<(), String>,
) -> (r: Vec<WsEvent>)
    requires
        old(reg).wf(),
    ensures
        final(reg).wf(),
        *result is Err ==> final(reg)@ == old(reg)@,
        *result is Ok ==> match state::slot(old(reg)@, id@) {
            Some(i) => {
                let after = final(reg)@[i];
                &&& final(reg)@ == old(reg)@.update(i, after)
                &&& after == (InstanceModel { config: after.config, ..old(reg)@[i] })
                &&& versions_set(
                    old(reg)@[i].config,
                    after.config,
                    game_for_neoforge(version@),
                    version@,
                )
            },
            None => final(reg)@ == old(reg)@,
        },
        state::event_views(r@) == update_events(id@, version@, result_view(*result)),
{
    let ghost before = reg@;
    let mut r: Vec<WsEvent> = Vec::new();
    if let Err(e) = result {
        r.push(WsEvent::UpdateFailed { instance_id: id.to_string(), error: e.clone() });
        assert(state::event_views(r@) =~= update_events(id@, version@, result_view(*result)));
        return r;
    }
    let mc = neoforge_to_mc(version);
    if let Some(i) = reg.find(id) {
        reg.list[i].config.instance.minecraft_version = mc.clone();
        reg.list[i].config.instance.loader_version = Some(version.to_string());
        assert(reg@ =~= before.update(i as int, reg@[i as int]));
    }
    let mut m = "Updated to NeoForge ".to_string();
    m.append(version);
    m.append(" (MC ");
    m.append(mc.as_str());
    m.append(").");
    r.push(WsEvent::UpdateLog { instance_id: id.to_string(), message: m });
    r.push(WsEvent::UpdateDone { instance_id: id.to_string(), minecraft_version: mc });
    assert(state::event_views(r@) =~= update_events(id@, version@, result_view(*result)));
    r
}

/// What an update comes to: it is refused, or it comes to what the installer came to.
pub open spec fn update_result(
    reg: Seq<InstanceModel>,
    id: Seq<char>,
    installed: Result<(), Seq<char>>,
) -> Result<(), Seq<char>> {
    match update_refusal(reg, id) {
        Some(e) => Err(e),
        None => installed,
    }
}

/// How many of some events tell that an update failed, or that it is done.
pub open spec fn ends_told(events: Seq<EventModel>, failed: bool) -> nat
    decreases events.len(),
{
    if events.len() == 0 {
        0
    } else {
        ends_told(events.drop_last(), failed) + (if (failed && events.last() is UpdateFailed) || (
        !failed && events.last() is UpdateDone) {
            1nat
        } else {
            0nat
        })
    }
}

/// An update ends in one way: a refusal or a failed installer gives one event that says so and none
/// that it is done, and otherwise one event says that it is done and none that it failed.
pub proof fn law_update_ends_one_way(
    reg: Seq<InstanceModel>,
    id: Seq<char>,
    version: Seq<char>,
    installed: Result<(), Seq<char>>,
)
    ensures
        ({
            let events = update_events(id, version, update_result(reg, id, installed));
            let fails = update_refusal(reg, id) is Some || installed is Err;
            &&& ends_told(events, true) == (if fails {
                1nat
            } else {
                0nat
            })
            &&& ends_told(events, false) == (if fails {
                0nat
            } else {
                1nat
            })
        }),
{
    let events = update_events(id, version, update_result(reg, id, installed));
    reveal_with_fuel(ends_told, 3);
    assert(events.drop_last().len() == events.len() - 1);
}

/// A server is brought to another version only while it does not run.
pub proof fn law_no_update_while_active(reg: Seq<InstanceModel>, id: Seq<char>)
    requires
        update_refusal(reg, id) is None,
    ensures
        state::slot(reg, id) matches Some(i) && !state::is_active(reg[i].status),
{
}

/// What a start script tells of NeoForge agrees with what its version tells.
pub proof fn law_start_script_and_version_agree(run_sh: Seq<char>)
    ensures
        config::neoforge_in(run_sh) matches config::Search::Found(m) ==> {
            &&& m.loader_version matches Some(v)
            &&& m.minecraft_version == game_for_neoforge(v)
        },
{
}

} // verus!
