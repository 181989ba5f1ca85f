//! How a mod loader is installed and a server updated, in plain terms.

use crate::config::InstanceConfig;
use crate::import::LoaderKind;
use crate::paths;
use crate::setup;
use crate::setup::FabricInstallerMeta;
use crate::setup::InstallActionModel;
use crate::setup::InstallModel;
use crate::setup::InstallReplyModel;
use crate::setup::InstallStageModel;
use crate::setup::InstallStep;
use crate::state::EventModel;
use crate::text;
use vstd::prelude::*;

verus! {

/// Where installers come from: each from the place of its maker, under the version, and the file is
/// called there as it is called here.
pub proof fn law_places_of_installers(game: Seq<char>, version: Seq<char>)
    ensures
        setup::installer_address(LoaderKind::NeoForge, game, version)
            == "https://maven.neoforged.net/releases/net/neoforged/neoforge/"@ + version + "/"@
            + setup::installer_name(LoaderKind::NeoForge, game, version),
        setup::installer_address(LoaderKind::Forge, game, version)
            == "https://maven.minecraftforge.net/net/minecraftforge/forge/"@ + (game + "-"@
            + version) + "/"@ + setup::installer_name(LoaderKind::Forge, game, version),
        setup::installer_address(LoaderKind::Fabric, game, version)
            == "https://maven.fabricmc.net/net/fabricmc/fabric-installer/"@ + version + "/"@
            + setup::installer_name(LoaderKind::Fabric, game, version),
        setup::installer_name(LoaderKind::NeoForge, game, version) == "neoforge-"@ + version
            + "-installer.jar"@,
        setup::installer_name(LoaderKind::Forge, game, version) == "forge-"@ + (game + "-"@
            + version) + "-installer.jar"@,
        setup::installer_name(LoaderKind::Fabric, game, version) == "fabric-installer-"@ + version
            + ".jar"@,
        setup::FABRIC_INSTALLERS@ == "https://meta.fabricmc.net/v2/versions/installer"@,
{
    reveal_strlit("/");
    reveal_strlit("neoforge-");
    reveal_strlit("/neoforge-");
    reveal_strlit("forge-");
    reveal_strlit("/forge-");
    reveal_strlit("fabric-installer-");
    reveal_strlit("/fabric-installer-");
    assert("/neoforge-"@ =~= "/"@ + "neoforge-"@);
    assert("/forge-"@ =~= "/"@ + "forge-"@);
    assert("/fabric-installer-"@ =~= "/"@ + "fabric-installer-"@);
    assert(setup::installer_address(LoaderKind::NeoForge, game, version)
        =~= "https://maven.neoforged.net/releases/net/neoforged/neoforge/"@ + version + "/"@
        + setup::installer_name(LoaderKind::NeoForge, game, version));
    assert(setup::installer_address(LoaderKind::Forge, game, version)
        =~= "https://maven.minecraftforge.net/net/minecraftforge/forge/"@ + (game + "-"@ + version)
        + "/"@ + setup::installer_name(LoaderKind::Forge, game, version));
    assert(setup::installer_address(LoaderKind::Fabric, game, version)
        =~= "https://maven.fabricmc.net/net/fabricmc/fabric-installer/"@ + version + "/"@
        + setup::installer_name(LoaderKind::Fabric, game, version));
    assert(setup::installer_name(LoaderKind::Forge, game, version) =~= "forge-"@ + (game + "-"@
        + version) + "-installer.jar"@);
}

/// What Java is given: the installer as a jar and the order to install a server; the installer of
/// Fabric is also told both versions, and to bring the game.
pub proof fn law_orders_to_the_installer(
    kind: LoaderKind,
    jar: Seq<char>,
    game: Seq<char>,
    version: Seq<char>,
)
    ensures
        ({
            let a = setup::installer_args_of(kind, jar, game, version);
            &&& a[0] == "-jar"@ && a[1] == jar
            &&& kind != LoaderKind::Fabric ==> a.len() == 3 && a[2] == "--installServer"@
            &&& kind == LoaderKind::Fabric ==> a.len() == 8 && a[2] == "server"@ && a[3]
                == "-mcversion"@ && a[4] == game && a[5] == "-loader"@ && a[6] == version && a[7]
                == "-downloadMinecraft"@
        }),
{
}

/// The installer of Fabric is the first stable one of the list, or else the first.
pub proof fn law_stable_installer(metas: Seq<FabricInstallerMeta>, i: int)
    requires
        0 <= i < metas.len(),
        metas[i].stable,
        forall|j: int| 0 <= j < i ==> !(#[trigger] metas[j]).stable,
    ensures
        setup::first_stable(metas) == Some(metas[i].version@),
    decreases metas.len(),
{
    if i > 0 {
        assert(!metas[0].stable);
        assert forall|j: int| 0 <= j < i - 1 implies !(#[trigger] metas.skip(1)[j]).stable by {
            assert(metas.skip(1)[j] == metas[j + 1]);
        }
        assert(metas.skip(1)[i - 1] == metas[i]);
        law_stable_installer(metas.skip(1), i - 1);
    }
}

/// Where the list has no stable installer, none is the first stable one.
pub proof fn law_no_stable_installer(metas: Seq<FabricInstallerMeta>)
    requires
        forall|j: int| 0 <= j < metas.len() ==> !(#[trigger] metas[j]).stable,
    ensures
        setup::first_stable(metas) is None,
    decreases metas.len(),
{
    if metas.len() > 0 {
        assert(!metas[0].stable);
        assert forall|j: int| 0 <= j < metas.skip(1).len() implies !(#[trigger] metas.skip(
            1,
        )[j]).stable by {
            assert(metas.skip(1)[j] == metas[j + 1]);
        }
        law_no_stable_installer(metas.skip(1));
    }
}

/// An installation that goes well: the installer is downloaded, written to the folder, run with Java
/// and removed; then it is over, but for the start script, which the installer of Fabric leaves out.
pub proof fn law_course_of_an_installation(m: InstallModel, code: Option<i32>)
    requires
        m.stage is Download,
    ensures
        ({
            let done = InstallReplyModel::Done;
            let jar = paths::joined_path(
                m.work_dir,
                setup::installer_name(m.kind, m.mc_version, m.installer),
            );
            let written = setup::install_advanced(m, done);
            let ran = setup::install_advanced(written.run, done);
            let removed = setup::install_advanced(
                ran.run,
                InstallReplyModel::Exited { success: true, code },
            );
            let last = setup::install_advanced(removed.run, done);
            &&& written.action == (InstallActionModel::Write { path: jar })
            &&& ran.action == (InstallActionModel::Run {
                args: setup::installer_args_of(m.kind, jar, m.mc_version, m.version),
            })
            &&& removed.action == (InstallActionModel::Remove { path: jar })
            &&& m.kind != LoaderKind::Fabric ==> last.action == InstallActionModel::Finish
            &&& m.kind == LoaderKind::Fabric ==> last.action == (InstallActionModel::WriteMissing {
                path: paths::joined_path(m.work_dir, "run.sh"@),
                content: "#!/usr/bin/env bash\nexec java -jar fabric-server-launch.jar \"$@\"\n"@,
            }) && setup::install_advanced(last.run, done).action == InstallActionModel::Finish
        }),
{
}

/// How an installation begins: with the download of the installer of the wanted version, and for Fabric
/// with the list of its installers, of which the chosen one is downloaded.
pub proof fn law_installations_begin(m: InstallModel, metas: Seq<FabricInstallerMeta>)
    ensures
        m.kind != LoaderKind::Fabric ==> setup::install_started(m).action == (
        InstallActionModel::Download {
            url: setup::installer_address(m.kind, m.mc_version, m.installer),
        }) && setup::install_started(m).run == (InstallModel {
            stage: InstallStageModel::Download,
            ..m
        }),
        m.kind == LoaderKind::Fabric ==> setup::install_started(m).action
            == InstallActionModel::FetchVersions && setup::install_started(m).run == (InstallModel {
            stage: InstallStageModel::Versions,
            ..m
        }),
        m.stage is Versions ==> ({
            let next = setup::install_advanced(m, InstallReplyModel::Versions(metas));
            &&& metas.len() == 0 ==> next.action == (InstallActionModel::Fail {
                error: "No Fabric installer versions found"@,
            })
            &&& metas.len() > 0 ==> next.run.installer == (if setup::first_stable(metas) is Some {
                setup::first_stable(metas)->0
            } else {
                metas[0].version@
            })
            &&& metas.len() > 0 ==> next.action == (InstallActionModel::Download {
                url: setup::installer_address(m.kind, m.mc_version, next.run.installer),
            }) && next.run == (InstallModel {
                stage: InstallStageModel::Download,
                installer: next.run.installer,
                ..m
            })
        }),
{
}

/// An installation that fails ends with the failure; where the installer had been run it is removed
/// first, and the failure is told all the same.
pub proof fn law_failed_installations(
    m: InstallModel,
    step: InstallStep,
    e: Seq<char>,
    code: i32,
)
    requires
        m.stage !is Over,
        m.stage !is Remove,
    ensures
        ({
            let next = setup::install_advanced(m, InstallReplyModel::Failed { step, error: e });
            &&& m.stage !is Run ==> next.action is Fail && next.run.stage is Over
            &&& m.stage is Run ==> next.action is Remove && setup::install_advanced(
                next.run,
                InstallReplyModel::Done,
            ).action == (InstallActionModel::Fail {
                error: setup::install_failure(m.kind, step, e),
            })
        }),
        m.stage is Run ==> ({
            let exit = setup::install_advanced(
                m,
                InstallReplyModel::Exited { success: false, code: Some(code) },
            );
            let lost = setup::install_advanced(
                m,
                InstallReplyModel::Exited { success: false, code: None },
            );
            let what = if m.kind == LoaderKind::Fabric {
                "Fabric installer exited with code "@
            } else {
                "Installer exited with code "@
            };
            &&& exit.action is Remove
            &&& setup::install_advanced(exit.run, InstallReplyModel::Done).action == (
            InstallActionModel::Fail { error: what + text::signed_digits(code as int) })
            &&& setup::install_advanced(lost.run, InstallReplyModel::Done).action == (
            InstallActionModel::Fail { error: what + text::signed_digits(-1) })
        }),
{
}

/// What is said of a step that failed, per loader.
pub proof fn law_failures_are_told(e: Seq<char>)
    ensures
        setup::install_failure(LoaderKind::NeoForge, InstallStep::Request, e)
            == "Download failed: "@ + e,
        setup::install_failure(LoaderKind::Forge, InstallStep::Request, e)
            == "Forge download failed: "@ + e,
        setup::install_failure(LoaderKind::Fabric, InstallStep::Request, e)
            == "Fabric download failed: "@ + e,
        setup::install_failure(LoaderKind::NeoForge, InstallStep::Status, e)
            == "Download failed: HTTP "@ + e,
        setup::install_failure(LoaderKind::Forge, InstallStep::Status, e)
            == "Forge download failed: HTTP "@ + e,
        setup::install_failure(LoaderKind::Fabric, InstallStep::Status, e)
            == "Fabric download failed: HTTP "@ + e,
        setup::install_failure(LoaderKind::NeoForge, InstallStep::Read, e)
            == "Download read error: "@ + e,
        setup::install_failure(LoaderKind::Forge, InstallStep::Read, e) == "Read error: "@ + e,
        setup::install_failure(LoaderKind::Fabric, InstallStep::Read, e) == "Read error: "@ + e,
        setup::install_failure(LoaderKind::NeoForge, InstallStep::Write, e)
            == "Failed to write installer: "@ + e,
        setup::install_failure(LoaderKind::Forge, InstallStep::Write, e)
            == "Failed to write Forge installer: "@ + e,
        setup::install_failure(LoaderKind::Fabric, InstallStep::Write, e)
            == "Failed to write Fabric installer: "@ + e,
        forall|kind: LoaderKind|
            #[trigger] setup::install_failure(kind, InstallStep::Launch, e)
                == "Failed to launch java: "@ + e + ". Is Java installed?"@,
        setup::install_failure(LoaderKind::NeoForge, InstallStep::Wait, e)
            == "Installer wait failed: "@ + e,
        setup::install_failure(LoaderKind::Forge, InstallStep::Wait, e)
            == "Installer wait failed: "@ + e,
        setup::install_failure(LoaderKind::Fabric, InstallStep::Wait, e)
            == "Fabric installer wait failed: "@ + e,
{
}

/// What is said of the list of installers and of the start script, where they fail.
pub proof fn law_other_failures_are_told(m: InstallModel, step: InstallStep, e: Seq<char>)
    ensures
        m.stage is Versions && step == InstallStep::Read ==> setup::step_failure(m, step, e)
            == "Failed to parse Fabric installer list: "@ + e,
        m.stage is Versions && step != InstallStep::Read ==> setup::step_failure(m, step, e)
            == "Failed to fetch Fabric installer list: "@ + e,
        m.stage is Script ==> setup::step_failure(m, step, e) == "Failed to create run.sh: "@ + e,
        m.stage is Download || m.stage is Write || m.stage is Run ==> setup::step_failure(
            m,
            step,
            e,
        ) == setup::install_failure(m.kind, step, e),
{
}

/// What is said while an installer is fetched and run.
pub proof fn law_progress_is_told(version: Seq<char>)
    ensures
        setup::download_line_of(LoaderKind::NeoForge, version) == "Downloading NeoForge "@ + version
            + " installer…"@,
        setup::download_line_of(LoaderKind::Forge, version) == "Downloading Forge installer…"@,
        setup::download_line_of(LoaderKind::Fabric, version) == "Downloading Fabric installer "@
            + version + "…"@,
        setup::run_line_of(LoaderKind::NeoForge)
            == "Running installer — this may take several minutes…"@,
        setup::run_line_of(LoaderKind::Forge)
            == "Running Forge installer — this may take a few minutes…"@,
        setup::run_line_of(LoaderKind::Fabric) == "Running Fabric installer…"@,
{
}

/// An update that went well sets both versions and leaves every other setting; what is told ends with
/// the version of the game.
pub proof fn law_updates_set_the_versions(
    before: InstanceConfig,
    after: InstanceConfig,
    game: Seq<char>,
    version: Seq<char>,
    id: Seq<char>,
    e: Seq<char>,
)
    ensures
        setup::versions_set(before, after, game, version) ==> after.instance.minecraft_version@
            == game && text::opt_view(after.instance.loader_version) == Some(version)
            && after.instance.loader == before.instance.loader && after.instance.name
            == before.instance.name && after.instance.display_name == before.instance.display_name
            && after.instance.port == before.instance.port && after.instance.modrinth_project_id
            == before.instance.modrinth_project_id && after.server == before.server && after.backup
            == before.backup && after.restart == before.restart && after.alerts == before.alerts
            && after.schedules == before.schedules,
        setup::update_events(id, version, Ok(())).last() == (EventModel::UpdateDone {
            id,
            minecraft_version: setup::game_for_neoforge(version),
        }),
        setup::update_events(id, version, Ok(()))[0] == (EventModel::UpdateLog {
            id,
            message: "Updated to NeoForge "@ + version + " (MC "@ + setup::game_for_neoforge(version)
                + ")."@,
        }),
        setup::update_events(id, version, Err(e)) == seq![EventModel::UpdateFailed { id, error: e }],
{
}

} // verus!
