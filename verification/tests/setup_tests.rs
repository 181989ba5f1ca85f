use msm::config;
use msm::import::LoaderKind;
use msm::java;
use msm::java::JavaDir;
use msm::setup;
use msm::setup::{FabricInstallerMeta, InstallAction, InstallReply, InstallStep, Installation};
use msm::state::{InstanceState, InstanceStatus, Registry, WsEvent};

fn meta(version: &str, stable: bool) -> FabricInstallerMeta {
    FabricInstallerMeta { version: version.to_string(), stable }
}

fn failed(step: InstallStep) -> InstallReply {
    InstallReply::Failed { step, error: "e".to_string() }
}

#[test]
fn installers_have_addresses() {
    assert_eq!(
        setup::installer_url(LoaderKind::NeoForge, "1.21.1", "21.1.5"),
        "https://maven.neoforged.net/releases/net/neoforged/neoforge/21.1.5/neoforge-21.1.5-installer.jar"
    );
    assert_eq!(
        setup::installer_url(LoaderKind::Forge, "1.20.1", "47.3.0"),
        "https://maven.minecraftforge.net/net/minecraftforge/forge/1.20.1-47.3.0/forge-1.20.1-47.3.0-installer.jar"
    );
    assert_eq!(
        setup::installer_url(LoaderKind::Fabric, "1.20.1", "1.0.1"),
        "https://maven.fabricmc.net/net/fabricmc/fabric-installer/1.0.1/fabric-installer-1.0.1.jar"
    );
    assert_eq!(setup::installer_filename(LoaderKind::Forge, "1.20.1", "47.3.0"), "forge-1.20.1-47.3.0-installer.jar");
}

#[test]
fn neoforge_is_installed() {
    let n = Installation::start(LoaderKind::NeoForge, "1.21.1", "21.1.5", "/srv");
    assert_eq!(n.log.as_deref(), Some("Downloading NeoForge 21.1.5 installer…"));
    assert!(matches!(&n.action, InstallAction::Download { url } if url.ends_with("neoforge-21.1.5-installer.jar")));
    let n = n.run.step(InstallReply::Done);
    assert!(matches!(&n.action, InstallAction::Write { path } if path == "/srv/neoforge-21.1.5-installer.jar"));
    let n = n.run.step(InstallReply::Done);
    assert_eq!(n.log.as_deref(), Some("Running installer — this may take several minutes…"));
    match &n.action {
        InstallAction::Run { args } => {
            assert_eq!(args, &vec!["-jar", "/srv/neoforge-21.1.5-installer.jar", "--installServer"])
        }
        other => panic!("{:?}", other),
    }
    let n = n.run.step(InstallReply::Exited { success: true, code: Some(0) });
    assert!(matches!(&n.action, InstallAction::Remove { path } if path == "/srv/neoforge-21.1.5-installer.jar"));
    let n = n.run.step(InstallReply::Done);
    assert!(matches!(&n.action, InstallAction::Finish));
}

#[test]
fn fabric_is_installed_with_a_script() {
    let n = Installation::start(LoaderKind::Fabric, "1.20.1", "0.15.0", "/srv");
    assert!(matches!(&n.action, InstallAction::FetchVersions));
    assert_eq!(n.log.as_deref(), Some("Fetching Fabric installer version…"));
    let n = n.run.step(InstallReply::Versions(vec![meta("2.0", false), meta("1.0", true)]));
    assert_eq!(n.log.as_deref(), Some("Downloading Fabric installer 1.0…"));
    assert!(matches!(&n.action, InstallAction::Download { url } if url.ends_with("fabric-installer-1.0.jar")));
    let n = n.run.step(InstallReply::Done);
    let n = n.run.step(InstallReply::Done);
    match &n.action {
        InstallAction::Run { args } => assert_eq!(
            args,
            &vec![
                "-jar", "/srv/fabric-installer-1.0.jar", "server", "-mcversion", "1.20.1", "-loader",
                "0.15.0", "-downloadMinecraft",
            ]
        ),
        other => panic!("{:?}", other),
    }
    let n = n.run.step(InstallReply::Exited { success: true, code: Some(0) });
    assert!(matches!(&n.action, InstallAction::Remove { .. }));
    let n = n.run.step(InstallReply::Done);
    assert!(matches!(&n.action, InstallAction::WriteMissing { path, content }
        if path == "/srv/run.sh" && content == "#!/usr/bin/env bash\nexec java -jar fabric-server-launch.jar \"$@\"\n"));
    assert!(matches!(n.run.step(InstallReply::Done).action, InstallAction::Finish));
}

#[test]
fn a_failed_installer_is_still_removed() {
    let running = |kind: LoaderKind| {
        let n = Installation::start(kind, "1.20.1", "47.3.0", "/srv");
        let n = n.run.step(InstallReply::Done);
        n.run.step(InstallReply::Done)
    };
    let n = running(LoaderKind::Forge).run.step(InstallReply::Exited { success: false, code: Some(3) });
    assert!(matches!(&n.action, InstallAction::Remove { .. }));
    let n = n.run.step(InstallReply::Done);
    assert!(matches!(&n.action, InstallAction::Fail { error } if error == "Installer exited with code 3"));
    let n = running(LoaderKind::NeoForge).run.step(InstallReply::Exited { success: false, code: None });
    let n = n.run.step(failed(InstallStep::Write));
    assert!(matches!(&n.action, InstallAction::Fail { error } if error == "Installer exited with code -1"));
    let n = running(LoaderKind::Forge).run.step(failed(InstallStep::Launch));
    let n = n.run.step(InstallReply::Done);
    assert!(matches!(&n.action, InstallAction::Fail { error } if error == "Failed to launch java: e. Is Java installed?"));
}

#[test]
fn each_step_has_its_error() {
    let text = |k, s| setup::install_error(k, s, "e");
    assert_eq!(text(LoaderKind::NeoForge, InstallStep::Request), "Download failed: e");
    assert_eq!(text(LoaderKind::NeoForge, InstallStep::Status), "Download failed: HTTP e");
    assert_eq!(text(LoaderKind::NeoForge, InstallStep::Read), "Download read error: e");
    assert_eq!(text(LoaderKind::NeoForge, InstallStep::Write), "Failed to write installer: e");
    assert_eq!(text(LoaderKind::NeoForge, InstallStep::Wait), "Installer wait failed: e");
    assert_eq!(text(LoaderKind::Forge, InstallStep::Request), "Forge download failed: e");
    assert_eq!(text(LoaderKind::Forge, InstallStep::Status), "Forge download failed: HTTP e");
    assert_eq!(text(LoaderKind::Forge, InstallStep::Read), "Read error: e");
    assert_eq!(text(LoaderKind::Fabric, InstallStep::Write), "Failed to write Fabric installer: e");
    assert_eq!(text(LoaderKind::Fabric, InstallStep::Wait), "Fabric installer wait failed: e");
    assert_eq!(setup::installer_result(LoaderKind::Fabric, false, Some(2)).unwrap_err(), "Fabric installer exited with code 2");
    assert!(setup::installer_result(LoaderKind::Fabric, true, None).is_ok());
    assert_eq!(setup::pick_fabric_installer(&vec![]).unwrap_err(), "No Fabric installer versions found");
    assert_eq!(setup::pick_fabric_installer(&vec![meta("2.0", false)]).unwrap(), "2.0");
}

#[test]
fn game_versions_follow_the_loader() {
    assert_eq!(setup::neoforge_to_mc("21.1.172"), "1.21.1");
    assert_eq!(setup::neoforge_to_mc("21.0.5"), "1.21");
    assert_eq!(setup::neoforge_to_mc("20.4.237-beta"), "1.20.4");
    assert_eq!(setup::neoforge_to_mc("21"), "21");
    assert_eq!(setup::neoforge_to_mc("21.x"), "1.21.x");
}

fn registry() -> Registry {
    let mut reg = Registry::new();
    let settings = config::auto_detect_config("/i/a", true, None, None).unwrap();
    reg.insert(InstanceState::new("a", "/i/a", settings));
    reg
}

#[test]
fn only_stopped_servers_are_updated() {
    let mut reg = registry();
    assert_eq!(setup::begin_update(&reg, "a").unwrap(), ("/i/a".to_string(), "/i/a".to_string()));
    assert_eq!(setup::begin_update(&reg, "b").unwrap_err(), "Instance 'b' not found");
    reg.list[0].status = InstanceStatus::Running;
    assert_eq!(setup::begin_update(&reg, "a").unwrap_err(), "Server must be stopped before updating.");
    reg.list[0].status = InstanceStatus::Crashed;
    assert!(setup::begin_update(&reg, "a").is_ok());
}

#[test]
fn an_update_is_recorded_and_told() {
    let mut reg = registry();
    let e = setup::update_started("a", "21.1.172");
    assert!(matches!(&e, WsEvent::UpdateLog { message, .. } if message == "Updating NeoForge to 21.1.172…"));
    let events = setup::update_server_version(&mut reg, "a", "21.1.172", &Ok(()));
    assert_eq!(events.len(), 2);
    assert!(matches!(&events[0], WsEvent::UpdateLog { message, .. } if message == "Updated to NeoForge 21.1.172 (MC 1.21.1)."));
    assert!(matches!(&events[1], WsEvent::UpdateDone { minecraft_version, .. } if minecraft_version == "1.21.1"));
    let a = reg.get("a").unwrap();
    assert_eq!(a.config.instance.minecraft_version, "1.21.1");
    assert_eq!(a.config.instance.loader_version.as_deref(), Some("21.1.172"));
}

#[test]
fn a_failed_update_changes_nothing() {
    let mut reg = registry();
    reg.list[0].status = InstanceStatus::Running;
    let refusal = setup::begin_update(&reg, "a").unwrap_err();
    for why in [refusal.as_str(), "installer"] {
        let events = setup::update_server_version(&mut reg, "a", "21.1.172", &Err(why.to_string()));
        assert_eq!(events.len(), 1);
        assert!(matches!(&events[0], WsEvent::UpdateFailed { instance_id, error } if instance_id == "a" && error == why));
        assert_eq!(reg.get("a").unwrap().config.instance.minecraft_version, "unknown");
    }
    assert_eq!(refusal, "Server must be stopped before updating.");
}

#[test]
fn a_first_installation_is_told() {
    assert!(matches!(&setup::setup_started("/s"), WsEvent::SetupLog { message } if message == "Creating directory /s…"));
    assert!(matches!(&setup::setup_dir_failed("e"), WsEvent::SetupFailed { error } if error == "Failed to create directory: e"));
    let done = setup::install_neoforge(&Ok(()), "/s");
    assert!(matches!(&done[0], WsEvent::SetupLog { message } if message == "Installation complete."));
    assert!(matches!(&done[1], WsEvent::SetupDone { server_path } if server_path == "/s"));
    let failed = setup::install_neoforge(&Err("x".to_string()), "/s");
    assert!(failed.len() == 1 && matches!(&failed[0], WsEvent::SetupFailed { error } if error == "x"));
}

#[test]
fn java_is_recommended_by_the_game() {
    for (game, java) in [
        ("1.8.9", 8), ("1.16.5", 8), ("1.17", 17), ("1.18.2", 17), ("1.19", 17), ("1.20", 17),
        ("1.20.4", 17), ("1.20.5", 21), ("1.21.1", 21), ("unknown", 21), ("1", 21), ("1.x.1", 21),
    ] {
        assert_eq!(java::recommended_java(game), java, "{}", game);
    }
}

#[test]
fn java_tells_its_version() {
    assert_eq!(java::parse_version_output("openjdk version \"21.0.3\" 2024-04-16\n"), Some(21));
    assert_eq!(java::parse_version_output("java version \"1.8.0_292\"\n"), Some(8));
    assert_eq!(java::parse_version_output("openjdk version \"22\" x"), Some(22));
    assert_eq!(java::parse_version_output("version \"22-ea\""), None);
    assert_eq!(java::parse_version_output("version \"22"), None);
    assert_eq!(java::parse_version_output("bash: java: not found"), None);
}

#[test]
fn java_folders_tell_their_version() {
    assert_eq!(java::version_from_dir_name("java-21-openjdk-amd64"), Some(21));
    assert_eq!(java::version_from_dir_name("temurin-17"), Some(17));
    assert_eq!(java::version_from_dir_name("java-1.8.0-openjdk"), Some(1));
    assert_eq!(java::version_from_dir_name("graalvm-jdk-22.1"), Some(22));
    assert_eq!(java::version_from_dir_name("default-java"), None);
    assert_eq!(java::version_from_sdkman_name("21.0.3-tem"), Some(21));
    assert_eq!(java::version_from_sdkman_name("21-open"), Some(21));
    assert_eq!(java::version_from_sdkman_name("current"), None);
}

fn folder(name: &str, exists: bool) -> JavaDir {
    JavaDir { name: name.to_string(), bin: format!("/jvm/{}/bin/java", name), exists }
}

#[test]
fn the_first_fitting_java_is_chosen() {
    let dirs = vec![
        folder("zulu-21", true),
        folder("JAVA-21-openjdk", true),
        folder("java-21-aaa", false),
        folder("java-17-openjdk", true),
    ];
    assert_eq!(java::search_dir(&dirs, 21).as_deref(), Some("/jvm/JAVA-21-openjdk/bin/java"));
    assert_eq!(java::search_dir(&dirs, 17).as_deref(), Some("/jvm/java-17-openjdk/bin/java"));
    assert_eq!(java::search_dir(&dirs, 8), None);
    let sdk = vec![folder("current", true), folder("21.0.3-tem", true), folder("21-open", true)];
    assert_eq!(java::search_sdkman(&sdk, 21).as_deref(), Some("/jvm/21-open/bin/java"));
}

#[test]
fn java_is_looked_for_in_order() {
    let s = |t: &str| Some(t.to_string());
    assert_eq!(java::find_java(21, Some(21), s("/a"), s("/b"), Some(21)), None);
    assert_eq!(java::find_java(21, Some(17), s("/a"), s("/b"), Some(21)), s("/a"));
    assert_eq!(java::find_java(21, None, None, s("/b"), Some(21)), s("/b"));
    assert_eq!(
        java::find_java(21, None, None, None, Some(21)),
        s("/opt/homebrew/opt/openjdk@21/bin/java")
    );
    assert_eq!(java::find_java(21, None, None, None, Some(17)), None);
    assert_eq!(java::brew_path(21), "/opt/homebrew/opt/openjdk@21/bin/java");
    assert_eq!(java::sdkman_dir_from(s("/home/a")), s("/home/a/.sdkman/candidates/java"));
    assert_eq!(java::sdkman_dir_from(None), None);
    if let Some(d) = java::sdkman_dir() {
        assert!(d.ends_with("/.sdkman/candidates/java"));
    }
}
