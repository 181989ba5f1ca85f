use msm::config;
use msm::config::SettingsFile;
use msm::setup;

#[test]
fn defaults_are_as_documented() {
    assert_eq!(f32::from_bits(config::default_tps_min_bits()), 15.0);
    assert_eq!(config::default_tps_consecutive(), 3);
    assert_eq!(config::default_ram_pct_max(), 90);
    assert!(config::default_true());
    assert_eq!(config::default_max_attempts(), 3);
    assert_eq!(config::default_delay_secs(), 10);
    assert_eq!(config::default_warning_secs(), 300);
    let notify = config::DiscordNotifyConfig::default();
    assert!(notify.server_started && notify.health_alerts && notify.backup_failed);
    let restart = config::RestartConfig::default();
    assert!(!restart.auto_restart && restart.max_attempts == 0 && restart.schedule.is_none());
    let alerts = config::AlertConfig::default();
    assert!(!alerts.enabled && alerts.tps_min_bits == 0 && alerts.max_ram_mb == 0);
}

#[test]
fn the_dashboard_has_a_port() {
    let mut global = config::GlobalConfig::default();
    assert_eq!(config::web_port(&global), 7331);
    global.web = Some(config::WebConfig { port: None });
    assert_eq!(config::web_port(&global), 7331);
    global.web = Some(config::WebConfig { port: Some(9000) });
    assert_eq!(config::web_port(&global), 9000);
}

#[test]
fn data_lies_in_a_folder_of_its_own() {
    assert_eq!(config::data_dir_from(Some("/home/a/.local/share".to_string())), "/home/a/.local/share/msm");
    assert_eq!(config::data_dir_from(None), "./msm");
    assert!(config::data_dir().ends_with("/msm"));
    assert_eq!(config::folder("/data", "servers", "one"), "/data/servers/one");
}

fn info(run_sh: &str) -> Option<(String, String, Option<String>)> {
    config::detect_loader_info(run_sh).map(|i| (i.minecraft_version, i.loader, i.loader_version))
}

fn told(game: &str, loader: &str, version: Option<&str>) -> Option<(String, String, Option<String>)> {
    Some((game.to_string(), loader.to_string(), version.map(|v| v.to_string())))
}

#[test]
fn neoforge_is_told_by_its_path() {
    assert_eq!(
        info("java @libraries/net/neoforged/neoforge/21.1.172/unix_args.txt \"$@\""),
        told("1.21.1", "neoforge", Some("21.1.172"))
    );
    assert_eq!(info("/neoforged/neoforge/21.0.5/x"), told("1.21", "neoforge", Some("21.0.5")));
    assert_eq!(info("/neoforged/neoforge/21.x/"), None);
    assert_eq!(
        info("/neoforged/neoforge/21/ /net/minecraftforge/forge/1.20.1-47.3.0/"),
        told("1.20.1", "forge", Some("47.3.0"))
    );
}

#[test]
fn forge_is_told_by_its_path() {
    assert_eq!(
        info("@libraries/net/minecraftforge/forge/1.20.1-47.3.0/unix_args.txt"),
        told("1.20.1", "forge", Some("47.3.0"))
    );
    assert_eq!(info("/net/minecraftforge/forge/47/"), None);
}

#[test]
fn fabric_is_told_by_its_jar() {
    assert_eq!(
        info("java -jar fabric-server-mc.1.20.1-loader.0.15.0-launcher.1.0.0.jar"),
        told("1.20.1", "fabric", Some("0.15.0"))
    );
    assert_eq!(info("fabric-server-mc.1.20.1.jar"), None);
    assert_eq!(info("java -jar fabric-server-launch.jar"), told("unknown", "fabric", None));
    assert_eq!(info("java -jar server.jar"), None);
}

#[test]
fn the_script_of_fabric_is_recognised() {
    assert_eq!(info(&setup::fabric_run_sh()), told("unknown", "fabric", None));
}

#[test]
fn script_and_version_agree() {
    for v in ["21.1.172", "21.0.5", "20.4.237"] {
        let found = config::detect_loader_info(&format!("/neoforged/neoforge/{}/", v)).unwrap();
        assert_eq!(found.minecraft_version, setup::neoforge_to_mc(v));
    }
}

#[test]
fn settings_are_made_from_files() {
    let c = config::auto_detect_config(
        "/data/instances/alpha",
        true,
        Some("server-port=25570\n"),
        Some("/neoforged/neoforge/21.1.172/"),
    )
    .unwrap();
    assert_eq!(c.instance.name, "alpha");
    assert_eq!(c.instance.port, 25570);
    assert_eq!(c.instance.minecraft_version, "1.21.1");
    assert_eq!(c.instance.loader.as_deref(), Some("neoforge"));
    assert_eq!(c.instance.loader_version.as_deref(), Some("21.1.172"));
    assert_eq!(c.server.path, "/data/instances/alpha");
    let b = c.backup.unwrap();
    assert!(!b.enabled && b.keep_count == 10 && !b.world_only && b.schedule.is_none());

    let d = config::auto_detect_config("/x/beta", true, None, None).unwrap();
    assert_eq!(d.instance.port, 25565);
    assert_eq!(d.instance.minecraft_version, "unknown");
    assert!(d.instance.loader.is_none());
    assert!(config::auto_detect_config("/x/beta", false, None, None).is_none());
    assert!(config::auto_detect_config("/x/..", true, None, None).is_none());
}

#[test]
fn relative_server_paths_start_at_the_settings() {
    assert_eq!(config::resolve_server_path("/i/a", "./server"), "/i/a/./server");
    assert_eq!(config::resolve_server_path("/i/a", "/srv/a"), "/srv/a");
    let c = config::auto_detect_config("/i/a", true, None, None).unwrap();
    let mut c2 = c;
    c2.server.path = "server".to_string();
    let inst = config::load_instance_dir("/i/a", c2).unwrap();
    assert_eq!(inst.id, "a");
    assert_eq!(inst.config.server.path, "/i/a/server");
    assert_eq!(inst.instance_dir, "/i/a");
    let c3 = config::auto_detect_config("/i/a", true, None, None).unwrap();
    assert!(config::load_instance_dir("/", c3).is_none());
}

#[test]
fn read_settings_go_first() {
    let read = || config::auto_detect_config("/i/other", true, None, None).unwrap();
    let port = Some("server-port=25570");
    let chosen =
        config::choose_settings("/i/a", SettingsFile::Read(read()), true, port, None).unwrap();
    assert!(!chosen.generated);
    assert_eq!(chosen.settings.instance.name, "other");
    assert!(config::choose_settings("/i/a", SettingsFile::Bad, true, port, None).is_none());
    let chosen = config::choose_settings("/i/a", SettingsFile::Missing, true, port, None).unwrap();
    assert!(chosen.generated);
    assert_eq!((chosen.settings.instance.name.as_str(), chosen.settings.instance.port), ("a", 25570));
    assert!(config::choose_settings("/i/a", SettingsFile::Missing, false, port, None).is_none());
}

#[test]
fn shared_folders_are_told_apart() {
    assert_eq!(
        config::migration_target("/d/instances/a", "/d/instances/a/", "/d"),
        Some("/d/servers/a".to_string())
    );
    assert_eq!(config::migration_target("/d/instances/a", "/srv/a", "/d"), None);
    assert_eq!(config::migration_target("/", "/", "/d"), None);
    assert!(!config::moves_with_server("msm.toml"));
    assert!(!config::moves_with_server("mods.lock.toml"));
    assert!(!config::moves_with_server("datapacks.lock.toml"));
    assert!(config::moves_with_server("run.sh"));
}

#[test]
fn a_migration_happens_once() {
    let names: Vec<String> = ["msm.toml", "run.sh", "mods.lock.toml", "datapacks.lock.toml", "world"]
        .iter()
        .map(|n| n.to_string())
        .collect();
    let dir = "/d/instances/a";
    let m = config::plan_migration(dir, dir, "/d", false, &names).unwrap();
    assert_eq!(m.server_path, "/d/servers/a");
    assert_eq!(m.moved, vec!["run.sh".to_string(), "world".to_string()]);
    assert!(config::plan_migration(dir, dir, "/d", true, &names).is_none());
    assert!(config::plan_migration(dir, &m.server_path, "/d", false, &names).is_none());
}
