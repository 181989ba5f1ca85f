use msm::api;
use msm::api::{
    AddInstanceRequest, CopyBackupRequest, FtbImportRequest, ImportModpackRequest, InstallRequest,
    JavaConfigRequest, PackRef, RestartConfigRequest, UpdateVersionRequest,
};
use msm::ban;
use msm::ban::BannedPlayer;
use msm::config;
use msm::discord;
use msm::discord::Command;
use msm::instance;
use msm::modrinth::Update;
use msm::state::{InstanceState, InstanceStatus, Moment, Registry, WsEvent};
use msm::whitelist;
use msm::whitelist::WhitelistEntry;

const NOW: Moment = Moment { secs: 1_700_000_000, nanos: 0 };

fn registry() -> Registry {
    let mut reg = Registry::new();
    for (id, shown) in [("zed", "Alpha"), ("ant", "Beta")] {
        let dir = format!("/i/{}", id);
        let mut c = config::auto_detect_config(&dir, true, None, None).unwrap();
        c.server.path = format!("/srv/{}", id);
        c.instance.display_name = Some(shown.to_string());
        reg.insert(InstanceState::new(id, &dir, c));
    }
    reg
}

fn failure<T>(r: Result<T, api::Failure>) -> (u16, String) {
    match r {
        Ok(_) => panic!("no failure"),
        Err((code, e)) => (code, e.error),
    }
}

fn request(id: &str) -> AddInstanceRequest {
    AddInstanceRequest {
        id: id.to_string(),
        display_name: "Shown".to_string(),
        server_path: "/srv/new".to_string(),
        minecraft_version: "1.21".to_string(),
        port: 25566,
        java_path: Some("  ".to_string()),
    }
}

#[test]
fn instances_are_listed_by_shown_name() {
    let infos = api::list_instances(&registry());
    let names: Vec<&str> = infos.iter().map(|i| i.display_name.as_str()).collect();
    assert_eq!(names, vec!["Alpha", "Beta"]);
    assert_eq!(infos[0].id, "zed");
}

#[test]
fn outcomes_get_a_status() {
    assert_eq!(api::answer(&Ok(()), api::NO_CONTENT, api::BAD_REQUEST).unwrap(), 204);
    assert_eq!(
        failure(api::answer(&Err("x".to_string()), api::NO_CONTENT, api::BAD_REQUEST)),
        (400, "x".to_string())
    );
    let (code, e) = api::err(418, "tea");
    assert_eq!((code, e.error.as_str()), (418, "tea"));
}

#[test]
fn unknown_instances_are_not_found() {
    let reg = registry();
    assert_eq!(failure(api::get_logs(&reg, "x")), (404, "Instance 'x' not found".to_string()));
    assert!(api::get_logs(&reg, "ant").unwrap().is_empty());
    assert_eq!(api::find_instance(&reg, "ant").unwrap().id, "ant");
    assert_eq!(failure(api::mod_context(&reg, "x")).0, 404);
}

#[test]
fn a_new_instance_gets_an_id() {
    let mut reg = registry();
    assert_eq!(api::new_instance_id(&reg, &request("My New!")).unwrap(), "my-new");
    assert_eq!(
        failure(api::new_instance_id(&reg, &request("!!"))),
        (400, "Invalid instance ID".to_string())
    );
    assert_eq!(
        failure(api::new_instance_id(&reg, &request("Zed"))),
        (409, "Instance 'zed' already exists".to_string())
    );
    let (code, e) = api::missing_server_path("/srv/new");
    assert_eq!((code, e.error.as_str()), (400, "Server path '/srv/new' does not exist"));
    let check = |id: &str, there: bool| api::check_new_instance(&reg, &request(id), there);
    assert_eq!(check("My New!", true).unwrap(), "my-new");
    assert_eq!(
        failure(check("My New!", false)),
        (400, "Server path '/srv/new' does not exist".to_string())
    );
    for there in [true, false] {
        assert_eq!(failure(check("!!", there)), (400, "Invalid instance ID".to_string()));
        assert_eq!(failure(check("Zed", there)), (409, "Instance 'zed' already exists".to_string()));
    }
    let settings = api::new_instance_settings(&request("My New!"), "my-new");
    assert_eq!(settings.instance.loader.as_deref(), Some("neoforge"));
    assert_eq!(settings.server.java_path, None);
    assert_eq!(settings.server.path, "/srv/new");
    assert_eq!(settings.backup.as_ref().unwrap().keep_count, 10);
    let info = api::add_instance(&mut reg, "my-new", "/d/instances/my-new", settings);
    assert_eq!((info.name.as_str(), info.display_name.as_str(), info.port), ("my-new", "Shown", 25566));
    assert!(reg.contains("my-new"));
    assert_eq!(api::unless_blank(&Some(" a ".to_string())).as_deref(), Some(" a "));
}

#[test]
fn backups_are_copied_between_instances() {
    let reg = registry();
    let to = |id: &str| CopyBackupRequest { target_instance_id: id.to_string() };
    assert_eq!(
        api::copy_backup(&reg, "zed", "x.tar.zst", &to("ant"), "/d").unwrap(),
        ("/d/backups/zed/x.tar.zst".to_string(), "/d/backups/ant/x.tar.zst".to_string())
    );
    assert_eq!(
        failure(api::copy_backup(&reg, "q", "x", &to("ant"), "/d")),
        (404, "Instance 'q' not found".to_string())
    );
    assert_eq!(
        failure(api::copy_backup(&reg, "zed", "x", &to("q"), "/d")),
        (404, "Target instance 'q' not found".to_string())
    );
    assert_eq!(
        failure(api::copy_backup(&reg, "zed", "../x", &to("ant"), "/d")),
        (400, "Invalid backup filename".to_string())
    );
    assert_eq!(api::disposition("x.tar.zst"), "attachment; filename=\"x.tar.zst\"");
}

#[test]
fn mods_fall_back_to_the_usual_loader() {
    let mut reg = registry();
    let c = api::mod_context(&reg, "ant").unwrap();
    assert_eq!((c.server_path.as_str(), c.instance_dir.as_str()), ("/srv/ant", "/i/ant"));
    assert_eq!((c.mc_version.as_str(), c.loader.as_str()), ("unknown", "neoforge"));
    reg.list[1].config.instance.loader = Some("fabric".to_string());
    assert_eq!(api::mod_context(&reg, "ant").unwrap().loader, "fabric");
}

fn update(project: &str) -> Update {
    Update {
        project_id: project.to_string(),
        name: "N".to_string(),
        installed_version_id: String::new(),
        installed_version_number: String::new(),
        latest_version_id: String::new(),
        latest_version_number: String::new(),
        download_url: String::new(),
        filename: String::new(),
        sha512: String::new(),
    }
}

#[test]
fn single_updates_are_found() {
    let updates = vec![update("a"), update("b")];
    assert_eq!(api::update_single_mod(&updates, "b").unwrap(), 1);
    assert_eq!(
        failure(api::update_single_mod(&updates, "c")),
        (404, "No update available for this mod".to_string())
    );
}

#[test]
fn requests_are_checked() {
    let reg = registry();
    let version = |v: &str| UpdateVersionRequest { neoforge_version: v.to_string() };
    assert_eq!(api::update_server_version(&reg, "ant", &version("21.1")).unwrap(), 202);
    assert_eq!(
        failure(api::update_server_version(&reg, "ant", &version(" "))),
        (400, "neoforge_version is required".to_string())
    );
    assert_eq!(failure(api::update_server_version(&reg, "q", &version("1"))).0, 404);
    let install = |v: &str, p: &str| InstallRequest { version: v.to_string(), server_path: p.to_string() };
    assert_eq!(api::install_neoforge(&install("1", "/s")).unwrap(), 202);
    assert_eq!(
        failure(api::install_neoforge(&install("1", " "))),
        (400, "version and server_path are required".to_string())
    );
    let pack = |v: &str, n: &str| ImportModpackRequest {
        version_id: v.to_string(),
        server_path: "/s".to_string(),
        instance_name: n.to_string(),
        port: 1,
    };
    assert_eq!(api::import_modpack(pack("v", "n")).unwrap().version_id, "v");
    assert_eq!(
        failure(api::import_modpack(pack("v", ""))),
        (400, "version_id and instance_name are required".to_string())
    );
    let ftb = |n: &str| FtbImportRequest {
        pack_id: 1,
        version_id: 2,
        server_path: String::new(),
        instance_name: n.to_string(),
        port: 3,
    };
    assert_eq!(api::import_ftb_pack(ftb("n")).unwrap().pack_id, 1);
    assert_eq!(
        failure(api::import_ftb_pack(ftb(" "))),
        (400, "instance_name is required".to_string())
    );
    assert_eq!(api::required_text("  Bob ", "username").unwrap(), "Bob");
    assert_eq!(failure(api::required_text(" ", "ip")), (400, "ip is required".to_string()));
}

#[test]
fn pack_numbers_are_collected() {
    let packs = vec![PackRef::Number(5), PackRef::Other, PackRef::Object(Some(6)), PackRef::Object(None)];
    assert_eq!(api::ftb_search(&packs), vec![5, 6]);
    let many: Vec<PackRef> = (0..20).map(PackRef::Number).collect();
    assert_eq!(api::ftb_search(&many), (0..12).collect::<Vec<u64>>());
}

#[test]
fn settings_are_changed() {
    let mut reg = registry();
    let dir = api::set_java_config(
        &mut reg,
        "ant",
        &JavaConfigRequest { java_path: Some("/j/bin/java".to_string()) },
    )
    .unwrap();
    assert_eq!(dir, "/i/ant");
    assert_eq!(reg.get("ant").unwrap().config.server.java_path.as_deref(), Some("/j/bin/java"));
    api::set_java_config(&mut reg, "ant", &JavaConfigRequest { java_path: Some(" ".to_string()) }).unwrap();
    assert_eq!(reg.get("ant").unwrap().config.server.java_path, None);
    assert_eq!(failure(api::set_java_config(&mut reg, "q", &JavaConfigRequest { java_path: None })).0, 404);
    let req = RestartConfigRequest {
        auto_restart: true,
        max_attempts: 5,
        delay_secs: 6,
        schedule: Some("  ".to_string()),
        warning_secs: 7,
    };
    assert_eq!(api::update_restart_config(&mut reg, "zed", &req).unwrap(), "/i/zed");
    let r = reg.get("zed").unwrap().config.restart.clone().unwrap();
    assert!(r.auto_restart && r.max_attempts == 5 && r.delay_secs == 6 && r.warning_secs == 7);
    assert_eq!(r.schedule, None);
    assert_eq!(failure(api::update_restart_config(&mut reg, "q", &req)).0, 404);
}

fn listed(name: &str) -> WhitelistEntry {
    WhitelistEntry { uuid: "u".to_string(), name: name.to_string() }
}

#[test]
fn the_whitelist_changes() {
    let list = whitelist::add_to_whitelist(vec![listed("Bob")], listed("Eve")).unwrap();
    assert_eq!(list.len(), 2);
    assert_eq!(
        whitelist::add_to_whitelist(vec![listed("Bob")], listed("bOB")).unwrap_err(),
        "'bOB' is already whitelisted"
    );
    let left = whitelist::remove_from_whitelist(&list, "EVE").unwrap();
    assert_eq!(left.len(), 1);
    assert_eq!(left[0].name, "Bob");
    assert_eq!(
        whitelist::remove_from_whitelist(&left, "Eve").unwrap_err(),
        "'Eve' is not whitelisted"
    );
    assert!(whitelist::master_path().ends_with("/msm/whitelist.json"));
}

#[test]
fn lists_go_to_every_server() {
    let mut reg = registry();
    instance::set_status(&mut reg, "ant", InstanceStatus::Running);
    let all = whitelist::sync_all(&reg);
    assert_eq!(ban::sync_all(&reg).len(), 2);
    assert_eq!(all.len(), 2);
    assert_eq!((all[0].server_path.as_str(), all[0].reload), ("/srv/zed", false));
    assert_eq!((all[1].id.as_str(), all[1].reload), ("ant", true));
    assert_eq!(whitelist::RELOAD_COMMAND, "whitelist reload");
    assert_eq!(ban::RELOAD_COMMAND, "banlist reload");
}

#[test]
fn players_are_looked_up() {
    assert_eq!(
        whitelist::lookup_url("Bob"),
        "https://api.mojang.com/users/profiles/minecraft/Bob"
    );
    assert!(whitelist::lookup_player("Bob", 200).is_ok());
    assert_eq!(whitelist::lookup_player("Bob", 404).unwrap_err(), "Player 'Bob' not found");
    assert_eq!(whitelist::lookup_player("Bob", 204).unwrap_err(), "Player 'Bob' not found");
    assert_eq!(whitelist::lookup_player("Bob", 500).unwrap_err(), "Mojang API returned HTTP 500");
    assert_eq!(
        whitelist::format_uuid("069a79f444e94726a5befca90e38aaf5").unwrap(),
        "069a79f4-44e9-4726-a5be-fca90e38aaf5"
    );
    assert_eq!(
        whitelist::format_uuid("069a").unwrap_err(),
        "Unexpected UUID length from Mojang: '069a'"
    );
    let e = whitelist::profile_entry("069a79f444e94726a5befca90e38aaf5", "Notch").unwrap();
    assert_eq!((e.uuid.as_str(), e.name.as_str()), ("069a79f4-44e9-4726-a5be-fca90e38aaf5", "Notch"));
}

fn banned(name: &str) -> BannedPlayer {
    ban::player_ban_at("u".to_string(), name.to_string(), "r".to_string(), 1_700_000_000)
}

#[test]
fn players_are_banned_and_unbanned() {
    let b = banned("Bob");
    assert_eq!(b.created, "2023-11-14 22:13:20 +0000");
    assert_eq!((b.source.as_str(), b.expires.as_str(), b.reason.as_str()), ("MSM", "forever", "r"));
    let list = ban::ban_player(vec![banned("Bob")], banned("Eve")).unwrap();
    assert_eq!(ban::ban_player(vec![banned("Bob")], banned("BOB")).unwrap_err(), "'BOB' is already banned");
    assert_eq!(ban::check_player(&list, "eve").unwrap_err(), "'eve' is already banned");
    assert!(ban::check_player(&list, "Ann").is_ok());
    let left = ban::unban_player(&list, "eve").unwrap();
    assert_eq!(left.len(), 1);
    assert_eq!(ban::unban_player(&left, "eve").unwrap_err(), "'eve' is not banned");
    let fresh = ban::new_player_ban("u".to_string(), "n".to_string(), "r".to_string());
    assert!(fresh.created.ends_with(" +0000") && fresh.created > "2020".to_string());
}

#[test]
fn addresses_are_banned_and_unbanned() {
    let at = |ip: &str| ban::ip_ban_at(ip.to_string(), "r".to_string(), 0);
    let list = ban::ban_ip(vec![at("1.2.3.4")], at("a")).unwrap();
    assert_eq!(list[1].created, "1970-01-01 00:00:00 +0000");
    assert_eq!(ban::check_ip(&list, "a").unwrap_err(), "'a' is already banned");
    assert!(ban::check_ip(&list, "A").is_ok());
    assert!(ban::ban_ip(vec![at("a")], at("a")).is_err());
    assert_eq!(ban::unban_ip(&list, "a").unwrap().len(), 1);
    assert_eq!(ban::unban_ip(&list, "A").unwrap_err(), "'A' is not banned");
    assert_eq!(ban::new_ip_ban("x".to_string(), "r".to_string()).expires, "forever");
    assert_eq!(ban::reason_or_default(""), "Banned by an operator.");
    assert_eq!(ban::reason_or_default(" "), " ");
    assert_eq!(ban::banned_players_path("/d"), "/d/banned-players.json");
    assert_eq!(ban::banned_ips_path("/d"), "/d/banned-ips.json");
}

#[test]
fn the_bot_tells_the_status() {
    let mut reg = registry();
    assert_eq!(discord::status(&reg, NOW), "⚫ No server is currently running.");
    assert_eq!(discord::players(&reg), "⚫ No server is running.");
    assert_eq!(discord::running_instance(&reg), None);
    assert_eq!(discord::list(&Registry::new()), "No instances configured.");
    instance::begin_run(&mut reg, "ant", NOW).unwrap();
    assert_eq!(
        discord::status(&reg, Moment { secs: NOW.secs + 3725, nanos: 0 }),
        "🟢 **Beta** — 0 player(s) online — up 01:02:05"
    );
    assert_eq!(discord::players(&reg), "No players online on **Beta**.");
    assert_eq!(discord::running_instance(&reg), Some(("ant".to_string(), "Beta".to_string())));
    instance::process_log_line(&mut reg, "ant", "[x]: Bob joined the game", 1);
    instance::process_log_line(&mut reg, "ant", "[x]: Eve joined the game", 1);
    assert_eq!(discord::players(&reg), "**Beta** — 2 player(s): `Bob`, `Eve`");
    assert_eq!(discord::list(&reg), "⚫ **Alpha** — STOPPED\n🟡 **Beta** — STARTING");
    reg.list[1].started_at = None;
    assert_eq!(discord::status(&reg, NOW), "🟢 **Beta** — 2 player(s) online — up unknown");
    assert_eq!(discord::format_uptime(360000), "100:00:00");
    for (s, icon, label) in [
        (InstanceStatus::Running, "🟢", "RUNNING"),
        (InstanceStatus::Stopping, "🟠", "STOPPING"),
        (InstanceStatus::Crashed, "🔴", "CRASHED"),
    ] {
        assert_eq!((discord::status_icon(s), discord::status_label(s)), (icon, label));
    }
}

#[test]
fn the_bot_completes_names() {
    let reg = registry();
    assert_eq!(discord::autocomplete_instance(&reg, ""), vec!["ant", "zed"]);
    assert_eq!(discord::autocomplete_instance(&reg, "ALPH"), vec!["zed"]);
    assert_eq!(discord::autocomplete_instance(&reg, "An"), vec!["ant"]);
    assert!(discord::autocomplete_instance(&reg, "x").is_empty());
}

#[test]
fn the_bot_answers_commands() {
    let ok = Ok(());
    let no = Err("why".to_string());
    assert_eq!(discord::reply(Command::Start, "a", &ok), "▶ Starting **a**…");
    assert_eq!(discord::reply(Command::Stop, "A", &ok), "⏹ Stopping **A**…");
    assert_eq!(discord::reply(Command::Restart, "A", &ok), "🔄 **A** is restarting.");
    assert_eq!(discord::reply(Command::Switch, "a", &ok), "🔀 Switched to **a**.");
    assert_eq!(discord::reply(Command::Backup, "A", &ok), "💾 Backup of **A** started…");
    assert_eq!(discord::reply(Command::Console, "list", &ok), "`> list`");
    assert_eq!(discord::reply(Command::Start, "a", &no), "❌ why");
    assert_eq!(discord::reply(Command::RestartStop, "a", &no), "❌ Stop failed: why");
    assert_eq!(discord::reply(Command::Restart, "a", &no), "❌ Start failed after stop: why");
    assert_eq!(discord::ip(" 1.2.3.4\n"), "🌐 Public IP: `1.2.3.4`");
    assert_eq!(discord::RESTART_WARNING, "say [MSM] Server restarting in 30 seconds!");
}

#[test]
fn the_bot_waits_for_the_stop() {
    let mut reg = registry();
    instance::begin_run(&mut reg, "ant", NOW).unwrap();
    instance::stop_instance(&mut reg, "ant").unwrap();
    assert!(discord::restart(&reg, "ant", 0));
    assert!(discord::restart(&reg, "ant", 59999));
    assert!(!discord::restart(&reg, "ant", 60000));
    instance::finish_run(&mut reg, "ant", None);
    assert!(!discord::restart(&reg, "ant", 0));
    assert!(!discord::restart(&reg, "q", 0));
}

#[test]
fn the_bot_notifies() {
    let id = || "a".to_string();
    let changed = |status| WsEvent::StateChanged { instance_id: id(), status };
    let text = |e: &WsEvent| discord::notify_task(e);
    assert_eq!(text(&changed(InstanceStatus::Running)).as_deref(), Some("🟢 **a** is now running."));
    assert_eq!(text(&changed(InstanceStatus::Stopped)).as_deref(), Some("⚫ **a** has stopped."));
    assert_eq!(text(&changed(InstanceStatus::Crashed)).as_deref(), Some("🔴 **a** has crashed!"));
    assert_eq!(text(&changed(InstanceStatus::Starting)), None);
    let joined = WsEvent::PlayerJoined { instance_id: id(), player: "Bob".to_string() };
    assert_eq!(text(&joined).as_deref(), Some("→ `Bob` joined **a**"));
    let left = WsEvent::PlayerLeft { instance_id: id(), player: "Bob".to_string() };
    assert_eq!(text(&left).as_deref(), Some("← `Bob` left **a**"));
    let done = WsEvent::BackupDone { instance_id: id(), filename: "f".to_string(), size_bytes: 1_572_864 };
    assert_eq!(text(&done).as_deref(), Some("💾 Backup of **a** done — `f` (1.5 MB)"));
    let failed = WsEvent::BackupFailed { instance_id: id(), error: "e".to_string() };
    assert_eq!(text(&failed).as_deref(), Some("⚠️ Backup of **a** failed: e"));
    assert_eq!(text(&WsEvent::SetupLog { message: id() }), None);
}

#[test]
fn sizes_are_shown_like_quotients_of_doubles() {
    let mut sizes = vec![0, 1, 52428, 52429, 262144, 786432, 1_572_864, u64::MAX, u64::MAX - 1];
    for k in 0..64u32 {
        for d in [0u64, 1, 2, 3, 511, 512, 513, 1023, 1024, 1025] {
            sizes.push((1u64 << k).wrapping_add(d));
            sizes.push((1u64 << k).wrapping_sub(d));
            sizes.push((0x9e37_79b9_7f4a_7c15u64 >> k).wrapping_add(d));
        }
    }
    for m in 0..4000u64 {
        sizes.push(m * 262144);
        sizes.push(m * 104857 + m / 7);
    }
    for n in sizes {
        assert_eq!(discord::megabytes(n), format!("{:.1}", n as f64 / 1_048_576.0), "{}", n);
    }
}
