use msm::archive;
use msm::archive::{NamedText, Placement};
use msm::config;
use msm::ftb;
use msm::ftb::{FtbFile, FtbImportRequest, FtbTarget, FtbVersionDetails};
use msm::import;
use msm::import::{Import, ImportAction, ImportReply, Plan};
use msm::modpack;
use msm::modpack::{ImportRequest, PackArchive, PackFile, PackIndex};
use msm::state::{InstanceState, Registry, WsEvent};
use std::io::Write;

const ABC_SHA512: &str = "ddaf35a193617abacc417349ae20413112e6fa4e89a97ea20a9eeee64b55d39a2192992a274fc1a836ba3c23a3feebbd454d4423643ce80e2a9ac94fa54ca49f";

fn zipped(entries: &[(&str, Option<&str>)]) -> Vec<u8> {
    let mut w = zip::ZipWriter::new(std::io::Cursor::new(Vec::new()));
    for (name, content) in entries {
        let options = zip::write::SimpleFileOptions::default();
        match content {
            Some(c) => {
                w.start_file(*name, options).unwrap();
                w.write_all(c.as_bytes()).unwrap();
            }
            None => w.add_directory(*name, options).unwrap(),
        }
    }
    w.finish().unwrap().into_inner()
}

fn pack_file(path: &str, sha: Option<&str>, url: Option<&str>, server: Option<&str>) -> PackFile {
    PackFile {
        path: path.to_string(),
        sha512: sha.map(|s| s.to_string()),
        downloads: url.map(|u| vec![u.to_string()]).unwrap_or_default(),
        server: server.map(|s| s.to_string()),
    }
}

fn index(files: Vec<PackFile>, loader: Option<(&str, &str)>) -> PackIndex {
    let mut dependencies = vec![("minecraft".to_string(), "1.20.1".to_string())];
    if let Some((l, v)) = loader {
        dependencies.push((l.to_string(), v.to_string()));
    }
    PackIndex { name: "Pack".to_string(), dependencies, files }
}

fn request(name: &str, path: &str) -> ImportRequest {
    ImportRequest {
        version_id: "v".to_string(),
        server_path: path.to_string(),
        instance_name: name.to_string(),
        port: 25570,
    }
}

/// Runs an import: every step is told, and answered by `answer` where that has something to say.
fn drive(plan: Plan, answer: &dyn Fn(&ImportAction) -> Option<ImportReply>) -> (Import, Vec<String>, Vec<String>) {
    let mut next = Import::start(plan);
    let mut steps = Vec::new();
    let mut lines = Vec::new();
    loop {
        lines.append(&mut next.log);
        let reply = match &next.action {
            ImportAction::MakeDir { path } => {
                steps.push(format!("mkdir {}", path));
                ImportReply::Done
            }
            ImportAction::WriteEntry { path, parent, index } => {
                steps.push(format!("entry {} {} in {:?}", index, path, parent));
                ImportReply::Done
            }
            ImportAction::Install { kind, version } => {
                steps.push(format!("install {:?} {}", kind, version));
                ImportReply::Done
            }
            ImportAction::Download { url } => {
                steps.push(format!("get {}", url));
                ImportReply::Bytes(b"abc".to_vec())
            }
            ImportAction::Write { path } => {
                steps.push(format!("write {}", path));
                ImportReply::Done
            }
            ImportAction::FindJava { required } => {
                steps.push(format!("java {}", required));
                ImportReply::Java { path: None, system: Some(*required) }
            }
            ImportAction::WriteConfig => {
                steps.push("config".to_string());
                ImportReply::Done
            }
            ImportAction::Finish => {
                steps.push("finish".to_string());
                return (next.import, lines, steps);
            }
            ImportAction::Fail { error } => {
                steps.push(format!("fail {}", error));
                return (next.import, lines, steps);
            }
        };
        let reply = answer(&next.action).unwrap_or(reply);
        next = next.import.step(reply);
    }
}

fn last(steps: &[String]) -> &str {
    steps.last().unwrap().as_str()
}

#[test]
fn archives_are_read() {
    let bytes = zipped(&[("overrides/", None), ("overrides/a.txt", Some("hello")), ("x", Some(""))]);
    assert_eq!(archive::entry_count(&bytes).unwrap(), 3);
    assert_eq!(archive::entry_at(&bytes, 0).unwrap(), ("overrides/".to_string(), true));
    assert_eq!(archive::entry_at(&bytes, 1).unwrap(), ("overrides/a.txt".to_string(), false));
    assert_eq!(archive::entry_data(&bytes, 1).unwrap(), b"hello".to_vec());
    assert_eq!(archive::entry_data(&bytes, 2).unwrap(), Vec::<u8>::new());
    assert!(archive::entry_at(&bytes, 3).is_err());
    assert!(archive::entry_count(&b"no archive".to_vec()).is_err());
}

#[test]
fn the_manifest_is_found() {
    let bytes = zipped(&[("a", Some("x")), ("modrinth.index.json", Some("{\"name\":1}"))]);
    assert_eq!(archive::parse_mrpack_index(&bytes).unwrap(), "{\"name\":1}");
    assert_eq!(
        archive::parse_mrpack_index(&zipped(&[("a", Some("x"))])).unwrap_err(),
        "modrinth.index.json not found in mrpack"
    );
    assert!(archive::parse_mrpack_index(&vec![1, 2, 3])
        .unwrap_err()
        .starts_with("Failed to open mrpack archive: "));
    let mut broken = zip::ZipWriter::new(std::io::Cursor::new(Vec::new()));
    broken.start_file("modrinth.index.json", zip::write::SimpleFileOptions::default()).unwrap();
    broken.write_all(&[0xff, 0xfe]).unwrap();
    let broken = broken.finish().unwrap().into_inner();
    assert!(archive::parse_mrpack_index(&broken)
        .unwrap_err()
        .starts_with("Failed to read manifest: "));
    assert_eq!(archive::take_manifest(NamedText::Text("t".to_string())).unwrap(), "t");
    assert_eq!(
        archive::take_manifest(NamedText::Broken("e".to_string())).unwrap_err(),
        "Failed to open mrpack archive: e"
    );
    assert_eq!(
        archive::take_manifest(NamedText::Unreadable("e".to_string())).unwrap_err(),
        "Failed to read manifest: e"
    );
}

#[test]
fn entries_are_placed() {
    let at = |name: &str| match archive::place(name, "/srv/a") {
        Placement::At(p) => p,
        Placement::Skip => "skip".to_string(),
        Placement::Unsafe => "unsafe".to_string(),
    };
    assert_eq!(at("overrides/config/a.toml"), "/srv/a/config/a.toml");
    assert_eq!(at("server-overrides/b"), "/srv/a/b");
    assert_eq!(at("overrides/"), "skip");
    assert_eq!(at("client-overrides/b"), "skip");
    assert_eq!(at("modrinth.index.json"), "skip");
    assert_eq!(at("overrides//etc/passwd"), "unsafe");
    assert_eq!(at("overrides/../evil.sh"), "unsafe");
    assert_eq!(at("server-overrides/config/../../evil.sh"), "unsafe");
    assert_eq!(at("overrides/config/../x"), "/srv/a/config/../x");
    assert_eq!(at("overrides/config/../../a/x"), "/srv/a/config/../../a/x");
    assert_eq!(at("overrides/..a/b..c"), "/srv/a/..a/b..c");
}

#[test]
fn the_primary_archive_is_taken() {
    let files = vec![
        PackArchive { url: "u1".to_string(), filename: "a".to_string(), primary: false },
        PackArchive { url: "u2".to_string(), filename: "b".to_string(), primary: true },
    ];
    assert_eq!(modpack::mrpack_file(&files).unwrap(), ("u2".to_string(), "b".to_string()));
    assert_eq!(
        modpack::mrpack_file(&vec![]).unwrap_err(),
        "No primary file found in this version"
    );
}

#[test]
fn loaders_are_told_apart() {
    let pair = |k: &str, v: &str| (k.to_string(), v.to_string());
    let told = |deps: Vec<(String, String)>| modpack::detect_loader(&deps);
    assert_eq!(
        told(vec![pair("fabric-loader", "0.15"), pair("neoforge", "21.1")]),
        (Some("neoforge".to_string()), Some("21.1".to_string()))
    );
    assert_eq!(
        told(vec![pair("fabric-loader", "0.15")]),
        (Some("fabric".to_string()), Some("0.15".to_string()))
    );
    assert_eq!(
        told(vec![pair("quilt-loader", "0.2")]),
        (Some("quilt".to_string()), Some("0.2".to_string()))
    );
    assert_eq!(told(vec![pair("minecraft", "1.20")]), (None, None));
}

#[test]
fn a_pack_is_imported_step_by_step() {
    let bytes = zipped(&[
        ("modrinth.index.json", Some("{}")),
        ("overrides/", None),
        ("overrides/config/", None),
        ("overrides/config/a.toml", Some("x")),
    ]);
    let files = vec![
        pack_file("mods/a.jar", Some(ABC_SHA512), Some("https://x/a"), None),
        pack_file("mods/client.jar", None, Some("https://x/c"), Some("unsupported")),
        pack_file("mods/b.jar", None, None, Some("required")),
    ];
    let reg = Registry::new();
    let planned = modpack::plan_import(
        &request("My Pack", "/srv/p"),
        "proj",
        &index(files, Some(("forge", "47.3.0"))),
        bytes,
        &reg,
        "/d",
    );
    assert_eq!(planned.log, vec!["Modpack: Pack — MC 1.20.1 | forge 47.3.0".to_string()]);
    let (done, lines, steps) = drive(planned.plan.unwrap(), &|_| None);
    assert_eq!(
        steps,
        vec![
            "mkdir /srv/p",
            "mkdir /srv/p/config/",
            "entry 3 /srv/p/config/a.toml in Some(\"/srv/p/config\")",
            "install Forge 47.3.0",
            "mkdir /srv/p/mods",
            "mkdir /srv/p/mods",
            "get https://x/a",
            "write /srv/p/mods/a.jar",
            "mkdir /srv/p/mods",
            "java 17",
            "mkdir /d/instances/my-pack",
            "config",
            "finish",
        ]
    );
    assert_eq!(
        lines,
        vec![
            "Creating directory /srv/p…",
            "Extracting config overrides…",
            "Installing Forge 47.3.0…",
            "Downloading 2 mod files…",
            "[1/2] mods/a.jar",
            "[2/2] Skipping mods/b.jar (no download URL)",
            "Registering instance…",
        ]
    );
    let c = done.settings();
    assert_eq!(c.instance.name, "my-pack");
    assert_eq!(c.instance.display_name.as_deref(), Some("My Pack"));
    assert_eq!(c.instance.minecraft_version, "1.20.1");
    assert_eq!(c.instance.loader.as_deref(), Some("forge"));
    assert_eq!(c.instance.modrinth_project_id.as_deref(), Some("proj"));
    assert_eq!(c.instance.port, 25570);
    assert_eq!(c.server.path, "/srv/p");
    assert_eq!(c.backup.unwrap().keep_count, 10);
    let mut reg = reg;
    let event = done.register(&mut reg);
    assert!(matches!(&event, WsEvent::InstanceAdded { instance } if instance.id == "my-pack"));
    assert_eq!(reg.get("my-pack").unwrap().instance_dir, "/d/instances/my-pack");
}

#[test]
fn a_blank_folder_is_replaced() {
    let planned = modpack::plan_import(
        &request("A", "  "),
        "p",
        &index(vec![], None),
        zipped(&[]),
        &Registry::new(),
        "/d",
    );
    assert_eq!(planned.log, vec!["Modpack: Pack — MC 1.20.1 | vanilla".to_string()]);
    let plan = planned.plan.unwrap();
    assert_eq!(plan.server_path, "/d/servers/a");
    let (done, lines, _) = drive(plan, &|a| match a {
        ImportAction::FindJava { .. } => {
            Some(ImportReply::Java { path: Some("/j/bin/java".to_string()), system: None })
        }
        _ => None,
    });
    assert!(lines.contains(&"No known mod loader — skipping loader installation.".to_string()));
    assert!(lines.contains(
        &"Java 17 required — found at /j/bin/java — configuring instance.".to_string()
    ));
    assert_eq!(done.settings().server.java_path.as_deref(), Some("/j/bin/java"));
}

#[test]
fn a_missing_java_is_told() {
    let plan = |source_is_ftb: bool| {
        if source_is_ftb {
            ftb::plan_import(&ftb_request("A"), &ftb_version(vec![]), &Registry::new(), "/d").plan.unwrap()
        } else {
            modpack::plan_import(&request("A", ""), "p", &index(vec![], None), zipped(&[]), &Registry::new(), "/d")
                .plan
                .unwrap()
        }
    };
    let without = |a: &ImportAction| match a {
        ImportAction::FindJava { .. } => Some(ImportReply::Java { path: None, system: Some(8) }),
        _ => None,
    };
    let (_, lines, _) = drive(plan(false), &without);
    assert!(lines.contains(
        &"Warning: Java 17 required but not found on this system. Set the Java path manually in instance settings.".to_string()
    ));
    let (_, lines, _) = drive(plan(true), &without);
    assert!(lines.contains(
        &"Warning: Java 17 required but not found. Set java_path manually in instance settings.".to_string()
    ));
}

#[test]
fn imports_fail_with_a_reason() {
    let plan = |entries: &[(&str, Option<&str>)], sha: Option<&str>| {
        modpack::plan_import(
            &request("A", "/s"),
            "p",
            &index(vec![pack_file("mods/a.jar", sha, Some("u"), None)], Some(("fabric-loader", "0.15"))),
            zipped(entries),
            &Registry::new(),
            "/d",
        )
        .plan
        .unwrap()
    };
    let failing = |what: &'static str| {
        move |a: &ImportAction| {
            let hit = match a {
                ImportAction::MakeDir { path } => path == what,
                ImportAction::WriteEntry { .. } => what == "entry",
                ImportAction::Install { .. } => what == "install",
                ImportAction::Download { .. } => what == "get",
                ImportAction::Write { .. } => what == "write",
                ImportAction::WriteConfig => what == "config",
                _ => false,
            };
            if hit { Some(ImportReply::Failed("e".to_string())) } else { None }
        }
    };
    let none: &[(&str, Option<&str>)] = &[];
    let ends = |plan: Plan, what: &'static str| {
        let (_, _, steps) = drive(plan, &failing(what));
        last(&steps).to_string()
    };
    assert_eq!(ends(plan(none, None), "/s"), "fail Failed to create directory: e");
    assert_eq!(ends(plan(none, None), "install"), "fail e");
    assert_eq!(ends(plan(none, None), "get"), "fail Failed to download mods/a.jar: e");
    assert_eq!(ends(plan(none, None), "write"), "fail Failed to write mods/a.jar: e");
    assert_eq!(ends(plan(none, None), "/s/mods"), "finish");
    assert_eq!(
        ends(plan(none, None), "/d/instances/a"),
        "fail Failed to create instance directory: e"
    );
    assert_eq!(ends(plan(none, None), "config"), "fail Failed to write msm.toml: e");
    assert_eq!(ends(plan(none, Some("00")), ""), "fail Hash mismatch for mods/a.jar");
    assert_eq!(
        ends(plan(&[("overrides//x", Some("1"))], None), ""),
        "fail Unsafe path in archive: overrides//x"
    );
    let unreadable = |a: &ImportAction| match a {
        ImportAction::Download { .. } => Some(ImportReply::Unreadable("e".to_string())),
        _ => None,
    };
    let (_, _, steps) = drive(plan(none, None), &unreadable);
    assert_eq!(last(&steps), "fail Failed to read mods/a.jar: e");
}

#[test]
fn names_must_be_free() {
    let mut reg = Registry::new();
    let settings = config::auto_detect_config("/i/taken", true, None, None).unwrap();
    reg.insert(InstanceState::new("taken", "/i/taken", settings));
    let try_name = |name: &str| {
        modpack::plan_import(&request(name, ""), "p", &index(vec![], None), vec![], &reg, "/d").plan
    };
    assert_eq!(try_name("!!").unwrap_err(), "Instance name produces an empty ID");
    assert_eq!(try_name("Taken").unwrap_err(), "An instance named 'taken' already exists");
    assert_eq!(try_name("Free").unwrap().instance_id, "free");
    assert!(import::check_name(&reg, "x").is_ok());
    let no_game = PackIndex { name: "P".to_string(), dependencies: vec![], files: vec![] };
    let planned = modpack::plan_import(&request("a", ""), "p", &no_game, vec![], &reg, "/d");
    assert_eq!(
        planned.plan.unwrap_err(),
        "Modpack has no minecraft version in dependencies"
    );
    assert!(planned.log.is_empty());
}

fn ftb_request(name: &str) -> FtbImportRequest {
    FtbImportRequest {
        pack_id: 7,
        version_id: 9,
        server_path: "/srv/f".to_string(),
        instance_name: name.to_string(),
        port: 1,
    }
}

fn ftb_file(id: u64, path: &str, name: &str, url: &str, clientonly: bool) -> FtbFile {
    FtbFile { id, name: name.to_string(), path: path.to_string(), url: url.to_string(), clientonly }
}

fn ftb_version(files: Vec<FtbFile>) -> FtbVersionDetails {
    FtbVersionDetails {
        targets: vec![
            FtbTarget { name: "neoforge".to_string(), version: "20.4.237".to_string(), kind: "modloader".to_string() },
            FtbTarget { name: "minecraft".to_string(), version: "1.20.4".to_string(), kind: "game".to_string() },
        ],
        files,
    }
}

#[test]
fn files_of_another_source_are_placed() {
    let files = vec![
        ftb_file(3, "./mods", "a.jar", "", false),
        ftb_file(4, "./", "b.txt", "http://x/b", false),
        ftb_file(5, "mods", "c.jar", "", true),
        ftb_file(6, "x", "/etc/passwd", "", false),
        ftb_file(7, "mods", "../config/a.txt", "", false),
        ftb_file(8, "mods", "../../evil.sh", "", false),
    ];
    let jobs = ftb::file_jobs(&files, "/srv/f", 7, 9);
    assert_eq!(jobs.len(), 5);
    assert_eq!(jobs[3].dest, "/srv/f/mods/../config/a.txt");
    assert!(jobs[3].safe && !jobs[4].safe);
    assert_eq!(jobs[0].dest, "/srv/f/mods/a.jar");
    assert_eq!(jobs[0].label, "./mods/a.jar");
    assert_eq!(
        jobs[0].url.as_deref(),
        Some("https://api.modpacks.ch/public/modpack/7/9/file/3")
    );
    assert_eq!(jobs[1].dest, "/srv/f/b.txt");
    assert_eq!(jobs[1].url.as_deref(), Some("http://x/b"));
    assert!(jobs[0].safe && jobs[1].safe && !jobs[2].safe);
    assert_eq!(ftb::version_url(7, 9), "https://api.modpacks.ch/public/modpack/7/9");
}

#[test]
fn packs_of_another_source_are_imported() {
    let planned = ftb::plan_import(
        &ftb_request("Ätna 2"),
        &ftb_version(vec![ftb_file(3, "mods", "a.jar", "", false)]),
        &Registry::new(),
        "/d",
    );
    assert_eq!(planned.log, vec!["MC 1.20.4 | neoforge 20.4.237".to_string()]);
    let plan = planned.plan.unwrap();
    assert_eq!(plan.instance_id, "Ätna-2");
    let (done, lines, steps) = drive(plan, &|_| None);
    assert_eq!(
        steps,
        vec![
            "mkdir /srv/f",
            "install NeoForge 20.4.237",
            "mkdir /srv/f/mods",
            "get https://api.modpacks.ch/public/modpack/7/9/file/3",
            "write /srv/f/mods/a.jar",
            "java 17",
            "mkdir /d/instances/Ätna-2",
            "config",
            "finish",
        ]
    );
    assert!(lines.contains(&"Downloading 1 files…".to_string()));
    assert!(lines.contains(&"[1/1] mods/a.jar".to_string()));
    assert_eq!(done.settings().instance.modrinth_project_id, None);
}

#[test]
fn unsafe_files_end_the_import() {
    let v = ftb_version(vec![ftb_file(1, "x", "/etc/passwd", "", false)]);
    let plan = ftb::plan_import(&ftb_request("a"), &v, &Registry::new(), "/d").plan.unwrap();
    let (_, _, steps) = drive(plan, &|_| None);
    assert_eq!(last(&steps), "fail Unsafe path in manifest: x//etc/passwd");
    assert!(!steps.iter().any(|s| s.starts_with("get") || s.starts_with("write")));
}

#[test]
fn a_pack_without_a_game_is_refused() {
    let v = FtbVersionDetails { targets: vec![], files: vec![] };
    let planned = ftb::plan_import(&ftb_request("a"), &v, &Registry::new(), "/d");
    assert_eq!(planned.plan.unwrap_err(), "No Minecraft version in FTB manifest");
}

#[test]
fn outcomes_are_announced() {
    let done = import::outcome_events(&Ok(()), "/srv/p");
    assert!(matches!(&done[0], WsEvent::ModpackLog { message } if message == "Done!"));
    assert!(matches!(&done[1], WsEvent::ModpackDone { server_path } if server_path == "/srv/p"));
    let failed = import::outcome_events(&Err("why".to_string()), "/srv/p");
    assert_eq!(failed.len(), 1);
    assert!(matches!(&failed[0], WsEvent::ModpackFailed { error } if error == "why"));
    assert_eq!(import::server_dir("/x", "/d", "a"), "/x");
    assert_eq!(import::loader_text(&Some("forge".to_string()), &None), "forge");
}

#[test]
fn files_that_climb_out_end_the_import() {
    let mut v = ftb_version(vec![ftb_file(7, "mods", "../../evil.sh", "http://h/e", false)]);
    v.targets.remove(0);
    let plan = ftb::plan_import(&ftb_request("P"), &v, &Registry::new(), "/d").plan.unwrap();
    assert!(!plan.jobs[0].safe);
    let (_, _, steps) = drive(plan, &|_| None);
    assert_eq!(last(&steps), "fail Unsafe path in manifest: mods/../../evil.sh");
    assert!(!steps.iter().any(|s| s.starts_with("get") || s.starts_with("write")));
    let bytes = zipped(&[("overrides/../evil.sh", Some("x"))]);
    let plan = modpack::plan_import(
        &request("A", "/srv/p"),
        "p",
        &index(vec![], None),
        bytes,
        &Registry::new(),
        "/d",
    );
    let (_, _, steps) = drive(plan.plan.unwrap(), &|_| None);
    assert_eq!(last(&steps), "fail Unsafe path in archive: overrides/../evil.sh");
    for path in ["../evil.sh", "mods/../../evil.sh", "/etc/passwd"] {
        let files = vec![pack_file(path, None, Some("https://x/e"), None)];
        let plan = modpack::plan_import(
            &request("A", "/srv/p"),
            "p",
            &index(files, None),
            zipped(&[]),
            &Registry::new(),
            "/d",
        );
        let (_, _, steps) = drive(plan.plan.unwrap(), &|_| None);
        assert_eq!(last(&steps), format!("fail Unsafe path in manifest: {}", path));
        assert!(!steps.iter().any(|s| s.starts_with("get") || s.starts_with("write")));
    }
}

#[test]
fn files_that_stay_are_written() {
    for path in ["config/../mods/a.jar", "../p/mods/a.jar", "/srv/p/mods/a.jar"] {
        let files = vec![pack_file(path, None, Some("https://x/e"), None)];
        let jobs = modpack::file_jobs(&files, "/srv/p");
        assert!(jobs[0].safe, "{}", path);
    }
}
