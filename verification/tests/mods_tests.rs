use msm::api;
use msm::datapack_mgr;
use msm::datapack_mgr::DatapackLock;
use msm::digest;
use msm::mod_mgr;
use msm::mod_mgr::{Action, ModLock, Pending, Reply};
use msm::modrinth;
use msm::modrinth::{
    Entry, MrDependency, MrFile, MrProject, MrVersion, Update, UpdateAction, UpdateReply,
};
use msm::update_all::{BatchStep, UpdateAll};

const EMPTY_SHA512: &str = "cf83e1357eefb8bdf1542850d66d8007d620e4050b5715dc83f4a921d36ce9ce47d0d13c5d85f2b0ff8318d2877eec2f63b931bd47417a81a538327af927da3e";
const ABC_SHA512: &str = "ddaf35a193617abacc417349ae20413112e6fa4e89a97ea20a9eeee64b55d39a2192992a274fc1a836ba3c23a3feebbd454d4423643ce80e2a9ac94fa54ca49f";

fn entry(name: &str, project: &str, version: &str, file: &str, sha: &str) -> Entry {
    Entry {
        name: name.to_string(),
        modrinth_project_id: project.to_string(),
        modrinth_version_id: version.to_string(),
        version_number: format!("n-{}", version),
        filename: file.to_string(),
        sha512: sha.to_string(),
    }
}

fn file(name: &str, sha: &str, primary: bool) -> MrFile {
    MrFile {
        url: format!("https://x/{}", name),
        filename: name.to_string(),
        sha512: sha.to_string(),
        primary,
    }
}

fn version(id: &str, project: &str, files: Vec<MrFile>, deps: Vec<MrDependency>) -> MrVersion {
    MrVersion {
        id: id.to_string(),
        project_id: project.to_string(),
        version_number: format!("n-{}", id),
        files,
        dependencies: deps,
    }
}

fn dependency(version: Option<&str>, project: Option<&str>, kind: &str) -> MrDependency {
    MrDependency {
        version_id: version.map(|v| v.to_string()),
        project_id: project.map(|p| p.to_string()),
        dependency_type: kind.to_string(),
    }
}

fn named(id: &str, title: &str) -> MrProject {
    MrProject { id: id.to_string(), title: title.to_string() }
}

fn update(project: &str, version: &str, name: &str, sha: &str) -> Update {
    Update {
        project_id: project.to_string(),
        name: project.to_uppercase(),
        installed_version_id: "old".to_string(),
        installed_version_number: "1".to_string(),
        latest_version_id: version.to_string(),
        latest_version_number: "2".to_string(),
        download_url: format!("https://x/{}", name),
        filename: name.to_string(),
        sha512: sha.to_string(),
    }
}

fn error_of(a: &Action) -> String {
    match a {
        Action::Fail { error } => error.clone(),
        other => panic!("{:?}", other),
    }
}

fn update_error(a: &UpdateAction) -> String {
    match a {
        UpdateAction::Fail { error } => error.clone(),
        other => panic!("{:?}", other),
    }
}

#[test]
fn fingerprints_are_those_of_the_standard() {
    assert_eq!(digest::fingerprint(&Vec::new()), EMPTY_SHA512);
    assert_eq!(digest::fingerprint(&b"abc".to_vec()), ABC_SHA512);
}

#[test]
fn downloads_are_checked() {
    let data = b"abc".to_vec();
    assert_eq!(digest::verify_download(&data, ABC_SHA512, "a.jar").unwrap(), ABC_SHA512);
    assert_eq!(
        digest::verify_download(&data, EMPTY_SHA512, "a.jar").unwrap_err(),
        "SHA512 mismatch for a.jar: file may be corrupted"
    );
    assert!(digest::verify_download(&data, &ABC_SHA512.to_uppercase(), "a.jar").is_err());
    assert!(digest::accept_fingerprint("x", "x", "f").is_ok());
}

#[test]
fn files_are_chosen_by_their_extension() {
    let all: Vec<String> =
        ["/m/a.jar", "/m/b.zip", "/m/c.jar.disabled", "/m/.jar", "/m/d.JAR"].iter().map(|s| s.to_string()).collect();
    assert_eq!(mod_mgr::mod_files(&all), vec!["/m/a.jar".to_string()]);
    assert_eq!(datapack_mgr::datapack_files(&all), vec!["/m/b.zip".to_string()]);
}

#[test]
fn known_files_are_listed_by_name() {
    let files = vec![
        ("h1".to_string(), "/m/one.jar".to_string()),
        ("h2".to_string(), "/m/two.jar".to_string()),
        ("h3".to_string(), "/m/three.jar".to_string()),
    ];
    let found = vec![
        ("h2".to_string(), version("v2", "p2", vec![], vec![])),
        ("h1".to_string(), version("v1", "p1", vec![], vec![])),
        ("h9".to_string(), version("v9", "p9", vec![], vec![])),
    ];
    let ids = modrinth::project_ids(&found);
    assert_eq!(ids, vec!["p2".to_string(), "p1".to_string(), "p9".to_string()]);
    let lock = mod_mgr::scan_mods(&files, &found, &vec![named("p1", "Alpha")]);
    assert_eq!(lock.mods.len(), 2);
    assert_eq!(lock.mods[0].name, "Alpha");
    assert_eq!(lock.mods[0].filename, "one.jar");
    assert_eq!(lock.mods[0].sha512, "h1");
    assert_eq!(lock.mods[1].name, "p2");
    let packs = datapack_mgr::scan_datapacks(&files, &found, &vec![named("p2", "Zeta")]);
    assert_eq!(packs.datapacks[0].name, "Zeta");
    assert_eq!(packs.datapacks[1].name, "p1");
}

#[test]
fn projects_are_asked_for_once() {
    let found = vec![
        ("a".to_string(), version("v1", "p", vec![], vec![])),
        ("b".to_string(), version("v2", "p", vec![], vec![])),
    ];
    assert_eq!(modrinth::project_ids(&found), vec!["p".to_string()]);
}

#[test]
fn the_primary_file_is_preferred() {
    let v = vec![file("a", "1", false), file("b", "2", true), file("c", "3", true)];
    assert_eq!(modrinth::pick_file(&v).unwrap().filename, "b");
    assert_eq!(modrinth::pick_file(&vec![file("a", "1", false)]).unwrap().filename, "a");
    assert!(modrinth::pick_file(&vec![]).is_none());
}

#[test]
fn newer_versions_are_offered() {
    let lock = ModLock {
        mods: vec![
            entry("Beta", "pb", "v1", "b.jar", "hb"),
            entry("Alpha", "pa", "v1", "a.jar", "ha"),
            entry("Gamma", "pg", "v1", "g.jar", "hg"),
        ],
    };
    let latest = vec![
        ("hb".to_string(), version("v2", "pb", vec![file("b2.jar", "x", true)], vec![])),
        ("ha".to_string(), version("v2", "pa", vec![file("a2.jar", "y", false)], vec![])),
        ("hg".to_string(), version("v1", "pg", vec![file("g.jar", "z", true)], vec![])),
        ("hx".to_string(), version("v1", "px", vec![file("x.jar", "z", true)], vec![])),
    ];
    let offers = mod_mgr::check_updates(&lock, &latest);
    assert_eq!(offers.len(), 2);
    assert_eq!(offers[0].name, "Alpha");
    assert_eq!(offers[0].installed_version_id, "v1");
    assert_eq!(offers[0].latest_version_id, "v2");
    assert_eq!(offers[0].download_url, "https://x/a2.jar");
    assert_eq!(offers[1].name, "Beta");
    assert_eq!(modrinth::hashes_of(&lock.mods), vec!["hb", "ha", "hg"]);
    let empty = vec![("hb".to_string(), version("v2", "pb", vec![], vec![]))];
    assert!(mod_mgr::check_updates(&lock, &empty).is_empty());
    let packs = DatapackLock { datapacks: vec![entry("Beta", "pb", "v1", "b.zip", "hb")] };
    assert_eq!(datapack_mgr::check_updates(&packs, &latest).len(), 1);
}

#[test]
fn an_update_is_downloaded_checked_written_and_recorded() {
    let lock = ModLock { mods: vec![entry("P", "p", "v1", "old.jar", "h")] };
    let (run, action) = mod_mgr::apply_update(lock, update("p", "v2", "new.jar", ABC_SHA512)).unwrap();
    assert!(matches!(&action, UpdateAction::Download { url } if url == "https://x/new.jar"));
    let (run, action) = run.step(UpdateReply::Bytes(b"abc".to_vec()));
    assert!(matches!(&action, UpdateAction::Write { filename } if filename == "new.jar"));
    assert_eq!(run.lock[0].filename, "old.jar");
    let (run, action) = run.step(UpdateReply::Done);
    assert!(matches!(&action, UpdateAction::Remove { filename } if filename == "old.jar"));
    let (run, action) = run.step(UpdateReply::Done);
    assert!(matches!(&action, UpdateAction::Finish));
    assert_eq!(run.lock[0].modrinth_version_id, "v2");
    assert_eq!(run.lock[0].version_number, "2");
    assert_eq!(run.lock[0].filename, "new.jar");
    assert_eq!(run.lock[0].sha512, ABC_SHA512);
    assert_eq!(run.lock[0].name, "P");
    let latest = vec![(
        ABC_SHA512.to_string(),
        version("v2", "p", vec![file("new.jar", ABC_SHA512, true)], vec![]),
    )];
    assert!(modrinth::newer_versions(&run.lock, &latest).is_empty());
}

#[test]
fn a_file_of_the_same_name_is_not_removed() {
    let lock = DatapackLock { datapacks: vec![entry("P", "p", "v1", "same.zip", "h")] };
    let (run, _) = datapack_mgr::apply_update(lock, update("p", "v2", "same.zip", ABC_SHA512)).unwrap();
    let (run, _) = run.step(UpdateReply::Bytes(b"abc".to_vec()));
    let (run, action) = run.step(UpdateReply::Done);
    assert!(matches!(&action, UpdateAction::Finish));
    assert_eq!(run.lock[0].modrinth_version_id, "v2");
}

#[test]
fn updates_fail_without_a_trace_in_the_list() {
    let lock = || ModLock { mods: vec![entry("P", "p", "v1", "old.jar", "h")] };
    assert_eq!(
        mod_mgr::apply_update(lock(), update("q", "v2", "new.jar", ABC_SHA512)).unwrap_err(),
        "Mod 'q' not in lock file"
    );
    assert_eq!(
        datapack_mgr::apply_update(DatapackLock { datapacks: vec![] }, update("q", "v", "n", "s")).unwrap_err(),
        "Datapack 'q' not in lock file"
    );
    let begin = || mod_mgr::apply_update(lock(), update("p", "v2", "new.jar", ABC_SHA512)).unwrap().0;
    let (run, a) = begin().step(UpdateReply::Failed("e".to_string()));
    assert_eq!(update_error(&a), "Download failed for P: e");
    assert_eq!(run.lock[0].modrinth_version_id, "v1");
    let (_, a) = begin().step(UpdateReply::Unreadable("e".to_string()));
    assert_eq!(update_error(&a), "Download read failed: e");
    let (_, a) = begin().step(UpdateReply::Bytes(b"abd".to_vec()));
    assert_eq!(update_error(&a), "SHA512 mismatch for new.jar: file may be corrupted");
    let (run, _) = begin().step(UpdateReply::Bytes(b"abc".to_vec()));
    let (_, a) = run.step(UpdateReply::Failed("e".to_string()));
    assert_eq!(update_error(&a), "Failed to write new.jar: e");
    let (run, _) = begin().step(UpdateReply::Bytes(b"abc".to_vec()));
    let (run, _) = run.step(UpdateReply::Done);
    let (run, a) = run.step(UpdateReply::Failed("e".to_string()));
    assert_eq!(update_error(&a), "Failed to remove old file old.jar: e");
    assert_eq!(run.lock[0].modrinth_version_id, "v1");
}

#[test]
fn a_mod_brings_its_dependencies() {
    let (run, action) = mod_mgr::add_mod(ModLock { mods: vec![] }, "p1", "v1", "1.21.1", "neoforge");
    assert!(matches!(&action, Action::FetchVersion { url } if url == "https://api.modrinth.com/v2/version/v1"));
    let deps = vec![
        dependency(Some("v2"), Some("p2"), "required"),
        dependency(None, Some("p3"), "required"),
        dependency(Some("v4"), Some("p4"), "optional"),
        dependency(None, Some("p1"), "required"),
    ];
    let (run, action) =
        run.step(Reply::Version(version("v1", "p1", vec![file("one.jar", ABC_SHA512, true)], deps)));
    assert!(matches!(&action, Action::Download { url } if url == "https://x/one.jar"));
    let (run, action) = run.step(Reply::Bytes(b"abc".to_vec()));
    assert!(matches!(&action, Action::Write { filename } if filename == "one.jar"));
    let (run, action) = run.step(Reply::Written);
    assert!(matches!(&action, Action::FetchProject { url } if url == "https://api.modrinth.com/v2/project/p1"));
    let (run, action) = run.step(Reply::Project(named("p1", "Zed")));
    assert!(matches!(&action, Action::FetchVersions { url, .. } if url == "https://api.modrinth.com/v2/project/p3/version"));
    let asked = vec![
        ("loaders".to_string(), "[\"neoforge\"]".to_string()),
        ("game_versions".to_string(), "[\"1.21.1\"]".to_string()),
    ];
    assert!(matches!(&action, Action::FetchVersions { query, .. } if *query == asked));
    let (run, action) = run.step(Reply::Versions(vec![
        version("v3", "p3", vec![], vec![]),
        version("v33", "p3", vec![], vec![]),
    ]));
    assert!(matches!(&action, Action::FetchVersion { url } if url == "https://api.modrinth.com/v2/version/v3"));
    let (run, action) =
        run.step(Reply::Version(version("v3", "p3", vec![file("three.jar", EMPTY_SHA512, false)], vec![])));
    assert!(matches!(&action, Action::Download { .. }));
    let (run, _) = run.step(Reply::Bytes(vec![]));
    let (run, _) = run.step(Reply::Written);
    let (run, action) = run.step(Reply::Project(named("p3", "Able")));
    assert!(matches!(&action, Action::FetchVersion { url } if url == "https://api.modrinth.com/v2/version/v2"));
    let (run, action) = run.step(Reply::Version(version("v2", "p3", vec![], vec![])));
    assert!(matches!(&action, Action::Finish), "{:?}", action);
    let names: Vec<&str> = run.progress.lock.iter().map(|e| e.name.as_str()).collect();
    assert_eq!(names, vec!["Able", "Zed"]);
    let order: Vec<&str> = run.progress.installed.iter().map(|e| e.modrinth_project_id.as_str()).collect();
    assert_eq!(order, vec!["p1", "p3"]);
}

#[test]
fn a_listed_mod_is_left_alone() {
    let lock = ModLock { mods: vec![entry("P", "p", "v0", "p.jar", "h")] };
    let (run, action) = mod_mgr::add_mod(lock, "p", "v1", "1.21.1", "neoforge");
    assert!(matches!(&action, Action::Finish));
    assert!(matches!(run.pending, Pending::Over));
    assert!(run.progress.installed.is_empty());
    assert_eq!(run.progress.lock[0].modrinth_version_id, "v0");
}

#[test]
fn adding_a_mod_reports_each_failure() {
    let begin = || mod_mgr::add_mod(ModLock { mods: vec![] }, "p", "v", "1.21.1", "neoforge").0;
    let e = || "e".to_string();
    assert_eq!(error_of(&begin().step(Reply::Failed(e())).1), "Modrinth request failed: e");
    assert_eq!(error_of(&begin().step(Reply::Unreadable(e())).1), "Modrinth parse error: e");
    assert_eq!(
        error_of(&begin().step(Reply::Version(version("v", "p", vec![], vec![]))).1),
        "No files found for version v"
    );
    let fetched = || {
        let deps = vec![dependency(None, Some("d"), "required")];
        begin().step(Reply::Version(version("v", "p", vec![file("f.jar", ABC_SHA512, true)], deps))).0
    };
    assert_eq!(error_of(&fetched().step(Reply::Failed(e())).1), "Download failed: e");
    assert_eq!(error_of(&fetched().step(Reply::Unreadable(e())).1), "Download read failed: e");
    assert_eq!(
        error_of(&fetched().step(Reply::Bytes(vec![1])).1),
        "SHA512 mismatch for f.jar: file may be corrupted"
    );
    let loaded = || fetched().step(Reply::Bytes(b"abc".to_vec())).0;
    assert_eq!(error_of(&loaded().step(Reply::Failed(e())).1), "Failed to write f.jar: e");
    let written = || loaded().step(Reply::Written).0;
    assert_eq!(error_of(&written().step(Reply::Failed(e())).1), "Modrinth request failed: e");
    let titled = || written().step(Reply::Project(named("p", "P"))).0;
    assert_eq!(error_of(&titled().step(Reply::Failed(e())).1), "Dependency lookup failed for d: e");
    assert_eq!(error_of(&titled().step(Reply::Unreadable(e())).1), "Dependency parse error for d: e");
    assert!(matches!(titled().step(Reply::Versions(vec![])).1, Action::Finish));
}

#[test]
fn an_added_pack_stands_alone() {
    let lock = DatapackLock {
        datapacks: vec![entry("Old", "p", "v0", "old.zip", "h"), entry("Zed", "z", "v0", "z.zip", "h")],
    };
    let (run, action) = datapack_mgr::add_datapack(lock, "p", "v1");
    assert!(matches!(&action, Action::FetchVersion { .. }), "{:?}", action);
    let (run, _) = run.step(Reply::Version(version("v1", "p", vec![file("new.zip", ABC_SHA512, true)], vec![])));
    let (run, _) = run.step(Reply::Bytes(b"abc".to_vec()));
    let (run, action) = run.step(Reply::Written);
    assert!(matches!(&action, Action::FetchProject { .. }), "{:?}", action);
    let (run, action) = run.step(Reply::Project(named("p", "New")));
    assert!(matches!(&action, Action::Finish));
    assert_eq!(run.added.unwrap().filename, "new.zip");
    let of_p: Vec<&Entry> = run.lock.iter().filter(|e| e.modrinth_project_id == "p").collect();
    assert_eq!(of_p.len(), 1);
    assert_eq!(of_p[0].filename, "new.zip");
    assert_eq!(run.lock.len(), 2);
}

#[test]
fn datapacks_lie_in_the_world() {
    assert_eq!(datapack_mgr::default_datapacks_dir("/s"), "/s/world/datapacks");
    assert_eq!(
        datapack_mgr::find_datapacks_dir("/s", true, Some("level-name=other\n")),
        "/s/world/datapacks"
    );
    assert_eq!(
        datapack_mgr::find_datapacks_dir("/s", false, Some("level-name=other\n")),
        "/s/other/datapacks"
    );
    assert_eq!(datapack_mgr::find_datapacks_dir("/s", false, None), "/s/world/datapacks");
}

#[test]
fn queries_are_written_as_json() {
    let q = mod_mgr::search_mods("jei \"x\"", "1.21.1", "neoforge");
    assert_eq!(q[0], ("query".to_string(), "jei \"x\"".to_string()));
    assert_eq!(
        q[1],
        (
            "facets".to_string(),
            "[[\"project_type:mod\"],[\"categories:neoforge\"],[\"versions:1.21.1\"]]".to_string()
        )
    );
    assert_eq!(q[2], ("limit".to_string(), "20".to_string()));
    let d = datapack_mgr::search_datapacks("t", "1.20");
    assert_eq!(d[1].1, "[[\"project_type:datapack\"],[\"versions:1.20\"]]");
    let f = modrinth::fitting_query("1.20\"", "fabric");
    assert_eq!(f[0], ("loaders".to_string(), "[\"fabric\"]".to_string()));
    assert_eq!(f[1], ("game_versions".to_string(), "[\"1.20\\\"\"]".to_string()));
    let t = modrinth::titles_query(&vec!["a".to_string(), "b\n".to_string()]);
    assert_eq!(t, vec![("ids".to_string(), "[\"a\",\"b\\n\"]".to_string())]);
    assert_eq!(modrinth::address("/project/", "x", "/version"), "https://api.modrinth.com/v2/project/x/version");
}

#[test]
fn newer_versions_are_asked_for() {
    let lock = ModLock {
        mods: vec![entry("A", "p", "v1", "a.jar", "h1"), entry("B", "q", "v2", "b.jar", "h2")],
    };
    let r = mod_mgr::update_request(&lock, "1.21.1", "neoforge").unwrap();
    assert_eq!(r.hashes, vec!["h1".to_string(), "h2".to_string()]);
    assert_eq!(r.algorithm, "sha512");
    assert_eq!(r.loaders, Some(vec!["neoforge".to_string()]));
    assert_eq!(r.game_versions, Some(vec!["1.21.1".to_string()]));
    assert!(mod_mgr::update_request(&ModLock { mods: vec![] }, "1.21.1", "neoforge").is_none());
    let packs = DatapackLock { datapacks: vec![entry("A", "p", "v1", "a.zip", "h3")] };
    let r = datapack_mgr::update_request(&packs, "1.21.1").unwrap();
    assert_eq!(r.hashes, vec!["h3".to_string()]);
    assert_eq!(r.loaders, None);
    assert!(datapack_mgr::update_request(&DatapackLock { datapacks: vec![] }, "1").is_none());
    let r = modrinth::scan_request(&vec![("h".to_string(), "/m/a.jar".to_string())]);
    assert_eq!(r.hashes, vec!["h".to_string()]);
    assert_eq!((r.loaders, r.game_versions), (None, None));
}

#[test]
fn an_installed_update_is_not_offered_again() {
    let latest = |hash: &str| {
        vec![(hash.to_string(), version("v2", "p", vec![file("b.jar", "h2", true)], vec![]))]
    };
    let mut lock = ModLock { mods: vec![entry("A", "p", "v1", "a.jar", "h1")] };
    let offered = mod_mgr::check_updates(&lock, &latest("h1"));
    assert_eq!(offered.len(), 1);
    modrinth::record_update(&mut lock.mods, &offered[0]);
    assert_eq!(lock.mods[0].modrinth_version_id, "v2");
    assert!(mod_mgr::check_updates(&lock, &latest("h2")).is_empty());
    assert!(mod_mgr::check_updates(&lock, &latest("h1")).is_empty());
}

fn batch(step: BatchStep) -> (UpdateAll, UpdateAction) {
    match step {
        BatchStep::Go { all, action } => (all, action),
        other => panic!("{:?}", other),
    }
}

#[test]
fn all_updates_are_made_in_order() {
    let lock = || ModLock {
        mods: vec![entry("A", "p", "v1", "a.jar", "h1"), entry("B", "q", "v1", "b.jar", "h2")],
    };
    let updates = || {
        vec![update("q", "v2", "b2.jar", ABC_SHA512), update("p", "v3", "a.jar", EMPTY_SHA512)]
    };
    let (all, action) = batch(api::update_all_mods(lock(), updates()));
    assert!(matches!(&action, UpdateAction::Download { url } if url == "https://x/b2.jar"));
    let (all, action) = batch(all.step(UpdateReply::Bytes(b"abc".to_vec())));
    assert!(matches!(&action, UpdateAction::Write { filename } if filename == "b2.jar"));
    let (all, action) = batch(all.step(UpdateReply::Done));
    assert!(matches!(&action, UpdateAction::Remove { filename } if filename == "b.jar"));
    let (all, action) = batch(all.step(UpdateReply::Done));
    assert!(matches!(&action, UpdateAction::Download { url } if url == "https://x/a.jar"));
    let (all, _) = batch(all.step(UpdateReply::Bytes(vec![])));
    match all.step(UpdateReply::Done) {
        BatchStep::WriteList { lock } => {
            let versions: Vec<&str> = lock.iter().map(|e| e.modrinth_version_id.as_str()).collect();
            assert_eq!(versions, vec!["v3", "v2"]);
            assert_eq!(lock[1].filename, "b2.jar");
        }
        other => panic!("{:?}", other),
    }
    let (all, _) = batch(api::update_all_mods(lock(), updates()));
    let failed = all.step(UpdateReply::Failed("why".to_string()));
    assert!(matches!(&failed, BatchStep::Fail { error } if error == "Q: Download failed for Q: why"));
    let unknown = api::update_all_mods(lock(), vec![update("z", "v", "z.jar", "h")]);
    assert!(matches!(&unknown, BatchStep::Fail { error } if error.starts_with("Z: ")));
    assert!(matches!(api::update_all_mods(lock(), vec![]), BatchStep::WriteList { .. }));
}
