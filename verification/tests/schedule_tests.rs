use msm::backup;
use msm::backup::BackupInfo;
use msm::config;
use msm::config::{BackupConfig, RestartConfig, ScheduleEntry};
use msm::restart;
use msm::scheduler;
use msm::state::{InstanceState, InstanceStatus, Moment, Registry, WsEvent};
use msm::time;

const NOW: i64 = 1_700_000_000;

fn registry(ids: &[&str]) -> Registry {
    let mut reg = Registry::new();
    for id in ids {
        let dir = format!("/i/{}", id);
        let mut c = config::auto_detect_config(&dir, true, None, None).unwrap();
        c.server.path = format!("/srv/{}", id);
        reg.insert(InstanceState::new(id, &dir, c));
    }
    reg
}

fn at(secs: i64) -> Moment {
    Moment { secs, nanos: 0 }
}

#[test]
fn the_clock_tells_a_date() {
    let now = time::now();
    assert!(now.secs > 1_600_000_000 && now.secs < time::LAST_PLAIN_SECOND);
    assert!(now.nanos < 2_000_000_000);
}

#[test]
fn dates_are_written() {
    assert_eq!(time::ban_date(NOW), "2023-11-14 22:13:20 +0000");
    assert_eq!(time::ban_date(0), "1970-01-01 00:00:00 +0000");
    assert_eq!(time::backup_date(NOW), "2023-11-14_22-13-20");
    assert_eq!(backup::backup_filename(NOW), "2023-11-14_22-13-20.tar.zst");
}

#[test]
fn dates_are_read_back() {
    for secs in [0, 1, NOW, 4_102_444_799, time::LAST_PLAIN_SECOND] {
        assert_eq!(backup::parse_backup_timestamp(&backup::backup_filename(secs)), Some(secs));
        assert_eq!(time::read_backup_date(&time::backup_date(secs)), Some(secs));
    }
    assert_eq!(backup::parse_backup_timestamp("2023-11-14_22-13.tar.zst"), Some(1_699_999_980));
    assert_eq!(backup::parse_backup_timestamp("2023-11-14_22-13-20.tar.gz"), None);
    assert_eq!(backup::parse_backup_timestamp("other.tar.zst"), None);
    assert_eq!(backup::parse_backup_timestamp("2023-13-14_22-13-20.tar.zst"), None);
}

#[test]
fn schedules_of_five_fields_get_seconds() {
    assert_eq!(time::normalize_cron("0 4 * * *"), "0 0 4 * * *");
    assert_eq!(time::normalize_cron(" 0  4 * * * "), "0  0  4 * * * ");
    assert_eq!(time::normalize_cron("0 0 4 * * *"), "0 0 4 * * *");
    assert_eq!(time::normalize_cron("x"), "x");
}

#[test]
fn the_next_run_is_found() {
    assert_eq!(time::next_run("0 4 * * *", at(NOW)).unwrap(), Some(1_700_020_800));
    assert_eq!(time::next_run("30 15 22 * * *", at(NOW)).unwrap(), Some(1_700_000_130));
    assert_eq!(time::next_run("0 0 0 1 1 * 2020", at(NOW)).unwrap(), None);
    assert!(time::next_run("not a schedule", at(NOW)).is_err());
    assert_eq!(time::next_run("20 13 22 * * *", at(NOW)).unwrap(), Some(NOW + 86400));
}

#[test]
fn waits_end_on_time() {
    assert_eq!(time::wait_until(NOW + 2, Moment { secs: NOW, nanos: 250_000_000 }), 1_750_000_000);
    assert_eq!(time::wait_until(NOW, at(NOW)), 0);
    assert_eq!(time::wait_until(NOW, at(NOW + 5)), 0);
    assert_eq!(time::elapsed_seconds(at(NOW), Moment { secs: NOW + 9, nanos: 5 }), 9);
    assert_eq!(time::elapsed_seconds(Moment { secs: NOW, nanos: 6 }, Moment { secs: NOW + 9, nanos: 5 }), 8);
    assert_eq!(time::elapsed_seconds(at(NOW + 1), at(NOW)), 0);
}

#[test]
fn restarts_are_scheduled() {
    let mut reg = registry(&["a", "b", "c"]);
    reg.list[1].config.restart = Some(RestartConfig {
        auto_restart: false,
        max_attempts: 3,
        delay_secs: 10,
        schedule: Some("0 4 * * *".to_string()),
        warning_secs: 60,
    });
    reg.list[2].config.restart = Some(RestartConfig::default());
    let all = restart::start_restart_schedulers(&reg);
    assert_eq!(all.len(), 1);
    assert_eq!((all[0].id.as_str(), all[0].schedule.as_str(), all[0].warning_secs), ("b", "0 4 * * *", 60));
}

#[test]
fn a_countdown_is_planned() {
    assert_eq!(restart::plan_countdown(3_600_000_000_000, 300), (3_300_000_000_000, 300));
    assert_eq!(restart::plan_countdown(45_500_000_000, 300), (0, 45));
    assert_eq!(restart::plan_countdown(0, 300), (0, 0));
    assert_eq!(restart::RESTART_LIMIT_MS, 90000);
}

#[test]
fn warnings_tell_the_truth() {
    let say = |s: u64, t: &str| (s, format!("say {}", t));
    assert_eq!(
        restart::send_countdown(301),
        vec![
            say(1, "Server restarting in 5 minutes."),
            say(240, "Server restarting in 1 minute."),
            say(30, "Server restarting in 30 seconds."),
            say(20, "Server restarting in 10 seconds."),
            say(10, "Server is restarting now. See you soon!"),
        ]
    );
    assert_eq!(
        restart::send_countdown(300),
        vec![
            say(0, "Server restarting in 5 minutes."),
            say(240, "Server restarting in 1 minute."),
            say(30, "Server restarting in 30 seconds."),
            say(20, "Server restarting in 10 seconds."),
            say(10, "Server is restarting now. See you soon!"),
        ]
    );
    assert_eq!(
        restart::send_countdown(10),
        vec![
            say(0, "Server restarting in 10 seconds."),
            say(10, "Server is restarting now. See you soon!"),
        ]
    );
    assert_eq!(
        restart::send_countdown(45),
        vec![
            say(15, "Server restarting in 30 seconds."),
            say(20, "Server restarting in 10 seconds."),
            say(10, "Server is restarting now. See you soon!"),
        ]
    );
    assert_eq!(restart::send_countdown(0), vec![say(0, "Server is restarting now. See you soon!")]);
    for total in [0, 9, 10, 11, 30, 60, 61, 300, 1000] {
        let slept: u64 = restart::send_countdown(total).iter().map(|(s, _)| *s).sum();
        assert_eq!(slept, total);
    }
}

#[test]
fn only_running_servers_count_down() {
    let mut reg = registry(&["a"]);
    assert!(!restart::counts_down(&reg, "a"));
    reg.list[0].status = InstanceStatus::Starting;
    assert!(!restart::counts_down(&reg, "a"));
    reg.list[0].status = InstanceStatus::Running;
    assert!(restart::counts_down(&reg, "a"));
    assert!(!restart::counts_down(&reg, "b"));
}

fn entry(name: &str, interval_secs: u64, enabled: bool) -> ScheduleEntry {
    ScheduleEntry { name: name.to_string(), interval_secs, command: format!("say {}", name), enabled }
}

#[test]
fn commands_are_sent_when_due() {
    let mut reg = registry(&["a", "b"]);
    reg.list[0].status = InstanceStatus::Running;
    reg.list[0].config.schedules = vec![entry("x", 60, true), entry("y", 10, true), entry("z", 1, false)];
    reg.list[1].config.schedules = vec![entry("x", 1, true)];
    let (due, runs) = scheduler::run_scheduler(&reg, Vec::new(), NOW);
    assert_eq!(
        due,
        vec![
            ("a".to_string(), "x".to_string(), "say x".to_string()),
            ("a".to_string(), "y".to_string(), "say y".to_string()),
        ]
    );
    assert!(scheduler::due_commands(&reg, &runs, NOW + 9).is_empty());
    let (due, runs) = scheduler::run_scheduler(&reg, runs, NOW + 10);
    assert_eq!(due.len(), 1);
    assert_eq!(due[0].1, "y");
    assert_eq!(runs.len(), 2);
    let again: Vec<String> = scheduler::due_commands(&reg, &runs, NOW + 60).into_iter().map(|d| d.1).collect();
    assert_eq!(again, vec!["x".to_string(), "y".to_string()]);
}

fn info(name: &str, created_at: i64) -> BackupInfo {
    BackupInfo { filename: name.to_string(), size_bytes: 1, created_at }
}

#[test]
fn backups_are_listed_newest_first() {
    let files = vec![
        ("2023-11-14_22-13-20.tar.zst".to_string(), 5),
        ("notes.txt".to_string(), 1),
        ("2024-01-01_00-00-00.tar.zst".to_string(), 7),
        ("odd.zst".to_string(), 9),
    ];
    let all = backup::list_backups(&files);
    let names: Vec<&str> = all.iter().map(|b| b.filename.as_str()).collect();
    assert_eq!(names, vec!["2024-01-01_00-00-00.tar.zst", "2023-11-14_22-13-20.tar.zst", "odd.zst"]);
    assert_eq!(all[0].created_at, 1_704_067_200);
    assert_eq!(all[0].size_bytes, 7);
    assert_eq!(all[2].created_at, 0);
    let sorted = backup::sort_backups(vec![info("a", 1), info("b", 3), info("c", 1), info("d", 2)]);
    let order: Vec<&str> = sorted.iter().map(|b| b.filename.as_str()).collect();
    assert_eq!(order, vec!["b", "d", "a", "c"]);
}

#[test]
fn old_backups_are_deleted() {
    let all = vec![info("c", 3), info("b", 2), info("a", 1)];
    assert_eq!(backup::apply_retention(&all, 1), vec!["b".to_string(), "a".to_string()]);
    assert!(backup::apply_retention(&all, 3).is_empty());
    assert_eq!(backup::apply_retention(&all, 0).len(), 3);
}

#[test]
fn a_backup_follows_the_settings() {
    let mut reg = registry(&["a", "b"]);
    let p = backup::plan_backup(&reg, "a").unwrap();
    assert_eq!((p.server_path.as_str(), p.world_only, p.keep_count), ("/srv/a", false, 10));
    reg.list[1].config.backup = Some(BackupConfig {
        enabled: true,
        schedule: Some("0 3 * * *".to_string()),
        keep_count: 2,
        world_only: true,
    });
    let p = backup::plan_backup(&reg, "b").unwrap();
    assert_eq!((p.world_only, p.keep_count), (true, 2));
    reg.list[0].config.backup = None;
    assert_eq!(backup::plan_backup(&reg, "a").unwrap().keep_count, 10);
    assert_eq!(backup::plan_backup(&reg, "c").unwrap_err(), "Instance 'c' not found");
    assert_eq!(
        backup::start_schedulers(&reg),
        vec![("b".to_string(), "0 3 * * *".to_string())]
    );
    assert!(backup::belongs_to_world("world_nether", true));
    assert!(!backup::belongs_to_world("world", false));
    assert!(!backup::belongs_to_world("myworld", true));
}

#[test]
fn a_backup_is_announced() {
    let (b, e) = backup::do_create_backup("a", "2023-11-14_22-13-20.tar.zst", 9, 1);
    assert_eq!((b.created_at, b.size_bytes), (NOW, 9));
    assert!(matches!(&e, WsEvent::BackupDone { size_bytes: 9, filename, .. } if filename == "2023-11-14_22-13-20.tar.zst"));
    let (b, _) = backup::do_create_backup("a", "x.tar.zst", 9, 1);
    assert_eq!(b.created_at, 1);
    let f = backup::trigger_backup("a", "why");
    assert!(matches!(&f, WsEvent::BackupFailed { instance_id, error } if instance_id == "a" && error == "why"));
}

#[test]
fn backup_files_stay_in_their_folder() {
    assert_eq!(backup::backup_path("/d", "a", "x.tar.zst").unwrap(), "/d/backups/a/x.tar.zst");
    for bad in ["../x", "a/b", "a\\b", ".."] {
        assert!(!backup::is_plain_name(bad));
        assert_eq!(backup::backup_path("/d", "a", bad).unwrap_err(), "Invalid backup filename");
    }
    assert_eq!(backup::backup_dir_in("/d", "a"), "/d/backups/a");
    assert!(backup::backup_dir("a").ends_with("/msm/backups/a"));
}

#[test]
fn only_stopped_servers_are_restored() {
    let mut reg = registry(&["a"]);
    let ok = backup::restore_backup(&reg, "a", "x.tar.zst", "/d", true).unwrap();
    assert_eq!(ok, ("/srv/a".to_string(), "/d/backups/a/x.tar.zst".to_string()));
    let refused = |reg: &Registry, id: &str, name: &str, there: bool| {
        backup::restore_backup(reg, id, name, "/d", there).unwrap_err()
    };
    for there in [true, false] {
        assert_eq!(refused(&reg, "a", "../x", there), "Invalid backup filename");
        assert_eq!(refused(&reg, "b", "x", there), "Instance 'b' not found");
    }
    assert_eq!(refused(&reg, "a", "x", false), "Backup 'x' not found");
    reg.list[0].status = InstanceStatus::Stopping;
    for there in [true, false] {
        assert_eq!(
            refused(&reg, "a", "x", there),
            "Instance must be stopped before restoring a backup"
        );
    }
    assert_eq!(backup::missing_backup("x"), "Backup 'x' not found");
}

#[test]
fn made_backups_are_listed_and_restorable() {
    let reg = registry(&["a"]);
    for secs in [0, NOW, time::LAST_PLAIN_SECOND] {
        let name = backup::backup_filename(secs);
        let listed = backup::list_backups(&vec![(name.clone(), 3)]);
        assert_eq!(listed.len(), 1);
        assert_eq!(listed[0].created_at, secs);
        assert!(backup::restore_backup(&reg, "a", &name, "/d", true).is_ok());
    }
}

#[test]
fn the_newest_backups_are_left() {
    let name = |d: u32| format!("2026-06-{:02}_04-00.tar.zst", d);
    let mut files = vec![("notes.txt".to_string(), 1)];
    for d in [3, 1, 4, 2, 5] {
        files.push((name(d), 7));
    }
    let all = backup::list_backups(&files);
    let gone = backup::apply_retention(&all, 2);
    assert_eq!(gone, vec![name(3), name(2), name(1)]);
    files.retain(|f| !gone.contains(&f.0));
    let left: Vec<String> = backup::list_backups(&files).into_iter().map(|b| b.filename).collect();
    assert_eq!(left, vec![name(5), name(4)]);
    assert_eq!(files.len(), 3);
    assert!(backup::apply_retention(&backup::list_backups(&files), 2).is_empty());
    files.reverse();
    assert_eq!(backup::list_backups(&files)[0].filename, name(5));
}

#[test]
fn a_date_with_seconds_comes_first() {
    assert_eq!(time::pick_date(Some(1), Some(2)), Some(1));
    assert_eq!(time::pick_date(None, Some(2)), Some(2));
    assert_eq!(time::pick_date(None, None), None);
}
