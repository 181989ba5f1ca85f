use msm::config;
use msm::config::{InstanceConfig, InstanceMeta, RestartConfig, ServerConfig};
use msm::instance;
use msm::instance::{StopWait, Switch};
use msm::metrics;
use msm::metrics::TpsPoll;
use msm::metrics_db::ActiveSessions;
use msm::sse;
use msm::state;
use msm::state::{InstanceInfo, InstanceState, InstanceStatus, Moment, Registry, WsEvent};

const NOW: Moment = Moment { secs: 1_700_000_000, nanos: 5 };

fn settings(name: &str) -> InstanceConfig {
    InstanceConfig {
        instance: InstanceMeta {
            name: name.to_string(),
            display_name: Some(format!("The {}", name)),
            minecraft_version: "1.21.1".to_string(),
            loader: Some("neoforge".to_string()),
            loader_version: None,
            port: 25565,
            modrinth_project_id: None,
        },
        server: ServerConfig {
            path: format!("/srv/{}", name),
            java_opts: Some("-Xmx4G".to_string()),
            java_path: None,
        },
        backup: config::new_backup_config(),
        restart: None,
        alerts: None,
        schedules: Vec::new(),
    }
}

fn registry() -> Registry {
    let mut reg = Registry::new();
    reg.insert(InstanceState::new("a", "/i/a", settings("a")));
    reg.insert(InstanceState::new("b", "/i/b", settings("b")));
    reg
}

fn status_of(reg: &Registry, id: &str) -> InstanceStatus {
    reg.get(id).unwrap().status
}

fn text_of(e: &WsEvent) -> String {
    format!("{:?}", e)
}

#[test]
fn added_instances_are_found() {
    let mut reg = registry();
    assert!(reg.contains("a") && reg.contains("b") && !reg.contains("c"));
    assert!(reg.get("c").is_none());
    reg.insert(InstanceState::new("a", "/other", settings("a")));
    assert_eq!(reg.list.len(), 2);
    assert_eq!(reg.get("a").unwrap().instance_dir, "/other");
    assert_eq!(reg.find_running(), None);
}

#[test]
fn a_new_instance_is_stopped_and_empty() {
    let reg = registry();
    let a = reg.get("a").unwrap();
    assert_eq!(a.status, InstanceStatus::Stopped);
    assert!(a.players.is_empty() && a.log_buffer.is_empty() && a.started_at.is_none());
    assert_eq!(a.restart_attempts, 0);
    assert_eq!(a.display(), "The a");
    let info = InstanceInfo::from(a);
    assert_eq!(info.name, "a");
    assert_eq!(info.display_name, "The a");
    assert_eq!(info.port, 25565);
    assert_eq!(info.started_at, None);
    let mut c = settings("z");
    c.instance.display_name = None;
    assert_eq!(InstanceState::new("z", "/i/z", c).display(), "z");
}

#[test]
fn starting_takes_the_one_place() {
    let mut reg = registry();
    let launch = instance::start_instance(&reg, "a").unwrap();
    assert_eq!(launch.server_path, "/srv/a");
    assert_eq!(launch.java_opts.as_deref(), Some("-Xmx4G"));
    assert_eq!(launch.java_path, None);
    let e = instance::begin_run(&mut reg, "a", NOW).unwrap();
    assert!(matches!(e, WsEvent::StateChanged { status: InstanceStatus::Starting, .. }));
    assert_eq!(status_of(&reg, "a"), InstanceStatus::Starting);
    assert_eq!(InstanceInfo::from(reg.get("a").unwrap()).started_at, Some(1_700_000_000));
    assert_eq!(
        instance::start_instance(&reg, "b").unwrap_err(),
        "Instance 'The a' is already running. Stop it first."
    );
    assert_eq!(status_of(&reg, "b"), InstanceStatus::Stopped);
    assert_eq!(reg.find_running(), Some(0));
}

#[test]
fn unknown_instances_do_not_start() {
    assert_eq!(
        instance::start_instance(&registry(), "c").unwrap_err(),
        "Instance 'c' not found"
    );
}

#[test]
fn the_licence_is_accepted_once() {
    assert!(instance::eula_missing(None));
    assert!(instance::eula_missing(Some("eula=false\n")));
    assert!(!instance::eula_missing(Some("#x\neula=true\n")));
    assert!(!instance::eula_missing(Some(instance::EULA_ACCEPTED)));
}

#[test]
fn java_is_put_into_the_environment() {
    let none = instance::launch_env(&None, &None, "/bin");
    assert!(none.is_empty());
    let all = instance::launch_env(
        &Some("-Xmx1G".to_string()),
        &Some("/usr/lib/jvm/java-21/bin/java".to_string()),
        "/usr/bin:/bin",
    );
    let expected = [
        ("JAVA_TOOL_OPTIONS", "-Xmx1G"),
        ("PATH", "/usr/lib/jvm/java-21/bin:/usr/bin:/bin"),
        ("JAVA_HOME", "/usr/lib/jvm/java-21"),
    ];
    assert_eq!(all.len(), 3);
    for (found, wanted) in all.iter().zip(expected.iter()) {
        assert_eq!((found.0.as_str(), found.1.as_str()), *wanted);
    }
    let bare = instance::launch_env(&None, &Some("java".to_string()), "/bin");
    assert_eq!(bare, vec![("PATH".to_string(), ":/bin".to_string())]);
}

#[test]
fn player_lines_are_recognised() {
    let line = "[12:00:00] [Server thread/INFO]: Steve_1 joined the game";
    assert_eq!(instance::parse_player_event(line, "joined the game"), Some("Steve_1".to_string()));
    assert_eq!(instance::parse_player_event(line, "left the game"), None);
    assert_eq!(
        instance::parse_player_event("[x]: <Steve> Bob joined the game", "joined the game"),
        None
    );
    assert_eq!(instance::parse_player_event("[x]: a joined the game", "joined the game"), None);
    assert_eq!(
        instance::parse_player_event("[x]: é joined the game", "joined the game"),
        Some("é".to_string())
    );
    assert_eq!(instance::parse_player_event("Bob joined the game", "joined the game"), None);
}

#[test]
fn players_come_and_go() {
    let mut reg = registry();
    instance::begin_run(&mut reg, "a", NOW).unwrap();
    let events = instance::process_log_line(&mut reg, "a", "[x]: Bob joined the game", 7);
    assert_eq!(events.len(), 2);
    assert!(matches!(&events[0], WsEvent::LogLine { timestamp: 7, .. }));
    assert!(matches!(&events[1], WsEvent::PlayerJoined { player, .. } if player == "Bob"));
    instance::process_log_line(&mut reg, "a", "[x]: Bob joined the game", 8);
    assert_eq!(reg.get("a").unwrap().players, vec!["Bob".to_string()]);
    let events = instance::process_log_line(&mut reg, "a", "[x]: Bob left the game", 9);
    assert!(matches!(&events[1], WsEvent::PlayerLeft { player, .. } if player == "Bob"));
    assert!(reg.get("a").unwrap().players.is_empty());
    assert!(reg.get("b").unwrap().log_buffer.is_empty());
}

#[test]
fn the_ready_line_makes_it_run_and_forgets_attempts() {
    let mut reg = registry();
    instance::begin_run(&mut reg, "a", NOW).unwrap();
    reg.list[0].restart_attempts = 2;
    let events = instance::process_log_line(
        &mut reg,
        "a",
        "[x]: Done (5.1s)! For help, type \"help\"",
        7,
    );
    assert!(matches!(&events[1], WsEvent::StateChanged { status: InstanceStatus::Running, .. }));
    assert_eq!(status_of(&reg, "a"), InstanceStatus::Running);
    assert_eq!(reg.get("a").unwrap().restart_attempts, 0);
}

#[test]
fn tick_lines_are_recorded() {
    let mut reg = registry();
    instance::begin_run(&mut reg, "a", NOW).unwrap();
    let events =
        instance::process_log_line(&mut reg, "a", "Overall: Mean tick time: 1 ms. Mean TPS: 19.95", 7);
    assert!(
        matches!(&events[1], WsEvent::Metrics { ram_mb: 0, tps: Some(t), .. } if t == "19.95"),
        "{}",
        text_of(&events[1])
    );
    assert_eq!(reg.get("a").unwrap().tps.as_deref(), Some("19.95"));
    let e = metrics::record_ram(&mut reg, "a", 512);
    assert!(matches!(&e, WsEvent::Metrics { ram_mb: 512, tps: Some(t), .. } if t == "19.95"));
    assert_eq!(reg.get("a").unwrap().ram_mb, Some(512));
}

#[test]
fn ticks_agree_with_the_parser_of_numbers() {
    for s in ["TPS: 20.000", "TPS: 5", "TPS: .5", "TPS: 5.", "TPS: .", "TPS: 1.2.3", "TPS: x", "tps: 1", "TPS: 7abc"] {
        let expected: Option<f32> = s.find("TPS: ").and_then(|p| {
            let rest = &s[p + 5..];
            let end = rest.find(|c: char| !c.is_ascii_digit() && c != '.').unwrap_or(rest.len());
            rest[..end].parse().ok()
        });
        let found: Option<f32> = metrics::parse_tps(s).map(|t| t.parse().unwrap());
        assert_eq!(found, expected, "{}", s);
    }
}

#[test]
fn memory_is_read() {
    assert_eq!(metrics::read_proc_ram("Name:\tjava\nVmRSS:\t  2048 kB\n"), Some(2));
    assert_eq!(metrics::read_proc_ram("VmRSS:\t 1023 kB\n"), Some(0));
    assert_eq!(metrics::read_proc_ram("VmRSS:\n"), None);
    assert_eq!(metrics::read_proc_ram("VmRSS: x\nVmRSS: 2048\n"), None);
    assert_eq!(metrics::read_proc_ram("Name: x\n"), None);
}

#[test]
fn polls_follow_the_status() {
    let mut reg = registry();
    assert!(!metrics::ram_task_goes_on(&reg, "a"));
    assert_eq!(metrics::tps_poll(&reg, "a"), TpsPoll::Stop);
    instance::begin_run(&mut reg, "a", NOW).unwrap();
    assert!(metrics::ram_task_goes_on(&reg, "a"));
    assert_eq!(metrics::tps_poll(&reg, "a"), TpsPoll::Stop);
    instance::set_status(&mut reg, "a", InstanceStatus::Running);
    assert_eq!(metrics::tps_poll(&reg, "a"), TpsPoll::Ask);
    reg.list[0].config.instance.loader = Some("fabric".to_string());
    assert_eq!(metrics::tps_poll(&reg, "a"), TpsPoll::Skip);
    assert_eq!(metrics::tps_poll(&reg, "c"), TpsPoll::Stop);
}

#[test]
fn only_the_latest_lines_are_kept() {
    let mut reg = registry();
    instance::begin_run(&mut reg, "a", NOW).unwrap();
    for i in 0..state::LOG_LIMIT + 5 {
        instance::process_log_line(&mut reg, "a", &format!("line {}", i), i as i64);
    }
    let a = reg.get("a").unwrap();
    assert_eq!(a.log_buffer.len(), 1000);
    assert_eq!(a.log_buffer[0].line, "line 5");
    assert_eq!(a.log_buffer[999].line, "line 1004");
    let h = sse::histories(&reg);
    assert_eq!(h.len(), 1);
    assert_eq!(h[0].instance_id, "a");
    assert_eq!(h[0].lines.len(), 1000);
    assert_eq!(h[0].lines[0].timestamp, 5);
    assert_eq!(sse::all_infos(&reg).len(), 2);
}

#[test]
fn an_exit_tells_stop_from_crash() {
    let ended = |stopping: bool, exit: Option<bool>| {
        let mut reg = registry();
        instance::begin_run(&mut reg, "a", NOW).unwrap();
        if stopping {
            instance::stop_instance(&mut reg, "a").unwrap();
        }
        instance::finish_run(&mut reg, "a", exit);
        assert!(reg.get("a").unwrap().started_at.is_none());
        status_of(&reg, "a")
    };
    assert_eq!(ended(false, Some(true)), InstanceStatus::Stopped);
    assert_eq!(ended(false, Some(false)), InstanceStatus::Crashed);
    assert_eq!(ended(true, Some(false)), InstanceStatus::Stopped);
    assert_eq!(ended(true, None), InstanceStatus::Crashed);
    assert_eq!(ended(false, None), InstanceStatus::Crashed);
}

#[test]
fn restarts_come_to_an_end() {
    let mut reg = registry();
    reg.list[0].config.restart = Some(RestartConfig {
        auto_restart: true,
        max_attempts: 2,
        delay_secs: 4,
        schedule: None,
        warning_secs: 300,
    });
    instance::begin_run(&mut reg, "a", NOW).unwrap();
    for expected in 1..=2 {
        instance::finish_run(&mut reg, "a", Some(false));
        let (retry, event) = instance::run_with_restart(&mut reg, "a").unwrap();
        assert_eq!((retry.attempt, retry.max_attempts, retry.delay_secs), (expected, 2, 4));
        assert!(matches!(event, WsEvent::AutoRestarting { max_attempts: 2, .. }));
        let e = instance::resume_run(&mut reg, "a", NOW).unwrap();
        assert!(matches!(e, WsEvent::StateChanged { status: InstanceStatus::Starting, .. }));
    }
    instance::finish_run(&mut reg, "a", Some(false));
    assert!(instance::run_with_restart(&mut reg, "a").is_none());
}

#[test]
fn a_stop_is_not_restarted() {
    let mut reg = registry();
    instance::begin_run(&mut reg, "a", NOW).unwrap();
    instance::finish_run(&mut reg, "a", Some(false));
    assert!(instance::run_with_restart(&mut reg, "a").is_none());
    assert!(instance::run_with_restart(&mut reg, "c").is_none());
}

#[test]
fn only_active_instances_stop() {
    let mut reg = registry();
    assert_eq!(instance::stop_instance(&mut reg, "c").unwrap_err(), "Instance 'c' not found");
    assert_eq!(instance::stop_instance(&mut reg, "a").unwrap_err(), "Instance 'a' is not running");
    instance::begin_run(&mut reg, "a", NOW).unwrap();
    let e = instance::stop_instance(&mut reg, "a").unwrap();
    assert!(matches!(e, WsEvent::StateChanged { status: InstanceStatus::Stopping, .. }));
    assert_eq!(instance::stop_instance(&mut reg, "a").unwrap_err(), "Instance 'a' is not running");
    assert_eq!(instance::STOP_COMMAND, "stop");
}

#[test]
fn switching_makes_room() {
    let mut reg = registry();
    assert!(matches!(instance::switch_instance(&mut reg, "b"), Ok(Switch::Start)));
    assert_eq!(instance::switch_instance(&mut reg, "c").unwrap_err(), "Instance 'c' not found");
    instance::begin_run(&mut reg, "a", NOW).unwrap();
    assert_eq!(
        instance::switch_instance(&mut reg, "a").unwrap_err(),
        "Instance 'a' is already running"
    );
    match instance::switch_instance(&mut reg, "b").unwrap() {
        Switch::Await { running_id, .. } => assert_eq!(running_id, "a"),
        Switch::Start => unreachable!(),
    }
    assert_eq!(status_of(&reg, "a"), InstanceStatus::Stopping);
    assert_eq!(instance::await_stop(&reg, "a", 0, 60000), StopWait::Again(500));
    assert_eq!(instance::await_stop(&reg, "a", 60000, 60000), StopWait::TimedOut);
    instance::finish_run(&mut reg, "a", Some(true));
    assert_eq!(instance::await_stop(&reg, "a", 500, 60000), StopWait::Stopped);
    assert_eq!(instance::await_stop(&reg, "c", 0, 60000), StopWait::Stopped);
    assert!(instance::start_instance(&reg, "b").is_ok());
}

#[test]
fn a_slow_stop_is_terminated() {
    let mut reg = registry();
    instance::begin_run(&mut reg, "a", NOW).unwrap();
    instance::stop_instance(&mut reg, "a").unwrap();
    assert!(!instance::term_due(&reg, "a", 29999));
    assert!(instance::term_due(&reg, "a", 30000));
    instance::finish_run(&mut reg, "a", Some(true));
    assert!(!instance::term_due(&reg, "a", 30000));
}

#[test]
fn commands_need_a_process() {
    assert!(instance::send_command("a", Some(true)).is_ok());
    assert_eq!(
        instance::send_command("a", Some(false)).unwrap_err(),
        "Failed to send command — is the server still running?"
    );
    assert_eq!(instance::send_command("a", None).unwrap_err(), "Instance 'a' is not running");
}

#[test]
fn sessions_open_and_close() {
    let mut s = ActiveSessions::new();
    s.record_player_join("a", "Bob", 1);
    s.record_player_join("b", "Bob", 2);
    s.record_player_join("a", "Eve", 3);
    s.record_player_join("a", "Bob", 4);
    assert_eq!(s.record_player_leave("a", "Bob"), Some(4));
    assert_eq!(s.record_player_leave("a", "Bob"), None);
    assert_eq!(s.record_player_leave("b", "Bob"), Some(2));
    assert_eq!(s.open.len(), 1);
}

#[test]
fn one_server_runs_at_a_time() {
    let mut reg = registry();
    let active = |reg: &Registry| reg.list.iter().filter(|i| state::active(i.status)).count();
    for round in 0..6 {
        let id = if round % 2 == 0 { "a" } else { "b" };
        for target in ["a", "b"] {
            if instance::start_instance(&reg, target).is_ok() {
                instance::begin_run(&mut reg, target, NOW).unwrap();
            }
            assert!(active(&reg) <= 1);
        }
        instance::process_log_line(&mut reg, "a", "[x]: Bob joined the game", 1);
        metrics::record_ram(&mut reg, "b", 1);
        if let Ok(Switch::Await { running_id, .. }) = instance::switch_instance(&mut reg, id) {
            instance::finish_run(&mut reg, &running_id, Some(round < 3));
        }
        assert!(active(&reg) <= 1);
    }
}

#[test]
fn a_restart_leaves_the_place_to_one_started_meanwhile() {
    let mut reg = registry();
    reg.list[0].config.restart = Some(RestartConfig {
        auto_restart: true,
        max_attempts: 3,
        delay_secs: 10,
        schedule: None,
        warning_secs: 300,
    });
    instance::begin_run(&mut reg, "a", NOW).unwrap();
    instance::finish_run(&mut reg, "a", Some(false));
    assert!(instance::run_with_restart(&mut reg, "a").is_some());
    assert!(instance::start_instance(&reg, "b").is_ok());
    instance::begin_run(&mut reg, "b", NOW).unwrap();
    assert!(instance::resume_run(&mut reg, "a", NOW).is_none());
    assert_eq!(status_of(&reg, "a"), InstanceStatus::Crashed);
    assert_eq!(status_of(&reg, "b"), InstanceStatus::Starting);
    assert_eq!(
        instance::begin_run(&mut reg, "a", NOW).unwrap_err(),
        "Instance 'The b' is already running. Stop it first."
    );
    instance::finish_run(&mut reg, "b", Some(true));
    assert!(instance::resume_run(&mut reg, "a", NOW).is_some());
    assert_eq!(status_of(&reg, "a"), InstanceStatus::Starting);
    assert!(instance::resume_run(&mut reg, "nobody", NOW).is_none());
    instance::finish_run(&mut reg, "a", Some(true));
    assert_eq!(
        instance::begin_run(&mut reg, "nobody", NOW).unwrap_err(),
        "Instance 'nobody' not found"
    );
}

#[test]
fn a_late_line_does_not_take_the_place_of_another() {
    let done = "[x]: Done (5.1s)! For help, type \"help\"";
    let mut reg = registry();
    instance::begin_run(&mut reg, "a", NOW).unwrap();
    instance::stop_instance(&mut reg, "a").unwrap();
    instance::begin_run(&mut reg, "b", NOW).unwrap();
    let events = instance::process_log_line(&mut reg, "a", done, 1);
    assert_eq!(events.len(), 1);
    assert_eq!(status_of(&reg, "a"), InstanceStatus::Stopping);
    assert_eq!(status_of(&reg, "b"), InstanceStatus::Starting);
    assert_eq!(instance::process_log_line(&mut reg, "b", done, 2).len(), 2);
    assert_eq!(status_of(&reg, "b"), InstanceStatus::Running);
}

#[test]
fn a_server_is_run_by_its_script() {
    let c = instance::launch_command("/srv/a");
    assert_eq!(c.program, "bash");
    assert_eq!(c.args, vec!["/srv/a/run.sh".to_string(), "nogui".to_string()]);
    assert_eq!(c.dir, "/srv/a");
}

#[test]
fn a_player_comes_and_leaves() {
    let mut reg = registry();
    instance::begin_run(&mut reg, "a", NOW).unwrap();
    instance::process_log_line(&mut reg, "a", "[x]: Bob joined the game", 1);
    let came = "[12:00:00] [Server thread/INFO]: Steve_1 joined the game";
    let went = "[12:00:05] [Server thread/INFO]: Steve_1 left the game";
    let events = instance::process_log_line(&mut reg, "a", came, 2);
    assert_eq!(events.len(), 2);
    assert!(matches!(&events[1], WsEvent::PlayerJoined { player, .. } if player == "Steve_1"));
    assert_eq!(reg.get("a").unwrap().players, vec!["Bob".to_string(), "Steve_1".to_string()]);
    let events = instance::process_log_line(&mut reg, "a", went, 3);
    assert_eq!(events.len(), 2);
    assert!(matches!(&events[1], WsEvent::PlayerLeft { player, .. } if player == "Steve_1"));
    assert_eq!(reg.get("a").unwrap().players, vec!["Bob".to_string()]);
}
