//! The life of an instance: start, console, exit, restart after a crash, stop and switch.

use crate::metrics;
use crate::paths;
use crate::properties;
use crate::slug;
use crate::state;
use crate::state::EventModel;
use crate::state::InstanceModel;
use crate::state::InstanceStatus;
use crate::state::LogLine;
use crate::state::LogModel;
use crate::state::Moment;
use crate::state::Registry;
use crate::state::WsEvent;
use crate::text;
use vstd::prelude::*;

verus! {

/// `Instance '<name>' <rest>`.
pub open spec fn instance_message(name: Seq<char>, rest: Seq<char>) -> Seq<char> {
    "Instance '"@ + name + "' "@ + rest
}

/// `Instance '<name>' <rest>`.
pub fn message(name: &str, rest: &str) -> (r: String)
    ensures
        r@ == instance_message(name@, rest@),
{
    let mut m = "Instance '".to_string();
    m.append(name);
    m.append("' ");
    m.append(rest);
    m
}

// ---------------------------------------------------------------------------
// Status
// ---------------------------------------------------------------------------

/// The registry with the status of one instance set.
pub open spec fn with_status(
    reg: Seq<InstanceModel>,
    id: Seq<char>,
    status: InstanceStatus,
) -> Seq<InstanceModel> {
    match state::slot(reg, id) {
        Some(i) => reg.update(i, InstanceModel { status, ..reg[i] }),
        None => reg,
    }
}

/// Sets the status of an instance and tells of it.
pub fn set_status(reg: &mut Registry, id: &str, status: InstanceStatus) -> (r: WsEvent)
    requires
        old(reg).wf(),
    ensures
        final(reg).wf(),
        final(reg)@ == with_status(old(reg)@, id@, status),
        r@ == (EventModel::StateChanged { id: id@, status }),
{
    let ghost before = reg@;
    if let Some(i) = reg.find(id) {
        reg.list[i].status = status;
        assert(reg@ =~= with_status(before, id@, status));
    }
    WsEvent::StateChanged { instance_id: id.to_string(), status }
}

// ---------------------------------------------------------------------------
// Start
// ---------------------------------------------------------------------------

/// What a server is run with.
#[derive(Debug)]
pub struct Launch {
    pub server_path: String,
    pub java_opts: Option<String>,
    pub java_path: Option<String>,
}

/// Why an instance cannot be started: one is already running, or there is none with that id.
pub open spec fn start_refusal(reg: Seq<InstanceModel>, id: Seq<char>) -> Option<Seq<char>> {
    match state::running_slot(reg) {
        Some(i) => Some(
            instance_message(reg[i].shown_name(), "is already running. Stop it first."@),
        ),
        None => if state::known(reg, id) {
            None
        } else {
            Some(instance_message(id, "not found"@))
        },
    }
}

/// What an instance is started with. It is refused while any instance runs.
pub fn start_instance(reg: &Registry, id: &str) -> (r: Result<Launch, String>)
    ensures
        match r {
            Ok(l) => {
                &&& start_refusal(reg@, id@) is None
                &&& state::slot(reg@, id@) matches Some(i)
                &&& l.server_path == reg@[i].config.server.path
                &&& l.java_opts == reg@[i].config.server.java_opts
                &&& l.java_path == reg@[i].config.server.java_path
            },
            Err(e) => start_refusal(reg@, id@) == Some(e@),
        },
{
    if let Some(i) = reg.find_running() {
        let name = reg.list[i].display();
        return Err(message(name.as_str(), "is already running. Stop it first."));
    }
    match reg.get(id) {
        Some(inst) => Ok(
            Launch {
                server_path: inst.config.server.path.clone(),
                java_opts: state::copied_opt(&inst.config.server.java_opts),
                java_path: state::copied_opt(&inst.config.server.java_path),
            },
        ),
        None => Err(message(id, "not found")),
    }
}

/// What stands in `eula.txt` once the terms are accepted.
pub const EULA_ACCEPTED: &'static str = "eula=true\n";

/// Whether `eula.txt` has to be written: where it is missing or does not accept the terms.
pub fn eula_missing(content: Option<&str>) -> (r: bool)
    ensures
        r == match content {
            Some(c) => !text::has(c@, "eula=true"@),
            None => true,
        },
{
    match content {
        Some(c) => !text::contains(c, "eula=true"),
        None => true,
    }
}

/// The registry once a run of an instance begins.
pub open spec fn begun(reg: Seq<InstanceModel>, id: Seq<char>, now: Moment) -> Seq<InstanceModel> {
    match state::slot(reg, id) {
        Some(i) => reg.update(
            i,
            InstanceModel {
                status: InstanceStatus::Starting,
                started_at: Some(now),
                players: Seq::empty(),
                log: Seq::empty(),
                ..reg[i]
            },
        ),
        None => reg,
    }
}

/// Marks an instance as starting, without players and lines of an earlier run, and tells of it. It
/// is refused while any instance runs, so that the one place is taken by one.
pub fn begin_run(reg: &mut Registry, id: &str, now: Moment) -> (r: Result<WsEvent, String>)
    requires
        old(reg).wf(),
        state::proper(now),
    ensures
        final(reg).wf(),
        match r {
            Ok(e) => {
                &&& start_refusal(old(reg)@, id@) is None
                &&& final(reg)@ == begun(old(reg)@, id@, now)
                &&& e@ == (EventModel::StateChanged { id: id@, status: InstanceStatus::Starting })
            },
            Err(e) => start_refusal(old(reg)@, id@) == Some(e@) && final(reg)@ == old(reg)@,
        },
{
    let ghost before = reg@;
    if let Some(i) = reg.find_running() {
        let name = reg.list[i].display();
        return Err(message(name.as_str(), "is already running. Stop it first."));
    }
    match reg.find(id) {
        Some(i) => {
            reg.list[i].status = InstanceStatus::Starting;
            reg.list[i].started_at = Some(now);
            reg.list[i].players = Vec::new();
            reg.list[i].log_buffer = std::collections::VecDeque::new();
            proof {
                let m = reg@[i as int];
                assert(m.players =~= Seq::<Seq<char>>::empty());
                assert(m.log =~= Seq::<LogModel>::empty());
            }
            assert(reg@ =~= begun(before, id@, now));
        },
        None => return Err(message(id, "not found")),
    }
    Ok(WsEvent::StateChanged { instance_id: id.to_string(), status: InstanceStatus::Starting })
}

/// How a server is run: a program with its arguments, in a folder.
#[derive(Debug)]
pub struct LaunchCommand {
    pub program: String,
    pub args: Vec<String>,
    pub dir: String,
}

/// How a server is run: its start script by `bash`, without a window, in the folder of the server.
pub fn launch_command(server_path: &str) -> (r: LaunchCommand)
    ensures
        r.program@ == "bash"@,
        text::views(r.args@) == seq![paths::joined_path(server_path@, "run.sh"@), "nogui"@],
        r.dir@ == server_path@,
{
    let mut args: Vec<String> = Vec::new();
    args.push(paths::join(server_path, "run.sh"));
    args.push("nogui".to_string());
    assert(text::views(args@) =~= seq![
        paths::joined_path(server_path@, "run.sh"@),
        "nogui"@,
    ]);
    LaunchCommand { program: "bash".to_string(), args, dir: server_path.to_string() }
}

/// The environment that a server is run with: its options for Java, and the folder of the chosen
/// Java in front of `current_path`.
pub open spec fn launch_env_of(
    java_opts: Option<Seq<char>>,
    java_path: Option<Seq<char>>,
    current_path: Seq<char>,
) -> Seq<(Seq<char>, Seq<char>)> {
    let opts = match java_opts {
        Some(o) => seq![("JAVA_TOOL_OPTIONS"@, o)],
        None => Seq::empty(),
    };
    let java = match java_path {
        Some(j) => match paths::parent_of(j) {
            Some(bin) => seq![("PATH"@, bin + ":"@ + current_path)] + match paths::parent_of(bin) {
                Some(home) => seq![("JAVA_HOME"@, home)],
                None => Seq::empty(),
            },
            None => Seq::empty(),
        },
        None => Seq::empty(),
    };
    opts + java
}

/// The environment that a server is run with.
pub fn launch_env(
    java_opts: &Option<String>,
    java_path: &Option<String>,
    current_path: &str,
) -> (r: Vec<(String, String)>)
    ensures
        properties::pairs_view(r@) == launch_env_of(
            text::opt_view(*java_opts),
            text::opt_view(*java_path),
            current_path@,
        ),
{
    let mut env: Vec<(String, String)> = Vec::new();
    if let Some(o) = java_opts {
        env.push(("JAVA_TOOL_OPTIONS".to_string(), o.clone()));
    }
    if let Some(j) = java_path {
        if let Some(bin) = paths::parent(j.as_str()) {
            let mut path = bin.clone();
            path.append(":");
            path.append(current_path);
            env.push(("PATH".to_string(), path));
            if let Some(home) = paths::parent(bin.as_str()) {
                env.push(("JAVA_HOME".to_string(), home));
            }
        }
    }
    assert(properties::pairs_view(env@) =~= launch_env_of(
        text::opt_view(*java_opts),
        text::opt_view(*java_path),
        current_path@,
    ));
    env
}

// ---------------------------------------------------------------------------
// The console
// ---------------------------------------------------------------------------

/// The kept lines once another line came: the oldest gives way where there is no room.
pub open spec fn logged(log: Seq<LogModel>, entry: LogModel) -> Seq<LogModel> {
    (if log.len() >= state::LOG_LIMIT {
        log.drop_first()
    } else {
        log
    }).push(entry)
}

/// Whether a line tells that the server is up.
pub open spec fn tells_ready(line: Seq<char>) -> bool {
    text::has(line, "Done ("@) && text::has(line, "! For help, type"@)
}

/// Whether a text can be the name of a player: more than one byte, letters, digits and `_` alone.
pub open spec fn player_name(s: Seq<char>) -> bool {
    &&& s.len() >= 2 || (s.len() == 1 && s[0] >= '\u{80}')
    &&& forall|i: int| 0 <= i < s.len() ==> slug::is_alnum(#[trigger] s[i]) || s[i] == '_'
}

/// The player of whom a line like `[12:00:00] [Server thread/INFO]: Name joined the game` tells.
pub open spec fn player_in(line: Seq<char>, what: Seq<char>) -> Option<Seq<char>> {
    if !text::has(line, what) {
        None
    } else {
        match text::halves(line, "]: "@) {
            Some((_, msg)) => {
                let tail = " "@ + what;
                if text::ends(msg, tail) {
                    let name = msg.take(msg.len() - tail.len());
                    if player_name(name) {
                        Some(name)
                    } else {
                        None
                    }
                } else {
                    None
                }
            },
            None => None,
        }
    }
}

/// Whether a text can be the name of a player.
fn can_be_player(s: &str) -> (r: bool)
    ensures
        r == player_name(s@),
{
    let v = text::chars(s);
    let n: usize = v.len();
    if n == 0 || (n == 1 && v[0] < '\u{80}') {
        return false;
    }
    for i in 0..n
        invariant
            n == v@.len(),
            v@ == s@,
            forall|j: int| 0 <= j < i ==> slug::is_alnum(#[trigger] v@[j]) || v@[j] == '_',
    {
        if !slug::alnum(v[i]) && v[i] != '_' {
            return false;
        }
    }
    true
}

/// The player of whom a line of the console tells.
pub fn parse_player_event(line: &str, suffix: &str) -> (r: Option<String>)
    ensures
        text::opt_view(r) == player_in(line@, suffix@),
{
    if !text::contains(line, suffix) {
        return None;
    }
    let msg = match text::split_once(line, "]: ") {
        Some((_, b)) => b,
        None => return None,
    };
    let mut tail = " ".to_string();
    tail.append(suffix);
    match text::strip_suffix(msg.as_str(), tail.as_str()) {
        Some(name) => if can_be_player(name.as_str()) {
            Some(name)
        } else {
            None
        },
        None => None,
    }
}

/// The players once one more came.
pub open spec fn with_player(players: Seq<Seq<char>>, p: Seq<char>) -> Seq<Seq<char>> {
    if players.contains(p) {
        players
    } else {
        players.push(p)
    }
}

/// The players once one left.
pub open spec fn without_player(players: Seq<Seq<char>>, p: Seq<char>) -> Seq<Seq<char>> {
    if players.contains(p) {
        players.remove(players.index_of(p))
    } else {
        players
    }
}

/// The players once a line of the console came.
pub open spec fn players_after(players: Seq<Seq<char>>, line: Seq<char>) -> Seq<Seq<char>> {
    match player_in(line, "joined the game"@) {
        Some(p) => with_player(players, p),
        None => match player_in(line, "left the game"@) {
            Some(p) => without_player(players, p),
            None => players,
        },
    }
}

/// Whether no instance but the one with this id is active.
pub open spec fn no_other_active(reg: Seq<InstanceModel>, id: Seq<char>) -> bool {
    forall|i: int|
        0 <= i < reg.len() && state::is_active((#[trigger] reg[i]).status) ==> reg[i].id == id
}

/// Whether a line takes an instance to running: it tells that the server is up, and the one place
/// is not taken by another instance, as it can be where this one is being stopped.
pub open spec fn gets_up(reg: Seq<InstanceModel>, id: Seq<char>, line: Seq<char>) -> bool {
    tells_ready(line) && no_other_active(reg, id)
}

/// An instance once a line of its console came; `up` says whether the line takes it to running.
pub open spec fn heard(
    m: InstanceModel,
    line: Seq<char>,
    timestamp: i64,
    up: bool,
) -> InstanceModel {
    InstanceModel {
        log: logged(m.log, LogModel { line, timestamp }),
        status: if up {
            InstanceStatus::Running
        } else {
            m.status
        },
        restart_attempts: if tells_ready(line) {
            0
        } else {
            m.restart_attempts
        },
        tps: match metrics::tps_in(line) {
            Some(t) => Some(t),
            None => m.tps,
        },
        players: players_after(m.players, line),
        ..m
    }
}

/// The registry once a line of the console of an instance came.
pub open spec fn after_line(
    reg: Seq<InstanceModel>,
    id: Seq<char>,
    line: Seq<char>,
    timestamp: i64,
) -> Seq<InstanceModel> {
    match state::slot(reg, id) {
        Some(i) => reg.update(i, heard(reg[i], line, timestamp, gets_up(reg, id, line))),
        None => reg,
    }
}

/// The events that a line of the console gives: the line itself, that the server is up, the tick
/// rate, and who came or left.
pub open spec fn line_events(
    reg: Seq<InstanceModel>,
    id: Seq<char>,
    line: Seq<char>,
    timestamp: i64,
) -> Seq<EventModel> {
    let ram_mb = match state::slot(reg, id) {
        Some(i) => match reg[i].ram_mb {
            Some(n) => n,
            None => 0,
        },
        None => 0,
    };
    let ready = if gets_up(reg, id, line) {
        seq![EventModel::StateChanged { id, status: InstanceStatus::Running }]
    } else {
        Seq::empty()
    };
    let rate = match metrics::tps_in(line) {
        Some(t) => seq![EventModel::Metrics { id, ram_mb, tps: Some(t), cpu_pct: None }],
        None => Seq::empty(),
    };
    let who = match player_in(line, "joined the game"@) {
        Some(p) => seq![EventModel::PlayerJoined { id, player: p }],
        None => match player_in(line, "left the game"@) {
            Some(p) => seq![EventModel::PlayerLeft { id, player: p }],
            None => Seq::empty(),
        },
    };
    seq![EventModel::LogLine { id, line, timestamp }] + ready + rate + who
}

fn find_player(players: &Vec<String>, p: &str) -> (r: Option<usize>)
    ensures
        match r {
            Some(i) => i < players@.len() && text::views(players@)[i as int] == p@,
            None => !text::views(players@).contains(p@),
        },
{
    for i in 0..players.len()
        invariant
            forall|j: int| 0 <= j < i ==> text::views(players@)[j] != p@,
    {
        assert(text::views(players@)[i as int] == players@[i as int]@);
        if text::same(players[i].as_str(), p) {
            return Some(i);
        }
    }
    None
}

fn join_player(reg: &mut Registry, i: usize, p: &str)
    requires
        i < old(reg).list@.len(),
        old(reg)@[i as int].wf(),
    ensures
        final(reg)@ == old(reg)@.update(
            i as int,
            InstanceModel {
                players: with_player(old(reg)@[i as int].players, p@),
                ..old(reg)@[i as int]
            },
        ),
{
    let ghost before = reg@;
    let ghost old_players = text::views(reg.list@[i as int].players@);
    match find_player(&reg.list[i].players, p) {
        Some(k) => {
            assert(old_players.contains(p@));
            assert(before =~= before.update(i as int, before[i as int]));
        },
        None => {
            reg.list[i].players.push(p.to_string());
            assert(reg@[i as int].players =~= old_players.push(p@));
            assert(reg@ =~= before.update(
                i as int,
                InstanceModel {
                    players: with_player(before[i as int].players, p@),
                    ..before[i as int]
                },
            ));
        },
    }
}

fn drop_player(reg: &mut Registry, i: usize, p: &str)
    requires
        i < old(reg).list@.len(),
        old(reg)@[i as int].wf(),
    ensures
        final(reg)@ == old(reg)@.update(
            i as int,
            InstanceModel {
                players: without_player(old(reg)@[i as int].players, p@),
                ..old(reg)@[i as int]
            },
        ),
{
    let ghost before = reg@;
    let ghost old_players = text::views(reg.list@[i as int].players@);
    match find_player(&reg.list[i].players, p) {
        Some(k) => {
            assert(old_players[k as int] == p@);
            assert(old_players.contains(p@));
            assert(old_players.index_of(p@) == k);
            reg.list[i].players.remove(k);
            assert(reg@[i as int].players =~= old_players.remove(k as int));
            assert(reg@ =~= before.update(
                i as int,
                InstanceModel {
                    players: without_player(before[i as int].players, p@),
                    ..before[i as int]
                },
            ));
        },
        None => {
            assert(before =~= before.update(i as int, before[i as int]));
        },
    }
}

fn keep_line(reg: &mut Registry, i: usize, line: &str, timestamp: i64)
    requires
        i < old(reg).list@.len(),
    ensures
        final(reg)@ == old(reg)@.update(
            i as int,
            InstanceModel {
                log: logged(old(reg)@[i as int].log, LogModel { line: line@, timestamp }),
                ..old(reg)@[i as int]
            },
        ),
{
    let ghost before = reg@;
    let ghost kept = reg.list@[i as int].log_buffer@;
    if reg.list[i].log_buffer.len() >= state::LOG_LIMIT {
        reg.list[i].log_buffer.pop_front();
        assert(reg.list@[i as int].log_buffer@ =~= kept.drop_first());
    }
    let ghost room = reg.list@[i as int].log_buffer@;
    reg.list[i].log_buffer.push_back(LogLine { line: line.to_string(), timestamp });
    proof {
        assert(reg.list@[i as int].log_buffer@ =~= room.push(
            reg.list@[i as int].log_buffer@.last(),
        ));
        assert(reg@[i as int].log =~= logged(
            before[i as int].log,
            LogModel { line: line@, timestamp },
        ));
    }
    assert(reg@ =~= before.update(
        i as int,
        InstanceModel {
            log: logged(before[i as int].log, LogModel { line: line@, timestamp }),
            ..before[i as int]
        },
    ));
}

/// An instance that hears a line stays well formed.
pub proof fn lemma_heard_wf(m: InstanceModel, line: Seq<char>, timestamp: i64, up: bool)
    requires
        m.wf(),
    ensures
        heard(m, line, timestamp, up).wf(),
{
    if let Some(p) = player_in(line, "joined the game"@) {
        lemma_player_lists(m.players, p);
    } else if let Some(p) = player_in(line, "left the game"@) {
        lemma_player_lists(m.players, p);
    }
}

proof fn lemma_player_lists(players: Seq<Seq<char>>, p: Seq<char>)
    requires
        players.no_duplicates(),
    ensures
        with_player(players, p).no_duplicates(),
        without_player(players, p).no_duplicates(),
        with_player(players, p).contains(p),
        !without_player(players, p).contains(p),
{
    let w = with_player(players, p);
    if !players.contains(p) {
        assert(w.last() == p);
        assert forall|i: int, j: int| 0 <= i < w.len() && 0 <= j < w.len() && i != j implies w[i]
            != w[j] by {
            if i < players.len() {
                assert(players.contains(players[i]));
            }
            if j < players.len() {
                assert(players.contains(players[j]));
            }
        }
    } else {
        let k = players.index_of(p);
        let r = players.remove(k);
        assert(players[k] == p);
        assert forall|i: int| 0 <= i < r.len() implies r[i] == players[if i < k {
            i
        } else {
            i + 1
        }] by {}
        assert(!r.contains(p));
    }
}

/// Whether no instance but the one with this id is active.
fn none_beside(reg: &Registry, id: &str) -> (r: bool)
    ensures
        r == no_other_active(reg@, id@),
{
    for i in 0..reg.list.len()
        invariant
            forall|j: int|
                0 <= j < i && state::is_active((#[trigger] reg@[j]).status) ==> reg@[j].id == id@,
    {
        assert(reg@[i as int] == reg.list@[i as int]@);
        if state::active(reg.list[i].status) && !text::same(reg.list[i].id.as_str(), id) {
            return false;
        }
    }
    true
}

/// Takes in a line of the console of an instance and tells what it means.
pub fn process_log_line(reg: &mut Registry, id: &str, line: &str, timestamp: i64) -> (r: Vec<
    WsEvent,
>)
    requires
        old(reg).wf(),
    ensures
        final(reg).wf(),
        final(reg)@ == after_line(old(reg)@, id@, line@, timestamp),
        state::event_views(r@) == line_events(old(reg)@, id@, line@, timestamp),
{
    let ghost before = reg@;
    let found = reg.find(id);
    let alone = none_beside(reg, id);
    let mut ram_mb: u64 = 0;
    let mut events: Vec<WsEvent> = Vec::new();
    proof {
        state::lemma_slot(before, id@);
    }
    if let Some(i) = found {
        if let Some(n) = reg.list[i].ram_mb {
            ram_mb = n;
        }
        keep_line(reg, i, line, timestamp);
    }
    let ghost reg1 = reg@;
    assert(reg1.len() == before.len());
    assert(reg.list@.len() == reg1.len());
    events.push(
        WsEvent::LogLine { instance_id: id.to_string(), line: line.to_string(), timestamp },
    );
    let ready = text::contains(line, "Done (") && text::contains(line, "! For help, type");
    if ready {
        if let Some(i) = found {
            reg.list[i].restart_attempts = 0;
            if alone {
                reg.list[i].status = InstanceStatus::Running;
            }
            assert(reg@ =~= reg1.update(
                i as int,
                InstanceModel {
                    status: if alone {
                        InstanceStatus::Running
                    } else {
                        reg1[i as int].status
                    },
                    restart_attempts: 0,
                    ..reg1[i as int]
                },
            ));
        }
        if alone {
            events.push(
                WsEvent::StateChanged {
                    instance_id: id.to_string(),
                    status: InstanceStatus::Running,
                },
            );
        }
    }
    let ghost reg2 = reg@;
    assert(reg.list@.len() == reg2.len());
    if let Some(tps) = metrics::parse_tps(line) {
        if let Some(i) = found {
            reg.list[i].tps = Some(tps.clone());
            assert(reg@ =~= reg2.update(
                i as int,
                InstanceModel { tps: Some(tps@), ..reg2[i as int] },
            ));
        }
        events.push(
            WsEvent::Metrics { instance_id: id.to_string(), ram_mb, tps: Some(tps), cpu_pct: None },
        );
    }
    let joined = parse_player_event(line, "joined the game");
    assert(reg.list@.len() == reg@.len());
    if let Some(p) = joined {
        if let Some(i) = found {
            join_player(reg, i, p.as_str());
        }
        events.push(WsEvent::PlayerJoined { instance_id: id.to_string(), player: p });
    } else if let Some(p) = parse_player_event(line, "left the game") {
        if let Some(i) = found {
            drop_player(reg, i, p.as_str());
        }
        events.push(WsEvent::PlayerLeft { instance_id: id.to_string(), player: p });
    }
    proof {
        assert(state::event_views(events@) =~= line_events(before, id@, line@, timestamp));
        if let Some(i) = found {
            let up = gets_up(before, id@, line@);
            lemma_heard_wf(before[i as int], line@, timestamp, up);
            assert(reg@[i as int] == heard(before[i as int], line@, timestamp, up));
        }
        assert(reg@ =~= after_line(before, id@, line@, timestamp));
    }
    events
}

// ---------------------------------------------------------------------------
// Exit and restart
// ---------------------------------------------------------------------------

/// The status of an instance whose server has exited: it stopped where the exit was clean or was
/// asked for, and crashed otherwise, or where nothing is known of the exit.
pub open spec fn status_after_exit(exit: Option<bool>, was_stopping: bool) -> InstanceStatus {
    match exit {
        Some(success) => if success || was_stopping {
            InstanceStatus::Stopped
        } else {
            InstanceStatus::Crashed
        },
        None => InstanceStatus::Crashed,
    }
}

/// Whether an instance is being stopped.
pub open spec fn stopping(reg: Seq<InstanceModel>, id: Seq<char>) -> bool {
    state::slot(reg, id) matches Some(i) && reg[i].status == InstanceStatus::Stopping
}

/// The registry once the server of an instance has exited.
pub open spec fn finished(reg: Seq<InstanceModel>, id: Seq<char>, exit: Option<bool>) -> Seq<
    InstanceModel,
> {
    match state::slot(reg, id) {
        Some(i) => reg.update(
            i,
            InstanceModel {
                status: status_after_exit(exit, reg[i].status == InstanceStatus::Stopping),
                players: Seq::empty(),
                started_at: None,
                ram_mb: None,
                tps: None,
                ..reg[i]
            },
        ),
        None => reg,
    }
}

/// Takes in that the server of an instance has exited, and tells of it. `exit` says whether the
/// exit was clean, where it is known.
pub fn finish_run(reg: &mut Registry, id: &str, exit: Option<bool>) -> (r: WsEvent)
    requires
        old(reg).wf(),
    ensures
        final(reg).wf(),
        final(reg)@ == finished(old(reg)@, id@, exit),
        r@ == (EventModel::StateChanged {
            id: id@,
            status: status_after_exit(exit, stopping(old(reg)@, id@)),
        }),
{
    let ghost before = reg@;
    let found = reg.find(id);
    let was_stopping = match found {
        Some(i) => reg.list[i].status == InstanceStatus::Stopping,
        None => false,
    };
    let status = match exit {
        Some(success) => if success || was_stopping {
            InstanceStatus::Stopped
        } else {
            InstanceStatus::Crashed
        },
        None => InstanceStatus::Crashed,
    };
    if let Some(i) = found {
        reg.list[i].status = status;
        reg.list[i].players = Vec::new();
        reg.list[i].started_at = None;
        reg.list[i].ram_mb = None;
        reg.list[i].tps = None;
        assert(reg@[i as int].players =~= Seq::<Seq<char>>::empty());
        assert(reg@ =~= finished(before, id@, exit));
    }
    WsEvent::StateChanged { instance_id: id.to_string(), status }
}

/// A restart after a crash: which attempt it is, of how many, and after what delay.
#[derive(Debug, Clone, Copy, PartialEq, Eq, Structural)]
pub struct Retry {
    pub attempt: u32,
    pub max_attempts: u32,
    pub delay_secs: u64,
}

/// The restart that is due for an instance: only after a crash, only where it is switched on, and
/// only while attempts are left.
pub open spec fn retry_of(m: InstanceModel) -> Option<Retry> {
    match m.config.restart {
        Some(c) => if m.status == InstanceStatus::Crashed && c.auto_restart && m.restart_attempts
            < c.max_attempts {
            Some(
                Retry {
                    attempt: (m.restart_attempts + 1) as u32,
                    max_attempts: c.max_attempts,
                    delay_secs: c.delay_secs,
                },
            )
        } else {
            None
        },
        None => None,
    }
}

/// The restart that is due once a run of an instance is over.
pub open spec fn due_retry(reg: Seq<InstanceModel>, id: Seq<char>) -> Option<Retry> {
    match state::slot(reg, id) {
        Some(i) => retry_of(reg[i]),
        None => None,
    }
}

/// The registry once a run of an instance is over: an attempt is counted where one is due.
pub open spec fn after_run(reg: Seq<InstanceModel>, id: Seq<char>) -> Seq<InstanceModel> {
    match state::slot(reg, id) {
        Some(i) => match retry_of(reg[i]) {
            Some(t) => reg.update(i, InstanceModel { restart_attempts: t.attempt, ..reg[i] }),
            None => reg,
        },
        None => reg,
    }
}

/// Decides what follows a run: where a restart is due it is counted and told of.
pub fn run_with_restart(reg: &mut Registry, id: &str) -> (r: Option<(Retry, WsEvent)>)
    requires
        old(reg).wf(),
    ensures
        final(reg).wf(),
        final(reg)@ == after_run(old(reg)@, id@),
        match r {
            Some((t, e)) => due_retry(old(reg)@, id@) == Some(t) && e@
                == (EventModel::AutoRestarting {
                id: id@,
                attempt: t.attempt,
                max_attempts: t.max_attempts,
            }),
            None => due_retry(old(reg)@, id@) is None,
        },
{
    let ghost before = reg@;
    let i = match reg.find(id) {
        Some(i) => i,
        None => return None,
    };
    if reg.list[i].status != InstanceStatus::Crashed {
        return None;
    }
    let attempts: u32 = reg.list[i].restart_attempts;
    let t = match &reg.list[i].config.restart {
        Some(c) => if c.auto_restart && attempts < c.max_attempts {
            Retry {
                attempt: attempts + 1,
                max_attempts: c.max_attempts,
                delay_secs: c.delay_secs,
            }
        } else {
            return None;
        },
        None => return None,
    };
    reg.list[i].restart_attempts = t.attempt;
    assert(reg@ =~= after_run(before, id@));
    Some(
        (
            t,
            WsEvent::AutoRestarting {
                instance_id: id.to_string(),
                attempt: t.attempt,
                max_attempts: t.max_attempts,
            },
        ),
    )
}

/// The registry once the delay before a restart is over: the run begins unless it is refused.
pub open spec fn resumed(reg: Seq<InstanceModel>, id: Seq<char>, now: Moment) -> Seq<
    InstanceModel,
> {
    if start_refusal(reg, id) is None {
        begun(reg, id, now)
    } else {
        reg
    }
}

/// Decides whether a restart still goes on once its delay is over: not where an instance was
/// started meanwhile, and not where its own is gone.
pub fn resume_run(reg: &mut Registry, id: &str, now: Moment) -> (r: Option<WsEvent>)
    requires
        old(reg).wf(),
        state::proper(now),
    ensures
        final(reg).wf(),
        final(reg)@ == resumed(old(reg)@, id@, now),
        match r {
            Some(e) => start_refusal(old(reg)@, id@) is None && e@ == (EventModel::StateChanged {
                id: id@,
                status: InstanceStatus::Starting,
            }),
            None => start_refusal(old(reg)@, id@) is Some,
        },
{
    match begin_run(reg, id, now) {
        Ok(e) => Some(e),
        Err(_) => None,
    }
}

// ---------------------------------------------------------------------------
// Stop, switch, commands
// ---------------------------------------------------------------------------

/// Why an instance cannot be stopped.
pub open spec fn stop_refusal(reg: Seq<InstanceModel>, id: Seq<char>) -> Option<Seq<char>> {
    match state::slot(reg, id) {
        Some(i) => if state::is_active(reg[i].status) {
            None
        } else {
            Some(instance_message(reg[i].config.instance.name@, "is not running"@))
        },
        None => Some(instance_message(id, "not found"@)),
    }
}

/// The command that stops a server.
pub const STOP_COMMAND: &'static str = "stop";

/// Marks an instance as stopping and tells of it; its console is then to be sent `stop`.
pub fn stop_instance(reg: &mut Registry, id: &str) -> (r: Result<WsEvent, String>)
    requires
        old(reg).wf(),
    ensures
        final(reg).wf(),
        match r {
            Ok(e) => {
                &&& stop_refusal(old(reg)@, id@) is None
                &&& final(reg)@ == with_status(old(reg)@, id@, InstanceStatus::Stopping)
                &&& e@ == (EventModel::StateChanged { id: id@, status: InstanceStatus::Stopping })
            },
            Err(e) => stop_refusal(old(reg)@, id@) == Some(e@) && final(reg)@ == old(reg)@,
        },
{
    match reg.find(id) {
        Some(i) => if !state::active(reg.list[i].status) {
            return Err(message(reg.list[i].config.instance.name.as_str(), "is not running"));
        },
        None => return Err(message(id, "not found")),
    }
    Ok(set_status(reg, id, InstanceStatus::Stopping))
}

/// What a switch begins with.
#[derive(Debug)]
pub enum Switch {
    /// Nothing runs: the target is started.
    Start,
    /// The instance that runs is being stopped first, and `event` tells of it.
    Await { running_id: String, event: WsEvent },
}

/// Why a switch is refused.
pub open spec fn switch_refusal(reg: Seq<InstanceModel>, target: Seq<char>) -> Option<Seq<char>> {
    if !state::known(reg, target) {
        Some(instance_message(target, "not found"@))
    } else {
        match state::running_slot(reg) {
            Some(i) => if reg[i].id == target {
                Some(instance_message(target, "is already running"@))
            } else {
                None
            },
            None => None,
        }
    }
}

/// Begins a switch to another instance: one that runs is marked as stopping.
pub fn switch_instance(reg: &mut Registry, target: &str) -> (r: Result<Switch, String>)
    requires
        old(reg).wf(),
    ensures
        final(reg).wf(),
        match r {
            Ok(s) => switch_refusal(old(reg)@, target@) is None && match s {
                Switch::Start => state::running_slot(old(reg)@) is None && final(reg)@ == old(
                    reg,
                )@,
                Switch::Await { running_id, event } => {
                    &&& state::running_slot(old(reg)@) matches Some(i)
                    &&& running_id@ == old(reg)@[i].id
                    &&& final(reg)@ == with_status(
                        old(reg)@,
                        running_id@,
                        InstanceStatus::Stopping,
                    )
                    &&& event@ == (EventModel::StateChanged {
                        id: running_id@,
                        status: InstanceStatus::Stopping,
                    })
                },
            },
            Err(e) => switch_refusal(old(reg)@, target@) == Some(e@) && final(reg)@ == old(reg)@,
        },
{
    if !reg.contains(target) {
        return Err(message(target, "not found"));
    }
    match reg.find_running() {
        Some(i) => {
            let running_id = reg.list[i].id.clone();
            assert(reg@[i as int].id == running_id@);
            if text::same(running_id.as_str(), target) {
                return Err(message(target, "is already running"));
            }
            let event = set_status(reg, running_id.as_str(), InstanceStatus::Stopping);
            Ok(Switch::Await { running_id, event })
        },
        None => Ok(Switch::Start),
    }
}

/// What is done while an instance is awaited to stop.
#[derive(Debug, Clone, Copy, PartialEq, Eq, Structural)]
pub enum StopWait {
    /// It has stopped, or is gone.
    Stopped,
    /// It is looked at again after so many milliseconds.
    Again(u64),
    /// It took too long.
    TimedOut,
}

/// How often an instance is looked at while it is awaited to stop, in milliseconds.
pub const STOP_POLL_MS: u64 = 500;

/// How long a switch waits for an instance to stop, in milliseconds.
pub const SWITCH_LIMIT_MS: u64 = 60000;

/// What is done while an instance is awaited to stop, so long after the wait began.
pub fn await_stop(reg: &Registry, id: &str, waited_ms: u64, limit_ms: u64) -> (r: StopWait)
    ensures
        r == match state::slot(reg@, id@) {
            Some(i) => if reg@[i].status == InstanceStatus::Stopped {
                StopWait::Stopped
            } else if waited_ms >= limit_ms {
                StopWait::TimedOut
            } else {
                StopWait::Again(STOP_POLL_MS)
            },
            None => StopWait::Stopped,
        },
{
    match reg.find(id) {
        Some(i) => if reg.list[i].status == InstanceStatus::Stopped {
            StopWait::Stopped
        } else if waited_ms >= limit_ms {
            StopWait::TimedOut
        } else {
            StopWait::Again(STOP_POLL_MS)
        },
        None => StopWait::Stopped,
    }
}

/// How long a server that was sent `stop` is left alone, in milliseconds.
pub const TERM_AFTER_MS: u64 = 30000;

/// Whether a server is ended by a signal: where it still stops so long after it was sent `stop`.
pub fn term_due(reg: &Registry, id: &str, waited_ms: u64) -> (r: bool)
    ensures
        r == (stopping(reg@, id@) && waited_ms >= TERM_AFTER_MS),
{
    match reg.find(id) {
        Some(i) => reg.list[i].status == InstanceStatus::Stopping && waited_ms >= TERM_AFTER_MS,
        None => false,
    }
}

/// What is said of a switch whose running instance did not stop in time.
pub const SWITCH_TIMED_OUT: &'static str = "Timed out waiting for current instance to stop";

/// The answer to a command for a console. `sent` says whether it could be handed on, where the
/// instance has a console.
pub fn send_command(id: &str, sent: Option<bool>) -> (r: Result<(), String>)
    ensures
        match sent {
            Some(true) => r == Ok::<(), String>(()),
            Some(false) => r matches Err(e) && e@
                == "Failed to send command — is the server still running?"@,
            None => r matches Err(e) && e@ == instance_message(id@, "is not running"@),
        },
{
    match sent {
        Some(true) => Ok(()),
        Some(false) => Err("Failed to send command — is the server still running?".to_string()),
        None => Err(message(id, "is not running")),
    }
}

} // verus!
