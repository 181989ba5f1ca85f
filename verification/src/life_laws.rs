//! What starting, stopping, watching and restarting a server are for, in plain terms.

use crate::instance;
use crate::instance_laws;
use crate::metrics;
use crate::path_laws;
use crate::setup;
use crate::slug;
use crate::state;
use crate::state::EventModel;
use crate::state::InfoModel;
use crate::state::InstanceModel;
use crate::state::InstanceStatus;
use crate::state::LogModel;
use crate::state::Moment;
use crate::text;
use crate::text_laws;
use vstd::prelude::*;

verus! {

/// Whether a server is starting or running.
pub open spec fn up(s: InstanceStatus) -> bool {
    s == InstanceStatus::Starting || s == InstanceStatus::Running
}

/// Whether no server is starting or running.
pub open spec fn all_down(reg: Seq<InstanceModel>) -> bool {
    forall|i: int|
        0 <= i < reg.len() ==> (#[trigger] reg[i]).status != InstanceStatus::Starting
            && reg[i].status != InstanceStatus::Running
}

/// Whether there is an instance with an id.
pub open spec fn there_is(reg: Seq<InstanceModel>, id: Seq<char>) -> bool {
    exists|i: int| 0 <= i < reg.len() && (#[trigger] reg[i]).id == id
}

/// An instance is found by its id: the first one that has it.
pub proof fn law_instances_are_found(reg: Seq<InstanceModel>, id: Seq<char>)
    ensures
        match state::slot(reg, id) {
            Some(i) => 0 <= i < reg.len() && reg[i].id == id && forall|j: int|
                0 <= j < i ==> (#[trigger] reg[j]).id != id,
            None => !there_is(reg, id),
        },
        state::known(reg, id) <==> there_is(reg, id),
{
    state::lemma_slot(reg, id);
}

/// A start is granted just where no server is starting or running and there is such an instance.
pub proof fn law_starts_are_granted(reg: Seq<InstanceModel>, id: Seq<char>)
    ensures
        instance::start_refusal(reg, id) is None <==> all_down(reg) && there_is(reg, id),
        all_down(reg) && !there_is(reg, id) ==> instance::start_refusal(reg, id) == Some(
            "Instance '"@ + id + "' not found"@,
        ),
{
    state::lemma_slot(reg, id);
    state::lemma_running_slot(reg);
    reveal_strlit("Instance '");
    reveal_strlit("' not found");
    reveal_strlit("' ");
    reveal_strlit("not found");
    assert("Instance '"@ + id + "' "@ + "not found"@ =~= "Instance '"@ + id + "' not found"@);
}

/// The name that people see is the display name, and the plain one where there is none. A start that
/// is refused names the server that is in the way.
pub proof fn law_refused_starts_name_the_server(reg: Seq<InstanceModel>, id: Seq<char>, k: int)
    requires
        0 <= k < reg.len(),
        up(reg[k].status),
        forall|i: int| 0 <= i < reg.len() && i != k ==> !up((#[trigger] reg[i]).status),
    ensures
        ({
            let name = match reg[k].config.instance.display_name {
                Some(d) => d@,
                None => reg[k].config.instance.name@,
            };
            instance::start_refusal(reg, id) == Some(
                "Instance '"@ + name + "' "@ + "is already running. Stop it first."@,
            )
        }),
{
    state::lemma_running_slot(reg);
}

/// A run begins with a clean sheet: the instance is starting from now on, without players and lines;
/// its settings, its attempts and every other instance stay.
pub proof fn law_runs_begin_clean(
    reg: Seq<InstanceModel>,
    i: int,
    id: Seq<char>,
    now: Moment,
)
    requires
        state::registry_wf(reg),
        0 <= i < reg.len(),
    ensures
        ({
            let after = instance::begun(reg, reg[i].id, now);
            &&& after.len() == reg.len()
            &&& after[i].status == InstanceStatus::Starting
            &&& after[i].started_at == Some(now)
            &&& after[i].players.len() == 0
            &&& after[i].log.len() == 0
            &&& after[i].id == reg[i].id
            &&& after[i].config == reg[i].config
            &&& after[i].instance_dir == reg[i].instance_dir
            &&& after[i].restart_attempts == reg[i].restart_attempts
            &&& after[i] == (InstanceModel {
                status: after[i].status,
                started_at: after[i].started_at,
                players: after[i].players,
                log: after[i].log,
                ..reg[i]
            })
            &&& forall|j: int|
                0 <= j < reg.len() && j != i ==> #[trigger] after[j] == reg[j]
        }),
        !there_is(reg, id) ==> instance::begun(reg, id, now) == reg,
{
    lemma_own_slot(reg, i);
    state::lemma_slot(reg, id);
}

proof fn lemma_own_slot(reg: Seq<InstanceModel>, i: int)
    requires
        state::registry_wf(reg),
        0 <= i < reg.len(),
    ensures
        state::slot(reg, reg[i].id) == Some(i),
{
    state::lemma_slot(reg, reg[i].id);
    let k = state::slot(reg, reg[i].id).unwrap();
    if k < i {
        assert(reg[k].id != reg[i].id);
    }
    if i < k {
        assert(reg[i].id != reg[k].id);
    }
}

/// A stop is granted just for an instance that is starting or running, and then it is stopping and
/// nothing else changes.
pub proof fn law_stops_are_granted(reg: Seq<InstanceModel>, id: Seq<char>, i: int)
    requires
        state::registry_wf(reg),
    ensures
        instance::stop_refusal(reg, id) is None <==> exists|k: int|
            0 <= k < reg.len() && (#[trigger] reg[k]).id == id && (reg[k].status
                == InstanceStatus::Starting || reg[k].status == InstanceStatus::Running),
        0 <= i < reg.len() ==> instance::with_status(reg, reg[i].id, InstanceStatus::Stopping)
            == reg.update(i, InstanceModel { status: InstanceStatus::Stopping, ..reg[i] }),
{
    state::lemma_slot(reg, id);
    if 0 <= i < reg.len() {
        lemma_own_slot(reg, i);
    }
    if let Some(a) = state::slot(reg, id) {
        assert forall|k: int| 0 <= k < reg.len() && (#[trigger] reg[k]).id == id implies k == a by {
            if k != a {
                assert(reg[k].id == reg[a].id);
            }
        }
    }
}

/// A switch is granted where there is such an instance and it is not the one that is up.
pub proof fn law_switches_are_granted(reg: Seq<InstanceModel>, target: Seq<char>, k: int)
    ensures
        all_down(reg) ==> (instance::switch_refusal(reg, target) is None <==> there_is(reg, target)),
        0 <= k < reg.len() && up(reg[k].status) && (forall|i: int|
            0 <= i < reg.len() && i != k ==> !up((#[trigger] reg[i]).status)) ==> (
        instance::switch_refusal(reg, target) is None <==> there_is(reg, target) && reg[k].id
            != target),
{
    state::lemma_slot(reg, target);
    state::lemma_running_slot(reg);
}

/// What an exit means: a clean one, and one that was asked for, leaves the server stopped; any other
/// one is a crash. Either way nobody is on the server, and nothing is measured any more; settings,
/// lines and attempts stay, and so does every other instance.
pub proof fn law_exits(reg: Seq<InstanceModel>, i: int, exit: Option<bool>)
    requires
        state::registry_wf(reg),
        0 <= i < reg.len(),
    ensures
        ({
            let after = instance::finished(reg, reg[i].id, exit);
            &&& exit == Some(true) ==> after[i].status == InstanceStatus::Stopped
            &&& exit == Some(false) && reg[i].status == InstanceStatus::Stopping ==> after[i].status
                == InstanceStatus::Stopped
            &&& exit == Some(false) && reg[i].status != InstanceStatus::Stopping ==> after[i].status
                == InstanceStatus::Crashed
            &&& exit is None ==> after[i].status == InstanceStatus::Crashed
            &&& after[i].players.len() == 0
            &&& after[i].started_at is None
            &&& after[i].ram_mb is None
            &&& after[i].tps is None
            &&& after[i].id == reg[i].id
            &&& after[i].config == reg[i].config
            &&& after[i].log == reg[i].log
            &&& after[i].restart_attempts == reg[i].restart_attempts
            &&& after[i] == (InstanceModel {
                status: after[i].status,
                players: after[i].players,
                started_at: None,
                ram_mb: None,
                tps: None,
                ..reg[i]
            })
            &&& forall|j: int| 0 <= j < reg.len() && j != i ==> #[trigger] after[j] == reg[j]
        }),
{
    lemma_own_slot(reg, i);
}

/// A restart follows a crash as long as it is switched on and attempts are left, after the delay that
/// is set; the attempt is counted. It follows nothing else.
pub proof fn law_restarts_follow_crashes(reg: Seq<InstanceModel>, i: int)
    requires
        state::registry_wf(reg),
        0 <= i < reg.len(),
    ensures
        ({
            let due = instance::due_retry(reg, reg[i].id);
            let after = instance::after_run(reg, reg[i].id);
            &&& (reg[i].config.restart matches Some(c) && reg[i].status == InstanceStatus::Crashed
                && c.auto_restart && reg[i].restart_attempts < c.max_attempts) ==> {
                &&& due matches Some(t)
                &&& t.attempt == reg[i].restart_attempts + 1
                &&& t.max_attempts == reg[i].config.restart->0.max_attempts
                &&& t.delay_secs == reg[i].config.restart->0.delay_secs
                &&& after[i].restart_attempts == reg[i].restart_attempts + 1
                &&& after[i].status == InstanceStatus::Crashed
            }
            &&& reg[i].status != InstanceStatus::Crashed || reg[i].config.restart is None || !(
            reg[i].config.restart->0.auto_restart) || reg[i].restart_attempts
                >= reg[i].config.restart->0.max_attempts ==> due is None && after == reg
            &&& forall|j: int| 0 <= j < reg.len() && j != i ==> #[trigger] after[j] == reg[j]
        }),
{
    lemma_own_slot(reg, i);
}

// ---------------------------------------------------------------------------
// The console
// ---------------------------------------------------------------------------

/// Every line of a console is kept and told of, and of those that are kept the latest thousand stay.
pub proof fn law_lines_are_kept(reg: Seq<InstanceModel>, i: int, line: Seq<char>, timestamp: i64)
    requires
        state::registry_wf(reg),
        0 <= i < reg.len(),
    ensures
        ({
            let after = instance::after_line(reg, reg[i].id, line, timestamp);
            let log = after[i].log;
            &&& log.len() > 0
            &&& log.last() == (LogModel { line, timestamp })
            &&& log.len() <= 1000
            &&& reg[i].log.len() < 1000 ==> log.drop_last() == reg[i].log
            &&& reg[i].log.len() == 1000 ==> log.drop_last() == reg[i].log.skip(1)
            &&& instance::line_events(reg, reg[i].id, line, timestamp)[0] == (EventModel::LogLine {
                id: reg[i].id,
                line,
                timestamp,
            })
            &&& after[i].config == reg[i].config
            &&& after[i].started_at == reg[i].started_at
            &&& after[i].ram_mb == reg[i].ram_mb
            &&& forall|j: int| 0 <= j < reg.len() && j != i ==> #[trigger] after[j] == reg[j]
        }),
{
    lemma_own_slot(reg, i);
    let after = instance::after_line(reg, reg[i].id, line, timestamp);
    let log = after[i].log;
    assert(reg[i].wf());
    if reg[i].log.len() < 1000 {
        assert(log.drop_last() =~= reg[i].log);
    } else {
        assert(log.drop_last() =~= reg[i].log.skip(1));
    }
}

/// The line with which a server tells that it is up takes a starting instance to running, forgets the
/// restarts that it took, and is told of. A line that lacks one of the two marks does none of this.
pub proof fn law_ready_lines(
    reg: Seq<InstanceModel>,
    i: int,
    a: Seq<char>,
    b: Seq<char>,
    c: Seq<char>,
    other: Seq<char>,
    timestamp: i64,
)
    requires
        state::registry_wf(reg),
        0 <= i < reg.len(),
        forall|j: int| 0 <= j < reg.len() && j != i ==> !up((#[trigger] reg[j]).status),
        !text_laws::stands_in(other, "Done ("@) || !text_laws::stands_in(
            other,
            "! For help, type"@,
        ),
    ensures
        ({
            let id = reg[i].id;
            let line = a + "Done ("@ + b + "! For help, type"@ + c;
            let after = instance::after_line(reg, id, line, timestamp);
            &&& after[i].status == InstanceStatus::Running
            &&& after[i].restart_attempts == 0
            &&& instance::line_events(reg, id, line, timestamp).contains(
                EventModel::StateChanged { id, status: InstanceStatus::Running },
            )
            &&& instance::after_line(reg, id, other, timestamp)[i].status == reg[i].status
            &&& instance::after_line(reg, id, other, timestamp)[i].restart_attempts
                == reg[i].restart_attempts
        }),
{
    let id = reg[i].id;
    lemma_own_slot(reg, i);
    let line = a + "Done ("@ + b + "! For help, type"@ + c;
    let x = "Done ("@;
    let y = "! For help, type"@;
    let m = a.len() as int;
    let n = a.len() + x.len() + b.len();
    assert(line.subrange(m, m + x.len()) =~= x);
    assert(line.subrange(n as int, n as int + y.len()) =~= y);
    text_laws::law_found_where_it_stands(line, x);
    text_laws::law_found_where_it_stands(line, y);
    text_laws::law_found_where_it_stands(other, x);
    text_laws::law_found_where_it_stands(other, y);
    assert(instance::no_other_active(reg, id)) by {
        assert forall|j: int| 0 <= j < reg.len() && state::is_active(
            (#[trigger] reg[j]).status,
        ) implies reg[j].id == id by {
            assert(j == i || !up(reg[j].status));
        }
    }
    let events = instance::line_events(reg, id, line, timestamp);
    assert(events[1] == (EventModel::StateChanged { id, status: InstanceStatus::Running }));
}

/// While another server is up, the line with which a server tells that it is up does not take it to
/// running, and nobody is told so.
pub proof fn law_ready_lines_wait_for_their_turn(
    reg: Seq<InstanceModel>,
    i: int,
    k: int,
    line: Seq<char>,
    timestamp: i64,
)
    requires
        state::registry_wf(reg),
        0 <= i < reg.len(),
        0 <= k < reg.len(),
        k != i,
        up(reg[k].status),
    ensures
        instance::after_line(reg, reg[i].id, line, timestamp)[i].status == reg[i].status,
        forall|n: int|
            0 <= n < instance::line_events(reg, reg[i].id, line, timestamp).len() ==> !((
            #[trigger] instance::line_events(reg, reg[i].id, line, timestamp)[n]) is StateChanged),
{
    lemma_own_slot(reg, i);
    assert(reg[k].id != reg[i].id) by {
        if k < i {
            assert(reg[k].id != reg[i].id);
        } else {
            assert(reg[i].id != reg[k].id);
        }
    }
    assert(state::is_active(reg[k].status));
    assert(!instance::no_other_active(reg, reg[i].id));
}

/// A line that tells of nothing is told of as a line, and as nothing else.
pub proof fn law_other_lines_are_only_lines(
    reg: Seq<InstanceModel>,
    id: Seq<char>,
    line: Seq<char>,
    timestamp: i64,
)
    requires
        !text_laws::stands_in(line, "Done ("@),
        !text_laws::stands_in(line, "TPS: "@),
        !text_laws::stands_in(line, "joined the game"@),
        !text_laws::stands_in(line, "left the game"@),
    ensures
        instance::line_events(reg, id, line, timestamp) == seq![
            EventModel::LogLine { id, line, timestamp },
        ],
{
    text_laws::law_found_where_it_stands(line, "Done ("@);
    text_laws::law_found_where_it_stands(line, "TPS: "@);
    text_laws::law_found_where_it_stands(line, "joined the game"@);
    text_laws::law_found_where_it_stands(line, "left the game"@);
    assert(instance::line_events(reg, id, line, timestamp) =~= seq![
        EventModel::LogLine { id, line, timestamp },
    ]);
}

/// What is said where a stop, a switch or an update is refused.
pub proof fn law_refusals_are_told(reg: Seq<InstanceModel>, i: int, id: Seq<char>)
    requires
        state::registry_wf(reg),
    ensures
        !there_is(reg, id) ==> {
            let said = Some("Instance '"@ + id + "' "@ + "not found"@);
            &&& instance::stop_refusal(reg, id) == said
            &&& instance::switch_refusal(reg, id) == said
            &&& setup::update_refusal(reg, id) == said
        },
        0 <= i < reg.len() && !up(reg[i].status) ==> instance::stop_refusal(reg, reg[i].id) == Some(
            "Instance '"@ + reg[i].config.instance.name@ + "' "@ + "is not running"@,
        ),
        0 <= i < reg.len() && (up(reg[i].status) || reg[i].status == InstanceStatus::Stopping)
            ==> setup::update_refusal(reg, reg[i].id) == Some(
            "Server must be stopped before updating."@,
        ),
        0 <= i < reg.len() && up(reg[i].status) && (forall|j: int|
            0 <= j < reg.len() && j != i ==> !up((#[trigger] reg[j]).status))
            ==> instance::switch_refusal(reg, reg[i].id) == Some(
            "Instance '"@ + reg[i].id + "' "@ + "is already running"@,
        ),
{
    state::lemma_slot(reg, id);
    state::lemma_running_slot(reg);
    if 0 <= i < reg.len() {
        lemma_own_slot(reg, i);
        if up(reg[i].status) {
            assert(state::is_active(reg[i].status));
        }
    }
}

/// The memory of a server is not known where no line tells it.
pub proof fn law_memory_is_not_told(lines: Seq<Seq<char>>)
    requires
        forall|i: int| 0 <= i < lines.len() ==> !text::begins(#[trigger] lines[i], "VmRSS:"@),
    ensures
        metrics::ram_in(lines) is None,
    decreases lines.len(),
{
    if lines.len() > 0 {
        assert(!text::begins(lines[0], "VmRSS:"@));
        let rest = lines.skip(1);
        assert forall|i: int| 0 <= i < rest.len() implies !text::begins(
            #[trigger] rest[i],
            "VmRSS:"@,
        ) by {
            assert(rest[i] == lines[i + 1]);
        }
        law_memory_is_not_told(rest);
    }
}

/// Whether a text is a name that a player can choose: 3 to 16 letters of ASCII, digits or
/// underscores.
pub open spec fn chosen_name(p: Seq<char>) -> bool {
    &&& 3 <= p.len() <= 16
    &&& forall|i: int|
        0 <= i < p.len() ==> 'a' <= #[trigger] p[i] <= 'z' || 'A' <= p[i] <= 'Z' || '0' <= p[i]
            <= '9' || p[i] == '_'
}

/// Players who come and leave are seen: for every name that a player can choose, the line of the
/// console that tells of it is read as that name coming, or leaving.
pub proof fn law_players_are_seen(time: Seq<char>, p: Seq<char>)
    requires
        chosen_name(p),
        !time.contains(']'),
    ensures
        ({
            let head = "["@ + time + "] [Server thread/INFO"@ + "]: "@ + p + " "@;
            let came = head + "joined the game"@;
            let went = head + "left the game"@;
            &&& instance::player_in(came, "joined the game"@) == Some(p)
            &&& instance::player_in(came, "left the game"@) is None
            &&& instance::player_in(went, "left the game"@) == Some(p)
            &&& instance::player_in(went, "joined the game"@) is None
        }),
{
    law_names_of_any_length_are_seen(time, p);
}

/// Whether a text can be told as a name: at least two letters of ASCII, digits or underscores, however
/// many.
pub open spec fn told_name(p: Seq<char>) -> bool {
    &&& p.len() >= 2
    &&& forall|i: int|
        0 <= i < p.len() ==> 'a' <= #[trigger] p[i] <= 'z' || 'A' <= p[i] <= 'Z' || '0' <= p[i]
            <= '9' || p[i] == '_'
}

/// No name is too long to be seen: what holds of the names that players can choose holds of any other
/// name of at least two such characters.
pub proof fn law_names_of_any_length_are_seen(time: Seq<char>, p: Seq<char>)
    requires
        told_name(p),
        !time.contains(']'),
    ensures
        ({
            let head = "["@ + time + "] [Server thread/INFO"@ + "]: "@ + p + " "@;
            let came = head + "joined the game"@;
            let went = head + "left the game"@;
            &&& instance::player_in(came, "joined the game"@) == Some(p)
            &&& instance::player_in(came, "left the game"@) is None
            &&& instance::player_in(went, "left the game"@) == Some(p)
            &&& instance::player_in(went, "joined the game"@) is None
        }),
{
    assert(instance::player_name(p)) by {
        assert forall|i: int| 0 <= i < p.len() implies slug::is_alnum(#[trigger] p[i]) || p[i]
            == '_' by {}
    }
    instance_laws::law_console_lines_are_read(time, p);
    let came = instance_laws::console_line(
        instance_laws::console_head(time),
        p,
        "joined the game"@,
    );
    lemma_not_left(time, p);
}

proof fn lemma_not_left(time: Seq<char>, p: Seq<char>)
    requires
        !time.contains(']'),
    ensures
        instance::player_in(
            instance_laws::console_line(instance_laws::console_head(time), p, "joined the game"@),
            "left the game"@,
        ) is None,
{
    let l = instance_laws::console_line(
        instance_laws::console_head(time),
        p,
        "joined the game"@,
    );
    instance_laws::lemma_message(time, p, "joined the game"@);
    let msg = p + " "@ + "joined the game"@;
    let tail = " "@ + "left the game"@;
    reveal_strlit("joined the game");
    reveal_strlit("left the game");
    reveal_strlit(" ");
    if text::ends(msg, tail) {
        let t = msg.subrange(msg.len() - tail.len(), msg.len() as int);
        assert(t[tail.len() - 10] == msg[msg.len() - 10]);
        assert(tail[tail.len() - 10] == 't');
        assert(msg[msg.len() - 10] == 'd');
    }
}

/// Whatever stands in front of the message, such as the name of a mod's logger, players are seen all
/// the same.
pub proof fn law_players_are_seen_behind_any_head(head: Seq<char>, p: Seq<char>)
    requires
        told_name(p),
        forall|j: int|
            0 <= j < head.len() ==> #[trigger] (head + "]: "@).subrange(j, j + "]: "@.len())
                != "]: "@,
    ensures
        ({
            let came = head + "]: "@ + (p + " "@ + "joined the game"@);
            let went = head + "]: "@ + (p + " "@ + "left the game"@);
            &&& instance::player_in(came, "joined the game"@) == Some(p)
            &&& instance::player_in(came, "left the game"@) is None
            &&& instance::player_in(went, "left the game"@) == Some(p)
            &&& instance::player_in(went, "joined the game"@) is None
        }),
{
    assert(instance::player_name(p)) by {
        assert forall|i: int| 0 <= i < p.len() implies slug::is_alnum(#[trigger] p[i]) || p[i]
            == '_' by {}
    }
    reveal_strlit("joined the game");
    reveal_strlit("left the game");
    reveal_strlit(" ");
    let joined = "joined the game"@;
    let left = "left the game"@;
    let a = p + " "@ + joined;
    let b = p + " "@ + left;
    let came = head + "]: "@ + a;
    let went = head + "]: "@ + b;
    text_laws::law_found_behind(head, "]: "@, a);
    text_laws::law_found_behind(head, "]: "@, b);
    text_laws::law_found_where_it_stands(came, joined);
    text_laws::law_found_where_it_stands(went, left);
    let i = came.len() - joined.len();
    assert(came.subrange(i, i + joined.len()) =~= joined);
    let j = went.len() - left.len();
    assert(went.subrange(j, j + left.len()) =~= left);
    assert(a =~= p + (" "@ + joined));
    assert(b =~= p + (" "@ + left));
    text_laws::law_begins_and_ends(" "@ + joined, p, b);
    text_laws::law_begins_and_ends(" "@ + left, p, a);
    assert(a.take(a.len() - (" "@ + joined).len()) =~= p);
    assert(b.take(b.len() - (" "@ + left).len()) =~= p);
    if text::ends(b, " "@ + joined) {
        let t = b.take(b.len() - (" "@ + joined).len()) + (" "@ + joined);
        assert(t[t.len() - 10] == 'd');
        assert(b[b.len() - 10] == 't');
    }
    if text::ends(a, " "@ + left) {
        let t = a.take(a.len() - (" "@ + left).len()) + (" "@ + left);
        assert(t[t.len() - 10] == 't');
        assert(a[a.len() - 10] == 'd');
    }
}

/// A player who is seen to come is on the list, and one who is seen to leave is not, however often
/// they are told of; the others stay.
pub proof fn law_the_list_follows(
    reg: Seq<InstanceModel>,
    i: int,
    time: Seq<char>,
    p: Seq<char>,
    other: Seq<char>,
    timestamp: i64,
)
    requires
        state::registry_wf(reg),
        0 <= i < reg.len(),
        chosen_name(p),
        !time.contains(']'),
        other != p,
    ensures
        ({
            let id = reg[i].id;
            let head = "["@ + time + "] [Server thread/INFO"@ + "]: "@ + p + " "@;
            let came = head + "joined the game"@;
            let went = head + "left the game"@;
            let with = instance::after_line(reg, id, came, timestamp)[i].players;
            let without = instance::after_line(reg, id, went, timestamp)[i].players;
            &&& with.contains(p)
            &&& !without.contains(p)
            &&& with.contains(other) <==> reg[i].players.contains(other)
            &&& without.contains(other) <==> reg[i].players.contains(other)
            &&& instance::line_events(reg, id, came, timestamp).contains(
                EventModel::PlayerJoined { id, player: p },
            )
            &&& instance::line_events(reg, id, went, timestamp).contains(
                EventModel::PlayerLeft { id, player: p },
            )
        }),
{
    let id = reg[i].id;
    let players = reg[i].players;
    lemma_own_slot(reg, i);
    law_players_are_seen(time, p);
    assert(reg[i].wf());
    instance_laws::law_players_come_and_go(players, p);
    let head = "["@ + time + "] [Server thread/INFO"@ + "]: "@ + p + " "@;
    let came = head + "joined the game"@;
    let went = head + "left the game"@;
    let a = instance::line_events(reg, id, came, timestamp);
    assert(a[a.len() - 1] == (EventModel::PlayerJoined { id, player: p }));
    let b = instance::line_events(reg, id, went, timestamp);
    assert(b[b.len() - 1] == (EventModel::PlayerLeft { id, player: p }));
    let with = instance::with_player(players, p);
    let without = instance::without_player(players, p);
    if players.contains(other) {
        let k = players.index_of(other);
        if !players.contains(p) {
            assert(with[k] == other);
        } else {
            let n = players.index_of(p);
            if k < n {
                assert(without[k] == other);
            } else {
                assert(without[k - 1] == other);
            }
        }
    }
    if with.contains(other) && !players.contains(p) {
        let k = with.index_of(other);
        assert(players[k] == other);
    }
    if without.contains(other) && players.contains(p) {
        let n = players.index_of(p);
        let k = without.index_of(other);
        if k < n {
            assert(players[k] == other);
        } else {
            assert(players[k + 1] == other);
        }
    }
}

/// What is read as a player coming or leaving is such a line: the name stands between `]: ` and what
/// is told, and it holds letters, digits and underscores alone. What players write is none of this.
pub proof fn law_only_such_lines_are_read(line: Seq<char>, what: Seq<char>)
    ensures
        instance::player_in(line, what) matches Some(p) ==> {
            &&& exists|head: Seq<char>| line == #[trigger] (head + "]: "@) + p + (" "@ + what)
            &&& p.len() > 0
            &&& forall|i: int|
                0 <= i < p.len() && (#[trigger] p[i] as u32) < 128 ==> 'a' <= p[i] <= 'z' || 'A'
                    <= p[i] <= 'Z' || '0' <= p[i] <= '9' || p[i] == '_'
        },
{
    if let Some(p) = instance::player_in(line, what) {
        text_laws::law_halves_make_the_whole(line, "]: "@);
        let (head, msg) = text::halves(line, "]: "@).unwrap();
        let tail = " "@ + what;
        text_laws::law_begins_and_ends(tail, msg, msg);
        assert(line =~= (head + "]: "@) + p + tail);
        assert forall|i: int| 0 <= i < p.len() && (#[trigger] p[i] as u32) < 128 implies 'a' <= p[i]
            <= 'z' || 'A' <= p[i] <= 'Z' || '0' <= p[i] <= '9' || p[i] == '_' by {
            assert(slug::is_alnum(p[i]) || p[i] == '_');
        }
    }
}

proof fn lemma_numeric_front(t: Seq<char>, rest: Seq<char>)
    requires
        forall|i: int| 0 <= i < t.len() ==> '0' <= #[trigger] t[i] <= '9' || t[i] == '.',
        rest.len() > 0 ==> !('0' <= rest[0] <= '9') && rest[0] != '.',
    ensures
        metrics::numeric_front(t + rest) == t,
    decreases t.len(),
{
    let s = t + rest;
    if t.len() > 0 {
        assert(s[0] == t[0]);
        let u = t.skip(1);
        assert forall|i: int| 0 <= i < u.len() implies '0' <= #[trigger] u[i] <= '9' || u[i]
            == '.' by {
            assert(u[i] == t[i + 1]);
        }
        lemma_numeric_front(u, rest);
        assert(s.skip(1) =~= u + rest);
        assert(seq![t[0]] + u =~= t);
    } else {
        assert(s =~= rest);
        assert(t =~= Seq::<char>::empty());
    }
}

/// The tick rate is read from the line that tells it: the numeral behind the first `TPS: `, whole
/// part, point and fraction, or a whole number alone.
pub proof fn law_tick_rates_are_read(
    head: Seq<char>,
    w: Seq<char>,
    f: Seq<char>,
    rest: Seq<char>,
)
    requires
        forall|j: int|
            0 <= j < head.len() ==> #[trigger] (head + "TPS: "@).subrange(j, j + 5) != "TPS: "@,
        w.len() > 0,
        forall|i: int| 0 <= i < w.len() ==> '0' <= #[trigger] w[i] <= '9',
        forall|i: int| 0 <= i < f.len() ==> '0' <= #[trigger] f[i] <= '9',
        rest.len() > 0 ==> !('0' <= rest[0] <= '9') && rest[0] != '.',
    ensures
        metrics::tps_in(head + "TPS: "@ + w + "."@ + f + rest) == Some(w + "."@ + f),
        metrics::tps_in(head + "TPS: "@ + w + rest) == Some(w),
        metrics::tps_in(head + "TPS: "@ + rest) is None,
        !text_laws::stands_in(rest, "TPS: "@) ==> metrics::tps_in(rest) is None,
{
    reveal_strlit("TPS: ");
    reveal_strlit(".");
    let mark = "TPS: "@;
    text_laws::law_found_behind(head, mark, rest);
    assert((head + mark + rest).skip(head.len() as int + 5) =~= rest);
    let none = Seq::<char>::empty();
    lemma_numeric_front(none, rest);
    assert(none + rest =~= rest);
    text_laws::law_found_where_it_stands(rest, mark);
    let a = w + "."@ + f;
    assert forall|i: int| 0 <= i < a.len() implies '0' <= #[trigger] a[i] <= '9' || a[i] == '.' by {
        if i < w.len() {
            assert(a[i] == w[i]);
        } else if i > w.len() {
            assert(a[i] == f[i - w.len() - 1]);
        }
    }
    let s1 = head + mark + (a + rest);
    assert(head + mark + w + "."@ + f + rest =~= s1);
    text_laws::law_found_behind(head, mark, a + rest);
    assert(s1.skip(head.len() as int + 5) =~= a + rest);
    lemma_numeric_front(a, rest);
    assert(metrics::decimal_number(a)) by {
        assert(text::is_digit(a[0])) by {
            assert(a[0] == w[0]);
        }
        assert forall|i: int, j: int| 0 <= i < j < a.len() implies !(a[i] == '.' && a[j] == '.') by {
            if i != w.len() {
                if i < w.len() {
                    assert(a[i] == w[i]);
                } else {
                    assert(a[i] == f[i - w.len() - 1]);
                }
            } else {
                assert(a[j] == f[j - w.len() - 1]);
            }
        }
    }
    let s2 = head + mark + (w + rest);
    assert(head + mark + w + rest =~= s2);
    text_laws::law_found_behind(head, mark, w + rest);
    assert(s2.skip(head.len() as int + 5) =~= w + rest);
    lemma_numeric_front(w, rest);
    assert(metrics::decimal_number(w)) by {
        assert(text::is_digit(w[0]));
    }
}

/// The tick rate that a line tells is kept for the instance and told of with its memory; a line that
/// tells none leaves it as it was.
pub proof fn law_tick_rates_are_kept(
    reg: Seq<InstanceModel>,
    i: int,
    line: Seq<char>,
    timestamp: i64,
)
    requires
        state::registry_wf(reg),
        0 <= i < reg.len(),
    ensures
        ({
            let id = reg[i].id;
            let after = instance::after_line(reg, id, line, timestamp);
            match metrics::tps_in(line) {
                Some(t) => after[i].tps == Some(t) && instance::line_events(
                    reg,
                    id,
                    line,
                    timestamp,
                ).contains(
                    EventModel::Metrics {
                        id,
                        ram_mb: match reg[i].ram_mb {
                            Some(n) => n,
                            None => 0,
                        },
                        tps: Some(t),
                        cpu_pct: None,
                    },
                ),
                None => after[i].tps == reg[i].tps,
            }
        }),
{
    let id = reg[i].id;
    lemma_own_slot(reg, i);
    if let Some(t) = metrics::tps_in(line) {
        let events = instance::line_events(reg, id, line, timestamp);
        let e = EventModel::Metrics {
            id,
            ram_mb: match reg[i].ram_mb {
                Some(n) => n,
                None => 0,
            },
            tps: Some(t),
            cpu_pct: None,
        };
        if instance::gets_up(reg, id, line) {
            assert(events[2] == e);
        } else {
            assert(events[1] == e);
        }
    }
}

/// The memory of a server is read from the line that tells it, in mebibytes.
pub proof fn law_memory_is_read(front: Seq<Seq<char>>, gap: Seq<char>, kb: nat, rest: Seq<Seq<char>>)
    requires
        forall|i: int| 0 <= i < front.len() ==> !text::begins(#[trigger] front[i], "VmRSS:"@),
        forall|i: int| 0 <= i < gap.len() ==> text::is_space(#[trigger] gap[i]),
        kb <= 0xffffffffffffffff,
    ensures
        metrics::ram_in(
            front.push("VmRSS:"@ + gap + text::digits(kb) + " kB"@) + rest,
        ) == Some(kb / 1024),
    decreases front.len(),
{
    let line = "VmRSS:"@ + gap + text::digits(kb) + " kB"@;
    let all = front.push(line) + rest;
    if front.len() > 0 {
        let f = front.skip(1);
        assert forall|i: int| 0 <= i < f.len() implies !text::begins(
            #[trigger] f[i],
            "VmRSS:"@,
        ) by {
            assert(f[i] == front[i + 1]);
        }
        law_memory_is_read(f, gap, kb, rest);
        assert(all.skip(1) =~= f.push(line) + rest);
        assert(all[0] == front[0]);
    } else {
        assert(all[0] == line);
        let mark = "VmRSS:"@;
        let d = text::digits(kb);
        let tail = gap + d + " kB"@;
        assert(line =~= mark + tail);
        text_laws::law_begins_and_ends(mark, tail, line);
        assert(line.skip(mark.len() as int) =~= tail);
        reveal_strlit(" kB");
        text_laws::law_numbers_are_read_back(kb, kb, 0xffffffffffffffff);
        assert forall|i: int| 0 <= i < d.len() implies !text::is_space(#[trigger] d[i]) by {
            assert('0' <= d[i] <= '9');
        }
        let k = seq!['k', 'B'];
        assert(tail =~= gap + d.push(' ') + k);
        text_laws::law_first_word(gap, d, ' ', k);
    }
}

/// A reading of memory is kept for the instance, and nothing else changes.
pub proof fn law_memory_is_kept(reg: Seq<InstanceModel>, i: int, ram_mb: u64)
    requires
        state::registry_wf(reg),
        0 <= i < reg.len(),
    ensures
        metrics::with_ram(reg, reg[i].id, ram_mb) == reg.update(
            i,
            InstanceModel { ram_mb: Some(ram_mb), ..reg[i] },
        ),
{
    lemma_own_slot(reg, i);
}

/// The tick rate is asked for while the server runs, and only of NeoForge and Forge.
pub proof fn law_tick_rate_is_asked_for(reg: Seq<InstanceModel>, i: int)
    requires
        state::registry_wf(reg),
        0 <= i < reg.len(),
    ensures
        ({
            let poll = metrics::tps_poll_of(reg, reg[i].id);
            let forge = reg[i].config.instance.loader matches Some(l) && (l@ == "neoforge"@ || l@
                == "forge"@);
            &&& poll == metrics::TpsPoll::Ask <==> reg[i].status == InstanceStatus::Running && forge
            &&& poll == metrics::TpsPoll::Stop <==> reg[i].status != InstanceStatus::Running
        }),
{
    lemma_own_slot(reg, i);
}

// ---------------------------------------------------------------------------
// Running a server
// ---------------------------------------------------------------------------

/// The environment of a server: its own options for Java are handed on, and a chosen Java comes first
/// on the path and is the home of Java. Where neither is set the environment is left alone.
pub proof fn law_environment(
    opts: Seq<char>,
    home: Seq<char>,
    java: Seq<char>,
    current: Seq<char>,
    some: Option<Seq<char>>,
)
    requires
        path_laws::plain_folder(home),
        path_laws::one_component(java),
    ensures
        instance::launch_env_of(None, None, current).len() == 0,
        instance::launch_env_of(Some(opts), None, current) == seq![("JAVA_TOOL_OPTIONS"@, opts)],
        instance::launch_env_of(some, Some(home + "/bin/"@ + java), current).contains(
            ("PATH"@, home + "/bin:"@ + current),
        ),
        instance::launch_env_of(some, Some(home + "/bin/"@ + java), current).contains(
            ("JAVA_HOME"@, home),
        ),
        instance::launch_env_of(Some(opts), Some(home + "/bin/"@ + java), current).contains(
            ("JAVA_TOOL_OPTIONS"@, opts),
        ),
        instance::launch_env_of(some, Some(home + "/bin/"@ + java), current).len() == (if some
            is Some {
            3nat
        } else {
            2nat
        }),
{
    reveal_strlit("/bin/");
    reveal_strlit("/bin:");
    reveal_strlit(":");
    let bin = seq!['b', 'i', 'n'];
    let dir = home.push('/') + bin;
    let j = home + "/bin/"@ + java;
    assert(j =~= dir.push('/') + java);
    assert(bin[0] != '/' && bin[1] != '/' && bin[2] != '/');
    assert(dir.last() == 'n');
    path_laws::law_name_and_folder(dir, java);
    path_laws::law_name_and_folder(home, bin);
    assert(dir + ":"@ + current =~= home + "/bin:"@ + current);
    assert(instance::launch_env_of(None, None, current) =~= Seq::empty());
    assert(instance::launch_env_of(Some(opts), None, current) =~= seq![
        ("JAVA_TOOL_OPTIONS"@, opts),
    ]);
    let e = instance::launch_env_of(some, Some(j), current);
    let n = e.len();
    assert(e[n - 1] == ("JAVA_HOME"@, home));
    assert(e[n - 2] == ("PATH"@, dir + ":"@ + current));
    let o = instance::launch_env_of(Some(opts), Some(j), current);
    assert(o[0] == ("JAVA_TOOL_OPTIONS"@, opts));
}

/// The limits that the manager keeps: a thousand lines, half a second between looks at a server that
/// stops, half a minute until it is told to terminate, a minute for a switch and a minute and a half
/// for a restart by schedule.
pub proof fn law_limits()
    ensures
        state::LOG_LIMIT == 1000,
        instance::STOP_POLL_MS == 500,
        instance::TERM_AFTER_MS == 30000,
        instance::SWITCH_LIMIT_MS == 60000,
        crate::restart::RESTART_LIMIT_MS == 90000,
        crate::discord::RESTART_WARNING_SECS == 30,
        crate::config::DEFAULT_WEB_PORT == 7331,
        crate::api::PACK_LIMIT == 12,
        crate::api::NO_CONTENT == 204,
        crate::api::ACCEPTED == 202,
        crate::api::BAD_REQUEST == 400,
        crate::api::NOT_FOUND == 404,
        crate::api::CONFLICT == 409,
        crate::api::INTERNAL_ERROR == 500,
        crate::api::BAD_GATEWAY == 502,
{
}

/// What consoles are sent: to stop, to tell the tick rate, and to read the lists anew.
pub proof fn law_console_commands()
    ensures
        instance::STOP_COMMAND@ == "stop"@,
        instance::EULA_ACCEPTED@ == "eula=true\n"@,
        metrics::TPS_COMMAND@ == "forge tps"@,
        crate::whitelist::RELOAD_COMMAND@ == "whitelist reload"@,
        crate::ban::RELOAD_COMMAND@ == "banlist reload"@,
{
}

/// What is shown of an instance is what it is: nothing of it is mixed up.
pub proof fn law_what_is_shown(m: InstanceModel)
    ensures
        ({
            let i: InfoModel = m.info();
            &&& i.id == m.id
            &&& i.name == m.config.instance.name@
            &&& m.config.instance.display_name matches Some(d) ==> i.display_name == d@
            &&& m.config.instance.display_name is None ==> i.display_name
                == m.config.instance.name@
            &&& i.minecraft_version == m.config.instance.minecraft_version@
            &&& i.status == m.status
            &&& i.players == m.players
            &&& m.started_at matches Some(t) ==> i.started_at == Some(t.secs)
            &&& m.started_at is None ==> i.started_at is None
            &&& i.port == m.config.instance.port
            &&& i.ram_mb == m.ram_mb
            &&& i.tps == m.tps
            &&& i.cpu_pct == m.cpu_pct
            &&& m.config.instance.loader matches Some(l) ==> i.loader == Some(l@)
            &&& m.config.instance.loader is None ==> i.loader is None
            &&& m.config.server.java_path matches Some(j) ==> i.java_path == Some(j@)
            &&& m.config.server.java_path is None ==> i.java_path is None
        }),
{
}

/// An instance that is added takes the place of one with its id, or comes at the end; every other one
/// stays.
pub proof fn law_added_instances(reg: Seq<InstanceModel>, m: InstanceModel)
    requires
        state::registry_wf(reg),
    ensures
        ({
            let after = state::with_instance(reg, m);
            &&& !there_is(reg, m.id) ==> after == reg.push(m)
            &&& forall|i: int|
                0 <= i < reg.len() && (#[trigger] reg[i]).id != m.id ==> after[i] == reg[i]
            &&& forall|i: int|
                0 <= i < reg.len() && (#[trigger] reg[i]).id == m.id ==> after == reg.update(i, m)
        }),
{
    state::lemma_slot(reg, m.id);
    assert forall|i: int| 0 <= i < reg.len() && (#[trigger] reg[i]).id == m.id implies state::with_instance(
        reg,
        m,
    ) == reg.update(i, m) by {
        lemma_own_slot(reg, i);
    }
}

/// Another version is installed just for an instance that is stopped or has crashed.
pub proof fn law_updates_are_granted(reg: Seq<InstanceModel>, id: Seq<char>)
    requires
        state::registry_wf(reg),
    ensures
        setup::update_refusal(reg, id) is None <==> exists|k: int|
            0 <= k < reg.len() && (#[trigger] reg[k]).id == id && reg[k].status
                != InstanceStatus::Starting && reg[k].status != InstanceStatus::Running
                && reg[k].status != InstanceStatus::Stopping,
{
    state::lemma_slot(reg, id);
    if let Some(a) = state::slot(reg, id) {
        assert forall|k: int| 0 <= k < reg.len() && (#[trigger] reg[k]).id == id implies k == a by {
            if k != a {
                assert(reg[k].id == reg[a].id);
            }
        }
    }
}

/// The version of the game that a version of NeoForge is for: `21.1.172` is for 1.21.1, and `21.0.5`
/// for 1.21.
pub proof fn law_game_of_neoforge(major: nat, minor: nat, rest: Seq<char>)
    requires
        minor <= 0xffffffff,
    ensures
        minor > 0 ==> setup::game_for_neoforge(
            text::digits(major) + "."@ + text::digits(minor) + "."@ + rest,
        ) == "1."@ + text::digits(major) + "."@ + text::digits(minor),
        minor == 0 ==> setup::game_for_neoforge(
            text::digits(major) + "."@ + text::digits(minor) + "."@ + rest,
        ) == "1."@ + text::digits(major),
{
    lemma_version_parts(text::digits(major), text::digits(minor), rest);
    text_laws::law_numbers_are_read_back(major, major, 0);
    text_laws::law_numbers_are_read_back(minor, 0, 0xffffffff);
    lemma_digits_plain(major);
    lemma_digits_plain(minor);
    lemma_version_parts(text::digits(major), text::digits(minor), rest);
}

proof fn lemma_digits_plain(n: nat)
    ensures
        !text::digits(n).contains('.'),
        !text::digits(n).contains('-'),
        !text::digits(n).contains('/'),
        !text::digits(n).contains('"'),
{
    text_laws::law_numbers_are_read_back(n, n, n);
    let d = text::digits(n);
    assert forall|i: int| 0 <= i < d.len() implies d[i] != '.' && d[i] != '-' && d[i] != '/' && d[i]
        != '"' by {
        assert('0' <= d[i] <= '9');
    }
}

/// A version of NeoForge of two parts tells the game as well, one of a single part stands for itself,
/// and a second part that is no number is kept as it is.
pub proof fn law_game_of_other_versions(major: Seq<char>, minor: Seq<char>, rest: Seq<char>)
    requires
        !major.contains('.'),
        !minor.contains('.'),
    ensures
        setup::game_for_neoforge(major) == major,
        text::uint(minor, 0xffffffff) == Some(0nat) ==> setup::game_for_neoforge(
            major + "."@ + minor,
        ) == "1."@ + major && setup::game_for_neoforge(major + "."@ + minor + "."@ + rest) == "1."@
            + major,
        text::uint(minor, 0xffffffff) != Some(0nat) ==> setup::game_for_neoforge(
            major + "."@ + minor,
        ) == "1."@ + major + "."@ + minor && setup::game_for_neoforge(
            major + "."@ + minor + "."@ + rest,
        ) == "1."@ + major + "."@ + minor,
{
    lemma_version_parts(major, minor, rest);
    text::lemma_pieces_whole(major, '.');
}

/// The first two parts of a version with dots.
pub proof fn lemma_version_parts(a: Seq<char>, b: Seq<char>, rest: Seq<char>)
    ensures
        !a.contains('.') && !b.contains('.') ==> ({
            let p = text::pieces(a + "."@ + b + "."@ + rest, '.', '.');
            p.len() >= 3 && p[0] == a && p[1] == b
        }),
        !a.contains('.') && !b.contains('.') ==> text::pieces(a + "."@ + b, '.', '.') == seq![a, b],
{
    reveal_strlit(".");
    if !a.contains('.') && !b.contains('.') {
        let s = a + "."@ + b + "."@ + rest;
        let tail = b.push('.') + rest;
        assert(s =~= a.push('.') + tail);
        text::lemma_pieces_around(a, tail, '.');
        text::lemma_pieces_around(b, rest, '.');
        text::lemma_pieces_whole(a, '.');
        text::lemma_pieces_whole(b, '.');
        text::lemma_pieces_some(rest, '.', '.');
        assert(a + "."@ + b =~= a.push('.') + b);
        text::lemma_pieces_around(a, b, '.');
        assert(seq![a] + seq![b] =~= seq![a, b]);
    }
}

} // verus!
