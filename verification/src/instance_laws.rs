//! What holds over the whole life of an instance.

use crate::instance;
use crate::metrics;
use crate::state;
use crate::state::EventModel;
use crate::state::InstanceModel;
use crate::state::InstanceStatus;
use crate::state::LogModel;
use crate::state::Moment;
use crate::text;
use vstd::prelude::*;

verus! {

/// No two instances hold the one place for a running server.
pub open spec fn one_at_a_time(reg: Seq<InstanceModel>) -> bool {
    forall|i: int, j: int|
        0 <= i < reg.len() && 0 <= j < reg.len() && state::is_active(
            (#[trigger] reg[i]).status,
        ) && state::is_active((#[trigger] reg[j]).status) ==> i == j
}

/// After a start that was not refused the instance is starting, and no other one is active.
pub proof fn law_start_takes_the_one_place(reg: Seq<InstanceModel>, id: Seq<char>, now: Moment)
    requires
        state::registry_wf(reg),
        state::proper(now),
        instance::start_refusal(reg, id) is None,
    ensures
        one_at_a_time(instance::begun(reg, id, now)),
        state::slot(instance::begun(reg, id, now), id) matches Some(i) && instance::begun(
            reg,
            id,
            now,
        )[i].status == InstanceStatus::Starting,
        state::registry_wf(instance::begun(reg, id, now)),
{
    state::lemma_slot(reg, id);
    state::lemma_running_slot(reg);
    let after = instance::begun(reg, id, now);
    state::lemma_slot(after, id);
    let i = state::slot(reg, id).unwrap();
    assert(after[i].id == id);
}

/// While an instance is active every start is refused, whatever instance it is for.
pub proof fn law_no_start_while_one_runs(reg: Seq<InstanceModel>, k: int, id: Seq<char>)
    requires
        0 <= k < reg.len(),
        state::is_active(reg[k].status),
    ensures
        instance::start_refusal(reg, id) is Some,
{
    state::lemma_running_slot(reg);
}

/// Nothing that happens to an instance breaks the rule that one server runs at a time: not a status
/// that leaves the one place, not the exit of its server and what is decided after it, not a restart
/// that goes on after its delay, not a line of its console, not a reading of its memory.
pub proof fn law_one_at_a_time_is_kept(
    reg: Seq<InstanceModel>,
    id: Seq<char>,
    status: InstanceStatus,
    now: Moment,
    exit: Option<bool>,
    line: Seq<char>,
    timestamp: i64,
    ram_mb: u64,
)
    requires
        state::registry_wf(reg),
        one_at_a_time(reg),
    ensures
        !state::is_active(status) ==> one_at_a_time(instance::with_status(reg, id, status)),
        one_at_a_time(instance::finished(reg, id, exit)),
        one_at_a_time(instance::after_run(reg, id)),
        one_at_a_time(instance::resumed(reg, id, now)),
        one_at_a_time(metrics::with_ram(reg, id, ram_mb)),
        one_at_a_time(instance::after_line(reg, id, line, timestamp)),
{
    state::lemma_slot(reg, id);
    state::lemma_running_slot(reg);
    if let Some(k) = state::slot(reg, id) {
        assert forall|i: int| 0 <= i < reg.len() && reg[i].id == id implies i == k by {
            if i != k {
                assert(reg[i].id == reg[k].id);
            }
        }
    }
}

/// A crash, the decision on a restart, whatever happens in its delay, and the restart: one server
/// runs at a time where that holds at the end of the delay. Where another instance is active by
/// then, the restart does not go on and nothing is changed.
pub proof fn law_restart_leaves_the_place_to_others(
    reg: Seq<InstanceModel>,
    id: Seq<char>,
    exit: Option<bool>,
    later: Seq<InstanceModel>,
    now: Moment,
)
    requires
        state::registry_wf(reg),
        one_at_a_time(reg),
        state::registry_wf(later),
        one_at_a_time(later),
        state::proper(now),
    ensures
        one_at_a_time(instance::after_run(instance::finished(reg, id, exit), id)),
        one_at_a_time(instance::resumed(later, id, now)),
        state::registry_wf(instance::resumed(later, id, now)),
        (exists|k: int| 0 <= k < later.len() && state::is_active((#[trigger] later[k]).status))
            ==> instance::resumed(later, id, now) == later,
{
    let over = instance::finished(reg, id, exit);
    state::lemma_slot(reg, id);
    state::lemma_slot(over, id);
    state::lemma_slot(later, id);
    state::lemma_running_slot(later);
    assert(one_at_a_time(over));
    if instance::start_refusal(later, id) is None {
        law_start_takes_the_one_place(later, id, now);
    }
}

/// An instance that is added without being active, and a change of settings that leaves the status
/// alone, keep the rule that one server runs at a time.
pub proof fn law_settings_do_not_start_a_server(
    reg: Seq<InstanceModel>,
    i: int,
    m: InstanceModel,
)
    requires
        state::registry_wf(reg),
        one_at_a_time(reg),
    ensures
        !state::is_active(m.status) ==> one_at_a_time(state::with_instance(reg, m)),
        0 <= i < reg.len() && m.status == reg[i].status ==> one_at_a_time(reg.update(i, m)),
{
    state::lemma_slot(reg, m.id);
}

/// What can happen to the instances.
pub enum Happening {
    /// A run is asked for, or a restart goes on after its delay.
    Begin { id: Seq<char>, now: Moment },
    /// The server is asked to stop, or could not be run at all.
    Leave { id: Seq<char>, status: InstanceStatus },
    Exit { id: Seq<char>, exit: Option<bool> },
    /// It is decided whether a restart follows a run.
    Decide { id: Seq<char> },
    Line { id: Seq<char>, line: Seq<char>, timestamp: i64 },
    Memory { id: Seq<char>, ram_mb: u64 },
    Add { m: InstanceModel },
}

/// Whether something can happen: times are proper, the place is left for a status that does not
/// hold it, and an instance is added without being active.
pub open spec fn can_happen(h: Happening) -> bool {
    match h {
        Happening::Begin { now, .. } => state::proper(now),
        Happening::Leave { status, .. } => !state::is_active(status),
        Happening::Add { m } => m.wf() && !state::is_active(m.status),
        _ => true,
    }
}

/// The registry once something happened.
pub open spec fn after_one(reg: Seq<InstanceModel>, h: Happening) -> Seq<InstanceModel> {
    match h {
        Happening::Begin { id, now } => instance::resumed(reg, id, now),
        Happening::Leave { id, status } => instance::with_status(reg, id, status),
        Happening::Exit { id, exit } => instance::finished(reg, id, exit),
        Happening::Decide { id } => instance::after_run(reg, id),
        Happening::Line { id, line, timestamp } => instance::after_line(reg, id, line, timestamp),
        Happening::Memory { id, ram_mb } => metrics::with_ram(reg, id, ram_mb),
        Happening::Add { m } => state::with_instance(reg, m),
    }
}

/// The registry once several things happened.
pub open spec fn after_all(reg: Seq<InstanceModel>, all: Seq<Happening>) -> Seq<InstanceModel>
    decreases all.len(),
{
    if all.len() == 0 {
        reg
    } else {
        after_one(after_all(reg, all.drop_last()), all.last())
    }
}

proof fn lemma_after_one(reg: Seq<InstanceModel>, h: Happening)
    requires
        state::registry_wf(reg),
        one_at_a_time(reg),
        can_happen(h),
    ensures
        state::registry_wf(after_one(reg, h)),
        one_at_a_time(after_one(reg, h)),
{
    match h {
        Happening::Begin { id, now } => {
            law_one_at_a_time_is_kept(reg, id, InstanceStatus::Stopped, now, None, id, 0, 0);
            if instance::start_refusal(reg, id) is None {
                law_start_takes_the_one_place(reg, id, now);
            }
        },
        Happening::Leave { id, status } => {
            state::lemma_slot(reg, id);
        },
        Happening::Exit { id, exit } => {
            state::lemma_slot(reg, id);
        },
        Happening::Decide { id } => {
            state::lemma_slot(reg, id);
        },
        Happening::Line { id, line, timestamp } => {
            let now = Moment { secs: 0, nanos: 0 };
            law_one_at_a_time_is_kept(
                reg,
                id,
                InstanceStatus::Stopped,
                now,
                None,
                line,
                timestamp,
                0,
            );
            state::lemma_slot(reg, id);
            if let Some(i) = state::slot(reg, id) {
                instance::lemma_heard_wf(
                    reg[i],
                    line,
                    timestamp,
                    instance::gets_up(reg, id, line),
                );
            }
        },
        Happening::Memory { id, ram_mb } => {
            state::lemma_slot(reg, id);
        },
        Happening::Add { m } => {
            state::lemma_slot(reg, m.id);
            law_settings_do_not_start_a_server(reg, 0, m);
        },
    }
}

/// Whatever happens to the instances, in whatever order, no state has two that are starting or
/// running.
pub proof fn law_every_state_has_one_server(all: Seq<Happening>)
    requires
        forall|i: int| 0 <= i < all.len() ==> can_happen(#[trigger] all[i]),
    ensures
        one_at_a_time(after_all(Seq::empty(), all)),
        state::registry_wf(after_all(Seq::empty(), all)),
    decreases all.len(),
{
    if all.len() > 0 {
        let front = all.drop_last();
        assert forall|i: int| 0 <= i < front.len() implies can_happen(#[trigger] front[i]) by {
            assert(front[i] == all[i]);
        }
        law_every_state_has_one_server(front);
        assert(can_happen(all[all.len() - 1]));
        lemma_after_one(after_all(Seq::empty(), front), all.last());
    }
}

/// What happens to one instance leaves every other one as it was.
pub proof fn law_others_are_left_alone(
    reg: Seq<InstanceModel>,
    id: Seq<char>,
    other: Seq<char>,
    status: InstanceStatus,
    now: Moment,
    exit: Option<bool>,
    line: Seq<char>,
    timestamp: i64,
)
    requires
        state::registry_wf(reg),
        id != other,
    ensures
        same_at(reg, instance::with_status(reg, id, status), other),
        same_at(reg, instance::begun(reg, id, now), other),
        same_at(reg, instance::finished(reg, id, exit), other),
        same_at(reg, instance::after_run(reg, id), other),
        same_at(reg, instance::resumed(reg, id, now), other),
        same_at(reg, instance::after_line(reg, id, line, timestamp), other),
{
    state::lemma_slot(reg, id);
    lemma_same_at(reg, instance::with_status(reg, id, status), id, other);
    lemma_same_at(reg, instance::begun(reg, id, now), id, other);
    lemma_same_at(reg, instance::finished(reg, id, exit), id, other);
    lemma_same_at(reg, instance::after_run(reg, id), id, other);
    lemma_same_at(reg, instance::resumed(reg, id, now), id, other);
    lemma_same_at(reg, instance::after_line(reg, id, line, timestamp), id, other);
}

/// Whether the instance with an id is the same in two registries.
pub open spec fn same_at(
    before: Seq<InstanceModel>,
    after: Seq<InstanceModel>,
    id: Seq<char>,
) -> bool {
    match state::slot(before, id) {
        Some(i) => state::slot(after, id) == Some(i) && after[i] == before[i],
        None => state::slot(after, id) is None,
    }
}

proof fn lemma_same_at(
    before: Seq<InstanceModel>,
    after: Seq<InstanceModel>,
    id: Seq<char>,
    other: Seq<char>,
)
    requires
        id != other,
        match state::slot(before, id) {
            Some(i) => after.len() == before.len() && after[i].id == id && forall|j: int|
                0 <= j < before.len() && j != i ==> #[trigger] after[j] == before[j],
            None => after == before,
        },
    ensures
        same_at(before, after, other),
{
    state::lemma_slot(before, id);
    state::lemma_slot(before, other);
    state::lemma_slot(after, other);
    if let Some(k) = state::slot(before, id) {
        if let Some(i) = state::slot(before, other) {
            assert(after[i].id == other);
            let j = state::slot(after, other).unwrap();
            assert(after[j].id == other);
            if j < i {
                assert(before[j].id == other);
            }
        } else if let Some(j) = state::slot(after, other) {
            assert(after[j].id == other);
            assert(before[j].id == other);
        }
    }
}

/// A switch ends in a start that is not refused: once the instance that ran was marked as stopping
/// and its server has exited, nothing stands in the way of the target.
pub proof fn law_switch_makes_room(
    reg: Seq<InstanceModel>,
    target: Seq<char>,
    running: Seq<char>,
    success: bool,
)
    requires
        state::registry_wf(reg),
        one_at_a_time(reg),
        instance::switch_refusal(reg, target) is None,
        state::running_slot(reg) matches Some(i) && reg[i].id == running,
    ensures
        ({
            let marked = instance::with_status(reg, running, InstanceStatus::Stopping);
            let over = instance::finished(marked, running, Some(success));
            instance::start_refusal(over, target) is None
        }),
{
    let marked = instance::with_status(reg, running, InstanceStatus::Stopping);
    let over = instance::finished(marked, running, Some(success));
    let i = state::running_slot(reg).unwrap();
    state::lemma_running_slot(reg);
    state::lemma_slot(reg, running);
    state::lemma_slot(reg, target);
    state::lemma_slot(marked, running);
    let k = state::slot(reg, running).unwrap();
    assert(k == i) by {
        if k < i {
            assert(reg[k].id == reg[i].id);
        }
    }
    assert(marked[i].id == running);
    let m = state::slot(marked, running).unwrap();
    assert(m == i) by {
        if m < i {
            assert(marked[m] == reg[m]);
        }
    }
    state::lemma_running_slot(over);
    state::lemma_slot(over, target);
    if let Some(a) = state::running_slot(over) {
        if a != i {
            assert(over[a] == reg[a]);
            assert(state::is_active(reg[a].status) && state::is_active(reg[i].status));
        }
    }
    let t = state::slot(reg, target).unwrap();
    assert(over[t].id == target);
}

/// An exit that was asked for is no crash, and no restart follows it.
pub proof fn law_a_stop_is_no_crash(reg: Seq<InstanceModel>, id: Seq<char>, success: bool)
    requires
        state::registry_wf(reg),
        instance::stop_refusal(reg, id) is None,
    ensures
        ({
            let marked = instance::with_status(reg, id, InstanceStatus::Stopping);
            let over = instance::finished(marked, id, Some(success));
            &&& state::slot(over, id) matches Some(i)
            &&& over[i].status == InstanceStatus::Stopped
            &&& instance::due_retry(over, id) is None
        }),
{
    let marked = instance::with_status(reg, id, InstanceStatus::Stopping);
    let over = instance::finished(marked, id, Some(success));
    state::lemma_slot(reg, id);
    state::lemma_slot(marked, id);
    state::lemma_slot(over, id);
    let i = state::slot(reg, id).unwrap();
    assert(marked[i].id == id);
    let m = state::slot(marked, id).unwrap();
    if m < i {
        assert(marked[m] == reg[m]);
    }
    assert(over[i].id == id);
    let o = state::slot(over, id).unwrap();
    if o < i {
        assert(over[o] == reg[o]);
    }
}

/// Once its server has exited, an instance is neither active nor has it players.
pub proof fn law_exit_leaves_nothing_running(
    reg: Seq<InstanceModel>,
    id: Seq<char>,
    exit: Option<bool>,
)
    ensures
        state::slot(reg, id) matches Some(i) ==> ({
            let m = instance::finished(reg, id, exit)[i];
            !state::is_active(m.status) && m.players.len() == 0 && m.started_at is None
        }),
{
    state::lemma_slot(reg, id);
}

/// An instance after so many crashes in a row, none of which got the server up.
pub open spec fn after_crashes(m: InstanceModel, n: nat) -> InstanceModel
    decreases n,
{
    if n == 0 {
        InstanceModel { status: InstanceStatus::Crashed, ..m }
    } else {
        let last = after_crashes(m, (n - 1) as nat);
        match instance::retry_of(last) {
            Some(t) => InstanceModel { restart_attempts: t.attempt, ..last },
            None => last,
        }
    }
}

/// Crashes in a row are followed by no more restarts than the settings allow, and then by none.
pub proof fn law_restarts_come_to_an_end(m: InstanceModel, n: nat)
    requires
        m.config.restart is Some,
        m.restart_attempts <= m.config.restart->0.max_attempts,
    ensures
        after_crashes(m, n).config == m.config,
        after_crashes(m, n).restart_attempts <= m.config.restart->0.max_attempts,
        n >= m.config.restart->0.max_attempts ==> instance::retry_of(after_crashes(m, n)) is None,
{
    lemma_attempts(m, n);
}

proof fn lemma_attempts(m: InstanceModel, n: nat)
    requires
        m.config.restart is Some,
        m.restart_attempts <= m.config.restart->0.max_attempts,
    ensures
        after_crashes(m, n).config == m.config,
        after_crashes(m, n).status == InstanceStatus::Crashed,
        after_crashes(m, n).restart_attempts <= m.config.restart->0.max_attempts,
        m.config.restart->0.auto_restart ==> after_crashes(m, n).restart_attempts >= n || after_crashes(
            m,
            n,
        ).restart_attempts == m.config.restart->0.max_attempts,
    decreases n,
{
    if n > 0 {
        lemma_attempts(m, (n - 1) as nat);
    }
}

/// A server that got up starts to count its restarts anew.
pub proof fn law_ready_line_forgets_attempts(m: InstanceModel, line: Seq<char>, timestamp: i64)
    requires
        instance::tells_ready(line),
    ensures
        instance::heard(m, line, timestamp, true).status == InstanceStatus::Running,
        instance::heard(m, line, timestamp, true).restart_attempts == 0,
        instance::heard(m, line, timestamp, false).restart_attempts == 0,
{
}

/// The kept lines once several lines came.
pub open spec fn logged_all(log: Seq<LogModel>, entries: Seq<LogModel>) -> Seq<LogModel>
    decreases entries.len(),
{
    if entries.len() == 0 {
        log
    } else {
        instance::logged(logged_all(log, entries.drop_last()), entries.last())
    }
}

/// The last lines of a console, as many as there is room for.
pub open spec fn latest(all: Seq<LogModel>) -> Seq<LogModel> {
    if all.len() <= state::LOG_LIMIT {
        all
    } else {
        all.skip(all.len() - state::LOG_LIMIT)
    }
}

/// The latest lines are kept, in the order in which they came.
pub proof fn law_latest_lines_are_kept(log: Seq<LogModel>, entries: Seq<LogModel>)
    requires
        log.len() <= state::LOG_LIMIT,
    ensures
        logged_all(log, entries) == latest(log + entries),
    decreases entries.len(),
{
    if entries.len() == 0 {
        assert(log + entries =~= log);
    } else {
        law_latest_lines_are_kept(log, entries.drop_last());
        let shorter = log + entries.drop_last();
        assert(log + entries =~= shorter.push(entries.last()));
        assert(logged_all(log, entries) =~= latest(log + entries));
    }
}

/// A player who comes is listed, one who leaves is not, and one who comes and leaves again leaves
/// the list as it was.
pub proof fn law_players_come_and_go(players: Seq<Seq<char>>, p: Seq<char>)
    requires
        players.no_duplicates(),
    ensures
        instance::with_player(players, p).contains(p),
        !instance::without_player(players, p).contains(p),
        !players.contains(p) ==> instance::without_player(instance::with_player(players, p), p)
            == players,
{
    let w = instance::with_player(players, p);
    if !players.contains(p) {
        assert(w.last() == p);
        assert(w.contains(p));
        let k = w.index_of(p);
        assert(w[k] == p);
        if k < players.len() {
            assert(players[k] == p);
        }
        assert(w.remove(k) =~= players);
    } else {
        let k = players.index_of(p);
        let r = players.remove(k);
        assert(players[k] == p);
        assert forall|i: int| 0 <= i < r.len() implies r[i] != p by {
            let j = if i < k {
                i
            } else {
                i + 1
            };
            assert(r[i] == players[j]);
        }
    }
}

/// A line of a console: what stands in front of the message, the player, and what is told of them.
pub open spec fn console_line(head: Seq<char>, p: Seq<char>, what: Seq<char>) -> Seq<char> {
    head + "]: "@ + p + " "@ + what
}

/// What stands in front of the message at a time of day: `[<time>] [Server thread/INFO`.
pub open spec fn console_head(time: Seq<char>) -> Seq<char> {
    "["@ + time + "] [Server thread/INFO"@
}

/// A line of a console is cut behind what stands in front of its message.
pub proof fn lemma_message(time: Seq<char>, p: Seq<char>, what: Seq<char>)
    requires
        !time.contains(']'),
    ensures
        text::halves(console_line(console_head(time), p, what), "]: "@) == Some(
            (console_head(time), p + " "@ + what),
        ),
        text::has(console_line(console_head(time), p, what), what),
{
    reveal_strlit("]: ");
    reveal_strlit("[");
    reveal_strlit("] [Server thread/INFO");
    let h = console_head(time);
    let l = console_line(h, p, what);
    let sep = "]: "@;
    assert forall|j: int| 0 <= j < h.len() implies !text::occurs_at(l, sep, j) by {
        if text::occurs_at(l, sep, j) {
            let w = l.subrange(j, j + 3);
            assert(w[0] == l[j] && w[1] == l[j + 1]);
            assert(w[0] == ']' && w[1] == ':');
            assert(l[j] == h[j]);
            if 1 <= j <= time.len() {
                assert(h[j] == time[j - 1]);
            } else if j == time.len() + 1 {
                assert(l[j + 1] == h[j + 1]);
            }
        }
    }
    let n = h.len() as int;
    text::lemma_first_skips(l, sep, 0, n);
    assert(l.subrange(n, n + 3) =~= sep);
    assert(text::occurs_at(l, sep, n));
    assert(text::first(l, sep) == Some(n));
    assert(l.take(n) =~= h);
    assert(l.skip(n + 3) =~= p + " "@ + what);
    let at = l.len() - what.len();
    assert(l.subrange(at, at + what.len()) =~= what);
    text::lemma_present(l, what, 0, at);
}

/// A line that tells of a player who came, or who left, is read as just that.
pub proof fn law_console_lines_are_read(time: Seq<char>, p: Seq<char>)
    requires
        !time.contains(']'),
        instance::player_name(p),
    ensures
        ({
            let came = console_line(console_head(time), p, "joined the game"@);
            let went = console_line(console_head(time), p, "left the game"@);
            &&& instance::player_in(came, "joined the game"@) == Some(p)
            &&& instance::player_in(went, "joined the game"@) is None
            &&& instance::player_in(went, "left the game"@) == Some(p)
        }),
{
    reveal_strlit("joined the game");
    reveal_strlit("left the game");
    reveal_strlit(" ");
    lemma_message(time, p, "joined the game"@);
    lemma_message(time, p, "left the game"@);
    let a = p + " "@ + "joined the game"@;
    let b = p + " "@ + "left the game"@;
    let joined = " "@ + "joined the game"@;
    let left = " "@ + "left the game"@;
    assert(a.subrange(a.len() - joined.len(), a.len() as int) =~= joined);
    assert(a.take(a.len() - joined.len()) =~= p);
    assert(b.subrange(b.len() - left.len(), b.len() as int) =~= left);
    assert(b.take(b.len() - left.len()) =~= p);
    if text::ends(b, joined) {
        let tail = b.subrange(b.len() - joined.len(), b.len() as int);
        assert(tail[joined.len() - 10] == b[b.len() - 10]);
        assert(joined[joined.len() - 10] == 'd');
        assert(b[b.len() - 10] == 't');
    }
}

/// Whether events tell of one coming or going, and it is this one.
pub open spec fn tells_only(events: Seq<EventModel>, e: EventModel) -> bool {
    exists|i: int|
        0 <= i < events.len() && #[trigger] events[i] == e && forall|j: int|
            0 <= j < events.len() && j != i ==> !((#[trigger] events[j]) is PlayerJoined)
                && !(events[j] is PlayerLeft)
}

proof fn lemma_tells_only(
    reg: Seq<InstanceModel>,
    id: Seq<char>,
    line: Seq<char>,
    timestamp: i64,
    e: EventModel,
)
    requires
        e == (match instance::player_in(line, "joined the game"@) {
            Some(p) => EventModel::PlayerJoined { id, player: p },
            None => EventModel::PlayerLeft {
                id,
                player: instance::player_in(line, "left the game"@).unwrap(),
            },
        }),
        instance::player_in(line, "joined the game"@) is Some || instance::player_in(
            line,
            "left the game"@,
        ) is Some,
    ensures
        tells_only(instance::line_events(reg, id, line, timestamp), e),
{
    let events = instance::line_events(reg, id, line, timestamp);
    assert(events[events.len() - 1] == e);
}

/// A player who is not there comes and leaves again: the players are those that they were, and each
/// of the two lines tells of it once.
pub proof fn law_coming_and_leaving_lines(
    reg: Seq<InstanceModel>,
    id: Seq<char>,
    i: int,
    p: Seq<char>,
    time: Seq<char>,
    later: Seq<char>,
    timestamp: i64,
    later_timestamp: i64,
)
    requires
        state::registry_wf(reg),
        state::slot(reg, id) == Some(i),
        instance::player_name(p),
        !reg[i].players.contains(p),
        !time.contains(']'),
        !later.contains(']'),
    ensures
        ({
            let came = console_line(console_head(time), p, "joined the game"@);
            let went = console_line(console_head(later), p, "left the game"@);
            let there = instance::after_line(reg, id, came, timestamp);
            let gone = instance::after_line(there, id, went, later_timestamp);
            &&& there[i].players == reg[i].players.push(p)
            &&& gone[i].players == reg[i].players
            &&& tells_only(
                instance::line_events(reg, id, came, timestamp),
                EventModel::PlayerJoined { id, player: p },
            )
            &&& tells_only(
                instance::line_events(there, id, went, later_timestamp),
                EventModel::PlayerLeft { id, player: p },
            )
        }),
{
    let came = console_line(console_head(time), p, "joined the game"@);
    let went = console_line(console_head(later), p, "left the game"@);
    let there = instance::after_line(reg, id, came, timestamp);
    law_console_lines_are_read(time, p);
    law_console_lines_are_read(later, p);
    state::lemma_slot(reg, id);
    state::lemma_slot(there, id);
    assert(there[i].id == id);
    let k = state::slot(there, id).unwrap();
    if k < i {
        assert(there[k] == reg[k]);
    }
    law_players_come_and_go(reg[i].players, p);
    lemma_tells_only(reg, id, came, timestamp, EventModel::PlayerJoined { id, player: p });
    lemma_tells_only(there, id, went, later_timestamp, EventModel::PlayerLeft { id, player: p });
}

} // verus!
