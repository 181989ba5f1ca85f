//! What is told in Discord and on the dashboard, in plain terms.

use crate::api;
use crate::api::AddInstanceRequest;
use crate::api::PackRef;
use crate::api::RestartConfigRequest;
use crate::config::InstanceConfig;
use crate::config::RestartConfig;
use crate::discord;
use crate::discord::Command;
use crate::instance;
use crate::life_laws;
use crate::metrics_db;
use crate::modrinth::Update;
use crate::order;
use crate::slug;
use crate::sse;
use crate::state;
use crate::state::EventModel;
use crate::state::InstanceModel;
use crate::state::InstanceStatus;
use crate::state::Moment;
use crate::text;
use crate::text_laws;
use crate::time;
use vstd::prelude::*;

verus! {

// ---------------------------------------------------------------------------
// Discord
// ---------------------------------------------------------------------------

/// Every status has a sign and a word of its own.
pub proof fn law_signs_of_a_status()
    ensures
        discord::icon_of(InstanceStatus::Running) == "🟢"@,
        discord::icon_of(InstanceStatus::Starting) == "🟡"@,
        discord::icon_of(InstanceStatus::Stopping) == "🟠"@,
        discord::icon_of(InstanceStatus::Stopped) == "⚫"@,
        discord::icon_of(InstanceStatus::Crashed) == "🔴"@,
        discord::label_of(InstanceStatus::Running) == "RUNNING"@,
        discord::label_of(InstanceStatus::Starting) == "STARTING"@,
        discord::label_of(InstanceStatus::Stopping) == "STOPPING"@,
        discord::label_of(InstanceStatus::Stopped) == "STOPPED"@,
        discord::label_of(InstanceStatus::Crashed) == "CRASHED"@,
{
}

/// A time of so many hours, minutes and seconds is written with two digits for each, and with more for
/// the hours where they need them.
pub proof fn law_times_are_written(h: nat, m: nat, s: nat)
    requires
        m < 60,
        s < 60,
    ensures
        discord::clock_text(h * 3600 + m * 60 + s) == text::two_digits(h) + ":"@ + text::two_digits(
            m,
        ) + ":"@ + text::two_digits(s),
        h < 10 ==> text::two_digits(h) == "0"@ + text::digits(h),
        h >= 10 ==> text::two_digits(h) == text::digits(h),
{
    let t = h * 3600 + m * 60 + s;
    assert(t / 3600 == h);
    assert(t % 3600 == m * 60 + s);
    assert((t % 3600) / 60 == m);
    assert(t % 60 == s);
}

/// Discord tells of the first server that is starting or running: how many players are on it and for
/// how long it has been up; and where there is none it says so.
pub proof fn law_status_is_told(reg: Seq<InstanceModel>, i: int, t: Moment, now: Moment)
    ensures
        life_laws::all_down(reg) ==> discord::status_text(reg, now)
            == "⚫ No server is currently running."@ && discord::players_text(reg)
            == "⚫ No server is running."@,
        0 <= i < reg.len() && life_laws::up(reg[i].status) && life_laws::all_down(reg.take(i)) ==> ({
            let said = discord::status_text(reg, now);
            let front = "🟢 **"@ + reg[i].shown_name() + "** — "@ + text::digits(
                reg[i].players.len(),
            ) + " player(s) online — up "@;
            let who = discord::players_text(reg);
            &&& reg[i].started_at == Some(t) ==> said == front + discord::clock_text(
                time::seconds_between(t, now) as nat,
            )
            &&& reg[i].started_at is None ==> said == front + "unknown"@
            &&& reg[i].players.len() == 0 ==> who == "No players online on **"@
                + reg[i].shown_name() + "**."@
            &&& reg[i].players.len() > 0 ==> who == "**"@ + reg[i].shown_name() + "** — "@
                + text::digits(reg[i].players.len()) + " player(s): "@ + text::joined(
                discord::all_quoted(reg[i].players),
                ", "@,
            )
        }),
{
    state::lemma_running_slot(reg);
    if 0 <= i < reg.len() && life_laws::up(reg[i].status) && life_laws::all_down(reg.take(i)) {
        let k = state::running_slot(reg).unwrap();
        if k < i {
            assert(reg.take(i)[k] == reg[k]);
        }
        assert(k == i);
    }
}

/// Players are told one by one, each between two backquotes.
pub proof fn law_players_are_quoted(players: Seq<Seq<char>>, i: int)
    requires
        0 <= i < players.len(),
    ensures
        discord::all_quoted(players).len() == players.len(),
        discord::all_quoted(players)[i] == "`"@ + players[i] + "`"@,
{
}

/// Texts with something between them: one more text comes behind one more of that.
pub proof fn law_joining_texts(parts: Seq<Seq<char>>, x: Seq<char>, sep: Seq<char>)
    ensures
        text::joined(Seq::empty(), sep).len() == 0,
        text::joined(seq![x], sep) == x,
        parts.len() > 0 ==> text::joined(parts.push(x), sep) == text::joined(parts, sep) + sep + x,
{
    assert(parts.push(x).drop_last() =~= parts);
}

/// The list of servers has one line for each, with its sign, its name and its status.
pub proof fn law_every_server_has_a_line(reg: Seq<InstanceModel>, i: int)
    requires
        0 <= i < reg.len(),
    ensures
        ({
            let lines = order::arranged(discord::list_lines(reg), order::by_text());
            &&& discord::list_text(reg) == text::joined(lines, "\n"@)
            &&& lines.len() == reg.len()
            &&& lines.contains(
                discord::icon_of(reg[i].status) + " **"@ + reg[i].shown_name() + "** — "@
                    + discord::label_of(reg[i].status),
            )
        }),
        discord::list_text(Seq::empty()) == "No instances configured."@,
{
    let all = discord::list_lines(reg);
    order::lemma_arranged_members(all, order::by_text());
    assert(all[i] == discord::icon_of(reg[i].status) + " **"@ + reg[i].shown_name() + "** — "@
        + discord::label_of(reg[i].status));
    assert(all.contains(all[i]));
}

/// Whether what was typed stands in the id of an instance, or in its name; capitals do not count in
/// what was typed and in the name.
pub open spec fn typed_in(m: InstanceModel, typed: Seq<char>) -> bool {
    ||| text_laws::stands_in(m.id, slug::lowercase(typed))
    ||| text_laws::stands_in(slug::lowercase(m.shown_name()), slug::lowercase(typed))
}

/// What is offered while a name is typed: the ids of just those instances in whose id or name the
/// typed text stands.
pub proof fn law_completions_grow(reg: Seq<InstanceModel>, m: InstanceModel, typed: Seq<char>)
    ensures
        discord::offers(Seq::empty(), typed).len() == 0,
        typed_in(m, typed) ==> discord::offers(reg.push(m), typed) == discord::offers(
            reg,
            typed,
        ).push(m.id),
        !typed_in(m, typed) ==> discord::offers(reg.push(m), typed) == discord::offers(reg, typed),
{
    assert(reg.push(m).drop_last() =~= reg);
    text_laws::law_found_where_it_stands(m.id, slug::lowercase(typed));
    text_laws::law_found_where_it_stands(
        slug::lowercase(m.shown_name()),
        slug::lowercase(typed),
    );
}

/// What is answered to a command that went through, and to one that did not.
pub proof fn law_commands_are_answered(x: Seq<char>)
    ensures
        discord::success_of(Command::Start, x) == "▶ Starting **"@ + x + "**…"@,
        discord::success_of(Command::Stop, x) == "⏹ Stopping **"@ + x + "**…"@,
        discord::success_of(Command::Restart, x) == "🔄 **"@ + x + "** is restarting."@,
        discord::success_of(Command::Switch, x) == "🔀 Switched to **"@ + x + "**."@,
        discord::success_of(Command::Backup, x) == "💾 Backup of **"@ + x + "** started…"@,
        discord::success_of(Command::Console, x) == "`> "@ + x + "`"@,
        discord::failure_of(Command::RestartStop, x) == "❌ Stop failed: "@ + x,
        discord::failure_of(Command::Restart, x) == "❌ Start failed after stop: "@ + x,
        forall|c: Command|
            c != Command::RestartStop && c != Command::Restart ==> #[trigger] discord::failure_of(
                c,
                x,
            ) == "❌ "@ + x,
        discord::RESTART_WARNING@ == "say [MSM] Server restarting in 30 seconds!"@,
{
}

/// What happens to a server is told where it starts to run, stops or crashes, where players come and
/// go, and where a backup ends; and nothing else is.
pub proof fn law_events_are_told(id: Seq<char>, x: Seq<char>, size: u64, e: EventModel)
    ensures
        discord::notice_of(EventModel::StateChanged { id, status: InstanceStatus::Running })
            == Some("🟢 **"@ + id + "** is now running."@),
        discord::notice_of(EventModel::StateChanged { id, status: InstanceStatus::Stopped })
            == Some("⚫ **"@ + id + "** has stopped."@),
        discord::notice_of(EventModel::StateChanged { id, status: InstanceStatus::Crashed })
            == Some("🔴 **"@ + id + "** has crashed!"@),
        discord::notice_of(
            EventModel::StateChanged { id, status: InstanceStatus::Starting },
        ) is None,
        discord::notice_of(
            EventModel::StateChanged { id, status: InstanceStatus::Stopping },
        ) is None,
        discord::notice_of(EventModel::PlayerJoined { id, player: x }) == Some(
            "→ `"@ + x + "` joined **"@ + id + "**"@,
        ),
        discord::notice_of(EventModel::PlayerLeft { id, player: x }) == Some(
            "← `"@ + x + "` left **"@ + id + "**"@,
        ),
        discord::notice_of(EventModel::BackupDone { id, filename: x, size_bytes: size }) == Some(
            "💾 Backup of **"@ + id + "** done — `"@ + x + "` ("@ + discord::size_text(
                size as nat,
            ) + " MB)"@,
        ),
        discord::notice_of(EventModel::BackupFailed { id, error: x }) == Some(
            "⚠️ Backup of **"@ + id + "** failed: "@ + x,
        ),
        !(e is StateChanged || e is PlayerJoined || e is PlayerLeft || e is BackupDone
            || e is BackupFailed) ==> discord::notice_of(e) is None,
{
}

/// A size is written in mebibytes with one digit behind the point, which is the nearest there is; of
/// two that are equally near it is the even one.
pub proof fn law_sizes_are_rounded(size: nat)
    requires
        size < 0x20000000000000,
    ensures
        ({
            let t = discord::tenths_of_mebibytes(size);
            &&& discord::size_text(size) == text::digits(t / 10) + "."@ + text::digits(t % 10)
            &&& 2 * (t * 1048576 - 10 * size) <= 1048576
            &&& 2 * (10 * size - t * 1048576) <= 1048576
            &&& 2 * (t * 1048576 - 10 * size) == 1048576 || 2 * (10 * size - t * 1048576) == 1048576
                ==> t % 2 == 0
        }),
{
    assert(discord::double_unit(size) == 1);
    assert(discord::nearest(size, 1) == size);
    let n = 10 * size;
    let q = n / 1048576;
    assert(n == q * 1048576 + n % 1048576);
}

// ---------------------------------------------------------------------------
// Sessions
// ---------------------------------------------------------------------------

/// The row of an open session is the one that was kept when the player came.
pub proof fn law_open_sessions_are_found(
    s: Seq<(Seq<char>, Seq<char>, i64)>,
    i: int,
    id: Seq<char>,
    player: Seq<char>,
)
    requires
        metrics_db::one_session_each(s),
    ensures
        0 <= i < s.len() && s[i].0 == id && s[i].1 == player ==> metrics_db::open_row(s, id, player)
            == Some(s[i].2),
        (forall|j: int| 0 <= j < s.len() ==> !((#[trigger] s[j]).0 == id && s[j].1 == player))
            ==> metrics_db::open_row(s, id, player) is None,
{
    metrics_db::lemma_session_slot(s, id, player);
    if 0 <= i < s.len() && s[i].0 == id && s[i].1 == player {
        let k = metrics_db::session_slot(s, id, player).unwrap();
        if k < i {
            assert(s[k].0 == s[i].0 && s[k].1 == s[i].1);
        }
    }
}

/// A session that begins or ends leaves all others as they are: those of other players, and those of
/// the same player on other servers.
pub proof fn law_other_sessions_stay(
    s: Seq<(Seq<char>, Seq<char>, i64)>,
    id: Seq<char>,
    player: Seq<char>,
    row: i64,
    i: int,
)
    requires
        metrics_db::one_session_each(s),
        0 <= i < s.len(),
        s[i].0 != id || s[i].1 != player,
    ensures
        metrics_db::opened(s, id, player, row).contains(s[i]),
        metrics_db::closed(s, id, player).contains(s[i]),
        metrics_db::opened(s, id, player, row).contains((id, player, row)),
        metrics_db::opened(s, id, player, row).len() <= s.len() + 1,
{
    metrics_db::lemma_session_slot(s, id, player);
    let more = metrics_db::opened(s, id, player, row);
    let less = metrics_db::closed(s, id, player);
    assert(more[i] == s[i]);
    match metrics_db::session_slot(s, id, player) {
        Some(k) => {
            assert(more[k] == (id, player, row));
            if i < k {
                assert(less[i] == s[i]);
            } else {
                assert(less[i - 1] == s[i]);
            }
        },
        None => {
            assert(more[s.len() as int] == (id, player, row));
        },
    }
}

// ---------------------------------------------------------------------------
// Dashboard
// ---------------------------------------------------------------------------

/// What is said of an instance: its id between quotes.
pub proof fn law_messages_name_the_instance(id: Seq<char>, what: Seq<char>)
    ensures
        instance::instance_message(id, what) == "Instance '"@ + id + "' "@ + what,
        instance::SWITCH_TIMED_OUT@ == "Timed out waiting for current instance to stop"@,
{
}

/// The dashboard lists every instance, by the names that are shown.
pub proof fn law_instances_are_listed(reg: Seq<InstanceModel>, i: int, a: int, b: int)
    ensures
        ({
            let all = order::arranged(sse::infos_of(reg), api::by_display_name());
            &&& all.len() == reg.len()
            &&& 0 <= i < reg.len() ==> all.contains(reg[i].info())
            &&& 0 <= a < b < all.len() ==> text::not_after(all[a].display_name, all[b].display_name)
        }),
        0 <= i < reg.len() ==> sse::infos_of(reg).len() == reg.len() && sse::infos_of(reg)[i]
            == reg[i].info(),
{
    let infos = sse::infos_of(reg);
    let leq = api::by_display_name();
    assert forall|x: state::InfoModel, y: state::InfoModel| #[trigger] leq(x, y) || leq(y, x) by {
        text::lemma_order_total(x.display_name, y.display_name);
    }
    assert forall|x: state::InfoModel, y: state::InfoModel, z: state::InfoModel|
        #[trigger] leq(x, y) && #[trigger] leq(y, z) implies leq(x, z) by {
        text::lemma_order_transitive(x.display_name, y.display_name, z.display_name);
    }
    order::lemma_arranged(infos, leq);
    order::lemma_arranged_members(infos, leq);
    let all = order::arranged(infos, leq);
    if 0 <= i < reg.len() {
        assert(infos[i] == reg[i].info());
        assert(infos.contains(infos[i]));
    }
    if 0 <= a < b < all.len() {
        assert(leq(all[a], all[b]));
    }
}

/// A browser that connects gets the lines of every instance that has some, in their order.
pub proof fn law_histories_grow(reg: Seq<InstanceModel>, m: InstanceModel)
    ensures
        sse::histories_of(Seq::empty()).len() == 0,
        m.log.len() > 0 ==> sse::histories_of(reg.push(m)) == sse::histories_of(reg).push(
            (m.id, m.log),
        ),
        m.log.len() == 0 ==> sse::histories_of(reg.push(m)) == sse::histories_of(reg),
{
    assert(reg.push(m).drop_last() =~= reg);
}

/// A text that was left blank is as good as none; any other is kept as it is.
pub proof fn law_blank_texts_are_none(a: Seq<char>, t: Seq<char>, b: Seq<char>)
    requires
        forall|i: int| 0 <= i < a.len() ==> text::is_space(#[trigger] a[i]),
        forall|i: int| 0 <= i < b.len() ==> text::is_space(#[trigger] b[i]),
        t.len() > 0 ==> !text::is_space(t[0]) && !text::is_space(t.last()),
    ensures
        t.len() > 0 ==> api::meaningful(Some(a + t + b)) == Some(a + t + b),
        t.len() == 0 ==> api::meaningful(Some(a + t + b)) is None,
        api::meaningful(None) is None,
{
    text_laws::law_trimming(a, t, b);
}

/// A new instance has the settings that were asked for, NeoForge as its loader, backups that are
/// switched off and keep ten, and nothing else.
pub proof fn law_settings_of_a_new_instance(
    c: InstanceConfig,
    req: AddInstanceRequest,
    id: Seq<char>,
)
    requires
        api::settings_for(c, req, id),
    ensures
        c.instance.name@ == id,
        c.instance.display_name is Some,
        c.instance.display_name->0@ == req.display_name@,
        c.instance.minecraft_version@ == req.minecraft_version@,
        c.instance.loader is Some,
        c.instance.loader->0@ == "neoforge"@,
        c.instance.loader_version is None,
        c.instance.port == req.port,
        c.instance.modrinth_project_id is None,
        c.server.path@ == req.server_path@,
        c.server.java_opts is None,
        req.java_path is None || text::trimmed(req.java_path->0@).len() == 0
            ==> c.server.java_path is None,
        req.java_path is Some && text::trimmed(req.java_path->0@).len() > 0
            ==> c.server.java_path is Some && c.server.java_path->0@ == req.java_path->0@,
        c.restart is None,
        c.alerts is None,
        c.schedules@.len() == 0,
        c.backup is Some,
        !c.backup->0.enabled,
        c.backup->0.schedule is None,
        c.backup->0.keep_count == 10,
        !c.backup->0.world_only,
{
}

/// Restart settings that were sent are kept as they were sent, but for a schedule that was left blank,
/// which is none.
pub proof fn law_restart_settings_are_kept(c: Option<RestartConfig>, req: RestartConfigRequest)
    requires
        api::restart_set(c, req),
    ensures
        c is Some,
        c->0.auto_restart == req.auto_restart,
        c->0.max_attempts == req.max_attempts,
        c->0.delay_secs == req.delay_secs,
        c->0.warning_secs == req.warning_secs,
        req.schedule is None || text::trimmed(req.schedule->0@).len() == 0 ==> c->0.schedule is None,
        req.schedule is Some && text::trimmed(req.schedule->0@).len() > 0 ==> c->0.schedule is Some
            && c->0.schedule->0@ == req.schedule->0@,
{
}

/// The update of a mod is the first one of its project.
pub proof fn law_update_of_a_project(updates: Seq<Update>, project: Seq<char>)
    ensures
        match api::update_slot(updates, project) {
            Some(i) => 0 <= i < updates.len() && updates[i].project_id@ == project && forall|j: int|
                0 <= j < i ==> (#[trigger] updates[j]).project_id@ != project,
            None => forall|j: int|
                0 <= j < updates.len() ==> (#[trigger] updates[j]).project_id@ != project,
        },
    decreases updates.len(),
{
    if updates.len() > 0 {
        let front = updates.drop_last();
        law_update_of_a_project(front, project);
        assert forall|j: int| 0 <= j < front.len() implies #[trigger] updates[j] == front[j] by {}
    }
}

/// The packs that were found, by number: a bare number counts, and so does the one of an object that
/// has one; nothing else does.
pub proof fn law_packs_are_numbered(packs: Seq<PackRef>, n: u64)
    ensures
        api::pack_numbers(Seq::empty()).len() == 0,
        api::pack_numbers(packs.push(PackRef::Number(n))) == api::pack_numbers(packs).push(n),
        api::pack_numbers(packs.push(PackRef::Object(Some(n)))) == api::pack_numbers(packs).push(n),
        api::pack_numbers(packs.push(PackRef::Object(None))) == api::pack_numbers(packs),
        api::pack_numbers(packs.push(PackRef::Other)) == api::pack_numbers(packs),
{
    assert(packs.push(PackRef::Number(n)).drop_last() =~= packs);
    assert(packs.push(PackRef::Object(Some(n))).drop_last() =~= packs);
    assert(packs.push(PackRef::Object(None)).drop_last() =~= packs);
    assert(packs.push(PackRef::Other).drop_last() =~= packs);
}

} // verus!
