//! What backups, restarts by schedule and repeated commands are for, in plain terms.

use crate::backup;
use crate::backup::BackupModel;
use crate::backup_laws;
use crate::config::ScheduleEntry;
use crate::order;
use crate::path_laws;
use crate::paths;
use crate::restart;
use crate::restart::ScheduledModel;
use crate::scheduler;
use crate::scheduler::RunModel;
use crate::state;
use crate::state::InstanceModel;
use crate::state::InstanceStatus;
use crate::state::Moment;
use crate::text;
use crate::text_laws;
use crate::time;
use vstd::prelude::*;

verus! {

// ---------------------------------------------------------------------------
// Restarts
// ---------------------------------------------------------------------------

/// The scheduled restarts grow with the registry: one more instance gives one more at the end just
/// where its restart settings have a schedule, whatever its other settings are, with its own id, that
/// schedule and the time for which players are warned.
pub proof fn law_scheduled_restarts_grow(reg: Seq<InstanceModel>, m: InstanceModel)
    ensures
        restart::restarts_in(Seq::empty()).len() == 0,
        (m.config.restart is None || m.config.restart->0.schedule is None) ==> restart::restarts_in(
            reg.push(m),
        ) == restart::restarts_in(reg),
        m.config.restart is Some && m.config.restart->0.schedule is Some ==> restart::restarts_in(
            reg.push(m),
        ) == restart::restarts_in(reg).push(
            ScheduledModel {
                id: m.id,
                schedule: m.config.restart->0.schedule->0@,
                warning_secs: m.config.restart->0.warning_secs,
            },
        ),
{
    assert(reg.push(m).drop_last() =~= reg);
    assert(reg.push(m).last() == m);
}

/// Every instance whose restart settings have a schedule is restarted by it.
pub proof fn law_schedules_are_kept(reg: Seq<InstanceModel>, i: int)
    requires
        0 <= i < reg.len(),
        reg[i].config.restart is Some,
        reg[i].config.restart->0.schedule is Some,
    ensures
        restart::restarts_in(reg).contains(
            ScheduledModel {
                id: reg[i].id,
                schedule: reg[i].config.restart->0.schedule->0@,
                warning_secs: reg[i].config.restart->0.warning_secs,
            },
        ),
    decreases reg.len(),
{
    let front = reg.drop_last();
    assert(front.push(reg.last()) =~= reg);
    law_scheduled_restarts_grow(front, reg.last());
    let all = restart::restarts_in(reg);
    let some = restart::restarts_in(front);
    let s = ScheduledModel {
        id: reg[i].id,
        schedule: reg[i].config.restart->0.schedule->0@,
        warning_secs: reg[i].config.restart->0.warning_secs,
    };
    if i < front.len() {
        law_schedules_are_kept(front, i);
        let k = some.index_of(s);
        assert(all[k] == s);
    } else {
        assert(all[all.len() - 1] == s);
    }
}

/// Nothing is restarted by a schedule that its settings do not have.
pub proof fn law_only_schedules_restart(reg: Seq<InstanceModel>, k: int)
    requires
        0 <= k < restart::restarts_in(reg).len(),
    ensures
        exists|i: int|
            0 <= i < reg.len() && ((#[trigger] reg[i]).config.restart matches Some(c)
                && c.schedule matches Some(s) && restart::restarts_in(reg)[k] == (ScheduledModel {
                id: reg[i].id,
                schedule: s@,
                warning_secs: c.warning_secs,
            })),
    decreases reg.len(),
{
    let front = reg.drop_last();
    assert(front.push(reg.last()) =~= reg);
    law_scheduled_restarts_grow(front, reg.last());
    let some = restart::restarts_in(front);
    if k < some.len() {
        law_only_schedules_restart(front, k);
        let i = choose|i: int|
            0 <= i < front.len() && ((#[trigger] front[i]).config.restart matches Some(c)
                && c.schedule matches Some(s) && some[k] == (ScheduledModel {
                id: front[i].id,
                schedule: s@,
                warning_secs: c.warning_secs,
            }));
        assert(reg[i] == front[i]);
        assert(restart::restarts_in(reg)[k] == some[k]);
    } else {
        assert(reg[reg.len() - 1] == reg.last());
    }
}

/// Whether a countdown says something so many seconds before its end.
pub open spec fn says_before(total: nat, before: nat, line: Seq<char>) -> bool {
    exists|i: int|
        0 <= i < restart::countdown_of(total).len() && (#[trigger] restart::countdown_of(
            total,
        )[i]).1 == line && restart::slept_in(restart::countdown_of(total).take(i + 1)) + before
            == total
}

/// How long the steps of a countdown take: as long as each of them together.
pub proof fn law_steps_add_up(steps: Seq<(nat, Seq<char>)>, step: (nat, Seq<char>))
    ensures
        restart::slept_in(Seq::empty()) == 0,
        restart::slept_in(steps.push(step)) == restart::slept_in(steps) + step.0,
{
    assert(steps.push(step).drop_last() =~= steps);
}

/// Players are warned five minutes, one minute, half a minute and ten seconds before a restart, as
/// far as the countdown is that long, and told when it comes.
pub proof fn law_players_are_warned(total: nat)
    ensures
        total >= 300 ==> says_before(total, 300, "say Server restarting in "@ + "5 minutes"@ + "."@),
        total >= 60 ==> says_before(total, 60, "say Server restarting in "@ + "1 minute"@ + "."@),
        total >= 30 ==> says_before(total, 30, "say Server restarting in "@ + "30 seconds"@ + "."@),
        total >= 10 ==> says_before(total, 10, "say Server restarting in "@ + "10 seconds"@ + "."@),
        says_before(total, 0, "say Server is restarting now. See you soon!"@),
        restart::countdown_of(total).len() == 1 + (if total >= 300 {
            4nat
        } else if total >= 60 {
            3
        } else if total >= 30 {
            2
        } else if total >= 10 {
            1
        } else {
            0
        }),
{
    if total >= 300 {
        restart::law_each_milestone_is_told(total, 0);
    }
    if total >= 60 {
        restart::law_each_milestone_is_told(total, 1);
    }
    if total >= 30 {
        restart::law_each_milestone_is_told(total, 2);
    }
    if total >= 10 {
        restart::law_each_milestone_is_told(total, 3);
    }
    let c = restart::countdown_of(total);
    let n = c.len() - 1;
    restart::law_countdown_lasts(total);
    assert(c.take(n + 1) =~= c);
    assert(c[n].1 == "say Server is restarting now. See you soon!"@);
    reveal_with_fuel(restart::warnings_from, 6);
}

/// The countdown is as long as players are to be warned, and it begins so long before the restart;
/// where less time is left it begins at once and is as long as that.
pub proof fn law_countdown_window(until_nanos: int, warning_secs: int)
    requires
        until_nanos >= 0,
        warning_secs >= 0,
    ensures
        until_nanos > warning_secs * 1000000000 ==> restart::countdown_window(
            until_nanos,
            warning_secs,
        ).1 == warning_secs && restart::countdown_window(until_nanos, warning_secs).0
            + warning_secs * 1000000000 == until_nanos,
        until_nanos <= warning_secs * 1000000000 ==> restart::countdown_window(
            until_nanos,
            warning_secs,
        ).0 == 0 && ({
            let n = restart::countdown_window(until_nanos, warning_secs).1;
            n * 1000000000 <= until_nanos < (n + 1) * 1000000000
        }),
{
}

// ---------------------------------------------------------------------------
// Backups by schedule
// ---------------------------------------------------------------------------

/// The scheduled backups grow with the registry: one more instance gives one more at the end just
/// where its backups are switched on and have a schedule.
pub proof fn law_scheduled_backups_grow(reg: Seq<InstanceModel>, m: InstanceModel)
    ensures
        backup::backups_in(Seq::empty()).len() == 0,
        m.config.backup is None || !m.config.backup->0.enabled || m.config.backup->0.schedule is None
            ==> backup::backups_in(reg.push(m)) == backup::backups_in(reg),
        m.config.backup is Some && m.config.backup->0.enabled && m.config.backup->0.schedule is Some
            ==> backup::backups_in(reg.push(m)) == backup::backups_in(reg).push(
            (m.id, m.config.backup->0.schedule->0@),
        ),
{
    assert(reg.push(m).drop_last() =~= reg);
    assert(reg.push(m).last() == m);
}

// ---------------------------------------------------------------------------
// Backups
// ---------------------------------------------------------------------------

/// Whether a text can be the name of a backup: it holds no separator of either kind, and no two dots
/// in a row.
pub open spec fn plain(filename: Seq<char>) -> bool {
    &&& !filename.contains('/')
    &&& !filename.contains('\\')
    &&& forall|i: int, j: int|
        0 <= i && j == i + 1 && j < filename.len() ==> !(#[trigger] filename[i] == '.'
            && #[trigger] filename[j] == '.')
}

/// The names of backups that are let through are just those.
pub proof fn law_plain_names(filename: Seq<char>)
    ensures
        backup::plain_name(filename) <==> plain(filename),
{
    reveal_strlit("/");
    reveal_strlit("\\");
    reveal_strlit("..");
    text_laws::law_found_where_it_stands(filename, "/"@);
    text_laws::law_found_where_it_stands(filename, "\\"@);
    text_laws::law_found_where_it_stands(filename, ".."@);
    if backup::plain_name(filename) {
        assert forall|i: int| 0 <= i < filename.len() implies filename[i] != '/' && filename[i]
            != '\\' by {
            if filename[i] == '/' {
                assert(filename.subrange(i, i + 1) =~= "/"@);
            }
            if filename[i] == '\\' {
                assert(filename.subrange(i, i + 1) =~= "\\"@);
            }
        }
        assert forall|i: int, j: int| 0 <= i && j == i + 1 && j < filename.len() implies !(
        #[trigger] filename[i] == '.' && #[trigger] filename[j] == '.') by {
            if filename[i] == '.' && filename[j] == '.' {
                assert(filename.subrange(i, i + 2) =~= ".."@);
            }
        }
    }
    if plain(filename) {
        if text_laws::stands_in(filename, "/"@) {
            let i = choose|i: int|
                0 <= i && i + "/"@.len() <= filename.len() && #[trigger] filename.subrange(
                    i,
                    i + "/"@.len(),
                ) == "/"@;
            assert(filename.subrange(i, i + 1)[0] == filename[i]);
        }
        if text_laws::stands_in(filename, "\\"@) {
            let i = choose|i: int|
                0 <= i && i + "\\"@.len() <= filename.len() && #[trigger] filename.subrange(
                    i,
                    i + "\\"@.len(),
                ) == "\\"@;
            assert(filename.subrange(i, i + 1)[0] == filename[i]);
        }
        if text_laws::stands_in(filename, ".."@) {
            let i = choose|i: int|
                0 <= i && i + ".."@.len() <= filename.len() && #[trigger] filename.subrange(
                    i,
                    i + ".."@.len(),
                ) == ".."@;
            let w = filename.subrange(i, i + 2);
            assert(w[0] == filename[i] && w[1] == filename[i + 1]);
        }
    }
}

/// A backup is restored whenever its name is plain, there is such an instance whose server is neither
/// starting, running nor stopping, and the file is there; and only then.
pub proof fn law_restores_are_granted(
    reg: Seq<InstanceModel>,
    id: Seq<char>,
    filename: Seq<char>,
    file_exists: bool,
)
    requires
        state::registry_wf(reg),
    ensures
        backup::restore_refusal(reg, id, filename, file_exists) is None <==> plain(filename)
            && file_exists && exists|k: int|
            0 <= k < reg.len() && (#[trigger] reg[k]).id == id && reg[k].status
                != InstanceStatus::Starting && reg[k].status != InstanceStatus::Running
                && reg[k].status != InstanceStatus::Stopping,
{
    law_plain_names(filename);
    state::lemma_slot(reg, id);
    if let Some(a) = state::slot(reg, id) {
        assert forall|k: int| 0 <= k < reg.len() && (#[trigger] reg[k]).id == id implies k == a by {
            if k != a {
                assert(reg[k].id == reg[a].id);
            }
        }
    }
}

/// Why a restore is refused: the first of the four reasons that holds.
pub proof fn law_restores_are_refused_with_a_reason(
    reg: Seq<InstanceModel>,
    i: int,
    filename: Seq<char>,
    file_exists: bool,
)
    requires
        state::registry_wf(reg),
        0 <= i < reg.len(),
    ensures
        ({
            let r = backup::restore_refusal(reg, reg[i].id, filename, file_exists);
            let down = reg[i].status == InstanceStatus::Stopped || reg[i].status
                == InstanceStatus::Crashed;
            &&& !plain(filename) ==> r == Some("Invalid backup filename"@)
            &&& plain(filename) && !down ==> r == Some(
                "Instance must be stopped before restoring a backup"@,
            )
            &&& plain(filename) && down && !file_exists ==> r == Some(
                "Backup '"@ + filename + "' not found"@,
            )
        }),
{
    law_plain_names(filename);
    state::lemma_slot(reg, reg[i].id);
    let a = state::slot(reg, reg[i].id).unwrap();
    if a != i {
        assert(reg[a].id == reg[i].id);
    }
}

/// The time that the name of a backup tells: the date in front of `.tar.zst`, with or without
/// seconds; a name without that end tells none.
pub proof fn law_times_in_names(date: Seq<char>, name: Seq<char>)
    ensures
        time::utc_secs(date, "%Y-%m-%d_%H-%M-%S"@) matches Some(t) ==> backup::created_in(
            date + ".tar.zst"@,
        ) == Some(t),
        time::utc_secs(date, "%Y-%m-%d_%H-%M-%S"@) is None ==> backup::created_in(
            date + ".tar.zst"@,
        ) == time::utc_secs(date, "%Y-%m-%d_%H-%M"@),
        (forall|d: Seq<char>| name != #[trigger] (d + ".tar.zst"@)) ==> backup::created_in(
            name,
        ) is None,
{
    let tail = ".tar.zst"@;
    let s = date + tail;
    text_laws::law_begins_and_ends(tail, date, s);
    assert(s.take(s.len() - tail.len()) =~= date);
    text_laws::law_begins_and_ends(tail, date, name);
    if text::ends(name, tail) {
        let d = name.take(name.len() - tail.len());
        assert(name == d + tail);
    }
}

/// Where backups lie and how they are called: in a folder for each instance, by their date, so that the
/// date can be told from the name again.
pub proof fn law_names_of_backups(data: Seq<char>, id: Seq<char>, date: Seq<char>)
    requires
        data.len() > 0,
        data.last() != '/',
        path_laws::one_component(id),
    ensures
        backup::backup_dir_of(data, id) == (data.push('/') + "backups"@).push('/') + id,
        backup::name_for(date) == date + ".tar.zst"@,
        backup::date_in(backup::name_for(date)) == Some(date),
{
    reveal_strlit("backups");
    path_laws::law_joining(data, "backups"@);
    let b = data.push('/') + "backups"@;
    assert(b.last() == 's');
    assert(id[0] != '/');
    path_laws::law_joining(b, id);
    let s = date + ".tar.zst"@;
    text_laws::law_begins_and_ends(".tar.zst"@, date, s);
    assert(s.take(s.len() - ".tar.zst"@.len()) =~= date);
}

/// Whether a listed backup is a file of the folder: its name, its size, and the time that its name
/// tells, or second zero where it tells none.
pub open spec fn is_file(b: BackupModel, f: (Seq<char>, u64)) -> bool {
    &&& b.filename == f.0
    &&& b.size_bytes == f.1
    &&& backup::created_in(f.0) matches Some(t) ==> b.created_at == t
    &&& backup::created_in(f.0) is None ==> b.created_at == 0
}

/// The listed backups are the files of the folder whose names end in `.zst`: every one of them, and
/// none else.
pub proof fn law_backups_are_listed(
    files: Seq<(Seq<char>, u64)>,
    i: int,
    stem: Seq<char>,
    n: int,
)
    ensures
        0 <= i < files.len() && stem.len() > 0 && !stem.contains('/') && files[i].0 == stem + ".zst"@
            ==> exists|k: int|
            0 <= k < backup_laws::listed(files).len() && is_file(
                #[trigger] backup_laws::listed(files)[k],
                files[i],
            ),
        0 <= n < backup_laws::listed(files).len() ==> exists|k: int|
            0 <= k < files.len() && is_file(
                backup_laws::listed(files)[n],
                #[trigger] files[k],
            ) && paths::extension_of(files[k].0) == Some("zst"@),
{
    let infos = backup::infos_of(files);
    let all = backup_laws::listed(files);
    order::lemma_arranged_members(infos, backup::newest_first());
    lemma_infos(files);
    if 0 <= i < files.len() && stem.len() > 0 && !stem.contains('/') && files[i].0 == stem
        + ".zst"@ {
        reveal_strlit(".zst");
        reveal_strlit("zst");
        let ext = "zst"@;
        assert(stem + ".zst"@ =~= stem.push('.') + ext);
        assert(ext[0] != '/' && ext[1] != '/' && ext[2] != '/');
        path_laws::law_extension(seq!['x'], stem, ext);
        let k = choose|k: int| 0 <= k < infos.len() && is_file(#[trigger] infos[k], files[i]);
        assert(infos.contains(infos[k]));
        assert(all.contains(infos[k]));
        let m = all.index_of(infos[k]);
        assert(is_file(all[m], files[i]));
    }
    if 0 <= n < all.len() {
        assert(all.contains(all[n]));
        assert(infos.contains(all[n]));
        let m = infos.index_of(all[n]);
        assert(infos[m] == all[n]);
    }
}

proof fn lemma_infos(files: Seq<(Seq<char>, u64)>)
    ensures
        forall|i: int|
            #![trigger files[i]]
            0 <= i < files.len() && paths::extension_of(files[i].0) == Some("zst"@) ==> exists|
                k: int,
            |
                0 <= k < backup::infos_of(files).len() && is_file(
                    #[trigger] backup::infos_of(files)[k],
                    files[i],
                ),
        forall|n: int|
            #![trigger backup::infos_of(files)[n]]
            0 <= n < backup::infos_of(files).len() ==> exists|k: int|
                0 <= k < files.len() && is_file(
                    backup::infos_of(files)[n],
                    #[trigger] files[k],
                ) && paths::extension_of(files[k].0) == Some("zst"@),
    decreases files.len(),
{
    if files.len() > 0 {
        let front = files.drop_last();
        lemma_infos(front);
        let all = backup::infos_of(files);
        let some = backup::infos_of(front);
        assert forall|i: int|
            #![trigger files[i]]
            0 <= i < files.len() && paths::extension_of(files[i].0) == Some(
                "zst"@,
            ) implies exists|k: int|
            0 <= k < all.len() && is_file(#[trigger] all[k], files[i]) by {
            if i < front.len() {
                assert(front[i] == files[i]);
                let k = choose|k: int| 0 <= k < some.len() && is_file(#[trigger] some[k], front[i]);
                assert(all[k] == some[k]);
            } else {
                assert(is_file(all[all.len() - 1], files[i]));
            }
        }
        assert forall|n: int|
            #![trigger all[n]]
            0 <= n < all.len() implies exists|k: int|
            0 <= k < files.len() && is_file(all[n], #[trigger] files[k]) && paths::extension_of(
                files[k].0,
            ) == Some("zst"@) by {
            if n < some.len() {
                assert(all[n] == some[n]);
                let k = choose|k: int|
                    0 <= k < front.len() && is_file(some[n], #[trigger] front[k])
                        && paths::extension_of(front[k].0) == Some("zst"@);
                assert(files[k] == front[k]);
            } else {
                assert(files[files.len() - 1] == files.last());
            }
        }
    }
}

/// The list of backups is newest first, and retention takes just those behind the first so many.
pub proof fn law_newest_backups_come_first(
    files: Seq<(Seq<char>, u64)>,
    keep_count: nat,
    i: int,
    j: int,
)
    ensures
        0 <= i < j < backup_laws::listed(files).len() ==> backup_laws::listed(files)[i].created_at
            >= backup_laws::listed(files)[j].created_at,
        ({
            let all = backup_laws::listed(files);
            let gone = backup::outdated(all, keep_count);
            &&& all.len() <= keep_count ==> gone.len() == 0
            &&& all.len() > keep_count ==> gone.len() == all.len() - keep_count
            &&& forall|k: int|
                0 <= k < gone.len() ==> #[trigger] gone[k] == all[keep_count + k].filename
        }),
{
    let leq = backup::newest_first();
    let all = backup_laws::listed(files);
    assert(order::total_preorder(leq));
    order::lemma_arranged(backup::infos_of(files), leq);
    if 0 <= i < j < all.len() {
        assert(leq(all[i], all[j]));
    }
}

// ---------------------------------------------------------------------------
// Repeated commands
// ---------------------------------------------------------------------------

/// Whether a command was last sent at a time: the first record of it tells, and zero stands for never.
pub open spec fn last_sent(runs: Seq<RunModel>, id: Seq<char>, name: Seq<char>, at: int) -> bool {
    ||| exists|k: int|
        0 <= k < runs.len() && (#[trigger] runs[k]).id == id && runs[k].name == name && runs[k].at
            == at && forall|j: int|
            0 <= j < k ==> !((#[trigger] runs[j]).id == id && runs[j].name == name)
    ||| at == 0 && forall|j: int|
        0 <= j < runs.len() ==> !((#[trigger] runs[j]).id == id && runs[j].name == name)
}

proof fn lemma_run_slot(runs: Seq<RunModel>, id: Seq<char>, name: Seq<char>)
    ensures
        match scheduler::run_slot(runs, id, name) {
            Some(k) => 0 <= k < runs.len() && runs[k].id == id && runs[k].name == name && forall|
                j: int,
            |
                0 <= j < k ==> !((#[trigger] runs[j]).id == id && runs[j].name == name),
            None => forall|j: int|
                0 <= j < runs.len() ==> !((#[trigger] runs[j]).id == id && runs[j].name == name),
        },
    decreases runs.len(),
{
    if runs.len() > 0 {
        let front = runs.drop_last();
        lemma_run_slot(front, id, name);
        assert forall|j: int| 0 <= j < front.len() implies #[trigger] runs[j] == front[j] by {}
    }
}

/// When a command was last sent is read from the records.
pub proof fn law_last_time_is_known(runs: Seq<RunModel>, id: Seq<char>, name: Seq<char>)
    ensures
        last_sent(runs, id, name, scheduler::last_at(runs, id, name)),
{
    lemma_run_slot(runs, id, name);
    if let Some(k) = scheduler::run_slot(runs, id, name) {
        assert(runs[k].id == id);
    }
}

/// The commands of an instance grow with its settings: one more command is sent just where it is
/// switched on and its interval is over; one that was never sent counts as sent at second zero.
pub proof fn law_due_commands_grow(
    entries: Seq<ScheduleEntry>,
    e: ScheduleEntry,
    id: Seq<char>,
    runs: Seq<RunModel>,
    now: int,
)
    ensures
        e.interval_secs <= i64::MAX ==> ({
            let last = scheduler::last_at(runs, id, e.name@);
            let before = scheduler::due_entries(entries, id, runs, now);
            let after = scheduler::due_entries(entries.push(e), id, runs, now);
            &&& e.enabled && now >= last + e.interval_secs ==> after == before.push(
                (id, e.name@, e.command@),
            )
            &&& !e.enabled || now < last + e.interval_secs ==> after == before
        }),
        scheduler::due_entries(Seq::empty(), id, runs, now).len() == 0,
{
    assert(entries.push(e).drop_last() =~= entries);
    assert(entries.push(e).last() == e);
}

/// Commands are sent to servers that run, one after the other, and to no other.
pub proof fn law_only_running_servers_get_commands(
    reg: Seq<InstanceModel>,
    m: InstanceModel,
    runs: Seq<RunModel>,
    now: int,
)
    ensures
        scheduler::due_in(Seq::empty(), runs, now).len() == 0,
        m.status == InstanceStatus::Running ==> scheduler::due_in(reg.push(m), runs, now)
            == scheduler::due_in(reg, runs, now) + scheduler::due_entries(
            m.config.schedules@,
            m.id,
            runs,
            now,
        ),
        m.status != InstanceStatus::Running ==> scheduler::due_in(reg.push(m), runs, now)
            == scheduler::due_in(reg, runs, now),
{
    assert(reg.push(m).drop_last() =~= reg);
    assert(reg.push(m).last() == m);
}

/// A command that was sent is recorded at its time, and the records of others stay.
pub proof fn law_sent_commands_are_recorded(
    runs: Seq<RunModel>,
    id: Seq<char>,
    name: Seq<char>,
    now: i64,
    other_id: Seq<char>,
    other: Seq<char>,
)
    ensures
        scheduler::last_at(scheduler::recorded(runs, id, name, now), id, name) == now,
        other_id != id || other != name ==> scheduler::last_at(
            scheduler::recorded(runs, id, name, now),
            other_id,
            other,
        ) == scheduler::last_at(runs, other_id, other),
{
    let after = scheduler::recorded(runs, id, name, now);
    lemma_run_slot(runs, id, name);
    lemma_run_slot(after, id, name);
    lemma_run_slot(runs, other_id, other);
    lemma_run_slot(after, other_id, other);
    match scheduler::run_slot(runs, id, name) {
        Some(k) => {
            assert(after[k] == (RunModel { id, name, at: now }));
            assert forall|j: int| 0 <= j < runs.len() && j != k implies #[trigger] after[j]
                == runs[j] by {}
            let m = scheduler::run_slot(after, id, name).unwrap();
            if m < k {
                assert(after[m] == runs[m]);
            }
            if other_id != id || other != name {
                if let Some(a) = scheduler::run_slot(runs, other_id, other) {
                    assert(a != k);
                    assert(after[a] == runs[a]);
                    let b = scheduler::run_slot(after, other_id, other).unwrap();
                    if b < a {
                        assert(b != k);
                        assert(after[b] == runs[b]);
                    }
                } else if let Some(b) = scheduler::run_slot(after, other_id, other) {
                    assert(b != k);
                    assert(after[b] == runs[b]);
                }
            }
        },
        None => {
            let n = runs.len() as int;
            assert(after[n] == (RunModel { id, name, at: now }));
            assert forall|j: int| 0 <= j < runs.len() implies #[trigger] after[j] == runs[j] by {}
            let m = scheduler::run_slot(after, id, name).unwrap();
            if m < n {
                assert(after[m] == runs[m]);
            }
            if other_id != id || other != name {
                if let Some(a) = scheduler::run_slot(runs, other_id, other) {
                    assert(after[a] == runs[a]);
                    let b = scheduler::run_slot(after, other_id, other).unwrap();
                    if b < a {
                        assert(after[b] == runs[b]);
                    }
                } else if let Some(b) = scheduler::run_slot(after, other_id, other) {
                    if b < n {
                        assert(after[b] == runs[b]);
                    }
                }
            }
        },
    }
}

/// All commands that were sent are recorded, one after the other.
pub proof fn law_records_grow(
    runs: Seq<RunModel>,
    sent: Seq<(Seq<char>, Seq<char>, Seq<char>)>,
    one: (Seq<char>, Seq<char>, Seq<char>),
    now: i64,
)
    ensures
        scheduler::all_recorded(runs, Seq::empty(), now) == runs,
        scheduler::last_at(scheduler::all_recorded(runs, sent.push(one), now), one.0, one.1) == now,
        forall|id: Seq<char>, name: Seq<char>|
            id != one.0 || name != one.1 ==> #[trigger] scheduler::last_at(
                scheduler::all_recorded(runs, sent.push(one), now),
                id,
                name,
            ) == scheduler::last_at(scheduler::all_recorded(runs, sent, now), id, name),
{
    assert(sent.push(one).drop_last() =~= sent);
    let before = scheduler::all_recorded(runs, sent, now);
    law_sent_commands_are_recorded(before, one.0, one.1, now, one.0, one.1);
    assert forall|id: Seq<char>, name: Seq<char>| id != one.0 || name != one.1 implies #[trigger]
    scheduler::last_at(scheduler::all_recorded(runs, sent.push(one), now), id, name)
        == scheduler::last_at(before, id, name) by {
        law_sent_commands_are_recorded(before, one.0, one.1, now, id, name);
    }
}

// ---------------------------------------------------------------------------
// The clock
// ---------------------------------------------------------------------------

/// A schedule of five fields is taken at second zero; any other one is taken as it is.
pub proof fn law_schedules_with_five_fields(schedule: Seq<char>)
    ensures
        text::word_count(schedule) == 5 ==> time::with_seconds(schedule) == "0 "@ + schedule,
        text::word_count(schedule) != 5 ==> time::with_seconds(schedule) == schedule,
{
}

/// How long a server has been up: whole seconds, and none where the clock was set back.
pub proof fn law_whole_seconds_are_counted(from: Moment, to: Moment)
    ensures
        ({
            let d = (to.secs - from.secs) * 1000000000 + to.nanos - from.nanos;
            let s = time::seconds_between(from, to);
            &&& d >= 0 ==> s * 1000000000 <= d < (s + 1) * 1000000000
            &&& d < 0 ==> s == 0
        }),
{
}

} // verus!
