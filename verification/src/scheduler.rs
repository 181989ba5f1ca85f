//! Console commands that are sent again and again.

use crate::config::ScheduleEntry;
use crate::state;
use crate::state::InstanceModel;
use crate::state::InstanceStatus;
use crate::state::Registry;
use crate::text;
use vstd::prelude::*;

verus! {

/// When a command of an instance was sent last.
#[derive(Debug)]
pub struct LastRun {
    pub id: String,
    pub name: String,
    pub at: i64,
}

/// The view of when a command was sent last.
pub struct RunModel {
    pub id: Seq<char>,
    pub name: Seq<char>,
    pub at: i64,
}

impl View for LastRun {
    type V = RunModel;

    open spec fn view(&self) -> RunModel {
        RunModel { id: self.id@, name: self.name@, at: self.at }
    }
}

/// The views of when commands were sent last.
pub open spec fn run_views(s: Seq<LastRun>) -> Seq<RunModel> {
    s.map_values(|r: LastRun| r@)
}

/// Where the record of a command stands.
pub open spec fn run_slot(runs: Seq<RunModel>, id: Seq<char>, name: Seq<char>) -> Option<int>
    decreases runs.len(),
{
    if runs.len() == 0 {
        None
    } else {
        match run_slot(runs.drop_last(), id, name) {
            Some(i) => Some(i),
            None => if runs.last().id == id && runs.last().name == name {
                Some(runs.len() - 1)
            } else {
                None
            },
        }
    }
}

/// When a command was sent last; at second zero where it was never sent.
pub open spec fn last_at(runs: Seq<RunModel>, id: Seq<char>, name: Seq<char>) -> int {
    match run_slot(runs, id, name) {
        Some(i) => runs[i].at as int,
        None => 0,
    }
}

/// The records once a command was sent.
pub open spec fn recorded(runs: Seq<RunModel>, id: Seq<char>, name: Seq<char>, now: i64) -> Seq<
    RunModel,
> {
    match run_slot(runs, id, name) {
        Some(i) => runs.update(i, RunModel { id, name, at: now }),
        None => runs.push(RunModel { id, name, at: now }),
    }
}

proof fn lemma_run_slot(runs: Seq<RunModel>, id: Seq<char>, name: Seq<char>)
    ensures
        match run_slot(runs, id, name) {
            Some(i) => 0 <= i < runs.len() && runs[i].id == id && runs[i].name == name && forall|
                j: int,
            |
                0 <= j < i ==> !((#[trigger] runs[j]).id == id && runs[j].name == name),
            None => forall|j: int|
                0 <= j < runs.len() ==> !((#[trigger] runs[j]).id == id && runs[j].name == name),
        },
    decreases runs.len(),
{
    if runs.len() > 0 {
        let front = runs.drop_last();
        lemma_run_slot(front, id, name);
        assert forall|j: int| 0 <= j < front.len() implies #[trigger] runs[j] == front[j] by {}
    }
}

fn find_run(runs: &Vec<LastRun>, id: &str, name: &str) -> (r: Option<usize>)
    ensures
        match r {
            Some(i) => i < runs@.len() && run_slot(run_views(runs@), id@, name@) == Some(i as int),
            None => run_slot(run_views(runs@), id@, name@) is None,
        },
{
    let ghost views = run_views(runs@);
    for i in 0..runs.len()
        invariant
            views == run_views(runs@),
            run_slot(views.take(i as int), id@, name@) is None,
    {
        assert(views.take(i + 1).drop_last() =~= views.take(i as int));
        assert(views.take(i + 1).last() == runs@[i as int]@);
        if text::same(runs[i].id.as_str(), id) && text::same(runs[i].name.as_str(), name) {
            proof {
                lemma_run_slot(views, id@, name@);
                lemma_run_slot(views.take(i as int), id@, name@);
                assert(views[i as int] == runs@[i as int]@);
                let k = run_slot(views, id@, name@).unwrap();
                if k < i {
                    assert(views.take(i as int)[k] == views[k]);
                }
            }
            return Some(i);
        }
    }
    assert(views.take(runs@.len() as int) =~= views);
    None
}

/// The seconds of an interval as a signed number: those beyond what it can hold wrap round.
pub open spec fn signed_secs(interval: u64) -> int {
    if interval <= i64::MAX {
        interval as int
    } else {
        interval - 0x10000000000000000
    }
}

/// Whether a command is due.
pub open spec fn is_due(e: ScheduleEntry, last: int, now: int) -> bool {
    e.enabled && now - last >= signed_secs(e.interval_secs)
}

/// A command that is to be sent: for which instance, its name, and the command.
pub type Due = (String, String, String);

/// The view of commands that are to be sent.
pub open spec fn due_views(s: Seq<Due>) -> Seq<(Seq<char>, Seq<char>, Seq<char>)> {
    s.map_values(|d: Due| (d.0@, d.1@, d.2@))
}

/// The commands of an instance that are due.
pub open spec fn due_entries(
    entries: Seq<ScheduleEntry>,
    id: Seq<char>,
    runs: Seq<RunModel>,
    now: int,
) -> Seq<(Seq<char>, Seq<char>, Seq<char>)>
    decreases entries.len(),
{
    if entries.len() == 0 {
        Seq::empty()
    } else {
        let front = due_entries(entries.drop_last(), id, runs, now);
        let e = entries.last();
        if is_due(e, last_at(runs, id, e.name@), now) {
            front.push((id, e.name@, e.command@))
        } else {
            front
        }
    }
}

/// The commands that are due: only instances that run get any.
pub open spec fn due_in(reg: Seq<InstanceModel>, runs: Seq<RunModel>, now: int) -> Seq<
    (Seq<char>, Seq<char>, Seq<char>),
>
    decreases reg.len(),
{
    if reg.len() == 0 {
        Seq::empty()
    } else {
        let front = due_in(reg.drop_last(), runs, now);
        let m = reg.last();
        if m.status == InstanceStatus::Running {
            front + due_entries(m.config.schedules@, m.id, runs, now)
        } else {
            front
        }
    }
}

/// The records once commands were sent.
pub open spec fn all_recorded(
    runs: Seq<RunModel>,
    sent: Seq<(Seq<char>, Seq<char>, Seq<char>)>,
    now: i64,
) -> Seq<RunModel>
    decreases sent.len(),
{
    if sent.len() == 0 {
        runs
    } else {
        recorded(all_recorded(runs, sent.drop_last(), now), sent.last().0, sent.last().1, now)
    }
}

fn entries_due(entries: &Vec<ScheduleEntry>, id: &str, runs: &Vec<LastRun>, now: i64) -> (r: Vec<
    Due,
>)
    ensures
        due_views(r@) == due_entries(entries@, id@, run_views(runs@), now as int),
{
    let mut r: Vec<Due> = Vec::new();
    let ghost rs = run_views(runs@);
    assert(due_views(r@) =~= due_entries(entries@.take(0), id@, rs, now as int));
    for i in 0..entries.len()
        invariant
            rs == run_views(runs@),
            due_views(r@) == due_entries(entries@.take(i as int), id@, rs, now as int),
    {
        assert(entries@.take(i + 1).drop_last() =~= entries@.take(i as int));
        assert(entries@.take(i + 1).last() == entries@[i as int]);
        let ghost before = r@;
        let e = &entries[i];
        let last: i64 = match find_run(runs, id, e.name.as_str()) {
            Some(k) => {
                assert(rs[k as int] == runs@[k as int]@);
                runs[k].at
            },
            None => 0,
        };
        let interval: i128 = if e.interval_secs <= i64::MAX as u64 {
            e.interval_secs as i128
        } else {
            e.interval_secs as i128 - 0x10000000000000000
        };
        if e.enabled && now as i128 - last as i128 >= interval {
            r.push((id.to_string(), e.name.clone(), e.command.clone()));
            assert(due_views(r@) =~= due_views(before).push((id@, e.name@, e.command@)));
        }
    }
    assert(entries@.take(entries@.len() as int) =~= entries@);
    r
}

fn append_due(r: Vec<Due>, more: Vec<Due>) -> (out: Vec<Due>)
    ensures
        due_views(out@) == due_views(r@) + due_views(more@),
{
    let mut out = r;
    let mut more = more;
    let ghost a = r@;
    let ghost b = more@;
    out.append(&mut more);
    assert(due_views(out@) =~= due_views(a) + due_views(b));
    out
}

/// The commands that are due.
pub fn due_commands(reg: &Registry, runs: &Vec<LastRun>, now: i64) -> (r: Vec<Due>)
    ensures
        due_views(r@) == due_in(reg@, run_views(runs@), now as int),
{
    let mut r: Vec<Due> = Vec::new();
    let ghost rs = run_views(runs@);
    assert(due_views(r@) =~= due_in(reg@.take(0), rs, now as int));
    for i in 0..reg.list.len()
        invariant
            rs == run_views(runs@),
            due_views(r@) == due_in(reg@.take(i as int), rs, now as int),
    {
        assert(reg@.take(i + 1).drop_last() =~= reg@.take(i as int));
        assert(reg@.take(i + 1).last() == reg.list@[i as int]@);
        let inst = &reg.list[i];
        if inst.status == InstanceStatus::Running {
            let more = entries_due(&inst.config.schedules, inst.id.as_str(), runs, now);
            r = append_due(r, more);
        }
    }
    assert(reg@.take(reg@.len() as int) =~= reg@);
    r
}

fn record_run(runs: Vec<LastRun>, id: &str, name: &str, now: i64) -> (r: Vec<LastRun>)
    ensures
        run_views(r@) == recorded(run_views(runs@), id@, name@, now),
{
    let ghost before = runs@;
    let mut runs = runs;
    let entry = LastRun { id: id.to_string(), name: name.to_string(), at: now };
    match find_run(&runs, id, name) {
        Some(i) => {
            runs.set(i, entry);
        },
        None => {
            runs.push(entry);
        },
    }
    assert(run_views(runs@) =~= recorded(run_views(before), id@, name@, now));
    runs
}

/// One round of the scheduler: the commands that are due, and the records once they were sent.
pub fn run_scheduler(reg: &Registry, runs: Vec<LastRun>, now: i64) -> (r: (Vec<Due>, Vec<LastRun>))
    ensures
        due_views(r.0@) == due_in(reg@, run_views(runs@), now as int),
        run_views(r.1@) == all_recorded(run_views(runs@), due_views(r.0@), now),
{
    let due = due_commands(reg, &runs, now);
    let ghost sent = due_views(due@);
    let ghost start = run_views(runs@);
    let mut runs = runs;
    assert(all_recorded(start, sent.take(0), now) == start);
    for i in 0..due.len()
        invariant
            sent == due_views(due@),
            run_views(runs@) == all_recorded(start, sent.take(i as int), now),
    {
        assert(sent.take(i + 1).drop_last() =~= sent.take(i as int));
        assert(sent.take(i + 1).last() == (due@[i as int].0@, due@[i as int].1@, due@[i as int].2@));
        runs = record_run(runs, due[i].0.as_str(), due[i].1.as_str(), now);
    }
    assert(sent.take(due@.len() as int) =~= sent);
    (due, runs)
}

/// A command that was sent is not due again before its interval is over.
pub proof fn law_sent_commands_wait(
    runs: Seq<RunModel>,
    id: Seq<char>,
    e: ScheduleEntry,
    now: i64,
    later: int,
)
    requires
        later - now < signed_secs(e.interval_secs),
    ensures
        last_at(recorded(runs, id, e.name@, now), id, e.name@) == now,
        !is_due(e, last_at(recorded(runs, id, e.name@, now), id, e.name@), later),
{
    let after = recorded(runs, id, e.name@, now);
    lemma_run_slot(runs, id, e.name@);
    lemma_run_slot(after, id, e.name@);
    match run_slot(runs, id, e.name@) {
        Some(i) => {
            assert(after[i].id == id && after[i].name == e.name@);
            let k = run_slot(after, id, e.name@).unwrap();
            if k < i {
                assert(after[k] == runs[k]);
            }
        },
        None => {
            let last = after[runs.len() as int];
            assert(last.id == id && last.name == e.name@);
            let k = run_slot(after, id, e.name@).unwrap();
            if k < runs.len() {
                assert(after[k] == runs[k]);
            }
        },
    }
}

/// Sending one command leaves the records of every other one as they were.
pub proof fn law_records_are_apart(
    runs: Seq<RunModel>,
    id: Seq<char>,
    name: Seq<char>,
    now: i64,
    other_id: Seq<char>,
    other_name: Seq<char>,
)
    requires
        id != other_id || name != other_name,
    ensures
        last_at(recorded(runs, id, name, now), other_id, other_name) == last_at(
            runs,
            other_id,
            other_name,
        ),
{
    let after = recorded(runs, id, name, now);
    lemma_run_slot(runs, id, name);
    lemma_run_slot(runs, other_id, other_name);
    lemma_run_slot(after, other_id, other_name);
    if let Some(i) = run_slot(runs, other_id, other_name) {
        assert(after[i] == runs[i]);
        let k = run_slot(after, other_id, other_name).unwrap();
        if k < i {
            assert(after[k].id == other_id && after[k].name == other_name);
            assert(after[k] == runs[k]);
        }
    } else if let Some(k) = run_slot(after, other_id, other_name) {
        assert(after[k].id == other_id && after[k].name == other_name);
        assert(after[k] == runs[k]);
    }
}

} // verus!
