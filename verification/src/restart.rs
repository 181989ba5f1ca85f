//! Restarts by schedule, with a countdown for the players.

use crate::state;
use crate::state::InstanceModel;
use crate::state::InstanceStatus;
use crate::state::Registry;
use crate::text;
use vstd::prelude::*;

verus! {

/// An instance that is restarted by schedule.
#[derive(Debug)]
pub struct ScheduledRestart {
    pub id: String,
    pub schedule: String,
    pub warning_secs: u64,
}

/// The view of an instance that is restarted by schedule.
pub struct ScheduledModel {
    pub id: Seq<char>,
    pub schedule: Seq<char>,
    pub warning_secs: u64,
}

impl View for ScheduledRestart {
    type V = ScheduledModel;

    open spec fn view(&self) -> ScheduledModel {
        ScheduledModel {
            id: self.id@,
            schedule: self.schedule@,
            warning_secs: self.warning_secs,
        }
    }
}

/// The views of instances that are restarted by schedule.
pub open spec fn scheduled_views(s: Seq<ScheduledRestart>) -> Seq<ScheduledModel> {
    s.map_values(|r: ScheduledRestart| r@)
}

/// The scheduled restart of an instance.
pub open spec fn restart_of(m: InstanceModel) -> Option<ScheduledModel> {
    match m.config.restart {
        Some(c) => match c.schedule {
            Some(s) => Some(
                ScheduledModel { id: m.id, schedule: s@, warning_secs: c.warning_secs },
            ),
            None => None,
        },
        None => None,
    }
}

/// The instances that are restarted by schedule.
pub open spec fn restarts_in(reg: Seq<InstanceModel>) -> Seq<ScheduledModel>
    decreases reg.len(),
{
    if reg.len() == 0 {
        Seq::empty()
    } else {
        let front = restarts_in(reg.drop_last());
        match restart_of(reg.last()) {
            Some(s) => front.push(s),
            None => front,
        }
    }
}

/// The instances that are restarted by schedule.
pub fn start_restart_schedulers(reg: &Registry) -> (r: Vec<ScheduledRestart>)
    ensures
        scheduled_views(r@) == restarts_in(reg@),
{
    let mut r: Vec<ScheduledRestart> = Vec::new();
    assert(scheduled_views(r@) =~= restarts_in(reg@.take(0)));
    for i in 0..reg.list.len()
        invariant
            scheduled_views(r@) == restarts_in(reg@.take(i as int)),
    {
        assert(reg@.take(i + 1).drop_last() =~= reg@.take(i as int));
        assert(reg@.take(i + 1).last() == reg.list@[i as int]@);
        let ghost before = r@;
        let inst = &reg.list[i];
        if let Some(c) = &inst.config.restart {
            if let Some(s) = &c.schedule {
                r.push(
                    ScheduledRestart {
                        id: inst.id.clone(),
                        schedule: s.clone(),
                        warning_secs: c.warning_secs,
                    },
                );
                assert(scheduled_views(r@) =~= scheduled_views(before).push(r@.last()@));
            }
        }
    }
    assert(reg@.take(reg@.len() as int) =~= reg@);
    r
}

// ---------------------------------------------------------------------------
// Before a restart
// ---------------------------------------------------------------------------

/// How long to sleep before the countdown, in nanoseconds, and how long the countdown is, in
/// seconds: the countdown begins so many seconds before the restart as players are warned, or at
/// once where less time is left.
pub open spec fn countdown_window(until_nanos: int, warning_secs: int) -> (int, int) {
    let warning = warning_secs * 1000000000;
    if until_nanos <= warning {
        (0, until_nanos / 1000000000)
    } else {
        (until_nanos - warning, warning_secs)
    }
}

/// How long to sleep before the countdown, in nanoseconds, and how long the countdown is, in
/// seconds.
pub fn plan_countdown(until_nanos: u128, warning_secs: u64) -> (r: (u128, u64))
    ensures
        (r.0 as int, r.1 as int) == countdown_window(until_nanos as int, warning_secs as int),
{
    let warning: u128 = warning_secs as u128 * 1000000000;
    if until_nanos <= warning {
        let secs: u128 = until_nanos / 1000000000;
        assert(secs <= warning_secs) by {
            assert(until_nanos <= warning_secs as int * 1000000000);
        }
        (0, secs as u64)
    } else {
        (until_nanos - warning, warning_secs)
    }
}

/// Whether the countdown is held: only while the server is up.
pub fn counts_down(reg: &Registry, id: &str) -> (r: bool)
    ensures
        r == (state::slot(reg@, id@) matches Some(i) && reg@[i].status == InstanceStatus::Running),
{
    match reg.find(id) {
        Some(i) => reg.list[i].status == InstanceStatus::Running,
        None => false,
    }
}

/// When players are warned: so many seconds before the restart, and how that is called.
pub open spec fn milestones() -> Seq<(nat, Seq<char>)> {
    seq![(300, "5 minutes"@), (60, "1 minute"@), (30, "30 seconds"@), (10, "10 seconds"@)]
}

/// `say Server restarting in <label>.`
pub open spec fn warning_line(label: Seq<char>) -> Seq<char> {
    "say Server restarting in "@ + label + "."@
}

/// What is said last.
pub open spec fn last_line() -> Seq<char> {
    "say Server is restarting now. See you soon!"@
}

/// The warnings from a milestone on, each with the seconds to sleep before it, where so many of the
/// `total` seconds have gone by: those milestones count that lie within the countdown, the one at
/// which it begins among them.
pub open spec fn warnings_from(total: nat, k: nat, slept: nat) -> Seq<(nat, Seq<char>)>
    decreases milestones().len() - k,
{
    if k >= milestones().len() {
        Seq::empty()
    } else {
        let (before, label) = milestones()[k as int];
        if total < before || total - before < slept {
            warnings_from(total, k + 1, slept)
        } else {
            seq![((total - before - slept) as nat, warning_line(label))] + warnings_from(
                total,
                k + 1,
                (total - before) as nat,
            )
        }
    }
}

/// How many seconds the steps of a countdown sleep.
pub open spec fn slept_in(steps: Seq<(nat, Seq<char>)>) -> nat
    decreases steps.len(),
{
    if steps.len() == 0 {
        0
    } else {
        slept_in(steps.drop_last()) + steps.last().0
    }
}

/// A countdown of so many seconds: the warnings, and at the end what is said last.
pub open spec fn countdown_of(total: nat) -> Seq<(nat, Seq<char>)> {
    let warnings = warnings_from(total, 0, 0);
    warnings.push(((total - slept_in(warnings)) as nat, last_line()))
}

/// The view of the steps of a countdown.
pub open spec fn step_views(s: Seq<(u64, String)>) -> Seq<(nat, Seq<char>)> {
    s.map_values(|p: (u64, String)| (p.0 as nat, p.1@))
}

fn milestone(k: usize) -> (r: (u64, String))
    requires
        k < 4,
    ensures
        (r.0 as nat, r.1@) == milestones()[k as int],
{
    if k == 0 {
        (300, "5 minutes".to_string())
    } else if k == 1 {
        (60, "1 minute".to_string())
    } else if k == 2 {
        (30, "30 seconds".to_string())
    } else {
        (10, "10 seconds".to_string())
    }
}

/// A countdown of so many seconds: how long to sleep, and what the console is then sent, step by
/// step.
pub fn send_countdown(total: u64) -> (r: Vec<(u64, String)>)
    ensures
        step_views(r@) == countdown_of(total as nat),
{
    let mut r: Vec<(u64, String)> = Vec::new();
    let mut slept: u64 = 0;
    let mut k: usize = 0;
    let ghost all = warnings_from(total as nat, 0, 0);
    assert(step_views(r@) + all =~= all);
    assert(slept_in(step_views(r@)) == 0);
    while k < 4
        invariant
            k <= 4,
            slept <= total,
            all == step_views(r@) + warnings_from(total as nat, k as nat, slept as nat),
            slept_in(step_views(r@)) == slept,
        decreases 4 - k,
    {
        let (before, label) = milestone(k);
        if total >= before && total - before >= slept {
            let ghost steps = step_views(r@);
            let mut line = "say Server restarting in ".to_string();
            line.append(label.as_str());
            line.append(".");
            let pause: u64 = total - before - slept;
            let ghost step = (pause as nat, line@);
            r.push((pause, line));
            slept = total - before;
            proof {
                assert(step_views(r@) =~= steps.push(step));
                assert(step_views(r@).drop_last() =~= steps);
                assert(all =~= step_views(r@) + warnings_from(
                    total as nat,
                    (k + 1) as nat,
                    slept as nat,
                ));
            }
        }
        k += 1;
    }
    assert(all =~= step_views(r@));
    r.push((total - slept, "say Server is restarting now. See you soon!".to_string()));
    assert(step_views(r@) =~= countdown_of(total as nat));
    r
}

/// How long a scheduled restart waits for the server to stop, in milliseconds.
pub const RESTART_LIMIT_MS: u64 = 90000;

proof fn lemma_warnings(total: nat, k: nat, slept: nat)
    requires
        slept <= total,
    ensures
        slept + slept_in(warnings_from(total, k, slept)) <= total,
    decreases milestones().len() - k,
{
    if k < milestones().len() {
        let (before, label) = milestones()[k as int];
        if total < before || total - before < slept {
            lemma_warnings(total, k + 1, slept);
        } else {
            let rest = warnings_from(total, k + 1, (total - before) as nat);
            lemma_warnings(total, k + 1, (total - before) as nat);
            lemma_slept_front(((total - before - slept) as nat, warning_line(label)), rest);
        }
    }
}

proof fn lemma_slept_front(first: (nat, Seq<char>), rest: Seq<(nat, Seq<char>)>)
    ensures
        slept_in(seq![first] + rest) == first.0 + slept_in(rest),
    decreases rest.len(),
{
    let all = seq![first] + rest;
    if rest.len() == 0 {
        assert(all =~= seq![first]);
        assert(all.drop_last() =~= Seq::<(nat, Seq<char>)>::empty());
        assert(slept_in(all.drop_last()) == 0);
    } else {
        lemma_slept_front(first, rest.drop_last());
        assert(all.drop_last() =~= seq![first] + rest.drop_last());
    }
}

/// A countdown takes just as long as it is said to.
pub proof fn law_countdown_lasts(total: nat)
    ensures
        slept_in(countdown_of(total)) == total,
{
    let warnings = warnings_from(total, 0, 0);
    lemma_warnings(total, 0, 0);
    assert(countdown_of(total).drop_last() =~= warnings);
}

/// Every warning comes as long before the restart as it says.
pub proof fn law_warnings_tell_the_truth(total: nat, k: nat, slept: nat, i: int)
    requires
        slept <= total,
        0 <= i < warnings_from(total, k, slept).len(),
    ensures
        exists|j: int|
            k <= j < milestones().len() && warnings_from(total, k, slept)[i].1 == warning_line(
                (#[trigger] milestones()[j]).1,
            ) && slept + slept_in(warnings_from(total, k, slept).take(i + 1)) + milestones()[j].0
                == total,
    decreases milestones().len() - k,
{
    let all = warnings_from(total, k, slept);
    let (before, label) = milestones()[k as int];
    if total < before || total - before < slept {
        law_warnings_tell_the_truth(total, k + 1, slept, i);
    } else {
        let first = ((total - before - slept) as nat, warning_line(label));
        let at = (total - before) as nat;
        let rest = warnings_from(total, k + 1, at);
        if i == 0 {
            assert(all.take(1) =~= seq![first] + Seq::<(nat, Seq<char>)>::empty());
            lemma_slept_front(first, Seq::<(nat, Seq<char>)>::empty());
            assert(milestones()[k as int].1 == label);
        } else {
            law_warnings_tell_the_truth(total, k + 1, at, i - 1);
            assert(all.take(i + 1) =~= seq![first] + rest.take(i));
            lemma_slept_front(first, rest.take(i));
        }
    }
}

proof fn lemma_milestone_told(total: nat, k: nat, slept: nat, j: int)
    requires
        k <= j < milestones().len(),
        milestones()[j].0 <= total,
        slept == 0 || slept + milestones()[k as int].0 <= total,
    ensures
        exists|i: int|
            0 <= i < warnings_from(total, k, slept).len() && (#[trigger] warnings_from(
                total,
                k,
                slept,
            )[i]).1 == warning_line(milestones()[j].1) && slept + slept_in(
                warnings_from(total, k, slept).take(i + 1),
            ) + milestones()[j].0 == total,
    decreases milestones().len() - k,
{
    let all = warnings_from(total, k, slept);
    let (before, label) = milestones()[k as int];
    if total < before {
        lemma_milestone_told(total, k + 1, slept, j);
    } else {
        let first = ((total - before - slept) as nat, warning_line(label));
        let at = (total - before) as nat;
        let rest = warnings_from(total, k + 1, at);
        assert(all == seq![first] + rest);
        if j == k {
            assert(all.take(1) =~= seq![first] + Seq::<(nat, Seq<char>)>::empty());
            lemma_slept_front(first, Seq::<(nat, Seq<char>)>::empty());
            assert(slept_in(Seq::<(nat, Seq<char>)>::empty()) == 0);
            assert(all[0] == first);
        } else {
            lemma_milestone_told(total, k + 1, at, j);
            let i = choose|i: int|
                0 <= i < rest.len() && (#[trigger] rest[i]).1 == warning_line(milestones()[j].1)
                    && at + slept_in(rest.take(i + 1)) + milestones()[j].0 == total;
            assert(all.take(i + 2) =~= seq![first] + rest.take(i + 1));
            lemma_slept_front(first, rest.take(i + 1));
            assert(all[i + 1] == rest[i]);
        }
    }
}

/// Every milestone that a countdown reaches is told of, and at its time.
pub proof fn law_each_milestone_is_told(total: nat, j: int)
    requires
        0 <= j < milestones().len(),
        milestones()[j].0 <= total,
    ensures
        exists|i: int|
            0 <= i < countdown_of(total).len() && (#[trigger] countdown_of(total)[i]).1
                == warning_line(milestones()[j].1) && slept_in(countdown_of(total).take(i + 1))
                + milestones()[j].0 == total,
{
    let warnings = warnings_from(total, 0, 0);
    lemma_milestone_told(total, 0, 0, j);
    let i = choose|i: int|
        0 <= i < warnings.len() && (#[trigger] warnings[i]).1 == warning_line(milestones()[j].1)
            && slept_in(warnings.take(i + 1)) + milestones()[j].0 == total;
    assert(countdown_of(total).take(i + 1) =~= warnings.take(i + 1));
    assert(countdown_of(total)[i] == warnings[i]);
}

/// The sleep before a countdown and the countdown together end at the restart, but for the part of
/// a second where less time is left than players are warned.
pub proof fn law_countdown_ends_at_the_restart(until_nanos: int, warning_secs: int)
    requires
        until_nanos >= 0,
        warning_secs >= 0,
    ensures
        ({
            let (sleep, secs) = countdown_window(until_nanos, warning_secs);
            &&& 0 <= sleep
            &&& 0 <= secs <= warning_secs
            &&& sleep + secs * 1000000000 <= until_nanos < sleep + (secs + 1) * 1000000000
        }),
{
}

} // verus!
