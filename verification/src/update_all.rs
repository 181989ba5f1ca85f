//! All newer mods of a server installed one after the other.

use crate::mod_mgr;
use crate::mod_mgr::ModLock;
use crate::mod_mgr::ModUpdate;
use crate::modrinth;
use crate::modrinth::Entry;
use crate::modrinth::EntryModel;
use crate::modrinth::UpdateAction;
use crate::modrinth::UpdateActionModel;
use crate::modrinth::UpdateModel;
use crate::modrinth::UpdateReply;
use crate::modrinth::UpdateReplyModel;
use crate::modrinth::UpdateRun;
use crate::modrinth::UpdateRunModel;
use crate::modrinth::UpdateStage;
use vstd::prelude::*;

verus! {

/// Several updates under way: one is being made, others are still to come.
#[derive(Debug)]
pub struct UpdateAll {
    pub run: UpdateRun,
    pub rest: Vec<ModUpdate>,
}

/// The view of several updates under way.
#[verifier::ext_equal]
pub struct UpdateAllModel {
    pub run: UpdateRunModel,
    pub rest: Seq<UpdateModel>,
}

impl View for UpdateAll {
    type V = UpdateAllModel;

    open spec fn view(&self) -> UpdateAllModel {
        UpdateAllModel { run: self.run@, rest: modrinth::update_views(self.rest@) }
    }
}

/// What is done next.
#[derive(Debug)]
pub enum BatchStep {
    /// The next thing is done for the update that is being made.
    Go { all: UpdateAll, action: UpdateAction },
    /// Every update was made, and the list is written as it is now.
    WriteList { lock: Vec<Entry> },
    /// An update failed: no other one is made, and the list is not written.
    Fail { error: String },
}

/// The view of what is done next.
pub enum BatchModel {
    Go { all: UpdateAllModel, action: UpdateActionModel },
    WriteList { lock: Seq<EntryModel> },
    Fail { error: Seq<char> },
}

impl View for BatchStep {
    type V = BatchModel;

    open spec fn view(&self) -> BatchModel {
        match *self {
            BatchStep::Go { all, action } => BatchModel::Go { all: all@, action: action@ },
            BatchStep::WriteList { lock } => BatchModel::WriteList {
                lock: modrinth::entry_views(lock@),
            },
            BatchStep::Fail { error } => BatchModel::Fail { error: error@ },
        }
    }
}

/// What is said of an update that failed.
pub open spec fn failed_update(u: UpdateModel, error: Seq<char>) -> Seq<char> {
    u.name + ": "@ + error
}

/// What is done next where no update is being made: the first of those to come is begun, and where
/// none is left the list is written.
pub open spec fn next_update(lock: Seq<EntryModel>, updates: Seq<UpdateModel>) -> BatchModel {
    if updates.len() == 0 {
        BatchModel::WriteList { lock }
    } else {
        let u = updates[0];
        match modrinth::entry_slot(lock, u.project) {
            Some(i) => BatchModel::Go {
                all: UpdateAllModel {
                    run: UpdateRunModel {
                        lock,
                        update: u,
                        old_filename: lock[i].filename,
                        stage: UpdateStage::Download,
                    },
                    rest: updates.skip(1),
                },
                action: UpdateActionModel::Download { url: u.url },
            },
            None => BatchModel::Fail {
                error: failed_update(u, modrinth::not_installed_message("Mod"@, u.project)),
            },
        }
    }
}

/// What is done next once a reply came: the update goes on, the next one follows it, or all is over
/// because it failed.
pub open spec fn batch_advanced(m: UpdateAllModel, reply: UpdateReplyModel) -> BatchModel {
    let (run, action) = modrinth::update_advanced(m.run, reply);
    match action {
        UpdateActionModel::Finish => next_update(run.lock, m.rest),
        UpdateActionModel::Fail { error } => BatchModel::Fail {
            error: failed_update(m.run.update, error),
        },
        _ => BatchModel::Go { all: UpdateAllModel { run, rest: m.rest }, action },
    }
}

fn failure(name: &str, error: &str) -> (r: String)
    ensures
        r@ == name@ + ": "@ + error@,
{
    let mut m = name.to_string();
    m.append(": ");
    m.append(error);
    m
}

fn go_on(lock: Vec<Entry>, updates: Vec<ModUpdate>) -> (r: BatchStep)
    ensures
        r@ == next_update(modrinth::entry_views(lock@), modrinth::update_views(updates@)),
{
    if updates.len() == 0 {
        return BatchStep::WriteList { lock };
    }
    let ghost all = modrinth::update_views(updates@);
    let mut rest = updates;
    let update = rest.remove(0);
    assert(all[0] == update@);
    assert(modrinth::update_views(rest@) =~= all.skip(1));
    let name = update.name.clone();
    match mod_mgr::apply_update(ModLock { mods: lock }, update) {
        Ok((run, action)) => BatchStep::Go { all: UpdateAll { run, rest }, action },
        Err(e) => BatchStep::Fail { error: failure(name.as_str(), e.as_str()) },
    }
}

/// Begins to install several newer mods, in the order given.
pub fn begin(lock: ModLock, updates: Vec<ModUpdate>) -> (r: BatchStep)
    ensures
        r@ == next_update(
            modrinth::entry_views(lock.mods@),
            modrinth::update_views(updates@),
        ),
{
    go_on(lock.mods, updates)
}

impl UpdateAll {
    /// What is done next once a reply came.
    pub fn step(self, reply: UpdateReply) -> (r: BatchStep)
        requires
            modrinth::update_replies_to(reply@, self@.run.stage),
        ensures
            r@ == batch_advanced(self@, reply@),
    {
        let UpdateAll { run, rest } = self;
        let (run, action) = run.step(reply);
        match action {
            UpdateAction::Finish => go_on(run.lock, rest),
            UpdateAction::Fail { error } => BatchStep::Fail {
                error: failure(run.update.name.as_str(), error.as_str()),
            },
            _ => BatchStep::Go { all: UpdateAll { run, rest }, action },
        }
    }
}

/// A list once several updates were made.
pub open spec fn lock_after_all(lock: Seq<EntryModel>, updates: Seq<UpdateModel>) -> Seq<EntryModel>
    decreases updates.len(),
{
    if updates.len() == 0 {
        lock
    } else {
        modrinth::lock_after_update(lock_after_all(lock, updates.drop_last()), updates.last())
    }
}

/// Whether a batch is at its update number `k`: those before it are made, those behind it are to
/// come.
pub open spec fn at_update(
    m: UpdateAllModel,
    lock: Seq<EntryModel>,
    updates: Seq<UpdateModel>,
    k: int,
) -> bool {
    &&& 0 <= k < updates.len()
    &&& m.run.update == updates[k]
    &&& m.run.lock == lock_after_all(lock, updates.take(k))
    &&& m.rest == updates.skip(k + 1)
}

/// A batch begins with its first update, or writes the list as it is where there is none.
pub proof fn law_batch_begins_with_the_first(lock: Seq<EntryModel>, updates: Seq<UpdateModel>)
    ensures
        match next_update(lock, updates) {
            BatchModel::Go { all, .. } => at_update(all, lock, updates, 0),
            BatchModel::WriteList { lock: l } => updates.len() == 0 && l == lock,
            BatchModel::Fail { .. } => updates.len() > 0,
        },
{
    if updates.len() > 0 {
        assert(updates.take(0) =~= Seq::<UpdateModel>::empty());
    }
}

/// A batch makes its updates in order: whatever comes back, it stays at the update it is at, goes on
/// to the next one, or is over. The list is written only once the last one is made, and then it
/// tells of all of them; after a failure it is not written.
pub proof fn law_batch_goes_in_order(
    m: UpdateAllModel,
    reply: UpdateReplyModel,
    lock: Seq<EntryModel>,
    updates: Seq<UpdateModel>,
    k: int,
)
    requires
        at_update(m, lock, updates, k),
        modrinth::update_replies_to(reply, m.run.stage),
    ensures
        match batch_advanced(m, reply) {
            BatchModel::Go { all, .. } => at_update(all, lock, updates, k) || at_update(
                all,
                lock,
                updates,
                k + 1,
            ),
            BatchModel::WriteList { lock: l } => k == updates.len() - 1 && l == lock_after_all(
                lock,
                updates,
            ),
            BatchModel::Fail { .. } => true,
        },
        reply is Failed || reply is Unreadable ==> (batch_advanced(
            m,
            reply,
        ) matches BatchModel::Fail { error } && error == failed_update(
            updates[k],
            modrinth::update_failure(m.run, reply),
        )),
{
    let (run, action) = modrinth::update_advanced(m.run, reply);
    assert(updates.take(k + 1).drop_last() =~= updates.take(k));
    assert(updates.take(k + 1).last() == updates[k]);
    if action is Finish {
        assert(run.lock == lock_after_all(lock, updates.take(k + 1)));
        if k + 1 < updates.len() {
            assert(m.rest[0] == updates[k + 1]);
            assert(m.rest.skip(1) =~= updates.skip(k + 2));
        } else {
            assert(updates.take(k + 1) =~= updates);
        }
    }
}

} // verus!
