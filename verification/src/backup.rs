//! Backups: their names, their order, which are kept, and what may be restored.

use crate::config;
use crate::instance;
use crate::order;
use crate::paths;
use crate::properties;
use crate::state;
use crate::state::EventModel;
use crate::state::InstanceModel;
use crate::state::InstanceStatus;
use crate::state::Registry;
use crate::state::WsEvent;
use crate::text;
use crate::time;
use vstd::prelude::*;

verus! {

/// A backup.
#[derive(Debug)]
pub struct BackupInfo {
    pub filename: String,
    pub size_bytes: u64,
    pub created_at: i64,
}

/// The view of a backup.
pub struct BackupModel {
    pub filename: Seq<char>,
    pub size_bytes: u64,
    pub created_at: int,
}

impl View for BackupInfo {
    type V = BackupModel;

    open spec fn view(&self) -> BackupModel {
        BackupModel {
            filename: self.filename@,
            size_bytes: self.size_bytes,
            created_at: self.created_at as int,
        }
    }
}

/// The views of backups.
pub open spec fn backup_views(s: Seq<BackupInfo>) -> Seq<BackupModel> {
    s.map_values(|b: BackupInfo| b@)
}

/// The folder of the backups of an instance, in the folder of all data.
pub open spec fn backup_dir_of(data: Seq<char>, id: Seq<char>) -> Seq<char> {
    config::folder_of(data, "backups"@, id)
}

/// The folder of the backups of an instance.
pub fn backup_dir(instance_id: &str) -> (r: String)
    ensures
        exists|base: Seq<char>|
            r@ == backup_dir_of(#[trigger] config::data_dir_in(base), instance_id@),
{
    let data = config::data_dir();
    backup_dir_in(data.as_str(), instance_id)
}

/// The folder of the backups of an instance, in the folder of all data.
pub fn backup_dir_in(data: &str, instance_id: &str) -> (r: String)
    ensures
        r@ == backup_dir_of(data@, instance_id@),
{
    config::folder(data, "backups", instance_id)
}

// ---------------------------------------------------------------------------
// Names
// ---------------------------------------------------------------------------

/// The name of a backup with a date.
pub open spec fn name_for(date: Seq<char>) -> Seq<char> {
    date + ".tar.zst"@
}

/// The name of a backup that is made at a second.
pub fn backup_filename(secs: i64) -> (r: String)
    requires
        0 <= secs <= time::LAST_SECOND,
    ensures
        r@ == name_for(time::utc_text(secs as int, time::BACKUP_FORMAT@)),
        secs <= time::LAST_PLAIN_SECOND ==> {
            &&& created_in(r@) == Some(secs as int)
            &&& plain_name(r@)
            &&& paths::extension_of(r@) == Some("zst"@)
        },
{
    let date = time::backup_date(secs);
    let mut name = date.clone();
    name.append(".tar.zst");
    proof {
        lemma_date_in(date@);
        if secs <= time::LAST_PLAIN_SECOND {
            law_dated_names_are_listed_and_restored(date@);
        }
    }
    name
}

/// The date that stands in the name of a backup.
pub open spec fn date_in(filename: Seq<char>) -> Option<Seq<char>> {
    if text::ends(filename, ".tar.zst"@) {
        Some(filename.take(filename.len() - ".tar.zst"@.len()))
    } else {
        None
    }
}

proof fn lemma_date_in(date: Seq<char>)
    ensures
        date_in(name_for(date)) == Some(date),
{
    let name = name_for(date);
    let tail = ".tar.zst"@;
    assert(name.skip(name.len() - tail.len()) =~= tail);
    assert(name.take(name.len() - tail.len()) =~= date);
}

/// The second at which a backup was made, as its name tells.
pub open spec fn created_in(filename: Seq<char>) -> Option<int> {
    match date_in(filename) {
        Some(d) => time::date_told(
            time::utc_secs(d, time::BACKUP_FORMAT@),
            time::utc_secs(d, time::SHORT_BACKUP_FORMAT@),
        ),
        None => None,
    }
}

/// The second at which a backup was made, as its name tells.
pub fn parse_backup_timestamp(filename: &str) -> (r: Option<i64>)
    ensures
        time::opt_int(r) == created_in(filename@),
{
    match text::strip_suffix(filename, ".tar.zst") {
        Some(d) => time::read_backup_date(d.as_str()),
        None => None,
    }
}

/// A name tells the second at which its backup was made: what was written is read back.
pub proof fn law_backup_names_tell_their_time(date: Seq<char>, secs: int)
    ensures
        time::utc_secs(date, time::BACKUP_FORMAT@) == Some(secs) ==> created_in(name_for(date))
            == Some(secs),
{
    lemma_date_in(date);
}

// ---------------------------------------------------------------------------
// The list
// ---------------------------------------------------------------------------

/// The view of files and their sizes.
pub open spec fn file_views(s: Seq<(String, u64)>) -> Seq<(Seq<char>, u64)> {
    s.map_values(|f: (String, u64)| (f.0@, f.1))
}

/// A backup from the name and the size of its file. Where the name tells no time, it counts as made
/// at second zero.
pub open spec fn info_of(filename: Seq<char>, size_bytes: u64, told: Option<int>) -> BackupModel {
    BackupModel {
        filename,
        size_bytes,
        created_at: match told {
            Some(t) => t,
            None => 0,
        },
    }
}

/// The backups among the files of a folder.
pub open spec fn infos_of(files: Seq<(Seq<char>, u64)>) -> Seq<BackupModel>
    decreases files.len(),
{
    if files.len() == 0 {
        Seq::empty()
    } else {
        let front = infos_of(files.drop_last());
        let f = files.last();
        if paths::extension_of(f.0) == Some("zst"@) {
            front.push(info_of(f.0, f.1, created_in(f.0)))
        } else {
            front
        }
    }
}

/// The order of backups: newest first.
pub open spec fn newest_first() -> spec_fn(BackupModel, BackupModel) -> bool {
    |a: BackupModel, b: BackupModel| a.created_at >= b.created_at
}

/// Backups in their order: newest first, and those of one second as they came.
pub fn sort_backups(v: Vec<BackupInfo>) -> (r: Vec<BackupInfo>)
    ensures
        backup_views(r@) == order::arranged(backup_views(v@), newest_first()),
{
    let ghost leq = |a: BackupInfo, b: BackupInfo| a.created_at >= b.created_at;
    let ghost all = v@;
    let le = |a: &BackupInfo, b: &BackupInfo| -> (c: bool)
        ensures
            c == (a.created_at >= b.created_at),
        { a.created_at >= b.created_at };
    let r = order::arrange(v, le, Ghost(leq));
    proof {
        order::lemma_arranged_map(all, |b: BackupInfo| b@, leq, newest_first());
    }
    r
}

/// The backups among the files of a folder, newest first.
pub fn list_backups(files: &Vec<(String, u64)>) -> (r: Vec<BackupInfo>)
    ensures
        backup_views(r@) == order::arranged(infos_of(file_views(files@)), newest_first()),
{
    let ghost views = file_views(files@);
    let mut r: Vec<BackupInfo> = Vec::new();
    assert(backup_views(r@) =~= infos_of(views.take(0)));
    for i in 0..files.len()
        invariant
            views == file_views(files@),
            backup_views(r@) == infos_of(views.take(i as int)),
    {
        assert(views.take(i + 1).drop_last() =~= views.take(i as int));
        assert(views.take(i + 1).last() == (files@[i as int].0@, files@[i as int].1));
        let ghost before = r@;
        if paths::has_extension(files[i].0.as_str(), "zst") {
            let created_at: i64 = match parse_backup_timestamp(files[i].0.as_str()) {
                Some(t) => t,
                None => 0,
            };
            r.push(
                BackupInfo { filename: files[i].0.clone(), size_bytes: files[i].1, created_at },
            );
            assert(backup_views(r@) =~= backup_views(before).push(r@.last()@));
        }
    }
    assert(views.take(files@.len() as int) =~= views);
    sort_backups(r)
}

/// The names of the backups that go: all but so many of the newest.
pub open spec fn outdated(backups: Seq<BackupModel>, keep_count: nat) -> Seq<Seq<char>> {
    if backups.len() <= keep_count {
        Seq::empty()
    } else {
        backups.skip(keep_count as int).map_values(|b: BackupModel| b.filename)
    }
}

/// The names of the backups that go.
pub fn apply_retention(backups: &Vec<BackupInfo>, keep_count: usize) -> (r: Vec<String>)
    ensures
        text::views(r@) == outdated(backup_views(backups@), keep_count as nat),
{
    let mut r: Vec<String> = Vec::new();
    let n: usize = backups.len();
    if n <= keep_count {
        assert(text::views(r@) =~= Seq::<Seq<char>>::empty());
        return r;
    }
    let mut i: usize = keep_count;
    while i < n
        invariant
            keep_count <= i <= n,
            n == backups@.len(),
            r@.len() == i - keep_count,
            forall|j: int|
                0 <= j < r@.len() ==> (#[trigger] r@[j])@ == backups@[keep_count + j].filename@,
        decreases n - i,
    {
        r.push(backups[i].filename.clone());
        i += 1;
    }
    assert(text::views(r@) =~= outdated(backup_views(backups@), keep_count as nat));
    r
}

/// Of the backups of a folder so many stay as are to be kept, or all where there are fewer, and none
/// that stays is older than one that goes.
pub proof fn law_newest_backups_are_kept(files: Seq<(Seq<char>, u64)>, keep_count: nat)
    ensures
        ({
            let all = order::arranged(infos_of(files), newest_first());
            let gone = outdated(all, keep_count);
            &&& all.to_multiset() == infos_of(files).to_multiset()
            &&& all.len() - gone.len() == (if all.len() <= keep_count {
                all.len()
            } else {
                keep_count
            })
            &&& forall|i: int, j: int|
                0 <= i < keep_count && keep_count <= j < all.len() ==> (
                #[trigger] all[i]).created_at >= (#[trigger] all[j]).created_at
            &&& forall|j: int|
                0 <= j < gone.len() ==> #[trigger] gone[j] == all[keep_count + j].filename
        }),
{
    let infos = infos_of(files);
    let leq = newest_first();
    assert(order::total_preorder(leq));
    order::lemma_arranged(infos, leq);
    let all = order::arranged(infos, leq);
    assert forall|i: int, j: int| 0 <= i < keep_count && keep_count <= j < all.len() implies (
    #[trigger] all[i]).created_at >= (#[trigger] all[j]).created_at by {
        assert(leq(all[i], all[j]));
    }
}

// ---------------------------------------------------------------------------
// Making a backup
// ---------------------------------------------------------------------------

/// What is backed up, and how many backups are kept.
#[derive(Debug)]
pub struct BackupPlan {
    pub server_path: String,
    pub world_only: bool,
    pub keep_count: usize,
}

/// What is backed up of an instance, and how many backups are kept: all of the server, and ten,
/// where nothing is set.
pub fn plan_backup(reg: &Registry, id: &str) -> (r: Result<BackupPlan, String>)
    ensures
        match r {
            Ok(p) => {
                &&& state::slot(reg@, id@) matches Some(i)
                &&& p.server_path@ == reg@[i].config.server.path@
                &&& p.world_only == (match reg@[i].config.backup {
                    Some(b) => b.world_only,
                    None => false,
                })
                &&& p.keep_count == (match reg@[i].config.backup {
                    Some(b) => b.keep_count,
                    None => 10,
                })
            },
            Err(e) => !state::known(reg@, id@) && e@ == instance::instance_message(
                id@,
                "not found"@,
            ),
        },
{
    match reg.get(id) {
        Some(inst) => {
            let (world_only, keep_count): (bool, usize) = match &inst.config.backup {
                Some(b) => (b.world_only, b.keep_count),
                None => (false, 10),
            };
            Ok(
                BackupPlan {
                    server_path: inst.config.server.path.clone(),
                    world_only,
                    keep_count,
                },
            )
        },
        None => Err(instance::message(id, "not found")),
    }
}

/// Whether an entry of the folder of a server belongs to its worlds.
pub fn belongs_to_world(name: &str, is_dir: bool) -> (r: bool)
    ensures
        r == (is_dir && text::begins(name@, "world"@)),
{
    is_dir && text::starts_with(name, "world")
}

/// A backup that was made, and what is told of it. Where the name tells no time, it counts as made
/// now.
pub fn do_create_backup(id: &str, filename: &str, size_bytes: u64, now_secs: i64) -> (r: (
    BackupInfo,
    WsEvent,
))
    ensures
        r.0@ == (BackupModel {
            filename: filename@,
            size_bytes,
            created_at: match created_in(filename@) {
                Some(t) => t,
                None => now_secs as int,
            },
        }),
        r.1@ == (EventModel::BackupDone { id: id@, filename: filename@, size_bytes }),
{
    let created_at: i64 = match parse_backup_timestamp(filename) {
        Some(t) => t,
        None => now_secs,
    };
    (
        BackupInfo { filename: filename.to_string(), size_bytes, created_at },
        WsEvent::BackupDone {
            instance_id: id.to_string(),
            filename: filename.to_string(),
            size_bytes,
        },
    )
}

/// What is told of a backup that failed.
pub fn trigger_backup(id: &str, error: &str) -> (r: WsEvent)
    ensures
        r@ == (EventModel::BackupFailed { id: id@, error: error@ }),
{
    WsEvent::BackupFailed { instance_id: id.to_string(), error: error.to_string() }
}

// ---------------------------------------------------------------------------
// Restoring a backup
// ---------------------------------------------------------------------------

/// Whether a text can be the name of a backup: it leads nowhere else.
pub open spec fn plain_name(filename: Seq<char>) -> bool {
    !text::has(filename, "/"@) && !text::has(filename, "\\"@) && !text::has(filename, ".."@)
}

/// Whether a text can be the name of a backup.
pub fn is_plain_name(filename: &str) -> (r: bool)
    ensures
        r == plain_name(filename@),
{
    !text::contains(filename, "/") && !text::contains(filename, "\\") && !text::contains(
        filename,
        "..",
    )
}

/// The file of a backup.
pub fn backup_path(data: &str, id: &str, filename: &str) -> (r: Result<String, String>)
    ensures
        match r {
            Ok(p) => plain_name(filename@) && p@ == paths::joined_path(
                backup_dir_of(data@, id@),
                filename@,
            ),
            Err(e) => !plain_name(filename@) && e@ == "Invalid backup filename"@,
        },
{
    if !is_plain_name(filename) {
        return Err("Invalid backup filename".to_string());
    }
    let dir = backup_dir_in(data, id);
    Ok(paths::join(dir.as_str(), filename))
}

/// What is said where the file of a backup is missing.
pub open spec fn missing_message(filename: Seq<char>) -> Seq<char> {
    "Backup '"@ + filename + "' not found"@
}

/// Why a backup cannot be restored, where `file_exists` tells whether its file is there: its name
/// leads elsewhere, there is no such instance, its server is not stopped, or the file is missing.
pub open spec fn restore_refusal(
    reg: Seq<InstanceModel>,
    id: Seq<char>,
    filename: Seq<char>,
    file_exists: bool,
) -> Option<Seq<char>> {
    if !plain_name(filename) {
        Some("Invalid backup filename"@)
    } else {
        match state::slot(reg, id) {
            Some(i) => if reg[i].status != InstanceStatus::Stopped && reg[i].status
                != InstanceStatus::Crashed {
                Some("Instance must be stopped before restoring a backup"@)
            } else if !file_exists {
                Some(missing_message(filename))
            } else {
                None
            },
            None => Some(instance::instance_message(id, "not found"@)),
        }
    }
}

/// The folder to which a backup is restored, and its file.
pub fn restore_backup(
    reg: &Registry,
    id: &str,
    filename: &str,
    data: &str,
    file_exists: bool,
) -> (r: Result<(String, String), String>)
    ensures
        match r {
            Ok((server_path, file)) => {
                &&& restore_refusal(reg@, id@, filename@, file_exists) is None
                &&& state::slot(reg@, id@) matches Some(i)
                &&& server_path@ == reg@[i].config.server.path@
                &&& file@ == paths::joined_path(backup_dir_of(data@, id@), filename@)
            },
            Err(e) => restore_refusal(reg@, id@, filename@, file_exists) == Some(e@),
        },
{
    let file = match backup_path(data, id, filename) {
        Ok(p) => p,
        Err(e) => return Err(e),
    };
    match reg.get(id) {
        Some(inst) => if inst.status != InstanceStatus::Stopped && inst.status
            != InstanceStatus::Crashed {
            Err("Instance must be stopped before restoring a backup".to_string())
        } else if !file_exists {
            Err(missing_backup(filename))
        } else {
            Ok((inst.config.server.path.clone(), file))
        },
        None => Err(instance::message(id, "not found")),
    }
}

/// What is said where the file of a backup is missing.
pub fn missing_backup(filename: &str) -> (r: String)
    ensures
        r@ == missing_message(filename@),
{
    let mut m = "Backup '".to_string();
    m.append(filename);
    m.append("' not found");
    m
}

/// The file of a backup with a plain name lies in the folder of the backups of its instance, also
/// once every `..` in the path is followed.
pub proof fn law_backup_files_stay_in_their_folder(data: Seq<char>, id: Seq<char>, filename: Seq<char>)
    requires
        plain_name(filename),
    ensures
        ({
            let dir = backup_dir_of(data, id);
            let path = paths::joined_path(dir, filename);
            paths::under(path, dir) && paths::leads_below(path, dir)
        }),
{
    let dir = backup_dir_of(data, id);
    reveal_strlit("/");
    reveal_strlit("..");
    reveal_strlit("backups");
    assert(!filename.contains('/')) by {
        if filename.contains('/') {
            let i = filename.index_of('/');
            assert(filename.subrange(i, i + 1) =~= "/"@);
            assert(text::occurs_at(filename, "/"@, i));
            text::lemma_present(filename, "/"@, 0, i);
        }
    }
    if filename == ".."@ {
        assert(filename.subrange(0, 2) =~= ".."@);
        assert(text::occurs_at(filename, ".."@, 0));
    }
    paths::law_plain_name_stays_inside(dir, filename);
}

/// A backup whose name is made of a date is among those that are listed, and its name is no reason
/// to refuse to restore it.
pub proof fn law_dated_names_are_listed_and_restored(date: Seq<char>)
    requires
        time::plain_date(date),
    ensures
        paths::extension_of(name_for(date)) == Some("zst"@),
        plain_name(name_for(date)),
{
    let name = name_for(date);
    reveal_strlit("/");
    reveal_strlit("\\");
    reveal_strlit("..");
    reveal_strlit(".");
    reveal_strlit(".tar.zst");
    reveal_strlit("zst");
    assert forall|i: int| 0 <= i < name.len() implies #[trigger] name[i] != '/' && name[i] != '\\'
        && (name[i] == '.' ==> i == date.len() || i == date.len() + 4) by {
        if i < date.len() {
            assert(name[i] == date[i]);
        }
    }
    assert forall|k: int| 0 <= k implies !#[trigger] text::occurs_at(name, "/"@, k) by {
        if text::occurs_at(name, "/"@, k) {
            assert(name.subrange(k, k + 1)[0] == name[k]);
        }
    }
    text::lemma_absent(name, "/"@, 0);
    assert forall|k: int| 0 <= k implies !#[trigger] text::occurs_at(name, "\\"@, k) by {
        if text::occurs_at(name, "\\"@, k) {
            assert(name.subrange(k, k + 1)[0] == name[k]);
        }
    }
    text::lemma_absent(name, "\\"@, 0);
    assert forall|k: int| 0 <= k implies !#[trigger] text::occurs_at(name, ".."@, k) by {
        if text::occurs_at(name, ".."@, k) {
            assert(name.subrange(k, k + 2)[0] == name[k]);
            assert(name.subrange(k, k + 2)[1] == name[k + 1]);
        }
    }
    text::lemma_absent(name, ".."@, 0);
    lemma_extension(name, date.len() as int + 4);
    assert(name.skip(date.len() as int + 5) =~= "zst"@);
}

/// The extension of a name without separators whose last dot stands at `dot`.
proof fn lemma_extension(name: Seq<char>, dot: int)
    requires
        0 < dot < name.len() - 1,
        name[dot] == '.',
        forall|i: int| 0 <= i < name.len() ==> #[trigger] name[i] != '/',
        forall|i: int| dot < i < name.len() ==> #[trigger] name[i] != '.',
    ensures
        paths::extension_of(name) == Some(name.skip(dot + 1)),
{
    lemma_last_len(name);
    assert(name.skip(0) =~= name);
    reveal_strlit("..");
    reveal_strlit(".");
    assert(name != ".."@ && name != "."@) by {
        assert(name.last() != '.');
        assert(".."@.last() == '.' && "."@.last() == '.');
    }
    lemma_last_dot(name, dot);
}

proof fn lemma_last_len(s: Seq<char>)
    requires
        forall|i: int| 0 <= i < s.len() ==> #[trigger] s[i] != '/',
    ensures
        paths::last_len(s) == s.len(),
    decreases s.len(),
{
    if s.len() > 0 {
        lemma_last_len(s.drop_last());
    }
}

proof fn lemma_last_dot(s: Seq<char>, dot: int)
    requires
        0 <= dot < s.len(),
        s[dot] == '.',
        forall|i: int| dot < i < s.len() ==> #[trigger] s[i] != '.',
    ensures
        paths::last_dot(s) == Some(dot),
    decreases s.len(),
{
    if s.last() != '.' {
        lemma_last_dot(s.drop_last(), dot);
    }
}

/// Nothing is restored into a server that is active.
pub proof fn law_no_restore_while_active(
    reg: Seq<InstanceModel>,
    id: Seq<char>,
    filename: Seq<char>,
    file_exists: bool,
)
    requires
        restore_refusal(reg, id, filename, file_exists) is None,
    ensures
        state::slot(reg, id) matches Some(i) && !state::is_active(reg[i].status),
{
}

// ---------------------------------------------------------------------------
// Scheduled backups
// ---------------------------------------------------------------------------

/// The schedule of the backups of an instance.
pub open spec fn backups_of(m: InstanceModel) -> Option<(Seq<char>, Seq<char>)> {
    match m.config.backup {
        Some(b) => match b.schedule {
            Some(s) => if b.enabled {
                Some((m.id, s@))
            } else {
                None
            },
            None => None,
        },
        None => None,
    }
}

/// The instances that are backed up by schedule.
pub open spec fn backups_in(reg: Seq<InstanceModel>) -> Seq<(Seq<char>, Seq<char>)>
    decreases reg.len(),
{
    if reg.len() == 0 {
        Seq::empty()
    } else {
        let front = backups_in(reg.drop_last());
        match backups_of(reg.last()) {
            Some(s) => front.push(s),
            None => front,
        }
    }
}

/// The instances that are backed up by schedule, with their schedules.
pub fn start_schedulers(reg: &Registry) -> (r: Vec<(String, String)>)
    ensures
        properties::pairs_view(r@) == backups_in(reg@),
{
    let mut r: Vec<(String, String)> = Vec::new();
    assert(properties::pairs_view(r@) =~= backups_in(reg@.take(0)));
    for i in 0..reg.list.len()
        invariant
            properties::pairs_view(r@) == backups_in(reg@.take(i as int)),
    {
        assert(reg@.take(i + 1).drop_last() =~= reg@.take(i as int));
        assert(reg@.take(i + 1).last() == reg.list@[i as int]@);
        let ghost before = r@;
        let inst = &reg.list[i];
        if let Some(b) = &inst.config.backup {
            if b.enabled {
                if let Some(s) = &b.schedule {
                    r.push((inst.id.clone(), s.clone()));
                    assert(properties::pairs_view(r@) =~= properties::pairs_view(
                        before,
                    ).push((inst.id@, s@)));
                }
            }
        }
    }
    assert(reg@.take(reg@.len() as int) =~= reg@);
    r
}

} // verus!
