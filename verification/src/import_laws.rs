//! What holds however an import goes.

use crate::archive;
use crate::digest;
use crate::ftb;
use crate::ftb::FtbFile;
use crate::ftb::FtbImportRequest;
use crate::ftb::FtbVersionDetails;
use crate::import;
use crate::import::ImportActionModel;
use crate::import::ImportModel;
use crate::import::ImportReplyModel;
use crate::import::PlanModel;
use crate::import::StageModel;
use crate::modpack;
use crate::modpack::ImportRequest;
use crate::modpack::PackFile;
use crate::modpack::PackIndex;
use crate::paths;
use vstd::prelude::*;

verus! {

/// How many entries an archive has, as far as it can be read.
pub open spec fn entries(p: PlanModel) -> nat {
    match archive::zip_count(p.archive) {
        Ok(n) => n,
        Err(_) => 0,
    }
}

/// How much of an import is still to come: the part of the work it is in, and what is left of that
/// part.
pub open spec fn work_left(m: ImportModel) -> (nat, nat) {
    let n = m.plan.jobs.len();
    match m.stage {
        StageModel::Directory => (8, 0),
        StageModel::Override(i) => (7, if i < entries(m.plan) {
            (entries(m.plan) - i) as nat
        } else {
            0
        }),
        StageModel::Loader => (6, 0),
        StageModel::ModsDir => (5, 0),
        StageModel::JobDir(i) => (4, if i < n {
            (3 * (n - i)) as nat
        } else {
            0
        }),
        StageModel::Download(i) => (4, if i < n {
            (3 * (n - i) - 1) as nat
        } else {
            0
        }),
        StageModel::Write(i) => (4, if i < n {
            (3 * (n - i) - 2) as nat
        } else {
            0
        }),
        StageModel::Java => (3, 0),
        StageModel::InstanceDir => (2, 0),
        StageModel::Config => (1, 0),
        StageModel::Over => (0, 0),
    }
}

/// Whether one amount of work is less than another.
pub open spec fn less(a: (nat, nat), b: (nat, nat)) -> bool {
    a.0 < b.0 || (a.0 == b.0 && a.1 < b.1)
}

proof fn lemma_job_work(p: PlanModel, i: nat, log: Seq<Seq<char>>)
    ensures
        ({
            let next = import::at_job(p, i, log);
            work_left(next.import).0 < 4 || (work_left(next.import).0 == 4 && i < p.jobs.len()
                && work_left(next.import).1 <= 3 * (p.jobs.len() - i))
        }),
        i < p.jobs.len() ==> ({
            let next = import::at_download(p, i, log);
            work_left(next.import).0 < 4 || (work_left(next.import).0 == 4
                && work_left(next.import).1 < 3 * (p.jobs.len() - i))
        }),
        import::at_job(p, i, log).import.plan == p,
        import::at_download(p, i, log).import.plan == p,
        import::at_job(p, i, log).action !is Write,
        import::at_download(p, i, log).action !is Write,
        import::at_job(p, i, log).action !is Finish,
        import::at_download(p, i, log).action !is Finish,
    decreases p.jobs.len() - i,
{
    if i < p.jobs.len() {
        lemma_job_work(
            p,
            i + 1,
            log.push(
                import::progress_mark(i + 1, p.jobs.len()) + "Skipping "@ + p.jobs[i as int].label
                    + " (no download URL)"@,
            ),
        );
    }
}

proof fn lemma_loader_work(p: PlanModel, log: Seq<Seq<char>>)
    ensures
        work_left(import::at_loader(p, log).import).0 < 7,
        work_left(import::at_files(p, log).import).0 < 6,
        import::at_loader(p, log).import.plan == p,
        import::at_files(p, log).import.plan == p,
        import::at_loader(p, log).action !is Write,
        import::at_files(p, log).action !is Write,
        import::at_loader(p, log).action !is Finish,
        import::at_files(p, log).action !is Finish,
{
    let skipped = log.push("No known mod loader — skipping loader installation."@);
    lemma_job_work(p, 0, log.push(import::files_line(p.source, p.jobs.len())));
    lemma_job_work(p, 0, skipped.push(import::files_line(p.source, p.jobs.len())));
}

proof fn lemma_override_work(p: PlanModel, i: nat, log: Seq<Seq<char>>)
    ensures
        ({
            let next = import::at_overrides(p, i, log);
            work_left(next.import).0 < 7 || (work_left(next.import).0 == 7 && i < entries(p)
                && work_left(next.import).1 < entries(p) - i)
        }),
        import::at_overrides(p, i, log).import.plan == p,
        import::at_overrides(p, i, log).action !is Write,
        import::at_overrides(p, i, log).action !is Finish,
    decreases entries(p) - i,
{
    lemma_loader_work(p, log);
    if i < entries(p) {
        lemma_override_work(p, i + 1, log);
    }
}

/// Every import comes to an end: whatever comes back, less work is left than before, and the plan
/// stays the same.
pub proof fn law_imports_come_to_an_end(m: ImportModel, reply: ImportReplyModel)
    requires
        import::stage_ok(m.plan, m.stage),
        import::import_replies_to(reply, m.stage),
    ensures
        less(work_left(import::import_advanced(m, reply).import), work_left(m)),
        import::import_advanced(m, reply).import.plan == m.plan,
{
    lemma_parts(m, reply);
}

proof fn lemma_parts(m: ImportModel, reply: ImportReplyModel)
    requires
        import::stage_ok(m.plan, m.stage),
        import::import_replies_to(reply, m.stage),
    ensures
        less(work_left(import::import_advanced(m, reply).import), work_left(m)),
        import::import_advanced(m, reply).import.plan == m.plan,
        import::import_advanced(m, reply).action is Write ==> m.stage is Download,
        import::import_advanced(m, reply).action is Finish ==> m.stage is Config,
{
    let p = m.plan;
    let none = Seq::<Seq<char>>::empty();
    match m.stage {
        StageModel::Directory => {
            lemma_override_work(p, 0, seq!["Extracting config overrides…"@]);
            lemma_loader_work(p, none);
        },
        StageModel::Override(i) => {
            lemma_override_work(p, i, none);
        },
        StageModel::Loader => {
            lemma_loader_work(p, none);
        },
        StageModel::ModsDir => {
            lemma_job_work(p, 0, none);
        },
        StageModel::JobDir(i) => {
            lemma_job_work(p, i, none);
        },
        StageModel::Write(i) => {
            lemma_job_work(
                p,
                i + 1,
                seq![
                    import::progress_mark(i + 1, p.jobs.len()) + p.jobs[i as int].label,
                ],
            );
        },
        _ => {},
    }
}

/// What was downloaded goes to disk only where it has the fingerprint that the pack tells of it, if
/// it tells one.
pub proof fn law_only_checked_downloads_are_written(m: ImportModel, reply: ImportReplyModel)
    requires
        import::stage_ok(m.plan, m.stage),
        import::import_replies_to(reply, m.stage),
        import::import_advanced(m, reply).action is Write,
    ensures
        m.stage matches StageModel::Download(i) && reply matches ImportReplyModel::Bytes(b)
            && import::import_advanced(m, reply).action == (ImportActionModel::Write {
            path: m.plan.jobs[i as int].dest,
        }) && (m.plan.jobs[i as int].sha512 matches Some(h) ==> digest::fingerprint_of(b) == h),
{
    lemma_parts(m, reply);
}

/// An import succeeds only once its settings are on disk.
pub proof fn law_success_comes_last(m: ImportModel, reply: ImportReplyModel)
    requires
        import::stage_ok(m.plan, m.stage),
        import::import_replies_to(reply, m.stage),
        import::import_advanced(m, reply).action is Finish,
    ensures
        m.stage is Config,
        reply is Done,
{
    lemma_parts(m, reply);
}

/// A file that does not stay in the folder of the server ends the import before the file is asked
/// for.
pub proof fn law_unsafe_files_end_the_import(p: PlanModel, i: nat, log: Seq<Seq<char>>)
    requires
        i < p.jobs.len(),
        !p.jobs[i as int].safe,
    ensures
        import::at_job(p, i, log).action == (ImportActionModel::Fail {
            error: "Unsafe path in manifest: "@ + p.jobs[i as int].label,
        }),
{
}

/// Whether the file that an import is busy with was found to stay in the folder of the server.
pub open spec fn busy_with_safe(m: ImportModel) -> bool {
    match m.stage {
        StageModel::JobDir(i) => m.plan.jobs[i as int].safe,
        StageModel::Download(i) => m.plan.jobs[i as int].safe,
        StageModel::Write(i) => m.plan.jobs[i as int].safe,
        _ => true,
    }
}

/// Whether an entry of the archive is written below the folder of the server.
pub open spec fn entry_below(action: ImportActionModel, server_path: Seq<char>) -> bool {
    action matches ImportActionModel::WriteEntry { path, .. } ==> paths::leads_below(
        path,
        server_path,
    )
}

proof fn lemma_job_safe(p: PlanModel, i: nat, log: Seq<Seq<char>>)
    ensures
        busy_with_safe(import::at_job(p, i, log).import),
        i < p.jobs.len() && p.jobs[i as int].safe ==> busy_with_safe(
            import::at_download(p, i, log).import,
        ),
        import::at_job(p, i, log).action !is WriteEntry,
        import::at_download(p, i, log).action !is WriteEntry,
    decreases p.jobs.len() - i,
{
    if i < p.jobs.len() {
        lemma_job_safe(
            p,
            i + 1,
            log.push(
                import::progress_mark(i + 1, p.jobs.len()) + "Skipping "@ + p.jobs[i as int].label
                    + " (no download URL)"@,
            ),
        );
    }
}

proof fn lemma_loader_safe(p: PlanModel, log: Seq<Seq<char>>)
    ensures
        busy_with_safe(import::at_loader(p, log).import),
        busy_with_safe(import::at_files(p, log).import),
        import::at_loader(p, log).action !is WriteEntry,
        import::at_files(p, log).action !is WriteEntry,
{
    let skipped = log.push("No known mod loader — skipping loader installation."@);
    lemma_job_safe(p, 0, log.push(import::files_line(p.source, p.jobs.len())));
    lemma_job_safe(p, 0, skipped.push(import::files_line(p.source, p.jobs.len())));
}

proof fn lemma_override_safe(p: PlanModel, i: nat, log: Seq<Seq<char>>)
    ensures
        busy_with_safe(import::at_overrides(p, i, log).import),
        entry_below(import::at_overrides(p, i, log).action, p.server_path),
    decreases entries(p) - i,
{
    lemma_loader_safe(p, log);
    if i < entries(p) {
        lemma_override_safe(p, i + 1, log);
        if let Ok((name, is_dir)) = archive::zip_entry(p.archive, i) {
            archive::law_placed_files_stay_below(name, p.server_path);
        }
    }
}

/// Whether a plan takes for safe only files that stay below the folder of the server.
pub open spec fn guarded(p: PlanModel) -> bool {
    forall|i: int|
        0 <= i < p.jobs.len() && (#[trigger] p.jobs[i]).safe ==> paths::leads_below(
            p.jobs[i].dest,
            p.server_path,
        )
}

/// However an import goes, what it writes lies below the folder of the server, also once every `..`
/// in a path is followed: the entries of its archive as well as the files that it downloads.
pub proof fn law_nothing_leaves_the_server_folder(m: ImportModel, reply: ImportReplyModel)
    requires
        import::stage_ok(m.plan, m.stage),
        import::import_replies_to(reply, m.stage),
        guarded(m.plan),
        busy_with_safe(m),
    ensures
        busy_with_safe(import::import_advanced(m, reply).import),
        entry_below(import::import_advanced(m, reply).action, m.plan.server_path),
        import::import_advanced(m, reply).action matches ImportActionModel::Write { path }
            ==> paths::leads_below(path, m.plan.server_path),
{
    let p = m.plan;
    let none = Seq::<Seq<char>>::empty();
    lemma_parts(m, reply);
    match m.stage {
        StageModel::Directory => {
            lemma_override_safe(p, 0, seq!["Extracting config overrides…"@]);
            lemma_loader_safe(p, none);
        },
        StageModel::Override(i) => {
            lemma_override_safe(p, i, none);
        },
        StageModel::Loader => {
            lemma_loader_safe(p, none);
        },
        StageModel::ModsDir => {
            lemma_job_safe(p, 0, none);
        },
        StageModel::JobDir(i) => {
            lemma_job_safe(p, i, none);
        },
        StageModel::Write(i) => {
            lemma_job_safe(
                p,
                i + 1,
                seq![
                    import::progress_mark(i + 1, p.jobs.len()) + p.jobs[i as int].label,
                ],
            );
        },
        _ => {},
    }
}

/// A plan for an FTB pack takes for safe only files that stay below the folder of the server.
pub proof fn law_ftb_plans_are_guarded(
    req: FtbImportRequest,
    version: FtbVersionDetails,
    mc_version: Seq<char>,
    data: Seq<char>,
)
    ensures
        guarded(ftb::plan_of(req, version, mc_version, data)),
{
    let p = ftb::plan_of(req, version, mc_version, data);
    assert forall|i: int| 0 <= i < p.jobs.len() && (#[trigger] p.jobs[i]).safe implies paths::leads_below(
        p.jobs[i].dest,
        p.server_path,
    ) by {
        lemma_ftb_job(
            version.files@,
            p.server_path,
            req.pack_id as nat,
            req.version_id as nat,
            i,
        );
    }
}

/// A plan for a Modrinth pack takes for safe just the files that stay below the folder of the server.
pub proof fn law_modrinth_plans_are_guarded(
    req: ImportRequest,
    project_id: Seq<char>,
    index: PackIndex,
    archive: Seq<u8>,
    mc_version: Seq<char>,
    data: Seq<char>,
)
    ensures
        guarded(modpack::plan_of(req, project_id, index, archive, mc_version, data)),
        ({
            let p = modpack::plan_of(req, project_id, index, archive, mc_version, data);
            forall|i: int|
                0 <= i < p.jobs.len() ==> ((#[trigger] p.jobs[i]).safe <==> paths::leads_below(
                    p.jobs[i].dest,
                    p.server_path,
                ))
        }),
{
    let p = modpack::plan_of(req, project_id, index, archive, mc_version, data);
    assert forall|i: int| 0 <= i < p.jobs.len() implies ((#[trigger] p.jobs[i]).safe
        <==> paths::leads_below(p.jobs[i].dest, p.server_path)) by {
        lemma_modrinth_job(index.files@, p.server_path, i);
    }
}

proof fn lemma_modrinth_job(files: Seq<PackFile>, server_path: Seq<char>, i: int)
    requires
        0 <= i < modpack::jobs_of(files, server_path).len(),
    ensures
        ({
            let job = modpack::jobs_of(files, server_path)[i];
            job.safe <==> paths::leads_below(job.dest, server_path)
        }),
    decreases files.len(),
{
    let front = modpack::jobs_of(files.drop_last(), server_path);
    if i < front.len() {
        lemma_modrinth_job(files.drop_last(), server_path, i);
    }
}

proof fn lemma_ftb_job(
    files: Seq<FtbFile>,
    server_path: Seq<char>,
    pack_id: nat,
    version_id: nat,
    i: int,
)
    requires
        0 <= i < ftb::jobs_of(files, server_path, pack_id, version_id).len(),
    ensures
        ({
            let job = ftb::jobs_of(files, server_path, pack_id, version_id)[i];
            job.safe <==> paths::inside(job.dest, server_path)
        }),
    decreases files.len(),
{
    let front = ftb::jobs_of(files.drop_last(), server_path, pack_id, version_id);
    if i < front.len() {
        lemma_ftb_job(files.drop_last(), server_path, pack_id, version_id, i);
    }
}

} // verus!
