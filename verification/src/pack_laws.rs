//! What importing a modpack is for: which files come to the server, from where, and to which place.

use crate::archive;
use crate::archive::PlacementModel;
use crate::config::InstanceConfig;
use crate::digest;
use crate::ftb;
use crate::ftb::FtbFile;
use crate::ftb::FtbImportRequest;
use crate::ftb::FtbTarget;
use crate::ftb::FtbVersionDetails;
use crate::import;
use crate::import::ImportActionModel;
use crate::import::ImportModel;
use crate::import::ImportReplyModel;
use crate::import::JobModel;
use crate::import::LoaderKind;
use crate::import::PlanModel;
use crate::import::Source;
use crate::import::StageModel;
use crate::modpack;
use crate::modpack::ImportRequest;
use crate::modpack::PackArchive;
use crate::modpack::PackFile;
use crate::modpack::PackIndex;
use crate::path_laws;
use crate::paths;
use crate::properties;
use crate::slug;
use crate::state;
use crate::state::InstanceModel;
use crate::text;
use crate::text_laws;
use vstd::prelude::*;

verus! {

/// Whether a job brings a file of a Modrinth manifest to the server: it goes to its path below the
/// folder of the server, comes from the first address that is offered, and is checked against the
/// fingerprint where there is one.
pub open spec fn brings_file(job: JobModel, f: PackFile, server_path: Seq<char>) -> bool {
    &&& job.label == f.path@
    &&& job.dest == paths::joined_path(server_path, f.path@)
    &&& f.downloads@.len() > 0 ==> job.url == Some(f.downloads@[0]@)
    &&& f.downloads@.len() == 0 ==> job.url is None
    &&& f.sha512 matches Some(h) ==> job.sha512 == Some(h@)
    &&& f.sha512 is None ==> job.sha512 is None
    &&& job.parent == paths::parent_of(job.dest)
    &&& job.safe <==> paths::leads_below(job.dest, server_path)
}

/// Whether a manifest says of a file that servers do not support it.
pub open spec fn not_for_servers(f: PackFile) -> bool {
    f.server matches Some(s) && s@ == "unsupported"@
}

/// The jobs for the files of a Modrinth manifest grow with the manifest: one more file gives one more
/// job at the end, unless servers do not support it. Required and optional files come alike.
pub proof fn law_manifest_files_become_jobs(files: Seq<PackFile>, f: PackFile, server_path: Seq<char>)
    ensures
        modpack::jobs_of(Seq::empty(), server_path).len() == 0,
        not_for_servers(f) ==> modpack::jobs_of(files.push(f), server_path) == modpack::jobs_of(
            files,
            server_path,
        ),
        !not_for_servers(f) ==> {
            let before = modpack::jobs_of(files, server_path);
            let after = modpack::jobs_of(files.push(f), server_path);
            &&& after.len() == before.len() + 1
            &&& after.drop_last() == before
            &&& brings_file(after.last(), f, server_path)
        },
{
    let more = files.push(f);
    assert(more.drop_last() =~= files);
    assert(more.last() == f);
    if !not_for_servers(f) {
        let before = modpack::jobs_of(files, server_path);
        let after = modpack::jobs_of(more, server_path);
        assert(after.drop_last() =~= before);
    }
}

/// Every file of a Modrinth manifest that servers support has a job of its own.
pub proof fn law_every_server_file_has_a_job(files: Seq<PackFile>, server_path: Seq<char>, i: int)
    requires
        0 <= i < files.len(),
        !not_for_servers(files[i]),
    ensures
        exists|k: int|
            0 <= k < modpack::jobs_of(files, server_path).len() && brings_file(
                #[trigger] modpack::jobs_of(files, server_path)[k],
                files[i],
                server_path,
            ),
    decreases files.len(),
{
    let front = files.drop_last();
    assert(front.push(files.last()) =~= files);
    law_manifest_files_become_jobs(front, files.last(), server_path);
    let all = modpack::jobs_of(files, server_path);
    let some = modpack::jobs_of(front, server_path);
    if i < front.len() {
        law_every_server_file_has_a_job(front, server_path, i);
        let k = choose|k: int|
            0 <= k < some.len() && brings_file(#[trigger] some[k], front[i], server_path);
        if !not_for_servers(files.last()) {
            assert(all.drop_last()[k] == all[k]);
        }
        assert(all[k] == some[k]);
    } else {
        assert(brings_file(all[all.len() - 1], files[i], server_path));
    }
}

/// Every job is for a file of the Modrinth manifest that servers support.
pub proof fn law_every_job_has_a_server_file(files: Seq<PackFile>, server_path: Seq<char>, k: int)
    requires
        0 <= k < modpack::jobs_of(files, server_path).len(),
    ensures
        exists|i: int|
            0 <= i < files.len() && !not_for_servers(#[trigger] files[i]) && brings_file(
                modpack::jobs_of(files, server_path)[k],
                files[i],
                server_path,
            ),
    decreases files.len(),
{
    let front = files.drop_last();
    assert(front.push(files.last()) =~= files);
    law_manifest_files_become_jobs(front, files.last(), server_path);
    let all = modpack::jobs_of(files, server_path);
    let some = modpack::jobs_of(front, server_path);
    if k < some.len() {
        law_every_job_has_a_server_file(front, server_path, k);
        let i = choose|i: int|
            0 <= i < front.len() && !not_for_servers(#[trigger] front[i]) && brings_file(
                some[k],
                front[i],
                server_path,
            );
        if !not_for_servers(files.last()) {
            assert(all.drop_last()[k] == all[k]);
        }
        assert(files[i] == front[i]);
        assert(all[k] == some[k]);
    } else {
        assert(files[files.len() - 1] == files.last());
    }
}

/// A file with a relative path that stays below is no reason to end the import: `mods/a.jar` and the
/// like are safe.
pub proof fn law_plain_files_are_safe(server_path: Seq<char>, folder: Seq<char>, name: Seq<char>)
    requires
        server_path.len() > 0,
        path_laws::plain_folder(server_path),
        path_laws::one_component(folder),
        folder != seq!['.', '.'],
        path_laws::plain_folder(folder),
        path_laws::one_component(name),
        name != seq!['.', '.'],
    ensures
        ({
            let dest = server_path.push('/') + folder.push('/') + name;
            &&& paths::leads_below(dest, server_path)
            &&& paths::inside(dest, server_path)
        }),
{
    let d = server_path.push('/') + folder;
    let dest = server_path.push('/') + folder.push('/') + name;
    assert(folder[0] != '/');
    assert(paths::joined_path(server_path, folder) =~= d);
    assert(d.last() == folder.last());
    assert(name[0] != '/');
    assert(paths::joined_path(d, name) =~= dest);
    reveal_strlit("..");
    assert(".."@ =~= seq!['.', '.']);
    lemma_two_steps(server_path, folder, name);
}

proof fn lemma_two_steps(base: Seq<char>, a: Seq<char>, b: Seq<char>)
    requires
        base.len() > 0,
        base.last() != '/',
        a.len() > 0,
        b.len() > 0,
        !a.contains('/'),
        !b.contains('/'),
        a != ".."@,
        b != ".."@,
    ensures
        paths::inside(base.push('/') + a.push('/') + b, base),
{
    let part = a.push('/') + b;
    let full = base.push('/') + part;
    assert(base.push('/') + a.push('/') + b =~= full);
    assert(part[0] == a[0]);
    assert(a[0] != '/');
    paths::law_join_stays_under(base, part);
    assert(paths::joined_path(base, part) =~= full);
    text::lemma_pieces_around(base, part, '/');
    text::lemma_pieces_around(a, b, '/');
    text::lemma_pieces_whole(a, '/');
    text::lemma_pieces_whole(b, '/');
    let pb = text::pieces(base, '/', '/');
    let pf = text::pieces(full, '/', '/');
    assert(pf =~= pb + seq![a, b]);
    text::lemma_pieces_some(base, '/', '/');
    let n = pb.len();
    lemma_same_components(pb, pf, n);
    let c = paths::components(full);
    let k = paths::components(base).len() as int;
    assert(pf.len() == n + 2);
    assert(pf[n as int] == a);
    assert(pf[n as int + 1] == b);
    reveal_with_fuel(paths::components_to, 3);
    let rest = c.skip(k);
    assert forall|i: int| 0 <= i < rest.len() implies rest[i] != ".."@ by {}
    paths::law_straight_paths_stay_below(full, base);
}

proof fn lemma_same_components(p: Seq<Seq<char>>, q: Seq<Seq<char>>, n: nat)
    requires
        n <= p.len(),
        n <= q.len(),
        forall|i: int| 0 <= i < n ==> p[i] == q[i],
    ensures
        paths::components_to(p, n) == paths::components_to(q, n),
    decreases n,
{
    if n > 0 {
        lemma_same_components(p, q, (n - 1) as nat);
    }
}

/// The loader of a Modrinth pack: the first of NeoForge, Forge, Fabric and Quilt that it depends on,
/// with the version that it names.
pub proof fn law_loader_of_a_manifest(deps: Seq<(Seq<char>, Seq<char>)>, v: Seq<char>)
    ensures
        properties::value_of(deps, "neoforge"@) == Some(v) ==> modpack::loader_of(deps) == (
            Some("neoforge"@),
            Some(v),
        ),
        properties::value_of(deps, "neoforge"@) is None && properties::value_of(deps, "forge"@)
            == Some(v) ==> modpack::loader_of(deps) == (Some("forge"@), Some(v)),
        properties::value_of(deps, "neoforge"@) is None && properties::value_of(deps, "forge"@)
            is None && properties::value_of(deps, "fabric-loader"@) == Some(v)
            ==> modpack::loader_of(deps) == (Some("fabric"@), Some(v)),
        properties::value_of(deps, "neoforge"@) is None && properties::value_of(deps, "forge"@)
            is None && properties::value_of(deps, "fabric-loader"@) is None && properties::value_of(
            deps,
            "quilt-loader"@,
        ) == Some(v) ==> modpack::loader_of(deps) == (Some("quilt"@), Some(v)),
        properties::value_of(deps, "neoforge"@) is None && properties::value_of(deps, "forge"@)
            is None && properties::value_of(deps, "fabric-loader"@) is None && properties::value_of(
            deps,
            "quilt-loader"@,
        ) is None ==> modpack::loader_of(deps) == (None::<Seq<char>>, None::<Seq<char>>),
{
}

/// The archive of a Modrinth version is its first primary file; one without any cannot be imported.
pub proof fn law_primary_archive(files: Seq<PackArchive>)
    ensures
        match modpack::primary_slot(files) {
            Some(i) => 0 <= i < files.len() && files[i].primary && forall|j: int|
                0 <= j < i ==> !(#[trigger] files[j]).primary,
            None => forall|j: int| 0 <= j < files.len() ==> !(#[trigger] files[j]).primary,
        },
    decreases files.len(),
{
    if files.len() > 0 {
        let front = files.drop_last();
        law_primary_archive(front);
        assert forall|j: int| 0 <= j < front.len() implies #[trigger] files[j] == front[j] by {}
    }
}

// ---------------------------------------------------------------------------
// FTB
// ---------------------------------------------------------------------------

/// The jobs for the files of an FTB pack grow with it: one more file gives one more job at the end,
/// unless it is for players alone.
pub proof fn law_ftb_files_become_jobs(
    files: Seq<FtbFile>,
    f: FtbFile,
    server_path: Seq<char>,
    pack_id: nat,
    version_id: nat,
)
    ensures
        ftb::jobs_of(Seq::empty(), server_path, pack_id, version_id).len() == 0,
        f.clientonly ==> ftb::jobs_of(files.push(f), server_path, pack_id, version_id)
            == ftb::jobs_of(files, server_path, pack_id, version_id),
        !f.clientonly ==> {
            let before = ftb::jobs_of(files, server_path, pack_id, version_id);
            let after = ftb::jobs_of(files.push(f), server_path, pack_id, version_id);
            &&& after.len() == before.len() + 1
            &&& after.drop_last() == before
            &&& after.last().label == f.path@ + "/"@ + f.name@
            &&& after.last().name == f.name@
            &&& after.last().dest == ftb::dest_of(f, server_path)
            &&& after.last().parent == paths::parent_of(after.last().dest)
            &&& after.last().url == Some(ftb::source_of(f, pack_id, version_id))
            &&& after.last().sha512 is None
            &&& after.last().safe <==> paths::under(after.last().dest, server_path)
                && paths::leads_below(after.last().dest, server_path)
        },
{
    let more = files.push(f);
    assert(more.drop_last() =~= files);
    assert(more.last() == f);
    if !f.clientonly {
        let after = ftb::jobs_of(more, server_path, pack_id, version_id);
        assert(after.drop_last() =~= ftb::jobs_of(files, server_path, pack_id, version_id));
    }
}

/// Where a file of an FTB pack goes: a plain folder name is one below the folder of the server, also
/// where it is written with `./` in front or `/` around it, and without a folder the file goes to the
/// folder of the server itself.
pub proof fn law_ftb_files_go_to_their_folder(
    f: FtbFile,
    server_path: Seq<char>,
    folder: Seq<char>,
)
    requires
        path_laws::plain_folder(server_path),
        folder.len() > 0,
        folder[0] != '/',
        folder.last() != '/',
        folder[0] != '.',
        f.name@.len() > 0,
        f.name@[0] != '/',
    ensures
        f.path@ == folder || f.path@ == seq!['/'] + folder || f.path@ == folder.push('/') || f.path@
            == seq!['.', '/'] + folder || f.path@ == seq!['/'] + folder.push('/') ==> ftb::dest_of(
            f,
            server_path,
        ) == server_path.push('/') + folder.push('/') + f.name@,
        f.path@.len() == 0 || f.path@ == seq!['.', '/'] || f.path@ == seq!['/'] || f.path@
            == seq!['.'] ==> ftb::dest_of(f, server_path) == server_path.push('/') + f.name@,
{
    reveal_with_fuel(text::stripped_front, 3);
    reveal_with_fuel(text::stripped_back, 3);
    assert(folder[0] != '/' && folder[folder.len() - 1] != '/');
    assert(folder.skip(0) =~= folder);
    assert((seq!['/'] + folder).skip(1) =~= folder);
    assert(folder.push('/').drop_last() =~= folder);
    assert((seq!['.', '/'] + folder).skip(1) =~= seq!['/'] + folder);
    assert((seq!['/'] + folder.push('/')).skip(1) =~= folder.push('/'));
    assert((seq!['/'] + folder).last() == folder.last());
    assert((seq!['.', '/'] + folder).last() == folder.last());
    assert((seq!['.', '/'] + folder)[0] == '.');
    assert(folder.push('/')[0] == folder[0]);
    let e = Seq::<char>::empty();
    assert(seq!['.', '/'].skip(1) =~= seq!['/']);
    assert(seq!['.', '/'].drop_last() =~= seq!['.']);
    assert(seq!['.'].skip(1) =~= e);
    assert(seq!['/'].skip(1) =~= e);
    let d = server_path.push('/') + folder;
    assert(paths::joined_path(server_path, folder) == d);
    assert(d.last() == folder.last());
    assert(d.push('/') + f.name@ =~= server_path.push('/') + folder.push('/') + f.name@);
}

/// Where a file of an FTB pack comes from: from its own address where it has one, and from FTB by the
/// pack, the version and its number where it has none.
pub proof fn law_ftb_files_come_from(f: FtbFile, pack_id: nat, version_id: nat, rest: Seq<char>)
    ensures
        f.url@ == "http"@ + rest ==> ftb::source_of(f, pack_id, version_id) == f.url@,
        (forall|r: Seq<char>| f.url@ != #[trigger] ("http"@ + r)) ==> ftb::source_of(
            f,
            pack_id,
            version_id,
        )
            == "https://api.modpacks.ch/public/modpack/"@ + text::digits(pack_id) + "/"@
            + text::digits(version_id) + "/file/"@ + text::digits(f.id as nat),
{
    text_laws::law_begins_and_ends("http"@, rest, f.url@);
    if text::begins(f.url@, "http"@) {
        assert(f.url@ == "http"@ + f.url@.skip("http"@.len() as int));
    }
}

/// The version of the game, and the loader, of an FTB pack are those of the first target that tells
/// them.
pub proof fn law_ftb_targets(
    front: Seq<FtbTarget>,
    t: FtbTarget,
    rest: Seq<FtbTarget>,
)
    ensures
        t.kind@ == "game"@ && t.name@ == "minecraft"@ && (forall|i: int|
            0 <= i < front.len() ==> (#[trigger] front[i]).kind@ != "game"@ || front[i].name@
                != "minecraft"@) ==> ftb::game_of(front.push(t) + rest) == Some(t.version@),
        t.kind@ == "modloader"@ && (forall|i: int|
            0 <= i < front.len() ==> (#[trigger] front[i]).kind@ != "modloader"@)
            ==> ftb::loader_of(front.push(t) + rest) == (Some(t.name@), Some(t.version@)),
    decreases front.len(),
{
    let all = front.push(t) + rest;
    if front.len() > 0 {
        let f = front.skip(1);
        law_ftb_targets(f, t, rest);
        assert(all.skip(1) =~= f.push(t) + rest);
        assert(all[0] == front[0]);
        assert forall|i: int| 0 <= i < f.len() implies #[trigger] f[i] == front[i + 1] by {}
    } else {
        assert(all[0] == t);
    }
}

/// An FTB pack without such a target tells neither.
pub proof fn law_ftb_packs_without_targets(targets: Seq<FtbTarget>)
    ensures
        (forall|i: int|
            0 <= i < targets.len() ==> (#[trigger] targets[i]).kind@ != "game"@ || targets[i].name@
                != "minecraft"@) ==> ftb::game_of(targets) is None,
        (forall|i: int| 0 <= i < targets.len() ==> (#[trigger] targets[i]).kind@ != "modloader"@)
            ==> ftb::loader_of(targets) == (None::<Seq<char>>, None::<Seq<char>>),
    decreases targets.len(),
{
    if targets.len() > 0 {
        let rest = targets.skip(1);
        law_ftb_packs_without_targets(rest);
        assert(targets[0] == targets[0]);
        assert forall|i: int| 0 <= i < rest.len() implies #[trigger] rest[i] == targets[i + 1] by {}
    }
}

// ---------------------------------------------------------------------------
// Overrides
// ---------------------------------------------------------------------------

/// What stands below `overrides/` or `server-overrides/` in an archive goes to the same place below
/// the folder of the server; nothing else of the archive does.
pub proof fn law_overrides_are_placed(name: Seq<char>, part: Seq<char>, dest: Seq<char>)
    requires
        part.len() > 0,
        part[0] != '/',
        dest.len() > 0,
        dest.last() != '/',
    ensures
        paths::leads_below(dest.push('/') + part, dest) ==> archive::placement_of(
            "overrides/"@ + part,
            dest,
        ) == PlacementModel::At(dest.push('/') + part) && archive::placement_of(
            "server-overrides/"@ + part,
            dest,
        ) == PlacementModel::At(dest.push('/') + part),
        !paths::leads_below(dest.push('/') + part, dest) ==> archive::placement_of(
            "overrides/"@ + part,
            dest,
        ) is Unsafe && archive::placement_of("server-overrides/"@ + part, dest) is Unsafe,
        archive::placement_of("overrides/"@, dest) is Skip,
        archive::placement_of("server-overrides/"@, dest) is Skip,
        !text::begins(name, "overrides/"@) && !text::begins(name, "server-overrides/"@)
            ==> archive::placement_of(name, dest) is Skip,
{
    let a = "overrides/"@;
    let b = "server-overrides/"@;
    text_laws::law_begins_and_ends(a, part, a + part);
    text_laws::law_begins_and_ends(b, part, b + part);
    assert((a + part).skip(a.len() as int) =~= part);
    assert((b + part).skip(b.len() as int) =~= part);
    reveal_strlit("overrides/");
    reveal_strlit("server-overrides/");
    assert(!text::begins(b + part, a)) by {
        assert((b + part).subrange(0, a.len() as int)[0] == 's');
    }
    let e = Seq::<char>::empty();
    text_laws::law_begins_and_ends(a, e, a);
    text_laws::law_begins_and_ends(b, e, b);
    assert(a + e =~= a);
    assert(b + e =~= b);
    assert(!text::begins(b, a)) by {
        assert(b.subrange(0, a.len() as int)[0] == 's');
    }
    paths::law_join_stays_under(dest, part);
}

// ---------------------------------------------------------------------------
// The course of an import
// ---------------------------------------------------------------------------

/// A file that stays in the folder is brought: its folder is made, it is asked for at its address,
/// and what came is written to its place where it has the fingerprint that was told, if one was.
pub proof fn law_files_are_brought(
    p: PlanModel,
    i: nat,
    log: Seq<Seq<char>>,
    url: Seq<char>,
    folder: Seq<char>,
    bytes: Seq<u8>,
)
    requires
        i < p.jobs.len(),
        p.jobs[i as int].safe,
        p.jobs[i as int].url == Some(url),
        p.jobs[i as int].parent == Some(folder),
    ensures
        ({
            let first = import::at_job(p, i, log);
            let second = import::import_advanced(first.import, ImportReplyModel::Done);
            let third = import::import_advanced(second.import, ImportReplyModel::Bytes(bytes));
            let sum = digest::hex_text(digest::sha512(bytes));
            let told = p.jobs[i as int].sha512;
            &&& first.action == (ImportActionModel::MakeDir { path: folder })
            &&& second.action == (ImportActionModel::Download { url })
            &&& told is None || told == Some(sum) ==> third.action == (ImportActionModel::Write {
                path: p.jobs[i as int].dest,
            }) && third.import.stage == StageModel::Write(i)
            &&& (told matches Some(h) && h != sum) ==> third.action is Fail
            &&& import::import_advanced(
                ImportModel { plan: p, java_path: None, stage: StageModel::Write(i) },
                ImportReplyModel::Done,
            ) == import::at_job(
                p,
                i + 1,
                seq![
                    "["@ + text::digits(i + 1) + "/"@ + text::digits(p.jobs.len()) + "] "@
                        + p.jobs[i as int].label,
                ],
            )
        }),
{
}

/// A file that nobody offers is passed over, and the next one follows.
pub proof fn law_files_without_an_address_are_passed_over(
    p: PlanModel,
    i: nat,
    log: Seq<Seq<char>>,
    folder: Seq<char>,
)
    requires
        i < p.jobs.len(),
        p.jobs[i as int].safe,
        p.jobs[i as int].url is None,
        p.jobs[i as int].parent == Some(folder),
    ensures
        ({
            let first = import::at_job(p, i, log);
            let second = import::import_advanced(first.import, ImportReplyModel::Done);
            second == import::at_job(
                p,
                i + 1,
                seq![
                    "["@ + text::digits(i + 1) + "/"@ + text::digits(p.jobs.len()) + "] "@
                        + "Skipping "@ + p.jobs[i as int].label + " (no download URL)"@,
                ],
            )
        }),
{
    let first = import::at_job(p, i, log);
    let second = import::import_advanced(first.import, ImportReplyModel::Done);
    let l = Seq::<Seq<char>>::empty().push(
        import::progress_mark(i + 1, p.jobs.len()) + "Skipping "@ + p.jobs[i as int].label
            + " (no download URL)"@,
    );
    assert(second == import::at_job(p, i + 1, l));
    assert(l =~= seq![
        "["@ + text::digits(i + 1) + "/"@ + text::digits(p.jobs.len()) + "] "@ + "Skipping "@
            + p.jobs[i as int].label + " (no download URL)"@,
    ]);
}

/// After the last file the Java is looked for, then the folder of the instance is made, its settings
/// are written, and the import is done.
pub proof fn law_imports_end_with_the_settings(
    p: PlanModel,
    log: Seq<Seq<char>>,
    path: Option<Seq<char>>,
    system: Option<u32>,
)
    ensures
        ({
            let java = import::at_job(p, p.jobs.len(), log);
            let dir = import::import_advanced(java.import, ImportReplyModel::Java { path, system });
            let config = import::import_advanced(dir.import, ImportReplyModel::Done);
            let end = import::import_advanced(config.import, ImportReplyModel::Done);
            &&& java.action is FindJava
            &&& dir.action == (ImportActionModel::MakeDir { path: p.instance_dir })
            &&& dir.import.java_path == path
            &&& config.action is WriteConfig
            &&& config.import.java_path == path
            &&& end.action is Finish
            &&& end.import.plan == p
            &&& end.import.java_path == path
        }),
{
}

/// The loader of a plan is installed in its version where it is NeoForge, Forge or Fabric, and the
/// import goes on without one otherwise.
pub proof fn law_loaders_are_installed(p: PlanModel, log: Seq<Seq<char>>, v: Seq<char>)
    requires
        p.loader_version == Some(v),
    ensures
        p.loader == Some("neoforge"@) ==> import::at_loader(p, log).action == (
        ImportActionModel::Install { kind: LoaderKind::NeoForge, version: v }),
        p.loader == Some("forge"@) ==> import::at_loader(p, log).action == (
        ImportActionModel::Install { kind: LoaderKind::Forge, version: v }),
        p.loader == Some("fabric"@) ==> import::at_loader(p, log).action == (
        ImportActionModel::Install { kind: LoaderKind::Fabric, version: v }),
        p.loader != Some("neoforge"@) && p.loader != Some("forge"@) && p.loader != Some("fabric"@)
            ==> import::at_loader(p, log).action !is Install && import::at_loader(p, log)
            == import::at_files(
            p,
            log.push("No known mod loader — skipping loader installation."@),
        ),
{
    reveal_strlit("neoforge");
    reveal_strlit("forge");
    reveal_strlit("fabric");
    reveal_strlit("quilt");
    assert("forge"@.len() != "neoforge"@.len());
    assert("fabric"@.len() == 6);
    assert("quilt"@[0] == 'q' && "forge"@[0] == 'f');
    lemma_files_action(p, log.push("No known mod loader — skipping loader installation."@));
}

proof fn lemma_files_action(p: PlanModel, log: Seq<Seq<char>>)
    ensures
        import::at_files(p, log).action !is Install,
{
    lemma_job_action(p, 0, log.push(import::files_line(p.source, p.jobs.len())));
}

proof fn lemma_job_action(p: PlanModel, i: nat, log: Seq<Seq<char>>)
    ensures
        import::at_job(p, i, log).action !is Install,
    decreases p.jobs.len() - i,
{
    if i < p.jobs.len() {
        lemma_job_action(
            p,
            i + 1,
            log.push(
                import::progress_mark(i + 1, p.jobs.len()) + "Skipping "@ + p.jobs[i as int].label
                    + " (no download URL)"@,
            ),
        );
    }
}

/// The settings of an imported instance are those of its plan: its name, its game, its loader, its
/// port, the folder of its server and the Java that was found.
pub proof fn law_imported_settings(c: InstanceConfig, m: ImportModel)
    requires
        import::settings_of(c, m),
    ensures
        c.instance.name@ == m.plan.instance_id,
        c.instance.display_name matches Some(d) && d@ == m.plan.display_name,
        c.instance.minecraft_version@ == m.plan.mc_version,
        text::opt_view(c.instance.loader) == m.plan.loader,
        text::opt_view(c.instance.loader_version) == m.plan.loader_version,
        c.instance.port == m.plan.port,
        text::opt_view(c.instance.modrinth_project_id) == m.plan.project_id,
        c.server.path@ == m.plan.server_path,
        text::opt_view(c.server.java_path) == m.java_path,
        c.server.java_opts is None,
        c.restart is None,
        c.alerts is None,
        c.schedules@.len() == 0,
        c.backup matches Some(b) && !b.enabled && b.schedule is None && b.keep_count == 10
            && !b.world_only,
{
}

/// A plan is made of what was asked for and of what the pack tells: the name gives the id, the server
/// goes to the folder that was asked for, or to one of its own where none was, and the settings to
/// the folder of the instance.
pub proof fn law_plans_follow_the_request(
    req: ImportRequest,
    project_id: Seq<char>,
    index: PackIndex,
    archive: Seq<u8>,
    mc_version: Seq<char>,
    data: Seq<char>,
    freq: FtbImportRequest,
    version: FtbVersionDetails,
)
    requires
        data.len() > 0,
        data.last() != '/',
    ensures
        ({
            let p = modpack::plan_of(req, project_id, index, archive, mc_version, data);
            let id = slug::slug_of(req.instance_name@);
            &&& p.instance_id == id
            &&& p.display_name == req.instance_name@
            &&& p.port == req.port
            &&& p.mc_version == mc_version
            &&& p.project_id == Some(project_id)
            &&& p.archive == archive
            &&& p.source == Source::Modrinth
            &&& p.jobs == modpack::jobs_of(index.files@, p.server_path)
            &&& (p.loader, p.loader_version) == modpack::loader_of(
                properties::pairs_view(index.dependencies@),
            )
            &&& !text::blank(req.server_path@) ==> p.server_path == req.server_path@
            &&& id.len() > 0 && id[0] != '/' ==> p.instance_dir == data + "/instances/"@ + id
            &&& text::blank(req.server_path@) && id.len() > 0 && id[0] != '/' ==> p.server_path
                == data + "/servers/"@ + id
        }),
        ({
            let p = ftb::plan_of(freq, version, mc_version, data);
            let id = slug::ascii_slug_of(freq.instance_name@);
            &&& p.instance_id == id
            &&& p.display_name == freq.instance_name@
            &&& p.port == freq.port
            &&& p.mc_version == mc_version
            &&& p.source == Source::Ftb
            &&& p.project_id is None
            &&& p.archive.len() == 0
            &&& (p.loader, p.loader_version) == ftb::loader_of(version.targets@)
            &&& p.jobs == ftb::jobs_of(
                version.files@,
                p.server_path,
                freq.pack_id as nat,
                freq.version_id as nat,
            )
            &&& !text::blank(freq.server_path@) ==> p.server_path == freq.server_path@
            &&& id.len() > 0 && id[0] != '/' ==> p.instance_dir == data + "/instances/"@ + id
            &&& text::blank(freq.server_path@) && id.len() > 0 && id[0] != '/' ==> p.server_path
                == data + "/servers/"@ + id
        }),
{
    lemma_folder(data, slug::slug_of(req.instance_name@));
    lemma_folder(data, slug::ascii_slug_of(freq.instance_name@));
}

proof fn lemma_folder(data: Seq<char>, id: Seq<char>)
    requires
        data.len() > 0,
        data.last() != '/',
    ensures
        id.len() > 0 && id[0] != '/' ==> {
            &&& crate::config::folder_of(data, "instances"@, id) == data + "/instances/"@ + id
            &&& crate::config::folder_of(data, "servers"@, id) == data + "/servers/"@ + id
            &&& crate::config::folder_of(data, "backups"@, id) == data + "/backups/"@ + id
        },
{
    reveal_strlit("instances");
    reveal_strlit("servers");
    reveal_strlit("backups");
    reveal_strlit("/instances/");
    reveal_strlit("/servers/");
    reveal_strlit("/backups/");
    assert(crate::config::folder_of(data, "instances"@, id) =~= data + "/instances/"@ + id || id.len()
        == 0 || id[0] == '/');
    assert(crate::config::folder_of(data, "servers"@, id) =~= data + "/servers/"@ + id || id.len()
        == 0 || id[0] == '/');
    assert(crate::config::folder_of(data, "backups"@, id) =~= data + "/backups/"@ + id || id.len()
        == 0 || id[0] == '/');
}

/// A name is refused just where it gives no id, or one that an instance has.
pub proof fn law_names_that_are_refused(reg: Seq<InstanceModel>, id: Seq<char>)
    ensures
        import::name_refusal(reg, id) is None <==> id.len() > 0 && forall|i: int|
            0 <= i < reg.len() ==> (#[trigger] reg[i]).id != id,
        id.len() == 0 ==> import::name_refusal(reg, id) == Some(
            "Instance name produces an empty ID"@,
        ),
        id.len() > 0 && (exists|i: int| 0 <= i < reg.len() && (#[trigger] reg[i]).id == id)
            ==> import::name_refusal(reg, id) == Some(
            "An instance named '"@ + id + "' already exists"@,
        ),
{
    state::lemma_slot(reg, id);
}

} // verus!
