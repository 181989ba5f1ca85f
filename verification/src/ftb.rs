//! Modpacks of FTB.

use crate::config;
use crate::import;
use crate::import::FileJob;
use crate::import::JobModel;
use crate::import::Plan;
use crate::import::PlanModel;
use crate::import::Source;
use crate::modpack::Planned;
use crate::paths;
use crate::slug;
use crate::state::Registry;
use crate::text;
use vstd::prelude::*;

verus! {

/// What is asked of an import.
#[derive(Debug)]
pub struct FtbImportRequest {
    pub pack_id: u64,
    pub version_id: u64,
    pub server_path: String,
    pub instance_name: String,
    pub port: u16,
}

/// Something that a version of a modpack is made for.
#[derive(Debug)]
pub struct FtbTarget {
    pub name: String,
    pub version: String,
    pub kind: String,
}

/// A file of a modpack.
#[derive(Debug)]
pub struct FtbFile {
    pub id: u64,
    pub name: String,
    pub path: String,
    pub url: String,
    pub clientonly: bool,
}

/// A version of a modpack.
#[derive(Debug)]
pub struct FtbVersionDetails {
    pub targets: Vec<FtbTarget>,
    pub files: Vec<FtbFile>,
}

/// Where a version of a modpack is described.
pub open spec fn version_address(pack_id: nat, version_id: nat) -> Seq<char> {
    "https://api.modpacks.ch/public/modpack/"@ + text::digits(pack_id) + "/"@ + text::digits(
        version_id,
    )
}

/// Where a version of a modpack is described.
pub fn version_url(pack_id: u64, version_id: u64) -> (r: String)
    ensures
        r@ == version_address(pack_id as nat, version_id as nat),
{
    let mut u = "https://api.modpacks.ch/public/modpack/".to_string();
    let a = text::decimal(pack_id);
    let b = text::decimal(version_id);
    u.append(a.as_str());
    u.append("/");
    u.append(b.as_str());
    u
}

/// Whether a target is the game itself.
pub open spec fn is_game(t: FtbTarget) -> bool {
    t.kind@ == "game"@ && t.name@ == "minecraft"@
}

/// The version of the game that a modpack is made for.
pub open spec fn game_of(targets: Seq<FtbTarget>) -> Option<Seq<char>>
    decreases targets.len(),
{
    if targets.len() == 0 {
        None
    } else if is_game(targets[0]) {
        Some(targets[0].version@)
    } else {
        game_of(targets.skip(1))
    }
}

/// The loader that a modpack is made for, and its version.
pub open spec fn loader_of(targets: Seq<FtbTarget>) -> (Option<Seq<char>>, Option<Seq<char>>)
    decreases targets.len(),
{
    if targets.len() == 0 {
        (None, None)
    } else if targets[0].kind@ == "modloader"@ {
        (Some(targets[0].name@), Some(targets[0].version@))
    } else {
        loader_of(targets.skip(1))
    }
}

fn find_game(targets: &Vec<FtbTarget>) -> (r: Option<String>)
    ensures
        text::opt_view(r) == game_of(targets@),
{
    let n: usize = targets.len();
    let mut i: usize = 0;
    assert(targets@.skip(0) =~= targets@);
    while i < n
        invariant
            i <= n,
            n == targets@.len(),
            game_of(targets@) == game_of(targets@.skip(i as int)),
        decreases n - i,
    {
        assert(targets@.skip(i as int)[0] == targets@[i as int]);
        assert(targets@.skip(i as int).skip(1) =~= targets@.skip(i + 1));
        if text::same(targets[i].kind.as_str(), "game") && text::same(
            targets[i].name.as_str(),
            "minecraft",
        ) {
            return Some(targets[i].version.clone());
        }
        i += 1;
    }
    None
}

fn find_loader(targets: &Vec<FtbTarget>) -> (r: (Option<String>, Option<String>))
    ensures
        (text::opt_view(r.0), text::opt_view(r.1)) == loader_of(targets@),
{
    let n: usize = targets.len();
    let mut i: usize = 0;
    assert(targets@.skip(0) =~= targets@);
    while i < n
        invariant
            i <= n,
            n == targets@.len(),
            loader_of(targets@) == loader_of(targets@.skip(i as int)),
        decreases n - i,
    {
        assert(targets@.skip(i as int)[0] == targets@[i as int]);
        assert(targets@.skip(i as int).skip(1) =~= targets@.skip(i + 1));
        if text::same(targets[i].kind.as_str(), "modloader") {
            return (Some(targets[i].name.clone()), Some(targets[i].version.clone()));
        }
        i += 1;
    }
    (None, None)
}

/// The folder of a file below that of the server: without slashes around it, and without dots in
/// front.
pub open spec fn clean_path(path: Seq<char>) -> Seq<char> {
    let bare = text::stripped_back(text::stripped_front(path, '/'), '/');
    text::stripped_back(text::stripped_front(text::stripped_front(bare, '.'), '/'), '/')
}

fn cleaned(path: &str) -> (r: String)
    ensures
        r@ == clean_path(path@),
{
    let a = text::strip_front(path, '/');
    let b = text::strip_back(a.as_str(), '/');
    let c = text::strip_front(b.as_str(), '.');
    let d = text::strip_front(c.as_str(), '/');
    text::strip_back(d.as_str(), '/')
}

/// Where a file goes.
pub open spec fn dest_of(f: FtbFile, server_path: Seq<char>) -> Seq<char> {
    let folder = clean_path(f.path@);
    if folder.len() == 0 {
        paths::joined_path(server_path, f.name@)
    } else {
        paths::joined_path(paths::joined_path(server_path, folder), f.name@)
    }
}

/// Where a file comes from: from its own address, or from FTB where it has none.
pub open spec fn source_of(f: FtbFile, pack_id: nat, version_id: nat) -> Seq<char> {
    if text::begins(f.url@, "http"@) {
        f.url@
    } else {
        version_address(pack_id, version_id) + "/file/"@ + text::digits(f.id as nat)
    }
}

/// What is done with a file of a modpack.
pub open spec fn job_of(f: FtbFile, server_path: Seq<char>, pack_id: nat, version_id: nat) -> JobModel {
    let dest = dest_of(f, server_path);
    JobModel {
        label: f.path@ + "/"@ + f.name@,
        name: f.name@,
        dest,
        parent: paths::parent_of(dest),
        url: Some(source_of(f, pack_id, version_id)),
        sha512: None,
        safe: paths::inside(dest, server_path),
    }
}

/// What is done with the files of a modpack: those that are not for players alone, in order.
pub open spec fn jobs_of(
    files: Seq<FtbFile>,
    server_path: Seq<char>,
    pack_id: nat,
    version_id: nat,
) -> Seq<JobModel>
    decreases files.len(),
{
    if files.len() == 0 {
        Seq::empty()
    } else {
        let front = jobs_of(files.drop_last(), server_path, pack_id, version_id);
        if files.last().clientonly {
            front
        } else {
            front.push(job_of(files.last(), server_path, pack_id, version_id))
        }
    }
}

fn file_job(f: &FtbFile, server_path: &str, pack_id: u64, version_id: u64) -> (r: FileJob)
    ensures
        r@ == job_of(*f, server_path@, pack_id as nat, version_id as nat),
{
    let folder = cleaned(f.path.as_str());
    let dest = if folder.as_str().is_empty() {
        paths::join(server_path, f.name.as_str())
    } else {
        let d = paths::join(server_path, folder.as_str());
        paths::join(d.as_str(), f.name.as_str())
    };
    let safe = paths::is_inside(dest.as_str(), server_path);
    let parent = paths::parent(dest.as_str());
    let url = if text::starts_with(f.url.as_str(), "http") {
        f.url.clone()
    } else {
        let mut u = version_url(pack_id, version_id);
        let n = text::decimal(f.id);
        u.append("/file/");
        u.append(n.as_str());
        u
    };
    let mut label = f.path.clone();
    label.append("/");
    label.append(f.name.as_str());
    FileJob { label, name: f.name.clone(), dest, parent, url: Some(url), sha512: None, safe }
}

/// What is done with the files of a modpack.
pub fn file_jobs(files: &Vec<FtbFile>, server_path: &str, pack_id: u64, version_id: u64) -> (r: Vec<
    FileJob,
>)
    ensures
        import::job_views(r@) == jobs_of(
            files@,
            server_path@,
            pack_id as nat,
            version_id as nat,
        ),
{
    let mut r: Vec<FileJob> = Vec::new();
    assert(import::job_views(r@) =~= jobs_of(
        files@.take(0),
        server_path@,
        pack_id as nat,
        version_id as nat,
    ));
    for i in 0..files.len()
        invariant
            import::job_views(r@) == jobs_of(
                files@.take(i as int),
                server_path@,
                pack_id as nat,
                version_id as nat,
            ),
    {
        assert(files@.take(i + 1).drop_last() =~= files@.take(i as int));
        assert(files@.take(i + 1).last() == files@[i as int]);
        let ghost before = r@;
        if !files[i].clientonly {
            r.push(file_job(&files[i], server_path, pack_id, version_id));
            assert(import::job_views(r@) =~= import::job_views(before).push(r@.last()@));
        }
    }
    assert(files@.take(files@.len() as int) =~= files@);
    r
}

/// The plan for a modpack.
pub open spec fn plan_of(
    req: FtbImportRequest,
    version: FtbVersionDetails,
    mc_version: Seq<char>,
    data: Seq<char>,
) -> PlanModel {
    let id = slug::ascii_slug_of(req.instance_name@);
    let server_path = import::server_dir_of(req.server_path@, data, id);
    let (loader, loader_version) = loader_of(version.targets@);
    PlanModel {
        source: Source::Ftb,
        instance_id: id,
        display_name: req.instance_name@,
        server_path,
        instance_dir: config::folder_of(data, "instances"@, id),
        mc_version,
        loader,
        loader_version,
        port: req.port,
        project_id: None,
        archive: Seq::empty(),
        jobs: jobs_of(
            version.files@,
            server_path,
            req.pack_id as nat,
            req.version_id as nat,
        ),
    }
}

/// Plans the import of a modpack: it must tell its version of the game, and its name must give an
/// id that is free.
pub fn plan_import(
    req: &FtbImportRequest,
    version: &FtbVersionDetails,
    reg: &Registry,
    data: &str,
) -> (r: Planned)
    ensures
        match game_of(version.targets@) {
            Some(mc) => {
                let (loader, loader_version) = loader_of(version.targets@);
                let id = slug::ascii_slug_of(req.instance_name@);
                &&& text::views(r.log@) == seq![
                    "MC "@ + mc + " | "@ + import::loader_label(loader, loader_version),
                ]
                &&& match r.plan {
                    Ok(p) => import::name_refusal(reg@, id) is None && p@ == plan_of(
                        *req,
                        *version,
                        mc,
                        data@,
                    ),
                    Err(e) => import::name_refusal(reg@, id) == Some(e@),
                }
            },
            None => r.log@.len() == 0 && (r.plan matches Err(e) && e@
                == "No Minecraft version in FTB manifest"@),
        },
{
    let mc_version = match find_game(&version.targets) {
        Some(v) => v,
        None => return Planned {
            log: Vec::new(),
            plan: Err("No Minecraft version in FTB manifest".to_string()),
        },
    };
    let (loader, loader_version) = find_loader(&version.targets);
    let mut line = "MC ".to_string();
    line.append(mc_version.as_str());
    line.append(" | ");
    let label = import::loader_text(&loader, &loader_version);
    line.append(label.as_str());
    let ghost told = line@;
    let mut log: Vec<String> = Vec::new();
    log.push(line);
    assert(text::views(log@) =~= seq![told]);
    let id = slug::ascii_slugify(req.instance_name.as_str());
    if let Err(e) = import::check_name(reg, id.as_str()) {
        return Planned { log, plan: Err(e) };
    }
    let server_path = import::server_dir(req.server_path.as_str(), data, id.as_str());
    let instance_dir = config::folder(data, "instances", id.as_str());
    let jobs = file_jobs(&version.files, server_path.as_str(), req.pack_id, req.version_id);
    let archive: Vec<u8> = Vec::new();
    assert(archive@ =~= Seq::<u8>::empty());
    Planned {
        log,
        plan: Ok(
            Plan {
                source: Source::Ftb,
                instance_id: id,
                display_name: req.instance_name.clone(),
                server_path,
                instance_dir,
                mc_version,
                loader,
                loader_version,
                port: req.port,
                project_id: None,
                archive,
                jobs,
            },
        ),
    }
}

} // verus!
