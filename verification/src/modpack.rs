//! Modpacks of Modrinth.

use crate::config;
use crate::import;
use crate::import::FileJob;
use crate::import::JobModel;
use crate::import::Plan;
use crate::import::PlanModel;
use crate::import::Source;
use crate::paths;
use crate::properties;
use crate::slug;
use crate::state;
use crate::state::InstanceModel;
use crate::state::Registry;
use crate::text;
use vstd::prelude::*;

verus! {

/// What is asked of an import.
#[derive(Debug)]
pub struct ImportRequest {
    pub version_id: String,
    pub server_path: String,
    pub instance_name: String,
    pub port: u16,
}

/// A file of a version of a modpack.
#[derive(Debug)]
pub struct PackArchive {
    pub url: String,
    pub filename: String,
    pub primary: bool,
}

/// Where the first file stands that is marked as primary.
pub open spec fn primary_slot(files: Seq<PackArchive>) -> Option<int>
    decreases files.len(),
{
    if files.len() == 0 {
        None
    } else {
        match primary_slot(files.drop_last()) {
            Some(i) => Some(i),
            None => if files.last().primary {
                Some(files.len() - 1)
            } else {
                None
            },
        }
    }
}

proof fn lemma_primary_slot(files: Seq<PackArchive>, n: int)
    requires
        0 <= n <= files.len(),
        primary_slot(files.take(n)) is Some,
    ensures
        primary_slot(files) == primary_slot(files.take(n)),
    decreases files.len() - n,
{
    if n < files.len() {
        assert(files.take(n + 1).drop_last() =~= files.take(n));
        lemma_primary_slot(files, n + 1);
    } else {
        assert(files.take(n) =~= files);
    }
}

/// The archive of a version of a modpack: the file marked as primary.
pub fn mrpack_file(files: &Vec<PackArchive>) -> (r: Result<(String, String), String>)
    ensures
        match r {
            Ok((url, filename)) => primary_slot(files@) matches Some(i) && url@ == files@[i].url@
                && filename@ == files@[i].filename@,
            Err(e) => primary_slot(files@) is None && e@
                == "No primary file found in this version"@,
        },
{
    for i in 0..files.len()
        invariant
            primary_slot(files@.take(i as int)) is None,
    {
        assert(files@.take(i + 1).drop_last() =~= files@.take(i as int));
        assert(files@.take(i + 1).last() == files@[i as int]);
        if files[i].primary {
            proof {
                lemma_primary_slot(files@, i + 1);
            }
            return Ok((files[i].url.clone(), files[i].filename.clone()));
        }
    }
    assert(files@.take(files@.len() as int) =~= files@);
    Err("No primary file found in this version".to_string())
}

/// A file that the manifest of a modpack lists. `server` is what it says of servers.
#[derive(Debug)]
pub struct PackFile {
    pub path: String,
    pub sha512: Option<String>,
    pub downloads: Vec<String>,
    pub server: Option<String>,
}

/// The manifest of a modpack.
#[derive(Debug)]
pub struct PackIndex {
    pub name: String,
    pub dependencies: Vec<(String, String)>,
    pub files: Vec<PackFile>,
}

/// The loader that a modpack depends on, and its version: NeoForge before Forge before Fabric before
/// Quilt.
pub open spec fn loader_of(deps: Seq<(Seq<char>, Seq<char>)>) -> (
    Option<Seq<char>>,
    Option<Seq<char>>,
) {
    match properties::value_of(deps, "neoforge"@) {
        Some(v) => (Some("neoforge"@), Some(v)),
        None => match properties::value_of(deps, "forge"@) {
            Some(v) => (Some("forge"@), Some(v)),
            None => match properties::value_of(deps, "fabric-loader"@) {
                Some(v) => (Some("fabric"@), Some(v)),
                None => match properties::value_of(deps, "quilt-loader"@) {
                    Some(v) => (Some("quilt"@), Some(v)),
                    None => (None, None),
                },
            },
        },
    }
}

/// The loader that a modpack depends on, and its version.
pub fn detect_loader(deps: &Vec<(String, String)>) -> (r: (Option<String>, Option<String>))
    ensures
        (text::opt_view(r.0), text::opt_view(r.1)) == loader_of(properties::pairs_view(deps@)),
{
    if let Some(v) = properties::get(deps, "neoforge") {
        return (Some("neoforge".to_string()), Some(v));
    }
    if let Some(v) = properties::get(deps, "forge") {
        return (Some("forge".to_string()), Some(v));
    }
    if let Some(v) = properties::get(deps, "fabric-loader") {
        return (Some("fabric".to_string()), Some(v));
    }
    if let Some(v) = properties::get(deps, "quilt-loader") {
        return (Some("quilt".to_string()), Some(v));
    }
    (None, None)
}

/// Whether a file is for servers: unless the manifest says that they do not support it.
pub open spec fn for_server(f: PackFile) -> bool {
    match f.server {
        Some(s) => s@ != "unsupported"@,
        None => true,
    }
}

/// What is done with a file of a modpack: it goes where its path leads, and only below the folder of
/// the server.
pub open spec fn job_of(f: PackFile, server_path: Seq<char>) -> JobModel {
    let dest = paths::joined_path(server_path, f.path@);
    JobModel {
        label: f.path@,
        name: f.path@,
        dest,
        parent: paths::parent_of(dest),
        url: if f.downloads@.len() > 0 {
            Some(f.downloads@[0]@)
        } else {
            None
        },
        sha512: text::opt_view(f.sha512),
        safe: paths::leads_below(dest, server_path),
    }
}

/// What is done with the files of a modpack: those for servers, in the order of the manifest.
pub open spec fn jobs_of(files: Seq<PackFile>, server_path: Seq<char>) -> Seq<JobModel>
    decreases files.len(),
{
    if files.len() == 0 {
        Seq::empty()
    } else {
        let front = jobs_of(files.drop_last(), server_path);
        if for_server(files.last()) {
            front.push(job_of(files.last(), server_path))
        } else {
            front
        }
    }
}

/// What is done with the files of a modpack.
pub fn file_jobs(files: &Vec<PackFile>, server_path: &str) -> (r: Vec<FileJob>)
    ensures
        import::job_views(r@) == jobs_of(files@, server_path@),
{
    let mut r: Vec<FileJob> = Vec::new();
    assert(import::job_views(r@) =~= jobs_of(files@.take(0), server_path@));
    for i in 0..files.len()
        invariant
            import::job_views(r@) == jobs_of(files@.take(i as int), server_path@),
    {
        assert(files@.take(i + 1).drop_last() =~= files@.take(i as int));
        assert(files@.take(i + 1).last() == files@[i as int]);
        let ghost before = r@;
        let f = &files[i];
        let wanted = match &f.server {
            Some(s) => !text::same(s.as_str(), "unsupported"),
            None => true,
        };
        if wanted {
            let dest = paths::join(server_path, f.path.as_str());
            let safe = paths::stays_below(dest.as_str(), server_path);
            let parent = paths::parent(dest.as_str());
            let url = if f.downloads.len() > 0 {
                Some(f.downloads[0].clone())
            } else {
                None
            };
            r.push(
                FileJob {
                    label: f.path.clone(),
                    name: f.path.clone(),
                    dest,
                    parent,
                    url,
                    sha512: state::copied_opt(&f.sha512),
                    safe,
                },
            );
            assert(import::job_views(r@) =~= import::job_views(before).push(
                job_of(*f, server_path@),
            ));
        }
    }
    assert(files@.take(files@.len() as int) =~= files@);
    r
}

/// `Modpack: <name> — MC <version> | <loader>`.
pub open spec fn info_line(
    name: Seq<char>,
    mc_version: Seq<char>,
    loader: Option<Seq<char>>,
    loader_version: Option<Seq<char>>,
) -> Seq<char> {
    "Modpack: "@ + name + " — MC "@ + mc_version + " | "@ + import::loader_label(
        loader,
        loader_version,
    )
}

/// What is planned for a modpack: what is logged, and the plan or why there is none.
#[derive(Debug)]
pub struct Planned {
    pub log: Vec<String>,
    pub plan: Result<Plan, String>,
}

/// The plan for a modpack.
pub open spec fn plan_of(
    req: ImportRequest,
    project_id: Seq<char>,
    index: PackIndex,
    archive: Seq<u8>,
    mc_version: Seq<char>,
    data: Seq<char>,
) -> PlanModel {
    let id = slug::slug_of(req.instance_name@);
    let server_path = import::server_dir_of(req.server_path@, data, id);
    let (loader, loader_version) = loader_of(properties::pairs_view(index.dependencies@));
    PlanModel {
        source: Source::Modrinth,
        instance_id: id,
        display_name: req.instance_name@,
        server_path,
        instance_dir: config::folder_of(data, "instances"@, id),
        mc_version,
        loader,
        loader_version,
        port: req.port,
        project_id: Some(project_id),
        archive,
        jobs: jobs_of(index.files@, server_path),
    }
}

/// Plans the import of a modpack: it must tell its version of the game, and its name must give an
/// id that is free.
pub fn plan_import(
    req: &ImportRequest,
    project_id: &str,
    index: &PackIndex,
    archive: Vec<u8>,
    reg: &Registry,
    data: &str,
) -> (r: Planned)
    ensures
        match properties::value_of(properties::pairs_view(index.dependencies@), "minecraft"@) {
            Some(mc) => {
                let (loader, version) = loader_of(properties::pairs_view(index.dependencies@));
                &&& text::views(r.log@) == seq![info_line(index.name@, mc, loader, version)]
                &&& match r.plan {
                    Ok(p) => import::name_refusal(reg@, slug::slug_of(req.instance_name@)) is None
                        && p@ == plan_of(*req, project_id@, *index, archive@, mc, data@),
                    Err(e) => import::name_refusal(reg@, slug::slug_of(req.instance_name@)) == Some(
                        e@,
                    ),
                }
            },
            None => r.log@.len() == 0 && (r.plan matches Err(e) && e@
                == "Modpack has no minecraft version in dependencies"@),
        },
{
    let mc_version = match properties::get(&index.dependencies, "minecraft") {
        Some(v) => v,
        None => return Planned {
            log: Vec::new(),
            plan: Err("Modpack has no minecraft version in dependencies".to_string()),
        },
    };
    let (loader, loader_version) = detect_loader(&index.dependencies);
    let mut line = "Modpack: ".to_string();
    line.append(index.name.as_str());
    line.append(" — MC ");
    line.append(mc_version.as_str());
    line.append(" | ");
    let label = import::loader_text(&loader, &loader_version);
    line.append(label.as_str());
    let ghost told = line@;
    let mut log: Vec<String> = Vec::new();
    log.push(line);
    assert(text::views(log@) =~= seq![told]);
    let id = slug::slugify(req.instance_name.as_str());
    if let Err(e) = import::check_name(reg, id.as_str()) {
        return Planned { log, plan: Err(e) };
    }
    let server_path = import::server_dir(req.server_path.as_str(), data, id.as_str());
    let instance_dir = config::folder(data, "instances", id.as_str());
    let jobs = file_jobs(&index.files, server_path.as_str());
    Planned {
        log,
        plan: Ok(
            Plan {
                source: Source::Modrinth,
                instance_id: id,
                display_name: req.instance_name.clone(),
                server_path,
                instance_dir,
                mc_version,
                loader,
                loader_version,
                port: req.port,
                project_id: Some(project_id.to_string()),
                archive,
                jobs,
            },
        ),
    }
}

/// A plan never takes the id of an instance that is there already.
pub proof fn law_planned_id_is_free(reg: Seq<InstanceModel>, id: Seq<char>)
    requires
        import::name_refusal(reg, id) is None,
    ensures
        !state::known(reg, id),
        id.len() > 0,
{
}

} // verus!
