//! Zip archives of modpacks: the manifest, and the files that go over those of the server.

use crate::paths;
use crate::text;
use vstd::prelude::*;

verus! {

// ---------------------------------------------------------------------------
// Reading an archive
// ---------------------------------------------------------------------------

/// The view of a count, or of why there is none.
pub open spec fn count_view(r: Result<usize, String>) -> Result<nat, Seq<char>> {
    match r {
        Ok(n) => Ok(n as nat),
        Err(e) => Err(e@),
    }
}

/// How many entries `zip::ZipArchive::new` finds in an archive, or why it cannot be read.
pub uninterp spec fn zip_count(bytes: Seq<u8>) -> Result<nat, Seq<char>>;

/// `zip::ZipArchive::len` of an archive that `zip::ZipArchive::new` opens: the count, or the error,
/// depends on the bytes alone.
#[verifier::external_body]
fn open_count(bytes: &Vec<u8>) -> (r: Result<usize, String>)
    ensures
        count_view(r) == zip_count(bytes@),
{
    match zip::ZipArchive::new(std::io::Cursor::new(bytes.as_slice())) {
        Ok(a) => Ok(a.len()),
        Err(e) => Err(e.to_string()),
    }
}

/// The view of the name of an entry and whether it is a folder, or of why it cannot be read.
pub open spec fn entry_view(r: Result<(String, bool), String>) -> Result<
    (Seq<char>, bool),
    Seq<char>,
> {
    match r {
        Ok((n, d)) => Ok((n@, d)),
        Err(e) => Err(e@),
    }
}

/// The name of the entry that `zip::ZipArchive::by_index` finds and whether it is a folder, or why
/// it cannot be read.
pub uninterp spec fn zip_entry(bytes: Seq<u8>, index: nat) -> Result<(Seq<char>, bool), Seq<char>>;

/// `zip::ZipArchive::by_index`, and `name` and `is_dir` of what it finds: they depend on the bytes
/// and the index alone.
#[verifier::external_body]
fn open_entry(bytes: &Vec<u8>, index: usize) -> (r: Result<(String, bool), String>)
    ensures
        entry_view(r) == zip_entry(bytes@, index as nat),
{
    let mut a = zip::ZipArchive::new(std::io::Cursor::new(bytes.as_slice())).map_err(
        |e| e.to_string(),
    )?;
    let f = a.by_index(index).map_err(|e| e.to_string())?;
    Ok((f.name().to_string(), f.is_dir()))
}

/// The view of the contents of an entry, or of why they cannot be read.
pub open spec fn data_view(r: Result<Vec<u8>, String>) -> Result<Seq<u8>, Seq<char>> {
    match r {
        Ok(d) => Ok(d@),
        Err(e) => Err(e@),
    }
}

/// The contents of the entry that `zip::ZipArchive::by_index` finds, or why they cannot be read.
pub uninterp spec fn zip_data(bytes: Seq<u8>, index: nat) -> Result<Seq<u8>, Seq<char>>;

/// `zip::ZipArchive::by_index`, read to its end: the contents depend on the bytes and the index
/// alone.
#[verifier::external_body]
fn open_data(bytes: &Vec<u8>, index: usize) -> (r: Result<Vec<u8>, String>)
    ensures
        data_view(r) == zip_data(bytes@, index as nat),
{
    let mut a = zip::ZipArchive::new(std::io::Cursor::new(bytes.as_slice())).map_err(
        |e| e.to_string(),
    )?;
    let mut f = a.by_index(index).map_err(|e| e.to_string())?;
    let mut data = Vec::new();
    std::io::Read::read_to_end(&mut f, &mut data).map_err(|e| e.to_string())?;
    Ok(data)
}

/// What looking for the text of an entry comes to.
#[derive(Debug)]
pub enum NamedText {
    /// The archive cannot be read.
    Broken(String),
    /// There is no such entry.
    Missing,
    /// There is one, but its text cannot be read.
    Unreadable(String),
    Text(String),
}

/// The view of what looking for the text of an entry comes to.
pub enum NamedModel {
    Broken(Seq<char>),
    Missing,
    Unreadable(Seq<char>),
    Text(Seq<char>),
}

impl View for NamedText {
    type V = NamedModel;

    open spec fn view(&self) -> NamedModel {
        match *self {
            NamedText::Broken(e) => NamedModel::Broken(e@),
            NamedText::Missing => NamedModel::Missing,
            NamedText::Unreadable(e) => NamedModel::Unreadable(e@),
            NamedText::Text(t) => NamedModel::Text(t@),
        }
    }
}

/// The text of the entry that `zip::ZipArchive::by_name` finds.
pub uninterp spec fn zip_text(bytes: Seq<u8>, name: Seq<char>) -> NamedModel;

/// `zip::ZipArchive::by_name`, read as text: what it comes to depends on the bytes and the name
/// alone.
#[verifier::external_body]
fn open_text(bytes: &Vec<u8>, name: &str) -> (r: NamedText)
    ensures
        r@ == zip_text(bytes@, name@),
{
    let mut a = match zip::ZipArchive::new(std::io::Cursor::new(bytes.as_slice())) {
        Ok(a) => a,
        Err(e) => return NamedText::Broken(e.to_string()),
    };
    let mut f = match a.by_name(name) {
        Ok(f) => f,
        Err(_) => return NamedText::Missing,
    };
    let mut text = String::new();
    match std::io::Read::read_to_string(&mut f, &mut text) {
        Ok(_) => NamedText::Text(text),
        Err(e) => NamedText::Unreadable(e.to_string()),
    }
}

/// How many entries an archive has.
pub fn entry_count(bytes: &Vec<u8>) -> (r: Result<usize, String>)
    ensures
        count_view(r) == zip_count(bytes@),
{
    open_count(bytes)
}

/// The name of an entry, and whether it is a folder.
pub fn entry_at(bytes: &Vec<u8>, index: usize) -> (r: Result<(String, bool), String>)
    ensures
        entry_view(r) == zip_entry(bytes@, index as nat),
{
    open_entry(bytes, index)
}

/// The contents of an entry.
pub fn entry_data(bytes: &Vec<u8>, index: usize) -> (r: Result<Vec<u8>, String>)
    ensures
        data_view(r) == zip_data(bytes@, index as nat),
{
    open_data(bytes, index)
}

// ---------------------------------------------------------------------------
// The manifest
// ---------------------------------------------------------------------------

/// The text of the manifest, or what is said where there is none.
pub open spec fn manifest_of(found: NamedModel) -> Result<Seq<char>, Seq<char>> {
    match found {
        NamedModel::Broken(e) => Err("Failed to open mrpack archive: "@ + e),
        NamedModel::Missing => Err("modrinth.index.json not found in mrpack"@),
        NamedModel::Unreadable(e) => Err("Failed to read manifest: "@ + e),
        NamedModel::Text(t) => Ok(t),
    }
}

/// The view of a text, or of what is said where there is none.
pub open spec fn text_view(r: Result<String, String>) -> Result<Seq<char>, Seq<char>> {
    match r {
        Ok(t) => Ok(t@),
        Err(e) => Err(e@),
    }
}

/// `<what><e>`.
pub fn error_text(what: &str, e: &str) -> (r: String)
    ensures
        r@ == what@ + e@,
{
    let mut m = what.to_string();
    m.append(e);
    m
}

/// The text of the manifest, from what looking for it came to.
pub fn take_manifest(found: NamedText) -> (r: Result<String, String>)
    ensures
        text_view(r) == manifest_of(found@),
{
    match found {
        NamedText::Broken(e) => Err(error_text("Failed to open mrpack archive: ", e.as_str())),
        NamedText::Missing => Err("modrinth.index.json not found in mrpack".to_string()),
        NamedText::Unreadable(e) => Err(error_text("Failed to read manifest: ", e.as_str())),
        NamedText::Text(t) => Ok(t),
    }
}

/// The text of the manifest of a modpack.
pub fn parse_mrpack_index(bytes: &Vec<u8>) -> (r: Result<String, String>)
    ensures
        text_view(r) == manifest_of(zip_text(bytes@, "modrinth.index.json"@)),
{
    let found = open_text(bytes, "modrinth.index.json");
    take_manifest(found)
}

// ---------------------------------------------------------------------------
// Files that go over those of the server
// ---------------------------------------------------------------------------

/// Where an entry goes.
#[derive(Debug)]
pub enum Placement {
    /// It is not for the server.
    Skip,
    /// It would not stay in the folder of the server.
    Unsafe,
    At(String),
}

/// The view of where an entry goes.
pub enum PlacementModel {
    Skip,
    Unsafe,
    At(Seq<char>),
}

impl View for Placement {
    type V = PlacementModel;

    open spec fn view(&self) -> PlacementModel {
        match *self {
            Placement::Skip => PlacementModel::Skip,
            Placement::Unsafe => PlacementModel::Unsafe,
            Placement::At(p) => PlacementModel::At(p@),
        }
    }
}

/// The part of a name behind `overrides/` or `server-overrides/`.
pub open spec fn override_part(name: Seq<char>) -> Option<Seq<char>> {
    if text::begins(name, "overrides/"@) {
        Some(name.skip("overrides/"@.len() as int))
    } else if text::begins(name, "server-overrides/"@) {
        Some(name.skip("server-overrides/"@.len() as int))
    } else {
        None
    }
}

/// Where an entry goes: below the folder of the server, by its name behind `overrides/` or
/// `server-overrides/`. A name that leaves the folder, by `..` or as an absolute path, is refused.
pub open spec fn placement_of(name: Seq<char>, dest: Seq<char>) -> PlacementModel {
    match override_part(name) {
        Some(part) => if part.len() == 0 {
            PlacementModel::Skip
        } else if paths::inside(paths::joined_path(dest, part), dest) {
            PlacementModel::At(paths::joined_path(dest, part))
        } else {
            PlacementModel::Unsafe
        },
        None => PlacementModel::Skip,
    }
}

/// Where an entry goes.
pub fn place(name: &str, dest: &str) -> (r: Placement)
    ensures
        r@ == placement_of(name@, dest@),
{
    let part = match text::strip_prefix(name, "overrides/") {
        Some(p) => p,
        None => match text::strip_prefix(name, "server-overrides/") {
            Some(p) => p,
            None => return Placement::Skip,
        },
    };
    if part.as_str().is_empty() {
        return Placement::Skip;
    }
    let path = paths::join(dest, part.as_str());
    if paths::is_inside(path.as_str(), dest) {
        Placement::At(path)
    } else {
        Placement::Unsafe
    }
}

/// Whatever is placed stays below the folder of the server, once every `..` is followed; a relative
/// name is refused only where it leaves that folder.
pub proof fn law_placed_files_stay_below(name: Seq<char>, dest: Seq<char>)
    ensures
        placement_of(name, dest) matches PlacementModel::At(p) ==> paths::leads_below(p, dest),
        (override_part(name) matches Some(part) && part.len() > 0 && !paths::absolute(part)) ==> (
        placement_of(name, dest) is Unsafe <==> !paths::leads_below(
            paths::joined_path(dest, override_part(name).unwrap()),
            dest,
        )),
{
    if let Some(part) = override_part(name) {
        if !paths::absolute(part) {
            paths::law_join_stays_under(dest, part);
        }
    }
}

} // verus!
