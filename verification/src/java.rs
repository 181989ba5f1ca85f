//! Which Java a server needs, and where it is found.

use crate::paths;
use crate::slug;
use crate::text;
use vstd::prelude::*;

verus! {

/// The number at a place of a dotted version.
pub open spec fn version_part(version: Seq<char>, i: int) -> Option<nat> {
    let parts = text::pieces(version, '.', '.');
    if 0 <= i < parts.len() {
        text::uint(parts[i], u32::MAX as nat)
    } else {
        None
    }
}

/// The major version of Java for a version of the game like `1.20.4`.
pub open spec fn java_for(mc_version: Seq<char>) -> nat {
    let minor = match version_part(mc_version, 1) {
        Some(n) => n,
        None => 21,
    };
    let patch = match version_part(mc_version, 2) {
        Some(n) => n,
        None => 0,
    };
    if minor <= 16 {
        8
    } else if minor <= 19 || (minor == 20 && patch < 5) {
        17
    } else {
        21
    }
}

fn part_number(parts: &Vec<String>, i: usize, default: u32) -> (r: u32)
    ensures
        r == (if i < parts@.len() {
            match text::uint(parts@[i as int]@, u32::MAX as nat) {
                Some(n) => n,
                None => default as nat,
            }
        } else {
            default as nat
        }),
{
    if i < parts.len() {
        match text::parse_uint(parts[i].as_str(), u32::MAX as u64) {
            Some(n) => n as u32,
            None => default,
        }
    } else {
        default
    }
}

/// The major version of Java for a version of the game like `1.20.4`.
pub fn recommended_java(mc_version: &str) -> (r: u32)
    ensures
        r == java_for(mc_version@),
{
    let parts = text::split(mc_version, '.', '.');
    proof {
        let views = text::views(parts@);
        assert(1 < parts@.len() ==> views[1] == parts@[1]@);
        assert(2 < parts@.len() ==> views[2] == parts@[2]@);
    }
    let minor: u32 = part_number(&parts, 1, 21);
    let patch: u32 = part_number(&parts, 2, 0);
    if minor <= 16 {
        8
    } else if minor <= 19 || (minor == 20 && patch < 5) {
        17
    } else {
        21
    }
}

/// The major version that stands in a version like `21.0.3` or, in the old way, `1.8.0_292`.
pub open spec fn major_of(version: Seq<char>) -> Option<nat> {
    let rest = if text::begins(version, "1."@) {
        version.skip(2)
    } else {
        version
    };
    text::uint(text::pieces(rest, '.', '.')[0], u32::MAX as nat)
}

/// The major version that `java -version` tells: the version stands between the first two quotes.
pub open spec fn version_told(output: Seq<char>) -> Option<nat> {
    match text::halves(output, "\""@) {
        Some((_, rest)) => match text::halves(rest, "\""@) {
            Some((version, _)) => major_of(version),
            None => None,
        },
        None => None,
    }
}

/// The view of an optional version.
pub open spec fn opt_nat(r: Option<u32>) -> Option<nat> {
    match r {
        Some(n) => Some(n as nat),
        None => None,
    }
}

fn first_number(s: &str, a: char, b: char) -> (r: Option<u32>)
    ensures
        opt_nat(r) == text::uint(text::pieces(s@, a, b)[0], u32::MAX as nat),
{
    let parts = text::split(s, a, b);
    proof {
        text::lemma_pieces_some(s@, a, b);
        assert(text::views(parts@)[0] == parts@[0]@);
    }
    match text::parse_uint(parts[0].as_str(), u32::MAX as u64) {
        Some(n) => Some(n as u32),
        None => None,
    }
}

/// The major version that `java -version` tells.
pub fn parse_version_output(output: &str) -> (r: Option<u32>)
    ensures
        opt_nat(r) == version_told(output@),
{
    proof {
        reveal_strlit("1.");
    }
    let rest = match text::split_once(output, "\"") {
        Some((_, b)) => b,
        None => return None,
    };
    let version = match text::split_once(rest.as_str(), "\"") {
        Some((a, _)) => a,
        None => return None,
    };
    match text::strip_prefix(version.as_str(), "1.") {
        Some(old) => first_number(old.as_str(), '.', '.'),
        None => first_number(version.as_str(), '.', '.'),
    }
}

// ---------------------------------------------------------------------------
// Folders of Java
// ---------------------------------------------------------------------------

/// The version in the name of a folder that begins with a vendor.
pub open spec fn vendor_version(name: Seq<char>, vendor: Seq<char>) -> Option<nat> {
    if text::begins(name, vendor) {
        text::uint(
            text::pieces(name.skip(vendor.len() as int), '-', '.')[0],
            u32::MAX as nat,
        )
    } else {
        None
    }
}

/// The first of two that is there.
pub open spec fn either(a: Option<nat>, b: Option<nat>) -> Option<nat> {
    match a {
        Some(_) => a,
        None => b,
    }
}

/// The version in the name of a folder under `/usr/lib/jvm`, like `java-21-openjdk-amd64`.
pub open spec fn dir_version(name: Seq<char>) -> Option<nat> {
    either(
        vendor_version(name, "java-"@),
        either(
            vendor_version(name, "temurin-"@),
            either(
                vendor_version(name, "zulu-"@),
                either(
                    vendor_version(name, "corretto-"@),
                    either(
                        vendor_version(name, "microsoft-"@),
                        either(
                            vendor_version(name, "graalvm-jdk-"@),
                            either(
                                vendor_version(name, "liberica-"@),
                                either(
                                    vendor_version(name, "sapmachine-"@),
                                    vendor_version(name, "semeru-"@),
                                ),
                            ),
                        ),
                    ),
                ),
            ),
        ),
    )
}

fn find_vendor_version(name: &str, vendor: &str) -> (r: Option<u32>)
    ensures
        opt_nat(r) == vendor_version(name@, vendor@),
{
    match text::strip_prefix(name, vendor) {
        Some(rest) => first_number(rest.as_str(), '-', '.'),
        None => None,
    }
}

/// The version in the name of a folder under `/usr/lib/jvm`.
pub fn version_from_dir_name(name: &str) -> (r: Option<u32>)
    ensures
        opt_nat(r) == dir_version(name@),
{
    if let Some(v) = find_vendor_version(name, "java-") {
        return Some(v);
    }
    if let Some(v) = find_vendor_version(name, "temurin-") {
        return Some(v);
    }
    if let Some(v) = find_vendor_version(name, "zulu-") {
        return Some(v);
    }
    if let Some(v) = find_vendor_version(name, "corretto-") {
        return Some(v);
    }
    if let Some(v) = find_vendor_version(name, "microsoft-") {
        return Some(v);
    }
    if let Some(v) = find_vendor_version(name, "graalvm-jdk-") {
        return Some(v);
    }
    if let Some(v) = find_vendor_version(name, "liberica-") {
        return Some(v);
    }
    if let Some(v) = find_vendor_version(name, "sapmachine-") {
        return Some(v);
    }
    find_vendor_version(name, "semeru-")
}

/// The version in the name of a folder of SDKMAN, like `21.0.3-tem`; `current` has none.
pub open spec fn sdkman_version(name: Seq<char>) -> Option<nat> {
    if name == "current"@ {
        None
    } else {
        text::uint(text::pieces(name, '.', '-')[0], u32::MAX as nat)
    }
}

/// The version in the name of a folder of SDKMAN.
pub fn version_from_sdkman_name(name: &str) -> (r: Option<u32>)
    ensures
        opt_nat(r) == sdkman_version(name@),
{
    if text::same(name, "current") {
        None
    } else {
        first_number(name, '.', '-')
    }
}

/// A folder that may hold a Java: its name, the path of the program in it, and whether that exists.
#[derive(Debug)]
pub struct JavaDir {
    pub name: String,
    pub bin: String,
    pub exists: bool,
}

/// Whether a folder holds the Java that is looked for.
pub open spec fn holds(d: JavaDir, target: u32, sdkman: bool) -> bool {
    d.exists && (if sdkman {
        sdkman_version(d.name@)
    } else {
        dir_version(slug::lowercase(d.name@))
    }) == Some(target as nat)
}

/// The folder with the Java that is looked for; of several the one whose name comes first.
pub open spec fn chosen_dir(dirs: Seq<JavaDir>, target: u32, sdkman: bool) -> Option<int>
    decreases dirs.len(),
{
    if dirs.len() == 0 {
        None
    } else {
        let front = chosen_dir(dirs.drop_last(), target, sdkman);
        if !holds(dirs.last(), target, sdkman) {
            front
        } else {
            match front {
                Some(i) => if text::not_after(dirs[i].name@, dirs.last().name@) {
                    front
                } else {
                    Some(dirs.len() - 1)
                },
                None => Some(dirs.len() - 1),
            }
        }
    }
}

fn choose_dir(dirs: &Vec<JavaDir>, target: u32, sdkman: bool) -> (r: Option<String>)
    ensures
        match r {
            Some(p) => chosen_dir(dirs@, target, sdkman) matches Some(i) && p == dirs@[i].bin,
            None => chosen_dir(dirs@, target, sdkman) is None,
        },
{
    let mut best: Option<usize> = None;
    proof {
        law_chosen_java_fits(dirs@, target, sdkman);
    }
    for i in 0..dirs.len()
        invariant
            match best {
                Some(k) => k < i && chosen_dir(dirs@.take(i as int), target, sdkman) == Some(
                    k as int,
                ),
                None => chosen_dir(dirs@.take(i as int), target, sdkman) is None,
            },
    {
        assert(dirs@.take(i + 1).drop_last() =~= dirs@.take(i as int));
        assert(dirs@.take(i + 1).last() == dirs@[i as int]);
        let version = if sdkman {
            version_from_sdkman_name(dirs[i].name.as_str())
        } else {
            let lower = slug::to_lowercase(dirs[i].name.as_str());
            version_from_dir_name(lower.as_str())
        };
        let fits = match version {
            Some(v) => v == target,
            None => false,
        };
        if dirs[i].exists && fits {
            match best {
                Some(k) => {
                    assert(dirs@.take(i + 1)[k as int] == dirs@[k as int]);
                    if !text::le(dirs[k].name.as_str(), dirs[i].name.as_str()) {
                        best = Some(i);
                    }
                },
                None => {
                    best = Some(i);
                },
            }
        }
    }
    assert(dirs@.take(dirs@.len() as int) =~= dirs@);
    match best {
        Some(k) => Some(dirs[k].bin.clone()),
        None => None,
    }
}

/// The Java of a version among the folders under `/usr/lib/jvm`.
pub fn search_dir(dirs: &Vec<JavaDir>, target: u32) -> (r: Option<String>)
    ensures
        match r {
            Some(p) => chosen_dir(dirs@, target, false) matches Some(i) && p == dirs@[i].bin,
            None => chosen_dir(dirs@, target, false) is None,
        },
{
    choose_dir(dirs, target, false)
}

/// The Java of a version among the folders of SDKMAN.
pub fn search_sdkman(dirs: &Vec<JavaDir>, target: u32) -> (r: Option<String>)
    ensures
        match r {
            Some(p) => chosen_dir(dirs@, target, true) matches Some(i) && p == dirs@[i].bin,
            None => chosen_dir(dirs@, target, true) is None,
        },
{
    choose_dir(dirs, target, true)
}

/// The Java that is chosen is of the right version and its name comes before that of every other
/// one that is; and none is chosen only where none is right.
pub proof fn law_chosen_java_fits(dirs: Seq<JavaDir>, target: u32, sdkman: bool)
    ensures
        match chosen_dir(dirs, target, sdkman) {
            Some(i) => 0 <= i < dirs.len() && holds(dirs[i], target, sdkman) && forall|j: int|
                0 <= j < dirs.len() && holds(#[trigger] dirs[j], target, sdkman)
                    ==> text::not_after(dirs[i].name@, dirs[j].name@),
            None => forall|j: int|
                0 <= j < dirs.len() ==> !holds(#[trigger] dirs[j], target, sdkman),
        },
    decreases dirs.len(),
{
    if dirs.len() > 0 {
        let front = dirs.drop_last();
        law_chosen_java_fits(front, target, sdkman);
        let last = dirs.last();
        assert forall|j: int| 0 <= j < front.len() implies #[trigger] dirs[j] == front[j] by {}
        text::lemma_order_total(last.name@, last.name@);
        if holds(last, target, sdkman) {
            if let Some(i) = chosen_dir(front, target, sdkman) {
                text::lemma_order_total(front[i].name@, last.name@);
                if !text::not_after(front[i].name@, last.name@) {
                    assert forall|j: int|
                        0 <= j < dirs.len() && holds(
                            #[trigger] dirs[j],
                            target,
                            sdkman,
                        ) implies text::not_after(last.name@, dirs[j].name@) by {
                        if j < front.len() {
                            assert(front[j] == dirs[j]);
                            text::lemma_order_transitive(
                                last.name@,
                                front[i].name@,
                                dirs[j].name@,
                            );
                        }
                    }
                } else {
                    assert forall|j: int|
                        0 <= j < dirs.len() && holds(
                            #[trigger] dirs[j],
                            target,
                            sdkman,
                        ) implies text::not_after(dirs[i].name@, dirs[j].name@) by {
                        if j < front.len() {
                            assert(front[j] == dirs[j]);
                        }
                    }
                }
            } else {
                assert forall|j: int|
                    0 <= j < dirs.len() && holds(
                        #[trigger] dirs[j],
                        target,
                        sdkman,
                    ) implies text::not_after(last.name@, dirs[j].name@) by {
                    if j < front.len() {
                        assert(front[j] == dirs[j]);
                    }
                }
            }
        } else {
            assert forall|j: int| 0 <= j < dirs.len() && holds(#[trigger] dirs[j], target, sdkman) implies j
                < front.len() by {}
        }
    }
}

/// `dirs::home_dir`: the folder of the user who runs the manager, where the environment tells one.
/// It depends on the environment, so nothing is claimed of it.
#[verifier::external_body]
fn home_dir() -> (r: Option<String>) {
    dirs::home_dir().map(|p| p.to_string_lossy().into_owned())
}

/// The folder of SDKMAN in the folder of the user.
pub open spec fn sdkman_dir_in(home: Seq<char>) -> Seq<char> {
    paths::joined_path(home, ".sdkman/candidates/java"@)
}

/// The folder of SDKMAN, where the folder of the user is known.
pub fn sdkman_dir() -> (r: Option<String>)
    ensures
        r matches Some(p) ==> exists|home: Seq<char>| p@ == sdkman_dir_in(home),
{
    let home = home_dir();
    sdkman_dir_from(home)
}

/// The folder of SDKMAN in a folder of the user.
pub fn sdkman_dir_from(home: Option<String>) -> (r: Option<String>)
    ensures
        text::opt_view(r) == match home {
            Some(h) => Some(sdkman_dir_in(h@)),
            None => None,
        },
{
    match home {
        Some(h) => Some(paths::join(h.as_str(), ".sdkman/candidates/java")),
        None => None,
    }
}

/// Where Homebrew puts a version of Java.
pub open spec fn brew_java(target: nat) -> Seq<char> {
    "/opt/homebrew/opt/openjdk@"@ + text::digits(target) + "/bin/java"@
}

/// Where Homebrew puts a version of Java.
pub fn brew_path(target: u32) -> (r: String)
    ensures
        r@ == brew_java(target as nat),
{
    let mut p = "/opt/homebrew/opt/openjdk@".to_string();
    let n = text::decimal(target as u64);
    p.append(n.as_str());
    p.append("/bin/java");
    p
}

/// The Java that a server has to be told of: none where the one of the system is right, and else
/// the first that was found. `system` and `brew` are the versions that those two tell.
pub fn find_java(
    target: u32,
    system: Option<u32>,
    jvm: Option<String>,
    sdkman: Option<String>,
    brew: Option<u32>,
) -> (r: Option<String>)
    ensures
        text::opt_view(r) == (if system == Some(target) {
            None
        } else if jvm is Some {
            text::opt_view(jvm)
        } else if sdkman is Some {
            text::opt_view(sdkman)
        } else if brew == Some(target) {
            Some(brew_java(target as nat))
        } else {
            None
        }),
{
    if let Some(v) = system {
        if v == target {
            return None;
        }
    }
    if jvm.is_some() {
        return jvm;
    }
    if sdkman.is_some() {
        return sdkman;
    }
    match brew {
        Some(v) => if v == target {
            Some(brew_path(target))
        } else {
            None
        },
        None => None,
    }
}

} // verus!
