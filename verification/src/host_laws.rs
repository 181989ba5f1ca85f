//! What is told of Java, of a server's files and of the folders of the manager, in plain terms.

use crate::config;
use crate::config::InstanceConfig;
use crate::config::LoaderModel;
use crate::java;
use crate::java::JavaDir;
use crate::path_laws;
use crate::paths;
use crate::properties;
use crate::slug;
use crate::text;
use crate::text_laws;
use vstd::prelude::*;

verus! {

proof fn lemma_digits_only(n: nat, c: char)
    requires
        c < '0' || c > '9',
    ensures
        !text::digits(n).contains(c),
        text::digits(n).len() > 0,
{
    text_laws::law_numbers_are_read_back(n, n, n);
}

proof fn lemma_mark(a: Seq<char>, p: Seq<char>, b: Seq<char>)
    requires
        p.len() == 1,
        !a.contains(p[0]),
    ensures
        text::halves(a + p + b, p) == Some((a, b)),
{
    assert forall|j: int| 0 <= j < a.len() implies #[trigger] (a + p).subrange(j, j + p.len())
        != p by {
        assert((a + p).subrange(j, j + p.len())[0] == a[j]);
    }
    text_laws::law_found_behind(a, p, b);
}

// ---------------------------------------------------------------------------
// Java
// ---------------------------------------------------------------------------

/// The Java that a version of the game needs: eight up to 1.16, seventeen up to 1.20.4, and
/// twenty-one from there on.
pub proof fn law_java_of_the_game(game: Seq<char>, minor: nat, patch: nat)
    requires
        !game.contains('.'),
        minor <= u32::MAX,
        patch <= u32::MAX,
    ensures
        ({
            let short = game + "."@ + text::digits(minor);
            let long = game + "."@ + text::digits(minor) + "."@ + text::digits(patch);
            &&& minor <= 16 ==> java::java_for(short) == 8 && java::java_for(long) == 8
            &&& 17 <= minor <= 19 ==> java::java_for(short) == 17 && java::java_for(long) == 17
            &&& minor == 20 ==> java::java_for(short) == 17
            &&& minor == 20 && patch <= 4 ==> java::java_for(long) == 17
            &&& minor == 20 && patch >= 5 ==> java::java_for(long) == 21
            &&& minor >= 21 ==> java::java_for(short) == 21 && java::java_for(long) == 21
        }),
        java::java_for(game) == 21,
{
    reveal_strlit(".");
    let m = text::digits(minor);
    let p = text::digits(patch);
    lemma_digits_only(minor, '.');
    lemma_digits_only(patch, '.');
    text_laws::law_numbers_are_read_back(minor, minor, u32::MAX as nat);
    text_laws::law_numbers_are_read_back(patch, patch, u32::MAX as nat);
    text::lemma_pieces_whole(game, '.');
    text::lemma_pieces_whole(m, '.');
    text::lemma_pieces_whole(p, '.');
    let short = game + "."@ + m;
    assert(short =~= game.push('.') + m);
    text::lemma_pieces_around(game, m, '.');
    assert(seq![game] + seq![m] =~= seq![game, m]);
    let tail = m.push('.') + p;
    let long = game + "."@ + m + "."@ + p;
    assert(long =~= game.push('.') + tail);
    text::lemma_pieces_around(game, tail, '.');
    text::lemma_pieces_around(m, p, '.');
    assert(text::pieces(long, '.', '.') =~= seq![game, m, p]);
}

/// What stands behind the third part of a version does not count; a second part that is no number
/// counts as a new version, and a third one that is none as zero.
pub proof fn law_java_of_other_versions(
    game: Seq<char>,
    minor: Seq<char>,
    patch: Seq<char>,
    rest: Seq<char>,
)
    requires
        !game.contains('.'),
        !minor.contains('.'),
        !patch.contains('.'),
    ensures
        ({
            let two = game + "."@ + minor;
            let three = game + "."@ + minor + "."@ + patch;
            let more = game + "."@ + minor + "."@ + patch + "."@ + rest;
            let n = text::uint(minor, u32::MAX as nat);
            &&& java::java_for(more) == java::java_for(three)
            &&& n is None ==> java::java_for(two) == 21 && java::java_for(three) == 21
            &&& text::uint(patch, u32::MAX as nat) is None ==> java::java_for(three)
                == java::java_for(two)
        }),
{
    reveal_strlit(".");
    text::lemma_pieces_whole(game, '.');
    text::lemma_pieces_whole(minor, '.');
    text::lemma_pieces_whole(patch, '.');
    text::lemma_pieces_some(rest, '.', '.');
    let two = game + "."@ + minor;
    assert(two =~= game.push('.') + minor);
    text::lemma_pieces_around(game, minor, '.');
    assert(text::pieces(two, '.', '.') =~= seq![game, minor]);
    let tail = minor.push('.') + patch;
    let three = game + "."@ + minor + "."@ + patch;
    assert(three =~= game.push('.') + tail);
    text::lemma_pieces_around(game, tail, '.');
    text::lemma_pieces_around(minor, patch, '.');
    assert(text::pieces(three, '.', '.') =~= seq![game, minor, patch]);
    let last = patch.push('.') + rest;
    let long = minor.push('.') + last;
    let more = game + "."@ + minor + "."@ + patch + "."@ + rest;
    assert(more =~= game.push('.') + long);
    text::lemma_pieces_around(game, long, '.');
    text::lemma_pieces_around(minor, last, '.');
    text::lemma_pieces_around(patch, rest, '.');
    assert(text::pieces(more, '.', '.') =~= seq![game, minor, patch] + text::pieces(
        rest,
        '.',
        '.',
    ));
}

/// The Java that a program tells of itself: the first quoted text is its version, whose first number
/// counts, or the second where the first one is a one.
pub proof fn law_java_tells_its_version(
    front: Seq<char>,
    n: nat,
    rest: Seq<char>,
    end: Seq<char>,
)
    requires
        !front.contains('"'),
        !rest.contains('"'),
        n <= u32::MAX,
    ensures
        java::version_told(front + "\""@ + ("1."@ + text::digits(n) + "."@ + rest) + "\""@ + end)
            == Some(n),
        n != 1 ==> java::version_told(
            front + "\""@ + (text::digits(n) + "."@ + rest) + "\""@ + end,
        ) == Some(n),
        java::version_told(front + "\""@ + text::digits(n) + "\""@ + end) == Some(n),
        java::version_told(front) is None,
        java::version_told(front + "\""@ + rest) is None,
{
    reveal_strlit("\"");
    reveal_strlit(".");
    reveal_strlit("1.");
    let d = text::digits(n);
    let one = "1."@;
    lemma_digits_only(n, '.');
    lemma_digits_only(n, '"');
    text_laws::law_numbers_are_read_back(n, 1, u32::MAX as nat);
    let old = one + d + "."@ + rest;
    let new = d + "."@ + rest;
    lemma_quoted(front, old, end);
    lemma_quoted(front, new, end);
    lemma_quoted(front, d, end);
    assert(old =~= one + new);
    text_laws::law_begins_and_ends(one, new, old);
    assert(old.skip(2) =~= new);
    assert(new =~= d.push('.') + rest);
    text_laws::law_first_piece(d, '.', '.', '.', rest);
    text_laws::law_begins_and_ends(one, new, new);
    text_laws::law_begins_and_ends(one, new, d);
    if text::begins(new, one) {
        assert(new[0] == '1' && new[1] == '.');
        if d.len() >= 2 {
            assert(new[1] == d[1]);
            assert(d.contains(d[1]));
        }
        assert(d.len() == 1);
        assert(d[0] == '1');
        assert(text::digits(1) =~= seq!['1']);
        assert(d =~= text::digits(1));
        assert(n == 1);
    }
    if text::begins(d, one) {
        assert(d[1] == '.');
        assert(d.contains(d[1]));
    }
    text_laws::law_halves_make_the_whole(front, "\""@);
    if let Some((a, b)) = text::halves(front, "\""@) {
        assert(front[a.len() as int] == '"');
    }
    lemma_mark(front, "\""@, rest);
    text_laws::law_halves_make_the_whole(rest, "\""@);
    if let Some((a, b)) = text::halves(rest, "\""@) {
        assert(rest[a.len() as int] == '"');
    }
}

proof fn lemma_quoted(front: Seq<char>, v: Seq<char>, end: Seq<char>)
    ensures
        !front.contains('"') && !v.contains('"') ==> java::version_told(
            front + "\""@ + v + "\""@ + end,
        ) == java::major_of(v),
{
    reveal_strlit("\"");
    if !front.contains('"') && !v.contains('"') {
        let q = "\""@;
        let rest = v + q + end;
        assert(front + q + v + q + end =~= front + q + rest);
        lemma_mark(front, q, rest);
        lemma_mark(v, q, end);
    }
}

/// The makers of Java whose folders are known, as they name them.
pub open spec fn vendors() -> Seq<Seq<char>> {
    seq![
        "java-"@,
        "temurin-"@,
        "zulu-"@,
        "corretto-"@,
        "microsoft-"@,
        "graalvm-jdk-"@,
        "liberica-"@,
        "sapmachine-"@,
        "semeru-"@,
    ]
}

proof fn lemma_front(s: Seq<char>, p: Seq<char>)
    requires
        p.len() >= 2,
    ensures
        text::begins(s, p) ==> s.len() >= 2 && s[0] == p[0] && s[1] == p[1],
{
    text_laws::law_begins_and_ends(p, s, s);
    if text::begins(s, p) {
        assert(s[0] == (p + s.skip(p.len() as int))[0]);
        assert(s[1] == (p + s.skip(p.len() as int))[1]);
    }
}

/// A folder of Java tells its version behind the name of its maker, up to a dash or a dot.
pub proof fn law_folders_of_java(k: int, n: nat, c: char, rest: Seq<char>)
    requires
        0 <= k < vendors().len(),
        n <= u32::MAX,
        c == '-' || c == '.',
    ensures
        java::dir_version(vendors()[k] + text::digits(n)) == Some(n),
        java::dir_version(vendors()[k] + (text::digits(n).push(c) + rest)) == Some(n),
{
    let d = text::digits(n);
    let v = vendors()[k];
    lemma_digits_only(n, '.');
    lemma_digits_only(n, '-');
    text_laws::law_numbers_are_read_back(n, n, u32::MAX as nat);
    text_laws::law_first_piece(d, '-', '.', c, rest);
    lemma_vendor(k, d);
    lemma_vendor(k, d.push(c) + rest);
}

proof fn lemma_vendor(k: int, tail: Seq<char>)
    requires
        0 <= k < vendors().len(),
    ensures
        text::uint(text::pieces(tail, '-', '.')[0], u32::MAX as nat) is Some ==> java::dir_version(
            vendors()[k] + tail,
        ) == text::uint(text::pieces(tail, '-', '.')[0], u32::MAX as nat),
{
    reveal_strlit("java-");
    reveal_strlit("temurin-");
    reveal_strlit("zulu-");
    reveal_strlit("corretto-");
    reveal_strlit("microsoft-");
    reveal_strlit("graalvm-jdk-");
    reveal_strlit("liberica-");
    reveal_strlit("sapmachine-");
    reveal_strlit("semeru-");
    let v = vendors()[k];
    let s = v + tail;
    text_laws::law_begins_and_ends(v, tail, s);
    assert(s.skip(v.len() as int) =~= tail);
    lemma_front(s, "java-"@);
    lemma_front(s, "temurin-"@);
    lemma_front(s, "zulu-"@);
    lemma_front(s, "corretto-"@);
    lemma_front(s, "microsoft-"@);
    lemma_front(s, "graalvm-jdk-"@);
    lemma_front(s, "liberica-"@);
    lemma_front(s, "sapmachine-"@);
    lemma_front(s, "semeru-"@);
    assert(s[0] == v[0] && s[1] == v[1]);
}

/// Nothing is told by a folder whose name begins with none of the makers.
pub proof fn law_other_folders(name: Seq<char>)
    requires
        forall|k: int, r: Seq<char>|
            0 <= k < vendors().len() ==> name != #[trigger] (vendors()[k] + r),
    ensures
        java::dir_version(name) is None,
{
    assert forall|k: int| 0 <= k < vendors().len() implies !text::begins(
        name,
        #[trigger] vendors()[k],
    ) by {
        let v = vendors()[k];
        text_laws::law_begins_and_ends(v, name, name);
        if text::begins(name, v) {
            assert(name == vendors()[k] + name.skip(v.len() as int));
        }
    }
    let vs = vendors();
    assert(vs[0] == "java-"@ && vs[1] == "temurin-"@ && vs[2] == "zulu-"@ && vs[3] == "corretto-"@
        && vs[4] == "microsoft-"@ && vs[5] == "graalvm-jdk-"@ && vs[6] == "liberica-"@ && vs[7]
        == "sapmachine-"@ && vs[8] == "semeru-"@);
}

/// A candidate of SDKMAN tells its version up to the first dot or dash; the link to the one in use
/// tells none.
pub proof fn law_candidates_of_sdkman(n: nat, c: char, rest: Seq<char>)
    requires
        n <= u32::MAX,
        c == '-' || c == '.',
    ensures
        java::sdkman_version(text::digits(n)) == Some(n),
        java::sdkman_version(text::digits(n).push(c) + rest) == Some(n),
        java::sdkman_version("current"@) is None,
{
    let d = text::digits(n);
    lemma_digits_only(n, '.');
    lemma_digits_only(n, '-');
    text_laws::law_numbers_are_read_back(n, n, u32::MAX as nat);
    text_laws::law_first_piece(d, '.', '-', c, rest);
    reveal_strlit("current");
    assert('0' <= d[0] <= '9');
    assert((d.push(c) + rest)[0] == d[0]);
}

/// A Java is found just where some folder holds one of the right version, and it is of that version.
pub proof fn law_java_is_found(dirs: Seq<JavaDir>, target: u32)
    ensures
        match java::chosen_dir(dirs, target, false) {
            Some(i) => 0 <= i < dirs.len() && dirs[i].exists && java::dir_version(
                slug::lowercase(dirs[i].name@),
            ) == Some(target as nat),
            None => forall|j: int|
                0 <= j < dirs.len() && (#[trigger] dirs[j]).exists ==> java::dir_version(
                    slug::lowercase(dirs[j].name@),
                ) != Some(target as nat),
        },
        match java::chosen_dir(dirs, target, true) {
            Some(i) => 0 <= i < dirs.len() && dirs[i].exists && java::sdkman_version(dirs[i].name@)
                == Some(target as nat),
            None => forall|j: int|
                0 <= j < dirs.len() && (#[trigger] dirs[j]).exists ==> java::sdkman_version(
                    dirs[j].name@,
                ) != Some(target as nat),
        },
{
    java::law_chosen_java_fits(dirs, target, false);
    java::law_chosen_java_fits(dirs, target, true);
    if java::chosen_dir(dirs, target, false) is None {
        assert forall|j: int| 0 <= j < dirs.len() && (#[trigger] dirs[j]).exists implies
            java::dir_version(slug::lowercase(dirs[j].name@)) != Some(target as nat) by {
            assert(!java::holds(dirs[j], target, false));
        }
    }
    if java::chosen_dir(dirs, target, true) is None {
        assert forall|j: int| 0 <= j < dirs.len() && (#[trigger] dirs[j]).exists implies
            java::sdkman_version(dirs[j].name@) != Some(target as nat) by {
            assert(!java::holds(dirs[j], target, true));
        }
    }
}

/// Where Java is looked for besides.
pub proof fn law_places_of_java(home: Seq<char>, n: nat)
    requires
        home.len() > 0,
        home.last() != '/',
    ensures
        java::sdkman_dir_in(home) == home.push('/') + ".sdkman/candidates/java"@,
        java::brew_java(n) == "/opt/homebrew/opt/openjdk@"@ + text::digits(n) + "/bin/java"@,
{
    reveal_strlit(".sdkman/candidates/java");
    path_laws::law_joining(home, ".sdkman/candidates/java"@);
}

// ---------------------------------------------------------------------------
// Start scripts
// ---------------------------------------------------------------------------

/// Whether a text can stand in front of a mark without holding the mark or a beginning of it that the
/// mark itself would finish.
pub open spec fn free_of(front: Seq<char>, mark: Seq<char>) -> bool {
    forall|j: int|
        0 <= j < front.len() ==> #[trigger] (front + mark).subrange(j, j + mark.len()) != mark
}

proof fn lemma_behind(front: Seq<char>, mark: Seq<char>, rest: Seq<char>)
    requires
        free_of(front, mark),
    ensures
        config::behind(front + mark + rest, mark) == Some(rest),
{
    text_laws::law_found_behind(front, mark, rest);
    assert((front + mark + rest).skip(front.len() as int + mark.len()) =~= rest);
}

/// A script that starts NeoForge names its version, and that tells the version of the game: its first
/// two numbers behind a one, without the second where that is zero.
pub proof fn law_neoforge_scripts(
    front: Seq<char>,
    major: Seq<char>,
    minor: nat,
    build: Seq<char>,
    rest: Seq<char>,
)
    requires
        free_of(front, "/neoforged/neoforge/"@),
        !major.contains('.'),
        !major.contains('/'),
        !build.contains('/'),
        minor <= u32::MAX,
    ensures
        ({
            let version = major + "."@ + text::digits(minor) + "."@ + build;
            let script = front + "/neoforged/neoforge/"@ + (version.push('/') + rest);
            config::loader_in(script) == Some(
                LoaderModel {
                    minecraft_version: if minor == 0 {
                        "1."@ + major
                    } else {
                        "1."@ + major + "."@ + text::digits(minor)
                    },
                    loader: "neoforge"@,
                    loader_version: Some(version),
                },
            )
        }),
{
    reveal_strlit(".");
    let m = text::digits(minor);
    lemma_digits_only(minor, '.');
    lemma_digits_only(minor, '/');
    text_laws::law_numbers_are_read_back(minor, minor, u32::MAX as nat);
    let version = major + "."@ + m + "."@ + build;
    lemma_behind(front, "/neoforged/neoforge/"@, version.push('/') + rest);
    assert forall|i: int| 0 <= i < version.len() implies version[i] != '/' by {
        let a = major.len() as int;
        let b = a + 1 + m.len();
        if i < a {
            assert(major.contains(version[i]));
        } else if i == a || i == b {
        } else if i < b {
            assert(version[i] == m[i - a - 1]);
            assert(m.contains(version[i]));
        } else {
            assert(version[i] == build[i - b - 1]);
            assert(build.contains(version[i]));
        }
    }
    text_laws::law_first_piece(version, '/', '/', '/', rest);
    crate::life_laws::lemma_version_parts(major, m, build);
}

/// A script that starts Forge names the version of the game and that of Forge, with a dash between
/// them.
pub proof fn law_forge_scripts(
    front: Seq<char>,
    game: Seq<char>,
    forge: Seq<char>,
    rest: Seq<char>,
)
    requires
        free_of(front, "/net/minecraftforge/forge/"@),
        !game.contains('-'),
        !game.contains('/'),
        !forge.contains('/'),
        !text_laws::stands_in(
            front + "/net/minecraftforge/forge/"@ + ((game + "-"@ + forge).push('/') + rest),
            "/neoforged/neoforge/"@,
        ),
    ensures
        config::loader_in(
            front + "/net/minecraftforge/forge/"@ + ((game + "-"@ + forge).push('/') + rest),
        ) == Some(
            LoaderModel {
                minecraft_version: game,
                loader: "forge"@,
                loader_version: Some(forge),
            },
        ),
{
    reveal_strlit("-");
    let version = game + "-"@ + forge;
    let script = front + "/net/minecraftforge/forge/"@ + (version.push('/') + rest);
    text_laws::law_found_where_it_stands(script, "/neoforged/neoforge/"@);
    lemma_behind(front, "/net/minecraftforge/forge/"@, version.push('/') + rest);
    assert forall|i: int| 0 <= i < version.len() implies version[i] != '/' by {
        let a = game.len() as int;
        if i < a {
            assert(game.contains(version[i]));
        } else if i > a {
            assert(version[i] == forge[i - a - 1]);
            assert(forge.contains(version[i]));
        }
    }
    text_laws::law_first_piece(version, '/', '/', '/', rest);
    lemma_mark(game, "-"@, forge);
}

/// A script that starts Fabric by a jar that names its versions tells both.
pub proof fn law_fabric_scripts(
    front: Seq<char>,
    game: Seq<char>,
    fabric: Seq<char>,
    rest: Seq<char>,
)
    requires
        free_of(front, "fabric-server-mc."@),
        free_of(game, "-loader."@),
        !fabric.contains('-'),
        ({
            let script = front + "fabric-server-mc."@ + (game + "-loader."@ + (fabric.push('-')
                + rest));
            &&& !text_laws::stands_in(script, "/neoforged/neoforge/"@)
            &&& !text_laws::stands_in(script, "/net/minecraftforge/forge/"@)
        }),
    ensures
        config::loader_in(
            front + "fabric-server-mc."@ + (game + "-loader."@ + (fabric.push('-') + rest)),
        ) == Some(
            LoaderModel {
                minecraft_version: game,
                loader: "fabric"@,
                loader_version: Some(fabric),
            },
        ),
{
    let tail = fabric.push('-') + rest;
    let script = front + "fabric-server-mc."@ + (game + "-loader."@ + tail);
    text_laws::law_found_where_it_stands(script, "/neoforged/neoforge/"@);
    text_laws::law_found_where_it_stands(script, "/net/minecraftforge/forge/"@);
    lemma_behind(front, "fabric-server-mc."@, game + "-loader."@ + tail);
    text_laws::law_found_behind(game, "-loader."@, tail);
    text_laws::law_first_piece(fabric, '-', '-', '-', rest);
}

/// A script that names NeoForge with a version of two parts tells it too; where the second part is no
/// number it tells nothing.
pub proof fn law_short_neoforge_versions(
    front: Seq<char>,
    major: Seq<char>,
    minor: Seq<char>,
    rest: Seq<char>,
)
    requires
        free_of(front, "/neoforged/neoforge/"@),
        !major.contains('.'),
        !major.contains('/'),
        !minor.contains('.'),
        !minor.contains('/'),
    ensures
        ({
            let version = major + "."@ + minor;
            let told = config::loader_in(
                front + "/neoforged/neoforge/"@ + (version.push('/') + rest),
            );
            let n = text::uint(minor, u32::MAX as nat);
            &&& n is None ==> told is None
            &&& n == Some(0nat) ==> told == Some(
                LoaderModel {
                    minecraft_version: "1."@ + major,
                    loader: "neoforge"@,
                    loader_version: Some(version),
                },
            )
            &&& n is Some && n->0 > 0 ==> told == Some(
                LoaderModel {
                    minecraft_version: "1."@ + major + "."@ + minor,
                    loader: "neoforge"@,
                    loader_version: Some(version),
                },
            )
        }),
{
    reveal_strlit(".");
    let version = major + "."@ + minor;
    lemma_behind(front, "/neoforged/neoforge/"@, version.push('/') + rest);
    assert forall|i: int| 0 <= i < version.len() implies version[i] != '/' by {
        let a = major.len() as int;
        if i < a {
            assert(major.contains(version[i]));
        } else if i > a {
            assert(version[i] == minor[i - a - 1]);
            assert(minor.contains(version[i]));
        }
    }
    text_laws::law_first_piece(version, '/', '/', '/', rest);
    crate::life_laws::lemma_version_parts(major, minor, rest);
}

/// A script that names Forge or Fabric without both versions tells nothing.
pub proof fn law_unclear_scripts(front: Seq<char>, version: Seq<char>, rest: Seq<char>)
    ensures
        free_of(front, "/net/minecraftforge/forge/"@) && !version.contains('-')
            && !version.contains('/') && !text_laws::stands_in(
            front + "/net/minecraftforge/forge/"@ + (version.push('/') + rest),
            "/neoforged/neoforge/"@,
        ) ==> config::loader_in(
            front + "/net/minecraftforge/forge/"@ + (version.push('/') + rest),
        ) is None,
        free_of(front, "fabric-server-mc."@) && !text_laws::stands_in(rest, "-loader."@)
            && !text_laws::stands_in(front + "fabric-server-mc."@ + rest, "/neoforged/neoforge/"@)
            && !text_laws::stands_in(
            front + "fabric-server-mc."@ + rest,
            "/net/minecraftforge/forge/"@,
        ) ==> config::loader_in(front + "fabric-server-mc."@ + rest) is None,
{
    reveal_strlit("-");
    let s = front + "/net/minecraftforge/forge/"@ + (version.push('/') + rest);
    let t = front + "fabric-server-mc."@ + rest;
    text_laws::law_found_where_it_stands(s, "/neoforged/neoforge/"@);
    text_laws::law_found_where_it_stands(t, "/neoforged/neoforge/"@);
    text_laws::law_found_where_it_stands(t, "/net/minecraftforge/forge/"@);
    text_laws::law_halves_make_the_whole(rest, "-loader."@);
    text_laws::law_halves_make_the_whole(version, "-"@);
    if let Some((a, b)) = text::halves(version, "-"@) {
        assert(version[a.len() as int] == '-');
    }
    if text_laws::stands_in(rest, "-loader."@) {
    } else if let Some((a, b)) = text::halves(rest, "-loader."@) {
        let n = a.len() as int;
        assert(rest.subrange(n, n + "-loader."@.len()) =~= "-loader."@);
    }
    if free_of(front, "/net/minecraftforge/forge/"@) {
        lemma_behind(front, "/net/minecraftforge/forge/"@, version.push('/') + rest);
        if !version.contains('/') {
            text_laws::law_first_piece(version, '/', '/', '/', rest);
        }
    }
    if free_of(front, "fabric-server-mc."@) {
        lemma_behind(front, "fabric-server-mc."@, rest);
    }
}

/// A script that names none of these tells nothing, but for the plain launcher of Fabric, which tells
/// the loader and no version.
pub proof fn law_other_scripts(script: Seq<char>)
    requires
        !text_laws::stands_in(script, "/neoforged/neoforge/"@),
        !text_laws::stands_in(script, "/net/minecraftforge/forge/"@),
        !text_laws::stands_in(script, "fabric-server-mc."@),
    ensures
        text_laws::stands_in(script, "fabric-server-launch.jar"@) ==> config::loader_in(script)
            == Some(
            LoaderModel {
                minecraft_version: "unknown"@,
                loader: "fabric"@,
                loader_version: None,
            },
        ),
        !text_laws::stands_in(script, "fabric-server-launch.jar"@) ==> config::loader_in(
            script,
        ) is None,
{
    text_laws::law_found_where_it_stands(script, "/neoforged/neoforge/"@);
    text_laws::law_found_where_it_stands(script, "/net/minecraftforge/forge/"@);
    text_laws::law_found_where_it_stands(script, "fabric-server-mc."@);
    text_laws::law_found_where_it_stands(script, "fabric-server-launch.jar"@);
}

// ---------------------------------------------------------------------------
// Settings for a folder that has none
// ---------------------------------------------------------------------------

/// The port of a server stands in the first of the lines that begin with `server-port=`.
pub proof fn law_port_is_read(line: Seq<char>, rest: Seq<Seq<char>>, port: nat)
    requires
        port <= 65535,
    ensures
        properties::port_in(seq!["server-port="@ + text::digits(port)] + rest) == Some(port),
        (forall|v: Seq<char>| line != #[trigger] ("server-port="@ + v)) ==> properties::port_in(
            seq![line] + rest,
        ) == properties::port_in(rest),
        properties::port_in(Seq::empty()) is None,
{
    let key = "server-port="@;
    let d = text::digits(port);
    text_laws::law_numbers_are_read_back(port, port, 65535);
    text_laws::law_begins_and_ends(key, d, key + d);
    assert((key + d).skip(key.len() as int) =~= d);
    let e = Seq::<char>::empty();
    assert('0' <= d[0] <= '9' && '0' <= d[d.len() - 1] <= '9');
    text_laws::law_white_space(d[0]);
    text_laws::law_white_space(d.last());
    text_laws::law_trimming(e, d, e);
    assert(e + d + e =~= d);
    assert((seq![key + d] + rest)[0] == key + d);
    assert((seq![line] + rest)[0] == line);
    assert((seq![line] + rest).skip(1) =~= rest);
    text_laws::law_begins_and_ends(key, line, line);
    if text::begins(line, key) {
        assert(line == key + line.skip(key.len() as int));
    }
}

/// A folder without settings gets some: its own name, the port and the loader that its files tell,
/// itself as the folder of the server, backups that are switched off and keep ten, and nothing else.
pub proof fn law_settings_of_a_folder(
    c: InstanceConfig,
    dir: Seq<char>,
    props: Option<Seq<char>>,
    script: Option<Seq<char>>,
)
    requires
        config::told_by_files(c, dir, props, script),
    ensures
        paths::name_of(dir) == Some(c.instance.name@),
        c.server.path@ == dir,
        props is None || properties::port_in(text::line_seq(props->0)) is None ==> c.instance.port
            == 25565,
        props is Some && properties::port_in(text::line_seq(props->0)) is Some ==> c.instance.port
            == properties::port_in(text::line_seq(props->0))->0,
        script is None || config::loader_in(script->0) is None ==> c.instance.minecraft_version@
            == "unknown"@ && c.instance.loader is None && c.instance.loader_version is None,
        script is Some && (config::loader_in(script->0) matches Some(l)) ==> c.instance.minecraft_version@
            == config::loader_in(script->0)->0.minecraft_version && text::opt_view(
            c.instance.loader,
        ) == Some(config::loader_in(script->0)->0.loader) && text::opt_view(
            c.instance.loader_version,
        ) == config::loader_in(script->0)->0.loader_version,
        c.instance.display_name is None,
        c.instance.modrinth_project_id is None,
        c.server.java_opts is None,
        c.server.java_path is None,
        c.restart is None,
        c.alerts is None,
        c.schedules@.len() == 0,
        c.backup is Some,
        !c.backup->0.enabled,
        c.backup->0.schedule is None,
        c.backup->0.keep_count == 10,
        !c.backup->0.world_only,
{
}

// ---------------------------------------------------------------------------
// Folders
// ---------------------------------------------------------------------------

/// Where the manager keeps its data, and where its servers stand.
pub proof fn law_folders_of_the_manager(base: Seq<char>, kind: Seq<char>, id: Seq<char>)
    requires
        base.len() > 0,
        base.last() != '/',
        path_laws::one_component(kind),
        path_laws::one_component(id),
    ensures
        config::data_dir_in(base) == base.push('/') + "msm"@,
        config::folder_of(base, kind, id) == (base.push('/') + kind).push('/') + id,
        config::DEFAULT_WEB_PORT == 7331,
{
    reveal_strlit("msm");
    path_laws::law_joining(base, "msm"@);
    path_laws::law_joining(base, kind);
    let k = base.push('/') + kind;
    assert(kind[0] != '/' && kind[kind.len() - 1] != '/');
    assert(k.last() == kind.last());
    assert(id[0] != '/');
    path_laws::law_joining(k, id);
}

/// A server that still stands in the folder of its settings moves to the folder of its id among the
/// servers; any other one stays. A separator at the end of a path makes no difference.
pub proof fn law_servers_move_out(
    dir: Seq<char>,
    id: Seq<char>,
    server_path: Seq<char>,
    data: Seq<char>,
)
    requires
        path_laws::plain_folder(dir),
        path_laws::one_component(id),
        id != seq!['.', '.'],
        data.len() > 0,
        data.last() != '/',
    ensures
        paths::equal(server_path, dir.push('/') + id) ==> config::migration_of(
            dir.push('/') + id,
            server_path,
            data,
        ) == Some((data.push('/') + "servers"@).push('/') + id),
        paths::equal((dir.push('/') + id).push('/'), dir.push('/') + id),
        !paths::equal(server_path, dir) ==> config::migration_of(dir, server_path, data) is None,
{
    reveal_strlit("servers");
    path_laws::law_name_and_folder(dir, id);
    assert("servers"@.len() == 7);
    assert(!"servers"@.contains('/'));
    law_folders_of_the_manager(data, "servers"@, id);
    let here = dir.push('/') + id;
    let e = Seq::<char>::empty();
    path_laws::law_components_are_counted(here, e);
    assert(here.push('/') + e =~= here.push('/'));
}

/// The settings and the two lists of what was added stay; every other file moves with the server, and
/// each of the two groups keeps its order.
pub proof fn law_what_moves(names: Seq<Seq<char>>, name: Seq<char>)
    ensures
        ({
            let stays = name == "msm.toml"@ || name == "mods.lock.toml"@ || name
                == "datapacks.lock.toml"@;
            &&& config::moves(name) <==> !stays
            &&& stays ==> config::parted(names.push(name), true) == config::parted(names, true)
            &&& stays ==> config::parted(names.push(name), false) == config::parted(
                names,
                false,
            ).push(name)
            &&& !stays ==> config::parted(names.push(name), true) == config::parted(
                names,
                true,
            ).push(name)
            &&& !stays ==> config::parted(names.push(name), false) == config::parted(names, false)
        }),
        config::parted(Seq::empty(), true).len() == 0,
        config::parted(Seq::empty(), false).len() == 0,
{
    assert(names.push(name).drop_last() =~= names);
}

} // verus!
