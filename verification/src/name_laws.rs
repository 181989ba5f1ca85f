//! Identifiers, settings of a server, addresses and messages, in plain terms.

use crate::api;
use crate::api::Failure;
use crate::archive;
use crate::archive::NamedModel;
use crate::datapack_mgr;
use crate::digest;
use crate::modrinth;
use crate::modrinth::VersionModel;
use crate::path_laws;
use crate::properties;
use crate::slug;
use crate::text;
use crate::text_laws;
use crate::whitelist;
use vstd::prelude::*;

verus! {

// ---------------------------------------------------------------------------
// Identifiers
// ---------------------------------------------------------------------------

/// Whether a character is a letter or a digit of ASCII.
pub open spec fn letter_or_digit(c: char) -> bool {
    'a' <= c <= 'z' || 'A' <= c <= 'Z' || '0' <= c <= '9'
}

/// Whether a text is a word of letters and digits of ASCII.
pub open spec fn word(w: Seq<char>) -> bool {
    w.len() > 0 && forall|i: int| 0 <= i < w.len() ==> letter_or_digit(#[trigger] w[i])
}

/// The identifier of a name: its words in small letters, with a dash between two of them; whatever
/// else stands between, before or behind them leaves nothing but that.
pub proof fn law_identifiers_are_made_of_words(w: Seq<char>, c: char, rest: Seq<char>)
    requires
        word(w),
        (c as u32) < 128,
        !letter_or_digit(c),
        forall|i: int| 0 <= i < rest.len() ==> (#[trigger] rest[i] as u32) < 128,
    ensures
        slug::slug_of(w) == text::lowered(w),
        slug::slug_of(seq![c] + rest) == slug::slug_of(rest),
        slug::slug_of(rest).len() > 0 ==> slug::slug_of(w.push(c) + rest) == text::lowered(w)
            + "-"@ + slug::slug_of(rest),
        slug::slug_of(rest).len() == 0 ==> slug::slug_of(w.push(c) + rest) == text::lowered(w),
        slug::ascii_slug_of(w.push(c) + rest) == slug::slug_of(w.push(c) + rest),
{
    reveal(Seq::filter);
    let keep = |x: char| slug::kept(x);
    let lw = text::lowered(w);
    let lr = text::lowered(rest).map_values(keep);
    text_laws::law_lower_case(w);
    assert forall|i: int| 0 <= i < w.len() implies letter_or_digit(#[trigger] lw[i]) && slug::kept(
        lw[i],
    ) == lw[i] by {
        assert(letter_or_digit(w[i]));
    }
    assert(slug::kept(text::lower(c)) == '-');
    // The word alone.
    assert(slug::ascii(w)) by {
        assert forall|i: int| 0 <= i < w.len() implies (#[trigger] w[i] as u32) < 128 by {
            assert(letter_or_digit(w[i]));
        }
    }
    assert(lw.map_values(keep) =~= lw);
    assert(!lw.contains('-'));
    text::lemma_pieces_whole(lw, '-');
    let good = slug::nonempty();
    let one = seq![lw];
    assert(one.drop_last() =~= Seq::<Seq<char>>::empty());
    assert(one.filter(good) =~= one);
    // In front of something else.
    let s = w.push(c) + rest;
    assert(slug::ascii(s)) by {
        assert forall|i: int| 0 <= i < s.len() implies (#[trigger] s[i] as u32) < 128 by {
            if i < w.len() {
                assert(s[i] == w[i]);
                assert(letter_or_digit(w[i]));
            } else if i > w.len() {
                assert(s[i] == rest[i - w.len() - 1]);
            }
        }
    }
    let ls = text::lowered(s).map_values(keep);
    assert(ls =~= lw.push('-') + lr) by {
        assert forall|i: int| 0 <= i < ls.len() implies ls[i] == (lw.push('-') + lr)[i] by {
            if i < w.len() {
                assert(s[i] == w[i]);
                assert(ls[i] == slug::kept(lw[i]));
            } else if i > w.len() {
                assert(s[i] == rest[i - w.len() - 1]);
            }
        }
    }
    text::lemma_pieces_around(lw, lr, '-');
    let pr = text::pieces(lr, '-', '-');
    Seq::filter_distributes_over_add(one, pr, good);
    let parts = slug::dashed_parts(lr);
    assert(slug::dashed_parts(ls) == one + parts);
    assert(slug::ascii(rest));
    slug::law_slug_has_no_empty_part(lr);
    if parts.len() > 0 {
        lemma_joined_front(lw, parts, "-"@);
    } else {
        assert(one + parts =~= one);
    }
    slug::law_ascii_names_have_one_slug(s);
    // Behind something else.
    let e = Seq::<char>::empty();
    let t = seq![c] + rest;
    assert(slug::ascii(t)) by {
        assert forall|i: int| 0 <= i < t.len() implies (#[trigger] t[i] as u32) < 128 by {
            if i > 0 {
                assert(t[i] == rest[i - 1]);
            }
        }
    }
    let lt = text::lowered(t).map_values(keep);
    assert(lt =~= e.push('-') + lr);
    text::lemma_pieces_around(e, lr, '-');
    text::lemma_pieces_whole(e, '-');
    let none = seq![e];
    assert(none.drop_last() =~= Seq::<Seq<char>>::empty());
    assert(none.filter(good) =~= Seq::<Seq<char>>::empty());
    Seq::filter_distributes_over_add(none, pr, good);
    assert(slug::dashed_parts(lt) =~= parts);
}

proof fn lemma_joined_front(a: Seq<char>, parts: Seq<Seq<char>>, sep: Seq<char>)
    requires
        parts.len() > 0,
    ensures
        text::joined(seq![a] + parts, sep) == a + sep + text::joined(parts, sep),
    decreases parts.len(),
{
    let all = seq![a] + parts;
    assert(all.drop_last() =~= seq![a] + parts.drop_last());
    assert(all.last() == parts.last());
    if parts.len() > 1 {
        lemma_joined_front(a, parts.drop_last(), sep);
        assert(text::joined(all, sep) =~= a + sep + text::joined(parts, sep));
    } else {
        assert(all.drop_last() =~= seq![a]);
        assert(text::joined(seq![a], sep) == a);
        assert(text::joined(all, sep) =~= a + sep + text::joined(parts, sep));
    }
}

// ---------------------------------------------------------------------------
// Settings of a server
// ---------------------------------------------------------------------------

/// Whether a text is nothing but white space.
pub open spec fn spaces(s: Seq<char>) -> bool {
    forall|i: int| 0 <= i < s.len() ==> text::is_space(#[trigger] s[i])
}

/// Whether a text has something to it at both ends.
pub open spec fn solid(s: Seq<char>) -> bool {
    s.len() > 0 && !text::is_space(s[0]) && !text::is_space(s.last())
}

/// A line of settings sets what stands in front of its first equals sign to what stands behind it;
/// white space around either does not count.
pub proof fn law_settings_are_read(
    a: Seq<char>,
    k: Seq<char>,
    b: Seq<char>,
    c: Seq<char>,
    v: Seq<char>,
    d: Seq<char>,
)
    requires
        spaces(a),
        spaces(b),
        spaces(c),
        spaces(d),
        solid(k),
        solid(v),
        k[0] != '#',
        !k.contains('='),
    ensures
        properties::setting(a + (k + b + "="@ + (c + v)) + d) == Some((k, v)),
{
    reveal_strlit("=");
    let e = Seq::<char>::empty();
    let front = k + b;
    let back = c + v;
    let t = front + "="@ + back;
    assert(t[0] == k[0]);
    assert(t.last() == v.last());
    text_laws::law_trimming(a, t, d);
    assert forall|i: int| 0 <= i < front.len() implies front[i] != '=' by {
        if i < k.len() {
            assert(k.contains(front[i]));
        } else {
            assert(front[i] == b[i - k.len()]);
            assert(text::is_space(b[i - k.len()]));
            text_laws::law_white_space('=');
        }
    }
    assert forall|j: int| 0 <= j < front.len() implies #[trigger] (front + "="@).subrange(
        j,
        j + "="@.len(),
    ) != "="@ by {
        assert((front + "="@).subrange(j, j + "="@.len())[0] == front[j]);
    }
    text_laws::law_found_behind(front, "="@, back);
    text_laws::law_trimming(e, k, b);
    assert(e + k + b =~= front);
    text_laws::law_trimming(c, v, e);
    assert(c + v + e =~= back);
}

/// Comments, blank lines and lines without an equals sign set nothing.
pub proof fn law_other_lines_set_nothing(line: Seq<char>)
    requires
        text::trimmed(line).len() == 0 || text::trimmed(line)[0] == '#' || !text::trimmed(
            line,
        ).contains('='),
    ensures
        properties::setting(line) is None,
{
    reveal_strlit("=");
    let t = text::trimmed(line);
    text_laws::law_halves_make_the_whole(t, "="@);
    if let Some((x, y)) = text::halves(t, "="@) {
        assert(t[x.len() as int] == '=');
    }
}

/// The world of a server is the first one that its settings name; a name that is left empty does not
/// count.
pub proof fn law_world_is_named(
    lines: Seq<Seq<char>>,
    line: Seq<char>,
    k: Seq<char>,
    v: Seq<char>,
)
    ensures
        properties::level_name_in(Seq::empty()) is None,
        properties::level_name_in(lines) is Some ==> properties::level_name_in(lines.push(line))
            == properties::level_name_in(lines),
        properties::level_name_in(lines) is None && properties::setting(line) == Some((k, v)) && k
            == "level-name"@ && v.len() > 0 ==> properties::level_name_in(lines.push(line)) == Some(
            v,
        ),
        properties::level_name_in(lines) is None && (properties::setting(line) is None || (
        properties::setting(line) == Some((k, v)) && (k != "level-name"@ || v.len() == 0)))
            ==> properties::level_name_in(lines.push(line)) is None,
{
    assert(lines.push(line).drop_last() =~= lines);
}

/// Datapacks lie in the folder of the world, and the world is called `world` where the settings name
/// none.
pub proof fn law_folder_of_datapacks(server_path: Seq<char>, world: Seq<char>, content: Seq<char>)
    requires
        server_path.len() > 0,
        server_path.last() != '/',
        path_laws::one_component(world),
    ensures
        datapack_mgr::datapacks_in(server_path, world) == (server_path.push('/') + world).push('/')
            + "datapacks"@,
        datapack_mgr::world_name(None) == "world"@,
        properties::level_name_in(text::line_seq(content)) is None ==> datapack_mgr::world_name(
            Some(content),
        ) == "world"@,
        properties::level_name_in(text::line_seq(content)) is Some ==> datapack_mgr::world_name(
            Some(content),
        ) == properties::level_name_in(text::line_seq(content))->0,
{
    reveal_strlit("datapacks");
    path_laws::law_joining(server_path, world);
    let w = server_path.push('/') + world;
    assert(world[0] != '/' && world[world.len() - 1] != '/');
    assert(w.last() == world.last());
    path_laws::law_joining(w, "datapacks"@);
}

// ---------------------------------------------------------------------------
// Fingerprints
// ---------------------------------------------------------------------------

/// A fingerprint is written with two digits for each byte, the higher one first.
pub proof fn law_bytes_are_written(data: Seq<u8>, i: int)
    requires
        0 <= i < data.len(),
    ensures
        digest::hex_text(data).len() == 2 * data.len(),
        digest::hex_text(data)[2 * i] == "0123456789abcdef"@[data[i] as int / 16],
        digest::hex_text(data)[2 * i + 1] == "0123456789abcdef"@[data[i] as int % 16],
{
    reveal_strlit("0123456789abcdef");
    let h = data[i] as int / 16;
    let l = data[i] as int % 16;
    assert((2 * i) / 2 == i && (2 * i) % 2 == 0);
    assert((2 * i + 1) / 2 == i && (2 * i + 1) % 2 == 1);
    assert(0 <= h < 16 && 0 <= l < 16);
    assert(digest::hex_text(data)[2 * i] == digest::hex_digit(h));
    assert(digest::hex_text(data)[2 * i + 1] == digest::hex_digit(l));
    lemma_digit(h);
    lemma_digit(l);
}

proof fn lemma_digit(n: int)
    requires
        0 <= n < 16,
    ensures
        digest::hex_digit(n) == "0123456789abcdef"@[n],
{
    reveal_strlit("0123456789abcdef");
    assert(n == 0 || n == 1 || n == 2 || n == 3 || n == 4 || n == 5 || n == 6 || n == 7 || n == 8
        || n == 9 || n == 10 || n == 11 || n == 12 || n == 13 || n == 14 || n == 15);
}

// ---------------------------------------------------------------------------
// Modrinth
// ---------------------------------------------------------------------------

/// What is asked of Modrinth, and where.
pub proof fn law_questions_to_modrinth(
    path: Seq<char>,
    id: Seq<char>,
    tail: Seq<char>,
    term: Seq<char>,
    facets: Seq<char>,
    game: Seq<char>,
    loader: Seq<char>,
)
    ensures
        modrinth::address_of(path, id, tail) == "https://api.modrinth.com/v2"@ + path + id + tail,
        modrinth::search_query_of(term, facets).len() == 3,
        modrinth::search_query_of(term, facets).contains(("query"@, term)),
        modrinth::search_query_of(term, facets).contains(("facets"@, facets)),
        modrinth::search_query_of(term, facets).contains(("limit"@, "20"@)),
        modrinth::fitting_query_of(game, loader).len() == 2,
        modrinth::fitting_query_of(game, loader).contains(
            ("loaders"@, modrinth::json_list(seq![loader])),
        ),
        modrinth::fitting_query_of(game, loader).contains(
            ("game_versions"@, modrinth::json_list(seq![game])),
        ),
        modrinth::USER_AGENT@ == "msm/0.1 (minecraft-server-manager; contact@example.com)"@,
{
    let q = modrinth::search_query_of(term, facets);
    assert(q[0] == ("query"@, term));
    assert(q[1] == ("facets"@, facets));
    assert(q[2] == ("limit"@, "20"@));
    let f = modrinth::fitting_query_of(game, loader);
    assert(f[0] == ("loaders"@, modrinth::json_list(seq![loader])));
    assert(f[1] == ("game_versions"@, modrinth::json_list(seq![game])));
}

/// The projects of the files that were found: every one of them, each once.
pub proof fn law_projects_are_asked_for_once(
    found: Seq<(Seq<char>, VersionModel)>,
    project: Seq<char>,
)
    ensures
        modrinth::projects_of(found).contains(project) <==> exists|i: int|
            0 <= i < found.len() && (#[trigger] found[i]).1.project_id == project,
        modrinth::projects_of(found).no_duplicates(),
    decreases found.len(),
{
    if found.len() > 0 {
        let front = found.drop_last();
        law_projects_are_asked_for_once(front, project);
        let last = found.last().1.project_id;
        law_projects_are_asked_for_once(front, last);
        let some = modrinth::projects_of(front);
        let all = modrinth::projects_of(found);
        assert forall|i: int| 0 <= i < front.len() implies #[trigger] front[i] == found[i] by {}
        if all.contains(project) {
            let k = all.index_of(project);
            if k < some.len() {
                assert(some[k] == project);
                let i = choose|i: int|
                    0 <= i < front.len() && (#[trigger] front[i]).1.project_id == project;
                assert(found[i].1.project_id == project);
            } else {
                assert(found[found.len() - 1].1.project_id == project);
            }
        }
        if exists|i: int| 0 <= i < found.len() && (#[trigger] found[i]).1.project_id == project {
            let i = choose|i: int|
                0 <= i < found.len() && (#[trigger] found[i]).1.project_id == project;
            if i < front.len() {
                assert(front[i].1.project_id == project);
                assert(some.contains(project));
                let k = some.index_of(project);
                assert(all[k] == project);
            } else if some.contains(last) {
                assert(all == some);
            } else {
                assert(all[all.len() - 1] == project);
            }
        }
    }
}

/// Files are told by the ends of their names: one that ends in a dot and the wanted end is taken, and
/// the rest are passed over.
pub proof fn law_files_of_one_kind(
    files: Seq<Seq<char>>,
    file: Seq<char>,
    ext: Seq<char>,
)
    ensures
        crate::paths::extension_of(file) == Some(ext) ==> files.push(file).filter(
            modrinth::has_ext(ext),
        ) == files.filter(modrinth::has_ext(ext)).push(file),
        crate::paths::extension_of(file) != Some(ext) ==> files.push(file).filter(
            modrinth::has_ext(ext),
        ) == files.filter(modrinth::has_ext(ext)),
{
    reveal(Seq::filter);
    assert(files.push(file).drop_last() =~= files);
}

// ---------------------------------------------------------------------------
// Messages
// ---------------------------------------------------------------------------

/// What is said where something cannot be done.
pub proof fn law_messages(
    name: Seq<char>,
    what: Seq<char>,
    f: Failure,
    code: u16,
    e: Seq<char>,
    data: Seq<char>,
)
    requires
        data.len() > 0,
        data.last() != '/',
    ensures
        whitelist::name_message(name, what) == "'"@ + name + "' is "@ + what,
        whitelist::master_path_in(data) == data.push('/') + "whitelist.json"@,
        digest::mismatch_message(name) == "SHA512 mismatch for "@ + name
            + ": file may be corrupted"@,
        modrinth::not_installed_message(what, name) == what + " '"@ + name + "' not in lock file"@,
        api::says(f, code, e) <==> f.0 == code && f.1.error@ == e,
        archive::manifest_of(NamedModel::Text(e)) == Ok::<Seq<char>, Seq<char>>(e),
        archive::manifest_of(NamedModel::Missing) == Err::<Seq<char>, Seq<char>>(
            "modrinth.index.json not found in mrpack"@,
        ),
        archive::manifest_of(NamedModel::Broken(e)) == Err::<Seq<char>, Seq<char>>(
            "Failed to open mrpack archive: "@ + e,
        ),
        archive::manifest_of(NamedModel::Unreadable(e)) == Err::<Seq<char>, Seq<char>>(
            "Failed to read manifest: "@ + e,
        ),
{
    reveal_strlit("whitelist.json");
    path_laws::law_joining(data, "whitelist.json"@);
}

} // verus!
