//! The whitelist that all servers share.

use crate::config;
use crate::paths;
use crate::state::InstanceModel;
use crate::state::InstanceStatus;
use crate::state::Registry;
use crate::text;
use vstd::prelude::*;

verus! {

/// A player on the whitelist.
#[derive(Debug)]
pub struct WhitelistEntry {
    pub uuid: String,
    pub name: String,
}

impl Clone for WhitelistEntry {
    fn clone(&self) -> (r: Self)
        ensures
            r == *self,
    {
        WhitelistEntry { uuid: self.uuid.clone(), name: self.name.clone() }
    }
}

/// The view of a whitelist: ids and names.
pub open spec fn whitelist_views(s: Seq<WhitelistEntry>) -> Seq<(Seq<char>, Seq<char>)> {
    s.map_values(|e: WhitelistEntry| (e.uuid@, e.name@))
}

/// The whitelist in the folder of all data.
pub open spec fn master_path_in(data: Seq<char>) -> Seq<char> {
    paths::joined_path(data, "whitelist.json"@)
}

/// The file of the whitelist that all servers share.
pub fn master_path() -> (r: String)
    ensures
        exists|base: Seq<char>| r@ == master_path_in(#[trigger] config::data_dir_in(base)),
{
    let data = config::data_dir();
    paths::join(data.as_str(), "whitelist.json")
}

// ---------------------------------------------------------------------------
// Adding and removing
// ---------------------------------------------------------------------------

/// Whether two names are the same but for the case of letters of ASCII.
pub open spec fn same_name(a: Seq<char>, b: Seq<char>) -> bool {
    text::lowered(a) == text::lowered(b)
}

/// Whether a name is on a whitelist.
pub open spec fn listed(entries: Seq<(Seq<char>, Seq<char>)>, name: Seq<char>) -> bool {
    exists|i: int| 0 <= i < entries.len() && same_name((#[trigger] entries[i]).1, name)
}

/// Which entries are of another name.
pub open spec fn of_other_name(name: Seq<char>) -> spec_fn((Seq<char>, Seq<char>)) -> bool {
    |e: (Seq<char>, Seq<char>)| !same_name(e.1, name)
}

/// `'<name>' is <what>`.
pub open spec fn name_message(name: Seq<char>, what: Seq<char>) -> Seq<char> {
    "'"@ + name + "' is "@ + what
}

/// `'<name>' is <what>`.
pub fn name_text(name: &str, what: &str) -> (r: String)
    ensures
        r@ == name_message(name@, what@),
{
    let mut m = "'".to_string();
    m.append(name);
    m.append("' is ");
    m.append(what);
    m
}

/// The whitelist with one more player; a name that is on it already is refused.
pub fn add_to_whitelist(entries: Vec<WhitelistEntry>, entry: WhitelistEntry) -> (r: Result<
    Vec<WhitelistEntry>,
    String,
>)
    ensures
        match r {
            Ok(list) => !listed(whitelist_views(entries@), entry.name@) && whitelist_views(list@)
                == whitelist_views(entries@).push((entry.uuid@, entry.name@)),
            Err(e) => listed(whitelist_views(entries@), entry.name@) && e@ == name_message(
                entry.name@,
                "already whitelisted"@,
            ),
        },
{
    let ghost views = whitelist_views(entries@);
    for i in 0..entries.len()
        invariant
            views == whitelist_views(entries@),
            forall|j: int| 0 <= j < i ==> !same_name((#[trigger] views[j]).1, entry.name@),
    {
        assert(views[i as int] == (entries@[i as int].uuid@, entries@[i as int].name@));
        if text::eq_ignore_ascii_case(entries[i].name.as_str(), entry.name.as_str()) {
            return Err(name_text(entry.name.as_str(), "already whitelisted"));
        }
    }
    let mut entries = entries;
    entries.push(entry);
    assert(whitelist_views(entries@) =~= views.push((entry.uuid@, entry.name@)));
    Ok(entries)
}

/// The whitelist without a name; a name that is not on it is refused.
pub fn remove_from_whitelist(entries: &Vec<WhitelistEntry>, name: &str) -> (r: Result<
    Vec<WhitelistEntry>,
    String,
>)
    ensures
        match r {
            Ok(list) => listed(whitelist_views(entries@), name@) && whitelist_views(list@)
                == whitelist_views(entries@).filter(of_other_name(name@)),
            Err(e) => !listed(whitelist_views(entries@), name@) && e@ == name_message(
                name@,
                "not whitelisted"@,
            ),
        },
{
    let ghost views = whitelist_views(entries@);
    let mut kept: Vec<WhitelistEntry> = Vec::new();
    let mut found = false;
    proof {
        reveal(Seq::filter);
        assert(whitelist_views(kept@) =~= views.take(0).filter(of_other_name(name@)));
    }
    for i in 0..entries.len()
        invariant
            views == whitelist_views(entries@),
            whitelist_views(kept@) == views.take(i as int).filter(of_other_name(name@)),
            found == exists|j: int| 0 <= j < i && same_name((#[trigger] views[j]).1, name@),
    {
        proof {
            reveal(Seq::filter);
            assert(views.take(i + 1).drop_last() =~= views.take(i as int));
            assert(views.take(i + 1).last() == views[i as int]);
        }
        assert(views[i as int] == (entries@[i as int].uuid@, entries@[i as int].name@));
        let ghost before = kept@;
        if text::eq_ignore_ascii_case(entries[i].name.as_str(), name) {
            found = true;
        } else {
            kept.push(entries[i].clone());
            assert(whitelist_views(kept@) =~= whitelist_views(before).push(views[i as int]));
        }
    }
    assert(views.take(entries@.len() as int) =~= views);
    if found {
        Ok(kept)
    } else {
        Err(name_text(name, "not whitelisted"))
    }
}

/// A player who was added is listed under every spelling of the name, and removing the name in any of
/// them gives back the whitelist as it was.
pub proof fn law_add_then_remove(
    entries: Seq<(Seq<char>, Seq<char>)>,
    e: (Seq<char>, Seq<char>),
    spelling: Seq<char>,
)
    requires
        !listed(entries, e.1),
        same_name(spelling, e.1),
    ensures
        listed(entries.push(e), spelling),
        entries.push(e).filter(of_other_name(spelling)) == entries,
{
    let more = entries.push(e);
    assert(more[entries.len() as int] == e);
    reveal(Seq::filter);
    assert(more.drop_last() =~= entries);
    lemma_nobody_goes(entries, spelling, e.1);
}

proof fn lemma_nobody_goes(
    entries: Seq<(Seq<char>, Seq<char>)>,
    spelling: Seq<char>,
    name: Seq<char>,
)
    requires
        !listed(entries, name),
        same_name(spelling, name),
    ensures
        entries.filter(of_other_name(spelling)) == entries,
    decreases entries.len(),
{
    reveal(Seq::filter);
    if entries.len() > 0 {
        let front = entries.drop_last();
        assert forall|i: int| 0 <= i < front.len() implies !same_name(
            (#[trigger] front[i]).1,
            name,
        ) by {
            assert(entries[i] == front[i]);
        }
        lemma_nobody_goes(front, spelling, name);
        assert(entries[entries.len() - 1] == entries.last());
        assert(entries =~= front.push(entries.last()));
    } else {
        assert(entries.filter(of_other_name(spelling)) =~= entries);
    }
}

/// Removing a name leaves nobody of that name, and everybody else.
pub proof fn law_removed_name_is_gone(entries: Seq<(Seq<char>, Seq<char>)>, name: Seq<char>)
    ensures
        !listed(entries.filter(of_other_name(name)), name),
        forall|i: int|
            0 <= i < entries.len() && !same_name((#[trigger] entries[i]).1, name)
                ==> entries.filter(of_other_name(name)).contains(entries[i]),
{
    let pred = of_other_name(name);
    let kept = entries.filter(pred);
    assert forall|i: int| 0 <= i < kept.len() implies !same_name((#[trigger] kept[i]).1, name) by {
        entries.lemma_filter_pred(pred, i);
    }
    assert forall|i: int| 0 <= i < entries.len() && !same_name(
        (#[trigger] entries[i]).1,
        name,
    ) implies kept.contains(entries[i]) by {
        entries.lemma_filter_contains(pred, i);
    }
}

// ---------------------------------------------------------------------------
// Servers
// ---------------------------------------------------------------------------

/// What is done for a server when a list changes: its folder gets the list, and its console a
/// command where it runs.
#[derive(Debug)]
pub struct Sync {
    pub id: String,
    pub server_path: String,
    pub reload: bool,
}

/// The view of what is done for servers.
pub open spec fn sync_views(s: Seq<Sync>) -> Seq<(Seq<char>, Seq<char>, bool)> {
    s.map_values(|x: Sync| (x.id@, x.server_path@, x.reload))
}

/// What is done for the servers when a list changes: each gets it, and those that run are told.
pub open spec fn syncs_of(reg: Seq<InstanceModel>) -> Seq<(Seq<char>, Seq<char>, bool)> {
    reg.map_values(
        |m: InstanceModel|
            (m.id, m.config.server.path@, m.status == InstanceStatus::Running),
    )
}

/// What is done for the servers when a list changes.
pub fn sync_all(reg: &Registry) -> (r: Vec<Sync>)
    ensures
        sync_views(r@) == syncs_of(reg@),
{
    let mut r: Vec<Sync> = Vec::new();
    for i in 0..reg.list.len()
        invariant
            r@.len() == i,
            forall|j: int|
                0 <= j < i ==> ({
                    let x = #[trigger] r@[j];
                    let m = reg.list@[j]@;
                    x.id@ == m.id && x.server_path@ == m.config.server.path@ && x.reload
                        == (m.status == InstanceStatus::Running)
                }),
    {
        let inst = &reg.list[i];
        r.push(
            Sync {
                id: inst.id.clone(),
                server_path: inst.config.server.path.clone(),
                reload: inst.status == InstanceStatus::Running,
            },
        );
    }
    assert(sync_views(r@) =~= syncs_of(reg@));
    r
}

/// The command that makes a server read its whitelist again.
pub const RELOAD_COMMAND: &'static str = "whitelist reload";

// ---------------------------------------------------------------------------
// Mojang
// ---------------------------------------------------------------------------

/// Where Mojang tells of a player.
pub fn lookup_url(username: &str) -> (r: String)
    ensures
        r@ == "https://api.mojang.com/users/profiles/minecraft/"@ + username@,
{
    let mut u = "https://api.mojang.com/users/profiles/minecraft/".to_string();
    u.append(username);
    u
}

/// What the status of an answer of Mojang says of a player.
pub fn lookup_player(username: &str, status: u16) -> (r: Result<(), String>)
    ensures
        match r {
            Ok(_) => status == 200,
            Err(e) => status != 200 && e@ == (if status == 404 || status == 204 {
                "Player '"@ + username@ + "' not found"@
            } else {
                "Mojang API returned HTTP "@ + text::digits(status as nat)
            }),
        },
{
    if status == 200 {
        return Ok(());
    }
    if status == 404 || status == 204 {
        let mut m = "Player '".to_string();
        m.append(username);
        m.append("' not found");
        return Err(m);
    }
    let mut m = "Mojang API returned HTTP ".to_string();
    let n = text::decimal(status as u64);
    m.append(n.as_str());
    Err(m)
}

/// How many bytes a character takes in UTF-8.
pub open spec fn width(c: char) -> nat {
    if c as u32 <= 0x7f {
        1
    } else if c as u32 <= 0x7ff {
        2
    } else if c as u32 <= 0xffff {
        3
    } else {
        4
    }
}

/// How many bytes a text takes in UTF-8.
pub open spec fn byte_len(s: Seq<char>) -> nat
    decreases s.len(),
{
    if s.len() == 0 {
        0
    } else {
        byte_len(s.drop_last()) + width(s.last())
    }
}

/// How many characters the first bytes of a text are, where they end with one.
pub open spec fn cut(s: Seq<char>, bytes: nat) -> Option<int>
    decreases s.len(),
{
    if byte_len(s) == bytes {
        Some(s.len() as int)
    } else if s.len() == 0 {
        None
    } else {
        cut(s.drop_last(), bytes)
    }
}

fn width_of(c: char) -> (r: usize)
    ensures
        r == width(c),
{
    if c as u32 <= 0x7f {
        1
    } else if c as u32 <= 0x7ff {
        2
    } else if c as u32 <= 0xffff {
        3
    } else {
        4
    }
}

proof fn lemma_byte_len(s: Seq<char>, n: int)
    requires
        0 <= n <= s.len(),
    ensures
        byte_len(s.take(n)) <= byte_len(s),
        n <= byte_len(s.take(n)) <= 4 * n,
        n < s.len() ==> byte_len(s.take(n)) < byte_len(s),
    decreases s.len(),
{
    if n < s.len() {
        lemma_byte_len(s.drop_last(), n);
        assert(s.drop_last().take(n) =~= s.take(n));
    } else {
        assert(s.take(n) =~= s);
        if n > 0 {
            lemma_byte_len(s.drop_last(), n - 1);
            assert(s.drop_last().take(n - 1) =~= s.drop_last());
        }
    }
}

proof fn lemma_cut(s: Seq<char>, bytes: nat, n: int)
    requires
        0 <= n <= s.len(),
        byte_len(s.take(n)) == bytes,
    ensures
        cut(s, bytes) == Some(n),
    decreases s.len(),
{
    lemma_byte_len(s, n);
    if n < s.len() {
        assert(s.drop_last().take(n) =~= s.take(n));
        lemma_cut(s.drop_last(), bytes, n);
    } else {
        assert(s.take(n) =~= s);
    }
}

proof fn lemma_no_cut(s: Seq<char>, bytes: nat)
    requires
        forall|n: int| 0 <= n <= s.len() ==> byte_len(#[trigger] s.take(n)) != bytes,
    ensures
        cut(s, bytes) is None,
    decreases s.len(),
{
    assert(s.take(s.len() as int) =~= s);
    if s.len() > 0 {
        let t = s.drop_last();
        assert forall|n: int| 0 <= n <= t.len() implies byte_len(#[trigger] t.take(n)) != bytes by {
            assert(t.take(n) =~= s.take(n));
        }
        lemma_no_cut(t, bytes);
    }
}

/// Where the first bytes of a text end; the whole text is looked through.
fn find_cut(v: &Vec<char>, bytes: usize) -> (r: Option<usize>)
    requires
        bytes <= 32,
    ensures
        match r {
            Some(n) => cut(v@, bytes as nat) == Some(n as int) && n <= v@.len(),
            None => cut(v@, bytes as nat) is None,
        },
{
    let mut total: usize = 0;
    let mut i: usize = 0;
    assert(byte_len(v@.take(0)) == 0);
    while i < v.len() && total < bytes
        invariant
            i <= v@.len(),
            total == byte_len(v@.take(i as int)),
            total <= 36,
            bytes <= 32,
            forall|n: int| 0 <= n < i ==> byte_len(#[trigger] v@.take(n)) < bytes,
        decreases v@.len() - i,
    {
        proof {
            assert(v@.take(i + 1).drop_last() =~= v@.take(i as int));
        }
        total = total + width_of(v[i]);
        i += 1;
    }
    if total == bytes {
        proof {
            lemma_cut(v@, bytes as nat, i as int);
        }
        Some(i)
    } else {
        proof {
            assert forall|n: int| 0 <= n <= v@.len() implies byte_len(#[trigger] v@.take(n))
                != bytes by {
                if n >= i {
                    lemma_byte_len(v@.take(n), i as int);
                    assert(v@.take(n).take(i as int) =~= v@.take(i as int));
                    if total < bytes {
                        assert(i == v@.len());
                        assert(n == i);
                    }
                }
            }
            lemma_no_cut(v@, bytes as nat);
        }
        None
    }
}

/// An id of a player with dashes: behind 8, 12, 16 and 20 of its 32 bytes.
pub open spec fn dashed(raw: Seq<char>, a: int, b: int, c: int, d: int) -> Seq<char> {
    raw.take(a) + "-"@ + raw.subrange(a, b) + "-"@ + raw.subrange(b, c) + "-"@ + raw.subrange(c, d)
        + "-"@ + raw.skip(d)
}

/// Whether the dashes of an id fall between characters.
pub open spec fn cuts_fit(raw: Seq<char>) -> bool {
    cut(raw, 8) is Some && cut(raw, 12) is Some && cut(raw, 16) is Some && cut(raw, 20) is Some
}

/// An id of a player with dashes. One that has not 32 bytes is refused.
pub fn format_uuid(raw: &str) -> (r: Result<String, String>)
    requires
        byte_len(raw@) == 32 ==> cuts_fit(raw@),
    ensures
        match r {
            Ok(u) => byte_len(raw@) == 32 && u@ == dashed(
                raw@,
                cut(raw@, 8)->0,
                cut(raw@, 12)->0,
                cut(raw@, 16)->0,
                cut(raw@, 20)->0,
            ),
            Err(e) => byte_len(raw@) != 32 && e@ == "Unexpected UUID length from Mojang: '"@ + raw@
                + "'"@,
        },
{
    let v = text::chars(raw);
    let n: usize = v.len();
    let whole = match find_cut(&v, 32) {
        Some(k) => k == n,
        None => false,
    };
    proof {
        lemma_whole(raw@);
        if whole {
            lemma_cut_is(raw@, 32);
            assert(raw@.take(n as int) =~= raw@);
        }
    }
    if !whole {
        let mut m = "Unexpected UUID length from Mojang: '".to_string();
        m.append(raw);
        m.append("'");
        return Err(m);
    }
    let a: usize = match find_cut(&v, 8) {
        Some(k) => k,
        None => 0,
    };
    let b: usize = match find_cut(&v, 12) {
        Some(k) => k,
        None => 0,
    };
    let c: usize = match find_cut(&v, 16) {
        Some(k) => k,
        None => 0,
    };
    let d: usize = match find_cut(&v, 20) {
        Some(k) => k,
        None => 0,
    };
    proof {
        lemma_cut_is(raw@, 8);
        lemma_cut_is(raw@, 12);
        lemma_cut_is(raw@, 16);
        lemma_cut_is(raw@, 20);
        lemma_cuts_grow(raw@, a as int, b as int);
        lemma_cuts_grow(raw@, b as int, c as int);
        lemma_cuts_grow(raw@, c as int, d as int);
    }
    let mut u = text::part(&v, 0, a);
    let p2 = text::part(&v, a, b);
    let p3 = text::part(&v, b, c);
    let p4 = text::part(&v, c, d);
    let p5 = text::part(&v, d, n);
    u.append("-");
    u.append(p2.as_str());
    u.append("-");
    u.append(p3.as_str());
    u.append("-");
    u.append(p4.as_str());
    u.append("-");
    u.append(p5.as_str());
    assert(u@ =~= dashed(raw@, a as int, b as int, c as int, d as int));
    Ok(u)
}

proof fn lemma_cut_is(s: Seq<char>, bytes: nat)
    ensures
        cut(s, bytes) matches Some(n) ==> 0 <= n <= s.len() && byte_len(s.take(n)) == bytes,
    decreases s.len(),
{
    if byte_len(s) == bytes {
        assert(s.take(s.len() as int) =~= s);
    } else if s.len() > 0 {
        lemma_cut_is(s.drop_last(), bytes);
        if let Some(n) = cut(s, bytes) {
            assert(s.drop_last().take(n) =~= s.take(n));
        }
    }
}

proof fn lemma_whole(s: Seq<char>)
    ensures
        byte_len(s) == 32 ==> cut(s, 32) == Some(s.len() as int),
{
    if byte_len(s) == 32 {
        assert(s.take(s.len() as int) =~= s);
        lemma_cut(s, 32, s.len() as int);
    }
}

proof fn lemma_cuts_grow(s: Seq<char>, a: int, b: int)
    requires
        0 <= a <= s.len(),
        0 <= b <= s.len(),
        byte_len(s.take(a)) < byte_len(s.take(b)),
    ensures
        a <= b,
{
    if b < a {
        lemma_byte_len(s.take(a), b);
        assert(s.take(a).take(b) =~= s.take(b));
    }
}

/// The entry of a player whom Mojang tells of.
pub fn profile_entry(id: &str, name: &str) -> (r: Result<WhitelistEntry, String>)
    requires
        byte_len(id@) == 32 ==> cuts_fit(id@),
    ensures
        match r {
            Ok(e) => byte_len(id@) == 32 && e.name@ == name@ && e.uuid@ == dashed(
                id@,
                cut(id@, 8)->0,
                cut(id@, 12)->0,
                cut(id@, 16)->0,
                cut(id@, 20)->0,
            ),
            Err(e) => byte_len(id@) != 32 && e@ == "Unexpected UUID length from Mojang: '"@ + id@
                + "'"@,
        },
{
    match format_uuid(id) {
        Ok(uuid) => Ok(WhitelistEntry { uuid, name: name.to_string() }),
        Err(e) => Err(e),
    }
}

/// The 32 digits that Mojang sends always get dashes.
pub proof fn law_digits_get_dashes(raw: Seq<char>)
    requires
        raw.len() == 32,
        forall|i: int| 0 <= i < raw.len() ==> (#[trigger] raw[i]) as u32 <= 0x7f,
    ensures
        byte_len(raw) == 32,
        cuts_fit(raw),
        dashed(raw, cut(raw, 8)->0, cut(raw, 12)->0, cut(raw, 16)->0, cut(raw, 20)->0) == dashed(
            raw,
            8,
            12,
            16,
            20,
        ),
{
    lemma_ascii_len(raw);
    lemma_ascii_len(raw.take(8));
    lemma_ascii_len(raw.take(12));
    lemma_ascii_len(raw.take(16));
    lemma_ascii_len(raw.take(20));
    lemma_cut(raw, 8, 8);
    lemma_cut(raw, 12, 12);
    lemma_cut(raw, 16, 16);
    lemma_cut(raw, 20, 20);
}

proof fn lemma_ascii_len(s: Seq<char>)
    requires
        forall|i: int| 0 <= i < s.len() ==> (#[trigger] s[i]) as u32 <= 0x7f,
    ensures
        byte_len(s) == s.len(),
    decreases s.len(),
{
    if s.len() > 0 {
        assert(s[s.len() - 1] as u32 <= 0x7f);
        lemma_ascii_len(s.drop_last());
    }
}

} // verus!
