//! What the shared whitelist and the shared bans are for, in plain terms.

use crate::ban;
use crate::ban::BannedIp;
use crate::ban::BannedPlayer;
use crate::state::InstanceModel;
use crate::state::InstanceStatus;
use crate::text_laws;
use crate::time;
use crate::whitelist;
use vstd::prelude::*;

verus! {

/// Whether two characters are the same, or a letter of `A` to `Z` and its small form.
pub open spec fn same_letter(a: char, b: char) -> bool {
    ||| a == b
    ||| 'A' <= a <= 'Z' && b as int == a as int + 32
    ||| 'A' <= b <= 'Z' && a as int == b as int + 32
}

/// Whether two names are the same but for capital letters.
pub open spec fn spelt_alike(a: Seq<char>, b: Seq<char>) -> bool {
    &&& a.len() == b.len()
    &&& forall|i: int| 0 <= i < a.len() ==> same_letter(#[trigger] a[i], b[i])
}

/// Names of players are held against each other letter by letter, without regard to capitals.
pub proof fn law_names_are_held_against_each_other(a: Seq<char>, b: Seq<char>)
    ensures
        whitelist::same_name(a, b) <==> spelt_alike(a, b),
{
    text_laws::law_lower_case(a);
    text_laws::law_lower_case(b);
    let x = crate::text::lowered(a);
    let y = crate::text::lowered(b);
    if whitelist::same_name(a, b) {
        assert(a.len() == b.len());
        assert forall|i: int| 0 <= i < a.len() implies same_letter(#[trigger] a[i], b[i]) by {
            assert(x[i] == y[i]);
        }
    }
    if spelt_alike(a, b) {
        assert forall|i: int| 0 <= i < x.len() implies x[i] == y[i] by {
            assert(same_letter(a[i], b[i]));
        }
        assert(x =~= y);
    }
}

/// A name is on the whitelist just where some entry has it, in whatever spelling.
pub proof fn law_listed_names(entries: Seq<(Seq<char>, Seq<char>)>, name: Seq<char>)
    ensures
        whitelist::listed(entries, name) <==> exists|i: int|
            0 <= i < entries.len() && spelt_alike((#[trigger] entries[i]).1, name),
{
    assert forall|i: int| 0 <= i < entries.len() implies (whitelist::same_name(
        (#[trigger] entries[i]).1,
        name,
    ) <==> spelt_alike(entries[i].1, name)) by {
        law_names_are_held_against_each_other(entries[i].1, name);
    }
}

/// Removing a name passes over the entries that have it and keeps all others, as they are and in
/// their order.
pub proof fn law_removing_a_name(
    entries: Seq<(Seq<char>, Seq<char>)>,
    e: (Seq<char>, Seq<char>),
    name: Seq<char>,
)
    ensures
        ({
            let gone = whitelist::of_other_name(name);
            &&& Seq::<(Seq<char>, Seq<char>)>::empty().filter(gone).len() == 0
            &&& spelt_alike(e.1, name) ==> entries.push(e).filter(gone) == entries.filter(gone)
            &&& !spelt_alike(e.1, name) ==> entries.push(e).filter(gone) == entries.filter(
                gone,
            ).push(e)
        }),
{
    reveal(Seq::filter);
    assert(entries.push(e).drop_last() =~= entries);
    law_names_are_held_against_each_other(e.1, name);
}

/// A player is banned just where some ban has the name, in whatever spelling; lifting the bans of a
/// name passes over those and keeps all others.
pub proof fn law_banned_players(list: Seq<BannedPlayer>, b: BannedPlayer, name: Seq<char>)
    ensures
        ban::player_banned(list, name) <==> exists|i: int|
            0 <= i < list.len() && spelt_alike((#[trigger] list[i]).name@, name),
        ({
            let gone = ban::of_other_player(name);
            &&& Seq::<BannedPlayer>::empty().filter(gone).len() == 0
            &&& spelt_alike(b.name@, name) ==> list.push(b).filter(gone) == list.filter(gone)
            &&& !spelt_alike(b.name@, name) ==> list.push(b).filter(gone) == list.filter(
                gone,
            ).push(b)
        }),
{
    assert forall|i: int| 0 <= i < list.len() implies (whitelist::same_name(
        (#[trigger] list[i]).name@,
        name,
    ) <==> spelt_alike(list[i].name@, name)) by {
        law_names_are_held_against_each_other(list[i].name@, name);
    }
    reveal(Seq::filter);
    assert(list.push(b).drop_last() =~= list);
    law_names_are_held_against_each_other(b.name@, name);
}

/// An address is banned just where some ban has it, letter for letter; lifting the bans of an address
/// passes over those and keeps all others.
pub proof fn law_banned_addresses(list: Seq<BannedIp>, b: BannedIp, ip: Seq<char>)
    ensures
        ban::ip_banned(list, ip) <==> exists|i: int|
            0 <= i < list.len() && (#[trigger] list[i]).ip@ == ip,
        ({
            let gone = ban::of_other_ip(ip);
            &&& Seq::<BannedIp>::empty().filter(gone).len() == 0
            &&& b.ip@ == ip ==> list.push(b).filter(gone) == list.filter(gone)
            &&& b.ip@ != ip ==> list.push(b).filter(gone) == list.filter(gone).push(b)
        }),
{
    reveal(Seq::filter);
    assert(list.push(b).drop_last() =~= list);
}

/// A new ban of a player is that player's, made by this program, for ever, at its time and for its
/// reason.
pub proof fn law_new_bans(
    b: BannedPlayer,
    c: BannedIp,
    who: Seq<char>,
    name: Seq<char>,
    reason: Seq<char>,
    created: Seq<char>,
)
    ensures
        ban::player_ban(b, who, name, reason, created) <==> b.uuid@ == who && b.name@ == name
            && b.created@ == created && b.source@ == "MSM"@ && b.expires@ == "forever"@
            && b.reason@ == reason,
        ban::ip_ban(c, who, reason, created) <==> c.ip@ == who && c.created@ == created
            && c.source@ == "MSM"@ && c.expires@ == "forever"@ && c.reason@ == reason,
        time::BAN_FORMAT@ == "%Y-%m-%d %H:%M:%S %z"@,
        reason.len() > 0 ==> ban::reason_of(reason) == reason,
        ban::reason_of(Seq::empty()) == "Banned by an operator."@,
{
}

/// Every server gets the shared lists in its own folder, and just those that run are told to read them
/// again.
pub proof fn law_lists_go_to_every_server(reg: Seq<InstanceModel>, i: int)
    requires
        0 <= i < reg.len(),
    ensures
        whitelist::syncs_of(reg).len() == reg.len(),
        whitelist::syncs_of(reg)[i].0 == reg[i].id,
        whitelist::syncs_of(reg)[i].1 == reg[i].config.server.path@,
        whitelist::syncs_of(reg)[i].2 <==> reg[i].status == InstanceStatus::Running,
        whitelist::RELOAD_COMMAND@ == "whitelist reload"@,
        ban::RELOAD_COMMAND@ == "banlist reload"@,
{
}

/// The 32 digits that tell who a player is are written in groups of eight, four, four, four and
/// twelve, with dashes between them.
pub proof fn law_digits_are_grouped(
    a: Seq<char>,
    b: Seq<char>,
    c: Seq<char>,
    d: Seq<char>,
    e: Seq<char>,
)
    requires
        a.len() == 8,
        b.len() == 4,
        c.len() == 4,
        d.len() == 4,
        e.len() == 12,
        forall|i: int|
            0 <= i < 32 ==> (#[trigger] (a + b + c + d + e)[i]) as u32 <= 0x7f,
    ensures
        ({
            let raw = a + b + c + d + e;
            &&& whitelist::byte_len(raw) == 32
            &&& whitelist::cuts_fit(raw)
            &&& whitelist::dashed(
                raw,
                whitelist::cut(raw, 8)->0,
                whitelist::cut(raw, 12)->0,
                whitelist::cut(raw, 16)->0,
                whitelist::cut(raw, 20)->0,
            ) == a + "-"@ + b + "-"@ + c + "-"@ + d + "-"@ + e
        }),
{
    let raw = a + b + c + d + e;
    whitelist::law_digits_get_dashes(raw);
    assert(raw.take(8) =~= a);
    assert(raw.subrange(8, 12) =~= b);
    assert(raw.subrange(12, 16) =~= c);
    assert(raw.subrange(16, 20) =~= d);
    assert(raw.skip(20) =~= e);
}

/// How long a text of plain ASCII is in bytes: as long as it has characters.
pub proof fn law_plain_texts_are_as_long(s: Seq<char>, c: char)
    ensures
        c as u32 <= 0x7f ==> whitelist::byte_len(s.push(c)) == whitelist::byte_len(s) + 1,
        0x7f < c as u32 <= 0x7ff ==> whitelist::byte_len(s.push(c)) == whitelist::byte_len(s) + 2,
        0x7ff < c as u32 <= 0xffff ==> whitelist::byte_len(s.push(c)) == whitelist::byte_len(s)
            + 3,
        0xffff < c as u32 ==> whitelist::byte_len(s.push(c)) == whitelist::byte_len(s) + 4,
        whitelist::byte_len(Seq::empty()) == 0,
{
    assert(s.push(c).drop_last() =~= s);
}

} // verus!
