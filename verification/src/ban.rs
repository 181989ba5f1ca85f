//! The bans that all servers share.

use crate::paths;
use crate::state::Registry;
use crate::text;
use crate::time;
use crate::whitelist;
use vstd::prelude::*;

verus! {

/// A banned player.
#[derive(Debug)]
pub struct BannedPlayer {
    pub uuid: String,
    pub name: String,
    pub created: String,
    pub source: String,
    pub expires: String,
    pub reason: String,
}

impl Clone for BannedPlayer {
    fn clone(&self) -> (r: Self)
        ensures
            r == *self,
    {
        BannedPlayer {
            uuid: self.uuid.clone(),
            name: self.name.clone(),
            created: self.created.clone(),
            source: self.source.clone(),
            expires: self.expires.clone(),
            reason: self.reason.clone(),
        }
    }
}

/// A banned address.
#[derive(Debug)]
pub struct BannedIp {
    pub ip: String,
    pub created: String,
    pub source: String,
    pub expires: String,
    pub reason: String,
}

impl Clone for BannedIp {
    fn clone(&self) -> (r: Self)
        ensures
            r == *self,
    {
        BannedIp {
            ip: self.ip.clone(),
            created: self.created.clone(),
            source: self.source.clone(),
            expires: self.expires.clone(),
            reason: self.reason.clone(),
        }
    }
}

// ---------------------------------------------------------------------------
// New bans
// ---------------------------------------------------------------------------

/// Whether a ban of a player is a new one with these contents.
pub open spec fn player_ban(
    b: BannedPlayer,
    uuid: Seq<char>,
    name: Seq<char>,
    reason: Seq<char>,
    created: Seq<char>,
) -> bool {
    &&& b.uuid@ == uuid
    &&& b.name@ == name
    &&& b.created@ == created
    &&& b.source@ == "MSM"@
    &&& b.expires@ == "forever"@
    &&& b.reason@ == reason
}

/// Whether a ban of an address is a new one with these contents.
pub open spec fn ip_ban(b: BannedIp, ip: Seq<char>, reason: Seq<char>, created: Seq<char>) -> bool {
    &&& b.ip@ == ip
    &&& b.created@ == created
    &&& b.source@ == "MSM"@
    &&& b.expires@ == "forever"@
    &&& b.reason@ == reason
}

/// A ban of a player that is made now.
pub fn new_player_ban(uuid: String, name: String, reason: String) -> (r: BannedPlayer)
    ensures
        exists|secs: int|
            0 <= secs <= time::LAST_SECOND && player_ban(
                r,
                uuid@,
                name@,
                reason@,
                #[trigger] time::utc_text(secs, time::BAN_FORMAT@),
            ),
{
    let now = time::now();
    player_ban_at(uuid, name, reason, now.secs)
}

/// A ban of a player that is made at a second.
pub fn player_ban_at(uuid: String, name: String, reason: String, secs: i64) -> (r: BannedPlayer)
    requires
        0 <= secs <= time::LAST_SECOND,
    ensures
        player_ban(r, uuid@, name@, reason@, time::utc_text(secs as int, time::BAN_FORMAT@)),
{
    BannedPlayer {
        uuid,
        name,
        created: time::ban_date(secs),
        source: "MSM".to_string(),
        expires: "forever".to_string(),
        reason,
    }
}

/// A ban of an address that is made now.
pub fn new_ip_ban(ip: String, reason: String) -> (r: BannedIp)
    ensures
        exists|secs: int|
            0 <= secs <= time::LAST_SECOND && ip_ban(
                r,
                ip@,
                reason@,
                #[trigger] time::utc_text(secs, time::BAN_FORMAT@),
            ),
{
    let now = time::now();
    ip_ban_at(ip, reason, now.secs)
}

/// A ban of an address that is made at a second.
pub fn ip_ban_at(ip: String, reason: String, secs: i64) -> (r: BannedIp)
    requires
        0 <= secs <= time::LAST_SECOND,
    ensures
        ip_ban(r, ip@, reason@, time::utc_text(secs as int, time::BAN_FORMAT@)),
{
    BannedIp {
        ip,
        created: time::ban_date(secs),
        source: "MSM".to_string(),
        expires: "forever".to_string(),
        reason,
    }
}

/// The reason of a ban: one that is not given is filled in.
pub open spec fn reason_of(reason: Seq<char>) -> Seq<char> {
    if reason.len() == 0 {
        "Banned by an operator."@
    } else {
        reason
    }
}

/// The reason of a ban.
pub fn reason_or_default(reason: &str) -> (r: String)
    ensures
        r@ == reason_of(reason@),
{
    if reason.is_empty() {
        "Banned by an operator.".to_string()
    } else {
        reason.to_string()
    }
}

// ---------------------------------------------------------------------------
// Files
// ---------------------------------------------------------------------------

/// The file of banned players in a folder.
pub fn banned_players_path(dir: &str) -> (r: String)
    ensures
        r@ == paths::joined_path(dir@, "banned-players.json"@),
{
    paths::join(dir, "banned-players.json")
}

/// The file of banned addresses in a folder.
pub fn banned_ips_path(dir: &str) -> (r: String)
    ensures
        r@ == paths::joined_path(dir@, "banned-ips.json"@),
{
    paths::join(dir, "banned-ips.json")
}

/// What is done for the servers when the bans change: each gets them, and those that run are told.
pub fn sync_all(reg: &Registry) -> (r: Vec<whitelist::Sync>)
    ensures
        whitelist::sync_views(r@) == whitelist::syncs_of(reg@),
{
    whitelist::sync_all(reg)
}

/// The command that makes a server read its bans again.
pub const RELOAD_COMMAND: &'static str = "banlist reload";

// ---------------------------------------------------------------------------
// Adding and removing
// ---------------------------------------------------------------------------

/// Whether a player of a name is banned; the case of letters of ASCII does not count.
pub open spec fn player_banned(list: Seq<BannedPlayer>, name: Seq<char>) -> bool {
    exists|i: int| 0 <= i < list.len() && whitelist::same_name((#[trigger] list[i]).name@, name)
}

/// Which bans are of players of another name.
pub open spec fn of_other_player(name: Seq<char>) -> spec_fn(BannedPlayer) -> bool {
    |b: BannedPlayer| !whitelist::same_name(b.name@, name)
}

/// Checks that a player of a name is not banned yet.
pub fn check_player(list: &Vec<BannedPlayer>, name: &str) -> (r: Result<(), String>)
    ensures
        match r {
            Ok(_) => !player_banned(list@, name@),
            Err(e) => player_banned(list@, name@) && e@ == whitelist::name_message(
                name@,
                "already banned"@,
            ),
        },
{
    for i in 0..list.len()
        invariant
            forall|j: int|
                0 <= j < i ==> !whitelist::same_name((#[trigger] list@[j]).name@, name@),
    {
        if text::eq_ignore_ascii_case(list[i].name.as_str(), name) {
            return Err(whitelist::name_text(name, "already banned"));
        }
    }
    Ok(())
}

/// The banned players with one more; a name that is banned already is refused.
pub fn ban_player(list: Vec<BannedPlayer>, entry: BannedPlayer) -> (r: Result<
    Vec<BannedPlayer>,
    String,
>)
    ensures
        match r {
            Ok(more) => !player_banned(list@, entry.name@) && more@ == list@.push(entry),
            Err(e) => player_banned(list@, entry.name@) && e@ == whitelist::name_message(
                entry.name@,
                "already banned"@,
            ),
        },
{
    if let Err(e) = check_player(&list, entry.name.as_str()) {
        return Err(e);
    }
    let mut list = list;
    list.push(entry);
    Ok(list)
}

/// The banned players without those of a name; a name that is not banned is refused.
pub fn unban_player(list: &Vec<BannedPlayer>, name: &str) -> (r: Result<Vec<BannedPlayer>, String>)
    ensures
        match r {
            Ok(kept) => player_banned(list@, name@) && kept@ == list@.filter(
                of_other_player(name@),
            ),
            Err(e) => !player_banned(list@, name@) && e@ == whitelist::name_message(
                name@,
                "not banned"@,
            ),
        },
{
    let mut kept: Vec<BannedPlayer> = Vec::new();
    let mut found = false;
    proof {
        reveal(Seq::filter);
        assert(kept@ =~= list@.take(0).filter(of_other_player(name@)));
    }
    for i in 0..list.len()
        invariant
            kept@ == list@.take(i as int).filter(of_other_player(name@)),
            found == exists|j: int|
                0 <= j < i && whitelist::same_name((#[trigger] list@[j]).name@, name@),
    {
        proof {
            reveal(Seq::filter);
            assert(list@.take(i + 1).drop_last() =~= list@.take(i as int));
            assert(list@.take(i + 1).last() == list@[i as int]);
        }
        if text::eq_ignore_ascii_case(list[i].name.as_str(), name) {
            found = true;
        } else {
            kept.push(list[i].clone());
        }
    }
    assert(list@.take(list@.len() as int) =~= list@);
    if found {
        Ok(kept)
    } else {
        Err(whitelist::name_text(name, "not banned"))
    }
}

/// Whether an address is banned.
pub open spec fn ip_banned(list: Seq<BannedIp>, ip: Seq<char>) -> bool {
    exists|i: int| 0 <= i < list.len() && (#[trigger] list[i]).ip@ == ip
}

/// Which bans are of other addresses.
pub open spec fn of_other_ip(ip: Seq<char>) -> spec_fn(BannedIp) -> bool {
    |b: BannedIp| b.ip@ != ip
}

/// Checks that an address is not banned yet.
pub fn check_ip(list: &Vec<BannedIp>, ip: &str) -> (r: Result<(), String>)
    ensures
        match r {
            Ok(_) => !ip_banned(list@, ip@),
            Err(e) => ip_banned(list@, ip@) && e@ == whitelist::name_message(
                ip@,
                "already banned"@,
            ),
        },
{
    for i in 0..list.len()
        invariant
            forall|j: int| 0 <= j < i ==> (#[trigger] list@[j]).ip@ != ip@,
    {
        if text::same(list[i].ip.as_str(), ip) {
            return Err(whitelist::name_text(ip, "already banned"));
        }
    }
    Ok(())
}

/// The banned addresses with one more; an address that is banned already is refused.
pub fn ban_ip(list: Vec<BannedIp>, entry: BannedIp) -> (r: Result<Vec<BannedIp>, String>)
    ensures
        match r {
            Ok(more) => !ip_banned(list@, entry.ip@) && more@ == list@.push(entry),
            Err(e) => ip_banned(list@, entry.ip@) && e@ == whitelist::name_message(
                entry.ip@,
                "already banned"@,
            ),
        },
{
    if let Err(e) = check_ip(&list, entry.ip.as_str()) {
        return Err(e);
    }
    let mut list = list;
    list.push(entry);
    Ok(list)
}

/// The banned addresses without one; an address that is not banned is refused.
pub fn unban_ip(list: &Vec<BannedIp>, ip: &str) -> (r: Result<Vec<BannedIp>, String>)
    ensures
        match r {
            Ok(kept) => ip_banned(list@, ip@) && kept@ == list@.filter(of_other_ip(ip@)),
            Err(e) => !ip_banned(list@, ip@) && e@ == whitelist::name_message(
                ip@,
                "not banned"@,
            ),
        },
{
    let mut kept: Vec<BannedIp> = Vec::new();
    let mut found = false;
    proof {
        reveal(Seq::filter);
        assert(kept@ =~= list@.take(0).filter(of_other_ip(ip@)));
    }
    for i in 0..list.len()
        invariant
            kept@ == list@.take(i as int).filter(of_other_ip(ip@)),
            found == exists|j: int| 0 <= j < i && (#[trigger] list@[j]).ip@ == ip@,
    {
        proof {
            reveal(Seq::filter);
            assert(list@.take(i + 1).drop_last() =~= list@.take(i as int));
            assert(list@.take(i + 1).last() == list@[i as int]);
        }
        if text::same(list[i].ip.as_str(), ip) {
            found = true;
        } else {
            kept.push(list[i].clone());
        }
    }
    assert(list@.take(list@.len() as int) =~= list@);
    if found {
        Ok(kept)
    } else {
        Err(whitelist::name_text(ip, "not banned"))
    }
}

/// A player who was banned is banned under every spelling of the name, and lifting the ban leaves
/// the list as it was.
pub proof fn law_ban_then_unban(list: Seq<BannedPlayer>, b: BannedPlayer, spelling: Seq<char>)
    requires
        !player_banned(list, b.name@),
        whitelist::same_name(spelling, b.name@),
    ensures
        player_banned(list.push(b), spelling),
        list.push(b).filter(of_other_player(spelling)) == list,
{
    let more = list.push(b);
    assert(more[list.len() as int] == b);
    reveal(Seq::filter);
    assert(more.drop_last() =~= list);
    lemma_no_player_goes(list, spelling, b.name@);
}

proof fn lemma_no_player_goes(list: Seq<BannedPlayer>, spelling: Seq<char>, name: Seq<char>)
    requires
        !player_banned(list, name),
        whitelist::same_name(spelling, name),
    ensures
        list.filter(of_other_player(spelling)) == list,
    decreases list.len(),
{
    reveal(Seq::filter);
    if list.len() > 0 {
        let front = list.drop_last();
        assert forall|i: int| 0 <= i < front.len() implies !whitelist::same_name(
            (#[trigger] front[i]).name@,
            name,
        ) by {
            assert(list[i] == front[i]);
        }
        lemma_no_player_goes(front, spelling, name);
        assert(list[list.len() - 1] == list.last());
        assert(list =~= front.push(list.last()));
    } else {
        assert(list.filter(of_other_player(spelling)) =~= list);
    }
}

/// An address that was banned is banned, and lifting the ban leaves the list as it was.
pub proof fn law_ban_ip_then_unban(list: Seq<BannedIp>, b: BannedIp)
    requires
        !ip_banned(list, b.ip@),
    ensures
        ip_banned(list.push(b), b.ip@),
        list.push(b).filter(of_other_ip(b.ip@)) == list,
{
    let more = list.push(b);
    assert(more[list.len() as int] == b);
    reveal(Seq::filter);
    assert(more.drop_last() =~= list);
    lemma_no_ip_goes(list, b.ip@);
}

proof fn lemma_no_ip_goes(list: Seq<BannedIp>, ip: Seq<char>)
    requires
        !ip_banned(list, ip),
    ensures
        list.filter(of_other_ip(ip)) == list,
    decreases list.len(),
{
    reveal(Seq::filter);
    if list.len() > 0 {
        let front = list.drop_last();
        assert forall|i: int| 0 <= i < front.len() implies (#[trigger] front[i]).ip@ != ip by {
            assert(list[i] == front[i]);
        }
        lemma_no_ip_goes(front, ip);
        assert(list[list.len() - 1] == list.last());
        assert(list =~= front.push(list.last()));
    } else {
        assert(list.filter(of_other_ip(ip)) =~= list);
    }
}

} // verus!
