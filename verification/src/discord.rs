//! What the Discord bot says.

use crate::instance;
use crate::order;
use crate::slug;
use crate::state;
use crate::state::EventModel;
use crate::state::InstanceModel;
use crate::state::InstanceStatus;
use crate::state::Moment;
use crate::state::Registry;
use crate::state::WsEvent;
use crate::text;
use crate::time;
use vstd::prelude::*;

verus! {

// ---------------------------------------------------------------------------
// Status
// ---------------------------------------------------------------------------

/// The sign of a status.
pub open spec fn icon_of(s: InstanceStatus) -> Seq<char> {
    match s {
        InstanceStatus::Running => "🟢"@,
        InstanceStatus::Starting => "🟡"@,
        InstanceStatus::Stopping => "🟠"@,
        InstanceStatus::Stopped => "⚫"@,
        InstanceStatus::Crashed => "🔴"@,
    }
}

/// The sign of a status.
pub fn status_icon(s: InstanceStatus) -> (r: &'static str)
    ensures
        r@ == icon_of(s),
{
    match s {
        InstanceStatus::Running => "🟢",
        InstanceStatus::Starting => "🟡",
        InstanceStatus::Stopping => "🟠",
        InstanceStatus::Stopped => "⚫",
        InstanceStatus::Crashed => "🔴",
    }
}

/// The word for a status.
pub open spec fn label_of(s: InstanceStatus) -> Seq<char> {
    match s {
        InstanceStatus::Running => "RUNNING"@,
        InstanceStatus::Starting => "STARTING"@,
        InstanceStatus::Stopping => "STOPPING"@,
        InstanceStatus::Stopped => "STOPPED"@,
        InstanceStatus::Crashed => "CRASHED"@,
    }
}

/// The word for a status.
pub fn status_label(s: InstanceStatus) -> (r: &'static str)
    ensures
        r@ == label_of(s),
{
    match s {
        InstanceStatus::Running => "RUNNING",
        InstanceStatus::Starting => "STARTING",
        InstanceStatus::Stopping => "STOPPING",
        InstanceStatus::Stopped => "STOPPED",
        InstanceStatus::Crashed => "CRASHED",
    }
}

/// The instance that runs, by its id and the name that people see.
pub fn running_instance(reg: &Registry) -> (r: Option<(String, String)>)
    ensures
        text::pair_view(r) == (match state::running_slot(reg@) {
            Some(i) => Some((reg@[i].id, reg@[i].shown_name())),
            None => None,
        }),
{
    match reg.find_running() {
        Some(i) => {
            let inst = &reg.list[i];
            assert(inst@ == reg@[i as int]);
            Some((inst.id.clone(), inst.display()))
        },
        None => None,
    }
}

/// A time in hours, minutes and seconds.
pub open spec fn clock_text(secs: nat) -> Seq<char> {
    text::two_digits(secs / 3600) + ":"@ + text::two_digits((secs % 3600) / 60) + ":"@
        + text::two_digits(secs % 60)
}

/// A time in hours, minutes and seconds.
pub fn format_uptime(secs: u64) -> (r: String)
    ensures
        r@ == clock_text(secs as nat),
{
    let mut s = text::two_digit(secs / 3600);
    let m = text::two_digit((secs % 3600) / 60);
    let t = text::two_digit(secs % 60);
    s.append(":");
    s.append(m.as_str());
    s.append(":");
    s.append(t.as_str());
    s
}

/// How long a server is up.
pub open spec fn uptime_of(started_at: Option<Moment>, now: Moment) -> Seq<char> {
    match started_at {
        Some(t) => clock_text(time::seconds_between(t, now) as nat),
        None => "unknown"@,
    }
}

/// What is said of the server that runs.
pub open spec fn status_text(reg: Seq<InstanceModel>, now: Moment) -> Seq<char> {
    match state::running_slot(reg) {
        Some(i) => "🟢 **"@ + reg[i].shown_name() + "** — "@ + text::digits(
            reg[i].players.len(),
        ) + " player(s) online — up "@ + uptime_of(reg[i].started_at, now),
        None => "⚫ No server is currently running."@,
    }
}

/// What is said of the server that runs.
pub fn status(reg: &Registry, now: Moment) -> (r: String)
    requires
        reg.wf(),
        state::proper(now),
    ensures
        r@ == status_text(reg@, now),
{
    match reg.find_running() {
        Some(i) => {
            let inst = &reg.list[i];
            assert(inst@ == reg@[i as int]);
            let up = match inst.started_at {
                Some(t) => format_uptime(time::elapsed_seconds(t, now)),
                None => "unknown".to_string(),
            };
            let mut m = "🟢 **".to_string();
            let name = inst.display();
            m.append(name.as_str());
            m.append("** — ");
            let n = text::decimal(inst.players.len() as u64);
            m.append(n.as_str());
            m.append(" player(s) online — up ");
            m.append(up.as_str());
            m
        },
        None => "⚫ No server is currently running.".to_string(),
    }
}

/// What is said of an instance in a list.
pub open spec fn list_line(m: InstanceModel) -> Seq<char> {
    icon_of(m.status) + " **"@ + m.shown_name() + "** — "@ + label_of(m.status)
}

/// What is said of all instances, line by line.
pub open spec fn list_lines(reg: Seq<InstanceModel>) -> Seq<Seq<char>> {
    reg.map_values(|m: InstanceModel| list_line(m))
}

/// What is said of all instances.
pub open spec fn list_text(reg: Seq<InstanceModel>) -> Seq<char> {
    if reg.len() == 0 {
        "No instances configured."@
    } else {
        text::joined(order::arranged(list_lines(reg), order::by_text()), "\n"@)
    }
}

/// What is said of all instances.
pub fn list(reg: &Registry) -> (r: String)
    ensures
        r@ == list_text(reg@),
{
    if reg.list.len() == 0 {
        return "No instances configured.".to_string();
    }
    let mut lines: Vec<String> = Vec::new();
    for i in 0..reg.list.len()
        invariant
            lines@.len() == i,
            forall|j: int| 0 <= j < i ==> (#[trigger] lines@[j])@ == list_line(reg.list@[j]@),
    {
        let inst = &reg.list[i];
        let mut s = status_icon(inst.status).to_string();
        let name = inst.display();
        s.append(" **");
        s.append(name.as_str());
        s.append("** — ");
        s.append(status_label(inst.status));
        lines.push(s);
    }
    assert(text::views(lines@) =~= list_lines(reg@));
    let sorted = order::sort_texts(lines);
    text::join(&sorted, "\n")
}

/// A player as it is shown.
pub open spec fn quoted(p: Seq<char>) -> Seq<char> {
    "`"@ + p + "`"@
}

/// Players as they are shown.
pub open spec fn all_quoted(players: Seq<Seq<char>>) -> Seq<Seq<char>> {
    players.map_values(|p: Seq<char>| quoted(p))
}

/// What is said of the players.
pub open spec fn players_text(reg: Seq<InstanceModel>) -> Seq<char> {
    match state::running_slot(reg) {
        Some(i) => if reg[i].players.len() == 0 {
            "No players online on **"@ + reg[i].shown_name() + "**."@
        } else {
            "**"@ + reg[i].shown_name() + "** — "@ + text::digits(reg[i].players.len())
                + " player(s): "@ + text::joined(all_quoted(reg[i].players), ", "@)
        },
        None => "⚫ No server is running."@,
    }
}

/// What is said of the players.
pub fn players(reg: &Registry) -> (r: String)
    ensures
        r@ == players_text(reg@),
{
    let i = match reg.find_running() {
        Some(i) => i,
        None => return "⚫ No server is running.".to_string(),
    };
    let inst = &reg.list[i];
    assert(inst@ == reg@[i as int]);
    let name = inst.display();
    if inst.players.len() == 0 {
        let mut m = "No players online on **".to_string();
        m.append(name.as_str());
        m.append("**.");
        return m;
    }
    let mut shown: Vec<String> = Vec::new();
    for k in 0..inst.players.len()
        invariant
            shown@.len() == k,
            forall|j: int| 0 <= j < k ==> (#[trigger] shown@[j])@ == quoted(inst.players@[j]@),
    {
        let mut q = "`".to_string();
        q.append(inst.players[k].as_str());
        q.append("`");
        shown.push(q);
    }
    assert(text::views(shown@) =~= all_quoted(inst@.players));
    let all = text::join(&shown, ", ");
    let mut m = "**".to_string();
    m.append(name.as_str());
    m.append("** — ");
    let n = text::decimal(inst.players.len() as u64);
    m.append(n.as_str());
    m.append(" player(s): ");
    m.append(all.as_str());
    m
}

// ---------------------------------------------------------------------------
// Completion
// ---------------------------------------------------------------------------

/// Whether an instance is offered for what was typed: it stands in its id, or in the name that
/// people see, whatever the case of the name.
pub open spec fn offered(m: InstanceModel, typed: Seq<char>) -> bool {
    text::has(m.id, slug::lowercase(typed)) || text::has(
        slug::lowercase(m.shown_name()),
        slug::lowercase(typed),
    )
}

/// The ids of the instances that are offered.
pub open spec fn offers(reg: Seq<InstanceModel>, typed: Seq<char>) -> Seq<Seq<char>>
    decreases reg.len(),
{
    if reg.len() == 0 {
        Seq::empty()
    } else {
        let front = offers(reg.drop_last(), typed);
        if offered(reg.last(), typed) {
            front.push(reg.last().id)
        } else {
            front
        }
    }
}

/// The ids of the instances that are offered for what was typed, in order.
pub fn autocomplete_instance(reg: &Registry, typed: &str) -> (r: Vec<String>)
    ensures
        text::views(r@) == order::arranged(offers(reg@, typed@), order::by_text()),
{
    let lower = slug::to_lowercase(typed);
    let mut r: Vec<String> = Vec::new();
    assert(text::views(r@) =~= offers(reg@.take(0), typed@));
    for i in 0..reg.list.len()
        invariant
            lower@ == slug::lowercase(typed@),
            text::views(r@) == offers(reg@.take(i as int), typed@),
    {
        assert(reg@.take(i + 1).drop_last() =~= reg@.take(i as int));
        assert(reg@.take(i + 1).last() == reg.list@[i as int]@);
        let ghost before = r@;
        let inst = &reg.list[i];
        let name = inst.display();
        let name_lower = slug::to_lowercase(name.as_str());
        if text::contains(inst.id.as_str(), lower.as_str()) || text::contains(
            name_lower.as_str(),
            lower.as_str(),
        ) {
            r.push(inst.id.clone());
            assert(text::views(r@) =~= text::views(before).push(inst@.id));
        }
    }
    assert(reg@.take(reg@.len() as int) =~= reg@);
    order::sort_texts(r)
}

// ---------------------------------------------------------------------------
// Replies
// ---------------------------------------------------------------------------

/// What a command is about.
#[derive(Debug, Clone, Copy, PartialEq, Eq, Structural)]
pub enum Command {
    Start,
    Stop,
    /// A restart whose stop was asked for.
    RestartStop,
    Restart,
    Switch,
    Backup,
    Console,
}

/// What is said where a command went through. `name` is the instance, or the console command.
pub open spec fn success_of(c: Command, name: Seq<char>) -> Seq<char> {
    match c {
        Command::Start => "▶ Starting **"@ + name + "**…"@,
        Command::Stop => "⏹ Stopping **"@ + name + "**…"@,
        // A stop that went through is followed by the start, of which is told.
        Command::RestartStop => Seq::empty(),
        Command::Restart => "🔄 **"@ + name + "** is restarting."@,
        Command::Switch => "🔀 Switched to **"@ + name + "**."@,
        Command::Backup => "💾 Backup of **"@ + name + "** started…"@,
        Command::Console => "`> "@ + name + "`"@,
    }
}

/// What is said where a command failed.
pub open spec fn failure_of(c: Command, e: Seq<char>) -> Seq<char> {
    (match c {
        Command::RestartStop => "❌ Stop failed: "@,
        Command::Restart => "❌ Start failed after stop: "@,
        _ => "❌ "@,
    }) + e
}

/// What is said of a command.
pub fn reply(c: Command, name: &str, result: &Result<(), String>) -> (r: String)
    ensures
        r@ == (match *result {
            Ok(_) => success_of(c, name@),
            Err(e) => failure_of(c, e@),
        }),
{
    let mut m = String::new();
    match result {
        Ok(_) => {
            match c {
                Command::Start => {
                    m.append("▶ Starting **");
                    m.append(name);
                    m.append("**…");
                },
                Command::Stop => {
                    m.append("⏹ Stopping **");
                    m.append(name);
                    m.append("**…");
                },
                Command::RestartStop => {},
                Command::Restart => {
                    m.append("🔄 **");
                    m.append(name);
                    m.append("** is restarting.");
                },
                Command::Switch => {
                    m.append("🔀 Switched to **");
                    m.append(name);
                    m.append("**.");
                },
                Command::Backup => {
                    m.append("💾 Backup of **");
                    m.append(name);
                    m.append("** started…");
                },
                Command::Console => {
                    m.append("`> ");
                    m.append(name);
                    m.append("`");
                },
            }
            assert(m@ =~= success_of(c, name@));
        },
        Err(e) => {
            match c {
                Command::RestartStop => m.append("❌ Stop failed: "),
                Command::Restart => m.append("❌ Start failed after stop: "),
                _ => m.append("❌ "),
            }
            m.append(e.as_str());
            assert(m@ =~= failure_of(c, e@));
        },
    }
    m
}

/// What is said of the public address.
pub fn ip(address: &str) -> (r: String)
    ensures
        r@ == "🌐 Public IP: `"@ + text::trimmed(address@) + "`"@,
{
    let mut m = "🌐 Public IP: `".to_string();
    let a = text::trim(address);
    m.append(a.as_str());
    m.append("`");
    m
}

/// How long players are warned before a restart by command, in seconds.
pub const RESTART_WARNING_SECS: u64 = 30;

/// What players are told before a restart by command.
pub const RESTART_WARNING: &'static str = "say [MSM] Server restarting in 30 seconds!";

/// Whether a restart by command waits on: the server has neither stopped nor crashed, and no minute
/// has gone by.
pub fn restart(reg: &Registry, id: &str, waited_ms: u64) -> (r: bool)
    ensures
        r == (state::slot(reg@, id@) matches Some(i) && reg@[i].status != InstanceStatus::Stopped
            && reg@[i].status != InstanceStatus::Crashed && waited_ms < instance::SWITCH_LIMIT_MS),
{
    match reg.find(id) {
        Some(i) => reg.list[i].status != InstanceStatus::Stopped && reg.list[i].status
            != InstanceStatus::Crashed && waited_ms < instance::SWITCH_LIMIT_MS,
        None => false,
    }
}

// ---------------------------------------------------------------------------
// Notifications
// ---------------------------------------------------------------------------

/// The whole number nearest to a quotient; of two that are as near the even one.
pub open spec fn nearest(n: nat, d: nat) -> nat {
    let q = n / d;
    let rest = n % d;
    if 2 * rest > d || (2 * rest == d && q % 2 == 1) {
        q + 1
    } else {
        q
    }
}

/// How far numbers of double precision lie apart at a whole number.
pub open spec fn double_unit(n: nat) -> nat
    decreases n,
{
    if n < 0x20000000000000 {
        1
    } else {
        2 * double_unit(n / 2)
    }
}

/// The tenths of mebibytes that a size is shown with: the size as a number of double precision,
/// divided and rounded.
pub open spec fn tenths_of_mebibytes(size_bytes: nat) -> nat {
    let unit = double_unit(size_bytes);
    nearest(10 * (nearest(size_bytes, unit) * unit), 1048576)
}

/// A size in mebibytes, with one decimal.
pub open spec fn size_text(size_bytes: nat) -> Seq<char> {
    let tenths = tenths_of_mebibytes(size_bytes);
    text::digits(tenths / 10) + "."@ + text::digits(tenths % 10)
}

proof fn lemma_double_unit(n: nat)
    ensures
        1 <= double_unit(n),
        n > 0 ==> double_unit(n) <= n,
    decreases n,
{
    if n >= 0x20000000000000 {
        lemma_double_unit(n / 2);
    }
}

fn unit_at(n: u64) -> (r: u64)
    ensures
        r == double_unit(n as nat),
    decreases n,
{
    if n < 0x20000000000000 {
        1
    } else {
        proof {
            lemma_double_unit((n / 2) as nat);
        }
        2 * unit_at(n / 2)
    }
}

fn nearest_to(n: u128, d: u128) -> (r: u128)
    requires
        0 < d <= 0xffffffffffffffff,
        n <= 0xfffffffffffffffffffff,
    ensures
        r == nearest(n as nat, d as nat),
        r <= n + 1,
{
    let q: u128 = n / d;
    let rest: u128 = n % d;
    assert(q <= n) by (nonlinear_arith)
        requires
            q == n / d,
            d > 0,
    ;
    if 2 * rest > d || (2 * rest == d && q % 2 == 1) {
        q + 1
    } else {
        q
    }
}

proof fn lemma_near(n: nat, d: nat)
    requires
        d > 0,
    ensures
        nearest(n, d) * d <= n + d,
{
    let q = n / d;
    assert(q * d <= n) by (nonlinear_arith)
        requires
            q == n / d,
            d > 0,
    ;
    assert((q + 1) * d == q * d + d) by (nonlinear_arith);
}

/// A size in mebibytes, with one decimal.
pub fn megabytes(size_bytes: u64) -> (r: String)
    ensures
        r@ == size_text(size_bytes as nat),
{
    let unit: u64 = unit_at(size_bytes);
    proof {
        lemma_double_unit(size_bytes as nat);
        lemma_near(size_bytes as nat, unit as nat);
    }
    let count: u128 = nearest_to(size_bytes as u128, unit as u128);
    assert(count * unit <= 2 * 0xffffffffffffffff);
    let double: u128 = count * unit as u128;
    let tenths: u128 = nearest_to(10 * double, 1048576);
    proof {
        lemma_near((10 * double) as nat, 1048576);
    }
    let mut m = text::decimal((tenths / 10) as u64);
    let d = text::decimal((tenths % 10) as u64);
    m.append(".");
    m.append(d.as_str());
    m
}

/// What is posted of an event: servers that are up, have stopped or have crashed, players who come
/// and leave, and backups.
pub open spec fn notice_of(e: EventModel) -> Option<Seq<char>> {
    match e {
        EventModel::StateChanged { id, status } => match status {
            InstanceStatus::Running => Some("🟢 **"@ + id + "** is now running."@),
            InstanceStatus::Stopped => Some("⚫ **"@ + id + "** has stopped."@),
            InstanceStatus::Crashed => Some("🔴 **"@ + id + "** has crashed!"@),
            _ => None,
        },
        EventModel::PlayerJoined { id, player } => Some(
            "→ `"@ + player + "` joined **"@ + id + "**"@,
        ),
        EventModel::PlayerLeft { id, player } => Some("← `"@ + player + "` left **"@ + id + "**"@),
        EventModel::BackupDone { id, filename, size_bytes } => Some(
            "💾 Backup of **"@ + id + "** done — `"@ + filename + "` ("@ + size_text(
                size_bytes as nat,
            ) + " MB)"@,
        ),
        EventModel::BackupFailed { id, error } => Some(
            "⚠️ Backup of **"@ + id + "** failed: "@ + error,
        ),
        _ => None,
    }
}

fn around(a: &str, x: &str, b: &str, y: &str, c: &str) -> (r: String)
    ensures
        r@ == a@ + x@ + b@ + y@ + c@,
{
    let mut m = a.to_string();
    m.append(x);
    m.append(b);
    m.append(y);
    m.append(c);
    m
}

/// What is posted of an event.
pub fn notify_task(event: &WsEvent) -> (r: Option<String>)
    ensures
        text::opt_view(r) == notice_of(event@),
{
    match event {
        WsEvent::StateChanged { instance_id, status } => {
            let mut m = String::new();
            match status {
                InstanceStatus::Running => {
                    m.append("🟢 **");
                    m.append(instance_id.as_str());
                    m.append("** is now running.");
                },
                InstanceStatus::Stopped => {
                    m.append("⚫ **");
                    m.append(instance_id.as_str());
                    m.append("** has stopped.");
                },
                InstanceStatus::Crashed => {
                    m.append("🔴 **");
                    m.append(instance_id.as_str());
                    m.append("** has crashed!");
                },
                _ => return None,
            }
            assert(Some(m@) =~~= notice_of(event@));
            Some(m)
        },
        WsEvent::PlayerJoined { instance_id, player } => Some(
            around("→ `", player.as_str(), "` joined **", instance_id.as_str(), "**"),
        ),
        WsEvent::PlayerLeft { instance_id, player } => Some(
            around("← `", player.as_str(), "` left **", instance_id.as_str(), "**"),
        ),
        WsEvent::BackupDone { instance_id, filename, size_bytes } => {
            let size_mb = megabytes(*size_bytes);
            let mut m = around(
                "💾 Backup of **",
                instance_id.as_str(),
                "** done — `",
                filename.as_str(),
                "` (",
            );
            m.append(size_mb.as_str());
            m.append(" MB)");
            Some(m)
        },
        WsEvent::BackupFailed { instance_id, error } => {
            let mut m = "⚠️ Backup of **".to_string();
            m.append(instance_id.as_str());
            m.append("** failed: ");
            m.append(error.as_str());
            Some(m)
        },
        _ => None,
    }
}

} // verus!
