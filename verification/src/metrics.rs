//! Memory and tick rate of a running server.

use crate::state;
use crate::state::EventModel;
use crate::state::InstanceModel;
use crate::state::InstanceStatus;
use crate::state::Registry;
use crate::state::WsEvent;
use crate::text;
use vstd::prelude::*;

verus! {

// ---------------------------------------------------------------------------
// Memory
// ---------------------------------------------------------------------------

/// The resident memory in mebibytes that the lines of `/proc/<pid>/status` tell.
pub open spec fn ram_in(lines: Seq<Seq<char>>) -> Option<nat>
    decreases lines.len(),
{
    if lines.len() == 0 {
        None
    } else if text::begins(lines[0], "VmRSS:"@) {
        match text::first_word_of(lines[0].skip("VmRSS:"@.len() as int)) {
            Some(w) => match text::uint(w, u64::MAX as nat) {
                Some(kb) => Some(kb / 1024),
                None => None,
            },
            None => None,
        }
    } else {
        ram_in(lines.skip(1))
    }
}

/// The resident memory in mebibytes that `/proc/<pid>/status` tells.
pub fn read_proc_ram(status: &str) -> (r: Option<u64>)
    ensures
        match r {
            Some(mb) => ram_in(text::line_seq(status@)) == Some(mb as nat),
            None => ram_in(text::line_seq(status@)) is None,
        },
{
    let lines = text::lines(status);
    let ghost all = text::views(lines@);
    let n: usize = lines.len();
    let mut i: usize = 0;
    assert(all.skip(0) =~= all);
    while i < n
        invariant
            i <= n,
            n == lines@.len(),
            all == text::views(lines@),
            all == text::line_seq(status@),
            ram_in(all) == ram_in(all.skip(i as int)),
        decreases n - i,
    {
        let ghost rest = all.skip(i as int);
        assert(rest[0] == lines@[i as int]@);
        assert(rest.skip(1) =~= all.skip(i + 1));
        if let Some(tail) = text::strip_prefix(lines[i].as_str(), "VmRSS:") {
            return match text::first_word(tail.as_str()) {
                Some(w) => match text::parse_uint(w.as_str(), u64::MAX) {
                    Some(kb) => Some(kb / 1024),
                    None => None,
                },
                None => None,
            };
        }
        i = i + 1;
    }
    None
}

/// Whether the memory of an instance is still to be read.
pub fn ram_task_goes_on(reg: &Registry, id: &str) -> (r: bool)
    ensures
        r == (state::slot(reg@, id@) matches Some(i) && state::is_active(reg@[i].status)),
{
    match reg.find(id) {
        Some(i) => state::active(reg.list[i].status),
        None => false,
    }
}

/// The registry once a reading of memory is in.
pub open spec fn with_ram(reg: Seq<InstanceModel>, id: Seq<char>, ram_mb: u64) -> Seq<
    InstanceModel,
> {
    match state::slot(reg, id) {
        Some(i) => reg.update(i, InstanceModel { ram_mb: Some(ram_mb), ..reg[i] }),
        None => reg,
    }
}

/// Takes in a reading of memory and tells of it, with the tick rate that was read last.
pub fn record_ram(reg: &mut Registry, id: &str, ram_mb: u64) -> (r: WsEvent)
    requires
        old(reg).wf(),
    ensures
        final(reg).wf(),
        final(reg)@ == with_ram(old(reg)@, id@, ram_mb),
        r@ == (EventModel::Metrics {
            id: id@,
            ram_mb,
            tps: match state::slot(old(reg)@, id@) {
                Some(i) => old(reg)@[i].tps,
                None => None,
            },
            cpu_pct: None,
        }),
{
    let ghost before = reg@;
    let found = reg.find(id);
    let tps = match found {
        Some(i) => {
            reg.list[i].ram_mb = Some(ram_mb);
            assert(reg@ =~= with_ram(before, id@, ram_mb));
            state::copied_opt(&reg.list[i].tps)
        },
        None => None,
    };
    WsEvent::Metrics { instance_id: id.to_string(), ram_mb, tps, cpu_pct: None }
}

// ---------------------------------------------------------------------------
// Tick rate
// ---------------------------------------------------------------------------

/// What the console is sent so that it tells the tick rate.
pub const TPS_COMMAND: &'static str = "forge tps";

/// What is done when the tick rate is to be asked for.
#[derive(Debug, Clone, Copy, PartialEq, Eq, Structural)]
pub enum TpsPoll {
    /// The server runs no more: nothing is asked again.
    Stop,
    /// The console is sent `TPS_COMMAND`.
    Ask,
    /// The loader has no such command.
    Skip,
}

/// What is done when the tick rate of an instance is to be asked for: only Forge and NeoForge have
/// the command.
pub open spec fn tps_poll_of(reg: Seq<InstanceModel>, id: Seq<char>) -> TpsPoll {
    match state::slot(reg, id) {
        Some(i) => if reg[i].status != InstanceStatus::Running {
            TpsPoll::Stop
        } else {
            match reg[i].config.instance.loader {
                Some(l) => if l@ == "neoforge"@ || l@ == "forge"@ {
                    TpsPoll::Ask
                } else {
                    TpsPoll::Skip
                },
                None => TpsPoll::Skip,
            }
        },
        None => TpsPoll::Stop,
    }
}

/// What is done when the tick rate of an instance is to be asked for.
pub fn tps_poll(reg: &Registry, id: &str) -> (r: TpsPoll)
    ensures
        r == tps_poll_of(reg@, id@),
{
    match reg.find(id) {
        Some(i) => {
            let inst = &reg.list[i];
            if inst.status != InstanceStatus::Running {
                return TpsPoll::Stop;
            }
            match &inst.config.instance.loader {
                Some(l) => if text::same(l.as_str(), "neoforge") || text::same(
                    l.as_str(),
                    "forge",
                ) {
                    TpsPoll::Ask
                } else {
                    TpsPoll::Skip
                },
                None => TpsPoll::Skip,
            }
        },
        None => TpsPoll::Stop,
    }
}

/// Whether a character can stand in a numeral.
pub open spec fn numeric(c: char) -> bool {
    text::is_digit(c) || c == '.'
}

/// The characters of a numeral that a text begins with.
pub open spec fn numeric_front(s: Seq<char>) -> Seq<char>
    decreases s.len(),
{
    if s.len() > 0 && numeric(s[0]) {
        seq![s[0]] + numeric_front(s.skip(1))
    } else {
        Seq::empty()
    }
}

/// Whether digits and dots make a decimal number: one dot at most, one digit at least.
pub open spec fn decimal_number(s: Seq<char>) -> bool {
    &&& exists|i: int| 0 <= i < s.len() && text::is_digit(s[i])
    &&& forall|i: int, j: int| 0 <= i < j < s.len() ==> !(s[i] == '.' && s[j] == '.')
}

/// The tick rate that a line of the console tells, as a numeral.
pub open spec fn tps_in(line: Seq<char>) -> Option<Seq<char>> {
    match text::first(line, "TPS: "@) {
        Some(i) => {
            let numeral = numeric_front(line.skip(i + 5));
            if decimal_number(numeral) {
                Some(numeral)
            } else {
                None
            }
        },
        None => None,
    }
}

proof fn lemma_numeric_front(s: Seq<char>, n: int)
    requires
        0 <= n <= s.len(),
        forall|i: int| 0 <= i < n ==> numeric(#[trigger] s[i]),
        n < s.len() ==> !numeric(s[n]),
    ensures
        numeric_front(s) == s.take(n),
    decreases n,
{
    if n > 0 {
        lemma_numeric_front(s.skip(1), n - 1);
        assert(seq![s[0]] + s.skip(1).take(n - 1) =~= s.take(n));
    } else {
        assert(s.take(0) =~= Seq::<char>::empty());
    }
}

/// The tick rate that a line of the console tells, as a numeral.
pub fn parse_tps(line: &str) -> (r: Option<String>)
    ensures
        text::opt_view(r) == tps_in(line@),
{
    proof {
        reveal_strlit("TPS: ");
    }
    let rest = match text::split_once(line, "TPS: ") {
        Some((_, b)) => b,
        None => return None,
    };
    let v = text::chars(rest.as_str());
    let n: usize = v.len();
    let mut end: usize = 0;
    let mut dots: usize = 0;
    let mut digit = false;
    let ghost mut dot_at: int = -1;
    while end < n && (v[end] == '.' || ('0' <= v[end] && v[end] <= '9'))
        invariant
            end <= n,
            n == v@.len(),
            dots <= end,
            forall|i: int| 0 <= i < end ==> numeric(#[trigger] v@[i]),
            digit == exists|i: int| 0 <= i < end && text::is_digit(#[trigger] v@[i]),
            dots == 0 ==> forall|i: int| 0 <= i < end ==> #[trigger] v@[i] != '.',
            dots >= 1 ==> 0 <= dot_at < end && v@[dot_at] == '.',
            dots == 1 ==> forall|i: int|
                0 <= i < end && #[trigger] v@[i] == '.' ==> i == dot_at,
            dots >= 2 ==> exists|i: int, j: int|
                0 <= i < j < end && #[trigger] v@[i] == '.' && #[trigger] v@[j] == '.',
        decreases n - end,
    {
        if v[end] == '.' {
            proof {
                if dots >= 1 {
                    assert(v@[dot_at] == '.' && v@[end as int] == '.');
                } else {
                    dot_at = end as int;
                }
            }
            dots = dots + 1;
        } else {
            digit = true;
            assert(text::is_digit(v@[end as int]));
        }
        end = end + 1;
    }
    proof {
        lemma_numeric_front(rest@, end as int);
        let t = rest@.take(end as int);
        assert forall|i: int| 0 <= i < end implies t[i] == v@[i] by {}
        if digit {
            let i = choose|i: int| 0 <= i < end && text::is_digit(#[trigger] v@[i]);
            assert(text::is_digit(t[i]));
        }
        if dots >= 2 {
            let (i, j) = choose|i: int, j: int|
                0 <= i < j < end && #[trigger] v@[i] == '.' && #[trigger] v@[j] == '.';
            assert(t[i] == '.' && t[j] == '.');
        }
    }
    if digit && dots <= 1 {
        Some(text::part(&v, 0, end))
    } else {
        None
    }
}

} // verus!
