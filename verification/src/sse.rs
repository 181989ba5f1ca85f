//! What a browser is told when it connects.

use crate::state;
use crate::state::InfoModel;
use crate::state::InstanceInfo;
use crate::state::InstanceModel;
use crate::state::LogLine;
use crate::state::LogModel;
use crate::state::Registry;
use vstd::prelude::*;

verus! {

/// The views of what is shown of instances.
pub open spec fn info_views(s: Seq<InstanceInfo>) -> Seq<InfoModel> {
    s.map_values(|i: InstanceInfo| i@)
}

/// What is shown of all instances.
pub open spec fn infos_of(reg: Seq<InstanceModel>) -> Seq<InfoModel> {
    reg.map_values(|m: InstanceModel| m.info())
}

/// What is shown of all instances.
pub fn all_infos(reg: &Registry) -> (r: Vec<InstanceInfo>)
    ensures
        info_views(r@) == infos_of(reg@),
{
    let mut r: Vec<InstanceInfo> = Vec::new();
    for i in 0..reg.list.len()
        invariant
            r@.len() == i,
            forall|j: int| 0 <= j < i ==> (#[trigger] r@[j])@ == reg.list@[j]@.info(),
    {
        r.push(InstanceInfo::from(&reg.list[i]));
    }
    assert(info_views(r@) =~= infos_of(reg@));
    r
}

/// The lines that are kept of the console of an instance.
pub fn log_lines(inst: &state::InstanceState) -> (r: Vec<LogLine>)
    ensures
        state::log_views(r@) == inst@.log,
{
    let mut r: Vec<LogLine> = Vec::new();
    let n: usize = inst.log_buffer.len();
    for i in 0..n
        invariant
            n == inst.log_buffer@.len(),
            r@ == inst.log_buffer@.take(i as int),
    {
        r.push(inst.log_buffer[i].clone());
        assert(r@ =~= inst.log_buffer@.take(i + 1));
    }
    assert(inst.log_buffer@.take(n as int) =~= inst.log_buffer@);
    r
}

/// The lines that are kept of the console of an instance, where there are any.
#[derive(Debug)]
pub struct History {
    pub instance_id: String,
    pub lines: Vec<LogLine>,
}

/// The view of kept lines.
pub open spec fn history_views(s: Seq<History>) -> Seq<(Seq<char>, Seq<LogModel>)> {
    s.map_values(|h: History| (h.instance_id@, state::log_views(h.lines@)))
}

/// The kept lines of all instances that have any.
pub open spec fn histories_of(reg: Seq<InstanceModel>) -> Seq<(Seq<char>, Seq<LogModel>)>
    decreases reg.len(),
{
    if reg.len() == 0 {
        Seq::empty()
    } else {
        let front = histories_of(reg.drop_last());
        if reg.last().log.len() == 0 {
            front
        } else {
            front.push((reg.last().id, reg.last().log))
        }
    }
}

/// The kept lines of all instances that have any.
pub fn histories(reg: &Registry) -> (r: Vec<History>)
    ensures
        history_views(r@) == histories_of(reg@),
{
    let mut r: Vec<History> = Vec::new();
    assert(history_views(r@) =~= histories_of(reg@.take(0)));
    for i in 0..reg.list.len()
        invariant
            history_views(r@) == histories_of(reg@.take(i as int)),
    {
        assert(reg@.take(i + 1).drop_last() =~= reg@.take(i as int));
        assert(reg@.take(i + 1).last() == reg.list@[i as int]@);
        let ghost before = r@;
        let inst = &reg.list[i];
        let lines = log_lines(inst);
        assert(inst@.log.len() == lines@.len());
        if lines.len() > 0 {
            r.push(History { instance_id: inst.id.clone(), lines });
            assert(history_views(r@) =~= history_views(before).push((inst@.id, inst@.log)));
        }
    }
    assert(reg@.take(reg@.len() as int) =~= reg@);
    r
}

} // verus!
