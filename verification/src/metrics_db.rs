//! Sessions of players that are open while the manager runs.

use crate::text;
use vstd::prelude::*;

verus! {

/// Something that happened to a server.
#[derive(Debug)]
pub struct EventRow {
    pub timestamp: i64,
    pub event_type: String,
}

/// How much a player was there.
#[derive(Debug)]
pub struct PlayerStats {
    pub player_name: String,
    pub total_sessions: i64,
    pub total_secs: i64,
    pub last_seen: i64,
}

/// A session of a player; one that is open has no end.
#[derive(Debug)]
pub struct SessionRow {
    pub player_name: String,
    pub joined_at: i64,
    pub left_at: Option<i64>,
    pub duration_secs: Option<i64>,
}

/// A session that is open: the instance, the player, and the row in which it stands.
#[derive(Debug)]
pub struct OpenSession {
    pub instance_id: String,
    pub player: String,
    pub row_id: i64,
}

/// The view of open sessions: what row stands for an instance and a player.
pub open spec fn session_views(s: Seq<OpenSession>) -> Seq<(Seq<char>, Seq<char>, i64)> {
    s.map_values(|x: OpenSession| (x.instance_id@, x.player@, x.row_id))
}

/// Where the open session of a player stands.
pub open spec fn session_slot(
    s: Seq<(Seq<char>, Seq<char>, i64)>,
    instance_id: Seq<char>,
    player: Seq<char>,
) -> Option<int>
    decreases s.len(),
{
    if s.len() == 0 {
        None
    } else {
        match session_slot(s.drop_last(), instance_id, player) {
            Some(i) => Some(i),
            None => if s.last().0 == instance_id && s.last().1 == player {
                Some(s.len() - 1)
            } else {
                None
            },
        }
    }
}

/// The row of the open session of a player.
pub open spec fn open_row(
    s: Seq<(Seq<char>, Seq<char>, i64)>,
    instance_id: Seq<char>,
    player: Seq<char>,
) -> Option<i64> {
    match session_slot(s, instance_id, player) {
        Some(i) => Some(s[i].2),
        None => None,
    }
}

/// The open sessions once a player came: a session that was open before gives way.
pub open spec fn opened(
    s: Seq<(Seq<char>, Seq<char>, i64)>,
    instance_id: Seq<char>,
    player: Seq<char>,
    row_id: i64,
) -> Seq<(Seq<char>, Seq<char>, i64)> {
    match session_slot(s, instance_id, player) {
        Some(i) => s.update(i, (instance_id, player, row_id)),
        None => s.push((instance_id, player, row_id)),
    }
}

/// The open sessions once a player left.
pub open spec fn closed(
    s: Seq<(Seq<char>, Seq<char>, i64)>,
    instance_id: Seq<char>,
    player: Seq<char>,
) -> Seq<(Seq<char>, Seq<char>, i64)> {
    match session_slot(s, instance_id, player) {
        Some(i) => s.remove(i),
        None => s,
    }
}

/// No player has two open sessions with one instance.
pub open spec fn one_session_each(s: Seq<(Seq<char>, Seq<char>, i64)>) -> bool {
    forall|i: int, j: int|
        0 <= i < j < s.len() ==> !((#[trigger] s[i]).0 == (#[trigger] s[j]).0 && s[i].1 == s[j].1)
}

/// What a session slot is: the first place with that instance and that player.
pub proof fn lemma_session_slot(
    s: Seq<(Seq<char>, Seq<char>, i64)>,
    instance_id: Seq<char>,
    player: Seq<char>,
)
    ensures
        match session_slot(s, instance_id, player) {
            Some(i) => 0 <= i < s.len() && s[i].0 == instance_id && s[i].1 == player && forall|
                j: int,
            |
                0 <= j < i ==> !((#[trigger] s[j]).0 == instance_id && s[j].1 == player),
            None => forall|j: int|
                0 <= j < s.len() ==> !((#[trigger] s[j]).0 == instance_id && s[j].1 == player),
        },
    decreases s.len(),
{
    if s.len() > 0 {
        let front = s.drop_last();
        lemma_session_slot(front, instance_id, player);
        assert forall|j: int| 0 <= j < front.len() implies #[trigger] s[j] == front[j] by {}
    }
}

/// The sessions that are open.
#[derive(Debug)]
pub struct ActiveSessions {
    pub open: Vec<OpenSession>,
}

impl View for ActiveSessions {
    type V = Seq<(Seq<char>, Seq<char>, i64)>;

    open spec fn view(&self) -> Seq<(Seq<char>, Seq<char>, i64)> {
        session_views(self.open@)
    }
}

impl ActiveSessions {
    /// No player has two open sessions with one instance.
    pub open spec fn wf(&self) -> bool {
        one_session_each(self@)
    }

    /// Nobody has an open session.
    pub fn new() -> (r: Self)
        ensures
            r@ == Seq::<(Seq<char>, Seq<char>, i64)>::empty(),
            r.wf(),
    {
        let r = ActiveSessions { open: Vec::new() };
        assert(r@ =~= Seq::<(Seq<char>, Seq<char>, i64)>::empty());
        r
    }

    fn find(&self, instance_id: &str, player: &str) -> (r: Option<usize>)
        ensures
            match r {
                Some(i) => i < self.open@.len() && session_slot(self@, instance_id@, player@)
                    == Some(i as int),
                None => session_slot(self@, instance_id@, player@) is None,
            },
    {
        let ghost all = self@;
        for i in 0..self.open.len()
            invariant
                all == self@,
                session_slot(all.take(i as int), instance_id@, player@) is None,
        {
            assert(all.take(i + 1).drop_last() =~= all.take(i as int));
            assert(all.take(i + 1).last() == all[i as int]);
            assert(all[i as int] == (
                self.open@[i as int].instance_id@,
                self.open@[i as int].player@,
                self.open@[i as int].row_id,
            ));
            if text::same(self.open[i].instance_id.as_str(), instance_id) && text::same(
                self.open[i].player.as_str(),
                player,
            ) {
                proof {
                    lemma_session_slot(all, instance_id@, player@);
                    lemma_session_slot(all.take(i as int), instance_id@, player@);
                    let k = session_slot(all, instance_id@, player@).unwrap();
                    if k < i {
                        assert(all.take(i as int)[k] == all[k]);
                    }
                }
                return Some(i);
            }
        }
        assert(all.take(self.open@.len() as int) =~= all);
        None
    }

    /// Takes in that a player came, whose session stands in a row.
    pub fn record_player_join(&mut self, instance_id: &str, player: &str, row_id: i64)
        requires
            old(self).wf(),
        ensures
            final(self).wf(),
            final(self)@ == opened(old(self)@, instance_id@, player@, row_id),
    {
        let ghost before = self@;
        proof {
            lemma_session_slot(before, instance_id@, player@);
        }
        let entry = OpenSession {
            instance_id: instance_id.to_string(),
            player: player.to_string(),
            row_id,
        };
        match self.find(instance_id, player) {
            Some(i) => {
                self.open.set(i, entry);
            },
            None => {
                self.open.push(entry);
            },
        }
        assert(self@ =~= opened(before, instance_id@, player@, row_id));
    }

    /// Takes in that a player left, and gives the row of the session that ends, if one was open.
    pub fn record_player_leave(&mut self, instance_id: &str, player: &str) -> (r: Option<i64>)
        requires
            old(self).wf(),
        ensures
            final(self).wf(),
            r == open_row(old(self)@, instance_id@, player@),
            final(self)@ == closed(old(self)@, instance_id@, player@),
    {
        let ghost before = self@;
        match self.find(instance_id, player) {
            Some(i) => {
                let row_id: i64 = self.open[i].row_id;
                assert(before[i as int].2 == row_id);
                self.open.remove(i);
                assert(self@ =~= closed(before, instance_id@, player@));
                Some(row_id)
            },
            None => None,
        }
    }
}

/// A player who leaves ends the session that was opened last, and then has none.
pub proof fn law_leaving_ends_the_session(
    s: Seq<(Seq<char>, Seq<char>, i64)>,
    instance_id: Seq<char>,
    player: Seq<char>,
    row_id: i64,
)
    requires
        one_session_each(s),
    ensures
        open_row(opened(s, instance_id, player, row_id), instance_id, player) == Some(row_id),
        open_row(
            closed(opened(s, instance_id, player, row_id), instance_id, player),
            instance_id,
            player,
        ) is None,
{
    let more = opened(s, instance_id, player, row_id);
    lemma_session_slot(s, instance_id, player);
    lemma_session_slot(more, instance_id, player);
    let at = match session_slot(s, instance_id, player) {
        Some(i) => i,
        None => s.len() as int,
    };
    assert(more[at] == (instance_id, player, row_id));
    let k = session_slot(more, instance_id, player).unwrap();
    if k < at {
        assert(more[k] == s[k]);
    }
    let less = closed(more, instance_id, player);
    assert(less =~= more.remove(at));
    lemma_session_slot(less, instance_id, player);
    if let Some(j) = session_slot(less, instance_id, player) {
        let source = if j < at {
            j
        } else {
            j + 1
        };
        assert(less[j] == more[source]);
        assert(more[source] == s[source]);
        if session_slot(s, instance_id, player) is Some {
            if source < at {
                assert(!(s[source].0 == s[at].0 && s[source].1 == s[at].1));
            } else {
                assert(!(s[at].0 == s[source].0 && s[at].1 == s[source].1));
            }
        }
    }
}

} // verus!
