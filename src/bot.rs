//! The match state: settings, the players' records and the field.
use vstd::prelude::*;
use crate::field::{Cell, Field};
use crate::message::texts;
use crate::player::{fresh_player, Player, PlayerModel};

verus! {

#[derive(Debug)]
pub struct BotState {
    pub settings: Settings,
    /// One record per registered name; no two records share a name.
    pub players: Vec<Player>,
    pub field: Field,
}

#[derive(Debug)]
pub struct Settings {
    pub name: String,
    pub id: i32,
    pub time_bank: i32,
    pub time_per_move: i32,
    pub round: i32,
    pub max_rounds: i32,
    pub opponent_name: String,
}

/// The records of `ps` keyed by name.
pub open spec fn roster(ps: Seq<Player>) -> Map<Seq<char>, PlayerModel>
    decreases ps.len(),
{
    if ps.len() == 0 {
        Map::empty()
    } else {
        roster(ps.drop_last()).insert(ps.last().name@, ps.last()@)
    }
}

pub open spec fn names_unique(ps: Seq<Player>) -> bool {
    forall|i: int, j: int|
        0 <= i < ps.len() && 0 <= j < ps.len() && i != j ==> #[trigger] ps[i].name@
            != #[trigger] ps[j].name@
}

/// `m` after registering each of `names` in turn: a fresh record under each name,
/// replacing any record already there.
pub open spec fn registered(m: Map<Seq<char>, PlayerModel>, names: Seq<Seq<char>>) -> Map<
    Seq<char>,
    PlayerModel,
>
    decreases names.len(),
{
    if names.len() == 0 {
        m
    } else {
        let n = names.last();
        registered(m, names.drop_last()).insert(n, fresh_player(n))
    }
}

pub proof fn lemma_roster_has(ps: Seq<Player>, n: Seq<char>)
    ensures
        roster(ps).contains_key(n) <==> exists|i: int| 0 <= i < ps.len() && #[trigger] ps[i].name@ == n,
    decreases ps.len(),
{
    if ps.len() > 0 {
        let front = ps.drop_last();
        lemma_roster_has(front, n);
        if roster(ps).contains_key(n) && ps.last().name@ != n {
            let i = choose|i: int| 0 <= i < front.len() && #[trigger] front[i].name@ == n;
            assert(ps[i].name@ == n);
        }
        if exists|i: int| 0 <= i < ps.len() && #[trigger] ps[i].name@ == n {
            let i = choose|i: int| 0 <= i < ps.len() && #[trigger] ps[i].name@ == n;
            if i < ps.len() - 1 {
                assert(front[i].name@ == n);
            }
        }
    }
}

pub proof fn lemma_roster_at(ps: Seq<Player>, i: int)
    requires
        names_unique(ps),
        0 <= i < ps.len(),
    ensures
        roster(ps).contains_key(ps[i].name@),
        roster(ps)[ps[i].name@] == ps[i]@,
    decreases ps.len(),
{
    let front = ps.drop_last();
    if i < ps.len() - 1 {
        assert(front[i] == ps[i]);
        assert(names_unique(front)) by {
            assert forall|a: int, b: int|
                0 <= a < front.len() && 0 <= b < front.len() && a != b implies #[trigger] front[a].name@
                != #[trigger] front[b].name@ by {
                assert(front[a] == ps[a] && front[b] == ps[b]);
            }
        }
        lemma_roster_at(front, i);
        assert(ps[i].name@ != ps[ps.len() - 1].name@);
    }
}

pub proof fn lemma_roster_update(ps: Seq<Player>, i: int, p: Player)
    requires
        names_unique(ps),
        0 <= i < ps.len(),
        p.name@ == ps[i].name@,
    ensures
        names_unique(ps.update(i, p)),
        roster(ps.update(i, p)) == roster(ps).insert(p.name@, p@),
    decreases ps.len(),
{
    let qs = ps.update(i, p);
    assert forall|a: int, b: int|
        0 <= a < qs.len() && 0 <= b < qs.len() && a != b implies #[trigger] qs[a].name@
        != #[trigger] qs[b].name@ by {
        assert(qs[a].name@ == ps[a].name@ && qs[b].name@ == ps[b].name@);
    }
    let front = ps.drop_last();
    assert(names_unique(front)) by {
        assert forall|a: int, b: int|
            0 <= a < front.len() && 0 <= b < front.len() && a != b implies #[trigger] front[a].name@
            != #[trigger] front[b].name@ by {
            assert(front[a] == ps[a] && front[b] == ps[b]);
        }
    }
    if i == ps.len() - 1 {
        assert(qs.drop_last() =~= front);
        assert(roster(qs) =~= roster(ps).insert(p.name@, p@));
    } else {
        lemma_roster_update(front, i, p);
        assert(qs.drop_last() =~= front.update(i, p));
        assert(ps.last().name@ != p.name@);
        assert(roster(qs) =~= roster(ps).insert(p.name@, p@));
    }
}

/// Where the record named `name` is, if there is one.
pub fn find_player(players: &Vec<Player>, name: &String) -> (r: Option<usize>)
    ensures
        match r {
            Some(i) => i < players@.len() && players@[i as int].name@ == name@,
            None => forall|i: int| 0 <= i < players@.len() ==> #[trigger] players@[i].name@ != name@,
        },
{
    let mut i: usize = 0;
    while i < players.len()
        invariant
            i <= players@.len(),
            forall|j: int| 0 <= j < i ==> #[trigger] players@[j].name@ != name@,
        decreases players@.len() - i,
    {
        if players[i].name == *name {
            return Some(i);
        }
        i = i + 1;
    }
    None
}

/// Gives `name` a fresh record, replacing the one it had.
fn register(players: &mut Vec<Player>, name: String)
    requires
        names_unique(old(players)@),
    ensures
        names_unique(final(players)@),
        roster(final(players)@) == roster(old(players)@).insert(name@, fresh_player(name@)),
{
    match find_player(players, &name) {
        Some(i) => {
            let fresh = Player::new(name);
            proof {
                lemma_roster_update(players@, i as int, fresh);
            }
            players.set(i, fresh);
        },
        None => {
            let fresh = Player::new(name);
            let ghost before = players@;
            players.push(fresh);
            proof {
                assert(players@.drop_last() =~= before);
                assert forall|a: int, b: int|
                    0 <= a < players@.len() && 0 <= b < players@.len() && a != b implies #[trigger] players@[a].name@
                    != #[trigger] players@[b].name@ by {
                    if a < before.len() && b < before.len() {
                        assert(players@[a] == before[a] && players@[b] == before[b]);
                    }
                }
            }
        },
    }
}

impl BotState {
    /// The players' records are keyed by name.
    pub open spec fn wf(&self) -> bool {
        names_unique(self.players@)
    }

    pub open spec fn roster(&self) -> Map<Seq<char>, PlayerModel> {
        roster(self.players@)
    }

    /// The state at the start of a match: empty names, zero values, no players, and
    /// a one-by-one field with no cells.
    pub fn new() -> (r: Self)
        ensures
            r.wf(),
            r.roster() == Map::<Seq<char>, PlayerModel>::empty(),
            r.settings.name@ == Seq::<char>::empty(),
            r.settings.opponent_name@ == Seq::<char>::empty(),
            r.settings.id == 0,
            r.settings.time_bank == 0,
            r.settings.time_per_move == 0,
            r.settings.round == 0,
            r.settings.max_rounds == 0,
            r.field.player_id == 0,
            r.field.opponent_id == 1,
            r.field.field.width == 1,
            r.field.field.height == 1,
            r.field.field.m@ == Seq::<Cell>::empty(),
            r.field.projects(Seq::empty()),
    {
        BotState {
            settings: Settings {
                name: String::new(),
                id: 0,
                time_bank: 0,
                time_per_move: 0,
                round: 0,
                max_rounds: 0,
                opponent_name: String::new(),
            },
            players: Vec::new(),
            field: Field::new(1, 1),
        }
    }

    /// Registers each of `names` in turn with a fresh record.
    pub fn register_players(&mut self, names: Vec<String>)
        requires
            old(self).wf(),
        ensures
            final(self).wf(),
            final(self).roster() == registered(old(self).roster(), texts(names@)),
            final(self).settings == old(self).settings,
            final(self).field == old(self).field,
    {
        let ghost wanted = texts(names@);
        let n = names.len();
        let mut k: usize = 0;
        while k < n
            invariant
                k <= n,
                n == names@.len(),
                wanted == texts(names@),
                self.wf(),
                self.roster() == registered(old(self).roster(), wanted.take(k as int)),
                self.settings == old(self).settings,
                self.field == old(self).field,
            decreases n - k,
        {
            let name = names[k].clone();
            proof {
                assert(name@ == wanted[k as int]);
                assert(wanted.take(k + 1).drop_last() =~= wanted.take(k as int));
            }
            register(&mut self.players, name);
            k = k + 1;
        }
        assert(wanted.take(n as int) =~= wanted);
    }
}

} // verus!
