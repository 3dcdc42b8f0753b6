use vstd::prelude::*;
use crate::chips::{Balance, Bet, Chip, Loadout, chips_total, euro5_chips};

verus! {

/// A seat at the table: id, balance, current bet, and whether the player is
/// still in the game (false once bankrupt).
#[derive(Debug, Clone)]
pub struct Player(pub u32, pub Balance, pub Bet, pub bool);

/// Two players agree in every field.
pub open spec fn same_player(a: Player, b: Player) -> bool {
    a.0 == b.0 && a.1.0@ == b.1.0@ && a.2.0@ == b.2.0@ && a.3 == b.3
}

/// Every player of the sequence is inactive.
pub open spec fn all_inactive(players: Seq<Player>) -> bool {
    forall|i: int| 0 <= i < players.len() ==> !(#[trigger] players[i]).3
}

/// A copy of a vector of chips.
fn copy_chips(v: &Vec<Chip>) -> (r: Vec<Chip>)
    ensures
        r@ == v@,
{
    let mut r: Vec<Chip> = Vec::new();
    let mut i: usize = 0;
    while i < v.len()
        invariant
            i <= v@.len(),
            r@ == v@.subrange(0, i as int),
        decreases v@.len() - i,
    {
        r.push(v[i]);
        i += 1;
        assert(r@ =~= v@.subrange(0, i as int));
    }
    assert(r@ =~= v@);
    r
}

impl Player {
    /// A copy of the player.
    pub fn duplicate(&self) -> (r: Player)
        ensures
            same_player(r, *self),
    {
        Player(self.0, Balance(copy_chips(&self.1.0)), Bet(copy_chips(&self.2.0)), self.3)
    }

    /// The total value of the player's balance.
    pub fn get_balance(&self) -> (r: u32)
        requires
            chips_total(self.1.0@) <= u32::MAX,
        ensures
            r == chips_total(self.1.0@),
    {
        self.1.sum()
    }

    /// Whether the player is still in the game.
    pub fn is_active(&self) -> (r: bool)
        ensures
            r == self.3,
    {
        self.3
    }

    /// Withdraws the player's bet.
    pub fn clear_bet(&mut self)
        ensures
            final(self).2.0@.len() == 0,
            final(self).0 == old(self).0,
            final(self).1 == old(self).1,
            final(self).3 == old(self).3,
    {
        self.2 = Bet(Vec::new());
    }

    /// Takes the player out of the game.
    pub fn bankrupt(&mut self)
        ensures
            !final(self).3,
            final(self).0 == old(self).0,
            final(self).1 == old(self).1,
            final(self).2 == old(self).2,
    {
        self.3 = false
    }
}

/// Whether every player is out of the game (true for an empty table).
pub fn game_over(players: &Vec<Player>) -> (r: bool)
    ensures
        r == all_inactive(players@),
{
    let mut i: usize = 0;
    while i < players.len()
        invariant
            i <= players@.len(),
            forall|k: int| 0 <= k < i ==> !(#[trigger] players@[k]).3,
        decreases players@.len() - i,
    {
        if players[i].is_active() {
            return false;
        }
        i += 1;
    }
    true
}

/// The players, in seat order.
pub struct Table(pub Vec<Player>);

/// The chips that a loadout gives each player.
pub open spec fn loadout_chips(l: Loadout) -> Seq<Chip> {
    match l {
        Loadout::Euro5 => euro5_chips(),
        Loadout::CustomLoadout(v) => v@,
    }
}

impl Table {
    /// A table of `player_count` players with ids 0, 1, ... in seat order,
    /// each active, with no bet and the balance that `loadout` gives.
    pub fn seat_players(player_count: u32, loadout: &Loadout) -> (r: Table)
        ensures
            r.0@.len() == player_count,
            forall|i: int|
                0 <= i < player_count ==> {
                    let p = #[trigger] r.0@[i];
                    &&& p.0 == i
                    &&& p.1.0@ == loadout_chips(*loadout)
                    &&& p.2.0@.len() == 0
                    &&& p.3
                },
    {
        let mut players: Vec<Player> = Vec::new();
        let mut i: u32 = 0;
        while i < player_count
            invariant
                i <= player_count,
                players@.len() == i,
                forall|k: int|
                    0 <= k < i ==> {
                        let p = #[trigger] players@[k];
                        &&& p.0 == k
                        &&& p.1.0@ == loadout_chips(*loadout)
                        &&& p.2.0@.len() == 0
                        &&& p.3
                    },
            decreases player_count - i,
        {
            let balance = match loadout {
                Loadout::Euro5 => Chip::from_loadout(Loadout::Euro5),
                Loadout::CustomLoadout(v) => Balance(copy_chips(v)),
            };
            players.push(Player(i, balance, Bet(Vec::new()), true));
            i += 1;
        }
        Table(players)
    }

    /// A copy of the first player with the given id, if there is one.
    pub fn get_player_by_id(&self, id: u32) -> (r: Option<Player>)
        ensures
            r is None <==> (forall|i: int| 0 <= i < self.0@.len() ==> (#[trigger] self.0@[i]).0 != id),
            r is Some ==> exists|i: int|
                0 <= i < self.0@.len() && same_player(r->Some_0, #[trigger] self.0@[i]) && self.0@[i].0
                    == id && (forall|k: int| 0 <= k < i ==> (#[trigger] self.0@[k]).0 != id),
    {
        match self.position_of(id) {
            None => None,
            Some(i) => Some(self.0[i].duplicate()),
        }
    }

    /// The seat of the first player with the given id, if there is one.
    pub fn position_of(&self, id: u32) -> (r: Option<usize>)
        ensures
            r is None <==> (forall|i: int| 0 <= i < self.0@.len() ==> (#[trigger] self.0@[i]).0 != id),
            r is Some ==> r->Some_0 < self.0@.len() && self.0@[r->Some_0 as int].0 == id && (forall|
                k: int,
            | 0 <= k < r->Some_0 ==> (#[trigger] self.0@[k]).0 != id),
    {
        let mut i: usize = 0;
        while i < self.0.len()
            invariant
                i <= self.0@.len(),
                forall|k: int| 0 <= k < i ==> (#[trigger] self.0@[k]).0 != id,
            decreases self.0@.len() - i,
        {
            if self.0[i].0 == id {
                return Some(i);
            }
            i += 1;
        }
        None
    }

    /// The first player with the given id, for changing in place.
    pub fn get_mut_player_by_id(&mut self, id: u32) -> (r: Option<&mut Player>)
        ensures
            r is None ==> final(self).0@ == old(self).0@,
            r is None ==> forall|i: int|
                0 <= i < old(self).0@.len() ==> (#[trigger] old(self).0@[i]).0 != id,
            r is Some ==> exists|i: int|
                0 <= i < old(self).0@.len() && old(self).0@[i].0 == id
                    && (forall|k: int| 0 <= k < i ==> (#[trigger] old(self).0@[k]).0 != id)
                    && *r->Some_0 == old(self).0@[i]
                    && final(self).0@ == old(self).0@.update(i, *final(r->Some_0)),
    {
        match self.position_of(id) {
            None => None,
            Some(i) => Some(&mut self.0[i]),
        }
    }
}

} // verus!
