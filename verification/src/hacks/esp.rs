//! ESP: a box drawn around every living player, red for enemies and green for
//! team mates. The drawing itself is done by the host with OpenGL.
use vstd::prelude::*;
use crate::game::Game;
use crate::player::{Player, picked_at};

verus! {

/// Box colour for enemies.
pub const ENEMY_COLOR: (u8, u8, u8) = (255, 0, 0);

/// Box colour for team mates.
pub const TEAM_COLOR: (u8, u8, u8) = (0, 255, 0);

pub struct ESP {
    pub game: Game,
    pub local_player: Player,
    pub is_enabled: bool,
}

/// The players that get a box: those flagged alive, in order.
pub open spec fn living_players(players: Seq<Player>, alive: Seq<bool>) -> Seq<Player>
    decreases players.len(),
{
    if players.len() == 0 {
        seq![]
    } else {
        let rest = living_players(players.drop_last(), alive.take(players.len() - 1));
        if alive[players.len() - 1] {
            rest.push(players.last())
        } else {
            rest
        }
    }
}

proof fn lemma_living_indices(players: Seq<Player>, alive: Seq<bool>) -> (idx: Seq<int>)
    requires
        alive.len() == players.len(),
    ensures
        picked_at(idx, living_players(players, alive), players, alive),
    decreases players.len(),
{
    if players.len() == 0 {
        Seq::<int>::empty()
    } else {
        let n = players.len() - 1;
        let ps = players.drop_last();
        let al = alive.take(n);
        let r = lemma_living_indices(ps, al);
        let rest = living_players(ps, al);
        assert forall|k: int| 0 <= k < r.len() implies 0 <= #[trigger] r[k] < n && alive[r[k]]
            && rest[k] == players[r[k]] by {
            assert(al[r[k]] == alive[r[k]]);
            assert(ps[r[k]] == players[r[k]]);
        }
        let idx = if alive[n] { r.push(n) } else { r };
        let res = living_players(players, alive);
        assert(res == if alive[n] { rest.push(players.last()) } else { rest });
        assert forall|k: int| 0 <= k < idx.len() implies 0 <= #[trigger] idx[k] < players.len()
            && alive[idx[k]] && res[k] == players[idx[k]] by {
            if k < r.len() {
                assert(idx[k] == r[k]);
            }
        }
        assert forall|k1: int, k2: int| 0 <= k1 < k2 < idx.len() implies #[trigger] idx[k1] < #[trigger] idx[k2] by {
            assert(idx[k1] == r[k1]);
            if k2 < r.len() {
                assert(idx[k2] == r[k2]);
            }
        }
        assert forall|i: int| 0 <= i < players.len() && #[trigger] alive[i] implies idx.contains(i) by {
            if i < n {
                assert(al[i] == alive[i]);
                assert(r.contains(i));
                let k = choose|k: int| 0 <= k < r.len() && r[k] == i;
                assert(idx[k] == i);
            } else {
                assert(idx[idx.len() - 1] == i);
            }
        }
        idx
    }
}

/// ESP boxes exactly the players flagged alive, each once and in the order the
/// game lists them; a player flagged alive always gets a box, one flagged dead never.
pub proof fn esp_boxes_exactly_the_living(players: Seq<Player>, alive: Seq<bool>)
    requires
        alive.len() == players.len(),
    ensures
        exists|idx: Seq<int>| picked_at(idx, living_players(players, alive), players, alive),
{
    let idx = lemma_living_indices(players, alive);
    assert(picked_at(idx, living_players(players, alive), players, alive));
}

impl ESP {
    /// ESP for `game`, seen by `local_player`, switched off.
    pub fn new(game: Game, local_player: Player) -> (esp: ESP)
        ensures
            esp.game == game,
            esp.local_player == local_player,
            !esp.is_enabled,
    {
        ESP { game, local_player, is_enabled: false }
    }

    /// Switches ESP to the other state and reports whether it is now on.
    pub fn toggle(&mut self) -> (on: bool)
        ensures
            on == final(self).is_enabled,
            final(self).is_enabled == !old(self).is_enabled,
            final(self).game == old(self).game,
            final(self).local_player == old(self).local_player,
    {
        self.is_enabled = !self.is_enabled;
        self.is_enabled
    }

    /// What one frame of ESP draws, from the game's players and whether each is
    /// alive: nothing at all (no switch to 2D) when there are no players, else
    /// a box for each living player, in order.
    pub fn draw(&self, players: &Vec<Player>, alive: &Vec<bool>) -> (boxes: Option<Vec<Player>>)
        requires
            alive@.len() == players@.len(),
        ensures
            players@.len() == 0 ==> boxes is None,
            players@.len() > 0 ==> (boxes matches Some(b) && b@ == living_players(players@, alive@)),
    {
        if players.len() == 0 {
            return None;
        }
        let mut boxes: Vec<Player> = Vec::new();
        let mut i: usize = 0;
        while i < players.len()
            invariant
                i <= players@.len(),
                alive@.len() == players@.len(),
                boxes@ == living_players(players@.take(i as int), alive@.take(i as int)),
            decreases players@.len() - i,
        {
            proof {
                let p = players@.take(i + 1);
                let a = alive@.take(i + 1);
                assert(p.drop_last() =~= players@.take(i as int));
                assert(a.take(i as int) =~= alive@.take(i as int));
                assert(p.last() == players@[i as int]);
                assert(a[i as int] == alive@[i as int]);
            }
            if alive[i] {
                boxes.push(players[i]);
            }
            i = i + 1;
        }
        assert(players@.take(players@.len() as int) =~= players@);
        assert(alive@.take(alive@.len() as int) =~= alive@);
        Some(boxes)
    }
}

/// The colour of the box around a player.
pub fn box_color(is_enemy: bool) -> (rgb: (u8, u8, u8))
    ensures
        rgb == (if is_enemy { ENEMY_COLOR } else { TEAM_COLOR }),
{
    if is_enemy {
        ENEMY_COLOR
    } else {
        TEAM_COLOR
    }
}

} // verus!
