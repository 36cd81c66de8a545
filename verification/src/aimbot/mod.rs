pub mod norecoil;

use vstd::prelude::*;
use crate::game::Game;
use crate::memory::MemWrite;
use crate::player::{Player, picked_at};
use self::norecoil::{NoRecoilSpread, RECOIL_PATCH_OFF};
use crate::patch::PatchView;

verus! {

/// Switches of the aim bot: the player it aims for, its no-recoil patch, and
/// whether it is on and fires by itself. Aiming works on floats and is done by the host.
pub struct AimBot {
    player: Player,
    pub norecoil_spread: NoRecoilSpread,
    autoshoot: bool,
    enabled: bool,
}

/// The players the aim bot may aim at: those flagged both alive and enemy, in order.
pub open spec fn target_candidates(players: Seq<Player>, alive: Seq<bool>, enemy: Seq<bool>) -> Seq<Player>
    decreases players.len(),
{
    if players.len() == 0 {
        seq![]
    } else {
        let n = players.len() - 1;
        let rest = target_candidates(players.drop_last(), alive.take(n), enemy.take(n));
        if alive[n] && enemy[n] {
            rest.push(players.last())
        } else {
            rest
        }
    }
}

/// Flags of the players that are both alive and enemies.
pub open spec fn alive_enemy_flags(alive: Seq<bool>, enemy: Seq<bool>) -> Seq<bool> {
    Seq::new(alive.len(), |i: int| alive[i] && enemy[i])
}

proof fn lemma_target_indices(players: Seq<Player>, alive: Seq<bool>, enemy: Seq<bool>) -> (idx: Seq<int>)
    requires
        alive.len() == players.len(),
        enemy.len() == players.len(),
    ensures
        picked_at(idx, target_candidates(players, alive, enemy), players, alive_enemy_flags(alive, enemy)),
    decreases players.len(),
{
    let keep = alive_enemy_flags(alive, enemy);
    if players.len() == 0 {
        Seq::<int>::empty()
    } else {
        let n = players.len() - 1;
        let ps = players.drop_last();
        let al = alive.take(n);
        let en = enemy.take(n);
        let r = lemma_target_indices(ps, al, en);
        let kr = alive_enemy_flags(al, en);
        let rest = target_candidates(ps, al, en);
        assert forall|k: int| 0 <= k < r.len() implies 0 <= #[trigger] r[k] < n && keep[r[k]]
            && rest[k] == players[r[k]] by {
            assert(kr[r[k]] == (al[r[k]] && en[r[k]]));
            assert(al[r[k]] == alive[r[k]]);
            assert(en[r[k]] == enemy[r[k]]);
            assert(ps[r[k]] == players[r[k]]);
        }
        let idx = if alive[n] && enemy[n] { r.push(n) } else { r };
        let res = target_candidates(players, alive, enemy);
        assert(res == if alive[n] && enemy[n] { rest.push(players.last()) } else { rest });
        assert forall|k: int| 0 <= k < idx.len() implies 0 <= #[trigger] idx[k] < players.len()
            && keep[idx[k]] && res[k] == players[idx[k]] by {
            if k < r.len() {
                assert(idx[k] == r[k]);
            }
        }
        assert forall|k1: int, k2: int| 0 <= k1 < k2 < idx.len() implies #[trigger] idx[k1] < #[trigger] idx[k2] by {
            assert(idx[k1] == r[k1]);
            if k2 < r.len() {
                assert(idx[k2] == r[k2]);
            }
        }
        assert forall|i: int| 0 <= i < players.len() && #[trigger] keep[i] implies idx.contains(i) by {
            if i < n {
                assert(kr[i] == (al[i] && en[i]));
                assert(al[i] == alive[i] && en[i] == enemy[i]);
                assert(r.contains(i));
                let k = choose|k: int| 0 <= k < r.len() && r[k] == i;
                assert(idx[k] == i);
            } else {
                assert(idx[idx.len() - 1] == i);
            }
        }
        idx
    }
}

/// The aim bot's targets are exactly the players flagged both alive and enemy,
/// each once and in the order the game lists them: a dead player or a team
/// mate is never a target, and every living enemy is one.
pub proof fn targets_are_exactly_living_enemies(players: Seq<Player>, alive: Seq<bool>, enemy: Seq<bool>)
    requires
        alive.len() == players.len(),
        enemy.len() == players.len(),
    ensures
        exists|idx: Seq<int>|
            picked_at(idx, target_candidates(players, alive, enemy), players, alive_enemy_flags(alive, enemy)),
        forall|k: int| 0 <= k < target_candidates(players, alive, enemy).len() ==> exists|i: int|
            0 <= i < players.len() && alive[i] && enemy[i] && #[trigger] target_candidates(players, alive, enemy)[k] == players[i],
{
    let idx = lemma_target_indices(players, alive, enemy);
    let keep = alive_enemy_flags(alive, enemy);
    let t = target_candidates(players, alive, enemy);
    assert(picked_at(idx, t, players, keep));
    assert forall|k: int| 0 <= k < t.len() implies exists|i: int|
        0 <= i < players.len() && alive[i] && enemy[i] && #[trigger] t[k] == players[i] by {
        let i = idx[k];
        assert(keep[i] == (alive[i] && enemy[i]));
    }
}

/// Abstract state of the aim bot's switches.
pub ghost struct AimBotView {
    pub player: Player,
    pub enabled: bool,
    pub autoshoot: bool,
    pub recoil: PatchView,
}

impl View for AimBot {
    type V = AimBotView;

    closed spec fn view(&self) -> AimBotView {
        AimBotView {
            player: self.player,
            enabled: self.enabled,
            autoshoot: self.autoshoot,
            recoil: self.norecoil_spread@,
        }
    }
}

impl AimBot {
    /// The aim bot of `player` in the game image at `game_base_addr`: off, not
    /// firing by itself, with its no-recoil patch off.
    pub fn default(player: Player, game_base_addr: usize) -> (a: AimBot)
        requires
            game_base_addr + RECOIL_PATCH_OFF <= usize::MAX,
        ensures
            a@ == (AimBotView {
                player,
                enabled: false,
                autoshoot: false,
                recoil: PatchView { addr: game_base_addr + RECOIL_PATCH_OFF, enabled: false, saved: None },
            }),
    {
        AimBot {
            autoshoot: false,
            player,
            norecoil_spread: NoRecoilSpread::new(game_base_addr),
            enabled: false,
        }
    }

    pub fn enable_autoshoot(&mut self)
        ensures
            final(self)@ == (AimBotView { autoshoot: true, ..old(self)@ }),
    {
        self.autoshoot = true
    }

    pub fn enable(&mut self)
        ensures
            final(self)@ == (AimBotView { enabled: true, ..old(self)@ }),
    {
        self.enabled = true;
    }

    pub fn disable(&mut self)
        ensures
            final(self)@ == (AimBotView { enabled: false, ..old(self)@ }),
    {
        self.enabled = false;
    }

    pub fn toggle(&mut self)
        ensures
            final(self)@ == (AimBotView { enabled: !old(self)@.enabled, ..old(self)@ }),
    {
        if self.enabled {
            self.disable();
        } else {
            self.enable();
        }
    }

    /// The players worth aiming at, from the game's players and whether each is
    /// alive and an enemy of the aim bot's player.
    pub fn targets(&self, players: &Vec<Player>, alive: &Vec<bool>, enemy: &Vec<bool>) -> (t: Vec<Player>)
        requires
            alive@.len() == players@.len(),
            enemy@.len() == players@.len(),
        ensures
            t@ == target_candidates(players@, alive@, enemy@),
    {
        let mut t: Vec<Player> = Vec::new();
        let mut i: usize = 0;
        while i < players.len()
            invariant
                i <= players@.len(),
                alive@.len() == players@.len(),
                enemy@.len() == players@.len(),
                t@ == target_candidates(players@.take(i as int), alive@.take(i as int), enemy@.take(i as int)),
            decreases players@.len() - i,
        {
            proof {
                let p = players@.take(i + 1);
                assert(p.drop_last() =~= players@.take(i as int));
                assert(alive@.take(i + 1).take(i as int) =~= alive@.take(i as int));
                assert(enemy@.take(i + 1).take(i as int) =~= enemy@.take(i as int));
                assert(p.last() == players@[i as int]);
            }
            if alive[i] && enemy[i] {
                t.push(players[i]);
            }
            i = i + 1;
        }
        assert(players@.take(players@.len() as int) =~= players@);
        assert(alive@.take(alive@.len() as int) =~= alive@);
        assert(enemy@.take(enemy@.len() as int) =~= enemy@);
        t
    }

    /// The start of a frame: when the aim bot fires by itself it first stops
    /// its player firing (a 0 in the attack flag at `attacking_offset`); the
    /// flag says whether the frame goes on to aiming, which it does only when
    /// the aim bot is on.
    pub fn begin_frame(&self, attacking_offset: usize) -> (r: (Option<MemWrite>, bool))
        requires
            self@.player.base_addr + attacking_offset <= usize::MAX,
        ensures
            r.1 == self@.enabled,
            self@.autoshoot ==> (r.0 matches Some(w) && w@ == (
                self@.player.base_addr + attacking_offset,
                seq![0u8],
            )),
            !self@.autoshoot ==> r.0 is None,
    {
        let stop = if self.autoshoot {
            Some(Game::stop_shoot(self.player.base_addr, attacking_offset))
        } else {
            None
        };
        (stop, self.enabled)
    }

    /// The end of a frame in which the camera was turned to a target: when the
    /// aim bot fires by itself, its player fires (a 1 in the attack flag).
    pub fn fire(&self, attacking_offset: usize) -> (r: Option<MemWrite>)
        requires
            self@.player.base_addr + attacking_offset <= usize::MAX,
        ensures
            self@.autoshoot ==> (r matches Some(w) && w@ == (
                self@.player.base_addr + attacking_offset,
                seq![1u8],
            )),
            !self@.autoshoot ==> r is None,
    {
        if self.autoshoot {
            Some(Game::shoot(self.player.base_addr, attacking_offset))
        } else {
            None
        }
    }

    pub fn is_enabled(&self) -> (b: bool)
        ensures
            b == self@.enabled,
    {
        self.enabled
    }

    pub fn autoshoot(&self) -> (b: bool)
        ensures
            b == self@.autoshoot,
    {
        self.autoshoot
    }
}

} // verus!
