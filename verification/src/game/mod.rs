pub mod ac_vector;
pub mod game_modes;

use vstd::prelude::*;
use crate::memory::MemWrite;
use crate::player::Player;
use crate::text::{decode_name, name_text};
use self::game_modes::{GameModes, game_mode_code, is_game_mode_code};

verus! {

/// The running game, known by the address at which its image is loaded.
#[derive(Clone, Copy)]
pub struct Game {
    pub base_addr: usize,
}

/// The modes in which every other player is an enemy.
pub open spec fn is_free_for_all_mode(mode: GameModes) -> bool {
    match mode {
        GameModes::BotDeathMatch => true,
        GameModes::BotOneShotOneKill => true,
        GameModes::BotSurvivor => true,
        GameModes::Botlss => true,
        _ => false,
    }
}

/// The players whose pointer slots hold a non-null address, in slot order.
pub open spec fn players_of_slots(slots: Seq<usize>) -> Seq<Player> {
    slots.filter(|a: usize| a != 0).map_values(|a: usize| Player { base_addr: a })
}

/// The game's players are the non-null pointer slots taken unchanged, in slot
/// order: their base addresses are exactly the non-zero slot values.
pub proof fn players_are_the_non_null_slots(slots: Seq<usize>)
    ensures
        players_of_slots(slots).map_values(|p: Player| p.base_addr) == slots.filter(|a: usize| a != 0),
        forall|k: int| 0 <= k < players_of_slots(slots).len() ==> #[trigger] players_of_slots(slots)[k].base_addr != 0,
{
    let nz = slots.filter(|a: usize| a != 0);
    let ps = players_of_slots(slots);
    assert(ps.map_values(|p: Player| p.base_addr) =~= nz);
    assert forall|k: int| 0 <= k < ps.len() implies #[trigger] ps[k].base_addr != 0 by {
        slots.lemma_filter_pred(|a: usize| a != 0, k);
    }
}

impl Game {
    pub fn default(base_addr: usize) -> (g: Game)
        ensures
            g.base_addr == base_addr,
    {
        Game { base_addr }
    }

    /// A player's name, from the bytes of its name field.
    pub fn get_name(raw: &[u8]) -> (name: String)
        ensures
            name@ == name_text(raw@),
    {
        decode_name(raw)
    }

    /// The current mode, from the number the game stores for it.
    pub fn get_game_mode(&self, code: i32) -> (mode: GameModes)
        requires
            is_game_mode_code(code),
        ensures
            game_mode_code(mode) == code,
    {
        GameModes::from_i32(code)
    }

    /// Whether the current mode, given by its stored number, is one without teams.
    pub fn is_free_for_all(&self, code: i32) -> (b: bool)
        requires
            is_game_mode_code(code),
        ensures
            exists|m: GameModes| game_mode_code(m) == code && b == is_free_for_all_mode(m),
            b == (code == 8 || code == 12 || code == 19 || code == 20),
    {
        match Self::get_game_mode(self, code) {
            GameModes::BotDeathMatch => true,
            GameModes::BotOneShotOneKill => true,
            GameModes::BotSurvivor => true,
            GameModes::Botlss => true,
            _ => false,
        }
    }

    /// The write that makes the player at `player_addr` fire: a 1 in its attack flag.
    pub fn shoot(player_addr: usize, attacking_offset: usize) -> (w: MemWrite)
        requires
            player_addr + attacking_offset <= usize::MAX,
        ensures
            w@ == (player_addr + attacking_offset, seq![1u8]),
    {
        let bytes = vec![1u8];
        assert(bytes@ =~= seq![1u8]);
        MemWrite { addr: player_addr + attacking_offset, bytes }
    }

    /// The write that makes the player at `player_addr` stop firing: a 0 in its attack flag.
    pub fn stop_shoot(player_addr: usize, attacking_offset: usize) -> (w: MemWrite)
        requires
            player_addr + attacking_offset <= usize::MAX,
        ensures
            w@ == (player_addr + attacking_offset, seq![0u8]),
    {
        let bytes = vec![0u8];
        assert(bytes@ =~= seq![0u8]);
        MemWrite { addr: player_addr + attacking_offset, bytes }
    }

    /// The players of the game's player vector, from the contents of its pointer
    /// slots: every non-null slot, in order, and the null ones skipped.
    pub fn get_players_vector(&self, slots: &Vec<usize>) -> (players: Vec<Player>)
        ensures
            players@ == players_of_slots(slots@),
    {
        let mut players: Vec<Player> = Vec::new();
        let mut i: usize = 0;
        while i < slots.len()
            invariant
                i <= slots@.len(),
                players@ == players_of_slots(slots@.take(i as int)),
            decreases slots@.len() - i,
        {
            let addr = slots[i];
            proof {
                let s = slots@.take(i + 1);
                assert(s.drop_last() =~= slots@.take(i as int));
                assert(s.last() == addr);
                reveal_with_fuel(Seq::filter, 1);
            }
            if addr != 0 {
                players.push(Player::new(addr));
            }
            proof {
                let s = slots@.take(i + 1);
                assert(players@ =~= players_of_slots(s));
            }
            i = i + 1;
        }
        assert(slots@.take(slots@.len() as int) =~= slots@);
        players
    }
}

} // verus!
