use vstd::prelude::*;
use crate::text::{decode_name, name_text};

verus! {

/// The state byte of a player who is alive.
pub const ALIVE_STATE: u8 = 0;

/// A player, known by the address of its record in the game's memory.
#[derive(Clone, Copy, PartialEq, Eq, Structural, Debug)]
pub struct Player {
    pub base_addr: usize,
}

/// `idx` lists, in increasing order, the positions in `players` of the entries of
/// `picked`, and these positions are exactly those `i` with `keep[i]`: `picked`
/// is the kept players, each once, in their original order.
pub open spec fn picked_at(idx: Seq<int>, picked: Seq<Player>, players: Seq<Player>, keep: Seq<bool>) -> bool {
    &&& idx.len() == picked.len()
    &&& forall|k: int|
        #![trigger idx[k]]
        0 <= k < idx.len() ==> 0 <= idx[k] < players.len() && keep[idx[k]] && picked[k] == players[idx[k]]
    &&& forall|k1: int, k2: int| #![trigger idx[k1], idx[k2]] 0 <= k1 < k2 < idx.len() ==> idx[k1] < idx[k2]
    &&& forall|i: int| #![trigger keep[i]] 0 <= i < players.len() && keep[i] ==> idx.contains(i)
}

impl Player {
    pub fn new(base_addr: usize) -> (p: Player)
        ensures
            p.base_addr == base_addr,
    {
        Player { base_addr }
    }

    /// The player's name, from the bytes of its name field.
    pub fn get_name(&self, raw: &[u8]) -> (name: String)
        ensures
            name@ == name_text(raw@),
    {
        decode_name(raw)
    }

    /// Whether the player is alive, from its state byte.
    pub fn is_alive(&self, state: u8) -> (alive: bool)
        ensures
            alive == (state == ALIVE_STATE),
    {
        state == ALIVE_STATE
    }

    /// Whether two players are enemies, from their team numbers: they are when
    /// the teams differ.
    pub fn is_enemy(&self, own_team: i32, other_team: i32) -> (enemy: bool)
        ensures
            enemy == (own_team != other_team),
    {
        own_team != other_team
    }
}

} // verus!
