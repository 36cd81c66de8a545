use vstd::prelude::*;
use crate::control::Hack;
use crate::game::Game;
use crate::memory::{MemWrite, writes_view, write_n_writes};
use crate::patch::{restore_writes, toggled};
use crate::hacks::ammo::ammo_patch_writes;
use crate::hacks::godmode::{god_mode_set_up, god_mode_toggled, HOOK_SIZE};
use crate::hacks::ammo::InfiniteAmmo;
use crate::hacks::esp::ESP;
use crate::hacks::godmode::{GodMode, GodModeView};
use crate::patch::PatchView;
use crate::player::Player;

verus! {

/// Everything the library keeps about the running game: the game, the local
/// player and the three hacks.
pub struct Instance {
    pub game: Game,
    pub local_player: Player,
    pub god_mode: GodMode,
    pub infinite_ammo: InfiniteAmmo,
    pub esp: ESP,
}

impl Instance {
    /// The state for the game image at `game_base_addr` whose local player's
    /// record is at `local_player_addr`, with every hack off.
    pub fn default(
        game_base_addr: usize,
        local_player_addr: usize,
        damage_patch_offset: usize,
        ammo_patch_offset: usize,
    ) -> (inst: Instance)
        requires
            game_base_addr + damage_patch_offset <= usize::MAX,
            game_base_addr + ammo_patch_offset <= usize::MAX,
        ensures
            inst.game.base_addr == game_base_addr,
            inst.local_player.base_addr == local_player_addr,
            inst.esp.game == inst.game,
            inst.esp.local_player == inst.local_player,
            !inst.esp.is_enabled,
            inst.god_mode@ == (GodModeView {
                patch: PatchView { addr: game_base_addr + damage_patch_offset, enabled: false, saved: None },
                local_player_addr: local_player_addr as int,
                page_addr: None,
                detour: None,
            }),
            inst.infinite_ammo@ == (PatchView {
                addr: game_base_addr + ammo_patch_offset,
                enabled: false,
                saved: None,
            }),
    {
        let game = Game::default(game_base_addr);
        let local_player = Player::new(local_player_addr);
        let esp = ESP::new(game, local_player);
        let god_mode = GodMode::new(game.base_addr, damage_patch_offset, local_player.base_addr);
        let infinite_ammo = InfiniteAmmo::default(game_base_addr, ammo_patch_offset);
        Instance { game, local_player, esp, god_mode, infinite_ammo }
    }

    /// Switches `hack` to its other state, as a key press asks, and reports
    /// whether it is now on together with the memory writes that this takes.
    /// A patch that has never been on must have been set up first.
    pub fn toggle(&mut self, hack: Hack) -> (r: (bool, Vec<MemWrite>))
        requires
            hack == Hack::GodMode ==> {
                let g = old(self).god_mode@;
                &&& !g.patch.enabled ==> god_mode_set_up(g) && (g.detour.unwrap().len() == 0
                    || g.patch.addr + g.detour.unwrap().len() - 1 <= usize::MAX)
                &&& g.patch.enabled ==> g.patch.addr + HOOK_SIZE - 1 <= usize::MAX
            },
            hack == Hack::InfiniteAmmo ==> {
                let a = old(self).infinite_ammo@;
                !a.enabled ==> a.saved is Some && a.addr + 2 <= usize::MAX
            },
        ensures
            final(self).game == old(self).game,
            final(self).local_player == old(self).local_player,
            final(self).esp.game == old(self).esp.game,
            final(self).esp.local_player == old(self).esp.local_player,
            hack != Hack::Esp ==> final(self).esp.is_enabled == old(self).esp.is_enabled,
            hack != Hack::GodMode ==> final(self).god_mode@ == old(self).god_mode@,
            hack != Hack::InfiniteAmmo ==> final(self).infinite_ammo@ == old(self).infinite_ammo@,
            hack == Hack::Esp ==> final(self).esp.is_enabled == !old(self).esp.is_enabled
                && r.0 == final(self).esp.is_enabled && r.1@.len() == 0,
            hack == Hack::GodMode ==> {
                let g = old(self).god_mode@;
                &&& final(self).god_mode@ == god_mode_toggled(g)
                &&& r.0 == !g.patch.enabled
                &&& g.patch.enabled ==> writes_view(r.1@) == write_n_writes(g.patch.addr, g.patch.saved.unwrap())
                &&& !g.patch.enabled ==> writes_view(r.1@) == write_n_writes(g.patch.addr, g.detour.unwrap())
            },
            hack == Hack::InfiniteAmmo ==> {
                let a = old(self).infinite_ammo@;
                &&& final(self).infinite_ammo@ == toggled(a)
                &&& r.0 == !a.enabled
                &&& a.enabled ==> writes_view(r.1@) == restore_writes(a)
                &&& !a.enabled ==> writes_view(r.1@) == ammo_patch_writes(a.addr)
            },
    {
        match hack {
            Hack::Esp => {
                let on = self.esp.toggle();
                (on, Vec::new())
            },
            Hack::GodMode => self.god_mode.toggle(),
            Hack::InfiniteAmmo => self.infinite_ammo.toggle(),
        }
    }
}

} // verus!
