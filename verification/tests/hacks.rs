use std::collections::HashMap;

use ac_internal::aimbot::norecoil::{NoRecoilSpread, RECOIL_PATCH_OFF};
use ac_internal::aimbot::AimBot;
use ac_internal::hacks::ammo::InfiniteAmmo;
use ac_internal::hacks::esp::{box_color, ESP, ENEMY_COLOR, TEAM_COLOR};
use ac_internal::hacks::godmode::{GodMode, DETOUR_HEAD, DETOUR_TAIL, HOOK_HEAD, HOOK_MID, HOOK_SIZE, HOOK_TAIL};
use ac_internal::game::Game;
use ac_internal::memory::MemWrite;
use ac_internal::player::Player;

fn apply(mem: &mut HashMap<usize, u8>, ws: &[MemWrite]) {
    for w in ws {
        for (i, b) in w.bytes.iter().enumerate() {
            mem.insert(w.addr + i, *b);
        }
    }
}

fn memory_with(addr: usize, bytes: &[u8]) -> HashMap<usize, u8> {
    let mut mem = HashMap::new();
    for (i, b) in bytes.iter().enumerate() {
        mem.insert(addr + i, *b);
    }
    mem
}

fn shape(ws: &[MemWrite]) -> Vec<(usize, Vec<u8>)> {
    ws.iter().map(|w| (w.addr, w.bytes.clone())).collect()
}

#[test]
fn infinite_ammo_patches_three_nops() {
    let mut ammo = InfiniteAmmo::default(0x400000, 0x1234);
    assert_eq!(ammo.addr_to_patch(), 0x401234);
    assert!(!ammo.is_enabled());
    assert!(ammo.needs_original());
    ammo.record_original(vec![0x83, 0x28, 0x01, 0x48]);
    assert!(!ammo.needs_original());
    let ws = ammo.enable();
    assert!(ammo.is_enabled());
    assert_eq!(shape(&ws), vec![(0x401234, vec![0x90, 0x90]), (0x401236, vec![0x90])]);
}

#[test]
fn infinite_ammo_enable_twice_writes_once() {
    let mut ammo = InfiniteAmmo::default(0, 0x10);
    ammo.record_original(vec![1, 2, 3, 4]);
    assert_eq!(ammo.enable().len(), 2);
    assert!(ammo.enable().is_empty());
    assert!(ammo.is_enabled());
}

#[test]
fn infinite_ammo_disable_when_off_writes_nothing() {
    let mut ammo = InfiniteAmmo::default(0, 0x10);
    assert!(ammo.disable().is_empty());
    assert!(!ammo.is_enabled());
}

#[test]
fn infinite_ammo_toggle_round_trip_restores_memory() {
    let original = [0x83u8, 0x28, 0x01, 0x48];
    let mut mem = memory_with(0x2000, &original);
    let before = mem.clone();
    let mut ammo = InfiniteAmmo::default(0x2000, 0);
    ammo.record_original(original.to_vec());
    let (on, ws) = ammo.toggle();
    assert!(on);
    apply(&mut mem, &ws);
    assert_eq!(mem[&0x2000], 0x90);
    assert_eq!(mem[&0x2001], 0x90);
    assert_eq!(mem[&0x2002], 0x90);
    assert_eq!(mem[&0x2003], 0x48);
    let (on, ws) = ammo.toggle();
    assert!(!on);
    assert_eq!(shape(&ws), vec![(0x2000, original.to_vec())]);
    apply(&mut mem, &ws);
    assert_eq!(mem, before);
    assert!(!ammo.needs_original());
}

#[test]
fn no_recoil_writes_a_ret() {
    let mut nr = NoRecoilSpread::new(0x10000);
    assert_eq!(nr.patch_addr(), 0x10000 + RECOIL_PATCH_OFF);
    assert_eq!(nr.patch_addr(), 0xcd220);
    assert!(nr.needs_original());
    nr.record_original(vec![0x55, 0x48, 0x89, 0xe5]);
    let ws = nr.toggle();
    assert!(nr.is_enabled());
    assert_eq!(shape(&ws), vec![(0xcd220, vec![0xc3])]);
    let ws = nr.toggle();
    assert!(!nr.is_enabled());
    assert_eq!(shape(&ws), vec![(0xcd220, vec![0x55, 0x48, 0x89, 0xe5])]);
    assert!(nr.disable().is_empty());
}

#[test]
fn aim_bot_switches() {
    let mut bot = AimBot::default(Player::new(0x5000), 0);
    assert!(!bot.is_enabled());
    assert!(!bot.autoshoot());
    bot.toggle();
    assert!(bot.is_enabled());
    bot.toggle();
    assert!(!bot.is_enabled());
    bot.enable();
    bot.enable_autoshoot();
    assert!(bot.is_enabled() && bot.autoshoot());
    bot.disable();
    assert!(!bot.is_enabled());
    assert!(!bot.norecoil_spread.is_enabled());
    assert_eq!(bot.norecoil_spread.patch_addr(), RECOIL_PATCH_OFF);
}

#[test]
fn god_mode_hook_source_text() {
    let gm = GodMode::new(0x400000, 0x2fd10, 0x7f00aa);
    assert_eq!(gm.addr_to_patch(), 0x42fd10);
    assert_eq!(gm.return_address(), 0x42fd10 + 19);
    let text = gm.hook_source();
    let expected = format!("{}7f00aa{}42fd23{}", HOOK_HEAD, HOOK_MID, HOOK_TAIL);
    assert_eq!(text, expected);
    assert!(text.contains("mov rax,0x7f00aa\n"));
    assert!(text.contains("mov rax,0x42fd23\n"));
    assert!(text.starts_with("BITS 64"));
}

#[test]
fn god_mode_detour_source_text() {
    let text = GodMode::detour_source(0x7fff0000);
    assert_eq!(text, format!("{}7fff0000{}", DETOUR_HEAD, DETOUR_TAIL));
    assert!(text.contains("mov rax, 0x7fff0000          \n"));
    assert_eq!(GodMode::detour_source(0), format!("{}0{}", DETOUR_HEAD, DETOUR_TAIL));
}

#[test]
fn god_mode_enable_writes_detour_and_disable_restores() {
    let original: Vec<u8> = vec![
        0x29, 0xd0, 0x41, 0x89, 0x86, 0x04, 0x01, 0x00, 0x00, 0x41, 0x29, 0xf4, 0x45, 0x29, 0xa6,
        0x00, 0x01, 0x00, 0x00,
    ];
    assert_eq!(original.len(), HOOK_SIZE);
    let detour: Vec<u8> = vec![
        0x50, 0x48, 0xb8, 0, 0, 0xff, 0x7f, 0, 0, 0, 0, 0xff, 0xe0, 0x58, 0x90, 0x90, 0x90, 0x90,
        0x90,
    ];
    let mut mem = memory_with(0x1000, &original);
    let before = mem.clone();
    let mut gm = GodMode::new(0x1000, 0, 0x5555);
    assert!(gm.needs_setup());
    gm.install(0x7fff0000, detour.clone(), original.clone());
    assert!(!gm.needs_setup());
    let (on, ws) = gm.toggle();
    assert!(on);
    // 19 bytes go out as 1 + 2 + 8 + 8
    let widths: Vec<usize> = ws.iter().map(|w| w.bytes.len()).collect();
    assert_eq!(widths, vec![1, 2, 8, 8]);
    apply(&mut mem, &ws);
    for (i, b) in detour.iter().enumerate() {
        assert_eq!(mem[&(0x1000 + i)], *b);
    }
    assert!(gm.enable().is_empty());
    let (on, ws) = gm.toggle();
    assert!(!on);
    apply(&mut mem, &ws);
    assert_eq!(mem, before);
    assert!(gm.disable().is_empty());
    assert!(!gm.needs_setup());
}

#[test]
fn esp_toggle_and_draw_plan() {
    let game = Game::default(0x400000);
    let me = Player::new(0x10);
    let mut esp = ESP::new(game, me);
    assert!(!esp.is_enabled);
    assert!(esp.toggle());
    assert!(esp.is_enabled);
    assert!(!esp.toggle());
    assert!(esp.draw(&vec![], &vec![]).is_none());
    let players = vec![Player::new(1), Player::new(2), Player::new(3)];
    let boxes = esp.draw(&players, &vec![true, false, true]).unwrap();
    assert_eq!(boxes, vec![Player::new(1), Player::new(3)]);
    let boxes = esp.draw(&players, &vec![false, false, false]).unwrap();
    assert!(boxes.is_empty());
}

#[test]
fn esp_box_colors() {
    assert_eq!(box_color(true), (255, 0, 0));
    assert_eq!(box_color(false), (0, 255, 0));
    assert_eq!(box_color(true), ENEMY_COLOR);
    assert_eq!(box_color(false), TEAM_COLOR);
}

#[test]
fn aim_bot_targets_alive_enemies() {
    let bot = AimBot::default(Player::new(0x5000), 0);
    let players = vec![Player::new(1), Player::new(2), Player::new(3), Player::new(4)];
    let t = bot.targets(&players, &vec![true, true, false, true], &vec![true, false, true, true]);
    assert_eq!(t, vec![Player::new(1), Player::new(4)]);
    assert!(bot.targets(&vec![], &vec![], &vec![]).is_empty());
}

#[test]
fn aim_bot_frame_writes() {
    let mut bot = AimBot::default(Player::new(0x5000), 0);
    let (stop, go) = bot.begin_frame(0x224);
    assert!(stop.is_none() && !go);
    assert!(bot.fire(0x224).is_none());
    bot.enable();
    bot.enable_autoshoot();
    let (stop, go) = bot.begin_frame(0x224);
    assert!(go);
    assert_eq!(shape(&[stop.unwrap()]), vec![(0x5224, vec![0])]);
    assert_eq!(shape(&[bot.fire(0x224).unwrap()]), vec![(0x5224, vec![1])]);
}

#[test]
fn god_mode_detour_len() {
    let mut gm = GodMode::new(0, 0x10, 0);
    gm.install(0x9000, vec![0x90; 14], vec![0; 19]);
    assert_eq!(gm.detour_len(), 14);
}
