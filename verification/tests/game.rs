use ac_internal::game::ac_vector::AcVector;
use ac_internal::game::game_modes::GameModes;
use ac_internal::game::Game;
use ac_internal::instance::Instance;
use ac_internal::control::Hack;
use ac_internal::player::Player;

#[test]
fn game_modes_from_codes() {
    assert_eq!(GameModes::from_i32(7), GameModes::GmodeBotTeamdeathMatch);
    assert_eq!(GameModes::from_i32(8), GameModes::BotDeathMatch);
    assert_eq!(GameModes::from_i32(12), GameModes::BotOneShotOneKill);
    assert_eq!(GameModes::from_i32(18), GameModes::GmodeBotPistolFrenzy);
    assert_eq!(GameModes::from_i32(19), GameModes::Botlss);
    assert_eq!(GameModes::from_i32(20), GameModes::BotSurvivor);
    assert_eq!(GameModes::from_i32(21), GameModes::GmodeBotTeamOneShotOneKill);
}

#[test]
fn game_modes_supported_codes() {
    for code in [7, 8, 12, 18, 19, 20, 21] {
        assert!(GameModes::is_supported(code));
    }
    for code in [-1, 0, 6, 9, 11, 13, 17, 22, 100] {
        assert!(!GameModes::is_supported(code));
    }
}

#[test]
fn free_for_all_modes() {
    let game = Game::default(0);
    assert!(!game.is_free_for_all(7));
    assert!(game.is_free_for_all(8));
    assert!(game.is_free_for_all(12));
    assert!(!game.is_free_for_all(18));
    assert!(game.is_free_for_all(19));
    assert!(game.is_free_for_all(20));
    assert!(!game.is_free_for_all(21));
    assert_eq!(game.get_game_mode(20), GameModes::BotSurvivor);
}

#[test]
fn shoot_and_stop_shoot_writes() {
    let w = Game::shoot(0x1000, 0x224);
    assert_eq!((w.addr, w.bytes.clone()), (0x1224, vec![1]));
    let w = Game::stop_shoot(0x1000, 0x224);
    assert_eq!((w.addr, w.bytes.clone()), (0x1224, vec![0]));
}

#[test]
fn names_end_at_zero_or_sixteen_bytes() {
    assert_eq!(Game::get_name(b"Bot\0xyz"), "Bot");
    assert_eq!(Game::get_name(b"ABCDEFGHIJKLMNOPQRS"), "ABCDEFGHIJKLMNOP");
    assert_eq!(Game::get_name(b""), "");
    assert_eq!(Game::get_name(b"\0abc"), "");
    assert_eq!(Game::get_name(b"ab"), "ab");
    assert_eq!(Game::get_name(&[0xe9, 0x41, 0]), "\u{e9}A");
    let p = Player::new(0x20);
    assert_eq!(p.get_name(b"unarmed\0\0\0"), "unarmed");
}

#[test]
fn player_state_and_teams() {
    let p = Player::new(0x30);
    assert_eq!(p.base_addr, 0x30);
    assert!(p.is_alive(0));
    assert!(!p.is_alive(1));
    assert!(!p.is_alive(5));
    assert!(p.is_enemy(0, 1));
    assert!(!p.is_enemy(1, 1));
}

#[test]
fn players_vector_skips_null_slots() {
    let game = Game::default(0);
    let players = game.get_players_vector(&vec![0, 0x100, 0, 0x200, 0x300]);
    assert_eq!(players, vec![Player::new(0x100), Player::new(0x200), Player::new(0x300)]);
    assert!(game.get_players_vector(&vec![]).is_empty());
    assert!(game.get_players_vector(&vec![0, 0]).is_empty());
}

#[test]
fn player_slot_addresses() {
    let v = AcVector { player_addrs: 0x7000, capacity: 32, elements: 4 };
    let stride = std::mem::size_of::<usize>();
    assert_eq!(v.slot_addr(0), 0x7000);
    assert_eq!(v.slot_addr(3), 0x7000 + 3 * stride);
}

#[test]
fn instance_starts_with_everything_off() {
    let inst = Instance::default(0x400000, 0x8000, 0x2fd10, 0x1000);
    assert_eq!(inst.game.base_addr, 0x400000);
    assert_eq!(inst.local_player.base_addr, 0x8000);
    assert!(!inst.esp.is_enabled);
    assert!(!inst.god_mode.is_enabled());
    assert!(inst.god_mode.needs_setup());
    assert_eq!(inst.god_mode.addr_to_patch(), 0x42fd10);
    assert!(!inst.infinite_ammo.is_enabled());
    assert_eq!(inst.infinite_ammo.addr_to_patch(), 0x401000);
}

#[test]
fn instance_toggles_each_hack() {
    let mut inst = Instance::default(0x400000, 0x8000, 0x10, 0x20);
    let (on, ws) = inst.toggle(Hack::Esp);
    assert!(on && ws.is_empty() && inst.esp.is_enabled);
    inst.infinite_ammo.record_original(vec![1, 2, 3, 4]);
    let (on, ws) = inst.toggle(Hack::InfiniteAmmo);
    assert!(on);
    assert_eq!(ws.len(), 2);
    assert_eq!(ws[0].addr, 0x400020);
    inst.god_mode.install(0x9000, vec![0x90; 19], vec![0xcc; 19]);
    let (on, ws) = inst.toggle(Hack::GodMode);
    assert!(on);
    assert_eq!(ws[0].addr, 0x400010);
    let (on, ws) = inst.toggle(Hack::GodMode);
    assert!(!on);
    let restored: Vec<u8> = ws.iter().flat_map(|w| w.bytes.clone()).collect();
    assert_eq!(restored, vec![0xcc; 19]);
    assert!(inst.esp.is_enabled && inst.infinite_ammo.is_enabled());
}
