use ac_internal::control::{
    contains, find_module_containing, hack_for_keys, is_key_pressed, toggle_message, Hack,
    GAME_MODULE, INPUT_POLLING_TIMEOUT_MS, SDL_MODULE_MARK,
};
use ac_internal::utils::game_base::{base_address_from_maps_line, chars_of, is_whitespace, parse_hex};
use ac_internal::utils::math::{ViewMatrix, VIEW_MATRIX_OFF};

#[test]
fn key_pressed_reads_the_scancode() {
    let state = [0u8, 0, 1, 0];
    assert!(is_key_pressed(&state, 2));
    assert!(!is_key_pressed(&state, 1));
    assert!(!is_key_pressed(&[], 58));
}

#[test]
fn keys_pick_one_hack_in_order() {
    assert_eq!(hack_for_keys(true, true, true), Some(Hack::Esp));
    assert_eq!(hack_for_keys(false, true, true), Some(Hack::GodMode));
    assert_eq!(hack_for_keys(false, false, true), Some(Hack::InfiniteAmmo));
    assert_eq!(hack_for_keys(false, false, false), None);
}

#[test]
fn toggle_messages() {
    assert_eq!(toggle_message(Hack::Esp, true), "[AC_INTERNAL] enabled ESP");
    assert_eq!(toggle_message(Hack::Esp, false), "[AC_INTERNAL] disabled ESP");
    assert_eq!(toggle_message(Hack::GodMode, true), "[AC_INTERNAL] enabled god mode");
    assert_eq!(toggle_message(Hack::GodMode, false), "[AC_INTERNAL] disabled god mode");
    assert_eq!(toggle_message(Hack::InfiniteAmmo, true), "[AC_INTERNAL] enabled infinite ammo");
    assert_eq!(toggle_message(Hack::InfiniteAmmo, false), "[AC_INTERNAL] disabled infinite ammo");
}

#[test]
fn substring_search() {
    assert!(contains("/usr/lib/libSDL2-2.0.so.0", "libSDL2"));
    assert!(!contains("/usr/lib/libGL.so", "libSDL2"));
    assert!(contains("abc", ""));
    assert!(contains("abc", "abc"));
    assert!(!contains("ab", "abc"));
    assert!(contains("aab", "ab"));
}

#[test]
fn finds_the_sdl_module() {
    let names = vec![
        "/usr/lib/libc.so.6".to_string(),
        "/usr/lib/libSDL2-2.0.so.0".to_string(),
        "/opt/libSDL2_image.so".to_string(),
    ];
    assert_eq!(find_module_containing(&names, SDL_MODULE_MARK), Some(1));
    assert_eq!(find_module_containing(&names[..1].to_vec(), SDL_MODULE_MARK), None);
    assert_eq!(find_module_containing(&vec![], SDL_MODULE_MARK), None);
}

#[test]
fn constants() {
    assert_eq!(GAME_MODULE, "linux_64_client");
    assert_eq!(INPUT_POLLING_TIMEOUT_MS, 150);
}

#[test]
fn base_address_from_first_maps_line() {
    let line = "55d4a3c00000-55d4a3c2a000 r--p 00000000 103:02 1234 /opt/ac/linux_64_client";
    assert_eq!(base_address_from_maps_line(line), Some(0x55d4a3c00000));
    assert_eq!(base_address_from_maps_line("  \t400000-401000 r-xp"), Some(0x400000));
    assert_eq!(base_address_from_maps_line("ABCDEF"), Some(0xabcdef));
    assert_eq!(base_address_from_maps_line(""), Some(0));
    assert_eq!(base_address_from_maps_line("   \n"), Some(0));
    assert_eq!(base_address_from_maps_line("+10-20"), Some(0x10));
}

#[test]
fn base_address_rejects_what_from_str_radix_rejects() {
    assert_eq!(base_address_from_maps_line("xyz-123"), None);
    assert_eq!(base_address_from_maps_line("-123"), None);
    assert_eq!(base_address_from_maps_line("+-1"), None);
    assert_eq!(base_address_from_maps_line("10000000000000000-0"), None);
    assert_eq!(base_address_from_maps_line("ffffffffffffffff-0"), Some(usize::MAX));
}

#[test]
fn hex_parsing_matches_std() {
    for s in ["0", "ff", "+ff", "FF", "fF", "", "+", "-1", "g", "123456789abcdef0", "1ffffffffffffffff"] {
        let chars = chars_of(s);
        assert_eq!(parse_hex(&chars, 0, chars.len()), usize::from_str_radix(s, 16).ok(), "{}", s);
    }
}

#[test]
fn whitespace_matches_std() {
    for c in ['\t', '\n', '\u{b}', '\u{c}', '\r', ' ', '\u{85}', '\u{a0}', '\u{1680}', '\u{2000}', '\u{200a}',
        '\u{2028}', '\u{2029}', '\u{202f}', '\u{205f}', '\u{3000}', 'a', '-', '\u{200b}', '\u{8}', '\u{e}'] {
        assert_eq!(is_whitespace(c), c.is_whitespace(), "{:?}", c);
    }
}

#[test]
fn view_matrix_addresses() {
    let m = ViewMatrix::new(0x400000);
    assert_eq!(m.base_addr, 0x400000 + 0x13745c - 0x80);
    assert_eq!(VIEW_MATRIX_OFF, 0x1373dc);
    let m = ViewMatrix::default(0x1000, 0x20);
    assert_eq!(m.base_addr, 0x1020);
    let cells = m.read_order();
    assert_eq!(cells.len(), 16);
    assert_eq!(cells[0], (0, 0, 0x1020));
    assert_eq!(cells[3], (0, 3, 0x102c));
    assert_eq!(cells[4], (1, 0, 0x1030));
    assert_eq!(cells[15], (3, 3, 0x105c));
}
