use ac_internal::text::{decode_name, push_hex, NAME_MAX_LEN};

#[test]
fn hex_is_lowercase_without_leading_zeros() {
    for n in [0usize, 1, 9, 10, 15, 16, 255, 0x7f00aa, 0xdeadbeef, usize::MAX] {
        let mut s = String::from("0x");
        push_hex(&mut s, n);
        assert_eq!(s, format!("0x{:x}", n));
    }
}

#[test]
fn decoded_names_are_short() {
    let raw = [b'a'; 40];
    assert_eq!(decode_name(&raw).len(), NAME_MAX_LEN);
    assert!(!decode_name(b"x\0y").contains('\0'));
}
