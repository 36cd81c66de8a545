//! Building the text that the hooks hand to the assembler.
use vstd::prelude::*;

verus! {

/// The lowercase hexadecimal digit for `d` (`0`–`9`, then `a`–`f`).
pub open spec fn hex_digit(d: nat) -> char {
    if d < 10 {
        (48 + d) as char
    } else {
        (87 + d) as char
    }
}

/// `n` in lowercase hexadecimal without leading zeros, as `{:x}` prints it.
pub open spec fn hex_text(n: nat) -> Seq<char>
    decreases n,
{
    if n < 16 {
        seq![hex_digit(n)]
    } else {
        hex_text(n / 16).push(hex_digit(n % 16))
    }
}

/// Wraps `String::push`, which, as its documentation says, appends `c` to the
/// end of the string; the contract claims exactly that and nothing more.
#[verifier::external_body]
pub(crate) fn push_char(s: &mut String, c: char)
    ensures
        final(s)@ == old(s)@.push(c),
{
    s.push(c);
}

fn hex_digit_char(d: u8) -> (c: char)
    requires
        d < 16,
    ensures
        c == hex_digit(d as nat),
{
    if d < 10 {
        (48 + d) as char
    } else {
        (87 + d) as char
    }
}

/// Appends `n` in lowercase hexadecimal.
pub fn push_hex(s: &mut String, n: usize)
    ensures
        final(s)@ == old(s)@ + hex_text(n as nat),
    decreases n,
{
    if n >= 16 {
        push_hex(s, n / 16);
    }
    let d = (n % 16) as u8;
    push_char(s, hex_digit_char(d));
}

/// Longest name the game stores, in bytes.
pub const NAME_MAX_LEN: usize = 16;

/// Index at which a stored name ends, searching from `i`: the first zero byte,
/// or the end of the buffer, or `NAME_MAX_LEN`, whichever comes first.
pub open spec fn name_end_from(raw: Seq<u8>, i: nat) -> nat
    decreases NAME_MAX_LEN - i,
{
    if i >= NAME_MAX_LEN || i >= raw.len() || raw[i as int] == 0 {
        i
    } else {
        name_end_from(raw, i + 1)
    }
}

/// The characters of the name stored in `raw`: its bytes up to the first zero
/// byte, at most `NAME_MAX_LEN` of them, each taken as the character of that code.
pub open spec fn name_text(raw: Seq<u8>) -> Seq<char> {
    raw.take(name_end_from(raw, 0) as int).map_values(|b: u8| b as char)
}

proof fn lemma_name_end_from(raw: Seq<u8>, i: nat)
    requires
        i <= NAME_MAX_LEN,
        i <= raw.len(),
    ensures
        i <= name_end_from(raw, i) <= NAME_MAX_LEN,
        name_end_from(raw, i) <= raw.len(),
        forall|j: int| i <= j < name_end_from(raw, i) ==> raw[j] != 0,
        name_end_from(raw, i) == NAME_MAX_LEN || name_end_from(raw, i) == raw.len()
            || raw[name_end_from(raw, i) as int] == 0,
    decreases NAME_MAX_LEN - i,
{
    if !(i >= NAME_MAX_LEN || i >= raw.len() || raw[i as int] == 0) {
        lemma_name_end_from(raw, i + 1);
    }
}

/// A name read from the game has at most `NAME_MAX_LEN` characters and none of
/// them is the zero character that ends it.
pub proof fn stored_name_is_short(raw: Seq<u8>)
    ensures
        name_text(raw).len() <= NAME_MAX_LEN,
        forall|i: int| 0 <= i < name_text(raw).len() ==> name_text(raw)[i] != '\0',
{
    lemma_name_end_from(raw, 0);
    let e = name_end_from(raw, 0);
    assert forall|i: int| 0 <= i < name_text(raw).len() implies name_text(raw)[i] != '\0' by {
        assert(raw[i] != 0);
        assert(name_text(raw)[i] == raw[i] as char);
    }
}

/// A name read from the game is its name field up to the terminator: every byte
/// before the first zero byte is kept, in order and as the character of that
/// code, and reading stops only at a zero byte, at the end of the field, or
/// after `NAME_MAX_LEN` bytes.
pub proof fn name_is_the_field_up_to_its_terminator(raw: Seq<u8>)
    ensures
        name_text(raw).len() <= NAME_MAX_LEN,
        name_text(raw).len() <= raw.len(),
        forall|i: int| 0 <= i < name_text(raw).len() ==> raw[i] != 0 && #[trigger] name_text(raw)[i] == raw[i] as char,
        name_text(raw).len() == NAME_MAX_LEN || name_text(raw).len() == raw.len()
            || raw[name_text(raw).len() as int] == 0,
{
    lemma_name_end_from(raw, 0);
}

/// Reads a name the way the game stores it: one byte per character, ended by a
/// zero byte or by the sixteenth byte.
pub fn decode_name(raw: &[u8]) -> (name: String)
    ensures
        name@ == name_text(raw@),
{
    let mut name = String::new();
    let mut i: usize = 0;
    while i < NAME_MAX_LEN && i < raw.len()
        invariant
            i <= NAME_MAX_LEN,
            i <= raw@.len(),
            name_end_from(raw@, 0) == name_end_from(raw@, i as nat),
            name@ == raw@.take(i as int).map_values(|b: u8| b as char),
        ensures
            i <= raw@.len(),
            name_end_from(raw@, 0) == i,
            name@ == raw@.take(i as int).map_values(|b: u8| b as char),
        decreases NAME_MAX_LEN - i,
    {
        let c = raw[i];
        if c == 0 {
            break;
        }
        push_char(&mut name, c as char);
        assert(raw@.take(i + 1) =~= raw@.take(i as int).push(c));
        assert(raw@.take(i + 1).map_values(|b: u8| b as char) =~= raw@.take(i as int).map_values(
            |b: u8| b as char,
        ).push(c as char));
        i = i + 1;
    }
    name
}

} // verus!
