//! The decisions of the loader: which loaded module is SDL, which hack a key
//! press switches, and what is reported about it. Polling the keyboard,
//! sleeping and printing are done by the host.
use vstd::prelude::*;
use crate::utils::game_base::chars_of;

verus! {

/// The game's executable module; the library does nothing in another process.
pub const GAME_MODULE: &'static str = "linux_64_client";

/// What the name of the SDL library module contains.
pub const SDL_MODULE_MARK: &'static str = "libSDL2";

/// Pause between two polls of the keyboard, in milliseconds.
pub const INPUT_POLLING_TIMEOUT_MS: u64 = 150;

/// The hacks that a function key switches.
#[derive(Clone, Copy, PartialEq, Eq, Structural, Debug)]
pub enum Hack {
    Esp,
    GodMode,
    InfiniteAmmo,
}

/// The hack that one poll of the keys switches: F1 (ESP) before F2 (god mode)
/// before F3 (infinite ammo); at most one per poll.
pub open spec fn hack_of_keys(f1: bool, f2: bool, f3: bool) -> Option<Hack> {
    if f1 {
        Some(Hack::Esp)
    } else if f2 {
        Some(Hack::GodMode)
    } else if f3 {
        Some(Hack::InfiniteAmmo)
    } else {
        None
    }
}

/// One poll switches the hack of the lowest function key held down: F1 alone
/// or with others gives ESP, F2 without F1 gives god mode whatever F3 does, F3
/// alone gives infinite ammo, and no key switches nothing.
pub proof fn key_priority(f1: bool, f2: bool, f3: bool)
    ensures
        f1 ==> hack_of_keys(f1, f2, f3) == Some(Hack::Esp),
        !f1 && f2 ==> hack_of_keys(f1, f2, f3) == Some(Hack::GodMode),
        !f1 && !f2 && f3 ==> hack_of_keys(f1, f2, f3) == Some(Hack::InfiniteAmmo),
        !f1 && !f2 && !f3 ==> hack_of_keys(f1, f2, f3) is None,
{
}

/// What is reported after a hack has been switched.
pub open spec fn toggle_text(hack: Hack, enabled: bool) -> Seq<char> {
    (if enabled { "[AC_INTERNAL] enabled "@ } else { "[AC_INTERNAL] disabled "@ }) + match hack {
        Hack::Esp => "ESP"@,
        Hack::GodMode => "god mode"@,
        Hack::InfiniteAmmo => "infinite ammo"@,
    }
}

/// `needle` occurs in `hay` starting at `k`.
pub open spec fn occurs_at(hay: Seq<char>, needle: Seq<char>, k: int) -> bool {
    0 <= k && k + needle.len() <= hay.len() && hay.subrange(k, k + needle.len()) == needle
}

/// `needle` occurs somewhere in `hay`, as `str::contains` tests.
pub open spec fn contains_text(hay: Seq<char>, needle: Seq<char>) -> bool {
    exists|k: int| occurs_at(hay, needle, k)
}

/// Whether the key with index `scancode` is held down in an SDL keyboard-state
/// buffer; an empty buffer means no key is.
pub fn is_key_pressed(keyboard_state: &[u8], scancode: usize) -> (pressed: bool)
    requires
        keyboard_state@.len() == 0 || scancode < keyboard_state@.len(),
    ensures
        pressed == (keyboard_state@.len() > 0 && keyboard_state@[scancode as int] != 0),
{
    if keyboard_state.len() == 0 {
        return false;
    }
    keyboard_state[scancode] != 0
}

/// The hack that one poll of the keys switches, given whether F1, F2 and F3 are down.
pub fn hack_for_keys(f1: bool, f2: bool, f3: bool) -> (h: Option<Hack>)
    ensures
        h == hack_of_keys(f1, f2, f3),
        f1 ==> h == Some(Hack::Esp),
        !f1 && f2 ==> h == Some(Hack::GodMode),
        !f1 && !f2 && f3 ==> h == Some(Hack::InfiniteAmmo),
        !f1 && !f2 && !f3 ==> h is None,
{
    if f1 {
        Some(Hack::Esp)
    } else if f2 {
        Some(Hack::GodMode)
    } else if f3 {
        Some(Hack::InfiniteAmmo)
    } else {
        None
    }
}

/// The report after `hack` has been switched on or off.
pub fn toggle_message(hack: Hack, enabled: bool) -> (msg: String)
    ensures
        msg@ == toggle_text(hack, enabled),
{
    let mut msg = String::new();
    if enabled {
        msg.append("[AC_INTERNAL] enabled ");
    } else {
        msg.append("[AC_INTERNAL] disabled ");
    }
    match hack {
        Hack::Esp => msg.append("ESP"),
        Hack::GodMode => msg.append("god mode"),
        Hack::InfiniteAmmo => msg.append("infinite ammo"),
    }
    msg
}

fn occurs_at_exec(hay: &Vec<char>, needle: &Vec<char>, k: usize) -> (b: bool)
    requires
        k + needle@.len() <= hay@.len(),
    ensures
        b == occurs_at(hay@, needle@, k as int),
{
    let mut j: usize = 0;
    while j < needle.len()
        invariant
            k + needle@.len() <= hay@.len(),
            hay@.len() == hay.len(),
            j <= needle@.len(),
            forall|m: int| 0 <= m < j ==> hay@[k + m] == needle@[m],
        decreases needle@.len() - j,
    {
        if hay[k + j] != needle[j] {
            assert(hay@.subrange(k as int, k + needle@.len())[j as int] != needle@[j as int]);
            return false;
        }
        j = j + 1;
    }
    assert(hay@.subrange(k as int, k + needle@.len()) =~= needle@);
    true
}

/// Whether `needle` occurs in `hay`.
pub fn contains(hay: &str, needle: &str) -> (b: bool)
    ensures
        b == contains_text(hay@, needle@),
{
    let h = chars_of(hay);
    let n = chars_of(needle);
    if n.len() > h.len() {
        return false;
    }
    if n.len() == 0 {
        assert(hay@.subrange(0, 0) =~= needle@);
        assert(occurs_at(hay@, needle@, 0));
        return true;
    }
    let last = h.len() - n.len();
    let mut k: usize = 0;
    while k <= last
        invariant
            h@ == hay@,
            n@ == needle@,
            0 < n@.len() <= h@.len() <= usize::MAX,
            last == h@.len() - n@.len(),
            k <= last + 1,
            forall|m: int| 0 <= m < k ==> !occurs_at(hay@, needle@, m),
        decreases last + 1 - k,
    {
        if occurs_at_exec(&h, &n, k) {
            return true;
        }
        k = k + 1;
    }
    assert forall|m: int| !occurs_at(hay@, needle@, m) by {
        if m >= k {
            assert(!(m + needle@.len() <= hay@.len()));
        }
    }
    false
}

/// Index of the first of `names` that contains `needle`, if any does.
pub fn find_module_containing(names: &Vec<String>, needle: &str) -> (r: Option<usize>)
    ensures
        match r {
            Some(i) => i < names@.len() && contains_text(names@[i as int]@, needle@) && forall|j: int|
                0 <= j < i ==> !contains_text(#[trigger] names@[j]@, needle@),
            None => forall|j: int| 0 <= j < names@.len() ==> !contains_text(#[trigger] names@[j]@, needle@),
        },
{
    let mut i: usize = 0;
    while i < names.len()
        invariant
            i <= names@.len(),
            forall|j: int| 0 <= j < i ==> !contains_text(#[trigger] names@[j]@, needle@),
        decreases names@.len() - i,
    {
        if contains(names[i].as_str(), needle) {
            return Some(i);
        }
        i = i + 1;
    }
    None
}

} // verus!
