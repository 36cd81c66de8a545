//! Where the game's image starts, from the first line of the process's memory
//! map (`/proc/<pid>/maps`), whose first field is the address range
//! `start-end` in hexadecimal.
use vstd::prelude::*;
use crate::text::{hex_digit, hex_text};

verus! {

/// `c` has the Unicode `White_Space` property, as `char::is_whitespace` tests.
pub open spec fn is_white(c: char) -> bool {
    ||| ('\u{9}' <= c && c <= '\u{d}')
    ||| c == ' '
    ||| c == '\u{85}'
    ||| c == '\u{a0}'
    ||| c == '\u{1680}'
    ||| ('\u{2000}' <= c && c <= '\u{200a}')
    ||| c == '\u{2028}'
    ||| c == '\u{2029}'
    ||| c == '\u{202f}'
    ||| c == '\u{205f}'
    ||| c == '\u{3000}'
}

/// First index at or after `i` whose character is not white space (or the length).
pub open spec fn skip_white(s: Seq<char>, i: nat) -> nat
    decreases s.len() - i,
{
    if i >= s.len() || !is_white(s[i as int]) {
        i
    } else {
        skip_white(s, i + 1)
    }
}

/// First index at or after `i` whose character is white space (or the length).
pub open spec fn find_white(s: Seq<char>, i: nat) -> nat
    decreases s.len() - i,
{
    if i >= s.len() || is_white(s[i as int]) {
        i
    } else {
        find_white(s, i + 1)
    }
}

/// First index at or after `i` holding `c` (or the length).
pub open spec fn find_char(s: Seq<char>, c: char, i: nat) -> nat
    decreases s.len() - i,
{
    if i >= s.len() || s[i as int] == c {
        i
    } else {
        find_char(s, c, i + 1)
    }
}

/// The first white-space separated field of `s`, if there is one.
pub open spec fn first_field(s: Seq<char>) -> Option<Seq<char>> {
    let start = skip_white(s, 0);
    if start >= s.len() {
        None
    } else {
        Some(s.subrange(start as int, find_white(s, start) as int))
    }
}

/// What comes before the first `-` of `s` (all of `s` if it holds none).
pub open spec fn before_dash(s: Seq<char>) -> Seq<char> {
    s.subrange(0, find_char(s, '-', 0) as int)
}

/// The value of a hexadecimal digit (either case), if `c` is one.
pub open spec fn hex_digit_value(c: char) -> Option<nat> {
    if '0' <= c && c <= '9' {
        Some((c as nat - 48) as nat)
    } else if 'a' <= c && c <= 'f' {
        Some((c as nat - 87) as nat)
    } else if 'A' <= c && c <= 'F' {
        Some((c as nat - 55) as nat)
    } else {
        None
    }
}

/// Every character of `s` is a hexadecimal digit.
pub open spec fn all_hex_digits(s: Seq<char>) -> bool {
    forall|i: int| 0 <= i < s.len() ==> (#[trigger] hex_digit_value(s[i])) is Some
}

/// The number that the hexadecimal digits of `s` spell.
pub open spec fn hex_value(s: Seq<char>) -> nat
    decreases s.len(),
{
    if s.len() == 0 {
        0
    } else {
        hex_value(s.drop_last()) * 16 + hex_digit_value(s.last()).unwrap()
    }
}

/// What `usize::from_str_radix(s, 16)` gives: an optional `+`, then at least
/// one hexadecimal digit, and a value that fits.
pub open spec fn parse_hex_usize(s: Seq<char>) -> Option<usize> {
    let digits = if s.len() > 0 && s[0] == '+' { s.drop_first() } else { s };
    if digits.len() == 0 || !all_hex_digits(digits) || hex_value(digits) > usize::MAX {
        None
    } else {
        Some(hex_value(digits) as usize)
    }
}

/// The start of the game's image as the first line of its memory map gives it:
/// zero when the line has no field, else the hexadecimal number before the
/// first `-` of its first field, if that is one.
pub open spec fn maps_line_base(line: Seq<char>) -> Option<usize> {
    match first_field(line) {
        None => Some(0),
        Some(field) => parse_hex_usize(before_dash(field)),
    }
}

proof fn lemma_hex_prefix_le(s: Seq<char>, k: nat)
    requires
        k <= s.len(),
    ensures
        hex_value(s.take(k as int)) <= hex_value(s),
    decreases s.len() - k,
{
    if k < s.len() {
        lemma_hex_prefix_le(s, k + 1);
        assert(s.take((k + 1) as int).drop_last() =~= s.take(k as int));
    } else {
        assert(s.take(k as int) =~= s);
    }
}

/// Whether `c` is white space in the sense of `char::is_whitespace`.
pub fn is_whitespace(c: char) -> (b: bool)
    ensures
        b == is_white(c),
{
    ('\u{9}' <= c && c <= '\u{d}') || c == ' ' || c == '\u{85}' || c == '\u{a0}' || c == '\u{1680}'
        || ('\u{2000}' <= c && c <= '\u{200a}') || c == '\u{2028}' || c == '\u{2029}' || c
        == '\u{202f}' || c == '\u{205f}' || c == '\u{3000}'
}

fn hex_digit_val(c: char) -> (d: Option<u8>)
    ensures
        match d {
            Some(v) => hex_digit_value(c) == Some(v as nat) && v < 16,
            None => hex_digit_value(c) is None,
        },
{
    if '0' <= c && c <= '9' {
        Some(((c as u32) - 48) as u8)
    } else if 'a' <= c && c <= 'f' {
        Some(((c as u32) - 87) as u8)
    } else if 'A' <= c && c <= 'F' {
        Some(((c as u32) - 55) as u8)
    } else {
        None
    }
}

/// The hexadecimal number spelled by `chars[start..end]`, as `usize::from_str_radix`
/// reads it with radix 16.
pub fn parse_hex(chars: &Vec<char>, start: usize, end: usize) -> (r: Option<usize>)
    requires
        start <= end <= chars@.len(),
    ensures
        r == parse_hex_usize(chars@.subrange(start as int, end as int)),
{
    let ghost s = chars@.subrange(start as int, end as int);
    let mut i = start;
    if i < end && chars[i] == '+' {
        i = i + 1;
    }
    let ghost digits = chars@.subrange(i as int, end as int);
    proof {
        if s.len() > 0 && s[0] == '+' {
            assert(digits =~= s.drop_first());
        } else {
            assert(digits =~= s);
        }
    }
    if i == end {
        return None;
    }
    let first = i;
    let mut value: usize = 0;
    while i < end
        invariant
            start <= first <= i <= end <= chars@.len(),
            first < end,
            s == chars@.subrange(start as int, end as int),
            digits == chars@.subrange(first as int, end as int),
            digits == (if s.len() > 0 && s[0] == '+' { s.drop_first() } else { s }),
            all_hex_digits(chars@.subrange(first as int, i as int)),
            value == hex_value(chars@.subrange(first as int, i as int)),
        decreases end - i,
    {
        let ghost prefix = chars@.subrange(first as int, i as int);
        let ghost next = chars@.subrange(first as int, i + 1);
        proof {
            assert(next.drop_last() =~= prefix);
            assert(next.last() == chars@[i as int]);
        }
        match hex_digit_val(chars[i]) {
            None => {
                proof {
                    assert(digits[i - first] == chars@[i as int]);
                    assert(!all_hex_digits(digits));
                }
                return None;
            },
            Some(d) => {
                match value.checked_mul(16) {
                    None => {
                        proof {
                            assert(next =~= digits.take(i + 1 - first));
                            lemma_hex_prefix_le(digits, (i + 1 - first) as nat);
                        }
                        return None;
                    },
                    Some(v16) => {
                        match v16.checked_add(d as usize) {
                            None => {
                                proof {
                                    assert(next =~= digits.take(i + 1 - first));
                                    lemma_hex_prefix_le(digits, (i + 1 - first) as nat);
                                }
                                return None;
                            },
                            Some(v) => {
                                assert forall|k: int| 0 <= k < next.len() implies (#[trigger] hex_digit_value(next[k])) is Some by {
                                    if k < prefix.len() {
                                        assert(next[k] == prefix[k]);
                                    }
                                }
                                value = v;
                            },
                        }
                    },
                }
            },
        }
        i = i + 1;
    }
    proof {
        assert(chars@.subrange(first as int, i as int) =~= digits);
    }
    Some(value)
}

proof fn lemma_hex_text_digits(n: nat)
    ensures
        hex_text(n).len() >= 1,
        all_hex_digits(hex_text(n)),
        hex_value(hex_text(n)) == n,
        forall|i: int| 0 <= i < hex_text(n).len() ==> !is_white(#[trigger] hex_text(n)[i])
            && hex_text(n)[i] != '-' && hex_text(n)[i] != '+',
    decreases n,
{
    let d = n % 16;
    assert(hex_digit_value(hex_digit(d)) == Some(d)) by {
        if d < 10 {
            assert(hex_digit(d) == (48 + d) as char);
        } else {
            assert(hex_digit(d) == (87 + d) as char);
        }
    }
    if n < 16 {
        let t = hex_text(n);
        assert(t =~= seq![hex_digit(n)]);
        assert(t.drop_last() =~= Seq::<char>::empty());
        assert(t.last() == hex_digit(d));
        assert(hex_value(t) == hex_value(t.drop_last()) * 16 + d);
    } else {
        lemma_hex_text_digits(n / 16);
        let t = hex_text(n);
        let p = hex_text(n / 16);
        assert(t == p.push(hex_digit(d)));
        assert(t.drop_last() =~= p);
        assert(t.last() == hex_digit(d));
        assert(hex_value(t) == n / 16 * 16 + d);
        assert(n / 16 * 16 + n % 16 == n) by (nonlinear_arith);
        assert forall|i: int| 0 <= i < t.len() implies (#[trigger] hex_digit_value(t[i])) is Some by {
            if i < p.len() {
                assert(t[i] == p[i]);
            }
        }
        assert forall|i: int| 0 <= i < t.len() implies !is_white(#[trigger] t[i]) && t[i] != '-'
            && t[i] != '+' by {
            if i < p.len() {
                assert(t[i] == p[i]);
            }
        }
    }
}

/// What `{:x}` prints of a number is read back by `from_str_radix(.., 16)` as
/// that number.
pub proof fn hex_text_parses_back(n: usize)
    ensures
        parse_hex_usize(hex_text(n as nat)) == Some(n),
{
    lemma_hex_text_digits(n as nat);
}

proof fn lemma_find_white_past(s: Seq<char>, i: nat, k: nat)
    requires
        i <= k < s.len(),
        forall|j: int| i <= j <= k ==> !is_white(#[trigger] s[j]),
    ensures
        find_white(s, i) == find_white(s, k + 1),
    decreases k + 1 - i,
{
    if i < k + 1 {
        if i < k {
            lemma_find_white_past(s, i + 1, k);
        }
    }
}

proof fn lemma_find_dash(s: Seq<char>, i: nat, k: nat)
    requires
        i <= k < s.len(),
        s[k as int] == '-',
        forall|j: int| i <= j < k ==> #[trigger] s[j] != '-',
    ensures
        find_char(s, '-', i) == k,
    decreases k - i,
{
    if i < k {
        lemma_find_dash(s, i + 1, k);
    }
}

/// For a memory-map line whose address range starts with `start` in lowercase
/// hexadecimal, the base read from it is `start`.
pub proof fn maps_line_base_is_range_start(start: usize, rest: Seq<char>)
    ensures
        maps_line_base(hex_text(start as nat) + seq!['-'] + rest) == Some(start),
{
    let h = hex_text(start as nat);
    lemma_hex_text_digits(start as nat);
    let s = h + seq!['-'] + rest;
    assert(s[0] == h[0]);
    assert(skip_white(s, 0) == 0);
    assert forall|j: int| 0 <= j <= h.len() implies !is_white(#[trigger] s[j]) by {
        if j < h.len() {
            assert(s[j] == h[j]);
        } else {
            assert(s[j] == '-');
        }
    }
    lemma_find_white_past(s, 0, h.len());
    let e = find_white(s, (h.len() + 1) as nat);
    assert(h.len() + 1 <= e <= s.len()) by {
        lemma_find_white_bounds(s, (h.len() + 1) as nat);
    }
    let field = s.subrange(0, e as int);
    assert(field[h.len() as int] == '-');
    assert forall|j: int| 0 <= j < h.len() implies #[trigger] field[j] != '-' by {
        assert(field[j] == h[j]);
    }
    lemma_find_dash(field, 0, h.len());
    assert(before_dash(field) =~= h);
    hex_text_parses_back(start);
}

proof fn lemma_find_white_bounds(s: Seq<char>, i: nat)
    requires
        i <= s.len(),
    ensures
        i <= find_white(s, i) <= s.len(),
    decreases s.len() - i,
{
    if i < s.len() && !is_white(s[i as int]) {
        lemma_find_white_bounds(s, i + 1);
    }
}

/// The characters of `s`, one by one.
pub fn chars_of(s: &str) -> (v: Vec<char>)
    ensures
        v@ == s@,
{
    let n = s.unicode_len();
    let mut v: Vec<char> = Vec::new();
    let mut i: usize = 0;
    while i < n
        invariant
            n == s@.len(),
            i <= n,
            v@ == s@.take(i as int),
        decreases n - i,
    {
        v.push(s.get_char(i));
        assert(s@.take(i + 1) =~= s@.take(i as int).push(s@[i as int]));
        i = i + 1;
    }
    assert(s@.take(n as int) =~= s@);
    v
}

/// The start of the game's image from the first line of its memory map: zero
/// when the line holds no field; else the hexadecimal number before the first
/// `-` of the first field, or `None` where that is no such number.
pub fn base_address_from_maps_line(line: &str) -> (r: Option<usize>)
    ensures
        r == maps_line_base(line@),
{
    let chars = chars_of(line);
    let ghost s = chars@;
    let n = chars.len();
    let mut start: usize = 0;
    while start < n && is_whitespace(chars[start])
        invariant
            n == s.len(),
            s == chars@,
            start <= n,
            skip_white(s, 0) == skip_white(s, start as nat),
        decreases n - start,
    {
        start = start + 1;
    }
    if start >= n {
        return Some(0);
    }
    let mut end: usize = start;
    while end < n && !is_whitespace(chars[end])
        invariant
            n == s.len(),
            s == chars@,
            start <= end <= n,
            find_white(s, start as nat) == find_white(s, end as nat),
        decreases n - end,
    {
        end = end + 1;
    }
    let ghost field = s.subrange(start as int, end as int);
    let mut dash: usize = start;
    while dash < end && chars[dash] != '-'
        invariant
            n == s.len(),
            s == chars@,
            start <= dash <= end <= n,
            field == s.subrange(start as int, end as int),
            find_char(field, '-', 0) == find_char(field, '-', (dash - start) as nat),
        decreases end - dash,
    {
        assert(field[dash - start] == s[dash as int]);
        dash = dash + 1;
    }
    proof {
        if dash < end {
            assert(field[dash - start] == s[dash as int]);
        }
        assert(before_dash(field) =~= s.subrange(start as int, dash as int));
    }
    parse_hex(&chars, start, dash)
}

} // verus!
