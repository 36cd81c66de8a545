//! What the code patches of the hooks have in common: the abstract state of a
//! patch site, and why switching a patch off gives the game its code back.
use vstd::prelude::*;
use crate::memory::{apply_writes, write_bytes};

verus! {

/// Abstract state of a patch site: where the patch goes, whether it is applied,
/// and the bytes that stood there before the first patch, once they are known.
pub ghost struct PatchView {
    pub addr: int,
    pub enabled: bool,
    pub saved: Option<Seq<u8>>,
}

/// The patch state after a toggle: the other switch position, all else kept.
pub open spec fn toggled(v: PatchView) -> PatchView {
    PatchView { enabled: !v.enabled, ..v }
}

/// Toggling a patch twice gives back the state it started from.
pub proof fn toggle_twice_is_identity(v: PatchView)
    ensures
        toggled(toggled(v)) == v,
{
}

/// The one write that puts the saved bytes back.
pub open spec fn restore_writes(v: PatchView) -> Seq<(int, Seq<u8>)> {
    seq![(v.addr, v.saved.unwrap())]
}

/// `mem` holds `bytes` from `addr` on.
pub open spec fn holds_bytes(mem: Map<int, u8>, addr: int, bytes: Seq<u8>) -> bool {
    forall|i: int|
        #![trigger bytes[i]]
        0 <= i < bytes.len() ==> mem.dom().contains(addr + i) && mem[addr + i] == bytes[i]
}

/// Every write of `ws` stays inside the `len` bytes from `addr` on.
pub open spec fn writes_within(ws: Seq<(int, Seq<u8>)>, addr: int, len: int) -> bool {
    forall|k: int|
        #![trigger ws[k]]
        0 <= k < ws.len() ==> addr <= ws[k].0 && ws[k].0 + ws[k].1.len() <= addr + len
}

proof fn lemma_write_outside_unchanged(mem: Map<int, u8>, ws: Seq<(int, Seq<u8>)>, addr: int, len: int, a: int)
    requires
        writes_within(ws, addr, len),
        !(addr <= a < addr + len),
    ensures
        apply_writes(mem, ws).dom().contains(a) == mem.dom().contains(a),
        mem.dom().contains(a) ==> apply_writes(mem, ws)[a] == mem[a],
    decreases ws.len(),
{
    if ws.len() > 0 {
        let rest = ws.drop_last();
        assert forall|k: int| 0 <= k < rest.len() implies addr <= #[trigger] rest[k].0 && rest[k].0
            + rest[k].1.len() <= addr + len by {
            assert(rest[k] == ws[k]);
        }
        lemma_write_outside_unchanged(mem, rest, addr, len, a);
        let last = ws.last();
        assert(ws[ws.len() - 1] == last);
        assert(addr <= last.0 && last.0 + last.1.len() <= addr + len);
        assert(apply_writes(mem, ws) == write_bytes(apply_writes(mem, rest), last.0, last.1));
    }
}

/// Where memory held `saved` before a patch whose writes all fall inside the
/// saved bytes, writing `saved` back afterwards leaves memory as it was.
pub proof fn restore_undoes_patch(mem: Map<int, u8>, addr: int, saved: Seq<u8>, patch: Seq<(int, Seq<u8>)>)
    requires
        holds_bytes(mem, addr, saved),
        writes_within(patch, addr, saved.len() as int),
    ensures
        apply_writes(apply_writes(mem, patch), seq![(addr, saved)]) == mem,
{
    let patched = apply_writes(mem, patch);
    let w = seq![(addr, saved)];
    assert(w.drop_last() =~= Seq::<(int, Seq<u8>)>::empty());
    assert(apply_writes(patched, w.drop_last()) == patched);
    let back = apply_writes(patched, w);
    assert(back == write_bytes(patched, addr, saved));
    assert forall|a: int| #[trigger] back.dom().contains(a) == mem.dom().contains(a) && (
    mem.dom().contains(a) ==> back[a] == mem[a]) by {
        if addr <= a < addr + saved.len() {
            assert(saved[a - addr] == mem[addr + (a - addr)]);
        } else {
            lemma_write_outside_unchanged(mem, patch, addr, saved.len() as int, a);
        }
    }
    assert(back =~= mem);
}

} // verus!
