//! No recoil and no spread: the recoil routine is cut short by a `ret` written
//! over its first instruction.
use vstd::prelude::*;
use crate::memory::{MemWrite, writes_view, apply_writes};
use crate::patch::{PatchView, toggled, restore_writes, holds_bytes, writes_within, restore_undoes_patch};

verus! {

/// Offset of the recoil routine from the start of the game's image.
pub const RECOIL_PATCH_OFF: usize = 0xbd220;

/// Number of bytes saved before the first patch (one `u32`).
pub const RECOIL_SAVED_LEN: usize = 4;

/// The `ret` opcode.
pub const RET: u8 = 0xc3;

/// State of the no-recoil patch; the memory accesses it asks for are made by the host.
pub struct NoRecoilSpread {
    patch_addr: usize,
    enabled: bool,
    saved_instr: Option<Vec<u8>>,
}

/// The one write that switches no-recoil on: a `ret` at the patch address.
pub open spec fn recoil_patch_writes(addr: int) -> Seq<(int, Seq<u8>)> {
    seq![(addr, seq![RET])]
}

impl View for NoRecoilSpread {
    type V = PatchView;

    closed spec fn view(&self) -> PatchView {
        PatchView {
            addr: self.patch_addr as int,
            enabled: self.enabled,
            saved: match self.saved_instr {
                Some(v) => Some(v@),
                None => None,
            },
        }
    }
}

impl NoRecoilSpread {
    #[verifier::type_invariant]
    spec fn well_formed(&self) -> bool {
        &&& self.enabled ==> self.saved_instr is Some
        &&& self.saved_instr matches Some(v) ==> v@.len() == RECOIL_SAVED_LEN
    }

    /// A disabled patch of the recoil routine of the game image at `game_base_addr`.
    pub fn new(game_base_addr: usize) -> (r: Self)
        requires
            game_base_addr + RECOIL_PATCH_OFF <= usize::MAX,
        ensures
            r@ == (PatchView { addr: game_base_addr + RECOIL_PATCH_OFF, enabled: false, saved: None }),
    {
        NoRecoilSpread { patch_addr: game_base_addr + RECOIL_PATCH_OFF, enabled: false, saved_instr: None }
    }

    /// Address of the patched instruction.
    pub fn patch_addr(&self) -> (a: usize)
        ensures
            a == self@.addr,
    {
        self.patch_addr
    }

    pub fn is_enabled(&self) -> (b: bool)
        ensures
            b == self@.enabled,
    {
        self.enabled
    }

    /// Whether switching on must first read the `RECOIL_SAVED_LEN` bytes at the
    /// patch address: the first time only.
    pub fn needs_original(&self) -> (b: bool)
        ensures
            b == (!self@.enabled && self@.saved is None),
    {
        !self.enabled && self.saved_instr.is_none()
    }

    /// Keeps the bytes read at the patch address before the first patch.
    pub fn record_original(&mut self, bytes: Vec<u8>)
        requires
            !old(self)@.enabled && old(self)@.saved is None,
            bytes@.len() == RECOIL_SAVED_LEN,
        ensures
            final(self)@ == (PatchView { saved: Some(bytes@), ..old(self)@ }),
    {
        self.saved_instr = Some(bytes);
    }

    /// Switches the patch on. Already on: nothing is written. Otherwise the
    /// result holds the write of `recoil_patch_writes`.
    pub fn enable(&mut self) -> (ws: Vec<MemWrite>)
        requires
            old(self)@.enabled || old(self)@.saved is Some,
        ensures
            old(self)@.enabled ==> ws@.len() == 0 && final(self)@ == old(self)@,
            !old(self)@.enabled ==> final(self)@ == (PatchView { enabled: true, ..old(self)@ })
                && writes_view(ws@) == recoil_patch_writes(old(self)@.addr),
    {
        proof { use_type_invariant(&*self); }
        let mut ws: Vec<MemWrite> = Vec::new();
        if self.enabled {
            return ws;
        }
        let ret = vec![RET];
        assert(ret@ =~= seq![RET]);
        ws.push(MemWrite { addr: self.patch_addr, bytes: ret });
        self.enabled = true;
        assert(writes_view(ws@)[0] == recoil_patch_writes(old(self)@.addr)[0]);
        assert(writes_view(ws@) =~= recoil_patch_writes(old(self)@.addr));
        ws
    }

    /// Switches the patch off. Already off: nothing is written. Otherwise the
    /// saved bytes are written back.
    pub fn disable(&mut self) -> (ws: Vec<MemWrite>)
        ensures
            !old(self)@.enabled ==> ws@.len() == 0 && final(self)@ == old(self)@,
            old(self)@.enabled ==> old(self)@.saved is Some && final(self)@ == (PatchView {
                enabled: false,
                ..old(self)@
            }) && writes_view(ws@) == restore_writes(old(self)@),
    {
        proof { use_type_invariant(&*self); }
        let mut ws: Vec<MemWrite> = Vec::new();
        if !self.enabled {
            return ws;
        }
        let saved = match &self.saved_instr {
            Some(v) => v.clone(),
            None => {
                return ws;
            },
        };
        ws.push(MemWrite { addr: self.patch_addr, bytes: saved });
        self.enabled = false;
        assert(writes_view(ws@) =~= restore_writes(old(self)@));
        ws
    }

    /// Switches the patch to the other state.
    pub fn toggle(&mut self) -> (ws: Vec<MemWrite>)
        requires
            !old(self)@.enabled ==> old(self)@.saved is Some,
        ensures
            final(self)@ == toggled(old(self)@),
            old(self)@.enabled ==> writes_view(ws@) == restore_writes(old(self)@),
            !old(self)@.enabled ==> writes_view(ws@) == recoil_patch_writes(old(self)@.addr),
    {
        if self.enabled {
            self.disable()
        } else {
            self.enable()
        }
    }
}

/// Switching no-recoil off after switching it on gives memory back the bytes it
/// held before, provided the saved bytes are what stood there.
pub proof fn no_recoil_disable_undoes_enable(mem: Map<int, u8>, addr: int, saved: Seq<u8>)
    requires
        saved.len() == RECOIL_SAVED_LEN,
        holds_bytes(mem, addr, saved),
    ensures
        apply_writes(
            apply_writes(mem, recoil_patch_writes(addr)),
            restore_writes(PatchView { addr, enabled: true, saved: Some(saved) }),
        ) == mem,
{
    let p = recoil_patch_writes(addr);
    assert(p[0] == (addr, seq![RET]));
    assert(writes_within(p, addr, saved.len() as int));
    restore_undoes_patch(mem, addr, saved, p);
}

} // verus!
