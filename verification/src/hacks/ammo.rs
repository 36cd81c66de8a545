//! Infinite ammo: the instruction that takes the fired round off the magazine
//! is overwritten with three `nop`s.
use vstd::prelude::*;
use crate::memory::{MemWrite, writes_view, apply_writes};
use crate::patch::{PatchView, toggled, restore_writes, holds_bytes, writes_within, restore_undoes_patch};

verus! {

/// Number of bytes saved before the first patch (one `u32`).
pub const AMMO_SAVED_LEN: usize = 4;

/// The `nop` opcode.
pub const NOP: u8 = 0x90;

/// State of the infinite-ammo patch; the memory accesses it asks for are made by the host.
pub struct InfiniteAmmo {
    addr_to_patch: usize,
    is_enabled: bool,
    original_instructions: Option<Vec<u8>>,
}

/// The writes that switch infinite ammo on: a two-byte `nop nop` at the patch
/// address and one more `nop` right after it.
pub open spec fn ammo_patch_writes(addr: int) -> Seq<(int, Seq<u8>)> {
    seq![(addr, seq![NOP, NOP]), (addr + 2, seq![NOP])]
}

impl View for InfiniteAmmo {
    type V = PatchView;

    closed spec fn view(&self) -> PatchView {
        PatchView {
            addr: self.addr_to_patch as int,
            enabled: self.is_enabled,
            saved: match self.original_instructions {
                Some(v) => Some(v@),
                None => None,
            },
        }
    }
}

impl InfiniteAmmo {
    #[verifier::type_invariant]
    spec fn well_formed(&self) -> bool {
        &&& self.is_enabled ==> self.original_instructions is Some
        &&& self.original_instructions matches Some(v) ==> v@.len() == AMMO_SAVED_LEN
    }

    /// A disabled patch at `game_base_addr + patch_offset` with nothing saved yet.
    pub fn default(game_base_addr: usize, patch_offset: usize) -> (r: Self)
        requires
            game_base_addr + patch_offset <= usize::MAX,
        ensures
            r@ == (PatchView { addr: game_base_addr + patch_offset, enabled: false, saved: None }),
    {
        InfiniteAmmo {
            addr_to_patch: game_base_addr + patch_offset,
            is_enabled: false,
            original_instructions: None,
        }
    }

    /// Address of the patched instruction.
    pub fn addr_to_patch(&self) -> (a: usize)
        ensures
            a == self@.addr,
    {
        self.addr_to_patch
    }

    pub fn is_enabled(&self) -> (b: bool)
        ensures
            b == self@.enabled,
    {
        self.is_enabled
    }

    /// Whether switching on must first read the `AMMO_SAVED_LEN` bytes at the
    /// patch address: the first time only.
    pub fn needs_original(&self) -> (b: bool)
        ensures
            b == (!self@.enabled && self@.saved is None),
    {
        !self.is_enabled && self.original_instructions.is_none()
    }

    /// Keeps the bytes read at the patch address before the first patch.
    pub fn record_original(&mut self, bytes: Vec<u8>)
        requires
            !old(self)@.enabled && old(self)@.saved is None,
            bytes@.len() == AMMO_SAVED_LEN,
        ensures
            final(self)@ == (PatchView { saved: Some(bytes@), ..old(self)@ }),
    {
        self.original_instructions = Some(bytes);
    }

    /// Switches the patch on. Already on: nothing is written. Otherwise the
    /// result holds the writes of `ammo_patch_writes`.
    pub fn enable(&mut self) -> (ws: Vec<MemWrite>)
        requires
            old(self)@.enabled || old(self)@.saved is Some,
            !old(self)@.enabled ==> old(self)@.addr + 2 <= usize::MAX,
        ensures
            old(self)@.enabled ==> ws@.len() == 0 && final(self)@ == old(self)@,
            !old(self)@.enabled ==> final(self)@ == (PatchView { enabled: true, ..old(self)@ })
                && writes_view(ws@) == ammo_patch_writes(old(self)@.addr),
    {
        proof { use_type_invariant(&*self); }
        let mut ws: Vec<MemWrite> = Vec::new();
        if self.is_enabled {
            return ws;
        }
        let two_nops = vec![NOP, NOP];
        let one_nop = vec![NOP];
        assert(two_nops@ =~= seq![NOP, NOP]);
        assert(one_nop@ =~= seq![NOP]);
        ws.push(MemWrite { addr: self.addr_to_patch, bytes: two_nops });
        ws.push(MemWrite { addr: self.addr_to_patch + 2, bytes: one_nop });
        self.is_enabled = true;
        assert(writes_view(ws@)[0] == ammo_patch_writes(old(self)@.addr)[0]);
        assert(writes_view(ws@)[1] == ammo_patch_writes(old(self)@.addr)[1]);
        assert(writes_view(ws@) =~= ammo_patch_writes(old(self)@.addr));
        ws
    }

    /// Switches the patch off. Already off: nothing is written. Otherwise the
    /// saved bytes are written back.
    pub fn disable(&mut self) -> (ws: Vec<MemWrite>)
        ensures
            !old(self)@.enabled ==> ws@.len() == 0 && final(self)@ == old(self)@,
            old(self)@.enabled ==> old(self)@.saved is Some && final(self)@ == (PatchView {
                enabled: false,
                ..old(self)@
            }) && writes_view(ws@) == restore_writes(old(self)@),
    {
        proof { use_type_invariant(&*self); }
        let mut ws: Vec<MemWrite> = Vec::new();
        if !self.is_enabled {
            return ws;
        }
        let saved = match &self.original_instructions {
            Some(v) => v.clone(),
            None => {
                return ws;
            },
        };
        ws.push(MemWrite { addr: self.addr_to_patch, bytes: saved });
        self.is_enabled = false;
        assert(writes_view(ws@) =~= restore_writes(old(self)@));
        ws
    }

    /// Switches the patch to the other state and reports whether it is now on.
    pub fn toggle(&mut self) -> (r: (bool, Vec<MemWrite>))
        requires
            !old(self)@.enabled ==> old(self)@.saved is Some && old(self)@.addr + 2 <= usize::MAX,
        ensures
            r.0 == final(self)@.enabled,
            final(self)@ == toggled(old(self)@),
            old(self)@.enabled ==> writes_view(r.1@) == restore_writes(old(self)@),
            !old(self)@.enabled ==> writes_view(r.1@) == ammo_patch_writes(old(self)@.addr),
    {
        let ws = if self.is_enabled {
            self.disable()
        } else {
            self.enable()
        };
        (self.is_enabled, ws)
    }
}

/// Switching infinite ammo off after switching it on gives memory back the
/// bytes it held before, provided the saved bytes are what stood there.
pub proof fn infinite_ammo_disable_undoes_enable(mem: Map<int, u8>, addr: int, saved: Seq<u8>)
    requires
        saved.len() == AMMO_SAVED_LEN,
        holds_bytes(mem, addr, saved),
    ensures
        apply_writes(
            apply_writes(mem, ammo_patch_writes(addr)),
            restore_writes(PatchView { addr, enabled: true, saved: Some(saved) }),
        ) == mem,
{
    let p = ammo_patch_writes(addr);
    assert(p[0] == (addr, seq![NOP, NOP]));
    assert(p[1] == (addr + 2, seq![NOP]));
    assert(writes_within(p, addr, saved.len() as int));
    restore_undoes_patch(mem, addr, saved, p);
}

} // verus!
