//! God mode: the instruction of the damage routine that subtracts health is
//! detoured to a hook that spares the local player and makes every other hit
//! deal a thousand points of damage.
use vstd::prelude::*;
use crate::memory::{MemWrite, split_write, write_n_writes, writes_view, apply_writes, write_n_is_one_write};
use crate::patch::{PatchView, toggled, holds_bytes, writes_within, restore_undoes_patch};
use crate::text::{hex_text, push_hex};

verus! {

/// Number of bytes of the original instructions that the detour replaces.
pub const HOOK_SIZE: usize = 19;

/// Size of the executable page that receives the hook.
pub const HOOK_PAGE_SIZE: usize = 4096;

/// Assembler text of the hook, before the local player's address.
pub const HOOK_HEAD: &'static str = "BITS 64              ; NASM setting \n                pop rax                 ; clear shellcode address from stack after jump\n                ; replicate original instructions\n                sub eax,edx\n                ; replicate original instructions\n                mov [r14+0x104],eax\n                ; move local player base address into rax\n                mov rax,0x";

/// Assembler text of the hook, between the local player's address and the return address.
pub const HOOK_MID: &'static str = "\n                ; r14 contains the address of damage target (player struct instance)\n                cmp rax,r14\n                ; if target is local_player, jmp to ret without applying damage\n                je exit\n                ; if target is another player, enable 1-hit kills by applying 1000 damage\n                ; damage will be in r12d after r12d - esi \n                sub r12d,esi\n                mov r12d,1000\n                ; apply damage\n                sub [r14+0x100],r12d\n\n                exit:\n                ; push [patch_address + hook_size] to stack \n                mov rax,0x";

/// Assembler text of the hook, after the return address.
pub const HOOK_TAIL: &'static str = "\n                push rax\n                ; pop return address from stack and jump to there\n                ret\n                ";

/// Assembler text of the detour, before the address of the hook page.
pub const DETOUR_HEAD: &'static str = "\n                ; NASM setting\n                BITS 64;              \n                ; save rax before jumping \n                push rax                  \n                ; move patch shellcode page address into rax\n                mov rax, 0x";

/// Assembler text of the detour, after the address of the hook page.
pub const DETOUR_TAIL: &'static str = "          \n                ; detour to shellcode page\n                jmp rax                  \n                ; clear stack after returning from shellcode\n                pop rax                  \n                NOP                      \n                NOP                      \n                NOP                      \n                NOP                      \n                NOP                      \n                ";

/// The hook's assembler text for the given local player and return address.
pub open spec fn hook_source_text(local_player_addr: nat, return_addr: nat) -> Seq<char> {
    HOOK_HEAD@ + hex_text(local_player_addr) + HOOK_MID@ + hex_text(return_addr) + HOOK_TAIL@
}

/// The detour's assembler text for the given hook page.
pub open spec fn detour_source_text(page_addr: nat) -> Seq<char> {
    DETOUR_HEAD@ + hex_text(page_addr) + DETOUR_TAIL@
}

/// Abstract state of god mode: the patch site, the local player the hook spares,
/// and, once set up, the hook page and the assembled detour.
pub ghost struct GodModeView {
    pub patch: PatchView,
    pub local_player_addr: int,
    pub page_addr: Option<int>,
    pub detour: Option<Seq<u8>>,
}

/// State of god mode; the page allocation, the assembler runs and the memory
/// accesses it asks for are made by the host.
pub struct GodMode {
    addr_to_patch: usize,
    local_player_addr: usize,
    is_enabled: bool,
    one_hit_kills: bool,
    original_instructions: Option<Vec<u8>>,
    page_address: Option<usize>,
    assembled_patch: Option<Vec<u8>>,
}

impl View for GodMode {
    type V = GodModeView;

    closed spec fn view(&self) -> GodModeView {
        GodModeView {
            patch: PatchView {
                addr: self.addr_to_patch as int,
                enabled: self.is_enabled,
                saved: match self.original_instructions {
                    Some(v) => Some(v@),
                    None => None,
                },
            },
            local_player_addr: self.local_player_addr as int,
            page_addr: match self.page_address {
                Some(p) => Some(p as int),
                None => None,
            },
            detour: match self.assembled_patch {
                Some(v) => Some(v@),
                None => None,
            },
        }
    }
}

/// God mode after a toggle: the patch switched to its other position, all else kept.
pub open spec fn god_mode_toggled(v: GodModeView) -> GodModeView {
    GodModeView { patch: toggled(v.patch), ..v }
}

/// God mode is set up once its hook page, detour and saved bytes are all known.
pub open spec fn god_mode_set_up(v: GodModeView) -> bool {
    &&& v.patch.saved is Some
    &&& v.page_addr is Some
    &&& v.detour is Some
}

impl GodMode {
    #[verifier::type_invariant]
    spec fn well_formed(&self) -> bool {
        &&& self.is_enabled ==> self.original_instructions is Some
        &&& self.original_instructions is Some <==> self.assembled_patch is Some
        &&& self.original_instructions is Some <==> self.page_address is Some
        &&& self.original_instructions matches Some(v) ==> v@.len() == HOOK_SIZE
    }

    /// God mode switched off and not yet set up, for the damage routine at
    /// `game_base_addr + damage_patch_offset`.
    pub fn new(game_base_addr: usize, damage_patch_offset: usize, local_player_addr: usize) -> (r: Self)
        requires
            game_base_addr + damage_patch_offset <= usize::MAX,
        ensures
            r@ == (GodModeView {
                patch: PatchView { addr: game_base_addr + damage_patch_offset, enabled: false, saved: None },
                local_player_addr: local_player_addr as int,
                page_addr: None,
                detour: None,
            }),
    {
        GodMode {
            addr_to_patch: game_base_addr + damage_patch_offset,
            local_player_addr,
            is_enabled: false,
            one_hit_kills: false,
            original_instructions: None,
            page_address: None,
            assembled_patch: None,
        }
    }

    /// Address of the first patched instruction.
    pub fn addr_to_patch(&self) -> (a: usize)
        ensures
            a == self@.patch.addr,
    {
        self.addr_to_patch
    }

    pub fn is_enabled(&self) -> (b: bool)
        ensures
            b == self@.patch.enabled,
    {
        self.is_enabled
    }

    /// Whether switching on must first set the hook up: the first time only.
    pub fn needs_setup(&self) -> (b: bool)
        ensures
            b == (!self@.patch.enabled && self@.patch.saved is None),
            !b ==> god_mode_set_up(self@),
    {
        proof { use_type_invariant(self); }
        !self.is_enabled && self.original_instructions.is_none()
    }

    /// Length of the assembled detour, once god mode is set up.
    pub fn detour_len(&self) -> (n: usize)
        requires
            god_mode_set_up(self@),
        ensures
            n == self@.detour.unwrap().len(),
    {
        match &self.assembled_patch {
            Some(code) => code.len(),
            None => 0,
        }
    }

    /// Where the hook jumps back to: just past the replaced instructions.
    pub fn return_address(&self) -> (a: usize)
        requires
            self@.patch.addr + HOOK_SIZE <= usize::MAX,
        ensures
            a == self@.patch.addr + HOOK_SIZE,
    {
        self.addr_to_patch + HOOK_SIZE
    }

    /// The assembler text of the hook that the detour jumps to.
    pub fn hook_source(&self) -> (text: String)
        requires
            self@.patch.addr + HOOK_SIZE <= usize::MAX,
        ensures
            text@ == hook_source_text(self@.local_player_addr as nat, (self@.patch.addr + HOOK_SIZE) as nat),
    {
        let return_addr = self.return_address();
        let mut text = String::new();
        text.append(HOOK_HEAD);
        push_hex(&mut text, self.local_player_addr);
        text.append(HOOK_MID);
        push_hex(&mut text, return_addr);
        text.append(HOOK_TAIL);
        text
    }

    /// The assembler text of the detour that jumps to the hook page at `page_addr`.
    pub fn detour_source(page_addr: usize) -> (text: String)
        ensures
            text@ == detour_source_text(page_addr as nat),
    {
        let mut text = String::new();
        text.append(DETOUR_HEAD);
        push_hex(&mut text, page_addr);
        text.append(DETOUR_TAIL);
        text
    }

    /// Records the result of the set-up: the hook page, the assembled detour
    /// and the `HOOK_SIZE` bytes that stood at the patch address.
    pub fn install(&mut self, page_addr: usize, assembled_patch: Vec<u8>, original: Vec<u8>)
        requires
            !old(self)@.patch.enabled && old(self)@.patch.saved is None,
            original@.len() == HOOK_SIZE,
        ensures
            final(self)@ == (GodModeView {
                patch: PatchView { saved: Some(original@), ..old(self)@.patch },
                page_addr: Some(page_addr as int),
                detour: Some(assembled_patch@),
                ..old(self)@
            }),
    {
        *self = GodMode {
            addr_to_patch: self.addr_to_patch,
            local_player_addr: self.local_player_addr,
            is_enabled: self.is_enabled,
            one_hit_kills: self.one_hit_kills,
            original_instructions: Some(original),
            page_address: Some(page_addr),
            assembled_patch: Some(assembled_patch),
        };
    }

    /// Switches god mode on. Already on: nothing is written. Otherwise the
    /// assembled detour is stored at the patch address, chunked as `write_n` does.
    pub fn enable(&mut self) -> (ws: Vec<MemWrite>)
        requires
            old(self)@.patch.enabled || god_mode_set_up(old(self)@),
            !old(self)@.patch.enabled ==> old(self)@.detour.unwrap().len() == 0
                || old(self)@.patch.addr + old(self)@.detour.unwrap().len() - 1 <= usize::MAX,
        ensures
            old(self)@.patch.enabled ==> ws@.len() == 0 && final(self)@ == old(self)@,
            !old(self)@.patch.enabled ==> final(self)@ == (GodModeView {
                patch: PatchView { enabled: true, ..old(self)@.patch },
                ..old(self)@
            }) && writes_view(ws@) == write_n_writes(old(self)@.patch.addr, old(self)@.detour.unwrap()),
    {
        proof { use_type_invariant(&*self); }
        if self.is_enabled {
            return Vec::new();
        }
        let ws = match &self.assembled_patch {
            Some(code) => split_write(self.addr_to_patch, code.as_slice()),
            None => Vec::new(),
        };
        self.is_enabled = true;
        ws
    }

    /// Switches god mode off. Already off: nothing is written. Otherwise the
    /// saved instructions are written back, chunked as `write_n` does.
    pub fn disable(&mut self) -> (ws: Vec<MemWrite>)
        requires
            old(self)@.patch.enabled ==> old(self)@.patch.addr + HOOK_SIZE - 1 <= usize::MAX,
        ensures
            !old(self)@.patch.enabled ==> ws@.len() == 0 && final(self)@ == old(self)@,
            old(self)@.patch.enabled ==> old(self)@.patch.saved is Some && final(self)@ == (GodModeView {
                patch: PatchView { enabled: false, ..old(self)@.patch },
                ..old(self)@
            }) && writes_view(ws@) == write_n_writes(old(self)@.patch.addr, old(self)@.patch.saved.unwrap()),
    {
        proof { use_type_invariant(&*self); }
        if !self.is_enabled {
            return Vec::new();
        }
        let ws = match &self.original_instructions {
            Some(code) => split_write(self.addr_to_patch, code.as_slice()),
            None => Vec::new(),
        };
        self.is_enabled = false;
        ws
    }

    /// Switches god mode to the other state and reports whether it is now on.
    pub fn toggle(&mut self) -> (r: (bool, Vec<MemWrite>))
        requires
            !old(self)@.patch.enabled ==> god_mode_set_up(old(self)@) && (old(self)@.detour.unwrap().len() == 0
                || old(self)@.patch.addr + old(self)@.detour.unwrap().len() - 1 <= usize::MAX),
            old(self)@.patch.enabled ==> old(self)@.patch.addr + HOOK_SIZE - 1 <= usize::MAX,
        ensures
            r.0 == final(self)@.patch.enabled,
            final(self)@ == god_mode_toggled(old(self)@),
            old(self)@.patch.enabled ==> writes_view(r.1@) == write_n_writes(old(self)@.patch.addr, old(self)@.patch.saved.unwrap()),
            !old(self)@.patch.enabled ==> writes_view(r.1@) == write_n_writes(old(self)@.patch.addr, old(self)@.detour.unwrap()),
    {
        let ws = if self.is_enabled {
            self.disable()
        } else {
            self.enable()
        };
        (self.is_enabled, ws)
    }
}

/// Switching god mode off after switching it on gives memory back the bytes it
/// held before, provided the saved bytes are what stood there and the assembled
/// detour is no longer than they are.
pub proof fn god_mode_disable_undoes_enable(mem: Map<int, u8>, addr: int, saved: Seq<u8>, detour: Seq<u8>)
    requires
        saved.len() == HOOK_SIZE,
        detour.len() <= HOOK_SIZE,
        holds_bytes(mem, addr, saved),
    ensures
        apply_writes(apply_writes(mem, write_n_writes(addr, detour)), write_n_writes(addr, saved)) == mem,
{
    write_n_is_one_write(mem, addr, detour);
    let patched = apply_writes(mem, write_n_writes(addr, detour));
    write_n_is_one_write(patched, addr, saved);
    let p = seq![(addr, detour)];
    assert(p.drop_last() =~= Seq::<(int, Seq<u8>)>::empty());
    assert(apply_writes(mem, p.drop_last()) == mem);
    assert(apply_writes(mem, p) == patched);
    let r = seq![(addr, saved)];
    assert(r.drop_last() =~= Seq::<(int, Seq<u8>)>::empty());
    assert(apply_writes(patched, r.drop_last()) == patched);
    assert(writes_within(p, addr, saved.len() as int)) by {
        assert(p[0] == (addr, detour));
    }
    restore_undoes_patch(mem, addr, saved, p);
}

} // verus!
