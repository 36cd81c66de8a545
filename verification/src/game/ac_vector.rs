use vstd::prelude::*;

verus! {

/// The game's own vector of player pointers: where the pointers start, how many
/// fit and how many are in use.
#[derive(Clone, Copy)]
pub struct AcVector {
    pub player_addrs: usize,
    pub capacity: u32,
    pub elements: u32,
}

impl AcVector {
    /// Address of the `i`-th player pointer.
    pub fn slot_addr(&self, i: u32) -> (a: usize)
        requires
            i * vstd::layout::size_of::<usize>() <= u32::MAX,
            self.player_addrs + i * vstd::layout::size_of::<usize>() <= usize::MAX,
        ensures
            a == self.player_addrs + i * vstd::layout::size_of::<usize>(),
    {
        let stride = core::mem::size_of::<usize>();
        assert(stride <= 8) by {
            broadcast use vstd::layout::layout_of_primitives;
        }
        let offset: u32 = i * (stride as u32);
        self.player_addrs + (offset as usize)
    }
}

} // verus!
