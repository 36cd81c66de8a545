//! Where the game keeps its view matrix, and the order in which its sixteen
//! `f32` cells are read. The projection itself works on floats and is done by
//! the host.
use vstd::prelude::*;

verus! {

/// Offset of the point the player looks at from the start of the game's image.
pub const PLAYER_VIEW_OFF: usize = 0x13745c;

/// Offset of the view matrix from the start of the game's image, just before the view point.
pub const VIEW_MATRIX_OFF: usize = 0x13745c - 0x80;

/// Size of one matrix cell in bytes (an `f32`).
pub const CELL_SIZE: usize = 4;

/// The game's view matrix, known by the address of its first cell.
#[derive(Clone, Copy)]
pub struct ViewMatrix {
    pub base_addr: usize,
}

impl ViewMatrix {
    /// The view matrix of the game image loaded at `game_base_addr`.
    pub fn new(game_base_addr: usize) -> (m: ViewMatrix)
        requires
            game_base_addr + VIEW_MATRIX_OFF <= usize::MAX,
        ensures
            m.base_addr == game_base_addr + VIEW_MATRIX_OFF,
    {
        ViewMatrix { base_addr: game_base_addr + VIEW_MATRIX_OFF }
    }

    /// The view matrix at `view_matrix_offset` in the game image loaded at `game_base_addr`.
    pub fn default(game_base_addr: usize, view_matrix_offset: usize) -> (m: ViewMatrix)
        requires
            game_base_addr + view_matrix_offset <= usize::MAX,
        ensures
            m.base_addr == game_base_addr + view_matrix_offset,
    {
        ViewMatrix { base_addr: game_base_addr + view_matrix_offset }
    }

    /// The cells of the matrix in the order they are read, as (row, column,
    /// address): sixteen consecutive `f32`s filling the rows one after another.
    pub fn read_order(&self) -> (cells: Vec<(usize, usize, usize)>)
        requires
            self.base_addr + 15 * CELL_SIZE <= usize::MAX,
        ensures
            cells@.len() == 16,
            forall|i: int|
                #![trigger cells@[i]]
                0 <= i < 16 ==> cells@[i] == ((i / 4) as usize, (i % 4) as usize, (self.base_addr + i
                    * CELL_SIZE) as usize),
    {
        let mut cells: Vec<(usize, usize, usize)> = Vec::new();
        let mut row: usize = 0;
        let mut col: usize = 0;
        let mut i: usize = 0;
        while i < 16
            invariant
                i <= 16,
                self.base_addr + 15 * CELL_SIZE <= usize::MAX,
                cells@.len() == i,
                i < 16 ==> (col == 4 ==> i % 4 == 0 && row + 1 == i / 4) && (col < 4 ==> row == i / 4
                    && col == i % 4),
                col <= 4,
                forall|k: int|
                    #![trigger cells@[k]]
                    0 <= k < i ==> cells@[k] == ((k / 4) as usize, (k % 4) as usize, (self.base_addr
                        + k * CELL_SIZE) as usize),
            decreases 16 - i,
        {
            if col == 4 {
                col = 0;
                row = row + 1;
            }
            cells.push((row, col, self.base_addr + i * CELL_SIZE));
            col = col + 1;
            i = i + 1;
        }
        cells
    }
}

} // verus!
