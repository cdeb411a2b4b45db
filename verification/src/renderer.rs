//! Pure helpers for drawing a game: the per-cell view (falling piece over
//! ghost projection over stack) and the line-clear announcement data.

use vstd::prelude::*;
use crate::common::{Cell, FallingPiece, GameData, GameDataModel, TSpin};
use crate::grid::IsEmpty;

verus! {

/// What a line-clear announcement shows: the count and the T-Spin tag.
#[derive(Debug, Copy, Clone, PartialEq, Eq, Structural)]
pub struct LineClearInfo {
    pub n: usize,
    pub tspin: TSpin,
}

impl Default for LineClearInfo {
    /// No lines, no T-Spin.
    fn default() -> (r: LineClearInfo)
        ensures
            r == (LineClearInfo { n: 0, tspin: TSpin::NoSpin }),
    {
        LineClearInfo { n: 0, tspin: TSpin::NoSpin }
    }
}

/// The ghost projection of a falling piece: the piece dropped as far as it
/// goes.
pub open spec fn spec_ghost_piece(d: GameDataModel) -> Option<FallingPiece> {
    match d.falling_piece {
        Some(fp) => Some(
            FallingPiece { y: (fp.y - fp.spec_droppable_rows(d.playfield)) as i32, ..fp },
        ),
        None => None,
    }
}

/// The ghost layer of the shown cell at `(x, y)`: the ghost projection's
/// block as a ghost cell when one covers it, else the stack's cell.
pub open spec fn spec_view_ghost_cell(
    d: GameDataModel,
    ghost_piece: Option<FallingPiece>,
    x: int,
    y: int,
) -> Cell {
    match ghost_piece {
        Some(gp) => {
            if gp.spec_mask().in_bounds(x - gp.x, y - gp.y) {
                match gp.spec_mask().cell_at(x - gp.x, y - gp.y) {
                    Cell::Block(p) => Cell::GhostBlock(p),
                    _ => d.playfield.grid.cell_at(x, y),
                }
            } else {
                d.playfield.grid.cell_at(x, y)
            }
        },
        None => d.playfield.grid.cell_at(x, y),
    }
}

/// The cell shown at `(x, y)`: a block of the falling piece if one covers
/// it, else the ghost projection's block as a ghost cell, else the stack.
pub open spec fn spec_view_cell(
    d: GameDataModel,
    ghost_piece: Option<FallingPiece>,
    x: int,
    y: int,
) -> Cell {
    match d.falling_piece {
        Some(fp) => {
            if fp.spec_mask().in_bounds(x - fp.x, y - fp.y) && !(fp.spec_mask().cell_at(
                x - fp.x,
                y - fp.y,
            )).spec_is_empty() {
                fp.spec_mask().cell_at(x - fp.x, y - fp.y)
            } else {
                spec_view_ghost_cell(d, ghost_piece, x, y)
            }
        },
        None => spec_view_ghost_cell(d, ghost_piece, x, y),
    }
}

/// Computes the displayed cells of a game: the falling piece drawn over
/// its ghost projection drawn over the stack.
pub struct ViewDataBuilder {
    ghost_piece: Option<FallingPiece>,
}

impl ViewDataBuilder {
    /// The ghost projection the builder was made with.
    pub closed spec fn spec_ghost(&self) -> Option<FallingPiece> {
        self.ghost_piece
    }

    /// Project the falling piece, if any, to where it would rest.
    pub fn new(data: &GameData) -> (r: ViewDataBuilder)
        requires
            data@.wf(),
        ensures
            r.spec_ghost() == spec_ghost_piece(data@),
            r.spec_ghost() matches Some(gp) ==> gp.coords_in_range(),
    {
        let ghost_piece = match data.falling_piece {
            Some(fp) => {
                let n = fp.droppable_rows(&data.playfield);
                Some(FallingPiece { y: fp.y - n as i32, ..fp })
            },
            None => None,
        };
        ViewDataBuilder { ghost_piece }
    }

    /// The cell to show at `(x, y)`.
    pub fn get_cell(&self, data: &GameData, x: usize, y: usize) -> (r: Cell)
        requires
            data@.wf(),
            data@.playfield.grid.in_bounds(x as int, y as int),
            self.spec_ghost() matches Some(gp) ==> gp.coords_in_range(),
        ensures
            r == spec_view_cell(data@, self.spec_ghost(), x as int, y as int),
    {
        if let Some(fp) = data.falling_piece {
            let lx = x as i32 - fp.x;
            let ly = y as i32 - fp.y;
            if lx >= 0 && ly >= 0 {
                let g = fp.grid();
                if g.is_valid_cell_index(lx as usize, ly as usize) {
                    let c = g.cell(lx as usize, ly as usize);
                    if !c.is_empty() {
                        return c;
                    }
                }
            }
        }
        if let Some(gp) = self.ghost_piece {
            let lx = x as i32 - gp.x;
            let ly = y as i32 - gp.y;
            if lx >= 0 && ly >= 0 {
                let g = gp.grid();
                if g.is_valid_cell_index(lx as usize, ly as usize) {
                    if let Cell::Block(p) = g.cell(lx as usize, ly as usize) {
                        return Cell::GhostBlock(p);
                    }
                }
            }
        }
        data.playfield.grid.cell(x, y)
    }
}

} // verus!
