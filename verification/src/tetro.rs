//! The seven tetromino identities, their rotation masks, the SRS kick
//! tables, and the World-rule spawn and rotation logic.

use vstd::prelude::*;
use crate::common::{Cell, FallingPiece, GameLogic, Playfield, PlayfieldModel, PieceGrid,
    Rotation, TSpin};
use crate::grid::{Grid, GridModel, IsEmpty, spec_bottom_padding, spec_has_nonempty_cell,
    spec_top_padding};

verus! {

/// One of the seven tetromino identities.
#[derive(Debug, Copy, Clone, PartialEq, Eq, Structural)]
pub enum Piece {
    I,
    T,
    O,
    S,
    Z,
    J,
    L,
}

impl Piece {
    /// How many piece identities there are.
    pub fn num() -> (r: usize)
        ensures
            r == 7,
    {
        7
    }

    /// All seven pieces, in a fixed order.
    pub fn slice() -> (r: [Piece; 7])
        ensures
            r@ =~= seq![
                Piece::I,
                Piece::T,
                Piece::O,
                Piece::S,
                Piece::Z,
                Piece::J,
                Piece::L,
            ],
    {
        [Piece::I, Piece::T, Piece::O, Piece::S, Piece::Z, Piece::J, Piece::L]
    }

    /// Side length of the piece's square mask: 5 for I, 3 for the rest.
    pub open spec fn spec_mask_size(self) -> int {
        if self is I {
            5
        } else {
            3
        }
    }

    /// The spawn-orientation mask: whether local cell `(x, y)` (bottom-up
    /// rows) holds a block.
    pub open spec fn spec_base_mask(self, x: int, y: int) -> bool {
        match self {
            Piece::I => y == 2 && 1 <= x <= 4,
            Piece::T => (y == 1 && 0 <= x <= 2) || (y == 2 && x == 1),
            Piece::O => (y == 1 || y == 2) && (x == 1 || x == 2),
            Piece::S => (y == 1 && (x == 0 || x == 1)) || (y == 2 && (x == 1 || x == 2)),
            Piece::Z => (y == 1 && (x == 1 || x == 2)) || (y == 2 && (x == 0 || x == 1)),
            Piece::J => (y == 1 && 0 <= x <= 2) || (y == 2 && x == 0),
            Piece::L => (y == 1 && 0 <= x <= 2) || (y == 2 && x == 2),
        }
    }

    /// The mask in the given rotation state: the base mask turned by
    /// quarter turns.
    pub open spec fn spec_mask(self, r: Rotation, x: int, y: int) -> bool {
        let s = self.spec_mask_size();
        match r {
            Rotation::Cw0 => self.spec_base_mask(x, y),
            Rotation::Cw90 => self.spec_base_mask(s - 1 - y, x),
            Rotation::Cw180 => self.spec_base_mask(s - 1 - x, s - 1 - y),
            Rotation::Cw270 => self.spec_base_mask(y, s - 1 - x),
        }
    }

    /// The cell at `(x, y)` of the piece's rotation grid.
    pub open spec fn spec_cell(self, r: Rotation, x: int, y: int) -> Cell {
        if self.spec_mask(r, x, y) {
            Cell::Block(self)
        } else {
            Cell::Empty
        }
    }
}

/// The abstract rotation grid of a piece: a square mask of its blocks.
pub open spec fn spec_piece_grid(p: Piece, r: Rotation) -> GridModel<Cell> {
    let s = p.spec_mask_size();
    GridModel {
        rows: s,
        cols: s,
        cells: Seq::new((s * s) as nat, |k: int| p.spec_cell(r, k % s, k / s)),
    }
}

pub proof fn lemma_piece_grid_wf(p: Piece, r: Rotation)
    ensures
        spec_piece_grid(p, r).wf(),
        spec_piece_grid(p, r).rows == p.spec_mask_size(),
        spec_piece_grid(p, r).cols == p.spec_mask_size(),
        forall|x: int, y: int|
            spec_piece_grid(p, r).in_bounds(x, y) ==> #[trigger] spec_piece_grid(p, r).cell_at(
                x,
                y,
            ) == p.spec_cell(r, x, y),
{
    let g = spec_piece_grid(p, r);
    let s = p.spec_mask_size();
    assert forall|x: int, y: int| g.in_bounds(x, y) implies #[trigger] g.cell_at(x, y)
        == p.spec_cell(r, x, y) by {
        assert(0 <= y * s + x < s * s) by (nonlinear_arith)
            requires
                0 <= x < s,
                0 <= y < s,
        ;
        assert((y * s + x) % s == x && (y * s + x) / s == y) by (nonlinear_arith)
            requires
                0 <= x < s,
                0 <= y,
                s > 0,
        ;
    }
}

/// The center cell of every mask holds a block, so a piece grid is never
/// empty.
pub proof fn lemma_piece_grid_nonempty(p: Piece, r: Rotation)
    ensures
        spec_has_nonempty_cell(spec_piece_grid(p, r)),
{
    lemma_piece_grid_wf(p, r);
    let g = spec_piece_grid(p, r);
    if p is I {
        assert(p.spec_mask(r, 2, 2));
        assert(!g.cell_at(2, 2).spec_is_empty());
    } else {
        assert(p.spec_mask(r, 1, 1));
        assert(!g.cell_at(1, 1).spec_is_empty());
    }
}

impl Piece {
    /// Build the piece's rotation grid: its blocks in the given rotation
    /// state, in a square mask (5 x 5 for I, 3 x 3 for the rest).
    pub fn grid(&self, rotation: Rotation) -> (g: PieceGrid)
        ensures
            g@ == spec_piece_grid(*self, rotation),
            g@.wf(),
    {
        proof {
            lemma_piece_grid_wf(*self, rotation);
        }
        let base = base_grid(*self);
        let g = match rotation {
            Rotation::Cw0 => base,
            Rotation::Cw90 => base.rotate1(),
            Rotation::Cw180 => base.rotate2(),
            Rotation::Cw270 => base.rotate3(),
        };
        proof {
            let s = self.spec_mask_size();
            assert forall|x: int, y: int| g@.in_bounds(x, y) implies #[trigger] g@.cell_at(x, y)
                == self.spec_cell(rotation, x, y) by {}
            assert(g@.cells =~= spec_piece_grid(*self, rotation).cells) by {
                assert forall|k: int| 0 <= k < g@.cells.len() implies g@.cells[k]
                    == spec_piece_grid(*self, rotation).cells[k] by {
                    let x = k % s;
                    let y = k / s;
                    assert(0 <= x < s && 0 <= y < s && y * s + x == k) by (nonlinear_arith)
                        requires
                            0 <= k < s * s,
                            x == k % s,
                            y == k / s,
                            s == 3 || s == 5,
                    ;
                    assert(g@.cell_at(x, y) == self.spec_cell(rotation, x, y));
                    assert(spec_piece_grid(*self, rotation).cell_at(x, y) == self.spec_cell(
                        rotation,
                        x,
                        y,
                    ));
                }
            }
            assert(g@ =~= spec_piece_grid(*self, rotation));
        }
        g
    }

    /// Count of fully-empty rows at the top of the piece's rotation grid.
    pub fn grid_top_padding(&self, rotation: Rotation) -> (r: usize)
        ensures
            r == spec_top_padding(spec_piece_grid(*self, rotation)),
    {
        self.grid(rotation).top_padding()
    }

    /// Count of fully-empty rows at the bottom of the piece's rotation
    /// grid.
    pub fn grid_bottom_padding(&self, rotation: Rotation) -> (r: usize)
        ensures
            r == spec_bottom_padding(spec_piece_grid(*self, rotation)),
    {
        self.grid(rotation).bottom_padding()
    }
}

/// Build a piece's spawn-orientation mask grid.
#[verifier::rlimit(100)]
fn base_grid(p: Piece) -> (g: PieceGrid)
    ensures
        g@.wf(),
        g@.rows == p.spec_mask_size(),
        g@.cols == p.spec_mask_size(),
        forall|x: int, y: int|
            g@.in_bounds(x, y) ==> #[trigger] g@.cell_at(x, y) == p.spec_cell(Rotation::Cw0, x, y),
{
    let e = Cell::Empty;
    let b = Cell::Block(p);
    let mut cells: Vec<Cell> = Vec::new();
    let size: usize = match p {
        Piece::I => 5,
        _ => 3,
    };
    match p {
        Piece::I => {
            cells.push(e);
            cells.push(e);
            cells.push(e);
            cells.push(e);
            cells.push(e);
            cells.push(e);
            cells.push(e);
            cells.push(e);
            cells.push(e);
            cells.push(e);
            cells.push(e);
            cells.push(b);
            cells.push(b);
            cells.push(b);
            cells.push(b);
            cells.push(e);
            cells.push(e);
            cells.push(e);
            cells.push(e);
            cells.push(e);
            cells.push(e);
            cells.push(e);
            cells.push(e);
            cells.push(e);
            cells.push(e);
            proof {
                assert(cells@.len() == 25 && cells@[0] == Cell::Empty && cells@[1] == Cell::Empty && cells@[2] == Cell::Empty && cells@[3] == Cell::Empty && cells@[4] == Cell::Empty && cells@[5] == Cell::Empty && cells@[6] == Cell::Empty && cells@[7] == Cell::Empty && cells@[8] == Cell::Empty && cells@[9] == Cell::Empty && cells@[10] == Cell::Empty && cells@[11] == Cell::Block(p) && cells@[12] == Cell::Block(p) && cells@[13] == Cell::Block(p) && cells@[14] == Cell::Block(p) && cells@[15] == Cell::Empty && cells@[16] == Cell::Empty && cells@[17] == Cell::Empty && cells@[18] == Cell::Empty && cells@[19] == Cell::Empty && cells@[20] == Cell::Empty && cells@[21] == Cell::Empty && cells@[22] == Cell::Empty && cells@[23] == Cell::Empty && cells@[24] == Cell::Empty);
            }
        },
        Piece::T => {
            cells.push(e);
            cells.push(e);
            cells.push(e);
            cells.push(b);
            cells.push(b);
            cells.push(b);
            cells.push(e);
            cells.push(b);
            cells.push(e);
            proof {
                assert(cells@.len() == 9 && cells@[0] == Cell::Empty && cells@[1] == Cell::Empty && cells@[2] == Cell::Empty && cells@[3] == Cell::Block(p) && cells@[4] == Cell::Block(p) && cells@[5] == Cell::Block(p) && cells@[6] == Cell::Empty && cells@[7] == Cell::Block(p) && cells@[8] == Cell::Empty);
            }
        },
        Piece::O => {
            cells.push(e);
            cells.push(e);
            cells.push(e);
            cells.push(e);
            cells.push(b);
            cells.push(b);
            cells.push(e);
            cells.push(b);
            cells.push(b);
            proof {
                assert(cells@.len() == 9 && cells@[0] == Cell::Empty && cells@[1] == Cell::Empty && cells@[2] == Cell::Empty && cells@[3] == Cell::Empty && cells@[4] == Cell::Block(p) && cells@[5] == Cell::Block(p) && cells@[6] == Cell::Empty && cells@[7] == Cell::Block(p) && cells@[8] == Cell::Block(p));
            }
        },
        Piece::S => {
            cells.push(e);
            cells.push(e);
            cells.push(e);
            cells.push(b);
            cells.push(b);
            cells.push(e);
            cells.push(e);
            cells.push(b);
            cells.push(b);
            proof {
                assert(cells@.len() == 9 && cells@[0] == Cell::Empty && cells@[1] == Cell::Empty && cells@[2] == Cell::Empty && cells@[3] == Cell::Block(p) && cells@[4] == Cell::Block(p) && cells@[5] == Cell::Empty && cells@[6] == Cell::Empty && cells@[7] == Cell::Block(p) && cells@[8] == Cell::Block(p));
            }
        },
        Piece::Z => {
            cells.push(e);
            cells.push(e);
            cells.push(e);
            cells.push(e);
            cells.push(b);
            cells.push(b);
            cells.push(b);
            cells.push(b);
            cells.push(e);
            proof {
                assert(cells@.len() == 9 && cells@[0] == Cell::Empty && cells@[1] == Cell::Empty && cells@[2] == Cell::Empty && cells@[3] == Cell::Empty && cells@[4] == Cell::Block(p) && cells@[5] == Cell::Block(p) && cells@[6] == Cell::Block(p) && cells@[7] == Cell::Block(p) && cells@[8] == Cell::Empty);
            }
        },
        Piece::J => {
            cells.push(e);
            cells.push(e);
            cells.push(e);
            cells.push(b);
            cells.push(b);
            cells.push(b);
            cells.push(b);
            cells.push(e);
            cells.push(e);
            proof {
                assert(cells@.len() == 9 && cells@[0] == Cell::Empty && cells@[1] == Cell::Empty && cells@[2] == Cell::Empty && cells@[3] == Cell::Block(p) && cells@[4] == Cell::Block(p) && cells@[5] == Cell::Block(p) && cells@[6] == Cell::Block(p) && cells@[7] == Cell::Empty && cells@[8] == Cell::Empty);
            }
        },
        Piece::L => {
            cells.push(e);
            cells.push(e);
            cells.push(e);
            cells.push(b);
            cells.push(b);
            cells.push(b);
            cells.push(e);
            cells.push(e);
            cells.push(b);
            proof {
                assert(cells@.len() == 9 && cells@[0] == Cell::Empty && cells@[1] == Cell::Empty && cells@[2] == Cell::Empty && cells@[3] == Cell::Block(p) && cells@[4] == Cell::Block(p) && cells@[5] == Cell::Block(p) && cells@[6] == Cell::Empty && cells@[7] == Cell::Empty && cells@[8] == Cell::Block(p));
            }
        },
    }
    let g = Grid::new(size, size, cells);
    proof {
        assert forall|x: int, y: int| g@.in_bounds(x, y) implies #[trigger] g@.cell_at(x, y)
            == p.spec_cell(Rotation::Cw0, x, y) by {
            let s = p.spec_mask_size();
            assert(0 <= y * s + x < s * s) by (nonlinear_arith)
                requires
                    0 <= x < s,
                    0 <= y < s,
            ;
            if s == 3 {
                assert(y == 0 || y == 1 || y == 2);
                assert(x == 0 || x == 1 || x == 2);
            } else {
                assert(y == 0 || y == 1 || y == 2 || y == 3 || y == 4);
                assert(x == 0 || x == 1 || x == 2 || x == 3 || x == 4);
            }
        }
    }
    g
}

impl Piece {
    /// The letter naming the piece.
    pub open spec fn spec_letter(self) -> char {
        match self {
            Piece::I => 'I',
            Piece::T => 'T',
            Piece::O => 'O',
            Piece::S => 'S',
            Piece::Z => 'Z',
            Piece::J => 'J',
            Piece::L => 'L',
        }
    }

    /// The letter naming the piece.
    pub fn letter(&self) -> (r: char)
        ensures
            r == self.spec_letter(),
    {
        match self {
            Piece::I => 'I',
            Piece::T => 'T',
            Piece::O => 'O',
            Piece::S => 'S',
            Piece::Z => 'Z',
            Piece::J => 'J',
            Piece::L => 'L',
        }
    }
}

/// A piece's four rotation grids, cached in rotation order.
pub struct PieceDefinition {
    grids: Vec<PieceGrid>,
}

impl PieceDefinition {
    /// The definition caches the four rotation grids of `p`.
    pub closed spec fn spec_for(&self, p: Piece) -> bool {
        &&& self.grids@.len() == 4
        &&& forall|r: Rotation|
            self.grids@[(#[trigger] r.index())]@ == spec_piece_grid(p, r)
    }

    /// Build the cached rotation grids of `piece`.
    pub fn new(piece: Piece) -> (d: PieceDefinition)
        ensures
            d.spec_for(piece),
    {
        let mut grids: Vec<PieceGrid> = Vec::new();
        grids.push(piece.grid(Rotation::Cw0));
        grids.push(piece.grid(Rotation::Cw90));
        grids.push(piece.grid(Rotation::Cw180));
        grids.push(piece.grid(Rotation::Cw270));
        let d = PieceDefinition { grids };
        proof {
            assert forall|r: Rotation| d.grids@[(#[trigger] r.index())]@ == spec_piece_grid(
                piece,
                r,
            ) by {
                match r {
                    Rotation::Cw0 => {},
                    Rotation::Cw90 => {},
                    Rotation::Cw180 => {},
                    Rotation::Cw270 => {},
                }
            }
        }
        d
    }

    /// The cached grid of the given rotation state.
    pub fn grid(&self, piece: Piece, rotation: Rotation) -> (g: &PieceGrid)
        requires
            self.spec_for(piece),
        ensures
            g@ == spec_piece_grid(piece, rotation),
    {
        let idx: usize = match rotation {
            Rotation::Cw0 => 0,
            Rotation::Cw90 => 1,
            Rotation::Cw180 => 2,
            Rotation::Cw270 => 3,
        };
        proof {
            assert(self.grids@[rotation.index()]@ == spec_piece_grid(piece, rotation));
        }
        &self.grids[idx]
    }
}

/// How many kick offsets the piece's table holds: one for O, five for
/// the others.
pub open spec fn spec_num_offsets(p: Piece) -> int {
    if p is O {
        1
    } else {
        5
    }
}

/// The SRS offset table entry for the piece in rotation state `r` at
/// position `k` of the kick sequence.
pub open spec fn spec_offset(p: Piece, r: Rotation, k: int) -> (int, int) {
    if p is I {
        if r is Cw0 {
            if k == 0 {
                (0, 0)
            } else if k == 1 {
                (-1, 0)
            } else if k == 2 {
                (2, 0)
            } else if k == 3 {
                (-1, 0)
            } else {
                (2, 0)
            }
        } else if r is Cw90 {
            if k == 0 {
                (-1, 0)
            } else if k == 1 {
                (0, 0)
            } else if k == 2 {
                (0, 0)
            } else if k == 3 {
                (0, 1)
            } else {
                (0, -2)
            }
        } else if r is Cw180 {
            if k == 0 {
                (-1, 1)
            } else if k == 1 {
                (1, 1)
            } else if k == 2 {
                (-2, 1)
            } else if k == 3 {
                (1, 0)
            } else {
                (-2, 0)
            }
        } else {
            if k == 0 {
                (0, 1)
            } else if k == 1 {
                (0, 1)
            } else if k == 2 {
                (0, 1)
            } else if k == 3 {
                (0, -1)
            } else {
                (0, 2)
            }
        }
    } else if p is O {
        if r is Cw0 {
            (0, 0)
        } else if r is Cw90 {
            (0, -1)
        } else if r is Cw180 {
            (-1, -1)
        } else {
            (-1, 0)
        }
    } else {
        if r is Cw90 {
            if k == 0 {
                (0, 0)
            } else if k == 1 {
                (1, 0)
            } else if k == 2 {
                (1, -1)
            } else if k == 3 {
                (0, 2)
            } else {
                (1, 2)
            }
        } else if r is Cw270 {
            if k == 0 {
                (0, 0)
            } else if k == 1 {
                (-1, 0)
            } else if k == 2 {
                (-1, -1)
            } else if k == 3 {
                (0, 2)
            } else {
                (-1, 2)
            }
        } else {
            (0, 0)
        }
    }
}

/// The SRS offset table entry, as executable values.
fn offset(p: Piece, r: Rotation, k: usize) -> (o: (i32, i32))
    requires
        k < spec_num_offsets(p),
    ensures
        (o.0 as int, o.1 as int) == spec_offset(p, r, k as int),
        -2 <= o.0 <= 2,
        -2 <= o.1 <= 2,
{
    match p {
        Piece::I => match r {
            Rotation::Cw0 => {
                if k == 0 {
                    (0, 0)
                } else if k == 1 {
                    (-1, 0)
                } else if k == 2 {
                    (2, 0)
                } else if k == 3 {
                    (-1, 0)
                } else {
                    (2, 0)
                }
            },
            Rotation::Cw90 => {
                if k == 0 {
                    (-1, 0)
                } else if k == 1 {
                    (0, 0)
                } else if k == 2 {
                    (0, 0)
                } else if k == 3 {
                    (0, 1)
                } else {
                    (0, -2)
                }
            },
            Rotation::Cw180 => {
                if k == 0 {
                    (-1, 1)
                } else if k == 1 {
                    (1, 1)
                } else if k == 2 {
                    (-2, 1)
                } else if k == 3 {
                    (1, 0)
                } else {
                    (-2, 0)
                }
            },
            Rotation::Cw270 => {
                if k == 0 {
                    (0, 1)
                } else if k == 1 {
                    (0, 1)
                } else if k == 2 {
                    (0, 1)
                } else if k == 3 {
                    (0, -1)
                } else {
                    (0, 2)
                }
            },
        },
        Piece::O => match r {
            Rotation::Cw0 => (0, 0),
            Rotation::Cw90 => (0, -1),
            Rotation::Cw180 => (-1, -1),
            Rotation::Cw270 => (-1, 0),
        },
        _ => match r {
            Rotation::Cw90 => {
                if k == 0 {
                    (0, 0)
                } else if k == 1 {
                    (1, 0)
                } else if k == 2 {
                    (1, -1)
                } else if k == 3 {
                    (0, 2)
                } else {
                    (1, 2)
                }
            },
            Rotation::Cw270 => {
                if k == 0 {
                    (0, 0)
                } else if k == 1 {
                    (-1, 0)
                } else if k == 2 {
                    (-1, -1)
                } else if k == 3 {
                    (0, 2)
                } else {
                    (-1, 2)
                }
            },
            _ => (0, 0),
        },
    }
}

/// The `k`-th kick candidate of a rotation attempt: the piece in the new
/// rotation state, displaced by the difference of the two table entries.
pub open spec fn spec_kick_candidate(fp: FallingPiece, cw: bool, k: int) -> FallingPiece {
    let to = if cw {
        fp.rotation.spec_cw()
    } else {
        fp.rotation.spec_ccw()
    };
    let o1 = spec_offset(fp.piece, fp.rotation, k);
    let o2 = spec_offset(fp.piece, to, k);
    FallingPiece {
        piece: fp.piece,
        x: (fp.x + o1.0 - o2.0) as i32,
        y: (fp.y + o1.1 - o2.1) as i32,
        rotation: to,
    }
}

/// The first kick candidate that fits on the playfield, searching from
/// `k`; the table length when none fits.
pub open spec fn spec_first_fit(fp: FallingPiece, pf: PlayfieldModel, cw: bool, k: int) -> int
    decreases spec_num_offsets(fp.piece) - k,
{
    if k < 0 || k >= spec_num_offsets(fp.piece) {
        spec_num_offsets(fp.piece)
    } else if spec_kick_candidate(fp, cw, k).spec_can_put(pf) {
        k
    } else {
        spec_first_fit(fp, pf, cw, k + 1)
    }
}

/// A playfield corner cell counts as filled when it lies outside the grid
/// or holds a non-empty cell.
pub open spec fn spec_corner_filled(pf: PlayfieldModel, x: int, y: int) -> bool {
    !pf.grid.in_bounds(x, y) || !pf.grid.cell_at(x, y).spec_is_empty()
}

/// How many of the four diagonal corners of the T's box are filled.
pub open spec fn spec_num_filled_corners(pf: PlayfieldModel, fp: FallingPiece) -> int {
    let cx = fp.x + 1;
    let cy = fp.y + 1;
    (if spec_corner_filled(pf, cx - 1, cy - 1) {
        1int
    } else {
        0int
    }) + (if spec_corner_filled(pf, cx + 1, cy - 1) {
        1int
    } else {
        0int
    }) + (if spec_corner_filled(pf, cx - 1, cy + 1) {
        1int
    } else {
        0int
    }) + (if spec_corner_filled(pf, cx + 1, cy + 1) {
        1int
    } else {
        0int
    })
}

/// The offset from the T's center to the cell directly behind its point.
pub open spec fn spec_behind_offset(r: Rotation) -> (int, int) {
    match r {
        Rotation::Cw0 => (0, -1),
        Rotation::Cw90 => (-1, 0),
        Rotation::Cw180 => (0, 1),
        Rotation::Cw270 => (1, 0),
    }
}

/// The T-Spin tag of an accepted rotation result: with fewer than three
/// filled corners it is no T-Spin; with three or more, a filled cell
/// behind the point makes it Mini (Normal when all four corners are
/// filled), an empty one makes it Normal.
pub open spec fn spec_tspin_of(pf: PlayfieldModel, fp: FallingPiece) -> TSpin {
    if fp.piece != Piece::T {
        TSpin::NoSpin
    } else {
        let n = spec_num_filled_corners(pf, fp);
        if n >= 3 {
            let d = spec_behind_offset(fp.rotation);
            if spec_corner_filled(pf, fp.x + 1 + d.0, fp.y + 1 + d.1) {
                if n == 4 {
                    TSpin::Normal
                } else {
                    TSpin::Mini
                }
            } else {
                TSpin::Normal
            }
        } else {
            TSpin::NoSpin
        }
    }
}

/// The outcome of a rotation attempt under the World rule: the first kick
/// candidate that fits, tagged with its T-Spin classification, or `None`
/// when none fits.
pub open spec fn spec_world_rotate(cw: bool, fp: FallingPiece, pf: PlayfieldModel) -> Option<
    (FallingPiece, TSpin),
> {
    let k = spec_first_fit(fp, pf, cw, 0);
    if k < spec_num_offsets(fp.piece) {
        let c = spec_kick_candidate(fp, cw, k);
        Some((c, spec_tspin_of(pf, c)))
    } else {
        None
    }
}

/// Where the World rule spawns a piece: horizontally centered, the mask's
/// top resting one row above the visible region, nudged one row up when
/// the first position collides.
pub open spec fn spec_world_spawn(piece: Piece, pf: PlayfieldModel) -> FallingPiece {
    let g = spec_piece_grid(piece, Rotation::Cw0);
    let x = (pf.grid.cols - g.cols) / 2;
    let y = pf.visible_rows - (g.rows - spec_top_padding(g)) + 1;
    let fp = FallingPiece {
        piece,
        x: x as i32,
        y: y as i32,
        rotation: Rotation::Cw0,
    };
    if !fp.spec_can_put(pf) {
        FallingPiece { y: (y + 1) as i32, ..fp }
    } else {
        fp
    }
}

/// Whether a playfield cell is outside the grid or non-empty.
fn corner_filled(playfield: &Playfield, x: i32, y: i32) -> (r: bool)
    requires
        playfield@.wf(),
        -0x4000_0000 <= x <= 0x4000_0000,
        -0x4000_0000 <= y <= 0x4000_0000,
    ensures
        r == spec_corner_filled(playfield@, x as int, y as int),
{
    if x < 0 || y < 0 {
        return true;
    }
    if !playfield.grid.is_valid_cell_index(x as usize, y as usize) {
        return true;
    }
    !playfield.grid.cell(x as usize, y as usize).is_empty()
}

/// The Super Rotation System logic with World-rule spawning.
#[derive(Debug, Clone, Copy, PartialEq, Eq, Structural, Default)]
pub struct WorldRuleLogic {}

impl GameLogic for WorldRuleLogic {
    open spec fn spec_spawn_piece(&self, piece: Piece, pf: PlayfieldModel) -> FallingPiece {
        spec_world_spawn(piece, pf)
    }

    open spec fn spec_rotate(&self, cw: bool, fp: FallingPiece, pf: PlayfieldModel) -> Option<
        (FallingPiece, TSpin),
    > {
        spec_world_rotate(cw, fp, pf)
    }

    fn spawn_piece(&self, piece: Piece, playfield: &Playfield) -> (fp: FallingPiece) {
        proof {
            lemma_piece_grid_wf(piece, Rotation::Cw0);
        }
        let g = piece.grid(Rotation::Cw0);
        let top_pad = g.top_padding();
        let rows = g.num_rows();
        let cols = g.num_cols();
        let mut fp = FallingPiece {
            piece,
            x: ((playfield.grid.num_cols() - cols) as i32) / 2,
            y: (playfield.visible_rows as i32) - (rows - top_pad) as i32 + 1,
            rotation: Rotation::Cw0,
        };
        if !fp.can_put_onto(playfield) {
            fp.y = fp.y + 1;
        }
        fp
    }

    fn rotate(&self, cw: bool, falling_piece: &FallingPiece, playfield: &Playfield) -> (r: Option<
        (FallingPiece, TSpin),
    >) {
        let num = if matches!(falling_piece.piece, Piece::O) {
            1
        } else {
            5
        };
        let to = if cw {
            falling_piece.rotation.cw()
        } else {
            falling_piece.rotation.ccw()
        };
        for k in 0..num
            invariant
                playfield@.wf(),
                falling_piece.coords_well_within(),
                num == spec_num_offsets(falling_piece.piece),
                to == if cw {
                    falling_piece.rotation.spec_cw()
                } else {
                    falling_piece.rotation.spec_ccw()
                },
                spec_first_fit(*falling_piece, playfield@, cw, 0) == spec_first_fit(
                    *falling_piece,
                    playfield@,
                    cw,
                    k as int,
                ),
        {
            let o1 = offset(falling_piece.piece, falling_piece.rotation, k);
            let o2 = offset(falling_piece.piece, to, k);
            let cand = FallingPiece {
                piece: falling_piece.piece,
                x: falling_piece.x + o1.0 - o2.0,
                y: falling_piece.y + o1.1 - o2.1,
                rotation: to,
            };
            proof {
                assert(cand == spec_kick_candidate(*falling_piece, cw, k as int));
            }
            if cand.can_put_onto(playfield) {
                proof {
                    crate::common::lemma_can_put_coords(cand, playfield@);
                }
                let tspin = if matches!(cand.piece, Piece::T) {
                    let cx = cand.x + 1;
                    let cy = cand.y + 1;
                    let mut n: u8 = 0;
                    if corner_filled(playfield, cx - 1, cy - 1) {
                        n += 1;
                    }
                    if corner_filled(playfield, cx + 1, cy - 1) {
                        n += 1;
                    }
                    if corner_filled(playfield, cx - 1, cy + 1) {
                        n += 1;
                    }
                    if corner_filled(playfield, cx + 1, cy + 1) {
                        n += 1;
                    }
                    if n >= 3 {
                        let d: (i32, i32) = match cand.rotation {
                            Rotation::Cw0 => (0, -1),
                            Rotation::Cw90 => (-1, 0),
                            Rotation::Cw180 => (0, 1),
                            Rotation::Cw270 => (1, 0),
                        };
                        if corner_filled(playfield, cx + d.0, cy + d.1) {
                            if n == 4 {
                                TSpin::Normal
                            } else {
                                TSpin::Mini
                            }
                        } else {
                            TSpin::Normal
                        }
                    } else {
                        TSpin::NoSpin
                    }
                } else {
                    TSpin::NoSpin
                };
                proof {
                    assert(tspin == spec_tspin_of(playfield@, cand));
                }
                return Some((cand, tspin));
            }
        }
        None
    }
}

/// Law: rotation reversibility in open space.  When the direct (unkicked)
/// clockwise candidate of a piece fits — as it always does for an isolated
/// piece in open field — rotating clockwise accepts exactly that
/// candidate, and rotating the result counter-clockwise returns the piece
/// to its original position and rotation state.
pub proof fn lemma_rotate_reversible(fp: FallingPiece, pf: PlayfieldModel)
    requires
        pf.wf(),
        fp.coords_well_within(),
        fp.spec_can_put(pf),
        spec_kick_candidate(fp, true, 0).spec_can_put(pf),
    ensures
        ({
            let r1 = spec_world_rotate(true, fp, pf);
            &&& r1 is Some
            &&& (r1->Some_0).0 == spec_kick_candidate(fp, true, 0)
            &&& ({
                let r2 = spec_world_rotate(false, (r1->Some_0).0, pf);
                &&& r2 is Some
                &&& (r2->Some_0).0 == fp
            })
        }),
{
    let c1 = spec_kick_candidate(fp, true, 0);
    assert(spec_first_fit(fp, pf, true, 0) == 0);
    crate::common::lemma_rotation_quarter_turns(fp.rotation);
    let c2 = spec_kick_candidate(c1, false, 0);
    assert(c2 == fp);
    assert(spec_first_fit(c1, pf, false, 0) == 0);
}

} // verus!
