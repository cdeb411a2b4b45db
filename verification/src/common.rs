//! Core data model of the engine: input bitmask, rotation states, cells,
//! tuning parameters, events, and the per-game runtime data.

use vstd::prelude::*;
use std::collections::VecDeque;
use crate::grid::{GridModel, IsEmpty, OverlayResult, cell_overflows, spec_bottom_padding,
    spec_can_overlay,
    spec_can_overlay_at_step, spec_overlaid_cell, spec_overlay_result, spec_top_padding};
use crate::input_counter::{InputCounter, InputManager};
use crate::tetro::{Piece, spec_piece_grid};

verus! {

/// Raw per-frame input: an 8-bit mask of the named key flags.
pub type Input = u8;

/// Hard drop: drop to the floor and lock at once.
pub const HARD_DROP: Input = 0x01;

/// Soft drop: extra gravity while held.
pub const SOFT_DROP: Input = 0x02;

/// Firm drop: drop to the floor without locking.
pub const FIRM_DROP: Input = 0x04;

/// Move one column to the left.
pub const MOVE_LEFT: Input = 0x08;

/// Move one column to the right.
pub const MOVE_RIGHT: Input = 0x10;

/// Rotate a quarter turn clockwise.
pub const ROTATE_CW: Input = 0x20;

/// Rotate a quarter turn counter-clockwise.
pub const ROTATE_CCW: Input = 0x40;

/// Swap the falling piece with the hold slot.
pub const HOLD: Input = 0x80;

/// Frame counts; the engine ticks at a nominal 60 frames per second.
pub type Frames = u64;

/// Descent rate, measured in sixtieths of a cell per frame: a value of
/// [`GRAVITY_UNIT`] is one cell per frame, a value of 1 is the World-rule
/// 1/60 cells per frame.
pub type Gravity = u64;

/// One cell per frame, in [`Gravity`] units.
pub const GRAVITY_UNIT: Gravity = 60;

/// Iterates over the named key flags set in an input mask, one at a time.
pub struct InputIterator {
    input: Input,
    next_idx: usize,
}

impl InputIterator {
    /// The iterator's position never passes the eight flags.
    pub closed spec fn wf(&self) -> bool {
        self.next_idx <= 8
    }

    /// The flags not yet returned, in the order they will come.
    pub closed spec fn spec_remaining(&self) -> Seq<Input> {
        Seq::new(8, |k: int| spec_input_flag(k)).skip(self.next_idx as int).filter(
            |f: Input| self.input & f == f,
        )
    }

    /// Start iterating over the flags set in `input`.
    pub fn new(input: Input) -> (it: InputIterator)
        ensures
            it.wf(),
            it.spec_remaining() == Seq::new(8, |k: int| spec_input_flag(k)).filter(
                |f: Input| input & f == f,
            ),
    {
        let it = InputIterator { input, next_idx: 0 };
        proof {
            assert(Seq::new(8, |k: int| spec_input_flag(k)).skip(0) =~= Seq::new(
                8,
                |k: int| spec_input_flag(k),
            ));
        }
        it
    }

    /// The next flag set in the mask, or `None` when all were returned.
    pub fn next(&mut self) -> (r: Option<Input>)
        requires
            old(self).wf(),
        ensures
            final(self).wf(),
            old(self).spec_remaining().len() > 0 ==> r == Some(old(self).spec_remaining()[0])
                && final(self).spec_remaining() == old(self).spec_remaining().skip(1),
            old(self).spec_remaining().len() == 0 ==> r is None && final(self).spec_remaining()
                == old(self).spec_remaining(),
    {
        while self.next_idx < 8
            invariant
                self.input == old(self).input,
                self.next_idx <= 8,
                self.spec_remaining() == old(self).spec_remaining(),
            decreases 8 - self.next_idx,
        {
            let idx = self.next_idx;
            let flag = input_flag(idx);
            let ghost pre = *self;
            self.next_idx += 1;
            proof {
                lemma_remaining_step(pre);
            }
            if self.input & flag == flag {
                return Some(flag);
            }
        }
        None
    }
}

/// The `k`-th named key flag, in the fixed iteration order.
pub open spec fn spec_input_flag(k: int) -> Input {
    if k == 0 {
        HARD_DROP
    } else if k == 1 {
        SOFT_DROP
    } else if k == 2 {
        FIRM_DROP
    } else if k == 3 {
        MOVE_LEFT
    } else if k == 4 {
        MOVE_RIGHT
    } else if k == 5 {
        ROTATE_CW
    } else if k == 6 {
        ROTATE_CCW
    } else {
        HOLD
    }
}

fn input_flag(k: usize) -> (r: Input)
    requires
        k < 8,
    ensures
        r == spec_input_flag(k as int),
{
    if k == 0 {
        HARD_DROP
    } else if k == 1 {
        SOFT_DROP
    } else if k == 2 {
        FIRM_DROP
    } else if k == 3 {
        MOVE_LEFT
    } else if k == 4 {
        MOVE_RIGHT
    } else if k == 5 {
        ROTATE_CW
    } else if k == 6 {
        ROTATE_CCW
    } else {
        HOLD
    }
}

proof fn lemma_remaining_step(it: InputIterator)
    requires
        it.next_idx < 8,
    ensures
        ({
            let all = Seq::new(8, |k: int| spec_input_flag(k));
            let f = spec_input_flag(it.next_idx as int);
            all.skip(it.next_idx as int).filter(|g: Input| it.input & g == g) == if it.input & f
                == f {
                seq![f] + all.skip(it.next_idx + 1).filter(|g: Input| it.input & g == g)
            } else {
                all.skip(it.next_idx + 1).filter(|g: Input| it.input & g == g)
            }
        }),
{
    let all = Seq::new(8, |k: int| spec_input_flag(k));
    let i = it.next_idx as int;
    let pred = |g: Input| it.input & g == g;
    assert(all.skip(i) =~= seq![spec_input_flag(i)] + all.skip(i + 1));
    lemma_filter_head(all.skip(i), pred);
    assert((seq![spec_input_flag(i)] + all.skip(i + 1)).drop_first() =~= all.skip(i + 1));
}

proof fn lemma_filter_head<A>(s: Seq<A>, pred: spec_fn(A) -> bool)
    requires
        s.len() > 0,
    ensures
        s.filter(pred) == if pred(s[0]) {
            seq![s[0]] + s.drop_first().filter(pred)
        } else {
            s.drop_first().filter(pred)
        },
    decreases s.len(),
{
    reveal_with_fuel(Seq::filter, 2);
    if s.len() == 1 {
        assert(s.drop_last() =~= Seq::<A>::empty());
        assert(s.drop_first() =~= Seq::<A>::empty());
        if pred(s[0]) {
            assert(s.filter(pred) =~= seq![s[0]] + s.drop_first().filter(pred));
        }
    } else {
        lemma_filter_head(s.drop_last(), pred);
        assert(s.drop_last()[0] == s[0]);
        assert(s.drop_last().drop_first() =~= s.drop_first().drop_last());
        lemma_filter_push(s.drop_first(), pred);
        if pred(s[0]) {
            assert(s.filter(pred) =~= seq![s[0]] + s.drop_first().filter(pred));
        } else {
            assert(s.filter(pred) =~= s.drop_first().filter(pred));
        }
    }
}

proof fn lemma_filter_push<A>(s: Seq<A>, pred: spec_fn(A) -> bool)
    requires
        s.len() > 0,
    ensures
        s.filter(pred) == if pred(s.last()) {
            s.drop_last().filter(pred).push(s.last())
        } else {
            s.drop_last().filter(pred)
        },
{
    reveal_with_fuel(Seq::filter, 2);
}

/// One of the four rotation states of a piece, named by the clockwise
/// angle from spawn orientation.
#[derive(Debug, Copy, Clone, PartialEq, Eq, Structural)]
pub enum Rotation {
    Cw0,
    Cw90,
    Cw180,
    Cw270,
}

impl Rotation {
    /// Index of the rotation state: 0 for `Cw0` up to 3 for `Cw270`.
    pub open spec fn index(self) -> int {
        match self {
            Rotation::Cw0 => 0,
            Rotation::Cw90 => 1,
            Rotation::Cw180 => 2,
            Rotation::Cw270 => 3,
        }
    }

    /// The rotation state with the given index, modulo 4.
    pub open spec fn spec_from_index(k: int) -> Rotation {
        if k % 4 == 0 {
            Rotation::Cw0
        } else if k % 4 == 1 {
            Rotation::Cw90
        } else if k % 4 == 2 {
            Rotation::Cw180
        } else {
            Rotation::Cw270
        }
    }

    /// The state `n` quarter turns clockwise from `self`.
    pub open spec fn spec_rotate_cw(self, n: int) -> Rotation {
        Rotation::spec_from_index(self.index() + n)
    }

    /// The state one quarter turn clockwise.
    pub open spec fn spec_cw(self) -> Rotation {
        self.spec_rotate_cw(1)
    }

    /// The state one quarter turn counter-clockwise.
    pub open spec fn spec_ccw(self) -> Rotation {
        self.spec_rotate_cw(-1)
    }

    /// Rotate by `n` quarter turns clockwise (negative `n` turns
    /// counter-clockwise).
    pub fn rotate_cw(&self, n: i8) -> (r: Rotation)
        requires
            n >= -4,
        ensures
            r == self.spec_rotate_cw(n as int),
    {
        let idx: i16 = match self {
            Rotation::Cw0 => 0,
            Rotation::Cw90 => 1,
            Rotation::Cw180 => 2,
            Rotation::Cw270 => 3,
        };
        let k: i16 = (idx + n as i16 + 4) % 4;
        proof {
            assert(k == (self.index() + n + 4) % 4);
            assert((self.index() + n + 4) % 4 == (self.index() + n) % 4) by (nonlinear_arith);
        }
        if k == 0 {
            Rotation::Cw0
        } else if k == 1 {
            Rotation::Cw90
        } else if k == 2 {
            Rotation::Cw180
        } else {
            Rotation::Cw270
        }
    }

    /// One quarter turn clockwise.
    pub fn cw(&self) -> (r: Rotation)
        ensures
            r == self.spec_cw(),
    {
        self.rotate_cw(1)
    }

    /// One quarter turn counter-clockwise.
    pub fn ccw(&self) -> (r: Rotation)
        ensures
            r == self.spec_ccw(),
    {
        self.rotate_cw(-1)
    }
}

/// A quarter turn always changes the rotation state, and turning back
/// undoes it.
pub proof fn lemma_rotation_quarter_turns(r: Rotation)
    ensures
        r.spec_cw() != r,
        r.spec_ccw() != r,
        r.spec_cw().spec_ccw() == r,
        r.spec_ccw().spec_cw() == r,
{
    match r {
        Rotation::Cw0 => {
            assert(Rotation::Cw0.spec_cw() == Rotation::Cw90);
            assert(Rotation::Cw0.spec_ccw() == Rotation::Cw270);
            assert(Rotation::Cw90.spec_ccw() == Rotation::Cw0);
            assert(Rotation::Cw270.spec_cw() == Rotation::Cw0);
        },
        Rotation::Cw90 => {
            assert(Rotation::Cw90.spec_cw() == Rotation::Cw180);
            assert(Rotation::Cw90.spec_ccw() == Rotation::Cw0);
            assert(Rotation::Cw180.spec_ccw() == Rotation::Cw90);
            assert(Rotation::Cw0.spec_cw() == Rotation::Cw90);
        },
        Rotation::Cw180 => {
            assert(Rotation::Cw180.spec_cw() == Rotation::Cw270);
            assert(Rotation::Cw180.spec_ccw() == Rotation::Cw90);
            assert(Rotation::Cw270.spec_ccw() == Rotation::Cw180);
            assert(Rotation::Cw90.spec_cw() == Rotation::Cw180);
        },
        Rotation::Cw270 => {
            assert(Rotation::Cw270.spec_cw() == Rotation::Cw0);
            assert(Rotation::Cw270.spec_ccw() == Rotation::Cw180);
            assert(Rotation::Cw0.spec_ccw() == Rotation::Cw270);
            assert(Rotation::Cw180.spec_cw() == Rotation::Cw270);
        },
    }
}

impl Default for Rotation {
    /// The spawn orientation.
    fn default() -> (r: Rotation)
        ensures
            r == Rotation::Cw0,
    {
        Rotation::Cw0
    }
}

/// One cell of a playfield or of a piece mask.  `Empty` and `Ghost` count
/// as empty for collision; `Block` and `Garbage` are solid.
#[derive(Debug, Copy, Clone, PartialEq, Eq, Structural)]
pub enum Cell {
    /// Nothing here.
    Empty,
    /// A block of a locked or falling piece.
    Block(Piece),
    /// The ghost projection of a piece; does not collide.
    GhostBlock(Piece),
    /// A garbage block.
    Garbage,
}

impl IsEmpty for Cell {
    open spec fn spec_is_empty(&self) -> bool {
        match self {
            Cell::Empty | Cell::GhostBlock(_) => true,
            _ => false,
        }
    }

    fn is_empty(&self) -> (r: bool) {
        match self {
            Cell::Empty | Cell::GhostBlock(_) => true,
            _ => false,
        }
    }

    fn empty_cell() -> (r: Cell) {
        Cell::Empty
    }
}

impl crate::grid::CellSymbol for Cell {
    open spec fn spec_symbol(&self) -> char {
        match self {
            Cell::Empty | Cell::GhostBlock(_) => ' ',
            Cell::Block(p) => p.spec_letter(),
            Cell::Garbage => 'x',
        }
    }

    fn symbol(&self) -> (r: char) {
        match self {
            Cell::Empty | Cell::GhostBlock(_) => ' ',
            Cell::Block(p) => p.letter(),
            Cell::Garbage => 'x',
        }
    }
}

impl Default for Cell {
    /// The empty cell.
    fn default() -> (r: Cell)
        ensures
            r == Cell::Empty,
    {
        Cell::Empty
    }
}

/// A grid of cells holding a piece's mask.
pub type PieceGrid = crate::grid::Grid<Cell>;

/// When the lock-delay counter is reset; only the entry/step behaviour is
/// realized by the engine.
#[derive(Debug, Copy, Clone, PartialEq, Eq, Structural)]
pub enum LockDelayReset {
    EntryReset,
    StepReset,
    MoveReset,
}

impl Default for LockDelayReset {
    /// Step reset.
    fn default() -> (r: LockDelayReset)
        ensures
            r == LockDelayReset::StepReset,
    {
        LockDelayReset::StepReset
    }
}

/// Why a game ended.
#[derive(Debug, Copy, Clone, PartialEq, Eq, Structural)]
pub enum GameOverReason {
    /// A spawned or swapped piece could not be placed.
    BlockOut,
    /// The piece locked entirely above the visible rows.
    LockOut,
    /// The piece locked partially above the visible rows.
    PartialLockOut,
    /// Garbage pushed the stack over the top.
    GarbageOut,
}

/// Which top-out predicates end the game, as a set of flags.
#[derive(Debug, Copy, Clone, PartialEq, Eq, Structural)]
pub struct TopOutCondition {
    pub lock_out: bool,
    pub partial_lock_out: bool,
    pub garbage_out: bool,
}

impl TopOutCondition {
    /// No flag set.
    pub open spec fn spec_is_empty(&self) -> bool {
        !self.lock_out && !self.partial_lock_out && !self.garbage_out
    }

    /// The condition with no flag set.
    pub fn empty() -> (r: TopOutCondition)
        ensures
            r == (TopOutCondition { lock_out: false, partial_lock_out: false, garbage_out: false }),
    {
        TopOutCondition { lock_out: false, partial_lock_out: false, garbage_out: false }
    }

    /// Whether no flag is set.
    pub fn is_empty(&self) -> (r: bool)
        ensures
            r == self.spec_is_empty(),
    {
        !self.lock_out && !self.partial_lock_out && !self.garbage_out
    }

    /// Whether every flag set in `other` is also set in `self`.
    pub fn contains(&self, other: TopOutCondition) -> (r: bool)
        ensures
            r == ((other.lock_out ==> self.lock_out) && (other.partial_lock_out
                ==> self.partial_lock_out) && (other.garbage_out ==> self.garbage_out)),
    {
        (!other.lock_out || self.lock_out) && (!other.partial_lock_out || self.partial_lock_out)
            && (!other.garbage_out || self.garbage_out)
    }

    /// The game-over reason a non-empty condition stands for, checking the
    /// partial lock out first, then the lock out, then garbage.
    pub open spec fn spec_game_over_reason(self) -> Option<GameOverReason> {
        if self.partial_lock_out {
            Some(GameOverReason::PartialLockOut)
        } else if self.lock_out {
            Some(GameOverReason::LockOut)
        } else if self.garbage_out {
            Some(GameOverReason::GarbageOut)
        } else {
            None
        }
    }

    /// The game-over reason this condition stands for, if any flag is set.
    pub fn game_over_reason(&self) -> (r: Option<GameOverReason>)
        ensures
            r == self.spec_game_over_reason(),
    {
        if self.partial_lock_out {
            Some(GameOverReason::PartialLockOut)
        } else if self.lock_out {
            Some(GameOverReason::LockOut)
        } else if self.garbage_out {
            Some(GameOverReason::GarbageOut)
        } else {
            None
        }
    }
}

impl Default for TopOutCondition {
    /// Lock out and garbage out end the game.
    fn default() -> (r: TopOutCondition)
        ensures
            r == (TopOutCondition { lock_out: true, partial_lock_out: false, garbage_out: true }),
    {
        TopOutCondition { lock_out: true, partial_lock_out: false, garbage_out: true }
    }
}

/// Classification of a T rotation by how occluded the T's corners are.
#[derive(Debug, Copy, Clone, PartialEq, Eq, Structural)]
pub enum TSpin {
    /// Not a T-Spin.
    NoSpin,
    /// A full T-Spin.
    Normal,
    /// A T-Spin Mini.
    Mini,
}

impl Default for TSpin {
    /// Not a T-Spin.
    fn default() -> (r: TSpin)
        ensures
            r == TSpin::NoSpin,
    {
        TSpin::NoSpin
    }
}

/// The abstract value of a [`Playfield`]: the grid model plus the count
/// of visible rows.
#[verifier::ext_equal]
pub ghost struct PlayfieldModel {
    pub visible_rows: int,
    pub grid: GridModel<Cell>,
}

impl PlayfieldModel {
    /// Well-formed: the grid is well-formed, the visible region fits in
    /// it, and the dimensions leave room for the engine's arithmetic.
    pub open spec fn wf(self) -> bool {
        &&& self.grid.wf()
        &&& 0 <= self.visible_rows <= self.grid.rows
        &&& self.grid.rows <= 0x1000_0000
        &&& self.grid.cols <= 0x1000_0000
    }
}

/// The stack: a grid of cells of which the bottom `visible_rows` rows are
/// shown; the rows above are the spawn buffer.
#[derive(Debug, Clone, PartialEq)]
pub struct Playfield {
    pub visible_rows: usize,
    pub grid: PieceGrid,
}

impl View for Playfield {
    type V = PlayfieldModel;

    open spec fn view(&self) -> PlayfieldModel {
        PlayfieldModel { visible_rows: self.visible_rows as int, grid: self.grid@ }
    }
}

/// A piece in flight: its identity, the bottom-left corner of its mask in
/// playfield coordinates, and its rotation state.
#[derive(Debug, Copy, Clone, PartialEq, Eq, Structural)]
pub struct FallingPiece {
    pub piece: Piece,
    pub x: i32,
    pub y: i32,
    pub rotation: Rotation,
}

impl FallingPiece {
    /// The piece's rotation mask.
    pub open spec fn spec_mask(self) -> GridModel<Cell> {
        spec_piece_grid(self.piece, self.rotation)
    }

    /// The coordinates stay within the range the engine's 32-bit
    /// arithmetic handles.
    pub open spec fn coords_in_range(self) -> bool {
        &&& -0x4000_0000 <= self.x <= 0x4000_0000
        &&& -0x4000_0000 <= self.y <= 0x4000_0000
    }

    /// The coordinates sit well within the machine range, so a kick
    /// displacement cannot leave it.
    pub open spec fn coords_well_within(self) -> bool {
        &&& -0x2000_0000 <= self.x <= 0x2000_0000
        &&& -0x2000_0000 <= self.y <= 0x2000_0000
    }

    /// The piece fits onto the playfield at its position: no block outside
    /// the grid, none on a non-empty cell.
    pub open spec fn spec_can_put(self, pf: PlayfieldModel) -> bool {
        spec_can_overlay(pf.grid, self.x as int, self.y as int, self.spec_mask())
    }

    /// Every block of the piece sits at or above the visible region.
    pub open spec fn spec_is_lock_out(self, pf: PlayfieldModel) -> bool {
        self.y + spec_bottom_padding(self.spec_mask()) >= pf.visible_rows
    }

    /// Some block of the piece sits at or above the visible region.
    pub open spec fn spec_is_partial_lock_out(self, pf: PlayfieldModel) -> bool {
        self.y + self.spec_mask().rows - spec_top_padding(self.spec_mask()) >= pf.visible_rows
    }

    /// `n` is the first downward step at which the piece no longer fits.
    pub open spec fn spec_blocked_at(self, pf: PlayfieldModel, n: int) -> bool {
        &&& n >= 0
        &&& !spec_can_overlay_at_step(
            pf.grid,
            self.x as int,
            self.y as int,
            self.spec_mask(),
            0,
            -1,
            n,
        )
        &&& forall|k: int|
            0 <= k < n ==> #[trigger] spec_can_overlay_at_step(
                pf.grid,
                self.x as int,
                self.y as int,
                self.spec_mask(),
                0,
                -1,
                k,
            )
    }

    /// The first downward step at which the piece no longer fits.
    pub open spec fn spec_first_blocked_step(self, pf: PlayfieldModel) -> int {
        choose|n: int| self.spec_blocked_at(pf, n)
    }

    /// How many rows the piece can descend before it rests: one less than
    /// the first blocked step, or zero when it cannot even stay put.
    pub open spec fn spec_droppable_rows(self, pf: PlayfieldModel) -> int {
        let n = self.spec_first_blocked_step(pf);
        if n == 0 {
            0
        } else {
            n - 1
        }
    }

    /// The first blocked step is unique, so any witness equals it.
    pub proof fn lemma_first_blocked_unique(self, pf: PlayfieldModel, n: int)
        requires
            self.spec_blocked_at(pf, n),
        ensures
            self.spec_first_blocked_step(pf) == n,
    {
        let m = self.spec_first_blocked_step(pf);
        assert(self.spec_blocked_at(pf, m));
        if m < n {
            assert(spec_can_overlay_at_step(
                pf.grid,
                self.x as int,
                self.y as int,
                self.spec_mask(),
                0,
                -1,
                m,
            ));
        }
        if n < m {
            assert(spec_can_overlay_at_step(
                pf.grid,
                self.x as int,
                self.y as int,
                self.spec_mask(),
                0,
                -1,
                n,
            ));
        }
    }

    /// The piece's rotation mask as a grid.
    pub fn grid(&self) -> (g: PieceGrid)
        ensures
            g@ == self.spec_mask(),
            g@.wf(),
    {
        self.piece.grid(self.rotation)
    }

    /// Count of fully-empty rows at the top of the piece's mask.
    pub fn grid_top_padding(&self) -> (r: usize)
        ensures
            r == spec_top_padding(self.spec_mask()),
    {
        self.piece.grid_top_padding(self.rotation)
    }

    /// Count of fully-empty rows at the bottom of the piece's mask.
    pub fn grid_bottom_padding(&self) -> (r: usize)
        ensures
            r == spec_bottom_padding(self.spec_mask()),
    {
        self.piece.grid_bottom_padding(self.rotation)
    }

    /// Whether every block of the piece would lock at or above the visible
    /// region.
    pub fn is_lock_out(&self, playfield: &Playfield) -> (r: bool)
        requires
            playfield@.wf(),
            self.coords_in_range(),
        ensures
            r == self.spec_is_lock_out(playfield@),
    {
        proof {
            crate::tetro::lemma_piece_grid_wf(self.piece, self.rotation);
        }
        let g = self.grid();
        let padding = g.bottom_padding();
        self.y + padding as i32 >= playfield.visible_rows as i32
    }

    /// Whether some block of the piece would lock at or above the visible
    /// region.
    pub fn is_partial_lock_out(&self, playfield: &Playfield) -> (r: bool)
        requires
            playfield@.wf(),
            self.coords_in_range(),
        ensures
            r == self.spec_is_partial_lock_out(playfield@),
    {
        proof {
            crate::tetro::lemma_piece_grid_wf(self.piece, self.rotation);
        }
        let g = self.grid();
        let padding = g.top_padding();
        let rows = g.num_rows();
        self.y + (rows - padding) as i32 >= playfield.visible_rows as i32
    }

    /// Whether the piece fits onto the playfield at its position.
    pub fn can_put_onto(&self, playfield: &Playfield) -> (r: bool)
        requires
            playfield@.wf(),
            self.coords_in_range(),
        ensures
            r == self.spec_can_put(playfield@),
    {
        proof {
            crate::tetro::lemma_piece_grid_wf(self.piece, self.rotation);
        }
        let g = self.grid();
        playfield.grid.check_overlay(self.x, self.y, &g).is_empty()
    }

    /// Write the piece's blocks into the playfield, skipping any that
    /// would overflow or overlap, and report those in the returned flags.
    pub fn put_onto(&self, playfield: &mut Playfield) -> (r: OverlayResult)
        requires
            old(playfield)@.wf(),
            self.coords_in_range(),
        ensures
            r == spec_overlay_result(
                old(playfield)@.grid,
                self.x as int,
                self.y as int,
                self.spec_mask(),
            ),
            final(playfield)@.wf(),
            final(playfield)@.visible_rows == old(playfield)@.visible_rows,
            final(playfield)@.grid.rows == old(playfield)@.grid.rows,
            final(playfield)@.grid.cols == old(playfield)@.grid.cols,
            forall|gx: int, gy: int|
                final(playfield)@.grid.in_bounds(gx, gy)
                    ==> #[trigger] final(playfield)@.grid.cell_at(gx, gy) == spec_overlaid_cell(
                    old(playfield)@.grid,
                    self.x as int,
                    self.y as int,
                    self.spec_mask(),
                    gx,
                    gy,
                ),
    {
        proof {
            crate::tetro::lemma_piece_grid_wf(self.piece, self.rotation);
        }
        let g = self.grid();
        playfield.grid.overlay(self.x, self.y, &g)
    }

    /// How many rows the piece can descend before it rests on the stack or
    /// the floor.
    pub fn droppable_rows(&self, playfield: &Playfield) -> (r: usize)
        requires
            playfield@.wf(),
            self.coords_in_range(),
        ensures
            r == self.spec_droppable_rows(playfield@),
            r != 0 ==> -5 <= self.y - r,
            r <= 0x4000_0005,
            self.spec_can_put(playfield@) ==> forall|k: int|
                0 <= k <= r ==> #[trigger] spec_can_overlay_at_step(
                    playfield@.grid,
                    self.x as int,
                    self.y as int,
                    self.spec_mask(),
                    0,
                    -1,
                    k,
                ),
    {
        proof {
            crate::tetro::lemma_piece_grid_wf(self.piece, self.rotation);
            crate::tetro::lemma_piece_grid_nonempty(self.piece, self.rotation);
        }
        let g = self.grid();
        let (n, flags) = playfield.grid.check_overlay_toward(self.x, self.y, &g, 0, -1);
        proof {
            assert((n as int) * 0 == 0 && (n as int) * (-1) == -(n as int)) by (nonlinear_arith);
            assert(self.spec_blocked_at(playfield@, n as int));
            self.lemma_first_blocked_unique(playfield@, n as int);
        }
        let r = if n == 0 {
            0
        } else {
            n - 1
        };
        proof {
            let m = self.spec_mask();
            let pf = playfield@;
            if r != 0 {
                assert(spec_can_overlay_at_step(pf.grid, self.x as int, self.y as int, m, 0, -1, r as int));
                assert((r as int) * 0 == 0 && (r as int) * (-1) == -(r as int))
                    by (nonlinear_arith);
                assert(spec_can_overlay(pf.grid, self.x as int, self.y - r, m));
                let (iw, jw) = choose|iw: int, jw: int|
                    0 <= iw < m.cols && 0 <= jw < m.rows && !(
                    #[trigger] m.cell_at(iw, jw)).spec_is_empty();
                assert(!cell_overflows(pf.grid, self.x as int, self.y - r, m, iw, jw));
                assert(pf.grid.in_bounds(self.x + iw, self.y - r + jw));
            }
            if self.spec_can_put(pf) {
                assert forall|k: int| 0 <= k <= r implies #[trigger] spec_can_overlay_at_step(
                    pf.grid,
                    self.x as int,
                    self.y as int,
                    m,
                    0,
                    -1,
                    k,
                ) by {
                    assert(k * 0 == 0 && k * (-1) == -k) by (nonlinear_arith);
                    if k == 0 {
                        assert(spec_can_overlay(pf.grid, self.x as int, self.y - 0, m));
                    } else {
                        assert(k < n);
                    }
                }
            }
        }
        r
    }
}

impl TopOutCondition {
    /// The flags of `self` whose top-out predicate fires for the piece:
    /// the whole condition if one fires, else the empty condition.
    pub open spec fn spec_check(self, fp: FallingPiece, pf: PlayfieldModel) -> TopOutCondition {
        if self.lock_out && fp.spec_is_lock_out(pf) {
            self
        } else if self.partial_lock_out && fp.spec_is_partial_lock_out(pf) {
            self
        } else {
            TopOutCondition { lock_out: false, partial_lock_out: false, garbage_out: false }
        }
    }

    /// Test the enabled top-out predicates against the piece about to
    /// lock.
    pub fn check(self, falling_piece: &FallingPiece, playfield: &Playfield) -> (r: TopOutCondition)
        requires
            playfield@.wf(),
            falling_piece.coords_in_range(),
        ensures
            r == self.spec_check(*falling_piece, playfield@),
    {
        if self.lock_out {
            if falling_piece.is_lock_out(playfield) {
                return self;
            }
        }
        if self.partial_lock_out {
            if falling_piece.is_partial_lock_out(playfield) {
                return self;
            }
        }
        TopOutCondition::empty()
    }
}

/// Fixed tuning of one game.
#[derive(Debug, Copy, Clone, PartialEq, Eq, Structural)]
pub struct GameParams {
    /// Descent per frame, in [`Gravity`] units.
    pub gravity: Gravity,
    /// Extra descent per frame while soft drop is held.
    pub soft_drop_gravity: Gravity,
    /// Frames a grounded piece may stay mobile before it locks.
    pub lock_delay: Frames,
    /// When the lock-delay counter resets.
    pub lock_delay_reset: LockDelayReset,
    /// Whether a fresh soft-drop tap locks a grounded piece at once.
    pub lock_delay_cancel: bool,
    /// First delay of the horizontal auto-shift, in frames.
    pub das: Frames,
    /// Repeat interval of the horizontal auto-shift, in frames.
    pub arr: Frames,
    /// Frames between a lock and the next spawn.
    pub are: Frames,
    /// Frames the line-clear intermission lasts.
    pub line_clear_delay: Frames,
    /// Which top-out predicates end the game.
    pub top_out_condition: TopOutCondition,
}

impl GameParams {
    /// The tuning values leave room for the engine's 64-bit counters.
    pub open spec fn wf(&self) -> bool {
        &&& self.gravity <= 0x1000_0000
        &&& self.soft_drop_gravity <= 0x1000_0000
        &&& self.lock_delay < u64::MAX
        &&& self.are < u64::MAX
        &&& self.line_clear_delay < u64::MAX
    }
}

impl Default for GameParams {
    /// World-rule Guideline values: 1/60 cells per frame of gravity, a
    /// full cell per frame of soft drop, and the standard delays.
    fn default() -> (r: GameParams)
        ensures
            r == (GameParams {
                gravity: 1,
                soft_drop_gravity: GRAVITY_UNIT,
                lock_delay: 60,
                lock_delay_reset: LockDelayReset::StepReset,
                lock_delay_cancel: true,
                das: 11,
                arr: 2,
                are: 40,
                line_clear_delay: 40,
                top_out_condition: TopOutCondition {
                    lock_out: true,
                    partial_lock_out: false,
                    garbage_out: true,
                },
            }),
            r.wf(),
    {
        GameParams {
            gravity: 1,
            soft_drop_gravity: GRAVITY_UNIT,
            lock_delay: 60,
            lock_delay_reset: LockDelayReset::default(),
            lock_delay_cancel: true,
            das: 11,
            arr: 2,
            are: 40,
            line_clear_delay: 40,
            top_out_condition: TopOutCondition::default(),
        }
    }
}

/// Identity of the engine's current state.
#[derive(Debug, Copy, Clone, PartialEq, Eq, Structural)]
pub enum GameStateId {
    Init,
    Play,
    Lock,
    LineClear,
    SpawnPiece,
    GameOver,
    Error,
}

/// One event of the per-frame event stream.
#[derive(Debug, Copy, Clone, PartialEq, Eq, Structural)]
pub enum GameEvent {
    /// A frame was processed with this input; always first in a frame.
    Update(Input),
    /// Lines were cleared (possibly zero, for a T-Spin Mini without
    /// lines), with the T-Spin tag that applied.
    LineCleared(usize, TSpin),
    /// The engine entered a new state.
    EnterState(GameStateId),
}

/// The debouncer profile used for human play: one-shot drops, rotations
/// and hold; auto-shifting horizontal movement with the given first delay
/// and repeat interval.
pub open spec fn spec_basic_input_manager(das: Frames, arr: Frames) -> InputManager {
    let m = InputManager::spec_empty();
    let m = InputManager::spec_register(m, HARD_DROP, InputCounter::spec_new(0, 0)).1;
    let m = InputManager::spec_register(m, SOFT_DROP, InputCounter::spec_new(0, 1)).1;
    let m = InputManager::spec_register(m, FIRM_DROP, InputCounter::spec_new(0, 0)).1;
    let m = InputManager::spec_register(m, MOVE_LEFT, InputCounter::spec_new(arr, das)).1;
    let m = InputManager::spec_register(m, MOVE_RIGHT, InputCounter::spec_new(arr, das)).1;
    let m = InputManager::spec_register(m, ROTATE_CW, InputCounter::spec_new(0, 0)).1;
    let m = InputManager::spec_register(m, ROTATE_CCW, InputCounter::spec_new(0, 0)).1;
    let m = InputManager::spec_register(m, HOLD, InputCounter::spec_new(0, 0)).1;
    m
}

/// The debouncer profile used for automation: every key triggers once per
/// frame.
pub open spec fn spec_automation_input_manager() -> InputManager {
    let m = InputManager::spec_empty();
    let m = InputManager::spec_register(m, HARD_DROP, InputCounter::spec_new(1, 0)).1;
    let m = InputManager::spec_register(m, SOFT_DROP, InputCounter::spec_new(1, 0)).1;
    let m = InputManager::spec_register(m, FIRM_DROP, InputCounter::spec_new(1, 0)).1;
    let m = InputManager::spec_register(m, MOVE_LEFT, InputCounter::spec_new(1, 0)).1;
    let m = InputManager::spec_register(m, MOVE_RIGHT, InputCounter::spec_new(1, 0)).1;
    let m = InputManager::spec_register(m, ROTATE_CW, InputCounter::spec_new(1, 0)).1;
    let m = InputManager::spec_register(m, ROTATE_CCW, InputCounter::spec_new(1, 0)).1;
    let m = InputManager::spec_register(m, HOLD, InputCounter::spec_new(1, 0)).1;
    m
}

/// Build the human-play debouncer: one-shot drops, rotations and hold;
/// horizontal movement auto-shifts after `das` frames, repeating every
/// `arr` frames.
pub fn create_basic_input_manager(das: Frames, arr: Frames) -> (m: InputManager)
    ensures
        m == spec_basic_input_manager(das, arr),
        m.wf(),
{
    let mut mgr = InputManager::default();
    mgr.register(HARD_DROP, InputCounter::new(0, 0));
    mgr.register(SOFT_DROP, InputCounter::new(0, 1));
    mgr.register(FIRM_DROP, InputCounter::new(0, 0));
    mgr.register(MOVE_LEFT, InputCounter::new(arr, das));
    mgr.register(MOVE_RIGHT, InputCounter::new(arr, das));
    mgr.register(ROTATE_CW, InputCounter::new(0, 0));
    mgr.register(ROTATE_CCW, InputCounter::new(0, 0));
    mgr.register(HOLD, InputCounter::new(0, 0));
    mgr
}

/// Build the automation debouncer: every key triggers once per frame.
pub fn create_input_manager_for_automation() -> (m: InputManager)
    ensures
        m == spec_automation_input_manager(),
        m.wf(),
{
    let mut mgr = InputManager::default();
    mgr.register(HARD_DROP, InputCounter::new(1, 0));
    mgr.register(SOFT_DROP, InputCounter::new(1, 0));
    mgr.register(FIRM_DROP, InputCounter::new(1, 0));
    mgr.register(MOVE_LEFT, InputCounter::new(1, 0));
    mgr.register(MOVE_RIGHT, InputCounter::new(1, 0));
    mgr.register(ROTATE_CW, InputCounter::new(1, 0));
    mgr.register(ROTATE_CCW, InputCounter::new(1, 0));
    mgr.register(HOLD, InputCounter::new(1, 0));
    mgr
}

/// The abstract value of a [`GameData`].
#[verifier::ext_equal]
pub ghost struct GameDataModel {
    pub playfield: PlayfieldModel,
    pub falling_piece: Option<FallingPiece>,
    pub hold_piece: Option<Piece>,
    pub next_pieces: Seq<Piece>,
    pub input_manager: InputManager,
    pub tspin: TSpin,
    pub events: Seq<GameEvent>,
}

impl GameDataModel {
    /// Well-formed: the playfield and the debouncer are well-formed, and a
    /// falling piece's coordinates stay in machine range.
    pub open spec fn wf(self) -> bool {
        &&& self.playfield.wf()
        &&& self.input_manager.wf()
        &&& (self.falling_piece matches Some(fp) ==> fp.coords_in_range())
    }
}

/// Mutable runtime of one game: the stack, the piece in flight, the hold
/// slot, the queue of upcoming pieces, the debouncer, the pending T-Spin
/// tag, and the per-frame event buffer.
#[derive(Debug, Clone, PartialEq)]
pub struct GameData {
    pub playfield: Playfield,
    pub falling_piece: Option<FallingPiece>,
    pub hold_piece: Option<Piece>,
    pub next_pieces: VecDeque<Piece>,
    pub input_manager: InputManager,
    pub tspin: TSpin,
    pub events: Vec<GameEvent>,
}

impl View for GameData {
    type V = GameDataModel;

    open spec fn view(&self) -> GameDataModel {
        GameDataModel {
            playfield: self.playfield@,
            falling_piece: self.falling_piece,
            hold_piece: self.hold_piece,
            next_pieces: self.next_pieces@,
            input_manager: self.input_manager,
            tspin: self.tspin,
            events: self.events@,
        }
    }
}

impl GameData {
    /// Assemble the runtime for a new game, with the human-play debouncer
    /// built from the params' DAS/ARR values, no pending T-Spin and an
    /// empty event buffer.
    pub fn new(
        playfield: Playfield,
        falling_piece: Option<FallingPiece>,
        hold_piece: Option<Piece>,
        next_pieces: VecDeque<Piece>,
        params: &GameParams,
    ) -> (d: GameData)
        ensures
            d@ == (GameDataModel {
                playfield: playfield@,
                falling_piece: falling_piece,
                hold_piece: hold_piece,
                next_pieces: next_pieces@,
                input_manager: spec_basic_input_manager(params.das, params.arr),
                tspin: TSpin::NoSpin,
                events: Seq::<GameEvent>::empty(),
            }),
    {
        let d = GameData {
            playfield,
            falling_piece,
            hold_piece,
            next_pieces,
            input_manager: create_basic_input_manager(params.das, params.arr),
            tspin: TSpin::NoSpin,
            events: Vec::new(),
        };
        proof {
            assert(d@ =~= GameDataModel {
                playfield: d.playfield@,
                falling_piece: d.falling_piece,
                hold_piece: d.hold_piece,
                next_pieces: d.next_pieces@,
                input_manager: d.input_manager,
                tspin: TSpin::NoSpin,
                events: Seq::<GameEvent>::empty(),
            });
        }
        d
    }
}

/// A piece that fits on the playfield sits within a small margin of the
/// grid, so its coordinates are far from the 32-bit limits.
pub proof fn lemma_can_put_coords(fp: FallingPiece, pf: PlayfieldModel)
    requires
        pf.wf(),
        fp.spec_can_put(pf),
    ensures
        fp.coords_in_range(),
        fp.coords_well_within(),
        -5 <= fp.x < pf.grid.cols,
        -5 <= fp.y < pf.grid.rows,
{
    crate::tetro::lemma_piece_grid_nonempty(fp.piece, fp.rotation);
    crate::tetro::lemma_piece_grid_wf(fp.piece, fp.rotation);
    let m = fp.spec_mask();
    let (iw, jw) = choose|iw: int, jw: int|
        0 <= iw < m.cols && 0 <= jw < m.rows && !(#[trigger] m.cell_at(iw, jw)).spec_is_empty();
    assert(!cell_overflows(pf.grid, fp.x as int, fp.y as int, m, iw, jw));
    assert(pf.grid.in_bounds(fp.x + iw, fp.y + jw));
}

/// The rule set that spawns and rotates pieces.  The engine relies on the
/// contracts: a successful rotation returns a piece of the same identity
/// that fits on the playfield.
pub trait GameLogic {
    /// Where a spawned piece is placed.
    spec fn spec_spawn_piece(&self, piece: Piece, pf: PlayfieldModel) -> FallingPiece;

    /// What a rotation attempt returns: the rotated piece and its T-Spin
    /// tag, or `None` when every kick candidate collides.
    spec fn spec_rotate(&self, cw: bool, fp: FallingPiece, pf: PlayfieldModel) -> Option<
        (FallingPiece, TSpin),
    >;

    /// Create a new falling piece at its initial position.
    fn spawn_piece(&self, piece: Piece, playfield: &Playfield) -> (fp: FallingPiece)
        requires
            playfield@.wf(),
            playfield@.grid.cols >= 5,
        ensures
            fp == self.spec_spawn_piece(piece, playfield@),
            fp.piece == piece,
            fp.coords_in_range(),
    ;

    /// Rotate `falling_piece` on `playfield` by a quarter turn, clockwise
    /// when `cw`.  Returns `None` when the rotation is rejected (the piece
    /// is unchanged).
    fn rotate(&self, cw: bool, falling_piece: &FallingPiece, playfield: &Playfield) -> (r: Option<
        (FallingPiece, TSpin),
    >)
        requires
            playfield@.wf(),
            falling_piece.coords_well_within(),
        ensures
            r == self.spec_rotate(cw, *falling_piece, playfield@),
            r matches Some(x) ==> x.0.spec_can_put(playfield@) && x.0.piece == falling_piece.piece
                && x.0.coords_in_range(),
    ;
}

/// A game's fixed configuration: its rule set and its tuning parameters.
#[derive(Debug, Clone, PartialEq)]
pub struct GameConfig<Logic> {
    pub logic: Logic,
    pub params: GameParams,
}

} // verus!
