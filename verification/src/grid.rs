//! Low level grid primitives.
//!
//! Columns are numbered from left to right, and rows from bottom to top:
//! cell (0, 0) is the bottom-left corner.  A grid holds its cells in a
//! dense row-major vector.  All overlay and sweep operations are specified
//! against the abstract `GridModel` view.

use vstd::prelude::*;

verus! {

/// A cell type usable in a [`Grid`]: it can say whether it is empty, and
/// it can produce the canonical empty cell used to pad a new grid.
pub trait IsEmpty: Sized {
    /// Abstract emptiness of the cell.
    spec fn spec_is_empty(&self) -> bool;

    /// Whether the cell counts as empty for collision and sweeping.
    fn is_empty(&self) -> (r: bool)
        ensures
            r == self.spec_is_empty(),
    ;

    /// The canonical empty cell, used to fill unspecified cells.
    fn empty_cell() -> (r: Self)
        ensures
            r.spec_is_empty(),
    ;
}

impl IsEmpty for u8 {
    open spec fn spec_is_empty(&self) -> bool {
        *self == 0
    }

    fn is_empty(&self) -> (r: bool) {
        *self == 0
    }

    fn empty_cell() -> (r: u8) {
        0
    }
}

/// Abstract value of a [`Grid`]: its dimensions and the row-major cell
/// sequence (cell `(x, y)` lives at index `y * cols + x`).
#[verifier::ext_equal]
pub ghost struct GridModel<C> {
    pub rows: int,
    pub cols: int,
    pub cells: Seq<C>,
}

impl<C> GridModel<C> {
    /// Well-formed: the cell sequence matches the dimensions, and the
    /// dimensions fit the machine arithmetic the operations perform.
    pub open spec fn wf(self) -> bool {
        &&& self.cells.len() == self.rows * self.cols
        &&& 0 <= self.rows <= 0x7fff_ffff
        &&& 0 <= self.cols <= 0x7fff_ffff
        &&& self.rows * self.cols <= usize::MAX
    }

    /// Whether `(x, y)` lies inside the grid.
    pub open spec fn in_bounds(self, x: int, y: int) -> bool {
        0 <= x < self.cols && 0 <= y < self.rows
    }

    /// The cell at `(x, y)`.
    pub open spec fn cell_at(self, x: int, y: int) -> C
        recommends
            self.in_bounds(x, y),
    {
        self.cells[y * self.cols + x]
    }
}

/// Index of cell `(x, y)` inside the row-major cell sequence.
pub open spec fn spec_cell_index<C>(g: GridModel<C>, x: int, y: int) -> int {
    y * g.cols + x
}

proof fn lemma_cell_index_in_range<C>(g: GridModel<C>, x: int, y: int)
    requires
        g.wf(),
        g.in_bounds(x, y),
    ensures
        0 <= spec_cell_index(g, x, y) < g.cells.len(),
{
    assert(y * g.cols + x < g.rows * g.cols) by (nonlinear_arith)
        requires
            0 <= x < g.cols,
            0 <= y < g.rows,
    ;
    assert(0 <= y * g.cols) by (nonlinear_arith)
        requires
            0 <= y,
            0 <= g.cols,
    ;
}

proof fn lemma_cell_index_injective<C>(g: GridModel<C>, x1: int, y1: int, x2: int, y2: int)
    requires
        g.in_bounds(x1, y1),
        g.in_bounds(x2, y2),
        spec_cell_index(g, x1, y1) == spec_cell_index(g, x2, y2),
    ensures
        x1 == x2 && y1 == y2,
{
    assert(y1 == y2 && x1 == x2) by (nonlinear_arith)
        requires
            0 <= x1 < g.cols,
            0 <= y1,
            0 <= x2 < g.cols,
            0 <= y2,
            y1 * g.cols + x1 == y2 * g.cols + x2,
    ;
}

/// Flags reported by the overlay operations.  `overflow` means some
/// non-empty source cell fell outside the grid; `overlap` means some
/// non-empty source cell landed on a non-empty grid cell.
#[derive(Debug, Copy, Clone, PartialEq, Eq, Structural)]
pub struct OverlayResult {
    pub overflow: bool,
    pub overlap: bool,
}

impl OverlayResult {
    /// No flag set.
    pub open spec fn spec_is_empty(&self) -> bool {
        !self.overflow && !self.overlap
    }

    /// The result with no flag set.
    pub fn empty() -> (r: OverlayResult)
        ensures
            r == (OverlayResult { overflow: false, overlap: false }),
    {
        OverlayResult { overflow: false, overlap: false }
    }

    /// Whether no flag is set.
    pub fn is_empty(&self) -> (r: bool)
        ensures
            r == self.spec_is_empty(),
    {
        !self.overflow && !self.overlap
    }

    /// Whether every flag set in `other` is also set in `self`.
    pub fn contains(&self, other: OverlayResult) -> (r: bool)
        ensures
            r == ((other.overflow ==> self.overflow) && (other.overlap ==> self.overlap)),
    {
        (!other.overflow || self.overflow) && (!other.overlap || self.overlap)
    }
}

impl Default for OverlayResult {
    /// The result with no flag set.
    fn default() -> (r: OverlayResult)
        ensures
            r == (OverlayResult { overflow: false, overlap: false }),
    {
        OverlayResult { overflow: false, overlap: false }
    }
}

/// The non-empty cell `(i, j)` of `sub`, placed at offset `(x, y)`, falls
/// outside of `g`.
pub open spec fn cell_overflows<C: IsEmpty>(
    g: GridModel<C>,
    x: int,
    y: int,
    sub: GridModel<C>,
    i: int,
    j: int,
) -> bool {
    !sub.cell_at(i, j).spec_is_empty() && !g.in_bounds(x + i, y + j)
}

/// The non-empty cell `(i, j)` of `sub`, placed at offset `(x, y)`, lands
/// on a non-empty cell of `g`.
pub open spec fn cell_overlaps<C: IsEmpty>(
    g: GridModel<C>,
    x: int,
    y: int,
    sub: GridModel<C>,
    i: int,
    j: int,
) -> bool {
    &&& !sub.cell_at(i, j).spec_is_empty()
    &&& g.in_bounds(x + i, y + j)
    &&& !g.cell_at(x + i, y + j).spec_is_empty()
}

/// Whether cell `(i, j)` comes strictly before the scan position
/// `(im, jm)` in row-major order.
pub open spec fn scan_before(i: int, j: int, jm: int, im: int) -> bool {
    j < jm || (j == jm && i < im)
}

/// Some non-empty cell of `sub` before scan position `(im, jm)` overflows.
pub open spec fn spec_overflow_scanned<C: IsEmpty>(
    g: GridModel<C>,
    x: int,
    y: int,
    sub: GridModel<C>,
    jm: int,
    im: int,
) -> bool {
    exists|i: int, j: int|
        0 <= i < sub.cols && 0 <= j < sub.rows && scan_before(i, j, jm, im)
            && #[trigger] cell_overflows(g, x, y, sub, i, j)
}

/// Some non-empty cell of `sub` before scan position `(im, jm)` overlaps.
pub open spec fn spec_overlap_scanned<C: IsEmpty>(
    g: GridModel<C>,
    x: int,
    y: int,
    sub: GridModel<C>,
    jm: int,
    im: int,
) -> bool {
    exists|i: int, j: int|
        0 <= i < sub.cols && 0 <= j < sub.rows && scan_before(i, j, jm, im)
            && #[trigger] cell_overlaps(g, x, y, sub, i, j)
}

/// Placing `sub` at offset `(x, y)` onto `g` pushes some non-empty cell
/// outside of `g`.
pub open spec fn spec_overflow<C: IsEmpty>(
    g: GridModel<C>,
    x: int,
    y: int,
    sub: GridModel<C>,
) -> bool {
    exists|i: int, j: int|
        0 <= i < sub.cols && 0 <= j < sub.rows && #[trigger] cell_overflows(g, x, y, sub, i, j)
}

/// Placing `sub` at offset `(x, y)` onto `g` lands some non-empty cell on
/// a non-empty cell of `g`.
pub open spec fn spec_overlap<C: IsEmpty>(
    g: GridModel<C>,
    x: int,
    y: int,
    sub: GridModel<C>,
) -> bool {
    exists|i: int, j: int|
        0 <= i < sub.cols && 0 <= j < sub.rows && #[trigger] cell_overlaps(g, x, y, sub, i, j)
}

/// The flags of placing `sub` at `(x, y)` onto `g`, as one value.
pub open spec fn spec_overlay_result<C: IsEmpty>(
    g: GridModel<C>,
    x: int,
    y: int,
    sub: GridModel<C>,
) -> OverlayResult {
    OverlayResult {
        overflow: spec_overflow(g, x, y, sub),
        overlap: spec_overlap(g, x, y, sub),
    }
}

/// No flag is raised at step `k` of a scan from `(x, y)` by `(dx, dy)`.
pub open spec fn spec_can_overlay_at_step<C: IsEmpty>(
    g: GridModel<C>,
    x: int,
    y: int,
    sub: GridModel<C>,
    dx: int,
    dy: int,
    k: int,
) -> bool {
    spec_can_overlay(g, x + k * dx, y + k * dy, sub)
}

/// Placing `sub` at `(x, y)` onto `g` raises no flag.
pub open spec fn spec_can_overlay<C: IsEmpty>(
    g: GridModel<C>,
    x: int,
    y: int,
    sub: GridModel<C>,
) -> bool {
    !spec_overflow(g, x, y, sub) && !spec_overlap(g, x, y, sub)
}

/// The cell of `g` at `(gx, gy)` after `sub` was written at offset
/// `(x, y)`: a non-empty source cell that lands in bounds on an empty cell
/// replaces it; everything else is untouched.
pub open spec fn spec_overlaid_cell<C: IsEmpty>(
    g: GridModel<C>,
    x: int,
    y: int,
    sub: GridModel<C>,
    gx: int,
    gy: int,
) -> C {
    if sub.in_bounds(gx - x, gy - y) && !sub.cell_at(gx - x, gy - y).spec_is_empty()
        && g.cell_at(gx, gy).spec_is_empty() {
        sub.cell_at(gx - x, gy - y)
    } else {
        g.cell_at(gx, gy)
    }
}

/// As `spec_overlaid_cell`, but only source cells strictly before scan
/// position `(im, jm)` have been written yet.
pub open spec fn spec_partly_overlaid_cell<C: IsEmpty>(
    g: GridModel<C>,
    x: int,
    y: int,
    sub: GridModel<C>,
    jm: int,
    im: int,
    gx: int,
    gy: int,
) -> C {
    if sub.in_bounds(gx - x, gy - y) && scan_before(gx - x, gy - y, jm, im) && !sub.cell_at(
        gx - x,
        gy - y,
    ).spec_is_empty() && g.cell_at(gx, gy).spec_is_empty() {
        sub.cell_at(gx - x, gy - y)
    } else {
        g.cell_at(gx, gy)
    }
}

/// Whole row `y` of `g` holds no empty cell.
pub open spec fn spec_row_filled<C: IsEmpty>(g: GridModel<C>, y: int) -> bool {
    forall|x: int| 0 <= x < g.cols ==> !(#[trigger] g.cell_at(x, y)).spec_is_empty()
}

/// Whole row `y` of `g` holds only empty cells.
pub open spec fn spec_row_empty<C: IsEmpty>(g: GridModel<C>, y: int) -> bool {
    forall|x: int| 0 <= x < g.cols ==> (#[trigger] g.cell_at(x, y)).spec_is_empty()
}

/// `g` holds some non-empty cell.
pub open spec fn spec_has_nonempty_cell<C: IsEmpty>(g: GridModel<C>) -> bool {
    exists|i: int, j: int|
        0 <= i < g.cols && 0 <= j < g.rows && !(#[trigger] g.cell_at(i, j)).spec_is_empty()
}

/// Number of filled rows among rows `0 .. y` of `g`.
pub open spec fn spec_num_filled_below<C: IsEmpty>(g: GridModel<C>, y: int) -> int
    decreases y,
{
    if y <= 0 {
        0
    } else {
        spec_num_filled_below(g, y - 1) + if spec_row_filled(g, y - 1) {
            1int
        } else {
            0int
        }
    }
}

/// Number of filled rows of `g`.
pub open spec fn spec_num_filled<C: IsEmpty>(g: GridModel<C>) -> int {
    spec_num_filled_below(g, g.rows)
}

pub proof fn lemma_num_filled_below_bounds<C: IsEmpty>(g: GridModel<C>, y: int)
    requires
        0 <= y,
    ensures
        0 <= spec_num_filled_below(g, y) <= y,
    decreases y,
{
    if y > 0 {
        lemma_num_filled_below_bounds(g, y - 1);
    }
}

/// Among any rows `a .. b` with row `a` unfilled, at most `b - a - 1` rows
/// are filled.
pub proof fn lemma_num_filled_below_gap<C: IsEmpty>(g: GridModel<C>, a: int, b: int)
    requires
        0 <= a < b,
        !spec_row_filled(g, a),
    ensures
        spec_num_filled_below(g, b) - spec_num_filled_below(g, a) <= b - a - 1,
    decreases b,
{
    if b - 1 > a {
        lemma_num_filled_below_gap(g, a, b - 1);
    }
}

/// The new position of an unfilled row is strictly below the vacated top
/// rows, and distinct unfilled rows keep their order.
pub proof fn lemma_unfilled_position_mono<C: IsEmpty>(g: GridModel<C>, u1: int, u2: int)
    requires
        0 <= u1 < u2,
        !spec_row_filled(g, u1),
    ensures
        u1 - spec_num_filled_below(g, u1) < u2 - spec_num_filled_below(g, u2),
{
    lemma_num_filled_below_gap(g, u1, u2);
}

/// The index of the first fully-empty-or-not row scan: the bottom padding
/// of `g` counted from row `y` upward.
pub open spec fn spec_bottom_padding_from<C: IsEmpty>(g: GridModel<C>, y: int) -> int
    decreases g.rows - y,
{
    if y < 0 || y >= g.rows {
        g.rows
    } else if !spec_row_empty(g, y) {
        y
    } else {
        spec_bottom_padding_from(g, y + 1)
    }
}

/// Count of fully-empty rows at the bottom of `g`.
pub open spec fn spec_bottom_padding<C: IsEmpty>(g: GridModel<C>) -> int {
    spec_bottom_padding_from(g, 0)
}

/// Count of fully-empty rows at the top of `g`, counted from offset `n`.
pub open spec fn spec_top_padding_from<C: IsEmpty>(g: GridModel<C>, n: int) -> int
    decreases g.rows - n,
{
    if n < 0 || n >= g.rows {
        g.rows
    } else if !spec_row_empty(g, g.rows - 1 - n) {
        n
    } else {
        spec_top_padding_from(g, n + 1)
    }
}

/// Count of fully-empty rows at the top of `g`.
pub open spec fn spec_top_padding<C: IsEmpty>(g: GridModel<C>) -> int {
    spec_top_padding_from(g, 0)
}

proof fn lemma_scan_row_step<C: IsEmpty>(g: GridModel<C>, x: int, y: int, sub: GridModel<C>, j: int)
    ensures
        spec_overflow_scanned(g, x, y, sub, j, sub.cols) == spec_overflow_scanned(
            g,
            x,
            y,
            sub,
            j + 1,
            0,
        ),
        spec_overlap_scanned(g, x, y, sub, j, sub.cols) == spec_overlap_scanned(
            g,
            x,
            y,
            sub,
            j + 1,
            0,
        ),
{
    if spec_overflow_scanned(g, x, y, sub, j, sub.cols) {
        let (i0, j0) = choose|i0: int, j0: int|
            0 <= i0 < sub.cols && 0 <= j0 < sub.rows && scan_before(i0, j0, j, sub.cols)
                && #[trigger] cell_overflows(g, x, y, sub, i0, j0);
        assert(scan_before(i0, j0, j + 1, 0));
    }
    if spec_overflow_scanned(g, x, y, sub, j + 1, 0) {
        let (i0, j0) = choose|i0: int, j0: int|
            0 <= i0 < sub.cols && 0 <= j0 < sub.rows && scan_before(i0, j0, j + 1, 0)
                && #[trigger] cell_overflows(g, x, y, sub, i0, j0);
        assert(scan_before(i0, j0, j, sub.cols));
    }
    if spec_overlap_scanned(g, x, y, sub, j, sub.cols) {
        let (i0, j0) = choose|i0: int, j0: int|
            0 <= i0 < sub.cols && 0 <= j0 < sub.rows && scan_before(i0, j0, j, sub.cols)
                && #[trigger] cell_overlaps(g, x, y, sub, i0, j0);
        assert(scan_before(i0, j0, j + 1, 0));
    }
    if spec_overlap_scanned(g, x, y, sub, j + 1, 0) {
        let (i0, j0) = choose|i0: int, j0: int|
            0 <= i0 < sub.cols && 0 <= j0 < sub.rows && scan_before(i0, j0, j + 1, 0)
                && #[trigger] cell_overlaps(g, x, y, sub, i0, j0);
        assert(scan_before(i0, j0, j, sub.cols));
    }
}

proof fn lemma_scan_complete<C: IsEmpty>(g: GridModel<C>, x: int, y: int, sub: GridModel<C>)
    ensures
        spec_overflow_scanned(g, x, y, sub, sub.rows, 0) == spec_overflow(g, x, y, sub),
        spec_overlap_scanned(g, x, y, sub, sub.rows, 0) == spec_overlap(g, x, y, sub),
{
    if spec_overflow(g, x, y, sub) {
        let (i0, j0) = choose|i0: int, j0: int|
            0 <= i0 < sub.cols && 0 <= j0 < sub.rows && #[trigger] cell_overflows(
                g,
                x,
                y,
                sub,
                i0,
                j0,
            );
        assert(scan_before(i0, j0, sub.rows, 0));
    }
    if spec_overlap(g, x, y, sub) {
        let (i0, j0) = choose|i0: int, j0: int|
            0 <= i0 < sub.cols && 0 <= j0 < sub.rows && #[trigger] cell_overlaps(
                g,
                x,
                y,
                sub,
                i0,
                j0,
            );
        assert(scan_before(i0, j0, sub.rows, 0));
    }
}

/// The whole grid after `sub` was written at offset `(x, y)`, as one
/// value.
pub open spec fn spec_overlaid_grid<C: IsEmpty>(
    g: GridModel<C>,
    x: int,
    y: int,
    sub: GridModel<C>,
) -> GridModel<C> {
    GridModel {
        rows: g.rows,
        cols: g.cols,
        cells: Seq::new(
            g.cells.len(),
            |k: int| spec_overlaid_cell(g, x, y, sub, k % g.cols, k / g.cols),
        ),
    }
}

/// A grid that pointwise matches `spec_overlaid_cell` is the overlaid
/// grid.
pub proof fn lemma_overlaid_grid_eq<C: IsEmpty>(
    g: GridModel<C>,
    g2: GridModel<C>,
    x: int,
    y: int,
    sub: GridModel<C>,
)
    requires
        g.wf(),
        g2.wf(),
        g2.rows == g.rows,
        g2.cols == g.cols,
        forall|gx: int, gy: int|
            g2.in_bounds(gx, gy) ==> #[trigger] g2.cell_at(gx, gy) == spec_overlaid_cell(
                g,
                x,
                y,
                sub,
                gx,
                gy,
            ),
    ensures
        g2 == spec_overlaid_grid(g, x, y, sub),
{
    let go = spec_overlaid_grid(g, x, y, sub);
    assert forall|k: int| 0 <= k < g2.cells.len() implies g2.cells[k] == go.cells[k] by {
        let cx = k % g.cols;
        let cy = k / g.cols;
        assert(g.cols > 0) by (nonlinear_arith)
            requires
                0 <= k < g.rows * g.cols,
                g.rows >= 0,
                g.cols >= 0,
        ;
        assert(0 <= cx < g.cols && 0 <= cy < g.rows && cy * g.cols + cx == k) by (nonlinear_arith)
            requires
                0 <= k < g.rows * g.cols,
                cx == k % g.cols,
                cy == k / g.cols,
                g.cols > 0,
        ;
        assert(g2.cell_at(cx, cy) == spec_overlaid_cell(g, x, y, sub, cx, cy));
    }
    assert(g2 =~= go);
}

/// The index of the unfilled row with exactly `k` unfilled rows between
/// `y` and it, searching upward from row `y`; `rows` when there is none.
pub open spec fn spec_nth_unfilled_from<C: IsEmpty>(g: GridModel<C>, k: int, y: int) -> int
    decreases g.rows - y,
{
    if y < 0 || y >= g.rows {
        g.rows
    } else if spec_row_filled(g, y) {
        spec_nth_unfilled_from(g, k, y + 1)
    } else if k <= 0 {
        y
    } else {
        spec_nth_unfilled_from(g, k - 1, y + 1)
    }
}

/// The index of the `k`-th unfilled row of `g`, from the bottom.
pub open spec fn spec_nth_unfilled<C: IsEmpty>(g: GridModel<C>, k: int) -> int {
    spec_nth_unfilled_from(g, k, 0)
}

/// Searching for the `k`-th unfilled row above `s` finds an unfilled row
/// with exactly `k` unfilled rows in `[s, u)`, as long as `k` such rows
/// exist.
/// Counting filled rows is monotone, and a span of `b - a` rows holds at
/// most `b - a` filled rows.
pub proof fn lemma_num_filled_below_mono<C: IsEmpty>(g: GridModel<C>, a: int, b: int)
    requires
        a <= b,
    ensures
        spec_num_filled_below(g, a) <= spec_num_filled_below(g, b),
        spec_num_filled_below(g, b) - spec_num_filled_below(g, a) <= b - a,
    decreases b - a,
{
    if b > a {
        lemma_num_filled_below_mono(g, a, b - 1);
    }
}

pub proof fn lemma_nth_unfilled_props<C: IsEmpty>(g: GridModel<C>, k: int, s: int)
    requires
        0 <= s <= g.rows,
        0 <= k,
        k < (g.rows - s) - (spec_num_filled_below(g, g.rows) - spec_num_filled_below(g, s)),
    ensures
        ({
            let u = spec_nth_unfilled_from(g, k, s);
            &&& s <= u < g.rows
            &&& !spec_row_filled(g, u)
            &&& (u - s) - (spec_num_filled_below(g, u) - spec_num_filled_below(g, s)) == k
        }),
    decreases g.rows - s,
{
    lemma_num_filled_below_mono(g, s, g.rows);
    if s >= g.rows {
    } else {
        assert(spec_num_filled_below(g, s + 1) == spec_num_filled_below(g, s)
            + if spec_row_filled(g, s) {
            1int
        } else {
            0int
        });
        if spec_row_filled(g, s) {
            lemma_nth_unfilled_props(g, k, s + 1);
        } else {
            if k == 0 {
            } else {
                lemma_nth_unfilled_props(g, k - 1, s + 1);
            }
        }
    }
}

/// The whole grid after the filled rows were plucked with `placeholder`,
/// as one value: each remaining row is the matching unfilled row of the
/// old grid, and the vacated top rows hold the placeholder.
pub open spec fn spec_plucked_grid<C: IsEmpty>(g: GridModel<C>, placeholder: C) -> GridModel<C> {
    GridModel {
        rows: g.rows,
        cols: g.cols,
        cells: Seq::new(
            g.cells.len(),
            |k: int|
                {
                    let x = k % g.cols;
                    let y = k / g.cols;
                    if y < g.rows - spec_num_filled(g) {
                        g.cell_at(x, spec_nth_unfilled(g, y))
                    } else {
                        placeholder
                    }
                },
        ),
    }
}

/// A grid that satisfies the pluck postconditions is the plucked grid.
pub proof fn lemma_plucked_grid_eq<C: IsEmpty>(g: GridModel<C>, g2: GridModel<C>, placeholder: C)
    requires
        g.wf(),
        g2.wf(),
        g2.rows == g.rows,
        g2.cols == g.cols,
        forall|u: int, xx: int|
            0 <= u < g.rows && !spec_row_filled(g, u) && 0 <= xx < g.cols ==> g2.cell_at(
                xx,
                u - spec_num_filled_below(g, u),
            ) == #[trigger] g.cell_at(xx, u),
        forall|xx: int, yy: int|
            0 <= xx < g2.cols && g.rows - spec_num_filled(g) <= yy < g.rows
                ==> #[trigger] g2.cell_at(xx, yy) == placeholder,
    ensures
        g2 == spec_plucked_grid(g, placeholder),
{
    let go = spec_plucked_grid(g, placeholder);
    let n = spec_num_filled(g);
    assert forall|k: int| 0 <= k < g2.cells.len() implies g2.cells[k] == go.cells[k] by {
        let cx = k % g.cols;
        let cy = k / g.cols;
        assert(g.cols > 0) by (nonlinear_arith)
            requires
                0 <= k < g.rows * g.cols,
                g.rows >= 0,
                g.cols >= 0,
        ;
        assert(0 <= cx < g.cols && 0 <= cy < g.rows && cy * g.cols + cx == k) by (nonlinear_arith)
            requires
                0 <= k < g.rows * g.cols,
                cx == k % g.cols,
                cy == k / g.cols,
                g.cols > 0,
        ;
        if cy < g.rows - n {
            lemma_num_filled_below_bounds(g, g.rows);
            lemma_nth_unfilled_props(g, cy, 0);
            let u = spec_nth_unfilled(g, cy);
            assert(u - spec_num_filled_below(g, u) == cy);
            assert(g2.cell_at(cx, cy) == g.cell_at(cx, u));
            assert(go.cell_at(cx, cy) == g.cell_at(cx, u));
        } else {
            assert(g2.cell_at(cx, cy) == placeholder);
        }
    }
    assert(g2 =~= go);
}

/// Number of non-empty cells among the first `x` cells of row `y`.
pub open spec fn spec_row_nonempty_upto<C: IsEmpty>(g: GridModel<C>, y: int, x: int) -> int
    decreases x,
{
    if x <= 0 {
        0
    } else {
        spec_row_nonempty_upto(g, y, x - 1) + if !g.cell_at(x - 1, y).spec_is_empty() {
            1int
        } else {
            0int
        }
    }
}

/// Number of non-empty cells of row `y`.
pub open spec fn spec_row_nonempty<C: IsEmpty>(g: GridModel<C>, y: int) -> int {
    spec_row_nonempty_upto(g, y, g.cols)
}

/// Number of non-empty cells among rows `0 .. y`.
pub open spec fn spec_nonempty_below<C: IsEmpty>(g: GridModel<C>, y: int) -> int
    decreases y,
{
    if y <= 0 {
        0
    } else {
        spec_nonempty_below(g, y - 1) + spec_row_nonempty(g, y - 1)
    }
}

/// Number of non-empty cells of the whole grid.
pub open spec fn spec_nonempty_cells<C: IsEmpty>(g: GridModel<C>) -> int {
    spec_nonempty_below(g, g.rows)
}

proof fn lemma_row_filled_count_upto<C: IsEmpty>(g: GridModel<C>, y: int, x: int)
    requires
        spec_row_filled(g, y),
        0 <= x <= g.cols,
    ensures
        spec_row_nonempty_upto(g, y, x) == x,
    decreases x,
{
    if x > 0 {
        lemma_row_filled_count_upto(g, y, x - 1);
        assert(!g.cell_at(x - 1, y).spec_is_empty());
    }
}

proof fn lemma_row_empty_count_upto<C: IsEmpty>(g: GridModel<C>, y: int, x: int)
    requires
        spec_row_empty(g, y),
        0 <= x <= g.cols,
    ensures
        spec_row_nonempty_upto(g, y, x) == 0,
    decreases x,
{
    if x > 0 {
        lemma_row_empty_count_upto(g, y, x - 1);
        assert(g.cell_at(x - 1, y).spec_is_empty());
    }
}

proof fn lemma_rows_equal_count<C: IsEmpty>(
    g1: GridModel<C>,
    y1: int,
    g2: GridModel<C>,
    y2: int,
    x: int,
)
    requires
        g1.cols == g2.cols,
        forall|xx: int| 0 <= xx < g1.cols ==> #[trigger] g1.cell_at(xx, y1) == g2.cell_at(xx, y2),
        0 <= x <= g1.cols,
    ensures
        spec_row_nonempty_upto(g1, y1, x) == spec_row_nonempty_upto(g2, y2, x),
    decreases x,
{
    if x > 0 {
        lemma_rows_equal_count(g1, y1, g2, y2, x - 1);
        assert(g1.cell_at(x - 1, y1) == g2.cell_at(x - 1, y2));
    }
}

proof fn lemma_count_extend_empty<C: IsEmpty>(g: GridModel<C>, a: int, b: int)
    requires
        0 <= a <= b,
        forall|yy: int| a <= yy < b ==> #[trigger] spec_row_empty(g, yy),
    ensures
        spec_nonempty_below(g, b) == spec_nonempty_below(g, a),
    decreases b - a,
{
    if b > a {
        lemma_count_extend_empty(g, a, b - 1);
        if g.cols >= 0 {
            lemma_row_empty_count_upto(g, b - 1, g.cols);
        }
    }
}

proof fn lemma_pluck_count_below<C: IsEmpty>(g: GridModel<C>, g2: GridModel<C>, y: int)
    requires
        g.wf(),
        g2.cols == g.cols,
        g2.rows == g.rows,
        forall|u: int, xx: int|
            0 <= u < g.rows && !spec_row_filled(g, u) && 0 <= xx < g.cols ==> g2.cell_at(
                xx,
                u - spec_num_filled_below(g, u),
            ) == #[trigger] g.cell_at(xx, u),
        0 <= y <= g.rows,
    ensures
        spec_nonempty_below(g2, y - spec_num_filled_below(g, y)) == spec_nonempty_below(g, y)
            - spec_num_filled_below(g, y) * g.cols,
    decreases y,
{
    if y == 0 {
    } else {
        lemma_pluck_count_below(g, g2, y - 1);
        let nfb1 = spec_num_filled_below(g, y - 1);
        let nfb = spec_num_filled_below(g, y);
        lemma_num_filled_below_bounds(g, y - 1);
        if spec_row_filled(g, y - 1) {
            assert(nfb == nfb1 + 1);
            lemma_row_filled_count_upto(g, y - 1, g.cols);
            assert((nfb1 + 1) * g.cols == nfb1 * g.cols + g.cols) by (nonlinear_arith);
        } else {
            assert(nfb == nfb1);
            assert forall|xx: int| 0 <= xx < g2.cols implies #[trigger] g2.cell_at(
                xx,
                (y - 1) - nfb1,
            ) == g.cell_at(xx, y - 1) by {
                assert(g.cell_at(xx, y - 1) == g2.cell_at(
                    xx,
                    (y - 1) - spec_num_filled_below(g, y - 1),
                ));
            }
            lemma_rows_equal_count(g2, (y - 1) - nfb1, g, y - 1, g.cols);
        }
    }
}

/// Law: overlay round trip.  Take a grid onto which `sub` fits cleanly at
/// `(x, y)` (no overflow, no overlap) and which `sub`, holding at least
/// one non-empty cell, has then been written onto, as `overlay` writes it.
/// Checking the same region afterwards reports an overlap and still no
/// overflow: the piece is now present.
pub proof fn lemma_overlay_round_trip<C: IsEmpty>(
    g: GridModel<C>,
    g2: GridModel<C>,
    x: int,
    y: int,
    sub: GridModel<C>,
)
    requires
        g.wf(),
        spec_can_overlay(g, x, y, sub),
        spec_has_nonempty_cell(sub),
        g2.rows == g.rows,
        g2.cols == g.cols,
        forall|gx: int, gy: int|
            g2.in_bounds(gx, gy) ==> #[trigger] g2.cell_at(gx, gy) == spec_overlaid_cell(
                g,
                x,
                y,
                sub,
                gx,
                gy,
            ),
    ensures
        spec_overlap(g2, x, y, sub),
        !spec_overflow(g2, x, y, sub),
{
    let (i, j) = choose|i: int, j: int|
        0 <= i < sub.cols && 0 <= j < sub.rows && !(#[trigger] sub.cell_at(i, j)).spec_is_empty();
    assert(!cell_overflows(g, x, y, sub, i, j));
    assert(!cell_overlaps(g, x, y, sub, i, j));
    assert(g.in_bounds(x + i, y + j));
    assert(g2.cell_at(x + i, y + j) == sub.cell_at(i, j));
    assert(cell_overlaps(g2, x, y, sub, i, j));
    assert forall|i0: int, j0: int|
        0 <= i0 < sub.cols && 0 <= j0 < sub.rows implies !(#[trigger] cell_overflows(
        g2,
        x,
        y,
        sub,
        i0,
        j0,
    )) by {
        assert(!cell_overflows(g, x, y, sub, i0, j0));
    }
}

/// Law: line-clear conservation.  If `g2` is `g` after the `n` filled
/// rows were plucked with an empty placeholder — each unfilled row dropped
/// by the count of filled rows below it, the vacated top rows empty — then
/// `g2` holds exactly `n * cols` fewer non-empty cells than `g`, and every
/// non-empty cell of `g2` lies in rows `[0, rows - n)`.
pub proof fn lemma_pluck_conservation<C: IsEmpty>(g: GridModel<C>, g2: GridModel<C>, n: int)
    requires
        g.wf(),
        g2.cols == g.cols,
        g2.rows == g.rows,
        n == spec_num_filled(g),
        forall|u: int, xx: int|
            0 <= u < g.rows && !spec_row_filled(g, u) && 0 <= xx < g.cols ==> g2.cell_at(
                xx,
                u - spec_num_filled_below(g, u),
            ) == #[trigger] g.cell_at(xx, u),
        forall|xx: int, yy: int|
            0 <= xx < g2.cols && g.rows - n <= yy < g.rows ==> (#[trigger] g2.cell_at(
                xx,
                yy,
            )).spec_is_empty(),
    ensures
        spec_nonempty_cells(g2) == spec_nonempty_cells(g) - n * g.cols,
        forall|xx: int, yy: int|
            g2.in_bounds(xx, yy) && !(#[trigger] g2.cell_at(xx, yy)).spec_is_empty() ==> 0 <= yy
                < g.rows - n,
{
    lemma_pluck_count_below(g, g2, g.rows);
    lemma_num_filled_below_bounds(g, g.rows);
    assert forall|yy: int| g.rows - n <= yy < g.rows implies #[trigger] spec_row_empty(
        g2,
        yy,
    ) by {
        assert forall|xx: int| 0 <= xx < g2.cols implies (#[trigger] g2.cell_at(
            xx,
            yy,
        )).spec_is_empty() by {}
    }
    lemma_count_extend_empty(g2, g.rows - n, g.rows);
}

/// A rectangular cell matrix, stored row-major from the bottom row up.
#[derive(Debug, Clone, PartialEq)]
pub struct Grid<C> {
    num_rows: usize,
    num_cols: usize,
    cells: Vec<C>,
}

impl<C> View for Grid<C> {
    type V = GridModel<C>;

    closed spec fn view(&self) -> GridModel<C> {
        GridModel { rows: self.num_rows as int, cols: self.num_cols as int, cells: self.cells@ }
    }
}

impl<C: IsEmpty + Copy> Grid<C> {
    /// Build a `cols` x `rows` grid from the given row-major cells.  The
    /// vector is truncated or padded with empty cells to exactly fill the
    /// grid.
    pub fn new(cols: usize, rows: usize, cells: Vec<C>) -> (g: Grid<C>)
        requires
            cols <= 0x7fff_ffff,
            rows <= 0x7fff_ffff,
            rows * cols <= usize::MAX,
        ensures
            g@.wf(),
            g@.rows == rows,
            g@.cols == cols,
            g@.cells.len() == rows * cols,
            forall|k: int|
                0 <= k < g@.cells.len() && k < cells@.len() ==> #[trigger] g@.cells[k]
                    == cells@[k],
            forall|k: int|
                cells@.len() <= k < g@.cells.len() ==> (#[trigger] g@.cells[k]).spec_is_empty(),
    {
        let num: usize = rows * cols;
        let ghost orig = cells@;
        let mut cells = cells;
        cells.truncate(num);
        while cells.len() < num
            invariant
                cells@.len() <= num,
                orig.len() <= cells@.len() || num <= cells@.len(),
                forall|k: int|
                    0 <= k < cells@.len() && k < orig.len() ==> #[trigger] cells@[k] == orig[k],
                forall|k: int|
                    orig.len() <= k < cells@.len() ==> (#[trigger] cells@[k]).spec_is_empty(),
            decreases num - cells@.len(),
        {
            cells.push(C::empty_cell());
        }
        Grid { num_cols: cols, num_rows: rows, cells }
    }

    /// Number of rows.
    pub fn num_rows(&self) -> (r: usize)
        ensures
            r == self@.rows,
    {
        self.num_rows
    }

    /// Number of columns.
    pub fn num_cols(&self) -> (r: usize)
        ensures
            r == self@.cols,
    {
        self.num_cols
    }

    /// Whether `(x, y)` is a valid cell position.
    pub fn is_valid_cell_index(&self, x: usize, y: usize) -> (r: bool)
        ensures
            r == self@.in_bounds(x as int, y as int),
    {
        x < self.num_cols && y < self.num_rows
    }

    /// Index of cell `(x, y)` inside the row-major cell vector.
    pub fn cell_index(&self, x: usize, y: usize) -> (r: usize)
        requires
            self@.wf(),
            self@.in_bounds(x as int, y as int),
        ensures
            r == spec_cell_index(self@, x as int, y as int),
            r < self@.cells.len(),
    {
        proof {
            lemma_cell_index_in_range(self@, x as int, y as int);
        }
        x + y * self.num_cols
    }

    /// Overwrite the cell at `(x, y)`.
    pub fn set_cell(&mut self, x: usize, y: usize, cell: C)
        requires
            old(self)@.wf(),
            old(self)@.in_bounds(x as int, y as int),
        ensures
            final(self)@.wf(),
            final(self)@.rows == old(self)@.rows,
            final(self)@.cols == old(self)@.cols,
            final(self)@.cells == old(self)@.cells.update(spec_cell_index(old(self)@, x as int, y as int), cell),
            final(self)@.cell_at(x as int, y as int) == cell,
            forall|xx: int, yy: int|
                final(self)@.in_bounds(xx, yy) && !(xx == x && yy == y) ==> #[trigger] final(self)@.cell_at(xx, yy)
                    == old(self)@.cell_at(xx, yy),
    {
        let idx = self.cell_index(x, y);
        self.cells[idx] = cell;
        proof {
            assert forall|xx: int, yy: int|
                self@.in_bounds(xx, yy) && !(xx == x && yy == y) implies #[trigger] self@.cell_at(
                xx,
                yy,
            ) == old(self)@.cell_at(xx, yy) by {
                lemma_cell_index_in_range(old(self)@, xx, yy);
                lemma_cell_index_in_range(old(self)@, x as int, y as int);
                if spec_cell_index(old(self)@, xx, yy) == spec_cell_index(
                    old(self)@,
                    x as int,
                    y as int,
                ) {
                    lemma_cell_index_injective(old(self)@, xx, yy, x as int, y as int);
                }
            }
        }
    }

    /// Read the cell at `(x, y)`.
    pub fn cell(&self, x: usize, y: usize) -> (r: C)
        requires
            self@.wf(),
            self@.in_bounds(x as int, y as int),
        ensures
            r == self@.cell_at(x as int, y as int),
    {
        let idx = self.cell_index(x, y);
        self.cells[idx]
    }

    /// Fill the whole row `y` with copies of `cell`.
    pub fn fill_row(&mut self, y: usize, cell: C)
        requires
            old(self)@.wf(),
            0 <= y < old(self)@.rows,
        ensures
            final(self)@.wf(),
            final(self)@.rows == old(self)@.rows,
            final(self)@.cols == old(self)@.cols,
            forall|xx: int| 0 <= xx < final(self)@.cols ==> #[trigger] final(self)@.cell_at(xx, y as int) == cell,
            forall|xx: int, yy: int|
                final(self)@.in_bounds(xx, yy) && yy != y ==> #[trigger] final(self)@.cell_at(xx, yy) == old(
                    self,
                )@.cell_at(xx, yy),
    {
        let cols = self.num_cols;
        for x in 0..cols
            invariant
                self@.wf(),
                self@.rows == old(self)@.rows,
                self@.cols == old(self)@.cols,
                cols == self@.cols,
                y < self@.rows,
                forall|xx: int| 0 <= xx < x ==> #[trigger] self@.cell_at(xx, y as int) == cell,
                forall|xx: int, yy: int|
                    self@.in_bounds(xx, yy) && yy != y ==> #[trigger] self@.cell_at(xx, yy) == old(
                        self,
                    )@.cell_at(xx, yy),
        {
            self.set_cell(x, y, cell);
        }
    }

    /// Fill every row in `[y_begin, y_end)` with copies of `cell`.
    pub fn fill_rows(&mut self, y_begin: usize, y_end: usize, cell: C)
        requires
            old(self)@.wf(),
            y_begin <= y_end <= old(self)@.rows,
        ensures
            final(self)@.wf(),
            final(self)@.rows == old(self)@.rows,
            final(self)@.cols == old(self)@.cols,
            forall|xx: int, yy: int|
                0 <= xx < final(self)@.cols && y_begin <= yy < y_end ==> #[trigger] final(self)@.cell_at(xx, yy)
                    == cell,
            forall|xx: int, yy: int|
                final(self)@.in_bounds(xx, yy) && !(y_begin <= yy < y_end) ==> #[trigger] final(self)@.cell_at(
                    xx,
                    yy,
                ) == old(self)@.cell_at(xx, yy),
    {
        for y in y_begin..y_end
            invariant
                self@.wf(),
                self@.rows == old(self)@.rows,
                self@.cols == old(self)@.cols,
                y_begin <= y_end <= self@.rows,
                forall|xx: int, yy: int|
                    0 <= xx < self@.cols && y_begin <= yy < y ==> #[trigger] self@.cell_at(xx, yy)
                        == cell,
                forall|xx: int, yy: int|
                    self@.in_bounds(xx, yy) && !(y_begin <= yy < y) ==> #[trigger] self@.cell_at(
                        xx,
                        yy,
                    ) == old(self)@.cell_at(xx, yy),
        {
            self.fill_row(y, cell);
        }
    }

    /// Mirror the grid vertically: swap row `y` with row `rows - 1 - y`.
    pub fn reverse_rows(&mut self)
        requires
            old(self)@.wf(),
        ensures
            final(self)@.wf(),
            final(self)@.rows == old(self)@.rows,
            final(self)@.cols == old(self)@.cols,
            forall|xx: int, yy: int|
                final(self)@.in_bounds(xx, yy) ==> #[trigger] final(self)@.cell_at(xx, yy) == old(
                    self,
                )@.cell_at(xx, final(self)@.rows - 1 - yy),
    {
        let rows = self.num_rows;
        let n = rows / 2;
        for y in 0..n
            invariant
                self@.wf(),
                self@.rows == old(self)@.rows,
                self@.cols == old(self)@.cols,
                rows == self@.rows,
                n == rows / 2,
                forall|xx: int, yy: int|
                    self@.in_bounds(xx, yy) && (yy < y || yy > rows - 1 - y)
                        ==> #[trigger] self@.cell_at(xx, yy) == old(self)@.cell_at(
                        xx,
                        self@.rows - 1 - yy,
                    ),
                forall|xx: int, yy: int|
                    self@.in_bounds(xx, yy) && y <= yy <= rows - 1 - y ==> #[trigger] self@.cell_at(
                        xx,
                        yy,
                    ) == old(self)@.cell_at(xx, yy),
        {
            let yy = rows - 1 - y;
            let cols = self.num_cols;
            for x in 0..cols
                invariant
                    self@.wf(),
                    self@.rows == old(self)@.rows,
                    self@.cols == old(self)@.cols,
                    rows == self@.rows,
                    cols == self@.cols,
                    n == rows / 2,
                    y < n,
                    yy == rows - 1 - y,
                    forall|ax: int, ay: int|
                        self@.in_bounds(ax, ay) && (ay < y || ay > rows - 1 - y)
                            ==> #[trigger] self@.cell_at(ax, ay) == old(self)@.cell_at(
                            ax,
                            self@.rows - 1 - ay,
                        ),
                    forall|ax: int|
                        0 <= ax < x ==> #[trigger] self@.cell_at(ax, y as int) == old(
                            self,
                        )@.cell_at(ax, yy as int),
                    forall|ax: int|
                        0 <= ax < x ==> #[trigger] self@.cell_at(ax, yy as int) == old(
                            self,
                        )@.cell_at(ax, y as int),
                    forall|ax: int|
                        x <= ax < cols ==> #[trigger] self@.cell_at(ax, y as int) == old(
                            self,
                        )@.cell_at(ax, y as int),
                    forall|ax: int|
                        x <= ax < cols ==> #[trigger] self@.cell_at(ax, yy as int) == old(
                            self,
                        )@.cell_at(ax, yy as int),
                    forall|ax: int, ay: int|
                        self@.in_bounds(ax, ay) && y < ay < rows - 1 - y
                            ==> #[trigger] self@.cell_at(ax, ay) == old(self)@.cell_at(ax, ay),
            {
                let t = self.cell(x, y);
                let u = self.cell(x, yy);
                self.set_cell(x, y, u);
                self.set_cell(x, yy, t);
            }
        }
    }

    /// Report, without writing, what placing `sub` at offset `(x, y)`
    /// would do: for each non-empty cell of `sub`, whether it falls
    /// outside the grid (`overflow`) or onto a non-empty cell (`overlap`).
    pub fn check_overlay(&self, x: i32, y: i32, sub: &Grid<C>) -> (r: OverlayResult)
        requires
            self@.wf(),
            sub@.wf(),
            x + sub@.cols <= i32::MAX,
            y + sub@.rows <= i32::MAX,
        ensures
            r == spec_overlay_result(self@, x as int, y as int, sub@),
    {
        let mut result = OverlayResult::empty();
        let sub_rows = sub.num_rows();
        let sub_cols = sub.num_cols();
        for sub_y in 0..sub_rows
            invariant
                self@.wf(),
                sub@.wf(),
                sub_rows == sub@.rows,
                sub_cols == sub@.cols,
                x + sub@.cols <= i32::MAX,
                y + sub@.rows <= i32::MAX,
                result.overflow == spec_overflow_scanned(
                    self@,
                    x as int,
                    y as int,
                    sub@,
                    sub_y as int,
                    0,
                ),
                result.overlap == spec_overlap_scanned(
                    self@,
                    x as int,
                    y as int,
                    sub@,
                    sub_y as int,
                    0,
                ),
        {
            for sub_x in 0..sub_cols
                invariant
                    self@.wf(),
                    sub@.wf(),
                    sub_rows == sub@.rows,
                    sub_cols == sub@.cols,
                    sub_y < sub_rows,
                    x + sub@.cols <= i32::MAX,
                    y + sub@.rows <= i32::MAX,
                    result.overflow == spec_overflow_scanned(
                        self@,
                        x as int,
                        y as int,
                        sub@,
                        sub_y as int,
                        sub_x as int,
                    ),
                    result.overlap == spec_overlap_scanned(
                        self@,
                        x as int,
                        y as int,
                        sub@,
                        sub_y as int,
                        sub_x as int,
                    ),
            {
                let ghost prev = result;
                let sub_cell = sub.cell(sub_x, sub_y);
                if !sub_cell.is_empty() {
                    let self_x = x + sub_x as i32;
                    let self_y = y + sub_y as i32;
                    if self_x < 0 || self.num_cols as i32 <= self_x || self_y < 0
                        || self.num_rows as i32 <= self_y {
                        result.overflow = true;
                    } else {
                        let self_cell = self.cell(self_x as usize, self_y as usize);
                        if !self_cell.is_empty() {
                            result.overlap = true;
                        }
                    }
                }
                proof {
                    let gm = self@;
                    let sm = sub@;
                    let xi = x as int;
                    let yi = y as int;
                    let i = sub_x as int;
                    let j = sub_y as int;
                    assert(result.overflow == (prev.overflow || cell_overflows(
                        gm,
                        xi,
                        yi,
                        sm,
                        i,
                        j,
                    )));
                    assert(result.overlap == (prev.overlap || cell_overlaps(gm, xi, yi, sm, i, j)));
                    assert forall|i0: int, j0: int|
                        0 <= i0 < sm.cols && 0 <= j0 < sm.rows && scan_before(i0, j0, j, i + 1)
                            && #[trigger] cell_overflows(gm, xi, yi, sm, i0, j0) implies
                        prev.overflow || cell_overflows(gm, xi, yi, sm, i, j) by {
                        if scan_before(i0, j0, j, i) {
                            assert(spec_overflow_scanned(gm, xi, yi, sm, j, i));
                        }
                    }
                    assert forall|i0: int, j0: int|
                        0 <= i0 < sm.cols && 0 <= j0 < sm.rows && scan_before(i0, j0, j, i + 1)
                            && #[trigger] cell_overlaps(gm, xi, yi, sm, i0, j0) implies
                        prev.overlap || cell_overlaps(gm, xi, yi, sm, i, j) by {
                        if scan_before(i0, j0, j, i) {
                            assert(spec_overlap_scanned(gm, xi, yi, sm, j, i));
                        }
                    }
                    if prev.overflow || cell_overflows(gm, xi, yi, sm, i, j) {
                        if prev.overflow {
                            let (i0, j0) = choose|i0: int, j0: int|
                                0 <= i0 < sm.cols && 0 <= j0 < sm.rows && scan_before(i0, j0, j, i)
                                    && #[trigger] cell_overflows(gm, xi, yi, sm, i0, j0);
                            assert(scan_before(i0, j0, j, i + 1));
                        } else {
                            assert(scan_before(i, j, j, i + 1));
                        }
                    }
                    if prev.overlap || cell_overlaps(gm, xi, yi, sm, i, j) {
                        if prev.overlap {
                            let (i0, j0) = choose|i0: int, j0: int|
                                0 <= i0 < sm.cols && 0 <= j0 < sm.rows && scan_before(i0, j0, j, i)
                                    && #[trigger] cell_overlaps(gm, xi, yi, sm, i0, j0);
                            assert(scan_before(i0, j0, j, i + 1));
                        } else {
                            assert(scan_before(i, j, j, i + 1));
                        }
                    }
                }
            }
            proof {
                lemma_scan_row_step(self@, x as int, y as int, sub@, sub_y as int);
            }
        }
        proof {
            lemma_scan_complete(self@, x as int, y as int, sub@);
        }
        result
    }

    /// Place `sub` at offset `(x, y)`: every non-empty source cell that
    /// lands in bounds on an empty cell is written; cells that would
    /// overflow or overlap are skipped and reported in the returned flags,
    /// computed against the grid as it was before the call.
    pub fn overlay(&mut self, x: i32, y: i32, sub: &Grid<C>) -> (r: OverlayResult)
        requires
            old(self)@.wf(),
            sub@.wf(),
            x + sub@.cols <= i32::MAX,
            y + sub@.rows <= i32::MAX,
        ensures
            r == spec_overlay_result(old(self)@, x as int, y as int, sub@),
            final(self)@.wf(),
            final(self)@.rows == old(self)@.rows,
            final(self)@.cols == old(self)@.cols,
            forall|gx: int, gy: int|
                final(self)@.in_bounds(gx, gy) ==> #[trigger] final(self)@.cell_at(gx, gy)
                    == spec_overlaid_cell(old(self)@, x as int, y as int, sub@, gx, gy),
    {
        let ghost g0 = old(self)@;
        let mut result = OverlayResult::empty();
        let sub_rows = sub.num_rows();
        let sub_cols = sub.num_cols();
        for sub_y in 0..sub_rows
            invariant
                self@.wf(),
                self@.rows == g0.rows,
                self@.cols == g0.cols,
                g0.wf(),
                sub@.wf(),
                sub_rows == sub@.rows,
                sub_cols == sub@.cols,
                x + sub@.cols <= i32::MAX,
                y + sub@.rows <= i32::MAX,
                result.overflow == spec_overflow_scanned(g0, x as int, y as int, sub@, sub_y as int, 0),
                result.overlap == spec_overlap_scanned(g0, x as int, y as int, sub@, sub_y as int, 0),
                forall|gx: int, gy: int|
                    self@.in_bounds(gx, gy) ==> #[trigger] self@.cell_at(gx, gy)
                        == spec_partly_overlaid_cell(
                        g0,
                        x as int,
                        y as int,
                        sub@,
                        sub_y as int,
                        0,
                        gx,
                        gy,
                    ),
        {
            for sub_x in 0..sub_cols
                invariant
                    self@.wf(),
                    self@.rows == g0.rows,
                    self@.cols == g0.cols,
                    g0.wf(),
                    sub@.wf(),
                    sub_rows == sub@.rows,
                    sub_cols == sub@.cols,
                    sub_y < sub_rows,
                    x + sub@.cols <= i32::MAX,
                    y + sub@.rows <= i32::MAX,
                    result.overflow == spec_overflow_scanned(
                        g0,
                        x as int,
                        y as int,
                        sub@,
                        sub_y as int,
                        sub_x as int,
                    ),
                    result.overlap == spec_overlap_scanned(
                        g0,
                        x as int,
                        y as int,
                        sub@,
                        sub_y as int,
                        sub_x as int,
                    ),
                    forall|gx: int, gy: int|
                        self@.in_bounds(gx, gy) ==> #[trigger] self@.cell_at(gx, gy)
                            == spec_partly_overlaid_cell(
                            g0,
                            x as int,
                            y as int,
                            sub@,
                            sub_y as int,
                            sub_x as int,
                            gx,
                            gy,
                        ),
            {
                let ghost prev = result;
                let ghost gprev = self@;
                let sub_cell = sub.cell(sub_x, sub_y);
                let ghost i = sub_x as int;
                let ghost j = sub_y as int;
                let ghost xi = x as int;
                let ghost yi = y as int;
                if !sub_cell.is_empty() {
                    let self_x = x + sub_x as i32;
                    let self_y = y + sub_y as i32;
                    if self_x < 0 || self.num_cols as i32 <= self_x || self_y < 0
                        || self.num_rows as i32 <= self_y {
                        result.overflow = true;
                    } else {
                        proof {
                            // the target cell has not been written yet, so it
                            // still holds its original value
                            assert(self@.cell_at(xi + i, yi + j) == spec_partly_overlaid_cell(
                                g0,
                                xi,
                                yi,
                                sub@,
                                j,
                                i,
                                xi + i,
                                yi + j,
                            ));
                            assert(!scan_before((xi + i) - xi, (yi + j) - yi, j, i));
                        }
                        let self_cell = self.cell(self_x as usize, self_y as usize);
                        if !self_cell.is_empty() {
                            result.overlap = true;
                        } else {
                            self.set_cell(self_x as usize, self_y as usize, sub_cell);
                        }
                    }
                }
                proof {
                    let gm = g0;
                    let sm = sub@;
                    assert(result.overflow == (prev.overflow || cell_overflows(
                        gm,
                        xi,
                        yi,
                        sm,
                        i,
                        j,
                    )));
                    assert(result.overlap == (prev.overlap || cell_overlaps(gm, xi, yi, sm, i, j)));
                    assert forall|i0: int, j0: int|
                        0 <= i0 < sm.cols && 0 <= j0 < sm.rows && scan_before(i0, j0, j, i + 1)
                            && #[trigger] cell_overflows(gm, xi, yi, sm, i0, j0) implies
                        prev.overflow || cell_overflows(gm, xi, yi, sm, i, j) by {
                        if scan_before(i0, j0, j, i) {
                            assert(spec_overflow_scanned(gm, xi, yi, sm, j, i));
                        }
                    }
                    assert forall|i0: int, j0: int|
                        0 <= i0 < sm.cols && 0 <= j0 < sm.rows && scan_before(i0, j0, j, i + 1)
                            && #[trigger] cell_overlaps(gm, xi, yi, sm, i0, j0) implies
                        prev.overlap || cell_overlaps(gm, xi, yi, sm, i, j) by {
                        if scan_before(i0, j0, j, i) {
                            assert(spec_overlap_scanned(gm, xi, yi, sm, j, i));
                        }
                    }
                    if prev.overflow || cell_overflows(gm, xi, yi, sm, i, j) {
                        if prev.overflow {
                            let (i0, j0) = choose|i0: int, j0: int|
                                0 <= i0 < sm.cols && 0 <= j0 < sm.rows && scan_before(i0, j0, j, i)
                                    && #[trigger] cell_overflows(gm, xi, yi, sm, i0, j0);
                            assert(scan_before(i0, j0, j, i + 1));
                        } else {
                            assert(scan_before(i, j, j, i + 1));
                        }
                    }
                    if prev.overlap || cell_overlaps(gm, xi, yi, sm, i, j) {
                        if prev.overlap {
                            let (i0, j0) = choose|i0: int, j0: int|
                                0 <= i0 < sm.cols && 0 <= j0 < sm.rows && scan_before(i0, j0, j, i)
                                    && #[trigger] cell_overlaps(gm, xi, yi, sm, i0, j0);
                            assert(scan_before(i0, j0, j, i + 1));
                        } else {
                            assert(scan_before(i, j, j, i + 1));
                        }
                    }
                    // the written-so-far region grows by the one cell (i, j)
                    assert forall|gx: int, gy: int| self@.in_bounds(gx, gy) implies
                        #[trigger] self@.cell_at(gx, gy) == spec_partly_overlaid_cell(
                        gm,
                        xi,
                        yi,
                        sm,
                        j,
                        i + 1,
                        gx,
                        gy,
                    ) by {
                        if gx == xi + i && gy == yi + j {
                        } else {
                            assert(self@.cell_at(gx, gy) == gprev.cell_at(gx, gy));
                            assert(!(gx - xi == i && gy - yi == j));
                            assert(scan_before(gx - xi, gy - yi, j, i + 1) == scan_before(
                                gx - xi,
                                gy - yi,
                                j,
                                i,
                            ));
                        }
                    }
                }
            }
            proof {
                lemma_scan_row_step(g0, x as int, y as int, sub@, sub_y as int);
                assert forall|gx: int, gy: int| self@.in_bounds(gx, gy) implies
                    #[trigger] self@.cell_at(gx, gy) == spec_partly_overlaid_cell(
                    g0,
                    x as int,
                    y as int,
                    sub@,
                    sub_y as int + 1,
                    0,
                    gx,
                    gy,
                ) by {
                    assert(self@.cell_at(gx, gy) == spec_partly_overlaid_cell(
                        g0,
                        x as int,
                        y as int,
                        sub@,
                        sub_y as int,
                        sub@.cols,
                        gx,
                        gy,
                    ));
                    assert(scan_before(gx - x, gy - y, sub_y as int, sub@.cols) == scan_before(
                        gx - x,
                        gy - y,
                        sub_y as int + 1,
                        0,
                    ) || !sub@.in_bounds(gx - x, gy - y));
                }
            }
        }
        proof {
            lemma_scan_complete(g0, x as int, y as int, sub@);
            assert forall|gx: int, gy: int| self@.in_bounds(gx, gy) implies
                #[trigger] self@.cell_at(gx, gy) == spec_overlaid_cell(
                g0,
                x as int,
                y as int,
                sub@,
                gx,
                gy,
            ) by {
                assert(self@.cell_at(gx, gy) == spec_partly_overlaid_cell(
                    g0,
                    x as int,
                    y as int,
                    sub@,
                    sub@.rows,
                    0,
                    gx,
                    gy,
                ));
            }
        }
        result
    }

    /// Whether every cell of row `y` is non-empty.
    pub fn is_row_filled(&self, y: usize) -> (r: bool)
        requires
            self@.wf(),
            0 <= y < self@.rows,
        ensures
            r == spec_row_filled(self@, y as int),
    {
        let cols = self.num_cols();
        for x in 0..cols
            invariant
                self@.wf(),
                y < self@.rows,
                cols == self@.cols,
                forall|xx: int|
                    0 <= xx < x ==> !(#[trigger] self@.cell_at(xx, y as int)).spec_is_empty(),
        {
            if self.cell(x, y).is_empty() {
                return false;
            }
        }
        true
    }

    /// Number of fully-filled rows.
    pub fn num_filled_rows(&self) -> (n: usize)
        requires
            self@.wf(),
        ensures
            n == spec_num_filled(self@),
    {
        let mut n: usize = 0;
        let rows = self.num_rows();
        for y in 0..rows
            invariant
                self@.wf(),
                rows == self@.rows,
                n == spec_num_filled_below(self@, y as int),
                n <= y,
        {
            if self.is_row_filled(y) {
                n += 1;
            }
        }
        n
    }

    /// Copy row `src_y` onto row `dst_y`; when a placeholder is given, the
    /// source row is then filled with it.
    pub fn move_row(&mut self, src_y: usize, dst_y: usize, placeholder: Option<C>)
        requires
            old(self)@.wf(),
            src_y < old(self)@.rows,
            dst_y < old(self)@.rows,
        ensures
            final(self)@.wf(),
            final(self)@.rows == old(self)@.rows,
            final(self)@.cols == old(self)@.cols,
            forall|xx: int|
                0 <= xx < final(self)@.cols ==> #[trigger] final(self)@.cell_at(xx, dst_y as int)
                    == if src_y == dst_y && placeholder is Some {
                    placeholder->0
                } else {
                    old(self)@.cell_at(xx, src_y as int)
                },
            placeholder is Some && src_y != dst_y ==> forall|xx: int|
                0 <= xx < final(self)@.cols ==> #[trigger] final(self)@.cell_at(xx, src_y as int)
                    == placeholder->0,
            placeholder is None && src_y != dst_y ==> forall|xx: int|
                0 <= xx < final(self)@.cols ==> #[trigger] final(self)@.cell_at(xx, src_y as int)
                    == old(self)@.cell_at(xx, src_y as int),
            forall|xx: int, yy: int|
                final(self)@.in_bounds(xx, yy) && yy != src_y && yy != dst_y
                    ==> #[trigger] final(self)@.cell_at(xx, yy) == old(self)@.cell_at(xx, yy),
    {
        let cols = self.num_cols();
        for x in 0..cols
            invariant
                self@.wf(),
                self@.rows == old(self)@.rows,
                self@.cols == old(self)@.cols,
                cols == self@.cols,
                src_y < self@.rows,
                dst_y < self@.rows,
                forall|xx: int|
                    0 <= xx < x ==> #[trigger] self@.cell_at(xx, dst_y as int) == if src_y == dst_y
                        && placeholder is Some {
                        placeholder->0
                    } else {
                        old(self)@.cell_at(xx, src_y as int)
                    },
                placeholder is Some && src_y != dst_y ==> forall|xx: int|
                    0 <= xx < x ==> #[trigger] self@.cell_at(xx, src_y as int) == placeholder->0,
                placeholder is None && src_y != dst_y ==> forall|xx: int|
                    0 <= xx < x ==> #[trigger] self@.cell_at(xx, src_y as int) == old(
                        self,
                    )@.cell_at(xx, src_y as int),
                forall|xx: int|
                    x <= xx < cols ==> #[trigger] self@.cell_at(xx, src_y as int) == old(
                        self,
                    )@.cell_at(xx, src_y as int),
                forall|xx: int|
                    x <= xx < cols ==> #[trigger] self@.cell_at(xx, dst_y as int) == old(
                        self,
                    )@.cell_at(xx, dst_y as int),
                forall|xx: int, yy: int|
                    self@.in_bounds(xx, yy) && yy != src_y && yy != dst_y
                        ==> #[trigger] self@.cell_at(xx, yy) == old(self)@.cell_at(xx, yy),
        {
            let c = self.cell(x, src_y);
            self.set_cell(x, dst_y, c);
            if let Some(p) = placeholder {
                self.set_cell(x, src_y, p);
            }
        }
    }

    /// Replace every cell by what `cb` maps it to.
    pub fn map<F: Fn(C) -> C>(&mut self, cb: F)
        requires
            old(self)@.wf(),
            forall|c: C| #[trigger] call_requires(cb, (c,)),
        ensures
            final(self)@.wf(),
            final(self)@.rows == old(self)@.rows,
            final(self)@.cols == old(self)@.cols,
            forall|x: int, y: int|
                final(self)@.in_bounds(x, y) ==> call_ensures(
                    cb,
                    (old(self)@.cell_at(x, y),),
                    #[trigger] final(self)@.cell_at(x, y),
                ),
    {
        let rows = self.num_rows();
        let cols = self.num_cols();
        for y in 0..rows
            invariant
                self@.wf(),
                self@.rows == old(self)@.rows,
                self@.cols == old(self)@.cols,
                rows == self@.rows,
                cols == self@.cols,
                forall|c: C| #[trigger] call_requires(cb, (c,)),
                forall|xx: int, yy: int|
                    self@.in_bounds(xx, yy) && yy < y ==> call_ensures(
                        cb,
                        (old(self)@.cell_at(xx, yy),),
                        #[trigger] self@.cell_at(xx, yy),
                    ),
                forall|xx: int, yy: int|
                    self@.in_bounds(xx, yy) && yy >= y ==> #[trigger] self@.cell_at(xx, yy) == old(
                        self,
                    )@.cell_at(xx, yy),
        {
            for x in 0..cols
                invariant
                    self@.wf(),
                    self@.rows == old(self)@.rows,
                    self@.cols == old(self)@.cols,
                    rows == self@.rows,
                    cols == self@.cols,
                    y < rows,
                    forall|c: C| #[trigger] call_requires(cb, (c,)),
                    forall|xx: int, yy: int|
                        self@.in_bounds(xx, yy) && (yy < y || (yy == y && xx < x))
                            ==> call_ensures(
                            cb,
                            (old(self)@.cell_at(xx, yy),),
                            #[trigger] self@.cell_at(xx, yy),
                        ),
                    forall|xx: int, yy: int|
                        self@.in_bounds(xx, yy) && (yy > y || (yy == y && xx >= x))
                            ==> #[trigger] self@.cell_at(xx, yy) == old(self)@.cell_at(xx, yy),
            {
                let c = self.cell(x, y);
                self.set_cell(x, y, cb(c));
            }
        }
    }

    /// Count of fully-empty rows at the bottom of the grid.
    pub fn bottom_padding(&self) -> (r: usize)
        requires
            self@.wf(),
        ensures
            r == spec_bottom_padding(self@),
            0 <= r <= self@.rows,
            forall|yy: int| 0 <= yy < r ==> spec_row_empty(self@, yy),
            r < self@.rows ==> !spec_row_empty(self@, r as int),
    {
        let rows = self.num_rows();
        let cols = self.num_cols();
        for n in 0..rows
            invariant
                self@.wf(),
                rows == self@.rows,
                cols == self@.cols,
                forall|yy: int| 0 <= yy < n ==> spec_row_empty(self@, yy),
                spec_bottom_padding(self@) == spec_bottom_padding_from(self@, n as int),
        {
            let y = n;
            for x in 0..cols
                invariant
                    self@.wf(),
                    rows == self@.rows,
                    cols == self@.cols,
                    y == n < rows,
                    forall|yy: int| 0 <= yy < n ==> spec_row_empty(self@, yy),
                    spec_bottom_padding(self@) == spec_bottom_padding_from(self@, n as int),
                    forall|xx: int|
                        0 <= xx < x ==> (#[trigger] self@.cell_at(xx, y as int)).spec_is_empty(),
            {
                if !self.cell(x, y).is_empty() {
                    return n;
                }
            }
        }
        rows
    }

    /// Count of fully-empty rows at the top of the grid.
    pub fn top_padding(&self) -> (r: usize)
        requires
            self@.wf(),
        ensures
            r == spec_top_padding(self@),
            0 <= r <= self@.rows,
            forall|yy: int| self@.rows - r <= yy < self@.rows ==> spec_row_empty(self@, yy),
            r < self@.rows ==> !spec_row_empty(self@, self@.rows - 1 - r),
    {
        let rows = self.num_rows();
        let cols = self.num_cols();
        for n in 0..rows
            invariant
                self@.wf(),
                rows == self@.rows,
                cols == self@.cols,
                forall|nn: int| 0 <= nn < n ==> #[trigger] spec_row_empty(self@, self@.rows - 1 - nn),
                spec_top_padding(self@) == spec_top_padding_from(self@, n as int),
        {
            let y = rows - n - 1;
            for x in 0..cols
                invariant
                    self@.wf(),
                    rows == self@.rows,
                    cols == self@.cols,
                    n < rows,
                    y == rows - n - 1,
                    forall|nn: int|
                        0 <= nn < n ==> #[trigger] spec_row_empty(self@, self@.rows - 1 - nn),
                    spec_top_padding(self@) == spec_top_padding_from(self@, n as int),
                    forall|xx: int|
                        0 <= xx < x ==> (#[trigger] self@.cell_at(xx, y as int)).spec_is_empty(),
            {
                if !self.cell(x, y).is_empty() {
                    proof {
                        assert forall|yy: int| self@.rows - n <= yy < self@.rows implies
                            spec_row_empty(self@, yy) by {
                            assert(spec_row_empty(self@, self@.rows - 1 - (self@.rows - 1 - yy)));
                        }
                    }
                    return n;
                }
            }
        }
        proof {
            assert forall|yy: int| 0 <= yy < self@.rows implies spec_row_empty(self@, yy) by {
                assert(spec_row_empty(self@, self@.rows - 1 - (self@.rows - 1 - yy)));
            }
        }
        rows
    }

    /// Remove every fully-filled row, compact the remaining rows
    /// downward, and, when a placeholder is given, fill the vacated top
    /// rows with it.  Returns the number of rows removed.
    #[verifier::rlimit(60)]
    pub fn pluck_filled_rows(&mut self, placeholder: Option<C>) -> (n: usize)
        requires
            old(self)@.wf(),
        ensures
            final(self)@.wf(),
            final(self)@.rows == old(self)@.rows,
            final(self)@.cols == old(self)@.cols,
            n == spec_num_filled(old(self)@),
            0 <= n <= old(self)@.rows,
            forall|u: int, xx: int|
                0 <= u < old(self)@.rows && !spec_row_filled(old(self)@, u) && 0 <= xx < old(
                    self,
                )@.cols ==> final(self)@.cell_at(xx, u - spec_num_filled_below(old(self)@, u))
                    == #[trigger] old(self)@.cell_at(xx, u),
            placeholder is Some ==> forall|xx: int, yy: int|
                0 <= xx < final(self)@.cols && old(self)@.rows - n <= yy < old(self)@.rows
                    ==> #[trigger] final(self)@.cell_at(xx, yy) == placeholder->0,
            placeholder is None ==> forall|xx: int, yy: int|
                0 <= xx < final(self)@.cols && old(self)@.rows - n <= yy < old(self)@.rows
                    ==> #[trigger] final(self)@.cell_at(xx, yy) == old(self)@.cell_at(xx, yy),
    {
        let ghost g0 = old(self)@;
        let mut n: usize = 0;
        let rows = self.num_rows();
        for y in 0..rows
            invariant
                self@.wf(),
                self@.rows == g0.rows,
                self@.cols == g0.cols,
                g0.wf(),
                rows == g0.rows,
                n == spec_num_filled_below(g0, y as int),
                n <= y,
                forall|xx: int, yy: int|
                    self@.in_bounds(xx, yy) && y - n <= yy ==> #[trigger] self@.cell_at(xx, yy)
                        == g0.cell_at(xx, yy),
                forall|u: int, xx: int|
                    0 <= u < y && !spec_row_filled(g0, u) && 0 <= xx < g0.cols
                        ==> self@.cell_at(xx, u - spec_num_filled_below(g0, u))
                        == #[trigger] g0.cell_at(xx, u),
        {
            proof {
                assert forall|xx: int| 0 <= xx < g0.cols implies self@.cell_at(xx, y as int)
                    == g0.cell_at(xx, y as int) by {}
                assert(spec_row_filled(self@, y as int) == spec_row_filled(g0, y as int)) by {
                    if spec_row_filled(self@, y as int) {
                        assert forall|xx: int| 0 <= xx < g0.cols implies !(
                        #[trigger] g0.cell_at(xx, y as int)).spec_is_empty() by {
                            assert(!self@.cell_at(xx, y as int).spec_is_empty());
                        }
                    }
                    if spec_row_filled(g0, y as int) {
                        assert forall|xx: int| 0 <= xx < self@.cols implies !(
                        #[trigger] self@.cell_at(xx, y as int)).spec_is_empty() by {
                            assert(!g0.cell_at(xx, y as int).spec_is_empty());
                        }
                    }
                }
            }
            if self.is_row_filled(y) {
                n += 1;
            } else {
                if n > 0 {
                    let ghost pre = self@;
                    self.move_row(y, y - n, None);
                    proof {
                        assert forall|u: int, xx: int|
                            0 <= u < y + 1 && !spec_row_filled(g0, u) && 0 <= xx < g0.cols implies
                            self@.cell_at(xx, u - spec_num_filled_below(g0, u))
                                == #[trigger] g0.cell_at(xx, u) by {
                            if u < y {
                                lemma_unfilled_position_mono(g0, u, y as int);
                                lemma_num_filled_below_bounds(g0, u);
                                assert(u - spec_num_filled_below(g0, u) != y - n);
                                assert(u - spec_num_filled_below(g0, u) != y);
                                assert(self@.cell_at(xx, u - spec_num_filled_below(g0, u))
                                    == pre.cell_at(xx, u - spec_num_filled_below(g0, u)));
                            } else {
                                assert(self@.cell_at(xx, (y - n) as int) == pre.cell_at(
                                    xx,
                                    y as int,
                                ));
                            }
                        }
                    }
                }
            }
        }
        proof {
            lemma_num_filled_below_bounds(g0, g0.rows);
        }
        if let Some(c) = placeholder {
            let rows = self.num_rows();
            let ghost pre = self@;
            self.fill_rows(rows - n, rows, c);
            proof {
                assert forall|u: int, xx: int|
                    0 <= u < g0.rows && !spec_row_filled(g0, u) && 0 <= xx < g0.cols implies
                    self@.cell_at(xx, u - spec_num_filled_below(g0, u)) == #[trigger] g0.cell_at(
                    xx,
                    u,
                ) by {
                    lemma_num_filled_below_gap(g0, u, g0.rows);
                    lemma_num_filled_below_bounds(g0, u);
                    assert(u - spec_num_filled_below(g0, u) < g0.rows - n);
                    assert(self@.cell_at(xx, u - spec_num_filled_below(g0, u)) == pre.cell_at(
                        xx,
                        u - spec_num_filled_below(g0, u),
                    ));
                }
            }
        }
        n
    }

    /// Starting at offset `(x, y)` and stepping by `(dx, dy)`, find the
    /// first step count `k` at which `sub` no longer fits cleanly onto the
    /// grid, and return it together with the flags of that first
    /// collision.  A resting piece therefore reports `k == 0`.
    pub fn check_overlay_toward(&self, x: i32, y: i32, sub: &Grid<C>, dx: i32, dy: i32) -> (r: (
        usize,
        OverlayResult,
    ))
        requires
            self@.wf(),
            sub@.wf(),
            -1 <= dx <= 1,
            -1 <= dy <= 1,
            dx != 0 || dy != 0,
            spec_has_nonempty_cell(sub@),
            -0x4000_0000 <= x <= 0x4000_0000,
            -0x4000_0000 <= y <= 0x4000_0000,
            x + sub@.cols <= i32::MAX,
            y + sub@.rows <= i32::MAX,
            self@.cols + sub@.cols <= i32::MAX,
            self@.rows + sub@.rows <= i32::MAX,
        ensures
            forall|k: int|
                0 <= k < r.0 ==> #[trigger] spec_can_overlay_at_step(
                    self@,
                    x as int,
                    y as int,
                    sub@,
                    dx as int,
                    dy as int,
                    k,
                ),
            r.1 == spec_overlay_result(
                self@,
                x + (r.0 as int) * dx,
                y + (r.0 as int) * dy,
                sub@,
            ),
            !r.1.spec_is_empty(),
    {
        let mut n: usize = 0;
        let mut tx = x;
        let mut ty = y;
        loop
            invariant
                self@.wf(),
                sub@.wf(),
                -1 <= dx <= 1,
                -1 <= dy <= 1,
                dx != 0 || dy != 0,
                spec_has_nonempty_cell(sub@),
                self@.cols + sub@.cols <= i32::MAX,
                self@.rows + sub@.rows <= i32::MAX,
                -0x4000_0000 <= x <= 0x4000_0000,
                -0x4000_0000 <= y <= 0x4000_0000,
                tx == x + (n as int) * dx,
                ty == y + (n as int) * dy,
                tx + sub@.cols <= i32::MAX,
                ty + sub@.rows <= i32::MAX,
                n > 0 ==> -(sub@.cols) < tx - dx < self@.cols,
                n > 0 ==> -(sub@.rows) < ty - dy < self@.rows,
                forall|k: int|
                    0 <= k < n ==> #[trigger] spec_can_overlay_at_step(
                        self@,
                        x as int,
                        y as int,
                        sub@,
                        dx as int,
                        dy as int,
                        k,
                    ),
            decreases (if dy < 0 {
                ty + sub@.rows
            } else if dy > 0 {
                self@.rows - ty
            } else if dx < 0 {
                tx + sub@.cols
            } else {
                self@.cols - tx
            }),
        {
            let r = self.check_overlay(tx, ty, sub);
            if !r.is_empty() {
                return (n, r);
            }
            proof {
                let (iw, jw) = choose|iw: int, jw: int|
                    0 <= iw < sub@.cols && 0 <= jw < sub@.rows && !(
                    #[trigger] sub@.cell_at(iw, jw)).spec_is_empty();
                assert(!cell_overflows(self@, tx as int, ty as int, sub@, iw, jw));
                assert(self@.in_bounds(tx + iw, ty + jw));
                assert(-(sub@.cols) < tx < self@.cols);
                assert(-(sub@.rows) < ty < self@.rows);
                assert((n as int) * dx + dx == ((n + 1) as int) * dx) by (nonlinear_arith);
                assert((n as int) * dy + dy == ((n + 1) as int) * dy) by (nonlinear_arith);
            }
            proof {
                let ni = n as int;
                if dx == 1 {
                    assert(ni * 1 == ni) by (nonlinear_arith);
                    assert(ni < self@.cols + 0x4000_0000);
                } else if dx == -1 {
                    assert(ni * -1 == -ni) by (nonlinear_arith);
                    assert(ni < sub@.cols + 0x4000_0000);
                } else if dy == 1 {
                    assert(ni * 1 == ni) by (nonlinear_arith);
                    assert(ni < self@.rows + 0x4000_0000);
                } else {
                    assert(ni * -1 == -ni) by (nonlinear_arith);
                    assert(ni < sub@.rows + 0x4000_0000);
                }
                assert(ni + 1 <= usize::MAX);
            }
            let ghost prev_n = n as int;
            tx = tx + dx;
            ty = ty + dy;
            n = n + 1;
            proof {
                assert forall|k: int|
                    0 <= k < n implies #[trigger] spec_can_overlay_at_step(
                    self@,
                    x as int,
                    y as int,
                    sub@,
                    dx as int,
                    dy as int,
                    k,
                ) by {
                    if k == prev_n {
                        assert(x + k * dx == tx - dx);
                        assert(y + k * dy == ty - dy);
                    }
                }
            }
        }
    }

    /// The grid rotated a quarter turn counter-clockwise.
    pub fn rotate1(&self) -> (g: Grid<C>)
        requires
            self@.wf(),
        ensures
            g@.wf(),
            g@.rows == self@.cols,
            g@.cols == self@.rows,
            forall|u: int, v: int|
                g@.in_bounds(u, v) ==> #[trigger] g@.cell_at(u, v) == self@.cell_at(
                    self@.cols - 1 - v,
                    u,
                ),
    {
        let rows = self.num_rows();
        let cols = self.num_cols();
        proof {
            assert((cols as int) * (rows as int) == (rows as int) * (cols as int))
                by (nonlinear_arith);
        }
        let mut g = Grid::new(rows, cols, Vec::new());
        for y in 0..rows
            invariant
                self@.wf(),
                g@.wf(),
                g@.rows == cols,
                g@.cols == rows,
                rows == self@.rows,
                cols == self@.cols,
                forall|sx: int, sy: int|
                    0 <= sx < cols && 0 <= sy < y ==> g@.cell_at(sy, cols - 1 - sx)
                        == #[trigger] self@.cell_at(sx, sy),
        {
            for x in 0..cols
                invariant
                    self@.wf(),
                    g@.wf(),
                    g@.rows == cols,
                    g@.cols == rows,
                    rows == self@.rows,
                    cols == self@.cols,
                    y < rows,
                    forall|sx: int, sy: int|
                        0 <= sx < cols && 0 <= sy < y ==> g@.cell_at(sy, cols - 1 - sx)
                            == #[trigger] self@.cell_at(sx, sy),
                    forall|sx: int|
                        0 <= sx < x ==> g@.cell_at(y as int, cols - 1 - sx)
                            == #[trigger] self@.cell_at(sx, y as int),
            {
                let c = self.cell(x, y);
                g.set_cell(y, cols - 1 - x, c);
            }
        }
        proof {
            assert forall|u: int, v: int| g@.in_bounds(u, v) implies #[trigger] g@.cell_at(u, v)
                == self@.cell_at(self@.cols - 1 - v, u) by {
                assert(g@.cell_at(u, self@.cols - 1 - (self@.cols - 1 - v)) == self@.cell_at(
                    self@.cols - 1 - v,
                    u,
                ));
            }
        }
        g
    }

    /// The grid rotated a half turn.
    pub fn rotate2(&self) -> (g: Grid<C>)
        requires
            self@.wf(),
        ensures
            g@.wf(),
            g@.rows == self@.rows,
            g@.cols == self@.cols,
            forall|u: int, v: int|
                g@.in_bounds(u, v) ==> #[trigger] g@.cell_at(u, v) == self@.cell_at(
                    self@.cols - 1 - u,
                    self@.rows - 1 - v,
                ),
    {
        let rows = self.num_rows();
        let cols = self.num_cols();
        let mut g = Grid::new(cols, rows, Vec::new());
        for y in 0..rows
            invariant
                self@.wf(),
                g@.wf(),
                g@.rows == rows,
                g@.cols == cols,
                rows == self@.rows,
                cols == self@.cols,
                forall|sx: int, sy: int|
                    0 <= sx < cols && 0 <= sy < y ==> g@.cell_at(cols - 1 - sx, rows - 1 - sy)
                        == #[trigger] self@.cell_at(sx, sy),
        {
            for x in 0..cols
                invariant
                    self@.wf(),
                    g@.wf(),
                    g@.rows == rows,
                    g@.cols == cols,
                    rows == self@.rows,
                    cols == self@.cols,
                    y < rows,
                    forall|sx: int, sy: int|
                        0 <= sx < cols && 0 <= sy < y ==> g@.cell_at(cols - 1 - sx, rows - 1 - sy)
                            == #[trigger] self@.cell_at(sx, sy),
                    forall|sx: int|
                        0 <= sx < x ==> g@.cell_at(cols - 1 - sx, rows - 1 - y)
                            == #[trigger] self@.cell_at(sx, y as int),
            {
                let c = self.cell(x, y);
                g.set_cell(cols - 1 - x, rows - 1 - y, c);
            }
        }
        proof {
            assert forall|u: int, v: int| g@.in_bounds(u, v) implies #[trigger] g@.cell_at(u, v)
                == self@.cell_at(self@.cols - 1 - u, self@.rows - 1 - v) by {
                assert(g@.cell_at(
                    self@.cols - 1 - (self@.cols - 1 - u),
                    self@.rows - 1 - (self@.rows - 1 - v),
                ) == self@.cell_at(self@.cols - 1 - u, self@.rows - 1 - v));
            }
        }
        g
    }

    /// The grid rotated a quarter turn clockwise.
    pub fn rotate3(&self) -> (g: Grid<C>)
        requires
            self@.wf(),
        ensures
            g@.wf(),
            g@.rows == self@.cols,
            g@.cols == self@.rows,
            forall|u: int, v: int|
                g@.in_bounds(u, v) ==> #[trigger] g@.cell_at(u, v) == self@.cell_at(
                    v,
                    self@.rows - 1 - u,
                ),
    {
        let rows = self.num_rows();
        let cols = self.num_cols();
        proof {
            assert((cols as int) * (rows as int) == (rows as int) * (cols as int))
                by (nonlinear_arith);
        }
        let mut g = Grid::new(rows, cols, Vec::new());
        for y in 0..rows
            invariant
                self@.wf(),
                g@.wf(),
                g@.rows == cols,
                g@.cols == rows,
                rows == self@.rows,
                cols == self@.cols,
                forall|sx: int, sy: int|
                    0 <= sx < cols && 0 <= sy < y ==> g@.cell_at(rows - 1 - sy, sx)
                        == #[trigger] self@.cell_at(sx, sy),
        {
            for x in 0..cols
                invariant
                    self@.wf(),
                    g@.wf(),
                    g@.rows == cols,
                    g@.cols == rows,
                    rows == self@.rows,
                    cols == self@.cols,
                    y < rows,
                    forall|sx: int, sy: int|
                        0 <= sx < cols && 0 <= sy < y ==> g@.cell_at(rows - 1 - sy, sx)
                            == #[trigger] self@.cell_at(sx, sy),
                    forall|sx: int|
                        0 <= sx < x ==> g@.cell_at(rows - 1 - y, sx)
                            == #[trigger] self@.cell_at(sx, y as int),
            {
                let c = self.cell(x, y);
                g.set_cell(rows - 1 - y, x, c);
            }
        }
        proof {
            assert forall|u: int, v: int| g@.in_bounds(u, v) implies #[trigger] g@.cell_at(u, v)
                == self@.cell_at(v, self@.rows - 1 - u) by {
                assert(g@.cell_at(self@.rows - 1 - (self@.rows - 1 - u), v) == self@.cell_at(
                    v,
                    self@.rows - 1 - u,
                ));
            }
        }
        g
    }
}

/// A cell that renders as one character.
pub trait CellSymbol: Sized {
    /// The character the cell renders as.
    spec fn spec_symbol(&self) -> char;

    /// Render the cell as one character.
    fn symbol(&self) -> (r: char)
        ensures
            r == self.spec_symbol(),
    ;
}

impl CellSymbol for u8 {
    open spec fn spec_symbol(&self) -> char {
        if *self <= 9 {
            ((*self + 0x30) as char)
        } else {
            '?'
        }
    }

    fn symbol(&self) -> (r: char) {
        if *self <= 9 {
            (*self + 0x30) as char
        } else {
            '?'
        }
    }
}

/// Relies on String::push: appends one character at the end.
#[verifier::external_body]
fn push_char(s: &mut String, c: char)
    ensures
        final(s)@ == old(s)@.push(c),
{
    s.push(c);
}

/// Relies on String::push_str: appends the string slice at the end.
#[verifier::external_body]
fn push_str(s: &mut String, t: &str)
    ensures
        final(s)@ == old(s)@ + t@,
{
    s.push_str(t);
}

/// Options of [`GridFormatter`]: a prefix and suffix for each line, and
/// optional half-open column and row ranges restricting the printed
/// region.
#[derive(Debug, Clone, PartialEq)]
pub struct GridFormatOptions {
    pub str_begin_of_line: &'static str,
    pub str_end_of_line: &'static str,
    pub range_x: Option<(usize, usize)>,
    pub range_y: Option<(usize, usize)>,
}

impl Default for GridFormatOptions {
    /// No line decorations and the full grid.
    fn default() -> (r: GridFormatOptions)
        ensures
            r == (GridFormatOptions {
                str_begin_of_line: "",
                str_end_of_line: "",
                range_x: None,
                range_y: None,
            }),
    {
        GridFormatOptions {
            str_begin_of_line: "",
            str_end_of_line: "",
            range_x: None,
            range_y: None,
        }
    }
}

/// The characters of the cells `[x0, x)` of row `y`, left to right.
pub open spec fn spec_row_text<C: CellSymbol>(g: GridModel<C>, y: int, x0: int, x: int) -> Seq<
    char,
>
    decreases x - x0,
{
    if x <= x0 {
        Seq::empty()
    } else {
        spec_row_text(g, y, x0, x - 1).push(g.cell_at(x - 1, y).spec_symbol())
    }
}

/// The text of the rows `[y, ye)` of `g`, printed from the top row down,
/// each wrapped in the line decorations and ended with a newline.
pub open spec fn spec_grid_text<C: CellSymbol>(
    g: GridModel<C>,
    x0: int,
    x1: int,
    y: int,
    ye: int,
    bol: Seq<char>,
    eol: Seq<char>,
) -> Seq<char>
    decreases ye - y,
{
    if ye <= y {
        Seq::empty()
    } else {
        spec_grid_text(g, x0, x1, y + 1, ye, bol, eol) + bol + spec_row_text(g, y, x0, x1) + eol
            + seq!['\n']
    }
}

/// Formats a grid as text, one line per row from the top row down.
pub struct GridFormatter<C> {
    pub grid: Grid<C>,
    pub opts: GridFormatOptions,
}

impl<C: IsEmpty + CellSymbol + Copy> GridFormatter<C> {
    /// The formatted text: the selected rows from top to bottom, each as
    /// its selected cells' characters between the line decorations,
    /// followed by a newline.
    pub fn to_string(&self) -> (r: String)
        requires
            self.grid@.wf(),
            self.opts.range_x matches Some(rx) ==> rx.0 <= rx.1 <= self.grid@.cols,
            self.opts.range_y matches Some(ry) ==> ry.0 <= ry.1 <= self.grid@.rows,
        ensures
            ({
                let (x0, x1) = match self.opts.range_x {
                    Some(rx) => (rx.0 as int, rx.1 as int),
                    None => (0int, self.grid@.cols),
                };
                let (y0, y1) = match self.opts.range_y {
                    Some(ry) => (ry.0 as int, ry.1 as int),
                    None => (0int, self.grid@.rows),
                };
                r@ == spec_grid_text(
                    self.grid@,
                    x0,
                    x1,
                    y0,
                    y1,
                    self.opts.str_begin_of_line@,
                    self.opts.str_end_of_line@,
                )
            }),
    {
        let (x0, x1) = match self.opts.range_x {
            Some(rx) => rx,
            None => (0, self.grid.num_cols()),
        };
        let (y0, y1) = match self.opts.range_y {
            Some(ry) => ry,
            None => (0, self.grid.num_rows()),
        };
        let mut s = String::new();
        let mut y = y1;
        while y > y0
            invariant
                self.grid@.wf(),
                y0 <= y <= y1 <= self.grid@.rows,
                x0 <= x1 <= self.grid@.cols,
                s@ == spec_grid_text(
                    self.grid@,
                    x0 as int,
                    x1 as int,
                    y as int,
                    y1 as int,
                    self.opts.str_begin_of_line@,
                    self.opts.str_end_of_line@,
                ),
            decreases y - y0,
        {
            y = y - 1;
            push_str(&mut s, self.opts.str_begin_of_line);
            let mut x = x0;
            while x < x1
                invariant
                    self.grid@.wf(),
                    y0 <= y < y1 <= self.grid@.rows,
                    x0 <= x <= x1 <= self.grid@.cols,
                    s@ == spec_grid_text(
                        self.grid@,
                        x0 as int,
                        x1 as int,
                        y + 1,
                        y1 as int,
                        self.opts.str_begin_of_line@,
                        self.opts.str_end_of_line@,
                    ) + self.opts.str_begin_of_line@ + spec_row_text(
                        self.grid@,
                        y as int,
                        x0 as int,
                        x as int,
                    ),
                decreases x1 - x,
            {
                let c = self.grid.cell(x, y);
                push_char(&mut s, c.symbol());
                x = x + 1;
            }
            push_str(&mut s, self.opts.str_end_of_line);
            push_char(&mut s, '\n');
            proof {
                assert(s@ =~= spec_grid_text(
                    self.grid@,
                    x0 as int,
                    x1 as int,
                    y as int,
                    y1 as int,
                    self.opts.str_begin_of_line@,
                    self.opts.str_end_of_line@,
                ));
            }
        }
        s
    }
}

} // verus!
