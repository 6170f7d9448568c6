//! Layouts: grids of views packed into the available rectangle.
//!
//! Sizes are settled row by row. Each view gets the smaller of what it needs
//! and an equal share of the row; what the row has left over is then handed
//! out from left to right to views that need more. Views are placed left to
//! right, rows top to bottom, with the margin around each.

use vstd::prelude::*;
use crate::arena::{view_get, view_get_mut, PerspectiveMap, RegionMap, ViewMap};
use crate::keys::ViewKey;
use crate::perspective::grid_rows;
use crate::view::{
    div_rounding_to_zero, div_toward_zero, NamedView, ViewportRect, ViewportScalar, ViewportVec,
};

verus! {

/// A grid of views with a margin around each.
#[derive(Clone, Debug, PartialEq, Eq)]
pub struct Layout {
    pub name: String,
    /// Rows of view handles; rows may differ in length and may be empty.
    pub view_grid: Vec<Vec<ViewKey>>,
    /// Margin around views.
    pub margin: ViewportScalar,
}

/// Margin of a layout made with default settings.
pub fn default_margin() -> (m: ViewportScalar)
    ensures
        m == 6,
{
    6
}

/// Most rows of a layout, and most views of a row, that can be laid out.
pub const MAX_LAYOUT_SPAN: usize = 32767;

/// The rows of a grid as sequences.
pub open spec fn rows_of<T>(grid: Seq<Vec<T>>) -> Seq<Seq<T>> {
    Seq::new(grid.len(), |r: int| grid[r]@)
}

/// The cells of the first `rows` rows of a grid, row after row.
pub open spec fn cells_upto<T>(grid: Seq<Seq<T>>, rows: int) -> Seq<T>
    decreases rows,
{
    if rows <= 0 {
        Seq::empty()
    } else {
        cells_upto(grid, rows - 1) + grid[rows - 1]
    }
}

/// The smaller of two integers.
pub open spec fn lesser(a: int, b: int) -> int {
    if a <= b {
        a
    } else {
        b
    }
}

/// Whether `v` can be held in a screen scalar.
pub open spec fn fits_scalar(v: int) -> bool {
    i16::MIN <= v <= i16::MAX
}

/// What a side of `extent` pixels leaves for `n` items after a margin before
/// each item and one after the last.
pub open spec fn space_left(extent: int, margin: int, n: int) -> int {
    extent - margin * (n + 1)
}

/// The equal share of `avail` for each of `n` items.
pub open spec fn share(avail: int, n: int) -> int {
    div_toward_zero(avail, n)
}

/// Sum of the first `i` widths of a row when each view takes the smaller of
/// its need and `allowed`.
pub open spec fn base_sum(needed: Seq<ViewportVec>, allowed: int, i: int) -> int
    decreases i,
{
    if i <= 0 {
        0
    } else {
        base_sum(needed, allowed, i - 1) + lesser(needed[i - 1].x as int, allowed)
    }
}

/// What a view that needs `need` and holds the smaller of `need` and
/// `allowed` takes out of a leftover of `left`.
pub open spec fn top_up(need: int, allowed: int, left: int) -> int {
    if left < 0 {
        0
    } else {
        lesser(need - lesser(need, allowed), left)
    }
}

/// The leftover that reaches view `i` of a row, starting from `left` before
/// the first view.
pub open spec fn leftover_at(needed: Seq<ViewportVec>, allowed: int, left: int, i: int) -> int
    decreases i,
{
    if i <= 0 {
        left
    } else {
        let before = leftover_at(needed, allowed, left, i - 1);
        before - top_up(needed[i - 1].x as int, allowed, before)
    }
}

/// Width of view `i` in a row that has `avail` pixels for its views.
pub open spec fn view_width(needed: Seq<ViewportVec>, avail: int, i: int) -> int {
    let allowed = share(avail, needed.len() as int);
    let left = avail - base_sum(needed, allowed, needed.len() as int);
    lesser(needed[i].x as int, allowed) + top_up(
        needed[i].x as int,
        allowed,
        leftover_at(needed, allowed, left, i),
    )
}

/// Left edge of view `i` in a row that starts at `origin`.
pub open spec fn view_x(needed: Seq<ViewportVec>, avail: int, origin: int, margin: int, i: int) -> int
    decreases i,
{
    if i <= 0 {
        origin + margin
    } else {
        view_x(needed, avail, origin, margin, i - 1) + view_width(needed, avail, i - 1) + margin
    }
}

/// Height of the tallest of the first `i` views of a row, and zero for none,
/// when each takes the smaller of its need and `allowed`.
pub open spec fn row_height(needed: Seq<ViewportVec>, allowed: int, i: int) -> int
    decreases i,
{
    if i <= 0 {
        0
    } else {
        let rest = row_height(needed, allowed, i - 1);
        let h = lesser(needed[i - 1].y as int, allowed);
        if h > rest {
            h
        } else {
            rest
        }
    }
}

/// Top edge of row `r` in a grid that starts at `origin`.
pub open spec fn row_y(
    grid: Seq<Seq<ViewportVec>>,
    allowed: int,
    origin: int,
    margin: int,
    r: int,
) -> int
    decreases r,
{
    if r <= 0 {
        origin + margin
    } else {
        row_y(grid, allowed, origin, margin, r - 1) + row_height(
            grid[r - 1],
            allowed,
            grid[r - 1].len() as int,
        ) + margin
    }
}

/// Height that every row may take in `rect`.
pub open spec fn allowed_height(grid: Seq<Seq<ViewportVec>>, margin: int, rect: ViewportRect) -> int {
    share(space_left(rect.h as int, margin, grid.len() as int), grid.len() as int)
}

/// Width given to the view at row `r`, column `c`.
pub open spec fn laid_w(
    grid: Seq<Seq<ViewportVec>>,
    margin: int,
    rect: ViewportRect,
    r: int,
    c: int,
) -> int {
    view_width(grid[r], space_left(rect.w as int, margin, grid[r].len() as int), c)
}

/// Height given to the view at row `r`, column `c`.
pub open spec fn laid_h(
    grid: Seq<Seq<ViewportVec>>,
    margin: int,
    rect: ViewportRect,
    r: int,
    c: int,
) -> int {
    lesser(grid[r][c].y as int, allowed_height(grid, margin, rect))
}

/// Left edge given to the view at row `r`, column `c`.
pub open spec fn laid_x(
    grid: Seq<Seq<ViewportVec>>,
    margin: int,
    rect: ViewportRect,
    r: int,
    c: int,
) -> int {
    view_x(
        grid[r],
        space_left(rect.w as int, margin, grid[r].len() as int),
        rect.x as int,
        margin,
        c,
    )
}

/// Top edge given to the views of row `r`.
pub open spec fn laid_y(grid: Seq<Seq<ViewportVec>>, margin: int, rect: ViewportRect, r: int) -> int {
    row_y(grid, allowed_height(grid, margin, rect), rect.y as int, margin, r)
}

/// Whether the rectangle of the view at row `r`, column `c` can be held in
/// screen scalars.
pub open spec fn cell_fits(
    grid: Seq<Seq<ViewportVec>>,
    margin: int,
    rect: ViewportRect,
    r: int,
    c: int,
) -> bool {
    &&& fits_scalar(laid_x(grid, margin, rect, r, c))
    &&& fits_scalar(laid_y(grid, margin, rect, r))
    &&& fits_scalar(laid_w(grid, margin, rect, r, c))
    &&& fits_scalar(laid_h(grid, margin, rect, r, c))
}

/// Whether the grid can be laid out: it is not too large and every
/// rectangle can be held in screen scalars.
pub open spec fn placeable(grid: Seq<Seq<ViewportVec>>, margin: int, rect: ViewportRect) -> bool {
    &&& grid.len() <= MAX_LAYOUT_SPAN
    &&& forall|r: int| 0 <= r < grid.len() ==> (#[trigger] grid[r]).len() <= MAX_LAYOUT_SPAN
    &&& forall|r: int, c: int|
        0 <= r < grid.len() && 0 <= c < grid[r].len() ==> #[trigger] cell_fits(
            grid,
            margin,
            rect,
            r,
            c,
        )
}

/// Whether `out` holds the rectangles that the layout gives to the views of
/// `grid`.
pub open spec fn is_layout_of(
    out: Seq<Seq<ViewportRect>>,
    grid: Seq<Seq<ViewportVec>>,
    margin: int,
    rect: ViewportRect,
) -> bool {
    &&& out.len() == grid.len()
    &&& forall|r: int| 0 <= r < grid.len() ==> (#[trigger] out[r]).len() == grid[r].len()
    &&& forall|r: int, c: int|
        0 <= r < grid.len() && 0 <= c < grid[r].len() ==> {
            &&& (#[trigger] out[r][c]).x == laid_x(grid, margin, rect, r, c)
            &&& out[r][c].y == laid_y(grid, margin, rect, r)
            &&& out[r][c].w == laid_w(grid, margin, rect, r, c)
            &&& out[r][c].h == laid_h(grid, margin, rect, r, c)
        }
}

/// The rectangle has room for the grid: the margin is not negative, the
/// margins alone fit in the rectangle on both axes, and no view needs a
/// negative size.
pub open spec fn roomy(grid: Seq<Seq<ViewportVec>>, margin: int, rect: ViewportRect) -> bool {
    &&& margin >= 0
    &&& space_left(rect.h as int, margin, grid.len() as int) >= 0
    &&& forall|r: int|
        0 <= r < grid.len() ==> space_left(rect.w as int, margin, (#[trigger] grid[r]).len() as int)
            >= 0
    &&& forall|r: int, c: int|
        0 <= r < grid.len() && 0 <= c < grid[r].len() ==> (#[trigger] grid[r][c]).x >= 0
            && grid[r][c].y >= 0
}

proof fn lemma_share_bounds(avail: int, n: int)
    requires
        avail >= 0,
        n >= 1,
    ensures
        0 <= share(avail, n),
        n * share(avail, n) <= avail,
{
    vstd::arithmetic::div_mod::lemma_fundamental_div_mod(avail, n);
    vstd::arithmetic::div_mod::lemma_mod_bound(avail, n);
    vstd::arithmetic::div_mod::lemma_div_pos_is_pos(avail, n);
}

proof fn lemma_base_sum_bounds(needed: Seq<ViewportVec>, allowed: int, i: int)
    requires
        allowed >= 0,
        0 <= i <= needed.len(),
        forall|j: int| 0 <= j < needed.len() ==> (#[trigger] needed[j]).x >= 0,
    ensures
        0 <= base_sum(needed, allowed, i) <= i * allowed,
    decreases i,
{
    if i > 0 {
        lemma_base_sum_bounds(needed, allowed, i - 1);
        assert(needed[i - 1].x >= 0);
        assert(i * allowed == (i - 1) * allowed + allowed) by (nonlinear_arith);
    } else {
        assert(i * allowed == 0) by (nonlinear_arith)
            requires
                i == 0,
        ;
    }
}

proof fn lemma_base_sum_grows(needed: Seq<ViewportVec>, allowed: int, i: int, k: int)
    requires
        allowed >= 0,
        0 <= i <= k <= needed.len(),
        forall|j: int| 0 <= j < needed.len() ==> (#[trigger] needed[j]).x >= 0,
    ensures
        base_sum(needed, allowed, i) <= base_sum(needed, allowed, k),
    decreases k - i,
{
    if i < k {
        lemma_base_sum_grows(needed, allowed, i, k - 1);
        assert(needed[k - 1].x >= 0);
    }
}

proof fn lemma_leftover_bounds(needed: Seq<ViewportVec>, allowed: int, left: int, i: int)
    requires
        left >= 0,
        0 <= i <= needed.len(),
    ensures
        0 <= leftover_at(needed, allowed, left, i) <= left,
    decreases i,
{
    if i > 0 {
        lemma_leftover_bounds(needed, allowed, left, i - 1);
    }
}

/// Left edge of view `i` as a sum: the origin, the margins before it, the
/// base widths before it and what the views before it took of the leftover.
proof fn lemma_view_x_as_sum(needed: Seq<ViewportVec>, avail: int, origin: int, margin: int, i: int)
    requires
        0 <= i <= needed.len(),
    ensures
        ({
            let allowed = share(avail, needed.len() as int);
            let left = avail - base_sum(needed, allowed, needed.len() as int);
            view_x(needed, avail, origin, margin, i) == origin + margin * (i + 1) + base_sum(
                needed,
                allowed,
                i,
            ) + left - leftover_at(needed, allowed, left, i)
        }),
    decreases i,
{
    if i > 0 {
        lemma_view_x_as_sum(needed, avail, origin, margin, i - 1);
        assert(margin * (i + 1) == margin * i + margin) by (nonlinear_arith);
    } else {
        assert(margin * (i + 1) == margin) by (nonlinear_arith)
            requires
                i == 0,
        ;
    }
}

/// In a row with room, every view has a width that is not negative, starts
/// at or after the origin plus the margin, and ends a margin before the end
/// of the row at the latest.
proof fn lemma_row_inside(needed: Seq<ViewportVec>, extent: int, origin: int, margin: int, i: int)
    requires
        margin >= 0,
        0 <= i < needed.len(),
        space_left(extent, margin, needed.len() as int) >= 0,
        forall|j: int| 0 <= j < needed.len() ==> (#[trigger] needed[j]).x >= 0,
    ensures
        ({
            let avail = space_left(extent, margin, needed.len() as int);
            &&& view_width(needed, avail, i) >= 0
            &&& view_x(needed, avail, origin, margin, i) >= origin + margin
            &&& view_x(needed, avail, origin, margin, i) + view_width(needed, avail, i) <= origin
                + extent - margin
        }),
{
    let n = needed.len() as int;
    let avail = space_left(extent, margin, n);
    let allowed = share(avail, n);
    let left = avail - base_sum(needed, allowed, n);
    lemma_share_bounds(avail, n);
    lemma_base_sum_bounds(needed, allowed, n);
    lemma_base_sum_bounds(needed, allowed, i);
    lemma_base_sum_grows(needed, allowed, i + 1, n);
    lemma_leftover_bounds(needed, allowed, left, i);
    lemma_leftover_bounds(needed, allowed, left, i + 1);
    lemma_view_x_as_sum(needed, avail, origin, margin, i);
    lemma_view_x_as_sum(needed, avail, origin, margin, i + 1);
    assert(needed[i].x >= 0);
    assert(margin * (i + 1) >= margin && margin * (i + 1) <= margin * n && margin * (n + 1)
        == margin * n + margin && margin * (i + 1 + 1) == margin * (i + 1) + margin)
        by (nonlinear_arith)
        requires
            margin >= 0,
            0 <= i < n,
    ;
    assert(view_x(needed, avail, origin, margin, i + 1) == view_x(needed, avail, origin, margin, i)
        + view_width(needed, avail, i) + margin);
}

proof fn lemma_row_height_bounds(needed: Seq<ViewportVec>, allowed: int, k: int, j: int)
    requires
        0 <= j < k <= needed.len(),
        allowed >= 0,
    ensures
        0 <= row_height(needed, allowed, k) <= allowed,
        lesser(needed[j].y as int, allowed) <= row_height(needed, allowed, k),
    decreases k,
{
    if k - 1 > j {
        lemma_row_height_bounds(needed, allowed, k - 1, j);
    } else {
        lemma_row_height_range(needed, allowed, k - 1);
    }
}

proof fn lemma_row_height_range(needed: Seq<ViewportVec>, allowed: int, k: int)
    requires
        0 <= k <= needed.len(),
        allowed >= 0,
    ensures
        0 <= row_height(needed, allowed, k) <= allowed,
    decreases k,
{
    if k > 0 {
        lemma_row_height_range(needed, allowed, k - 1);
    }
}

proof fn lemma_row_y_bounds(grid: Seq<Seq<ViewportVec>>, allowed: int, origin: int, margin: int, r: int)
    requires
        0 <= r <= grid.len(),
        allowed >= 0,
        margin >= 0,
    ensures
        origin + margin <= row_y(grid, allowed, origin, margin, r) <= origin + margin + r * (margin
            + allowed),
    decreases r,
{
    if r > 0 {
        lemma_row_y_bounds(grid, allowed, origin, margin, r - 1);
        lemma_row_height_range(grid[r - 1], allowed, grid[r - 1].len() as int);
        assert(r * (margin + allowed) == (r - 1) * (margin + allowed) + (margin + allowed))
            by (nonlinear_arith);
    } else {
        assert(r * (margin + allowed) == 0) by (nonlinear_arith)
            requires
                r == 0,
        ;
    }
}

proof fn lemma_row_y_grows(
    grid: Seq<Seq<ViewportVec>>,
    allowed: int,
    origin: int,
    margin: int,
    r1: int,
    r2: int,
)
    requires
        0 <= r1 <= r2 <= grid.len(),
        allowed >= 0,
        margin >= 0,
    ensures
        row_y(grid, allowed, origin, margin, r1) <= row_y(grid, allowed, origin, margin, r2),
    decreases r2 - r1,
{
    if r1 < r2 {
        lemma_row_y_grows(grid, allowed, origin, margin, r1, r2 - 1);
        lemma_row_height_range(grid[r2 - 1], allowed, grid[r2 - 1].len() as int);
    }
}

proof fn lemma_view_x_grows(
    needed: Seq<ViewportVec>,
    extent: int,
    origin: int,
    margin: int,
    c1: int,
    c2: int,
)
    requires
        margin >= 0,
        0 <= c1 <= c2 < needed.len(),
        space_left(extent, margin, needed.len() as int) >= 0,
        forall|j: int| 0 <= j < needed.len() ==> (#[trigger] needed[j]).x >= 0,
    ensures
        ({
            let avail = space_left(extent, margin, needed.len() as int);
            view_x(needed, avail, origin, margin, c1) <= view_x(needed, avail, origin, margin, c2)
        }),
    decreases c2 - c1,
{
    if c1 < c2 {
        lemma_view_x_grows(needed, extent, origin, margin, c1, c2 - 1);
        lemma_row_inside(needed, extent, origin, margin, c2 - 1);
    }
}

/// Every view that the layout places lies inside the available rectangle
/// and has a size that is not negative, when the rectangle has room for the
/// grid.
pub proof fn lemma_layout_inside(
    grid: Seq<Seq<ViewportVec>>,
    margin: int,
    rect: ViewportRect,
    r: int,
    c: int,
)
    requires
        roomy(grid, margin, rect),
        0 <= r < grid.len(),
        0 <= c < grid[r].len(),
    ensures
        laid_w(grid, margin, rect, r, c) >= 0,
        laid_h(grid, margin, rect, r, c) >= 0,
        rect.x <= laid_x(grid, margin, rect, r, c),
        rect.y <= laid_y(grid, margin, rect, r),
        laid_x(grid, margin, rect, r, c) + laid_w(grid, margin, rect, r, c) <= rect.x + rect.w,
        laid_y(grid, margin, rect, r) + laid_h(grid, margin, rect, r, c) <= rect.y + rect.h,
{
    let rows = grid.len() as int;
    let space = space_left(rect.h as int, margin, rows);
    let allowed = allowed_height(grid, margin, rect);
    assert(space_left(rect.w as int, margin, grid[r].len() as int) >= 0);
    assert forall|j: int| 0 <= j < grid[r].len() implies (#[trigger] grid[r][j]).x >= 0 by {}
    lemma_row_inside(grid[r], rect.w as int, rect.x as int, margin, c);
    lemma_share_bounds(space, rows);
    lemma_row_y_bounds(grid, allowed, rect.y as int, margin, r);
    assert(grid[r][c].y >= 0);
    assert((r + 1) * (margin + allowed) <= rows * (margin + allowed) && (r + 1) * (margin + allowed)
        == r * (margin + allowed) + margin + allowed && rows * (margin + allowed) == margin * rows
        + rows * allowed && margin * (rows + 1) == margin * rows + margin) by (nonlinear_arith)
        requires
            0 <= r < rows,
            margin + allowed >= 0,
    ;
}

/// Two views of one row do not overlap: the one to the left ends where the
/// other begins or before, when the rectangle has room for the grid.
pub proof fn lemma_row_views_disjoint(
    grid: Seq<Seq<ViewportVec>>,
    margin: int,
    rect: ViewportRect,
    r: int,
    c1: int,
    c2: int,
)
    requires
        roomy(grid, margin, rect),
        0 <= r < grid.len(),
        0 <= c1 < c2 < grid[r].len(),
    ensures
        laid_x(grid, margin, rect, r, c1) + laid_w(grid, margin, rect, r, c1) <= laid_x(
            grid,
            margin,
            rect,
            r,
            c2,
        ),
{
    assert(space_left(rect.w as int, margin, grid[r].len() as int) >= 0);
    assert forall|j: int| 0 <= j < grid[r].len() implies (#[trigger] grid[r][j]).x >= 0 by {}
    lemma_view_x_grows(grid[r], rect.w as int, rect.x as int, margin, c1 + 1, c2);
}

/// Views of two rows do not overlap: every view of the upper row ends where
/// the lower row begins or before, when the rectangle has room for the grid.
pub proof fn lemma_rows_disjoint(
    grid: Seq<Seq<ViewportVec>>,
    margin: int,
    rect: ViewportRect,
    r1: int,
    c1: int,
    r2: int,
)
    requires
        roomy(grid, margin, rect),
        0 <= r1 < r2 < grid.len(),
        0 <= c1 < grid[r1].len(),
    ensures
        laid_y(grid, margin, rect, r1) + laid_h(grid, margin, rect, r1, c1) <= laid_y(
            grid,
            margin,
            rect,
            r2,
        ),
{
    let rows = grid.len() as int;
    let allowed = allowed_height(grid, margin, rect);
    lemma_share_bounds(space_left(rect.h as int, margin, rows), rows);
    lemma_row_height_bounds(grid[r1], allowed, grid[r1].len() as int, c1);
    lemma_row_y_grows(grid, allowed, rect.y as int, margin, r1 + 1, r2);
}

/// Place of the cell at row `r`, column `c` among the cells taken row
/// after row.
pub open spec fn flat_index<T>(grid: Seq<Seq<T>>, r: int, c: int) -> int {
    cells_upto(grid, r).len() + c
}

proof fn lemma_cells_grow<T>(grid: Seq<Seq<T>>, r1: int, r2: int)
    requires
        0 <= r1 <= r2 <= grid.len(),
    ensures
        cells_upto(grid, r1).len() <= cells_upto(grid, r2).len(),
        forall|i: int|
            0 <= i < cells_upto(grid, r1).len() ==> cells_upto(grid, r2)[i] == cells_upto(grid, r1)[i],
    decreases r2 - r1,
{
    if r1 < r2 {
        lemma_cells_grow(grid, r1, r2 - 1);
    }
}

/// Every cell of the grid stands at its place among the cells taken row
/// after row.
pub proof fn lemma_flat_cell<T>(grid: Seq<Seq<T>>, r: int, c: int)
    requires
        0 <= r < grid.len(),
        0 <= c < grid[r].len(),
    ensures
        0 <= flat_index(grid, r, c) < cells_upto(grid, grid.len() as int).len(),
        cells_upto(grid, grid.len() as int)[flat_index(grid, r, c)] == grid[r][c],
{
    lemma_cells_grow(grid, r + 1, grid.len() as int);
    assert(cells_upto(grid, r + 1) == cells_upto(grid, r) + grid[r]);
}

/// Every place among the cells taken row after row is the place of a cell
/// of the grid.
pub proof fn lemma_flat_locate<T>(grid: Seq<Seq<T>>, rows: int, i: int) -> (rc: (int, int))
    requires
        0 <= rows <= grid.len(),
        0 <= i < cells_upto(grid, rows).len(),
    ensures
        0 <= rc.0 < rows,
        0 <= rc.1 < grid[rc.0].len(),
        flat_index(grid, rc.0, rc.1) == i,
    decreases rows,
{
    if i >= cells_upto(grid, rows - 1).len() {
        (rows - 1, i - cells_upto(grid, rows - 1).len())
    } else {
        lemma_flat_locate(grid, rows - 1, i)
    }
}

/// Two cells of the grid that stand at the same place are the same cell.
pub proof fn lemma_flat_injective<T>(grid: Seq<Seq<T>>, r1: int, c1: int, r2: int, c2: int)
    requires
        0 <= r1 < grid.len(),
        0 <= c1 < grid[r1].len(),
        0 <= r2 < grid.len(),
        0 <= c2 < grid[r2].len(),
        flat_index(grid, r1, c1) == flat_index(grid, r2, c2),
    ensures
        r1 == r2,
        c1 == c2,
{
    if r1 < r2 {
        lemma_cells_grow(grid, r1 + 1, r2);
        assert(cells_upto(grid, r1 + 1) == cells_upto(grid, r1) + grid[r1]);
    } else if r2 < r1 {
        lemma_cells_grow(grid, r2 + 1, r1);
        assert(cells_upto(grid, r2 + 1) == cells_upto(grid, r2) + grid[r2]);
    }
}

/// The named view `nv` with its rectangle replaced by `rect`.
pub open spec fn with_rect(nv: NamedView, rect: ViewportRect) -> NamedView {
    NamedView { view: crate::view::View { viewport_rect: rect, ..nv.view }, ..nv }
}

/// Whether the views `after` are the views `before` with the layout
/// applied: every view of the grid has the rectangle that the layout gives
/// it for the sizes in `needed` and is otherwise as before, every other view
/// is as before, and no view was added or removed.
pub open spec fn is_laid_out(
    after: Map<ViewKey, NamedView>,
    before: Map<ViewKey, NamedView>,
    layout: Layout,
    needed: Seq<Seq<ViewportVec>>,
    rect: ViewportRect,
) -> bool {
    &&& after.dom() == before.dom()
    &&& forall|r: int, c: int|
        layout.in_grid(r, c) ==> {
            let k = #[trigger] layout.key_at(r, c);
            let given = after[k].view.viewport_rect;
            &&& after[k] == with_rect(before[k], given)
            &&& given.x == laid_x(needed, layout.margin as int, rect, r, c)
            &&& given.y == laid_y(needed, layout.margin as int, rect, r)
            &&& given.w == laid_w(needed, layout.margin as int, rect, r, c)
            &&& given.h == laid_h(needed, layout.margin as int, rect, r, c)
        }
    &&& forall|k: ViewKey|
        before.contains_key(k) && !layout.holds(k) ==> #[trigger] after[k] == before[k]
}

impl Layout {
    /// Whether `r`, `c` names a cell of the grid.
    pub open spec fn in_grid(&self, r: int, c: int) -> bool {
        0 <= r < self.view_grid@.len() && 0 <= c < self.view_grid@[r]@.len()
    }

    /// The handle in the cell at row `r`, column `c`.
    pub open spec fn key_at(&self, r: int, c: int) -> ViewKey {
        self.view_grid@[r]@[c]
    }

    /// All handles of the grid, row after row.
    pub open spec fn spec_keys(&self) -> Seq<ViewKey> {
        cells_upto(rows_of(self.view_grid@), self.view_grid@.len() as int)
    }

    /// Whether some cell of the grid holds `k`.
    pub open spec fn holds(&self, k: ViewKey) -> bool {
        exists|r: int, c: int| self.in_grid(r, c) && #[trigger] self.key_at(r, c) == k
    }

    /// No handle stands in two cells.
    pub open spec fn distinct(&self) -> bool {
        forall|r1: int, c1: int, r2: int, c2: int|
            self.in_grid(r1, c1) && self.in_grid(r2, c2) && #[trigger] self.key_at(r1, c1)
                == #[trigger] self.key_at(r2, c2) ==> r1 == r2 && c1 == c2
    }

    /// The layout is well formed over `views`: every cell names a live view
    /// and no view stands in two cells.
    pub open spec fn wf(&self, views: ViewMap) -> bool {
        &&& self.distinct()
        &&& forall|r: int, c: int|
            self.in_grid(r, c) ==> views.entries().contains_key(#[trigger] self.key_at(r, c))
    }

    /// Every view of the grid can be used with these arenas.
    pub open spec fn views_usable(
        &self,
        views: ViewMap,
        perspectives: PerspectiveMap,
        regions: RegionMap,
    ) -> bool {
        forall|r: int, c: int|
            self.in_grid(r, c) ==> views.entries()[#[trigger] self.key_at(r, c)].view.wf(
                perspectives,
                regions,
            )
    }

    /// The size that each view of the grid needs to show all of its region.
    pub open spec fn needed_sizes(
        &self,
        views: ViewMap,
        perspectives: PerspectiveMap,
        regions: RegionMap,
    ) -> Seq<Seq<ViewportVec>> {
        Seq::new(
            self.view_grid@.len(),
            |r: int|
                Seq::new(
                    self.view_grid@[r]@.len(),
                    |c: int|
                        {
                            let v = views.entries()[self.key_at(r, c)].view;
                            v.spec_max_needed_size(perspectives.entries()[v.perspective], regions)
                        },
                ),
        )
    }

    /// No view needs a negative size.
    pub proof fn lemma_needed_sizes_not_negative(
        &self,
        views: ViewMap,
        perspectives: PerspectiveMap,
        regions: RegionMap,
        r: int,
        c: int,
    )
        requires
            self.in_grid(r, c),
            self.views_usable(views, perspectives, regions),
        ensures
            self.needed_sizes(views, perspectives, regions)[r][c].x >= 0,
            self.needed_sizes(views, perspectives, regions)[r][c].y >= 0,
    {
        let v = views.entries()[self.key_at(r, c)].view;
        let p = perspectives.entries()[v.perspective];
        assert(v.wf(perspectives, regions));
        let len = p.bound(regions).spec_len();
        let rows = grid_rows(len, p.cols as int);
        vstd::arithmetic::div_mod::lemma_div_pos_is_pos(len, p.cols as int);
        assert(p.cols * v.col_w >= 0 && rows * v.row_h >= 0) by (nonlinear_arith)
            requires
                p.cols >= 0,
                v.col_w >= 0,
                rows >= 0,
                v.row_h >= 0,
        ;
    }

    /// The margins of the layout alone fit in `rect`, and the margin is not
    /// negative.
    pub open spec fn has_room_in(&self, rect: ViewportRect) -> bool {
        &&& self.margin >= 0
        &&& space_left(rect.h as int, self.margin as int, self.view_grid@.len() as int) >= 0
        &&& forall|r: int|
            0 <= r < self.view_grid@.len() ==> space_left(
                rect.w as int,
                self.margin as int,
                (#[trigger] self.view_grid@[r])@.len() as int,
            ) >= 0
    }

    /// A rectangle in which the margins of the layout fit has room for the
    /// sizes that its views need.
    pub proof fn lemma_room_for_needed_sizes(
        &self,
        views: ViewMap,
        perspectives: PerspectiveMap,
        regions: RegionMap,
        rect: ViewportRect,
    )
        requires
            self.views_usable(views, perspectives, regions),
            self.has_room_in(rect),
        ensures
            roomy(self.needed_sizes(views, perspectives, regions), self.margin as int, rect),
    {
        let grid = self.needed_sizes(views, perspectives, regions);
        assert forall|r: int| 0 <= r < grid.len() implies space_left(
            rect.w as int,
            self.margin as int,
            (#[trigger] grid[r]).len() as int,
        ) >= 0 by {
            assert(grid[r].len() == self.view_grid@[r]@.len());
        }
        assert forall|r: int, c: int| 0 <= r < grid.len() && 0 <= c < grid[r].len() implies (
        #[trigger] grid[r][c]).x >= 0 && grid[r][c].y >= 0 by {
            self.lemma_needed_sizes_not_negative(views, perspectives, regions, r, c);
        }
    }

    /// After the layout was applied in a rectangle in which its margins fit,
    /// every view of the grid lies inside the rectangle and has a size that
    /// is not negative.
    pub proof fn lemma_laid_out_inside(
        &self,
        before: ViewMap,
        after: ViewMap,
        perspectives: PerspectiveMap,
        regions: RegionMap,
        rect: ViewportRect,
        r: int,
        c: int,
    )
        requires
            self.views_usable(before, perspectives, regions),
            self.has_room_in(rect),
            is_laid_out(
                after.entries(),
                before.entries(),
                *self,
                self.needed_sizes(before, perspectives, regions),
                rect,
            ),
            self.in_grid(r, c),
        ensures
            rect.encloses(after.entries()[self.key_at(r, c)].view.viewport_rect),
            after.entries()[self.key_at(r, c)].view.viewport_rect.w >= 0,
            after.entries()[self.key_at(r, c)].view.viewport_rect.h >= 0,
    {
        let grid = self.needed_sizes(before, perspectives, regions);
        self.lemma_room_for_needed_sizes(before, perspectives, regions, rect);
        lemma_layout_inside(grid, self.margin as int, rect, r, c);
    }

    /// After the layout was applied in a rectangle in which its margins fit,
    /// a view ends where the next views of its row begin or before, and
    /// where the views of the next rows begin or before: no two views
    /// overlap.
    pub proof fn lemma_laid_out_apart(
        &self,
        before: ViewMap,
        after: ViewMap,
        perspectives: PerspectiveMap,
        regions: RegionMap,
        rect: ViewportRect,
        r1: int,
        c1: int,
        r2: int,
        c2: int,
    )
        requires
            self.views_usable(before, perspectives, regions),
            self.has_room_in(rect),
            is_laid_out(
                after.entries(),
                before.entries(),
                *self,
                self.needed_sizes(before, perspectives, regions),
                rect,
            ),
            self.in_grid(r1, c1),
            self.in_grid(r2, c2),
            r1 < r2 || (r1 == r2 && c1 < c2),
        ensures
            ({
                let first = after.entries()[self.key_at(r1, c1)].view.viewport_rect;
                let second = after.entries()[self.key_at(r2, c2)].view.viewport_rect;
                &&& r1 == r2 ==> first.x + first.w <= second.x
                &&& r1 < r2 ==> first.y + first.h <= second.y
            }),
    {
        let grid = self.needed_sizes(before, perspectives, regions);
        self.lemma_room_for_needed_sizes(before, perspectives, regions, rect);
        if r1 == r2 {
            lemma_row_views_disjoint(grid, self.margin as int, rect, r1, c1, c2);
        } else {
            lemma_rows_disjoint(grid, self.margin as int, rect, r1, c1, r2);
        }
    }

    /// Applying the layout again changes nothing: the sizes that views need
    /// do not depend on the rectangles they have, so a second pass gives
    /// every view the rectangle it already has.
    pub proof fn lemma_laid_out_again(
        &self,
        before: ViewMap,
        once: ViewMap,
        twice: ViewMap,
        perspectives: PerspectiveMap,
        regions: RegionMap,
        rect: ViewportRect,
    )
        requires
            self.wf(before),
            is_laid_out(
                once.entries(),
                before.entries(),
                *self,
                self.needed_sizes(before, perspectives, regions),
                rect,
            ),
            is_laid_out(
                twice.entries(),
                once.entries(),
                *self,
                self.needed_sizes(once, perspectives, regions),
                rect,
            ),
        ensures
            self.needed_sizes(once, perspectives, regions) == self.needed_sizes(
                before,
                perspectives,
                regions,
            ),
            twice.entries() == once.entries(),
    {
        let first = self.needed_sizes(before, perspectives, regions);
        let second = self.needed_sizes(once, perspectives, regions);
        assert forall|r: int| 0 <= r < first.len() implies #[trigger] second[r] == first[r] by {
            assert forall|c: int| 0 <= c < first[r].len() implies #[trigger] second[r][c]
                == first[r][c] by {
                assert(self.in_grid(r, c));
                let k = self.key_at(r, c);
                assert(once.entries()[k].view.perspective == before.entries()[k].view.perspective);
            }
            assert(second[r] =~= first[r]);
        }
        assert(second =~= first);
        assert forall|k: ViewKey| once.entries().contains_key(k) implies #[trigger] twice.entries()[k]
            == once.entries()[k] by {
            if self.holds(k) {
                let (r, c) = choose|r: int, c: int| self.in_grid(r, c) && #[trigger] self.key_at(r, c) == k;
                assert(self.key_at(r, c) == k);
                let a = once.entries()[k].view.viewport_rect;
                let b = twice.entries()[k].view.viewport_rect;
                assert(a.x == b.x && a.y == b.y && a.w == b.w && a.h == b.h);
            }
        }
        assert(twice.entries() =~= once.entries());
    }

    /// Every listed handle stands in some cell of the grid.
    pub proof fn lemma_listed_is_held(&self, i: int)
        requires
            0 <= i < self.spec_keys().len(),
        ensures
            self.holds(self.spec_keys()[i]),
    {
        let grid = rows_of(self.view_grid@);
        let rc = lemma_flat_locate(grid, grid.len() as int, i);
        lemma_flat_cell(grid, rc.0, rc.1);
        assert(self.in_grid(rc.0, rc.1) && self.key_at(rc.0, rc.1) == self.spec_keys()[i]);
    }

    /// When no handle stands in two cells, no handle is listed twice.
    pub proof fn lemma_listed_once(&self, i: int, j: int)
        requires
            self.distinct(),
            0 <= i < self.spec_keys().len(),
            0 <= j < self.spec_keys().len(),
            self.spec_keys()[i] == self.spec_keys()[j],
        ensures
            i == j,
    {
        let grid = rows_of(self.view_grid@);
        let a = lemma_flat_locate(grid, grid.len() as int, i);
        let b = lemma_flat_locate(grid, grid.len() as int, j);
        lemma_flat_cell(grid, a.0, a.1);
        lemma_flat_cell(grid, b.0, b.1);
        assert(self.in_grid(a.0, a.1) && self.in_grid(b.0, b.1));
        assert(self.key_at(a.0, a.1) == self.key_at(b.0, b.1));
    }

    /// All view handles of the layout, row after row.
    pub fn iter(&self) -> (keys: Vec<ViewKey>)
        ensures
            keys@ == self.spec_keys(),
    {
        let ghost grid = rows_of(self.view_grid@);
        let mut keys: Vec<ViewKey> = Vec::new();
        let mut r: usize = 0;
        while r < self.view_grid.len()
            invariant
                r <= self.view_grid.len(),
                grid == rows_of(self.view_grid@),
                keys@ == cells_upto(grid, r as int),
            decreases self.view_grid.len() - r,
        {
            let row = &self.view_grid[r];
            let ghost before = keys@;
            let mut c: usize = 0;
            while c < row.len()
                invariant
                    c <= row.len(),
                    keys@ == before + row@.take(c as int),
                decreases row.len() - c,
            {
                keys.push(row[c]);
                assert(row@.take(c as int + 1) == row@.take(c as int).push(row@[c as int]));
                c += 1;
            }
            assert(row@.take(row.len() as int) == row@);
            assert(grid[r as int] == row@);
            r += 1;
        }
        keys
    }
    /// Whether the layout is well formed over `views`.
    pub fn is_well_formed(&self, views: &ViewMap) -> (b: bool)
        ensures
            b == self.wf(*views),
    {
        let ghost grid = rows_of(self.view_grid@);
        let keys = self.iter();
        let n = keys.len();
        let mut i: usize = 0;
        while i < n
            invariant
                i <= n,
                n == keys.len(),
                keys@ == self.spec_keys(),
                grid == rows_of(self.view_grid@),
                forall|p: int| 0 <= p < i ==> views.entries().contains_key(#[trigger] keys[p]),
                forall|p: int, q: int| 0 <= p < i && p < q < n ==> keys[p] != keys[q],
            decreases n - i,
        {
            if view_get(views, keys[i]).is_none() {
                proof {
                    let rc = lemma_flat_locate(grid, grid.len() as int, i as int);
                    lemma_flat_cell(grid, rc.0, rc.1);
                    assert(self.in_grid(rc.0, rc.1));
                    assert(self.key_at(rc.0, rc.1) == keys[i as int]);
                }
                return false;
            }
            let mut j: usize = i + 1;
            while j < n
                invariant
                    i < j <= n,
                    n == keys.len(),
                    keys@ == self.spec_keys(),
                    grid == rows_of(self.view_grid@),
                    forall|q: int| i < q < j ==> keys[i as int] != keys[q],
                decreases n - j,
            {
                if keys[i].same(keys[j]) {
                    proof {
                        let a = lemma_flat_locate(grid, grid.len() as int, i as int);
                        let b = lemma_flat_locate(grid, grid.len() as int, j as int);
                        lemma_flat_cell(grid, a.0, a.1);
                        lemma_flat_cell(grid, b.0, b.1);
                        assert(self.in_grid(a.0, a.1) && self.in_grid(b.0, b.1));
                        assert(self.key_at(a.0, a.1) == self.key_at(b.0, b.1));
                        assert(!(a.0 == b.0 && a.1 == b.1));
                    }
                    return false;
                }
                j += 1;
            }
            i += 1;
        }
        proof {
            assert forall|r: int, c: int| self.in_grid(r, c) implies views.entries().contains_key(
                #[trigger] self.key_at(r, c),
            ) by {
                lemma_flat_cell(grid, r, c);
                assert(keys[flat_index(grid, r, c)] == self.key_at(r, c));
            }
            assert forall|r1: int, c1: int, r2: int, c2: int|
                self.in_grid(r1, c1) && self.in_grid(r2, c2) && #[trigger] self.key_at(r1, c1)
                    == #[trigger] self.key_at(r2, c2) implies r1 == r2 && c1 == c2 by {
                lemma_flat_cell(grid, r1, c1);
                lemma_flat_cell(grid, r2, c2);
                let f1 = flat_index(grid, r1, c1);
                let f2 = flat_index(grid, r2, c2);
                assert(keys[f1] == keys[f2]);
                if f1 < f2 {
                    assert(keys[f1] != keys[f2]);
                } else if f2 < f1 {
                    assert(keys[f2] != keys[f1]);
                }
                lemma_flat_injective(grid, r1, c1, r2, c2);
            }
        }
        true
    }
    /// Whether the layout can be laid out over these arenas: it is well
    /// formed over `views` and every view of the grid can be used.
    pub fn is_ready(&self, views: &ViewMap, perspectives: &PerspectiveMap, regions: &RegionMap) -> (b:
        bool)
        ensures
            b == (self.wf(*views) && self.views_usable(*views, *perspectives, *regions)),
    {
        if !self.is_well_formed(views) {
            return false;
        }
        let mut r: usize = 0;
        while r < self.view_grid.len()
            invariant
                r <= self.view_grid.len(),
                self.wf(*views),
                forall|q: int, i: int|
                    #![trigger self.key_at(q, i)]
                    self.in_grid(q, i) && q < r ==> views.entries()[self.key_at(q, i)].view.wf(
                        *perspectives,
                        *regions,
                    ),
            decreases self.view_grid.len() - r,
        {
            let row = &self.view_grid[r];
            let mut c: usize = 0;
            while c < row.len()
                invariant
                    c <= row.len(),
                    r < self.view_grid.len(),
                    *row == self.view_grid@[r as int],
                    self.wf(*views),
                    forall|q: int, i: int|
                        #![trigger self.key_at(q, i)]
                        self.in_grid(q, i) && (q < r || (q == r && i < c))
                            ==> views.entries()[self.key_at(q, i)].view.wf(*perspectives, *regions),
                decreases row.len() - c,
            {
                let key = row[c];
                assert(self.in_grid(r as int, c as int) && self.key_at(r as int, c as int) == key);
                let nv = view_get(views, key).unwrap();
                if !nv.view.is_usable(perspectives, regions) {
                    return false;
                }
                c += 1;
            }
            r += 1;
        }
        true
    }
}

/// The sizes that the views of `layout` need.
fn gather_needed(
    layout: &Layout,
    view_map: &ViewMap,
    perspectives: &PerspectiveMap,
    regions: &RegionMap,
) -> (needed: Vec<Vec<ViewportVec>>)
    requires
        layout.wf(*view_map),
        layout.views_usable(*view_map, *perspectives, *regions),
    ensures
        rows_of(needed@) == layout.needed_sizes(*view_map, *perspectives, *regions),
{
    let ghost want = layout.needed_sizes(*view_map, *perspectives, *regions);
    let mut needed: Vec<Vec<ViewportVec>> = Vec::new();
    let mut r: usize = 0;
    while r < layout.view_grid.len()
        invariant
            r <= layout.view_grid.len(),
            layout.wf(*view_map),
            layout.views_usable(*view_map, *perspectives, *regions),
            want == layout.needed_sizes(*view_map, *perspectives, *regions),
            needed.len() == r,
            forall|q: int| 0 <= q < r ==> (#[trigger] needed[q])@ == want[q],
        decreases layout.view_grid.len() - r,
    {
        let row = &layout.view_grid[r];
        let mut sizes: Vec<ViewportVec> = Vec::new();
        let mut c: usize = 0;
        while c < row.len()
            invariant
                c <= row.len(),
                r < layout.view_grid.len(),
                *row == layout.view_grid@[r as int],
                layout.wf(*view_map),
                layout.views_usable(*view_map, *perspectives, *regions),
                want == layout.needed_sizes(*view_map, *perspectives, *regions),
                sizes.len() == c,
                forall|i: int| 0 <= i < c ==> #[trigger] sizes[i] == want[r as int][i],
            decreases row.len() - c,
        {
            let key = row[c];
            assert(layout.in_grid(r as int, c as int));
            assert(key == layout.key_at(r as int, c as int));
            let nv = view_get(view_map, key).unwrap();
            sizes.push(nv.view.max_needed_size(perspectives, regions));
            c += 1;
        }
        assert(sizes@ =~= want[r as int]);
        needed.push(sizes);
        r += 1;
    }
    assert(rows_of(needed@) =~= want);
    needed
}

/// Sizes and places the views of `layout` in `hex_iface_rect`.
///
/// Returns whether the layout was applied. It is applied when the grid can
/// be laid out; every view of the grid then has the rectangle that the
/// layout gives it, and nothing else changes. Otherwise no view changes.
pub fn do_auto_layout(
    layout: &Layout,
    view_map: &mut ViewMap,
    hex_iface_rect: &ViewportRect,
    perspectives: &PerspectiveMap,
    regions: &RegionMap,
) -> (applied: bool)
    requires
        layout.wf(*old(view_map)),
        layout.views_usable(*old(view_map), *perspectives, *regions),
    ensures
        applied == placeable(
            layout.needed_sizes(*old(view_map), *perspectives, *regions),
            layout.margin as int,
            *hex_iface_rect,
        ),
        applied ==> is_laid_out(
            final(view_map).entries(),
            old(view_map).entries(),
            *layout,
            layout.needed_sizes(*old(view_map), *perspectives, *regions),
            *hex_iface_rect,
        ),
        !applied ==> final(view_map).entries() == old(view_map).entries(),
{
    let needed = gather_needed(layout, view_map, perspectives, regions);
    let ghost grid = layout.needed_sizes(*view_map, *perspectives, *regions);
    let ghost before = view_map.entries();
    let rects = match layout_rects(&needed, layout.margin, hex_iface_rect) {
        Some(rects) => rects,
        None => { return false; },
    };
    let ghost given = rows_of(rects@);
    let n_rows = layout.view_grid.len();
    let mut r: usize = 0;
    while r < n_rows
        invariant
            r <= n_rows,
            n_rows == layout.view_grid.len(),
            layout.distinct(),
            given == rows_of(rects@),
            given.len() == n_rows,
            forall|q: int|
                0 <= q < n_rows ==> (#[trigger] given[q]).len() == layout.view_grid@[q]@.len(),
            view_map.entries().dom() == before.dom(),
            forall|q: int, i: int|
                layout.in_grid(q, i) ==> before.contains_key(#[trigger] layout.key_at(q, i)),
            forall|q: int, i: int|
                layout.in_grid(q, i) && q < r ==> view_map.entries()[#[trigger] layout.key_at(q, i)]
                    == with_rect(before[layout.key_at(q, i)], given[q][i]),
            forall|q: int, i: int|
                layout.in_grid(q, i) && q >= r ==> view_map.entries()[#[trigger] layout.key_at(q, i)]
                    == before[layout.key_at(q, i)],
            forall|k: ViewKey|
                before.contains_key(k) && !layout.holds(k) ==> #[trigger] view_map.entries()[k]
                    == before[k],
        decreases n_rows - r,
    {
        let row = &layout.view_grid[r];
        let placed = &rects[r];
        assert(given[r as int] == placed@);
        let mut c: usize = 0;
        while c < row.len()
            invariant
                c <= row.len(),
                r < n_rows,
                n_rows == layout.view_grid.len(),
                *row == layout.view_grid@[r as int],
                layout.distinct(),
                given == rows_of(rects@),
                given.len() == n_rows,
                given[r as int] == placed@,
                placed.len() == row.len(),
                view_map.entries().dom() == before.dom(),
                forall|q: int, i: int|
                    layout.in_grid(q, i) ==> before.contains_key(#[trigger] layout.key_at(q, i)),
                forall|q: int, i: int|
                    #![trigger layout.key_at(q, i)]
                    layout.in_grid(q, i) && (q < r || (q == r && i < c))
                        ==> view_map.entries()[layout.key_at(q, i)] == with_rect(
                        before[layout.key_at(q, i)],
                        given[q][i],
                    ),
                forall|q: int, i: int|
                    #![trigger layout.key_at(q, i)]
                    layout.in_grid(q, i) && (q > r || (q == r && i >= c))
                        ==> view_map.entries()[layout.key_at(q, i)] == before[layout.key_at(q, i)],
                forall|k: ViewKey|
                    before.contains_key(k) && !layout.holds(k) ==> #[trigger] view_map.entries()[k]
                        == before[k],
            decreases row.len() - c,
        {
            let key = row[c];
            let rect = placed[c];
            assert(layout.in_grid(r as int, c as int));
            assert(key == layout.key_at(r as int, c as int));
            assert(layout.holds(key));
            let ghost prior = view_map.entries();
            let nv = view_get_mut(view_map, key);
            nv.view.viewport_rect = rect;
            assert(view_map.entries() == prior.insert(key, with_rect(before[key], rect)));
            assert(view_map.entries().dom() =~= before.dom());
            c += 1;
        }
        r += 1;
    }
    true
}

/// What `extent` leaves for `n` items around margins of `margin`.
fn space_for(extent: ViewportScalar, margin: ViewportScalar, n: usize) -> (avail: i64)
    requires
        n <= MAX_LAYOUT_SPAN,
    ensures
        avail == space_left(extent as int, margin as int, n as int),
        -0x4000_8000 <= avail <= 0x4000_8000,
{
    let count: i64 = n as i64 + 1;
    assert(-0x4000_0000 <= margin * count <= 0x4000_0000) by (nonlinear_arith)
        requires
            -32768 <= margin <= 32767,
            1 <= count <= 32768,
    ;
    extent as i64 - (margin as i64) * count
}

/// The smaller of two integers.
fn least(a: i64, b: i64) -> (m: i64)
    ensures
        m == lesser(a as int, b as int),
{
    if a <= b {
        a
    } else {
        b
    }
}

/// Widths of the views of one row that has `avail` pixels for them.
fn row_widths(needed: &Vec<ViewportVec>, avail: i64) -> (widths: Vec<i64>)
    requires
        1 <= needed.len() <= MAX_LAYOUT_SPAN,
        -0x4000_8000 <= avail <= 0x4000_8000,
    ensures
        widths.len() == needed.len(),
        forall|i: int|
            0 <= i < needed.len() ==> #[trigger] widths[i] == view_width(needed@, avail as int, i),
{
    let n = needed.len();
    let allowed = div_rounding_to_zero(avail, n as i64);
    let mut total: i64 = 0;
    let mut i: usize = 0;
    while i < n
        invariant
            i <= n,
            n == needed.len(),
            n <= MAX_LAYOUT_SPAN,
            -0x4000_8000 <= allowed <= 0x4000_8000,
            total == base_sum(needed@, allowed as int, i as int),
            -(i * 0x4000_8000) <= total <= i * 0x4000_8000,
        decreases n - i,
    {
        total = total + least(needed[i].x as i64, allowed);
        i += 1;
    }
    let left0: i64 = avail - total;
    let mut left: i64 = left0;
    let mut widths: Vec<i64> = Vec::new();
    let mut j: usize = 0;
    while j < n
        invariant
            j <= n,
            n == needed.len(),
            n <= MAX_LAYOUT_SPAN,
            widths.len() == j,
            -0x4000_8000 <= allowed <= 0x4000_8000,
            left0 == avail - base_sum(needed@, allowed as int, n as int),
            allowed == share(avail as int, n as int),
            left == leftover_at(needed@, allowed as int, left0 as int, j as int),
            left0 < 0 ==> left == left0,
            left0 >= 0 ==> 0 <= left <= left0,
            -0x8000_0000_0000 <= left0 <= 0x8000_0000_0000,
            forall|k: int|
                0 <= k < j ==> #[trigger] widths[k] == view_width(needed@, avail as int, k),
        decreases n - j,
    {
        let need: i64 = needed[j].x as i64;
        let base = least(need, allowed);
        let add: i64 = if left < 0 {
            0
        } else {
            least(need - base, left)
        };
        widths.push(base + add);
        left = left - add;
        j += 1;
    }
    widths
}

/// Rectangles for a grid of views that need the sizes in `needed`, packed
/// into `rect` with `margin` around each view; nothing when the grid cannot
/// be laid out.
pub fn layout_rects(needed: &Vec<Vec<ViewportVec>>, margin: ViewportScalar, rect: &ViewportRect) -> (out:
    Option<Vec<Vec<ViewportRect>>>)
    ensures
        out is Some == placeable(rows_of(needed@), margin as int, *rect),
        out matches Some(rects) ==> is_layout_of(
            rows_of(rects@),
            rows_of(needed@),
            margin as int,
            *rect,
        ),
{
    let ghost grid = rows_of(needed@);
    let n_rows = needed.len();
    if n_rows > MAX_LAYOUT_SPAN {
        return None;
    }
    let mut out: Vec<Vec<ViewportRect>> = Vec::new();
    if n_rows == 0 {
        return Some(out);
    }
    let allowed_h = div_rounding_to_zero(space_for(rect.h, margin, n_rows), n_rows as i64);
    let mut y_cursor: i64 = rect.y as i64 + margin as i64;
    let mut r: usize = 0;
    while r < n_rows
        invariant
            r <= n_rows,
            n_rows == needed.len(),
            1 <= n_rows <= MAX_LAYOUT_SPAN,
            grid == rows_of(needed@),
            allowed_h == allowed_height(grid, margin as int, *rect),
            y_cursor == laid_y(grid, margin as int, *rect, r as int),
            -65536 * (r + 1) <= y_cursor <= 65536 * (r + 1),
            out.len() == r,
            forall|q: int| 0 <= q < r ==> (#[trigger] grid[q]).len() <= MAX_LAYOUT_SPAN,
            forall|q: int| 0 <= q < r ==> (#[trigger] out[q]).len() == grid[q].len(),
            forall|q: int, c: int|
                0 <= q < r && 0 <= c < grid[q].len() ==> #[trigger] cell_fits(
                    grid,
                    margin as int,
                    *rect,
                    q,
                    c,
                ),
            forall|q: int, c: int|
                0 <= q < r && 0 <= c < grid[q].len() ==> {
                    &&& (#[trigger] out[q][c]).x == laid_x(grid, margin as int, *rect, q, c)
                    &&& out[q][c].y == laid_y(grid, margin as int, *rect, q)
                    &&& out[q][c].w == laid_w(grid, margin as int, *rect, q, c)
                    &&& out[q][c].h == laid_h(grid, margin as int, *rect, q, c)
                },
        decreases n_rows - r,
    {
        let row = &needed[r];
        let n = row.len();
        assert(grid[r as int] == row@);
        if n > MAX_LAYOUT_SPAN {
            return None;
        }
        let mut placed: Vec<ViewportRect> = Vec::new();
        let mut max_h: i64 = 0;
        if n > 0 {
            let avail = space_for(rect.w, margin, n);
            let widths = row_widths(row, avail);
            let mut x_cursor: i64 = rect.x as i64 + margin as i64;
            let mut c: usize = 0;
            while c < n
                invariant
                    c <= n,
                    r < n_rows,
                    n == row.len(),
                    1 <= n <= MAX_LAYOUT_SPAN,
                    n_rows == needed.len(),
                    grid == rows_of(needed@),
                    grid[r as int] == row@,
                    avail == space_left(rect.w as int, margin as int, n as int),
                    widths.len() == n,
                    forall|i: int|
                        0 <= i < n ==> #[trigger] widths[i] == view_width(row@, avail as int, i),
                    allowed_h == allowed_height(grid, margin as int, *rect),
                    y_cursor == laid_y(grid, margin as int, *rect, r as int),
                    x_cursor == laid_x(grid, margin as int, *rect, r as int, c as int),
                    -65536 * (c + 1) <= x_cursor <= 65536 * (c + 1),
                    max_h == row_height(row@, allowed_h as int, c as int),
                    0 <= max_h <= 32767,
                    placed.len() == c,
                    forall|i: int|
                        0 <= i < c ==> #[trigger] cell_fits(grid, margin as int, *rect, r as int, i),
                    forall|i: int|
                        0 <= i < c ==> {
                            &&& (#[trigger] placed[i]).x == laid_x(
                                grid,
                                margin as int,
                                *rect,
                                r as int,
                                i,
                            )
                            &&& placed[i].y == laid_y(grid, margin as int, *rect, r as int)
                            &&& placed[i].w == laid_w(grid, margin as int, *rect, r as int, i)
                            &&& placed[i].h == laid_h(grid, margin as int, *rect, r as int, i)
                        },
                decreases n - c,
            {
                let w: i64 = widths[c];
                let h: i64 = least(row[c].y as i64, allowed_h);
                assert(w == laid_w(grid, margin as int, *rect, r as int, c as int));
                assert(h == laid_h(grid, margin as int, *rect, r as int, c as int));
                if x_cursor < -32768 || x_cursor > 32767 || y_cursor < -32768 || y_cursor > 32767
                    || w < -32768 || w > 32767 || h < -32768 || h > 32767 {
                    assert(!cell_fits(grid, margin as int, *rect, r as int, c as int));
                    return None;
                }
                placed.push(
                    ViewportRect { x: x_cursor as i16, y: y_cursor as i16, w: w as i16, h: h as i16 },
                );
                x_cursor = x_cursor + w + margin as i64;
                if h > max_h {
                    max_h = h;
                }
                c += 1;
            }
        }
        assert(max_h == row_height(grid[r as int], allowed_h as int, grid[r as int].len() as int));
        out.push(placed);
        y_cursor = y_cursor + max_h + margin as i64;
        r += 1;
    }
    assert(rows_of(out@).len() == grid.len());
    assert forall|q: int| 0 <= q < grid.len() implies (#[trigger] rows_of(out@)[q]).len()
        == grid[q].len() by {
        assert(out[q].len() == grid[q].len());
    }
    assert forall|q: int, c: int| 0 <= q < grid.len() && 0 <= c < grid[q].len() implies {
        &&& (#[trigger] rows_of(out@)[q][c]).x == laid_x(grid, margin as int, *rect, q, c)
        &&& rows_of(out@)[q][c].y == laid_y(grid, margin as int, *rect, q)
        &&& rows_of(out@)[q][c].w == laid_w(grid, margin as int, *rect, q, c)
        &&& rows_of(out@)[q][c].h == laid_h(grid, margin as int, *rect, q, c)
    } by {
        assert(out[q][c].x == laid_x(grid, margin as int, *rect, q, c));
    }
    Some(out)
}

} // verus!
