//! Views: scrollable windows onto a perspective, with hit-testing and the
//! transforms between screen positions and byte offsets.

use vstd::prelude::*;
use crate::arena::{perspective_get, region_get, PerspectiveMap, RegionMap};
use crate::keys::PerspectiveKey;
use crate::perspective::{grid_col, grid_offset, grid_row, grid_rows, saturate_usize, Perspective};

verus! {

/// Scalar of screen coordinates.
pub type ViewportScalar = i16;

/// A rectangle on the screen.
#[derive(Clone, Copy, Debug, PartialEq, Eq, Structural)]
pub struct ViewportRect {
    pub x: ViewportScalar,
    pub y: ViewportScalar,
    pub w: ViewportScalar,
    pub h: ViewportScalar,
}

/// A size or a displacement on the screen.
#[derive(Clone, Copy, Debug, PartialEq, Eq, Structural)]
pub struct ViewportVec {
    pub x: ViewportScalar,
    pub y: ViewportScalar,
}

/// Scroll position: whole rows and columns, and a pixel remainder.
#[derive(Clone, Copy, Debug, PartialEq, Eq, Structural)]
pub struct ScrollOffset {
    pub col: usize,
    pub pix_xoff: ViewportScalar,
    pub row: usize,
    pub pix_yoff: ViewportScalar,
}

/// Row, column and byte offset of the cell at the top left of a view.
#[derive(Clone, Copy, Debug, PartialEq, Eq, Structural)]
pub struct Offsets {
    pub row: usize,
    pub col: usize,
    pub byte: usize,
}

/// Settings of a view that shows bytes as hexadecimal digits.
#[derive(Clone, Copy, Debug, PartialEq, Eq, Structural)]
pub struct HexData {
    pub font_size: u16,
}

/// Settings of a view that shows bytes as text.
#[derive(Clone, Copy, Debug, PartialEq, Eq, Structural)]
pub struct TextData {
    pub line_spacing: u16,
    pub font_size: u16,
}

/// How a view presents the bytes.
#[derive(Clone, Copy, Debug, PartialEq, Eq, Structural)]
pub enum ViewKind {
    Hex(HexData),
    Text(TextData),
    Block,
}

/// Font size of a view kind made with default settings.
pub const DEFAULT_FONT_SIZE: u16 = 14;

/// Cell size of block views.
pub const BLOCK_CELL: u8 = 4;

/// A window onto a perspective. It owns presentation state only.
#[derive(Clone, Copy, Debug, PartialEq, Eq)]
pub struct View {
    /// The rectangle occupied on the screen.
    pub viewport_rect: ViewportRect,
    pub kind: ViewKind,
    /// Width of a cell in pixels.
    pub col_w: u8,
    /// Height of a cell in pixels.
    pub row_h: u8,
    pub scroll_offset: ScrollOffset,
    /// Pixels scrolled by one scroll step.
    pub scroll_speed: ViewportScalar,
    pub perspective: PerspectiveKey,
}

/// A view with a user-visible name.
#[derive(Clone, Debug, PartialEq, Eq)]
pub struct NamedView {
    pub name: String,
    pub view: View,
}

/// The value of `v` held to the range of a screen scalar.
pub open spec fn saturate_scalar(v: int) -> ViewportScalar {
    if v > i16::MAX {
        i16::MAX
    } else if v < i16::MIN {
        i16::MIN
    } else {
        v as i16
    }
}

/// The value of `v` held to the range of a cell size.
pub open spec fn saturate_cell(v: int) -> u8 {
    if v > u8::MAX {
        u8::MAX
    } else if v < 0 {
        0
    } else {
        v as u8
    }
}

/// Quotient of `a` by a positive `b`, rounded towards zero.
pub open spec fn div_toward_zero(a: int, b: int) -> int {
    if a >= 0 {
        a / b
    } else {
        -((-a) / b)
    }
}

/// Cell width and height that a view kind asks for; block views keep
/// `current`.
pub open spec fn cell_size_of(kind: ViewKind, current: (u8, u8)) -> (u8, u8) {
    match kind {
        ViewKind::Hex(d) => (saturate_cell(d.font_size * 2 - 2), saturate_cell(d.font_size as int)),
        ViewKind::Text(d) => (
            saturate_cell(d.font_size as int),
            saturate_cell(if d.line_spacing < 1 { 1 } else { d.line_spacing as int }),
        ),
        ViewKind::Block => current,
    }
}

/// Whole units and pixel remainder after scrolling one axis by `by` pixels,
/// from `whole` units and `pixel` pixels, with cells of `cell` pixels.
///
/// Scrolling back stops at unit zero and keeps the rest as a negative pixel
/// offset. With cells of no size only the pixel offset moves.
pub open spec fn scrolled_axis(whole: int, pixel: int, cell: int, by: int) -> (int, int) {
    let p = pixel + by;
    if cell <= 0 {
        (whole, p)
    } else if p < 0 {
        let steps = if (-p) / cell < whole { (-p) / cell } else { whole };
        (whole - steps, p + steps * cell)
    } else {
        (whole + p / cell, p % cell)
    }
}

impl ViewportRect {
    /// Whether the point lies in the rectangle, borders included.
    pub open spec fn spec_contains_pos(&self, x: int, y: int) -> bool {
        &&& x >= self.x
        &&& y >= self.y
        &&& x <= self.x + self.w
        &&& y <= self.y + self.h
    }

    /// Whether `inner` lies fully inside this rectangle.
    pub open spec fn encloses(&self, inner: ViewportRect) -> bool {
        &&& self.x <= inner.x
        &&& self.y <= inner.y
        &&& inner.x + inner.w <= self.x + self.w
        &&& inner.y + inner.h <= self.y + self.h
    }

    pub fn contains_pos(&self, x: ViewportScalar, y: ViewportScalar) -> (b: bool)
        ensures
            b == self.spec_contains_pos(x as int, y as int),
    {
        x >= self.x && y >= self.y && (x as i32) <= self.x as i32 + self.w as i32 && (y as i32)
            <= self.y as i32 + self.h as i32
    }

    /// Position of the point relative to the rectangle's origin, when the
    /// point lies in the rectangle.
    pub fn relative_offset_of_pos(&self, x: ViewportScalar, y: ViewportScalar) -> (r: Option<
        (i32, i32),
    >)
        ensures
            r is Some == self.spec_contains_pos(x as int, y as int),
            r matches Some(p) ==> p.0 == x - self.x && p.1 == y - self.y,
    {
        if self.contains_pos(x, y) {
            Some((x as i32 - self.x as i32, y as i32 - self.y as i32))
        } else {
            None
        }
    }
}

impl ScrollOffset {
    /// Drops the pixel remainders.
    pub fn floor(&mut self)
        ensures
            *final(self) == (ScrollOffset { pix_xoff: 0, pix_yoff: 0, ..*old(self) }),
    {
        self.pix_xoff = 0;
        self.pix_yoff = 0;
    }
}

/// `v` held to the range of a cell size.
fn cell_from(v: u32) -> (c: u8)
    ensures
        c == saturate_cell(v as int),
{
    if v > 255 {
        255
    } else {
        v as u8
    }
}

/// `v` held to the range of a screen scalar.
pub(crate) fn scalar_from(v: i64) -> (s: ViewportScalar)
    ensures
        s == saturate_scalar(v as int),
{
    if v > 32767 {
        32767
    } else if v < -32768 {
        -32768
    } else {
        v as i16
    }
}

/// Quotient rounded towards zero.
pub(crate) fn div_rounding_to_zero(a: i64, b: i64) -> (q: i64)
    requires
        b > 0,
        a > i64::MIN,
    ensures
        q == div_toward_zero(a as int, b as int),
        a >= 0 ==> 0 <= q <= a,
        a < 0 ==> a <= q <= 0,
{
    if a >= 0 {
        let q = (a as u64 / b as u64) as i64;
        proof {
            vstd::arithmetic::div_mod::lemma_div_pos_is_pos(a as int, b as int);
            vstd::arithmetic::div_mod::lemma_div_is_ordered_by_denominator(a as int, 1, b as int);
        }
        q
    } else {
        let n = -a;
        let q = (n as u64 / b as u64) as i64;
        proof {
            vstd::arithmetic::div_mod::lemma_div_pos_is_pos(n as int, b as int);
            vstd::arithmetic::div_mod::lemma_div_is_ordered_by_denominator(n as int, 1, b as int);
        }
        -q
    }
}

/// One axis of scrolling.
fn scroll_axis(whole: usize, pixel: ViewportScalar, cell: u8, by: ViewportScalar) -> (r: (
    usize,
    ViewportScalar,
))
    ensures
        ({
            let m = scrolled_axis(whole as int, pixel as int, cell as int, by as int);
            &&& r.0 == saturate_usize(m.0)
            &&& r.1 == saturate_scalar(m.1)
        }),
{
    let p: i64 = pixel as i64 + by as i64;
    if cell == 0 {
        (whole, scalar_from(p))
    } else if p < 0 {
        let c: i64 = cell as i64;
        let back: u64 = ((-p) as u64) / (c as u64);
        proof {
            vstd::arithmetic::div_mod::lemma_div_pos_is_pos(-p as int, c as int);
            vstd::arithmetic::div_mod::lemma_div_is_ordered_by_denominator(-p as int, 1, c as int);
        }
        let steps: u64 = if back < whole as u64 { back } else { whole as u64 };
        assert(steps * c <= 65536 * 255 && steps * c >= 0) by (nonlinear_arith)
            requires
                0 <= steps <= 65536,
                0 <= c <= 255,
        ;
        let rest: i64 = p + (steps as i64) * c;
        (whole - steps as usize, scalar_from(rest))
    } else {
        let c: u64 = cell as u64;
        let fwd: u64 = (p as u64) / c;
        let rest: u64 = (p as u64) % c;
        proof {
            vstd::arithmetic::div_mod::lemma_div_pos_is_pos(p as int, c as int);
            vstd::arithmetic::div_mod::lemma_div_is_ordered_by_denominator(p as int, 1, c as int);
            vstd::arithmetic::div_mod::lemma_mod_bound(p as int, c as int);
        }
        let w = match whole.checked_add(fwd as usize) {
            Some(w) => w,
            None => usize::MAX,
        };
        (w, scalar_from(rest as i64))
    }
}

impl View {
    /// A fresh view of the given kind onto `perspective`: at the origin,
    /// unscrolled, with the cell size of its kind.
    pub open spec fn spec_new(kind: ViewKind, perspective: PerspectiveKey) -> View {
        View {
            viewport_rect: ViewportRect { x: 0, y: 0, w: 0, h: 0 },
            kind,
            col_w: cell_size_of(kind, (BLOCK_CELL, BLOCK_CELL)).0,
            row_h: cell_size_of(kind, (BLOCK_CELL, BLOCK_CELL)).1,
            scroll_offset: ScrollOffset { col: 0, pix_xoff: 0, row: 0, pix_yoff: 0 },
            scroll_speed: 0,
            perspective,
        }
    }

    /// A fresh view of the given kind onto `perspective`.
    pub fn new(kind: ViewKind, perspective: PerspectiveKey) -> (v: View)
        ensures
            v == Self::spec_new(kind, perspective),
    {
        let mut v = View {
            viewport_rect: ViewportRect { x: 0, y: 0, w: 0, h: 0 },
            kind,
            col_w: BLOCK_CELL,
            row_h: BLOCK_CELL,
            scroll_offset: ScrollOffset { col: 0, pix_xoff: 0, row: 0, pix_yoff: 0 },
            scroll_speed: 0,
            perspective,
        };
        v.adjust_block_size();
        v
    }

    /// Sets the cell size to what the kind of the view asks for.
    pub fn adjust_block_size(&mut self)
        ensures
            (final(self).col_w, final(self).row_h) == cell_size_of(
                old(self).kind,
                (old(self).col_w, old(self).row_h),
            ),
            *final(self) == (View { col_w: final(self).col_w, row_h: final(self).row_h, ..*old(self) }),
    {
        match self.kind {
            ViewKind::Hex(d) => {
                let doubled: u32 = d.font_size as u32 * 2;
                self.col_w = if doubled < 2 { 0 } else { cell_from(doubled - 2) };
                self.row_h = cell_from(d.font_size as u32);
            },
            ViewKind::Text(d) => {
                self.col_w = cell_from(d.font_size as u32);
                self.row_h = cell_from(if d.line_spacing < 1 { 1 } else { d.line_spacing as u32 });
            },
            ViewKind::Block => {},
        }
    }

    /// Rows that fit in the rectangle of the view; none when rows have no
    /// height.
    pub open spec fn spec_rows(&self) -> int {
        if self.row_h == 0 {
            0
        } else {
            div_toward_zero(self.viewport_rect.h as int, self.row_h as int)
        }
    }

    /// Columns that fit in the rectangle of the view; none when columns have
    /// no width.
    pub open spec fn spec_cols(&self) -> int {
        if self.col_w == 0 {
            0
        } else {
            div_toward_zero(self.viewport_rect.w as int, self.col_w as int)
        }
    }

    /// Rows that are visible: the rows that fit, and none for a rectangle of
    /// negative height.
    pub open spec fn spec_rows_visible(&self) -> int {
        if self.spec_rows() < 0 {
            0
        } else {
            self.spec_rows()
        }
    }

    pub fn rows(&self) -> (n: ViewportScalar)
        ensures
            n == self.spec_rows(),
    {
        if self.row_h == 0 {
            0
        } else {
            div_rounding_to_zero(self.viewport_rect.h as i64, self.row_h as i64) as i16
        }
    }

    pub fn cols(&self) -> (n: ViewportScalar)
        ensures
            n == self.spec_cols(),
    {
        if self.col_w == 0 {
            0
        } else {
            div_rounding_to_zero(self.viewport_rect.w as i64, self.col_w as i64) as i16
        }
    }

    /// Scrolls horizontally by `amount` pixels.
    pub fn scroll_x(&mut self, amount: ViewportScalar)
        ensures
            *final(self) == old(self).spec_scroll_x(amount as int),
    {
        let r = scroll_axis(self.scroll_offset.col, self.scroll_offset.pix_xoff, self.col_w, amount);
        self.scroll_offset.col = r.0;
        self.scroll_offset.pix_xoff = r.1;
    }

    /// Scrolls vertically by `amount` pixels.
    pub fn scroll_y(&mut self, amount: ViewportScalar)
        ensures
            *final(self) == old(self).spec_scroll_y(amount as int),
    {
        let r = scroll_axis(self.scroll_offset.row, self.scroll_offset.pix_yoff, self.row_h, amount);
        self.scroll_offset.row = r.0;
        self.scroll_offset.pix_yoff = r.1;
    }
}

/// `n` cells of `cell` pixels, held to the range of a screen scalar.
fn span_of_cells(n: usize, cell: u8) -> (s: ViewportScalar)
    ensures
        s == saturate_scalar(n * cell),
        s >= 0,
{
    if cell == 0 {
        assert(n * cell == 0) by (nonlinear_arith)
            requires
                cell == 0,
        ;
        0
    } else if n > 32767 {
        assert(n * cell > 32767) by (nonlinear_arith)
            requires
                n > 32767,
                cell >= 1,
        ;
        32767
    } else {
        assert(0 <= n * cell <= 32767 * 255) by (nonlinear_arith)
            requires
                0 <= n <= 32767,
                0 <= cell <= 255,
        ;
        scalar_from((n as i64) * (cell as i64))
    }
}

impl View {
    /// The view can be used with these arenas: its perspective is a usable
    /// entry of `perspectives`.
    pub open spec fn wf(&self, perspectives: PerspectiveMap, regions: RegionMap) -> bool {
        &&& perspectives.entries().contains_key(self.perspective)
        &&& perspectives.entries()[self.perspective].wf(regions)
    }

    /// The view after scrolling horizontally by `amount` pixels.
    pub open spec fn spec_scroll_x(self, amount: int) -> View {
        let m = scrolled_axis(
            self.scroll_offset.col as int,
            self.scroll_offset.pix_xoff as int,
            self.col_w as int,
            amount,
        );
        View {
            scroll_offset: ScrollOffset {
                col: saturate_usize(m.0),
                pix_xoff: saturate_scalar(m.1),
                ..self.scroll_offset
            },
            ..self
        }
    }

    /// The view after scrolling vertically by `amount` pixels.
    pub open spec fn spec_scroll_y(self, amount: int) -> View {
        let m = scrolled_axis(
            self.scroll_offset.row as int,
            self.scroll_offset.pix_yoff as int,
            self.row_h as int,
            amount,
        );
        View {
            scroll_offset: ScrollOffset {
                row: saturate_usize(m.0),
                pix_yoff: saturate_scalar(m.1),
                ..self.scroll_offset
            },
            ..self
        }
    }

    /// The view scrolled so that the cell at `row`, `col` sits in the middle
    /// of its rectangle: first put at the top left, then scrolled back by
    /// half the width and half the height, stopping at row and column zero.
    pub open spec fn spec_centered_on(self, row: usize, col: usize) -> View {
        let at = View {
            scroll_offset: ScrollOffset { col, pix_xoff: 0, row, pix_yoff: 0 },
            ..self
        };
        at.spec_scroll_x(-div_toward_zero(self.viewport_rect.w as int, 2)).spec_scroll_y(
            -div_toward_zero(self.viewport_rect.h as int, 2),
        )
    }

    /// The view centred on the byte at `offset`, which is first brought
    /// into the bound region: an offset before the region counts as its
    /// first byte, one after it as its last.
    pub open spec fn spec_centered_on_offset(
        self,
        p: Perspective,
        regions: RegionMap,
        offset: usize,
    ) -> View {
        let reg = p.bound(regions);
        let at = if offset < reg.begin {
            reg.begin
        } else if offset > reg.end {
            reg.end
        } else {
            offset
        };
        self.spec_centered_on(
            grid_row(reg.begin as int, p.cols as int, at as int) as usize,
            grid_col(reg.begin as int, p.cols as int, at as int) as usize,
        )
    }

    /// The view with the byte at `offset` put at its top left on the axes
    /// that are not locked.
    pub open spec fn spec_scrolled_to(
        self,
        p: Perspective,
        regions: RegionMap,
        offset: usize,
        lock_x: bool,
        lock_y: bool,
    ) -> View {
        let begin = p.bound(regions).begin as int;
        let at = if offset >= begin {
            offset as int
        } else {
            begin
        };
        View {
            scroll_offset: ScrollOffset {
                row: if lock_y {
                    self.scroll_offset.row
                } else {
                    grid_row(begin, p.cols as int, at) as usize
                },
                col: if lock_x {
                    self.scroll_offset.col
                } else {
                    grid_col(begin, p.cols as int, at) as usize
                },
                ..self.scroll_offset
            },
            ..self
        }
    }

    /// Size in pixels that the view would take to show all of its region.
    pub open spec fn spec_max_needed_size(&self, p: Perspective, regions: RegionMap) -> ViewportVec {
        ViewportVec {
            x: saturate_scalar(p.cols * self.col_w),
            y: saturate_scalar(grid_rows(p.bound(regions).spec_len(), p.cols as int) * self.row_h),
        }
    }

    /// The cell under the pixel at `x`, `y`, if the pixel lies in the
    /// rectangle of the view and over a cell of the bound region. When the
    /// perspective shows its rows bottom-up, the rows that fit in the
    /// rectangle are counted from the last one.
    pub open spec fn spec_row_col_of_pos(
        &self,
        p: Perspective,
        regions: RegionMap,
        x: int,
        y: int,
    ) -> Option<(int, int)> {
        let rel_x = x - self.viewport_rect.x + self.scroll_offset.pix_xoff;
        let rel_y = y - self.viewport_rect.y + self.scroll_offset.pix_yoff;
        if !self.viewport_rect.spec_contains_pos(x, y) || self.col_w == 0 || self.row_h == 0 || rel_x
            < 0 || rel_y < 0 {
            None
        } else {
            let down = rel_y / (self.row_h as int);
            let rel_row = if p.flip_row_order {
                self.spec_rows() - 1 - down
            } else {
                down
            };
            let row = self.scroll_offset.row + rel_row;
            let col = self.scroll_offset.col + rel_x / (self.col_w as int);
            if rel_row >= 0 && p.spec_row_col_to_offset(regions, row, col) is Some {
                Some((row, col))
            } else {
                None
            }
        }
    }

    /// Whether the view can be used with these arenas.
    pub fn is_usable(&self, perspectives: &PerspectiveMap, regions: &RegionMap) -> (b: bool)
        ensures
            b == self.wf(*perspectives, *regions),
    {
        match perspective_get(perspectives, self.perspective) {
            Some(p) => p.is_usable(regions),
            None => false,
        }
    }

    /// Row, column and byte offset of the cell at the top left of the view.
    /// A byte offset too large for `usize` is held at `usize::MAX`.
    pub fn offsets(&self, perspectives: &PerspectiveMap, regions: &RegionMap) -> (o: Offsets)
        requires
            perspectives.entries().contains_key(self.perspective),
            regions.entries().contains_key(perspectives.entries()[self.perspective].region),
        ensures
            o.row == self.scroll_offset.row,
            o.col == self.scroll_offset.col,
            o.byte == saturate_usize(
                grid_offset(
                    perspectives.entries()[self.perspective].bound(*regions).begin as int,
                    perspectives.entries()[self.perspective].cols as int,
                    self.scroll_offset.row as int,
                    self.scroll_offset.col as int,
                ),
            ),
    {
        let p = perspective_get(perspectives, self.perspective).unwrap();
        let row = self.scroll_offset.row;
        let col = self.scroll_offset.col;
        Offsets { row, col, byte: p.byte_offset_of_row_col(row, col, regions) }
    }

    /// Scrolls so that the cell at `row`, `col` sits in the middle of the
    /// rectangle of the view.
    pub fn center_on_row_col(&mut self, row: usize, col: usize)
        ensures
            *final(self) == old(self).spec_centered_on(row, col),
    {
        self.scroll_offset.row = row;
        self.scroll_offset.col = col;
        self.scroll_offset.floor();
        let half_w = div_rounding_to_zero(self.viewport_rect.w as i64, 2);
        let half_h = div_rounding_to_zero(self.viewport_rect.h as i64, 2);
        self.scroll_x((-half_w) as i16);
        self.scroll_y((-half_h) as i16);
    }

    /// Scrolls so that the byte at `offset` sits in the middle of the
    /// rectangle of the view. The offset is first brought into the bound
    /// region, so that the view is never centred past the region.
    pub fn center_on_offset(&mut self, offset: usize, perspectives: &PerspectiveMap, regions: &RegionMap)
        requires
            old(self).wf(*perspectives, *regions),
        ensures
            *final(self) == old(self).spec_centered_on_offset(
                perspectives.entries()[old(self).perspective],
                *regions,
                offset,
            ),
    {
        let p = perspective_get(perspectives, self.perspective).unwrap();
        let reg = region_get(regions, p.region).unwrap().region;
        let at = if offset < reg.begin {
            reg.begin
        } else if offset > reg.end {
            reg.end
        } else {
            offset
        };
        let rc = p.row_col_of_byte_offset(at, regions);
        self.center_on_row_col(rc.0, rc.1);
    }

    /// Puts the byte at `offset` at the top left of the view, keeping the
    /// pixel remainders. A locked axis is left as it is: the column stays
    /// when `lock_x` holds, the row stays when `lock_y` holds. An offset
    /// before the region counts as the region's first byte.
    pub fn scroll_to_byte_offset(
        &mut self,
        offset: usize,
        perspectives: &PerspectiveMap,
        regions: &RegionMap,
        lock_x: bool,
        lock_y: bool,
    )
        requires
            old(self).wf(*perspectives, *regions),
        ensures
            *final(self) == old(self).spec_scrolled_to(
                perspectives.entries()[old(self).perspective],
                *regions,
                offset,
                lock_x,
                lock_y,
            ),
    {
        let p = perspective_get(perspectives, self.perspective).unwrap();
        let rc = p.row_col_of_byte_offset(offset, regions);
        if !lock_y {
            self.scroll_offset.row = rc.0;
        }
        if !lock_x {
            self.scroll_offset.col = rc.1;
        }
    }

    /// The cell under the pixel at `x`, `y`, if any.
    pub fn row_col_offset_of_pos(
        &self,
        x: ViewportScalar,
        y: ViewportScalar,
        perspectives: &PerspectiveMap,
        regions: &RegionMap,
    ) -> (r: Option<(usize, usize)>)
        requires
            self.wf(*perspectives, *regions),
        ensures
            ({
                let m = self.spec_row_col_of_pos(
                    perspectives.entries()[self.perspective],
                    *regions,
                    x as int,
                    y as int,
                );
                &&& r is Some == m is Some
                &&& r matches Some(rc) ==> m == Some((rc.0 as int, rc.1 as int))
            }),
    {
        let p = perspective_get(perspectives, self.perspective).unwrap();
        let rel = match self.viewport_rect.relative_offset_of_pos(x, y) {
            Some(rel) => rel,
            None => { return None; },
        };
        if self.col_w == 0 || self.row_h == 0 {
            return None;
        }
        let rel_x: i64 = rel.0 as i64 + self.scroll_offset.pix_xoff as i64;
        let rel_y: i64 = rel.1 as i64 + self.scroll_offset.pix_yoff as i64;
        if rel_x < 0 || rel_y < 0 {
            return None;
        }
        let rel_col: i64 = div_rounding_to_zero(rel_x, self.col_w as i64);
        let down: i64 = div_rounding_to_zero(rel_y, self.row_h as i64);
        let rel_row: i64 = if p.flip_row_order {
            self.rows() as i64 - 1 - down
        } else {
            down
        };
        if rel_row < 0 {
            return None;
        }
        let ghost reg = p.bound(*regions);
        let ghost wide_row = self.scroll_offset.row + rel_row;
        let ghost wide_col = self.scroll_offset.col + rel_col;
        let row = match self.scroll_offset.row.checked_add(rel_row as usize) {
            Some(row) => row,
            None => {
                proof {
                    assert(wide_row * p.cols >= wide_row) by (nonlinear_arith)
                        requires
                            wide_row >= 0,
                            p.cols >= 1,
                    ;
                }
                return None;
            },
        };
        let col = match self.scroll_offset.col.checked_add(rel_col as usize) {
            Some(col) => col,
            None => { return None; },
        };
        if p.row_col_within_bound(row, col, regions) {
            Some((row, col))
        } else {
            None
        }
    }

    /// Bytes shown on one page: visible rows times the columns of the
    /// perspective, held at `usize::MAX` when too large.
    pub fn bytes_per_page(&self, perspectives: &PerspectiveMap) -> (n: usize)
        requires
            perspectives.entries().contains_key(self.perspective),
        ensures
            n == saturate_usize(self.spec_rows_visible() * perspectives.entries()[self.perspective].cols),
    {
        let p = perspective_get(perspectives, self.perspective).unwrap();
        let rows = self.rows();
        let visible: usize = if rows < 0 { 0 } else { rows as usize };
        assert(visible * p.cols >= 0) by (nonlinear_arith)
            requires
                visible >= 0,
                p.cols >= 0,
        ;
        match visible.checked_mul(p.cols) {
            Some(n) => n,
            None => usize::MAX,
        }
    }

    /// Size in pixels that the view would take to show all of its region,
    /// each side held to the range of a screen scalar.
    pub fn max_needed_size(&self, perspectives: &PerspectiveMap, regions: &RegionMap) -> (s: ViewportVec)
        requires
            self.wf(*perspectives, *regions),
        ensures
            s == self.spec_max_needed_size(perspectives.entries()[self.perspective], *regions),
            s.x >= 0,
            s.y >= 0,
    {
        let p = perspective_get(perspectives, self.perspective).unwrap();
        let n_rows = p.n_rows(regions);
        ViewportVec { x: span_of_cells(p.cols, self.col_w), y: span_of_cells(n_rows, self.row_h) }
    }
}

impl NamedView {
    pub fn new(name: String, view: View) -> (r: NamedView)
        ensures
            r.name == name,
            r.view == view,
    {
        NamedView { name, view }
    }

    /// A copy with the same name and view.
    pub fn duplicate(&self) -> (r: NamedView)
        ensures
            r == *self,
    {
        NamedView { name: self.name.clone(), view: self.view }
    }
}

} // verus!
