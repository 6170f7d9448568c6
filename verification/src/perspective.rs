//! A perspective folds the bytes of a region into a grid of rows and columns.

use vstd::prelude::*;
use crate::arena::{region_get, RegionMap};
use crate::keys::RegionKey;
use crate::region::Region;

verus! {

/// A region read as a grid of `cols` columns.
#[derive(Clone, Debug, PartialEq, Eq)]
pub struct Perspective {
    /// The region whose bytes are folded.
    pub region: RegionKey,
    /// Column count; at least one in every usable perspective.
    pub cols: usize,
    /// Whether rows are shown bottom-up within the visible window.
    pub flip_row_order: bool,
    pub name: String,
}

/// Row of `offset` in a grid of `cols` columns that starts at `begin`.
pub open spec fn grid_row(begin: int, cols: int, offset: int) -> int {
    (offset - begin) / cols
}

/// Column of `offset` in a grid of `cols` columns that starts at `begin`.
pub open spec fn grid_col(begin: int, cols: int, offset: int) -> int {
    (offset - begin) % cols
}

/// Offset of the cell at `row`, `col` in a grid of `cols` columns that
/// starts at `begin`.
pub open spec fn grid_offset(begin: int, cols: int, row: int, col: int) -> int {
    begin + row * cols + col
}

/// Number of rows that `len` cells occupy in a grid of `cols` columns.
pub open spec fn grid_rows(len: int, cols: int) -> int {
    if len % cols == 0 {
        len / cols
    } else {
        len / cols + 1
    }
}

/// The largest `usize` not above the non-negative `v`.
pub open spec fn saturate_usize(v: int) -> usize {
    if v > usize::MAX {
        usize::MAX
    } else {
        v as usize
    }
}

/// The column count `cols` forced into `1..=len`.
pub open spec fn clamped_cols(cols: int, len: int) -> int {
    if cols < 1 {
        1
    } else if cols > len {
        len
    } else {
        cols
    }
}

/// Splitting an offset into row and column and joining them again gives the
/// offset back, for every offset at or after the start of the grid.
pub proof fn lemma_grid_round_trip(begin: int, cols: int, offset: int)
    requires
        cols >= 1,
        begin <= offset,
    ensures
        grid_offset(begin, cols, grid_row(begin, cols, offset), grid_col(begin, cols, offset))
            == offset,
        0 <= grid_col(begin, cols, offset) < cols,
        0 <= grid_row(begin, cols, offset),
{
    let d = offset - begin;
    vstd::arithmetic::div_mod::lemma_fundamental_div_mod(d, cols);
    vstd::arithmetic::div_mod::lemma_mod_bound(d, cols);
    vstd::arithmetic::div_mod::lemma_div_pos_is_pos(d, cols);
    vstd::arithmetic::mul::lemma_mul_is_commutative(cols, d / cols);
}

/// Joining a row and an in-range column and splitting the offset again gives
/// the same row and column.
pub proof fn lemma_grid_cell_round_trip(begin: int, cols: int, row: int, col: int)
    requires
        cols >= 1,
        0 <= row,
        0 <= col < cols,
    ensures
        grid_row(begin, cols, grid_offset(begin, cols, row, col)) == row,
        grid_col(begin, cols, grid_offset(begin, cols, row, col)) == col,
{
    let d = row * cols + col;
    vstd::arithmetic::div_mod::lemma_fundamental_div_mod_converse(d, cols, row, col);
}

impl Perspective {
    /// The perspective can be used: it has at least one column and its
    /// region is a well-formed, measurable entry of `regions`.
    pub open spec fn wf(&self, regions: RegionMap) -> bool {
        &&& self.cols >= 1
        &&& regions.entries().contains_key(self.region)
        &&& regions.entries()[self.region].region.wf()
        &&& regions.entries()[self.region].region.measurable()
    }

    /// The region the perspective is bound to.
    pub open spec fn bound(&self, regions: RegionMap) -> Region {
        regions.entries()[self.region].region
    }

    /// Where `offset` falls in the grid, when it lies in the bound region.
    pub open spec fn spec_offset_to_row_col(&self, regions: RegionMap, offset: int) -> Option<
        (int, int),
    > {
        let reg = self.bound(regions);
        if reg.spec_contains(offset) {
            Some(
                (
                    grid_row(reg.begin as int, self.cols as int, offset),
                    grid_col(reg.begin as int, self.cols as int, offset),
                ),
            )
        } else {
            None
        }
    }

    /// The offset of a cell, when the column exists and the cell lies in the
    /// bound region.
    pub open spec fn spec_row_col_to_offset(&self, regions: RegionMap, row: int, col: int) -> Option<
        int,
    > {
        let reg = self.bound(regions);
        let off = grid_offset(reg.begin as int, self.cols as int, row, col);
        if col < self.cols && off <= reg.end {
            Some(off)
        } else {
            None
        }
    }

    /// Row and column of an offset of the bound region lead back to the
    /// offset, and the column is one that exists.
    pub proof fn lemma_offset_round_trip(&self, regions: RegionMap, offset: int)
        requires
            self.wf(regions),
            self.bound(regions).spec_contains(offset),
        ensures
            self.spec_offset_to_row_col(regions, offset) matches Some(rc) && rc.0 >= 0 && 0 <= rc.1
                < self.cols && self.spec_row_col_to_offset(regions, rc.0, rc.1) == Some(offset),
    {
        lemma_grid_round_trip(self.bound(regions).begin as int, self.cols as int, offset);
    }

    /// The offset of a cell of the bound region leads back to its row and
    /// column.
    pub proof fn lemma_cell_round_trip(&self, regions: RegionMap, row: int, col: int)
        requires
            self.wf(regions),
            0 <= row,
            0 <= col,
            self.spec_row_col_to_offset(regions, row, col) is Some,
        ensures
            self.spec_offset_to_row_col(
                regions,
                self.spec_row_col_to_offset(regions, row, col)->0,
            ) == Some((row, col)),
    {
        lemma_grid_cell_round_trip(self.bound(regions).begin as int, self.cols as int, row, col);
        assert(row * self.cols >= 0) by (nonlinear_arith)
            requires
                row >= 0,
                self.cols >= 1,
        ;
    }

    /// A perspective over `region` with the default of 48 columns.
    pub fn from_region(region: RegionKey, name: String) -> (p: Perspective)
        ensures
            p.region == region,
            p.cols == 48,
            !p.flip_row_order,
            p.name == name,
    {
        Perspective { region, cols: 48, flip_row_order: false, name }
    }

    /// Whether the perspective can be used with `regions`.
    pub fn is_usable(&self, regions: &RegionMap) -> (b: bool)
        ensures
            b == self.wf(*regions),
    {
        match region_get(regions, self.region) {
            Some(named) => {
                let r = named.region;
                self.cols >= 1 && r.begin <= r.end && !(r.begin == 0 && r.end == usize::MAX)
            },
            None => false,
        }
    }

    /// A copy with the same fields.
    pub fn duplicate(&self) -> (p: Perspective)
        ensures
            p == *self,
    {
        Perspective {
            region: self.region,
            cols: self.cols,
            flip_row_order: self.flip_row_order,
            name: self.name.clone(),
        }
    }

    /// Row and column of `offset`, or nothing when the offset is outside the
    /// bound region.
    pub fn offset_to_row_col(&self, offset: usize, regions: &RegionMap) -> (r: Option<(usize, usize)>)
        requires
            self.wf(*regions),
        ensures
            r is Some == self.bound(*regions).spec_contains(offset as int),
            r matches Some(rc) ==> self.spec_offset_to_row_col(*regions, offset as int) == Some(
                (rc.0 as int, rc.1 as int),
            ),
    {
        let reg = region_get(regions, self.region).unwrap().region;
        if reg.contains(offset) {
            let d = offset - reg.begin;
            Some((d / self.cols, d % self.cols))
        } else {
            None
        }
    }

    /// Offset of the cell at `row`, `col`, or nothing when the column does
    /// not exist or the cell lies past the end of the bound region.
    pub fn row_col_to_offset(&self, row: usize, col: usize, regions: &RegionMap) -> (r: Option<usize>)
        requires
            self.wf(*regions),
        ensures
            r is Some == self.spec_row_col_to_offset(*regions, row as int, col as int) is Some,
            r matches Some(off) ==> self.spec_row_col_to_offset(*regions, row as int, col as int)
                == Some(off as int),
    {
        let reg = region_get(regions, self.region).unwrap().region;
        if col >= self.cols {
            return None;
        }
        let span = reg.end - reg.begin;
        let last_row = span / self.cols;
        proof {
            vstd::arithmetic::div_mod::lemma_fundamental_div_mod(span as int, self.cols as int);
            vstd::arithmetic::div_mod::lemma_mod_bound(span as int, self.cols as int);
            vstd::arithmetic::mul::lemma_mul_is_commutative(self.cols as int, last_row as int);
        }
        if row > last_row {
            proof {
                vstd::arithmetic::mul::lemma_mul_inequality(
                    last_row as int + 1,
                    row as int,
                    self.cols as int,
                );
                vstd::arithmetic::mul::lemma_mul_is_distributive_add_other_way(
                    self.cols as int,
                    last_row as int,
                    1,
                );
            }
            return None;
        }
        proof {
            vstd::arithmetic::mul::lemma_mul_inequality(
                row as int,
                last_row as int,
                self.cols as int,
            );
        }
        let within = row * self.cols;
        if col > span - within {
            None
        } else {
            Some(reg.begin + within + col)
        }
    }

    /// Whether the column exists and the cell lies in the bound region.
    pub fn row_col_within_bound(&self, row: usize, col: usize, regions: &RegionMap) -> (b: bool)
        requires
            self.wf(*regions),
        ensures
            b == self.spec_row_col_to_offset(*regions, row as int, col as int) is Some,
    {
        self.row_col_to_offset(row, col, regions).is_some()
    }

    /// Offset of the cell at `row`, `col`, whether or not it lies in the
    /// region; an offset too large for `usize` is held at `usize::MAX`.
    pub fn byte_offset_of_row_col(&self, row: usize, col: usize, regions: &RegionMap) -> (off: usize)
        requires
            regions.entries().contains_key(self.region),
        ensures
            off == saturate_usize(
                grid_offset(self.bound(*regions).begin as int, self.cols as int, row as int, col as int),
            ),
    {
        let reg = region_get(regions, self.region).unwrap().region;
        assert(row * self.cols >= 0) by (nonlinear_arith)
            requires
                row >= 0,
                self.cols >= 0,
        ;
        match row.checked_mul(self.cols) {
            Some(within) => match within.checked_add(col) {
                Some(rel) => match rel.checked_add(reg.begin) {
                    Some(off) => off,
                    None => usize::MAX,
                },
                None => usize::MAX,
            },
            None => usize::MAX,
        }
    }

    /// Row and column of `offset`; an offset before the region counts as the
    /// region's first byte.
    pub fn row_col_of_byte_offset(&self, offset: usize, regions: &RegionMap) -> (rc: (usize, usize))
        requires
            self.cols >= 1,
            regions.entries().contains_key(self.region),
        ensures
            ({
                let begin = self.bound(*regions).begin as int;
                let at = if offset >= begin { offset as int } else { begin };
                &&& rc.0 == grid_row(begin, self.cols as int, at)
                &&& rc.1 == grid_col(begin, self.cols as int, at)
            }),
    {
        let reg = region_get(regions, self.region).unwrap().region;
        let d = if offset >= reg.begin { offset - reg.begin } else { 0 };
        (d / self.cols, d % self.cols)
    }

    /// Forces the column count into `1..=len` of the bound region.
    pub fn clamp_cols(&mut self, regions: &RegionMap)
        requires
            regions.entries().contains_key(old(self).region),
            regions.entries()[old(self).region].region.wf(),
            regions.entries()[old(self).region].region.measurable(),
        ensures
            final(self).cols >= 1,
            final(self).wf(*regions),
            final(self).cols == clamped_cols(
                old(self).cols as int,
                old(self).bound(*regions).spec_len(),
            ),
            final(self).region == old(self).region,
            final(self).flip_row_order == old(self).flip_row_order,
            final(self).name == old(self).name,
    {
        let len = region_get(regions, self.region).unwrap().region.len();
        if self.cols < 1 {
            self.cols = 1;
        } else if self.cols > len {
            self.cols = len;
        }
    }

    /// Number of rows the bound region occupies.
    pub fn n_rows(&self, regions: &RegionMap) -> (n: usize)
        requires
            self.wf(*regions),
        ensures
            n == grid_rows(self.bound(*regions).spec_len(), self.cols as int),
            n >= 1,
    {
        let len = region_get(regions, self.region).unwrap().region.len();
        let whole = len / self.cols;
        proof {
            vstd::arithmetic::div_mod::lemma_fundamental_div_mod(len as int, self.cols as int);
            vstd::arithmetic::div_mod::lemma_mod_bound(len as int, self.cols as int);
            vstd::arithmetic::mul::lemma_mul_is_commutative(self.cols as int, whole as int);
            if whole == usize::MAX {
                assert(self.cols * whole >= whole) by (nonlinear_arith)
                    requires
                        self.cols >= 1,
                        whole >= 0,
                ;
            }
            if whole == 0 {
                assert(self.cols * whole == 0) by (nonlinear_arith)
                    requires
                        whole == 0,
                ;
            }
        }
        if len % self.cols != 0 {
            whole + 1
        } else {
            whole
        }
    }
}

} // verus!
