use hexerator::keys::{PerspectiveKey, RegionKey};
use hexerator::meta::Meta;
use hexerator::perspective::Perspective;
use hexerator::region::{NamedRegion, Region};
use hexerator::view::{
    HexData, NamedView, Offsets, ScrollOffset, TextData, View, ViewKind, ViewportRect, ViewportVec,
};

fn meta_with(begin: usize, end: usize, cols: usize, flip: bool) -> (Meta, RegionKey, PerspectiveKey) {
    let mut meta = Meta::new();
    let rk = meta
        .insert_region(NamedRegion::new("r".to_string(), String::new(), Region { begin, end }))
        .unwrap();
    let mut p = Perspective::from_region(rk, "p".to_string());
    p.cols = cols;
    p.flip_row_order = flip;
    let pk = meta.insert_perspective(p).unwrap();
    (meta, rk, pk)
}

fn hex_view(pk: PerspectiveKey) -> View {
    View::new(ViewKind::Hex(HexData { font_size: 14 }), pk)
}

#[test]
fn view_new_hex_cell_size() {
    let (_m, _rk, pk) = meta_with(0, 99, 48, false);
    let v = hex_view(pk);
    assert_eq!((v.col_w, v.row_h), (26, 14));
    assert_eq!(v.viewport_rect, ViewportRect { x: 0, y: 0, w: 0, h: 0 });
    assert_eq!(v.scroll_offset, ScrollOffset { col: 0, pix_xoff: 0, row: 0, pix_yoff: 0 });
    assert_eq!(v.scroll_speed, 0);
    assert_eq!(v.perspective, pk);
    assert_eq!(v.kind, ViewKind::Hex(HexData { font_size: 14 }));
}

#[test]
fn view_new_text_and_block_cell_size() {
    let (_m, _rk, pk) = meta_with(0, 99, 48, false);
    let t = View::new(ViewKind::Text(TextData { line_spacing: 16, font_size: 14 }), pk);
    assert_eq!((t.col_w, t.row_h), (14, 16));
    let t0 = View::new(ViewKind::Text(TextData { line_spacing: 0, font_size: 14 }), pk);
    assert_eq!((t0.col_w, t0.row_h), (14, 1));
    let b = View::new(ViewKind::Block, pk);
    assert_eq!((b.col_w, b.row_h), (4, 4));
}

#[test]
fn view_cell_size_saturates() {
    let (_m, _rk, pk) = meta_with(0, 99, 48, false);
    let tiny = View::new(ViewKind::Hex(HexData { font_size: 0 }), pk);
    assert_eq!((tiny.col_w, tiny.row_h), (0, 0));
    let one = View::new(ViewKind::Hex(HexData { font_size: 1 }), pk);
    assert_eq!((one.col_w, one.row_h), (0, 1));
    let big = View::new(ViewKind::Hex(HexData { font_size: 200 }), pk);
    assert_eq!((big.col_w, big.row_h), (255, 200));
    let huge = View::new(ViewKind::Text(TextData { line_spacing: 60000, font_size: 65535 }), pk);
    assert_eq!((huge.col_w, huge.row_h), (255, 255));
}

#[test]
fn adjust_block_size_keeps_block_cells() {
    let (_m, _rk, pk) = meta_with(0, 99, 48, false);
    let mut b = View::new(ViewKind::Block, pk);
    b.col_w = 9;
    b.row_h = 3;
    b.adjust_block_size();
    assert_eq!((b.col_w, b.row_h), (9, 3));
    b.kind = ViewKind::Hex(HexData { font_size: 10 });
    b.adjust_block_size();
    assert_eq!((b.col_w, b.row_h), (18, 10));
}

#[test]
fn rect_contains_pos_includes_borders() {
    let r = ViewportRect { x: 10, y: 20, w: 30, h: 40 };
    assert!(r.contains_pos(10, 20));
    assert!(r.contains_pos(40, 60));
    assert!(r.contains_pos(25, 33));
    assert!(!r.contains_pos(9, 20));
    assert!(!r.contains_pos(10, 19));
    assert!(!r.contains_pos(41, 60));
    assert!(!r.contains_pos(40, 61));
}

#[test]
fn rect_contains_pos_near_the_scalar_limit() {
    let r = ViewportRect { x: 32000, y: 32000, w: 32000, h: 32000 };
    assert!(r.contains_pos(32767, 32767));
    assert!(!r.contains_pos(31999, 32767));
}

#[test]
fn rect_relative_offset() {
    let r = ViewportRect { x: 10, y: 20, w: 30, h: 40 };
    assert_eq!(r.relative_offset_of_pos(15, 26), Some((5, 6)));
    assert_eq!(r.relative_offset_of_pos(10, 20), Some((0, 0)));
    assert_eq!(r.relative_offset_of_pos(9, 26), None);
    let far = ViewportRect { x: -32768, y: -32768, w: 32767, h: 32767 };
    assert_eq!(far.relative_offset_of_pos(-1, -1), Some((32767, 32767)));
}

#[test]
fn scroll_offset_floor() {
    let mut s = ScrollOffset { col: 3, pix_xoff: -7, row: 9, pix_yoff: 11 };
    s.floor();
    assert_eq!(s, ScrollOffset { col: 3, pix_xoff: 0, row: 9, pix_yoff: 0 });
}

#[test]
fn rows_and_cols_that_fit() {
    let (_m, _rk, pk) = meta_with(0, 99, 48, false);
    let mut v = hex_view(pk);
    v.viewport_rect = ViewportRect { x: 0, y: 0, w: 270, h: 100 };
    assert_eq!(v.rows(), 7);
    assert_eq!(v.cols(), 10);
    v.viewport_rect.h = -30;
    v.viewport_rect.w = -27;
    assert_eq!(v.rows(), -2);
    assert_eq!(v.cols(), -1);
    v.row_h = 0;
    v.col_w = 0;
    assert_eq!(v.rows(), 0);
    assert_eq!(v.cols(), 0);
}

#[test]
fn scroll_y_forward() {
    let (_m, _rk, pk) = meta_with(0, 99, 48, false);
    let mut v = hex_view(pk);
    v.scroll_offset.row = 10;
    v.scroll_y(30);
    assert_eq!(v.scroll_offset, ScrollOffset { col: 0, pix_xoff: 0, row: 12, pix_yoff: 2 });
    v.scroll_y(12);
    assert_eq!(v.scroll_offset, ScrollOffset { col: 0, pix_xoff: 0, row: 13, pix_yoff: 0 });
}

#[test]
fn scroll_y_back() {
    let (_m, _rk, pk) = meta_with(0, 99, 48, false);
    let mut v = hex_view(pk);
    v.scroll_offset.row = 10;
    v.scroll_y(-30);
    assert_eq!(v.scroll_offset, ScrollOffset { col: 0, pix_xoff: 0, row: 8, pix_yoff: -2 });
}

#[test]
fn scroll_y_back_stops_at_row_zero() {
    let (_m, _rk, pk) = meta_with(0, 99, 48, false);
    let mut v = hex_view(pk);
    v.scroll_offset.row = 1;
    v.scroll_y(-30);
    assert_eq!(v.scroll_offset, ScrollOffset { col: 0, pix_xoff: 0, row: 0, pix_yoff: -16 });
    v.scroll_y(-30);
    assert_eq!(v.scroll_offset, ScrollOffset { col: 0, pix_xoff: 0, row: 0, pix_yoff: -46 });
}

#[test]
fn scroll_x_both_ways() {
    let (_m, _rk, pk) = meta_with(0, 99, 48, false);
    let mut v = hex_view(pk);
    v.scroll_offset.col = 4;
    v.scroll_x(60);
    assert_eq!(v.scroll_offset, ScrollOffset { col: 6, pix_xoff: 8, row: 0, pix_yoff: 0 });
    v.scroll_x(-60);
    assert_eq!(v.scroll_offset, ScrollOffset { col: 4, pix_xoff: 0, row: 0, pix_yoff: 0 });
    v.scroll_x(-27);
    assert_eq!(v.scroll_offset, ScrollOffset { col: 3, pix_xoff: -1, row: 0, pix_yoff: 0 });
}

#[test]
fn scroll_with_cells_of_no_size_moves_pixels_only() {
    let (_m, _rk, pk) = meta_with(0, 99, 48, false);
    let mut v = hex_view(pk);
    v.row_h = 0;
    v.scroll_offset.row = 5;
    v.scroll_y(100);
    assert_eq!(v.scroll_offset, ScrollOffset { col: 0, pix_xoff: 0, row: 5, pix_yoff: 100 });
    v.scroll_y(-300);
    assert_eq!(v.scroll_offset, ScrollOffset { col: 0, pix_xoff: 0, row: 5, pix_yoff: -200 });
}

#[test]
fn scroll_saturates_at_the_limits() {
    let (_m, _rk, pk) = meta_with(0, 99, 48, false);
    let mut v = hex_view(pk);
    v.col_w = 255;
    v.scroll_offset.pix_xoff = 32767;
    v.scroll_x(32767);
    assert_eq!(v.scroll_offset.col, 256);
    assert_eq!(v.scroll_offset.pix_xoff, 254);
    let mut w = hex_view(pk);
    w.scroll_offset.pix_yoff = -32768;
    w.scroll_y(-32768);
    assert_eq!(w.scroll_offset.row, 0);
    assert_eq!(w.scroll_offset.pix_yoff, -32768);
    let mut z = hex_view(pk);
    z.scroll_offset.row = usize::MAX;
    z.scroll_y(140);
    assert_eq!(z.scroll_offset.row, usize::MAX);
    assert_eq!(z.scroll_offset.pix_yoff, 0);
}

#[test]
fn center_on_row_col_scrolls_back_half_a_viewport() {
    let (_m, _rk, pk) = meta_with(0, 99_999, 48, false);
    let mut v = hex_view(pk);
    v.viewport_rect = ViewportRect { x: 0, y: 0, w: 260, h: 140 };
    v.scroll_offset.pix_xoff = 3;
    v.scroll_offset.pix_yoff = -4;
    v.center_on_row_col(50, 20);
    assert_eq!(v.scroll_offset, ScrollOffset { col: 15, pix_xoff: 0, row: 45, pix_yoff: 0 });
}

#[test]
fn center_on_row_col_is_clamped_at_the_start() {
    let (_m, _rk, pk) = meta_with(0, 99_999, 48, false);
    let mut v = hex_view(pk);
    v.viewport_rect = ViewportRect { x: 0, y: 0, w: 260, h: 140 };
    v.center_on_row_col(2, 1);
    assert_eq!(v.scroll_offset, ScrollOffset { col: 0, pix_xoff: -104, row: 0, pix_yoff: -42 });
}

#[test]
fn center_on_offset_uses_the_perspective() {
    let (m, _rk, pk) = meta_with(100, 99_999, 48, false);
    let mut v = hex_view(pk);
    v.viewport_rect = ViewportRect { x: 0, y: 0, w: 260, h: 140 };
    v.center_on_offset(100 + 50 * 48 + 20, &m.perspectives, &m.regions);
    assert_eq!(v.scroll_offset, ScrollOffset { col: 15, pix_xoff: 0, row: 45, pix_yoff: 0 });
    v.center_on_offset(5, &m.perspectives, &m.regions);
    assert_eq!(v.scroll_offset, ScrollOffset { col: 0, pix_xoff: -130, row: 0, pix_yoff: -70 });
}

#[test]
fn center_on_offset_stays_inside_the_region() {
    let (m, _rk, pk) = meta_with(100, 99_999, 48, false);
    let mut v = hex_view(pk);
    v.viewport_rect = ViewportRect { x: 0, y: 0, w: 260, h: 140 };
    // The last byte sits at row 2081, column 11.
    v.center_on_offset(usize::MAX, &m.perspectives, &m.regions);
    assert_eq!(v.scroll_offset, ScrollOffset { col: 6, pix_xoff: 0, row: 2076, pix_yoff: 0 });
    let mut w = hex_view(pk);
    w.viewport_rect = ViewportRect { x: 0, y: 0, w: 260, h: 140 };
    w.center_on_offset(99_999, &m.perspectives, &m.regions);
    assert_eq!(w.scroll_offset, v.scroll_offset);
}

#[test]
fn offsets_of_the_top_left_cell() {
    let (m, _rk, pk) = meta_with(100, 99_999, 48, false);
    let mut v = hex_view(pk);
    v.scroll_offset.row = 3;
    v.scroll_offset.col = 7;
    assert_eq!(v.offsets(&m.perspectives, &m.regions), Offsets { row: 3, col: 7, byte: 251 });
    v.scroll_offset.row = usize::MAX;
    assert_eq!(v.offsets(&m.perspectives, &m.regions).byte, usize::MAX);
}

#[test]
fn scroll_to_byte_offset_respects_locks() {
    let (m, _rk, pk) = meta_with(100, 99_999, 48, false);
    let base = {
        let mut v = hex_view(pk);
        v.scroll_offset = ScrollOffset { col: 9, pix_xoff: 2, row: 9, pix_yoff: -3 };
        v
    };
    let target = 100 + 5 * 48 + 4;
    let mut free = base;
    free.scroll_to_byte_offset(target, &m.perspectives, &m.regions, false, false);
    assert_eq!(free.scroll_offset, ScrollOffset { col: 4, pix_xoff: 2, row: 5, pix_yoff: -3 });
    let mut x_locked = base;
    x_locked.scroll_to_byte_offset(target, &m.perspectives, &m.regions, true, false);
    assert_eq!(x_locked.scroll_offset, ScrollOffset { col: 9, pix_xoff: 2, row: 5, pix_yoff: -3 });
    let mut y_locked = base;
    y_locked.scroll_to_byte_offset(target, &m.perspectives, &m.regions, false, true);
    assert_eq!(y_locked.scroll_offset, ScrollOffset { col: 4, pix_xoff: 2, row: 9, pix_yoff: -3 });
    let mut both = base;
    both.scroll_to_byte_offset(target, &m.perspectives, &m.regions, true, true);
    assert_eq!(both.scroll_offset, base.scroll_offset);
}

#[test]
fn hit_test_finds_the_cell() {
    let (m, _rk, pk) = meta_with(0, 999, 48, false);
    let mut v = hex_view(pk);
    v.viewport_rect = ViewportRect { x: 10, y: 20, w: 260, h: 140 };
    v.scroll_offset.row = 3;
    v.scroll_offset.col = 1;
    assert_eq!(v.row_col_offset_of_pos(67, 77, &m.perspectives, &m.regions), Some((7, 3)));
    assert_eq!(v.row_col_offset_of_pos(10, 20, &m.perspectives, &m.regions), Some((3, 1)));
}

#[test]
fn hit_test_misses_outside_the_rectangle() {
    let (m, _rk, pk) = meta_with(0, 999, 48, false);
    let mut v = hex_view(pk);
    v.viewport_rect = ViewportRect { x: 10, y: 20, w: 260, h: 140 };
    assert_eq!(v.row_col_offset_of_pos(9, 20, &m.perspectives, &m.regions), None);
    assert_eq!(v.row_col_offset_of_pos(10, 19, &m.perspectives, &m.regions), None);
    assert_eq!(v.row_col_offset_of_pos(271, 20, &m.perspectives, &m.regions), None);
    assert_eq!(v.row_col_offset_of_pos(10, 161, &m.perspectives, &m.regions), None);
}

#[test]
fn hit_test_misses_outside_the_grid() {
    let (m, _rk, pk) = meta_with(0, 24, 10, false);
    let mut v = hex_view(pk);
    v.viewport_rect = ViewportRect { x: 0, y: 0, w: 1000, h: 1000 };
    assert_eq!(v.row_col_offset_of_pos(26 * 4 + 1, 14 * 2 + 1, &m.perspectives, &m.regions), Some((2, 4)));
    assert_eq!(v.row_col_offset_of_pos(26 * 5 + 1, 14 * 2 + 1, &m.perspectives, &m.regions), None);
    assert_eq!(v.row_col_offset_of_pos(1, 14 * 3 + 1, &m.perspectives, &m.regions), None);
    assert_eq!(v.row_col_offset_of_pos(26 * 10 + 1, 1, &m.perspectives, &m.regions), None);
}

#[test]
fn hit_test_with_pixel_offsets() {
    let (m, _rk, pk) = meta_with(0, 999, 48, false);
    let mut v = hex_view(pk);
    v.viewport_rect = ViewportRect { x: 0, y: 0, w: 260, h: 140 };
    v.scroll_offset.pix_xoff = 20;
    v.scroll_offset.pix_yoff = -5;
    assert_eq!(v.row_col_offset_of_pos(10, 10, &m.perspectives, &m.regions), Some((0, 1)));
    assert_eq!(v.row_col_offset_of_pos(10, 4, &m.perspectives, &m.regions), None);
}

#[test]
fn hit_test_with_flipped_rows() {
    let (m, _rk, pk) = meta_with(0, 999, 48, true);
    let mut v = hex_view(pk);
    v.viewport_rect = ViewportRect { x: 10, y: 20, w: 260, h: 140 };
    v.scroll_offset.row = 3;
    v.scroll_offset.col = 1;
    // Ten rows fit. The pixel lies in the fifth row from the top, the sixth from the bottom.
    assert_eq!(v.row_col_offset_of_pos(67, 77, &m.perspectives, &m.regions), Some((8, 3)));
    assert_eq!(v.row_col_offset_of_pos(67, 20, &m.perspectives, &m.regions), Some((12, 3)));
    assert_eq!(v.row_col_offset_of_pos(67, 20 + 139, &m.perspectives, &m.regions), Some((3, 3)));
    assert_eq!(v.row_col_offset_of_pos(67, 20 + 140, &m.perspectives, &m.regions), None);
}

#[test]
fn hit_test_with_cells_of_no_size() {
    let (m, _rk, pk) = meta_with(0, 999, 48, false);
    let mut v = hex_view(pk);
    v.viewport_rect = ViewportRect { x: 0, y: 0, w: 260, h: 140 };
    v.col_w = 0;
    assert_eq!(v.row_col_offset_of_pos(5, 5, &m.perspectives, &m.regions), None);
}

#[test]
fn bytes_per_page_is_rows_times_cols() {
    let (m, _rk, pk) = meta_with(0, 999, 48, false);
    let mut v = hex_view(pk);
    v.viewport_rect = ViewportRect { x: 0, y: 0, w: 260, h: 140 };
    assert_eq!(v.bytes_per_page(&m.perspectives), 480);
    v.viewport_rect.h = -140;
    assert_eq!(v.bytes_per_page(&m.perspectives), 0);
    v.viewport_rect.h = 13;
    assert_eq!(v.bytes_per_page(&m.perspectives), 0);
}

#[test]
fn bytes_per_page_saturates() {
    let (m, _rk, pk) = meta_with(0, usize::MAX - 1, usize::MAX - 1, false);
    let mut v = hex_view(pk);
    v.viewport_rect = ViewportRect { x: 0, y: 0, w: 260, h: 140 };
    assert_eq!(v.bytes_per_page(&m.perspectives), usize::MAX);
}

#[test]
fn max_needed_size_of_a_small_region() {
    let (m, _rk, pk) = meta_with(0, 99, 48, false);
    let v = hex_view(pk);
    assert_eq!(v.max_needed_size(&m.perspectives, &m.regions), ViewportVec { x: 1248, y: 42 });
    let b = View::new(ViewKind::Block, pk);
    assert_eq!(b.max_needed_size(&m.perspectives, &m.regions), ViewportVec { x: 192, y: 12 });
}

#[test]
fn max_needed_size_saturates() {
    let (m, _rk, pk) = meta_with(0, 9_999_999, 2000, false);
    let v = hex_view(pk);
    assert_eq!(v.max_needed_size(&m.perspectives, &m.regions), ViewportVec { x: 32767, y: 32767 });
    let mut flat = hex_view(pk);
    flat.col_w = 0;
    flat.row_h = 0;
    assert_eq!(flat.max_needed_size(&m.perspectives, &m.regions), ViewportVec { x: 0, y: 0 });
}

#[test]
fn named_view_duplicate_is_equal() {
    let (_m, _rk, pk) = meta_with(0, 99, 48, false);
    let nv = NamedView::new("hex".to_string(), hex_view(pk));
    let copy = nv.duplicate();
    assert_eq!(copy.name, "hex");
    assert_eq!(copy.view, nv.view);
}
