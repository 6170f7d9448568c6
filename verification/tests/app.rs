use hexerator::app::{
    col_change_impl_view_perspective, default_views, diff_bytes, App, FileDiffEntry, Preferences,
};
use hexerator::damage::DamageRegion;
use hexerator::edit_state::EditState;
use hexerator::gui::{ContextMenuData, EditTarget};
use hexerator::keys::{LayoutKey, ViewKey};
use hexerator::layout::Layout;
use hexerator::meta::Meta;
use hexerator::perspective::Perspective;
use hexerator::region::{NamedRegion, Region};
use hexerator::save::{ReloadError, SaveError, SavePlan};
use hexerator::source::{
    Source, SourceArgs, SourceAttributes, SourcePermissions, SourceProvider, SourceState,
};
use hexerator::view::{
    HexData, NamedView, ScrollOffset, TextData, View, ViewKind, ViewportRect,
};

fn args(stdin: bool, read_only: bool, stream: bool) -> SourceArgs {
    SourceArgs { stdin, hard_seek: None, take: None, read_only, stream }
}

fn file_source() -> Source {
    Source::opened(&args(false, false, false))
}

fn app_with_bytes(n: usize) -> App {
    App::new((0..n).map(|i| i as u8).collect(), Some(file_source()), None, 16)
}

fn keys_of(app: &App) -> Vec<ViewKey> {
    app.meta.layouts.get(app.current_layout).unwrap().iter()
}

fn focused_cols(app: &App) -> usize {
    let v = app.meta.views.get(app.focused_view.unwrap()).unwrap();
    app.meta.perspectives.get(v.view.perspective).unwrap().cols
}

fn focused_scroll(app: &App) -> ScrollOffset {
    app.meta.views.get(app.focused_view.unwrap()).unwrap().view.scroll_offset
}

#[test]
fn source_opened_from_a_file() {
    let s = Source::opened(&args(false, false, false));
    assert_eq!(s.provider, SourceProvider::File);
    assert_eq!(
        s.attr,
        SourceAttributes {
            seekable: true,
            stream: false,
            permissions: SourcePermissions { read: true, write: true },
        }
    );
    assert_eq!(s.state, SourceState { stream_end: false });
    assert!(s.loads_at_once());
    let ro = Source::opened(&args(false, true, true));
    assert!(ro.attr.seekable && ro.attr.stream && !ro.attr.permissions.write);
    assert!(!ro.loads_at_once());
}

#[test]
fn source_opened_from_standard_input() {
    let s = Source::opened(&args(true, false, false));
    assert_eq!(s.provider, SourceProvider::Stdin);
    assert_eq!(
        s.attr,
        SourceAttributes {
            seekable: false,
            stream: true,
            permissions: SourcePermissions { read: true, write: false },
        }
    );
    assert!(!s.loads_at_once());
}

#[test]
fn preferences_default_is_all_off() {
    let p = Preferences::default();
    assert!(!p.move_edit_cursor && !p.quick_edit && !p.sticky_edit && !p.auto_save && !p.keep_meta);
}

#[test]
fn edit_target_switches_back_and_forth() {
    let mut t = EditTarget::Hex;
    t.switch();
    assert_eq!(t, EditTarget::Text);
    t.switch();
    assert_eq!(t, EditTarget::Hex);
}

#[test]
fn context_menu_data_holds_view_and_offset() {
    let app = app_with_bytes(10);
    let k = app.focused_view.unwrap();
    let ContextMenuData::ViewByte { view, byte_off } = ContextMenuData::ViewByte { view: k, byte_off: 7 };
    assert_eq!(view, k);
    assert_eq!(byte_off, 7);
}

#[test]
fn null_layout_key_is_null() {
    assert!(LayoutKey::null().is_null());
    assert!(LayoutKey::null().same(LayoutKey::null()));
    let app = app_with_bytes(10);
    assert!(!app.current_layout.is_null());
    assert!(!app.current_layout.same(LayoutKey::null()));
    assert!(app.current_layout.same(app.current_layout));
    assert!(app.meta.layouts.get(LayoutKey::null()).is_none());
}

#[test]
fn keys_compare_by_identity() {
    let app = app_with_bytes(10);
    let keys = keys_of(&app);
    assert!(keys[0].same(keys[0]));
    assert!(!keys[0].same(keys[1]));
    assert!(!keys[1].same(keys[2]));
    let v = app.meta.views.get(keys[0]).unwrap();
    let w = app.meta.views.get(keys[1]).unwrap();
    assert!(v.view.perspective.same(w.view.perspective));
    let p = app.meta.perspectives.get(v.view.perspective).unwrap();
    assert!(p.region.same(p.region));
}

#[test]
fn app_new_without_a_source_is_empty() {
    let app = App::new(Vec::new(), None, None, 16);
    assert!(app.current_layout.is_null());
    assert_eq!(app.focused_view, None);
    assert_eq!(app.meta.regions.len(), 0);
    assert_eq!(app.meta.perspectives.len(), 0);
    assert_eq!(app.meta.views.len(), 0);
    assert_eq!(app.meta.layouts.len(), 0);
    assert_eq!(app.meta.layouts.first_key(), None);
    assert_eq!(app.dirty_region, None);
    assert_eq!(app.edit_state.cursor, 0);
    assert!(!app.col_change_lock_x);
    assert!(app.col_change_lock_y);
    assert!(app.just_reloaded);
    assert!(!app.meta_dirty);
    assert!(!app.stream_pending);
    assert_eq!(app.select_a, None);
    assert_eq!(app.select_b, None);
    assert_eq!(app.hex_iface_rect, ViewportRect { x: 0, y: 0, w: 0, h: 0 });
    assert_eq!(app.preferences, Preferences::default());
}

#[test]
fn app_new_with_a_source_holds_the_defaults() {
    let app = app_with_bytes(100);
    assert_eq!(app.data.len(), 100);
    assert_eq!(app.meta.regions.len(), 1);
    assert_eq!(app.meta.perspectives.len(), 1);
    assert_eq!(app.meta.views.len(), 3);
    assert_eq!(app.meta.layouts.len(), 1);
    assert_eq!(app.meta.layouts.first_key(), Some(app.current_layout));
    let layout = app.meta.layouts.get(app.current_layout).unwrap();
    assert_eq!(layout.name, "Default layout");
    assert_eq!(layout.margin, 6);
    assert_eq!(layout.view_grid.len(), 1);
    let keys = layout.view_grid[0].clone();
    assert_eq!(keys.len(), 3);
    assert_eq!(app.focused_view, Some(keys[0]));
    let hex = app.meta.views.get(keys[0]).unwrap();
    let text = app.meta.views.get(keys[1]).unwrap();
    let block = app.meta.views.get(keys[2]).unwrap();
    let pk = hex.view.perspective;
    assert_eq!(hex.name, "Default hex");
    assert_eq!(hex.view, View::new(ViewKind::Hex(HexData { font_size: 14 }), pk));
    assert_eq!(text.name, "Default text");
    assert_eq!(text.view, View::new(ViewKind::Text(TextData { line_spacing: 16, font_size: 14 }), pk));
    assert_eq!(block.name, "Default block");
    assert_eq!(block.view, View::new(ViewKind::Block, pk));
    let p = app.meta.perspectives.get(pk).unwrap();
    assert_eq!(p.cols, 48);
    assert!(!p.flip_row_order);
    assert_eq!(p.name, "default");
    let r = app.meta.regions.get(p.region).unwrap();
    assert_eq!(r.name, "default");
    assert_eq!(r.desc, "");
    assert_eq!(r.region, Region { begin: 0, end: 99 });
}

#[test]
fn app_new_over_an_empty_buffer_has_a_one_byte_region() {
    let app = app_with_bytes(0);
    let hex = app.meta.views.get(app.focused_view.unwrap()).unwrap();
    let p = app.meta.perspectives.get(hex.view.perspective).unwrap();
    assert_eq!(app.meta.regions.get(p.region).unwrap().region, Region { begin: 0, end: 0 });
}

#[test]
fn app_new_jumps_to_the_offset() {
    let app = App::new(vec![0; 1000], Some(file_source()), Some(500), 16);
    assert_eq!(app.edit_state.cursor, 500);
    assert_eq!(focused_scroll(&app), ScrollOffset { col: 20, pix_xoff: 0, row: 10, pix_yoff: 0 });
    let keys = keys_of(&app);
    assert_eq!(
        app.meta.views.get(keys[1]).unwrap().view.scroll_offset,
        ScrollOffset { col: 0, pix_xoff: 0, row: 0, pix_yoff: 0 }
    );
}

#[test]
fn default_views_are_hex_text_and_block() {
    let app = app_with_bytes(10);
    let pk = app.meta.views.get(app.focused_view.unwrap()).unwrap().view.perspective;
    let views = default_views(20, pk);
    assert_eq!(views.len(), 3);
    assert_eq!(views[0].name, "Default hex");
    assert_eq!(views[0].view, View::new(ViewKind::Hex(HexData { font_size: 14 }), pk));
    assert_eq!(views[1].name, "Default text");
    assert_eq!(views[1].view, View::new(ViewKind::Text(TextData { line_spacing: 20, font_size: 14 }), pk));
    assert_eq!((views[1].view.col_w, views[1].view.row_h), (14, 20));
    assert_eq!(views[2].name, "Default block");
    assert_eq!(views[2].view, View::new(ViewKind::Block, pk));
}

#[test]
fn meta_refuses_what_would_dangle() {
    let mut app = app_with_bytes(10);
    let keys = keys_of(&app);
    let pk = app.meta.views.get(keys[0]).unwrap().view.perspective;
    let rk = app.meta.perspectives.get(pk).unwrap().region;
    let mut other = Meta::new();
    assert!(other.insert_perspective(Perspective::from_region(rk, "p".to_string())).is_none());
    assert!(other.insert_view(NamedView::new("v".to_string(), View::new(ViewKind::Block, pk))).is_none());
    assert!(other
        .insert_layout(Layout { name: "l".to_string(), view_grid: vec![vec![keys[0]]], margin: 6 })
        .is_none());
    assert_eq!(other.perspectives.len(), 0);
    assert_eq!(other.views.len(), 0);
    assert_eq!(other.layouts.len(), 0);
    let mut no_cols = Perspective::from_region(rk, "p".to_string());
    no_cols.cols = 0;
    assert!(app.meta.insert_perspective(no_cols).is_none());
    assert!(app
        .meta
        .insert_layout(Layout { name: "l".to_string(), view_grid: vec![vec![keys[0], keys[0]]], margin: 6 })
        .is_none());
    assert_eq!(app.meta.perspectives.len(), 1);
    assert_eq!(app.meta.layouts.len(), 1);
}

#[test]
fn meta_refuses_malformed_regions() {
    let mut meta = Meta::new();
    assert!(meta
        .insert_region(NamedRegion::new("bad".to_string(), String::new(), Region { begin: 5, end: 4 }))
        .is_none());
    assert!(meta
        .insert_region(NamedRegion::new("all".to_string(), String::new(), Region { begin: 0, end: usize::MAX }))
        .is_none());
    assert_eq!(meta.regions.len(), 0);
    let k = meta
        .insert_region(NamedRegion::new("ok".to_string(), "d".to_string(), Region { begin: 1, end: usize::MAX }))
        .unwrap();
    assert_eq!(meta.regions.len(), 1);
    assert_eq!(meta.regions.get(k).unwrap().region, Region { begin: 1, end: usize::MAX });
    assert_eq!(meta.regions.get(k).unwrap().name, "ok");
    assert_eq!(meta.regions.get(k).unwrap().desc, "d");
}

#[test]
fn meta_inserts_give_fresh_keys() {
    let mut meta = Meta::new();
    let a = meta
        .insert_region(NamedRegion::new("a".to_string(), String::new(), Region { begin: 0, end: 9 }))
        .unwrap();
    let b = meta
        .insert_region(NamedRegion::new("b".to_string(), String::new(), Region { begin: 10, end: 19 }))
        .unwrap();
    assert!(!a.same(b));
    assert_eq!(meta.regions.len(), 2);
    assert_eq!(meta.regions.get(a).unwrap().name, "a");
    assert_eq!(meta.regions.get(b).unwrap().name, "b");
    let mut p = Perspective::from_region(b, "pb".to_string());
    p.cols = 4;
    let pk = meta.insert_perspective(p).unwrap();
    assert_eq!(meta.perspectives.get(pk).unwrap().region, b);
    assert_eq!(meta.perspectives.get(pk).unwrap().cols, 4);
    let vk = meta.insert_view(NamedView::new("v".to_string(), View::new(ViewKind::Block, pk))).unwrap();
    assert_eq!(meta.views.get(vk).unwrap().name, "v");
    let lk = meta
        .insert_layout(Layout { name: "l".to_string(), view_grid: vec![vec![], vec![vk]], margin: 3 })
        .unwrap();
    assert!(!lk.is_null());
    assert_eq!(meta.layouts.get(lk).unwrap().view_grid, vec![vec![], vec![vk]]);
    assert_eq!(meta.layouts.get(lk).unwrap().margin, 3);
    assert_eq!(meta.layouts.first_key(), Some(lk));
}

#[test]
fn switch_layout_focuses_the_first_view() {
    let mut app = app_with_bytes(10);
    let keys = keys_of(&app);
    let first = app.current_layout;
    let second = app
        .meta
        .insert_layout(Layout { name: "s".to_string(), view_grid: vec![vec![keys[2], keys[1]]], margin: 6 })
        .unwrap();
    let hollow = app
        .meta
        .insert_layout(Layout { name: "h".to_string(), view_grid: vec![vec![], vec![keys[1]]], margin: 6 })
        .unwrap();
    let bare = app.meta.insert_layout(Layout { name: "b".to_string(), view_grid: vec![], margin: 6 }).unwrap();
    app.switch_layout(second);
    assert_eq!(app.current_layout, second);
    assert_eq!(app.focused_view, Some(keys[2]));
    app.switch_layout(hollow);
    assert_eq!(app.current_layout, hollow);
    assert_eq!(app.focused_view, Some(keys[2]));
    app.switch_layout(bare);
    assert_eq!(app.current_layout, bare);
    assert_eq!(app.focused_view, Some(keys[2]));
    app.switch_layout(first);
    assert_eq!(app.focused_view, Some(keys[0]));
}

#[test]
fn clear_meta_refs_drops_layout_and_focus() {
    let mut app = app_with_bytes(10);
    app.clear_meta_refs();
    assert!(app.current_layout.is_null());
    assert_eq!(app.focused_view, None);
    assert_eq!(app.meta.views.len(), 3);
}

#[test]
fn install_meta_takes_the_first_layout() {
    let donor = app_with_bytes(500);
    let donor_layout = donor.current_layout;
    let donor_focus = donor.focused_view;
    let mut app = app_with_bytes(10);
    assert!(app.install_meta(donor.meta));
    assert_eq!(app.current_layout, donor_layout);
    assert_eq!(app.focused_view, donor_focus);
    let hex = app.meta.views.get(app.focused_view.unwrap()).unwrap();
    let p = app.meta.perspectives.get(hex.view.perspective).unwrap();
    assert_eq!(app.meta.regions.get(p.region).unwrap().region, Region { begin: 0, end: 499 });
    assert_eq!(app.data.len(), 10);
}

#[test]
fn install_meta_without_layouts_unsets_layout_and_focus() {
    let mut app = app_with_bytes(10);
    assert!(app.install_meta(Meta::new()));
    assert!(app.current_layout.is_null());
    assert_eq!(app.focused_view, None);
    assert_eq!(app.meta.views.len(), 0);
    assert!(!app.update());
    assert_eq!(app.byte_offset_at_pos(1, 1), None);
    assert_eq!(app.view_idx_at_pos(1, 1), None);
}

#[test]
fn install_meta_with_an_empty_first_row_has_no_focus() {
    let mut donor = Meta::new();
    let lk = donor.insert_layout(Layout { name: "e".to_string(), view_grid: vec![vec![]], margin: 6 }).unwrap();
    let mut app = app_with_bytes(10);
    assert!(app.install_meta(donor));
    assert_eq!(app.current_layout, lk);
    assert_eq!(app.focused_view, None);
}

#[test]
fn load_file_args_replaces_the_meta_unless_kept() {
    let mut app = app_with_bytes(10);
    let old_layout = app.current_layout;
    app.load_file_args(Some((vec![1; 300], Source::opened(&args(false, true, false)))), 20);
    assert_eq!(app.data.len(), 300);
    assert!(!app.source.unwrap().attr.permissions.write);
    assert!(!app.current_layout.same(old_layout) || app.meta.layouts.len() == 1);
    let keys = keys_of(&app);
    assert_eq!(app.focused_view, Some(keys[0]));
    let text = app.meta.views.get(keys[1]).unwrap();
    assert_eq!(text.view.row_h, 20);
    let rk = app.meta.perspectives.get(text.view.perspective).unwrap().region;
    assert_eq!(app.meta.regions.get(rk).unwrap().region, Region { begin: 0, end: 299 });

    app.preferences.keep_meta = true;
    let kept_layout = app.current_layout;
    app.load_file_args(Some((vec![2; 50], file_source())), 16);
    assert_eq!(app.data.len(), 50);
    assert_eq!(app.current_layout, kept_layout);
    assert_eq!(app.focused_view, Some(keys[0]));
    assert_eq!(app.meta.regions.get(rk).unwrap().region, Region { begin: 0, end: 299 });
}

#[test]
fn load_file_args_after_a_failed_load_keeps_the_buffer() {
    let mut app = app_with_bytes(10);
    app.load_file_args(None, 16);
    assert_eq!(app.data.len(), 10);
    assert!(app.source.is_some());
    assert_eq!(app.meta.views.len(), 3);
    assert_eq!(app.meta.layouts.first_key(), Some(app.current_layout));
}

#[test]
fn close_file_lets_go_of_buffer_and_source() {
    let mut app = app_with_bytes(10);
    app.stream_pending = true;
    app.close_file();
    assert!(app.data.is_empty());
    assert_eq!(app.source, None);
    assert!(!app.stream_pending);
    assert_eq!(app.meta.views.len(), 3);
}

#[test]
fn load_file_args_gives_up_the_read_under_way() {
    let mut app = app_with_bytes(10);
    app.stream_pending = true;
    app.load_file_args(None, 16);
    assert!(app.stream_pending);
    app.load_file_args(Some((vec![1; 3], file_source())), 16);
    assert!(!app.stream_pending);
}

#[test]
fn app_widen_dirty_region_scenario() {
    let mut app = app_with_bytes(100);
    app.widen_dirty_region(DamageRegion::range_inclusive(5, 5).unwrap());
    app.widen_dirty_region(DamageRegion::range_inclusive(2, 3).unwrap());
    app.widen_dirty_region(DamageRegion::range_inclusive(10, 10).unwrap());
    assert_eq!(app.dirty_region, Some(Region { begin: 2, end: 10 }));
}

#[test]
fn save_plan_writes_the_dirty_region() {
    let mut app = app_with_bytes(100);
    app.widen_dirty_region(DamageRegion::range_inclusive(2, 10).unwrap());
    assert_eq!(app.save_plan(None), Ok(SavePlan { base: 0, begin: 2, end: 11 }));
    assert_eq!(app.save_plan(Some(4096)), Ok(SavePlan { base: 4096, begin: 2, end: 11 }));
    app.widen_dirty_region(DamageRegion::single(99));
    assert_eq!(app.save_plan(None), Ok(SavePlan { base: 0, begin: 2, end: 100 }));
}

#[test]
fn save_plan_writes_everything_when_nothing_is_tracked() {
    let app = app_with_bytes(100);
    assert_eq!(app.save_plan(None), Ok(SavePlan { base: 0, begin: 0, end: 100 }));
    assert_eq!(app.save_plan(Some(7)), Ok(SavePlan { base: 7, begin: 0, end: 100 }));
    let empty = app_with_bytes(0);
    assert_eq!(empty.save_plan(None), Ok(SavePlan { base: 0, begin: 0, end: 0 }));
}

#[test]
fn save_plan_errors() {
    let none = App::new(vec![1, 2, 3], None, None, 16);
    assert_eq!(none.save_plan(None), Err(SaveError::NoSource));
    let stdin = App::new(vec![1, 2, 3], Some(Source::opened(&args(true, false, false))), None, 16);
    assert_eq!(stdin.save_plan(None), Err(SaveError::StreamSource));
    let read_only = App::new(vec![1, 2, 3], Some(Source::opened(&args(false, true, false))), None, 16);
    assert_eq!(read_only.save_plan(None), Err(SaveError::ReadOnly));
    let mut past = app_with_bytes(3);
    past.widen_dirty_region(DamageRegion::range_inclusive(1, 3).unwrap());
    assert_eq!(past.save_plan(None), Err(SaveError::DirtyRegionOutsideBuffer));
    let mut closed = app_with_bytes(3);
    closed.widen_dirty_region(DamageRegion::single(1));
    closed.close_file();
    assert_eq!(closed.save_plan(None), Err(SaveError::NoSource));
}

#[test]
fn error_messages() {
    assert_eq!(SaveError::NoSource.message(), "No source opened, nothing to save");
    assert_eq!(SaveError::StreamSource.message(), "Standard input doesn't support saving");
    assert_eq!(SaveError::ReadOnly.message(), "Source is opened read-only");
    assert_eq!(
        SaveError::DirtyRegionOutsideBuffer.message(),
        "Dirty region reaches past the end of the data"
    );
    assert_eq!(ReloadError::NoSource.message(), "No file to reload");
    assert_eq!(
        ReloadError::StreamSource.message(),
        "Can't reload streaming sources like standard input"
    );
}

#[test]
fn saving_twice_writes_the_same_bytes() {
    let mut app = app_with_bytes(64);
    let mut file: Vec<u8> = vec![0xEE; 8];
    file.extend_from_slice(&app.data);
    app.data[10] = 0xAA;
    app.widen_dirty_region(DamageRegion::single(10));
    app.data[20] = 0xBB;
    app.widen_dirty_region(DamageRegion::single(20));
    let first = app.save_plan(Some(8)).unwrap();
    assert_eq!(first, SavePlan { base: 8, begin: 10, end: 21 });
    file[first.base + first.begin..first.base + first.end].copy_from_slice(&app.data[first.begin..first.end]);
    app.save_done();
    assert_eq!(app.dirty_region, None);
    let after_first = file.clone();
    let second = app.save_plan(Some(8)).unwrap();
    assert_eq!(second, SavePlan { base: 8, begin: 0, end: 64 });
    file[second.base + second.begin..second.base + second.end]
        .copy_from_slice(&app.data[second.begin..second.end]);
    app.save_done();
    assert_eq!(file, after_first);
    assert_eq!(&file[8..], &app.data[..]);
    assert_eq!(&file[..8], &[0xEE; 8]);
}

#[test]
fn reload_check_and_reloaded() {
    let none = App::new(vec![], None, None, 16);
    assert_eq!(none.reload_check(), Err(ReloadError::NoSource));
    let stdin = App::new(vec![], Some(Source::opened(&args(true, false, false))), None, 16);
    assert_eq!(stdin.reload_check(), Err(ReloadError::StreamSource));
    let mut app = app_with_bytes(10);
    assert_eq!(app.reload_check(), Ok(()));
    app.widen_dirty_region(DamageRegion::single(3));
    app.just_reloaded = false;
    app.reloaded(vec![9; 4]);
    assert_eq!(app.data, vec![9; 4]);
    assert_eq!(app.dirty_region, None);
    assert!(app.just_reloaded);
}

#[test]
fn selection_orders_its_ends() {
    assert_eq!(App::selection(&Some(9), &Some(4)), Some(Region { begin: 4, end: 9 }));
    assert_eq!(App::selection(&Some(4), &Some(9)), Some(Region { begin: 4, end: 9 }));
    assert_eq!(App::selection(&Some(4), &Some(4)), Some(Region { begin: 4, end: 4 }));
    assert_eq!(App::selection(&None, &Some(4)), None);
    assert_eq!(App::selection(&Some(4), &None), None);
    assert_eq!(App::selection(&None, &None), None);
}

#[test]
fn select_all_takes_the_focused_region() {
    let mut app = app_with_bytes(100);
    app.focused_view_select_all();
    assert_eq!((app.select_a, app.select_b), (Some(0), Some(99)));
    let mut unfocused = app_with_bytes(100);
    unfocused.focused_view = None;
    unfocused.focused_view_select_all();
    assert_eq!((unfocused.select_a, unfocused.select_b), (None, None));
}

#[test]
fn search_focus_moves_cursor_and_view() {
    let mut app = app_with_bytes(200);
    app.hex_iface_rect = ViewportRect { x: 0, y: 0, w: 2000, h: 1000 };
    assert!(app.update());
    app.search_focus(150);
    assert_eq!(app.edit_state.cursor, 150);
    // The hex view is 1126 wide and 70 high. Byte 150 sits at row 3, column 6; half the width
    // is 563 pixels, 6 columns and 407 pixels back; half the height is 35 pixels, 2 rows and 7
    // pixels back.
    assert_eq!(
        app.meta.views.get(app.focused_view.unwrap()).unwrap().view.viewport_rect,
        ViewportRect { x: 6, y: 6, w: 1126, h: 70 }
    );
    assert_eq!(focused_scroll(&app), ScrollOffset { col: 0, pix_xoff: -407, row: 1, pix_yoff: -7 });
}

#[test]
fn set_cursor_init_defaults_to_the_first_byte() {
    let mut app = app_with_bytes(200);
    app.edit_state.cursor = 77;
    app.set_cursor_init(None);
    assert_eq!(app.edit_state.cursor, 0);
    app.set_cursor_init(Some(100));
    assert_eq!(app.edit_state.cursor, 100);
    assert_eq!(focused_scroll(&app), ScrollOffset { col: 4, pix_xoff: 0, row: 2, pix_yoff: 0 });
}

#[test]
fn center_view_on_offset_without_focus_changes_nothing() {
    let mut app = app_with_bytes(200);
    let keys = keys_of(&app);
    app.focused_view = None;
    app.center_view_on_offset(150);
    for k in keys {
        assert_eq!(
            app.meta.views.get(k).unwrap().view.scroll_offset,
            ScrollOffset { col: 0, pix_xoff: 0, row: 0, pix_yoff: 0 }
        );
    }
}

#[test]
fn column_count_changes() {
    let mut app = app_with_bytes(1000);
    app.dec_cols();
    assert_eq!(focused_cols(&app), 47);
    app.inc_cols();
    app.inc_cols();
    assert_eq!(focused_cols(&app), 49);
    app.halve_cols();
    assert_eq!(focused_cols(&app), 24);
    app.double_cols();
    assert_eq!(focused_cols(&app), 48);
}

#[test]
fn column_count_is_clamped() {
    let mut app = app_with_bytes(100);
    app.double_cols();
    assert_eq!(focused_cols(&app), 96);
    app.double_cols();
    assert_eq!(focused_cols(&app), 100);
    app.inc_cols();
    assert_eq!(focused_cols(&app), 100);
    for _ in 0..8 {
        app.halve_cols();
    }
    assert_eq!(focused_cols(&app), 1);
    app.halve_cols();
    assert_eq!(focused_cols(&app), 1);
    app.dec_cols();
    assert_eq!(focused_cols(&app), 1);
}

#[test]
fn column_change_without_focus_changes_nothing() {
    let mut app = app_with_bytes(100);
    let k = app.focused_view.unwrap();
    app.focused_view = None;
    app.inc_cols();
    app.focused_view = Some(k);
    assert_eq!(focused_cols(&app), 48);
}

#[test]
fn column_change_keeps_the_top_left_byte_on_free_axes() {
    let mut app = app_with_bytes(1000);
    let k = app.focused_view.unwrap();
    let mut nv = app.meta.views.get(k).unwrap().duplicate();
    nv.view.scroll_offset = ScrollOffset { col: 5, pix_xoff: 1, row: 2, pix_yoff: 2 };
    let pk = nv.view.perspective;
    let mut view = nv.view;
    // Top left byte is 2 * 48 + 5 = 101; with 49 columns it sits at row 2, column 3.
    col_change_impl_view_perspective(&mut view, &mut app.meta.perspectives, &app.meta.regions, |c| c + 1, false, true);
    assert_eq!(app.meta.perspectives.get(pk).unwrap().cols, 49);
    assert_eq!(view.scroll_offset, ScrollOffset { col: 3, pix_xoff: 1, row: 2, pix_yoff: 2 });
    // With 10 columns byte 2 * 49 + 3 = 101 sits at row 10, column 1.
    col_change_impl_view_perspective(&mut view, &mut app.meta.perspectives, &app.meta.regions, |_| 10, true, false);
    assert_eq!(app.meta.perspectives.get(pk).unwrap().cols, 10);
    assert_eq!(view.scroll_offset, ScrollOffset { col: 3, pix_xoff: 1, row: 10, pix_yoff: 2 });
    col_change_impl_view_perspective(&mut view, &mut app.meta.perspectives, &app.meta.regions, |_| 0, false, false);
    assert_eq!(app.meta.perspectives.get(pk).unwrap().cols, 1);
    assert_eq!(view.scroll_offset, ScrollOffset { col: 0, pix_xoff: 1, row: 103, pix_yoff: 2 });
    col_change_impl_view_perspective(&mut view, &mut app.meta.perspectives, &app.meta.regions, |_| 5000, true, true);
    assert_eq!(app.meta.perspectives.get(pk).unwrap().cols, 1000);
    assert_eq!(view.scroll_offset, ScrollOffset { col: 0, pix_xoff: 1, row: 103, pix_yoff: 2 });
}

#[test]
fn app_column_change_uses_the_locks() {
    let mut app = app_with_bytes(1000);
    app.center_view_on_offset(101);
    assert_eq!(focused_scroll(&app), ScrollOffset { col: 5, pix_xoff: 0, row: 2, pix_yoff: 0 });
    app.inc_cols();
    assert_eq!(focused_scroll(&app), ScrollOffset { col: 3, pix_xoff: 0, row: 2, pix_yoff: 0 });
    app.col_change_lock_x = true;
    app.col_change_lock_y = false;
    app.col_change_impl(|_| 10);
    assert_eq!(focused_cols(&app), 10);
    assert_eq!(focused_scroll(&app), ScrollOffset { col: 3, pix_xoff: 0, row: 10, pix_yoff: 0 });
}

#[test]
fn update_lays_out_the_current_layout() {
    let mut app = app_with_bytes(100);
    app.hex_iface_rect = ViewportRect { x: 2, y: 30, w: 1000, h: 500 };
    assert!(app.update());
    let keys = keys_of(&app);
    assert_eq!(
        app.meta.views.get(keys[0]).unwrap().view.viewport_rect,
        ViewportRect { x: 8, y: 36, w: 459, h: 42 }
    );
    assert_eq!(
        app.meta.views.get(keys[1]).unwrap().view.viewport_rect,
        ViewportRect { x: 473, y: 36, w: 325, h: 48 }
    );
    assert_eq!(
        app.meta.views.get(keys[2]).unwrap().view.viewport_rect,
        ViewportRect { x: 804, y: 36, w: 192, h: 12 }
    );
    assert!(app.update());
    assert_eq!(
        app.meta.views.get(keys[0]).unwrap().view.viewport_rect,
        ViewportRect { x: 8, y: 36, w: 459, h: 42 }
    );
}

#[test]
fn update_with_the_default_rectangle() {
    let mut app = app_with_bytes(100);
    assert!(app.update());
    let keys = keys_of(&app);
    assert_eq!(
        app.meta.views.get(keys[0]).unwrap().view.viewport_rect,
        ViewportRect { x: 6, y: 6, w: -8, h: -12 }
    );
    assert_eq!(
        app.meta.views.get(keys[2]).unwrap().view.viewport_rect,
        ViewportRect { x: 2, y: 6, w: -8, h: -12 }
    );
}

#[test]
fn update_without_a_layout_does_nothing() {
    let mut app = App::new(vec![], None, None, 16);
    assert!(!app.update());
    let mut cleared = app_with_bytes(100);
    cleared.hex_iface_rect = ViewportRect { x: 2, y: 30, w: 1000, h: 500 };
    cleared.clear_meta_refs();
    assert!(!cleared.update());
}

#[test]
fn byte_offset_under_a_pixel() {
    let mut app = app_with_bytes(100);
    app.hex_iface_rect = ViewportRect { x: 2, y: 30, w: 1000, h: 500 };
    assert!(app.update());
    let keys = keys_of(&app);
    assert_eq!(app.byte_offset_at_pos(87, 51), Some((51, keys[0])));
    assert_eq!(app.byte_offset_at_pos(8, 36), Some((0, keys[0])));
    assert_eq!(app.byte_offset_at_pos(502, 69), Some((98, keys[1])));
    assert_eq!(app.byte_offset_at_pos(530, 69), None);
    assert_eq!(app.byte_offset_at_pos(0, 0), None);
    assert_eq!(app.byte_offset_at_pos(470, 40), None);
    assert_eq!(app.byte_offset_at_pos(804 + 4 * 47 + 1, 36 + 4 + 1), Some((95, keys[2])));
}

#[test]
fn view_under_a_pixel() {
    let mut app = app_with_bytes(100);
    app.hex_iface_rect = ViewportRect { x: 2, y: 30, w: 1000, h: 500 };
    assert!(app.update());
    let keys = keys_of(&app);
    assert_eq!(app.view_idx_at_pos(8, 36), Some(keys[0]));
    assert_eq!(app.view_idx_at_pos(467, 78), Some(keys[0]));
    assert_eq!(app.view_idx_at_pos(500, 40), Some(keys[1]));
    assert_eq!(app.view_idx_at_pos(900, 40), Some(keys[2]));
    assert_eq!(app.view_idx_at_pos(470, 40), None);
    assert_eq!(app.view_idx_at_pos(900, 49), None);
    assert_eq!(app.view_idx_at_pos(0, 0), None);
}

#[test]
fn focus_moves_round_the_layout() {
    let mut app = app_with_bytes(100);
    let keys = keys_of(&app);
    assert_eq!(app.focused_view, Some(keys[0]));
    app.focus_next_view_in_layout();
    assert_eq!(app.focused_view, Some(keys[1]));
    app.focus_next_view_in_layout();
    assert_eq!(app.focused_view, Some(keys[2]));
    app.focus_next_view_in_layout();
    assert_eq!(app.focused_view, Some(keys[0]));
    app.focus_prev_view_in_layout();
    assert_eq!(app.focused_view, Some(keys[2]));
    app.focus_prev_view_in_layout();
    assert_eq!(app.focused_view, Some(keys[1]));
    app.focus_prev_view_in_layout();
    assert_eq!(app.focused_view, Some(keys[0]));
}

#[test]
fn focus_stays_when_it_is_not_in_the_layout() {
    let mut app = app_with_bytes(100);
    let keys = keys_of(&app);
    let single = app
        .meta
        .insert_layout(Layout { name: "s".to_string(), view_grid: vec![vec![keys[1]]], margin: 6 })
        .unwrap();
    app.switch_layout(single);
    assert_eq!(app.focused_view, Some(keys[1]));
    app.focus_next_view_in_layout();
    assert_eq!(app.focused_view, Some(keys[1]));
    app.focus_prev_view_in_layout();
    assert_eq!(app.focused_view, Some(keys[1]));
    app.focused_view = Some(keys[2]);
    app.focus_next_view_in_layout();
    assert_eq!(app.focused_view, Some(keys[2]));
    app.focused_view = None;
    app.focus_prev_view_in_layout();
    assert_eq!(app.focused_view, None);
}

#[test]
fn diff_bytes_lists_the_differences() {
    let mine = vec![1, 2, 3, 4, 5, 6];
    let theirs = vec![1, 9, 3, 8, 5];
    assert_eq!(
        diff_bytes(&mine, &theirs),
        vec![
            FileDiffEntry { my_val: 2, file_val: 9, offset: 1 },
            FileDiffEntry { my_val: 4, file_val: 8, offset: 3 },
        ]
    );
    assert_eq!(diff_bytes(&mine, &mine), vec![]);
    assert_eq!(diff_bytes(&mine, &Vec::new()), vec![]);
    assert_eq!(diff_bytes(&vec![7], &vec![8, 9]), vec![FileDiffEntry { my_val: 7, file_val: 8, offset: 0 }]);
}

#[test]
fn install_meta_refuses_dangling_entries() {
    let mut broken = app_with_bytes(50).meta;
    broken.perspectives = Meta::new().perspectives;
    assert!(!broken.is_consistent());
    let mut app = app_with_bytes(10);
    let layout = app.current_layout;
    let focus = app.focused_view;
    assert!(!app.install_meta(broken));
    assert_eq!(app.current_layout, layout);
    assert_eq!(app.focused_view, focus);
    assert_eq!(app.meta.views.len(), 3);
    assert!(app.is_consistent());
}

#[test]
fn consistency_checks() {
    assert!(Meta::new().is_consistent());
    let mut app = app_with_bytes(10);
    assert!(app.meta.is_consistent());
    assert!(app.is_consistent());
    let stranger = app_with_bytes(10);
    let mut foreign = app_with_bytes(10);
    let extra = foreign
        .meta
        .insert_view(foreign.meta.views.get(foreign.focused_view.unwrap()).unwrap().duplicate())
        .unwrap();
    app.focused_view = Some(extra);
    assert!(!app.is_consistent());
    app.focused_view = None;
    assert!(app.is_consistent());
    app.dirty_region = Some(Region { begin: 3, end: 2 });
    assert!(!app.is_consistent());
    app.dirty_region = Some(Region { begin: 2, end: 2 });
    assert!(app.is_consistent());
    app.current_layout = LayoutKey::null();
    assert!(app.is_consistent());
    let mut no_regions = stranger.meta;
    no_regions.regions = Meta::new().regions;
    assert!(!no_regions.is_consistent());
    let mut no_views = app_with_bytes(10).meta;
    no_views.views = Meta::new().views;
    assert!(!no_views.is_consistent());
}

#[test]
fn arena_keys_list_every_entry_once() {
    let app = app_with_bytes(10);
    let listed = app.meta.views.keys();
    let in_layout = keys_of(&app);
    assert_eq!(listed.len(), 3);
    for k in &in_layout {
        assert_eq!(listed.iter().filter(|l| l.same(*k)).count(), 1);
    }
    assert_eq!(app.meta.regions.keys().len(), 1);
    assert_eq!(app.meta.perspectives.keys().len(), 1);
    assert_eq!(app.meta.layouts.keys(), vec![app.current_layout]);
    assert_eq!(Meta::new().views.keys(), Vec::<ViewKey>::new());
    let p = app.meta.perspectives.get(app.meta.perspectives.keys()[0]).unwrap();
    assert_eq!(app.meta.regions.keys(), vec![p.region]);
}

#[test]
fn edit_state_remembers_where_the_cursor_was() {
    let mut s = EditState::new();
    assert_eq!(s, EditState { cursor: 0, cursor_history: vec![], cursor_history_current: 0 });
    assert!(!s.cursor_history_back());
    assert!(!s.cursor_history_forward());
    s.set_cursor(10);
    s.set_cursor(20);
    s.set_cursor(30);
    assert_eq!(s.cursor, 30);
    assert!(s.cursor_history_back());
    assert_eq!(s.cursor, 20);
    assert!(s.cursor_history_back());
    assert_eq!(s.cursor, 10);
    assert!(s.cursor_history_forward());
    assert_eq!(s.cursor, 20);
    assert!(s.cursor_history_forward());
    assert_eq!(s.cursor, 30);
    assert!(!s.cursor_history_forward());
    assert!(s.cursor_history_back());
    assert!(s.cursor_history_back());
    assert!(s.cursor_history_back());
    assert_eq!(s.cursor, 0);
    assert!(!s.cursor_history_back());
    assert_eq!(s.cursor, 0);
}

#[test]
fn edit_state_forgets_what_lay_ahead() {
    let mut s = EditState::new();
    s.set_cursor(10);
    s.set_cursor(20);
    assert!(s.cursor_history_back());
    assert_eq!(s.cursor, 10);
    s.set_cursor(99);
    assert!(!s.cursor_history_forward());
    assert_eq!(s.cursor, 99);
    assert!(s.cursor_history_back());
    assert_eq!(s.cursor, 10);
    assert!(s.cursor_history_back());
    assert_eq!(s.cursor, 0);
    assert!(s.cursor_history_forward());
    assert!(s.cursor_history_forward());
    assert_eq!(s.cursor, 99);
}

#[test]
fn edit_state_set_cursor_no_history() {
    let mut s = EditState::new();
    s.set_cursor(10);
    s.set_cursor_no_history(50);
    assert_eq!(s.cursor, 50);
    assert!(s.cursor_history_back());
    assert_eq!(s.cursor, 0);
    assert!(s.cursor_history_forward());
    assert_eq!(s.cursor, 50);
}

#[test]
fn app_cursor_history_centres_the_view() {
    let mut app = app_with_bytes(1000);
    assert!(!app.cursor_history_back());
    assert!(!app.cursor_history_forward());
    app.edit_state.set_cursor(500);
    app.edit_state.set_cursor(700);
    assert!(app.cursor_history_back());
    assert_eq!(app.edit_state.cursor, 500);
    assert_eq!(focused_scroll(&app), ScrollOffset { col: 20, pix_xoff: 0, row: 10, pix_yoff: 0 });
    assert!(app.cursor_history_forward());
    assert_eq!(app.edit_state.cursor, 700);
    assert_eq!(focused_scroll(&app), ScrollOffset { col: 28, pix_xoff: 0, row: 14, pix_yoff: 0 });
    assert!(!app.cursor_history_forward());
    assert_eq!(focused_scroll(&app), ScrollOffset { col: 28, pix_xoff: 0, row: 14, pix_yoff: 0 });
}

#[test]
fn put_byte_edits_and_records_the_damage() {
    let mut app = app_with_bytes(10);
    assert!(app.put_byte(3, 0xFF));
    assert_eq!(app.data[3], 0xFF);
    assert_eq!(app.dirty_region, Some(Region { begin: 3, end: 3 }));
    assert!(app.put_byte(7, 0xEE));
    assert!(app.put_byte(5, 0xDD));
    assert_eq!(app.data, vec![0, 1, 2, 0xFF, 4, 0xDD, 6, 0xEE, 8, 9]);
    assert_eq!(app.dirty_region, Some(Region { begin: 3, end: 7 }));
    assert!(!app.put_byte(10, 1));
    assert_eq!(app.data.len(), 10);
    assert_eq!(app.dirty_region, Some(Region { begin: 3, end: 7 }));
    assert_eq!(app.save_plan(None), Ok(SavePlan { base: 0, begin: 3, end: 8 }));
}

#[test]
fn saving_recorded_edits_brings_the_file_up_to_date() {
    let mut app = app_with_bytes(32);
    let mut file = app.data.clone();
    for (offset, value) in [(4usize, 9u8), (30, 8), (17, 7), (4, 6)] {
        assert!(app.put_byte(offset, value));
        let dirty = app.dirty_region.unwrap();
        for i in 0..32 {
            if !dirty.contains(i) {
                assert_eq!(file[i], app.data[i]);
            }
        }
    }
    let plan = app.save_plan(None).unwrap();
    assert_eq!(plan, SavePlan { base: 0, begin: 4, end: 31 });
    file[plan.begin..plan.end].copy_from_slice(&app.data[plan.begin..plan.end]);
    app.save_done();
    assert_eq!(file, app.data);
}
