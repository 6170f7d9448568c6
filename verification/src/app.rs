//! The state of the editor that does not depend on a window or a file.

use vstd::prelude::*;
use crate::arena::{
    layout_get, perspective_get, perspective_get_mut, region_get, view_get, view_get_mut,
    PerspectiveMap, RegionMap,
};
use crate::damage::{widen_dirty_region, widened, DamageRegion};
use crate::edit_state::EditState;
use crate::keys::{LayoutKey, PerspectiveKey, ViewKey};
use crate::layout::{default_margin, do_auto_layout, is_laid_out, placeable, Layout};
use crate::meta::Meta;
use crate::perspective::{clamped_cols, grid_offset, saturate_usize, Perspective};
use crate::region::{NamedRegion, Region};
use crate::source::Source;
use crate::view::{
    HexData, NamedView, TextData, ViewKind, ViewportRect, ViewportScalar, DEFAULT_FONT_SIZE,
};

verus! {

/// Choices of the user that steer editing and loading.
#[derive(Clone, Copy, Debug, PartialEq, Eq, Structural)]
pub struct Preferences {
    /// Move the edit cursor with the cursor keys, instead of the block cursor.
    pub move_edit_cursor: bool,
    /// Apply changes while a value is typed.
    pub quick_edit: bool,
    /// Do not move the cursor when editing is finished.
    pub sticky_edit: bool,
    /// Save when editing is finished.
    pub auto_save: bool,
    /// Keep the metadata when another file is loaded.
    pub keep_meta: bool,
}

impl Default for Preferences {
    fn default() -> (p: Preferences)
        ensures
            p == (Preferences {
                move_edit_cursor: false,
                quick_edit: false,
                sticky_edit: false,
                auto_save: false,
                keep_meta: false,
            }),
    {
        Preferences {
            move_edit_cursor: false,
            quick_edit: false,
            sticky_edit: false,
            auto_save: false,
            keep_meta: false,
        }
    }
}

/// One place where the buffer and a file differ.
#[derive(Clone, Copy, Debug, PartialEq, Eq, Structural)]
pub struct FileDiffEntry {
    pub my_val: u8,
    pub file_val: u8,
    pub offset: usize,
}

/// Whether `entries` lists, in rising order of offset, exactly the offsets
/// below `upto` at which `mine` and `theirs` differ, with both bytes.
pub open spec fn is_diff_of(
    entries: Seq<FileDiffEntry>,
    mine: Seq<u8>,
    theirs: Seq<u8>,
    upto: int,
) -> bool {
    &&& forall|i: int|
        0 <= i < entries.len() ==> {
            let e = #[trigger] entries[i];
            &&& e.offset < upto
            &&& mine[e.offset as int] != theirs[e.offset as int]
            &&& e.my_val == mine[e.offset as int]
            &&& e.file_val == theirs[e.offset as int]
        }
    &&& forall|i: int, j: int|
        0 <= i < j < entries.len() ==> (#[trigger] entries[i]).offset < (#[trigger] entries[j]).offset
    &&& forall|o: int|
        0 <= o < upto && mine[o] != theirs[o] ==> exists|i: int|
            0 <= i < entries.len() && (#[trigger] entries[i]).offset == o
}

/// The places where two byte strings differ, over the length of the
/// shorter.
pub fn diff_bytes(mine: &Vec<u8>, theirs: &Vec<u8>) -> (entries: Vec<FileDiffEntry>)
    ensures
        is_diff_of(
            entries@,
            mine@,
            theirs@,
            if mine.len() <= theirs.len() { mine.len() as int } else { theirs.len() as int },
        ),
{
    let n = if mine.len() <= theirs.len() { mine.len() } else { theirs.len() };
    let mut entries: Vec<FileDiffEntry> = Vec::new();
    let mut offset: usize = 0;
    while offset < n
        invariant
            offset <= n,
            n <= mine.len(),
            n <= theirs.len(),
            is_diff_of(entries@, mine@, theirs@, offset as int),
        decreases n - offset,
    {
        let my_val = mine[offset];
        let file_val = theirs[offset];
        if my_val != file_val {
            let ghost before = entries@;
            entries.push(FileDiffEntry { my_val, file_val, offset });
            assert forall|o: int|
                0 <= o < offset + 1 && mine@[o] != theirs@[o] implies exists|i: int|
                0 <= i < entries@.len() && (#[trigger] entries@[i]).offset == o by {
                if o < offset {
                    let i = choose|i: int| 0 <= i < before.len() && (#[trigger] before[i]).offset == o;
                    assert(entries@[i].offset == o);
                } else {
                    assert(entries@[before.len() as int].offset == o);
                }
            }
        }
        offset += 1;
    }
    entries
}

/// Column count of the perspective of a fresh document.
pub const DEFAULT_COLS: usize = 48;

/// The three views of a fresh document onto `perspective`: hexadecimal,
/// text with lines `line_spacing` pixels apart, and blocks.
pub fn default_views(line_spacing: u16, perspective: PerspectiveKey) -> (views: Vec<NamedView>)
    ensures
        views.len() == 3,
        views[0].name@ == "Default hex"@,
        views[0].view == crate::view::View::spec_new(
            ViewKind::Hex(HexData { font_size: DEFAULT_FONT_SIZE }),
            perspective,
        ),
        views[1].name@ == "Default text"@,
        views[1].view == crate::view::View::spec_new(
            ViewKind::Text(TextData { line_spacing, font_size: DEFAULT_FONT_SIZE }),
            perspective,
        ),
        views[2].name@ == "Default block"@,
        views[2].view == crate::view::View::spec_new(ViewKind::Block, perspective),
{
    let mut views: Vec<NamedView> = Vec::new();
    views.push(
        NamedView {
            name: "Default hex".to_owned(),
            view: crate::view::View::new(
                ViewKind::Hex(HexData { font_size: DEFAULT_FONT_SIZE }),
                perspective,
            ),
        },
    );
    views.push(
        NamedView {
            name: "Default text".to_owned(),
            view: crate::view::View::new(
                ViewKind::Text(TextData { line_spacing, font_size: DEFAULT_FONT_SIZE }),
                perspective,
            ),
        },
    );
    views.push(
        NamedView {
            name: "Default block".to_owned(),
            view: crate::view::View::new(ViewKind::Block, perspective),
        },
    );
    views
}

/// Changes the column count of the perspective of `view` by `f`, forces it
/// into `1..=len` of the region, and scrolls the view so that the byte that
/// was at its top left stays there on the axes that are not locked.
pub fn col_change_impl_view_perspective<F: FnOnce(usize) -> usize>(
    view: &mut crate::view::View,
    perspectives: &mut PerspectiveMap,
    regions: &RegionMap,
    f: F,
    lock_x: bool,
    lock_y: bool,
)
    requires
        old(view).wf(*old(perspectives), *regions),
        f.requires((old(perspectives).entries()[old(view).perspective].cols,)),
    ensures
        ({
            let pk = old(view).perspective;
            let was = old(perspectives).entries()[pk];
            let now = final(perspectives).entries()[pk];
            let top_left = saturate_usize(
                grid_offset(
                    was.bound(*regions).begin as int,
                    was.cols as int,
                    old(view).scroll_offset.row as int,
                    old(view).scroll_offset.col as int,
                ),
            );
            &&& final(perspectives).entries() == old(perspectives).entries().insert(pk, now)
            &&& now == (Perspective { cols: now.cols, ..was })
            &&& exists|c: usize|
                f.ensures((was.cols,), c) && now.cols == clamped_cols(
                    c as int,
                    was.bound(*regions).spec_len(),
                )
            &&& now.wf(*regions)
            &&& *final(view) == old(view).spec_scrolled_to(now, *regions, top_left, lock_x, lock_y)
        }),
{
    let prev_offset = view.offsets(perspectives, regions);
    let ghost before = perspectives.entries();
    let ghost was = before[view.perspective];
    let p = perspective_get_mut(perspectives, view.perspective);
    let changed = f(p.cols);
    p.cols = changed;
    p.clamp_cols(regions);
    assert(perspectives.entries()[view.perspective].cols == clamped_cols(
        changed as int,
        was.bound(*regions).spec_len(),
    ));
    view.scroll_to_byte_offset(prev_offset.byte, perspectives, regions, lock_x, lock_y);
}

/// The state of the editor: the buffer, what of it is unsaved, the cursor
/// and the selection, what is known of the source, and the metadata with
/// the layout and the view that are current.
pub struct App {
    /// The bytes being edited.
    pub data: Vec<u8>,
    /// The range that holds every unsaved modification, if there is one.
    pub dirty_region: Option<Region>,
    /// The edit cursor and its history.
    pub edit_state: EditState,
    /// The layout shown, or the null handle when none is.
    pub current_layout: LayoutKey,
    pub focused_view: Option<ViewKey>,
    /// The rectangle available to the views.
    pub hex_iface_rect: ViewportRect,
    /// One end of the selection; it may lie before or after the other.
    pub select_a: Option<usize>,
    /// The other end of the selection.
    pub select_b: Option<usize>,
    pub source: Option<Source>,
    /// Whether a read of the streamed source is under way.
    pub stream_pending: bool,
    pub col_change_lock_x: bool,
    pub col_change_lock_y: bool,
    pub just_reloaded: bool,
    /// Whether the metadata has unsaved changes.
    pub meta_dirty: bool,
    pub preferences: Preferences,
    pub meta: Meta,
}

impl App {
    /// The state is usable: the metadata is well formed, the focused view
    /// is live, the current layout is live unless it is null, and the dirty
    /// region and the cursor history are well formed.
    pub open spec fn wf(&self) -> bool {
        &&& self.meta.wf()
        &&& self.focused_view matches Some(k) ==> self.meta.views.entries().contains_key(k)
        &&& !self.current_layout.spec_is_null() ==> self.meta.layouts.entries().contains_key(
            self.current_layout,
        )
        &&& self.dirty_region matches Some(r) ==> r.wf()
        &&& self.edit_state.wf()
    }

    /// The metadata is that of a fresh document over a buffer of `len`
    /// bytes, with `first` as the state of its hexadecimal view: one region
    /// over the buffer, one perspective of 48 columns, the three default
    /// views in one row of one layout, which is current, and the
    /// hexadecimal view in focus.
    pub open spec fn holds_defaults(
        &self,
        len: usize,
        line_spacing: u16,
        first: crate::view::View,
    ) -> bool {
        let lk = self.current_layout;
        let layouts = self.meta.layouts.entries();
        let views = self.meta.views.entries();
        let perspectives = self.meta.perspectives.entries();
        let regions = self.meta.regions.entries();
        let row = layouts[lk].view_grid@[0]@;
        let pk = views[row[0]].view.perspective;
        let rk = perspectives[pk].region;
        &&& layouts.dom() =~= set![lk]
        &&& layouts[lk].name@ == "Default layout"@
        &&& layouts[lk].margin == 6
        &&& layouts[lk].view_grid@.len() == 1
        &&& row.len() == 3
        &&& self.focused_view == Some(row[0])
        &&& views.dom() =~= set![row[0], row[1], row[2]]
        &&& views[row[0]].name@ == "Default hex"@
        &&& views[row[0]].view == first
        &&& views[row[1]].name@ == "Default text"@
        &&& views[row[1]].view == crate::view::View::spec_new(
            ViewKind::Text(TextData { line_spacing, font_size: DEFAULT_FONT_SIZE }),
            pk,
        )
        &&& views[row[2]].name@ == "Default block"@
        &&& views[row[2]].view == crate::view::View::spec_new(ViewKind::Block, pk)
        &&& first.perspective == pk
        &&& perspectives.dom() =~= set![pk]
        &&& perspectives[pk].cols == DEFAULT_COLS
        &&& !perspectives[pk].flip_row_order
        &&& perspectives[pk].name@ == "default"@
        &&& regions.dom() =~= set![rk]
        &&& regions[rk].name@ == "default"@
        &&& regions[rk].desc@ == Seq::<char>::empty()
        &&& regions[rk].region == (Region {
            begin: 0,
            end: if len == 0 {
                0
            } else {
                (len - 1) as usize
            },
        })
    }

    /// Forgets the current layout and the focused view.
    pub fn clear_meta_refs(&mut self)
        ensures
            *final(self) == (App {
                current_layout: final(self).current_layout,
                focused_view: None,
                ..*old(self)
            }),
            final(self).current_layout.spec_is_null(),
            old(self).wf() ==> final(self).wf(),
    {
        self.current_layout = LayoutKey::null();
        self.focused_view = None;
    }

    /// Makes `k` the current layout and focuses its first view, the one at
    /// the start of the first row; the focus stays when the first row is
    /// missing or empty.
    pub fn switch_layout(&mut self, k: LayoutKey)
        requires
            old(self).wf(),
            old(self).meta.layouts.entries().contains_key(k),
        ensures
            final(self).wf(),
            *final(self) == (App {
                current_layout: k,
                focused_view: final(self).focused_view,
                ..*old(self)
            }),
            final(self).focused_view == ({
                let grid = old(self).meta.layouts.entries()[k].view_grid@;
                if grid.len() > 0 && grid[0]@.len() > 0 {
                    Some(grid[0]@[0])
                } else {
                    old(self).focused_view
                }
            }),
    {
        self.current_layout = k;
        let layout = layout_get(&self.meta.layouts, k).unwrap();
        if layout.view_grid.len() > 0 && layout.view_grid[0].len() > 0 {
            let first = layout.view_grid[0][0];
            assert(layout.in_grid(0, 0) && layout.key_at(0, 0) == first);
            self.focused_view = Some(first);
        }
    }
}

impl App {
    /// Replaces the metadata by that of a fresh document over the buffer.
    pub fn new_file_readjust(&mut self, line_spacing: u16)
        requires
            old(self).dirty_region matches Some(r) ==> r.wf(),
            old(self).edit_state.wf(),
        ensures
            final(self).wf(),
            final(self).holds_defaults(
                old(self).data.len(),
                line_spacing,
                crate::view::View::spec_new(
                    ViewKind::Hex(HexData { font_size: DEFAULT_FONT_SIZE }),
                    final(self).meta.views.entries()[final(self).focused_view->0].view.perspective,
                ),
            ),
            final(self).meta.bookmarks@ =~= Seq::empty(),
            *final(self) == (App {
                meta: final(self).meta,
                current_layout: final(self).current_layout,
                focused_view: final(self).focused_view,
                ..*old(self)
            }),
    {
        self.meta = Meta::new();
        self.clear_meta_refs();
        let region = NamedRegion {
            name: "default".to_owned(),
            desc: String::new(),
            region: Region::of_buffer(self.data.len()),
        };
        let rk = self.meta.insert_region(region).unwrap();
        let pk = self.meta.insert_perspective(
            Perspective::from_region(rk, "default".to_owned()),
        ).unwrap();
        let defaults = default_views(line_spacing, pk);
        let k0 = self.meta.insert_view(defaults[0].duplicate()).unwrap();
        let k1 = self.meta.insert_view(defaults[1].duplicate()).unwrap();
        let k2 = self.meta.insert_view(defaults[2].duplicate()).unwrap();
        let mut row: Vec<ViewKey> = Vec::new();
        row.push(k0);
        row.push(k1);
        row.push(k2);
        let mut grid: Vec<Vec<ViewKey>> = Vec::new();
        grid.push(row);
        let layout = Layout {
            name: "Default layout".to_owned(),
            view_grid: grid,
            margin: default_margin(),
        };
        proof {
            assert forall|r: int, c: int|
                layout.in_grid(r, c) implies self.meta.views.entries().contains_key(
                #[trigger] layout.key_at(r, c),
            ) by {
                assert(r == 0 && 0 <= c < 3);
            }
            assert forall|r1: int, c1: int, r2: int, c2: int|
                layout.in_grid(r1, c1) && layout.in_grid(r2, c2) && #[trigger] layout.key_at(r1, c1)
                    == #[trigger] layout.key_at(r2, c2) implies r1 == r2 && c1 == c2 by {
                assert(r1 == 0 && r2 == 0 && 0 <= c1 < 3 && 0 <= c2 < 3);
            }
        }
        let lk = self.meta.insert_layout(layout).unwrap();
        self.switch_layout(lk);
    }

    /// The state for a buffer that was loaded from `source`, or for no
    /// buffer when nothing was loaded. With a source the metadata is that of
    /// a fresh document; with an offset to jump to, the cursor is put there
    /// and the focused view centred on it.
    pub fn new(data: Vec<u8>, source: Option<Source>, jump: Option<usize>, line_spacing: u16) -> (app:
        App)
        ensures
            app.wf(),
            app.data == data,
            app.source == source,
            app.dirty_region is None,
            app.edit_state.wf(),
            app.edit_state.cursor == (match jump {
                Some(offset) => offset,
                None => 0,
            }),
            app.edit_state.behind() =~= Seq::empty(),
            app.edit_state.ahead() =~= Seq::empty(),
            app.hex_iface_rect == (ViewportRect { x: 0, y: 0, w: 0, h: 0 }),
            app.select_a is None && app.select_b is None,
            !app.stream_pending,
            !app.col_change_lock_x && app.col_change_lock_y,
            app.just_reloaded && !app.meta_dirty,
            app.preferences == (Preferences {
                move_edit_cursor: false,
                quick_edit: false,
                sticky_edit: false,
                auto_save: false,
                keep_meta: false,
            }),
            app.meta.bookmarks@ =~= Seq::empty(),
            source is None ==> {
                &&& app.current_layout.spec_is_null()
                &&& app.focused_view is None
                &&& app.meta.regions.entries() =~= Map::empty()
                &&& app.meta.perspectives.entries() =~= Map::empty()
                &&& app.meta.views.entries() =~= Map::empty()
                &&& app.meta.layouts.entries() =~= Map::empty()
            },
            source is Some ==> {
                let fresh = crate::view::View::spec_new(
                    ViewKind::Hex(HexData { font_size: DEFAULT_FONT_SIZE }),
                    app.meta.views.entries()[app.focused_view->0].view.perspective,
                );
                let p = app.meta.perspectives.entries()[fresh.perspective];
                app.holds_defaults(
                    data.len(),
                    line_spacing,
                    match jump {
                        Some(offset) => fresh.spec_centered_on_offset(p, app.meta.regions, offset),
                        None => fresh,
                    },
                )
            },
    {
        let mut app = App {
            data,
            dirty_region: None,
            edit_state: EditState::new(),
            current_layout: LayoutKey::null(),
            focused_view: None,
            hex_iface_rect: ViewportRect { x: 0, y: 0, w: 0, h: 0 },
            select_a: None,
            select_b: None,
            source,
            stream_pending: false,
            col_change_lock_x: false,
            col_change_lock_y: true,
            just_reloaded: true,
            meta_dirty: false,
            preferences: Preferences::default(),
            meta: Meta::new(),
        };
        if source.is_some() {
            app.new_file_readjust(line_spacing);
        }
        if let Some(offset) = jump {
            app.center_view_on_offset(offset);
            app.edit_state.cursor = offset;
        }
        app
    }

    /// Centres the focused view on the byte at `offset`; without a focused
    /// view nothing changes.
    pub fn center_view_on_offset(&mut self, offset: usize)
        requires
            old(self).wf(),
        ensures
            final(self).wf(),
            final(self).edit_state == old(self).edit_state,
            final(self).is_centring_of(*old(self), offset),
    {
        if let Some(key) = self.focused_view {
            let ghost before = *self;
            let nv = view_get_mut(&mut self.meta.views, key);
            nv.view.center_on_offset(offset, &self.meta.perspectives, &self.meta.regions);
            proof {
                self.meta.lemma_wf_carries_over(before.meta);
            }
        }
    }
}

impl App {
    /// Puts the cursor at `offset` and centres the focused view on it.
    pub fn search_focus(&mut self, offset: usize)
        requires
            old(self).wf(),
        ensures
            final(self).wf(),
            final(self).edit_state == (EditState { cursor: offset, ..old(self).edit_state }),
            final(self).is_centring_of(*old(self), offset),
    {
        self.edit_state.cursor = offset;
        self.center_view_on_offset(offset);
    }

    /// Puts the cursor at the offset to jump to, or at the first byte when
    /// there is none, and centres the focused view on it.
    pub fn set_cursor_init(&mut self, jump: Option<usize>)
        requires
            old(self).wf(),
        ensures
            final(self).wf(),
            final(self).edit_state == (EditState {
                cursor: match jump {
                    Some(offset) => offset,
                    None => 0,
                },
                ..old(self).edit_state
            }),
            final(self).is_centring_of(*old(self), final(self).edit_state.cursor),
    {
        let offset = match jump {
            Some(offset) => offset,
            None => 0,
        };
        self.edit_state.cursor = offset;
        self.center_view_on_offset(offset);
    }

    /// Takes the cursor back to where it was before and centres the focused
    /// view on it; nothing changes when the cursor was nowhere before.
    pub fn cursor_history_back(&mut self) -> (moved: bool)
        requires
            old(self).wf(),
        ensures
            final(self).wf(),
            moved == (old(self).edit_state.behind().len() > 0),
            !moved ==> *final(self) == *old(self),
            moved ==> {
                &&& final(self).edit_state.cursor == old(self).edit_state.behind().last()
                &&& final(self).edit_state.behind() =~= old(self).edit_state.behind().drop_last()
                &&& final(self).edit_state.ahead() =~= seq![old(self).edit_state.cursor] + old(
                    self,
                ).edit_state.ahead()
                &&& final(self).is_centring_of(*old(self), final(self).edit_state.cursor)
            },
    {
        if self.edit_state.cursor_history_back() {
            self.center_view_on_offset(self.edit_state.cursor);
            true
        } else {
            false
        }
    }

    /// Takes the cursor forward to where it came back from and centres the
    /// focused view on it; nothing changes when it came back from nowhere.
    pub fn cursor_history_forward(&mut self) -> (moved: bool)
        requires
            old(self).wf(),
        ensures
            final(self).wf(),
            moved == (old(self).edit_state.ahead().len() > 0),
            !moved ==> *final(self) == *old(self),
            moved ==> {
                &&& final(self).edit_state.cursor == old(self).edit_state.ahead()[0]
                &&& final(self).edit_state.behind() =~= old(self).edit_state.behind().push(
                    old(self).edit_state.cursor,
                )
                &&& final(self).edit_state.ahead() =~= old(self).edit_state.ahead().skip(1)
                &&& final(self).is_centring_of(*old(self), final(self).edit_state.cursor)
            },
    {
        if self.edit_state.cursor_history_forward() {
            self.center_view_on_offset(self.edit_state.cursor);
            true
        } else {
            false
        }
    }

    /// Whether this state is `before` with the focused view centred on the
    /// byte at `offset`, whatever the cursor and its history.
    pub open spec fn is_centring_of(&self, before: App, offset: usize) -> bool {
        &&& *self == (App { meta: self.meta, edit_state: self.edit_state, ..before })
        &&& self.meta == (Meta { views: self.meta.views, ..before.meta })
        &&& before.focused_view is None ==> self.meta.views == before.meta.views
        &&& before.focused_view matches Some(key) ==> {
            let was = before.meta.views.entries()[key];
            let p = before.meta.perspectives.entries()[was.view.perspective];
            self.meta.views.entries() == before.meta.views.entries().insert(
                key,
                NamedView {
                    view: was.view.spec_centered_on_offset(p, before.meta.regions, offset),
                    ..was
                },
            )
        }
    }

    /// Records `damage` as unsaved: the dirty region grows to hold it.
    pub fn widen_dirty_region(&mut self, damage: DamageRegion)
        requires
            old(self).wf(),
        ensures
            final(self).wf(),
            final(self).dirty_region == Some(
                widened(old(self).dirty_region, damage.begin(), damage.end()),
            ),
            *final(self) == (App { dirty_region: final(self).dirty_region, ..*old(self) }),
    {
        widen_dirty_region(&mut self.dirty_region, damage);
    }

    /// Whether this state is `before` after a change of the column count
    /// of the focused view's perspective to `raw`: the count is forced into
    /// `1..=len` of the region, and the focused view is scrolled so that
    /// the byte that was at its top left stays there on the axes that are
    /// not locked. Without a focused view nothing changes.
    pub open spec fn is_col_change_of(&self, before: App, raw: int) -> bool {
        &&& *self == (App { meta: self.meta, ..before })
        &&& self.meta == (Meta {
            views: self.meta.views,
            perspectives: self.meta.perspectives,
            ..before.meta
        })
        &&& before.focused_view is None ==> self.meta.views == before.meta.views
            && self.meta.perspectives == before.meta.perspectives
        &&& before.focused_view matches Some(key) ==> {
            let was_view = before.meta.views.entries()[key];
            let pk = was_view.view.perspective;
            let was = before.meta.perspectives.entries()[pk];
            let now = Perspective {
                cols: clamped_cols(raw, was.bound(before.meta.regions).spec_len()) as usize,
                ..was
            };
            let top_left = saturate_usize(
                grid_offset(
                    was.bound(before.meta.regions).begin as int,
                    was.cols as int,
                    was_view.view.scroll_offset.row as int,
                    was_view.view.scroll_offset.col as int,
                ),
            );
            &&& self.meta.perspectives.entries() == before.meta.perspectives.entries().insert(
                pk,
                now,
            )
            &&& self.meta.views.entries() == before.meta.views.entries().insert(
                key,
                NamedView {
                    view: was_view.view.spec_scrolled_to(
                        now,
                        before.meta.regions,
                        top_left,
                        before.col_change_lock_x,
                        before.col_change_lock_y,
                    ),
                    ..was_view
                },
            )
        }
    }

    /// The perspective of the focused view, when a view is in focus.
    pub open spec fn focused_perspective(&self) -> Perspective {
        let view = self.meta.views.entries()[self.focused_view->0].view;
        self.meta.perspectives.entries()[view.perspective]
    }

    /// Column count of the focused view's perspective, when a view is in
    /// focus.
    pub open spec fn focused_cols(&self) -> usize {
        self.focused_perspective().cols
    }

    /// Changes the column count of the focused view's perspective by `f`.
    pub fn col_change_impl<F: FnOnce(usize) -> usize>(&mut self, f: F)
        requires
            old(self).wf(),
            old(self).focused_view is Some ==> f.requires((old(self).focused_cols(),)),
        ensures
            final(self).wf(),
            old(self).focused_view is None ==> final(self).is_col_change_of(*old(self), 0),
            old(self).focused_view is Some ==> exists|c: usize|
                f.ensures((old(self).focused_cols(),), c) && final(self).is_col_change_of(
                    *old(self),
                    c as int,
                ),
    {
        if let Some(key) = self.focused_view {
            let ghost before = *self;
            let lock_x = self.col_change_lock_x;
            let lock_y = self.col_change_lock_y;
            let nv = view_get_mut(&mut self.meta.views, key);
            col_change_impl_view_perspective(
                &mut nv.view,
                &mut self.meta.perspectives,
                &self.meta.regions,
                f,
                lock_x,
                lock_y,
            );
            proof {
                let pk = before.meta.views.entries()[key].view.perspective;
                let was = before.meta.perspectives.entries()[pk];
                let now = self.meta.perspectives.entries()[pk];
                let c = choose|c: usize|
                    f.ensures((was.cols,), c) && now.cols == clamped_cols(
                        c as int,
                        was.bound(before.meta.regions).spec_len(),
                    );
                assert(self.is_col_change_of(before, c as int));
                assert forall|k: PerspectiveKey|
                    before.meta.perspectives.entries().contains_key(k) implies {
                    &&& (#[trigger] self.meta.perspectives.entries()[k]).region
                        == before.meta.perspectives.entries()[k].region
                    &&& self.meta.perspectives.entries()[k].cols >= 1
                } by {
                    if k != pk {
                        assert(before.meta.perspectives.entries()[k].wf(before.meta.regions));
                    }
                }
                self.meta.lemma_wf_carries_over(before.meta);
            }
        }
    }

    /// One column fewer in the focused view's perspective, and one at least.
    pub fn dec_cols(&mut self)
        requires
            old(self).wf(),
        ensures
            final(self).wf(),
            final(self).is_col_change_of(*old(self), old(self).focused_cols() - 1),
    {
        let f = |c: usize| -> (r: usize)
            ensures
                r == c - 1 || (c == 0 && r == 0),
            { if c == 0 { 0 } else { c - 1 } };
        self.col_change_impl(f);
        proof {
            if old(self).focused_view is Some {
                assert(old(self).meta.perspectives.entries()[old(self).meta.views.entries()[old(
                    self,
                ).focused_view->0].view.perspective].wf(old(self).meta.regions));
            }
        }
    }

    /// One column more in the focused view's perspective, and no more than
    /// the region has bytes.
    pub fn inc_cols(&mut self)
        requires
            old(self).wf(),
        ensures
            final(self).wf(),
            final(self).is_col_change_of(*old(self), old(self).focused_cols() + 1),
    {
        let f = |c: usize| -> (r: usize)
            ensures
                r == c + 1 || (c == usize::MAX && r == c),
            { if c == usize::MAX { c } else { c + 1 } };
        self.col_change_impl(f);
        proof {
            if old(self).focused_view is Some {
                assert(old(self).meta.perspectives.entries()[old(self).meta.views.entries()[old(
                    self,
                ).focused_view->0].view.perspective].wf(old(self).meta.regions));
            }
        }
    }

    /// Half the columns in the focused view's perspective, and one at least.
    pub fn halve_cols(&mut self)
        requires
            old(self).wf(),
        ensures
            final(self).wf(),
            final(self).is_col_change_of(*old(self), old(self).focused_cols() as int / 2),
    {
        let f = |c: usize| -> (r: usize)
            ensures
                r == c / 2,
            { c / 2 };
        self.col_change_impl(f);
    }

    /// Twice the columns in the focused view's perspective, and no more than
    /// the region has bytes.
    pub fn double_cols(&mut self)
        requires
            old(self).wf(),
        ensures
            final(self).wf(),
            final(self).is_col_change_of(*old(self), old(self).focused_cols() * 2),
    {
        let f = |c: usize| -> (r: usize)
            ensures
                r == c * 2 || (c * 2 > usize::MAX && r == usize::MAX),
            { if c > usize::MAX / 2 { usize::MAX } else { c * 2 } };
        self.col_change_impl(f);
        proof {
            if old(self).focused_view is Some {
                assert(old(self).meta.perspectives.entries()[old(self).meta.views.entries()[old(
                    self,
                ).focused_view->0].view.perspective].wf(old(self).meta.regions));
            }
        }
    }

    /// Lays out the views of the current layout in the available rectangle.
    /// Returns whether a layout was applied: none is when no layout is
    /// current or the current one cannot be laid out, and no view changes
    /// then.
    pub fn update(&mut self) -> (applied: bool)
        requires
            old(self).wf(),
        ensures
            final(self).wf(),
            *final(self) == (App { meta: final(self).meta, ..*old(self) }),
            final(self).meta == (Meta { views: final(self).meta.views, ..old(self).meta }),
            old(self).current_layout.spec_is_null() ==> !applied,
            !applied ==> final(self).meta.views.entries() == old(self).meta.views.entries(),
            !old(self).current_layout.spec_is_null() ==> {
                let layout = old(self).meta.layouts.entries()[old(self).current_layout];
                let needed = layout.needed_sizes(
                    old(self).meta.views,
                    old(self).meta.perspectives,
                    old(self).meta.regions,
                );
                &&& applied == placeable(needed, layout.margin as int, old(self).hex_iface_rect)
                &&& applied ==> is_laid_out(
                    final(self).meta.views.entries(),
                    old(self).meta.views.entries(),
                    layout,
                    needed,
                    old(self).hex_iface_rect,
                )
            },
    {
        if self.current_layout.is_null() {
            return false;
        }
        let ghost before = *self;
        let layout = layout_get(&self.meta.layouts, self.current_layout).unwrap();
        proof {
            self.meta.lemma_layouts_ready(self.current_layout);
        }
        let applied = do_auto_layout(
            layout,
            &mut self.meta.views,
            &self.hex_iface_rect,
            &self.meta.perspectives,
            &self.meta.regions,
        );
        proof {
            assert forall|vk: ViewKey| before.meta.views.entries().contains_key(vk) implies (
            #[trigger] self.meta.views.entries()[vk]).view.perspective
                == before.meta.views.entries()[vk].view.perspective by {
                if applied && layout.holds(vk) {
                    let (r, c) = choose|r: int, c: int|
                        layout.in_grid(r, c) && #[trigger] layout.key_at(r, c) == vk;
                    assert(layout.key_at(r, c) == vk);
                }
            }
            self.meta.lemma_wf_carries_over(before.meta);
        }
        applied
    }

    /// The selection marked by its two ends, which may come in either
    /// order; nothing unless both ends are set.
    pub fn selection(select_a: &Option<usize>, select_b: &Option<usize>) -> (r: Option<Region>)
        ensures
            r is Some == (select_a is Some && select_b is Some),
            r matches Some(reg) ==> {
                &&& reg.wf()
                &&& reg.begin == (if select_a->0 <= select_b->0 { select_a->0 } else { select_b->0 })
                &&& reg.end == (if select_a->0 <= select_b->0 { select_b->0 } else { select_a->0 })
            },
    {
        match (select_a, select_b) {
            (Some(a), Some(b)) => Some(Region::spanning(*a, *b)),
            _ => None,
        }
    }

    /// Selects all of the region of the focused view; without a focused
    /// view nothing changes.
    pub fn focused_view_select_all(&mut self)
        requires
            old(self).wf(),
        ensures
            final(self).wf(),
            old(self).focused_view is None ==> *final(self) == *old(self),
            old(self).focused_view matches Some(key) ==> {
                let region = old(self).focused_perspective().bound(old(self).meta.regions);
                *final(self) == (App {
                    select_a: Some(region.begin),
                    select_b: Some(region.end),
                    ..*old(self)
                })
            },
    {
        if let Some(key) = self.focused_view {
            let p_key = view_get(&self.meta.views, key).unwrap().view.perspective;
            let p = perspective_get(&self.meta.perspectives, p_key).unwrap();
            assert(p.wf(self.meta.regions));
            let r = region_get(&self.meta.regions, p.region).unwrap();
            let begin = r.region.begin;
            let end = r.region.end;
            self.select_a = Some(begin);
            self.select_b = Some(end);
        }
    }
}

impl App {
    /// The cell under the pixel at `x`, `y` in the view `k`, if any.
    pub open spec fn spec_cell_at(&self, k: ViewKey, x: int, y: int) -> Option<(int, int)> {
        let v = self.meta.views.entries()[k].view;
        v.spec_row_col_of_pos(self.meta.perspectives.entries()[v.perspective], self.meta.regions, x, y)
    }

    /// Whether the rectangle of the view `k` holds the pixel at `x`, `y`.
    pub open spec fn spec_view_holds(&self, k: ViewKey, x: int, y: int) -> bool {
        self.meta.views.entries()[k].view.viewport_rect.spec_contains_pos(x, y)
    }

    /// Offset of the cell at `row`, `col` of the view `k`.
    pub open spec fn spec_offset_in(&self, k: ViewKey, row: int, col: int) -> int {
        let v = self.meta.views.entries()[k].view;
        let p = self.meta.perspectives.entries()[v.perspective];
        grid_offset(p.bound(self.meta.regions).begin as int, p.cols as int, row, col)
    }

    /// The handles of the views of the current layout, row after row; none
    /// when no layout is current.
    pub open spec fn current_keys(&self) -> Seq<ViewKey> {
        if self.meta.layouts.entries().contains_key(self.current_layout) {
            self.meta.layouts.entries()[self.current_layout].spec_keys()
        } else {
            Seq::empty()
        }
    }

    /// The handles of the views of the current layout, row after row; none
    /// when no layout is current.
    pub fn current_view_keys(&self) -> (keys: Vec<ViewKey>)
        requires
            self.wf(),
        ensures
            keys@ == self.current_keys(),
            forall|i: int|
                0 <= i < keys.len() ==> self.meta.views.entries().contains_key(#[trigger] keys[i]),
            forall|i: int, j: int|
                0 <= i < keys.len() && 0 <= j < keys.len() && keys[i] == keys[j] ==> i == j,
    {
        match layout_get(&self.meta.layouts, self.current_layout) {
            Some(layout) => {
                let keys = layout.iter();
                proof {
                    assert(layout.wf(self.meta.views));
                    assert forall|i: int|
                        0 <= i < keys.len() implies self.meta.views.entries().contains_key(
                        #[trigger] keys[i],
                    ) by {
                        layout.lemma_listed_is_held(i);
                        let (r, c) = choose|r: int, c: int|
                            layout.in_grid(r, c) && #[trigger] layout.key_at(r, c) == keys[i];
                        assert(self.meta.views.entries().contains_key(layout.key_at(r, c)));
                    }
                    assert forall|i: int, j: int|
                        0 <= i < keys.len() && 0 <= j < keys.len() && keys[i] == keys[j] implies i
                        == j by {
                        layout.lemma_listed_once(i, j);
                    }
                }
                keys
            },
            None => Vec::new(),
        }
    }

    /// Byte offset under the pixel at `x`, `y`, with the view that shows
    /// it: the first view of the current layout, row after row, that has a
    /// cell under the pixel.
    pub fn byte_offset_at_pos(&self, x: ViewportScalar, y: ViewportScalar) -> (r: Option<(usize, ViewKey)>)
        requires
            self.wf(),
        ensures
            r is None ==> forall|i: int|
                0 <= i < self.current_keys().len() ==> self.spec_cell_at(
                    #[trigger] self.current_keys()[i],
                    x as int,
                    y as int,
                ) is None,
            r matches Some(hit) ==> exists|i: int|
                {
                    &&& 0 <= i < self.current_keys().len()
                    &&& #[trigger] self.current_keys()[i] == hit.1
                    &&& forall|j: int|
                        0 <= j < i ==> self.spec_cell_at(
                            #[trigger] self.current_keys()[j],
                            x as int,
                            y as int,
                        ) is None
                    &&& self.spec_cell_at(hit.1, x as int, y as int) matches Some(cell)
                    &&& hit.0 == self.spec_offset_in(hit.1, cell.0, cell.1)
                },
    {
        let keys = self.current_view_keys();
        let mut i: usize = 0;
        while i < keys.len()
            invariant
                i <= keys.len(),
                self.wf(),
                keys@ == self.current_keys(),
                forall|j: int|
                    0 <= j < keys.len() ==> self.meta.views.entries().contains_key(
                        #[trigger] keys[j],
                    ),
                forall|j: int|
                    0 <= j < i ==> self.spec_cell_at(#[trigger] keys[j], x as int, y as int) is None,
            decreases keys.len() - i,
        {
            let key = keys[i];
            let nv = view_get(&self.meta.views, key).unwrap();
            assert(self.meta.perspectives.entries().contains_key(nv.view.perspective));
            assert(self.meta.perspectives.entries()[nv.view.perspective].wf(self.meta.regions));
            if let Some((row, col)) = nv.view.row_col_offset_of_pos(
                x,
                y,
                &self.meta.perspectives,
                &self.meta.regions,
            ) {
                let p = perspective_get(&self.meta.perspectives, nv.view.perspective).unwrap();
                let off = p.byte_offset_of_row_col(row, col, &self.meta.regions);
                assert(self.current_keys()[i as int] == key);
                return Some((off, key));
            }
            i += 1;
        }
        None
    }

    /// The view under the pixel at `x`, `y`: the first view of the current
    /// layout, row after row, whose rectangle holds the pixel.
    pub fn view_idx_at_pos(&self, x: ViewportScalar, y: ViewportScalar) -> (r: Option<ViewKey>)
        requires
            self.wf(),
        ensures
            r is None ==> forall|i: int|
                0 <= i < self.current_keys().len() ==> !self.spec_view_holds(
                    #[trigger] self.current_keys()[i],
                    x as int,
                    y as int,
                ),
            r matches Some(k) ==> exists|i: int|
                {
                    &&& 0 <= i < self.current_keys().len()
                    &&& #[trigger] self.current_keys()[i] == k
                    &&& forall|j: int|
                        0 <= j < i ==> !self.spec_view_holds(
                            #[trigger] self.current_keys()[j],
                            x as int,
                            y as int,
                        )
                    &&& self.spec_view_holds(k, x as int, y as int)
                },
    {
        let keys = self.current_view_keys();
        let mut i: usize = 0;
        while i < keys.len()
            invariant
                i <= keys.len(),
                keys@ == self.current_keys(),
                forall|j: int|
                    0 <= j < keys.len() ==> self.meta.views.entries().contains_key(
                        #[trigger] keys[j],
                    ),
                forall|j: int|
                    0 <= j < i ==> !self.spec_view_holds(#[trigger] keys[j], x as int, y as int),
            decreases keys.len() - i,
        {
            let key = keys[i];
            let nv = view_get(&self.meta.views, key).unwrap();
            if nv.view.viewport_rect.contains_pos(x, y) {
                assert(self.current_keys()[i as int] == key);
                return Some(key);
            }
            i += 1;
        }
        None
    }

    /// Where the focus goes from place `i` of `n` views: one back, and from
    /// the first to the last.
    pub open spec fn place_before(i: int, n: int) -> int {
        if i == 0 {
            n - 1
        } else {
            i - 1
        }
    }

    /// Where the focus goes from place `i` of `n` views: one on, and from
    /// the last to the first.
    pub open spec fn place_after(i: int, n: int) -> int {
        if i == n - 1 {
            0
        } else {
            i + 1
        }
    }

    /// Place of the focused view among the views of the current layout.
    fn focused_place(&self, keys: &Vec<ViewKey>) -> (r: Option<usize>)
        ensures
            r is None ==> self.focused_view is None || !keys@.contains(self.focused_view->0),
            r matches Some(i) ==> i < keys.len() && self.focused_view == Some(keys[i as int]),
    {
        match self.focused_view {
            None => None,
            Some(focused) => {
                let mut i: usize = 0;
                while i < keys.len()
                    invariant
                        i <= keys.len(),
                        self.focused_view == Some(focused),
                        forall|j: int| 0 <= j < i ==> keys[j] != focused,
                    decreases keys.len() - i,
                {
                    if keys[i].same(focused) {
                        return Some(i);
                    }
                    i += 1;
                }
                None
            },
        }
    }

    /// Moves the focus to the view before the focused one in the current
    /// layout, and from the first view to the last. Nothing changes when no
    /// view is in focus or the focused view is not in the current layout.
    pub fn focus_prev_view_in_layout(&mut self)
        requires
            old(self).wf(),
        ensures
            final(self).wf(),
            *final(self) == (App { focused_view: final(self).focused_view, ..*old(self) }),
            old(self).focused_view is None || !old(self).current_keys().contains(
                old(self).focused_view->0,
            ) ==> final(self).focused_view == old(self).focused_view,
            forall|i: int|
                0 <= i < old(self).current_keys().len() && old(self).focused_view == Some(
                    #[trigger] old(self).current_keys()[i],
                ) ==> final(self).focused_view == Some(
                    old(self).current_keys()[Self::place_before(
                        i,
                        old(self).current_keys().len() as int,
                    )],
                ),
    {
        let keys = self.current_view_keys();
        if let Some(idx) = self.focused_place(&keys) {
            let new_idx = if idx == 0 { keys.len() - 1 } else { idx - 1 };
            self.focused_view = Some(keys[new_idx]);
        }
    }

    /// Moves the focus to the view after the focused one in the current
    /// layout, and from the last view to the first. Nothing changes when no
    /// view is in focus or the focused view is not in the current layout.
    pub fn focus_next_view_in_layout(&mut self)
        requires
            old(self).wf(),
        ensures
            final(self).wf(),
            *final(self) == (App { focused_view: final(self).focused_view, ..*old(self) }),
            old(self).focused_view is None || !old(self).current_keys().contains(
                old(self).focused_view->0,
            ) ==> final(self).focused_view == old(self).focused_view,
            forall|i: int|
                0 <= i < old(self).current_keys().len() && old(self).focused_view == Some(
                    #[trigger] old(self).current_keys()[i],
                ) ==> final(self).focused_view == Some(
                    old(self).current_keys()[Self::place_after(
                        i,
                        old(self).current_keys().len() as int,
                    )],
                ),
    {
        let keys = self.current_view_keys();
        if let Some(idx) = self.focused_place(&keys) {
            let new_idx = if idx == keys.len() - 1 { 0 } else { idx + 1 };
            self.focused_view = Some(keys[new_idx]);
        }
    }

}

impl App {
    /// Lets go of the buffer and the source. A read that is under way is
    /// given up.
    pub fn close_file(&mut self)
        ensures
            *final(self) == (App {
                data: final(self).data,
                source: None,
                stream_pending: false,
                ..*old(self)
            }),
            final(self).data@ =~= Seq::empty(),
            old(self).wf() ==> final(self).wf(),
    {
        self.data = Vec::new();
        self.source = None;
        self.stream_pending = false;
    }

    /// Takes the outcome of opening a source. What was loaded, if anything,
    /// replaces the buffer and the source, and a read of the former source
    /// that is under way is given up; then the metadata is replaced by that
    /// of a fresh document, unless the user chose to keep it.
    pub fn load_file_args(&mut self, loaded: Option<(Vec<u8>, Source)>, line_spacing: u16)
        requires
            old(self).wf(),
        ensures
            final(self).wf(),
            final(self).data == (match loaded {
                Some(l) => l.0,
                None => old(self).data,
            }),
            final(self).source == (match loaded {
                Some(l) => Some(l.1),
                None => old(self).source,
            }),
            final(self).stream_pending == (loaded is None && old(self).stream_pending),
            *final(self) == (App {
                data: final(self).data,
                source: final(self).source,
                stream_pending: final(self).stream_pending,
                meta: final(self).meta,
                current_layout: final(self).current_layout,
                focused_view: final(self).focused_view,
                ..*old(self)
            }),
            old(self).preferences.keep_meta ==> {
                &&& final(self).meta == old(self).meta
                &&& final(self).current_layout == old(self).current_layout
                &&& final(self).focused_view == old(self).focused_view
            },
            !old(self).preferences.keep_meta ==> final(self).holds_defaults(
                final(self).data.len(),
                line_spacing,
                crate::view::View::spec_new(
                    ViewKind::Hex(HexData { font_size: DEFAULT_FONT_SIZE }),
                    final(self).meta.views.entries()[final(self).focused_view->0].view.perspective,
                ),
            ),
    {
        if let Some((data, source)) = loaded {
            self.data = data;
            self.source = Some(source);
            self.stream_pending = false;
        }
        if !self.preferences.keep_meta {
            self.new_file_readjust(line_spacing);
        }
    }

    /// Replaces the metadata by `meta`, which was loaded from elsewhere, and
    /// returns whether that was done: metadata with an entry that cannot be
    /// used is refused, and nothing changes then. The handles held before
    /// are dropped; the first layout that `meta` offers becomes current and
    /// its first view takes the focus, and neither is set when `meta` has no
    /// layout.
    pub fn install_meta(&mut self, meta: Meta) -> (installed: bool)
        requires
            old(self).wf(),
        ensures
            final(self).wf(),
            installed == meta.wf(),
            !installed ==> *final(self) == *old(self),
            installed ==> {
                &&& final(self).meta == meta
                &&& *final(self) == (App {
                    meta,
                    current_layout: final(self).current_layout,
                    focused_view: final(self).focused_view,
                    ..*old(self)
                })
                &&& meta.layouts.entries().dom() =~= Set::empty() ==> {
                    &&& final(self).current_layout.spec_is_null()
                    &&& final(self).focused_view is None
                }
                &&& !(meta.layouts.entries().dom() =~= Set::empty()) ==> {
                    let grid = meta.layouts.entries()[final(self).current_layout].view_grid@;
                    &&& meta.layouts.entries().contains_key(final(self).current_layout)
                    &&& final(self).focused_view == (if grid.len() > 0 && grid[0]@.len() > 0 {
                        Some(grid[0]@[0])
                    } else {
                        None
                    })
                }
            },
    {
        if !meta.is_consistent() {
            return false;
        }
        self.clear_meta_refs();
        self.meta = meta;
        if let Some(layout_key) = self.meta.layouts.first_key() {
            self.switch_layout(layout_key);
        }
        true
    }

    /// Whether the state is usable.
    pub fn is_consistent(&self) -> (b: bool)
        ensures
            b == self.wf(),
    {
        let focus_ok = match self.focused_view {
            Some(k) => view_get(&self.meta.views, k).is_some(),
            None => true,
        };
        let layout_ok = self.current_layout.is_null() || layout_get(
            &self.meta.layouts,
            self.current_layout,
        ).is_some();
        let dirty_ok = match self.dirty_region {
            Some(r) => r.begin <= r.end,
            None => true,
        };
        focus_ok && layout_ok && dirty_ok && self.edit_state.cursor_history_current
            <= self.edit_state.cursor_history.len() && self.meta.is_consistent()
    }
}

} // verus!
