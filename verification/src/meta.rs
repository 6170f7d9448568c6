//! The metadata of a document: regions, perspectives, views and layouts,
//! each in its arena, and bookmarks.

use vstd::prelude::*;
use crate::arena::{
    layout_get, layout_insert, layout_keys, layout_len, layout_map_new, perspective_get,
    perspective_insert, perspective_keys, perspective_len, perspective_map_new, region_get,
    region_insert, region_keys, region_len, region_map_new, view_get, view_insert, view_keys,
    view_len, view_map_new, LayoutMap, PerspectiveMap, RegionMap, ViewMap, ARENA_CAPACITY,
};
use crate::keys::{LayoutKey, PerspectiveKey, RegionKey, ViewKey};
use crate::layout::Layout;
use crate::perspective::Perspective;
use crate::region::NamedRegion;
use crate::view::NamedView;

verus! {

/// A marked offset.
#[derive(Clone, Debug, PartialEq, Eq)]
pub struct Bookmark {
    pub offset: usize,
    pub label: String,
    pub desc: String,
}

/// Regions, perspectives, views and layouts of a document.
///
/// Views refer to perspectives and perspectives to regions by handle; an
/// entry is added only when what it refers to exists.
pub struct Meta {
    pub regions: RegionMap,
    pub perspectives: PerspectiveMap,
    pub views: ViewMap,
    pub layouts: LayoutMap,
    pub bookmarks: Vec<Bookmark>,
}

impl RegionMap {
    pub fn get(&self, k: RegionKey) -> (r: Option<&NamedRegion>)
        ensures
            r is Some == self.entries().contains_key(k),
            r matches Some(v) ==> *v == self.entries()[k],
    {
        region_get(self, k)
    }

    pub fn len(&self) -> (n: usize)
        ensures
            n == self.entries().dom().len(),
    {
        region_len(self)
    }

    /// The handles of all entries, each once.
    pub fn keys(&self) -> (keys: Vec<RegionKey>)
        ensures
            keys@.no_duplicates(),
            forall|k: RegionKey| keys@.contains(k) <==> self.entries().contains_key(k),
    {
        region_keys(self)
    }
}

impl PerspectiveMap {
    pub fn get(&self, k: PerspectiveKey) -> (r: Option<&Perspective>)
        ensures
            r is Some == self.entries().contains_key(k),
            r matches Some(v) ==> *v == self.entries()[k],
    {
        perspective_get(self, k)
    }

    pub fn len(&self) -> (n: usize)
        ensures
            n == self.entries().dom().len(),
    {
        perspective_len(self)
    }

    /// The handles of all entries, each once.
    pub fn keys(&self) -> (keys: Vec<PerspectiveKey>)
        ensures
            keys@.no_duplicates(),
            forall|k: PerspectiveKey| keys@.contains(k) <==> self.entries().contains_key(k),
    {
        perspective_keys(self)
    }
}

impl ViewMap {
    pub fn get(&self, k: ViewKey) -> (r: Option<&NamedView>)
        ensures
            r is Some == self.entries().contains_key(k),
            r matches Some(v) ==> *v == self.entries()[k],
    {
        view_get(self, k)
    }

    pub fn len(&self) -> (n: usize)
        ensures
            n == self.entries().dom().len(),
    {
        view_len(self)
    }

    /// The handles of all entries, each once.
    pub fn keys(&self) -> (keys: Vec<ViewKey>)
        ensures
            keys@.no_duplicates(),
            forall|k: ViewKey| keys@.contains(k) <==> self.entries().contains_key(k),
    {
        view_keys(self)
    }
}

impl LayoutMap {
    pub fn get(&self, k: LayoutKey) -> (r: Option<&Layout>)
        ensures
            r is Some == self.entries().contains_key(k),
            r matches Some(v) ==> *v == self.entries()[k],
    {
        layout_get(self, k)
    }

    pub fn len(&self) -> (n: usize)
        ensures
            n == self.entries().dom().len(),
    {
        layout_len(self)
    }

    /// The handles of all entries, each once.
    pub fn keys(&self) -> (keys: Vec<LayoutKey>)
        ensures
            keys@.no_duplicates(),
            forall|k: LayoutKey| keys@.contains(k) <==> self.entries().contains_key(k),
    {
        layout_keys(self)
    }

    /// The handle of some layout, or nothing when there is no layout.
    pub fn first_key(&self) -> (r: Option<LayoutKey>)
        ensures
            r is None == (self.entries().dom() =~= Set::empty()),
            r matches Some(k) ==> self.entries().contains_key(k),
    {
        let keys = layout_keys(self);
        if keys.len() > 0 {
            assert(keys@.contains(keys[0]));
            Some(keys[0])
        } else {
            assert forall|k: LayoutKey| !self.entries().dom().contains(k) by {
                if self.entries().contains_key(k) {
                    assert(keys@.contains(k));
                }
            }
            None
        }
    }
}

impl Meta {
    /// Every entry is usable: regions are well formed and measurable,
    /// perspectives have a column and a live region, views have a live
    /// perspective, layouts name live views and no view twice.
    pub open spec fn wf(&self) -> bool {
        &&& forall|k: RegionKey|
            self.regions.entries().contains_key(k) ==> {
                &&& (#[trigger] self.regions.entries()[k]).region.wf()
                &&& self.regions.entries()[k].region.measurable()
            }
        &&& forall|k: PerspectiveKey|
            self.perspectives.entries().contains_key(k) ==> (#[trigger] self.perspectives.entries()[k]).wf(
                self.regions,
            )
        &&& forall|k: ViewKey|
            self.views.entries().contains_key(k) ==> self.perspectives.entries().contains_key(
                (#[trigger] self.views.entries()[k]).view.perspective,
            )
        &&& forall|k: LayoutKey|
            self.layouts.entries().contains_key(k) ==> (#[trigger] self.layouts.entries()[k]).wf(
                self.views,
            )
    }

    /// Metadata stays usable under changes that add and remove no entry,
    /// keep the layouts, keep the perspective of every view and the region
    /// of every perspective, and leave every perspective with a column and
    /// every region well formed and measurable.
    pub proof fn lemma_wf_carries_over(&self, before: Meta)
        requires
            before.wf(),
            self.layouts == before.layouts,
            self.views.entries().dom() =~= before.views.entries().dom(),
            self.perspectives.entries().dom() =~= before.perspectives.entries().dom(),
            self.regions.entries().dom() =~= before.regions.entries().dom(),
            forall|k: ViewKey|
                before.views.entries().contains_key(k) ==> (#[trigger] self.views.entries()[k]).view.perspective
                    == before.views.entries()[k].view.perspective,
            forall|k: PerspectiveKey|
                before.perspectives.entries().contains_key(k) ==> {
                    &&& (#[trigger] self.perspectives.entries()[k]).region
                        == before.perspectives.entries()[k].region
                    &&& self.perspectives.entries()[k].cols >= 1
                },
            forall|k: RegionKey|
                before.regions.entries().contains_key(k) ==> {
                    &&& (#[trigger] self.regions.entries()[k]).region.wf()
                    &&& self.regions.entries()[k].region.measurable()
                },
        ensures
            self.wf(),
    {
        assert forall|k: PerspectiveKey| self.perspectives.entries().contains_key(k) implies (
        #[trigger] self.perspectives.entries()[k]).wf(self.regions) by {
            assert(before.perspectives.entries()[k].wf(before.regions));
            let rk = self.perspectives.entries()[k].region;
            assert(self.regions.entries()[rk].region.wf());
        }
        assert forall|k: ViewKey|
            self.views.entries().contains_key(k) implies self.perspectives.entries().contains_key(
            (#[trigger] self.views.entries()[k]).view.perspective,
        ) by {
            assert(before.perspectives.entries().contains_key(
                before.views.entries()[k].view.perspective,
            ));
        }
        assert forall|k: LayoutKey| self.layouts.entries().contains_key(k) implies (
        #[trigger] self.layouts.entries()[k]).wf(self.views) by {
            assert(before.layouts.entries()[k].wf(before.views));
        }
    }

    /// In usable metadata every layout is ready to be laid out: it is well
    /// formed over the views and every view of its grid can be used.
    pub proof fn lemma_layouts_ready(&self, k: LayoutKey)
        requires
            self.wf(),
            self.layouts.entries().contains_key(k),
        ensures
            self.layouts.entries()[k].wf(self.views),
            self.layouts.entries()[k].views_usable(self.views, self.perspectives, self.regions),
    {
        let layout = self.layouts.entries()[k];
        assert forall|r: int, c: int|
            #![trigger layout.key_at(r, c)]
            layout.in_grid(r, c) implies self.views.entries()[layout.key_at(r, c)].view.wf(
            self.perspectives,
            self.regions,
        ) by {
            let v = self.views.entries()[layout.key_at(r, c)];
            assert(self.perspectives.entries().contains_key(v.view.perspective));
            assert(self.perspectives.entries()[v.view.perspective].wf(self.regions));
        }
    }

    /// Whether every entry is usable.
    pub fn is_consistent(&self) -> (b: bool)
        ensures
            b == self.wf(),
    {
        let region_keys = region_keys(&self.regions);
        let mut i: usize = 0;
        while i < region_keys.len()
            invariant
                i <= region_keys.len(),
                forall|k: RegionKey|
                    region_keys@.contains(k) <==> self.regions.entries().contains_key(k),
                forall|j: int|
                    0 <= j < i ==> {
                        &&& (#[trigger] self.regions.entries()[region_keys[j]]).region.wf()
                        &&& self.regions.entries()[region_keys[j]].region.measurable()
                    },
            decreases region_keys.len() - i,
        {
            let k = region_keys[i];
            assert(region_keys@.contains(k));
            let r = region_get(&self.regions, k).unwrap().region;
            if r.begin > r.end || (r.begin == 0 && r.end == usize::MAX) {
                return false;
            }
            i += 1;
        }
        assert forall|k: RegionKey| self.regions.entries().contains_key(k) implies {
            &&& (#[trigger] self.regions.entries()[k]).region.wf()
            &&& self.regions.entries()[k].region.measurable()
        } by {
            assert(region_keys@.contains(k));
            let j = choose|j: int| 0 <= j < region_keys.len() && region_keys[j] == k;
            assert(self.regions.entries()[region_keys[j]].region.wf());
        }
        let perspective_keys = perspective_keys(&self.perspectives);
        let mut i: usize = 0;
        while i < perspective_keys.len()
            invariant
                i <= perspective_keys.len(),
                forall|k: PerspectiveKey|
                    perspective_keys@.contains(k) <==> self.perspectives.entries().contains_key(k),
                forall|k: RegionKey|
                    self.regions.entries().contains_key(k) ==> {
                        &&& (#[trigger] self.regions.entries()[k]).region.wf()
                        &&& self.regions.entries()[k].region.measurable()
                    },
                forall|j: int|
                    0 <= j < i ==> (#[trigger] self.perspectives.entries()[perspective_keys[j]]).wf(
                        self.regions,
                    ),
            decreases perspective_keys.len() - i,
        {
            let k = perspective_keys[i];
            assert(perspective_keys@.contains(k));
            let p = perspective_get(&self.perspectives, k).unwrap();
            if p.cols < 1 || region_get(&self.regions, p.region).is_none() {
                return false;
            }
            assert(self.regions.entries()[p.region].region.wf());
            i += 1;
        }
        assert forall|k: PerspectiveKey| self.perspectives.entries().contains_key(k) implies (
        #[trigger] self.perspectives.entries()[k]).wf(self.regions) by {
            assert(perspective_keys@.contains(k));
            let j = choose|j: int| 0 <= j < perspective_keys.len() && perspective_keys[j] == k;
            assert(self.perspectives.entries()[perspective_keys[j]].wf(self.regions));
        }
        let view_keys = view_keys(&self.views);
        let mut i: usize = 0;
        while i < view_keys.len()
            invariant
                i <= view_keys.len(),
                forall|k: ViewKey| view_keys@.contains(k) <==> self.views.entries().contains_key(k),
                forall|j: int|
                    0 <= j < i ==> self.perspectives.entries().contains_key(
                        (#[trigger] self.views.entries()[view_keys[j]]).view.perspective,
                    ),
            decreases view_keys.len() - i,
        {
            let k = view_keys[i];
            assert(view_keys@.contains(k));
            let v = view_get(&self.views, k).unwrap();
            if perspective_get(&self.perspectives, v.view.perspective).is_none() {
                return false;
            }
            i += 1;
        }
        assert forall|k: ViewKey|
            self.views.entries().contains_key(k) implies self.perspectives.entries().contains_key(
            (#[trigger] self.views.entries()[k]).view.perspective,
        ) by {
            assert(view_keys@.contains(k));
            let j = choose|j: int| 0 <= j < view_keys.len() && view_keys[j] == k;
            assert(self.perspectives.entries().contains_key(
                self.views.entries()[view_keys[j]].view.perspective,
            ));
        }
        let layout_keys = layout_keys(&self.layouts);
        let mut i: usize = 0;
        while i < layout_keys.len()
            invariant
                i <= layout_keys.len(),
                forall|k: LayoutKey|
                    layout_keys@.contains(k) <==> self.layouts.entries().contains_key(k),
                forall|j: int|
                    0 <= j < i ==> (#[trigger] self.layouts.entries()[layout_keys[j]]).wf(self.views),
            decreases layout_keys.len() - i,
        {
            let k = layout_keys[i];
            assert(layout_keys@.contains(k));
            let l = layout_get(&self.layouts, k).unwrap();
            if !l.is_well_formed(&self.views) {
                return false;
            }
            i += 1;
        }
        assert forall|k: LayoutKey| self.layouts.entries().contains_key(k) implies (
        #[trigger] self.layouts.entries()[k]).wf(self.views) by {
            assert(layout_keys@.contains(k));
            let j = choose|j: int| 0 <= j < layout_keys.len() && layout_keys[j] == k;
            assert(self.layouts.entries()[layout_keys[j]].wf(self.views));
        }
        true
    }

    /// Metadata without entries.
    pub fn new() -> (m: Meta)
        ensures
            m.wf(),
            m.regions.entries() =~= Map::empty(),
            m.perspectives.entries() =~= Map::empty(),
            m.views.entries() =~= Map::empty(),
            m.layouts.entries() =~= Map::empty(),
            m.bookmarks@ =~= Seq::empty(),
    {
        Meta {
            regions: region_map_new(),
            perspectives: perspective_map_new(),
            views: view_map_new(),
            layouts: layout_map_new(),
            bookmarks: Vec::new(),
        }
    }

    /// Whether `region` can be added: it is well formed and measurable and
    /// the arena has room.
    pub open spec fn accepts_region(&self, region: NamedRegion) -> bool {
        &&& region.region.wf()
        &&& region.region.measurable()
        &&& self.regions.entries().dom().len() < ARENA_CAPACITY
    }

    /// Adds a region and returns its handle; adds nothing when the region
    /// cannot be added.
    pub fn insert_region(&mut self, region: NamedRegion) -> (r: Option<RegionKey>)
        requires
            old(self).wf(),
        ensures
            final(self).wf(),
            r is Some == old(self).accepts_region(region),
            r is None ==> *final(self) == *old(self),
            r matches Some(k) ==> {
                &&& !old(self).regions.entries().contains_key(k)
                &&& final(self).regions.entries() == old(self).regions.entries().insert(k, region)
                &&& final(self).perspectives == old(self).perspectives
                &&& final(self).views == old(self).views
                &&& final(self).layouts == old(self).layouts
                &&& final(self).bookmarks == old(self).bookmarks
            },
    {
        let ok = region.region.begin <= region.region.end && !(region.region.begin == 0
            && region.region.end == usize::MAX) && region_len(&self.regions) < ARENA_CAPACITY;
        if !ok {
            return None;
        }
        let ghost before = *self;
        let k = region_insert(&mut self.regions, region);
        proof {
            assert forall|rk: RegionKey| self.regions.entries().contains_key(rk) implies {
                &&& (#[trigger] self.regions.entries()[rk]).region.wf()
                &&& self.regions.entries()[rk].region.measurable()
            } by {
                if rk != k {
                    assert(before.regions.entries()[rk].region.wf());
                }
            }
            assert forall|pk: PerspectiveKey|
                self.perspectives.entries().contains_key(pk) implies (
            #[trigger] self.perspectives.entries()[pk]).wf(self.regions) by {
                assert(before.perspectives.entries()[pk].wf(before.regions));
            }
            assert forall|lk: LayoutKey| self.layouts.entries().contains_key(lk) implies (
            #[trigger] self.layouts.entries()[lk]).wf(self.views) by {
                assert(before.layouts.entries()[lk].wf(before.views));
            }
        }
        Some(k)
    }

    /// Whether `p` can be added: it has a column, its region is live and
    /// the arena has room.
    pub open spec fn accepts_perspective(&self, p: Perspective) -> bool {
        &&& p.cols >= 1
        &&& self.regions.entries().contains_key(p.region)
        &&& self.perspectives.entries().dom().len() < ARENA_CAPACITY
    }

    /// Adds a perspective and returns its handle; adds nothing when the
    /// perspective cannot be added.
    pub fn insert_perspective(&mut self, p: Perspective) -> (r: Option<PerspectiveKey>)
        requires
            old(self).wf(),
        ensures
            final(self).wf(),
            r is Some == old(self).accepts_perspective(p),
            r is None ==> *final(self) == *old(self),
            r matches Some(k) ==> {
                &&& !old(self).perspectives.entries().contains_key(k)
                &&& final(self).perspectives.entries() == old(self).perspectives.entries().insert(
                    k,
                    p,
                )
                &&& final(self).regions == old(self).regions
                &&& final(self).views == old(self).views
                &&& final(self).layouts == old(self).layouts
                &&& final(self).bookmarks == old(self).bookmarks
            },
    {
        let ok = p.cols >= 1 && region_get(&self.regions, p.region).is_some() && perspective_len(
            &self.perspectives,
        ) < ARENA_CAPACITY;
        if !ok {
            return None;
        }
        let ghost before = *self;
        let k = perspective_insert(&mut self.perspectives, p);
        proof {
            assert forall|pk: PerspectiveKey|
                self.perspectives.entries().contains_key(pk) implies (
            #[trigger] self.perspectives.entries()[pk]).wf(self.regions) by {
                if pk != k {
                    assert(before.perspectives.entries()[pk].wf(before.regions));
                } else {
                    assert(before.regions.entries()[p.region].region.wf());
                }
            }
            assert forall|vk: ViewKey|
                self.views.entries().contains_key(vk) implies self.perspectives.entries().contains_key(
                (#[trigger] self.views.entries()[vk]).view.perspective,
            ) by {
                assert(before.perspectives.entries().contains_key(
                    before.views.entries()[vk].view.perspective,
                ));
            }
            assert forall|lk: LayoutKey| self.layouts.entries().contains_key(lk) implies (
            #[trigger] self.layouts.entries()[lk]).wf(self.views) by {
                assert(before.layouts.entries()[lk].wf(before.views));
            }
        }
        Some(k)
    }

    /// Whether `v` can be added: its perspective is live and the arena has
    /// room.
    pub open spec fn accepts_view(&self, v: NamedView) -> bool {
        &&& self.perspectives.entries().contains_key(v.view.perspective)
        &&& self.views.entries().dom().len() < ARENA_CAPACITY
    }

    /// Adds a view and returns its handle; adds nothing when the view cannot
    /// be added.
    pub fn insert_view(&mut self, v: NamedView) -> (r: Option<ViewKey>)
        requires
            old(self).wf(),
        ensures
            final(self).wf(),
            r is Some == old(self).accepts_view(v),
            r is None ==> *final(self) == *old(self),
            r matches Some(k) ==> {
                &&& !old(self).views.entries().contains_key(k)
                &&& final(self).views.entries() == old(self).views.entries().insert(k, v)
                &&& final(self).regions == old(self).regions
                &&& final(self).perspectives == old(self).perspectives
                &&& final(self).layouts == old(self).layouts
                &&& final(self).bookmarks == old(self).bookmarks
            },
    {
        let ok = perspective_get(&self.perspectives, v.view.perspective).is_some() && view_len(
            &self.views,
        ) < ARENA_CAPACITY;
        if !ok {
            return None;
        }
        let ghost before = *self;
        let k = view_insert(&mut self.views, v);
        proof {
            assert forall|vk: ViewKey|
                self.views.entries().contains_key(vk) implies self.perspectives.entries().contains_key(
                (#[trigger] self.views.entries()[vk]).view.perspective,
            ) by {
                if vk != k {
                    assert(before.perspectives.entries().contains_key(
                        before.views.entries()[vk].view.perspective,
                    ));
                }
            }
            assert forall|lk: LayoutKey| self.layouts.entries().contains_key(lk) implies (
            #[trigger] self.layouts.entries()[lk]).wf(self.views) by {
                assert(before.layouts.entries()[lk].wf(before.views));
            }
        }
        Some(k)
    }

    /// Whether `layout` can be added: it is well formed over the views and
    /// the arena has room.
    pub open spec fn accepts_layout(&self, layout: Layout) -> bool {
        &&& layout.wf(self.views)
        &&& self.layouts.entries().dom().len() < ARENA_CAPACITY
    }

    /// Adds a layout and returns its handle; adds nothing when the layout
    /// cannot be added.
    pub fn insert_layout(&mut self, layout: Layout) -> (r: Option<LayoutKey>)
        requires
            old(self).wf(),
        ensures
            final(self).wf(),
            r is Some == old(self).accepts_layout(layout),
            r is None ==> *final(self) == *old(self),
            r matches Some(k) ==> {
                &&& !old(self).layouts.entries().contains_key(k)
                &&& !k.spec_is_null()
                &&& final(self).layouts.entries() == old(self).layouts.entries().insert(k, layout)
                &&& final(self).regions == old(self).regions
                &&& final(self).perspectives == old(self).perspectives
                &&& final(self).views == old(self).views
                &&& final(self).bookmarks == old(self).bookmarks
            },
    {
        let ok = layout.is_well_formed(&self.views) && layout_len(&self.layouts) < ARENA_CAPACITY;
        if !ok {
            return None;
        }
        let ghost before = *self;
        let k = layout_insert(&mut self.layouts, layout);
        proof {
            assert forall|lk: LayoutKey| self.layouts.entries().contains_key(lk) implies (
            #[trigger] self.layouts.entries()[lk]).wf(self.views) by {
                if lk != k {
                    assert(before.layouts.entries()[lk].wf(before.views));
                }
            }
        }
        Some(k)
    }
}

} // verus!
