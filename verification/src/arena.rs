//! The four arenas of the metadata. Each holds its entries behind handles
//! that stay valid while the entry lives.

use vstd::prelude::*;
use slotmap::{DefaultKey, SlotMap};
use crate::keys::{key_is_null, LayoutKey, PerspectiveKey, RegionKey, ViewKey};
use crate::layout::Layout;
use crate::perspective::Perspective;
use crate::region::NamedRegion;
use crate::view::NamedView;

verus! {

/// Most entries an arena can hold.
pub const ARENA_CAPACITY: usize = 0xFFFF_FFFE;

/// Arena of regions.
#[verifier::external_body]
pub struct RegionMap {
    inner: SlotMap<DefaultKey, NamedRegion>,
}

/// Arena of perspectives.
#[verifier::external_body]
pub struct PerspectiveMap {
    inner: SlotMap<DefaultKey, Perspective>,
}

/// Arena of views.
#[verifier::external_body]
pub struct ViewMap {
    inner: SlotMap<DefaultKey, NamedView>,
}

/// Arena of layouts.
#[verifier::external_body]
pub struct LayoutMap {
    inner: SlotMap<DefaultKey, Layout>,
}

/// The live entries of a region arena, by handle.
pub uninterp spec fn region_entries(m: RegionMap) -> Map<RegionKey, NamedRegion>;

/// The live entries of a perspective arena, by handle.
pub uninterp spec fn perspective_entries(m: PerspectiveMap) -> Map<PerspectiveKey, Perspective>;

/// The live entries of a view arena, by handle.
pub uninterp spec fn view_entries(m: ViewMap) -> Map<ViewKey, NamedView>;

/// The live entries of a layout arena, by handle.
pub uninterp spec fn layout_entries(m: LayoutMap) -> Map<LayoutKey, Layout>;

impl RegionMap {
    /// The live entries, by handle.
    pub open spec fn entries(&self) -> Map<RegionKey, NamedRegion> {
        region_entries(*self)
    }
}

impl PerspectiveMap {
    /// The live entries, by handle.
    pub open spec fn entries(&self) -> Map<PerspectiveKey, Perspective> {
        perspective_entries(*self)
    }
}

impl ViewMap {
    /// The live entries, by handle.
    pub open spec fn entries(&self) -> Map<ViewKey, NamedView> {
        view_entries(*self)
    }
}

impl LayoutMap {
    /// The live entries, by handle.
    pub open spec fn entries(&self) -> Map<LayoutKey, Layout> {
        layout_entries(*self)
    }
}

// ---------------------------------------------------------------- regions

/// `SlotMap::new`: an arena without entries.
#[verifier::external_body]
pub(crate) fn region_map_new() -> (m: RegionMap)
    ensures
        region_entries(m) =~= Map::empty(),
{
    RegionMap { inner: SlotMap::new() }
}

/// `SlotMap::len`: the number of live entries.
#[verifier::external_body]
pub(crate) fn region_len(m: &RegionMap) -> (n: usize)
    ensures
        n == region_entries(*m).dom().len(),
{
    m.inner.len()
}

/// `SlotMap::keys`, collected: the handles of the live entries, each once.
#[verifier::external_body]
pub(crate) fn region_keys(m: &RegionMap) -> (keys: Vec<RegionKey>)
    ensures
        keys@.no_duplicates(),
        forall|k: RegionKey| keys@.contains(k) <==> region_entries(*m).contains_key(k),
{
    m.inner.keys().map(RegionKey).collect()
}

/// `SlotMap::get`: the entry of a live handle, nothing for any other handle
/// and nothing for a null handle.
#[verifier::external_body]
pub(crate) fn region_get(m: &RegionMap, k: RegionKey) -> (r: Option<&NamedRegion>)
    ensures
        r is Some == region_entries(*m).contains_key(k),
        r matches Some(v) ==> *v == region_entries(*m)[k],
        key_is_null(k.0) ==> r is None,
{
    m.inner.get(k.0)
}

/// `IndexMut::index_mut` of `SlotMap`: access to the entry of a live handle;
/// what is written through it replaces that entry and no other.
#[verifier::external_body]
pub(crate) fn region_get_mut(m: &mut RegionMap, k: RegionKey) -> (r: &mut NamedRegion)
    requires
        region_entries(*old(m)).contains_key(k),
    ensures
        *r == region_entries(*old(m))[k],
        region_entries(*final(m)) == region_entries(*old(m)).insert(k, *final(r)),
{
    &mut m.inner[k.0]
}

/// `SlotMap::insert`: stores the value under a fresh handle, which is not
/// null and names no entry before the call. The arena must not be full.
#[verifier::external_body]
pub(crate) fn region_insert(m: &mut RegionMap, v: NamedRegion) -> (k: RegionKey)
    requires
        region_entries(*old(m)).dom().len() < ARENA_CAPACITY,
    ensures
        !region_entries(*old(m)).contains_key(k),
        !key_is_null(k.0),
        region_entries(*final(m)) == region_entries(*old(m)).insert(k, v),
{
    RegionKey(m.inner.insert(v))
}

// ----------------------------------------------------------- perspectives

/// `SlotMap::new`: an arena without entries.
#[verifier::external_body]
pub(crate) fn perspective_map_new() -> (m: PerspectiveMap)
    ensures
        perspective_entries(m) =~= Map::empty(),
{
    PerspectiveMap { inner: SlotMap::new() }
}

/// `SlotMap::len`: the number of live entries.
#[verifier::external_body]
pub(crate) fn perspective_len(m: &PerspectiveMap) -> (n: usize)
    ensures
        n == perspective_entries(*m).dom().len(),
{
    m.inner.len()
}

/// `SlotMap::keys`, collected: the handles of the live entries, each once.
#[verifier::external_body]
pub(crate) fn perspective_keys(m: &PerspectiveMap) -> (keys: Vec<PerspectiveKey>)
    ensures
        keys@.no_duplicates(),
        forall|k: PerspectiveKey| keys@.contains(k) <==> perspective_entries(*m).contains_key(k),
{
    m.inner.keys().map(PerspectiveKey).collect()
}

/// `SlotMap::get`: the entry of a live handle, nothing for any other handle
/// and nothing for a null handle.
#[verifier::external_body]
pub(crate) fn perspective_get(m: &PerspectiveMap, k: PerspectiveKey) -> (r: Option<&Perspective>)
    ensures
        r is Some == perspective_entries(*m).contains_key(k),
        r matches Some(v) ==> *v == perspective_entries(*m)[k],
        key_is_null(k.0) ==> r is None,
{
    m.inner.get(k.0)
}

/// `IndexMut::index_mut` of `SlotMap`: access to the entry of a live handle;
/// what is written through it replaces that entry and no other.
#[verifier::external_body]
pub(crate) fn perspective_get_mut(m: &mut PerspectiveMap, k: PerspectiveKey) -> (r: &mut Perspective)
    requires
        perspective_entries(*old(m)).contains_key(k),
    ensures
        *r == perspective_entries(*old(m))[k],
        perspective_entries(*final(m)) == perspective_entries(*old(m)).insert(k, *final(r)),
{
    &mut m.inner[k.0]
}

/// `SlotMap::insert`: stores the value under a fresh handle, which is not
/// null and names no entry before the call. The arena must not be full.
#[verifier::external_body]
pub(crate) fn perspective_insert(m: &mut PerspectiveMap, v: Perspective) -> (k: PerspectiveKey)
    requires
        perspective_entries(*old(m)).dom().len() < ARENA_CAPACITY,
    ensures
        !perspective_entries(*old(m)).contains_key(k),
        !key_is_null(k.0),
        perspective_entries(*final(m)) == perspective_entries(*old(m)).insert(k, v),
{
    PerspectiveKey(m.inner.insert(v))
}

// ------------------------------------------------------------------ views

/// `SlotMap::new`: an arena without entries.
#[verifier::external_body]
pub(crate) fn view_map_new() -> (m: ViewMap)
    ensures
        view_entries(m) =~= Map::empty(),
{
    ViewMap { inner: SlotMap::new() }
}

/// `SlotMap::len`: the number of live entries.
#[verifier::external_body]
pub(crate) fn view_len(m: &ViewMap) -> (n: usize)
    ensures
        n == view_entries(*m).dom().len(),
{
    m.inner.len()
}

/// `SlotMap::keys`, collected: the handles of the live entries, each once.
#[verifier::external_body]
pub(crate) fn view_keys(m: &ViewMap) -> (keys: Vec<ViewKey>)
    ensures
        keys@.no_duplicates(),
        forall|k: ViewKey| keys@.contains(k) <==> view_entries(*m).contains_key(k),
{
    m.inner.keys().map(ViewKey).collect()
}

/// `SlotMap::get`: the entry of a live handle, nothing for any other handle
/// and nothing for a null handle.
#[verifier::external_body]
pub(crate) fn view_get(m: &ViewMap, k: ViewKey) -> (r: Option<&NamedView>)
    ensures
        r is Some == view_entries(*m).contains_key(k),
        r matches Some(v) ==> *v == view_entries(*m)[k],
        key_is_null(k.0) ==> r is None,
{
    m.inner.get(k.0)
}

/// `IndexMut::index_mut` of `SlotMap`: access to the entry of a live handle;
/// what is written through it replaces that entry and no other.
#[verifier::external_body]
pub(crate) fn view_get_mut(m: &mut ViewMap, k: ViewKey) -> (r: &mut NamedView)
    requires
        view_entries(*old(m)).contains_key(k),
    ensures
        *r == view_entries(*old(m))[k],
        view_entries(*final(m)) == view_entries(*old(m)).insert(k, *final(r)),
{
    &mut m.inner[k.0]
}

/// `SlotMap::insert`: stores the value under a fresh handle, which is not
/// null and names no entry before the call. The arena must not be full.
#[verifier::external_body]
pub(crate) fn view_insert(m: &mut ViewMap, v: NamedView) -> (k: ViewKey)
    requires
        view_entries(*old(m)).dom().len() < ARENA_CAPACITY,
    ensures
        !view_entries(*old(m)).contains_key(k),
        !key_is_null(k.0),
        view_entries(*final(m)) == view_entries(*old(m)).insert(k, v),
{
    ViewKey(m.inner.insert(v))
}

// ---------------------------------------------------------------- layouts

/// `SlotMap::new`: an arena without entries.
#[verifier::external_body]
pub(crate) fn layout_map_new() -> (m: LayoutMap)
    ensures
        layout_entries(m) =~= Map::empty(),
{
    LayoutMap { inner: SlotMap::new() }
}

/// `SlotMap::len`: the number of live entries.
#[verifier::external_body]
pub(crate) fn layout_len(m: &LayoutMap) -> (n: usize)
    ensures
        n == layout_entries(*m).dom().len(),
{
    m.inner.len()
}

/// `SlotMap::keys`, collected: the handles of the live entries, each once.
#[verifier::external_body]
pub(crate) fn layout_keys(m: &LayoutMap) -> (keys: Vec<LayoutKey>)
    ensures
        keys@.no_duplicates(),
        forall|k: LayoutKey| keys@.contains(k) <==> layout_entries(*m).contains_key(k),
{
    m.inner.keys().map(LayoutKey).collect()
}

/// `SlotMap::get`: the entry of a live handle, nothing for any other handle
/// and nothing for a null handle.
#[verifier::external_body]
pub(crate) fn layout_get(m: &LayoutMap, k: LayoutKey) -> (r: Option<&Layout>)
    ensures
        r is Some == layout_entries(*m).contains_key(k),
        r matches Some(v) ==> *v == layout_entries(*m)[k],
        key_is_null(k.0) ==> r is None,
{
    m.inner.get(k.0)
}

/// `SlotMap::insert`: stores the value under a fresh handle, which is not
/// null and names no entry before the call. The arena must not be full.
#[verifier::external_body]
pub(crate) fn layout_insert(m: &mut LayoutMap, v: Layout) -> (k: LayoutKey)
    requires
        layout_entries(*old(m)).dom().len() < ARENA_CAPACITY,
    ensures
        !layout_entries(*old(m)).contains_key(k),
        !key_is_null(k.0),
        layout_entries(*final(m)) == layout_entries(*old(m)).insert(k, v),
{
    LayoutKey(m.inner.insert(v))
}

} // verus!
