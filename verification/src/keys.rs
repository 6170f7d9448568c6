//! Stable, generation-checked handles into the arenas of the metadata.

use vstd::prelude::*;
use slotmap::{DefaultKey, Key};

verus! {

#[verifier::external_type_specification]
#[verifier::external_body]
pub struct ExDefaultKey(DefaultKey);

/// Whether a raw key is the distinguished handle that names no entry.
pub uninterp spec fn key_is_null(k: DefaultKey) -> bool;

/// `slotmap::Key::null` on `DefaultKey`: the handle it returns is a null
/// handle.
#[verifier::external_body]
pub(crate) fn raw_key_null() -> (k: DefaultKey)
    ensures
        key_is_null(k),
{
    DefaultKey::null()
}

/// `slotmap::Key::is_null` on `DefaultKey`: tells whether the handle is a
/// null handle.
#[verifier::external_body]
pub(crate) fn raw_key_is_null(k: DefaultKey) -> (b: bool)
    ensures
        b == key_is_null(k),
{
    k.is_null()
}

/// `PartialEq::eq` on `DefaultKey`: two handles compare equal exactly when
/// they are the same handle.
#[verifier::external_body]
pub(crate) fn raw_key_eq(a: DefaultKey, b: DefaultKey) -> (r: bool)
    ensures
        r == (a == b),
{
    a == b
}

/// Handle of a region.
#[derive(Clone, Copy, Debug, PartialEq, Eq, Hash)]
pub struct RegionKey(pub DefaultKey);

/// Handle of a perspective.
#[derive(Clone, Copy, Debug, PartialEq, Eq, Hash)]
pub struct PerspectiveKey(pub DefaultKey);

/// Handle of a view.
#[derive(Clone, Copy, Debug, PartialEq, Eq, Hash)]
pub struct ViewKey(pub DefaultKey);

/// Handle of a layout.
#[derive(Clone, Copy, Debug, PartialEq, Eq, Hash)]
pub struct LayoutKey(pub DefaultKey);

impl RegionKey {
    pub fn same(self, other: RegionKey) -> (r: bool)
        ensures
            r == (self == other),
    {
        raw_key_eq(self.0, other.0)
    }
}

impl PerspectiveKey {
    pub fn same(self, other: PerspectiveKey) -> (r: bool)
        ensures
            r == (self == other),
    {
        raw_key_eq(self.0, other.0)
    }
}

impl ViewKey {
    pub fn same(self, other: ViewKey) -> (r: bool)
        ensures
            r == (self == other),
    {
        raw_key_eq(self.0, other.0)
    }
}

impl LayoutKey {
    pub open spec fn spec_is_null(self) -> bool {
        key_is_null(self.0)
    }

    /// The handle that stands for "no layout".
    pub fn null() -> (k: LayoutKey)
        ensures
            k.spec_is_null(),
    {
        LayoutKey(raw_key_null())
    }

    pub fn is_null(self) -> (b: bool)
        ensures
            b == self.spec_is_null(),
    {
        raw_key_is_null(self.0)
    }

    pub fn same(self, other: LayoutKey) -> (r: bool)
        ensures
            r == (self == other),
    {
        raw_key_eq(self.0, other.0)
    }
}

} // verus!
