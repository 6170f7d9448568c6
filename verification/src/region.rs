//! Inclusive byte ranges over the logical buffer.

use vstd::prelude::*;

verus! {

/// An inclusive range of byte offsets, `begin..=end`.
#[derive(Clone, Copy, Debug, PartialEq, Eq, Structural)]
pub struct Region {
    pub begin: usize,
    pub end: usize,
}

impl Region {
    /// A region is well formed when it is not inverted.
    pub open spec fn wf(&self) -> bool {
        self.begin <= self.end
    }

    /// Number of bytes covered, counting both ends.
    pub open spec fn spec_len(&self) -> int {
        self.end - self.begin + 1
    }

    /// Whether `idx` lies inside the range.
    pub open spec fn spec_contains(&self, idx: int) -> bool {
        self.begin <= idx <= self.end
    }

    /// Whether all of `other` lies inside the range.
    pub open spec fn spec_contains_region(&self, other: Region) -> bool {
        self.begin <= other.begin && other.end <= self.end
    }

    /// Whether the length can be held in a `usize`; it fails only for the
    /// range that covers the whole address space.
    pub open spec fn measurable(&self) -> bool {
        self.spec_len() <= usize::MAX
    }

    /// Builds the region `begin..=end`, or nothing when the bounds are inverted.
    pub fn new(begin: usize, end: usize) -> (r: Option<Region>)
        ensures
            begin <= end ==> r == Some(Region { begin, end }),
            begin > end ==> r is None,
            r matches Some(reg) ==> reg.wf(),
    {
        if begin <= end {
            Some(Region { begin, end })
        } else {
            None
        }
    }

    /// The region spanned by two offsets given in either order.
    pub fn spanning(a: usize, b: usize) -> (r: Region)
        ensures
            r.wf(),
            r.begin == (if a <= b { a } else { b }),
            r.end == (if a <= b { b } else { a }),
    {
        if a <= b {
            Region { begin: a, end: b }
        } else {
            Region { begin: b, end: a }
        }
    }

    /// The region of a buffer of `len` bytes: `0..=len-1`, and `0..=0` for an
    /// empty buffer.
    pub fn of_buffer(len: usize) -> (r: Region)
        ensures
            r.wf(),
            r.measurable(),
            r.begin == 0,
            r.end == (if len == 0 { 0 } else { len - 1 }),
    {
        Region { begin: 0, end: if len == 0 { 0 } else { len - 1 } }
    }

    pub fn len(&self) -> (n: usize)
        requires
            self.wf(),
            self.measurable(),
        ensures
            n == self.spec_len(),
            n >= 1,
    {
        self.end - self.begin + 1
    }

    pub fn contains(&self, idx: usize) -> (b: bool)
        ensures
            b == self.spec_contains(idx as int),
    {
        self.begin <= idx && idx <= self.end
    }

    pub fn contains_region(&self, other: &Region) -> (b: bool)
        ensures
            b == self.spec_contains_region(*other),
    {
        self.begin <= other.begin && other.end <= self.end
    }

    /// Moves the end of the region. Returns whether the new end was
    /// accepted; an end before `begin` is refused and changes nothing.
    pub fn set_end(&mut self, end: usize) -> (ok: bool)
        requires
            old(self).wf(),
        ensures
            final(self).wf(),
            ok == (end >= old(self).begin),
            ok ==> *final(self) == (Region { begin: old(self).begin, end }),
            !ok ==> *final(self) == *old(self),
    {
        if end >= self.begin {
            self.end = end;
            true
        } else {
            false
        }
    }

    /// Moves the beginning of the region. Returns whether the new beginning
    /// was accepted; one after `end` is refused and changes nothing.
    pub fn set_begin(&mut self, begin: usize) -> (ok: bool)
        requires
            old(self).wf(),
        ensures
            final(self).wf(),
            ok == (begin <= old(self).end),
            ok ==> *final(self) == (Region { begin, end: old(self).end }),
            !ok ==> *final(self) == *old(self),
    {
        if begin <= self.end {
            self.begin = begin;
            true
        } else {
            false
        }
    }
}

/// A region with a user-visible name and description.
#[derive(Clone, Debug, PartialEq, Eq)]
pub struct NamedRegion {
    pub name: String,
    pub desc: String,
    pub region: Region,
}

impl NamedRegion {
    pub fn new(name: String, desc: String, region: Region) -> (r: NamedRegion)
        ensures
            r.name == name,
            r.desc == desc,
            r.region == region,
    {
        NamedRegion { name, desc, region }
    }

    /// A copy with the same name, description and range.
    pub fn duplicate(&self) -> (r: NamedRegion)
        ensures
            r == *self,
    {
        NamedRegion { name: self.name.clone(), desc: self.desc.clone(), region: self.region }
    }
}

} // verus!
