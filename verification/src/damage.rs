//! Tracking of unsaved modifications as one bounding range of bytes.

use vstd::prelude::*;
use crate::region::Region;

verus! {

/// The bytes touched by one edit, `begin..=end`.
#[derive(Clone, Copy, Debug, PartialEq, Eq, Structural)]
pub struct DamageRegion {
    begin: usize,
    end: usize,
}

impl DamageRegion {
    /// Every damage region covers at least one byte: it is never inverted.
    #[verifier::type_invariant]
    pub closed spec fn inv(self) -> bool {
        self.begin <= self.end
    }

    /// First byte touched.
    pub closed spec fn spec_begin(self) -> usize {
        self.begin
    }

    /// Last byte touched.
    pub closed spec fn spec_end(self) -> usize {
        self.end
    }

    /// Damage of the single byte at `offset`.
    pub fn single(offset: usize) -> (d: DamageRegion)
        ensures
            d.spec_begin() == offset,
            d.spec_end() == offset,
    {
        DamageRegion { begin: offset, end: offset }
    }

    /// Damage of the bytes `start..end`, or nothing when that range is
    /// empty.
    pub fn range(start: usize, end: usize) -> (d: Option<DamageRegion>)
        ensures
            d is Some == (start < end),
            d matches Some(dr) ==> dr.spec_begin() == start && dr.spec_end() == end - 1,
    {
        if start < end {
            Some(DamageRegion { begin: start, end: end - 1 })
        } else {
            None
        }
    }

    /// Damage of the bytes `begin..=end`, or nothing when the bounds are
    /// inverted.
    pub fn range_inclusive(begin: usize, end: usize) -> (d: Option<DamageRegion>)
        ensures
            d is Some == (begin <= end),
            d matches Some(dr) ==> dr.spec_begin() == begin && dr.spec_end() == end,
    {
        if begin <= end {
            Some(DamageRegion { begin, end })
        } else {
            None
        }
    }

    #[verifier::when_used_as_spec(spec_begin)]
    pub fn begin(self) -> (b: usize)
        ensures
            b == self.spec_begin(),
            b <= self.spec_end(),
    {
        proof {
            use_type_invariant(self);
        }
        self.begin
    }

    #[verifier::when_used_as_spec(spec_end)]
    pub fn end(self) -> (e: usize)
        ensures
            e == self.spec_end(),
            self.spec_begin() <= e,
    {
        proof {
            use_type_invariant(self);
        }
        self.end
    }
}

/// The tracked range after damage of `begin..=end` is recorded: the damage
/// itself when nothing was tracked, else the smallest range that holds the
/// tracked range and the damage.
pub open spec fn widened(dirty: Option<Region>, begin: usize, end: usize) -> Region {
    match dirty {
        None => Region { begin, end },
        Some(r) => Region {
            begin: if begin < r.begin { begin } else { r.begin },
            end: if end > r.end { end } else { r.end },
        },
    }
}

/// The tracked range after each damage of `damages`, given as pairs of
/// first and last byte, is recorded in order.
pub open spec fn widened_by_all(dirty: Option<Region>, damages: Seq<(usize, usize)>) -> Option<Region>
    decreases damages.len(),
{
    if damages.len() == 0 {
        dirty
    } else {
        Some(
            widened(
                widened_by_all(dirty, damages.drop_last()),
                damages.last().0,
                damages.last().1,
            ),
        )
    }
}

/// Whether a tracked range covers all of `inner`.
pub open spec fn covers(dirty: Option<Region>, inner: Region) -> bool {
    dirty matches Some(r) && r.spec_contains_region(inner)
}

/// Records `damage` in the tracker: the tracked range grows to hold it.
pub fn widen_dirty_region(dirty: &mut Option<Region>, damage: DamageRegion)
    requires
        *old(dirty) matches Some(r) ==> r.wf(),
    ensures
        *final(dirty) == Some(widened(*old(dirty), damage.begin(), damage.end())),
        final(dirty)->0.wf(),
        covers(*final(dirty), Region { begin: damage.begin(), end: damage.end() }),
        *old(dirty) matches Some(r) ==> covers(*final(dirty), r),
{
    let begin = damage.begin();
    let end = damage.end();
    match dirty {
        Some(r) => {
            if begin < r.begin {
                r.begin = begin;
            }
            if end > r.end {
                r.end = end;
            }
        },
        None => {
            *dirty = Some(Region { begin, end });
        },
    }
}

/// Recording damage never shrinks the tracker and never loses a damage:
/// after any run of well-formed damages the tracked range is well formed,
/// covers what was tracked before and covers every damage of the run.
pub proof fn lemma_widen_monotonic(dirty: Option<Region>, damages: Seq<(usize, usize)>, i: int)
    requires
        dirty matches Some(r) ==> r.wf(),
        forall|j: int| 0 <= j < damages.len() ==> (#[trigger] damages[j]).0 <= damages[j].1,
        0 <= i < damages.len(),
    ensures
        widened_by_all(dirty, damages) is Some,
        widened_by_all(dirty, damages)->0.wf(),
        covers(widened_by_all(dirty, damages), Region { begin: damages[i].0, end: damages[i].1 }),
        dirty matches Some(r) ==> covers(widened_by_all(dirty, damages), r),
    decreases damages.len(),
{
    let rest = damages.drop_last();
    lemma_widen_keeps(dirty, rest);
    if i < damages.len() - 1 {
        lemma_widen_monotonic(dirty, rest, i);
    }
}

/// A run of well-formed damages keeps the tracker well formed and never
/// shrinks it.
pub proof fn lemma_widen_keeps(dirty: Option<Region>, damages: Seq<(usize, usize)>)
    requires
        dirty matches Some(r) ==> r.wf(),
        forall|j: int| 0 <= j < damages.len() ==> (#[trigger] damages[j]).0 <= damages[j].1,
    ensures
        widened_by_all(dirty, damages) matches Some(r) ==> r.wf(),
        damages.len() > 0 ==> widened_by_all(dirty, damages) is Some,
        dirty matches Some(r) ==> covers(widened_by_all(dirty, damages), r),
    decreases damages.len(),
{
    if damages.len() > 0 {
        let rest = damages.drop_last();
        lemma_widen_keeps(dirty, rest);
        assert(damages.last().0 <= damages.last().1);
    }
}

} // verus!
