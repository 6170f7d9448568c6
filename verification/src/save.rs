//! Editing the buffer, writing it back to its source and loading it again:
//! what is written and where, and when it cannot be done.

use vstd::prelude::*;
use crate::app::App;
use crate::damage::{widen_dirty_region, widened, DamageRegion};
use crate::region::Region;
use crate::source::Source;

verus! {

/// Why the buffer cannot be saved.
#[derive(Clone, Copy, Debug, PartialEq, Eq, Structural)]
pub enum SaveError {
    /// No source is open.
    NoSource,
    /// The source cannot be positioned, as standard input cannot.
    StreamSource,
    /// The source was opened without permission to write.
    ReadOnly,
    /// The dirty region reaches past the end of the buffer.
    DirtyRegionOutsideBuffer,
}

/// Why the buffer cannot be loaded again.
#[derive(Clone, Copy, Debug, PartialEq, Eq, Structural)]
pub enum ReloadError {
    /// No source is open.
    NoSource,
    /// The source cannot be positioned, as standard input cannot.
    StreamSource,
}

/// What a save writes: the bytes `begin..end` of the buffer, at offset
/// `base + begin` of the source.
#[derive(Clone, Copy, Debug, PartialEq, Eq, Structural)]
pub struct SavePlan {
    pub base: usize,
    pub begin: usize,
    pub end: usize,
}

impl SaveError {
    pub fn message(&self) -> (m: String)
        ensures
            m@ == (match *self {
                SaveError::NoSource => "No source opened, nothing to save"@,
                SaveError::StreamSource => "Standard input doesn't support saving"@,
                SaveError::ReadOnly => "Source is opened read-only"@,
                SaveError::DirtyRegionOutsideBuffer => "Dirty region reaches past the end of the data"@,
            }),
    {
        match self {
            SaveError::NoSource => "No source opened, nothing to save".to_owned(),
            SaveError::StreamSource => "Standard input doesn't support saving".to_owned(),
            SaveError::ReadOnly => "Source is opened read-only".to_owned(),
            SaveError::DirtyRegionOutsideBuffer => {
                "Dirty region reaches past the end of the data".to_owned()
            },
        }
    }
}

impl ReloadError {
    pub fn message(&self) -> (m: String)
        ensures
            m@ == (match *self {
                ReloadError::NoSource => "No file to reload"@,
                ReloadError::StreamSource => "Can't reload streaming sources like standard input"@,
            }),
    {
        match self {
            ReloadError::NoSource => "No file to reload".to_owned(),
            ReloadError::StreamSource => "Can't reload streaming sources like standard input".to_owned(),
        }
    }
}

/// The bytes of the buffer that a save writes, as first offset and offset
/// after the last: the dirty region, or the whole buffer of `len` bytes
/// when nothing is tracked.
pub open spec fn save_span(dirty: Option<Region>, len: int) -> (int, int) {
    match dirty {
        Some(r) => (r.begin as int, r.end + 1),
        None => (0, len),
    }
}

/// What a save is to do in the given state, or why it cannot be done.
pub open spec fn save_outcome(
    source: Option<Source>,
    dirty: Option<Region>,
    len: int,
    hard_seek: Option<usize>,
) -> Result<SavePlan, SaveError> {
    match source {
        None => Err(SaveError::NoSource),
        Some(src) => if !src.attr.seekable {
            Err(SaveError::StreamSource)
        } else if !src.attr.permissions.write {
            Err(SaveError::ReadOnly)
        } else if dirty is Some && dirty->0.end >= len {
            Err(SaveError::DirtyRegionOutsideBuffer)
        } else {
            Ok(
                SavePlan {
                    base: match hard_seek {
                        Some(base) => base,
                        None => 0,
                    },
                    begin: save_span(dirty, len).0 as usize,
                    end: save_span(dirty, len).1 as usize,
                },
            )
        },
    }
}

/// The content of a file, by offset, after the bytes `begin..end` of `data`
/// were written at offset `base + begin`.
pub open spec fn file_after_write(
    file: Map<int, u8>,
    base: int,
    data: Seq<u8>,
    begin: int,
    end: int,
) -> Map<int, u8> {
    Map::new(
        |o: int| file.contains_key(o) || base + begin <= o < base + end,
        |o: int|
            if base + begin <= o < base + end {
                data[o - base]
            } else {
                file[o]
            },
    )
}

/// Whether the file holds every byte of `data` that lies outside `dirty`,
/// with the first byte of `data` at offset `base` of the file.
pub open spec fn agrees_outside(file: Map<int, u8>, base: int, data: Seq<u8>, dirty: Region) -> bool {
    forall|o: int|
        base <= o < base + data.len() && !dirty.spec_contains(o - base) ==> #[trigger] file.contains_key(
            o,
        ) && file[o] == data[o - base]
}

/// A save right after a save changes nothing in the file. When every byte
/// of the buffer outside the dirty region is in the file already, the first
/// save makes the file agree with the buffer; the dirty region is then
/// empty, the second save writes the whole buffer, and every byte it
/// writes is the byte that the file holds.
pub proof fn lemma_save_twice_is_save_once(
    file: Map<int, u8>,
    base: int,
    data: Seq<u8>,
    dirty: Option<Region>,
)
    requires
        dirty matches Some(r) ==> r.wf() && r.end < data.len(),
        dirty matches Some(r) ==> agrees_outside(file, base, data, r),
    ensures
        ({
            let first = save_span(dirty, data.len() as int);
            let second = save_span(None, data.len() as int);
            let once = file_after_write(file, base, data, first.0, first.1);
            let twice = file_after_write(once, base, data, second.0, second.1);
            &&& twice =~= once
            &&& forall|o: int|
                base <= o < base + data.len() ==> #[trigger] once.contains_key(o) && once[o]
                    == data[o - base]
        }),
{
    let first = save_span(dirty, data.len() as int);
    let once = file_after_write(file, base, data, first.0, first.1);
    assert forall|o: int| base <= o < base + data.len() implies #[trigger] once.contains_key(o)
        && once[o] == data[o - base] by {
        if dirty is Some && !dirty->0.spec_contains(o - base) {
            assert(file.contains_key(o));
        }
    }
    let twice = file_after_write(once, base, data, 0, data.len() as int);
    assert forall|o: int| twice.contains_key(o) implies once.contains_key(o) && twice[o] == once[o] by {
        if base <= o < base + data.len() {
            assert(once.contains_key(o) && once[o] == data[o - base]);
        }
    }
}

/// An edit that is recorded keeps the file and the buffer in agreement
/// outside the dirty region: when the file holds every byte of the buffer
/// outside the dirty region, or every byte while nothing is dirty, then
/// after a byte is overwritten and the damage recorded, the file holds
/// every byte of the buffer outside the new dirty region.
pub proof fn lemma_recorded_edit_keeps_agreement(
    file: Map<int, u8>,
    base: int,
    data: Seq<u8>,
    dirty: Option<Region>,
    offset: usize,
    value: u8,
)
    requires
        offset < data.len(),
        dirty matches Some(r) ==> r.wf() && agrees_outside(file, base, data, r),
        dirty is None ==> forall|o: int|
            base <= o < base + data.len() ==> #[trigger] file.contains_key(o) && file[o] == data[o
                - base],
    ensures
        widened(dirty, offset, offset).wf(),
        agrees_outside(file, base, data.update(offset as int, value), widened(dirty, offset, offset)),
{
    let after = data.update(offset as int, value);
    let grown = widened(dirty, offset, offset);
    assert forall|o: int|
        base <= o < base + after.len() && !grown.spec_contains(o - base) implies #[trigger] file.contains_key(
        o,
    ) && file[o] == after[o - base] by {
        assert(o - base != offset);
        if dirty is Some {
            assert(!dirty->0.spec_contains(o - base));
        }
        assert(file.contains_key(o));
    }
}

impl App {
    /// Overwrites the byte at `offset` with `value` and records the damage.
    /// Returns whether that was done; nothing changes for an offset outside
    /// the buffer.
    pub fn put_byte(&mut self, offset: usize, value: u8) -> (done: bool)
        requires
            old(self).wf(),
        ensures
            final(self).wf(),
            done == (offset < old(self).data.len()),
            !done ==> *final(self) == *old(self),
            done ==> {
                &&& final(self).data@ == old(self).data@.update(offset as int, value)
                &&& final(self).dirty_region == Some(widened(old(self).dirty_region, offset, offset))
                &&& *final(self) == (App {
                    data: final(self).data,
                    dirty_region: final(self).dirty_region,
                    ..*old(self)
                })
            },
    {
        if offset < self.data.len() {
            self.data.set(offset, value);
            widen_dirty_region(&mut self.dirty_region, DamageRegion::single(offset));
            true
        } else {
            false
        }
    }

    /// What a save is to write and where, or why the buffer cannot be
    /// saved. `hard_seek` is the offset in the source of the first byte of
    /// the buffer.
    pub fn save_plan(&self, hard_seek: Option<usize>) -> (r: Result<SavePlan, SaveError>)
        requires
            self.dirty_region matches Some(region) ==> region.wf(),
        ensures
            r == save_outcome(self.source, self.dirty_region, self.data.len() as int, hard_seek),
            r matches Ok(plan) ==> plan.begin <= plan.end <= self.data.len(),
    {
        let src = match self.source {
            Some(src) => src,
            None => { return Err(SaveError::NoSource); },
        };
        if !src.attr.seekable {
            return Err(SaveError::StreamSource);
        }
        if !src.attr.permissions.write {
            return Err(SaveError::ReadOnly);
        }
        let base = match hard_seek {
            Some(base) => base,
            None => 0,
        };
        match self.dirty_region {
            Some(region) => {
                if region.end >= self.data.len() {
                    return Err(SaveError::DirtyRegionOutsideBuffer);
                }
                Ok(SavePlan { base, begin: region.begin, end: region.end + 1 })
            },
            None => Ok(SavePlan { base, begin: 0, end: self.data.len() }),
        }
    }

    /// Records that the buffer was saved: nothing is dirty any more.
    pub fn save_done(&mut self)
        ensures
            *final(self) == (App { dirty_region: None, ..*old(self) }),
            old(self).wf() ==> final(self).wf(),
    {
        self.dirty_region = None;
    }

    /// Whether the buffer can be loaded again from its source.
    pub fn reload_check(&self) -> (r: Result<(), ReloadError>)
        ensures
            r == (match self.source {
                None => Err::<(), ReloadError>(ReloadError::NoSource),
                Some(src) => if src.attr.seekable {
                    Ok(())
                } else {
                    Err(ReloadError::StreamSource)
                },
            }),
    {
        match self.source {
            None => Err(ReloadError::NoSource),
            Some(src) => if src.attr.seekable {
                Ok(())
            } else {
                Err(ReloadError::StreamSource)
            },
        }
    }

    /// Takes the bytes that loading the source again gave: they replace the
    /// buffer and nothing is dirty any more.
    pub fn reloaded(&mut self, data: Vec<u8>)
        ensures
            *final(self) == (App { data, dirty_region: None, just_reloaded: true, ..*old(self) }),
            old(self).wf() ==> final(self).wf(),
    {
        self.data = data;
        self.dirty_region = None;
        self.just_reloaded = true;
    }
}

} // verus!
