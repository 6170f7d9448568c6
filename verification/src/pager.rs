//! A single page of cells over the buffer, moved with the cursor keys.

use vstd::prelude::*;
use crate::gui::EditTarget;

verus! {

/// The keys that move the cursor and the page.
#[derive(Clone, Copy, Debug, PartialEq, Eq, Structural)]
pub enum NavKey {
    Up,
    Down,
    Left,
    Right,
    PageUp,
    PageDown,
    Home,
    End,
}

/// A page of `rows` rows of `cols` cells that starts at `starting_offset`,
/// and the offset of the cursor.
#[derive(Clone, Copy, Debug, PartialEq, Eq, Structural)]
pub struct Pager {
    pub rows: usize,
    pub cols: usize,
    pub starting_offset: usize,
    pub cursor: usize,
}

/// The sum, held at `usize::MAX`.
pub open spec fn plus(a: usize, b: usize) -> usize {
    if a + b > usize::MAX {
        usize::MAX
    } else {
        (a + b) as usize
    }
}

/// The difference, held at zero.
pub open spec fn minus(a: usize, b: usize) -> usize {
    if a < b {
        0
    } else {
        (a - b) as usize
    }
}

impl Pager {
    /// Cells on one page, held at `usize::MAX`.
    pub open spec fn spec_page(self) -> usize {
        if self.rows * self.cols > usize::MAX {
            usize::MAX
        } else {
            (self.rows * self.cols) as usize
        }
    }

    /// The pager after `key` was pressed over a buffer of `data_len` bytes.
    ///
    /// The arrow keys move the cursor by a cell or a row, and the page by a
    /// row when the cursor leaves it. Page up and page down move both by a
    /// page, as far as the buffer reaches. Home and end go to the first and
    /// the last page. Offsets are held at zero and at `usize::MAX`.
    pub open spec fn after_key(self, key: NavKey, data_len: usize) -> Pager {
        let page = self.spec_page();
        match key {
            NavKey::Up => {
                let cursor = minus(self.cursor, self.cols);
                Pager {
                    cursor,
                    starting_offset: if cursor < self.starting_offset {
                        minus(self.starting_offset, self.cols)
                    } else {
                        self.starting_offset
                    },
                    ..self
                }
            },
            NavKey::Down => {
                let cursor = plus(self.cursor, self.cols);
                Pager {
                    cursor,
                    starting_offset: if cursor >= plus(self.starting_offset, page) {
                        plus(self.starting_offset, self.cols)
                    } else {
                        self.starting_offset
                    },
                    ..self
                }
            },
            NavKey::Left => Pager { cursor: minus(self.cursor, 1), ..self },
            NavKey::Right => Pager { cursor: plus(self.cursor, 1), ..self },
            NavKey::PageUp => if self.starting_offset >= page {
                Pager {
                    starting_offset: minus(self.starting_offset, page),
                    cursor: minus(self.cursor, page),
                    ..self
                }
            } else {
                Pager { starting_offset: 0, ..self }
            },
            NavKey::PageDown => if self.starting_offset + page < data_len {
                Pager {
                    starting_offset: plus(self.starting_offset, page),
                    cursor: plus(self.cursor, page),
                    ..self
                }
            } else {
                self
            },
            NavKey::Home => Pager { starting_offset: 0, cursor: 0, ..self },
            NavKey::End => Pager {
                starting_offset: minus(data_len, page),
                cursor: minus(data_len, page),
                ..self
            },
        }
    }

    /// The offsets shown over a buffer of `data_len` bytes, as first offset
    /// and offset after the last: the page, cut off at the end of the
    /// buffer.
    pub open spec fn spec_visible(self, data_len: usize) -> (usize, usize) {
        let end = plus(self.starting_offset, self.spec_page());
        (
            if self.starting_offset < data_len {
                self.starting_offset
            } else {
                data_len
            },
            if end < data_len {
                end
            } else {
                data_len
            },
        )
    }

    /// A pager of 67 rows of 48 cells at the start of the buffer.
    pub fn new() -> (p: Pager)
        ensures
            p == (Pager { rows: 67, cols: 48, starting_offset: 0, cursor: 0 }),
    {
        Pager { rows: 67, cols: 48, starting_offset: 0, cursor: 0 }
    }

    /// Cells on one page, held at `usize::MAX`.
    pub fn page(&self) -> (n: usize)
        ensures
            n == self.spec_page(),
    {
        assert(self.rows * self.cols >= 0) by (nonlinear_arith)
            requires
                self.rows >= 0,
                self.cols >= 0,
        ;
        match self.rows.checked_mul(self.cols) {
            Some(n) => n,
            None => usize::MAX,
        }
    }

    /// Moves cursor and page as `key` asks, over a buffer of `data_len`
    /// bytes.
    pub fn key_pressed(&mut self, key: NavKey, data_len: usize)
        ensures
            *final(self) == old(self).after_key(key, data_len),
    {
        let page = self.page();
        match key {
            NavKey::Up => {
                self.cursor = self.cursor.saturating_sub(self.cols);
                if self.cursor < self.starting_offset {
                    self.starting_offset = self.starting_offset.saturating_sub(self.cols);
                }
            },
            NavKey::Down => {
                self.cursor = self.cursor.saturating_add(self.cols);
                if self.cursor >= self.starting_offset.saturating_add(page) {
                    self.starting_offset = self.starting_offset.saturating_add(self.cols);
                }
            },
            NavKey::Left => {
                self.cursor = self.cursor.saturating_sub(1);
            },
            NavKey::Right => {
                self.cursor = self.cursor.saturating_add(1);
            },
            NavKey::PageUp => {
                if self.starting_offset >= page {
                    self.starting_offset = self.starting_offset - page;
                    self.cursor = self.cursor.saturating_sub(page);
                } else {
                    self.starting_offset = 0;
                }
            },
            NavKey::PageDown => {
                let reaches = match self.starting_offset.checked_add(page) {
                    Some(end) => end < data_len,
                    None => false,
                };
                if reaches {
                    self.starting_offset = self.starting_offset + page;
                    self.cursor = self.cursor.saturating_add(page);
                }
            },
            NavKey::Home => {
                self.starting_offset = 0;
                self.cursor = 0;
            },
            NavKey::End => {
                let pos = data_len.saturating_sub(page);
                self.starting_offset = pos;
                self.cursor = pos;
            },
        }
    }

    /// Types the character with code `unicode` at the cursor, as text.
    /// Returns whether the buffer changed: it does when text takes the
    /// input, the character is ASCII and the cursor is in the buffer; the
    /// byte under the cursor is then replaced and the cursor moves on.
    pub fn text_entered(&mut self, data: &mut Vec<u8>, unicode: u32, target: EditTarget) -> (dirty:
        bool)
        ensures
            dirty == (target == EditTarget::Text && unicode < 128 && old(self).cursor < old(
                data,
            ).len()),
            dirty ==> final(data)@ == old(data)@.update(old(self).cursor as int, unicode as u8)
                && *final(self) == (Pager { cursor: (old(self).cursor + 1) as usize, ..*old(self) }),
            !dirty ==> final(data)@ == old(data)@ && *final(self) == *old(self),
    {
        match target {
            EditTarget::Hex => false,
            EditTarget::Text => {
                if unicode < 128 && self.cursor < data.len() {
                    data.set(self.cursor, unicode as u8);
                    self.cursor = self.cursor + 1;
                    true
                } else {
                    false
                }
            },
        }
    }

    /// The offsets shown over a buffer of `data_len` bytes, as first offset
    /// and offset after the last.
    pub fn visible(&self, data_len: usize) -> (r: (usize, usize))
        ensures
            r == self.spec_visible(data_len),
            r.0 <= r.1 <= data_len,
    {
        let end = self.starting_offset.saturating_add(self.page());
        (
            if self.starting_offset < data_len { self.starting_offset } else { data_len },
            if end < data_len { end } else { data_len },
        )
    }
}

} // verus!
