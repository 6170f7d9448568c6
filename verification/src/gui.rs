//! Plain state of the user interface that the document model has to know.

use vstd::prelude::*;
use crate::keys::ViewKey;

verus! {

/// What a context menu was opened on.
#[derive(Clone, Copy, Debug, PartialEq, Eq)]
pub enum ContextMenuData {
    /// A byte shown by a view.
    ViewByte { view: ViewKey, byte_off: usize },
}

/// Which rendition of a byte takes typed input.
#[derive(Clone, Copy, Debug, PartialEq, Eq, Structural)]
pub enum EditTarget {
    Hex,
    Text,
}

impl EditTarget {
    /// Moves input to the other rendition.
    pub fn switch(&mut self)
        ensures
            *final(self) == (match *old(self) {
                EditTarget::Hex => EditTarget::Text,
                EditTarget::Text => EditTarget::Hex,
            }),
    {
        *self = match *self {
            EditTarget::Hex => EditTarget::Text,
            EditTarget::Text => EditTarget::Hex,
        };
    }
}

} // verus!
