//! The cursor/selection model: a primary/secondary pair of character
//! offsets.  The primary end is the one the user is actively moving; the
//! secondary end is the anchor.

use vstd::prelude::*;

verus! {

/// A possibly-empty selection between two character offsets.  It is empty
/// exactly when both offsets coincide, and then stands for a single caret.
#[derive(Clone, Copy, Debug, PartialEq, Eq, Structural)]
pub struct Selection {
    pub primary: usize,
    pub secondary: usize,
}

/// Both ends lie inside a document of `len` characters.
pub open spec fn selection_valid(sel: Selection, len: int) -> bool {
    sel.primary <= len && sel.secondary <= len
}

/// The ordered `(min, max)` form of a selection.
pub open spec fn sorted_spec(sel: Selection) -> (int, int) {
    if sel.primary <= sel.secondary {
        (sel.primary as int, sel.secondary as int)
    } else {
        (sel.secondary as int, sel.primary as int)
    }
}

impl Selection {
    /// A collapsed selection: a single caret at `offset`.
    pub fn caret(offset: usize) -> (r: Selection)
        ensures
            r.primary == offset,
            r.secondary == offset,
    {
        Selection { primary: offset, secondary: offset }
    }

    /// Whether the selection covers no characters.
    pub fn is_empty(&self) -> (r: bool)
        ensures
            r <==> self.primary == self.secondary,
    {
        self.primary == self.secondary
    }

    /// The two ends in ascending order, whichever end is primary.
    pub fn sorted(&self) -> (r: (usize, usize))
        ensures
            (r.0 as int, r.1 as int) == sorted_spec(*self),
            r.0 <= r.1,
            r.0 == self.primary || r.0 == self.secondary,
            r.1 == self.primary || r.1 == self.secondary,
    {
        if self.primary <= self.secondary {
            (self.primary, self.secondary)
        } else {
            (self.secondary, self.primary)
        }
    }
}

/// Sorting a selection never depends on which end is the primary one:
/// swapping the ends yields the same `(min, max)` pair.
pub proof fn lemma_sorted_ignores_roles(sel: Selection)
    ensures
        sorted_spec(sel) == sorted_spec(
            Selection { primary: sel.secondary, secondary: sel.primary },
        ),
        sorted_spec(sel).0 <= sorted_spec(sel).1,
{
}

} // verus!
