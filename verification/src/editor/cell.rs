//! One cell of a character grid.

use vstd::prelude::*;
use vstd::string::*;

verus! {

/// Flags of a cell, one bit each.
#[derive(Debug, Clone, Copy, PartialEq, Eq, Structural, Hash)]
pub struct CellFlags(pub u16);

impl CellFlags {
    /// Bit of a cell that holds a double-width character.
    pub open spec fn wide_bit() -> u16 {
        0x1
    }

    /// Bit of a cell that is the right half of a double-width character.
    pub open spec fn spacer_bit() -> u16 {
        0x2
    }

    /// The flag of a cell that holds a double-width character.
    pub fn wide_char() -> (f: Self)
        ensures
            f.0 == Self::wide_bit(),
    {
        CellFlags(0x1)
    }

    /// The flag of a cell that is the right half of a double-width character.
    pub fn wide_char_spacer() -> (f: Self)
        ensures
            f.0 == Self::spacer_bit(),
    {
        CellFlags(0x2)
    }

    /// No flag set.
    pub fn empty() -> (f: Self)
        ensures
            f.0 == 0,
    {
        CellFlags(0)
    }

    /// Returns true when no flag is set.
    pub fn is_empty(&self) -> (b: bool)
        ensures
            b == (self.0 == 0),
    {
        self.0 == 0
    }

    /// Returns true when every flag of `other` is set.
    pub fn contains(&self, other: CellFlags) -> (b: bool)
        ensures
            b == (self.0 & other.0 == other.0),
    {
        self.0 & other.0 == other.0
    }

    /// Sets or clears the flags of `other`.
    pub fn set(&mut self, other: CellFlags, value: bool)
        ensures
            final(self).0 == if value {
                old(self).0 | other.0
            } else {
                old(self).0 & !other.0
            },
    {
        if value {
            self.0 = self.0 | other.0;
        } else {
            self.0 = self.0 & !other.0;
        }
    }
}

/// What a cell shows: its text, highlight id and flag bits.
pub struct CellView {
    pub text: Seq<char>,
    pub highlight_id: u64,
    pub flags: u16,
}

/// The cell of an empty grid: a space with the default highlight and no flag.
pub open spec fn blank_cell() -> CellView {
    CellView { text: seq![' '], highlight_id: 0, flags: 0 }
}

/// A single cell in the grid.
#[derive(Debug, PartialEq, Eq)]
pub struct Cell {
    /// The text displayed in this cell; an empty cell holds a space.
    pub text: String,
    /// Highlight attribute id from Neovim; 0 is the default highlighting.
    pub highlight_id: u64,
    /// Cell flags (wide character, spacer).
    pub flags: CellFlags,
}

impl View for Cell {
    type V = CellView;

    open spec fn view(&self) -> CellView {
        CellView { text: self.text@, highlight_id: self.highlight_id, flags: self.flags.0 }
    }
}

impl Clone for Cell {
    fn clone(&self) -> (c: Self)
        ensures
            c == *self,
    {
        Cell { text: self.text.clone(), highlight_id: self.highlight_id, flags: self.flags }
    }
}

impl Default for Cell {
    fn default() -> (c: Self)
        ensures
            c@ == blank_cell(),
    {
        Self::blank()
    }
}

impl Cell {
    /// The cell is a space with the default highlight and no flag, or holds no
    /// text with the default highlight and no flag.
    pub open spec fn spec_is_empty(v: CellView) -> bool {
        v.highlight_id == 0 && (v.text == seq![' '] || v.text.len() == 0) && v.flags == 0
    }

    /// A space with the default highlight and no flag.
    pub fn blank() -> (c: Self)
        ensures
            c@ == blank_cell(),
    {
        let text = String::from_str(" ");
        proof {
            reveal_strlit(" ");
        }
        assert(text@ =~= seq![' ']);
        Cell { text, highlight_id: 0, flags: CellFlags::empty() }
    }

    /// Creates a cell with the given text and highlight id, and no flag.
    pub fn new(text: &str, highlight_id: u64) -> (c: Self)
        ensures
            c@ == (CellView { text: text@, highlight_id, flags: 0 }),
    {
        Cell { text: String::from_str(text), highlight_id, flags: CellFlags::empty() }
    }

    /// Returns true if this cell is empty.
    pub fn is_empty(&self) -> (b: bool)
        ensures
            b == Self::spec_is_empty(self@),
    {
        if self.highlight_id != 0 || !self.flags.is_empty() {
            return false;
        }
        let s = self.text.as_str();
        if s.is_empty() {
            return true;
        }
        if s.unicode_len() == 1 {
            let ch = s.get_char(0);
            if ch == ' ' {
                assert(s@ =~= seq![' ']);
                return true;
            }
        }
        false
    }

    /// Returns true if this cell holds a double-width character.
    pub fn is_wide(&self) -> (b: bool)
        ensures
            b == (self.flags.0 & CellFlags::wide_bit() == CellFlags::wide_bit()),
    {
        self.flags.contains(CellFlags::wide_char())
    }

    /// Returns true if this cell is the right half of a double-width character.
    pub fn is_wide_spacer(&self) -> (b: bool)
        ensures
            b == (self.flags.0 & CellFlags::spacer_bit() == CellFlags::spacer_bit()),
    {
        self.flags.contains(CellFlags::wide_char_spacer())
    }

    /// Sets or clears the double-width flag.
    pub fn set_wide(&mut self, wide: bool)
        ensures
            final(self).text == old(self).text,
            final(self).highlight_id == old(self).highlight_id,
            final(self).flags.0 == if wide {
                old(self).flags.0 | CellFlags::wide_bit()
            } else {
                old(self).flags.0 & !CellFlags::wide_bit()
            },
    {
        self.flags.set(CellFlags::wide_char(), wide);
    }

    /// Sets or clears the spacer flag.
    pub fn set_wide_spacer(&mut self, spacer: bool)
        ensures
            final(self).text == old(self).text,
            final(self).highlight_id == old(self).highlight_id,
            final(self).flags.0 == if spacer {
                old(self).flags.0 | CellFlags::spacer_bit()
            } else {
                old(self).flags.0 & !CellFlags::spacer_bit()
            },
    {
        self.flags.set(CellFlags::wide_char_spacer(), spacer);
    }

    /// Resets the cell to a blank one.
    pub fn clear(&mut self)
        ensures
            final(self)@ == blank_cell(),
    {
        *self = Self::blank();
    }
}

} // verus!
