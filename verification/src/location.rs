//! Source positions: line, column and byte offset of an element in the text
//! that it was parsed from.

use vstd::prelude::*;

verus! {

/// Start position of an element in the data source.
pub struct Location {
    /// Line number, starting with 1.
    line: u32,
    /// Column number, starting with 1.
    column: u32,
    /// Byte offset, starting with 0.
    offset: u32,
}

impl Location {
    /// The line number, for specifications.
    pub closed spec fn spec_line(&self) -> u32 {
        self.line
    }

    /// The column number, for specifications.
    pub closed spec fn spec_column(&self) -> u32 {
        self.column
    }

    /// The byte offset, for specifications.
    pub closed spec fn spec_offset(&self) -> u32 {
        self.offset
    }

    /// Create a new location from its three coordinates.
    pub fn new(line: u32, column: u32, offset: u32) -> (r: Self)
        ensures
            r.spec_line() == line,
            r.spec_column() == column,
            r.spec_offset() == offset,
    {
        Self { line, column, offset }
    }

    /// The line number.
    pub fn line(&self) -> (r: u32)
        ensures
            r == self.spec_line(),
    {
        self.line
    }

    /// The column number.
    pub fn column(&self) -> (r: u32)
        ensures
            r == self.spec_column(),
    {
        self.column
    }

    /// The offset.
    pub fn offset(&self) -> (r: u32)
        ensures
            r == self.spec_offset(),
    {
        self.offset
    }

    /// Move to the next line.
    pub fn inc_line(&mut self)
        requires
            old(self).spec_line() < u32::MAX,
        ensures
            final(self).spec_line() == old(self).spec_line() + 1,
            final(self).spec_column() == old(self).spec_column(),
            final(self).spec_offset() == old(self).spec_offset(),
    {
        self.line = self.line + 1;
    }

    /// Move to the next column.
    pub fn inc_column(&mut self)
        requires
            old(self).spec_column() < u32::MAX,
        ensures
            final(self).spec_column() == old(self).spec_column() + 1,
            final(self).spec_line() == old(self).spec_line(),
            final(self).spec_offset() == old(self).spec_offset(),
    {
        self.column = self.column + 1;
    }

    /// Set the column to an absolute value.
    pub fn set_column(&mut self, col: u32)
        ensures
            final(self).spec_column() == col,
            final(self).spec_line() == old(self).spec_line(),
            final(self).spec_offset() == old(self).spec_offset(),
    {
        self.column = col;
    }

    /// Move to the next byte.
    pub fn inc_offset(&mut self)
        requires
            old(self).spec_offset() < u32::MAX,
        ensures
            final(self).spec_offset() == old(self).spec_offset() + 1,
            final(self).spec_line() == old(self).spec_line(),
            final(self).spec_column() == old(self).spec_column(),
    {
        self.offset = self.offset + 1;
    }
}

impl Default for Location {
    /// The default location: line 1, column 1, offset 0.
    fn default() -> (r: Self)
        ensures
            r.spec_line() == 1,
            r.spec_column() == 1,
            r.spec_offset() == 0,
    {
        Self::new(1, 1, 0)
    }
}

impl Clone for Location {
    fn clone(&self) -> (r: Self)
        ensures
            r == *self,
    {
        Self { line: self.line, column: self.column, offset: self.offset }
    }
}

} // verus!
