use vstd::prelude::*;

verus! {

/// A position in a script: the script's name, the number of characters
/// consumed so far, and the current line and column.
#[derive(Debug, PartialEq, PartialOrd)]
pub struct Location {
    file: String,
    offset: u64,
    line: u64,
    column: u64,
}

/// The mathematical content of a [`Location`].
pub struct LocationView {
    pub file: Seq<char>,
    pub offset: u64,
    pub line: u64,
    pub column: u64,
}

impl LocationView {
    /// The start of an unnamed script: offset, line and column are all 1.
    pub open spec fn start() -> LocationView {
        LocationView { file: Seq::empty(), offset: 1, line: 1, column: 1 }
    }
}

impl View for Location {
    type V = LocationView;

    closed spec fn view(&self) -> LocationView {
        LocationView {
            file: self.file@,
            offset: self.offset,
            line: self.line,
            column: self.column,
        }
    }
}

impl Default for Location {
    /// The start of an unnamed script: offset, line and column are all 1.
    fn default() -> (r: Location)
        ensures
            r@ == LocationView::start(),
    {
        Location { file: String::new(), offset: 1, line: 1, column: 1 }
    }
}

impl Clone for Location {
    fn clone(&self) -> (r: Location)
        ensures
            r@ == self@,
    {
        Location {
            file: self.file.clone(),
            offset: self.offset,
            line: self.line,
            column: self.column,
        }
    }
}

impl Location {
    /// A place in the script `name`, with the given counts.
    pub fn new(name: &str, offset: u64, line: u64, column: u64) -> (r: Location)
        ensures
            r@ == (LocationView { file: name@, offset, line, column }),
    {
        Location { file: String::from_str(name), offset, line, column }
    }

    /// The name of the script.
    pub fn file(&self) -> (r: &String)
        ensures
            r@ == self@.file,
    {
        &self.file
    }

    /// The name of the script, to read or to change.
    pub fn file_mut(&mut self) -> (r: &mut String)
        ensures
            r@ == old(self)@.file,
            final(self)@ == (LocationView { file: final(r)@, ..old(self)@ }),
    {
        &mut self.file
    }

    /// The number of characters consumed, counted from 1.
    pub fn offset(&self) -> (r: &u64)
        ensures
            *r == self@.offset,
    {
        &self.offset
    }

    /// The offset, to read or to change.
    pub fn offset_mut(&mut self) -> (r: &mut u64)
        ensures
            *r == old(self)@.offset,
            final(self)@ == (LocationView { offset: *final(r), ..old(self)@ }),
    {
        &mut self.offset
    }

    /// The line, counted from 1.
    pub fn line(&self) -> (r: &u64)
        ensures
            *r == self@.line,
    {
        &self.line
    }

    /// The line, to read or to change.
    pub fn line_mut(&mut self) -> (r: &mut u64)
        ensures
            *r == old(self)@.line,
            final(self)@ == (LocationView { line: *final(r), ..old(self)@ }),
    {
        &mut self.line
    }

    /// The column.
    pub fn column(&self) -> (r: &u64)
        ensures
            *r == self@.column,
    {
        &self.column
    }

    /// The column, to read or to change.
    pub fn column_mut(&mut self) -> (r: &mut u64)
        ensures
            *r == old(self)@.column,
            final(self)@ == (LocationView { column: *final(r), ..old(self)@ }),
    {
        &mut self.column
    }
}

} // verus!
