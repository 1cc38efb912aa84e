//! Positions in source code (line and column numbers).

use vstd::prelude::*;

verus! {

/// A token at a particular line and column position, used to point the user
/// at the place where an error occurred.
#[derive(PartialEq, Eq, Debug, Clone)]
pub struct Placed<T> {
    /// The payload, the text that was read from a line of Hexit.
    pub contents: T,
    /// The line number that the text was read at, starting at 1.
    pub line_number: usize,
    /// The column number that the text starts at, counted in characters and
    /// starting at 0.
    pub column_number: usize,
}

impl View for Placed<String> {
    type V = Placed<Seq<char>>;

    open spec fn view(&self) -> Placed<Seq<char>> {
        Placed { contents: self.contents@, line_number: self.line_number, column_number: self.column_number }
    }
}

/// A placed piece of text, as seen by the specifications.
pub type PlacedText = Placed<Seq<char>>;

/// A column number moved along by `by` characters, kept within `usize`.
pub open spec fn column_after(column: usize, by: int) -> usize {
    if column + by <= usize::MAX {
        (column + by) as usize
    } else {
        usize::MAX
    }
}

fn move_column(column: usize, by: usize) -> (r: usize)
    ensures
        r == column_after(column, by as int),
{
    if column <= usize::MAX - by {
        column + by
    } else {
        usize::MAX
    }
}

pub open spec fn placed(contents: Seq<char>, line_number: usize, column_number: usize) -> PlacedText {
    Placed { contents, line_number, column_number }
}

impl Placed<String> {
    /// A copy of this placed text.
    pub fn clone_placed(&self) -> (r: Placed<String>)
        ensures
            r@ == self@,
    {
        Placed { contents: self.contents.clone(), line_number: self.line_number, column_number: self.column_number }
    }

    /// Returns the part of this text between the character indices `from`
    /// and `to`, with the column number moved along to where it starts.
    pub fn substring_ascii(&self, from: usize, to: usize) -> (r: Placed<String>)
        requires
            from <= to <= self.contents@.len(),
        ensures
            r@ == placed(self.contents@.subrange(from as int, to as int), self.line_number, column_after(self.column_number, from as int)),
    {
        let chars = crate::text::chars_of(self.contents.as_str());
        let sub = crate::text::slice_string(&chars, from, to);
        Placed { contents: sub, line_number: self.line_number, column_number: move_column(self.column_number, from) }
    }

    /// Returns the part of this text between the character indices `from`
    /// and `to`, placed at the column `from_column`, for text whose columns
    /// do not line up with its character indices.
    pub fn substring_mb(&self, from: usize, from_column: usize, to: usize) -> (r: Placed<String>)
        requires
            from <= to <= self.contents@.len(),
        ensures
            r@ == placed(self.contents@.subrange(from as int, to as int), self.line_number, column_after(self.column_number, from_column as int)),
    {
        let chars = crate::text::chars_of(self.contents.as_str());
        let sub = crate::text::slice_string(&chars, from, to);
        Placed { contents: sub, line_number: self.line_number, column_number: move_column(self.column_number, from_column) }
    }
}

/// Puts a piece of text within a `Placed` value.
pub trait At: Sized {
    /// Places this text at the given line and column.
    fn at(self, line_number: usize, column_number: usize) -> Placed<String>;
}

impl At for &str {
    fn at(self, line_number: usize, column_number: usize) -> (r: Placed<String>)
        ensures
            r@ == placed(self@, line_number, column_number),
    {
        Placed { contents: self.to_owned(), line_number, column_number }
    }
}

} // verus!
