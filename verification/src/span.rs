//! Source locations attached to findings.
use vstd::prelude::*;

verus! {

/// A 1-based line and column.
#[derive(Debug, Clone, Copy, PartialEq, Eq, Structural)]
pub struct Location {
    pub line: u32,
    pub column: u32,
}

/// A position as the syntax tree reports it: a 1-based line and a 0-based
/// column, in characters.
#[derive(Debug, Clone, Copy, PartialEq, Eq, Structural)]
pub struct LineColumn {
    pub line: usize,
    pub column: usize,
}

/// The location of a syntax-tree position: the line, and the column made 1-based
/// (saturating at `u32::MAX`).
pub open spec fn location_of(p: LineColumn) -> Location {
    Location {
        line: p.line as u32,
        column: if (p.column as u32) < u32::MAX { ((p.column as u32) + 1) as u32 } else { u32::MAX },
    }
}

fn location_from(p: LineColumn) -> (r: Location)
    ensures
        r == location_of(p),
{
    let c = p.column as u32;
    Location { line: p.line as u32, column: c.saturating_add(1) }
}

/// A range of source text in one file.
#[derive(Debug, Clone)]
pub struct Span {
    pub file: String,
    pub start: Location,
    pub end: Location,
}

impl Span {
    /// A span of `file` from `start` to `end`.
    pub fn new(file: &str, start: Location, end: Location) -> (r: Span)
        ensures
            r.file@ == file@,
            r.start == start,
            r.end == end,
    {
        Span { file: file.to_owned(), start, end }
    }

    /// The span of `file` between two syntax-tree positions.
    pub fn from_pm_span(file: &str, start: LineColumn, end: LineColumn) -> (r: Span)
        ensures
            r.file@ == file@,
            r.start == location_of(start),
            r.end == location_of(end),
    {
        Span::new(file, location_from(start), location_from(end))
    }

    /// An exact copy of this span.
    pub fn duplicate(&self) -> (r: Span)
        ensures
            r == *self,
    {
        Span { file: self.file.clone(), start: self.start, end: self.end }
    }
}

} // verus!
