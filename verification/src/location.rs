//! Source locations: which text an action came from, and where in it.

use core::ops::Range;
use vstd::prelude::*;

verus! {

/// The origin of a piece of source text.
#[derive(Debug)]
pub enum Source {
    /// A file, named by its path.
    File(String),
}

/// A byte range of some source text.
#[derive(Debug)]
pub struct Location {
    pub source: Source,
    pub span: Range<usize>,
}

/// The view of a [`Location`]: the path of the file and the byte range.
pub struct LocationView {
    pub file: Seq<char>,
    pub start: nat,
    pub end: nat,
}

impl View for Source {
    type V = Seq<char>;

    open spec fn view(&self) -> Seq<char> {
        match self {
            Source::File(path) => path@,
        }
    }
}

impl View for Location {
    type V = LocationView;

    open spec fn view(&self) -> LocationView {
        LocationView {
            file: self.source@,
            start: self.span.start as nat,
            end: self.span.end as nat,
        }
    }
}

impl Clone for Source {
    fn clone(&self) -> (r: Source)
        ensures
            r == *self,
    {
        match self {
            Source::File(path) => Source::File(path.clone()),
        }
    }
}

impl Clone for Location {
    fn clone(&self) -> (r: Location)
        ensures
            r == *self,
    {
        Location { source: self.source.clone(), span: self.span.start..self.span.end }
    }
}

impl Location {
    /// The location of the bytes `start..end` of `source`.
    pub fn new(source: &Source, start: usize, end: usize) -> (r: Location)
        ensures
            r.source == *source,
            r.span.start == start,
            r.span.end == end,
    {
        Location { source: source.clone(), span: start..end }
    }
}

} // verus!
