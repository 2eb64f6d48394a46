//! Places in source files.
use crate::arc_text::arc_chars;
use crate::model;
use arcstr::ArcStr;
use vstd::prelude::*;

verus! {

/// The name of a source file.
#[derive(Debug, PartialEq, Eq)]
pub struct FileName(pub ArcStr);

/// A place in a source file: its offset in bytes, its row and its column.
#[derive(Debug, Clone, Copy, PartialEq, Eq)]
pub struct Point {
    pub offset: u32,
    pub row: u32,
    pub column: u32,
}

/// A stretch of a source file, or no place at all.
#[derive(Debug, PartialEq, Eq)]
pub enum Span {
    Nowhere,
    At { start: Point, end: Point, file: FileName },
}

impl View for Span {
    type V = model::Span;

    open spec fn view(&self) -> model::Span {
        match self {
            Span::Nowhere => model::Span::Nowhere,
            Span::At { start, end, file } => model::Span::At {
                start: *start,
                end: *end,
                file: arc_chars(file.0),
            },
        }
    }
}

impl DeepView for Span {
    type V = model::Span;

    open spec fn deep_view(&self) -> model::Span {
        self@
    }
}

impl Clone for FileName {
    fn clone(&self) -> (r: FileName)
        ensures
            arc_chars(r.0) == arc_chars(self.0),
    {
        FileName(self.0.clone())
    }
}

impl Clone for Span {
    fn clone(&self) -> (r: Span)
        ensures
            r@ == self@,
    {
        match self {
            Span::Nowhere => Span::Nowhere,
            Span::At { start, end, file } => Span::At {
                start: *start,
                end: *end,
                file: file.clone(),
            },
        }
    }
}

impl Span {
    /// From where `self` starts to where `other` ends.
    pub fn join(&self, other: Span) -> (r: Span)
        ensures
            r@ == self@.join(other@),
    {
        match self {
            Span::Nowhere => other,
            Span::At { start, file, .. } => match other {
                Span::Nowhere => self.clone(),
                Span::At { end, .. } => Span::At { start: *start, end, file: file.clone() },
            },
        }
    }

    /// How many bytes the stretch covers.
    pub fn len(&self) -> (r: u32)
        requires
            self@.is_ordered(),
        ensures
            r == self@.len(),
    {
        match self {
            Span::Nowhere => 0,
            Span::At { start, end, .. } => end.offset - start.offset,
        }
    }

    /// The empty stretch where `self` ends.
    pub fn only_end(&self) -> (r: Span)
        ensures
            r@ == self@.only_end(),
    {
        match self {
            Span::Nowhere => Span::Nowhere,
            Span::At { end, file, .. } => Span::At { start: *end, end: *end, file: file.clone() },
        }
    }
}

} // verus!
