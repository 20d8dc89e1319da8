//! Values tracked with the byte range of the source they were parsed from.
use vstd::prelude::*;

verus! {

/// Marker of the decoration that tracks the source position of each item.
#[derive(Debug, PartialEq, Eq, Structural, Clone, Copy)]
pub struct Tracking;

/// Byte range `start..end` in the source text.
#[derive(Debug, PartialEq, Eq, Structural, Clone, Copy)]
pub struct TrackedSpan {
    pub start: usize,
    pub end: usize,
}

impl TrackedSpan {
    /// Span of `start..end`.
    pub fn new(start: usize, end: usize) -> (r: TrackedSpan)
        ensures
            r.start == start,
            r.end == end,
    {
        TrackedSpan { start, end }
    }

    /// The range as a `(start, end)` pair.
    pub fn as_range(&self) -> (r: (usize, usize))
        ensures
            r == (self.start, self.end),
    {
        (self.start, self.end)
    }
}

/// Value with its source span.
#[derive(Debug, PartialEq, Eq)]
pub struct TrackedValue<T> {
    pub value: T,
    pub span: TrackedSpan,
}

impl<T> TrackedValue<T> {
    /// Wraps the value with its span.
    pub fn new(value: T, span: TrackedSpan) -> (r: Self)
        ensures
            r.value == value,
            r.span == span,
    {
        TrackedValue { value, span }
    }

    /// The span of the value.
    pub fn span(&self) -> (r: TrackedSpan)
        ensures
            r == self.span,
    {
        self.span
    }

    /// The value without its span.
    pub fn as_undecorated(&self) -> (r: &T)
        ensures
            *r == self.value,
    {
        &self.value
    }
}

} // verus!
