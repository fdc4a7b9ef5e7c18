//! Source spans and values that carry one.

use std::ops::Range;
use vstd::prelude::*;

verus! {

/// A value together with the half-open range of byte offsets of the source
/// text that it was read from.
#[derive(Debug, PartialEq, Eq)]
pub struct Spanned<T>(pub T, pub Range<usize>);

impl<T: Clone> Clone for Spanned<T> {
    /// A clone of the value with the same span.
    fn clone(&self) -> (cloned: Self)
        ensures
            vstd::pervasive::cloned(self.0, cloned.0),
            cloned.1 == self.1,
    {
        Spanned(self.0.clone(), Range { start: self.1.start, end: self.1.end })
    }
}

impl<T: View> View for Spanned<T> {
    type V = Spanned<T::V>;

    open spec fn view(&self) -> Spanned<T::V> {
        Spanned(self.0@, self.1)
    }
}

impl<T> From<(T, Range<usize>)> for Spanned<T> {
    /// The value and the span of a pair, as one spanned value.
    fn from(pair: (T, Range<usize>)) -> (spanned: Self) {
        Spanned(pair.0, pair.1)
    }
}

impl<T> vstd::std_specs::convert::FromSpecImpl<(T, Range<usize>)> for Spanned<T> {
    open spec fn obeys_from_spec() -> bool {
        true
    }

    open spec fn from_spec(pair: (T, Range<usize>)) -> Self {
        Spanned(pair.0, pair.1)
    }
}

/// Number of offsets in `range`: its width, or nothing where it ends before
/// it starts.
pub open spec fn range_len(range: Range<usize>) -> int {
    if range.start <= range.end {
        range.end - range.start
    } else {
        0
    }
}

impl<T> Spanned<T> {
    /// Pairs `token` with the span `range`.
    pub fn new(token: T, range: Range<usize>) -> (spanned: Self)
        ensures
            spanned.0 == token,
            spanned.1 == range,
    {
        Self(token, range)
    }

    /// Number of bytes that the span covers.
    #[allow(clippy::len_without_is_empty)]
    pub fn len(&self) -> (len: usize)
        ensures
            len == range_len(self.1),
    {
        if self.1.start <= self.1.end {
            self.1.end - self.1.start
        } else {
            0
        }
    }

    /// The value without its span.
    pub fn inner(&self) -> (inner: &T)
        ensures
            *inner == self.0,
    {
        &self.0
    }

    /// Applies `func` to the value and keeps the span.
    pub fn map<U, F: FnOnce(T) -> U>(self, func: F) -> (mapped: Spanned<U>)
        requires
            func.requires((self.0,)),
        ensures
            func.ensures((self.0,), mapped.0),
            mapped.1 == self.1,
    {
        let Spanned(token, range) = self;
        Spanned(func(token), range)
    }

    /// Offset of the first byte of the span.
    pub fn start(&self) -> (start: usize)
        ensures
            start == self.1.start,
    {
        self.1.start
    }

    /// Offset just past the last byte of the span.
    pub fn end(&self) -> (end: usize)
        ensures
            end == self.1.end,
    {
        self.1.end
    }
}

} // verus!
