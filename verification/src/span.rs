//! Source positions: a byte range in the source text and a generic wrapper
//! pairing a value with such a range.

use vstd::prelude::*;

verus! {

/// A range of bytes in the source text. The tree never interprets spans; they
/// are opaque metadata attached to values. A well-formed span never ends
/// before it starts.
#[derive(Debug, Clone, Copy, PartialEq, Eq, Structural)]
pub struct Span {
    /// Byte offset where the range starts.
    pub start: u64,
    /// Byte offset one past the end of the range.
    pub end: u64,
}

impl Span {
    /// A span is well formed when it does not end before it starts.
    pub open spec fn wf(self) -> bool {
        self.start <= self.end
    }

    /// Build a span from its two offsets.
    pub fn new(start: u64, end: u64) -> (s: Span)
        requires
            start <= end,
        ensures
            s == (Span { start, end }),
            s.wf(),
    {
        Span { start, end }
    }
}

/// A value paired with the source range it came from.
#[verifier::ext_equal]
#[derive(Debug)]
pub struct Spanned<T> {
    /// The wrapped value.
    pub v: T,
    /// The source range the value covers.
    pub span: Span,
}

impl<T: View> View for Spanned<T> {
    type V = Spanned<T::V>;

    open spec fn view(&self) -> Spanned<T::V> {
        Spanned { v: self.v@, span: self.span }
    }
}

impl<T> Spanned<T> {
    /// Pair a value with a span.
    pub fn new(v: T, span: Span) -> (s: Spanned<T>)
        ensures
            s == (Spanned { v, span }),
    {
        Spanned { v, span }
    }
}

impl<T: PartialEq + vstd::std_specs::cmp::PartialEqSpec> PartialEq for Spanned<T> {
    /// Spanned values are equal when both the spans and the values are.
    fn eq(&self, other: &Self) -> (r: bool) {
        self.span == other.span && self.v == other.v
    }
}

impl<T: PartialEq + vstd::std_specs::cmp::PartialEqSpec> vstd::std_specs::cmp::PartialEqSpecImpl for Spanned<T> {
    open spec fn obeys_eq_spec() -> bool {
        T::obeys_eq_spec()
    }

    open spec fn eq_spec(&self, other: &Self) -> bool {
        self.span == other.span && vstd::std_specs::cmp::PartialEqSpec::eq_spec(
            &self.v,
            &other.v,
        )
    }
}

impl<T: Clone> Clone for Spanned<T> {
    /// Clones the value and copies the span.
    fn clone(&self) -> (r: Self)
        ensures
            r.span == self.span,
            cloned::<T>(self.v, r.v),
    {
        Spanned { v: self.v.clone(), span: self.span }
    }
}

/// An ordered sequence of span-tagged values; insertion order is document
/// order.
pub type SpanVec<T> = Vec<Spanned<T>>;

} // verus!
