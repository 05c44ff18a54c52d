//! Diagnostic feedback gathered while processing a model, and the
//! result-plus-feedback pair every layout operation returns. Diagnostics are
//! never raised as hard failures: they ride alongside the primary output and
//! are merged by concatenation as results compose up the tree.

use vstd::prelude::*;
use crate::span::{Span, Spanned, SpanVec};
use crate::syntax::Decoration;

verus! {

/// How severe a diagnostic is.
#[derive(Debug, Clone, Copy, PartialEq, Eq, Structural)]
pub enum Severity {
    /// A problem that does not prevent further processing.
    Warning,
    /// A problem upstream callers may decide to stop on; this core never
    /// stops on it itself.
    Error,
}

/// One diagnostic message; its source range comes from the `Spanned` wrapper
/// it is carried in.
#[derive(Debug)]
pub struct Diag {
    /// How severe the problem is.
    pub severity: Severity,
    /// A human-readable description of the problem.
    pub message: String,
}

/// Diagnostics and semantic-highlighting decorations accumulated while
/// processing a model.
#[derive(Debug)]
pub struct Feedback {
    /// The collected diagnostics, in the order they were found.
    pub diags: SpanVec<Diag>,
    /// The collected decorations, in the order they were found.
    pub decorations: SpanVec<Decoration>,
}

impl Feedback {
    /// Create an empty feedback bundle.
    pub fn new() -> (f: Feedback)
        ensures
            f.diags@.len() == 0,
            f.decorations@.len() == 0,
    {
        Feedback { diags: Vec::new(), decorations: Vec::new() }
    }

    /// Add a diagnostic over the given source range.
    pub fn report(&mut self, severity: Severity, message: String, span: Span)
        ensures
            final(self).diags@ == old(self).diags@.push(
                Spanned { v: Diag { severity, message }, span },
            ),
            final(self).decorations@ == old(self).decorations@,
    {
        self.diags.push(Spanned { v: Diag { severity, message }, span });
    }

    /// Attach a decoration to the given source range.
    pub fn decorate(&mut self, decoration: Decoration, span: Span)
        ensures
            final(self).decorations@ == old(self).decorations@.push(
                Spanned { v: decoration, span },
            ),
            final(self).diags@ == old(self).diags@,
    {
        self.decorations.push(Spanned { v: decoration, span });
    }

    /// Merge another bundle into this one by concatenation, keeping this
    /// bundle's entries first.
    pub fn extend(&mut self, other: Feedback)
        ensures
            final(self).diags@ == old(self).diags@ + other.diags@,
            final(self).decorations@ == old(self).decorations@ + other.decorations@,
    {
        let Feedback { mut diags, mut decorations } = other;
        self.diags.append(&mut diags);
        self.decorations.append(&mut decorations);
    }
}

/// The product of a processing step: its primary output together with the
/// feedback gathered while computing it. The output is always produced;
/// feedback never aborts it.
#[derive(Debug)]
pub struct Pass<T> {
    /// The primary output of the step.
    pub output: T,
    /// The feedback gathered along the way.
    pub feedback: Feedback,
}

impl<T> Pass<T> {
    /// Pair an output with the feedback it came with.
    pub fn new(output: T, feedback: Feedback) -> (p: Pass<T>)
        ensures
            p.output == output,
            p.feedback == feedback,
    {
        Pass { output, feedback }
    }
}

} // verus!
