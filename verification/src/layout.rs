//! The interface to the external layout engine: the read-only context it
//! hands to every layout call, and the commands a model emits for the layout
//! driver to interpret. The commands' meaning is the engine's business; this
//! core only produces them.

use vstd::prelude::*;
use crate::syntax::SyntaxModel;

verus! {

/// The read-only input the external layout engine provides to every layout
/// call of one traversal. Opaque to this core: models may only borrow it.
#[derive(Debug)]
pub struct LayoutContext {
    /// Whether italics are switched on when the traversal starts.
    pub italic: bool,
    /// Whether bold is switched on when the traversal starts.
    pub bolder: bool,
}

/// One instruction to the layout driver.
#[derive(Debug)]
pub enum Command<'a> {
    /// Lay out the nodes of the referenced syntax model.
    LayoutSyntaxModel(&'a SyntaxModel),
    /// Add a run of text to the current line.
    AddText(&'a str),
}

/// The instructions a layout call emits, in the order the driver should
/// process them.
pub type Commands<'a> = Vec<Command<'a>>;

} // verus!
