//! The syntax tree: the closed set of built-in node kinds with one open
//! extension kind holding an erased model value, the tree container over
//! span-tagged nodes, and the decoration tags produced for editor tooling.

use vstd::prelude::*;
use crate::feedback::{Feedback, Pass};
use crate::layout::{Command, Commands, LayoutContext};
use crate::model::{ErasedModel, ErasedView, Model};
use crate::span::{Spanned, SpanVec};

verus! {

/// Decorations for semantic syntax highlighting. A pure tag: producers
/// attach one to a span, editor tooling consumes it read-only.
#[derive(Debug, Clone, Copy, PartialEq, Eq, Hash, Structural)]
pub enum Decoration {
    /// A function name that resolved to a known function.
    ValidFuncName,
    /// A function name that did not resolve.
    InvalidFuncName,
    /// A key of a keyword argument.
    ArgumentKey,
    /// A key in an object.
    ObjectKey,
    /// An italic word.
    Italic,
    /// A bold word.
    Bold,
}

/// A node in the [syntax model](SyntaxModel).
#[derive(Debug)]
pub enum Node {
    /// Whitespace containing less than two newlines.
    Space,
    /// Whitespace with more than two newlines.
    Parbreak,
    /// A forced line break.
    Linebreak,
    /// Plain text.
    Text(String),
    /// Lines of raw text.
    Raw(Vec<String>),
    /// Italics were enabled / disabled.
    ToggleItalic,
    /// Bolder was enabled / disabled.
    ToggleBolder,
    /// A submodel, typically a function invocation, behind an erased value
    /// the node exclusively owns.
    Model(Box<ErasedModel>),
}

/// The mathematical image of a sequence of strings.
pub open spec fn strings_view(s: Seq<String>) -> Seq<Seq<char>> {
    s.map_values(|x: String| x@)
}

/// The mathematical image of a [`Node`].
#[verifier::ext_equal]
pub enum NodeView {
    /// Whitespace containing less than two newlines.
    Space,
    /// Whitespace with more than two newlines.
    Parbreak,
    /// A forced line break.
    Linebreak,
    /// Plain text.
    Text(Seq<char>),
    /// Lines of raw text.
    Raw(Seq<Seq<char>>),
    /// Italics were enabled / disabled.
    ToggleItalic,
    /// Bolder was enabled / disabled.
    ToggleBolder,
    /// A submodel behind an erased value.
    Model(ErasedView),
}

impl View for Node {
    type V = NodeView;

    open spec fn view(&self) -> NodeView {
        match *self {
            Node::Space => NodeView::Space,
            Node::Parbreak => NodeView::Parbreak,
            Node::Linebreak => NodeView::Linebreak,
            Node::Text(s) => NodeView::Text(s@),
            Node::Raw(lines) => NodeView::Raw(strings_view(lines@)),
            Node::ToggleItalic => NodeView::ToggleItalic,
            Node::ToggleBolder => NodeView::ToggleBolder,
            Node::Model(m) => NodeView::Model(m@),
        }
    }
}

/// Compare two string sequences for structural equality.
fn string_vecs_equal(a: &Vec<String>, b: &Vec<String>) -> (r: bool)
    ensures
        r == (strings_view(a@) == strings_view(b@)),
{
    if a.len() != b.len() {
        proof {
            assert(strings_view(a@).len() != strings_view(b@).len());
        }
        return false;
    }
    let n: usize = a.len();
    let mut i: usize = 0;
    while i < n
        invariant
            n == a@.len() == b@.len(),
            0 <= i <= n,
            forall|j: int| 0 <= j < i ==> a@[j]@ == b@[j]@,
        decreases n - i,
    {
        if !(a[i] == b[i]) {
            proof {
                assert(strings_view(a@)[i as int] != strings_view(b@)[i as int]);
            }
            return false;
        }
        i += 1;
    }
    proof {
        assert(strings_view(a@) =~= strings_view(b@));
    }
    true
}

impl PartialEq for Node {
    /// Nodes are equal when they are the same kind with structurally equal
    /// payload; for extension nodes this delegates to erased-value equality.
    fn eq(&self, other: &Node) -> (r: bool) {
        match (self, other) {
            (Node::Space, Node::Space) => true,
            (Node::Parbreak, Node::Parbreak) => true,
            (Node::Linebreak, Node::Linebreak) => true,
            (Node::Text(a), Node::Text(b)) => *a == *b,
            (Node::Raw(a), Node::Raw(b)) => string_vecs_equal(a, b),
            (Node::ToggleItalic, Node::ToggleItalic) => true,
            (Node::ToggleBolder, Node::ToggleBolder) => true,
            (Node::Model(a), Node::Model(b)) => **a == **b,
            _ => false,
        }
    }
}

impl vstd::std_specs::cmp::PartialEqSpecImpl for Node {
    open spec fn obeys_eq_spec() -> bool {
        true
    }

    open spec fn eq_spec(&self, other: &Node) -> bool {
        self@ == other@
    }
}

impl Clone for Node {
    /// Deep-copy this node, recursively deep-copying an erased model value.
    fn clone(&self) -> (r: Self)
        ensures
            r@ == self@,
    {
        match self {
            Node::Space => Node::Space,
            Node::Parbreak => Node::Parbreak,
            Node::Linebreak => Node::Linebreak,
            Node::Text(s) => Node::Text(s.clone()),
            Node::Raw(lines) => {
                let copy = lines.clone();
                proof {
                    assert(strings_view(copy@) =~= strings_view(lines@));
                }
                Node::Raw(copy)
            },
            Node::ToggleItalic => Node::ToggleItalic,
            Node::ToggleBolder => Node::ToggleBolder,
            Node::Model(m) => Node::Model(Box::new((**m).clone())),
        }
    }
}

/// Structural equality of node images, written out by kind: two images are
/// related exactly when they are the same kind with equal payload; for the
/// extension kind, when tag and payload image agree.
pub open spec fn node_view_eq(a: NodeView, b: NodeView) -> bool {
    match (a, b) {
        (NodeView::Space, NodeView::Space) => true,
        (NodeView::Parbreak, NodeView::Parbreak) => true,
        (NodeView::Linebreak, NodeView::Linebreak) => true,
        (NodeView::Text(x), NodeView::Text(y)) => x == y,
        (NodeView::Raw(x), NodeView::Raw(y)) => x == y,
        (NodeView::ToggleItalic, NodeView::ToggleItalic) => true,
        (NodeView::ToggleBolder, NodeView::ToggleBolder) => true,
        (NodeView::Model(x), NodeView::Model(y)) => x.tag == y.tag && x.data == y.data,
        _ => false,
    }
}

/// Node equality is by kind and payload: images of the same kind with equal
/// payload are equal, and images of differing kinds never are.
pub proof fn lemma_node_eq_characterization(a: NodeView, b: NodeView)
    ensures
        (a == b) <==> node_view_eq(a, b),
{
    if node_view_eq(a, b) {
        match (a, b) {
            (NodeView::Model(x), NodeView::Model(y)) => {
                assert(x =~= y);
            },
            _ => {},
        }
    }
}

/// A tree representation of source code: an ordered sequence of span-tagged
/// nodes, owned exclusively and grown append-only in parse order.
#[derive(Debug)]
pub struct SyntaxModel {
    /// The syntactical elements making up this model.
    pub nodes: SpanVec<Node>,
}

impl View for SyntaxModel {
    type V = Seq<Spanned<NodeView>>;

    open spec fn view(&self) -> Seq<Spanned<NodeView>> {
        self.nodes@.map_values(|sn: Spanned<Node>| sn@)
    }
}

impl SyntaxModel {
    /// Create an empty syntax model.
    pub fn new() -> (m: SyntaxModel)
        ensures
            m@ == Seq::<Spanned<NodeView>>::empty(),
            m@.len() == 0,
    {
        let m = SyntaxModel { nodes: Vec::new() };
        proof {
            assert(m@ =~= Seq::<Spanned<NodeView>>::empty());
        }
        m
    }

    /// Add a node to the model, after every node added before it.
    pub fn add(&mut self, node: Spanned<Node>)
        ensures
            final(self)@ == old(self)@.push(node@),
    {
        self.nodes.push(node);
        proof {
            assert(self@ =~= old(self)@.push(node@));
        }
    }

}

impl Model for SyntaxModel {
    /// Laying out a tree always succeeds without suspending: it yields
    /// exactly one command telling the driver to render this model's nodes,
    /// and no feedback of its own.
    fn layout<'a>(&'a self, _ctx: &LayoutContext) -> (r: Pass<Commands<'a>>)
        ensures
            r.output@.len() == 1,
            (r.output@[0] matches Command::LayoutSyntaxModel(m) && m == self),
            r.feedback.diags@.len() == 0,
            r.feedback.decorations@.len() == 0,
    {
        let mut commands: Commands<'a> = Vec::new();
        commands.push(Command::LayoutSyntaxModel(self));
        Pass::new(commands, Feedback::new())
    }
}

impl Default for SyntaxModel {
    /// The default model is the empty one.
    fn default() -> (m: SyntaxModel)
        ensures
            m@ == Seq::<Spanned<NodeView>>::empty(),
            m@.len() == 0,
    {
        SyntaxModel::new()
    }
}

impl PartialEq for SyntaxModel {
    /// Two models are equal when their node sequences are equal in order.
    fn eq(&self, other: &Self) -> (r: bool) {
        let r = self.nodes == other.nodes;
        proof {
            if r {
                assert forall|i: int| 0 <= i < self@.len() implies self@[i] == other@[i] by {
                    assert(vstd::std_specs::cmp::PartialEqSpec::eq_spec(
                        &self.nodes@[i],
                        &other.nodes@[i],
                    ));
                }
                assert(self@ =~= other@);
            } else {
                if self@ == other@ {
                    assert(self@.len() == other@.len());
                    assert(self.nodes@.len() == other.nodes@.len());
                    assert forall|i: int| 0 <= i < self.nodes@.len() implies
                        vstd::std_specs::cmp::PartialEqSpec::eq_spec(
                            &self.nodes@[i],
                            &other.nodes@[i],
                        ) by {
                        assert(self@[i] == other@[i]);
                        assert(self@[i] == self.nodes@[i]@);
                        assert(other@[i] == other.nodes@[i]@);
                        assert(self.nodes@[i].span == other.nodes@[i].span);
                        assert(self.nodes@[i].v@ == other.nodes@[i].v@);
                    }
                    assert(false);
                }
            }
        }
        r
    }
}

impl vstd::std_specs::cmp::PartialEqSpecImpl for SyntaxModel {
    open spec fn obeys_eq_spec() -> bool {
        true
    }

    open spec fn eq_spec(&self, other: &Self) -> bool {
        self@ == other@
    }
}

impl Clone for SyntaxModel {
    /// Deep-copy the tree: every node is copied, and every erased model
    /// value inside is deep-copied into independently owned storage.
    fn clone(&self) -> (r: Self)
        ensures
            r@ == self@,
    {
        let nodes = self.nodes.clone();
        proof {
            assert forall|i: int| 0 <= i < nodes@.len() implies nodes@[i]@ == self.nodes@[i]@ by {
                assert(cloned::<Spanned<Node>>(self.nodes@[i], nodes@[i]));
            }
            let r = SyntaxModel { nodes };
            assert(r@ =~= self@);
        }
        SyntaxModel { nodes }
    }
}

} // verus!
