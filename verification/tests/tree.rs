//! Tree construction, node equality and deep cloning.

use syntax_model::ext::{LabelModel, RepeatModel};
use syntax_model::model::{ErasedModel, Model};
use syntax_model::layout::{Command, LayoutContext};
use syntax_model::span::{Span, Spanned};
use syntax_model::syntax::{Node, SyntaxModel};

fn sp(start: u64, end: u64) -> Span {
    Span::new(start, end)
}

fn text(s: &str) -> Node {
    Node::Text(String::from(s))
}

#[test]
fn node_equality_same_kind_same_payload() {
    assert_eq!(Node::Space, Node::Space);
    assert_eq!(Node::Parbreak, Node::Parbreak);
    assert_eq!(Node::Linebreak, Node::Linebreak);
    assert_eq!(Node::ToggleItalic, Node::ToggleItalic);
    assert_eq!(Node::ToggleBolder, Node::ToggleBolder);
    assert_eq!(text("hi"), text("hi"));
    assert_eq!(
        Node::Raw(vec![String::from("a"), String::from("b")]),
        Node::Raw(vec![String::from("a"), String::from("b")]),
    );
}

#[test]
fn node_equality_same_kind_different_payload() {
    assert_ne!(text("hi"), text("ho"));
    assert_ne!(
        Node::Raw(vec![String::from("a")]),
        Node::Raw(vec![String::from("a"), String::from("b")]),
    );
    assert_ne!(
        Node::Raw(vec![String::from("a")]),
        Node::Raw(vec![String::from("b")]),
    );
}

#[test]
fn node_equality_differing_kinds() {
    assert_ne!(Node::Space, Node::Parbreak);
    assert_ne!(Node::Linebreak, Node::Parbreak);
    assert_ne!(Node::ToggleItalic, Node::ToggleBolder);
    assert_ne!(text("hi"), Node::Space);
    assert_ne!(Node::Raw(vec![String::from("hi")]), text("hi"));
    let erased = ErasedModel::erase(&LabelModel { name: String::from("hi") });
    assert_ne!(Node::Model(Box::new(erased)), text("hi"));
}

#[test]
fn empty_model_has_no_nodes() {
    let m = SyntaxModel::new();
    assert_eq!(m.nodes.len(), 0);
    let d: SyntaxModel = Default::default();
    assert_eq!(d.nodes.len(), 0);
    assert_eq!(m, d);
}

#[test]
fn add_preserves_insertion_order() {
    let s1 = Spanned::new(Node::Space, sp(0, 1));
    let s2 = Spanned::new(text("hi"), sp(1, 3));
    let mut m = SyntaxModel::new();
    m.add(s1.clone());
    m.add(s2.clone());
    assert_eq!(m.nodes.len(), 2);
    assert_eq!(m.nodes[0], s1);
    assert_eq!(m.nodes[1], s2);
}

#[test]
fn model_equality_is_sequence_equality() {
    let mut a = SyntaxModel::new();
    a.add(Spanned::new(Node::Space, sp(0, 1)));
    a.add(Spanned::new(text("hi"), sp(1, 3)));
    let mut b = SyntaxModel::new();
    b.add(Spanned::new(Node::Space, sp(0, 1)));
    b.add(Spanned::new(text("hi"), sp(1, 3)));
    assert_eq!(a, b);

    // Same nodes in another order are a different model.
    let mut c = SyntaxModel::new();
    c.add(Spanned::new(text("hi"), sp(1, 3)));
    c.add(Spanned::new(Node::Space, sp(0, 1)));
    assert_ne!(a, c);

    // A differing span makes the models differ too.
    let mut d = SyntaxModel::new();
    d.add(Spanned::new(Node::Space, sp(0, 2)));
    d.add(Spanned::new(text("hi"), sp(1, 3)));
    assert_ne!(a, d);
}

#[test]
fn clone_deep_copies_extension_nodes() {
    let mut m = SyntaxModel::new();
    m.add(Spanned::new(text("before"), sp(0, 6)));
    let label = LabelModel { name: String::from("anchor") };
    m.add(Spanned::new(Node::Model(Box::new(ErasedModel::erase(&label))), sp(6, 14)));
    let repeat = RepeatModel { piece: String::from("ha"), count: 3 };
    m.add(Spanned::new(Node::Model(Box::new(ErasedModel::erase(&repeat))), sp(14, 20)));

    let copy = m.clone();
    assert_eq!(copy, m);

    // Replacing a node of the copy leaves the original untouched.
    let mut copy = copy;
    let other = LabelModel { name: String::from("elsewhere") };
    copy.nodes[1] = Spanned::new(Node::Model(Box::new(ErasedModel::erase(&other))), sp(6, 14));
    assert_ne!(copy, m);
    let expected = Spanned::new(
        Node::Model(Box::new(ErasedModel::erase(&LabelModel { name: String::from("anchor") }))),
        sp(6, 14),
    );
    assert_eq!(m.nodes[1], expected);
}

#[test]
fn end_to_end_scenario() {
    let mut m = SyntaxModel::new();
    m.add(Spanned::new(Node::Space, sp(0, 1)));
    m.add(Spanned::new(text("hi"), sp(1, 3)));
    m.add(Spanned::new(Node::ToggleItalic, sp(3, 4)));
    m.add(Spanned::new(text("there"), sp(4, 9)));

    assert_eq!(m.nodes.len(), 4);
    assert_eq!(m.nodes[1].v, text("hi"));
    assert_eq!(m.clone(), m);

    let ctx = LayoutContext { italic: false, bolder: false };
    let pass = m.layout(&ctx);
    assert_eq!(pass.output.len(), 1);
    match &pass.output[0] {
        Command::LayoutSyntaxModel(inner) => {
            assert!(std::ptr::eq(*inner, &m));
            assert_eq!(**inner, m);
        },
        _ => panic!("expected a render command for the model itself"),
    }
    assert_eq!(pass.feedback.diags.len(), 0);
    assert_eq!(pass.feedback.decorations.len(), 0);
}
