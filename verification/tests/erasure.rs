//! Erased model values: equality across and within concrete types, deep
//! cloning, checked downcasting, and a whole tree living inside a payload.

use syntax_model::ext::{LabelModel, RepeatModel};
use syntax_model::model::{Atom, ErasedModel, ModelBounds};
use syntax_model::span::{Span, Spanned};
use syntax_model::syntax::{Node, SyntaxModel};

fn label(name: &str) -> LabelModel {
    LabelModel { name: String::from(name) }
}

fn repeat(piece: &str, count: u64) -> RepeatModel {
    RepeatModel { piece: String::from(piece), count }
}

#[test]
fn cross_type_erased_values_are_unequal() {
    // Same-looking payloads of different concrete types never compare equal.
    let a = ErasedModel::erase(&label("x"));
    let b = ErasedModel::erase(&repeat("x", 1));
    assert_ne!(a, b);
    assert_ne!(b, a);
}

#[test]
fn same_type_erased_equality_follows_concrete_equality() {
    let a = ErasedModel::erase(&label("x"));
    let b = ErasedModel::erase(&label("x"));
    let c = ErasedModel::erase(&label("y"));
    assert_eq!(a, b);
    assert_ne!(a, c);
}

#[test]
fn erased_clone_preserves_equality_and_owns_its_storage() {
    let original = ErasedModel::erase(&repeat("ha", 2));
    let copy = original.clone();
    assert_eq!(copy, original);

    // The copy is its own storage: dropping the original leaves it intact.
    drop(original);
    let back: RepeatModel = copy.downcast().expect("the copy still downcasts");
    assert_eq!(back, repeat("ha", 2));
}

#[test]
fn downcast_round_trip() {
    let value = repeat("ab", 5);
    let erased = ErasedModel::erase(&value);
    let back: Option<RepeatModel> = erased.downcast();
    assert_eq!(back.expect("the erased value holds this type"), value);
    let wrong: Option<LabelModel> = erased.downcast();
    assert!(wrong.is_none());
    let tree: Option<SyntaxModel> = erased.downcast();
    assert!(tree.is_none());
}

#[test]
fn two_identical_extension_values_in_nodes_compare_equal() {
    let n1 = Node::Model(Box::new(ErasedModel::erase(&repeat("bla", 2))));
    let n2 = Node::Model(Box::new(ErasedModel::erase(&repeat("bla", 2))));
    let n3 = Node::Model(Box::new(ErasedModel::erase(&repeat("bla", 3))));
    assert_eq!(n1, n2);
    assert_ne!(n1, n3);
    assert_ne!(n2, n3);
}

#[test]
fn concrete_encode_decode_round_trip() {
    let value = label("here");
    let data = value.encode();
    assert_eq!(data, vec![Atom::Str(String::from("here"))]);
    let back = LabelModel::decode(&data).expect("a label's own payload decodes");
    assert_eq!(back, value);

    let value = repeat("xy", 7);
    let data = value.encode();
    assert_eq!(data, vec![Atom::Num(7), Atom::Str(String::from("xy"))]);
    let back = RepeatModel::decode(&data).expect("a repeat's own payload decodes");
    assert_eq!(back, value);
}

#[test]
fn malformed_payloads_decode_to_nothing() {
    assert!(LabelModel::decode(&vec![Atom::Num(1)]).is_none());
    assert!(LabelModel::decode(&vec![]).is_none());
    assert!(LabelModel::decode(&vec![
        Atom::Str(String::from("a")),
        Atom::Str(String::from("b")),
    ]).is_none());
    assert!(RepeatModel::decode(&vec![Atom::Num(1)]).is_none());
    assert!(RepeatModel::decode(&vec![
        Atom::Str(String::from("a")),
        Atom::Num(1),
    ]).is_none());
    assert!(SyntaxModel::decode(&vec![Atom::Num(0)]).is_none());
    assert!(SyntaxModel::decode(&vec![
        Atom::Num(0),
        Atom::Num(1),
        Atom::Num(99),
    ]).is_none());
}

#[test]
fn tree_payloads_have_the_documented_shape() {
    // The empty tree encodes to the empty payload, and back.
    let empty = SyntaxModel::new();
    assert_eq!(empty.encode(), vec![]);
    assert_eq!(SyntaxModel::decode(&vec![]).expect("empty payload"), empty);

    // One space node: span offsets, then its kind code.
    let mut spaced = SyntaxModel::new();
    spaced.add(Spanned::new(Node::Space, Span::new(0, 1)));
    assert_eq!(spaced.encode(), vec![Atom::Num(0), Atom::Num(1), Atom::Num(0)]);

    // One raw node: kind code, then each line marked with 1, closed by 0.
    let mut raw = SyntaxModel::new();
    raw.add(Spanned::new(Node::Raw(vec![String::from("a")]), Span::new(2, 5)));
    assert_eq!(
        raw.encode(),
        vec![
            Atom::Num(2),
            Atom::Num(5),
            Atom::Num(4),
            Atom::Num(1),
            Atom::Str(String::from("a")),
            Atom::Num(0),
        ],
    );
    assert_eq!(SyntaxModel::decode(&raw.encode()).expect("a raw node's payload"), raw);

    // One extension node: kind code, tag, then the framed nested payload.
    let mut extended = SyntaxModel::new();
    extended.add(Spanned::new(
        Node::Model(Box::new(ErasedModel::erase(&label("x")))),
        Span::new(0, 3),
    ));
    assert_eq!(
        extended.encode(),
        vec![
            Atom::Num(0),
            Atom::Num(3),
            Atom::Num(7),
            Atom::Num(LabelModel::type_tag()),
            Atom::Num(1),
            Atom::Str(String::from("x")),
            Atom::Num(0),
        ],
    );
    assert_eq!(
        SyntaxModel::decode(&extended.encode()).expect("an extension node's payload"),
        extended,
    );
}

#[test]
fn erased_values_expose_their_runtime_tag() {
    let a = ErasedModel::erase(&label("x"));
    let b = ErasedModel::erase(&repeat("x", 1));
    assert_eq!(a.tag_value(), LabelModel::type_tag());
    assert_eq!(b.tag_value(), RepeatModel::type_tag());
    assert_ne!(a.tag_value(), b.tag_value());
    assert_eq!(a.payload(), &vec![Atom::Str(String::from("x"))]);
}

#[test]
fn a_tree_is_itself_an_erasable_model() {
    let mut inner = SyntaxModel::new();
    inner.add(Spanned::new(Node::Space, Span::new(0, 1)));
    inner.add(Spanned::new(Node::Text(String::from("deep")), Span::new(1, 5)));
    inner.add(Spanned::new(
        Node::Raw(vec![String::from("line one"), String::from("line two")]),
        Span::new(5, 9),
    ));
    inner.add(Spanned::new(
        Node::Model(Box::new(ErasedModel::erase(&label("nested")))),
        Span::new(9, 12),
    ));

    // Erase the whole tree and store it inside another tree.
    let mut outer = SyntaxModel::new();
    outer.add(Spanned::new(
        Node::Model(Box::new(ErasedModel::erase(&inner))),
        Span::new(0, 12),
    ));
    assert_eq!(outer.nodes.len(), 1);

    // The erased tree comes back whole.
    match &outer.nodes[0].v {
        Node::Model(erased) => {
            let back: SyntaxModel = erased.downcast().expect("the payload holds a tree");
            assert_eq!(back, inner);
            let not_a_label: Option<LabelModel> = erased.downcast();
            assert!(not_a_label.is_none());
        },
        _ => panic!("expected the extension node"),
    }

    // A structurally different tree erases to a different value.
    let mut changed = inner.clone();
    changed.add(Spanned::new(Node::Parbreak, Span::new(12, 14)));
    assert_ne!(
        ErasedModel::erase(&inner),
        ErasedModel::erase(&changed),
    );
    assert_eq!(
        ErasedModel::erase(&inner),
        ErasedModel::erase(&inner.clone()),
    );
}
