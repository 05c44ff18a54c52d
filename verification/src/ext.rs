//! Extension model types bundled with the core: a label anchor and a
//! repeated text run. The tree does not know them specially — they reach it
//! through erasure like any future extension type — and they double as
//! reference implementations of the erasure bounds.

use vstd::prelude::*;
use crate::feedback::{Feedback, Pass};
use crate::layout::{Command, Commands, LayoutContext};
use crate::model::{atoms_view, Atom, AtomView, Model, ModelBounds};
use crate::syntax::SyntaxModel;

verus! {

/// An anchor mark produced by a function invocation: it names a position in
/// the document and lays out into nothing.
#[derive(Debug)]
pub struct LabelModel {
    /// The label's name.
    pub name: String,
}

impl View for LabelModel {
    type V = Seq<char>;

    open spec fn view(&self) -> Seq<char> {
        self.name@
    }
}

impl PartialEq for LabelModel {
    /// Labels are equal when their names are.
    fn eq(&self, other: &Self) -> (r: bool) {
        self.name == other.name
    }
}

impl vstd::std_specs::cmp::PartialEqSpecImpl for LabelModel {
    open spec fn obeys_eq_spec() -> bool {
        true
    }

    open spec fn eq_spec(&self, other: &Self) -> bool {
        self@ == other@
    }
}

impl Clone for LabelModel {
    /// Cloning copies the name into fresh storage.
    fn clone(&self) -> (r: Self)
        ensures
            r@ == self@,
    {
        LabelModel { name: self.name.clone() }
    }
}

impl ModelBounds for LabelModel {
    open spec fn tag_spec() -> u64 {
        2
    }

    open spec fn encode_spec(v: Seq<char>) -> Seq<AtomView> {
        seq![AtomView::Str(v)]
    }

    open spec fn decode_spec(data: Seq<AtomView>) -> Option<Seq<char>> {
        if data.len() == 1 {
            match data[0] {
                AtomView::Str(s) => Some(s),
                _ => None,
            }
        } else {
            None
        }
    }

    proof fn lemma_encode_decode(v: Seq<char>)
    {
    }

    fn type_tag() -> (t: u64)
    {
        2
    }

    fn encode(&self) -> (data: Vec<Atom>)
    {
        let mut data: Vec<Atom> = Vec::new();
        data.push(Atom::Str(self.name.clone()));
        proof {
            assert(atoms_view(data@) =~= Self::encode_spec(self@));
        }
        data
    }

    fn decode(data: &Vec<Atom>) -> (r: Option<Self>)
    {
        if data.len() == 1 {
            match &data[0] {
                Atom::Str(s) => {
                    let v = LabelModel { name: s.clone() };
                    proof {
                        assert(atoms_view(data@)[0] == data@[0]@);
                    }
                    Some(v)
                },
                _ => None,
            }
        } else {
            None
        }
    }
}

impl Model for LabelModel {
    /// An anchor is invisible: layout always succeeds with no commands and
    /// no feedback.
    fn layout<'a>(&'a self, _ctx: &LayoutContext) -> (r: Pass<Commands<'a>>)
        ensures
            r.output@.len() == 0,
            r.feedback.diags@.len() == 0,
            r.feedback.decorations@.len() == 0,
    {
        Pass::new(Vec::new(), Feedback::new())
    }
}

/// The mathematical image of a [`RepeatModel`].
#[verifier::ext_equal]
pub struct RepeatView {
    /// The image of the repeated piece of text.
    pub piece: Seq<char>,
    /// How many times the piece is emitted.
    pub count: u64,
}

/// A repeated text run produced by a function invocation: it lays out into
/// its piece of text emitted `count` times.
#[derive(Debug)]
pub struct RepeatModel {
    /// The piece of text to emit.
    pub piece: String,
    /// How many times to emit it.
    pub count: u64,
}

impl View for RepeatModel {
    type V = RepeatView;

    open spec fn view(&self) -> RepeatView {
        RepeatView { piece: self.piece@, count: self.count }
    }
}

impl PartialEq for RepeatModel {
    /// Repeats are equal when piece and count both are.
    fn eq(&self, other: &Self) -> (r: bool) {
        self.count == other.count && self.piece == other.piece
    }
}

impl vstd::std_specs::cmp::PartialEqSpecImpl for RepeatModel {
    open spec fn obeys_eq_spec() -> bool {
        true
    }

    open spec fn eq_spec(&self, other: &Self) -> bool {
        self@ == other@
    }
}

impl Clone for RepeatModel {
    /// Cloning copies the piece into fresh storage and the count.
    fn clone(&self) -> (r: Self)
        ensures
            r@ == self@,
    {
        RepeatModel { piece: self.piece.clone(), count: self.count }
    }
}

impl ModelBounds for RepeatModel {
    open spec fn tag_spec() -> u64 {
        3
    }

    open spec fn encode_spec(v: RepeatView) -> Seq<AtomView> {
        seq![AtomView::Num(v.count), AtomView::Str(v.piece)]
    }

    open spec fn decode_spec(data: Seq<AtomView>) -> Option<RepeatView> {
        if data.len() == 2 {
            match (data[0], data[1]) {
                (AtomView::Num(n), AtomView::Str(s)) => Some(RepeatView { piece: s, count: n }),
                _ => None,
            }
        } else {
            None
        }
    }

    proof fn lemma_encode_decode(v: RepeatView)
    {
    }

    fn type_tag() -> (t: u64)
    {
        3
    }

    fn encode(&self) -> (data: Vec<Atom>)
    {
        let mut data: Vec<Atom> = Vec::new();
        data.push(Atom::Num(self.count));
        data.push(Atom::Str(self.piece.clone()));
        proof {
            assert(atoms_view(data@) =~= Self::encode_spec(self@));
        }
        data
    }

    fn decode(data: &Vec<Atom>) -> (r: Option<Self>)
    {
        if data.len() == 2 {
            match (&data[0], &data[1]) {
                (Atom::Num(n), Atom::Str(s)) => {
                    let v = RepeatModel { piece: s.clone(), count: *n };
                    proof {
                        assert(atoms_view(data@)[0] == data@[0]@);
                        assert(atoms_view(data@)[1] == data@[1]@);
                    }
                    Some(v)
                },
                _ => None,
            }
        } else {
            None
        }
    }
}

impl Model for RepeatModel {
    /// Layout emits the piece of text exactly `count` times, with no
    /// feedback.
    fn layout<'a>(&'a self, _ctx: &LayoutContext) -> (r: Pass<Commands<'a>>)
        ensures
            r.output@.len() == self.count,
            forall|i: int| 0 <= i < r.output@.len() ==> ((#[trigger] r.output@[i])
                matches Command::AddText(t) && t@ == self.piece@),
            r.feedback.diags@.len() == 0,
            r.feedback.decorations@.len() == 0,
    {
        let mut commands: Commands<'a> = Vec::new();
        let mut i: u64 = 0;
        while i < self.count
            invariant
                0 <= i <= self.count,
                commands@.len() == i,
                forall|j: int| 0 <= j < commands@.len() ==> ((#[trigger] commands@[j])
                    matches Command::AddText(t) && t@ == self.piece@),
            decreases self.count - i,
        {
            commands.push(Command::AddText(self.piece.as_str()));
            i += 1;
        }
        Pass::new(commands, Feedback::new())
    }
}

/// The model types this crate ships keep the tag discipline: their runtime
/// tags are pairwise distinct, so erased values of any two of them never
/// compare equal and never downcast to each other.
pub proof fn lemma_bundled_tags_distinct()
    ensures
        SyntaxModel::tag_spec() != LabelModel::tag_spec(),
        SyntaxModel::tag_spec() != RepeatModel::tag_spec(),
        LabelModel::tag_spec() != RepeatModel::tag_spec(),
{
}

} // verus!
