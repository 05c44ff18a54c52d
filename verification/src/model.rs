//! The polymorphic model capability and the adapter that lets an owned,
//! type-erased model value keep structural equality, deep cloning and checked
//! downcasting.
//!
//! A concrete model type qualifies for erasure by stating, through
//! [`ModelBounds`], a runtime type tag, an encoding of its values into plain
//! atoms, and a decoding that provably inverts the encoding. Erasure then
//! stores the tag next to the encoded payload, and equality, cloning and
//! downcasting of erased values are derived from those three pieces alone:
//! any future model type gets them for free, with no central registry.

use vstd::prelude::*;
use crate::feedback::Pass;
use crate::layout::{Commands, LayoutContext};

verus! {

/// One plain unit of an erased payload: a number or a piece of text.
#[derive(Debug)]
pub enum Atom {
    /// An unsigned number.
    Num(u64),
    /// A piece of text.
    Str(String),
}

/// The mathematical image of an [`Atom`].
#[verifier::ext_equal]
pub enum AtomView {
    /// An unsigned number.
    Num(u64),
    /// A piece of text.
    Str(Seq<char>),
}

impl View for Atom {
    type V = AtomView;

    open spec fn view(&self) -> AtomView {
        match *self {
            Atom::Num(n) => AtomView::Num(n),
            Atom::Str(s) => AtomView::Str(s@),
        }
    }
}

/// The mathematical image of a sequence of atoms.
pub open spec fn atoms_view(s: Seq<Atom>) -> Seq<AtomView> {
    s.map_values(|a: Atom| a@)
}

impl PartialEq for Atom {
    /// Atoms are equal when they are the same kind with the same content.
    fn eq(&self, other: &Atom) -> (r: bool) {
        match (self, other) {
            (Atom::Num(a), Atom::Num(b)) => *a == *b,
            (Atom::Str(a), Atom::Str(b)) => *a == *b,
            _ => false,
        }
    }
}

impl vstd::std_specs::cmp::PartialEqSpecImpl for Atom {
    open spec fn obeys_eq_spec() -> bool {
        true
    }

    open spec fn eq_spec(&self, other: &Atom) -> bool {
        self@ == other@
    }
}

impl Clone for Atom {
    /// Cloning an atom copies its content into fresh storage.
    fn clone(&self) -> (r: Self)
        ensures
            r == *self,
    {
        match self {
            Atom::Num(n) => Atom::Num(*n),
            Atom::Str(s) => Atom::Str(s.clone()),
        }
    }
}

/// An owned model value whose concrete type has been erased: the concrete
/// type's runtime tag next to the payload that type encoded itself into.
/// The concrete type is recoverable only through [`ErasedModel::downcast`].
#[derive(Debug)]
pub struct ErasedModel {
    tag: u64,
    data: Vec<Atom>,
}

/// The mathematical image of an [`ErasedModel`]: the tag and the payload's
/// image.
#[verifier::ext_equal]
pub struct ErasedView {
    /// The runtime type tag of the concrete type the value was erased from.
    pub tag: u64,
    /// The image of the encoded payload.
    pub data: Seq<AtomView>,
}

impl View for ErasedModel {
    type V = ErasedView;

    closed spec fn view(&self) -> ErasedView {
        ErasedView { tag: self.tag, data: atoms_view(self.data@) }
    }
}

/// The bounds a concrete type must satisfy to live inside the tree as an
/// erased model value: a type tag standing for its runtime identity, an
/// encoding of its values into plain atoms, and a decoding that provably
/// inverts the encoding. Equality, cloning and downcasting of erased values
/// are derived from these alone.
pub trait ModelBounds: View + Sized {
    /// The tag standing for this concrete type's runtime identity. Distinct
    /// model types must choose distinct tags; under that discipline the tag
    /// plays the role of runtime type information.
    spec fn tag_spec() -> u64;

    /// The image of the payload a value of this type encodes itself into.
    spec fn encode_spec(v: Self::V) -> Seq<AtomView>;

    /// The value, if any, a payload image decodes to.
    spec fn decode_spec(data: Seq<AtomView>) -> Option<Self::V>;

    /// Decoding inverts encoding: every value comes back from its own
    /// payload. This is what makes erased equality agree with the concrete
    /// type's own equality, and erased cloning preserve it.
    proof fn lemma_encode_decode(v: Self::V)
        ensures
            Self::decode_spec(Self::encode_spec(v)) == Some(v),
    ;

    /// The runtime tag of this concrete type.
    fn type_tag() -> (t: u64)
        ensures
            t == Self::tag_spec(),
    ;

    /// Encode this value into a payload of plain atoms.
    fn encode(&self) -> (data: Vec<Atom>)
        ensures
            atoms_view(data@) == Self::encode_spec(self@),
    ;

    /// Decode a payload back into a value of this type, if it is one.
    fn decode(data: &Vec<Atom>) -> (r: Option<Self>)
        ensures
            match r {
                Some(v) => Self::decode_spec(atoms_view(data@)) == Some(v@),
                None => Self::decode_spec(atoms_view(data@)) is None,
            },
    ;
}

/// A parsed piece of source that can be laid out: given the engine's
/// read-only context, produce the commands the layout driver should process,
/// together with the feedback gathered while computing them. Layout borrows
/// the model and never mutates it; the commands may borrow from the model.
pub trait Model: ModelBounds {
    /// Lay this model out into a sequence of commands plus feedback.
    fn layout<'a>(&'a self, ctx: &LayoutContext) -> Pass<Commands<'a>>;
}

/// The image an erased value has after erasing a value `v` of concrete type
/// `T`.
pub open spec fn erase_spec<T: ModelBounds>(v: T::V) -> ErasedView {
    ErasedView { tag: T::tag_spec(), data: T::encode_spec(v) }
}

/// The value of concrete type `T`, if any, an erased value downcasts to:
/// nothing unless the tags agree, and otherwise whatever the payload decodes
/// to.
pub open spec fn downcast_spec<T: ModelBounds>(e: ErasedView) -> Option<T::V> {
    if e.tag == T::tag_spec() {
        T::decode_spec(e.data)
    } else {
        None
    }
}

impl ErasedModel {
    /// Erase a concrete model value: store its type's tag next to its
    /// encoded payload. The erased value owns its payload outright.
    pub fn erase<T: Model>(value: &T) -> (e: ErasedModel)
        ensures
            e@ == erase_spec::<T>(value@),
    {
        ErasedModel { tag: T::type_tag(), data: value.encode() }
    }

    /// The runtime tag this value was erased with.
    pub fn tag_value(&self) -> (t: u64)
        ensures
            t == self@.tag,
    {
        self.tag
    }

    /// Borrow the encoded payload this value was erased with.
    pub fn payload(&self) -> (d: &Vec<Atom>)
        ensures
            atoms_view(d@) == self@.data,
    {
        &self.data
    }

    /// Reassemble an erased value from a tag and an encoded payload; used
    /// when a tree is decoded back out of a payload of its own.
    pub(crate) fn from_parts(tag: u64, data: Vec<Atom>) -> (e: ErasedModel)
        ensures
            e@ == (ErasedView { tag, data: atoms_view(data@) }),
    {
        ErasedModel { tag, data }
    }

    /// Attempt to view this erased value as concrete type `T`. Fails safely
    /// with `None` when the runtime type does not match; never a fault.
    pub fn downcast<T: Model>(&self) -> (r: Option<T>)
        ensures
            match r {
                Some(v) => downcast_spec::<T>(self@) == Some(v@),
                None => downcast_spec::<T>(self@) is None,
            },
    {
        if self.tag == T::type_tag() {
            T::decode(&self.data)
        } else {
            None
        }
    }
}

impl PartialEq for ErasedModel {
    /// Two erased values are equal exactly when their images are: same tag
    /// and same payload.
    fn eq(&self, other: &Self) -> (r: bool) {
        let tags_equal = self.tag == other.tag;
        let data_equal = self.data == other.data;
        proof {
            if tags_equal && data_equal {
                assert(atoms_view(self.data@) =~= atoms_view(other.data@));
            }
            if self@ == other@ {
                assert(atoms_view(self.data@) == atoms_view(other.data@));
                assert(self.data@.len() == other.data@.len());
                assert forall|i: int| 0 <= i < self.data@.len() implies
                    vstd::std_specs::cmp::PartialEqSpec::eq_spec(&self.data@[i], &other.data@[i])
                by {
                    assert(atoms_view(self.data@)[i] == atoms_view(other.data@)[i]);
                    assert(self.data@[i]@ == other.data@[i]@);
                }
                assert(data_equal);
            }
        }
        tags_equal && data_equal
    }
}

impl vstd::std_specs::cmp::PartialEqSpecImpl for ErasedModel {
    open spec fn obeys_eq_spec() -> bool {
        true
    }

    open spec fn eq_spec(&self, other: &Self) -> bool {
        self@ == other@
    }
}

impl Clone for ErasedModel {
    /// Deep-copy this erased value; the copy has the same image and owns
    /// entirely new storage, sharing nothing with the original.
    fn clone(&self) -> (r: Self)
        ensures
            r@ == self@,
    {
        let data = self.data.clone();
        proof {
            assert(atoms_view(data@) =~= atoms_view(self.data@));
        }
        ErasedModel { tag: self.tag, data }
    }
}

/// Erasing and downcasting round-trip: an erased value of concrete type `T`
/// downcasts to `T` and yields exactly the value that was erased.
pub proof fn lemma_downcast_round_trip<T: Model>(v: T::V)
    ensures
        downcast_spec::<T>(erase_spec::<T>(v)) == Some(v),
{
    T::lemma_encode_decode(v);
}

/// Downcasting to a different concrete type fails safely: when the requested
/// type's tag differs from the one the value was erased with, the downcast
/// yields nothing.
pub proof fn lemma_downcast_other_type<T: Model, U: Model>(v: T::V)
    requires
        T::tag_spec() != U::tag_spec(),
    ensures
        downcast_spec::<U>(erase_spec::<T>(v)) is None,
{
}

/// Erased values of different concrete types are never equal, whatever their
/// payloads: distinct tags make distinct images.
pub proof fn lemma_cross_type_unequal<T: Model, U: Model>(v: T::V, w: U::V)
    requires
        T::tag_spec() != U::tag_spec(),
    ensures
        erase_spec::<T>(v) != erase_spec::<U>(w),
{
}

/// Erasure keeps the concrete type's own equality: two values of one
/// concrete type erase to equal images exactly when the values are equal.
pub proof fn lemma_erase_preserves_eq<T: Model>(v: T::V, w: T::V)
    ensures
        erase_spec::<T>(v) == erase_spec::<T>(w) <==> v == w,
{
    if erase_spec::<T>(v) == erase_spec::<T>(w) {
        T::lemma_encode_decode(v);
        T::lemma_encode_decode(w);
    }
}

} // verus!
