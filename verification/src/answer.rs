//! What a handler reports back: the kind of action, the contract that
//! performed it, and a list of attributes.

use vstd::prelude::*;

verus! {

/// A key with its value.
#[derive(Clone, Debug, PartialEq, Eq)]
pub struct Attribute {
    pub key: String,
    pub value: String,
}

/// Mathematical model of an [`Attribute`].
pub struct AttributeView {
    pub key: Seq<char>,
    pub value: Seq<char>,
}

impl View for Attribute {
    type V = AttributeView;

    open spec fn view(&self) -> AttributeView {
        AttributeView { key: self.key@, value: self.value@ }
    }
}

/// The models of a sequence of attributes.
pub open spec fn attribute_views(attrs: Seq<Attribute>) -> Seq<AttributeView> {
    Seq::new(attrs.len(), |i: int| attrs[i]@)
}

/// An attribute from its key and its value.
pub fn attr(key: &str, value: &str) -> (r: Attribute)
    ensures
        r@ == (AttributeView { key: key@, value: value@ }),
{
    Attribute { key: key.to_owned(), value: value.to_owned() }
}

/// The report of a handler.
#[derive(Clone, Debug, PartialEq, Eq)]
pub struct Answer {
    /// The kind of action.
    pub ty: String,
    pub contract_name: String,
    pub attrs: Vec<Attribute>,
}

/// Mathematical model of an [`Answer`].
pub struct AnswerView {
    pub ty: Seq<char>,
    pub contract_name: Seq<char>,
    pub attrs: Seq<AttributeView>,
}

impl View for Answer {
    type V = AnswerView;

    open spec fn view(&self) -> AnswerView {
        AnswerView {
            ty: self.ty@,
            contract_name: self.contract_name@,
            attrs: attribute_views(self.attrs@),
        }
    }
}

/// The report of an action of kind `ty` by `contract_name`.
pub fn response(ty: &str, contract_name: &str, attrs: Vec<Attribute>) -> (r: Answer)
    ensures
        r@ == (AnswerView {
            ty: ty@,
            contract_name: contract_name@,
            attrs: attribute_views(attrs@),
        }),
{
    Answer { ty: ty.to_owned(), contract_name: contract_name.to_owned(), attrs }
}

} // verus!
