//! The registry of chains: which factory serves which chain name.
//!
//! The functions here decide what a handler stores, removes and reports;
//! reading and writing the registry itself is left to the caller.

use vstd::prelude::*;
use crate::answer::{attr, attribute_views, response, Answer, AnswerView, Attribute, AttributeView};

verus! {

/// One registered chain.
#[derive(Clone, Debug, PartialEq, Eq)]
pub struct DropInstance {
    pub name: String,
    pub factory_addr: String,
}

/// Mathematical model of a [`DropInstance`].
pub struct DropInstanceView {
    pub name: Seq<char>,
    pub factory_addr: Seq<char>,
}

impl View for DropInstance {
    type V = DropInstanceView;

    open spec fn view(&self) -> DropInstanceView {
        DropInstanceView { name: self.name@, factory_addr: self.factory_addr@ }
    }
}

/// The models of a sequence of chains.
pub open spec fn instance_views(chains: Seq<DropInstance>) -> Seq<DropInstanceView> {
    Seq::new(chains.len(), |i: int| chains[i]@)
}

/// The models of a sequence of registry items, each a key with the chain
/// stored under it.
pub open spec fn item_views(items: Seq<(String, DropInstance)>) -> Seq<
    (Seq<char>, DropInstanceView),
> {
    Seq::new(items.len(), |i: int| (items[i].0@, items[i].1@))
}

/// The models of a sequence of names.
pub open spec fn name_views(names: Seq<String>) -> Seq<Seq<char>> {
    Seq::new(names.len(), |i: int| names[i]@)
}

/// The report of an instantiation by `sender`, who becomes the owner.
pub fn instantiate(contract_name: &str, sender: &str) -> (r: Answer)
    ensures
        r@ == (AnswerView {
            ty: "instantiate"@,
            contract_name: contract_name@,
            attrs: seq![AttributeView { key: "owner"@, value: sender@ }],
        }),
{
    let mut attrs: Vec<Attribute> = Vec::new();
    attrs.push(attr("owner", sender));
    let r = response("instantiate", contract_name, attrs);
    assert(r@.attrs =~= seq![AttributeView { key: "owner"@, value: sender@ }]);
    r
}

/// The answer to a query for the chain `name`, from what the registry
/// holds under that name: the name asked for, with the stored factory.
pub fn query_chain(name: String, stored: DropInstance) -> (r: DropInstance)
    ensures
        r@ == (DropInstanceView { name: name@, factory_addr: stored@.factory_addr }),
{
    DropInstance { name, factory_addr: stored.factory_addr }
}

/// The answer to a query for all chains, from the items of the registry in
/// ascending key order: each chain under the name of its key.
pub fn query_chains(items: Vec<(String, DropInstance)>) -> (r: Vec<DropInstance>)
    ensures
        r@.len() == items@.len(),
        forall|i: int|
            0 <= i < items@.len() ==> (#[trigger] r@[i])@ == (DropInstanceView {
                name: items@[i].0@,
                factory_addr: items@[i].1@.factory_addr,
            }),
{
    let mut out: Vec<DropInstance> = Vec::new();
    let mut i: usize = 0;
    while i < items.len()
        invariant
            i <= items.len(),
            out@.len() == i,
            forall|j: int|
                0 <= j < i ==> (#[trigger] out@[j])@ == (DropInstanceView {
                    name: items@[j].0@,
                    factory_addr: items@[j].1@.factory_addr,
                }),
        decreases items.len() - i,
    {
        out.push(
            DropInstance { name: items[i].0.clone(), factory_addr: items[i].1.factory_addr.clone() },
        );
        i += 1;
    }
    out
}

/// What removing chains reports: one `remove` attribute per name, in the
/// order given. The names are the keys to remove.
pub fn execute_remove_chains(contract_name: &str, names: &Vec<String>) -> (r: Answer)
    ensures
        r@.ty == "execute-remove-chains"@,
        r@.contract_name == contract_name@,
        r@.attrs.len() == names@.len(),
        forall|i: int|
            0 <= i < names@.len() ==> (#[trigger] r@.attrs[i]) == (AttributeView {
                key: "remove"@,
                value: names@[i]@,
            }),
{
    let mut attrs: Vec<Attribute> = Vec::new();
    let mut i: usize = 0;
    while i < names.len()
        invariant
            i <= names.len(),
            attrs@.len() == i,
            forall|j: int|
                0 <= j < i ==> (#[trigger] attrs@[j])@ == (AttributeView {
                    key: "remove"@,
                    value: names@[j]@,
                }),
        decreases names.len() - i,
    {
        attrs.push(attr("remove", names[i].as_str()));
        i += 1;
    }
    response("execute-remove-chains", contract_name, attrs)
}

/// What adding chains stores and reports.
#[derive(Clone, Debug, PartialEq, Eq)]
pub struct AddChains {
    /// The chains to store, each under its own name, in the order given.
    pub writes: Vec<DropInstance>,
    pub answer: Answer,
}

/// What adding chains stores and reports: every chain is stored under its
/// name, and there is one `add` attribute per chain, in the order given.
pub fn execute_add_chains(contract_name: &str, chains: Vec<DropInstance>) -> (r: AddChains)
    ensures
        instance_views(r.writes@) == instance_views(chains@),
        r.answer@.ty == "execute-add-chains"@,
        r.answer@.contract_name == contract_name@,
        r.answer@.attrs.len() == chains@.len(),
        forall|i: int|
            0 <= i < chains@.len() ==> (#[trigger] r.answer@.attrs[i]) == (AttributeView {
                key: "add"@,
                value: chains@[i]@.name,
            }),
{
    let mut attrs: Vec<Attribute> = Vec::new();
    let mut i: usize = 0;
    while i < chains.len()
        invariant
            i <= chains.len(),
            attrs@.len() == i,
            forall|j: int|
                0 <= j < i ==> (#[trigger] attrs@[j])@ == (AttributeView {
                    key: "add"@,
                    value: chains@[j]@.name,
                }),
        decreases chains.len() - i,
    {
        attrs.push(attr("add", chains[i].name.as_str()));
        i += 1;
    }
    let answer = response("execute-add-chains", contract_name, attrs);
    AddChains { writes: chains, answer }
}

} // verus!
