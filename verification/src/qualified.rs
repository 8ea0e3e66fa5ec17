//! Qualified names: a name together with the subgraph that declares it.

use crate::assoc::Key;
use vstd::prelude::*;

verus! {

/// What a qualified name says: the subgraph and the local name, as text.
pub struct QualifiedName {
    pub subgraph: Seq<char>,
    pub name: Seq<char>,
}

/// The name of a type or of a data connector inside a subgraph. Two qualified
/// names are the same when both parts are.
#[derive(Debug, PartialEq, Eq, PartialOrd, Ord, Hash)]
pub struct Qualified {
    pub subgraph: String,
    pub name: String,
}

impl View for Qualified {
    type V = QualifiedName;

    open spec fn view(&self) -> QualifiedName {
        QualifiedName { subgraph: self.subgraph@, name: self.name@ }
    }
}

impl Qualified {
    pub fn new(subgraph: String, name: String) -> (r: Self)
        ensures
            r@ == (QualifiedName { subgraph: subgraph@, name: name@ }),
            r.subgraph == subgraph,
            r.name == name,
    {
        Qualified { subgraph, name }
    }
}

impl Clone for Qualified {
    fn clone(&self) -> (r: Self)
        ensures
            r == *self,
    {
        Qualified { subgraph: self.subgraph.clone(), name: self.name.clone() }
    }
}

impl Key for Qualified {
    fn same(&self, other: &Self) -> (r: bool) {
        self.subgraph == other.subgraph && self.name == other.name
    }
}

/// The text of an optional string.
pub open spec fn text_of(s: Option<String>) -> Option<Seq<char>> {
    match s {
        Some(t) => Some(t@),
        None => None,
    }
}

/// The texts of a list of strings.
pub open spec fn texts_of(s: Seq<String>) -> Seq<Seq<char>> {
    s.map_values(|t: String| t@)
}

} // verus!
