//! References to types, as fields declare them and as resolution leaves them.
//!
//! One shape serves both: `TypeReference<String>` names custom types by their
//! local name, `TypeReference<Qualified>` by their qualified name.

use crate::qualified::{Qualified, QualifiedName};
use vstd::prelude::*;

verus! {

/// The types that exist in every subgraph.
#[derive(Clone, Copy, Debug, PartialEq, Eq, Hash)]
pub enum InbuiltType {
    ID,
    Int,
    Float,
    Boolean,
    String,
}

#[derive(Debug, PartialEq, Eq)]
pub enum TypeName<N> {
    Inbuilt(InbuiltType),
    Custom(N),
}

#[derive(Debug, PartialEq, Eq)]
pub enum BaseType<N> {
    Named(TypeName<N>),
    List(Box<TypeReference<N>>),
}

#[derive(Debug, PartialEq, Eq)]
pub struct TypeReference<N> {
    pub underlying_type: BaseType<N>,
    pub nullable: bool,
}

pub open spec fn type_name_view<N: View>(n: TypeName<N>) -> TypeName<N::V> {
    match n {
        TypeName::Inbuilt(t) => TypeName::Inbuilt(t),
        TypeName::Custom(c) => TypeName::Custom(c@),
    }
}

pub open spec fn base_type_view<N: View>(b: BaseType<N>) -> BaseType<N::V>
    decreases b,
{
    match b {
        BaseType::Named(n) => BaseType::Named(type_name_view(n)),
        BaseType::List(e) => BaseType::List(Box::new(type_reference_view(*e))),
    }
}

pub open spec fn type_reference_view<N: View>(t: TypeReference<N>) -> TypeReference<N::V>
    decreases t,
{
    TypeReference { underlying_type: base_type_view(t.underlying_type), nullable: t.nullable }
}

impl<N: View> View for TypeReference<N> {
    type V = TypeReference<N::V>;

    open spec fn view(&self) -> TypeReference<N::V> {
        type_reference_view(*self)
    }
}

/// A type name seen from `subgraph`: an inbuilt type is the same everywhere, a
/// custom type is the one of that name in `subgraph`.
pub open spec fn qualified_type_name(n: TypeName<Seq<char>>, subgraph: Seq<char>) -> TypeName<
    QualifiedName,
> {
    match n {
        TypeName::Inbuilt(t) => TypeName::Inbuilt(t),
        TypeName::Custom(c) => TypeName::Custom(QualifiedName { subgraph, name: c }),
    }
}

pub open spec fn qualified_base_type(b: BaseType<Seq<char>>, subgraph: Seq<char>) -> BaseType<
    QualifiedName,
>
    decreases b,
{
    match b {
        BaseType::Named(n) => BaseType::Named(qualified_type_name(n, subgraph)),
        BaseType::List(e) => BaseType::List(Box::new(qualified_type_reference(*e, subgraph))),
    }
}

/// A type reference seen from `subgraph`: the same shape and nullability, with
/// each custom type name qualified by `subgraph`.
pub open spec fn qualified_type_reference(
    t: TypeReference<Seq<char>>,
    subgraph: Seq<char>,
) -> TypeReference<QualifiedName>
    decreases t,
{
    TypeReference {
        underlying_type: qualified_base_type(t.underlying_type, subgraph),
        nullable: t.nullable,
    }
}

fn mk_qualified_type_name(name: &TypeName<String>, subgraph: &str) -> (r: TypeName<Qualified>)
    ensures
        type_name_view(r) == qualified_type_name(type_name_view(*name), subgraph@),
{
    match name {
        TypeName::Inbuilt(t) => TypeName::Inbuilt(*t),
        TypeName::Custom(c) => TypeName::Custom(Qualified::new(subgraph.to_owned(), c.clone())),
    }
}

fn mk_qualified_base_type(base_type: &BaseType<String>, subgraph: &str) -> (r: BaseType<Qualified>)
    ensures
        base_type_view(r) == qualified_base_type(base_type_view(*base_type), subgraph@),
    decreases base_type,
{
    match base_type {
        BaseType::Named(n) => BaseType::Named(mk_qualified_type_name(n, subgraph)),
        BaseType::List(e) => BaseType::List(Box::new(mk_qualified_type_reference(&**e, subgraph))),
    }
}

/// Qualifies a declared type reference by the subgraph that declares it.
pub fn mk_qualified_type_reference(type_reference: &TypeReference<String>, subgraph: &str) -> (r:
    TypeReference<Qualified>)
    ensures
        r@ == qualified_type_reference(type_reference@, subgraph@),
    decreases type_reference,
{
    TypeReference {
        underlying_type: mk_qualified_base_type(&type_reference.underlying_type, subgraph),
        nullable: type_reference.nullable,
    }
}

} // verus!
