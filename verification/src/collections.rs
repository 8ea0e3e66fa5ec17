//! The two collections from outside crates that resolved object types hold:
//! the ordered table of fields and the non-empty list. Nothing in this file
//! is proved: each contract says what the crate's documentation and source
//! say of the one call in the body.

use crate::types::{FieldDefinition, ResolvedApolloFederationObjectKey};
use indexmap::IndexMap;
use nonempty::NonEmpty;
use vstd::prelude::*;

verus! {

/// `indexmap::IndexMap`, the hash table that keeps its entries in the order
/// in which they were put in. Nothing is known of what is inside one but
/// through the functions below.
#[verifier::external_type_specification]
#[verifier::external_body]
#[verifier::reject_recursive_types(K)]
#[verifier::reject_recursive_types(V)]
#[verifier::reject_recursive_types(S)]
pub struct ExIndexMap<K, V, S>(IndexMap<K, V, S>);

/// `nonempty::NonEmpty`, the list with at least one element. Nothing is
/// known of what is inside one but through the functions below.
#[verifier::external_type_specification]
#[verifier::external_body]
#[verifier::reject_recursive_types(T)]
pub struct ExNonEmpty<T>(NonEmpty<T>);

/// The entries of a table of fields in the table's order: each field's name,
/// as text, and its definition.
pub uninterp spec fn field_entries(m: IndexMap<String, FieldDefinition>) -> Seq<
    (Seq<char>, FieldDefinition),
>;

/// The names that a non-empty list of names holds, first to last.
pub uninterp spec fn listed_names(n: NonEmpty<String>) -> Seq<Seq<char>>;

/// The keys that a non-empty list of federation keys holds, first to last.
pub uninterp spec fn listed_keys(n: NonEmpty<ResolvedApolloFederationObjectKey>) -> Seq<
    ResolvedApolloFederationObjectKey,
>;

/// The names of the entries `s`, in order.
pub open spec fn entry_names(s: Seq<(Seq<char>, FieldDefinition)>) -> Seq<Seq<char>> {
    s.map_values(|e: (Seq<char>, FieldDefinition)| e.0)
}

/// `IndexMap::new`: a table without entries.
#[verifier::external_body]
pub(crate) fn new_fields() -> (m: IndexMap<String, FieldDefinition>)
    ensures
        field_entries(m) == Seq::<(Seq<char>, FieldDefinition)>::empty(),
{
    IndexMap::new()
}

/// `IndexMap::insert`: where the table has no entry of that name, the new
/// entry becomes the last one and nothing is handed back; where it has one,
/// that entry keeps its place and its name, takes the new definition, and
/// the definition that it had is handed back.
#[verifier::external_body]
pub(crate) fn insert_field(
    m: &mut IndexMap<String, FieldDefinition>,
    name: String,
    definition: FieldDefinition,
) -> (r: Option<FieldDefinition>)
    ensures
        r is None <==> !entry_names(field_entries(*old(m))).contains(name@),
        r is None ==> field_entries(*final(m)) == field_entries(*old(m)).push((name@, definition)),
        r matches Some(previous) ==> exists|i: int|
            0 <= i < field_entries(*old(m)).len() && (#[trigger] field_entries(*old(m))[i]) == (
                name@,
                previous,
            ) && field_entries(*final(m)) == field_entries(*old(m)).update(i, (name@, definition)),
{
    m.insert(name, definition)
}

/// `IndexMap::contains_key`: whether the table has an entry of that name.
#[verifier::external_body]
pub(crate) fn has_field(m: &IndexMap<String, FieldDefinition>, name: &str) -> (r: bool)
    ensures
        r == entry_names(field_entries(*m)).contains(name@),
{
    m.contains_key(name)
}

/// `IndexMap::keys`: the names of the entries in the table's order. A table
/// holds each name once.
#[verifier::external_body]
pub(crate) fn field_names(m: &IndexMap<String, FieldDefinition>) -> (r: Vec<String>)
    ensures
        r@.map_values(|s: String| s@) == entry_names(field_entries(*m)),
        r@.map_values(|s: String| s@).no_duplicates(),
{
    m.keys().cloned().collect()
}

/// `NonEmpty::from_vec` on names: nothing for an empty list, else the list
/// with the same names in the same order.
#[verifier::external_body]
pub(crate) fn names_from_vec(v: Vec<String>) -> (r: Option<NonEmpty<String>>)
    ensures
        r is Some <==> v@.len() > 0,
        r matches Some(n) ==> listed_names(n) == v@.map_values(|s: String| s@),
{
    NonEmpty::from_vec(v)
}

/// `NonEmpty::from_vec` on federation keys: nothing for an empty list, else
/// the list with the same keys in the same order.
#[verifier::external_body]
pub(crate) fn keys_from_vec(v: Vec<ResolvedApolloFederationObjectKey>) -> (r: Option<
    NonEmpty<ResolvedApolloFederationObjectKey>,
>)
    ensures
        r is Some <==> v@.len() > 0,
        r matches Some(n) ==> listed_keys(n) == v@,
{
    NonEmpty::from_vec(v)
}

} // verus!
