//! Object types as they are declared, before anything is resolved.

use crate::assoc::AssocMap;
use crate::type_reference::TypeReference;
use vstd::prelude::*;

verus! {

/// A field is deprecated, with or without a reason.
#[derive(Debug, PartialEq, Eq)]
pub struct Deprecated {
    pub reason: Option<String>,
}

impl Clone for Deprecated {
    fn clone(&self) -> (r: Self)
        ensures
            r == *self,
    {
        match &self.reason {
            Some(reason) => Deprecated { reason: Some(reason.clone()) },
            None => Deprecated { reason: None },
        }
    }
}

/// What a deprecation says: nothing, deprecated, or deprecated for a reason.
pub open spec fn deprecation_of(d: Option<Deprecated>) -> Option<Option<Seq<char>>> {
    match d {
        Some(deprecated) => Some(crate::qualified::text_of(deprecated.reason)),
        None => None,
    }
}

/// A field as an object type declares it. Its type names custom types by
/// their local name.
#[derive(Debug, PartialEq, Eq)]
pub struct FieldDefinition {
    pub name: String,
    pub field_type: TypeReference<String>,
    pub description: Option<String>,
    pub deprecated: Option<Deprecated>,
}

/// A declared GraphQL type name, as the name sanitizer left it: the
/// sanitizer makes an identifier of a declared name, or rejects the name.
#[derive(Debug, PartialEq, Eq)]
pub enum GraphQlTypeName {
    /// The identifier that was made of the declared name.
    Identifier(String),
    /// The declared name, of which no identifier could be made.
    Invalid(String),
}

/// The fields that together form one federation key.
#[derive(Debug, PartialEq, Eq)]
pub struct ApolloFederationObjectKey {
    pub fields: Vec<String>,
}

#[derive(Debug, PartialEq, Eq)]
pub struct ObjectApolloFederationConfig {
    pub keys: Vec<ApolloFederationObjectKey>,
}

/// How an object type shows in the GraphQL schema.
#[derive(Debug, PartialEq, Eq)]
pub struct ObjectTypeGraphQLConfiguration {
    pub output_type_name: Option<GraphQlTypeName>,
    pub input_type_name: Option<GraphQlTypeName>,
    pub apollo_federation: Option<ObjectApolloFederationConfig>,
}

/// The column that a field is read from.
#[derive(Debug, PartialEq, Eq)]
pub struct ColumnFieldMapping {
    pub name: String,
}

/// Where a field's values come from. Today a field can only be a column.
#[derive(Debug, PartialEq, Eq)]
pub enum FieldMapping {
    Column(ColumnFieldMapping),
}

/// The column that a declared field mapping names.
pub open spec fn declared_column(m: FieldMapping) -> Seq<char> {
    match m {
        FieldMapping::Column(column) => column.name@,
    }
}

/// A declaration that an object type is stored as one object type of one
/// data connector. Fields without an entry in `field_mapping` are stored in
/// the column of their own name.
#[derive(Debug)]
pub struct DataConnectorTypeMapping {
    pub data_connector_name: String,
    pub data_connector_object_type: String,
    pub field_mapping: AssocMap<String, FieldMapping>,
}

/// An object type as it is declared.
#[derive(Debug)]
pub struct ObjectTypeV1 {
    pub name: String,
    pub fields: Vec<FieldDefinition>,
    pub global_id_fields: Option<Vec<String>>,
    pub graphql: Option<ObjectTypeGraphQLConfiguration>,
    pub description: Option<String>,
    pub data_connector_type_mapping: Vec<DataConnectorTypeMapping>,
}

/// An object type and the subgraph that declares it.
#[derive(Debug)]
pub struct QualifiedObject {
    pub subgraph: String,
    pub object: ObjectTypeV1,
}

/// All the declared object types, in the order of their declaration.
#[derive(Debug)]
pub struct MetadataAccessor {
    pub object_types: Vec<QualifiedObject>,
}

} // verus!
