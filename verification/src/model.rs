//! What resolving an object type means, as functions of the declaration:
//! which error comes first, what the resolved type holds, and what is
//! registered on the way.

use crate::definitions::{
    deprecation_of, ApolloFederationObjectKey, FieldDefinition, GraphQlTypeName,
    ObjectApolloFederationConfig, ObjectTypeGraphQLConfiguration, ObjectTypeV1,
};
use crate::error::ErrorView;
use crate::qualified::{text_of, texts_of, QualifiedName};
use crate::search::first_index;
use crate::type_reference::qualified_type_reference;
use crate::types::{FieldDefinitionView, ObjectTypeRepresentationView};
use vstd::prelude::*;

verus! {

/// The name that a declared field may not have beside global id fields.
pub open spec fn id_field_name() -> Seq<char> {
    "id"@
}

/// A declared field, resolved in `subgraph`.
pub open spec fn resolved_field(field: FieldDefinition, subgraph: Seq<char>) -> FieldDefinitionView {
    FieldDefinitionView {
        field_type: qualified_type_reference(field.field_type@, subgraph),
        description: text_of(field.description),
        deprecated: deprecation_of(field.deprecated),
    }
}

/// The names of the declared fields, in the order of declaration.
pub open spec fn declared_field_names(fields: Seq<FieldDefinition>) -> Seq<Seq<char>> {
    fields.map_values(|f: FieldDefinition| f.name@)
}

/// The declared fields, each resolved in `subgraph` and under its name.
pub open spec fn resolved_fields(fields: Seq<FieldDefinition>, subgraph: Seq<char>) -> Seq<
    (Seq<char>, FieldDefinitionView),
> {
    fields.map_values(|f: FieldDefinition| (f.name@, resolved_field(f, subgraph)))
}

/// Whether the name at `j` stands already before `j`.
pub open spec fn repeats_at(names: Seq<Seq<char>>) -> spec_fn(int) -> bool {
    |j: int| names.take(j).contains(names[j])
}

/// Whether the name that `wanted` holds at `j` is none of `names`.
pub open spec fn missing_at(names: Seq<Seq<char>>, wanted: Seq<Seq<char>>) -> spec_fn(int) -> bool {
    |j: int| !names.contains(wanted[j])
}

/// The error for the first field whose name an earlier field has.
pub open spec fn duplicate_field_error(names: Seq<Seq<char>>, object_type: QualifiedName) -> Option<
    ErrorView,
> {
    match first_index(names.len() as int, repeats_at(names)) {
        Some(j) => Some(
            ErrorView::DuplicateFieldDefinition {
                object_type_name: object_type,
                field_name: names[j],
            },
        ),
        None => None,
    }
}

/// The declared global id fields, as text.
pub open spec fn declared_global_id_fields(ids: Option<Vec<String>>) -> Option<Seq<Seq<char>>> {
    match ids {
        Some(list) => Some(texts_of(list@)),
        None => None,
    }
}

/// The error that the declared global id fields give: a field named `id`
/// beside them, or else the first of them that is no field.
pub open spec fn global_id_error(
    names: Seq<Seq<char>>,
    ids: Option<Seq<Seq<char>>>,
    object_type: QualifiedName,
) -> Option<ErrorView> {
    match ids {
        None => None,
        Some(list) => if list.len() > 0 && names.contains(id_field_name()) {
            Some(ErrorView::IdFieldConflictingGlobalId { object_type_name: object_type })
        } else {
            match first_index(list.len() as int, missing_at(names, list)) {
                Some(k) => Some(
                    ErrorView::UnknownFieldInGlobalId {
                        field_name: list[k],
                        object_type_name: object_type,
                    },
                ),
                None => None,
            }
        },
    }
}

/// The identifier that was made of a declared GraphQL name, if one was.
pub open spec fn name_made(n: Option<GraphQlTypeName>) -> Option<Seq<char>> {
    match n {
        Some(GraphQlTypeName::Identifier(name)) => Some(name@),
        _ => None,
    }
}

/// The error for a declared GraphQL name of which no identifier was made.
pub open spec fn name_error(n: Option<GraphQlTypeName>) -> Option<ErrorView> {
    match n {
        Some(GraphQlTypeName::Invalid(raw)) => Some(ErrorView::InvalidGraphQlName { name: raw@ }),
        _ => None,
    }
}

/// The declared federation keys, each as the names of its fields.
pub open spec fn declared_keys(config: ObjectApolloFederationConfig) -> Seq<Seq<Seq<char>>> {
    config.keys@.map_values(|k: ApolloFederationObjectKey| texts_of(k.fields@))
}

/// The error that one federation key gives: its first field that is no field
/// of the object type, or else that it has no field at all.
pub open spec fn key_error(names: Seq<Seq<char>>, key: Seq<Seq<char>>, object_type: QualifiedName) -> Option<
    ErrorView,
> {
    match first_index(key.len() as int, missing_at(names, key)) {
        Some(k) => Some(
            ErrorView::UnknownFieldInApolloFederationKey { field_name: key[k], object_type },
        ),
        None => if key.len() == 0 {
            Some(ErrorView::EmptyFieldsInApolloFederationConfigForObject { object_type })
        } else {
            None
        },
    }
}

/// Whether the key at `i` gives an error.
pub open spec fn key_fails_at(
    names: Seq<Seq<char>>,
    keys: Seq<Seq<Seq<char>>>,
    object_type: QualifiedName,
) -> spec_fn(int) -> bool {
    |i: int| key_error(names, keys[i], object_type) is Some
}

/// The error that a federation configuration gives: that of its first key
/// that gives one, or else that it has no key at all.
pub open spec fn federation_error(
    names: Seq<Seq<char>>,
    keys: Seq<Seq<Seq<char>>>,
    object_type: QualifiedName,
) -> Option<ErrorView> {
    match first_index(keys.len() as int, key_fails_at(names, keys, object_type)) {
        Some(i) => key_error(names, keys[i], object_type),
        None => if keys.len() == 0 {
            Some(ErrorView::EmptyKeysInApolloFederationConfigForObject { object_type })
        } else {
            None
        },
    }
}

/// The declared federation keys of a GraphQL configuration.
pub open spec fn declared_federation(graphql: Option<ObjectTypeGraphQLConfiguration>) -> Option<
    Seq<Seq<Seq<char>>>,
> {
    match graphql {
        Some(config) => match config.apollo_federation {
            Some(federation) => Some(declared_keys(federation)),
            None => None,
        },
        None => None,
    }
}

/// The GraphQL name of the object type as an output type, if one was made.
pub open spec fn output_name(graphql: Option<ObjectTypeGraphQLConfiguration>) -> Option<Seq<char>> {
    match graphql {
        Some(config) => name_made(config.output_type_name),
        None => None,
    }
}

/// The GraphQL name of the object type as an input type, if one was made.
pub open spec fn input_name(graphql: Option<ObjectTypeGraphQLConfiguration>) -> Option<Seq<char>> {
    match graphql {
        Some(config) => name_made(config.input_type_name),
        None => None,
    }
}

/// The error that the GraphQL configuration gives: the output name, then the
/// input name, then the federation keys.
pub open spec fn graphql_error(
    names: Seq<Seq<char>>,
    graphql: Option<ObjectTypeGraphQLConfiguration>,
    object_type: QualifiedName,
) -> Option<ErrorView> {
    match graphql {
        None => None,
        Some(config) => if name_error(config.output_type_name) is Some {
            name_error(config.output_type_name)
        } else if name_error(config.input_type_name) is Some {
            name_error(config.input_type_name)
        } else {
            match config.apollo_federation {
                Some(federation) => federation_error(names, declared_keys(federation), object_type),
                None => None,
            }
        },
    }
}

/// The error that claiming the two GraphQL names gives: the output name is
/// claimed first, so an input name equal to it is taken already.
pub open spec fn claim_error(
    claimed: Set<Seq<char>>,
    output: Option<Seq<char>>,
    input: Option<Seq<char>>,
) -> Option<ErrorView> {
    if output is Some && claimed.contains(output->0) {
        Some(ErrorView::ConflictingGraphQlType { graphql_type_name: output->0 })
    } else if input is Some && (claimed.contains(input->0) || output == input) {
        Some(ErrorView::ConflictingGraphQlType { graphql_type_name: input->0 })
    } else {
        None
    }
}

/// `claimed` with the name `n`, where there is one.
pub open spec fn with_name(claimed: Set<Seq<char>>, n: Option<Seq<char>>) -> Set<Seq<char>> {
    match n {
        Some(name) => claimed.insert(name),
        None => claimed,
    }
}

/// The error that the declaration gives before any GraphQL name is claimed.
pub open spec fn declaration_error(definition: ObjectTypeV1, object_type: QualifiedName) -> Option<
    ErrorView,
> {
    let names = declared_field_names(definition.fields@);
    let ids = declared_global_id_fields(definition.global_id_fields);
    if duplicate_field_error(names, object_type) is Some {
        duplicate_field_error(names, object_type)
    } else if global_id_error(names, ids, object_type) is Some {
        global_id_error(names, ids, object_type)
    } else {
        graphql_error(names, definition.graphql, object_type)
    }
}

/// The first error that resolving the declaration gives, if it gives one, in
/// this order: a repeated field name; the global id fields; the GraphQL
/// names and the federation keys; a GraphQL name that is claimed already.
pub open spec fn object_type_error(
    definition: ObjectTypeV1,
    object_type: QualifiedName,
    claimed: Set<Seq<char>>,
) -> Option<ErrorView> {
    if declaration_error(definition, object_type) is Some {
        declaration_error(definition, object_type)
    } else {
        claim_error(claimed, output_name(definition.graphql), input_name(definition.graphql))
    }
}

/// The resolved object type that a declaration without error gives.
pub open spec fn resolved_object_type(definition: ObjectTypeV1, subgraph: Seq<char>) -> ObjectTypeRepresentationView {
    ObjectTypeRepresentationView {
        fields: resolved_fields(definition.fields@, subgraph),
        global_id_fields: match declared_global_id_fields(definition.global_id_fields) {
            Some(list) => list,
            None => Seq::empty(),
        },
        apollo_federation_config: declared_federation(definition.graphql),
        graphql_output_type_name: output_name(definition.graphql),
        graphql_input_type_name: input_name(definition.graphql),
        description: text_of(definition.description),
    }
}

/// The claimed GraphQL names after the declaration was resolved: unchanged
/// where an error came before the names were claimed or the output name was
/// taken, else with both names.
pub open spec fn claimed_after(
    definition: ObjectTypeV1,
    object_type: QualifiedName,
    claimed: Set<Seq<char>>,
) -> Set<Seq<char>> {
    let output = output_name(definition.graphql);
    if declaration_error(definition, object_type) is Some || (output is Some && claimed.contains(
        output->0,
    )) {
        claimed
    } else {
        with_name(with_name(claimed, output), input_name(definition.graphql))
    }
}

/// Whether resolving the declaration enters the object type among those with
/// global ids: it declares at least one global id field, no field name is
/// repeated, and no field is named `id`.
pub open spec fn registers_global_id(definition: ObjectTypeV1, object_type: QualifiedName) -> bool {
    let names = declared_field_names(definition.fields@);
    &&& duplicate_field_error(names, object_type) is None
    &&& definition.global_id_fields matches Some(list)
    &&& list@.len() > 0
    &&& !names.contains(id_field_name())
}

/// Whether resolving the declaration enters the object type among the
/// federation entities: it declares federation keys, and nothing up to and
/// including them gives an error.
pub open spec fn registers_federation(definition: ObjectTypeV1, object_type: QualifiedName) -> bool {
    &&& declaration_error(definition, object_type) is None
    &&& declared_federation(definition.graphql) is Some
}

} // verus!
