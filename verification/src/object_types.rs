//! Resolving declared object types.

use crate::assoc::AssocMap;
use crate::name_set::NameSet;
use crate::collections::{
    entry_names, field_entries, has_field, insert_field, keys_from_vec, listed_names,
    names_from_vec, new_fields,
};
use crate::definitions;
use crate::definitions::{
    ApolloFederationObjectKey, GraphQlTypeName, ObjectApolloFederationConfig, ObjectTypeV1,
};
use crate::error::{Error, ErrorView};
use crate::model::{
    claimed_after, declared_field_names, declared_global_id_fields, declared_keys,
    duplicate_field_error, federation_error, global_id_error, id_field_name, key_error,
    key_fails_at, missing_at, name_error, name_made, object_type_error, registers_federation,
    registers_global_id, repeats_at, resolved_field, resolved_fields, resolved_object_type,
};
use crate::qualified::{text_of, texts_of, Qualified};
use crate::search::{lemma_first_index_is, lemma_first_index_none};
use crate::type_reference::mk_qualified_type_reference;
use crate::types::{
    federation_index, federation_keys, field_views, global_id_index, FieldDefinition,
    ObjectTypeRepresentation, ResolvedApolloFederationObjectKey,
    ResolvedObjectApolloFederationConfig,
};
use indexmap::IndexMap;
use vstd::prelude::*;

verus! {

/// Resolves one declared field in `subgraph`: its type is qualified, its
/// description and deprecation are kept.
pub fn resolve_field(field: &definitions::FieldDefinition, subgraph: &str) -> (r: Result<
    FieldDefinition,
    Error,
>)
    ensures
        r matches Ok(definition) && definition@ == resolved_field(*field, subgraph@),
{
    Ok(
        FieldDefinition {
            field_type: mk_qualified_type_reference(&field.field_type, subgraph),
            description: field.description.clone(),
            deprecated: field.deprecated.clone(),
        },
    )
}

/// Claims a GraphQL type name, where there is one to claim.
pub fn store_new_graphql_type(
    existing_graphql_types: &mut NameSet,
    new_graphql_type: Option<&String>,
) -> (r: Result<(), Error>)
    ensures
        match new_graphql_type {
            None => r is Ok && final(existing_graphql_types)@ == old(existing_graphql_types)@,
            Some(name) => if old(existing_graphql_types)@.contains(name@) {
                &&& r matches Err(e)
                &&& e@ == (ErrorView::ConflictingGraphQlType { graphql_type_name: name@ })
                &&& final(existing_graphql_types)@ == old(existing_graphql_types)@
            } else {
                &&& r is Ok
                &&& final(existing_graphql_types)@ == old(existing_graphql_types)@.insert(name@)
            },
        },
{
    match new_graphql_type {
        Some(name) => {
            if !existing_graphql_types.insert(name.clone()) {
                assert(existing_graphql_types@ =~= old(existing_graphql_types)@);
                return Err(Error::ConflictingGraphQlType { graphql_type_name: name.clone() });
            }
        },
        None => {},
    }
    Ok(())
}

/// The table of the resolved fields, or the error for the first repeated name.
fn resolve_fields(
    fields: &Vec<definitions::FieldDefinition>,
    qualified_type_name: &Qualified,
    subgraph: &str,
) -> (r: Result<IndexMap<String, FieldDefinition>, Error>)
    ensures
        match r {
            Ok(table) => {
                &&& duplicate_field_error(declared_field_names(fields@), qualified_type_name@) is None
                &&& field_views(field_entries(table)) == resolved_fields(fields@, subgraph@)
                &&& entry_names(field_entries(table)) == declared_field_names(fields@)
            },
            Err(e) => duplicate_field_error(declared_field_names(fields@), qualified_type_name@)
                == Some(e@),
        },
{
    let ghost names = declared_field_names(fields@);
    let mut table = new_fields();
    let mut i: usize = 0;
    while i < fields.len()
        invariant
            i <= fields@.len(),
            names == declared_field_names(fields@),
            field_entries(table).len() == i,
            forall|j: int|
                0 <= j < i ==> (#[trigger] field_entries(table)[j]).0 == fields@[j].name@
                    && field_entries(table)[j].1@ == resolved_field(fields@[j], subgraph@),
            forall|j: int| 0 <= j < i ==> !#[trigger] repeats_at(names)(j),
        decreases fields@.len() - i,
    {
        let field = &fields[i];
        let definition = match resolve_field(field, subgraph) {
            Ok(definition) => definition,
            Err(e) => {
                return Err(e);
            },
        };
        let ghost before = field_entries(table);
        proof {
            assert(entry_names(before) =~= names.take(i as int));
        }
        let previous = insert_field(&mut table, field.name.clone(), definition);
        if previous.is_some() {
            proof {
                lemma_first_index_is(names.len() as int, repeats_at(names), i as int);
            }
            return Err(
                Error::DuplicateFieldDefinition {
                    object_type_name: qualified_type_name.clone(),
                    field_name: field.name.clone(),
                },
            );
        }
        i = i + 1;
    }
    proof {
        lemma_first_index_none(names.len() as int, repeats_at(names));
        assert(field_views(field_entries(table)) =~= resolved_fields(fields@, subgraph@));
        assert(entry_names(field_entries(table)) =~= names);
    }
    Ok(table)
}

/// The global id fields of the object type. Where there is at least one and
/// no field is named `id`, the object type is entered among those with
/// global ids, with no model yet.
#[verifier::loop_isolation(false)]
fn resolve_global_id_fields(
    global_id_fields: &Option<Vec<String>>,
    table: &IndexMap<String, FieldDefinition>,
    qualified_type_name: &Qualified,
    global_id_enabled_types: &mut AssocMap<Qualified, Vec<Qualified>>,
) -> (r: Result<Vec<String>, Error>)
    ensures
        match r {
            Ok(list) => {
                &&& global_id_error(
                    entry_names(field_entries(*table)),
                    declared_global_id_fields(*global_id_fields),
                    qualified_type_name@,
                ) is None
                &&& texts_of(list@) == match declared_global_id_fields(*global_id_fields) {
                    Some(declared) => declared,
                    None => Seq::empty(),
                }
            },
            Err(e) => global_id_error(
                entry_names(field_entries(*table)),
                declared_global_id_fields(*global_id_fields),
                qualified_type_name@,
            ) == Some(e@),
        },
        global_id_index(final(global_id_enabled_types)@) == if (*global_id_fields matches Some(list)
            && list@.len() > 0 && !entry_names(field_entries(*table)).contains(id_field_name())) {
            global_id_index(old(global_id_enabled_types)@).insert(
                qualified_type_name@,
                Seq::empty(),
            )
        } else {
            global_id_index(old(global_id_enabled_types)@)
        },
{
    let ghost names = entry_names(field_entries(*table));
    let mut resolved: Vec<String> = Vec::new();
    match global_id_fields {
        Some(list) => {
            let ghost wanted = texts_of(list@);
            if list.len() > 0 {
                if has_field(table, "id") {
                    return Err(
                        Error::IdFieldConflictingGlobalId {
                            object_type_name: qualified_type_name.clone(),
                        },
                    );
                }
                let models: Vec<Qualified> = Vec::new();
                global_id_enabled_types.insert(qualified_type_name.clone(), models);
                proof {
                    assert(models@.map_values(|q: Qualified| q@) =~= Seq::empty());
                    assert(global_id_index(global_id_enabled_types@) =~= global_id_index(
                        old(global_id_enabled_types)@,
                    ).insert(qualified_type_name@, Seq::empty()));
                }
            }
            let mut i: usize = 0;
            while i < list.len()
                invariant
                    i <= list@.len(),
                    names == entry_names(field_entries(*table)),
                    wanted == texts_of(list@),
                    resolved@.len() == i,
                    forall|j: int| 0 <= j < i ==> (#[trigger] resolved@[j])@ == wanted[j],
                    forall|j: int| 0 <= j < i ==> !#[trigger] missing_at(names, wanted)(j),
                decreases list@.len() - i,
            {
                let global_id_field = &list[i];
                if !has_field(table, global_id_field.as_str()) {
                    proof {
                        lemma_first_index_is(
                            wanted.len() as int,
                            missing_at(names, wanted),
                            i as int,
                        );
                    }
                    return Err(
                        Error::UnknownFieldInGlobalId {
                            field_name: global_id_field.clone(),
                            object_type_name: qualified_type_name.clone(),
                        },
                    );
                } else {
                    resolved.push(global_id_field.clone());
                }
                i = i + 1;
            }
            proof {
                lemma_first_index_none(wanted.len() as int, missing_at(names, wanted));
                assert(texts_of(resolved@) =~= wanted);
            }
        },
        None => {
            proof {
                assert(texts_of(resolved@) =~= Seq::empty());
            }
        },
    }
    Ok(resolved)
}

/// One federation key, each of its fields looked up in the table.
fn resolve_federation_key(
    key: &ApolloFederationObjectKey,
    table: &IndexMap<String, FieldDefinition>,
    qualified_type_name: &Qualified,
) -> (r: Result<ResolvedApolloFederationObjectKey, Error>)
    ensures
        match r {
            Ok(resolved) => {
                &&& key_error(
                    entry_names(field_entries(*table)),
                    texts_of(key.fields@),
                    qualified_type_name@,
                ) is None
                &&& listed_names(resolved.fields) == texts_of(key.fields@)
            },
            Err(e) => key_error(
                entry_names(field_entries(*table)),
                texts_of(key.fields@),
                qualified_type_name@,
            ) == Some(e@),
        },
{
    let ghost names = entry_names(field_entries(*table));
    let ghost wanted = texts_of(key.fields@);
    let mut resolved_key_fields: Vec<String> = Vec::new();
    let mut i: usize = 0;
    while i < key.fields.len()
        invariant
            i <= key.fields@.len(),
            names == entry_names(field_entries(*table)),
            wanted == texts_of(key.fields@),
            resolved_key_fields@.len() == i,
            forall|j: int| 0 <= j < i ==> (#[trigger] resolved_key_fields@[j])@ == wanted[j],
            forall|j: int| 0 <= j < i ==> !#[trigger] missing_at(names, wanted)(j),
        decreases key.fields@.len() - i,
    {
        let field = &key.fields[i];
        if !has_field(table, field.as_str()) {
            proof {
                lemma_first_index_is(wanted.len() as int, missing_at(names, wanted), i as int);
            }
            return Err(
                Error::UnknownFieldInApolloFederationKey {
                    field_name: field.clone(),
                    object_type: qualified_type_name.clone(),
                },
            );
        }
        resolved_key_fields.push(field.clone());
        i = i + 1;
    }
    proof {
        lemma_first_index_none(wanted.len() as int, missing_at(names, wanted));
        assert(texts_of(resolved_key_fields@) =~= wanted);
    }
    match names_from_vec(resolved_key_fields) {
        None => Err(
            Error::EmptyFieldsInApolloFederationConfigForObject {
                object_type: qualified_type_name.clone(),
            },
        ),
        Some(fields) => Ok(ResolvedApolloFederationObjectKey { fields }),
    }
}

/// The federation keys, each resolved against the table.
fn resolve_federation_config(
    config: &ObjectApolloFederationConfig,
    table: &IndexMap<String, FieldDefinition>,
    qualified_type_name: &Qualified,
) -> (r: Result<ResolvedObjectApolloFederationConfig, Error>)
    ensures
        match r {
            Ok(resolved) => {
                &&& federation_error(
                    entry_names(field_entries(*table)),
                    declared_keys(*config),
                    qualified_type_name@,
                ) is None
                &&& federation_keys(resolved) == declared_keys(*config)
            },
            Err(e) => federation_error(
                entry_names(field_entries(*table)),
                declared_keys(*config),
                qualified_type_name@,
            ) == Some(e@),
        },
{
    let ghost names = entry_names(field_entries(*table));
    let ghost keys = declared_keys(*config);
    let ghost fails = key_fails_at(names, keys, qualified_type_name@);
    let mut resolved_keys: Vec<ResolvedApolloFederationObjectKey> = Vec::new();
    let mut i: usize = 0;
    while i < config.keys.len()
        invariant
            i <= config.keys@.len(),
            names == entry_names(field_entries(*table)),
            keys == declared_keys(*config),
            fails == key_fails_at(names, keys, qualified_type_name@),
            resolved_keys@.len() == i,
            forall|j: int|
                0 <= j < i ==> listed_names((#[trigger] resolved_keys@[j]).fields) == keys[j],
            forall|j: int| 0 <= j < i ==> !#[trigger] fails(j),
        decreases config.keys@.len() - i,
    {
        match resolve_federation_key(&config.keys[i], table, qualified_type_name) {
            Ok(resolved_key) => {
                resolved_keys.push(resolved_key);
            },
            Err(e) => {
                proof {
                    assert(fails(i as int));
                    lemma_first_index_is(keys.len() as int, fails, i as int);
                }
                return Err(e);
            },
        }
        i = i + 1;
    }
    proof {
        lemma_first_index_none(keys.len() as int, fails);
    }
    match keys_from_vec(resolved_keys) {
        None => Err(
            Error::EmptyKeysInApolloFederationConfigForObject {
                object_type: qualified_type_name.clone(),
            },
        ),
        Some(keys_listed) => {
            let resolved = ResolvedObjectApolloFederationConfig { keys: keys_listed };
            proof {
                assert(federation_keys(resolved) =~= keys);
            }
            Ok(resolved)
        },
    }
}

/// The identifier that was made of a declared GraphQL name, or the error for
/// a name of which none was made.
fn graphql_name(declared: &Option<GraphQlTypeName>) -> (r: Result<Option<String>, Error>)
    ensures
        match r {
            Ok(name) => name_error(*declared) is None && text_of(name) == name_made(*declared),
            Err(e) => name_error(*declared) == Some(e@),
        },
{
    match declared {
        None => Ok(None),
        Some(GraphQlTypeName::Identifier(name)) => Ok(Some(name.clone())),
        Some(GraphQlTypeName::Invalid(raw)) => Err(Error::InvalidGraphQlName { name: raw.clone() }),
    }
}

/// Resolves one declared object type.
///
/// These rules are applied in this order, and the first that is broken
/// gives the error:
/// no two fields share a name; beside global id fields no field is named
/// `id`, and each global id field is a field; an identifier was made of each
/// declared GraphQL name; each federation key names fields of the type and at
/// least one, and there is at least one key; no GraphQL name is claimed
/// already.
///
/// On the way the object type is entered among those with global ids and
/// among the federation entities where the declaration asks for it, and its
/// GraphQL names are claimed.
pub fn resolve_object_type(
    object_type_definition: &ObjectTypeV1,
    existing_graphql_types: &mut NameSet,
    qualified_type_name: &Qualified,
    subgraph: &str,
    global_id_enabled_types: &mut AssocMap<Qualified, Vec<Qualified>>,
    apollo_federation_entity_enabled_types: &mut AssocMap<Qualified, Option<Qualified>>,
) -> (r: Result<ObjectTypeRepresentation, Error>)
    ensures
        match r {
            Ok(resolved) => {
                &&& object_type_error(
                    *object_type_definition,
                    qualified_type_name@,
                    old(existing_graphql_types)@,
                ) is None
                &&& resolved@ == resolved_object_type(*object_type_definition, subgraph@)
            },
            Err(e) => object_type_error(
                *object_type_definition,
                qualified_type_name@,
                old(existing_graphql_types)@,
            ) == Some(e@),
        },
        final(existing_graphql_types)@ == claimed_after(
            *object_type_definition,
            qualified_type_name@,
            old(existing_graphql_types)@,
        ),
        global_id_index(final(global_id_enabled_types)@) == if registers_global_id(
            *object_type_definition,
            qualified_type_name@,
        ) {
            global_id_index(old(global_id_enabled_types)@).insert(
                qualified_type_name@,
                Seq::empty(),
            )
        } else {
            global_id_index(old(global_id_enabled_types)@)
        },
        federation_index(final(apollo_federation_entity_enabled_types)@) == if registers_federation(
            *object_type_definition,
            qualified_type_name@,
        ) {
            federation_index(old(apollo_federation_entity_enabled_types)@).insert(
                qualified_type_name@,
                None,
            )
        } else {
            federation_index(old(apollo_federation_entity_enabled_types)@)
        },
{
    let resolved_fields = match resolve_fields(
        &object_type_definition.fields,
        qualified_type_name,
        subgraph,
    ) {
        Ok(table) => table,
        Err(e) => {
            return Err(e);
        },
    };
    let resolved_global_id_fields = match resolve_global_id_fields(
        &object_type_definition.global_id_fields,
        &resolved_fields,
        qualified_type_name,
        global_id_enabled_types,
    ) {
        Ok(list) => list,
        Err(e) => {
            return Err(e);
        },
    };
    let (graphql_type_name, graphql_input_type_name, apollo_federation_config) =
        match &object_type_definition.graphql {
        None => (None, None, None),
        Some(graphql) => {
            let graphql_type_name = match graphql_name(&graphql.output_type_name) {
                Ok(name) => name,
                Err(e) => {
                    return Err(e);
                },
            };
            let graphql_input_type_name = match graphql_name(&graphql.input_type_name) {
                Ok(name) => name,
                Err(e) => {
                    return Err(e);
                },
            };
            let resolved_apollo_federation_config = match &graphql.apollo_federation {
                None => None,
                Some(apollo_federation) => {
                    let resolved = match resolve_federation_config(
                        apollo_federation,
                        &resolved_fields,
                        qualified_type_name,
                    ) {
                        Ok(resolved) => resolved,
                        Err(e) => {
                            return Err(e);
                        },
                    };
                    apollo_federation_entity_enabled_types.insert(
                        qualified_type_name.clone(),
                        None,
                    );
                    proof {
                        assert(federation_index(apollo_federation_entity_enabled_types@)
                            =~= federation_index(
                            old(apollo_federation_entity_enabled_types)@,
                        ).insert(qualified_type_name@, None));
                    }
                    Some(resolved)
                },
            };
            (graphql_type_name, graphql_input_type_name, resolved_apollo_federation_config)
        },
    };
    match store_new_graphql_type(existing_graphql_types, graphql_type_name.as_ref()) {
        Ok(()) => {},
        Err(e) => {
            return Err(e);
        },
    }
    match store_new_graphql_type(existing_graphql_types, graphql_input_type_name.as_ref()) {
        Ok(()) => {},
        Err(e) => {
            proof {
                assert(existing_graphql_types@ =~= claimed_after(
                    *object_type_definition,
                    qualified_type_name@,
                    old(existing_graphql_types)@,
                ));
            }
            return Err(e);
        },
    }
    Ok(
        ObjectTypeRepresentation {
            fields: resolved_fields,
            global_id_fields: resolved_global_id_fields,
            graphql_output_type_name: graphql_type_name,
            graphql_input_type_name,
            description: object_type_definition.description.clone(),
            apollo_federation_config,
        },
    )
}

} // verus!
