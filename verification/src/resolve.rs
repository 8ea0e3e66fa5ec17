//! Resolving all the declared object types, one after the other.

use crate::assoc::AssocMap;
use crate::name_set::NameSet;
use crate::data_connectors::DataConnectors;
use crate::definitions::{DataConnectorTypeMapping, MetadataAccessor, QualifiedObject};
use crate::error::{Error, ErrorView};
use crate::mapping_model::type_mapping_outcome;
use crate::model::{
    claimed_after, object_type_error, registers_federation, registers_global_id,
    resolved_object_type,
};
use crate::object_types::resolve_object_type;
use crate::qualified::{Qualified, QualifiedName};
use crate::type_mappings::resolve_data_connector_type_mapping;
use crate::types::{
    federation_index, field_names_of, global_id_index, object_type_views,
    DataConnectorTypeMappingsForObject, DataConnectorTypeMappingsOutput,
    DataConnectorTypeMappingsOutputView, ObjectTypeWithTypeMappings,
    ObjectTypeWithTypeMappingsView, TypeMappingView,
};
use vstd::prelude::*;

verus! {

/// The data connector and the object type of it that a declared mapping names.
pub open spec fn mapping_key(mapping: DataConnectorTypeMapping, subgraph: Seq<char>) -> (
    QualifiedName,
    Seq<char>,
) {
    (
        QualifiedName { subgraph, name: mapping.data_connector_name@ },
        mapping.data_connector_object_type@,
    )
}

/// What the first `n` declared mappings of an object type give: the mappings
/// by data connector and object type, or the first error. A mapping fails by
/// itself, or because an earlier one has taken its place.
pub open spec fn type_mappings_outcome(
    mappings: Seq<DataConnectorTypeMapping>,
    n: nat,
    object_type: QualifiedName,
    subgraph: Seq<char>,
    names: Seq<Seq<char>>,
    data_connectors: DataConnectors,
) -> Result<Map<(QualifiedName, Seq<char>), TypeMappingView>, ErrorView>
    decreases n,
{
    if n == 0 {
        Ok(Map::empty())
    } else {
        match type_mappings_outcome(
            mappings,
            (n - 1) as nat,
            object_type,
            subgraph,
            names,
            data_connectors,
        ) {
            Err(e) => Err(e),
            Ok(earlier) => match type_mapping_outcome(
                mappings[n - 1],
                object_type,
                subgraph,
                names,
                data_connectors,
            ) {
                Err(e) => Err(
                    ErrorView::DataConnectorTypeMappingValidationError {
                        object_type_name: object_type,
                        error: e,
                    },
                ),
                Ok(type_mapping) => {
                    let key = mapping_key(mappings[n - 1], subgraph);
                    if earlier.contains_key(key) {
                        Err(
                            ErrorView::DuplicateDataConnectorObjectTypeMapping {
                                data_connector: key.0,
                                data_connector_object_type: key.1,
                            },
                        )
                    } else {
                        Ok(earlier.insert(key, type_mapping))
                    }
                },
            },
        }
    }
}

/// The qualified name of a declared object type.
pub open spec fn qualified_name_of(object: QualifiedObject) -> QualifiedName {
    QualifiedName { subgraph: object.subgraph@, name: object.object.name@ }
}

/// What resolving one more declared object type gives, after `earlier`: the
/// object type is resolved, then mapped as declared, then entered under its
/// qualified name, which no earlier object type may have.
pub open spec fn resolve_step(
    earlier: DataConnectorTypeMappingsOutputView,
    object: QualifiedObject,
    data_connectors: DataConnectors,
) -> Result<DataConnectorTypeMappingsOutputView, ErrorView> {
    let name = qualified_name_of(object);
    let subgraph = object.subgraph@;
    let definition = object.object;
    if object_type_error(definition, name, earlier.graphql_types) is Some {
        Err(object_type_error(definition, name, earlier.graphql_types)->0)
    } else {
        let resolved = resolved_object_type(definition, subgraph);
        match type_mappings_outcome(
            definition.data_connector_type_mapping@,
            definition.data_connector_type_mapping@.len(),
            name,
            subgraph,
            field_names_of(resolved),
            data_connectors,
        ) {
            Err(e) => Err(e),
            Ok(type_mappings) => if earlier.object_types.contains_key(name) {
                Err(ErrorView::DuplicateTypeDefinition { name })
            } else {
                Ok(
                    DataConnectorTypeMappingsOutputView {
                        graphql_types: claimed_after(definition, name, earlier.graphql_types),
                        global_id_enabled_types: if registers_global_id(definition, name) {
                            earlier.global_id_enabled_types.insert(name, Seq::empty())
                        } else {
                            earlier.global_id_enabled_types
                        },
                        apollo_federation_entity_enabled_types: if registers_federation(
                            definition,
                            name,
                        ) {
                            earlier.apollo_federation_entity_enabled_types.insert(name, None)
                        } else {
                            earlier.apollo_federation_entity_enabled_types
                        },
                        object_types: earlier.object_types.insert(
                            name,
                            ObjectTypeWithTypeMappingsView {
                                object_type: resolved,
                                type_mappings,
                            },
                        ),
                    },
                )
            },
        }
    }
}

/// Nothing resolved yet.
pub open spec fn nothing_resolved() -> DataConnectorTypeMappingsOutputView {
    DataConnectorTypeMappingsOutputView {
        graphql_types: Set::empty(),
        global_id_enabled_types: Map::empty(),
        apollo_federation_entity_enabled_types: Map::empty(),
        object_types: Map::empty(),
    }
}

/// What resolving the first `n` declared object types gives: everything that
/// they resolve to, or the first error in the order of declaration.
pub open spec fn resolve_outcome(
    objects: Seq<QualifiedObject>,
    n: nat,
    data_connectors: DataConnectors,
) -> Result<DataConnectorTypeMappingsOutputView, ErrorView>
    decreases n,
{
    if n == 0 {
        Ok(nothing_resolved())
    } else {
        match resolve_outcome(objects, (n - 1) as nat, data_connectors) {
            Err(e) => Err(e),
            Ok(earlier) => resolve_step(earlier, objects[n - 1], data_connectors),
        }
    }
}

/// The declared mappings of one object type, resolved in their order.
fn resolve_type_mappings(
    mappings: &Vec<DataConnectorTypeMapping>,
    qualified_object_type_name: &Qualified,
    subgraph: &String,
    resolved_object_type: &crate::types::ObjectTypeRepresentation,
    data_connectors: &DataConnectors,
) -> (r: Result<DataConnectorTypeMappingsForObject, Error>)
    ensures
        match r {
            Ok(type_mappings) => type_mappings_outcome(
                mappings@,
                mappings@.len(),
                qualified_object_type_name@,
                subgraph@,
                field_names_of(resolved_object_type@),
                *data_connectors,
            ) == Ok::<_, ErrorView>(type_mappings@),
            Err(e) => type_mappings_outcome(
                mappings@,
                mappings@.len(),
                qualified_object_type_name@,
                subgraph@,
                field_names_of(resolved_object_type@),
                *data_connectors,
            ) == Err::<Map<(QualifiedName, Seq<char>), TypeMappingView>, _>(e@),
        },
{
    let mut type_mappings = DataConnectorTypeMappingsForObject::new();
    let mut j: usize = 0;
    while j < mappings.len()
        invariant
            j <= mappings@.len(),
            type_mappings_outcome(
                mappings@,
                j as nat,
                qualified_object_type_name@,
                subgraph@,
                field_names_of(resolved_object_type@),
                *data_connectors,
            ) == Ok::<_, ErrorView>(type_mappings@),
        decreases mappings@.len() - j,
    {
        let dc_type_mapping = &mappings[j];
        let qualified_data_connector_name = Qualified::new(
            subgraph.clone(),
            dc_type_mapping.data_connector_name.clone(),
        );
        let type_mapping = match resolve_data_connector_type_mapping(
            dc_type_mapping,
            qualified_object_type_name,
            subgraph.as_str(),
            resolved_object_type,
            data_connectors,
        ) {
            Ok(type_mapping) => type_mapping,
            Err(type_validation_error) => {
                proof {
                    lemma_type_mappings_fail(
                        mappings@,
                        (j + 1) as nat,
                        mappings@.len(),
                        qualified_object_type_name@,
                        subgraph@,
                        field_names_of(resolved_object_type@),
                        *data_connectors,
                    );
                }
                return Err(
                    Error::DataConnectorTypeMappingValidationError {
                        object_type_name: qualified_object_type_name.clone(),
                        error: type_validation_error,
                    },
                );
            },
        };
        match type_mappings.insert(
            &qualified_data_connector_name,
            dc_type_mapping.data_connector_object_type.as_str(),
            type_mapping,
        ) {
            Ok(()) => {},
            Err(e) => {
                proof {
                    lemma_type_mappings_fail(
                        mappings@,
                        (j + 1) as nat,
                        mappings@.len(),
                        qualified_object_type_name@,
                        subgraph@,
                        field_names_of(resolved_object_type@),
                        *data_connectors,
                    );
                }
                return Err(e);
            },
        }
        j = j + 1;
    }
    Ok(type_mappings)
}

/// Once the first `n` mappings fail, so do the first `m` for every `m` from
/// `n` on, in the same way.
pub proof fn lemma_type_mappings_fail(
    mappings: Seq<DataConnectorTypeMapping>,
    n: nat,
    m: nat,
    object_type: QualifiedName,
    subgraph: Seq<char>,
    names: Seq<Seq<char>>,
    data_connectors: DataConnectors,
)
    requires
        n <= m,
        type_mappings_outcome(mappings, n, object_type, subgraph, names, data_connectors) is Err,
    ensures
        type_mappings_outcome(mappings, m, object_type, subgraph, names, data_connectors)
            == type_mappings_outcome(mappings, n, object_type, subgraph, names, data_connectors),
    decreases m,
{
    if n < m {
        lemma_type_mappings_fail(
            mappings,
            n,
            (m - 1) as nat,
            object_type,
            subgraph,
            names,
            data_connectors,
        );
    }
}

/// Once the first `n` object types fail, so do the first `m` for every `m`
/// from `n` on, in the same way.
pub proof fn lemma_resolve_fails(
    objects: Seq<QualifiedObject>,
    n: nat,
    m: nat,
    data_connectors: DataConnectors,
)
    requires
        n <= m,
        resolve_outcome(objects, n, data_connectors) is Err,
    ensures
        resolve_outcome(objects, m, data_connectors) == resolve_outcome(
            objects,
            n,
            data_connectors,
        ),
    decreases m,
{
    if n < m {
        lemma_resolve_fails(objects, n, (m - 1) as nat, data_connectors);
    }
}

/// Resolves the declared object types in the order of their declaration,
/// each with its mappings onto data connectors. The first error ends it.
pub fn resolve(metadata_accessor: &MetadataAccessor, data_connectors: &DataConnectors) -> (r:
    Result<DataConnectorTypeMappingsOutput, Error>)
    ensures
        match r {
            Ok(output) => resolve_outcome(
                metadata_accessor.object_types@,
                metadata_accessor.object_types@.len(),
                *data_connectors,
            ) == Ok::<_, ErrorView>(output@),
            Err(e) => resolve_outcome(
                metadata_accessor.object_types@,
                metadata_accessor.object_types@.len(),
                *data_connectors,
            ) == Err::<DataConnectorTypeMappingsOutputView, _>(e@),
        },
{
    let mut object_types: AssocMap<Qualified, ObjectTypeWithTypeMappings> = AssocMap::new();
    let mut graphql_types = NameSet::new();
    let mut global_id_enabled_types: AssocMap<Qualified, Vec<Qualified>> = AssocMap::new();
    let mut apollo_federation_entity_enabled_types: AssocMap<Qualified, Option<Qualified>> =
        AssocMap::new();
    let ghost objects = metadata_accessor.object_types@;
    proof {
        assert(global_id_index(global_id_enabled_types@) =~= Map::empty());
        assert(federation_index(apollo_federation_entity_enabled_types@) =~= Map::empty());
        assert(object_type_views(object_types@) =~= Map::empty());
    }
    let mut i: usize = 0;
    while i < metadata_accessor.object_types.len()
        invariant
            i <= objects.len(),
            objects == metadata_accessor.object_types@,
            resolve_outcome(objects, i as nat, *data_connectors) == Ok::<_, ErrorView>(
                DataConnectorTypeMappingsOutputView {
                    graphql_types: graphql_types@,
                    global_id_enabled_types: global_id_index(global_id_enabled_types@),
                    apollo_federation_entity_enabled_types: federation_index(
                        apollo_federation_entity_enabled_types@,
                    ),
                    object_types: object_type_views(object_types@),
                },
            ),
        decreases objects.len() - i,
    {
        let qualified_object = &metadata_accessor.object_types[i];
        let subgraph = &qualified_object.subgraph;
        let object_type_definition = &qualified_object.object;
        let qualified_object_type_name = Qualified::new(
            subgraph.clone(),
            object_type_definition.name.clone(),
        );
        let ghost earlier = DataConnectorTypeMappingsOutputView {
            graphql_types: graphql_types@,
            global_id_enabled_types: global_id_index(global_id_enabled_types@),
            apollo_federation_entity_enabled_types: federation_index(
                apollo_federation_entity_enabled_types@,
            ),
            object_types: object_type_views(object_types@),
        };
        let ghost step = resolve_step(earlier, objects[i as int], *data_connectors);
        proof {
            assert(resolve_outcome(objects, (i + 1) as nat, *data_connectors) == step);
            if step is Err {
                lemma_resolve_fails(objects, (i + 1) as nat, objects.len(), *data_connectors);
            }
        }
        let resolved_object_type = match resolve_object_type(
            object_type_definition,
            &mut graphql_types,
            &qualified_object_type_name,
            subgraph.as_str(),
            &mut global_id_enabled_types,
            &mut apollo_federation_entity_enabled_types,
        ) {
            Ok(resolved) => resolved,
            Err(e) => {
                return Err(e);
            },
        };
        let type_mappings = match resolve_type_mappings(
            &object_type_definition.data_connector_type_mapping,
            &qualified_object_type_name,
            subgraph,
            &resolved_object_type,
            data_connectors,
        ) {
            Ok(type_mappings) => type_mappings,
            Err(e) => {
                return Err(e);
            },
        };
        let object_type_with_type_mappings = ObjectTypeWithTypeMappings {
            object_type: resolved_object_type,
            type_mappings,
        };
        let ghost entered = object_type_with_type_mappings@;
        if object_types.insert(
            qualified_object_type_name.clone(),
            object_type_with_type_mappings,
        ).is_some() {
            return Err(Error::DuplicateTypeDefinition { name: qualified_object_type_name });
        }
        proof {
            assert(object_type_views(object_types@) =~= earlier.object_types.insert(
                qualified_object_type_name@,
                entered,
            ));
        }
        i = i + 1;
    }
    Ok(
        DataConnectorTypeMappingsOutput {
            object_types,
            graphql_types,
            global_id_enabled_types,
            apollo_federation_entity_enabled_types,
        },
    )
}

} // verus!
