//! What holds of resolution whatever is declared.

use crate::data_connectors::DataConnectors;
use crate::definitions::{DataConnectorTypeMapping, ObjectTypeV1, QualifiedObject};
use crate::error::{ErrorView, TypeMappingValidationErrorView};
use crate::mapping_model::{
    column_missing_at, column_of, declared_columns, native_columns, type_mapping_outcome,
    unknown_source_fields,
};
use crate::model::{
    claim_error, claimed_after, declaration_error, declared_federation, declared_field_names,
    declared_global_id_fields, duplicate_field_error, federation_error, global_id_error,
    id_field_name, input_name, key_error, key_fails_at, missing_at, name_error, object_type_error,
    output_name, repeats_at, resolved_object_type,
};
use crate::qualified::QualifiedName;
use crate::resolve::{mapping_key, qualified_name_of, resolve_outcome, type_mappings_outcome};
use crate::search::{first_index, lemma_first_index, lemma_first_index_none};
use crate::text_order::ascending_names;
use crate::types::{field_names_of, FieldMappingView, TypeMappingView};
use vstd::prelude::*;

verus! {

/// An object type that declares two fields of one name is not resolved,
/// whatever else it declares: the error is that of the first field whose name
/// an earlier field has.
pub proof fn law_repeated_field_name_fails(
    definition: ObjectTypeV1,
    object_type: QualifiedName,
    claimed: Set<Seq<char>>,
    i: int,
    j: int,
)
    requires
        0 <= i < j < definition.fields@.len(),
        definition.fields@[i].name@ == definition.fields@[j].name@,
    ensures
        exists|k: int|
            0 < k <= j && declared_field_names(definition.fields@).take(k).contains(
                #[trigger] declared_field_names(definition.fields@)[k],
            ) && object_type_error(definition, object_type, claimed) == Some(
                ErrorView::DuplicateFieldDefinition {
                    object_type_name: object_type,
                    field_name: declared_field_names(definition.fields@)[k],
                },
            ),
{
    let names = declared_field_names(definition.fields@);
    let repeats = repeats_at(names);
    assert(names.take(j)[i] == names[j]);
    assert(repeats(j));
    lemma_first_index(names.len() as int, repeats);
    let k = first_index(names.len() as int, repeats)->0;
    assert(k <= j) by {
        if k > j {
            assert(!repeats(j));
        }
    }
    assert(repeats(k));
    assert(k > 0) by {
        if k == 0 {
            assert(names.take(0).len() == 0);
        }
    }
    assert(names.take(k).contains(names[k]));
}

/// Beside global id fields a field named `id` is an error, whatever the
/// global id fields are: provided that no field name is repeated, the object
/// type is not resolved.
pub proof fn law_id_field_beside_global_id_fields_fails(
    definition: ObjectTypeV1,
    object_type: QualifiedName,
    claimed: Set<Seq<char>>,
)
    requires
        declared_field_names(definition.fields@).no_duplicates(),
        declared_field_names(definition.fields@).contains(id_field_name()),
        declared_global_id_fields(definition.global_id_fields) matches Some(list) && list.len() > 0,
    ensures
        object_type_error(definition, object_type, claimed) == Some(
            ErrorView::IdFieldConflictingGlobalId { object_type_name: object_type },
        ),
{
    lemma_no_repeated_field(declared_field_names(definition.fields@), object_type);
}

/// A global id field that is no field of the object type is an error:
/// provided that no field name is repeated and no field is named `id`, the
/// object type is not resolved, and the error names the first such field.
pub proof fn law_unknown_global_id_field_fails(
    definition: ObjectTypeV1,
    object_type: QualifiedName,
    claimed: Set<Seq<char>>,
    k: int,
)
    requires
        declared_field_names(definition.fields@).no_duplicates(),
        !declared_field_names(definition.fields@).contains(id_field_name()),
        declared_global_id_fields(definition.global_id_fields) matches Some(list) && 0 <= k
            < list.len() && !declared_field_names(definition.fields@).contains(list[k]),
    ensures
        exists|first: int|
            0 <= first <= k && !declared_field_names(definition.fields@).contains(
                #[trigger] declared_global_id_fields(definition.global_id_fields)->0[first],
            ) && object_type_error(definition, object_type, claimed) == Some(
                ErrorView::UnknownFieldInGlobalId {
                    field_name: declared_global_id_fields(definition.global_id_fields)->0[first],
                    object_type_name: object_type,
                },
            ),
{
    let names = declared_field_names(definition.fields@);
    let list = declared_global_id_fields(definition.global_id_fields)->0;
    let missing = missing_at(names, list);
    lemma_no_repeated_field(names, object_type);
    assert(missing(k));
    lemma_first_index(list.len() as int, missing);
    let first = first_index(list.len() as int, missing)->0;
    assert(first <= k) by {
        if first > k {
            assert(!missing(k));
        }
    }
    assert(missing(first));
    assert(!names.contains(list[first]));
}

/// Where no field name occurs twice, no repeated field is found.
pub proof fn lemma_no_repeated_field(names: Seq<Seq<char>>, object_type: QualifiedName)
    requires
        names.no_duplicates(),
    ensures
        duplicate_field_error(names, object_type) is None,
{
    assert forall|j: int| 0 <= j < names.len() implies !#[trigger] repeats_at(names)(j) by {
        if names.take(j).contains(names[j]) {
            let i = choose|i: int| 0 <= i < names.take(j).len() && names.take(j)[i] == names[j];
            assert(names[i] == names[j]);
        }
    }
    lemma_first_index_none(names.len() as int, repeats_at(names));
}

/// The object type that a declaration without error resolves to is well
/// formed: no field name occurs twice, the global id fields and the fields
/// of every federation key are fields of the type, every key has a field,
/// and a federation configuration has a key.
pub proof fn law_resolved_object_type_is_well_formed(
    definition: ObjectTypeV1,
    object_type: QualifiedName,
    subgraph: Seq<char>,
)
    requires
        declaration_error(definition, object_type) is None,
    ensures
        resolved_object_type(definition, subgraph).well_formed(),
        field_names_of(resolved_object_type(definition, subgraph)) == declared_field_names(
            definition.fields@,
        ),
{
    let names = declared_field_names(definition.fields@);
    let resolved = resolved_object_type(definition, subgraph);
    assert(field_names_of(resolved) =~= names);
    lemma_first_index(names.len() as int, repeats_at(names));
    assert forall|i: int, j: int| 0 <= i < j < names.len() implies names[i] != names[j] by {
        assert(!repeats_at(names)(j));
        if names[i] == names[j] {
            assert(names.take(j)[i] == names[j]);
        }
    }
    match declared_global_id_fields(definition.global_id_fields) {
        Some(list) => {
            lemma_first_index(list.len() as int, missing_at(names, list));
            assert forall|i: int| 0 <= i < list.len() implies names.contains(
                #[trigger] list[i],
            ) by {
                assert(!missing_at(names, list)(i));
            }
        },
        None => {},
    }
    match declared_federation(definition.graphql) {
        Some(keys) => {
            let fails = key_fails_at(names, keys, object_type);
            assert(federation_error(names, keys, object_type) is None);
            lemma_first_index(keys.len() as int, fails);
            assert forall|i: int| 0 <= i < keys.len() implies (#[trigger] keys[i]).len() > 0 by {
                assert(!fails(i));
                lemma_first_index(keys[i].len() as int, missing_at(names, keys[i]));
            }
            assert forall|i: int, j: int|
                0 <= i < keys.len() && 0 <= j < keys[i].len() implies names.contains(
                #[trigger] keys[i][j],
            ) by {
                assert(!fails(i));
                lemma_first_index(keys[i].len() as int, missing_at(names, keys[i]));
                assert(!missing_at(names, keys[i])(j));
            }
        },
        None => {},
    }
}

/// A federation key without fields is an error even where every field that
/// the keys name is a field of the object type: provided that nothing before
/// the federation keys gives an error, the object type is not resolved.
pub proof fn law_empty_federation_key_fails(
    definition: ObjectTypeV1,
    object_type: QualifiedName,
    claimed: Set<Seq<char>>,
    i: int,
)
    requires
        duplicate_field_error(declared_field_names(definition.fields@), object_type) is None,
        global_id_error(
            declared_field_names(definition.fields@),
            declared_global_id_fields(definition.global_id_fields),
            object_type,
        ) is None,
        definition.graphql matches Some(config) && name_error(config.output_type_name) is None
            && name_error(config.input_type_name) is None,
        declared_federation(definition.graphql) matches Some(keys) && 0 <= i < keys.len()
            && keys[i].len() == 0 && forall|j: int, k: int|
            0 <= j < keys.len() && 0 <= k < keys[j].len() ==> declared_field_names(
                definition.fields@,
            ).contains(#[trigger] keys[j][k]),
    ensures
        object_type_error(definition, object_type, claimed) == Some(
            ErrorView::EmptyFieldsInApolloFederationConfigForObject { object_type },
        ),
{
    let names = declared_field_names(definition.fields@);
    let keys = declared_federation(definition.graphql)->0;
    let fails = key_fails_at(names, keys, object_type);
    assert forall|j: int| 0 <= j < keys.len() implies key_error(names, #[trigger] keys[j], object_type)
        == (if keys[j].len() == 0 {
        Some(ErrorView::EmptyFieldsInApolloFederationConfigForObject { object_type })
    } else {
        None
    }) by {
        let missing = missing_at(names, keys[j]);
        assert forall|k: int| 0 <= k < keys[j].len() implies !#[trigger] missing(k) by {
            assert(names.contains(keys[j][k]));
        }
        lemma_first_index_none(keys[j].len() as int, missing);
    }
    assert(fails(i));
    lemma_first_index(keys.len() as int, fails);
}

/// Of two object types that declare the same GraphQL output name, the one
/// that is resolved second fails on that name, whichever it is: provided
/// that the first is resolved and the second gives no error before its names
/// are claimed.
pub proof fn law_second_claim_of_output_name_fails(
    first: ObjectTypeV1,
    first_name: QualifiedName,
    second: ObjectTypeV1,
    second_name: QualifiedName,
    claimed: Set<Seq<char>>,
)
    requires
        object_type_error(first, first_name, claimed) is None,
        declaration_error(second, second_name) is None,
        output_name(first.graphql) is Some,
        output_name(first.graphql) == output_name(second.graphql),
    ensures
        object_type_error(second, second_name, claimed_after(first, first_name, claimed)) == Some(
            ErrorView::ConflictingGraphQlType {
                graphql_type_name: output_name(first.graphql)->0,
            },
        ),
{
}

/// After an object type is resolved its GraphQL names are claimed, and every
/// name that was claimed before still is.
pub proof fn law_resolved_names_are_claimed(
    definition: ObjectTypeV1,
    object_type: QualifiedName,
    claimed: Set<Seq<char>>,
)
    requires
        object_type_error(definition, object_type, claimed) is None,
    ensures
        claimed.subset_of(claimed_after(definition, object_type, claimed)),
        output_name(definition.graphql) matches Some(name) ==> !claimed.contains(name)
            && claimed_after(definition, object_type, claimed).contains(name),
        input_name(definition.graphql) matches Some(name) ==> !claimed.contains(name)
            && claimed_after(definition, object_type, claimed).contains(name),
        output_name(definition.graphql) is Some ==> output_name(definition.graphql) != input_name(
            definition.graphql,
        ),
{
}

/// A declaration is resolved whenever nothing is wrong with it: no field name
/// occurs twice; beside global id fields there is no field named `id`, and
/// each of them is a field; an identifier was made of each declared GraphQL
/// name; the federation keys, where declared, are at least one, each with at
/// least one field and with fields of the type only; and the two GraphQL
/// names differ and are not claimed yet.
pub proof fn law_sound_declaration_is_resolved(
    definition: ObjectTypeV1,
    object_type: QualifiedName,
    claimed: Set<Seq<char>>,
)
    requires
        declared_field_names(definition.fields@).no_duplicates(),
        declared_global_id_fields(definition.global_id_fields) matches Some(list) ==> (list.len()
            > 0 ==> !declared_field_names(definition.fields@).contains(id_field_name()))
            && forall|i: int|
            0 <= i < list.len() ==> declared_field_names(definition.fields@).contains(
                #[trigger] list[i],
            ),
        definition.graphql matches Some(config) ==> name_error(config.output_type_name) is None
            && name_error(config.input_type_name) is None,
        declared_federation(definition.graphql) matches Some(keys) ==> keys.len() > 0
            && forall|j: int|
            0 <= j < keys.len() ==> (#[trigger] keys[j]).len() > 0 && forall|k: int|
                0 <= k < keys[j].len() ==> declared_field_names(definition.fields@).contains(
                    #[trigger] keys[j][k],
                ),
        output_name(definition.graphql) matches Some(name) ==> !claimed.contains(name),
        input_name(definition.graphql) matches Some(name) ==> !claimed.contains(name),
        output_name(definition.graphql) is Some ==> output_name(definition.graphql) != input_name(
            definition.graphql,
        ),
    ensures
        object_type_error(definition, object_type, claimed) is None,
{
    let names = declared_field_names(definition.fields@);
    lemma_no_repeated_field(names, object_type);
    match declared_global_id_fields(definition.global_id_fields) {
        Some(list) => {
            assert forall|i: int| 0 <= i < list.len() implies !#[trigger] missing_at(names, list)(
                i,
            ) by {
                assert(names.contains(list[i]));
            }
            lemma_first_index_none(list.len() as int, missing_at(names, list));
        },
        None => {},
    }
    match declared_federation(definition.graphql) {
        Some(keys) => {
            let fails = key_fails_at(names, keys, object_type);
            assert forall|j: int| 0 <= j < keys.len() implies !#[trigger] fails(j) by {
                let missing = missing_at(names, keys[j]);
                assert(keys[j].len() > 0);
                assert forall|k: int| 0 <= k < keys[j].len() implies !#[trigger] missing(k) by {
                    assert(names.contains(keys[j][k]));
                }
                lemma_first_index_none(keys[j].len() as int, missing);
            }
            lemma_first_index_none(keys.len() as int, fails);
        },
        None => {},
    }
}

/// Where an object type is mapped, each of its fields has one column, and
/// nothing else has: the mapping holds the fields of the type and no other
/// name, and gives each the column declared for it, or else the column of
/// its own name, with the type that the data connector gives that column.
pub proof fn law_every_field_is_mapped_once(
    mapping: DataConnectorTypeMapping,
    object_type: QualifiedName,
    subgraph: Seq<char>,
    names: Seq<Seq<char>>,
    data_connectors: DataConnectors,
)
    requires
        type_mapping_outcome(mapping, object_type, subgraph, names, data_connectors) is Ok,
    ensures
        ({
            let source = QualifiedName { subgraph, name: mapping.data_connector_name@ };
            let native = mapping.data_connector_object_type@;
            let declared = declared_columns(mapping.field_mapping@);
            let columns = native_columns(data_connectors.0@[source].object_types@[native]);
            &&& data_connectors.0@.contains_key(source)
            &&& data_connectors.0@[source].object_types@.contains_key(native)
            &&& type_mapping_outcome(mapping, object_type, subgraph, names, data_connectors)
                matches Ok(TypeMappingView::Object { ndc_object_type_name, field_mappings })
            &&& ndc_object_type_name == native
            &&& forall|field: Seq<char>| #[trigger]
                field_mappings.contains_key(field) <==> names.contains(field)
            &&& forall|i: int|
                0 <= i < names.len() ==> columns.contains_key(column_of(declared, names[i]))
                    && field_mappings[#[trigger] names[i]] == (FieldMappingView {
                    column: column_of(declared, names[i]),
                    column_type: columns[column_of(declared, names[i])],
                })
            &&& forall|field: Seq<char>| #[trigger] declared.contains_key(field) ==> names.contains(field)
        }),
{
    let source = QualifiedName { subgraph, name: mapping.data_connector_name@ };
    let native = mapping.data_connector_object_type@;
    let declared = declared_columns(mapping.field_mapping@);
    let columns = native_columns(data_connectors.0@[source].object_types@[native]);
    let missing = column_missing_at(names, declared, columns);
    lemma_first_index(names.len() as int, missing);
    assert forall|i: int| 0 <= i < names.len() implies columns.contains_key(
        column_of(declared, #[trigger] names[i]),
    ) by {
        assert(!missing(i));
    }
    assert forall|field: Seq<char>| #[trigger] declared.contains_key(field) implies names.contains(
        field,
    ) by {
        if !names.contains(field) {
            assert(unknown_source_fields(names, declared).contains(field));
        }
    }
}

/// A declared field mapping for a name that is no field of the object type
/// is an error, provided that the data connector and its object type are
/// known and have a column for every field: the error lists the names of all
/// such mappings, each once, in ascending order.
pub proof fn law_mapping_for_unknown_field_fails(
    mapping: DataConnectorTypeMapping,
    object_type: QualifiedName,
    subgraph: Seq<char>,
    names: Seq<Seq<char>>,
    data_connectors: DataConnectors,
    unknown: Seq<char>,
)
    requires
        data_connectors.0@.contains_key(
            QualifiedName { subgraph, name: mapping.data_connector_name@ },
        ),
        data_connectors.0@[QualifiedName {
            subgraph,
            name: mapping.data_connector_name@,
        }].object_types@.contains_key(mapping.data_connector_object_type@),
        forall|i: int|
            0 <= i < names.len() ==> native_columns(
                data_connectors.0@[QualifiedName {
                    subgraph,
                    name: mapping.data_connector_name@,
                }].object_types@[mapping.data_connector_object_type@],
            ).contains_key(column_of(declared_columns(mapping.field_mapping@), #[trigger] names[i])),
        mapping.field_mapping@.contains_key(unknown),
        !names.contains(unknown),
    ensures
        type_mapping_outcome(mapping, object_type, subgraph, names, data_connectors) == Err::<
            TypeMappingView,
            _,
        >(
            TypeMappingValidationErrorView::UnknownSourceFields {
                object_type_name: object_type,
                field_names: ascending_names(
                    unknown_source_fields(names, declared_columns(mapping.field_mapping@)),
                ),
            },
        ),
        crate::text_order::is_ascending(
            ascending_names(unknown_source_fields(names, declared_columns(mapping.field_mapping@))),
        ),
        forall|field: Seq<char>|
            ascending_names(
                unknown_source_fields(names, declared_columns(mapping.field_mapping@)),
            ).contains(field) <==> mapping.field_mapping@.contains_key(field) && !names.contains(
                field,
            ),
{
    let source = QualifiedName { subgraph, name: mapping.data_connector_name@ };
    let native = mapping.data_connector_object_type@;
    let declared = declared_columns(mapping.field_mapping@);
    let columns = native_columns(data_connectors.0@[source].object_types@[native]);
    let missing = column_missing_at(names, declared, columns);
    assert forall|i: int| 0 <= i < names.len() implies !#[trigger] missing(i) by {
        assert(columns.contains_key(column_of(declared, names[i])));
    }
    lemma_first_index_none(names.len() as int, missing);
    let left = unknown_source_fields(names, declared);
    assert(left.contains(unknown));
    mapping.field_mapping.lemma_keys();
    assert(declared.dom() =~= mapping.field_mapping@.dom());
    vstd::set_lib::lemma_len_difference(declared.dom(), names.to_set());
    assert(left.finite());
    crate::text_order::lemma_ascending_names_of_finite(left);
    let listed = ascending_names(left);
    assert forall|field: Seq<char>| listed.contains(field) <==> mapping.field_mapping@.contains_key(
        field,
    ) && !names.contains(field) by {
        assert(listed.to_set().contains(field) == left.contains(field));
    }
}

/// Without declared field mappings every field is stored in the column of
/// its own name and takes that column's type as it is, provided that the
/// data connector and its object type are known and have those columns.
pub proof fn law_fields_map_to_columns_of_their_name(
    mapping: DataConnectorTypeMapping,
    object_type: QualifiedName,
    subgraph: Seq<char>,
    names: Seq<Seq<char>>,
    data_connectors: DataConnectors,
)
    requires
        data_connectors.0@.contains_key(
            QualifiedName { subgraph, name: mapping.data_connector_name@ },
        ),
        data_connectors.0@[QualifiedName {
            subgraph,
            name: mapping.data_connector_name@,
        }].object_types@.contains_key(mapping.data_connector_object_type@),
        mapping.field_mapping@ == Map::<Seq<char>, crate::definitions::FieldMapping>::empty(),
        forall|i: int|
            0 <= i < names.len() ==> native_columns(
                data_connectors.0@[QualifiedName {
                    subgraph,
                    name: mapping.data_connector_name@,
                }].object_types@[mapping.data_connector_object_type@],
            ).contains_key(#[trigger] names[i]),
    ensures
        ({
            let source = QualifiedName { subgraph, name: mapping.data_connector_name@ };
            let native = mapping.data_connector_object_type@;
            let columns = native_columns(data_connectors.0@[source].object_types@[native]);
            &&& type_mapping_outcome(mapping, object_type, subgraph, names, data_connectors)
                matches Ok(TypeMappingView::Object { ndc_object_type_name, field_mappings })
            &&& ndc_object_type_name == native
            &&& forall|field: Seq<char>| #[trigger]
                field_mappings.contains_key(field) <==> names.contains(field)
            &&& forall|i: int|
                0 <= i < names.len() ==> field_mappings[#[trigger] names[i]] == (FieldMappingView {
                    column: names[i],
                    column_type: columns[names[i]],
                })
        }),
{
    let source = QualifiedName { subgraph, name: mapping.data_connector_name@ };
    let native = mapping.data_connector_object_type@;
    let declared = declared_columns(mapping.field_mapping@);
    let columns = native_columns(data_connectors.0@[source].object_types@[native]);
    let missing = column_missing_at(names, declared, columns);
    assert(declared =~= Map::empty());
    assert forall|i: int| 0 <= i < names.len() implies !#[trigger] missing(i) by {
        assert(columns.contains_key(names[i]));
    }
    lemma_first_index_none(names.len() as int, missing);
    assert(unknown_source_fields(names, declared) =~= Set::empty());
}

/// An object type is mapped whenever nothing is wrong with the declared
/// mapping: the data connector and its object type are known, that type has
/// the column of every field, and every declared field mapping is for a
/// field.
pub proof fn law_sound_mapping_is_resolved(
    mapping: DataConnectorTypeMapping,
    object_type: QualifiedName,
    subgraph: Seq<char>,
    names: Seq<Seq<char>>,
    data_connectors: DataConnectors,
)
    requires
        data_connectors.0@.contains_key(
            QualifiedName { subgraph, name: mapping.data_connector_name@ },
        ),
        data_connectors.0@[QualifiedName {
            subgraph,
            name: mapping.data_connector_name@,
        }].object_types@.contains_key(mapping.data_connector_object_type@),
        forall|i: int|
            0 <= i < names.len() ==> native_columns(
                data_connectors.0@[QualifiedName {
                    subgraph,
                    name: mapping.data_connector_name@,
                }].object_types@[mapping.data_connector_object_type@],
            ).contains_key(column_of(declared_columns(mapping.field_mapping@), #[trigger] names[i])),
        forall|field: Seq<char>| #[trigger]
            mapping.field_mapping@.contains_key(field) ==> names.contains(field),
    ensures
        type_mapping_outcome(mapping, object_type, subgraph, names, data_connectors) is Ok,
{
    let source = QualifiedName { subgraph, name: mapping.data_connector_name@ };
    let native = mapping.data_connector_object_type@;
    let declared = declared_columns(mapping.field_mapping@);
    let columns = native_columns(data_connectors.0@[source].object_types@[native]);
    let missing = column_missing_at(names, declared, columns);
    assert forall|i: int| 0 <= i < names.len() implies !#[trigger] missing(i) by {
        assert(columns.contains_key(column_of(declared, names[i])));
    }
    lemma_first_index_none(names.len() as int, missing);
    assert(unknown_source_fields(names, declared) =~= Set::empty());
}

/// The GraphQL names that a declaration claims.
pub open spec fn graphql_names_of(definition: ObjectTypeV1) -> Set<Seq<char>> {
    crate::model::with_name(
        crate::model::with_name(Set::empty(), output_name(definition.graphql)),
        input_name(definition.graphql),
    )
}

/// The declared mappings of the object type at `i`, resolved.
pub open spec fn type_mappings_at(
    objects: Seq<QualifiedObject>,
    i: int,
    data_connectors: DataConnectors,
) -> Result<Map<(QualifiedName, Seq<char>), TypeMappingView>, ErrorView> {
    type_mappings_outcome(
        objects[i].object.data_connector_type_mapping@,
        objects[i].object.data_connector_type_mapping@.len(),
        qualified_name_of(objects[i]),
        objects[i].subgraph@,
        declared_field_names(objects[i].object.fields@),
        data_connectors,
    )
}

/// Where the first `n` declared mappings are resolved, each of them is
/// resolved by itself and stands under the data connector and object type
/// that it names.
pub proof fn lemma_type_mappings_resolved(
    mappings: Seq<DataConnectorTypeMapping>,
    n: nat,
    object_type: QualifiedName,
    subgraph: Seq<char>,
    names: Seq<Seq<char>>,
    data_connectors: DataConnectors,
    k: int,
)
    requires
        0 <= k < n,
        type_mappings_outcome(mappings, n, object_type, subgraph, names, data_connectors) is Ok,
    ensures
        type_mappings_outcome(
            mappings,
            n,
            object_type,
            subgraph,
            names,
            data_connectors,
        ) matches Ok(resolved) && resolved.contains_key(mapping_key(mappings[k], subgraph))
            && type_mapping_outcome(mappings[k], object_type, subgraph, names, data_connectors)
            == Ok::<_, TypeMappingValidationErrorView>(
            resolved[mapping_key(mappings[k], subgraph)],
        ),
    decreases n,
{
    if k < n - 1 {
        lemma_type_mappings_resolved(
            mappings,
            (n - 1) as nat,
            object_type,
            subgraph,
            names,
            data_connectors,
            k,
        );
    }
}

/// Where the first `n` declared object types are resolved, so are the first
/// `i` for every `i` up to `n`, the claimed names and the entered object
/// types only grow, and every entered object type is one of the first `n`.
pub proof fn lemma_resolved_grows(
    objects: Seq<QualifiedObject>,
    n: nat,
    data_connectors: DataConnectors,
    i: nat,
)
    requires
        i <= n,
        resolve_outcome(objects, n, data_connectors) is Ok,
    ensures
        resolve_outcome(objects, i, data_connectors) matches Ok(earlier) && resolve_outcome(
            objects,
            n,
            data_connectors,
        ) matches Ok(later) && earlier.graphql_types.subset_of(later.graphql_types)
            && earlier.object_types.submap_of(later.object_types),
    decreases n,
{
    if i < n {
        lemma_resolved_grows(objects, (n - 1) as nat, data_connectors, i);
        let before = resolve_outcome(objects, (n - 1) as nat, data_connectors)->Ok_0;
        let object = objects[n - 1];
        law_resolved_names_are_claimed(
            object.object,
            qualified_name_of(object),
            before.graphql_types,
        );
    }
}

/// What is entered for a resolved object type: the type as its declaration
/// resolves, and its declared mappings, resolved.
pub proof fn lemma_resolved_entry(
    objects: Seq<QualifiedObject>,
    n: nat,
    data_connectors: DataConnectors,
    i: int,
)
    requires
        0 <= i < n <= objects.len(),
        resolve_outcome(objects, n, data_connectors) is Ok,
    ensures
        resolve_outcome(objects, n, data_connectors) matches Ok(resolved)
            && resolved.object_types.contains_key(qualified_name_of(objects[i]))
            && resolved.object_types[qualified_name_of(objects[i])].object_type
            == resolved_object_type(objects[i].object, objects[i].subgraph@) && type_mappings_at(
            objects,
            i,
            data_connectors,
        ) == Ok::<_, ErrorView>(
            resolved.object_types[qualified_name_of(objects[i])].type_mappings,
        ),
        resolve_outcome(objects, i as nat, data_connectors) matches Ok(earlier)
            && !earlier.object_types.contains_key(qualified_name_of(objects[i]))
            && declaration_error(objects[i].object, qualified_name_of(objects[i])) is None
            && object_type_error(
            objects[i].object,
            qualified_name_of(objects[i]),
            earlier.graphql_types,
        ) is None,
    decreases n,
{
    lemma_resolved_grows(objects, n, data_connectors, (i + 1) as nat);
    lemma_resolved_grows(objects, (i + 1) as nat, data_connectors, i as nat);
    let object = objects[i];
    let name = qualified_name_of(object);
    let earlier = resolve_outcome(objects, i as nat, data_connectors)->Ok_0;
    let entered = resolve_outcome(objects, (i + 1) as nat, data_connectors)->Ok_0;
    let resolved = resolve_outcome(objects, n, data_connectors)->Ok_0;
    assert(resolve_outcome(objects, (i + 1) as nat, data_connectors) == crate::resolve::resolve_step(
        earlier,
        object,
        data_connectors,
    ));
    assert(object_type_error(object.object, name, earlier.graphql_types) is None);
    law_resolved_object_type_is_well_formed(object.object, name, object.subgraph@);
    assert(entered.object_types.contains_key(name));
    assert(entered.object_types.dom().contains(name) ==> resolved.object_types.dom().contains(
        name,
    ) && resolved.object_types[name] == entered.object_types[name]);
}

/// Where all the declared object types are resolved, every field of every
/// object type has exactly one column for each data connector type that the
/// object type is declared to be stored in: the object type is entered under
/// its qualified name, with one mapping for each declared one, and that
/// mapping holds the declared fields of the type and no other name.
pub proof fn law_every_field_has_one_mapping_per_source(
    objects: Seq<QualifiedObject>,
    data_connectors: DataConnectors,
    i: int,
    k: int,
)
    requires
        resolve_outcome(objects, objects.len(), data_connectors) is Ok,
        0 <= i < objects.len(),
        0 <= k < objects[i].object.data_connector_type_mapping@.len(),
    ensures
        ({
            let name = qualified_name_of(objects[i]);
            let key = mapping_key(
                objects[i].object.data_connector_type_mapping@[k],
                objects[i].subgraph@,
            );
            &&& resolve_outcome(objects, objects.len(), data_connectors) matches Ok(resolved)
            &&& resolved.object_types.contains_key(name)
            &&& resolved.object_types[name].type_mappings.contains_key(key)
            &&& resolved.object_types[name].type_mappings[key] matches TypeMappingView::Object {
                field_mappings,
                ..
            }
            &&& forall|field: Seq<char>| #[trigger]
                field_mappings.contains_key(field) <==> declared_field_names(
                    objects[i].object.fields@,
                ).contains(field)
        }),
{
    let object = objects[i];
    let name = qualified_name_of(object);
    let names = declared_field_names(object.object.fields@);
    let mappings = object.object.data_connector_type_mapping@;
    lemma_resolved_entry(objects, objects.len(), data_connectors, i);
    lemma_type_mappings_resolved(
        mappings,
        mappings.len(),
        name,
        object.subgraph@,
        names,
        data_connectors,
        k,
    );
    law_every_field_is_mapped_once(mappings[k], name, object.subgraph@, names, data_connectors);
}

/// Two declarations of one qualified name are an error at the second: where
/// the declarations before the second are resolved and the second by itself
/// is in order, resolving all of them fails because its name is taken.
pub proof fn law_repeated_object_type_name_fails(
    objects: Seq<QualifiedObject>,
    data_connectors: DataConnectors,
    i: int,
    j: int,
)
    requires
        0 <= i < j < objects.len(),
        qualified_name_of(objects[i]) == qualified_name_of(objects[j]),
        resolve_outcome(objects, j as nat, data_connectors) matches Ok(earlier)
            && object_type_error(
            objects[j].object,
            qualified_name_of(objects[j]),
            earlier.graphql_types,
        ) is None,
        type_mappings_at(objects, j, data_connectors) is Ok,
    ensures
        resolve_outcome(objects, objects.len(), data_connectors) == Err::<
            crate::types::DataConnectorTypeMappingsOutputView,
            _,
        >(ErrorView::DuplicateTypeDefinition { name: qualified_name_of(objects[j]) }),
{
    lemma_resolved_entry(objects, j as nat, data_connectors, i);
    let object = objects[j];
    law_resolved_object_type_is_well_formed(
        object.object,
        qualified_name_of(object),
        object.subgraph@,
    );
    assert(resolve_outcome(objects, (j + 1) as nat, data_connectors) == Err::<
        crate::types::DataConnectorTypeMappingsOutputView,
        _,
    >(ErrorView::DuplicateTypeDefinition { name: qualified_name_of(objects[j]) }));
    crate::resolve::lemma_resolve_fails(
        objects,
        (j + 1) as nat,
        objects.len(),
        data_connectors,
    );
}

/// Where the first `n` declarations are resolved, every claimed name is a
/// name of one of them, and every entered object type is one of them.
pub proof fn lemma_resolved_is_declared(
    objects: Seq<QualifiedObject>,
    n: nat,
    data_connectors: DataConnectors,
)
    requires
        n <= objects.len(),
        resolve_outcome(objects, n, data_connectors) is Ok,
    ensures
        resolve_outcome(objects, n, data_connectors) matches Ok(resolved) && (forall|
            name: Seq<char>,
        | #[trigger]
            resolved.graphql_types.contains(name) ==> exists|i: int|
                0 <= i < n && graphql_names_of(#[trigger] objects[i].object).contains(name))
            && (forall|name: QualifiedName| #[trigger]
            resolved.object_types.contains_key(name) ==> exists|i: int|
                0 <= i < n && qualified_name_of(#[trigger] objects[i]) == name),
    decreases n,
{
    if n > 0 {
        lemma_resolved_grows(objects, n, data_connectors, (n - 1) as nat);
        lemma_resolved_is_declared(objects, (n - 1) as nat, data_connectors);
        let before = resolve_outcome(objects, (n - 1) as nat, data_connectors)->Ok_0;
        let resolved = resolve_outcome(objects, n, data_connectors)->Ok_0;
        let last = objects[n - 1];
        assert forall|name: Seq<char>| #[trigger] resolved.graphql_types.contains(name) implies exists|
            i: int,
        |
            0 <= i < n && graphql_names_of(#[trigger] objects[i].object).contains(name) by {
            if before.graphql_types.contains(name) {
                let i = choose|i: int|
                    0 <= i < n - 1 && graphql_names_of(#[trigger] objects[i].object).contains(
                        name,
                    );
                assert(graphql_names_of(objects[i].object).contains(name));
            } else {
                assert(graphql_names_of(last.object).contains(name));
            }
        }
        assert forall|name: QualifiedName| #[trigger]
            resolved.object_types.contains_key(name) implies exists|i: int|
            0 <= i < n && qualified_name_of(#[trigger] objects[i]) == name by {
            if before.object_types.contains_key(name) {
                let i = choose|i: int| 0 <= i < n - 1 && qualified_name_of(#[trigger] objects[i]) == name;
                assert(qualified_name_of(objects[i]) == name);
            } else {
                assert(qualified_name_of(last) == name);
            }
        }
    }
}

/// Declarations with nothing wrong are all resolved: where no two object
/// types share a qualified name or a GraphQL name, no object type uses one
/// GraphQL name twice, every declaration is in order by itself, and the
/// declared mappings of every object type are resolved, resolving the first
/// `n` of them succeeds.
pub proof fn law_sound_declarations_are_resolved(
    objects: Seq<QualifiedObject>,
    n: nat,
    data_connectors: DataConnectors,
)
    requires
        n <= objects.len(),
        forall|i: int, j: int|
            0 <= i < j < objects.len() ==> qualified_name_of(#[trigger] objects[i])
                != qualified_name_of(#[trigger] objects[j]),
        forall|i: int, j: int|
            0 <= i < j < objects.len() ==> graphql_names_of(
                (#[trigger] objects[i]).object,
            ).disjoint(graphql_names_of((#[trigger] objects[j]).object)),
        forall|i: int|
            0 <= i < objects.len() ==> output_name((#[trigger] objects[i]).object.graphql) is Some
                ==> output_name(objects[i].object.graphql) != input_name(
                objects[i].object.graphql,
            ),
        forall|i: int|
            0 <= i < objects.len() ==> declaration_error(
                (#[trigger] objects[i]).object,
                qualified_name_of(objects[i]),
            ) is None,
        forall|i: int|
            0 <= i < objects.len() ==> (#[trigger] type_mappings_at(
                objects,
                i,
                data_connectors,
            )) is Ok,
    ensures
        resolve_outcome(objects, n, data_connectors) is Ok,
    decreases n,
{
    if n > 0 {
        law_sound_declarations_are_resolved(objects, (n - 1) as nat, data_connectors);
        lemma_resolved_is_declared(objects, (n - 1) as nat, data_connectors);
        let before = resolve_outcome(objects, (n - 1) as nat, data_connectors)->Ok_0;
        let last = objects[n - 1];
        let name = qualified_name_of(last);
        assert(!before.object_types.contains_key(name)) by {
            if before.object_types.contains_key(name) {
                let i = choose|i: int| 0 <= i < n - 1 && qualified_name_of(#[trigger] objects[i]) == name;
                assert(qualified_name_of(objects[i]) != qualified_name_of(objects[n - 1]));
            }
        }
        assert forall|claimed: Seq<char>| graphql_names_of(last.object).contains(
            claimed,
        ) implies !before.graphql_types.contains(claimed) by {
            if before.graphql_types.contains(claimed) {
                let i = choose|i: int|
                    0 <= i < n - 1 && graphql_names_of(#[trigger] objects[i].object).contains(
                        claimed,
                    );
                assert(graphql_names_of(objects[i].object).disjoint(
                    graphql_names_of(objects[n - 1].object),
                ));
            }
        }
        match output_name(last.object.graphql) {
            Some(output) => {
                assert(graphql_names_of(last.object).contains(output));
            },
            None => {},
        }
        match input_name(last.object.graphql) {
            Some(input) => {
                assert(graphql_names_of(last.object).contains(input));
            },
            None => {},
        }
        assert(claim_error(
            before.graphql_types,
            output_name(last.object.graphql),
            input_name(last.object.graphql),
        ) is None);
        law_resolved_object_type_is_well_formed(last.object, name, last.subgraph@);
        assert(type_mappings_at(objects, n - 1, data_connectors) is Ok);
    }
}

} // verus!
