//! Mapping a resolved object type onto the object type of a data connector.

use crate::assoc::AssocMap;
use crate::collections::field_names;
use crate::data_connectors::{DataConnectors, NativeObjectField, NativeObjectType};
use crate::definitions;
use crate::definitions::DataConnectorTypeMapping;
use crate::error::{TypeMappingValidationError, TypeMappingValidationErrorView};
use crate::mapping_model::{
    column_missing_at, column_of, declared_columns, native_columns, resolved_field_mappings,
    type_mapping_outcome, unknown_source_fields,
};
use crate::qualified::{texts_of, Qualified};
use crate::search::{lemma_first_index_is, lemma_first_index_none};
use crate::text_order::{lemma_sorted_names, sort_names};
use crate::types::{field_names_of, FieldMapping, ObjectTypeRepresentation, TypeMapping};
use vstd::prelude::*;

verus! {

/// The text of each column name.
pub open spec fn column_texts(m: Map<Seq<char>, String>) -> Map<Seq<char>, Seq<char>> {
    m.map_values(|column: String| column@)
}

/// The column of the data connector's type that the field is stored in.
pub fn get_column<'a>(
    ndc_type: &'a NativeObjectType,
    field_name: &String,
    column: &str,
) -> (r: Result<&'a NativeObjectField, TypeMappingValidationError>)
    ensures
        match r {
            Ok(found) => ndc_type.fields@.contains_key(column@) && *found
                == ndc_type.fields@[column@],
            Err(e) => !ndc_type.fields@.contains_key(column@) && e@ == (
            TypeMappingValidationErrorView::UnknownTargetColumn {
                field_name: field_name@,
                column_name: column@,
            }),
        },
{
    let key = column.to_owned();
    match ndc_type.fields.get(&key) {
        Some(found) => Ok(found),
        None => Err(
            TypeMappingValidationError::UnknownTargetColumn {
                field_name: field_name.clone(),
                column_name: key,
            },
        ),
    }
}

/// The declared field mappings as a working set: for each name the column.
fn unconsumed_field_mappings(declared: &AssocMap<String, definitions::FieldMapping>) -> (r:
    AssocMap<String, String>)
    ensures
        column_texts(r@) == declared_columns(declared@),
{
    let mut unconsumed: AssocMap<String, String> = AssocMap::new();
    let n = declared.len();
    let mut i: usize = 0;
    while i < n
        invariant
            n == declared.keys().len(),
            declared.keys().no_duplicates(),
            declared@.dom() == declared.keys().to_set(),
            i <= n,
            unconsumed@.dom() == declared.keys().take(i as int).to_set(),
            forall|k: Seq<char>| #[trigger]
                unconsumed@.contains_key(k) ==> declared@.contains_key(k) && unconsumed@[k]@
                    == definitions::declared_column(declared@[k]),
        decreases n - i,
    {
        let name = declared.key_at(i);
        let column = match declared.value_at(i) {
            definitions::FieldMapping::Column(column_mapping) => column_mapping.name.clone(),
        };
        let ghost before = unconsumed@;
        unconsumed.insert(name.clone(), column);
        proof {
            assert(declared.keys().take(i + 1) =~= declared.keys().take(i as int).push(
                declared.keys()[i as int],
            ));
            declared.keys().take(i as int).lemma_push_to_set_commute(declared.keys()[i as int]);
            assert(unconsumed@.dom() =~= declared.keys().take(i + 1).to_set());
        }
        i = i + 1;
    }
    proof {
        assert(declared.keys().take(n as int) =~= declared.keys());
        assert(column_texts(unconsumed@) =~= declared_columns(declared@));
    }
    unconsumed
}

/// Maps a resolved object type onto the object type of a data connector that
/// the declaration names.
///
/// Each field is stored in the column that the declaration gives it, or else
/// in the column of its own name, and takes that column's type. It is an
/// error if the data connector or its object type is not known, if a column
/// is missing, or if the declaration gives a column to a name that is no
/// field; the names of all such fields are reported in ascending order.
#[verifier::loop_isolation(false)]
pub fn resolve_data_connector_type_mapping(
    data_connector_type_mapping: &DataConnectorTypeMapping,
    qualified_type_name: &Qualified,
    subgraph: &str,
    type_representation: &ObjectTypeRepresentation,
    data_connectors: &DataConnectors,
) -> (r: Result<TypeMapping, TypeMappingValidationError>)
    ensures
        match r {
            Ok(type_mapping) => type_mapping_outcome(
                *data_connector_type_mapping,
                qualified_type_name@,
                subgraph@,
                field_names_of(type_representation@),
                *data_connectors,
            ) == Ok::<_, TypeMappingValidationErrorView>(type_mapping@),
            Err(e) => type_mapping_outcome(
                *data_connector_type_mapping,
                qualified_type_name@,
                subgraph@,
                field_names_of(type_representation@),
                *data_connectors,
            ) == Err::<crate::types::TypeMappingView, _>(e@),
        },
{
    let qualified_data_connector_name = Qualified::new(
        subgraph.to_owned(),
        data_connector_type_mapping.data_connector_name.clone(),
    );
    let data_connector_context = match data_connectors.0.get(&qualified_data_connector_name) {
        Some(context) => context,
        None => {
            return Err(
                TypeMappingValidationError::UnknownDataConnector {
                    data_connector: qualified_data_connector_name,
                    object_type_name: qualified_type_name.clone(),
                },
            );
        },
    };
    let ndc_object_type = match data_connector_context.object_types.get(
        &data_connector_type_mapping.data_connector_object_type,
    ) {
        Some(object_type) => object_type,
        None => {
            return Err(
                TypeMappingValidationError::UnknownNdcType {
                    object_type_name: qualified_type_name.clone(),
                    unknown_ndc_type: data_connector_type_mapping.data_connector_object_type.clone(),
                },
            );
        },
    };
    // Walk the fields of the object type. A field with a declared mapping
    // uses it up; any other is stored in the column of its own name. The
    // declared mappings that are left over at the end name no field.
    let mut unconsumed_field_mappings = unconsumed_field_mappings(
        &data_connector_type_mapping.field_mapping,
    );
    let fields = field_names(&type_representation.fields);
    let ghost names = texts_of(fields@);
    let ghost declared = declared_columns(data_connector_type_mapping.field_mapping@);
    let ghost columns = native_columns(*ndc_object_type);
    let ghost missing = column_missing_at(names, declared, columns);
    proof {
        assert(names =~= field_names_of(type_representation@));
        assert(column_texts(unconsumed_field_mappings@) =~= declared.remove_keys(
            names.take(0).to_set(),
        ));
    }
    let mut resolved_field_mappings: AssocMap<String, FieldMapping> = AssocMap::new();
    let mut i: usize = 0;
    while i < fields.len()
        invariant
            i <= fields@.len(),
            column_texts(unconsumed_field_mappings@) == declared.remove_keys(
                names.take(i as int).to_set(),
            ),
            resolved_field_mappings@.dom() == names.take(i as int).to_set(),
            forall|field: Seq<char>| #[trigger]
                resolved_field_mappings@.contains_key(field) ==> resolved_field_mappings@[field]@
                    == crate::mapping_model::resolved_field_mappings(
                    names,
                    declared,
                    columns,
                )[field],
            forall|j: int| 0 <= j < i ==> !#[trigger] missing(j),
        decreases fields@.len() - i,
    {
        let field_name = &fields[i];
        let ghost unconsumed_before = unconsumed_field_mappings@;
        let ghost resolved_before = resolved_field_mappings@;
        assert(names[i as int] == field_name@);
        assert(!names.take(i as int).contains(field_name@)) by {
            if names.take(i as int).contains(field_name@) {
                let j = choose|j: int|
                    0 <= j < names.take(i as int).len() && names.take(i as int)[j] == field_name@;
                assert(names[j] == names[i as int]);
            }
        }
        let resolved_field_mapping_column: String = match unconsumed_field_mappings.remove(
            field_name,
        ) {
            Some(column) => column,
            None => field_name.clone(),
        };
        proof {
            let seen = names.take(i as int).to_set();
            let texts_before = column_texts(unconsumed_before);
            assert(texts_before == declared.remove_keys(seen));
            assert(!seen.contains(field_name@));
            assert(texts_before.contains_key(field_name@) == unconsumed_before.contains_key(
                field_name@,
            ));
            assert(declared.remove_keys(seen).contains_key(field_name@) == declared.contains_key(
                field_name@,
            ));
            if declared.contains_key(field_name@) {
                assert(texts_before[field_name@] == unconsumed_before[field_name@]@);
                assert(declared.remove_keys(seen)[field_name@] == declared[field_name@]);
            }
            assert(resolved_field_mapping_column@ == column_of(declared, field_name@));
            assert(names.take(i + 1) =~= names.take(i as int).push(field_name@));
            names.take(i as int).lemma_push_to_set_commute(field_name@);
            assert(names.take(i + 1).to_set() =~= seen.insert(field_name@));
            let texts_after = column_texts(unconsumed_field_mappings@);
            let expected = declared.remove_keys(seen.insert(field_name@));
            assert forall|k: Seq<char>| texts_after.contains_key(k) <==> expected.contains_key(
                k,
            ) by {
                assert(texts_after.contains_key(k) == unconsumed_field_mappings@.contains_key(k));
                assert(texts_before.contains_key(k) == unconsumed_before.contains_key(k));
                assert(declared.remove_keys(seen).contains_key(k) == (declared.contains_key(k)
                    && !seen.contains(k)));
            }
            assert forall|k: Seq<char>| texts_after.contains_key(k) implies texts_after[k]
                == expected[k] by {
                assert(texts_after[k] == unconsumed_field_mappings@[k]@);
                assert(unconsumed_before.contains_key(k));
                assert(texts_before[k] == unconsumed_before[k]@);
                assert(declared.remove_keys(seen)[k] == declared[k]);
            }
            assert(texts_after =~= expected);
        }
        let source_column = match get_column(
            ndc_object_type,
            field_name,
            resolved_field_mapping_column.as_str(),
        ) {
            Ok(column) => column,
            Err(e) => {
                proof {
                    assert(missing(i as int));
                    lemma_first_index_is(names.len() as int, missing, i as int);
                }
                return Err(e);
            },
        };
        let resolved_field_mapping = FieldMapping {
            column: resolved_field_mapping_column,
            column_type: source_column.column_type.clone(),
        };
        let existing_mapping = resolved_field_mappings.insert(
            field_name.clone(),
            resolved_field_mapping,
        );
        if existing_mapping.is_some() {
            return Err(
                TypeMappingValidationError::DuplicateFieldMapping {
                    object_type_name: qualified_type_name.clone(),
                    field_name: field_name.clone(),
                },
            );
        }
        proof {
            assert(resolved_field_mappings@.dom() =~= names.take(i + 1).to_set());
            assert(names.contains(field_name@));
        }
        i = i + 1;
    }
    proof {
        assert(names.take(i as int) =~= names);
        lemma_first_index_none(names.len() as int, missing);
        assert(unconsumed_field_mappings@.dom() =~= unknown_source_fields(names, declared)) by {
            assert(column_texts(unconsumed_field_mappings@).dom()
                =~= unconsumed_field_mappings@.dom());
        }
    }
    // Declared mappings that are left name fields that the object type does
    // not have.
    if !unconsumed_field_mappings.is_empty() {
        let unconsumed_field_names = unconsumed_field_mappings.into_keys();
        let ghost left = texts_of(unconsumed_field_names@);
        let unconsumed_field_names = sort_names(unconsumed_field_names);
        proof {
            lemma_sorted_names(texts_of(unconsumed_field_names@), left);
            assert(!unknown_source_fields(names, declared).is_empty());
        }
        return Err(
            TypeMappingValidationError::UnknownSourceFields {
                object_type_name: qualified_type_name.clone(),
                field_names: unconsumed_field_names,
            },
        );
    }
    let resolved_type_mapping = TypeMapping::Object {
        ndc_object_type_name: data_connector_type_mapping.data_connector_object_type.clone(),
        field_mappings: resolved_field_mappings,
    };
    proof {
        assert(unknown_source_fields(names, declared).is_empty());
        assert(resolved_field_mappings@.map_values(|m: FieldMapping| m@)
            =~= crate::mapping_model::resolved_field_mappings(names, declared, columns));
    }
    Ok(resolved_type_mapping)
}

} // verus!
