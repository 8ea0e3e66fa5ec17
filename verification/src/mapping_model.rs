//! What mapping an object type onto a data connector's type means: for each
//! field the column that it is stored in, or the first error.

use crate::data_connectors::{DataConnectors, NativeObjectField, NativeObjectType, NativeTypeView};
use crate::definitions::{declared_column, DataConnectorTypeMapping, FieldMapping};
use crate::error::TypeMappingValidationErrorView;
use crate::qualified::QualifiedName;
use crate::search::first_index;
use crate::text_order::ascending_names;
use crate::types::{FieldMappingView, TypeMappingView};
use vstd::prelude::*;

verus! {

/// The column that each declared field mapping names.
pub open spec fn declared_columns(mapping: Map<Seq<char>, FieldMapping>) -> Map<
    Seq<char>,
    Seq<char>,
> {
    mapping.map_values(|m: FieldMapping| declared_column(m))
}

/// The column of a field: the declared one, or else the one of its own name.
pub open spec fn column_of(declared: Map<Seq<char>, Seq<char>>, field: Seq<char>) -> Seq<char> {
    if declared.contains_key(field) {
        declared[field]
    } else {
        field
    }
}

/// The columns of a data connector's object type, each with its type.
pub open spec fn native_columns(t: NativeObjectType) -> Map<Seq<char>, NativeTypeView> {
    t.fields@.map_values(|f: NativeObjectField| f.column_type@)
}

/// Whether the data connector's type lacks the column of the field at `i`.
pub open spec fn column_missing_at(
    names: Seq<Seq<char>>,
    declared: Map<Seq<char>, Seq<char>>,
    columns: Map<Seq<char>, NativeTypeView>,
) -> spec_fn(int) -> bool {
    |i: int| !columns.contains_key(column_of(declared, names[i]))
}

/// The names with a declared field mapping that are no fields of the object type.
pub open spec fn unknown_source_fields(
    names: Seq<Seq<char>>,
    declared: Map<Seq<char>, Seq<char>>,
) -> Set<Seq<char>> {
    declared.dom().difference(names.to_set())
}

/// For each field its column and the column's type.
pub open spec fn resolved_field_mappings(
    names: Seq<Seq<char>>,
    declared: Map<Seq<char>, Seq<char>>,
    columns: Map<Seq<char>, NativeTypeView>,
) -> Map<Seq<char>, FieldMappingView> {
    Map::new(
        |field: Seq<char>| names.contains(field),
        |field: Seq<char>|
            FieldMappingView {
                column: column_of(declared, field),
                column_type: columns[column_of(declared, field)],
            },
    )
}

/// What mapping an object type with the fields `names` gives: the first of
/// these errors, or else the mapping of every field.
///
/// The data connector is not configured; it has no object type of the
/// declared name; that type lacks the column of a field, taking the fields
/// in their order; a field mapping is declared for a name that is no field.
pub open spec fn type_mapping_outcome(
    mapping: DataConnectorTypeMapping,
    object_type: QualifiedName,
    subgraph: Seq<char>,
    names: Seq<Seq<char>>,
    data_connectors: DataConnectors,
) -> Result<TypeMappingView, TypeMappingValidationErrorView> {
    let source = QualifiedName { subgraph, name: mapping.data_connector_name@ };
    let native = mapping.data_connector_object_type@;
    let declared = declared_columns(mapping.field_mapping@);
    if !data_connectors.0@.contains_key(source) {
        Err(
            TypeMappingValidationErrorView::UnknownDataConnector {
                data_connector: source,
                object_type_name: object_type,
            },
        )
    } else if !data_connectors.0@[source].object_types@.contains_key(native) {
        Err(
            TypeMappingValidationErrorView::UnknownNdcType {
                object_type_name: object_type,
                unknown_ndc_type: native,
            },
        )
    } else {
        let columns = native_columns(data_connectors.0@[source].object_types@[native]);
        match first_index(names.len() as int, column_missing_at(names, declared, columns)) {
            Some(i) => Err(
                TypeMappingValidationErrorView::UnknownTargetColumn {
                    field_name: names[i],
                    column_name: column_of(declared, names[i]),
                },
            ),
            None => if !unknown_source_fields(names, declared).is_empty() {
                Err(
                    TypeMappingValidationErrorView::UnknownSourceFields {
                        object_type_name: object_type,
                        field_names: ascending_names(unknown_source_fields(names, declared)),
                    },
                )
            } else {
                Ok(
                    TypeMappingView::Object {
                        ndc_object_type_name: native,
                        field_mappings: resolved_field_mappings(names, declared, columns),
                    },
                )
            },
        }
    }
}

} // verus!
