use indexmap::IndexMap;
use metadata_resolve::assoc::AssocMap;
use metadata_resolve::data_connectors::{
    DataConnectorContext, DataConnectors, NativeObjectField, NativeObjectType, NativeType,
};
use metadata_resolve::definitions::{ColumnFieldMapping, DataConnectorTypeMapping, FieldMapping};
use metadata_resolve::error::TypeMappingValidationError;
use metadata_resolve::qualified::Qualified;
use metadata_resolve::type_reference::{BaseType, InbuiltType, TypeName, TypeReference};
use metadata_resolve::types::{FieldDefinition, ObjectTypeRepresentation, TypeMapping};
use metadata_resolve::{get_column, resolve_data_connector_type_mapping};

fn named(name: &str) -> NativeType {
    NativeType::Named { name: name.to_string() }
}

fn native_type(columns: Vec<(&str, NativeType)>) -> NativeObjectType {
    let mut fields = AssocMap::new();
    for (name, column_type) in columns {
        fields.insert(name.to_string(), NativeObjectField { column_type });
    }
    NativeObjectType { fields }
}

fn connectors(subgraph: &str, name: &str, types: Vec<(&str, NativeObjectType)>) -> DataConnectors {
    let mut object_types = AssocMap::new();
    for (native_name, object_type) in types {
        object_types.insert(native_name.to_string(), object_type);
    }
    let mut all = AssocMap::new();
    all.insert(
        Qualified::new(subgraph.to_string(), name.to_string()),
        DataConnectorContext { object_types },
    );
    DataConnectors(all)
}

fn representation(fields: &[&str]) -> ObjectTypeRepresentation {
    let mut table = IndexMap::new();
    for name in fields {
        table.insert(
            name.to_string(),
            FieldDefinition {
                field_type: TypeReference {
                    underlying_type: BaseType::Named(TypeName::Inbuilt(InbuiltType::String)),
                    nullable: false,
                },
                description: None,
                deprecated: None,
            },
        );
    }
    ObjectTypeRepresentation {
        fields: table,
        global_id_fields: vec![],
        apollo_federation_config: None,
        graphql_output_type_name: None,
        graphql_input_type_name: None,
        description: None,
    }
}

fn mapping(connector: &str, object_type: &str, columns: &[(&str, &str)]) -> DataConnectorTypeMapping {
    let mut field_mapping = AssocMap::new();
    for (field, column) in columns {
        field_mapping.insert(
            field.to_string(),
            FieldMapping::Column(ColumnFieldMapping { name: column.to_string() }),
        );
    }
    DataConnectorTypeMapping {
        data_connector_name: connector.to_string(),
        data_connector_object_type: object_type.to_string(),
        field_mapping,
    }
}

fn user_type() -> Qualified {
    Qualified::new("app".to_string(), "User".to_string())
}

fn column_of<'a>(resolved: &'a TypeMapping, field: &str) -> Option<(&'a str, &'a NativeType)> {
    match resolved {
        TypeMapping::Object { field_mappings, .. } => {
            field_mappings.get(&field.to_string()).map(|m| (m.column.as_str(), &m.column_type))
        }
    }
}

fn mapped_fields(resolved: &TypeMapping) -> usize {
    match resolved {
        TypeMapping::Object { field_mappings, .. } => field_mappings.len(),
    }
}

#[test]
fn fields_without_a_declared_column_take_the_column_of_their_name() {
    let all = connectors(
        "app",
        "db",
        vec![("users", native_type(vec![("id", named("int4")), ("name", named("text"))]))],
    );
    let resolved = resolve_data_connector_type_mapping(
        &mapping("db", "users", &[]),
        &user_type(),
        "app",
        &representation(&["id", "name"]),
        &all,
    )
    .unwrap();
    match &resolved {
        TypeMapping::Object { ndc_object_type_name, .. } => {
            assert_eq!(ndc_object_type_name, "users")
        }
    }
    assert_eq!(mapped_fields(&resolved), 2);
    assert_eq!(column_of(&resolved, "id"), Some(("id", &named("int4"))));
    assert_eq!(column_of(&resolved, "name"), Some(("name", &named("text"))));
    assert_eq!(column_of(&resolved, "other"), None);
}

#[test]
fn a_declared_column_is_used_for_its_field_only() {
    let all = connectors(
        "app",
        "db",
        vec![(
            "users",
            native_type(vec![
                ("id", named("int4")),
                ("full_name", named("text")),
                ("name", named("varchar")),
            ]),
        )],
    );
    let resolved = resolve_data_connector_type_mapping(
        &mapping("db", "users", &[("name", "full_name")]),
        &user_type(),
        "app",
        &representation(&["id", "name"]),
        &all,
    )
    .unwrap();
    assert_eq!(mapped_fields(&resolved), 2);
    assert_eq!(column_of(&resolved, "id"), Some(("id", &named("int4"))));
    assert_eq!(column_of(&resolved, "name"), Some(("full_name", &named("text"))));
}

#[test]
fn the_type_of_a_column_is_copied_as_it_is() {
    let column_type = NativeType::Nullable {
        underlying_type: Box::new(NativeType::Array {
            element_type: Box::new(NativeType::Predicate {
                object_type_name: "users".to_string(),
            }),
        }),
    };
    let expected = NativeType::Nullable {
        underlying_type: Box::new(NativeType::Array {
            element_type: Box::new(NativeType::Predicate {
                object_type_name: "users".to_string(),
            }),
        }),
    };
    let all = connectors("app", "db", vec![("users", native_type(vec![("friends", column_type)]))]);
    let resolved = resolve_data_connector_type_mapping(
        &mapping("db", "users", &[]),
        &user_type(),
        "app",
        &representation(&["friends"]),
        &all,
    )
    .unwrap();
    assert_eq!(column_of(&resolved, "friends"), Some(("friends", &expected)));
}

#[test]
fn a_declared_column_for_a_name_that_is_no_field_fails() {
    let all = connectors(
        "app",
        "db",
        vec![(
            "users",
            native_type(vec![
                ("id", named("int4")),
                ("name", named("text")),
                ("nick_col", named("text")),
            ]),
        )],
    );
    let result = resolve_data_connector_type_mapping(
        &mapping("db", "users", &[("nickname", "nick_col")]),
        &user_type(),
        "app",
        &representation(&["id", "name"]),
        &all,
    );
    assert_eq!(
        result.unwrap_err(),
        TypeMappingValidationError::UnknownSourceFields {
            object_type_name: user_type(),
            field_names: vec!["nickname".to_string()],
        }
    );
}

#[test]
fn all_names_that_are_no_fields_are_reported_in_ascending_order() {
    let all = connectors("app", "db", vec![("users", native_type(vec![("id", named("int4"))]))]);
    let result = resolve_data_connector_type_mapping(
        &mapping(
            "db",
            "users",
            &[("zeta", "z"), ("id", "id"), ("alpha", "a"), ("Beta", "b"), ("alp", "c"), ("écu", "d")],
        ),
        &user_type(),
        "app",
        &representation(&["id"]),
        &all,
    );
    assert_eq!(
        result.unwrap_err(),
        TypeMappingValidationError::UnknownSourceFields {
            object_type_name: user_type(),
            field_names: vec![
                "Beta".to_string(),
                "alp".to_string(),
                "alpha".to_string(),
                "zeta".to_string(),
                "écu".to_string(),
            ],
        }
    );
}

#[test]
fn a_data_connector_that_is_not_configured_fails() {
    let all = connectors("app", "db", vec![("users", native_type(vec![("id", named("int4"))]))]);
    let result = resolve_data_connector_type_mapping(
        &mapping("warehouse", "users", &[]),
        &user_type(),
        "app",
        &representation(&["id"]),
        &all,
    );
    assert_eq!(
        result.unwrap_err(),
        TypeMappingValidationError::UnknownDataConnector {
            data_connector: Qualified::new("app".to_string(), "warehouse".to_string()),
            object_type_name: user_type(),
        }
    );
}

#[test]
fn a_data_connector_of_another_subgraph_is_not_found() {
    let all = connectors("other", "db", vec![("users", native_type(vec![("id", named("int4"))]))]);
    let result = resolve_data_connector_type_mapping(
        &mapping("db", "users", &[]),
        &user_type(),
        "app",
        &representation(&["id"]),
        &all,
    );
    assert_eq!(
        result.unwrap_err(),
        TypeMappingValidationError::UnknownDataConnector {
            data_connector: Qualified::new("app".to_string(), "db".to_string()),
            object_type_name: user_type(),
        }
    );
}

#[test]
fn an_object_type_that_the_data_connector_lacks_fails() {
    let all = connectors("app", "db", vec![("users", native_type(vec![("id", named("int4"))]))]);
    let result = resolve_data_connector_type_mapping(
        &mapping("db", "people", &[]),
        &user_type(),
        "app",
        &representation(&["id"]),
        &all,
    );
    assert_eq!(
        result.unwrap_err(),
        TypeMappingValidationError::UnknownNdcType {
            object_type_name: user_type(),
            unknown_ndc_type: "people".to_string(),
        }
    );
}

#[test]
fn a_missing_column_fails_for_the_first_field_that_lacks_one() {
    let all = connectors("app", "db", vec![("users", native_type(vec![("id", named("int4"))]))]);
    let result = resolve_data_connector_type_mapping(
        &mapping("db", "users", &[("email", "mail")]),
        &user_type(),
        "app",
        &representation(&["id", "name", "email"]),
        &all,
    );
    assert_eq!(
        result.unwrap_err(),
        TypeMappingValidationError::UnknownTargetColumn {
            field_name: "name".to_string(),
            column_name: "name".to_string(),
        }
    );
}

#[test]
fn a_missing_declared_column_is_reported_under_its_own_name() {
    let all = connectors(
        "app",
        "db",
        vec![("users", native_type(vec![("id", named("int4")), ("email", named("text"))]))],
    );
    let result = resolve_data_connector_type_mapping(
        &mapping("db", "users", &[("email", "mail")]),
        &user_type(),
        "app",
        &representation(&["id", "email"]),
        &all,
    );
    assert_eq!(
        result.unwrap_err(),
        TypeMappingValidationError::UnknownTargetColumn {
            field_name: "email".to_string(),
            column_name: "mail".to_string(),
        }
    );
}

#[test]
fn a_missing_column_is_reported_before_names_that_are_no_fields() {
    let all = connectors("app", "db", vec![("users", native_type(vec![("id", named("int4"))]))]);
    let result = resolve_data_connector_type_mapping(
        &mapping("db", "users", &[("nickname", "nick_col")]),
        &user_type(),
        "app",
        &representation(&["id", "name"]),
        &all,
    );
    assert_eq!(
        result.unwrap_err(),
        TypeMappingValidationError::UnknownTargetColumn {
            field_name: "name".to_string(),
            column_name: "name".to_string(),
        }
    );
}

#[test]
fn an_object_type_without_fields_maps_onto_anything() {
    let all = connectors("app", "db", vec![("users", native_type(vec![("id", named("int4"))]))]);
    let resolved = resolve_data_connector_type_mapping(
        &mapping("db", "users", &[]),
        &user_type(),
        "app",
        &representation(&[]),
        &all,
    )
    .unwrap();
    assert_eq!(mapped_fields(&resolved), 0);
}

#[test]
fn get_column_finds_a_column_by_its_name() {
    let users = native_type(vec![("id", named("int4")), ("name", named("text"))]);
    let found = get_column(&users, &"id".to_string(), "id").unwrap();
    assert_eq!(found.column_type, named("int4"));
    assert_eq!(
        get_column(&users, &"nick".to_string(), "nickname").unwrap_err(),
        TypeMappingValidationError::UnknownTargetColumn {
            field_name: "nick".to_string(),
            column_name: "nickname".to_string(),
        }
    );
}
