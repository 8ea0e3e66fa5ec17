use metadata_resolve::assoc::AssocMap;
use metadata_resolve::data_connectors::{
    DataConnectorContext, DataConnectors, NativeObjectField, NativeObjectType, NativeType,
};
use metadata_resolve::definitions::{
    ApolloFederationObjectKey, ColumnFieldMapping, DataConnectorTypeMapping, FieldDefinition,
    FieldMapping, GraphQlTypeName, MetadataAccessor, ObjectApolloFederationConfig,
    ObjectTypeGraphQLConfiguration, ObjectTypeV1, QualifiedObject,
};
use metadata_resolve::error::{Error, TypeMappingValidationError};
use metadata_resolve::qualified::Qualified;
use metadata_resolve::resolve;
use metadata_resolve::type_reference::{BaseType, InbuiltType, TypeName, TypeReference};
use metadata_resolve::types::TypeMapping;

fn text() -> NativeType {
    NativeType::Named { name: "text".to_string() }
}

fn native(columns: &[&str]) -> NativeObjectType {
    let mut fields = AssocMap::new();
    for name in columns {
        fields.insert(name.to_string(), NativeObjectField { column_type: text() });
    }
    NativeObjectType { fields }
}

fn database() -> DataConnectors {
    let mut object_types = AssocMap::new();
    object_types.insert("users".to_string(), native(&["id", "name", "mail"]));
    object_types.insert("orders".to_string(), native(&["id", "total"]));
    let mut all = AssocMap::new();
    all.insert(
        Qualified::new("app".to_string(), "db".to_string()),
        DataConnectorContext { object_types },
    );
    let mut archive_types = AssocMap::new();
    archive_types.insert("users".to_string(), native(&["id", "name"]));
    all.insert(
        Qualified::new("app".to_string(), "archive".to_string()),
        DataConnectorContext { object_types: archive_types },
    );
    DataConnectors(all)
}

fn field(name: &str) -> FieldDefinition {
    FieldDefinition {
        name: name.to_string(),
        field_type: TypeReference {
            underlying_type: BaseType::Named(TypeName::Inbuilt(InbuiltType::String)),
            nullable: false,
        },
        description: None,
        deprecated: None,
    }
}

fn mapping(connector: &str, object_type: &str, columns: &[(&str, &str)]) -> DataConnectorTypeMapping {
    let mut field_mapping = AssocMap::new();
    for (name, column) in columns {
        field_mapping.insert(
            name.to_string(),
            FieldMapping::Column(ColumnFieldMapping { name: column.to_string() }),
        );
    }
    DataConnectorTypeMapping {
        data_connector_name: connector.to_string(),
        data_connector_object_type: object_type.to_string(),
        field_mapping,
    }
}

fn declared(
    subgraph: &str,
    name: &str,
    fields: &[&str],
    mappings: Vec<DataConnectorTypeMapping>,
) -> QualifiedObject {
    QualifiedObject {
        subgraph: subgraph.to_string(),
        object: ObjectTypeV1 {
            name: name.to_string(),
            fields: fields.iter().map(|f| field(f)).collect(),
            global_id_fields: None,
            graphql: None,
            description: None,
            data_connector_type_mapping: mappings,
        },
    }
}

fn with_output_name(mut object: QualifiedObject, name: &str) -> QualifiedObject {
    object.object.graphql = Some(ObjectTypeGraphQLConfiguration {
        output_type_name: Some(GraphQlTypeName::Identifier(name.to_string())),
        input_type_name: None,
        apollo_federation: None,
    });
    object
}

fn qualified(subgraph: &str, name: &str) -> Qualified {
    Qualified::new(subgraph.to_string(), name.to_string())
}

fn columns_of(resolved: &TypeMapping) -> Vec<(String, String)> {
    match resolved {
        TypeMapping::Object { field_mappings, .. } => {
            let mut all = vec![];
            for name in ["id", "name", "email", "total"] {
                if let Some(m) = field_mappings.get(&name.to_string()) {
                    all.push((name.to_string(), m.column.clone()));
                }
            }
            assert_eq!(all.len(), field_mappings.len());
            all
        }
    }
}

#[test]
fn nothing_declared_resolves_to_nothing() {
    let output = resolve(&MetadataAccessor { object_types: vec![] }, &database()).unwrap();
    assert_eq!(output.object_types.len(), 0);
    assert_eq!(output.graphql_types.len(), 0);
    assert_eq!(output.global_id_enabled_types.len(), 0);
    assert_eq!(output.apollo_federation_entity_enabled_types.len(), 0);
}

#[test]
fn every_field_gets_one_column_for_each_declared_source() {
    let accessor = MetadataAccessor {
        object_types: vec![
            with_output_name(
                declared(
                    "app",
                    "User",
                    &["id", "name", "email"],
                    vec![
                        mapping("db", "users", &[("email", "mail")]),
                        mapping("archive", "users", &[("email", "name")]),
                    ],
                ),
                "User",
            ),
            declared("app", "Order", &["id", "total"], vec![mapping("db", "orders", &[])]),
            declared("app", "Note", &["id"], vec![]),
        ],
    };
    let output = resolve(&accessor, &database()).unwrap();
    assert_eq!(output.object_types.len(), 3);
    assert!(output.graphql_types.contains("User"));
    assert_eq!(output.graphql_types.len(), 1);

    let user = output.object_types.get(&qualified("app", "User")).unwrap();
    let user_fields: Vec<&str> = user.object_type.fields.keys().map(|k| k.as_str()).collect();
    assert_eq!(user_fields, vec!["id", "name", "email"]);
    assert_eq!(user.type_mappings.len(), 2);
    let in_db = user.type_mappings.get(&qualified("app", "db"), "users").unwrap();
    assert_eq!(
        columns_of(in_db),
        vec![
            ("id".to_string(), "id".to_string()),
            ("name".to_string(), "name".to_string()),
            ("email".to_string(), "mail".to_string()),
        ]
    );
    let in_archive = user.type_mappings.get(&qualified("app", "archive"), "users").unwrap();
    assert_eq!(
        columns_of(in_archive),
        vec![
            ("id".to_string(), "id".to_string()),
            ("name".to_string(), "name".to_string()),
            ("email".to_string(), "name".to_string()),
        ]
    );
    assert!(user.type_mappings.get(&qualified("app", "db"), "orders").is_none());

    let order = output.object_types.get(&qualified("app", "Order")).unwrap();
    assert_eq!(order.type_mappings.len(), 1);
    let order_in_db = order.type_mappings.get(&qualified("app", "db"), "orders").unwrap();
    assert_eq!(
        columns_of(order_in_db),
        vec![("id".to_string(), "id".to_string()), ("total".to_string(), "total".to_string())]
    );

    let note = output.object_types.get(&qualified("app", "Note")).unwrap();
    assert_eq!(note.type_mappings.len(), 0);
}

#[test]
fn a_second_declaration_of_one_qualified_name_fails() {
    let accessor = MetadataAccessor {
        object_types: vec![
            declared("app", "User", &["id"], vec![]),
            declared("app", "Order", &["id"], vec![]),
            declared("app", "User", &["name"], vec![]),
        ],
    };
    assert_eq!(
        resolve(&accessor, &database()).unwrap_err(),
        Error::DuplicateTypeDefinition { name: qualified("app", "User") }
    );
}

#[test]
fn one_name_in_two_subgraphs_is_two_object_types() {
    let accessor = MetadataAccessor {
        object_types: vec![
            declared("app", "User", &["id"], vec![]),
            declared("crm", "User", &["id"], vec![]),
        ],
    };
    let output = resolve(&accessor, &database()).unwrap();
    assert_eq!(output.object_types.len(), 2);
    assert!(output.object_types.contains_key(&qualified("app", "User")));
    assert!(output.object_types.contains_key(&qualified("crm", "User")));
}

#[test]
fn a_second_mapping_onto_one_type_of_one_source_fails() {
    let accessor = MetadataAccessor {
        object_types: vec![declared(
            "app",
            "User",
            &["id"],
            vec![
                mapping("db", "users", &[]),
                mapping("archive", "users", &[]),
                mapping("db", "users", &[]),
            ],
        )],
    };
    assert_eq!(
        resolve(&accessor, &database()).unwrap_err(),
        Error::DuplicateDataConnectorObjectTypeMapping {
            data_connector: qualified("app", "db"),
            data_connector_object_type: "users".to_string(),
        }
    );
}

#[test]
fn a_mapping_that_fails_is_reported_with_the_object_type() {
    let accessor = MetadataAccessor {
        object_types: vec![declared(
            "app",
            "User",
            &["id", "name"],
            vec![mapping("db", "users", &[("nickname", "nick_col")])],
        )],
    };
    assert_eq!(
        resolve(&accessor, &database()).unwrap_err(),
        Error::DataConnectorTypeMappingValidationError {
            object_type_name: qualified("app", "User"),
            error: TypeMappingValidationError::UnknownSourceFields {
                object_type_name: qualified("app", "User"),
                field_names: vec!["nickname".to_string()],
            },
        }
    );
}

#[test]
fn the_first_error_in_the_order_of_declaration_is_reported() {
    let accessor = MetadataAccessor {
        object_types: vec![
            declared("app", "Fine", &["id"], vec![mapping("db", "users", &[])]),
            declared("app", "Twice", &["a", "a"], vec![mapping("nowhere", "users", &[])]),
            declared("app", "Fine", &["id"], vec![]),
        ],
    };
    assert_eq!(
        resolve(&accessor, &database()).unwrap_err(),
        Error::DuplicateFieldDefinition {
            object_type_name: qualified("app", "Twice"),
            field_name: "a".to_string(),
        }
    );
}

#[test]
fn the_object_type_is_resolved_before_its_mappings() {
    let accessor = MetadataAccessor {
        object_types: vec![
            declared("app", "User", &["id"], vec![]),
            with_output_name(
                declared("app", "User", &["id"], vec![mapping("nowhere", "users", &[])]),
                "User",
            ),
        ],
    };
    assert_eq!(
        resolve(&accessor, &database()).unwrap_err(),
        Error::DataConnectorTypeMappingValidationError {
            object_type_name: qualified("app", "User"),
            error: TypeMappingValidationError::UnknownDataConnector {
                data_connector: qualified("app", "nowhere"),
                object_type_name: qualified("app", "User"),
            },
        }
    );
}

#[test]
fn graphql_names_are_claimed_across_object_types() {
    let accessor = MetadataAccessor {
        object_types: vec![
            with_output_name(declared("app", "User", &["id"], vec![]), "User"),
            with_output_name(declared("app", "Customer", &["id"], vec![]), "User"),
        ],
    };
    assert_eq!(
        resolve(&accessor, &database()).unwrap_err(),
        Error::ConflictingGraphQlType { graphql_type_name: "User".to_string() }
    );
}

#[test]
fn global_ids_and_federation_entities_are_collected() {
    let mut user = declared("app", "User", &["name", "mail"], vec![]);
    user.object.global_id_fields = Some(vec!["mail".to_string()]);
    let mut order = declared("app", "Order", &["number"], vec![]);
    order.object.graphql = Some(ObjectTypeGraphQLConfiguration {
        output_type_name: None,
        input_type_name: None,
        apollo_federation: Some(ObjectApolloFederationConfig {
            keys: vec![ApolloFederationObjectKey { fields: vec!["number".to_string()] }],
        }),
    });
    let accessor = MetadataAccessor {
        object_types: vec![user, order, declared("app", "Note", &["id"], vec![])],
    };
    let output = resolve(&accessor, &database()).unwrap();
    assert_eq!(output.global_id_enabled_types.len(), 1);
    assert_eq!(
        output.global_id_enabled_types.get(&qualified("app", "User")),
        Some(&Vec::<Qualified>::new())
    );
    assert_eq!(output.apollo_federation_entity_enabled_types.len(), 1);
    assert_eq!(
        output.apollo_federation_entity_enabled_types.get(&qualified("app", "Order")),
        Some(&None)
    );
}
