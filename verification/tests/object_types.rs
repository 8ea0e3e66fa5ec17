use metadata_resolve::assoc::AssocMap;
use metadata_resolve::name_set::NameSet;
use metadata_resolve::definitions::{
    ApolloFederationObjectKey, Deprecated, FieldDefinition, GraphQlTypeName,
    ObjectApolloFederationConfig, ObjectTypeGraphQLConfiguration, ObjectTypeV1,
};
use metadata_resolve::error::Error;
use metadata_resolve::qualified::Qualified;
use metadata_resolve::type_reference::{
    mk_qualified_type_reference, BaseType, InbuiltType, TypeName, TypeReference,
};
use metadata_resolve::types::ObjectTypeRepresentation;
use metadata_resolve::{resolve_field, resolve_object_type, store_new_graphql_type};

fn custom(name: &str) -> TypeReference<String> {
    TypeReference {
        underlying_type: BaseType::Named(TypeName::Custom(name.to_string())),
        nullable: false,
    }
}

fn inbuilt(t: InbuiltType) -> TypeReference<String> {
    TypeReference { underlying_type: BaseType::Named(TypeName::Inbuilt(t)), nullable: false }
}

fn field(name: &str, field_type: TypeReference<String>) -> FieldDefinition {
    FieldDefinition { name: name.to_string(), field_type, description: None, deprecated: None }
}

fn object(name: &str, fields: Vec<FieldDefinition>) -> ObjectTypeV1 {
    ObjectTypeV1 {
        name: name.to_string(),
        fields,
        global_id_fields: None,
        graphql: None,
        description: None,
        data_connector_type_mapping: vec![],
    }
}

fn names(list: &[&str]) -> Vec<String> {
    list.iter().map(|s| s.to_string()).collect()
}

fn qualified(subgraph: &str, name: &str) -> Qualified {
    Qualified::new(subgraph.to_string(), name.to_string())
}

fn graphql(output: Option<&str>, input: Option<&str>) -> ObjectTypeGraphQLConfiguration {
    ObjectTypeGraphQLConfiguration {
        output_type_name: output.map(|n| GraphQlTypeName::Identifier(n.to_string())),
        input_type_name: input.map(|n| GraphQlTypeName::Identifier(n.to_string())),
        apollo_federation: None,
    }
}

fn federation(keys: &[&[&str]]) -> ObjectTypeGraphQLConfiguration {
    ObjectTypeGraphQLConfiguration {
        output_type_name: None,
        input_type_name: None,
        apollo_federation: Some(ObjectApolloFederationConfig {
            keys: keys.iter().map(|k| ApolloFederationObjectKey { fields: names(k) }).collect(),
        }),
    }
}

struct Registry {
    graphql_types: NameSet,
    global_id_enabled_types: AssocMap<Qualified, Vec<Qualified>>,
    apollo_federation_entity_enabled_types: AssocMap<Qualified, Option<Qualified>>,
}

fn registry() -> Registry {
    Registry {
        graphql_types: NameSet::new(),
        global_id_enabled_types: AssocMap::new(),
        apollo_federation_entity_enabled_types: AssocMap::new(),
    }
}

fn run(
    definition: &ObjectTypeV1,
    subgraph: &str,
    registry: &mut Registry,
) -> Result<ObjectTypeRepresentation, Error> {
    let name = qualified(subgraph, &definition.name);
    resolve_object_type(
        definition,
        &mut registry.graphql_types,
        &name,
        subgraph,
        &mut registry.global_id_enabled_types,
        &mut registry.apollo_federation_entity_enabled_types,
    )
}

#[test]
fn qualifies_a_custom_type_by_the_subgraph() {
    let resolved = mk_qualified_type_reference(&custom("Author"), "blog");
    assert_eq!(
        resolved,
        TypeReference {
            underlying_type: BaseType::Named(TypeName::Custom(qualified("blog", "Author"))),
            nullable: false,
        }
    );
}

#[test]
fn leaves_an_inbuilt_type_as_it_is() {
    let resolved = mk_qualified_type_reference(&inbuilt(InbuiltType::Int), "blog");
    assert_eq!(
        resolved,
        TypeReference {
            underlying_type: BaseType::Named(TypeName::Inbuilt(InbuiltType::Int)),
            nullable: false,
        }
    );
}

#[test]
fn qualifies_inside_lists_and_keeps_nullability() {
    let declared = TypeReference {
        underlying_type: BaseType::List(Box::new(TypeReference {
            underlying_type: BaseType::Named(TypeName::Custom("Tag".to_string())),
            nullable: true,
        })),
        nullable: false,
    };
    let expected = TypeReference {
        underlying_type: BaseType::List(Box::new(TypeReference {
            underlying_type: BaseType::Named(TypeName::Custom(qualified("shop", "Tag"))),
            nullable: true,
        })),
        nullable: false,
    };
    assert_eq!(mk_qualified_type_reference(&declared, "shop"), expected);
}

#[test]
fn resolve_field_keeps_description_and_deprecation() {
    let declared = FieldDefinition {
        name: "title".to_string(),
        field_type: custom("Text"),
        description: Some("the title".to_string()),
        deprecated: Some(Deprecated { reason: Some("use headline".to_string()) }),
    };
    let resolved = resolve_field(&declared, "blog").unwrap();
    assert_eq!(
        resolved.field_type,
        TypeReference {
            underlying_type: BaseType::Named(TypeName::Custom(qualified("blog", "Text"))),
            nullable: false,
        }
    );
    assert_eq!(resolved.description, Some("the title".to_string()));
    assert_eq!(resolved.deprecated, Some(Deprecated { reason: Some("use headline".to_string()) }));
}

#[test]
fn resolves_fields_in_the_order_of_declaration() {
    let definition = object(
        "Article",
        vec![
            field("title", inbuilt(InbuiltType::String)),
            field("author", custom("Author")),
            field("id", inbuilt(InbuiltType::ID)),
        ],
    );
    let mut registry = registry();
    let resolved = run(&definition, "blog", &mut registry).unwrap();
    let order: Vec<&str> = resolved.fields.keys().map(|k| k.as_str()).collect();
    assert_eq!(order, vec!["title", "author", "id"]);
    assert_eq!(
        resolved.fields["author"].field_type,
        TypeReference {
            underlying_type: BaseType::Named(TypeName::Custom(qualified("blog", "Author"))),
            nullable: false,
        }
    );
    assert_eq!(resolved.global_id_fields, Vec::<String>::new());
    assert_eq!(resolved.graphql_output_type_name, None);
    assert_eq!(resolved.graphql_input_type_name, None);
    assert_eq!(resolved.apollo_federation_config, None);
}

#[test]
fn an_object_type_without_fields_is_resolved() {
    let mut definition = object("Empty", vec![]);
    definition.description = Some("nothing in it".to_string());
    let mut registry = registry();
    let resolved = run(&definition, "blog", &mut registry).unwrap();
    assert_eq!(resolved.fields.len(), 0);
    assert_eq!(resolved.description, Some("nothing in it".to_string()));
}

#[test]
fn two_fields_of_one_name_fail_whatever_their_types() {
    let definition = object(
        "Article",
        vec![
            field("title", inbuilt(InbuiltType::String)),
            field("body", inbuilt(InbuiltType::String)),
            field("title", custom("Headline")),
        ],
    );
    let mut registry = registry();
    assert_eq!(
        run(&definition, "blog", &mut registry),
        Err(Error::DuplicateFieldDefinition {
            object_type_name: qualified("blog", "Article"),
            field_name: "title".to_string(),
        })
    );
    let same_types = object(
        "Article",
        vec![field("x", inbuilt(InbuiltType::Int)), field("x", inbuilt(InbuiltType::Int))],
    );
    assert_eq!(
        run(&same_types, "blog", &mut registry),
        Err(Error::DuplicateFieldDefinition {
            object_type_name: qualified("blog", "Article"),
            field_name: "x".to_string(),
        })
    );
}

#[test]
fn the_first_repeated_field_is_reported() {
    let definition = object(
        "T",
        vec![
            field("a", inbuilt(InbuiltType::Int)),
            field("b", inbuilt(InbuiltType::Int)),
            field("b", inbuilt(InbuiltType::Int)),
            field("a", inbuilt(InbuiltType::Int)),
        ],
    );
    let mut registry = registry();
    assert_eq!(
        run(&definition, "s", &mut registry),
        Err(Error::DuplicateFieldDefinition {
            object_type_name: qualified("s", "T"),
            field_name: "b".to_string(),
        })
    );
}

#[test]
fn a_global_id_field_that_is_no_field_fails() {
    let mut definition = object(
        "Person",
        vec![field("name", inbuilt(InbuiltType::String))],
    );
    definition.global_id_fields = Some(names(&["age"]));
    let mut registry = registry();
    assert_eq!(
        run(&definition, "people", &mut registry),
        Err(Error::UnknownFieldInGlobalId {
            field_name: "age".to_string(),
            object_type_name: qualified("people", "Person"),
        })
    );
}

#[test]
fn a_field_named_id_beside_global_id_fields_fails() {
    let mut definition = object(
        "Person",
        vec![field("id", inbuilt(InbuiltType::ID)), field("age", inbuilt(InbuiltType::Int))],
    );
    definition.global_id_fields = Some(names(&["age"]));
    let mut registry = registry();
    assert_eq!(
        run(&definition, "people", &mut registry),
        Err(Error::IdFieldConflictingGlobalId { object_type_name: qualified("people", "Person") })
    );
    assert!(!registry.global_id_enabled_types.contains_key(&qualified("people", "Person")));
}

#[test]
fn global_id_fields_are_kept_in_order_and_the_type_is_registered() {
    let mut definition = object(
        "Person",
        vec![
            field("first", inbuilt(InbuiltType::String)),
            field("last", inbuilt(InbuiltType::String)),
            field("born", inbuilt(InbuiltType::Int)),
        ],
    );
    definition.global_id_fields = Some(names(&["last", "first"]));
    let mut registry = registry();
    let resolved = run(&definition, "people", &mut registry).unwrap();
    assert_eq!(resolved.global_id_fields, names(&["last", "first"]));
    assert_eq!(
        registry.global_id_enabled_types.get(&qualified("people", "Person")),
        Some(&Vec::<Qualified>::new())
    );
    assert_eq!(registry.global_id_enabled_types.len(), 1);
}

#[test]
fn an_empty_list_of_global_id_fields_registers_nothing() {
    let mut definition = object("Person", vec![field("id", inbuilt(InbuiltType::ID))]);
    definition.global_id_fields = Some(vec![]);
    let mut registry = registry();
    let resolved = run(&definition, "people", &mut registry).unwrap();
    assert_eq!(resolved.global_id_fields, Vec::<String>::new());
    assert_eq!(registry.global_id_enabled_types.len(), 0);
}

#[test]
fn the_type_is_registered_before_a_later_global_id_field_fails() {
    let mut definition = object("Person", vec![field("name", inbuilt(InbuiltType::String))]);
    definition.global_id_fields = Some(names(&["name", "age"]));
    let mut registry = registry();
    assert_eq!(
        run(&definition, "people", &mut registry),
        Err(Error::UnknownFieldInGlobalId {
            field_name: "age".to_string(),
            object_type_name: qualified("people", "Person"),
        })
    );
    assert!(registry.global_id_enabled_types.contains_key(&qualified("people", "Person")));
}

#[test]
fn a_repeated_field_is_reported_before_the_global_id_fields() {
    let mut definition = object(
        "Person",
        vec![field("id", inbuilt(InbuiltType::ID)), field("id", inbuilt(InbuiltType::ID))],
    );
    definition.global_id_fields = Some(names(&["age"]));
    let mut registry = registry();
    assert_eq!(
        run(&definition, "people", &mut registry),
        Err(Error::DuplicateFieldDefinition {
            object_type_name: qualified("people", "Person"),
            field_name: "id".to_string(),
        })
    );
    assert_eq!(registry.global_id_enabled_types.len(), 0);
}

#[test]
fn graphql_names_are_taken_over_and_claimed() {
    let mut definition = object("User", vec![field("name", inbuilt(InbuiltType::String))]);
    definition.graphql = Some(graphql(Some("User"), Some("UserInput")));
    let mut registry = registry();
    let resolved = run(&definition, "app", &mut registry).unwrap();
    assert_eq!(resolved.graphql_output_type_name, Some("User".to_string()));
    assert_eq!(resolved.graphql_input_type_name, Some("UserInput".to_string()));
    assert!(registry.graphql_types.contains("User"));
    assert!(registry.graphql_types.contains("UserInput"));
    assert_eq!(registry.graphql_types.len(), 2);
}

#[test]
fn a_declared_name_that_is_no_identifier_fails() {
    let mut definition = object("User", vec![field("name", inbuilt(InbuiltType::String))]);
    definition.graphql = Some(ObjectTypeGraphQLConfiguration {
        output_type_name: Some(GraphQlTypeName::Invalid("1User".to_string())),
        input_type_name: Some(GraphQlTypeName::Identifier("UserInput".to_string())),
        apollo_federation: None,
    });
    let mut registry = registry();
    assert_eq!(
        run(&definition, "app", &mut registry),
        Err(Error::InvalidGraphQlName { name: "1User".to_string() })
    );
    assert_eq!(registry.graphql_types.len(), 0);

    definition.graphql = Some(ObjectTypeGraphQLConfiguration {
        output_type_name: Some(GraphQlTypeName::Identifier("User".to_string())),
        input_type_name: Some(GraphQlTypeName::Invalid("user input".to_string())),
        apollo_federation: None,
    });
    assert_eq!(
        run(&definition, "app", &mut registry),
        Err(Error::InvalidGraphQlName { name: "user input".to_string() })
    );
    assert_eq!(registry.graphql_types.len(), 0);
}

#[test]
fn the_second_object_type_with_the_same_output_name_fails() {
    let mut first = object("User", vec![field("name", inbuilt(InbuiltType::String))]);
    first.graphql = Some(graphql(Some("User"), None));
    let mut second = object("Customer", vec![field("name", inbuilt(InbuiltType::String))]);
    second.graphql = Some(graphql(Some("User"), None));

    let mut registry_one = registry();
    assert!(run(&first, "app", &mut registry_one).is_ok());
    assert_eq!(
        run(&second, "app", &mut registry_one),
        Err(Error::ConflictingGraphQlType { graphql_type_name: "User".to_string() })
    );

    let mut registry_two = registry();
    assert!(run(&second, "app", &mut registry_two).is_ok());
    assert_eq!(
        run(&first, "app", &mut registry_two),
        Err(Error::ConflictingGraphQlType { graphql_type_name: "User".to_string() })
    );
}

#[test]
fn an_input_name_equal_to_the_output_name_fails() {
    let mut definition = object("User", vec![field("name", inbuilt(InbuiltType::String))]);
    definition.graphql = Some(graphql(Some("User"), Some("User")));
    let mut registry = registry();
    assert_eq!(
        run(&definition, "app", &mut registry),
        Err(Error::ConflictingGraphQlType { graphql_type_name: "User".to_string() })
    );
    assert!(registry.graphql_types.contains("User"));
}

#[test]
fn a_claimed_input_name_fails_after_the_output_name_is_claimed() {
    let mut definition = object("User", vec![field("name", inbuilt(InbuiltType::String))]);
    definition.graphql = Some(graphql(Some("User"), Some("Taken")));
    let mut registry = registry();
    registry.graphql_types.insert("Taken".to_string());
    assert_eq!(
        run(&definition, "app", &mut registry),
        Err(Error::ConflictingGraphQlType { graphql_type_name: "Taken".to_string() })
    );
    assert!(registry.graphql_types.contains("User"));
    assert_eq!(registry.graphql_types.len(), 2);
}

#[test]
fn store_new_graphql_type_claims_once() {
    let mut claimed = NameSet::new();
    assert_eq!(store_new_graphql_type(&mut claimed, None), Ok(()));
    assert_eq!(claimed.len(), 0);
    let name = "Query".to_string();
    assert_eq!(store_new_graphql_type(&mut claimed, Some(&name)), Ok(()));
    assert_eq!(claimed.len(), 1);
    assert_eq!(
        store_new_graphql_type(&mut claimed, Some(&name)),
        Err(Error::ConflictingGraphQlType { graphql_type_name: "Query".to_string() })
    );
    assert_eq!(claimed.len(), 1);
}

#[test]
fn federation_keys_are_kept_and_the_type_is_registered() {
    let mut definition = object(
        "Product",
        vec![
            field("sku", inbuilt(InbuiltType::String)),
            field("vendor", inbuilt(InbuiltType::String)),
            field("upc", inbuilt(InbuiltType::String)),
        ],
    );
    definition.graphql = Some(federation(&[&["upc"], &["vendor", "sku"]]));
    let mut registry = registry();
    let resolved = run(&definition, "shop", &mut registry).unwrap();
    let config = resolved.apollo_federation_config.unwrap();
    assert_eq!(config.keys.len(), 2);
    assert_eq!(config.keys.head.fields.head, "upc".to_string());
    assert_eq!(config.keys.head.fields.tail, Vec::<String>::new());
    assert_eq!(config.keys.tail.len(), 1);
    assert_eq!(config.keys.tail[0].fields.head, "vendor".to_string());
    assert_eq!(config.keys.tail[0].fields.tail, names(&["sku"]));
    assert_eq!(
        registry.apollo_federation_entity_enabled_types.get(&qualified("shop", "Product")),
        Some(&None)
    );
}

#[test]
fn a_federation_key_with_a_field_that_is_no_field_fails() {
    let mut definition = object("Product", vec![field("sku", inbuilt(InbuiltType::String))]);
    definition.graphql = Some(federation(&[&["sku"], &["sku", "upc"]]));
    let mut registry = registry();
    assert_eq!(
        run(&definition, "shop", &mut registry),
        Err(Error::UnknownFieldInApolloFederationKey {
            field_name: "upc".to_string(),
            object_type: qualified("shop", "Product"),
        })
    );
    assert_eq!(registry.apollo_federation_entity_enabled_types.len(), 0);
}

#[test]
fn a_federation_key_without_fields_fails_beside_good_keys() {
    let mut definition = object(
        "Product",
        vec![field("sku", inbuilt(InbuiltType::String)), field("upc", inbuilt(InbuiltType::String))],
    );
    definition.graphql = Some(federation(&[&["sku"], &[], &["upc"]]));
    let mut registry = registry();
    assert_eq!(
        run(&definition, "shop", &mut registry),
        Err(Error::EmptyFieldsInApolloFederationConfigForObject {
            object_type: qualified("shop", "Product"),
        })
    );
    assert_eq!(registry.apollo_federation_entity_enabled_types.len(), 0);
}

#[test]
fn a_federation_configuration_without_keys_fails() {
    let mut definition = object("Product", vec![field("sku", inbuilt(InbuiltType::String))]);
    definition.graphql = Some(federation(&[]));
    let mut registry = registry();
    assert_eq!(
        run(&definition, "shop", &mut registry),
        Err(Error::EmptyKeysInApolloFederationConfigForObject {
            object_type: qualified("shop", "Product"),
        })
    );
    assert_eq!(registry.apollo_federation_entity_enabled_types.len(), 0);
}

#[test]
fn an_earlier_key_with_an_unknown_field_is_reported_before_an_empty_key() {
    let mut definition = object("Product", vec![field("sku", inbuilt(InbuiltType::String))]);
    definition.graphql = Some(federation(&[&["missing"], &[]]));
    let mut registry = registry();
    assert_eq!(
        run(&definition, "shop", &mut registry),
        Err(Error::UnknownFieldInApolloFederationKey {
            field_name: "missing".to_string(),
            object_type: qualified("shop", "Product"),
        })
    );
}

#[test]
fn a_name_that_is_no_identifier_is_reported_before_the_federation_keys() {
    let mut definition = object("Product", vec![field("sku", inbuilt(InbuiltType::String))]);
    let mut config = federation(&[&[]]);
    config.input_type_name = Some(GraphQlTypeName::Invalid("no good".to_string()));
    definition.graphql = Some(config);
    let mut registry = registry();
    assert_eq!(
        run(&definition, "shop", &mut registry),
        Err(Error::InvalidGraphQlName { name: "no good".to_string() })
    );
}

#[test]
fn the_federation_entity_is_registered_even_if_a_name_is_taken() {
    let mut definition = object("Product", vec![field("sku", inbuilt(InbuiltType::String))]);
    let mut config = federation(&[&["sku"]]);
    config.output_type_name = Some(GraphQlTypeName::Identifier("Product".to_string()));
    definition.graphql = Some(config);
    let mut registry = registry();
    registry.graphql_types.insert("Product".to_string());
    assert_eq!(
        run(&definition, "shop", &mut registry),
        Err(Error::ConflictingGraphQlType { graphql_type_name: "Product".to_string() })
    );
    assert!(registry
        .apollo_federation_entity_enabled_types
        .contains_key(&qualified("shop", "Product")));
}
