//! Object types after resolution.

use crate::assoc::AssocMap;
use crate::name_set::NameSet;
use crate::error::{Error, ErrorView};
use crate::collections::{field_entries, listed_keys, listed_names};
use crate::data_connectors::{NativeType, NativeTypeView};
use crate::definitions::{deprecation_of, Deprecated};
use crate::qualified::{text_of, texts_of, Qualified, QualifiedName};
use crate::type_reference::TypeReference;
use indexmap::IndexMap;
use nonempty::NonEmpty;
use vstd::prelude::*;

verus! {

/// A field of a resolved object type. Its type names custom types by their
/// qualified name.
#[derive(Debug, PartialEq, Eq)]
pub struct FieldDefinition {
    pub field_type: TypeReference<Qualified>,
    pub description: Option<String>,
    pub deprecated: Option<Deprecated>,
}

pub struct FieldDefinitionView {
    pub field_type: TypeReference<QualifiedName>,
    pub description: Option<Seq<char>>,
    pub deprecated: Option<Option<Seq<char>>>,
}

impl View for FieldDefinition {
    type V = FieldDefinitionView;

    open spec fn view(&self) -> FieldDefinitionView {
        FieldDefinitionView {
            field_type: self.field_type@,
            description: text_of(self.description),
            deprecated: deprecation_of(self.deprecated),
        }
    }
}

/// The entries of a table of fields, each definition by its view.
pub open spec fn field_views(entries: Seq<(Seq<char>, FieldDefinition)>) -> Seq<
    (Seq<char>, FieldDefinitionView),
> {
    entries.map_values(|e: (Seq<char>, FieldDefinition)| (e.0, e.1@))
}

/// A federation key of a resolved object type: at least one field.
#[derive(Debug, PartialEq, Eq)]
pub struct ResolvedApolloFederationObjectKey {
    pub fields: NonEmpty<String>,
}

/// The federation keys of a resolved object type: at least one key.
#[derive(Debug, PartialEq, Eq)]
pub struct ResolvedObjectApolloFederationConfig {
    pub keys: NonEmpty<ResolvedApolloFederationObjectKey>,
}

/// The keys of a federation configuration, each as the names of its fields.
pub open spec fn federation_keys(c: ResolvedObjectApolloFederationConfig) -> Seq<Seq<Seq<char>>> {
    listed_keys(c.keys).map_values(|k: ResolvedApolloFederationObjectKey| listed_names(k.fields))
}

pub open spec fn federation_view(c: Option<ResolvedObjectApolloFederationConfig>) -> Option<
    Seq<Seq<Seq<char>>>,
> {
    match c {
        Some(config) => Some(federation_keys(config)),
        None => None,
    }
}

/// A resolved object type.
#[derive(Debug, PartialEq, Eq)]
pub struct ObjectTypeRepresentation {
    pub fields: IndexMap<String, FieldDefinition>,
    pub global_id_fields: Vec<String>,
    pub apollo_federation_config: Option<ResolvedObjectApolloFederationConfig>,
    pub graphql_output_type_name: Option<String>,
    pub graphql_input_type_name: Option<String>,
    pub description: Option<String>,
}

pub struct ObjectTypeRepresentationView {
    /// The fields in the order of their declaration.
    pub fields: Seq<(Seq<char>, FieldDefinitionView)>,
    pub global_id_fields: Seq<Seq<char>>,
    pub apollo_federation_config: Option<Seq<Seq<Seq<char>>>>,
    pub graphql_output_type_name: Option<Seq<char>>,
    pub graphql_input_type_name: Option<Seq<char>>,
    pub description: Option<Seq<char>>,
}

impl View for ObjectTypeRepresentation {
    type V = ObjectTypeRepresentationView;

    open spec fn view(&self) -> ObjectTypeRepresentationView {
        ObjectTypeRepresentationView {
            fields: field_views(field_entries(self.fields)),
            global_id_fields: texts_of(self.global_id_fields@),
            apollo_federation_config: federation_view(self.apollo_federation_config),
            graphql_output_type_name: text_of(self.graphql_output_type_name),
            graphql_input_type_name: text_of(self.graphql_input_type_name),
            description: text_of(self.description),
        }
    }
}

/// The names of the fields of a resolved object type, in order.
pub open spec fn field_names_of(v: ObjectTypeRepresentationView) -> Seq<Seq<char>> {
    v.fields.map_values(|e: (Seq<char>, FieldDefinitionView)| e.0)
}

impl ObjectTypeRepresentationView {
    /// What holds of every resolved object type: no field name occurs twice,
    /// and the global id fields and the fields of the federation keys are
    /// fields of the type, each key with at least one field and each
    /// configuration with at least one key.
    pub open spec fn well_formed(self) -> bool {
        &&& field_names_of(self).no_duplicates()
        &&& forall|i: int|
            0 <= i < self.global_id_fields.len() ==> field_names_of(self).contains(
                #[trigger] self.global_id_fields[i],
            )
        &&& self.apollo_federation_config matches Some(keys) ==> {
            &&& keys.len() > 0
            &&& forall|i: int| 0 <= i < keys.len() ==> (#[trigger] keys[i]).len() > 0
            &&& forall|i: int, j: int|
                0 <= i < keys.len() && 0 <= j < keys[i].len() ==> field_names_of(self).contains(
                    #[trigger] keys[i][j],
                )
        }
    }
}

/// The column that a field is stored in, and the column's type.
#[derive(Debug, PartialEq, Eq)]
pub struct FieldMapping {
    pub column: String,
    pub column_type: NativeType,
}

pub struct FieldMappingView {
    pub column: Seq<char>,
    pub column_type: NativeTypeView,
}

impl View for FieldMapping {
    type V = FieldMappingView;

    open spec fn view(&self) -> FieldMappingView {
        FieldMappingView { column: self.column@, column_type: self.column_type@ }
    }
}

/// How an object type is stored in one object type of a data connector.
#[derive(Debug)]
pub enum TypeMapping {
    Object { ndc_object_type_name: String, field_mappings: AssocMap<String, FieldMapping> },
}

pub enum TypeMappingView {
    Object { ndc_object_type_name: Seq<char>, field_mappings: Map<Seq<char>, FieldMappingView> },
}

impl View for TypeMapping {
    type V = TypeMappingView;

    open spec fn view(&self) -> TypeMappingView {
        match *self {
            TypeMapping::Object { ndc_object_type_name, field_mappings } => TypeMappingView::Object {
                ndc_object_type_name: ndc_object_type_name@,
                field_mappings: field_mappings@.map_values(|m: FieldMapping| m@),
            },
        }
    }
}

/// The text of each type mapping.
pub open spec fn type_mapping_views(m: Map<(QualifiedName, Seq<char>), TypeMapping>) -> Map<
    (QualifiedName, Seq<char>),
    TypeMappingView,
> {
    m.map_values(|t: TypeMapping| t@)
}

/// How one object type is stored, for each data connector and each of its
/// object types that the object type is mapped onto.
#[derive(Debug)]
pub struct DataConnectorTypeMappingsForObject(AssocMap<(Qualified, String), TypeMapping>);

impl View for DataConnectorTypeMappingsForObject {
    type V = Map<(QualifiedName, Seq<char>), TypeMappingView>;

    closed spec fn view(&self) -> Map<(QualifiedName, Seq<char>), TypeMappingView> {
        type_mapping_views(self.0@)
    }
}

impl DataConnectorTypeMappingsForObject {
    pub fn new() -> (r: Self)
        ensures
            r@ == Map::<(QualifiedName, Seq<char>), TypeMappingView>::empty(),
    {
        let r = DataConnectorTypeMappingsForObject(AssocMap::new());
        assert(r@ =~= Map::<(QualifiedName, Seq<char>), TypeMappingView>::empty());
        r
    }

    /// The number of type mappings.
    pub fn len(&self) -> (n: usize)
        ensures
            self@.dom().finite(),
            n == self@.len(),
    {
        proof {
            self.0.lemma_keys();
            assert(self@.dom() =~= self.0@.dom());
        }
        self.0.len()
    }

    /// The mapping onto the object type of that name of that data connector.
    pub fn get(&self, data_connector_name: &Qualified, data_connector_object_type: &str) -> (r:
        Option<&TypeMapping>)
        ensures
            match r {
                Some(type_mapping) => self@.contains_key(
                    (data_connector_name@, data_connector_object_type@),
                ) && type_mapping@ == self@[(data_connector_name@, data_connector_object_type@)],
                None => !self@.contains_key((data_connector_name@, data_connector_object_type@)),
            },
    {
        let key = (data_connector_name.clone(), data_connector_object_type.to_owned());
        self.0.get(&key)
    }

    /// Enters a mapping. An object type is mapped onto one object type of one
    /// data connector once only: a second mapping is an error and changes
    /// nothing.
    pub fn insert(
        &mut self,
        data_connector_name: &Qualified,
        data_connector_object_type: &str,
        type_mapping: TypeMapping,
    ) -> (r: Result<(), Error>)
        ensures
            if old(self)@.contains_key((data_connector_name@, data_connector_object_type@)) {
                &&& r matches Err(e)
                &&& e@ == (ErrorView::DuplicateDataConnectorObjectTypeMapping {
                    data_connector: data_connector_name@,
                    data_connector_object_type: data_connector_object_type@,
                })
                &&& final(self)@ == old(self)@
            } else {
                &&& r is Ok
                &&& final(self)@ == old(self)@.insert(
                    (data_connector_name@, data_connector_object_type@),
                    type_mapping@,
                )
            },
    {
        let key = (data_connector_name.clone(), data_connector_object_type.to_owned());
        if self.0.contains_key(&key) {
            return Err(
                Error::DuplicateDataConnectorObjectTypeMapping {
                    data_connector: data_connector_name.clone(),
                    data_connector_object_type: data_connector_object_type.to_owned(),
                },
            );
        }
        self.0.insert(key, type_mapping);
        assert(self@ =~= old(self)@.insert(
            (data_connector_name@, data_connector_object_type@),
            type_mapping@,
        ));
        Ok(())
    }
}

/// A resolved object type together with how it is stored.
#[derive(Debug)]
pub struct ObjectTypeWithTypeMappings {
    pub object_type: ObjectTypeRepresentation,
    pub type_mappings: DataConnectorTypeMappingsForObject,
}

pub struct ObjectTypeWithTypeMappingsView {
    pub object_type: ObjectTypeRepresentationView,
    pub type_mappings: Map<(QualifiedName, Seq<char>), TypeMappingView>,
}

impl View for ObjectTypeWithTypeMappings {
    type V = ObjectTypeWithTypeMappingsView;

    open spec fn view(&self) -> ObjectTypeWithTypeMappingsView {
        ObjectTypeWithTypeMappingsView {
            object_type: self.object_type@,
            type_mappings: self.type_mappings@,
        }
    }
}

/// Everything that resolving the declared object types gives.
#[derive(Debug)]
pub struct DataConnectorTypeMappingsOutput {
    /// The GraphQL type names that the object types claim.
    pub graphql_types: NameSet,
    /// The object types with global id fields, each with the models that
    /// were found for it.
    pub global_id_enabled_types: AssocMap<Qualified, Vec<Qualified>>,
    /// The object types with federation keys, each with the model that was
    /// found for it.
    pub apollo_federation_entity_enabled_types: AssocMap<Qualified, Option<Qualified>>,
    /// The resolved object types by qualified name.
    pub object_types: AssocMap<Qualified, ObjectTypeWithTypeMappings>,
}

pub struct DataConnectorTypeMappingsOutputView {
    pub graphql_types: Set<Seq<char>>,
    pub global_id_enabled_types: Map<QualifiedName, Seq<QualifiedName>>,
    pub apollo_federation_entity_enabled_types: Map<QualifiedName, Option<QualifiedName>>,
    pub object_types: Map<QualifiedName, ObjectTypeWithTypeMappingsView>,
}

/// What the index of object types with global ids says: for each, the models
/// that were found for it.
pub open spec fn global_id_index(m: Map<QualifiedName, Vec<Qualified>>) -> Map<
    QualifiedName,
    Seq<QualifiedName>,
> {
    m.map_values(|models: Vec<Qualified>| models@.map_values(|q: Qualified| q@))
}

/// What the index of federation entities says: for each, the model that was
/// found for it, if one was.
pub open spec fn federation_index(m: Map<QualifiedName, Option<Qualified>>) -> Map<
    QualifiedName,
    Option<QualifiedName>,
> {
    m.map_values(
        |model: Option<Qualified>|
            match model {
                Some(q) => Some(q@),
                None => None,
            },
    )
}

/// The view of each resolved object type.
pub open spec fn object_type_views(m: Map<QualifiedName, ObjectTypeWithTypeMappings>) -> Map<
    QualifiedName,
    ObjectTypeWithTypeMappingsView,
> {
    m.map_values(|o: ObjectTypeWithTypeMappings| o@)
}

impl View for DataConnectorTypeMappingsOutput {
    type V = DataConnectorTypeMappingsOutputView;

    open spec fn view(&self) -> DataConnectorTypeMappingsOutputView {
        DataConnectorTypeMappingsOutputView {
            graphql_types: self.graphql_types@,
            global_id_enabled_types: global_id_index(self.global_id_enabled_types@),
            apollo_federation_entity_enabled_types: federation_index(
                self.apollo_federation_entity_enabled_types@,
            ),
            object_types: object_type_views(self.object_types@),
        }
    }
}

} // verus!
