//! The ways in which resolution fails. Every error ends the whole call.

use crate::qualified::{texts_of, Qualified, QualifiedName};
use vstd::prelude::*;

verus! {

/// Why an object type could not be mapped onto a data connector's type.
#[derive(Debug, PartialEq, Eq)]
pub enum TypeMappingValidationError {
    /// The mapping names a data connector that is not configured.
    UnknownDataConnector { data_connector: Qualified, object_type_name: Qualified },
    /// The data connector has no object type of that name.
    UnknownNdcType { object_type_name: Qualified, unknown_ndc_type: String },
    /// The connector's type has no column for the field.
    UnknownTargetColumn { field_name: String, column_name: String },
    /// A field was given a column twice.
    DuplicateFieldMapping { object_type_name: Qualified, field_name: String },
    /// The mapping speaks of fields that the object type does not have; the
    /// names come in ascending order.
    UnknownSourceFields { object_type_name: Qualified, field_names: Vec<String> },
}

pub enum TypeMappingValidationErrorView {
    UnknownDataConnector { data_connector: QualifiedName, object_type_name: QualifiedName },
    UnknownNdcType { object_type_name: QualifiedName, unknown_ndc_type: Seq<char> },
    UnknownTargetColumn { field_name: Seq<char>, column_name: Seq<char> },
    DuplicateFieldMapping { object_type_name: QualifiedName, field_name: Seq<char> },
    UnknownSourceFields { object_type_name: QualifiedName, field_names: Seq<Seq<char>> },
}

impl View for TypeMappingValidationError {
    type V = TypeMappingValidationErrorView;

    open spec fn view(&self) -> TypeMappingValidationErrorView {
        match *self {
            TypeMappingValidationError::UnknownDataConnector { data_connector, object_type_name } =>
                TypeMappingValidationErrorView::UnknownDataConnector {
                    data_connector: data_connector@,
                    object_type_name: object_type_name@,
                },
            TypeMappingValidationError::UnknownNdcType { object_type_name, unknown_ndc_type } =>
                TypeMappingValidationErrorView::UnknownNdcType {
                    object_type_name: object_type_name@,
                    unknown_ndc_type: unknown_ndc_type@,
                },
            TypeMappingValidationError::UnknownTargetColumn { field_name, column_name } =>
                TypeMappingValidationErrorView::UnknownTargetColumn {
                    field_name: field_name@,
                    column_name: column_name@,
                },
            TypeMappingValidationError::DuplicateFieldMapping { object_type_name, field_name } =>
                TypeMappingValidationErrorView::DuplicateFieldMapping {
                    object_type_name: object_type_name@,
                    field_name: field_name@,
                },
            TypeMappingValidationError::UnknownSourceFields { object_type_name, field_names } =>
                TypeMappingValidationErrorView::UnknownSourceFields {
                    object_type_name: object_type_name@,
                    field_names: texts_of(field_names@),
                },
        }
    }
}

/// Why resolution failed.
#[allow(inconsistent_fields)]
#[derive(Debug, PartialEq, Eq)]
pub enum Error {
    /// Two object types have the same qualified name.
    DuplicateTypeDefinition { name: Qualified },
    /// An object type declares two fields of one name.
    DuplicateFieldDefinition { object_type_name: Qualified, field_name: String },
    /// An object type with global id fields declares a field named `id`.
    IdFieldConflictingGlobalId { object_type_name: Qualified },
    /// A global id field is not a field of the object type.
    UnknownFieldInGlobalId { field_name: String, object_type_name: Qualified },
    /// A field of a federation key is not a field of the object type.
    UnknownFieldInApolloFederationKey { field_name: String, object_type: Qualified },
    /// A federation key names no field.
    EmptyFieldsInApolloFederationConfigForObject { object_type: Qualified },
    /// A federation configuration holds no key.
    EmptyKeysInApolloFederationConfigForObject { object_type: Qualified },
    /// A declared GraphQL name is no identifier.
    InvalidGraphQlName { name: String },
    /// A GraphQL type name is claimed twice.
    ConflictingGraphQlType { graphql_type_name: String },
    /// An object type could not be mapped onto a data connector's type.
    DataConnectorTypeMappingValidationError {
        object_type_name: Qualified,
        error: TypeMappingValidationError,
    },
    /// An object type is mapped twice onto one type of one data connector.
    DuplicateDataConnectorObjectTypeMapping {
        data_connector: Qualified,
        data_connector_object_type: String,
    },
}

#[allow(inconsistent_fields)]
pub enum ErrorView {
    DuplicateTypeDefinition { name: QualifiedName },
    DuplicateFieldDefinition { object_type_name: QualifiedName, field_name: Seq<char> },
    IdFieldConflictingGlobalId { object_type_name: QualifiedName },
    UnknownFieldInGlobalId { field_name: Seq<char>, object_type_name: QualifiedName },
    UnknownFieldInApolloFederationKey { field_name: Seq<char>, object_type: QualifiedName },
    EmptyFieldsInApolloFederationConfigForObject { object_type: QualifiedName },
    EmptyKeysInApolloFederationConfigForObject { object_type: QualifiedName },
    InvalidGraphQlName { name: Seq<char> },
    ConflictingGraphQlType { graphql_type_name: Seq<char> },
    DataConnectorTypeMappingValidationError {
        object_type_name: QualifiedName,
        error: TypeMappingValidationErrorView,
    },
    DuplicateDataConnectorObjectTypeMapping {
        data_connector: QualifiedName,
        data_connector_object_type: Seq<char>,
    },
}

impl View for Error {
    type V = ErrorView;

    open spec fn view(&self) -> ErrorView {
        match *self {
            Error::DuplicateTypeDefinition { name } => ErrorView::DuplicateTypeDefinition {
                name: name@,
            },
            Error::DuplicateFieldDefinition { object_type_name, field_name } =>
                ErrorView::DuplicateFieldDefinition {
                    object_type_name: object_type_name@,
                    field_name: field_name@,
                },
            Error::IdFieldConflictingGlobalId { object_type_name } =>
                ErrorView::IdFieldConflictingGlobalId { object_type_name: object_type_name@ },
            Error::UnknownFieldInGlobalId { field_name, object_type_name } =>
                ErrorView::UnknownFieldInGlobalId {
                    field_name: field_name@,
                    object_type_name: object_type_name@,
                },
            Error::UnknownFieldInApolloFederationKey { field_name, object_type } =>
                ErrorView::UnknownFieldInApolloFederationKey {
                    field_name: field_name@,
                    object_type: object_type@,
                },
            Error::EmptyFieldsInApolloFederationConfigForObject { object_type } =>
                ErrorView::EmptyFieldsInApolloFederationConfigForObject {
                    object_type: object_type@,
                },
            Error::EmptyKeysInApolloFederationConfigForObject { object_type } =>
                ErrorView::EmptyKeysInApolloFederationConfigForObject { object_type: object_type@ },
            Error::InvalidGraphQlName { name } => ErrorView::InvalidGraphQlName { name: name@ },
            Error::ConflictingGraphQlType { graphql_type_name } =>
                ErrorView::ConflictingGraphQlType { graphql_type_name: graphql_type_name@ },
            Error::DataConnectorTypeMappingValidationError { object_type_name, error } =>
                ErrorView::DataConnectorTypeMappingValidationError {
                    object_type_name: object_type_name@,
                    error: error@,
                },
            Error::DuplicateDataConnectorObjectTypeMapping {
                data_connector,
                data_connector_object_type,
            } => ErrorView::DuplicateDataConnectorObjectTypeMapping {
                data_connector: data_connector@,
                data_connector_object_type: data_connector_object_type@,
            },
        }
    }
}

} // verus!
