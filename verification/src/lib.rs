pub mod assoc;
pub mod collections;
pub mod data_connectors;
pub mod definitions;
pub mod error;
pub mod laws;
pub mod mapping_model;
pub mod model;
pub mod name_set;
pub mod object_types;
pub mod qualified;
pub mod resolve;
pub mod search;
pub mod text_order;
pub mod type_mappings;
pub mod type_reference;
pub mod types;

pub use object_types::{resolve_field, resolve_object_type, store_new_graphql_type};
pub use resolve::resolve;
pub use type_mappings::{get_column, resolve_data_connector_type_mapping};
