//! The configured data connectors and what each one's schema holds: object
//! types by name, and in each the columns by name with their types.

use crate::assoc::AssocMap;
use crate::qualified::Qualified;
use vstd::prelude::*;

verus! {

/// The type of a column, as the data connector describes it.
#[derive(Debug, PartialEq, Eq)]
pub enum NativeType {
    Named { name: String },
    Nullable { underlying_type: Box<NativeType> },
    Array { element_type: Box<NativeType> },
    Predicate { object_type_name: String },
}

pub enum NativeTypeView {
    Named { name: Seq<char> },
    Nullable { underlying_type: Box<NativeTypeView> },
    Array { element_type: Box<NativeTypeView> },
    Predicate { object_type_name: Seq<char> },
}

pub open spec fn native_type_view(t: NativeType) -> NativeTypeView
    decreases t,
{
    match t {
        NativeType::Named { name } => NativeTypeView::Named { name: name@ },
        NativeType::Nullable { underlying_type } => NativeTypeView::Nullable {
            underlying_type: Box::new(native_type_view(*underlying_type)),
        },
        NativeType::Array { element_type } => NativeTypeView::Array {
            element_type: Box::new(native_type_view(*element_type)),
        },
        NativeType::Predicate { object_type_name } => NativeTypeView::Predicate {
            object_type_name: object_type_name@,
        },
    }
}

impl View for NativeType {
    type V = NativeTypeView;

    open spec fn view(&self) -> NativeTypeView {
        native_type_view(*self)
    }
}

impl Clone for NativeType {
    fn clone(&self) -> (r: Self)
        ensures
            r == *self,
        decreases self,
    {
        match self {
            NativeType::Named { name } => NativeType::Named { name: name.clone() },
            NativeType::Nullable { underlying_type } => NativeType::Nullable {
                underlying_type: Box::new((&**underlying_type).clone()),
            },
            NativeType::Array { element_type } => NativeType::Array {
                element_type: Box::new((&**element_type).clone()),
            },
            NativeType::Predicate { object_type_name } => NativeType::Predicate {
                object_type_name: object_type_name.clone(),
            },
        }
    }
}

/// A column of a data connector's object type.
#[derive(Debug)]
pub struct NativeObjectField {
    pub column_type: NativeType,
}

/// An object type of a data connector: its columns by name.
#[derive(Debug)]
pub struct NativeObjectType {
    pub fields: AssocMap<String, NativeObjectField>,
}

/// What is known of one data connector: its object types by name.
#[derive(Debug)]
pub struct DataConnectorContext {
    pub object_types: AssocMap<String, NativeObjectType>,
}

/// The configured data connectors by qualified name.
#[derive(Debug)]
pub struct DataConnectors(pub AssocMap<Qualified, DataConnectorContext>);

} // verus!
