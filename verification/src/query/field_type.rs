//! The types that the fields of a schema have.

use vstd::prelude::*;

verus! {

/// The type of a field.
#[derive(Debug, PartialEq, Eq, Hash)]
pub enum FieldType {
    /// A type of the introspection system; its name starts with two underscores.
    Introspection(String),
    /// A type that the schema defines.
    Named(String),
    List(Box<FieldType>),
    NonNull(Box<FieldType>),
    String,
    Int,
    Float,
    Id,
    Boolean,
}

/// A [`FieldType`] with its names as character sequences.
pub enum FieldTypeModel {
    Introspection(Seq<char>),
    Named(Seq<char>),
    List(Box<FieldTypeModel>),
    NonNull(Box<FieldTypeModel>),
    String,
    Int,
    Float,
    Id,
    Boolean,
}

impl FieldTypeModel {
    /// The name of the type on which selections happen: the innermost type of lists and
    /// non-null types, where it has a name of its own.
    pub open spec fn inner_type_name(self) -> Option<Seq<char>>
        decreases self,
    {
        match self {
            FieldTypeModel::Introspection(name) | FieldTypeModel::Named(name) => Some(name),
            FieldTypeModel::List(inner) | FieldTypeModel::NonNull(inner) => inner.inner_type_name(),
            _ => None,
        }
    }

    /// Whether the type is one of the five scalars that need no definition.
    pub open spec fn is_builtin_scalar(self) -> bool {
        match self {
            FieldTypeModel::String
            | FieldTypeModel::Int
            | FieldTypeModel::Float
            | FieldTypeModel::Id
            | FieldTypeModel::Boolean => true,
            _ => false,
        }
    }

    /// The type as a schema document writes it.
    pub open spec fn notation(self) -> Seq<char>
        decreases self,
    {
        match self {
            FieldTypeModel::Introspection(name) | FieldTypeModel::Named(name) => name,
            FieldTypeModel::List(inner) => "["@ + inner.notation() + "]"@,
            FieldTypeModel::NonNull(inner) => inner.notation() + "!"@,
            FieldTypeModel::String => "String"@,
            FieldTypeModel::Int => "Int"@,
            FieldTypeModel::Float => "Float"@,
            FieldTypeModel::Id => "ID"@,
            FieldTypeModel::Boolean => "Boolean"@,
        }
    }
}

impl View for FieldType {
    type V = FieldTypeModel;

    open spec fn view(&self) -> FieldTypeModel {
        self.model()
    }
}

impl FieldType {
    /// The type with its names as character sequences.
    pub open spec fn model(self) -> FieldTypeModel
        decreases self,
    {
        match self {
            FieldType::Introspection(name) => FieldTypeModel::Introspection(name@),
            FieldType::Named(name) => FieldTypeModel::Named(name@),
            FieldType::List(inner) => FieldTypeModel::List(Box::new(inner.model())),
            FieldType::NonNull(inner) => FieldTypeModel::NonNull(Box::new(inner.model())),
            FieldType::String => FieldTypeModel::String,
            FieldType::Int => FieldTypeModel::Int,
            FieldType::Float => FieldTypeModel::Float,
            FieldType::Id => FieldTypeModel::Id,
            FieldType::Boolean => FieldTypeModel::Boolean,
        }
    }

    /// The name of the type on which selections happen: `User` for a field of type `[User!]!`,
    /// nothing for a built-in scalar.
    pub fn inner_type_name(&self) -> (name: Option<&String>)
        ensures
            match name {
                Some(name) => self@.inner_type_name() == Some(name@),
                None => self@.inner_type_name() is None,
            },
        decreases self,
    {
        match self {
            FieldType::Introspection(name) => Some(name),
            FieldType::Named(name) => Some(name),
            FieldType::List(inner) => inner.inner_type_name(),
            FieldType::NonNull(inner) => inner.inner_type_name(),
            _ => None,
        }
    }

    /// Whether the type is one of the five scalars that need no definition.
    pub fn is_builtin_scalar(&self) -> (scalar: bool)
        ensures
            scalar == self@.is_builtin_scalar(),
    {
        match self {
            FieldType::String
            | FieldType::Int
            | FieldType::Float
            | FieldType::Id
            | FieldType::Boolean => true,
            _ => false,
        }
    }

    /// The type as a schema document writes it.
    pub fn notation(&self) -> (text: String)
        ensures
            text@ == self@.notation(),
        decreases self,
    {
        match self {
            FieldType::Introspection(name) => name.clone(),
            FieldType::Named(name) => name.clone(),
            FieldType::List(inner) => {
                "[".to_owned().concat(inner.notation().as_str()).concat("]")
            },
            FieldType::NonNull(inner) => inner.notation().concat("!"),
            FieldType::String => "String".to_owned(),
            FieldType::Int => "Int".to_owned(),
            FieldType::Float => "Float".to_owned(),
            FieldType::Id => "ID".to_owned(),
            FieldType::Boolean => "Boolean".to_owned(),
        }
    }
}

impl Clone for FieldType {
    fn clone(&self) -> (copy: Self)
        ensures
            copy@ == self@,
        decreases self,
    {
        match self {
            FieldType::Introspection(name) => FieldType::Introspection(name.clone()),
            FieldType::Named(name) => FieldType::Named(name.clone()),
            FieldType::List(inner) => FieldType::List(Box::new((**inner).clone())),
            FieldType::NonNull(inner) => FieldType::NonNull(Box::new((**inner).clone())),
            FieldType::String => FieldType::String,
            FieldType::Int => FieldType::Int,
            FieldType::Float => FieldType::Float,
            FieldType::Id => FieldType::Id,
            FieldType::Boolean => FieldType::Boolean,
        }
    }
}

} // verus!
