//! The fields that the types of a schema have.

use crate::query::field_type::{FieldType, FieldTypeModel};
use vstd::hash_map::StringHashMap;
use vstd::prelude::*;

verus! {

/// The fields of an object type or an interface, with their types.
pub struct Fields {
    types: StringHashMap<FieldType>,
}

impl View for Fields {
    type V = Map<Seq<char>, FieldTypeModel>;

    closed spec fn view(&self) -> Map<Seq<char>, FieldTypeModel> {
        self.types@.map_values(|ty: FieldType| ty@)
    }
}

impl Fields {
    /// No fields.
    pub fn new() -> (fields: Self)
        ensures
            fields@ == Map::<Seq<char>, FieldTypeModel>::empty(),
    {
        let fields = Fields { types: StringHashMap::new() };
        assert(fields@ =~= Map::<Seq<char>, FieldTypeModel>::empty());
        fields
    }

    /// Gives a field its type.
    pub fn insert(&mut self, name: String, ty: FieldType)
        ensures
            final(self)@ == old(self)@.insert(name@, ty@),
    {
        self.types.insert(name, ty);
        assert(self@ =~= old(self)@.insert(name@, ty@));
    }

    /// The type of a field.
    pub fn get(&self, name: &str) -> (ty: Option<&FieldType>)
        ensures
            match ty {
                Some(ty) => self@.contains_key(name@) && self@[name@] == ty@,
                None => !self@.contains_key(name@),
            },
    {
        self.types.get(name)
    }
}

/// The object types and the interfaces of a schema.
pub struct Schema {
    object_types: StringHashMap<Fields>,
    interfaces: StringHashMap<Fields>,
}

/// A [`Schema`] as two maps from type names to fields.
pub struct SchemaModel {
    pub object_types: Map<Seq<char>, Map<Seq<char>, FieldTypeModel>>,
    pub interfaces: Map<Seq<char>, Map<Seq<char>, FieldTypeModel>>,
}

impl SchemaModel {
    /// The type of a field of a type: that of the object type, or else that of the interface.
    pub open spec fn field_type(self, owner: Seq<char>, field: Seq<char>) -> Option<
        FieldTypeModel,
    > {
        if self.object_types.contains_key(owner) && self.object_types[owner].contains_key(
            field,
        ) {
            Some(self.object_types[owner][field])
        } else if self.interfaces.contains_key(owner)
            && self.interfaces[owner].contains_key(field) {
            Some(self.interfaces[owner][field])
        } else {
            None
        }
    }
}

impl View for Schema {
    type V = SchemaModel;

    closed spec fn view(&self) -> SchemaModel {
        SchemaModel {
            object_types: self.object_types@.map_values(|fields: Fields| fields@),
            interfaces: self.interfaces@.map_values(|fields: Fields| fields@),
        }
    }
}

impl Schema {
    /// A schema without types.
    pub fn new() -> (schema: Self)
        ensures
            schema@.object_types == Map::<Seq<char>, Map<Seq<char>, FieldTypeModel>>::empty(),
            schema@.interfaces == Map::<Seq<char>, Map<Seq<char>, FieldTypeModel>>::empty(),
    {
        Schema { object_types: StringHashMap::new(), interfaces: StringHashMap::new() }
    }

    /// Defines an object type.
    pub fn insert_object_type(&mut self, name: String, fields: Fields)
        ensures
            final(self)@.object_types == old(self)@.object_types.insert(name@, fields@),
            final(self)@.interfaces == old(self)@.interfaces,
    {
        self.object_types.insert(name, fields);
    }

    /// Defines an interface.
    pub fn insert_interface(&mut self, name: String, fields: Fields)
        ensures
            final(self)@.object_types == old(self)@.object_types,
            final(self)@.interfaces == old(self)@.interfaces.insert(name@, fields@),
    {
        self.interfaces.insert(name, fields);
    }

    /// The type of a field of a type: that of the object type, or else that of the interface.
    pub fn field_type(&self, owner: &str, field: &str) -> (ty: Option<&FieldType>)
        ensures
            match ty {
                Some(ty) => self@.field_type(owner@, field@) == Some(ty@),
                None => self@.field_type(owner@, field@) is None,
            },
    {
        if let Some(fields) = self.object_types.get(owner) {
            if let Some(ty) = fields.get(field) {
                return Some(ty);
            }
        }
        match self.interfaces.get(owner) {
            Some(fields) => fields.get(field),
            None => None,
        }
    }
}

} // verus!
