//! A single field of a class: its name, its classified type and its access
//! level.

use vstd::prelude::*;

use crate::types::{duplicate_field_type, Access, FieldType, FieldTypeV};

verus! {

/// One field of a class.
#[derive(Clone, Debug, PartialEq, Eq)]
pub struct Field {
    pub field_type: FieldType,
    pub name: String,
    pub access: Access,
}

/// Mathematical view of `Field`.
#[verifier::ext_equal]
pub struct FieldV {
    pub field_type: FieldTypeV,
    pub name: Seq<char>,
    pub access: Access,
}

impl View for Field {
    type V = FieldV;

    open spec fn view(&self) -> FieldV {
        FieldV { field_type: self.field_type@, name: self.name@, access: self.access }
    }
}

impl DeepView for Field {
    type V = FieldV;

    open spec fn deep_view(&self) -> FieldV {
        self.view()
    }
}

impl Field {
    /// Build a field from its parts.
    pub fn new(name: String, field_type: FieldType, access: Access) -> (f: Field)
        ensures
            f@ == (FieldV { field_type: field_type@, name: name@, access: access }),
    {
        Field { field_type, name, access }
    }

    /// The field's name.
    pub fn get_name(&self) -> (r: String)
        ensures
            r@ == self@.name,
    {
        self.name.clone()
    }

    /// The field's classified type.
    pub fn get_field_type(&self) -> (r: FieldType)
        ensures
            r@ == self@.field_type,
    {
        duplicate_field_type(&self.field_type)
    }

    /// The field's access level.
    pub fn get_access(&self) -> (r: Access)
        ensures
            r == self@.access,
    {
        self.access
    }
}

/// A structural copy of `f` with an equal view (the derived `Clone` carries
/// no specification usable in proofs).
pub fn duplicate_field(f: &Field) -> (r: Field)
    ensures
        r@ == f@,
{
    Field {
        field_type: duplicate_field_type(&f.field_type),
        name: f.name.clone(),
        access: f.access,
    }
}

} // verus!
