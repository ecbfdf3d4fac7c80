//! Field metadata: per-resource-type descriptors of the queryable members.
//!
//! Each servable resource type exposes a fixed list of [`Field`] descriptors
//! (name plus a numeric / boolean flag); the filter builder consults this list
//! and nothing else when it turns query parameters into store filters.

use vstd::prelude::*;

verus! {

/// A descriptor of one queryable member of a resource type: its name and
/// whether its values are numeric or boolean (text when neither flag is set).
pub struct Field {
    pub name: String,
    pub is_num: bool,
    pub is_bool: bool,
}

/// The mathematical image of a [`Field`]: the same three components with the
/// name as a sequence of characters.
pub struct FieldModel {
    pub name: Seq<char>,
    pub is_num: bool,
    pub is_bool: bool,
}

impl View for Field {
    type V = FieldModel;

    open spec fn view(&self) -> FieldModel {
        FieldModel { name: self.name@, is_num: self.is_num, is_bool: self.is_bool }
    }
}

impl Field {
    /// A text field descriptor with the given name; the numeric and boolean
    /// flags start out unset and may be toggled on the public fields.
    pub fn new(name: &str) -> (r: Self)
        ensures
            r@.name == name@,
            !r@.is_num,
            !r@.is_bool,
    {
        Field { name: name.to_owned(), is_num: false, is_bool: false }
    }
}

/// The sequence of descriptor models carried by a descriptor list.
pub open spec fn fields_view(fields: Seq<Field>) -> Seq<FieldModel> {
    fields.map_values(|f: Field| f@)
}

/// The capability of a resource type to enumerate its queryable members.
pub trait Fields {
    fn fields() -> Vec<Field>;
}

} // verus!
