use crate::models::tag_color::TagColor;
use vstd::prelude::*;

verus! {

/// A row of the tag table: a named, coloured label.
pub struct Model {
    pub id: i64,
    pub name: String,
    pub color: TagColor,
}

/// What a tag row holds.
pub struct TagRow {
    pub id: int,
    pub name: Seq<char>,
    pub color: TagColor,
}

impl View for Model {
    type V = TagRow;

    open spec fn view(&self) -> TagRow {
        TagRow { id: self.id as int, name: self.name@, color: self.color }
    }
}

impl Model {
    /// A copy of the row.
    pub fn duplicate(&self) -> (copy: Model)
        ensures
            copy@ == self@,
    {
        Model { id: self.id, name: self.name.clone(), color: self.color }
    }
}

} // verus!
