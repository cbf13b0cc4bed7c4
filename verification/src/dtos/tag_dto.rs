use crate::models::tag::TagRow;
use crate::models::tag_color::TagColor;
use vstd::prelude::*;

verus! {

/// A tag as shown to the user.
pub struct TagDTO {
    pub id: i64,
    pub name: String,
    pub color: TagColor,
}

/// What a tag holds: the same as a row of the tag table.
pub type TagView = TagRow;

impl View for TagDTO {
    type V = TagView;

    open spec fn view(&self) -> TagView {
        TagRow { id: self.id as int, name: self.name@, color: self.color }
    }
}

impl TagDTO {
    /// A copy of the tag.
    pub fn duplicate(&self) -> (copy: TagDTO)
        ensures
            copy@ == self@,
    {
        TagDTO { id: self.id, name: self.name.clone(), color: self.color }
    }
}

/// The views of a list of tags.
pub open spec fn tag_views(tags: Seq<TagDTO>) -> Seq<TagView> {
    Seq::new(tags.len(), |i: int| tags[i]@)
}

/// A copy of a list of tags.
pub fn duplicate_tags(tags: &Vec<TagDTO>) -> (copy: Vec<TagDTO>)
    ensures
        tag_views(copy@) == tag_views(tags@),
{
    let mut copy: Vec<TagDTO> = Vec::new();
    let mut i: usize = 0;
    while i < tags.len()
        invariant
            i <= tags.len(),
            copy.len() == i,
            forall|k: int| 0 <= k < i ==> copy@[k]@ == tags@[k]@,
        decreases tags.len() - i,
    {
        copy.push(tags[i].duplicate());
        i += 1;
    }
    assert(tag_views(copy@) =~= tag_views(tags@));
    copy
}

/// The changes asked for on a tag: a new name, unless it is empty, and a colour.
pub struct TagUpdateDTO {
    pub name: String,
    pub color: TagColor,
}

impl Default for TagUpdateDTO {
    fn default() -> (dto: TagUpdateDTO)
        ensures
            dto.name@ == Seq::<char>::empty(),
            dto.color == TagColor::Blue,
    {
        TagUpdateDTO { name: String::new(), color: TagColor::Blue }
    }
}

} // verus!
