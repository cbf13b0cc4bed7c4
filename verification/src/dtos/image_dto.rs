use crate::dtos::tag_dto::{duplicate_tags, tag_views, TagDTO, TagView};
use vstd::prelude::*;

verus! {

/// A catalog entry as shown to the user, with its tags.
///
/// `tags` stands for a set: its order carries no meaning.
pub struct ImageDTO {
    pub id: i64,
    pub path: String,
    pub thumbnail_path: String,
    pub description: String,
    pub tags: Vec<TagDTO>,
    pub created_at: String,
    pub is_folder: bool,
    pub is_prepared: bool,
}

/// What a shown catalog entry holds.
pub struct ImageView {
    pub id: int,
    pub path: Seq<char>,
    pub thumbnail_path: Seq<char>,
    pub description: Seq<char>,
    pub tags: Seq<TagView>,
    pub created_at: Seq<char>,
    pub is_folder: bool,
    pub is_prepared: bool,
}

impl ImageView {
    /// The tags stand for a set: none of them occurs twice.
    pub open spec fn wf(self) -> bool {
        crate::seqs::distinct(self.tags)
    }
}

impl View for ImageDTO {
    type V = ImageView;

    open spec fn view(&self) -> ImageView {
        ImageView {
            id: self.id as int,
            path: self.path@,
            thumbnail_path: self.thumbnail_path@,
            description: self.description@,
            tags: tag_views(self.tags@),
            created_at: self.created_at@,
            is_folder: self.is_folder,
            is_prepared: self.is_prepared,
        }
    }
}

impl ImageDTO {
    /// A copy of the entry.
    pub fn duplicate(&self) -> (copy: ImageDTO)
        ensures
            copy@ == self@,
    {
        ImageDTO {
            id: self.id,
            path: self.path.clone(),
            thumbnail_path: self.thumbnail_path.clone(),
            description: self.description.clone(),
            tags: duplicate_tags(&self.tags),
            created_at: self.created_at.clone(),
            is_folder: self.is_folder,
            is_prepared: self.is_prepared,
        }
    }
}

/// The views of a list of entries.
pub open spec fn image_views(images: Seq<ImageDTO>) -> Seq<ImageView> {
    Seq::new(images.len(), |i: int| images[i]@)
}

/// A partial update of a catalog entry.
///
/// A text field that is absent or empty leaves the stored value as it is; so
/// does an absent or empty tag list. The two flags are always written.
pub struct ImageUpdateDTO {
    pub path: Option<String>,
    pub thumbnail_path: Option<String>,
    pub description: Option<String>,
    pub tags: Option<Vec<TagDTO>>,
    pub is_folder: bool,
    pub is_prepared: bool,
}

impl Default for ImageUpdateDTO {
    fn default() -> (dto: ImageUpdateDTO)
        ensures
            dto.path is None,
            dto.thumbnail_path is None,
            dto.description is None,
            dto.tags is None,
            !dto.is_folder,
            !dto.is_prepared,
    {
        ImageUpdateDTO {
            path: None,
            thumbnail_path: None,
            description: None,
            tags: None,
            is_folder: false,
            is_prepared: false,
        }
    }
}

} // verus!
