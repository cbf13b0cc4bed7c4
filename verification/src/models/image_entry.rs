use vstd::prelude::*;

verus! {

/// A row of the image table.
///
/// `created_at` counts seconds since the Unix epoch. A row is written in two
/// steps: first with empty paths and `is_prepared` false, then, once its files
/// are on disk, with its paths and `is_prepared` true.
pub struct Model {
    pub id: i64,
    pub path: String,
    pub thumbnail_path: String,
    pub description: String,
    pub created_at: i64,
    pub is_folder: bool,
    pub is_prepared: bool,
}

/// What an image row holds.
pub struct ImageRow {
    pub id: int,
    pub path: Seq<char>,
    pub thumbnail_path: Seq<char>,
    pub description: Seq<char>,
    pub created_at: int,
    pub is_folder: bool,
    pub is_prepared: bool,
}

impl View for Model {
    type V = ImageRow;

    open spec fn view(&self) -> ImageRow {
        ImageRow {
            id: self.id as int,
            path: self.path@,
            thumbnail_path: self.thumbnail_path@,
            description: self.description@,
            created_at: self.created_at as int,
            is_folder: self.is_folder,
            is_prepared: self.is_prepared,
        }
    }
}

impl Model {
    /// A copy of the row.
    pub fn duplicate(&self) -> (copy: Model)
        ensures
            copy@ == self@,
    {
        Model {
            id: self.id,
            path: self.path.clone(),
            thumbnail_path: self.thumbnail_path.clone(),
            description: self.description.clone(),
            created_at: self.created_at,
            is_folder: self.is_folder,
            is_prepared: self.is_prepared,
        }
    }
}

} // verus!
