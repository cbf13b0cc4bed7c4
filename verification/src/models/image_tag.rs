use vstd::prelude::*;

verus! {

/// A row of the join table: image `image_id` carries tag `tag_id`.
#[derive(Clone, Copy, Debug, PartialEq, Eq, Structural)]
pub struct Model {
    pub image_id: i64,
    pub tag_id: i64,
}

} // verus!
