use vstd::prelude::*;

verus! {

/// The order in which a search lists its results.
#[derive(Clone, Copy, Debug, PartialEq, Eq, Structural)]
pub enum SortOrder {
    /// Oldest entries first.
    CreatedAsc,
    /// Newest entries first.
    CreatedDesc,
}

/// What a search asks for: a free text, tag names that an image must all
/// carry, and the order of the results. The tag names stand for a set: a
/// name that is given twice asks for no more than the name given once.
pub struct Filter {
    pub query: String,
    pub tags: Vec<String>,
    pub sort_order: SortOrder,
}

impl Filter {
    /// The filter that matches every image, newest first.
    pub fn new() -> (filter: Filter)
        ensures
            filter.query@ == Seq::<char>::empty(),
            filter.tags@ == Seq::<String>::empty(),
            filter.sort_order == SortOrder::CreatedDesc,
            filter.wf(),
    {
        Filter { query: String::new(), tags: Vec::new(), sort_order: SortOrder::CreatedDesc }
    }

    /// No tag name is given twice.
    pub open spec fn wf(&self) -> bool {
        crate::seqs::distinct(self.tag_names())
    }

    /// The requested tag names, as texts.
    pub open spec fn tag_names(&self) -> Seq<Seq<char>> {
        Seq::new(self.tags@.len(), |i: int| self.tags@[i]@)
    }
}

} // verus!
