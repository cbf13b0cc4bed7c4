use vstd::prelude::*;

verus! {

/// One page of results, with the number of pages there are in all.
pub struct Page<T> {
    pub content: Vec<T>,
    pub total_pages: u64,
    pub page_number: u64,
}

} // verus!
