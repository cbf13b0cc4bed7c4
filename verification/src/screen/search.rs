//! Searching and deleting from the list of results.

use crate::dtos::image_dto::{image_views, ImageDTO};
use crate::dtos::tag_dto::TagDTO;
use crate::models::enums::image_type::ImageType;
use crate::models::filter::{Filter, SortOrder};
use crate::models::page::Page;
use crate::services::catalog::Catalog;
use crate::services::file_service::{action_views, ArtifactFolder, Removal};
use crate::services::image_service::{
    find_all, spec_found, spec_page, spec_shown, spec_total_pages,
};
use vstd::prelude::*;

verus! {

/// The names of a list of tags.
pub open spec fn spec_names_of(tags: Seq<TagDTO>) -> Seq<Seq<char>> {
    Seq::new(tags.len(), |i: int| tags[i].name@)
}

/// The filter for a query, a selection of tags and an order.
pub fn filter_for(query: &str, selected_tags: &Vec<TagDTO>, sort_order: SortOrder) -> (filter:
    Filter)
    ensures
        filter.query@ == query@,
        filter.tag_names() == spec_names_of(selected_tags@),
        filter.sort_order == sort_order,
        crate::seqs::distinct(spec_names_of(selected_tags@)) ==> filter.wf(),
{
    let mut tags: Vec<String> = Vec::new();
    let mut i: usize = 0;
    while i < selected_tags.len()
        invariant
            i <= selected_tags.len(),
            tags.len() == i,
            forall|k: int| 0 <= k < i ==> tags@[k]@ == selected_tags@[k].name@,
        decreases selected_tags.len() - i,
    {
        tags.push(selected_tags[i].name.clone());
        i += 1;
    }
    let filter = Filter { query: query.to_owned(), tags, sort_order };
    assert(filter.tag_names() =~= spec_names_of(selected_tags@));
    filter
}

/// Searches the catalog for what the search screen asks: the images whose
/// description meets the query and that carry all the selected tags, one
/// page of them.
pub fn search(
    db: &Catalog,
    query: &str,
    selected_tags: &Vec<TagDTO>,
    sort_order: SortOrder,
    page: u64,
    page_size: u64,
) -> (result: Page<ImageDTO>)
    ensures
        result.page_number == page,
        result.total_pages == spec_total_pages(
            spec_found(db@, query@, spec_names_of(selected_tags@), sort_order).len() as int,
            page_size as int,
        ),
        image_views(result.content@) == spec_shown(
            db@,
            spec_page(
                spec_found(db@, query@, spec_names_of(selected_tags@), sort_order),
                page as int,
                page_size as int,
            ),
        ),
{
    let filter = filter_for(query, selected_tags, sort_order);
    find_all(db, &filter, page, page_size)
}

/// Deletes what the user chose from the list.
///
/// The files go as `file_service::delete_image` says for the kind of the
/// request. For an entry of the catalog, a folder or a single image, the row
/// goes too, whatever became of the files; a file shown from inside a folder
/// is no row of the catalog, which is left as it is.
pub fn delete_image(
    db: &mut Catalog,
    folder: &mut ArtifactFolder,
    id: i64,
    name: &str,
    image_type: ImageType,
) -> (removal: Removal)
    ensures
        final(folder)@ == crate::services::file_service::spec_delete_image(
            old(folder)@,
            name@,
            image_type,
        ).folder,
        action_views(removal.actions@) == crate::services::file_service::spec_delete_image(
            old(folder)@,
            name@,
            image_type,
        ).actions,
        removal.outcome == crate::services::file_service::spec_delete_image(
            old(folder)@,
            name@,
            image_type,
        ).outcome,
        final(db)@ == if image_type == ImageType::FromFolder {
            old(db)@
        } else {
            crate::services::image_service::spec_delete_image(old(db)@, id as int)
        },
{
    let removal = crate::services::file_service::delete_image(folder, name, image_type);
    match image_type {
        ImageType::FromFolder => {},
        _ => {
            let _ = crate::services::image_service::delete_image(db, id);
        },
    }
    removal
}

/// The position of the image that the preview shows after a step forwards or
/// backwards through `count` images: behind the last comes the first again,
/// and before the first the last. Where there is no image, nothing changes.
pub open spec fn spec_change_preview(current: int, forward: bool, count: int) -> int {
    if count <= 0 {
        current
    } else if forward {
        (current + 1) % count
    } else {
        (current + count - 1) % count
    }
}

/// The position of the image that the preview shows after a step.
pub fn change_preview(current: usize, forward: bool, count: usize) -> (next: usize)
    ensures
        next == spec_change_preview(current as int, forward, count as int),
        count > 0 ==> next < count,
{
    if count == 0 {
        return current;
    }
    let step: u128 = if forward {
        1
    } else {
        (count - 1) as u128
    };
    let next: u128 = (current as u128 + step) % (count as u128);
    next as usize
}

} // verus!
