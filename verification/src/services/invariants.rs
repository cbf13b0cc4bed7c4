//! What every operation keeps true of the catalog.
//!
//! The tables are consistent where no identifier and no tag name occurs
//! twice and the relation names only images and tags that are there. Each
//! law here says of one step of the services that it leads from a consistent
//! catalog to a consistent catalog.

use crate::dtos::image_dto::ImageUpdateDTO;
use crate::models::image_entry::ImageRow;
use crate::models::tag::TagRow;
use crate::models::tag_color::TagColor;
use crate::seqs::{
    distinct_by, lemma_keep_contains, lemma_keep_distinct, lemma_keep_plain_distinct,
    lemma_max_id, lemma_position, lemma_position_is, lemma_push_contains, lemma_push_distinct,
    spec_max_id, spec_position,
};
use crate::services::catalog::{
    image_ids, of_other_image, of_other_tag, other_image, other_tag, spec_link, spec_resolve,
    spec_unlink_image, spec_unlink_tag, tag_ids, tag_names, CatalogView,
};
use crate::services::image_service::{
    spec_delete_image, spec_patched, spec_update, spec_wanted_tags,
};
use crate::services::tag_service::{
    spec_assign, spec_assign_one, spec_reconcile, spec_without_tag,
};
use crate::text::spec_lowercase;
use vstd::prelude::*;

verus! {

/// A new image under the next identifier keeps the catalog consistent.
pub proof fn lemma_insert_keeps_wf(db: CatalogView, row: ImageRow)
    requires
        db.wf(),
        row.id == spec_max_id(image_ids(db.images)) + 1,
    ensures
        (CatalogView { images: db.images.push(row), ..db }).wf(),
{
    let ids = image_ids(db.images);
    let after = CatalogView { images: db.images.push(row), ..db };
    lemma_max_id(ids);
    lemma_push_distinct(ids, row.id);
    assert(image_ids(after.images) =~= ids.push(row.id));
    assert forall|k: int| 0 <= k < after.links.len() implies image_ids(after.images).contains(
        (#[trigger] after.links[k]).0,
    ) && tag_ids(after.tags).contains(after.links[k].1) by {
        lemma_push_contains(ids, row.id, db.links[k].0);
    }
}

/// Looking a tag up, or making it, keeps the catalog consistent. The tag
/// that is handed back is there afterwards, under the name asked for, and
/// the images are untouched.
pub proof fn lemma_resolve_keeps_wf(db: CatalogView, name: Seq<char>, color: TagColor)
    requires
        db.wf(),
    ensures
        spec_resolve(db, name, color).0.wf(),
        tag_ids(spec_resolve(db, name, color).0.tags).contains(spec_resolve(db, name, color).1),
        tag_names(spec_resolve(db, name, color).0.tags).contains(name),
        spec_resolve(db, name, color).0.images == db.images,
        spec_resolve(db, name, color).0.links == db.links,
{
    let names = tag_names(db.tags);
    let ids = tag_ids(db.tags);
    let at = spec_position(names, name);
    lemma_position(names, name);
    let (after, id) = spec_resolve(db, name, color);
    if at < db.tags.len() {
        assert(ids[at] == id);
        assert(names[at] == name);
    } else {
        lemma_max_id(ids);
        lemma_push_distinct(ids, id);
        lemma_push_distinct(names, name);
        assert(tag_ids(after.tags) =~= ids.push(id));
        assert(tag_names(after.tags) =~= names.push(name));
        lemma_push_contains(ids, id, id);
        lemma_push_contains(names, name, name);
        assert forall|k: int| 0 <= k < after.links.len() implies image_ids(
            after.images,
        ).contains((#[trigger] after.links[k]).0) && tag_ids(after.tags).contains(
            after.links[k].1,
        ) by {
            lemma_push_contains(ids, id, db.links[k].1);
        }
    }
}

/// Resolving a second name that has the same lower-case form gives the same
/// tag again and changes nothing.
pub proof fn lemma_resolve_twice(
    db: CatalogView,
    first: Seq<char>,
    second: Seq<char>,
    first_color: TagColor,
    second_color: TagColor,
)
    requires
        spec_lowercase(first) == spec_lowercase(second),
    ensures
        ({
            let (once, id) = spec_resolve(db, spec_lowercase(first), first_color);
            spec_resolve(once, spec_lowercase(second), second_color) == (once, id)
        }),
{
    let name = spec_lowercase(first);
    let names = tag_names(db.tags);
    let at = spec_position(names, name);
    lemma_position(names, name);
    let (once, id) = spec_resolve(db, name, first_color);
    if at >= db.tags.len() {
        assert(tag_names(once.tags) =~= names.push(name));
        assert forall|k: int| 0 <= k < names.len() implies names.push(name)[k] != name by {
            assert(names.push(name)[k] == names[k]);
        }
        lemma_position_is(names.push(name), name, names.len() as int);
    }
}

/// In a consistent catalog, after a name was resolved, exactly one tag has
/// that name.
pub proof fn lemma_one_tag_of_a_name(db: CatalogView, name: Seq<char>, color: TagColor)
    requires
        db.wf(),
    ensures
        ({
            let tags = spec_resolve(db, name, color).0.tags;
            exists|i: int|
                0 <= i < tags.len() && (#[trigger] tags[i]).name == name && forall|j: int|
                    0 <= j < tags.len() && (#[trigger] tags[j]).name == name ==> j == i
        }),
{
    lemma_resolve_keeps_wf(db, name, color);
    let tags = spec_resolve(db, name, color).0.tags;
    let names = tag_names(tags);
    let i = choose|i: int| 0 <= i < names.len() && names[i] == name;
    assert(tags[i].name == name);
    assert forall|j: int| 0 <= j < tags.len() && (#[trigger] tags[j]).name == name implies j
        == i by {
        assert(names[j] == name);
        if j < i {
            assert(names[j] != names[i]);
        } else if i < j {
            assert(names[i] != names[j]);
        }
    }
}

/// In a consistent catalog the tags that an image carries are a set: none of
/// them occurs twice.
pub proof fn lemma_linked_tags_are_a_set(db: CatalogView, image_id: int)
    requires
        db.wf(),
    ensures
        crate::seqs::distinct(
            crate::services::catalog::spec_linked_tags(db.tags, db.links, image_id),
        ),
{
    assert(crate::seqs::distinct(db.tags)) by {
        assert forall|i: int, j: int| 0 <= i < j < db.tags.len() implies db.tags[i]
            != db.tags[j] by {
            assert(tag_ids(db.tags)[i] != tag_ids(db.tags)[j]);
        }
    }
    lemma_keep_plain_distinct(db.tags, crate::services::catalog::linked_to(db.links, image_id));
}

/// In a consistent catalog a search finds no image twice.
pub proof fn lemma_found_has_no_repetition(
    db: CatalogView,
    query: Seq<char>,
    tags: Seq<Seq<char>>,
    order: crate::models::filter::SortOrder,
)
    requires
        db.wf(),
    ensures
        crate::seqs::distinct(crate::services::image_service::spec_found(db, query, tags, order)),
{
    let selected = crate::services::image_service::spec_selected(db, db.images, query, tags);
    let found = crate::services::image_service::spec_found(db, query, tags, order);
    assert(crate::seqs::distinct(db.images)) by {
        assert forall|i: int, j: int| 0 <= i < j < db.images.len() implies db.images[i]
            != db.images[j] by {
            assert(image_ids(db.images)[i] != image_ids(db.images)[j]);
        }
    }
    lemma_keep_plain_distinct(
        db.images,
        crate::services::image_service::matching(db, query, tags),
    );
    assert(selected.no_duplicates());
    selected.lemma_multiset_has_no_duplicates();
    crate::services::image_service::lemma_sorted(selected, order);
    found.lemma_multiset_has_no_duplicates_conv();
}

/// Letting an image that is there carry a tag that is there keeps the
/// catalog consistent.
pub proof fn lemma_link_keeps_wf(db: CatalogView, image_id: int, tag_id: int)
    requires
        db.wf(),
        image_ids(db.images).contains(image_id),
        tag_ids(db.tags).contains(tag_id),
    ensures
        spec_link(db, image_id, tag_id).wf(),
{
    if !db.links.contains((image_id, tag_id)) {
        lemma_push_distinct(db.links, (image_id, tag_id));
    }
}

/// Taking every tag from an image keeps the catalog consistent.
pub proof fn lemma_unlink_image_keeps_wf(db: CatalogView, image_id: int)
    requires
        db.wf(),
    ensures
        (CatalogView { links: spec_unlink_image(db.links, image_id), ..db }).wf(),
{
    let kept = spec_unlink_image(db.links, image_id);
    lemma_keep_plain_distinct(db.links, of_other_image(image_id));
    assert forall|k: int| 0 <= k < kept.len() implies image_ids(db.images).contains(
        (#[trigger] kept[k]).0,
    ) && tag_ids(db.tags).contains(kept[k].1) by {
        assert(kept.contains(kept[k]));
        lemma_keep_contains(db.links, of_other_image(image_id), kept[k]);
        let j = choose|j: int| 0 <= j < db.links.len() && db.links[j] == kept[k];
        assert(image_ids(db.images).contains(db.links[j].0));
    }
}

/// Giving an image that is there one more tag keeps the catalog consistent
/// and leaves the images untouched.
pub proof fn lemma_assign_one_keeps_wf(db: CatalogView, image_id: int, tag: TagRow)
    requires
        db.wf(),
        image_ids(db.images).contains(image_id),
    ensures
        spec_assign_one(db, image_id, tag).wf(),
        spec_assign_one(db, image_id, tag).images == db.images,
{
    if tag.name.len() != 0 {
        lemma_resolve_keeps_wf(db, spec_lowercase(tag.name), tag.color);
        let (resolved, tag_id) = spec_resolve(db, spec_lowercase(tag.name), tag.color);
        lemma_link_keeps_wf(resolved, image_id, tag_id);
    }
}

/// Giving an image that is there several tags keeps the catalog consistent
/// and leaves the images untouched.
pub proof fn lemma_assign_keeps_wf(db: CatalogView, image_id: int, tags: Seq<TagRow>)
    requires
        db.wf(),
        image_ids(db.images).contains(image_id),
    ensures
        spec_assign(db, image_id, tags).wf(),
        spec_assign(db, image_id, tags).images == db.images,
    decreases tags.len(),
{
    if tags.len() != 0 {
        lemma_assign_keeps_wf(db, image_id, tags.drop_last());
        lemma_assign_one_keeps_wf(
            spec_assign(db, image_id, tags.drop_last()),
            image_id,
            tags.last(),
        );
    }
}

/// Replacing the tags of an image that is there keeps the catalog consistent
/// and leaves the images untouched.
pub proof fn lemma_reconcile_keeps_wf(db: CatalogView, image_id: int, tags: Seq<TagRow>)
    requires
        db.wf(),
        image_ids(db.images).contains(image_id),
    ensures
        spec_reconcile(db, image_id, tags).wf(),
        spec_reconcile(db, image_id, tags).images == db.images,
{
    lemma_unlink_image_keeps_wf(db, image_id);
    lemma_assign_keeps_wf(
        CatalogView { links: spec_unlink_image(db.links, image_id), ..db },
        image_id,
        tags,
    );
}

/// Removing an image keeps the catalog consistent: with the row go the pairs
/// that named it.
pub proof fn lemma_delete_image_keeps_wf(db: CatalogView, id: int)
    requires
        db.wf(),
    ensures
        spec_delete_image(db, id).wf(),
{
    let after = spec_delete_image(db, id);
    let key = |row: ImageRow| row.id;
    assert(distinct_by(db.images, key)) by {
        assert forall|i: int, j: int| 0 <= i < j < db.images.len() implies key(db.images[i])
            != key(db.images[j]) by {
            assert(image_ids(db.images)[i] != image_ids(db.images)[j]);
        }
    }
    lemma_keep_distinct(db.images, other_image(id), key);
    assert forall|i: int, j: int| 0 <= i < j < after.images.len() implies image_ids(
        after.images,
    )[i] != image_ids(after.images)[j] by {
        assert(key(after.images[i]) != key(after.images[j]));
    }
    lemma_keep_plain_distinct(db.links, of_other_image(id));
    assert forall|k: int| 0 <= k < after.links.len() implies image_ids(after.images).contains(
        (#[trigger] after.links[k]).0,
    ) && tag_ids(after.tags).contains(after.links[k].1) by {
        let pair = after.links[k];
        assert(after.links.contains(pair));
        lemma_keep_contains(db.links, of_other_image(id), pair);
        let j = choose|j: int| 0 <= j < db.links.len() && db.links[j] == pair;
        assert(image_ids(db.images).contains(db.links[j].0));
        let r = choose|r: int|
            0 <= r < image_ids(db.images).len() && image_ids(db.images)[r] == pair.0;
        let row = db.images[r];
        assert(db.images.contains(row));
        lemma_keep_contains(db.images, other_image(id), row);
        let q = choose|q: int| 0 <= q < after.images.len() && after.images[q] == row;
        assert(image_ids(after.images)[q] == pair.0);
    }
}

/// Removing a tag keeps the catalog consistent: with the row go the pairs
/// that named it.
pub proof fn lemma_delete_tag_keeps_wf(db: CatalogView, id: int)
    requires
        db.wf(),
    ensures
        (CatalogView {
            images: db.images,
            tags: spec_without_tag(db.tags, id),
            links: spec_unlink_tag(db.links, id),
        }).wf(),
{
    let after = CatalogView {
        images: db.images,
        tags: spec_without_tag(db.tags, id),
        links: spec_unlink_tag(db.links, id),
    };
    let by_id = |row: TagRow| row.id;
    let by_name = |row: TagRow| row.name;
    assert(distinct_by(db.tags, by_id)) by {
        assert forall|i: int, j: int| 0 <= i < j < db.tags.len() implies by_id(db.tags[i])
            != by_id(db.tags[j]) by {
            assert(tag_ids(db.tags)[i] != tag_ids(db.tags)[j]);
        }
    }
    assert(distinct_by(db.tags, by_name)) by {
        assert forall|i: int, j: int| 0 <= i < j < db.tags.len() implies by_name(db.tags[i])
            != by_name(db.tags[j]) by {
            assert(tag_names(db.tags)[i] != tag_names(db.tags)[j]);
        }
    }
    lemma_keep_distinct(db.tags, other_tag(id), by_id);
    lemma_keep_distinct(db.tags, other_tag(id), by_name);
    assert forall|i: int, j: int| 0 <= i < j < after.tags.len() implies tag_ids(after.tags)[i]
        != tag_ids(after.tags)[j] by {
        assert(by_id(after.tags[i]) != by_id(after.tags[j]));
    }
    assert forall|i: int, j: int| 0 <= i < j < after.tags.len() implies tag_names(
        after.tags,
    )[i] != tag_names(after.tags)[j] by {
        assert(by_name(after.tags[i]) != by_name(after.tags[j]));
    }
    lemma_keep_plain_distinct(db.links, of_other_tag(id));
    assert forall|k: int| 0 <= k < after.links.len() implies image_ids(after.images).contains(
        (#[trigger] after.links[k]).0,
    ) && tag_ids(after.tags).contains(after.links[k].1) by {
        let pair = after.links[k];
        assert(after.links.contains(pair));
        lemma_keep_contains(db.links, of_other_tag(id), pair);
        let j = choose|j: int| 0 <= j < db.links.len() && db.links[j] == pair;
        assert(tag_ids(db.tags).contains(db.links[j].1));
        assert(image_ids(db.images).contains(db.links[j].0));
        let r = choose|r: int| 0 <= r < tag_ids(db.tags).len() && tag_ids(db.tags)[r] == pair.1;
        let row = db.tags[r];
        assert(db.tags.contains(row));
        lemma_keep_contains(db.tags, other_tag(id), row);
        let q = choose|q: int| 0 <= q < after.tags.len() && after.tags[q] == row;
        assert(tag_ids(after.tags)[q] == pair.1);
    }
}

/// Updating an image keeps the catalog consistent.
pub proof fn lemma_update_keeps_wf(db: CatalogView, at: int, dto: ImageUpdateDTO)
    requires
        db.wf(),
        0 <= at < db.images.len(),
    ensures
        spec_update(db, at, dto).wf(),
{
    let row = spec_patched(db.images[at], dto);
    let updated = CatalogView { images: db.images.update(at, row), ..db };
    assert(image_ids(updated.images) =~= image_ids(db.images));
    assert(image_ids(updated.images)[at] == row.id);
    match spec_wanted_tags(dto) {
        None => {},
        Some(tags) => {
            lemma_reconcile_keeps_wf(updated, row.id, tags);
        },
    }
}

/// Changing a tag keeps the catalog consistent, as long as no other tag has
/// the new name.
pub proof fn lemma_tag_update_keeps_wf(db: CatalogView, at: int, row: TagRow)
    requires
        db.wf(),
        0 <= at < db.tags.len(),
        row.id == db.tags[at].id,
        spec_position(tag_names(db.tags), row.name) == at || spec_position(
            tag_names(db.tags),
            row.name,
        ) == db.tags.len(),
    ensures
        (CatalogView { tags: db.tags.update(at, row), ..db }).wf(),
{
    let after = CatalogView { tags: db.tags.update(at, row), ..db };
    let names = tag_names(db.tags);
    lemma_position(names, row.name);
    assert(tag_ids(after.tags) =~= tag_ids(db.tags));
    assert forall|i: int, j: int| 0 <= i < j < after.tags.len() implies tag_names(
        after.tags,
    )[i] != tag_names(after.tags)[j] by {
        assert(names[i] != names[j]);
        if i == at {
            if names[j] == row.name {
                assert(names.contains(row.name));
                assert(names[at] == row.name);
            }
        } else if j == at {
            if names[i] == row.name {
                assert(names.contains(row.name));
                assert(names[at] == row.name);
            }
        }
    }
}

} // verus!
