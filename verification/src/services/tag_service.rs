//! The tag table and the relation between images and tags.

use crate::dtos::tag_dto::{tag_views, TagDTO, TagUpdateDTO};
use crate::models::tag::{Model, TagRow};
use crate::models::tag_color::TagColor;
use crate::seqs::{lemma_position, spec_keep, spec_position};
use crate::services::catalog::{
    image_ids, link, resolve_or_create, spec_link, spec_linked_tags, spec_resolve,
    spec_unlink_image, spec_unlink_tag, tag_ids, tag_names, tag_rows, tags_for_image,
    unlink_image, unlink_tag, Catalog, CatalogView, DbErr,
};
use crate::text::{lowercase, spec_lowercase};
use vstd::prelude::*;

verus! {

/// What a list of tags by image holds.
pub open spec fn spec_tags_map(map: Seq<(i64, Vec<TagDTO>)>) -> Seq<(int, Seq<TagRow>)> {
    Seq::new(map.len(), |i: int| (map[i].0 as int, tag_views(map[i].1@)))
}

/// The identifiers that a list of tags by image has entries for.
pub open spec fn spec_map_keys(map: Seq<(i64, Vec<TagDTO>)>) -> Seq<int> {
    Seq::new(map.len(), |i: int| map[i].0 as int)
}

/// `map` holds the tags of the images `image_ids` as a map does: one entry
/// for each of them that carries a tag, with all its tags, and no other entry.
pub open spec fn spec_is_tags_map(
    db: CatalogView,
    image_ids: Seq<i64>,
    map: Seq<(i64, Vec<TagDTO>)>,
) -> bool {
    &&& crate::seqs::distinct(spec_map_keys(map))
    &&& forall|i: int|
        0 <= i < map.len() ==> {
            &&& image_ids.contains((#[trigger] map[i]).0)
            &&& tag_views(map[i].1@) == spec_linked_tags(db.tags, db.links, map[i].0 as int)
            &&& map[i].1@.len() > 0
        }
    &&& forall|k: int|
        0 <= k < image_ids.len() && spec_linked_tags(
            db.tags,
            db.links,
            (#[trigger] image_ids[k]) as int,
        ).len() > 0 ==> spec_map_keys(map).contains(image_ids[k] as int)
}

/// Whether a list of tags by image has an entry for `id`.
fn has_entry(map: &Vec<(i64, Vec<TagDTO>)>, id: i64) -> (found: bool)
    ensures
        found == spec_map_keys(map@).contains(id as int),
{
    let ghost keys = spec_map_keys(map@);
    let mut i: usize = 0;
    while i < map.len()
        invariant
            i <= map.len(),
            keys == spec_map_keys(map@),
            forall|k: int| 0 <= k < i ==> keys[k] != id as int,
        decreases map.len() - i,
    {
        if map[i].0 == id {
            assert(keys[i as int] == id as int);
            return true;
        }
        i += 1;
    }
    false
}

/// The tags of several images at once, as a map from image to tags: there
/// is one entry for each of the images that carries at least one tag, with
/// all the tags it carries. An image without tags has no entry, and an
/// identifier given twice has one. The catalog is only read.
pub fn get_tags_for_images(image_ids: &Vec<i64>, db: &Catalog) -> (tags_map: Vec<
    (i64, Vec<TagDTO>),
>)
    ensures
        spec_is_tags_map(db@, image_ids@, tags_map@),
{
    let mut tags_map: Vec<(i64, Vec<TagDTO>)> = Vec::new();
    let mut i: usize = 0;
    while i < image_ids.len()
        invariant
            i <= image_ids.len(),
            spec_is_tags_map(db@, image_ids@.take(i as int), tags_map@),
            forall|j: int|
                0 <= j < tags_map.len() ==> image_ids@.contains((#[trigger] tags_map@[j]).0),
        decreases image_ids.len() - i,
    {
        let id = image_ids[i];
        let ghost before = tags_map@;
        let ghost seen = image_ids@.take(i as int);
        let ghost next = image_ids@.take(i + 1);
        assert(next =~= seen.push(id));
        let mut pushed = false;
        if !has_entry(&tags_map, id) {
            let tags = tags_for_image(db, id);
            if tags.len() > 0 {
                tags_map.push((id, tags));
                pushed = true;
            }
        }
        proof {
            let after = tags_map@;
            let keys = spec_map_keys(after);
            if pushed {
                assert(keys =~= spec_map_keys(before).push(id as int));
                crate::seqs::lemma_push_distinct(spec_map_keys(before), id as int);
            } else {
                assert(after == before);
            }
            assert forall|j: int| 0 <= j < after.len() implies {
                &&& next.contains((#[trigger] after[j]).0)
                &&& tag_views(after[j].1@) == spec_linked_tags(
                    db@.tags,
                    db@.links,
                    after[j].0 as int,
                )
                &&& after[j].1@.len() > 0
            } by {
                if j < before.len() {
                    assert(after[j] == before[j]);
                    crate::seqs::lemma_push_contains(seen, id, before[j].0);
                } else {
                    crate::seqs::lemma_push_contains(seen, id, id);
                }
            }
            assert forall|k: int|
                0 <= k < next.len() && spec_linked_tags(
                    db@.tags,
                    db@.links,
                    (#[trigger] next[k]) as int,
                ).len() > 0 implies keys.contains(next[k] as int) by {
                if k < seen.len() {
                    assert(next[k] == seen[k]);
                    assert(spec_map_keys(before).contains(seen[k] as int));
                    if pushed {
                        crate::seqs::lemma_push_contains(
                            spec_map_keys(before),
                            id as int,
                            seen[k] as int,
                        );
                    }
                } else {
                    assert(next[k] == id);
                    if pushed {
                        crate::seqs::lemma_push_contains(
                            spec_map_keys(before),
                            id as int,
                            id as int,
                        );
                    }
                }
            }
            assert forall|j: int| 0 <= j < after.len() implies image_ids@.contains(
                (#[trigger] after[j]).0,
            ) by {
                if j >= before.len() {
                    assert(image_ids@[i as int] == id);
                }
            }
        }
        i += 1;
    }
    assert(image_ids@.take(image_ids.len() as int) =~= image_ids@);
    tags_map
}

/// The name that a tag has after an update: the new name in lower case, or
/// the old name where the new one is empty.
pub open spec fn spec_updated_name(old_name: Seq<char>, new_name: Seq<char>) -> Seq<char> {
    if new_name.len() == 0 {
        old_name
    } else {
        spec_lowercase(new_name)
    }
}

/// Whether the tag at position `at` cannot take the name `name` because
/// another tag has it.
pub open spec fn spec_name_taken(tags: Seq<TagRow>, at: int, name: Seq<char>) -> bool {
    let other = spec_position(tag_names(tags), name);
    other < tags.len() && other != at
}

/// Changes a tag: its name, unless the new name is empty, and its colour,
/// always. The name is kept in lower case. A name that another tag has is
/// refused.
pub fn update_from_dto(db: &mut Catalog, id: i64, dto: TagUpdateDTO) -> (result: Result<
    Model,
    DbErr,
>)
    ensures
        result is Ok <==> {
            let at = spec_position(tag_ids(old(db)@.tags), id as int);
            at < old(db)@.tags.len() && !spec_name_taken(
                old(db)@.tags,
                at,
                spec_updated_name(old(db)@.tags[at].name, dto.name@),
            )
        },
        match result {
            Ok(model) => {
                let at = spec_position(tag_ids(old(db)@.tags), id as int);
                &&& at < old(db)@.tags.len()
                &&& model@ == (TagRow {
                    id: id as int,
                    name: spec_updated_name(old(db)@.tags[at].name, dto.name@),
                    color: dto.color,
                })
                &&& final(db)@ == (CatalogView {
                    tags: old(db)@.tags.update(at, model@),
                    ..old(db)@
                })
            },
            Err(e) => {
                let at = spec_position(tag_ids(old(db)@.tags), id as int);
                &&& final(db)@ == old(db)@
                &&& e == DbErr::RecordNotFound <==> at == old(db)@.tags.len()
                &&& e == DbErr::RecordNotFound || e == DbErr::Constraint
            },
        },
{
    let at = match db.find_tag(id) {
        Some(at) => at,
        None => {
            return Err(DbErr::RecordNotFound);
        },
    };
    assert(db@.tags[at as int] == db.tags[at as int]@);
    let name = if dto.name.as_str().is_empty() {
        db.tags[at].name.clone()
    } else {
        lowercase(dto.name.as_str())
    };
    match db.find_tag_by_name(name.as_str()) {
        Some(other) => {
            if other != at {
                return Err(DbErr::Constraint);
            }
        },
        None => {},
    }
    let ghost before = db@;
    let model = Model { id, name: name.clone(), color: dto.color };
    let stored = Model { id, name, color: dto.color };
    let mut tags = Vec::new();
    core::mem::swap(&mut tags, &mut db.tags);
    tags.set(at, stored);
    db.tags = tags;
    assert(db@.tags =~= before.tags.update(at as int, model@));
    assert(db@.images == before.images);
    assert(db@.links == before.links);
    Ok(model)
}

/// Giving an image one more tag: the tag is looked up by its name in lower
/// case, made where it is not there, and linked to the image. A tag without a
/// name is passed over.
pub open spec fn spec_assign_one(db: CatalogView, image_id: int, tag: TagRow) -> CatalogView {
    if tag.name.len() == 0 {
        db
    } else {
        let (resolved, tag_id) = spec_resolve(db, spec_lowercase(tag.name), tag.color);
        spec_link(resolved, image_id, tag_id)
    }
}

/// Giving an image each of `tags`, one after the other.
pub open spec fn spec_assign(db: CatalogView, image_id: int, tags: Seq<TagRow>) -> CatalogView
    decreases tags.len(),
{
    if tags.len() == 0 {
        db
    } else {
        spec_assign_one(spec_assign(db, image_id, tags.drop_last()), image_id, tags.last())
    }
}

/// Whether an identifier is left for the tag that one more step of giving
/// tags may have to make.
pub open spec fn spec_assign_one_fits(db: CatalogView, tag: TagRow) -> bool {
    tag.name.len() == 0 || spec_resolve(db, spec_lowercase(tag.name), tag.color).1 <= i64::MAX
}

/// Whether identifiers are left for every tag that giving `tags` to an image
/// has to make.
pub open spec fn spec_assign_fits(db: CatalogView, image_id: int, tags: Seq<TagRow>) -> bool
    decreases tags.len(),
{
    if tags.len() == 0 {
        true
    } else {
        &&& spec_assign_fits(db, image_id, tags.drop_last())
        &&& spec_assign_one_fits(spec_assign(db, image_id, tags.drop_last()), tags.last())
    }
}

/// Where identifiers are left for all of `tags`, they are left for the first `n`.
pub proof fn lemma_assign_fits_prefix(db: CatalogView, image_id: int, tags: Seq<TagRow>, n: int)
    requires
        0 <= n <= tags.len(),
        spec_assign_fits(db, image_id, tags),
    ensures
        spec_assign_fits(db, image_id, tags.take(n)),
    decreases tags.len(),
{
    if n == tags.len() {
        assert(tags.take(n) =~= tags);
    } else {
        lemma_assign_fits_prefix(db, image_id, tags.drop_last(), n);
        assert(tags.drop_last().take(n) =~= tags.take(n));
    }
}

/// Whether identifiers are left for every tag that `spec_reconcile` has to make.
pub open spec fn spec_reconcile_fits(db: CatalogView, image_id: int, tags: Seq<TagRow>) -> bool {
    spec_assign_fits(
        CatalogView { links: spec_unlink_image(db.links, image_id), ..db },
        image_id,
        tags,
    )
}

/// Making `tags` the tags of an image: every tag it had is taken from it,
/// and then it is given each of `tags`.
pub open spec fn spec_reconcile(db: CatalogView, image_id: int, tags: Seq<TagRow>) -> CatalogView {
    spec_assign(
        CatalogView { links: spec_unlink_image(db.links, image_id), ..db },
        image_id,
        tags,
    )
}

/// Makes `tags` the tags of an image.
///
/// Every tag the image had is taken from it first; then each of `tags` is
/// looked up by name, made where it is new, and given to the image. An image
/// that is not in the catalog is refused before anything is changed. Where
/// the identifiers run out on the way, the image is left with the tags given
/// so far.
pub fn update_tags_for_image(db: &mut Catalog, image_id: i64, tags: &Vec<TagDTO>) -> (result:
    Result<(), DbErr>)
    ensures
        match result {
            Ok(_) => final(db)@ == spec_reconcile(old(db)@, image_id as int, tag_views(tags@)),
            Err(e) => {
                &&& e == DbErr::RecordNotFound || e == DbErr::IdsExhausted
                &&& e == DbErr::RecordNotFound ==> final(db)@ == old(db)@
                &&& e == DbErr::IdsExhausted ==> exists|n: int|
                    0 <= n < tags.len() && final(db)@ == #[trigger] spec_reconcile(
                        old(db)@,
                        image_id as int,
                        tag_views(tags@).take(n),
                    )
                &&& final(db)@.images == old(db)@.images
            },
        },
        result == Err::<(), DbErr>(DbErr::RecordNotFound) <==> spec_position(
            image_ids(old(db)@.images),
            image_id as int,
        ) == old(db)@.images.len(),
        result == Err::<(), DbErr>(DbErr::IdsExhausted) <==> spec_position(
            image_ids(old(db)@.images),
            image_id as int,
        ) < old(db)@.images.len() && !spec_reconcile_fits(
            old(db)@,
            image_id as int,
            tag_views(tags@),
        ),
{
    proof {
        lemma_position(image_ids(db@.images), image_id as int);
    }
    if db.find_image(image_id).is_none() {
        return Err(DbErr::RecordNotFound);
    }
    unlink_image(db, image_id);
    let ghost start = db@;
    let ghost all = tag_views(tags@);
    let mut i: usize = 0;
    while i < tags.len()
        invariant
            i <= tags.len(),
            all == tag_views(tags@),
            start == (CatalogView {
                links: spec_unlink_image(old(db)@.links, image_id as int),
                ..old(db)@
            }),
            db@ == spec_assign(start, image_id as int, all.take(i as int)),
            spec_assign_fits(start, image_id as int, all.take(i as int)),
            db@.images == old(db)@.images,
            spec_position(image_ids(old(db)@.images), image_id as int) < old(db)@.images.len(),
        decreases tags.len() - i,
    {
        assert(all.take(i + 1).drop_last() =~= all.take(i as int));
        assert(all.take(i + 1).last() == tags@[i as int]@);
        let tag = &tags[i];
        if !tag.name.as_str().is_empty() {
            match resolve_or_create(db, tag.name.as_str(), tag.color) {
                Ok(tag_id) => {
                    link(db, image_id, tag_id);
                },
                Err(_) => {
                    proof {
                        if spec_assign_fits(start, image_id as int, all) {
                            lemma_assign_fits_prefix(start, image_id as int, all, i + 1);
                        }
                        assert(db@ == spec_reconcile(
                            old(db)@,
                            image_id as int,
                            all.take(i as int),
                        ));
                    }
                    return Err(DbErr::IdsExhausted);
                },
            }
        }
        i += 1;
    }
    assert(all.take(tags.len() as int) =~= all);
    Ok(())
}

/// Every tag of the catalog, in the order of the table.
pub fn find_all(db: &Catalog) -> (tags: Vec<TagDTO>)
    ensures
        tag_views(tags@) == db@.tags,
{
    let mut tags: Vec<TagDTO> = Vec::new();
    let mut i: usize = 0;
    while i < db.tags.len()
        invariant
            i <= db.tags.len(),
            tags.len() == i,
            forall|k: int| 0 <= k < i ==> tags@[k]@ == db.tags@[k]@,
        decreases db.tags.len() - i,
    {
        let tag = &db.tags[i];
        tags.push(TagDTO { id: tag.id, name: tag.name.clone(), color: tag.color });
        i += 1;
    }
    assert(tag_views(tags@) =~= db@.tags);
    tags
}

/// Enters a tag under its name in lower case. Where a tag of that name is
/// there already, nothing is changed: no second tag of the name is made.
pub fn save(db: &mut Catalog, name: &str, color: TagColor) -> (result: Result<(), DbErr>)
    ensures
        match result {
            Ok(_) => final(db)@ == spec_resolve(old(db)@, spec_lowercase(name@), color).0,
            Err(e) => {
                &&& e == DbErr::IdsExhausted
                &&& final(db)@ == old(db)@
                &&& spec_resolve(old(db)@, spec_lowercase(name@), color).1 > i64::MAX
            },
        },
{
    match resolve_or_create(db, name, color) {
        Ok(_) => Ok(()),
        Err(e) => Err(e),
    }
}

/// `tags` without the rows with the identifier `id`.
pub open spec fn spec_without_tag(tags: Seq<TagRow>, id: int) -> Seq<TagRow> {
    spec_keep(tags, crate::services::catalog::other_tag(id))
}

/// Removes a tag. It is taken from every image that carried it; the images
/// stay. A tag that is not there counts as removed already.
pub fn delete(db: &mut Catalog, id: i64) -> (result: Result<(), DbErr>)
    ensures
        result is Ok,
        final(db)@ == (CatalogView {
            images: old(db)@.images,
            tags: spec_without_tag(old(db)@.tags, id as int),
            links: spec_unlink_tag(old(db)@.links, id as int),
        }),
{
    unlink_tag(db, id);
    let ghost before = db@;
    let mut kept: Vec<Model> = Vec::new();
    let mut i: usize = 0;
    assert(tag_rows(kept@) =~= spec_without_tag(before.tags.take(0), id as int));
    while i < db.tags.len()
        invariant
            i <= db.tags.len(),
            db@ == before,
            tag_rows(kept@) == spec_without_tag(before.tags.take(i as int), id as int),
        decreases db.tags.len() - i,
    {
        assert(before.tags.take(i + 1).drop_last() =~= before.tags.take(i as int));
        assert(before.tags.take(i + 1).last() == db.tags@[i as int]@);
        if db.tags[i].id != id {
            let ghost held = kept@;
            kept.push(db.tags[i].duplicate());
            assert(tag_rows(kept@) =~= tag_rows(held).push(db.tags@[i as int]@));
        }
        i += 1;
    }
    assert(before.tags.take(db.tags.len() as int) =~= before.tags);
    db.tags = kept;
    Ok(())
}

} // verus!
