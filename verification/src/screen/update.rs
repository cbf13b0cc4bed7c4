//! Changing the description and the tags of an entry.

use crate::dtos::image_dto::{ImageDTO, ImageUpdateDTO};
use crate::dtos::tag_dto::{tag_views, TagDTO};
use crate::models::image_entry::{ImageRow, Model};
use crate::models::tag::TagRow;
use crate::seqs::spec_position;
use crate::services::catalog::{image_ids, Catalog, CatalogView, DbErr};
use crate::services::image_service::update_from_dto;
use crate::services::tag_service::spec_reconcile;
use vstd::prelude::*;

verus! {

/// The catalog after the user has changed an entry: a description that is
/// not empty replaces the stored one, and tags, if any are given, replace
/// those of the entry. Its paths stay, and so does whether it is a folder and
/// whether it is prepared, as the entry on screen has them.
pub open spec fn spec_submitted(
    db: CatalogView,
    at: int,
    description: Seq<char>,
    tags: Seq<TagRow>,
    is_folder: bool,
    is_prepared: bool,
) -> CatalogView {
    let row = ImageRow {
        description: if description.len() > 0 {
            description
        } else {
            db.images[at].description
        },
        is_folder,
        is_prepared,
        ..db.images[at]
    };
    let updated = CatalogView { images: db.images.update(at, row), ..db };
    if tags.len() > 0 {
        spec_reconcile(updated, row.id, tags)
    } else {
        updated
    }
}

/// Whether identifiers are left for every tag that the change has to make.
pub open spec fn spec_submit_fits(
    db: CatalogView,
    at: int,
    description: Seq<char>,
    tags: Seq<TagRow>,
    is_folder: bool,
    is_prepared: bool,
) -> bool {
    let row = ImageRow {
        description: if description.len() > 0 {
            description
        } else {
            db.images[at].description
        },
        is_folder,
        is_prepared,
        ..db.images[at]
    };
    let updated = CatalogView { images: db.images.update(at, row), ..db };
    tags.len() == 0 || crate::services::tag_service::spec_reconcile_fits(updated, row.id, tags)
}

/// Takes the changes of the update screen into the catalog.
pub fn submit(db: &mut Catalog, image: &ImageDTO, description: String, tags: Vec<TagDTO>) -> (result:
    Result<Model, DbErr>)
    ensures
        match result {
            Ok(model) => {
                let at = spec_position(image_ids(old(db)@.images), image.id as int);
                &&& at < old(db)@.images.len()
                &&& final(db)@ == spec_submitted(
                    old(db)@,
                    at,
                    description@,
                    tag_views(tags@),
                    image.is_folder,
                    image.is_prepared,
                )
                &&& model@ == final(db)@.images[at]
                &&& model.path@ == old(db)@.images[at].path
                &&& model.thumbnail_path@ == old(db)@.images[at].thumbnail_path
            },
            Err(e) => {
                &&& e == DbErr::RecordNotFound || e == DbErr::IdsExhausted
                &&& e == DbErr::RecordNotFound ==> final(db)@ == old(db)@
            },
        },
        result == Err::<Model, DbErr>(DbErr::RecordNotFound) <==> spec_position(
            image_ids(old(db)@.images),
            image.id as int,
        ) == old(db)@.images.len(),
        result is Ok <==> {
            let at = spec_position(image_ids(old(db)@.images), image.id as int);
            at < old(db)@.images.len() && spec_submit_fits(
                old(db)@,
                at,
                description@,
                tag_views(tags@),
                image.is_folder,
                image.is_prepared,
            )
        },
{
    let has_tags = tags.len() > 0;
    let dto = ImageUpdateDTO {
        path: None,
        thumbnail_path: None,
        description: if description.as_str().is_empty() {
            None
        } else {
            Some(description)
        },
        tags: if has_tags {
            Some(tags)
        } else {
            None
        },
        is_folder: image.is_folder,
        is_prepared: image.is_prepared,
    };
    let result = update_from_dto(db, image.id, dto);
    proof {
        if result is Ok {
            let before = old(db)@;
            let at = spec_position(image_ids(before.images), image.id as int);
            let model = result->Ok_0;
            assert(0 <= at < before.images.len()) by {
                crate::seqs::lemma_position(image_ids(before.images), image.id as int);
            }
            let updated = CatalogView { images: before.images.update(at, model@), ..before };
            lemma_images_after_reconcile(updated, model@.id, tag_views(tags@));
            assert(db@.images == updated.images);
            assert(updated.images[at] == model@);
        }
    }
    result
}

/// Giving tags to an image leaves the image table as it is.
pub proof fn lemma_images_after_reconcile(db: CatalogView, image_id: int, tags: Seq<TagRow>)
    ensures
        spec_reconcile(db, image_id, tags).images == db.images,
{
    let start = CatalogView {
        links: crate::services::catalog::spec_unlink_image(db.links, image_id),
        ..db
    };
    lemma_images_after_assign(start, image_id, tags);
}

/// Giving tags to an image, one after the other, leaves the image table as it is.
pub proof fn lemma_images_after_assign(db: CatalogView, image_id: int, tags: Seq<TagRow>)
    ensures
        crate::services::tag_service::spec_assign(db, image_id, tags).images == db.images,
    decreases tags.len(),
{
    if tags.len() != 0 {
        lemma_images_after_assign(db, image_id, tags.drop_last());
    }
}

} // verus!
