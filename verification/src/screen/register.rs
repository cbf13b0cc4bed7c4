//! Registering an image or a folder of images, in two steps.
//!
//! The first step enters the image into the catalog as not prepared and makes
//! ready what is to be written to disk. The caller writes the files. The
//! second step, taken only once the files are written, gives the entry its
//! paths and tags and marks it as prepared. An entry whose files could not be
//! made or written thus stays in the catalog as not prepared, where no search
//! finds it.

use crate::config::Settings;
use crate::dtos::image_dto::ImageUpdateDTO;
use crate::dtos::tag_dto::{duplicate_tags, tag_views, TagDTO};
use crate::models::enums::image_format::ImageFormat;
use crate::models::image_entry::{ImageRow, Model};
use crate::models::tag::TagRow;
use crate::seqs::spec_position;
use crate::services::catalog::{image_ids, Catalog, CatalogView, DbErr};
use crate::services::file_service::{
    save_image_file_with_thumbnail, save_images_from_folder_with_thumbnails, spec_import,
    spec_positions, spec_saved, source_names, FolderImport, SaveError, SavedImage, SourceFile,
};
use crate::services::image_service::{
    insert_image, spec_next_image_id, spec_placeholder, update_from_dto,
};
use crate::services::tag_service::spec_reconcile;
use crate::services::codecs::encoded_file;
use crate::services::file_service::THUMBNAIL_SIDE;
use crate::services::thumbnail_service::{fits_within, spec_png_of, CodecError, Raster};
use vstd::prelude::*;

verus! {

/// Why a registration did not begin.
#[derive(Clone, Copy, Debug, PartialEq, Eq)]
pub enum RegisterError {
    /// The catalog refused the new entry; nothing was changed.
    Db(DbErr),
    /// The files could not be made ready. The entry with this identifier
    /// stays in the catalog, not prepared.
    Save(i64, SaveError),
}

/// A single image whose registration has begun: its identifier, and what is
/// to be written to disk.
pub struct PendingImage {
    pub id: i64,
    pub saved: SavedImage,
}

/// A folder whose registration has begun: its identifier, what is to be
/// written to disk, and the paths that the entry gets: the directory, and the
/// thumbnail of the first file.
pub struct PendingFolder {
    pub id: i64,
    pub import: FolderImport,
    pub path: String,
    pub thumbnail_path: String,
}

/// The catalog with a new entry that is not prepared yet.
pub open spec fn spec_begun(db: CatalogView, description: Seq<char>, created_at: int) -> CatalogView {
    CatalogView {
        images: db.images.push(spec_placeholder(spec_next_image_id(db), description, created_at)),
        ..db
    }
}

/// Begins the registration of a single image.
pub fn begin_image(
    db: &mut Catalog,
    images_root: &str,
    settings: &Settings,
    description: &str,
    image: &Raster,
    original_format: ImageFormat,
    created_at: i64,
) -> (result: Result<PendingImage, RegisterError>)
    ensures
        match result {
            Ok(pending) => {
                &&& pending.id == spec_next_image_id(old(db)@)
                &&& final(db)@ == spec_begun(old(db)@, description@, created_at as int)
                &&& image@.wf()
                &&& spec_saved(
                    pending.id as int,
                    images_root@,
                    image@,
                    original_format,
                    settings.spec_thumb_compression() as int,
                    pending.saved,
                )
            },
            Err(RegisterError::Db(e)) => {
                &&& e == DbErr::IdsExhausted
                &&& final(db)@ == old(db)@
                &&& spec_next_image_id(old(db)@) > i64::MAX
            },
            Err(RegisterError::Save(id, e)) => {
                &&& id == spec_next_image_id(old(db)@)
                &&& final(db)@ == spec_begun(old(db)@, description@, created_at as int)
                &&& e is Codec
                &&& e == SaveError::Codec(CodecError::Malformed) <==> !image@.wf()
                &&& e == SaveError::Codec(CodecError::Resize) ==> !fits_within(
                    image.width as int,
                    image.height as int,
                    THUMBNAIL_SIDE as int,
                    THUMBNAIL_SIDE as int,
                )
            },
        },
        image@.wf() && !image.layout.spec_is_wide() && fits_within(
            image.width as int,
            image.height as int,
            THUMBNAIL_SIDE as int,
            THUMBNAIL_SIDE as int,
        ) && spec_next_image_id(old(db)@) <= i64::MAX ==> (result is Ok <==> encoded_file(
            image.data@,
            image.width as int,
            image.height as int,
            image.layout,
            original_format,
        ) is Some && spec_png_of(
            image@,
            settings.spec_thumb_compression() as int,
            image.data@,
        ) is Some),
{
    let id = match insert_image(db, description, created_at) {
        Ok(id) => id,
        Err(e) => {
            return Err(RegisterError::Db(e));
        },
    };
    match save_image_file_with_thumbnail(id, images_root, image, original_format, settings) {
        Ok(saved) => Ok(PendingImage { id, saved }),
        Err(e) => Err(RegisterError::Save(id, e)),
    }
}

/// Begins the registration of a folder of images. `sources` are the files
/// directly inside the folder.
pub fn begin_folder(
    db: &mut Catalog,
    images_root: &str,
    settings: &Settings,
    description: &str,
    sources: &Vec<SourceFile>,
    created_at: i64,
) -> (result: Result<PendingFolder, RegisterError>)
    ensures
        match result {
            Ok(pending) => {
                &&& pending.id == spec_next_image_id(old(db)@)
                &&& final(db)@ == spec_begun(old(db)@, description@, created_at as int)
                &&& spec_import(
                    pending.id as int,
                    images_root@,
                    sources@,
                    settings.spec_thumb_compression() as int,
                    pending.import,
                )
                &&& pending.path@ == pending.import.saved_paths[0].0@
                &&& pending.thumbnail_path@ == pending.import.saved_paths[0].1@
            },
            Err(RegisterError::Db(e)) => {
                &&& e == DbErr::IdsExhausted
                &&& final(db)@ == old(db)@
                &&& spec_next_image_id(old(db)@) > i64::MAX
            },
            Err(RegisterError::Save(id, e)) => {
                &&& id == spec_next_image_id(old(db)@)
                &&& final(db)@ == spec_begun(old(db)@, description@, created_at as int)
                &&& e == SaveError::EmptyFolder <==> spec_positions(
                    source_names(sources@),
                    false,
                ).len() == 0
            },
        },
{
    let id = match insert_image(db, description, created_at) {
        Ok(id) => id,
        Err(e) => {
            return Err(RegisterError::Db(e));
        },
    };
    match save_images_from_folder_with_thumbnails(id, images_root, sources, settings) {
        Ok(import) => {
            let path = import.saved_paths[0].0.clone();
            let thumbnail_path = import.saved_paths[0].1.clone();
            Ok(PendingFolder { id, import, path, thumbnail_path })
        },
        Err(e) => Err(RegisterError::Save(id, e)),
    }
}

/// An entry as the second step leaves it: with its paths, prepared.
pub open spec fn spec_finished_row(
    row: ImageRow,
    path: Seq<char>,
    thumbnail_path: Seq<char>,
    is_folder: bool,
) -> ImageRow {
    ImageRow {
        path: if path.len() > 0 {
            path
        } else {
            row.path
        },
        thumbnail_path: if thumbnail_path.len() > 0 {
            thumbnail_path
        } else {
            row.thumbnail_path
        },
        is_folder,
        is_prepared: true,
        ..row
    }
}

/// The catalog as the second step leaves it: the entry at `at` has its paths
/// and is prepared, and `tags` are its tags, unless there are none.
pub open spec fn spec_finished(
    db: CatalogView,
    at: int,
    path: Seq<char>,
    thumbnail_path: Seq<char>,
    tags: Seq<TagRow>,
    is_folder: bool,
) -> CatalogView {
    let row = spec_finished_row(db.images[at], path, thumbnail_path, is_folder);
    let updated = CatalogView { images: db.images.update(at, row), ..db };
    if tags.len() > 0 {
        spec_reconcile(updated, row.id, tags)
    } else {
        updated
    }
}

/// Whether identifiers are left for every tag that the second step has to make.
pub open spec fn spec_finish_fits(
    db: CatalogView,
    at: int,
    path: Seq<char>,
    thumbnail_path: Seq<char>,
    tags: Seq<TagRow>,
    is_folder: bool,
) -> bool {
    let row = spec_finished_row(db.images[at], path, thumbnail_path, is_folder);
    let updated = CatalogView { images: db.images.update(at, row), ..db };
    tags.len() == 0 || crate::services::tag_service::spec_reconcile_fits(updated, row.id, tags)
}

/// Gives an entry its paths and tags and marks it as prepared.
fn finish(
    db: &mut Catalog,
    id: i64,
    path: &String,
    thumbnail_path: &String,
    tags: &Vec<TagDTO>,
    is_folder: bool,
) -> (result: Result<Model, DbErr>)
    ensures
        match result {
            Ok(model) => {
                let at = spec_position(image_ids(old(db)@.images), id as int);
                &&& at < old(db)@.images.len()
                &&& model@ == spec_finished_row(
                    old(db)@.images[at],
                    path@,
                    thumbnail_path@,
                    is_folder,
                )
                &&& final(db)@ == spec_finished(
                    old(db)@,
                    at,
                    path@,
                    thumbnail_path@,
                    tag_views(tags@),
                    is_folder,
                )
            },
            Err(e) => {
                &&& e == DbErr::RecordNotFound || e == DbErr::IdsExhausted
                &&& e == DbErr::RecordNotFound ==> final(db)@ == old(db)@
            },
        },
        result == Err::<Model, DbErr>(DbErr::RecordNotFound) <==> spec_position(
            image_ids(old(db)@.images),
            id as int,
        ) == old(db)@.images.len(),
        result is Ok <==> {
            let at = spec_position(image_ids(old(db)@.images), id as int);
            at < old(db)@.images.len() && spec_finish_fits(
                old(db)@,
                at,
                path@,
                thumbnail_path@,
                tag_views(tags@),
                is_folder,
            )
        },
{
    let dto = ImageUpdateDTO {
        path: Some(path.clone()),
        thumbnail_path: Some(thumbnail_path.clone()),
        description: None,
        tags: Some(duplicate_tags(tags)),
        is_folder,
        is_prepared: true,
    };
    update_from_dto(db, id, dto)
}

/// Ends the registration of a single image, once its files are written.
pub fn finish_image(db: &mut Catalog, pending: &PendingImage, tags: &Vec<TagDTO>) -> (result:
    Result<Model, DbErr>)
    ensures
        match result {
            Ok(model) => {
                let at = spec_position(image_ids(old(db)@.images), pending.id as int);
                &&& at < old(db)@.images.len()
                &&& model@ == spec_finished_row(
                    old(db)@.images[at],
                    pending.saved.image_path@,
                    pending.saved.thumbnail_path@,
                    false,
                )
                &&& final(db)@ == spec_finished(
                    old(db)@,
                    at,
                    pending.saved.image_path@,
                    pending.saved.thumbnail_path@,
                    tag_views(tags@),
                    false,
                )
            },
            Err(e) => {
                &&& e == DbErr::RecordNotFound || e == DbErr::IdsExhausted
                &&& e == DbErr::RecordNotFound ==> final(db)@ == old(db)@
            },
        },
        result == Err::<Model, DbErr>(DbErr::RecordNotFound) <==> spec_position(
            image_ids(old(db)@.images),
            pending.id as int,
        ) == old(db)@.images.len(),
        result is Ok <==> {
            let at = spec_position(image_ids(old(db)@.images), pending.id as int);
            at < old(db)@.images.len() && spec_finish_fits(
                old(db)@,
                at,
                pending.saved.image_path@,
                pending.saved.thumbnail_path@,
                tag_views(tags@),
                false,
            )
        },
{
    finish(
        db,
        pending.id,
        &pending.saved.image_path,
        &pending.saved.thumbnail_path,
        tags,
        false,
    )
}

/// Ends the registration of a folder, once its files are written. The entry
/// gets the directory as its path and the thumbnail of the first file as its
/// thumbnail. The number of files of the folder is handed back.
pub fn finish_folder(db: &mut Catalog, pending: &PendingFolder, tags: &Vec<TagDTO>) -> (result:
    Result<(Model, usize), DbErr>)
    ensures
        match result {
            Ok((model, count)) => {
                let at = spec_position(image_ids(old(db)@.images), pending.id as int);
                &&& count == pending.import.saved_paths.len()
                &&& at < old(db)@.images.len()
                &&& model@ == spec_finished_row(
                    old(db)@.images[at],
                    pending.path@,
                    pending.thumbnail_path@,
                    true,
                )
                &&& final(db)@ == spec_finished(
                    old(db)@,
                    at,
                    pending.path@,
                    pending.thumbnail_path@,
                    tag_views(tags@),
                    true,
                )
            },
            Err(e) => {
                &&& e == DbErr::RecordNotFound || e == DbErr::IdsExhausted
                &&& e == DbErr::RecordNotFound ==> final(db)@ == old(db)@
            },
        },
        result is Err && result->Err_0 == DbErr::RecordNotFound <==> spec_position(
            image_ids(old(db)@.images),
            pending.id as int,
        ) == old(db)@.images.len(),
        result is Ok <==> {
            let at = spec_position(image_ids(old(db)@.images), pending.id as int);
            at < old(db)@.images.len() && spec_finish_fits(
                old(db)@,
                at,
                pending.path@,
                pending.thumbnail_path@,
                tag_views(tags@),
                true,
            )
        },
{
    match finish(db, pending.id, &pending.path, &pending.thumbnail_path, tags, true) {
        Ok(model) => Ok((model, pending.import.saved_paths.len())),
        Err(e) => Err(e),
    }
}

} // verus!
