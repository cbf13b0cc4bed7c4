//! The catalog: the three tables of images, tags and their relation, held in
//! memory as plain rows.
//!
//! Every operation of the services is a step from one state of these tables
//! to the next. Loading the tables and writing them back is the caller's part.

use crate::dtos::tag_dto::{tag_views, TagDTO};
use crate::models::image_entry::ImageRow;
use crate::models::tag::TagRow;
use crate::models::tag_color::TagColor;
use crate::models::{image_entry, image_tag, tag};
use crate::seqs::{distinct, lemma_position_is, spec_keep, spec_max_id, spec_position};
use crate::text::{lowercase, same_text, spec_lowercase};
use vstd::prelude::*;

verus! {

/// The tables of the catalog.
pub struct Catalog {
    pub images: Vec<image_entry::Model>,
    pub tags: Vec<tag::Model>,
    pub image_tags: Vec<image_tag::Model>,
}

/// What the tables hold. A pair in `links` says that the image with the first
/// identifier carries the tag with the second.
pub struct CatalogView {
    pub images: Seq<ImageRow>,
    pub tags: Seq<TagRow>,
    pub links: Seq<(int, int)>,
}

/// What a list of image rows holds.
pub open spec fn image_rows(images: Seq<image_entry::Model>) -> Seq<ImageRow> {
    Seq::new(images.len(), |i: int| images[i]@)
}

/// What a list of tag rows holds.
pub open spec fn tag_rows(tags: Seq<tag::Model>) -> Seq<TagRow> {
    Seq::new(tags.len(), |i: int| tags[i]@)
}

/// What a list of rows of the join table holds.
pub open spec fn link_pairs(links: Seq<image_tag::Model>) -> Seq<(int, int)> {
    Seq::new(links.len(), |i: int| (links[i].image_id as int, links[i].tag_id as int))
}

impl View for Catalog {
    type V = CatalogView;

    open spec fn view(&self) -> CatalogView {
        CatalogView {
            images: image_rows(self.images@),
            tags: tag_rows(self.tags@),
            links: link_pairs(self.image_tags@),
        }
    }
}

/// The identifiers of a list of image rows.
pub open spec fn image_ids(images: Seq<ImageRow>) -> Seq<int> {
    Seq::new(images.len(), |i: int| images[i].id)
}

/// The identifiers of a list of tag rows.
pub open spec fn tag_ids(tags: Seq<TagRow>) -> Seq<int> {
    Seq::new(tags.len(), |i: int| tags[i].id)
}

/// The names of a list of tag rows.
pub open spec fn tag_names(tags: Seq<TagRow>) -> Seq<Seq<char>> {
    Seq::new(tags.len(), |i: int| tags[i].name)
}

impl CatalogView {
    /// The tables are consistent: no identifier and no tag name occurs twice,
    /// no pair of the relation occurs twice, and every pair names an image
    /// and a tag that are there.
    pub open spec fn wf(self) -> bool {
        &&& distinct(image_ids(self.images))
        &&& distinct(tag_ids(self.tags))
        &&& distinct(tag_names(self.tags))
        &&& distinct(self.links)
        &&& forall|k: int|
            0 <= k < self.links.len() ==> {
                &&& image_ids(self.images).contains((#[trigger] self.links[k]).0)
                &&& tag_ids(self.tags).contains(self.links[k].1)
            }
    }
}

/// Why the catalog refused an operation.
#[derive(Clone, Copy, Debug, PartialEq, Eq, Structural)]
pub enum DbErr {
    /// The row that was to be changed is not there.
    RecordNotFound,
    /// Another tag has the name already.
    Constraint,
    /// No identifier is left for a new row.
    IdsExhausted,
}

impl DbErr {
    /// A sentence for the user.
    pub fn message(&self) -> (text: &'static str)
        ensures
            text@ == match self {
                DbErr::RecordNotFound => "Record not found"@,
                DbErr::Constraint => "A tag with this name already exists"@,
                DbErr::IdsExhausted => "No identifier is left"@,
            },
    {
        match self {
            DbErr::RecordNotFound => "Record not found",
            DbErr::Constraint => "A tag with this name already exists",
            DbErr::IdsExhausted => "No identifier is left",
        }
    }
}

impl Catalog {
    /// A catalog without any row.
    pub fn new() -> (db: Catalog)
        ensures
            db@.images == Seq::<ImageRow>::empty(),
            db@.tags == Seq::<TagRow>::empty(),
            db@.links == Seq::<(int, int)>::empty(),
            db@.wf(),
    {
        let db = Catalog { images: Vec::new(), tags: Vec::new(), image_tags: Vec::new() };
        assert(db@.images =~= Seq::<ImageRow>::empty());
        assert(db@.tags =~= Seq::<TagRow>::empty());
        assert(db@.links =~= Seq::<(int, int)>::empty());
        db
    }

    /// The position of the image row with the identifier `id`, if there is one.
    pub fn find_image(&self, id: i64) -> (at: Option<usize>)
        ensures
            match at {
                Some(i) => i == spec_position(image_ids(self@.images), id as int) && i
                    < self.images.len() && self.images[i as int].id == id,
                None => spec_position(image_ids(self@.images), id as int) == self.images.len(),
            },
    {
        let ghost ids = image_ids(self@.images);
        let mut i: usize = 0;
        while i < self.images.len()
            invariant
                i <= self.images.len(),
                ids == image_ids(self@.images),
                forall|k: int| 0 <= k < i ==> ids[k] != id as int,
            decreases self.images.len() - i,
        {
            if self.images[i].id == id {
                proof {
                    assert(ids[i as int] == id as int);
                    lemma_position_is(ids, id as int, i as int);
                }
                return Some(i);
            }
            i += 1;
        }
        proof {
            lemma_position_is(ids, id as int, i as int);
        }
        None
    }

    /// The position of the tag row with the identifier `id`, if there is one.
    pub fn find_tag(&self, id: i64) -> (at: Option<usize>)
        ensures
            match at {
                Some(i) => i == spec_position(tag_ids(self@.tags), id as int) && i
                    < self.tags.len() && self.tags[i as int].id == id,
                None => spec_position(tag_ids(self@.tags), id as int) == self.tags.len(),
            },
    {
        let ghost ids = tag_ids(self@.tags);
        let mut i: usize = 0;
        while i < self.tags.len()
            invariant
                i <= self.tags.len(),
                ids == tag_ids(self@.tags),
                forall|k: int| 0 <= k < i ==> ids[k] != id as int,
            decreases self.tags.len() - i,
        {
            if self.tags[i].id == id {
                proof {
                    assert(ids[i as int] == id as int);
                    lemma_position_is(ids, id as int, i as int);
                }
                return Some(i);
            }
            i += 1;
        }
        proof {
            lemma_position_is(ids, id as int, i as int);
        }
        None
    }

    /// The position of the tag row with the name `name`, if there is one.
    pub fn find_tag_by_name(&self, name: &str) -> (at: Option<usize>)
        ensures
            match at {
                Some(i) => i == spec_position(tag_names(self@.tags), name@) && i
                    < self.tags.len() && self.tags[i as int].name@ == name@,
                None => spec_position(tag_names(self@.tags), name@) == self.tags.len(),
            },
    {
        let ghost names = tag_names(self@.tags);
        let mut i: usize = 0;
        while i < self.tags.len()
            invariant
                i <= self.tags.len(),
                names == tag_names(self@.tags),
                forall|k: int| 0 <= k < i ==> names[k] != name@,
            decreases self.tags.len() - i,
        {
            if same_text(self.tags[i].name.as_str(), name) {
                proof {
                    assert(names[i as int] == name@);
                    lemma_position_is(names, name@, i as int);
                }
                return Some(i);
            }
            i += 1;
        }
        proof {
            lemma_position_is(names, name@, i as int);
        }
        None
    }

    /// Whether the image `image_id` carries the tag `tag_id`.
    pub fn is_linked(&self, image_id: i64, tag_id: i64) -> (linked: bool)
        ensures
            linked == self@.links.contains((image_id as int, tag_id as int)),
    {
        let ghost links = self@.links;
        let mut i: usize = 0;
        while i < self.image_tags.len()
            invariant
                i <= self.image_tags.len(),
                links == self@.links,
                forall|k: int| 0 <= k < i ==> links[k] != (image_id as int, tag_id as int),
            decreases self.image_tags.len() - i,
        {
            if self.image_tags[i].image_id == image_id && self.image_tags[i].tag_id == tag_id {
                assert(links[i as int] == (image_id as int, tag_id as int));
                return true;
            }
            i += 1;
        }
        false
    }

    /// The greatest identifier of an image, and 0 where none is greater.
    pub fn max_image_id(&self) -> (max: i64)
        ensures
            max == spec_max_id(image_ids(self@.images)),
    {
        let ghost ids = image_ids(self@.images);
        let mut max: i64 = 0;
        let mut i: usize = 0;
        while i < self.images.len()
            invariant
                i <= self.images.len(),
                ids == image_ids(self@.images),
                max == spec_max_id(ids.take(i as int)),
            decreases self.images.len() - i,
        {
            assert(ids.take(i + 1).drop_last() =~= ids.take(i as int));
            assert(ids.take(i + 1).last() == self.images[i as int].id);
            if self.images[i].id > max {
                max = self.images[i].id;
            }
            i += 1;
        }
        assert(ids.take(self.images.len() as int) =~= ids);
        max
    }

    /// The greatest identifier of a tag, and 0 where none is greater.
    pub fn max_tag_id(&self) -> (max: i64)
        ensures
            max == spec_max_id(tag_ids(self@.tags)),
    {
        let ghost ids = tag_ids(self@.tags);
        let mut max: i64 = 0;
        let mut i: usize = 0;
        while i < self.tags.len()
            invariant
                i <= self.tags.len(),
                ids == tag_ids(self@.tags),
                max == spec_max_id(ids.take(i as int)),
            decreases self.tags.len() - i,
        {
            assert(ids.take(i + 1).drop_last() =~= ids.take(i as int));
            assert(ids.take(i + 1).last() == self.tags[i as int].id);
            if self.tags[i].id > max {
                max = self.tags[i].id;
            }
            i += 1;
        }
        assert(ids.take(self.tags.len() as int) =~= ids);
        max
    }
}

/// Whether a tag is one that the image `image_id` carries.
pub open spec fn linked_to(links: Seq<(int, int)>, image_id: int) -> spec_fn(TagRow) -> bool {
    |tag: TagRow| links.contains((image_id, tag.id))
}

/// The tags that an image carries, in the order of the tag table.
pub open spec fn spec_linked_tags(tags: Seq<TagRow>, links: Seq<(int, int)>, image_id: int) -> Seq<
    TagRow,
> {
    spec_keep(tags, linked_to(links, image_id))
}

/// The tags of `spec_linked_tags` are exactly the tags that the image is
/// linked to.
pub proof fn lemma_linked_tags(tags: Seq<TagRow>, links: Seq<(int, int)>, image_id: int, tag: TagRow)
    ensures
        spec_linked_tags(tags, links, image_id).contains(tag) <==> (tags.contains(tag)
            && links.contains((image_id, tag.id))),
{
    crate::seqs::lemma_keep_contains(tags, linked_to(links, image_id), tag);
}

/// Looking for a tag by its name, and making it where it is not there: the
/// catalog afterwards, and the identifier of the tag. A tag that is there
/// keeps its colour.
pub open spec fn spec_resolve(db: CatalogView, name: Seq<char>, color: TagColor) -> (
    CatalogView,
    int,
) {
    let at = spec_position(tag_names(db.tags), name);
    if at < db.tags.len() {
        (db, db.tags[at].id)
    } else {
        let id = spec_max_id(tag_ids(db.tags)) + 1;
        (CatalogView { tags: db.tags.push(TagRow { id, name, color }), ..db }, id)
    }
}

/// Letting an image carry a tag. A pair that is there is not added again.
pub open spec fn spec_link(db: CatalogView, image_id: int, tag_id: int) -> CatalogView {
    if db.links.contains((image_id, tag_id)) {
        db
    } else {
        CatalogView { links: db.links.push((image_id, tag_id)), ..db }
    }
}

/// Whether a pair is none of the image `image_id`.
pub open spec fn of_other_image(image_id: int) -> spec_fn((int, int)) -> bool {
    |pair: (int, int)| pair.0 != image_id
}

/// Whether a pair is none of the tag `tag_id`.
pub open spec fn of_other_tag(tag_id: int) -> spec_fn((int, int)) -> bool {
    |pair: (int, int)| pair.1 != tag_id
}

/// Whether an image row has another identifier than `id`.
pub open spec fn other_image(id: int) -> spec_fn(ImageRow) -> bool {
    |row: ImageRow| row.id != id
}

/// Whether a tag row has another identifier than `id`.
pub open spec fn other_tag(id: int) -> spec_fn(TagRow) -> bool {
    |row: TagRow| row.id != id
}

/// `links` without the pairs of the image `image_id`.
pub open spec fn spec_unlink_image(links: Seq<(int, int)>, image_id: int) -> Seq<(int, int)> {
    spec_keep(links, of_other_image(image_id))
}

/// `links` without the pairs of the tag `tag_id`.
pub open spec fn spec_unlink_tag(links: Seq<(int, int)>, tag_id: int) -> Seq<(int, int)> {
    spec_keep(links, of_other_tag(tag_id))
}

/// The tags that an image carries.
pub fn tags_for_image(db: &Catalog, image_id: i64) -> (tags: Vec<TagDTO>)
    ensures
        tag_views(tags@) == spec_linked_tags(db@.tags, db@.links, image_id as int),
{
    let ghost rows = db@.tags;
    let mut tags: Vec<TagDTO> = Vec::new();
    let mut i: usize = 0;
    assert(tag_views(tags@) =~= spec_linked_tags(rows.take(0), db@.links, image_id as int));
    while i < db.tags.len()
        invariant
            i <= db.tags.len(),
            rows == db@.tags,
            tag_views(tags@) == spec_linked_tags(rows.take(i as int), db@.links, image_id as int),
        decreases db.tags.len() - i,
    {
        assert(rows.take(i + 1).drop_last() =~= rows.take(i as int));
        assert(rows.take(i + 1).last() == db.tags[i as int]@);
        if db.is_linked(image_id, db.tags[i].id) {
            let ghost before = tags@;
            let tag = &db.tags[i];
            tags.push(TagDTO { id: tag.id, name: tag.name.clone(), color: tag.color });
            assert(tag_views(tags@) =~= tag_views(before).push(db.tags[i as int]@));
        }
        i += 1;
    }
    assert(rows.take(db.tags.len() as int) =~= rows);
    tags
}

/// Looks a tag up by its name in lower case, and makes it with the given
/// colour where it is not there. Either way the identifier of the tag is
/// handed back; a tag that is there keeps its colour.
pub fn resolve_or_create(db: &mut Catalog, name: &str, color: TagColor) -> (result: Result<
    i64,
    DbErr,
>)
    ensures
        match result {
            Ok(id) => (final(db)@, id as int) == spec_resolve(
                old(db)@,
                spec_lowercase(name@),
                color,
            ),
            Err(e) => {
                &&& e == DbErr::IdsExhausted
                &&& final(db)@ == old(db)@
                &&& spec_resolve(old(db)@, spec_lowercase(name@), color).1 > i64::MAX
            },
        },
{
    let lower = lowercase(name);
    match db.find_tag_by_name(lower.as_str()) {
        Some(at) => {
            assert(db@.tags[at as int].id == db.tags[at as int].id);
            Ok(db.tags[at].id)
        },
        None => {
            let max = db.max_tag_id();
            if max == i64::MAX {
                return Err(DbErr::IdsExhausted);
            }
            let id = max + 1;
            let ghost before = db@;
            db.tags.push(tag::Model { id, name: lower, color });
            assert(db@.tags =~= before.tags.push(
                TagRow { id: id as int, name: spec_lowercase(name@), color },
            ));
            assert(db@.images == before.images);
            assert(db@.links == before.links);
            Ok(id)
        },
    }
}

/// Lets an image carry a tag, unless it carries it already.
pub fn link(db: &mut Catalog, image_id: i64, tag_id: i64)
    ensures
        final(db)@ == spec_link(old(db)@, image_id as int, tag_id as int),
{
    if !db.is_linked(image_id, tag_id) {
        let ghost before = db@;
        db.image_tags.push(image_tag::Model { image_id, tag_id });
        assert(db@.links =~= before.links.push((image_id as int, tag_id as int)));
        assert(db@.images == before.images);
        assert(db@.tags == before.tags);
    }
}

/// Takes every tag from an image.
pub fn unlink_image(db: &mut Catalog, image_id: i64)
    ensures
        final(db)@ == (CatalogView {
            links: spec_unlink_image(old(db)@.links, image_id as int),
            ..old(db)@
        }),
{
    let ghost before = db@;
    let mut kept: Vec<image_tag::Model> = Vec::new();
    let mut i: usize = 0;
    assert(link_pairs(kept@) =~= spec_unlink_image(before.links.take(0), image_id as int));
    while i < db.image_tags.len()
        invariant
            i <= db.image_tags.len(),
            db@ == before,
            link_pairs(kept@) == spec_unlink_image(before.links.take(i as int), image_id as int),
        decreases db.image_tags.len() - i,
    {
        assert(before.links.take(i + 1).drop_last() =~= before.links.take(i as int));
        assert(before.links.take(i + 1).last() == before.links[i as int]);
        if db.image_tags[i].image_id != image_id {
            let ghost held = kept@;
            kept.push(db.image_tags[i]);
            assert(link_pairs(kept@) =~= link_pairs(held).push(before.links[i as int]));
        }
        i += 1;
    }
    assert(before.links.take(db.image_tags.len() as int) =~= before.links);
    db.image_tags = kept;
}

/// Takes a tag from every image.
pub fn unlink_tag(db: &mut Catalog, tag_id: i64)
    ensures
        final(db)@ == (CatalogView {
            links: spec_unlink_tag(old(db)@.links, tag_id as int),
            ..old(db)@
        }),
{
    let ghost before = db@;
    let mut kept: Vec<image_tag::Model> = Vec::new();
    let mut i: usize = 0;
    assert(link_pairs(kept@) =~= spec_unlink_tag(before.links.take(0), tag_id as int));
    while i < db.image_tags.len()
        invariant
            i <= db.image_tags.len(),
            db@ == before,
            link_pairs(kept@) == spec_unlink_tag(before.links.take(i as int), tag_id as int),
        decreases db.image_tags.len() - i,
    {
        assert(before.links.take(i + 1).drop_last() =~= before.links.take(i as int));
        assert(before.links.take(i + 1).last() == before.links[i as int]);
        if db.image_tags[i].tag_id != tag_id {
            let ghost held = kept@;
            kept.push(db.image_tags[i]);
            assert(link_pairs(kept@) =~= link_pairs(held).push(before.links[i as int]));
        }
        i += 1;
    }
    assert(before.links.take(db.image_tags.len() as int) =~= before.links);
    db.image_tags = kept;
}

} // verus!
