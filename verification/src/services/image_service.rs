//! The image table: insertion, partial update, deletion, and the search with
//! its filter, its order and its pages.

use crate::dtos::image_dto::{image_views, ImageDTO, ImageUpdateDTO, ImageView};
use crate::dtos::tag_dto::{duplicate_tags, tag_views, TagDTO};
use crate::models::filter::{Filter, SortOrder};
use crate::models::image_entry::{ImageRow, Model};
use crate::models::page::Page;
use crate::models::tag::TagRow;
use crate::seqs::{lemma_position_is, spec_keep, spec_max_id, spec_position};
use crate::services::catalog::{
    image_ids, image_rows, other_image, spec_linked_tags, spec_unlink_image, unlink_image, Catalog, CatalogView,
    DbErr,
};
use crate::services::natural_order::texts;
use crate::services::tag_service::{
    get_tags_for_images, spec_reconcile, spec_reconcile_fits, spec_tags_map,
    update_tags_for_image,
};
use crate::text::{
    chars_contain, chars_of, lemma_first_index_is, spec_contains, spec_first_index, spec_trim,
    string_of, trim_chars,
};
use vstd::prelude::*;

verus! {

/// The row that stands for an image whose files are not written yet.
pub open spec fn spec_placeholder(id: int, description: Seq<char>, created_at: int) -> ImageRow {
    ImageRow {
        id,
        path: Seq::empty(),
        thumbnail_path: Seq::empty(),
        description,
        created_at,
        is_folder: false,
        is_prepared: false,
    }
}

/// The identifier that the next image gets: one more than the greatest there is.
pub open spec fn spec_next_image_id(db: CatalogView) -> int {
    spec_max_id(image_ids(db.images)) + 1
}

/// Enters an image into the catalog before its files are written: a row with
/// empty paths that is not prepared. The identifier of the row is handed
/// back, so that the files can be stored under it.
pub fn insert_image(db: &mut Catalog, desc: &str, created_at: i64) -> (result: Result<i64, DbErr>)
    ensures
        match result {
            Ok(id) => {
                &&& id == spec_next_image_id(old(db)@)
                &&& final(db)@ == (CatalogView {
                    images: old(db)@.images.push(
                        spec_placeholder(id as int, desc@, created_at as int),
                    ),
                    ..old(db)@
                })
            },
            Err(e) => {
                &&& e == DbErr::IdsExhausted
                &&& final(db)@ == old(db)@
                &&& spec_next_image_id(old(db)@) > i64::MAX
            },
        },
{
    let max = db.max_image_id();
    if max == i64::MAX {
        return Err(DbErr::IdsExhausted);
    }
    let id = max + 1;
    let ghost before = db@;
    db.images.push(
        Model {
            id,
            path: String::new(),
            thumbnail_path: String::new(),
            description: desc.to_owned(),
            created_at,
            is_folder: false,
            is_prepared: false,
        },
    );
    assert(db@.images =~= before.images.push(
        spec_placeholder(id as int, desc@, created_at as int),
    ));
    assert(db@.tags == before.tags);
    assert(db@.links == before.links);
    Ok(id)
}

/// The terms of a query: its pieces between `+` signs, each without the white
/// space around it, and without the pieces that are empty then.
pub open spec fn spec_terms(query: Seq<char>) -> Seq<Seq<char>>
    decreases query.len(),
{
    let cut = spec_first_index(query, '+');
    let head = spec_trim(query.take(cut));
    let rest = if 0 <= cut < query.len() {
        spec_terms(query.skip(cut + 1))
    } else {
        Seq::empty()
    };
    if head.len() > 0 {
        seq![head] + rest
    } else {
        rest
    }
}

/// What a search asks of a description: nothing where the query is empty but
/// for white space, and else the terms of the query, of which the
/// description has to contain at least one.
pub open spec fn spec_desc_condition(query: Seq<char>) -> Option<Seq<Seq<char>>> {
    let q = spec_trim(query);
    if q.len() == 0 {
        None
    } else {
        Some(spec_terms(q))
    }
}

/// Whether a description contains one of the terms.
pub open spec fn spec_contains_any(description: Seq<char>, terms: Seq<Seq<char>>) -> bool {
    exists|k: int| 0 <= k < terms.len() && spec_contains(description, #[trigger] terms[k])
}

/// Whether a description meets what a query asks of it.
pub open spec fn spec_matches_text(description: Seq<char>, query: Seq<char>) -> bool {
    match spec_desc_condition(query) {
        None => true,
        Some(terms) => spec_contains_any(description, terms),
    }
}

/// The texts of a list of character vectors.
pub open spec fn char_texts(pieces: Seq<Vec<char>>) -> Seq<Seq<char>> {
    Seq::new(pieces.len(), |i: int| pieces[i]@)
}

/// The terms of the part of a query from `start` on.
fn terms_from(chars: &Vec<char>, start: usize) -> (terms: Vec<Vec<char>>)
    requires
        start <= chars.len(),
    ensures
        char_texts(terms@) == spec_terms(chars@.skip(start as int)),
    decreases chars.len() - start,
{
    let ghost tail = chars@.skip(start as int);
    let mut cut: usize = start;
    while cut < chars.len() && chars[cut] != '+'
        invariant
            start <= cut <= chars.len(),
            tail == chars@.skip(start as int),
            forall|k: int| 0 <= k < cut - start ==> tail[k] != '+',
        decreases chars.len() - cut,
    {
        cut += 1;
    }
    proof {
        lemma_first_index_is(tail, '+', cut - start);
    }
    let mut piece: Vec<char> = Vec::new();
    let mut i: usize = start;
    while i < cut
        invariant
            start <= i <= cut <= chars.len(),
            tail == chars@.skip(start as int),
            piece@ == tail.take(i - start),
        decreases cut - i,
    {
        piece.push(chars[i]);
        assert(tail.take(i + 1 - start) =~= tail.take(i - start).push(chars@[i as int]));
        i += 1;
    }
    let head = trim_chars(&piece);
    let mut terms = if cut < chars.len() {
        assert(tail.skip(cut - start + 1) =~= chars@.skip(cut + 1));
        terms_from(chars, cut + 1)
    } else {
        let none: Vec<Vec<char>> = Vec::new();
        assert(char_texts(none@) =~= Seq::<Seq<char>>::empty());
        none
    };
    if head.len() > 0 {
        let ghost rest = terms@;
        terms.insert(0, head);
        assert(char_texts(terms@) =~= seq![head@] + char_texts(rest));
    }
    terms
}

/// What a search asks of a description.
///
/// A query with `+` signs asks for any one of its terms; a query without
/// asks for itself. A query of white space asks for nothing.
pub fn build_desc_condition(query: &str) -> (condition: Option<Vec<String>>)
    ensures
        spec_desc_condition(query@) == match condition {
            Some(terms) => Some(texts(terms@)),
            None => None,
        },
{
    let chars = chars_of(query);
    let q = trim_chars(&chars);
    if q.len() == 0 {
        return None;
    }
    assert(q@.skip(0) =~= q@);
    let pieces = terms_from(&q, 0);
    let mut terms: Vec<String> = Vec::new();
    let mut i: usize = 0;
    while i < pieces.len()
        invariant
            i <= pieces.len(),
            terms.len() == i,
            forall|k: int| 0 <= k < i ==> terms@[k]@ == pieces@[k]@,
        decreases pieces.len() - i,
    {
        terms.push(string_of(&pieces[i]));
        i += 1;
    }
    assert(texts(terms@) =~= char_texts(pieces@));
    Some(terms)
}

/// Whether a description contains one of the terms.
pub fn contains_any(description: &str, terms: &Vec<String>) -> (r: bool)
    ensures
        r == spec_contains_any(description@, texts(terms@)),
{
    let text = chars_of(description);
    let ghost all = texts(terms@);
    let mut i: usize = 0;
    while i < terms.len()
        invariant
            i <= terms.len(),
            all == texts(terms@),
            text@ == description@,
            forall|k: int| 0 <= k < i ==> !spec_contains(description@, #[trigger] all[k]),
        decreases terms.len() - i,
    {
        let term = chars_of(terms[i].as_str());
        if chars_contain(&text, &term) {
            assert(spec_contains(description@, all[i as int]));
            return true;
        }
        i += 1;
    }
    false
}

/// Whether a description meets a condition.
pub fn matches_description(description: &str, condition: &Option<Vec<String>>) -> (r: bool)
    ensures
        r == match condition {
            None => true,
            Some(terms) => spec_contains_any(description@, texts(terms@)),
        },
{
    match condition {
        None => true,
        Some(terms) => contains_any(description, terms),
    }
}

/// Whether an image carries a tag of the given name.
pub open spec fn spec_carries(db: CatalogView, image_id: int, name: Seq<char>) -> bool {
    exists|t: int|
        0 <= t < db.tags.len() && (#[trigger] db.tags[t]).name == name && db.links.contains(
            (image_id, db.tags[t].id),
        )
}

/// Whether an image carries a tag of each of the given names: all of them,
/// not any of them. Tags beyond those do no harm.
pub open spec fn spec_has_all_tags(db: CatalogView, image_id: int, names: Seq<Seq<char>>) -> bool {
    forall|k: int| 0 <= k < names.len() ==> spec_carries(db, image_id, #[trigger] names[k])
}

/// Whether an image carries a tag of the given name.
pub fn carries(db: &Catalog, image_id: i64, name: &str) -> (r: bool)
    ensures
        r == spec_carries(db@, image_id as int, name@),
{
    let mut t: usize = 0;
    while t < db.tags.len()
        invariant
            t <= db.tags.len(),
            forall|k: int|
                0 <= k < t ==> !((#[trigger] db@.tags[k]).name == name@ && db@.links.contains(
                    (image_id as int, db@.tags[k].id),
                )),
        decreases db.tags.len() - t,
    {
        assert(db@.tags[t as int] == db.tags[t as int]@);
        if crate::text::same_text(db.tags[t].name.as_str(), name) && db.is_linked(
            image_id,
            db.tags[t].id,
        ) {
            return true;
        }
        t += 1;
    }
    false
}

/// Whether an image carries a tag of each of the given names.
pub fn has_all_tags(db: &Catalog, image_id: i64, names: &Vec<String>) -> (r: bool)
    ensures
        r == spec_has_all_tags(db@, image_id as int, texts(names@)),
{
    let ghost all = texts(names@);
    let mut k: usize = 0;
    while k < names.len()
        invariant
            k <= names.len(),
            all == texts(names@),
            forall|j: int| 0 <= j < k ==> spec_carries(db@, image_id as int, #[trigger] all[j]),
        decreases names.len() - k,
    {
        if !carries(db, image_id, names[k].as_str()) {
            assert(!spec_carries(db@, image_id as int, all[k as int]));
            return false;
        }
        k += 1;
    }
    true
}

/// Whether a search finds an image: it is prepared, its description meets
/// the query, and it carries every tag that is asked for.
pub open spec fn spec_matches(
    db: CatalogView,
    row: ImageRow,
    query: Seq<char>,
    tags: Seq<Seq<char>>,
) -> bool {
    &&& row.is_prepared
    &&& spec_matches_text(row.description, query)
    &&& spec_has_all_tags(db, row.id, tags)
}

/// Whether a search finds a row.
pub open spec fn matching(db: CatalogView, query: Seq<char>, tags: Seq<Seq<char>>) -> spec_fn(
    ImageRow,
) -> bool {
    |row: ImageRow| spec_matches(db, row, query, tags)
}

/// The rows of `images` that a search finds, in the order of the table.
pub open spec fn spec_selected(
    db: CatalogView,
    images: Seq<ImageRow>,
    query: Seq<char>,
    tags: Seq<Seq<char>>,
) -> Seq<ImageRow> {
    spec_keep(images, matching(db, query, tags))
}

/// Whether `a` may stand before `b` in the given order: by the time of
/// creation, and for rows of the same time by the identifier.
pub open spec fn spec_before(a: ImageRow, b: ImageRow, order: SortOrder) -> bool {
    match order {
        SortOrder::CreatedAsc => a.created_at < b.created_at || (a.created_at == b.created_at
            && a.id <= b.id),
        SortOrder::CreatedDesc => b.created_at < a.created_at || (a.created_at == b.created_at
            && b.id <= a.id),
    }
}

/// `row` put into its place in a sorted list: behind the last row that may
/// stand before it.
pub open spec fn spec_insert_sorted(sorted: Seq<ImageRow>, row: ImageRow, order: SortOrder) -> Seq<
    ImageRow,
>
    decreases sorted.len(),
{
    if sorted.len() == 0 {
        seq![row]
    } else if spec_before(sorted.last(), row, order) {
        sorted.push(row)
    } else {
        spec_insert_sorted(sorted.drop_last(), row, order).push(sorted.last())
    }
}

/// The rows in the given order.
pub open spec fn spec_sorted(rows: Seq<ImageRow>, order: SortOrder) -> Seq<ImageRow>
    decreases rows.len(),
{
    if rows.len() == 0 {
        Seq::empty()
    } else {
        spec_insert_sorted(spec_sorted(rows.drop_last(), order), rows.last(), order)
    }
}

/// Every row stands before its successor.
pub open spec fn spec_is_ordered(rows: Seq<ImageRow>, order: SortOrder) -> bool {
    forall|i: int| 0 <= i < rows.len() - 1 ==> spec_before(#[trigger] rows[i], rows[i + 1], order)
}

/// Putting a row into its place keeps a list ordered, and adds that row and
/// no other.
pub proof fn lemma_insert_sorted(sorted: Seq<ImageRow>, row: ImageRow, order: SortOrder)
    requires
        spec_is_ordered(sorted, order),
    ensures
        spec_is_ordered(spec_insert_sorted(sorted, row, order), order),
        spec_insert_sorted(sorted, row, order).len() == sorted.len() + 1,
        spec_insert_sorted(sorted, row, order).to_multiset() == sorted.to_multiset().insert(row),
        spec_insert_sorted(sorted, row, order).last() == row || (sorted.len() > 0
            && spec_insert_sorted(sorted, row, order).last() == sorted.last() && spec_before(
            row,
            sorted.last(),
            order,
        )),
    decreases sorted.len(),
{
    broadcast use vstd::seq_lib::group_to_multiset_ensures;

    let out = spec_insert_sorted(sorted, row, order);
    if sorted.len() == 0 {
        assert(sorted =~= Seq::<ImageRow>::empty());
        assert(out =~= Seq::<ImageRow>::empty().push(row));
    } else if spec_before(sorted.last(), row, order) {
        assert forall|i: int| 0 <= i < out.len() - 1 implies spec_before(
            #[trigger] out[i],
            out[i + 1],
            order,
        ) by {
            if i < sorted.len() - 1 {
                assert(out[i] == sorted[i]);
                assert(out[i + 1] == sorted[i + 1]);
            }
        }
    } else {
        let rest = sorted.drop_last();
        assert forall|i: int| 0 <= i < rest.len() - 1 implies spec_before(
            #[trigger] rest[i],
            rest[i + 1],
            order,
        ) by {
            assert(rest[i] == sorted[i]);
            assert(rest[i + 1] == sorted[i + 1]);
        }
        lemma_insert_sorted(rest, row, order);
        let sub = spec_insert_sorted(rest, row, order);
        assert(sorted =~= rest.push(sorted.last()));
        assert forall|i: int| 0 <= i < out.len() - 1 implies spec_before(
            #[trigger] out[i],
            out[i + 1],
            order,
        ) by {
            if i < sub.len() - 1 {
                assert(out[i] == sub[i]);
                assert(out[i + 1] == sub[i + 1]);
            } else {
                assert(out[i] == sub.last());
                if sub.last() != row {
                    assert(rest[rest.len() - 1] == sorted[sorted.len() - 2]);
                    assert(spec_before(sorted[sorted.len() - 2], sorted[sorted.len() - 1], order));
                }
            }
        }
    }
}

/// The rows in order are the same rows, each as often as before, and every
/// one of them stands before its successor.
pub proof fn lemma_sorted(rows: Seq<ImageRow>, order: SortOrder)
    ensures
        spec_is_ordered(spec_sorted(rows, order), order),
        spec_sorted(rows, order).len() == rows.len(),
        spec_sorted(rows, order).to_multiset() == rows.to_multiset(),
    decreases rows.len(),
{
    broadcast use vstd::seq_lib::group_to_multiset_ensures;

    if rows.len() == 0 {
        assert(rows =~= Seq::<ImageRow>::empty());
    } else {
        lemma_sorted(rows.drop_last(), order);
        lemma_insert_sorted(spec_sorted(rows.drop_last(), order), rows.last(), order);
        assert(rows =~= rows.drop_last().push(rows.last()));
    }
}

/// Whether `a` may stand before `b` in the given order.
pub fn before(a: &Model, b: &Model, order: SortOrder) -> (r: bool)
    ensures
        r == spec_before(a@, b@, order),
{
    match order {
        SortOrder::CreatedAsc => a.created_at < b.created_at || (a.created_at == b.created_at
            && a.id <= b.id),
        SortOrder::CreatedDesc => b.created_at < a.created_at || (a.created_at == b.created_at
            && b.id <= a.id),
    }
}

/// Puts a row into its place in a sorted list.
fn insert_sorted(sorted: &mut Vec<Model>, row: Model, order: SortOrder)
    ensures
        image_rows(final(sorted)@) == spec_insert_sorted(image_rows(old(sorted)@), row@, order),
{
    let ghost rows = image_rows(sorted@);
    let mut j: usize = sorted.len();
    assert(rows.take(j as int) =~= rows);
    assert(rows.skip(j as int) =~= Seq::<ImageRow>::empty());
    assert(spec_insert_sorted(rows, row@, order) =~= spec_insert_sorted(
        rows.take(j as int),
        row@,
        order,
    ) + rows.skip(j as int));
    while j > 0 && !before(&sorted[j - 1], &row, order)
        invariant
            j <= sorted.len(),
            rows == image_rows(sorted@),
            sorted@ == old(sorted)@,
            spec_insert_sorted(rows, row@, order) == spec_insert_sorted(
                rows.take(j as int),
                row@,
                order,
            ) + rows.skip(j as int),
        decreases j,
    {
        proof {
            let head = rows.take(j as int);
            assert(head.last() == sorted@[j - 1]@);
            assert(head.drop_last() =~= rows.take(j - 1));
            assert(spec_insert_sorted(head, row@, order) == spec_insert_sorted(
                rows.take(j - 1),
                row@,
                order,
            ).push(head.last()));
            assert(spec_insert_sorted(rows.take(j - 1), row@, order).push(head.last())
                + rows.skip(j as int) =~= spec_insert_sorted(rows.take(j - 1), row@, order)
                + rows.skip(j - 1));
        }
        j -= 1;
    }
    proof {
        let head = rows.take(j as int);
        if j > 0 {
            assert(head.last() == sorted@[j - 1]@);
        }
        assert(spec_insert_sorted(head, row@, order) =~= head.push(row@));
        assert(head.push(row@) + rows.skip(j as int) =~= rows.insert(j as int, row@));
    }
    sorted.insert(j, row);
    assert(image_rows(sorted@) =~= rows.insert(j as int, row@));
}

/// The rows in the given order.
pub fn sort_rows(rows: Vec<Model>, order: SortOrder) -> (sorted: Vec<Model>)
    ensures
        image_rows(sorted@) == spec_sorted(image_rows(rows@), order),
{
    let ghost all = image_rows(rows@);
    let mut sorted: Vec<Model> = Vec::new();
    let mut i: usize = 0;
    assert(image_rows(sorted@) =~= spec_sorted(all.take(0), order));
    while i < rows.len()
        invariant
            i <= rows.len(),
            all == image_rows(rows@),
            image_rows(sorted@) == spec_sorted(all.take(i as int), order),
        decreases rows.len() - i,
    {
        assert(all.take(i + 1).drop_last() =~= all.take(i as int));
        assert(all.take(i + 1).last() == rows@[i as int]@);
        insert_sorted(&mut sorted, rows[i].duplicate(), order);
        i += 1;
    }
    assert(all.take(rows.len() as int) =~= all);
    sorted
}

/// The number of pages that `total` rows fill, `size` rows to a page: the
/// quotient rounded up. No rows fill no page, and no page can show rows
/// where a page holds none.
pub open spec fn spec_total_pages(total: int, size: int) -> int {
    if total <= 0 || size <= 0 {
        0
    } else {
        (total + size - 1) / size
    }
}

/// The position of the first row of a page.
pub open spec fn spec_page_start(total: int, page: int, size: int) -> int {
    if page * size < total {
        page * size
    } else {
        total
    }
}

/// The position behind the last row of a page.
pub open spec fn spec_page_end(total: int, page: int, size: int) -> int {
    let start = spec_page_start(total, page, size);
    if start + size < total {
        start + size
    } else {
        total
    }
}

/// The rows of a page.
pub open spec fn spec_page<T>(rows: Seq<T>, page: int, size: int) -> Seq<T> {
    rows.subrange(
        spec_page_start(rows.len() as int, page, size),
        spec_page_end(rows.len() as int, page, size),
    )
}

/// The number of pages that `total` rows fill.
pub fn total_pages(total: u64, size: u64) -> (pages: u64)
    ensures
        pages == spec_total_pages(total as int, size as int),
{
    if total == 0 || size == 0 {
        0
    } else {
        let pages = (total - 1) / size + 1;
        assert(pages == (total + size - 1) / (size as int)) by (nonlinear_arith)
            requires
                total >= 1,
                size >= 1,
                pages == (total - 1) / (size as int) + 1,
        ;
        pages
    }
}

/// The pages hold every row once: they are as many as it takes, the last one
/// is not empty, and every one before it is full.
pub proof fn lemma_pages_cover(total: int, size: int, page: int)
    requires
        0 < total,
        0 < size,
        0 <= page,
    ensures
        page < spec_total_pages(total, size) <==> spec_page_start(total, page, size)
            < spec_page_end(total, page, size),
        page + 1 < spec_total_pages(total, size) ==> spec_page_end(total, page, size)
            - spec_page_start(total, page, size) == size,
        page + 1 == spec_total_pages(total, size) ==> spec_page_end(total, page, size)
            - spec_page_start(total, page, size) == total - page * size,
{
    let pages = (total + size - 1) / size;
    assert(pages * size >= total && (pages - 1) * size < total) by (nonlinear_arith)
        requires
            pages == (total + size - 1) / size,
            0 < total,
            0 < size,
    ;
    assert((page + 1) * size == page * size + size) by (nonlinear_arith);
    if page < pages {
        assert(page * size <= (pages - 1) * size) by (nonlinear_arith)
            requires
                page <= pages - 1,
                0 < size,
        ;
        if page + 1 == pages {
            assert((page + 1) * size == pages * size);
        }
        if page + 1 < pages {
            assert((page + 1) * size <= (pages - 1) * size) by (nonlinear_arith)
                requires
                    page + 1 <= pages - 1,
                    0 < size,
            ;
            assert((page + 1) * size == page * size + size) by (nonlinear_arith);
        }
    } else {
        assert(page * size >= pages * size) by (nonlinear_arith)
            requires
                page >= pages,
                0 < size,
        ;
    }
}

/// The tags that a list of tags by image holds for `id`: those of the first
/// entry for `id`, and none where there is no entry.
pub open spec fn spec_lookup_tags(map: Seq<(int, Seq<TagRow>)>, id: int) -> Seq<TagRow> {
    let keys = Seq::new(map.len(), |i: int| map[i].0);
    let at = spec_position(keys, id);
    if at < map.len() {
        map[at].1
    } else {
        Seq::empty()
    }
}

/// A point in time as `chrono` writes it with `pattern`; none for a time
/// that `chrono` cannot hold.
pub uninterp spec fn date_text(seconds: int, pattern: Seq<char>) -> Option<Seq<char>>;

/// The pattern that writes a day as year, month and day.
pub open spec fn spec_day_pattern() -> Seq<char> {
    "%Y-%m-%d"@
}

/// `chrono::DateTime::from_timestamp` and `format`: the point `seconds`
/// seconds after the Unix epoch, in universal time, written with `pattern`.
/// `chrono` panics on a pattern that it cannot read, so only the pattern of
/// a day is taken. The contract only gives the result its name.
#[verifier::external_body]
pub(crate) fn format_date(seconds: i64, pattern: &str) -> (day: Option<String>)
    requires
        pattern@ == spec_day_pattern(),
    ensures
        date_text(seconds as int, pattern@) == match day {
            Some(d) => Some(d@),
            None => None,
        },
{
    match chrono::DateTime::from_timestamp(seconds, 0) {
        Some(time) => Some(time.format(pattern).to_string()),
        None => None,
    }
}

/// The day of a point in time as a text; the empty text for a time out of range.
pub open spec fn spec_created_text(seconds: int) -> Seq<char> {
    match date_text(seconds, spec_day_pattern()) {
        Some(day) => day,
        None => Seq::empty(),
    }
}

/// The day of a point in time as a text.
pub fn created_text(seconds: i64) -> (text: String)
    ensures
        text@ == spec_created_text(seconds as int),
{
    match format_date(seconds, "%Y-%m-%d") {
        Some(day) => day,
        None => String::new(),
    }
}

/// What is shown of a row, with the given tags.
pub open spec fn spec_image_dto(row: ImageRow, tags: Seq<TagRow>) -> ImageView {
    ImageView {
        id: row.id,
        path: row.path,
        thumbnail_path: row.thumbnail_path,
        description: row.description,
        tags,
        created_at: spec_created_text(row.created_at),
        is_folder: row.is_folder,
        is_prepared: row.is_prepared,
    }
}

/// The tags that `tags_map` holds for `id`.
fn lookup_tags(tags_map: &Vec<(i64, Vec<TagDTO>)>, id: i64) -> (tags: Vec<TagDTO>)
    ensures
        tag_views(tags@) == spec_lookup_tags(spec_tags_map(tags_map@), id as int),
{
    let ghost map = spec_tags_map(tags_map@);
    let ghost keys = Seq::new(map.len(), |i: int| map[i].0);
    let mut i: usize = 0;
    while i < tags_map.len()
        invariant
            i <= tags_map.len(),
            map == spec_tags_map(tags_map@),
            keys == Seq::new(map.len(), |i: int| map[i].0),
            forall|k: int| 0 <= k < i ==> keys[k] != id as int,
        decreases tags_map.len() - i,
    {
        if tags_map[i].0 == id {
            proof {
                assert(keys[i as int] == id as int);
                lemma_position_is(keys, id as int, i as int);
            }
            return duplicate_tags(&tags_map[i].1);
        }
        i += 1;
    }
    proof {
        lemma_position_is(keys, id as int, i as int);
    }
    let none: Vec<TagDTO> = Vec::new();
    assert(tag_views(none@) =~= Seq::<TagRow>::empty());
    none
}

/// What is shown of a row: the row with its tags from `tags_map` and the day
/// of its creation.
pub fn to_image_dto(model: &Model, tags_map: &Vec<(i64, Vec<TagDTO>)>) -> (dto: ImageDTO)
    ensures
        dto@ == spec_image_dto(model@, spec_lookup_tags(spec_tags_map(tags_map@), model.id as int)),
{
    ImageDTO {
        id: model.id,
        path: model.path.clone(),
        thumbnail_path: model.thumbnail_path.clone(),
        description: model.description.clone(),
        tags: lookup_tags(tags_map, model.id),
        created_at: created_text(model.created_at),
        is_folder: model.is_folder,
        is_prepared: model.is_prepared,
    }
}

/// What is shown of a list of rows, each with its tags from `tags_map`.
pub fn to_dto(images: &Vec<Model>, tags_map: &Vec<(i64, Vec<TagDTO>)>) -> (dtos: Vec<ImageDTO>)
    ensures
        dtos.len() == images.len(),
        forall|i: int|
            0 <= i < images.len() ==> (#[trigger] dtos[i])@ == spec_image_dto(
                images[i]@,
                spec_lookup_tags(spec_tags_map(tags_map@), images[i].id as int),
            ),
{
    let mut dtos: Vec<ImageDTO> = Vec::new();
    let mut i: usize = 0;
    while i < images.len()
        invariant
            i <= images.len(),
            dtos.len() == i,
            forall|k: int|
                0 <= k < i ==> (#[trigger] dtos[k])@ == spec_image_dto(
                    images[k]@,
                    spec_lookup_tags(spec_tags_map(tags_map@), images[k].id as int),
                ),
        decreases images.len() - i,
    {
        dtos.push(to_image_dto(&images[i], tags_map));
        i += 1;
    }
    dtos
}

} // verus!

verus! {

/// The rows that a search finds, in the order asked for.
pub open spec fn spec_found(
    db: CatalogView,
    query: Seq<char>,
    tags: Seq<Seq<char>>,
    order: SortOrder,
) -> Seq<ImageRow> {
    spec_sorted(spec_selected(db, db.images, query, tags), order)
}

/// What is shown of a list of rows of the catalog, each with the tags it carries.
pub open spec fn spec_shown(db: CatalogView, rows: Seq<ImageRow>) -> Seq<ImageView> {
    Seq::new(
        rows.len(),
        |i: int| spec_image_dto(rows[i], spec_linked_tags(db.tags, db.links, rows[i].id)),
    )
}

/// The rows of the catalog that a search finds, in the order of the table.
fn select_rows(db: &Catalog, query: &str, tags: &Vec<String>) -> (rows: Vec<Model>)
    ensures
        image_rows(rows@) == spec_selected(db@, db@.images, query@, texts(tags@)),
{
    let condition = build_desc_condition(query);
    let ghost all = db@.images;
    let mut rows: Vec<Model> = Vec::new();
    let mut i: usize = 0;
    assert(image_rows(rows@) =~= spec_selected(db@, all.take(0), query@, texts(tags@)));
    while i < db.images.len()
        invariant
            i <= db.images.len(),
            all == db@.images,
            spec_desc_condition(query@) == match condition {
                Some(terms) => Some(texts(terms@)),
                None => None,
            },
            image_rows(rows@) == spec_selected(db@, all.take(i as int), query@, texts(tags@)),
        decreases db.images.len() - i,
    {
        assert(all.take(i + 1).drop_last() =~= all.take(i as int));
        assert(all.take(i + 1).last() == db.images@[i as int]@);
        let row = &db.images[i];
        if row.is_prepared && matches_description(row.description.as_str(), &condition)
            && has_all_tags(db, row.id, tags) {
            let ghost held = rows@;
            rows.push(row.duplicate());
            assert(image_rows(rows@) =~= image_rows(held).push(db.images@[i as int]@));
        }
        i += 1;
    }
    assert(all.take(db.images.len() as int) =~= all);
    rows
}

/// One page of rows that are found and sorted already, as it is shown.
fn page_of(db: &Catalog, found: &Vec<Model>, page: u64, size: u64) -> (result: Page<ImageDTO>)
    ensures
        result.page_number == page,
        result.total_pages == spec_total_pages(found.len() as int, size as int),
        image_views(result.content@) == spec_shown(
            db@,
            spec_page(image_rows(found@), page as int, size as int),
        ),
{
    let total: usize = found.len();
    let ghost rows = image_rows(found@);
    assert(page * size <= 0xffff_ffff_ffff_ffff * 0xffff_ffff_ffff_ffff) by (nonlinear_arith)
        requires
            page <= 0xffff_ffff_ffff_ffff,
            size <= 0xffff_ffff_ffff_ffff,
    ;
    let offset: u128 = (page as u128) * (size as u128);
    let start: usize = if offset < total as u128 {
        offset as usize
    } else {
        total
    };
    let end: usize = if (size as u128) < (total - start) as u128 {
        start + size as usize
    } else {
        total
    };
    assert(start == spec_page_start(total as int, page as int, size as int));
    assert(end == spec_page_end(total as int, page as int, size as int));
    let mut shown: Vec<Model> = Vec::new();
    let mut ids: Vec<i64> = Vec::new();
    let mut i: usize = start;
    while i < end
        invariant
            start <= i <= end <= total,
            total == found.len(),
            shown.len() == i - start,
            ids.len() == i - start,
            forall|k: int| 0 <= k < i - start ==> (#[trigger] shown@[k])@ == found@[start + k]@,
            forall|k: int| 0 <= k < i - start ==> (#[trigger] ids@[k]) == found@[start + k].id,
        decreases end - i,
    {
        shown.push(found[i].duplicate());
        ids.push(found[i].id);
        i += 1;
    }
    let tags_map = get_tags_for_images(&ids, db);
    let content = to_dto(&shown, &tags_map);
    proof {
        let map = spec_tags_map(tags_map@);
        let keys = Seq::new(map.len(), |i: int| map[i].0);
        assert(keys =~= crate::services::tag_service::spec_map_keys(tags_map@));
        let wanted = spec_shown(db@, spec_page(rows, page as int, size as int));
        let views = image_views(content@);
        assert(views.len() == wanted.len());
        assert forall|k: int| 0 <= k < views.len() implies views[k] == wanted[k] by {
            let id = shown@[k].id as int;
            let linked = spec_linked_tags(db@.tags, db@.links, id);
            assert(ids@[k] == shown@[k].id);
            crate::seqs::lemma_position(keys, id);
            let at = spec_position(keys, id);
            if at < keys.len() {
                assert(keys[at] == id);
                assert(tags_map@[at].0 as int == id);
                assert(map[at].1 == linked);
            } else {
                assert(!keys.contains(id));
                if linked.len() > 0 {
                    assert(keys.contains(ids@[k] as int));
                }
                assert(linked =~= Seq::<TagRow>::empty());
            }
            assert(shown@[k]@ == rows[start + k]);
            assert(views[k] == content@[k]@);
        }
        assert(views =~= wanted);
    }
    Page { content, total_pages: total_pages(total as u64, size), page_number: page }
}

/// Searches the catalog.
///
/// An image is found where it is prepared, its description contains one of
/// the terms of the query (every description does where the query is empty),
/// and it carries all the tags that the filter names. What is found comes in
/// the order of the filter, by time of creation, and is cut into pages of
/// `size`; the page `page`, counted from 0, is handed back with the number of
/// pages there are. A page beyond the last is empty.
pub fn find_all(db: &Catalog, filter: &Filter, page: u64, size: u64) -> (result: Page<ImageDTO>)
    ensures
        result.page_number == page,
        result.total_pages == spec_total_pages(
            spec_found(db@, filter.query@, filter.tag_names(), filter.sort_order).len() as int,
            size as int,
        ),
        image_views(result.content@) == spec_shown(
            db@,
            spec_page(
                spec_found(db@, filter.query@, filter.tag_names(), filter.sort_order),
                page as int,
                size as int,
            ),
        ),
        db@.wf() ==> forall|i: int|
            0 <= i < result.content.len() ==> (#[trigger] result.content[i])@.wf(),
{
    assert(filter.tag_names() =~= texts(filter.tags@));
    let selected = select_rows(db, filter.query.as_str(), &filter.tags);
    let found = sort_rows(selected, filter.sort_order);
    proof {
        lemma_sorted(
            spec_selected(db@, db@.images, filter.query@, filter.tag_names()),
            filter.sort_order,
        );
    }
    let result = page_of(db, &found, page, size);
    proof {
        if db@.wf() {
            let views = image_views(result.content@);
            let rows = spec_page(
                spec_found(db@, filter.query@, filter.tag_names(), filter.sort_order),
                page as int,
                size as int,
            );
            let shown = spec_shown(db@, rows);
            assert(views == shown);
            assert(shown.len() == rows.len());
            assert(views.len() == result.content.len());
            assert forall|i: int| 0 <= i < result.content.len() implies (
            #[trigger] result.content[i])@.wf() by {
                assert(views[i] == result.content[i]@);
                assert(views[i] == shown[i]);
                assert(shown[i].tags == spec_linked_tags(db@.tags, db@.links, rows[i].id));
                crate::services::invariants::lemma_linked_tags_are_a_set(db@, rows[i].id);
            }
        }
    }
    result
}

/// Lists the catalog without any filter: every prepared image, in the order
/// of the filter, one page of it.
pub fn find_all_images_without_filter(page: u64, size: u64, filter: &Filter, db: &Catalog) -> (result:
    Page<ImageDTO>)
    ensures
        result.page_number == page,
        result.total_pages == spec_total_pages(
            spec_found(db@, Seq::empty(), Seq::empty(), filter.sort_order).len() as int,
            size as int,
        ),
        image_views(result.content@) == spec_shown(
            db@,
            spec_page(
                spec_found(db@, Seq::empty(), Seq::empty(), filter.sort_order),
                page as int,
                size as int,
            ),
        ),
{
    let none: Vec<String> = Vec::new();
    assert(texts(none@) =~= Seq::<Seq<char>>::empty());
    let query = String::new();
    let selected = select_rows(db, query.as_str(), &none);
    let found = sort_rows(selected, filter.sort_order);
    proof {
        lemma_sorted(
            spec_selected(db@, db@.images, Seq::empty(), Seq::empty()),
            filter.sort_order,
        );
    }
    page_of(db, &found, page, size)
}

/// `images` without the rows with the identifier `id`.
pub open spec fn spec_without_image(images: Seq<ImageRow>, id: int) -> Seq<ImageRow> {
    spec_keep(images, other_image(id))
}

/// The catalog without an image: its row is gone, and with it the pairs that
/// gave it tags. The tags stay.
pub open spec fn spec_delete_image(db: CatalogView, id: int) -> CatalogView {
    CatalogView {
        images: spec_without_image(db.images, id),
        tags: db.tags,
        links: spec_unlink_image(db.links, id),
    }
}

/// Removes an image from the catalog, and with it what gave it tags. An
/// image that is not there counts as removed already: this never fails.
pub fn delete_image(db: &mut Catalog, id_val: i64) -> (result: Result<(), DbErr>)
    ensures
        result is Ok,
        final(db)@ == spec_delete_image(old(db)@, id_val as int),
{
    unlink_image(db, id_val);
    let ghost before = db@;
    let mut kept: Vec<Model> = Vec::new();
    let mut i: usize = 0;
    assert(image_rows(kept@) =~= spec_without_image(before.images.take(0), id_val as int));
    while i < db.images.len()
        invariant
            i <= db.images.len(),
            db@ == before,
            image_rows(kept@) == spec_without_image(before.images.take(i as int), id_val as int),
        decreases db.images.len() - i,
    {
        assert(before.images.take(i + 1).drop_last() =~= before.images.take(i as int));
        assert(before.images.take(i + 1).last() == db.images@[i as int]@);
        if db.images[i].id != id_val {
            let ghost held = kept@;
            kept.push(db.images[i].duplicate());
            assert(image_rows(kept@) =~= image_rows(held).push(db.images@[i as int]@));
        }
        i += 1;
    }
    assert(before.images.take(db.images.len() as int) =~= before.images);
    db.images = kept;
    Ok(())
}

/// The text that a field has after an update: the new text, or the old one
/// where the new one is absent or empty.
pub open spec fn spec_pick(stored: Seq<char>, given: Option<String>) -> Seq<char> {
    match given {
        Some(text) => if text@.len() > 0 {
            text@
        } else {
            stored
        },
        None => stored,
    }
}

/// A row after an update: each text as `spec_pick` gives it, and the two
/// flags as the update has them.
pub open spec fn spec_patched(row: ImageRow, dto: ImageUpdateDTO) -> ImageRow {
    ImageRow {
        id: row.id,
        path: spec_pick(row.path, dto.path),
        thumbnail_path: spec_pick(row.thumbnail_path, dto.thumbnail_path),
        description: spec_pick(row.description, dto.description),
        created_at: row.created_at,
        is_folder: dto.is_folder,
        is_prepared: dto.is_prepared,
    }
}

/// The tags that an update asks for: none where the list is absent or empty.
pub open spec fn spec_wanted_tags(dto: ImageUpdateDTO) -> Option<Seq<TagRow>> {
    match dto.tags {
        Some(tags) => if tags@.len() > 0 {
            Some(tag_views(tags@))
        } else {
            None
        },
        None => None,
    }
}

/// The catalog after the update of the image at position `at`.
pub open spec fn spec_update(db: CatalogView, at: int, dto: ImageUpdateDTO) -> CatalogView {
    let row = spec_patched(db.images[at], dto);
    let updated = CatalogView { images: db.images.update(at, row), ..db };
    match spec_wanted_tags(dto) {
        None => updated,
        Some(tags) => spec_reconcile(updated, row.id, tags),
    }
}

/// Whether identifiers are left for every tag that the update has to make.
pub open spec fn spec_update_fits(db: CatalogView, at: int, dto: ImageUpdateDTO) -> bool {
    let row = spec_patched(db.images[at], dto);
    let updated = CatalogView { images: db.images.update(at, row), ..db };
    match spec_wanted_tags(dto) {
        None => true,
        Some(tags) => spec_reconcile_fits(updated, row.id, tags),
    }
}

/// The text that a field has after an update.
fn pick(stored: &String, given: &Option<String>) -> (text: String)
    ensures
        text@ == spec_pick(stored@, *given),
{
    match given {
        Some(new) => if !new.as_str().is_empty() {
            new.clone()
        } else {
            stored.clone()
        },
        None => stored.clone(),
    }
}

/// Updates an image from a partial description of it.
///
/// Only what is given overwrites what is stored: a path, thumbnail path or
/// description that is absent or empty leaves the stored one, and an absent
/// or empty list of tags leaves the tags of the image. The two flags are
/// always written. An image that is not in the catalog is refused.
pub fn update_from_dto(db: &mut Catalog, id: i64, dto: ImageUpdateDTO) -> (result: Result<
    Model,
    DbErr,
>)
    ensures
        match result {
            Ok(model) => {
                let at = spec_position(image_ids(old(db)@.images), id as int);
                &&& at < old(db)@.images.len()
                &&& model@ == spec_patched(old(db)@.images[at], dto)
                &&& final(db)@ == spec_update(old(db)@, at, dto)
            },
            Err(e) => {
                &&& e == DbErr::RecordNotFound || e == DbErr::IdsExhausted
                &&& e == DbErr::RecordNotFound ==> final(db)@ == old(db)@
            },
        },
        result == Err::<Model, DbErr>(DbErr::RecordNotFound) <==> spec_position(
            image_ids(old(db)@.images),
            id as int,
        ) == old(db)@.images.len(),
        result is Ok <==> {
            let at = spec_position(image_ids(old(db)@.images), id as int);
            at < old(db)@.images.len() && spec_update_fits(old(db)@, at, dto)
        },
{
    proof {
        crate::seqs::lemma_position(image_ids(db@.images), id as int);
    }
    let at = match db.find_image(id) {
        Some(at) => at,
        None => {
            return Err(DbErr::RecordNotFound);
        },
    };
    let ghost before = db@;
    assert(before.images[at as int] == db.images[at as int]@);
    let stored = &db.images[at];
    let model = Model {
        id,
        path: pick(&stored.path, &dto.path),
        thumbnail_path: pick(&stored.thumbnail_path, &dto.thumbnail_path),
        description: pick(&stored.description, &dto.description),
        created_at: stored.created_at,
        is_folder: dto.is_folder,
        is_prepared: dto.is_prepared,
    };
    let copy = model.duplicate();
    let mut images = Vec::new();
    core::mem::swap(&mut images, &mut db.images);
    images.set(at, copy);
    db.images = images;
    assert(db@.images =~= before.images.update(at as int, model@));
    assert(db@.tags == before.tags);
    assert(db@.links == before.links);
    assert(image_ids(db@.images) =~= image_ids(before.images));
    match &dto.tags {
        Some(tags) => {
            if tags.len() > 0 {
                match update_tags_for_image(db, id, tags) {
                    Ok(_) => {},
                    Err(e) => {
                        return Err(DbErr::IdsExhausted);
                    },
                }
            }
        },
        None => {},
    }
    Ok(model)
}

/// The image with the identifier `id_val` as it is shown, if it is in the catalog.
pub fn find_by_id(db: &Catalog, id_val: i64) -> (found: Option<ImageDTO>)
    ensures
        match found {
            Some(dto) => {
                let at = spec_position(image_ids(db@.images), id_val as int);
                &&& at < db@.images.len()
                &&& dto@ == spec_image_dto(
                    db@.images[at],
                    spec_linked_tags(db@.tags, db@.links, id_val as int),
                )
            },
            None => spec_position(image_ids(db@.images), id_val as int) == db@.images.len(),
        },
        db@.wf() ==> (found matches Some(dto) ==> dto@.wf()),
{
    proof {
        if db@.wf() {
            crate::services::invariants::lemma_linked_tags_are_a_set(db@, id_val as int);
        }
    }
    match db.find_image(id_val) {
        None => None,
        Some(at) => {
            let model = &db.images[at];
            assert(db@.images[at as int] == model@);
            Some(
                ImageDTO {
                    id: model.id,
                    path: model.path.clone(),
                    thumbnail_path: model.thumbnail_path.clone(),
                    description: model.description.clone(),
                    tags: crate::services::catalog::tags_for_image(db, id_val),
                    created_at: created_text(model.created_at),
                    is_folder: model.is_folder,
                    is_prepared: model.is_prepared,
                },
            )
        },
    }
}

/// An update that gives only a description leaves the paths of the image and
/// every tag of the catalog as they were.
pub proof fn lemma_sparse_update(db: CatalogView, at: int, dto: ImageUpdateDTO)
    requires
        0 <= at < db.images.len(),
        dto.path is None,
        dto.thumbnail_path is None,
        dto.tags is None,
    ensures
        spec_update(db, at, dto).images[at].path == db.images[at].path,
        spec_update(db, at, dto).images[at].thumbnail_path == db.images[at].thumbnail_path,
        spec_update(db, at, dto).tags == db.tags,
        spec_update(db, at, dto).links == db.links,
        spec_update(db, at, dto).images.len() == db.images.len(),
        forall|k: int|
            0 <= k < db.images.len() && k != at ==> spec_update(db, at, dto).images[k]
                == db.images[k],
{
}

/// A search finds exactly the rows of the catalog that match: none is lost in
/// sorting, and none comes in.
pub proof fn lemma_found_is_what_matches(
    db: CatalogView,
    query: Seq<char>,
    tags: Seq<Seq<char>>,
    order: SortOrder,
    row: ImageRow,
)
    ensures
        spec_found(db, query, tags, order).contains(row) <==> (db.images.contains(row)
            && spec_matches(db, row, query, tags)),
{
    broadcast use vstd::seq_lib::group_to_multiset_ensures;

    let selected = spec_selected(db, db.images, query, tags);
    crate::seqs::lemma_keep_contains(db.images, matching(db, query, tags), row);
    lemma_sorted(selected, order);
    let found = spec_found(db, query, tags, order);
    assert(found.to_multiset().count(row) == selected.to_multiset().count(row));
    assert(found.contains(row) <==> found.to_multiset().count(row) > 0);
    assert(selected.contains(row) <==> selected.to_multiset().count(row) > 0);
}

/// Every row is on exactly the page that its position tells, and every row
/// of a page is one of the rows: the pages hold the rows, each once.
pub proof fn lemma_pages_hold_the_rows<T>(rows: Seq<T>, size: int, at: int)
    requires
        0 < size,
        0 <= at < rows.len(),
    ensures
        0 <= at / size < spec_total_pages(rows.len() as int, size),
        0 <= at % size < spec_page(rows, at / size, size).len(),
        spec_page(rows, at / size, size)[at % size] == rows[at],
{
    let total = rows.len() as int;
    let page = at / size;
    assert(page * size <= at < page * size + size && 0 <= at % size < size && at == page
        * size + at % size && 0 <= page) by (nonlinear_arith)
        requires
            page == at / size,
            0 < size,
            0 <= at,
    ;
    assert(page < (total + size - 1) / size) by (nonlinear_arith)
        requires
            page * size <= at,
            at < total,
            0 < size,
            0 <= page,
    ;
}

/// An image is on one of the pages of a search exactly if it is in the
/// catalog and matches: a tag that is missing always keeps it out, and a tag
/// beyond those asked for never does.
pub proof fn lemma_pages_hold_what_matches(
    db: CatalogView,
    query: Seq<char>,
    tags: Seq<Seq<char>>,
    order: SortOrder,
    size: int,
    row: ImageRow,
)
    requires
        0 < size,
    ensures
        (exists|page: int|
            0 <= page < spec_total_pages(spec_found(db, query, tags, order).len() as int, size)
                && (#[trigger] spec_page(spec_found(db, query, tags, order), page, size)).contains(
                row,
            )) <==> (db.images.contains(row) && spec_matches(db, row, query, tags)),
{
    let found = spec_found(db, query, tags, order);
    lemma_found_is_what_matches(db, query, tags, order, row);
    if found.contains(row) {
        let at = choose|at: int| 0 <= at < found.len() && found[at] == row;
        lemma_pages_hold_the_rows(found, size, at);
        let slice = spec_page(found, at / size, size);
        assert(slice[at % size] == row);
        assert(slice.contains(row));
    }
    if exists|page: int|
        0 <= page < spec_total_pages(found.len() as int, size) && (#[trigger] spec_page(
            found,
            page,
            size,
        )).contains(row) {
        let page = choose|page: int|
            0 <= page < spec_total_pages(found.len() as int, size) && (#[trigger] spec_page(
                found,
                page,
                size,
            )).contains(row);
        let slice = spec_page(found, page, size);
        let k = choose|k: int| 0 <= k < slice.len() && slice[k] == row;
        assert(found[spec_page_start(found.len() as int, page, size) + k] == row);
    }
}

/// An image that carries all the tags asked for still does so when it is
/// given one more tag.
pub proof fn lemma_more_tags_do_no_harm(
    db: CatalogView,
    image_id: int,
    names: Seq<Seq<char>>,
    tag_id: int,
)
    requires
        spec_has_all_tags(db, image_id, names),
    ensures
        spec_has_all_tags(
            CatalogView { links: db.links.push((image_id, tag_id)), ..db },
            image_id,
            names,
        ),
{
    let after = CatalogView { links: db.links.push((image_id, tag_id)), ..db };
    assert forall|k: int| 0 <= k < names.len() implies spec_carries(
        after,
        image_id,
        #[trigger] names[k],
    ) by {
        assert(spec_carries(db, image_id, names[k]));
        let t = choose|t: int|
            0 <= t < db.tags.len() && (#[trigger] db.tags[t]).name == names[k]
                && db.links.contains((image_id, db.tags[t].id));
        crate::seqs::lemma_push_contains(db.links, (image_id, tag_id), (image_id, db.tags[t].id));
        assert(after.tags[t] == db.tags[t]);
    }
}

/// Deleting an image a second time changes nothing: the catalog is as the
/// first deletion left it.
pub proof fn lemma_delete_image_idempotent(db: CatalogView, id: int)
    ensures
        spec_delete_image(spec_delete_image(db, id), id) == spec_delete_image(db, id),
{
    crate::seqs::lemma_keep_again(db.images, other_image(id));
    crate::seqs::lemma_keep_again(db.links, crate::services::catalog::of_other_image(id));
}

} // verus!
