use organizer::config::Settings;
use organizer::dtos::image_dto::{ImageDTO, ImageUpdateDTO};
use organizer::dtos::tag_dto::{TagDTO, TagUpdateDTO};
use organizer::models::enums::image_format::ImageFormat;
use organizer::models::enums::image_type::ImageType;
use organizer::models::filter::{Filter, SortOrder};
use organizer::models::tag_color::TagColor;
use organizer::screen::register::{
    begin_folder, begin_image, finish_folder, finish_image, RegisterError,
};
use organizer::screen::search::{change_preview, delete_image, search};
use organizer::screen::update::submit;
use organizer::services::catalog::{resolve_or_create, Catalog, DbErr};
use organizer::services::file_service::{ArtifactFolder, SaveError, SourceFile};
use organizer::services::image_service::{
    build_desc_condition, find_all, find_all_images_without_filter, find_by_id, insert_image,
    matches_description, to_dto, total_pages, update_from_dto,
};
use organizer::services::tag_service;
use organizer::services::thumbnail_service::{save_image_as_png, CodecError, PixelLayout, Raster};

fn tag(name: &str) -> TagDTO {
    TagDTO { id: 0, name: name.to_string(), color: TagColor::Blue }
}

fn tags(names: &[&str]) -> Vec<TagDTO> {
    names.iter().map(|n| tag(n)).collect()
}

fn prepared(db: &mut Catalog, description: &str, created_at: i64, names: &[&str]) -> i64 {
    let id = insert_image(db, description, created_at).unwrap();
    let dto = ImageUpdateDTO {
        path: Some(format!("/images/{}/image_{}.png", id, id)),
        thumbnail_path: Some(format!("/images/{}/thumb_image_{}.png", id, id)),
        description: None,
        tags: Some(tags(names)),
        is_folder: false,
        is_prepared: true,
    };
    update_from_dto(db, id, dto).unwrap();
    id
}

fn filter(query: &str, names: &[&str], sort_order: SortOrder) -> Filter {
    Filter {
        query: query.to_string(),
        tags: names.iter().map(|n| n.to_string()).collect(),
        sort_order,
    }
}

fn ids(content: &[ImageDTO]) -> Vec<i64> {
    content.iter().map(|dto| dto.id).collect()
}

fn tag_names(dto: &ImageDTO) -> Vec<String> {
    let mut names: Vec<String> = dto.tags.iter().map(|t| t.name.clone()).collect();
    names.sort();
    names
}

fn picture() -> Raster {
    Raster { width: 20, height: 10, layout: PixelLayout::Rgb8, data: vec![50; 600] }
}

#[test]
fn tag_names_resolve_without_regard_to_case() {
    let mut db = Catalog::new();
    let first = resolve_or_create(&mut db, "Red", TagColor::Red).unwrap();
    let second = resolve_or_create(&mut db, "red", TagColor::Green).unwrap();
    assert_eq!(first, second);
    assert_eq!(db.tags.len(), 1);
    assert_eq!(db.tags[0].name, "red");
    assert_eq!(db.tags[0].color, TagColor::Red);
    let other = resolve_or_create(&mut db, "blue", TagColor::Blue).unwrap();
    assert_ne!(other, first);
    assert_eq!(db.tags.len(), 2);
}

#[test]
fn saving_a_tag_twice_keeps_one_row() {
    let mut db = Catalog::new();
    assert_eq!(tag_service::save(&mut db, "Sea", TagColor::Teal), Ok(()));
    assert_eq!(tag_service::save(&mut db, "SEA", TagColor::Pink), Ok(()));
    let all = tag_service::find_all(&db);
    assert_eq!(all.len(), 1);
    assert_eq!(all[0].name, "sea");
    assert_eq!(all[0].color, TagColor::Teal);
    assert_eq!(all[0].id, 1);
}

#[test]
fn filter_by_tags_asks_for_all_of_them() {
    let mut db = Catalog::new();
    let a = prepared(&mut db, "a", 10, &["x", "y"]);
    let b = prepared(&mut db, "b", 20, &["x"]);
    let c = prepared(&mut db, "c", 30, &["x", "y", "z"]);
    let page = find_all(&db, &filter("", &["x", "y"], SortOrder::CreatedAsc), 0, 10);
    assert_eq!(ids(&page.content), vec![a, c]);
    assert_eq!(page.total_pages, 1);
    let page = find_all(&db, &filter("", &["x"], SortOrder::CreatedAsc), 0, 10);
    assert_eq!(ids(&page.content), vec![a, b, c]);
    let page = find_all(&db, &filter("", &["z", "x"], SortOrder::CreatedAsc), 0, 10);
    assert_eq!(ids(&page.content), vec![c]);
    let page = find_all(&db, &filter("", &["x", "nope"], SortOrder::CreatedAsc), 0, 10);
    assert!(page.content.is_empty());
    assert_eq!(page.total_pages, 0);
    let page = find_all(&db, &filter("", &["x", "x", "y"], SortOrder::CreatedAsc), 0, 10);
    assert_eq!(ids(&page.content), vec![a, c]);
    assert_eq!(tag_names(&page.content[1]), vec!["x", "y", "z"]);
}

#[test]
fn pages_are_counted_by_rounding_up() {
    assert_eq!(total_pages(0, 3), 0);
    assert_eq!(total_pages(10, 3), 4);
    assert_eq!(total_pages(9, 3), 3);
    assert_eq!(total_pages(1, 3), 1);
    assert_eq!(total_pages(10, 0), 0);
    assert_eq!(total_pages(u64::MAX, 1), u64::MAX);
    assert_eq!(total_pages(u64::MAX, u64::MAX), 1);
}

#[test]
fn ten_rows_fill_four_pages_of_three() {
    let mut db = Catalog::new();
    let mut all = Vec::new();
    for i in 0..10 {
        all.push(prepared(&mut db, "row", 100 + i, &[]));
    }
    let f = Filter::new();
    let mut seen = Vec::new();
    for page in 0..4 {
        let result = find_all(&db, &f, page, 3);
        assert_eq!(result.total_pages, 4);
        assert_eq!(result.page_number, page);
        assert_eq!(result.content.len(), if page < 3 { 3 } else { 1 });
        seen.extend(ids(&result.content));
    }
    all.reverse();
    assert_eq!(seen, all);
    let beyond = find_all(&db, &f, 4, 3);
    assert!(beyond.content.is_empty());
    assert_eq!(beyond.total_pages, 4);
    let far = find_all(&db, &f, u64::MAX, u64::MAX);
    assert!(far.content.is_empty());
    let none = find_all(&db, &f, 0, 0);
    assert!(none.content.is_empty());
    assert_eq!(none.total_pages, 0);
}

#[test]
fn empty_catalog_has_no_pages() {
    let db = Catalog::new();
    let result = find_all(&db, &Filter::new(), 0, 35);
    assert_eq!(result.total_pages, 0);
    assert!(result.content.is_empty());
    let result = find_all_images_without_filter(0, 35, &Filter::new(), &db);
    assert_eq!(result.total_pages, 0);
}

#[test]
fn results_are_sorted_by_creation_then_identifier() {
    let mut db = Catalog::new();
    let a = prepared(&mut db, "a", 50, &[]);
    let b = prepared(&mut db, "b", 10, &[]);
    let c = prepared(&mut db, "c", 50, &[]);
    let d = prepared(&mut db, "d", 30, &[]);
    let asc = find_all(&db, &filter("", &[], SortOrder::CreatedAsc), 0, 10);
    assert_eq!(ids(&asc.content), vec![b, d, a, c]);
    let desc = find_all(&db, &filter("", &[], SortOrder::CreatedDesc), 0, 10);
    assert_eq!(ids(&desc.content), vec![c, a, d, b]);
    let listed = find_all_images_without_filter(0, 2, &filter("zzz", &["q"], SortOrder::CreatedAsc), &db);
    assert_eq!(ids(&listed.content), vec![b, d]);
    assert_eq!(listed.total_pages, 2);
}

#[test]
fn query_asks_for_any_of_its_terms() {
    let mut db = Catalog::new();
    let cat = prepared(&mut db, "a black cat", 1, &[]);
    let dog = prepared(&mut db, "a brown dog", 2, &[]);
    let bird = prepared(&mut db, "a bird", 3, &[]);
    let asc = SortOrder::CreatedAsc;
    assert_eq!(ids(&find_all(&db, &filter("cat", &[], asc), 0, 10).content), vec![cat]);
    assert_eq!(ids(&find_all(&db, &filter(" cat + dog ", &[], asc), 0, 10).content), vec![cat, dog]);
    assert_eq!(ids(&find_all(&db, &filter("b", &[], asc), 0, 10).content), vec![cat, dog, bird]);
    assert_eq!(ids(&find_all(&db, &filter("   ", &[], asc), 0, 10).content), vec![cat, dog, bird]);
    assert_eq!(ids(&find_all(&db, &filter("+", &[], asc), 0, 10).content), Vec::<i64>::new());
    assert_eq!(ids(&find_all(&db, &filter("Cat", &[], asc), 0, 10).content), Vec::<i64>::new());
    assert_eq!(ids(&find_all(&db, &filter("black cat", &[], asc), 0, 10).content), vec![cat]);
    assert_eq!(ids(&find_all(&db, &filter("+bird+", &[], asc), 0, 10).content), vec![bird]);
}

#[test]
fn description_conditions_are_built_from_the_query() {
    assert_eq!(build_desc_condition(""), None);
    assert_eq!(build_desc_condition(" \t "), None);
    assert_eq!(build_desc_condition(" cat "), Some(vec!["cat".to_string()]));
    assert_eq!(
        build_desc_condition("cat + big dog+ +bird"),
        Some(vec!["cat".to_string(), "big dog".to_string(), "bird".to_string()])
    );
    assert_eq!(build_desc_condition("+"), Some(Vec::new()));
    assert!(matches_description("anything", &None));
    assert!(!matches_description("anything", &Some(Vec::new())));
    assert!(matches_description("anything", &Some(vec!["x".to_string(), "thin".to_string()])));
    assert!(matches_description("", &Some(vec![String::new()])));
}

#[test]
fn text_and_tags_must_both_match() {
    let mut db = Catalog::new();
    let _a = prepared(&mut db, "cat", 1, &["x"]);
    let b = prepared(&mut db, "cat", 2, &["y"]);
    let _c = prepared(&mut db, "dog", 3, &["y"]);
    let page = find_all(&db, &filter("cat", &["y"], SortOrder::CreatedAsc), 0, 10);
    assert_eq!(ids(&page.content), vec![b]);
}

#[test]
fn unprepared_images_are_not_found() {
    let mut db = Catalog::new();
    let id = insert_image(&mut db, "cat", 5).unwrap();
    assert_eq!(id, 1);
    assert!(find_all(&db, &filter("cat", &[], SortOrder::CreatedAsc), 0, 10).content.is_empty());
    let row = find_by_id(&db, id).unwrap();
    assert!(!row.is_prepared);
    assert_eq!(row.path, "");
    assert_eq!(row.thumbnail_path, "");
    assert_eq!(row.description, "cat");
    assert_eq!(row.created_at, "1970-01-01");
    assert!(find_by_id(&db, 77).is_none());
}

#[test]
fn creation_day_is_written_as_year_month_day() {
    let mut db = Catalog::new();
    let id = insert_image(&mut db, "x", 1_714_564_800).unwrap();
    assert_eq!(find_by_id(&db, id).unwrap().created_at, "2024-05-01");
    let late = insert_image(&mut db, "y", i64::MAX).unwrap();
    assert_eq!(find_by_id(&db, late).unwrap().created_at, "");
}

#[test]
fn update_with_only_a_description_leaves_the_rest() {
    let mut db = Catalog::new();
    let id = prepared(&mut db, "old", 1, &["x", "y"]);
    let other = prepared(&mut db, "other", 2, &["x"]);
    let before = find_by_id(&db, id).unwrap();
    let links = db.image_tags.len();
    let dto = ImageUpdateDTO {
        path: None,
        thumbnail_path: None,
        description: Some("new".to_string()),
        tags: None,
        is_folder: false,
        is_prepared: true,
    };
    let model = update_from_dto(&mut db, id, dto).unwrap();
    assert_eq!(model.description, "new");
    let after = find_by_id(&db, id).unwrap();
    assert_eq!(after.description, "new");
    assert_eq!(after.path, before.path);
    assert_eq!(after.thumbnail_path, before.thumbnail_path);
    assert_eq!(tag_names(&after), vec!["x", "y"]);
    assert_eq!(db.image_tags.len(), links);
    assert_eq!(find_by_id(&db, other).unwrap().description, "other");
}

#[test]
fn update_ignores_empty_texts_and_writes_flags() {
    let mut db = Catalog::new();
    let id = prepared(&mut db, "old", 1, &["x"]);
    let dto = ImageUpdateDTO {
        path: Some(String::new()),
        thumbnail_path: Some(String::new()),
        description: Some(String::new()),
        tags: Some(Vec::new()),
        is_folder: true,
        is_prepared: false,
    };
    let model = update_from_dto(&mut db, id, dto).unwrap();
    assert_eq!(model.description, "old");
    assert_eq!(model.path, format!("/images/{}/image_{}.png", id, id));
    assert!(model.is_folder);
    assert!(!model.is_prepared);
    assert_eq!(tag_names(&find_by_id(&db, id).unwrap()), vec!["x"]);
    assert_eq!(ImageUpdateDTO::default().is_prepared, false);
}

#[test]
fn update_of_a_missing_image_is_refused() {
    let mut db = Catalog::new();
    let result = update_from_dto(&mut db, 5, ImageUpdateDTO::default());
    assert_eq!(result.err(), Some(DbErr::RecordNotFound));
    assert_eq!(DbErr::RecordNotFound.message(), "Record not found");
    let result = tag_service::update_tags_for_image(&mut db, 5, &tags(&["x"]));
    assert_eq!(result, Err(DbErr::RecordNotFound));
    assert!(db.tags.is_empty());
}

#[test]
fn tags_of_an_image_are_replaced_as_a_set() {
    let mut db = Catalog::new();
    let id = prepared(&mut db, "a", 1, &["x", "y"]);
    let wanted = vec![tag("Z"), tag("y"), tag(""), tag("z")];
    assert_eq!(tag_service::update_tags_for_image(&mut db, id, &wanted), Ok(()));
    assert_eq!(tag_names(&find_by_id(&db, id).unwrap()), vec!["y", "z"]);
    assert_eq!(db.tags.len(), 3);
    assert_eq!(db.image_tags.len(), 2);
    let bare = insert_image(&mut db, "bare", 2).unwrap();
    let map = tag_service::get_tags_for_images(&vec![id, 99, bare, id], &db);
    assert_eq!(map.len(), 1);
    assert_eq!(map[0].0, id);
    assert_eq!(map[0].1.len(), 2);
    assert!(tag_service::get_tags_for_images(&Vec::new(), &db).is_empty());
    assert!(tag_service::get_tags_for_images(&vec![bare, 99], &db).is_empty());
    let shown = to_dto(&db.images, &map);
    assert_eq!(shown.len(), 2);
    assert_eq!(shown[0].tags.len(), 2);
    assert!(shown[1].tags.is_empty());
}

#[test]
fn deleting_an_image_twice_does_not_fail() {
    let mut db = Catalog::new();
    let a = prepared(&mut db, "a", 1, &["x", "y"]);
    let b = prepared(&mut db, "b", 2, &["x"]);
    assert_eq!(organizer::services::image_service::delete_image(&mut db, a), Ok(()));
    assert!(find_by_id(&db, a).is_none());
    assert_eq!(db.image_tags.len(), 1);
    assert_eq!(db.tags.len(), 2);
    assert_eq!(organizer::services::image_service::delete_image(&mut db, a), Ok(()));
    assert_eq!(db.images.len(), 1);
    assert_eq!(db.image_tags.len(), 1);
    assert!(find_by_id(&db, b).is_some());
}

#[test]
fn deleting_a_tag_takes_it_from_its_images() {
    let mut db = Catalog::new();
    let a = prepared(&mut db, "a", 1, &["x", "y"]);
    let x = db.tags.iter().find(|t| t.name == "x").unwrap().id;
    assert_eq!(tag_service::delete(&mut db, x), Ok(()));
    assert_eq!(tag_names(&find_by_id(&db, a).unwrap()), vec!["y"]);
    assert_eq!(db.tags.len(), 1);
    assert_eq!(db.images.len(), 1);
    assert_eq!(tag_service::delete(&mut db, x), Ok(()));
    assert_eq!(db.tags.len(), 1);
}

#[test]
fn tag_update_changes_name_and_colour() {
    let mut db = Catalog::new();
    let x = resolve_or_create(&mut db, "x", TagColor::Blue).unwrap();
    let y = resolve_or_create(&mut db, "y", TagColor::Blue).unwrap();
    let model = tag_service::update_from_dto(
        &mut db,
        x,
        TagUpdateDTO { name: "Sky".to_string(), color: TagColor::Indigo },
    )
    .unwrap();
    assert_eq!((model.id, model.name.as_str(), model.color), (x, "sky", TagColor::Indigo));
    let model = tag_service::update_from_dto(
        &mut db,
        x,
        TagUpdateDTO { name: String::new(), color: TagColor::Gray },
    )
    .unwrap();
    assert_eq!((model.name.as_str(), model.color), ("sky", TagColor::Gray));
    let clash = tag_service::update_from_dto(
        &mut db,
        y,
        TagUpdateDTO { name: "SKY".to_string(), color: TagColor::Red },
    );
    assert_eq!(clash.err(), Some(DbErr::Constraint));
    assert_eq!(db.tags[1].name, "y");
    let same = tag_service::update_from_dto(
        &mut db,
        y,
        TagUpdateDTO { name: "Y".to_string(), color: TagColor::Red },
    );
    assert!(same.is_ok());
    let missing = tag_service::update_from_dto(&mut db, 50, TagUpdateDTO::default());
    assert_eq!(missing.err(), Some(DbErr::RecordNotFound));
    assert_eq!(TagUpdateDTO::default().color, TagColor::Blue);
}

#[test]
fn identifiers_run_out_at_the_greatest() {
    let mut db = Catalog::new();
    let id = insert_image(&mut db, "a", 1).unwrap();
    db.images[0].id = i64::MAX;
    assert_eq!(insert_image(&mut db, "b", 2), Err(DbErr::IdsExhausted));
    assert_eq!(db.images.len(), 1);
    assert_eq!(id, 1);
    resolve_or_create(&mut db, "x", TagColor::Blue).unwrap();
    db.tags[0].id = i64::MAX;
    assert_eq!(resolve_or_create(&mut db, "y", TagColor::Blue), Err(DbErr::IdsExhausted));
    assert_eq!(resolve_or_create(&mut db, "x", TagColor::Blue), Ok(i64::MAX));
    assert_eq!(
        tag_service::update_tags_for_image(&mut db, i64::MAX, &tags(&["x", "y"])),
        Err(DbErr::IdsExhausted)
    );
    assert_eq!(db.image_tags.len(), 1);
}

#[test]
fn registered_image_is_found_with_its_tags() {
    let mut db = Catalog::new();
    let settings = Settings::load(None);
    let pending =
        begin_image(&mut db, "/app/images", &settings, "cat", &picture(), ImageFormat::Png, 77)
            .unwrap();
    assert_eq!(pending.id, 1);
    assert_eq!(pending.saved.image_path, "/app/images/1/image_1.png");
    assert!(search(&db, "cat", &Vec::new(), SortOrder::CreatedDesc, 0, 35).content.is_empty());
    let model = finish_image(&mut db, &pending, &tags(&["animal", "cute"])).unwrap();
    assert!(model.is_prepared);
    assert!(!model.is_folder);
    let found = search(&db, "cat", &Vec::new(), SortOrder::CreatedDesc, 0, 35);
    assert_eq!(found.total_pages, 1);
    assert_eq!(found.content.len(), 1);
    let entry = &found.content[0];
    assert_eq!(entry.id, 1);
    assert!(entry.is_prepared);
    assert_eq!(entry.description, "cat");
    assert_eq!(entry.path, "/app/images/1/image_1.png");
    assert_eq!(entry.thumbnail_path, "/app/images/1/thumb_image_1.png");
    assert_eq!(tag_names(entry), vec!["animal", "cute"]);
    let by_tag = search(&db, "", &tags(&["cute"]), SortOrder::CreatedDesc, 0, 35);
    assert_eq!(ids(&by_tag.content), vec![1]);
}

#[test]
fn failed_registration_leaves_an_unprepared_entry() {
    let mut db = Catalog::new();
    let settings = Settings::load(None);
    let broken = Raster { width: 9, height: 9, layout: PixelLayout::Rgb8, data: vec![0; 5] };
    let result = begin_image(&mut db, "/r", &settings, "cat", &broken, ImageFormat::Png, 1);
    assert_eq!(
        result.err(),
        Some(RegisterError::Save(1, SaveError::Codec(CodecError::Malformed)))
    );
    assert_eq!(db.images.len(), 1);
    assert!(!db.images[0].is_prepared);
    let result = begin_folder(&mut db, "/r", &settings, "dir", &Vec::new(), 2);
    assert_eq!(result.err(), Some(RegisterError::Save(2, SaveError::EmptyFolder)));
    assert_eq!(db.images.len(), 2);
    assert!(search(&db, "", &Vec::new(), SortOrder::CreatedAsc, 0, 10).content.is_empty());
    db.images[1].id = i64::MAX;
    let result = begin_image(&mut db, "/r", &settings, "x", &picture(), ImageFormat::Png, 3);
    assert_eq!(result.err(), Some(RegisterError::Db(DbErr::IdsExhausted)));
    assert_eq!(db.images.len(), 2);
}

#[test]
fn registered_folder_is_one_entry() {
    let mut db = Catalog::new();
    let settings = Settings::load(None);
    let file = save_image_as_png(&picture(), 3).unwrap();
    let sources = vec![
        SourceFile { name: "b.png".to_string(), bytes: file.clone() },
        SourceFile { name: "a.png".to_string(), bytes: file },
    ];
    let pending = begin_folder(&mut db, "/app/images", &settings, "trip", &sources, 9).unwrap();
    assert!(!pending.import.saved_paths.is_empty());
    let (model, count) = finish_folder(&mut db, &pending, &tags(&["sea"])).unwrap();
    assert_eq!(count, 2);
    assert!(model.is_folder);
    assert!(model.is_prepared);
    assert_eq!(model.path, "/app/images/1");
    assert_eq!(model.thumbnail_path, "/app/images/1/thumb_image_1_0.png");
    let found = search(&db, "trip", &tags(&["sea"]), SortOrder::CreatedDesc, 0, 35);
    assert_eq!(found.content.len(), 1);
    assert!(found.content[0].is_folder);
}

#[test]
fn submitted_update_keeps_paths_and_flags() {
    let mut db = Catalog::new();
    let id = prepared(&mut db, "old", 1, &["x"]);
    let shown = find_by_id(&db, id).unwrap();
    let model = submit(&mut db, &shown, "new".to_string(), tags(&["y"])).unwrap();
    assert_eq!(model.description, "new");
    assert!(model.is_prepared);
    assert_eq!(model.path, shown.path);
    assert_eq!(tag_names(&find_by_id(&db, id).unwrap()), vec!["y"]);
    let shown = find_by_id(&db, id).unwrap();
    let model = submit(&mut db, &shown, String::new(), Vec::new()).unwrap();
    assert_eq!(model.description, "new");
    assert_eq!(tag_names(&find_by_id(&db, id).unwrap()), vec!["y"]);
    let mut gone = shown;
    gone.id = 404;
    assert_eq!(submit(&mut db, &gone, "x".to_string(), Vec::new()).err(), Some(DbErr::RecordNotFound));
}

#[test]
fn deleting_an_entry_removes_row_and_files() {
    let mut db = Catalog::new();
    let id = prepared(&mut db, "a", 1, &["x"]);
    let mut dir = ArtifactFolder {
        name: id.to_string(),
        files: vec![format!("image_{}.png", id), format!("thumb_image_{}.png", id)],
        present: true,
    };
    let name = format!("image_{}.png", id);
    let removal = delete_image(&mut db, &mut dir, id, &name, ImageType::Image);
    assert_eq!(removal.outcome, Ok(()));
    assert_eq!(removal.actions.len(), 3);
    assert!(!dir.present);
    assert!(db.images.is_empty());
    assert!(db.image_tags.is_empty());
    let again = delete_image(&mut db, &mut dir, id, &name, ImageType::Image);
    assert_eq!(again.outcome, Ok(()));
    assert!(again.actions.is_empty());
}

#[test]
fn deleting_a_file_of_a_folder_keeps_the_row() {
    let mut db = Catalog::new();
    let id = prepared(&mut db, "a", 1, &[]);
    let mut dir = ArtifactFolder {
        name: id.to_string(),
        files: vec!["image_1_0.png".to_string(), "image_1_1.png".to_string()],
        present: true,
    };
    let removal = delete_image(&mut db, &mut dir, 0, "image_1_0.png", ImageType::FromFolder);
    assert_eq!(removal.outcome, Ok(()));
    assert_eq!(db.images.len(), 1);
    assert_eq!(dir.files, vec!["image_1_1.png".to_string()]);
}

#[test]
fn preview_steps_around_the_list() {
    assert_eq!(change_preview(0, true, 3), 1);
    assert_eq!(change_preview(2, true, 3), 0);
    assert_eq!(change_preview(0, false, 3), 2);
    assert_eq!(change_preview(2, false, 3), 1);
    assert_eq!(change_preview(0, true, 1), 0);
    assert_eq!(change_preview(0, false, 1), 0);
}
