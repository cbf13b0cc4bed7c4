use organizer::config::Settings;
use organizer::dtos::image_dto::ImageDTO;
use organizer::dtos::tag_dto::TagDTO;
use organizer::models::enums::image_format::ImageFormat;
use organizer::models::enums::image_type::ImageType;
use organizer::models::tag_color::TagColor;
use organizer::services::file_service::{
    count_image_files_in_folder, delete_entire_folder, delete_image,
    delete_single_file_with_thumbnail, entry_directory, expand_folder_dto, extension_of,
    format_to_extension, image_file_name, is_image_file, is_original, join_path,
    render_folder_meta, save_image_file_with_thumbnail, save_images_from_folder_with_thumbnails,
    thumb_file_name,
    thumbnail_name, ArtifactFolder, DeleteError, FileAction, SaveError, SourceFile,
};
use organizer::services::natural_order::natural_arrangement;
use organizer::services::image_processor::open_image;
use organizer::services::thumbnail_service::{
    save_image_as, save_image_as_png, CodecError, PixelLayout, Raster,
};

fn names(list: &[&str]) -> Vec<String> {
    list.iter().map(|s| s.to_string()).collect()
}

fn folder(name: &str, files: &[&str]) -> ArtifactFolder {
    ArtifactFolder { name: name.to_string(), files: names(files), present: true }
}

fn action_names(actions: &[FileAction]) -> Vec<String> {
    actions
        .iter()
        .map(|a| match a {
            FileAction::RemoveFile(name) => format!("file:{}", name),
            FileAction::RemoveFolder => "folder".to_string(),
        })
        .collect()
}

fn png(width: u32, height: u32, shade: u8) -> Vec<u8> {
    let image = Raster {
        width,
        height,
        layout: PixelLayout::Rgb8,
        data: vec![shade; (width * height * 3) as usize],
    };
    save_image_as_png(&image, 5).unwrap()
}

fn parent() -> ImageDTO {
    ImageDTO {
        id: 12,
        path: "/data/images/12".to_string(),
        thumbnail_path: "/data/images/12/thumb_image_12_0.png".to_string(),
        description: "holiday".to_string(),
        tags: vec![TagDTO { id: 3, name: "sea".to_string(), color: TagColor::Teal }],
        created_at: "2024-05-01".to_string(),
        is_folder: true,
        is_prepared: true,
    }
}

#[test]
fn natural_order_counts_digits_by_value() {
    let order = natural_arrangement(&names(&["img2.png", "img10.png", "img1.png"]));
    assert_eq!(order, vec![2, 0, 1]);
}

#[test]
fn natural_order_keeps_equal_names_in_place() {
    let order = natural_arrangement(&names(&["b", "a", "b", "a"]));
    assert_eq!(order, vec![1, 3, 0, 2]);
    assert_eq!(natural_arrangement(&Vec::new()), Vec::<usize>::new());
}

#[test]
fn expanded_folder_lists_originals_in_natural_order() {
    let files = names(&[
        "img2.png",
        "thumb_img2.png",
        "img10.png",
        "meta.json",
        "img1.png",
        "thumb_folder.png",
        "notes.txt",
    ]);
    let children = expand_folder_dto(&parent(), &files);
    let paths: Vec<&str> = children.iter().map(|c| c.path.as_str()).collect();
    assert_eq!(
        paths,
        vec!["/data/images/12/img1.png", "/data/images/12/img2.png", "/data/images/12/img10.png"]
    );
    let thumbs: Vec<&str> = children.iter().map(|c| c.thumbnail_path.as_str()).collect();
    assert_eq!(
        thumbs,
        vec![
            "/data/images/12/thumb_img1.png",
            "/data/images/12/thumb_img2.png",
            "/data/images/12/thumb_img10.png"
        ]
    );
    let ids: Vec<i64> = children.iter().map(|c| c.id).collect();
    assert_eq!(ids, vec![0, 1, 2]);
    for child in &children {
        assert_eq!(child.description, "holiday");
        assert_eq!(child.created_at, "2024-05-01");
        assert_eq!(child.tags.len(), 1);
        assert_eq!(child.tags[0].name, "sea");
        assert!(!child.is_folder);
        assert!(child.is_prepared);
    }
}

#[test]
fn expanded_child_inherits_whether_it_is_prepared() {
    let mut entry = parent();
    entry.is_prepared = false;
    let children = expand_folder_dto(&entry, &names(&["a.png"]));
    assert_eq!(children.len(), 1);
    assert!(!children[0].is_prepared);
}

#[test]
fn expanded_empty_folder_is_empty() {
    assert!(expand_folder_dto(&parent(), &Vec::new()).is_empty());
    assert!(expand_folder_dto(&parent(), &names(&["thumb_a.png", "meta.json"])).is_empty());
}

#[test]
fn image_files_are_told_by_their_extension() {
    for name in ["a.png", "a.JPG", "a.jpeg", "a.Gif", "a.bmp", "a.TIFF", "a.webp", "x.y.png"] {
        assert!(is_image_file(name), "{}", name);
    }
    for name in ["a.txt", "png", ".png", "a.", "a.pngx", "meta.json", ""] {
        assert!(!is_image_file(name), "{}", name);
    }
}

#[test]
fn extension_is_what_follows_the_last_dot() {
    assert_eq!(extension_of("a.b.c"), Some("c".to_string()));
    assert_eq!(extension_of("a."), Some(String::new()));
    assert_eq!(extension_of(".hidden"), None);
    assert_eq!(extension_of("plain"), None);
}

#[test]
fn originals_are_neither_thumbnails_nor_metadata() {
    assert!(is_original("image_3_0.jpg"));
    assert!(!is_original("thumb_image_3_0.png"));
    assert!(!is_original("meta.json"));
    assert_eq!(
        count_image_files_in_folder(&names(&[
            "image_3_0.jpg",
            "thumb_image_3_0.png",
            "image_3_1.png",
            "thumb_folder.png",
            "meta.json"
        ])),
        2
    );
    assert_eq!(count_image_files_in_folder(&Vec::new()), 0);
}

#[test]
fn stored_names_follow_the_layout() {
    assert_eq!(image_file_name(7, None, ImageFormat::Jpeg), "image_7.jpg");
    assert_eq!(image_file_name(7, Some(0), ImageFormat::Png), "image_7_0.png");
    assert_eq!(image_file_name(120, Some(13), ImageFormat::Tiff), "image_120_13.tiff");
    assert_eq!(image_file_name(-5, None, ImageFormat::WebP), "image_-5.webp");
    assert_eq!(
        image_file_name(i64::MIN, None, ImageFormat::Gif),
        "image_-9223372036854775808.gif"
    );
    assert_eq!(thumb_file_name(7, None), "thumb_image_7.png");
    assert_eq!(thumb_file_name(7, Some(10)), "thumb_image_7_10.png");
    assert_eq!(entry_directory("/app/images", 42), "/app/images/42");
    assert_eq!(join_path("a", "b"), "a/b");
    assert_eq!(format_to_extension(ImageFormat::Bmp), "bmp");
}

#[test]
fn thumbnail_of_a_stored_file_has_its_base_name() {
    assert_eq!(thumbnail_name("image_4_1.jpg"), "thumb_image_4_1.png");
    assert_eq!(thumbnail_name("image_4.tar.gz"), "thumb_image_4.png");
    assert_eq!(thumbnail_name("photo.jpg"), "thumb_photo.jpg");
}

#[test]
fn deleting_from_a_folder_of_two_files() {
    let mut dir = folder(
        "5",
        &[
            "image_5_0.png",
            "thumb_image_5_0.png",
            "image_5_1.png",
            "thumb_image_5_1.png",
            "thumb_folder.png",
            "meta.json",
        ],
    );
    let first = delete_image(&mut dir, "image_5_0.png", ImageType::FromFolder);
    assert_eq!(first.outcome, Ok(()));
    assert_eq!(
        action_names(&first.actions),
        vec!["file:image_5_0.png", "file:thumb_image_5_0.png"]
    );
    assert!(dir.present);
    assert_eq!(
        dir.files,
        names(&["image_5_1.png", "thumb_image_5_1.png", "thumb_folder.png", "meta.json"])
    );

    let second = delete_image(&mut dir, "image_5_1.png", ImageType::FromFolder);
    assert_eq!(second.outcome, Ok(()));
    assert_eq!(
        action_names(&second.actions),
        vec!["file:image_5_1.png", "file:thumb_image_5_1.png", "folder"]
    );
    assert!(!dir.present);
    assert!(dir.files.is_empty());
}

#[test]
fn deleting_a_single_image_removes_its_directory() {
    let mut dir = folder("9", &["image_9.jpg", "thumb_image_9.png"]);
    let removal = delete_image(&mut dir, "image_9.jpg", ImageType::Image);
    assert_eq!(removal.outcome, Ok(()));
    assert_eq!(
        action_names(&removal.actions),
        vec!["file:image_9.jpg", "file:thumb_image_9.png", "folder"]
    );
    assert!(!dir.present);
}

#[test]
fn deleting_a_folder_entry_removes_the_whole_directory() {
    let mut dir = folder("3", &["image_3_0.png", "thumb_image_3_0.png", "meta.json"]);
    let removal = delete_image(&mut dir, "", ImageType::Folder);
    assert_eq!(removal.outcome, Ok(()));
    assert_eq!(action_names(&removal.actions), vec!["folder"]);
    assert!(!dir.present);
    assert!(dir.files.is_empty());
}

#[test]
fn deleting_twice_does_not_fail() {
    let mut dir = folder("9", &["image_9.jpg", "thumb_image_9.png"]);
    assert_eq!(delete_image(&mut dir, "image_9.jpg", ImageType::Image).outcome, Ok(()));
    let again = delete_image(&mut dir, "image_9.jpg", ImageType::Image);
    assert_eq!(again.outcome, Ok(()));
    assert!(again.actions.is_empty());
    let again = delete_image(&mut dir, "", ImageType::Folder);
    assert_eq!(again.outcome, Ok(()));
    assert!(again.actions.is_empty());
}

#[test]
fn deleting_a_missing_file_changes_nothing() {
    let mut dir = folder("5", &["image_5_0.png", "thumb_image_5_0.png"]);
    let removal = delete_image(&mut dir, "image_5_7.png", ImageType::FromFolder);
    assert_eq!(removal.outcome, Ok(()));
    assert!(removal.actions.is_empty());
    assert_eq!(dir.files.len(), 2);
    let removal = delete_image(&mut dir, "image_5_7.png", ImageType::Image);
    assert!(removal.actions.is_empty());
    assert!(dir.present);
}

#[test]
fn the_root_of_the_store_is_never_removed() {
    let mut root = folder("images", &["image_1.png", "thumb_image_1.png"]);
    let removal = delete_image(&mut root, "", ImageType::Folder);
    assert_eq!(removal.outcome, Err(DeleteError::RootFolder));
    assert!(removal.actions.is_empty());
    assert!(root.present);

    let removal = delete_image(&mut root, "image_1.png", ImageType::Image);
    assert_eq!(removal.outcome, Err(DeleteError::RootFolder));
    assert_eq!(
        action_names(&removal.actions),
        vec!["file:image_1.png", "file:thumb_image_1.png"]
    );
    assert!(root.present);
    assert_eq!(DeleteError::RootFolder.message(), "Cannot delete root images folder");
    assert_eq!(delete_entire_folder(&mut root).outcome, Err(DeleteError::RootFolder));
}

#[test]
fn single_file_goes_with_its_thumbnail_only() {
    let mut dir = folder("2", &["a.png", "thumb_a.png", "b.png"]);
    let actions = delete_single_file_with_thumbnail(&mut dir, "a.png");
    assert_eq!(action_names(&actions), vec!["file:a.png", "file:thumb_a.png"]);
    assert_eq!(dir.files, names(&["b.png"]));
    let actions = delete_single_file_with_thumbnail(&mut dir, "b.png");
    assert_eq!(action_names(&actions), vec!["file:b.png"]);
    assert!(dir.present);
}

#[test]
fn single_image_is_saved_under_its_identifier() {
    let image = Raster {
        width: 600,
        height: 300,
        layout: PixelLayout::Rgb8,
        data: vec![77; 600 * 300 * 3],
    };
    let settings = Settings::load(None);
    let saved =
        save_image_file_with_thumbnail(31, "/app/images", &image, ImageFormat::Jpeg, &settings)
            .unwrap();
    assert_eq!(saved.directory, "/app/images/31");
    assert_eq!(saved.image.name, "image_31.jpg");
    assert_eq!(saved.thumbnail.name, "thumb_image_31.png");
    assert_eq!(saved.image_path, "/app/images/31/image_31.jpg");
    assert_eq!(saved.thumbnail_path, "/app/images/31/thumb_image_31.png");
    let original = open_image(&saved.image.bytes).unwrap();
    assert_eq!((original.width, original.height), (600, 300));
    let thumb = open_image(&saved.thumbnail.bytes).unwrap();
    assert_eq!((thumb.width, thumb.height), (500, 250));
}

#[test]
fn malformed_single_image_is_not_saved() {
    let image = Raster { width: 5, height: 5, layout: PixelLayout::Rgb8, data: vec![1; 3] };
    let settings = Settings::load(None);
    let result = save_image_file_with_thumbnail(1, "/r", &image, ImageFormat::Png, &settings);
    assert_eq!(result.err(), Some(SaveError::Codec(CodecError::Malformed)));
}

#[test]
fn folder_is_imported_in_natural_order() {
    let jpeg = save_image_as(
        &Raster { width: 8, height: 8, layout: PixelLayout::Rgb8, data: vec![10; 192] },
        ImageFormat::Jpeg,
    )
    .unwrap();
    let sources = vec![
        SourceFile { name: "img2.png".to_string(), bytes: png(4, 4, 20) },
        SourceFile { name: "readme.txt".to_string(), bytes: b"hello".to_vec() },
        SourceFile { name: "img10.png".to_string(), bytes: jpeg.clone() },
        SourceFile { name: "img1.png".to_string(), bytes: png(1000, 500, 30) },
    ];
    let settings = Settings::load(None);
    let import =
        save_images_from_folder_with_thumbnails(8, "/app/images", &sources, &settings).unwrap();
    assert_eq!(import.directory, "/app/images/8");
    assert_eq!(import.order, vec![2, 0, 1]);
    let stored: Vec<&str> = import.originals.iter().map(|f| f.name.as_str()).collect();
    assert_eq!(stored, vec!["image_8_0.png", "image_8_1.png", "image_8_2.jpg"]);
    assert_eq!(import.originals[0].bytes, sources[3].bytes);
    assert_eq!(import.originals[1].bytes, sources[0].bytes);
    assert_eq!(import.originals[2].bytes, jpeg);
    let thumbs: Vec<&str> = import.thumbnails.iter().map(|f| f.name.as_str()).collect();
    assert_eq!(thumbs, vec!["thumb_image_8_0.png", "thumb_image_8_1.png", "thumb_image_8_2.png"]);
    let first = open_image(&import.thumbnails[0].bytes).unwrap();
    assert_eq!((first.width, first.height), (500, 250));
    assert_eq!(import.folder_thumbnail.name, "thumb_folder.png");
    assert_eq!(import.folder_thumbnail.bytes, import.thumbnails[0].bytes);
    assert_eq!(import.saved_paths.len(), 3);
    assert_eq!(import.saved_paths[0].0, "/app/images/8");
    assert_eq!(import.saved_paths[0].1, "/app/images/8/thumb_image_8_0.png");
    assert_eq!(import.saved_paths[2].1, "/app/images/8/thumb_image_8_2.png");
    assert_eq!(import.metadata_name, "meta.json");
    let meta: serde_json::Value = serde_json::from_str(&import.metadata).unwrap();
    assert_eq!(meta["image_count"], serde_json::Value::from(3u64));
    assert_eq!(meta["next_index"], serde_json::Value::from(3u64));
    assert_eq!(
        meta["folder_thumb"],
        serde_json::Value::from("/app/images/8/thumb_folder.png")
    );
    assert!(import.metadata.contains('\n'));
}

#[test]
fn folder_without_images_is_refused() {
    let sources = vec![SourceFile { name: "readme.txt".to_string(), bytes: b"hello".to_vec() }];
    let settings = Settings::load(None);
    let result = save_images_from_folder_with_thumbnails(8, "/r", &sources, &settings);
    assert_eq!(result.err(), Some(SaveError::EmptyFolder));
    let result = save_images_from_folder_with_thumbnails(8, "/r", &Vec::new(), &settings);
    assert_eq!(result.err(), Some(SaveError::EmptyFolder));
    assert_eq!(SaveError::EmptyFolder.message(), "No valid image found in the folder");
}

#[test]
fn folder_with_a_broken_image_is_refused() {
    let sources = vec![SourceFile { name: "a.png".to_string(), bytes: b"no image".to_vec() }];
    let settings = Settings::load(None);
    let result = save_images_from_folder_with_thumbnails(8, "/r", &sources, &settings);
    assert_eq!(result.err(), Some(SaveError::Codec(CodecError::Decode)));
}

#[test]
fn metadata_is_an_object_of_three_members() {
    let text = render_folder_meta(3, 4, "/app/images/8/thumb_folder.png").unwrap();
    assert_eq!(
        text,
        "{\n  \"folder_thumb\": \"/app/images/8/thumb_folder.png\",\n  \"image_count\": 3,\n  \"next_index\": 4\n}"
    );
}
