use organizer::components::navbar::{Action, Message, NavButton, Navbar};
use organizer::components::pagination::pagination;
use organizer::components::tag_selector::{self, TagSelector};
use organizer::components::toast_view::ToastView;
use organizer::config::{
    get_current_page, get_scroll_offset, get_search_query, get_selected_tags, get_settings,
    get_settings_mut, get_ui_state, reset_ui_state, set_current_page, set_scroll_offset,
    set_search_query, set_selected_tags, Config, Session, Settings, UIState,
};
use organizer::dtos::tag_dto::TagDTO;
use organizer::models::enums::image_format::ImageFormat;
use organizer::models::enums::image_type::ImageType;
use organizer::models::tag_color::TagColor;
use organizer::models::toast::{Toast, ToastKind};
use organizer::screen::preferences::{self, Preferences};
use organizer::services::clipboard_service::{
    clipboard_path, get_clipboard_image, is_image_mime, load_image_from_path,
};
use organizer::services::thumbnail_service::{save_image_as_png, PixelLayout, Raster};
use organizer::services::toast_service::{
    push_error, push_success, push_toast, take_toast_receiver, ToastQueue,
};
use organizer::text::{
    chars_of, decimal_chars, string_of, text_contains, text_starts_with, trim_chars,
};
use organizer::utils::{capitalize_first, get_assets_path};

#[test]
fn image_type_is_read_from_its_name() {
    assert_eq!(ImageType::from_str("folder"), ImageType::Folder);
    assert_eq!(ImageType::from_str("image"), ImageType::Image);
    assert_eq!(ImageType::from_str("from_folder"), ImageType::FromFolder);
    assert_eq!(ImageType::from_str("anything"), ImageType::Image);
    assert_eq!(ImageType::from_str(""), ImageType::Image);
    assert_eq!(ImageType::Folder.to_string(), "folder");
    assert_eq!(ImageType::Image.to_string(), "image");
    assert_eq!(ImageType::FromFolder.to_string(), "from_folder");
}

#[test]
fn tag_colours_have_names() {
    assert_eq!(TagColor::all().len(), 9);
    for color in TagColor::all() {
        assert_eq!(TagColor::from_str(color.as_str()), Some(color));
    }
    assert_eq!(TagColor::from_str("RED"), Some(TagColor::Red));
    assert_eq!(TagColor::from_str("Teal"), Some(TagColor::Teal));
    assert_eq!(TagColor::from_str("magenta"), None);
    assert_eq!(TagColor::default(), TagColor::Blue);
    assert_eq!(TagColor::Gray.as_str(), "gray");
}

#[test]
fn known_formats_are_tried_in_order() {
    assert_eq!(
        ImageFormat::known(),
        vec![
            ImageFormat::Jpeg,
            ImageFormat::Png,
            ImageFormat::Gif,
            ImageFormat::WebP,
            ImageFormat::Tiff,
            ImageFormat::Bmp
        ]
    );
}

#[test]
fn first_letter_is_capitalized() {
    assert_eq!(capitalize_first("hello world"), "Hello world");
    assert_eq!(capitalize_first(""), "");
    assert_eq!(capitalize_first("ärger"), "Ärger");
    assert_eq!(capitalize_first("ßa"), "SSa");
    assert_eq!(capitalize_first("1a"), "1a");
}

#[test]
fn assets_lie_beside_the_program() {
    assert_eq!(get_assets_path("/opt/app", false), "/opt/app/config");
    assert_eq!(get_assets_path("/opt/app", true), "./src/config/");
}

#[test]
fn text_helpers_work_on_characters() {
    assert_eq!(chars_of("aé"), vec!['a', 'é']);
    assert_eq!(string_of(&vec!['x', 'ß']), "xß");
    assert_eq!(string_of(&trim_chars(&chars_of(" \t a b \n"))), "a b");
    assert_eq!(string_of(&trim_chars(&chars_of("   "))), "");
    assert_eq!(string_of(&decimal_chars(0)), "0");
    assert_eq!(string_of(&decimal_chars(1203)), "1203");
    assert_eq!(string_of(&decimal_chars(-45)), "-45");
    assert_eq!(string_of(&decimal_chars(i64::MAX)), "9223372036854775807");
    assert!(text_contains("hello", "ell"));
    assert!(text_contains("hello", ""));
    assert!(!text_contains("hello", "elo"));
    assert!(!text_contains("", "a"));
    assert!(text_starts_with("thumb_a", "thumb_"));
    assert!(!text_starts_with("thum", "thumb_"));
}

#[test]
fn settings_default_where_nothing_is_stored() {
    let settings = Settings::load(None);
    assert_eq!(settings.config.theme, "dark");
    assert_eq!(settings.config.language, "en");
    assert_eq!(settings.config.items_per_page, 35);
    assert_eq!(settings.config.thumb_compression, Some(9));
    assert_eq!(settings.config.image_compression, Some(5));
    let stored = Config {
        theme: "light".to_string(),
        language: "pt".to_string(),
        items_per_page: 10,
        thumb_compression: None,
        image_compression: Some(2),
    };
    let settings = Settings::load(Some(stored));
    assert_eq!(settings.config.theme, "light");
    assert_eq!(settings.thumb_compression(), 9);
    assert_eq!(settings.image_compression(), 2);
    assert_eq!(Config::default().items_per_page, 35);
}

#[test]
fn session_remembers_the_search() {
    let mut session = Session::new(Settings::load(None));
    assert_eq!(get_settings(&session).config.theme, "dark");
    get_settings_mut(&mut session).config.theme = "light".to_string();
    assert_eq!(get_settings(&session).config.theme, "light");
    let state = &mut session.ui_state;
    assert_eq!(get_search_query(state), "");
    assert_eq!(get_current_page(state), 0);
    set_search_query(state, "cat".to_string());
    set_current_page(state, 4);
    set_scroll_offset(state, 120);
    set_selected_tags(
        state,
        vec![TagDTO { id: 2, name: "x".to_string(), color: TagColor::Red }],
    );
    assert_eq!(get_search_query(state), "cat");
    assert_eq!(get_current_page(state), 4);
    assert_eq!(get_scroll_offset(state), 120);
    assert_eq!(get_selected_tags(state).len(), 1);
    assert_eq!(get_selected_tags(state)[0].name, "x");
    let copy = get_ui_state(state);
    assert_eq!(copy.search_query, "cat");
    assert_eq!(copy.current_page, 4);
    reset_ui_state(state);
    assert_eq!(get_search_query(state), "");
    assert_eq!(get_current_page(state), 0);
    assert_eq!(get_scroll_offset(state), 0);
    assert!(get_selected_tags(state).is_empty());
    assert_eq!(UIState::default().current_page, 0);
}

#[test]
fn toasts_are_numbered_in_order() {
    let mut queue = ToastQueue::new();
    push_success(&mut queue, "saved".to_string());
    push_error(&mut queue, "failed".to_string());
    let fresh = Toast::new(ToastKind::Error, "late".to_string(), 500);
    assert_eq!(fresh.id, None);
    push_toast(&mut queue, fresh);
    let taken = take_toast_receiver(&mut queue);
    assert_eq!(taken.len(), 3);
    assert_eq!(taken[0].id, Some(1));
    assert_eq!(taken[0].kind, ToastKind::Success);
    assert_eq!(taken[0].message, "saved");
    assert_eq!(taken[0].duration_ms, 3000);
    assert_eq!(taken[1].id, Some(2));
    assert_eq!(taken[1].kind, ToastKind::Error);
    assert_eq!(taken[2].id, Some(3));
    assert_eq!(taken[2].duration_ms, 500);
    assert!(take_toast_receiver(&mut queue).is_empty());
    assert_eq!(queue.next_id, 4);
    queue.next_id = u32::MAX;
    push_success(&mut queue, "last".to_string());
    assert_eq!(queue.next_id, 0);
    let view = ToastView::new(take_toast_receiver(&mut queue).remove(0));
    assert_eq!(view.toast.id, Some(u32::MAX));
}

#[test]
fn navbar_selects_and_navigates() {
    let mut bar = Navbar::new(Settings::load(None));
    assert_eq!(bar.selected, NavButton::Search);
    let action = bar.update(Message::ButtonSignal(NavButton::ManageTags));
    assert_eq!(action, Action::Run(Message::ButtonPressed(NavButton::ManageTags)));
    assert_eq!(bar.selected, NavButton::ManageTags);
    let action = bar.update(Message::ButtonPressed(NavButton::Preferences));
    assert_eq!(action, Action::Navigate(NavButton::Preferences));
    assert_eq!(bar.selected, NavButton::Preferences);
    assert_eq!(bar.update(Message::NoOps), Action::Idle);
    assert_eq!(bar.selected, NavButton::Preferences);
}

#[test]
fn page_buttons_show_a_window_of_five() {
    assert!(!pagination(0, 0).visible);
    assert!(!pagination(0, 1).visible);
    let row = pagination(0, 3);
    assert!(row.visible && !row.previous && row.next);
    assert_eq!((row.start, row.end), (0, 3));
    assert!(!row.first && !row.last && !row.gap_before && !row.gap_after);
    let row = pagination(5, 20);
    assert_eq!((row.start, row.end), (3, 8));
    assert!(row.previous && row.next && row.first && row.last && row.gap_before && row.gap_after);
    let row = pagination(3, 7);
    assert_eq!((row.start, row.end), (1, 6));
    assert!(row.first && !row.gap_before && row.last && !row.gap_after);
    let row = pagination(19, 20);
    assert_eq!((row.start, row.end), (17, 20));
    assert!(!row.next && !row.last);
    let row = pagination(u64::MAX, 5);
    assert_eq!(row.end, 5);
}

#[test]
fn preferences_hold_values_within_their_bounds() {
    let mut settings = Settings::load(None);
    let mut screen = Preferences::new(&settings, vec!["en".to_string(), "pt".to_string()]);
    assert_eq!(screen.theme, "dark");
    assert_eq!(screen.selected_language, "en");
    assert_eq!(screen.thumb_compression, 9);
    assert_eq!(screen.image_compression, 5);
    assert_eq!(screen.available_languages.len(), 2);
    let action =
        screen.update(&mut settings, preferences::Message::LanguageChanged("pt".to_string()));
    assert_eq!(action, preferences::Action::UpdateUI);
    assert_eq!(settings.config.language, "pt");
    assert_eq!(screen.selected_language, "pt");
    let action =
        screen.update(&mut settings, preferences::Message::ThemeChanged("Light".to_string()));
    assert_eq!(action, preferences::Action::UpdateUI);
    assert_eq!(settings.config.theme, "Light");
    screen.update(&mut settings, preferences::Message::ItemsPerPageChanged(0));
    assert_eq!(settings.config.items_per_page, 1);
    screen.update(&mut settings, preferences::Message::ItemsPerPageChanged(500));
    assert_eq!(settings.config.items_per_page, 100);
    screen.update(&mut settings, preferences::Message::ItemsPerPageChanged(42));
    assert_eq!((settings.config.items_per_page, screen.items_per_page), (42, 42));
    screen.update(&mut settings, preferences::Message::ThumbCompressionChanged(12));
    assert_eq!(settings.config.thumb_compression, Some(9));
    screen.update(&mut settings, preferences::Message::ImageCompressionChanged(3));
    assert_eq!(settings.config.image_compression, Some(3));
    assert_eq!(
        screen.update(&mut settings, preferences::Message::NoOps),
        preferences::Action::Idle
    );
}

#[test]
fn clipboard_prefers_the_image_to_the_path() {
    let image = Raster { width: 2, height: 2, layout: PixelLayout::Rgba8, data: vec![7; 16] };
    let file = save_image_as_png(
        &Raster { width: 3, height: 1, layout: PixelLayout::Rgb8, data: vec![1; 9] },
        1,
    )
    .unwrap();
    let (found, format) = get_clipboard_image(Some(image), Some(file.clone())).unwrap();
    assert_eq!((found.width, found.height, format), (2, 2, ImageFormat::Png));
    let (found, format) = get_clipboard_image(None, Some(file.clone())).unwrap();
    assert_eq!((found.width, found.height, format), (3, 1, ImageFormat::Png));
    assert!(get_clipboard_image(None, None).is_none());
    assert!(get_clipboard_image(None, Some(b"just text".to_vec())).is_none());
    assert!(load_image_from_path(b"%PDF-1.4 something").is_none());
    assert!(load_image_from_path(&[0xFF, 0xD8, 0xFF, 0xAA]).is_none());
    assert_eq!(clipboard_path("  /tmp/a.png\n"), "/tmp/a.png");
    assert!(is_image_mime(&Some("image/png".to_string())));
    assert!(is_image_mime(&Some("image/".to_string())));
    assert!(!is_image_mime(&Some("application/pdf".to_string())));
    assert!(!is_image_mime(&Some("imag".to_string())));
    assert!(!is_image_mime(&None));
}

#[test]
fn tag_colours_have_shades() {
    assert_eq!(TagColor::Red.shade(), (90, 20, 20));
    assert_eq!(TagColor::Blue.shade(), (20, 50, 90));
    assert_eq!(TagColor::Gray.shade(), (50, 50, 50));
    for color in TagColor::all() {
        let (r, g, b) = color.shade();
        assert!(r <= 100 && g <= 100 && b <= 100);
    }
}

#[test]
fn tag_selector_toggles_and_opens_the_field() {
    let red = TagDTO { id: 1, name: "a".to_string(), color: TagColor::Red };
    let blue = TagDTO { id: 2, name: "b".to_string(), color: TagColor::Blue };
    let mut selector = TagSelector::new(vec![red.duplicate(), blue.duplicate()], true, false);
    assert!(selector.selected_tags().is_empty());
    assert_eq!(
        selector.update(tag_selector::Message::ToggleTag(red.duplicate())),
        tag_selector::Action::Idle
    );
    selector.update(tag_selector::Message::ToggleTag(blue.duplicate()));
    let names: Vec<&str> = selector.selected_tags().iter().map(|t| t.name.as_str()).collect();
    assert_eq!(names, vec!["a", "b"]);
    selector.update(tag_selector::Message::ToggleTag(red.duplicate()));
    let names: Vec<&str> = selector.selected_tags().iter().map(|t| t.name.as_str()).collect();
    assert_eq!(names, vec!["b"]);
    let recoloured = TagDTO { id: 2, name: "b".to_string(), color: TagColor::Pink };
    selector.update(tag_selector::Message::ToggleTag(recoloured));
    assert_eq!(selector.selected_tags().len(), 2);

    selector.update(tag_selector::Message::CreateNewTagPressed);
    assert!(selector.show_new_tag_input);
    selector.update(tag_selector::Message::NewTagNameChanged("sea".to_string()));
    assert_eq!(selector.new_tag_name, "sea");
    let action = selector.update(tag_selector::Message::CreateNewTag("sea".to_string()));
    assert_eq!(action, tag_selector::Action::CreateTag("sea".to_string()));
    assert!(!selector.show_new_tag_input);
    assert_eq!(selector.new_tag_name, "");
    let action = selector.update(tag_selector::Message::TagCreateResult(Ok(vec![red])));
    assert_eq!(action, tag_selector::Action::Created);
    assert_eq!(selector.available.len(), 1);
    let action =
        selector.update(tag_selector::Message::TagCreateResult(Err("no".to_string())));
    assert_eq!(action, tag_selector::Action::Failed);
    assert_eq!(selector.available.len(), 1);
    selector.update(tag_selector::Message::CreateNewTagPressed);
    assert_eq!(
        selector.update(tag_selector::Message::CancelNewTag),
        tag_selector::Action::Idle
    );
    assert!(!selector.show_new_tag_input);
}

#[test]
fn white_space_is_what_the_standard_library_takes_for_it() {
    for n in 0..=0x10FFFFu32 {
        if let Some(c) = char::from_u32(n) {
            assert_eq!(organizer::text::is_whitespace(c), c.is_whitespace(), "{:#x}", n);
        }
    }
}
