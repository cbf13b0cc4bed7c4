//! Settings that are kept between runs, and the state of one session.
//!
//! Both are plain values that the caller owns and hands to what needs them.

use crate::dtos::tag_dto::{duplicate_tags, tag_views, TagDTO, TagView};
use vstd::prelude::*;

verus! {

/// The thumbnail compression level used where none is configured.
pub const DEFAULT_THUMB_COMPRESSION: u8 = 9;

/// The image compression level used where none is configured.
pub const DEFAULT_IMAGE_COMPRESSION: u8 = 5;

/// The number of entries on a page where none is configured.
pub const DEFAULT_ITEMS_PER_PAGE: u64 = 35;

/// The configuration that is kept on disk.
pub struct Config {
    pub theme: String,
    pub language: String,
    pub items_per_page: u64,
    pub thumb_compression: Option<u8>,
    pub image_compression: Option<u8>,
}

impl Default for Config {
    /// A dark theme, English, 35 entries a page, thumbnails compressed at
    /// level 9 and images at level 5.
    fn default() -> (config: Config)
        ensures
            config.theme@ == "dark"@,
            config.language@ == "en"@,
            config.items_per_page == DEFAULT_ITEMS_PER_PAGE,
            config.thumb_compression == Some(DEFAULT_THUMB_COMPRESSION),
            config.image_compression == Some(DEFAULT_IMAGE_COMPRESSION),
    {
        Config {
            theme: "dark".to_owned(),
            language: "en".to_owned(),
            items_per_page: DEFAULT_ITEMS_PER_PAGE,
            thumb_compression: Some(DEFAULT_THUMB_COMPRESSION),
            image_compression: Some(DEFAULT_IMAGE_COMPRESSION),
        }
    }
}


/// The settings of a running program.
pub struct Settings {
    pub config: Config,
}

impl Settings {
    /// The settings for a stored configuration, or the defaults where none
    /// could be read.
    pub fn load(stored: Option<Config>) -> (settings: Settings)
        ensures
            match stored {
                Some(config) => settings.config == config,
                None => {
                    &&& settings.config.theme@ == "dark"@
                    &&& settings.config.language@ == "en"@
                    &&& settings.config.items_per_page == DEFAULT_ITEMS_PER_PAGE
                    &&& settings.config.thumb_compression == Some(DEFAULT_THUMB_COMPRESSION)
                    &&& settings.config.image_compression == Some(DEFAULT_IMAGE_COMPRESSION)
                },
            },
    {
        match stored {
            Some(config) => Settings { config },
            None => Settings { config: Config::default() },
        }
    }

    /// The compression level for thumbnails: the configured one, or 9.
    pub open spec fn spec_thumb_compression(&self) -> u8 {
        match self.config.thumb_compression {
            Some(level) => level,
            None => DEFAULT_THUMB_COMPRESSION,
        }
    }

    /// The compression level for images: the configured one, or 5.
    pub open spec fn spec_image_compression(&self) -> u8 {
        match self.config.image_compression {
            Some(level) => level,
            None => DEFAULT_IMAGE_COMPRESSION,
        }
    }

    /// The compression level for thumbnails: the configured one, or 9.
    pub fn thumb_compression(&self) -> (level: u8)
        ensures
            level == self.spec_thumb_compression(),
    {
        match self.config.thumb_compression {
            Some(level) => level,
            None => DEFAULT_THUMB_COMPRESSION,
        }
    }

    /// The compression level for images: the configured one, or 5.
    pub fn image_compression(&self) -> (level: u8)
        ensures
            level == self.spec_image_compression(),
    {
        match self.config.image_compression {
            Some(level) => level,
            None => DEFAULT_IMAGE_COMPRESSION,
        }
    }
}

/// What the search screen remembers while the user is elsewhere: the query,
/// the selected tags, the page and how far the list was scrolled, in pixels.
/// It lives for one session and is never written to disk.
pub struct UIState {
    pub search_query: String,
    pub selected_tags: Vec<TagDTO>,
    pub current_page: u64,
    pub scroll_offset: u32,
}

/// What the remembered state holds.
pub struct UIStateView {
    pub search_query: Seq<char>,
    pub selected_tags: Seq<TagView>,
    pub current_page: int,
    pub scroll_offset: int,
}

impl View for UIState {
    type V = UIStateView;

    open spec fn view(&self) -> UIStateView {
        UIStateView {
            search_query: self.search_query@,
            selected_tags: tag_views(self.selected_tags@),
            current_page: self.current_page as int,
            scroll_offset: self.scroll_offset as int,
        }
    }
}

/// The state of a session that has just begun: no query, no tags, the first
/// page, the top of the list.
pub open spec fn spec_initial_ui_state() -> UIStateView {
    UIStateView {
        search_query: Seq::empty(),
        selected_tags: Seq::empty(),
        current_page: 0,
        scroll_offset: 0,
    }
}

impl Default for UIState {
    fn default() -> (state: UIState)
        ensures
            state@ == spec_initial_ui_state(),
    {
        let state = UIState {
            search_query: String::new(),
            selected_tags: Vec::new(),
            current_page: 0,
            scroll_offset: 0,
        };
        assert(tag_views(state.selected_tags@) =~= Seq::<TagView>::empty());
        state
    }
}

/// A session: the settings and what the search screen remembers.
pub struct Session {
    pub settings: Settings,
    pub ui_state: UIState,
}

impl Session {
    /// A session that begins with the given settings.
    pub fn new(settings: Settings) -> (session: Session)
        ensures
            session.settings == settings,
            session.ui_state@ == spec_initial_ui_state(),
    {
        Session { settings, ui_state: UIState::default() }
    }
}

/// The settings of a session, to read.
pub fn get_settings(session: &Session) -> (settings: &Settings)
    ensures
        *settings == session.settings,
{
    &session.settings
}

/// The settings of a session, to change. The rest of the session is not touched.
pub fn get_settings_mut(session: &mut Session) -> (settings: &mut Settings)
    ensures
        *settings == old(session).settings,
        final(session).settings == *final(settings),
        final(session).ui_state == old(session).ui_state,
{
    &mut session.settings
}

/// Remembers the search query.
pub fn set_search_query(state: &mut UIState, query: String)
    ensures
        final(state)@ == (UIStateView { search_query: query@, ..old(state)@ }),
{
    state.search_query = query;
}

/// The remembered search query.
pub fn get_search_query(state: &UIState) -> (query: String)
    ensures
        query@ == state@.search_query,
{
    state.search_query.clone()
}

/// Remembers the selected tags.
pub fn set_selected_tags(state: &mut UIState, tags: Vec<TagDTO>)
    ensures
        final(state)@ == (UIStateView { selected_tags: tag_views(tags@), ..old(state)@ }),
{
    state.selected_tags = tags;
}

/// The remembered selection of tags.
pub fn get_selected_tags(state: &UIState) -> (tags: Vec<TagDTO>)
    ensures
        tag_views(tags@) == state@.selected_tags,
{
    duplicate_tags(&state.selected_tags)
}

/// Remembers the page.
pub fn set_current_page(state: &mut UIState, page: u64)
    ensures
        final(state)@ == (UIStateView { current_page: page as int, ..old(state)@ }),
{
    state.current_page = page;
}

/// The remembered page.
pub fn get_current_page(state: &UIState) -> (page: u64)
    ensures
        page == state@.current_page,
{
    state.current_page
}

/// Remembers how far the list was scrolled.
pub fn set_scroll_offset(state: &mut UIState, offset: u32)
    ensures
        final(state)@ == (UIStateView { scroll_offset: offset as int, ..old(state)@ }),
{
    state.scroll_offset = offset;
}

/// How far the list was scrolled.
pub fn get_scroll_offset(state: &UIState) -> (offset: u32)
    ensures
        offset == state@.scroll_offset,
{
    state.scroll_offset
}

/// Forgets everything: the state is that of a new session again.
pub fn reset_ui_state(state: &mut UIState)
    ensures
        final(state)@ == spec_initial_ui_state(),
{
    *state = UIState::default();
}

/// A copy of the remembered state.
pub fn get_ui_state(state: &UIState) -> (copy: UIState)
    ensures
        copy@ == state@,
{
    UIState {
        search_query: state.search_query.clone(),
        selected_tags: duplicate_tags(&state.selected_tags),
        current_page: state.current_page,
        scroll_offset: state.scroll_offset,
    }
}

} // verus!
