use crate::config::Settings;
use vstd::prelude::*;

verus! {

/// The least and the greatest number of entries a page may have.
pub const MIN_ITEMS_PER_PAGE: u64 = 1;

pub const MAX_ITEMS_PER_PAGE: u64 = 100;

/// The greatest compression level.
pub const MAX_COMPRESSION: u8 = 9;

/// What the user changes on the preferences screen.
pub enum Message {
    LanguageChanged(String),
    ThemeChanged(String),
    ItemsPerPageChanged(u64),
    ThumbCompressionChanged(u8),
    ImageCompressionChanged(u8),
    NoOps,
}

/// What the preferences screen asks of its owner.
#[derive(Clone, Copy, Debug, PartialEq, Eq, Structural)]
pub enum Action {
    /// Nothing.
    Idle,
    /// Draw everything anew: the language or the theme has changed.
    UpdateUI,
}

/// The preferences screen: what it shows of the settings.
pub struct Preferences {
    pub available_languages: Vec<String>,
    pub theme: String,
    pub items_per_page: u64,
    pub thumb_compression: u8,
    pub image_compression: u8,
    pub selected_language: String,
}

/// `value` held within `low` and `high`.
pub open spec fn spec_clamp(value: int, low: int, high: int) -> int {
    if value < low {
        low
    } else if value > high {
        high
    } else {
        value
    }
}

impl Preferences {
    /// The screen for the given settings.
    pub fn new(settings: &Settings, available_languages: Vec<String>) -> (screen: Preferences)
        ensures
            screen.available_languages == available_languages,
            screen.theme@ == settings.config.theme@,
            screen.selected_language@ == settings.config.language@,
            screen.items_per_page == settings.config.items_per_page,
            screen.thumb_compression == settings.spec_thumb_compression(),
            screen.image_compression == settings.spec_image_compression(),
    {
        Preferences {
            available_languages,
            theme: settings.config.theme.clone(),
            items_per_page: settings.config.items_per_page,
            thumb_compression: settings.thumb_compression(),
            image_compression: settings.image_compression(),
            selected_language: settings.config.language.clone(),
        }
    }

    /// Takes a change into the settings and into the screen. The number of
    /// entries a page is held within 1 and 100, a compression level within 0
    /// and 9. The settings are to be saved by the caller afterwards.
    pub fn update(&mut self, settings: &mut Settings, message: Message) -> (action: Action)
        ensures
            match message {
                Message::LanguageChanged(language) => {
                    &&& action == Action::UpdateUI
                    &&& final(settings).config.language@ == language@
                    &&& final(self).selected_language@ == language@
                    &&& final(settings).config.theme == old(settings).config.theme
                    &&& final(settings).config.items_per_page == old(settings).config.items_per_page
                },
                Message::ThemeChanged(theme) => {
                    &&& action == Action::UpdateUI
                    &&& final(settings).config.theme@ == theme@
                    &&& final(self).theme@ == theme@
                    &&& final(settings).config.language == old(settings).config.language
                    &&& final(settings).config.items_per_page == old(settings).config.items_per_page
                },
                Message::ItemsPerPageChanged(count) => {
                    &&& action == Action::Idle
                    &&& final(self).items_per_page == spec_clamp(
                        count as int,
                        MIN_ITEMS_PER_PAGE as int,
                        MAX_ITEMS_PER_PAGE as int,
                    )
                    &&& final(settings).config.items_per_page == final(self).items_per_page
                },
                Message::ThumbCompressionChanged(level) => {
                    &&& action == Action::Idle
                    &&& final(self).thumb_compression == spec_clamp(
                        level as int,
                        0,
                        MAX_COMPRESSION as int,
                    )
                    &&& final(settings).config.thumb_compression == Some(
                        final(self).thumb_compression,
                    )
                    &&& final(settings).config.image_compression == old(
                        settings,
                    ).config.image_compression
                },
                Message::ImageCompressionChanged(level) => {
                    &&& action == Action::Idle
                    &&& final(self).image_compression == spec_clamp(
                        level as int,
                        0,
                        MAX_COMPRESSION as int,
                    )
                    &&& final(settings).config.image_compression == Some(
                        final(self).image_compression,
                    )
                    &&& final(settings).config.thumb_compression == old(
                        settings,
                    ).config.thumb_compression
                },
                Message::NoOps => {
                    &&& action == Action::Idle
                    &&& *final(settings) == *old(settings)
                    &&& *final(self) == *old(self)
                },
            },
    {
        match message {
            Message::LanguageChanged(language) => {
                self.selected_language = language.clone();
                settings.config.language = language;
                Action::UpdateUI
            },
            Message::ThemeChanged(theme) => {
                self.theme = theme.clone();
                settings.config.theme = theme;
                Action::UpdateUI
            },
            Message::ItemsPerPageChanged(count) => {
                self.items_per_page = if count < MIN_ITEMS_PER_PAGE {
                    MIN_ITEMS_PER_PAGE
                } else if count > MAX_ITEMS_PER_PAGE {
                    MAX_ITEMS_PER_PAGE
                } else {
                    count
                };
                settings.config.items_per_page = self.items_per_page;
                Action::Idle
            },
            Message::ThumbCompressionChanged(level) => {
                self.thumb_compression = if level > MAX_COMPRESSION {
                    MAX_COMPRESSION
                } else {
                    level
                };
                settings.config.thumb_compression = Some(self.thumb_compression);
                Action::Idle
            },
            Message::ImageCompressionChanged(level) => {
                self.image_compression = if level > MAX_COMPRESSION {
                    MAX_COMPRESSION
                } else {
                    level
                };
                settings.config.image_compression = Some(self.image_compression);
                Action::Idle
            },
            Message::NoOps => Action::Idle,
        }
    }
}

} // verus!
