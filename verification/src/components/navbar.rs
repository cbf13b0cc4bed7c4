use crate::config::Settings;
use vstd::prelude::*;

verus! {

/// The places the navigation bar leads to.
#[derive(Clone, Copy, Debug, PartialEq, Eq, Structural)]
pub enum NavButton {
    Home,
    Search,
    Workspace,
    ManageTags,
    Preferences,
}

/// What happens to the navigation bar.
#[derive(Clone, Copy, Debug, PartialEq, Eq, Structural)]
pub enum Message {
    /// A button was chosen; the press follows.
    ButtonSignal(NavButton),
    /// A button was pressed.
    ButtonPressed(NavButton),
    /// Nothing happened.
    NoOps,
}

/// What the navigation bar asks of its owner.
#[derive(Clone, Copy, Debug, PartialEq, Eq, Structural)]
pub enum Action {
    /// Hand this message back to the bar.
    Run(Message),
    /// Go to this place.
    Navigate(NavButton),
    /// Nothing.
    Idle,
}

/// The navigation bar: the place that is selected, and the settings it is
/// drawn with.
pub struct Navbar {
    pub selected: NavButton,
    pub settings: Settings,
}

impl Navbar {
    /// A bar with the search selected.
    pub fn new(settings: Settings) -> (bar: Navbar)
        ensures
            bar.selected == NavButton::Search,
            bar.settings == settings,
    {
        Navbar { selected: NavButton::Search, settings }
    }

    /// Takes a message: a chosen button is selected and its press is asked
    /// for; a pressed button is selected and navigated to.
    pub fn update(&mut self, message: Message) -> (action: Action)
        ensures
            final(self).settings == old(self).settings,
            match message {
                Message::ButtonSignal(id) => final(self).selected == id && action == Action::Run(
                    Message::ButtonPressed(id),
                ),
                Message::ButtonPressed(id) => final(self).selected == id && action
                    == Action::Navigate(id),
                Message::NoOps => final(self).selected == old(self).selected && action
                    == Action::Idle,
            },
    {
        match message {
            Message::ButtonSignal(id) => {
                self.selected = id;
                Action::Run(Message::ButtonPressed(id))
            },
            Message::ButtonPressed(id) => {
                self.selected = id;
                Action::Navigate(id)
            },
            Message::NoOps => Action::Idle,
        }
    }
}

} // verus!
