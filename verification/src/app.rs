//! The launcher's interface model: which screen is shown, the events
//! the interface produces, and what each event asks the surrounding
//! application to do. Drawing, timers, file writing and process
//! spawning live outside the library; only the decisions are here.

use crate::config;
use crate::config::Config;
use crate::config::ConfigUpdate;
use vstd::prelude::*;

verus! {

/// The screens of the launcher. Only the main screen exists.
pub enum Screen {
    Main,
}

impl Default for Screen {
    /// The launcher opens on the main screen.
    fn default() -> (r: Screen)
        ensures
            r is Main,
    {
        Screen::Main
    }
}

/// An event the launcher reacts to: the periodic interface tick, the
/// launch button, or a settings change.
pub enum Message {
    Tick,
    Launch,
    SettingsUpdate(ConfigUpdate),
}

/// What the application must do for one event.
pub enum Action {
    /// Nothing: ticks only keep the interface refreshing.
    Nothing,
    /// Write these bytes into the game's configuration file, then start
    /// the game's executable from the configured folder.
    LaunchGame(Vec<u8>),
    /// Replace the settings with these.
    SetConfig(Config),
}

/// Decide what one event asks for: a tick asks nothing, the launch
/// button asks for the game's configuration to be written and the game
/// started, and a settings change replaces the settings.
pub fn update(config: &Config, message: Message) -> (r: Action)
    ensures
        match message {
            Message::Tick => r is Nothing,
            Message::Launch => {
                &&& r matches Action::LaunchGame(bytes)
                &&& bytes@ == config::game_config_spec(config.volume, config.full_screen)
            },
            Message::SettingsUpdate(u) => {
                &&& r matches Action::SetConfig(c)
                &&& config::applied(*config, u, c)
            },
        },
{
    match message {
        Message::Tick => Action::Nothing,
        Message::Launch => Action::LaunchGame(config.game_config_bytes()),
        Message::SettingsUpdate(u) => Action::SetConfig(config.apply_update(u)),
    }
}

} // verus!
