use freeways_launcher::app;
use freeways_launcher::config::Config;
use freeways_launcher::config::ConfigUpdate;

const GAME_CFG: &str =
    "<Freeways fullScreen=\"true\" screenWidth=\"0\" useFBO=\"false\" volume=\"80\"/>";

#[test]
fn load_reads_both_files() {
    let cfg = "; a comment\ngame_path = C:\\Games\\Freeways\n";
    let config = Config::load(cfg, GAME_CFG).unwrap();
    assert_eq!(config.game_path, "C:\\Games\\Freeways");
    assert_eq!(config.volume, 80);
    assert!(config.full_screen);
}

#[test]
fn load_without_game_path_fails() {
    assert!(Config::load("other = x\n", GAME_CFG).is_none());
}

#[test]
fn load_with_bad_volume_fails() {
    let game = "<Freeways fullScreen=\"false\" screenWidth=\"0\" useFBO=\"false\" volume=\"loud\"/>";
    assert!(Config::load("game_path = p\n", game).is_none());
}

#[test]
fn load_with_short_game_file_fails() {
    assert!(Config::load("game_path = p\n", "<Freeways/>").is_none());
}

#[test]
fn load_windowed_unless_true() {
    let game = "<Freeways fullScreen=\"no\" screenWidth=\"0\" useFBO=\"false\" volume=\"5\"/>";
    let config = Config::load("game_path = p\n", game).unwrap();
    assert_eq!(config.volume, 5);
    assert!(!config.full_screen);
}

#[test]
fn apply_update_changes_one_field() {
    let base = Config {
        game_path: String::from("p"),
        volume: 10,
        full_screen: false,
    };
    let c1 = base.apply_update(ConfigUpdate::Volume(55));
    assert_eq!(c1.volume, 55);
    assert_eq!(c1.game_path, "p");
    assert!(!c1.full_screen);
    let c2 = base.apply_update(ConfigUpdate::FullScreen(true));
    assert!(c2.full_screen);
    assert_eq!(c2.volume, 10);
    let c3 = base.apply_update(ConfigUpdate::GamePath(String::from("q")));
    assert_eq!(c3.game_path, "q");
    assert_eq!(c3.volume, 10);
    assert!(!c3.full_screen);
}

#[test]
fn default_settings() {
    let c = Config::default();
    assert_eq!(c.game_path, "C:\\Program Files\\Steam\\steamapps\\common\\Freeways");
    assert_eq!(c.volume, 100);
    assert!(!c.full_screen);
}

#[test]
fn config_file_bytes_renders_exactly() {
    let c = Config {
        game_path: String::from("D:\\Games"),
        volume: 3,
        full_screen: true,
    };
    let bytes = c.config_file_bytes("1.0");
    assert_eq!(
        bytes,
        b"; Freeways-Launcher V1.0 Config\ngame_path = D:\\Games\n"
    );
}

#[test]
fn game_config_bytes_renders_exactly() {
    let c = Config {
        game_path: String::from("p"),
        volume: 100,
        full_screen: false,
    };
    let bytes = c.game_config_bytes();
    assert_eq!(
        bytes,
        b"<Freeways fullScreen=\"false\" screenWidth=\"0\" useFBO=\"false\" volume=\"100\"/>\\n"
    );
}

#[test]
fn round_trip_through_game_config() {
    let c = Config {
        game_path: String::from("p"),
        volume: 80,
        full_screen: true,
    };
    let written = c.game_config_bytes();
    let text = String::from_utf8(written).unwrap();
    let back = Config::load("game_path = p\n", &text).unwrap();
    assert_eq!(back.volume, 80);
    assert!(back.full_screen);
}

#[test]
fn round_trip_through_launcher_config() {
    let c = Config {
        game_path: String::from("D:\\Games\\Freeways"),
        volume: 42,
        full_screen: false,
    };
    let written = c.config_file_bytes("0.1");
    let text = String::from_utf8(written).unwrap();
    let back = Config::load(&text, GAME_CFG).unwrap();
    assert_eq!(back.game_path, "D:\\Games\\Freeways");
}

#[test]
fn update_tick_asks_nothing() {
    let c = Config::default();
    assert!(matches!(
        app::update(&c, app::Message::Tick),
        app::Action::Nothing
    ));
}

#[test]
fn update_launch_writes_game_config() {
    let c = Config {
        game_path: String::from("p"),
        volume: 7,
        full_screen: false,
    };
    match app::update(&c, app::Message::Launch) {
        app::Action::LaunchGame(bytes) => assert_eq!(bytes, c.game_config_bytes()),
        _ => panic!("launch must ask for the game to be started"),
    }
}

#[test]
fn update_settings_replaces_config() {
    let c = Config::default();
    match app::update(&c, app::Message::SettingsUpdate(ConfigUpdate::Volume(1))) {
        app::Action::SetConfig(newc) => {
            assert_eq!(newc.volume, 1);
            assert_eq!(newc.game_path, c.game_path);
        }
        _ => panic!("a settings change must replace the settings"),
    }
}

#[test]
fn default_screen_is_main() {
    assert!(matches!(app::Screen::default(), app::Screen::Main));
}
