//! The launcher's settings: read from its own key/value configuration
//! file together with the game's configuration file, changed from the
//! settings screen, and written back into both files. Reading and
//! writing the files themselves happens outside the library; here live
//! the parsing, the update rules and the rendered file contents.

use crate::kv;
use crate::num;
use crate::text;
use vstd::prelude::*;
use vstd::string::StringSliceAdditionalSpecFns;

verus! {

/// The launcher's settings: where the game is installed, and the two
/// game settings the launcher edits.
pub struct Config {
    pub game_path: String,
    pub volume: u8,
    pub full_screen: bool,
}

/// One change made on the settings screen.
pub enum ConfigUpdate {
    Volume(u8),
    FullScreen(bool),
    GamePath(String),
}

/// The bytes of the key `game_path`.
pub open spec fn key_game_path() -> Seq<u8> {
    seq![103u8, 97u8, 109u8, 101u8, 95u8, 112u8, 97u8, 116u8, 104u8]
}

/// The bytes of the word `true`.
pub open spec fn true_bytes() -> Seq<u8> {
    seq![116u8, 114u8, 117u8, 101u8]
}

/// The volume and full-screen flag as the game's own configuration file
/// stores them: the file is split at double quotes; the second segment
/// is the full-screen flag (`true`, or anything else for windowed), the
/// eighth is the decimal volume. A file with fewer than eight segments,
/// or whose volume does not read as a number up to 255, gives nothing.
pub open spec fn game_settings(game: Seq<u8>) -> Option<(u8, bool)> {
    let segs = kv::split_byte(game, 34);
    if segs.len() < 8 {
        None
    } else {
        match num::parse_u8_spec(segs[7]) {
            None => None,
            Some(v) => Some((v, segs[1] == true_bytes())),
        }
    }
}

/// What loading the two configuration files yields: the game folder from
/// the launcher's own file, read as key/value text with carriage returns
/// removed, and the volume and full-screen flag from the game's file —
/// or nothing, when the launcher's file is malformed or lacks
/// `game_path`, or the game's file gives nothing.
pub open spec fn config_from(cfg: Seq<u8>, game: Seq<u8>) -> Option<(Seq<u8>, u8, bool)> {
    match kv::parse_kv(text::strip_cr(cfg)) {
        None => None,
        Some(pairs) => match kv::lookup(pairs, key_game_path()) {
            None => None,
            Some(p) => match game_settings(game) {
                None => None,
                Some((v, f)) => Some((p, v, f)),
            },
        },
    }
}

/// The fields of `after` once `u` is applied to `before`: the changed
/// field takes the update's value, the rest stay.
pub open spec fn applied(before: Config, u: ConfigUpdate, after: Config) -> bool {
    match u {
        ConfigUpdate::Volume(v) => after.volume == v && after.full_screen == before.full_screen
            && after.game_path@ == before.game_path@,
        ConfigUpdate::FullScreen(f) => after.full_screen == f && after.volume == before.volume
            && after.game_path@ == before.game_path@,
        ConfigUpdate::GamePath(p) => after.game_path@ == p@ && after.volume == before.volume
            && after.full_screen == before.full_screen,
    }
}

/// The body of the launcher's own configuration file: a comment naming
/// the launcher version, then the game folder.
pub open spec fn config_file_spec(version: Seq<char>, game_path: Seq<char>) -> Seq<u8> {
    "; Freeways-Launcher V".spec_bytes() + vstd::utf8::encode_utf8(version)
        + " Config\ngame_path = ".spec_bytes() + vstd::utf8::encode_utf8(game_path)
        + "\n".spec_bytes()
}

/// The body of the game's configuration file as the launcher writes it
/// before launching: the full-screen flag and the decimal volume placed
/// into the game's own format.
pub open spec fn game_config_spec(volume: u8, full_screen: bool) -> Seq<u8> {
    "<Freeways fullScreen=\"".spec_bytes() + (if full_screen {
        "true".spec_bytes()
    } else {
        "false".spec_bytes()
    }) + "\" screenWidth=\"0\" useFBO=\"false\" volume=\"".spec_bytes() + num::u8_dec(volume)
        + "\"/>\\n".spec_bytes()
}

impl Config {
    /// The compute part of loading: build the settings from the text of
    /// the launcher's configuration file and of the game's. The game
    /// folder is decoded lossily from its bytes in the launcher's file.
    pub fn load(cfg_text: &str, game_text: &str) -> (r: Option<Config>)
        ensures
            match r {
                Some(c) => {
                    &&& config_from(cfg_text.spec_bytes(), game_text.spec_bytes()) matches Some(t)
                    &&& c.game_path@ == text::lossy_utf8(t.0)
                    &&& (vstd::utf8::valid_utf8(t.0) ==> c.game_path@ == vstd::utf8::decode_utf8(
                        t.0,
                    ))
                    &&& c.volume == t.1
                    &&& c.full_screen == t.2
                },
                None => config_from(cfg_text.spec_bytes(), game_text.spec_bytes()) is None,
            },
    {
        let clean = text::remove_cr(cfg_text.as_bytes());
        match kv::parse_kv_bytes(clean.as_slice()) {
            None => None,
            Some(pairs) => {
                let key: [u8; 9] = [103u8, 97u8, 109u8, 101u8, 95u8, 112u8, 97u8, 116u8, 104u8];
                proof {
                    assert(key@ =~= key_game_path());
                }
                match kv::lookup_value(&pairs, key.as_slice()) {
                    None => None,
                    Some(p) => {
                        let segs = kv::split_all(game_text.as_bytes(), 34);
                        proof {
                            assert(kv::vecs_view(segs@).len() == segs@.len());
                        }
                        if segs.len() < 8 {
                            None
                        } else {
                            proof {
                                assert(kv::vecs_view(segs@)[7] == segs@[7]@);
                                assert(kv::vecs_view(segs@)[1] == segs@[1]@);
                            }
                            match num::parse_u8(segs[7].as_slice()) {
                                None => None,
                                Some(v) => {
                                    let tb: [u8; 4] = [116u8, 114u8, 117u8, 101u8];
                                    proof {
                                        assert(tb@ =~= true_bytes());
                                    }
                                    let f = kv::bytes_eq(segs[1].as_slice(), tb.as_slice());
                                    Some(
                                        Config {
                                            game_path: text::decode_lossy(p.as_slice()),
                                            volume: v,
                                            full_screen: f,
                                        },
                                    )
                                },
                            }
                        }
                    },
                }
            },
        }
    }

    /// Apply one settings change, leaving the other fields as they are.
    pub fn apply_update(&self, update: ConfigUpdate) -> (r: Config)
        ensures
            applied(*self, update, r),
    {
        match update {
            ConfigUpdate::Volume(volume) => Config {
                game_path: self.game_path.as_str().to_owned(),
                volume,
                full_screen: self.full_screen,
            },
            ConfigUpdate::FullScreen(full_screen) => Config {
                game_path: self.game_path.as_str().to_owned(),
                volume: self.volume,
                full_screen,
            },
            ConfigUpdate::GamePath(game_path) => Config {
                game_path,
                volume: self.volume,
                full_screen: self.full_screen,
            },
        }
    }

    /// The bytes written back to the launcher's own configuration file.
    pub fn config_file_bytes(&self, version: &str) -> (r: Vec<u8>)
        ensures
            r@ == config_file_spec(version@, self.game_path@),
    {
        let mut out: Vec<u8> = Vec::new();
        out.extend_from_slice("; Freeways-Launcher V".as_bytes());
        out.extend_from_slice(version.as_bytes());
        out.extend_from_slice(" Config\ngame_path = ".as_bytes());
        out.extend_from_slice(self.game_path.as_str().as_bytes());
        out.extend_from_slice("\n".as_bytes());
        out
    }

    /// The bytes written into the game's configuration file before the
    /// game is started.
    pub fn game_config_bytes(&self) -> (r: Vec<u8>)
        ensures
            r@ == game_config_spec(self.volume, self.full_screen),
    {
        let mut out: Vec<u8> = Vec::new();
        out.extend_from_slice("<Freeways fullScreen=\"".as_bytes());
        if self.full_screen {
            out.extend_from_slice("true".as_bytes());
        } else {
            out.extend_from_slice("false".as_bytes());
        }
        out.extend_from_slice("\" screenWidth=\"0\" useFBO=\"false\" volume=\"".as_bytes());
        let digits = num::u8_to_dec(self.volume);
        out.extend_from_slice(digits.as_slice());
        out.extend_from_slice("\"/>\\n".as_bytes());
        out
    }
}

impl Default for Config {
    /// The out-of-the-box settings: the game's usual Steam folder, full
    /// volume, windowed.
    fn default() -> (r: Config)
        ensures
            r.game_path@ == "C:\\Program Files\\Steam\\steamapps\\common\\Freeways"@,
            r.volume == 100,
            !r.full_screen,
    {
        Config {
            game_path: "C:\\Program Files\\Steam\\steamapps\\common\\Freeways".to_owned(),
            volume: 100,
            full_screen: false,
        }
    }
}

} // verus!
