//! Window size and key bindings, as the player configured them.

use vstd::prelude::*;
use vstd::string::*;
use crate::orbs::OrbType;

verus! {

/// Width, in pixels, of the margin kept free of falling spells on the left
/// and on the right of the field.
pub const SPAWN_MARGIN: u32 = 72;

/// A logical key, as the game tells keys apart.
#[derive(Clone, Copy, Debug, PartialEq, Eq, Hash, Structural)]
pub enum Key {
    /// A letter key, named by its upper-case letter.
    Letter(char),
    Return,
    Escape,
    /// Any key the game has no use for.
    Other,
}

/// The settings as they are stored: sizes in pixels, keys by their names.
#[derive(Clone, Debug)]
pub struct UserSettings {
    pub window_width: u32,
    pub window_height: u32,
    pub quas_key: String,
    pub wex_key: String,
    pub exort_key: String,
    pub invoke_key: String,
}

/// The binding whose key name is not the name of a letter key.
#[derive(Clone, Copy, Debug, PartialEq, Eq, Structural)]
pub enum SettingsError {
    QuasKey,
    WexKey,
    ExortKey,
    InvokeKey,
}

/// The settings a game runs with.
#[derive(Clone, Copy, Debug, PartialEq, Eq, Structural)]
pub struct Settings {
    pub window_width: u32,
    pub window_height: u32,
    pub quas_key: Key,
    pub wex_key: Key,
    pub exort_key: Key,
    pub invoke_key: Key,
}

/// The key that a key name stands for: a name is one upper-case letter from
/// `A` to `Z`, and stands for that letter's key.
pub open spec fn key_named(name: Seq<char>) -> Option<Key> {
    if name.len() == 1 && 'A' <= name[0] <= 'Z' {
        Some(Key::Letter(name[0]))
    } else {
        None
    }
}

impl Default for UserSettings {
    /// A square window of 1024 pixels, and the keys `Q`, `W`, `E` and `R`.
    fn default() -> (user: UserSettings)
        ensures
            user.window_width == 1024,
            user.window_height == 1024,
            user.quas_key@ == seq!['Q'],
            user.wex_key@ == seq!['W'],
            user.exort_key@ == seq!['E'],
            user.invoke_key@ == seq!['R'],
    {
        proof {
            reveal_strlit("Q");
            reveal_strlit("W");
            reveal_strlit("E");
            reveal_strlit("R");
        }
        let user = UserSettings {
            window_width: 1024,
            window_height: 1024,
            quas_key: String::from_str("Q"),
            wex_key: String::from_str("W"),
            exort_key: String::from_str("E"),
            invoke_key: String::from_str("R"),
        };
        assert(user.quas_key@ =~= seq!['Q']);
        assert(user.wex_key@ =~= seq!['W']);
        assert(user.exort_key@ =~= seq!['E']);
        assert(user.invoke_key@ =~= seq!['R']);
        user
    }
}

impl Settings {
    /// The four bindings of `user`, each read as a key name.
    pub open spec fn spec_new(user: UserSettings) -> Result<Settings, SettingsError> {
        if key_named(user.quas_key@) is None {
            Err(SettingsError::QuasKey)
        } else if key_named(user.wex_key@) is None {
            Err(SettingsError::WexKey)
        } else if key_named(user.exort_key@) is None {
            Err(SettingsError::ExortKey)
        } else if key_named(user.invoke_key@) is None {
            Err(SettingsError::InvokeKey)
        } else {
            Ok(
                Settings {
                    window_width: user.window_width,
                    window_height: user.window_height,
                    quas_key: key_named(user.quas_key@)->0,
                    wex_key: key_named(user.wex_key@)->0,
                    exort_key: key_named(user.exort_key@)->0,
                    invoke_key: key_named(user.invoke_key@)->0,
                },
            )
        }
    }

    /// The orb that `key` is bound to. Where one key is bound more than
    /// once, the binding that comes last in the order quas, wex, exort,
    /// invoke holds.
    pub open spec fn spec_orb_for(&self, key: Key) -> Option<OrbType> {
        if key == self.invoke_key {
            Some(OrbType::Invoke)
        } else if key == self.exort_key {
            Some(OrbType::Exort)
        } else if key == self.wex_key {
            Some(OrbType::Wex)
        } else if key == self.quas_key {
            Some(OrbType::Quas)
        } else {
            None
        }
    }

    /// The field is wide enough for a spell to fall between its margins.
    pub open spec fn spec_has_spawn_room(&self) -> bool {
        self.window_width > 2 * SPAWN_MARGIN
    }

    /// Reads the settings of a game from the stored ones. A binding whose
    /// key name is not one upper-case letter is refused; the first such
    /// binding, in the order quas, wex, exort, invoke, is named.
    pub fn new(user: &UserSettings) -> (settings: Result<Settings, SettingsError>)
        ensures
            settings == Settings::spec_new(*user),
    {
        let quas_key = match Settings::string_to_keycode(user.quas_key.as_str()) {
            Some(key) => key,
            None => {
                return Err(SettingsError::QuasKey);
            },
        };
        let wex_key = match Settings::string_to_keycode(user.wex_key.as_str()) {
            Some(key) => key,
            None => {
                return Err(SettingsError::WexKey);
            },
        };
        let exort_key = match Settings::string_to_keycode(user.exort_key.as_str()) {
            Some(key) => key,
            None => {
                return Err(SettingsError::ExortKey);
            },
        };
        let invoke_key = match Settings::string_to_keycode(user.invoke_key.as_str()) {
            Some(key) => key,
            None => {
                return Err(SettingsError::InvokeKey);
            },
        };
        Ok(
            Settings {
                window_width: user.window_width,
                window_height: user.window_height,
                quas_key,
                wex_key,
                exort_key,
                invoke_key,
            },
        )
    }

    /// The key that a key name stands for, if it is the name of a letter key.
    pub fn string_to_keycode(key_mapping: &str) -> (key: Option<Key>)
        ensures
            key == key_named(key_mapping@),
    {
        if key_mapping.unicode_len() != 1 {
            return None;
        }
        let letter = key_mapping.get_char(0);
        if 'A' <= letter && letter <= 'Z' {
            Some(Key::Letter(letter))
        } else {
            None
        }
    }

    /// The orb that `key` is bound to, if any.
    #[verifier::when_used_as_spec(spec_orb_for)]
    pub fn orb_for(&self, key: Key) -> (orb: Option<OrbType>)
        ensures
            orb == self.spec_orb_for(key),
    {
        if key == self.invoke_key {
            Some(OrbType::Invoke)
        } else if key == self.exort_key {
            Some(OrbType::Exort)
        } else if key == self.wex_key {
            Some(OrbType::Wex)
        } else if key == self.quas_key {
            Some(OrbType::Quas)
        } else {
            None
        }
    }

    /// Whether the field is wide enough for a spell to fall between its
    /// margins.
    #[verifier::when_used_as_spec(spec_has_spawn_room)]
    pub fn has_spawn_room(&self) -> (room: bool)
        ensures
            room == self.spec_has_spawn_room(),
    {
        self.window_width > 2 * SPAWN_MARGIN
    }
}

} // verus!
