//! Keys of the user settings.

use vstd::prelude::*;
use crate::text::str_eq;

verus! {

/// A user setting.
#[derive(Clone, Copy, Debug, PartialEq, Eq, Hash, Structural)]
pub enum SettingKey {
    GameId,
    GamePath,
    SteamWorkshopPath,
    SavesPath,
    ModsPath,
}

/// The stored name of a setting.
pub open spec fn key_name(k: SettingKey) -> Seq<char> {
    match k {
        SettingKey::GameId => "game_id"@,
        SettingKey::GamePath => "game_path"@,
        SettingKey::SteamWorkshopPath => "steam_workshop_path"@,
        SettingKey::SavesPath => "saves_path"@,
        SettingKey::ModsPath => "mods_path"@,
    }
}

/// The setting stored under `s`, if any.
pub open spec fn named_key(s: Seq<char>) -> Option<SettingKey> {
    if s == "game_path"@ {
        Some(SettingKey::GamePath)
    } else if s == "steam_workshop_path"@ {
        Some(SettingKey::SteamWorkshopPath)
    } else if s == "game_id"@ {
        Some(SettingKey::GameId)
    } else if s == "saves_path"@ {
        Some(SettingKey::SavesPath)
    } else if s == "mods_path"@ {
        Some(SettingKey::ModsPath)
    } else {
        None
    }
}

/// A stored setting entry: its name, its value, and the value's text when
/// the value is a JSON string.
pub struct SettingEntry {
    pub name: String,
    pub value: serde_json::Value,
    pub text: Option<String>,
}

/// The stored entries whose name is a setting, keyed by that setting, in
/// order; others are left out.
pub open spec fn known_settings(entries: Seq<SettingEntry>) -> Seq<(SettingKey, serde_json::Value)>
    decreases entries.len(),
{
    if entries.len() == 0 {
        Seq::empty()
    } else {
        let r = known_settings(entries.drop_last());
        match named_key(entries.last().name@) {
            Some(k) => r.push((k, entries.last().value)),
            None => r,
        }
    }
}

/// Whether the folder a setting names is watched for changes: every path
/// setting but the game's own directory.
pub open spec fn is_watched(k: SettingKey) -> bool {
    k != SettingKey::GameId && k != SettingKey::GamePath
}

/// The texts of the watched settings whose value is a string, in order.
pub open spec fn watched_folders(entries: Seq<SettingEntry>) -> Seq<Seq<char>>
    decreases entries.len(),
{
    if entries.len() == 0 {
        Seq::empty()
    } else {
        let r = watched_folders(entries.drop_last());
        match (named_key(entries.last().name@), entries.last().text) {
            (Some(k), Some(t)) => if is_watched(k) {
                r.push(t@)
            } else {
                r
            },
            _ => r,
        }
    }
}

/// The settings read from the store, and the folders to watch.
pub struct SettingsUpdate {
    pub settings: Vec<(SettingKey, serde_json::Value)>,
    pub folders_to_watch: Vec<String>,
}

/// Sorts the stored entries into settings: entries with an unknown name are
/// skipped, and the text of every watched path setting whose value is a
/// string is collected for the watcher. Where a setting occurs twice, the
/// caller keeps the later value.
pub fn set_settings_from_store(entries: Vec<SettingEntry>) -> (r: SettingsUpdate)
    ensures
        r.settings@ == known_settings(entries@),
        r.folders_to_watch@.map_values(|f: String| f@) == watched_folders(entries@),
{
    let ghost all = entries@;
    let mut rest = entries;
    let mut settings: Vec<(SettingKey, serde_json::Value)> = Vec::new();
    let mut folders: Vec<String> = Vec::new();
    let mut taken: usize = 0;
    let n: usize = rest.len();
    while rest.len() > 0
        invariant
            all.len() == n,
            taken <= all.len(),
            rest@ == all.subrange(taken as int, all.len() as int),
            settings@ == known_settings(all.subrange(0, taken as int)),
            folders@.map_values(|f: String| f@) == watched_folders(all.subrange(0, taken as int)),
        decreases rest.len(),
    {
        let e = rest.remove(0);
        let ghost eg = e;
        assert(all.subrange(0, taken + 1).drop_last() == all.subrange(0, taken as int));
        assert(all.subrange(0, taken + 1).last() == eg);
        assert(rest@ == all.subrange(taken + 1, all.len() as int));
        let SettingEntry { name, value, text } = e;
        match SettingKey::from_str(name.as_str()) {
            Ok(key) => {
                if key.is_path_setting() && key != SettingKey::GamePath {
                    match text {
                        Some(path) => {
                            let ghost f0 = folders@;
                            folders.push(path);
                            assert(folders@.map_values(|f: String| f@) == f0.map_values(|f: String| f@).push(path@));
                        },
                        None => {},
                    }
                }
                settings.push((key, value));
            },
            Err(_) => {},
        }
        taken = taken + 1;
    }
    assert(all.subrange(0, all.len() as int) == all);
    SettingsUpdate { settings, folders_to_watch: folders }
}

impl SettingKey {
    /// The stored name of this setting.
    pub fn get(&self) -> (r: String)
        ensures
            r@ == key_name(*self),
    {
        match self {
            SettingKey::GameId => String::from_str("game_id"),
            SettingKey::GamePath => String::from_str("game_path"),
            SettingKey::SteamWorkshopPath => String::from_str("steam_workshop_path"),
            SettingKey::SavesPath => String::from_str("saves_path"),
            SettingKey::ModsPath => String::from_str("mods_path"),
        }
    }

    /// The setting with stored name `s`.
    pub fn from_str(s: &str) -> (r: Result<SettingKey, &'static str>)
        ensures
            match r {
                Ok(k) => key_name(k) == s@ && named_key(s@) == Some(k),
                Err(_) => (forall|k: SettingKey| key_name(k) != s@) && named_key(s@) is None,
            },
    {
        proof {
            reveal_strlit("game_id");
            reveal_strlit("game_path");
            reveal_strlit("steam_workshop_path");
            reveal_strlit("saves_path");
            reveal_strlit("mods_path");
        }
        if str_eq(s, "game_path") {
            Ok(SettingKey::GamePath)
        } else if str_eq(s, "steam_workshop_path") {
            Ok(SettingKey::SteamWorkshopPath)
        } else if str_eq(s, "game_id") {
            Ok(SettingKey::GameId)
        } else if str_eq(s, "saves_path") {
            Ok(SettingKey::SavesPath)
        } else if str_eq(s, "mods_path") {
            Ok(SettingKey::ModsPath)
        } else {
            Err("Invalid SettingKey")
        }
    }

    /// Whether the setting holds a path.
    pub fn is_path_setting(&self) -> (r: bool)
        ensures
            r == !(*self == SettingKey::GameId),
    {
        match self {
            SettingKey::GameId => false,
            _ => true,
        }
    }
}

} // verus!
