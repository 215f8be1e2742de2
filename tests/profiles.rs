use mod_manager::dto::{GameResponseDto, ModRequestDto, ModResponseDto, PackResponseDto, ProfileRequestDto};
use mod_manager::pack::Pack;
use mod_manager::settings::{set_settings_from_store, SettingEntry, SettingKey};
use serde_json::Value;
use mod_manager::store::{GameStore, ModInfo, Profile};

fn pack(name: &str) -> Pack {
    Pack {
        name: name.to_string(),
        path: format!("/g/data/{}.pack", name),
        image: None,
        last_updated: Some("t".to_string()),
        from_steam_workshop: false,
    }
}

#[test]
fn profile_from_request_defaults() {
    let dto = ProfileRequestDto {
        game_id: "1142710".to_string(),
        name: "Mine".to_string(),
        default: None,
        manual_mode: Some(true),
        mods: vec![ModRequestDto { name: "a".to_string(), enabled: true, order: 3 }],
    };
    let p = Profile::from_dto(dto);
    assert_eq!(p.name, "Mine");
    assert!(!p.default);
    assert!(p.manual_mode);
    assert_eq!(p.mods.len(), 1);
    assert_eq!(p.mods[0].order, 3);
    assert!(p.mods[0].enabled);
}

#[test]
fn mod_response_joins_pack() {
    let req = ModRequestDto { name: "a".to_string(), enabled: true, order: 2 };
    let with = ModResponseDto::new(&req, Some(pack("a")));
    assert!(with.can_enable && with.enabled);
    assert_eq!(with.path.as_deref(), Some("/g/data/a.pack"));
    assert_eq!(with.last_updated.as_deref(), Some("t"));
    let without = ModResponseDto::new(&req, None);
    assert!(!without.can_enable && !without.enabled);
    assert_eq!(without.order, 2);
}

#[test]
fn new_game_lists_every_pack_disabled() {
    let packs = vec![pack("x"), pack("y")];
    let g = GameStore::new_game("1142710", "/games/tww3".to_string(), None, &packs).unwrap();
    assert_eq!(g.mods_path, "/games/tww3/data/");
    assert_eq!(g.profiles.len(), 1);
    let p = &g.profiles[0];
    assert_eq!(p.name, "Default");
    assert!(p.default && !p.manual_mode);
    assert_eq!(p.mods.len(), 2);
    assert!(p.mods.iter().all(|m| !m.enabled && m.order == 0));
    assert!(GameStore::new_game("7", "/g".to_string(), None, &packs).is_none());
}

#[test]
fn game_response_default_profile() {
    let store = GameStore {
        game_id: "1142710".to_string(),
        game_path: "/g".to_string(),
        saves_path: None,
        mods_path: "/g/data".to_string(),
        profiles: vec![
            Profile { name: "first".to_string(), default: false, manual_mode: false, mods: vec![ModInfo { name: "x".to_string(), enabled: true, order: 0 }] },
            Profile { name: "second".to_string(), default: true, manual_mode: false, mods: vec![] },
        ],
        default_profile: None,
    };
    let r = GameResponseDto::from_store(store.clone(), &vec![pack("x")], Some("/ws".to_string()));
    assert_eq!(r.default_profile.as_deref(), Some("first"));
    assert_eq!(r.profiles.len(), 2);
    assert_eq!(r.profiles[0].mods[0].order, 1);
    assert_eq!(r.mods.len(), 1);
    assert_eq!(r.workshop_path.as_deref(), Some("/ws"));
    let mut stored = store;
    stored.default_profile = Some("second".to_string());
    let r2 = GameResponseDto::from_store(stored, &vec![], None);
    assert_eq!(r2.default_profile.as_deref(), Some("second"));
    let empty = GameStore {
        game_id: "1".to_string(),
        game_path: "/".to_string(),
        saves_path: None,
        mods_path: "/".to_string(),
        profiles: vec![],
        default_profile: None,
    };
    assert!(GameResponseDto::from_store(empty, &vec![], None).default_profile.is_none());
    let pr = PackResponseDto::from_pack(&pack("z"));
    assert_eq!(pr.name, "z");
}

#[test]
fn setting_keys() {
    assert_eq!(SettingKey::from_str("game_path"), Ok(SettingKey::GamePath));
    assert_eq!(SettingKey::from_str("steam_workshop_path"), Ok(SettingKey::SteamWorkshopPath));
    assert_eq!(SettingKey::from_str("game_id"), Ok(SettingKey::GameId));
    assert_eq!(SettingKey::from_str("saves_path"), Ok(SettingKey::SavesPath));
    assert_eq!(SettingKey::from_str("mods_path"), Ok(SettingKey::ModsPath));
    assert!(SettingKey::from_str("gamePath").is_err());
    assert_eq!(SettingKey::ModsPath.get(), "mods_path");
    assert_eq!(SettingKey::GameId.get(), "game_id");
    assert!(!SettingKey::GameId.is_path_setting());
    assert!(SettingKey::SavesPath.is_path_setting());
}

#[test]
fn settings_from_store_entries() {
    let entries = vec![
        ("game_id".to_string(), Value::String("1142710".to_string())),
        ("game_path".to_string(), Value::String("/g".to_string())),
        ("unknown".to_string(), Value::Bool(true)),
        ("mods_path".to_string(), Value::String("/g/data".to_string())),
        ("saves_path".to_string(), Value::Null),
        ("steam_workshop_path".to_string(), Value::String("/ws".to_string())),
    ];
    let entries: Vec<SettingEntry> = entries
        .into_iter()
        .map(|(name, value)| {
            let text = value.as_str().map(str::to_owned);
            SettingEntry { name, value, text }
        })
        .collect();
    let update = set_settings_from_store(entries);
    let keys: Vec<SettingKey> = update.settings.iter().map(|(k, _)| *k).collect();
    assert_eq!(
        keys,
        vec![SettingKey::GameId, SettingKey::GamePath, SettingKey::ModsPath, SettingKey::SavesPath, SettingKey::SteamWorkshopPath]
    );
    assert_eq!(update.settings[2].1, Value::String("/g/data".to_string()));
    assert_eq!(update.folders_to_watch, vec!["/g/data".to_string(), "/ws".to_string()]);
}
