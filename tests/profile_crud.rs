use mod_manager::dto::{ModRequestDto, ProfileRequestDto};
use mod_manager::error::ErrorCode;
use mod_manager::profiles::{create_profile, delete_profile, find_profile, rename_profile, set_default_profile, update_profile};
use mod_manager::store::{GameStore, Profile};

fn store() -> GameStore {
    GameStore {
        game_id: "1142710".to_string(),
        game_path: "/g".to_string(),
        saves_path: None,
        mods_path: "/g/data".to_string(),
        profiles: vec![Profile { name: "Default".to_string(), default: true, manual_mode: false, mods: vec![] }],
        default_profile: None,
    }
}

fn request(name: &str, manual: bool) -> ProfileRequestDto {
    ProfileRequestDto {
        game_id: "1142710".to_string(),
        name: name.to_string(),
        default: None,
        manual_mode: Some(manual),
        mods: vec![ModRequestDto { name: "m".to_string(), enabled: true, order: 4 }],
    }
}

#[test]
fn create_rejects_duplicate_names() {
    let mut s = store();
    assert_eq!(create_profile(&mut s, request("Extra", false)), Ok(()));
    assert_eq!(s.profiles.len(), 2);
    assert_eq!(s.profiles[1].name, "Extra");
    assert_eq!(s.profiles[1].mods[0].order, 4);
    assert_eq!(create_profile(&mut s, request("Extra", true)), Err(ErrorCode::Conflict));
    assert_eq!(s.profiles.len(), 2);
    assert!(!s.profiles[1].manual_mode);
}

#[test]
fn update_replaces_named_profile() {
    let mut s = store();
    assert_eq!(update_profile(&mut s, request("Default", true)), Ok(()));
    assert!(s.profiles[0].manual_mode);
    assert_eq!(s.profiles[0].mods.len(), 1);
    assert_eq!(update_profile(&mut s, request("Nope", true)), Err(ErrorCode::NotFound));
}

#[test]
fn rename_checks_conflict_then_presence() {
    let mut s = store();
    create_profile(&mut s, request("Other", false)).unwrap();
    assert_eq!(rename_profile(&mut s, "Default", "Other"), Err(ErrorCode::Conflict));
    assert_eq!(rename_profile(&mut s, "Missing", "Fresh"), Err(ErrorCode::NotFound));
    assert_eq!(rename_profile(&mut s, "Default", "Main"), Ok(()));
    assert_eq!(s.profiles[0].name, "Main");
    assert!(s.profiles[0].default);
    assert_eq!(find_profile(&s.profiles, "Main"), Some(0));
    assert_eq!(find_profile(&s.profiles, "Default"), None);
}

#[test]
fn default_profile_selection() {
    let mut s = store();
    assert_eq!(set_default_profile(&mut s, "Missing"), Err(ErrorCode::NotFound));
    assert!(s.default_profile.is_none());
    assert_eq!(set_default_profile(&mut s, "Default"), Ok(()));
    assert_eq!(s.default_profile.as_deref(), Some("Default"));
    assert_eq!(set_default_profile(&mut s, "Default"), Ok(()));
}

#[test]
fn delete_removes_named_profile() {
    let mut s = store();
    assert_eq!(delete_profile(&mut s, "Missing"), Err(ErrorCode::NotFound));
    assert_eq!(delete_profile(&mut s, "Default"), Ok(()));
    assert!(s.profiles.is_empty());
}
