use mod_manager::dto::{ModResponseDto, ProfileResponseDto};
use mod_manager::load_order::{read_load_order, render_load_order, resolve_load_order, Mod, ModWriter};
use mod_manager::pack::Pack;
use mod_manager::sort::{compare_mod_names, compare_folded, sort_mods, utf16_units, SortMods};
use mod_manager::store::{ModInfo, Profile};
use std::cmp::Ordering;

fn pack(name: &str, path: &str, ws: bool) -> Pack {
    Pack { name: name.to_string(), path: path.to_string(), image: None, last_updated: None, from_steam_workshop: ws }
}

fn entry(name: &str, enabled: bool, order: u32) -> ModResponseDto {
    ModResponseDto {
        name: name.to_string(),
        path: None,
        enabled,
        order,
        can_enable: true,
        last_updated: None,
        from_steam_workshop: false,
        image: None,
    }
}

#[test]
fn comparator_examples() {
    assert_eq!(compare_mod_names("alpha", "Zeta"), Ordering::Less);
    assert_eq!(compare_mod_names("Zeta", "alpha"), Ordering::Greater);
    assert_eq!(compare_mod_names("Mod", "mod2"), Ordering::Less);
    assert_eq!(compare_mod_names("mod2", "Mod"), Ordering::Greater);
    assert_eq!(compare_mod_names("ABC", "abc"), Ordering::Equal);
    assert_eq!(compare_mod_names("", ""), Ordering::Equal);
    assert_eq!(compare_mod_names("", "a"), Ordering::Less);
}

#[test]
fn comparator_is_reflexive_antisymmetric_transitive_on_samples() {
    let names = ["b", "B2", "a", "Ä", "zz", "Z", "", "mod", "Mod2"];
    for x in names.iter() {
        assert_eq!(compare_mod_names(x, x), Ordering::Equal);
        for y in names.iter() {
            assert_eq!(compare_mod_names(x, y), compare_mod_names(y, x).reverse());
            assert_eq!(compare_mod_names(x, y), compare_mod_names(x, y));
            for z in names.iter() {
                if compare_mod_names(x, y) != Ordering::Greater && compare_mod_names(y, z) != Ordering::Greater {
                    assert_ne!(compare_mod_names(x, z), Ordering::Greater);
                }
            }
        }
    }
}

#[test]
fn folded_comparison_and_utf16() {
    assert_eq!(utf16_units("a\u{1F600}"), vec![0x61, 0xD83D, 0xDE00]);
    assert_eq!(compare_folded(&vec![1, 2], &vec![1, 2, 3]), Ordering::Less);
    assert_eq!(compare_folded(&vec![1, 3], &vec![1, 2, 3]), Ordering::Greater);
    assert_eq!(compare_folded(&vec![], &vec![]), Ordering::Equal);
}

#[test]
fn sort_mods_orders_by_folded_name() {
    let mut mods = vec![
        ModInfo { name: "Zeta".to_string(), enabled: true, order: 1 },
        ModInfo { name: "alpha".to_string(), enabled: true, order: 2 },
        ModInfo { name: "Beta".to_string(), enabled: false, order: 3 },
    ];
    sort_mods(&mut mods);
    let names: Vec<&str> = mods.iter().map(|m| m.name.as_str()).collect();
    assert_eq!(names, vec!["alpha", "Beta", "Zeta"]);
}

#[test]
fn auto_mode_renumbers_in_name_order() {
    let profile = Profile {
        name: "p".to_string(),
        default: false,
        manual_mode: false,
        mods: vec![
            ModInfo { name: "Zeta".to_string(), enabled: true, order: 9 },
            ModInfo { name: "alpha".to_string(), enabled: true, order: 4 },
            ModInfo { name: "Beta".to_string(), enabled: true, order: 1 },
        ],
    };
    let packs = vec![pack("Zeta", "/d/Zeta.pack", false), pack("alpha", "/d/alpha.pack", false), pack("Beta", "/d/Beta.pack", false)];
    let r = ProfileResponseDto::new(profile, &packs);
    let got: Vec<(String, u32)> = r.mods.iter().map(|m| (m.name.clone(), m.order)).collect();
    assert_eq!(got, vec![("alpha".to_string(), 1), ("Beta".to_string(), 2), ("Zeta".to_string(), 3)]);
    assert!(r.mods.iter().all(|m| m.enabled && m.can_enable));
}

#[test]
fn manual_mode_keeps_stored_orders_and_flags_missing_packs() {
    let profile = Profile {
        name: "p".to_string(),
        default: true,
        manual_mode: true,
        mods: vec![
            ModInfo { name: "b".to_string(), enabled: true, order: 7 },
            ModInfo { name: "a".to_string(), enabled: true, order: 5 },
        ],
    };
    let packs = vec![pack("a", "/d/a.pack", true)];
    let r = ProfileResponseDto::new(profile, &packs);
    assert_eq!(r.mods[0].name, "a");
    assert_eq!(r.mods[0].order, 5);
    assert_eq!(r.mods[0].path.as_deref(), Some("/d/a.pack"));
    assert!(r.mods[0].from_steam_workshop);
    assert_eq!(r.mods[1].name, "b");
    assert_eq!(r.mods[1].order, 7);
    assert!(!r.mods[1].can_enable);
    assert!(!r.mods[1].enabled);
    assert!(r.mods[1].path.is_none());
    assert!(r.default && r.manual_mode);
}

#[test]
fn manual_mode_end_to_end_resolution() {
    let entries = vec![entry("A", true, 2), entry("B", true, 1), entry("C", false, 3)];
    let packs = vec![pack("A", "/d/A.pack", false), pack("B", "/d/B.pack", false), pack("C", "/d/C.pack", false)];
    let list = resolve_load_order(&entries, &packs);
    let names: Vec<&str> = list.iter().map(|m| m.name.as_str()).collect();
    assert_eq!(names, vec!["B", "A"]);
    assert_eq!(list[0].order, 1);
    assert_eq!(list[1].order, 2);
}

#[test]
fn resolution_drops_missing_packs() {
    let entries = vec![entry("gone", true, 1), entry("here", true, 2)];
    let packs = vec![pack("here", "/d/here.pack", false)];
    let w = ModWriter::new(&entries, &packs);
    assert_eq!(w.mods.len(), 1);
    assert_eq!(w.mods[0].name, "here");
    assert!(resolve_load_order(&vec![], &packs).is_empty());
}

#[test]
fn artifact_lines_and_round_trip() {
    let mods = vec![
        Mod { name: "loose".to_string(), path: "/game/data/loose.pack".to_string(), order: 1, from_steam_workshop: false },
        Mod { name: "ws".to_string(), path: "/home/u/workshop/content/1142710/42/ws.pack".to_string(), order: 2, from_steam_workshop: true },
        Mod { name: "named.pack".to_string(), path: "/game/data/named.pack.pack".to_string(), order: 3, from_steam_workshop: false },
    ];
    let lines = render_load_order(&mods, "Z:");
    assert_eq!(
        lines,
        vec![
            "add_working_directory \"Z:\\home\\u\\workshop\\content\\1142710\\42\";".to_string(),
            "mod \"loose.pack\";".to_string(),
            "mod \"ws.pack\";".to_string(),
            "mod \"named.pack\";".to_string(),
        ]
    );
    let back = read_load_order(&lines);
    assert_eq!(back, vec!["loose.pack".to_string(), "ws.pack".to_string(), "named.pack".to_string()]);
    assert_eq!(read_load_order(&render_load_order(&mods, "")), back);
}

#[test]
fn artifact_writer_lines() {
    let entries = vec![entry("x", true, 1)];
    let packs = vec![pack("x", "/w/7/x.pack", true)];
    let w = ModWriter::new(&entries, &packs);
    assert_eq!(w.lines(""), vec!["add_working_directory \"\\w\\7\";".to_string(), "mod \"x.pack\";".to_string()]);
}

#[test]
fn sort_trait_and_idempotence() {
    let mut mods = vec![
        ModInfo { name: "b".to_string(), enabled: true, order: 1 },
        ModInfo { name: "A".to_string(), enabled: true, order: 2 },
        ModInfo { name: "a".to_string(), enabled: false, order: 3 },
    ];
    mods.sort_mods();
    let once: Vec<(String, u32)> = mods.iter().map(|m| (m.name.clone(), m.order)).collect();
    assert_eq!(once[0], ("A".to_string(), 2));
    assert_eq!(once[1], ("a".to_string(), 3));
    assert_eq!(once[2].0, "b");
    sort_mods(&mut mods);
    let twice: Vec<(String, u32)> = mods.iter().map(|m| (m.name.clone(), m.order)).collect();
    assert_eq!(once, twice);
}
