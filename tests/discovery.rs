use mod_manager::pack::{retrieve_loose_mods, retrieve_mods, retrieve_workshop_mods, DiskFile, Pack};
use mod_manager::paths::{extension, file_name, file_stem, join_path, parent};

fn file(p: &str) -> DiskFile {
    DiskFile { path: p.to_string(), last_updated: Some("2024-05-01T10:00:00+00:00".to_string()) }
}

fn paths_of(packs: &[Pack]) -> Vec<String> {
    let mut v: Vec<String> = packs.iter().map(|p| p.path.clone()).collect();
    v.sort();
    v
}

#[test]
fn workshop_pack_without_image_has_no_image() {
    let files = vec![file("/ws/100/foo.pack")];
    let packs = retrieve_workshop_mods(&files);
    assert_eq!(packs.len(), 1);
    assert_eq!(packs[0].name, "foo");
    assert_eq!(packs[0].path, "/ws/100/foo.pack");
    assert!(packs[0].image.is_none());
    assert!(packs[0].from_steam_workshop);
    assert_eq!(packs[0].last_updated.as_deref(), Some("2024-05-01T10:00:00+00:00"));
}

#[test]
fn workshop_image_alone_yields_nothing() {
    let files = vec![file("/ws/200/bar.png")];
    assert!(retrieve_workshop_mods(&files).is_empty());
    let files = vec![file("/ws/200/bar.jpg"), file("/ws/201/other.jpeg"), file("/ws/202/readme.txt")];
    assert!(retrieve_workshop_mods(&files).is_empty());
}

#[test]
fn workshop_pack_with_image_in_group() {
    let files = vec![file("/ws/300/baz.jpg"), file("/ws/300/baz.pack"), file("/ws/301/qux.pack")];
    let mut packs = retrieve_workshop_mods(&files);
    packs.sort_by(|a, b| a.name.cmp(&b.name));
    assert_eq!(packs.len(), 2);
    assert_eq!(packs[0].name, "baz");
    assert_eq!(packs[0].image.as_deref(), Some("/ws/300/baz.jpg"));
    assert_eq!(packs[1].name, "qux");
    assert!(packs[1].image.is_none());
}

#[test]
fn workshop_group_takes_last_package_file() {
    let files = vec![file("/ws/1/dup.pack"), file("/ws/2/dup.pack")];
    let packs = retrieve_workshop_mods(&files);
    assert_eq!(packs.len(), 1);
    assert_eq!(packs[0].path, "/ws/2/dup.pack");
}

#[test]
fn workshop_empty_listing() {
    assert!(retrieve_workshop_mods(&vec![]).is_empty());
}

#[test]
fn loose_contribution_is_set_difference() {
    let files = vec![
        file("/game/data/a.pack"),
        file("/game/data/b.pack"),
        file("/game/data/notes.txt"),
        file("/game/data/d.pack"),
    ];
    let vanilla = vec!["b.pack".to_string()];
    let packs = retrieve_loose_mods("/game/data", &files, &vanilla);
    assert_eq!(paths_of(&packs), vec!["/game/data/a.pack".to_string(), "/game/data/d.pack".to_string()]);
    for p in &packs {
        assert!(!p.from_steam_workshop);
        assert!(p.image.is_none());
    }
}

#[test]
fn loose_contribution_ignores_enumeration_order() {
    let vanilla = vec!["/b.pack".to_string()];
    let f1 = vec![file("/game/data/a.pack"), file("/game/data/b.pack"), file("/game/data/c.pack")];
    let f2 = vec![file("/game/data/c.pack"), file("/game/data/b.pack"), file("/game/data/a.pack")];
    let first = retrieve_loose_mods("/game/data/", &f1, &vanilla);
    let second = retrieve_loose_mods("/game/data/", &f2, &vanilla);
    assert_eq!(paths_of(&first), paths_of(&second));
    assert_eq!(paths_of(&first), vec!["/game/data/a.pack".to_string(), "/game/data/c.pack".to_string()]);
}

#[test]
fn loose_listing_with_duplicates_gives_each_path_once() {
    let files = vec![file("/d/x.pack"), file("/d/x.pack")];
    let packs = retrieve_loose_mods("/d", &files, &vec![]);
    assert_eq!(packs.len(), 1);
    assert_eq!(packs[0].name, "x");
}

#[test]
fn merge_keeps_loose_before_workshop_without_dedup() {
    let loose = vec![file("/d/same.pack")];
    let ws = vec![file("/w/9/same.pack")];
    let all = retrieve_mods("/d", &loose, &Some(vec![]), &Some(ws.clone()));
    assert_eq!(all.len(), 2);
    assert!(!all[0].from_steam_workshop);
    assert!(all[1].from_steam_workshop);
    let no_manifest = retrieve_mods("/d", &loose, &None, &Some(ws));
    assert_eq!(no_manifest.len(), 1);
    assert!(no_manifest[0].from_steam_workshop);
    let no_workshop = retrieve_mods("/d", &loose, &Some(vec![]), &None);
    assert_eq!(no_workshop.len(), 1);
}

#[test]
fn path_parts() {
    assert_eq!(file_name("/a/b/c.pack"), "c.pack");
    assert_eq!(file_stem("/a/b/c.pack"), "c");
    assert_eq!(file_stem("/a/b/archive.tar.gz"), "archive.tar");
    assert_eq!(file_stem("/a/.hidden"), ".hidden");
    assert_eq!(extension("/a/b/c.pack").as_deref(), Some("pack"));
    assert_eq!(extension("/a/.hidden"), None);
    assert_eq!(extension("/a/b/noext"), None);
    assert_eq!(parent("/a/b/c.pack"), "/a/b");
    assert_eq!(parent("/c.pack"), "/");
    assert_eq!(parent("c.pack"), "");
    assert_eq!(join_path("/game", "data/"), "/game/data/");
    assert_eq!(join_path("/game/", "/data"), "/game/data");
    assert_eq!(join_path("", "x"), "x");
}

#[test]
fn pack_new_uses_stem() {
    let p = Pack::new(&"/x/y/My Mod.pack".to_string(), Some(&"/x/y/My Mod.png".to_string()), true, None);
    assert_eq!(p.name, "My Mod");
    assert_eq!(p.image.as_deref(), Some("/x/y/My Mod.png"));
    assert!(p.from_steam_workshop);
}
