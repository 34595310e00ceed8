use assets::assets::Assets;
use assets::scan::{scan_pattern, AssetKind};
use assets::table::AssetMap;

type Registry = Assets<u32, u32, &'static str, &'static str, u64>;

fn found<T>(files: Vec<(&str, T)>) -> Vec<(String, T)> {
    files.into_iter().map(|(p, v)| (p.to_string(), v)).collect()
}

#[test]
fn new_registry_is_empty() {
    let a: Registry = Assets::new();
    assert_eq!(a.textures.len(), 0);
    assert_eq!(a.images.len(), 0);
    assert_eq!(a.sounds.len(), 0);
    assert_eq!(a.music.len(), 0);
    assert_eq!(a.models.len(), 0);
}

#[test]
fn textures_are_keyed_by_stem() {
    let a: Registry = Assets::new().with_textures(found(vec![
        ("assets/textures/hero.png", 1),
        ("assets/textures/wall.png", 2),
        ("assets/textures/missing.png", 9),
    ]));
    assert_eq!(a.textures.len(), 3);
    assert!(a.textures.contains_key("hero"));
    assert!(!a.textures.contains_key("assets/textures/hero.png"));
    assert!(!a.textures.contains_key("hero.png"));
    assert_eq!(*a.get_tex("hero"), 1);
    assert_eq!(*a.get_tex("wall"), 2);
    assert_eq!(a.images.len(), 0);
}

#[test]
fn n_files_with_unique_stems_give_n_entries() {
    let a: Registry = Assets::new().with_models(found(vec![
        ("m/ship.glb", 10u64),
        ("m/tree.glb", 11),
        ("m/rock.glb", 12),
        ("m/door.glb", 13),
    ]));
    assert_eq!(a.models.len(), 4);
    assert_eq!(*a.get_model("ship"), 10);
    assert_eq!(*a.get_model("tree"), 11);
    assert_eq!(*a.get_model("rock"), 12);
    assert_eq!(*a.get_model("door"), 13);
}

#[test]
fn absent_texture_falls_back_to_missing() {
    let a: Registry = Assets::new().with_textures(found(vec![
        ("t/missing.png", 99),
        ("t/grass.png", 5),
    ]));
    assert_eq!(*a.get_tex("grass"), 5);
    assert_eq!(*a.get_tex("lava"), 99);
    assert_eq!(*a.get_tex(""), 99);
}

#[test]
fn absent_image_falls_back_to_missing() {
    let a: Registry = Assets::new().with_images(found(vec![
        ("img/missing.png", 0),
        ("img/icon.png", 4),
    ]));
    assert_eq!(*a.get_image("icon"), 4);
    assert_eq!(*a.get_image("logo"), 0);
    assert_eq!(a.textures.len(), 0);
}

#[test]
fn sounds_and_music_are_kept_apart() {
    let a: Registry = Assets::new()
        .with_sounds(found(vec![("sfx/jump.wav", "jump sound")]))
        .with_music(found(vec![("bgm/theme.wav", "theme track"), ("bgm/jump.wav", "jump track")]));
    assert_eq!(a.sounds.len(), 1);
    assert_eq!(a.music.len(), 2);
    assert_eq!(*a.get_sound("jump"), "jump sound");
    assert_eq!(*a.get_music("jump"), "jump track");
    assert_eq!(*a.get_music("theme"), "theme track");
    assert!(!a.sounds.contains_key("theme"));
}

#[test]
fn later_file_of_same_stem_replaces_earlier() {
    let a: Registry = Assets::new().with_textures(found(vec![
        ("one/hero.png", 1),
        ("two/hero.png", 2),
    ]));
    assert_eq!(a.textures.len(), 1);
    assert_eq!(*a.get_tex("hero"), 2);
}

#[test]
fn scans_add_to_existing_entries() {
    let a: Registry = Assets::new()
        .with_textures(found(vec![("a/hero.png", 1)]))
        .with_textures(found(vec![("b/wall.png", 2), ("b/hero.png", 3)]));
    assert_eq!(a.textures.len(), 2);
    assert_eq!(*a.get_tex("hero"), 3);
    assert_eq!(*a.get_tex("wall"), 2);
}

#[test]
fn stem_drops_only_last_extension() {
    let a: Registry = Assets::new().with_textures(found(vec![
        ("t/ui.button.png", 1),
        ("t/.png", 2),
        ("plain", 3),
    ]));
    assert_eq!(a.textures.len(), 3);
    assert_eq!(*a.get_tex("ui.button"), 1);
    assert_eq!(*a.get_tex(".png"), 2);
    assert_eq!(*a.get_tex("plain"), 3);
}

#[test]
fn path_without_file_name_is_skipped() {
    let a: Registry = Assets::new().with_models(found(vec![("", 1u64), ("..", 2), ("m/cube.glb", 3)]));
    assert_eq!(a.models.len(), 1);
    assert_eq!(*a.get_model("cube"), 3);
}

#[test]
fn empty_scan_leaves_registry_unchanged() {
    let a: Registry = Assets::new().with_sounds(Vec::new()).with_images(Vec::new());
    assert_eq!(a.sounds.len(), 0);
    assert_eq!(a.images.len(), 0);
}

#[test]
fn scan_patterns_per_kind() {
    assert_eq!(scan_pattern("assets/textures", AssetKind::Texture), "assets/textures/*.png");
    assert_eq!(scan_pattern("assets/images", AssetKind::Image), "assets/images/*.png");
    assert_eq!(scan_pattern("sfx", AssetKind::Sound), "sfx/*.wav");
    assert_eq!(scan_pattern("bgm", AssetKind::Music), "bgm/*.wav");
    assert_eq!(scan_pattern("models", AssetKind::Model), "models/*.glb");
    assert_eq!(scan_pattern("", AssetKind::Model), "/*.glb");
}

#[test]
fn extensions_per_kind() {
    assert_eq!(AssetKind::Texture.extension(), ".png");
    assert_eq!(AssetKind::Image.extension(), ".png");
    assert_eq!(AssetKind::Sound.extension(), ".wav");
    assert_eq!(AssetKind::Music.extension(), ".wav");
    assert_eq!(AssetKind::Model.extension(), ".glb");
}

#[test]
fn table_insert_get_and_replace() {
    let mut t: AssetMap<u8> = AssetMap::new();
    assert_eq!(t.get("a"), None);
    t.insert("a".to_string(), 1);
    t.insert("b".to_string(), 2);
    t.insert("a".to_string(), 3);
    assert_eq!(t.len(), 2);
    assert_eq!(t.get("a"), Some(&3));
    assert_eq!(*t.entry("b"), 2);
    assert_eq!(t.get("c"), None);
}
