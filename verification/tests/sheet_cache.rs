use deathframe::asset_path::{plan_load, ImageFormat, LoadError};
use deathframe::sprite_sheet::{SpriteSheetHandle, SpriteSheetHandles};

#[test]
fn plan_derives_name_descriptor_and_format() {
    let plan = plan_load("assets/tiles/tile.jpeg").unwrap();
    assert_eq!(plan.image_path, b"assets/tiles/tile.jpeg".to_vec());
    assert_eq!(plan.name, b"tile".to_vec());
    assert_eq!(plan.descriptor_path, b"assets/tiles/tile.ron".to_vec());
    assert_eq!(plan.format, ImageFormat::Jpg);
}

#[test]
fn plan_accepts_every_image_extension_case_insensitively() {
    assert_eq!(plan_load("a.png").unwrap().format, ImageFormat::Png);
    assert_eq!(plan_load("a.PNG").unwrap().format, ImageFormat::Png);
    assert_eq!(plan_load("a.jpg").unwrap().format, ImageFormat::Jpg);
    assert_eq!(plan_load("a.JpEg").unwrap().format, ImageFormat::Jpg);
    assert_eq!(plan_load("a.bmp").unwrap().format, ImageFormat::Bmp);
    assert_eq!(plan_load("a.TGA").unwrap().format, ImageFormat::Tga);
}

#[test]
fn plan_rejects_bad_paths() {
    assert_eq!(plan_load("noextension"), Err(LoadError::UnparseablePath));
    assert_eq!(plan_load("dir.d/noextension"), Err(LoadError::UnparseablePath));
    assert_eq!(plan_load("sprites/.png"), Err(LoadError::UnparseablePath));
    assert_eq!(plan_load(""), Err(LoadError::UnparseablePath));
    assert_eq!(plan_load("image.gif"), Err(LoadError::UnsupportedExtension));
    assert_eq!(plan_load("image."), Err(LoadError::UnsupportedExtension));
    assert_eq!(plan_load("a/b/c.webp"), Err(LoadError::UnsupportedExtension));
}

#[test]
fn load_resolves_under_every_spelling() {
    let mut cache = SpriteSheetHandles::default();
    let handle = cache.load("assets/sprites/hero.PNG", true, true).unwrap();
    assert_eq!(cache.get("hero.png"), Some(handle));
    assert_eq!(cache.get("hero"), Some(handle));
    assert_eq!(cache.get("assets/sprites/hero.PNG"), Some(handle));
    assert_eq!(cache.get("elsewhere/hero.bmp"), Some(handle));
}

#[test]
fn load_failure_produces_no_entry() {
    let mut cache = SpriteSheetHandles::default();
    assert_eq!(
        cache.load("assets/hero.png", false, true),
        Err(LoadError::MissingImageFile)
    );
    assert_eq!(
        cache.load("assets/hero.png", true, false),
        Err(LoadError::MissingDescriptorFile)
    );
    assert_eq!(
        cache.load("assets/hero.gif", true, true),
        Err(LoadError::UnsupportedExtension)
    );
    assert_eq!(cache.get("hero"), None);
    assert!(cache.has_finished_loading_all());
}

#[test]
fn missing_image_is_reported_before_bad_extension() {
    let mut cache = SpriteSheetHandles::default();
    assert_eq!(
        cache.load("assets/hero.gif", false, true),
        Err(LoadError::MissingImageFile)
    );
}

#[test]
fn get_or_load_is_idempotent() {
    let mut cache = SpriteSheetHandles::default();
    let (h1, issued1) = cache.get_or_load("assets/sprites/hero.PNG", true, true).unwrap();
    let (h2, issued2) = cache.get_or_load("hero.png", true, true).unwrap();
    let (h3, issued3) = cache.get_or_load("other/dir/hero.jpg", true, true).unwrap();
    assert!(issued1);
    assert!(!issued2);
    assert!(!issued3);
    assert_eq!(h1, h2);
    assert_eq!(h1, h3);
}

#[test]
fn distinct_names_load_distinct_handles() {
    let mut cache = SpriteSheetHandles::default();
    let hero = cache.load("sprites/hero.png", true, true).unwrap();
    let tile = cache.load("sprites/tile.png", true, true).unwrap();
    assert_ne!(hero, tile);
    assert_eq!(cache.get("hero"), Some(hero));
    assert_eq!(cache.get("tile"), Some(tile));
}

#[test]
fn lookup_miss_is_none() {
    let cache = SpriteSheetHandles::default();
    assert_eq!(cache.get("nothing"), None);
    assert_eq!(cache.get("dir/nothing.png"), None);
}

#[test]
fn insert_registers_under_the_given_name() {
    let mut cache = SpriteSheetHandles::default();
    let handle = SpriteSheetHandle { id: 42 };
    cache.insert("custom", handle);
    assert_eq!(cache.get("custom"), Some(handle));
    assert_eq!(cache.get("somewhere/custom.png"), Some(handle));
}

#[test]
fn readiness_poll_tracks_every_entry() {
    let mut cache = SpriteSheetHandles::default();
    // Zero registered handles: vacuously finished.
    assert!(cache.has_finished_loading_all());

    cache.load("a/hero.png", true, true).unwrap();
    cache.load("a/tile.png", true, true).unwrap();
    assert!(!cache.has_finished_loading_all());

    cache.mark_resolved("hero");
    assert!(!cache.has_finished_loading_all());

    // Marking by an equivalent path spelling works too.
    cache.mark_resolved("a/tile.png");
    assert!(cache.has_finished_loading_all());

    // Unknown names are ignored.
    cache.mark_resolved("stranger");
    assert!(cache.has_finished_loading_all());
}

#[test]
fn reloading_a_name_replaces_the_entry() {
    let mut cache = SpriteSheetHandles::default();
    let h1 = cache.load("a/hero.png", true, true).unwrap();
    cache.mark_resolved("hero");
    assert!(cache.has_finished_loading_all());
    let h2 = cache.load("b/hero.tga", true, true).unwrap();
    assert_ne!(h1, h2);
    assert_eq!(cache.get("hero"), Some(h2));
    // The fresh entry is unresolved again.
    assert!(!cache.has_finished_loading_all());
}
