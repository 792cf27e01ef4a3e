use dreamvault::adapters::retroarch::{advertised_platforms, core_candidates};
use dreamvault::config::ScreenScraperCredentials;
use dreamvault::paths::{join_path, ArcadiaPaths};
use dreamvault::save_states::{
    collect_save_states, disc_key_kind, slot_from_suffix, slot_label, DiscKey, StateFile,
};
use dreamvault::saves::{
    flatpak_app_id_of, is_save_file_of, is_screenshot_of, retroarch_save_dirs,
    retroarch_screenshot_dirs, sibling_name, Manifest, ManifestEntry,
};

fn file(name: &str) -> StateFile {
    StateFile {
        name: name.to_string(),
        path: format!("/states/{name}"),
        byte_size: name.len() as i64,
        modified_at: Some("2024-01-01T00:00:00+00:00".to_string()),
    }
}

#[test]
fn unconfigured_without_dev_credentials() {
    let mut c = ScreenScraperCredentials::default();
    c.user_id = "luci".into();
    assert!(!c.is_configured());
    c.dev_id = "d".into();
    c.dev_password = "p".into();
    assert!(c.is_configured());
}

#[test]
fn every_advertised_platform_has_core_candidates() {
    let advertised = advertised_platforms();
    for p in &advertised {
        assert!(!core_candidates(p).is_empty(), "no core mapped for {p}");
    }
    assert!(core_candidates("ps3").is_empty());
    assert!(!advertised.contains(&"ps3"));
}

#[test]
fn base_directories_join_their_files() {
    let p = ArcadiaPaths {
        config_dir: "/home/u/.config/arcadia".to_string(),
        data_dir: "/home/u/.local/share/arcadia/".to_string(),
        cache_dir: "/home/u/.cache/arcadia".to_string(),
        state_dir: "/home/u/.local/state/arcadia".to_string(),
    };
    assert_eq!(p.database_path(), "/home/u/.local/share/arcadia/arcadia.db");
    assert_eq!(p.artwork_dir(), "/home/u/.cache/arcadia/artwork");
    assert_eq!(p.screenshots_dir(), "/home/u/.cache/arcadia/screenshots");
    assert_eq!(p.playlists_dir(), "/home/u/.cache/arcadia/playlists");
    assert_eq!(join_path("", "x"), "x");
}

#[test]
fn slots_and_labels() {
    assert_eq!(slot_from_suffix(""), Some(0));
    assert_eq!(slot_from_suffix(".auto"), Some(-1));
    assert_eq!(slot_from_suffix("3"), Some(3));
    assert_eq!(slot_from_suffix("-3"), None);
    assert_eq!(slot_from_suffix(".png"), None);
    assert_eq!(slot_label(-1), "Auto-save");
    assert_eq!(slot_label(4), "Slot 4");
    assert_eq!(slot_label(-7), "Slot -7");
    assert_eq!(slot_label(i64::MIN), format!("Slot {}", i64::MIN));
}

#[test]
fn discovers_and_classifies_slots_with_thumbnails() {
    let files = vec![
        file("Game.state2"),
        file("Game.state.png"),
        file("Game.state"),
        file("Game.state.auto"),
        file("Game.state2.png"),
        file("Other.state1"),
        file("Game.srm"),
    ];
    let states = collect_save_states(&files, "Game");
    let slots: Vec<i64> = states.iter().map(|s| s.slot).collect();
    assert_eq!(slots, vec![-1, 0, 2]);
    assert_eq!(states[0].label, "Auto-save");
    assert_eq!(states[1].thumbnail.as_deref(), Some("/states/Game.state.png"));
    assert_eq!(states[2].thumbnail.as_deref(), Some("/states/Game.state2.png"));
    assert!(states[0].thumbnail.is_none());
    assert_eq!(states[2].label, "Slot 2");
    assert_eq!(states[2].path, "/states/Game.state2");
}

#[test]
fn thumbnail_only_does_not_create_a_phantom_slot() {
    let states = collect_save_states(&vec![file("Game.state3.png")], "Game");
    assert!(states.is_empty());
    assert!(collect_save_states(&vec![], "Game").is_empty());
}

#[test]
fn disc_keys_by_platform() {
    assert_eq!(disc_key_kind("ps2"), DiscKey::Serial);
    assert_eq!(disc_key_kind("wii"), DiscKey::NintendoId);
    assert_eq!(disc_key_kind("snes"), DiscKey::NoKey);
}

#[test]
fn matches_save_files_by_rom_stem() {
    assert!(is_save_file_of("Super Mario 64.srm", "Super Mario 64"));
    assert!(is_save_file_of("Super Mario 64.state1", "Super Mario 64"));
    assert!(!is_save_file_of("Zelda.srm", "Super Mario 64"));
    assert!(!is_save_file_of("Super Mario 64", "Super Mario 64"));
}

#[test]
fn unique_sibling_avoids_clobbering() {
    assert_eq!(sibling_name("/saves/game.srm", 1), "game (1).srm");
    assert_eq!(sibling_name("/saves/game.srm", 2), "game (2).srm");
    assert_eq!(sibling_name("/saves/README", 3), "README (3)");
    assert_eq!(sibling_name("/", 1), "file (1)");
}

#[test]
fn retroarch_directories_for_native_and_flatpak() {
    assert!(retroarch_save_dirs(None, None).is_empty());
    assert_eq!(
        retroarch_save_dirs(Some("/home/u"), None),
        vec!["/home/u/.config/retroarch/saves", "/home/u/.config/retroarch/states"]
    );
    assert_eq!(
        retroarch_screenshot_dirs(Some("/home/u"), Some("org.libretro.RetroArch")),
        vec!["/home/u/.var/app/org.libretro.RetroArch/config/retroarch/screenshots"]
    );
    assert_eq!(
        flatpak_app_id_of("Flatpak", "flatpak run org.libretro.RetroArch").as_deref(),
        Some("org.libretro.RetroArch")
    );
    assert_eq!(flatpak_app_id_of("Manual", "/usr/bin/retroarch"), None);
    assert_eq!(flatpak_app_id_of("Flatpak", "flatpak run"), None);
}

#[test]
fn matches_screenshots_by_rom_stem() {
    assert!(is_screenshot_of("/shots/Sonic.png", "Sonic"));
    assert!(is_screenshot_of("/shots/Sonic-241230-101010.PNG", "Sonic"));
    assert!(is_screenshot_of("/shots/Sonic 2024.jpg", "Sonic"));
    assert!(!is_screenshot_of("/shots/Sonic2.png", "Sonic"));
    assert!(!is_screenshot_of("/shots/Sonic.txt", "Sonic"));
    let m = Manifest { entries: vec![ManifestEntry { file: "a.srm".into(), original: "/s/a.srm".into() }] };
    assert_eq!(m.entries[0].file, "a.srm");
    assert!(Manifest::default().entries.is_empty());
}

#[test]
fn keep_both_candidates_never_repeat() {
    let names: Vec<String> = (1..=25).map(|n| sibling_name("/saves/game.srm", n)).collect();
    for (i, a) in names.iter().enumerate() {
        for b in &names[i + 1..] {
            assert_ne!(a, b);
        }
    }
    assert_ne!(sibling_name("/saves/game.srm", 1), sibling_name("/saves/game.srm", 11));
}
