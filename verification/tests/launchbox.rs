use dreamvault::launchbox::{arcadia_slug_for_launchbox, normalize_name, IMAGE_BASE, METADATA_URL};

#[test]
fn normalize_collapses_punctuation_and_case() {
    assert_eq!(normalize_name("Pokémon: Red!"), "pok mon red");
    assert_eq!(normalize_name("  Super   Mario  64 "), "super mario 64");
    assert_eq!(normalize_name("The Legend of Zelda"), "the legend of zelda");
}

#[test]
fn platform_mapping_known_and_unknown() {
    assert_eq!(arcadia_slug_for_launchbox("Super Nintendo Entertainment System"), Some("snes"));
    assert_eq!(arcadia_slug_for_launchbox("Sony Playstation"), Some("ps1"));
    assert_eq!(arcadia_slug_for_launchbox("Sega Pico"), None);
}

#[test]
fn normalize_edge_cases_and_sources() {
    assert_eq!(normalize_name(""), "");
    assert_eq!(normalize_name("!!!"), "");
    assert_eq!(normalize_name("a-b_c"), "a b c");
    assert_eq!(arcadia_slug_for_launchbox("WonderSwan"), Some("wonderswan"));
    assert_eq!(arcadia_slug_for_launchbox("sony playstation"), None);
    assert!(METADATA_URL.ends_with("Metadata.zip"));
    assert!(IMAGE_BASE.starts_with("https://"));
}

#[test]
fn normalizing_a_key_again_keeps_it() {
    for name in ["Pokémon: Red!", "  Super   Mario  64 ", "F-Zero_X (USA)", "", "!!!"] {
        let key = normalize_name(name);
        assert_eq!(normalize_name(&key), key);
    }
}
