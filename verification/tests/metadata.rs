use dreamvault::metadata::{
    candidate_names, encode_segment, hex_val, libretro_filename, libretro_system_name,
    match_tally, normalize_tokens, parse_boxart_index, percent_decode, pick_localized,
    pick_regional, rank_cover_candidates, regions_for, screenscraper_patch,
    screenscraper_system_id, urlencode, LocalProvider, MatchTally, MetadataPatch, SsGame, SsText,
};

fn item(code: Option<&str>, text: Option<&str>) -> SsText {
    SsText { code: code.map(String::from), text: text.map(String::from) }
}

#[test]
fn rank_cover_candidates_lists_libretro_first_and_tags_sources() {
    let out = rank_cover_candidates(
        vec!["Street Fighter II".into()],
        vec![("Street Fighter II Turbo".into(), "s/sf2t.jpg".into())],
    );
    assert_eq!(out.len(), 2);
    assert_eq!(out[0].source, "libretro");
    assert_eq!(out[0].label, "Street Fighter II");
    assert_eq!(out[0].token, "Street Fighter II");
    assert_eq!(out[1].source, "launchbox");
    assert_eq!(out[1].label, "Street Fighter II Turbo");
    assert_eq!(out[1].token, "s/sf2t.jpg");
}

#[test]
fn libretro_system_name_maps_arcade_to_mame() {
    assert_eq!(libretro_system_name("arcade"), Some("MAME"));
    assert_eq!(libretro_system_name("snes"), Some("Nintendo - Super Nintendo Entertainment System"));
    assert_eq!(libretro_system_name("switch"), None);
}

#[test]
fn thumbnail_names_and_encoding() {
    assert_eq!(libretro_filename("Sonic & Knuckles: Blue?"), "Sonic _ Knuckles_ Blue_");
    assert_eq!(encode_segment("Sonic & Knuckles (USA).png"), "Sonic%20%26%20Knuckles%20%28USA%29.png");
    assert_eq!(urlencode("a b~c"), "a%20b~c");
    assert_eq!(urlencode("é"), "%C3%A9");
    assert_eq!(percent_decode("Sonic%20%26%20Knuckles"), "Sonic & Knuckles");
    assert_eq!(percent_decode("A%41"), "AA");
    assert_eq!(percent_decode("A%4"), "A%4");
    assert_eq!(percent_decode("%zz%41x"), "%zzAx");
    assert_eq!(hex_val(b'f'), Some(15));
    assert_eq!(hex_val(b'G'), None);
}

#[test]
fn regions_detected_first_then_fallbacks() {
    assert_eq!(regions_for("Game (Japan)"), vec!["Japan", "USA", "Europe", "World"]);
    assert_eq!(regions_for("Game (UE)"), vec!["USA", "Europe", "Japan", "World"]);
    assert_eq!(regions_for("Game"), vec!["USA", "Europe", "Japan", "World"]);
    let names = candidate_names("Game (E)", "Game");
    assert_eq!(
        names,
        vec!["Game (Europe)", "Game (USA)", "Game (Japan)", "Game (World)", "Game (E)", "Game"]
    );
    let names = candidate_names("Game", "Game");
    assert_eq!(names.last().unwrap(), "Game");
    assert_eq!(names.len(), 5);
}

#[test]
fn tokens_and_tally() {
    assert_eq!(normalize_tokens("Super Mario-World!"), vec!["super", "mario", "world"]);
    let qt = normalize_tokens("mario world");
    let t = match_tally(&qt, "mario world", "Super Mario World (USA)").unwrap();
    assert_eq!(t, MatchTally { matched: 2, total: 2, substring: true });
    let t = match_tally(&qt, "mario world", "World of Mario").unwrap();
    assert_eq!(t, MatchTally { matched: 2, total: 2, substring: false });
    assert!(match_tally(&qt, "mario world", "!!!").is_none());
    assert!(match_tally(&Vec::new(), "", "Mario").is_none());
}

#[test]
fn boxart_index_is_decoded_sorted_and_unique() {
    let html = r#"<a href="../">../</a>
<a href="Zelda%20(USA).png">x</a>
<a href="Alpha.png">y</a>
<a href="Alpha.png">y</a>
<a href="sub/">dir</a>
<a href="bad%2Fname.png">z</a>
<a href="notes.txt">t</a>"#;
    assert_eq!(parse_boxart_index(html), vec!["Alpha".to_string(), "Zelda (USA)".to_string()]);
    assert!(parse_boxart_index("no links").is_empty());
}

#[test]
fn screenscraper_ids_and_picks() {
    assert_eq!(screenscraper_system_id("switch"), Some(225));
    assert_eq!(screenscraper_system_id("arcade"), None);
    let syn = vec![item(Some("fr"), Some("Bonjour")), item(Some("en"), Some("  Hello ")), item(Some("de"), Some(""))];
    assert_eq!(pick_localized(&syn, "en").as_deref(), Some("Hello"));
    assert_eq!(pick_localized(&syn, "es").as_deref(), Some("Bonjour"));
    let dates = vec![item(Some("jp"), Some("1990")), item(Some("us"), Some("1991")), item(Some("wor"), Some(" "))];
    assert_eq!(pick_regional(&dates, &vec!["wor", "us", "eu", "jp", "ss"]).as_deref(), Some("1991"));
    assert_eq!(pick_regional(&vec![item(None, None)], &vec!["wor"]), None);
}

#[test]
fn parses_screenscraper_text_fields_preferring_language_and_region() {
    let game = SsGame {
        synopsis: Some(vec![item(Some("fr"), Some("Un jeu")), item(Some("en"), Some("A game"))]),
        first_genre_names: Some(vec![item(Some("en"), Some("Platform"))]),
        developer: Some(" Sega ".to_string()),
        publisher: Some("".to_string()),
        dates: Some(vec![item(Some("eu"), Some("1992-06-01")), item(Some("us"), Some("1991-06-23"))]),
    };
    let p = screenscraper_patch(&game, "en");
    assert_eq!(p.description.as_deref(), Some("A game"));
    assert_eq!(p.genre.as_deref(), Some("Platform"));
    assert_eq!(p.developer.as_deref(), Some("Sega"));
    assert_eq!(p.publisher, None);
    assert_eq!(p.release_date.as_deref(), Some("1991-06-23"));
    assert!(p.cover_art.is_none());
    assert!(!p.is_empty());
    assert!(MetadataPatch::default().is_empty());
    assert_eq!(LocalProvider.id(), "local");
}

#[test]
fn decoding_an_encoding_gives_the_text_back() {
    for s in ["Pokémon: Red!", "a b~c", "100% & more/less", "", "東方"] {
        assert_eq!(percent_decode(&urlencode(s)), s);
    }
}
