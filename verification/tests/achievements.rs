use dreamvault::achievements::{
    badge_url, game_progress, ra_console_id, urlencode, value_as_i64, RaAchievementJson,
    RaNumber, RaProgressJson,
};

fn ach(id: RaNumber, title: &str, points: RaNumber, badge: &str, order: i64, earned: Option<&str>) -> RaAchievementJson {
    RaAchievementJson {
        id: Some(id),
        title: Some(title.to_string()),
        description: Some(format!("{title} description")),
        points: Some(points),
        badge_name: Some(badge.to_string()),
        display_order: Some(RaNumber::Int(order)),
        date_earned_hardcore: None,
        date_earned: earned.map(String::from),
    }
}

#[test]
fn parses_progress_with_mixed_unlock_state() {
    let p = RaProgressJson {
        title: Some("Sonic the Hedgehog".to_string()),
        image_icon: Some("/Images/001.png".to_string()),
        achievements: Some(vec![
            ach(RaNumber::Text("2".to_string()), "Speedrun", RaNumber::Text("10".to_string()), "0", 1, None),
            ach(RaNumber::Int(1), "Ring King", RaNumber::Int(5), "12345", 0, Some("2024-01-02 10:00:00")),
        ]),
    };
    let (title, icon, achs) = game_progress(&p, "g1");
    assert_eq!(title.as_deref(), Some("Sonic the Hedgehog"));
    assert!(icon.unwrap().ends_with("/Images/001.png"));
    assert_eq!(achs.len(), 2);
    assert_eq!(achs[0].ra_id, 1);
    assert!(achs[0].unlocked);
    assert_eq!(achs[0].badge_url.as_deref(), Some("https://media.retroachievements.org/Badge/12345.png"));
    assert_eq!(achs[1].ra_id, 2);
    assert_eq!(achs[1].points, 10);
    assert!(!achs[1].unlocked);
    assert!(achs[1].badge_url.is_none());
    assert_eq!(achs[1].game_id, "g1");
}

#[test]
fn console_mapping_covers_ra_supported_platforms() {
    for p in [
        "nes", "snes", "n64", "gb", "gbc", "gba", "nds", "genesis", "ps1", "ps2", "psp",
        "pcengine", "segacd", "sega32x", "sms", "lynx", "ngp", "gamegear", "jaguar",
        "atari2600", "arcade", "virtualboy", "saturn", "dreamcast", "colecovision",
        "wonderswan", "atari7800", "msx",
    ] {
        assert!(ra_console_id(p).is_some(), "no RA console id for {p}");
    }
    assert!(ra_console_id("ps3").is_none());
    assert!(ra_console_id("switch").is_none());
}

#[test]
fn ids_without_value_are_dropped_and_ties_keep_reply_order() {
    let mut zero = ach(RaNumber::Int(0), "Ghost", RaNumber::Int(1), "1", 0, None);
    zero.title = None;
    let mut untitled = ach(RaNumber::Text(" 7 ".to_string()), "x", RaNumber::Other, "", 3, None);
    untitled.title = None;
    untitled.date_earned_hardcore = Some(String::new());
    untitled.date_earned = Some("2024".to_string());
    let a = ach(RaNumber::Int(9), "A", RaNumber::Int(1), "9", 3, None);
    let p = RaProgressJson { title: None, image_icon: None, achievements: Some(vec![zero, untitled, a]) };
    let (title, icon, achs) = game_progress(&p, "g");
    assert!(title.is_none() && icon.is_none());
    assert_eq!(achs.iter().map(|a| a.ra_id).collect::<Vec<_>>(), vec![7, 9]);
    assert_eq!(achs[0].title, "(untitled)");
    assert_eq!(achs[0].points, 0);
    // An empty hardcore date wins over the softcore one, and means locked.
    assert!(!achs[0].unlocked);
    let none = RaProgressJson { title: None, image_icon: None, achievements: None };
    assert!(game_progress(&none, "g").2.is_empty());
}

#[test]
fn numbers_badges_and_encoding() {
    assert_eq!(value_as_i64(&RaNumber::Text(" 42 ".to_string())), Some(42));
    assert_eq!(value_as_i64(&RaNumber::Text("x".to_string())), None);
    assert_eq!(value_as_i64(&RaNumber::Other), None);
    assert_eq!(badge_url("  "), None);
    assert_eq!(badge_url(" 0 "), None);
    assert_eq!(badge_url(" 7 ").as_deref(), Some("https://media.retroachievements.org/Badge/7.png"));
    assert_eq!(urlencode("Sonic & Tails"), "Sonic%20%26%20Tails");
}
