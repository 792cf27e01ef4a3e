use dreamvault::achievements::{
    game_list_url, progress_url, search_candidates, summary_url, user_summary, RaGameJson, RaNumber,
    RaSummaryJson,
};
use dreamvault::adapters::standalone::{KeyLearner, SlotParser};
use dreamvault::config::{RetroAchievementsCredentials, ScreenScraperCredentials};
use dreamvault::metadata::{
    boxart_index_cache_path, boxart_index_url, boxart_url, libretro_cache_path,
    local_art_candidates, ps3_art_patch, ps3_art_paths, screenscraper_cache_path,
    screenscraper_url,
};
use dreamvault::save_states::{collect_slots, learn_key_from, StateFile, TimedFile};

#[test]
fn local_art_is_probed_beside_the_rom_then_in_art_folders() {
    let c = local_art_candidates("/roms/snes/Super Metroid.sfc");
    assert_eq!(c.len(), 24);
    assert_eq!(c[0], "/roms/snes/Super Metroid.png");
    assert_eq!(c[3], "/roms/snes/Super Metroid.webp");
    assert_eq!(c[4], "/roms/snes/media/Super Metroid.png");
    assert_eq!(c[9], "/roms/snes/covers/Super Metroid.jpg");
    assert_eq!(c[23], "/roms/snes/images/Super Metroid.webp");
}

#[test]
fn ps3_disc_art_paths_from_eboot_and_root() {
    let (icon, pic) = ps3_art_paths("/r/Game/PS3_GAME/USRDIR/EBOOT.BIN").unwrap();
    assert_eq!(icon, "/r/Game/PS3_GAME/ICON0.PNG");
    assert_eq!(pic, "/r/Game/PS3_GAME/PIC1.PNG");
    let (icon, _) = ps3_art_paths("/r/Game/PS3_GAME/USRDIR/eboot.bin").unwrap();
    assert!(icon.ends_with("PS3_GAME/ICON0.PNG"));
    let (icon, pic) = ps3_art_paths("/r/Game").unwrap();
    assert_eq!(icon, "/r/Game/PS3_GAME/ICON0.PNG");
    assert_eq!(pic, "/r/Game/PS3_GAME/PIC1.PNG");
    assert!(ps3_art_patch(None, None).is_none());
    let p = ps3_art_patch(Some("i".into()), None).unwrap();
    assert_eq!(p.cover_art.as_deref(), Some("i"));
    assert!(p.background_art.is_none());
}

#[test]
fn libretro_caches_and_urls() {
    assert_eq!(
        libretro_cache_path("/cache", "snes", "/r/Super Mario World (USA).sfc", "SMW"),
        "/cache/libretro/snes/Super Mario World (USA).png"
    );
    assert_eq!(libretro_cache_path("/cache", "snes", "/", "A&B"), "/cache/libretro/snes/A_B.png");
    assert_eq!(boxart_index_cache_path("/cache", "snes"), "/cache/libretro/_index/snes.txt");
    assert_eq!(
        boxart_index_url("Nintendo - Super Nintendo Entertainment System"),
        "https://thumbnails.libretro.com/Nintendo%20-%20Super%20Nintendo%20Entertainment%20System/Named_Boxarts/"
    );
    assert_eq!(
        boxart_url("MAME", "Street Fighter II: The World Warrior"),
        "https://thumbnails.libretro.com/MAME/Named_Boxarts/Street%20Fighter%20II_%20The%20World%20Warrior.png"
    );
}

#[test]
fn screenscraper_cache_and_request() {
    assert_eq!(
        screenscraper_cache_path("/cache", "n64", "/r/Zelda: OoT (USA).z64", "t"),
        "/cache/screenscraper/n64/Zelda__OoT__USA_.json"
    );
    let creds = ScreenScraperCredentials {
        dev_id: "dev".into(),
        dev_password: "p w".into(),
        user_id: " ".into(),
        user_password: "x".into(),
    };
    assert_eq!(
        screenscraper_url(&creds, "Super Mario 64", 14),
        "https://www.screenscraper.fr/api2/jeuInfos.php?output=json&devid=dev&devpassword=p%20w&softname=Arcadia&systemeid=14&romnom=Super%20Mario%2064"
    );
    let with_user = ScreenScraperCredentials { user_id: "me".into(), user_password: "s&cret".into(), ..creds };
    assert!(screenscraper_url(&with_user, "G", 1).ends_with("&romnom=G&ssid=me&sspassword=s%26cret"));
}

fn ra() -> RetroAchievementsCredentials {
    RetroAchievementsCredentials { username: "Some User".into(), api_key: "KEY".into() }
}

#[test]
fn retroachievements_urls() {
    assert_eq!(
        game_list_url(&ra(), 3),
        "https://retroachievements.org/API/API_GetGameList.php?z=Some%20User&y=KEY&i=3&f=1"
    );
    assert_eq!(
        progress_url(&ra(), 1446),
        "https://retroachievements.org/API/API_GetGameInfoAndUserProgress.php?z=Some%20User&y=KEY&u=Some%20User&g=1446"
    );
    assert_eq!(
        summary_url(&ra()),
        "https://retroachievements.org/API/API_GetUserSummary.php?z=Some%20User&y=KEY&u=Some%20User&g=5&a=5"
    );
}

fn game(title: &str, id: Option<RaNumber>) -> RaGameJson {
    RaGameJson { title: Some(title.to_string()), id }
}

#[test]
fn ra_search_keeps_matching_titles_with_ids() {
    let games = vec![
        game("Super Mario Bros.", Some(RaNumber::Int(1))),
        game("Mario Kart", Some(RaNumber::Text("7".into()))),
        game("Zelda", Some(RaNumber::Int(3))),
        game("Dr. MARIO", None),
        RaGameJson { title: None, id: Some(RaNumber::Int(9)) },
    ];
    let hits = search_candidates(&games, "  mario ");
    let got: Vec<(i64, &str)> = hits.iter().map(|c| (c.ra_game_id, c.title.as_str())).collect();
    assert_eq!(got, vec![(1, "Super Mario Bros."), (7, "Mario Kart")]);
    assert_eq!(search_candidates(&games, "").len(), 4);
    let many: Vec<RaGameJson> = (0..80).map(|i| game("Game", Some(RaNumber::Int(i + 1)))).collect();
    assert_eq!(search_candidates(&many, "game").len(), 50);
}

#[test]
fn ra_summary_counts_default_to_zero() {
    let s = user_summary(
        "me",
        &RaSummaryJson { total_points: Some(RaNumber::Text("1200".into())), rank: None, recently_played: Some(3) },
    );
    assert_eq!(s.username, "me");
    assert_eq!(s.total_points, 1200);
    assert_eq!(s.rank, 0);
    assert_eq!(s.recently_played_count, 3);
}

fn sf(name: &str) -> StateFile {
    StateFile { name: name.into(), path: format!("/s/{name}"), byte_size: 10, modified_at: None }
}

#[test]
fn standalone_slots_sorted_by_slot() {
    let files = vec![sf("Game.002"), sf("Other.000"), sf("Game.000"), sf("notes.txt")];
    let states = collect_slots(&files, SlotParser::Snes9x, "Game");
    let slots: Vec<i64> = states.iter().map(|s| s.slot).collect();
    assert_eq!(slots, vec![0, 2]);
    assert_eq!(states[0].path, "/s/Game.000");
    assert!(states.iter().all(|s| s.thumbnail.is_none()));
}

#[test]
fn learned_key_is_the_latest_written_this_session() {
    let files = vec![
        TimedFile { name: "SLUS-20415 (2999BCF9).01.p2s".into(), modified: Some(100) },
        TimedFile { name: "SCES-50000 (11111111).00.p2s".into(), modified: Some(300) },
        TimedFile { name: "SLES-99999 (22222222).00.p2s".into(), modified: Some(50) },
        TimedFile { name: "notes.txt".into(), modified: Some(400) },
    ];
    assert_eq!(learn_key_from(&files, KeyLearner::Pcsx2Serial, 90).as_deref(), Some("SCES-50000"));
    assert_eq!(learn_key_from(&files, KeyLearner::Pcsx2Serial, 500), None);
}
