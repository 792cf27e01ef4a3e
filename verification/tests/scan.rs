use dreamvault::library::{
    custom_title, game_list_sql, group_disc_sets, is_stale, path_within_exec, plan_disc_set,
    plan_index, plan_single, profile_name, progress_due, under_source, Candidate, GameQuery, SourceWalk,
};
use dreamvault::platforms::ContentProbe;

fn cand(title: &str, platform: &str, path: &str) -> Candidate {
    Candidate { title: title.to_string(), platform: platform.to_string(), rom_path: path.to_string(), size: 1 }
}

fn probe() -> ContentProbe {
    ContentProbe { disc: None, sibling_cue: false, bin_signature: None, cue_data_head: None, archive_names: Vec::new() }
}

#[test]
fn disc_set_collapses_into_one_game_with_numbered_discs() {
    let cands = vec![
        cand("Final Fantasy VII (USA) (Disc 2)", "ps1", "/r/Final Fantasy VII (USA) (Disc 2).chd"),
        cand("Crash Bandicoot (USA)", "ps1", "/r/Crash Bandicoot (USA).chd"),
        cand("Final Fantasy VII (USA) (Disc 1)", "ps1", "/r/Final Fantasy VII (USA) (Disc 1).chd"),
        cand("Final Fantasy VII (USA) (Disc 3)", "ps1", "/r/Final Fantasy VII (USA) (Disc 3).chd"),
    ];
    let (singles, groups) = group_disc_sets(&cands);
    assert_eq!(singles.len(), 1);
    assert_eq!(singles[0].rom_path, "/r/Crash Bandicoot (USA).chd");
    assert_eq!(groups.len(), 1);
    assert_eq!(groups[0].len(), 3);
    let e = plan_disc_set(&groups[0]).unwrap();
    assert_eq!(e.title, "Final Fantasy VII (USA)");
    assert!(e.rom_path.contains("Disc 1"));
    assert_eq!(e.discs.len(), 3);
    assert_eq!(e.discs[0].0, 1);
    assert_eq!(e.discs[0].2, "Disc 1");
    assert!(e.discs[1].1.contains("Disc 2"));
    assert_eq!(e.discs[2].0, 3);
    let s = plan_single(&singles[0]);
    assert_eq!(s.title, "Crash Bandicoot (USA)");
    assert!(s.discs.is_empty());
}

#[test]
fn lone_disc_marker_is_a_plain_game() {
    let cands = vec![cand("Game (Disc 1)", "ps1", "/r/Game (Disc 1).bin")];
    let (singles, groups) = group_disc_sets(&cands);
    assert!(singles.is_empty());
    assert_eq!(groups.len(), 1);
    let e = plan_disc_set(&groups[0]).unwrap();
    assert_eq!(e.title, "Game (Disc 1)");
    assert!(e.discs.is_empty());
}

#[test]
fn duplicate_disc_numbers_are_bumped_to_the_next_free_one() {
    let cands = vec![
        cand("Game (Disc 1)", "ps1", "/r/Game (Disc 1).chd"),
        cand("Game (Disc 1) (Rev A)", "ps1", "/r/Game (Disc 1) (Rev A).chd"),
        cand("Game (Disc 2)", "ps1", "/r/Game (Disc 2).chd"),
    ];
    let (_, groups) = group_disc_sets(&cands);
    assert_eq!(groups.len(), 1);
    let e = plan_disc_set(&groups[0]).unwrap();
    let numbers: Vec<i64> = e.discs.iter().map(|d| d.0).collect();
    assert_eq!(numbers, vec![1, 2, 3]);
    assert_eq!(e.discs[1].1, "/r/Game (Disc 1) (Rev A).chd");
    assert_eq!(e.discs[2].2, "Disc 3");
}

#[test]
fn sets_on_different_platforms_stay_apart() {
    let cands = vec![
        cand("Game (Disc 1)", "ps1", "/a/Game (Disc 1).chd"),
        cand("Game (Disc 1)", "saturn", "/b/Game (Disc 1).chd"),
    ];
    let (_, groups) = group_disc_sets(&cands);
    assert_eq!(groups.len(), 2);
}

#[test]
fn progress_is_reported_about_a_hundred_times() {
    assert!(progress_due(1, 50));
    assert!(progress_due(37, 50));
    assert!(!progress_due(1, 1000));
    assert!(progress_due(10, 1000));
    assert!(progress_due(1000, 1000));
    assert!(progress_due(999, 999));
}

#[test]
fn paths_within_compare_whole_components() {
    assert!(path_within_exec("/r/game/PS3_GAME/x", "/r/game"));
    assert!(path_within_exec("/r/game", "/r/game"));
    assert!(!path_within_exec("/r/gamex/y", "/r/game"));
    assert!(!path_within_exec("r/game/y", "/r/game"));
}

#[test]
fn walk_indexes_ps3_folder_once_and_skips_its_contents() {
    let mut w = SourceWalk::new();
    w.add_ps3_folder(
        "/r/BLES02166-[Call of Duty]",
        Some("Call of Duty: Black Ops III".to_string()),
        Some(("/r/BLES02166-[Call of Duty]/PS3_GAME/USRDIR/EBOOT.BIN".to_string(), 5)),
    );
    assert_eq!(w.candidates.len(), 1);
    assert_eq!(w.candidates[0].platform, "ps3");
    assert_eq!(w.candidates[0].title, "Call of Duty: Black Ops III");
    assert!(w.candidates[0].rom_path.ends_with("EBOOT.BIN"));
    // a file inside the folder is counted but not classified
    assert!(w.file_seen("/r/BLES02166-[Call of Duty]/PS3_GAME/USRDIR/EBOOT.BIN").is_none());
    assert_eq!(w.report.scanned_files, 1);
    assert_eq!(w.report.unrecognized, 0);
    // an ISO named by its title id is a PS3 game
    let (ext, stem) = w.file_seen("/r/BCES00081-[Killzone 2].iso").unwrap();
    assert_eq!(ext, "iso");
    assert_eq!(stem, "BCES00081-[Killzone 2]");
    w.add_file("/r/BCES00081-[Killzone 2].iso", &stem, &ext, probe(), 1);
    assert_eq!(w.candidates.len(), 2);
    assert_eq!(w.candidates[1].platform, "ps3");
    // a file without an extension is unrecognised
    assert!(w.file_seen("/r/README").is_none());
    assert_eq!(w.report.unrecognized, 1);
    assert_eq!(w.report.scanned_files, 3);
}

#[test]
fn unknown_extension_counts_as_unrecognized() {
    let mut w = SourceWalk::new();
    let (ext, stem) = w.file_seen("/r/notes.TXT").unwrap();
    assert_eq!(ext, "txt");
    w.add_file("/r/notes.TXT", &stem, &ext, probe(), 1);
    assert!(w.candidates.is_empty());
    assert_eq!(w.report.unrecognized, 1);
}

#[test]
fn walk_titles_a_ps3_folder_by_name_without_sfo() {
    let mut w = SourceWalk::new();
    w.add_ps3_folder("/r/Some Game", None, None);
    assert_eq!(w.candidates[0].rom_path, "/r/Some Game");
    assert_eq!(w.candidates[0].size, 0);
    assert_eq!(w.candidates[0].title, "Some Game");
}

#[test]
fn listing_sql_follows_the_query() {
    let q = GameQuery { profile_id: "p".into(), ..Default::default() };
    let (sql, pat) = game_list_sql(&q);
    assert_eq!(sql, "SELECT * FROM games WHERE profile_id = ? ORDER BY sort_title");
    assert!(pat.is_none());
    let q = GameQuery {
        profile_id: "p".into(),
        platform: Some("snes".into()),
        favorites_only: Some(true),
        search: Some("Mario".into()),
        sort: Some("recent".into()),
        limit: Some(-5),
    };
    let (sql, pat) = game_list_sql(&q);
    assert_eq!(
        sql,
        "SELECT * FROM games WHERE profile_id = ? AND platform = ? AND favorite = 1 AND sort_title LIKE ? ORDER BY last_played DESC NULLS LAST, sort_title LIMIT 0"
    );
    assert_eq!(pat.as_deref(), Some("%mario%"));
    let q = GameQuery { profile_id: "p".into(), sort: Some("playtime".into()), limit: Some(25), ..Default::default() };
    assert_eq!(
        game_list_sql(&q).0,
        "SELECT * FROM games WHERE profile_id = ? ORDER BY playtime_minutes DESC, sort_title LIMIT 25"
    );
}

#[test]
fn stale_rows_are_those_under_a_source_and_unseen() {
    let sources = vec!["/roms".to_string()];
    let seen = vec!["/roms/a.sfc".to_string()];
    assert!(!is_stale("/roms/a.sfc", &sources, &seen));
    assert!(is_stale("/roms/b.sfc", &sources, &seen));
    assert!(!is_stale("/other/c.sfc", &sources, &seen));
    assert!(!is_stale("/roms/b.sfc", &Vec::new(), &seen));
    let snes = vec!["/roms/snes".to_string()];
    assert!(!is_stale("/roms/snes-extra/Game.sfc", &snes, &seen));
    assert!(is_stale("/roms/snes/Game.sfc", &snes, &seen));
}

#[test]
fn removing_a_source_takes_only_games_under_that_folder() {
    assert!(under_source("/roms/snes/a.sfc", "/roms/snes"));
    assert!(under_source("/roms/snes/a.sfc", "/roms/snes/"));
    assert!(under_source("/roms/snes", "/roms/snes"));
    assert!(!under_source("/roms/snes2/a.sfc", "/roms/snes"));
}

#[test]
fn custom_titles_are_trimmed_and_empty_clears() {
    let (name, key) = custom_title(Some("  The Legend of Zelda  ")).unwrap();
    assert_eq!(name, "The Legend of Zelda");
    assert_eq!(key, "legend of zelda");
    assert!(custom_title(Some("   ")).is_none());
    assert!(custom_title(None).is_none());
    assert_eq!(profile_name("  Kids ").as_deref(), Some("Kids"));
    assert!(profile_name(" ").is_none());
}

#[test]
fn index_lists_standalone_games_then_disc_sets() {
    let cands = vec![
        cand("Final Fantasy VII", "ps1", "/r/Final Fantasy VII (USA) (Disc 2).chd"),
        cand("Crash Bandicoot", "ps1", "/r/Crash Bandicoot (USA).chd"),
        cand("Final Fantasy VII", "ps1", "/r/Final Fantasy VII (USA) (Disc 1).chd"),
    ];
    let (singles, groups) = group_disc_sets(&cands);
    let es = plan_index(&singles, &groups).unwrap();
    assert_eq!(es.len(), 2);
    assert_eq!(es[0].title, "Crash Bandicoot");
    assert!(es[0].discs.is_empty());
    assert_eq!(es[1].title, "Final Fantasy VII");
    assert!(es[1].rom_path.contains("Disc 1"));
    assert_eq!(es[1].discs.len(), 2);
}
