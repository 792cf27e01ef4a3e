use dreamvault::library::{base_title, derive_title, disc_number, sort_key, GameQuery, ScanReport};

#[test]
fn disc_number_reads_common_conventions() {
    assert_eq!(disc_number("Final Fantasy VII (USA) (Disc 1)"), Some(1));
    assert_eq!(disc_number("Final Fantasy VII (USA) (Disc 2)"), Some(2));
    assert_eq!(disc_number("Some Game (Disk 3)"), Some(3));
    assert_eq!(disc_number("Some Game (CD 2)"), Some(2));
    assert_eq!(disc_number("Some Game (CD2)"), Some(2));
    assert_eq!(disc_number("Chrono Cross - Disc 1 of 2"), Some(1));
    assert_eq!(disc_number("Game Disc 4"), Some(4));
}

#[test]
fn disc_number_ignores_non_disc_filenames() {
    assert_eq!(disc_number("Discworld"), None);
    assert_eq!(disc_number("Arcade Classics"), None);
    assert_eq!(disc_number("Tony Hawk Pro Skater"), None);
    assert_eq!(disc_number("Final Fantasy VII (USA)"), None);
}

#[test]
fn base_title_strips_bare_disc_markers() {
    assert_eq!(base_title("Final Fantasy VII"), "Final Fantasy VII");
    assert_eq!(base_title("Chrono Cross - Disc 1"), "Chrono Cross");
    assert_eq!(base_title("Parasite Eve Disc 2"), "Parasite Eve");
}

#[test]
fn bare_cd_is_hardware_not_a_disc() {
    assert_eq!(disc_number("Sega CD 2 BIOS"), None);
    assert_eq!(disc_number("Mega-CD 2"), None);
    assert_eq!(disc_number("Game [CD#3]"), Some(3));
    assert_eq!(disc_number("Game Disc 99999999999999999999"), None);
    assert_eq!(base_title("Disc 1"), "Disc 1");
    assert_eq!(base_title("  Spaced Out  "), "Spaced Out");
}

#[test]
fn titles_are_derived_from_file_names() {
    assert_eq!(derive_title("/roms/Final_Fantasy.VII (USA) [!].bin"), "Final Fantasy VII");
    assert_eq!(derive_title("/roms/(Prototype).bin"), "(Prototype)");
    assert_eq!(derive_title("/roms/Game (a)) b.iso"), "Game b");
    assert_eq!(derive_title("/"), "Unknown");
}

#[test]
fn sort_key_ignores_leading_the() {
    assert_eq!(sort_key("The Legend of Zelda"), "legend of zelda");
    assert_eq!(sort_key("Theatre"), "theatre");
    assert_eq!(sort_key("ÉCHO"), "écho");
}

#[test]
fn report_and_query_defaults() {
    let r = ScanReport::default();
    assert_eq!(r.added + r.removed + r.scanned_files + r.skipped_existing + r.unrecognized, 0);
    let q = GameQuery::default();
    assert!(q.platform.is_none() && q.limit.is_none());
}

#[test]
fn discs_of_a_set_share_their_base_title() {
    assert_eq!(base_title("Chrono Cross - Disc 1 of 2"), base_title("Chrono Cross - Disc 2 of 2"));
    assert_eq!(base_title("Parasite Eve Disc 1"), "Parasite Eve");
    assert_eq!(base_title("Parasite Eve: Disc 3"), "Parasite Eve");
}
