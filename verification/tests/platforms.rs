use dreamvault::iso9660::Disc;
use dreamvault::platforms::{
    all_extensions, by_id, classify_archive, contains_ps2_title_id, contains_ps3_title_id,
    contains_psp_title_id, cue_data_file, cue_signature_platform, folder_platform_hint,
    platform_for_extension, platforms, resolve_platform, resolve_rom, ContentProbe,
};

fn probe() -> ContentProbe {
    ContentProbe {
        disc: None,
        sibling_cue: false,
        bin_signature: None,
        cue_data_head: None,
        archive_names: Vec::new(),
    }
}

fn names(ns: &[&str]) -> Vec<String> {
    ns.iter().map(|s| s.to_string()).collect()
}

fn zip_of(ns: &[&str]) -> ContentProbe {
    ContentProbe { archive_names: names(ns), ..probe() }
}

#[test]
fn ps3_isos_detected_by_title_id() {
    assert_eq!(resolve_platform("BCES00081-[Killzone(R)2]", "iso"), Some("ps3"));
    assert_eq!(resolve_platform("Skate 3 [BLUS30464]", "iso"), Some("ps3"));
    assert_eq!(resolve_platform("skate. [BLUS30059]", "iso"), Some("ps3"));
    assert!(contains_ps3_title_id("UP9000-NPUA80698_00-UNCHARTED2"));
}

#[test]
fn plain_isos_stay_ps2() {
    assert_eq!(resolve_platform("God of War (USA)", "iso"), Some("ps2"));
    assert_eq!(resolve_platform("SLUS-20946 Some Game", "iso"), Some("ps2"));
    assert!(!contains_ps3_title_id("SLUS20946"));
}

#[test]
fn psp_isos_detected_by_title_id() {
    assert_eq!(resolve_platform("Daxter [ULUS10041]", "iso"), Some("psp"));
    assert_eq!(
        resolve_platform("Ace Combat X - Skies of Deception [ULUS10314]", "iso"),
        Some("psp")
    );
    assert!(contains_psp_title_id("UCES00001 Ridge Racer"));
    assert!(!contains_psp_title_id("SLUS20946"));
    assert!(!contains_psp_title_id("BLES02166"));
}

#[test]
fn cso_defaults_psp_but_ps2_id_wins() {
    assert_eq!(resolve_platform("Some PSP Game", "cso"), Some("psp"));
    assert_eq!(resolve_platform("God of War [SLUS21243]", "cso"), Some("ps2"));
}

#[test]
fn loose_pkg_is_not_a_game() {
    assert_eq!(resolve_platform("EP0002-BLES02166_00-UPDATE", "pkg"), None);
}

#[test]
fn cd_extensions_default_to_ps1() {
    assert_eq!(platform_for_extension("chd"), Some("ps1"));
    assert_eq!(platform_for_extension("cue"), Some("ps1"));
    assert_eq!(platform_for_extension("m3u"), Some("ps1"));
}

#[test]
fn new_platform_extensions_resolve() {
    assert_eq!(platform_for_extension("gdi"), Some("dreamcast"));
    assert_eq!(platform_for_extension("pce"), Some("pcengine"));
    assert_eq!(platform_for_extension("a26"), Some("atari2600"));
    assert_eq!(platform_for_extension("ws"), Some("wonderswan"));
    assert_eq!(platform_for_extension("nsp"), Some("switch"));
    assert_eq!(platform_for_extension("3ds"), Some("n3ds"));
}

#[test]
fn loose_bin_with_sega_header_is_genesis() {
    let p = ContentProbe { bin_signature: Some(b"SEGA".to_vec()), ..probe() };
    let m = resolve_rom("/tmp/x/Sonic.bin", "Sonic", "bin", p).unwrap();
    assert_eq!(m.platform, "genesis");
}

#[test]
fn loose_bin_without_signature_stays_ps2() {
    let p = ContentProbe { bin_signature: Some(vec![0u8; 4]), ..probe() };
    let m = resolve_rom("/tmp/x/Mystery.bin", "Mystery", "bin", p).unwrap();
    assert_eq!(m.platform, "ps2");
}

#[test]
fn bin_track_paired_with_cue_is_skipped() {
    let p = ContentProbe { sibling_cue: true, ..probe() };
    assert!(resolve_rom("/tmp/x/Final Fantasy VII.bin", "Final Fantasy VII", "bin", p).is_none());
    // A `(Track NN)` split marker makes it a track even without a sibling sheet.
    assert!(resolve_rom("/tmp/x/Game (Track 2).bin", "Game (Track 2)", "bin", probe()).is_none());
}

#[test]
fn cue_sniffs_referenced_data_track() {
    let sheet = "FILE \"Game (Track 1).bin\" BINARY\n  TRACK 01 MODE2/2352\n";
    assert_eq!(cue_data_file(sheet).as_deref(), Some("Game (Track 1).bin"));
    let mut data = vec![0u8; 64];
    data.extend_from_slice(b"           PLAYSTATION  ");
    assert_eq!(cue_signature_platform(&data), Some("ps1"));
    let p = ContentProbe { cue_data_head: Some(data), ..probe() };
    let m = resolve_rom("/tmp/x/Game.cue", "Game", "cue", p).unwrap();
    assert_eq!(m.platform, "ps1");
}

#[test]
fn cue_defaults_to_ps1_when_unreadable() {
    let m = resolve_rom("/tmp/x/Broken.cue", "Broken", "cue", probe()).unwrap();
    assert_eq!(m.platform, "ps1");
}

#[test]
fn cue_signatures_for_sega_discs() {
    let mut head = vec![0u8; 16];
    head.extend_from_slice(b"SEGADISCSYSTEM  ");
    assert_eq!(cue_signature_platform(&head), Some("segacd"));
    let mut head = vec![0u8; 16];
    head.extend_from_slice(b"SEGA SEGASATURN ");
    assert_eq!(cue_signature_platform(&head), Some("saturn"));
    assert_eq!(cue_signature_platform(&vec![0u8; 32]), None);
    assert_eq!(cue_data_file("REM nothing here\n"), None);
}

#[test]
fn xbox_iso_is_detected() {
    let p = ContentProbe { disc: Some(Disc::Xbox), ..probe() };
    let m = resolve_rom("/tmp/x/Halo.iso", "Halo", "iso", p).unwrap();
    assert_eq!(m.platform, "xbox");
}

#[test]
fn iso_structure_carries_its_title() {
    let p = ContentProbe {
        disc: Some(Disc::Psp { title: Some("Ace Combat X".to_string()) }),
        ..probe()
    };
    let m = resolve_rom("/tmp/x/Ace.iso", "Ace", "iso", p).unwrap();
    assert_eq!(m.platform, "psp");
    assert_eq!(m.title.as_deref(), Some("Ace Combat X"));
    // A PS3 title id in the name wins over the structure.
    let p = ContentProbe { disc: Some(Disc::Ps2), ..probe() };
    let m = resolve_rom("/tmp/x/Skate 3 [BLUS30464].iso", "Skate 3 [BLUS30464]", "iso", p).unwrap();
    assert_eq!(m.platform, "ps3");
}

#[test]
fn zip_with_single_cartridge_routes_to_its_platform() {
    let m = resolve_rom("/tmp/x/smw.zip", "smw", "zip", zip_of(&["Super Mario World.sfc"])).unwrap();
    assert_eq!(m.platform, "snes");
}

#[test]
fn zip_with_single_iso_routes_as_disc_not_arcade() {
    let m = resolve_rom("/tmp/x/bmt.zip", "bmt", "zip", zip_of(&["Big Mutha Truckers.iso"])).unwrap();
    assert_eq!(m.platform, "ps2");
}

#[test]
fn zip_with_cue_and_bin_routes_to_ps1() {
    let p = zip_of(&["Blood Omen (Track 1).bin", "Blood Omen (Track 2).bin", "Blood Omen.cue"]);
    assert_eq!(resolve_rom("/tmp/x/blood.zip", "blood", "zip", p).unwrap().platform, "ps1");
}

#[test]
fn zip_with_psp_titled_iso_routes_to_psp() {
    let p = zip_of(&["Daxter [ULUS10041].iso"]);
    assert_eq!(resolve_rom("/tmp/x/daxter.zip", "daxter", "zip", p).unwrap().platform, "psp");
}

#[test]
fn zip_with_gdi_routes_to_dreamcast() {
    let p = zip_of(&["Shenmue.gdi", "track01.bin", "track03.raw"]);
    assert_eq!(resolve_rom("/tmp/x/shenmue.zip", "shenmue", "zip", p).unwrap().platform, "dreamcast");
}

#[test]
fn zip_of_many_unrecognised_files_is_arcade() {
    let p = zip_of(&["maincpu.u1", "gfx.u2", "snd.u3"]);
    assert_eq!(resolve_rom("/tmp/x/sf2.zip", "sf2", "zip", p).unwrap().platform, "arcade");
}

#[test]
fn zip_of_mixed_cartridges_is_arcade() {
    let g = classify_archive(&names(&["a.sfc", "b.gba"]));
    assert_eq!(g.platform, "arcade");
    assert!(!g.precise);
    let g = classify_archive(&names(&["a.sfc", "b.SMC", "readme.txt"]));
    assert_eq!(g.platform, "snes");
    assert!(g.precise);
}

#[test]
fn unreadable_zip_falls_back_to_arcade() {
    let m = resolve_rom("/tmp/x/broken.zip", "broken", "zip", probe()).unwrap();
    assert_eq!(m.platform, "arcade");
}

#[test]
fn unreadable_sevenzip_with_no_folder_hint_falls_back_to_arcade() {
    let m = resolve_rom("/tmp/x/neogeo.7z", "neogeo", "7z", probe()).unwrap();
    assert_eq!(m.platform, "arcade");
}

#[test]
fn sevenzip_with_single_cartridge_routes_to_console() {
    let p = zip_of(&["Mario Paint (Japan, USA) (En).sfc"]);
    assert_eq!(resolve_rom("/tmp/x/Mario Paint.7z", "Mario Paint", "7z", p).unwrap().platform, "snes");
}

#[test]
fn sevenzip_disc_uses_folder_hint_to_disambiguate() {
    let p = zip_of(&["Some PSP Game.iso"]);
    let path = "/tmp/x/Sony/PSP/Games/Some PSP Game.7z";
    assert_eq!(resolve_rom(path, "Some PSP Game", "7z", p).unwrap().platform, "psp");
}

#[test]
fn sevenzip_ps3_folder_dump_uses_folder_hint() {
    let p = zip_of(&[
        "Skate 2/PS3_DISC.SFB",
        "Skate 2/PS3_GAME/PARAM.SFO",
        "Skate 2/PS3_GAME/USRDIR/EBOOT.BIN",
    ]);
    let path = "/tmp/x/Sony/PS3/games/Skate 2.7z";
    assert_eq!(resolve_rom(path, "Skate 2", "7z", p).unwrap().platform, "ps3");
}

#[test]
fn folder_hint_reads_known_system_directories() {
    let hint = |p: &str| folder_platform_hint(p);
    assert_eq!(hint("/roms/Sony/PS2/Games/ATV.7z"), Some("ps2"));
    assert_eq!(hint("/roms/Nintendo/SNES/Games/Mario.7z"), Some("snes"));
    assert_eq!(hint("/roms/Sony/PS3/games/Skate 2.7z"), Some("ps3"));
    assert_eq!(hint("/roms/Sony/PSX/Crash.cue"), Some("ps1"));
    assert_eq!(hint("/roms/PSP/PS2/God of War.iso"), Some("ps2"));
    assert_eq!(hint("/roms/Nintendo/Wii_GC/Games/g.iso"), None);
    assert_eq!(hint("/some/random/place/game.iso"), None);
}

#[test]
fn folder_hint_never_reads_the_file_name() {
    assert_eq!(folder_platform_hint("/roms/ps2"), None);
    assert_eq!(folder_platform_hint("ps2.iso"), None);
    assert_eq!(folder_platform_hint("/roms/Game-Boy_Advance/x.gba"), Some("gba"));
}

#[test]
fn precise_content_is_not_overridden_by_folder() {
    let path = "/tmp/x/Sony/PS2/Games/Pocket Monsters.gba";
    assert_eq!(resolve_rom(path, "Pocket Monsters", "gba", probe()).unwrap().platform, "gba");
}

#[test]
fn catalogue_lookup_by_id() {
    let n64 = by_id("n64").unwrap();
    assert_eq!(n64.name, "Nintendo 64");
    assert_eq!(n64.adapter_hint, "mupen64plus");
    assert_eq!(n64.extensions, vec!["n64", "z64", "v64"]);
    assert!(by_id("dreamcast2").is_none());
    assert_eq!(platforms().len(), 39);
}

#[test]
fn extension_lookup_ignores_case() {
    assert_eq!(platform_for_extension("SFC"), Some("snes"));
    assert_eq!(platform_for_extension("ISO"), Some("ps2"));
    assert_eq!(platform_for_extension("pkg"), None);
    assert!(contains_ps2_title_id("SCES_50001 [SCES50001]"));
}

#[test]
fn all_extensions_sorted_and_unique() {
    let v = all_extensions();
    for w in v.windows(2) {
        assert!(w[0] < w[1]);
    }
    assert!(v.contains(&"iso"));
    assert!(v.contains(&"7z"));
    assert!(v.contains(&"sfc"));
    assert_eq!(v.iter().filter(|e| **e == "cso").count(), 1);
}

#[test]
fn one_title_id_belongs_to_one_generation() {
    for id in ["SLUS20946", "BLES02166", "ULUS10041", "NPUB30584", "UCES00001", "SCUS94163"] {
        let n = [contains_ps2_title_id(id), contains_ps3_title_id(id), contains_psp_title_id(id)]
            .iter()
            .filter(|b| **b)
            .count();
        assert_eq!(n, 1, "{id}");
    }
}

#[test]
fn folder_hint_does_not_depend_on_the_file_name() {
    for f in ["God of War.iso", "psp.iso", "gamecube", "SLUS20946.bin"] {
        assert_eq!(folder_platform_hint(&format!("/roms/PSP/PS2/{f}")), Some("ps2"));
        assert_eq!(folder_platform_hint(&format!("/roms/Nintendo/Wii_GC/Games/{f}")), None);
    }
}
