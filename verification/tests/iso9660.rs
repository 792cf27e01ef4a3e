use dreamvault::iso9660::{
    classify, cue_first_binary, data_track, decode_name, disc_name, disc_serial, find_in,
    game_id, is_xbox_signature, nintendo_game_id, nintendo_kind, normalise_serial,
    parse_boot_serial, parse_record, physical_offset, read_dir, root_entry, root_kind,
    sectors_for, sniff_track, xbox_signature_offsets, DataTrack, Disc, DiscEvidence, Entry,
    NintendoDisc, RootKind, Track,
};

const SECTOR: usize = 2048;

fn record(name: &[u8], lba: u32, len: u32, is_dir: bool) -> Vec<u8> {
    let mut rec_len = 33 + name.len();
    if rec_len % 2 == 1 {
        rec_len += 1;
    }
    let mut r = vec![0u8; rec_len];
    r[0] = rec_len as u8;
    r[2..6].copy_from_slice(&lba.to_le_bytes());
    r[6..10].copy_from_slice(&lba.to_be_bytes());
    r[10..14].copy_from_slice(&len.to_le_bytes());
    r[14..18].copy_from_slice(&len.to_be_bytes());
    r[25] = if is_dir { 0x02 } else { 0 };
    r[32] = name.len() as u8;
    r[33..33 + name.len()].copy_from_slice(name);
    r
}

fn directory(self_lba: u32, parent_lba: u32, children: &[Vec<u8>]) -> Vec<u8> {
    let mut sector = vec![0u8; SECTOR];
    let mut pos = 0;
    let mut all = vec![record(&[0], self_lba, SECTOR as u32, true), record(&[1], parent_lba, SECTOR as u32, true)];
    all.extend(children.iter().cloned());
    for rec in all {
        sector[pos..pos + rec.len()].copy_from_slice(&rec);
        pos += rec.len();
    }
    sector
}

fn pvd(root_lba: u32) -> Vec<u8> {
    let mut s = vec![0u8; SECTOR];
    s[0] = 1;
    s[1..6].copy_from_slice(b"CD001");
    s[6] = 1;
    let root = record(&[0], root_lba, SECTOR as u32, true);
    s[156..156 + root.len()].copy_from_slice(&root);
    s
}

fn evidence() -> DiscEvidence {
    DiscEvidence { nintendo: None, disc_name: None, xbox: false, root: None, psp_title: None }
}

#[test]
fn parses_boot_serial_variants() {
    assert_eq!(
        parse_boot_serial("BOOT2 = cdrom0:\\SLUS_209.46;1\n").as_deref(),
        Some("SLUS-20946")
    );
    assert_eq!(
        parse_boot_serial("boot = cdrom:\\SCUS_941.63;1").as_deref(),
        Some("SCUS-94163")
    );
    assert!(parse_boot_serial("VER = 1.00\nVMODE = NTSC\n").is_none());
}

#[test]
fn serial_normalisation_dashes_only_the_first_underscore() {
    let s: Vec<char> = "slus_209.46_x".chars().collect();
    let out: String = normalise_serial(&s).into_iter().collect();
    assert_eq!(out, "SLUS-20946_X");
    assert_eq!(disc_serial(b"BOOT2 = cdrom0:\\SLUS_209.46;1\n").as_deref(), Some("SLUS-20946"));
    assert_eq!(disc_serial(b"VMODE = PAL\n"), None);
}

#[test]
fn root_directory_of_a_ps2_image() {
    let p = pvd(18);
    let root = root_entry(&p).unwrap();
    assert_eq!(root, Entry { lba: 18, len: SECTOR as u32, is_dir: true });
    let dir = directory(18, 18, &[record(b"SYSTEM.CNF;1", 19, 30, false)]);
    let entries = read_dir(&dir);
    assert_eq!(entries.len(), 1);
    assert_eq!(entries[0].0, "SYSTEM.CNF");
    assert_eq!(entries[0].1, Entry { lba: 19, len: 30, is_dir: false });
    assert_eq!(root_kind(&entries), RootKind::Ps2);
    assert_eq!(find_in(&entries, "SYSTEM.CNF"), Some(Entry { lba: 19, len: 30, is_dir: false }));
    assert_eq!(find_in(&entries, "MISSING"), None);
}

#[test]
fn root_directory_of_a_psp_image() {
    let dir = directory(18, 18, &[record(b"PSP_GAME", 19, SECTOR as u32, true)]);
    let entries = read_dir(&dir);
    assert_eq!(root_kind(&entries), RootKind::PspGame(Entry { lba: 19, len: SECTOR as u32, is_dir: true }));
    let mut bad = pvd(18);
    bad[1] = b'X';
    assert_eq!(root_entry(&bad), None);
}

#[test]
fn directory_walk_skips_to_the_next_sector_on_zero_length() {
    let mut data = directory(18, 18, &[record(b"A.BIN;1", 20, 10, false)]);
    let mut second = vec![0u8; SECTOR];
    let rec = record(b"B.BIN;1", 21, 11, false);
    second[..rec.len()].copy_from_slice(&rec);
    data.extend_from_slice(&second);
    let names: Vec<String> = read_dir(&data).into_iter().map(|(n, _)| n).collect();
    assert_eq!(names, vec!["A.BIN".to_string(), "B.BIN".to_string()]);
}

#[test]
fn record_names_are_decoded() {
    assert_eq!(decode_name(&[0]), ".");
    assert_eq!(decode_name(&[1]), "..");
    assert_eq!(decode_name(b"param.sfo;1"), "PARAM.SFO");
    assert_eq!(decode_name(b"DIR."), "DIR");
    assert!(parse_record(&[0u8; 20]).is_none());
    let mut r = record(b"X", 1, 2, true);
    r[32] = 200;
    assert!(parse_record(&r).is_none());
}

#[test]
fn sector_layout_is_sniffed() {
    let mut raw = vec![0u8; 16];
    for b in &mut raw[1..11] {
        *b = 0xFF;
    }
    raw[15] = 2;
    assert_eq!(sniff_track(&raw), Track::RawMode2);
    raw[15] = 1;
    assert_eq!(sniff_track(&raw), Track::RawMode1);
    assert_eq!(sniff_track(&raw[..12]), Track::Cooked);
    assert_eq!(sniff_track(&[0u8; 16]), Track::Cooked);
    assert_eq!(physical_offset(Track::RawMode2, 16, 1), 17 * 2352 + 24);
    assert_eq!(physical_offset(Track::Cooked, 16, 0), 16 * 2048);
    assert_eq!(Track::RawMode1.data_offset(), 16);
    assert_eq!(Track::Cooked.stride(), 2048);
    assert_eq!(sectors_for(0), 0);
    assert_eq!(sectors_for(2049), 2);
}

#[test]
fn nintendo_headers_and_ids() {
    let mut gc = vec![0u8; 0x20];
    gc[0..6].copy_from_slice(b"GALE01");
    gc[0x1C..0x20].copy_from_slice(&0xC233_9F3Du32.to_be_bytes());
    assert_eq!(nintendo_kind(&gc), Some(NintendoDisc::GameCube));
    let mut wii = vec![0u8; 0x20];
    wii[0x18..0x1C].copy_from_slice(&0x5D1C_9EA3u32.to_be_bytes());
    assert_eq!(nintendo_kind(&wii), Some(NintendoDisc::Wii));
    assert_eq!(nintendo_kind(&[0u8; 0x20]), None);
    assert_eq!(nintendo_game_id(&gc, b"gale01").as_deref(), Some("GALE01"));
    assert_eq!(nintendo_game_id(&[0u8; 0x20], b"GALE01"), None);
    assert_eq!(game_id(b"GA E01"), None);
    let mut name = b"LUIGIS MANSION".to_vec();
    name.resize(64, 0);
    assert_eq!(disc_name(&name).as_deref(), Some("LUIGIS MANSION"));
    assert_eq!(disc_name(&[0u8; 64]), None);
}

#[test]
fn xbox_signature_matches_exactly() {
    assert!(is_xbox_signature(b"MICROSOFT*XBOX*MEDIA"));
    assert!(!is_xbox_signature(b"MICROSOFT*XBOX*MEDIB"));
    assert!(!is_xbox_signature(b"MICROSOFT"));
    assert_eq!(xbox_signature_offsets(), vec![0x1_0000, 0x209_0000, 0x1831_0000, 0xFDA_0000]);
}

#[test]
fn evidence_is_weighed_in_order() {
    let ev = DiscEvidence {
        nintendo: Some(NintendoDisc::GameCube),
        disc_name: Some("LUIGIS MANSION".to_string()),
        xbox: true,
        ..evidence()
    };
    match classify(ev) {
        Some(Disc::GameCube { title }) => assert_eq!(title.as_deref(), Some("LUIGIS MANSION")),
        _ => panic!("expected a GameCube disc"),
    }
    assert!(matches!(classify(DiscEvidence { xbox: true, root: Some(RootKind::Ps2), ..evidence() }), Some(Disc::Xbox)));
    assert!(matches!(classify(DiscEvidence { root: Some(RootKind::Ps2), ..evidence() }), Some(Disc::Ps2)));
    let psp = DiscEvidence {
        root: Some(RootKind::PspGame(Entry { lba: 19, len: 2048, is_dir: true })),
        psp_title: Some("Ace Combat X".to_string()),
        ..evidence()
    };
    match classify(psp) {
        Some(Disc::Psp { title }) => assert_eq!(title.as_deref(), Some("Ace Combat X")),
        _ => panic!("expected a PSP disc"),
    }
    assert!(classify(DiscEvidence { root: Some(RootKind::Unknown), ..evidence() }).is_none());
    assert!(classify(evidence()).is_none());
}

#[test]
fn cue_sheets_name_their_first_binary() {
    let cue = "FILE \"Game.bin\" BINARY\n  TRACK 01 MODE2/2352\n    INDEX 01 00:00:00\n";
    assert_eq!(cue_first_binary(cue).as_deref(), Some("Game.bin"));
    assert_eq!(cue_first_binary("REM x\nfile Track1.bin BINARY\n").as_deref(), Some("Track1.bin"));
    assert_eq!(cue_first_binary("FILE\n"), None);
    assert_eq!(cue_first_binary("TRACK 01\n"), None);
    assert_eq!(data_track("/g/Game.CUE"), DataTrack::CueSheet);
    assert_eq!(data_track("/g/Game.chd"), DataTrack::Compressed);
    assert_eq!(data_track("/g/Game.bin"), DataTrack::Itself);
}

#[test]
fn short_headers_are_no_nintendo_disc() {
    assert_eq!(nintendo_kind(&[0u8; 0x10]), None);
    assert_eq!(nintendo_game_id(&[0u8; 4], b"GALE01"), None);
}
