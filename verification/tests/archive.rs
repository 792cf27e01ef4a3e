use dreamvault::archive::{
    cd_location, find_eocd, has_ext, le_u16, le_u32, parse_central_directory, pick_launch_target,
    stable_dir_name, ExtractedRom,
};

fn zip_with_names(names: &[&str]) -> Vec<u8> {
    let mut out = Vec::new();
    let mut central = Vec::new();
    let mut offsets = Vec::new();
    for name in names {
        offsets.push(out.len() as u32);
        out.extend_from_slice(&0x0403_4b50u32.to_le_bytes());
        out.extend_from_slice(&[0u8; 4]);
        out.extend_from_slice(&0u16.to_le_bytes());
        out.extend_from_slice(&[0u8; 4]);
        out.extend_from_slice(&0u32.to_le_bytes());
        out.extend_from_slice(&0u32.to_le_bytes());
        out.extend_from_slice(&0u32.to_le_bytes());
        out.extend_from_slice(&(name.len() as u16).to_le_bytes());
        out.extend_from_slice(&0u16.to_le_bytes());
        out.extend_from_slice(name.as_bytes());
    }
    for (name, &off) in names.iter().zip(&offsets) {
        central.extend_from_slice(&0x0201_4b50u32.to_le_bytes());
        central.extend_from_slice(&[0u8; 6]);
        central.extend_from_slice(&0u16.to_le_bytes());
        central.extend_from_slice(&[0u8; 4]);
        central.extend_from_slice(&0u32.to_le_bytes());
        central.extend_from_slice(&0u32.to_le_bytes());
        central.extend_from_slice(&0u32.to_le_bytes());
        central.extend_from_slice(&(name.len() as u16).to_le_bytes());
        central.extend_from_slice(&0u16.to_le_bytes());
        central.extend_from_slice(&0u16.to_le_bytes());
        central.extend_from_slice(&[0u8; 8]);
        central.extend_from_slice(&off.to_le_bytes());
        central.extend_from_slice(name.as_bytes());
    }
    let cd_offset = out.len() as u32;
    let cd_size = central.len() as u32;
    out.extend_from_slice(&central);
    out.extend_from_slice(&0x0605_4b50u32.to_le_bytes());
    out.extend_from_slice(&0u16.to_le_bytes());
    out.extend_from_slice(&0u16.to_le_bytes());
    out.extend_from_slice(&(names.len() as u16).to_le_bytes());
    out.extend_from_slice(&(names.len() as u16).to_le_bytes());
    out.extend_from_slice(&cd_size.to_le_bytes());
    out.extend_from_slice(&cd_offset.to_le_bytes());
    out.extend_from_slice(&0u16.to_le_bytes());
    out
}

fn names_of(zip: &[u8]) -> Option<Vec<String>> {
    let (offset, size) = cd_location(zip)?;
    let cd = &zip[offset as usize..(offset + size) as usize];
    Some(parse_central_directory(cd))
}

#[test]
fn lists_single_entry() {
    let zip = zip_with_names(&["Super Mario World.sfc"]);
    assert_eq!(names_of(&zip).unwrap(), vec!["Super Mario World.sfc".to_string()]);
}

#[test]
fn lists_many_entries() {
    let zip = zip_with_names(&["a.bin", "b.bin", "dir/c.cue"]);
    assert_eq!(names_of(&zip).unwrap(), vec!["a.bin", "b.bin", "dir/c.cue"]);
}

#[test]
fn non_zip_returns_none() {
    assert!(names_of(b"definitely not a zip file at all......").is_none());
    assert!(find_eocd(b"PK\x05").is_none());
    let mut zip = zip_with_names(&["x.sfc"]);
    let n = zip.len();
    zip[n - 6..n - 2].copy_from_slice(&0xFFFF_FFFFu32.to_le_bytes());
    assert!(cd_location(&zip).is_none());
}

#[test]
fn truncated_directory_stops_the_walk() {
    let zip = zip_with_names(&["one.sfc", "two.sfc"]);
    let (offset, size) = cd_location(&zip).unwrap();
    let cd = &zip[offset as usize..(offset + size) as usize];
    assert_eq!(parse_central_directory(&cd[..cd.len() - 3]), vec!["one.sfc"]);
    assert!(parse_central_directory(&[0u8; 10]).is_empty());
}

#[test]
fn little_endian_reads() {
    assert_eq!(le_u16(&[0x34, 0x12], 0), Some(0x1234));
    assert_eq!(le_u16(&[0x34], 0), None);
    assert_eq!(le_u32(&[0, 0x78, 0x56, 0x34, 0x12], 1), Some(0x1234_5678));
    assert_eq!(le_u32(&[1, 2, 3], 0), None);
    assert_eq!(le_u32(&[1, 2, 3, 4], usize::MAX), None);
}

#[test]
fn picks_cue_sheet_and_keeps_bin_alongside() {
    let files = vec![("/x/Game (Track 1).bin".to_string(), 500), ("/x/Game.CUE".to_string(), 1)];
    assert_eq!(pick_launch_target(&files).as_deref(), Some("/x/Game.CUE"));
    let files = vec![("/x/a.cue".to_string(), 1), ("/x/list.m3u".to_string(), 1)];
    assert_eq!(pick_launch_target(&files).as_deref(), Some("/x/list.m3u"));
}

#[test]
fn largest_file_is_the_rom_last_of_equals() {
    let files = vec![("/x/readme.txt".to_string(), 10), ("/x/game.iso".to_string(), 900), ("/x/other.iso".to_string(), 900)];
    assert_eq!(pick_launch_target(&files).as_deref(), Some("/x/other.iso"));
    assert_eq!(pick_launch_target(&vec![]), None);
    assert!(has_ext("/a/B.GDI", "gdi"));
    assert!(!has_ext("/a/gdi", "gdi"));
}

#[test]
fn extraction_dir_name_is_fnv_of_the_path() {
    let path = b"/home/u/roms/Game.zip";
    let mut h: u64 = 0xcbf2_9ce4_8422_2325;
    for b in path {
        h ^= *b as u64;
        h = h.wrapping_mul(0x0000_0100_0000_01b3);
    }
    assert_eq!(stable_dir_name(path), format!("arcadia-rom-{h:016x}"));
    assert_eq!(stable_dir_name(b""), "arcadia-rom-cbf29ce484222325");
    assert_eq!(stable_dir_name(path), stable_dir_name(path));
    let r = ExtractedRom { path: "/tmp/x.iso".to_string() };
    assert_eq!(r.path, "/tmp/x.iso");
}
