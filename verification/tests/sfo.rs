use dreamvault::sfo::read_field;

fn make_sfo(pairs: &[(&str, &str)]) -> Vec<u8> {
    let mut keys = Vec::new();
    let mut key_offsets = Vec::new();
    for (k, _) in pairs {
        key_offsets.push(keys.len() as u16);
        keys.extend_from_slice(k.as_bytes());
        keys.push(0);
    }
    let mut data = Vec::new();
    let mut data_offsets = Vec::new();
    let mut data_lens = Vec::new();
    for (_, v) in pairs {
        data_offsets.push(data.len() as u32);
        let mut bytes = v.as_bytes().to_vec();
        bytes.push(0);
        data_lens.push(bytes.len() as u32);
        data.extend_from_slice(&bytes);
    }
    let key_table_start = 20 + pairs.len() * 16;
    let data_table_start = key_table_start + keys.len();
    let mut out = Vec::new();
    out.extend_from_slice(b"\x00PSF");
    out.extend_from_slice(&0x0101_0000u32.to_le_bytes());
    out.extend_from_slice(&(key_table_start as u32).to_le_bytes());
    out.extend_from_slice(&(data_table_start as u32).to_le_bytes());
    out.extend_from_slice(&(pairs.len() as u32).to_le_bytes());
    for i in 0..pairs.len() {
        out.extend_from_slice(&key_offsets[i].to_le_bytes());
        out.extend_from_slice(&0x0204u16.to_le_bytes());
        out.extend_from_slice(&data_lens[i].to_le_bytes());
        out.extend_from_slice(&data_lens[i].to_le_bytes());
        out.extend_from_slice(&data_offsets[i].to_le_bytes());
    }
    out.extend_from_slice(&keys);
    out.extend_from_slice(&data);
    out
}

#[test]
fn reads_title_and_title_id() {
    let sfo = make_sfo(&[
        ("APP_VER", "01.00"),
        ("TITLE", "Call of Duty: Black Ops III"),
        ("TITLE_ID", "BLES02166"),
    ]);
    assert_eq!(read_field(&sfo, "TITLE").as_deref(), Some("Call of Duty: Black Ops III"));
    assert_eq!(read_field(&sfo, "TITLE_ID").as_deref(), Some("BLES02166"));
    assert_eq!(read_field(&sfo, "MISSING"), None);
}

#[test]
fn rejects_non_sfo() {
    assert_eq!(read_field(b"not an sfo at all", "TITLE"), None);
    assert_eq!(read_field(&[], "TITLE"), None);
}

#[test]
fn numeric_fields_and_blank_titles_give_nothing() {
    let mut sfo = make_sfo(&[("TITLE", "  ")]);
    assert_eq!(read_field(&sfo, "TITLE"), None);
    sfo = make_sfo(&[("VERSION", "1")]);
    // Mark the only entry as a u32 field (format 0x0404).
    sfo[22] = 0x04;
    sfo[23] = 0x04;
    assert_eq!(read_field(&sfo, "VERSION"), None);
    // A truncated index stops the walk.
    let sfo = make_sfo(&[("TITLE", "Game")]);
    assert_eq!(read_field(&sfo[..30], "TITLE"), None);
}

#[test]
fn fields_are_trimmed_and_stop_at_nul() {
    let sfo = make_sfo(&[("TITLE", "  Gran Turismo 5 \t"), ("TITLE_ID", "BCES00569\0junk")]);
    assert_eq!(read_field(&sfo, "TITLE").as_deref(), Some("Gran Turismo 5"));
    assert_eq!(read_field(&sfo, "TITLE_ID").as_deref(), Some("BCES00569"));
}
