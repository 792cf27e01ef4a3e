use dreamvault::bindings::Bindings;
use dreamvault::config::{AppConfig, HidapiWorkaround};
use dreamvault::controller::{
    duckstation_config_path, hidapi_status, mednafen_config_path, mgba_config_path,
    mupen_config_path, pcsx2_config_path, preview_from_bindings, ps_named_profile_text,
    retroarch_config_path, snes9x_config_path, ApplyOutcome,
};
use dreamvault::controller_write::PsDialect;

fn bindings(pairs: &[(&str, &str)]) -> Bindings {
    let mut b = Bindings::new();
    for (k, v) in pairs {
        b.insert(k.to_string(), v.to_string());
    }
    b
}

#[test]
fn preview_lists_encoded_keys_and_unencodable_inputs() {
    let b = bindings(&[("a", "btn:0"), ("c_up", "btn:3"), ("dpad_up", "garbage")]);
    let p = preview_from_bindings(&b);
    assert_eq!(p.encoded.len(), 1);
    assert_eq!(p.encoded.get("a").map(|s| s.as_str()), Some("input_player1_a_btn"));
    assert_eq!(p.unencoded, vec!["c_up".to_string(), "dpad_up".to_string()]);
}

#[test]
fn ps_profile_writes_into_the_section_with_the_existing_prefix() {
    let cfg = "[Pad1]\nType = DualShock2\nCross = SDL-2/FaceSouth\n";
    let b = bindings(&[("cross", "btn:0"), ("dpad_up", "btn:12"), ("c_up", "btn:3")]);
    let (text, written, unencoded) = ps_named_profile_text(cfg, "Pad1", PsDialect::Pcsx2, &b);
    assert_eq!(written, 2);
    assert!(text.contains("Cross = SDL-2/FaceSouth"));
    assert!(text.contains("Up = SDL-2/DPadUp"));
    assert!(text.starts_with("[Pad1]\nType = DualShock2\n"));
    assert_eq!(unencoded, vec!["c_up".to_string()]);
    let (text, _, _) = ps_named_profile_text("", "Pad1", PsDialect::DuckStation, &bindings(&[("cross", "btn:0")]));
    assert!(text.contains("[Pad1]"));
    assert!(text.contains("Cross = SDL-0/A"));
}

#[test]
fn hidapi_status_follows_the_policy() {
    assert!(!hidapi_status(HidapiWorkaround::Off, true).effective);
    assert!(hidapi_status(HidapiWorkaround::Force, false).effective);
    assert!(hidapi_status(HidapiWorkaround::Auto, true).effective);
    assert!(!hidapi_status(HidapiWorkaround::Auto, false).effective);
}

#[test]
fn emulator_config_locations() {
    let h = Some("/home/u");
    assert_eq!(mednafen_config_path(h).as_deref(), Some("/home/u/.mednafen/mednafen.cfg"));
    assert_eq!(mednafen_config_path(None), None);
    assert_eq!(retroarch_config_path(h, false).as_deref(), Some("/home/u/.config/retroarch/retroarch.cfg"));
    assert_eq!(
        retroarch_config_path(h, true).as_deref(),
        Some("/home/u/.var/app/org.libretro.RetroArch/config/retroarch/retroarch.cfg")
    );
    assert_eq!(mupen_config_path(Some("/x"), h).as_deref(), Some("/x/mupen64plus/mupen64plus.cfg"));
    assert_eq!(mupen_config_path(None, h).as_deref(), Some("/home/u/.config/mupen64plus/mupen64plus.cfg"));
    assert_eq!(mupen_config_path(None, None), None);
    assert_eq!(pcsx2_config_path(h, false).as_deref(), Some("/home/u/.config/PCSX2/inis/PCSX2.ini"));
    assert_eq!(duckstation_config_path(h, true).as_deref(), Some("/home/u/.var/app/org.duckstation.DuckStation/config/duckstation/settings.ini"));
    assert_eq!(snes9x_config_path(None, true), None);
    assert_eq!(mgba_config_path(h, false).as_deref(), Some("/home/u/.config/mgba/config.ini"));
    assert_eq!(AppConfig::file_path("/home/u/.config/arcadia"), "/home/u/.config/arcadia/config.json");
    let o = ApplyOutcome { config_path: "c".into(), backup_path: "b".into(), written: 1, unencoded: vec![], emulator: "e".into() };
    assert_eq!(o.written, 1);
}
