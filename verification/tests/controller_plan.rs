use dreamvault::bindings::Bindings;
use dreamvault::config::{ControllerConfig, ControllerProfile, ProfileRefusal};
use dreamvault::controller::{
    assigned_profile, mednafen_device_id, mgba_profile_text, AssignRefusal, plan_profile_write, retroarch_profile_text,
    snes9x_profile_text, write_target, WriteRefusal, WriteTarget,
};
use dreamvault::controller_write::{
    materialize_mgba, materialize_mupen, materialize_retroarch, set_flat_key,
    set_ini_key_in_section, set_ini_key_in_section_compact, HatDir, PadMapping, RawElement,
    SDL_BTN_A, SDL_BTN_B, SDL_BTN_DPAD_DOWN, SDL_BTN_DPAD_UP, SDL_BTN_START,
};

fn bindings(pairs: &[(&str, &str)]) -> Bindings {
    let mut b = Bindings::new();
    for (k, v) in pairs {
        b.insert(k.to_string(), v.to_string());
    }
    b
}

fn pad() -> PadMapping {
    let mut m = PadMapping::new();
    m.set_button(SDL_BTN_A, RawElement::Button(0));
    m.set_button(SDL_BTN_B, RawElement::Button(1));
    m.set_button(SDL_BTN_START, RawElement::Button(11));
    m.set_button(SDL_BTN_DPAD_UP, RawElement::Hat(0, HatDir::Up));
    m.set_button(SDL_BTN_DPAD_DOWN, RawElement::Hat(0, HatDir::Down));
    m
}

#[test]
fn write_targets_follow_the_adapter_and_need_a_pad_where_raw() {
    assert_eq!(write_target("retroarch", "snes", false, false), Ok(WriteTarget::RetroArch));
    assert_eq!(write_target("pcsx2", "ps2", false, false), Ok(WriteTarget::Pcsx2));
    assert_eq!(write_target("duckstation", "ps1", false, false), Ok(WriteTarget::DuckStation));
    assert_eq!(write_target("mupen64plus", "n64", false, false), Err(WriteRefusal::NoPad));
    assert_eq!(write_target("mupen64plus", "n64", true, false), Ok(WriteTarget::Mupen));
    assert_eq!(write_target("snes9x", "snes", true, false), Ok(WriteTarget::Snes9x));
    assert_eq!(write_target("mednafen", "virtualboy", false, false), Err(WriteRefusal::NoPad));
    assert_eq!(write_target("mgba", "gba", true, false), Ok(WriteTarget::Mgba));
    assert_eq!(write_target("mgba", "snes", true, false), Err(WriteRefusal::NoInputSection));
    assert_eq!(write_target("dolphin", "gamecube", true, false), Err(WriteRefusal::NotWired));
    assert_eq!(write_target("retroarch", "snes", true, true), Err(WriteRefusal::EmulatorRunning));
    assert_eq!(write_target("dolphin", "gamecube", true, true), Err(WriteRefusal::EmulatorRunning));
}

#[test]
fn retroarch_write_sets_each_flat_key() {
    let b = bindings(&[("a", "btn:0"), ("b", "btn:1"), ("home", "btn:16")]);
    let original = "# header\ninput_player1_a_btn = \"5\"\n";
    let (text, written, unencoded) = retroarch_profile_text(original, &b);
    let (asg, unenc) = materialize_retroarch(1, &b);
    let mut expected = original.to_string();
    for a in &asg {
        expected = set_flat_key(&expected, &a.key, &a.value);
    }
    assert_eq!(text, expected);
    assert_eq!(written, asg.len());
    assert_eq!(unencoded, unenc);
    assert!(text.contains("input_player1_a_btn = \"0\""));
    assert!(!text.contains("\"5\""));
    let planned = plan_profile_write(WriteTarget::RetroArch, "snes", &b, None, original, None, None, None).unwrap();
    assert_eq!(planned.0, text);
}

#[test]
fn mupen_write_forces_manual_mode_first() {
    let b = bindings(&[("start", "btn:9"), ("a", "btn:0")]);
    let m = pad();
    let original = "[Input-SDL-Control1]\nmode = 2\n";
    let (text, written, _) = plan_profile_write(WriteTarget::Mupen, "n64", &b, Some(&m), original, None, None, None).unwrap();
    let (asg, _) = materialize_mupen(&b, &m);
    let mut expected = set_ini_key_in_section(original, "Input-SDL-Control1", "mode", "0");
    for a in &asg {
        expected = set_ini_key_in_section(&expected, "Input-SDL-Control1", &a.key, &a.value);
    }
    assert_eq!(text, expected);
    assert_eq!(written, asg.len());
    assert!(text.contains("mode = 0"));
    assert!(text.contains("Start = \"button(11)\""));
}

#[test]
fn mednafen_device_id_prefers_probe_then_config_then_pad() {
    assert_eq!(mednafen_device_id(Some("PROBED".into()), "", "virtualboy", Some("PAD")).as_deref(), Some("PROBED"));
    assert_eq!(mednafen_device_id(None, "", "virtualboy", Some("PAD")).as_deref(), Some("PAD"));
    assert_eq!(mednafen_device_id(None, "", "virtualboy", None), None);
    let b = bindings(&[("a", "btn:0")]);
    let m = pad();
    let r = plan_profile_write(WriteTarget::Mednafen, "virtualboy", &b, Some(&m), "", None, None, None);
    assert!(matches!(r, Err(WriteRefusal::NoDeviceId)));
}

#[test]
fn snes9x_does_not_report_a_dpad_already_bound() {
    let b = bindings(&[("a", "btn:0"), ("dpad_up", "btn:12"), ("dpad_down", "btn:13")]);
    let m = pad();
    let original = "[Joypad 0]\nA = Joystick 2 Button 5\nUp = Joystick 2 Axis 7 + 40%\nDown = Unset\n";
    let (text, written, unencoded) = snes9x_profile_text(original, &b, &m);
    assert_eq!(unencoded, vec!["dpad_down".to_string()]);
    assert_eq!(written, 1);
    assert!(text.contains("A = Joystick 2 Button 0"));
    assert!(text.contains("Up = Joystick 2 Axis 7 + 40%"));
}

#[test]
fn mgba_writes_the_sdlb_section_and_the_pads_own_profile() {
    let b = bindings(&[("a", "btn:0"), ("b", "btn:1")]);
    let m = pad();
    let (text, written, _) = mgba_profile_text("", "gba", &b, &m, Some("Xbox Wireless Controller")).unwrap();
    let (asg, _) = materialize_mgba(&b, &m);
    let mut expected = String::new();
    for a in &asg {
        expected = set_ini_key_in_section_compact(&expected, "gba.input.SDLB", &a.key, &a.value);
    }
    for a in &asg {
        expected = set_ini_key_in_section_compact(&expected, "gba.input-profile.Xbox Wireless Controller", &a.key, &a.value);
    }
    assert_eq!(text, expected);
    assert_eq!(written, asg.len());
    assert!(text.contains("[gba.input-profile.Xbox Wireless Controller]"));
    assert!(mgba_profile_text("", "snes", &b, &m, None).is_none());
}

fn profile(id: &str, name: &str) -> ControllerProfile {
    ControllerProfile { id: id.to_string(), name: name.to_string(), bindings: Default::default() }
}

#[test]
fn controller_profile_crud() {
    let mut c = ControllerConfig::default();
    assert_eq!(c.save_profile(profile("", "  "), "fresh").unwrap_err(), ProfileRefusal::NoName);
    assert!(c.profiles.is_empty());
    let i = c.save_profile(profile("", "Pad"), "fresh").unwrap();
    assert_eq!(i, 0);
    assert_eq!(c.profiles[0].id, "fresh");
    let j = c.save_profile(profile("fresh", "Renamed"), "other").unwrap();
    assert_eq!(j, 0);
    assert_eq!(c.profiles.len(), 1);
    assert_eq!(c.profiles[0].name, "Renamed");
    c.save_profile(profile("p2", "Second"), "x").unwrap();
    assert_eq!(c.profiles.len(), 2);
    assert_eq!(c.set_active(Some("nope")).unwrap_err(), ProfileRefusal::NotFound);
    c.set_active(Some("p2")).unwrap();
    assert_eq!(c.active_profile.as_deref(), Some("p2"));
    c.delete_profile("p2");
    assert_eq!(c.profiles.len(), 1);
    assert!(c.active_profile.is_none());
    c.set_active(Some("fresh")).unwrap();
    c.delete_profile("other");
    assert_eq!(c.active_profile.as_deref(), Some("fresh"));
    c.set_active(None).unwrap();
    assert!(c.active_profile.is_none());
}

#[test]
fn active_profile_always_names_a_saved_profile() {
    let mut c = ControllerConfig::default();
    let named = |id: &str, name: &str| ControllerProfile {
        id: id.to_string(),
        name: name.to_string(),
        bindings: Default::default(),
    };
    assert_eq!(c.save_profile(named("a", "Pad A"), "fresh").unwrap(), 0);
    assert_eq!(c.save_profile(named("b", "Pad B"), "fresh").unwrap(), 1);
    c.set_active(Some("a")).unwrap();
    assert!(matches!(c.set_active(Some("zzz")), Err(ProfileRefusal::NotFound)));
    assert_eq!(c.active_profile.as_deref(), Some("a"));
    c.delete_profile("b");
    assert_eq!(c.active_profile.as_deref(), Some("a"));
    c.delete_profile("a");
    assert_eq!(c.active_profile, None);
    assert!(c.profiles.is_empty());
}

#[test]
fn a_system_profile_is_the_assigned_saved_one() {
    let assignments = vec![("snes".to_string(), "p2".to_string()), ("n64".to_string(), "gone".to_string())];
    let ids = vec!["p1".to_string(), "p2".to_string()];
    assert_eq!(assigned_profile(&assignments, &ids, "snes"), Ok(1));
    assert_eq!(assigned_profile(&assignments, &ids, "n64"), Err(AssignRefusal::ProfileMissing));
    assert_eq!(assigned_profile(&assignments, &ids, "gba"), Err(AssignRefusal::NotAssigned));
}
