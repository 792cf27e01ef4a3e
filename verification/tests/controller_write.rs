use dreamvault::bindings::Bindings;
use dreamvault::controller_write::{
    encode_mednafen, encode_mupen_digital, encode_retroarch, materialize_mednafen,
    materialize_mgba, materialize_mupen, materialize_ps_named, materialize_retroarch,
    materialize_snes9x, mednafen_config_dpad_axes, mednafen_config_guid, mgba_profile_section,
    mgba_section, parse_mednafen_joystick_id, parse_w3c, ps_device_prefix, retropad_base,
    set_flat_key, set_ini_key_in_section, set_ini_key_in_section_compact, set_mednafen_setting,
    snes9x_has_binding, snes9x_joystick_number, Assignment, AxisSign, HatDir, PadMapping,
    PsDialect, RawElement, W3cInput, SDL_AXIS_LEFTX, SDL_AXIS_LEFTY, SDL_AXIS_RIGHTX,
    SDL_AXIS_RIGHTY, SDL_AXIS_TRIGGERLEFT, SDL_AXIS_TRIGGERRIGHT, SDL_BTN_A, SDL_BTN_B,
    SDL_BTN_BACK, SDL_BTN_DPAD_DOWN, SDL_BTN_DPAD_LEFT, SDL_BTN_DPAD_RIGHT, SDL_BTN_DPAD_UP,
    SDL_BTN_GUIDE, SDL_BTN_LSHOULDER, SDL_BTN_RSHOULDER, SDL_BTN_START, SDL_BTN_X, SDL_BTN_Y,
};

fn bindings_of(pairs: &[(&str, &str)]) -> Bindings {
    let mut b = Bindings::new();
    for (k, v) in pairs {
        b.insert(k.to_string(), v.to_string());
    }
    b
}


#[test]
fn parses_button_and_axis_descriptors() {
    assert_eq!(parse_w3c("btn:0"), Some(W3cInput::Button(0)));
    assert_eq!(parse_w3c("btn:11"), Some(W3cInput::Button(11)));
    assert_eq!(parse_w3c("axis:1-"), Some(W3cInput::Axis(1, AxisSign::Neg)));
    assert_eq!(parse_w3c("axis:2+"), Some(W3cInput::Axis(2, AxisSign::Pos)));
    assert_eq!(parse_w3c(" btn:3 "), Some(W3cInput::Button(3)));
}

#[test]
fn rejects_malformed_descriptors() {
    assert_eq!(parse_w3c("btn:"), None);
    assert_eq!(parse_w3c("axis:1"), None); // missing sign
    assert_eq!(parse_w3c("hat:0"), None);
    assert_eq!(parse_w3c(""), None);
    assert_eq!(parse_w3c("btn:-1"), None);
}

#[test]
fn encodes_digital_button() {
    let a = encode_retroarch(1, "a", W3cInput::Button(0)).unwrap();
    assert_eq!(a.key, "input_player1_a_btn");
    assert_eq!(a.value, "\"0\"");
}

#[test]
fn encodes_dpad_and_player_index() {
    let a = encode_retroarch(2, "dpad_up", W3cInput::Button(12)).unwrap();
    assert_eq!(a.key, "input_player2_up_btn");
    assert_eq!(a.value, "\"12\"");
}

#[test]
fn encodes_analog_stick_axis() {
    let a = encode_retroarch(1, "stick_left", W3cInput::Axis(0, AxisSign::Neg)).unwrap();
    assert_eq!(a.key, "input_player1_l_x_minus_axis");
    assert_eq!(a.value, "\"-0\"");
    let r = encode_retroarch(1, "r_stick_right", W3cInput::Axis(2, AxisSign::Pos)).unwrap();
    assert_eq!(r.key, "input_player1_r_x_plus_axis");
    assert_eq!(r.value, "\"+2\"");
}

#[test]
fn psx_faces_map_to_retropad() {
    assert_eq!(retropad_base("cross"), Some("b"));
    assert_eq!(retropad_base("circle"), Some("a"));
    assert_eq!(retropad_base("square"), Some("y"));
    assert_eq!(retropad_base("triangle"), Some("x"));
}

#[test]
fn unstable_inputs_are_not_guessed() {
    assert_eq!(retropad_base("c_up"), None);
    assert!(encode_retroarch(1, "c_left", W3cInput::Button(3)).is_none());
}

#[test]
fn materialize_separates_encoded_and_unencoded() {
    let mut b = Bindings::new();
    b.insert("a".to_string(), "btn:0".to_string());
    b.insert("c_up".to_string(), "btn:3".to_string()); // no stable mapping
    b.insert("dpad_up".to_string(), "garbage".to_string()); // malformed
    let (encoded, unencoded) = materialize_retroarch(1, &b);
    assert_eq!(encoded.len(), 1);
    assert_eq!(encoded[0].key, "input_player1_a_btn");
    assert_eq!(unencoded.len(), 2);
    assert!(unencoded.contains(&"c_up".to_string()));
    assert!(unencoded.contains(&"dpad_up".to_string()));
}

#[test]
fn set_flat_key_replaces_existing_in_place() {
    let cfg = "# header\ninput_player1_a_btn = \"5\"\ninput_player1_b_btn = \"6\"\n";
    let out = set_flat_key(cfg, "input_player1_a_btn", "\"0\"");
    assert!(out.contains("input_player1_a_btn = \"0\""));
    // other lines and the comment are byte-preserved
    assert!(out.contains("# header"));
    assert!(out.contains("input_player1_b_btn = \"6\""));
    assert!(out.ends_with('\n'));
    // only one occurrence of the key
    assert_eq!(out.matches("input_player1_a_btn").count(), 1);
}

#[test]
fn set_flat_key_appends_when_absent() {
    let cfg = "input_player1_b_btn = \"6\"\n";
    let out = set_flat_key(cfg, "input_player1_a_btn", "\"0\"");
    assert!(out.contains("input_player1_b_btn = \"6\""));
    assert!(out.contains("input_player1_a_btn = \"0\""));
}

#[test]
fn set_flat_key_preserves_indentation_and_no_trailing_newline() {
    let cfg = "  input_player1_a_btn = \"5\"";
    let out = set_flat_key(cfg, "input_player1_a_btn", "\"9\"");
    assert_eq!(out, "  input_player1_a_btn = \"9\"");
}

#[test]
fn set_flat_key_then_first_key_line_reads_new_value() {
    let first_key_line = |text: &str| {
        text.lines()
            .find(|l| {
                l.trim_start()
                    .strip_prefix("input_player1_a_btn")
                    .is_some_and(|rest| rest.trim_start().starts_with('='))
            })
            .map(|l| l.trim_start().to_string())
    };
    let edited = set_flat_key("  input_player1_a_btn = \"5\"\r\nx = 1\ninput_player1_a_btn = \"7\"\n", "input_player1_a_btn", "\"0\"");
    assert_eq!(first_key_line(&edited).as_deref(), Some("input_player1_a_btn = \"0\""));
    let appended = set_flat_key("x = 1", "input_player1_a_btn", "\"3\"");
    assert_eq!(first_key_line(&appended).as_deref(), Some("input_player1_a_btn = \"3\""));
}

#[test]
fn set_flat_key_does_not_match_key_prefix() {
    // `input_player1_a` must not match `input_player1_a_btn`'s line.
    let cfg = "input_player1_a_btn = \"5\"\n";
    let out = set_flat_key(cfg, "input_player1_a", "\"9\"");
    // existing line untouched, new key appended
    assert!(out.contains("input_player1_a_btn = \"5\""));
    assert!(out.contains("input_player1_a = \"9\""));
}

// ── Mupen64Plus (Tier B) ────────────────────────────────────────────────

/// The project's Bluetooth Xbox pad as SDL resolves it on this machine
/// (matching the on-disk `mupen64plus.cfg` auto-config: Start=button(11),
/// dpad=hat(0 …), C-buttons on the right stick, triggers on axes 5/4).
fn device_mapping() -> PadMapping {
    let mut m = PadMapping::new();
    m.set_button(SDL_BTN_A, RawElement::Button(0));
    m.set_button(SDL_BTN_B, RawElement::Button(1));
    m.set_button(SDL_BTN_X, RawElement::Button(2));
    m.set_button(SDL_BTN_Y, RawElement::Button(3));
    m.set_button(SDL_BTN_BACK, RawElement::Button(10));
    m.set_button(SDL_BTN_GUIDE, RawElement::Button(8));
    m.set_button(SDL_BTN_START, RawElement::Button(11));
    m.set_button(SDL_BTN_LSHOULDER, RawElement::Button(4));
    m.set_button(SDL_BTN_RSHOULDER, RawElement::Button(5));
    m.set_button(SDL_BTN_DPAD_UP, RawElement::Hat(0, HatDir::Up));
    m.set_button(SDL_BTN_DPAD_DOWN, RawElement::Hat(0, HatDir::Down));
    m.set_button(SDL_BTN_DPAD_LEFT, RawElement::Hat(0, HatDir::Left));
    m.set_button(SDL_BTN_DPAD_RIGHT, RawElement::Hat(0, HatDir::Right));
    m.set_axis(SDL_AXIS_LEFTX, RawElement::Axis(0));
    m.set_axis(SDL_AXIS_LEFTY, RawElement::Axis(1));
    m.set_axis(SDL_AXIS_RIGHTX, RawElement::Axis(2));
    m.set_axis(SDL_AXIS_RIGHTY, RawElement::Axis(3));
    m.set_axis(SDL_AXIS_TRIGGERLEFT, RawElement::Axis(5));
    m.set_axis(SDL_AXIS_TRIGGERRIGHT, RawElement::Axis(4));
    m
}

#[test]
fn mupen_start_uses_raw_joystick_index_not_normalized() {
    // The whole reason Mupen is Tier B: normalized Start is btn:9, but the
    // pad's raw joystick button is 11. A naive `button(9)` would bind wrong.
    let a = encode_mupen_digital("start", W3cInput::Button(9), &device_mapping()).unwrap();
    assert_eq!(a.key, "Start");
    assert_eq!(a.value, "\"button(11)\"");
}

#[test]
fn mupen_face_buttons_map_directly() {
    let m = device_mapping();
    let a = encode_mupen_digital("a", W3cInput::Button(0), &m).unwrap();
    assert_eq!((a.key.as_str(), a.value.as_str()), ("A Button", "\"button(0)\""));
    let b = encode_mupen_digital("b", W3cInput::Button(1), &m).unwrap();
    assert_eq!((b.key.as_str(), b.value.as_str()), ("B Button", "\"button(1)\""));
}

#[test]
fn mupen_dpad_resolves_to_hat() {
    let a = encode_mupen_digital("dpad_up", W3cInput::Button(12), &device_mapping()).unwrap();
    assert_eq!((a.key.as_str(), a.value.as_str()), ("DPad U", "\"hat(0 Up)\""));
}

#[test]
fn mupen_c_buttons_from_right_stick_axes() {
    let m = device_mapping();
    let l = encode_mupen_digital("c_left", W3cInput::Axis(2, AxisSign::Neg), &m).unwrap();
    assert_eq!((l.key.as_str(), l.value.as_str()), ("C Button L", "\"axis(2-)\""));
    let u = encode_mupen_digital("c_up", W3cInput::Axis(3, AxisSign::Neg), &m).unwrap();
    assert_eq!((u.key.as_str(), u.value.as_str()), ("C Button U", "\"axis(3-)\""));
}

#[test]
fn mupen_triggers_as_axes_and_as_buttons() {
    let m = device_mapping();
    // Captured as the analog trigger (W3C btn:6 = LT → SDL trigger axis 4 → raw axis 5).
    let trig = encode_mupen_digital("l", W3cInput::Button(6), &m).unwrap();
    assert_eq!((trig.key.as_str(), trig.value.as_str()), ("L Trig", "\"axis(5+)\""));
    // Captured as the shoulder button instead (W3C btn:4 = LB → raw button 4).
    let shoulder = encode_mupen_digital("l", W3cInput::Button(4), &m).unwrap();
    assert_eq!(shoulder.value, "\"button(4)\"");
}

#[test]
fn mupen_analog_stick_folds_into_paired_axes() {
    let m = device_mapping();
    let mut b = Bindings::new();
    b.insert("stick_left".into(), "axis:0-".into());
    b.insert("stick_right".into(), "axis:0+".into());
    b.insert("stick_up".into(), "axis:1-".into());
    b.insert("stick_down".into(), "axis:1+".into());
    let (out, unencoded) = materialize_mupen(&b, &m);
    assert!(unencoded.is_empty());
    let x = out.iter().find(|a| a.key == "X Axis").unwrap();
    assert_eq!(x.value, "\"axis(0-,0+)\"");
    let y = out.iter().find(|a| a.key == "Y Axis").unwrap();
    assert_eq!(y.value, "\"axis(1-,1+)\"");
}

#[test]
fn mupen_unresolvable_input_is_unencoded_not_guessed() {
    // Empty mapping: nothing resolves, so everything is reported unencoded
    // rather than written as a wrong index.
    let mut b = Bindings::new();
    b.insert("start".into(), "btn:9".into());
    let (out, unencoded) = materialize_mupen(&b, &PadMapping::new());
    assert!(out.is_empty());
    assert_eq!(unencoded, vec!["start".to_string()]);
}

#[test]
fn mupen_full_profile_matches_on_disk_shape() {
    let m = device_mapping();
    let mut b = Bindings::new();
    b.insert("a".into(), "btn:0".into());
    b.insert("b".into(), "btn:1".into());
    b.insert("start".into(), "btn:9".into());
    b.insert("z".into(), "btn:7".into()); // RT button → raw axis 4? btn:7 is RT (axis)
    b.insert("dpad_up".into(), "btn:12".into());
    let (out, unencoded) = materialize_mupen(&b, &m);
    let find = |k: &str| out.iter().find(|a| a.key == k).map(|a| a.value.as_str());
    assert_eq!(find("A Button"), Some("\"button(0)\""));
    assert_eq!(find("Start"), Some("\"button(11)\""));
    assert_eq!(find("DPad U"), Some("\"hat(0 Up)\""));
    // z captured as RT (btn:7 → trigger axis) is legal; just assert it encoded.
    assert!(find("Z Trig").is_some());
    assert!(unencoded.is_empty());
}

#[test]
fn set_ini_section_replaces_only_within_target_section() {
    let cfg = "\
[Input-SDL-Control1]
mode = 2
Start = \"button(11)\"

[Input-SDL-Control2]
mode = 2
Start = \"button(99)\"
";
    let out = set_ini_key_in_section(cfg, "Input-SDL-Control1", "mode", "0");
    // Control1 changed…
    assert!(out.contains("[Input-SDL-Control1]\nmode = 0"));
    // …Control2 untouched.
    assert!(out.contains("[Input-SDL-Control2]\nmode = 2"));
    assert!(out.contains("Start = \"button(99)\""));
}

#[test]
fn set_ini_section_handles_keys_with_spaces() {
    let cfg = "[Input-SDL-Control1]\nA Button = \"button(0)\"\nB Button = \"button(1)\"\n";
    let out = set_ini_key_in_section(cfg, "Input-SDL-Control1", "A Button", "\"button(5)\"");
    assert!(out.contains("A Button = \"button(5)\""));
    assert!(out.contains("B Button = \"button(1)\""));
    assert_eq!(out.matches("A Button").count(), 1);
}

#[test]
fn set_ini_section_inserts_missing_key_within_section() {
    let cfg = "[Input-SDL-Control1]\nmode = 0\n\n[Audio]\nx = 1\n";
    let out = set_ini_key_in_section(cfg, "Input-SDL-Control1", "Z Trig", "\"button(7)\"");
    // Inserted inside Control1, before the blank line / next section.
    let ctrl1 = out.split("[Audio]").next().unwrap();
    assert!(ctrl1.contains("Z Trig = \"button(7)\""));
    assert!(out.contains("[Audio]\nx = 1"));
}

// ── Mednafen ─────────────────────────────────────────────────────────────

const GUID: &str = "0005045e028e11300009000f00000000";

#[test]
fn mednafen_faces_and_shoulders_embed_guid() {
    let m = device_mapping();
    let a = encode_mednafen("virtualboy", "a", W3cInput::Button(0), &m, GUID, None).unwrap();
    assert_eq!(a.key, "vb.input.builtin.gamepad.a");
    assert_eq!(a.value, format!("joystick 0x{GUID} button_0"));
    // VB "L" captured as the shoulder button (W3C btn:4 → raw button 4).
    let l = encode_mednafen("virtualboy", "l", W3cInput::Button(4), &m, GUID, None).unwrap();
    assert_eq!(l.key, "vb.input.builtin.gamepad.lt");
    assert_eq!(l.value, format!("joystick 0x{GUID} button_4"));
}

#[test]
fn mednafen_right_dpad_uses_right_stick_axes() {
    let m = device_mapping();
    // Right d-pad up captured as right-stick Y negative (W3C axis:3- → raw axis 3).
    let up = encode_mednafen(
        "virtualboy",
        "r_dpad_up",
        W3cInput::Axis(3, AxisSign::Neg),
        &m,
        GUID,
        None,
    )
    .unwrap();
    assert_eq!(up.key, "vb.input.builtin.gamepad.up-r");
    assert_eq!(up.value, format!("joystick 0x{GUID} abs_3-"));
}

#[test]
fn mednafen_left_dpad_uses_config_axis_convention_not_probe_hat() {
    // The probe resolves the d-pad to a hat (device_mapping has Hat(0,*)), but
    // Mednafen flattens it to axes. With the config's (x=6, y=7) convention,
    // the d-pad is encoded as abs halves — never the unaddressable hat.
    let m = device_mapping();
    let dpad = Some((6, 7));
    let up =
        encode_mednafen("virtualboy", "dpad_up", W3cInput::Button(12), &m, GUID, dpad).unwrap();
    assert_eq!(up.value, format!("joystick 0x{GUID} abs_7-"));
    let down =
        encode_mednafen("virtualboy", "dpad_down", W3cInput::Button(13), &m, GUID, dpad)
            .unwrap();
    assert_eq!(down.value, format!("joystick 0x{GUID} abs_7+"));
    let left =
        encode_mednafen("virtualboy", "dpad_left", W3cInput::Button(14), &m, GUID, dpad)
            .unwrap();
    assert_eq!(left.value, format!("joystick 0x{GUID} abs_6-"));
    let right =
        encode_mednafen("virtualboy", "dpad_right", W3cInput::Button(15), &m, GUID, dpad)
            .unwrap();
    assert_eq!(right.value, format!("joystick 0x{GUID} abs_6+"));
}

#[test]
fn mednafen_dpad_unencoded_when_no_config_convention() {
    // No prior axis convention + probe sees a hat ⇒ never guess: report the
    // d-pad unencoded for Mednafen's in-game config (the escape hatch).
    let m = device_mapping();
    let mut b = Bindings::new();
    b.insert("dpad_up".into(), "btn:12".into());
    b.insert("a".into(), "btn:0".into());
    let (out, unencoded) = materialize_mednafen("virtualboy", &b, &m, GUID, None);
    assert_eq!(unencoded, vec!["dpad_up".to_string()]);
    assert!(out.iter().any(|x| x.key == "vb.input.builtin.gamepad.a"));
}

#[test]
fn mednafen_reads_guid_from_existing_config() {
    let cfg = format!(
        "vb.input.builtin.gamepad.a joystick 0x{GUID} button_0\n\
         vb.input.builtin.gamepad.left-l joystick 0x{GUID} abs_6-\n"
    );
    assert_eq!(mednafen_config_guid(&cfg, "virtualboy").as_deref(), Some(GUID));
    assert_eq!(mednafen_config_guid("", "virtualboy"), None);
}

#[test]
fn mednafen_reads_dpad_axes_from_existing_config() {
    let cfg = format!(
        "vb.input.builtin.gamepad.up-l joystick 0x{GUID} abs_7-\n\
         vb.input.builtin.gamepad.down-l joystick 0x{GUID} abs_7+\n\
         vb.input.builtin.gamepad.left-l joystick 0x{GUID} abs_6-\n\
         vb.input.builtin.gamepad.right-l joystick 0x{GUID} abs_6+\n"
    );
    assert_eq!(mednafen_config_dpad_axes(&cfg, "virtualboy"), Some((6, 7)));
    // Missing the d-pad entirely ⇒ None (caller leaves d-pad to escape hatch).
    assert_eq!(mednafen_config_dpad_axes("", "virtualboy"), None);
}

fn ps_bindings() -> Bindings {
    // Standard W3C layout: South=0, East=1, West=2, North=3, Back=8, Start=9,
    // LB/RB=4/5, LT/RT=6/7, L3/R3=10/11, DPad=12..15, sticks axes 0..3.
    bindings_of(&[
        ("cross", "btn:0"),
        ("circle", "btn:1"),
        ("square", "btn:2"),
        ("triangle", "btn:3"),
        ("l1", "btn:4"),
        ("r1", "btn:5"),
        ("l2", "btn:6"),
        ("r2", "btn:7"),
        ("select", "btn:8"),
        ("start", "btn:9"),
        ("l3", "btn:10"),
        ("r3", "btn:11"),
        ("dpad_up", "btn:12"),
        ("dpad_left", "btn:14"),
        ("l_stick_up", "axis:1-"),
        ("l_stick_right", "axis:0+"),
        ("r_stick_left", "axis:2-"),
    ])
}

fn find_val<'a>(a: &'a [Assignment], key: &str) -> Option<&'a str> {
    a.iter().find(|x| x.key == key).map(|x| x.value.as_str())
}

#[test]
fn pcsx2_emits_positional_face_tokens_and_default_prefix() {
    let (a, un) = materialize_ps_named(&ps_bindings(), PsDialect::Pcsx2, "SDL-0");
    assert!(un.is_empty(), "all standard inputs encode: {un:?}");
    assert_eq!(find_val(&a, "Cross"), Some("SDL-0/FaceSouth"));
    assert_eq!(find_val(&a, "Triangle"), Some("SDL-0/FaceNorth"));
    assert_eq!(find_val(&a, "Select"), Some("SDL-0/Back"));
    assert_eq!(find_val(&a, "L2"), Some("SDL-0/+LeftTrigger"));
    assert_eq!(find_val(&a, "Up"), Some("SDL-0/DPadUp"));
    assert_eq!(find_val(&a, "LUp"), Some("SDL-0/-LeftY"));
    assert_eq!(find_val(&a, "LRight"), Some("SDL-0/+LeftX"));
    assert_eq!(find_val(&a, "RLeft"), Some("SDL-0/-RightX"));
}

#[test]
fn duckstation_uses_sdl_letters_tilde_triggers_and_read_prefix() {
    let (a, _) = materialize_ps_named(&ps_bindings(), PsDialect::DuckStation, "SDL-1");
    assert_eq!(find_val(&a, "Cross"), Some("SDL-1/A"));
    assert_eq!(find_val(&a, "Circle"), Some("SDL-1/B"));
    assert_eq!(find_val(&a, "Square"), Some("SDL-1/X"));
    assert_eq!(find_val(&a, "Triangle"), Some("SDL-1/Y"));
    assert_eq!(find_val(&a, "L2"), Some("SDL-1/+LeftTrigger~"));
    assert_eq!(find_val(&a, "L1"), Some("SDL-1/LeftShoulder"));
}

#[test]
fn ps_reads_device_prefix_from_existing_section() {
    let cfg = "[Pad1]\nType = DualShock2\nCross = SDL-2/FaceSouth\nUp = SDL-2/DPadUp\n";
    assert_eq!(ps_device_prefix(cfg, "Pad1").as_deref(), Some("SDL-2"));
    // Wrong section / unconfigured ⇒ None (caller defaults to SDL-0).
    assert_eq!(ps_device_prefix(cfg, "Pad2"), None);
    assert_eq!(ps_device_prefix("[Pad1]\nType = DualShock2\n", "Pad1"), None);
}

#[test]
fn ps_unmappable_input_or_element_is_unencoded_not_guessed() {
    let b = bindings_of(&[
        ("guide_extra", "btn:3"), // unknown console input id
        ("cross", "btn:99"),      // out-of-layout element
    ]);
    let (a, un) = materialize_ps_named(&b, PsDialect::Pcsx2, "SDL-0");
    assert!(a.is_empty());
    assert_eq!(un.len(), 2);
}

#[test]
fn parses_mednafen_calculated_joystick_id_from_startup_log() {
    // Real Mednafen 1.32.1 startup enumeration (indented two spaces). The
    // calculated ID here is the evdev-derived hardware ID, NOT the SDL GUID.
    let log = "\
 Initializing joysticks...\n\
  ID: 0x0005045e028e11300009000f00000000 - Xbox Wireless Controller\n\
 Loading \"game.vb\"...\n";
    assert_eq!(
        parse_mednafen_joystick_id(log).as_deref(),
        Some("0005045e028e11300009000f00000000")
    );
    // No joystick line ⇒ None; malformed/short hex ⇒ None.
    assert_eq!(parse_mednafen_joystick_id("Initializing joysticks...\n"), None);
    assert_eq!(parse_mednafen_joystick_id("  ID: 0xdeadbeef - Short\n"), None);
}

#[test]
fn set_mednafen_setting_replaces_in_place_and_appends() {
    let cfg = "vb.input.builtin.gamepad.a joystick 0x0 button_0\nfoo.bar 1\n";
    let out = set_mednafen_setting(
        cfg,
        "vb.input.builtin.gamepad.a",
        &format!("joystick 0x{GUID} button_3"),
    );
    assert!(out.contains(&format!(
        "vb.input.builtin.gamepad.a joystick 0x{GUID} button_3"
    )));
    assert!(out.contains("foo.bar 1")); // untouched
    assert_eq!(out.matches("vb.input.builtin.gamepad.a").count(), 1);
    // Absent key is appended.
    let out2 = set_mednafen_setting(&out, "vb.input.builtin.gamepad.b", "joystick 0x0 button_1");
    assert!(out2.contains("vb.input.builtin.gamepad.b joystick 0x0 button_1"));
}

// ── Snes9x (Tier B) ──────────────────────────────────────────────────────

#[test]
fn snes9x_face_and_trigger_use_raw_indices() {
    let m = device_mapping();
    let mut b = Bindings::new();
    b.insert("a".into(), "btn:0".into()); // South → raw button 0
    b.insert("l".into(), "btn:6".into()); // LT button → SDL trigger axis 4 → raw axis 5
    let (out, un) = materialize_snes9x(&b, &m, 1);
    let find = |k: &str| out.iter().find(|a| a.key == k).map(|a| a.value.as_str());
    assert_eq!(find("A"), Some("Joystick 1 Button 0"));
    assert_eq!(find("L"), Some("Joystick 1 Axis 5 + 40%"));
    assert!(un.is_empty());
}

#[test]
fn snes9x_honours_device_number() {
    let m = device_mapping();
    let mut b = Bindings::new();
    b.insert("b".into(), "btn:1".into());
    let (out, _) = materialize_snes9x(&b, &m, 3);
    assert_eq!(out[0].value, "Joystick 3 Button 1");
}

#[test]
fn snes9x_dpad_hat_is_unencoded_not_guessed() {
    // The pad reports its d-pad as a hat; snes9x has no hat token, so the
    // direction must not be written as a synthesized axis.
    let m = device_mapping();
    let mut b = Bindings::new();
    b.insert("dpad_up".into(), "btn:12".into());
    let (out, un) = materialize_snes9x(&b, &m, 1);
    assert!(out.is_empty());
    assert_eq!(un, vec!["dpad_up".to_string()]);
}

#[test]
fn snes9x_reads_device_number_and_existing_binding() {
    let cfg = "\
[Joypad 0]
A        = Joystick 1 Button 0
Up       = Joystick 1 Axis 7 + 40%
Down     = Unset

[Joypad 1]
A        = Joystick 2 Button 0
";
    assert_eq!(snes9x_joystick_number(cfg, "Joypad 0"), Some(1));
    assert_eq!(snes9x_joystick_number(cfg, "Joypad 1"), Some(2));
    // Up has a real binding (so we won't nag); Down is Unset.
    assert!(snes9x_has_binding(cfg, "Joypad 0", "dpad_up"));
    assert!(!snes9x_has_binding(cfg, "Joypad 0", "dpad_down"));
    // A key not present in the section.
    assert!(!snes9x_has_binding(cfg, "Joypad 0", "start"));
}

#[test]
fn snes9x_unknown_input_is_unencoded() {
    let m = device_mapping();
    let mut b = Bindings::new();
    b.insert("c_up".into(), "btn:3".into()); // not a SNES pad input
    let (out, un) = materialize_snes9x(&b, &m, 1);
    assert!(out.is_empty());
    assert_eq!(un, vec!["c_up".to_string()]);
}

// ── mGBA (Tier B) ─────────────────────────────────────────────────────────

#[test]
fn mgba_section_per_platform() {
    assert_eq!(mgba_section("gba").as_deref(), Some("gba.input.SDLB"));
    assert_eq!(mgba_section("gb").as_deref(), Some("gb.input.SDLB"));
    assert_eq!(mgba_section("gbc").as_deref(), Some("gb.input.SDLB"));
    assert_eq!(mgba_section("nes"), None);
}

#[test]
fn mgba_profile_section_keys_by_joystick_name() {
    // The Qt frontend loads (and re-saves) this section last, overriding SDLB.
    assert_eq!(
        mgba_profile_section("gba", "Xbox Wireless Controller").as_deref(),
        Some("gba.input-profile.Xbox Wireless Controller")
    );
    assert_eq!(
        mgba_profile_section("gbc", "Xbox Wireless Controller").as_deref(),
        Some("gb.input-profile.Xbox Wireless Controller")
    );
    assert_eq!(mgba_profile_section("nes", "Any Pad"), None);
}

#[test]
fn mgba_button_uses_raw_index() {
    let m = device_mapping();
    let mut b = Bindings::new();
    b.insert("a".into(), "btn:0".into()); // South → raw button 0
    b.insert("start".into(), "btn:9".into()); // Start → raw button 11 on this pad
    let (out, un) = materialize_mgba(&b, &m);
    let find = |k: &str| out.iter().find(|a| a.key == k).map(|a| a.value.as_str());
    assert_eq!(find("keyA"), Some("0"));
    assert_eq!(find("keyStart"), Some("11"));
    assert!(un.is_empty());
}

#[test]
fn mgba_dpad_hat_uses_inverted_gamekey_value() {
    // The pad's d-pad probes as a hat; mGBA addresses hats natively, storing
    // the GAME KEY enum as the value (Up=6, Down=7, Left=5, Right=4).
    let m = device_mapping();
    let mut b = Bindings::new();
    b.insert("dpad_up".into(), "btn:12".into());
    b.insert("dpad_left".into(), "btn:14".into());
    let (out, un) = materialize_mgba(&b, &m);
    let find = |k: &str| out.iter().find(|a| a.key == k).map(|a| a.value.as_str());
    assert_eq!(find("hat0Up"), Some("6"));
    assert_eq!(find("hat0Left"), Some("5"));
    assert!(un.is_empty());
}

#[test]
fn mgba_analog_trigger_emits_axis_and_threshold() {
    let m = device_mapping();
    let mut b = Bindings::new();
    // L captured as the analog left trigger: W3C btn:6 → SDL trigger axis 4 →
    // raw axis 5 (positive half on this pad).
    b.insert("l".into(), "btn:6".into());
    let (out, un) = materialize_mgba(&b, &m);
    let find = |k: &str| out.iter().find(|a| a.key == k).map(|a| a.value.as_str());
    assert_eq!(find("axisLAxis"), Some("+5"));
    assert_eq!(find("axisLValue"), Some("16384"));
    assert!(un.is_empty());
}

#[test]
fn mgba_negative_axis_threshold_is_signed() {
    let m = device_mapping();
    let mut b = Bindings::new();
    // Contrived: bind L to the left-stick negative half to check the sign.
    b.insert("l".into(), "axis:0-".into());
    let (out, _) = materialize_mgba(&b, &m);
    let find = |k: &str| out.iter().find(|a| a.key == k).map(|a| a.value.as_str());
    assert_eq!(find("axisLAxis"), Some("-0"));
    assert_eq!(find("axisLValue"), Some("-16384"));
}

#[test]
fn mgba_unknown_input_and_unresolvable_are_unencoded() {
    let mut b = Bindings::new();
    b.insert("c_up".into(), "btn:3".into()); // not a GB/GBA input
    b.insert("a".into(), "btn:0".into()); // resolvable id, but empty mapping
    let (out, un) = materialize_mgba(&b, &PadMapping::new());
    assert!(out.is_empty());
    assert_eq!(un.len(), 2);
    assert!(un.contains(&"c_up".to_string()));
    assert!(un.contains(&"a".to_string()));
}

#[test]
fn set_ini_compact_writes_without_spaces() {
    let cfg = "[gba.input.SDLB]\nkeyA=0\nkeyB=2\n";
    let out = set_ini_key_in_section_compact(cfg, "gba.input.SDLB", "keyA", "5");
    assert!(out.contains("keyA=5"));
    assert!(!out.contains("keyA = 5"));
    assert!(out.contains("keyB=2")); // untouched
    // Absent key is inserted compactly within the section.
    let out2 = set_ini_key_in_section_compact(&out, "gba.input.SDLB", "hat0Up", "6");
    assert!(out2.contains("hat0Up=6"));
}

#[test]
fn mednafen_guid_is_found_past_blank_lines() {
    let cfg = ";VERSION 1.32.1\n\nvb.input.builtin.gamepad.a joystick 0xABCD button_0\n";
    assert_eq!(mednafen_config_guid(cfg, "virtualboy").as_deref(), Some("ABCD"));
}

#[test]
fn set_flat_key_keeps_crlf_line_endings() {
    let out = set_flat_key("a = \"1\"\r\nb = \"2\"\r\n", "b", "\"3\"");
    assert_eq!(out, "a = \"1\"\r\nb = \"3\"\r\n");
}

#[test]
fn set_flat_key_twice_changes_nothing_more() {
    for text in ["", "x = 1", "x = 1\n", "  k = \"5\"\r\nk = \"6\"\n", "a\r\n\r\n"] {
        let once = set_flat_key(text, "k", "\"9\"");
        assert_eq!(set_flat_key(&once, "k", "\"9\""), once);
    }
}

#[test]
fn set_ini_section_insertion_lands_before_trailing_blank_lines() {
    let cfg = "[Input-SDL-Control1]\nmode = 0\n\n[Audio]\nx = 1\n";
    let out = set_ini_key_in_section(cfg, "Input-SDL-Control1", "Z Trig", "\"button(7)\"");
    assert_eq!(out, "[Input-SDL-Control1]\nmode = 0\nZ Trig = \"button(7)\"\n\n[Audio]\nx = 1\n");
    // The last section takes the key after its last entry too.
    let out = set_ini_key_in_section("[A]\nx = 1\n\n\n", "A", "y", "2");
    assert_eq!(out, "[A]\nx = 1\ny = 2\n\n\n");
}

#[test]
fn pad_mapping_new_is_the_empty_default() {
    let m = PadMapping::new();
    assert!(m.is_empty());
    assert_eq!(m, PadMapping::default());
}
