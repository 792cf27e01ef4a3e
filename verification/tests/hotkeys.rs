use dreamvault::hotkeys::{
    ini_section_pairs, normalize_key, overlay_defaults, retroarch_defaults, sdl_keysym_name,
    sdl_scancode_name, HotkeyAction, HotkeyMap,
};



#[test]
fn ini_section_scopes_and_splits_on_first_eq() {
    let text = "\
[Other]
SaveStateToSlot = nope
[Hotkeys]
SaveStateToSlot = Keyboard/F1
Save State/Save to Selected Slot = `F5`
; a comment
Device = DInput/0/Foo
[Trailing]
Ignored = yes
";
    let pairs = ini_section_pairs(text, "Hotkeys");
    assert!(pairs.contains(&("SaveStateToSlot".into(), "Keyboard/F1".into())));
    // Key containing a slash/space is preserved; value keeps its `=`-free rest.
    assert!(pairs.contains(&(
        "Save State/Save to Selected Slot".into(),
        "`F5`".into()
    )));
    // The same key in another section is not leaked in.
    assert!(!pairs.iter().any(|(_, v)| v == "nope"));
    assert!(!pairs.iter().any(|(k, _)| k == "Ignored"));
}

#[test]
fn normalize_key_handles_each_casing() {
    assert_eq!(normalize_key("f2"), "F2");
    assert_eq!(normalize_key("F11"), "F11");
    assert_eq!(normalize_key("escape"), "Esc");
    assert_eq!(normalize_key("space"), "Space");
    assert_eq!(normalize_key("Period"), ".");
    assert_eq!(normalize_key("p"), "P");
    assert_eq!(normalize_key("Return"), "Return");
    assert_eq!(normalize_key("nul"), "");
    assert_eq!(normalize_key(""), "");
}

#[test]
fn overlay_prefers_parsed_else_default() {
    let mut parsed = HotkeyMap::new();
    parsed.insert(HotkeyAction::SaveState, "F9".to_string());
    let out = overlay_defaults(&retroarch_defaults(), &parsed);

    let save = out.iter().find(|h| h.action == HotkeyAction::SaveState).unwrap();
    assert_eq!(save.binding, "F9");
    assert!(!save.is_default);

    // An action absent from the parsed config falls back to the default.
    let load = out.iter().find(|h| h.action == HotkeyAction::LoadState).unwrap();
    assert_eq!(load.binding, "F4");
    assert!(load.is_default);

    // The table defines the canonical set/order regardless of the parsed map.
    assert_eq!(out.len(), retroarch_defaults().len());
}

#[test]
fn sdl_keysym_translates_mupen_values() {
    // Verified Mupen values: F5/F7/F12 function keys, P/F ASCII, Esc.
    assert_eq!(sdl_keysym_name(286), "F5");
    assert_eq!(sdl_keysym_name(288), "F7");
    assert_eq!(sdl_keysym_name(290), "F9");
    assert_eq!(sdl_keysym_name(293), "F12");
    assert_eq!(sdl_keysym_name(112), "P");
    assert_eq!(sdl_keysym_name(102), "F");
    assert_eq!(sdl_keysym_name(27), "Esc");
    assert_eq!(sdl_keysym_name(47), "/");
    // 0 is the unbound sentinel; unknown codes degrade to `key <n>`.
    assert_eq!(sdl_keysym_name(0), "");
    assert_eq!(sdl_keysym_name(9999), "key 9999");
}

#[test]
fn sdl_scancode_translates_mednafen_values() {
    // Verified Mednafen values: F1=58 so F5=62 … F12=69; named/punctuation.
    assert_eq!(sdl_scancode_name(62), "F5");
    assert_eq!(sdl_scancode_name(64), "F7");
    assert_eq!(sdl_scancode_name(66), "F9");
    assert_eq!(sdl_scancode_name(67), "F10");
    assert_eq!(sdl_scancode_name(69), "F12");
    assert_eq!(sdl_scancode_name(72), "Pause");
    assert_eq!(sdl_scancode_name(53), "`");
    assert_eq!(sdl_scancode_name(45), "-");
    assert_eq!(sdl_scancode_name(46), "=");
    assert_eq!(sdl_scancode_name(4), "A");
    assert_eq!(sdl_scancode_name(39), "0");
    assert_eq!(sdl_scancode_name(0), "");
    assert_eq!(sdl_scancode_name(9999), "key 9999");
}

#[test]
fn every_action_has_its_own_label() {
    let all = [
        HotkeyAction::SaveState, HotkeyAction::LoadState, HotkeyAction::NextSlot, HotkeyAction::PrevSlot, HotkeyAction::Screenshot, HotkeyAction::Pause, HotkeyAction::FastForwardHold,
        HotkeyAction::FastForwardToggle, HotkeyAction::Rewind, HotkeyAction::ToggleFullscreen, HotkeyAction::ToggleMenu, HotkeyAction::Exit, HotkeyAction::Reset,
    ];
    for (i, a) in all.iter().enumerate() {
        assert!(!a.label().is_empty());
        for b in &all[i + 1..] {
            assert_ne!(a.label(), b.label());
        }
    }
    assert_eq!(HotkeyAction::PrevSlot.label(), "Previous Slot");
}

#[test]
fn normalizing_a_key_twice_is_normalizing_it_once() {
    for raw in ["escape", "f2", "Period", "nul", "  shift ", "a", "F12", "ctrl", ",", "Return", "x y"] {
        let once = normalize_key(raw);
        assert_eq!(normalize_key(&once), once, "{raw}");
    }
}
