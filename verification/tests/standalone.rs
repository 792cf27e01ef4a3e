use dreamvault::adapters::standalone::{
    launch_state_emulators, learn_dolphin_game_id, learn_duckstation_serial, learn_mupen_base,
    learn_pcsx2_serial, parse_blastem, parse_dolphin, parse_dolphin_hotkeys, parse_duckstation,
    parse_duckstation_hotkeys, parse_flycast, parse_mednafen, parse_mednafen_hotkeys, parse_melonds,
    parse_mesen, parse_mgba, parse_mupen, parse_mupen_hotkeys, parse_pcsx2, parse_pcsx2_hotkeys,
    parse_snes9x, parse_snes9x_hotkeys,
};
use dreamvault::adapters::{LaunchContext, LoadState, StandaloneAdapter};
use dreamvault::config::HidapiWorkaround;
use dreamvault::hotkeys::HotkeyAction;
use dreamvault::models::InstallSource;



#[test]
fn pcsx2_hotkeys_parse_from_real_section() {
    // Real `[Hotkeys]` block (Appendix A). `Keyboard/` prefix dropped, combos
    // re-joined with ` + `.
    let ini = "\
[UI]
Theme = dark
[Hotkeys]
SaveStateToSlot = Keyboard/F1
LoadStateFromSlot = Keyboard/F3
PreviousSaveStateSlot = Keyboard/Shift & Keyboard/F2
ToggleFullscreen = Keyboard/Alt & Keyboard/Return
OpenPauseMenu = Keyboard/Escape
";
    let m = parse_pcsx2_hotkeys(ini);
    assert_eq!(m.get(&HotkeyAction::SaveState).map(String::as_str), Some("F1"));
    assert_eq!(m.get(&HotkeyAction::LoadState).map(String::as_str), Some("F3"));
    assert_eq!(m.get(&HotkeyAction::PrevSlot).map(String::as_str), Some("Shift + F2"));
    assert_eq!(
        m.get(&HotkeyAction::ToggleFullscreen).map(String::as_str),
        Some("Alt + Return")
    );
    assert_eq!(m.get(&HotkeyAction::ToggleMenu).map(String::as_str), Some("Esc"));
}

#[test]
fn duckstation_hotkeys_share_grammar_distinct_keys() {
    let ini = "\
[Hotkeys]
SaveSelectedSaveState = Keyboard/F2
LoadSelectedSaveState = Keyboard/F1
FastForward = Keyboard/Tab
ToggleFullscreen = Keyboard/F11
";
    let m = parse_duckstation_hotkeys(ini);
    assert_eq!(m.get(&HotkeyAction::SaveState).map(String::as_str), Some("F2"));
    assert_eq!(m.get(&HotkeyAction::LoadState).map(String::as_str), Some("F1"));
    assert_eq!(
        m.get(&HotkeyAction::FastForwardHold).map(String::as_str),
        Some("Tab")
    );
    assert_eq!(
        m.get(&HotkeyAction::ToggleFullscreen).map(String::as_str),
        Some("F11")
    );
}

#[test]
fn dolphin_hotkeys_strip_backticks_and_skip_device() {
    // Real `[Hotkeys]` block: compound keys, backtick values, combos on `&`.
    let ini = "\
[Hotkeys]
Device = DInput/0/Keyboard Mouse
Save State/Save to Selected Slot = `F5`
Load State/Load from Selected Slot = `F7`
General/Toggle Fullscreen = `Alt`&`Return`
General/Stop = `Escape`
";
    let m = parse_dolphin_hotkeys(ini);
    assert_eq!(m.get(&HotkeyAction::SaveState).map(String::as_str), Some("F5"));
    assert_eq!(m.get(&HotkeyAction::LoadState).map(String::as_str), Some("F7"));
    assert_eq!(
        m.get(&HotkeyAction::ToggleFullscreen).map(String::as_str),
        Some("Alt + Return")
    );
    assert_eq!(m.get(&HotkeyAction::Exit).map(String::as_str), Some("Esc"));
    // The `Device =` line is not a hotkey.
    assert_eq!(m.len(), 4);
}

#[test]
fn mupen_hotkeys_translate_sdl_keysyms() {
    // Real `[CoreEvents]` block (verified values). Values are SDL keysyms;
    // `0` (Increment Slot / Fullscreen) is unbound → dropped, falls to default.
    let ini = "\
[Core]
Version = 1
[CoreEvents]
Kbd Mapping Save State = 286
Kbd Mapping Load State = 288
Kbd Mapping Increment Slot = 0
Kbd Mapping Screenshot = 293
Kbd Mapping Pause = 112
Kbd Mapping Fast Forward = 102
Kbd Mapping Stop = 27
Kbd Mapping Reset = 290
Kbd Mapping Fullscreen = 0
";
    let m = parse_mupen_hotkeys(ini);
    assert_eq!(m.get(&HotkeyAction::SaveState).map(String::as_str), Some("F5"));
    assert_eq!(m.get(&HotkeyAction::LoadState).map(String::as_str), Some("F7"));
    assert_eq!(m.get(&HotkeyAction::Screenshot).map(String::as_str), Some("F12"));
    assert_eq!(m.get(&HotkeyAction::Pause).map(String::as_str), Some("P"));
    assert_eq!(
        m.get(&HotkeyAction::FastForwardHold).map(String::as_str),
        Some("F")
    );
    assert_eq!(m.get(&HotkeyAction::Exit).map(String::as_str), Some("Esc"));
    assert_eq!(m.get(&HotkeyAction::Reset).map(String::as_str), Some("F9"));
    // Unbound (`0`) actions are absent.
    assert!(m.get(&HotkeyAction::NextSlot).is_none());
    assert!(m.get(&HotkeyAction::ToggleFullscreen).is_none());
}

#[test]
fn mednafen_hotkeys_translate_sdl_scancodes() {
    // Real flat `command.<action> keyboard 0x0 <scancode>` lines (verified).
    let cfg = "\
command.exit keyboard 0x0 69
command.fast_forward keyboard 0x0 53
command.load_state keyboard 0x0 64
command.pause keyboard 0x0 72
command.reset keyboard 0x0 67
command.save_state keyboard 0x0 62
command.state_slot_dec keyboard 0x0 45
command.state_slot_inc keyboard 0x0 46
command.take_snapshot keyboard 0x0 66
video.fs 0
";
    let m = parse_mednafen_hotkeys(cfg);
    assert_eq!(m.get(&HotkeyAction::SaveState).map(String::as_str), Some("F5"));
    assert_eq!(m.get(&HotkeyAction::LoadState).map(String::as_str), Some("F7"));
    assert_eq!(m.get(&HotkeyAction::NextSlot).map(String::as_str), Some("="));
    assert_eq!(m.get(&HotkeyAction::PrevSlot).map(String::as_str), Some("-"));
    assert_eq!(m.get(&HotkeyAction::Screenshot).map(String::as_str), Some("F9"));
    assert_eq!(m.get(&HotkeyAction::Pause).map(String::as_str), Some("Pause"));
    assert_eq!(
        m.get(&HotkeyAction::FastForwardHold).map(String::as_str),
        Some("`")
    );
    assert_eq!(m.get(&HotkeyAction::Reset).map(String::as_str), Some("F10"));
    assert_eq!(m.get(&HotkeyAction::Exit).map(String::as_str), Some("F12"));
    // The unrelated `video.fs` line is ignored.
    assert_eq!(m.len(), 9);
}

#[test]
fn snes9x_gtk_accelerators_parse_and_skip_unset() {
    // `[Shortcuts]` GTK accel strings; all-`Unset` is the stock state.
    let conf = "\
[Joypad 0]
A = Unset
[Shortcuts]
GTK_state_save_current   = <Shift>F1
GTK_state_load_current   = F1
GTK_fullscreen           = <Control><Alt>F
GTK_pause                = Unset
Screenshot               = Unset
";
    let m = parse_snes9x_hotkeys(conf);
    assert_eq!(
        m.get(&HotkeyAction::SaveState).map(String::as_str),
        Some("Shift + F1")
    );
    assert_eq!(m.get(&HotkeyAction::LoadState).map(String::as_str), Some("F1"));
    assert_eq!(
        m.get(&HotkeyAction::ToggleFullscreen).map(String::as_str),
        Some("Ctrl + Alt + F")
    );
    // `Unset` bindings are dropped (not surfaced as empty rows).
    assert!(m.get(&HotkeyAction::Pause).is_none());
    assert!(m.get(&HotkeyAction::Screenshot).is_none());
    assert_eq!(m.len(), 3);
}

#[test]
fn pcsx2_filenames_map_to_slots() {
    // Real captured names: `<SERIAL> (<CRC>).<slot>.p2s`.
    assert_eq!(
        parse_pcsx2("SLUS-20415 (2999BCF9).resume.p2s", "SLUS-20415"),
        Some(-1)
    );
    assert_eq!(parse_pcsx2("SLUS-20415 (2999BCF9).00.p2s", "SLUS-20415"), Some(0));
    assert_eq!(parse_pcsx2("SLUS-20415 (2999BCF9).09.p2s", "SLUS-20415"), Some(9));
    // A different game's state, and PCSX2's `.backup` sibling, are rejected.
    assert_eq!(parse_pcsx2("SCUS-97134 (6F4056DB).00.p2s", "SLUS-20415"), None);
    assert_eq!(
        parse_pcsx2("SLUS-20415 (2999BCF9).00.p2s.backup", "SLUS-20415"),
        None
    );
}

#[test]
fn duckstation_filenames_map_to_slots() {
    // Real captured names: `<SERIAL>_resume.sav` / `<SERIAL>_<n>.sav`.
    assert_eq!(parse_duckstation("SCUS-94163_resume.sav", "SCUS-94163"), Some(-1));
    assert_eq!(parse_duckstation("SCUS-94163_1.sav", "SCUS-94163"), Some(1));
    // Different serial, and the memory-card file, are rejected.
    assert_eq!(parse_duckstation("SCUS-94900_resume.sav", "SCUS-94163"), None);
    assert_eq!(parse_duckstation("SCUS-94163.mcd", "SCUS-94163"), None);
}

#[test]
fn snes9x_filenames_map_to_slots() {
    assert_eq!(parse_snes9x("Super Mario World.000", "Super Mario World"), Some(0));
    assert_eq!(parse_snes9x("Super Mario World.009", "Super Mario World"), Some(9));
    // Battery save and a different game's state are skipped.
    assert_eq!(parse_snes9x("Super Mario World.srm", "Super Mario World"), None);
    assert_eq!(parse_snes9x("Zelda.000", "Super Mario World"), None);
}

#[test]
fn mgba_filenames_map_to_slots() {
    // mGBA states beside the ROM: `<stem>.ss0`..`.ss9`.
    assert_eq!(parse_mgba("Metroid Fusion.ss0", "Metroid Fusion"), Some(0));
    assert_eq!(parse_mgba("Metroid Fusion.ss9", "Metroid Fusion"), Some(9));
    // Battery save, screenshot, and a different game's state are skipped.
    assert_eq!(parse_mgba("Metroid Fusion.sav", "Metroid Fusion"), None);
    assert_eq!(parse_mgba("Metroid Fusion.png", "Metroid Fusion"), None);
    assert_eq!(parse_mgba("Golden Sun.ss0", "Metroid Fusion"), None);
}

#[test]
fn flycast_filenames_map_to_slots() {
    // Real captured name (slot 0): `<stem>.state` in the Flycast data dir.
    let stem = "Jet Grind Radio (USA)";
    assert_eq!(parse_flycast("Jet Grind Radio (USA).state", stem), Some(0));
    // Numbered slots: `<stem>_N.state`.
    assert_eq!(parse_flycast("Jet Grind Radio (USA)_1.state", stem), Some(1));
    assert_eq!(parse_flycast("Jet Grind Radio (USA)_9.state", stem), Some(9));
    // The `.state.net` autosave/netplay variant and another game are skipped.
    assert_eq!(parse_flycast("Jet Grind Radio (USA).state.net", stem), None);
    assert_eq!(parse_flycast("Sonic Adventure (USA).state", stem), None);
}

#[test]
fn melonds_filenames_map_to_slots() {
    // Real captured name (slot 1): `<stem>.ml1` beside the extracted ROM.
    let stem = "0028 - Kirby - Canvas Curse (USA)";
    assert_eq!(parse_melonds("0028 - Kirby - Canvas Curse (USA).ml1", stem), Some(1));
    assert_eq!(parse_melonds("0028 - Kirby - Canvas Curse (USA).ml8", stem), Some(8));
    // The `.dsv` battery save and another game's state are skipped.
    assert_eq!(parse_melonds("0028 - Kirby - Canvas Curse (USA).dsv", stem), None);
    assert_eq!(parse_melonds("Mario Kart DS (U).ml1", stem), None);
}

#[test]
fn blastem_filenames_map_to_slots() {
    // Real captured names from `data/blastem/<game>/`: numbered slots plus the
    // F5 quicksave. The discovery dir is already per-game, so the stem arg is
    // unused (passed empty here).
    assert_eq!(parse_blastem("slot_0.state", ""), Some(0));
    assert_eq!(parse_blastem("slot_9.state", ""), Some(9));
    assert_eq!(parse_blastem("quicksave.state", ""), Some(-1));
    // A battery save / non-state file is skipped.
    assert_eq!(parse_blastem("save.sram", ""), None);
    assert_eq!(parse_blastem("slot_x.state", ""), None);
}

#[test]
fn mednafen_filenames_map_to_slots() {
    // Real captured name: `<stem>.<md5>.mc<slot>` in ~/.mednafen/mcs/.
    let stem = "Hook (Europe) (Proto)";
    assert_eq!(
        parse_mednafen("Hook (Europe) (Proto).7a07e3e59f51b620d8c51bef468d4df5.mc0", stem),
        Some(0)
    );
    assert_eq!(
        parse_mednafen("Hook (Europe) (Proto).7a07e3e59f51b620d8c51bef468d4df5.mc9", stem),
        Some(9)
    );
    // Battery save (lives in ~/.mednafen/sav, but guard anyway) and another
    // game's state are skipped.
    assert_eq!(parse_mednafen("Hook (Europe) (Proto).7a07e3e5.sav", stem), None);
    assert_eq!(parse_mednafen("Sonic.deadbeef.mc0", stem), None);
}

#[test]
fn mesen_filenames_map_to_slots() {
    // Real captured name: `<stem>_<slot>.mss` in ~/.config/Mesen2/SaveStates/.
    let stem = "Addams Family, The (USA)";
    assert_eq!(parse_mesen("Addams Family, The (USA)_1.mss", stem), Some(1));
    assert_eq!(parse_mesen("Addams Family, The (USA)_10.mss", stem), Some(10));
    // Auto-save (non-numeric) and another game are skipped.
    assert_eq!(parse_mesen("Addams Family, The (USA)_auto.mss", stem), None);
    assert_eq!(parse_mesen("Super Mario Bros_1.mss", stem), None);
}

#[test]
fn dolphin_filenames_map_to_slots() {
    assert_eq!(parse_dolphin("GALE01.s01", "GALE01"), Some(1));
    assert_eq!(parse_dolphin("GALE01.s10", "GALE01"), Some(10));
    // Different game id, and the input-recording sibling, are rejected.
    assert_eq!(parse_dolphin("GZLE01.s01", "GALE01"), None);
    assert_eq!(parse_dolphin("GALE01.dtm", "GALE01"), None);
}

#[test]
fn mupen_filenames_map_to_slots() {
    // Real captured base: `<GoodName>-<CRC>` from Mupen's bundled database.
    let base = "Mario Kart 64 (U) [!]-3A67D998";
    assert_eq!(parse_mupen("Mario Kart 64 (U) [!]-3A67D998.st0", base), Some(0));
    assert_eq!(parse_mupen("Mario Kart 64 (U) [!]-3A67D998.st9", base), Some(9));
    // Battery saves share the base but are not savestate slots.
    assert_eq!(parse_mupen("Mario Kart 64 (U) [!]-3A67D998.eep", base), None);
    assert_eq!(parse_mupen("Mario Kart 64 (U) [!]-3A67D998.sra", base), None);
    // A different game's state, and a non-numeric slot, are rejected.
    assert_eq!(parse_mupen("Zelda (U)-1234ABCD.st0", base), None);
    assert_eq!(parse_mupen("Mario Kart 64 (U) [!]-3A67D998.stX", base), None);
}

#[test]
fn mupen_base_is_learned_from_any_of_its_files() {
    // A savestate teaches the base by stripping `.stN`.
    assert_eq!(
        learn_mupen_base("Mario Kart 64 (U) [!]-3A67D998.st0").as_deref(),
        Some("Mario Kart 64 (U) [!]-3A67D998")
    );
    // Each battery-save extension teaches the same base.
    assert_eq!(
        learn_mupen_base("Mario Kart 64 (U) [!]-3A67D998.eep").as_deref(),
        Some("Mario Kart 64 (U) [!]-3A67D998")
    );
    assert_eq!(
        learn_mupen_base("Mario Kart 64 (U) [!]-3A67D998.mpk").as_deref(),
        Some("Mario Kart 64 (U) [!]-3A67D998")
    );
    assert_eq!(
        learn_mupen_base("Mario Kart 64 (U) [!]-3A67D998.fla").as_deref(),
        Some("Mario Kart 64 (U) [!]-3A67D998")
    );
    // Unrelated files in the save dir teach nothing.
    assert_eq!(learn_mupen_base("notes.txt"), None);
    assert_eq!(learn_mupen_base("Mario Kart 64 (U) [!]-3A67D998.stX"), None);
}

#[test]
fn serial_keyed_emulators_learn_their_key_from_a_written_state() {
    // PCSX2: `<SERIAL> (<CRC>).<slot>.p2s` -> SERIAL, for both numbered and
    // resume slots; the `.backup` sibling teaches nothing.
    assert_eq!(
        learn_pcsx2_serial("SLUS-20415 (2999BCF9).00.p2s").as_deref(),
        Some("SLUS-20415")
    );
    assert_eq!(
        learn_pcsx2_serial("SLUS-20415 (2999BCF9).resume.p2s").as_deref(),
        Some("SLUS-20415")
    );
    assert_eq!(learn_pcsx2_serial("SLUS-20415 (2999BCF9).00.p2s.backup"), None);
    // The learned serial must satisfy the discovery parser for the same file.
    let s = learn_pcsx2_serial("SLUS-20415 (2999BCF9).07.p2s").unwrap();
    assert_eq!(parse_pcsx2("SLUS-20415 (2999BCF9).07.p2s", &s), Some(7));

    // DuckStation: `<SERIAL>_resume.sav` / `<SERIAL>_<n>.sav` -> SERIAL.
    assert_eq!(
        learn_duckstation_serial("SCUS-94163_resume.sav").as_deref(),
        Some("SCUS-94163")
    );
    assert_eq!(
        learn_duckstation_serial("SCUS-94163_2.sav").as_deref(),
        Some("SCUS-94163")
    );
    assert_eq!(learn_duckstation_serial("SCUS-94163.mcd"), None); // memory card
    let d = learn_duckstation_serial("SCUS-94163_2.sav").unwrap();
    assert_eq!(parse_duckstation("SCUS-94163_2.sav", &d), Some(2));

    // Dolphin: `<GAMEID>.sNN` -> GAMEID; the `.dtm` recording teaches nothing.
    assert_eq!(learn_dolphin_game_id("GALE01.s01").as_deref(), Some("GALE01"));
    assert_eq!(learn_dolphin_game_id("GALE01.dtm"), None);
    let g = learn_dolphin_game_id("GALE01.s03").unwrap();
    assert_eq!(parse_dolphin("GALE01.s03", &g), Some(3));
}

/// Build a launch context carrying a savestate to boot into, for exercising
/// `apply_load_state`'s arg splicing without spawning anything.
fn ctx_with_state(path: &str) -> LaunchContext {
    LaunchContext {
        executable_path: "emu".into(),
        install_source: InstallSource::Manual,
        flatpak_app_id: None,
        rom_path: "/roms/game.rom".into(),
        platform: "test".into(),
        extra_args: Vec::new(),
        env: Vec::new(),
        core_override: None,
        load_state: Some(LoadState {
            slot: 3,
            path: path.into(),
        }),
        sdl_hidapi_workaround: HidapiWorkaround::Auto,
    }
}

/// Did the SDL-HIDAPI workaround set `SDL_JOYSTICK_HIDAPI=0` for this adapter
/// under the given policy?
fn sets_hidapi(adapter: &StandaloneAdapter, policy: HidapiWorkaround) -> bool {
    env_set_to(adapter, policy, "SDL_JOYSTICK_HIDAPI", "0")
}

fn env_set_to(adapter: &StandaloneAdapter, policy: HidapiWorkaround, key: &str, val: &str) -> bool {
    let mut ctx = ctx_with_state("/save/x.st3");
    ctx.sdl_hidapi_workaround = policy;
    adapter
        .sdl_hidapi_env(&ctx, false)
        .iter()
        .any(|(k, v)| k == key && v == val)
}

#[test]
fn hidapi_workaround_respects_policy() {
    let sdl = StandaloneAdapter::mupen64plus();
    // Force always sets it; Off never does — regardless of hardware.
    assert!(sets_hidapi(&sdl, HidapiWorkaround::Force));
    assert!(!sets_hidapi(&sdl, HidapiWorkaround::Off));
    // All SDL-input standalones are covered (regression guard: the set used
    // to be a 4-emulator allowlist, leaving Bluetooth pads dead everywhere
    // else; it is now a denylist so every SDL emulator is fixed and new ones
    // are covered automatically). Spot-check a spread across systems.
    for a in [
        StandaloneAdapter::duckstation(),
        StandaloneAdapter::pcsx2(),
        StandaloneAdapter::rpcs3(),
        StandaloneAdapter::ppsspp(),
        StandaloneAdapter::melonds(),
        StandaloneAdapter::flycast(),
        StandaloneAdapter::snes9x(),
        StandaloneAdapter::mgba(),
        StandaloneAdapter::mednafen(),
        StandaloneAdapter::mesen(),
        StandaloneAdapter::xemu(),
        StandaloneAdapter::cemu(),
        StandaloneAdapter::vita3k(),
        StandaloneAdapter::ryujinx(),
        StandaloneAdapter::lime3ds(),
        StandaloneAdapter::mame(),
    ] {
        assert!(sets_hidapi(&a, HidapiWorkaround::Force));
    }
    // Dolphin is the lone exception (native evdev backend) — never touched,
    // even when forced.
    let non_sdl = StandaloneAdapter::dolphin();
    assert!(!sets_hidapi(&non_sdl, HidapiWorkaround::Force));
    // The fix is two-part: disabling HIDAPI alone leaves this pad dead on
    // SDL's evdev backend, so the classic `/dev/input/jsN` backend must be
    // enabled too (regression guard for the GameController-API event drop).
    assert!(env_set_to(&sdl, HidapiWorkaround::Force, "SDL_JOYSTICK_LINUX_CLASSIC", "1"));
    assert!(!env_set_to(&sdl, HidapiWorkaround::Off, "SDL_JOYSTICK_LINUX_CLASSIC", "1"));
}

#[test]
fn hidapi_workaround_yields_to_caller_env() {
    let sdl = StandaloneAdapter::mupen64plus();
    let mut ctx = ctx_with_state("/save/x.st3");
    ctx.sdl_hidapi_workaround = HidapiWorkaround::Force;
    ctx.env.push(("SDL_JOYSTICK_HIDAPI".into(), "1".into()));
    let env = sdl.sdl_hidapi_env(&ctx, false);
    // The adapter must not stomp the caller's explicit value.
    assert!(!env.iter().any(|(k, _)| k == "SDL_JOYSTICK_HIDAPI"));
}

#[test]
fn mupen_load_state_forces_interpreter_before_rom() {
    let a = StandaloneAdapter::mupen64plus();
    let mut args = a.launch_args("/roms/mk64.z64");
    a.apply_load_state(&ctx_with_state("/save/mk64.st3"), &mut args);
    // `--emumode 0` (interpreter workaround) + `--savestate <path>` ahead of
    // the ROM, which stays last.
    assert_eq!(
        args,
        vec!["--emumode", "0", "--savestate", "/save/mk64.st3", "/roms/mk64.z64"]
    );
}

#[test]
fn pcsx2_load_state_inserts_statefile_before_rom() {
    let a = StandaloneAdapter::pcsx2();
    let mut args = a.launch_args("/roms/game.iso");
    a.apply_load_state(&ctx_with_state("/sstates/state.p2s"), &mut args);
    assert_eq!(
        args,
        vec!["-batch", "-statefile", "/sstates/state.p2s", "/roms/game.iso"]
    );
}

#[test]
fn duckstation_load_state_inserts_statefile_before_rom() {
    let a = StandaloneAdapter::duckstation();
    let mut args = a.launch_args("/roms/game.chd");
    a.apply_load_state(&ctx_with_state("/savestates/s.sav"), &mut args);
    assert_eq!(
        args,
        vec!["-batch", "-statefile", "/savestates/s.sav", "/roms/game.chd"]
    );
}

#[test]
fn dolphin_load_state_appends_after_rom() {
    // Dolphin's `-e <rom>` consumes the next token, so `-s <path>` must come
    // *after* the ROM, not before it.
    let a = StandaloneAdapter::dolphin();
    let mut args = a.launch_args("/roms/game.rvz");
    a.apply_load_state(&ctx_with_state("/StateSaves/GALE01.s03"), &mut args);
    assert_eq!(
        args,
        vec!["-b", "-e", "/roms/game.rvz", "-s", "/StateSaves/GALE01.s03"]
    );
}

#[test]
fn mgba_load_state_inserts_savestate_before_rom() {
    let a = StandaloneAdapter::mgba();
    let mut args = a.launch_args("/roms/Metroid Fusion.gba");
    a.apply_load_state(&ctx_with_state("/roms/Metroid Fusion.ss3"), &mut args);
    assert_eq!(
        args,
        vec!["-t", "/roms/Metroid Fusion.ss3", "/roms/Metroid Fusion.gba"]
    );
}

#[test]
fn snes9x_load_state_is_a_noop_and_unsupported() {
    // No CLI savestate-load exists for Snes9x; the args are untouched and the
    // adapter must report it can't launch into a state (so the UI gates it).
    let a = StandaloneAdapter::snes9x();
    let mut args = a.launch_args("/roms/smw.sfc");
    let before = args.clone();
    a.apply_load_state(&ctx_with_state("/roms/smw.000"), &mut args);
    assert_eq!(args, before);
    assert!(!a.supports_launch_state());
}

#[test]
fn launch_state_capability_matches_apply_arms() {
    // Single source of truth: every id reported as supporting launch-into-state
    // must actually produce extra args, and nothing else may claim support.
    for id in launch_state_emulators().iter() {
        let a = match *id {
            "mupen64plus" => StandaloneAdapter::mupen64plus(),
            "pcsx2" => StandaloneAdapter::pcsx2(),
            "duckstation" => StandaloneAdapter::duckstation(),
            "dolphin" => StandaloneAdapter::dolphin(),
            "mgba" => StandaloneAdapter::mgba(),
            other => panic!("LAUNCH_STATE_IDS has no test constructor for {other}"),
        };
        assert!(a.supports_launch_state(), "{id} should support launch state");
        let mut args = a.launch_args("/roms/game.rom");
        let before_len = args.len();
        a.apply_load_state(&ctx_with_state("/s/state"), &mut args);
        assert!(args.len() > before_len, "{id} produced no load-state args");
    }
}

#[test]
fn booting_into_a_state_keeps_the_rom_arguments_in_order() {
    for a in [
        StandaloneAdapter::mupen64plus(),
        StandaloneAdapter::pcsx2(),
        StandaloneAdapter::duckstation(),
        StandaloneAdapter::dolphin(),
        StandaloneAdapter::mgba(),
    ] {
        let before = a.launch_args("/roms/game.bin");
        let mut args = before.clone();
        a.apply_load_state(&ctx_with_state("/states/s1"), &mut args);
        assert!(args.len() > before.len());
        assert!(args.iter().any(|x| x == "/states/s1"));
        let mut it = args.iter();
        assert!(before.iter().all(|b| it.any(|x| x == b)));
    }
}

#[test]
fn pcsx2_learned_serial_finds_the_same_slot() {
    for (name, slot) in [
        ("SLUS-20946 (2999BCF9).resume.p2s", -1),
        ("SLUS-20946 (2999BCF9).07.p2s", 7),
        ("SCES-50361 (ABCDEF01).00.p2s", 0),
    ] {
        let serial = learn_pcsx2_serial(name).unwrap();
        assert_eq!(parse_pcsx2(name, &serial), Some(slot));
    }
}
