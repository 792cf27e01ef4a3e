use dreamvault::adapters::detect::{
    detected_installs, launch_command, parse_flatpak_version, parse_pacman_version, trimmed_reply,
};
use dreamvault::adapters::retroarch::{core_search_paths, flatpak_core_locations, native_core_dirs};
use dreamvault::adapters::standalone::{is_bound_device, xdg_base, StandaloneAdapter};
use dreamvault::adapters::{AdapterRegistry, LaunchContext};
use dreamvault::config::HidapiWorkaround;
use dreamvault::error::AdapterError;
use dreamvault::models::{Emulator, InstallSource};
use dreamvault::registry::{pick_emulator, platform_emulator_options, update_hint};

fn ctx(exe: &str, app: Option<&str>) -> LaunchContext {
    LaunchContext {
        executable_path: exe.to_string(),
        install_source: InstallSource::Pacman,
        flatpak_app_id: app.map(String::from),
        rom_path: "/r/g.sfc".to_string(),
        platform: "snes".to_string(),
        extra_args: vec!["--fullscreen".to_string()],
        env: vec![("SDL_JOYSTICK_HIDAPI".to_string(), "0".to_string())],
        core_override: None,
        load_state: None,
        sdl_hidapi_workaround: HidapiWorkaround::Auto,
    }
}

fn strs(v: &[&str]) -> Vec<String> {
    v.iter().map(|s| s.to_string()).collect()
}

#[test]
fn native_launch_runs_the_executable_with_env_on_the_child() {
    let c = launch_command(&ctx("/usr/bin/snes9x", None), &strs(&["/r/g.sfc"]), false, true).unwrap();
    assert_eq!(c.program, "/usr/bin/snes9x");
    assert_eq!(c.args, strs(&["--fullscreen", "/r/g.sfc"]));
    assert_eq!(c.env, vec![("SDL_JOYSTICK_HIDAPI".to_string(), "0".to_string())]);
}

#[test]
fn missing_native_executable_is_refused() {
    let r = launch_command(&ctx("/nope/snes9x", None), &strs(&["/r/g.sfc"]), false, false);
    match r {
        Err(AdapterError::ExecutableMissing(p)) => assert_eq!(p, "/nope/snes9x"),
        other => panic!("unexpected {other:?}"),
    }
}

#[test]
fn flatpak_launch_uses_flatpak_run() {
    let c = launch_command(&ctx("flatpak run com.snes9x.Snes9x", Some("com.snes9x.Snes9x")), &strs(&["-cart", "/r/g.sfc"]), false, false)
        .unwrap();
    assert_eq!(c.program, "flatpak");
    assert_eq!(c.args, strs(&["run", "com.snes9x.Snes9x", "--fullscreen", "-cart", "/r/g.sfc"]));
    assert_eq!(c.env.len(), 1);
}

#[test]
fn sandboxed_launch_tunnels_to_the_host_with_env_flags_and_no_separator() {
    let c = launch_command(&ctx("/usr/bin/snes9x", None), &strs(&["/r/g.sfc"]), true, false).unwrap();
    assert_eq!(c.program, "flatpak-spawn");
    assert_eq!(c.args, strs(&["--host", "--env=SDL_JOYSTICK_HIDAPI=0", "/usr/bin/snes9x", "--fullscreen", "/r/g.sfc"]));
    assert!(c.env.is_empty());
    let c = launch_command(&ctx("x", Some("org.app")), &strs(&["g"]), true, true).unwrap();
    assert_eq!(c.args, strs(&["--host", "--env=SDL_JOYSTICK_HIDAPI=0", "flatpak", "run", "org.app", "--fullscreen", "g"]));
    assert!(!c.args.iter().any(|a| a == "--"));
}

#[test]
fn package_manager_replies_are_parsed() {
    assert_eq!(parse_pacman_version("snes9x-gtk 1.62.3-2\n").as_deref(), Some("1.62.3-2"));
    assert_eq!(parse_pacman_version("snes9x-gtk\n"), None);
    assert_eq!(
        parse_flatpak_version("\nSnes9x\n          ID: com.snes9x.Snes9x\n     Version: 1.63\n").as_deref(),
        Some("1.63")
    );
    assert_eq!(parse_flatpak_version("ID: x\nVersion:   \n"), None);
    assert_eq!(parse_flatpak_version("ID: x\n"), None);
    assert_eq!(trimmed_reply("  snes9x-gtk\n").as_deref(), Some("snes9x-gtk"));
    assert_eq!(trimmed_reply(" \n"), None);
}

#[test]
fn detection_reports_native_then_flatpak() {
    let found = detected_installs(
        "snes9x",
        "Snes9x",
        Some("/usr/bin/snes9x-gtk".to_string()),
        Some(Some("1.62.3-2".to_string())),
        Some(("com.snes9x.Snes9x".to_string(), Some("1.63".to_string()))),
    );
    assert_eq!(found.len(), 2);
    assert_eq!(found[0].install_source, InstallSource::Pacman);
    assert_eq!(found[0].version.as_deref(), Some("1.62.3-2"));
    assert_eq!(found[0].executable_path, "/usr/bin/snes9x-gtk");
    assert!(found[0].flatpak_app_id.is_none());
    assert_eq!(found[1].name, "Snes9x (Flatpak)");
    assert_eq!(found[1].install_source, InstallSource::Flatpak);
    assert_eq!(found[1].executable_path, "flatpak run com.snes9x.Snes9x");
    assert_eq!(found[1].flatpak_app_id.as_deref(), Some("com.snes9x.Snes9x"));
    let manual = detected_installs("snes9x", "Snes9x", Some("/opt/snes9x".to_string()), None, None);
    assert_eq!(manual.len(), 1);
    assert_eq!(manual[0].install_source, InstallSource::Manual);
    assert!(manual[0].version.is_none());
    assert!(detected_installs("snes9x", "Snes9x", None, None, None).is_empty());
}

#[test]
fn native_core_dirs_in_search_order() {
    let d = native_core_dirs(Some("/lr"), Some("/home/u"));
    assert_eq!(
        d,
        strs(&[
            "/lr",
            "/home/u/.config/retroarch/cores",
            "/home/u/.local/share/libretro/cores",
            "/usr/lib/libretro",
            "/usr/lib64/libretro",
            "/usr/local/lib/libretro",
        ])
    );
    assert_eq!(native_core_dirs(None, None).len(), 3);
    let paths = core_search_paths(&strs(&["snes9x", "bsnes"]), &strs(&["/a", "/b/"]));
    assert_eq!(paths, strs(&["/a/snes9x_libretro.so", "/b/snes9x_libretro.so", "/a/bsnes_libretro.so", "/b/bsnes_libretro.so"]));
}

#[test]
fn flatpak_cores_are_probed_on_the_host_and_passed_as_sandbox_paths() {
    let l = flatpak_core_locations("/home/u", "org.libretro.RetroArch", &strs(&["snes9x"]));
    assert_eq!(l.len(), 1);
    assert_eq!(l[0].0, "/home/u/.var/app/org.libretro.RetroArch/config/retroarch/cores/snes9x_libretro.so");
    assert_eq!(l[0].1, "/home/u/.config/retroarch/cores/snes9x_libretro.so");
}

#[test]
fn xdg_bases_redirect_into_the_flatpak() {
    assert_eq!(xdg_base("/home/u", None, true), "/home/u/.config");
    assert_eq!(xdg_base("/home/u", None, false), "/home/u/.local/share");
    assert_eq!(xdg_base("/home/u", Some("net.pcsx2.PCSX2"), true), "/home/u/.var/app/net.pcsx2.PCSX2/config");
    assert_eq!(xdg_base("/home/u", Some("org.DolphinEmu.dolphin-emu"), false), "/home/u/.var/app/org.DolphinEmu.dolphin-emu/data");
}

#[test]
fn savestate_dirs_and_keys_follow_each_scheme() {
    let snes = StandaloneAdapter::snes9x().spec.save_states.unwrap();
    assert_eq!(snes.dir(Some("/home/u"), None, "/r/snes/Game.sfc").as_deref(), Some("/r/snes"));
    assert_eq!(snes.key_for("/r/snes/Game.sfc", None).as_deref(), Some("Game"));
    let pcsx2 = StandaloneAdapter::pcsx2().spec.save_states.unwrap();
    assert_eq!(pcsx2.dir(Some("/home/u"), None, "/r/g.iso").as_deref(), Some("/home/u/.config/PCSX2/sstates"));
    assert_eq!(
        pcsx2.dir(Some("/home/u"), Some("net.pcsx2.PCSX2"), "/r/g.iso").as_deref(),
        Some("/home/u/.var/app/net.pcsx2.PCSX2/config/PCSX2/sstates")
    );
    assert!(pcsx2.dir(None, None, "/r/g.iso").is_none());
    assert_eq!(pcsx2.key_for("/r/g.iso", Some("SLUS-20415")).as_deref(), Some("SLUS-20415"));
    assert!(pcsx2.key_for("/r/g.iso", None).is_none());
    let dolphin = StandaloneAdapter::dolphin().spec.save_states.unwrap();
    assert_eq!(dolphin.dir(Some("/home/u"), None, "/r/g.iso").as_deref(), Some("/home/u/.local/share/dolphin-emu/StateSaves"));
}

#[test]
fn hotkey_configs_live_under_the_config_root() {
    let hk = StandaloneAdapter::pcsx2().spec.hotkeys.unwrap();
    assert_eq!(hk.path(Some("/home/u"), None).as_deref(), Some("/home/u/.config/PCSX2/inis/PCSX2.ini"));
    assert!(hk.path(None, None).is_none());
}

#[test]
fn xpadneo_bound_devices_hold_a_colon() {
    assert!(is_bound_device("0005:045E:0B13.0004"));
    assert!(!is_bound_device("bind"));
    assert!(!is_bound_device("module"));
}

fn emu(id: &str, adapter: &str, source: &str) -> Emulator {
    Emulator {
        id: id.to_string(),
        name: id.to_string(),
        version: None,
        install_source: source.to_string(),
        owner: "external".to_string(),
        executable_path: format!("/usr/bin/{adapter}"),
        adapter_id: adapter.to_string(),
        supports_savestates: true,
        supports_saves: true,
        supports_achievements: false,
        supports_screenshots: true,
        detected_at: "2024-01-01T00:00:00Z".to_string(),
    }
}

#[test]
fn default_emulator_wins_while_installed_then_hint_then_any() {
    let reg = AdapterRegistry::builtin();
    let installed = vec![emu("e1", "retroarch", "Pacman"), emu("e2", "snes9x", "Pacman"), emu("e3", "mesen", "Flatpak")];
    assert_eq!(pick_emulator(&installed, "snes", Some("e1"), &reg), Some(0));
    // a stale default defers to the platform's preferred adapter
    let hinted = pick_emulator(&installed, "snes", Some("gone"), &reg);
    assert_eq!(hinted, pick_emulator(&installed, "snes", None, &reg));
    assert!(hinted.is_some());
    assert_eq!(pick_emulator(&installed, "nes", None, &reg), Some(2));
    assert_eq!(pick_emulator(&Vec::new(), "snes", None, &reg), None);
    assert_eq!(pick_emulator(&vec![emu("e2", "snes9x", "Pacman")], "n64", None, &reg), None);
}

#[test]
fn settings_panel_lists_platforms_with_an_able_emulator() {
    let reg = AdapterRegistry::builtin();
    let installed = vec![emu("e2", "snes9x", "Pacman")];
    let rows = platform_emulator_options(&installed, &reg, &vec![("snes".to_string(), "e2".to_string())]);
    assert_eq!(rows.len(), 1);
    assert_eq!(rows[0].platform, "snes");
    assert_eq!(rows[0].default_emulator_id.as_deref(), Some("e2"));
    assert_eq!(rows[0].emulators.len(), 1);
    assert!(platform_emulator_options(&Vec::new(), &reg, &Vec::new()).is_empty());
}

#[test]
fn update_hints_follow_install_ownership() {
    assert_eq!(update_hint(&emu("a", "x", "Pacman")).as_deref(), Some("sudo pacman -Syu"));
    assert_eq!(update_hint(&emu("a", "x", "Yay")).as_deref(), Some("yay -Syu"));
    assert_eq!(update_hint(&emu("a", "x", "Flatpak")).as_deref(), Some("flatpak update"));
    assert_eq!(update_hint(&emu("a", "x", "AppImage")), None);
    assert_eq!(update_hint(&emu("a", "x", "ArcadiaManaged")), None);
}
