//! Standalone emulators. Each adapter is a static description (binaries,
//! Flatpak id, capabilities, how a ROM path becomes arguments, where and how
//! savestates are named, where hotkeys are configured) plus the launch-time
//! decisions derived from it: the argument list, the boot-into-savestate flags
//! and the SDL-HIDAPI environment workaround.
use vstd::prelude::*;
use super::{
    owned, str_views, string_views, to_strings, AdapterDescriptor, Capabilities, LaunchContext,
};
use crate::config::HidapiWorkaround;
use crate::hotkeys::{
    default_views, dolphin_defaults, dolphin_defaults_spec, duckstation_defaults,
    duckstation_defaults_spec, hotkey_view, ini_pairs_scan, ini_section_pairs, lower_str,
    lower_vec, mednafen_defaults, mednafen_defaults_spec, mgba_defaults, mgba_defaults_spec,
    mupen_defaults, mupen_defaults_spec, normalize_key_chars, normalize_key_spec, overlay_defaults,
    overlay_row, pair_views, pcsx2_defaults, pcsx2_defaults_spec, sdl_keysym_name,
    sdl_keysym_spec, sdl_scancode_name, sdl_scancode_spec, EmulatorHotkey, HotkeyAction,
    HotkeyMap,
};
use crate::text::{
    find_char, find_char_vec, find_from, lemma_find_char, lemma_find_char_at, lines, lines_vec,
    parse_u32, parse_u32_vec, push_all, trim, trim_vec, views, words, words_vec,
};
use crate::text::{
    after_last, after_last_vec, all_digits, all_digits_vec, chars_of, eq_str, is_digit,
    find_sub_from, occurs_at, parse_i64, parse_i64_vec, push_str, rfind_char, rfind_char_vec, rfind_sub, rfind_sub_upto,
    rfind_sub_vec, rsplit_once, lemma_rfind_sub_upto_at, slice_of, split_once_str, split_once_str_vec, starts_with,
    string_of, strip_prefix, strip_prefix_str, strip_suffix, strip_suffix_str,
};

verus! {

/// How a ROM path becomes the emulator's arguments.
#[derive(Debug, Clone, Copy, PartialEq, Eq)]
pub enum LaunchArgs {
    /// The bare ROM path.
    Rom,
    /// One flag, then the ROM path.
    Flags1(&'static str),
    /// Two flags, then the ROM path.
    Flags2(&'static str, &'static str),
    /// `-rompath <dir> <set>`: a MAME set name resolved against its folder.
    Romset,
}

/// Where an emulator keeps its savestate files.
#[derive(Debug, Clone, Copy, PartialEq, Eq)]
pub enum StateLocation {
    /// Under the XDG config root (or the Flatpak's `config`).
    Config(&'static str),
    /// Under the XDG data root (or the Flatpak's `data`).
    Data(&'static str),
    /// `<data>/<sub>/<rom stem>/`.
    DataPerGame(&'static str),
    /// Beside the ROM.
    RomDir,
    /// Directly under `$HOME` (not Flatpak-redirected).
    Home(&'static str),
}

/// What an emulator keys its savestate filenames by.
#[derive(Debug, Clone, Copy, PartialEq, Eq, Structural)]
pub enum KeyKind {
    /// The ROM's basename without extension.
    Stem,
    /// The resolved (or learned) disc serial / game id.
    DiscKey,
}

/// The savestate filename grammar of one emulator.
#[derive(Debug, Clone, Copy, PartialEq, Eq, Structural)]
pub enum SlotParser {
    Pcsx2,
    DuckStation,
    Snes9x,
    Mgba,
    Flycast,
    MelonDs,
    BlastEm,
    Mednafen,
    Mesen,
    Dolphin,
    Mupen,
}

/// How a key is read back from one of the emulator's own filenames.
#[derive(Debug, Clone, Copy, PartialEq, Eq, Structural)]
pub enum KeyLearner {
    Pcsx2Serial,
    DuckStationSerial,
    DolphinGameId,
    MupenBase,
}

/// How one emulator stores savestates.
#[derive(Debug, Clone, Copy, PartialEq, Eq)]
pub struct SaveStateScheme {
    pub location: StateLocation,
    pub key: KeyKind,
    pub parser: SlotParser,
    pub learner: Option<KeyLearner>,
}

/// Which root a hotkey config path is relative to.
#[derive(Debug, Clone, Copy, PartialEq, Eq, Structural)]
pub enum HotkeyBase {
    XdgConfig,
    Home,
}

/// The documented defaults table of an emulator.
#[derive(Debug, Clone, Copy, PartialEq, Eq, Structural)]
pub enum DefaultsTable {
    Empty,
    Mgba,
    Mupen,
    Dolphin,
    Pcsx2,
    DuckStation,
    Mednafen,
}

/// The grammar of an emulator's hotkey config.
#[derive(Debug, Clone, Copy, PartialEq, Eq, Structural)]
pub enum HotkeyParser {
    Snes9xShortcuts,
    NoOverrides,
    MupenCoreEvents,
    DolphinHotkeys,
    Pcsx2Hotkeys,
    DuckStationHotkeys,
    MednafenCommands,
}

/// How one emulator stores its keyboard hotkeys.
#[derive(Debug, Clone, Copy, PartialEq, Eq)]
pub struct HotkeyScheme {
    pub base: HotkeyBase,
    /// Config file path relative to `base`.
    pub rel_path: &'static str,
    pub defaults: DefaultsTable,
    pub parser: HotkeyParser,
}

/// Static description of one standalone emulator.
pub struct Spec {
    pub id: &'static str,
    pub display_name: &'static str,
    pub platforms: Vec<&'static str>,
    pub bin_names: Vec<&'static str>,
    pub flatpak_app_id: Option<&'static str>,
    pub capabilities: Capabilities,
    pub args: LaunchArgs,
    pub save_states: Option<SaveStateScheme>,
    pub hotkeys: Option<HotkeyScheme>,
}

pub open spec fn opt_str_view(o: Option<&'static str>) -> Option<Seq<char>> {
    match o {
        Some(s) => Some(s@),
        None => None,
    }
}

/// A standalone emulator adapter.
pub struct StandaloneAdapter {
    pub spec: Spec,
}

/// Emulators with a working boot-into-savestate CLI flag; exactly the ids
/// [`load_state_flags`] has flags for.
pub open spec fn launch_state_ids() -> Seq<Seq<char>> {
    seq!["mupen64plus"@, "pcsx2"@, "duckstation"@, "dolphin"@, "mgba"@]
}

/// The emulators with a boot-into-savestate flag, as a list.
pub fn launch_state_emulators() -> (r: Vec<&'static str>)
    ensures
        str_views(r@) == launch_state_ids(),
{
    let r = vec!["mupen64plus", "pcsx2", "duckstation", "dolphin", "mgba"];
    proof {
        assert(str_views(r@) =~= launch_state_ids());
    }
    r
}

/// The boot-into-savestate flags of an emulator and whether they go before the
/// ROM (`true`) or after it (`false`, Dolphin, whose `-e <rom>` takes the next
/// token).
pub open spec fn load_state_flags(id: Seq<char>, path: Seq<char>) -> Option<(bool, Seq<Seq<char>>)> {
    if id == "mupen64plus"@ {
        Some((true, seq!["--emumode"@, "0"@, "--savestate"@, path]))
    } else if id == "pcsx2"@ || id == "duckstation"@ {
        Some((true, seq!["-statefile"@, path]))
    } else if id == "dolphin"@ {
        Some((false, seq!["-s"@, path]))
    } else if id == "mgba"@ {
        Some((true, seq!["-t"@, path]))
    } else {
        None
    }
}

/// The argument list after splicing in the load-state flags.
pub open spec fn with_load_state(args: Seq<Seq<char>>, id: Seq<char>, path: Option<Seq<char>>) -> Seq<
    Seq<char>,
> {
    match path {
        None => args,
        Some(p) => match load_state_flags(id, p) {
            None => args,
            Some((true, extra)) => {
                let at = if args.len() > 0 {
                    args.len() - 1
                } else {
                    0
                };
                args.take(at) + extra + args.skip(at)
            },
            Some((false, extra)) => args + extra,
        },
    }
}

/// The ROM path as arguments for a launch shape; a romset passes its folder and
/// its file stem.
pub open spec fn launch_args_spec(a: LaunchArgs, rom: Seq<char>) -> Seq<Seq<char>> {
    match a {
        LaunchArgs::Rom => seq![rom],
        LaunchArgs::Flags1(f) => seq![f@, rom],
        LaunchArgs::Flags2(f, g) => seq![f@, g@, rom],
        LaunchArgs::Romset => seq![
            "-rompath"@,
            crate::pathname::std_parent_text(rom),
            match crate::pathname::file_stem(rom) {
                Some(s) => s,
                None => seq![],
            },
        ],
    }
}

/// Whether the SDL-HIDAPI workaround applies: every standalone reads pads
/// through SDL except Dolphin; a caller-set `SDL_JOYSTICK_HIDAPI` wins; `Auto`
/// fires only when an xpadneo-bound pad is present.
pub open spec fn hidapi_applies(
    id: Seq<char>,
    env: Seq<(Seq<char>, Seq<char>)>,
    policy: HidapiWorkaround,
    xpadneo_present: bool,
) -> bool {
    &&& id != "dolphin"@
    &&& !(exists|i: int| 0 <= i < env.len() && #[trigger] env[i].0 == "SDL_JOYSTICK_HIDAPI"@)
    &&& match policy {
        HidapiWorkaround::Off => false,
        HidapiWorkaround::Force => true,
        HidapiWorkaround::Auto => xpadneo_present,
    }
}

pub open spec fn env_views(v: Seq<(String, String)>) -> Seq<(Seq<char>, Seq<char>)> {
    v.map_values(|p: (String, String)| (p.0@, p.1@))
}

impl StandaloneAdapter {
    /// Snes9x.
    pub fn snes9x() -> (r: Self)
        ensures
            r.spec.id@ == "snes9x"@,
            r.spec.display_name@ == "Snes9x"@,
            str_views(r.spec.platforms@) == seq!["snes"@],
            str_views(r.spec.bin_names@) == seq!["snes9x-gtk"@, "snes9x"@],
            opt_str_view(r.spec.flatpak_app_id) == Some("com.snes9x.Snes9x"@),
            r.spec.capabilities == (Capabilities { savestates: true, saves: true, achievements: false, screenshots: true }),
            r.spec.args == LaunchArgs::Rom,
            r.spec.save_states == (Some(SaveStateScheme { location: StateLocation::RomDir, key: KeyKind::Stem, parser: SlotParser::Snes9x, learner: None })),
            r.spec.hotkeys == (Some(HotkeyScheme { base: HotkeyBase::XdgConfig, rel_path: "snes9x/snes9x.conf", defaults: DefaultsTable::Empty, parser: HotkeyParser::Snes9xShortcuts })),
    {
        let r = StandaloneAdapter {
            spec: Spec {
                id: "snes9x",
                display_name: "Snes9x",
                platforms: vec!["snes"],
                bin_names: vec!["snes9x-gtk", "snes9x"],
                flatpak_app_id: Some("com.snes9x.Snes9x"),
                capabilities: Capabilities { savestates: true, saves: true, achievements: false, screenshots: true },
                args: LaunchArgs::Rom,
                save_states: Some(SaveStateScheme { location: StateLocation::RomDir, key: KeyKind::Stem, parser: SlotParser::Snes9x, learner: None }),
                hotkeys: Some(HotkeyScheme { base: HotkeyBase::XdgConfig, rel_path: "snes9x/snes9x.conf", defaults: DefaultsTable::Empty, parser: HotkeyParser::Snes9xShortcuts }),
            },
        };
        proof {
            assert(str_views(r.spec.platforms@) =~= seq!["snes"@]);
            assert(str_views(r.spec.bin_names@) =~= seq!["snes9x-gtk"@, "snes9x"@]);
        }
        r
    }

    /// mGBA.
    pub fn mgba() -> (r: Self)
        ensures
            r.spec.id@ == "mgba"@,
            r.spec.display_name@ == "mGBA"@,
            str_views(r.spec.platforms@) == seq!["gb"@, "gbc"@, "gba"@],
            str_views(r.spec.bin_names@) == seq!["mgba-qt"@, "mgba"@, "mgba-sdl"@],
            opt_str_view(r.spec.flatpak_app_id) == Some("io.mgba.mGBA"@),
            r.spec.capabilities == (Capabilities { savestates: true, saves: true, achievements: false, screenshots: true }),
            r.spec.args == LaunchArgs::Rom,
            r.spec.save_states == (Some(SaveStateScheme { location: StateLocation::Data("mgba/savestates"), key: KeyKind::Stem, parser: SlotParser::Mgba, learner: None })),
            r.spec.hotkeys == (Some(HotkeyScheme { base: HotkeyBase::XdgConfig, rel_path: "mgba/config.ini", defaults: DefaultsTable::Mgba, parser: HotkeyParser::NoOverrides })),
    {
        let r = StandaloneAdapter {
            spec: Spec {
                id: "mgba",
                display_name: "mGBA",
                platforms: vec!["gb", "gbc", "gba"],
                bin_names: vec!["mgba-qt", "mgba", "mgba-sdl"],
                flatpak_app_id: Some("io.mgba.mGBA"),
                capabilities: Capabilities { savestates: true, saves: true, achievements: false, screenshots: true },
                args: LaunchArgs::Rom,
                save_states: Some(SaveStateScheme { location: StateLocation::Data("mgba/savestates"), key: KeyKind::Stem, parser: SlotParser::Mgba, learner: None }),
                hotkeys: Some(HotkeyScheme { base: HotkeyBase::XdgConfig, rel_path: "mgba/config.ini", defaults: DefaultsTable::Mgba, parser: HotkeyParser::NoOverrides }),
            },
        };
        proof {
            assert(str_views(r.spec.platforms@) =~= seq!["gb"@, "gbc"@, "gba"@]);
            assert(str_views(r.spec.bin_names@) =~= seq!["mgba-qt"@, "mgba"@, "mgba-sdl"@]);
        }
        r
    }

    /// Mupen64Plus.
    pub fn mupen64plus() -> (r: Self)
        ensures
            r.spec.id@ == "mupen64plus"@,
            r.spec.display_name@ == "Mupen64Plus"@,
            str_views(r.spec.platforms@) == seq!["n64"@],
            str_views(r.spec.bin_names@) == seq!["mupen64plus"@],
            r.spec.flatpak_app_id is None,
            r.spec.capabilities == (Capabilities { savestates: true, saves: true, achievements: false, screenshots: true }),
            r.spec.args == LaunchArgs::Rom,
            r.spec.save_states == (Some(SaveStateScheme { location: StateLocation::Data("mupen64plus/save"), key: KeyKind::DiscKey, parser: SlotParser::Mupen, learner: Some(KeyLearner::MupenBase) })),
            r.spec.hotkeys == (Some(HotkeyScheme { base: HotkeyBase::XdgConfig, rel_path: "mupen64plus/mupen64plus.cfg", defaults: DefaultsTable::Mupen, parser: HotkeyParser::MupenCoreEvents })),
    {
        let r = StandaloneAdapter {
            spec: Spec {
                id: "mupen64plus",
                display_name: "Mupen64Plus",
                platforms: vec!["n64"],
                bin_names: vec!["mupen64plus"],
                flatpak_app_id: None,
                capabilities: Capabilities { savestates: true, saves: true, achievements: false, screenshots: true },
                args: LaunchArgs::Rom,
                save_states: Some(SaveStateScheme { location: StateLocation::Data("mupen64plus/save"), key: KeyKind::DiscKey, parser: SlotParser::Mupen, learner: Some(KeyLearner::MupenBase) }),
                hotkeys: Some(HotkeyScheme { base: HotkeyBase::XdgConfig, rel_path: "mupen64plus/mupen64plus.cfg", defaults: DefaultsTable::Mupen, parser: HotkeyParser::MupenCoreEvents }),
            },
        };
        proof {
            assert(str_views(r.spec.platforms@) =~= seq!["n64"@]);
            assert(str_views(r.spec.bin_names@) =~= seq!["mupen64plus"@]);
        }
        r
    }

    /// Dolphin.
    pub fn dolphin() -> (r: Self)
        ensures
            r.spec.id@ == "dolphin"@,
            r.spec.display_name@ == "Dolphin"@,
            str_views(r.spec.platforms@) == seq!["gamecube"@, "wii"@],
            str_views(r.spec.bin_names@) == seq!["dolphin-emu"@],
            opt_str_view(r.spec.flatpak_app_id) == Some("org.DolphinEmu.dolphin-emu"@),
            r.spec.capabilities == (Capabilities { savestates: true, saves: true, achievements: true, screenshots: true }),
            r.spec.args == LaunchArgs::Flags2("-b", "-e"),
            r.spec.save_states == (Some(SaveStateScheme { location: StateLocation::Data("dolphin-emu/StateSaves"), key: KeyKind::DiscKey, parser: SlotParser::Dolphin, learner: Some(KeyLearner::DolphinGameId) })),
            r.spec.hotkeys == (Some(HotkeyScheme { base: HotkeyBase::XdgConfig, rel_path: "dolphin-emu/Hotkeys.ini", defaults: DefaultsTable::Dolphin, parser: HotkeyParser::DolphinHotkeys })),
    {
        let r = StandaloneAdapter {
            spec: Spec {
                id: "dolphin",
                display_name: "Dolphin",
                platforms: vec!["gamecube", "wii"],
                bin_names: vec!["dolphin-emu"],
                flatpak_app_id: Some("org.DolphinEmu.dolphin-emu"),
                capabilities: Capabilities { savestates: true, saves: true, achievements: true, screenshots: true },
                args: LaunchArgs::Flags2("-b", "-e"),
                save_states: Some(SaveStateScheme { location: StateLocation::Data("dolphin-emu/StateSaves"), key: KeyKind::DiscKey, parser: SlotParser::Dolphin, learner: Some(KeyLearner::DolphinGameId) }),
                hotkeys: Some(HotkeyScheme { base: HotkeyBase::XdgConfig, rel_path: "dolphin-emu/Hotkeys.ini", defaults: DefaultsTable::Dolphin, parser: HotkeyParser::DolphinHotkeys }),
            },
        };
        proof {
            assert(str_views(r.spec.platforms@) =~= seq!["gamecube"@, "wii"@]);
            assert(str_views(r.spec.bin_names@) =~= seq!["dolphin-emu"@]);
        }
        r
    }

    /// PCSX2.
    pub fn pcsx2() -> (r: Self)
        ensures
            r.spec.id@ == "pcsx2"@,
            r.spec.display_name@ == "PCSX2"@,
            str_views(r.spec.platforms@) == seq!["ps2"@],
            str_views(r.spec.bin_names@) == seq!["pcsx2-qt"@, "pcsx2"@],
            opt_str_view(r.spec.flatpak_app_id) == Some("net.pcsx2.PCSX2"@),
            r.spec.capabilities == (Capabilities { savestates: true, saves: true, achievements: true, screenshots: true }),
            r.spec.args == LaunchArgs::Flags1("-batch"),
            r.spec.save_states == (Some(SaveStateScheme { location: StateLocation::Config("PCSX2/sstates"), key: KeyKind::DiscKey, parser: SlotParser::Pcsx2, learner: Some(KeyLearner::Pcsx2Serial) })),
            r.spec.hotkeys == (Some(HotkeyScheme { base: HotkeyBase::XdgConfig, rel_path: "PCSX2/inis/PCSX2.ini", defaults: DefaultsTable::Pcsx2, parser: HotkeyParser::Pcsx2Hotkeys })),
    {
        let r = StandaloneAdapter {
            spec: Spec {
                id: "pcsx2",
                display_name: "PCSX2",
                platforms: vec!["ps2"],
                bin_names: vec!["pcsx2-qt", "pcsx2"],
                flatpak_app_id: Some("net.pcsx2.PCSX2"),
                capabilities: Capabilities { savestates: true, saves: true, achievements: true, screenshots: true },
                args: LaunchArgs::Flags1("-batch"),
                save_states: Some(SaveStateScheme { location: StateLocation::Config("PCSX2/sstates"), key: KeyKind::DiscKey, parser: SlotParser::Pcsx2, learner: Some(KeyLearner::Pcsx2Serial) }),
                hotkeys: Some(HotkeyScheme { base: HotkeyBase::XdgConfig, rel_path: "PCSX2/inis/PCSX2.ini", defaults: DefaultsTable::Pcsx2, parser: HotkeyParser::Pcsx2Hotkeys }),
            },
        };
        proof {
            assert(str_views(r.spec.platforms@) =~= seq!["ps2"@]);
            assert(str_views(r.spec.bin_names@) =~= seq!["pcsx2-qt"@, "pcsx2"@]);
        }
        r
    }

    /// PPSSPP.
    pub fn ppsspp() -> (r: Self)
        ensures
            r.spec.id@ == "ppsspp"@,
            r.spec.display_name@ == "PPSSPP"@,
            str_views(r.spec.platforms@) == seq!["psp"@],
            str_views(r.spec.bin_names@) == seq!["PPSSPPSDL"@, "PPSSPPQt"@, "ppsspp"@],
            opt_str_view(r.spec.flatpak_app_id) == Some("org.ppsspp.PPSSPP"@),
            r.spec.capabilities == (Capabilities { savestates: true, saves: true, achievements: true, screenshots: true }),
            r.spec.args == LaunchArgs::Rom,
            r.spec.save_states is None,
            r.spec.hotkeys is None,
    {
        let r = StandaloneAdapter {
            spec: Spec {
                id: "ppsspp",
                display_name: "PPSSPP",
                platforms: vec!["psp"],
                bin_names: vec!["PPSSPPSDL", "PPSSPPQt", "ppsspp"],
                flatpak_app_id: Some("org.ppsspp.PPSSPP"),
                capabilities: Capabilities { savestates: true, saves: true, achievements: true, screenshots: true },
                args: LaunchArgs::Rom,
                save_states: None,
                hotkeys: None,
            },
        };
        proof {
            assert(str_views(r.spec.platforms@) =~= seq!["psp"@]);
            assert(str_views(r.spec.bin_names@) =~= seq!["PPSSPPSDL"@, "PPSSPPQt"@, "ppsspp"@]);
        }
        r
    }

    /// RPCS3.
    pub fn rpcs3() -> (r: Self)
        ensures
            r.spec.id@ == "rpcs3"@,
            r.spec.display_name@ == "RPCS3"@,
            str_views(r.spec.platforms@) == seq!["ps3"@],
            str_views(r.spec.bin_names@) == seq!["rpcs3"@],
            opt_str_view(r.spec.flatpak_app_id) == Some("net.rpcs3.RPCS3"@),
            r.spec.capabilities == (Capabilities { savestates: false, saves: true, achievements: false, screenshots: true }),
            r.spec.args == LaunchArgs::Flags1("--no-gui"),
            r.spec.save_states is None,
            r.spec.hotkeys is None,
    {
        let r = StandaloneAdapter {
            spec: Spec {
                id: "rpcs3",
                display_name: "RPCS3",
                platforms: vec!["ps3"],
                bin_names: vec!["rpcs3"],
                flatpak_app_id: Some("net.rpcs3.RPCS3"),
                capabilities: Capabilities { savestates: false, saves: true, achievements: false, screenshots: true },
                args: LaunchArgs::Flags1("--no-gui"),
                save_states: None,
                hotkeys: None,
            },
        };
        proof {
            assert(str_views(r.spec.platforms@) =~= seq!["ps3"@]);
            assert(str_views(r.spec.bin_names@) =~= seq!["rpcs3"@]);
        }
        r
    }

    /// DuckStation.
    pub fn duckstation() -> (r: Self)
        ensures
            r.spec.id@ == "duckstation"@,
            r.spec.display_name@ == "DuckStation"@,
            str_views(r.spec.platforms@) == seq!["ps1"@],
            str_views(r.spec.bin_names@) == seq!["duckstation-qt"@, "duckstation-nogui"@, "duckstation"@],
            opt_str_view(r.spec.flatpak_app_id) == Some("org.duckstation.DuckStation"@),
            r.spec.capabilities == (Capabilities { savestates: true, saves: true, achievements: true, screenshots: true }),
            r.spec.args == LaunchArgs::Flags1("-batch"),
            r.spec.save_states == (Some(SaveStateScheme { location: StateLocation::Config("duckstation/savestates"), key: KeyKind::DiscKey, parser: SlotParser::DuckStation, learner: Some(KeyLearner::DuckStationSerial) })),
            r.spec.hotkeys == (Some(HotkeyScheme { base: HotkeyBase::XdgConfig, rel_path: "duckstation/settings.ini", defaults: DefaultsTable::DuckStation, parser: HotkeyParser::DuckStationHotkeys })),
    {
        let r = StandaloneAdapter {
            spec: Spec {
                id: "duckstation",
                display_name: "DuckStation",
                platforms: vec!["ps1"],
                bin_names: vec!["duckstation-qt", "duckstation-nogui", "duckstation"],
                flatpak_app_id: Some("org.duckstation.DuckStation"),
                capabilities: Capabilities { savestates: true, saves: true, achievements: true, screenshots: true },
                args: LaunchArgs::Flags1("-batch"),
                save_states: Some(SaveStateScheme { location: StateLocation::Config("duckstation/savestates"), key: KeyKind::DiscKey, parser: SlotParser::DuckStation, learner: Some(KeyLearner::DuckStationSerial) }),
                hotkeys: Some(HotkeyScheme { base: HotkeyBase::XdgConfig, rel_path: "duckstation/settings.ini", defaults: DefaultsTable::DuckStation, parser: HotkeyParser::DuckStationHotkeys }),
            },
        };
        proof {
            assert(str_views(r.spec.platforms@) =~= seq!["ps1"@]);
            assert(str_views(r.spec.bin_names@) =~= seq!["duckstation-qt"@, "duckstation-nogui"@, "duckstation"@]);
        }
        r
    }

    /// melonDS.
    pub fn melonds() -> (r: Self)
        ensures
            r.spec.id@ == "melonds"@,
            r.spec.display_name@ == "melonDS"@,
            str_views(r.spec.platforms@) == seq!["nds"@],
            str_views(r.spec.bin_names@) == seq!["melonDS"@, "melonds"@],
            opt_str_view(r.spec.flatpak_app_id) == Some("net.kuribo64.melonDS"@),
            r.spec.capabilities == (Capabilities { savestates: true, saves: true, achievements: false, screenshots: true }),
            r.spec.args == LaunchArgs::Rom,
            r.spec.save_states == (Some(SaveStateScheme { location: StateLocation::RomDir, key: KeyKind::Stem, parser: SlotParser::MelonDs, learner: None })),
            r.spec.hotkeys is None,
    {
        let r = StandaloneAdapter {
            spec: Spec {
                id: "melonds",
                display_name: "melonDS",
                platforms: vec!["nds"],
                bin_names: vec!["melonDS", "melonds"],
                flatpak_app_id: Some("net.kuribo64.melonDS"),
                capabilities: Capabilities { savestates: true, saves: true, achievements: false, screenshots: true },
                args: LaunchArgs::Rom,
                save_states: Some(SaveStateScheme { location: StateLocation::RomDir, key: KeyKind::Stem, parser: SlotParser::MelonDs, learner: None }),
                hotkeys: None,
            },
        };
        proof {
            assert(str_views(r.spec.platforms@) =~= seq!["nds"@]);
            assert(str_views(r.spec.bin_names@) =~= seq!["melonDS"@, "melonds"@]);
        }
        r
    }

    /// Flycast.
    pub fn flycast() -> (r: Self)
        ensures
            r.spec.id@ == "flycast"@,
            r.spec.display_name@ == "Flycast"@,
            str_views(r.spec.platforms@) == seq!["dreamcast"@],
            str_views(r.spec.bin_names@) == seq!["flycast"@],
            opt_str_view(r.spec.flatpak_app_id) == Some("org.flycast.Flycast"@),
            r.spec.capabilities == (Capabilities { savestates: true, saves: true, achievements: true, screenshots: true }),
            r.spec.args == LaunchArgs::Rom,
            r.spec.save_states == (Some(SaveStateScheme { location: StateLocation::Data("flycast"), key: KeyKind::Stem, parser: SlotParser::Flycast, learner: None })),
            r.spec.hotkeys is None,
    {
        let r = StandaloneAdapter {
            spec: Spec {
                id: "flycast",
                display_name: "Flycast",
                platforms: vec!["dreamcast"],
                bin_names: vec!["flycast"],
                flatpak_app_id: Some("org.flycast.Flycast"),
                capabilities: Capabilities { savestates: true, saves: true, achievements: true, screenshots: true },
                args: LaunchArgs::Rom,
                save_states: Some(SaveStateScheme { location: StateLocation::Data("flycast"), key: KeyKind::Stem, parser: SlotParser::Flycast, learner: None }),
                hotkeys: None,
            },
        };
        proof {
            assert(str_views(r.spec.platforms@) =~= seq!["dreamcast"@]);
            assert(str_views(r.spec.bin_names@) =~= seq!["flycast"@]);
        }
        r
    }

    /// MAME boots a set name resolved against `-rompath`, not a path.
    pub fn mame() -> (r: Self)
        ensures
            r.spec.id@ == "mame"@,
            r.spec.display_name@ == "MAME"@,
            str_views(r.spec.platforms@) == seq!["arcade"@],
            str_views(r.spec.bin_names@) == seq!["mame"@],
            opt_str_view(r.spec.flatpak_app_id) == Some("org.mamedev.MAME"@),
            r.spec.capabilities == (Capabilities { savestates: true, saves: true, achievements: false, screenshots: true }),
            r.spec.args == LaunchArgs::Romset,
            r.spec.save_states is None,
            r.spec.hotkeys is None,
    {
        let r = StandaloneAdapter {
            spec: Spec {
                id: "mame",
                display_name: "MAME",
                platforms: vec!["arcade"],
                bin_names: vec!["mame"],
                flatpak_app_id: Some("org.mamedev.MAME"),
                capabilities: Capabilities { savestates: true, saves: true, achievements: false, screenshots: true },
                args: LaunchArgs::Romset,
                save_states: None,
                hotkeys: None,
            },
        };
        proof {
            assert(str_views(r.spec.platforms@) =~= seq!["arcade"@]);
            assert(str_views(r.spec.bin_names@) =~= seq!["mame"@]);
        }
        r
    }

    /// xemu.
    pub fn xemu() -> (r: Self)
        ensures
            r.spec.id@ == "xemu"@,
            r.spec.display_name@ == "xemu"@,
            str_views(r.spec.platforms@) == seq!["xbox"@],
            str_views(r.spec.bin_names@) == seq!["xemu"@],
            opt_str_view(r.spec.flatpak_app_id) == Some("app.xemu.xemu"@),
            r.spec.capabilities == (Capabilities { savestates: false, saves: true, achievements: false, screenshots: true }),
            r.spec.args == LaunchArgs::Flags1("-dvd_path"),
            r.spec.save_states is None,
            r.spec.hotkeys is None,
    {
        let r = StandaloneAdapter {
            spec: Spec {
                id: "xemu",
                display_name: "xemu",
                platforms: vec!["xbox"],
                bin_names: vec!["xemu"],
                flatpak_app_id: Some("app.xemu.xemu"),
                capabilities: Capabilities { savestates: false, saves: true, achievements: false, screenshots: true },
                args: LaunchArgs::Flags1("-dvd_path"),
                save_states: None,
                hotkeys: None,
            },
        };
        proof {
            assert(str_views(r.spec.platforms@) =~= seq!["xbox"@]);
            assert(str_views(r.spec.bin_names@) =~= seq!["xemu"@]);
        }
        r
    }

    /// Cemu.
    pub fn cemu() -> (r: Self)
        ensures
            r.spec.id@ == "cemu"@,
            r.spec.display_name@ == "Cemu"@,
            str_views(r.spec.platforms@) == seq!["wiiu"@],
            str_views(r.spec.bin_names@) == seq!["Cemu"@, "cemu"@],
            opt_str_view(r.spec.flatpak_app_id) == Some("info.cemu.Cemu"@),
            r.spec.capabilities == (Capabilities { savestates: false, saves: true, achievements: false, screenshots: true }),
            r.spec.args == LaunchArgs::Flags2("-f", "-g"),
            r.spec.save_states is None,
            r.spec.hotkeys is None,
    {
        let r = StandaloneAdapter {
            spec: Spec {
                id: "cemu",
                display_name: "Cemu",
                platforms: vec!["wiiu"],
                bin_names: vec!["Cemu", "cemu"],
                flatpak_app_id: Some("info.cemu.Cemu"),
                capabilities: Capabilities { savestates: false, saves: true, achievements: false, screenshots: true },
                args: LaunchArgs::Flags2("-f", "-g"),
                save_states: None,
                hotkeys: None,
            },
        };
        proof {
            assert(str_views(r.spec.platforms@) =~= seq!["wiiu"@]);
            assert(str_views(r.spec.bin_names@) =~= seq!["Cemu"@, "cemu"@]);
        }
        r
    }

    /// Vita3K.
    pub fn vita3k() -> (r: Self)
        ensures
            r.spec.id@ == "vita3k"@,
            r.spec.display_name@ == "Vita3K"@,
            str_views(r.spec.platforms@) == seq!["vita"@],
            str_views(r.spec.bin_names@) == seq!["Vita3K"@, "vita3k"@],
            opt_str_view(r.spec.flatpak_app_id) == Some("org.vita3k.Vita3K"@),
            r.spec.capabilities == (Capabilities { savestates: false, saves: true, achievements: false, screenshots: true }),
            r.spec.args == LaunchArgs::Rom,
            r.spec.save_states is None,
            r.spec.hotkeys is None,
    {
        let r = StandaloneAdapter {
            spec: Spec {
                id: "vita3k",
                display_name: "Vita3K",
                platforms: vec!["vita"],
                bin_names: vec!["Vita3K", "vita3k"],
                flatpak_app_id: Some("org.vita3k.Vita3K"),
                capabilities: Capabilities { savestates: false, saves: true, achievements: false, screenshots: true },
                args: LaunchArgs::Rom,
                save_states: None,
                hotkeys: None,
            },
        };
        proof {
            assert(str_views(r.spec.platforms@) =~= seq!["vita"@]);
            assert(str_views(r.spec.bin_names@) =~= seq!["Vita3K"@, "vita3k"@]);
        }
        r
    }

    /// Ryujinx.
    pub fn ryujinx() -> (r: Self)
        ensures
            r.spec.id@ == "ryujinx"@,
            r.spec.display_name@ == "Ryujinx"@,
            str_views(r.spec.platforms@) == seq!["switch"@],
            str_views(r.spec.bin_names@) == seq!["Ryujinx"@, "Ryujinx.Ava"@, "ryujinx"@],
            opt_str_view(r.spec.flatpak_app_id) == Some("org.ryujinx.Ryujinx"@),
            r.spec.capabilities == (Capabilities { savestates: false, saves: true, achievements: false, screenshots: true }),
            r.spec.args == LaunchArgs::Rom,
            r.spec.save_states is None,
            r.spec.hotkeys is None,
    {
        let r = StandaloneAdapter {
            spec: Spec {
                id: "ryujinx",
                display_name: "Ryujinx",
                platforms: vec!["switch"],
                bin_names: vec!["Ryujinx", "Ryujinx.Ava", "ryujinx"],
                flatpak_app_id: Some("org.ryujinx.Ryujinx"),
                capabilities: Capabilities { savestates: false, saves: true, achievements: false, screenshots: true },
                args: LaunchArgs::Rom,
                save_states: None,
                hotkeys: None,
            },
        };
        proof {
            assert(str_views(r.spec.platforms@) =~= seq!["switch"@]);
            assert(str_views(r.spec.bin_names@) =~= seq!["Ryujinx"@, "Ryujinx.Ava"@, "ryujinx"@]);
        }
        r
    }

    /// Lime3DS.
    pub fn lime3ds() -> (r: Self)
        ensures
            r.spec.id@ == "lime3ds"@,
            r.spec.display_name@ == "Lime3DS"@,
            str_views(r.spec.platforms@) == seq!["n3ds"@],
            str_views(r.spec.bin_names@) == seq!["lime3ds-gui"@, "lime3ds"@, "azahar"@, "citra-qt"@, "citra"@],
            opt_str_view(r.spec.flatpak_app_id) == Some("io.github.lime3ds.Lime3DS"@),
            r.spec.capabilities == (Capabilities { savestates: true, saves: true, achievements: false, screenshots: true }),
            r.spec.args == LaunchArgs::Rom,
            r.spec.save_states is None,
            r.spec.hotkeys is None,
    {
        let r = StandaloneAdapter {
            spec: Spec {
                id: "lime3ds",
                display_name: "Lime3DS",
                platforms: vec!["n3ds"],
                bin_names: vec!["lime3ds-gui", "lime3ds", "azahar", "citra-qt", "citra"],
                flatpak_app_id: Some("io.github.lime3ds.Lime3DS"),
                capabilities: Capabilities { savestates: true, saves: true, achievements: false, screenshots: true },
                args: LaunchArgs::Rom,
                save_states: None,
                hotkeys: None,
            },
        };
        proof {
            assert(str_views(r.spec.platforms@) =~= seq!["n3ds"@]);
            assert(str_views(r.spec.bin_names@) =~= seq!["lime3ds-gui"@, "lime3ds"@, "azahar"@, "citra-qt"@, "citra"@]);
        }
        r
    }

    /// Mednafen, the reference standalone for PC Engine, Saturn, Virtual Boy, Lynx, WonderSwan, Neo Geo Pocket and the Sega 8-bits; savestates in `~/.mednafen/mcs/`.
    pub fn mednafen() -> (r: Self)
        ensures
            r.spec.id@ == "mednafen"@,
            r.spec.display_name@ == "Mednafen"@,
            str_views(r.spec.platforms@) == seq!["pcengine"@, "saturn"@, "virtualboy"@, "lynx"@, "wonderswan"@, "ngp"@, "sms"@, "gamegear"@],
            str_views(r.spec.bin_names@) == seq!["mednafen"@],
            r.spec.flatpak_app_id is None,
            r.spec.capabilities == (Capabilities { savestates: true, saves: true, achievements: false, screenshots: true }),
            r.spec.args == LaunchArgs::Rom,
            r.spec.save_states == (Some(SaveStateScheme { location: StateLocation::Home(".mednafen/mcs"), key: KeyKind::Stem, parser: SlotParser::Mednafen, learner: None })),
            r.spec.hotkeys == (Some(HotkeyScheme { base: HotkeyBase::Home, rel_path: ".mednafen/mednafen.cfg", defaults: DefaultsTable::Mednafen, parser: HotkeyParser::MednafenCommands })),
    {
        let r = StandaloneAdapter {
            spec: Spec {
                id: "mednafen",
                display_name: "Mednafen",
                platforms: vec!["pcengine", "saturn", "virtualboy", "lynx", "wonderswan", "ngp", "sms", "gamegear"],
                bin_names: vec!["mednafen"],
                flatpak_app_id: None,
                capabilities: Capabilities { savestates: true, saves: true, achievements: false, screenshots: true },
                args: LaunchArgs::Rom,
                save_states: Some(SaveStateScheme { location: StateLocation::Home(".mednafen/mcs"), key: KeyKind::Stem, parser: SlotParser::Mednafen, learner: None }),
                hotkeys: Some(HotkeyScheme { base: HotkeyBase::Home, rel_path: ".mednafen/mednafen.cfg", defaults: DefaultsTable::Mednafen, parser: HotkeyParser::MednafenCommands }),
            },
        };
        proof {
            assert(str_views(r.spec.platforms@) =~= seq!["pcengine"@, "saturn"@, "virtualboy"@, "lynx"@, "wonderswan"@, "ngp"@, "sms"@, "gamegear"@]);
            assert(str_views(r.spec.bin_names@) =~= seq!["mednafen"@]);
        }
        r
    }

    /// Mesen.
    pub fn mesen() -> (r: Self)
        ensures
            r.spec.id@ == "mesen"@,
            r.spec.display_name@ == "Mesen"@,
            str_views(r.spec.platforms@) == seq!["nes"@],
            str_views(r.spec.bin_names@) == seq!["Mesen"@, "mesen"@],
            r.spec.flatpak_app_id is None,
            r.spec.capabilities == (Capabilities { savestates: true, saves: true, achievements: false, screenshots: true }),
            r.spec.args == LaunchArgs::Rom,
            r.spec.save_states == (Some(SaveStateScheme { location: StateLocation::Config("Mesen2/SaveStates"), key: KeyKind::Stem, parser: SlotParser::Mesen, learner: None })),
            r.spec.hotkeys is None,
    {
        let r = StandaloneAdapter {
            spec: Spec {
                id: "mesen",
                display_name: "Mesen",
                platforms: vec!["nes"],
                bin_names: vec!["Mesen", "mesen"],
                flatpak_app_id: None,
                capabilities: Capabilities { savestates: true, saves: true, achievements: false, screenshots: true },
                args: LaunchArgs::Rom,
                save_states: Some(SaveStateScheme { location: StateLocation::Config("Mesen2/SaveStates"), key: KeyKind::Stem, parser: SlotParser::Mesen, learner: None }),
                hotkeys: None,
            },
        };
        proof {
            assert(str_views(r.spec.platforms@) =~= seq!["nes"@]);
            assert(str_views(r.spec.bin_names@) =~= seq!["Mesen"@, "mesen"@]);
        }
        r
    }

    /// Stella.
    pub fn stella() -> (r: Self)
        ensures
            r.spec.id@ == "stella"@,
            r.spec.display_name@ == "Stella"@,
            str_views(r.spec.platforms@) == seq!["atari2600"@],
            str_views(r.spec.bin_names@) == seq!["stella"@],
            opt_str_view(r.spec.flatpak_app_id) == Some("io.github.stella_emu.Stella"@),
            r.spec.capabilities == (Capabilities { savestates: false, saves: true, achievements: false, screenshots: true }),
            r.spec.args == LaunchArgs::Rom,
            r.spec.save_states is None,
            r.spec.hotkeys is None,
    {
        let r = StandaloneAdapter {
            spec: Spec {
                id: "stella",
                display_name: "Stella",
                platforms: vec!["atari2600"],
                bin_names: vec!["stella"],
                flatpak_app_id: Some("io.github.stella_emu.Stella"),
                capabilities: Capabilities { savestates: false, saves: true, achievements: false, screenshots: true },
                args: LaunchArgs::Rom,
                save_states: None,
                hotkeys: None,
            },
        };
        proof {
            assert(str_views(r.spec.platforms@) =~= seq!["atari2600"@]);
            assert(str_views(r.spec.bin_names@) =~= seq!["stella"@]);
        }
        r
    }

    /// BlastEm.
    pub fn blastem() -> (r: Self)
        ensures
            r.spec.id@ == "blastem"@,
            r.spec.display_name@ == "BlastEm"@,
            str_views(r.spec.platforms@) == seq!["genesis"@],
            str_views(r.spec.bin_names@) == seq!["blastem"@],
            opt_str_view(r.spec.flatpak_app_id) == Some("com.retrodev.blastem"@),
            r.spec.capabilities == (Capabilities { savestates: true, saves: true, achievements: false, screenshots: true }),
            r.spec.args == LaunchArgs::Rom,
            r.spec.save_states == (Some(SaveStateScheme { location: StateLocation::DataPerGame("blastem"), key: KeyKind::Stem, parser: SlotParser::BlastEm, learner: None })),
            r.spec.hotkeys is None,
    {
        let r = StandaloneAdapter {
            spec: Spec {
                id: "blastem",
                display_name: "BlastEm",
                platforms: vec!["genesis"],
                bin_names: vec!["blastem"],
                flatpak_app_id: Some("com.retrodev.blastem"),
                capabilities: Capabilities { savestates: true, saves: true, achievements: false, screenshots: true },
                args: LaunchArgs::Rom,
                save_states: Some(SaveStateScheme { location: StateLocation::DataPerGame("blastem"), key: KeyKind::Stem, parser: SlotParser::BlastEm, learner: None }),
                hotkeys: None,
            },
        };
        proof {
            assert(str_views(r.spec.platforms@) =~= seq!["genesis"@]);
            assert(str_views(r.spec.bin_names@) =~= seq!["blastem"@]);
        }
        r
    }

    /// openMSX boots an MSX cartridge via `-cart <file>`.
    pub fn openmsx() -> (r: Self)
        ensures
            r.spec.id@ == "openmsx"@,
            r.spec.display_name@ == "openMSX"@,
            str_views(r.spec.platforms@) == seq!["msx"@],
            str_views(r.spec.bin_names@) == seq!["openmsx"@],
            opt_str_view(r.spec.flatpak_app_id) == Some("org.openmsx.openMSX"@),
            r.spec.capabilities == (Capabilities { savestates: false, saves: true, achievements: false, screenshots: true }),
            r.spec.args == LaunchArgs::Flags1("-cart"),
            r.spec.save_states is None,
            r.spec.hotkeys is None,
    {
        let r = StandaloneAdapter {
            spec: Spec {
                id: "openmsx",
                display_name: "openMSX",
                platforms: vec!["msx"],
                bin_names: vec!["openmsx"],
                flatpak_app_id: Some("org.openmsx.openMSX"),
                capabilities: Capabilities { savestates: false, saves: true, achievements: false, screenshots: true },
                args: LaunchArgs::Flags1("-cart"),
                save_states: None,
                hotkeys: None,
            },
        };
        proof {
            assert(str_views(r.spec.platforms@) =~= seq!["msx"@]);
            assert(str_views(r.spec.bin_names@) =~= seq!["openmsx"@]);
        }
        r
    }

    /// Gearcoleco.
    pub fn gearcoleco() -> (r: Self)
        ensures
            r.spec.id@ == "gearcoleco"@,
            r.spec.display_name@ == "Gearcoleco"@,
            str_views(r.spec.platforms@) == seq!["colecovision"@],
            str_views(r.spec.bin_names@) == seq!["gearcoleco"@],
            r.spec.flatpak_app_id is None,
            r.spec.capabilities == (Capabilities { savestates: false, saves: true, achievements: false, screenshots: true }),
            r.spec.args == LaunchArgs::Rom,
            r.spec.save_states is None,
            r.spec.hotkeys is None,
    {
        let r = StandaloneAdapter {
            spec: Spec {
                id: "gearcoleco",
                display_name: "Gearcoleco",
                platforms: vec!["colecovision"],
                bin_names: vec!["gearcoleco"],
                flatpak_app_id: None,
                capabilities: Capabilities { savestates: false, saves: true, achievements: false, screenshots: true },
                args: LaunchArgs::Rom,
                save_states: None,
                hotkeys: None,
            },
        };
        proof {
            assert(str_views(r.spec.platforms@) =~= seq!["colecovision"@]);
            assert(str_views(r.spec.bin_names@) =~= seq!["gearcoleco"@]);
        }
        r
    }

    /// BigPEmu.
    pub fn bigpemu() -> (r: Self)
        ensures
            r.spec.id@ == "bigpemu"@,
            r.spec.display_name@ == "BigPEmu"@,
            str_views(r.spec.platforms@) == seq!["jaguar"@],
            str_views(r.spec.bin_names@) == seq!["BigPEmu"@, "bigpemu"@],
            opt_str_view(r.spec.flatpak_app_id) == Some("com.richwhitehouse.BigPEmu"@),
            r.spec.capabilities == (Capabilities { savestates: false, saves: true, achievements: false, screenshots: true }),
            r.spec.args == LaunchArgs::Rom,
            r.spec.save_states is None,
            r.spec.hotkeys is None,
    {
        let r = StandaloneAdapter {
            spec: Spec {
                id: "bigpemu",
                display_name: "BigPEmu",
                platforms: vec!["jaguar"],
                bin_names: vec!["BigPEmu", "bigpemu"],
                flatpak_app_id: Some("com.richwhitehouse.BigPEmu"),
                capabilities: Capabilities { savestates: false, saves: true, achievements: false, screenshots: true },
                args: LaunchArgs::Rom,
                save_states: None,
                hotkeys: None,
            },
        };
        proof {
            assert(str_views(r.spec.platforms@) =~= seq!["jaguar"@]);
            assert(str_views(r.spec.bin_names@) =~= seq!["BigPEmu"@, "bigpemu"@]);
        }
        r
    }

    /// VICE's x64sc with `-autostart`, which attaches and runs the media.
    pub fn vice() -> (r: Self)
        ensures
            r.spec.id@ == "vice"@,
            r.spec.display_name@ == "VICE"@,
            str_views(r.spec.platforms@) == seq!["c64"@],
            str_views(r.spec.bin_names@) == seq!["x64sc"@, "x64"@],
            r.spec.flatpak_app_id is None,
            r.spec.capabilities == (Capabilities { savestates: false, saves: true, achievements: false, screenshots: true }),
            r.spec.args == LaunchArgs::Flags1("-autostart"),
            r.spec.save_states is None,
            r.spec.hotkeys is None,
    {
        let r = StandaloneAdapter {
            spec: Spec {
                id: "vice",
                display_name: "VICE",
                platforms: vec!["c64"],
                bin_names: vec!["x64sc", "x64"],
                flatpak_app_id: None,
                capabilities: Capabilities { savestates: false, saves: true, achievements: false, screenshots: true },
                args: LaunchArgs::Flags1("-autostart"),
                save_states: None,
                hotkeys: None,
            },
        };
        proof {
            assert(str_views(r.spec.platforms@) =~= seq!["c64"@]);
            assert(str_views(r.spec.bin_names@) =~= seq!["x64sc"@, "x64"@]);
        }
        r
    }

    /// Atari800 in 5200 mode (`-5200`).
    pub fn atari800() -> (r: Self)
        ensures
            r.spec.id@ == "atari800"@,
            r.spec.display_name@ == "Atari800"@,
            str_views(r.spec.platforms@) == seq!["atari5200"@],
            str_views(r.spec.bin_names@) == seq!["atari800"@],
            r.spec.flatpak_app_id is None,
            r.spec.capabilities == (Capabilities { savestates: false, saves: true, achievements: false, screenshots: true }),
            r.spec.args == LaunchArgs::Flags1("-5200"),
            r.spec.save_states is None,
            r.spec.hotkeys is None,
    {
        let r = StandaloneAdapter {
            spec: Spec {
                id: "atari800",
                display_name: "Atari800",
                platforms: vec!["atari5200"],
                bin_names: vec!["atari800"],
                flatpak_app_id: None,
                capabilities: Capabilities { savestates: false, saves: true, achievements: false, screenshots: true },
                args: LaunchArgs::Flags1("-5200"),
                save_states: None,
                hotkeys: None,
            },
        };
        proof {
            assert(str_views(r.spec.platforms@) =~= seq!["atari5200"@]);
            assert(str_views(r.spec.bin_names@) =~= seq!["atari800"@]);
        }
        r
    }


    /// Static descriptor: id, supported platforms, capability flags.
    pub fn descriptor(&self) -> (d: AdapterDescriptor)
        ensures
            d.id@ == self.spec.id@,
            d.display_name@ == self.spec.display_name@,
            string_views(d.platforms@) == str_views(self.spec.platforms@),
            d.capabilities == self.spec.capabilities,
    {
        AdapterDescriptor {
            id: owned(self.spec.id),
            display_name: owned(self.spec.display_name),
            platforms: to_strings(&self.spec.platforms),
            capabilities: self.spec.capabilities,
        }
    }

    /// MAME loads romsets straight from their archive; every other standalone
    /// here needs the launcher to pre-extract.
    pub fn handles_archives(&self) -> (b: bool)
        ensures
            b == (self.spec.id@ == "mame"@),
    {
        let id = chars_of(self.spec.id);
        eq_str(&id, "mame")
    }

    /// Whether this emulator can boot straight into a savestate.
    pub fn supports_launch_state(&self) -> (b: bool)
        ensures
            b == launch_state_ids().contains(self.spec.id@),
    {
        let id = chars_of(self.spec.id);
        let b = eq_str(&id, "mupen64plus") || eq_str(&id, "pcsx2") || eq_str(&id, "duckstation")
            || eq_str(&id, "dolphin") || eq_str(&id, "mgba");
        proof {
            let s = launch_state_ids();
            if b {
                if id@ == "mupen64plus"@ {
                    assert(s[0] == id@);
                } else if id@ == "pcsx2"@ {
                    assert(s[1] == id@);
                } else if id@ == "duckstation"@ {
                    assert(s[2] == id@);
                } else if id@ == "dolphin"@ {
                    assert(s[3] == id@);
                } else {
                    assert(s[4] == id@);
                }
            } else {
                assert forall|i: int| 0 <= i < s.len() implies s[i] != id@ by {}
            }
        }
        b
    }

    /// The per-game arguments (everything after the executable).
    pub fn launch_args(&self, rom_path: &str) -> (r: Vec<String>)
        ensures
            string_views(r@) == launch_args_spec(self.spec.args, rom_path@),
    {
        let mut out: Vec<String> = Vec::new();
        match self.spec.args {
            LaunchArgs::Rom => {
                out.push(owned(rom_path));
            },
            LaunchArgs::Flags1(f) => {
                out.push(owned(f));
                out.push(owned(rom_path));
            },
            LaunchArgs::Flags2(f, g) => {
                out.push(owned(f));
                out.push(owned(g));
                out.push(owned(rom_path));
            },
            LaunchArgs::Romset => {
                let p = chars_of(rom_path);
                out.push(owned("-rompath"));
                out.push(crate::pathname::parent_text(rom_path));
                let stem = match crate::pathname::file_stem_vec(&p) {
                    Some(s) => s,
                    None => Vec::new(),
                };
                out.push(crate::text::string_of(&stem));
            },
        }
        proof {
            assert(string_views(out@) =~= launch_args_spec(self.spec.args, rom_path@));
        }
        out
    }

    /// Splice a boot-into-savestate flag into the launch args for the
    /// emulators that support loading a state at startup; others are left
    /// untouched and boot cold.
    pub fn apply_load_state(&self, ctx: &LaunchContext, args: &mut Vec<String>)
        ensures
            string_views(final(args)@) == with_load_state(
                string_views(old(args)@),
                self.spec.id@,
                match ctx.load_state {
                    Some(l) => Some(l.path@),
                    None => None,
                },
            ),
    {
        let ghost a0 = string_views(args@);
        let load = match &ctx.load_state {
            Some(l) => l,
            None => return,
        };
        let id = chars_of(self.spec.id);
        let path = &load.path;
        let mut extra: Vec<String> = Vec::new();
        let before_rom: bool;
        if eq_str(&id, "mupen64plus") {
            extra.push(owned("--emumode"));
            extra.push(owned("0"));
            extra.push(owned("--savestate"));
            extra.push(path.clone());
            before_rom = true;
        } else if eq_str(&id, "pcsx2") || eq_str(&id, "duckstation") {
            extra.push(owned("-statefile"));
            extra.push(path.clone());
            before_rom = true;
        } else if eq_str(&id, "dolphin") {
            extra.push(owned("-s"));
            extra.push(path.clone());
            before_rom = false;
        } else if eq_str(&id, "mgba") {
            extra.push(owned("-t"));
            extra.push(path.clone());
            before_rom = true;
        } else {
            return;
        }
        let ghost ev = string_views(extra@);
        proof {
            assert(load_state_flags(self.spec.id@, path@) == Some((before_rom, ev)));
        }
        if before_rom {
            let at: usize = if args.len() > 0 {
                args.len() - 1
            } else {
                0
            };
            let mut i: usize = 0;
            while i < extra.len()
                invariant
                    i <= extra.len(),
                    at <= a0.len(),
                    args.len() == a0.len() + i,
                    ev == string_views(extra@),
                    string_views(args@) == a0.take(at as int) + ev.take(i as int) + a0.skip(
                        at as int,
                    ),
                decreases extra.len() - i,
            {
                let ghost before = string_views(args@);
                let e = extra[i].clone();
                proof {
                    assert(ev[i as int] == e@);
                }
                args.insert(at + i, e);
                proof {
                    assert(string_views(args@) =~= before.insert(at + i, e@));
                }
                i += 1;
                proof {
                    assert(string_views(args@) =~= a0.take(at as int) + ev.take(i as int) + a0.skip(
                        at as int,
                    ));
                }
            }
            proof {
                assert(ev.take(ev.len() as int) =~= ev);
            }
        } else {
            let mut i: usize = 0;
            while i < extra.len()
                invariant
                    i <= extra.len(),
                    ev == string_views(extra@),
                    string_views(args@) == a0 + ev.take(i as int),
                decreases extra.len() - i,
            {
                let ghost before = string_views(args@);
                let e = extra[i].clone();
                proof {
                    assert(ev[i as int] == e@);
                }
                args.push(e);
                i += 1;
                proof {
                    assert(string_views(args@) =~= before.push(e@));
                    assert(string_views(args@) =~= a0 + ev.take(i as int));
                }
            }
            proof {
                assert(ev.take(ev.len() as int) =~= ev);
            }
        }
    }

    /// The environment the SDL-HIDAPI workaround adds to the spawned process:
    /// HIDAPI off plus SDL's classic joystick backend, or nothing.
    pub fn sdl_hidapi_env(&self, ctx: &LaunchContext, xpadneo_present: bool) -> (r: Vec<
        (String, String),
    >)
        ensures
            env_views(r@) == (if hidapi_applies(
                self.spec.id@,
                env_views(ctx.env@),
                ctx.sdl_hidapi_workaround,
                xpadneo_present,
            ) {
                seq![("SDL_JOYSTICK_HIDAPI"@, "0"@), ("SDL_JOYSTICK_LINUX_CLASSIC"@, "1"@)]
            } else {
                seq![]
            }),
    {
        let mut r: Vec<(String, String)> = Vec::new();
        let id = chars_of(self.spec.id);
        let mut caller_set = false;
        let mut i: usize = 0;
        while i < ctx.env.len()
            invariant
                i <= ctx.env.len(),
                caller_set == (exists|j: int|
                    0 <= j < i && #[trigger] env_views(ctx.env@)[j].0 == "SDL_JOYSTICK_HIDAPI"@),
            decreases ctx.env.len() - i,
        {
            let k = chars_of(ctx.env[i].0.as_str());
            if eq_str(&k, "SDL_JOYSTICK_HIDAPI") {
                caller_set = true;
            }
            proof {
                assert(env_views(ctx.env@)[i as int].0 == k@);
            }
            i += 1;
        }
        let apply = match ctx.sdl_hidapi_workaround {
            HidapiWorkaround::Off => false,
            HidapiWorkaround::Force => true,
            HidapiWorkaround::Auto => xpadneo_present,
        };
        if !eq_str(&id, "dolphin") && !caller_set && apply {
            r.push((owned("SDL_JOYSTICK_HIDAPI"), owned("0")));
            r.push((owned("SDL_JOYSTICK_LINUX_CLASSIC"), owned("1")));
        }
        proof {
            assert(env_views(r@) =~= (if hidapi_applies(
                self.spec.id@,
                env_views(ctx.env@),
                ctx.sdl_hidapi_workaround,
                xpadneo_present,
            ) {
                seq![("SDL_JOYSTICK_HIDAPI"@, "0"@), ("SDL_JOYSTICK_LINUX_CLASSIC"@, "1"@)]
            } else {
                seq![]
            }));
        }
        r
    }
}

/// The launch-state capability and the load-state flags agree: an emulator
/// reports launch-into-state support exactly when starting it with a savestate
/// adds arguments to its command line.
pub proof fn law_launch_state_capability(id: Seq<char>, path: Seq<char>, args: Seq<Seq<char>>)
    ensures
        launch_state_ids().contains(id) <==> load_state_flags(id, path) is Some,
        launch_state_ids().contains(id) ==> with_load_state(args, id, Some(path)).len()
            > args.len(),
        !launch_state_ids().contains(id) ==> with_load_state(args, id, Some(path)) == args,
{
    let s = launch_state_ids();
    if load_state_flags(id, path) is Some {
        if id == "mupen64plus"@ {
            assert(s[0] == id);
        } else if id == "pcsx2"@ {
            assert(s[1] == id);
        } else if id == "duckstation"@ {
            assert(s[2] == id);
        } else if id == "dolphin"@ {
            assert(s[3] == id);
        } else {
            assert(s[4] == id);
        }
    }
    if s.contains(id) {
        let i = choose|i: int| 0 <= i < s.len() && s[i] == id;
        assert(0 <= i < 5);
    }
}


/// Booting into a state adds the state's file to the arguments and keeps the
/// old arguments in their order around the added flags.
pub proof fn law_load_state_adds_path(id: Seq<char>, path: Seq<char>, args: Seq<Seq<char>>)
    requires
        launch_state_ids().contains(id),
    ensures
        exists|at: int, extra: Seq<Seq<char>>|
            0 <= at <= args.len() && extra.contains(path) && #[trigger] with_load_state(args, id, Some(path))
                == args.take(at) + extra + args.skip(at),
        with_load_state(args, id, Some(path)).contains(path),
{
    law_launch_state_capability(id, path, args);
    let (front, extra) = load_state_flags(id, path)->0;
    assert(extra.last() == path);
    assert(extra.contains(path));
    let at = if front {
        if args.len() > 0 {
            args.len() - 1
        } else {
            0
        }
    } else {
        args.len() as int
    };
    let r = with_load_state(args, id, Some(path));
    if !front {
        assert(args.skip(args.len() as int) =~= Seq::<Seq<char>>::empty());
        assert(args.take(args.len() as int) =~= args);
        assert(r =~= args.take(at) + extra + args.skip(at));
    }
    assert(r == args.take(at) + extra + args.skip(at));
    let k = at + extra.len() - 1;
    assert(r[k] == extra[extra.len() - 1]);
    assert(r.contains(path));
}

/// Where a search finds the pattern, the pattern occurs.
proof fn lemma_find_sub_occurs(s: Seq<char>, p: Seq<char>, from: int)
    ensures
        find_sub_from(s, p, from) >= 0 ==> occurs_at(s, p, find_sub_from(s, p, from)),
    decreases s.len() + 1 - from,
{
    if !(from < 0 || from > s.len() || from + p.len() > s.len()) && !occurs_at(s, p, from) {
        lemma_find_sub_occurs(s, p, from + 1);
    }
}

/// The serial PCSX2's learner reads off a written state is one its slot
/// parser accepts for that same file: discovery with the learned key finds
/// the file's slot.
pub proof fn law_learned_key_finds_slot_pcsx2(name: Seq<char>)
    requires
        learn_pcsx2_spec(name) is Some,
    ensures
        parse_pcsx2_spec(name, learn_pcsx2_spec(name)->0) == slot_token(after_last(strip_suffix(name, ".p2s"@)->0, '.')),
{
    reveal_strlit(" (");
    let rest = strip_suffix(name, ".p2s"@)->0;
    let k = find_sub_from(rest, " ("@, 0);
    lemma_find_sub_occurs(rest, " ("@, 0);
    let serial = rest.take(k);
    assert(learn_pcsx2_spec(name)->0 == serial);
    assert(rest.subrange(k, k + 2) == " ("@);
    assert(rest.subrange(0, k + 2) =~= serial + " ("@);
    assert(starts_with(rest, serial + " ("@));
}

/// The first occurrence of `p` from `from` on is at `k` when it occurs there
/// and nowhere between.
pub proof fn lemma_find_sub_first(s: Seq<char>, p: Seq<char>, from: int, k: int)
    requires
        0 <= from <= k,
        occurs_at(s, p, k),
        forall|i: int| from <= i < k ==> !occurs_at(s, p, i),
    ensures
        find_sub_from(s, p, from) == k,
    decreases k - from,
{
    if from < k {
        lemma_find_sub_first(s, p, from + 1, k);
    }
}

/// The last `c` lies at `k` when nothing after it is `c`.
proof fn lemma_rfind_char_last(s: Seq<char>, c: char, k: int)
    requires
        0 <= k < s.len(),
        s[k] == c,
        forall|i: int| k < i < s.len() ==> s[i] != c,
    ensures
        rfind_char(s, c) == k,
    decreases s.len(),
{
    if s.last() != c {
        lemma_rfind_char_last(s.drop_last(), c, k);
    }
}

/// A state PCSX2 wrote as `<SERIAL> (<CRC>).<slot>.p2s` teaches back exactly
/// the serial it was written for, when that serial is not empty and holds no
/// ` (`; with a slot free of `.`, discovery with that key finds the slot.
pub proof fn law_pcsx2_learns_the_written_serial(serial: Seq<char>, crc: Seq<char>, slot: Seq<char>)
    requires
        serial.len() > 0,
        forall|i: int| 0 <= i < serial.len() - 1 ==> !(#[trigger] serial[i] == ' ' && serial[i + 1] == '('),
    ensures
        learn_pcsx2_spec(serial + " ("@ + crc + ")."@ + slot + ".p2s"@) == Some(serial),
        !slot.contains('.') ==> parse_pcsx2_spec(serial + " ("@ + crc + ")."@ + slot + ".p2s"@, serial)
            == slot_token(slot),
{
    reveal_strlit(" (");
    reveal_strlit(").");
    reveal_strlit(".p2s");
    let rest = serial + " ("@ + crc + ")."@ + slot;
    let name = rest + ".p2s"@;
    assert(name.subrange(name.len() - 4, name.len() as int) =~= ".p2s"@);
    assert(name.take(name.len() - 4) =~= rest);
    assert(strip_suffix(name, ".p2s"@) == Some(rest));
    let k = serial.len() as int;
    assert(rest.subrange(k, k + 2) =~= " ("@);
    assert forall|i: int| 0 <= i < k implies !occurs_at(rest, " ("@, i) by {
        if occurs_at(rest, " ("@, i) {
            assert(rest.subrange(i, i + 2)[0] == rest[i]);
            assert(rest.subrange(i, i + 2)[1] == rest[i + 1]);
            if i + 1 < k {
                assert(rest[i] == serial[i] && rest[i + 1] == serial[i + 1]);
            } else {
                assert(rest[i + 1] == ' ');
            }
        }
    }
    lemma_find_sub_first(rest, " ("@, 0, k);
    assert(rest.take(k) =~= serial);
    assert(learn_pcsx2_spec(name) == Some(serial));
    if !slot.contains('.') {
        let d = rest.len() - slot.len() - 1;
        assert(rest[d] == '.');
        assert forall|i: int| d < i < rest.len() implies rest[i] != '.' by {
            assert(rest[i] == slot[i - d - 1]);
        }
        lemma_rfind_char_last(rest, '.', d);
        assert(after_last(rest, '.') =~= slot);
        assert(rest.subrange(0, k + 2) =~= serial + " ("@);
        assert(starts_with(rest, serial + " ("@));
    }
}

// ── savestate filenames ─────────────────────────────────────────────────────

/// `resume` is the auto/resume slot (-1); anything else parses as an `i64`.
pub open spec fn slot_token(t: Seq<char>) -> Option<i64> {
    if t == "resume"@ {
        Some(-1i64)
    } else {
        parse_i64(t)
    }
}

/// A non-empty all-digit slot number.
pub open spec fn digits_slot(t: Seq<char>) -> Option<i64> {
    if t.len() > 0 && all_digits(t) {
        parse_i64(t)
    } else {
        None
    }
}

pub open spec fn opt_digits_slot(t: Option<Seq<char>>) -> Option<i64> {
    match t {
        Some(s) => digits_slot(s),
        None => None,
    }
}

/// PCSX2: `<SERIAL> (<CRC>).<slot>.p2s`; the slot is the last `.`-token.
pub open spec fn parse_pcsx2_spec(name: Seq<char>, serial: Seq<char>) -> Option<i64> {
    match strip_suffix(name, ".p2s"@) {
        None => None,
        Some(rest) => if starts_with(rest, serial + " ("@) {
            slot_token(after_last(rest, '.'))
        } else {
            None
        },
    }
}

/// DuckStation: `<SERIAL>_resume.sav` or `<SERIAL>_<n>.sav`.
pub open spec fn parse_duckstation_spec(name: Seq<char>, serial: Seq<char>) -> Option<i64> {
    match strip_suffix(name, ".sav"@) {
        None => None,
        Some(r) => match strip_prefix(r, serial + "_"@) {
            None => None,
            Some(slot) => slot_token(slot),
        },
    }
}

/// Snes9x: `<stem>.NNN`, exactly three digits.
pub open spec fn parse_snes9x_spec(name: Seq<char>, stem: Seq<char>) -> Option<i64> {
    match strip_prefix(name, stem + "."@) {
        None => None,
        Some(suf) => if suf.len() == 3 && all_digits(suf) {
            parse_i64(suf)
        } else {
            None
        },
    }
}

/// mGBA: `<stem>.ss<N>`.
pub open spec fn parse_mgba_spec(name: Seq<char>, stem: Seq<char>) -> Option<i64> {
    opt_digits_slot(strip_prefix(name, stem + ".ss"@))
}

/// Flycast: `<stem>.state` is slot 0, `<stem>_<N>.state` slot N.
pub open spec fn parse_flycast_spec(name: Seq<char>, stem: Seq<char>) -> Option<i64> {
    match strip_suffix(name, ".state"@) {
        None => None,
        Some(rest) => if rest == stem {
            Some(0)
        } else {
            opt_digits_slot(strip_prefix(rest, stem + "_"@))
        },
    }
}

/// melonDS: `<stem>.ml<N>`.
pub open spec fn parse_melonds_spec(name: Seq<char>, stem: Seq<char>) -> Option<i64> {
    opt_digits_slot(strip_prefix(name, stem + ".ml"@))
}

/// BlastEm: `slot_<N>.state`, and `quicksave.state` as the auto slot (-1).
pub open spec fn parse_blastem_spec(name: Seq<char>) -> Option<i64> {
    match strip_suffix(name, ".state"@) {
        None => None,
        Some(base) => if base == "quicksave"@ {
            Some(-1i64)
        } else {
            opt_digits_slot(strip_prefix(base, "slot_"@))
        },
    }
}

/// Mednafen: `<stem>.<md5>.mc<N>`; the slot is in the last `.`-segment.
pub open spec fn parse_mednafen_spec(name: Seq<char>, stem: Seq<char>) -> Option<i64> {
    match strip_prefix(name, stem + "."@) {
        None => None,
        Some(rest) => opt_digits_slot(strip_prefix(after_last(rest, '.'), "mc"@)),
    }
}

/// Mesen: `<stem>_<N>.mss`.
pub open spec fn parse_mesen_spec(name: Seq<char>, stem: Seq<char>) -> Option<i64> {
    match strip_suffix(name, ".mss"@) {
        None => None,
        Some(r) => opt_digits_slot(strip_prefix(r, stem + "_"@)),
    }
}

/// Dolphin: `<GAMEID>.s<NN>`.
pub open spec fn parse_dolphin_spec(name: Seq<char>, game_id: Seq<char>) -> Option<i64> {
    opt_digits_slot(strip_prefix(name, game_id + ".s"@))
}

/// Mupen64Plus: `<base>.st<N>`.
pub open spec fn parse_mupen_spec(name: Seq<char>, base: Seq<char>) -> Option<i64> {
    opt_digits_slot(strip_prefix(name, base + ".st"@))
}

fn concat_str(a: &str, b: &str) -> (r: Vec<char>)
    ensures
        r@ == a@ + b@,
{
    let mut v = chars_of(a);
    push_str(&mut v, b);
    v
}

fn slot_token_vec(t: &Vec<char>) -> (r: Option<i64>)
    ensures
        r == slot_token(t@),
{
    if eq_str(t, "resume") {
        Some(-1)
    } else {
        parse_i64_vec(t)
    }
}

fn digits_slot_vec(t: &Vec<char>) -> (r: Option<i64>)
    ensures
        r == digits_slot(t@),
{
    if t.len() > 0 && all_digits_vec(t) {
        parse_i64_vec(t)
    } else {
        None
    }
}

fn opt_digits_slot_vec(t: Option<Vec<char>>) -> (r: Option<i64>)
    ensures
        r == opt_digits_slot(
            match t {
                Some(v) => Some(v@),
                None => None,
            },
        ),
{
    match t {
        Some(v) => digits_slot_vec(&v),
        None => None,
    }
}

fn strip_prefix_chars(s: &Vec<char>, p: &Vec<char>) -> (r: Option<Vec<char>>)
    ensures
        match r {
            Some(v) => strip_prefix(s@, p@) == Some(v@),
            None => strip_prefix(s@, p@) is None,
        },
{
    if crate::text::starts_with_vec(s, p) {
        Some(slice_of(s, p.len(), s.len()))
    } else {
        None
    }
}

/// PCSX2 savestate slot of a filename, for `serial`.
pub fn parse_pcsx2(name: &str, serial: &str) -> (r: Option<i64>)
    ensures
        r == parse_pcsx2_spec(name@, serial@),
{
    let n = chars_of(name);
    let rest = match strip_suffix_str(&n, ".p2s") {
        Some(r) => r,
        None => return None,
    };
    let head = concat_str(serial, " (");
    if !crate::text::starts_with_vec(&rest, &head) {
        return None;
    }
    let tok = after_last_vec(&rest, '.');
    slot_token_vec(&tok)
}

/// DuckStation savestate slot of a filename, for `serial`.
pub fn parse_duckstation(name: &str, serial: &str) -> (r: Option<i64>)
    ensures
        r == parse_duckstation_spec(name@, serial@),
{
    let n = chars_of(name);
    let r = match strip_suffix_str(&n, ".sav") {
        Some(r) => r,
        None => return None,
    };
    let head = concat_str(serial, "_");
    match strip_prefix_chars(&r, &head) {
        Some(slot) => slot_token_vec(&slot),
        None => None,
    }
}

/// Snes9x savestate slot of a filename, for `stem`.
pub fn parse_snes9x(name: &str, stem: &str) -> (r: Option<i64>)
    ensures
        r == parse_snes9x_spec(name@, stem@),
{
    let n = chars_of(name);
    let head = concat_str(stem, ".");
    match strip_prefix_chars(&n, &head) {
        Some(suf) => if suf.len() == 3 && all_digits_vec(&suf) {
            parse_i64_vec(&suf)
        } else {
            None
        },
        None => None,
    }
}

/// mGBA savestate slot of a filename, for `stem`.
pub fn parse_mgba(name: &str, stem: &str) -> (r: Option<i64>)
    ensures
        r == parse_mgba_spec(name@, stem@),
{
    let n = chars_of(name);
    let head = concat_str(stem, ".ss");
    opt_digits_slot_vec(strip_prefix_chars(&n, &head))
}

/// Flycast savestate slot of a filename, for `stem`.
pub fn parse_flycast(name: &str, stem: &str) -> (r: Option<i64>)
    ensures
        r == parse_flycast_spec(name@, stem@),
{
    let n = chars_of(name);
    let st = chars_of(stem);
    let rest = match strip_suffix_str(&n, ".state") {
        Some(r) => r,
        None => return None,
    };
    if crate::text::eq_vec(&rest, &st) {
        return Some(0);
    }
    let head = concat_str(stem, "_");
    opt_digits_slot_vec(strip_prefix_chars(&rest, &head))
}

/// melonDS savestate slot of a filename, for `stem`.
pub fn parse_melonds(name: &str, stem: &str) -> (r: Option<i64>)
    ensures
        r == parse_melonds_spec(name@, stem@),
{
    let n = chars_of(name);
    let head = concat_str(stem, ".ml");
    opt_digits_slot_vec(strip_prefix_chars(&n, &head))
}

/// BlastEm savestate slot of a filename (the folder is already per-game).
pub fn parse_blastem(name: &str, stem: &str) -> (r: Option<i64>)
    ensures
        r == parse_blastem_spec(name@),
{
    let n = chars_of(name);
    let base = match strip_suffix_str(&n, ".state") {
        Some(b) => b,
        None => return None,
    };
    if eq_str(&base, "quicksave") {
        return Some(-1);
    }
    opt_digits_slot_vec(strip_prefix_str(&base, "slot_"))
}

/// Mednafen savestate slot of a filename, for `stem`.
pub fn parse_mednafen(name: &str, stem: &str) -> (r: Option<i64>)
    ensures
        r == parse_mednafen_spec(name@, stem@),
{
    let n = chars_of(name);
    let head = concat_str(stem, ".");
    match strip_prefix_chars(&n, &head) {
        Some(rest) => {
            let seg = after_last_vec(&rest, '.');
            opt_digits_slot_vec(strip_prefix_str(&seg, "mc"))
        },
        None => None,
    }
}

/// Mesen savestate slot of a filename, for `stem`.
pub fn parse_mesen(name: &str, stem: &str) -> (r: Option<i64>)
    ensures
        r == parse_mesen_spec(name@, stem@),
{
    let n = chars_of(name);
    let r = match strip_suffix_str(&n, ".mss") {
        Some(r) => r,
        None => return None,
    };
    let head = concat_str(stem, "_");
    opt_digits_slot_vec(strip_prefix_chars(&r, &head))
}

/// Dolphin savestate slot of a filename, for `game_id`.
pub fn parse_dolphin(name: &str, game_id: &str) -> (r: Option<i64>)
    ensures
        r == parse_dolphin_spec(name@, game_id@),
{
    let n = chars_of(name);
    let head = concat_str(game_id, ".s");
    opt_digits_slot_vec(strip_prefix_chars(&n, &head))
}

/// Mupen64Plus savestate slot of a filename, for the learned `base`.
pub fn parse_mupen(name: &str, base: &str) -> (r: Option<i64>)
    ensures
        r == parse_mupen_spec(name@, base@),
{
    let n = chars_of(name);
    let head = concat_str(base, ".st");
    opt_digits_slot_vec(strip_prefix_chars(&n, &head))
}

// ── learning a key back from a written file ─────────────────────────────────

pub open spec fn nonempty(s: Seq<char>) -> Option<Seq<char>> {
    if s.len() > 0 {
        Some(s)
    } else {
        None
    }
}

/// PCSX2: `<SERIAL> (<CRC>).<slot>.p2s` → `<SERIAL>`.
pub open spec fn learn_pcsx2_spec(name: Seq<char>) -> Option<Seq<char>> {
    match strip_suffix(name, ".p2s"@) {
        None => None,
        Some(rest) => match split_once_str(rest, " ("@) {
            None => None,
            Some((serial, _)) => nonempty(serial),
        },
    }
}

/// DuckStation: `<SERIAL>_<slot>.sav` → `<SERIAL>` (before the last `_`).
pub open spec fn learn_duckstation_spec(name: Seq<char>) -> Option<Seq<char>> {
    match strip_suffix(name, ".sav"@) {
        None => None,
        Some(rest) => match rsplit_once(rest, '_') {
            None => None,
            Some((serial, _)) => nonempty(serial),
        },
    }
}

/// Dolphin: `<GAMEID>.s<NN>` → `<GAMEID>`.
pub open spec fn learn_dolphin_spec(name: Seq<char>) -> Option<Seq<char>> {
    let idx = rfind_sub(name, ".s"@);
    if idx < 0 {
        None
    } else {
        let id = name.take(idx);
        let digits = name.skip(idx + 2);
        if id.len() > 0 && digits.len() > 0 && all_digits(digits) {
            Some(id)
        } else {
            None
        }
    }
}

/// Mupen64Plus: `<base>.st<N>`, or a battery save `<base>.eep|.mpk|.sra|.fla`
/// → `<base>`.
pub open spec fn learn_mupen_spec(name: Seq<char>) -> Option<Seq<char>> {
    let idx = rfind_sub(name, ".st"@);
    let digits = name.skip(idx + 3);
    if idx >= 0 && digits.len() > 0 && all_digits(digits) {
        Some(name.take(idx))
    } else {
        match strip_suffix(name, ".eep"@) {
            Some(b) => Some(b),
            None => match strip_suffix(name, ".mpk"@) {
                Some(b) => Some(b),
                None => match strip_suffix(name, ".sra"@) {
                    Some(b) => Some(b),
                    None => strip_suffix(name, ".fla"@),
                },
            },
        }
    }
}

pub open spec fn opt_view(o: Option<String>) -> Option<Seq<char>> {
    match o {
        Some(s) => Some(s@),
        None => None,
    }
}

/// The PCSX2 serial a written savestate is built on.
pub fn learn_pcsx2_serial(name: &str) -> (r: Option<String>)
    ensures
        opt_view(r) == learn_pcsx2_spec(name@),
{
    let n = chars_of(name);
    let rest = match strip_suffix_str(&n, ".p2s") {
        Some(r) => r,
        None => return None,
    };
    let pat = chars_of(" (");
    match split_once_str_vec(&rest, &pat) {
        None => None,
        Some((serial, _)) => if serial.len() > 0 {
            Some(string_of(&serial))
        } else {
            None
        },
    }
}

/// The DuckStation serial a written savestate is built on.
pub fn learn_duckstation_serial(name: &str) -> (r: Option<String>)
    ensures
        opt_view(r) == learn_duckstation_spec(name@),
{
    let n = chars_of(name);
    let rest = match strip_suffix_str(&n, ".sav") {
        Some(r) => r,
        None => return None,
    };
    match rfind_char_vec(&rest, '_') {
        None => None,
        Some(k) => {
            let serial = slice_of(&rest, 0, k);
            proof {
                assert(k < rest.len());
            }
            if serial.len() > 0 {
                Some(string_of(&serial))
            } else {
                None
            }
        },
    }
}

/// The Dolphin game id a written savestate is built on.
pub fn learn_dolphin_game_id(name: &str) -> (r: Option<String>)
    ensures
        opt_view(r) == learn_dolphin_spec(name@),
{
    let n = chars_of(name);
    let pat = chars_of(".s");
    proof {
        reveal_strlit(".s");
    }
    match rfind_sub_vec(&n, &pat) {
        None => None,
        Some(idx) => {
            let id = slice_of(&n, 0, idx);
            assert(idx + pat.len() <= n.len());
            let digits = slice_of(&n, idx + 2, n.len());
            if id.len() > 0 && digits.len() > 0 && all_digits_vec(&digits) {
                Some(string_of(&id))
            } else {
                None
            }
        },
    }
}

/// The Mupen64Plus `<GoodName>-<CRC>` base a written file is built on.
pub fn learn_mupen_base(name: &str) -> (r: Option<String>)
    ensures
        opt_view(r) == learn_mupen_spec(name@),
{
    let n = chars_of(name);
    let pat = chars_of(".st");
    proof {
        reveal_strlit(".st");
    }
    match rfind_sub_vec(&n, &pat) {
        Some(idx) => {
            assert(idx + pat.len() <= n.len());
            let digits = slice_of(&n, idx + 3, n.len());
            if digits.len() > 0 && all_digits_vec(&digits) {
                return Some(string_of(&slice_of(&n, 0, idx)));
            }
        },
        None => {},
    }
    match strip_suffix_str(&n, ".eep") {
        Some(b) => return Some(string_of(&b)),
        None => {},
    }
    match strip_suffix_str(&n, ".mpk") {
        Some(b) => return Some(string_of(&b)),
        None => {},
    }
    match strip_suffix_str(&n, ".sra") {
        Some(b) => return Some(string_of(&b)),
        None => {},
    }
    match strip_suffix_str(&n, ".fla") {
        Some(b) => Some(string_of(&b)),
        None => None,
    }
}

/// The slot of a savestate filename under an emulator's naming scheme.
pub open spec fn classify_slot(p: SlotParser, name: Seq<char>, key: Seq<char>) -> Option<i64> {
    match p {
        SlotParser::Pcsx2 => parse_pcsx2_spec(name, key),
        SlotParser::DuckStation => parse_duckstation_spec(name, key),
        SlotParser::Snes9x => parse_snes9x_spec(name, key),
        SlotParser::Mgba => parse_mgba_spec(name, key),
        SlotParser::Flycast => parse_flycast_spec(name, key),
        SlotParser::MelonDs => parse_melonds_spec(name, key),
        SlotParser::BlastEm => parse_blastem_spec(name),
        SlotParser::Mednafen => parse_mednafen_spec(name, key),
        SlotParser::Mesen => parse_mesen_spec(name, key),
        SlotParser::Dolphin => parse_dolphin_spec(name, key),
        SlotParser::Mupen => parse_mupen_spec(name, key),
    }
}

/// The slot of a savestate filename under a naming scheme.
pub fn classify_slot_exec(p: SlotParser, name: &str, key: &str) -> (r: Option<i64>)
    ensures
        r == classify_slot(p, name@, key@),
{
    match p {
        SlotParser::Pcsx2 => parse_pcsx2(name, key),
        SlotParser::DuckStation => parse_duckstation(name, key),
        SlotParser::Snes9x => parse_snes9x(name, key),
        SlotParser::Mgba => parse_mgba(name, key),
        SlotParser::Flycast => parse_flycast(name, key),
        SlotParser::MelonDs => parse_melonds(name, key),
        SlotParser::BlastEm => parse_blastem(name, key),
        SlotParser::Mednafen => parse_mednafen(name, key),
        SlotParser::Mesen => parse_mesen(name, key),
        SlotParser::Dolphin => parse_dolphin(name, key),
        SlotParser::Mupen => parse_mupen(name, key),
    }
}

/// The key a file an emulator wrote is built on.
pub open spec fn learn_key(l: KeyLearner, name: Seq<char>) -> Option<Seq<char>> {
    match l {
        KeyLearner::Pcsx2Serial => learn_pcsx2_spec(name),
        KeyLearner::DuckStationSerial => learn_duckstation_spec(name),
        KeyLearner::DolphinGameId => learn_dolphin_spec(name),
        KeyLearner::MupenBase => learn_mupen_spec(name),
    }
}

/// The key a file an emulator wrote is built on.
pub fn learn_key_exec(l: KeyLearner, name: &str) -> (r: Option<String>)
    ensures
        opt_view(r) == learn_key(l, name@),
{
    match l {
        KeyLearner::Pcsx2Serial => learn_pcsx2_serial(name),
        KeyLearner::DuckStationSerial => learn_duckstation_serial(name),
        KeyLearner::DolphinGameId => learn_dolphin_game_id(name),
        KeyLearner::MupenBase => learn_mupen_base(name),
    }
}

/// What a learned key was learned from parses back under the same emulator's
/// slot parser: for PCSX2, DuckStation and Dolphin, a key read back from a
/// numbered savestate file finds that file's slot.
pub proof fn law_learned_key_finds_slot_dolphin(id: Seq<char>, digits: Seq<char>)
    requires
        id.len() > 0,
        digits.len() > 0,
        all_digits(digits),
    ensures
        learn_dolphin_spec(id + ".s"@ + digits) == Some(id),
        parse_dolphin_spec(id + ".s"@ + digits, id) == digits_slot(digits),
{
    reveal_strlit(".s");
    let name = id + ".s"@ + digits;
    let idx = id.len() as int;
    assert(name.subrange(idx, idx + 2) =~= ".s"@);
    assert(occurs_at(name, ".s"@, idx));
    // no later occurrence: everything after idx + 1 is a digit
    assert forall|j: int| idx < j <= name.len() - 2 implies !occurs_at(name, ".s"@, j) by {
        if occurs_at(name, ".s"@, j) {
            assert(name.subrange(j, j + 2)[0] == name[j]);
            assert(".s"@[0] == '.');
            if j == idx + 1 {
                assert(name[j] == 's');
            } else {
                assert(name[j] == digits[j - idx - 2]);
                assert(is_digit(digits[j - idx - 2]));
            }
        }
    }
    lemma_rfind_sub_upto_at(name, ".s"@, name.len() - 2, idx);
    assert(name.take(idx) =~= id);
    assert(name.skip(idx + 2) =~= digits);
    assert(name.subrange(0, idx + 2) =~= id + ".s"@);
    assert(name.skip(idx + 2) =~= digits);
}


// ── hotkey configs ──────────────────────────────────────────────────────────

/// `str::split(c)`: every piece between occurrences of `c`, empty ones too.
pub open spec fn split_on(s: Seq<char>, c: char) -> Seq<Seq<char>>
    decreases s.len(),
{
    let k = find_char(s, c);
    if k < 0 {
        seq![s]
    } else {
        proof {
            lemma_find_char(s, c);
        }
        seq![s.take(k)] + split_on(s.skip(k + 1), c)
    }
}

/// `[..].join(sep)`.
pub open spec fn join_with(ls: Seq<Seq<char>>, sep: Seq<char>) -> Seq<char>
    decreases ls.len(),
{
    if ls.len() == 0 {
        seq![]
    } else if ls.len() == 1 {
        ls[0]
    } else {
        join_with(ls.drop_last(), sep) + sep + ls.last()
    }
}

/// The non-empty results of `f` over the pieces, in order.
pub open spec fn kept(ps: Seq<Seq<char>>, f: spec_fn(Seq<char>) -> Seq<char>) -> Seq<Seq<char>>
    decreases ps.len(),
{
    if ps.len() == 0 {
        seq![]
    } else {
        let prev = kept(ps.drop_last(), f);
        let n = f(ps.last());
        if n.len() > 0 {
            prev.push(n)
        } else {
            prev
        }
    }
}

/// One `Keyboard/<Key>` token of a PCSX2/DuckStation combo, normalized.
pub open spec fn device_token(tok: Seq<char>) -> Seq<char> {
    normalize_key_spec(trim(after_last(trim(tok), '/')))
}

/// PCSX2/DuckStation value form: `Keyboard/<Key>` tokens joined with `&`.
pub open spec fn device_combo_spec(raw: Seq<char>) -> Seq<char> {
    join_with(kept(split_on(raw, '&'), |t: Seq<char>| device_token(t)), " + "@)
}

/// `s` without any `c`.
pub open spec fn remove_char(s: Seq<char>, c: char) -> Seq<char>
    decreases s.len(),
{
    if s.len() == 0 {
        seq![]
    } else if s.last() == c {
        remove_char(s.drop_last(), c)
    } else {
        remove_char(s.drop_last(), c).push(s.last())
    }
}

/// Dolphin value form: backtick-wrapped keys joined with `&`.
pub open spec fn backtick_combo_spec(raw: Seq<char>) -> Seq<char> {
    join_with(
        kept(split_on(remove_char(raw, '`'), '&'), |t: Seq<char>| normalize_key_spec(trim(t))),
        " + "@,
    )
}

/// `s` with leading and trailing `"` removed.
pub open spec fn trim_quotes(s: Seq<char>) -> Seq<char>
    decreases s.len(),
{
    if s.len() > 0 && s[0] == '"' {
        trim_quotes(s.drop_first())
    } else if s.len() > 0 && s.last() == '"' {
        trim_quotes(s.drop_last())
    } else {
        s
    }
}

/// Mupen64Plus `[CoreEvents]` value: an SDL keysym, sometimes quoted.
pub open spec fn mupen_keysym_spec(raw: Seq<char>) -> Seq<char> {
    match parse_u32(trim_quotes(trim(raw))) {
        Some(n) => sdl_keysym_spec(n),
        None => seq![],
    }
}

/// The display name of a GTK accelerator modifier (lowercased); empty for an
/// unknown one.
pub open spec fn mod_label(name: Seq<char>) -> Seq<char> {
    if name == "shift"@ {
        "Shift"@
    } else if name == "control"@ || name == "ctrl"@ || name == "primary"@ {
        "Ctrl"@
    } else if name == "alt"@ || name == "mod1"@ {
        "Alt"@
    } else if name == "super"@ {
        "Super"@
    } else {
        seq![]
    }
}

/// The leading `<Mod>` groups of an accelerator: the known modifier labels in
/// order, and the text left after the last complete group.
pub open spec fn gtk_mods(rest: Seq<char>) -> (Seq<Seq<char>>, Seq<char>)
    decreases rest.len(),
{
    let open = find_char(rest, '<');
    if open < 0 {
        (seq![], rest)
    } else {
        proof {
            lemma_find_char(rest, '<');
            lemma_find_char(rest.skip(open), '>');
        }
        let close_rel = find_char(rest.skip(open), '>');
        if close_rel < 0 {
            (seq![], rest)
        } else {
            let label = mod_label(lower_str(rest.subrange(open + 1, open + close_rel)));
            let next = gtk_mods(rest.skip(open + close_rel + 1));
            (if label.len() > 0 {
                seq![label] + next.0
            } else {
                next.0
            }, next.1)
        }
    }
}

/// A GTK accelerator string (`<Shift><Control>F1`) as a display combo;
/// `Unset`/empty, or no key after the modifiers, is unbound.
pub open spec fn gtk_accel_spec(raw: Seq<char>) -> Seq<char> {
    let r = trim(raw);
    if r.len() == 0 || lower_str(r) == "unset"@ {
        seq![]
    } else {
        let (mods, rest) = gtk_mods(r);
        let key = normalize_key_spec(trim(rest));
        if key.len() == 0 {
            seq![]
        } else {
            join_with(mods.push(key), " + "@)
        }
    }
}

/// The value grammar of an INI hotkey section.
#[derive(Debug, Clone, Copy, PartialEq, Eq, Structural)]
pub enum ValueGrammar {
    DeviceCombo,
    BacktickCombo,
    MupenKeysym,
    GtkAccel,
}

pub open spec fn grammar_spec(g: ValueGrammar, v: Seq<char>) -> Seq<char> {
    match g {
        ValueGrammar::DeviceCombo => device_combo_spec(v),
        ValueGrammar::BacktickCombo => backtick_combo_spec(v),
        ValueGrammar::MupenKeysym => mupen_keysym_spec(v),
        ValueGrammar::GtkAccel => gtk_accel_spec(v),
    }
}

pub open spec fn keymap_views(v: Seq<(&'static str, HotkeyAction)>) -> Seq<(Seq<char>, HotkeyAction)> {
    v.map_values(|p: (&'static str, HotkeyAction)| (p.0@, p.1))
}

/// The action of the first keymap entry named `k`.
pub open spec fn keymap_find(km: Seq<(Seq<char>, HotkeyAction)>, k: Seq<char>) -> Option<HotkeyAction>
    decreases km.len(),
{
    if km.len() == 0 {
        None
    } else if km[0].0 == k {
        Some(km[0].1)
    } else {
        keymap_find(km.drop_first(), k)
    }
}

/// The bindings read from a section's `key = value` pairs: each key the
/// keymap names binds its action to the value's non-empty display form;
/// later lines win.
pub open spec fn hotkey_fold(
    pairs: Seq<(Seq<char>, Seq<char>)>,
    km: Seq<(Seq<char>, HotkeyAction)>,
    g: ValueGrammar,
) -> Map<HotkeyAction, Seq<char>>
    decreases pairs.len(),
{
    if pairs.len() == 0 {
        Map::empty()
    } else {
        let m = hotkey_fold(pairs.drop_last(), km, g);
        let (k, v) = pairs.last();
        match keymap_find(km, k) {
            Some(a) => {
                let b = grammar_spec(g, v);
                if b.len() > 0 {
                    m.insert(a, b)
                } else {
                    m
                }
            },
            None => m,
        }
    }
}

pub open spec fn pcsx2_keymap_spec() -> Seq<(Seq<char>, HotkeyAction)> {
    seq![("SaveStateToSlot"@, HotkeyAction::SaveState), ("LoadStateFromSlot"@, HotkeyAction::LoadState), ("NextSaveStateSlot"@, HotkeyAction::NextSlot), ("PreviousSaveStateSlot"@, HotkeyAction::PrevSlot), ("Screenshot"@, HotkeyAction::Screenshot), ("TogglePause"@, HotkeyAction::Pause), ("HoldTurbo"@, HotkeyAction::FastForwardHold), ("ToggleTurbo"@, HotkeyAction::FastForwardToggle), ("ToggleFullscreen"@, HotkeyAction::ToggleFullscreen), ("OpenPauseMenu"@, HotkeyAction::ToggleMenu)]
}

/// PCSX2 `[Hotkeys]` keys.
pub fn pcsx2_keymap() -> (r: Vec<(&'static str, HotkeyAction)>)
    ensures
        keymap_views(r@) == pcsx2_keymap_spec(),
{
    let r = vec![("SaveStateToSlot", HotkeyAction::SaveState), ("LoadStateFromSlot", HotkeyAction::LoadState), ("NextSaveStateSlot", HotkeyAction::NextSlot), ("PreviousSaveStateSlot", HotkeyAction::PrevSlot), ("Screenshot", HotkeyAction::Screenshot), ("TogglePause", HotkeyAction::Pause), ("HoldTurbo", HotkeyAction::FastForwardHold), ("ToggleTurbo", HotkeyAction::FastForwardToggle), ("ToggleFullscreen", HotkeyAction::ToggleFullscreen), ("OpenPauseMenu", HotkeyAction::ToggleMenu)];
    proof {
        assert(keymap_views(r@) =~= pcsx2_keymap_spec());
    }
    r
}

pub open spec fn duckstation_keymap_spec() -> Seq<(Seq<char>, HotkeyAction)> {
    seq![("SaveSelectedSaveState"@, HotkeyAction::SaveState), ("LoadSelectedSaveState"@, HotkeyAction::LoadState), ("SelectNextSaveStateSlot"@, HotkeyAction::NextSlot), ("SelectPreviousSaveStateSlot"@, HotkeyAction::PrevSlot), ("Screenshot"@, HotkeyAction::Screenshot), ("TogglePause"@, HotkeyAction::Pause), ("FastForward"@, HotkeyAction::FastForwardHold), ("ToggleFullscreen"@, HotkeyAction::ToggleFullscreen), ("OpenPauseMenu"@, HotkeyAction::ToggleMenu)]
}

/// DuckStation `[Hotkeys]` keys.
pub fn duckstation_keymap() -> (r: Vec<(&'static str, HotkeyAction)>)
    ensures
        keymap_views(r@) == duckstation_keymap_spec(),
{
    let r = vec![("SaveSelectedSaveState", HotkeyAction::SaveState), ("LoadSelectedSaveState", HotkeyAction::LoadState), ("SelectNextSaveStateSlot", HotkeyAction::NextSlot), ("SelectPreviousSaveStateSlot", HotkeyAction::PrevSlot), ("Screenshot", HotkeyAction::Screenshot), ("TogglePause", HotkeyAction::Pause), ("FastForward", HotkeyAction::FastForwardHold), ("ToggleFullscreen", HotkeyAction::ToggleFullscreen), ("OpenPauseMenu", HotkeyAction::ToggleMenu)];
    proof {
        assert(keymap_views(r@) =~= duckstation_keymap_spec());
    }
    r
}

pub open spec fn dolphin_keymap_spec() -> Seq<(Seq<char>, HotkeyAction)> {
    seq![("Save State/Save to Selected Slot"@, HotkeyAction::SaveState), ("Load State/Load from Selected Slot"@, HotkeyAction::LoadState), ("General/Take Screenshot"@, HotkeyAction::Screenshot), ("General/Toggle Pause"@, HotkeyAction::Pause), ("General/Toggle Fullscreen"@, HotkeyAction::ToggleFullscreen), ("General/Stop"@, HotkeyAction::Exit)]
}

/// Dolphin `[Hotkeys]` compound `Category/Name` keys.
pub fn dolphin_keymap() -> (r: Vec<(&'static str, HotkeyAction)>)
    ensures
        keymap_views(r@) == dolphin_keymap_spec(),
{
    let r = vec![("Save State/Save to Selected Slot", HotkeyAction::SaveState), ("Load State/Load from Selected Slot", HotkeyAction::LoadState), ("General/Take Screenshot", HotkeyAction::Screenshot), ("General/Toggle Pause", HotkeyAction::Pause), ("General/Toggle Fullscreen", HotkeyAction::ToggleFullscreen), ("General/Stop", HotkeyAction::Exit)];
    proof {
        assert(keymap_views(r@) =~= dolphin_keymap_spec());
    }
    r
}

pub open spec fn mupen_keymap_spec() -> Seq<(Seq<char>, HotkeyAction)> {
    seq![("Kbd Mapping Save State"@, HotkeyAction::SaveState), ("Kbd Mapping Load State"@, HotkeyAction::LoadState), ("Kbd Mapping Increment Slot"@, HotkeyAction::NextSlot), ("Kbd Mapping Screenshot"@, HotkeyAction::Screenshot), ("Kbd Mapping Pause"@, HotkeyAction::Pause), ("Kbd Mapping Fast Forward"@, HotkeyAction::FastForwardHold), ("Kbd Mapping Reset"@, HotkeyAction::Reset), ("Kbd Mapping Stop"@, HotkeyAction::Exit), ("Kbd Mapping Fullscreen"@, HotkeyAction::ToggleFullscreen)]
}

/// Mupen64Plus `[CoreEvents]` keys.
pub fn mupen_keymap() -> (r: Vec<(&'static str, HotkeyAction)>)
    ensures
        keymap_views(r@) == mupen_keymap_spec(),
{
    let r = vec![("Kbd Mapping Save State", HotkeyAction::SaveState), ("Kbd Mapping Load State", HotkeyAction::LoadState), ("Kbd Mapping Increment Slot", HotkeyAction::NextSlot), ("Kbd Mapping Screenshot", HotkeyAction::Screenshot), ("Kbd Mapping Pause", HotkeyAction::Pause), ("Kbd Mapping Fast Forward", HotkeyAction::FastForwardHold), ("Kbd Mapping Reset", HotkeyAction::Reset), ("Kbd Mapping Stop", HotkeyAction::Exit), ("Kbd Mapping Fullscreen", HotkeyAction::ToggleFullscreen)];
    proof {
        assert(keymap_views(r@) =~= mupen_keymap_spec());
    }
    r
}

pub open spec fn mednafen_keymap_spec() -> Seq<(Seq<char>, HotkeyAction)> {
    seq![("command.save_state"@, HotkeyAction::SaveState), ("command.load_state"@, HotkeyAction::LoadState), ("command.state_slot_inc"@, HotkeyAction::NextSlot), ("command.state_slot_dec"@, HotkeyAction::PrevSlot), ("command.take_snapshot"@, HotkeyAction::Screenshot), ("command.pause"@, HotkeyAction::Pause), ("command.fast_forward"@, HotkeyAction::FastForwardHold), ("command.reset"@, HotkeyAction::Reset), ("command.exit"@, HotkeyAction::Exit)]
}

/// Mednafen `command.<action>` settings.
pub fn mednafen_keymap() -> (r: Vec<(&'static str, HotkeyAction)>)
    ensures
        keymap_views(r@) == mednafen_keymap_spec(),
{
    let r = vec![("command.save_state", HotkeyAction::SaveState), ("command.load_state", HotkeyAction::LoadState), ("command.state_slot_inc", HotkeyAction::NextSlot), ("command.state_slot_dec", HotkeyAction::PrevSlot), ("command.take_snapshot", HotkeyAction::Screenshot), ("command.pause", HotkeyAction::Pause), ("command.fast_forward", HotkeyAction::FastForwardHold), ("command.reset", HotkeyAction::Reset), ("command.exit", HotkeyAction::Exit)];
    proof {
        assert(keymap_views(r@) =~= mednafen_keymap_spec());
    }
    r
}

pub open spec fn snes9x_keymap_spec() -> Seq<(Seq<char>, HotkeyAction)> {
    seq![("GTK_state_save_current"@, HotkeyAction::SaveState), ("GTK_state_load_current"@, HotkeyAction::LoadState), ("GTK_state_increment"@, HotkeyAction::NextSlot), ("GTK_state_decrement"@, HotkeyAction::PrevSlot), ("Screenshot"@, HotkeyAction::Screenshot), ("GTK_pause"@, HotkeyAction::Pause), ("GTK_fullscreen"@, HotkeyAction::ToggleFullscreen), ("GTK_rewind"@, HotkeyAction::Rewind), ("GTK_quit"@, HotkeyAction::Exit)]
}

/// snes9x-gtk `[Shortcuts]` keys.
pub fn snes9x_keymap() -> (r: Vec<(&'static str, HotkeyAction)>)
    ensures
        keymap_views(r@) == snes9x_keymap_spec(),
{
    let r = vec![("GTK_state_save_current", HotkeyAction::SaveState), ("GTK_state_load_current", HotkeyAction::LoadState), ("GTK_state_increment", HotkeyAction::NextSlot), ("GTK_state_decrement", HotkeyAction::PrevSlot), ("Screenshot", HotkeyAction::Screenshot), ("GTK_pause", HotkeyAction::Pause), ("GTK_fullscreen", HotkeyAction::ToggleFullscreen), ("GTK_rewind", HotkeyAction::Rewind), ("GTK_quit", HotkeyAction::Exit)];
    proof {
        assert(keymap_views(r@) =~= snes9x_keymap_spec());
    }
    r
}

fn split_on_vec(s: &Vec<char>, c: char) -> (r: Vec<Vec<char>>)
    ensures
        views(r@) == split_on(s@, c),
{
    let mut out: Vec<Vec<char>> = Vec::new();
    let mut start: usize = 0;
    proof {
        assert(s@.skip(0) =~= s@);
    }
    loop
        invariant
            start <= s.len(),
            split_on(s@, c) == views(out@) + split_on(s@.skip(start as int), c),
        decreases s.len() - start,
    {
        let ghost t = s@.skip(start as int);
        match find_from(s, c, start) {
            Some(k) => {
                proof {
                    lemma_find_char_at(t, c, k - start);
                    assert(t.take(k - start) =~= s@.subrange(start as int, k as int));
                    assert(t.skip(k - start + 1) =~= s@.skip(k + 1));
                }
                let piece = slice_of(s, start, k);
                let ghost before = views(out@);
                out.push(piece);
                proof {
                    assert(views(out@) =~= before.push(piece@));
                    assert(views(out@) + split_on(s@.skip(k + 1), c) =~= before + (seq![piece@]
                        + split_on(s@.skip(k + 1), c)));
                }
                start = k + 1;
            },
            None => {
                proof {
                    lemma_find_char_at(t, c, t.len() as int);
                    assert(t =~= s@.subrange(start as int, s.len() as int));
                }
                let piece = slice_of(s, start, s.len());
                let ghost before = views(out@);
                out.push(piece);
                proof {
                    assert(views(out@) =~= before.push(piece@));
                    assert(views(out@) =~= before + split_on(t, c));
                }
                return out;
            },
        }
    }
}

pub fn join_with_vec(ls: &Vec<Vec<char>>, sep: &str) -> (r: Vec<char>)
    ensures
        r@ == join_with(views(ls@), sep@),
{
    let mut out: Vec<char> = Vec::new();
    if ls.len() == 0 {
        return out;
    }
    push_all(&mut out, &ls[0]);
    proof {
        assert(views(ls@).take(1).len() == 1);
        assert(out@ == join_with(views(ls@).take(1), sep@));
    }
    let mut i: usize = 1;
    while i < ls.len()
        invariant
            1 <= i <= ls.len(),
            out@ == join_with(views(ls@).take(i as int), sep@),
        decreases ls.len() - i,
    {
        push_str(&mut out, sep);
        push_all(&mut out, &ls[i]);
        proof {
            let v = views(ls@);
            assert(v.take(i + 1).drop_last() =~= v.take(i as int));
            assert(out@ =~= join_with(v.take(i as int), sep@) + sep@ + v[i as int]);
        }
        i += 1;
    }
    proof {
        assert(views(ls@).take(ls.len() as int) =~= views(ls@));
    }
    out
}

fn device_token_vec(tok: &Vec<char>) -> (r: Vec<char>)
    ensures
        r@ == device_token(tok@),
{
    let t = trim_vec(tok);
    let last = after_last_vec(&t, '/');
    let k = trim_vec(&last);
    normalize_key_chars(&k)
}

fn backtick_token_vec(tok: &Vec<char>) -> (r: Vec<char>)
    ensures
        r@ == normalize_key_spec(trim(tok@)),
{
    let t = trim_vec(tok);
    normalize_key_chars(&t)
}

/// PCSX2/DuckStation value form `Keyboard/<Key>` (combos joined with ` & `):
/// drop each token's device prefix, normalize, and re-join with ` + `. Empty
/// when no token survives.
pub fn parse_device_combo(raw: &str) -> (r: String)
    ensures
        r@ == device_combo_spec(raw@),
{
    let rc = chars_of(raw);
    let pieces = split_on_vec(&rc, '&');
    let ghost f = |t: Seq<char>| device_token(t);
    let mut keep: Vec<Vec<char>> = Vec::new();
    let mut i: usize = 0;
    while i < pieces.len()
        invariant
            i <= pieces.len(),
            f == (|t: Seq<char>| device_token(t)),
            views(keep@) == kept(views(pieces@).take(i as int), f),
        decreases pieces.len() - i,
    {
        let n = device_token_vec(&pieces[i]);
        proof {
            assert(views(pieces@).take(i + 1).drop_last() =~= views(pieces@).take(i as int));
            assert(f(views(pieces@)[i as int]) == n@);
        }
        let ghost before = views(keep@);
        if n.len() > 0 {
            keep.push(n);
            proof {
                assert(views(keep@) =~= before.push(n@));
            }
        }
        i += 1;
    }
    proof {
        assert(views(pieces@).take(pieces.len() as int) =~= views(pieces@));
    }
    string_of(&join_with_vec(&keep, " + "))
}

fn remove_char_vec(s: &Vec<char>, c: char) -> (r: Vec<char>)
    ensures
        r@ == remove_char(s@, c),
{
    let mut out: Vec<char> = Vec::new();
    let mut i: usize = 0;
    while i < s.len()
        invariant
            i <= s.len(),
            out@ == remove_char(s@.take(i as int), c),
        decreases s.len() - i,
    {
        proof {
            assert(s@.take(i + 1).drop_last() =~= s@.take(i as int));
        }
        if s[i] != c {
            out.push(s[i]);
        }
        i += 1;
    }
    proof {
        assert(s@.take(s.len() as int) =~= s@);
    }
    out
}

/// Dolphin value form: strip backticks, split on `&`, normalize, re-join with
/// ` + `.
pub fn parse_backtick_combo(raw: &str) -> (r: String)
    ensures
        r@ == backtick_combo_spec(raw@),
{
    let rc = chars_of(raw);
    let clean = remove_char_vec(&rc, '`');
    let pieces = split_on_vec(&clean, '&');
    let ghost f = |t: Seq<char>| normalize_key_spec(trim(t));
    let mut keep: Vec<Vec<char>> = Vec::new();
    let mut i: usize = 0;
    while i < pieces.len()
        invariant
            i <= pieces.len(),
            f == (|t: Seq<char>| normalize_key_spec(trim(t))),
            views(keep@) == kept(views(pieces@).take(i as int), f),
        decreases pieces.len() - i,
    {
        let n = backtick_token_vec(&pieces[i]);
        proof {
            assert(views(pieces@).take(i + 1).drop_last() =~= views(pieces@).take(i as int));
            assert(f(views(pieces@)[i as int]) == n@);
        }
        let ghost before = views(keep@);
        if n.len() > 0 {
            keep.push(n);
            proof {
                assert(views(keep@) =~= before.push(n@));
            }
        }
        i += 1;
    }
    proof {
        assert(views(pieces@).take(pieces.len() as int) =~= views(pieces@));
    }
    string_of(&join_with_vec(&keep, " + "))
}

fn trim_quotes_vec(s: &Vec<char>) -> (r: Vec<char>)
    ensures
        r@ == trim_quotes(s@),
{
    let mut lo: usize = 0;
    let mut hi: usize = s.len();
    proof {
        assert(s@.subrange(0, s.len() as int) =~= s@);
    }
    while lo < hi && (s[lo] == '"' || s[hi - 1] == '"')
        invariant
            lo <= hi <= s.len(),
            trim_quotes(s@) == trim_quotes(s@.subrange(lo as int, hi as int)),
        decreases hi - lo,
    {
        if s[lo] == '"' {
            proof {
                assert(s@.subrange(lo as int, hi as int).drop_first() =~= s@.subrange(
                    lo + 1,
                    hi as int,
                ));
            }
            lo += 1;
        } else {
            proof {
                assert(s@.subrange(lo as int, hi as int).drop_last() =~= s@.subrange(
                    lo as int,
                    hi - 1,
                ));
            }
            hi -= 1;
        }
    }
    slice_of(s, lo, hi)
}

/// Mupen64Plus `[CoreEvents]`: an SDL keysym integer (sometimes quoted),
/// translated; `0`/unknown yields empty so the default shows.
pub fn parse_mupen_keysym(raw: &str) -> (r: String)
    ensures
        r@ == mupen_keysym_spec(raw@),
{
    let rc = chars_of(raw);
    let t = trim_vec(&rc);
    let q = trim_quotes_vec(&t);
    match parse_u32_vec(&q) {
        Some(n) => sdl_keysym_name(n),
        None => string_of(&Vec::new()),
    }
}

fn mod_label_vec(name: &Vec<char>) -> (r: Vec<char>)
    ensures
        r@ == mod_label(name@),
{
    if eq_str(name, "shift") {
        chars_of("Shift")
    } else if eq_str(name, "control") || eq_str(name, "ctrl") || eq_str(name, "primary") {
        chars_of("Ctrl")
    } else if eq_str(name, "alt") || eq_str(name, "mod1") {
        chars_of("Alt")
    } else if eq_str(name, "super") {
        chars_of("Super")
    } else {
        let e: Vec<char> = Vec::new();
        proof {
            assert(e@ =~= Seq::<char>::empty());
        }
        e
    }
}

/// A GTK accelerator string (`<Shift><Control>F1`, `<Control>s`, `F5`): the
/// leading `<Mod>` tokens, then the normalized key, joined with ` + `.
/// `Unset`/empty → empty (unbound).
pub fn parse_gtk_accel(raw: &str) -> (r: String)
    ensures
        r@ == gtk_accel_spec(raw@),
{
    let rc = chars_of(raw);
    let r = trim_vec(&rc);
    let lr = lower_vec(&r);
    if r.len() == 0 || eq_str(&lr, "unset") {
        return string_of(&Vec::new());
    }
    let mut mods: Vec<Vec<char>> = Vec::new();
    let mut rest = r;
    loop
        invariant
            gtk_mods(r@) == (views(mods@) + gtk_mods(rest@).0, gtk_mods(rest@).1),
        ensures
            gtk_mods(r@).0 == views(mods@),
            gtk_mods(r@).1 == rest@,
        decreases rest.len(),
    {
        let open = match find_char_vec(&rest, '<') {
            Some(o) => o,
            None => {
                proof {
                    assert(views(mods@) + Seq::<Seq<char>>::empty() =~= views(mods@));
                }
                break;
            },
        };
        proof {
            lemma_find_char(rest@, '<');
        }
        let tail = slice_of(&rest, open, rest.len());
        let close_rel = match find_char_vec(&tail, '>') {
            Some(c) => c,
            None => {
                proof {
                    assert(tail@ =~= rest@.skip(open as int));
                    assert(views(mods@) + Seq::<Seq<char>>::empty() =~= views(mods@));
                }
                break;
            },
        };
        proof {
            assert(tail@ =~= rest@.skip(open as int));
            assert(close_rel >= 1) by {
                assert(tail@[0] == '<');
            }
        }
        let name = slice_of(&rest, open + 1, open + close_rel);
        let lname = lower_vec(&name);
        let label = mod_label_vec(&lname);
        let next = slice_of(&rest, open + close_rel + 1, rest.len());
        let ghost before = views(mods@);
        if label.len() > 0 {
            mods.push(label);
            proof {
                assert(views(mods@) =~= before.push(label@));
                assert(views(mods@) + gtk_mods(next@).0 =~= before + (seq![label@] + gtk_mods(
                    next@,
                ).0));
            }
        }
        proof {
            assert(next@ =~= rest@.skip(open + close_rel + 1));
        }
        rest = next;
    }
    let tr = trim_vec(&rest);
    let key = normalize_key_chars(&tr);
    if key.len() == 0 {
        return string_of(&Vec::new());
    }
    let ghost mv = views(mods@);
    mods.push(key);
    proof {
        assert(views(mods@) =~= mv.push(key@));
    }
    string_of(&join_with_vec(&mods, " + "))
}

fn grammar_exec(g: ValueGrammar, v: &str) -> (r: String)
    ensures
        r@ == grammar_spec(g, v@),
{
    match g {
        ValueGrammar::DeviceCombo => parse_device_combo(v),
        ValueGrammar::BacktickCombo => parse_backtick_combo(v),
        ValueGrammar::MupenKeysym => parse_mupen_keysym(v),
        ValueGrammar::GtkAccel => parse_gtk_accel(v),
    }
}

fn keymap_find_exec(km: &Vec<(&'static str, HotkeyAction)>, k: &String) -> (r: Option<HotkeyAction>)
    ensures
        r == keymap_find(keymap_views(km@), k@),
{
    let kc = chars_of(k.as_str());
    let ghost s = keymap_views(km@);
    let mut i: usize = 0;
    proof {
        assert(s.skip(0) =~= s);
    }
    while i < km.len()
        invariant
            i <= km.len(),
            s == keymap_views(km@),
            kc@ == k@,
            keymap_find(s, k@) == keymap_find(s.skip(i as int), k@),
        decreases km.len() - i,
    {
        let (name, action) = km[i];
        proof {
            assert(s.skip(i as int)[0] == (name@, action));
            assert(s.skip(i as int).drop_first() =~= s.skip(i + 1));
        }
        if eq_str(&kc, name) {
            return Some(action);
        }
        i += 1;
    }
    None
}

/// Scan a `[section]` of an INI config, matching each key against `keymap`
/// and reading its value with `grammar`; empty bindings are skipped.
pub fn map_ini_hotkeys(
    text: &str,
    section: &str,
    keymap: &Vec<(&'static str, HotkeyAction)>,
    grammar: ValueGrammar,
) -> (r: HotkeyMap)
    ensures
        r.wf(),
        r.bindings() == hotkey_fold(
            ini_pairs_scan(lines(text@), section@, false),
            keymap_views(keymap@),
            grammar,
        ),
{
    let pairs = ini_section_pairs(text, section);
    let ghost ps = pair_views(pairs@);
    let mut out = HotkeyMap::new();
    let mut i: usize = 0;
    while i < pairs.len()
        invariant
            i <= pairs.len(),
            ps == pair_views(pairs@),
            out.wf(),
            out.bindings() == hotkey_fold(ps.take(i as int), keymap_views(keymap@), grammar),
        decreases pairs.len() - i,
    {
        proof {
            assert(ps.take(i + 1).drop_last() =~= ps.take(i as int));
            assert(ps.take(i + 1).last() == ps[i as int]);
        }
        let (k, v) = &pairs[i];
        match keymap_find_exec(keymap, k) {
            Some(action) => {
                let binding = grammar_exec(grammar, v.as_str());
                if !binding.as_str().is_empty() {
                    out.insert(action, binding);
                }
            },
            None => {},
        }
        i += 1;
    }
    proof {
        assert(ps.take(pairs.len() as int) =~= ps);
    }
    out
}

/// PCSX2 `[Hotkeys]` in `PCSX2.ini`.
pub fn parse_pcsx2_hotkeys(text: &str) -> (r: HotkeyMap)
    ensures
        r.wf(),
        r.bindings() == hotkey_fold(
            ini_pairs_scan(lines(text@), "Hotkeys"@, false),
            pcsx2_keymap_spec(),
            ValueGrammar::DeviceCombo,
        ),
{
    map_ini_hotkeys(text, "Hotkeys", &pcsx2_keymap(), ValueGrammar::DeviceCombo)
}

/// DuckStation `[Hotkeys]` in `settings.ini` (PCSX2's value grammar).
pub fn parse_duckstation_hotkeys(text: &str) -> (r: HotkeyMap)
    ensures
        r.wf(),
        r.bindings() == hotkey_fold(
            ini_pairs_scan(lines(text@), "Hotkeys"@, false),
            duckstation_keymap_spec(),
            ValueGrammar::DeviceCombo,
        ),
{
    map_ini_hotkeys(text, "Hotkeys", &duckstation_keymap(), ValueGrammar::DeviceCombo)
}

/// Dolphin `[Hotkeys]` in `Hotkeys.ini`.
pub fn parse_dolphin_hotkeys(text: &str) -> (r: HotkeyMap)
    ensures
        r.wf(),
        r.bindings() == hotkey_fold(
            ini_pairs_scan(lines(text@), "Hotkeys"@, false),
            dolphin_keymap_spec(),
            ValueGrammar::BacktickCombo,
        ),
{
    map_ini_hotkeys(text, "Hotkeys", &dolphin_keymap(), ValueGrammar::BacktickCombo)
}

/// Mupen64Plus `[CoreEvents]` in `mupen64plus.cfg`.
pub fn parse_mupen_hotkeys(text: &str) -> (r: HotkeyMap)
    ensures
        r.wf(),
        r.bindings() == hotkey_fold(
            ini_pairs_scan(lines(text@), "CoreEvents"@, false),
            mupen_keymap_spec(),
            ValueGrammar::MupenKeysym,
        ),
{
    map_ini_hotkeys(text, "CoreEvents", &mupen_keymap(), ValueGrammar::MupenKeysym)
}

/// snes9x-gtk `[Shortcuts]` (override-only: no compiled defaults).
pub fn parse_snes9x_hotkeys(text: &str) -> (r: HotkeyMap)
    ensures
        r.wf(),
        r.bindings() == hotkey_fold(
            ini_pairs_scan(lines(text@), "Shortcuts"@, false),
            snes9x_keymap_spec(),
            ValueGrammar::GtkAccel,
        ),
{
    map_ini_hotkeys(text, "Shortcuts", &snes9x_keymap(), ValueGrammar::GtkAccel)
}

/// One `mednafen.cfg` line's effect: `command.<action> keyboard ... <scancode>`
/// binds the action to the scancode's name.
pub open spec fn mednafen_hotkey_step(m: Map<HotkeyAction, Seq<char>>, line: Seq<char>) -> Map<
    HotkeyAction,
    Seq<char>,
> {
    let w = words(line);
    if w.len() == 0 {
        m
    } else {
        match keymap_find(mednafen_keymap_spec(), w[0]) {
            None => m,
            Some(a) => {
                let rest = w.drop_first();
                if rest.len() == 0 || rest[0] != "keyboard"@ {
                    m
                } else {
                    match parse_u32(rest.last()) {
                        Some(code) => {
                            let b = sdl_scancode_spec(code);
                            if b.len() > 0 {
                                m.insert(a, b)
                            } else {
                                m
                            }
                        },
                        None => m,
                    }
                }
            },
        }
    }
}

pub open spec fn mednafen_hotkey_fold(ls: Seq<Seq<char>>) -> Map<HotkeyAction, Seq<char>>
    decreases ls.len(),
{
    if ls.len() == 0 {
        Map::empty()
    } else {
        mednafen_hotkey_step(mednafen_hotkey_fold(ls.drop_last()), ls.last())
    }
}

/// Mednafen's flat `command.<action> keyboard 0x0 <SDL scancode>` lines.
pub fn parse_mednafen_hotkeys(text: &str) -> (r: HotkeyMap)
    ensures
        r.wf(),
        r.bindings() == mednafen_hotkey_fold(lines(text@)),
{
    let km = mednafen_keymap();
    let t = chars_of(text);
    let ls = lines_vec(&t);
    let ghost l0 = views(ls@);
    let mut out = HotkeyMap::new();
    let mut i: usize = 0;
    while i < ls.len()
        invariant
            i <= ls.len(),
            views(ls@) == l0,
            l0 == lines(text@),
            keymap_views(km@) == mednafen_keymap_spec(),
            out.wf(),
            out.bindings() == mednafen_hotkey_fold(l0.take(i as int)),
        decreases ls.len() - i,
    {
        proof {
            assert(l0.take(i + 1).drop_last() =~= l0.take(i as int));
            assert(l0.take(i + 1).last() == l0[i as int]);
        }
        let w = words_vec(&ls[i]);
        if w.len() > 0 {
            proof {
                assert(views(w@)[0] == w@[0]@);
            }
            let key = string_of(&w[0]);
            match keymap_find_exec(&km, &key) {
                None => {},
                Some(action) => {
                    let n = w.len();
                    if n >= 2 && eq_str(&w[1], "keyboard") {
                        proof {
                            assert(views(w@).drop_first()[0] == w@[1]@);
                            assert(views(w@).drop_first().last() == w@[n - 1]@);
                        }
                        match parse_u32_vec(&w[n - 1]) {
                            Some(code) => {
                                let binding = sdl_scancode_name(code);
                                if !binding.as_str().is_empty() {
                                    out.insert(action, binding);
                                }
                            },
                            None => {},
                        }
                    } else {
                        proof {
                            if n >= 2 {
                                assert(views(w@).drop_first()[0] == w@[1]@);
                            }
                        }
                    }
                },
            }
        }
        i += 1;
    }
    proof {
        assert(l0.take(ls.len() as int) =~= l0);
    }
    out
}

/// The hotkeys an emulator's config text binds, by its grammar; an emulator
/// whose overrides aren't read binds nothing.
pub open spec fn parse_hotkeys_spec(p: HotkeyParser, text: Seq<char>) -> Map<HotkeyAction, Seq<char>> {
    match p {
        HotkeyParser::Snes9xShortcuts => hotkey_fold(
            ini_pairs_scan(lines(text), "Shortcuts"@, false),
            snes9x_keymap_spec(),
            ValueGrammar::GtkAccel,
        ),
        HotkeyParser::NoOverrides => Map::empty(),
        HotkeyParser::MupenCoreEvents => hotkey_fold(
            ini_pairs_scan(lines(text), "CoreEvents"@, false),
            mupen_keymap_spec(),
            ValueGrammar::MupenKeysym,
        ),
        HotkeyParser::DolphinHotkeys => hotkey_fold(
            ini_pairs_scan(lines(text), "Hotkeys"@, false),
            dolphin_keymap_spec(),
            ValueGrammar::BacktickCombo,
        ),
        HotkeyParser::Pcsx2Hotkeys => hotkey_fold(
            ini_pairs_scan(lines(text), "Hotkeys"@, false),
            pcsx2_keymap_spec(),
            ValueGrammar::DeviceCombo,
        ),
        HotkeyParser::DuckStationHotkeys => hotkey_fold(
            ini_pairs_scan(lines(text), "Hotkeys"@, false),
            duckstation_keymap_spec(),
            ValueGrammar::DeviceCombo,
        ),
        HotkeyParser::MednafenCommands => mednafen_hotkey_fold(lines(text)),
    }
}

/// For emulators whose config stores overrides in a form not read (mGBA's Qt
/// keycodes): nothing, leaning entirely on the defaults table.
pub fn no_hotkey_overrides(text: &str) -> (r: HotkeyMap)
    ensures
        r.wf(),
        r.bindings() == Map::<HotkeyAction, Seq<char>>::empty(),
{
    HotkeyMap::new()
}

pub fn parse_hotkeys(p: HotkeyParser, text: &str) -> (r: HotkeyMap)
    ensures
        r.wf(),
        r.bindings() == parse_hotkeys_spec(p, text@),
{
    match p {
        HotkeyParser::Snes9xShortcuts => parse_snes9x_hotkeys(text),
        HotkeyParser::NoOverrides => no_hotkey_overrides(text),
        HotkeyParser::MupenCoreEvents => parse_mupen_hotkeys(text),
        HotkeyParser::DolphinHotkeys => parse_dolphin_hotkeys(text),
        HotkeyParser::Pcsx2Hotkeys => parse_pcsx2_hotkeys(text),
        HotkeyParser::DuckStationHotkeys => parse_duckstation_hotkeys(text),
        HotkeyParser::MednafenCommands => parse_mednafen_hotkeys(text),
    }
}

pub open spec fn defaults_spec(t: DefaultsTable) -> Seq<(HotkeyAction, Seq<char>)> {
    match t {
        DefaultsTable::Empty => seq![],
        DefaultsTable::Mgba => mgba_defaults_spec(),
        DefaultsTable::Mupen => mupen_defaults_spec(),
        DefaultsTable::Dolphin => dolphin_defaults_spec(),
        DefaultsTable::Pcsx2 => pcsx2_defaults_spec(),
        DefaultsTable::DuckStation => duckstation_defaults_spec(),
        DefaultsTable::Mednafen => mednafen_defaults_spec(),
    }
}

pub fn defaults_for(t: DefaultsTable) -> (r: Vec<(HotkeyAction, &'static str)>)
    ensures
        default_views(r@) == defaults_spec(t),
{
    match t {
        DefaultsTable::Empty => {
            let r: Vec<(HotkeyAction, &'static str)> = Vec::new();
            proof {
                assert(default_views(r@) =~= Seq::<(HotkeyAction, Seq<char>)>::empty());
            }
            r
        },
        DefaultsTable::Mgba => mgba_defaults(),
        DefaultsTable::Mupen => mupen_defaults(),
        DefaultsTable::Dolphin => dolphin_defaults(),
        DefaultsTable::Pcsx2 => pcsx2_defaults(),
        DefaultsTable::DuckStation => duckstation_defaults(),
        DefaultsTable::Mednafen => mednafen_defaults(),
    }
}

impl StandaloneAdapter {
    /// The emulator's hotkeys from its config text (`None` when the file is
    /// missing or unreadable), overlaid on its documented defaults. Empty for
    /// an emulator whose hotkeys aren't read.
    pub fn hotkeys_from_config(&self, text: Option<&str>) -> (r: Vec<EmulatorHotkey>)
        ensures
            match self.spec.hotkeys {
                None => r@.len() == 0,
                Some(h) => {
                    let parsed = match text {
                        Some(t) => parse_hotkeys_spec(h.parser, t@),
                        None => Map::empty(),
                    };
                    &&& r@.len() == defaults_spec(h.defaults).len()
                    &&& forall|i: int|
                        0 <= i < r@.len() ==> hotkey_view(#[trigger] r@[i]) == overlay_row(
                            defaults_spec(h.defaults)[i],
                            parsed,
                        )
                },
            },
    {
        match self.spec.hotkeys {
            None => Vec::new(),
            Some(h) => {
                let parsed = match text {
                    Some(t) => parse_hotkeys(h.parser, t),
                    None => HotkeyMap::new(),
                };
                let d = defaults_for(h.defaults);
                overlay_defaults(&d, &parsed)
            },
        }
    }
}


// ── where an emulator keeps its files ──────────────────────────────────────

pub open spec fn opt_seq(o: Option<&str>) -> Option<Seq<char>> {
    match o {
        Some(s) => Some(s@),
        None => None,
    }
}

/// The XDG config (`config`) or data base directory under `home`, redirected
/// into the Flatpak's own `~/.var/app/<id>/config` (or `data`) when the
/// emulator is a Flatpak.
pub open spec fn xdg_base_spec(home: Seq<char>, app: Option<Seq<char>>, config: bool) -> Seq<char> {
    match app {
        Some(a) => crate::paths::join_rel(
            crate::paths::join_rel(crate::paths::join_rel(home, ".var/app"@), a),
            if config {
                "config"@
            } else {
                "data"@
            },
        ),
        None => crate::paths::join_rel(
            home,
            if config {
                ".config"@
            } else {
                ".local/share"@
            },
        ),
    }
}

/// The XDG config or data base directory of an emulator.
pub fn xdg_base(home: &str, flatpak_app_id: Option<&str>, config: bool) -> (r: String)
    ensures
        r@ == xdg_base_spec(home@, opt_seq(flatpak_app_id), config),
{
    match flatpak_app_id {
        Some(a) => {
            let app_dir = crate::paths::join_path(crate::paths::join_path(home, ".var/app").as_str(), a);
            if config {
                crate::paths::join_path(app_dir.as_str(), "config")
            } else {
                crate::paths::join_path(app_dir.as_str(), "data")
            }
        },
        None => if config {
            crate::paths::join_path(home, ".config")
        } else {
            crate::paths::join_path(home, ".local/share")
        },
    }
}

/// The directory an emulator keeps a game's savestates in, or `None` when it
/// cannot be named (no home directory, a ROM path without a parent or stem).
pub open spec fn state_dir_spec(
    loc: StateLocation,
    home: Option<Seq<char>>,
    app: Option<Seq<char>>,
    rom: Seq<char>,
) -> Option<Seq<char>> {
    match loc {
        StateLocation::RomDir => {
            let p = crate::pathname::std_parent_text(rom);
            if p.len() > 0 {
                Some(p)
            } else {
                None
            }
        },
        StateLocation::Config(sub) => match home {
            Some(h) => Some(crate::paths::join_rel(xdg_base_spec(h, app, true), sub@)),
            None => None,
        },
        StateLocation::Data(sub) => match home {
            Some(h) => Some(crate::paths::join_rel(xdg_base_spec(h, app, false), sub@)),
            None => None,
        },
        StateLocation::DataPerGame(sub) => match (home, crate::pathname::file_stem(rom)) {
            (Some(h), Some(st)) => Some(
                crate::paths::join_rel(crate::paths::join_rel(xdg_base_spec(h, app, false), sub@), st),
            ),
            _ => None,
        },
        StateLocation::Home(sub) => match home {
            Some(h) => Some(crate::paths::join_rel(h, sub@)),
            None => None,
        },
    }
}

/// The name an emulator keys a game's savestates by: the ROM's stem, or the
/// game's resolved disc key.
pub open spec fn state_key_spec(k: KeyKind, rom: Seq<char>, disc_key: Option<Seq<char>>) -> Option<Seq<char>> {
    match k {
        KeyKind::Stem => crate::pathname::file_stem(rom),
        KeyKind::DiscKey => disc_key,
    }
}

impl SaveStateScheme {
    /// The savestate directory for a ROM.
    pub fn dir(&self, home: Option<&str>, flatpak_app_id: Option<&str>, rom_path: &str) -> (r: Option<String>)
        ensures
            match r {
                Some(d) => state_dir_spec(self.location, opt_seq(home), opt_seq(flatpak_app_id), rom_path@)
                    == Some(d@),
                None => state_dir_spec(self.location, opt_seq(home), opt_seq(flatpak_app_id), rom_path@) is None,
            },
    {
        match self.location {
            StateLocation::RomDir => {
                let p = crate::pathname::parent_text(rom_path);
                if chars_of(p.as_str()).len() > 0 {
                    Some(p)
                } else {
                    None
                }
            },
            StateLocation::Config(sub) => match home {
                Some(h) => Some(crate::paths::join_path(xdg_base(h, flatpak_app_id, true).as_str(), sub)),
                None => None,
            },
            StateLocation::Data(sub) => match home {
                Some(h) => Some(crate::paths::join_path(xdg_base(h, flatpak_app_id, false).as_str(), sub)),
                None => None,
            },
            StateLocation::DataPerGame(sub) => {
                let stem = match crate::pathname::file_stem_vec(&chars_of(rom_path)) {
                    Some(s) => s,
                    None => return None,
                };
                match home {
                    Some(h) => {
                        let d = crate::paths::join_path(xdg_base(h, flatpak_app_id, false).as_str(), sub);
                        Some(crate::paths::join_path(d.as_str(), crate::text::string_of(&stem).as_str()))
                    },
                    None => None,
                }
            },
            StateLocation::Home(sub) => match home {
                Some(h) => Some(crate::paths::join_path(h, sub)),
                None => None,
            },
        }
    }

    /// The key the emulator names this game's savestates by.
    pub fn key_for(&self, rom_path: &str, disc_key: Option<&str>) -> (r: Option<String>)
        ensures
            match r {
                Some(k) => state_key_spec(self.key, rom_path@, opt_seq(disc_key)) == Some(k@),
                None => state_key_spec(self.key, rom_path@, opt_seq(disc_key)) is None,
            },
    {
        match self.key {
            KeyKind::Stem => match crate::pathname::file_stem_vec(&chars_of(rom_path)) {
                Some(s) => Some(crate::text::string_of(&s)),
                None => None,
            },
            KeyKind::DiscKey => match disc_key {
                Some(k) => Some(owned(k)),
                None => None,
            },
        }
    }
}

/// The hotkey config file of an emulator, or `None` without a home directory.
pub open spec fn hotkey_path_spec(base: HotkeyBase, rel: Seq<char>, home: Option<Seq<char>>, app: Option<Seq<char>>) -> Option<
    Seq<char>,
> {
    match home {
        Some(h) => Some(
            crate::paths::join_rel(
                match base {
                    HotkeyBase::XdgConfig => xdg_base_spec(h, app, true),
                    HotkeyBase::Home => h,
                },
                rel,
            ),
        ),
        None => None,
    }
}

impl HotkeyScheme {
    /// Where the emulator's hotkey config lives.
    pub fn path(&self, home: Option<&str>, flatpak_app_id: Option<&str>) -> (r: Option<String>)
        ensures
            match r {
                Some(p) => hotkey_path_spec(self.base, self.rel_path@, opt_seq(home), opt_seq(flatpak_app_id))
                    == Some(p@),
                None => home is None,
            },
    {
        match home {
            Some(h) => {
                let base = match self.base {
                    HotkeyBase::XdgConfig => xdg_base(h, flatpak_app_id, true),
                    HotkeyBase::Home => owned(h),
                };
                Some(crate::paths::join_path(base.as_str(), self.rel_path))
            },
            None => None,
        }
    }
}

/// A sysfs entry of the xpadneo driver that is a bound device
/// (`BUS:VID:PID.N`); the driver's control files never hold a colon.
pub open spec fn is_bound_device_spec(name: Seq<char>) -> bool {
    name.contains(':')
}

/// Whether a driver directory entry names a bound device.
pub fn is_bound_device(name: &str) -> (b: bool)
    ensures
        b == is_bound_device_spec(name@),
{
    let v = chars_of(name);
    let mut i: usize = 0;
    while i < v.len()
        invariant
            i <= v.len(),
            v@ == name@,
            forall|j: int| 0 <= j < i ==> v@[j] != ':',
        decreases v.len() - i,
    {
        if v[i] == ':' {
            proof {
                assert(name@[i as int] == ':');
            }
            return true;
        }
        i += 1;
    }
    false
}

} // verus!
