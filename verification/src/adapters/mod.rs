//! Emulator adapters: the static description of each emulator (platforms,
//! capabilities, launch arguments, savestate and hotkey conventions) and the
//! launch-time decisions made from it. Spawning processes and reading the
//! emulators' directories happen at the application edge.
use vstd::prelude::*;
use crate::config::HidapiWorkaround;
use crate::models::InstallSource;
use crate::platforms::catalogue;
use crate::text::{chars_of, eq_vec};
use retroarch::advertised_platforms_spec;

pub mod detect;
pub mod retroarch;
pub mod standalone;

pub use retroarch::RetroArchAdapter;
pub use standalone::StandaloneAdapter;

verus! {

/// Static, declared capabilities of an adapter.
#[derive(Debug, Clone, Copy, PartialEq, Eq, Structural)]
pub struct Capabilities {
    pub savestates: bool,
    pub saves: bool,
    pub achievements: bool,
    pub screenshots: bool,
}

/// Static descriptor: id, supported platforms, capability flags.
#[derive(Debug, Clone)]
pub struct AdapterDescriptor {
    pub id: String,
    pub display_name: String,
    pub platforms: Vec<String>,
    pub capabilities: Capabilities,
}

/// A concrete install of an emulator found on this machine.
#[derive(Debug, Clone)]
pub struct EmulatorInstall {
    pub adapter_id: String,
    pub name: String,
    pub version: Option<String>,
    pub install_source: InstallSource,
    /// Executable path, or the in-sandbox command for Flatpak installs.
    pub executable_path: String,
    /// Set when the install is a Flatpak.
    pub flatpak_app_id: Option<String>,
}

/// A discovered savestate to boot straight into: the slot number (RetroArch
/// loads by slot) and the file path (the standalones load by file).
#[derive(Debug, Clone)]
pub struct LoadState {
    pub slot: i64,
    pub path: String,
}

/// Everything an adapter needs to spawn a game.
#[derive(Debug, Clone)]
pub struct LaunchContext {
    pub executable_path: String,
    pub install_source: InstallSource,
    pub flatpak_app_id: Option<String>,
    pub rom_path: String,
    pub platform: String,
    /// Per-game extra CLI args, before the adapter's own game args.
    pub extra_args: Vec<String>,
    /// Per-game environment variables for the spawned process.
    pub env: Vec<(String, String)>,
    /// Per-game libretro core override (RetroArch only).
    pub core_override: Option<String>,
    /// When set, boot directly into this savestate.
    pub load_state: Option<LoadState>,
    /// Policy for the SDL-HIDAPI workaround.
    pub sdl_hidapi_workaround: HidapiWorkaround,
}

/// Context for filesystem scans (saves, savestates, screenshots, ...).
#[derive(Debug, Clone)]
pub struct ScanContext {
    pub rom_path: String,
    pub platform: String,
    /// Flatpak application id when the resolved emulator is a Flatpak install.
    pub flatpak_app_id: Option<String>,
    /// The game's disc serial or game id, when one could be resolved.
    pub disc_key: Option<String>,
}

pub open spec fn string_views(v: Seq<String>) -> Seq<Seq<char>> {
    v.map_values(|s: String| s@)
}

pub open spec fn str_views(v: Seq<&'static str>) -> Seq<Seq<char>> {
    v.map_values(|s: &'static str| s@)
}

/// Owned copies of static strings.
pub fn to_strings(v: &Vec<&'static str>) -> (r: Vec<String>)
    ensures
        string_views(r@) == str_views(v@),
{
    let mut out: Vec<String> = Vec::new();
    let mut i: usize = 0;
    while i < v.len()
        invariant
            i <= v.len(),
            string_views(out@) == str_views(v@).take(i as int),
        decreases v.len() - i,
    {
        let ghost before = string_views(out@);
        let o = crate::text::string_of(&crate::text::chars_of(v[i]));
        proof {
            assert(str_views(v@)[i as int] == v@[i as int]@);
        }
        out.push(o);
        proof {
            assert(string_views(out@) =~= before.push(o@));
        }
        i += 1;
        proof {
            assert(string_views(out@) =~= str_views(v@).take(i as int));
        }
    }
    proof {
        assert(str_views(v@).take(v.len() as int) =~= str_views(v@));
    }
    out
}

/// An owned copy of a static string.
pub fn owned(s: &str) -> (r: String)
    ensures
        r@ == s@,
{
    crate::text::string_of(&crate::text::chars_of(s))
}

/// A registered adapter as plain values: id, advertised platforms, display
/// name and capabilities.
pub type AdapterView = (Seq<char>, Seq<Seq<char>>, Seq<char>, Capabilities);

/// The built-in adapters' ids, advertised platforms, display names and
/// capabilities, in registration order: RetroArch, then the standalone
/// emulators.
pub open spec fn registry_table() -> Seq<AdapterView> {
    seq![
        ("retroarch"@, advertised_platforms_spec(), "RetroArch"@, Capabilities { savestates: true, saves: true, achievements: true, screenshots: true }),
        ("snes9x"@, seq!["snes"@], "Snes9x"@, Capabilities { savestates: true, saves: true, achievements: false, screenshots: true }),
        ("mgba"@, seq!["gb"@, "gbc"@, "gba"@], "mGBA"@, Capabilities { savestates: true, saves: true, achievements: false, screenshots: true }),
        ("mupen64plus"@, seq!["n64"@], "Mupen64Plus"@, Capabilities { savestates: true, saves: true, achievements: false, screenshots: true }),
        ("dolphin"@, seq!["gamecube"@, "wii"@], "Dolphin"@, Capabilities { savestates: true, saves: true, achievements: true, screenshots: true }),
        ("pcsx2"@, seq!["ps2"@], "PCSX2"@, Capabilities { savestates: true, saves: true, achievements: true, screenshots: true }),
        ("ppsspp"@, seq!["psp"@], "PPSSPP"@, Capabilities { savestates: true, saves: true, achievements: true, screenshots: true }),
        ("rpcs3"@, seq!["ps3"@], "RPCS3"@, Capabilities { savestates: false, saves: true, achievements: false, screenshots: true }),
        ("duckstation"@, seq!["ps1"@], "DuckStation"@, Capabilities { savestates: true, saves: true, achievements: true, screenshots: true }),
        ("melonds"@, seq!["nds"@], "melonDS"@, Capabilities { savestates: true, saves: true, achievements: false, screenshots: true }),
        ("flycast"@, seq!["dreamcast"@], "Flycast"@, Capabilities { savestates: true, saves: true, achievements: true, screenshots: true }),
        ("mame"@, seq!["arcade"@], "MAME"@, Capabilities { savestates: true, saves: true, achievements: false, screenshots: true }),
        ("xemu"@, seq!["xbox"@], "xemu"@, Capabilities { savestates: false, saves: true, achievements: false, screenshots: true }),
        ("cemu"@, seq!["wiiu"@], "Cemu"@, Capabilities { savestates: false, saves: true, achievements: false, screenshots: true }),
        ("vita3k"@, seq!["vita"@], "Vita3K"@, Capabilities { savestates: false, saves: true, achievements: false, screenshots: true }),
        ("ryujinx"@, seq!["switch"@], "Ryujinx"@, Capabilities { savestates: false, saves: true, achievements: false, screenshots: true }),
        ("lime3ds"@, seq!["n3ds"@], "Lime3DS"@, Capabilities { savestates: true, saves: true, achievements: false, screenshots: true }),
        ("mednafen"@, seq!["pcengine"@, "saturn"@, "virtualboy"@, "lynx"@, "wonderswan"@, "ngp"@, "sms"@, "gamegear"@], "Mednafen"@, Capabilities { savestates: true, saves: true, achievements: false, screenshots: true }),
        ("mesen"@, seq!["nes"@], "Mesen"@, Capabilities { savestates: true, saves: true, achievements: false, screenshots: true }),
        ("stella"@, seq!["atari2600"@], "Stella"@, Capabilities { savestates: false, saves: true, achievements: false, screenshots: true }),
        ("blastem"@, seq!["genesis"@], "BlastEm"@, Capabilities { savestates: true, saves: true, achievements: false, screenshots: true }),
        ("openmsx"@, seq!["msx"@], "openMSX"@, Capabilities { savestates: false, saves: true, achievements: false, screenshots: true }),
        ("gearcoleco"@, seq!["colecovision"@], "Gearcoleco"@, Capabilities { savestates: false, saves: true, achievements: false, screenshots: true }),
        ("bigpemu"@, seq!["jaguar"@], "BigPEmu"@, Capabilities { savestates: false, saves: true, achievements: false, screenshots: true }),
        ("vice"@, seq!["c64"@], "VICE"@, Capabilities { savestates: false, saves: true, achievements: false, screenshots: true }),
        ("atari800"@, seq!["atari5200"@], "Atari800"@, Capabilities { savestates: false, saves: true, achievements: false, screenshots: true }),
    ]
}

pub open spec fn descriptor_view(d: AdapterDescriptor) -> AdapterView {
    (d.id@, string_views(d.platforms@), d.display_name@, d.capabilities)
}

pub open spec fn descriptor_views(v: Seq<AdapterDescriptor>) -> Seq<AdapterView> {
    v.map_values(|d: AdapterDescriptor| descriptor_view(d))
}

/// The set of built-in adapters, keyed by id.
pub struct AdapterRegistry {
    adapters: Vec<AdapterDescriptor>,
}

impl View for AdapterRegistry {
    type V = Seq<AdapterView>;

    closed spec fn view(&self) -> Seq<AdapterView> {
        descriptor_views(self.adapters@)
    }
}

/// The first registered adapter with the given id.
pub open spec fn find_adapter(t: Seq<AdapterView>, id: Seq<char>) -> Option<
    AdapterView,
>
    decreases t.len(),
{
    if t.len() == 0 {
        None
    } else if t[0].0 == id {
        Some(t[0])
    } else {
        find_adapter(t.drop_first(), id)
    }
}

fn copy_descriptor(d: &AdapterDescriptor) -> (r: AdapterDescriptor)
    ensures
        descriptor_view(r) == descriptor_view(*d),
        r.display_name@ == d.display_name@,
        r.capabilities == d.capabilities,
{
    let mut ps: Vec<String> = Vec::new();
    let mut i: usize = 0;
    while i < d.platforms.len()
        invariant
            i <= d.platforms.len(),
            string_views(ps@) == string_views(d.platforms@).take(i as int),
        decreases d.platforms.len() - i,
    {
        let ghost o = string_views(ps@);
        ps.push(owned(d.platforms[i].as_str()));
        proof {
            assert(string_views(ps@) =~= o.push(d.platforms@[i as int]@));
            assert(string_views(d.platforms@).take(i as int + 1) =~= o.push(d.platforms@[i as int]@));
        }
        i += 1;
    }
    proof {
        assert(string_views(d.platforms@).take(d.platforms.len() as int) =~= string_views(d.platforms@));
    }
    AdapterDescriptor {
        id: owned(d.id.as_str()),
        display_name: owned(d.display_name.as_str()),
        platforms: ps,
        capabilities: d.capabilities,
    }
}

impl AdapterRegistry {
    /// Build the adapter set: one libretro frontend plus the standalone
    /// emulators, spanning 2D retro through current-gen emulation.
    #[verifier::rlimit(100)]
    pub fn builtin() -> (r: Self)
        ensures
            r@ == registry_table(),
    {
        let mut d: Vec<AdapterDescriptor> = Vec::new();
    d.push(RetroArchAdapter::new().descriptor());
    d.push(StandaloneAdapter::snes9x().descriptor());
    d.push(StandaloneAdapter::mgba().descriptor());
    d.push(StandaloneAdapter::mupen64plus().descriptor());
    d.push(StandaloneAdapter::dolphin().descriptor());
    d.push(StandaloneAdapter::pcsx2().descriptor());
    d.push(StandaloneAdapter::ppsspp().descriptor());
    d.push(StandaloneAdapter::rpcs3().descriptor());
    d.push(StandaloneAdapter::duckstation().descriptor());
    d.push(StandaloneAdapter::melonds().descriptor());
    d.push(StandaloneAdapter::flycast().descriptor());
    d.push(StandaloneAdapter::mame().descriptor());
    d.push(StandaloneAdapter::xemu().descriptor());
    d.push(StandaloneAdapter::cemu().descriptor());
    d.push(StandaloneAdapter::vita3k().descriptor());
    d.push(StandaloneAdapter::ryujinx().descriptor());
    d.push(StandaloneAdapter::lime3ds().descriptor());
    d.push(StandaloneAdapter::mednafen().descriptor());
    d.push(StandaloneAdapter::mesen().descriptor());
    d.push(StandaloneAdapter::stella().descriptor());
    d.push(StandaloneAdapter::blastem().descriptor());
    d.push(StandaloneAdapter::openmsx().descriptor());
    d.push(StandaloneAdapter::gearcoleco().descriptor());
    d.push(StandaloneAdapter::bigpemu().descriptor());
    d.push(StandaloneAdapter::vice().descriptor());
    d.push(StandaloneAdapter::atari800().descriptor());
        let r = AdapterRegistry { adapters: d };
        proof {
            assert(r@ =~~= registry_table());
        }
        r
    }

    /// The adapter registered under `id`.
    pub fn get(&self, id: &str) -> (r: Option<AdapterDescriptor>)
        ensures
            match r {
                Some(d) => find_adapter(self@, id@) == Some(descriptor_view(d)),
                None => find_adapter(self@, id@) is None,
            },
    {
        let ghost t = self@;
        let ic = chars_of(id);
        let mut i: usize = 0;
        proof {
            assert(t.skip(0) =~= t);
        }
        while i < self.adapters.len()
            invariant
                i <= self.adapters.len(),
                t == self@,
                t == descriptor_views(self.adapters@),
                ic@ == id@,
                find_adapter(t, id@) == find_adapter(t.skip(i as int), id@),
            decreases self.adapters.len() - i,
        {
            proof {
                assert(t.skip(i as int).drop_first() =~= t.skip(i as int + 1));
                assert(t.skip(i as int)[0] == descriptor_view(self.adapters@[i as int]));
            }
            if eq_vec(&chars_of(self.adapters[i].id.as_str()), &ic) {
                return Some(copy_descriptor(&self.adapters[i]));
            }
            i += 1;
        }
        None
    }

    /// Every registered adapter's descriptor.
    pub fn descriptors(&self) -> (r: Vec<AdapterDescriptor>)
        ensures
            descriptor_views(r@) == self@,
    {
        let ghost t = self@;
        let mut out: Vec<AdapterDescriptor> = Vec::new();
        let mut i: usize = 0;
        while i < self.adapters.len()
            invariant
                i <= self.adapters.len(),
                t == self@,
                t == descriptor_views(self.adapters@),
                descriptor_views(out@) == t.take(i as int),
            decreases self.adapters.len() - i,
        {
            let ghost o = descriptor_views(out@);
            out.push(copy_descriptor(&self.adapters[i]));
            proof {
                assert(descriptor_views(out@) =~= o.push(t[i as int]));
                assert(t.take(i as int + 1) =~= t.take(i as int).push(t[i as int]));
            }
            i += 1;
        }
        proof {
            assert(t.take(self.adapters.len() as int) =~= t);
        }
        out
    }
}

/// Every catalogued platform can be launched: its preferred adapter is a
/// registered one, and some registered adapter advertises it.
pub proof fn law_platforms_are_launchable(i: int)
    requires
        0 <= i < catalogue().len(),
    ensures
        exists|j: int| 0 <= j < registry_table().len() && (#[trigger] registry_table()[j]).0
            == catalogue()[i].adapter_hint,
        exists|j: int, k: int|
            0 <= j < registry_table().len() && 0 <= k < registry_table()[j].1.len() && (
            #[trigger] registry_table()[j].1[k]) == catalogue()[i].id,
{
    let t = registry_table();
    let c = catalogue();
    if i == 0 {
        assert(t[18].0 == c[0].adapter_hint);
        assert(t[0].1[0] == c[0].id);
    } else if i == 1 {
        assert(t[1].0 == c[1].adapter_hint);
        assert(t[0].1[1] == c[1].id);
    } else if i == 2 {
        assert(t[3].0 == c[2].adapter_hint);
        assert(t[0].1[2] == c[2].id);
    } else if i == 3 {
        assert(t[4].0 == c[3].adapter_hint);
        assert(t[4].1[0] == c[3].id);
    } else if i == 4 {
        assert(t[4].0 == c[4].adapter_hint);
        assert(t[4].1[1] == c[4].id);
    } else if i == 5 {
        assert(t[2].0 == c[5].adapter_hint);
        assert(t[0].1[3] == c[5].id);
    } else if i == 6 {
        assert(t[2].0 == c[6].adapter_hint);
        assert(t[0].1[4] == c[6].id);
    } else if i == 7 {
        assert(t[2].0 == c[7].adapter_hint);
        assert(t[0].1[5] == c[7].id);
    } else if i == 8 {
        assert(t[9].0 == c[8].adapter_hint);
        assert(t[0].1[6] == c[8].id);
    } else if i == 9 {
        assert(t[20].0 == c[9].adapter_hint);
        assert(t[0].1[7] == c[9].id);
    } else if i == 10 {
        assert(t[8].0 == c[10].adapter_hint);
        assert(t[0].1[8] == c[10].id);
    } else if i == 11 {
        assert(t[5].0 == c[11].adapter_hint);
        assert(t[5].1[0] == c[11].id);
    } else if i == 12 {
        assert(t[6].0 == c[12].adapter_hint);
        assert(t[6].1[0] == c[12].id);
    } else if i == 13 {
        assert(t[7].0 == c[13].adapter_hint);
        assert(t[7].1[0] == c[13].id);
    } else if i == 14 {
        assert(t[14].0 == c[14].adapter_hint);
        assert(t[14].1[0] == c[14].id);
    } else if i == 15 {
        assert(t[17].0 == c[15].adapter_hint);
        assert(t[0].1[9] == c[15].id);
    } else if i == 16 {
        assert(t[17].0 == c[16].adapter_hint);
        assert(t[0].1[10] == c[16].id);
    } else if i == 17 {
        assert(t[0].0 == c[17].adapter_hint);
        assert(t[0].1[11] == c[17].id);
    } else if i == 18 {
        assert(t[0].0 == c[18].adapter_hint);
        assert(t[0].1[12] == c[18].id);
    } else if i == 19 {
        assert(t[17].0 == c[19].adapter_hint);
        assert(t[0].1[13] == c[19].id);
    } else if i == 20 {
        assert(t[10].0 == c[20].adapter_hint);
        assert(t[0].1[27] == c[20].id);
    } else if i == 21 {
        assert(t[17].0 == c[21].adapter_hint);
        assert(t[0].1[14] == c[21].id);
    } else if i == 22 {
        assert(t[17].0 == c[22].adapter_hint);
        assert(t[0].1[15] == c[22].id);
    } else if i == 23 {
        assert(t[16].0 == c[23].adapter_hint);
        assert(t[16].1[0] == c[23].id);
    } else if i == 24 {
        assert(t[15].0 == c[24].adapter_hint);
        assert(t[15].1[0] == c[24].id);
    } else if i == 25 {
        assert(t[13].0 == c[25].adapter_hint);
        assert(t[13].1[0] == c[25].id);
    } else if i == 26 {
        assert(t[12].0 == c[26].adapter_hint);
        assert(t[12].1[0] == c[26].id);
    } else if i == 27 {
        assert(t[19].0 == c[27].adapter_hint);
        assert(t[0].1[16] == c[27].id);
    } else if i == 28 {
        assert(t[25].0 == c[28].adapter_hint);
        assert(t[0].1[17] == c[28].id);
    } else if i == 29 {
        assert(t[0].0 == c[29].adapter_hint);
        assert(t[0].1[18] == c[29].id);
    } else if i == 30 {
        assert(t[17].0 == c[30].adapter_hint);
        assert(t[0].1[19] == c[30].id);
    } else if i == 31 {
        assert(t[23].0 == c[31].adapter_hint);
        assert(t[0].1[20] == c[31].id);
    } else if i == 32 {
        assert(t[17].0 == c[32].adapter_hint);
        assert(t[0].1[21] == c[32].id);
    } else if i == 33 {
        assert(t[17].0 == c[33].adapter_hint);
        assert(t[0].1[22] == c[33].id);
    } else if i == 34 {
        assert(t[22].0 == c[34].adapter_hint);
        assert(t[0].1[23] == c[34].id);
    } else if i == 35 {
        assert(t[24].0 == c[35].adapter_hint);
        assert(t[0].1[24] == c[35].id);
    } else if i == 36 {
        assert(t[0].0 == c[36].adapter_hint);
        assert(t[0].1[25] == c[36].id);
    } else if i == 37 {
        assert(t[21].0 == c[37].adapter_hint);
        assert(t[0].1[26] == c[37].id);
    } else if i == 38 {
        assert(t[11].0 == c[38].adapter_hint);
        assert(t[11].1[0] == c[38].id);
    }
}

} // verus!
