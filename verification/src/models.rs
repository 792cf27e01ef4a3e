//! Records shared across the library: install provenance and the per-game,
//! per-disc and per-session shapes the engine hands to the UI.
use vstd::prelude::*;
use crate::text::chars_of;
use crate::text::eq_str;

verus! {

/// How an emulator got onto the machine. Drives the update-ownership rule: if
/// the app didn't install it, the app never updates it — only informs.
#[derive(Debug, Clone, Copy, PartialEq, Eq, Structural)]
pub enum InstallSource {
    Pacman,
    Yay,
    Flatpak,
    AppImage,
    Manual,
    ArcadiaManaged,
}

pub open spec fn install_source_name(s: InstallSource) -> Seq<char> {
    match s {
        InstallSource::Pacman => "Pacman"@,
        InstallSource::Yay => "Yay"@,
        InstallSource::Flatpak => "Flatpak"@,
        InstallSource::AppImage => "AppImage"@,
        InstallSource::Manual => "Manual"@,
        InstallSource::ArcadiaManaged => "ArcadiaManaged"@,
    }
}

/// The source a stored name denotes; anything unrecognised is `Manual`.
pub open spec fn install_source_of(s: Seq<char>) -> InstallSource {
    if s == "Pacman"@ {
        InstallSource::Pacman
    } else if s == "Yay"@ {
        InstallSource::Yay
    } else if s == "Flatpak"@ {
        InstallSource::Flatpak
    } else if s == "AppImage"@ {
        InstallSource::AppImage
    } else if s == "ArcadiaManaged"@ {
        InstallSource::ArcadiaManaged
    } else {
        InstallSource::Manual
    }
}

impl InstallSource {
    pub fn as_str(&self) -> (r: &'static str)
        ensures
            r@ == install_source_name(*self),
    {
        match self {
            InstallSource::Pacman => "Pacman",
            InstallSource::Yay => "Yay",
            InstallSource::Flatpak => "Flatpak",
            InstallSource::AppImage => "AppImage",
            InstallSource::Manual => "Manual",
            InstallSource::ArcadiaManaged => "ArcadiaManaged",
        }
    }

    pub fn from_str(s: &str) -> (r: Self)
        ensures
            r == install_source_of(s@),
    {
        let c = chars_of(s);
        if eq_str(&c, "Pacman") {
            InstallSource::Pacman
        } else if eq_str(&c, "Yay") {
            InstallSource::Yay
        } else if eq_str(&c, "Flatpak") {
            InstallSource::Flatpak
        } else if eq_str(&c, "AppImage") {
            InstallSource::AppImage
        } else if eq_str(&c, "ArcadiaManaged") {
            InstallSource::ArcadiaManaged
        } else {
            InstallSource::Manual
        }
    }

    /// Who owns updates: only an app-managed install is owned by the app.
    pub fn owner(&self) -> (r: &'static str)
        ensures
            r@ == (if *self == InstallSource::ArcadiaManaged {
                "arcadia"@
            } else {
                "external"@
            }),
    {
        match self {
            InstallSource::ArcadiaManaged => "arcadia",
            _ => "external",
        }
    }
}

/// An installed emulator as the registry stores it: its identity, version,
/// provenance (source name and update owner), executable, adapter,
/// capability flags, and when it was detected (RFC 3339 text).
#[derive(Debug, Clone)]
pub struct Emulator {
    pub id: String,
    pub name: String,
    pub version: Option<String>,
    pub install_source: String,
    pub owner: String,
    pub executable_path: String,
    pub adapter_id: String,
    pub supports_savestates: bool,
    pub supports_saves: bool,
    pub supports_achievements: bool,
    pub supports_screenshots: bool,
    pub detected_at: String,
}

/// Reading back a stored install source gives the source that was stored.
pub proof fn law_install_source_round_trip(s: InstallSource)
    ensures
        install_source_of(install_source_name(s)) == s,
{
    reveal_strlit("Pacman");
    reveal_strlit("Yay");
    reveal_strlit("Flatpak");
    reveal_strlit("AppImage");
    reveal_strlit("Manual");
    reveal_strlit("ArcadiaManaged");
    let n = install_source_name(s);
    assert(n.len() > 0);
    assert(n[0] == 'P' <==> s == InstallSource::Pacman);
    assert(n[0] == 'Y' <==> s == InstallSource::Yay);
    assert(n[0] == 'F' <==> s == InstallSource::Flatpak);
    assert(n[0] == 'M' <==> s == InstallSource::Manual);
    assert((n[0] == 'A' && n.len() == 8) <==> s == InstallSource::AppImage);
    assert((n[0] == 'A' && n.len() == 14) <==> s == InstallSource::ArcadiaManaged);
}

/// A platform row.
#[derive(Debug, Clone)]
pub struct Platform {
    pub id: String,
    pub name: String,
    pub manufacturer: Option<String>,
    pub generation: Option<i64>,
}

/// Per-game launch overrides injected into the emulator process at launch.
/// Empty fields mean "no override".
#[derive(Debug, Clone, Default)]
pub struct GameSettings {
    pub game_id: String,
    pub extra_args: Vec<String>,
    pub env_vars: std::collections::BTreeMap<String, String>,
    pub core_override: Option<String>,
}

/// One physical disc image of a multi-disc game, ordered by `disc_number`
/// (1-based).
#[derive(Debug, Clone)]
pub struct GameDisc {
    pub game_id: String,
    pub disc_number: i64,
    pub rom_path: String,
    pub label: Option<String>,
}

/// Emitted when a play session ends and playtime has been attributed.
#[derive(Debug, Clone)]
pub struct SessionEnded {
    pub session_id: String,
    pub game_id: String,
    pub duration_minutes: i64,
}

/// Progress of a long-running background job; `total == 0` means
/// indeterminate.
#[derive(Debug, Clone)]
pub struct ProgressEvent {
    pub profile_id: String,
    pub kind: String,
    pub label: String,
    pub done: usize,
    pub total: usize,
    pub finished: bool,
}

/// One RetroAchievements achievement plus the user's unlock state.
#[derive(Debug, Clone)]
pub struct Achievement {
    pub id: String,
    pub game_id: String,
    pub ra_id: i64,
    pub title: String,
    pub description: Option<String>,
    pub points: i64,
    pub badge_url: Option<String>,
    pub unlocked: bool,
    pub unlocked_at: Option<String>,
    pub display_order: i64,
}

/// Games and playtime per platform, for the statistics view.
#[derive(Debug, Clone)]
pub struct PlatformUsage {
    pub platform: String,
    pub game_count: i64,
    pub playtime_minutes: i64,
}

} // verus!
