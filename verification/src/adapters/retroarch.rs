//! RetroArch (the libretro frontend). It boots content unattended only with a
//! core, so a core is resolved per platform and the launch is
//! `retroarch -L <core> <content>`; without an installed core it falls back to
//! content only.
use vstd::prelude::*;
use super::{owned, str_views, string_views, to_strings, AdapterDescriptor, Capabilities};
use crate::paths::{join_path, join_rel};
use crate::text::{chars_of, eq_str};

verus! {

/// The RetroArch adapter.
pub struct RetroArchAdapter;

impl RetroArchAdapter {
    pub fn new() -> (r: Self) {
        RetroArchAdapter
    }

    /// Static descriptor: every platform with at least one core.
    pub fn descriptor(&self) -> (d: AdapterDescriptor)
        ensures
            d.id@ == "retroarch"@,
            d.display_name@ == "RetroArch"@,
            string_views(d.platforms@) == advertised_platforms_spec(),
            d.capabilities == (Capabilities {
                savestates: true,
                saves: true,
                achievements: true,
                screenshots: true,
            }),
    {
        AdapterDescriptor {
            id: owned("retroarch"),
            display_name: owned("RetroArch"),
            platforms: to_strings(&advertised_platforms()),
            capabilities: Capabilities {
                savestates: true,
                saves: true,
                achievements: true,
                screenshots: true,
            },
        }
    }

    /// libretro cores load zipped content natively.
    pub fn handles_archives(&self) -> (b: bool)
        ensures
            b,
    {
        true
    }

    /// RetroArch boots into a numbered slot with `-e N`.
    pub fn supports_launch_state(&self) -> (b: bool)
        ensures
            b,
    {
        true
    }
}

/// The platforms RetroArch advertises.
pub open spec fn advertised_platforms_spec() -> Seq<Seq<char>> {
    seq!["nes"@, "snes"@, "n64"@, "gb"@, "gbc"@, "gba"@, "nds"@, "genesis"@, "ps1"@, "sms"@, "gamegear"@, "sega32x"@, "segacd"@, "saturn"@, "pcengine"@, "virtualboy"@, "atari2600"@, "atari5200"@, "atari7800"@, "lynx"@, "jaguar"@, "wonderswan"@, "ngp"@, "colecovision"@, "c64"@, "amiga"@, "msx"@, "dreamcast"@]
}

pub fn advertised_platforms() -> (r: Vec<&'static str>)
    ensures
        str_views(r@) == advertised_platforms_spec(),
{
    let r = vec!["nes", "snes", "n64", "gb", "gbc", "gba", "nds", "genesis", "ps1", "sms", "gamegear", "sega32x", "segacd", "saturn", "pcengine", "virtualboy", "atari2600", "atari5200", "atari7800", "lynx", "jaguar", "wonderswan", "ngp", "colecovision", "c64", "amiga", "msx", "dreamcast"];
    proof {
        assert(str_views(r@) =~= advertised_platforms_spec());
    }
    r
}

/// Preferred libretro core base names per platform, most-preferred first (no
/// `_libretro.so` suffix); empty for platforms RetroArch doesn't boot.
pub open spec fn core_candidates_spec(platform: Seq<char>) -> Seq<Seq<char>> {
    if platform == "nes"@ {
        seq!["mesen"@, "nestopia"@, "fceumm"@, "quicknes"@]
    } else if platform == "snes"@ {
        seq!["snes9x"@, "bsnes"@, "bsnes_mercury_balanced"@]
    } else if platform == "n64"@ {
        seq!["mupen64plus_next"@, "parallel_n64"@]
    } else if platform == "gb"@ || platform == "gbc"@ {
        seq!["gambatte"@, "sameboy"@, "gearboy"@]
    } else if platform == "gba"@ {
        seq!["mgba"@, "vbam"@, "vba_next"@]
    } else if platform == "nds"@ {
        seq!["melonds"@, "desmume"@]
    } else if platform == "genesis"@ {
        seq!["genesis_plus_gx"@, "picodrive"@]
    } else if platform == "ps1"@ {
        seq!["swanstation"@, "pcsx_rearmed"@, "beetle_psx"@, "mednafen_psx"@]
    } else if platform == "sms"@ {
        seq!["genesis_plus_gx"@, "picodrive"@, "smsplus"@]
    } else if platform == "gamegear"@ {
        seq!["genesis_plus_gx"@, "gearsystem"@]
    } else if platform == "sega32x"@ {
        seq!["picodrive"@]
    } else if platform == "segacd"@ {
        seq!["genesis_plus_gx"@, "picodrive"@]
    } else if platform == "saturn"@ {
        seq!["mednafen_saturn"@, "kronos"@, "yabasanshiro"@]
    } else if platform == "pcengine"@ {
        seq!["mednafen_pce"@, "mednafen_pce_fast"@, "mednafen_supergrafx"@]
    } else if platform == "virtualboy"@ {
        seq!["mednafen_vb"@, "beetle_vb"@]
    } else if platform == "atari2600"@ {
        seq!["stella"@, "stella2014"@]
    } else if platform == "atari5200"@ {
        seq!["a5200"@, "atari800"@]
    } else if platform == "atari7800"@ {
        seq!["prosystem"@]
    } else if platform == "lynx"@ {
        seq!["handy"@, "mednafen_lynx"@, "beetle_lynx"@]
    } else if platform == "jaguar"@ {
        seq!["virtualjaguar"@]
    } else if platform == "wonderswan"@ {
        seq!["mednafen_wswan"@, "beetle_wswan"@]
    } else if platform == "ngp"@ {
        seq!["mednafen_ngp"@, "beetle_ngp"@]
    } else if platform == "colecovision"@ {
        seq!["bluemsx"@, "gearcoleco"@]
    } else if platform == "c64"@ {
        seq!["vice_x64"@, "vice_x64sc"@]
    } else if platform == "amiga"@ {
        seq!["puae"@, "puae2021"@]
    } else if platform == "msx"@ {
        seq!["bluemsx"@, "fmsx"@]
    } else if platform == "dreamcast"@ {
        seq!["flycast"@]
    } else {
        seq![]
    }
}

/// The libretro core candidates for a platform, most-preferred first.
pub fn core_candidates(platform: &str) -> (r: Vec<&'static str>)
    ensures
        str_views(r@) == core_candidates_spec(platform@),
{
    let p = chars_of(platform);
    let r: Vec<&'static str> = 
    if eq_str(&p, "nes") {
        vec!["mesen", "nestopia", "fceumm", "quicknes"]
    } else if eq_str(&p, "snes") {
        vec!["snes9x", "bsnes", "bsnes_mercury_balanced"]
    } else if eq_str(&p, "n64") {
        vec!["mupen64plus_next", "parallel_n64"]
    } else if eq_str(&p, "gb") || eq_str(&p, "gbc") {
        vec!["gambatte", "sameboy", "gearboy"]
    } else if eq_str(&p, "gba") {
        vec!["mgba", "vbam", "vba_next"]
    } else if eq_str(&p, "nds") {
        vec!["melonds", "desmume"]
    } else if eq_str(&p, "genesis") {
        vec!["genesis_plus_gx", "picodrive"]
    } else if eq_str(&p, "ps1") {
        vec!["swanstation", "pcsx_rearmed", "beetle_psx", "mednafen_psx"]
    } else if eq_str(&p, "sms") {
        vec!["genesis_plus_gx", "picodrive", "smsplus"]
    } else if eq_str(&p, "gamegear") {
        vec!["genesis_plus_gx", "gearsystem"]
    } else if eq_str(&p, "sega32x") {
        vec!["picodrive"]
    } else if eq_str(&p, "segacd") {
        vec!["genesis_plus_gx", "picodrive"]
    } else if eq_str(&p, "saturn") {
        vec!["mednafen_saturn", "kronos", "yabasanshiro"]
    } else if eq_str(&p, "pcengine") {
        vec!["mednafen_pce", "mednafen_pce_fast", "mednafen_supergrafx"]
    } else if eq_str(&p, "virtualboy") {
        vec!["mednafen_vb", "beetle_vb"]
    } else if eq_str(&p, "atari2600") {
        vec!["stella", "stella2014"]
    } else if eq_str(&p, "atari5200") {
        vec!["a5200", "atari800"]
    } else if eq_str(&p, "atari7800") {
        vec!["prosystem"]
    } else if eq_str(&p, "lynx") {
        vec!["handy", "mednafen_lynx", "beetle_lynx"]
    } else if eq_str(&p, "jaguar") {
        vec!["virtualjaguar"]
    } else if eq_str(&p, "wonderswan") {
        vec!["mednafen_wswan", "beetle_wswan"]
    } else if eq_str(&p, "ngp") {
        vec!["mednafen_ngp", "beetle_ngp"]
    } else if eq_str(&p, "colecovision") {
        vec!["bluemsx", "gearcoleco"]
    } else if eq_str(&p, "c64") {
        vec!["vice_x64", "vice_x64sc"]
    } else if eq_str(&p, "amiga") {
        vec!["puae", "puae2021"]
    } else if eq_str(&p, "msx") {
        vec!["bluemsx", "fmsx"]
    } else if eq_str(&p, "dreamcast") {
        vec!["flycast"]
    } else {
        vec![]
    };
    proof {
        assert(str_views(r@) =~= core_candidates_spec(platform@));
    }
    r
}

/// `<base>_libretro.so`.
pub fn core_file_name(base: &str) -> (r: String)
    ensures
        r@ == base@ + "_libretro.so"@,
{
    let mut v = chars_of(base);
    crate::text::push_str(&mut v, "_libretro.so");
    crate::text::string_of(&v)
}

/// RetroArch's arguments: `-L <core> <rom>` (or the bare ROM without a core),
/// then `-e <slot>` to boot into a numbered savestate; the auto-save slot (-1)
/// has no entry-slot number and is not passed.
pub open spec fn retroarch_args_spec(core: Option<Seq<char>>, rom: Seq<char>, slot: Option<i64>) -> Seq<
    Seq<char>,
> {
    let base = match core {
        Some(c) => seq!["-L"@, c, rom],
        None => seq![rom],
    };
    match slot {
        Some(n) => if n >= 0 {
            base + seq!["-e"@, crate::text::dec(n as nat)]
        } else {
            base
        },
        None => base,
    }
}

pub fn retroarch_launch_args(core: Option<String>, rom_path: &str, slot: Option<i64>) -> (r: Vec<
    String,
>)
    ensures
        string_views(r@) == retroarch_args_spec(
            match core {
                Some(c) => Some(c@),
                None => None,
            },
            rom_path@,
            slot,
        ),
{
    let ghost cv = match &core {
        Some(c) => Some(c@),
        None => None,
    };
    let mut out: Vec<String> = Vec::new();
    match core {
        Some(c) => {
            out.push(owned("-L"));
            out.push(c);
            out.push(owned(rom_path));
        },
        None => {
            out.push(owned(rom_path));
        },
    }
    match slot {
        Some(n) => {
            if n >= 0 {
                out.push(owned("-e"));
                let mut d: Vec<char> = Vec::new();
                crate::text::push_dec_u64(&mut d, n as u64);
                out.push(crate::text::string_of(&d));
            }
        },
        None => {},
    }
    proof {
        assert(string_views(out@) =~= retroarch_args_spec(cv, rom_path@, slot));
    }
    out
}

/// Every platform RetroArch advertises maps to at least one core, and it does
/// not advertise PS3, which has none.
pub proof fn law_advertised_platforms_have_cores()
    ensures
        forall|i: int|
            0 <= i < advertised_platforms_spec().len() ==> core_candidates_spec(
                #[trigger] advertised_platforms_spec()[i],
            ).len() > 0,
        core_candidates_spec("ps3"@).len() == 0,
        !advertised_platforms_spec().contains("ps3"@),
{
    assert forall|i: int|
        0 <= i < advertised_platforms_spec().len() implies core_candidates_spec(
        #[trigger] advertised_platforms_spec()[i],
    ).len() > 0 by {}
    reveal_strlit("ps3");
    reveal_strlit("amiga");
    reveal_strlit("atari2600");
    reveal_strlit("atari5200");
    reveal_strlit("atari7800");
    reveal_strlit("c64");
    reveal_strlit("colecovision");
    reveal_strlit("dreamcast");
    reveal_strlit("gamegear");
    reveal_strlit("gb");
    reveal_strlit("gba");
    reveal_strlit("gbc");
    reveal_strlit("genesis");
    reveal_strlit("jaguar");
    reveal_strlit("lynx");
    reveal_strlit("msx");
    reveal_strlit("n64");
    reveal_strlit("nds");
    reveal_strlit("nes");
    reveal_strlit("ngp");
    reveal_strlit("pcengine");
    reveal_strlit("ps1");
    reveal_strlit("saturn");
    reveal_strlit("sega32x");
    reveal_strlit("segacd");
    reveal_strlit("sms");
    reveal_strlit("snes");
    reveal_strlit("virtualboy");
    reveal_strlit("wonderswan");
    assert("ps3"@.len() != "amiga"@.len());
    assert("ps3"@.len() != "atari2600"@.len());
    assert("ps3"@.len() != "atari5200"@.len());
    assert("ps3"@.len() != "atari7800"@.len());
    assert("ps3"@[0] != "c64"@[0]);
    assert("ps3"@.len() != "colecovision"@.len());
    assert("ps3"@.len() != "dreamcast"@.len());
    assert("ps3"@.len() != "gamegear"@.len());
    assert("ps3"@.len() != "gb"@.len());
    assert("ps3"@[0] != "gba"@[0]);
    assert("ps3"@[0] != "gbc"@[0]);
    assert("ps3"@.len() != "genesis"@.len());
    assert("ps3"@.len() != "jaguar"@.len());
    assert("ps3"@.len() != "lynx"@.len());
    assert("ps3"@[0] != "msx"@[0]);
    assert("ps3"@[0] != "n64"@[0]);
    assert("ps3"@[0] != "nds"@[0]);
    assert("ps3"@[0] != "nes"@[0]);
    assert("ps3"@[0] != "ngp"@[0]);
    assert("ps3"@.len() != "pcengine"@.len());
    assert("ps3"@[2] != "ps1"@[2]);
    assert("ps3"@.len() != "saturn"@.len());
    assert("ps3"@.len() != "sega32x"@.len());
    assert("ps3"@.len() != "segacd"@.len());
    assert("ps3"@[0] != "sms"@[0]);
    assert("ps3"@.len() != "snes"@.len());
    assert("ps3"@.len() != "virtualboy"@.len());
    assert("ps3"@.len() != "wonderswan"@.len());
}

/// The core files to look for, in order: each candidate (most preferred
/// first) in each directory; the first that exists is the core.
pub open spec fn core_probe_paths(cands: Seq<Seq<char>>, dirs: Seq<Seq<char>>) -> Seq<Seq<char>>
    decreases cands.len(),
{
    if cands.len() == 0 {
        seq![]
    } else {
        core_probe_paths(cands.drop_last(), dirs) + Seq::new(
            dirs.len(),
            |j: int| join_rel(dirs[j], cands.last() + "_libretro.so"@),
        )
    }
}

/// The paths to probe for a core, in search order.
pub fn core_search_paths(candidates: &Vec<String>, dirs: &Vec<String>) -> (r: Vec<String>)
    ensures
        string_views(r@) == core_probe_paths(string_views(candidates@), string_views(dirs@)),
{
    let ghost c = string_views(candidates@);
    let ghost d = string_views(dirs@);
    let mut out: Vec<String> = Vec::new();
    let mut i: usize = 0;
    proof {
        assert(c.take(0) =~= Seq::<Seq<char>>::empty());
        assert(string_views(out@) =~= Seq::<Seq<char>>::empty());
    }
    while i < candidates.len()
        invariant
            i <= candidates.len(),
            c == string_views(candidates@),
            d == string_views(dirs@),
            string_views(out@) == core_probe_paths(c.take(i as int), d),
        decreases candidates.len() - i,
    {
        let file = core_file_name(candidates[i].as_str());
        let ghost before = string_views(out@);
        let ghost row = Seq::new(d.len(), |j: int| join_rel(d[j], c[i as int] + "_libretro.so"@));
        let mut j: usize = 0;
        proof {
            assert(before + row.take(0) =~= before);
        }
        while j < dirs.len()
            invariant
                j <= dirs.len(),
                c == string_views(candidates@),
                d == string_views(dirs@),
                file@ == c[i as int] + "_libretro.so"@,
                row == Seq::new(d.len(), |j: int| join_rel(d[j], c[i as int] + "_libretro.so"@)),
                string_views(out@) == before + row.take(j as int),
            decreases dirs.len() - j,
        {
            let ghost o = string_views(out@);
            out.push(join_path(dirs[j].as_str(), file.as_str()));
            proof {
                assert(string_views(out@) =~= o.push(row[j as int]));
                assert(before + row.take(j as int + 1) =~= (before + row.take(j as int)).push(row[j as int]));
            }
            j += 1;
        }
        proof {
            assert(row.take(dirs.len() as int) =~= row);
            assert(c.take(i as int + 1).drop_last() =~= c.take(i as int));
            assert(c.take(i as int + 1).last() == c[i as int]);
        }
        i += 1;
    }
    proof {
        assert(c.take(candidates.len() as int) =~= c);
    }
    out
}


/// Where native cores are looked for, in order: `$LIBRETRO_DIRECTORY`, the
/// user's RetroArch and libretro core folders under `$HOME`, then the system
/// libretro folders.
pub open spec fn native_core_dirs_spec(libretro_dir: Option<Seq<char>>, home: Option<Seq<char>>) -> Seq<
    Seq<char>,
> {
    let env: Seq<Seq<char>> = match libretro_dir {
        Some(d) => seq![d],
        None => seq![],
    };
    let user: Seq<Seq<char>> = match home {
        Some(h) => seq![join_rel(h, ".config/retroarch/cores"@), join_rel(h, ".local/share/libretro/cores"@)],
        None => seq![],
    };
    env + user + seq!["/usr/lib/libretro"@, "/usr/lib64/libretro"@, "/usr/local/lib/libretro"@]
}

/// The native core directories, from `$LIBRETRO_DIRECTORY` and `$HOME`.
pub fn native_core_dirs(libretro_dir: Option<&str>, home: Option<&str>) -> (r: Vec<String>)
    ensures
        string_views(r@) == native_core_dirs_spec(
            match libretro_dir { Some(d) => Some(d@), None => None },
            match home { Some(h) => Some(h@), None => None },
        ),
{
    let mut out: Vec<String> = Vec::new();
    match libretro_dir {
        Some(d) => out.push(owned(d)),
        None => {},
    }
    match home {
        Some(h) => {
            out.push(join_path(h, ".config/retroarch/cores"));
            out.push(join_path(h, ".local/share/libretro/cores"));
        },
        None => {},
    }
    out.push(owned("/usr/lib/libretro"));
    out.push(owned("/usr/lib64/libretro"));
    out.push(owned("/usr/local/lib/libretro"));
    proof {
        assert(string_views(out@) =~= native_core_dirs_spec(
            match libretro_dir { Some(d) => Some(d@), None => None },
            match home { Some(h) => Some(h@), None => None },
        ));
    }
    out
}

/// A Flatpak RetroArch's cores: for each candidate in order, the file to
/// probe on the host (under `~/.var/app/<id>/config/retroarch/cores`) and the
/// path RetroArch resolves inside its sandbox, where that folder is mounted as
/// `~/.config/retroarch/cores`; `-L` gets the latter.
pub open spec fn flatpak_core_spec(home: Seq<char>, app_id: Seq<char>, cands: Seq<Seq<char>>) -> Seq<
    (Seq<char>, Seq<char>),
> {
    Seq::new(
        cands.len(),
        |i: int|
            (
                join_rel(
                    join_rel(join_rel(join_rel(home, ".var/app"@), app_id), "config/retroarch/cores"@),
                    cands[i] + "_libretro.so"@,
                ),
                join_rel(join_rel(home, ".config/retroarch/cores"@), cands[i] + "_libretro.so"@),
            ),
    )
}

/// The (host path to probe, in-sandbox path) of each candidate core of a
/// Flatpak RetroArch, in preference order.
pub fn flatpak_core_locations(home: &str, app_id: &str, candidates: &Vec<String>) -> (r: Vec<(String, String)>)
    ensures
        r@.map_values(|p: (String, String)| (p.0@, p.1@)) == flatpak_core_spec(
            home@,
            app_id@,
            string_views(candidates@),
        ),
{
    let host_dir = join_path(join_path(join_path(home, ".var/app").as_str(), app_id).as_str(), "config/retroarch/cores");
    let sandbox_dir = join_path(home, ".config/retroarch/cores");
    let ghost spec = flatpak_core_spec(home@, app_id@, string_views(candidates@));
    let mut out: Vec<(String, String)> = Vec::new();
    let mut i: usize = 0;
    while i < candidates.len()
        invariant
            i <= candidates.len(),
            spec == flatpak_core_spec(home@, app_id@, string_views(candidates@)),
            host_dir@ == join_rel(join_rel(join_rel(home@, ".var/app"@), app_id@), "config/retroarch/cores"@),
            sandbox_dir@ == join_rel(home@, ".config/retroarch/cores"@),
            out@.map_values(|p: (String, String)| (p.0@, p.1@)) == spec.take(i as int),
        decreases candidates.len() - i,
    {
        let file = core_file_name(candidates[i].as_str());
        let a = join_path(host_dir.as_str(), file.as_str());
        let b = join_path(sandbox_dir.as_str(), file.as_str());
        let ghost before = out@;
        proof {
            assert(string_views(candidates@)[i as int] == candidates@[i as int]@);
            assert(file@ == string_views(candidates@)[i as int] + "_libretro.so"@);
            assert(spec[i as int] == (a@, b@));
        }
        out.push((a, b));
        proof {
            assert(out@ == before.push((a, b)));
            assert(spec.take(i as int + 1) =~= spec.take(i as int).push((a@, b@)));
            assert(out@.map_values(|p: (String, String)| (p.0@, p.1@)) =~= before.map_values(
                |p: (String, String)| (p.0@, p.1@),
            ).push((a@, b@)));
        }
        i += 1;
    }
    proof {
        assert(spec.take(candidates.len() as int) =~= spec);
    }
    out
}

} // verus!
