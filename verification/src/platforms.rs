//! The platform catalogue and ROM routing: how a bare file on disk (its name,
//! extension, the folder it is filed under and what a cheap look at its
//! contents showed) becomes a game on a platform. The library indexes files the
//! user already has.
use vstd::prelude::*;
use vstd::utf8::encode_utf8;
use crate::adapters::str_views;
use crate::adapters::string_views;
use crate::bindings::{lemma_lex_total, lemma_lex_trans, lex_less, lex_lt};
use crate::hotkeys::{lower_char, lower_char_exec, lower_str, lower_vec};
use crate::iso9660::{disc_platform, disc_title, opt_view, Disc};
use crate::pathname::{components, components_vec, extension, extension_vec, file_stem, file_stem_vec};
use crate::text::{
    bytes_contain, bytes_contain_exec, spells_at, spells_at_exec, before_char, before_char_vec, chars_of, eq_str, eq_vec, find_sub_from, find_sub_vec, is_digit,
    lines, lines_vec, split_once, split_once_vec, string_of, strip_prefix, strip_prefix_str, trim,
    trim_vec, views,
};

verus! {

/// A platform, viewed as plain values.
#[verifier::ext_equal]
pub struct PlatformView {
    pub id: Seq<char>,
    pub name: Seq<char>,
    pub manufacturer: Seq<char>,
    pub generation: int,
    pub extensions: Seq<Seq<char>>,
    pub adapter_hint: Seq<char>,
}

/// A platform the library understands. `adapter_hint` is the adapter id
/// preferred when launching this platform, if such an emulator is installed.
#[derive(Debug, Clone)]
pub struct PlatformDef {
    pub id: &'static str,
    pub name: &'static str,
    pub manufacturer: &'static str,
    pub generation: i64,
    /// Lowercase file extensions (no dot) that map to this platform.
    pub extensions: Vec<&'static str>,
    /// Preferred adapter id for launching.
    pub adapter_hint: &'static str,
}

impl View for PlatformDef {
    type V = PlatformView;

    open spec fn view(&self) -> PlatformView {
        PlatformView {
            id: self.id@,
            name: self.name@,
            manufacturer: self.manufacturer@,
            generation: self.generation as int,
            extensions: str_views(self.extensions@),
            adapter_hint: self.adapter_hint@,
        }
    }
}

pub open spec fn def_views(t: Seq<PlatformDef>) -> Seq<PlatformView> {
    t.map_values(|p: PlatformDef| p@)
}

pub open spec fn opt_str(o: Option<&'static str>) -> Option<Seq<char>> {
    match o {
        Some(s) => Some(s@),
        None => None,
    }
}

/// The catalogue, 2D retro through PS3. Platforms whose discs share generic
/// extensions (`.cue`/`.chd`/`.iso`) claim none and are routed structurally;
/// PS3 claims none because loose `.pkg` files are updates and DLC, not games.
pub open spec fn catalogue() -> Seq<PlatformView> {
    seq![
        PlatformView { id: "nes"@, name: "Nintendo Entertainment System"@, manufacturer: "Nintendo"@, generation: 3, extensions: seq!["nes"@, "fds"@, "unf"@], adapter_hint: "mesen"@ },
        PlatformView { id: "snes"@, name: "Super Nintendo"@, manufacturer: "Nintendo"@, generation: 4, extensions: seq!["sfc"@, "smc"@, "swc"@, "fig"@], adapter_hint: "snes9x"@ },
        PlatformView { id: "n64"@, name: "Nintendo 64"@, manufacturer: "Nintendo"@, generation: 5, extensions: seq!["n64"@, "z64"@, "v64"@], adapter_hint: "mupen64plus"@ },
        PlatformView { id: "gamecube"@, name: "Nintendo GameCube"@, manufacturer: "Nintendo"@, generation: 6, extensions: seq!["gcm"@, "gcz"@, "rvz"@], adapter_hint: "dolphin"@ },
        PlatformView { id: "wii"@, name: "Nintendo Wii"@, manufacturer: "Nintendo"@, generation: 7, extensions: seq!["wbfs"@, "wad"@], adapter_hint: "dolphin"@ },
        PlatformView { id: "gb"@, name: "Game Boy"@, manufacturer: "Nintendo"@, generation: 4, extensions: seq!["gb"@], adapter_hint: "mgba"@ },
        PlatformView { id: "gbc"@, name: "Game Boy Color"@, manufacturer: "Nintendo"@, generation: 5, extensions: seq!["gbc"@], adapter_hint: "mgba"@ },
        PlatformView { id: "gba"@, name: "Game Boy Advance"@, manufacturer: "Nintendo"@, generation: 6, extensions: seq!["gba"@], adapter_hint: "mgba"@ },
        PlatformView { id: "nds"@, name: "Nintendo DS"@, manufacturer: "Nintendo"@, generation: 7, extensions: seq!["nds"@], adapter_hint: "melonds"@ },
        PlatformView { id: "genesis"@, name: "Sega Genesis / Mega Drive"@, manufacturer: "Sega"@, generation: 4, extensions: seq!["md"@, "gen"@, "smd"@], adapter_hint: "blastem"@ },
        PlatformView { id: "ps1"@, name: "Sony PlayStation"@, manufacturer: "Sony"@, generation: 5, extensions: seq!["pbp"@], adapter_hint: "duckstation"@ },
        PlatformView { id: "ps2"@, name: "Sony PlayStation 2"@, manufacturer: "Sony"@, generation: 6, extensions: seq!["iso"@, "bin"@, "chd"@, "cso"@], adapter_hint: "pcsx2"@ },
        PlatformView { id: "psp"@, name: "Sony PSP"@, manufacturer: "Sony"@, generation: 7, extensions: seq!["cso"@], adapter_hint: "ppsspp"@ },
        PlatformView { id: "ps3"@, name: "Sony PlayStation 3"@, manufacturer: "Sony"@, generation: 7, extensions: seq![], adapter_hint: "rpcs3"@ },
        PlatformView { id: "vita"@, name: "Sony PlayStation Vita"@, manufacturer: "Sony"@, generation: 8, extensions: seq!["vpk"@], adapter_hint: "vita3k"@ },
        PlatformView { id: "sms"@, name: "Sega Master System"@, manufacturer: "Sega"@, generation: 3, extensions: seq!["sms"@], adapter_hint: "mednafen"@ },
        PlatformView { id: "gamegear"@, name: "Sega Game Gear"@, manufacturer: "Sega"@, generation: 4, extensions: seq!["gg"@], adapter_hint: "mednafen"@ },
        PlatformView { id: "sega32x"@, name: "Sega 32X"@, manufacturer: "Sega"@, generation: 4, extensions: seq!["32x"@], adapter_hint: "retroarch"@ },
        PlatformView { id: "segacd"@, name: "Sega CD / Mega-CD"@, manufacturer: "Sega"@, generation: 4, extensions: seq![], adapter_hint: "retroarch"@ },
        PlatformView { id: "saturn"@, name: "Sega Saturn"@, manufacturer: "Sega"@, generation: 5, extensions: seq![], adapter_hint: "mednafen"@ },
        PlatformView { id: "dreamcast"@, name: "Sega Dreamcast"@, manufacturer: "Sega"@, generation: 6, extensions: seq!["gdi"@, "cdi"@], adapter_hint: "flycast"@ },
        PlatformView { id: "pcengine"@, name: "NEC PC Engine / TurboGrafx-16"@, manufacturer: "NEC"@, generation: 4, extensions: seq!["pce"@, "sgx"@], adapter_hint: "mednafen"@ },
        PlatformView { id: "virtualboy"@, name: "Nintendo Virtual Boy"@, manufacturer: "Nintendo"@, generation: 5, extensions: seq!["vb"@, "vboy"@], adapter_hint: "mednafen"@ },
        PlatformView { id: "n3ds"@, name: "Nintendo 3DS"@, manufacturer: "Nintendo"@, generation: 8, extensions: seq!["3ds"@, "cci"@, "cxi"@, "cia"@], adapter_hint: "lime3ds"@ },
        PlatformView { id: "switch"@, name: "Nintendo Switch"@, manufacturer: "Nintendo"@, generation: 8, extensions: seq!["nsp"@, "xci"@], adapter_hint: "ryujinx"@ },
        PlatformView { id: "wiiu"@, name: "Nintendo Wii U"@, manufacturer: "Nintendo"@, generation: 8, extensions: seq!["wud"@, "wux"@, "wua"@, "rpx"@], adapter_hint: "cemu"@ },
        PlatformView { id: "xbox"@, name: "Microsoft Xbox"@, manufacturer: "Microsoft"@, generation: 6, extensions: seq![], adapter_hint: "xemu"@ },
        PlatformView { id: "atari2600"@, name: "Atari 2600"@, manufacturer: "Atari"@, generation: 2, extensions: seq!["a26"@], adapter_hint: "stella"@ },
        PlatformView { id: "atari5200"@, name: "Atari 5200"@, manufacturer: "Atari"@, generation: 2, extensions: seq!["a52"@], adapter_hint: "atari800"@ },
        PlatformView { id: "atari7800"@, name: "Atari 7800"@, manufacturer: "Atari"@, generation: 3, extensions: seq!["a78"@], adapter_hint: "retroarch"@ },
        PlatformView { id: "lynx"@, name: "Atari Lynx"@, manufacturer: "Atari"@, generation: 4, extensions: seq!["lnx"@], adapter_hint: "mednafen"@ },
        PlatformView { id: "jaguar"@, name: "Atari Jaguar"@, manufacturer: "Atari"@, generation: 5, extensions: seq!["j64"@, "jag"@], adapter_hint: "bigpemu"@ },
        PlatformView { id: "wonderswan"@, name: "Bandai WonderSwan"@, manufacturer: "Bandai"@, generation: 5, extensions: seq!["ws"@, "wsc"@], adapter_hint: "mednafen"@ },
        PlatformView { id: "ngp"@, name: "SNK Neo Geo Pocket"@, manufacturer: "SNK"@, generation: 5, extensions: seq!["ngp"@, "ngc"@], adapter_hint: "mednafen"@ },
        PlatformView { id: "colecovision"@, name: "ColecoVision"@, manufacturer: "Coleco"@, generation: 2, extensions: seq!["col"@], adapter_hint: "gearcoleco"@ },
        PlatformView { id: "c64"@, name: "Commodore 64"@, manufacturer: "Commodore"@, generation: 2, extensions: seq!["d64"@, "t64"@, "crt"@, "prg"@], adapter_hint: "vice"@ },
        PlatformView { id: "amiga"@, name: "Commodore Amiga"@, manufacturer: "Commodore"@, generation: 4, extensions: seq!["adf"@, "adz"@, "ipf"@, "hdf"@], adapter_hint: "retroarch"@ },
        PlatformView { id: "msx"@, name: "MSX"@, manufacturer: "ASCII / Microsoft"@, generation: 3, extensions: seq!["mx1"@, "mx2"@], adapter_hint: "openmsx"@ },
        PlatformView { id: "arcade"@, name: "Arcade (MAME / FinalBurn Neo)"@, manufacturer: "Various"@, generation: 0, extensions: seq![], adapter_hint: "mame"@ },
    ]
}

fn def(
    id: &'static str,
    name: &'static str,
    manufacturer: &'static str,
    generation: i64,
    extensions: Vec<&'static str>,
    adapter_hint: &'static str,
) -> (p: PlatformDef)
    ensures
        p.id == id,
        p.name == name,
        p.manufacturer == manufacturer,
        p.generation == generation,
        p.extensions == extensions,
        p.adapter_hint == adapter_hint,
{
    PlatformDef { id, name, manufacturer, generation, extensions, adapter_hint }
}

/// The platform catalogue, in its fixed order.
#[verifier::rlimit(100)]
pub fn platforms() -> (t: Vec<PlatformDef>)
    ensures
        def_views(t@) == catalogue(),
{
    let mut t: Vec<PlatformDef> = Vec::new();
    t.push(def("nes", "Nintendo Entertainment System", "Nintendo", 3, vec!["nes", "fds", "unf"], "mesen"));
    t.push(def("snes", "Super Nintendo", "Nintendo", 4, vec!["sfc", "smc", "swc", "fig"], "snes9x"));
    t.push(def("n64", "Nintendo 64", "Nintendo", 5, vec!["n64", "z64", "v64"], "mupen64plus"));
    t.push(def("gamecube", "Nintendo GameCube", "Nintendo", 6, vec!["gcm", "gcz", "rvz"], "dolphin"));
    t.push(def("wii", "Nintendo Wii", "Nintendo", 7, vec!["wbfs", "wad"], "dolphin"));
    t.push(def("gb", "Game Boy", "Nintendo", 4, vec!["gb"], "mgba"));
    t.push(def("gbc", "Game Boy Color", "Nintendo", 5, vec!["gbc"], "mgba"));
    t.push(def("gba", "Game Boy Advance", "Nintendo", 6, vec!["gba"], "mgba"));
    t.push(def("nds", "Nintendo DS", "Nintendo", 7, vec!["nds"], "melonds"));
    t.push(def("genesis", "Sega Genesis / Mega Drive", "Sega", 4, vec!["md", "gen", "smd"], "blastem"));
    t.push(def("ps1", "Sony PlayStation", "Sony", 5, vec!["pbp"], "duckstation"));
    t.push(def("ps2", "Sony PlayStation 2", "Sony", 6, vec!["iso", "bin", "chd", "cso"], "pcsx2"));
    t.push(def("psp", "Sony PSP", "Sony", 7, vec!["cso"], "ppsspp"));
    t.push(def("ps3", "Sony PlayStation 3", "Sony", 7, vec![], "rpcs3"));
    t.push(def("vita", "Sony PlayStation Vita", "Sony", 8, vec!["vpk"], "vita3k"));
    t.push(def("sms", "Sega Master System", "Sega", 3, vec!["sms"], "mednafen"));
    t.push(def("gamegear", "Sega Game Gear", "Sega", 4, vec!["gg"], "mednafen"));
    t.push(def("sega32x", "Sega 32X", "Sega", 4, vec!["32x"], "retroarch"));
    t.push(def("segacd", "Sega CD / Mega-CD", "Sega", 4, vec![], "retroarch"));
    t.push(def("saturn", "Sega Saturn", "Sega", 5, vec![], "mednafen"));
    t.push(def("dreamcast", "Sega Dreamcast", "Sega", 6, vec!["gdi", "cdi"], "flycast"));
    t.push(def("pcengine", "NEC PC Engine / TurboGrafx-16", "NEC", 4, vec!["pce", "sgx"], "mednafen"));
    t.push(def("virtualboy", "Nintendo Virtual Boy", "Nintendo", 5, vec!["vb", "vboy"], "mednafen"));
    t.push(def("n3ds", "Nintendo 3DS", "Nintendo", 8, vec!["3ds", "cci", "cxi", "cia"], "lime3ds"));
    t.push(def("switch", "Nintendo Switch", "Nintendo", 8, vec!["nsp", "xci"], "ryujinx"));
    t.push(def("wiiu", "Nintendo Wii U", "Nintendo", 8, vec!["wud", "wux", "wua", "rpx"], "cemu"));
    t.push(def("xbox", "Microsoft Xbox", "Microsoft", 6, vec![], "xemu"));
    t.push(def("atari2600", "Atari 2600", "Atari", 2, vec!["a26"], "stella"));
    t.push(def("atari5200", "Atari 5200", "Atari", 2, vec!["a52"], "atari800"));
    t.push(def("atari7800", "Atari 7800", "Atari", 3, vec!["a78"], "retroarch"));
    t.push(def("lynx", "Atari Lynx", "Atari", 4, vec!["lnx"], "mednafen"));
    t.push(def("jaguar", "Atari Jaguar", "Atari", 5, vec!["j64", "jag"], "bigpemu"));
    t.push(def("wonderswan", "Bandai WonderSwan", "Bandai", 5, vec!["ws", "wsc"], "mednafen"));
    t.push(def("ngp", "SNK Neo Geo Pocket", "SNK", 5, vec!["ngp", "ngc"], "mednafen"));
    t.push(def("colecovision", "ColecoVision", "Coleco", 2, vec!["col"], "gearcoleco"));
    t.push(def("c64", "Commodore 64", "Commodore", 2, vec!["d64", "t64", "crt", "prg"], "vice"));
    t.push(def("amiga", "Commodore Amiga", "Commodore", 4, vec!["adf", "adz", "ipf", "hdf"], "retroarch"));
    t.push(def("msx", "MSX", "ASCII / Microsoft", 3, vec!["mx1", "mx2"], "openmsx"));
    t.push(def("arcade", "Arcade (MAME / FinalBurn Neo)", "Various", 0, vec![], "mame"));
    proof {
        assert(def_views(t@) =~~= catalogue());
    }
    t
}

/// The first catalogue entry with the given id.
pub open spec fn find_by_id(t: Seq<PlatformView>, id: Seq<char>) -> Option<PlatformView>
    decreases t.len(),
{
    if t.len() == 0 {
        None
    } else if t[0].id == id {
        Some(t[0])
    } else {
        find_by_id(t.drop_first(), id)
    }
}

/// Look up a platform definition by slug.
pub fn by_id(id: &str) -> (r: Option<PlatformDef>)
    ensures
        match r {
            Some(p) => find_by_id(catalogue(), id@) == Some(p@),
            None => find_by_id(catalogue(), id@) is None,
        },
{
    let mut t = platforms();
    let ghost cat = catalogue();
    let mut i: usize = 0;
    proof {
        assert(cat.skip(0) =~= cat);
    }
    while i < t.len()
        invariant
            i <= t.len(),
            def_views(t@) == cat,
            cat == catalogue(),
            find_by_id(cat, id@) == find_by_id(cat.skip(i as int), id@),
        decreases t.len() - i,
    {
        proof {
            assert(cat.skip(i as int).drop_first() =~= cat.skip(i as int + 1));
            assert(cat.skip(i as int)[0] == cat[i as int]);
        }
        proof {
            assert(t@[i as int]@ == cat[i as int]);
        }
        if eq_vec(&chars_of(t[i].id), &chars_of(id)) {
            let p = t.remove(i);
            return Some(p);
        }
        i += 1;
    }
    None
}

/// Whether `e` is one of the strings in `v`.
fn contains_str(v: &Vec<&'static str>, e: &Vec<char>) -> (b: bool)
    ensures
        b == str_views(v@).contains(e@),
{
    let mut i: usize = 0;
    while i < v.len()
        invariant
            i <= v.len(),
            forall|j: int| 0 <= j < i ==> str_views(v@)[j] != e@,
        decreases v.len() - i,
    {
        if eq_vec(&chars_of(v[i]), e) {
            proof {
                assert(str_views(v@)[i as int] == e@);
            }
            return true;
        }
        i += 1;
    }
    false
}

/// The id of the first catalogue entry that claims extension `e`.
pub open spec fn first_with_ext(t: Seq<PlatformView>, e: Seq<char>) -> Option<Seq<char>>
    decreases t.len(),
{
    if t.len() == 0 {
        None
    } else if t[0].extensions.contains(e) {
        Some(t[0].id)
    } else {
        first_with_ext(t.drop_first(), e)
    }
}

/// Extension routing: the shared disc extensions go to their most common
/// console (`.iso`/`.bin` PS2; the CD formats `.chd`/`.cue`/`.m3u`/`.img` PS1;
/// `.cso` PSP); any other goes to the first platform that claims it. The
/// extension is compared in ASCII lowercase.
pub open spec fn platform_for_extension_spec(ext: Seq<char>) -> Option<Seq<char>> {
    let e = lower_str(ext);
    if e == "iso"@ || e == "bin"@ {
        Some("ps2"@)
    } else if e == "chd"@ || e == "cue"@ || e == "m3u"@ || e == "img"@ {
        Some("ps1"@)
    } else if e == "cso"@ {
        Some("psp"@)
    } else {
        first_with_ext(catalogue(), e)
    }
}

fn first_with_ext_exec(e: &Vec<char>) -> (r: Option<&'static str>)
    ensures
        opt_str(r) == first_with_ext(catalogue(), e@),
{
    let t = platforms();
    let ghost cat = catalogue();
    let mut i: usize = 0;
    proof {
        assert(cat.skip(0) =~= cat);
    }
    while i < t.len()
        invariant
            i <= t.len(),
            def_views(t@) == cat,
            cat == catalogue(),
            first_with_ext(cat, e@) == first_with_ext(cat.skip(i as int), e@),
        decreases t.len() - i,
    {
        proof {
            assert(cat.skip(i as int).drop_first() =~= cat.skip(i as int + 1));
            assert(cat.skip(i as int)[0] == cat[i as int]);
            assert(t@[i as int]@ == cat[i as int]);
        }
        if contains_str(&t[i].extensions, e) {
            return Some(t[i].id);
        }
        i += 1;
    }
    proof {
        assert(cat.skip(i as int).len() == 0);
    }
    None
}

/// Resolve an extension (no dot) to a platform id.
///
/// Several platforms share generic extensions (`.iso`, `.bin`, `.cso`); those
/// go to the most common disc-based console. Specific extensions always win.
pub fn platform_for_extension(ext: &str) -> (r: Option<&'static str>)
    ensures
        opt_str(r) == platform_for_extension_spec(ext@),
{
    let e = lower_vec(&chars_of(ext));
    if eq_str(&e, "iso") || eq_str(&e, "bin") {
        return Some("ps2");
    }
    if eq_str(&e, "chd") || eq_str(&e, "cue") || eq_str(&e, "m3u") || eq_str(&e, "img") {
        return Some("ps1");
    }
    if eq_str(&e, "cso") {
        return Some("psp");
    }
    first_with_ext_exec(&e)
}

// ── Sony title ids ─────────────────────────────────────────────────────────

/// Which Sony console a title id's leading letters name.
#[derive(Debug, Clone, Copy, PartialEq, Eq, Structural)]
pub enum SonyFamily {
    /// Disc ids start with `B` (BLES/BLUS/BCES/…), PSN ids with `NP`.
    Ps3,
    /// UMD ids start `UL`/`UC`.
    Psp,
    /// Disc ids start `SL`/`SC`.
    Ps2,
}

pub open spec fn is_upper(c: char) -> bool {
    'A' <= c <= 'Z'
}

/// Four ASCII uppercase letters then five ASCII digits start at `i`.
pub open spec fn title_id_at(s: Seq<char>, i: int) -> bool {
    &&& 0 <= i
    &&& i + 9 <= s.len()
    &&& forall|k: int| 0 <= k < 4 ==> is_upper(#[trigger] s[i + k])
    &&& forall|k: int| 4 <= k < 9 ==> is_digit(#[trigger] s[i + k])
}

pub open spec fn family_prefix(f: SonyFamily, s: Seq<char>, i: int) -> bool {
    match f {
        SonyFamily::Ps3 => s[i] == 'B' || (s[i] == 'N' && s[i + 1] == 'P'),
        SonyFamily::Psp => s[i] == 'U' && (s[i + 1] == 'C' || s[i + 1] == 'L'),
        SonyFamily::Ps2 => s[i] == 'S' && (s[i + 1] == 'C' || s[i + 1] == 'L'),
    }
}

/// `name` contains a title id of the family: four uppercase letters and five
/// digits, led by the family's letters.
pub open spec fn has_title_id(name: Seq<char>, f: SonyFamily) -> bool {
    exists|i: int| title_id_at(name, i) && family_prefix(f, name, i)
}

fn title_id_at_exec(s: &Vec<char>, i: usize) -> (b: bool)
    requires
        i + 9 <= s.len(),
    ensures
        b == title_id_at(s@, i as int),
{
    let mut k: usize = 0;
    while k < 4
        invariant
            k <= 4,
            i + 9 <= s.len(),
            forall|j: int| 0 <= j < k ==> is_upper(#[trigger] s@[i + j]),
        decreases 4 - k,
    {
        let c = s[i + k];
        if !('A' <= c && c <= 'Z') {
            proof {
                assert(!is_upper(s@[i + k as int]));
            }
            return false;
        }
        k += 1;
    }
    while k < 9
        invariant
            4 <= k <= 9,
            i + 9 <= s.len(),
            forall|j: int| 0 <= j < 4 ==> is_upper(#[trigger] s@[i + j]),
            forall|j: int| 4 <= j < k ==> is_digit(#[trigger] s@[i + j]),
        decreases 9 - k,
    {
        let c = s[i + k];
        if !('0' <= c && c <= '9') {
            proof {
                assert(!is_digit(s@[i + k as int]));
            }
            return false;
        }
        k += 1;
    }
    true
}

fn family_prefix_exec(s: &Vec<char>, i: usize, f: SonyFamily) -> (b: bool)
    requires
        i + 9 <= s.len(),
    ensures
        b == family_prefix(f, s@, i as int),
{
    let a = s[i];
    let b = s[i + 1];
    match f {
        SonyFamily::Ps3 => a == 'B' || (a == 'N' && b == 'P'),
        SonyFamily::Psp => a == 'U' && (b == 'C' || b == 'L'),
        SonyFamily::Ps2 => a == 'S' && (b == 'C' || b == 'L'),
    }
}

fn contains_title_id(s: &Vec<char>, f: SonyFamily) -> (b: bool)
    ensures
        b == has_title_id(s@, f),
{
    let mut i: usize = 0;
    while i <= s.len() && 9 <= s.len() - i
        invariant
            i <= s.len() + 1,
            forall|j: int| 0 <= j < i ==> !(title_id_at(s@, j) && family_prefix(f, s@, j)),
        decreases s.len() - i,
    {
        if title_id_at_exec(s, i) && family_prefix_exec(s, i, f) {
            return true;
        }
        i += 1;
    }
    proof {
        assert forall|j: int| !(title_id_at(s@, j) && family_prefix(f, s@, j)) by {
            if title_id_at(s@, j) {
                assert(j < i);
            }
        }
    }
    false
}

/// PS3 title id: disc ids start with `B`, PSN ids with `NP`. PS2 and PSP ids
/// don't, so this won't claim them.
pub fn contains_ps3_title_id(name: &str) -> (b: bool)
    ensures
        b == has_title_id(name@, SonyFamily::Ps3),
{
    contains_title_id(&chars_of(name), SonyFamily::Ps3)
}

/// PSP UMD disc id: starts `UL`/`UC` (ULUS, ULES, UCUS, UCES, ULJM, …).
pub fn contains_psp_title_id(name: &str) -> (b: bool)
    ensures
        b == has_title_id(name@, SonyFamily::Psp),
{
    contains_title_id(&chars_of(name), SonyFamily::Psp)
}

/// PS2 disc id: starts `SL`/`SC` (SLUS, SCES, SLPS, …).
pub fn contains_ps2_title_id(name: &str) -> (b: bool)
    ensures
        b == has_title_id(name@, SonyFamily::Ps2),
{
    contains_title_id(&chars_of(name), SonyFamily::Ps2)
}

/// Name-only routing: `.iso` is PS3 or PSP by a title id in the stem, else
/// PS2; `.cso` is PS2 by a PS2 title id, else PSP; anything else goes by
/// extension.
/// A text has at least as many UTF-8 bytes as characters.
proof fn lemma_utf8_len_at_least_chars(s: Seq<char>)
    ensures
        encode_utf8(s).len() >= s.len(),
    decreases s.len(),
{
    if s.len() > 0 {
        lemma_utf8_len_at_least_chars(s.drop_first());
    }
}

/// A single title id (a name of nine bytes) is never claimed by two Sony
/// generations.
pub proof fn law_title_id_families_exclusive(name: Seq<char>, f: SonyFamily, g: SonyFamily)
    requires
        encode_utf8(name).len() == 9,
        f != g,
    ensures
        !(has_title_id(name, f) && has_title_id(name, g)),
{
    lemma_utf8_len_at_least_chars(name);
    if has_title_id(name, f) && has_title_id(name, g) {
        let i = choose|i: int| title_id_at(name, i) && family_prefix(f, name, i);
        let j = choose|j: int| title_id_at(name, j) && family_prefix(g, name, j);
        assert(i == 0 && j == 0);
    }
}

pub open spec fn resolve_platform_spec(stem: Seq<char>, ext: Seq<char>) -> Option<Seq<char>> {
    if ext == "iso"@ {
        Some(
            if has_title_id(stem, SonyFamily::Ps3) {
                "ps3"@
            } else if has_title_id(stem, SonyFamily::Psp) {
                "psp"@
            } else {
                "ps2"@
            },
        )
    } else if ext == "cso"@ {
        Some(
            if has_title_id(stem, SonyFamily::Ps2) {
                "ps2"@
            } else {
                "psp"@
            },
        )
    } else {
        platform_for_extension_spec(ext)
    }
}

/// Resolve a ROM to a platform from its filename stem and extension alone,
/// disambiguating the shared Sony disc extensions by the title id embedded in
/// many filenames.
pub fn resolve_platform(stem: &str, ext: &str) -> (r: Option<&'static str>)
    ensures
        opt_str(r) == resolve_platform_spec(stem@, ext@),
{
    let e = chars_of(ext);
    if eq_str(&e, "iso") {
        if contains_ps3_title_id(stem) {
            Some("ps3")
        } else if contains_psp_title_id(stem) {
            Some("psp")
        } else {
            Some("ps2")
        }
    } else if eq_str(&e, "cso") {
        if contains_ps2_title_id(stem) {
            Some("ps2")
        } else {
            Some("psp")
        }
    } else {
        platform_for_extension(ext)
    }
}

// ── guesses ────────────────────────────────────────────────────────────────

/// A content-derived platform guess, viewed as plain values.
#[verifier::ext_equal]
pub struct GuessView {
    pub platform: Seq<char>,
    pub title: Option<Seq<char>>,
    pub precise: bool,
}

/// A content-derived platform guess and how much to trust it. `precise` means
/// a confident signal (a specific extension, a structural disc read, a Sony
/// title id); otherwise the platform is only a shared-extension or arcade
/// default that the folder hint may override.
#[derive(Debug, Clone)]
pub struct Guess {
    pub platform: &'static str,
    pub title: Option<String>,
    pub precise: bool,
}

impl View for Guess {
    type V = GuessView;

    open spec fn view(&self) -> GuessView {
        GuessView { platform: self.platform@, title: opt_view(self.title), precise: self.precise }
    }
}

pub open spec fn exact(platform: Seq<char>, title: Option<Seq<char>>) -> GuessView {
    GuessView { platform, title, precise: true }
}

pub open spec fn vague(platform: Seq<char>) -> GuessView {
    GuessView { platform, title: None, precise: false }
}

pub open spec fn opt_guess(o: Option<Guess>) -> Option<GuessView> {
    match o {
        Some(g) => Some(g@),
        None => None,
    }
}

impl Guess {
    pub fn precise(platform: &'static str, title: Option<String>) -> (g: Self)
        ensures
            g.platform == platform,
            g.title == title,
            g.precise,
    {
        Guess { platform, title, precise: true }
    }

    pub fn ambiguous(platform: &'static str) -> (g: Self)
        ensures
            g.platform == platform,
            g.title is None,
            !g.precise,
    {
        Guess { platform, title: None, precise: false }
    }
}

/// Name-only classification with precision: title ids and specific
/// extensions are confident; the shared disc extensions fall back to their
/// most common console as an ambiguous default.
pub open spec fn classify_by_name_spec(stem: Seq<char>, ext: Seq<char>) -> Option<GuessView> {
    if ext == "iso"@ {
        if has_title_id(stem, SonyFamily::Ps3) {
            Some(exact("ps3"@, None))
        } else if has_title_id(stem, SonyFamily::Psp) {
            Some(exact("psp"@, None))
        } else {
            Some(vague("ps2"@))
        }
    } else if ext == "cso"@ {
        if has_title_id(stem, SonyFamily::Ps2) {
            Some(exact("ps2"@, None))
        } else {
            Some(vague("psp"@))
        }
    } else if ext == "bin"@ {
        Some(vague("ps2"@))
    } else if ext == "chd"@ || ext == "cue"@ || ext == "m3u"@ || ext == "img"@ {
        Some(vague("ps1"@))
    } else {
        match platform_for_extension_spec(ext) {
            Some(p) => Some(exact(p, None)),
            None => None,
        }
    }
}

/// Resolve from filename and extension only, tagging precision.
pub fn classify_by_name(stem: &Vec<char>, ext: &Vec<char>) -> (r: Option<Guess>)
    ensures
        opt_guess(r) == classify_by_name_spec(stem@, ext@),
{
    let st = string_of(stem);
    if eq_str(ext, "iso") {
        if contains_ps3_title_id(st.as_str()) {
            return Some(Guess::precise("ps3", None));
        }
        if contains_psp_title_id(st.as_str()) {
            return Some(Guess::precise("psp", None));
        }
        return Some(Guess::ambiguous("ps2"));
    }
    if eq_str(ext, "cso") {
        if contains_ps2_title_id(st.as_str()) {
            return Some(Guess::precise("ps2", None));
        }
        return Some(Guess::ambiguous("psp"));
    }
    if eq_str(ext, "bin") {
        return Some(Guess::ambiguous("ps2"));
    }
    if eq_str(ext, "chd") || eq_str(ext, "cue") || eq_str(ext, "m3u") || eq_str(ext, "img") {
        return Some(Guess::ambiguous("ps1"));
    }
    let es = string_of(ext);
    match platform_for_extension(es.as_str()) {
        Some(p) => Some(Guess::precise(p, None)),
        None => None,
    }
}

// ── archives ───────────────────────────────────────────────────────────────

/// Like extension routing, but only for unambiguous cartridge extensions: the
/// shared disc and archive formats give nothing.
pub open spec fn cartridge_platform_spec(ext: Seq<char>) -> Option<Seq<char>> {
    if ext == "iso"@ || ext == "bin"@ || ext == "chd"@ || ext == "cso"@ || ext == "cue"@ || ext
        == "m3u"@ || ext == "img"@ || ext == "zip"@ || ext == "7z"@ {
        None
    } else {
        platform_for_extension_spec(ext)
    }
}

fn cartridge_platform_for_extension(ext: &Vec<char>) -> (r: Option<&'static str>)
    ensures
        opt_str(r) == cartridge_platform_spec(ext@),
{
    if eq_str(ext, "iso") || eq_str(ext, "bin") || eq_str(ext, "chd") || eq_str(ext, "cso")
        || eq_str(ext, "cue") || eq_str(ext, "m3u") || eq_str(ext, "img") || eq_str(ext, "zip")
        || eq_str(ext, "7z") {
        return None;
    }
    let es = string_of(ext);
    platform_for_extension(es.as_str())
}

/// Disc-image descriptors that, inside an archive, mark a console game rather
/// than an arcade romset, in boot-preference order (a sheet or playlist wins
/// over the raw image it points at). `.bin` is excluded: an arcade romset is
/// often many `.bin` chip dumps.
pub open spec fn archived_disc_exts() -> Seq<Seq<char>> {
    seq!["m3u"@, "cue"@, "gdi"@, "cdi"@, "iso"@, "chd"@, "cso"@, "img"@]
}

/// The lowercased extension of a path, if it has one.
pub open spec fn lower_ext(name: Seq<char>) -> Option<Seq<char>> {
    match extension(name) {
        Some(e) => Some(lower_str(e)),
        None => None,
    }
}

/// The first name whose extension equals `e`, ignoring ASCII case.
pub open spec fn first_named(names: Seq<Seq<char>>, e: Seq<char>) -> Option<Seq<char>>
    decreases names.len(),
{
    if names.len() == 0 {
        None
    } else if lower_ext(names[0]) == Some(lower_str(e)) {
        Some(names[0])
    } else {
        first_named(names.drop_first(), e)
    }
}

/// The representative disc descriptor: for the first extension in `exts` that
/// some name carries, the first such name.
pub open spec fn pick_disc_from(exts: Seq<Seq<char>>, names: Seq<Seq<char>>) -> Option<Seq<char>>
    decreases exts.len(),
{
    if exts.len() == 0 {
        None
    } else {
        match first_named(names, exts[0]) {
            Some(n) => Some(n),
            None => pick_disc_from(exts.drop_first(), names),
        }
    }
}

fn lower_ext_exec(name: &Vec<char>) -> (r: Option<Vec<char>>)
    ensures
        match r {
            Some(e) => lower_ext(name@) == Some(e@),
            None => lower_ext(name@) is None,
        },
{
    match extension_vec(name) {
        Some(e) => Some(lower_vec(&e)),
        None => None,
    }
}

fn first_named_exec(names: &Vec<Vec<char>>, e: &Vec<char>) -> (r: Option<usize>)
    ensures
        match r {
            Some(i) => i < names.len() && first_named(views(names@), e@) == Some(names@[i as int]@),
            None => first_named(views(names@), e@) is None,
        },
{
    let le = lower_vec(e);
    let ghost ns = views(names@);
    let mut i: usize = 0;
    proof {
        assert(ns.skip(0) =~= ns);
    }
    while i < names.len()
        invariant
            i <= names.len(),
            ns == views(names@),
            le@ == lower_str(e@),
            first_named(ns, e@) == first_named(ns.skip(i as int), e@),
        decreases names.len() - i,
    {
        proof {
            assert(ns.skip(i as int).drop_first() =~= ns.skip(i as int + 1));
            assert(ns.skip(i as int)[0] == names@[i as int]@);
        }
        match lower_ext_exec(&names[i]) {
            Some(x) => {
                if eq_vec(&x, &le) {
                    return Some(i);
                }
            },
            None => {},
        }
        i += 1;
    }
    None
}

/// The representative disc descriptor in an archive, preferring a sheet or
/// playlist over the raw image it references; `None` if the archive holds no
/// disc image.
fn pick_archived_disc(names: &Vec<Vec<char>>) -> (r: Option<usize>)
    ensures
        match r {
            Some(i) => i < names.len() && pick_disc_from(archived_disc_exts(), views(names@))
                == Some(names@[i as int]@),
            None => pick_disc_from(archived_disc_exts(), views(names@)) is None,
        },
{
    let exts: Vec<&'static str> = vec!["m3u", "cue", "gdi", "cdi", "iso", "chd", "cso", "img"];
    let ghost es = archived_disc_exts();
    proof {
        assert(str_views(exts@) =~= es);
        assert(es.skip(0) =~= es);
    }
    let mut k: usize = 0;
    while k < exts.len()
        invariant
            k <= exts.len(),
            str_views(exts@) == es,
            es == archived_disc_exts(),
            pick_disc_from(es, views(names@)) == pick_disc_from(es.skip(k as int), views(names@)),
        decreases exts.len() - k,
    {
        proof {
            assert(es.skip(k as int).drop_first() =~= es.skip(k as int + 1));
            assert(es.skip(k as int)[0] == exts@[k as int]@);
        }
        let e = chars_of(exts[k]);
        match first_named_exec(names, &e) {
            Some(i) => {
                return Some(i);
            },
            None => {},
        }
        k += 1;
    }
    None
}

/// The cartridge platform a name's extension identifies, if any.
pub open spec fn cart_of(name: Seq<char>) -> Option<Seq<char>> {
    match lower_ext(name) {
        Some(e) => cartridge_platform_spec(e),
        None => None,
    }
}

/// Every recognised cartridge among `names` belongs to `p`, and there is one.
pub open spec fn only_cart(names: Seq<Seq<char>>, p: Seq<char>) -> bool {
    &&& exists|i: int| 0 <= i < names.len() && cart_of(names[i]) == Some(p)
    &&& forall|i: int| 0 <= i < names.len() && (#[trigger] cart_of(names[i])) is Some ==> cart_of(
        names[i],
    ) == Some(p)
}

pub open spec fn inner_stem(name: Seq<char>) -> Seq<char> {
    match file_stem(name) {
        Some(s) => s,
        None => seq![],
    }
}

pub open spec fn inner_ext(name: Seq<char>) -> Seq<char> {
    match lower_ext(name) {
        Some(e) => e,
        None => seq![],
    }
}

/// Archive classification from its entry names (`.zip` and `.7z` alike):
/// a disc image inside is a console game, routed by its inner name exactly as
/// a loose file of that name (with that name's precision); else a single
/// cartridge platform among the entries identifies the console; else the
/// archive is an arcade romset, as a default the folder hint may correct (an
/// unreadable archive has no names and lands here).
pub open spec fn classify_archive_spec(names: Seq<Seq<char>>) -> GuessView {
    let by_cart = if exists|p: Seq<char>| only_cart(names, p) {
        exact(choose|p: Seq<char>| only_cart(names, p), None)
    } else {
        vague("arcade"@)
    };
    match pick_disc_from(archived_disc_exts(), names) {
        Some(inner) => match classify_by_name_spec(inner_stem(inner), inner_ext(inner)) {
            Some(g) => g,
            None => by_cart,
        },
        None => by_cart,
    }
}

fn cart_of_exec(name: &Vec<char>) -> (r: Option<&'static str>)
    ensures
        opt_str(r) == cart_of(name@),
{
    match lower_ext_exec(name) {
        Some(e) => cartridge_platform_for_extension(&e),
        None => None,
    }
}

fn classify_by_cartridge(names: &Vec<Vec<char>>) -> (g: Guess)
    ensures
        g@ == (if exists|p: Seq<char>| only_cart(views(names@), p) {
            exact(choose|p: Seq<char>| only_cart(views(names@), p), None)
        } else {
            vague("arcade"@)
        }),
{
    let ghost ns = views(names@);
    let mut found: Option<&'static str> = None;
    let mut mixed = false;
    let mut i: usize = 0;
    while i < names.len()
        invariant
            i <= names.len(),
            ns == views(names@),
            found is None ==> forall|j: int| 0 <= j < i ==> (#[trigger] cart_of(ns[j])) is None,
            found is Some ==> exists|j: int| 0 <= j < i && cart_of(ns[j]) == Some(found->0@),
            found is Some && !mixed ==> forall|j: int|
                0 <= j < i && (#[trigger] cart_of(ns[j])) is Some ==> cart_of(ns[j]) == Some(
                    found->0@,
                ),
            mixed ==> exists|j1: int, j2: int|
                0 <= j1 < i && 0 <= j2 < i && (#[trigger] cart_of(ns[j1])) is Some && (
                #[trigger] cart_of(ns[j2])) is Some && cart_of(ns[j1]) != cart_of(ns[j2]),
        decreases names.len() - i,
    {
        proof {
            assert(ns[i as int] == names@[i as int]@);
        }
        match cart_of_exec(&names[i]) {
            Some(p) => {
                match found {
                    None => {
                        found = Some(p);
                    },
                    Some(f) => {
                        if !eq_vec(&chars_of(f), &chars_of(p)) {
                            if !mixed {
                                proof {
                                    let w = choose|j: int|
                                        0 <= j < i && cart_of(ns[j]) == Some(f@);
                                    assert(cart_of(ns[w]) is Some);
                                    assert(cart_of(ns[i as int]) is Some);
                                }
                            }
                            mixed = true;
                        }
                    },
                }
            },
            None => {},
        }
        i += 1;
    }
    match found {
        Some(f) => {
            if !mixed {
                proof {
                    assert(only_cart(ns, f@));
                    let q = choose|p: Seq<char>| only_cart(ns, p);
                    assert(q == f@) by {
                        let w = choose|j: int| 0 <= j < ns.len() && cart_of(ns[j]) == Some(q);
                        assert(cart_of(ns[w]) is Some);
                    }
                }
                Guess::precise(f, None)
            } else {
                proof {
                    assert forall|p: Seq<char>| !only_cart(ns, p) by {
                        let (j1, j2) = choose|j1: int, j2: int|
                            0 <= j1 < ns.len() && 0 <= j2 < ns.len() && (
                            #[trigger] cart_of(ns[j1])) is Some && (#[trigger] cart_of(
                                ns[j2],
                            )) is Some && cart_of(ns[j1]) != cart_of(ns[j2]);
                        if only_cart(ns, p) {
                            assert(cart_of(ns[j1]) == Some(p));
                            assert(cart_of(ns[j2]) == Some(p));
                        }
                    }
                }
                Guess::ambiguous("arcade")
            }
        },
        None => {
            proof {
                assert forall|p: Seq<char>| !only_cart(ns, p) by {
                    if only_cart(ns, p) {
                        let w = choose|j: int| 0 <= j < ns.len() && cart_of(ns[j]) == Some(p);
                        assert(cart_of(ns[w]) is None);
                    }
                }
            }
            Guess::ambiguous("arcade")
        },
    }
}

/// Classify an archive from its entry names.
pub fn classify_archive(names: &Vec<String>) -> (g: Guess)
    ensures
        g@ == classify_archive_spec(string_views(names@)),
{
    let mut cs: Vec<Vec<char>> = Vec::new();
    let mut i: usize = 0;
    while i < names.len()
        invariant
            i <= names.len(),
            views(cs@) == string_views(names@).take(i as int),
        decreases names.len() - i,
    {
        let c = chars_of(names[i].as_str());
        proof {
            assert(c@ == string_views(names@)[i as int]);
        }
        let ghost o = views(cs@);
        cs.push(c);
        proof {
            assert(views(cs@) =~= o.push(c@));
            assert(o.push(c@) =~= string_views(names@).take(i as int + 1));
            assert(views(cs@) =~= string_views(names@).take(i as int + 1));
        }
        i += 1;
    }
    proof {
        assert(views(cs@) =~= string_views(names@));
    }
    match pick_archived_disc(&cs) {
        Some(k) => {
            let stem = match file_stem_vec(&cs[k]) {
                Some(s) => s,
                None => Vec::new(),
            };
            let ext = match lower_ext_exec(&cs[k]) {
                Some(e) => e,
                None => Vec::new(),
            };
            proof {
                assert(stem@ == inner_stem(cs@[k as int]@));
                assert(ext@ == inner_ext(cs@[k as int]@));
            }
            match classify_by_name(&stem, &ext) {
                Some(g) => g,
                None => classify_by_cartridge(&cs),
            }
        },
        None => classify_by_cartridge(&cs),
    }
}

// ── folder hints ───────────────────────────────────────────────────────────

pub open spec fn is_alnum(c: char) -> bool {
    ('a' <= c <= 'z') || ('A' <= c <= 'Z') || ('0' <= c <= '9')
}

/// A folder name reduced to its ASCII alphanumerics, lowercased.
pub open spec fn fold_name(s: Seq<char>) -> Seq<char>
    decreases s.len(),
{
    if s.len() == 0 {
        seq![]
    } else if is_alnum(s.last()) {
        fold_name(s.drop_last()).push(lower_char(s.last()))
    } else {
        fold_name(s.drop_last())
    }
}

/// The platform a normalised folder name unambiguously stands for. A combined
/// folder like `Wii_GC` (`wiigc`) deliberately has no entry.
pub open spec fn folder_alias_spec(n: Seq<char>) -> Option<Seq<char>> {
    if n == "ps1"@ || n == "psx"@ || n == "psone"@ || n == "playstation"@ || n == "playstation1"@ {
        Some("ps1"@)
    } else if n == "ps2"@ || n == "playstation2"@ {
        Some("ps2"@)
    } else if n == "ps3"@ || n == "playstation3"@ {
        Some("ps3"@)
    } else if n == "psp"@ || n == "playstationportable"@ {
        Some("psp"@)
    } else if n == "vita"@ || n == "psvita"@ || n == "playstationvita"@ {
        Some("vita"@)
    } else if n == "nes"@ || n == "famicom"@ {
        Some("nes"@)
    } else if n == "snes"@ || n == "sfc"@ || n == "superfamicom"@ || n == "supernintendo"@ || n == "supernes"@ {
        Some("snes"@)
    } else if n == "n64"@ || n == "nintendo64"@ {
        Some("n64"@)
    } else if n == "gamecube"@ || n == "gcn"@ || n == "ngc"@ {
        Some("gamecube"@)
    } else if n == "wii"@ {
        Some("wii"@)
    } else if n == "wiiu"@ {
        Some("wiiu"@)
    } else if n == "gb"@ || n == "gameboy"@ {
        Some("gb"@)
    } else if n == "gbc"@ || n == "gameboycolor"@ {
        Some("gbc"@)
    } else if n == "gba"@ || n == "gameboyadvance"@ {
        Some("gba"@)
    } else if n == "nds"@ || n == "nintendods"@ {
        Some("nds"@)
    } else if n == "3ds"@ || n == "n3ds"@ || n == "nintendo3ds"@ {
        Some("n3ds"@)
    } else if n == "switch"@ || n == "nintendoswitch"@ {
        Some("switch"@)
    } else if n == "genesis"@ || n == "megadrive"@ || n == "segagenesis"@ || n == "segamegadrive"@ {
        Some("genesis"@)
    } else if n == "mastersystem"@ || n == "sms"@ || n == "segamastersystem"@ {
        Some("sms"@)
    } else if n == "gamegear"@ {
        Some("gamegear"@)
    } else if n == "saturn"@ || n == "segasaturn"@ {
        Some("saturn"@)
    } else if n == "dreamcast"@ || n == "segadreamcast"@ {
        Some("dreamcast"@)
    } else if n == "segacd"@ || n == "megacd"@ {
        Some("segacd"@)
    } else if n == "sega32x"@ || n == "32x"@ {
        Some("sega32x"@)
    } else if n == "pcengine"@ || n == "turbografx"@ || n == "turbografx16"@ || n == "tg16"@ {
        Some("pcengine"@)
    } else if n == "xbox"@ {
        Some("xbox"@)
    } else if n == "atari2600"@ {
        Some("atari2600"@)
    } else if n == "atari5200"@ {
        Some("atari5200"@)
    } else if n == "atari7800"@ {
        Some("atari7800"@)
    } else if n == "jaguar"@ || n == "atarijaguar"@ {
        Some("jaguar"@)
    } else if n == "lynx"@ || n == "atarilynx"@ {
        Some("lynx"@)
    } else if n == "arcade"@ || n == "mame"@ || n == "fbneo"@ || n == "fba"@ || n == "neogeo"@ {
        Some("arcade"@)
    } else {
        None
    }
}

fn folder_alias(n: &Vec<char>) -> (r: Option<&'static str>)
    ensures
        opt_str(r) == folder_alias_spec(n@),
{
    if eq_str(n, "ps1") || eq_str(n, "psx") || eq_str(n, "psone") || eq_str(n, "playstation") || eq_str(n, "playstation1") {
        Some("ps1")
    } else if eq_str(n, "ps2") || eq_str(n, "playstation2") {
        Some("ps2")
    } else if eq_str(n, "ps3") || eq_str(n, "playstation3") {
        Some("ps3")
    } else if eq_str(n, "psp") || eq_str(n, "playstationportable") {
        Some("psp")
    } else if eq_str(n, "vita") || eq_str(n, "psvita") || eq_str(n, "playstationvita") {
        Some("vita")
    } else if eq_str(n, "nes") || eq_str(n, "famicom") {
        Some("nes")
    } else if eq_str(n, "snes") || eq_str(n, "sfc") || eq_str(n, "superfamicom") || eq_str(n, "supernintendo") || eq_str(n, "supernes") {
        Some("snes")
    } else if eq_str(n, "n64") || eq_str(n, "nintendo64") {
        Some("n64")
    } else if eq_str(n, "gamecube") || eq_str(n, "gcn") || eq_str(n, "ngc") {
        Some("gamecube")
    } else if eq_str(n, "wii") {
        Some("wii")
    } else if eq_str(n, "wiiu") {
        Some("wiiu")
    } else if eq_str(n, "gb") || eq_str(n, "gameboy") {
        Some("gb")
    } else if eq_str(n, "gbc") || eq_str(n, "gameboycolor") {
        Some("gbc")
    } else if eq_str(n, "gba") || eq_str(n, "gameboyadvance") {
        Some("gba")
    } else if eq_str(n, "nds") || eq_str(n, "nintendods") {
        Some("nds")
    } else if eq_str(n, "3ds") || eq_str(n, "n3ds") || eq_str(n, "nintendo3ds") {
        Some("n3ds")
    } else if eq_str(n, "switch") || eq_str(n, "nintendoswitch") {
        Some("switch")
    } else if eq_str(n, "genesis") || eq_str(n, "megadrive") || eq_str(n, "segagenesis") || eq_str(n, "segamegadrive") {
        Some("genesis")
    } else if eq_str(n, "mastersystem") || eq_str(n, "sms") || eq_str(n, "segamastersystem") {
        Some("sms")
    } else if eq_str(n, "gamegear") {
        Some("gamegear")
    } else if eq_str(n, "saturn") || eq_str(n, "segasaturn") {
        Some("saturn")
    } else if eq_str(n, "dreamcast") || eq_str(n, "segadreamcast") {
        Some("dreamcast")
    } else if eq_str(n, "segacd") || eq_str(n, "megacd") {
        Some("segacd")
    } else if eq_str(n, "sega32x") || eq_str(n, "32x") {
        Some("sega32x")
    } else if eq_str(n, "pcengine") || eq_str(n, "turbografx") || eq_str(n, "turbografx16") || eq_str(n, "tg16") {
        Some("pcengine")
    } else if eq_str(n, "xbox") {
        Some("xbox")
    } else if eq_str(n, "atari2600") {
        Some("atari2600")
    } else if eq_str(n, "atari5200") {
        Some("atari5200")
    } else if eq_str(n, "atari7800") {
        Some("atari7800")
    } else if eq_str(n, "jaguar") || eq_str(n, "atarijaguar") {
        Some("jaguar")
    } else if eq_str(n, "lynx") || eq_str(n, "atarilynx") {
        Some("lynx")
    } else if eq_str(n, "arcade") || eq_str(n, "mame") || eq_str(n, "fbneo") || eq_str(n, "fba") || eq_str(n, "neogeo") {
        Some("arcade")
    } else {
        None
    }
}

/// The directory components of a path: its components without the last one.
pub open spec fn dir_components(path: Seq<char>) -> Seq<Seq<char>> {
    let c = components(path);
    if c.len() == 0 {
        c
    } else {
        c.drop_last()
    }
}

/// The deepest component with a folder alias decides.
pub open spec fn deepest_hint(comps: Seq<Seq<char>>) -> Option<Seq<char>>
    decreases comps.len(),
{
    if comps.len() == 0 {
        None
    } else {
        match folder_alias_spec(fold_name(comps.last())) {
            Some(p) => Some(p),
            None => deepest_hint(comps.drop_last()),
        }
    }
}

pub open spec fn folder_hint_spec(path: Seq<char>) -> Option<Seq<char>> {
    deepest_hint(dir_components(path))
}

/// The folder hint never looks at the file name: every file directly in a
/// folder `d` gets the hint of `d`'s own components, the deepest known
/// folder alias among them.
pub proof fn law_folder_hint_ignores_file_name(d: Seq<char>, f1: Seq<char>, f2: Seq<char>)
    requires
        crate::pathname::components(f1) == seq![f1],
        crate::pathname::components(f2) == seq![f2],
    ensures
        folder_hint_spec(d + (seq!['/'] + f1)) == folder_hint_spec(d + (seq!['/'] + f2)),
        folder_hint_spec(d + (seq!['/'] + f1)) == deepest_hint(crate::pathname::components(d)),
{
    crate::pathname::lemma_components_concat(d, f1);
    crate::pathname::lemma_components_concat(d, f2);
    let cd = crate::pathname::components(d);
    assert((cd + seq![f1]).drop_last() =~= cd);
    assert((cd + seq![f2]).drop_last() =~= cd);
}

fn fold_name_exec(s: &Vec<char>) -> (r: Vec<char>)
    ensures
        r@ == fold_name(s@),
{
    let mut r: Vec<char> = Vec::new();
    let mut i: usize = 0;
    proof {
        assert(s@.take(0) =~= seq![]);
    }
    while i < s.len()
        invariant
            i <= s.len(),
            r@ == fold_name(s@.take(i as int)),
        decreases s.len() - i,
    {
        let c = s[i];
        proof {
            assert(s@.take(i as int + 1).drop_last() =~= s@.take(i as int));
            assert(s@.take(i as int + 1).last() == c);
        }
        if ('a' <= c && c <= 'z') || ('A' <= c && c <= 'Z') || ('0' <= c && c <= '9') {
            r.push(lower_char_exec(c));
        }
        i += 1;
    }
    proof {
        assert(s@.take(s.len() as int) =~= s@);
    }
    r
}

/// Infer a platform from the directories a ROM lives under, the system folder
/// the user files it in (`…/Sony/PS2/Games/…`). Each directory component is
/// reduced to lowercase alphanumerics and matched against known folder
/// aliases; the deepest match wins, and the file name itself is never
/// inspected.
pub fn folder_platform_hint(path: &str) -> (r: Option<&'static str>)
    ensures
        opt_str(r) == folder_hint_spec(path@),
{
    let mut comps = components_vec(&chars_of(path));
    if comps.len() > 0 {
        comps.pop();
    }
    let ghost cs = views(comps@);
    proof {
        assert(cs =~= dir_components(path@));
        assert(cs.take(cs.len() as int) =~= cs);
    }
    let mut i: usize = comps.len();
    while i > 0
        invariant
            i <= comps.len(),
            cs == views(comps@),
            cs == dir_components(path@),
            deepest_hint(cs) == deepest_hint(cs.take(i as int)),
        decreases i,
    {
        proof {
            assert(cs.take(i as int).drop_last() =~= cs.take(i as int - 1));
            assert(cs.take(i as int).last() == comps@[i - 1]@);
        }
        let n = fold_name_exec(&comps[i - 1]);
        match folder_alias(&n) {
            Some(p) => {
                proof {
                    assert(folder_alias_spec(fold_name(cs.take(i as int).last())) == Some(p@));
                    assert(deepest_hint(cs.take(i as int)) == Some(p@));
                }
                return Some(p);
            },
            None => {},
        }
        i -= 1;
    }
    None
}

// ── content signals ────────────────────────────────────────────────────────

/// The console a CD data track's head identifies by its signature.
pub open spec fn cue_signature_spec(head: Seq<u8>) -> Option<Seq<char>> {
    if bytes_contain(head, "SEGADISCSYSTEM"@) {
        Some("segacd"@)
    } else if bytes_contain(head, "SEGA SEGASATURN"@) {
        Some("saturn"@)
    } else if bytes_contain(head, "PLAYSTATION"@) {
        Some("ps1"@)
    } else {
        None
    }
}

/// Identify the console from the head of a `.cue` sheet's data track: Sega
/// CD, Saturn or PlayStation by their signatures.
pub fn cue_signature_platform(head: &Vec<u8>) -> (r: Option<&'static str>)
    ensures
        opt_str(r) == cue_signature_spec(head@),
{
    if bytes_contain_exec(head, "SEGADISCSYSTEM") {
        Some("segacd")
    } else if bytes_contain_exec(head, "SEGA SEGASATURN") {
        Some("saturn")
    } else if bytes_contain_exec(head, "PLAYSTATION") {
        Some("ps1")
    } else {
        None
    }
}

/// What follows `FILE ` on the first line that starts with it once trimmed.
pub open spec fn file_line_rest(ls: Seq<Seq<char>>) -> Option<Seq<char>>
    decreases ls.len(),
{
    if ls.len() == 0 {
        None
    } else {
        match strip_prefix(trim(ls[0]), "FILE "@) {
            Some(r) => Some(r),
            None => file_line_rest(ls.drop_first()),
        }
    }
}

/// The file a `.cue` sheet's first `FILE "…" BINARY` line names: the text
/// between the first two double quotes of that line (to the end of the line
/// if the second is missing); `None` without a `FILE` line or a quote.
pub open spec fn cue_data_file_spec(text: Seq<char>) -> Option<Seq<char>> {
    match file_line_rest(lines(text)) {
        None => None,
        Some(rest) => match split_once(rest, '"') {
            None => None,
            Some((_, after)) => Some(before_char(after, '"')),
        },
    }
}

/// The data-track file a `.cue` sheet names, relative to the sheet.
pub fn cue_data_file(text: &str) -> (r: Option<String>)
    ensures
        opt_view(r) == cue_data_file_spec(text@),
{
    let ls = lines_vec(&chars_of(text));
    let ghost l0 = views(ls@);
    let mut i: usize = 0;
    proof {
        assert(l0.skip(0) =~= l0);
    }
    while i < ls.len()
        invariant
            i <= ls.len(),
            l0 == views(ls@),
            l0 == lines(text@),
            file_line_rest(l0) == file_line_rest(l0.skip(i as int)),
        decreases ls.len() - i,
    {
        proof {
            assert(l0.skip(i as int).drop_first() =~= l0.skip(i as int + 1));
            assert(l0.skip(i as int)[0] == ls@[i as int]@);
        }
        let t = trim_vec(&ls[i]);
        match strip_prefix_str(&t, "FILE ") {
            Some(rest) => {
                return match split_once_vec(&rest, '"') {
                    None => None,
                    Some((_, after)) => Some(string_of(&before_char_vec(&after, '"'))),
                };
            },
            None => {},
        }
        i += 1;
    }
    None
}

/// What a cheap look at a ROM file's contents showed. The library decides from
/// these; reading the file system is the caller's part.
#[derive(Debug, Clone)]
pub struct ContentProbe {
    /// `.iso`: what the image's structure showed, when it could be read and
    /// recognised.
    pub disc: Option<Disc>,
    /// `.bin`: a same-stem `.cue` file sits beside it.
    pub sibling_cue: bool,
    /// `.bin`: the (up to four) bytes at offset 0x100, when readable.
    pub bin_signature: Option<Vec<u8>>,
    /// `.cue`: the head (up to 0x20000 bytes) of the data track its first
    /// `FILE` line names, when that could be read.
    pub cue_data_head: Option<Vec<u8>>,
    /// `.zip` / `.7z`: the archive's entry names; empty when unreadable.
    pub archive_names: Vec<String>,
}

/// A `.bin` is a CD data track (indexed via its `.cue`, not a game itself)
/// when a same-stem `.cue` sits beside it or its name carries a `(Track NN)`
/// split marker.
pub open spec fn is_cd_track_spec(sibling_cue: bool, stem: Seq<char>) -> bool {
    sibling_cue || find_sub_from(lower_str(stem), "(track "@, 0) >= 0 || find_sub_from(
        lower_str(stem),
        " track "@,
        0,
    ) >= 0
}

/// Genesis / Mega Drive cartridge dumps stamp `SEGA` at ROM offset 0x100.
pub open spec fn genesis_signature(sig: Option<Vec<u8>>) -> bool {
    match sig {
        Some(b) => b@.len() == 4 && spells_at(b@, "SEGA"@, 0),
        None => false,
    }
}

/// Content classification without folder context: a recognised `.iso`
/// structure (unless the stem already carries a PS3 title id); a `.bin` track,
/// Genesis cartridge or ambiguous PS2 default; a `.cue` by its data track's
/// signature (ambiguous PS1 when unreadable or unrecognised); an archive by
/// its entry names; else the name-only classification.
pub open spec fn classify_content_spec(stem: Seq<char>, ext: Seq<char>, probe: ContentProbe) -> Option<
    GuessView,
> {
    if ext == "iso"@ && !has_title_id(stem, SonyFamily::Ps3) && probe.disc is Some {
        Some(exact(disc_platform(probe.disc->0), disc_title(probe.disc->0)))
    } else if ext == "bin"@ {
        if is_cd_track_spec(probe.sibling_cue, stem) {
            None
        } else if genesis_signature(probe.bin_signature) {
            Some(exact("genesis"@, None))
        } else {
            Some(vague("ps2"@))
        }
    } else if ext == "cue"@ {
        Some(
            match probe.cue_data_head {
                Some(h) => match cue_signature_spec(h@) {
                    Some(p) => exact(p, None),
                    None => vague("ps1"@),
                },
                None => vague("ps1"@),
            },
        )
    } else if ext == "zip"@ || ext == "7z"@ {
        Some(classify_archive_spec(string_views(probe.archive_names@)))
    } else {
        classify_by_name_spec(stem, ext)
    }
}

fn is_cd_track(sibling_cue: bool, stem: &Vec<char>) -> (b: bool)
    ensures
        b == is_cd_track_spec(sibling_cue, stem@),
{
    if sibling_cue {
        return true;
    }
    let lower = lower_vec(stem);
    let a = find_sub_vec(&lower, &chars_of("(track "));
    let b = find_sub_vec(&lower, &chars_of(" track "));
    a.is_some() || b.is_some()
}

fn is_genesis_bin(sig: &Option<Vec<u8>>) -> (b: bool)
    ensures
        b == genesis_signature(*sig),
{
    match sig {
        Some(v) => {
            let n = chars_of("SEGA");
            proof {
                reveal_strlit("SEGA");
            }
            v.len() == 4 && spells_at_exec(v, &n, 0)
        },
        None => false,
    }
}

fn disc_guess(d: Disc) -> (g: Guess)
    ensures
        g@ == exact(disc_platform(d), disc_title(d)),
{
    match d {
        Disc::Psp { title } => Guess::precise("psp", title),
        Disc::Ps2 => Guess::precise("ps2", None),
        Disc::GameCube { title } => Guess::precise("gamecube", title),
        Disc::Wii { title } => Guess::precise("wii", title),
        Disc::Xbox => Guess::precise("xbox", None),
    }
}

/// Resolve a ROM from its contents and name alone, tagging each result
/// precise or ambiguous so the caller knows whether the folder hint may
/// override it.
pub fn classify_content(stem: &str, ext: &str, probe: ContentProbe) -> (r: Option<Guess>)
    ensures
        opt_guess(r) == classify_content_spec(stem@, ext@, probe),
{
    let st = chars_of(stem);
    let e = chars_of(ext);
    if eq_str(&e, "iso") && !contains_ps3_title_id(stem) {
        match probe.disc {
            Some(d) => {
                return Some(disc_guess(d));
            },
            None => {},
        }
    }
    if eq_str(&e, "bin") {
        if is_cd_track(probe.sibling_cue, &st) {
            return None;
        }
        if is_genesis_bin(&probe.bin_signature) {
            return Some(Guess::precise("genesis", None));
        }
        return Some(Guess::ambiguous("ps2"));
    }
    if eq_str(&e, "cue") {
        return Some(
            match probe.cue_data_head {
                Some(h) => match cue_signature_platform(&h) {
                    Some(p) => Guess::precise(p, None),
                    None => Guess::ambiguous("ps1"),
                },
                None => Guess::ambiguous("ps1"),
            },
        );
    }
    if eq_str(&e, "zip") || eq_str(&e, "7z") {
        return Some(classify_archive(&probe.archive_names));
    }
    classify_by_name(&st, &e)
}

/// A resolved ROM, viewed as plain values.
#[verifier::ext_equal]
pub struct RomMatchView {
    pub platform: Seq<char>,
    pub title: Option<Seq<char>>,
}

/// A resolved ROM: the platform it belongs to and, when it could be read
/// cheaply (a PSP UMD's `PARAM.SFO`, a GameCube/Wii header), its real title.
#[derive(Debug, Clone)]
pub struct RomMatch {
    pub platform: &'static str,
    pub title: Option<String>,
}

impl View for RomMatch {
    type V = RomMatchView;

    open spec fn view(&self) -> RomMatchView {
        RomMatchView { platform: self.platform@, title: opt_view(self.title) }
    }
}

/// Routing: a precise content signal is trusted as-is; an ambiguous guess
/// defers to the system folder the ROM is filed under, when that names one.
pub open spec fn resolve_rom_spec(path: Seq<char>, stem: Seq<char>, ext: Seq<char>, probe: ContentProbe) -> Option<
    RomMatchView,
> {
    match classify_content_spec(stem, ext, probe) {
        None => None,
        Some(g) => Some(
            RomMatchView {
                platform: if g.precise {
                    g.platform
                } else {
                    match folder_hint_spec(path) {
                        Some(h) => h,
                        None => g.platform,
                    }
                },
                title: g.title,
            },
        ),
    }
}

/// Resolve a ROM on disk from its path, stem, extension and what a look at
/// its contents showed. `None` for a `.bin` that is a CD track (its `.cue` is
/// the game) and for extensions no platform claims.
pub fn resolve_rom(path: &str, stem: &str, ext: &str, probe: ContentProbe) -> (r: Option<RomMatch>)
    ensures
        match r {
            Some(m) => resolve_rom_spec(path@, stem@, ext@, probe) == Some(m@),
            None => resolve_rom_spec(path@, stem@, ext@, probe) is None,
        },
{
    let guess = match classify_content(stem, ext, probe) {
        Some(g) => g,
        None => {
            return None;
        },
    };
    let platform = if guess.precise {
        guess.platform
    } else {
        match folder_platform_hint(path) {
            Some(h) => h,
            None => guess.platform,
        }
    };
    Some(RomMatch { platform, title: guess.title })
}

// ── scan filter ────────────────────────────────────────────────────────────

/// Every extension the catalogue claims, platform by platform.
pub open spec fn flat_exts(t: Seq<PlatformView>) -> Seq<Seq<char>>
    decreases t.len(),
{
    if t.len() == 0 {
        seq![]
    } else {
        flat_exts(t.drop_last()) + t.last().extensions
    }
}

/// The shared disc and archive extensions the scanner also accepts.
pub open spec fn extra_exts() -> Seq<Seq<char>> {
    seq!["iso"@, "bin"@, "chd"@, "cso"@, "cue"@, "m3u"@, "img"@, "zip"@, "7z"@]
}

/// Every recognised ROM extension.
pub open spec fn rom_extensions() -> Seq<Seq<char>> {
    flat_exts(catalogue()) + extra_exts()
}

pub open spec fn strictly_sorted(s: Seq<Seq<char>>) -> bool {
    forall|i: int, j: int| 0 <= i < j < s.len() ==> lex_lt(#[trigger] s[i], #[trigger] s[j])
}

/// Insert `x` into a strictly sorted list unless it is already there.
fn insert_sorted(v: &mut Vec<&'static str>, x: &'static str)
    requires
        strictly_sorted(str_views(old(v)@)),
    ensures
        strictly_sorted(str_views(final(v)@)),
        forall|e: Seq<char>|
            str_views(final(v)@).contains(e) <==> (str_views(old(v)@).contains(e) || e == x@),
{
    let ghost o = str_views(v@);
    let xc = chars_of(x);
    let mut i: usize = 0;
    while i < v.len() && lex_less(&chars_of(v[i]), &xc)
        invariant
            i <= v.len(),
            o == str_views(v@),
            xc@ == x@,
            forall|j: int| 0 <= j < i ==> lex_lt(#[trigger] o[j], x@),
        decreases v.len() - i,
    {
        i += 1;
    }
    if i < v.len() {
        proof {
            assert(o[i as int] == v@[i as int]@);
        }
        if eq_vec(&chars_of(v[i]), &xc) {
            proof {
                assert(o.contains(x@));
            }
            return;
        }
        proof {
            lemma_lex_total(o[i as int], x@);
        }
    }
    v.insert(i, x);
    proof {
        let n = str_views(v@);
        assert(n =~= o.insert(i as int, x@));
        assert forall|a: int, b: int| 0 <= a < b < n.len() implies lex_lt(
            #[trigger] n[a],
            #[trigger] n[b],
        ) by {
            if b < i {
            } else if b == i {
                assert(lex_lt(o[a], x@));
            } else if a == i {
                if b - 1 > i {
                    lemma_lex_trans(x@, o[i as int], o[b - 1]);
                }
            } else if a < i {
                assert(lex_lt(o[a], x@));
                if b - 1 == i {
                    lemma_lex_trans(o[a], x@, o[i as int]);
                } else {
                    lemma_lex_trans(o[a], x@, o[i as int]);
                    lemma_lex_trans(o[a], o[i as int], o[b - 1]);
                }
            } else {
                assert(lex_lt(o[a - 1], o[b - 1]));
            }
        }
        assert forall|e: Seq<char>| n.contains(e) <==> (o.contains(e) || e == x@) by {
            if n.contains(e) {
                let k = choose|k: int| 0 <= k < n.len() && n[k] == e;
                if k < i {
                    assert(o[k] == e);
                } else if k > i {
                    assert(o[k - 1] == e);
                }
            }
            if o.contains(e) {
                let k = choose|k: int| 0 <= k < o.len() && o[k] == e;
                if k < i {
                    assert(n[k] == e);
                } else {
                    assert(n[k + 1] == e);
                }
            }
            if e == x@ {
                assert(n[i as int] == e);
            }
        }
    }
}

/// All recognised ROM extensions, sorted and without repeats, for fast
/// scan-time filtering.
pub fn all_extensions() -> (r: Vec<&'static str>)
    ensures
        strictly_sorted(str_views(r@)),
        forall|e: Seq<char>| str_views(r@).contains(e) <==> rom_extensions().contains(e),
{
    let t = platforms();
    let ghost cat = catalogue();
    let mut v: Vec<&'static str> = Vec::new();
    let mut i: usize = 0;
    proof {
        assert(cat.take(0) =~= Seq::<PlatformView>::empty());
        assert(str_views(v@) =~= Seq::<Seq<char>>::empty());
    }
    while i < t.len()
        invariant
            i <= t.len(),
            def_views(t@) == cat,
            cat == catalogue(),
            strictly_sorted(str_views(v@)),
            forall|e: Seq<char>|
                str_views(v@).contains(e) <==> flat_exts(cat.take(i as int)).contains(e),
        decreases t.len() - i,
    {
        let ghost before = flat_exts(cat.take(i as int));
        let exts = &t[i].extensions;
        proof {
            assert(t@[i as int]@ == cat[i as int]);
            assert(cat.take(i as int + 1).drop_last() =~= cat.take(i as int));
            assert(flat_exts(cat.take(i as int + 1)) == before + str_views(exts@));
        }
        let mut j: usize = 0;
        while j < exts.len()
            invariant
                j <= exts.len(),
                strictly_sorted(str_views(v@)),
                forall|e: Seq<char>|
                    str_views(v@).contains(e) <==> (before + str_views(exts@).take(j as int)).contains(e),
            decreases exts.len() - j,
        {
            insert_sorted(&mut v, exts[j]);
            proof {
                let ex = str_views(exts@);
                assert forall|e: Seq<char>|
                    (before + ex.take(j as int + 1)).contains(e) <==> ((before + ex.take(
                        j as int,
                    )).contains(e) || e == ex[j as int]) by {
                    let a = before + ex.take(j as int + 1);
                    let b = before + ex.take(j as int);
                    if a.contains(e) {
                        let k = choose|k: int| 0 <= k < a.len() && a[k] == e;
                        if k < b.len() {
                            assert(b[k] == e);
                        }
                    }
                    if b.contains(e) {
                        let k = choose|k: int| 0 <= k < b.len() && b[k] == e;
                        assert(a[k] == e);
                    }
                    if e == ex[j as int] {
                        assert(a[b.len() as int] == e);
                    }
                }
            }
            j += 1;
        }
        proof {
            assert(str_views(exts@).take(exts.len() as int) =~= str_views(exts@));
        }
        i += 1;
    }
    let extra: Vec<&'static str> = vec!["iso", "bin", "chd", "cso", "cue", "m3u", "img", "zip", "7z"];
    let ghost fl = flat_exts(cat);
    proof {
        assert(cat.take(t.len() as int) =~= cat);
        assert(str_views(extra@) =~= extra_exts());
    }
    let mut j: usize = 0;
    while j < extra.len()
        invariant
            j <= extra.len(),
            str_views(extra@) == extra_exts(),
            fl == flat_exts(catalogue()),
            strictly_sorted(str_views(v@)),
            forall|e: Seq<char>|
                str_views(v@).contains(e) <==> (fl + extra_exts().take(j as int)).contains(e),
        decreases extra.len() - j,
    {
        insert_sorted(&mut v, extra[j]);
        proof {
            let ex = extra_exts();
            assert forall|e: Seq<char>|
                (fl + ex.take(j as int + 1)).contains(e) <==> ((fl + ex.take(j as int)).contains(e)
                    || e == ex[j as int]) by {
                let a = fl + ex.take(j as int + 1);
                let b = fl + ex.take(j as int);
                if a.contains(e) {
                    let k = choose|k: int| 0 <= k < a.len() && a[k] == e;
                    if k < b.len() {
                        assert(b[k] == e);
                    }
                }
                if b.contains(e) {
                    let k = choose|k: int| 0 <= k < b.len() && b[k] == e;
                    assert(a[k] == e);
                }
                if e == ex[j as int] {
                    assert(a[b.len() as int] == e);
                }
            }
        }
        j += 1;
    }
    proof {
        assert(extra_exts().take(9) =~= extra_exts());
    }
    v
}

// ── laws ───────────────────────────────────────────────────────────────────

proof fn lemma_first_with_ext_claims(t: Seq<PlatformView>, e: Seq<char>)
    ensures
        first_with_ext(t, e) is Some ==> exists|i: int|
            0 <= i < t.len() && t[i].id == first_with_ext(t, e)->0 && (
            #[trigger] t[i].extensions).contains(e),
        first_with_ext(t, e) is Some ==> flat_exts(t).contains(e),
    decreases t.len(),
{
    if t.len() > 0 {
        lemma_first_with_ext_claims(t.drop_first(), e);
        lemma_flat_exts_contains(t, e);
        if first_with_ext(t, e) is Some && !t[0].extensions.contains(e) {
            let i = choose|i: int|
                0 <= i < t.drop_first().len() && t.drop_first()[i].id == first_with_ext(t, e)->0
                    && (#[trigger] t.drop_first()[i].extensions).contains(e);
            assert(t[i + 1] == t.drop_first()[i]);
        }
    }
}

/// `flat_exts` holds exactly the extensions some entry claims.
proof fn lemma_flat_exts_contains(t: Seq<PlatformView>, e: Seq<char>)
    ensures
        flat_exts(t).contains(e) <==> exists|i: int|
            0 <= i < t.len() && (#[trigger] t[i].extensions).contains(e),
    decreases t.len(),
{
    if t.len() > 0 {
        let d = t.drop_last();
        lemma_flat_exts_contains(d, e);
        let a = flat_exts(d);
        let b = t.last().extensions;
        if (a + b).contains(e) {
            let k = choose|k: int| 0 <= k < (a + b).len() && (a + b)[k] == e;
            if k < a.len() {
                assert(a[k] == e);
                let i = choose|i: int| 0 <= i < d.len() && (#[trigger] d[i].extensions).contains(e);
                assert(t[i] == d[i]);
            } else {
                assert(b[k - a.len()] == e);
                assert(t[t.len() - 1].extensions.contains(e));
            }
        }
        if exists|i: int| 0 <= i < t.len() && (#[trigger] t[i].extensions).contains(e) {
            let i = choose|i: int| 0 <= i < t.len() && (#[trigger] t[i].extensions).contains(e);
            if i < t.len() - 1 {
                assert(d[i] == t[i]);
                assert(a.contains(e));
                let k = choose|k: int| 0 <= k < a.len() && a[k] == e;
                assert((a + b)[k] == e);
            } else {
                let k = choose|k: int| 0 <= k < b.len() && b[k] == e;
                assert((a + b)[a.len() + k] == e);
            }
        }
    }
}

/// Extension routing only ever names a platform that claims the extension,
/// unless the extension is one of the shared disc formats routed to their
/// most common console.
pub proof fn law_routed_extension_is_claimed(ext: Seq<char>)
    requires
        platform_for_extension_spec(ext) is Some,
        !extra_exts().contains(lower_str(ext)),
    ensures
        exists|i: int|
            0 <= i < catalogue().len() && catalogue()[i].id == platform_for_extension_spec(ext)->0
                && (#[trigger] catalogue()[i].extensions).contains(lower_str(ext)),
{
    let e = lower_str(ext);
    if e == "iso"@ || e == "bin"@ || e == "chd"@ || e == "cue"@ || e == "m3u"@ || e == "img"@
        || e == "cso"@ {
        assert(extra_exts()[0] == "iso"@);
        assert(extra_exts()[1] == "bin"@);
        assert(extra_exts()[2] == "chd"@);
        assert(extra_exts()[3] == "cso"@);
        assert(extra_exts()[4] == "cue"@);
        assert(extra_exts()[5] == "m3u"@);
        assert(extra_exts()[6] == "img"@);
    } else {
        lemma_first_with_ext_claims(catalogue(), e);
    }
}

/// Every extension that routes to a platform passes the scan-time filter.
pub proof fn law_routable_extensions_are_scanned(ext: Seq<char>)
    requires
        platform_for_extension_spec(ext) is Some,
    ensures
        rom_extensions().contains(lower_str(ext)),
{
    let e = lower_str(ext);
    let f = flat_exts(catalogue());
    let x = extra_exts();
    if x.contains(e) {
        let k = choose|k: int| 0 <= k < x.len() && x[k] == e;
        assert((f + x)[f.len() + k] == e);
    } else {
        if e == "iso"@ || e == "bin"@ || e == "chd"@ || e == "cue"@ || e == "m3u"@ || e == "img"@
            || e == "cso"@ {
            assert(x[0] == "iso"@);
            assert(x[1] == "bin"@);
            assert(x[2] == "chd"@);
            assert(x[3] == "cso"@);
            assert(x[4] == "cue"@);
            assert(x[5] == "m3u"@);
            assert(x[6] == "img"@);
        }
        lemma_first_with_ext_claims(catalogue(), e);
        let k = choose|k: int| 0 <= k < f.len() && f[k] == e;
        assert((f + x)[k] == e);
    }
}

/// A precise content signal is never overridden by the folder a ROM is filed
/// under: the same file resolves to the same platform wherever it lives.
pub proof fn law_precise_guess_ignores_folder(
    path1: Seq<char>,
    path2: Seq<char>,
    stem: Seq<char>,
    ext: Seq<char>,
    probe: ContentProbe,
)
    requires
        classify_content_spec(stem, ext, probe) is Some,
        classify_content_spec(stem, ext, probe)->0.precise,
    ensures
        resolve_rom_spec(path1, stem, ext, probe) == resolve_rom_spec(path2, stem, ext, probe),
        resolve_rom_spec(path1, stem, ext, probe)->0.platform == classify_content_spec(
            stem,
            ext,
            probe,
        )->0.platform,
{
}

/// An ambiguous guess defers to the folder hint when there is one, and keeps
/// its default otherwise.
pub proof fn law_ambiguous_guess_defers_to_folder(
    path: Seq<char>,
    stem: Seq<char>,
    ext: Seq<char>,
    probe: ContentProbe,
)
    requires
        classify_content_spec(stem, ext, probe) is Some,
        !classify_content_spec(stem, ext, probe)->0.precise,
    ensures
        resolve_rom_spec(path, stem, ext, probe)->0.platform == (match folder_hint_spec(path) {
            Some(h) => h,
            None => classify_content_spec(stem, ext, probe)->0.platform,
        }),
{
}

/// No two catalogue entries share an id, so a lookup by id is unambiguous.
#[verifier::rlimit(100)]
pub proof fn law_catalogue_ids_unique()
    ensures
        forall|a: int, b: int|
            0 <= a < b < catalogue().len() ==> (#[trigger] catalogue()[a]).id != (
            #[trigger] catalogue()[b]).id,
{
    reveal_strlit("nes");
    reveal_strlit("snes");
    reveal_strlit("n64");
    reveal_strlit("gamecube");
    reveal_strlit("wii");
    reveal_strlit("gb");
    reveal_strlit("gbc");
    reveal_strlit("gba");
    reveal_strlit("nds");
    reveal_strlit("genesis");
    reveal_strlit("ps1");
    reveal_strlit("ps2");
    reveal_strlit("psp");
    reveal_strlit("ps3");
    reveal_strlit("vita");
    reveal_strlit("sms");
    reveal_strlit("gamegear");
    reveal_strlit("sega32x");
    reveal_strlit("segacd");
    reveal_strlit("saturn");
    reveal_strlit("dreamcast");
    reveal_strlit("pcengine");
    reveal_strlit("virtualboy");
    reveal_strlit("n3ds");
    reveal_strlit("switch");
    reveal_strlit("wiiu");
    reveal_strlit("xbox");
    reveal_strlit("atari2600");
    reveal_strlit("atari5200");
    reveal_strlit("atari7800");
    reveal_strlit("lynx");
    reveal_strlit("jaguar");
    reveal_strlit("wonderswan");
    reveal_strlit("ngp");
    reveal_strlit("colecovision");
    reveal_strlit("c64");
    reveal_strlit("amiga");
    reveal_strlit("msx");
    reveal_strlit("arcade");
    let t = catalogue();
    assert(t[0].id.len() != t[1].id.len());
    assert(t[0].id[1] != t[2].id[1]);
    assert(t[0].id.len() != t[3].id.len());
    assert(t[0].id[0] != t[4].id[0]);
    assert(t[0].id.len() != t[5].id.len());
    assert(t[0].id[0] != t[6].id[0]);
    assert(t[0].id[0] != t[7].id[0]);
    assert(t[0].id[1] != t[8].id[1]);
    assert(t[0].id.len() != t[9].id.len());
    assert(t[0].id[0] != t[10].id[0]);
    assert(t[0].id[0] != t[11].id[0]);
    assert(t[0].id[0] != t[12].id[0]);
    assert(t[0].id[0] != t[13].id[0]);
    assert(t[0].id.len() != t[14].id.len());
    assert(t[0].id[0] != t[15].id[0]);
    assert(t[0].id.len() != t[16].id.len());
    assert(t[0].id.len() != t[17].id.len());
    assert(t[0].id.len() != t[18].id.len());
    assert(t[0].id.len() != t[19].id.len());
    assert(t[0].id.len() != t[20].id.len());
    assert(t[0].id.len() != t[21].id.len());
    assert(t[0].id.len() != t[22].id.len());
    assert(t[0].id.len() != t[23].id.len());
    assert(t[0].id.len() != t[24].id.len());
    assert(t[0].id.len() != t[25].id.len());
    assert(t[0].id.len() != t[26].id.len());
    assert(t[0].id.len() != t[27].id.len());
    assert(t[0].id.len() != t[28].id.len());
    assert(t[0].id.len() != t[29].id.len());
    assert(t[0].id.len() != t[30].id.len());
    assert(t[0].id.len() != t[31].id.len());
    assert(t[0].id.len() != t[32].id.len());
    assert(t[0].id[1] != t[33].id[1]);
    assert(t[0].id.len() != t[34].id.len());
    assert(t[0].id[0] != t[35].id[0]);
    assert(t[0].id.len() != t[36].id.len());
    assert(t[0].id[0] != t[37].id[0]);
    assert(t[0].id.len() != t[38].id.len());
    assert(t[1].id.len() != t[2].id.len());
    assert(t[1].id.len() != t[3].id.len());
    assert(t[1].id.len() != t[4].id.len());
    assert(t[1].id.len() != t[5].id.len());
    assert(t[1].id.len() != t[6].id.len());
    assert(t[1].id.len() != t[7].id.len());
    assert(t[1].id.len() != t[8].id.len());
    assert(t[1].id.len() != t[9].id.len());
    assert(t[1].id.len() != t[10].id.len());
    assert(t[1].id.len() != t[11].id.len());
    assert(t[1].id.len() != t[12].id.len());
    assert(t[1].id.len() != t[13].id.len());
    assert(t[1].id[0] != t[14].id[0]);
    assert(t[1].id.len() != t[15].id.len());
    assert(t[1].id.len() != t[16].id.len());
    assert(t[1].id.len() != t[17].id.len());
    assert(t[1].id.len() != t[18].id.len());
    assert(t[1].id.len() != t[19].id.len());
    assert(t[1].id.len() != t[20].id.len());
    assert(t[1].id.len() != t[21].id.len());
    assert(t[1].id.len() != t[22].id.len());
    assert(t[1].id[0] != t[23].id[0]);
    assert(t[1].id.len() != t[24].id.len());
    assert(t[1].id[0] != t[25].id[0]);
    assert(t[1].id[0] != t[26].id[0]);
    assert(t[1].id.len() != t[27].id.len());
    assert(t[1].id.len() != t[28].id.len());
    assert(t[1].id.len() != t[29].id.len());
    assert(t[1].id[0] != t[30].id[0]);
    assert(t[1].id.len() != t[31].id.len());
    assert(t[1].id.len() != t[32].id.len());
    assert(t[1].id.len() != t[33].id.len());
    assert(t[1].id.len() != t[34].id.len());
    assert(t[1].id.len() != t[35].id.len());
    assert(t[1].id.len() != t[36].id.len());
    assert(t[1].id.len() != t[37].id.len());
    assert(t[1].id.len() != t[38].id.len());
    assert(t[2].id.len() != t[3].id.len());
    assert(t[2].id[0] != t[4].id[0]);
    assert(t[2].id.len() != t[5].id.len());
    assert(t[2].id[0] != t[6].id[0]);
    assert(t[2].id[0] != t[7].id[0]);
    assert(t[2].id[1] != t[8].id[1]);
    assert(t[2].id.len() != t[9].id.len());
    assert(t[2].id[0] != t[10].id[0]);
    assert(t[2].id[0] != t[11].id[0]);
    assert(t[2].id[0] != t[12].id[0]);
    assert(t[2].id[0] != t[13].id[0]);
    assert(t[2].id.len() != t[14].id.len());
    assert(t[2].id[0] != t[15].id[0]);
    assert(t[2].id.len() != t[16].id.len());
    assert(t[2].id.len() != t[17].id.len());
    assert(t[2].id.len() != t[18].id.len());
    assert(t[2].id.len() != t[19].id.len());
    assert(t[2].id.len() != t[20].id.len());
    assert(t[2].id.len() != t[21].id.len());
    assert(t[2].id.len() != t[22].id.len());
    assert(t[2].id.len() != t[23].id.len());
    assert(t[2].id.len() != t[24].id.len());
    assert(t[2].id.len() != t[25].id.len());
    assert(t[2].id.len() != t[26].id.len());
    assert(t[2].id.len() != t[27].id.len());
    assert(t[2].id.len() != t[28].id.len());
    assert(t[2].id.len() != t[29].id.len());
    assert(t[2].id.len() != t[30].id.len());
    assert(t[2].id.len() != t[31].id.len());
    assert(t[2].id.len() != t[32].id.len());
    assert(t[2].id[1] != t[33].id[1]);
    assert(t[2].id.len() != t[34].id.len());
    assert(t[2].id[0] != t[35].id[0]);
    assert(t[2].id.len() != t[36].id.len());
    assert(t[2].id[0] != t[37].id[0]);
    assert(t[2].id.len() != t[38].id.len());
    assert(t[3].id.len() != t[4].id.len());
    assert(t[3].id.len() != t[5].id.len());
    assert(t[3].id.len() != t[6].id.len());
    assert(t[3].id.len() != t[7].id.len());
    assert(t[3].id.len() != t[8].id.len());
    assert(t[3].id.len() != t[9].id.len());
    assert(t[3].id.len() != t[10].id.len());
    assert(t[3].id.len() != t[11].id.len());
    assert(t[3].id.len() != t[12].id.len());
    assert(t[3].id.len() != t[13].id.len());
    assert(t[3].id.len() != t[14].id.len());
    assert(t[3].id.len() != t[15].id.len());
    assert(t[3].id[4] != t[16].id[4]);
    assert(t[3].id.len() != t[17].id.len());
    assert(t[3].id.len() != t[18].id.len());
    assert(t[3].id.len() != t[19].id.len());
    assert(t[3].id.len() != t[20].id.len());
    assert(t[3].id[0] != t[21].id[0]);
    assert(t[3].id.len() != t[22].id.len());
    assert(t[3].id.len() != t[23].id.len());
    assert(t[3].id.len() != t[24].id.len());
    assert(t[3].id.len() != t[25].id.len());
    assert(t[3].id.len() != t[26].id.len());
    assert(t[3].id.len() != t[27].id.len());
    assert(t[3].id.len() != t[28].id.len());
    assert(t[3].id.len() != t[29].id.len());
    assert(t[3].id.len() != t[30].id.len());
    assert(t[3].id.len() != t[31].id.len());
    assert(t[3].id.len() != t[32].id.len());
    assert(t[3].id.len() != t[33].id.len());
    assert(t[3].id.len() != t[34].id.len());
    assert(t[3].id.len() != t[35].id.len());
    assert(t[3].id.len() != t[36].id.len());
    assert(t[3].id.len() != t[37].id.len());
    assert(t[3].id.len() != t[38].id.len());
    assert(t[4].id.len() != t[5].id.len());
    assert(t[4].id[0] != t[6].id[0]);
    assert(t[4].id[0] != t[7].id[0]);
    assert(t[4].id[0] != t[8].id[0]);
    assert(t[4].id.len() != t[9].id.len());
    assert(t[4].id[0] != t[10].id[0]);
    assert(t[4].id[0] != t[11].id[0]);
    assert(t[4].id[0] != t[12].id[0]);
    assert(t[4].id[0] != t[13].id[0]);
    assert(t[4].id.len() != t[14].id.len());
    assert(t[4].id[0] != t[15].id[0]);
    assert(t[4].id.len() != t[16].id.len());
    assert(t[4].id.len() != t[17].id.len());
    assert(t[4].id.len() != t[18].id.len());
    assert(t[4].id.len() != t[19].id.len());
    assert(t[4].id.len() != t[20].id.len());
    assert(t[4].id.len() != t[21].id.len());
    assert(t[4].id.len() != t[22].id.len());
    assert(t[4].id.len() != t[23].id.len());
    assert(t[4].id.len() != t[24].id.len());
    assert(t[4].id.len() != t[25].id.len());
    assert(t[4].id.len() != t[26].id.len());
    assert(t[4].id.len() != t[27].id.len());
    assert(t[4].id.len() != t[28].id.len());
    assert(t[4].id.len() != t[29].id.len());
    assert(t[4].id.len() != t[30].id.len());
    assert(t[4].id.len() != t[31].id.len());
    assert(t[4].id.len() != t[32].id.len());
    assert(t[4].id[0] != t[33].id[0]);
    assert(t[4].id.len() != t[34].id.len());
    assert(t[4].id[0] != t[35].id[0]);
    assert(t[4].id.len() != t[36].id.len());
    assert(t[4].id[0] != t[37].id[0]);
    assert(t[4].id.len() != t[38].id.len());
    assert(t[5].id.len() != t[6].id.len());
    assert(t[5].id.len() != t[7].id.len());
    assert(t[5].id.len() != t[8].id.len());
    assert(t[5].id.len() != t[9].id.len());
    assert(t[5].id.len() != t[10].id.len());
    assert(t[5].id.len() != t[11].id.len());
    assert(t[5].id.len() != t[12].id.len());
    assert(t[5].id.len() != t[13].id.len());
    assert(t[5].id.len() != t[14].id.len());
    assert(t[5].id.len() != t[15].id.len());
    assert(t[5].id.len() != t[16].id.len());
    assert(t[5].id.len() != t[17].id.len());
    assert(t[5].id.len() != t[18].id.len());
    assert(t[5].id.len() != t[19].id.len());
    assert(t[5].id.len() != t[20].id.len());
    assert(t[5].id.len() != t[21].id.len());
    assert(t[5].id.len() != t[22].id.len());
    assert(t[5].id.len() != t[23].id.len());
    assert(t[5].id.len() != t[24].id.len());
    assert(t[5].id.len() != t[25].id.len());
    assert(t[5].id.len() != t[26].id.len());
    assert(t[5].id.len() != t[27].id.len());
    assert(t[5].id.len() != t[28].id.len());
    assert(t[5].id.len() != t[29].id.len());
    assert(t[5].id.len() != t[30].id.len());
    assert(t[5].id.len() != t[31].id.len());
    assert(t[5].id.len() != t[32].id.len());
    assert(t[5].id.len() != t[33].id.len());
    assert(t[5].id.len() != t[34].id.len());
    assert(t[5].id.len() != t[35].id.len());
    assert(t[5].id.len() != t[36].id.len());
    assert(t[5].id.len() != t[37].id.len());
    assert(t[5].id.len() != t[38].id.len());
    assert(t[6].id[2] != t[7].id[2]);
    assert(t[6].id[0] != t[8].id[0]);
    assert(t[6].id.len() != t[9].id.len());
    assert(t[6].id[0] != t[10].id[0]);
    assert(t[6].id[0] != t[11].id[0]);
    assert(t[6].id[0] != t[12].id[0]);
    assert(t[6].id[0] != t[13].id[0]);
    assert(t[6].id.len() != t[14].id.len());
    assert(t[6].id[0] != t[15].id[0]);
    assert(t[6].id.len() != t[16].id.len());
    assert(t[6].id.len() != t[17].id.len());
    assert(t[6].id.len() != t[18].id.len());
    assert(t[6].id.len() != t[19].id.len());
    assert(t[6].id.len() != t[20].id.len());
    assert(t[6].id.len() != t[21].id.len());
    assert(t[6].id.len() != t[22].id.len());
    assert(t[6].id.len() != t[23].id.len());
    assert(t[6].id.len() != t[24].id.len());
    assert(t[6].id.len() != t[25].id.len());
    assert(t[6].id.len() != t[26].id.len());
    assert(t[6].id.len() != t[27].id.len());
    assert(t[6].id.len() != t[28].id.len());
    assert(t[6].id.len() != t[29].id.len());
    assert(t[6].id.len() != t[30].id.len());
    assert(t[6].id.len() != t[31].id.len());
    assert(t[6].id.len() != t[32].id.len());
    assert(t[6].id[0] != t[33].id[0]);
    assert(t[6].id.len() != t[34].id.len());
    assert(t[6].id[0] != t[35].id[0]);
    assert(t[6].id.len() != t[36].id.len());
    assert(t[6].id[0] != t[37].id[0]);
    assert(t[6].id.len() != t[38].id.len());
    assert(t[7].id[0] != t[8].id[0]);
    assert(t[7].id.len() != t[9].id.len());
    assert(t[7].id[0] != t[10].id[0]);
    assert(t[7].id[0] != t[11].id[0]);
    assert(t[7].id[0] != t[12].id[0]);
    assert(t[7].id[0] != t[13].id[0]);
    assert(t[7].id.len() != t[14].id.len());
    assert(t[7].id[0] != t[15].id[0]);
    assert(t[7].id.len() != t[16].id.len());
    assert(t[7].id.len() != t[17].id.len());
    assert(t[7].id.len() != t[18].id.len());
    assert(t[7].id.len() != t[19].id.len());
    assert(t[7].id.len() != t[20].id.len());
    assert(t[7].id.len() != t[21].id.len());
    assert(t[7].id.len() != t[22].id.len());
    assert(t[7].id.len() != t[23].id.len());
    assert(t[7].id.len() != t[24].id.len());
    assert(t[7].id.len() != t[25].id.len());
    assert(t[7].id.len() != t[26].id.len());
    assert(t[7].id.len() != t[27].id.len());
    assert(t[7].id.len() != t[28].id.len());
    assert(t[7].id.len() != t[29].id.len());
    assert(t[7].id.len() != t[30].id.len());
    assert(t[7].id.len() != t[31].id.len());
    assert(t[7].id.len() != t[32].id.len());
    assert(t[7].id[0] != t[33].id[0]);
    assert(t[7].id.len() != t[34].id.len());
    assert(t[7].id[0] != t[35].id[0]);
    assert(t[7].id.len() != t[36].id.len());
    assert(t[7].id[0] != t[37].id[0]);
    assert(t[7].id.len() != t[38].id.len());
    assert(t[8].id.len() != t[9].id.len());
    assert(t[8].id[0] != t[10].id[0]);
    assert(t[8].id[0] != t[11].id[0]);
    assert(t[8].id[0] != t[12].id[0]);
    assert(t[8].id[0] != t[13].id[0]);
    assert(t[8].id.len() != t[14].id.len());
    assert(t[8].id[0] != t[15].id[0]);
    assert(t[8].id.len() != t[16].id.len());
    assert(t[8].id.len() != t[17].id.len());
    assert(t[8].id.len() != t[18].id.len());
    assert(t[8].id.len() != t[19].id.len());
    assert(t[8].id.len() != t[20].id.len());
    assert(t[8].id.len() != t[21].id.len());
    assert(t[8].id.len() != t[22].id.len());
    assert(t[8].id.len() != t[23].id.len());
    assert(t[8].id.len() != t[24].id.len());
    assert(t[8].id.len() != t[25].id.len());
    assert(t[8].id.len() != t[26].id.len());
    assert(t[8].id.len() != t[27].id.len());
    assert(t[8].id.len() != t[28].id.len());
    assert(t[8].id.len() != t[29].id.len());
    assert(t[8].id.len() != t[30].id.len());
    assert(t[8].id.len() != t[31].id.len());
    assert(t[8].id.len() != t[32].id.len());
    assert(t[8].id[1] != t[33].id[1]);
    assert(t[8].id.len() != t[34].id.len());
    assert(t[8].id[0] != t[35].id[0]);
    assert(t[8].id.len() != t[36].id.len());
    assert(t[8].id[0] != t[37].id[0]);
    assert(t[8].id.len() != t[38].id.len());
    assert(t[9].id.len() != t[10].id.len());
    assert(t[9].id.len() != t[11].id.len());
    assert(t[9].id.len() != t[12].id.len());
    assert(t[9].id.len() != t[13].id.len());
    assert(t[9].id.len() != t[14].id.len());
    assert(t[9].id.len() != t[15].id.len());
    assert(t[9].id.len() != t[16].id.len());
    assert(t[9].id[0] != t[17].id[0]);
    assert(t[9].id.len() != t[18].id.len());
    assert(t[9].id.len() != t[19].id.len());
    assert(t[9].id.len() != t[20].id.len());
    assert(t[9].id.len() != t[21].id.len());
    assert(t[9].id.len() != t[22].id.len());
    assert(t[9].id.len() != t[23].id.len());
    assert(t[9].id.len() != t[24].id.len());
    assert(t[9].id.len() != t[25].id.len());
    assert(t[9].id.len() != t[26].id.len());
    assert(t[9].id.len() != t[27].id.len());
    assert(t[9].id.len() != t[28].id.len());
    assert(t[9].id.len() != t[29].id.len());
    assert(t[9].id.len() != t[30].id.len());
    assert(t[9].id.len() != t[31].id.len());
    assert(t[9].id.len() != t[32].id.len());
    assert(t[9].id.len() != t[33].id.len());
    assert(t[9].id.len() != t[34].id.len());
    assert(t[9].id.len() != t[35].id.len());
    assert(t[9].id.len() != t[36].id.len());
    assert(t[9].id.len() != t[37].id.len());
    assert(t[9].id.len() != t[38].id.len());
    assert(t[10].id[2] != t[11].id[2]);
    assert(t[10].id[2] != t[12].id[2]);
    assert(t[10].id[2] != t[13].id[2]);
    assert(t[10].id.len() != t[14].id.len());
    assert(t[10].id[0] != t[15].id[0]);
    assert(t[10].id.len() != t[16].id.len());
    assert(t[10].id.len() != t[17].id.len());
    assert(t[10].id.len() != t[18].id.len());
    assert(t[10].id.len() != t[19].id.len());
    assert(t[10].id.len() != t[20].id.len());
    assert(t[10].id.len() != t[21].id.len());
    assert(t[10].id.len() != t[22].id.len());
    assert(t[10].id.len() != t[23].id.len());
    assert(t[10].id.len() != t[24].id.len());
    assert(t[10].id.len() != t[25].id.len());
    assert(t[10].id.len() != t[26].id.len());
    assert(t[10].id.len() != t[27].id.len());
    assert(t[10].id.len() != t[28].id.len());
    assert(t[10].id.len() != t[29].id.len());
    assert(t[10].id.len() != t[30].id.len());
    assert(t[10].id.len() != t[31].id.len());
    assert(t[10].id.len() != t[32].id.len());
    assert(t[10].id[0] != t[33].id[0]);
    assert(t[10].id.len() != t[34].id.len());
    assert(t[10].id[0] != t[35].id[0]);
    assert(t[10].id.len() != t[36].id.len());
    assert(t[10].id[0] != t[37].id[0]);
    assert(t[10].id.len() != t[38].id.len());
    assert(t[11].id[2] != t[12].id[2]);
    assert(t[11].id[2] != t[13].id[2]);
    assert(t[11].id.len() != t[14].id.len());
    assert(t[11].id[0] != t[15].id[0]);
    assert(t[11].id.len() != t[16].id.len());
    assert(t[11].id.len() != t[17].id.len());
    assert(t[11].id.len() != t[18].id.len());
    assert(t[11].id.len() != t[19].id.len());
    assert(t[11].id.len() != t[20].id.len());
    assert(t[11].id.len() != t[21].id.len());
    assert(t[11].id.len() != t[22].id.len());
    assert(t[11].id.len() != t[23].id.len());
    assert(t[11].id.len() != t[24].id.len());
    assert(t[11].id.len() != t[25].id.len());
    assert(t[11].id.len() != t[26].id.len());
    assert(t[11].id.len() != t[27].id.len());
    assert(t[11].id.len() != t[28].id.len());
    assert(t[11].id.len() != t[29].id.len());
    assert(t[11].id.len() != t[30].id.len());
    assert(t[11].id.len() != t[31].id.len());
    assert(t[11].id.len() != t[32].id.len());
    assert(t[11].id[0] != t[33].id[0]);
    assert(t[11].id.len() != t[34].id.len());
    assert(t[11].id[0] != t[35].id[0]);
    assert(t[11].id.len() != t[36].id.len());
    assert(t[11].id[0] != t[37].id[0]);
    assert(t[11].id.len() != t[38].id.len());
    assert(t[12].id[2] != t[13].id[2]);
    assert(t[12].id.len() != t[14].id.len());
    assert(t[12].id[0] != t[15].id[0]);
    assert(t[12].id.len() != t[16].id.len());
    assert(t[12].id.len() != t[17].id.len());
    assert(t[12].id.len() != t[18].id.len());
    assert(t[12].id.len() != t[19].id.len());
    assert(t[12].id.len() != t[20].id.len());
    assert(t[12].id.len() != t[21].id.len());
    assert(t[12].id.len() != t[22].id.len());
    assert(t[12].id.len() != t[23].id.len());
    assert(t[12].id.len() != t[24].id.len());
    assert(t[12].id.len() != t[25].id.len());
    assert(t[12].id.len() != t[26].id.len());
    assert(t[12].id.len() != t[27].id.len());
    assert(t[12].id.len() != t[28].id.len());
    assert(t[12].id.len() != t[29].id.len());
    assert(t[12].id.len() != t[30].id.len());
    assert(t[12].id.len() != t[31].id.len());
    assert(t[12].id.len() != t[32].id.len());
    assert(t[12].id[0] != t[33].id[0]);
    assert(t[12].id.len() != t[34].id.len());
    assert(t[12].id[0] != t[35].id[0]);
    assert(t[12].id.len() != t[36].id.len());
    assert(t[12].id[0] != t[37].id[0]);
    assert(t[12].id.len() != t[38].id.len());
    assert(t[13].id.len() != t[14].id.len());
    assert(t[13].id[0] != t[15].id[0]);
    assert(t[13].id.len() != t[16].id.len());
    assert(t[13].id.len() != t[17].id.len());
    assert(t[13].id.len() != t[18].id.len());
    assert(t[13].id.len() != t[19].id.len());
    assert(t[13].id.len() != t[20].id.len());
    assert(t[13].id.len() != t[21].id.len());
    assert(t[13].id.len() != t[22].id.len());
    assert(t[13].id.len() != t[23].id.len());
    assert(t[13].id.len() != t[24].id.len());
    assert(t[13].id.len() != t[25].id.len());
    assert(t[13].id.len() != t[26].id.len());
    assert(t[13].id.len() != t[27].id.len());
    assert(t[13].id.len() != t[28].id.len());
    assert(t[13].id.len() != t[29].id.len());
    assert(t[13].id.len() != t[30].id.len());
    assert(t[13].id.len() != t[31].id.len());
    assert(t[13].id.len() != t[32].id.len());
    assert(t[13].id[0] != t[33].id[0]);
    assert(t[13].id.len() != t[34].id.len());
    assert(t[13].id[0] != t[35].id[0]);
    assert(t[13].id.len() != t[36].id.len());
    assert(t[13].id[0] != t[37].id[0]);
    assert(t[13].id.len() != t[38].id.len());
    assert(t[14].id.len() != t[15].id.len());
    assert(t[14].id.len() != t[16].id.len());
    assert(t[14].id.len() != t[17].id.len());
    assert(t[14].id.len() != t[18].id.len());
    assert(t[14].id.len() != t[19].id.len());
    assert(t[14].id.len() != t[20].id.len());
    assert(t[14].id.len() != t[21].id.len());
    assert(t[14].id.len() != t[22].id.len());
    assert(t[14].id[0] != t[23].id[0]);
    assert(t[14].id.len() != t[24].id.len());
    assert(t[14].id[0] != t[25].id[0]);
    assert(t[14].id[0] != t[26].id[0]);
    assert(t[14].id.len() != t[27].id.len());
    assert(t[14].id.len() != t[28].id.len());
    assert(t[14].id.len() != t[29].id.len());
    assert(t[14].id[0] != t[30].id[0]);
    assert(t[14].id.len() != t[31].id.len());
    assert(t[14].id.len() != t[32].id.len());
    assert(t[14].id.len() != t[33].id.len());
    assert(t[14].id.len() != t[34].id.len());
    assert(t[14].id.len() != t[35].id.len());
    assert(t[14].id.len() != t[36].id.len());
    assert(t[14].id.len() != t[37].id.len());
    assert(t[14].id.len() != t[38].id.len());
    assert(t[15].id.len() != t[16].id.len());
    assert(t[15].id.len() != t[17].id.len());
    assert(t[15].id.len() != t[18].id.len());
    assert(t[15].id.len() != t[19].id.len());
    assert(t[15].id.len() != t[20].id.len());
    assert(t[15].id.len() != t[21].id.len());
    assert(t[15].id.len() != t[22].id.len());
    assert(t[15].id.len() != t[23].id.len());
    assert(t[15].id.len() != t[24].id.len());
    assert(t[15].id.len() != t[25].id.len());
    assert(t[15].id.len() != t[26].id.len());
    assert(t[15].id.len() != t[27].id.len());
    assert(t[15].id.len() != t[28].id.len());
    assert(t[15].id.len() != t[29].id.len());
    assert(t[15].id.len() != t[30].id.len());
    assert(t[15].id.len() != t[31].id.len());
    assert(t[15].id.len() != t[32].id.len());
    assert(t[15].id[0] != t[33].id[0]);
    assert(t[15].id.len() != t[34].id.len());
    assert(t[15].id[0] != t[35].id[0]);
    assert(t[15].id.len() != t[36].id.len());
    assert(t[15].id[0] != t[37].id[0]);
    assert(t[15].id.len() != t[38].id.len());
    assert(t[16].id.len() != t[17].id.len());
    assert(t[16].id.len() != t[18].id.len());
    assert(t[16].id.len() != t[19].id.len());
    assert(t[16].id.len() != t[20].id.len());
    assert(t[16].id[0] != t[21].id[0]);
    assert(t[16].id.len() != t[22].id.len());
    assert(t[16].id.len() != t[23].id.len());
    assert(t[16].id.len() != t[24].id.len());
    assert(t[16].id.len() != t[25].id.len());
    assert(t[16].id.len() != t[26].id.len());
    assert(t[16].id.len() != t[27].id.len());
    assert(t[16].id.len() != t[28].id.len());
    assert(t[16].id.len() != t[29].id.len());
    assert(t[16].id.len() != t[30].id.len());
    assert(t[16].id.len() != t[31].id.len());
    assert(t[16].id.len() != t[32].id.len());
    assert(t[16].id.len() != t[33].id.len());
    assert(t[16].id.len() != t[34].id.len());
    assert(t[16].id.len() != t[35].id.len());
    assert(t[16].id.len() != t[36].id.len());
    assert(t[16].id.len() != t[37].id.len());
    assert(t[16].id.len() != t[38].id.len());
    assert(t[17].id.len() != t[18].id.len());
    assert(t[17].id.len() != t[19].id.len());
    assert(t[17].id.len() != t[20].id.len());
    assert(t[17].id.len() != t[21].id.len());
    assert(t[17].id.len() != t[22].id.len());
    assert(t[17].id.len() != t[23].id.len());
    assert(t[17].id.len() != t[24].id.len());
    assert(t[17].id.len() != t[25].id.len());
    assert(t[17].id.len() != t[26].id.len());
    assert(t[17].id.len() != t[27].id.len());
    assert(t[17].id.len() != t[28].id.len());
    assert(t[17].id.len() != t[29].id.len());
    assert(t[17].id.len() != t[30].id.len());
    assert(t[17].id.len() != t[31].id.len());
    assert(t[17].id.len() != t[32].id.len());
    assert(t[17].id.len() != t[33].id.len());
    assert(t[17].id.len() != t[34].id.len());
    assert(t[17].id.len() != t[35].id.len());
    assert(t[17].id.len() != t[36].id.len());
    assert(t[17].id.len() != t[37].id.len());
    assert(t[17].id.len() != t[38].id.len());
    assert(t[18].id[1] != t[19].id[1]);
    assert(t[18].id.len() != t[20].id.len());
    assert(t[18].id.len() != t[21].id.len());
    assert(t[18].id.len() != t[22].id.len());
    assert(t[18].id.len() != t[23].id.len());
    assert(t[18].id[1] != t[24].id[1]);
    assert(t[18].id.len() != t[25].id.len());
    assert(t[18].id.len() != t[26].id.len());
    assert(t[18].id.len() != t[27].id.len());
    assert(t[18].id.len() != t[28].id.len());
    assert(t[18].id.len() != t[29].id.len());
    assert(t[18].id.len() != t[30].id.len());
    assert(t[18].id[0] != t[31].id[0]);
    assert(t[18].id.len() != t[32].id.len());
    assert(t[18].id.len() != t[33].id.len());
    assert(t[18].id.len() != t[34].id.len());
    assert(t[18].id.len() != t[35].id.len());
    assert(t[18].id.len() != t[36].id.len());
    assert(t[18].id.len() != t[37].id.len());
    assert(t[18].id[0] != t[38].id[0]);
    assert(t[19].id.len() != t[20].id.len());
    assert(t[19].id.len() != t[21].id.len());
    assert(t[19].id.len() != t[22].id.len());
    assert(t[19].id.len() != t[23].id.len());
    assert(t[19].id[1] != t[24].id[1]);
    assert(t[19].id.len() != t[25].id.len());
    assert(t[19].id.len() != t[26].id.len());
    assert(t[19].id.len() != t[27].id.len());
    assert(t[19].id.len() != t[28].id.len());
    assert(t[19].id.len() != t[29].id.len());
    assert(t[19].id.len() != t[30].id.len());
    assert(t[19].id[0] != t[31].id[0]);
    assert(t[19].id.len() != t[32].id.len());
    assert(t[19].id.len() != t[33].id.len());
    assert(t[19].id.len() != t[34].id.len());
    assert(t[19].id.len() != t[35].id.len());
    assert(t[19].id.len() != t[36].id.len());
    assert(t[19].id.len() != t[37].id.len());
    assert(t[19].id[0] != t[38].id[0]);
    assert(t[20].id.len() != t[21].id.len());
    assert(t[20].id.len() != t[22].id.len());
    assert(t[20].id.len() != t[23].id.len());
    assert(t[20].id.len() != t[24].id.len());
    assert(t[20].id.len() != t[25].id.len());
    assert(t[20].id.len() != t[26].id.len());
    assert(t[20].id[0] != t[27].id[0]);
    assert(t[20].id[0] != t[28].id[0]);
    assert(t[20].id[0] != t[29].id[0]);
    assert(t[20].id.len() != t[30].id.len());
    assert(t[20].id.len() != t[31].id.len());
    assert(t[20].id.len() != t[32].id.len());
    assert(t[20].id.len() != t[33].id.len());
    assert(t[20].id.len() != t[34].id.len());
    assert(t[20].id.len() != t[35].id.len());
    assert(t[20].id.len() != t[36].id.len());
    assert(t[20].id.len() != t[37].id.len());
    assert(t[20].id.len() != t[38].id.len());
    assert(t[21].id.len() != t[22].id.len());
    assert(t[21].id.len() != t[23].id.len());
    assert(t[21].id.len() != t[24].id.len());
    assert(t[21].id.len() != t[25].id.len());
    assert(t[21].id.len() != t[26].id.len());
    assert(t[21].id.len() != t[27].id.len());
    assert(t[21].id.len() != t[28].id.len());
    assert(t[21].id.len() != t[29].id.len());
    assert(t[21].id.len() != t[30].id.len());
    assert(t[21].id.len() != t[31].id.len());
    assert(t[21].id.len() != t[32].id.len());
    assert(t[21].id.len() != t[33].id.len());
    assert(t[21].id.len() != t[34].id.len());
    assert(t[21].id.len() != t[35].id.len());
    assert(t[21].id.len() != t[36].id.len());
    assert(t[21].id.len() != t[37].id.len());
    assert(t[21].id.len() != t[38].id.len());
    assert(t[22].id.len() != t[23].id.len());
    assert(t[22].id.len() != t[24].id.len());
    assert(t[22].id.len() != t[25].id.len());
    assert(t[22].id.len() != t[26].id.len());
    assert(t[22].id.len() != t[27].id.len());
    assert(t[22].id.len() != t[28].id.len());
    assert(t[22].id.len() != t[29].id.len());
    assert(t[22].id.len() != t[30].id.len());
    assert(t[22].id.len() != t[31].id.len());
    assert(t[22].id[0] != t[32].id[0]);
    assert(t[22].id.len() != t[33].id.len());
    assert(t[22].id.len() != t[34].id.len());
    assert(t[22].id.len() != t[35].id.len());
    assert(t[22].id.len() != t[36].id.len());
    assert(t[22].id.len() != t[37].id.len());
    assert(t[22].id.len() != t[38].id.len());
    assert(t[23].id.len() != t[24].id.len());
    assert(t[23].id[0] != t[25].id[0]);
    assert(t[23].id[0] != t[26].id[0]);
    assert(t[23].id.len() != t[27].id.len());
    assert(t[23].id.len() != t[28].id.len());
    assert(t[23].id.len() != t[29].id.len());
    assert(t[23].id[0] != t[30].id[0]);
    assert(t[23].id.len() != t[31].id.len());
    assert(t[23].id.len() != t[32].id.len());
    assert(t[23].id.len() != t[33].id.len());
    assert(t[23].id.len() != t[34].id.len());
    assert(t[23].id.len() != t[35].id.len());
    assert(t[23].id.len() != t[36].id.len());
    assert(t[23].id.len() != t[37].id.len());
    assert(t[23].id.len() != t[38].id.len());
    assert(t[24].id.len() != t[25].id.len());
    assert(t[24].id.len() != t[26].id.len());
    assert(t[24].id.len() != t[27].id.len());
    assert(t[24].id.len() != t[28].id.len());
    assert(t[24].id.len() != t[29].id.len());
    assert(t[24].id.len() != t[30].id.len());
    assert(t[24].id[0] != t[31].id[0]);
    assert(t[24].id.len() != t[32].id.len());
    assert(t[24].id.len() != t[33].id.len());
    assert(t[24].id.len() != t[34].id.len());
    assert(t[24].id.len() != t[35].id.len());
    assert(t[24].id.len() != t[36].id.len());
    assert(t[24].id.len() != t[37].id.len());
    assert(t[24].id[0] != t[38].id[0]);
    assert(t[25].id[0] != t[26].id[0]);
    assert(t[25].id.len() != t[27].id.len());
    assert(t[25].id.len() != t[28].id.len());
    assert(t[25].id.len() != t[29].id.len());
    assert(t[25].id[0] != t[30].id[0]);
    assert(t[25].id.len() != t[31].id.len());
    assert(t[25].id.len() != t[32].id.len());
    assert(t[25].id.len() != t[33].id.len());
    assert(t[25].id.len() != t[34].id.len());
    assert(t[25].id.len() != t[35].id.len());
    assert(t[25].id.len() != t[36].id.len());
    assert(t[25].id.len() != t[37].id.len());
    assert(t[25].id.len() != t[38].id.len());
    assert(t[26].id.len() != t[27].id.len());
    assert(t[26].id.len() != t[28].id.len());
    assert(t[26].id.len() != t[29].id.len());
    assert(t[26].id[0] != t[30].id[0]);
    assert(t[26].id.len() != t[31].id.len());
    assert(t[26].id.len() != t[32].id.len());
    assert(t[26].id.len() != t[33].id.len());
    assert(t[26].id.len() != t[34].id.len());
    assert(t[26].id.len() != t[35].id.len());
    assert(t[26].id.len() != t[36].id.len());
    assert(t[26].id.len() != t[37].id.len());
    assert(t[26].id.len() != t[38].id.len());
    assert(t[27].id[5] != t[28].id[5]);
    assert(t[27].id[5] != t[29].id[5]);
    assert(t[27].id.len() != t[30].id.len());
    assert(t[27].id.len() != t[31].id.len());
    assert(t[27].id.len() != t[32].id.len());
    assert(t[27].id.len() != t[33].id.len());
    assert(t[27].id.len() != t[34].id.len());
    assert(t[27].id.len() != t[35].id.len());
    assert(t[27].id.len() != t[36].id.len());
    assert(t[27].id.len() != t[37].id.len());
    assert(t[27].id.len() != t[38].id.len());
    assert(t[28].id[5] != t[29].id[5]);
    assert(t[28].id.len() != t[30].id.len());
    assert(t[28].id.len() != t[31].id.len());
    assert(t[28].id.len() != t[32].id.len());
    assert(t[28].id.len() != t[33].id.len());
    assert(t[28].id.len() != t[34].id.len());
    assert(t[28].id.len() != t[35].id.len());
    assert(t[28].id.len() != t[36].id.len());
    assert(t[28].id.len() != t[37].id.len());
    assert(t[28].id.len() != t[38].id.len());
    assert(t[29].id.len() != t[30].id.len());
    assert(t[29].id.len() != t[31].id.len());
    assert(t[29].id.len() != t[32].id.len());
    assert(t[29].id.len() != t[33].id.len());
    assert(t[29].id.len() != t[34].id.len());
    assert(t[29].id.len() != t[35].id.len());
    assert(t[29].id.len() != t[36].id.len());
    assert(t[29].id.len() != t[37].id.len());
    assert(t[29].id.len() != t[38].id.len());
    assert(t[30].id.len() != t[31].id.len());
    assert(t[30].id.len() != t[32].id.len());
    assert(t[30].id.len() != t[33].id.len());
    assert(t[30].id.len() != t[34].id.len());
    assert(t[30].id.len() != t[35].id.len());
    assert(t[30].id.len() != t[36].id.len());
    assert(t[30].id.len() != t[37].id.len());
    assert(t[30].id.len() != t[38].id.len());
    assert(t[31].id.len() != t[32].id.len());
    assert(t[31].id.len() != t[33].id.len());
    assert(t[31].id.len() != t[34].id.len());
    assert(t[31].id.len() != t[35].id.len());
    assert(t[31].id.len() != t[36].id.len());
    assert(t[31].id.len() != t[37].id.len());
    assert(t[31].id[0] != t[38].id[0]);
    assert(t[32].id.len() != t[33].id.len());
    assert(t[32].id.len() != t[34].id.len());
    assert(t[32].id.len() != t[35].id.len());
    assert(t[32].id.len() != t[36].id.len());
    assert(t[32].id.len() != t[37].id.len());
    assert(t[32].id.len() != t[38].id.len());
    assert(t[33].id.len() != t[34].id.len());
    assert(t[33].id[0] != t[35].id[0]);
    assert(t[33].id.len() != t[36].id.len());
    assert(t[33].id[0] != t[37].id[0]);
    assert(t[33].id.len() != t[38].id.len());
    assert(t[34].id.len() != t[35].id.len());
    assert(t[34].id.len() != t[36].id.len());
    assert(t[34].id.len() != t[37].id.len());
    assert(t[34].id.len() != t[38].id.len());
    assert(t[35].id.len() != t[36].id.len());
    assert(t[35].id[0] != t[37].id[0]);
    assert(t[35].id.len() != t[38].id.len());
    assert(t[36].id.len() != t[37].id.len());
    assert(t[36].id.len() != t[38].id.len());
    assert(t[37].id.len() != t[38].id.len());
}

} // verus!
