//! Metadata: the patch providers merge onto a game, cover suggestions, and
//! the naming rules of the online sources (libretro's thumbnail server and
//! its box-art index, ScreenScraper's system ids and localized fields). The
//! requests themselves are made at the application edge.
use vstd::prelude::*;
use vstd::string::StringSliceAdditionalSpecFns;
use crate::launchbox::{is_ascii_alnum, key_char};
use crate::hotkeys::{lower_char_exec, lower_str, lower_vec};
use crate::adapters::{str_views, string_views};
use crate::adapters::standalone::{join_with, join_with_vec};
use crate::bindings::{lemma_lex_total, lemma_lex_trans, lex_less, lex_lt};
use crate::library::{find_sub_after, lemma_find_sub_from};
use crate::platforms::{opt_str, strictly_sorted};
use vstd::utf8::{
    decode_utf8, encode_utf8, encode_utf8_decode_utf8, encode_utf8_valid_utf8, is_ascii_chars,
    is_ascii_chars_encode_utf8, valid_utf8,
};
use crate::iso9660::opt_view;
use crate::text::{
    chars_of, eq_str, eq_vec, find_char, find_char_vec, find_sub_from, find_sub_vec, lossy_string,
    occurs_at, push_str, slice_of, string_of, strip_suffix, strip_suffix_str, trim, trim_vec,
    utf8_lossy, views, words, words_vec,
};

verus! {

/// A partial set of metadata fields to merge onto a game. `None` fields are
/// left untouched, so providers never clobber better data with blanks.
#[derive(Debug, Clone, Default)]
pub struct MetadataPatch {
    pub cover_art: Option<String>,
    pub background_art: Option<String>,
    pub description: Option<String>,
    pub genre: Option<String>,
    pub developer: Option<String>,
    pub publisher: Option<String>,
    pub release_date: Option<String>,
}

impl MetadataPatch {
    /// No field is set.
    pub fn is_empty(&self) -> (b: bool)
        ensures
            b == (self.cover_art is None && self.background_art is None && self.description is None
                && self.genre is None && self.developer is None && self.publisher is None
                && self.release_date is None),
    {
        self.cover_art.is_none() && self.background_art.is_none() && self.description.is_none()
            && self.genre.is_none() && self.developer.is_none() && self.publisher.is_none()
            && self.release_date.is_none()
    }
}

/// A single cover suggestion for the interactive picker, tagged by source.
/// `token` is what applying it needs: the libretro box-art name, or the
/// LaunchBox image file path.
#[derive(Debug, Clone)]
pub struct CoverCandidate {
    /// `libretro` or `launchbox`.
    pub source: String,
    /// Title to display.
    pub label: String,
    /// libretro name, or LaunchBox file name.
    pub token: String,
}

pub open spec fn candidate_view(c: CoverCandidate) -> (Seq<char>, Seq<char>, Seq<char>) {
    (c.source@, c.label@, c.token@)
}

/// Merge ranked libretro names and ranked LaunchBox (name, file name) pairs
/// into one tagged list, libretro first (the primary source).
pub fn rank_cover_candidates(libretro: Vec<String>, launchbox: Vec<(String, String)>) -> (r: Vec<
    CoverCandidate,
>)
    ensures
        r@.len() == libretro@.len() + launchbox@.len(),
        forall|i: int|
            0 <= i < libretro@.len() ==> candidate_view(#[trigger] r@[i]) == ("libretro"@, libretro@[i]@, libretro@[i]@),
        forall|i: int|
            0 <= i < launchbox@.len() ==> candidate_view(#[trigger] r@[libretro@.len() + i]) == (
                "launchbox"@,
                launchbox@[i].0@,
                launchbox@[i].1@,
            ),
{
    let mut out: Vec<CoverCandidate> = Vec::new();
    let mut i: usize = 0;
    while i < libretro.len()
        invariant
            i <= libretro.len(),
            out@.len() == i,
            forall|k: int| 0 <= k < i ==> candidate_view(#[trigger] out@[k]) == ("libretro"@, libretro@[k]@, libretro@[k]@),
        decreases libretro.len() - i,
    {
        let name = libretro[i].as_str();
        out.push(CoverCandidate { source: string_of(&chars_of("libretro")), label: string_of(&chars_of(name)), token: string_of(&chars_of(name)) });
        i += 1;
    }
    let mut j: usize = 0;
    while j < launchbox.len()
        invariant
            j <= launchbox.len(),
            out@.len() == libretro@.len() + j,
            forall|k: int| 0 <= k < libretro@.len() ==> candidate_view(#[trigger] out@[k]) == ("libretro"@, libretro@[k]@, libretro@[k]@),
            forall|k: int| 0 <= k < j ==> candidate_view(#[trigger] out@[libretro@.len() + k]) == ("launchbox"@, launchbox@[k].0@, launchbox@[k].1@),
        decreases launchbox.len() - j,
    {
        let (name, file) = (&launchbox[j].0, &launchbox[j].1);
        out.push(CoverCandidate { source: string_of(&chars_of("launchbox")), label: string_of(&chars_of(name.as_str())), token: string_of(&chars_of(file.as_str())) });
        proof {
            assert(out@[libretro@.len() + j as int] == out@[out@.len() - 1]);
        }
        j += 1;
    }
    out
}

/// The local provider: artwork the user already has beside the ROM. No
/// network, no API key, always available.
pub struct LocalProvider;

impl LocalProvider {
    pub fn id(&self) -> (r: &'static str)
        ensures
            r@ == "local"@,
    {
        "local"
    }
}

// ── libretro thumbnails ────────────────────────────────────────────────────

/// The libretro system folder a platform's thumbnails live under; `None` for
/// platforms libretro doesn't index under a supported name.
pub open spec fn libretro_system_spec(p: Seq<char>) -> Option<Seq<char>> {
    if p == "nes"@ {
        Some("Nintendo - Nintendo Entertainment System"@)
    } else if p == "snes"@ {
        Some("Nintendo - Super Nintendo Entertainment System"@)
    } else if p == "n64"@ {
        Some("Nintendo - Nintendo 64"@)
    } else if p == "gamecube"@ {
        Some("Nintendo - GameCube"@)
    } else if p == "wii"@ {
        Some("Nintendo - Wii"@)
    } else if p == "gb"@ {
        Some("Nintendo - Game Boy"@)
    } else if p == "gbc"@ {
        Some("Nintendo - Game Boy Color"@)
    } else if p == "gba"@ {
        Some("Nintendo - Game Boy Advance"@)
    } else if p == "nds"@ {
        Some("Nintendo - Nintendo DS"@)
    } else if p == "virtualboy"@ {
        Some("Nintendo - Virtual Boy"@)
    } else if p == "genesis"@ {
        Some("Sega - Mega Drive - Genesis"@)
    } else if p == "dreamcast"@ {
        Some("Sega - Dreamcast"@)
    } else if p == "ps1"@ {
        Some("Sony - PlayStation"@)
    } else if p == "ps2"@ {
        Some("Sony - PlayStation 2"@)
    } else if p == "psp"@ {
        Some("Sony - PlayStation Portable"@)
    } else if p == "ps3"@ {
        Some("Sony - PlayStation 3"@)
    } else if p == "saturn"@ {
        Some("Sega - Saturn"@)
    } else if p == "segacd"@ {
        Some("Sega - Mega-CD - Sega CD"@)
    } else if p == "sega32x"@ {
        Some("Sega - 32X"@)
    } else if p == "gamegear"@ {
        Some("Sega - Game Gear"@)
    } else if p == "sms"@ {
        Some("Sega - Master System - Mark III"@)
    } else if p == "pcengine"@ {
        Some("NEC - PC Engine - TurboGrafx 16"@)
    } else if p == "n3ds"@ {
        Some("Nintendo - Nintendo 3DS"@)
    } else if p == "atari2600"@ {
        Some("Atari - 2600"@)
    } else if p == "atari5200"@ {
        Some("Atari - 5200"@)
    } else if p == "atari7800"@ {
        Some("Atari - 7800"@)
    } else if p == "jaguar"@ {
        Some("Atari - Jaguar"@)
    } else if p == "lynx"@ {
        Some("Atari - Lynx"@)
    } else if p == "amiga"@ {
        Some("Commodore - Amiga"@)
    } else if p == "c64"@ {
        Some("Commodore - 64"@)
    } else if p == "colecovision"@ {
        Some("Coleco - ColecoVision"@)
    } else if p == "msx"@ {
        Some("Microsoft - MSX"@)
    } else if p == "xbox"@ {
        Some("Microsoft - Xbox"@)
    } else if p == "ngp"@ {
        Some("SNK - Neo Geo Pocket"@)
    } else if p == "wonderswan"@ {
        Some("Bandai - WonderSwan"@)
    } else if p == "arcade"@ {
        Some("MAME"@)
    } else {
        None
    }
}

/// Map a platform slug to the libretro system folder name.
pub fn libretro_system_name(platform: &str) -> (r: Option<&'static str>)
    ensures
        opt_str(r) == libretro_system_spec(platform@),
{
    let p = chars_of(platform);
    if eq_str(&p, "nes") {
        Some("Nintendo - Nintendo Entertainment System")
    } else if eq_str(&p, "snes") {
        Some("Nintendo - Super Nintendo Entertainment System")
    } else if eq_str(&p, "n64") {
        Some("Nintendo - Nintendo 64")
    } else if eq_str(&p, "gamecube") {
        Some("Nintendo - GameCube")
    } else if eq_str(&p, "wii") {
        Some("Nintendo - Wii")
    } else if eq_str(&p, "gb") {
        Some("Nintendo - Game Boy")
    } else if eq_str(&p, "gbc") {
        Some("Nintendo - Game Boy Color")
    } else if eq_str(&p, "gba") {
        Some("Nintendo - Game Boy Advance")
    } else if eq_str(&p, "nds") {
        Some("Nintendo - Nintendo DS")
    } else if eq_str(&p, "virtualboy") {
        Some("Nintendo - Virtual Boy")
    } else if eq_str(&p, "genesis") {
        Some("Sega - Mega Drive - Genesis")
    } else if eq_str(&p, "dreamcast") {
        Some("Sega - Dreamcast")
    } else if eq_str(&p, "ps1") {
        Some("Sony - PlayStation")
    } else if eq_str(&p, "ps2") {
        Some("Sony - PlayStation 2")
    } else if eq_str(&p, "psp") {
        Some("Sony - PlayStation Portable")
    } else if eq_str(&p, "ps3") {
        Some("Sony - PlayStation 3")
    } else if eq_str(&p, "saturn") {
        Some("Sega - Saturn")
    } else if eq_str(&p, "segacd") {
        Some("Sega - Mega-CD - Sega CD")
    } else if eq_str(&p, "sega32x") {
        Some("Sega - 32X")
    } else if eq_str(&p, "gamegear") {
        Some("Sega - Game Gear")
    } else if eq_str(&p, "sms") {
        Some("Sega - Master System - Mark III")
    } else if eq_str(&p, "pcengine") {
        Some("NEC - PC Engine - TurboGrafx 16")
    } else if eq_str(&p, "n3ds") {
        Some("Nintendo - Nintendo 3DS")
    } else if eq_str(&p, "atari2600") {
        Some("Atari - 2600")
    } else if eq_str(&p, "atari5200") {
        Some("Atari - 5200")
    } else if eq_str(&p, "atari7800") {
        Some("Atari - 7800")
    } else if eq_str(&p, "jaguar") {
        Some("Atari - Jaguar")
    } else if eq_str(&p, "lynx") {
        Some("Atari - Lynx")
    } else if eq_str(&p, "amiga") {
        Some("Commodore - Amiga")
    } else if eq_str(&p, "c64") {
        Some("Commodore - 64")
    } else if eq_str(&p, "colecovision") {
        Some("Coleco - ColecoVision")
    } else if eq_str(&p, "msx") {
        Some("Microsoft - MSX")
    } else if eq_str(&p, "xbox") {
        Some("Microsoft - Xbox")
    } else if eq_str(&p, "ngp") {
        Some("SNK - Neo Geo Pocket")
    } else if eq_str(&p, "wonderswan") {
        Some("Bandai - WonderSwan")
    } else if eq_str(&p, "arcade") {
        Some("MAME")
    } else {
        None
    }
}

/// The characters libretro replaces with `_` in thumbnail file names.
pub open spec fn thumb_unsafe(c: char) -> bool {
    c == '&' || c == '*' || c == '/' || c == ':' || c == '`' || c == '<' || c == '>' || c == '?'
        || c == '\\' || c == '|'
}

pub open spec fn libretro_filename_spec(stem: Seq<char>) -> Seq<char> {
    Seq::new(stem.len(), |i: int| if thumb_unsafe(stem[i]) { '_' } else { stem[i] })
}

/// A stem as libretro names its thumbnail file.
pub fn libretro_filename(stem: &str) -> (r: String)
    ensures
        r@ == libretro_filename_spec(stem@),
{
    let s = chars_of(stem);
    let mut out: Vec<char> = Vec::new();
    let mut i: usize = 0;
    while i < s.len()
        invariant
            i <= s.len(),
            s@ == stem@,
            out@ == libretro_filename_spec(stem@).take(i as int),
        decreases s.len() - i,
    {
        let c = s[i];
        let d = if c == '&' || c == '*' || c == '/' || c == ':' || c == '`' || c == '<' || c == '>'
            || c == '?' || c == '\\' || c == '|' {
            '_'
        } else {
            c
        };
        out.push(d);
        i += 1;
        proof {
            assert(out@ =~= libretro_filename_spec(stem@).take(i as int));
        }
    }
    proof {
        assert(out@ =~= libretro_filename_spec(stem@));
    }
    string_of(&out)
}

/// RFC 3986 unreserved bytes, kept as they are by percent-encoding.
pub open spec fn is_unreserved(b: u8) -> bool {
    (0x41 <= b <= 0x5A) || (0x61 <= b <= 0x7A) || (0x30 <= b <= 0x39) || b == 0x2D || b == 0x5F
        || b == 0x2E || b == 0x7E
}

/// An uppercase hexadecimal digit.
pub open spec fn hex_upper(n: int) -> char {
    if n < 10 {
        ((n + 48) as u32) as char
    } else {
        ((n + 55) as u32) as char
    }
}

/// One byte, percent-encoded unless unreserved.
pub open spec fn pct_byte(b: u8) -> Seq<char> {
    if is_unreserved(b) {
        seq![b as char]
    } else {
        seq!['%', hex_upper((b / 16) as int), hex_upper((b % 16) as int)]
    }
}

pub open spec fn pct_encode(bs: Seq<u8>) -> Seq<char>
    decreases bs.len(),
{
    if bs.len() == 0 {
        seq![]
    } else {
        pct_encode(bs.drop_last()) + pct_byte(bs.last())
    }
}

fn hex_upper_exec(n: u8) -> (c: char)
    requires
        n < 16,
    ensures
        c == hex_upper(n as int),
{
    if n < 10 {
        (n + 48) as char
    } else {
        (n + 55) as char
    }
}

/// Percent-encode the UTF-8 bytes of `s`, keeping the unreserved ones.
pub fn percent_encode(s: &str) -> (r: String)
    ensures
        r@ == pct_encode(s.spec_bytes()),
{
    let bytes = s.as_bytes();
    let mut out: Vec<char> = Vec::new();
    let mut i: usize = 0;
    proof {
        assert(bytes@.take(0) =~= Seq::<u8>::empty());
    }
    while i < bytes.len()
        invariant
            i <= bytes@.len(),
            bytes@ == s.spec_bytes(),
            out@ == pct_encode(bytes@.take(i as int)),
        decreases bytes@.len() - i,
    {
        let b = bytes[i];
        let ghost o = out@;
        if (0x41 <= b && b <= 0x5A) || (0x61 <= b && b <= 0x7A) || (0x30 <= b && b <= 0x39) || b
            == 0x2D || b == 0x5F || b == 0x2E || b == 0x7E {
            out.push(b as char);
        } else {
            out.push('%');
            out.push(hex_upper_exec(b / 16));
            out.push(hex_upper_exec(b % 16));
        }
        proof {
            assert(bytes@.take(i as int + 1).drop_last() =~= bytes@.take(i as int));
            assert(bytes@.take(i as int + 1).last() == b);
            assert(out@ =~= o + pct_byte(b));
        }
        i += 1;
    }
    proof {
        assert(bytes@.take(bytes@.len() as int) =~= bytes@);
    }
    string_of(&out)
}

/// Percent-encode one URL path segment.
pub fn encode_segment(s: &str) -> (r: String)
    ensures
        r@ == pct_encode(s.spec_bytes()),
{
    percent_encode(s)
}

/// Minimal `application/x-www-form-urlencoded` encoder for query values.
pub fn urlencode(s: &str) -> (r: String)
    ensures
        r@ == pct_encode(s.spec_bytes()),
{
    percent_encode(s)
}

// ── ScreenScraper ids ──────────────────────────────────────────────────────

/// ScreenScraper's numeric `systemeid` for a platform; `None` where there is
/// no stable id.
pub open spec fn screenscraper_system_spec(p: Seq<char>) -> Option<u32> {
    if p == "nes"@ {
        Some(3)
    } else if p == "snes"@ {
        Some(4)
    } else if p == "n64"@ {
        Some(14)
    } else if p == "gamecube"@ {
        Some(13)
    } else if p == "wii"@ {
        Some(16)
    } else if p == "gb"@ {
        Some(9)
    } else if p == "gbc"@ {
        Some(10)
    } else if p == "gba"@ {
        Some(12)
    } else if p == "nds"@ {
        Some(15)
    } else if p == "virtualboy"@ {
        Some(11)
    } else if p == "genesis"@ {
        Some(1)
    } else if p == "dreamcast"@ {
        Some(23)
    } else if p == "ps1"@ {
        Some(57)
    } else if p == "ps2"@ {
        Some(58)
    } else if p == "psp"@ {
        Some(61)
    } else if p == "ps3"@ {
        Some(59)
    } else if p == "vita"@ {
        Some(62)
    } else if p == "saturn"@ {
        Some(22)
    } else if p == "segacd"@ {
        Some(20)
    } else if p == "sega32x"@ {
        Some(19)
    } else if p == "gamegear"@ {
        Some(21)
    } else if p == "sms"@ {
        Some(2)
    } else if p == "pcengine"@ {
        Some(31)
    } else if p == "n3ds"@ {
        Some(17)
    } else if p == "switch"@ {
        Some(225)
    } else if p == "atari2600"@ {
        Some(26)
    } else if p == "atari5200"@ {
        Some(40)
    } else if p == "atari7800"@ {
        Some(41)
    } else if p == "jaguar"@ {
        Some(27)
    } else if p == "lynx"@ {
        Some(28)
    } else if p == "amiga"@ {
        Some(64)
    } else if p == "c64"@ {
        Some(66)
    } else if p == "colecovision"@ {
        Some(48)
    } else if p == "msx"@ {
        Some(113)
    } else if p == "xbox"@ {
        Some(32)
    } else if p == "ngp"@ {
        Some(25)
    } else if p == "wonderswan"@ {
        Some(45)
    } else {
        None
    }
}

/// Map a platform slug to ScreenScraper's `systemeid`.
pub fn screenscraper_system_id(platform: &str) -> (r: Option<u32>)
    ensures
        r == screenscraper_system_spec(platform@),
{
    let p = chars_of(platform);
    if eq_str(&p, "nes") {
        Some(3)
    } else if eq_str(&p, "snes") {
        Some(4)
    } else if eq_str(&p, "n64") {
        Some(14)
    } else if eq_str(&p, "gamecube") {
        Some(13)
    } else if eq_str(&p, "wii") {
        Some(16)
    } else if eq_str(&p, "gb") {
        Some(9)
    } else if eq_str(&p, "gbc") {
        Some(10)
    } else if eq_str(&p, "gba") {
        Some(12)
    } else if eq_str(&p, "nds") {
        Some(15)
    } else if eq_str(&p, "virtualboy") {
        Some(11)
    } else if eq_str(&p, "genesis") {
        Some(1)
    } else if eq_str(&p, "dreamcast") {
        Some(23)
    } else if eq_str(&p, "ps1") {
        Some(57)
    } else if eq_str(&p, "ps2") {
        Some(58)
    } else if eq_str(&p, "psp") {
        Some(61)
    } else if eq_str(&p, "ps3") {
        Some(59)
    } else if eq_str(&p, "vita") {
        Some(62)
    } else if eq_str(&p, "saturn") {
        Some(22)
    } else if eq_str(&p, "segacd") {
        Some(20)
    } else if eq_str(&p, "sega32x") {
        Some(19)
    } else if eq_str(&p, "gamegear") {
        Some(21)
    } else if eq_str(&p, "sms") {
        Some(2)
    } else if eq_str(&p, "pcengine") {
        Some(31)
    } else if eq_str(&p, "n3ds") {
        Some(17)
    } else if eq_str(&p, "switch") {
        Some(225)
    } else if eq_str(&p, "atari2600") {
        Some(26)
    } else if eq_str(&p, "atari5200") {
        Some(40)
    } else if eq_str(&p, "atari7800") {
        Some(41)
    } else if eq_str(&p, "jaguar") {
        Some(27)
    } else if eq_str(&p, "lynx") {
        Some(28)
    } else if eq_str(&p, "amiga") {
        Some(64)
    } else if eq_str(&p, "c64") {
        Some(66)
    } else if eq_str(&p, "colecovision") {
        Some(48)
    } else if eq_str(&p, "msx") {
        Some(113)
    } else if eq_str(&p, "xbox") {
        Some(32)
    } else if eq_str(&p, "ngp") {
        Some(25)
    } else if eq_str(&p, "wonderswan") {
        Some(45)
    } else {
        None
    }
}

// ── thumbnail names ────────────────────────────────────────────────────────

/// Some mark occurs in `s`.
pub open spec fn has_any(s: Seq<char>, marks: Seq<Seq<char>>) -> bool {
    exists|k: int| 0 <= k < marks.len() && find_sub_from(s, #[trigger] marks[k], 0) >= 0
}

pub open spec fn usa_marks() -> Seq<Seq<char>> {
    seq!["(u)"@, "(usa"@, "(ntsc"@, "(ue)"@, "(uj)"@, "(ub)"@]
}

pub open spec fn europe_marks() -> Seq<Seq<char>> {
    seq!["(e)"@, "(eur"@, "(pal"@, "(ue)"@, "(ej)"@]
}

pub open spec fn japan_marks() -> Seq<Seq<char>> {
    seq!["(j)"@, "(jap"@, "(jpn"@, "(jp)"@, "(uj)"@, "(ej)"@]
}

pub open spec fn when(b: bool, s: Seq<char>) -> Seq<Seq<char>> {
    if b {
        seq![s]
    } else {
        seq![]
    }
}

/// Region words to try: those a stem's tags name (No-Intro words like
/// `(USA)`, GoodTools letters like `(U)`), in the order USA, Europe, Japan;
/// then the remaining usual fallbacks in that order, and World.
pub open spec fn regions_spec(stem: Seq<char>) -> Seq<Seq<char>> {
    let s = lower_str(stem);
    let u = has_any(s, usa_marks());
    let e = has_any(s, europe_marks());
    let j = has_any(s, japan_marks());
    when(u, "USA"@) + when(e, "Europe"@) + when(j, "Japan"@) + when(!u, "USA"@) + when(
        !e,
        "Europe"@,
    ) + when(!j, "Japan"@) + seq!["World"@]
}

fn has_any_exec(s: &Vec<char>, marks: &Vec<&'static str>) -> (b: bool)
    ensures
        b == has_any(s@, str_views(marks@)),
{
    let ghost m = str_views(marks@);
    let mut k: usize = 0;
    while k < marks.len()
        invariant
            k <= marks.len(),
            m == str_views(marks@),
            forall|j: int| 0 <= j < k ==> find_sub_from(s@, #[trigger] m[j], 0) < 0,
        decreases marks.len() - k,
    {
        let mc = chars_of(marks[k]);
        proof {
            assert(mc@ == m[k as int]);
        }
        if find_sub_vec(s, &mc).is_some() {
            return true;
        }
        k += 1;
    }
    false
}

/// Region words to try for a stem, the detected ones first.
pub fn regions_for(stem: &str) -> (r: Vec<&'static str>)
    ensures
        str_views(r@) == regions_spec(stem@),
{
    let s = lower_vec(&chars_of(stem));
    let um: Vec<&'static str> = vec!["(u)", "(usa", "(ntsc", "(ue)", "(uj)", "(ub)"];
    let em: Vec<&'static str> = vec!["(e)", "(eur", "(pal", "(ue)", "(ej)"];
    let jm: Vec<&'static str> = vec!["(j)", "(jap", "(jpn", "(jp)", "(uj)", "(ej)"];
    proof {
        assert(str_views(um@) =~= usa_marks());
        assert(str_views(em@) =~= europe_marks());
        assert(str_views(jm@) =~= japan_marks());
    }
    let u = has_any_exec(&s, &um);
    let e = has_any_exec(&s, &em);
    let j = has_any_exec(&s, &jm);
    let mut out: Vec<&'static str> = Vec::new();
    if u {
        out.push("USA");
    }
    if e {
        out.push("Europe");
    }
    if j {
        out.push("Japan");
    }
    if !u {
        out.push("USA");
    }
    if !e {
        out.push("Europe");
    }
    if !j {
        out.push("Japan");
    }
    out.push("World");
    proof {
        assert(str_views(out@) =~= regions_spec(stem@));
    }
    out
}

/// Drop consecutive repeats (`Vec::dedup`).
pub open spec fn dedup_runs(s: Seq<Seq<char>>) -> Seq<Seq<char>>
    decreases s.len(),
{
    if s.len() <= 1 {
        s
    } else if s.last() == s.drop_last().last() {
        dedup_runs(s.drop_last())
    } else {
        dedup_runs(s.drop_last()).push(s.last())
    }
}

proof fn lemma_dedup_runs_last(s: Seq<Seq<char>>)
    ensures
        s.len() > 0 ==> dedup_runs(s).len() > 0 && dedup_runs(s).last() == s.last(),
    decreases s.len(),
{
    if s.len() > 1 {
        lemma_dedup_runs_last(s.drop_last());
    }
}

/// `"{title} ({region})"` for each region, then the stem, then the title,
/// without consecutive repeats.
pub open spec fn candidate_names_spec(stem: Seq<char>, title: Seq<char>) -> Seq<Seq<char>> {
    let rs = regions_spec(stem);
    dedup_runs(
        Seq::new(rs.len(), |i: int| title + " ("@ + rs[i] + ")"@) + seq![stem, title],
    )
}

fn push_dedup(out: &mut Vec<String>, x: Vec<char>, Ghost(g): Ghost<Seq<Seq<char>>>)
    requires
        string_views(old(out)@) == dedup_runs(g),
    ensures
        string_views(final(out)@) == dedup_runs(g.push(x@)),
{
    let ghost o = string_views(out@);
    proof {
        lemma_dedup_runs_last(g);
        assert(g.push(x@).drop_last() =~= g);
        if g.len() == 0 {
            assert(o.len() == 0);
            assert(g.push(x@) =~= seq![x@]);
        }
    }
    if out.len() > 0 {
        let n = out.len();
        proof {
            assert(o.last() == out@[n - 1]@);
        }
        if eq_vec(&chars_of(out[n - 1].as_str()), &x) {
            return;
        }
    }
    out.push(string_of(&x));
    proof {
        assert(string_views(out@) =~= o.push(x@));
    }
}

/// The ordered, de-duplicated names to probe on the thumbnail server.
pub fn candidate_names(stem: &str, title: &str) -> (r: Vec<String>)
    ensures
        string_views(r@) == candidate_names_spec(stem@, title@),
{
    let regions = regions_for(stem);
    let ghost rs = regions_spec(stem@);
    let ghost all = Seq::new(rs.len(), |i: int| title@ + " ("@ + rs[i] + ")"@) + seq![stem@, title@];
    let mut out: Vec<String> = Vec::new();
    let mut i: usize = 0;
    proof {
        assert(string_views(out@) =~= dedup_runs(all.take(0)));
    }
    while i < regions.len()
        invariant
            i <= regions.len(),
            str_views(regions@) == rs,
            rs == regions_spec(stem@),
            all == Seq::new(rs.len(), |i: int| title@ + " ("@ + rs[i] + ")"@) + seq![stem@, title@],
            string_views(out@) == dedup_runs(all.take(i as int)),
        decreases regions.len() - i,
    {
        let mut name = chars_of(title);
        push_str(&mut name, " (");
        push_str(&mut name, regions[i]);
        push_str(&mut name, ")");
        proof {
            assert(name@ =~= title@ + " ("@ + rs[i as int] + ")"@);
            assert(all.take(i as int + 1) =~= all.take(i as int).push(name@));
        }
        push_dedup(&mut out, name, Ghost(all.take(i as int)));
        i += 1;
    }
    let n = regions.len();
    proof {
        assert(all.take(n as int + 1) =~= all.take(n as int).push(stem@));
    }
    push_dedup(&mut out, chars_of(stem), Ghost(all.take(n as int)));
    proof {
        assert(all.take(n as int + 2) =~= all.take(n as int + 1).push(title@));
    }
    push_dedup(&mut out, chars_of(title), Ghost(all.take(n as int + 1)));
    proof {
        assert(all.take(n as int + 2) =~= all);
    }
    out
}

// ── name matching ──────────────────────────────────────────────────────────

/// The search tokens of a name: lowercased, split on any non-alphanumeric,
/// empties dropped.
pub open spec fn tokens_spec(s: Seq<char>) -> Seq<Seq<char>> {
    words(Seq::new(s.len(), |i: int| key_char(s[i])))
}

fn tokens_vec(s: &str) -> (r: Vec<Vec<char>>)
    ensures
        views(r@) == tokens_spec(s@),
{
    let cs = chars_of(s);
    let mut m: Vec<char> = Vec::new();
    let mut i: usize = 0;
    while i < cs.len()
        invariant
            i <= cs.len(),
            cs@ == s@,
            m@ == Seq::new(s@.len(), |k: int| key_char(s@[k])).take(i as int),
        decreases cs.len() - i,
    {
        let c = lower_char_exec(cs[i]);
        let k = if ('a' <= c && c <= 'z') || ('A' <= c && c <= 'Z') || ('0' <= c && c <= '9') {
            c
        } else {
            ' '
        };
        m.push(k);
        i += 1;
        proof {
            assert(m@ =~= Seq::new(s@.len(), |k: int| key_char(s@[k])).take(i as int));
        }
    }
    proof {
        assert(m@ =~= Seq::new(s@.len(), |k: int| key_char(s@[k])));
    }
    words_vec(&m)
}

/// Lowercase, split on any non-alphanumeric, drop empties.
pub fn normalize_tokens(s: &str) -> (r: Vec<String>)
    ensures
        string_views(r@) == tokens_spec(s@),
{
    let t = tokens_vec(s);
    let mut out: Vec<String> = Vec::new();
    let mut i: usize = 0;
    while i < t.len()
        invariant
            i <= t.len(),
            string_views(out@) == views(t@).take(i as int),
        decreases t.len() - i,
    {
        let ghost o = string_views(out@);
        out.push(string_of(&t[i]));
        proof {
            assert(string_views(out@) =~= o.push(t@[i as int]@));
            assert(views(t@).take(i as int + 1) =~= views(t@).take(i as int).push(t@[i as int]@));
        }
        i += 1;
    }
    proof {
        assert(views(t@).take(t.len() as int) =~= views(t@));
    }
    out
}

/// How many of the query tokens occur among `names`.
pub open spec fn count_in(qt: Seq<Seq<char>>, names: Seq<Seq<char>>) -> nat
    decreases qt.len(),
{
    if qt.len() == 0 {
        0
    } else {
        (if names.contains(qt.last()) { 1nat } else { 0nat }) + count_in(qt.drop_last(), names)
    }
}

/// The parts of a match score: how many query tokens the name has, out of
/// how many, and whether the name's tokens, space-joined, contain the joined
/// query. The score is `matched / total`, plus one half for the substring.
#[derive(Debug, Clone, Copy, PartialEq, Eq, Structural)]
pub struct MatchTally {
    pub matched: usize,
    pub total: usize,
    pub substring: bool,
}

/// Tally a candidate name against query tokens; `None` (a zero score) when
/// either side has no tokens.
pub open spec fn match_tally_spec(qt: Seq<Seq<char>>, qjoined: Seq<char>, name: Seq<char>) -> Option<
    MatchTally,
> {
    let nt = tokens_spec(name);
    if qt.len() == 0 || nt.len() == 0 {
        None
    } else {
        Some(
            MatchTally {
                matched: count_in(qt, nt) as usize,
                total: qt.len() as usize,
                substring: find_sub_from(join_with(nt, " "@), qjoined, 0) >= 0,
            },
        )
    }
}

fn contains_vec(v: &Vec<Vec<char>>, x: &Vec<char>) -> (b: bool)
    ensures
        b == views(v@).contains(x@),
{
    let mut i: usize = 0;
    while i < v.len()
        invariant
            i <= v.len(),
            forall|k: int| 0 <= k < i ==> views(v@)[k] != x@,
        decreases v.len() - i,
    {
        if eq_vec(&v[i], x) {
            proof {
                assert(views(v@)[i as int] == x@);
            }
            return true;
        }
        i += 1;
    }
    false
}

/// Token overlap and substring facts of a candidate name.
pub fn match_tally(qt: &Vec<String>, qjoined: &str, name: &str) -> (r: Option<MatchTally>)
    ensures
        r == match_tally_spec(string_views(qt@), qjoined@, name@),
{
    let nt = tokens_vec(name);
    if qt.len() == 0 || nt.len() == 0 {
        return None;
    }
    let ghost q = string_views(qt@);
    let mut matched: usize = 0;
    let mut i: usize = 0;
    proof {
        assert(q.take(0) =~= Seq::<Seq<char>>::empty());
    }
    while i < qt.len()
        invariant
            i <= qt.len(),
            q == string_views(qt@),
            views(nt@) == tokens_spec(name@),
            matched == count_in(q.take(i as int), views(nt@)),
            matched <= i,
        decreases qt.len() - i,
    {
        proof {
            assert(q.take(i as int + 1).drop_last() =~= q.take(i as int));
            assert(q.take(i as int + 1).last() == qt@[i as int]@);
        }
        if contains_vec(&nt, &chars_of(qt[i].as_str())) {
            matched += 1;
        }
        i += 1;
    }
    proof {
        assert(q.take(qt.len() as int) =~= q);
    }
    let joined = join_with_vec(&nt, " ");
    let sub = find_sub_vec(&joined, &chars_of(qjoined)).is_some();
    Some(MatchTally { matched, total: qt.len(), substring: sub })
}

/// A pattern that occurs at `i` is found searching from any `from <= i`.
proof fn lemma_find_sub_reaches(s: Seq<char>, p: Seq<char>, from: int, i: int)
    requires
        0 <= from <= i,
        occurs_at(s, p, i),
    ensures
        find_sub_from(s, p, from) >= 0,
    decreases i - from,
{
    if from < i && !occurs_at(s, p, from) {
        lemma_find_sub_reaches(s, p, from + 1, i);
    }
}

/// Query tokens that all occur among `names` are all counted.
proof fn lemma_count_all(qt: Seq<Seq<char>>, names: Seq<Seq<char>>)
    requires
        forall|i: int| 0 <= i < qt.len() ==> names.contains(#[trigger] qt[i]),
    ensures
        count_in(qt, names) == qt.len(),
    decreases qt.len(),
{
    if qt.len() > 0 {
        let d = qt.drop_last();
        assert forall|i: int| 0 <= i < d.len() implies names.contains(#[trigger] d[i]) by {
            assert(d[i] == qt[i]);
        }
        lemma_count_all(d, names);
        assert(names.contains(qt[qt.len() - 1]));
    }
}

/// A candidate is tallied exactly when both sides have tokens. It earns the
/// substring bonus exactly when the joined query occurs anywhere in its
/// space-joined tokens, the very start included, so a candidate whose tokens
/// are the query's earns the bonus and matches every query token.
pub proof fn law_match_tally_substring(qt: Seq<Seq<char>>, qjoined: Seq<char>, name: Seq<char>)
    ensures
        match_tally_spec(qt, qjoined, name) is None <==> (qt.len() == 0 || tokens_spec(name).len() == 0),
        match_tally_spec(qt, qjoined, name) matches Some(t) ==> (t.substring <==> exists|i: int|
            occurs_at(join_with(tokens_spec(name), " "@), qjoined, i)),
        qt.len() > 0 && tokens_spec(name) == qt && qjoined == join_with(qt, " "@) ==> (match_tally_spec(
            qt,
            qjoined,
            name,
        ) matches Some(t) && t.substring && t.matched == t.total),
{
    let nt = tokens_spec(name);
    let j = join_with(nt, " "@);
    lemma_find_sub_from(j, qjoined, 0);
    if find_sub_from(j, qjoined, 0) >= 0 {
        assert(occurs_at(j, qjoined, find_sub_from(j, qjoined, 0)));
    }
    if exists|i: int| occurs_at(j, qjoined, i) {
        let i = choose|i: int| occurs_at(j, qjoined, i);
        lemma_find_sub_reaches(j, qjoined, 0, i);
    }
    if qt.len() > 0 && nt == qt && qjoined == join_with(qt, " "@) {
        assert(j.subrange(0, j.len() as int) =~= j);
        assert(occurs_at(j, qjoined, 0));
        lemma_find_sub_reaches(j, qjoined, 0, 0);
        assert forall|i: int| 0 <= i < qt.len() implies nt.contains(#[trigger] qt[i]) by {
            assert(nt[i] == qt[i]);
        }
        lemma_count_all(qt, nt);
    }
}

// ── box-art index ──────────────────────────────────────────────────────────

/// The value of an ASCII hexadecimal digit.
pub open spec fn hex_val_spec(b: u8) -> Option<u8> {
    if 0x30 <= b <= 0x39 {
        Some((b - 0x30) as u8)
    } else if 0x61 <= b <= 0x66 {
        Some((b - 0x61 + 10) as u8)
    } else if 0x41 <= b <= 0x46 {
        Some((b - 0x41 + 10) as u8)
    } else {
        None
    }
}

pub fn hex_val(b: u8) -> (r: Option<u8>)
    ensures
        r == hex_val_spec(b),
{
    if 0x30 <= b && b <= 0x39 {
        Some(b - 0x30)
    } else if 0x61 <= b && b <= 0x66 {
        Some(b - 0x61 + 10)
    } else if 0x41 <= b && b <= 0x46 {
        Some(b - 0x41 + 10)
    } else {
        None
    }
}

/// `%XY` escapes with two hexadecimal digits decoded to their byte; every
/// other byte kept.
pub open spec fn pct_decode_bytes(b: Seq<u8>) -> Seq<u8>
    decreases b.len(),
{
    if b.len() == 0 {
        seq![]
    } else if b[0] == 0x25 && 2 < b.len() && hex_val_spec(b[1]) is Some && hex_val_spec(b[2]) is Some {
        seq![(hex_val_spec(b[1])->0 * 16 + hex_val_spec(b[2])->0) as u8] + pct_decode_bytes(b.skip(3))
    } else {
        seq![b[0]] + pct_decode_bytes(b.drop_first())
    }
}

/// Characters below 256 as the bytes they stand for.
pub open spec fn char_bytes(cs: Seq<char>) -> Seq<u8> {
    cs.map_values(|c: char| c as u8)
}

proof fn lemma_pct_encode_front(bs: Seq<u8>)
    requires
        bs.len() > 0,
    ensures
        pct_encode(bs) == pct_byte(bs[0]) + pct_encode(bs.drop_first()),
    decreases bs.len(),
{
    if bs.len() == 1 {
        assert(bs.drop_last() =~= Seq::<u8>::empty());
        assert(bs.drop_first() =~= Seq::<u8>::empty());
        assert(pct_encode(bs.drop_last()) =~= Seq::<char>::empty());
        assert(bs.last() == bs[0]);
        assert(pct_encode(bs) =~= pct_byte(bs[0]));
    } else {
        lemma_pct_encode_front(bs.drop_last());
        assert(bs.drop_last().drop_first() =~= bs.drop_first().drop_last());
        assert(bs.drop_first().last() == bs.last());
        assert(pct_encode(bs) =~= pct_byte(bs[0]) + pct_encode(bs.drop_first()));
    }
}

proof fn lemma_hex_round_trip(n: u8)
    requires
        n < 16,
    ensures
        hex_val_spec(hex_upper(n as int) as u8) == Some(n),
        (hex_upper(n as int) as u32) < 256,
{
    if n < 10 {
        assert(hex_upper(n as int) as u32 == n + 48);
    } else {
        assert(hex_upper(n as int) as u32 == n + 55);
    }
}

/// Decoding one encoded byte and what follows.
proof fn lemma_pct_decode_unit(b: u8, rest: Seq<u8>)
    ensures
        pct_decode_bytes(char_bytes(pct_byte(b)) + rest) == seq![b] + pct_decode_bytes(rest),
{
    let u = char_bytes(pct_byte(b));
    let x = u + rest;
    if is_unreserved(b) {
        assert((b as char) as u8 == b);
        assert(u =~= seq![b]);
        assert(x[0] == b);
        assert(b != 0x25);
        assert(x.drop_first() =~= rest);
    } else {
        let hi = (b / 16) as u8;
        let lo = (b % 16) as u8;
        lemma_hex_round_trip(hi);
        lemma_hex_round_trip(lo);
        assert(u.len() == 3);
        assert(x[0] == 0x25);
        assert(x[1] == hex_upper(hi as int) as u8);
        assert(x[2] == hex_upper(lo as int) as u8);
        assert(hi * 16 + lo == b);
        assert(x.skip(3) =~= rest);
    }
}

/// Percent-decoding the bytes of a percent-encoding gives the bytes back.
pub proof fn law_percent_round_trip(bs: Seq<u8>)
    ensures
        pct_decode_bytes(char_bytes(pct_encode(bs))) == bs,
    decreases bs.len(),
{
    if bs.len() == 0 {
        assert(char_bytes(pct_encode(bs)) =~= Seq::<u8>::empty());
    } else {
        lemma_pct_encode_front(bs);
        law_percent_round_trip(bs.drop_first());
        assert(char_bytes(pct_encode(bs)) =~= char_bytes(pct_byte(bs[0])) + char_bytes(pct_encode(bs.drop_first())));
        lemma_pct_decode_unit(bs[0], char_bytes(pct_encode(bs.drop_first())));
        assert(seq![bs[0]] + bs.drop_first() =~= bs);
    }
}

/// Every character of a percent-encoding is ASCII, so its UTF-8 bytes are
/// its characters' codes.
proof fn lemma_pct_encode_ascii(bs: Seq<u8>)
    ensures
        is_ascii_chars(pct_encode(bs)),
        encode_utf8(pct_encode(bs)) == char_bytes(pct_encode(bs)),
    decreases bs.len(),
{
    if bs.len() > 0 {
        lemma_pct_encode_ascii(bs.drop_last());
        let a = pct_encode(bs.drop_last());
        let p = pct_byte(bs.last());
        let b = bs.last();
        if !is_unreserved(b) {
            assert(b / 16 < 16 && b % 16 < 16);
        }
        assert(is_ascii_chars(p));
        assert forall|i: int| 0 <= i < (a + p).len() implies '\0' <= #[trigger] (a + p)[i] <= '\u{7f}' by {
            if i < a.len() {
                assert((a + p)[i] == a[i]);
            } else {
                assert((a + p)[i] == p[i - a.len()]);
            }
        }
    }
    is_ascii_chars_encode_utf8(pct_encode(bs));
    assert(encode_utf8(pct_encode(bs)) =~= char_bytes(pct_encode(bs)));
}

/// `percent_decode` gives back the very text that `urlencode` encoded: the
/// percent-decoded bytes of the encoding are the text's UTF-8 bytes, which are
/// valid and decode to the text.
pub proof fn law_percent_text_round_trip(t: Seq<char>)
    ensures
        pct_decode_bytes(encode_utf8(pct_encode(encode_utf8(t)))) == encode_utf8(t),
        valid_utf8(pct_decode_bytes(encode_utf8(pct_encode(encode_utf8(t))))),
        decode_utf8(pct_decode_bytes(encode_utf8(pct_encode(encode_utf8(t))))) == t,
{
    lemma_pct_encode_ascii(encode_utf8(t));
    law_percent_round_trip(encode_utf8(t));
    encode_utf8_valid_utf8(t);
    encode_utf8_decode_utf8(t);
}

/// Decode percent escapes in the UTF-8 bytes of `s`, then decode the bytes
/// leniently.
pub fn percent_decode(s: &str) -> (r: String)
    ensures
        r@ == utf8_lossy(pct_decode_bytes(s.spec_bytes())),
        valid_utf8(pct_decode_bytes(s.spec_bytes())) ==> r@ == decode_utf8(pct_decode_bytes(s.spec_bytes())),
{
    let bytes = s.as_bytes();
    let mut out: Vec<u8> = Vec::new();
    let mut i: usize = 0;
    proof {
        assert(bytes@.skip(0) =~= bytes@);
        assert(out@ + pct_decode_bytes(bytes@) =~= pct_decode_bytes(bytes@));
    }
    while i < bytes.len()
        invariant
            i <= bytes@.len(),
            bytes@ == s.spec_bytes(),
            out@ + pct_decode_bytes(bytes@.skip(i as int)) == pct_decode_bytes(bytes@),
        decreases bytes@.len() - i,
    {
        let ghost rest = bytes@.skip(i as int);
        let ghost o = out@;
        if bytes[i] == 0x25 && bytes.len() - i > 2 {
            match (hex_val(bytes[i + 1]), hex_val(bytes[i + 2])) {
                (Some(h), Some(l)) => {
                    let v = h * 16 + l;
                    out.push(v);
                    proof {
                        assert(rest[0] == 0x25u8 && rest[1] == bytes@[i + 1] && rest[2] == bytes@[i + 2]);
                        assert(rest.skip(3) =~= bytes@.skip(i as int + 3));
                        assert(o + (seq![v] + pct_decode_bytes(rest.skip(3))) =~= out@ + pct_decode_bytes(bytes@.skip(i as int + 3)));
                    }
                    i += 3;
                    continue;
                },
                _ => {},
            }
        }
        let b = bytes[i];
        out.push(b);
        proof {
            assert(rest[0] == b);
            if rest.len() > 2 {
                assert(rest[1] == bytes@[i + 1] && rest[2] == bytes@[i + 2]);
            }
            assert(rest.drop_first() =~= bytes@.skip(i as int + 1));
            assert(o + (seq![b] + pct_decode_bytes(rest.drop_first())) =~= out@ + pct_decode_bytes(bytes@.skip(i as int + 1)));
        }
        i += 1;
    }
    proof {
        assert(bytes@.skip(bytes@.len() as int) =~= Seq::<u8>::empty());
        assert(out@ + Seq::<u8>::empty() =~= out@);
    }
    lossy_string(out.as_slice())
}

/// `str::split` by a non-empty string pattern.
pub open spec fn split_all(s: Seq<char>, p: Seq<char>) -> Seq<Seq<char>>
    decreases s.len(),
{
    let k = find_sub_from(s, p, 0);
    if p.len() == 0 || k < 0 {
        seq![s]
    } else {
        proof {
            lemma_find_sub_from(s, p, 0);
        }
        seq![s.take(k)] + split_all(s.skip(k + p.len()), p)
    }
}

/// The box-art name one `href="…"` piece of the index carries: the link up
/// to its closing quote, which must end in `.png`; that suffix dropped,
/// percent escapes decoded; kept when non-empty and free of `/`.
pub open spec fn boxart_name(part: Seq<char>) -> Option<Seq<char>> {
    let end = find_char(part, '"');
    if end < 0 {
        None
    } else {
        match strip_suffix(part.take(end), ".png"@) {
            None => None,
            Some(stem) => {
                let name = utf8_lossy(pct_decode_bytes(encode_utf8(stem)));
                if name.len() > 0 && find_char(name, '/') < 0 {
                    Some(name)
                } else {
                    None
                }
            },
        }
    }
}

/// The names the pieces carry, in order.
pub open spec fn boxart_names(parts: Seq<Seq<char>>) -> Seq<Seq<char>>
    decreases parts.len(),
{
    if parts.len() == 0 {
        seq![]
    } else {
        match boxart_name(parts.last()) {
            Some(n) => boxart_names(parts.drop_last()).push(n),
            None => boxart_names(parts.drop_last()),
        }
    }
}

/// The names a libretro directory index (nginx autoindex HTML) lists.
pub open spec fn index_names(html: Seq<char>) -> Seq<Seq<char>> {
    boxart_names(split_all(html, "href=\""@).drop_first())
}

fn boxart_name_exec(part: &Vec<char>) -> (r: Option<String>)
    ensures
        opt_view(r) == boxart_name(part@),
{
    let end = match find_char_vec(part, '"') {
        Some(e) => e,
        None => {
            return None;
        },
    };
    let href = slice_of(part, 0, end);
    proof {
        assert(href@ =~= part@.take(end as int));
    }
    let stem = match strip_suffix_str(&href, ".png") {
        Some(st) => st,
        None => {
            return None;
        },
    };
    let ss = string_of(&stem);
    let name = percent_decode(ss.as_str());
    let nc = chars_of(name.as_str());
    if nc.len() > 0 && find_char_vec(&nc, '/').is_none() {
        Some(name)
    } else {
        None
    }
}

/// Insert `x` into a strictly sorted list of names unless it is already
/// there.
fn insert_sorted_name(v: &mut Vec<String>, x: String)
    requires
        strictly_sorted(string_views(old(v)@)),
    ensures
        strictly_sorted(string_views(final(v)@)),
        forall|e: Seq<char>|
            string_views(final(v)@).contains(e) <==> (string_views(old(v)@).contains(e) || e == x@),
{
    let ghost o = string_views(v@);
    let xc = chars_of(x.as_str());
    let mut i: usize = 0;
    while i < v.len() && lex_less(&chars_of(v[i].as_str()), &xc)
        invariant
            i <= v.len(),
            o == string_views(v@),
            xc@ == x@,
            forall|j: int| 0 <= j < i ==> lex_lt(#[trigger] o[j], x@),
        decreases v.len() - i,
    {
        i += 1;
    }
    if i < v.len() {
        proof {
            assert(o[i as int] == v@[i as int]@);
        }
        if eq_vec(&chars_of(v[i].as_str()), &xc) {
            proof {
                assert(o.contains(x@));
            }
            return;
        }
        proof {
            lemma_lex_total(o[i as int], x@);
        }
    }
    let ghost xv = x@;
    v.insert(i, x);
    proof {
        let n = string_views(v@);
        assert(n =~= o.insert(i as int, xv));
        assert forall|a: int, b: int| 0 <= a < b < n.len() implies lex_lt(
            #[trigger] n[a],
            #[trigger] n[b],
        ) by {
            if b < i {
            } else if b == i {
                assert(lex_lt(o[a], xv));
            } else if a == i {
                if b - 1 > i {
                    lemma_lex_trans(xv, o[i as int], o[b - 1]);
                }
            } else if a < i {
                assert(lex_lt(o[a], xv));
                if b - 1 == i {
                    lemma_lex_trans(o[a], xv, o[i as int]);
                } else {
                    lemma_lex_trans(o[a], xv, o[i as int]);
                    lemma_lex_trans(o[a], o[i as int], o[b - 1]);
                }
            } else {
                assert(lex_lt(o[a - 1], o[b - 1]));
            }
        }
        assert forall|e: Seq<char>| n.contains(e) <==> (o.contains(e) || e == xv) by {
            if n.contains(e) {
                let k = choose|k: int| 0 <= k < n.len() && n[k] == e;
                if k < i {
                    assert(o[k] == e);
                } else if k > i {
                    assert(o[k - 1] == e);
                }
            }
            if o.contains(e) {
                let k = choose|k: int| 0 <= k < o.len() && o[k] == e;
                if k < i {
                    assert(n[k] == e);
                } else {
                    assert(n[k + 1] == e);
                }
            }
            if e == xv {
                assert(n[i as int] == e);
            }
        }
    }
}

/// Parse libretro's directory index into its decoded box-art names, sorted
/// and without repeats.
pub fn parse_boxart_index(html: &str) -> (r: Vec<String>)
    ensures
        strictly_sorted(string_views(r@)),
        forall|e: Seq<char>| string_views(r@).contains(e) <==> index_names(html@).contains(e),
{
    let h = chars_of(html);
    let pat = chars_of("href=\"");
    proof {
        reveal_strlit("href=\"");
    }
    let ghost parts = split_all(h@, pat@);
    let mut out: Vec<String> = Vec::new();
    let mut pos: usize = match find_sub_vec(&h, &pat) {
        Some(k) => {
            let hl = h.len();
            let pl = pat.len();
            proof {
                assert(k + pl <= hl);
            }
            k + pl
        },
        None => {
            proof {
                assert(parts.drop_first() =~= Seq::<Seq<char>>::empty());
                assert(string_views(out@) =~= Seq::<Seq<char>>::empty());
            }
            return out;
        },
    };
    let ghost mut done: Seq<Seq<char>> = seq![];
    proof {
        lemma_find_sub_from(h@, pat@, 0);
        assert(parts.drop_first() == split_all(h@.skip(pos as int), pat@));
        assert(done + split_all(h@.skip(pos as int), pat@) =~= parts.drop_first());
        assert(string_views(out@) =~= Seq::<Seq<char>>::empty());
    }
    loop
        invariant
            pos <= h.len(),
            h@ == html@,
            pat@ == "href=\""@,
            pat@.len() == 6,
            parts == split_all(h@, pat@),
            done + split_all(h@.skip(pos as int), pat@) == parts.drop_first(),
            strictly_sorted(string_views(out@)),
            forall|e: Seq<char>| string_views(out@).contains(e) <==> boxart_names(done).contains(e),
        decreases h.len() - pos,
    {
        let ghost rest = h@.skip(pos as int);
        let next = find_sub_after(&h, &pat, pos);
        let (piece, last) = match next {
            Some(k) => (slice_of(&h, pos, k), false),
            None => (slice_of(&h, pos, h.len()), true),
        };
        proof {
            lemma_find_sub_from(h@, pat@, pos as int);
            lemma_find_sub_shift(h@, pat@, pos as int);
            match next {
                Some(k) => {
                    assert(piece@ =~= rest.take(k - pos));
                    assert(split_all(rest, pat@) == seq![rest.take(k - pos)] + split_all(rest.skip(k - pos + 6), pat@));
                    assert(rest.skip(k - pos + 6) =~= h@.skip(k + 6));
                },
                None => {
                    assert(piece@ =~= rest);
                    assert(split_all(rest, pat@) == seq![rest]);
                },
            }
        }
        let ghost before = done;
        proof {
            done = done.push(piece@);
            assert(done.drop_last() =~= before);
        }
        match boxart_name_exec(&piece) {
            Some(name) => {
                let ghost nv = name@;
                insert_sorted_name(&mut out, name);
                proof {
                    assert forall|e: Seq<char>| boxart_names(done).contains(e) <==> (boxart_names(before).contains(e) || e == nv) by {
                        let a = boxart_names(done);
                        let b = boxart_names(before);
                        assert(a =~= b.push(nv));
                        if a.contains(e) {
                            let k = choose|k: int| 0 <= k < a.len() && a[k] == e;
                            if k < b.len() {
                                assert(b[k] == e);
                            }
                        }
                        if b.contains(e) {
                            let k = choose|k: int| 0 <= k < b.len() && b[k] == e;
                            assert(a[k] == e);
                        }
                        if e == nv {
                            assert(a[b.len() as int] == e);
                        }
                    }
                }
            },
            None => {
                proof {
                    assert(boxart_names(done) =~= boxart_names(before));
                }
            },
        }
        match next {
            Some(k) => {
                proof {
                    assert(done + split_all(h@.skip(k + 6), pat@) =~= before + (seq![piece@] + split_all(h@.skip(k + 6), pat@)));
                }
                pos = k + pat.len();
            },
            None => {
                proof {
                    assert(done =~= before + seq![piece@]);
                    assert(done == parts.drop_first());
                    assert(h@ == html@);
                    assert(parts == split_all(html@, "href=\""@));
                    assert(boxart_names(done) == index_names(html@));
                    assert forall|e: Seq<char>| string_views(out@).contains(e) <==> index_names(html@).contains(e) by {
                        assert(string_views(out@).contains(e) <==> boxart_names(done).contains(e));
                    }
                }
                return out;
            },
        }
    }
}

/// A search from `from` finds the same place as a search in the suffix.
proof fn lemma_find_sub_shift(s: Seq<char>, p: Seq<char>, from: int)
    requires
        0 <= from <= s.len(),
        p.len() > 0,
    ensures
        find_sub_from(s, p, from) < 0 <==> find_sub_from(s.skip(from), p, 0) < 0,
        find_sub_from(s, p, from) >= 0 ==> find_sub_from(s.skip(from), p, 0) == find_sub_from(s, p, from) - from,
    decreases s.len() - from,
{
    lemma_find_sub_shift_at(s, p, from, from);
}

proof fn lemma_find_sub_shift_at(s: Seq<char>, p: Seq<char>, from: int, i: int)
    requires
        0 <= from <= i <= s.len(),
        p.len() > 0,
    ensures
        find_sub_from(s, p, i) < 0 <==> find_sub_from(s.skip(from), p, i - from) < 0,
        find_sub_from(s, p, i) >= 0 ==> find_sub_from(s.skip(from), p, i - from) == find_sub_from(s, p, i) - from,
    decreases s.len() - i,
{
    let t = s.skip(from);
    if i + p.len() <= s.len() {
        assert(occurs_at(s, p, i) == occurs_at(t, p, i - from)) by {
            if occurs_at(s, p, i) {
                assert(t.subrange(i - from, i - from + p.len()) =~= s.subrange(i, i + p.len()));
            }
            if occurs_at(t, p, i - from) {
                assert(t.subrange(i - from, i - from + p.len()) =~= s.subrange(i, i + p.len()));
            }
        }
        if !occurs_at(s, p, i) {
            lemma_find_sub_shift_at(s, p, from, i + 1);
        }
    }
}

// ── ScreenScraper fields ───────────────────────────────────────────────────

/// One element of a ScreenScraper array field: its code (`langue` or
/// `region`) and its `text`, each when present as a string.
#[derive(Debug, Clone)]
pub struct SsText {
    pub code: Option<String>,
    pub text: Option<String>,
}

/// The parts of a ScreenScraper `jeu` object the text patch reads: the
/// `synopsis` array, the `noms` array of the first genre, the developer's and
/// publisher's `text`, and the `dates` array, each when present.
#[derive(Debug, Clone)]
pub struct SsGame {
    pub synopsis: Option<Vec<SsText>>,
    pub first_genre_names: Option<Vec<SsText>>,
    pub developer: Option<String>,
    pub publisher: Option<String>,
    pub dates: Option<Vec<SsText>>,
}

pub open spec fn ss_view(t: SsText) -> (Option<Seq<char>>, Option<Seq<char>>) {
    (opt_view(t.code), opt_view(t.text))
}

pub open spec fn ss_views(v: Seq<SsText>) -> Seq<(Option<Seq<char>>, Option<Seq<char>>)> {
    v.map_values(|t: SsText| ss_view(t))
}

/// A text field's value, trimmed, when that leaves something.
pub open spec fn present_spec(t: Option<Seq<char>>) -> Option<Seq<char>> {
    match t {
        Some(x) => if trim(x).len() > 0 {
            Some(trim(x))
        } else {
            None
        },
        None => None,
    }
}

/// The first item's present text.
pub open spec fn first_present(items: Seq<(Option<Seq<char>>, Option<Seq<char>>)>) -> Option<Seq<char>>
    decreases items.len(),
{
    if items.len() == 0 {
        None
    } else if present_spec(items[0].1) is Some {
        present_spec(items[0].1)
    } else {
        first_present(items.drop_first())
    }
}

/// The first present text of an item whose code is `want`.
pub open spec fn first_coded(items: Seq<(Option<Seq<char>>, Option<Seq<char>>)>, want: Seq<char>) -> Option<
    Seq<char>,
>
    decreases items.len(),
{
    if items.len() == 0 {
        None
    } else if items[0].0 == Some(want) && present_spec(items[0].1) is Some {
        present_spec(items[0].1)
    } else {
        first_coded(items.drop_first(), want)
    }
}

/// The text in the wanted language, else the first present text.
pub open spec fn pick_localized_spec(items: Seq<(Option<Seq<char>>, Option<Seq<char>>)>, want: Seq<char>) -> Option<
    Seq<char>,
> {
    match first_coded(items, want) {
        Some(t) => Some(t),
        None => first_present(items),
    }
}

/// The text of the first preferred region present, else the first present
/// text.
pub open spec fn pick_regional_spec(
    items: Seq<(Option<Seq<char>>, Option<Seq<char>>)>,
    prefer: Seq<Seq<char>>,
) -> Option<Seq<char>>
    decreases prefer.len(),
{
    if prefer.len() == 0 {
        first_present(items)
    } else {
        match first_coded(items, prefer[0]) {
            Some(t) => Some(t),
            None => pick_regional_spec(items, prefer.drop_first()),
        }
    }
}

/// A string field's trimmed value, when that leaves something.
pub fn present_text(t: &Option<String>) -> (r: Option<String>)
    ensures
        opt_view(r) == present_spec(opt_view(*t)),
{
    match t {
        Some(x) => {
            let v = trim_vec(&chars_of(x.as_str()));
            if v.len() > 0 {
                Some(string_of(&v))
            } else {
                None
            }
        },
        None => None,
    }
}

fn first_coded_exec(items: &Vec<SsText>, want: &Vec<char>) -> (r: Option<String>)
    ensures
        opt_view(r) == first_coded(ss_views(items@), want@),
{
    let ghost v = ss_views(items@);
    let mut i: usize = 0;
    proof {
        assert(v.skip(0) =~= v);
    }
    while i < items.len()
        invariant
            i <= items.len(),
            v == ss_views(items@),
            first_coded(v, want@) == first_coded(v.skip(i as int), want@),
        decreases items.len() - i,
    {
        proof {
            assert(v.skip(i as int).drop_first() =~= v.skip(i as int + 1));
            assert(v.skip(i as int)[0] == ss_view(items@[i as int]));
        }
        let coded = match &items[i].code {
            Some(c) => eq_vec(&chars_of(c.as_str()), want),
            None => false,
        };
        if coded {
            match present_text(&items[i].text) {
                Some(t) => {
                    return Some(t);
                },
                None => {},
            }
        }
        i += 1;
    }
    None
}

fn first_present_exec(items: &Vec<SsText>) -> (r: Option<String>)
    ensures
        opt_view(r) == first_present(ss_views(items@)),
{
    let ghost v = ss_views(items@);
    let mut i: usize = 0;
    proof {
        assert(v.skip(0) =~= v);
    }
    while i < items.len()
        invariant
            i <= items.len(),
            v == ss_views(items@),
            first_present(v) == first_present(v.skip(i as int)),
        decreases items.len() - i,
    {
        proof {
            assert(v.skip(i as int).drop_first() =~= v.skip(i as int + 1));
            assert(v.skip(i as int)[0] == ss_view(items@[i as int]));
        }
        match present_text(&items[i].text) {
            Some(t) => {
                return Some(t);
            },
            None => {},
        }
        i += 1;
    }
    None
}

/// From `{ <code>, text }` items, the text whose code is `want`, else the
/// first non-empty text.
pub fn pick_localized(items: &Vec<SsText>, want: &str) -> (r: Option<String>)
    ensures
        opt_view(r) == pick_localized_spec(ss_views(items@), want@),
{
    match first_coded_exec(items, &chars_of(want)) {
        Some(t) => Some(t),
        None => first_present_exec(items),
    }
}

/// From `{ region, text }` items, the text for the first preferred region
/// present, else the first non-empty text.
pub fn pick_regional(items: &Vec<SsText>, prefer: &Vec<&'static str>) -> (r: Option<String>)
    ensures
        opt_view(r) == pick_regional_spec(ss_views(items@), str_views(prefer@)),
{
    let ghost p = str_views(prefer@);
    let mut k: usize = 0;
    proof {
        assert(p.skip(0) =~= p);
    }
    while k < prefer.len()
        invariant
            k <= prefer.len(),
            p == str_views(prefer@),
            pick_regional_spec(ss_views(items@), p) == pick_regional_spec(ss_views(items@), p.skip(k as int)),
        decreases prefer.len() - k,
    {
        proof {
            assert(p.skip(k as int).drop_first() =~= p.skip(k as int + 1));
            assert(p.skip(k as int)[0] == prefer@[k as int]@);
        }
        match first_coded_exec(items, &chars_of(prefer[k])) {
            Some(t) => {
                return Some(t);
            },
            None => {},
        }
        k += 1;
    }
    first_present_exec(items)
}

pub open spec fn ss_regions() -> Seq<Seq<char>> {
    seq!["wor"@, "us"@, "eu"@, "jp"@, "ss"@]
}

pub open spec fn opt_pick_localized(items: Option<Vec<SsText>>, want: Seq<char>) -> Option<Seq<char>> {
    match items {
        Some(v) => pick_localized_spec(ss_views(v@), want),
        None => None,
    }
}

/// The text-only patch of a ScreenScraper game: synopsis and the first
/// genre's name in the preferred language, developer and publisher, and the
/// release date preferring world, then US, EU, JP and SS regions. Art is left
/// unset.
pub fn screenscraper_patch(game: &SsGame, lang: &str) -> (p: MetadataPatch)
    ensures
        p.cover_art is None,
        p.background_art is None,
        opt_view(p.description) == opt_pick_localized(game.synopsis, lang@),
        opt_view(p.genre) == opt_pick_localized(game.first_genre_names, lang@),
        opt_view(p.developer) == present_spec(opt_view(game.developer)),
        opt_view(p.publisher) == present_spec(opt_view(game.publisher)),
        opt_view(p.release_date) == (match game.dates {
            Some(v) => pick_regional_spec(ss_views(v@), ss_regions()),
            None => None,
        }),
{
    let description = match &game.synopsis {
        Some(v) => pick_localized(v, lang),
        None => None,
    };
    let genre = match &game.first_genre_names {
        Some(v) => pick_localized(v, lang),
        None => None,
    };
    let regions: Vec<&'static str> = vec!["wor", "us", "eu", "jp", "ss"];
    proof {
        assert(str_views(regions@) =~= ss_regions());
    }
    let release_date = match &game.dates {
        Some(v) => pick_regional(v, &regions),
        None => None,
    };
    MetadataPatch {
        cover_art: None,
        background_art: None,
        description,
        genre,
        developer: present_text(&game.developer),
        publisher: present_text(&game.publisher),
        release_date,
    }
}


// ── where art and responses are looked for ─────────────────────────────────

/// The folder beside a ROM: its parent (the current folder when it has none).
pub open spec fn art_dir(rom: Seq<char>) -> Seq<char> {
    let p = crate::pathname::std_parent_text(rom);
    if p.len() > 0 {
        p
    } else {
        "."@
    }
}

pub open spec fn art_exts() -> Seq<Seq<char>> {
    seq!["png"@, "jpg"@, "jpeg"@, "webp"@]
}

pub open spec fn art_subdirs() -> Seq<Seq<char>> {
    seq!["media"@, "covers"@, "artwork"@, "boxart"@, "images"@]
}

/// `<stem>.<ext>` for each picture extension, in preference order.
pub open spec fn art_files(stem: Seq<char>) -> Seq<Seq<char>> {
    Seq::new(4, |i: int| stem + "."@ + art_exts()[i])
}

/// Where cover art for a ROM may already sit, in probe order: `<stem>.png`,
/// `.jpg`, `.jpeg`, `.webp` beside the ROM, then the same names inside its
/// sibling `media`, `covers`, `artwork`, `boxart` and `images` folders.
pub open spec fn local_art_spec(rom: Seq<char>) -> Seq<Seq<char>> {
    let d = art_dir(rom);
    let f = art_files(crate::library::rom_stem(rom));
    Seq::new(4, |i: int| crate::paths::join_rel(d, f[i])) + Seq::new(
        20,
        |i: int| crate::paths::join_rel(crate::paths::join_rel(d, art_subdirs()[i / 4]), f[i % 4]),
    )
}

/// The cover-art files to probe for a ROM, in order.
pub fn local_art_candidates(rom_path: &str) -> (r: Vec<String>)
    ensures
        r@.map_values(|s: String| s@) == local_art_spec(rom_path@),
{
    let parent = crate::pathname::parent_text(rom_path);
    let dir = if chars_of(parent.as_str()).len() > 0 {
        parent
    } else {
        string_of(&chars_of("."))
    };
    let stem = match crate::pathname::file_stem_vec(&chars_of(rom_path)) {
        Some(s) => s,
        None => Vec::new(),
    };
    let exts: Vec<&'static str> = vec!["png", "jpg", "jpeg", "webp"];
    let subs: Vec<&'static str> = vec!["media", "covers", "artwork", "boxart", "images"];
    let ghost spec = local_art_spec(rom_path@);
    let ghost f = art_files(crate::library::rom_stem(rom_path@));
    assert(exts@.map_values(|e: &'static str| e@) =~= art_exts());
    assert(subs@.map_values(|e: &'static str| e@) =~= art_subdirs());
    let mut files: Vec<String> = Vec::new();
    let mut k: usize = 0;
    while k < 4
        invariant
            k <= 4,
            exts.len() == 4,
            exts@.map_values(|e: &'static str| e@) == art_exts(),
            stem@ == crate::library::rom_stem(rom_path@),
            f == art_files(crate::library::rom_stem(rom_path@)),
            files@.map_values(|s: String| s@) == f.take(k as int),
        decreases 4 - k,
    {
        let mut v = stem.clone();
        push_str(&mut v, ".");
        push_str(&mut v, exts[k]);
        let ghost before = files@;
        proof {
            assert(exts@.map_values(|e: &'static str| e@)[k as int] == exts@[k as int]@);
            assert(v@ =~= f[k as int]);
        }
        let x = string_of(&v);
        files.push(x);
        proof {
            assert(files@ == before.push(x));
            assert(files@.map_values(|s: String| s@) =~= before.map_values(|s: String| s@).push(x@));
            assert(f.take(k as int + 1) =~= f.take(k as int).push(f[k as int]));
        }
        k += 1;
    }
    proof {
        assert(f.take(4) =~= f);
    }
    let mut out: Vec<String> = Vec::new();
    let mut i: usize = 0;
    while i < 24
        invariant
            i <= 24,
            files@.map_values(|s: String| s@) == f,
            f.len() == 4,
            files.len() == 4,
            subs.len() == 5,
            subs@.map_values(|e: &'static str| e@) == art_subdirs(),
            spec == local_art_spec(rom_path@),
            dir@ == art_dir(rom_path@),
            f == art_files(crate::library::rom_stem(rom_path@)),
            out@.map_values(|s: String| s@) == spec.take(i as int),
        decreases 24 - i,
    {
        let path = if i < 4 {
            crate::paths::join_path(dir.as_str(), files[i].as_str())
        } else {
            let j = i - 4;
            let sub = crate::paths::join_path(dir.as_str(), subs[j / 4]);
            crate::paths::join_path(sub.as_str(), files[j % 4].as_str())
        };
        proof {
            if i < 4 {
                assert(files@.map_values(|s: String| s@)[i as int] == files@[i as int]@);
                assert(spec[i as int] == crate::paths::join_rel(art_dir(rom_path@), f[i as int]));
            } else {
                let j = i - 4;
                assert(files@.map_values(|s: String| s@)[(j % 4) as int] == files@[(j % 4) as int]@);
                assert(subs@.map_values(|e: &'static str| e@)[(j / 4) as int] == subs@[(j / 4) as int]@);
                assert(spec[i as int] == crate::paths::join_rel(
                    crate::paths::join_rel(art_dir(rom_path@), art_subdirs()[(j / 4) as int]),
                    f[(j % 4) as int],
                ));
            }
            assert(path@ == spec[i as int]);
        }
        let ghost before = out@;
        let ghost pv = path@;
        out.push(path);
        proof {
            assert(out@.map_values(|s: String| s@) =~= before.map_values(|s: String| s@).push(pv));
            assert(spec.take(i as int + 1) =~= spec.take(i as int).push(spec[i as int]));
        }
        i += 1;
    }
    proof {
        assert(spec.take(24) =~= spec);
    }
    out
}

/// A PS3 dump's `PS3_GAME` folder: two levels above an `EBOOT.BIN` (by any
/// letter case), else inside the disc root; `None` when an `EBOOT.BIN` has no
/// grandparent.
pub open spec fn ps3_game_dir_spec(rom: Seq<char>) -> Option<Seq<char>> {
    let is_eboot = match crate::pathname::file_name(rom) {
        Some(n) => lower_str(n) == "eboot.bin"@,
        None => false,
    };
    if is_eboot {
        let p1 = crate::pathname::std_parent_text(rom);
        let p2 = crate::pathname::std_parent_text(p1);
        if p1.len() > 0 && p2.len() > 0 {
            Some(p2)
        } else {
            None
        }
    } else {
        Some(crate::paths::join_rel(rom, "PS3_GAME"@))
    }
}

/// The on-disc art of a PS3 dump to probe: `ICON0.PNG` (the cover) and
/// `PIC1.PNG` (the background) in its `PS3_GAME` folder.
pub fn ps3_art_paths(rom_path: &str) -> (r: Option<(String, String)>)
    ensures
        match r {
            Some(p) => ps3_game_dir_spec(rom_path@) is Some && p.0@ == crate::paths::join_rel(
                ps3_game_dir_spec(rom_path@)->0,
                "ICON0.PNG"@,
            ) && p.1@ == crate::paths::join_rel(ps3_game_dir_spec(rom_path@)->0, "PIC1.PNG"@),
            None => ps3_game_dir_spec(rom_path@) is None,
        },
{
    let is_eboot = match crate::pathname::file_name_vec(&chars_of(rom_path)) {
        Some(n) => eq_str(&lower_vec(&n), "eboot.bin"),
        None => false,
    };
    let dir = if is_eboot {
        let p1 = crate::pathname::parent_text(rom_path);
        let p2 = crate::pathname::parent_text(p1.as_str());
        if chars_of(p1.as_str()).len() > 0 && chars_of(p2.as_str()).len() > 0 {
            p2
        } else {
            return None;
        }
    } else {
        crate::paths::join_path(rom_path, "PS3_GAME")
    };
    Some((crate::paths::join_path(dir.as_str(), "ICON0.PNG"), crate::paths::join_path(dir.as_str(), "PIC1.PNG")))
}

/// The patch a PS3 dump's on-disc art gives: the icon as cover and the
/// picture as background, or `None` when neither file exists.
pub fn ps3_art_patch(cover: Option<String>, background: Option<String>) -> (r: Option<MetadataPatch>)
    ensures
        match r {
            Some(p) => (cover is Some || background is Some) && opt_view(p.cover_art) == opt_view(cover)
                && opt_view(p.background_art) == opt_view(background) && p.description is None
                && p.genre is None && p.developer is None && p.publisher is None && p.release_date is None,
            None => cover is None && background is None,
        },
{
    if cover.is_none() && background.is_none() {
        return None;
    }
    Some(
        MetadataPatch {
            cover_art: cover,
            background_art: background,
            description: None,
            genre: None,
            developer: None,
            publisher: None,
            release_date: None,
        },
    )
}

/// A ROM's stem, or the game's title when the path has none.
pub open spec fn stem_or_title(rom: Seq<char>, title: Seq<char>) -> Seq<char> {
    match crate::pathname::file_stem(rom) {
        Some(s) => s,
        None => title,
    }
}

fn stem_or_title_exec(rom_path: &str, title: &str) -> (r: Vec<char>)
    ensures
        r@ == stem_or_title(rom_path@, title@),
{
    match crate::pathname::file_stem_vec(&chars_of(rom_path)) {
        Some(s) => s,
        None => chars_of(title),
    }
}

/// Where a ROM's libretro box art is cached:
/// `<root>/libretro/<platform>/<libretro file name of the stem>.png`.
pub open spec fn libretro_cache_spec(root: Seq<char>, platform: Seq<char>, rom: Seq<char>, title: Seq<char>) -> Seq<
    char,
> {
    crate::paths::join_rel(
        crate::paths::join_rel(crate::paths::join_rel(root, "libretro"@), platform),
        libretro_filename_spec(stem_or_title(rom, title)) + ".png"@,
    )
}

/// The cache file of a ROM's libretro box art.
pub fn libretro_cache_path(root: &str, platform: &str, rom_path: &str, title: &str) -> (r: String)
    ensures
        r@ == libretro_cache_spec(root@, platform@, rom_path@, title@),
{
    let stem = string_of(&stem_or_title_exec(rom_path, title));
    let mut name = chars_of(libretro_filename(stem.as_str()).as_str());
    push_str(&mut name, ".png");
    let dir = crate::paths::join_path(crate::paths::join_path(root, "libretro").as_str(), platform);
    crate::paths::join_path(dir.as_str(), string_of(&name).as_str())
}

/// Where a platform's box-art listing is cached:
/// `<root>/libretro/_index/<platform>.txt`.
pub fn boxart_index_cache_path(root: &str, platform: &str) -> (r: String)
    ensures
        r@ == crate::paths::join_rel(
            crate::paths::join_rel(crate::paths::join_rel(root@, "libretro"@), "_index"@),
            platform@ + ".txt"@,
        ),
{
    let mut name = chars_of(platform);
    push_str(&mut name, ".txt");
    let dir = crate::paths::join_path(crate::paths::join_path(root, "libretro").as_str(), "_index");
    crate::paths::join_path(dir.as_str(), string_of(&name).as_str())
}

/// The thumbnail server's box-art folder of a libretro system.
pub open spec fn boxart_dir_url_spec(system: &str) -> Seq<char> {
    "https://thumbnails.libretro.com/"@ + pct_encode(system.spec_bytes()) + "/Named_Boxarts/"@
}

/// The URL of a system's box-art listing.
pub fn boxart_index_url(system: &str) -> (r: String)
    ensures
        r@ == boxart_dir_url_spec(system),
{
    let mut v = chars_of("https://thumbnails.libretro.com/");
    crate::text::push_all(&mut v, &chars_of(encode_segment(system).as_str()));
    push_str(&mut v, "/Named_Boxarts/");
    string_of(&v)
}

/// The URL of one candidate name's box art: its libretro file name,
/// percent-encoded, as a `.png` in the system's box-art folder.
pub fn boxart_url(system: &str, candidate: &str) -> (r: String)
    ensures
        r@ == boxart_dir_url_spec(system) + pct_encode(encode_utf8(libretro_filename_spec(candidate@)))
            + ".png"@,
{
    let name = libretro_filename(candidate);
    let mut v = chars_of(boxart_index_url(system).as_str());
    crate::text::push_all(&mut v, &chars_of(encode_segment(name.as_str()).as_str()));
    push_str(&mut v, ".png");
    string_of(&v)
}

/// A stem made safe as a file name: every character but an ASCII letter or
/// digit, `-` or `_` becomes `_`.
pub open spec fn safe_name(s: Seq<char>) -> Seq<char> {
    Seq::new(
        s.len(),
        |i: int|
            if is_ascii_alnum(s[i]) || s[i] == '-' || s[i] == '_' {
                s[i]
            } else {
                '_'
            },
    )
}

/// Where a ROM's ScreenScraper reply is cached:
/// `<root>/screenscraper/<platform>/<safe stem>.json`.
pub open spec fn screenscraper_cache_spec(root: Seq<char>, platform: Seq<char>, rom: Seq<char>, title: Seq<char>) -> Seq<
    char,
> {
    crate::paths::join_rel(
        crate::paths::join_rel(crate::paths::join_rel(root, "screenscraper"@), platform),
        safe_name(stem_or_title(rom, title)) + ".json"@,
    )
}

/// The cache file of a ROM's ScreenScraper reply.
pub fn screenscraper_cache_path(root: &str, platform: &str, rom_path: &str, title: &str) -> (r: String)
    ensures
        r@ == screenscraper_cache_spec(root@, platform@, rom_path@, title@),
{
    let stem = stem_or_title_exec(rom_path, title);
    let mut name: Vec<char> = Vec::new();
    let mut i: usize = 0;
    while i < stem.len()
        invariant
            i <= stem.len(),
            name@ == safe_name(stem@).take(i as int),
        decreases stem.len() - i,
    {
        let c = stem[i];
        let keep = ('a' <= c && c <= 'z') || ('A' <= c && c <= 'Z') || ('0' <= c && c <= '9') || c == '-' || c == '_';
        if keep {
            name.push(c);
        } else {
            name.push('_');
        }
        proof {
            assert(name@ =~= safe_name(stem@).take(i as int + 1));
        }
        i += 1;
    }
    proof {
        assert(safe_name(stem@).take(stem.len() as int) =~= safe_name(stem@));
    }
    push_str(&mut name, ".json");
    let dir = crate::paths::join_path(crate::paths::join_path(root, "screenscraper").as_str(), platform);
    crate::paths::join_path(dir.as_str(), string_of(&name).as_str())
}

/// The query of a `jeuInfos.php` request: JSON output, the developer
/// credentials, the software name, the system id and the ROM name, then the
/// user's own account when one is set.
pub open spec fn ss_params(
    creds: crate::config::ScreenScraperCredentials,
    title: Seq<char>,
    system_id: u32,
) -> Seq<Seq<char>> {
    let base = seq![
        "output=json"@,
        "devid="@ + pct_encode(encode_utf8(creds.dev_id@)),
        "devpassword="@ + pct_encode(encode_utf8(creds.dev_password@)),
        "softname=Arcadia"@,
        "systemeid="@ + crate::text::dec(system_id as nat),
        "romnom="@ + pct_encode(encode_utf8(title)),
    ];
    if trim(creds.user_id@).len() > 0 {
        base + seq![
            "ssid="@ + pct_encode(encode_utf8(creds.user_id@)),
            "sspassword="@ + pct_encode(encode_utf8(creds.user_password@)),
        ]
    } else {
        base
    }
}

fn param(key: &str, value: &str) -> (r: Vec<char>)
    ensures
        r@ == key@ + pct_encode(encode_utf8(value@)),
{
    let mut v = chars_of(key);
    crate::text::push_all(&mut v, &chars_of(urlencode(value).as_str()));
    v
}

/// The ScreenScraper request URL for a game's name on a system.
pub fn screenscraper_url(creds: &crate::config::ScreenScraperCredentials, title: &str, system_id: u32) -> (r: String)
    ensures
        r@ == "https://www.screenscraper.fr/api2/jeuInfos.php?"@ + join_with(
            ss_params(*creds, title@, system_id),
            "&"@,
        ),
{
    let mut params: Vec<Vec<char>> = Vec::new();
    params.push(chars_of("output=json"));
    params.push(param("devid=", creds.dev_id.as_str()));
    params.push(param("devpassword=", creds.dev_password.as_str()));
    params.push(chars_of("softname=Arcadia"));
    let mut sys = chars_of("systemeid=");
    crate::text::push_dec(&mut sys, system_id);
    params.push(sys);
    params.push(param("romnom=", title));
    if trim_vec(&chars_of(creds.user_id.as_str())).len() > 0 {
        params.push(param("ssid=", creds.user_id.as_str()));
        params.push(param("sspassword=", creds.user_password.as_str()));
    }
    proof {
        assert(views(params@) =~= ss_params(*creds, title@, system_id));
    }
    let mut v = chars_of("https://www.screenscraper.fr/api2/jeuInfos.php?");
    crate::text::push_all(&mut v, &join_with_vec(&params, "&"));
    string_of(&v)
}

} // verus!
