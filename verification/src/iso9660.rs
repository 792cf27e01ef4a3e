//! Disc-image identification: the decisions that route an ambiguous `.iso`
//! (sector layout, console header magic, ISO 9660 directory records, the boot
//! line of `SYSTEM.CNF`), made over bytes the caller has read.
use vstd::prelude::*;
use crate::pathname::{extension, extension_vec};
use crate::hotkeys::{lower_str, lower_vec, upper_char, upper_char_exec, upper_str, upper_vec};
use crate::text::{
    after_last, all_digits, before_char, before_char_vec, be32, be32_at, byte_range, chars_of,
    eq_str, eq_vec, is_ascii_bytes, ascii_chars, le32, le32_at, lines, lines_vec, lossy_string,
    nul_text, nul_text_exec, slice_of, spells_at, spells_at_exec, split_once, split_once_vec,
    string_of, trim, trim_vec, utf8_lossy, views, words, words_vec, find_char, rfind_char,
    find_char_vec, rfind_char_vec,
};

verus! {

/// What a readable disc image turned out to be.
#[derive(Debug, Clone)]
pub enum Disc {
    /// A PSP UMD image. `title` is the `PARAM.SFO` TITLE when readable.
    Psp { title: Option<String> },
    /// A PlayStation 2 disc image.
    Ps2,
    /// A Nintendo GameCube disc image. `title` is the internal game name.
    GameCube { title: Option<String> },
    /// A Nintendo Wii disc image. `title` is the internal game name.
    Wii { title: Option<String> },
    /// An original Xbox disc image (XDVDFS).
    Xbox,
}

/// An optional owned string, viewed as its characters.
pub open spec fn opt_view(o: Option<String>) -> Option<Seq<char>> {
    match o {
        Some(s) => Some(s@),
        None => None,
    }
}

/// The platform a classified disc belongs to.
pub open spec fn disc_platform(d: Disc) -> Seq<char> {
    match d {
        Disc::Psp { .. } => "psp"@,
        Disc::Ps2 => "ps2"@,
        Disc::GameCube { .. } => "gamecube"@,
        Disc::Wii { .. } => "wii"@,
        Disc::Xbox => "xbox"@,
    }
}

/// The title a classified disc carries, if any.
pub open spec fn disc_title(d: Disc) -> Option<Seq<char>> {
    match d {
        Disc::Psp { title } => opt_view(title),
        Disc::GameCube { title } => opt_view(title),
        Disc::Wii { title } => opt_view(title),
        _ => None,
    }
}

// ── sector layout ──────────────────────────────────────────────────────────

/// ISO 9660 logical sector size.
pub const SECTOR: u64 = 2048;

/// How a track stores its sectors: cooked (just the 2048-byte user area, as
/// in a `.iso`) or raw 2352-byte CD sectors, with user data at 16 (Mode 1) or
/// at 24 after the subheader (Mode 2 Form 1, typical for PlayStation).
#[derive(Debug, Clone, Copy, PartialEq, Eq, Structural)]
pub enum Track {
    Cooked,
    RawMode1,
    RawMode2,
}

pub open spec fn stride_spec(t: Track) -> int {
    match t {
        Track::Cooked => 2048,
        _ => 2352,
    }
}

pub open spec fn data_offset_spec(t: Track) -> int {
    match t {
        Track::Cooked => 0,
        Track::RawMode1 => 16,
        Track::RawMode2 => 24,
    }
}

impl Track {
    /// Bytes per physical sector on disk.
    pub fn stride(&self) -> (r: u64)
        ensures
            r == stride_spec(*self),
    {
        match self {
            Track::Cooked => SECTOR,
            _ => 2352,
        }
    }

    /// Byte offset of the 2048-byte user area within a physical sector.
    pub fn data_offset(&self) -> (r: u64)
        ensures
            r == data_offset_spec(*self),
    {
        match self {
            Track::Cooked => 0,
            Track::RawMode1 => 16,
            Track::RawMode2 => 24,
        }
    }
}

/// The 12-byte sync pattern that opens every raw CD sector: `00 FF×10 00`.
pub open spec fn raw_sync_at_start(h: Seq<u8>) -> bool {
    &&& h[0] == 0
    &&& forall|k: int| 1 <= k < 11 ==> #[trigger] h[k] == 0xFF
    &&& h[11] == 0
}

/// The layout the first 16 bytes of an image show: a raw sync pattern selects
/// Mode 2 when the mode byte (offset 15) is 2 and Mode 1 otherwise; anything
/// else, including an image too short to hold 16 bytes, is cooked.
pub open spec fn sniff_spec(head: Seq<u8>) -> Track {
    if head.len() >= 16 && raw_sync_at_start(head) {
        if head[15] == 2 {
            Track::RawMode2
        } else {
            Track::RawMode1
        }
    } else {
        Track::Cooked
    }
}

/// Sniff the sector layout from the bytes at the start of an image (as many
/// as could be read, up to 16).
pub fn sniff_track(head: &[u8]) -> (t: Track)
    ensures
        t == sniff_spec(head@),
{
    if head.len() < 16 || head[0] != 0 || head[11] != 0 {
        return Track::Cooked;
    }
    let mut k: usize = 1;
    while k < 11
        invariant
            1 <= k <= 11,
            head@.len() >= 16,
            forall|j: int| 1 <= j < k ==> #[trigger] head@[j] == 0xFF,
        decreases 11 - k,
    {
        if head[k] != 0xFF {
            return Track::Cooked;
        }
        k += 1;
    }
    if head[15] == 2 {
        Track::RawMode2
    } else {
        Track::RawMode1
    }
}

/// The absolute byte offset of the user area of logical sector `lba + i`.
pub fn physical_offset(t: Track, lba: u32, i: u64) -> (r: u64)
    requires
        i <= u32::MAX,
    ensures
        r == (lba + i) * stride_spec(t) + data_offset_spec(t),
{
    let sector = lba as u64 + i;
    let stride = t.stride();
    assert(sector * stride <= 0x2_0000_0000u64 * 2352) by (nonlinear_arith)
        requires
            sector <= 0x2_0000_0000u64,
            stride <= 2352,
    ;
    sector * stride + t.data_offset()
}

/// How many logical sectors hold `len` bytes.
pub fn sectors_for(len: usize) -> (r: usize)
    ensures
        r * 2048 >= len,
        r * 2048 < len + 2048,
{
    let q = len / 2048;
    if len % 2048 == 0 {
        q
    } else {
        q + 1
    }
}

// ── directory records ──────────────────────────────────────────────────────

/// One ISO 9660 directory record: where its data lives and whether it is a
/// subdirectory.
#[derive(Debug, Clone, Copy, PartialEq, Eq, Structural)]
pub struct Entry {
    pub lba: u32,
    pub len: u32,
    pub is_dir: bool,
}

/// `s` without its trailing dots (`str::trim_end_matches('.')`).
pub open spec fn trim_end_dots(s: Seq<char>) -> Seq<char>
    decreases s.len(),
{
    if s.len() > 0 && s.last() == '.' {
        trim_end_dots(s.drop_last())
    } else {
        s
    }
}

/// A file identifier as a name: `0x00`/`0x01` are the special `.` and `..`
/// entries; any other is decoded, cut at the `;1` version suffix, stripped of
/// trailing dots and uppercased.
pub open spec fn decode_name_spec(id: Seq<u8>) -> Seq<char> {
    if id == seq![0u8] {
        seq!['.']
    } else if id == seq![1u8] {
        seq!['.', '.']
    } else {
        upper_str(trim_end_dots(before_char(utf8_lossy(id), ';')))
    }
}

fn trim_end_dots_exec(s: &Vec<char>) -> (r: Vec<char>)
    ensures
        r@ == trim_end_dots(s@),
{
    let mut n = s.len();
    proof {
        assert(s@.take(n as int) =~= s@);
    }
    while n > 0 && s[n - 1] == '.'
        invariant
            n <= s.len(),
            trim_end_dots(s@) == trim_end_dots(s@.take(n as int)),
        decreases n,
    {
        proof {
            assert(s@.take(n as int).drop_last() =~= s@.take(n as int - 1));
        }
        n -= 1;
    }
    slice_of(s, 0, n)
}

/// Decode an ISO 9660 file identifier into an uppercase, version-stripped name.
pub fn decode_name(id: &[u8]) -> (r: String)
    ensures
        r@ == decode_name_spec(id@),
{
    if id.len() == 1 && id[0] == 0 {
        proof {
            assert(id@ =~= seq![0u8]);
        }
        return string_of(&vec!['.']);
    }
    if id.len() == 1 && id[0] == 1 {
        proof {
            assert(id@ =~= seq![1u8]);
        }
        return string_of(&vec!['.', '.']);
    }
    proof {
        assert(id@ != seq![0u8] && id@ != seq![1u8]) by {
            if id@ == seq![0u8] {
                assert(id@[0] == 0);
            }
            if id@ == seq![1u8] {
                assert(id@[0] == 1);
            }
        }
    }
    let s = chars_of(lossy_string(id).as_str());
    let cut = before_char_vec(&s, ';');
    let trimmed = trim_end_dots_exec(&cut);
    string_of(&upper_vec(&trimmed))
}

/// A directory record: too short (under 33 bytes) or with an identifier that
/// runs past its end gives `None`; else the entry (LBA and size little-endian
/// at 2 and 10, directory flag bit 0x02 of byte 25) and its decoded name.
pub open spec fn parse_record_spec(rec: Seq<u8>) -> Option<(Entry, Seq<char>)> {
    if rec.len() < 33 || 33 + rec[32] > rec.len() {
        None
    } else {
        Some(
            (
                Entry {
                    lba: le32(rec, 2) as u32,
                    len: le32(rec, 10) as u32,
                    is_dir: rec[25] & 2 != 0,
                },
                decode_name_spec(rec.subrange(33, 33 + rec[32])),
            ),
        )
    }
}

/// Parse a single directory record.
pub fn parse_record(rec: &[u8]) -> (r: Option<(Entry, String)>)
    ensures
        match r {
            Some((e, n)) => parse_record_spec(rec@) == Some((e, n@)),
            None => parse_record_spec(rec@) is None,
        },
{
    if rec.len() < 33 {
        return None;
    }
    let id_len = rec[32] as usize;
    if 33 + id_len > rec.len() {
        return None;
    }
    let lba = le32_at(rec, 2);
    let len = le32_at(rec, 10);
    let flags = rec[25];
    let id = byte_range(rec, 33, 33 + id_len);
    let name = decode_name(id.as_slice());
    Some((Entry { lba, len, is_dir: flags & 2 != 0 }, name))
}

/// The records of a directory's data, walked from `pos`: a zero length byte
/// ends the records of a sector (they never straddle one), a record running
/// past the data ends the walk, and `.`/`..` are skipped.
pub open spec fn dir_walk(data: Seq<u8>, pos: int) -> Seq<(Seq<char>, Entry)>
    decreases data.len() - pos,
{
    if pos < 0 || pos >= data.len() {
        seq![]
    } else if data[pos] == 0 {
        let next = (pos / 2048 + 1) * 2048;
        if next > usize::MAX || next >= data.len() {
            seq![]
        } else {
            proof {
                assert((pos / 2048 + 1) * 2048 > pos) by (nonlinear_arith)
                    requires
                        pos >= 0,
                ;
            }
            dir_walk(data, next)
        }
    } else if pos + data[pos] > data.len() {
        seq![]
    } else {
        let rest = dir_walk(data, pos + data[pos]);
        match parse_record_spec(data.subrange(pos, pos + data[pos])) {
            Some((e, n)) => if n != seq!['.'] && n != seq!['.', '.'] {
                seq![(n, e)] + rest
            } else {
                rest
            },
            None => rest,
        }
    }
}

pub open spec fn named_entries(v: Seq<(String, Entry)>) -> Seq<(Seq<char>, Entry)> {
    v.map_values(|p: (String, Entry)| (p.0@, p.1))
}

/// Read all records in a directory's data, skipping `.` and `..`.
pub fn read_dir(data: &[u8]) -> (r: Vec<(String, Entry)>)
    ensures
        named_entries(r@) == dir_walk(data@, 0),
{
    let mut out: Vec<(String, Entry)> = Vec::new();
    let mut pos: usize = 0;
    proof {
        assert(named_entries(out@) =~= Seq::<(Seq<char>, Entry)>::empty());
    }
    while pos < data.len()
        invariant
            named_entries(out@) + dir_walk(data@, pos as int) == dir_walk(data@, 0),
        decreases data@.len() - pos,
    {
        let rec_len = data[pos] as usize;
        if rec_len == 0 {
            let q = pos / 2048 + 1;
            if q > usize::MAX / 2048 {
                proof {
                    assert((pos / 2048 + 1) * 2048 > usize::MAX) by (nonlinear_arith)
                        requires
                            q == pos / 2048 + 1,
                            q > usize::MAX / 2048,
                    ;
                    assert(named_entries(out@) + Seq::<(Seq<char>, Entry)>::empty() =~= named_entries(out@));
                }
                return out;
            }
            let next = q * 2048;
            if next >= data.len() {
                proof {
                    assert(named_entries(out@) + Seq::<(Seq<char>, Entry)>::empty() =~= named_entries(out@));
                }
                return out;
            }
            proof {
                assert(next > pos) by (nonlinear_arith)
                    requires
                        q == pos / 2048 + 1,
                        next == q * 2048,
                ;
            }
            pos = next;
            continue;
        }
        if rec_len > data.len() - pos {
            proof {
                assert(named_entries(out@) + Seq::<(Seq<char>, Entry)>::empty() =~= named_entries(out@));
            }
            return out;
        }
        let rec = byte_range(data, pos, pos + rec_len);
        let ghost before = named_entries(out@);
        match parse_record(rec.as_slice()) {
            Some((entry, name)) => {
                let nc = chars_of(name.as_str());
                let dot = nc.len() == 1 && nc[0] == '.';
                let dotdot = nc.len() == 2 && nc[0] == '.' && nc[1] == '.';
                proof {
                    assert(dot == (name@ == seq!['.'])) by {
                        if name@ == seq!['.'] {
                            assert(nc@[0] == '.');
                        }
                        if dot {
                            assert(nc@ =~= seq!['.']);
                        }
                    }
                    assert(dotdot == (name@ == seq!['.', '.'])) by {
                        if name@ == seq!['.', '.'] {
                            assert(nc@[0] == '.' && nc@[1] == '.');
                        }
                        if dotdot {
                            assert(nc@ =~= seq!['.', '.']);
                        }
                    }
                }
                if !dot && !dotdot {
                    out.push((name, entry));
                    proof {
                        assert(named_entries(out@) =~= before.push((name@, entry)));
                        assert(before.push((name@, entry)) + dir_walk(data@, pos + rec_len) =~= before
                            + (seq![(name@, entry)] + dir_walk(data@, pos + rec_len)));
                    }
                }
            },
            None => {},
        }
        pos = pos + rec_len;
    }
    proof {
        assert(named_entries(out@) + Seq::<(Seq<char>, Entry)>::empty() =~= named_entries(out@));
    }
    out
}

/// The first entry with the given (already normalised) name.
pub open spec fn find_named(es: Seq<(Seq<char>, Entry)>, name: Seq<char>) -> Option<Entry>
    decreases es.len(),
{
    if es.len() == 0 {
        None
    } else if es[0].0 == name {
        Some(es[0].1)
    } else {
        find_named(es.drop_first(), name)
    }
}

/// Find a directly contained entry by name.
pub fn find_in(entries: &Vec<(String, Entry)>, name: &str) -> (r: Option<Entry>)
    ensures
        r == find_named(named_entries(entries@), name@),
{
    let ghost es = named_entries(entries@);
    let nc = chars_of(name);
    let mut i: usize = 0;
    proof {
        assert(es.skip(0) =~= es);
    }
    while i < entries.len()
        invariant
            i <= entries.len(),
            es == named_entries(entries@),
            nc@ == name@,
            find_named(es, name@) == find_named(es.skip(i as int), name@),
        decreases entries.len() - i,
    {
        proof {
            assert(es.skip(i as int).drop_first() =~= es.skip(i as int + 1));
            assert(es.skip(i as int)[0] == es[i as int]);
        }
        if eq_vec(&chars_of(entries[i].0.as_str()), &nc) {
            return Some(entries[i].1);
        }
        i += 1;
    }
    None
}

/// The root directory record of a primary volume descriptor (type byte 1,
/// standard identifier `CD001`, root record at 156); `None` for anything
/// else.
pub open spec fn root_entry_spec(pvd: Seq<u8>) -> Option<Entry> {
    if pvd[0] != 1 || pvd[1] != 0x43 || pvd[2] != 0x44 || pvd[3] != 0x30 || pvd[4] != 0x30
        || pvd[5] != 0x31 {
        None
    } else {
        match parse_record_spec(pvd.subrange(156, 190)) {
            Some((e, _)) => Some(e),
            None => None,
        }
    }
}

/// Parse the root directory record out of the primary volume descriptor
/// (logical sector 16, one sector long).
pub fn root_entry(pvd: &[u8]) -> (r: Option<Entry>)
    requires
        pvd@.len() == 2048,
    ensures
        r == root_entry_spec(pvd@),
{
    if pvd[0] != 1 || pvd[1] != 0x43 || pvd[2] != 0x44 || pvd[3] != 0x30 || pvd[4] != 0x30
        || pvd[5] != 0x31 {
        return None;
    }
    let rec = byte_range(pvd, 156, 190);
    match parse_record(rec.as_slice()) {
        Some((e, _)) => Some(e),
        None => None,
    }
}

/// What an ISO 9660 root shows.
#[derive(Debug, Clone, Copy, PartialEq, Eq, Structural)]
pub enum RootKind {
    /// A PSP UMD: its `PSP_GAME` directory.
    PspGame(Entry),
    /// A PS2 disc: `SYSTEM.CNF` at the root.
    Ps2,
    /// Neither.
    Unknown,
}

pub open spec fn first_dir_named(es: Seq<(Seq<char>, Entry)>, name: Seq<char>) -> Option<Entry>
    decreases es.len(),
{
    if es.len() == 0 {
        None
    } else if es[0].1.is_dir && es[0].0 == name {
        Some(es[0].1)
    } else {
        first_dir_named(es.drop_first(), name)
    }
}

/// A PSP UMD has a `PSP_GAME` directory at the root; a PS2 disc has a
/// `SYSTEM.CNF` file there.
pub open spec fn root_kind_spec(es: Seq<(Seq<char>, Entry)>) -> RootKind {
    match first_dir_named(es, "PSP_GAME"@) {
        Some(e) => RootKind::PspGame(e),
        None => if exists|i: int|
            0 <= i < es.len() && !es[i].1.is_dir && (#[trigger] es[i]).0 == "SYSTEM.CNF"@ {
            RootKind::Ps2
        } else {
            RootKind::Unknown
        },
    }
}

/// Classify an ISO 9660 root directory's entries.
pub fn root_kind(entries: &Vec<(String, Entry)>) -> (r: RootKind)
    ensures
        r == root_kind_spec(named_entries(entries@)),
{
    let ghost es = named_entries(entries@);
    let psp = chars_of("PSP_GAME");
    let cnf = chars_of("SYSTEM.CNF");
    let mut i: usize = 0;
    proof {
        assert(es.skip(0) =~= es);
    }
    while i < entries.len()
        invariant
            i <= entries.len(),
            es == named_entries(entries@),
            psp@ == "PSP_GAME"@,
            first_dir_named(es, "PSP_GAME"@) == first_dir_named(es.skip(i as int), "PSP_GAME"@),
        decreases entries.len() - i,
    {
        proof {
            assert(es.skip(i as int).drop_first() =~= es.skip(i as int + 1));
            assert(es.skip(i as int)[0] == es[i as int]);
        }
        if entries[i].1.is_dir && eq_vec(&chars_of(entries[i].0.as_str()), &psp) {
            return RootKind::PspGame(entries[i].1);
        }
        i += 1;
    }
    let mut j: usize = 0;
    while j < entries.len()
        invariant
            j <= entries.len(),
            es == named_entries(entries@),
            cnf@ == "SYSTEM.CNF"@,
            first_dir_named(es, "PSP_GAME"@) is None,
            forall|k: int| 0 <= k < j ==> !(!es[k].1.is_dir && (#[trigger] es[k]).0 == "SYSTEM.CNF"@),
        decreases entries.len() - j,
    {
        proof {
            assert(es[j as int] == (entries@[j as int].0@, entries@[j as int].1));
        }
        if !entries[j].1.is_dir && eq_vec(&chars_of(entries[j].0.as_str()), &cnf) {
            return RootKind::Ps2;
        }
        j += 1;
    }
    RootKind::Unknown
}

// ── console headers ────────────────────────────────────────────────────────

/// GameCube disc magic, big-endian, at header offset 0x1C.
pub const GAMECUBE_MAGIC: u32 = 0xC233_9F3D;

/// Wii disc magic, big-endian, at header offset 0x18.
pub const WII_MAGIC: u32 = 0x5D1C_9EA3;

/// Which Nintendo console a raw disc header belongs to.
#[derive(Debug, Clone, Copy, PartialEq, Eq, Structural)]
pub enum NintendoDisc {
    GameCube,
    Wii,
}

/// Wii is checked first: a Wii disc's 0x1C word is zero, so the two magics
/// never collide.
pub open spec fn nintendo_kind_spec(header: Seq<u8>) -> Option<NintendoDisc> {
    if header.len() < 0x20 {
        None
    } else if be32(header, 0x18) == 0x5D1C_9EA3 {
        Some(NintendoDisc::Wii)
    } else if be32(header, 0x1C) == 0xC233_9F3D {
        Some(NintendoDisc::GameCube)
    } else {
        None
    }
}

/// Detect a GameCube or Wii image by the magic in its first 0x20 header
/// bytes; a shorter header is neither.
pub fn nintendo_kind(header: &[u8]) -> (r: Option<NintendoDisc>)
    ensures
        r == nintendo_kind_spec(header@),
{
    if header.len() < 0x20 {
        return None;
    }
    if be32_at(header, 0x18) == WII_MAGIC {
        Some(NintendoDisc::Wii)
    } else if be32_at(header, 0x1C) == GAMECUBE_MAGIC {
        Some(NintendoDisc::GameCube)
    } else {
        None
    }
}

/// The internal game name from the 64 header bytes at 0x20: up to the first
/// NUL, decoded and trimmed; `None` when empty.
pub fn disc_name(raw: &[u8]) -> (r: Option<String>)
    ensures
        opt_view(r) == nul_text(raw@),
{
    nul_text_exec(raw)
}

/// The disc for a recognised Nintendo header.
pub fn nintendo_disc(kind: NintendoDisc, title: Option<String>) -> (d: Disc)
    ensures
        disc_platform(d) == (match kind {
            NintendoDisc::GameCube => "gamecube"@,
            NintendoDisc::Wii => "wii"@,
        }),
        disc_title(d) == opt_view(title),
{
    match kind {
        NintendoDisc::GameCube => Disc::GameCube { title },
        NintendoDisc::Wii => Disc::Wii { title },
    }
}

/// The 6-character game id at the start of a GameCube/Wii header: printable
/// ASCII alphanumerics, uppercased; `None` otherwise.
pub open spec fn game_id_spec(id: Seq<u8>) -> Option<Seq<char>> {
    if forall|i: int| 0 <= i < id.len() ==> is_alnum_byte(#[trigger] id[i]) {
        Some(upper_str(ascii_chars(id)))
    } else {
        None
    }
}

pub open spec fn is_alnum_byte(b: u8) -> bool {
    (0x30 <= b <= 0x39) || (0x41 <= b <= 0x5A) || (0x61 <= b <= 0x7A)
}

/// The game id from the header's first six bytes.
pub fn game_id(id: &[u8]) -> (r: Option<String>)
    ensures
        opt_view(r) == game_id_spec(id@),
{
    let mut i: usize = 0;
    while i < id.len()
        invariant
            i <= id@.len(),
            forall|j: int| 0 <= j < i ==> is_alnum_byte(#[trigger] id@[j]),
        decreases id@.len() - i,
    {
        let b = id[i];
        if !((0x30 <= b && b <= 0x39) || (0x41 <= b && b <= 0x5A) || (0x61 <= b && b <= 0x7A)) {
            proof {
                assert(!is_alnum_byte(id@[i as int]));
            }
            return None;
        }
        i += 1;
    }
    proof {
        assert(is_ascii_bytes(id@)) by {
            assert forall|j: int| 0 <= j < id@.len() implies id@[j] < 128 by {
                assert(is_alnum_byte(id@[j]));
            }
        }
    }
    let s = chars_of(lossy_string(id).as_str());
    Some(string_of(&upper_vec(&s)))
}

/// XDVDFS volume signature offsets: sector 32 past each known partition base
/// (trimmed XISO, XGD3, XGD1, the XGD2 redump layout).
pub open spec fn xbox_offsets_spec() -> Seq<u64> {
    seq![0x1_0000u64, 0x209_0000u64, 0x1831_0000u64, 0xFDA_0000u64]
}

pub fn xbox_signature_offsets() -> (r: Vec<u64>)
    ensures
        r@ == xbox_offsets_spec(),
{
    let r = vec![0x1_0000u64, 0x209_0000u64, 0x1831_0000u64, 0xFDA_0000u64];
    proof {
        assert(r@ =~= xbox_offsets_spec());
    }
    r
}

/// The 20 bytes read at a signature offset are `MICROSOFT*XBOX*MEDIA`.
pub open spec fn xbox_signature_spec(b: Seq<u8>) -> bool {
    b.len() == 20 && spells_at(b, "MICROSOFT*XBOX*MEDIA"@, 0)
}

pub fn is_xbox_signature(b: &[u8]) -> (r: bool)
    ensures
        r == xbox_signature_spec(b@),
{
    let sig = chars_of("MICROSOFT*XBOX*MEDIA");
    proof {
        reveal_strlit("MICROSOFT*XBOX*MEDIA");
    }
    if b.len() != 20 {
        return false;
    }
    let v = byte_range(b, 0, 20);
    proof {
        assert(v@ =~= b@);
    }
    spells_at_exec(&v, &sig, 0)
}

// ── boot serial ────────────────────────────────────────────────────────────

/// `SLUS_209.46` → `SLUS-20946`: dots dropped, the first underscore turned
/// into a dash, everything else uppercased (ASCII).
pub open spec fn norm_serial(s: Seq<char>, dashed: bool) -> Seq<char>
    decreases s.len(),
{
    if s.len() == 0 {
        seq![]
    } else if s[0] == '.' {
        norm_serial(s.drop_first(), dashed)
    } else if s[0] == '_' && !dashed {
        seq!['-'] + norm_serial(s.drop_first(), true)
    } else {
        seq![upper_char(s[0])] + norm_serial(s.drop_first(), dashed)
    }
}

/// Normalise a boot ELF stem into the disc serial PCSX2 and DuckStation use.
pub fn normalise_serial(raw: &Vec<char>) -> (r: Vec<char>)
    ensures
        r@ == norm_serial(raw@, false),
{
    let mut out: Vec<char> = Vec::new();
    let mut dashed = false;
    let mut i: usize = 0;
    proof {
        assert(raw@.skip(0) =~= raw@);
        assert(out@ + norm_serial(raw@, false) =~= norm_serial(raw@, false));
    }
    while i < raw.len()
        invariant
            i <= raw.len(),
            out@ + norm_serial(raw@.skip(i as int), dashed) == norm_serial(raw@, false),
        decreases raw.len() - i,
    {
        let c = raw[i];
        let ghost rest = raw@.skip(i as int + 1);
        proof {
            assert(raw@.skip(i as int).drop_first() =~= rest);
            assert(raw@.skip(i as int)[0] == c);
        }
        let ghost o = out@;
        if c == '.' {
        } else if c == '_' && !dashed {
            out.push('-');
            dashed = true;
            proof {
                assert(o + (seq!['-'] + norm_serial(rest, true)) =~= out@ + norm_serial(rest, true));
            }
        } else {
            out.push(upper_char_exec(c));
            proof {
                assert(o + (seq![upper_char(c)] + norm_serial(rest, dashed)) =~= out@ + norm_serial(
                    rest,
                    dashed,
                ));
            }
        }
        i += 1;
    }
    proof {
        assert(raw@.skip(raw.len() as int) =~= Seq::<char>::empty());
        assert(out@ + Seq::<char>::empty() =~= out@);
    }
    out
}

pub open spec fn is_path_sep(c: char) -> bool {
    c == '\\' || c == '/' || c == ':'
}

/// Index of the last `\`, `/` or `:` in `s`, or -1.
pub open spec fn last_sep(s: Seq<char>) -> int
    decreases s.len(),
{
    if s.len() == 0 {
        -1
    } else if is_path_sep(s.last()) {
        s.len() - 1
    } else {
        last_sep(s.drop_last())
    }
}

proof fn lemma_last_sep(s: Seq<char>)
    ensures
        -1 <= last_sep(s) < s.len(),
    decreases s.len(),
{
    if s.len() > 0 && !is_path_sep(s.last()) {
        lemma_last_sep(s.drop_last());
    }
}

/// The serial a `BOOT2 = …` (PS2) or `BOOT = …` (PS1) line names: the final
/// component of the value after any drive prefix, cut at the `;1` version
/// suffix, trimmed and normalised; `None` for any other line or an empty
/// serial.
pub open spec fn boot_line_serial(line: Seq<char>) -> Option<Seq<char>> {
    match split_once(line, '=') {
        None => None,
        Some((k, v)) => {
            let key = lower_str(trim(k));
            if key != "boot2"@ && key != "boot"@ {
                None
            } else {
                let t = trim(v);
                let tail = t.skip(last_sep(t) + 1);
                let serial = norm_serial(trim(before_char(tail, ';')), false);
                if serial.len() == 0 {
                    None
                } else {
                    Some(serial)
                }
            }
        },
    }
}

pub open spec fn boot_serial_from(ls: Seq<Seq<char>>) -> Option<Seq<char>>
    decreases ls.len(),
{
    if ls.len() == 0 {
        None
    } else {
        match boot_line_serial(ls[0]) {
            Some(s) => Some(s),
            None => boot_serial_from(ls.drop_first()),
        }
    }
}

fn last_sep_exec(s: &Vec<char>) -> (r: usize)
    ensures
        r == last_sep(s@) + 1,
{
    let mut n = s.len();
    proof {
        assert(s@.take(n as int) =~= s@);
    }
    while n > 0
        invariant
            n <= s.len(),
            last_sep(s@) == last_sep(s@.take(n as int)),
        decreases n,
    {
        let c = s[n - 1];
        proof {
            assert(s@.take(n as int).drop_last() =~= s@.take(n as int - 1));
            assert(s@.take(n as int).last() == c);
        }
        if c == '\\' || c == '/' || c == ':' {
            return n;
        }
        n -= 1;
    }
    0
}

fn boot_line_serial_exec(line: &Vec<char>) -> (r: Option<Vec<char>>)
    ensures
        match r {
            Some(v) => boot_line_serial(line@) == Some(v@),
            None => boot_line_serial(line@) is None,
        },
{
    let (k, v) = match split_once_vec(line, '=') {
        Some(p) => p,
        None => {
            return None;
        },
    };
    let key = lower_vec(&trim_vec(&k));
    if !eq_str(&key, "boot2") && !eq_str(&key, "boot") {
        return None;
    }
    let t = trim_vec(&v);
    let from = last_sep_exec(&t);
    proof {
        lemma_last_sep(t@);
    }
    let tail = slice_of(&t, from, t.len());
    proof {
        assert(tail@ =~= t@.skip(last_sep(t@) + 1));
    }
    let stem = trim_vec(&before_char_vec(&tail, ';'));
    let serial = normalise_serial(&stem);
    if serial.len() == 0 {
        None
    } else {
        Some(serial)
    }
}

/// Parse the disc serial out of a `SYSTEM.CNF` body: the first `BOOT2` (PS2)
/// or `BOOT` (PS1) line (key compared ignoring ASCII case) that yields a
/// non-empty serial.
pub fn parse_boot_serial(text: &str) -> (r: Option<String>)
    ensures
        opt_view(r) == boot_serial_from(lines(text@)),
{
    let ls = lines_vec(&chars_of(text));
    let ghost l0 = views(ls@);
    let mut i: usize = 0;
    proof {
        assert(l0.skip(0) =~= l0);
    }
    while i < ls.len()
        invariant
            i <= ls.len(),
            l0 == views(ls@),
            l0 == lines(text@),
            boot_serial_from(l0) == boot_serial_from(l0.skip(i as int)),
        decreases ls.len() - i,
    {
        proof {
            assert(l0.skip(i as int).drop_first() =~= l0.skip(i as int + 1));
            assert(l0.skip(i as int)[0] == ls@[i as int]@);
        }
        match boot_line_serial_exec(&ls[i]) {
            Some(s) => {
                return Some(string_of(&s));
            },
            None => {},
        }
        i += 1;
    }
    None
}

// ── cue sheets ─────────────────────────────────────────────────────────────

/// A (trimmed) line that starts with `FILE ` in any ASCII case.
pub open spec fn is_file_line(l: Seq<char>) -> bool {
    l.len() >= 5 && lower_str(l.take(5)) == "file "@
}

/// The file a `FILE` line names: the text between its first and last double
/// quote, or, for an unquoted sheet, its second whitespace token.
pub open spec fn cue_line_name(l: Seq<char>) -> Option<Seq<char>> {
    let a = find_char(l, '"');
    let b = rfind_char(l, '"');
    if a >= 0 && b > a {
        Some(l.subrange(a + 1, b))
    } else if words(l).len() > 1 {
        Some(words(l)[1])
    } else {
        None
    }
}

/// The name in the first `FILE` line of a cue sheet; `None` without one or
/// when that line names nothing.
pub open spec fn cue_first_binary_spec(ls: Seq<Seq<char>>) -> Option<Seq<char>>
    decreases ls.len(),
{
    if ls.len() == 0 {
        None
    } else if is_file_line(trim(ls[0])) {
        cue_line_name(trim(ls[0]))
    } else {
        cue_first_binary_spec(ls.drop_first())
    }
}

fn cue_line_name_exec(l: &Vec<char>) -> (r: Option<Vec<char>>)
    ensures
        match r {
            Some(v) => cue_line_name(l@) == Some(v@),
            None => cue_line_name(l@) is None,
        },
{
    match (find_char_vec(l, '"'), rfind_char_vec(l, '"')) {
        (Some(a), Some(b)) => {
            if b > a {
                return Some(slice_of(l, a + 1, b));
            }
        },
        _ => {},
    }
    let w = words_vec(l);
    if w.len() > 1 {
        proof {
            assert(views(w@)[1] == w@[1]@);
        }
        Some(slice_of(&w[1], 0, w[1].len()))
    } else {
        None
    }
}

/// The data file a `.cue` sheet's first `FILE` line names, relative to the
/// sheet's directory.
pub fn cue_first_binary(text: &str) -> (r: Option<String>)
    ensures
        opt_view(r) == cue_first_binary_spec(lines(text@)),
{
    let ls = lines_vec(&chars_of(text));
    let ghost l0 = views(ls@);
    let mut i: usize = 0;
    proof {
        assert(l0.skip(0) =~= l0);
    }
    while i < ls.len()
        invariant
            i <= ls.len(),
            l0 == views(ls@),
            l0 == lines(text@),
            cue_first_binary_spec(l0) == cue_first_binary_spec(l0.skip(i as int)),
        decreases ls.len() - i,
    {
        proof {
            assert(l0.skip(i as int).drop_first() =~= l0.skip(i as int + 1));
            assert(l0.skip(i as int)[0] == ls@[i as int]@);
        }
        let l = trim_vec(&ls[i]);
        let head_ok = if l.len() >= 5 {
            let h = lower_vec(&slice_of(&l, 0, 5));
            eq_str(&h, "file ")
        } else {
            false
        };
        if head_ok {
            return match cue_line_name_exec(&l) {
                Some(n) => Some(string_of(&n)),
                None => None,
            };
        }
        i += 1;
    }
    None
}

/// Where an image's file system lives.
#[derive(Debug, Clone, Copy, PartialEq, Eq, Structural)]
pub enum DataTrack {
    /// A bare `.iso`/`.bin` is its own data track.
    Itself,
    /// A `.cue` sheet points at the `.bin` holding it.
    CueSheet,
    /// A `.chd` is compressed and unreadable here.
    Compressed,
}

pub open spec fn data_track_spec(path: Seq<char>) -> DataTrack {
    match extension(path) {
        Some(e) => if lower_str(e) == "cue"@ {
            DataTrack::CueSheet
        } else if lower_str(e) == "chd"@ {
            DataTrack::Compressed
        } else {
            DataTrack::Itself
        },
        None => DataTrack::Itself,
    }
}

/// Which image holds an image's file system, by its extension (ASCII case
/// ignored).
pub fn data_track(path: &str) -> (r: DataTrack)
    ensures
        r == data_track_spec(path@),
{
    match extension_vec(&chars_of(path)) {
        Some(e) => {
            let l = lower_vec(&e);
            if eq_str(&l, "cue") {
                DataTrack::CueSheet
            } else if eq_str(&l, "chd") {
                DataTrack::Compressed
            } else {
                DataTrack::Itself
            }
        },
        None => DataTrack::Itself,
    }
}

// ── decisions over what was read ───────────────────────────────────────────

/// What the reads of an image showed, in the order they are made: the
/// console header magic (GameCube/Wii images are raw dumps, not ISO 9660),
/// the internal name behind it, the Xbox volume signature, the ISO 9660 root
/// and, for a PSP UMD, the `PARAM.SFO` title.
#[derive(Debug, Clone)]
pub struct DiscEvidence {
    pub nintendo: Option<NintendoDisc>,
    pub disc_name: Option<String>,
    pub xbox: bool,
    pub root: Option<RootKind>,
    pub psp_title: Option<String>,
}

/// A Nintendo header decides first, then the Xbox signature, then the ISO
/// 9660 root (a `PSP_GAME` directory, else a root `SYSTEM.CNF`); anything
/// else is unrecognised.
pub open spec fn classify_spec(ev: DiscEvidence) -> Option<(Seq<char>, Option<Seq<char>>)> {
    match ev.nintendo {
        Some(NintendoDisc::GameCube) => Some(("gamecube"@, opt_view(ev.disc_name))),
        Some(NintendoDisc::Wii) => Some(("wii"@, opt_view(ev.disc_name))),
        None => if ev.xbox {
            Some(("xbox"@, None))
        } else {
            match ev.root {
                Some(RootKind::PspGame(_)) => Some(("psp"@, opt_view(ev.psp_title))),
                Some(RootKind::Ps2) => Some(("ps2"@, None)),
                _ => None,
            }
        },
    }
}

/// Classify a disc image from what its reads showed.
pub fn classify(ev: DiscEvidence) -> (r: Option<Disc>)
    ensures
        match r {
            Some(d) => classify_spec(ev) == Some((disc_platform(d), disc_title(d))),
            None => classify_spec(ev) is None,
        },
{
    match ev.nintendo {
        Some(k) => {
            return Some(nintendo_disc(k, ev.disc_name));
        },
        None => {},
    }
    if ev.xbox {
        return Some(Disc::Xbox);
    }
    match ev.root {
        Some(RootKind::PspGame(_)) => Some(Disc::Psp { title: ev.psp_title }),
        Some(RootKind::Ps2) => Some(Disc::Ps2),
        _ => None,
    }
}

/// The disc serial from the bytes of a PlayStation disc's `SYSTEM.CNF`
/// (decoded leniently).
pub fn disc_serial(cnf: &[u8]) -> (r: Option<String>)
    ensures
        opt_view(r) == boot_serial_from(lines(utf8_lossy(cnf@))),
{
    let text = lossy_string(cnf);
    parse_boot_serial(text.as_str())
}

/// The 6-character game id of a GameCube/Wii image, gated on the header
/// magic so that no other image yields six bytes of garbage.
pub fn nintendo_game_id(header: &[u8], id: &[u8]) -> (r: Option<String>)
    ensures
        opt_view(r) == (if nintendo_kind_spec(header@) is Some {
            game_id_spec(id@)
        } else {
            None
        }),
{
    match nintendo_kind(header) {
        Some(_) => game_id(id),
        None => None,
    }
}

} // verus!
