//! Archives: entry names read from a ZIP central directory (no
//! decompression), the choice of which extracted file an emulator should
//! boot, and the stable per-archive extraction directory name. Opening,
//! decompressing and writing files happen at the application edge.
use vstd::prelude::*;
use crate::adapters::string_views;
use crate::hotkeys::{lower_str, lower_vec};
use crate::pathname::{extension, extension_vec};
use crate::text::{byte_range, chars_of, eq_vec, le16, le16_at, le32, le32_at, lossy_string, utf8_lossy};

verus! {

/// End-of-central-directory record signature (`PK\x05\x06`).
pub const EOCD_SIGNATURE: u32 = 0x0605_4b50;

/// Central-directory file-header signature (`PK\x01\x02`).
pub const CDFH_SIGNATURE: u32 = 0x0201_4b50;

/// The EOCD record is 22 bytes plus a comment of up to 0xFFFF bytes.
pub const EOCD_MAX: usize = 65557;

/// Sentinel meaning "see the ZIP64 record", which this reader doesn't parse.
pub const ZIP64_SENTINEL: u32 = 0xFFFF_FFFF;

/// The little-endian `u16` at `at`, if the bytes reach that far.
pub fn le_u16(b: &[u8], at: usize) -> (r: Option<u16>)
    ensures
        r == (if at + 2 <= b@.len() {
            Some(le16(b@, at as int) as u16)
        } else {
            None
        }),
{
    if at <= b.len() && b.len() - at >= 2 {
        Some(le16_at(b, at))
    } else {
        None
    }
}

/// The little-endian `u32` at `at`, if the bytes reach that far.
pub fn le_u32(b: &[u8], at: usize) -> (r: Option<u32>)
    ensures
        r == (if at + 4 <= b@.len() {
            Some(le32(b@, at as int) as u32)
        } else {
            None
        }),
{
    if at <= b.len() && b.len() - at >= 4 {
        Some(le32_at(b, at))
    } else {
        None
    }
}

/// The EOCD signature starts at `i`.
pub open spec fn eocd_at(tail: Seq<u8>, i: int) -> bool {
    i + 4 <= tail.len() && le32(tail, i) == 0x0605_4b50
}

/// The last position, no later than 22 bytes before the end (or 0), where the
/// EOCD signature starts.
pub open spec fn last_eocd_from(tail: Seq<u8>, i: int) -> Option<int>
    decreases i + 1,
{
    if i < 0 {
        None
    } else if eocd_at(tail, i) {
        Some(i)
    } else {
        last_eocd_from(tail, i - 1)
    }
}

pub open spec fn eocd_spec(tail: Seq<u8>) -> Option<int> {
    last_eocd_from(tail, if tail.len() >= 22 { tail.len() - 22 } else { 0 })
}

/// Locate the EOCD record in the tail of a file by scanning backwards.
pub fn find_eocd(tail: &[u8]) -> (r: Option<usize>)
    ensures
        match r {
            Some(i) => eocd_spec(tail@) == Some(i as int) && i + 4 <= tail@.len(),
            None => eocd_spec(tail@) is None,
        },
{
    let start = if tail.len() >= 22 {
        tail.len() - 22
    } else {
        0
    };
    let mut i = start;
    loop
        invariant
            i <= start,
            start == (if tail@.len() >= 22 { tail@.len() - 22 } else { 0 }),
            eocd_spec(tail@) == last_eocd_from(tail@, i as int),
        decreases i,
    {
        match le_u32(tail, i) {
            Some(v) => {
                proof {
                    assert(0 <= le32(tail@, i as int) < 0x1_0000_0000);
                }
                if v == EOCD_SIGNATURE {
                    return Some(i);
                }
            },
            None => {},
        }
        if i == 0 {
            proof {
                assert(last_eocd_from(tail@, -1) is None);
            }
            return None;
        }
        i -= 1;
    }
}

/// Where the central directory lives: its offset and size from the EOCD
/// record; `None` without an EOCD, with a truncated one, or for ZIP64.
pub open spec fn cd_location_spec(tail: Seq<u8>) -> Option<(u64, u64)> {
    match eocd_spec(tail) {
        None => None,
        Some(e) => if e + 20 > tail.len() {
            None
        } else {
            let size = le32(tail, e + 12);
            let offset = le32(tail, e + 16);
            if offset == 0xFFFF_FFFF || size == 0xFFFF_FFFF {
                None
            } else {
                Some((offset as u64, size as u64))
            }
        },
    }
}

/// The central directory's offset and size, read from the tail of a ZIP
/// file (its last `EOCD_MAX` bytes, or all of it).
pub fn cd_location(tail: &[u8]) -> (r: Option<(u64, u64)>)
    ensures
        r == cd_location_spec(tail@),
{
    let e = match find_eocd(tail) {
        Some(e) => e,
        None => {
            return None;
        },
    };
    if tail.len() - e < 20 {
        return None;
    }
    let size = match le_u32(tail, e + 12) {
        Some(s) => s,
        None => {
            return None;
        },
    };
    let offset = match le_u32(tail, e + 16) {
        Some(o) => o,
        None => {
            return None;
        },
    };
    if offset == ZIP64_SENTINEL || size == ZIP64_SENTINEL {
        return None;
    }
    Some((offset as u64, size as u64))
}

/// The entry names of a central directory walked from `pos`: each header
/// must carry the signature and fit, its name (decoded leniently) is taken,
/// and the walk skips the name, extra field and comment.
pub open spec fn cd_names(cd: Seq<u8>, pos: int) -> Seq<Seq<char>>
    decreases cd.len() - pos,
{
    if pos < 0 || pos + 46 > cd.len() || le32(cd, pos) != 0x0201_4b50 {
        seq![]
    } else {
        let name_end = pos + 46 + le16(cd, pos + 28);
        if name_end > cd.len() {
            seq![]
        } else {
            let next = name_end + le16(cd, pos + 30) + le16(cd, pos + 32);
            seq![utf8_lossy(cd.subrange(pos + 46, name_end))] + if next > cd.len() {
                seq![]
            } else {
                cd_names(cd, next)
            }
        }
    }
}

/// One central-directory file header as its parts: the 46 fixed bytes, the
/// name, the extra field and the comment.
pub type CdHeader = (Seq<u8>, Seq<u8>, Seq<u8>, Seq<u8>);

/// A well-formed header: the signature, and the three lengths at offsets 28,
/// 30 and 32 giving the sizes of the name, extra field and comment.
pub open spec fn cd_header_ok(h: CdHeader) -> bool {
    &&& h.0.len() == 46
    &&& h.0[0] == 0x50 && h.0[1] == 0x4b && h.0[2] == 0x01 && h.0[3] == 0x02
    &&& h.0[28] + 256 * h.0[29] == h.1.len()
    &&& h.0[30] + 256 * h.0[31] == h.2.len()
    &&& h.0[32] + 256 * h.0[33] == h.3.len()
}

/// The bytes of headers laid end to end.
pub open spec fn cd_bytes(hs: Seq<CdHeader>) -> Seq<u8>
    decreases hs.len(),
{
    if hs.len() == 0 {
        seq![]
    } else {
        hs[0].0 + hs[0].1 + hs[0].2 + hs[0].3 + cd_bytes(hs.drop_first())
    }
}

/// Walking a directory behind some leading bytes is walking the directory.
proof fn lemma_cd_names_shift(a: Seq<u8>, b: Seq<u8>, p: int)
    requires
        0 <= p,
    ensures
        cd_names(a + b, a.len() + p) == cd_names(b, p),
    decreases b.len() - p,
{
    let ab = a + b;
    let q = a.len() + p;
    if p + 46 <= b.len() {
        assert(ab[q] == b[p] && ab[q + 1] == b[p + 1] && ab[q + 2] == b[p + 2] && ab[q + 3] == b[p + 3]);
        assert(ab[q + 28] == b[p + 28] && ab[q + 29] == b[p + 29]);
        assert(ab[q + 30] == b[p + 30] && ab[q + 31] == b[p + 31]);
        assert(ab[q + 32] == b[p + 32] && ab[q + 33] == b[p + 33]);
        let name_end = p + 46 + le16(b, p + 28);
        if name_end <= b.len() {
            assert(ab.subrange(q + 46, a.len() + name_end) =~= b.subrange(p + 46, name_end));
            let next = name_end + le16(b, p + 30) + le16(b, p + 32);
            if next <= b.len() {
                lemma_cd_names_shift(a, b, next);
            }
        }
    }
}

/// Every header of a directory is listed, in order: the walk steps over each
/// header's name, extra field and comment to reach the next one, whatever
/// their lengths.
pub proof fn law_cd_lists_every_header(hs: Seq<CdHeader>)
    requires
        forall|i: int| 0 <= i < hs.len() ==> cd_header_ok(#[trigger] hs[i]),
    ensures
        cd_names(cd_bytes(hs), 0) == Seq::new(hs.len(), |i: int| utf8_lossy(hs[i].1)),
    decreases hs.len(),
{
    if hs.len() == 0 {
        assert(cd_names(cd_bytes(hs), 0) =~= Seq::<Seq<char>>::empty());
    } else {
        let rest = hs.drop_first();
        assert forall|i: int| 0 <= i < rest.len() implies cd_header_ok(#[trigger] rest[i]) by {
            assert(rest[i] == hs[i + 1]);
        }
        law_cd_lists_every_header(rest);
        let h = hs[0];
        assert(cd_header_ok(h));
        let head = h.0 + h.1 + h.2 + h.3;
        let all = cd_bytes(hs);
        assert(all == head + cd_bytes(rest));
        assert(all[0] == h.0[0] && all[1] == h.0[1] && all[2] == h.0[2] && all[3] == h.0[3]);
        assert(all[28] == h.0[28] && all[29] == h.0[29]);
        assert(all[30] == h.0[30] && all[31] == h.0[31]);
        assert(all[32] == h.0[32] && all[33] == h.0[33]);
        assert(le32(all, 0) == 0x0201_4b50);
        assert(all.subrange(46, 46 + h.1.len() as int) =~= h.1);
        lemma_cd_names_shift(head, cd_bytes(rest), 0);
        assert(cd_names(all, 0) == seq![utf8_lossy(h.1)] + cd_names(cd_bytes(rest), 0));
        assert(cd_names(all, 0) =~= Seq::new(hs.len(), |i: int| utf8_lossy(hs[i].1)));
    }
}

/// Walk central-directory file headers, collecting each entry's name.
pub fn parse_central_directory(cd: &[u8]) -> (r: Vec<String>)
    ensures
        string_views(r@) == cd_names(cd@, 0),
{
    let mut names: Vec<String> = Vec::new();
    let mut pos: usize = 0;
    proof {
        assert(string_views(names@) + cd_names(cd@, 0) =~= cd_names(cd@, 0));
    }
    while pos <= cd.len() && cd.len() - pos >= 46
        invariant
            string_views(names@) + cd_names(cd@, pos as int) == cd_names(cd@, 0),
        decreases cd@.len() - pos,
    {
        let sig_ok = match le_u32(cd, pos) {
            Some(v) => v == CDFH_SIGNATURE,
            None => false,
        };
        if !sig_ok {
            proof {
                assert(string_views(names@) + Seq::<Seq<char>>::empty() =~= string_views(names@));
            }
            return names;
        }
        let name_len = le16_at(cd, pos + 28) as usize;
        let extra_len = le16_at(cd, pos + 30) as usize;
        let comment_len = le16_at(cd, pos + 32) as usize;
        let name_start = pos + 46;
        if name_len > cd.len() - name_start {
            proof {
                assert(string_views(names@) + Seq::<Seq<char>>::empty() =~= string_views(names@));
            }
            return names;
        }
        let name_end = name_start + name_len;
        let raw = byte_range(cd, name_start, name_end);
        let name = lossy_string(raw.as_slice());
        let ghost o = string_views(names@);
        names.push(name);
        proof {
            assert(string_views(names@) =~= o.push(utf8_lossy(cd@.subrange(name_start as int, name_end as int))));
            assert(o.push(utf8_lossy(cd@.subrange(name_start as int, name_end as int))) + cd_names(cd@, name_end + extra_len + comment_len) =~= o + (seq![utf8_lossy(cd@.subrange(name_start as int, name_end as int))] + cd_names(cd@, name_end + extra_len + comment_len)));
        }
        if extra_len + comment_len > cd.len() - name_end {
            proof {
                assert(cd_names(cd@, name_end + extra_len + comment_len) =~= Seq::<Seq<char>>::empty());
                assert(string_views(names@) + Seq::<Seq<char>>::empty() =~= string_views(names@));
            }
            return names;
        }
        pos = name_end + extra_len + comment_len;
    }
    proof {
        assert(cd_names(cd@, pos as int) =~= Seq::<Seq<char>>::empty());
        assert(string_views(names@) + Seq::<Seq<char>>::empty() =~= string_views(names@));
    }
    names
}

// ── launch targets ─────────────────────────────────────────────────────────

/// A zipped game extracted to a stable per-archive directory, so that an
/// emulator whose savestates embed the disc's absolute path finds it again.
#[derive(Debug, Clone)]
pub struct ExtractedRom {
    /// The entry the emulator should boot.
    pub path: String,
}

/// `p`'s extension equals `ext`, ignoring ASCII case.
pub open spec fn has_ext_spec(p: Seq<char>, ext: Seq<char>) -> bool {
    match extension(p) {
        Some(e) => lower_str(e) == lower_str(ext),
        None => false,
    }
}

pub fn has_ext(p: &str, ext: &str) -> (b: bool)
    ensures
        b == has_ext_spec(p@, ext@),
{
    match extension_vec(&chars_of(p)) {
        Some(e) => eq_vec(&lower_vec(&e), &lower_vec(&chars_of(ext))),
        None => false,
    }
}

pub open spec fn file_views(fs: Seq<(String, u64)>) -> Seq<(Seq<char>, u64)> {
    fs.map_values(|f: (String, u64)| (f.0@, f.1))
}

/// The first file with extension `ext`.
pub open spec fn first_with(fs: Seq<(Seq<char>, u64)>, ext: Seq<char>) -> Option<Seq<char>>
    decreases fs.len(),
{
    if fs.len() == 0 {
        None
    } else if has_ext_spec(fs[0].0, ext) {
        Some(fs[0].0)
    } else {
        first_with(fs.drop_first(), ext)
    }
}

/// The last of the largest files.
pub open spec fn last_largest(fs: Seq<(Seq<char>, u64)>) -> Option<Seq<char>>
    decreases fs.len(),
{
    if fs.len() == 0 {
        None
    } else {
        match last_largest(fs.drop_last()) {
            None => Some(fs.last().0),
            Some(p) => if fs.last().1 >= max_size(fs.drop_last()) {
                Some(fs.last().0)
            } else {
                Some(p)
            },
        }
    }
}

pub open spec fn max_size(fs: Seq<(Seq<char>, u64)>) -> u64
    decreases fs.len(),
{
    if fs.len() == 0 {
        0
    } else if fs.last().1 >= max_size(fs.drop_last()) {
        fs.last().1
    } else {
        max_size(fs.drop_last())
    }
}

/// The file to hand an emulator: a disc sheet or playlist describes the
/// others, so the first `.m3u`, else `.cue`, else `.gdi` wins; otherwise the
/// largest file (the last of equals) is the ROM.
pub open spec fn launch_target_spec(fs: Seq<(Seq<char>, u64)>) -> Option<Seq<char>> {
    match first_with(fs, "m3u"@) {
        Some(p) => Some(p),
        None => match first_with(fs, "cue"@) {
            Some(p) => Some(p),
            None => match first_with(fs, "gdi"@) {
                Some(p) => Some(p),
                None => last_largest(fs),
            },
        },
    }
}

/// `k` is the first file with extension `ext` (any case).
pub open spec fn first_of_ext(fs: Seq<(Seq<char>, u64)>, ext: Seq<char>, k: int) -> bool {
    &&& 0 <= k < fs.len()
    &&& has_ext_spec(fs[k].0, ext)
    &&& forall|j: int| 0 <= j < k ==> !has_ext_spec(#[trigger] fs[j].0, ext)
}

/// No file has extension `ext` (any case).
pub open spec fn none_of_ext(fs: Seq<(Seq<char>, u64)>, ext: Seq<char>) -> bool {
    forall|j: int| 0 <= j < fs.len() ==> !has_ext_spec(#[trigger] fs[j].0, ext)
}

proof fn lemma_first_with_at(fs: Seq<(Seq<char>, u64)>, ext: Seq<char>, k: int)
    requires
        first_of_ext(fs, ext, k),
    ensures
        first_with(fs, ext) == Some(fs[k].0),
    decreases k,
{
    if k > 0 {
        assert(!has_ext_spec(fs[0].0, ext));
        let d = fs.drop_first();
        assert forall|j: int| 0 <= j < k - 1 implies !has_ext_spec(#[trigger] d[j].0, ext) by {
            assert(d[j] == fs[j + 1]);
        }
        assert(d[k - 1] == fs[k]);
        lemma_first_with_at(d, ext, k - 1);
    }
}

proof fn lemma_first_with_none(fs: Seq<(Seq<char>, u64)>, ext: Seq<char>)
    requires
        none_of_ext(fs, ext),
    ensures
        first_with(fs, ext) is None,
    decreases fs.len(),
{
    if fs.len() > 0 {
        let d = fs.drop_first();
        assert(!has_ext_spec(fs[0].0, ext));
        assert forall|j: int| 0 <= j < d.len() implies !has_ext_spec(#[trigger] d[j].0, ext) by {
            assert(d[j] == fs[j + 1]);
        }
        lemma_first_with_none(d, ext);
    }
}

/// The last of the largest files: the pick is at `k`, no file is larger, and
/// every file after it is smaller.
proof fn lemma_last_largest(fs: Seq<(Seq<char>, u64)>) -> (k: int)
    requires
        fs.len() > 0,
    ensures
        0 <= k < fs.len(),
        last_largest(fs) == Some(fs[k].0),
        max_size(fs) == fs[k].1,
        forall|j: int| 0 <= j < fs.len() ==> #[trigger] fs[j].1 <= fs[k].1,
        forall|j: int| k < j < fs.len() ==> #[trigger] fs[j].1 < fs[k].1,
    decreases fs.len(),
{
    let d = fs.drop_last();
    if d.len() == 0 {
        0
    } else {
        let k0 = lemma_last_largest(d);
        assert forall|j: int| 0 <= j < d.len() implies #[trigger] fs[j] == d[j] by {}
        if fs.last().1 >= max_size(d) {
            assert forall|j: int| 0 <= j < fs.len() implies #[trigger] fs[j].1 <= fs[fs.len() - 1].1 by {
                if j < d.len() {
                    assert(fs[j] == d[j]);
                    assert(d[j].1 <= d[k0].1);
                }
            }
            fs.len() - 1
        } else {
            assert(fs[k0] == d[k0]);
            assert forall|j: int| 0 <= j < fs.len() implies #[trigger] fs[j].1 <= fs[k0].1 by {
                if j < d.len() {
                    assert(fs[j] == d[j]);
                }
            }
            assert forall|j: int| k0 < j < fs.len() implies #[trigger] fs[j].1 < fs[k0].1 by {
                if j < d.len() {
                    assert(fs[j] == d[j]);
                }
            }
            k0
        }
    }
}

/// What is handed to the emulator: the first `.m3u` playlist; with none, the
/// first `.cue` sheet; with neither, the first `.gdi` sheet (extensions in any
/// case); with no sheet at all, the last of the largest files; nothing for an
/// empty archive.
pub proof fn law_launch_target_choice(fs: Seq<(Seq<char>, u64)>)
    ensures
        forall|k: int| first_of_ext(fs, "m3u"@, k) ==> launch_target_spec(fs) == Some(fs[k].0),
        forall|k: int|
            none_of_ext(fs, "m3u"@) && first_of_ext(fs, "cue"@, k) ==> launch_target_spec(fs) == Some(
                fs[k].0,
            ),
        forall|k: int|
            none_of_ext(fs, "m3u"@) && none_of_ext(fs, "cue"@) && first_of_ext(fs, "gdi"@, k)
                ==> launch_target_spec(fs) == Some(fs[k].0),
        none_of_ext(fs, "m3u"@) && none_of_ext(fs, "cue"@) && none_of_ext(fs, "gdi"@) && fs.len() > 0
            ==> exists|k: int|
            0 <= k < fs.len() && launch_target_spec(fs) == Some(fs[k].0)
                && (forall|j: int| 0 <= j < fs.len() ==> #[trigger] fs[j].1 <= fs[k].1)
                && (forall|j: int| k < j < fs.len() ==> #[trigger] fs[j].1 < fs[k].1),
        fs.len() == 0 ==> launch_target_spec(fs) is None,
{
    assert forall|k: int| first_of_ext(fs, "m3u"@, k) implies launch_target_spec(fs) == Some(fs[k].0) by {
        lemma_first_with_at(fs, "m3u"@, k);
    }
    assert forall|k: int|
        none_of_ext(fs, "m3u"@) && first_of_ext(fs, "cue"@, k) implies launch_target_spec(fs) == Some(
            fs[k].0,
        ) by {
        lemma_first_with_none(fs, "m3u"@);
        lemma_first_with_at(fs, "cue"@, k);
    }
    assert forall|k: int|
        none_of_ext(fs, "m3u"@) && none_of_ext(fs, "cue"@) && first_of_ext(fs, "gdi"@, k)
            implies launch_target_spec(fs) == Some(fs[k].0) by {
        lemma_first_with_none(fs, "m3u"@);
        lemma_first_with_none(fs, "cue"@);
        lemma_first_with_at(fs, "gdi"@, k);
    }
    if none_of_ext(fs, "m3u"@) && none_of_ext(fs, "cue"@) && none_of_ext(fs, "gdi"@) && fs.len() > 0 {
        lemma_first_with_none(fs, "m3u"@);
        lemma_first_with_none(fs, "cue"@);
        lemma_first_with_none(fs, "gdi"@);
        let k = lemma_last_largest(fs);
        assert(launch_target_spec(fs) == Some(fs[k].0));
    }
}

fn first_with_exec(files: &Vec<(String, u64)>, ext: &str) -> (r: Option<usize>)
    ensures
        match r {
            Some(i) => i < files.len() && first_with(file_views(files@), ext@) == Some(files@[i as int].0@),
            None => first_with(file_views(files@), ext@) is None,
        },
{
    let ghost fv = file_views(files@);
    let mut i: usize = 0;
    proof {
        assert(fv.skip(0) =~= fv);
    }
    while i < files.len()
        invariant
            i <= files.len(),
            fv == file_views(files@),
            first_with(fv, ext@) == first_with(fv.skip(i as int), ext@),
        decreases files.len() - i,
    {
        proof {
            assert(fv.skip(i as int).drop_first() =~= fv.skip(i as int + 1));
            assert(fv.skip(i as int)[0] == (files@[i as int].0@, files@[i as int].1));
        }
        if has_ext(files[i].0.as_str(), ext) {
            return Some(i);
        }
        i += 1;
    }
    None
}

/// Choose which extracted file to hand the emulator.
pub fn pick_launch_target(files: &Vec<(String, u64)>) -> (r: Option<String>)
    ensures
        match r {
            Some(p) => launch_target_spec(file_views(files@)) == Some(p@),
            None => launch_target_spec(file_views(files@)) is None,
        },
{
    let sheets: Vec<&'static str> = vec!["m3u", "cue", "gdi"];
    let mut k: usize = 0;
    while k < 3
        invariant
            k <= 3,
            sheets@.len() == 3,
            sheets@[0]@ == "m3u"@,
            sheets@[1]@ == "cue"@,
            sheets@[2]@ == "gdi"@,
            k >= 1 ==> first_with(file_views(files@), "m3u"@) is None,
            k >= 2 ==> first_with(file_views(files@), "cue"@) is None,
            k >= 3 ==> first_with(file_views(files@), "gdi"@) is None,
        decreases 3 - k,
    {
        match first_with_exec(files, sheets[k]) {
            Some(i) => {
                return Some(crate::adapters::owned(files[i].0.as_str()));
            },
            None => {},
        }
        k += 1;
    }
    let ghost fv = file_views(files@);
    let mut best: Option<usize> = None;
    let mut best_size: u64 = 0;
    let mut i: usize = 0;
    proof {
        assert(fv.take(0) =~= Seq::<(Seq<char>, u64)>::empty());
    }
    while i < files.len()
        invariant
            i <= files.len(),
            fv == file_views(files@),
            best_size == max_size(fv.take(i as int)),
            match best {
                Some(b) => b < i && last_largest(fv.take(i as int)) == Some(fv[b as int].0),
                None => i == 0 && last_largest(fv.take(i as int)) is None,
            },
        decreases files.len() - i,
    {
        proof {
            assert(fv.take(i as int + 1).drop_last() =~= fv.take(i as int));
            assert(fv.take(i as int + 1).last() == fv[i as int]);
            assert(fv[i as int] == (files@[i as int].0@, files@[i as int].1));
        }
        let size = files[i].1;
        if best.is_none() || size >= best_size {
            best = Some(i);
            best_size = size;
        }
        i += 1;
    }
    proof {
        assert(fv.take(files.len() as int) =~= fv);
    }
    match best {
        Some(b) => Some(crate::adapters::owned(files[b].0.as_str())),
        None => None,
    }
}

// ── extraction directory ───────────────────────────────────────────────────

/// FNV-1a over bytes, from the 64-bit offset basis.
pub open spec fn fnv1a(bytes: Seq<u8>) -> u64
    decreases bytes.len(),
{
    if bytes.len() == 0 {
        0xcbf2_9ce4_8422_2325
    } else {
        vstd::wrapping::u64_specs::wrapping_mul(
            fnv1a(bytes.drop_last()) ^ (bytes.last() as u64),
            0x0000_0100_0000_01b3,
        )
    }
}

pub open spec fn hex_lower(n: int) -> char {
    if n < 10 {
        ((n + 48) as u8) as char
    } else {
        ((n + 87) as u8) as char
    }
}

/// The 16 lowercase hex digits of `h`, most significant first.
pub open spec fn hex16(h: u64) -> Seq<char> {
    Seq::new(16, |i: int| hex_lower(((h as int) / pow16(15 - i)) % 16))
}

pub open spec fn pow16(k: int) -> int
    decreases k,
{
    if k <= 0 {
        1
    } else {
        16 * pow16(k - 1)
    }
}

proof fn lemma_pow16_pos(k: int)
    ensures
        pow16(k) >= 1,
    decreases k,
{
    if k > 0 {
        lemma_pow16_pos(k - 1);
    }
}

/// `arcadia-rom-<hash>`: the FNV-1a digest of the archive's canonical path
/// bytes as 16 lowercase hex digits, the same across launches, so the
/// extracted disc keeps one absolute path.
pub open spec fn stable_dir_spec(path_bytes: Seq<u8>) -> Seq<char> {
    "arcadia-rom-"@ + hex16(fnv1a(path_bytes))
}

fn hex_lower_exec(n: u64) -> (c: char)
    requires
        n < 16,
    ensures
        c == hex_lower(n as int),
{
    let b = n as u8;
    if b < 10 {
        (b + 48) as char
    } else {
        (b + 87) as char
    }
}

/// The stable extraction directory name for an archive, from the bytes of
/// its canonical absolute path.
pub fn stable_dir_name(path_bytes: &[u8]) -> (r: String)
    ensures
        r@ == stable_dir_spec(path_bytes@),
{
    let mut hash: u64 = 0xcbf2_9ce4_8422_2325;
    let mut i: usize = 0;
    proof {
        assert(path_bytes@.take(0) =~= Seq::<u8>::empty());
    }
    while i < path_bytes.len()
        invariant
            i <= path_bytes@.len(),
            hash == fnv1a(path_bytes@.take(i as int)),
        decreases path_bytes@.len() - i,
    {
        proof {
            assert(path_bytes@.take(i as int + 1).drop_last() =~= path_bytes@.take(i as int));
            assert(path_bytes@.take(i as int + 1).last() == path_bytes@[i as int]);
        }
        hash = (hash ^ (path_bytes[i] as u64)).wrapping_mul(0x0000_0100_0000_01b3);
        i += 1;
    }
    proof {
        assert(path_bytes@.take(path_bytes@.len() as int) =~= path_bytes@);
    }
    let mut out = chars_of("arcadia-rom-");
    let ghost head = out@;
    let mut k: usize = 0;
    let mut div: u64 = 0x1000_0000_0000_0000;
    proof {
        reveal_with_fuel(pow16, 16);
        assert(pow16(15) == 0x1000_0000_0000_0000);
    }
    while k < 16
        invariant
            k <= 16,
            head == "arcadia-rom-"@,
            hash == fnv1a(path_bytes@),
            div == pow16(15 - k),
            div > 0,
            out@ == head + hex16(hash).take(k as int),
        decreases 16 - k,
    {
        let d = (hash / div) % 16;
        out.push(hex_lower_exec(d));
        proof {
            assert(out@ =~= head + hex16(hash).take(k as int + 1));
            if k < 15 {
                assert(pow16(15 - k) == 16 * pow16(15 - k - 1));
                lemma_pow16_pos(15 - k - 1);
            }
        }
        if k < 15 {
            div = div / 16;
        }
        k += 1;
    }
    proof {
        assert(hex16(hash).take(16) =~= hex16(hash));
    }
    crate::text::string_of(&out)
}


/// Where archives are extracted for launch: `$XDG_CACHE_HOME/arcadia`, else
/// `~/.cache/arcadia`, else `<temp>/arcadia` (a home-relative path stays
/// readable from inside a Flatpak emulator's sandbox).
pub open spec fn extract_base_spec(xdg_cache: Option<Seq<char>>, home: Option<Seq<char>>, temp: Seq<char>) -> Seq<
    char,
> {
    match xdg_cache {
        Some(x) => crate::paths::join_rel(x, "arcadia"@),
        None => match home {
            Some(h) => crate::paths::join_rel(h, ".cache/arcadia"@),
            None => crate::paths::join_rel(temp, "arcadia"@),
        },
    }
}

/// The extraction root for the given environment.
pub fn extract_base_dir(xdg_cache: Option<&str>, home: Option<&str>, temp: &str) -> (r: String)
    ensures
        r@ == extract_base_spec(
            match xdg_cache { Some(x) => Some(x@), None => None },
            match home { Some(h) => Some(h@), None => None },
            temp@,
        ),
{
    match xdg_cache {
        Some(x) => crate::paths::join_path(x, "arcadia"),
        None => match home {
            Some(h) => crate::paths::join_path(h, ".cache/arcadia"),
            None => crate::paths::join_path(temp, "arcadia"),
        },
    }
}

/// The stable extraction folder of an archive under `base`, named from the
/// bytes of its canonical absolute path.
pub fn extraction_dir(base: &str, path_bytes: &[u8]) -> (r: String)
    ensures
        r@ == crate::paths::join_rel(base@, stable_dir_spec(path_bytes@)),
{
    crate::paths::join_path(base, stable_dir_name(path_bytes).as_str())
}

/// The name an archive entry is written under: its last path component, so
/// directory prefixes, `..` and absolute paths cannot lead outside the
/// extraction folder; `None` when it has no file name.
pub fn flattened_name(entry_name: &str) -> (r: Option<String>)
    ensures
        match r {
            Some(n) => crate::pathname::file_name(entry_name@) == Some(n@),
            None => crate::pathname::file_name(entry_name@) is None,
        },
{
    match crate::pathname::file_name_vec(&chars_of(entry_name)) {
        Some(n) => Some(crate::text::string_of(&n)),
        None => None,
    }
}

/// A flattened entry name never holds a `/`, so it lands directly inside the
/// extraction folder.
pub proof fn law_flattened_names_stay_inside(entry_name: Seq<char>)
    ensures
        crate::pathname::file_name(entry_name) matches Some(n) ==> !n.contains('/'),
{
    crate::pathname::lemma_file_name_no_slash(entry_name);
}

} // verus!
