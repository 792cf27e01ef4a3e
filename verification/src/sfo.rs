//! A minimal PARAM.SFO (PSF) reader: the string fields of the table PS3 disc
//! dumps, PKG installs and PSP UMDs carry, whose `TITLE` is the real game name.
//!
//! Layout (all integers little-endian): a 20-byte header (magic `\0PSF`,
//! version, key-table start, data-table start, entry count), then one 16-byte
//! index entry per field (key offset u16, data format u16, data length u32,
//! reserved capacity u32, data offset u32). Keys are NUL-terminated; string
//! data is UTF-8, format 0x0204 or 0x0004.
use vstd::prelude::*;
use crate::text::{
    byte_range, chars_of, eq_vec, trim, le16, le16_at, le32, le32_at, lossy_string, nul_text,
    nul_text_exec, utf8_lossy, zero_from, zero_from_exec,
};

verus! {

/// The NUL-terminated key that starts at `start` (to the end if unterminated),
/// decoded; `None` when `start` lies past the end.
pub open spec fn cstr_at(b: Seq<u8>, start: int) -> Option<Seq<char>> {
    if start > b.len() {
        None
    } else {
        Some(utf8_lossy(b.subrange(start, zero_from(b, start))))
    }
}

/// The index walk from entry `i`: the first entry whose key is `key` decides
/// (a non-string format or an out-of-range value gives `None`); the walk stops
/// at the end of the index or of the bytes.
pub open spec fn sfo_scan(
    b: Seq<u8>,
    key: Seq<char>,
    key_table: int,
    data_table: int,
    count: int,
    i: int,
) -> Option<Seq<char>>
    decreases count - i,
{
    if i >= count || 20 + 16 * i + 16 > b.len() {
        None
    } else {
        let e = 20 + 16 * i;
        let key_start = key_table + le16(b, e);
        let fmt = le16(b, e + 2);
        let len = le32(b, e + 4);
        let start = data_table + le32(b, e + 12);
        if key_start > usize::MAX {
            None
        } else if cstr_at(b, key_start) is None {
            None
        } else if cstr_at(b, key_start)->0 != key {
            sfo_scan(b, key, key_table, data_table, count, i + 1)
        } else if fmt != 0x0204 && fmt != 0x0004 {
            None
        } else if start > usize::MAX || start + len > usize::MAX || start + len > b.len() {
            None
        } else {
            nul_text(b.subrange(start, start + len))
        }
    }
}

/// A string-typed field (`TITLE`, `TITLE_ID`, …) of an SFO table: `None` for
/// bytes that are not an SFO, a missing key, a non-string field or an empty
/// value.
pub open spec fn read_field_spec(b: Seq<u8>, key: Seq<char>) -> Option<Seq<char>> {
    if b.len() < 20 || b[0] != 0 || b[1] != 0x50 || b[2] != 0x53 || b[3] != 0x46 {
        None
    } else {
        sfo_scan(b, key, le32(b, 8), le32(b, 12), le32(b, 16), 0)
    }
}

/// Read a NUL-terminated string starting at `start`.
fn read_cstr(bytes: &[u8], start: usize) -> (r: Option<String>)
    ensures
        match r {
            Some(s) => cstr_at(bytes@, start as int) == Some(s@),
            None => cstr_at(bytes@, start as int) is None,
        },
{
    if start > bytes.len() {
        return None;
    }
    let end = zero_from_exec(bytes, start);
    let raw = byte_range(bytes, start, end);
    Some(lossy_string(raw.as_slice()))
}

/// Read a string-typed field (e.g. `TITLE`, `TITLE_ID`) from SFO bytes. A
/// field that is read is never empty, has no white space at either end and
/// holds no NUL.
pub fn read_field(bytes: &[u8], key: &str) -> (r: Option<String>)
    ensures
        match r {
            Some(s) => read_field_spec(bytes@, key@) == Some(s@),
            None => read_field_spec(bytes@, key@) is None,
        },
        r matches Some(s) ==> s@.len() > 0 && trim(s@) == s@ && !s@.contains('\0'),
{
    if bytes.len() < 20 || bytes[0] != 0 || bytes[1] != 0x50 || bytes[2] != 0x53 || bytes[3]
        != 0x46 {
        return None;
    }
    let key_table = le32_at(bytes, 8) as usize;
    let data_table = le32_at(bytes, 12) as usize;
    let count = le32_at(bytes, 16) as usize;
    let kc = chars_of(key);
    let mut i: usize = 0;
    while i < count
        invariant
            bytes@.len() >= 20,
            key_table == le32(bytes@, 8),
            data_table == le32(bytes@, 12),
            count == le32(bytes@, 16),
            kc@ == key@,
            i <= count,
            read_field_spec(bytes@, key@) == sfo_scan(
                bytes@,
                key@,
                key_table as int,
                data_table as int,
                count as int,
                i as int,
            ),
        decreases count - i,
    {
        if bytes.len() < 36 {
            return None;
        }
        let room = (bytes.len() - 36) / 16;
        let n = bytes.len();
        if room < i {
            proof {
                assert(20 + 16 * i + 16 > n) by (nonlinear_arith)
                    requires
                        room == (n - 36) / 16,
                        room < i,
                        n >= 36,
                ;
            }
            return None;
        }
        proof {
            assert(20 + 16 * i + 16 <= n) by (nonlinear_arith)
                requires
                    room == (n - 36) / 16,
                    i <= room,
                    n >= 36,
            ;
        }
        let e = 20 + i * 16;
        let key_offset = le16_at(bytes, e) as usize;
        let fmt = le16_at(bytes, e + 2);
        let len = le32_at(bytes, e + 4) as usize;
        let offset = le32_at(bytes, e + 12) as usize;
        let key_start = match key_table.checked_add(key_offset) {
            Some(k) => k,
            None => {
                return None;
            },
        };
        let name = match read_cstr(bytes, key_start) {
            Some(n) => n,
            None => {
                return None;
            },
        };
        if !eq_vec(&chars_of(name.as_str()), &kc) {
            i += 1;
            continue;
        }
        if fmt != 0x0204 && fmt != 0x0004 {
            return None;
        }
        let start = match data_table.checked_add(offset) {
            Some(s) => s,
            None => {
                return None;
            },
        };
        let end = match start.checked_add(len) {
            Some(x) => x,
            None => {
                return None;
            },
        };
        if end > bytes.len() {
            return None;
        }
        let raw = byte_range(bytes, start, end);
        return nul_text_exec(raw.as_slice());
    }
    None
}

} // verus!
