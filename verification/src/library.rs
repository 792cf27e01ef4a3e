//! Library indexing rules that need no database: how multi-disc sets are
//! recognised from file names (disc markers and the base title every disc of
//! a set shares), the display title derived from a file name, and the sort
//! key.
use vstd::prelude::*;
use crate::adapters::standalone::{join_with, join_with_vec, lemma_find_sub_first};
use crate::hotkeys::{lower_char, lower_str, lower_vec};
use crate::launchbox::is_ascii_alnum;
use crate::pathname::{components, components_vec, extension, extension_vec, file_stem, file_stem_vec};
use crate::platforms::{resolve_rom, resolve_rom_spec, ContentProbe};
use crate::text::{
    all_digits, chars_of, digits_value, eq_str, eq_vec, find_sub_from, is_digit, occurs_at,
    occurs_at_vec, parse_i64,
    parse_i64_vec, slice_of, string_of, strip_prefix, strip_prefix_str, trim, trim_end,
    trim_end_vec, trim_vec, words, words_vec,
};

verus! {

/// What a library scan did.
#[derive(Debug, Clone, Copy, Default)]
pub struct ScanReport {
    pub scanned_files: usize,
    pub added: usize,
    pub skipped_existing: usize,
    pub unrecognized: usize,
    /// Stale rows pruned: games under a scanned source whose file is gone or
    /// which the current rules no longer treat as a game.
    pub removed: usize,
}

/// Filters and sort applied to a game listing.
#[derive(Debug, Clone, Default)]
pub struct GameQuery {
    pub profile_id: String,
    pub platform: Option<String>,
    pub favorites_only: Option<bool>,
    pub search: Option<String>,
    /// `title`, `recent` or `playtime`.
    pub sort: Option<String>,
    pub limit: Option<i64>,
}

// ── disc markers ───────────────────────────────────────────────────────────

pub open spec fn is_ascii_alpha(c: char) -> bool {
    ('a' <= c <= 'z') || ('A' <= c <= 'Z')
}

/// A keyword of length `n` at `idx` is not glued to a letter or digit before
/// it, nor to a letter after it (so `disc` in `discovery` or `cd` in `arcade`
/// is no marker).
pub open spec fn at_word_boundary_spec(lower: Seq<char>, idx: int, n: int) -> bool {
    &&& (idx == 0 || !is_ascii_alnum(lower[idx - 1]))
    &&& (idx + n >= lower.len() || !is_ascii_alpha(lower[idx + n]))
}

/// The separators allowed between a disc keyword and its number.
pub open spec fn is_marker_sep(c: char) -> bool {
    c == ' ' || c == '_' || c == '-' || c == '.' || c == '#' || c == ':'
}

pub open spec fn skip_seps(s: Seq<char>) -> Seq<char>
    decreases s.len(),
{
    if s.len() > 0 && is_marker_sep(s[0]) {
        skip_seps(s.drop_first())
    } else {
        s
    }
}

/// How many ASCII digits lead `s`.
pub open spec fn digit_run(s: Seq<char>) -> nat
    decreases s.len(),
{
    if s.len() > 0 && is_digit(s[0]) {
        1 + digit_run(s.drop_first())
    } else {
        0
    }
}

pub proof fn lemma_find_sub_from(s: Seq<char>, p: Seq<char>, from: int)
    ensures
        find_sub_from(s, p, from) >= 0 ==> from <= find_sub_from(s, p, from) && find_sub_from(
            s,
            p,
            from,
        ) + p.len() <= s.len() && occurs_at(s, p, find_sub_from(s, p, from)),
    decreases s.len() + 1 - from,
{
    if !(from < 0 || from > s.len() || from + p.len() > s.len()) && !occurs_at(s, p, from) {
        lemma_find_sub_from(s, p, from + 1);
    }
}

/// The first occurrence of `kw` at or after `from` that is a disc marker: on
/// a word boundary (for `cd`, also right after `(` or `[`, since a bare `cd`
/// is far more often hardware, as in `Sega CD 2`), followed after optional
/// separators by digits that parse as an `i64`. Its index and number.
pub open spec fn marker_from(lower: Seq<char>, kw: Seq<char>, from: int) -> Option<(int, i64)>
    decreases lower.len() + 1 - from,
{
    let idx = find_sub_from(lower, kw, from);
    if kw.len() == 0 || from < 0 || idx < 0 {
        None
    } else {
        proof {
            lemma_find_sub_from(lower, kw, from);
        }
        let next = idx + kw.len();
        if !at_word_boundary_spec(lower, idx, kw.len() as int) || (kw == "cd"@ && !(idx > 0 && (
        lower[idx - 1] == '(' || lower[idx - 1] == '['))) {
            marker_from(lower, kw, next)
        } else {
            let rest = skip_seps(lower.skip(next));
            match parse_i64(rest.take(digit_run(rest) as int)) {
                Some(n) => Some((idx, n)),
                None => marker_from(lower, kw, next),
            }
        }
    }
}

/// The disc marker of an (ASCII-lowercased) name: `disc`, then `disk`, then
/// the collision-prone `cd`.
pub open spec fn find_disc_marker_spec(lower: Seq<char>) -> Option<(int, i64)> {
    match marker_from(lower, "disc"@, 0) {
        Some(m) => Some(m),
        None => match marker_from(lower, "disk"@, 0) {
            Some(m) => Some(m),
            None => marker_from(lower, "cd"@, 0),
        },
    }
}

fn at_word_boundary(lower: &Vec<char>, idx: usize, n: usize) -> (b: bool)
    requires
        idx + n <= lower.len(),
    ensures
        b == at_word_boundary_spec(lower@, idx as int, n as int),
{
    let before_ok = idx == 0 || {
        let c = lower[idx - 1];
        !(('a' <= c && c <= 'z') || ('A' <= c && c <= 'Z') || ('0' <= c && c <= '9'))
    };
    let after_ok = idx + n >= lower.len() || {
        let c = lower[idx + n];
        !(('a' <= c && c <= 'z') || ('A' <= c && c <= 'Z'))
    };
    before_ok && after_ok
}

fn skip_seps_exec(s: &Vec<char>, from: usize) -> (r: usize)
    requires
        from <= s.len(),
    ensures
        from <= r <= s.len(),
        s@.skip(r as int) == skip_seps(s@.skip(from as int)),
{
    let mut i = from;
    while i < s.len() && (s[i] == ' ' || s[i] == '_' || s[i] == '-' || s[i] == '.' || s[i] == '#'
        || s[i] == ':')
        invariant
            from <= i <= s.len(),
            skip_seps(s@.skip(i as int)) == skip_seps(s@.skip(from as int)),
        decreases s.len() - i,
    {
        proof {
            assert(s@.skip(i as int).drop_first() =~= s@.skip(i as int + 1));
        }
        i += 1;
    }
    i
}

fn digit_run_exec(s: &Vec<char>, from: usize) -> (r: usize)
    requires
        from <= s.len(),
    ensures
        from <= r <= s.len(),
        r - from == digit_run(s@.skip(from as int)),
{
    let mut i = from;
    while i < s.len() && '0' <= s[i] && s[i] <= '9'
        invariant
            from <= i <= s.len(),
            digit_run(s@.skip(from as int)) == (i - from) + digit_run(s@.skip(i as int)),
        decreases s.len() - i,
    {
        proof {
            assert(s@.skip(i as int).drop_first() =~= s@.skip(i as int + 1));
        }
        i += 1;
    }
    i
}

pub fn find_sub_after(s: &Vec<char>, p: &Vec<char>, from: usize) -> (r: Option<usize>)
    requires
        from <= s.len(),
        p@.len() > 0,
    ensures
        match r {
            Some(i) => i == find_sub_from(s@, p@, from as int) && from <= i && i + p@.len() <= s@.len(),
            None => find_sub_from(s@, p@, from as int) == -1,
        },
{
    proof {
        lemma_find_sub_from(s@, p@, from as int);
    }
    let mut i = from;
    while i < s.len() && p.len() <= s.len() - i
        invariant
            from <= i <= s.len(),
            p@.len() > 0,
            find_sub_from(s@, p@, from as int) == find_sub_from(s@, p@, i as int),
        decreases s.len() + 1 - i,
    {
        if occurs_at_vec(s, p, i) {
            return Some(i);
        }
        i += 1;
    }
    None
}

fn marker_from_exec(lower: &Vec<char>, kw: &str) -> (r: Option<(usize, i64)>)
    requires
        kw@.len() > 0,
    ensures
        match r {
            Some((i, n)) => marker_from(lower@, kw@, 0) == Some((i as int, n)),
            None => marker_from(lower@, kw@, 0) is None,
        },
{
    let k = chars_of(kw);
    let is_cd = eq_str(&k, "cd");
    let mut from: usize = 0;
    while from <= lower.len()
        invariant
            k@ == kw@,
            k@.len() > 0,
            is_cd == (kw@ == "cd"@),
            marker_from(lower@, kw@, 0) == marker_from(lower@, kw@, from as int),
        decreases lower.len() + 1 - from,
    {
        proof {
            lemma_find_sub_from(lower@, k@, from as int);
        }
        let idx = match find_sub_after(lower, &k, from) {
            Some(i) => i,
            None => {
                return None;
            },
        };
        let next = idx + k.len();
        let boundary = at_word_boundary(lower, idx, k.len());
        let bracketed = idx > 0 && (lower[idx - 1] == '(' || lower[idx - 1] == '[');
        if boundary && (!is_cd || bracketed) {
            let start = skip_seps_exec(lower, next);
            let end = digit_run_exec(lower, start);
            let digits = slice_of(lower, start, end);
            proof {
                let rest = skip_seps(lower@.skip(next as int));
                assert(digits@ =~= rest.take(digit_run(rest) as int));
            }
            match parse_i64_vec(&digits) {
                Some(n) => {
                    return Some((idx, n));
                },
                None => {},
            }
        }
        from = next;
    }
    None
}

fn find_disc_marker(lower: &Vec<char>) -> (r: Option<(usize, i64)>)
    ensures
        match r {
            Some((i, n)) => find_disc_marker_spec(lower@) == Some((i as int, n)),
            None => find_disc_marker_spec(lower@) is None,
        },
{
    proof {
        reveal_strlit("disc");
        reveal_strlit("disk");
        reveal_strlit("cd");
    }
    match marker_from_exec(lower, "disc") {
        Some(m) => {
            return Some(m);
        },
        None => {},
    }
    match marker_from_exec(lower, "disk") {
        Some(m) => {
            return Some(m);
        },
        None => {},
    }
    marker_from_exec(lower, "cd")
}

pub open spec fn disc_number_spec(stem: Seq<char>) -> Option<i64> {
    match find_disc_marker_spec(lower_str(stem)) {
        Some((_, n)) => Some(n),
        None => None,
    }
}

/// An all-digit text is one run of digits.
proof fn lemma_digit_run_all(d: Seq<char>)
    requires
        all_digits(d),
    ensures
        digit_run(d) == d.len(),
    decreases d.len(),
{
    if d.len() > 0 {
        assert(is_digit(d[0]));
        let t = d.drop_first();
        assert forall|i: int| 0 <= i < t.len() implies is_digit(#[trigger] t[i]) by {
            assert(t[i] == d[i + 1]);
        }
        lemma_digit_run_all(t);
    }
}

/// A title, one separator, `Disc`, the same separator and a number: the disc
/// number is that number, for each separator a disc marker allows (space,
/// `_`, `-`, `.`, `#`, `:`), whatever the title, as long as the title does
/// not itself hold the word `disc` (in any case).
pub proof fn law_disc_marker_separators(title: Seq<char>, c: char, d: Seq<char>)
    requires
        c == ' ' || c == '_' || c == '-' || c == '.' || c == '#' || c == ':',
        forall|i: int| !occurs_at(lower_str(title), "disc"@, i),
        d.len() > 0,
        all_digits(d),
        digits_value(d) <= i64::MAX,
    ensures
        disc_number_spec(title + seq![c] + "Disc"@ + seq![c] + d) == Some(digits_value(d) as i64),
{
    reveal_strlit("Disc");
    reveal_strlit("disc");
    reveal_strlit("disk");
    reveal_strlit("cd");
    let full = title + seq![c] + "Disc"@ + seq![c] + d;
    let lt = lower_str(title);
    let t = title.len() as int;
    let l = lower_str(full);
    assert(('D' as u32) + 32 == 100);
    assert(lower_char('D') == 'd');
    assert forall|i: int| 0 <= i < d.len() implies lower_char(#[trigger] d[i]) == d[i] by {
        assert(is_digit(d[i]));
    }
    assert(l =~= lt + seq![c] + "disc"@ + seq![c] + d);
    // The first `disc` is the marker's.
    assert(l.subrange(t + 1, t + 5) =~= "disc"@);
    assert forall|i: int| 0 <= i < t + 1 implies !occurs_at(l, "disc"@, i) by {
        if occurs_at(l, "disc"@, i) {
            if i + 4 <= t {
                assert(lt.subrange(i, i + 4) =~= l.subrange(i, i + 4));
                assert(occurs_at(lt, "disc"@, i));
            } else {
                assert(l.subrange(i, i + 4)[t - i] == l[t]);
                assert(l[t] == c);
            }
        }
    }
    lemma_find_sub_first(l, "disc"@, 0, t + 1);
    assert(at_word_boundary_spec(l, t + 1, 4));
    // After the keyword: the separator, then the number.
    let after = l.skip(t + 5);
    assert(after =~= seq![c] + d);
    assert(after.drop_first() =~= d);
    assert(after[0] == c && is_marker_sep(c));
    assert(is_digit(d[0]));
    assert(!is_marker_sep(d[0]));
    assert(skip_seps(d) == d);
    assert(skip_seps(after) == skip_seps(after.drop_first()));
    assert(skip_seps(after) == d);
    lemma_digit_run_all(d);
    assert(d.take(d.len() as int) =~= d);
    assert(d[0] != '-' && d[0] != '+');
    assert(parse_i64(d) == Some(digits_value(d) as i64));
    assert(marker_from(l, "disc"@, 0) == Some((t + 1, digits_value(d) as i64)));
}

/// The disc number encoded in a filename stem, if any: `(Disc 1)`,
/// `(Disk 2)`, `(CD 1)`, ` - Disc 1`, `Disc 1 of 3`, … Case-insensitive.
pub fn disc_number(stem: &str) -> (r: Option<i64>)
    ensures
        r == disc_number_spec(stem@),
{
    match find_disc_marker(&lower_vec(&chars_of(stem))) {
        Some((_, n)) => Some(n),
        None => None,
    }
}

pub open spec fn is_lead_mark(c: char) -> bool {
    c == '-' || c == '_' || c == '(' || c == '[' || c == ':'
}

/// `s` without trailing `-`, `_`, `(`, `[`, `:`.
pub open spec fn trim_end_marks(s: Seq<char>) -> Seq<char>
    decreases s.len(),
{
    if s.len() > 0 && is_lead_mark(s.last()) {
        trim_end_marks(s.drop_last())
    } else {
        s
    }
}

/// A title with its disc marker (and the separator or bracket leading into
/// it) removed, so every disc of a set shares one base title; a title with
/// no marker, or nothing before it, is only trimmed.
pub open spec fn base_title_spec(title: Seq<char>) -> Seq<char> {
    match find_disc_marker_spec(lower_str(title)) {
        Some((idx, _)) => {
            let head = trim_end(trim_end_marks(trim_end(title.take(idx))));
            if head.len() > 0 {
                head
            } else {
                trim(title)
            }
        },
        None => trim(title),
    }
}

fn trim_end_marks_exec(s: &Vec<char>) -> (r: Vec<char>)
    ensures
        r@ == trim_end_marks(s@),
{
    let mut n = s.len();
    proof {
        assert(s@.take(n as int) =~= s@);
    }
    while n > 0 && (s[n - 1] == '-' || s[n - 1] == '_' || s[n - 1] == '(' || s[n - 1] == '['
        || s[n - 1] == ':')
        invariant
            n <= s.len(),
            trim_end_marks(s@) == trim_end_marks(s@.take(n as int)),
        decreases n,
    {
        proof {
            assert(s@.take(n as int).drop_last() =~= s@.take(n as int - 1));
        }
        n -= 1;
    }
    slice_of(s, 0, n)
}

/// The base title of a disc set.
pub fn base_title(title: &str) -> (r: String)
    ensures
        r@ == base_title_spec(title@),
{
    let t = chars_of(title);
    let lower = lower_vec(&t);
    match find_disc_marker(&lower) {
        Some((idx, _)) => {
            proof {
                lemma_marker_in_range(lower@);
            }
            let head = trim_end_vec(&trim_end_marks_exec(&trim_end_vec(&slice_of(&t, 0, idx))));
            proof {
                assert(t@.subrange(0, idx as int) =~= t@.take(idx as int));
            }
            if head.len() > 0 {
                return string_of(&head);
            }
        },
        None => {},
    }
    string_of(&trim_vec(&t))
}

/// The index of a found marker.
pub open spec fn marker_at(m: Option<(int, i64)>) -> int {
    match m {
        Some((i, _)) => i,
        None => -1,
    }
}

proof fn lemma_marker_from_range(lower: Seq<char>, kw: Seq<char>, from: int)
    ensures
        marker_from(lower, kw, from) is Some ==> 0 <= marker_at(marker_from(lower, kw, from)) <= lower.len(),
    decreases lower.len() + 1 - from,
{
    let idx = find_sub_from(lower, kw, from);
    if !(kw.len() == 0 || from < 0 || idx < 0) {
        lemma_find_sub_from(lower, kw, from);
        lemma_marker_from_range(lower, kw, idx + kw.len());
    }
}

proof fn lemma_marker_in_range(lower: Seq<char>)
    ensures
        find_disc_marker_spec(lower) is Some ==> 0 <= marker_at(find_disc_marker_spec(lower))
            <= lower.len(),
{
    lemma_marker_from_range(lower, "disc"@, 0);
    lemma_marker_from_range(lower, "disk"@, 0);
    lemma_marker_from_range(lower, "cd"@, 0);
}

// ── titles ─────────────────────────────────────────────────────────────────

/// A file stem with parenthesised and bracketed groups dropped (unbalanced
/// closers are ignored) and `_`/`.` outside them turned into spaces.
pub open spec fn strip_groups(s: Seq<char>, paren: nat, brack: nat) -> Seq<char>
    decreases s.len(),
{
    if s.len() == 0 {
        seq![]
    } else {
        let c = s[0];
        let rest = s.drop_first();
        if c == '(' {
            strip_groups(rest, paren + 1, brack)
        } else if c == ')' {
            strip_groups(rest, if paren > 0 { (paren - 1) as nat } else { 0 }, brack)
        } else if c == '[' {
            strip_groups(rest, paren, brack + 1)
        } else if c == ']' {
            strip_groups(rest, paren, if brack > 0 { (brack - 1) as nat } else { 0 })
        } else if paren == 0 && brack == 0 {
            seq![if c == '_' || c == '.' { ' ' } else { c }] + strip_groups(rest, paren, brack)
        } else {
            strip_groups(rest, paren, brack)
        }
    }
}

/// The display title a file name suggests: the stem (`Unknown` without
/// one) with region/revision groups dropped and whitespace collapsed; the bare
/// stem when that leaves nothing.
pub open spec fn derive_title_spec(path: Seq<char>) -> Seq<char> {
    let stem = match file_stem(path) {
        Some(s) => s,
        None => "Unknown"@,
    };
    let t = join_with(words(strip_groups(stem, 0, 0)), " "@);
    if t.len() == 0 {
        stem
    } else {
        t
    }
}

/// Derive a display title from a ROM's path.
pub fn derive_title(path: &str) -> (r: String)
    ensures
        r@ == derive_title_spec(path@),
{
    let stem = match file_stem_vec(&chars_of(path)) {
        Some(s) => s,
        None => chars_of("Unknown"),
    };
    let mut out: Vec<char> = Vec::new();
    let mut paren: usize = 0;
    let mut brack: usize = 0;
    let mut i: usize = 0;
    proof {
        assert(stem@.skip(0) =~= stem@);
        assert(out@ + strip_groups(stem@, 0, 0) =~= strip_groups(stem@, 0, 0));
    }
    while i < stem.len()
        invariant
            i <= stem.len(),
            paren <= i,
            brack <= i,
            out@ + strip_groups(stem@.skip(i as int), paren as nat, brack as nat) == strip_groups(
                stem@,
                0,
                0,
            ),
        decreases stem.len() - i,
    {
        let c = stem[i];
        let ghost rest = stem@.skip(i as int + 1);
        let ghost o = out@;
        proof {
            assert(stem@.skip(i as int).drop_first() =~= rest);
            assert(stem@.skip(i as int)[0] == c);
        }
        if c == '(' {
            paren += 1;
        } else if c == ')' {
            if paren > 0 {
                paren -= 1;
            }
        } else if c == '[' {
            brack += 1;
        } else if c == ']' {
            if brack > 0 {
                brack -= 1;
            }
        } else if paren == 0 && brack == 0 {
            let d = if c == '_' || c == '.' {
                ' '
            } else {
                c
            };
            out.push(d);
            proof {
                assert(o + (seq![d] + strip_groups(rest, 0, 0)) =~= out@ + strip_groups(rest, 0, 0));
            }
        }
        i += 1;
    }
    proof {
        assert(stem@.skip(stem.len() as int) =~= Seq::<char>::empty());
        assert(out@ + Seq::<char>::empty() =~= out@);
    }
    let t = join_with_vec(&words_vec(&out), " ");
    if t.len() == 0 {
        string_of(&stem)
    } else {
        string_of(&t)
    }
}

/// What `str::to_lowercase` makes of a string (full Unicode case mapping).
pub uninterp spec fn unicode_lower(s: Seq<char>) -> Seq<char>;

pub open spec fn is_ascii_text(s: Seq<char>) -> bool {
    forall|i: int| 0 <= i < s.len() ==> (s[i] as u32) < 128
}

/// `str::to_lowercase`. The contract names the result as a function of the
/// text and adds what the documentation gives for ASCII text (it lowercases
/// exactly the ASCII capitals); the Unicode case tables are not restated.
#[verifier::external_body]
pub(crate) fn to_lowercase(s: &str) -> (r: String)
    ensures
        r@ == unicode_lower(s@),
        is_ascii_text(s@) ==> r@ == lower_str(s@),
{
    s.to_lowercase()
}

/// Sort key: lowercase, ignoring a leading `the `.
pub open spec fn sort_key_spec(title: Seq<char>) -> Seq<char> {
    let l = unicode_lower(title);
    match strip_prefix(l, "the "@) {
        Some(r) => r,
        None => l,
    }
}

/// The key a title sorts by.
pub fn sort_key(title: &str) -> (r: String)
    ensures
        r@ == sort_key_spec(title@),
{
    let lower = to_lowercase(title);
    let l = chars_of(lower.as_str());
    match strip_prefix_str(&l, "the ") {
        Some(rest) => string_of(&rest),
        None => string_of(&l),
    }
}


// ── grouping a scan into games ─────────────────────────────────────────────

/// A file the scan recognised as a game: its display title, platform id,
/// path and size in bytes.
#[derive(Debug)]
pub struct Candidate {
    pub title: String,
    pub platform: String,
    pub rom_path: String,
    pub size: i64,
}

/// A candidate as plain values: (title, platform, path, size).
pub type CandView = (Seq<char>, Seq<char>, Seq<char>, i64);

impl View for Candidate {
    type V = CandView;

    open spec fn view(&self) -> CandView {
        (self.title@, self.platform@, self.rom_path@, self.size)
    }
}

pub open spec fn cand_views(v: Seq<Candidate>) -> Seq<CandView> {
    v.map_values(|c: Candidate| c@)
}

pub open spec fn group_views(v: Seq<Vec<Candidate>>) -> Seq<Seq<CandView>> {
    v.map_values(|g: Vec<Candidate>| cand_views(g@))
}

/// The file stem of a path, or empty when it has none.
pub open spec fn rom_stem(path: Seq<char>) -> Seq<char> {
    match file_stem(path) {
        Some(s) => s,
        None => Seq::empty(),
    }
}

/// The candidate's file name carries a disc marker.
pub open spec fn has_disc_marker(c: CandView) -> bool {
    disc_number_spec(rom_stem(c.2)) is Some
}

/// Discs of one set share the platform and the sort key of their base title.
pub open spec fn set_key(c: CandView) -> (Seq<char>, Seq<char>) {
    (c.1, sort_key_spec(base_title_spec(c.0)))
}

/// The candidates without a disc marker, in scan order.
pub open spec fn unmarked(cs: Seq<CandView>) -> Seq<CandView> {
    cs.filter(|c: CandView| !has_disc_marker(c))
}

/// The candidates with a disc marker and set key `k`, in scan order.
pub open spec fn set_members(cs: Seq<CandView>, k: (Seq<char>, Seq<char>)) -> Seq<CandView> {
    cs.filter(|c: CandView| has_disc_marker(c) && set_key(c) == k)
}

/// `singles` and `groups` split `cs` as a scan does: the unmarked candidates
/// in order, and one group per set key of the marked ones, each holding
/// every marked candidate of that key in scan order.
pub open spec fn is_disc_grouping(cs: Seq<CandView>, singles: Seq<CandView>, groups: Seq<Seq<CandView>>) -> bool {
    &&& singles == unmarked(cs)
    &&& forall|j: int|
        0 <= j < groups.len() ==> (#[trigger] groups[j]).len() > 0 && groups[j] == set_members(
            cs,
            set_key(groups[j][0]),
        )
    &&& forall|j: int, k: int|
        0 <= j < k < groups.len() ==> set_key((#[trigger] groups[j])[0]) != set_key(
            (#[trigger] groups[k])[0],
        )
    &&& forall|i: int|
        0 <= i < cs.len() && has_disc_marker(#[trigger] cs[i]) ==> exists|j: int|
            0 <= j < groups.len() && set_key((#[trigger] groups[j])[0]) == set_key(cs[i])
}

proof fn lemma_members_push(t: Seq<CandView>, c: CandView, k: (Seq<char>, Seq<char>))
    ensures
        set_members(t.push(c), k) == if has_disc_marker(c) && set_key(c) == k {
            set_members(t, k).push(c)
        } else {
            set_members(t, k)
        },
{
    t.lemma_filter_push(c, |x: CandView| has_disc_marker(x) && set_key(x) == k);
}

proof fn lemma_unmarked_push(t: Seq<CandView>, c: CandView)
    ensures
        unmarked(t.push(c)) == if !has_disc_marker(c) {
            unmarked(t).push(c)
        } else {
            unmarked(t)
        },
{
    t.lemma_filter_push(c, |x: CandView| !has_disc_marker(x));
}

proof fn lemma_members_none(t: Seq<CandView>, k: (Seq<char>, Seq<char>))
    requires
        forall|i: int| 0 <= i < t.len() && has_disc_marker(#[trigger] t[i]) ==> set_key(t[i]) != k,
    ensures
        set_members(t, k) == Seq::<CandView>::empty(),
{
    let pred = |x: CandView| has_disc_marker(x) && set_key(x) == k;
    assert(t.all(|x: CandView| !pred(x)));
    t.lemma_all_neg_filter_empty(pred);
    assert(set_members(t, k) =~= Seq::<CandView>::empty());
}

fn dup_candidate(c: &Candidate) -> (r: Candidate)
    ensures
        r@ == c@,
{
    Candidate {
        title: string_of(&chars_of(c.title.as_str())),
        platform: string_of(&chars_of(c.platform.as_str())),
        rom_path: string_of(&chars_of(c.rom_path.as_str())),
        size: c.size,
    }
}

/// The disc number of a candidate's file stem.
fn candidate_disc_number(c: &Candidate) -> (r: Option<i64>)
    ensures
        r == disc_number_spec(rom_stem(c.rom_path@)),
{
    let p = chars_of(c.rom_path.as_str());
    let stem = match file_stem_vec(&p) {
        Some(s) => s,
        None => Vec::new(),
    };
    proof {
        assert(stem@ == rom_stem(c.rom_path@));
    }
    disc_number(string_of(&stem).as_str())
}

/// Splits a scan's candidates into standalone games and multi-disc sets:
/// candidates whose file name carries a disc marker are grouped by platform
/// and the sort key of their base title.
pub fn group_disc_sets(cands: &Vec<Candidate>) -> (r: (Vec<Candidate>, Vec<Vec<Candidate>>))
    ensures
        is_disc_grouping(cand_views(cands@), cand_views(r.0@), group_views(r.1@)),
{
    let ghost cs = cand_views(cands@);
    let mut singles: Vec<Candidate> = Vec::new();
    let mut groups: Vec<Vec<Candidate>> = Vec::new();
    let mut keys: Vec<(Vec<char>, Vec<char>)> = Vec::new();
    let mut i: usize = 0;
    proof {
        assert(cs.take(0) =~= Seq::<CandView>::empty());
        assert(cand_views(singles@) =~= unmarked(cs.take(0))) by {
            reveal(Seq::filter);
        }
    }
    while i < cands.len()
        invariant
            i <= cands.len(),
            cs == cand_views(cands@),
            keys.len() == groups.len(),
            forall|j: int|
                0 <= j < keys.len() ==> (#[trigger] keys@[j]).0@ == set_key(group_views(groups@)[j][0]).0
                    && keys@[j].1@ == set_key(group_views(groups@)[j][0]).1,
            cand_views(singles@) == unmarked(cs.take(i as int)),
            forall|j: int|
                0 <= j < groups.len() ==> (#[trigger] group_views(groups@)[j]).len() > 0
                    && group_views(groups@)[j] == set_members(
                    cs.take(i as int),
                    set_key(group_views(groups@)[j][0]),
                ),
            forall|j: int, k: int|
                0 <= j < k < groups.len() ==> set_key((#[trigger] group_views(groups@)[j])[0]) != set_key(
                    (#[trigger] group_views(groups@)[k])[0],
                ),
            forall|t: int|
                0 <= t < i && has_disc_marker(#[trigger] cs[t]) ==> exists|j: int|
                    0 <= j < groups.len() && set_key((#[trigger] group_views(groups@)[j])[0])
                        == set_key(cs[t]),
        decreases cands.len() - i,
    {
        let c = dup_candidate(&cands[i]);
        let ghost cv = c@;
        let ghost t = cs.take(i as int);
        proof {
            assert(cs.take(i as int + 1) =~= t.push(cv));
            assert(cv == cs[i as int]);
            lemma_unmarked_push(t, cv);
        }
        let ghost gv0 = group_views(groups@);
        match candidate_disc_number(&c) {
            None => {
                proof {
                    assert forall|j: int| 0 <= j < groups.len() implies set_members(
                        t.push(cv),
                        set_key(gv0[j][0]),
                    ) == set_members(t, set_key(gv0[j][0])) by {
                        lemma_members_push(t, cv, set_key(gv0[j][0]));
                    }
                }
                singles.push(c);
                proof {
                    assert(cand_views(singles@) =~= unmarked(t).push(cv));
                }
            },
            Some(_) => {
                let plat = chars_of(c.platform.as_str());
                let key = chars_of(sort_key(base_title(c.title.as_str()).as_str()).as_str());
                let ghost k = set_key(cv);
                proof {
                    assert(plat@ == k.0 && key@ == k.1);
                }
                let mut j: usize = 0;
                while j < keys.len() && !(eq_vec(&keys[j].0, &plat) && eq_vec(&keys[j].1, &key))
                    invariant
                        j <= keys.len(),
                        forall|q: int| 0 <= q < j ==> set_key(#[trigger] gv0[q][0]) != k,
                        keys.len() == gv0.len(),
                        forall|q: int|
                            0 <= q < keys.len() ==> (#[trigger] keys@[q]).0@ == set_key(gv0[q][0]).0
                                && keys@[q].1@ == set_key(gv0[q][0]).1,
                        plat@ == k.0,
                        key@ == k.1,
                    decreases keys.len() - j,
                {
                    j += 1;
                }
                if j < keys.len() {
                    proof {
                        assert(set_key(gv0[j as int][0]) == k);
                        assert forall|q: int| 0 <= q < groups.len() implies set_members(
                            t.push(cv),
                            set_key(gv0[q][0]),
                        ) == if q == j {
                            set_members(t, k).push(cv)
                        } else {
                            set_members(t, set_key(gv0[q][0]))
                        } by {
                            lemma_members_push(t, cv, set_key(gv0[q][0]));
                        }
                    }
                    let ghost old_groups = groups@;
                    let mut g = groups.remove(j);
                    proof {
                        assert(g == old_groups[j as int]);
                    }
                    g.push(c);
                    let ghost gval = g;
                    proof {
                        assert(cand_views(gval@) =~= gv0[j as int].push(cv));
                    }
                    groups.insert(j, g);
                    proof {
                        assert(groups@ =~= old_groups.update(j as int, gval));
                        let gv1 = group_views(groups@);
                        assert(gv1 =~= gv0.update(j as int, gv0[j as int].push(cv)));
                        assert(gv1[j as int][0] == gv0[j as int][0]);
                        assert forall|q: int| 0 <= q < groups.len() implies #[trigger] gv1[q][0] == gv0[q][0] by {
                            if q == j as int {
                                assert(gv1[q][0] == gv0[q][0]);
                            } else {
                                assert(gv1[q] == gv0[q]);
                            }
                        }
                        assert forall|tt: int|
                            0 <= tt < i + 1 && has_disc_marker(#[trigger] cs[tt]) implies exists|q: int|
                                0 <= q < groups.len() && set_key((#[trigger] gv1[q])[0]) == set_key(cs[tt]) by {
                            if tt < i {
                                let q = choose|q: int|
                                    0 <= q < gv0.len() && set_key((#[trigger] gv0[q])[0]) == set_key(cs[tt]);
                                assert(gv1[q][0] == gv0[q][0]);
                            } else {
                                assert(set_key(gv1[j as int][0]) == set_key(cs[tt]));
                            }
                        }
                    }
                } else {
                    proof {
                        assert forall|tt: int| 0 <= tt < t.len() && has_disc_marker(#[trigger] t[tt]) implies set_key(t[tt]) != k by {
                            assert(t[tt] == cs[tt]);
                            if set_key(t[tt]) == k {
                                let q = choose|q: int|
                                    0 <= q < gv0.len() && set_key((#[trigger] gv0[q])[0]) == set_key(cs[tt]);
                            }
                        }
                        lemma_members_none(t, k);
                        lemma_members_push(t, cv, k);
                        assert forall|q: int| 0 <= q < groups.len() implies set_members(
                            t.push(cv),
                            set_key(gv0[q][0]),
                        ) == set_members(t, set_key(gv0[q][0])) by {
                            lemma_members_push(t, cv, set_key(gv0[q][0]));
                        }
                    }
                    let mut g: Vec<Candidate> = Vec::new();
                    g.push(c);
                    let ghost gval = g;
                    let ghost old_groups = groups@;
                    proof {
                        assert(cand_views(gval@) =~= seq![cv]);
                    }
                    groups.push(g);
                    keys.push((plat, key));
                    proof {
                        assert(groups@ =~= old_groups.push(gval));
                        let gv1 = group_views(groups@);
                        assert(gv1 =~= gv0.push(seq![cv]));
                        assert(set_members(t.push(cv), k) =~= seq![cv]);
                        assert forall|q: int| 0 <= q < gv0.len() implies #[trigger] gv1[q] == gv0[q] by {}
                        assert forall|tt: int|
                            0 <= tt < i + 1 && has_disc_marker(#[trigger] cs[tt]) implies exists|q: int|
                                0 <= q < groups.len() && set_key((#[trigger] gv1[q])[0]) == set_key(cs[tt]) by {
                            if tt < i {
                                let q = choose|q: int|
                                    0 <= q < gv0.len() && set_key((#[trigger] gv0[q])[0]) == set_key(cs[tt]);
                                assert(gv1[q] == gv0[q]);
                            } else {
                                assert(set_key(gv1[gv0.len() as int][0]) == set_key(cs[tt]));
                            }
                        }
                    }
                }
            },
        }
        i += 1;
    }
    proof {
        assert(cs.take(cands.len() as int) =~= cs);
    }
    (singles, groups)
}

// ── the record a scan writes per game ──────────────────────────────────────

/// The key discs of a set are listed by: the disc number, unnumbered last.
pub open spec fn disc_order_key(c: CandView) -> int {
    match disc_number_spec(rom_stem(c.2)) {
        Some(n) => n as int,
        None => i64::MAX as int,
    }
}

/// How many leading entries list no later than `x`.
pub open spec fn leading_disc_le(s: Seq<CandView>, x: CandView) -> nat
    decreases s.len(),
{
    if s.len() > 0 && disc_order_key(s[0]) <= disc_order_key(x) {
        1 + leading_disc_le(s.drop_first(), x)
    } else {
        0
    }
}

/// A stable sort by disc number: each disc goes after every earlier one that
/// lists no later.
pub open spec fn disc_order(s: Seq<CandView>) -> Seq<CandView>
    decreases s.len(),
{
    if s.len() == 0 {
        seq![]
    } else {
        let t = disc_order(s.drop_last());
        t.insert(leading_disc_le(t, s.last()) as int, s.last())
    }
}

proof fn lemma_leading_disc_le(s: Seq<CandView>, x: CandView)
    ensures
        leading_disc_le(s, x) <= s.len(),
    decreases s.len(),
{
    if s.len() > 0 && disc_order_key(s[0]) <= disc_order_key(x) {
        lemma_leading_disc_le(s.drop_first(), x);
    }
}

/// The first number at or above `n` that `used` does not hold, trying at
/// most `fuel` more.
pub open spec fn first_free(used: Seq<int>, n: int, fuel: nat) -> int
    decreases fuel,
{
    if fuel == 0 || !used.contains(n) {
        n
    } else {
        first_free(used, n + 1, (fuel - 1) as nat)
    }
}

/// The number each listed disc gets: its own disc number, or its position
/// (from 1) when it has none, bumped past every number an earlier disc holds.
pub open spec fn disc_numbers(s: Seq<CandView>) -> Seq<int>
    decreases s.len(),
{
    if s.len() == 0 {
        seq![]
    } else {
        let prev = disc_numbers(s.drop_last());
        let base = match disc_number_spec(rom_stem(s.last().2)) {
            Some(n) => n as int,
            None => s.len() as int,
        };
        prev.push(first_free(prev, base, prev.len()))
    }
}

proof fn lemma_disc_order_len(s: Seq<CandView>)
    ensures
        disc_order(s).len() == s.len(),
    decreases s.len(),
{
    if s.len() > 0 {
        lemma_disc_order_len(s.drop_last());
        lemma_leading_disc_le(disc_order(s.drop_last()), s.last());
    }
}

proof fn lemma_disc_numbers_len(s: Seq<CandView>)
    ensures
        disc_numbers(s).len() == s.len(),
    decreases s.len(),
{
    if s.len() > 0 {
        lemma_disc_numbers_len(s.drop_last());
    }
}

proof fn lemma_leading_disc_props(s: Seq<CandView>, x: CandView)
    ensures
        leading_disc_le(s, x) <= s.len(),
        forall|i: int| 0 <= i < leading_disc_le(s, x) ==> disc_order_key(#[trigger] s[i]) <= disc_order_key(x),
        leading_disc_le(s, x) < s.len() ==> disc_order_key(s[leading_disc_le(s, x) as int]) > disc_order_key(x),
    decreases s.len(),
{
    if s.len() > 0 && disc_order_key(s[0]) <= disc_order_key(x) {
        lemma_leading_disc_props(s.drop_first(), x);
        assert forall|i: int| 0 <= i < leading_disc_le(s, x) implies disc_order_key(#[trigger] s[i]) <= disc_order_key(x) by {
            if i > 0 {
                assert(s[i] == s.drop_first()[i - 1]);
            }
        }
        if leading_disc_le(s, x) < s.len() {
            assert(s[leading_disc_le(s, x) as int] == s.drop_first()[leading_disc_le(s.drop_first(), x) as int]);
        }
    }
}

/// The head a title keeps in front of its disc marker: the text before it,
/// without the blanks and separators (`-`, `_`, `(`, `[`, `:`) leading into
/// the marker.
pub open spec fn marker_head(title: Seq<char>, idx: int) -> Seq<char> {
    trim_end(trim_end_marks(trim_end(title.take(idx))))
}

/// Every disc of a set reduces to one base title: two titles with a disc
/// marker that read the same up to it share their base title, the text in
/// front of the marker (when that is not blank).
pub proof fn law_discs_share_base_title(t1: Seq<char>, t2: Seq<char>)
    requires
        find_disc_marker_spec(lower_str(t1)) is Some,
        find_disc_marker_spec(lower_str(t2)) is Some,
        t1.take(find_disc_marker_spec(lower_str(t1)).unwrap().0) == t2.take(find_disc_marker_spec(lower_str(t2)).unwrap().0),
        marker_head(t1, find_disc_marker_spec(lower_str(t1)).unwrap().0).len() > 0,
    ensures
        base_title_spec(t1) == base_title_spec(t2),
        base_title_spec(t1) == marker_head(t1, find_disc_marker_spec(lower_str(t1)).unwrap().0),
{
}

/// A set's discs are listed by disc number (unnumbered last), none lost or
/// added.
#[verifier::spinoff_prover]
#[verifier::rlimit(40)]
pub proof fn law_discs_listed_by_number(s: Seq<CandView>)
    ensures
        disc_order(s).len() == s.len(),
        forall|i: int, j: int|
            0 <= i < j < disc_order(s).len() ==> disc_order_key(#[trigger] disc_order(s)[i])
                <= disc_order_key(#[trigger] disc_order(s)[j]),
        disc_order(s).to_multiset() == s.to_multiset(),
    decreases s.len(),
{
    if s.len() > 0 {
        let t = disc_order(s.drop_last());
        let x = s.last();
        law_discs_listed_by_number(s.drop_last());
        lemma_leading_disc_props(t, x);
        let k = leading_disc_le(t, x) as int;
        let n = t.insert(k, x);
        assert(disc_order(s) == n);
        assert forall|i: int, j: int| 0 <= i < j < n.len() implies disc_order_key(#[trigger] n[i])
            <= disc_order_key(#[trigger] n[j]) by {
            if j < k {
                assert(n[i] == t[i] && n[j] == t[j]);
            } else if j == k {
                assert(n[i] == t[i]);
            } else if i == k {
                assert(n[j] == t[j - 1]);
                if j - 1 > k {
                    assert(disc_order_key(t[k]) <= disc_order_key(t[j - 1]));
                }
            } else if i < k {
                assert(n[i] == t[i] && n[j] == t[j - 1]);
                if j - 1 > i {
                    assert(disc_order_key(t[i]) <= disc_order_key(t[j - 1]));
                }
            } else {
                assert(n[i] == t[i - 1] && n[j] == t[j - 1]);
            }
        }
        assert(s =~= s.drop_last().push(x));
        vstd::seq_lib::to_multiset_build(s.drop_last(), x);
        vstd::seq_lib::to_multiset_insert(t, k, x);
        assert(n.to_multiset() == t.to_multiset().insert(x));
        assert(s.to_multiset() == s.drop_last().to_multiset().insert(x));
    } else {
        assert(disc_order(s) =~= s);
    }
}

/// When the number `first_free` settles on is taken, so is every number it
/// tried.
proof fn lemma_first_free_taken(used: Seq<int>, n: int, fuel: nat)
    ensures
        n <= first_free(used, n, fuel) <= n + fuel,
        used.contains(first_free(used, n, fuel)) ==> forall|m: int|
            n <= m <= n + fuel ==> used.contains(m),
    decreases fuel,
{
    if fuel > 0 && used.contains(n) {
        lemma_first_free_taken(used, n + 1, (fuel - 1) as nat);
    }
}

/// With one try per number held, `first_free` always lands on a free one.
proof fn lemma_first_free_is_free(used: Seq<int>, n: int)
    ensures
        !used.contains(first_free(used, n, used.len())),
{
    lemma_first_free_taken(used, n, used.len());
    if used.contains(first_free(used, n, used.len())) {
        let r = vstd::set_lib::set_int_range(n, n + used.len() + 1);
        vstd::set_lib::lemma_int_range(n, n + used.len() + 1);
        vstd::seq_lib::seq_to_set_is_finite(used);
        assert(r.subset_of(used.to_set()));
        vstd::set_lib::lemma_len_subset(r, used.to_set());
        used.lemma_cardinality_of_set();
    }
}

/// Every disc of a set is listed under its own number: the numbers a scan
/// assigns never repeat, whatever the file names say.
pub proof fn law_disc_numbers_distinct(s: Seq<CandView>)
    ensures
        forall|i: int, j: int|
            0 <= i < j < disc_numbers(s).len() ==> disc_numbers(s)[i] != disc_numbers(s)[j],
    decreases s.len(),
{
    if s.len() > 0 {
        let prev = disc_numbers(s.drop_last());
        law_disc_numbers_distinct(s.drop_last());
        let base = match disc_number_spec(rom_stem(s.last().2)) {
            Some(n) => n as int,
            None => s.len() as int,
        };
        lemma_first_free_is_free(prev, base);
        let x = first_free(prev, base, prev.len());
        assert(disc_numbers(s) == prev.push(x));
        assert forall|i: int, j: int|
            0 <= i < j < disc_numbers(s).len() implies disc_numbers(s)[i] != disc_numbers(s)[j] by {
            if j == prev.len() {
                assert(disc_numbers(s)[i] == prev[i]);
                assert(prev.contains(prev[i]));
            }
        }
    }
}

/// One game record of a scan: title, platform, primary file, size, and for a
/// multi-disc set each disc's (number, file, label).
#[derive(Debug)]
pub struct IndexEntry {
    pub title: String,
    pub platform: String,
    pub rom_path: String,
    pub size: i64,
    pub discs: Vec<(i64, String, String)>,
}

pub type EntryView = (Seq<char>, Seq<char>, Seq<char>, i64, Seq<(int, Seq<char>, Seq<char>)>);

pub open spec fn disc_views(v: Seq<(i64, String, String)>) -> Seq<(int, Seq<char>, Seq<char>)> {
    v.map_values(|d: (i64, String, String)| (d.0 as int, d.1@, d.2@))
}

pub open spec fn entry_view(e: IndexEntry) -> EntryView {
    (e.title@, e.platform@, e.rom_path@, e.size, disc_views(e.discs@))
}

/// A standalone game: the candidate as it is, with no discs.
pub open spec fn single_entry(c: CandView) -> EntryView {
    (c.0, c.1, c.2, c.3, seq![])
}

/// The disc list of a set listed as `o` and numbered `ns`.
pub open spec fn disc_list(o: Seq<CandView>, ns: Seq<int>) -> Seq<(int, Seq<char>, Seq<char>)> {
    Seq::new(o.len(), |i: int| (ns[i], o[i].2, "Disc "@ + crate::text::dec_signed(ns[i])))
}

/// The record of a disc group: a lone disc is a plain game; a set is one game
/// titled by the base title of its first-listed disc, whose file it points
/// at, listing every disc under a distinct number. `None` when a bumped
/// number would not fit an `i64`.
pub open spec fn set_entry(g: Seq<CandView>) -> Option<EntryView> {
    if g.len() == 1 {
        Some(single_entry(g[0]))
    } else {
        let o = disc_order(g);
        let ns = disc_numbers(o);
        if exists|i: int| 0 <= i < ns.len() && ns[i] > i64::MAX {
            None
        } else {
            Some((base_title_spec(o[0].0), o[0].1, o[0].2, o[0].3, disc_list(o, ns)))
        }
    }
}

/// The record of a standalone game.
pub fn plan_single(c: &Candidate) -> (r: IndexEntry)
    ensures
        entry_view(r) == single_entry(c@),
{
    let d = dup_candidate(c);
    let r = IndexEntry { title: d.title, platform: d.platform, rom_path: d.rom_path, size: d.size, discs: Vec::new() };
    proof {
        assert(disc_views(r.discs@) =~= Seq::<(int, Seq<char>, Seq<char>)>::empty());
    }
    r
}

fn disc_key_of(c: &Candidate) -> (k: i64)
    ensures
        k as int == disc_order_key(c@),
{
    match candidate_disc_number(c) {
        Some(n) => n,
        None => i64::MAX,
    }
}

/// Inserts `c` after every listed disc that lists no later.
fn insert_disc(out: &mut Vec<Candidate>, c: Candidate)
    ensures
        cand_views(final(out)@) == cand_views(old(out)@).insert(
            leading_disc_le(cand_views(old(out)@), c@) as int,
            c@,
        ),
{
    let ghost o = cand_views(out@);
    let ghost x = c@;
    let kc = disc_key_of(&c);
    let mut i: usize = 0;
    proof {
        assert(o.skip(0) =~= o);
    }
    while i < out.len() && disc_key_of(&out[i]) <= kc
        invariant
            i <= out.len(),
            o == cand_views(out@),
            x == c@,
            kc as int == disc_order_key(x),
            leading_disc_le(o, x) == i + leading_disc_le(o.skip(i as int), x),
        decreases out.len() - i,
    {
        proof {
            assert(o.skip(i as int).drop_first() =~= o.skip(i as int + 1));
            assert(o.skip(i as int)[0] == out@[i as int]@);
        }
        i += 1;
    }
    proof {
        if i < out.len() {
            assert(o.skip(i as int)[0] == out@[i as int]@);
        }
        assert(leading_disc_le(o, x) == i);
    }
    out.insert(i, c);
    proof {
        assert(cand_views(out@) =~= o.insert(i as int, x));
    }
}

fn contains_i128(v: &Vec<i128>, x: i128) -> (b: bool)
    ensures
        b == v@.map_values(|y: i128| y as int).contains(x as int),
{
    let ghost s = v@.map_values(|y: i128| y as int);
    let mut i: usize = 0;
    while i < v.len()
        invariant
            i <= v.len(),
            s == v@.map_values(|y: i128| y as int),
            forall|j: int| 0 <= j < i ==> s[j] != x as int,
        decreases v.len() - i,
    {
        if v[i] == x {
            proof {
                assert(s[i as int] == x as int);
            }
            return true;
        }
        i += 1;
    }
    false
}

/// The record of one disc group (all of it sharing a set key): a lone disc is
/// indexed as a plain game; a set becomes one game with every disc listed.
/// `None` exactly when a bumped disc number would not fit an `i64`.
pub fn plan_disc_set(group: &Vec<Candidate>) -> (r: Option<IndexEntry>)
    requires
        group.len() > 0,
    ensures
        match r {
            Some(e) => set_entry(cand_views(group@)) == Some(entry_view(e)),
            None => set_entry(cand_views(group@)) is None,
        },
{
    let ghost g = cand_views(group@);
    if group.len() == 1 {
        return Some(plan_single(&group[0]));
    }
    // list the discs by number, stably
    let mut listed: Vec<Candidate> = Vec::new();
    let mut i: usize = 0;
    proof {
        assert(g.take(0) =~= Seq::<CandView>::empty());
        assert(cand_views(listed@) =~= Seq::<CandView>::empty());
    }
    while i < group.len()
        invariant
            i <= group.len(),
            g == cand_views(group@),
            cand_views(listed@) == disc_order(g.take(i as int)),
        decreases group.len() - i,
    {
        proof {
            assert(g.take(i as int + 1).drop_last() =~= g.take(i as int));
            assert(g.take(i as int + 1).last() == g[i as int]);
        }
        insert_disc(&mut listed, dup_candidate(&group[i]));
        i += 1;
    }
    proof {
        assert(g.take(group.len() as int) =~= g);
    }
    let ghost o = cand_views(listed@);
    assert(o.len() == g.len()) by {
        lemma_disc_order_len(g);
    }
    // number them
    let mut used: Vec<i128> = Vec::new();
    let mut k: usize = 0;
    proof {
        assert(o.take(0) =~= Seq::<CandView>::empty());
        assert(used@.map_values(|y: i128| y as int) =~= Seq::<int>::empty());
    }
    while k < listed.len()
        invariant
            k <= listed.len(),
            o == cand_views(listed@),
            o.len() >= 2,
            used@.map_values(|y: i128| y as int) == disc_numbers(o.take(k as int)),
            used.len() == k,
            forall|j: int| 0 <= j < k ==> i64::MIN <= #[trigger] used@[j],
        decreases listed.len() - k,
    {
        let ghost prev = disc_numbers(o.take(k as int));
        proof {
            assert(o.take(k as int + 1).drop_last() =~= o.take(k as int));
            assert(o.take(k as int + 1).last() == o[k as int]);
        }
        let base: i128 = match candidate_disc_number(&listed[k]) {
            Some(n) => n as i128,
            None => (k + 1) as i128,
        };
        let mut n: i128 = base;
        let mut fuel: usize = used.len();
        while fuel > 0 && contains_i128(&used, n)
            invariant
                fuel <= used.len(),
                used.len() == k,
                k < o.len(),
                prev == used@.map_values(|y: i128| y as int),
                n == base + (used.len() - fuel),
                i64::MIN <= base <= u64::MAX,
                first_free(prev, base as int, prev.len()) == first_free(prev, n as int, fuel as nat),
            decreases fuel,
        {
            n = n + 1;
            fuel = fuel - 1;
        }
        proof {
            assert(first_free(prev, n as int, fuel as nat) == n as int);
        }
        let ghost before = used@;
        used.push(n);
        proof {
            assert(used@.map_values(|y: i128| y as int) =~= before.map_values(|y: i128| y as int).push(n as int));
        }
        k += 1;
    }
    proof {
        assert(o.take(listed.len() as int) =~= o);
    }
    let ghost ns = disc_numbers(o);
    assert(o == disc_order(g));
    // every number must fit the record
    let mut q: usize = 0;
    while q < used.len()
        invariant
            q <= used.len(),
            used@.map_values(|y: i128| y as int) == ns,
            ns == disc_numbers(o),
            o == disc_order(g),
            g == cand_views(group@),
            group.len() >= 2,
            forall|j: int| 0 <= j < q ==> ns[j] <= i64::MAX,
        decreases used.len() - q,
    {
        if used[q] > i64::MAX as i128 {
            proof {
                assert(ns[q as int] > i64::MAX);
                assert(o == disc_order(g));
                assert(exists|i: int| 0 <= i < ns.len() && ns[i] > i64::MAX);
                assert(set_entry(g) is None);
            }
            return None;
        }
        q += 1;
    }
    let mut discs: Vec<(i64, String, String)> = Vec::new();
    let mut d: usize = 0;
    while d < listed.len()
        invariant
            d <= listed.len(),
            o == cand_views(listed@),
            used@.map_values(|y: i128| y as int) == ns,
            ns == disc_numbers(o),
            o == disc_order(g),
            g == cand_views(group@),
            group.len() >= 2,
            used.len() == listed.len(),
            forall|j: int| 0 <= j < used.len() ==> ns[j] <= i64::MAX,
            forall|j: int| 0 <= j < used.len() ==> i64::MIN <= #[trigger] used@[j],
            disc_views(discs@) == disc_list(o, ns).take(d as int),
        decreases listed.len() - d,
    {
        assert(ns[d as int] == used@[d as int]);
        assert(i64::MIN <= used@[d as int]);
        let n: i64 = used[d] as i64;
        let mut label = chars_of("Disc ");
        if n < 0 {
            label.push('-');
            let m: u64 = ((-(n + 1)) as u64) + 1;
            crate::text::push_dec_u64(&mut label, m);
            proof {
                assert(m == -(n as int));
                assert(label@ =~= "Disc "@ + (seq!['-'] + crate::text::dec((-(n as int)) as nat)));
            }
        } else {
            crate::text::push_dec_u64(&mut label, n as u64);
        }
        proof {
            assert(label@ == "Disc "@ + crate::text::dec_signed(ns[d as int]));
            assert(n as int == ns[d as int]);
        }
        let ghost before = discs@;
        discs.push((n, string_of(&chars_of(listed[d].rom_path.as_str())), string_of(&label)));
        proof {
            assert(disc_views(discs@) =~= disc_views(before).push((n as int, o[d as int].2, label@)));
            assert(disc_list(o, ns)[d as int] == (ns[d as int], o[d as int].2, "Disc "@ + crate::text::dec_signed(ns[d as int])));
            assert(disc_views(discs@) =~= disc_list(o, ns).take(d as int + 1));
        }
        d += 1;
    }
    proof {
        assert(disc_list(o, ns).take(listed.len() as int) =~= disc_list(o, ns));
        assert(!(exists|i: int| 0 <= i < ns.len() && ns[i] > i64::MAX));
    }
    let first = &listed[0];
    Some(
        IndexEntry {
            title: base_title(first.title.as_str()),
            platform: string_of(&chars_of(first.platform.as_str())),
            rom_path: string_of(&chars_of(first.rom_path.as_str())),
            size: first.size,
            discs,
        },
    )
}

// ── walking a ROM source ───────────────────────────────────────────────────

/// Indexing reports progress about a hundred times: on every `total / 100`-th
/// game (every game when there are fewer than 200), and always on the last.
pub open spec fn progress_due_spec(indexed: int, total: int) -> bool {
    let step = if total / 100 > 1 {
        total / 100
    } else {
        1
    };
    indexed % step == 0 || indexed == total
}

/// The records of the disc sets, in order; `None` when one of them has a
/// disc number that would not fit an `i64`.
pub open spec fn planned_sets(groups: Seq<Seq<CandView>>) -> Option<Seq<EntryView>>
    decreases groups.len(),
{
    if groups.len() == 0 {
        Some(seq![])
    } else {
        match (planned_sets(groups.drop_last()), set_entry(groups.last())) {
            (Some(a), Some(e)) => Some(a.push(e)),
            _ => None,
        }
    }
}

/// What a scan indexes: every standalone game, in order, then one record per
/// disc set, in order.
pub open spec fn planned_index(singles: Seq<CandView>, groups: Seq<Seq<CandView>>) -> Option<Seq<EntryView>> {
    match planned_sets(groups) {
        Some(sets) => Some(singles.map_values(|c: CandView| single_entry(c)) + sets),
        None => None,
    }
}

pub open spec fn entry_views(v: Seq<IndexEntry>) -> Seq<EntryView> {
    v.map_values(|e: IndexEntry| entry_view(e))
}

/// The game records of a grouped scan: the standalone games first, then the
/// disc sets; `None` when a set's disc numbers overflow.
pub fn plan_index(singles: &Vec<Candidate>, groups: &Vec<Vec<Candidate>>) -> (r: Option<Vec<IndexEntry>>)
    requires
        forall|j: int| 0 <= j < groups.len() ==> (#[trigger] groups@[j]).len() > 0,
    ensures
        match r {
            Some(es) => planned_index(cand_views(singles@), group_views(groups@)) == Some(entry_views(es@)),
            None => planned_index(cand_views(singles@), group_views(groups@)) is None,
        },
{
    let ghost cs = cand_views(singles@);
    let ghost gs = group_views(groups@);
    let mut out: Vec<IndexEntry> = Vec::new();
    let mut i: usize = 0;
    while i < singles.len()
        invariant
            i <= singles.len(),
            cs == cand_views(singles@),
            entry_views(out@) == cs.take(i as int).map_values(|c: CandView| single_entry(c)),
        decreases singles.len() - i,
    {
        let e = plan_single(&singles[i]);
        let ghost before = entry_views(out@);
        out.push(e);
        proof {
            assert(entry_views(out@) =~= before.push(entry_view(e)));
            assert(cs[i as int] == singles@[i as int]@);
            assert(cs.take(i as int + 1).map_values(|c: CandView| single_entry(c)) =~= cs.take(i as int).map_values(
                |c: CandView| single_entry(c),
            ).push(single_entry(cs[i as int])));
        }
        i += 1;
    }
    proof {
        assert(cs.take(singles.len() as int) =~= cs);
    }
    let ghost head = entry_views(out@);
    let mut j: usize = 0;
    proof {
        assert(gs.take(0) =~= Seq::<Seq<CandView>>::empty());
        assert(planned_sets(gs.take(0)) == Some(Seq::<EntryView>::empty()));
        assert(entry_views(out@) =~= head + Seq::<EntryView>::empty());
    }
    while j < groups.len()
        invariant
            j <= groups.len(),
            gs == group_views(groups@),
            forall|k: int| 0 <= k < groups.len() ==> (#[trigger] groups@[k]).len() > 0,
            planned_sets(gs.take(j as int)) matches Some(done) && entry_views(out@) == head + done,
        decreases groups.len() - j,
    {
        let ghost done = planned_sets(gs.take(j as int))->0;
        proof {
            assert(gs.take(j as int + 1).drop_last() =~= gs.take(j as int));
            assert(gs.take(j as int + 1).last() == gs[j as int]);
            assert(gs[j as int] == cand_views(groups@[j as int]@));
        }
        match plan_disc_set(&groups[j]) {
            Some(e) => {
                let ghost before = entry_views(out@);
                out.push(e);
                proof {
                    assert(entry_views(out@) =~= before.push(entry_view(e)));
                    assert(planned_sets(gs.take(j as int + 1)) == Some(done.push(entry_view(e))));
                    assert(entry_views(out@) =~= head + done.push(entry_view(e)));
                }
            },
            None => {
                proof {
                    lemma_planned_sets_none(gs, j as int + 1);
                }
                return None;
            },
        }
        j += 1;
    }
    proof {
        assert(gs.take(groups.len() as int) =~= gs);
    }
    Some(out)
}

/// Once a prefix of the sets fails, the whole list fails.
proof fn lemma_planned_sets_none(gs: Seq<Seq<CandView>>, n: int)
    requires
        0 <= n <= gs.len(),
        planned_sets(gs.take(n)) is None,
    ensures
        planned_sets(gs) is None,
    decreases gs.len() - n,
{
    if n < gs.len() {
        assert(gs.take(n + 1).drop_last() =~= gs.take(n));
        lemma_planned_sets_none(gs, n + 1);
    } else {
        assert(gs.take(n) =~= gs);
    }
}

/// Whether indexing the `indexed`-th of `total` games reports progress.
pub fn progress_due(indexed: usize, total: usize) -> (b: bool)
    ensures
        b == progress_due_spec(indexed as int, total as int),
{
    let step = if total / 100 > 1 {
        total / 100
    } else {
        1
    };
    indexed % step == 0 || indexed == total
}

pub open spec fn is_absolute(p: Seq<char>) -> bool {
    p.len() > 0 && p[0] == '/'
}

/// `path` lies at or under `root`, comparing whole components as
/// `Path::starts_with` does.
pub open spec fn path_within(path: Seq<char>, root: Seq<char>) -> bool {
    &&& is_absolute(path) == is_absolute(root)
    &&& components(root).len() <= components(path).len()
    &&& components(path).take(components(root).len() as int) == components(root)
}

/// Whether `path` lies at or under `root`.
pub fn path_within_exec(path: &str, root: &str) -> (b: bool)
    ensures
        b == path_within(path@, root@),
{
    let p = chars_of(path);
    let r = chars_of(root);
    let pa = p.len() > 0 && p[0] == '/';
    let ra = r.len() > 0 && r[0] == '/';
    if pa != ra {
        return false;
    }
    let pc = components_vec(&p);
    let rc = components_vec(&r);
    proof {
        assert(crate::text::views(pc@).len() == pc@.len());
        assert(crate::text::views(rc@).len() == rc@.len());
    }
    if rc.len() > pc.len() {
        return false;
    }
    let ghost pv = components(path@);
    let ghost rv = components(root@);
    let mut i: usize = 0;
    while i < rc.len()
        invariant
            i <= rc.len(),
            rc.len() <= pc.len(),
            crate::text::views(pc@) == pv,
            crate::text::views(rc@) == rv,
            pv == components(path@),
            rv == components(root@),
            forall|j: int| 0 <= j < i ==> pv[j] == rv[j],
        decreases rc.len() - i,
    {
        if !eq_vec(&pc[i], &rc[i]) {
            proof {
                assert(pv.take(rv.len() as int)[i as int] != rv[i as int]);
            }
            return false;
        }
        i += 1;
    }
    proof {
        assert(pv.take(rv.len() as int) =~= rv);
    }
    true
}

/// What walking one ROM source has gathered: the report, the recognised
/// games, and the PS3 disc folders found so far (the files beneath one
/// belong to that game and are no games of their own).
pub struct SourceWalk {
    pub report: ScanReport,
    pub candidates: Vec<Candidate>,
    pub ps3_roots: Vec<String>,
}

/// Whether `path` lies in one of the recorded PS3 folders.
pub open spec fn in_ps3_folder(roots: Seq<String>, path: Seq<char>) -> bool {
    exists|i: int| 0 <= i < roots.len() && path_within(path, (#[trigger] roots[i])@)
}

/// The extension (ASCII-lowercased) and stem (empty when none) under which a
/// scanned file is classified; `None` when it has no extension.
pub open spec fn walk_key(path: Seq<char>) -> Option<(Seq<char>, Seq<char>)> {
    match extension(path) {
        Some(e) => Some((lower_str(e), rom_stem(path))),
        None => None,
    }
}

impl SourceWalk {
    pub fn new() -> (r: SourceWalk)
        ensures
            r.report == (ScanReport { scanned_files: 0, added: 0, skipped_existing: 0, unrecognized: 0, removed: 0 }),
            r.candidates@.len() == 0,
            r.ps3_roots@.len() == 0,
    {
        SourceWalk {
            report: ScanReport { scanned_files: 0, added: 0, skipped_existing: 0, unrecognized: 0, removed: 0 },
            candidates: Vec::new(),
            ps3_roots: Vec::new(),
        }
    }

    /// A directory holding `PS3_GAME/PARAM.SFO` is one PS3 game: titled by
    /// the SFO (else by the folder name), pointing at its `EBOOT.BIN` when
    /// that exists (with its size), else at the folder (size 0).
    pub fn add_ps3_folder(&mut self, dir: &str, sfo_title: Option<String>, eboot: Option<(String, i64)>)
        ensures
            final(self).report == old(self).report,
            final(self).ps3_roots@.len() == old(self).ps3_roots@.len() + 1,
            forall|i: int|
                0 <= i < old(self).ps3_roots@.len() ==> (#[trigger] final(self).ps3_roots@[i])@
                    == old(self).ps3_roots@[i]@,
            final(self).ps3_roots@.last()@ == dir@,
            cand_views(final(self).candidates@) == cand_views(old(self).candidates@).push(
                (
                    match sfo_title {
                        Some(t) => t@,
                        None => derive_title_spec(dir@),
                    },
                    "ps3"@,
                    match eboot {
                        Some(e) => e.0@,
                        None => dir@,
                    },
                    match eboot {
                        Some(e) => e.1,
                        None => 0,
                    },
                ),
            ),
    {
        let ghost roots0 = self.ps3_roots@;
        let ghost cands0 = cand_views(self.candidates@);
        self.ps3_roots.push(string_of(&chars_of(dir)));
        let title = match sfo_title {
            Some(t) => t,
            None => derive_title(dir),
        };
        let (rom_path, size) = match eboot {
            Some(e) => e,
            None => (string_of(&chars_of(dir)), 0i64),
        };
        let c = Candidate { title, platform: string_of(&chars_of("ps3")), rom_path, size };
        self.candidates.push(c);
        proof {
            assert(cand_views(self.candidates@) =~= cands0.push(c@));
            assert forall|i: int| 0 <= i < roots0.len() implies (#[trigger] self.ps3_roots@[i])@ == roots0[i]@ by {
                assert(self.ps3_roots@[i] == roots0[i]);
            }
        }
    }

    /// Counts a file the walk reached and says how to classify it: `None`
    /// when it lies in a PS3 folder (skipped) or has no extension (counted
    /// unrecognised), else its lowercased extension and its stem.
    pub fn file_seen(&mut self, path: &str) -> (r: Option<(String, String)>)
        requires
            old(self).report.scanned_files < usize::MAX,
            old(self).report.unrecognized < usize::MAX,
        ensures
            final(self).candidates@ == old(self).candidates@,
            final(self).ps3_roots@ == old(self).ps3_roots@,
            final(self).report == (ScanReport {
                scanned_files: (old(self).report.scanned_files + 1) as usize,
                unrecognized: if !in_ps3_folder(old(self).ps3_roots@, path@) && walk_key(path@) is None {
                    (old(self).report.unrecognized + 1) as usize
                } else {
                    old(self).report.unrecognized
                },
                ..old(self).report
            }),
            match r {
                Some(k) => !in_ps3_folder(old(self).ps3_roots@, path@) && walk_key(path@) == Some((k.0@, k.1@)),
                None => in_ps3_folder(old(self).ps3_roots@, path@) || walk_key(path@) is None,
            },
    {
        self.report.scanned_files = self.report.scanned_files + 1;
        let mut i: usize = 0;
        while i < self.ps3_roots.len()
            invariant
                i <= self.ps3_roots.len(),
                self.ps3_roots@ == old(self).ps3_roots@,
                self.candidates@ == old(self).candidates@,
                self.report == (ScanReport {
                    scanned_files: (old(self).report.scanned_files + 1) as usize,
                    ..old(self).report
                }),
                forall|j: int| 0 <= j < i ==> !path_within(path@, (#[trigger] self.ps3_roots@[j])@),
            decreases self.ps3_roots.len() - i,
        {
            if path_within_exec(path, self.ps3_roots[i].as_str()) {
                return None;
            }
            i += 1;
        }
        let p = chars_of(path);
        match extension_vec(&p) {
            None => {
                self.report.unrecognized = self.report.unrecognized + 1;
                None
            },
            Some(e) => {
                let stem = match file_stem_vec(&p) {
                    Some(s) => s,
                    None => Vec::new(),
                };
                Some((string_of(&lower_vec(&e)), string_of(&stem)))
            },
        }
    }

    /// Classifies a file by its extension, stem and what its content showed:
    /// a recognised ROM becomes a game, titled by what the content gave
    /// (else by its file name); anything else is counted unrecognised.
    pub fn add_file(&mut self, path: &str, stem: &str, ext: &str, probe: ContentProbe, size: i64)
        requires
            old(self).report.unrecognized < usize::MAX,
        ensures
            final(self).ps3_roots@ == old(self).ps3_roots@,
            match resolve_rom_spec(path@, stem@, ext@, probe) {
                Some(m) => {
                    &&& final(self).report == old(self).report
                    &&& cand_views(final(self).candidates@) == cand_views(old(self).candidates@).push(
                        (
                            match m.title {
                                Some(t) => t,
                                None => derive_title_spec(path@),
                            },
                            m.platform,
                            path@,
                            size,
                        ),
                    )
                },
                None => {
                    &&& final(self).candidates@ == old(self).candidates@
                    &&& final(self).report == (ScanReport {
                        unrecognized: (old(self).report.unrecognized + 1) as usize,
                        ..old(self).report
                    })
                },
            },
    {
        match resolve_rom(path, stem, ext, probe) {
            None => {
                self.report.unrecognized = self.report.unrecognized + 1;
            },
            Some(m) => {
                let ghost cands0 = cand_views(self.candidates@);
                let title = match m.title {
                    Some(t) => t,
                    None => derive_title(path),
                };
                let c = Candidate {
                    title,
                    platform: string_of(&chars_of(m.platform)),
                    rom_path: string_of(&chars_of(path)),
                    size,
                };
                self.candidates.push(c);
                proof {
                    assert(cand_views(self.candidates@) =~= cands0.push(c@));
                }
            },
        }
    }
}

// ── library edits ───────────────────────────────────────────────────────────

/// The SQL of a game listing: the profile's games, narrowed by platform,
/// favourites and a title search when asked, ordered by the chosen sort
/// (`recent`: last played first, never-played last; `playtime`: most played
/// first; else by sort title), capped by a non-negative limit.
pub open spec fn game_list_sql_spec(q: GameQuery) -> Seq<char> {
    let base = "SELECT * FROM games WHERE profile_id = ?"@;
    let p = if q.platform is Some {
        " AND platform = ?"@
    } else {
        seq![]
    };
    let f = if q.favorites_only == Some(true) {
        " AND favorite = 1"@
    } else {
        seq![]
    };
    let s = if q.search is Some {
        " AND sort_title LIKE ?"@
    } else {
        seq![]
    };
    let order = match q.sort {
        Some(o) => if o@ == "recent"@ {
            " ORDER BY last_played DESC NULLS LAST, sort_title"@
        } else if o@ == "playtime"@ {
            " ORDER BY playtime_minutes DESC, sort_title"@
        } else {
            " ORDER BY sort_title"@
        },
        None => " ORDER BY sort_title"@,
    };
    let limit = match q.limit {
        Some(n) => " LIMIT "@ + crate::text::dec_signed(if n > 0 {
            n as int
        } else {
            0
        }),
        None => seq![],
    };
    base + p + f + s + order + limit
}

/// The pattern a title search binds: the lowercased search text between
/// `%` wildcards.
pub open spec fn search_pattern_spec(search: Seq<char>) -> Seq<char> {
    "%"@ + unicode_lower(search) + "%"@
}

/// The SQL of a listing and the search pattern it binds, if any.
pub fn game_list_sql(q: &GameQuery) -> (r: (String, Option<String>))
    ensures
        r.0@ == game_list_sql_spec(*q),
        match q.search {
            Some(s) => r.1 is Some && r.1->0@ == search_pattern_spec(s@),
            None => r.1 is None,
        },
{
    let mut v = chars_of("SELECT * FROM games WHERE profile_id = ?");
    if q.platform.is_some() {
        crate::text::push_str(&mut v, " AND platform = ?");
    }
    let fav = match q.favorites_only {
        Some(b) => b,
        None => false,
    };
    if fav {
        crate::text::push_str(&mut v, " AND favorite = 1");
    }
    if q.search.is_some() {
        crate::text::push_str(&mut v, " AND sort_title LIKE ?");
    }
    let order = match &q.sort {
        Some(o) => {
            let oc = chars_of(o.as_str());
            if eq_str(&oc, "recent") {
                " ORDER BY last_played DESC NULLS LAST, sort_title"
            } else if eq_str(&oc, "playtime") {
                " ORDER BY playtime_minutes DESC, sort_title"
            } else {
                " ORDER BY sort_title"
            }
        },
        None => " ORDER BY sort_title",
    };
    crate::text::push_str(&mut v, order);
    match q.limit {
        Some(n) => {
            crate::text::push_str(&mut v, " LIMIT ");
            let m: i64 = if n > 0 {
                n
            } else {
                0
            };
            crate::text::push_dec_i64(&mut v, m);
        },
        None => {},
    }
    proof {
        assert(v@ =~= game_list_sql_spec(*q));
    }
    let pattern = match &q.search {
        Some(s) => {
            let mut p = chars_of("%");
            crate::text::push_all(&mut p, &chars_of(to_lowercase(s.as_str()).as_str()));
            crate::text::push_str(&mut p, "%");
            Some(string_of(&p))
        },
        None => None,
    };
    (string_of(&v), pattern)
}

/// A game whose file lies under a scanned source (the source folder itself
/// or a path inside it, compared by whole components) but that this scan did
/// not see is stale; games outside every scanned source are left alone.
pub open spec fn is_stale_spec(rom_path: Seq<char>, sources: Seq<Seq<char>>, seen: Seq<Seq<char>>) -> bool {
    (exists|i: int| 0 <= i < sources.len() && under_source_spec(rom_path, #[trigger] sources[i]))
        && !seen.contains(rom_path)
}

/// Whether a game row is to be pruned after a scan.
pub fn is_stale(rom_path: &str, sources: &Vec<String>, seen: &Vec<String>) -> (b: bool)
    ensures
        b == is_stale_spec(
            rom_path@,
            sources@.map_values(|s: String| s@),
            seen@.map_values(|s: String| s@),
        ),
{
    let rc = chars_of(rom_path);
    let ghost sv = sources@.map_values(|s: String| s@);
    let ghost nv = seen@.map_values(|s: String| s@);
    let mut under = false;
    let mut i: usize = 0;
    while i < sources.len() && !under
        invariant
            i <= sources.len(),
            rc@ == rom_path@,
            sv == sources@.map_values(|s: String| s@),
            under ==> exists|j: int| 0 <= j < sv.len() && under_source_spec(rom_path@, #[trigger] sv[j]),
            !under ==> forall|j: int| 0 <= j < i ==> !under_source_spec(rom_path@, #[trigger] sv[j]),
        decreases sources.len() - i,
    {
        if under_source(rom_path, sources[i].as_str()) {
            proof {
                assert(sv[i as int] == sources@[i as int]@);
            }
            under = true;
        }
        i += 1;
    }
    if !under {
        return false;
    }
    let mut k: usize = 0;
    while k < seen.len()
        invariant
            k <= seen.len(),
            rc@ == rom_path@,
            nv == seen@.map_values(|s: String| s@),
            sv == sources@.map_values(|s: String| s@),
            exists|j: int| 0 <= j < sv.len() && under_source_spec(rom_path@, #[trigger] sv[j]),
            forall|j: int| 0 <= j < k ==> nv[j] != rom_path@,
        decreases seen.len() - k,
    {
        if eq_vec(&chars_of(seen[k].as_str()), &rc) {
            proof {
                assert(nv[k as int] == rom_path@);
            }
            return false;
        }
        k += 1;
    }
    proof {
        assert(!nv.contains(rom_path@));
    }
    true
}

/// A game lies under a ROM source folder: it is the folder itself or its
/// path starts with the folder (trailing `/` ignored) followed by `/`.
pub open spec fn under_source_spec(rom_path: Seq<char>, source: Seq<char>) -> bool {
    rom_path == source || crate::text::starts_with(rom_path, trim_end_slashes(source) + "/"@)
}

/// `s` without trailing `/`.
pub open spec fn trim_end_slashes(s: Seq<char>) -> Seq<char>
    decreases s.len(),
{
    if s.len() > 0 && s.last() == '/' {
        trim_end_slashes(s.drop_last())
    } else {
        s
    }
}

/// Whether removing a ROM source removes this game.
pub fn under_source(rom_path: &str, source: &str) -> (b: bool)
    ensures
        b == under_source_spec(rom_path@, source@),
{
    let rc = chars_of(rom_path);
    let sc = chars_of(source);
    if eq_vec(&rc, &sc) {
        return true;
    }
    let mut n = sc.len();
    proof {
        assert(sc@.take(n as int) =~= sc@);
    }
    while n > 0 && sc[n - 1] == '/'
        invariant
            n <= sc.len(),
            sc@ == source@,
            trim_end_slashes(sc@.take(n as int)) == trim_end_slashes(source@),
        decreases n,
    {
        proof {
            assert(sc@.take(n as int).drop_last() =~= sc@.take(n as int - 1));
        }
        n -= 1;
    }
    let mut prefix = slice_of(&sc, 0, n);
    proof {
        assert(prefix@ =~= sc@.take(n as int));
        assert(trim_end_slashes(prefix@) == prefix@);
    }
    prefix.push('/');
    proof {
        reveal_strlit("/");
        assert(prefix@ =~= trim_end_slashes(source@) + "/"@);
    }
    crate::text::starts_with_vec(&rc, &prefix)
}

/// A custom title, trimmed, with its sort key; `None` (falling back to the
/// derived title) when it is absent or only white space.
pub fn custom_title(title: Option<&str>) -> (r: Option<(String, String)>)
    ensures
        match title {
            Some(t) => if trim(t@).len() > 0 {
                r is Some && r.unwrap().0@ == trim(t@) && r.unwrap().1@ == sort_key_spec(trim(t@))
            } else {
                r is None
            },
            None => r is None,
        },
{
    match title {
        Some(t) => {
            let name = trim_vec(&chars_of(t));
            if name.len() > 0 {
                let n = string_of(&name);
                let k = sort_key(n.as_str());
                Some((n, k))
            } else {
                None
            }
        },
        None => None,
    }
}

/// A profile or collection name, trimmed; `None` when only white space.
pub fn profile_name(name: &str) -> (r: Option<String>)
    ensures
        match r {
            Some(n) => trim(name@).len() > 0 && n@ == trim(name@),
            None => trim(name@).len() == 0,
        },
{
    let t = trim_vec(&chars_of(name));
    if t.len() > 0 {
        Some(string_of(&t))
    } else {
        None
    }
}

} // verus!
