//! Character-level text primitives shared by every config reader and writer:
//! trimming, line splitting, whitespace tokens, decimal parsing and printing.
//! Each exec helper is tied to a spec function that states the std behaviour
//! it reproduces (`str::trim`, `str::lines`, `str::split_whitespace`,
//! `u32::from_str`, decimal `Display`).
use vstd::prelude::*;
use vstd::utf8::{decode_utf8, valid_utf8};

verus! {

// ── spec model ──────────────────────────────────────────────────────────────

/// `char::is_whitespace`: the Unicode `White_Space` property.
pub open spec fn is_ws(c: char) -> bool {
    let n = c as u32;
    ||| 9 <= n <= 13
    ||| n == 32
    ||| n == 0x85
    ||| n == 0xa0
    ||| n == 0x1680
    ||| 0x2000 <= n <= 0x200a
    ||| n == 0x2028
    ||| n == 0x2029
    ||| n == 0x202f
    ||| n == 0x205f
    ||| n == 0x3000
}

/// An ASCII decimal digit.
pub open spec fn is_digit(c: char) -> bool {
    '0' <= c <= '9'
}

/// An ASCII hexadecimal digit (either case).
pub open spec fn is_hex_digit(c: char) -> bool {
    ||| '0' <= c <= '9'
    ||| 'a' <= c <= 'f'
    ||| 'A' <= c <= 'F'
}

pub open spec fn trim_start(s: Seq<char>) -> Seq<char>
    decreases s.len(),
{
    if s.len() > 0 && is_ws(s[0]) {
        trim_start(s.drop_first())
    } else {
        s
    }
}

pub open spec fn trim_end(s: Seq<char>) -> Seq<char>
    decreases s.len(),
{
    if s.len() > 0 && is_ws(s.last()) {
        trim_end(s.drop_last())
    } else {
        s
    }
}

/// `str::trim`.
pub open spec fn trim(s: Seq<char>) -> Seq<char> {
    trim_end(trim_start(s))
}

pub open spec fn starts_with(s: Seq<char>, p: Seq<char>) -> bool {
    p.len() <= s.len() && s.subrange(0, p.len() as int) == p
}

pub open spec fn ends_with(s: Seq<char>, p: Seq<char>) -> bool {
    p.len() <= s.len() && s.subrange(s.len() - p.len(), s.len() as int) == p
}

/// `str::strip_prefix`.
pub open spec fn strip_prefix(s: Seq<char>, p: Seq<char>) -> Option<Seq<char>> {
    if starts_with(s, p) {
        Some(s.skip(p.len() as int))
    } else {
        None
    }
}

/// `str::strip_suffix`.
pub open spec fn strip_suffix(s: Seq<char>, p: Seq<char>) -> Option<Seq<char>> {
    if ends_with(s, p) {
        Some(s.take(s.len() - p.len()))
    } else {
        None
    }
}

/// Index of the first `c` in `s`, or -1.
pub open spec fn find_char(s: Seq<char>, c: char) -> int
    decreases s.len(),
{
    if s.len() == 0 {
        -1
    } else if s[0] == c {
        0
    } else {
        let r = find_char(s.drop_first(), c);
        if r < 0 {
            -1
        } else {
            r + 1
        }
    }
}

/// `str::split_once(c)`.
pub open spec fn split_once(s: Seq<char>, c: char) -> Option<(Seq<char>, Seq<char>)> {
    let k = find_char(s, c);
    if k < 0 {
        None
    } else {
        Some((s.take(k), s.skip(k + 1)))
    }
}

/// `str::split(c).next()`: everything before the first `c`.
pub open spec fn before_char(s: Seq<char>, c: char) -> Seq<char> {
    let k = find_char(s, c);
    if k < 0 {
        s
    } else {
        s.take(k)
    }
}

pub open spec fn strip_cr(l: Seq<char>) -> Seq<char> {
    if l.len() > 0 && l.last() == '\r' {
        l.drop_last()
    } else {
        l
    }
}

/// `str::lines`: split on `\n`, drop a `\r` before each `\n`, no empty line
/// after a final `\n`.
pub open spec fn lines(s: Seq<char>) -> Seq<Seq<char>>
    decreases s.len(),
{
    if s.len() == 0 {
        seq![]
    } else {
        let k = find_char(s, '\n');
        if k < 0 {
            seq![s]
        } else {
            proof {
                lemma_find_char(s, '\n');
            }
            seq![strip_cr(s.take(k))] + lines(s.skip(k + 1))
        }
    }
}

/// `str::split('\n')`: the pieces between line feeds, each keeping any
/// `\r` it ends with; a final line feed leaves a final empty piece.
pub open spec fn segments(s: Seq<char>) -> Seq<Seq<char>>
    decreases s.len(),
{
    let k = find_char(s, '\n');
    if k < 0 {
        seq![s]
    } else {
        proof {
            lemma_find_char(s, '\n');
        }
        seq![s.take(k)] + segments(s.skip(k + 1))
    }
}

/// `[..].join("\n")`.
pub open spec fn join_lines(ls: Seq<Seq<char>>) -> Seq<char>
    decreases ls.len(),
{
    if ls.len() == 0 {
        seq![]
    } else if ls.len() == 1 {
        ls[0]
    } else {
        join_lines(ls.drop_last()) + seq!['\n'] + ls.last()
    }
}

/// Length of the maximal run of non-white-space at the front of `s`.
pub open spec fn word_len(s: Seq<char>) -> nat
    decreases s.len(),
{
    if s.len() == 0 || is_ws(s[0]) {
        0
    } else {
        1 + word_len(s.drop_first())
    }
}

/// `str::split_whitespace`.
pub open spec fn words(s: Seq<char>) -> Seq<Seq<char>>
    decreases s.len(),
{
    let t = trim_start(s);
    if t.len() == 0 {
        seq![]
    } else {
        proof {
            lemma_trim_start_len(s);
            lemma_word_len(t);
        }
        let n = word_len(t);
        seq![t.take(n as int)] + words(t.skip(n as int))
    }
}

pub open spec fn digit_val(c: char) -> nat {
    (c as u32 - '0' as u32) as nat
}

pub open spec fn all_digits(s: Seq<char>) -> bool {
    forall|i: int| 0 <= i < s.len() ==> is_digit(#[trigger] s[i])
}

/// The number an all-digit string denotes.
pub open spec fn digits_value(s: Seq<char>) -> nat
    decreases s.len(),
{
    if s.len() == 0 {
        0
    } else {
        digits_value(s.drop_last()) * 10 + digit_val(s.last())
    }
}

/// `u32::from_str`: an optional `+`, then one or more ASCII digits, in range.
pub open spec fn parse_u32(s: Seq<char>) -> Option<u32> {
    let d = if s.len() > 0 && s[0] == '+' {
        s.drop_first()
    } else {
        s
    };
    if d.len() == 0 || !all_digits(d) || digits_value(d) > u32::MAX {
        None
    } else {
        Some(digits_value(d) as u32)
    }
}


/// The value of a non-empty all-digit string, if it fits in a `u64`.
pub open spec fn parse_digits_u64(d: Seq<char>) -> Option<u64> {
    if d.len() == 0 || !all_digits(d) || digits_value(d) > u64::MAX {
        None
    } else {
        Some(digits_value(d) as u64)
    }
}

/// `i64::from_str`: an optional sign, then one or more ASCII digits, in range.
pub open spec fn parse_i64(s: Seq<char>) -> Option<i64> {
    if s.len() > 0 && s[0] == '-' {
        let d = s.drop_first();
        if d.len() == 0 || !all_digits(d) || digits_value(d) > 0x8000_0000_0000_0000 {
            None
        } else {
            Some((-(digits_value(d) as int)) as i64)
        }
    } else {
        let d = if s.len() > 0 && s[0] == '+' {
            s.drop_first()
        } else {
            s
        };
        if d.len() == 0 || !all_digits(d) || digits_value(d) > i64::MAX {
            None
        } else {
            Some(digits_value(d) as i64)
        }
    }
}

/// Index of the last `c` in `s`, or -1.
pub open spec fn rfind_char(s: Seq<char>, c: char) -> int
    decreases s.len(),
{
    if s.len() == 0 {
        -1
    } else if s.last() == c {
        s.len() - 1
    } else {
        rfind_char(s.drop_last(), c)
    }
}

/// `s[i..]` starts with `p`.
pub open spec fn occurs_at(s: Seq<char>, p: Seq<char>, i: int) -> bool {
    0 <= i && i + p.len() <= s.len() && s.subrange(i, i + p.len()) == p
}

/// Index of the first occurrence of `p` in `s` at or after `from`, or -1.
pub open spec fn find_sub_from(s: Seq<char>, p: Seq<char>, from: int) -> int
    decreases s.len() + 1 - from,
{
    if from < 0 || from > s.len() || from + p.len() > s.len() {
        -1
    } else if occurs_at(s, p, from) {
        from
    } else {
        find_sub_from(s, p, from + 1)
    }
}

/// Index of the last occurrence of `p` in `s` that starts at or before `upto`,
/// or -1.
pub open spec fn rfind_sub_upto(s: Seq<char>, p: Seq<char>, upto: int) -> int
    decreases upto + 1,
{
    if upto < 0 {
        -1
    } else if occurs_at(s, p, upto) {
        upto
    } else {
        rfind_sub_upto(s, p, upto - 1)
    }
}

/// `str::rfind(p)`.
pub open spec fn rfind_sub(s: Seq<char>, p: Seq<char>) -> int {
    rfind_sub_upto(s, p, s.len() - p.len())
}

/// `str::split_once(p)` for a string pattern.
pub open spec fn split_once_str(s: Seq<char>, p: Seq<char>) -> Option<(Seq<char>, Seq<char>)> {
    let k = find_sub_from(s, p, 0);
    if k < 0 {
        None
    } else {
        Some((s.take(k), s.skip(k + p.len())))
    }
}

/// `str::rsplit(c).next()`: everything after the last `c` (all of `s` if none).
pub open spec fn after_last(s: Seq<char>, c: char) -> Seq<char> {
    s.skip(rfind_char(s, c) + 1)
}

/// `str::rsplit_once(c)`.
pub open spec fn rsplit_once(s: Seq<char>, c: char) -> Option<(Seq<char>, Seq<char>)> {
    let k = rfind_char(s, c);
    if k < 0 {
        None
    } else {
        Some((s.take(k), s.skip(k + 1)))
    }
}

pub open spec fn digit_char(d: nat) -> char {
    ((d + '0' as u32) as u32) as char
}

/// Decimal `Display` of a natural number.
pub open spec fn dec(n: nat) -> Seq<char>
    decreases n,
{
    if n < 10 {
        seq![digit_char(n)]
    } else {
        dec(n / 10).push(digit_char(n % 10))
    }
}

/// Decimal `Display` of a signed number.
pub open spec fn dec_signed(n: int) -> Seq<char> {
    if n < 0 {
        seq!['-'] + dec((-n) as nat)
    } else {
        dec(n as nat)
    }
}

/// Index of the first line at or after `from` that satisfies `p`, or the
/// number of lines if there is none.
pub open spec fn first_from(ls: Seq<Seq<char>>, from: int, p: spec_fn(Seq<char>) -> bool) -> int
    decreases ls.len() - from,
{
    if from < 0 || from >= ls.len() {
        ls.len() as int
    } else if p(ls[from]) {
        from
    } else {
        first_from(ls, from + 1, p)
    }
}

/// Text that ends with a line feed.
pub open spec fn ends_in_newline(s: Seq<char>) -> bool {
    s.len() > 0 && s.last() == '\n'
}

pub open spec fn views(v: Seq<Vec<char>>) -> Seq<Seq<char>> {
    v.map_values(|x: Vec<char>| x@)
}

// ── lemmas ──────────────────────────────────────────────────────────────────

pub proof fn lemma_first_from(ls: Seq<Seq<char>>, from: int, p: spec_fn(Seq<char>) -> bool)
    requires
        0 <= from <= ls.len(),
    ensures
        from <= first_from(ls, from, p) <= ls.len(),
        first_from(ls, from, p) < ls.len() ==> p(ls[first_from(ls, from, p)]),
        forall|i: int| from <= i < first_from(ls, from, p) ==> !p(#[trigger] ls[i]),
    decreases ls.len() - from,
{
    if from < ls.len() && !p(ls[from]) {
        lemma_first_from(ls, from + 1, p);
    }
}

pub proof fn lemma_rfind_sub_upto_at(s: Seq<char>, p: Seq<char>, upto: int, k: int)
    requires
        0 <= k <= upto,
        occurs_at(s, p, k),
        forall|j: int| k < j <= upto ==> !occurs_at(s, p, j),
    ensures
        rfind_sub_upto(s, p, upto) == k,
    decreases upto - k,
{
    if upto > k {
        lemma_rfind_sub_upto_at(s, p, upto - 1, k);
    }
}

pub proof fn lemma_find_char(s: Seq<char>, c: char)
    ensures
        -1 <= find_char(s, c) < s.len(),
        find_char(s, c) >= 0 ==> s[find_char(s, c)] == c,
        forall|i: int| 0 <= i < find_char(s, c) ==> s[i] != c,
        find_char(s, c) < 0 ==> forall|i: int| 0 <= i < s.len() ==> s[i] != c,
    decreases s.len(),
{
    if s.len() > 0 && s[0] != c {
        lemma_find_char(s.drop_first(), c);
        assert forall|i: int| 0 < i < s.len() implies s[i] == s.drop_first()[i - 1] by {}
    }
}

pub proof fn lemma_find_char_at(s: Seq<char>, c: char, k: int)
    requires
        0 <= k <= s.len(),
        k < s.len() ==> s[k] == c,
        forall|i: int| 0 <= i < k ==> s[i] != c,
    ensures
        find_char(s, c) == (if k < s.len() { k } else { -1 }),
    decreases k,
{
    if k > 0 {
        lemma_find_char_at(s.drop_first(), c, k - 1);
    }
}

pub proof fn lemma_trim_start_len(s: Seq<char>)
    ensures
        trim_start(s).len() <= s.len(),
        trim_start(s).len() > 0 ==> !is_ws(trim_start(s)[0]),
        trim_start(s) == s.skip(s.len() - trim_start(s).len()),
    decreases s.len(),
{
    if s.len() > 0 && is_ws(s[0]) {
        lemma_trim_start_len(s.drop_first());
        assert(s.drop_first().skip(s.drop_first().len() - trim_start(s).len()) =~= s.skip(
            s.len() - trim_start(s).len(),
        ));
    } else {
        assert(s.skip(0) =~= s);
    }
}

/// A text that neither starts nor ends with white space is its own trim.
pub proof fn lemma_trim_plain(s: Seq<char>)
    requires
        s.len() > 0,
        !is_ws(s[0]),
        !is_ws(s.last()),
    ensures
        trim(s) == s,
{
    assert(trim_start(s) == s);
    assert(trim_end(s) == s);
}

/// `trim_end` keeps a prefix, which does not end in white space.
pub proof fn lemma_trim_end_prefix(s: Seq<char>)
    ensures
        trim_end(s).len() <= s.len(),
        trim_end(s) == s.take(trim_end(s).len() as int),
        trim_end(s).len() > 0 ==> !is_ws(trim_end(s).last()),
    decreases s.len(),
{
    if s.len() > 0 && is_ws(s.last()) {
        lemma_trim_end_prefix(s.drop_last());
        assert(s.drop_last().take(trim_end(s).len() as int) =~= s.take(trim_end(s).len() as int));
    } else {
        assert(s.take(s.len() as int) =~= s);
    }
}

/// A trimmed text that is not empty starts and ends with a non-blank.
pub proof fn lemma_trim_ends(s: Seq<char>)
    ensures
        trim(s).len() > 0 ==> !is_ws(trim(s)[0]) && !is_ws(trim(s).last()),
{
    lemma_trim_start_len(s);
    lemma_trim_end_prefix(trim_start(s));
    if trim(s).len() > 0 {
        assert(trim(s)[0] == trim_start(s)[0]);
    }
}

/// A trimmed text is its own trim, and holds only characters of the text.
pub proof fn lemma_trim_clean(s: Seq<char>)
    ensures
        trim(trim(s)) == trim(s),
        forall|c: char| !s.contains(c) ==> !trim(s).contains(c),
{
    lemma_trim_start_len(s);
    lemma_trim_end_prefix(trim_start(s));
    lemma_trim_ends(s);
    if trim(s).len() > 0 {
        lemma_trim_plain(trim(s));
    } else {
        assert(trim_start(trim(s)) == trim(s));
        assert(trim_end(trim(s)) == trim(s));
    }
    let k = s.len() - trim_start(s).len();
    assert forall|c: char| !s.contains(c) implies !trim(s).contains(c) by {
        if trim(s).contains(c) {
            let j = choose|j: int| 0 <= j < trim(s).len() && trim(s)[j] == c;
            assert(trim(s)[j] == trim_start(s)[j]);
            assert(trim_start(s)[j] == s[k + j]);
        }
    }
}

/// `[..].join("\n")` splits off its first element.
pub proof fn lemma_join_front(ls: Seq<Seq<char>>)
    requires
        ls.len() >= 2,
    ensures
        join_lines(ls) == ls[0] + seq!['\n'] + join_lines(ls.drop_first()),
    decreases ls.len(),
{
    if ls.len() == 2 {
        assert(ls.drop_last().len() == 1);
        assert(ls.drop_first().len() == 1);
        assert(join_lines(ls.drop_last()) == ls[0]);
        assert(join_lines(ls.drop_first()) == ls[1]);
    } else {
        lemma_join_front(ls.drop_last());
        assert(ls.drop_last().drop_first() =~= ls.drop_first().drop_last());
        assert(ls.drop_first().last() == ls.last());
        assert(join_lines(ls.drop_first()) == join_lines(ls.drop_first().drop_last()) + seq!['\n']
            + ls.drop_first().last());
        assert(join_lines(ls) =~= ls[0] + seq!['\n'] + join_lines(ls.drop_first()));
    }
}

/// The first index from which a predicate holds, when it holds there and
/// nowhere between.
pub proof fn lemma_first_from_at(ls: Seq<Seq<char>>, from: int, p: spec_fn(Seq<char>) -> bool, k: int)
    requires
        0 <= from <= k <= ls.len(),
        k < ls.len() ==> p(ls[k]),
        forall|i: int| from <= i < k ==> !p(#[trigger] ls[i]),
    ensures
        first_from(ls, from, p) == k,
    decreases k - from,
{
    if from < k {
        lemma_first_from_at(ls, from + 1, p, k);
    }
}

/// What `trim_start` drops is white space.
pub proof fn lemma_trim_start_drops_ws(s: Seq<char>)
    ensures
        trim_start(s).len() <= s.len(),
        forall|i: int| 0 <= i < s.len() - trim_start(s).len() ==> is_ws(#[trigger] s[i]),
    decreases s.len(),
{
    if s.len() > 0 && is_ws(s[0]) {
        lemma_trim_start_drops_ws(s.drop_first());
        assert forall|i: int| 0 <= i < s.len() - trim_start(s).len() implies is_ws(#[trigger] s[i]) by {
            if i > 0 {
                assert(s[i] == s.drop_first()[i - 1]);
            }
        }
    }
}

/// White space in front of a text is trimmed away with the text's own.
pub proof fn lemma_trim_start_ws_prefix(w: Seq<char>, x: Seq<char>)
    requires
        forall|i: int| 0 <= i < w.len() ==> is_ws(#[trigger] w[i]),
    ensures
        trim_start(w + x) == trim_start(x),
    decreases w.len(),
{
    if w.len() > 0 {
        assert((w + x).drop_first() =~= w.drop_first() + x);
        lemma_trim_start_ws_prefix(w.drop_first(), x);
    } else {
        assert(w + x =~= x);
    }
}

/// A text has at least one piece, none holding a line feed.
pub proof fn lemma_segments_shape(s: Seq<char>)
    ensures
        segments(s).len() >= 1,
        forall|i: int, j: int|
            0 <= i < segments(s).len() && 0 <= j < segments(s)[i].len() ==> #[trigger] segments(s)[i][j] != '\n',
    decreases s.len(),
{
    let k = find_char(s, '\n');
    lemma_find_char(s, '\n');
    if k >= 0 {
        lemma_segments_shape(s.skip(k + 1));
        let rest = segments(s.skip(k + 1));
        assert(segments(s) == seq![s.take(k)] + rest);
        assert forall|i: int, j: int|
            0 <= i < segments(s).len() && 0 <= j < segments(s)[i].len() implies #[trigger] segments(s)[i][j] != '\n' by {
            if i == 0 {
                assert(segments(s)[i] == s.take(k));
            } else {
                assert(segments(s)[i] == rest[i - 1]);
            }
        }
    }
}

/// Joining a text's pieces with line feeds gives the text back.
pub proof fn lemma_segments_join(s: Seq<char>)
    ensures
        join_lines(segments(s)) == s,
    decreases s.len(),
{
    let k = find_char(s, '\n');
    lemma_find_char(s, '\n');
    if k >= 0 {
        let rest = s.skip(k + 1);
        lemma_segments_join(rest);
        lemma_segments_shape(rest);
        let ss = segments(s);
        assert(ss == seq![s.take(k)] + segments(rest));
        assert(ss.drop_first() =~= segments(rest));
        if ss.len() >= 2 {
            lemma_join_front(ss);
        }
        assert(s =~= s.take(k) + seq!['\n'] + rest);
    }
}

/// Splitting lines joined with line feeds gives the lines back, when none
/// holds a line feed.
pub proof fn lemma_segments_of_join(ls: Seq<Seq<char>>)
    requires
        ls.len() > 0,
        forall|i: int, j: int| 0 <= i < ls.len() && 0 <= j < ls[i].len() ==> #[trigger] ls[i][j] != '\n',
    ensures
        segments(join_lines(ls)) == ls,
    decreases ls.len(),
{
    let s = join_lines(ls);
    let k = ls[0].len() as int;
    if ls.len() == 1 {
        assert(s == ls[0]);
        assert forall|i: int| 0 <= i < s.len() implies s[i] != '\n' by {
            assert(ls[0][i] != '\n');
        }
        lemma_find_char_at(s, '\n', s.len() as int);
        assert(segments(s) =~= ls);
    } else {
        let rest = ls.drop_first();
        lemma_join_front(ls);
        assert forall|i: int| 0 <= i < k implies s[i] != '\n' by {
            assert(s[i] == ls[0][i]);
        }
        lemma_find_char_at(s, '\n', k);
        assert(s.take(k) =~= ls[0]);
        assert(s.skip(k + 1) =~= join_lines(rest));
        assert forall|i: int, j: int| 0 <= i < rest.len() && 0 <= j < rest[i].len() implies #[trigger] rest[i][j]
            != '\n' by {
            assert(rest[i] == ls[i + 1]);
        }
        lemma_segments_of_join(rest);
        assert(segments(s) =~= seq![ls[0]] + rest);
        assert(segments(s) =~= ls);
    }
}

pub proof fn lemma_word_len(s: Seq<char>)
    ensures
        word_len(s) <= s.len(),
        s.len() > 0 && !is_ws(s[0]) ==> word_len(s) > 0,
        forall|i: int| 0 <= i < word_len(s) ==> !is_ws(#[trigger] s[i]),
        word_len(s) < s.len() ==> is_ws(s[word_len(s) as int]),
    decreases s.len(),
{
    if s.len() > 0 && !is_ws(s[0]) {
        lemma_word_len(s.drop_first());
        assert forall|i: int| 0 < i < s.len() implies s[i] == s.drop_first()[i - 1] by {}
    }
}

pub proof fn lemma_word_len_at(s: Seq<char>, k: int)
    requires
        0 <= k <= s.len(),
        k < s.len() ==> is_ws(s[k]),
        forall|i: int| 0 <= i < k ==> !is_ws(s[i]),
    ensures
        word_len(s) == k,
    decreases k,
{
    if k > 0 {
        lemma_word_len_at(s.drop_first(), k - 1);
    }
}

pub proof fn lemma_digits_value_prefix(s: Seq<char>, i: int)
    requires
        0 <= i <= s.len(),
    ensures
        digits_value(s.take(i)) <= digits_value(s),
    decreases s.len() - i,
{
    if i < s.len() {
        lemma_digits_value_prefix(s, i + 1);
        assert(s.take(i + 1).drop_last() =~= s.take(i));
    } else {
        assert(s.take(i) =~= s);
    }
}

/// Different numbers have different decimal forms.
pub proof fn lemma_dec_injective(n: nat, m: nat)
    requires
        dec(n) == dec(m),
    ensures
        n == m,
    decreases n,
{
    if n >= 10 {
        lemma_dec_len(n / 10);
    }
    if m >= 10 {
        lemma_dec_len(m / 10);
    }
    if n < 10 && m < 10 {
        assert(dec(n)[0] == dec(m)[0]);
        assert(digit_char(n) as u32 == n + 48);
        assert(digit_char(m) as u32 == m + 48);
        assert(dec(n)[0] == digit_char(n));
        assert(dec(m)[0] == digit_char(m));
        assert(n == m);
    } else if n >= 10 && m >= 10 {
        assert(dec(n) == dec(n / 10).push(digit_char(n % 10)));
        assert(dec(m) == dec(m / 10).push(digit_char(m % 10)));
        assert(dec(n).last() == digit_char(n % 10));
        assert(dec(m).last() == digit_char(m % 10));
        assert(digit_char(n % 10) == digit_char(m % 10));
        assert(digit_char(n % 10) as u32 == n % 10 + 48);
        assert(digit_char(m % 10) as u32 == m % 10 + 48);
        assert(dec(n).drop_last() =~= dec(n / 10));
        assert(dec(m).drop_last() =~= dec(m / 10));
        lemma_dec_injective(n / 10, m / 10);
        assert(n % 10 == m % 10);
        assert(n == 10 * (n / 10) + n % 10);
        assert(m == 10 * (m / 10) + m % 10);
        assert(n == m);
    } else if n < 10 {
        assert(dec(n).len() == 1);
        assert(dec(m).len() == dec(m / 10).len() + 1);
    } else {
        assert(dec(m).len() == 1);
        assert(dec(n).len() == dec(n / 10).len() + 1);
    }
}

pub proof fn lemma_dec_len(n: nat)
    ensures
        dec(n).len() >= 1,
    decreases n,
{
    if n >= 10 {
        lemma_dec_len(n / 10);
    }
}

// ── std bridges ─────────────────────────────────────────────────────────────

/// The characters of `s`, in order.
pub fn chars_of(s: &str) -> (r: Vec<char>)
    ensures
        r@ == s@,
{
    broadcast use vstd::string::group_string_axioms;
    let mut out: Vec<char> = Vec::new();
    for c in it: s.chars()
        invariant
            it.seq() == s@,
            out@ == s@.take(it.index()),
    {
        proof {
            assert(out@.push(c) =~= it.seq().take(it.index() + 1));
        }
        out.push(c);
    }
    assert(out@ =~= s@);
    out
}

/// `String: FromIterator<&char>`: the string made of the characters of `v`, in
/// order. The contract claims the resulting string's view is `v`'s view.
#[verifier::external_body]
pub fn string_of(v: &Vec<char>) -> (r: String)
    ensures
        r@ == v@,
{
    v.iter().collect()
}

// ── exec helpers ────────────────────────────────────────────────────────────

pub fn is_ws_char(c: char) -> (b: bool)
    ensures
        b == is_ws(c),
{
    let n = c as u32;
    (9 <= n && n <= 13) || n == 32 || n == 0x85 || n == 0xa0 || n == 0x1680 || (0x2000 <= n && n
        <= 0x200a) || n == 0x2028 || n == 0x2029 || n == 0x202f || n == 0x205f || n == 0x3000
}

/// A copy of `s[lo..hi]`.
pub fn slice_of(s: &Vec<char>, lo: usize, hi: usize) -> (r: Vec<char>)
    requires
        lo <= hi <= s.len(),
    ensures
        r@ == s@.subrange(lo as int, hi as int),
{
    let mut r: Vec<char> = Vec::new();
    let mut i: usize = lo;
    while i < hi
        invariant
            lo <= i <= hi <= s.len(),
            r@ == s@.subrange(lo as int, i as int),
        decreases hi - i,
    {
        r.push(s[i]);
        i += 1;
        proof {
            assert(r@ =~= s@.subrange(lo as int, i as int));
        }
    }
    r
}

/// Append `t` to `out`.
pub fn push_all(out: &mut Vec<char>, t: &Vec<char>)
    ensures
        final(out)@ == old(out)@ + t@,
{
    let ghost o = out@;
    let mut i: usize = 0;
    while i < t.len()
        invariant
            i <= t.len(),
            out@ == o + t@.take(i as int),
        decreases t.len() - i,
    {
        out.push(t[i]);
        i += 1;
        proof {
            assert(out@ =~= o + t@.take(i as int));
        }
    }
    proof {
        assert(t@.take(t.len() as int) =~= t@);
    }
}

/// Append the characters of a string slice to `out`.
pub fn push_str(out: &mut Vec<char>, s: &str)
    ensures
        final(out)@ == old(out)@ + s@,
{
    let cs = chars_of(s);
    push_all(out, &cs);
}

/// Whether `s` spells exactly `t`.
pub fn eq_vec(s: &Vec<char>, t: &Vec<char>) -> (b: bool)
    ensures
        b == (s@ == t@),
{
    if s.len() != t.len() {
        return false;
    }
    let mut i: usize = 0;
    while i < s.len()
        invariant
            s.len() == t.len(),
            i <= s.len(),
            forall|j: int| 0 <= j < i ==> s@[j] == t@[j],
        decreases s.len() - i,
    {
        if s[i] != t[i] {
            return false;
        }
        i += 1;
    }
    proof {
        assert(s@ =~= t@);
    }
    true
}

/// Whether `s` spells exactly the literal `lit`.
pub fn eq_str(s: &Vec<char>, lit: &str) -> (b: bool)
    ensures
        b == (s@ == lit@),
{
    let t = chars_of(lit);
    eq_vec(s, &t)
}

/// Whether `p` is a prefix of `s` starting at position `at`.
pub fn matches_at(s: &Vec<char>, at: usize, p: &Vec<char>) -> (b: bool)
    requires
        at <= s.len(),
    ensures
        b == (at + p.len() <= s.len() && s@.subrange(at as int, at + p.len()) == p@),
{
    if p.len() > s.len() - at {
        return false;
    }
    let mut i: usize = 0;
    while i < p.len()
        invariant
            at + p.len() <= s.len(),
            i <= p.len(),
            forall|j: int| 0 <= j < i ==> s@[at + j] == p@[j],
        decreases p.len() - i,
    {
        if s[at + i] != p[i] {
            proof {
                assert(s@.subrange(at as int, at + p.len())[i as int] != p@[i as int]);
            }
            return false;
        }
        i += 1;
    }
    proof {
        assert(s@.subrange(at as int, at + p.len()) =~= p@);
    }
    true
}

pub fn starts_with_vec(s: &Vec<char>, p: &Vec<char>) -> (b: bool)
    ensures
        b == starts_with(s@, p@),
{
    matches_at(s, 0, p)
}

pub fn starts_with_str(s: &Vec<char>, p: &str) -> (b: bool)
    ensures
        b == starts_with(s@, p@),
{
    let t = chars_of(p);
    matches_at(s, 0, &t)
}

pub fn ends_with_str(s: &Vec<char>, p: &str) -> (b: bool)
    ensures
        b == ends_with(s@, p@),
{
    let t = chars_of(p);
    if t.len() > s.len() {
        return false;
    }
    matches_at(s, s.len() - t.len(), &t)
}

pub fn strip_prefix_str(s: &Vec<char>, p: &str) -> (r: Option<Vec<char>>)
    ensures
        match r {
            Some(v) => strip_prefix(s@, p@) == Some(v@),
            None => strip_prefix(s@, p@) is None,
        },
{
    let t = chars_of(p);
    if matches_at(s, 0, &t) {
        Some(slice_of(s, t.len(), s.len()))
    } else {
        None
    }
}

pub fn strip_suffix_str(s: &Vec<char>, p: &str) -> (r: Option<Vec<char>>)
    ensures
        match r {
            Some(v) => strip_suffix(s@, p@) == Some(v@),
            None => strip_suffix(s@, p@) is None,
        },
{
    let t = chars_of(p);
    if t.len() > s.len() {
        return None;
    }
    if matches_at(s, s.len() - t.len(), &t) {
        Some(slice_of(s, 0, s.len() - t.len()))
    } else {
        None
    }
}

/// Index of the first `c` in `s` at or after `from`, if any.
pub fn find_from(s: &Vec<char>, c: char, from: usize) -> (r: Option<usize>)
    requires
        from <= s.len(),
    ensures
        match r {
            Some(k) => from <= k < s.len() && s@[k as int] == c && forall|i: int|
                from <= i < k ==> s@[i] != c,
            None => forall|i: int| from <= i < s.len() ==> s@[i] != c,
        },
{
    let mut i = from;
    while i < s.len()
        invariant
            from <= i <= s.len(),
            forall|j: int| from <= j < i ==> s@[j] != c,
        decreases s.len() - i,
    {
        if s[i] == c {
            return Some(i);
        }
        i += 1;
    }
    None
}

/// `str::find(c)` for a single character, as the spec's index.
pub fn find_char_vec(s: &Vec<char>, c: char) -> (r: Option<usize>)
    ensures
        match r {
            Some(k) => find_char(s@, c) == k && k < s@.len(),
            None => find_char(s@, c) == -1,
        },
{
    let r = find_from(s, c, 0);
    proof {
        match r {
            Some(k) => lemma_find_char_at(s@, c, k as int),
            None => lemma_find_char_at(s@, c, s@.len() as int),
        }
    }
    r
}

/// `str::split_once(c)`.
pub fn split_once_vec(s: &Vec<char>, c: char) -> (r: Option<(Vec<char>, Vec<char>)>)
    ensures
        match r {
            Some((a, b)) => split_once(s@, c) == Some((a@, b@)),
            None => split_once(s@, c) is None,
        },
{
    match find_char_vec(s, c) {
        Some(k) => {
            assert(k < s.len());
            Some((slice_of(s, 0, k), slice_of(s, k + 1, s.len())))
        },
        None => None,
    }
}

/// `str::split(c).next()`.
pub fn before_char_vec(s: &Vec<char>, c: char) -> (r: Vec<char>)
    ensures
        r@ == before_char(s@, c),
{
    match find_char_vec(s, c) {
        Some(k) => slice_of(s, 0, k),
        None => slice_of(s, 0, s.len()),
    }
}

/// Position of the first non-white-space character at or after `from`.
fn skip_ws(s: &Vec<char>, from: usize) -> (r: usize)
    requires
        from <= s.len(),
    ensures
        from <= r <= s.len(),
        trim_start(s@.skip(from as int)) == s@.skip(r as int),
{
    let mut i = from;
    while i < s.len() && is_ws_char(s[i])
        invariant
            from <= i <= s.len(),
            trim_start(s@.skip(from as int)) == trim_start(s@.skip(i as int)),
        decreases s.len() - i,
    {
        proof {
            assert(s@.skip(i as int).drop_first() =~= s@.skip(i + 1));
        }
        i += 1;
    }
    i
}

/// `str::trim_start`.
pub fn trim_start_vec(s: &Vec<char>) -> (r: Vec<char>)
    ensures
        r@ == trim_start(s@),
{
    let lo = skip_ws(s, 0);
    proof {
        assert(s@.skip(0) =~= s@);
    }
    slice_of(s, lo, s.len())
}

/// `str::trim`.
pub fn trim_vec(s: &Vec<char>) -> (r: Vec<char>)
    ensures
        r@ == trim(s@),
{
    let lo = skip_ws(s, 0);
    proof {
        assert(s@.skip(0) =~= s@);
        assert(s@.skip(lo as int) =~= s@.subrange(lo as int, s.len() as int));
    }
    let mut hi = s.len();
    while hi > lo && is_ws_char(s[hi - 1])
        invariant
            lo <= hi <= s.len(),
            trim(s@) == trim_end(s@.subrange(lo as int, hi as int)),
        decreases hi,
    {
        proof {
            assert(s@.subrange(lo as int, hi as int).drop_last() =~= s@.subrange(
                lo as int,
                hi - 1,
            ));
        }
        hi -= 1;
    }
    slice_of(s, lo, hi)
}

/// `strip_cr` of a vector.
pub fn strip_cr_vec(l: &Vec<char>) -> (r: Vec<char>)
    ensures
        r@ == strip_cr(l@),
{
    if l.len() > 0 && l[l.len() - 1] == '\r' {
        slice_of(l, 0, l.len() - 1)
    } else {
        slice_of(l, 0, l.len())
    }
}

/// `str::split('\n')`, each piece as its own vector.
pub fn segments_vec(s: &Vec<char>) -> (r: Vec<Vec<char>>)
    ensures
        views(r@) == segments(s@),
{
    let mut out: Vec<Vec<char>> = Vec::new();
    let mut pos: usize = 0;
    proof {
        assert(s@.skip(0) =~= s@);
        assert(views(out@) =~= Seq::<Seq<char>>::empty());
    }
    loop
        invariant
            pos <= s.len(),
            segments(s@) == views(out@) + segments(s@.skip(pos as int)),
        decreases s.len() - pos,
    {
        let ghost rest = s@.skip(pos as int);
        match find_from(s, '\n', pos) {
            Some(k) => {
                let piece = slice_of(s, pos, k);
                proof {
                    lemma_find_char_at(rest, '\n', k - pos);
                    assert(rest.take(k - pos) =~= piece@);
                    assert(rest.skip(k - pos + 1) =~= s@.skip(k + 1));
                    assert(segments(rest) == seq![piece@] + segments(s@.skip(k + 1)));
                }
                let ghost before = views(out@);
                out.push(piece);
                proof {
                    assert(views(out@) =~= before.push(piece@));
                    assert(views(out@) + segments(s@.skip(k + 1)) =~= before + segments(rest));
                }
                pos = k + 1;
            },
            None => {
                let piece = slice_of(s, pos, s.len());
                proof {
                    lemma_find_char_at(rest, '\n', rest.len() as int);
                    assert(rest =~= piece@);
                }
                let ghost before = views(out@);
                out.push(piece);
                proof {
                    assert(views(out@) =~= before.push(piece@));
                    assert(views(out@) =~= before + segments(rest));
                }
                return out;
            },
        }
    }
}

/// `str::lines`, each line as its own vector.
pub fn lines_vec(s: &Vec<char>) -> (r: Vec<Vec<char>>)
    ensures
        views(r@) == lines(s@),
{
    let mut out: Vec<Vec<char>> = Vec::new();
    let mut start: usize = 0;
    proof {
        assert(s@.skip(0) =~= s@);
    }
    while start < s.len()
        invariant
            start <= s.len(),
            lines(s@) == views(out@) + lines(s@.skip(start as int)),
        decreases s.len() - start,
    {
        let ghost t = s@.skip(start as int);
        match find_from(s, '\n', start) {
            Some(k) => {
                proof {
                    lemma_find_char_at(t, '\n', k - start);
                    assert(t.take(k - start) =~= s@.subrange(start as int, k as int));
                    assert(t.skip(k - start + 1) =~= s@.skip(k + 1));
                }
                let mut line = slice_of(s, start, k);
                if line.len() > 0 && line[line.len() - 1] == '\r' {
                    line.pop();
                    proof {
                        assert(line@ =~= strip_cr(s@.subrange(start as int, k as int)));
                    }
                }
                let ghost before = views(out@);
                out.push(line);
                proof {
                    assert(views(out@) =~= before.push(line@));
                    assert(lines(t) == seq![line@] + lines(s@.skip(k + 1)));
                    assert(views(out@) + lines(s@.skip(k + 1)) =~= before + (seq![line@] + lines(
                        s@.skip(k + 1),
                    )));
                }
                start = k + 1;
            },
            None => {
                proof {
                    lemma_find_char_at(t, '\n', t.len() as int);
                    assert(t =~= s@.subrange(start as int, s.len() as int));
                }
                let line = slice_of(s, start, s.len());
                let ghost before = views(out@);
                out.push(line);
                proof {
                    assert(views(out@) =~= before.push(line@));
                    assert(s@.skip(s.len() as int) =~= Seq::<char>::empty());
                    assert(views(out@) + lines(s@.skip(s.len() as int)) =~= before + lines(t));
                }
                start = s.len();
            },
        }
    }
    proof {
        assert(s@.skip(start as int) =~= Seq::<char>::empty());
        assert(views(out@) + Seq::<Seq<char>>::empty() =~= views(out@));
    }
    out
}

/// `lines.join("\n")`.
pub fn join_lines_vec(ls: &Vec<Vec<char>>) -> (r: Vec<char>)
    ensures
        r@ == join_lines(views(ls@)),
{
    let mut out: Vec<char> = Vec::new();
    if ls.len() == 0 {
        return out;
    }
    push_all(&mut out, &ls[0]);
    proof {
        assert(views(ls@).take(1).len() == 1);
        assert(out@ == join_lines(views(ls@).take(1)));
    }
    let mut i: usize = 1;
    while i < ls.len()
        invariant
            1 <= i <= ls.len(),
            out@ == join_lines(views(ls@).take(i as int)),
        decreases ls.len() - i,
    {
        out.push('\n');
        push_all(&mut out, &ls[i]);
        proof {
            let v = views(ls@);
            assert(v.take(i + 1).drop_last() =~= v.take(i as int));
            assert(out@ =~= join_lines(v.take(i as int)) + seq!['\n'] + v[i as int]);
        }
        i += 1;
    }
    proof {
        assert(views(ls@).take(ls.len() as int) =~= views(ls@));
    }
    out
}

/// `str::split_whitespace`, each word as its own vector.
pub fn words_vec(s: &Vec<char>) -> (r: Vec<Vec<char>>)
    ensures
        views(r@) == words(s@),
{
    let mut out: Vec<Vec<char>> = Vec::new();
    let mut pos: usize = 0;
    proof {
        assert(s@.skip(0) =~= s@);
    }
    while pos < s.len()
        invariant
            pos <= s.len(),
            words(s@) == views(out@) + words(s@.skip(pos as int)),
        decreases s.len() - pos,
    {
        let ghost u = s@.skip(pos as int);
        let start = skip_ws(s, pos);
        let ghost t = s@.skip(start as int);
        if start == s.len() {
            proof {
                assert(t =~= Seq::<char>::empty());
                assert(words(u) == Seq::<Seq<char>>::empty());
            }
            pos = start;
        } else {
            let mut end = start;
            while end < s.len() && !is_ws_char(s[end])
                invariant
                    start <= end <= s.len(),
                    forall|j: int| start <= j < end ==> !is_ws(s@[j]),
                decreases s.len() - end,
            {
                end += 1;
            }
            proof {
                lemma_word_len_at(t, end - start);
                assert(t.take(end - start) =~= s@.subrange(start as int, end as int));
                assert(t.skip(end - start) =~= s@.skip(end as int));
            }
            let w = slice_of(s, start, end);
            let ghost before = views(out@);
            out.push(w);
            proof {
                assert(views(out@) =~= before.push(w@));
                assert(words(u) == seq![w@] + words(s@.skip(end as int)));
                assert(views(out@) + words(s@.skip(end as int)) =~= before + words(u));
            }
            pos = end;
        }
    }
    proof {
        assert(s@.skip(pos as int) =~= Seq::<char>::empty());
        assert(views(out@) + Seq::<Seq<char>>::empty() =~= views(out@));
    }
    out
}

/// `u32::from_str(..).ok()`.
pub fn parse_u32_vec(s: &Vec<char>) -> (r: Option<u32>)
    ensures
        r == parse_u32(s@),
{
    let start: usize = if s.len() > 0 && s[0] == '+' {
        1
    } else {
        0
    };
    let ghost d = if s@.len() > 0 && s@[0] == '+' {
        s@.drop_first()
    } else {
        s@
    };
    proof {
        assert(d =~= s@.skip(start as int));
    }
    if start == s.len() {
        return None;
    }
    let mut acc: u32 = 0;
    let mut i: usize = start;
    while i < s.len()
        invariant
            start <= i <= s.len(),
            start < s.len(),
            d == s@.skip(start as int),
            d == (if s@.len() > 0 && s@[0] == '+' {
                s@.drop_first()
            } else {
                s@
            }),
            all_digits(s@.subrange(start as int, i as int)),
            acc as nat == digits_value(s@.subrange(start as int, i as int)),
        decreases s.len() - i,
    {
        let c = s[i];
        if !('0' <= c && c <= '9') {
            proof {
                assert(d[i - start] == c);
                assert(!is_digit(d[i - start]));
            }
            return None;
        }
        let dv = (c as u32) - ('0' as u32);
        proof {
            assert(s@.subrange(start as int, i + 1).drop_last() =~= s@.subrange(
                start as int,
                i as int,
            ));
            lemma_digits_value_prefix(d, i + 1 - start);
            assert(d.take(i + 1 - start) =~= s@.subrange(start as int, i + 1));
        }
        match acc.checked_mul(10) {
            Some(m) => match m.checked_add(dv) {
                Some(v) => {
                    acc = v;
                },
                None => {
                    proof {
                        assert(digits_value(s@.subrange(start as int, i + 1)) == acc * 10
                            + digit_val(c));
                        if all_digits(d) {
                            assert(digits_value(d) > u32::MAX);
                        }
                    }
                    return None;
                },
            },
            None => {
                proof {
                    if all_digits(d) {
                        assert(digits_value(s@.subrange(start as int, i + 1)) > u32::MAX)
                            by (nonlinear_arith)
                            requires
                                digits_value(s@.subrange(start as int, i + 1)) == acc * 10
                                    + digit_val(c),
                                acc * 10 > u32::MAX,
                        ;
                    }
                }
                return None;
            },
        }
        i += 1;
        proof {
            assert forall|j: int| 0 <= j < s@.subrange(start as int, i as int).len() implies is_digit(
                #[trigger] s@.subrange(start as int, i as int)[j],
            ) by {
                if j < i - 1 - start {
                    assert(s@.subrange(start as int, i - 1)[j] == s@.subrange(
                        start as int,
                        i as int,
                    )[j]);
                }
            }
        }
    }
    proof {
        assert(s@.subrange(start as int, s.len() as int) =~= d);
    }
    Some(acc)
}


/// The value of a non-empty all-digit string, if it fits in a `u64`.
pub fn parse_digits_u64_vec(d: &Vec<char>) -> (r: Option<u64>)
    ensures
        r == parse_digits_u64(d@),
{
    if d.len() == 0 {
        return None;
    }
    let mut acc: u64 = 0;
    let mut i: usize = 0;
    while i < d.len()
        invariant
            i <= d.len(),
            d.len() > 0,
            all_digits(d@.take(i as int)),
            acc as nat == digits_value(d@.take(i as int)),
        decreases d.len() - i,
    {
        let c = d[i];
        if !('0' <= c && c <= '9') {
            proof {
                assert(!is_digit(d@[i as int]));
            }
            return None;
        }
        let dv = (c as u32) - ('0' as u32);
        proof {
            assert(d@.take(i + 1).drop_last() =~= d@.take(i as int));
            lemma_digits_value_prefix(d@, i + 1);
        }
        match acc.checked_mul(10) {
            Some(m) => match m.checked_add(dv as u64) {
                Some(v) => {
                    acc = v;
                },
                None => {
                    proof {
                        assert(digits_value(d@.take(i + 1)) == acc * 10 + digit_val(c));
                    }
                    return None;
                },
            },
            None => {
                proof {
                    assert(digits_value(d@.take(i + 1)) > u64::MAX) by (nonlinear_arith)
                        requires
                            digits_value(d@.take(i + 1)) == acc * 10 + digit_val(c),
                            acc * 10 > u64::MAX,
                    ;
                }
                return None;
            },
        }
        i += 1;
        proof {
            assert forall|j: int| 0 <= j < d@.take(i as int).len() implies is_digit(
                #[trigger] d@.take(i as int)[j],
            ) by {
                if j < i - 1 {
                    assert(d@.take(i - 1)[j] == d@.take(i as int)[j]);
                }
            }
        }
    }
    proof {
        assert(d@.take(d.len() as int) =~= d@);
    }
    Some(acc)
}

/// `i64::from_str(..).ok()`.
pub fn parse_i64_vec(s: &Vec<char>) -> (r: Option<i64>)
    ensures
        r == parse_i64(s@),
{
    if s.len() > 0 && s[0] == '-' {
        let d = slice_of(s, 1, s.len());
        proof {
            assert(d@ =~= s@.drop_first());
        }
        match parse_digits_u64_vec(&d) {
            None => None,
            Some(v) => {
                if v > 0x8000_0000_0000_0000u64 {
                    None
                } else if v == 0x8000_0000_0000_0000u64 {
                    Some(i64::MIN)
                } else {
                    Some(-(v as i64))
                }
            },
        }
    } else {
        let start: usize = if s.len() > 0 && s[0] == '+' {
            1
        } else {
            0
        };
        let d = slice_of(s, start, s.len());
        proof {
            if start == 1 {
                assert(d@ =~= s@.drop_first());
            } else {
                assert(d@ =~= s@);
            }
        }
        match parse_digits_u64_vec(&d) {
            None => None,
            Some(v) => {
                if v > 0x7fff_ffff_ffff_ffffu64 {
                    None
                } else {
                    Some(v as i64)
                }
            },
        }
    }
}

/// `str::rfind(c)` for a single character.
pub fn rfind_char_vec(s: &Vec<char>, c: char) -> (r: Option<usize>)
    ensures
        match r {
            Some(k) => rfind_char(s@, c) == k && k < s@.len(),
            None => rfind_char(s@, c) == -1,
        },
{
    let mut i: usize = s.len();
    proof {
        assert(s@.take(i as int) =~= s@);
    }
    while i > 0
        invariant
            i <= s.len(),
            rfind_char(s@, c) == rfind_char(s@.take(i as int), c),
        decreases i,
    {
        if s[i - 1] == c {
            return Some(i - 1);
        }
        proof {
            assert(s@.take(i as int).drop_last() =~= s@.take(i - 1));
        }
        i -= 1;
    }
    None
}

/// Whether `p` occurs in `s` at `i`.
pub fn occurs_at_vec(s: &Vec<char>, p: &Vec<char>, i: usize) -> (b: bool)
    ensures
        b == occurs_at(s@, p@, i as int),
{
    if i > s.len() {
        return false;
    }
    matches_at(s, i, p)
}

/// First occurrence of `p` in `s`.
pub fn find_sub_vec(s: &Vec<char>, p: &Vec<char>) -> (r: Option<usize>)
    ensures
        match r {
            Some(k) => find_sub_from(s@, p@, 0) == k && k + p@.len() <= s@.len(),
            None => find_sub_from(s@, p@, 0) == -1,
        },
{
    if p.len() == 0 {
        proof {
            assert(s@.subrange(0, 0) =~= p@);
        }
        return Some(0);
    }
    let mut i: usize = 0;
    while i <= s.len() && p.len() <= s.len() - i
        invariant
            p.len() > 0,
            i <= s.len() + 1,
            find_sub_from(s@, p@, 0) == find_sub_from(s@, p@, i as int),
        decreases s.len() + 1 - i,
    {
        if occurs_at_vec(s, p, i) {
            return Some(i);
        }
        i += 1;
    }
    None
}

/// Last occurrence of `p` in `s` (`str::rfind`).
pub fn rfind_sub_vec(s: &Vec<char>, p: &Vec<char>) -> (r: Option<usize>)
    ensures
        match r {
            Some(k) => rfind_sub(s@, p@) == k && k + p@.len() <= s@.len(),
            None => rfind_sub(s@, p@) == -1,
        },
{
    if p.len() > s.len() {
        return None;
    }
    let mut i: usize = s.len() - p.len();
    loop
        invariant
            i <= s.len() - p.len(),
            p.len() <= s.len(),
            rfind_sub(s@, p@) == rfind_sub_upto(s@, p@, i as int),
        decreases i,
    {
        if occurs_at_vec(s, p, i) {
            return Some(i);
        }
        if i == 0 {
            proof {
                assert(rfind_sub_upto(s@, p@, -1) == -1);
            }
            return None;
        }
        i -= 1;
    }
}

/// `str::split_once(p)` for a string pattern.
pub fn split_once_str_vec(s: &Vec<char>, p: &Vec<char>) -> (r: Option<(Vec<char>, Vec<char>)>)
    ensures
        match r {
            Some((a, b)) => split_once_str(s@, p@) == Some((a@, b@)),
            None => split_once_str(s@, p@) is None,
        },
{
    match find_sub_vec(s, p) {
        Some(k) => {
            assert(k + p.len() <= s.len());
            Some((slice_of(s, 0, k), slice_of(s, k + p.len(), s.len())))
        },
        None => None,
    }
}

/// `str::rsplit(c).next()`.
pub fn after_last_vec(s: &Vec<char>, c: char) -> (r: Vec<char>)
    ensures
        r@ == after_last(s@, c),
{
    match rfind_char_vec(s, c) {
        Some(k) => {
            assert(k < s.len());
            slice_of(s, k + 1, s.len())
        },
        None => {
            proof {
                assert(s@.skip(0) =~= s@);
            }
            slice_of(s, 0, s.len())
        },
    }
}

/// Whether every character is an ASCII digit.
pub fn all_digits_vec(s: &Vec<char>) -> (b: bool)
    ensures
        b == all_digits(s@),
{
    let mut i: usize = 0;
    while i < s.len()
        invariant
            i <= s.len(),
            forall|j: int| 0 <= j < i ==> is_digit(#[trigger] s@[j]),
        decreases s.len() - i,
    {
        if !('0' <= s[i] && s[i] <= '9') {
            proof {
                assert(!is_digit(s@[i as int]));
            }
            return false;
        }
        i += 1;
    }
    true
}

/// Append the decimal digits of `n` to `out`.
pub fn push_dec(out: &mut Vec<char>, n: u32)
    ensures
        final(out)@ == old(out)@ + dec(n as nat),
    decreases n,
{
    if n >= 10 {
        push_dec(out, n / 10);
    }
    let d = n % 10;
    let c = char_of_digit(d);
    out.push(c);
    proof {
        if n >= 10 {
            assert(dec(n as nat) == dec((n / 10) as nat).push(digit_char((n % 10) as nat)));
        }
    }
}

fn char_of_digit(d: u32) -> (c: char)
    requires
        d < 10,
    ensures
        c == digit_char(d as nat),
{
    if d == 0 {
        '0'
    } else if d == 1 {
        '1'
    } else if d == 2 {
        '2'
    } else if d == 3 {
        '3'
    } else if d == 4 {
        '4'
    } else if d == 5 {
        '5'
    } else if d == 6 {
        '6'
    } else if d == 7 {
        '7'
    } else if d == 8 {
        '8'
    } else {
        '9'
    }
}

/// Append the decimal digits of `n` to `out`.
pub fn push_dec_u64(out: &mut Vec<char>, n: u64)
    ensures
        final(out)@ == old(out)@ + dec(n as nat),
    decreases n,
{
    if n >= 10 {
        push_dec_u64(out, n / 10);
    }
    let d = (n % 10) as u32;
    let c = char_of_digit(d);
    out.push(c);
    proof {
        if n >= 10 {
            assert(dec(n as nat) == dec((n / 10) as nat).push(digit_char((n % 10) as nat)));
        }
    }
}

/// Append the signed decimal digits of `n` to `out`.
pub fn push_dec_i64(out: &mut Vec<char>, n: i64)
    ensures
        final(out)@ == old(out)@ + dec_signed(n as int),
{
    if n < 0 {
        let ghost o = out@;
        out.push('-');
        let m: u64 = ((-(n + 1)) as u64) + 1;
        push_dec_u64(out, m);
        proof {
            assert(m == -(n as int));
            assert(out@ =~= o + (seq!['-'] + dec((-(n as int)) as nat)));
        }
    } else {
        push_dec_u64(out, n as u64);
    }
}

/// The decimal text of `n` as a `String`.
pub fn dec_string(n: u32) -> (r: String)
    ensures
        r@ == dec(n as nat),
{
    let mut v: Vec<char> = Vec::new();
    push_dec(&mut v, n);
    string_of(&v)
}

// ── bytes ───────────────────────────────────────────────────────────────────

/// What `String::from_utf8_lossy` makes of a byte string: each invalid
/// sequence becomes U+FFFD.
pub uninterp spec fn utf8_lossy(b: Seq<u8>) -> Seq<char>;

/// Every byte is ASCII.
pub open spec fn is_ascii_bytes(b: Seq<u8>) -> bool {
    forall|i: int| 0 <= i < b.len() ==> b[i] < 128
}

/// The characters an ASCII byte string spells.
pub open spec fn ascii_chars(b: Seq<u8>) -> Seq<char> {
    Seq::new(b.len(), |i: int| b[i] as char)
}

/// `String::from_utf8_lossy`, owned. The contract names the result as a
/// function of the bytes and adds what the documentation states: valid UTF-8
/// decodes to the text it encodes (ASCII to its own characters), and since an
/// invalid sequence becomes U+FFFD, a NUL comes only from a zero byte. Which
/// bytes make one invalid sequence is not restated.
#[verifier::external_body]
pub fn lossy_string(b: &[u8]) -> (r: String)
    ensures
        r@ == utf8_lossy(b@),
        valid_utf8(b@) ==> r@ == decode_utf8(b@),
        is_ascii_bytes(b@) ==> r@ == ascii_chars(b@),
        !b@.contains(0u8) ==> !r@.contains('\0'),
{
    String::from_utf8_lossy(b).into_owned()
}

/// Little-endian 16-bit value at `i`.
pub open spec fn le16(b: Seq<u8>, i: int) -> int {
    b[i] + 256 * b[i + 1]
}

/// Little-endian 32-bit value at `i`.
pub open spec fn le32(b: Seq<u8>, i: int) -> int {
    b[i] + 256 * b[i + 1] + 65536 * b[i + 2] + 16777216 * b[i + 3]
}

/// Big-endian 32-bit value at `i`.
pub open spec fn be32(b: Seq<u8>, i: int) -> int {
    16777216 * b[i] + 65536 * b[i + 1] + 256 * b[i + 2] + b[i + 3]
}

pub fn le16_at(b: &[u8], i: usize) -> (r: u16)
    requires
        i + 2 <= b@.len(),
    ensures
        r == le16(b@, i as int),
{
    b[i] as u16 + (b[i + 1] as u16) * 256
}

pub fn le32_at(b: &[u8], i: usize) -> (r: u32)
    requires
        i + 4 <= b@.len(),
    ensures
        r == le32(b@, i as int),
{
    b[i] as u32 + (b[i + 1] as u32) * 256 + (b[i + 2] as u32) * 65536 + (b[i + 3] as u32)
        * 16777216
}

pub fn be32_at(b: &[u8], i: usize) -> (r: u32)
    requires
        i + 4 <= b@.len(),
    ensures
        r == be32(b@, i as int),
{
    (b[i] as u32) * 16777216 + (b[i + 1] as u32) * 65536 + (b[i + 2] as u32) * 256 + b[i + 3] as u32
}

/// Index of the first zero byte at or after `from`, or the length.
pub open spec fn zero_from(b: Seq<u8>, from: int) -> int
    decreases b.len() - from,
{
    if from >= b.len() {
        b.len() as int
    } else if b[from] == 0 {
        from
    } else {
        zero_from(b, from + 1)
    }
}

pub proof fn lemma_zero_from(b: Seq<u8>, from: int)
    requires
        0 <= from <= b.len(),
    ensures
        from <= zero_from(b, from) <= b.len(),
    decreases b.len() - from,
{
    if from < b.len() && b[from] != 0 {
        lemma_zero_from(b, from + 1);
    }
}

/// No zero byte lies between `from` and the first zero from there.
pub proof fn lemma_zero_before(b: Seq<u8>, from: int)
    requires
        0 <= from <= b.len(),
    ensures
        forall|j: int| from <= j < zero_from(b, from) ==> b[j] != 0,
    decreases b.len() - from,
{
    if from < b.len() && b[from] != 0 {
        lemma_zero_before(b, from + 1);
    }
}

pub fn zero_from_exec(b: &[u8], from: usize) -> (r: usize)
    requires
        from <= b@.len(),
    ensures
        r == zero_from(b@, from as int),
        from <= r <= b@.len(),
{
    let mut i = from;
    while i < b.len() && b[i] != 0
        invariant
            from <= i <= b@.len(),
            zero_from(b@, from as int) == zero_from(b@, i as int),
        decreases b@.len() - i,
    {
        i += 1;
    }
    i
}

/// A copy of `b[lo..hi]`.
pub fn byte_range(b: &[u8], lo: usize, hi: usize) -> (r: Vec<u8>)
    requires
        lo <= hi <= b@.len(),
    ensures
        r@ == b@.subrange(lo as int, hi as int),
{
    let mut r: Vec<u8> = Vec::new();
    let mut i: usize = lo;
    while i < hi
        invariant
            lo <= i <= hi <= b@.len(),
            r@ == b@.subrange(lo as int, i as int),
        decreases hi - i,
    {
        r.push(b[i]);
        proof {
            assert(r@ =~= b@.subrange(lo as int, i as int + 1));
        }
        i += 1;
    }
    r
}

/// At `i`, `h` holds the bytes of the ASCII text `n`.
pub open spec fn spells_at(h: Seq<u8>, n: Seq<char>, i: int) -> bool {
    &&& 0 <= i
    &&& i + n.len() <= h.len()
    &&& forall|k: int| 0 <= k < n.len() ==> h[i + k] as u32 == #[trigger] n[k] as u32
}

/// `h` contains the bytes of the ASCII text `n` somewhere.
pub open spec fn bytes_contain(h: Seq<u8>, n: Seq<char>) -> bool {
    exists|i: int| spells_at(h, n, i)
}

pub fn spells_at_exec(h: &Vec<u8>, n: &Vec<char>, i: usize) -> (b: bool)
    requires
        i + n.len() <= h.len(),
    ensures
        b == spells_at(h@, n@, i as int),
{
    let mut k: usize = 0;
    while k < n.len()
        invariant
            k <= n.len(),
            i + n.len() <= h.len(),
            forall|j: int| 0 <= j < k ==> h@[i + j] as u32 == #[trigger] n@[j] as u32,
        decreases n.len() - k,
    {
        if h[i + k] as u32 != n[k] as u32 {
            return false;
        }
        k += 1;
    }
    true
}

pub fn bytes_contain_exec(h: &Vec<u8>, needle: &str) -> (b: bool)
    ensures
        b == bytes_contain(h@, needle@),
{
    let n = chars_of(needle);
    let mut i: usize = 0;
    while i <= h.len() && n.len() <= h.len() - i
        invariant
            n@ == needle@,
            i <= h.len() + 1,
            forall|j: int| 0 <= j < i ==> !spells_at(h@, n@, j),
        decreases h.len() + 1 - i,
    {
        if spells_at_exec(h, &n, i) {
            return true;
        }
        i += 1;
    }
    proof {
        assert forall|j: int| !spells_at(h@, n@, j) by {
            if spells_at(h@, n@, j) {
                assert(j < i);
            }
        }
    }
    false
}


/// The text of a NUL-terminated field: its bytes up to the first NUL,
/// decoded and trimmed; `None` when that leaves nothing.
pub open spec fn nul_text(raw: Seq<u8>) -> Option<Seq<char>> {
    let s = trim(utf8_lossy(raw.take(zero_from(raw, 0))));
    if s.len() == 0 {
        None
    } else {
        Some(s)
    }
}

pub fn nul_text_exec(raw: &[u8]) -> (r: Option<String>)
    ensures
        match r {
            Some(s) => nul_text(raw@) == Some(s@),
            None => nul_text(raw@) is None,
        },
        r matches Some(s) ==> s@.len() > 0 && trim(s@) == s@ && !s@.contains('\0'),
{
    let cut = zero_from_exec(raw, 0);
    let text = byte_range(raw, 0, cut);
    proof {
        assert(text@ =~= raw@.take(zero_from(raw@, 0)));
        lemma_zero_before(raw@, 0);
        if text@.contains(0u8) {
            let j = choose|j: int| 0 <= j < text@.len() && text@[j] == 0u8;
            assert(raw@[j] == 0u8);
        }
    }
    let lossy = lossy_string(text.as_slice());
    let s = trim_vec(&chars_of(lossy.as_str()));
    proof {
        lemma_trim_clean(lossy@);
    }
    if s.len() == 0 {
        return None;
    }
    Some(string_of(&s))
}

/// `str::trim_end`.
pub fn trim_end_vec(s: &Vec<char>) -> (r: Vec<char>)
    ensures
        r@ == trim_end(s@),
{
    let mut n = s.len();
    proof {
        assert(s@.take(n as int) =~= s@);
    }
    while n > 0 && is_ws_char(s[n - 1])
        invariant
            n <= s.len(),
            trim_end(s@) == trim_end(s@.take(n as int)),
        decreases n,
    {
        proof {
            assert(s@.take(n as int).drop_last() =~= s@.take(n as int - 1));
        }
        n -= 1;
    }
    slice_of(s, 0, n)
}

} // verus!
