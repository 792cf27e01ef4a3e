//! The LaunchBox Games Database cover index: the join key its names are
//! normalised to and the map from its platform names to platform slugs.
use vstd::prelude::*;
use crate::adapters::standalone::{join_with, join_with_vec};
use crate::hotkeys::{lower_char, lower_char_exec};
use crate::platforms::{catalogue, opt_str};
use crate::text::{
    chars_of, eq_str, is_ws, lemma_trim_start_len, lemma_trim_start_ws_prefix, lemma_word_len, string_of, trim_start,
    views, word_len, words, words_vec,
};

verus! {

/// The sanctioned metadata dump (the whole catalogue).
pub const METADATA_URL: &'static str = "https://gamesdb.launchbox-app.com/Metadata.zip";

/// Base for image URLs built from a GameImage `FileName`.
pub const IMAGE_BASE: &'static str = "https://images.launchbox-app.com";

pub open spec fn is_ascii_alnum(c: char) -> bool {
    ('a' <= c <= 'z') || ('A' <= c <= 'Z') || ('0' <= c <= '9')
}

/// ASCII-lowercase a character, then blank it unless it is an ASCII
/// alphanumeric.
pub open spec fn key_char(c: char) -> char {
    if is_ascii_alnum(lower_char(c)) {
        lower_char(c)
    } else {
        ' '
    }
}

/// A key character is its own key.
proof fn lemma_key_char_fixed(c: char)
    ensures
        key_char(key_char(c)) == key_char(c),
{
    if 'A' <= c <= 'Z' {
        let n = c as u32;
        assert(65 <= n <= 90);
        assert(((n + 32) as u8) as u32 == n + 32);
        assert(lower_char(c) as u32 == n + 32);
    }
}

/// A non-empty word without white space.
pub open spec fn plain_word(w: Seq<char>) -> bool {
    w.len() > 0 && forall|i: int| 0 <= i < w.len() ==> !is_ws(#[trigger] w[i])
}

proof fn lemma_word_len_at(s: Seq<char>, k: int)
    requires
        0 <= k <= s.len(),
        forall|i: int| 0 <= i < k ==> !is_ws(#[trigger] s[i]),
        k < s.len() ==> is_ws(s[k]),
    ensures
        word_len(s) == k,
    decreases k,
{
    if k > 0 {
        assert forall|i: int| 0 <= i < k - 1 implies !is_ws(#[trigger] s.drop_first()[i]) by {
            assert(s.drop_first()[i] == s[i + 1]);
        }
        if k < s.len() {
            assert(s.drop_first()[k - 1] == s[k]);
        }
        lemma_word_len_at(s.drop_first(), k - 1);
    }
}

proof fn lemma_join_with_front(ls: Seq<Seq<char>>, sep: Seq<char>)
    requires
        ls.len() >= 2,
    ensures
        join_with(ls, sep) == ls[0] + sep + join_with(ls.drop_first(), sep),
    decreases ls.len(),
{
    if ls.len() == 2 {
        assert(ls.drop_last().len() == 1);
        assert(ls.drop_first().len() == 1);
        assert(join_with(ls.drop_last(), sep) == ls[0]);
        assert(join_with(ls.drop_first(), sep) == ls[1]);
    } else {
        lemma_join_with_front(ls.drop_last(), sep);
        assert(ls.drop_last().drop_first() =~= ls.drop_first().drop_last());
        assert(ls.drop_first().last() == ls.last());
        assert(join_with(ls.drop_first(), sep) == join_with(ls.drop_first().drop_last(), sep) + sep
            + ls.drop_first().last());
        assert(join_with(ls, sep) =~= ls[0] + sep + join_with(ls.drop_first(), sep));
    }
}

/// `words` reads only what `trim_start` leaves.
proof fn lemma_words_trim(x: Seq<char>, y: Seq<char>)
    requires
        trim_start(x) == trim_start(y),
    ensures
        words(x) == words(y),
{
}

/// Plain words joined by single spaces split back into themselves.
proof fn lemma_words_join(ws: Seq<Seq<char>>)
    requires
        forall|k: int| 0 <= k < ws.len() ==> plain_word(#[trigger] ws[k]),
    ensures
        words(join_with(ws, " "@)) == ws,
    decreases ws.len(),
{
    reveal_strlit(" ");
    if ws.len() == 0 {
        assert(join_with(ws, " "@) =~= Seq::<char>::empty());
        assert(words(Seq::<char>::empty()) =~= Seq::<Seq<char>>::empty());
    } else {
        let w0 = ws[0];
        assert(plain_word(w0));
        let j = join_with(ws, " "@);
        let rest = ws.drop_first();
        let r = join_with(rest, " "@);
        if ws.len() == 1 {
            assert(j == w0);
            assert(trim_start(j) == j);
            lemma_word_len_at(j, j.len() as int);
            assert(j.take(j.len() as int) =~= w0);
            assert(j.skip(j.len() as int) =~= Seq::<char>::empty());
            assert(words(Seq::<char>::empty()) =~= Seq::<Seq<char>>::empty());
            assert(words(j) =~= ws);
        } else {
            lemma_join_with_front(ws, " "@);
            assert(j =~= w0 + (" "@ + r));
            assert(trim_start(j) == j);
            assert forall|i: int| 0 <= i < w0.len() implies !is_ws(#[trigger] j[i]) by {
                assert(j[i] == w0[i]);
            }
            assert(j[w0.len() as int] == ' ');
            lemma_word_len_at(j, w0.len() as int);
            assert(j.take(w0.len() as int) =~= w0);
            assert(j.skip(w0.len() as int) =~= " "@ + r);
            assert forall|m: int| 0 <= m < " "@.len() implies is_ws(#[trigger] " "@[m]) by {}
            lemma_trim_start_ws_prefix(" "@, r);
            lemma_words_trim(" "@ + r, r);
            assert forall|k: int| 0 <= k < rest.len() implies plain_word(#[trigger] rest[k]) by {
                assert(rest[k] == ws[k + 1]);
            }
            lemma_words_join(rest);
            assert(words(j) == seq![w0] + words(" "@ + r));
            assert(words(j) =~= ws);
        }
    }
}

/// The words of a text are plain, and every character in them satisfies
/// what all of the text's characters satisfy.
proof fn lemma_words_keep(x: Seq<char>, p: spec_fn(char) -> bool)
    requires
        forall|i: int| 0 <= i < x.len() ==> p(#[trigger] x[i]),
    ensures
        forall|k: int| 0 <= k < words(x).len() ==> plain_word(#[trigger] words(x)[k]),
        forall|k: int, i: int| 0 <= k < words(x).len() && 0 <= i < words(x)[k].len() ==> p(#[trigger] words(x)[k][i]),
    decreases x.len(),
{
    let t = trim_start(x);
    lemma_trim_start_len(x);
    if t.len() > 0 {
        let d = x.len() - t.len();
        assert forall|i: int| 0 <= i < t.len() implies p(#[trigger] t[i]) by {
            assert(t[i] == x[d + i]);
        }
        lemma_word_len(t);
        let n = word_len(t) as int;
        let head = t.take(n);
        let rest = t.skip(n);
        assert forall|i: int| 0 <= i < rest.len() implies p(#[trigger] rest[i]) by {
            assert(rest[i] == t[n + i]);
        }
        lemma_words_keep(rest, p);
        assert(words(x) == seq![head] + words(rest));
        assert forall|k: int| 0 <= k < words(x).len() implies plain_word(#[trigger] words(x)[k]) by {
            if k == 0 {
                assert(words(x)[k] == head);
                assert forall|i: int| 0 <= i < head.len() implies !is_ws(#[trigger] head[i]) by {
                    assert(head[i] == t[i]);
                }
            } else {
                assert(words(x)[k] == words(rest)[k - 1]);
            }
        }
        assert forall|k: int, i: int| 0 <= k < words(x).len() && 0 <= i < words(x)[k].len() implies p(
            #[trigger] words(x)[k][i],
        ) by {
            if k == 0 {
                assert(words(x)[k][i] == t[i]);
            } else {
                assert(words(x)[k] == words(rest)[k - 1]);
            }
        }
    }
}

/// Every character of words joined by a separator comes from a word or the
/// separator.
proof fn lemma_join_keep(ls: Seq<Seq<char>>, sep: Seq<char>, p: spec_fn(char) -> bool)
    requires
        forall|k: int, i: int| 0 <= k < ls.len() && 0 <= i < ls[k].len() ==> p(#[trigger] ls[k][i]),
        forall|i: int| 0 <= i < sep.len() ==> p(#[trigger] sep[i]),
    ensures
        forall|i: int| 0 <= i < join_with(ls, sep).len() ==> p(#[trigger] join_with(ls, sep)[i]),
    decreases ls.len(),
{
    if ls.len() == 1 {
        assert forall|i: int| 0 <= i < join_with(ls, sep).len() implies p(#[trigger] join_with(ls, sep)[i]) by {
            assert(join_with(ls, sep)[i] == ls[0][i]);
        }
    } else if ls.len() >= 2 {
        let front = ls.drop_last();
        assert forall|k: int, i: int| 0 <= k < front.len() && 0 <= i < front[k].len() implies p(
            #[trigger] front[k][i],
        ) by {
            assert(front[k] == ls[k]);
        }
        lemma_join_keep(front, sep, p);
        let a = join_with(front, sep);
        let l = ls.last();
        assert forall|i: int| 0 <= i < join_with(ls, sep).len() implies p(#[trigger] join_with(ls, sep)[i]) by {
            if i < a.len() {
                assert(join_with(ls, sep)[i] == a[i]);
            } else if i < a.len() + sep.len() {
                assert(join_with(ls, sep)[i] == sep[i - a.len()]);
            } else {
                assert(join_with(ls, sep)[i] == l[i - a.len() - sep.len()]);
                assert(ls[ls.len() - 1] == l);
            }
        }
    }
}

/// Normalising a join key leaves it as it is: a key is its own key.
pub proof fn law_normalize_name_idempotent(s: Seq<char>)
    ensures
        normalize_name_spec(normalize_name_spec(s)) == normalize_name_spec(s),
{
    reveal_strlit(" ");
    let fixed = |c: char| key_char(c) == c;
    let m = Seq::new(s.len(), |i: int| key_char(s[i]));
    assert forall|i: int| 0 <= i < m.len() implies fixed(#[trigger] m[i]) by {
        lemma_key_char_fixed(s[i]);
    }
    let ws = words(m);
    lemma_words_keep(m, fixed);
    assert(fixed(' '));
    assert forall|i: int| 0 <= i < " "@.len() implies fixed(#[trigger] " "@[i]) by {}
    lemma_join_keep(ws, " "@, fixed);
    let n = join_with(ws, " "@);
    assert(n == normalize_name_spec(s));
    assert(Seq::new(n.len(), |i: int| key_char(n[i])) =~= n);
    lemma_words_join(ws);
    assert(words(Seq::new(n.len(), |i: int| key_char(n[i]))) == ws);
}

/// The join key of a name: lowercased, every run of non-alphanumerics
/// collapsed to one space, trimmed.
pub open spec fn normalize_name_spec(s: Seq<char>) -> Seq<char> {
    join_with(words(Seq::new(s.len(), |i: int| key_char(s[i]))), " "@)
}

/// Lowercase, replace every non-alphanumeric run with a single space, trim.
pub fn normalize_name(s: &str) -> (r: String)
    ensures
        r@ == normalize_name_spec(s@),
{
    let cs = chars_of(s);
    let mut m: Vec<char> = Vec::new();
    let mut i: usize = 0;
    while i < cs.len()
        invariant
            i <= cs.len(),
            cs@ == s@,
            m@ == Seq::new(s@.len(), |k: int| key_char(s@[k])).take(i as int),
        decreases cs.len() - i,
    {
        let c = lower_char_exec(cs[i]);
        let k = if ('a' <= c && c <= 'z') || ('A' <= c && c <= 'Z') || ('0' <= c && c <= '9') {
            c
        } else {
            ' '
        };
        m.push(k);
        i += 1;
        proof {
            assert(m@ =~= Seq::new(s@.len(), |k: int| key_char(s@[k])).take(i as int));
        }
    }
    proof {
        assert(m@ =~= Seq::new(s@.len(), |k: int| key_char(s@[k])));
    }
    let ws = words_vec(&m);
    string_of(&join_with_vec(&ws, " "))
}

/// The platform slug a LaunchBox `<Platform>` name stands for; `None` for
/// platforms the library doesn't track.
pub open spec fn launchbox_slug_spec(name: Seq<char>) -> Option<Seq<char>> {
    if name == "Nintendo Entertainment System"@ {
        Some("nes"@)
    } else if name == "Super Nintendo Entertainment System"@ {
        Some("snes"@)
    } else if name == "Nintendo 64"@ {
        Some("n64"@)
    } else if name == "Nintendo GameCube"@ {
        Some("gamecube"@)
    } else if name == "Nintendo Wii"@ {
        Some("wii"@)
    } else if name == "Nintendo Game Boy"@ {
        Some("gb"@)
    } else if name == "Nintendo Game Boy Color"@ {
        Some("gbc"@)
    } else if name == "Nintendo Game Boy Advance"@ {
        Some("gba"@)
    } else if name == "Nintendo DS"@ {
        Some("nds"@)
    } else if name == "Nintendo Virtual Boy"@ {
        Some("virtualboy"@)
    } else if name == "Sega Genesis"@ {
        Some("genesis"@)
    } else if name == "Sega Dreamcast"@ {
        Some("dreamcast"@)
    } else if name == "Sony Playstation"@ {
        Some("ps1"@)
    } else if name == "Sony Playstation 2"@ {
        Some("ps2"@)
    } else if name == "Sony PSP"@ {
        Some("psp"@)
    } else if name == "Sony Playstation 3"@ {
        Some("ps3"@)
    } else if name == "Sega Saturn"@ {
        Some("saturn"@)
    } else if name == "Sega CD"@ {
        Some("segacd"@)
    } else if name == "Sega 32X"@ {
        Some("sega32x"@)
    } else if name == "Sega Game Gear"@ {
        Some("gamegear"@)
    } else if name == "Sega Master System"@ {
        Some("sms"@)
    } else if name == "NEC TurboGrafx-16"@ {
        Some("pcengine"@)
    } else if name == "Nintendo 3DS"@ {
        Some("n3ds"@)
    } else if name == "Atari 2600"@ {
        Some("atari2600"@)
    } else if name == "Atari 5200"@ {
        Some("atari5200"@)
    } else if name == "Atari 7800"@ {
        Some("atari7800"@)
    } else if name == "Atari Jaguar"@ {
        Some("jaguar"@)
    } else if name == "Atari Lynx"@ {
        Some("lynx"@)
    } else if name == "Commodore Amiga"@ {
        Some("amiga"@)
    } else if name == "Commodore 64"@ {
        Some("c64"@)
    } else if name == "ColecoVision"@ {
        Some("colecovision"@)
    } else if name == "Microsoft MSX"@ {
        Some("msx"@)
    } else if name == "Microsoft Xbox"@ {
        Some("xbox"@)
    } else if name == "SNK Neo Geo Pocket"@ {
        Some("ngp"@)
    } else if name == "WonderSwan"@ {
        Some("wonderswan"@)
    } else {
        None
    }
}

/// Map a LaunchBox `<Platform>` name to a platform slug.
pub fn arcadia_slug_for_launchbox(name: &str) -> (r: Option<&'static str>)
    ensures
        opt_str(r) == launchbox_slug_spec(name@),
{
    let n = chars_of(name);
    if eq_str(&n, "Nintendo Entertainment System") {
        Some("nes")
    } else if eq_str(&n, "Super Nintendo Entertainment System") {
        Some("snes")
    } else if eq_str(&n, "Nintendo 64") {
        Some("n64")
    } else if eq_str(&n, "Nintendo GameCube") {
        Some("gamecube")
    } else if eq_str(&n, "Nintendo Wii") {
        Some("wii")
    } else if eq_str(&n, "Nintendo Game Boy") {
        Some("gb")
    } else if eq_str(&n, "Nintendo Game Boy Color") {
        Some("gbc")
    } else if eq_str(&n, "Nintendo Game Boy Advance") {
        Some("gba")
    } else if eq_str(&n, "Nintendo DS") {
        Some("nds")
    } else if eq_str(&n, "Nintendo Virtual Boy") {
        Some("virtualboy")
    } else if eq_str(&n, "Sega Genesis") {
        Some("genesis")
    } else if eq_str(&n, "Sega Dreamcast") {
        Some("dreamcast")
    } else if eq_str(&n, "Sony Playstation") {
        Some("ps1")
    } else if eq_str(&n, "Sony Playstation 2") {
        Some("ps2")
    } else if eq_str(&n, "Sony PSP") {
        Some("psp")
    } else if eq_str(&n, "Sony Playstation 3") {
        Some("ps3")
    } else if eq_str(&n, "Sega Saturn") {
        Some("saturn")
    } else if eq_str(&n, "Sega CD") {
        Some("segacd")
    } else if eq_str(&n, "Sega 32X") {
        Some("sega32x")
    } else if eq_str(&n, "Sega Game Gear") {
        Some("gamegear")
    } else if eq_str(&n, "Sega Master System") {
        Some("sms")
    } else if eq_str(&n, "NEC TurboGrafx-16") {
        Some("pcengine")
    } else if eq_str(&n, "Nintendo 3DS") {
        Some("n3ds")
    } else if eq_str(&n, "Atari 2600") {
        Some("atari2600")
    } else if eq_str(&n, "Atari 5200") {
        Some("atari5200")
    } else if eq_str(&n, "Atari 7800") {
        Some("atari7800")
    } else if eq_str(&n, "Atari Jaguar") {
        Some("jaguar")
    } else if eq_str(&n, "Atari Lynx") {
        Some("lynx")
    } else if eq_str(&n, "Commodore Amiga") {
        Some("amiga")
    } else if eq_str(&n, "Commodore 64") {
        Some("c64")
    } else if eq_str(&n, "ColecoVision") {
        Some("colecovision")
    } else if eq_str(&n, "Microsoft MSX") {
        Some("msx")
    } else if eq_str(&n, "Microsoft Xbox") {
        Some("xbox")
    } else if eq_str(&n, "SNK Neo Geo Pocket") {
        Some("ngp")
    } else if eq_str(&n, "WonderSwan") {
        Some("wonderswan")
    } else {
        None
    }
}

/// Every slug a LaunchBox platform maps to is a catalogued platform id.
pub proof fn law_launchbox_slugs_are_platforms(name: Seq<char>)
    requires
        launchbox_slug_spec(name) is Some,
    ensures
        exists|i: int|
            0 <= i < catalogue().len() && (#[trigger] catalogue()[i]).id == launchbox_slug_spec(
                name,
            )->0,
{
    let t = catalogue();
    assert(t[0].id == "nes"@);
    assert(t[1].id == "snes"@);
    assert(t[2].id == "n64"@);
    assert(t[3].id == "gamecube"@);
    assert(t[4].id == "wii"@);
    assert(t[5].id == "gb"@);
    assert(t[6].id == "gbc"@);
    assert(t[7].id == "gba"@);
    assert(t[8].id == "nds"@);
    assert(t[9].id == "genesis"@);
    assert(t[10].id == "ps1"@);
    assert(t[11].id == "ps2"@);
    assert(t[12].id == "psp"@);
    assert(t[13].id == "ps3"@);
    assert(t[15].id == "sms"@);
    assert(t[16].id == "gamegear"@);
    assert(t[17].id == "sega32x"@);
    assert(t[18].id == "segacd"@);
    assert(t[19].id == "saturn"@);
    assert(t[20].id == "dreamcast"@);
    assert(t[21].id == "pcengine"@);
    assert(t[22].id == "virtualboy"@);
    assert(t[23].id == "n3ds"@);
    assert(t[26].id == "xbox"@);
    assert(t[27].id == "atari2600"@);
    assert(t[28].id == "atari5200"@);
    assert(t[29].id == "atari7800"@);
    assert(t[30].id == "lynx"@);
    assert(t[31].id == "jaguar"@);
    assert(t[32].id == "wonderswan"@);
    assert(t[33].id == "ngp"@);
    assert(t[34].id == "colecovision"@);
    assert(t[35].id == "c64"@);
    assert(t[36].id == "amiga"@);
    assert(t[37].id == "msx"@);
}

} // verus!
