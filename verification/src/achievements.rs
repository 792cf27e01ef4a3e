//! The RetroAchievements hub's rules: which platforms RA tracks (by console
//! id), badge URLs, and how a `GetGameInfoAndUserProgress` reply becomes the
//! cached achievement list. The library never awards or computes achievements;
//! requests and JSON decoding happen at the application edge.
use vstd::prelude::*;
use vstd::string::StringSliceAdditionalSpecFns;
use crate::iso9660::opt_view;
use crate::metadata::{pct_encode, percent_encode};
use crate::models::Achievement;
use crate::platforms::catalogue;
use crate::text::{
    chars_of, dec_signed, eq_str, find_sub_from, find_sub_vec, parse_i64, parse_i64_vec, push_all,
    push_dec_i64, push_str, string_of, trim, trim_vec,
};
use crate::config::RetroAchievementsCredentials;
use crate::library::{to_lowercase, unicode_lower};
use vstd::utf8::encode_utf8;

verus! {

/// The RetroAchievements Web API base.
pub const API_BASE: &'static str = "https://retroachievements.org/API";

/// Where achievement badges are served from.
pub const BADGE_BASE: &'static str = "https://media.retroachievements.org/Badge";

/// A candidate RA game for the link picker.
#[derive(Debug, Clone)]
pub struct RaGameCandidate {
    pub ra_game_id: i64,
    pub title: String,
}

/// Headline numbers for the signed-in RA user.
#[derive(Debug, Clone, Default)]
pub struct RaUserSummary {
    pub username: String,
    pub total_points: i64,
    pub rank: i64,
    pub recently_played_count: i64,
}

/// One row of the hub overview: a linked game plus its cached progress
/// counts.
#[derive(Debug, Clone)]
pub struct RaGameProgress {
    pub game_id: String,
    pub title: String,
    pub cover_art: Option<String>,
    pub ra_title: Option<String>,
    pub icon_url: Option<String>,
    pub total: i64,
    pub unlocked: i64,
    pub points_earned: i64,
    pub points_total: i64,
}

/// The RetroAchievements console id of a platform; `None` for platforms RA
/// doesn't track (the UI then hides linking).
pub open spec fn ra_console_spec(p: Seq<char>) -> Option<i64> {
    if p == "genesis"@ {
        Some(1i64)
    } else if p == "n64"@ {
        Some(2i64)
    } else if p == "snes"@ {
        Some(3i64)
    } else if p == "gb"@ {
        Some(4i64)
    } else if p == "gba"@ {
        Some(5i64)
    } else if p == "gbc"@ {
        Some(6i64)
    } else if p == "nes"@ {
        Some(7i64)
    } else if p == "pcengine"@ {
        Some(8i64)
    } else if p == "segacd"@ {
        Some(9i64)
    } else if p == "sega32x"@ {
        Some(10i64)
    } else if p == "sms"@ {
        Some(11i64)
    } else if p == "ps1"@ {
        Some(12i64)
    } else if p == "lynx"@ {
        Some(13i64)
    } else if p == "ngp"@ {
        Some(14i64)
    } else if p == "gamegear"@ {
        Some(15i64)
    } else if p == "gamecube"@ {
        Some(16i64)
    } else if p == "jaguar"@ {
        Some(17i64)
    } else if p == "nds"@ {
        Some(18i64)
    } else if p == "ps2"@ {
        Some(21i64)
    } else if p == "atari2600"@ {
        Some(25i64)
    } else if p == "arcade"@ {
        Some(27i64)
    } else if p == "virtualboy"@ {
        Some(28i64)
    } else if p == "saturn"@ {
        Some(39i64)
    } else if p == "dreamcast"@ {
        Some(40i64)
    } else if p == "psp"@ {
        Some(41i64)
    } else if p == "colecovision"@ {
        Some(44i64)
    } else if p == "wonderswan"@ {
        Some(46i64)
    } else if p == "atari7800"@ {
        Some(51i64)
    } else if p == "msx"@ {
        Some(53i64)
    } else {
        None
    }
}

/// Map a platform slug to a RetroAchievements console id.
pub fn ra_console_id(platform: &str) -> (r: Option<i64>)
    ensures
        r == ra_console_spec(platform@),
{
    let p = chars_of(platform);
    if eq_str(&p, "genesis") {
        Some(1)
    } else if eq_str(&p, "n64") {
        Some(2)
    } else if eq_str(&p, "snes") {
        Some(3)
    } else if eq_str(&p, "gb") {
        Some(4)
    } else if eq_str(&p, "gba") {
        Some(5)
    } else if eq_str(&p, "gbc") {
        Some(6)
    } else if eq_str(&p, "nes") {
        Some(7)
    } else if eq_str(&p, "pcengine") {
        Some(8)
    } else if eq_str(&p, "segacd") {
        Some(9)
    } else if eq_str(&p, "sega32x") {
        Some(10)
    } else if eq_str(&p, "sms") {
        Some(11)
    } else if eq_str(&p, "ps1") {
        Some(12)
    } else if eq_str(&p, "lynx") {
        Some(13)
    } else if eq_str(&p, "ngp") {
        Some(14)
    } else if eq_str(&p, "gamegear") {
        Some(15)
    } else if eq_str(&p, "gamecube") {
        Some(16)
    } else if eq_str(&p, "jaguar") {
        Some(17)
    } else if eq_str(&p, "nds") {
        Some(18)
    } else if eq_str(&p, "ps2") {
        Some(21)
    } else if eq_str(&p, "atari2600") {
        Some(25)
    } else if eq_str(&p, "arcade") {
        Some(27)
    } else if eq_str(&p, "virtualboy") {
        Some(28)
    } else if eq_str(&p, "saturn") {
        Some(39)
    } else if eq_str(&p, "dreamcast") {
        Some(40)
    } else if eq_str(&p, "psp") {
        Some(41)
    } else if eq_str(&p, "colecovision") {
        Some(44)
    } else if eq_str(&p, "wonderswan") {
        Some(46)
    } else if eq_str(&p, "atari7800") {
        Some(51)
    } else if eq_str(&p, "msx") {
        Some(53)
    } else {
        None
    }
}

/// A badge's URL: `None` for an empty (after trimming) or `0` badge name.
pub open spec fn badge_url_spec(badge: Seq<char>) -> Option<Seq<char>> {
    let name = trim(badge);
    if name.len() == 0 || name == "0"@ {
        None
    } else {
        Some("https://media.retroachievements.org/Badge"@ + "/"@ + name + ".png"@)
    }
}

/// The URL of a badge image.
pub fn badge_url(badge_name: &str) -> (r: Option<String>)
    ensures
        opt_view(r) == badge_url_spec(badge_name@),
{
    let name = trim_vec(&chars_of(badge_name));
    if name.len() == 0 || eq_str(&name, "0") {
        return None;
    }
    let mut out = chars_of(BADGE_BASE);
    push_str(&mut out, "/");
    let ghost o = out@;
    let mut i: usize = 0;
    while i < name.len()
        invariant
            i <= name.len(),
            out@ == o + name@.take(i as int),
        decreases name.len() - i,
    {
        out.push(name[i]);
        i += 1;
        proof {
            assert(out@ =~= o + name@.take(i as int));
        }
    }
    push_str(&mut out, ".png");
    proof {
        assert(name@.take(name.len() as int) =~= name@);
    }
    Some(string_of(&out))
}

/// Minimal `application/x-www-form-urlencoded` encoder for query values.
pub fn urlencode(s: &str) -> (r: String)
    ensures
        r@ == pct_encode(s.spec_bytes()),
{
    percent_encode(s)
}

// ── progress replies ───────────────────────────────────────────────────────

/// A JSON value RetroAchievements sends where a number is meant: a number
/// that fits an `i64`, a string, or anything else. RA serialises numbers
/// inconsistently, sometimes as strings.
#[derive(Debug, Clone)]
pub enum RaNumber {
    Int(i64),
    Text(String),
    Other,
}

pub open spec fn number_spec(v: RaNumber) -> Option<i64> {
    match v {
        RaNumber::Int(n) => Some(n),
        RaNumber::Text(s) => parse_i64(trim(s@)),
        RaNumber::Other => None,
    }
}

/// The value of a number or a numeric string (trimmed).
pub fn value_as_i64(v: &RaNumber) -> (r: Option<i64>)
    ensures
        r == number_spec(*v),
{
    match v {
        RaNumber::Int(n) => Some(*n),
        RaNumber::Text(s) => parse_i64_vec(&trim_vec(&chars_of(s.as_str()))),
        RaNumber::Other => None,
    }
}

pub open spec fn opt_number(v: Option<RaNumber>) -> Option<i64> {
    match v {
        Some(n) => number_spec(n),
        None => None,
    }
}

/// One entry of the reply's `Achievements` object, each field when present
/// (strings as strings).
#[derive(Debug, Clone)]
pub struct RaAchievementJson {
    pub id: Option<RaNumber>,
    pub title: Option<String>,
    pub description: Option<String>,
    pub points: Option<RaNumber>,
    pub badge_name: Option<String>,
    pub display_order: Option<RaNumber>,
    pub date_earned_hardcore: Option<String>,
    pub date_earned: Option<String>,
}

/// A `GetGameInfoAndUserProgress` reply: its `Title`, `ImageIcon` and the
/// entries of its `Achievements` object (`None` when that is not an object).
#[derive(Debug, Clone)]
pub struct RaProgressJson {
    pub title: Option<String>,
    pub image_icon: Option<String>,
    pub achievements: Option<Vec<RaAchievementJson>>,
}

/// An achievement, viewed as plain values.
#[verifier::ext_equal]
pub struct AchView {
    pub id: Seq<char>,
    pub game_id: Seq<char>,
    pub ra_id: i64,
    pub title: Seq<char>,
    pub description: Option<Seq<char>>,
    pub points: i64,
    pub badge_url: Option<Seq<char>>,
    pub unlocked: bool,
    pub unlocked_at: Option<Seq<char>>,
    pub display_order: i64,
}

pub open spec fn ach_view(a: Achievement) -> AchView {
    AchView {
        id: a.id@,
        game_id: a.game_id@,
        ra_id: a.ra_id,
        title: a.title@,
        description: opt_view(a.description),
        points: a.points,
        badge_url: opt_view(a.badge_url),
        unlocked: a.unlocked,
        unlocked_at: opt_view(a.unlocked_at),
        display_order: a.display_order,
    }
}

pub open spec fn ach_views(v: Seq<Achievement>) -> Seq<AchView> {
    v.map_values(|a: Achievement| ach_view(a))
}

/// The unlock time: the hardcore date when present as a string, else the
/// softcore one; an empty date means locked.
pub open spec fn unlocked_at_spec(j: RaAchievementJson) -> Option<Seq<char>> {
    let d = match j.date_earned_hardcore {
        Some(h) => Some(h@),
        None => opt_view(j.date_earned),
    };
    match d {
        Some(x) => if x.len() > 0 {
            Some(x)
        } else {
            None
        },
        None => None,
    }
}

/// The cached achievement an entry becomes; `None` for an entry without a
/// non-zero id. Missing titles read `(untitled)`, missing numbers 0.
pub open spec fn ach_from(j: RaAchievementJson, game_id: Seq<char>) -> Option<AchView> {
    let ra_id = match opt_number(j.id) {
        Some(n) => n,
        None => 0,
    };
    if ra_id == 0 {
        None
    } else {
        Some(
            AchView {
                id: seq![],
                game_id,
                ra_id,
                title: match j.title {
                    Some(t) => t@,
                    None => "(untitled)"@,
                },
                description: opt_view(j.description),
                points: match opt_number(j.points) {
                    Some(n) => n,
                    None => 0,
                },
                badge_url: match j.badge_name {
                    Some(b) => badge_url_spec(b@),
                    None => None,
                },
                unlocked: unlocked_at_spec(j) is Some,
                unlocked_at: unlocked_at_spec(j),
                display_order: match opt_number(j.display_order) {
                    Some(n) => n,
                    None => 0,
                },
            },
        )
    }
}

/// The achievements the entries yield, in reply order.
pub open spec fn achs_from(js: Seq<RaAchievementJson>, game_id: Seq<char>) -> Seq<AchView>
    decreases js.len(),
{
    if js.len() == 0 {
        seq![]
    } else {
        match ach_from(js.last(), game_id) {
            Some(a) => achs_from(js.drop_last(), game_id).push(a),
            None => achs_from(js.drop_last(), game_id),
        }
    }
}

/// Order by display order, then RA id.
pub open spec fn key_le(a: AchView, b: AchView) -> bool {
    a.display_order < b.display_order || (a.display_order == b.display_order && a.ra_id <= b.ra_id)
}

/// How many leading entries sort no later than `x`.
pub open spec fn leading_le(s: Seq<AchView>, x: AchView) -> nat
    decreases s.len(),
{
    if s.len() > 0 && key_le(s[0], x) {
        1 + leading_le(s.drop_first(), x)
    } else {
        0
    }
}

/// A stable sort by (display order, RA id): each entry goes after every
/// earlier one that sorts no later.
pub open spec fn stable_sort(s: Seq<AchView>) -> Seq<AchView>
    decreases s.len(),
{
    if s.len() == 0 {
        seq![]
    } else {
        let t = stable_sort(s.drop_last());
        t.insert(leading_le(t, s.last()) as int, s.last())
    }
}

proof fn lemma_leading_le(s: Seq<AchView>, x: AchView)
    ensures
        leading_le(s, x) <= s.len(),
    decreases s.len(),
{
    if s.len() > 0 && key_le(s[0], x) {
        lemma_leading_le(s.drop_first(), x);
    }
}

fn opt_number_exec(v: &Option<RaNumber>) -> (r: Option<i64>)
    ensures
        r == opt_number(*v),
{
    match v {
        Some(n) => value_as_i64(n),
        None => None,
    }
}

fn copy_opt(o: &Option<String>) -> (r: Option<String>)
    ensures
        opt_view(r) == opt_view(*o),
{
    match o {
        Some(s) => Some(string_of(&chars_of(s.as_str()))),
        None => None,
    }
}

fn ach_from_exec(j: &RaAchievementJson, game_id: &str) -> (r: Option<Achievement>)
    ensures
        match r {
            Some(a) => ach_from(*j, game_id@) == Some(ach_view(a)),
            None => ach_from(*j, game_id@) is None,
        },
{
    let ra_id = match opt_number_exec(&j.id) {
        Some(n) => n,
        None => 0,
    };
    if ra_id == 0 {
        return None;
    }
    let date = match &j.date_earned_hardcore {
        Some(h) => Some(string_of(&chars_of(h.as_str()))),
        None => copy_opt(&j.date_earned),
    };
    let unlocked_at = match date {
        Some(d) => if chars_of(d.as_str()).len() > 0 {
            Some(d)
        } else {
            None
        },
        None => None,
    };
    let title = match &j.title {
        Some(t) => string_of(&chars_of(t.as_str())),
        None => string_of(&chars_of("(untitled)")),
    };
    let badge = match &j.badge_name {
        Some(b) => badge_url(b.as_str()),
        None => None,
    };
    let unlocked = unlocked_at.is_some();
    Some(
        Achievement {
            id: string_of(&Vec::new()),
            game_id: string_of(&chars_of(game_id)),
            ra_id,
            title,
            description: copy_opt(&j.description),
            points: match opt_number_exec(&j.points) {
                Some(n) => n,
                None => 0,
            },
            badge_url: badge,
            unlocked,
            unlocked_at,
            display_order: match opt_number_exec(&j.display_order) {
                Some(n) => n,
                None => 0,
            },
        },
    )
}

/// Insert `a` after every entry that sorts no later.
fn insert_stable(out: &mut Vec<Achievement>, a: Achievement)
    ensures
        ach_views(final(out)@) == ach_views(old(out)@).insert(
            leading_le(ach_views(old(out)@), ach_view(a)) as int,
            ach_view(a),
        ),
{
    let ghost o = ach_views(out@);
    let ghost x = ach_view(a);
    let mut i: usize = 0;
    proof {
        assert(o.skip(0) =~= o);
    }
    while i < out.len() && (out[i].display_order < a.display_order || (out[i].display_order
        == a.display_order && out[i].ra_id <= a.ra_id))
        invariant
            i <= out.len(),
            o == ach_views(out@),
            x == ach_view(a),
            leading_le(o, x) == i + leading_le(o.skip(i as int), x),
        decreases out.len() - i,
    {
        proof {
            assert(o.skip(i as int).drop_first() =~= o.skip(i as int + 1));
            assert(o.skip(i as int)[0] == ach_view(out@[i as int]));
        }
        i += 1;
    }
    proof {
        if i < out.len() {
            assert(o.skip(i as int)[0] == ach_view(out@[i as int]));
        }
        assert(leading_le(o, x) == i);
    }
    out.insert(i, a);
    proof {
        assert(ach_views(out@) =~= o.insert(i as int, x));
    }
}

/// The title, icon URL and achievements of a progress reply, the
/// achievements stable-sorted by display order, then RA id.
pub fn game_progress(p: &RaProgressJson, game_id: &str) -> (r: (Option<String>, Option<String>, Vec<Achievement>))
    ensures
        opt_view(r.0) == opt_view(p.title),
        opt_view(r.1) == (match p.image_icon {
            Some(i) => Some("https://media.retroachievements.org"@ + i@),
            None => None,
        }),
        ach_views(r.2@) == stable_sort(match p.achievements {
            Some(v) => achs_from(v@, game_id@),
            None => seq![],
        }),
{
    let title = copy_opt(&p.title);
    let icon = match &p.image_icon {
        Some(i) => {
            let mut s = chars_of("https://media.retroachievements.org");
            push_str(&mut s, i.as_str());
            Some(string_of(&s))
        },
        None => None,
    };
    let mut out: Vec<Achievement> = Vec::new();
    match &p.achievements {
        Some(js) => {
            let ghost all = achs_from(js@, game_id@);
            let ghost mut seen: Seq<AchView> = seq![];
            let mut i: usize = 0;
            proof {
                assert(js@.take(0) =~= Seq::<RaAchievementJson>::empty());
                assert(ach_views(out@) =~= Seq::<AchView>::empty());
            }
            while i < js.len()
                invariant
                    i <= js.len(),
                    ach_views(out@) == stable_sort(achs_from(js@.take(i as int), game_id@)),
                decreases js.len() - i,
            {
                proof {
                    assert(js@.take(i as int + 1).drop_last() =~= js@.take(i as int));
                    assert(js@.take(i as int + 1).last() == js@[i as int]);
                }
                match ach_from_exec(&js[i], game_id) {
                    Some(a) => {
                        let ghost prev = achs_from(js@.take(i as int), game_id@);
                        proof {
                            assert(achs_from(js@.take(i as int + 1), game_id@) == prev.push(ach_view(a)));
                            assert(prev.push(ach_view(a)).drop_last() =~= prev);
                        }
                        insert_stable(&mut out, a);
                    },
                    None => {},
                }
                i += 1;
            }
            proof {
                assert(js@.take(js.len() as int) =~= js@);
            }
        },
        None => {},
    }
    (title, icon, out)
}

// ── laws ───────────────────────────────────────────────────────────────────

/// The list is ordered by (display order, RA id).
pub open spec fn key_sorted(t: Seq<AchView>) -> bool {
    forall|i: int, j: int| 0 <= i < j < t.len() ==> key_le(#[trigger] t[i], #[trigger] t[j])
}

proof fn lemma_leading_le_props(s: Seq<AchView>, x: AchView)
    ensures
        leading_le(s, x) <= s.len(),
        forall|i: int| 0 <= i < leading_le(s, x) ==> key_le(#[trigger] s[i], x),
        leading_le(s, x) < s.len() ==> !key_le(s[leading_le(s, x) as int], x),
    decreases s.len(),
{
    if s.len() > 0 && key_le(s[0], x) {
        lemma_leading_le_props(s.drop_first(), x);
        assert forall|i: int| 0 <= i < leading_le(s, x) implies key_le(#[trigger] s[i], x) by {
            if i > 0 {
                assert(s[i] == s.drop_first()[i - 1]);
            }
        }
        if leading_le(s, x) < s.len() {
            assert(s[leading_le(s, x) as int] == s.drop_first()[leading_le(s.drop_first(), x) as int]);
        }
    }
}

/// The achievements of a progress reply come out ordered by display order,
/// then RA id, and none is lost or added.
pub proof fn law_progress_sorted(s: Seq<AchView>)
    ensures
        key_sorted(stable_sort(s)),
        stable_sort(s).len() == s.len(),
    decreases s.len(),
{
    if s.len() > 0 {
        let t = stable_sort(s.drop_last());
        let x = s.last();
        law_progress_sorted(s.drop_last());
        lemma_leading_le_props(t, x);
        let k = leading_le(t, x) as int;
        let n = t.insert(k, x);
        assert forall|i: int, j: int| 0 <= i < j < n.len() implies key_le(#[trigger] n[i], #[trigger] n[j]) by {
            if j < k {
                assert(n[i] == t[i] && n[j] == t[j]);
            } else if j == k {
                assert(n[i] == t[i]);
            } else if i == k {
                assert(n[j] == t[j - 1]);
                assert(!key_le(t[k], x));
                if j - 1 > k {
                    assert(key_le(t[k], t[j - 1]));
                }
            } else if i < k {
                assert(n[i] == t[i] && n[j] == t[j - 1]);
                if j - 1 > i {
                    assert(key_le(t[i], t[j - 1]));
                }
            } else {
                assert(n[i] == t[i - 1] && n[j] == t[j - 1]);
            }
        }
    }
}

/// Every platform with a RetroAchievements console id is a catalogued
/// platform.
pub proof fn law_ra_platforms_are_catalogued(p: Seq<char>)
    requires
        ra_console_spec(p) is Some,
    ensures
        exists|i: int| 0 <= i < catalogue().len() && (#[trigger] catalogue()[i]).id == p,
{
    let t = catalogue();
    assert(t[9].id == "genesis"@);
    assert(t[2].id == "n64"@);
    assert(t[1].id == "snes"@);
    assert(t[5].id == "gb"@);
    assert(t[7].id == "gba"@);
    assert(t[6].id == "gbc"@);
    assert(t[0].id == "nes"@);
    assert(t[21].id == "pcengine"@);
    assert(t[18].id == "segacd"@);
    assert(t[17].id == "sega32x"@);
    assert(t[15].id == "sms"@);
    assert(t[10].id == "ps1"@);
    assert(t[30].id == "lynx"@);
    assert(t[33].id == "ngp"@);
    assert(t[16].id == "gamegear"@);
    assert(t[3].id == "gamecube"@);
    assert(t[31].id == "jaguar"@);
    assert(t[8].id == "nds"@);
    assert(t[11].id == "ps2"@);
    assert(t[27].id == "atari2600"@);
    assert(t[38].id == "arcade"@);
    assert(t[22].id == "virtualboy"@);
    assert(t[19].id == "saturn"@);
    assert(t[20].id == "dreamcast"@);
    assert(t[12].id == "psp"@);
    assert(t[34].id == "colecovision"@);
    assert(t[32].id == "wonderswan"@);
    assert(t[29].id == "atari7800"@);
    assert(t[37].id == "msx"@);
}


// ── requests and replies ───────────────────────────────────────────────────

/// The credentials as query values: (`z`/`u` username, `y` API key),
/// percent-encoded.
pub open spec fn ra_user(c: RetroAchievementsCredentials) -> Seq<char> {
    pct_encode(encode_utf8(c.username@))
}

pub open spec fn ra_key(c: RetroAchievementsCredentials) -> Seq<char> {
    pct_encode(encode_utf8(c.api_key@))
}

/// `API_GetGameList.php` for a console, with hashes off (`f=1`).
pub open spec fn game_list_url_spec(c: RetroAchievementsCredentials, console: i64) -> Seq<char> {
    "https://retroachievements.org/API"@ + "/API_GetGameList.php?z="@ + ra_user(c) + "&y="@ + ra_key(c)
        + "&i="@ + dec_signed(console as int) + "&f=1"@
}

/// `API_GetGameInfoAndUserProgress.php` for an RA game and the user.
pub open spec fn progress_url_spec(c: RetroAchievementsCredentials, ra_game_id: i64) -> Seq<char> {
    "https://retroachievements.org/API"@ + "/API_GetGameInfoAndUserProgress.php?z="@ + ra_user(c) + "&y="@
        + ra_key(c) + "&u="@ + ra_user(c) + "&g="@ + dec_signed(ra_game_id as int)
}

/// `API_GetUserSummary.php` for the user, with five recent games and five
/// recent achievements.
pub open spec fn summary_url_spec(c: RetroAchievementsCredentials) -> Seq<char> {
    "https://retroachievements.org/API"@ + "/API_GetUserSummary.php?z="@ + ra_user(c) + "&y="@ + ra_key(c)
        + "&u="@ + ra_user(c) + "&g=5&a=5"@
}

/// The game-list request URL.
pub fn game_list_url(creds: &RetroAchievementsCredentials, console: i64) -> (r: String)
    ensures
        r@ == game_list_url_spec(*creds, console),
{
    let u = urlencode(creds.username.as_str());
    let k = urlencode(creds.api_key.as_str());
    let mut v = chars_of(API_BASE);
    push_str(&mut v, "/API_GetGameList.php?z=");
    push_all(&mut v, &chars_of(u.as_str()));
    push_str(&mut v, "&y=");
    push_all(&mut v, &chars_of(k.as_str()));
    push_str(&mut v, "&i=");
    push_dec_i64(&mut v, console);
    push_str(&mut v, "&f=1");
    string_of(&v)
}

/// The progress request URL of an RA game.
pub fn progress_url(creds: &RetroAchievementsCredentials, ra_game_id: i64) -> (r: String)
    ensures
        r@ == progress_url_spec(*creds, ra_game_id),
{
    let u = urlencode(creds.username.as_str());
    let k = urlencode(creds.api_key.as_str());
    let mut v = chars_of(API_BASE);
    push_str(&mut v, "/API_GetGameInfoAndUserProgress.php?z=");
    push_all(&mut v, &chars_of(u.as_str()));
    push_str(&mut v, "&y=");
    push_all(&mut v, &chars_of(k.as_str()));
    push_str(&mut v, "&u=");
    push_all(&mut v, &chars_of(u.as_str()));
    push_str(&mut v, "&g=");
    push_dec_i64(&mut v, ra_game_id);
    string_of(&v)
}

/// The user-summary request URL.
pub fn summary_url(creds: &RetroAchievementsCredentials) -> (r: String)
    ensures
        r@ == summary_url_spec(*creds),
{
    let u = urlencode(creds.username.as_str());
    let k = urlencode(creds.api_key.as_str());
    let mut v = chars_of(API_BASE);
    push_str(&mut v, "/API_GetUserSummary.php?z=");
    push_all(&mut v, &chars_of(u.as_str()));
    push_str(&mut v, "&y=");
    push_all(&mut v, &chars_of(k.as_str()));
    push_str(&mut v, "&u=");
    push_all(&mut v, &chars_of(u.as_str()));
    push_str(&mut v, "&g=5&a=5");
    string_of(&v)
}

/// One entry of a game-list reply: its `Title` and `ID`, when present.
#[derive(Debug, Clone)]
pub struct RaGameJson {
    pub title: Option<String>,
    pub id: Option<RaNumber>,
}

/// `p` occurs in `s`.
pub open spec fn contains_text(s: Seq<char>, p: Seq<char>) -> bool {
    find_sub_from(s, p, 0) != -1
}

/// The games a search keeps, in reply order: those whose lowercased title
/// contains the lowercased, trimmed query (all when it is empty) and that
/// carry a numeric id, at most 50.
pub open spec fn search_picks(gs: Seq<RaGameJson>, needle: Seq<char>) -> Seq<(i64, Seq<char>)>
    decreases gs.len(),
{
    if gs.len() == 0 {
        seq![]
    } else {
        let prev = search_picks(gs.drop_last(), needle);
        let g = gs.last();
        let title = match g.title {
            Some(t) => t@,
            None => seq![],
        };
        if prev.len() >= 50 {
            prev
        } else if (needle.len() == 0 || contains_text(unicode_lower(title), needle)) && opt_number(g.id) is Some {
            prev.push((opt_number(g.id)->0, title))
        } else {
            prev
        }
    }
}

/// The link-picker candidates of a game-list reply for a query.
pub fn search_candidates(games: &Vec<RaGameJson>, query: &str) -> (r: Vec<RaGameCandidate>)
    ensures
        r@.map_values(|c: RaGameCandidate| (c.ra_game_id, c.title@)) == search_picks(
            games@,
            unicode_lower(trim(query@)),
        ),
{
    let needle = chars_of(to_lowercase(string_of(&trim_vec(&chars_of(query))).as_str()).as_str());
    let ghost nv = unicode_lower(trim(query@));
    let mut out: Vec<RaGameCandidate> = Vec::new();
    let mut i: usize = 0;
    proof {
        assert(games@.take(0) =~= Seq::<RaGameJson>::empty());
        assert(out@.map_values(|c: RaGameCandidate| (c.ra_game_id, c.title@)) =~= Seq::<(i64, Seq<char>)>::empty());
    }
    while i < games.len()
        invariant
            i <= games.len(),
            needle@ == nv,
            nv == unicode_lower(trim(query@)),
            out@.map_values(|c: RaGameCandidate| (c.ra_game_id, c.title@)) == search_picks(games@.take(i as int), nv),
            out.len() <= 50,
        decreases games.len() - i,
    {
        proof {
            assert(games@.take(i as int + 1).drop_last() =~= games@.take(i as int));
            assert(games@.take(i as int + 1).last() == games@[i as int]);
            lemma_search_picks_len(games@.take(i as int), nv);
        }
        if out.len() >= 50 {
            proof {
                let k = i as int;
                assert(search_picks(games@.take(k + 1), nv) == search_picks(games@.take(k), nv));
                lemma_search_picks_capped(games@, k + 1, nv);
                assert(games@.take(games.len() as int) =~= games@);
            }
            return out;
        }
        let g = &games[i];
        let title = match &g.title {
            Some(t) => chars_of(t.as_str()),
            None => Vec::new(),
        };
        let hit = needle.len() == 0 || find_sub_vec(&chars_of(to_lowercase(string_of(&title).as_str()).as_str()), &needle).is_some();
        if hit {
            let id = match &g.id {
                Some(n) => value_as_i64(n),
                None => None,
            };
            match id {
                Some(n) => {
                    let ghost before = out@;
                    let c = RaGameCandidate { ra_game_id: n, title: string_of(&title) };
                    out.push(c);
                    proof {
                        assert(out@.map_values(|c: RaGameCandidate| (c.ra_game_id, c.title@)) =~= before.map_values(
                            |c: RaGameCandidate| (c.ra_game_id, c.title@),
                        ).push((n, title@)));
                    }
                },
                None => {},
            }
        }
        i += 1;
    }
    proof {
        assert(games@.take(games.len() as int) =~= games@);
    }
    out
}

proof fn lemma_search_picks_len(gs: Seq<RaGameJson>, needle: Seq<char>)
    ensures
        search_picks(gs, needle).len() <= 50,
        search_picks(gs, needle).len() <= gs.len(),
    decreases gs.len(),
{
    if gs.len() > 0 {
        lemma_search_picks_len(gs.drop_last(), needle);
    }
}

/// Once 50 games are picked, later entries change nothing.
proof fn lemma_search_picks_capped(gs: Seq<RaGameJson>, k: int, needle: Seq<char>)
    requires
        0 <= k <= gs.len(),
        search_picks(gs.take(k), needle).len() >= 50,
    ensures
        search_picks(gs, needle) == search_picks(gs.take(k), needle),
    decreases gs.len() - k,
{
    if k < gs.len() {
        assert(gs.take(k + 1).drop_last() =~= gs.take(k));
        lemma_search_picks_capped(gs, k + 1, needle);
    } else {
        assert(gs.take(k) =~= gs);
    }
}

/// A user-summary reply: `TotalPoints`, `Rank`, and the length of
/// `RecentlyPlayed` when it is an array.
#[derive(Debug, Clone)]
pub struct RaSummaryJson {
    pub total_points: Option<RaNumber>,
    pub rank: Option<RaNumber>,
    pub recently_played: Option<usize>,
}

/// The headline numbers of a summary reply; a missing or unreadable number
/// counts 0.
pub fn user_summary(username: &str, reply: &RaSummaryJson) -> (r: RaUserSummary)
    ensures
        r.username@ == username@,
        r.total_points == match opt_number(reply.total_points) {
            Some(n) => n,
            None => 0,
        },
        r.rank == match opt_number(reply.rank) {
            Some(n) => n,
            None => 0,
        },
        r.recently_played_count == match reply.recently_played {
            Some(n) => n as i64,
            None => 0,
        },
{
    let total_points = match &reply.total_points {
        Some(n) => match value_as_i64(n) {
            Some(v) => v,
            None => 0,
        },
        None => 0,
    };
    let rank = match &reply.rank {
        Some(n) => match value_as_i64(n) {
            Some(v) => v,
            None => 0,
        },
        None => 0,
    };
    let recently_played_count = match reply.recently_played {
        Some(n) => n as i64,
        None => 0,
    };
    RaUserSummary { username: string_of(&chars_of(username)), total_points, rank, recently_played_count }
}

} // verus!
