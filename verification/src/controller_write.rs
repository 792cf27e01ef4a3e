//! Materialising per-system controller profiles into emulator config.
//!
//! A profile stores each binding as a device-agnostic W3C Standard Gamepad
//! descriptor (`btn:N`, `axis:N+`/`axis:N-`). Per emulator, an encoder turns a
//! descriptor into that emulator's native token, and a surgical writer edits one
//! config line in place, preserving every other byte. Inputs whose mapping is
//! not stable are reported unencoded rather than guessed.
use vstd::prelude::*;
use crate::bindings::Bindings;
use crate::text::{
    chars_of, dec, eq_str, first_from, join_lines, join_lines_vec, lemma_first_from, lines,
    lines_vec, parse_u32, parse_u32_vec, push_all, push_dec, push_str, slice_of, strip_prefix,
    strip_prefix_str, string_of, trim, trim_start, trim_start_vec, trim_vec, ends_in_newline,
    views, is_ws, lemma_first_from_at,
    lemma_trim_start_ws_prefix, lemma_trim_start_drops_ws, segments, segments_vec, strip_cr, strip_cr_vec,
    lemma_segments_shape, lemma_segments_join, lemma_segments_of_join,
};

verus! {

/// A parsed W3C Standard Gamepad descriptor.
#[derive(Debug, Clone, Copy, PartialEq, Eq, Structural)]
pub enum W3cInput {
    /// A button index (`btn:5`).
    Button(u32),
    /// An axis half (`axis:1-` => index 1, negative).
    Axis(u32, AxisSign),
}

#[derive(Debug, Clone, Copy, PartialEq, Eq, Structural)]
pub enum AxisSign {
    Pos,
    Neg,
}

pub open spec fn glyph_spec(s: AxisSign) -> char {
    match s {
        AxisSign::Pos => '+',
        AxisSign::Neg => '-',
    }
}

impl AxisSign {
    pub fn glyph(self) -> (c: char)
        ensures
            c == glyph_spec(self),
    {
        match self {
            AxisSign::Pos => '+',
            AxisSign::Neg => '-',
        }
    }
}

/// What [`parse_w3c`] reads from a stored descriptor: after trimming, `btn:`
/// and a `u32`, or `axis:`, a `u32` and a closing `+`/`-`.
pub open spec fn parse_w3c_spec(desc: Seq<char>) -> Option<W3cInput> {
    let d = trim(desc);
    match strip_prefix(d, "btn:"@) {
        Some(rest) => match parse_u32(rest) {
            Some(n) => Some(W3cInput::Button(n)),
            None => None,
        },
        None => match strip_prefix(d, "axis:"@) {
            Some(rest) => if rest.len() > 0 && rest.last() == '+' {
                match parse_u32(rest.drop_last()) {
                    Some(n) => Some(W3cInput::Axis(n, AxisSign::Pos)),
                    None => None,
                }
            } else if rest.len() > 0 && rest.last() == '-' {
                match parse_u32(rest.drop_last()) {
                    Some(n) => Some(W3cInput::Axis(n, AxisSign::Neg)),
                    None => None,
                }
            } else {
                None
            },
            None => None,
        },
    }
}

/// Parse a stored W3C descriptor. `None` for anything malformed, so a corrupt
/// profile entry is skipped rather than written as garbage.
pub fn parse_w3c(desc: &str) -> (r: Option<W3cInput>)
    ensures
        r == parse_w3c_spec(desc@),
{
    let d = chars_of(desc);
    parse_w3c_chars(&d)
}

pub fn parse_w3c_chars(desc: &Vec<char>) -> (r: Option<W3cInput>)
    ensures
        r == parse_w3c_spec(desc@),
{
    let d = trim_vec(desc);
    match strip_prefix_str(&d, "btn:") {
        Some(rest) => {
            return match parse_u32_vec(&rest) {
                Some(n) => Some(W3cInput::Button(n)),
                None => None,
            };
        },
        None => {},
    }
    match strip_prefix_str(&d, "axis:") {
        Some(rest) => {
            let n = rest.len();
            if n > 0 && rest[n - 1] == '+' {
                let num = slice_of(&rest, 0, n - 1);
                proof {
                    assert(num@ =~= rest@.drop_last());
                }
                match parse_u32_vec(&num) {
                    Some(i) => Some(W3cInput::Axis(i, AxisSign::Pos)),
                    None => None,
                }
            } else if n > 0 && rest[n - 1] == '-' {
                let num = slice_of(&rest, 0, n - 1);
                proof {
                    assert(num@ =~= rest@.drop_last());
                }
                match parse_u32_vec(&num) {
                    Some(i) => Some(W3cInput::Axis(i, AxisSign::Neg)),
                    None => None,
                }
            } else {
                None
            }
        },
        None => None,
    }
}

/// One resolved config assignment: the full config key and its value.
#[derive(Debug, Clone, PartialEq, Eq)]
pub struct Assignment {
    pub key: String,
    pub value: String,
}

impl View for Assignment {
    type V = (Seq<char>, Seq<char>);

    open spec fn view(&self) -> (Seq<char>, Seq<char>) {
        (self.key@, self.value@)
    }
}

pub open spec fn opt_view(r: Option<Assignment>) -> Option<(Seq<char>, Seq<char>)> {
    match r {
        Some(a) => Some(a@),
        None => None,
    }
}

pub open spec fn assignment_views(v: Seq<Assignment>) -> Seq<(Seq<char>, Seq<char>)> {
    v.map_values(|a: Assignment| a@)
}

pub open spec fn string_views(v: Seq<String>) -> Seq<Seq<char>> {
    v.map_values(|s: String| s@)
}

/// What one profile entry contributes when a profile is materialised.
pub enum EntryOutcome {
    /// Handled elsewhere (contributes to neither list).
    Skip,
    /// Written as these assignments.
    Lines(Seq<(Seq<char>, Seq<char>)>),
    /// Reported back by input id for the emulator's own remap UI.
    Unencoded,
}

/// Materialising `entries` in order: the assignments written and the input ids
/// left unencoded.
pub open spec fn fold_outcomes(
    entries: Seq<(Seq<char>, Seq<char>)>,
    f: spec_fn(Seq<char>, Seq<char>) -> EntryOutcome,
) -> (Seq<(Seq<char>, Seq<char>)>, Seq<Seq<char>>)
    decreases entries.len(),
{
    if entries.len() == 0 {
        (seq![], seq![])
    } else {
        let prev = fold_outcomes(entries.drop_last(), f);
        let e = entries.last();
        match f(e.0, e.1) {
            EntryOutcome::Skip => prev,
            EntryOutcome::Lines(a) => (prev.0 + a, prev.1),
            EntryOutcome::Unencoded => (prev.0, prev.1.push(e.0)),
        }
    }
}

pub proof fn lemma_fold_step(
    entries: Seq<(Seq<char>, Seq<char>)>,
    i: int,
    f: spec_fn(Seq<char>, Seq<char>) -> EntryOutcome,
)
    requires
        0 <= i < entries.len(),
    ensures
        fold_outcomes(entries.take(i + 1), f) == ({
            let prev = fold_outcomes(entries.take(i), f);
            match f(entries[i].0, entries[i].1) {
                EntryOutcome::Skip => prev,
                EntryOutcome::Lines(a) => (prev.0 + a, prev.1),
                EntryOutcome::Unencoded => (prev.0, prev.1.push(entries[i].0)),
            }
        }),
{
    assert(entries.take(i + 1).drop_last() =~= entries.take(i));
}

/// Record one entry's outcome in the output lists.
fn emit(
    out: &mut Vec<Assignment>,
    unencoded: &mut Vec<String>,
    id: &String,
    res: Option<Assignment>,
)
    ensures
        match res {
            Some(a) => assignment_views(final(out)@) == assignment_views(old(out)@).push(a@)
                && string_views(final(unencoded)@) == string_views(old(unencoded)@),
            None => assignment_views(final(out)@) == assignment_views(old(out)@)
                && string_views(final(unencoded)@) == string_views(old(unencoded)@).push(id@),
        },
{
    let ghost o = assignment_views(out@);
    let ghost u = string_views(unencoded@);
    match res {
        Some(a) => {
            out.push(a);
            proof {
                assert(assignment_views(out@) =~= o.push(a@));
                assert(string_views(unencoded@) =~= u);
            }
        },
        None => {
            unencoded.push(id.clone());
            proof {
                assert(assignment_views(out@) =~= o);
                assert(string_views(unencoded@) =~= u.push(id@));
            }
        },
    }
}

fn assignment_of(key: &Vec<char>, value: &Vec<char>) -> (a: Assignment)
    ensures
        a@ == (key@, value@),
{
    Assignment { key: string_of(key), value: string_of(value) }
}

// ── RetroArch ───────────────────────────────────────────────────────────────

/// The RetroPad config-key base (the `<name>` in `input_playerN_<name>_btn`) for a console input id; `None` where the console→RetroPad mapping is core-dependent (N64 C-buttons) and must not be written blind.
pub open spec fn retropad_base_spec(id: Seq<char>) -> Option<Seq<char>> {
    if id == "dpad_up"@ {
        Some("up"@)
    } else if id == "dpad_down"@ {
        Some("down"@)
    } else if id == "dpad_left"@ {
        Some("left"@)
    } else if id == "dpad_right"@ {
        Some("right"@)
    } else if id == "start"@ {
        Some("start"@)
    } else if id == "select"@ {
        Some("select"@)
    } else if id == "a"@ {
        Some("a"@)
    } else if id == "b"@ {
        Some("b"@)
    } else if id == "x"@ {
        Some("x"@)
    } else if id == "y"@ {
        Some("y"@)
    } else if id == "l"@ || id == "l1"@ {
        Some("l"@)
    } else if id == "r"@ || id == "r1"@ {
        Some("r"@)
    } else if id == "l2"@ {
        Some("l2"@)
    } else if id == "r2"@ {
        Some("r2"@)
    } else if id == "l3"@ {
        Some("l3"@)
    } else if id == "r3"@ {
        Some("r3"@)
    } else if id == "cross"@ {
        Some("b"@)
    } else if id == "circle"@ {
        Some("a"@)
    } else if id == "square"@ {
        Some("y"@)
    } else if id == "triangle"@ {
        Some("x"@)
    } else if id == "z"@ {
        Some("l2"@)
    } else if id == "stick_left"@ || id == "l_stick_left"@ {
        Some("l_x_minus"@)
    } else if id == "stick_right"@ || id == "l_stick_right"@ {
        Some("l_x_plus"@)
    } else if id == "stick_up"@ || id == "l_stick_up"@ {
        Some("l_y_minus"@)
    } else if id == "stick_down"@ || id == "l_stick_down"@ {
        Some("l_y_plus"@)
    } else if id == "r_stick_left"@ {
        Some("r_x_minus"@)
    } else if id == "r_stick_right"@ {
        Some("r_x_plus"@)
    } else if id == "r_stick_up"@ {
        Some("r_y_minus"@)
    } else if id == "r_stick_down"@ {
        Some("r_y_plus"@)
    } else {
        None
    }
}

/// Exec lookup of [`retropad_base_spec`].
fn retropad_base_chars(id: &Vec<char>) -> (r: Option<&'static str>)
    ensures
        match r {
            Some(v) => retropad_base_spec(id@) == Some(v@),
            None => retropad_base_spec(id@) is None,
        },
{
    if eq_str(id, "dpad_up") {
        Some("up")
    } else if eq_str(id, "dpad_down") {
        Some("down")
    } else if eq_str(id, "dpad_left") {
        Some("left")
    } else if eq_str(id, "dpad_right") {
        Some("right")
    } else if eq_str(id, "start") {
        Some("start")
    } else if eq_str(id, "select") {
        Some("select")
    } else if eq_str(id, "a") {
        Some("a")
    } else if eq_str(id, "b") {
        Some("b")
    } else if eq_str(id, "x") {
        Some("x")
    } else if eq_str(id, "y") {
        Some("y")
    } else if eq_str(id, "l") || eq_str(id, "l1") {
        Some("l")
    } else if eq_str(id, "r") || eq_str(id, "r1") {
        Some("r")
    } else if eq_str(id, "l2") {
        Some("l2")
    } else if eq_str(id, "r2") {
        Some("r2")
    } else if eq_str(id, "l3") {
        Some("l3")
    } else if eq_str(id, "r3") {
        Some("r3")
    } else if eq_str(id, "cross") {
        Some("b")
    } else if eq_str(id, "circle") {
        Some("a")
    } else if eq_str(id, "square") {
        Some("y")
    } else if eq_str(id, "triangle") {
        Some("x")
    } else if eq_str(id, "z") {
        Some("l2")
    } else if eq_str(id, "stick_left") || eq_str(id, "l_stick_left") {
        Some("l_x_minus")
    } else if eq_str(id, "stick_right") || eq_str(id, "l_stick_right") {
        Some("l_x_plus")
    } else if eq_str(id, "stick_up") || eq_str(id, "l_stick_up") {
        Some("l_y_minus")
    } else if eq_str(id, "stick_down") || eq_str(id, "l_stick_down") {
        Some("l_y_plus")
    } else if eq_str(id, "r_stick_left") {
        Some("r_x_minus")
    } else if eq_str(id, "r_stick_right") {
        Some("r_x_plus")
    } else if eq_str(id, "r_stick_up") {
        Some("r_y_minus")
    } else if eq_str(id, "r_stick_down") {
        Some("r_y_plus")
    } else {
        None
    }
}

/// Map a console input id to its RetroPad config-key base. `None` when the
/// console→RetroPad mapping is not stable enough to write blind.
pub fn retropad_base(input_id: &str) -> (r: Option<&'static str>)
    ensures
        match r {
            Some(v) => retropad_base_spec(input_id@) == Some(v@),
            None => retropad_base_spec(input_id@) is None,
        },
{
    let id = chars_of(input_id);
    retropad_base_chars(&id)
}

/// `input_player<player>_<base>_btn = "<n>"` / `_axis = "<±n>"`.
pub open spec fn retroarch_assignment(player: u8, id: Seq<char>, w3c: W3cInput) -> Option<
    (Seq<char>, Seq<char>),
> {
    match retropad_base_spec(id) {
        None => None,
        Some(base) => {
            let (suffix, value) = match w3c {
                W3cInput::Button(n) => ("btn"@, dec(n as nat)),
                W3cInput::Axis(n, sign) => ("axis"@, seq![glyph_spec(sign)] + dec(n as nat)),
            };
            Some(
                (
                    "input_player"@ + dec(player as nat) + "_"@ + base + "_"@ + suffix,
                    seq!['"'] + value + seq!['"'],
                ),
            )
        },
    }
}

/// Encode one (console input, captured descriptor) pair into a `retroarch.cfg`
/// assignment for the given player (1-based). `None` when the input has no
/// stable RetroPad mapping.
pub fn encode_retroarch(player: u8, input_id: &str, w3c: W3cInput) -> (r: Option<Assignment>)
    ensures
        opt_view(r) == retroarch_assignment(player, input_id@, w3c),
{
    let id = chars_of(input_id);
    encode_retroarch_chars(player, &id, w3c)
}

fn encode_retroarch_chars(player: u8, id: &Vec<char>, w3c: W3cInput) -> (r: Option<Assignment>)
    ensures
        opt_view(r) == retroarch_assignment(player, id@, w3c),
{
    let base = match retropad_base_chars(id) {
        Some(b) => b,
        None => return None,
    };
    let mut key: Vec<char> = Vec::new();
    push_str(&mut key, "input_player");
    push_dec(&mut key, player as u32);
    push_str(&mut key, "_");
    push_str(&mut key, base);
    push_str(&mut key, "_");
    let mut value: Vec<char> = Vec::new();
    value.push('"');
    match w3c {
        W3cInput::Button(n) => {
            push_str(&mut key, "btn");
            push_dec(&mut value, n);
        },
        W3cInput::Axis(n, sign) => {
            push_str(&mut key, "axis");
            value.push(sign.glyph());
            push_dec(&mut value, n);
        },
    }
    value.push('"');
    let a = assignment_of(&key, &value);
    proof {
        let spec = retroarch_assignment(player, id@, w3c);
        assert(spec is Some);
        assert(a@ =~= spec->0);
    }
    Some(a)
}

pub open spec fn retroarch_outcome(player: u8, id: Seq<char>, desc: Seq<char>) -> EntryOutcome {
    match parse_w3c_spec(desc) {
        None => EntryOutcome::Unencoded,
        Some(w) => match retroarch_assignment(player, id, w) {
            None => EntryOutcome::Unencoded,
            Some(a) => EntryOutcome::Lines(seq![a]),
        },
    }
}

/// Turn a whole profile into the RetroArch assignments to write, in input-id
/// order. Malformed descriptors and inputs without a stable RetroPad mapping are
/// returned in the second list.
pub fn materialize_retroarch(player: u8, bindings: &Bindings) -> (r: (Vec<Assignment>, Vec<String>))
    ensures
        (assignment_views(r.0@), string_views(r.1@)) == fold_outcomes(
            bindings.pairs(),
            |id: Seq<char>, d: Seq<char>| retroarch_outcome(player, id, d),
        ),
{
    let ghost f = |id: Seq<char>, d: Seq<char>| retroarch_outcome(player, id, d);
    let ghost s = bindings.pairs();
    let mut out: Vec<Assignment> = Vec::new();
    let mut unencoded: Vec<String> = Vec::new();
    let mut i: usize = 0;
    proof {
        assert(s.take(0) =~= Seq::<(Seq<char>, Seq<char>)>::empty());
        assert(assignment_views(out@) =~= Seq::<(Seq<char>, Seq<char>)>::empty());
        assert(string_views(unencoded@) =~= Seq::<Seq<char>>::empty());
    }
    while i < bindings.len()
        invariant
            i <= s.len(),
            s == bindings.pairs(),
            f == (|id: Seq<char>, d: Seq<char>| retroarch_outcome(player, id, d)),
            (assignment_views(out@), string_views(unencoded@)) == fold_outcomes(s.take(i as int), f),
        decreases s.len() - i,
    {
        let e = bindings.entry(i);
        let id = chars_of(e.0.as_str());
        let d = chars_of(e.1.as_str());
        let res = match parse_w3c_chars(&d) {
            Some(w) => encode_retroarch_chars(player, &id, w),
            None => None,
        };
        proof {
            lemma_fold_step(s, i as int, f);
            assert(s[i as int].0 == id@);
            assert(s[i as int].1 == d@);
            assert(f(s[i as int].0, s[i as int].1) == retroarch_outcome(player, id@, d@));
            match retroarch_outcome(player, id@, d@) {
                EntryOutcome::Lines(a) => assert(a == seq![opt_view(res)->0]),
                EntryOutcome::Unencoded => assert(res is None),
                EntryOutcome::Skip => assert(false),
            }
        }
        emit(&mut out, &mut unencoded, &e.0, res);
        proof {
            let nxt = fold_outcomes(s.take(i + 1), f);
            assert(nxt.0 =~= assignment_views(out@));
            assert(nxt.1 =~= string_views(unencoded@));
        }
        i += 1;
    }
    proof {
        assert(s.take(s.len() as int) =~= s);
    }
    (out, unencoded)
}


// ── Raw SDL-joystick elements (Mupen64Plus, Mednafen, Snes9x, mGBA) ─────────

/// A raw SDL joystick element, as emulators address it in manual mode.
#[derive(Debug, Clone, Copy, PartialEq, Eq, Structural)]
pub enum RawElement {
    Button(u32),
    /// A full analog axis (the direction sign comes from the capture).
    Axis(u32),
    Hat(u32, HatDir),
}

#[derive(Debug, Clone, Copy, PartialEq, Eq, Structural)]
pub enum HatDir {
    Up,
    Down,
    Left,
    Right,
}

pub open spec fn hat_word(d: HatDir) -> Seq<char> {
    match d {
        HatDir::Up => "Up"@,
        HatDir::Down => "Down"@,
        HatDir::Left => "Left"@,
        HatDir::Right => "Right"@,
    }
}

impl HatDir {
    pub fn word(self) -> (r: &'static str)
        ensures
            r@ == hat_word(self),
    {
        match self {
            HatDir::Up => "Up",
            HatDir::Down => "Down",
            HatDir::Left => "Left",
            HatDir::Right => "Right",
        }
    }
}

// SDL_GameControllerButton / SDL_GameControllerAxis values (SDL2).
pub const SDL_BTN_A: u32 = 0;
pub const SDL_BTN_B: u32 = 1;
pub const SDL_BTN_X: u32 = 2;
pub const SDL_BTN_Y: u32 = 3;
pub const SDL_BTN_BACK: u32 = 4;
pub const SDL_BTN_GUIDE: u32 = 5;
pub const SDL_BTN_START: u32 = 6;
pub const SDL_BTN_LSTICK: u32 = 7;
pub const SDL_BTN_RSTICK: u32 = 8;
pub const SDL_BTN_LSHOULDER: u32 = 9;
pub const SDL_BTN_RSHOULDER: u32 = 10;
pub const SDL_BTN_DPAD_UP: u32 = 11;
pub const SDL_BTN_DPAD_DOWN: u32 = 12;
pub const SDL_BTN_DPAD_LEFT: u32 = 13;
pub const SDL_BTN_DPAD_RIGHT: u32 = 14;

pub const SDL_AXIS_LEFTX: u32 = 0;
pub const SDL_AXIS_LEFTY: u32 = 1;
pub const SDL_AXIS_RIGHTX: u32 = 2;
pub const SDL_AXIS_RIGHTY: u32 = 3;
pub const SDL_AXIS_TRIGGERLEFT: u32 = 4;
pub const SDL_AXIS_TRIGGERRIGHT: u32 = 5;

/// A SDL gamecontroller element: the intermediate a W3C index maps to before
/// the device mapping resolves it to a raw joystick element.
#[derive(Debug, Clone, Copy, PartialEq, Eq, Structural)]
pub enum SdlGc {
    Button(u32),
    Axis(u32, AxisSign),
}

/// W3C/gilrs order → SDL enum order; the analog triggers are buttons in W3C
/// but axes in SDL. `None` outside the standard layout.
pub open spec fn w3c_to_sdl_gc_spec(w3c: W3cInput) -> Option<SdlGc> {
    match w3c {
        W3cInput::Button(n) => if n == 0 {
            Some(SdlGc::Button(SDL_BTN_A))
        } else if n == 1 {
            Some(SdlGc::Button(SDL_BTN_B))
        } else if n == 2 {
            Some(SdlGc::Button(SDL_BTN_X))
        } else if n == 3 {
            Some(SdlGc::Button(SDL_BTN_Y))
        } else if n == 4 {
            Some(SdlGc::Button(SDL_BTN_LSHOULDER))
        } else if n == 5 {
            Some(SdlGc::Button(SDL_BTN_RSHOULDER))
        } else if n == 6 {
            Some(SdlGc::Axis(SDL_AXIS_TRIGGERLEFT, AxisSign::Pos))
        } else if n == 7 {
            Some(SdlGc::Axis(SDL_AXIS_TRIGGERRIGHT, AxisSign::Pos))
        } else if n == 8 {
            Some(SdlGc::Button(SDL_BTN_BACK))
        } else if n == 9 {
            Some(SdlGc::Button(SDL_BTN_START))
        } else if n == 10 {
            Some(SdlGc::Button(SDL_BTN_LSTICK))
        } else if n == 11 {
            Some(SdlGc::Button(SDL_BTN_RSTICK))
        } else if n == 12 {
            Some(SdlGc::Button(SDL_BTN_DPAD_UP))
        } else if n == 13 {
            Some(SdlGc::Button(SDL_BTN_DPAD_DOWN))
        } else if n == 14 {
            Some(SdlGc::Button(SDL_BTN_DPAD_LEFT))
        } else if n == 15 {
            Some(SdlGc::Button(SDL_BTN_DPAD_RIGHT))
        } else if n == 16 {
            Some(SdlGc::Button(SDL_BTN_GUIDE))
        } else {
            None
        },
        W3cInput::Axis(n, sign) => if n == 0 {
            Some(SdlGc::Axis(SDL_AXIS_LEFTX, sign))
        } else if n == 1 {
            Some(SdlGc::Axis(SDL_AXIS_LEFTY, sign))
        } else if n == 2 {
            Some(SdlGc::Axis(SDL_AXIS_RIGHTX, sign))
        } else if n == 3 {
            Some(SdlGc::Axis(SDL_AXIS_RIGHTY, sign))
        } else {
            None
        },
    }
}

pub fn w3c_to_sdl_gc(w3c: W3cInput) -> (r: Option<SdlGc>)
    ensures
        r == w3c_to_sdl_gc_spec(w3c),
{
    match w3c {
        W3cInput::Button(n) => {
            let b = if n == 0 {
                SdlGc::Button(SDL_BTN_A)
            } else if n == 1 {
                SdlGc::Button(SDL_BTN_B)
            } else if n == 2 {
                SdlGc::Button(SDL_BTN_X)
            } else if n == 3 {
                SdlGc::Button(SDL_BTN_Y)
            } else if n == 4 {
                SdlGc::Button(SDL_BTN_LSHOULDER)
            } else if n == 5 {
                SdlGc::Button(SDL_BTN_RSHOULDER)
            } else if n == 6 {
                SdlGc::Axis(SDL_AXIS_TRIGGERLEFT, AxisSign::Pos)
            } else if n == 7 {
                SdlGc::Axis(SDL_AXIS_TRIGGERRIGHT, AxisSign::Pos)
            } else if n == 8 {
                SdlGc::Button(SDL_BTN_BACK)
            } else if n == 9 {
                SdlGc::Button(SDL_BTN_START)
            } else if n == 10 {
                SdlGc::Button(SDL_BTN_LSTICK)
            } else if n == 11 {
                SdlGc::Button(SDL_BTN_RSTICK)
            } else if n == 12 {
                SdlGc::Button(SDL_BTN_DPAD_UP)
            } else if n == 13 {
                SdlGc::Button(SDL_BTN_DPAD_DOWN)
            } else if n == 14 {
                SdlGc::Button(SDL_BTN_DPAD_LEFT)
            } else if n == 15 {
                SdlGc::Button(SDL_BTN_DPAD_RIGHT)
            } else if n == 16 {
                SdlGc::Button(SDL_BTN_GUIDE)
            } else {
                return None;
            };
            Some(b)
        },
        W3cInput::Axis(n, sign) => {
            if n == 0 {
                Some(SdlGc::Axis(SDL_AXIS_LEFTX, sign))
            } else if n == 1 {
                Some(SdlGc::Axis(SDL_AXIS_LEFTY, sign))
            } else if n == 2 {
                Some(SdlGc::Axis(SDL_AXIS_RIGHTX, sign))
            } else if n == 3 {
                Some(SdlGc::Axis(SDL_AXIS_RIGHTY, sign))
            } else {
                None
            }
        },
    }
}

/// One physical pad's resolved mapping from SDL gamecontroller elements to
/// raw SDL joystick elements, built from a live probe.
#[derive(Debug, Clone, PartialEq, Eq)]
pub struct PadMapping {
    buttons: std::collections::BTreeMap<u32, RawElement>,
    axes: std::collections::BTreeMap<u32, RawElement>,
}

impl Default for PadMapping {
    /// The empty mapping: no button or axis resolved yet.
    fn default() -> (r: Self)
        ensures
            r.button_map() == Map::<u32, RawElement>::empty(),
            r.axis_map() == Map::<u32, RawElement>::empty(),
    {
        PadMapping {
            buttons: std::collections::BTreeMap::new(),
            axes: std::collections::BTreeMap::new(),
        }
    }
}

impl PadMapping {
    /// The raw element each SDL gamecontroller button resolves to.
    pub closed spec fn button_map(&self) -> Map<u32, RawElement> {
        self.buttons@
    }

    /// The raw element each SDL gamecontroller axis resolves to.
    pub closed spec fn axis_map(&self) -> Map<u32, RawElement> {
        self.axes@
    }

    /// The empty mapping: no button or axis resolved yet; the same as
    /// `PadMapping::default()`.
    pub fn new() -> (r: Self)
        ensures
            r.button_map() == Map::<u32, RawElement>::empty(),
            r.axis_map() == Map::<u32, RawElement>::empty(),
    {
        Self::default()
    }

    /// Record the raw element a SDL gamecontroller button resolves to.
    pub fn set_button(&mut self, sdl_button: u32, raw: RawElement)
        ensures
            final(self).button_map() == old(self).button_map().insert(sdl_button, raw),
            final(self).axis_map() == old(self).axis_map(),
    {
        broadcast use vstd::std_specs::btree::group_btree_axioms;
        self.buttons.insert(sdl_button, raw);
    }

    /// Record the raw element a SDL gamecontroller axis resolves to.
    pub fn set_axis(&mut self, sdl_axis: u32, raw: RawElement)
        ensures
            final(self).axis_map() == old(self).axis_map().insert(sdl_axis, raw),
            final(self).button_map() == old(self).button_map(),
    {
        broadcast use vstd::std_specs::btree::group_btree_axioms;
        self.axes.insert(sdl_axis, raw);
    }

    pub fn is_empty(&self) -> (b: bool)
        ensures
            b == (self.button_map().dom().is_empty() && self.axis_map().dom().is_empty()),
    {
        let b = self.buttons.is_empty() && self.axes.is_empty();
        proof {
            assert(self.buttons@.is_empty() == self.buttons@.dom().is_empty());
            assert(self.axes@.is_empty() == self.axes@.dom().is_empty());
        }
        b
    }

    fn button(&self, b: u32) -> (r: Option<RawElement>)
        ensures
            r == (if self.button_map().contains_key(b) {
                Some(self.button_map()[b])
            } else {
                None
            }),
    {
        broadcast use vstd::std_specs::btree::group_btree_axioms;
        match self.buttons.get(&b) {
            Some(e) => Some(*e),
            None => None,
        }
    }

    fn axis(&self, a: u32) -> (r: Option<RawElement>)
        ensures
            r == (if self.axis_map().contains_key(a) {
                Some(self.axis_map()[a])
            } else {
                None
            }),
    {
        broadcast use vstd::std_specs::btree::group_btree_axioms;
        match self.axes.get(&a) {
            Some(e) => Some(*e),
            None => None,
        }
    }
}

/// A raw element plus the direction sign carried from the capture (only
/// meaningful for an axis half).
#[derive(Debug, Clone, Copy, PartialEq, Eq, Structural)]
pub struct ResolvedRaw {
    pub element: RawElement,
    pub sign: AxisSign,
}

/// Resolve a W3C descriptor to this device's raw joystick element.
pub open spec fn resolve_raw_spec(w3c: W3cInput, m: PadMapping) -> Option<ResolvedRaw> {
    match w3c_to_sdl_gc_spec(w3c) {
        None => None,
        Some(SdlGc::Button(b)) => if m.button_map().contains_key(b) {
            Some(ResolvedRaw { element: m.button_map()[b], sign: AxisSign::Pos })
        } else {
            None
        },
        Some(SdlGc::Axis(a, sign)) => if m.axis_map().contains_key(a) {
            Some(ResolvedRaw { element: m.axis_map()[a], sign })
        } else {
            None
        },
    }
}

pub fn resolve_raw(w3c: W3cInput, mapping: &PadMapping) -> (r: Option<ResolvedRaw>)
    ensures
        r == resolve_raw_spec(w3c, *mapping),
{
    match w3c_to_sdl_gc(w3c) {
        None => None,
        Some(SdlGc::Button(b)) => match mapping.button(b) {
            Some(element) => Some(ResolvedRaw { element, sign: AxisSign::Pos }),
            None => None,
        },
        Some(SdlGc::Axis(a, sign)) => match mapping.axis(a) {
            Some(element) => Some(ResolvedRaw { element, sign }),
            None => None,
        },
    }
}

// ── Mupen64Plus ─────────────────────────────────────────────────────────────

/// A resolved raw element as a Mupen value token (`button(11)`, `axis(5+)`,
/// `hat(0 Up)`).
pub open spec fn mupen_token_spec(r: ResolvedRaw) -> Seq<char> {
    match r.element {
        RawElement::Button(n) => "button("@ + dec(n as nat) + ")"@,
        RawElement::Hat(n, dir) => "hat("@ + dec(n as nat) + " "@ + hat_word(dir) + ")"@,
        RawElement::Axis(n) => "axis("@ + dec(n as nat) + seq![glyph_spec(r.sign)] + ")"@,
    }
}

fn push_mupen_token(out: &mut Vec<char>, r: ResolvedRaw)
    ensures
        final(out)@ == old(out)@ + mupen_token_spec(r),
{
    let ghost o = out@;
    match r.element {
        RawElement::Button(n) => {
            push_str(out, "button(");
            push_dec(out, n);
            push_str(out, ")");
        },
        RawElement::Hat(n, dir) => {
            push_str(out, "hat(");
            push_dec(out, n);
            push_str(out, " ");
            push_str(out, dir.word());
            push_str(out, ")");
        },
        RawElement::Axis(n) => {
            push_str(out, "axis(");
            push_dec(out, n);
            out.push(r.sign.glyph());
            push_str(out, ")");
        },
    }
    proof {
        assert(out@ =~= o + mupen_token_spec(r));
    }
}

/// The `[Input-SDL-ControlN]` key of an N64 digital input id; the analog stick folds into `X Axis`/`Y Axis` instead.
pub open spec fn mupen_digital_key_spec(id: Seq<char>) -> Option<Seq<char>> {
    if id == "dpad_up"@ {
        Some("DPad U"@)
    } else if id == "dpad_down"@ {
        Some("DPad D"@)
    } else if id == "dpad_left"@ {
        Some("DPad L"@)
    } else if id == "dpad_right"@ {
        Some("DPad R"@)
    } else if id == "a"@ {
        Some("A Button"@)
    } else if id == "b"@ {
        Some("B Button"@)
    } else if id == "c_up"@ {
        Some("C Button U"@)
    } else if id == "c_down"@ {
        Some("C Button D"@)
    } else if id == "c_left"@ {
        Some("C Button L"@)
    } else if id == "c_right"@ {
        Some("C Button R"@)
    } else if id == "l"@ {
        Some("L Trig"@)
    } else if id == "r"@ {
        Some("R Trig"@)
    } else if id == "z"@ {
        Some("Z Trig"@)
    } else if id == "start"@ {
        Some("Start"@)
    } else {
        None
    }
}

/// Exec lookup of [`mupen_digital_key_spec`].
fn mupen_digital_key(id: &Vec<char>) -> (r: Option<&'static str>)
    ensures
        match r {
            Some(v) => mupen_digital_key_spec(id@) == Some(v@),
            None => mupen_digital_key_spec(id@) is None,
        },
{
    if eq_str(id, "dpad_up") {
        Some("DPad U")
    } else if eq_str(id, "dpad_down") {
        Some("DPad D")
    } else if eq_str(id, "dpad_left") {
        Some("DPad L")
    } else if eq_str(id, "dpad_right") {
        Some("DPad R")
    } else if eq_str(id, "a") {
        Some("A Button")
    } else if eq_str(id, "b") {
        Some("B Button")
    } else if eq_str(id, "c_up") {
        Some("C Button U")
    } else if eq_str(id, "c_down") {
        Some("C Button D")
    } else if eq_str(id, "c_left") {
        Some("C Button L")
    } else if eq_str(id, "c_right") {
        Some("C Button R")
    } else if eq_str(id, "l") {
        Some("L Trig")
    } else if eq_str(id, "r") {
        Some("R Trig")
    } else if eq_str(id, "z") {
        Some("Z Trig")
    } else if eq_str(id, "start") {
        Some("Start")
    } else {
        None
    }
}

pub open spec fn quoted(v: Seq<char>) -> Seq<char> {
    seq!['"'] + v + seq!['"']
}

/// `<key> = "<token>"` for an N64 digital input, resolved through the pad.
pub open spec fn mupen_digital_assignment(id: Seq<char>, w3c: W3cInput, m: PadMapping) -> Option<
    (Seq<char>, Seq<char>),
> {
    match mupen_digital_key_spec(id) {
        None => None,
        Some(key) => match resolve_raw_spec(w3c, m) {
            None => None,
            Some(r) => Some((key, quoted(mupen_token_spec(r)))),
        },
    }
}

/// Encode one N64 digital input into a Mupen assignment using the device
/// mapping. `None` if the input isn't a Mupen digital key or its raw element
/// can't be resolved.
pub fn encode_mupen_digital(input_id: &str, w3c: W3cInput, mapping: &PadMapping) -> (r: Option<
    Assignment,
>)
    ensures
        opt_view(r) == mupen_digital_assignment(input_id@, w3c, *mapping),
{
    let id = chars_of(input_id);
    encode_mupen_digital_chars(&id, w3c, mapping)
}

fn encode_mupen_digital_chars(id: &Vec<char>, w3c: W3cInput, mapping: &PadMapping) -> (r: Option<
    Assignment,
>)
    ensures
        opt_view(r) == mupen_digital_assignment(id@, w3c, *mapping),
{
    let key = match mupen_digital_key(id) {
        Some(k) => k,
        None => return None,
    };
    let resolved = match resolve_raw(w3c, mapping) {
        Some(r) => r,
        None => return None,
    };
    let kc = chars_of(key);
    let mut value: Vec<char> = Vec::new();
    value.push('"');
    push_mupen_token(&mut value, resolved);
    value.push('"');
    let a = assignment_of(&kc, &value);
    proof {
        assert(value@ =~= quoted(mupen_token_spec(resolved)));
    }
    Some(a)
}

/// A stick capture resolved through the pad, if present and well-formed.
pub open spec fn resolve_capture(desc: Option<Seq<char>>, m: PadMapping) -> Option<ResolvedRaw> {
    match desc {
        None => None,
        Some(d) => match parse_w3c_spec(d) {
            None => None,
            Some(w) => resolve_raw_spec(w, m),
        },
    }
}

/// The combined `axis(a-,a+)` value of a pair of stick-direction captures; both
/// must resolve to the same raw analog axis.
pub open spec fn mupen_axis_pair_spec(
    neg: Option<Seq<char>>,
    pos: Option<Seq<char>>,
    m: PadMapping,
) -> Option<Seq<char>> {
    match (resolve_capture(neg, m), resolve_capture(pos, m)) {
        (Some(n), Some(p)) => match (n.element, p.element) {
            (RawElement::Axis(a), RawElement::Axis(b)) => if a == b {
                Some("axis("@ + dec(a as nat) + "-,"@ + dec(a as nat) + "+)"@)
            } else {
                None
            },
            _ => None,
        },
        _ => None,
    }
}

fn resolve_capture_exec(desc: Option<&String>, mapping: &PadMapping) -> (r: Option<ResolvedRaw>)
    ensures
        r == resolve_capture(
            match desc {
                Some(d) => Some(d@),
                None => None,
            },
            *mapping,
        ),
{
    match desc {
        None => None,
        Some(d) => {
            let dc = chars_of(d.as_str());
            match parse_w3c_chars(&dc) {
                None => None,
                Some(w) => resolve_raw(w, mapping),
            }
        },
    }
}

fn mupen_axis_pair(neg: Option<&String>, pos: Option<&String>, mapping: &PadMapping) -> (r: Option<
    Vec<char>,
>)
    ensures
        match r {
            Some(v) => mupen_axis_pair_spec(
                match neg {
                    Some(d) => Some(d@),
                    None => None,
                },
                match pos {
                    Some(d) => Some(d@),
                    None => None,
                },
                *mapping,
            ) == Some(v@),
            None => mupen_axis_pair_spec(
                match neg {
                    Some(d) => Some(d@),
                    None => None,
                },
                match pos {
                    Some(d) => Some(d@),
                    None => None,
                },
                *mapping,
            ) is None,
        },
{
    let n = match resolve_capture_exec(neg, mapping) {
        Some(n) => n,
        None => return None,
    };
    let p = match resolve_capture_exec(pos, mapping) {
        Some(p) => p,
        None => return None,
    };
    match (n.element, p.element) {
        (RawElement::Axis(a), RawElement::Axis(b)) => {
            if a == b {
                let mut v: Vec<char> = Vec::new();
                push_str(&mut v, "axis(");
                push_dec(&mut v, a);
                push_str(&mut v, "-,");
                push_dec(&mut v, a);
                push_str(&mut v, "+)");
                Some(v)
            } else {
                None
            }
        },
        _ => None,
    }
}

pub open spec fn mupen_digital_outcome(id: Seq<char>, desc: Seq<char>, m: PadMapping) -> EntryOutcome {
    if crate::text::starts_with(id, "stick_"@) {
        EntryOutcome::Skip
    } else {
        match parse_w3c_spec(desc) {
            None => EntryOutcome::Unencoded,
            Some(w) => match mupen_digital_assignment(id, w, m) {
                None => EntryOutcome::Unencoded,
                Some(a) => EntryOutcome::Lines(seq![a]),
            },
        }
    }
}

pub open spec fn present(pairs: Seq<(Seq<char>, Seq<char>)>, id: Seq<char>) -> Seq<Seq<char>> {
    if crate::bindings::lookup(pairs, id) is Some {
        seq![id]
    } else {
        seq![]
    }
}

/// One combined analog key (`X Axis` / `Y Axis`) from its two stick directions.
pub open spec fn mupen_stick_part(
    pairs: Seq<(Seq<char>, Seq<char>)>,
    neg_id: Seq<char>,
    pos_id: Seq<char>,
    axis_key: Seq<char>,
    m: PadMapping,
) -> (Seq<(Seq<char>, Seq<char>)>, Seq<Seq<char>>) {
    let lookup = |k: Seq<char>| crate::bindings::lookup(pairs, k);
    match mupen_axis_pair_spec(lookup(neg_id), lookup(pos_id), m) {
        Some(v) => (seq![(axis_key, quoted(v))], seq![]),
        None => (seq![], present(pairs, neg_id) + present(pairs, pos_id)),
    }
}

pub open spec fn has_stick(pairs: Seq<(Seq<char>, Seq<char>)>) -> bool {
    ||| crate::bindings::lookup(pairs, "stick_left"@) is Some
    ||| crate::bindings::lookup(pairs, "stick_right"@) is Some
    ||| crate::bindings::lookup(pairs, "stick_up"@) is Some
    ||| crate::bindings::lookup(pairs, "stick_down"@) is Some
}

/// Digital inputs in input-id order, then the combined analog keys.
pub open spec fn materialize_mupen_spec(pairs: Seq<(Seq<char>, Seq<char>)>, m: PadMapping) -> (
    Seq<(Seq<char>, Seq<char>)>,
    Seq<Seq<char>>,
) {
    let d = fold_outcomes(pairs, |id: Seq<char>, desc: Seq<char>| mupen_digital_outcome(id, desc, m));
    if has_stick(pairs) {
        let x = mupen_stick_part(pairs, "stick_left"@, "stick_right"@, "X Axis"@, m);
        let y = mupen_stick_part(pairs, "stick_up"@, "stick_down"@, "Y Axis"@, m);
        (d.0 + x.0 + y.0, d.1 + x.1 + y.1)
    } else {
        d
    }
}

fn push_present(unencoded: &mut Vec<String>, bindings: &Bindings, id: &str)
    ensures
        string_views(final(unencoded)@) == string_views(old(unencoded)@) + present(
            bindings.pairs(),
            id@,
        ),
{
    let ghost u = string_views(unencoded@);
    if bindings.contains_key(id) {
        let cs = chars_of(id);
        unencoded.push(string_of(&cs));
        proof {
            assert(string_views(unencoded@) =~= u + seq![id@]);
        }
    } else {
        proof {
            assert(string_views(unencoded@) =~= u + Seq::<Seq<char>>::empty());
        }
    }
}

fn mupen_stick(
    out: &mut Vec<Assignment>,
    unencoded: &mut Vec<String>,
    bindings: &Bindings,
    neg_id: &str,
    pos_id: &str,
    axis_key: &str,
    mapping: &PadMapping,
)
    ensures
        ({
            let part = mupen_stick_part(bindings.pairs(), neg_id@, pos_id@, axis_key@, *mapping);
            &&& assignment_views(final(out)@) == assignment_views(old(out)@) + part.0
            &&& string_views(final(unencoded)@) == string_views(old(unencoded)@) + part.1
        }),
{
    let ghost o = assignment_views(out@);
    let ghost u = string_views(unencoded@);
    match mupen_axis_pair(bindings.get(neg_id), bindings.get(pos_id), mapping) {
        Some(v) => {
            let mut value: Vec<char> = Vec::new();
            value.push('"');
            push_all(&mut value, &v);
            value.push('"');
            let kc = chars_of(axis_key);
            out.push(assignment_of(&kc, &value));
            proof {
                assert(value@ =~= quoted(v@));
                assert(assignment_views(out@) =~= o + seq![(axis_key@, quoted(v@))]);
                assert(string_views(unencoded@) =~= u + Seq::<Seq<char>>::empty());
            }
        },
        None => {
            push_present(unencoded, bindings, neg_id);
            push_present(unencoded, bindings, pos_id);
            proof {
                assert(assignment_views(out@) =~= o + Seq::<(Seq<char>, Seq<char>)>::empty());
                assert(string_views(unencoded@) =~= u + (present(bindings.pairs(), neg_id@)
                    + present(bindings.pairs(), pos_id@)));
            }
        },
    }
}

/// Turn an N64 profile into the Mupen `[Input-SDL-ControlN]` assignments to
/// write: digital inputs 1:1, and the four `stick_*` directions folded into the
/// two combined analog keys. Inputs that can't be resolved (or a stick that
/// isn't one clean analog axis) are returned unencoded.
pub fn materialize_mupen(bindings: &Bindings, mapping: &PadMapping) -> (r: (
    Vec<Assignment>,
    Vec<String>,
))
    ensures
        (assignment_views(r.0@), string_views(r.1@)) == materialize_mupen_spec(
            bindings.pairs(),
            *mapping,
        ),
{
    let ghost f = |id: Seq<char>, desc: Seq<char>| mupen_digital_outcome(id, desc, *mapping);
    let ghost s = bindings.pairs();
    let mut out: Vec<Assignment> = Vec::new();
    let mut unencoded: Vec<String> = Vec::new();
    let mut i: usize = 0;
    proof {
        assert(s.take(0) =~= Seq::<(Seq<char>, Seq<char>)>::empty());
        assert(assignment_views(out@) =~= Seq::<(Seq<char>, Seq<char>)>::empty());
        assert(string_views(unencoded@) =~= Seq::<Seq<char>>::empty());
    }
    while i < bindings.len()
        invariant
            i <= s.len(),
            s == bindings.pairs(),
            f == (|id: Seq<char>, desc: Seq<char>| mupen_digital_outcome(id, desc, *mapping)),
            (assignment_views(out@), string_views(unencoded@)) == fold_outcomes(s.take(i as int), f),
        decreases s.len() - i,
    {
        let e = bindings.entry(i);
        let id = chars_of(e.0.as_str());
        proof {
            lemma_fold_step(s, i as int, f);
            assert(s[i as int].0 == id@);
        }
        if crate::text::starts_with_str(&id, "stick_") {
            proof {
                assert(f(s[i as int].0, s[i as int].1) == EntryOutcome::Skip);
            }
        } else {
            let d = chars_of(e.1.as_str());
            let res = match parse_w3c_chars(&d) {
                Some(w) => encode_mupen_digital_chars(&id, w, mapping),
                None => None,
            };
            proof {
                assert(s[i as int].1 == d@);
                assert(f(s[i as int].0, s[i as int].1) == mupen_digital_outcome(id@, d@, *mapping));
                match mupen_digital_outcome(id@, d@, *mapping) {
                    EntryOutcome::Lines(a) => assert(a == seq![opt_view(res)->0]),
                    EntryOutcome::Unencoded => assert(res is None),
                    EntryOutcome::Skip => assert(false),
                }
            }
            emit(&mut out, &mut unencoded, &e.0, res);
            proof {
                let nxt = fold_outcomes(s.take(i + 1), f);
                assert(nxt.0 =~= assignment_views(out@));
                assert(nxt.1 =~= string_views(unencoded@));
            }
        }
        i += 1;
    }
    proof {
        assert(s.take(s.len() as int) =~= s);
    }
    let has = bindings.contains_key("stick_left") || bindings.contains_key("stick_right")
        || bindings.contains_key("stick_up") || bindings.contains_key("stick_down");
    if has {
        let ghost d = (assignment_views(out@), string_views(unencoded@));
        mupen_stick(&mut out, &mut unencoded, bindings, "stick_left", "stick_right", "X Axis", mapping);
        mupen_stick(&mut out, &mut unencoded, bindings, "stick_up", "stick_down", "Y Axis", mapping);
        proof {
            let x = mupen_stick_part(s, "stick_left"@, "stick_right"@, "X Axis"@, *mapping);
            let y = mupen_stick_part(s, "stick_up"@, "stick_down"@, "Y Axis"@, *mapping);
            assert(assignment_views(out@) =~= d.0 + x.0 + y.0);
            assert(string_views(unencoded@) =~= d.1 + x.1 + y.1);
        }
    }
    (out, unencoded)
}


// ── Surgical config writers ─────────────────────────────────────────────────

/// A `key = ...` line for `key` (leading white space allowed, optional spaces
/// before `=`); a longer key that merely starts with `key` does not match.
pub open spec fn flat_key_matches(line: Seq<char>, key: Seq<char>) -> bool {
    match strip_prefix(trim_start(line), key) {
        Some(rest) => {
            let r = trim_start(rest);
            r.len() > 0 && r[0] == '='
        },
        None => false,
    }
}

/// The leading white space of a line.
pub open spec fn indent_of(line: Seq<char>) -> Seq<char> {
    line.take(line.len() - trim_start(line).len())
}

/// `body`, with a final line feed when `text` had one.
pub open spec fn with_trailing_newline(text: Seq<char>, body: Seq<char>) -> Seq<char> {
    if ends_in_newline(text) {
        body.push('\n')
    } else {
        body
    }
}

/// The `\r` a piece ends with, if any.
pub open spec fn cr_of(l: Seq<char>) -> Seq<char> {
    if l.len() > 0 && l.last() == '\r' {
        seq!['\r']
    } else {
        seq![]
    }
}

/// A piece of the text (between line feeds) is the line for `key`, read
/// without its `\r`.
pub open spec fn flat_key_line(l: Seq<char>, key: Seq<char>) -> bool {
    flat_key_matches(strip_cr(l), key)
}

/// The pieces of the text with the first line for `key` replaced by
/// `<indent><key> = <value>` (keeping its `\r`), or the line appended
/// (before a final line feed, which stays last); every other byte as it was.
pub open spec fn set_flat_pieces(text: Seq<char>, key: Seq<char>, quoted_value: Seq<char>) -> Seq<Seq<char>> {
    let segs = segments(text);
    let i = first_from(segs, 0, |l: Seq<char>| flat_key_line(l, key));
    let new_line = key + " = "@ + quoted_value;
    if i < segs.len() {
        segs.update(i, indent_of(segs[i]) + new_line + cr_of(segs[i]))
    } else if segs.last().len() == 0 {
        if segs.len() == 1 {
            seq![new_line]
        } else {
            segs.drop_last().push(new_line).push(seq![])
        }
    } else {
        segs.push(new_line)
    }
}

pub open spec fn set_flat_key_spec(text: Seq<char>, key: Seq<char>, quoted_value: Seq<char>) -> Seq<char> {
    join_lines(set_flat_pieces(text, key, quoted_value))
}

/// What a line written for `key` reads as: it is the line for `key`, holds
/// no line feed, and gives back its indentation, its `\r` and, trimmed, the
/// written `<key> = <value>`.
proof fn lemma_written_line(w: Seq<char>, key: Seq<char>, quoted_value: Seq<char>, c: Seq<char>)
    requires
        forall|m: int| 0 <= m < w.len() ==> is_ws(#[trigger] w[m]) && w[m] != '\n',
        c == Seq::<char>::empty() || c == seq!['\r'],
        key.len() > 0,
        !is_ws(key[0]),
        forall|m: int| 0 <= m < key.len() ==> #[trigger] key[m] != '\n',
        forall|m: int| 0 <= m < quoted_value.len() ==> #[trigger] quoted_value[m] != '\n',
        quoted_value.len() == 0 || quoted_value.last() != '\r',
    ensures
        ({
            let nl = key + " = "@ + quoted_value;
            let l = w + nl + c;
            &&& flat_key_line(l, key)
            &&& forall|m: int| 0 <= m < l.len() ==> #[trigger] l[m] != '\n'
            &&& trim_start(strip_cr(l)) == nl
            &&& indent_of(l) == w
            &&& cr_of(l) == c
        }),
{
    reveal_strlit(" = ");
    reveal_strlit("= ");
    let nl = key + " = "@ + quoted_value;
    let l = w + nl + c;
    assert(nl[0] == key[0]);
    assert(nl.last() != '\r') by {
        if quoted_value.len() > 0 {
            assert(nl.last() == quoted_value.last());
        }
    }
    assert forall|m: int| 0 <= m < l.len() implies #[trigger] l[m] != '\n' by {
        if m < w.len() {
            assert(l[m] == w[m]);
        } else if m < w.len() + key.len() {
            assert(l[m] == key[m - w.len()]);
        } else if m >= w.len() + key.len() + 3 && m < w.len() + nl.len() {
            assert(l[m] == quoted_value[m - w.len() - key.len() - 3]);
        } else if m >= w.len() + nl.len() {
            assert(l[m] == c[m - w.len() - nl.len()]);
        }
    }
    // the trimmed forms
    assert((nl + c)[0] == key[0]);
    assert(trim_start(nl + c) == nl + c);
    assert(w + (nl + c) =~= l);
    lemma_trim_start_ws_prefix(w, nl + c);
    assert(trim_start(l) == nl + c);
    assert(indent_of(l) =~= w);
    if c.len() == 0 {
        assert(l =~= w + nl);
        assert(l.last() == nl.last());
        assert(strip_cr(l) == l);
        assert(cr_of(l) =~= c);
    } else {
        assert(l.last() == '\r');
        assert(strip_cr(l) =~= w + nl);
        assert(cr_of(l) =~= c);
    }
    assert(strip_cr(l) =~= w + nl);
    lemma_trim_start_ws_prefix(w, nl);
    assert(trim_start(nl) == nl);
    assert(trim_start(strip_cr(l)) == nl);
    assert(nl.subrange(0, key.len() as int) =~= key);
    let rest = nl.skip(key.len() as int);
    assert(rest =~= " = "@ + quoted_value);
    assert(rest.drop_first() =~= "= "@ + quoted_value);
    assert(trim_start(rest.drop_first()) == rest.drop_first());
    assert(trim_start(rest) == rest.drop_first());
    assert(flat_key_matches(strip_cr(l), key));
}

/// The pieces `set_flat_key` writes: the first line for the key is at `j`
/// and reads as the written line, and a key that was there changes only its
/// own line.
proof fn lemma_set_flat_pieces(text: Seq<char>, key: Seq<char>, quoted_value: Seq<char>) -> (j: int)
    requires
        key.len() > 0,
        !is_ws(key[0]),
        forall|m: int| 0 <= m < key.len() ==> #[trigger] key[m] != '\n',
        forall|m: int| 0 <= m < quoted_value.len() ==> #[trigger] quoted_value[m] != '\n',
        quoted_value.len() == 0 || quoted_value.last() != '\r',
    ensures
        ({
            let ps = set_flat_pieces(text, key, quoted_value);
            let segs = segments(text);
            let nl = key + " = "@ + quoted_value;
            &&& ps.len() > 0
            &&& forall|a: int, b: int| 0 <= a < ps.len() && 0 <= b < ps[a].len() ==> #[trigger] ps[a][b] != '\n'
            &&& 0 <= j < ps.len()
            &&& first_from(ps, 0, |l: Seq<char>| flat_key_line(l, key)) == j
            &&& trim_start(strip_cr(ps[j])) == nl
            &&& indent_of(ps[j]) + nl + cr_of(ps[j]) == ps[j]
            &&& first_from(segs, 0, |l: Seq<char>| flat_key_line(l, key)) < segs.len() ==> ps.len() == segs.len()
                && j == first_from(segs, 0, |l: Seq<char>| flat_key_line(l, key))
                && forall|a: int| 0 <= a < segs.len() && a != j ==> ps[a] == segs[a]
        }),
{
    let p = |l: Seq<char>| flat_key_line(l, key);
    let segs = segments(text);
    lemma_segments_shape(text);
    let i = first_from(segs, 0, p);
    lemma_first_from(segs, 0, p);
    let nl = key + " = "@ + quoted_value;
    let ps = set_flat_pieces(text, key, quoted_value);
    let none = Seq::<char>::empty();
    let j = if i < segs.len() {
        i
    } else if segs.last().len() == 0 {
        segs.len() - 1
    } else {
        segs.len() as int
    };
    if i < segs.len() {
        let l = segs[i];
        let w = indent_of(l);
        lemma_trim_start_drops_ws(l);
        assert forall|m: int| 0 <= m < w.len() implies is_ws(#[trigger] w[m]) && w[m] != '\n' by {
            assert(w[m] == l[m]);
        }
        let c = cr_of(l);
        lemma_written_line(w, key, quoted_value, c);
        assert(ps[i] == w + nl + c);
        assert(indent_of(ps[i]) + nl + cr_of(ps[i]) == ps[i]);
    } else {
        lemma_written_line(none, key, quoted_value, none);
        assert(none + nl + none =~= nl);
        assert(ps[j] == nl);
    }
    assert forall|a: int, b: int| 0 <= a < ps.len() && 0 <= b < ps[a].len() implies #[trigger] ps[a][b] != '\n' by {
        if a != j && a < segs.len() {
            assert(ps[a] == segs[a]);
        }
    }
    assert forall|a: int| 0 <= a < j implies !p(#[trigger] ps[a]) by {
        assert(ps[a] == segs[a]);
    }
    assert(p(ps[j]));
    lemma_first_from_at(ps, 0, p, j);
    j
}

/// Setting a key in a flat config: splitting the result at its line feeds,
/// the first line for the key reads `<key> = <value>` after its indentation
/// (and without its `\r`); when the key was there, no other line changed.
/// (Keys start with a non-blank; key and value hold no line feed; the value
/// ends in no carriage return.)
pub proof fn law_set_flat_key_reads_back(text: Seq<char>, key: Seq<char>, quoted_value: Seq<char>)
    requires
        key.len() > 0,
        !is_ws(key[0]),
        forall|m: int| 0 <= m < key.len() ==> #[trigger] key[m] != '\n',
        forall|m: int| 0 <= m < quoted_value.len() ==> #[trigger] quoted_value[m] != '\n',
        quoted_value.len() == 0 || quoted_value.last() != '\r',
    ensures
        ({
            let ss = segments(set_flat_key_spec(text, key, quoted_value));
            let j = first_from(ss, 0, |l: Seq<char>| flat_key_line(l, key));
            &&& j < ss.len()
            &&& trim_start(strip_cr(ss[j])) == key + " = "@ + quoted_value
        }),
        ({
            let segs = segments(text);
            let ss = segments(set_flat_key_spec(text, key, quoted_value));
            let i = first_from(segs, 0, |l: Seq<char>| flat_key_line(l, key));
            i < segs.len() ==> ss.len() == segs.len() && forall|a: int| 0 <= a < segs.len() && a != i ==> ss[a] == segs[a]
        }),
{
    let j = lemma_set_flat_pieces(text, key, quoted_value);
    lemma_segments_of_join(set_flat_pieces(text, key, quoted_value));
}

/// Setting a key to a value twice changes nothing more than setting it
/// once. (Same conditions as [`law_set_flat_key_reads_back`].)
pub proof fn law_set_flat_key_idempotent(text: Seq<char>, key: Seq<char>, quoted_value: Seq<char>)
    requires
        key.len() > 0,
        !is_ws(key[0]),
        forall|m: int| 0 <= m < key.len() ==> #[trigger] key[m] != '\n',
        forall|m: int| 0 <= m < quoted_value.len() ==> #[trigger] quoted_value[m] != '\n',
        quoted_value.len() == 0 || quoted_value.last() != '\r',
    ensures
        set_flat_key_spec(set_flat_key_spec(text, key, quoted_value), key, quoted_value) == set_flat_key_spec(
            text,
            key,
            quoted_value,
        ),
{
    let r = set_flat_key_spec(text, key, quoted_value);
    let ps = set_flat_pieces(text, key, quoted_value);
    let j = lemma_set_flat_pieces(text, key, quoted_value);
    lemma_segments_of_join(ps);
    assert(segments(r) == ps);
    let nl = key + " = "@ + quoted_value;
    assert(set_flat_pieces(r, key, quoted_value) == ps.update(j, indent_of(ps[j]) + nl + cr_of(ps[j])));
    assert(set_flat_pieces(r, key, quoted_value) =~= ps);
}

fn strip_prefix_vec(s: &Vec<char>, p: &Vec<char>) -> (r: Option<Vec<char>>)
    ensures
        match r {
            Some(v) => strip_prefix(s@, p@) == Some(v@),
            None => strip_prefix(s@, p@) is None,
        },
{
    if crate::text::starts_with_vec(s, p) {
        Some(slice_of(s, p.len(), s.len()))
    } else {
        None
    }
}

fn flat_key_matches_vec(line: &Vec<char>, key: &Vec<char>) -> (b: bool)
    ensures
        b == flat_key_matches(line@, key@),
{
    let t = trim_start_vec(line);
    match strip_prefix_vec(&t, key) {
        Some(rest) => {
            let r = trim_start_vec(&rest);
            r.len() > 0 && r[0] == '='
        },
        None => false,
    }
}

fn indent_vec(line: &Vec<char>) -> (r: Vec<char>)
    ensures
        r@ == indent_of(line@),
{
    let t = trim_start_vec(line);
    proof {
        crate::text::lemma_trim_start_len(line@);
    }
    slice_of(line, 0, line.len() - t.len())
}

fn finish_lines(ls: &Vec<Vec<char>>, trailing: bool) -> (r: String)
    ensures
        r@ == (if trailing {
            join_lines(views(ls@)).push('\n')
        } else {
            join_lines(views(ls@))
        }),
{
    let mut joined = join_lines_vec(ls);
    if trailing {
        joined.push('\n');
    }
    string_of(&joined)
}

fn ends_in_newline_vec(t: &Vec<char>) -> (b: bool)
    ensures
        b == ends_in_newline(t@),
{
    t.len() > 0 && t[t.len() - 1] == '\n'
}

/// Surgically set `key = quoted_value` in a flat (sectionless) config such as
/// `retroarch.cfg`: replace the first `key = ...` line in place, keeping its
/// indentation and every other byte; append the line if the key is absent.
pub fn set_flat_key(text: &str, key: &str, quoted_value: &str) -> (r: String)
    ensures
        r@ == set_flat_key_spec(text@, key@, quoted_value@),
{
    let t = chars_of(text);
    let k = chars_of(key);
    let q = chars_of(quoted_value);
    let mut ls = segments_vec(&t);
    let ghost l0 = views(ls@);
    let ghost p = |l: Seq<char>| flat_key_line(l, key@);
    proof {
        lemma_segments_shape(text@);
    }
    let mut i: usize = 0;
    while i < ls.len() && !flat_key_matches_vec(&strip_cr_vec(&ls[i]), &k)
        invariant
            i <= ls.len(),
            views(ls@) == l0,
            l0 == segments(text@),
            k@ == key@,
            p == (|l: Seq<char>| flat_key_line(l, key@)),
            first_from(l0, 0, p) == first_from(l0, i as int, p),
        decreases ls.len() - i,
    {
        proof {
            assert(views(ls@)[i as int] == ls@[i as int]@);
        }
        i += 1;
    }
    proof {
        if i < ls.len() {
            assert(views(ls@)[i as int] == ls@[i as int]@);
            assert(p(l0[i as int]));
        }
    }
    let mut new_line: Vec<char> = Vec::new();
    push_all(&mut new_line, &k);
    push_str(&mut new_line, " = ");
    push_all(&mut new_line, &q);
    let n = ls.len();
    if i < n {
        let ghost old_l = ls@[i as int]@;
        let mut full = indent_vec(&ls[i]);
        push_all(&mut full, &new_line);
        if ls[i].len() > 0 && ls[i][ls[i].len() - 1] == '\r' {
            full.push('\r');
        }
        proof {
            assert(full@ =~= indent_of(old_l) + new_line@ + cr_of(old_l));
        }
        ls.set(i, full);
        proof {
            assert(views(ls@) =~= l0.update(i as int, indent_of(l0[i as int]) + new_line@ + cr_of(l0[i as int])));
        }
    } else if ls[n - 1].len() == 0 {
        proof {
            assert(views(ls@)[n - 1] == ls@[n - 1]@);
        }
        if n == 1 {
            ls = Vec::new();
            ls.push(new_line);
            proof {
                assert(views(ls@) =~= seq![new_line@]);
            }
        } else {
            ls.pop();
            ls.push(new_line);
            ls.push(Vec::new());
            proof {
                assert(views(ls@) =~= l0.drop_last().push(new_line@).push(seq![]));
            }
        }
    } else {
        proof {
            assert(views(ls@)[n - 1] == ls@[n - 1]@);
        }
        ls.push(new_line);
        proof {
            assert(views(ls@) =~= l0.push(new_line@));
        }
    }
    string_of(&join_lines_vec(&ls))
}

pub open spec fn ini_line(indent: Seq<char>, key: Seq<char>, value: Seq<char>, spaced: bool) -> Seq<
    char,
> {
    indent + key + (if spaced {
        " = "@
    } else {
        "="@
    }) + value
}

/// A `[...]` section header (after trimming).
pub open spec fn is_header(t: Seq<char>) -> bool {
    t.len() > 0 && t[0] == '[' && t.last() == ']'
}

pub open spec fn section_header(section: Seq<char>) -> Seq<char> {
    seq!['['] + section + seq![']']
}

/// Set `key` within `[section]`: replace its line in place, else insert it at
/// the end of the section body, else append the section with the one key.
pub open spec fn set_ini_spec(
    text: Seq<char>,
    section: Seq<char>,
    key: Seq<char>,
    value: Seq<char>,
    spaced: bool,
) -> Seq<char> {
    let ls = lines(text);
    let header = section_header(section);
    let hi = first_from(ls, 0, |l: Seq<char>| trim(l) == header);
    if hi == ls.len() {
        let grown = (if ls.len() > 0 {
            ls.push(seq![])
        } else {
            ls
        }).push(header).push(ini_line(seq![], key, value, spaced));
        with_trailing_newline(text, join_lines(grown))
    } else {
        let start = hi + 1;
        let end = first_from(ls, start, |l: Seq<char>| is_header(trim(l)));
        let ki = first_from(
            ls.take(end),
            start,
            |l: Seq<char>| trim(crate::text::before_char(l, '=')) == key,
        );
        if ki < end {
            with_trailing_newline(
                text,
                join_lines(ls.update(ki, ini_line(indent_of(ls[ki]), key, value, spaced))),
            )
        } else {
            with_trailing_newline(
                text,
                join_lines(ls.insert(section_tail(ls, start, end), ini_line(seq![], key, value, spaced))),
            )
        }
    }
}

/// Where a section's body ends once its trailing blank lines are set aside:
/// just after its last non-blank line (or at its start when it has none).
pub open spec fn section_tail(ls: Seq<Seq<char>>, start: int, end: int) -> int
    decreases end - start,
{
    if end > start && trim(ls[end - 1]).len() == 0 {
        section_tail(ls, start, end - 1)
    } else {
        end
    }
}

fn ini_line_vec(indent: &Vec<char>, key: &Vec<char>, value: &Vec<char>, spaced: bool) -> (r: Vec<
    char,
>)
    ensures
        r@ == ini_line(indent@, key@, value@, spaced),
{
    let mut r: Vec<char> = Vec::new();
    push_all(&mut r, indent);
    push_all(&mut r, key);
    if spaced {
        push_str(&mut r, " = ");
    } else {
        push_str(&mut r, "=");
    }
    push_all(&mut r, value);
    r
}

fn trim_eq(line: &Vec<char>, t: &Vec<char>) -> (b: bool)
    ensures
        b == (trim(line@) == t@),
{
    let tl = trim_vec(line);
    crate::text::eq_vec(&tl, t)
}

fn is_header_line(line: &Vec<char>) -> (b: bool)
    ensures
        b == is_header(trim(line@)),
{
    let t = trim_vec(line);
    t.len() > 0 && t[0] == '[' && t[t.len() - 1] == ']'
}

fn lhs_is_key(line: &Vec<char>, key: &Vec<char>) -> (b: bool)
    ensures
        b == (trim(crate::text::before_char(line@, '=')) == key@),
{
    let lhs = crate::text::before_char_vec(line, '=');
    trim_eq(&lhs, key)
}

fn set_ini_key_in_section_fmt(text: &str, section: &str, key: &str, value: &str, spaced: bool) -> (r:
    String)
    ensures
        r@ == set_ini_spec(text@, section@, key@, value@, spaced),
{
    let t = chars_of(text);
    let sec = chars_of(section);
    let k = chars_of(key);
    let v = chars_of(value);
    let mut header: Vec<char> = Vec::new();
    header.push('[');
    push_all(&mut header, &sec);
    header.push(']');
    proof {
        assert(header@ =~= section_header(section@));
    }
    let trailing = ends_in_newline_vec(&t);
    let mut ls = lines_vec(&t);
    let ghost l0 = views(ls@);
    let ghost ph = |l: Seq<char>| trim(l) == section_header(section@);
    let mut hi: usize = 0;
    while hi < ls.len() && !trim_eq(&ls[hi], &header)
        invariant
            hi <= ls.len(),
            views(ls@) == l0,
            header@ == section_header(section@),
            ph == (|l: Seq<char>| trim(l) == section_header(section@)),
            first_from(l0, 0, ph) == first_from(l0, hi as int, ph),
        decreases ls.len() - hi,
    {
        hi += 1;
    }
    let empty: Vec<char> = Vec::new();
    if hi == ls.len() {
        if ls.len() > 0 {
            ls.push(Vec::new());
        }
        ls.push(header);
        ls.push(ini_line_vec(&empty, &k, &v, spaced));
        proof {
            let grown = (if l0.len() > 0 {
                l0.push(seq![])
            } else {
                l0
            }).push(section_header(section@)).push(ini_line(seq![], key@, value@, spaced));
            assert(views(ls@) =~= grown);
        }
        return finish_lines(&ls, trailing);
    }
    let start = hi + 1;
    let ghost pe = |l: Seq<char>| is_header(trim(l));
    let mut end: usize = start;
    while end < ls.len() && !is_header_line(&ls[end])
        invariant
            start <= end <= ls.len(),
            views(ls@) == l0,
            pe == (|l: Seq<char>| is_header(trim(l))),
            first_from(l0, start as int, pe) == first_from(l0, end as int, pe),
        decreases ls.len() - end,
    {
        end += 1;
    }
    let ghost pk = |l: Seq<char>| trim(crate::text::before_char(l, '=')) == key@;
    let ghost lt = l0.take(end as int);
    let mut ki: usize = start;
    while ki < end && !lhs_is_key(&ls[ki], &k)
        invariant
            start <= ki <= end <= ls.len(),
            views(ls@) == l0,
            lt == l0.take(end as int),
            k@ == key@,
            pk == (|l: Seq<char>| trim(crate::text::before_char(l, '=')) == key@),
            first_from(lt, start as int, pk) == first_from(lt, ki as int, pk),
        decreases end - ki,
    {
        assert(lt[ki as int] == l0[ki as int]);
        ki += 1;
    }
    proof {
        if ki < end {
            assert(lt[ki as int] == l0[ki as int]);
        }
    }
    if ki < end {
        let ind = indent_vec(&ls[ki]);
        let nl = ini_line_vec(&ind, &k, &v, spaced);
        ls.set(ki, nl);
        proof {
            assert(views(ls@) =~= l0.update(
                ki as int,
                ini_line(indent_of(l0[ki as int]), key@, value@, spaced),
            ));
        }
    } else {
        let mut ins = end;
        while ins > start && trim_vec(&ls[ins - 1]).len() == 0
            invariant
                start <= ins <= end <= ls.len(),
                views(ls@) == l0,
                section_tail(l0, start as int, end as int) == section_tail(l0, start as int, ins as int),
            decreases ins,
        {
            proof {
                assert(views(ls@)[ins - 1] == ls@[ins - 1]@);
            }
            ins -= 1;
        }
        proof {
            if ins > start {
                assert(views(ls@)[ins - 1] == ls@[ins - 1]@);
            }
        }
        let nl = ini_line_vec(&empty, &k, &v, spaced);
        ls.insert(ins, nl);
        proof {
            assert(views(ls@) =~= l0.insert(ins as int, ini_line(seq![], key@, value@, spaced)));
        }
    }
    finish_lines(&ls, trailing)
}

/// Surgically set `key = value` within a named INI section, preserving every
/// other byte. Keys may contain spaces; the value is written verbatim. A
/// missing key is inserted after the section's last non-blank line (before
/// the blank lines that lead to the next section); a missing section is
/// appended.
pub fn set_ini_key_in_section(text: &str, section: &str, key: &str, value: &str) -> (r: String)
    ensures
        r@ == set_ini_spec(text@, section@, key@, value@, true),
{
    set_ini_key_in_section_fmt(text, section, key, value, true)
}

/// Like [`set_ini_key_in_section`] but writes `key=value` with no spaces around
/// the `=` (the form mGBA's own writer emits).
pub fn set_ini_key_in_section_compact(text: &str, section: &str, key: &str, value: &str) -> (r:
    String)
    ensures
        r@ == set_ini_spec(text@, section@, key@, value@, false),
{
    set_ini_key_in_section_fmt(text, section, key, value, false)
}

/// The first white-space-separated token of a line is `key`.
pub open spec fn first_word_is(line: Seq<char>, key: Seq<char>) -> bool {
    let w = crate::text::words(line);
    w.len() > 0 && w[0] == key
}

/// The first `key ...` line replaced by `key value`, or the line appended.
pub open spec fn set_mednafen_setting_spec(text: Seq<char>, key: Seq<char>, value: Seq<char>) -> Seq<
    char,
> {
    let ls = lines(text);
    let i = first_from(ls, 0, |l: Seq<char>| first_word_is(l, key));
    let new_line = key + " "@ + value;
    let edited = if i < ls.len() {
        ls.update(i, new_line)
    } else {
        ls.push(new_line)
    };
    with_trailing_newline(text, join_lines(edited))
}

fn first_word_is_vec(line: &Vec<char>, key: &Vec<char>) -> (b: bool)
    ensures
        b == first_word_is(line@, key@),
{
    let w = crate::text::words_vec(line);
    proof {
        if w.len() > 0 {
            assert(views(w@)[0] == w@[0]@);
        }
    }
    w.len() > 0 && crate::text::eq_vec(&w[0], key)
}

/// Surgically set a Mednafen `key value` setting (flat, white-space
/// delimited): replace the line whose first token is `key`, or append it.
pub fn set_mednafen_setting(text: &str, key: &str, value: &str) -> (r: String)
    ensures
        r@ == set_mednafen_setting_spec(text@, key@, value@),
{
    let t = chars_of(text);
    let k = chars_of(key);
    let mut ls = lines_vec(&t);
    let ghost l0 = views(ls@);
    let ghost p = |l: Seq<char>| first_word_is(l, key@);
    let mut i: usize = 0;
    while i < ls.len() && !first_word_is_vec(&ls[i], &k)
        invariant
            i <= ls.len(),
            views(ls@) == l0,
            k@ == key@,
            p == (|l: Seq<char>| first_word_is(l, key@)),
            first_from(l0, 0, p) == first_from(l0, i as int, p),
        decreases ls.len() - i,
    {
        i += 1;
    }
    let mut new_line: Vec<char> = Vec::new();
    push_all(&mut new_line, &k);
    push_str(&mut new_line, " ");
    push_str(&mut new_line, value);
    if i < ls.len() {
        ls.set(i, new_line);
        proof {
            assert(views(ls@) =~= l0.update(i as int, new_line@));
        }
    } else {
        ls.push(new_line);
        proof {
            assert(views(ls@) =~= l0.push(new_line@));
        }
    }
    let trailing = ends_in_newline_vec(&t);
    finish_lines(&ls, trailing)
}


// ── Mednafen ────────────────────────────────────────────────────────────────

/// Mednafen's internal system prefix for a platform id (the `vb` in `vb.input.builtin.gamepad.*`).
pub open spec fn mednafen_system_prefix_spec(system: Seq<char>) -> Option<Seq<char>> {
    if system == "virtualboy"@ {
        Some("vb"@)
    } else {
        None
    }
}

/// Exec lookup of [`mednafen_system_prefix_spec`].
fn mednafen_system_prefix(system: &Vec<char>) -> (r: Option<&'static str>)
    ensures
        match r {
            Some(v) => mednafen_system_prefix_spec(system@) == Some(v@),
            None => mednafen_system_prefix_spec(system@) is None,
        },
{
    if eq_str(system, "virtualboy") {
        Some("vb")
    } else {
        None
    }
}

/// The Mednafen builtin-gamepad input suffix of a Virtual Boy input id (the left d-pad is `*-l`, the right d-pad `*-r`).
pub open spec fn mednafen_vb_suffix_spec(id: Seq<char>) -> Option<Seq<char>> {
    if id == "a"@ {
        Some("a"@)
    } else if id == "b"@ {
        Some("b"@)
    } else if id == "rapid_a"@ {
        Some("rapid_a"@)
    } else if id == "rapid_b"@ {
        Some("rapid_b"@)
    } else if id == "l"@ {
        Some("lt"@)
    } else if id == "r"@ {
        Some("rt"@)
    } else if id == "start"@ {
        Some("start"@)
    } else if id == "select"@ {
        Some("select"@)
    } else if id == "dpad_up"@ {
        Some("up-l"@)
    } else if id == "dpad_down"@ {
        Some("down-l"@)
    } else if id == "dpad_left"@ {
        Some("left-l"@)
    } else if id == "dpad_right"@ {
        Some("right-l"@)
    } else if id == "r_dpad_up"@ {
        Some("up-r"@)
    } else if id == "r_dpad_down"@ {
        Some("down-r"@)
    } else if id == "r_dpad_left"@ {
        Some("left-r"@)
    } else if id == "r_dpad_right"@ {
        Some("right-r"@)
    } else {
        None
    }
}

/// Exec lookup of [`mednafen_vb_suffix_spec`].
fn mednafen_vb_suffix(id: &Vec<char>) -> (r: Option<&'static str>)
    ensures
        match r {
            Some(v) => mednafen_vb_suffix_spec(id@) == Some(v@),
            None => mednafen_vb_suffix_spec(id@) is None,
        },
{
    if eq_str(id, "a") {
        Some("a")
    } else if eq_str(id, "b") {
        Some("b")
    } else if eq_str(id, "rapid_a") {
        Some("rapid_a")
    } else if eq_str(id, "rapid_b") {
        Some("rapid_b")
    } else if eq_str(id, "l") {
        Some("lt")
    } else if eq_str(id, "r") {
        Some("rt")
    } else if eq_str(id, "start") {
        Some("start")
    } else if eq_str(id, "select") {
        Some("select")
    } else if eq_str(id, "dpad_up") {
        Some("up-l")
    } else if eq_str(id, "dpad_down") {
        Some("down-l")
    } else if eq_str(id, "dpad_left") {
        Some("left-l")
    } else if eq_str(id, "dpad_right") {
        Some("right-l")
    } else if eq_str(id, "r_dpad_up") {
        Some("up-r")
    } else if eq_str(id, "r_dpad_down") {
        Some("down-r")
    } else if eq_str(id, "r_dpad_left") {
        Some("left-r")
    } else if eq_str(id, "r_dpad_right") {
        Some("right-r")
    } else {
        None
    }
}

/// The full Mednafen config key of a (system, input) pair.
pub open spec fn mednafen_key_spec(system: Seq<char>, id: Seq<char>) -> Option<Seq<char>> {
    match (mednafen_system_prefix_spec(system), mednafen_vb_suffix_spec(id)) {
        (Some(p), Some(s)) => Some(p + ".input.builtin.gamepad."@ + s),
        _ => None,
    }
}

/// A raw element as a Mednafen element token; hats have none.
pub open spec fn mednafen_element_spec(element: RawElement, sign: AxisSign) -> Option<Seq<char>> {
    match element {
        RawElement::Button(n) => Some("button_"@ + dec(n as nat)),
        RawElement::Axis(n) => Some("abs_"@ + dec(n as nat) + seq![glyph_spec(sign)]),
        RawElement::Hat(_, _) => None,
    }
}

/// The flattened-hat axis half of a W3C d-pad button (12 up, 13 down, 14 left,
/// 15 right): left/up are the negative half.
pub open spec fn vb_dpad_axis(w3c_button: u32, x_axis: u32, y_axis: u32) -> Option<(u32, AxisSign)> {
    if w3c_button == 12 {
        Some((y_axis, AxisSign::Neg))
    } else if w3c_button == 13 {
        Some((y_axis, AxisSign::Pos))
    } else if w3c_button == 14 {
        Some((x_axis, AxisSign::Neg))
    } else if w3c_button == 15 {
        Some((x_axis, AxisSign::Pos))
    } else {
        None
    }
}

/// The element token of one binding: a d-pad press uses the config's axis
/// convention when there is one; everything else resolves through the pad.
pub open spec fn mednafen_element_for(
    w3c: W3cInput,
    m: PadMapping,
    dpad_axes: Option<(u32, u32)>,
) -> Option<Seq<char>> {
    let via_pad = match resolve_raw_spec(w3c, m) {
        None => None,
        Some(r) => mednafen_element_spec(r.element, r.sign),
    };
    match w3c {
        W3cInput::Button(b) => match dpad_axes {
            Some((x, y)) => if 12 <= b <= 15 {
                match vb_dpad_axis(b, x, y) {
                    Some((axis, sign)) => Some("abs_"@ + dec(axis as nat) + seq![glyph_spec(sign)]),
                    None => None,
                }
            } else {
                via_pad
            },
            None => via_pad,
        },
        _ => via_pad,
    }
}

pub open spec fn mednafen_assignment(
    system: Seq<char>,
    id: Seq<char>,
    w3c: W3cInput,
    m: PadMapping,
    guid: Seq<char>,
    dpad_axes: Option<(u32, u32)>,
) -> Option<(Seq<char>, Seq<char>)> {
    match (mednafen_key_spec(system, id), mednafen_element_for(w3c, m, dpad_axes)) {
        (Some(key), Some(e)) => Some((key, "joystick 0x"@ + guid + " "@ + e)),
        _ => None,
    }
}

fn push_opt_static(out: &mut Vec<char>, s: &'static str)
    ensures
        final(out)@ == old(out)@ + s@,
{
    push_str(out, s);
}

/// Encode one Virtual Boy input into a Mednafen `key value` assignment
/// embedding the device `guid`.
pub fn encode_mednafen(
    system: &str,
    input_id: &str,
    w3c: W3cInput,
    mapping: &PadMapping,
    guid: &str,
    dpad_axes: Option<(u32, u32)>,
) -> (r: Option<Assignment>)
    ensures
        opt_view(r) == mednafen_assignment(system@, input_id@, w3c, *mapping, guid@, dpad_axes),
{
    let sys = chars_of(system);
    let id = chars_of(input_id);
    let g = chars_of(guid);
    encode_mednafen_chars(&sys, &id, w3c, mapping, &g, dpad_axes)
}

fn encode_mednafen_chars(
    system: &Vec<char>,
    id: &Vec<char>,
    w3c: W3cInput,
    mapping: &PadMapping,
    guid: &Vec<char>,
    dpad_axes: Option<(u32, u32)>,
) -> (r: Option<Assignment>)
    ensures
        opt_view(r) == mednafen_assignment(system@, id@, w3c, *mapping, guid@, dpad_axes),
{
    let prefix = match mednafen_system_prefix(system) {
        Some(p) => p,
        None => return None,
    };
    let suffix = match mednafen_vb_suffix(id) {
        Some(s) => s,
        None => return None,
    };
    let mut key: Vec<char> = Vec::new();
    push_str(&mut key, prefix);
    push_str(&mut key, ".input.builtin.gamepad.");
    push_str(&mut key, suffix);
    let mut element: Vec<char> = Vec::new();
    let mut dpad = false;
    match w3c {
        W3cInput::Button(b) => {
            if 12 <= b && b <= 15 {
                match dpad_axes {
                    Some((x, y)) => {
                        dpad = true;
                        let (axis, sign) = if b == 12 {
                            (y, AxisSign::Neg)
                        } else if b == 13 {
                            (y, AxisSign::Pos)
                        } else if b == 14 {
                            (x, AxisSign::Neg)
                        } else {
                            (x, AxisSign::Pos)
                        };
                        push_str(&mut element, "abs_");
                        push_dec(&mut element, axis);
                        element.push(sign.glyph());
                    },
                    None => {},
                }
            }
        },
        _ => {},
    }
    if !dpad {
        let r = match resolve_raw(w3c, mapping) {
            Some(r) => r,
            None => return None,
        };
        match r.element {
            RawElement::Button(n) => {
                push_str(&mut element, "button_");
                push_dec(&mut element, n);
            },
            RawElement::Axis(n) => {
                push_str(&mut element, "abs_");
                push_dec(&mut element, n);
                element.push(r.sign.glyph());
            },
            RawElement::Hat(_, _) => return None,
        }
    }
    proof {
        assert(mednafen_element_for(w3c, *mapping, dpad_axes) == Some(element@));
    }
    let mut value: Vec<char> = Vec::new();
    push_str(&mut value, "joystick 0x");
    push_all(&mut value, guid);
    push_str(&mut value, " ");
    push_all(&mut value, &element);
    let a = assignment_of(&key, &value);
    proof {
        assert(a@ =~= mednafen_assignment(system@, id@, w3c, *mapping, guid@, dpad_axes)->0);
    }
    Some(a)
}

pub open spec fn mednafen_outcome(
    system: Seq<char>,
    id: Seq<char>,
    desc: Seq<char>,
    m: PadMapping,
    guid: Seq<char>,
    dpad_axes: Option<(u32, u32)>,
) -> EntryOutcome {
    match parse_w3c_spec(desc) {
        None => EntryOutcome::Unencoded,
        Some(w) => match mednafen_assignment(system, id, w, m, guid, dpad_axes) {
            None => EntryOutcome::Unencoded,
            Some(a) => EntryOutcome::Lines(seq![a]),
        },
    }
}

/// Turn a Mednafen-system profile into the `key value` assignments to write,
/// embedding `guid`; the d-pad reuses the `dpad_axes` convention read from the
/// existing config. Unresolvable inputs are returned unencoded.
pub fn materialize_mednafen(
    system: &str,
    bindings: &Bindings,
    mapping: &PadMapping,
    guid: &str,
    dpad_axes: Option<(u32, u32)>,
) -> (r: (Vec<Assignment>, Vec<String>))
    ensures
        (assignment_views(r.0@), string_views(r.1@)) == fold_outcomes(
            bindings.pairs(),
            |id: Seq<char>, d: Seq<char>| mednafen_outcome(system@, id, d, *mapping, guid@, dpad_axes),
        ),
{
    let sys = chars_of(system);
    let g = chars_of(guid);
    let ghost f = |id: Seq<char>, d: Seq<char>|
        mednafen_outcome(system@, id, d, *mapping, guid@, dpad_axes);
    let ghost s = bindings.pairs();
    let mut out: Vec<Assignment> = Vec::new();
    let mut unencoded: Vec<String> = Vec::new();
    let mut i: usize = 0;
    proof {
        assert(s.take(0) =~= Seq::<(Seq<char>, Seq<char>)>::empty());
        assert(assignment_views(out@) =~= Seq::<(Seq<char>, Seq<char>)>::empty());
        assert(string_views(unencoded@) =~= Seq::<Seq<char>>::empty());
    }
    while i < bindings.len()
        invariant
            i <= s.len(),
            s == bindings.pairs(),
            sys@ == system@,
            g@ == guid@,
            f == (|id: Seq<char>, d: Seq<char>|
                mednafen_outcome(system@, id, d, *mapping, guid@, dpad_axes)),
            (assignment_views(out@), string_views(unencoded@)) == fold_outcomes(s.take(i as int), f),
        decreases s.len() - i,
    {
        let e = bindings.entry(i);
        let id = chars_of(e.0.as_str());
        let d = chars_of(e.1.as_str());
        let res = match parse_w3c_chars(&d) {
            Some(w) => encode_mednafen_chars(&sys, &id, w, mapping, &g, dpad_axes),
            None => None,
        };
        proof {
            lemma_fold_step(s, i as int, f);
            assert(s[i as int].0 == id@);
            assert(s[i as int].1 == d@);
            assert(f(s[i as int].0, s[i as int].1) == mednafen_outcome(
                system@,
                id@,
                d@,
                *mapping,
                guid@,
                dpad_axes,
            ));
            match mednafen_outcome(system@, id@, d@, *mapping, guid@, dpad_axes) {
                EntryOutcome::Lines(a) => assert(a == seq![opt_view(res)->0]),
                EntryOutcome::Unencoded => assert(res is None),
                EntryOutcome::Skip => assert(false),
            }
        }
        emit(&mut out, &mut unencoded, &e.0, res);
        proof {
            let nxt = fold_outcomes(s.take(i + 1), f);
            assert(nxt.0 =~= assignment_views(out@));
            assert(nxt.1 =~= string_views(unencoded@));
        }
        i += 1;
    }
    proof {
        assert(s.take(s.len() as int) =~= s);
    }
    (out, unencoded)
}

/// Scan for the first `<needle>* joystick 0x<guid> ...` line, wherever it
/// sits; blank lines are passed over.
pub open spec fn guid_scan(ls: Seq<Seq<char>>, needle: Seq<char>) -> Option<Seq<char>>
    decreases ls.len(),
{
    if ls.len() == 0 {
        None
    } else {
        let w = crate::text::words(ls[0]);
        if w.len() == 0 {
            guid_scan(ls.drop_first(), needle)
        } else if !crate::text::starts_with(w[0], needle) || w.len() < 2 || w[1] != "joystick"@ {
            guid_scan(ls.drop_first(), needle)
        } else if w.len() >= 3 && crate::text::starts_with(w[2], "0x"@) && w[2].len() > 2 {
            Some(w[2].skip(2))
        } else {
            guid_scan(ls.drop_first(), needle)
        }
    }
}

pub open spec fn mednafen_config_guid_spec(text: Seq<char>, system: Seq<char>) -> Option<Seq<char>> {
    match mednafen_system_prefix_spec(system) {
        None => None,
        Some(p) => guid_scan(lines(text), p + ".input.builtin.gamepad."@),
    }
}

/// Read the device GUID an existing `mednafen.cfg` uses for `system`'s builtin
/// gamepad (bare hex, no `0x`). `None` if unconfigured.
pub fn mednafen_config_guid(text: &str, system: &str) -> (r: Option<String>)
    ensures
        match r {
            Some(g) => mednafen_config_guid_spec(text@, system@) == Some(g@),
            None => mednafen_config_guid_spec(text@, system@) is None,
        },
{
    let sys = chars_of(system);
    let prefix = match mednafen_system_prefix(&sys) {
        Some(p) => p,
        None => return None,
    };
    let mut needle: Vec<char> = Vec::new();
    push_str(&mut needle, prefix);
    push_str(&mut needle, ".input.builtin.gamepad.");
    let t = chars_of(text);
    let ls = lines_vec(&t);
    let ghost l0 = views(ls@);
    let mut i: usize = 0;
    proof {
        assert(l0.skip(0) =~= l0);
    }
    while i < ls.len()
        invariant
            i <= ls.len(),
            views(ls@) == l0,
            l0 == lines(text@),
            mednafen_config_guid_spec(text@, system@) == guid_scan(l0.skip(i as int), needle@),
        decreases ls.len() - i,
    {
        let w = crate::text::words_vec(&ls[i]);
        proof {
            assert(l0.skip(i as int)[0] == l0[i as int]);
            assert(l0.skip(i as int).drop_first() =~= l0.skip(i + 1));
            if w.len() > 0 {
                assert(views(w@)[0] == w@[0]@);
            }
            if w.len() > 1 {
                assert(views(w@)[1] == w@[1]@);
            }
            if w.len() > 2 {
                assert(views(w@)[2] == w@[2]@);
            }
        }
        if w.len() > 0 && crate::text::starts_with_vec(&w[0], &needle) && w.len() >= 2 && eq_str(&w[1], "joystick") {
            if w.len() >= 3 && crate::text::starts_with_str(&w[2], "0x") && w[2].len() > 2 {
                let g = slice_of(&w[2], 2, w[2].len());
                proof {
                    assert(g@ =~= w@[2]@.skip(2));
                }
                return Some(string_of(&g));
            }
        }
        i += 1;
    }
    None
}

/// `trim_end_matches(['+', '-'])`.
pub open spec fn trim_signs(s: Seq<char>) -> Seq<char>
    decreases s.len(),
{
    if s.len() > 0 && (s.last() == '+' || s.last() == '-') {
        trim_signs(s.drop_last())
    } else {
        s
    }
}

/// The axis index of a binding's last token `abs_N±`.
pub open spec fn abs_axis_of(w: Seq<Seq<char>>) -> Option<u32> {
    if w.len() < 2 {
        None
    } else {
        match strip_prefix(w.last(), "abs_"@) {
            None => None,
            Some(rest) => parse_u32(trim_signs(rest)),
        }
    }
}

/// One line's effect on the (x, y) d-pad axes found so far: the first value
/// found for each axis is kept.
pub open spec fn dpad_step(st: (Option<u32>, Option<u32>), line: Seq<char>, needle: Seq<char>) -> (
    Option<u32>,
    Option<u32>,
) {
    let w = crate::text::words(line);
    if w.len() == 0 {
        st
    } else {
        match strip_prefix(w[0], needle) {
            None => st,
            Some(suffix) => {
                let is_x = suffix == "left-l"@ || suffix == "right-l"@;
                let is_y = suffix == "up-l"@ || suffix == "down-l"@;
                match abs_axis_of(w) {
                    Some(n) => if is_x {
                        (if st.0 is None {
                            Some(n)
                        } else {
                            st.0
                        }, st.1)
                    } else if is_y {
                        (st.0, if st.1 is None {
                            Some(n)
                        } else {
                            st.1
                        })
                    } else {
                        st
                    },
                    None => st,
                }
            },
        }
    }
}

pub open spec fn dpad_fold(ls: Seq<Seq<char>>, needle: Seq<char>) -> (Option<u32>, Option<u32>)
    decreases ls.len(),
{
    if ls.len() == 0 {
        (None, None)
    } else {
        dpad_step(dpad_fold(ls.drop_last(), needle), ls.last(), needle)
    }
}

pub open spec fn mednafen_config_dpad_axes_spec(text: Seq<char>, system: Seq<char>) -> Option<
    (u32, u32),
> {
    match mednafen_system_prefix_spec(system) {
        None => None,
        Some(p) => match dpad_fold(lines(text), p + ".input.builtin.gamepad."@) {
            (Some(x), Some(y)) => Some((x, y)),
            _ => None,
        },
    }
}

fn trim_signs_vec(s: &Vec<char>) -> (r: Vec<char>)
    ensures
        r@ == trim_signs(s@),
{
    let mut hi = s.len();
    proof {
        assert(s@.take(hi as int) =~= s@);
    }
    while hi > 0 && (s[hi - 1] == '+' || s[hi - 1] == '-')
        invariant
            hi <= s.len(),
            trim_signs(s@) == trim_signs(s@.take(hi as int)),
        decreases hi,
    {
        proof {
            assert(s@.take(hi as int).drop_last() =~= s@.take(hi - 1));
        }
        hi -= 1;
    }
    slice_of(s, 0, hi)
}

fn abs_axis_of_vec(w: &Vec<Vec<char>>) -> (r: Option<u32>)
    ensures
        r == abs_axis_of(views(w@)),
{
    if w.len() < 2 {
        return None;
    }
    let last = &w[w.len() - 1];
    proof {
        assert(views(w@).last() == last@);
    }
    match strip_prefix_str(last, "abs_") {
        None => None,
        Some(rest) => {
            let t = trim_signs_vec(&rest);
            parse_u32_vec(&t)
        },
    }
}

/// Read the `(x_axis, y_axis)` convention an existing `mednafen.cfg` uses for
/// `system`'s left d-pad. `None` if either axis isn't found.
pub fn mednafen_config_dpad_axes(text: &str, system: &str) -> (r: Option<(u32, u32)>)
    ensures
        r == mednafen_config_dpad_axes_spec(text@, system@),
{
    let sys = chars_of(system);
    let prefix = match mednafen_system_prefix(&sys) {
        Some(p) => p,
        None => return None,
    };
    let mut needle: Vec<char> = Vec::new();
    push_str(&mut needle, prefix);
    push_str(&mut needle, ".input.builtin.gamepad.");
    let t = chars_of(text);
    let ls = lines_vec(&t);
    let ghost l0 = views(ls@);
    let mut x_axis: Option<u32> = None;
    let mut y_axis: Option<u32> = None;
    let mut i: usize = 0;
    while i < ls.len()
        invariant
            i <= ls.len(),
            views(ls@) == l0,
            l0 == lines(text@),
            (x_axis, y_axis) == dpad_fold(l0.take(i as int), needle@),
        decreases ls.len() - i,
    {
        proof {
            assert(l0.take(i + 1).drop_last() =~= l0.take(i as int));
            assert(l0.take(i + 1).last() == l0[i as int]);
        }
        let w = crate::text::words_vec(&ls[i]);
        if w.len() > 0 {
            proof {
                assert(views(w@)[0] == w@[0]@);
            }
            match strip_prefix_vec(&w[0], &needle) {
                None => {},
                Some(suffix) => {
                    let is_x = eq_str(&suffix, "left-l") || eq_str(&suffix, "right-l");
                    let is_y = eq_str(&suffix, "up-l") || eq_str(&suffix, "down-l");
                    match abs_axis_of_vec(&w) {
                        Some(n) => {
                            if is_x {
                                if x_axis.is_none() {
                                    x_axis = Some(n);
                                }
                            } else if is_y {
                                if y_axis.is_none() {
                                    y_axis = Some(n);
                                }
                            }
                        },
                        None => {},
                    }
                },
            }
        }
        i += 1;
    }
    proof {
        assert(l0.take(ls.len() as int) =~= l0);
    }
    match (x_axis, y_axis) {
        (Some(x), Some(y)) => Some((x, y)),
        _ => None,
    }
}

// ── Snes9x ──────────────────────────────────────────────────────────────────

/// snes9x's default analog threshold, written as a percentage on every axis
/// token.
pub const SNES9X_AXIS_THRESHOLD: u32 = 40;

/// The `[Joypad N]` key in `snes9x.conf` of a SNES input id.
pub open spec fn snes9x_pad_key_spec(id: Seq<char>) -> Option<Seq<char>> {
    if id == "dpad_up"@ {
        Some("Up"@)
    } else if id == "dpad_down"@ {
        Some("Down"@)
    } else if id == "dpad_left"@ {
        Some("Left"@)
    } else if id == "dpad_right"@ {
        Some("Right"@)
    } else if id == "a"@ {
        Some("A"@)
    } else if id == "b"@ {
        Some("B"@)
    } else if id == "x"@ {
        Some("X"@)
    } else if id == "y"@ {
        Some("Y"@)
    } else if id == "l"@ {
        Some("L"@)
    } else if id == "r"@ {
        Some("R"@)
    } else if id == "start"@ {
        Some("Start"@)
    } else if id == "select"@ {
        Some("Select"@)
    } else {
        None
    }
}

/// Exec lookup of [`snes9x_pad_key_spec`].
fn snes9x_pad_key(id: &Vec<char>) -> (r: Option<&'static str>)
    ensures
        match r {
            Some(v) => snes9x_pad_key_spec(id@) == Some(v@),
            None => snes9x_pad_key_spec(id@) is None,
        },
{
    if eq_str(id, "dpad_up") {
        Some("Up")
    } else if eq_str(id, "dpad_down") {
        Some("Down")
    } else if eq_str(id, "dpad_left") {
        Some("Left")
    } else if eq_str(id, "dpad_right") {
        Some("Right")
    } else if eq_str(id, "a") {
        Some("A")
    } else if eq_str(id, "b") {
        Some("B")
    } else if eq_str(id, "x") {
        Some("X")
    } else if eq_str(id, "y") {
        Some("Y")
    } else if eq_str(id, "l") {
        Some("L")
    } else if eq_str(id, "r") {
        Some("R")
    } else if eq_str(id, "start") {
        Some("Start")
    } else if eq_str(id, "select") {
        Some("Select")
    } else {
        None
    }
}

/// A resolved raw element as a snes9x joystick token; snes9x has no hat token.
pub open spec fn snes9x_token_spec(joy_num: u32, r: ResolvedRaw) -> Option<Seq<char>> {
    match r.element {
        RawElement::Button(n) => Some("Joystick "@ + dec(joy_num as nat) + " Button "@ + dec(n as nat)),
        RawElement::Axis(n) => Some(
            "Joystick "@ + dec(joy_num as nat) + " Axis "@ + dec(n as nat) + " "@ + seq![
                glyph_spec(r.sign),
            ] + " "@ + dec(SNES9X_AXIS_THRESHOLD as nat) + "%"@,
        ),
        RawElement::Hat(_, _) => None,
    }
}

pub open spec fn snes9x_outcome(id: Seq<char>, desc: Seq<char>, m: PadMapping, joy_num: u32) -> EntryOutcome {
    match snes9x_pad_key_spec(id) {
        None => EntryOutcome::Unencoded,
        Some(key) => match parse_w3c_spec(desc) {
            None => EntryOutcome::Unencoded,
            Some(w) => match resolve_raw_spec(w, m) {
                None => EntryOutcome::Unencoded,
                Some(r) => match snes9x_token_spec(joy_num, r) {
                    None => EntryOutcome::Unencoded,
                    Some(tok) => EntryOutcome::Lines(seq![(key, tok)]),
                },
            },
        },
    }
}

fn snes9x_encode(id: &Vec<char>, desc: &Vec<char>, mapping: &PadMapping, joy_num: u32) -> (r: Option<
    Assignment,
>)
    ensures
        match snes9x_outcome(id@, desc@, *mapping, joy_num) {
            EntryOutcome::Lines(a) => r is Some && a == seq![r->0@],
            _ => r is None,
        },
{
    let key = match snes9x_pad_key(id) {
        Some(k) => k,
        None => return None,
    };
    let w = match parse_w3c_chars(desc) {
        Some(w) => w,
        None => return None,
    };
    let r = match resolve_raw(w, mapping) {
        Some(r) => r,
        None => return None,
    };
    let mut tok: Vec<char> = Vec::new();
    match r.element {
        RawElement::Button(n) => {
            push_str(&mut tok, "Joystick ");
            push_dec(&mut tok, joy_num);
            push_str(&mut tok, " Button ");
            push_dec(&mut tok, n);
        },
        RawElement::Axis(n) => {
            push_str(&mut tok, "Joystick ");
            push_dec(&mut tok, joy_num);
            push_str(&mut tok, " Axis ");
            push_dec(&mut tok, n);
            push_str(&mut tok, " ");
            tok.push(r.sign.glyph());
            push_str(&mut tok, " ");
            push_dec(&mut tok, SNES9X_AXIS_THRESHOLD);
            push_str(&mut tok, "%");
        },
        RawElement::Hat(_, _) => return None,
    }
    let kc = chars_of(key);
    let a = assignment_of(&kc, &tok);
    proof {
        assert(snes9x_token_spec(joy_num, r) == Some(tok@));
    }
    Some(a)
}

/// Turn a SNES profile into the `[Joypad N]` assignments to write for device
/// `joy_num` (1-based). Inputs that can't be resolved — including a d-pad that
/// probes as a hat — are returned unencoded.
pub fn materialize_snes9x(bindings: &Bindings, mapping: &PadMapping, joy_num: u32) -> (r: (
    Vec<Assignment>,
    Vec<String>,
))
    ensures
        (assignment_views(r.0@), string_views(r.1@)) == fold_outcomes(
            bindings.pairs(),
            |id: Seq<char>, d: Seq<char>| snes9x_outcome(id, d, *mapping, joy_num),
        ),
{
    let ghost f = |id: Seq<char>, d: Seq<char>| snes9x_outcome(id, d, *mapping, joy_num);
    let ghost s = bindings.pairs();
    let mut out: Vec<Assignment> = Vec::new();
    let mut unencoded: Vec<String> = Vec::new();
    let mut i: usize = 0;
    proof {
        assert(s.take(0) =~= Seq::<(Seq<char>, Seq<char>)>::empty());
        assert(assignment_views(out@) =~= Seq::<(Seq<char>, Seq<char>)>::empty());
        assert(string_views(unencoded@) =~= Seq::<Seq<char>>::empty());
    }
    while i < bindings.len()
        invariant
            i <= s.len(),
            s == bindings.pairs(),
            f == (|id: Seq<char>, d: Seq<char>| snes9x_outcome(id, d, *mapping, joy_num)),
            (assignment_views(out@), string_views(unencoded@)) == fold_outcomes(s.take(i as int), f),
        decreases s.len() - i,
    {
        let e = bindings.entry(i);
        let id = chars_of(e.0.as_str());
        let d = chars_of(e.1.as_str());
        let res = snes9x_encode(&id, &d, mapping, joy_num);
        proof {
            lemma_fold_step(s, i as int, f);
            assert(s[i as int].0 == id@);
            assert(s[i as int].1 == d@);
            assert(f(s[i as int].0, s[i as int].1) == snes9x_outcome(id@, d@, *mapping, joy_num));
        }
        emit(&mut out, &mut unencoded, &e.0, res);
        proof {
            let nxt = fold_outcomes(s.take(i + 1), f);
            assert(nxt.0 =~= assignment_views(out@));
            assert(nxt.1 =~= string_views(unencoded@));
        }
        i += 1;
    }
    proof {
        assert(s.take(s.len() as int) =~= s);
    }
    (out, unencoded)
}

/// Scan `[section]` for the first `... = Joystick <M> ...` value.
pub open spec fn joy_scan(ls: Seq<Seq<char>>, header: Seq<char>, in_sec: bool) -> Option<u32>
    decreases ls.len(),
{
    if ls.len() == 0 {
        None
    } else {
        let line = ls[0];
        let t = trim(line);
        if is_header(t) {
            joy_scan(ls.drop_first(), header, t == header)
        } else if !in_sec {
            joy_scan(ls.drop_first(), header, in_sec)
        } else {
            match crate::text::split_once(line, '=') {
                None => joy_scan(ls.drop_first(), header, in_sec),
                Some((_, rhs)) => {
                    let w = crate::text::words(rhs);
                    if w.len() >= 2 && w[0] == "Joystick"@ && parse_u32(w[1]) is Some {
                        parse_u32(w[1])
                    } else {
                        joy_scan(ls.drop_first(), header, in_sec)
                    }
                },
            }
        }
    }
}

/// Read the 1-based device number an existing `[section]` in `snes9x.conf`
/// already binds to. `None` if the section binds no joystick.
pub fn snes9x_joystick_number(text: &str, section: &str) -> (r: Option<u32>)
    ensures
        r == joy_scan(lines(text@), section_header(section@), false),
{
    let sec = chars_of(section);
    let mut header: Vec<char> = Vec::new();
    header.push('[');
    push_all(&mut header, &sec);
    header.push(']');
    let t = chars_of(text);
    let ls = lines_vec(&t);
    let ghost l0 = views(ls@);
    let mut in_section = false;
    let mut i: usize = 0;
    proof {
        assert(l0.skip(0) =~= l0);
        assert(header@ =~= section_header(section@));
    }
    while i < ls.len()
        invariant
            i <= ls.len(),
            views(ls@) == l0,
            header@ == section_header(section@),
            joy_scan(lines(text@), section_header(section@), false) == joy_scan(
                l0.skip(i as int),
                header@,
                in_section,
            ),
            l0 == lines(text@),
        decreases ls.len() - i,
    {
        proof {
            assert(l0.skip(i as int)[0] == l0[i as int]);
            assert(l0.skip(i as int).drop_first() =~= l0.skip(i + 1));
        }
        let line = &ls[i];
        let tl = trim_vec(line);
        if tl.len() > 0 && tl[0] == '[' && tl[tl.len() - 1] == ']' {
            in_section = crate::text::eq_vec(&tl, &header);
        } else if in_section {
            match crate::text::split_once_vec(line, '=') {
                None => {},
                Some((_, rhs)) => {
                    let w = crate::text::words_vec(&rhs);
                    if w.len() >= 2 && eq_str(&w[0], "Joystick") {
                        proof {
                            assert(views(w@)[0] == w@[0]@);
                            assert(views(w@)[1] == w@[1]@);
                        }
                        match parse_u32_vec(&w[1]) {
                            Some(n) => return Some(n),
                            None => {},
                        }
                    } else {
                        proof {
                            if w.len() >= 2 {
                                assert(views(w@)[0] == w@[0]@);
                            }
                        }
                    }
                },
            }
        }
        i += 1;
    }
    None
}

/// Scan `[section]` for the `key = ...` line of an input; bound when its value
/// is neither empty nor `Unset`.
pub open spec fn binding_scan(ls: Seq<Seq<char>>, header: Seq<char>, key: Seq<char>, in_sec: bool) -> bool
    decreases ls.len(),
{
    if ls.len() == 0 {
        false
    } else {
        let line = ls[0];
        let t = trim(line);
        if is_header(t) {
            binding_scan(ls.drop_first(), header, key, t == header)
        } else if !in_sec {
            binding_scan(ls.drop_first(), header, key, in_sec)
        } else {
            match crate::text::split_once(line, '=') {
                Some((lhs, rhs)) => if trim(lhs) == key {
                    trim(rhs) != "Unset"@ && trim(rhs).len() > 0
                } else {
                    binding_scan(ls.drop_first(), header, key, in_sec)
                },
                None => binding_scan(ls.drop_first(), header, key, in_sec),
            }
        }
    }
}

pub open spec fn snes9x_has_binding_spec(text: Seq<char>, section: Seq<char>, id: Seq<char>) -> bool {
    match snes9x_pad_key_spec(id) {
        None => false,
        Some(key) => binding_scan(lines(text), section_header(section), key, false),
    }
}

/// Whether `[section]` in `snes9x.conf` already holds a real (non-`Unset`)
/// binding for `input_id`.
pub fn snes9x_has_binding(text: &str, section: &str, input_id: &str) -> (b: bool)
    ensures
        b == snes9x_has_binding_spec(text@, section@, input_id@),
{
    let id = chars_of(input_id);
    let key = match snes9x_pad_key(&id) {
        Some(k) => chars_of(k),
        None => return false,
    };
    let sec = chars_of(section);
    let mut header: Vec<char> = Vec::new();
    header.push('[');
    push_all(&mut header, &sec);
    header.push(']');
    let t = chars_of(text);
    let ls = lines_vec(&t);
    let ghost l0 = views(ls@);
    let mut in_section = false;
    let mut i: usize = 0;
    proof {
        assert(l0.skip(0) =~= l0);
        assert(header@ =~= section_header(section@));
    }
    while i < ls.len()
        invariant
            i <= ls.len(),
            views(ls@) == l0,
            header@ == section_header(section@),
            snes9x_has_binding_spec(text@, section@, input_id@) == binding_scan(
                l0.skip(i as int),
                header@,
                key@,
                in_section,
            ),
        decreases ls.len() - i,
    {
        proof {
            assert(l0.skip(i as int)[0] == l0[i as int]);
            assert(l0.skip(i as int).drop_first() =~= l0.skip(i + 1));
        }
        let line = &ls[i];
        let tl = trim_vec(line);
        if tl.len() > 0 && tl[0] == '[' && tl[tl.len() - 1] == ']' {
            in_section = crate::text::eq_vec(&tl, &header);
        } else if in_section {
            match crate::text::split_once_vec(line, '=') {
                None => {},
                Some((lhs, rhs)) => {
                    if trim_eq(&lhs, &key) {
                        let r = trim_vec(&rhs);
                        return !eq_str(&r, "Unset") && r.len() > 0;
                    }
                },
            }
        }
        i += 1;
    }
    false
}

// ── mGBA ────────────────────────────────────────────────────────────────────

/// mGBA's default analog activation threshold magnitude (`0x4000`).
pub const MGBA_AXIS_THRESHOLD: i32 = 16384;

/// mGBA's config-section platform prefix of a platform id (GB and GBC share `gb`).
pub open spec fn mgba_platform_spec(system: Seq<char>) -> Option<Seq<char>> {
    if system == "gb"@ || system == "gbc"@ {
        Some("gb"@)
    } else if system == "gba"@ {
        Some("gba"@)
    } else {
        None
    }
}

/// Exec lookup of [`mgba_platform_spec`].
fn mgba_platform(system: &Vec<char>) -> (r: Option<&'static str>)
    ensures
        match r {
            Some(v) => mgba_platform_spec(system@) == Some(v@),
            None => mgba_platform_spec(system@) is None,
        },
{
    if eq_str(system, "gb") || eq_str(system, "gbc") {
        Some("gb")
    } else if eq_str(system, "gba") {
        Some("gba")
    } else {
        None
    }
}

/// `[<platform>.input.SDLB]`: a system's player-1 SDL bindings section.
pub fn mgba_section(system: &str) -> (r: Option<String>)
    ensures
        match r {
            Some(s) => mgba_platform_spec(system@) is Some && s@ == mgba_platform_spec(system@)->0
                + ".input.SDLB"@,
            None => mgba_platform_spec(system@) is None,
        },
{
    let sys = chars_of(system);
    let p = match mgba_platform(&sys) {
        Some(p) => p,
        None => return None,
    };
    let mut v: Vec<char> = Vec::new();
    push_str(&mut v, p);
    push_str(&mut v, ".input.SDLB");
    Some(string_of(&v))
}

/// `[<platform>.input-profile.<name>]`: a system's per-device bindings section,
/// keyed by the raw SDL joystick name.
pub fn mgba_profile_section(system: &str, name: &str) -> (r: Option<String>)
    ensures
        match r {
            Some(s) => mgba_platform_spec(system@) is Some && s@ == mgba_platform_spec(system@)->0
                + ".input-profile."@ + name@,
            None => mgba_platform_spec(system@) is None,
        },
{
    let sys = chars_of(system);
    let p = match mgba_platform(&sys) {
        Some(p) => p,
        None => return None,
    };
    let mut v: Vec<char> = Vec::new();
    push_str(&mut v, p);
    push_str(&mut v, ".input-profile.");
    push_str(&mut v, name);
    Some(string_of(&v))
}

/// mGBA's (key-name suffix, game-key enum value) of a Game Boy / GBA input id.
pub open spec fn mgba_game_key_spec(id: Seq<char>) -> Option<(Seq<char>, u32)> {
    if id == "a"@ {
        Some(("A"@, 0))
    } else if id == "b"@ {
        Some(("B"@, 1))
    } else if id == "select"@ {
        Some(("Select"@, 2))
    } else if id == "start"@ {
        Some(("Start"@, 3))
    } else if id == "dpad_right"@ {
        Some(("Right"@, 4))
    } else if id == "dpad_left"@ {
        Some(("Left"@, 5))
    } else if id == "dpad_up"@ {
        Some(("Up"@, 6))
    } else if id == "dpad_down"@ {
        Some(("Down"@, 7))
    } else if id == "l"@ {
        Some(("L"@, 8))
    } else if id == "r"@ {
        Some(("R"@, 9))
    } else {
        None
    }
}

/// Exec lookup of [`mgba_game_key_spec`].
fn mgba_game_key(id: &Vec<char>) -> (r: Option<(&'static str, u32)>)
    ensures
        match r {
            Some((v, n)) => mgba_game_key_spec(id@) == Some((v@, n)),
            None => mgba_game_key_spec(id@) is None,
        },
{
    if eq_str(id, "a") {
        Some(("A", 0))
    } else if eq_str(id, "b") {
        Some(("B", 1))
    } else if eq_str(id, "select") {
        Some(("Select", 2))
    } else if eq_str(id, "start") {
        Some(("Start", 3))
    } else if eq_str(id, "dpad_right") {
        Some(("Right", 4))
    } else if eq_str(id, "dpad_left") {
        Some(("Left", 5))
    } else if eq_str(id, "dpad_up") {
        Some(("Up", 6))
    } else if eq_str(id, "dpad_down") {
        Some(("Down", 7))
    } else if eq_str(id, "l") {
        Some(("L", 8))
    } else if eq_str(id, "r") {
        Some(("R", 9))
    } else {
        None
    }
}

/// Buttons emit `key<Name>`; analog halves the `axis<Name>Axis` +
/// `axis<Name>Value` pair; hats mGBA's inverted `hat<Idx><Dir> = <gamekey>`.
pub open spec fn mgba_outcome(id: Seq<char>, desc: Seq<char>, m: PadMapping) -> EntryOutcome {
    match mgba_game_key_spec(id) {
        None => EntryOutcome::Unencoded,
        Some((name, gamekey)) => match parse_w3c_spec(desc) {
            None => EntryOutcome::Unencoded,
            Some(w) => match resolve_raw_spec(w, m) {
                None => EntryOutcome::Unencoded,
                Some(r) => match r.element {
                    RawElement::Button(n) => EntryOutcome::Lines(seq![("key"@ + name, dec(n as nat))]),
                    RawElement::Axis(n) => EntryOutcome::Lines(
                        seq![
                            ("axis"@ + name + "Axis"@, seq![glyph_spec(r.sign)] + dec(n as nat)),
                            ("axis"@ + name + "Value"@, crate::text::dec_signed(
                                if r.sign == AxisSign::Pos {
                                    MGBA_AXIS_THRESHOLD as int
                                } else {
                                    -MGBA_AXIS_THRESHOLD
                                },
                            )),
                        ],
                    ),
                    RawElement::Hat(idx, dir) => EntryOutcome::Lines(
                        seq![("hat"@ + dec(idx as nat) + hat_word(dir), dec(gamekey as nat))],
                    ),
                },
            },
        },
    }
}

/// Turn a Game Boy / GBA profile into the `[<platform>.input.SDLB]`
/// assignments to write. Unresolvable inputs are returned unencoded.
pub fn materialize_mgba(bindings: &Bindings, mapping: &PadMapping) -> (r: (
    Vec<Assignment>,
    Vec<String>,
))
    ensures
        (assignment_views(r.0@), string_views(r.1@)) == fold_outcomes(
            bindings.pairs(),
            |id: Seq<char>, d: Seq<char>| mgba_outcome(id, d, *mapping),
        ),
{
    let ghost f = |id: Seq<char>, d: Seq<char>| mgba_outcome(id, d, *mapping);
    let ghost s = bindings.pairs();
    let mut out: Vec<Assignment> = Vec::new();
    let mut unencoded: Vec<String> = Vec::new();
    let mut i: usize = 0;
    proof {
        assert(s.take(0) =~= Seq::<(Seq<char>, Seq<char>)>::empty());
        assert(assignment_views(out@) =~= Seq::<(Seq<char>, Seq<char>)>::empty());
        assert(string_views(unencoded@) =~= Seq::<Seq<char>>::empty());
    }
    while i < bindings.len()
        invariant
            i <= s.len(),
            s == bindings.pairs(),
            f == (|id: Seq<char>, d: Seq<char>| mgba_outcome(id, d, *mapping)),
            (assignment_views(out@), string_views(unencoded@)) == fold_outcomes(s.take(i as int), f),
        decreases s.len() - i,
    {
        let e = bindings.entry(i);
        let id = chars_of(e.0.as_str());
        let d = chars_of(e.1.as_str());
        proof {
            lemma_fold_step(s, i as int, f);
            assert(s[i as int].0 == id@);
            assert(s[i as int].1 == d@);
            assert(f(s[i as int].0, s[i as int].1) == mgba_outcome(id@, d@, *mapping));
        }
        let ghost o = assignment_views(out@);
        let ghost u = string_views(unencoded@);
        let mut done = false;
        match mgba_game_key(&id) {
            None => {},
            Some((name, gamekey)) => match parse_w3c_chars(&d) {
                None => {},
                Some(w) => match resolve_raw(w, mapping) {
                    None => {},
                    Some(r) => {
                        done = true;
                        match r.element {
                            RawElement::Button(n) => {
                                let mut k: Vec<char> = Vec::new();
                                push_str(&mut k, "key");
                                push_str(&mut k, name);
                                let mut v: Vec<char> = Vec::new();
                                push_dec(&mut v, n);
                                out.push(assignment_of(&k, &v));
                            },
                            RawElement::Axis(n) => {
                                let mut k1: Vec<char> = Vec::new();
                                push_str(&mut k1, "axis");
                                push_str(&mut k1, name);
                                push_str(&mut k1, "Axis");
                                let mut v1: Vec<char> = Vec::new();
                                v1.push(r.sign.glyph());
                                push_dec(&mut v1, n);
                                out.push(assignment_of(&k1, &v1));
                                let mut k2: Vec<char> = Vec::new();
                                push_str(&mut k2, "axis");
                                push_str(&mut k2, name);
                                push_str(&mut k2, "Value");
                                let mut v2: Vec<char> = Vec::new();
                                match r.sign {
                                    AxisSign::Pos => {},
                                    AxisSign::Neg => v2.push('-'),
                                }
                                push_dec(&mut v2, 16384);
                                proof {
                                    assert(v2@ =~= crate::text::dec_signed(
                                        if r.sign == AxisSign::Pos {
                                            MGBA_AXIS_THRESHOLD as int
                                        } else {
                                            -MGBA_AXIS_THRESHOLD
                                        },
                                    ));
                                }
                                out.push(assignment_of(&k2, &v2));
                            },
                            RawElement::Hat(idx, dir) => {
                                let mut k: Vec<char> = Vec::new();
                                push_str(&mut k, "hat");
                                push_dec(&mut k, idx);
                                push_str(&mut k, dir.word());
                                let mut v: Vec<char> = Vec::new();
                                push_dec(&mut v, gamekey);
                                out.push(assignment_of(&k, &v));
                            },
                        }
                    },
                },
            },
        }
        if !done {
            unencoded.push(e.0.clone());
        }
        proof {
            let nxt = fold_outcomes(s.take(i + 1), f);
            assert(nxt.0 =~= assignment_views(out@));
            assert(nxt.1 =~= string_views(unencoded@));
        }
        i += 1;
    }
    proof {
        assert(s.take(s.len() as int) =~= s);
    }
    (out, unencoded)
}

// ── SDL named-token PlayStation standalones (PCSX2, DuckStation) ────────────

/// Which emulator's token vocabulary to emit.
#[derive(Clone, Copy, Debug, PartialEq, Eq, Structural)]
pub enum PsDialect {
    Pcsx2,
    DuckStation,
}

/// The `[Pad1]` INI key of a DualShock-shaped input id (same for PCSX2 and DuckStation).
pub open spec fn ps_pad_key_spec(id: Seq<char>) -> Option<Seq<char>> {
    if id == "cross"@ {
        Some("Cross"@)
    } else if id == "circle"@ {
        Some("Circle"@)
    } else if id == "square"@ {
        Some("Square"@)
    } else if id == "triangle"@ {
        Some("Triangle"@)
    } else if id == "dpad_up"@ {
        Some("Up"@)
    } else if id == "dpad_down"@ {
        Some("Down"@)
    } else if id == "dpad_left"@ {
        Some("Left"@)
    } else if id == "dpad_right"@ {
        Some("Right"@)
    } else if id == "l1"@ {
        Some("L1"@)
    } else if id == "l2"@ {
        Some("L2"@)
    } else if id == "r1"@ {
        Some("R1"@)
    } else if id == "r2"@ {
        Some("R2"@)
    } else if id == "l3"@ {
        Some("L3"@)
    } else if id == "r3"@ {
        Some("R3"@)
    } else if id == "start"@ {
        Some("Start"@)
    } else if id == "select"@ {
        Some("Select"@)
    } else if id == "l_stick_up"@ {
        Some("LUp"@)
    } else if id == "l_stick_down"@ {
        Some("LDown"@)
    } else if id == "l_stick_left"@ {
        Some("LLeft"@)
    } else if id == "l_stick_right"@ {
        Some("LRight"@)
    } else if id == "r_stick_up"@ {
        Some("RUp"@)
    } else if id == "r_stick_down"@ {
        Some("RDown"@)
    } else if id == "r_stick_left"@ {
        Some("RLeft"@)
    } else if id == "r_stick_right"@ {
        Some("RRight"@)
    } else {
        None
    }
}

/// Exec lookup of [`ps_pad_key_spec`].
fn ps_pad_key(id: &Vec<char>) -> (r: Option<&'static str>)
    ensures
        match r {
            Some(v) => ps_pad_key_spec(id@) == Some(v@),
            None => ps_pad_key_spec(id@) is None,
        },
{
    if eq_str(id, "cross") {
        Some("Cross")
    } else if eq_str(id, "circle") {
        Some("Circle")
    } else if eq_str(id, "square") {
        Some("Square")
    } else if eq_str(id, "triangle") {
        Some("Triangle")
    } else if eq_str(id, "dpad_up") {
        Some("Up")
    } else if eq_str(id, "dpad_down") {
        Some("Down")
    } else if eq_str(id, "dpad_left") {
        Some("Left")
    } else if eq_str(id, "dpad_right") {
        Some("Right")
    } else if eq_str(id, "l1") {
        Some("L1")
    } else if eq_str(id, "l2") {
        Some("L2")
    } else if eq_str(id, "r1") {
        Some("R1")
    } else if eq_str(id, "r2") {
        Some("R2")
    } else if eq_str(id, "l3") {
        Some("L3")
    } else if eq_str(id, "r3") {
        Some("R3")
    } else if eq_str(id, "start") {
        Some("Start")
    } else if eq_str(id, "select") {
        Some("Select")
    } else if eq_str(id, "l_stick_up") {
        Some("LUp")
    } else if eq_str(id, "l_stick_down") {
        Some("LDown")
    } else if eq_str(id, "l_stick_left") {
        Some("LLeft")
    } else if eq_str(id, "l_stick_right") {
        Some("LRight")
    } else if eq_str(id, "r_stick_up") {
        Some("RUp")
    } else if eq_str(id, "r_stick_down") {
        Some("RDown")
    } else if eq_str(id, "r_stick_left") {
        Some("RLeft")
    } else if eq_str(id, "r_stick_right") {
        Some("RRight")
    } else {
        None
    }
}

/// A standard-gamepad button's SDL token name in a dialect (PCSX2 uses
/// positional `Face*` names and plain triggers, DuckStation SDL letters and
/// `~`-suffixed half-axis triggers).
pub open spec fn ps_button_token(n: u32, dialect: PsDialect) -> Option<Seq<char>> {
    if n == 0 {
        Some(if dialect == PsDialect::Pcsx2 { "FaceSouth"@ } else { "A"@ })
    } else if n == 1 {
        Some(if dialect == PsDialect::Pcsx2 { "FaceEast"@ } else { "B"@ })
    } else if n == 2 {
        Some(if dialect == PsDialect::Pcsx2 { "FaceWest"@ } else { "X"@ })
    } else if n == 3 {
        Some(if dialect == PsDialect::Pcsx2 { "FaceNorth"@ } else { "Y"@ })
    } else if n == 4 {
        Some("LeftShoulder"@)
    } else if n == 5 {
        Some("RightShoulder"@)
    } else if n == 6 {
        Some(if dialect == PsDialect::Pcsx2 { "+LeftTrigger"@ } else { "+LeftTrigger~"@ })
    } else if n == 7 {
        Some(if dialect == PsDialect::Pcsx2 { "+RightTrigger"@ } else { "+RightTrigger~"@ })
    } else if n == 8 {
        Some("Back"@)
    } else if n == 9 {
        Some("Start"@)
    } else if n == 10 {
        Some("LeftStick"@)
    } else if n == 11 {
        Some("RightStick"@)
    } else if n == 12 {
        Some("DPadUp"@)
    } else if n == 13 {
        Some("DPadDown"@)
    } else if n == 14 {
        Some("DPadLeft"@)
    } else if n == 15 {
        Some("DPadRight"@)
    } else if n == 16 {
        Some("Guide"@)
    } else {
        None
    }
}

fn ps_button_token_exec(n: u32, dialect: PsDialect) -> (r: Option<&'static str>)
    ensures
        match r {
            Some(v) => ps_button_token(n, dialect) == Some(v@),
            None => ps_button_token(n, dialect) is None,
        },
{
    if n == 0 {
        Some(if dialect == PsDialect::Pcsx2 { "FaceSouth" } else { "A" })
    } else if n == 1 {
        Some(if dialect == PsDialect::Pcsx2 { "FaceEast" } else { "B" })
    } else if n == 2 {
        Some(if dialect == PsDialect::Pcsx2 { "FaceWest" } else { "X" })
    } else if n == 3 {
        Some(if dialect == PsDialect::Pcsx2 { "FaceNorth" } else { "Y" })
    } else if n == 4 {
        Some("LeftShoulder")
    } else if n == 5 {
        Some("RightShoulder")
    } else if n == 6 {
        Some(if dialect == PsDialect::Pcsx2 { "+LeftTrigger" } else { "+LeftTrigger~" })
    } else if n == 7 {
        Some(if dialect == PsDialect::Pcsx2 { "+RightTrigger" } else { "+RightTrigger~" })
    } else if n == 8 {
        Some("Back")
    } else if n == 9 {
        Some("Start")
    } else if n == 10 {
        Some("LeftStick")
    } else if n == 11 {
        Some("RightStick")
    } else if n == 12 {
        Some("DPadUp")
    } else if n == 13 {
        Some("DPadDown")
    } else if n == 14 {
        Some("DPadLeft")
    } else if n == 15 {
        Some("DPadRight")
    } else if n == 16 {
        Some("Guide")
    } else {
        None
    }
}

/// A W3C element as the emulator's SDL token (without the `SDL-N/` prefix).
pub open spec fn ps_sdl_token_spec(w3c: W3cInput, dialect: PsDialect) -> Option<Seq<char>> {
    match w3c {
        W3cInput::Button(n) => ps_button_token(n, dialect),
        W3cInput::Axis(n, sign) => {
            let axis = if n == 0 {
                Some("LeftX"@)
            } else if n == 1 {
                Some("LeftY"@)
            } else if n == 2 {
                Some("RightX"@)
            } else if n == 3 {
                Some("RightY"@)
            } else {
                None
            };
            match axis {
                Some(a) => Some(seq![glyph_spec(sign)] + a),
                None => None,
            }
        },
    }
}

fn ps_sdl_token(w3c: W3cInput, dialect: PsDialect) -> (r: Option<Vec<char>>)
    ensures
        match r {
            Some(v) => ps_sdl_token_spec(w3c, dialect) == Some(v@),
            None => ps_sdl_token_spec(w3c, dialect) is None,
        },
{
    match w3c {
        W3cInput::Button(n) => match ps_button_token_exec(n, dialect) {
            Some(t) => Some(chars_of(t)),
            None => None,
        },
        W3cInput::Axis(n, sign) => {
            let axis = if n == 0 {
                "LeftX"
            } else if n == 1 {
                "LeftY"
            } else if n == 2 {
                "RightX"
            } else if n == 3 {
                "RightY"
            } else {
                return None;
            };
            let mut v: Vec<char> = Vec::new();
            v.push(sign.glyph());
            push_str(&mut v, axis);
            Some(v)
        },
    }
}

pub open spec fn ps_outcome(id: Seq<char>, desc: Seq<char>, dialect: PsDialect, prefix: Seq<char>) -> EntryOutcome {
    match ps_pad_key_spec(id) {
        None => EntryOutcome::Unencoded,
        Some(key) => match parse_w3c_spec(desc) {
            None => EntryOutcome::Unencoded,
            Some(w) => match ps_sdl_token_spec(w, dialect) {
                None => EntryOutcome::Unencoded,
                Some(tok) => EntryOutcome::Lines(seq![(key, prefix + "/"@ + tok)]),
            },
        },
    }
}

fn ps_encode(id: &Vec<char>, desc: &Vec<char>, dialect: PsDialect, prefix: &Vec<char>) -> (r: Option<
    Assignment,
>)
    ensures
        match ps_outcome(id@, desc@, dialect, prefix@) {
            EntryOutcome::Lines(a) => r is Some && a == seq![r->0@],
            _ => r is None,
        },
{
    let key = match ps_pad_key(id) {
        Some(k) => k,
        None => return None,
    };
    let w = match parse_w3c_chars(desc) {
        Some(w) => w,
        None => return None,
    };
    let tok = match ps_sdl_token(w, dialect) {
        Some(t) => t,
        None => return None,
    };
    let mut v: Vec<char> = Vec::new();
    push_all(&mut v, prefix);
    push_str(&mut v, "/");
    push_all(&mut v, &tok);
    let kc = chars_of(key);
    Some(assignment_of(&kc, &v))
}

/// Encode a PlayStation profile into `[Pad1]` `Key = SDL-N/Token` lines for
/// PCSX2 or DuckStation; `device_prefix` is the `SDL-N` the emulator uses.
pub fn materialize_ps_named(bindings: &Bindings, dialect: PsDialect, device_prefix: &str) -> (r: (
    Vec<Assignment>,
    Vec<String>,
))
    ensures
        (assignment_views(r.0@), string_views(r.1@)) == fold_outcomes(
            bindings.pairs(),
            |id: Seq<char>, d: Seq<char>| ps_outcome(id, d, dialect, device_prefix@),
        ),
{
    let pre = chars_of(device_prefix);
    let ghost f = |id: Seq<char>, d: Seq<char>| ps_outcome(id, d, dialect, device_prefix@);
    let ghost s = bindings.pairs();
    let mut out: Vec<Assignment> = Vec::new();
    let mut unencoded: Vec<String> = Vec::new();
    let mut i: usize = 0;
    proof {
        assert(s.take(0) =~= Seq::<(Seq<char>, Seq<char>)>::empty());
        assert(assignment_views(out@) =~= Seq::<(Seq<char>, Seq<char>)>::empty());
        assert(string_views(unencoded@) =~= Seq::<Seq<char>>::empty());
    }
    while i < bindings.len()
        invariant
            i <= s.len(),
            s == bindings.pairs(),
            pre@ == device_prefix@,
            f == (|id: Seq<char>, d: Seq<char>| ps_outcome(id, d, dialect, device_prefix@)),
            (assignment_views(out@), string_views(unencoded@)) == fold_outcomes(s.take(i as int), f),
        decreases s.len() - i,
    {
        let e = bindings.entry(i);
        let id = chars_of(e.0.as_str());
        let d = chars_of(e.1.as_str());
        let res = ps_encode(&id, &d, dialect, &pre);
        proof {
            lemma_fold_step(s, i as int, f);
            assert(s[i as int].0 == id@);
            assert(s[i as int].1 == d@);
            assert(f(s[i as int].0, s[i as int].1) == ps_outcome(id@, d@, dialect, device_prefix@));
        }
        emit(&mut out, &mut unencoded, &e.0, res);
        proof {
            let nxt = fold_outcomes(s.take(i + 1), f);
            assert(nxt.0 =~= assignment_views(out@));
            assert(nxt.1 =~= string_views(unencoded@));
        }
        i += 1;
    }
    proof {
        assert(s.take(s.len() as int) =~= s);
    }
    (out, unencoded)
}

/// Number of leading ASCII digits.
pub open spec fn digit_run(s: Seq<char>) -> nat
    decreases s.len(),
{
    if s.len() > 0 && crate::text::is_digit(s[0]) {
        1 + digit_run(s.drop_first())
    } else {
        0
    }
}

/// Number of leading ASCII hexadecimal digits.
pub open spec fn hex_run(s: Seq<char>) -> nat
    decreases s.len(),
{
    if s.len() > 0 && crate::text::is_hex_digit(s[0]) {
        1 + hex_run(s.drop_first())
    } else {
        0
    }
}

/// Scan `[section]` for the first `Key = SDL-<n>/...` value.
pub open spec fn prefix_scan(ls: Seq<Seq<char>>, header: Seq<char>, in_sec: bool) -> Option<Seq<char>>
    decreases ls.len(),
{
    if ls.len() == 0 {
        None
    } else {
        let line = ls[0];
        let t = trim(line);
        if is_header(t) {
            prefix_scan(ls.drop_first(), header, t == header)
        } else if !in_sec {
            prefix_scan(ls.drop_first(), header, in_sec)
        } else {
            match crate::text::split_once(line, '=') {
                None => prefix_scan(ls.drop_first(), header, in_sec),
                Some((_, rhs)) => match strip_prefix(trim(rhs), "SDL-"@) {
                    Some(rest) => if digit_run(rest) > 0 {
                        Some("SDL-"@ + rest.take(digit_run(rest) as int))
                    } else {
                        prefix_scan(ls.drop_first(), header, in_sec)
                    },
                    None => prefix_scan(ls.drop_first(), header, in_sec),
                },
            }
        }
    }
}

fn digit_run_vec(s: &Vec<char>) -> (n: usize)
    ensures
        n == digit_run(s@),
        n <= s.len(),
{
    let mut i: usize = 0;
    proof {
        assert(s@.skip(0) =~= s@);
    }
    while i < s.len() && '0' <= s[i] && s[i] <= '9'
        invariant
            i <= s.len(),
            digit_run(s@) == i + digit_run(s@.skip(i as int)),
        decreases s.len() - i,
    {
        proof {
            assert(s@.skip(i as int).drop_first() =~= s@.skip(i + 1));
        }
        i += 1;
    }
    i
}

fn hex_run_vec(s: &Vec<char>) -> (n: usize)
    ensures
        n == hex_run(s@),
        n <= s.len(),
{
    let mut i: usize = 0;
    proof {
        assert(s@.skip(0) =~= s@);
    }
    while i < s.len() && (('0' <= s[i] && s[i] <= '9') || ('a' <= s[i] && s[i] <= 'f') || ('A'
        <= s[i] && s[i] <= 'F'))
        invariant
            i <= s.len(),
            hex_run(s@) == i + hex_run(s@.skip(i as int)),
        decreases s.len() - i,
    {
        proof {
            assert(s@.skip(i as int).drop_first() =~= s@.skip(i + 1));
        }
        i += 1;
    }
    i
}

/// Read the `SDL-N` device index an existing `[section]` already uses for its
/// bindings. `None` if unconfigured.
pub fn ps_device_prefix(text: &str, section: &str) -> (r: Option<String>)
    ensures
        match r {
            Some(p) => prefix_scan(lines(text@), section_header(section@), false) == Some(p@),
            None => prefix_scan(lines(text@), section_header(section@), false) is None,
        },
{
    let sec = chars_of(section);
    let mut header: Vec<char> = Vec::new();
    header.push('[');
    push_all(&mut header, &sec);
    header.push(']');
    let t = chars_of(text);
    let ls = lines_vec(&t);
    let ghost l0 = views(ls@);
    let mut in_section = false;
    let mut i: usize = 0;
    proof {
        assert(l0.skip(0) =~= l0);
        assert(header@ =~= section_header(section@));
    }
    while i < ls.len()
        invariant
            i <= ls.len(),
            views(ls@) == l0,
            header@ == section_header(section@),
            prefix_scan(lines(text@), section_header(section@), false) == prefix_scan(
                l0.skip(i as int),
                header@,
                in_section,
            ),
            l0 == lines(text@),
        decreases ls.len() - i,
    {
        proof {
            assert(l0.skip(i as int)[0] == l0[i as int]);
            assert(l0.skip(i as int).drop_first() =~= l0.skip(i + 1));
        }
        let line = &ls[i];
        let tl = trim_vec(line);
        if tl.len() > 0 && tl[0] == '[' && tl[tl.len() - 1] == ']' {
            in_section = crate::text::eq_vec(&tl, &header);
        } else if in_section {
            match crate::text::split_once_vec(line, '=') {
                None => {},
                Some((_, rhs)) => {
                    let r = trim_vec(&rhs);
                    match strip_prefix_str(&r, "SDL-") {
                        Some(rest) => {
                            let n = digit_run_vec(&rest);
                            if n > 0 {
                                let mut v: Vec<char> = Vec::new();
                                push_str(&mut v, "SDL-");
                                let idx = slice_of(&rest, 0, n);
                                push_all(&mut v, &idx);
                                proof {
                                    assert(idx@ =~= rest@.take(n as int));
                                }
                                return Some(string_of(&v));
                            }
                        },
                        None => {},
                    }
                },
            }
        }
        i += 1;
    }
    None
}

/// The first `ID: 0x<32 hex>` line of Mednafen's startup enumeration.
pub open spec fn joystick_id_scan(ls: Seq<Seq<char>>) -> Option<Seq<char>>
    decreases ls.len(),
{
    if ls.len() == 0 {
        None
    } else {
        match strip_prefix(trim_start(ls[0]), "ID: 0x"@) {
            Some(rest) => if hex_run(rest) == 32 {
                Some(rest.take(32))
            } else {
                joystick_id_scan(ls.drop_first())
            },
            None => joystick_id_scan(ls.drop_first()),
        }
    }
}

/// Extract Mednafen's own calculated joystick ID from its startup enumeration
/// line (`  ID: 0x<32-hex> - <name>`); returns the bare 32 hex digits.
pub fn parse_mednafen_joystick_id(stdout: &str) -> (r: Option<String>)
    ensures
        match r {
            Some(id) => joystick_id_scan(lines(stdout@)) == Some(id@),
            None => joystick_id_scan(lines(stdout@)) is None,
        },
{
    let t = chars_of(stdout);
    let ls = lines_vec(&t);
    let ghost l0 = views(ls@);
    let mut i: usize = 0;
    proof {
        assert(l0.skip(0) =~= l0);
    }
    while i < ls.len()
        invariant
            i <= ls.len(),
            views(ls@) == l0,
            joystick_id_scan(lines(stdout@)) == joystick_id_scan(l0.skip(i as int)),
            l0 == lines(stdout@),
        decreases ls.len() - i,
    {
        proof {
            assert(l0.skip(i as int)[0] == l0[i as int]);
            assert(l0.skip(i as int).drop_first() =~= l0.skip(i + 1));
        }
        let ts = trim_start_vec(&ls[i]);
        match strip_prefix_str(&ts, "ID: 0x") {
            Some(rest) => {
                let n = hex_run_vec(&rest);
                if n == 32 {
                    let hex = slice_of(&rest, 0, 32);
                    proof {
                        assert(hex@ =~= rest@.take(32));
                    }
                    return Some(string_of(&hex));
                }
            },
            None => {},
        }
        i += 1;
    }
    None
}

} // verus!
