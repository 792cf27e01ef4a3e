//! Applying a system controller profile to an emulator's own config: where
//! each emulator keeps that config, the preview of what would be written, the
//! text a PlayStation standalone's config becomes, and the SDL-HIDAPI
//! workaround status. Reading, backing up and writing the files happen at the
//! application edge.
use vstd::prelude::*;
use crate::bindings::{
    lemma_leading_lt, lemma_sorted_insert, leading_lt, lex_lt, sorted_insert, sorted_keys,
    Bindings,
};
use crate::config::HidapiWorkaround;
use crate::controller_write::{
    set_flat_key, set_flat_key_spec, set_ini_key_in_section_compact, set_mednafen_setting,
    set_mednafen_setting_spec, materialize_mupen, materialize_mupen_spec, materialize_mednafen,
    mednafen_outcome, materialize_snes9x, snes9x_outcome, materialize_mgba, mgba_outcome,
    mednafen_config_guid, mednafen_config_guid_spec, mednafen_config_dpad_axes,
    mednafen_config_dpad_axes_spec, snes9x_joystick_number, joy_scan, snes9x_has_binding,
    snes9x_has_binding_spec, mgba_section, mgba_profile_section, mgba_platform_spec, PadMapping,
    Assignment, encode_retroarch, materialize_ps_named, materialize_retroarch, parse_w3c, parse_w3c_spec,
    prefix_scan, ps_device_prefix, ps_outcome, retroarch_assignment, retroarch_outcome,
    section_header, set_ini_key_in_section, set_ini_spec, assignment_views, fold_outcomes,
    PsDialect,
};
use crate::adapters::string_views;
use crate::paths::{join_path, join_rel};
use crate::text::{chars_of, eq_str, lines, starts_with_str, string_of};

verus! {

/// What applying a profile to RetroArch would write: console input id to
/// the native config key, for inputs that can be written, and the ids with no
/// stable mapping.
pub struct MaterializePreview {
    pub encoded: Bindings,
    pub unencoded: Vec<String>,
}

/// The result of writing a system profile into an emulator's config.
#[derive(Debug, Clone)]
pub struct ApplyOutcome {
    /// Absolute path of the config file that was edited.
    pub config_path: String,
    /// Absolute path of the backup taken before editing.
    pub backup_path: String,
    /// Number of bindings written.
    pub written: usize,
    /// Console input ids the emulator couldn't map blind.
    pub unencoded: Vec<String>,
    /// Display name of the emulator whose config was written.
    pub emulator: String,
}

/// Live state of the SDL-HIDAPI versus xpadneo workaround.
#[derive(Debug, Clone, Copy)]
pub struct HidapiStatus {
    /// The configured policy.
    pub policy: HidapiWorkaround,
    /// Whether an xpadneo-bound controller is connected right now.
    pub xpadneo_present: bool,
    /// Whether the workaround would be applied to an SDL-input emulator
    /// launched now.
    pub effective: bool,
}

/// The workaround applies always when forced, never when off, and under the
/// automatic policy exactly when an xpadneo controller is present.
pub open spec fn effective_spec(policy: HidapiWorkaround, xpadneo_present: bool) -> bool {
    match policy {
        HidapiWorkaround::Off => false,
        HidapiWorkaround::Force => true,
        HidapiWorkaround::Auto => xpadneo_present,
    }
}

pub fn hidapi_status(policy: HidapiWorkaround, xpadneo_present: bool) -> (r: HidapiStatus)
    ensures
        r.policy == policy,
        r.xpadneo_present == xpadneo_present,
        r.effective == effective_spec(policy, xpadneo_present),
{
    let effective = match policy {
        HidapiWorkaround::Off => false,
        HidapiWorkaround::Force => true,
        HidapiWorkaround::Auto => xpadneo_present,
    };
    HidapiStatus { policy, xpadneo_present, effective }
}

// ── preview ────────────────────────────────────────────────────────────────

/// The (input id, RetroArch key) pairs of the bindings that parse and encode
/// for player 1, in binding order.
pub open spec fn preview_pairs(s: Seq<(Seq<char>, Seq<char>)>) -> Seq<(Seq<char>, Seq<char>)>
    decreases s.len(),
{
    if s.len() == 0 {
        seq![]
    } else {
        let prev = preview_pairs(s.drop_last());
        let e = s.last();
        match parse_w3c_spec(e.1) {
            Some(w) => match retroarch_assignment(1, e.0, w) {
                Some(a) => prev.push((e.0, a.0)),
                None => prev,
            },
            None => prev,
        }
    }
}

proof fn lemma_preview_keys(s: Seq<(Seq<char>, Seq<char>)>)
    ensures
        forall|j: int|
            0 <= j < preview_pairs(s).len() ==> exists|i: int|
                0 <= i < s.len() && (#[trigger] preview_pairs(s)[j]).0 == s[i].0,
    decreases s.len(),
{
    if s.len() > 0 {
        lemma_preview_keys(s.drop_last());
        let p = preview_pairs(s.drop_last());
        assert forall|j: int|
            0 <= j < preview_pairs(s).len() implies exists|i: int|
                0 <= i < s.len() && (#[trigger] preview_pairs(s)[j]).0 == s[i].0 by {
            if j < p.len() {
                assert(preview_pairs(s)[j] == p[j]);
                let i = choose|i: int| 0 <= i < s.drop_last().len() && p[j].0 == s.drop_last()[i].0;
                assert(s[i] == s.drop_last()[i]);
            } else {
                assert(preview_pairs(s)[j].0 == s[s.len() - 1].0);
            }
        }
    }
}

/// Appending a key above every present key puts it last.
proof fn lemma_insert_above(t: Seq<(Seq<char>, Seq<char>)>, k: Seq<char>, v: Seq<char>)
    requires
        forall|j: int| 0 <= j < t.len() ==> lex_lt(#[trigger] t[j].0, k),
    ensures
        sorted_insert(t, k, v) == t.push((k, v)),
    decreases t.len(),
{
    lemma_leading_lt(t, k);
    if leading_lt(t, k) < t.len() {
        assert(lex_lt(t[leading_lt(t, k) as int].0, k));
    }
    assert(t.insert(t.len() as int, (k, v)) =~= t.push((k, v)));
}

/// The preview of applying a profile to RetroArch: which inputs map to which
/// config keys, and which cannot be written blind.
pub fn preview_from_bindings(bindings: &Bindings) -> (r: MaterializePreview)
    requires
        bindings.wf(),
    ensures
        r.encoded.wf(),
        r.encoded.pairs() == preview_pairs(bindings.pairs()),
        string_views(r.unencoded@) == fold_outcomes(
            bindings.pairs(),
            |id: Seq<char>, d: Seq<char>| retroarch_outcome(1, id, d),
        ).1,
{
    let (_assignments, unencoded) = materialize_retroarch(1, bindings);
    let ghost s = bindings.pairs();
    let mut encoded = Bindings::new();
    let mut i: usize = 0;
    proof {
        assert(s.take(0) =~= Seq::<(Seq<char>, Seq<char>)>::empty());
    }
    while i < bindings.len()
        invariant
            i <= s.len(),
            s == bindings.pairs(),
            sorted_keys(s),
            encoded.wf(),
            encoded.pairs() == preview_pairs(s.take(i as int)),
        decreases s.len() - i,
    {
        let e = bindings.entry(i);
        let ghost t = s.take(i as int);
        proof {
            assert(s.take(i as int + 1).drop_last() =~= t);
            assert(s.take(i as int + 1).last() == s[i as int]);
        }
        match parse_w3c(e.1.as_str()) {
            Some(w) => {
                match encode_retroarch(1, e.0.as_str(), w) {
                    Some(a) => {
                        proof {
                            lemma_preview_keys(t);
                            assert forall|j: int| 0 <= j < encoded.pairs().len() implies lex_lt(
                                #[trigger] encoded.pairs()[j].0,
                                s[i as int].0,
                            ) by {
                                let q = choose|q: int| 0 <= q < t.len() && preview_pairs(t)[j].0 == t[q].0;
                                assert(t[q] == s[q]);
                            }
                            lemma_insert_above(encoded.pairs(), e.0@, a.key@);
                        }
                        encoded.insert(string_of(&chars_of(e.0.as_str())), a.key);
                    },
                    None => {},
                }
            },
            None => {},
        }
        i += 1;
    }
    proof {
        assert(s.take(s.len() as int) =~= s);
    }
    MaterializePreview { encoded, unencoded }
}

// ── PlayStation standalones ────────────────────────────────────────────────

/// Each assignment written into `section` in turn, as `key = value` when
/// `spaced`, else as `key=value`.
pub open spec fn apply_ini_assignments(
    text: Seq<char>,
    section: Seq<char>,
    asg: Seq<(Seq<char>, Seq<char>)>,
    spaced: bool,
) -> Seq<char>
    decreases asg.len(),
{
    if asg.len() == 0 {
        text
    } else {
        set_ini_spec(
            apply_ini_assignments(text, section, asg.drop_last(), spaced),
            section,
            asg.last().0,
            asg.last().1,
            spaced,
        )
    }
}

/// Each assignment written into `section` in turn, as `key = value`.
pub open spec fn apply_assignments(text: Seq<char>, section: Seq<char>, asg: Seq<(Seq<char>, Seq<char>)>) -> Seq<char> {
    apply_ini_assignments(text, section, asg, true)
}

/// Each assignment written in turn as a flat `key = "value"` line.
pub open spec fn apply_flat_assignments(text: Seq<char>, asg: Seq<(Seq<char>, Seq<char>)>) -> Seq<char>
    decreases asg.len(),
{
    if asg.len() == 0 {
        text
    } else {
        set_flat_key_spec(apply_flat_assignments(text, asg.drop_last()), asg.last().0, asg.last().1)
    }
}

/// Each assignment written in turn as a Mednafen `key value` setting.
pub open spec fn apply_mednafen_assignments(text: Seq<char>, asg: Seq<(Seq<char>, Seq<char>)>) -> Seq<char>
    decreases asg.len(),
{
    if asg.len() == 0 {
        text
    } else {
        set_mednafen_setting_spec(apply_mednafen_assignments(text, asg.drop_last()), asg.last().0, asg.last().1)
    }
}

/// Writes every assignment into `section` of `text`, in order.
fn write_ini_assignments(text: String, section: &str, assignments: &Vec<Assignment>, spaced: bool) -> (r: String)
    ensures
        r@ == apply_ini_assignments(text@, section@, assignment_views(assignments@), spaced),
{
    let ghost asg = assignment_views(assignments@);
    let ghost t0 = text@;
    let mut text = text;
    let mut i: usize = 0;
    proof {
        assert(asg.take(0) =~= Seq::<(Seq<char>, Seq<char>)>::empty());
    }
    while i < assignments.len()
        invariant
            i <= assignments.len(),
            asg == assignment_views(assignments@),
            text@ == apply_ini_assignments(t0, section@, asg.take(i as int), spaced),
        decreases assignments.len() - i,
    {
        proof {
            assert(asg.take(i as int + 1).drop_last() =~= asg.take(i as int));
            assert(asg.take(i as int + 1).last() == asg[i as int]);
        }
        let a = &assignments[i];
        text = if spaced {
            set_ini_key_in_section(text.as_str(), section, a.key.as_str(), a.value.as_str())
        } else {
            set_ini_key_in_section_compact(text.as_str(), section, a.key.as_str(), a.value.as_str())
        };
        i += 1;
    }
    proof {
        assert(asg.take(assignments.len() as int) =~= asg);
    }
    text
}

/// Writes every assignment as a flat key, in order.
fn write_flat_assignments(text: String, assignments: &Vec<Assignment>) -> (r: String)
    ensures
        r@ == apply_flat_assignments(text@, assignment_views(assignments@)),
{
    let ghost asg = assignment_views(assignments@);
    let ghost t0 = text@;
    let mut text = text;
    let mut i: usize = 0;
    proof {
        assert(asg.take(0) =~= Seq::<(Seq<char>, Seq<char>)>::empty());
    }
    while i < assignments.len()
        invariant
            i <= assignments.len(),
            asg == assignment_views(assignments@),
            text@ == apply_flat_assignments(t0, asg.take(i as int)),
        decreases assignments.len() - i,
    {
        proof {
            assert(asg.take(i as int + 1).drop_last() =~= asg.take(i as int));
            assert(asg.take(i as int + 1).last() == asg[i as int]);
        }
        let a = &assignments[i];
        text = set_flat_key(text.as_str(), a.key.as_str(), a.value.as_str());
        i += 1;
    }
    proof {
        assert(asg.take(assignments.len() as int) =~= asg);
    }
    text
}

/// Writes every assignment as a Mednafen setting, in order.
fn write_mednafen_assignments(text: String, assignments: &Vec<Assignment>) -> (r: String)
    ensures
        r@ == apply_mednafen_assignments(text@, assignment_views(assignments@)),
{
    let ghost asg = assignment_views(assignments@);
    let ghost t0 = text@;
    let mut text = text;
    let mut i: usize = 0;
    proof {
        assert(asg.take(0) =~= Seq::<(Seq<char>, Seq<char>)>::empty());
    }
    while i < assignments.len()
        invariant
            i <= assignments.len(),
            asg == assignment_views(assignments@),
            text@ == apply_mednafen_assignments(t0, asg.take(i as int)),
        decreases assignments.len() - i,
    {
        proof {
            assert(asg.take(i as int + 1).drop_last() =~= asg.take(i as int));
            assert(asg.take(i as int + 1).last() == asg[i as int]);
        }
        let a = &assignments[i];
        text = set_mednafen_setting(text.as_str(), a.key.as_str(), a.value.as_str());
        i += 1;
    }
    proof {
        assert(asg.take(assignments.len() as int) =~= asg);
    }
    text
}

/// The device prefix the config already uses in the section, else `SDL-0`.
pub open spec fn ps_prefix_spec(original: Seq<char>, section: Seq<char>) -> Seq<char> {
    match prefix_scan(lines(original), section_header(section), false) {
        Some(p) => p,
        None => "SDL-0"@,
    }
}

/// A PCSX2/DuckStation config after writing a profile into `section` (by SDL
/// token names, with the device prefix the config already uses): the text,
/// how many bindings were written, and which inputs could not be.
pub open spec fn ps_text_spec(
    original: Seq<char>,
    section: Seq<char>,
    dialect: PsDialect,
    pairs: Seq<(Seq<char>, Seq<char>)>,
) -> (Seq<char>, int, Seq<Seq<char>>) {
    let o = fold_outcomes(
        pairs,
        |id: Seq<char>, d: Seq<char>| ps_outcome(id, d, dialect, ps_prefix_spec(original, section)),
    );
    (apply_assignments(original, section, o.0), o.0.len() as int, o.1)
}

/// The config text after writing a profile into a PCSX2/DuckStation section,
/// with how many bindings were written and which inputs could not be.
pub fn ps_named_profile_text(original: &str, section: &str, dialect: PsDialect, bindings: &Bindings) -> (r: (String, usize, Vec<String>))
    ensures
        (r.0@, r.1 as int, string_views(r.2@)) == ps_text_spec(original@, section@, dialect, bindings.pairs()),
{
    let prefix = match ps_device_prefix(original, section) {
        Some(p) => p,
        None => string_of(&chars_of("SDL-0")),
    };
    let (assignments, unencoded) = materialize_ps_named(bindings, dialect, prefix.as_str());
    let text = write_ini_assignments(string_of(&chars_of(original)), section, &assignments, true);
    let n = assignments.len();
    (text, n, unencoded)
}

// ── the other emulators ────────────────────────────────────────────────────

/// RetroArch's global config after writing a profile for player 1: the text,
/// how many bindings were written, and which inputs could not be.
pub open spec fn retroarch_text_spec(original: Seq<char>, pairs: Seq<(Seq<char>, Seq<char>)>) -> (
    Seq<char>,
    int,
    Seq<Seq<char>>,
) {
    let o = fold_outcomes(pairs, |id: Seq<char>, d: Seq<char>| retroarch_outcome(1, id, d));
    (apply_flat_assignments(original, o.0), o.0.len() as int, o.1)
}

/// The section of `mupen64plus.cfg` that holds the first controller.
pub open spec fn mupen_section() -> Seq<char> {
    "Input-SDL-Control1"@
}

/// `mupen64plus.cfg` after forcing manual mode (`mode = 0`, without which
/// Mupen auto-detects the pad and ignores the keys) and writing the profile.
pub open spec fn mupen_text_spec(original: Seq<char>, pairs: Seq<(Seq<char>, Seq<char>)>, m: PadMapping) -> (
    Seq<char>,
    int,
    Seq<Seq<char>>,
) {
    let o = materialize_mupen_spec(pairs, m);
    let manual = set_ini_spec(original, mupen_section(), "mode"@, "0"@, true);
    (apply_ini_assignments(manual, mupen_section(), o.0, true), o.0.len() as int, o.1)
}

/// `mednafen.cfg` after writing the profile for `device_id`, keeping the
/// d-pad axis convention the config already uses.
pub open spec fn mednafen_text_spec(
    original: Seq<char>,
    system: Seq<char>,
    pairs: Seq<(Seq<char>, Seq<char>)>,
    m: PadMapping,
    device_id: Seq<char>,
) -> (Seq<char>, int, Seq<Seq<char>>) {
    let axes = mednafen_config_dpad_axes_spec(original, system);
    let o = fold_outcomes(
        pairs,
        |id: Seq<char>, d: Seq<char>| mednafen_outcome(system, id, d, m, device_id, axes),
    );
    (apply_mednafen_assignments(original, o.0), o.0.len() as int, o.1)
}

/// The device id Mednafen keys bindings by: the one Mednafen itself
/// reported, else the one the config already records for the system, else
/// the live pad's SDL GUID.
pub open spec fn mednafen_device_spec(
    probed: Option<Seq<char>>,
    original: Seq<char>,
    system: Seq<char>,
    pad_guid: Option<Seq<char>>,
) -> Option<Seq<char>> {
    match probed {
        Some(p) => Some(p),
        None => match mednafen_config_guid_spec(original, system) {
            Some(g) => Some(g),
            None => pad_guid,
        },
    }
}

/// The section of `snes9x.conf` that holds the first joypad.
pub open spec fn snes9x_section() -> Seq<char> {
    "Joypad 0"@
}

/// The joystick number the config already uses for the first joypad, else 1.
pub open spec fn snes9x_joy_spec(original: Seq<char>) -> u32 {
    match joy_scan(lines(original), section_header(snes9x_section()), false) {
        Some(j) => j,
        None => 1,
    }
}

/// A d-pad input the config already binds (snes9x cannot address the SDL hat,
/// but the existing lines work and are left alone, so it is not reported).
pub open spec fn dpad_already_bound(original: Seq<char>, id: Seq<char>) -> bool {
    crate::text::starts_with(id, "dpad_"@) && snes9x_has_binding_spec(original, snes9x_section(), id)
}

/// `ids` without the d-pad inputs the config already binds, in order.
pub open spec fn without_bound_dpad(ids: Seq<Seq<char>>, original: Seq<char>) -> Seq<Seq<char>>
    decreases ids.len(),
{
    if ids.len() == 0 {
        seq![]
    } else {
        let prev = without_bound_dpad(ids.drop_last(), original);
        if dpad_already_bound(original, ids.last()) {
            prev
        } else {
            prev.push(ids.last())
        }
    }
}

/// `snes9x.conf` after writing the profile for the joystick number the config
/// already uses.
pub open spec fn snes9x_text_spec(original: Seq<char>, pairs: Seq<(Seq<char>, Seq<char>)>, m: PadMapping) -> (
    Seq<char>,
    int,
    Seq<Seq<char>>,
) {
    let joy = snes9x_joy_spec(original);
    let o = fold_outcomes(pairs, |id: Seq<char>, d: Seq<char>| snes9x_outcome(id, d, m, joy));
    (apply_ini_assignments(original, snes9x_section(), o.0, true), o.0.len() as int, without_bound_dpad(o.1, original))
}

/// mGBA's `config.ini` after writing the profile compactly into the system's
/// SDLB section and, when the live pad's name is known, into that pad's own
/// input profile too (mGBA loads it last, so it would otherwise override the
/// SDLB section).
pub open spec fn mgba_text_spec(
    original: Seq<char>,
    platform: Seq<char>,
    pairs: Seq<(Seq<char>, Seq<char>)>,
    m: PadMapping,
    pad_name: Option<Seq<char>>,
) -> (Seq<char>, int, Seq<Seq<char>>) {
    let o = fold_outcomes(pairs, |id: Seq<char>, d: Seq<char>| mgba_outcome(id, d, m));
    let base = apply_ini_assignments(original, platform + ".input.SDLB"@, o.0, false);
    let text = match pad_name {
        Some(n) => apply_ini_assignments(base, platform + ".input-profile."@ + n, o.0, false),
        None => base,
    };
    (text, o.0.len() as int, o.1)
}

/// RetroArch's config text after writing a profile for player 1.
pub fn retroarch_profile_text(original: &str, bindings: &Bindings) -> (r: (String, usize, Vec<String>))
    ensures
        (r.0@, r.1 as int, string_views(r.2@)) == retroarch_text_spec(original@, bindings.pairs()),
{
    let (assignments, unencoded) = materialize_retroarch(1, bindings);
    let text = write_flat_assignments(string_of(&chars_of(original)), &assignments);
    let n = assignments.len();
    (text, n, unencoded)
}

/// `mupen64plus.cfg` text after writing a profile in manual mode.
pub fn mupen_profile_text(original: &str, bindings: &Bindings, mapping: &PadMapping) -> (r: (String, usize, Vec<String>))
    ensures
        (r.0@, r.1 as int, string_views(r.2@)) == mupen_text_spec(original@, bindings.pairs(), *mapping),
{
    let manual = set_ini_key_in_section(original, "Input-SDL-Control1", "mode", "0");
    let (assignments, unencoded) = materialize_mupen(bindings, mapping);
    let text = write_ini_assignments(manual, "Input-SDL-Control1", &assignments, true);
    let n = assignments.len();
    (text, n, unencoded)
}

/// The device id to key Mednafen bindings by, if any source has one.
pub fn mednafen_device_id(probed: Option<String>, original: &str, system: &str, pad_guid: Option<&str>) -> (r: Option<String>)
    ensures
        match r {
            Some(g) => mednafen_device_spec(
                match probed { Some(p) => Some(p@), None => None },
                original@,
                system@,
                match pad_guid { Some(p) => Some(p@), None => None },
            ) == Some(g@),
            None => mednafen_device_spec(
                match probed { Some(p) => Some(p@), None => None },
                original@,
                system@,
                match pad_guid { Some(p) => Some(p@), None => None },
            ) is None,
        },
{
    match probed {
        Some(p) => Some(p),
        None => match mednafen_config_guid(original, system) {
            Some(g) => Some(g),
            None => match pad_guid {
                Some(g) => Some(string_of(&chars_of(g))),
                None => None,
            },
        },
    }
}

/// `mednafen.cfg` text after writing a profile for `device_id`.
pub fn mednafen_profile_text(
    original: &str,
    system: &str,
    bindings: &Bindings,
    mapping: &PadMapping,
    device_id: &str,
) -> (r: (String, usize, Vec<String>))
    ensures
        (r.0@, r.1 as int, string_views(r.2@)) == mednafen_text_spec(
            original@,
            system@,
            bindings.pairs(),
            *mapping,
            device_id@,
        ),
{
    let axes = mednafen_config_dpad_axes(original, system);
    let (assignments, unencoded) = materialize_mednafen(system, bindings, mapping, device_id, axes);
    let text = write_mednafen_assignments(string_of(&chars_of(original)), &assignments);
    let n = assignments.len();
    (text, n, unencoded)
}

/// `snes9x.conf` text after writing a profile, without reporting d-pad inputs
/// the config already binds.
pub fn snes9x_profile_text(original: &str, bindings: &Bindings, mapping: &PadMapping) -> (r: (String, usize, Vec<String>))
    ensures
        (r.0@, r.1 as int, string_views(r.2@)) == snes9x_text_spec(original@, bindings.pairs(), *mapping),
{
    let joy = match snes9x_joystick_number(original, "Joypad 0") {
        Some(j) => j,
        None => 1,
    };
    proof {
        assert(section_header("Joypad 0"@) == section_header(snes9x_section()));
    }
    let (assignments, unencoded) = materialize_snes9x(bindings, mapping, joy);
    let ghost ids = string_views(unencoded@);
    let mut kept: Vec<String> = Vec::new();
    let mut i: usize = 0;
    proof {
        assert(ids.take(0) =~= Seq::<Seq<char>>::empty());
        assert(string_views(kept@) =~= Seq::<Seq<char>>::empty());
    }
    while i < unencoded.len()
        invariant
            i <= unencoded.len(),
            ids == string_views(unencoded@),
            string_views(kept@) == without_bound_dpad(ids.take(i as int), original@),
        decreases unencoded.len() - i,
    {
        proof {
            assert(ids.take(i as int + 1).drop_last() =~= ids.take(i as int));
            assert(ids.take(i as int + 1).last() == ids[i as int]);
        }
        let id = chars_of(unencoded[i].as_str());
        let bound = starts_with_str(&id, "dpad_") && snes9x_has_binding(original, "Joypad 0", unencoded[i].as_str());
        if !bound {
            let ghost before = kept@;
            kept.push(string_of(&id));
            proof {
                assert(string_views(kept@) =~= string_views(before).push(ids[i as int]));
            }
        }
        i += 1;
    }
    proof {
        assert(ids.take(unencoded.len() as int) =~= ids);
    }
    let text = write_ini_assignments(string_of(&chars_of(original)), "Joypad 0", &assignments, true);
    let n = assignments.len();
    (text, n, kept)
}

/// mGBA's `config.ini` text after writing a profile, or `None` when mGBA has
/// no input section for the system.
pub fn mgba_profile_text(
    original: &str,
    system: &str,
    bindings: &Bindings,
    mapping: &PadMapping,
    pad_name: Option<&str>,
) -> (r: Option<(String, usize, Vec<String>)>)
    ensures
        match r {
            Some(t) => mgba_platform_spec(system@) is Some && (t.0@, t.1 as int, string_views(t.2@))
                == mgba_text_spec(
                original@,
                mgba_platform_spec(system@)->0,
                bindings.pairs(),
                *mapping,
                match pad_name { Some(n) => Some(n@), None => None },
            ),
            None => mgba_platform_spec(system@) is None,
        },
{
    let section = match mgba_section(system) {
        Some(s) => s,
        None => return None,
    };
    let (assignments, unencoded) = materialize_mgba(bindings, mapping);
    let mut text = write_ini_assignments(string_of(&chars_of(original)), section.as_str(), &assignments, false);
    match pad_name {
        Some(n) => {
            match mgba_profile_section(system, n) {
                Some(ps) => {
                    text = write_ini_assignments(text, ps.as_str(), &assignments, false);
                },
                None => {},
            }
        },
        None => {},
    }
    let n = assignments.len();
    Some((text, n, unencoded))
}

// ── which config, and what it becomes ──────────────────────────────────────

/// Why no profile is known for a system.
#[derive(Clone, Copy, Debug, PartialEq, Eq, Structural)]
pub enum AssignRefusal {
    /// No profile is assigned to the system.
    NotAssigned,
    /// The assigned id names no saved profile.
    ProfileMissing,
}

/// Index of the first pair whose key is `k`, or -1.
pub open spec fn first_key(ps: Seq<(String, String)>, k: Seq<char>) -> int
    decreases ps.len(),
{
    if ps.len() == 0 {
        -1
    } else if ps[0].0@ == k {
        0
    } else if first_key(ps.drop_first(), k) < 0 {
        -1
    } else {
        first_key(ps.drop_first(), k) + 1
    }
}

/// Index of the first id equal to `id`, or -1.
pub open spec fn first_id(ids: Seq<String>, id: Seq<char>) -> int
    decreases ids.len(),
{
    if ids.len() == 0 {
        -1
    } else if ids[0]@ == id {
        0
    } else if first_id(ids.drop_first(), id) < 0 {
        -1
    } else {
        first_id(ids.drop_first(), id) + 1
    }
}

proof fn lemma_first_key_bounds(ps: Seq<(String, String)>, k: Seq<char>)
    ensures
        -1 <= first_key(ps, k) < ps.len(),
    decreases ps.len(),
{
    if ps.len() > 0 {
        lemma_first_key_bounds(ps.drop_first(), k);
    }
}

/// The profile assigned to `system`: the first assignment for the system
/// names a profile id, which must be one of the saved profiles'.
pub open spec fn assigned_spec(assignments: Seq<(String, String)>, profile_ids: Seq<String>, system: Seq<char>) -> Result<
    int,
    AssignRefusal,
> {
    let a = first_key(assignments, system);
    if a < 0 {
        Err(AssignRefusal::NotAssigned)
    } else {
        let i = first_id(profile_ids, assignments[a].1@);
        if i < 0 {
            Err(AssignRefusal::ProfileMissing)
        } else {
            Ok(i)
        }
    }
}

/// Which saved profile a system's assignment names, or why there is none.
pub fn assigned_profile(assignments: &Vec<(String, String)>, profile_ids: &Vec<String>, system: &str) -> (r: Result<
    usize,
    AssignRefusal,
>)
    ensures
        match r {
            Ok(i) => assigned_spec(assignments@, profile_ids@, system@) == Ok::<int, AssignRefusal>(i as int),
            Err(e) => assigned_spec(assignments@, profile_ids@, system@) == Err::<int, AssignRefusal>(e),
        },
{
    let sc = chars_of(system);
    let mut a: usize = 0;
    proof {
        assert(assignments@.skip(0) =~= assignments@);
    }
    while a < assignments.len()
        invariant
            a <= assignments.len(),
            sc@ == system@,
            first_key(assignments@, system@) == (if first_key(assignments@.skip(a as int), system@) < 0 {
                -1
            } else {
                first_key(assignments@.skip(a as int), system@) + a
            }),
        ensures
            a <= assignments.len(),
            a < assignments.len() ==> assignments@[a as int].0@ == system@,
            first_key(assignments@, system@) == (if first_key(assignments@.skip(a as int), system@) < 0 {
                -1
            } else {
                first_key(assignments@.skip(a as int), system@) + a
            }),
        decreases assignments.len() - a,
    {
        proof {
            assert(assignments@.skip(a as int).drop_first() =~= assignments@.skip(a as int + 1));
            assert(assignments@.skip(a as int)[0] == assignments@[a as int]);
        }
        if crate::text::eq_vec(&chars_of(assignments[a].0.as_str()), &sc) {
            break;
        }
        a += 1;
    }
    if a == assignments.len() {
        proof {
            assert(assignments@.skip(a as int) =~= Seq::<(String, String)>::empty());
        }
        return Err(AssignRefusal::NotAssigned);
    }
    proof {
        lemma_first_key_bounds(assignments@, system@);
        assert(assignments@.skip(a as int)[0] == assignments@[a as int]);
        assert(first_key(assignments@.skip(a as int), system@) == 0);
        assert(profile_ids@.skip(0) =~= profile_ids@);
    }
    let want = chars_of(assignments[a].1.as_str());
    let mut i: usize = 0;
    while i < profile_ids.len()
        invariant
            i <= profile_ids.len(),
            first_key(assignments@, system@) == a,
            a < assignments.len(),
            want@ == assignments@[a as int].1@,
            first_id(profile_ids@, want@) == (if first_id(profile_ids@.skip(i as int), want@) < 0 {
                -1
            } else {
                first_id(profile_ids@.skip(i as int), want@) + i
            }),
        decreases profile_ids.len() - i,
    {
        proof {
            assert(profile_ids@.skip(i as int).drop_first() =~= profile_ids@.skip(i as int + 1));
            assert(profile_ids@.skip(i as int)[0] == profile_ids@[i as int]);
        }
        if crate::text::eq_vec(&chars_of(profile_ids[i].as_str()), &want) {
            proof {
                assert(first_id(profile_ids@.skip(i as int), want@) == 0);
            }
            return Ok(i);
        }
        i += 1;
    }
    proof {
        assert(profile_ids@.skip(i as int) =~= Seq::<String>::empty());
    }
    Err(AssignRefusal::ProfileMissing)
}

/// The emulator config a system profile is written into.
#[derive(Clone, Copy, Debug, PartialEq, Eq, Structural)]
pub enum WriteTarget {
    RetroArch,
    Mupen,
    Mednafen,
    Pcsx2,
    DuckStation,
    Snes9x,
    Mgba,
}

/// Why a system profile cannot be written.
#[derive(Clone, Copy, Debug, PartialEq, Eq, Structural)]
pub enum WriteRefusal {
    /// The emulator reads raw joystick indices and no pad is connected.
    NoPad,
    /// mGBA has no input section for the system.
    NoInputSection,
    /// Controller writing is not supported for the emulator.
    NotWired,
    /// No source gave Mednafen's device id.
    NoDeviceId,
    /// An emulator is running; emulators persist their config on exit, so
    /// nothing is written meanwhile.
    EmulatorRunning,
}

/// The emulators that read raw joystick indices, which only a live pad probe
/// can resolve.
pub open spec fn needs_pad(t: WriteTarget) -> bool {
    match t {
        WriteTarget::Mupen | WriteTarget::Mednafen | WriteTarget::Snes9x | WriteTarget::Mgba => true,
        _ => false,
    }
}

/// The config to write for an emulator adapter, given whether a pad was
/// probed and whether an emulator is running (which refuses first).
pub open spec fn write_target_spec(adapter_id: Seq<char>, system: Seq<char>, has_pad: bool, emulator_running: bool) -> Result<
    WriteTarget,
    WriteRefusal,
> {
    let t = if adapter_id == "retroarch"@ {
        Some(WriteTarget::RetroArch)
    } else if adapter_id == "mupen64plus"@ {
        Some(WriteTarget::Mupen)
    } else if adapter_id == "mednafen"@ {
        Some(WriteTarget::Mednafen)
    } else if adapter_id == "pcsx2"@ {
        Some(WriteTarget::Pcsx2)
    } else if adapter_id == "duckstation"@ {
        Some(WriteTarget::DuckStation)
    } else if adapter_id == "snes9x"@ {
        Some(WriteTarget::Snes9x)
    } else if adapter_id == "mgba"@ {
        Some(WriteTarget::Mgba)
    } else {
        None
    };
    if emulator_running {
        Err(WriteRefusal::EmulatorRunning)
    } else {
        match t {
            None => Err(WriteRefusal::NotWired),
            Some(t) => if needs_pad(t) && !has_pad {
                Err(WriteRefusal::NoPad)
            } else if t == WriteTarget::Mgba && mgba_platform_spec(system) is None {
                Err(WriteRefusal::NoInputSection)
            } else {
                Ok(t)
            },
        }
    }
}

/// Which emulator config a profile for `system` is written into, or why it
/// cannot be.
pub fn write_target(adapter_id: &str, system: &str, has_pad: bool, emulator_running: bool) -> (r: Result<
    WriteTarget,
    WriteRefusal,
>)
    ensures
        r == write_target_spec(adapter_id@, system@, has_pad, emulator_running),
{
    if emulator_running {
        return Err(WriteRefusal::EmulatorRunning);
    }
    let a = chars_of(adapter_id);
    let t = if eq_str(&a, "retroarch") {
        WriteTarget::RetroArch
    } else if eq_str(&a, "mupen64plus") {
        WriteTarget::Mupen
    } else if eq_str(&a, "mednafen") {
        WriteTarget::Mednafen
    } else if eq_str(&a, "pcsx2") {
        WriteTarget::Pcsx2
    } else if eq_str(&a, "duckstation") {
        WriteTarget::DuckStation
    } else if eq_str(&a, "snes9x") {
        WriteTarget::Snes9x
    } else if eq_str(&a, "mgba") {
        WriteTarget::Mgba
    } else {
        return Err(WriteRefusal::NotWired);
    };
    let pad = match t {
        WriteTarget::Mupen | WriteTarget::Mednafen | WriteTarget::Snes9x | WriteTarget::Mgba => true,
        _ => false,
    };
    if pad && !has_pad {
        return Err(WriteRefusal::NoPad);
    }
    match t {
        WriteTarget::Mgba => {
            if mgba_section(system).is_none() {
                return Err(WriteRefusal::NoInputSection);
            }
        },
        _ => {},
    }
    Ok(t)
}

/// What a target's config becomes when the profile is written into it.
pub open spec fn plan_spec(
    target: WriteTarget,
    system: Seq<char>,
    pairs: Seq<(Seq<char>, Seq<char>)>,
    mapping: Option<PadMapping>,
    original: Seq<char>,
    probed: Option<Seq<char>>,
    pad_guid: Option<Seq<char>>,
    pad_name: Option<Seq<char>>,
) -> Result<(Seq<char>, int, Seq<Seq<char>>), WriteRefusal> {
    match target {
        WriteTarget::RetroArch => Ok(retroarch_text_spec(original, pairs)),
        WriteTarget::Mupen => Ok(mupen_text_spec(original, pairs, mapping->0)),
        WriteTarget::Mednafen => match mednafen_device_spec(probed, original, system, pad_guid) {
            Some(g) => Ok(mednafen_text_spec(original, system, pairs, mapping->0, g)),
            None => Err(WriteRefusal::NoDeviceId),
        },
        WriteTarget::Pcsx2 => Ok(ps_text_spec(original, "Pad1"@, PsDialect::Pcsx2, pairs)),
        WriteTarget::DuckStation => Ok(ps_text_spec(original, "Pad1"@, PsDialect::DuckStation, pairs)),
        WriteTarget::Snes9x => Ok(snes9x_text_spec(original, pairs, mapping->0)),
        WriteTarget::Mgba => Ok(
            mgba_text_spec(original, mgba_platform_spec(system)->0, pairs, mapping->0, pad_name),
        ),
    }
}

/// The text `original` becomes when the profile is written into the
/// target's config, with how many bindings were written and which inputs
/// could not be; for Mednafen, refused when no device id is known.
pub fn plan_profile_write(
    target: WriteTarget,
    system: &str,
    bindings: &Bindings,
    mapping: Option<&PadMapping>,
    original: &str,
    probed_id: Option<String>,
    pad_guid: Option<&str>,
    pad_name: Option<&str>,
) -> (r: Result<(String, usize, Vec<String>), WriteRefusal>)
    requires
        needs_pad(target) ==> mapping is Some,
        target == WriteTarget::Mgba ==> mgba_platform_spec(system@) is Some,
    ensures
        ({
            let p = plan_spec(
                target,
                system@,
                bindings.pairs(),
                match mapping { Some(m) => Some(*m), None => None },
                original@,
                match probed_id { Some(x) => Some(x@), None => None },
                match pad_guid { Some(x) => Some(x@), None => None },
                match pad_name { Some(x) => Some(x@), None => None },
            );
            match r {
                Ok(t) => p == Ok::<(Seq<char>, int, Seq<Seq<char>>), WriteRefusal>((t.0@, t.1 as int, string_views(t.2@))),
                Err(e) => p == Err::<(Seq<char>, int, Seq<Seq<char>>), WriteRefusal>(e),
            }
        }),
{
    match target {
        WriteTarget::RetroArch => Ok(retroarch_profile_text(original, bindings)),
        WriteTarget::Mupen => {
            let m = mapping.unwrap();
            Ok(mupen_profile_text(original, bindings, m))
        },
        WriteTarget::Mednafen => {
            let m = mapping.unwrap();
            match mednafen_device_id(probed_id, original, system, pad_guid) {
                Some(g) => Ok(mednafen_profile_text(original, system, bindings, m, g.as_str())),
                None => Err(WriteRefusal::NoDeviceId),
            }
        },
        WriteTarget::Pcsx2 => Ok(ps_named_profile_text(original, "Pad1", PsDialect::Pcsx2, bindings)),
        WriteTarget::DuckStation => Ok(ps_named_profile_text(original, "Pad1", PsDialect::DuckStation, bindings)),
        WriteTarget::Snes9x => {
            let m = mapping.unwrap();
            Ok(snes9x_profile_text(original, bindings, m))
        },
        WriteTarget::Mgba => {
            let m = mapping.unwrap();
            match mgba_profile_text(original, system, bindings, m, pad_name) {
                Some(t) => Ok(t),
                None => Err(WriteRefusal::NoInputSection),
            }
        },
    }
}

// ── config locations ───────────────────────────────────────────────────────

/// `<home>/<rel>` when there is a home directory.
pub open spec fn under_home(home: Option<&str>, rel: Seq<char>) -> Option<Seq<char>> {
    match home {
        Some(h) => Some(join_rel(h@, rel)),
        None => None,
    }
}

fn under_home_exec(home: Option<&str>, rel: &str) -> (r: Option<String>)
    ensures
        match r {
            Some(p) => under_home(home, rel@) == Some(p@),
            None => under_home(home, rel@) is None,
        },
{
    match home {
        Some(h) => Some(join_path(h, rel)),
        None => None,
    }
}

/// Mednafen's `mednafen.cfg`.
pub fn mednafen_config_path(home: Option<&str>) -> (r: Option<String>)
    ensures
        match r {
            Some(p) => home is Some && p@ == join_rel(join_rel(home->0@, ".mednafen"@), "mednafen.cfg"@),
            None => home is None,
        },
{
    match home {
        Some(h) => {
            let d = join_path(h, ".mednafen");
            Some(join_path(d.as_str(), "mednafen.cfg"))
        },
        None => None,
    }
}

/// The `retroarch.cfg` to write, native or Flatpak.
pub fn retroarch_config_path(home: Option<&str>, flatpak: bool) -> (r: Option<String>)
    ensures
        match r {
            Some(p) => under_home(home, if flatpak {
                ".var/app/org.libretro.RetroArch/config/retroarch/retroarch.cfg"@
            } else {
                ".config/retroarch/retroarch.cfg"@
            }) == Some(p@),
            None => home is None,
        },
{
    if flatpak {
        under_home_exec(home, ".var/app/org.libretro.RetroArch/config/retroarch/retroarch.cfg")
    } else {
        under_home_exec(home, ".config/retroarch/retroarch.cfg")
    }
}

/// Mupen64Plus's config, under `$XDG_CONFIG_HOME`, else `~/.config`.
pub fn mupen_config_path(xdg_config_home: Option<&str>, home: Option<&str>) -> (r: Option<String>)
    ensures
        match r {
            Some(p) => p@ == join_rel(join_rel(match xdg_config_home {
                Some(x) => x@,
                None => join_rel(home->0@, ".config"@),
            }, "mupen64plus"@), "mupen64plus.cfg"@) && (xdg_config_home is Some || home is Some),
            None => xdg_config_home is None && home is None,
        },
{
    let base = match xdg_config_home {
        Some(x) => string_of(&chars_of(x)),
        None => match home {
            Some(h) => join_path(h, ".config"),
            None => {
                return None;
            },
        },
    };
    let d = join_path(base.as_str(), "mupen64plus");
    Some(join_path(d.as_str(), "mupen64plus.cfg"))
}

/// PCSX2's `PCSX2.ini`, native or Flatpak.
pub fn pcsx2_config_path(home: Option<&str>, flatpak: bool) -> (r: Option<String>)
    ensures
        match r {
            Some(p) => under_home(home, if flatpak {
                ".var/app/net.pcsx2.PCSX2/config/PCSX2/inis/PCSX2.ini"@
            } else {
                ".config/PCSX2/inis/PCSX2.ini"@
            }) == Some(p@),
            None => home is None,
        },
{
    if flatpak {
        under_home_exec(home, ".var/app/net.pcsx2.PCSX2/config/PCSX2/inis/PCSX2.ini")
    } else {
        under_home_exec(home, ".config/PCSX2/inis/PCSX2.ini")
    }
}

/// DuckStation's `settings.ini`, native or Flatpak.
pub fn duckstation_config_path(home: Option<&str>, flatpak: bool) -> (r: Option<String>)
    ensures
        match r {
            Some(p) => under_home(home, if flatpak {
                ".var/app/org.duckstation.DuckStation/config/duckstation/settings.ini"@
            } else {
                ".config/duckstation/settings.ini"@
            }) == Some(p@),
            None => home is None,
        },
{
    if flatpak {
        under_home_exec(home, ".var/app/org.duckstation.DuckStation/config/duckstation/settings.ini")
    } else {
        under_home_exec(home, ".config/duckstation/settings.ini")
    }
}

/// Snes9x's `snes9x.conf`, native or Flatpak.
pub fn snes9x_config_path(home: Option<&str>, flatpak: bool) -> (r: Option<String>)
    ensures
        match r {
            Some(p) => under_home(home, if flatpak {
                ".var/app/com.snes9x.Snes9x/config/snes9x/snes9x.conf"@
            } else {
                ".config/snes9x/snes9x.conf"@
            }) == Some(p@),
            None => home is None,
        },
{
    if flatpak {
        under_home_exec(home, ".var/app/com.snes9x.Snes9x/config/snes9x/snes9x.conf")
    } else {
        under_home_exec(home, ".config/snes9x/snes9x.conf")
    }
}

/// mGBA's `config.ini`, native or Flatpak.
pub fn mgba_config_path(home: Option<&str>, flatpak: bool) -> (r: Option<String>)
    ensures
        match r {
            Some(p) => under_home(home, if flatpak {
                ".var/app/io.mgba.mGBA/config/mgba/config.ini"@
            } else {
                ".config/mgba/config.ini"@
            }) == Some(p@),
            None => home is None,
        },
{
    if flatpak {
        under_home_exec(home, ".var/app/io.mgba.mGBA/config/mgba/config.ini")
    } else {
        under_home_exec(home, ".config/mgba/config.ini")
    }
}

} // verus!
