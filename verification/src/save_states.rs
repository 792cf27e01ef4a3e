//! Savestate slots: how a state file's name maps to a slot, the slot labels,
//! and the order and thumbnails of a ROM's states. Listing directories and
//! reading file metadata happen at the application edge.
use vstd::prelude::*;
use crate::adapters::string_views;
use crate::iso9660::opt_view;
use crate::adapters::standalone::{classify_slot, classify_slot_exec, learn_key, learn_key_exec, KeyLearner, SlotParser};
use crate::text::{
    chars_of, dec, dec_signed, eq_str, eq_vec, parse_i64, parse_i64_vec, push_dec_u64, push_str,
    slice_of, starts_with, starts_with_vec, string_of, strip_suffix, strip_suffix_str,
};

verus! {

/// One savestate slot of a game.
#[derive(Debug, Clone)]
pub struct SaveState {
    pub slot: i64,
    pub label: String,
    pub path: String,
    pub thumbnail: Option<String>,
    pub byte_size: i64,
    pub modified_at: Option<String>,
}

/// The slot a state file's suffix (what follows `<stem>.state`) names:
/// RetroArch's base slot `<stem>.state` is 0, numbered slots follow the
/// digits, the auto-save `<stem>.state.auto` is -1; `None` for anything else.
pub open spec fn slot_from_suffix_spec(suffix: Seq<char>) -> Option<i64> {
    if suffix == Seq::<char>::empty() {
        Some(0i64)
    } else if suffix == ".auto"@ {
        Some(-1i64)
    } else {
        match parse_i64(suffix) {
            Some(n) => if n >= 0 {
                Some(n)
            } else {
                None
            },
            None => None,
        }
    }
}

pub fn slot_from_suffix(suffix: &str) -> (r: Option<i64>)
    ensures
        r == slot_from_suffix_spec(suffix@),
{
    let s = chars_of(suffix);
    if s.len() == 0 {
        proof {
            assert(suffix@ =~= Seq::<char>::empty());
        }
        return Some(0);
    }
    if eq_str(&s, ".auto") {
        return Some(-1);
    }
    match parse_i64_vec(&s) {
        Some(n) => if n >= 0 {
            Some(n)
        } else {
            None
        },
        None => None,
    }
}

/// `Auto-save` for slot -1, else `Slot <n>`.
pub open spec fn slot_label_spec(slot: i64) -> Seq<char> {
    if slot == -1 {
        "Auto-save"@
    } else {
        "Slot "@ + dec_signed(slot as int)
    }
}

/// Human label for a slot index.
pub fn slot_label(slot: i64) -> (r: String)
    ensures
        r@ == slot_label_spec(slot),
{
    if slot == -1 {
        return string_of(&chars_of("Auto-save"));
    }
    let mut out = chars_of("Slot ");
    if slot < 0 {
        out.push('-');
        let m: u64 = ((-(slot + 1)) as u64) + 1;
        push_dec_u64(&mut out, m);
        proof {
            assert(m == -(slot as int));
            assert(out@ =~= "Slot "@ + (seq!['-'] + dec((-(slot as int)) as nat)));
        }
    } else {
        push_dec_u64(&mut out, slot as u64);
    }
    string_of(&out)
}

/// A regular file seen in a savestate directory, with what its metadata
/// showed.
#[derive(Debug, Clone)]
pub struct StateFile {
    pub name: String,
    pub path: String,
    pub byte_size: i64,
    pub modified_at: Option<String>,
}

/// The thumbnail beside a state file: the path of the last `<name>.png` in
/// directory order.
pub open spec fn thumb_for(files: Seq<StateFile>, name: Seq<char>) -> Option<Seq<char>>
    decreases files.len(),
{
    if files.len() == 0 {
        None
    } else if strip_suffix(files.last().name@, ".png"@) == Some(name) {
        Some(files.last().path@)
    } else {
        thumb_for(files.drop_last(), name)
    }
}

/// A savestate, viewed as plain values.
pub struct StateView {
    pub slot: i64,
    pub label: Seq<char>,
    pub path: Seq<char>,
    pub thumbnail: Option<Seq<char>>,
    pub byte_size: i64,
    pub modified_at: Option<Seq<char>>,
}

pub open spec fn state_view(s: SaveState) -> StateView {
    StateView {
        slot: s.slot,
        label: s.label@,
        path: s.path@,
        thumbnail: opt_view(s.thumbnail),
        byte_size: s.byte_size,
        modified_at: opt_view(s.modified_at),
    }
}

pub open spec fn state_views(v: Seq<SaveState>) -> Seq<StateView> {
    v.map_values(|s: SaveState| state_view(s))
}

/// The states among the files of the ROM with stem `stem`, in directory
/// order: a file named `<stem>.state<suffix>` whose suffix names a slot and
/// that is no `.png` thumbnail.
pub open spec fn states_in(files: Seq<StateFile>, all: Seq<StateFile>, stem: Seq<char>) -> Seq<StateView>
    decreases files.len(),
{
    if files.len() == 0 {
        seq![]
    } else {
        let f = files.last();
        let prefix = stem + ".state"@;
        let rest = states_in(files.drop_last(), all, stem);
        if starts_with(f.name@, prefix) && strip_suffix(f.name@, ".png"@) is None {
            match slot_from_suffix_spec(f.name@.skip(prefix.len() as int)) {
                Some(slot) => rest.push(
                    StateView {
                        slot,
                        label: slot_label_spec(slot),
                        path: f.path@,
                        thumbnail: thumb_for(all, f.name@),
                        byte_size: f.byte_size,
                        modified_at: opt_view(f.modified_at),
                    },
                ),
                None => rest,
            }
        } else {
            rest
        }
    }
}

/// How many leading states sort no later than slot `k`.
pub open spec fn leading_slots(s: Seq<StateView>, k: i64) -> nat
    decreases s.len(),
{
    if s.len() > 0 && s[0].slot <= k {
        1 + leading_slots(s.drop_first(), k)
    } else {
        0
    }
}

/// A stable sort by slot (the auto-save, -1, first).
pub open spec fn sort_by_slot(s: Seq<StateView>) -> Seq<StateView>
    decreases s.len(),
{
    if s.len() == 0 {
        seq![]
    } else {
        let t = sort_by_slot(s.drop_last());
        t.insert(leading_slots(t, s.last().slot) as int, s.last())
    }
}

fn thumb_for_exec(files: &Vec<StateFile>, name: &Vec<char>) -> (r: Option<String>)
    ensures
        opt_view(r) == thumb_for(files@, name@),
{
    let mut i = files.len();
    proof {
        assert(files@.take(i as int) =~= files@);
    }
    while i > 0
        invariant
            i <= files.len(),
            thumb_for(files@, name@) == thumb_for(files@.take(i as int), name@),
        decreases i,
    {
        proof {
            assert(files@.take(i as int).drop_last() =~= files@.take(i as int - 1));
            assert(files@.take(i as int).last() == files@[i - 1]);
        }
        match strip_suffix_str(&chars_of(files[i - 1].name.as_str()), ".png") {
            Some(base) => {
                if eq_vec(&base, name) {
                    return Some(string_of(&chars_of(files[i - 1].path.as_str())));
                }
            },
            None => {},
        }
        i -= 1;
    }
    None
}

fn insert_by_slot(out: &mut Vec<SaveState>, s: SaveState)
    ensures
        state_views(final(out)@) == state_views(old(out)@).insert(
            leading_slots(state_views(old(out)@), s.slot) as int,
            state_view(s),
        ),
{
    let ghost o = state_views(out@);
    let mut i: usize = 0;
    proof {
        assert(o.skip(0) =~= o);
    }
    while i < out.len() && out[i].slot <= s.slot
        invariant
            i <= out.len(),
            o == state_views(out@),
            leading_slots(o, s.slot) == i + leading_slots(o.skip(i as int), s.slot),
        decreases out.len() - i,
    {
        proof {
            assert(o.skip(i as int).drop_first() =~= o.skip(i as int + 1));
            assert(o.skip(i as int)[0] == state_view(out@[i as int]));
        }
        i += 1;
    }
    proof {
        if i < out.len() {
            assert(o.skip(i as int)[0] == state_view(out@[i as int]));
        }
    }
    let ghost sv = state_view(s);
    out.insert(i, s);
    proof {
        assert(state_views(out@) =~= o.insert(i as int, sv));
    }
}

/// A ROM's savestates among the regular files of a directory, each paired
/// with its `.png` thumbnail if present, sorted by slot (auto-save first).
pub fn collect_save_states(files: &Vec<StateFile>, stem: &str) -> (r: Vec<SaveState>)
    ensures
        state_views(r@) == sort_by_slot(states_in(files@, files@, stem@)),
{
    let mut prefix = chars_of(stem);
    push_str(&mut prefix, ".state");
    let mut out: Vec<SaveState> = Vec::new();
    let mut i: usize = 0;
    proof {
        assert(files@.take(0) =~= Seq::<StateFile>::empty());
        assert(state_views(out@) =~= Seq::<StateView>::empty());
    }
    while i < files.len()
        invariant
            i <= files.len(),
            prefix@ == stem@ + ".state"@,
            state_views(out@) == sort_by_slot(states_in(files@.take(i as int), files@, stem@)),
        decreases files.len() - i,
    {
        proof {
            assert(files@.take(i as int + 1).drop_last() =~= files@.take(i as int));
            assert(files@.take(i as int + 1).last() == files@[i as int]);
        }
        let f = &files[i];
        let name = chars_of(f.name.as_str());
        if starts_with_vec(&name, &prefix) && strip_suffix_str(&name, ".png").is_none() {
            let suffix = string_of(&slice_of(&name, prefix.len(), name.len()));
            proof {
                assert(suffix@ =~= name@.skip(prefix@.len() as int));
            }
            match slot_from_suffix(suffix.as_str()) {
                Some(slot) => {
                    let st = SaveState {
                        slot,
                        label: slot_label(slot),
                        path: string_of(&chars_of(f.path.as_str())),
                        thumbnail: thumb_for_exec(files, &name),
                        byte_size: f.byte_size,
                        modified_at: match &f.modified_at {
                            Some(m) => Some(string_of(&chars_of(m.as_str()))),
                            None => None,
                        },
                    };
                    let ghost prev = states_in(files@.take(i as int), files@, stem@);
                    proof {
                        assert(states_in(files@.take(i as int + 1), files@, stem@) == prev.push(state_view(st)));
                        assert(prev.push(state_view(st)).drop_last() =~= prev);
                    }
                    insert_by_slot(&mut out, st);
                },
                None => {},
            }
        }
        i += 1;
    }
    proof {
        assert(files@.take(files.len() as int) =~= files@);
    }
    out
}

/// The states an emulator's own filename grammar recognises among the files
/// of its savestate directory, in directory order (no thumbnails).
pub open spec fn slots_in(files: Seq<StateFile>, p: SlotParser, key: Seq<char>) -> Seq<StateView>
    decreases files.len(),
{
    if files.len() == 0 {
        seq![]
    } else {
        let f = files.last();
        let rest = slots_in(files.drop_last(), p, key);
        match classify_slot(p, f.name@, key) {
            Some(slot) => rest.push(
                StateView {
                    slot,
                    label: slot_label_spec(slot),
                    path: f.path@,
                    thumbnail: None,
                    byte_size: f.byte_size,
                    modified_at: opt_view(f.modified_at),
                },
            ),
            None => rest,
        }
    }
}

/// A standalone emulator's savestates among the regular files of its
/// savestate directory, sorted by slot (ties in directory order).
pub fn collect_slots(files: &Vec<StateFile>, parser: SlotParser, key: &str) -> (r: Vec<SaveState>)
    ensures
        state_views(r@) == sort_by_slot(slots_in(files@, parser, key@)),
{
    let mut out: Vec<SaveState> = Vec::new();
    let mut i: usize = 0;
    proof {
        assert(files@.take(0) =~= Seq::<StateFile>::empty());
        assert(state_views(out@) =~= Seq::<StateView>::empty());
    }
    while i < files.len()
        invariant
            i <= files.len(),
            state_views(out@) == sort_by_slot(slots_in(files@.take(i as int), parser, key@)),
        decreases files.len() - i,
    {
        proof {
            assert(files@.take(i as int + 1).drop_last() =~= files@.take(i as int));
            assert(files@.take(i as int + 1).last() == files@[i as int]);
        }
        let f = &files[i];
        match classify_slot_exec(parser, f.name.as_str(), key) {
            Some(slot) => {
                let st = SaveState {
                    slot,
                    label: slot_label(slot),
                    path: string_of(&chars_of(f.path.as_str())),
                    thumbnail: None,
                    byte_size: f.byte_size,
                    modified_at: match &f.modified_at {
                        Some(m) => Some(string_of(&chars_of(m.as_str()))),
                        None => None,
                    },
                };
                let ghost prev = slots_in(files@.take(i as int), parser, key@);
                proof {
                    assert(slots_in(files@.take(i as int + 1), parser, key@) == prev.push(state_view(st)));
                    assert(prev.push(state_view(st)).drop_last() =~= prev);
                }
                insert_by_slot(&mut out, st);
            },
            None => {},
        }
        i += 1;
    }
    proof {
        assert(files@.take(files.len() as int) =~= files@);
    }
    out
}

/// A regular file in a savestate directory with its modification time
/// (nanoseconds since the epoch), when the metadata gave one.
#[derive(Debug, Clone)]
pub struct TimedFile {
    pub name: String,
    pub modified: Option<i128>,
}

/// What a session teaches about an emulator's per-game key: among the files
/// the learner recognises that were modified at or after `since`, the
/// (time, key) of the most recently modified one, the later in directory
/// order on a tie.
pub open spec fn learned_key_spec(files: Seq<TimedFile>, l: KeyLearner, since: i128) -> Option<(i128, Seq<char>)>
    decreases files.len(),
{
    if files.len() == 0 {
        None
    } else {
        let best = learned_key_spec(files.drop_last(), l, since);
        let f = files.last();
        match (learn_key(l, f.name@), f.modified) {
            (Some(k), Some(t)) => if t >= since && (best is None || t >= best.unwrap().0) {
                Some((t, k))
            } else {
                best
            },
            _ => best,
        }
    }
}

/// The key learned from the files an emulator wrote this session (since
/// `since`), if any.
pub fn learn_key_from(files: &Vec<TimedFile>, learner: KeyLearner, since: i128) -> (r: Option<String>)
    ensures
        opt_view(r) == match learned_key_spec(files@, learner, since) {
            Some(b) => Some(b.1),
            None => None,
        },
{
    let mut best: Option<(i128, String)> = None;
    let mut i: usize = 0;
    while i < files.len()
        invariant
            i <= files.len(),
            match best {
                Some(b) => learned_key_spec(files@.take(i as int), learner, since) == Some((b.0, b.1@)),
                None => learned_key_spec(files@.take(i as int), learner, since) is None,
            },
        decreases files.len() - i,
    {
        proof {
            assert(files@.take(i as int + 1).drop_last() =~= files@.take(i as int));
            assert(files@.take(i as int + 1).last() == files@[i as int]);
        }
        let f = &files[i];
        match learn_key_exec(learner, f.name.as_str()) {
            Some(k) => match f.modified {
                Some(t) => {
                    if t >= since {
                        let better = match &best {
                            None => true,
                            Some(b) => t >= b.0,
                        };
                        if better {
                            best = Some((t, k));
                        }
                    }
                },
                None => {},
            },
            None => {},
        }
        i += 1;
    }
    proof {
        assert(files@.take(files.len() as int) =~= files@);
    }
    match best {
        Some(b) => Some(b.1),
        None => None,
    }
}

/// Which on-disk identifier serial-keyed emulators name a platform's
/// savestates by.
#[derive(Debug, Clone, Copy, PartialEq, Eq, Structural)]
pub enum DiscKey {
    /// The disc serial from `SYSTEM.CNF` (PS1/PS2).
    Serial,
    /// The 6-character header game id (GameCube/Wii).
    NintendoId,
    /// None readable.
    NoKey,
}

pub open spec fn disc_key_spec(platform: Seq<char>) -> DiscKey {
    if platform == "ps1"@ || platform == "ps2"@ {
        DiscKey::Serial
    } else if platform == "gamecube"@ || platform == "wii"@ {
        DiscKey::NintendoId
    } else {
        DiscKey::NoKey
    }
}

/// The disc key a platform's savestates are named by.
pub fn disc_key_kind(platform: &str) -> (r: DiscKey)
    ensures
        r == disc_key_spec(platform@),
{
    let p = chars_of(platform);
    if eq_str(&p, "ps1") || eq_str(&p, "ps2") {
        DiscKey::Serial
    } else if eq_str(&p, "gamecube") || eq_str(&p, "wii") {
        DiscKey::NintendoId
    } else {
        DiscKey::NoKey
    }
}

} // verus!
