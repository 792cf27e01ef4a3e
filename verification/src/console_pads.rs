//! Per-console controller layouts, the target side of input setup. There is
//! no universal gamepad: an NES pad has two buttons, an N64 pad an analog stick
//! plus four C-buttons and a Z trigger, a DualShock two sticks and four
//! shoulder buttons. The setup maps a physical pad onto these per-system
//! targets; each entry's `id` is the key used in a profile's bindings, and
//! directional groups are flattened to one entry per direction (a d-pad is
//! four `Dpad` entries, a stick four `Stick` entries).
use vstd::prelude::*;
use crate::text::{chars_of, eq_vec};

verus! {

/// The capture/encode shape of a console input.
#[derive(Debug, Clone, Copy, PartialEq, Eq, Structural)]
pub enum InputKind {
    Button,
    Dpad,
    Stick,
    Trigger,
}

/// One discrete, capturable input on a console's controller.
#[derive(Debug, Clone, Copy)]
pub struct ConsoleInput {
    /// Canonical token; the key in a profile's bindings.
    pub id: &'static str,
    /// Human label for the capture UI.
    pub label: &'static str,
    pub kind: InputKind,
}

/// The full input set of one console's controller.
#[derive(Debug, Clone)]
pub struct ConsolePad {
    /// Platform id, matching the platform catalogue.
    pub system: &'static str,
    pub inputs: Vec<ConsoleInput>,
}

pub open spec fn input_view(i: ConsoleInput) -> (Seq<char>, Seq<char>, InputKind) {
    (i.id@, i.label@, i.kind)
}

pub open spec fn input_views(s: Seq<ConsoleInput>) -> Seq<(Seq<char>, Seq<char>, InputKind)> {
    s.map_values(|i: ConsoleInput| input_view(i))
}

pub open spec fn pad_view(p: ConsolePad) -> (Seq<char>, Seq<(Seq<char>, Seq<char>, InputKind)>) {
    (p.system@, input_views(p.inputs@))
}

pub open spec fn pad_views(s: Seq<ConsolePad>) -> Seq<(Seq<char>, Seq<(Seq<char>, Seq<char>, InputKind)>)> {
    s.map_values(|p: ConsolePad| pad_view(p))
}

pub fn btn(id: &'static str, label: &'static str) -> (i: ConsoleInput)
    ensures
        i.id == id,
        i.label == label,
        i.kind == InputKind::Button,
{
    ConsoleInput { id, label, kind: InputKind::Button }
}

pub fn trig(id: &'static str, label: &'static str) -> (i: ConsoleInput)
    ensures
        i.id == id,
        i.label == label,
        i.kind == InputKind::Trigger,
{
    ConsoleInput { id, label, kind: InputKind::Trigger }
}

fn input(id: &'static str, label: &'static str, kind: InputKind) -> (i: ConsoleInput)
    ensures
        i.id == id,
        i.label == label,
        i.kind == kind,
{
    ConsoleInput { id, label, kind }
}

pub open spec fn nes_inputs_spec() -> Seq<(Seq<char>, Seq<char>, InputKind)> {
    seq![("dpad_up"@, "D-Pad ▲"@, InputKind::Dpad), ("dpad_down"@, "D-Pad ▼"@, InputKind::Dpad), ("dpad_left"@, "D-Pad ◀"@, InputKind::Dpad), ("dpad_right"@, "D-Pad ▶"@, InputKind::Dpad), ("a"@, "A"@, InputKind::Button), ("b"@, "B"@, InputKind::Button), ("start"@, "Start"@, InputKind::Button), ("select"@, "Select"@, InputKind::Button)]
}

fn nes_inputs() -> (r: Vec<ConsoleInput>)
    ensures
        input_views(r@) == nes_inputs_spec(),
{
    let r = vec![input("dpad_up", "D-Pad ▲", InputKind::Dpad), input("dpad_down", "D-Pad ▼", InputKind::Dpad), input("dpad_left", "D-Pad ◀", InputKind::Dpad), input("dpad_right", "D-Pad ▶", InputKind::Dpad), btn("a", "A"), btn("b", "B"), btn("start", "Start"), btn("select", "Select")];
    proof {
        assert(input_views(r@) =~= nes_inputs_spec());
    }
    r
}

pub open spec fn gb_inputs_spec() -> Seq<(Seq<char>, Seq<char>, InputKind)> {
    seq![("dpad_up"@, "D-Pad ▲"@, InputKind::Dpad), ("dpad_down"@, "D-Pad ▼"@, InputKind::Dpad), ("dpad_left"@, "D-Pad ◀"@, InputKind::Dpad), ("dpad_right"@, "D-Pad ▶"@, InputKind::Dpad), ("b"@, "B"@, InputKind::Button), ("a"@, "A"@, InputKind::Button), ("start"@, "Start"@, InputKind::Button), ("select"@, "Select"@, InputKind::Button)]
}

fn gb_inputs() -> (r: Vec<ConsoleInput>)
    ensures
        input_views(r@) == gb_inputs_spec(),
{
    let r = vec![input("dpad_up", "D-Pad ▲", InputKind::Dpad), input("dpad_down", "D-Pad ▼", InputKind::Dpad), input("dpad_left", "D-Pad ◀", InputKind::Dpad), input("dpad_right", "D-Pad ▶", InputKind::Dpad), btn("b", "B"), btn("a", "A"), btn("start", "Start"), btn("select", "Select")];
    proof {
        assert(input_views(r@) =~= gb_inputs_spec());
    }
    r
}

pub open spec fn gba_inputs_spec() -> Seq<(Seq<char>, Seq<char>, InputKind)> {
    seq![("dpad_up"@, "D-Pad ▲"@, InputKind::Dpad), ("dpad_down"@, "D-Pad ▼"@, InputKind::Dpad), ("dpad_left"@, "D-Pad ◀"@, InputKind::Dpad), ("dpad_right"@, "D-Pad ▶"@, InputKind::Dpad), ("b"@, "B"@, InputKind::Button), ("a"@, "A"@, InputKind::Button), ("l"@, "L"@, InputKind::Button), ("r"@, "R"@, InputKind::Button), ("start"@, "Start"@, InputKind::Button), ("select"@, "Select"@, InputKind::Button)]
}

fn gba_inputs() -> (r: Vec<ConsoleInput>)
    ensures
        input_views(r@) == gba_inputs_spec(),
{
    let r = vec![input("dpad_up", "D-Pad ▲", InputKind::Dpad), input("dpad_down", "D-Pad ▼", InputKind::Dpad), input("dpad_left", "D-Pad ◀", InputKind::Dpad), input("dpad_right", "D-Pad ▶", InputKind::Dpad), btn("b", "B"), btn("a", "A"), btn("l", "L"), btn("r", "R"), btn("start", "Start"), btn("select", "Select")];
    proof {
        assert(input_views(r@) =~= gba_inputs_spec());
    }
    r
}

pub open spec fn snes_inputs_spec() -> Seq<(Seq<char>, Seq<char>, InputKind)> {
    seq![("dpad_up"@, "D-Pad ▲"@, InputKind::Dpad), ("dpad_down"@, "D-Pad ▼"@, InputKind::Dpad), ("dpad_left"@, "D-Pad ◀"@, InputKind::Dpad), ("dpad_right"@, "D-Pad ▶"@, InputKind::Dpad), ("b"@, "B"@, InputKind::Button), ("a"@, "A"@, InputKind::Button), ("y"@, "Y"@, InputKind::Button), ("x"@, "X"@, InputKind::Button), ("l"@, "L"@, InputKind::Button), ("r"@, "R"@, InputKind::Button), ("start"@, "Start"@, InputKind::Button), ("select"@, "Select"@, InputKind::Button)]
}

fn snes_inputs() -> (r: Vec<ConsoleInput>)
    ensures
        input_views(r@) == snes_inputs_spec(),
{
    let r = vec![input("dpad_up", "D-Pad ▲", InputKind::Dpad), input("dpad_down", "D-Pad ▼", InputKind::Dpad), input("dpad_left", "D-Pad ◀", InputKind::Dpad), input("dpad_right", "D-Pad ▶", InputKind::Dpad), btn("b", "B"), btn("a", "A"), btn("y", "Y"), btn("x", "X"), btn("l", "L"), btn("r", "R"), btn("start", "Start"), btn("select", "Select")];
    proof {
        assert(input_views(r@) =~= snes_inputs_spec());
    }
    r
}

pub open spec fn n64_inputs_spec() -> Seq<(Seq<char>, Seq<char>, InputKind)> {
    seq![("dpad_up"@, "D-Pad ▲"@, InputKind::Dpad), ("dpad_down"@, "D-Pad ▼"@, InputKind::Dpad), ("dpad_left"@, "D-Pad ◀"@, InputKind::Dpad), ("dpad_right"@, "D-Pad ▶"@, InputKind::Dpad), ("stick_up"@, "Analog ▲"@, InputKind::Stick), ("stick_down"@, "Analog ▼"@, InputKind::Stick), ("stick_left"@, "Analog ◀"@, InputKind::Stick), ("stick_right"@, "Analog ▶"@, InputKind::Stick), ("a"@, "A"@, InputKind::Button), ("b"@, "B"@, InputKind::Button), ("c_up"@, "C ▲"@, InputKind::Button), ("c_down"@, "C ▼"@, InputKind::Button), ("c_left"@, "C ◀"@, InputKind::Button), ("c_right"@, "C ▶"@, InputKind::Button), ("l"@, "L"@, InputKind::Button), ("r"@, "R"@, InputKind::Button), ("z"@, "Z"@, InputKind::Button), ("start"@, "Start"@, InputKind::Button)]
}

fn n64_inputs() -> (r: Vec<ConsoleInput>)
    ensures
        input_views(r@) == n64_inputs_spec(),
{
    let r = vec![input("dpad_up", "D-Pad ▲", InputKind::Dpad), input("dpad_down", "D-Pad ▼", InputKind::Dpad), input("dpad_left", "D-Pad ◀", InputKind::Dpad), input("dpad_right", "D-Pad ▶", InputKind::Dpad), input("stick_up", "Analog ▲", InputKind::Stick), input("stick_down", "Analog ▼", InputKind::Stick), input("stick_left", "Analog ◀", InputKind::Stick), input("stick_right", "Analog ▶", InputKind::Stick), btn("a", "A"), btn("b", "B"), btn("c_up", "C ▲"), btn("c_down", "C ▼"), btn("c_left", "C ◀"), btn("c_right", "C ▶"), btn("l", "L"), btn("r", "R"), btn("z", "Z"), btn("start", "Start")];
    proof {
        assert(input_views(r@) =~= n64_inputs_spec());
    }
    r
}

pub open spec fn ps1_inputs_spec() -> Seq<(Seq<char>, Seq<char>, InputKind)> {
    seq![("dpad_up"@, "D-Pad ▲"@, InputKind::Dpad), ("dpad_down"@, "D-Pad ▼"@, InputKind::Dpad), ("dpad_left"@, "D-Pad ◀"@, InputKind::Dpad), ("dpad_right"@, "D-Pad ▶"@, InputKind::Dpad), ("l_stick_up"@, "Left Stick ▲"@, InputKind::Stick), ("l_stick_down"@, "Left Stick ▼"@, InputKind::Stick), ("l_stick_left"@, "Left Stick ◀"@, InputKind::Stick), ("l_stick_right"@, "Left Stick ▶"@, InputKind::Stick), ("r_stick_up"@, "Right Stick ▲"@, InputKind::Stick), ("r_stick_down"@, "Right Stick ▼"@, InputKind::Stick), ("r_stick_left"@, "Right Stick ◀"@, InputKind::Stick), ("r_stick_right"@, "Right Stick ▶"@, InputKind::Stick), ("cross"@, "✕"@, InputKind::Button), ("circle"@, "○"@, InputKind::Button), ("square"@, "□"@, InputKind::Button), ("triangle"@, "△"@, InputKind::Button), ("l1"@, "L1"@, InputKind::Button), ("l2"@, "L2"@, InputKind::Trigger), ("r1"@, "R1"@, InputKind::Button), ("r2"@, "R2"@, InputKind::Trigger), ("l3"@, "L3"@, InputKind::Button), ("r3"@, "R3"@, InputKind::Button), ("start"@, "Start"@, InputKind::Button), ("select"@, "Select"@, InputKind::Button)]
}

fn ps1_inputs() -> (r: Vec<ConsoleInput>)
    ensures
        input_views(r@) == ps1_inputs_spec(),
{
    let r = vec![input("dpad_up", "D-Pad ▲", InputKind::Dpad), input("dpad_down", "D-Pad ▼", InputKind::Dpad), input("dpad_left", "D-Pad ◀", InputKind::Dpad), input("dpad_right", "D-Pad ▶", InputKind::Dpad), input("l_stick_up", "Left Stick ▲", InputKind::Stick), input("l_stick_down", "Left Stick ▼", InputKind::Stick), input("l_stick_left", "Left Stick ◀", InputKind::Stick), input("l_stick_right", "Left Stick ▶", InputKind::Stick), input("r_stick_up", "Right Stick ▲", InputKind::Stick), input("r_stick_down", "Right Stick ▼", InputKind::Stick), input("r_stick_left", "Right Stick ◀", InputKind::Stick), input("r_stick_right", "Right Stick ▶", InputKind::Stick), btn("cross", "✕"), btn("circle", "○"), btn("square", "□"), btn("triangle", "△"), btn("l1", "L1"), trig("l2", "L2"), btn("r1", "R1"), trig("r2", "R2"), btn("l3", "L3"), btn("r3", "R3"), btn("start", "Start"), btn("select", "Select")];
    proof {
        assert(input_views(r@) =~= ps1_inputs_spec());
    }
    r
}

pub open spec fn vb_inputs_spec() -> Seq<(Seq<char>, Seq<char>, InputKind)> {
    seq![("dpad_up"@, "D-Pad ▲"@, InputKind::Dpad), ("dpad_down"@, "D-Pad ▼"@, InputKind::Dpad), ("dpad_left"@, "D-Pad ◀"@, InputKind::Dpad), ("dpad_right"@, "D-Pad ▶"@, InputKind::Dpad), ("r_dpad_up"@, "Right ▲"@, InputKind::Stick), ("r_dpad_down"@, "Right ▼"@, InputKind::Stick), ("r_dpad_left"@, "Right ◀"@, InputKind::Stick), ("r_dpad_right"@, "Right ▶"@, InputKind::Stick), ("a"@, "A"@, InputKind::Button), ("b"@, "B"@, InputKind::Button), ("l"@, "L"@, InputKind::Button), ("r"@, "R"@, InputKind::Button), ("start"@, "Start"@, InputKind::Button), ("select"@, "Select"@, InputKind::Button), ("rapid_a"@, "Rapid A"@, InputKind::Button), ("rapid_b"@, "Rapid B"@, InputKind::Button)]
}

fn vb_inputs() -> (r: Vec<ConsoleInput>)
    ensures
        input_views(r@) == vb_inputs_spec(),
{
    let r = vec![input("dpad_up", "D-Pad ▲", InputKind::Dpad), input("dpad_down", "D-Pad ▼", InputKind::Dpad), input("dpad_left", "D-Pad ◀", InputKind::Dpad), input("dpad_right", "D-Pad ▶", InputKind::Dpad), input("r_dpad_up", "Right ▲", InputKind::Stick), input("r_dpad_down", "Right ▼", InputKind::Stick), input("r_dpad_left", "Right ◀", InputKind::Stick), input("r_dpad_right", "Right ▶", InputKind::Stick), btn("a", "A"), btn("b", "B"), btn("l", "L"), btn("r", "R"), btn("start", "Start"), btn("select", "Select"), btn("rapid_a", "Rapid A"), btn("rapid_b", "Rapid B")];
    proof {
        assert(input_views(r@) =~= vb_inputs_spec());
    }
    r
}

/// The catalogue: headline systems first, spanning 2-button pads, shoulder
/// buttons, analog plus C-buttons, dual sticks with analog triggers and the
/// Virtual Boy's dual d-pad. PS2's DualShock2 shares PS1's layout, Game Boy
/// Color shares Game Boy's.
pub open spec fn pad_table() -> Seq<(Seq<char>, Seq<(Seq<char>, Seq<char>, InputKind)>)> {
    seq![("nes"@, nes_inputs_spec()), ("snes"@, snes_inputs_spec()), ("gb"@, gb_inputs_spec()), ("gbc"@, gb_inputs_spec()), ("gba"@, gba_inputs_spec()), ("n64"@, n64_inputs_spec()), ("ps1"@, ps1_inputs_spec()), ("ps2"@, ps1_inputs_spec()), ("virtualboy"@, vb_inputs_spec())]
}

/// The console pad catalogue, in its fixed order.
pub fn console_pads() -> (t: Vec<ConsolePad>)
    ensures
        pad_views(t@) == pad_table(),
{
    let mut t: Vec<ConsolePad> = Vec::new();
    t.push(ConsolePad { system: "nes", inputs: nes_inputs() });
    t.push(ConsolePad { system: "snes", inputs: snes_inputs() });
    t.push(ConsolePad { system: "gb", inputs: gb_inputs() });
    t.push(ConsolePad { system: "gbc", inputs: gb_inputs() });
    t.push(ConsolePad { system: "gba", inputs: gba_inputs() });
    t.push(ConsolePad { system: "n64", inputs: n64_inputs() });
    t.push(ConsolePad { system: "ps1", inputs: ps1_inputs() });
    t.push(ConsolePad { system: "ps2", inputs: ps1_inputs() });
    t.push(ConsolePad { system: "virtualboy", inputs: vb_inputs() });
    proof {
        assert(pad_views(t@) =~~= pad_table());
    }
    t
}

/// The first catalogued pad for a system.
pub open spec fn find_pad(t: Seq<(Seq<char>, Seq<(Seq<char>, Seq<char>, InputKind)>)>, system: Seq<char>) -> Option<
    (Seq<char>, Seq<(Seq<char>, Seq<char>, InputKind)>),
>
    decreases t.len(),
{
    if t.len() == 0 {
        None
    } else if t[0].0 == system {
        Some(t[0])
    } else {
        find_pad(t.drop_first(), system)
    }
}

/// The target layout for a system, or `None` if not yet catalogued (the
/// setup then offers nothing to map and the writers report it unsupported).
pub fn pad_for(system: &str) -> (r: Option<ConsolePad>)
    ensures
        match r {
            Some(p) => find_pad(pad_table(), system@) == Some(pad_view(p)),
            None => find_pad(pad_table(), system@) is None,
        },
{
    let mut t = console_pads();
    let ghost cat = pad_table();
    let sc = chars_of(system);
    let mut i: usize = 0;
    proof {
        assert(cat.skip(0) =~= cat);
    }
    while i < t.len()
        invariant
            i <= t.len(),
            pad_views(t@) == cat,
            cat == pad_table(),
            sc@ == system@,
            find_pad(cat, system@) == find_pad(cat.skip(i as int), system@),
        decreases t.len() - i,
    {
        proof {
            assert(cat.skip(i as int).drop_first() =~= cat.skip(i as int + 1));
            assert(cat.skip(i as int)[0] == cat[i as int]);
            assert(pad_view(t@[i as int]) == cat[i as int]);
        }
        if eq_vec(&chars_of(t[i].system), &sc) {
            let p = t.remove(i);
            return Some(p);
        }
        i += 1;
    }
    None
}

/// Some input of the layout has id `id`.
pub open spec fn has_input_spec(inputs: Seq<(Seq<char>, Seq<char>, InputKind)>, id: Seq<char>) -> bool {
    exists|k: int| 0 <= k < inputs.len() && (#[trigger] inputs[k]).0 == id
}

impl ConsolePad {
    /// Whether `input_id` is a real input on this console, used to validate a
    /// profile's keys before materialising it to emulator config.
    pub fn has_input(&self, input_id: &str) -> (b: bool)
        ensures
            b == has_input_spec(input_views(self.inputs@), input_id@),
    {
        let ghost v = input_views(self.inputs@);
        let ic = chars_of(input_id);
        let mut i: usize = 0;
        while i < self.inputs.len()
            invariant
                i <= self.inputs.len(),
                v == input_views(self.inputs@),
                ic@ == input_id@,
                forall|k: int| 0 <= k < i ==> (#[trigger] v[k]).0 != input_id@,
            decreases self.inputs.len() - i,
        {
            proof {
                assert(v[i as int] == input_view(self.inputs@[i as int]));
            }
            if eq_vec(&chars_of(self.inputs[i].id), &ic) {
                return true;
            }
            i += 1;
        }
        false
    }
}

// ── laws ───────────────────────────────────────────────────────────────────

/// No two inputs of a layout share an id.
pub open spec fn ids_unique(inputs: Seq<(Seq<char>, Seq<char>, InputKind)>) -> bool {
    forall|a: int, b: int| 0 <= a < b < inputs.len() ==> (#[trigger] inputs[a]).0 != (
    #[trigger] inputs[b]).0
}

proof fn lemma_nes_ids_unique()
    ensures
        ids_unique(nes_inputs_spec()),
{
    reveal_strlit("dpad_up");
    reveal_strlit("dpad_down");
    reveal_strlit("dpad_left");
    reveal_strlit("dpad_right");
    reveal_strlit("a");
    reveal_strlit("b");
    reveal_strlit("start");
    reveal_strlit("select");
    let ins = nes_inputs_spec();
    assert(ins[0].0.len() != ins[1].0.len());
    assert(ins[0].0.len() != ins[2].0.len());
    assert(ins[0].0.len() != ins[3].0.len());
    assert(ins[0].0.len() != ins[4].0.len());
    assert(ins[0].0.len() != ins[5].0.len());
    assert(ins[0].0.len() != ins[6].0.len());
    assert(ins[0].0.len() != ins[7].0.len());
    assert(ins[1].0[5] != ins[2].0[5]);
    assert(ins[1].0.len() != ins[3].0.len());
    assert(ins[1].0.len() != ins[4].0.len());
    assert(ins[1].0.len() != ins[5].0.len());
    assert(ins[1].0.len() != ins[6].0.len());
    assert(ins[1].0.len() != ins[7].0.len());
    assert(ins[2].0.len() != ins[3].0.len());
    assert(ins[2].0.len() != ins[4].0.len());
    assert(ins[2].0.len() != ins[5].0.len());
    assert(ins[2].0.len() != ins[6].0.len());
    assert(ins[2].0.len() != ins[7].0.len());
    assert(ins[3].0.len() != ins[4].0.len());
    assert(ins[3].0.len() != ins[5].0.len());
    assert(ins[3].0.len() != ins[6].0.len());
    assert(ins[3].0.len() != ins[7].0.len());
    assert(ins[4].0[0] != ins[5].0[0]);
    assert(ins[4].0.len() != ins[6].0.len());
    assert(ins[4].0.len() != ins[7].0.len());
    assert(ins[5].0.len() != ins[6].0.len());
    assert(ins[5].0.len() != ins[7].0.len());
    assert(ins[6].0.len() != ins[7].0.len());
}

proof fn lemma_gb_ids_unique()
    ensures
        ids_unique(gb_inputs_spec()),
{
    reveal_strlit("dpad_up");
    reveal_strlit("dpad_down");
    reveal_strlit("dpad_left");
    reveal_strlit("dpad_right");
    reveal_strlit("b");
    reveal_strlit("a");
    reveal_strlit("start");
    reveal_strlit("select");
    let ins = gb_inputs_spec();
    assert(ins[0].0.len() != ins[1].0.len());
    assert(ins[0].0.len() != ins[2].0.len());
    assert(ins[0].0.len() != ins[3].0.len());
    assert(ins[0].0.len() != ins[4].0.len());
    assert(ins[0].0.len() != ins[5].0.len());
    assert(ins[0].0.len() != ins[6].0.len());
    assert(ins[0].0.len() != ins[7].0.len());
    assert(ins[1].0[5] != ins[2].0[5]);
    assert(ins[1].0.len() != ins[3].0.len());
    assert(ins[1].0.len() != ins[4].0.len());
    assert(ins[1].0.len() != ins[5].0.len());
    assert(ins[1].0.len() != ins[6].0.len());
    assert(ins[1].0.len() != ins[7].0.len());
    assert(ins[2].0.len() != ins[3].0.len());
    assert(ins[2].0.len() != ins[4].0.len());
    assert(ins[2].0.len() != ins[5].0.len());
    assert(ins[2].0.len() != ins[6].0.len());
    assert(ins[2].0.len() != ins[7].0.len());
    assert(ins[3].0.len() != ins[4].0.len());
    assert(ins[3].0.len() != ins[5].0.len());
    assert(ins[3].0.len() != ins[6].0.len());
    assert(ins[3].0.len() != ins[7].0.len());
    assert(ins[4].0[0] != ins[5].0[0]);
    assert(ins[4].0.len() != ins[6].0.len());
    assert(ins[4].0.len() != ins[7].0.len());
    assert(ins[5].0.len() != ins[6].0.len());
    assert(ins[5].0.len() != ins[7].0.len());
    assert(ins[6].0.len() != ins[7].0.len());
}

proof fn lemma_gba_ids_unique()
    ensures
        ids_unique(gba_inputs_spec()),
{
    reveal_strlit("dpad_up");
    reveal_strlit("dpad_down");
    reveal_strlit("dpad_left");
    reveal_strlit("dpad_right");
    reveal_strlit("b");
    reveal_strlit("a");
    reveal_strlit("l");
    reveal_strlit("r");
    reveal_strlit("start");
    reveal_strlit("select");
    let ins = gba_inputs_spec();
    assert(ins[0].0.len() != ins[1].0.len());
    assert(ins[0].0.len() != ins[2].0.len());
    assert(ins[0].0.len() != ins[3].0.len());
    assert(ins[0].0.len() != ins[4].0.len());
    assert(ins[0].0.len() != ins[5].0.len());
    assert(ins[0].0.len() != ins[6].0.len());
    assert(ins[0].0.len() != ins[7].0.len());
    assert(ins[0].0.len() != ins[8].0.len());
    assert(ins[0].0.len() != ins[9].0.len());
    assert(ins[1].0[5] != ins[2].0[5]);
    assert(ins[1].0.len() != ins[3].0.len());
    assert(ins[1].0.len() != ins[4].0.len());
    assert(ins[1].0.len() != ins[5].0.len());
    assert(ins[1].0.len() != ins[6].0.len());
    assert(ins[1].0.len() != ins[7].0.len());
    assert(ins[1].0.len() != ins[8].0.len());
    assert(ins[1].0.len() != ins[9].0.len());
    assert(ins[2].0.len() != ins[3].0.len());
    assert(ins[2].0.len() != ins[4].0.len());
    assert(ins[2].0.len() != ins[5].0.len());
    assert(ins[2].0.len() != ins[6].0.len());
    assert(ins[2].0.len() != ins[7].0.len());
    assert(ins[2].0.len() != ins[8].0.len());
    assert(ins[2].0.len() != ins[9].0.len());
    assert(ins[3].0.len() != ins[4].0.len());
    assert(ins[3].0.len() != ins[5].0.len());
    assert(ins[3].0.len() != ins[6].0.len());
    assert(ins[3].0.len() != ins[7].0.len());
    assert(ins[3].0.len() != ins[8].0.len());
    assert(ins[3].0.len() != ins[9].0.len());
    assert(ins[4].0[0] != ins[5].0[0]);
    assert(ins[4].0[0] != ins[6].0[0]);
    assert(ins[4].0[0] != ins[7].0[0]);
    assert(ins[4].0.len() != ins[8].0.len());
    assert(ins[4].0.len() != ins[9].0.len());
    assert(ins[5].0[0] != ins[6].0[0]);
    assert(ins[5].0[0] != ins[7].0[0]);
    assert(ins[5].0.len() != ins[8].0.len());
    assert(ins[5].0.len() != ins[9].0.len());
    assert(ins[6].0[0] != ins[7].0[0]);
    assert(ins[6].0.len() != ins[8].0.len());
    assert(ins[6].0.len() != ins[9].0.len());
    assert(ins[7].0.len() != ins[8].0.len());
    assert(ins[7].0.len() != ins[9].0.len());
    assert(ins[8].0.len() != ins[9].0.len());
}

proof fn lemma_snes_ids_unique()
    ensures
        ids_unique(snes_inputs_spec()),
{
    reveal_strlit("dpad_up");
    reveal_strlit("dpad_down");
    reveal_strlit("dpad_left");
    reveal_strlit("dpad_right");
    reveal_strlit("b");
    reveal_strlit("a");
    reveal_strlit("y");
    reveal_strlit("x");
    reveal_strlit("l");
    reveal_strlit("r");
    reveal_strlit("start");
    reveal_strlit("select");
    let ins = snes_inputs_spec();
    assert(ins[0].0.len() != ins[1].0.len());
    assert(ins[0].0.len() != ins[2].0.len());
    assert(ins[0].0.len() != ins[3].0.len());
    assert(ins[0].0.len() != ins[4].0.len());
    assert(ins[0].0.len() != ins[5].0.len());
    assert(ins[0].0.len() != ins[6].0.len());
    assert(ins[0].0.len() != ins[7].0.len());
    assert(ins[0].0.len() != ins[8].0.len());
    assert(ins[0].0.len() != ins[9].0.len());
    assert(ins[0].0.len() != ins[10].0.len());
    assert(ins[0].0.len() != ins[11].0.len());
    assert(ins[1].0[5] != ins[2].0[5]);
    assert(ins[1].0.len() != ins[3].0.len());
    assert(ins[1].0.len() != ins[4].0.len());
    assert(ins[1].0.len() != ins[5].0.len());
    assert(ins[1].0.len() != ins[6].0.len());
    assert(ins[1].0.len() != ins[7].0.len());
    assert(ins[1].0.len() != ins[8].0.len());
    assert(ins[1].0.len() != ins[9].0.len());
    assert(ins[1].0.len() != ins[10].0.len());
    assert(ins[1].0.len() != ins[11].0.len());
    assert(ins[2].0.len() != ins[3].0.len());
    assert(ins[2].0.len() != ins[4].0.len());
    assert(ins[2].0.len() != ins[5].0.len());
    assert(ins[2].0.len() != ins[6].0.len());
    assert(ins[2].0.len() != ins[7].0.len());
    assert(ins[2].0.len() != ins[8].0.len());
    assert(ins[2].0.len() != ins[9].0.len());
    assert(ins[2].0.len() != ins[10].0.len());
    assert(ins[2].0.len() != ins[11].0.len());
    assert(ins[3].0.len() != ins[4].0.len());
    assert(ins[3].0.len() != ins[5].0.len());
    assert(ins[3].0.len() != ins[6].0.len());
    assert(ins[3].0.len() != ins[7].0.len());
    assert(ins[3].0.len() != ins[8].0.len());
    assert(ins[3].0.len() != ins[9].0.len());
    assert(ins[3].0.len() != ins[10].0.len());
    assert(ins[3].0.len() != ins[11].0.len());
    assert(ins[4].0[0] != ins[5].0[0]);
    assert(ins[4].0[0] != ins[6].0[0]);
    assert(ins[4].0[0] != ins[7].0[0]);
    assert(ins[4].0[0] != ins[8].0[0]);
    assert(ins[4].0[0] != ins[9].0[0]);
    assert(ins[4].0.len() != ins[10].0.len());
    assert(ins[4].0.len() != ins[11].0.len());
    assert(ins[5].0[0] != ins[6].0[0]);
    assert(ins[5].0[0] != ins[7].0[0]);
    assert(ins[5].0[0] != ins[8].0[0]);
    assert(ins[5].0[0] != ins[9].0[0]);
    assert(ins[5].0.len() != ins[10].0.len());
    assert(ins[5].0.len() != ins[11].0.len());
    assert(ins[6].0[0] != ins[7].0[0]);
    assert(ins[6].0[0] != ins[8].0[0]);
    assert(ins[6].0[0] != ins[9].0[0]);
    assert(ins[6].0.len() != ins[10].0.len());
    assert(ins[6].0.len() != ins[11].0.len());
    assert(ins[7].0[0] != ins[8].0[0]);
    assert(ins[7].0[0] != ins[9].0[0]);
    assert(ins[7].0.len() != ins[10].0.len());
    assert(ins[7].0.len() != ins[11].0.len());
    assert(ins[8].0[0] != ins[9].0[0]);
    assert(ins[8].0.len() != ins[10].0.len());
    assert(ins[8].0.len() != ins[11].0.len());
    assert(ins[9].0.len() != ins[10].0.len());
    assert(ins[9].0.len() != ins[11].0.len());
    assert(ins[10].0.len() != ins[11].0.len());
}

proof fn lemma_n64_ids_unique()
    ensures
        ids_unique(n64_inputs_spec()),
{
    reveal_strlit("dpad_up");
    reveal_strlit("dpad_down");
    reveal_strlit("dpad_left");
    reveal_strlit("dpad_right");
    reveal_strlit("stick_up");
    reveal_strlit("stick_down");
    reveal_strlit("stick_left");
    reveal_strlit("stick_right");
    reveal_strlit("a");
    reveal_strlit("b");
    reveal_strlit("c_up");
    reveal_strlit("c_down");
    reveal_strlit("c_left");
    reveal_strlit("c_right");
    reveal_strlit("l");
    reveal_strlit("r");
    reveal_strlit("z");
    reveal_strlit("start");
    let ins = n64_inputs_spec();
    assert(ins[0].0.len() != ins[1].0.len());
    assert(ins[0].0.len() != ins[2].0.len());
    assert(ins[0].0.len() != ins[3].0.len());
    assert(ins[0].0.len() != ins[4].0.len());
    assert(ins[0].0.len() != ins[5].0.len());
    assert(ins[0].0.len() != ins[6].0.len());
    assert(ins[0].0.len() != ins[7].0.len());
    assert(ins[0].0.len() != ins[8].0.len());
    assert(ins[0].0.len() != ins[9].0.len());
    assert(ins[0].0.len() != ins[10].0.len());
    assert(ins[0].0.len() != ins[11].0.len());
    assert(ins[0].0.len() != ins[12].0.len());
    assert(ins[0].0[0] != ins[13].0[0]);
    assert(ins[0].0.len() != ins[14].0.len());
    assert(ins[0].0.len() != ins[15].0.len());
    assert(ins[0].0.len() != ins[16].0.len());
    assert(ins[0].0.len() != ins[17].0.len());
    assert(ins[1].0[5] != ins[2].0[5]);
    assert(ins[1].0.len() != ins[3].0.len());
    assert(ins[1].0.len() != ins[4].0.len());
    assert(ins[1].0.len() != ins[5].0.len());
    assert(ins[1].0.len() != ins[6].0.len());
    assert(ins[1].0.len() != ins[7].0.len());
    assert(ins[1].0.len() != ins[8].0.len());
    assert(ins[1].0.len() != ins[9].0.len());
    assert(ins[1].0.len() != ins[10].0.len());
    assert(ins[1].0.len() != ins[11].0.len());
    assert(ins[1].0.len() != ins[12].0.len());
    assert(ins[1].0.len() != ins[13].0.len());
    assert(ins[1].0.len() != ins[14].0.len());
    assert(ins[1].0.len() != ins[15].0.len());
    assert(ins[1].0.len() != ins[16].0.len());
    assert(ins[1].0.len() != ins[17].0.len());
    assert(ins[2].0.len() != ins[3].0.len());
    assert(ins[2].0.len() != ins[4].0.len());
    assert(ins[2].0.len() != ins[5].0.len());
    assert(ins[2].0.len() != ins[6].0.len());
    assert(ins[2].0.len() != ins[7].0.len());
    assert(ins[2].0.len() != ins[8].0.len());
    assert(ins[2].0.len() != ins[9].0.len());
    assert(ins[2].0.len() != ins[10].0.len());
    assert(ins[2].0.len() != ins[11].0.len());
    assert(ins[2].0.len() != ins[12].0.len());
    assert(ins[2].0.len() != ins[13].0.len());
    assert(ins[2].0.len() != ins[14].0.len());
    assert(ins[2].0.len() != ins[15].0.len());
    assert(ins[2].0.len() != ins[16].0.len());
    assert(ins[2].0.len() != ins[17].0.len());
    assert(ins[3].0.len() != ins[4].0.len());
    assert(ins[3].0[0] != ins[5].0[0]);
    assert(ins[3].0[0] != ins[6].0[0]);
    assert(ins[3].0.len() != ins[7].0.len());
    assert(ins[3].0.len() != ins[8].0.len());
    assert(ins[3].0.len() != ins[9].0.len());
    assert(ins[3].0.len() != ins[10].0.len());
    assert(ins[3].0.len() != ins[11].0.len());
    assert(ins[3].0.len() != ins[12].0.len());
    assert(ins[3].0.len() != ins[13].0.len());
    assert(ins[3].0.len() != ins[14].0.len());
    assert(ins[3].0.len() != ins[15].0.len());
    assert(ins[3].0.len() != ins[16].0.len());
    assert(ins[3].0.len() != ins[17].0.len());
    assert(ins[4].0.len() != ins[5].0.len());
    assert(ins[4].0.len() != ins[6].0.len());
    assert(ins[4].0.len() != ins[7].0.len());
    assert(ins[4].0.len() != ins[8].0.len());
    assert(ins[4].0.len() != ins[9].0.len());
    assert(ins[4].0.len() != ins[10].0.len());
    assert(ins[4].0.len() != ins[11].0.len());
    assert(ins[4].0.len() != ins[12].0.len());
    assert(ins[4].0.len() != ins[13].0.len());
    assert(ins[4].0.len() != ins[14].0.len());
    assert(ins[4].0.len() != ins[15].0.len());
    assert(ins[4].0.len() != ins[16].0.len());
    assert(ins[4].0.len() != ins[17].0.len());
    assert(ins[5].0[6] != ins[6].0[6]);
    assert(ins[5].0.len() != ins[7].0.len());
    assert(ins[5].0.len() != ins[8].0.len());
    assert(ins[5].0.len() != ins[9].0.len());
    assert(ins[5].0.len() != ins[10].0.len());
    assert(ins[5].0.len() != ins[11].0.len());
    assert(ins[5].0.len() != ins[12].0.len());
    assert(ins[5].0.len() != ins[13].0.len());
    assert(ins[5].0.len() != ins[14].0.len());
    assert(ins[5].0.len() != ins[15].0.len());
    assert(ins[5].0.len() != ins[16].0.len());
    assert(ins[5].0.len() != ins[17].0.len());
    assert(ins[6].0.len() != ins[7].0.len());
    assert(ins[6].0.len() != ins[8].0.len());
    assert(ins[6].0.len() != ins[9].0.len());
    assert(ins[6].0.len() != ins[10].0.len());
    assert(ins[6].0.len() != ins[11].0.len());
    assert(ins[6].0.len() != ins[12].0.len());
    assert(ins[6].0.len() != ins[13].0.len());
    assert(ins[6].0.len() != ins[14].0.len());
    assert(ins[6].0.len() != ins[15].0.len());
    assert(ins[6].0.len() != ins[16].0.len());
    assert(ins[6].0.len() != ins[17].0.len());
    assert(ins[7].0.len() != ins[8].0.len());
    assert(ins[7].0.len() != ins[9].0.len());
    assert(ins[7].0.len() != ins[10].0.len());
    assert(ins[7].0.len() != ins[11].0.len());
    assert(ins[7].0.len() != ins[12].0.len());
    assert(ins[7].0.len() != ins[13].0.len());
    assert(ins[7].0.len() != ins[14].0.len());
    assert(ins[7].0.len() != ins[15].0.len());
    assert(ins[7].0.len() != ins[16].0.len());
    assert(ins[7].0.len() != ins[17].0.len());
    assert(ins[8].0[0] != ins[9].0[0]);
    assert(ins[8].0.len() != ins[10].0.len());
    assert(ins[8].0.len() != ins[11].0.len());
    assert(ins[8].0.len() != ins[12].0.len());
    assert(ins[8].0.len() != ins[13].0.len());
    assert(ins[8].0[0] != ins[14].0[0]);
    assert(ins[8].0[0] != ins[15].0[0]);
    assert(ins[8].0[0] != ins[16].0[0]);
    assert(ins[8].0.len() != ins[17].0.len());
    assert(ins[9].0.len() != ins[10].0.len());
    assert(ins[9].0.len() != ins[11].0.len());
    assert(ins[9].0.len() != ins[12].0.len());
    assert(ins[9].0.len() != ins[13].0.len());
    assert(ins[9].0[0] != ins[14].0[0]);
    assert(ins[9].0[0] != ins[15].0[0]);
    assert(ins[9].0[0] != ins[16].0[0]);
    assert(ins[9].0.len() != ins[17].0.len());
    assert(ins[10].0.len() != ins[11].0.len());
    assert(ins[10].0.len() != ins[12].0.len());
    assert(ins[10].0.len() != ins[13].0.len());
    assert(ins[10].0.len() != ins[14].0.len());
    assert(ins[10].0.len() != ins[15].0.len());
    assert(ins[10].0.len() != ins[16].0.len());
    assert(ins[10].0.len() != ins[17].0.len());
    assert(ins[11].0[2] != ins[12].0[2]);
    assert(ins[11].0.len() != ins[13].0.len());
    assert(ins[11].0.len() != ins[14].0.len());
    assert(ins[11].0.len() != ins[15].0.len());
    assert(ins[11].0.len() != ins[16].0.len());
    assert(ins[11].0.len() != ins[17].0.len());
    assert(ins[12].0.len() != ins[13].0.len());
    assert(ins[12].0.len() != ins[14].0.len());
    assert(ins[12].0.len() != ins[15].0.len());
    assert(ins[12].0.len() != ins[16].0.len());
    assert(ins[12].0.len() != ins[17].0.len());
    assert(ins[13].0.len() != ins[14].0.len());
    assert(ins[13].0.len() != ins[15].0.len());
    assert(ins[13].0.len() != ins[16].0.len());
    assert(ins[13].0.len() != ins[17].0.len());
    assert(ins[14].0[0] != ins[15].0[0]);
    assert(ins[14].0[0] != ins[16].0[0]);
    assert(ins[14].0.len() != ins[17].0.len());
    assert(ins[15].0[0] != ins[16].0[0]);
    assert(ins[15].0.len() != ins[17].0.len());
    assert(ins[16].0.len() != ins[17].0.len());
}

proof fn lemma_ps1_ids_unique()
    ensures
        ids_unique(ps1_inputs_spec()),
{
    reveal_strlit("dpad_up");
    reveal_strlit("dpad_down");
    reveal_strlit("dpad_left");
    reveal_strlit("dpad_right");
    reveal_strlit("l_stick_up");
    reveal_strlit("l_stick_down");
    reveal_strlit("l_stick_left");
    reveal_strlit("l_stick_right");
    reveal_strlit("r_stick_up");
    reveal_strlit("r_stick_down");
    reveal_strlit("r_stick_left");
    reveal_strlit("r_stick_right");
    reveal_strlit("cross");
    reveal_strlit("circle");
    reveal_strlit("square");
    reveal_strlit("triangle");
    reveal_strlit("l1");
    reveal_strlit("l2");
    reveal_strlit("r1");
    reveal_strlit("r2");
    reveal_strlit("l3");
    reveal_strlit("r3");
    reveal_strlit("start");
    reveal_strlit("select");
    let ins = ps1_inputs_spec();
    assert(ins[0].0.len() != ins[1].0.len());
    assert(ins[0].0.len() != ins[2].0.len());
    assert(ins[0].0.len() != ins[3].0.len());
    assert(ins[0].0.len() != ins[4].0.len());
    assert(ins[0].0.len() != ins[5].0.len());
    assert(ins[0].0.len() != ins[6].0.len());
    assert(ins[0].0.len() != ins[7].0.len());
    assert(ins[0].0.len() != ins[8].0.len());
    assert(ins[0].0.len() != ins[9].0.len());
    assert(ins[0].0.len() != ins[10].0.len());
    assert(ins[0].0.len() != ins[11].0.len());
    assert(ins[0].0.len() != ins[12].0.len());
    assert(ins[0].0.len() != ins[13].0.len());
    assert(ins[0].0.len() != ins[14].0.len());
    assert(ins[0].0.len() != ins[15].0.len());
    assert(ins[0].0.len() != ins[16].0.len());
    assert(ins[0].0.len() != ins[17].0.len());
    assert(ins[0].0.len() != ins[18].0.len());
    assert(ins[0].0.len() != ins[19].0.len());
    assert(ins[0].0.len() != ins[20].0.len());
    assert(ins[0].0.len() != ins[21].0.len());
    assert(ins[0].0.len() != ins[22].0.len());
    assert(ins[0].0.len() != ins[23].0.len());
    assert(ins[1].0[5] != ins[2].0[5]);
    assert(ins[1].0.len() != ins[3].0.len());
    assert(ins[1].0.len() != ins[4].0.len());
    assert(ins[1].0.len() != ins[5].0.len());
    assert(ins[1].0.len() != ins[6].0.len());
    assert(ins[1].0.len() != ins[7].0.len());
    assert(ins[1].0.len() != ins[8].0.len());
    assert(ins[1].0.len() != ins[9].0.len());
    assert(ins[1].0.len() != ins[10].0.len());
    assert(ins[1].0.len() != ins[11].0.len());
    assert(ins[1].0.len() != ins[12].0.len());
    assert(ins[1].0.len() != ins[13].0.len());
    assert(ins[1].0.len() != ins[14].0.len());
    assert(ins[1].0.len() != ins[15].0.len());
    assert(ins[1].0.len() != ins[16].0.len());
    assert(ins[1].0.len() != ins[17].0.len());
    assert(ins[1].0.len() != ins[18].0.len());
    assert(ins[1].0.len() != ins[19].0.len());
    assert(ins[1].0.len() != ins[20].0.len());
    assert(ins[1].0.len() != ins[21].0.len());
    assert(ins[1].0.len() != ins[22].0.len());
    assert(ins[1].0.len() != ins[23].0.len());
    assert(ins[2].0.len() != ins[3].0.len());
    assert(ins[2].0.len() != ins[4].0.len());
    assert(ins[2].0.len() != ins[5].0.len());
    assert(ins[2].0.len() != ins[6].0.len());
    assert(ins[2].0.len() != ins[7].0.len());
    assert(ins[2].0.len() != ins[8].0.len());
    assert(ins[2].0.len() != ins[9].0.len());
    assert(ins[2].0.len() != ins[10].0.len());
    assert(ins[2].0.len() != ins[11].0.len());
    assert(ins[2].0.len() != ins[12].0.len());
    assert(ins[2].0.len() != ins[13].0.len());
    assert(ins[2].0.len() != ins[14].0.len());
    assert(ins[2].0.len() != ins[15].0.len());
    assert(ins[2].0.len() != ins[16].0.len());
    assert(ins[2].0.len() != ins[17].0.len());
    assert(ins[2].0.len() != ins[18].0.len());
    assert(ins[2].0.len() != ins[19].0.len());
    assert(ins[2].0.len() != ins[20].0.len());
    assert(ins[2].0.len() != ins[21].0.len());
    assert(ins[2].0.len() != ins[22].0.len());
    assert(ins[2].0.len() != ins[23].0.len());
    assert(ins[3].0[0] != ins[4].0[0]);
    assert(ins[3].0.len() != ins[5].0.len());
    assert(ins[3].0.len() != ins[6].0.len());
    assert(ins[3].0.len() != ins[7].0.len());
    assert(ins[3].0[0] != ins[8].0[0]);
    assert(ins[3].0.len() != ins[9].0.len());
    assert(ins[3].0.len() != ins[10].0.len());
    assert(ins[3].0.len() != ins[11].0.len());
    assert(ins[3].0.len() != ins[12].0.len());
    assert(ins[3].0.len() != ins[13].0.len());
    assert(ins[3].0.len() != ins[14].0.len());
    assert(ins[3].0.len() != ins[15].0.len());
    assert(ins[3].0.len() != ins[16].0.len());
    assert(ins[3].0.len() != ins[17].0.len());
    assert(ins[3].0.len() != ins[18].0.len());
    assert(ins[3].0.len() != ins[19].0.len());
    assert(ins[3].0.len() != ins[20].0.len());
    assert(ins[3].0.len() != ins[21].0.len());
    assert(ins[3].0.len() != ins[22].0.len());
    assert(ins[3].0.len() != ins[23].0.len());
    assert(ins[4].0.len() != ins[5].0.len());
    assert(ins[4].0.len() != ins[6].0.len());
    assert(ins[4].0.len() != ins[7].0.len());
    assert(ins[4].0[0] != ins[8].0[0]);
    assert(ins[4].0.len() != ins[9].0.len());
    assert(ins[4].0.len() != ins[10].0.len());
    assert(ins[4].0.len() != ins[11].0.len());
    assert(ins[4].0.len() != ins[12].0.len());
    assert(ins[4].0.len() != ins[13].0.len());
    assert(ins[4].0.len() != ins[14].0.len());
    assert(ins[4].0.len() != ins[15].0.len());
    assert(ins[4].0.len() != ins[16].0.len());
    assert(ins[4].0.len() != ins[17].0.len());
    assert(ins[4].0.len() != ins[18].0.len());
    assert(ins[4].0.len() != ins[19].0.len());
    assert(ins[4].0.len() != ins[20].0.len());
    assert(ins[4].0.len() != ins[21].0.len());
    assert(ins[4].0.len() != ins[22].0.len());
    assert(ins[4].0.len() != ins[23].0.len());
    assert(ins[5].0[8] != ins[6].0[8]);
    assert(ins[5].0.len() != ins[7].0.len());
    assert(ins[5].0.len() != ins[8].0.len());
    assert(ins[5].0[0] != ins[9].0[0]);
    assert(ins[5].0[0] != ins[10].0[0]);
    assert(ins[5].0.len() != ins[11].0.len());
    assert(ins[5].0.len() != ins[12].0.len());
    assert(ins[5].0.len() != ins[13].0.len());
    assert(ins[5].0.len() != ins[14].0.len());
    assert(ins[5].0.len() != ins[15].0.len());
    assert(ins[5].0.len() != ins[16].0.len());
    assert(ins[5].0.len() != ins[17].0.len());
    assert(ins[5].0.len() != ins[18].0.len());
    assert(ins[5].0.len() != ins[19].0.len());
    assert(ins[5].0.len() != ins[20].0.len());
    assert(ins[5].0.len() != ins[21].0.len());
    assert(ins[5].0.len() != ins[22].0.len());
    assert(ins[5].0.len() != ins[23].0.len());
    assert(ins[6].0.len() != ins[7].0.len());
    assert(ins[6].0.len() != ins[8].0.len());
    assert(ins[6].0[0] != ins[9].0[0]);
    assert(ins[6].0[0] != ins[10].0[0]);
    assert(ins[6].0.len() != ins[11].0.len());
    assert(ins[6].0.len() != ins[12].0.len());
    assert(ins[6].0.len() != ins[13].0.len());
    assert(ins[6].0.len() != ins[14].0.len());
    assert(ins[6].0.len() != ins[15].0.len());
    assert(ins[6].0.len() != ins[16].0.len());
    assert(ins[6].0.len() != ins[17].0.len());
    assert(ins[6].0.len() != ins[18].0.len());
    assert(ins[6].0.len() != ins[19].0.len());
    assert(ins[6].0.len() != ins[20].0.len());
    assert(ins[6].0.len() != ins[21].0.len());
    assert(ins[6].0.len() != ins[22].0.len());
    assert(ins[6].0.len() != ins[23].0.len());
    assert(ins[7].0.len() != ins[8].0.len());
    assert(ins[7].0.len() != ins[9].0.len());
    assert(ins[7].0.len() != ins[10].0.len());
    assert(ins[7].0[0] != ins[11].0[0]);
    assert(ins[7].0.len() != ins[12].0.len());
    assert(ins[7].0.len() != ins[13].0.len());
    assert(ins[7].0.len() != ins[14].0.len());
    assert(ins[7].0.len() != ins[15].0.len());
    assert(ins[7].0.len() != ins[16].0.len());
    assert(ins[7].0.len() != ins[17].0.len());
    assert(ins[7].0.len() != ins[18].0.len());
    assert(ins[7].0.len() != ins[19].0.len());
    assert(ins[7].0.len() != ins[20].0.len());
    assert(ins[7].0.len() != ins[21].0.len());
    assert(ins[7].0.len() != ins[22].0.len());
    assert(ins[7].0.len() != ins[23].0.len());
    assert(ins[8].0.len() != ins[9].0.len());
    assert(ins[8].0.len() != ins[10].0.len());
    assert(ins[8].0.len() != ins[11].0.len());
    assert(ins[8].0.len() != ins[12].0.len());
    assert(ins[8].0.len() != ins[13].0.len());
    assert(ins[8].0.len() != ins[14].0.len());
    assert(ins[8].0.len() != ins[15].0.len());
    assert(ins[8].0.len() != ins[16].0.len());
    assert(ins[8].0.len() != ins[17].0.len());
    assert(ins[8].0.len() != ins[18].0.len());
    assert(ins[8].0.len() != ins[19].0.len());
    assert(ins[8].0.len() != ins[20].0.len());
    assert(ins[8].0.len() != ins[21].0.len());
    assert(ins[8].0.len() != ins[22].0.len());
    assert(ins[8].0.len() != ins[23].0.len());
    assert(ins[9].0[8] != ins[10].0[8]);
    assert(ins[9].0.len() != ins[11].0.len());
    assert(ins[9].0.len() != ins[12].0.len());
    assert(ins[9].0.len() != ins[13].0.len());
    assert(ins[9].0.len() != ins[14].0.len());
    assert(ins[9].0.len() != ins[15].0.len());
    assert(ins[9].0.len() != ins[16].0.len());
    assert(ins[9].0.len() != ins[17].0.len());
    assert(ins[9].0.len() != ins[18].0.len());
    assert(ins[9].0.len() != ins[19].0.len());
    assert(ins[9].0.len() != ins[20].0.len());
    assert(ins[9].0.len() != ins[21].0.len());
    assert(ins[9].0.len() != ins[22].0.len());
    assert(ins[9].0.len() != ins[23].0.len());
    assert(ins[10].0.len() != ins[11].0.len());
    assert(ins[10].0.len() != ins[12].0.len());
    assert(ins[10].0.len() != ins[13].0.len());
    assert(ins[10].0.len() != ins[14].0.len());
    assert(ins[10].0.len() != ins[15].0.len());
    assert(ins[10].0.len() != ins[16].0.len());
    assert(ins[10].0.len() != ins[17].0.len());
    assert(ins[10].0.len() != ins[18].0.len());
    assert(ins[10].0.len() != ins[19].0.len());
    assert(ins[10].0.len() != ins[20].0.len());
    assert(ins[10].0.len() != ins[21].0.len());
    assert(ins[10].0.len() != ins[22].0.len());
    assert(ins[10].0.len() != ins[23].0.len());
    assert(ins[11].0.len() != ins[12].0.len());
    assert(ins[11].0.len() != ins[13].0.len());
    assert(ins[11].0.len() != ins[14].0.len());
    assert(ins[11].0.len() != ins[15].0.len());
    assert(ins[11].0.len() != ins[16].0.len());
    assert(ins[11].0.len() != ins[17].0.len());
    assert(ins[11].0.len() != ins[18].0.len());
    assert(ins[11].0.len() != ins[19].0.len());
    assert(ins[11].0.len() != ins[20].0.len());
    assert(ins[11].0.len() != ins[21].0.len());
    assert(ins[11].0.len() != ins[22].0.len());
    assert(ins[11].0.len() != ins[23].0.len());
    assert(ins[12].0.len() != ins[13].0.len());
    assert(ins[12].0.len() != ins[14].0.len());
    assert(ins[12].0.len() != ins[15].0.len());
    assert(ins[12].0.len() != ins[16].0.len());
    assert(ins[12].0.len() != ins[17].0.len());
    assert(ins[12].0.len() != ins[18].0.len());
    assert(ins[12].0.len() != ins[19].0.len());
    assert(ins[12].0.len() != ins[20].0.len());
    assert(ins[12].0.len() != ins[21].0.len());
    assert(ins[12].0[0] != ins[22].0[0]);
    assert(ins[12].0.len() != ins[23].0.len());
    assert(ins[13].0[0] != ins[14].0[0]);
    assert(ins[13].0.len() != ins[15].0.len());
    assert(ins[13].0.len() != ins[16].0.len());
    assert(ins[13].0.len() != ins[17].0.len());
    assert(ins[13].0.len() != ins[18].0.len());
    assert(ins[13].0.len() != ins[19].0.len());
    assert(ins[13].0.len() != ins[20].0.len());
    assert(ins[13].0.len() != ins[21].0.len());
    assert(ins[13].0.len() != ins[22].0.len());
    assert(ins[13].0[0] != ins[23].0[0]);
    assert(ins[14].0.len() != ins[15].0.len());
    assert(ins[14].0.len() != ins[16].0.len());
    assert(ins[14].0.len() != ins[17].0.len());
    assert(ins[14].0.len() != ins[18].0.len());
    assert(ins[14].0.len() != ins[19].0.len());
    assert(ins[14].0.len() != ins[20].0.len());
    assert(ins[14].0.len() != ins[21].0.len());
    assert(ins[14].0.len() != ins[22].0.len());
    assert(ins[14].0[1] != ins[23].0[1]);
    assert(ins[15].0.len() != ins[16].0.len());
    assert(ins[15].0.len() != ins[17].0.len());
    assert(ins[15].0.len() != ins[18].0.len());
    assert(ins[15].0.len() != ins[19].0.len());
    assert(ins[15].0.len() != ins[20].0.len());
    assert(ins[15].0.len() != ins[21].0.len());
    assert(ins[15].0.len() != ins[22].0.len());
    assert(ins[15].0.len() != ins[23].0.len());
    assert(ins[16].0[1] != ins[17].0[1]);
    assert(ins[16].0[0] != ins[18].0[0]);
    assert(ins[16].0[0] != ins[19].0[0]);
    assert(ins[16].0[1] != ins[20].0[1]);
    assert(ins[16].0[0] != ins[21].0[0]);
    assert(ins[16].0.len() != ins[22].0.len());
    assert(ins[16].0.len() != ins[23].0.len());
    assert(ins[17].0[0] != ins[18].0[0]);
    assert(ins[17].0[0] != ins[19].0[0]);
    assert(ins[17].0[1] != ins[20].0[1]);
    assert(ins[17].0[0] != ins[21].0[0]);
    assert(ins[17].0.len() != ins[22].0.len());
    assert(ins[17].0.len() != ins[23].0.len());
    assert(ins[18].0[1] != ins[19].0[1]);
    assert(ins[18].0[0] != ins[20].0[0]);
    assert(ins[18].0[1] != ins[21].0[1]);
    assert(ins[18].0.len() != ins[22].0.len());
    assert(ins[18].0.len() != ins[23].0.len());
    assert(ins[19].0[0] != ins[20].0[0]);
    assert(ins[19].0[1] != ins[21].0[1]);
    assert(ins[19].0.len() != ins[22].0.len());
    assert(ins[19].0.len() != ins[23].0.len());
    assert(ins[20].0[0] != ins[21].0[0]);
    assert(ins[20].0.len() != ins[22].0.len());
    assert(ins[20].0.len() != ins[23].0.len());
    assert(ins[21].0.len() != ins[22].0.len());
    assert(ins[21].0.len() != ins[23].0.len());
    assert(ins[22].0.len() != ins[23].0.len());
}

proof fn lemma_vb_ids_unique()
    ensures
        ids_unique(vb_inputs_spec()),
{
    reveal_strlit("dpad_up");
    reveal_strlit("dpad_down");
    reveal_strlit("dpad_left");
    reveal_strlit("dpad_right");
    reveal_strlit("r_dpad_up");
    reveal_strlit("r_dpad_down");
    reveal_strlit("r_dpad_left");
    reveal_strlit("r_dpad_right");
    reveal_strlit("a");
    reveal_strlit("b");
    reveal_strlit("l");
    reveal_strlit("r");
    reveal_strlit("start");
    reveal_strlit("select");
    reveal_strlit("rapid_a");
    reveal_strlit("rapid_b");
    let ins = vb_inputs_spec();
    assert(ins[0].0.len() != ins[1].0.len());
    assert(ins[0].0.len() != ins[2].0.len());
    assert(ins[0].0.len() != ins[3].0.len());
    assert(ins[0].0.len() != ins[4].0.len());
    assert(ins[0].0.len() != ins[5].0.len());
    assert(ins[0].0.len() != ins[6].0.len());
    assert(ins[0].0.len() != ins[7].0.len());
    assert(ins[0].0.len() != ins[8].0.len());
    assert(ins[0].0.len() != ins[9].0.len());
    assert(ins[0].0.len() != ins[10].0.len());
    assert(ins[0].0.len() != ins[11].0.len());
    assert(ins[0].0.len() != ins[12].0.len());
    assert(ins[0].0.len() != ins[13].0.len());
    assert(ins[0].0[0] != ins[14].0[0]);
    assert(ins[0].0[0] != ins[15].0[0]);
    assert(ins[1].0[5] != ins[2].0[5]);
    assert(ins[1].0.len() != ins[3].0.len());
    assert(ins[1].0[0] != ins[4].0[0]);
    assert(ins[1].0.len() != ins[5].0.len());
    assert(ins[1].0.len() != ins[6].0.len());
    assert(ins[1].0.len() != ins[7].0.len());
    assert(ins[1].0.len() != ins[8].0.len());
    assert(ins[1].0.len() != ins[9].0.len());
    assert(ins[1].0.len() != ins[10].0.len());
    assert(ins[1].0.len() != ins[11].0.len());
    assert(ins[1].0.len() != ins[12].0.len());
    assert(ins[1].0.len() != ins[13].0.len());
    assert(ins[1].0.len() != ins[14].0.len());
    assert(ins[1].0.len() != ins[15].0.len());
    assert(ins[2].0.len() != ins[3].0.len());
    assert(ins[2].0[0] != ins[4].0[0]);
    assert(ins[2].0.len() != ins[5].0.len());
    assert(ins[2].0.len() != ins[6].0.len());
    assert(ins[2].0.len() != ins[7].0.len());
    assert(ins[2].0.len() != ins[8].0.len());
    assert(ins[2].0.len() != ins[9].0.len());
    assert(ins[2].0.len() != ins[10].0.len());
    assert(ins[2].0.len() != ins[11].0.len());
    assert(ins[2].0.len() != ins[12].0.len());
    assert(ins[2].0.len() != ins[13].0.len());
    assert(ins[2].0.len() != ins[14].0.len());
    assert(ins[2].0.len() != ins[15].0.len());
    assert(ins[3].0.len() != ins[4].0.len());
    assert(ins[3].0.len() != ins[5].0.len());
    assert(ins[3].0.len() != ins[6].0.len());
    assert(ins[3].0.len() != ins[7].0.len());
    assert(ins[3].0.len() != ins[8].0.len());
    assert(ins[3].0.len() != ins[9].0.len());
    assert(ins[3].0.len() != ins[10].0.len());
    assert(ins[3].0.len() != ins[11].0.len());
    assert(ins[3].0.len() != ins[12].0.len());
    assert(ins[3].0.len() != ins[13].0.len());
    assert(ins[3].0.len() != ins[14].0.len());
    assert(ins[3].0.len() != ins[15].0.len());
    assert(ins[4].0.len() != ins[5].0.len());
    assert(ins[4].0.len() != ins[6].0.len());
    assert(ins[4].0.len() != ins[7].0.len());
    assert(ins[4].0.len() != ins[8].0.len());
    assert(ins[4].0.len() != ins[9].0.len());
    assert(ins[4].0.len() != ins[10].0.len());
    assert(ins[4].0.len() != ins[11].0.len());
    assert(ins[4].0.len() != ins[12].0.len());
    assert(ins[4].0.len() != ins[13].0.len());
    assert(ins[4].0.len() != ins[14].0.len());
    assert(ins[4].0.len() != ins[15].0.len());
    assert(ins[5].0[7] != ins[6].0[7]);
    assert(ins[5].0.len() != ins[7].0.len());
    assert(ins[5].0.len() != ins[8].0.len());
    assert(ins[5].0.len() != ins[9].0.len());
    assert(ins[5].0.len() != ins[10].0.len());
    assert(ins[5].0.len() != ins[11].0.len());
    assert(ins[5].0.len() != ins[12].0.len());
    assert(ins[5].0.len() != ins[13].0.len());
    assert(ins[5].0.len() != ins[14].0.len());
    assert(ins[5].0.len() != ins[15].0.len());
    assert(ins[6].0.len() != ins[7].0.len());
    assert(ins[6].0.len() != ins[8].0.len());
    assert(ins[6].0.len() != ins[9].0.len());
    assert(ins[6].0.len() != ins[10].0.len());
    assert(ins[6].0.len() != ins[11].0.len());
    assert(ins[6].0.len() != ins[12].0.len());
    assert(ins[6].0.len() != ins[13].0.len());
    assert(ins[6].0.len() != ins[14].0.len());
    assert(ins[6].0.len() != ins[15].0.len());
    assert(ins[7].0.len() != ins[8].0.len());
    assert(ins[7].0.len() != ins[9].0.len());
    assert(ins[7].0.len() != ins[10].0.len());
    assert(ins[7].0.len() != ins[11].0.len());
    assert(ins[7].0.len() != ins[12].0.len());
    assert(ins[7].0.len() != ins[13].0.len());
    assert(ins[7].0.len() != ins[14].0.len());
    assert(ins[7].0.len() != ins[15].0.len());
    assert(ins[8].0[0] != ins[9].0[0]);
    assert(ins[8].0[0] != ins[10].0[0]);
    assert(ins[8].0[0] != ins[11].0[0]);
    assert(ins[8].0.len() != ins[12].0.len());
    assert(ins[8].0.len() != ins[13].0.len());
    assert(ins[8].0.len() != ins[14].0.len());
    assert(ins[8].0.len() != ins[15].0.len());
    assert(ins[9].0[0] != ins[10].0[0]);
    assert(ins[9].0[0] != ins[11].0[0]);
    assert(ins[9].0.len() != ins[12].0.len());
    assert(ins[9].0.len() != ins[13].0.len());
    assert(ins[9].0.len() != ins[14].0.len());
    assert(ins[9].0.len() != ins[15].0.len());
    assert(ins[10].0[0] != ins[11].0[0]);
    assert(ins[10].0.len() != ins[12].0.len());
    assert(ins[10].0.len() != ins[13].0.len());
    assert(ins[10].0.len() != ins[14].0.len());
    assert(ins[10].0.len() != ins[15].0.len());
    assert(ins[11].0.len() != ins[12].0.len());
    assert(ins[11].0.len() != ins[13].0.len());
    assert(ins[11].0.len() != ins[14].0.len());
    assert(ins[11].0.len() != ins[15].0.len());
    assert(ins[12].0.len() != ins[13].0.len());
    assert(ins[12].0.len() != ins[14].0.len());
    assert(ins[12].0.len() != ins[15].0.len());
    assert(ins[13].0.len() != ins[14].0.len());
    assert(ins[13].0.len() != ins[15].0.len());
    assert(ins[14].0[6] != ins[15].0[6]);
}

/// Every catalogued pad's inputs have distinct ids, so a profile's bindings
/// key each input at most once.
pub proof fn law_pad_input_ids_unique(p: int)
    requires
        0 <= p < pad_table().len(),
    ensures
        ids_unique(pad_table()[p].1),
{
    lemma_nes_ids_unique();
    lemma_gb_ids_unique();
    lemma_gba_ids_unique();
    lemma_snes_ids_unique();
    lemma_n64_ids_unique();
    lemma_ps1_ids_unique();
    lemma_vb_ids_unique();
}

/// Every catalogued pad has a d-pad.
pub proof fn law_dpad_everywhere(p: int)
    requires
        0 <= p < pad_table().len(),
    ensures
        has_input_spec(pad_table()[p].1, "dpad_up"@),
        has_input_spec(pad_table()[p].1, "dpad_down"@),
        has_input_spec(pad_table()[p].1, "dpad_left"@),
        has_input_spec(pad_table()[p].1, "dpad_right"@),
{
    let ins = pad_table()[p].1;
    assert(ins[0].0 == "dpad_up"@);
    assert(ins[1].0 == "dpad_down"@);
    assert(ins[2].0 == "dpad_left"@);
    assert(ins[3].0 == "dpad_right"@);
}

} // verus!
