//! Emulator hotkeys: the canonical action set, key-name normalisation, the
//! documented per-emulator defaults, and the overlay of a user's parsed
//! bindings on those defaults. Reading an emulator's config never writes it.
use vstd::prelude::*;
use crate::text::{
    lemma_trim_ends, lemma_trim_plain,
    all_digits, chars_of, dec, eq_str, is_digit, lines, lines_vec, push_all, push_dec, push_str,
    slice_of, split_once, split_once_vec, string_of, trim, trim_end, trim_start, trim_vec, views, is_ws,
};

verus! {

/// The canonical hotkey actions worth surfacing, uniform across emulators.
#[derive(Debug, Clone, Copy, PartialEq, Eq, Hash, Structural)]
pub enum HotkeyAction {
    SaveState,
    LoadState,
    NextSlot,
    PrevSlot,
    Screenshot,
    Pause,
    FastForwardHold,
    FastForwardToggle,
    Rewind,
    ToggleFullscreen,
    ToggleMenu,
    Exit,
    Reset,
}

pub open spec fn label_spec(a: HotkeyAction) -> Seq<char> {
    match a {
        HotkeyAction::SaveState => "Save State"@,
        HotkeyAction::LoadState => "Load State"@,
        HotkeyAction::NextSlot => "Next Slot"@,
        HotkeyAction::PrevSlot => "Previous Slot"@,
        HotkeyAction::Screenshot => "Screenshot"@,
        HotkeyAction::Pause => "Pause"@,
        HotkeyAction::FastForwardHold => "Fast Forward (hold)"@,
        HotkeyAction::FastForwardToggle => "Fast Forward (toggle)"@,
        HotkeyAction::Rewind => "Rewind"@,
        HotkeyAction::ToggleFullscreen => "Fullscreen"@,
        HotkeyAction::ToggleMenu => "Menu"@,
        HotkeyAction::Exit => "Exit"@,
        HotkeyAction::Reset => "Reset"@,
    }
}

/// Length and first two characters of each label, which already tell the
/// labels apart.
spec fn label_sketch(a: HotkeyAction) -> (int, char, char) {
    match a {
        HotkeyAction::SaveState => (10int, 'S', 'a'),
        HotkeyAction::LoadState => (10int, 'L', 'o'),
        HotkeyAction::NextSlot => (9int, 'N', 'e'),
        HotkeyAction::PrevSlot => (13int, 'P', 'r'),
        HotkeyAction::Screenshot => (10int, 'S', 'c'),
        HotkeyAction::Pause => (5int, 'P', 'a'),
        HotkeyAction::FastForwardHold => (19int, 'F', 'a'),
        HotkeyAction::FastForwardToggle => (21int, 'F', 'a'),
        HotkeyAction::Rewind => (6int, 'R', 'e'),
        HotkeyAction::ToggleFullscreen => (10int, 'F', 'u'),
        HotkeyAction::ToggleMenu => (4int, 'M', 'e'),
        HotkeyAction::Exit => (4int, 'E', 'x'),
        HotkeyAction::Reset => (5int, 'R', 'e'),
    }
}

/// Every action has its own non-empty label.
pub proof fn law_labels_distinct(a: HotkeyAction, b: HotkeyAction)
    ensures
        label_spec(a).len() > 0,
        a != b ==> label_spec(a) != label_spec(b),
{
    reveal_strlit("Save State");
    reveal_strlit("Load State");
    reveal_strlit("Next Slot");
    reveal_strlit("Previous Slot");
    reveal_strlit("Screenshot");
    reveal_strlit("Pause");
    reveal_strlit("Fast Forward (hold)");
    reveal_strlit("Fast Forward (toggle)");
    reveal_strlit("Rewind");
    reveal_strlit("Fullscreen");
    reveal_strlit("Menu");
    reveal_strlit("Exit");
    reveal_strlit("Reset");
    let la = label_spec(a);
    let lb = label_spec(b);
    assert((la.len() as int, la[0], la[1]) == label_sketch(a));
    assert((lb.len() as int, lb[0], lb[1]) == label_sketch(b));
}

impl HotkeyAction {
    /// Human label for the UI.
    pub fn label(self) -> (r: &'static str)
        ensures
            r@ == label_spec(self),
    {
        match self {
            HotkeyAction::SaveState => "Save State",
            HotkeyAction::LoadState => "Load State",
            HotkeyAction::NextSlot => "Next Slot",
            HotkeyAction::PrevSlot => "Previous Slot",
            HotkeyAction::Screenshot => "Screenshot",
            HotkeyAction::Pause => "Pause",
            HotkeyAction::FastForwardHold => "Fast Forward (hold)",
            HotkeyAction::FastForwardToggle => "Fast Forward (toggle)",
            HotkeyAction::Rewind => "Rewind",
            HotkeyAction::ToggleFullscreen => "Fullscreen",
            HotkeyAction::ToggleMenu => "Menu",
            HotkeyAction::Exit => "Exit",
            HotkeyAction::Reset => "Reset",
        }
    }
}

/// Which input device a binding is for.
#[derive(Debug, Clone, Copy, PartialEq, Eq, Structural)]
pub enum HotkeyDevice {
    Keyboard,
    Controller,
}

/// One resolved hotkey for the UI.
#[derive(Debug, Clone)]
pub struct EmulatorHotkey {
    pub action: HotkeyAction,
    pub label: String,
    pub binding: String,
    pub is_default: bool,
    pub device: HotkeyDevice,
}

// ── action → binding map ────────────────────────────────────────────────────

/// The map the entries denote: later entries win.
pub open spec fn entries_map(s: Seq<(HotkeyAction, Seq<char>)>) -> Map<HotkeyAction, Seq<char>>
    decreases s.len(),
{
    if s.len() == 0 {
        Map::empty()
    } else {
        entries_map(s.drop_last()).insert(s.last().0, s.last().1)
    }
}

pub open spec fn unique_actions(s: Seq<(HotkeyAction, Seq<char>)>) -> bool {
    forall|i: int, j: int| 0 <= i < j < s.len() ==> s[i].0 != s[j].0
}

proof fn lemma_entries_map_dom(s: Seq<(HotkeyAction, Seq<char>)>)
    ensures
        forall|a: HotkeyAction| #[trigger]
            entries_map(s).contains_key(a) <==> exists|i: int| 0 <= i < s.len() && s[i].0 == a,
        entries_map(s).dom().finite(),
        unique_actions(s) ==> entries_map(s).dom().len() == s.len(),
    decreases s.len(),
{
    if s.len() > 0 {
        let p = s.drop_last();
        lemma_entries_map_dom(p);
        assert forall|a: HotkeyAction| #[trigger]
            entries_map(s).contains_key(a) <==> exists|i: int| 0 <= i < s.len() && s[i].0 == a by {
            if entries_map(s).contains_key(a) && a != s.last().0 {
                let i = choose|i: int| 0 <= i < p.len() && p[i].0 == a;
                assert(s[i].0 == a);
            }
            if exists|i: int| 0 <= i < s.len() && s[i].0 == a {
                let i = choose|i: int| 0 <= i < s.len() && s[i].0 == a;
                if i < p.len() {
                    assert(p[i].0 == a);
                }
            }
        }
        if unique_actions(s) {
            assert(unique_actions(p));
            assert(!entries_map(p).contains_key(s.last().0)) by {
                if entries_map(p).contains_key(s.last().0) {
                    let i = choose|i: int| 0 <= i < p.len() && p[i].0 == s.last().0;
                    assert(s[i].0 == s[s.len() - 1].0);
                }
            }
        }
    }
}

proof fn lemma_entries_map_update(s: Seq<(HotkeyAction, Seq<char>)>, i: int, v: Seq<char>)
    requires
        0 <= i < s.len(),
        unique_actions(s),
    ensures
        entries_map(s.update(i, (s[i].0, v))) == entries_map(s).insert(s[i].0, v),
    decreases s.len(),
{
    let a = s[i].0;
    let t = s.update(i, (a, v));
    if i == s.len() - 1 {
        assert(t.drop_last() =~= s.drop_last());
    } else {
        let p = s.drop_last();
        assert(unique_actions(p));
        lemma_entries_map_update(p, i, v);
        assert(t.drop_last() =~= p.update(i, (a, v)));
        assert(s.last().0 != a);
        assert(entries_map(t) =~= entries_map(s).insert(a, v));
    }
}

/// An `action → binding` map (the hotkeys parsed from one config file).
pub struct HotkeyMap {
    entries: Vec<(HotkeyAction, String)>,
}

impl HotkeyMap {
    pub closed spec fn entry_views(&self) -> Seq<(HotkeyAction, Seq<char>)> {
        self.entries@.map_values(|e: (HotkeyAction, String)| (e.0, e.1@))
    }

    /// The bindings by action.
    pub closed spec fn bindings(&self) -> Map<HotkeyAction, Seq<char>> {
        entries_map(self.entry_views())
    }

    pub closed spec fn wf(&self) -> bool {
        unique_actions(self.entry_views())
    }

    pub fn new() -> (r: Self)
        ensures
            r.wf(),
            r.bindings() == Map::<HotkeyAction, Seq<char>>::empty(),
    {
        let r = HotkeyMap { entries: Vec::new() };
        assert(r.entry_views() =~= Seq::<(HotkeyAction, Seq<char>)>::empty());
        r
    }

    /// Bind `action` (replacing an earlier binding).
    pub fn insert(&mut self, action: HotkeyAction, binding: String)
        requires
            old(self).wf(),
        ensures
            final(self).wf(),
            final(self).bindings() == old(self).bindings().insert(action, binding@),
    {
        let ghost s = self.entry_views();
        let mut i: usize = 0;
        while i < self.entries.len()
            invariant
                i <= self.entries.len(),
                s == self.entry_views(),
                s == old(self).entry_views(),
                unique_actions(s),
                forall|j: int| 0 <= j < i ==> s[j].0 != action,
            decreases self.entries.len() - i,
        {
            if self.entries[i].0 == action {
                assert(s[i as int].0 == action);
                let ghost bv = binding@;
                self.entries.set(i, (action, binding));
                proof {
                    assert(self.entry_views() =~= s.update(i as int, (s[i as int].0, bv)));
                    lemma_entries_map_update(s, i as int, bv);
                }
                return;
            }
            i += 1;
        }
        let ghost bv = binding@;
        self.entries.push((action, binding));
        proof {
            assert(self.entry_views() =~= s.push((action, bv)));
            assert(self.entry_views().drop_last() =~= s);
        }
    }

    /// The binding of `action`, if bound.
    pub fn get(&self, action: &HotkeyAction) -> (r: Option<&String>)
        requires
            self.wf(),
        ensures
            match r {
                Some(b) => self.bindings().contains_key(*action) && self.bindings()[*action] == b@,
                None => !self.bindings().contains_key(*action),
            },
    {
        let ghost s = self.entry_views();
        proof {
            lemma_entries_map_dom(s);
        }
        let mut i: usize = 0;
        while i < self.entries.len()
            invariant
                i <= self.entries.len(),
                s == self.entry_views(),
                unique_actions(s),
                forall|j: int| 0 <= j < i ==> s[j].0 != *action,
            decreases self.entries.len() - i,
        {
            if self.entries[i].0 == *action {
                proof {
                    lemma_entries_map_at(s, i as int);
                }
                return Some(&self.entries[i].1);
            }
            i += 1;
        }
        None
    }

    /// Number of bound actions.
    pub fn len(&self) -> (n: usize)
        requires
            self.wf(),
        ensures
            n == self.bindings().dom().len(),
    {
        proof {
            lemma_entries_map_dom(self.entry_views());
        }
        self.entries.len()
    }
}

proof fn lemma_entries_map_at(s: Seq<(HotkeyAction, Seq<char>)>, i: int)
    requires
        0 <= i < s.len(),
        unique_actions(s),
    ensures
        entries_map(s).contains_key(s[i].0),
        entries_map(s)[s[i].0] == s[i].1,
    decreases s.len(),
{
    if i < s.len() - 1 {
        let p = s.drop_last();
        assert(unique_actions(p));
        lemma_entries_map_at(p, i);
    }
}

// ── INI sections ────────────────────────────────────────────────────────────

/// `key = value` pairs (split on the first `=`, both trimmed) inside the named
/// `[section]`; blank and comment (`#`, `;`) lines are skipped.
pub open spec fn ini_pairs_scan(ls: Seq<Seq<char>>, section: Seq<char>, in_sec: bool) -> Seq<
    (Seq<char>, Seq<char>),
>
    decreases ls.len(),
{
    if ls.len() == 0 {
        seq![]
    } else {
        let line = trim(ls[0]);
        let rest = ls.drop_first();
        if line.len() == 0 || line[0] == '#' || line[0] == ';' {
            ini_pairs_scan(rest, section, in_sec)
        } else if line[0] == '[' && line.last() == ']' && line.len() >= 2 {
            ini_pairs_scan(rest, section, trim(line.subrange(1, line.len() - 1)) == section)
        } else if !in_sec {
            ini_pairs_scan(rest, section, in_sec)
        } else {
            match split_once(line, '=') {
                Some((k, v)) => seq![(trim(k), trim(v))] + ini_pairs_scan(rest, section, in_sec),
                None => ini_pairs_scan(rest, section, in_sec),
            }
        }
    }
}

pub open spec fn pair_views(v: Seq<(String, String)>) -> Seq<(Seq<char>, Seq<char>)> {
    v.map_values(|p: (String, String)| (p.0@, p.1@))
}

/// Collect `key = value` pairs inside a named `[Section]` of an INI-style
/// config, splitting on the first `=` only.
pub fn ini_section_pairs(text: &str, section: &str) -> (r: Vec<(String, String)>)
    ensures
        pair_views(r@) == ini_pairs_scan(lines(text@), section@, false),
{
    let t = chars_of(text);
    let sec = chars_of(section);
    let ls = lines_vec(&t);
    let ghost l0 = views(ls@);
    let mut out: Vec<(String, String)> = Vec::new();
    let mut in_section = false;
    let mut i: usize = 0;
    proof {
        assert(l0.skip(0) =~= l0);
        assert(pair_views(out@) =~= Seq::<(Seq<char>, Seq<char>)>::empty());
    }
    while i < ls.len()
        invariant
            i <= ls.len(),
            views(ls@) == l0,
            l0 == lines(text@),
            sec@ == section@,
            ini_pairs_scan(lines(text@), section@, false) == pair_views(out@) + ini_pairs_scan(
                l0.skip(i as int),
                section@,
                in_section,
            ),
        decreases ls.len() - i,
    {
        proof {
            assert(l0.skip(i as int)[0] == l0[i as int]);
            assert(l0.skip(i as int).drop_first() =~= l0.skip(i + 1));
        }
        let line = trim_vec(&ls[i]);
        let n = line.len();
        if n == 0 || line[0] == '#' || line[0] == ';' {
        } else if line[0] == '[' && line[n - 1] == ']' && n >= 2 {
            let name = slice_of(&line, 1, n - 1);
            let tn = trim_vec(&name);
            in_section = crate::text::eq_vec(&tn, &sec);
        } else if in_section {
            match split_once_vec(&line, '=') {
                Some((k, v)) => {
                    let tk = trim_vec(&k);
                    let tv = trim_vec(&v);
                    let ghost before = pair_views(out@);
                    out.push((string_of(&tk), string_of(&tv)));
                    proof {
                        assert(pair_views(out@) =~= before.push((tk@, tv@)));
                        assert(pair_views(out@) + ini_pairs_scan(l0.skip(i + 1), section@, in_section)
                            =~= before + (seq![(tk@, tv@)] + ini_pairs_scan(
                            l0.skip(i + 1),
                            section@,
                            in_section,
                        )));
                    }
                },
                None => {},
            }
        }
        i += 1;
    }
    proof {
        assert(l0.skip(i as int) =~= Seq::<Seq<char>>::empty());
        assert(pair_views(out@) + Seq::<(Seq<char>, Seq<char>)>::empty() =~= pair_views(out@));
    }
    out
}

// ── key names ───────────────────────────────────────────────────────────────

pub open spec fn lower_char(c: char) -> char {
    if 'A' <= c <= 'Z' {
        (((c as u32) + 32) as u8) as char
    } else {
        c
    }
}

pub open spec fn upper_char(c: char) -> char {
    if 'a' <= c <= 'z' {
        (((c as u32) - 32) as u8) as char
    } else {
        c
    }
}

/// `str::to_ascii_lowercase`.
pub open spec fn lower_str(s: Seq<char>) -> Seq<char> {
    Seq::new(s.len(), |i: int| lower_char(s[i]))
}

pub fn lower_char_exec(c: char) -> (r: char)
    ensures
        r == lower_char(c),
{
    if 'A' <= c && c <= 'Z' {
        let b = (c as u32) + 32;
        (b as u8) as char
    } else {
        c
    }
}

pub fn upper_char_exec(c: char) -> (r: char)
    ensures
        r == upper_char(c),
{
    if 'a' <= c && c <= 'z' {
        let b = (c as u32) - 32;
        (b as u8) as char
    } else {
        c
    }
}

pub fn lower_vec(s: &Vec<char>) -> (r: Vec<char>)
    ensures
        r@ == lower_str(s@),
{
    let mut r: Vec<char> = Vec::new();
    let mut i: usize = 0;
    while i < s.len()
        invariant
            i <= s.len(),
            r@ == lower_str(s@).take(i as int),
        decreases s.len() - i,
    {
        r.push(lower_char_exec(s[i]));
        i += 1;
        proof {
            assert(r@ =~= lower_str(s@).take(i as int));
        }
    }
    proof {
        assert(lower_str(s@).take(s.len() as int) =~= lower_str(s@));
    }
    r
}

/// `str::to_ascii_uppercase`.
pub open spec fn upper_str(s: Seq<char>) -> Seq<char> {
    Seq::new(s.len(), |i: int| upper_char(s[i]))
}

pub fn upper_vec(s: &Vec<char>) -> (r: Vec<char>)
    ensures
        r@ == upper_str(s@),
{
    let mut r: Vec<char> = Vec::new();
    let mut i: usize = 0;
    while i < s.len()
        invariant
            i <= s.len(),
            r@ == upper_str(s@).take(i as int),
        decreases s.len() - i,
    {
        r.push(upper_char_exec(s[i]));
        i += 1;
        proof {
            assert(r@ =~= upper_str(s@).take(i as int));
        }
    }
    proof {
        assert(upper_str(s@).take(s.len() as int) =~= upper_str(s@));
    }
    r
}

/// The fixed display names of named keys (by lowercased token); the unbound
/// sentinels map to the empty string.
pub open spec fn named_key(l: Seq<char>) -> Option<Seq<char>> {
    if l == "nul"@ || l == "unset"@ {
        Some(seq![])
    } else if l == "escape"@ || l == "esc"@ {
        Some("Esc"@)
    } else if l == "space"@ {
        Some("Space"@)
    } else if l == "return"@ || l == "enter"@ {
        Some("Return"@)
    } else if l == "tab"@ {
        Some("Tab"@)
    } else if l == "period"@ {
        Some("."@)
    } else if l == "comma"@ {
        Some(","@)
    } else if l == "alt"@ {
        Some("Alt"@)
    } else if l == "shift"@ {
        Some("Shift"@)
    } else if l == "ctrl"@ || l == "control"@ {
        Some("Ctrl"@)
    } else if l == "backspace"@ {
        Some("Backspace"@)
    } else if l == "delete"@ || l == "del"@ {
        Some("Delete"@)
    } else {
        None
    }
}

fn named_key_exec(l: &Vec<char>) -> (r: Option<Vec<char>>)
    ensures
        match r {
            Some(v) => named_key(l@) == Some(v@),
            None => named_key(l@) is None,
        },
{
    if eq_str(l, "nul") || eq_str(l, "unset") {
        let e: Vec<char> = Vec::new();
        proof {
            assert(e@ =~= Seq::<char>::empty());
        }
        Some(e)
    } else if eq_str(l, "escape") || eq_str(l, "esc") {
        Some(chars_of("Esc"))
    } else if eq_str(l, "space") {
        Some(chars_of("Space"))
    } else if eq_str(l, "return") || eq_str(l, "enter") {
        Some(chars_of("Return"))
    } else if eq_str(l, "tab") {
        Some(chars_of("Tab"))
    } else if eq_str(l, "period") {
        Some(chars_of("."))
    } else if eq_str(l, "comma") {
        Some(chars_of(","))
    } else if eq_str(l, "alt") {
        Some(chars_of("Alt"))
    } else if eq_str(l, "shift") {
        Some(chars_of("Shift"))
    } else if eq_str(l, "ctrl") || eq_str(l, "control") {
        Some(chars_of("Ctrl"))
    } else if eq_str(l, "backspace") {
        Some(chars_of("Backspace"))
    } else if eq_str(l, "delete") || eq_str(l, "del") {
        Some(chars_of("Delete"))
    } else {
        None
    }
}


/// The display form of a raw key token: named keys by their fixed names, `f<n>`
/// as `F<n>`, anything else with its first character upper-cased.
pub open spec fn normalize_key_spec(raw: Seq<char>) -> Seq<char> {
    let r = trim(raw);
    if r.len() == 0 {
        seq![]
    } else {
        let l = lower_str(r);
        match named_key(l) {
            Some(v) => v,
            None => if l.len() > 1 && l[0] == 'f' && all_digits(l.drop_first()) {
                seq!['F'] + l.drop_first()
            } else {
                seq![upper_char(r[0])] + r.drop_first()
            },
        }
    }
}

proof fn lemma_case_chars(c: char)
    ensures
        lower_char(upper_char(c)) == lower_char(c),
        upper_char(upper_char(c)) == upper_char(c),
        is_ws(upper_char(c)) == is_ws(c),
        'A' <= c <= 'Z' ==> lower_char(c) as u32 == c as u32 + 32,
        !('A' <= c <= 'Z') ==> lower_char(c) == c,
{
    let n = c as u32;
    if 'a' <= c <= 'z' {
        assert(((n - 32) as u8) as u32 == n - 32);
        assert(upper_char(c) as u32 == n - 32);
        let u = upper_char(c);
        assert(((u as u32 + 32) as u8) as u32 == n);
        assert(lower_char(u) as u32 == n);
    }
    if 'A' <= c <= 'Z' {
        assert(((n + 32) as u8) as u32 == n + 32);
    }
}

/// A named key's display form is normalised to itself.
proof fn lemma_named_fixed(v: Seq<char>, key: Seq<char>)
    requires
        v.len() > 0,
        key == lower_str(v),
        named_key(key) == Some(v),
        !is_ws(v[0]),
        !is_ws(v.last()),
    ensures
        normalize_key_spec(v) == v,
{
    lemma_trim_plain(v);
}

/// Every display form of a named key normalises to itself.
proof fn lemma_named_values(l: Seq<char>)
    requires
        named_key(l) is Some,
    ensures
        normalize_key_spec(named_key(l)->0) == named_key(l)->0,
{
    let v = named_key(l)->0;
    reveal_strlit("nul");
    reveal_strlit("unset");
    reveal_strlit("escape");
    reveal_strlit("esc");
    reveal_strlit("space");
    reveal_strlit("return");
    reveal_strlit("enter");
    reveal_strlit("tab");
    reveal_strlit("period");
    reveal_strlit("comma");
    reveal_strlit("alt");
    reveal_strlit("shift");
    reveal_strlit("ctrl");
    reveal_strlit("control");
    reveal_strlit("backspace");
    reveal_strlit("delete");
    reveal_strlit("del");
    reveal_strlit(".");
    reveal_strlit(",");
    assert("nul"@[0] != "tab"@[0]);
    assert("escape"@[0] != "return"@[0]);
    assert("escape"@[0] != "period"@[0]);
    assert("esc"@[0] != "nul"@[0]);
    assert("esc"@[0] != "tab"@[0]);
    assert("space"@[0] != "unset"@[0]);
    assert("enter"@[0] != "unset"@[0]);
    assert("enter"@[0] != "space"@[0]);
    assert("enter"@[0] != "shift"@[0]);
    assert("period"@[0] != "return"@[0]);
    assert("comma"@[0] != "unset"@[0]);
    assert("comma"@[0] != "space"@[0]);
    assert("comma"@[0] != "enter"@[0]);
    assert("comma"@[0] != "shift"@[0]);
    assert("alt"@[0] != "nul"@[0]);
    assert("alt"@[0] != "esc"@[0]);
    assert("alt"@[0] != "tab"@[0]);
    assert("alt"@[0] != "del"@[0]);
    assert("shift"@[0] != "unset"@[0]);
    assert("shift"@[1] != "space"@[1]);
    assert("delete"@[0] != "escape"@[0]);
    assert("delete"@[0] != "return"@[0]);
    assert("delete"@[0] != "period"@[0]);
    assert("del"@[0] != "nul"@[0]);
    assert("del"@[0] != "esc"@[0]);
    assert("del"@[0] != "tab"@[0]);
    reveal_strlit("Esc");
    reveal_strlit("esc");
    if v == "Esc"@ {
        assert(lower_str(v) =~= "esc"@) by {
            assert forall|i: int| 0 <= i < v.len() implies lower_str(v)[i] == "esc"@[i] by {
                lemma_case_chars(v[i]);
            }
        }
        lemma_named_fixed(v, "esc"@);
    }
    reveal_strlit("Space");
    reveal_strlit("space");
    if v == "Space"@ {
        assert(lower_str(v) =~= "space"@) by {
            assert forall|i: int| 0 <= i < v.len() implies lower_str(v)[i] == "space"@[i] by {
                lemma_case_chars(v[i]);
            }
        }
        lemma_named_fixed(v, "space"@);
    }
    reveal_strlit("Return");
    reveal_strlit("return");
    if v == "Return"@ {
        assert(lower_str(v) =~= "return"@) by {
            assert forall|i: int| 0 <= i < v.len() implies lower_str(v)[i] == "return"@[i] by {
                lemma_case_chars(v[i]);
            }
        }
        lemma_named_fixed(v, "return"@);
    }
    reveal_strlit("Tab");
    reveal_strlit("tab");
    if v == "Tab"@ {
        assert(lower_str(v) =~= "tab"@) by {
            assert forall|i: int| 0 <= i < v.len() implies lower_str(v)[i] == "tab"@[i] by {
                lemma_case_chars(v[i]);
            }
        }
        lemma_named_fixed(v, "tab"@);
    }
    reveal_strlit("Alt");
    reveal_strlit("alt");
    if v == "Alt"@ {
        assert(lower_str(v) =~= "alt"@) by {
            assert forall|i: int| 0 <= i < v.len() implies lower_str(v)[i] == "alt"@[i] by {
                lemma_case_chars(v[i]);
            }
        }
        lemma_named_fixed(v, "alt"@);
    }
    reveal_strlit("Shift");
    reveal_strlit("shift");
    if v == "Shift"@ {
        assert(lower_str(v) =~= "shift"@) by {
            assert forall|i: int| 0 <= i < v.len() implies lower_str(v)[i] == "shift"@[i] by {
                lemma_case_chars(v[i]);
            }
        }
        lemma_named_fixed(v, "shift"@);
    }
    reveal_strlit("Ctrl");
    reveal_strlit("ctrl");
    if v == "Ctrl"@ {
        assert(lower_str(v) =~= "ctrl"@) by {
            assert forall|i: int| 0 <= i < v.len() implies lower_str(v)[i] == "ctrl"@[i] by {
                lemma_case_chars(v[i]);
            }
        }
        lemma_named_fixed(v, "ctrl"@);
    }
    reveal_strlit("Backspace");
    reveal_strlit("backspace");
    if v == "Backspace"@ {
        assert(lower_str(v) =~= "backspace"@) by {
            assert forall|i: int| 0 <= i < v.len() implies lower_str(v)[i] == "backspace"@[i] by {
                lemma_case_chars(v[i]);
            }
        }
        lemma_named_fixed(v, "backspace"@);
    }
    reveal_strlit("Delete");
    reveal_strlit("delete");
    if v == "Delete"@ {
        assert(lower_str(v) =~= "delete"@) by {
            assert forall|i: int| 0 <= i < v.len() implies lower_str(v)[i] == "delete"@[i] by {
                lemma_case_chars(v[i]);
            }
        }
        lemma_named_fixed(v, "delete"@);
    }
    if v == "."@ || v == ","@ {
        lemma_trim_plain(v);
        lemma_case_chars(v[0]);
        assert(lower_str(v) =~= v);
        assert(named_key(v) is None);
    }
    if v.len() == 0 {
        assert(trim(v) =~= v);
    }
}

/// Normalising a normalised key changes nothing.
pub proof fn law_normalize_key_idempotent(raw: Seq<char>)
    ensures
        normalize_key_spec(normalize_key_spec(raw)) == normalize_key_spec(raw),
{
    let out = normalize_key_spec(raw);
    let r = trim(raw);
    if r.len() == 0 {
        assert(trim(Seq::<char>::empty()) =~= Seq::<char>::empty());
        return;
    }
    lemma_trim_ends(raw);
    let l = lower_str(r);
    match named_key(l) {
        Some(v) => {
            lemma_named_values(l);
        },
        None => {
            if l.len() > 1 && l[0] == 'f' && all_digits(l.drop_first()) {
                let d = l.drop_first();
                assert(out == seq!['F'] + d);
                lemma_case_chars('F');
                assert(d.len() > 0);
                assert(!is_ws(d.last()));
                lemma_trim_plain(out);
                assert(lower_str(out) =~= l) by {
                    assert forall|i: int| 0 <= i < out.len() implies lower_str(out)[i] == l[i] by {
                        if i > 0 {
                            assert(is_digit(d[i - 1]));
                            lemma_case_chars(d[i - 1]);
                        }
                    }
                }
            } else {
                assert(out == seq![upper_char(r[0])] + r.drop_first());
                lemma_case_chars(r[0]);
                if out.len() > 1 {
                    assert(out.last() == r.last());
                } else {
                    assert(r.len() == 1);
                }
                lemma_trim_plain(out);
                assert(lower_str(out) =~= l) by {
                    assert forall|i: int| 0 <= i < out.len() implies lower_str(out)[i] == l[i] by {
                        if i == 0 {
                            assert(lower_char(upper_char(r[0])) == lower_char(r[0]));
                        } else {
                            assert(out[i] == r[i]);
                        }
                    }
                }
                assert(out[0] == upper_char(r[0]));
                assert(out.drop_first() =~= r.drop_first());
            }
        },
    }
}

/// Normalize one raw key token into a consistent display string; empty for the
/// unbound sentinels (`nul`, `unset`, empty).
pub fn normalize_key(raw: &str) -> (r: String)
    ensures
        r@ == normalize_key_spec(raw@),
{
    let rc = chars_of(raw);
    let v = normalize_key_chars(&rc);
    string_of(&v)
}

pub fn normalize_key_chars(raw: &Vec<char>) -> (r: Vec<char>)
    ensures
        r@ == normalize_key_spec(raw@),
{
    let r = trim_vec(raw);
    if r.len() == 0 {
        return r;
    }
    let l = lower_vec(&r);
    match named_key_exec(&l) {
        Some(v) => return v,
        None => {},
    }
    if l.len() > 1 && l[0] == 'f' {
        let rest = slice_of(&l, 1, l.len());
        let mut all = true;
        let mut i: usize = 0;
        while i < rest.len()
            invariant
                i <= rest.len(),
                all == (forall|j: int| 0 <= j < i ==> is_digit(#[trigger] rest@[j])),
            decreases rest.len() - i,
        {
            if !('0' <= rest[i] && rest[i] <= '9') {
                all = false;
            }
            i += 1;
        }
        proof {
            assert(rest@ =~= l@.drop_first());
        }
        if all {
            let mut out: Vec<char> = Vec::new();
            out.push('F');
            push_all(&mut out, &rest);
            return out;
        }
    }
    let mut out: Vec<char> = Vec::new();
    out.push(upper_char_exec(r[0]));
    let tail = slice_of(&r, 1, r.len());
    push_all(&mut out, &tail);
    proof {
        assert(out@ =~= seq![upper_char(r@[0])] + r@.drop_first());
    }
    out
}

// ── defaults ────────────────────────────────────────────────────────────────

pub open spec fn default_views(v: Seq<(HotkeyAction, &'static str)>) -> Seq<(HotkeyAction, Seq<char>)> {
    v.map_values(|p: (HotkeyAction, &'static str)| (p.0, p.1@))
}

pub open spec fn retroarch_defaults_spec() -> Seq<(HotkeyAction, Seq<char>)> {
    seq![(HotkeyAction::SaveState, "F2"@), (HotkeyAction::LoadState, "F4"@), (HotkeyAction::NextSlot, "F7"@), (HotkeyAction::PrevSlot, "F6"@), (HotkeyAction::Screenshot, "F8"@), (HotkeyAction::Pause, "P"@), (HotkeyAction::FastForwardHold, "L"@), (HotkeyAction::FastForwardToggle, "Space"@), (HotkeyAction::Rewind, "R"@), (HotkeyAction::ToggleMenu, "F1"@), (HotkeyAction::Exit, "Esc"@), (HotkeyAction::Reset, "H"@)]
}

/// Documented default keyboard hotkeys: RetroArch's stock `input_*` keys.
pub fn retroarch_defaults() -> (r: Vec<(HotkeyAction, &'static str)>)
    ensures
        default_views(r@) == retroarch_defaults_spec(),
{
    let r = vec![(HotkeyAction::SaveState, "F2"), (HotkeyAction::LoadState, "F4"), (HotkeyAction::NextSlot, "F7"), (HotkeyAction::PrevSlot, "F6"), (HotkeyAction::Screenshot, "F8"), (HotkeyAction::Pause, "P"), (HotkeyAction::FastForwardHold, "L"), (HotkeyAction::FastForwardToggle, "Space"), (HotkeyAction::Rewind, "R"), (HotkeyAction::ToggleMenu, "F1"), (HotkeyAction::Exit, "Esc"), (HotkeyAction::Reset, "H")];
    proof {
        assert(default_views(r@) =~= retroarch_defaults_spec());
    }
    r
}

pub open spec fn pcsx2_defaults_spec() -> Seq<(HotkeyAction, Seq<char>)> {
    seq![(HotkeyAction::SaveState, "F1"@), (HotkeyAction::LoadState, "F3"@), (HotkeyAction::NextSlot, "F2"@), (HotkeyAction::PrevSlot, "Shift + F2"@), (HotkeyAction::Screenshot, "F8"@), (HotkeyAction::Pause, "Space"@), (HotkeyAction::FastForwardHold, "."@), (HotkeyAction::FastForwardToggle, "Tab"@), (HotkeyAction::ToggleFullscreen, "Alt + Return"@), (HotkeyAction::ToggleMenu, "Esc"@)]
}

/// Documented default keyboard hotkeys: PCSX2 `[Hotkeys]` out of the box.
pub fn pcsx2_defaults() -> (r: Vec<(HotkeyAction, &'static str)>)
    ensures
        default_views(r@) == pcsx2_defaults_spec(),
{
    let r = vec![(HotkeyAction::SaveState, "F1"), (HotkeyAction::LoadState, "F3"), (HotkeyAction::NextSlot, "F2"), (HotkeyAction::PrevSlot, "Shift + F2"), (HotkeyAction::Screenshot, "F8"), (HotkeyAction::Pause, "Space"), (HotkeyAction::FastForwardHold, "."), (HotkeyAction::FastForwardToggle, "Tab"), (HotkeyAction::ToggleFullscreen, "Alt + Return"), (HotkeyAction::ToggleMenu, "Esc")];
    proof {
        assert(default_views(r@) =~= pcsx2_defaults_spec());
    }
    r
}

pub open spec fn duckstation_defaults_spec() -> Seq<(HotkeyAction, Seq<char>)> {
    seq![(HotkeyAction::SaveState, "F2"@), (HotkeyAction::LoadState, "F1"@), (HotkeyAction::NextSlot, "F4"@), (HotkeyAction::PrevSlot, "F3"@), (HotkeyAction::Screenshot, "F10"@), (HotkeyAction::Pause, "Space"@), (HotkeyAction::FastForwardHold, "Tab"@), (HotkeyAction::ToggleFullscreen, "F11"@), (HotkeyAction::ToggleMenu, "Esc"@)]
}

/// Documented default keyboard hotkeys: DuckStation `[Hotkeys]` out of the box.
pub fn duckstation_defaults() -> (r: Vec<(HotkeyAction, &'static str)>)
    ensures
        default_views(r@) == duckstation_defaults_spec(),
{
    let r = vec![(HotkeyAction::SaveState, "F2"), (HotkeyAction::LoadState, "F1"), (HotkeyAction::NextSlot, "F4"), (HotkeyAction::PrevSlot, "F3"), (HotkeyAction::Screenshot, "F10"), (HotkeyAction::Pause, "Space"), (HotkeyAction::FastForwardHold, "Tab"), (HotkeyAction::ToggleFullscreen, "F11"), (HotkeyAction::ToggleMenu, "Esc")];
    proof {
        assert(default_views(r@) =~= duckstation_defaults_spec());
    }
    r
}

pub open spec fn dolphin_defaults_spec() -> Seq<(HotkeyAction, Seq<char>)> {
    seq![(HotkeyAction::SaveState, "F5"@), (HotkeyAction::LoadState, "F7"@), (HotkeyAction::Screenshot, "F9"@), (HotkeyAction::Pause, "F10"@), (HotkeyAction::ToggleFullscreen, "Alt + Return"@), (HotkeyAction::Exit, "Esc"@)]
}

/// Documented default keyboard hotkeys: Dolphin `[Hotkeys]` out of the box (no next/prev slot hotkey by default).
pub fn dolphin_defaults() -> (r: Vec<(HotkeyAction, &'static str)>)
    ensures
        default_views(r@) == dolphin_defaults_spec(),
{
    let r = vec![(HotkeyAction::SaveState, "F5"), (HotkeyAction::LoadState, "F7"), (HotkeyAction::Screenshot, "F9"), (HotkeyAction::Pause, "F10"), (HotkeyAction::ToggleFullscreen, "Alt + Return"), (HotkeyAction::Exit, "Esc")];
    proof {
        assert(default_views(r@) =~= dolphin_defaults_spec());
    }
    r
}

pub open spec fn mupen_defaults_spec() -> Seq<(HotkeyAction, Seq<char>)> {
    seq![(HotkeyAction::SaveState, "F5"@), (HotkeyAction::LoadState, "F7"@), (HotkeyAction::Screenshot, "F12"@), (HotkeyAction::Pause, "P"@), (HotkeyAction::FastForwardHold, "F"@), (HotkeyAction::Reset, "F9"@), (HotkeyAction::Exit, "Esc"@)]
}

/// Documented default keyboard hotkeys: Mupen64Plus stock `[CoreEvents]` keysyms (increment-slot and fullscreen are unbound).
pub fn mupen_defaults() -> (r: Vec<(HotkeyAction, &'static str)>)
    ensures
        default_views(r@) == mupen_defaults_spec(),
{
    let r = vec![(HotkeyAction::SaveState, "F5"), (HotkeyAction::LoadState, "F7"), (HotkeyAction::Screenshot, "F12"), (HotkeyAction::Pause, "P"), (HotkeyAction::FastForwardHold, "F"), (HotkeyAction::Reset, "F9"), (HotkeyAction::Exit, "Esc")];
    proof {
        assert(default_views(r@) =~= mupen_defaults_spec());
    }
    r
}

pub open spec fn mednafen_defaults_spec() -> Seq<(HotkeyAction, Seq<char>)> {
    seq![(HotkeyAction::SaveState, "F5"@), (HotkeyAction::LoadState, "F7"@), (HotkeyAction::NextSlot, "="@), (HotkeyAction::PrevSlot, "-"@), (HotkeyAction::Screenshot, "F9"@), (HotkeyAction::Pause, "Pause"@), (HotkeyAction::FastForwardHold, "`"@), (HotkeyAction::Reset, "F10"@), (HotkeyAction::Exit, "F12"@)]
}

/// Documented default keyboard hotkeys: Mednafen stock `command.<action>` scancodes.
pub fn mednafen_defaults() -> (r: Vec<(HotkeyAction, &'static str)>)
    ensures
        default_views(r@) == mednafen_defaults_spec(),
{
    let r = vec![(HotkeyAction::SaveState, "F5"), (HotkeyAction::LoadState, "F7"), (HotkeyAction::NextSlot, "="), (HotkeyAction::PrevSlot, "-"), (HotkeyAction::Screenshot, "F9"), (HotkeyAction::Pause, "Pause"), (HotkeyAction::FastForwardHold, "`"), (HotkeyAction::Reset, "F10"), (HotkeyAction::Exit, "F12")];
    proof {
        assert(default_views(r@) =~= mednafen_defaults_spec());
    }
    r
}

pub open spec fn mgba_defaults_spec() -> Seq<(HotkeyAction, Seq<char>)> {
    seq![(HotkeyAction::SaveState, "Shift + F1"@), (HotkeyAction::LoadState, "F1"@)]
}

/// Documented default keyboard hotkeys: mGBA's headline slot-1 quick-state keys (its overrides are Qt keycodes, not read).
pub fn mgba_defaults() -> (r: Vec<(HotkeyAction, &'static str)>)
    ensures
        default_views(r@) == mgba_defaults_spec(),
{
    let r = vec![(HotkeyAction::SaveState, "Shift + F1"), (HotkeyAction::LoadState, "F1")];
    proof {
        assert(default_views(r@) =~= mgba_defaults_spec());
    }
    r
}


pub open spec fn hotkey_view(h: EmulatorHotkey) -> (HotkeyAction, Seq<char>, Seq<char>, bool, HotkeyDevice) {
    (h.action, h.label@, h.binding@, h.is_default, h.device)
}

/// One row of the overlay: the parsed binding wins, else the default flagged
/// `is_default`.
pub open spec fn overlay_row(d: (HotkeyAction, Seq<char>), parsed: Map<HotkeyAction, Seq<char>>) -> (
    HotkeyAction,
    Seq<char>,
    Seq<char>,
    bool,
    HotkeyDevice,
) {
    if parsed.contains_key(d.0) {
        (d.0, label_spec(d.0), parsed[d.0], false, HotkeyDevice::Keyboard)
    } else {
        (d.0, label_spec(d.0), d.1, true, HotkeyDevice::Keyboard)
    }
}

/// Overlay a parsed `action → binding` map onto an emulator's defaults table,
/// which fixes the action set and display order.
pub fn overlay_defaults(defaults: &Vec<(HotkeyAction, &'static str)>, parsed: &HotkeyMap) -> (r: Vec<
    EmulatorHotkey,
>)
    requires
        parsed.wf(),
    ensures
        r@.len() == defaults@.len(),
        forall|i: int|
            0 <= i < r@.len() ==> hotkey_view(#[trigger] r@[i]) == overlay_row(
                default_views(defaults@)[i],
                parsed.bindings(),
            ),
{
    let mut out: Vec<EmulatorHotkey> = Vec::new();
    let mut i: usize = 0;
    while i < defaults.len()
        invariant
            i <= defaults.len(),
            parsed.wf(),
            out@.len() == i,
            forall|j: int|
                0 <= j < i ==> hotkey_view(#[trigger] out@[j]) == overlay_row(
                    default_views(defaults@)[j],
                    parsed.bindings(),
                ),
        decreases defaults.len() - i,
    {
        let (action, default) = defaults[i];
        let (binding, is_default) = match parsed.get(&action) {
            Some(b) => (b.clone(), false),
            None => (string_of(&chars_of(default)), true),
        };
        let label = string_of(&chars_of(action.label()));
        out.push(
            EmulatorHotkey { action, label, binding, is_default, device: HotkeyDevice::Keyboard },
        );
        i += 1;
    }
    out
}

// ── numeric key spaces ──────────────────────────────────────────────────────

/// SDL keysym → display name (Mupen64Plus). `0` is unbound → empty; unmapped
/// codes render as `key <n>`.
pub open spec fn sdl_keysym_spec(code: u32) -> Seq<char> {
    if code == 0 {
        seq![]
    } else if code == 8 {
        "Backspace"@
    } else if code == 9 {
        "Tab"@
    } else if code == 13 {
        "Return"@
    } else if code == 27 {
        "Esc"@
    } else if code == 32 {
        "Space"@
    } else if code == 127 {
        "Delete"@
    } else if 282 <= code <= 293 {
        seq!['F'] + dec((code - 281) as nat)
    } else if 33 <= code <= 126 {
        seq![upper_char((code as u8) as char)]
    } else {
        "key "@ + dec(code as nat)
    }
}

pub fn sdl_keysym_name(code: u32) -> (r: String)
    ensures
        r@ == sdl_keysym_spec(code),
{
    let mut v: Vec<char> = Vec::new();
    if code == 0 {
    } else if code == 8 {
        push_str(&mut v, "Backspace");
    } else if code == 9 {
        push_str(&mut v, "Tab");
    } else if code == 13 {
        push_str(&mut v, "Return");
    } else if code == 27 {
        push_str(&mut v, "Esc");
    } else if code == 32 {
        push_str(&mut v, "Space");
    } else if code == 127 {
        push_str(&mut v, "Delete");
    } else if 282 <= code && code <= 293 {
        v.push('F');
        push_dec(&mut v, code - 281);
    } else if 33 <= code && code <= 126 {
        v.push(upper_char_exec((code as u8) as char));
    } else {
        push_str(&mut v, "key ");
        push_dec(&mut v, code);
    }
    proof {
        assert(v@ =~= sdl_keysym_spec(code));
    }
    string_of(&v)
}

/// The named SDL scancodes (punctuation and navigation keys).
pub open spec fn scancode_named(code: u32) -> Option<Seq<char>> {
    if code == 40 {
        Some("Return"@)
    } else if code == 41 {
        Some("Esc"@)
    } else if code == 42 {
        Some("Backspace"@)
    } else if code == 43 {
        Some("Tab"@)
    } else if code == 44 {
        Some("Space"@)
    } else if code == 45 {
        Some("-"@)
    } else if code == 46 {
        Some("="@)
    } else if code == 47 {
        Some("["@)
    } else if code == 48 {
        Some("]"@)
    } else if code == 49 {
        Some("\\"@)
    } else if code == 51 {
        Some(";"@)
    } else if code == 52 {
        Some("'"@)
    } else if code == 53 {
        Some("`"@)
    } else if code == 54 {
        Some(","@)
    } else if code == 55 {
        Some("."@)
    } else if code == 56 {
        Some("/"@)
    } else if code == 70 {
        Some("PrintScreen"@)
    } else if code == 71 {
        Some("ScrollLock"@)
    } else if code == 72 {
        Some("Pause"@)
    } else if code == 73 {
        Some("Insert"@)
    } else if code == 74 {
        Some("Home"@)
    } else if code == 75 {
        Some("PageUp"@)
    } else if code == 76 {
        Some("Delete"@)
    } else if code == 77 {
        Some("End"@)
    } else if code == 78 {
        Some("PageDown"@)
    } else if code == 79 {
        Some("Right"@)
    } else if code == 80 {
        Some("Left"@)
    } else if code == 81 {
        Some("Down"@)
    } else if code == 82 {
        Some("Up"@)
    } else {
        None
    }
}

fn scancode_named_exec(code: u32) -> (r: Option<&'static str>)
    ensures
        match r {
            Some(v) => scancode_named(code) == Some(v@),
            None => scancode_named(code) is None,
        },
{
    if code == 40 {
        Some("Return")
    } else if code == 41 {
        Some("Esc")
    } else if code == 42 {
        Some("Backspace")
    } else if code == 43 {
        Some("Tab")
    } else if code == 44 {
        Some("Space")
    } else if code == 45 {
        Some("-")
    } else if code == 46 {
        Some("=")
    } else if code == 47 {
        Some("[")
    } else if code == 48 {
        Some("]")
    } else if code == 49 {
        Some("\\")
    } else if code == 51 {
        Some(";")
    } else if code == 52 {
        Some("'")
    } else if code == 53 {
        Some("`")
    } else if code == 54 {
        Some(",")
    } else if code == 55 {
        Some(".")
    } else if code == 56 {
        Some("/")
    } else if code == 70 {
        Some("PrintScreen")
    } else if code == 71 {
        Some("ScrollLock")
    } else if code == 72 {
        Some("Pause")
    } else if code == 73 {
        Some("Insert")
    } else if code == 74 {
        Some("Home")
    } else if code == 75 {
        Some("PageUp")
    } else if code == 76 {
        Some("Delete")
    } else if code == 77 {
        Some("End")
    } else if code == 78 {
        Some("PageDown")
    } else if code == 79 {
        Some("Right")
    } else if code == 80 {
        Some("Left")
    } else if code == 81 {
        Some("Down")
    } else if code == 82 {
        Some("Up")
    } else {
        None
    }
}


/// SDL scancode → display name (Mednafen): letters `4`–`29`, digits `30`–`39`,
/// `F1`–`F12` at `58`–`69`, plus the named keys. `0` ⇒ empty.
pub open spec fn sdl_scancode_spec(code: u32) -> Seq<char> {
    if code == 0 {
        seq![]
    } else if 4 <= code <= 29 {
        seq![((65 + (code - 4)) as u8) as char]
    } else if 30 <= code <= 38 {
        seq![((49 + (code - 30)) as u8) as char]
    } else if code == 39 {
        "0"@
    } else if 58 <= code <= 69 {
        seq!['F'] + dec((code - 57) as nat)
    } else {
        match scancode_named(code) {
            Some(v) => v,
            None => "key "@ + dec(code as nat),
        }
    }
}

pub fn sdl_scancode_name(code: u32) -> (r: String)
    ensures
        r@ == sdl_scancode_spec(code),
{
    let mut v: Vec<char> = Vec::new();
    if code == 0 {
    } else if 4 <= code && code <= 29 {
        v.push(((65 + (code - 4)) as u8) as char);
    } else if 30 <= code && code <= 38 {
        v.push(((49 + (code - 30)) as u8) as char);
    } else if code == 39 {
        push_str(&mut v, "0");
    } else if 58 <= code && code <= 69 {
        v.push('F');
        push_dec(&mut v, code - 57);
    } else {
        match scancode_named_exec(code) {
            Some(s) => push_str(&mut v, s),
            None => {
                push_str(&mut v, "key ");
                push_dec(&mut v, code);
            },
        }
    }
    proof {
        assert(v@ =~= sdl_scancode_spec(code));
    }
    string_of(&v)
}

} // verus!
