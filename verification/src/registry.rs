//! The emulator registry's rules: which installed emulator launches a
//! platform (the user's pinned default while it is still installed, then the
//! platform's preferred adapter, then any adapter that advertises the
//! platform), which emulators the settings panel offers per platform, and
//! how updates are surfaced. Detection and storage happen at the edges.
use vstd::prelude::*;
use crate::adapters::{find_adapter, AdapterRegistry};
use crate::models::{install_source_of, Emulator, InstallSource};
use crate::platforms::{by_id, catalogue, def_views, find_by_id, platforms, PlatformView};
use crate::adapters::owned;
use crate::text::{chars_of, eq_vec, string_of};

verus! {

/// The installed emulators able to launch one platform, with the user's
/// configured default for it.
#[derive(Debug, Clone)]
pub struct PlatformEmulators {
    /// Platform slug.
    pub platform: String,
    /// Human-readable platform name.
    pub name: String,
    /// Adapter id preferred for the platform when no default is set.
    pub hint_adapter_id: String,
    /// The user's chosen default emulator id, if any.
    pub default_emulator_id: Option<String>,
    /// Installed emulators whose adapter advertises this platform.
    pub emulators: Vec<Emulator>,
}

/// The adapter registered under `adapter_id` lists `platform`.
pub open spec fn advertises(reg: Seq<crate::adapters::AdapterView>, adapter_id: Seq<char>, platform: Seq<char>) -> bool {
    match find_adapter(reg, adapter_id) {
        Some(d) => d.1.contains(platform),
        None => false,
    }
}

/// Index of the first emulator satisfying `p`, or -1.
pub open spec fn first_emulator(es: Seq<Emulator>, p: spec_fn(Emulator) -> bool) -> int
    decreases es.len(),
{
    if es.len() == 0 {
        -1
    } else {
        let k = first_emulator(es.drop_last(), p);
        if k >= 0 {
            k
        } else if p(es.last()) {
            es.len() - 1
        } else {
            -1
        }
    }
}

proof fn lemma_first_emulator(es: Seq<Emulator>, p: spec_fn(Emulator) -> bool)
    ensures
        -1 <= first_emulator(es, p) < es.len(),
        first_emulator(es, p) >= 0 ==> p(es[first_emulator(es, p)]),
        first_emulator(es, p) >= 0 ==> forall|j: int| 0 <= j < first_emulator(es, p) ==> !p(#[trigger] es[j]),
        first_emulator(es, p) == -1 ==> forall|j: int| 0 <= j < es.len() ==> !p(#[trigger] es[j]),
    decreases es.len(),
{
    if es.len() > 0 {
        let t = es.drop_last();
        lemma_first_emulator(t, p);
        assert forall|j: int| 0 <= j < t.len() implies #[trigger] es[j] == t[j] by {}
    }
}

proof fn lemma_first_emulator_at(es: Seq<Emulator>, p: spec_fn(Emulator) -> bool, i: int)
    requires
        0 <= i < es.len(),
        p(es[i]),
        forall|j: int| 0 <= j < i ==> !p(#[trigger] es[j]),
    ensures
        first_emulator(es, p) == i,
{
    lemma_first_emulator(es, p);
    let k = first_emulator(es, p);
    if k != i {
        if k >= 0 && k < i {
            assert(!p(es[k]));
        } else {
            assert(!p(es[i]));
        }
    }
}

pub open spec fn has_id(e: Emulator, id: Seq<char>) -> bool {
    e.id@ == id
}

pub open spec fn of_adapter(e: Emulator, a: Seq<char>) -> bool {
    e.adapter_id@ == a
}

/// Index of the first emulator with id `id`, or -1.
pub open spec fn with_id(es: Seq<Emulator>, id: Seq<char>) -> int {
    first_emulator(es, |e: Emulator| has_id(e, id))
}

/// Index of the first emulator of adapter `a`, or -1.
pub open spec fn with_adapter(es: Seq<Emulator>, a: Seq<char>) -> int {
    first_emulator(es, |e: Emulator| of_adapter(e, a))
}

/// Index of the first emulator whose adapter advertises `platform`, or -1.
pub open spec fn advertising(es: Seq<Emulator>, reg: Seq<crate::adapters::AdapterView>, platform: Seq<char>) -> int {
    first_emulator(es, |e: Emulator| advertises(reg, e.adapter_id@, platform))
}

/// The emulator that launches `platform`: the user's default while it is
/// still installed, else the first installed emulator of the platform's
/// preferred adapter, else the first whose adapter advertises the platform.
pub open spec fn pick_spec(
    es: Seq<Emulator>,
    platform: Seq<char>,
    default_id: Option<Seq<char>>,
    reg: Seq<crate::adapters::AdapterView>,
) -> int {
    let d = match default_id {
        Some(id) => with_id(es, id),
        None => -1,
    };
    let h = match find_by_id(catalogue(), platform) {
        Some(p) => with_adapter(es, p.adapter_hint),
        None => -1,
    };
    if d >= 0 {
        d
    } else if h >= 0 {
        h
    } else {
        advertising(es, reg, platform)
    }
}

fn first_with_id(es: &Vec<Emulator>, id: &Vec<char>) -> (r: Option<usize>)
    ensures
        match r {
            Some(i) => with_id(es@, id@) == i,
            None => with_id(es@, id@) == -1,
        },
{
    let ghost p = |e: Emulator| has_id(e, id@);
    let mut i: usize = 0;
    while i < es.len()
        invariant
            i <= es.len(),
            p == (|e: Emulator| has_id(e, id@)),
            forall|j: int| 0 <= j < i ==> !p(#[trigger] es@[j]),
        decreases es.len() - i,
    {
        if eq_vec(&chars_of(es[i].id.as_str()), id) {
            proof {
                lemma_first_emulator_at(es@, p, i as int);
            }
            return Some(i);
        }
        i += 1;
    }
    proof {
        lemma_first_emulator(es@, p);
    }
    None
}

fn first_with_adapter(es: &Vec<Emulator>, adapter: &Vec<char>) -> (r: Option<usize>)
    ensures
        match r {
            Some(i) => with_adapter(es@, adapter@) == i,
            None => with_adapter(es@, adapter@) == -1,
        },
{
    let ghost p = |e: Emulator| of_adapter(e, adapter@);
    let mut i: usize = 0;
    while i < es.len()
        invariant
            i <= es.len(),
            p == (|e: Emulator| of_adapter(e, adapter@)),
            forall|j: int| 0 <= j < i ==> !p(#[trigger] es@[j]),
        decreases es.len() - i,
    {
        if eq_vec(&chars_of(es[i].adapter_id.as_str()), adapter) {
            proof {
                lemma_first_emulator_at(es@, p, i as int);
            }
            return Some(i);
        }
        i += 1;
    }
    proof {
        lemma_first_emulator(es@, p);
    }
    None
}

/// Whether the adapter registered as `adapter_id` lists `platform`.
fn advertises_exec(reg: &AdapterRegistry, adapter_id: &str, platform: &Vec<char>) -> (b: bool)
    ensures
        b == advertises(reg@, adapter_id@, platform@),
{
    match reg.get(adapter_id) {
        Some(d) => {
            let ghost dv = crate::adapters::descriptor_view(d);
            let mut i: usize = 0;
            while i < d.platforms.len()
                invariant
                    i <= d.platforms.len(),
                    dv == crate::adapters::descriptor_view(d),
                    find_adapter(reg@, adapter_id@) == Some(dv),
                    forall|j: int| 0 <= j < i ==> dv.1[j] != platform@,
                decreases d.platforms.len() - i,
            {
                proof {
                    assert(dv.1[i as int] == d.platforms@[i as int]@);
                }
                if eq_vec(&chars_of(d.platforms[i].as_str()), platform) {
                    proof {
                        assert(dv.1[i as int] == platform@);
                        assert(dv.1.contains(platform@));
                    }
                    return true;
                }
                i += 1;
            }
            proof {
                assert(dv.1.len() == d.platforms@.len());
                assert(!dv.1.contains(platform@));
            }
            false
        },
        None => false,
    }
}

fn first_advertising(es: &Vec<Emulator>, reg: &AdapterRegistry, platform: &str) -> (r: Option<usize>)
    ensures
        match r {
            Some(i) => advertising(es@, reg@, platform@) == i,
            None => advertising(es@, reg@, platform@) == -1,
        },
{
    let pv = chars_of(platform);
    let ghost p = |e: Emulator| advertises(reg@, e.adapter_id@, platform@);
    let mut i: usize = 0;
    while i < es.len()
        invariant
            i <= es.len(),
            pv@ == platform@,
            p == (|e: Emulator| advertises(reg@, e.adapter_id@, platform@)),
            forall|j: int| 0 <= j < i ==> !p(#[trigger] es@[j]),
        decreases es.len() - i,
    {
        if advertises_exec(reg, es[i].adapter_id.as_str(), &pv) {
            proof {
                lemma_first_emulator_at(es@, p, i as int);
            }
            return Some(i);
        }
        i += 1;
    }
    proof {
        lemma_first_emulator(es@, p);
    }
    None
}

proof fn lemma_with_id(es: Seq<Emulator>, id: Seq<char>)
    ensures
        -1 <= with_id(es, id) < es.len(),
        with_id(es, id) >= 0 ==> es[with_id(es, id)].id@ == id,
{
    lemma_first_emulator(es, |e: Emulator| has_id(e, id));
}

proof fn lemma_with_adapter(es: Seq<Emulator>, a: Seq<char>)
    ensures
        -1 <= with_adapter(es, a) < es.len(),
{
    lemma_first_emulator(es, |e: Emulator| of_adapter(e, a));
}

proof fn lemma_advertising(es: Seq<Emulator>, reg: Seq<crate::adapters::AdapterView>, platform: Seq<char>)
    ensures
        -1 <= advertising(es, reg, platform) < es.len(),
{
    lemma_first_emulator(es, |e: Emulator| advertises(reg, e.adapter_id@, platform));
}

/// A pinned default that is no longer installed is ignored: the choice is
/// the one made with no default; one that is installed is chosen.
pub proof fn law_stale_default_defers(
    es: Seq<Emulator>,
    platform: Seq<char>,
    id: Seq<char>,
    reg: Seq<crate::adapters::AdapterView>,
)
    ensures
        with_id(es, id) == -1 ==> pick_spec(es, platform, Some(id), reg) == pick_spec(es, platform, None, reg),
        with_id(es, id) >= 0 ==> es[pick_spec(es, platform, Some(id), reg)].id@ == id,
{
    lemma_with_id(es, id);
}

/// The choice is an installed emulator (an index into the list) or none.
pub proof fn law_pick_is_installed(
    es: Seq<Emulator>,
    platform: Seq<char>,
    default_id: Option<Seq<char>>,
    reg: Seq<crate::adapters::AdapterView>,
)
    ensures
        -1 <= pick_spec(es, platform, default_id, reg) < es.len(),
{
    match default_id {
        Some(id) => lemma_with_id(es, id),
        None => {},
    }
    match find_by_id(catalogue(), platform) {
        Some(p) => lemma_with_adapter(es, p.adapter_hint),
        None => {},
    }
    lemma_advertising(es, reg, platform);
}

/// Which installed emulator launches `platform` (its index), or `None`.
pub fn pick_emulator(installed: &Vec<Emulator>, platform: &str, default_id: Option<&str>, reg: &AdapterRegistry) -> (r:
    Option<usize>)
    ensures
        match r {
            Some(i) => pick_spec(
                installed@,
                platform@,
                match default_id { Some(d) => Some(d@), None => None },
                reg@,
            ) == i,
            None => pick_spec(
                installed@,
                platform@,
                match default_id { Some(d) => Some(d@), None => None },
                reg@,
            ) == -1,
        },
{
    match default_id {
        Some(id) => match first_with_id(installed, &chars_of(id)) {
            Some(i) => return Some(i),
            None => {},
        },
        None => {},
    }
    match by_id(platform) {
        Some(def) => {
            let found = first_with_adapter(installed, &chars_of(def.adapter_hint));
            proof {
                assert(find_by_id(catalogue(), platform@)->0.adapter_hint == def.adapter_hint@);
            }
            match found {
                Some(i) => return Some(i),
                None => {},
            }
        },
        None => {},
    }
    first_advertising(installed, reg, platform)
}


/// An emulator record as plain values.
pub type EmulatorView = (
    Seq<char>,
    Seq<char>,
    Option<Seq<char>>,
    Seq<char>,
    Seq<char>,
    Seq<char>,
    Seq<char>,
    (bool, bool, bool, bool),
    Seq<char>,
);

pub open spec fn opt_string(o: Option<String>) -> Option<Seq<char>> {
    match o {
        Some(s) => Some(s@),
        None => None,
    }
}

pub open spec fn emulator_view(e: Emulator) -> EmulatorView {
    (
        e.id@,
        e.name@,
        opt_string(e.version),
        e.install_source@,
        e.owner@,
        e.executable_path@,
        e.adapter_id@,
        (e.supports_savestates, e.supports_saves, e.supports_achievements, e.supports_screenshots),
        e.detected_at@,
    )
}

fn dup_emulator(e: &Emulator) -> (r: Emulator)
    ensures
        emulator_view(r) == emulator_view(*e),
{
    Emulator {
        id: owned(e.id.as_str()),
        name: owned(e.name.as_str()),
        version: match &e.version {
            Some(v) => Some(owned(v.as_str())),
            None => None,
        },
        install_source: owned(e.install_source.as_str()),
        owner: owned(e.owner.as_str()),
        executable_path: owned(e.executable_path.as_str()),
        adapter_id: owned(e.adapter_id.as_str()),
        supports_savestates: e.supports_savestates,
        supports_saves: e.supports_saves,
        supports_achievements: e.supports_achievements,
        supports_screenshots: e.supports_screenshots,
        detected_at: owned(e.detected_at.as_str()),
    }
}

/// The value of the first pair with key `k`.
pub open spec fn lookup(pairs: Seq<(Seq<char>, Seq<char>)>, k: Seq<char>) -> Option<Seq<char>>
    decreases pairs.len(),
{
    if pairs.len() == 0 {
        None
    } else if pairs[0].0 == k {
        Some(pairs[0].1)
    } else {
        lookup(pairs.drop_first(), k)
    }
}

fn lookup_exec(pairs: &Vec<(String, String)>, k: &str) -> (r: Option<String>)
    ensures
        opt_string(r) == lookup(pairs@.map_values(|p: (String, String)| (p.0@, p.1@)), k@),
{
    let ghost pv = pairs@.map_values(|p: (String, String)| (p.0@, p.1@));
    let kc = chars_of(k);
    let mut i: usize = 0;
    proof {
        assert(pv.skip(0) =~= pv);
    }
    while i < pairs.len()
        invariant
            i <= pairs.len(),
            pv == pairs@.map_values(|p: (String, String)| (p.0@, p.1@)),
            kc@ == k@,
            lookup(pv, k@) == lookup(pv.skip(i as int), k@),
        decreases pairs.len() - i,
    {
        proof {
            assert(pv.skip(i as int)[0] == (pairs@[i as int].0@, pairs@[i as int].1@));
            assert(pv.skip(i as int).drop_first() =~= pv.skip(i as int + 1));
        }
        if eq_vec(&chars_of(pairs[i].0.as_str()), &kc) {
            return Some(owned(pairs[i].1.as_str()));
        }
        i += 1;
    }
    proof {
        assert(pv.skip(pairs.len() as int) =~= Seq::<(Seq<char>, Seq<char>)>::empty());
    }
    None
}

/// One platform's row as plain values: (id, name, preferred adapter,
/// default emulator id, the emulators offered).
pub type OptionsView = (Seq<char>, Seq<char>, Seq<char>, Option<Seq<char>>, Seq<EmulatorView>);

/// The emulators whose adapter advertises `platform`, in registry order.
pub open spec fn able(es: Seq<Emulator>, reg: Seq<crate::adapters::AdapterView>, platform: Seq<char>) -> Seq<Emulator> {
    es.filter(|e: Emulator| advertises(reg, e.adapter_id@, platform))
}

/// For each platform, in order, that some installed emulator can launch:
/// the platform, its preferred adapter, the user's default for it, and the
/// emulators able to launch it.
pub open spec fn options_over(
    ps: Seq<PlatformView>,
    es: Seq<Emulator>,
    reg: Seq<crate::adapters::AdapterView>,
    defaults: Seq<(Seq<char>, Seq<char>)>,
) -> Seq<OptionsView>
    decreases ps.len(),
{
    if ps.len() == 0 {
        seq![]
    } else {
        let prev = options_over(ps.drop_last(), es, reg, defaults);
        let p = ps.last();
        let a = able(es, reg, p.id);
        if a.len() == 0 {
            prev
        } else {
            prev.push((p.id, p.name, p.adapter_hint, lookup(defaults, p.id), a.map_values(|e: Emulator| emulator_view(e))))
        }
    }
}

pub open spec fn options_view(o: PlatformEmulators) -> OptionsView {
    (
        o.platform@,
        o.name@,
        o.hint_adapter_id@,
        opt_string(o.default_emulator_id),
        o.emulators@.map_values(|e: Emulator| emulator_view(e)),
    )
}

/// The emulators able to launch `platform`, copied in order.
fn able_exec(es: &Vec<Emulator>, reg: &AdapterRegistry, platform: &str) -> (r: Vec<Emulator>)
    ensures
        r@.map_values(|e: Emulator| emulator_view(e)) == able(es@, reg@, platform@).map_values(
            |e: Emulator| emulator_view(e),
        ),
{
    let pv = chars_of(platform);
    let ghost pred = |e: Emulator| advertises(reg@, e.adapter_id@, platform@);
    let mut out: Vec<Emulator> = Vec::new();
    let mut j: usize = 0;
    proof {
        assert(es@.take(0) =~= Seq::<Emulator>::empty());
        assert(es@.take(0).filter(pred) =~= Seq::<Emulator>::empty()) by {
            reveal(Seq::filter);
        }
    }
    while j < es.len()
        invariant
            j <= es.len(),
            pv@ == platform@,
            pred == (|e: Emulator| advertises(reg@, e.adapter_id@, platform@)),
            out@.map_values(|e: Emulator| emulator_view(e)) == es@.take(j as int).filter(pred).map_values(
                |e: Emulator| emulator_view(e),
            ),
        decreases es.len() - j,
    {
        proof {
            assert(es@.take(j as int + 1) =~= es@.take(j as int).push(es@[j as int]));
            es@.take(j as int).lemma_filter_push(es@[j as int], pred);
        }
        if advertises_exec(reg, es[j].adapter_id.as_str(), &pv) {
            let ghost before = out@;
            let d = dup_emulator(&es[j]);
            out.push(d);
            proof {
                assert(out@.map_values(|e: Emulator| emulator_view(e)) =~= before.map_values(
                    |e: Emulator| emulator_view(e),
                ).push(emulator_view(es@[j as int])));
                assert(es@.take(j as int).filter(pred).push(es@[j as int]).map_values(
                    |e: Emulator| emulator_view(e),
                ) =~= es@.take(j as int).filter(pred).map_values(|e: Emulator| emulator_view(e)).push(
                    emulator_view(es@[j as int]),
                ));
            }
        }
        j += 1;
    }
    proof {
        assert(es@.take(es.len() as int) =~= es@);
    }
    out
}

/// The settings panel's rows: for each catalogued platform some installed
/// emulator can launch, those emulators and the user's default
/// (`defaults` holds the configured (platform, emulator id) pairs).
pub fn platform_emulator_options(installed: &Vec<Emulator>, reg: &AdapterRegistry, defaults: &Vec<(String, String)>) -> (r:
    Vec<PlatformEmulators>)
    ensures
        r@.map_values(|o: PlatformEmulators| options_view(o)) == options_over(
            catalogue(),
            installed@,
            reg@,
            defaults@.map_values(|p: (String, String)| (p.0@, p.1@)),
        ),
{
    let ps = platforms();
    let ghost cat = catalogue();
    let ghost dv = defaults@.map_values(|p: (String, String)| (p.0@, p.1@));
    let mut out: Vec<PlatformEmulators> = Vec::new();
    let mut i: usize = 0;
    proof {
        assert(cat.take(0) =~= Seq::<PlatformView>::empty());
        assert(out@.map_values(|o: PlatformEmulators| options_view(o)) =~= Seq::<OptionsView>::empty());
    }
    while i < ps.len()
        invariant
            i <= ps.len(),
            def_views(ps@) == cat,
            cat == catalogue(),
            dv == defaults@.map_values(|p: (String, String)| (p.0@, p.1@)),
            out@.map_values(|o: PlatformEmulators| options_view(o)) == options_over(
                cat.take(i as int),
                installed@,
                reg@,
                dv,
            ),
        decreases ps.len() - i,
    {
        let def = &ps[i];
        proof {
            assert(cat.take(i as int + 1).drop_last() =~= cat.take(i as int));
            assert(cat.take(i as int + 1).last() == cat[i as int]);
            assert(cat[i as int] == ps@[i as int]@);
        }
        let ems = able_exec(installed, reg, def.id);
        if ems.len() > 0 {
            let ghost before = out@;
            let row = PlatformEmulators {
                platform: owned(def.id),
                name: owned(def.name),
                hint_adapter_id: owned(def.adapter_hint),
                default_emulator_id: lookup_exec(defaults, def.id),
                emulators: ems,
            };
            proof {
                let a = able(installed@, reg@, def.id@);
                assert(ems@.map_values(|e: Emulator| emulator_view(e)).len() == ems@.len());
                assert(a.map_values(|e: Emulator| emulator_view(e)).len() == a.len());
                assert(a.len() > 0);
                assert(options_view(row) == (cat[i as int].id, cat[i as int].name, cat[i as int].adapter_hint, lookup(dv, cat[i as int].id), a.map_values(|e: Emulator| emulator_view(e))));
            }
            out.push(row);
            proof {
                assert(out@.map_values(|o: PlatformEmulators| options_view(o)) =~= before.map_values(
                    |o: PlatformEmulators| options_view(o),
                ).push(options_view(row)));
            }
        } else {
            proof {
                let a = able(installed@, reg@, def.id@);
                assert(ems@.map_values(|e: Emulator| emulator_view(e)).len() == ems@.len());
                assert(a.map_values(|e: Emulator| emulator_view(e)).len() == a.len());
                assert(a.len() == 0);
            }
        }
        i += 1;
    }
    proof {
        assert(cat.take(ps.len() as int) =~= cat);
    }
    out
}

/// What the user is told to run to update an emulator the app does not own:
/// the package manager's upgrade for pacman, yay and Flatpak installs;
/// nothing for AppImages, manual installs and app-managed ones.
pub open spec fn update_hint_spec(source: InstallSource) -> Option<Seq<char>> {
    match source {
        InstallSource::Pacman => Some("sudo pacman -Syu"@),
        InstallSource::Yay => Some("yay -Syu"@),
        InstallSource::Flatpak => Some("flatpak update"@),
        _ => None,
    }
}

/// The update command to show for an emulator, if any.
pub fn update_hint(emulator: &Emulator) -> (r: Option<String>)
    ensures
        opt_string(r) == update_hint_spec(install_source_of(emulator.install_source@)),
{
    match InstallSource::from_str(emulator.install_source.as_str()) {
        InstallSource::Pacman => Some(owned("sudo pacman -Syu")),
        InstallSource::Yay => Some(owned("yay -Syu")),
        InstallSource::Flatpak => Some(owned("flatpak update")),
        _ => None,
    }
}

} // verus!
