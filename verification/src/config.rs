//! User-owned configuration: credentials for online services, controller
//! profiles, sync settings and per-platform emulator preferences. Loading and
//! saving the JSON file happens at the application edge.
use vstd::prelude::*;
use crate::text::{chars_of, eq_vec, string_of, trim, trim_vec};

verus! {

/// The whole persisted configuration.
#[derive(Debug, Clone, Default)]
pub struct AppConfig {
    pub screenscraper: ScreenScraperCredentials,
    pub retroachievements: RetroAchievementsCredentials,
    pub controller: ControllerConfig,
    pub sync: SyncConfig,
    /// Ids of community plugins the user has explicitly enabled.
    pub enabled_plugins: Vec<String>,
    /// Preferred emulator per platform id.
    pub default_emulators: std::collections::BTreeMap<String, String>,
}

/// Text that is not only white space.
pub open spec fn present(s: Seq<char>) -> bool {
    trim(s).len() > 0
}

fn present_exec(s: &String) -> (b: bool)
    ensures
        b == present(s@),
{
    let c = chars_of(s.as_str());
    trim_vec(&c).len() > 0
}

/// RetroAchievements web-API credentials (username + personal Web API key).
#[derive(Debug, Clone, Default)]
pub struct RetroAchievementsCredentials {
    pub username: String,
    pub api_key: String,
}

impl RetroAchievementsCredentials {
    pub fn is_configured(&self) -> (b: bool)
        ensures
            b == (present(self.username@) && present(self.api_key@)),
    {
        present_exec(&self.username) && present_exec(&self.api_key)
    }
}

/// User-defined controller button-mapping profiles.
#[derive(Debug, Clone, Default)]
pub struct ControllerConfig {
    pub profiles: Vec<ControllerProfile>,
    /// Id of the active profile, if any.
    pub active_profile: Option<String>,
    /// Policy for the SDL-HIDAPI launch workaround.
    pub sdl_hidapi_workaround: HidapiWorkaround,
}

/// When to force SDL's classic joystick backend for SDL-input emulators.
#[derive(Debug, Clone, Copy, PartialEq, Eq, Default, Structural)]
pub enum HidapiWorkaround {
    /// Apply only when an xpadneo-driven controller is currently connected.
    #[default]
    Auto,
    /// Always apply for SDL-input emulators.
    Force,
    /// Never apply.
    Off,
}

#[derive(Debug, Clone, Default)]
pub struct ControllerProfile {
    pub id: String,
    pub name: String,
    /// Logical action → physical button label.
    pub bindings: std::collections::BTreeMap<String, String>,
}

/// Cloud-sync settings: a folder an external tool keeps in sync.
#[derive(Debug, Clone, Default)]
pub struct SyncConfig {
    pub enabled: bool,
    /// Absolute path to the externally-synced folder, if configured.
    pub folder: Option<String>,
}

impl SyncConfig {
    pub fn is_configured(&self) -> (b: bool)
        ensures
            b == (self.enabled && match self.folder {
                Some(f) => present(f@),
                None => false,
            }),
    {
        self.enabled && match &self.folder {
            Some(f) => present_exec(f),
            None => false,
        }
    }
}

/// ScreenScraper API credentials (developer id/password mandatory, user
/// account optional).
#[derive(Debug, Clone, Default)]
pub struct ScreenScraperCredentials {
    pub dev_id: String,
    pub dev_password: String,
    pub user_id: String,
    pub user_password: String,
}

impl ScreenScraperCredentials {
    /// Usable only if the mandatory developer credentials are present.
    pub fn is_configured(&self) -> (b: bool)
        ensures
            b == (present(self.dev_id@) && present(self.dev_password@)),
    {
        present_exec(&self.dev_id) && present_exec(&self.dev_password)
    }
}

/// The config file's name inside the config directory.
pub const CONFIG_FILE: &'static str = "config.json";

impl AppConfig {
    /// `<config_dir>/config.json`.
    pub fn file_path(config_dir: &str) -> (r: String)
        ensures
            r@ == crate::paths::join_rel(config_dir@, "config.json"@),
    {
        crate::paths::join_path(config_dir, CONFIG_FILE)
    }
}


// ── editing controller profiles ────────────────────────────────────────────

/// Why a controller-profile edit is refused.
#[derive(Debug, Clone, Copy, PartialEq, Eq, Structural)]
pub enum ProfileRefusal {
    /// A profile needs a name that is not only white space.
    NoName,
    /// No profile has the given id.
    NotFound,
}

/// Index of the first profile with id `id`, or -1.
pub open spec fn find_profile(ps: Seq<ControllerProfile>, id: Seq<char>) -> int
    decreases ps.len(),
{
    if ps.len() == 0 {
        -1
    } else {
        let k = find_profile(ps.drop_last(), id);
        if k >= 0 {
            k
        } else if ps.last().id@ == id {
            ps.len() - 1
        } else {
            -1
        }
    }
}

proof fn lemma_find_profile(ps: Seq<ControllerProfile>, id: Seq<char>)
    ensures
        -1 <= find_profile(ps, id) < ps.len(),
        find_profile(ps, id) >= 0 ==> ps[find_profile(ps, id)].id@ == id,
        find_profile(ps, id) >= 0 ==> forall|j: int| 0 <= j < find_profile(ps, id) ==> ps[j].id@ != id,
        find_profile(ps, id) == -1 ==> forall|j: int| 0 <= j < ps.len() ==> ps[j].id@ != id,
    decreases ps.len(),
{
    if ps.len() > 0 {
        let t = ps.drop_last();
        lemma_find_profile(t, id);
        assert forall|j: int| 0 <= j < t.len() implies #[trigger] ps[j] == t[j] by {}
        if find_profile(t, id) == -1 && ps.last().id@ != id {
            assert forall|j: int| 0 <= j < ps.len() implies ps[j].id@ != id by {
                if j < t.len() {
                    assert(ps[j] == t[j]);
                }
            }
        }
        if find_profile(ps, id) >= 0 {
            assert forall|j: int| 0 <= j < find_profile(ps, id) implies ps[j].id@ != id by {
                assert(ps[j] == t[j]);
            }
        }
    }
}

fn find_profile_exec(ps: &Vec<ControllerProfile>, id: &Vec<char>) -> (r: Option<usize>)
    ensures
        match r {
            Some(i) => find_profile(ps@, id@) == i,
            None => find_profile(ps@, id@) == -1,
        },
{
    let mut i: usize = 0;
    while i < ps.len()
        invariant
            i <= ps.len(),
            forall|j: int| 0 <= j < i ==> ps@[j].id@ != id@,
        decreases ps.len() - i,
    {
        if eq_vec(&chars_of(ps[i].id.as_str()), id) {
            proof {
                lemma_find_profile(ps@, id@);
                assert(ps@.take(i as int + 1).drop_last() =~= ps@.take(i as int));
                lemma_find_first_at(ps@, id@, i as int);
            }
            return Some(i);
        }
        i += 1;
    }
    proof {
        lemma_find_profile(ps@, id@);
        if find_profile(ps@, id@) >= 0 {
            assert(ps@[find_profile(ps@, id@)].id@ == id@);
        }
    }
    None
}

proof fn lemma_find_first_at(ps: Seq<ControllerProfile>, id: Seq<char>, i: int)
    requires
        0 <= i < ps.len(),
        ps[i].id@ == id,
        forall|j: int| 0 <= j < i ==> ps[j].id@ != id,
    ensures
        find_profile(ps, id) == i,
    decreases ps.len(),
{
    lemma_find_profile(ps, id);
    if find_profile(ps, id) >= 0 && find_profile(ps, id) != i {
        if find_profile(ps, id) < i {
            assert(ps[find_profile(ps, id)].id@ != id);
        } else {
            assert(ps[i].id@ != id);
        }
    }
}

/// The active profile, if any, is one of the saved profiles.
pub open spec fn active_known(c: ControllerConfig) -> bool {
    match c.active_profile {
        Some(a) => find_profile(c.profiles@, a@) >= 0,
        None => true,
    }
}

/// A profile with the id is found.
proof fn lemma_found(ps: Seq<ControllerProfile>, id: Seq<char>, j: int)
    requires
        0 <= j < ps.len(),
        ps[j].id@ == id,
    ensures
        find_profile(ps, id) >= 0,
{
    lemma_find_profile(ps, id);
}

impl ControllerConfig {
    /// Saves a profile: refused without a name; a profile without an id gets
    /// `fresh_id`; it replaces the profile with the same id, else is appended.
    /// Returns where it now stands.
    pub fn save_profile(&mut self, profile: ControllerProfile, fresh_id: &str) -> (r: Result<usize, ProfileRefusal>)
        ensures
            !present(profile.name@) ==> r == Err::<usize, ProfileRefusal>(ProfileRefusal::NoName)
                && *final(self) == *old(self),
            present(profile.name@) ==> r is Ok && ({
                let id = if present(profile.id@) {
                    profile.id@
                } else {
                    fresh_id@
                };
                let k = find_profile(old(self).profiles@, id);
                let i = r->Ok_0 as int;
                &&& final(self).profiles@[i].id@ == id
                &&& final(self).profiles@[i].name == profile.name
                &&& final(self).profiles@[i].bindings == profile.bindings
                &&& (if k >= 0 {
                    i == k && final(self).profiles@.len() == old(self).profiles@.len()
                } else {
                    i == old(self).profiles@.len() && final(self).profiles@.len() == old(self).profiles@.len() + 1
                })
                &&& forall|j: int|
                    0 <= j < old(self).profiles@.len() && j != i ==> final(self).profiles@[j]
                        == old(self).profiles@[j]
                &&& final(self).active_profile == old(self).active_profile
                &&& final(self).sdl_hidapi_workaround == old(self).sdl_hidapi_workaround
            }),
            active_known(*old(self)) ==> active_known(*final(self)),
    {
        if !present_exec(&profile.name) {
            return Err(ProfileRefusal::NoName);
        }
        let mut p = profile;
        if !present_exec(&p.id) {
            p.id = string_of(&chars_of(fresh_id));
        }
        proof {
            lemma_find_profile(self.profiles@, p.id@);
        }
        let ghost before = *self;
        let r = match find_profile_exec(&self.profiles, &chars_of(p.id.as_str())) {
            Some(i) => {
                self.profiles.set(i, p);
                Ok(i)
            },
            None => {
                let n = self.profiles.len();
                self.profiles.push(p);
                Ok(n)
            },
        };
        proof {
            if active_known(before) {
                match before.active_profile {
                    Some(a) => {
                        lemma_find_profile(before.profiles@, a@);
                        let k = find_profile(before.profiles@, a@);
                        assert(self.profiles@[k].id@ == a@);
                        lemma_found(self.profiles@, a@, k);
                    },
                    None => {},
                }
            }
        }
        r
    }

    /// Deletes every profile with `id`, clearing the active profile when it
    /// was that one.
    pub fn delete_profile(&mut self, id: &str)
        ensures
            final(self).profiles@ == old(self).profiles@.filter(|p: ControllerProfile| p.id@ != id@),
            final(self).active_profile == match old(self).active_profile {
                Some(a) => if a@ == id@ {
                    None
                } else {
                    Some(a)
                },
                None => None,
            },
            final(self).sdl_hidapi_workaround == old(self).sdl_hidapi_workaround,
            active_known(*old(self)) ==> active_known(*final(self)),
    {
        let ghost before = *self;
        let target = chars_of(id);
        let ghost ps = self.profiles@;
        let ghost pred = |p: ControllerProfile| p.id@ != id@;
        let mut rest: Vec<ControllerProfile> = Vec::new();
        std::mem::swap(&mut rest, &mut self.profiles);
        proof {
            assert(rest@ == ps);
        }
        let mut taken: Vec<ControllerProfile> = Vec::new();
        // walk the profiles from the back so each can be moved out
        proof {
            assert(ps.skip(rest.len() as int) =~= Seq::<ControllerProfile>::empty());
        }
        while rest.len() > 0
            invariant
                rest@ == ps.take(rest.len() as int),
                rest.len() <= ps.len(),
                target@ == id@,
                pred == (|p: ControllerProfile| p.id@ != id@),
                taken@ == ps.skip(rest.len() as int).filter(pred),
            decreases rest.len(),
        {
            let ghost n = rest.len() as int;
            let p = rest.pop().unwrap();
            proof {
                assert(p == ps[n - 1]);
                assert(ps.skip(n - 1) =~= seq![ps[n - 1]] + ps.skip(n));
                ps.skip(n).lemma_filter_prepend(ps[n - 1], pred);
                assert(rest@ =~= ps.take(n - 1));
            }
            if !eq_vec(&chars_of(p.id.as_str()), &target) {
                taken.insert(0, p);
            }
        }
        proof {
            assert(ps.skip(0) =~= ps);
        }
        self.profiles = taken;
        let clear = match &self.active_profile {
            Some(a) => eq_vec(&chars_of(a.as_str()), &target),
            None => false,
        };
        if clear {
            self.active_profile = None;
        }
        proof {
            if active_known(before) {
                match &self.active_profile {
                    Some(a) => {
                        lemma_find_profile(ps, a@);
                        let k = find_profile(ps, a@);
                        assert(pred(ps[k]));
                        ps.lemma_filter_contains(pred, k);
                        let f = ps.filter(pred);
                        let j = choose|j: int| 0 <= j < f.len() && f[j] == ps[k];
                        assert(self.profiles@[j].id@ == a@);
                        lemma_found(self.profiles@, a@, j);
                    },
                    None => {},
                }
            }
        }
    }

    /// Makes `id` the active profile (`None` clears it); an id no profile has
    /// is refused and nothing changes.
    pub fn set_active(&mut self, id: Option<&str>) -> (r: Result<(), ProfileRefusal>)
        ensures
            match id {
                Some(i) => if find_profile(old(self).profiles@, i@) == -1 {
                    r == Err::<(), ProfileRefusal>(ProfileRefusal::NotFound) && *final(self) == *old(self)
                } else {
                    r is Ok && final(self).profiles@ == old(self).profiles@
                        && final(self).sdl_hidapi_workaround == old(self).sdl_hidapi_workaround
                        && final(self).active_profile is Some && final(self).active_profile->0@ == i@
                },
                None => r is Ok && final(self).profiles@ == old(self).profiles@
                    && final(self).sdl_hidapi_workaround == old(self).sdl_hidapi_workaround
                    && final(self).active_profile is None,
            },
            r is Ok ==> active_known(*final(self)),
    {
        match id {
            Some(i) => {
                if find_profile_exec(&self.profiles, &chars_of(i)).is_none() {
                    return Err(ProfileRefusal::NotFound);
                }
                self.active_profile = Some(string_of(&chars_of(i)));
            },
            None => {
                self.active_profile = None;
            },
        }
        Ok(())
    }
}

} // verus!
