//! Save files and screenshots: which files in an emulator's directories
//! belong to a ROM, RetroArch's directory layout for native and Flatpak
//! installs, the backup manifest, and the keep-both naming for collisions.
//! Reading directories and copying files happen at the application edge.
use vstd::prelude::*;
use crate::hotkeys::{lower_str, lower_vec};
use crate::models::{install_source_of, InstallSource};
use crate::pathname::{extension, extension_vec, file_stem, file_stem_vec};
use crate::paths::{join_path, join_rel};
use crate::text::{
    chars_of, dec, lemma_dec_injective, eq_str, eq_vec, find_sub_from, find_sub_vec, push_dec_u64, push_str, starts_with, starts_with_vec,
    string_of, views, words, words_vec,
};

verus! {

/// One backed-up file and where it came from, so a restore can return it to
/// its original location.
#[derive(Debug, Clone)]
pub struct ManifestEntry {
    /// Basename as stored under the backup's `files/` directory.
    pub file: String,
    /// Absolute path the file was copied from (and will be restored to).
    pub original: String,
}

/// The manifest stored inside each backup directory.
#[derive(Debug, Clone, Default)]
pub struct Manifest {
    pub entries: Vec<ManifestEntry>,
}

/// A file belongs to the ROM with stem `stem` when its name starts with
/// `<stem>.` (RetroArch's `.srm`, `.state[N]`, `.rtc`, …).
pub open spec fn is_save_file_spec(name: Seq<char>, stem: Seq<char>) -> bool {
    starts_with(name, stem + "."@)
}

pub fn is_save_file_of(name: &str, stem: &str) -> (b: bool)
    ensures
        b == is_save_file_spec(name@, stem@),
{
    let mut prefix = chars_of(stem);
    push_str(&mut prefix, ".");
    starts_with_vec(&chars_of(name), &prefix)
}

/// The keep-both name for the `n`th collision: `<stem> (<n>).<ext>`, or
/// `<stem> (<n>)` without an extension.
pub open spec fn sibling_name_spec(stem: Seq<char>, ext: Option<Seq<char>>, n: nat) -> Seq<char> {
    match ext {
        Some(e) => stem + " ("@ + dec(n) + ")."@ + e,
        None => stem + " ("@ + dec(n) + ")"@,
    }
}

/// Keep-both candidates never repeat: different attempt numbers give
/// different names, so a search for a free name moves on each time.
pub proof fn law_sibling_names_differ(stem: Seq<char>, ext: Option<Seq<char>>, n: nat, m: nat)
    requires
        n != m,
    ensures
        sibling_name_spec(stem, ext, n) != sibling_name_spec(stem, ext, m),
{
    reveal_strlit(" (");
    reveal_strlit(").");
    reveal_strlit(")");
    if sibling_name_spec(stem, ext, n) == sibling_name_spec(stem, ext, m) {
        let a = stem + " ("@;
        let tail = match ext {
            Some(e) => ")."@ + e,
            None => ")"@,
        };
        let x = a + dec(n) + tail;
        let y = a + dec(m) + tail;
        assert(sibling_name_spec(stem, ext, n) =~= x);
        assert(sibling_name_spec(stem, ext, m) =~= y);
        assert(dec(n).len() == dec(m).len());
        assert(x.subrange(a.len() as int, (a.len() + dec(n).len()) as int) =~= dec(n));
        assert(y.subrange(a.len() as int, (a.len() + dec(m).len()) as int) =~= dec(m));
        lemma_dec_injective(n, m);
    }
}

/// The name of the `n`th keep-both candidate beside `path` (stem `file` when
/// the path has none).
pub fn sibling_name(path: &str, n: u64) -> (r: String)
    ensures
        r@ == sibling_name_spec(
            match file_stem(path@) {
                Some(s) => s,
                None => "file"@,
            },
            extension(path@),
            n as nat,
        ),
{
    let p = chars_of(path);
    let mut out = match file_stem_vec(&p) {
        Some(s) => s,
        None => chars_of("file"),
    };
    push_str(&mut out, " (");
    push_dec_u64(&mut out, n);
    match extension_vec(&p) {
        Some(e) => {
            push_str(&mut out, ").");
            let ghost o = out@;
            let mut i: usize = 0;
            while i < e.len()
                invariant
                    i <= e.len(),
                    out@ == o + e@.take(i as int),
                decreases e.len() - i,
            {
                out.push(e[i]);
                i += 1;
                proof {
                    assert(out@ =~= o + e@.take(i as int));
                }
            }
            proof {
                assert(e@.take(e.len() as int) =~= e@);
            }
        },
        None => {
            push_str(&mut out, ")");
        },
    }
    string_of(&out)
}

/// The Flatpak application id of an install: the third whitespace token of
/// its `flatpak run …` command line; `None` for a native install.
pub open spec fn flatpak_app_id_spec(install_source: Seq<char>, executable_path: Seq<char>) -> Option<
    Seq<char>,
> {
    if install_source_of(install_source) == InstallSource::Flatpak && words(executable_path).len() > 2 {
        Some(words(executable_path)[2])
    } else {
        None
    }
}

pub fn flatpak_app_id_of(install_source: &str, executable_path: &str) -> (r: Option<String>)
    ensures
        match r {
            Some(s) => flatpak_app_id_spec(install_source@, executable_path@) == Some(s@),
            None => flatpak_app_id_spec(install_source@, executable_path@) is None,
        },
{
    if InstallSource::from_str(install_source) == InstallSource::Flatpak {
        let w = words_vec(&chars_of(executable_path));
        if w.len() > 2 {
            proof {
                assert(views(w@)[2] == w@[2]@);
            }
            return Some(string_of(&w[2]));
        }
    }
    None
}

/// RetroArch's config directory: `~/.config/retroarch`, or under
/// `~/.var/app/<id>/` for a Flatpak.
pub open spec fn retroarch_base(home: Seq<char>, flatpak_app_id: Option<Seq<char>>) -> Seq<char> {
    match flatpak_app_id {
        Some(app) => join_rel(join_rel(join_rel(home, ".var/app"@), app), "config/retroarch"@),
        None => join_rel(home, ".config/retroarch"@),
    }
}

fn retroarch_base_exec(home: &str, flatpak_app_id: Option<&str>) -> (r: String)
    ensures
        r@ == retroarch_base(home@, match flatpak_app_id {
            Some(a) => Some(a@),
            None => None,
        }),
{
    match flatpak_app_id {
        Some(app) => {
            let a = join_path(home, ".var/app");
            let b = join_path(a.as_str(), app);
            join_path(b.as_str(), "config/retroarch")
        },
        None => join_path(home, ".config/retroarch"),
    }
}

/// RetroArch's save and savestate directories; none without a home
/// directory.
pub fn retroarch_save_dirs(home: Option<&str>, flatpak_app_id: Option<&str>) -> (r: Vec<String>)
    ensures
        match home {
            None => r@.len() == 0,
            Some(h) => r@.len() == 2 && r@[0]@ == join_rel(retroarch_base(h@, match flatpak_app_id {
                Some(a) => Some(a@),
                None => None,
            }), "saves"@) && r@[1]@ == join_rel(retroarch_base(h@, match flatpak_app_id {
                Some(a) => Some(a@),
                None => None,
            }), "states"@),
        },
{
    match home {
        None => Vec::new(),
        Some(h) => {
            let base = retroarch_base_exec(h, flatpak_app_id);
            let mut v: Vec<String> = Vec::new();
            v.push(join_path(base.as_str(), "saves"));
            v.push(join_path(base.as_str(), "states"));
            v
        },
    }
}

/// RetroArch's screenshot directory; none without a home directory.
pub fn retroarch_screenshot_dirs(home: Option<&str>, flatpak_app_id: Option<&str>) -> (r: Vec<String>)
    ensures
        match home {
            None => r@.len() == 0,
            Some(h) => r@.len() == 1 && r@[0]@ == join_rel(retroarch_base(h@, match flatpak_app_id {
                Some(a) => Some(a@),
                None => None,
            }), "screenshots"@),
        },
{
    match home {
        None => Vec::new(),
        Some(h) => {
            let base = retroarch_base_exec(h, flatpak_app_id);
            let mut v: Vec<String> = Vec::new();
            v.push(join_path(base.as_str(), "screenshots"));
            v
        },
    }
}

/// An image of the ROM with stem `stem`: a `.png`, `.jpg`, `.jpeg` or `.bmp`
/// (any ASCII case) whose own stem is `stem`, or starts with `<stem>-` or
/// `<stem> ` (RetroArch's suffixes for later captures).
pub open spec fn is_screenshot_spec(path: Seq<char>, stem: Seq<char>) -> bool {
    let ext_ok = match extension(path) {
        Some(e) => {
            let l = lower_str(e);
            l == "png"@ || l == "jpg"@ || l == "jpeg"@ || l == "bmp"@
        },
        None => false,
    };
    ext_ok && match file_stem(path) {
        Some(n) => n == stem || starts_with(n, stem + "-"@) || starts_with(n, stem + " "@),
        None => false,
    }
}

pub fn is_screenshot_of(path: &str, stem: &str) -> (b: bool)
    ensures
        b == is_screenshot_spec(path@, stem@),
{
    let p = chars_of(path);
    let ext_ok = match extension_vec(&p) {
        Some(e) => {
            let l = lower_vec(&e);
            eq_str(&l, "png") || eq_str(&l, "jpg") || eq_str(&l, "jpeg") || eq_str(&l, "bmp")
        },
        None => false,
    };
    if !ext_ok {
        return false;
    }
    match file_stem_vec(&p) {
        Some(n) => {
            let s = chars_of(stem);
            let mut dash = chars_of(stem);
            push_str(&mut dash, "-");
            let mut space = chars_of(stem);
            push_str(&mut space, " ");
            eq_vec(&n, &s) || starts_with_vec(&n, &dash) || starts_with_vec(&n, &space)
        },
        None => false,
    }
}

/// An install runs as a Flatpak when its source says so (any ASCII case) or
/// its command line runs `flatpak run`.
pub open spec fn is_flatpak_spec(install_source: Seq<char>, executable_path: Seq<char>) -> bool {
    lower_str(install_source) == "flatpak"@ || find_sub_from(executable_path, "flatpak run"@, 0) >= 0
}

pub fn is_flatpak(install_source: &str, executable_path: &str) -> (b: bool)
    ensures
        b == is_flatpak_spec(install_source@, executable_path@),
{
    eq_str(&lower_vec(&chars_of(install_source)), "flatpak") || find_sub_vec(
        &chars_of(executable_path),
        &chars_of("flatpak run"),
    ).is_some()
}

} // verus!
