//! How an emulator is found and spawned: what the package managers' replies
//! say, which installs a detection reports, and the exact command line a
//! launch runs (on the host directly, through `flatpak run`, or tunnelled out
//! of our own Flatpak sandbox with `flatpak-spawn --host`). Running the
//! package managers and spawning the process happen at the application edge.
use vstd::prelude::*;
use crate::adapters::{owned, string_views, EmulatorInstall, LaunchContext};
use crate::error::AdapterError;
use crate::models::InstallSource;
use crate::text::{
    chars_of, lines, lines_vec, push_all, strip_prefix, strip_prefix_str, string_of, trim,
    trim_vec, words, words_vec,
};

verus! {

// ── package-manager replies ────────────────────────────────────────────────

/// A reply trimmed of surrounding white space, when anything is left.
pub open spec fn trimmed_reply_spec(out: Seq<char>) -> Option<Seq<char>> {
    if trim(out).len() > 0 {
        Some(trim(out))
    } else {
        None
    }
}

/// The trimmed reply of `pacman -Qoq` (the owning package) or of the host's
/// `command -v` (the resolved path), when it is not empty.
pub fn trimmed_reply(out: &str) -> (r: Option<String>)
    ensures
        match r {
            Some(s) => trimmed_reply_spec(out@) == Some(s@),
            None => trimmed_reply_spec(out@) is None,
        },
{
    let t = trim_vec(&chars_of(out));
    if t.len() > 0 {
        Some(string_of(&t))
    } else {
        None
    }
}

/// The second white-space-separated word of `pacman -Q <pkg>`
/// (`pkgname 1.2.3-1` gives `1.2.3-1`).
pub open spec fn pacman_version_spec(out: Seq<char>) -> Option<Seq<char>> {
    if words(out).len() > 1 {
        Some(words(out)[1])
    } else {
        None
    }
}

/// The package version in a `pacman -Q` reply.
pub fn parse_pacman_version(out: &str) -> (r: Option<String>)
    ensures
        match r {
            Some(s) => pacman_version_spec(out@) == Some(s@),
            None => pacman_version_spec(out@) is None,
        },
{
    let w = words_vec(&chars_of(out));
    proof {
        assert(crate::text::views(w@).len() == w@.len());
    }
    if w.len() > 1 {
        proof {
            assert(crate::text::views(w@)[1] == w@[1]@);
        }
        Some(string_of(&w[1]))
    } else {
        None
    }
}

/// The value of the first line that, trimmed, starts with `Version:`.
pub open spec fn first_version_line(ls: Seq<Seq<char>>) -> Option<Seq<char>>
    decreases ls.len(),
{
    if ls.len() == 0 {
        None
    } else {
        match strip_prefix(trim(ls[0]), "Version:"@) {
            Some(v) => Some(trim(v)),
            None => first_version_line(ls.drop_first()),
        }
    }
}

/// The `Version:` field of a `flatpak info` reply, when present and not empty.
pub open spec fn flatpak_version_spec(out: Seq<char>) -> Option<Seq<char>> {
    match first_version_line(lines(out)) {
        Some(v) => if v.len() > 0 {
            Some(v)
        } else {
            None
        },
        None => None,
    }
}

/// The version a `flatpak info` reply states.
pub fn parse_flatpak_version(out: &str) -> (r: Option<String>)
    ensures
        match r {
            Some(s) => flatpak_version_spec(out@) == Some(s@),
            None => flatpak_version_spec(out@) is None,
        },
{
    let ls = lines_vec(&chars_of(out));
    let ghost lv = lines(out@);
    let mut i: usize = 0;
    proof {
        assert(lv.skip(0) =~= lv);
    }
    while i < ls.len()
        invariant
            i <= ls.len(),
            crate::text::views(ls@) == lv,
            lv == lines(out@),
            first_version_line(lv) == first_version_line(lv.skip(i as int)),
        decreases ls.len() - i,
    {
        proof {
            assert(lv.skip(i as int)[0] == ls@[i as int]@);
            assert(lv.skip(i as int).drop_first() =~= lv.skip(i as int + 1));
        }
        match strip_prefix_str(&trim_vec(&ls[i]), "Version:") {
            Some(v) => {
                let t = trim_vec(&v);
                if t.len() > 0 {
                    return Some(string_of(&t));
                } else {
                    return None;
                }
            },
            None => {},
        }
        i += 1;
    }
    proof {
        assert(lv.skip(ls.len() as int) =~= Seq::<Seq<char>>::empty());
    }
    None
}

// ── detection ──────────────────────────────────────────────────────────────

/// An install as plain values: (adapter id, name, version, source, executable
/// path, Flatpak app id).
pub type InstallView = (Seq<char>, Seq<char>, Option<Seq<char>>, InstallSource, Seq<char>, Option<Seq<char>>);

pub open spec fn opt_string(o: Option<String>) -> Option<Seq<char>> {
    match o {
        Some(s) => Some(s@),
        None => None,
    }
}

pub open spec fn install_view(e: EmulatorInstall) -> InstallView {
    (e.adapter_id@, e.name@, opt_string(e.version), e.install_source, e.executable_path@, opt_string(e.flatpak_app_id))
}

/// What a detection reports: the first native executable found, with the
/// owning pacman package's version when a package owns it (else a manual
/// install), then the Flatpak when it is installed, run as `flatpak run <id>`.
pub open spec fn detected_spec(
    adapter_id: Seq<char>,
    display_name: Seq<char>,
    native_path: Option<Seq<char>>,
    pacman: Option<Option<Seq<char>>>,
    flatpak: Option<(Seq<char>, Option<Seq<char>>)>,
) -> Seq<InstallView> {
    let native: Seq<InstallView> = match native_path {
        Some(p) => seq![
            match pacman {
                Some(v) => (adapter_id, display_name, v, InstallSource::Pacman, p, None),
                None => (adapter_id, display_name, None, InstallSource::Manual, p, None),
            },
        ],
        None => seq![],
    };
    match flatpak {
        Some((app, v)) => native.push(
            (
                adapter_id,
                display_name + " (Flatpak)"@,
                v,
                InstallSource::Flatpak,
                "flatpak run "@ + app,
                Some(app),
            ),
        ),
        None => native,
    }
}

/// The installs a detection found, given the first native executable
/// resolved on `PATH` (if any), the version of the pacman package owning it
/// (`Some` when a package owns it), and the installed Flatpak's id and
/// version (when it is installed).
pub fn detected_installs(
    adapter_id: &str,
    display_name: &str,
    native_path: Option<String>,
    pacman: Option<Option<String>>,
    flatpak: Option<(String, Option<String>)>,
) -> (r: Vec<EmulatorInstall>)
    ensures
        r@.map_values(|e: EmulatorInstall| install_view(e)) == detected_spec(
            adapter_id@,
            display_name@,
            opt_string(native_path),
            match pacman {
                Some(v) => Some(opt_string(v)),
                None => None,
            },
            match flatpak {
                Some(f) => Some((f.0@, opt_string(f.1))),
                None => None,
            },
        ),
{
    let mut found: Vec<EmulatorInstall> = Vec::new();
    match native_path {
        Some(p) => {
            let (version, source) = match pacman {
                Some(v) => (v, InstallSource::Pacman),
                None => (None, InstallSource::Manual),
            };
            found.push(
                EmulatorInstall {
                    adapter_id: owned(adapter_id),
                    name: owned(display_name),
                    version,
                    install_source: source,
                    executable_path: p,
                    flatpak_app_id: None,
                },
            );
        },
        None => {},
    }
    let ghost before = found@.map_values(|e: EmulatorInstall| install_view(e));
    match flatpak {
        Some((app, version)) => {
            let mut name = chars_of(display_name);
            crate::text::push_str(&mut name, " (Flatpak)");
            let mut exe = chars_of("flatpak run ");
            push_all(&mut exe, &chars_of(app.as_str()));
            found.push(
                EmulatorInstall {
                    adapter_id: owned(adapter_id),
                    name: string_of(&name),
                    version,
                    install_source: InstallSource::Flatpak,
                    executable_path: string_of(&exe),
                    flatpak_app_id: Some(app),
                },
            );
        },
        None => {},
    }
    proof {
        assert(found@.map_values(|e: EmulatorInstall| install_view(e)) =~= detected_spec(
            adapter_id@,
            display_name@,
            opt_string(native_path),
            match pacman {
                Some(v) => Some(opt_string(v)),
                None => None,
            },
            match flatpak {
                Some(f) => Some((f.0@, opt_string(f.1))),
                None => None,
            },
        ));
    }
    found
}

// ── the launch command ─────────────────────────────────────────────────────

/// A process to spawn: the program, its arguments, and the environment
/// variables set on it.
#[derive(Debug)]
pub struct LaunchCommand {
    pub program: String,
    pub args: Vec<String>,
    pub env: Vec<(String, String)>,
}

pub open spec fn pair_views(v: Seq<(String, String)>) -> Seq<(Seq<char>, Seq<char>)> {
    v.map_values(|p: (String, String)| (p.0@, p.1@))
}

/// `--env=KEY=VALUE` for each variable, in order.
pub open spec fn env_flags(env: Seq<(Seq<char>, Seq<char>)>) -> Seq<Seq<char>> {
    env.map_values(|kv: (Seq<char>, Seq<char>)| "--env="@ + kv.0 + "="@ + kv.1)
}

/// The command a launch runs, as (program, arguments, environment), or
/// `None` when a native executable is missing. Inside our own sandbox the
/// emulator runs on the host through `flatpak-spawn --host`, with the
/// variables forwarded as `--env=` flags before the program (the host's
/// `flatpak run <id>` for a Flatpak emulator, else its path, which cannot be
/// checked from inside); outside, a Flatpak emulator runs as
/// `flatpak run <id>` and a native one by its path. The per-game arguments
/// and then the adapter's game arguments follow, with no `--` between.
pub open spec fn launch_spec(
    exe: Seq<char>,
    app_id: Option<Seq<char>>,
    env: Seq<(Seq<char>, Seq<char>)>,
    extra: Seq<Seq<char>>,
    game: Seq<Seq<char>>,
    sandboxed: bool,
    exe_exists: bool,
) -> Option<(Seq<char>, Seq<Seq<char>>, Seq<(Seq<char>, Seq<char>)>)> {
    if sandboxed {
        let target = match app_id {
            Some(a) => seq!["flatpak"@, "run"@, a],
            None => seq![exe],
        };
        Some(("flatpak-spawn"@, seq!["--host"@] + env_flags(env) + target + extra + game, seq![]))
    } else {
        match app_id {
            Some(a) => Some(("flatpak"@, seq!["run"@, a] + extra + game, env)),
            None => if exe_exists {
                Some((exe, extra + game, env))
            } else {
                None
            },
        }
    }
}

fn push_copy(out: &mut Vec<String>, s: &str)
    ensures
        string_views(final(out)@) == string_views(old(out)@).push(s@),
{
    let ghost before = string_views(out@);
    out.push(owned(s));
    proof {
        assert(string_views(out@) =~= before.push(s@));
    }
}

fn push_copies(out: &mut Vec<String>, v: &Vec<String>)
    ensures
        string_views(final(out)@) == string_views(old(out)@) + string_views(v@),
{
    let ghost start = string_views(out@);
    let mut i: usize = 0;
    while i < v.len()
        invariant
            i <= v.len(),
            string_views(out@) == start + string_views(v@).take(i as int),
        decreases v.len() - i,
    {
        push_copy(out, v[i].as_str());
        proof {
            assert(string_views(v@).take(i as int + 1) =~= string_views(v@).take(i as int).push(v@[i as int]@));
            assert(string_views(out@) =~= start + string_views(v@).take(i as int + 1));
        }
        i += 1;
    }
    proof {
        assert(string_views(v@).take(v.len() as int) =~= string_views(v@));
    }
}

fn copy_pairs(v: &Vec<(String, String)>) -> (r: Vec<(String, String)>)
    ensures
        pair_views(r@) == pair_views(v@),
{
    let mut out: Vec<(String, String)> = Vec::new();
    let mut i: usize = 0;
    while i < v.len()
        invariant
            i <= v.len(),
            pair_views(out@) == pair_views(v@).take(i as int),
        decreases v.len() - i,
    {
        let ghost before = out@;
        let a = owned(v[i].0.as_str());
        let b = owned(v[i].1.as_str());
        out.push((a, b));
        proof {
            assert(out@ == before.push((a, b)));
            assert(pair_views(v@).take(i as int + 1) =~= pair_views(v@).take(i as int).push((v@[i as int].0@, v@[i as int].1@)));
            assert(pair_views(out@) =~= pair_views(before).push((a@, b@)));
        }
        i += 1;
    }
    proof {
        assert(pair_views(v@).take(v.len() as int) =~= pair_views(v@));
    }
    out
}

/// The command that launches a game, given whether we run inside a Flatpak
/// sandbox and whether a native executable's path exists; a missing native
/// executable is refused.
pub fn launch_command(ctx: &LaunchContext, game_args: &Vec<String>, sandboxed: bool, exe_exists: bool) -> (r:
    Result<LaunchCommand, AdapterError>)
    ensures
        ({
            let s = launch_spec(
                ctx.executable_path@,
                opt_string(ctx.flatpak_app_id),
                pair_views(ctx.env@),
                string_views(ctx.extra_args@),
                string_views(game_args@),
                sandboxed,
                exe_exists,
            );
            match r {
                Ok(c) => s == Some((c.program@, string_views(c.args@), pair_views(c.env@))),
                Err(e) => s is None && (e matches AdapterError::ExecutableMissing(p) && p@ == ctx.executable_path@),
            }
        }),
{
    let mut args: Vec<String> = Vec::new();
    let program;
    let env;
    if sandboxed {
        program = owned("flatpak-spawn");
        push_copy(&mut args, "--host");
        let ghost head = string_views(args@);
        let mut i: usize = 0;
        while i < ctx.env.len()
            invariant
                i <= ctx.env.len(),
                string_views(args@) == head + env_flags(pair_views(ctx.env@)).take(i as int),
            decreases ctx.env.len() - i,
        {
            let mut f = chars_of("--env=");
            push_all(&mut f, &chars_of(ctx.env[i].0.as_str()));
            crate::text::push_str(&mut f, "=");
            push_all(&mut f, &chars_of(ctx.env[i].1.as_str()));
            let ghost before = string_views(args@);
            args.push(string_of(&f));
            proof {
                assert(f@ =~= "--env="@ + ctx.env@[i as int].0@ + "="@ + ctx.env@[i as int].1@);
                assert(env_flags(pair_views(ctx.env@)).take(i as int + 1) =~= env_flags(
                    pair_views(ctx.env@),
                ).take(i as int).push(f@));
                assert(string_views(args@) =~= before.push(f@));
            }
            i += 1;
        }
        proof {
            assert(env_flags(pair_views(ctx.env@)).take(ctx.env.len() as int) =~= env_flags(
                pair_views(ctx.env@),
            ));
        }
        match &ctx.flatpak_app_id {
            Some(a) => {
                push_copy(&mut args, "flatpak");
                push_copy(&mut args, "run");
                push_copy(&mut args, a.as_str());
            },
            None => {
                push_copy(&mut args, ctx.executable_path.as_str());
            },
        }
        env = Vec::new();
    } else {
        match &ctx.flatpak_app_id {
            Some(a) => {
                program = owned("flatpak");
                push_copy(&mut args, "run");
                push_copy(&mut args, a.as_str());
            },
            None => {
                if !exe_exists {
                    return Err(AdapterError::ExecutableMissing(owned(ctx.executable_path.as_str())));
                }
                program = owned(ctx.executable_path.as_str());
            },
        }
        env = copy_pairs(&ctx.env);
    }
    push_copies(&mut args, &ctx.extra_args);
    push_copies(&mut args, game_args);
    let r = LaunchCommand { program, args, env };
    proof {
        let s = launch_spec(
            ctx.executable_path@,
            opt_string(ctx.flatpak_app_id),
            pair_views(ctx.env@),
            string_views(ctx.extra_args@),
            string_views(game_args@),
            sandboxed,
            exe_exists,
        );
        let t = s.unwrap();
        assert(pair_views(r.env@) =~= t.2);
        assert(string_views(r.args@) =~= t.1);
    }
    Ok(r)
}

} // verus!
