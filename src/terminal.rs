//! Decisions about the terminal that the monitor runs in, made from the
//! values of a few environment variables.

use vstd::prelude::*;

use crate::query::matcher::seq_contains;
use crate::strings::{ascii_lower_of, starts_with, to_ascii_lowercase};

verus! {

/// Whether any of `prefixes` begins `value`.
pub open spec fn has_prefix_spec(value: Seq<char>, prefixes: Seq<Seq<char>>) -> bool {
    exists|i: int|
        0 <= i < prefixes.len() && #[trigger] prefixes[i].len() <= value.len()
            && value.subrange(0, prefixes[i].len() as int) == prefixes[i]
}

/// Whether `value` begins with one of `prefixes`.
pub fn has_prefix(value: &str, prefixes: &[&str]) -> (r: bool)
    ensures
        r == has_prefix_spec(value@, prefixes@.map_values(|p: &str| p@)),
{
    let ghost ps = prefixes@.map_values(|p: &str| p@);
    let mut i: usize = 0;
    while i < prefixes.len()
        invariant
            i <= prefixes.len(),
            ps == prefixes@.map_values(|p: &str| p@),
            forall|j: int| 0 <= j < i ==> !(ps[j].len() <= value@.len() && value@.subrange(0, ps[j].len() as int) == ps[j]),
        decreases prefixes.len() - i,
    {
        if starts_with(value, prefixes[i]) {
            proof {
                assert(ps[i as int] == prefixes@[i as int]@);
            }
            return true;
        }
        i += 1;
    }
    false
}

/// The environment variables that the dot-marker decision reads; `None` for
/// one that is unset or blank.
pub struct TerminalEnv {
    pub wt_session: Option<String>,
    pub term_program: Option<String>,
    pub term: Option<String>,
    pub ps_module_path: Option<String>,
    pub prompt: Option<String>,
    pub comspec: Option<String>,
}

/// The text of a variable, empty when it is unset.
pub open spec fn text_or_empty(v: Option<String>) -> Seq<char> {
    match v {
        Some(s) => s@,
        None => Seq::empty(),
    }
}

/// The terminal name prefixes of hosts that draw braille well.
pub open spec fn braille_capable_terms() -> Seq<Seq<char>> {
    seq!["xterm"@, "screen"@, "tmux"@, "rxvt"@, "cygwin"@, "msys"@, "st-"@]
}

/// Whether the dot marker should replace braille by default.
///
/// Only on Windows; not under Windows Terminal, VS Code or WezTerm, nor in a
/// terminal that calls itself xterm-like; then only under PowerShell or cmd.
pub open spec fn dot_marker_rule(is_windows: bool, env: TerminalEnv) -> bool {
    if !is_windows {
        false
    } else if env.wt_session is Some {
        false
    } else {
        let term_program = ascii_lower_of(text_or_empty(env.term_program));
        if term_program == "vscode"@ || term_program == "wezterm"@ {
            false
        } else if has_prefix_spec(ascii_lower_of(text_or_empty(env.term)), braille_capable_terms()) {
            false
        } else {
            env.ps_module_path is Some || env.prompt is Some || match env.comspec {
                Some(c) => seq_contains(ascii_lower_of(c@), "cmd.exe"@),
                None => false,
            }
        }
    }
}

fn lowered_or_empty(v: &Option<String>) -> (r: String)
    ensures
        r@ == ascii_lower_of(text_or_empty(*v)),
{
    match v {
        Some(s) => {
            let r = to_ascii_lowercase(s.as_str());
            assert(text_or_empty(*v) == s@);
            r
        },
        None => {
            let r = to_ascii_lowercase("");
            proof {
                reveal_strlit("");
            }
            assert(text_or_empty(*v) == ""@);
            r
        },
    }
}

/// Decides on the dot marker from the values of the environment.
pub fn dot_marker_decision(is_windows: bool, env: &TerminalEnv) -> (r: bool)
    ensures
        r == dot_marker_rule(is_windows, *env),
{
    if !is_windows {
        return false;
    }
    if env.wt_session.is_some() {
        return false;
    }
    let term_program = lowered_or_empty(&env.term_program);
    if crate::strings::str_eq(term_program.as_str(), "vscode") || crate::strings::str_eq(
        term_program.as_str(),
        "wezterm",
    ) {
        return false;
    }
    let term = lowered_or_empty(&env.term);
    let prefixes: [&str; 7] = ["xterm", "screen", "tmux", "rxvt", "cygwin", "msys", "st-"];
    let capable = has_prefix(term.as_str(), &prefixes);
    proof {
        assert(prefixes@.map_values(|p: &str| p@) =~= braille_capable_terms());
    }
    if capable {
        return false;
    }
    let has_cmd_env = env.prompt.is_some() || match &env.comspec {
        Some(c) => {
            let lowered = to_ascii_lowercase(c.as_str());
            crate::query::matcher::str_contains(lowered.as_str(), "cmd.exe")
        },
        None => false,
    };
    env.ps_module_path.is_some() || has_cmd_env
}

/// Whether the values of the two WSL variables show a WSL session.
pub open spec fn wsl_rule(distro_name: Option<String>, interop: Option<String>) -> bool {
    distro_name is Some || interop is Some
}

/// Detects WSL through `get_env`, which gives a variable's value, or `None`
/// for one that is unset.
pub fn is_wsl_with<F: Fn(&str) -> Option<String>>(get_env: F) -> (r: bool)
    requires
        forall|k: &str| get_env.requires((k,)),
    ensures
        exists|a: Option<String>, b: Option<String>|
            get_env.ensures(("WSL_DISTRO_NAME",), a) && get_env.ensures(("WSL_INTEROP",), b) && r
                == wsl_rule(a, b),
{
    let a = get_env("WSL_DISTRO_NAME");
    let b = get_env("WSL_INTEROP");
    let r = a.is_some() || b.is_some();
    proof {
        assert(get_env.ensures(("WSL_DISTRO_NAME",), a) && get_env.ensures(("WSL_INTEROP",), b) && r
            == wsl_rule(a, b));
    }
    r
}

/// Whether `env` holds what `get_env` gave for each variable.
pub open spec fn env_from<F: Fn(&str) -> Option<String>>(get_env: F, env: TerminalEnv) -> bool {
    &&& get_env.ensures(("WT_SESSION",), env.wt_session)
    &&& get_env.ensures(("TERM_PROGRAM",), env.term_program)
    &&& get_env.ensures(("TERM",), env.term)
    &&& get_env.ensures(("PSModulePath",), env.ps_module_path)
    &&& get_env.ensures(("PROMPT",), env.prompt)
    &&& get_env.ensures(("COMSPEC",), env.comspec)
}

/// Decides on the dot marker, reading the environment through `get_env`.
pub fn should_auto_enable_dot_marker_with<F: Fn(&str) -> Option<String>>(is_windows: bool, get_env: F) -> (r: bool)
    requires
        forall|k: &str| get_env.requires((k,)),
    ensures
        !is_windows ==> !r,
        exists|env: TerminalEnv| env_from(get_env, env) && r == dot_marker_rule(is_windows, env),
{
    let env = TerminalEnv {
        wt_session: get_env("WT_SESSION"),
        term_program: get_env("TERM_PROGRAM"),
        term: get_env("TERM"),
        ps_module_path: get_env("PSModulePath"),
        prompt: get_env("PROMPT"),
        comspec: get_env("COMSPEC"),
    };
    let r = dot_marker_decision(is_windows, &env);
    proof {
        assert(env_from(get_env, env));
    }
    r
}

} // verus!
