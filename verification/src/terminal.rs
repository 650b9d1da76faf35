//! Terminal identification.
//!
//! Well-known terminals announce themselves through environment
//! variables, tried in a fixed order; two generic variables pass their
//! own value through. Failing those, the parent process's command name
//! is matched case-insensitively against known terminal names. The
//! last resort is the generic TERM value, or "unknown".

use vstd::prelude::*;

use crate::text::{contains_ci, contains_ignore_ascii, to_owned_string, view_opt};

verus! {

/// The environment values the terminal probes read, `None` where a
/// variable is unset.
pub struct TerminalEnv {
    /// The Konsole marker.
    pub konsole_version: Option<String>,
    /// The VTE (GNOME Terminal) marker.
    pub vte_version: Option<String>,
    /// The Alacritty marker.
    pub alacritty_log: Option<String>,
    /// The Kitty marker.
    pub kitty_pid: Option<String>,
    /// The Termux marker.
    pub termux_version: Option<String>,
    /// The WezTerm marker.
    pub wezterm_executable: Option<String>,
    /// The generic program name, passed through as it is.
    pub term_program: Option<String>,
    /// The generic terminal type, passed through as it is.
    pub term: Option<String>,
}

/// What the environment markers name, in their priority order; the
/// two generic variables name their own value.
pub open spec fn env_terminal_spec(e: TerminalEnv) -> Option<Seq<char>> {
    if e.konsole_version is Some {
        Some("Konsole"@)
    } else if e.vte_version is Some {
        Some("GNOME Terminal"@)
    } else if e.alacritty_log is Some {
        Some("Alacritty"@)
    } else if e.kitty_pid is Some {
        Some("Kitty"@)
    } else if e.termux_version is Some {
        Some("Termux"@)
    } else if e.wezterm_executable is Some {
        Some("WezTerm"@)
    } else if e.term_program is Some {
        view_opt(e.term_program)
    } else if e.term is Some {
        view_opt(e.term)
    } else {
        None
    }
}

/// The terminal a parent command name reveals, matched
/// case-insensitively in a fixed order.
pub open spec fn parent_terminal_spec(comm: Seq<char>) -> Option<Seq<char>> {
    if contains_ci(comm, "gnome-terminal"@) {
        Some("GNOME Terminal"@)
    } else if contains_ci(comm, "xterm"@) {
        Some("XTerm"@)
    } else if contains_ci(comm, "tilix"@) {
        Some("Tilix"@)
    } else if contains_ci(comm, "terminator"@) {
        Some("Terminator"@)
    } else if contains_ci(comm, "xfce4-terminal"@) {
        Some("XFCE Terminal"@)
    } else if contains_ci(comm, "urxvt"@) {
        Some("URxvt"@)
    } else if contains_ci(comm, "st"@) {
        Some("ST"@)
    } else if contains_ci(comm, "kitty"@) {
        Some("Kitty"@)
    } else if contains_ci(comm, "alacritty"@) {
        Some("Alacritty"@)
    } else if contains_ci(comm, "termux"@) {
        Some("Termux"@)
    } else if contains_ci(comm, "wezterm"@) {
        Some("WezTerm"@)
    } else if contains_ci(comm, "lxterminal"@) {
        Some("LXTerminal"@)
    } else {
        None
    }
}

/// The last resort: the generic terminal type, or "unknown".
pub open spec fn term_fallback_spec(e: TerminalEnv) -> Seq<char> {
    match view_opt(e.term) {
        Some(v) => v,
        None => "unknown"@,
    }
}

/// What terminal detection yields: the environment markers first, then
/// the parent command name, then the fallback.
pub open spec fn terminal_spec(e: TerminalEnv, parent_comm: Option<Seq<char>>) -> Seq<char> {
    match env_terminal_spec(e) {
        Some(x) => x,
        None => match parent_comm {
            Some(c) => match parent_terminal_spec(c) {
                Some(n) => n,
                None => term_fallback_spec(e),
            },
            None => term_fallback_spec(e),
        },
    }
}

/// Matches a parent command name against the known terminals, as
/// `parent_terminal_spec` says.
pub fn classify_parent(comm: &str) -> (r: Option<String>)
    ensures
        view_opt(r) == parent_terminal_spec(comm@),
{
    if contains_ignore_ascii(comm, "gnome-terminal") {
        Some(to_owned_string("GNOME Terminal"))
    } else if contains_ignore_ascii(comm, "xterm") {
        Some(to_owned_string("XTerm"))
    } else if contains_ignore_ascii(comm, "tilix") {
        Some(to_owned_string("Tilix"))
    } else if contains_ignore_ascii(comm, "terminator") {
        Some(to_owned_string("Terminator"))
    } else if contains_ignore_ascii(comm, "xfce4-terminal") {
        Some(to_owned_string("XFCE Terminal"))
    } else if contains_ignore_ascii(comm, "urxvt") {
        Some(to_owned_string("URxvt"))
    } else if contains_ignore_ascii(comm, "st") {
        Some(to_owned_string("ST"))
    } else if contains_ignore_ascii(comm, "kitty") {
        Some(to_owned_string("Kitty"))
    } else if contains_ignore_ascii(comm, "alacritty") {
        Some(to_owned_string("Alacritty"))
    } else if contains_ignore_ascii(comm, "termux") {
        Some(to_owned_string("Termux"))
    } else if contains_ignore_ascii(comm, "wezterm") {
        Some(to_owned_string("WezTerm"))
    } else if contains_ignore_ascii(comm, "lxterminal") {
        Some(to_owned_string("LXTerminal"))
    } else {
        None
    }
}

/// Identifies the terminal from the environment values and the parent
/// command name, as `terminal_spec` says.
pub fn detect_terminal(env: &TerminalEnv, parent_comm: &Option<String>) -> (r: String)
    ensures
        r@ == terminal_spec(*env, view_opt(*parent_comm)),
{
    if env.konsole_version.is_some() {
        return to_owned_string("Konsole");
    }
    if env.vte_version.is_some() {
        return to_owned_string("GNOME Terminal");
    }
    if env.alacritty_log.is_some() {
        return to_owned_string("Alacritty");
    }
    if env.kitty_pid.is_some() {
        return to_owned_string("Kitty");
    }
    if env.termux_version.is_some() {
        return to_owned_string("Termux");
    }
    if env.wezterm_executable.is_some() {
        return to_owned_string("WezTerm");
    }
    if let Some(v) = &env.term_program {
        return to_owned_string(v.as_str());
    }
    if let Some(v) = &env.term {
        return to_owned_string(v.as_str());
    }
    if let Some(c) = parent_comm {
        if let Some(n) = classify_parent(c.as_str()) {
            return n;
        }
    }
    match &env.term {
        Some(v) => to_owned_string(v.as_str()),
        None => to_owned_string("unknown"),
    }
}

} // verus!
