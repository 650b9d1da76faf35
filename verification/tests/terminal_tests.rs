use hostfetch::terminal::{classify_parent, detect_terminal, TerminalEnv};
use hostfetch::text::contains_ignore_ascii;

fn bare_env() -> TerminalEnv {
    TerminalEnv {
        konsole_version: None,
        vte_version: None,
        alacritty_log: None,
        kitty_pid: None,
        termux_version: None,
        wezterm_executable: None,
        term_program: None,
        term: None,
    }
}

#[test]
fn markers_resolve_in_priority_order() {
    let mut env = bare_env();
    env.vte_version = Some("6003".to_string());
    env.kitty_pid = Some("123".to_string());
    assert_eq!(detect_terminal(&env, &None), "GNOME Terminal");
    env.konsole_version = Some("22".to_string());
    assert_eq!(detect_terminal(&env, &None), "Konsole");
}

#[test]
fn generic_variables_pass_their_value_through() {
    let mut env = bare_env();
    env.term_program = Some("iTerm.app".to_string());
    assert_eq!(detect_terminal(&env, &None), "iTerm.app");
    let mut env2 = bare_env();
    env2.term = Some("xterm-256color".to_string());
    assert_eq!(detect_terminal(&env2, &None), "xterm-256color");
}

#[test]
fn parent_command_names_the_terminal() {
    let env = bare_env();
    assert_eq!(
        detect_terminal(&env, &Some("gnome-terminal-server".to_string())),
        "GNOME Terminal"
    );
    assert_eq!(detect_terminal(&env, &Some("Alacritty".to_string())), "Alacritty");
    assert_eq!(detect_terminal(&env, &Some("weird-shell".to_string())), "unknown");
    assert_eq!(detect_terminal(&env, &None), "unknown");
}

#[test]
fn parent_classification_is_case_insensitive() {
    assert_eq!(classify_parent("XTERM"), Some("XTerm".to_string()));
    assert_eq!(classify_parent("tilix"), Some("Tilix".to_string()));
    assert_eq!(classify_parent("sh"), None);
}

#[test]
fn containment_folds_ascii_case() {
    assert!(contains_ignore_ascii("Gnome-Terminal-Server", "gnome-terminal"));
    assert!(contains_ignore_ascii("abc", ""));
    assert!(!contains_ignore_ascii("ab", "abc"));
    assert!(!contains_ignore_ascii("xyz", "ab"));
}
