use beewm::commands::{
    command_line, session_export_commands, shell_metacharacter, try_split_simple_command,
    ChildEnvironment, EnvChange, EnvVar,
};

fn split(cmd: &str) -> Option<Vec<String>> {
    try_split_simple_command(cmd)
}

fn strings(words: &[&str]) -> Vec<String> {
    words.iter().map(|w| w.to_string()).collect()
}

fn find(pairs: &[EnvVar], key: &str) -> Option<String> {
    pairs.iter().find(|var| var.key == key).map(|var| var.value.clone())
}

#[test]
fn wayland_env_sets_desktop_identity() {
    let env = ChildEnvironment::wayland("wayland-1");
    let pairs = env.session_activation_pairs();
    assert_eq!(find(&pairs, "WAYLAND_DISPLAY").as_deref(), Some("wayland-1"));
    assert_eq!(find(&pairs, "XDG_CURRENT_DESKTOP").as_deref(), Some("beewm"));
    assert_eq!(find(&pairs, "XDG_SESSION_DESKTOP").as_deref(), Some("beewm"));
    assert_eq!(find(&pairs, "XDG_SESSION_TYPE").as_deref(), Some("wayland"));
}

#[test]
fn session_pairs_only_include_set_keys() {
    let env = ChildEnvironment::wayland("wayland-1");
    assert!(!env.session_activation_pairs().iter().any(|var| var.key == "DISPLAY"));

    let mut env = env;
    env.set("DISPLAY", ":1");
    assert!(env
        .session_activation_pairs()
        .iter()
        .any(|var| var.key == "DISPLAY" && var.value == ":1"));
    assert!(!env.session_activation_pairs().iter().any(|var| var.key == "NIXOS_OZONE_WL"));
}

#[test]
fn simple_command_takes_direct_path() {
    assert_eq!(split("kitty"), Some(strings(&["kitty"])));
    assert_eq!(split("wofi --show drun"), Some(strings(&["wofi", "--show", "drun"])));
}

#[test]
fn empty_or_whitespace_is_rejected() {
    assert_eq!(split(""), None);
    assert_eq!(split("   "), None);
}

#[test]
fn shell_metacharacters_force_sh_fallback() {
    assert!(split("foo | bar").is_none());
    assert!(split("foo && bar").is_none());
    assert!(split("foo $bar").is_none());
    assert!(split("VAR=1 cmd").is_none());
    assert!(split("echo > /tmp/x").is_none());
}

#[test]
fn command_lines_fall_back_to_the_shell() {
    assert_eq!(command_line("  kitty\t-e top "), strings(&["kitty", "-e", "top"]));
    assert_eq!(command_line("a | b"), strings(&["sh", "-c", "a | b"]));
    assert_eq!(command_line(""), strings(&["sh", "-c", ""]));
    // A no-break space is trimmed at the ends but separates no words.
    assert_eq!(split("\u{a0}kitty\u{a0}x\u{a0}"), Some(strings(&["kitty\u{a0}x"])));
}

#[test]
fn every_shell_metacharacter_is_known() {
    let meta = b"$`\\'\"|&;<>(){}[]*?~#!\n\r=";
    assert_eq!(meta.len(), 24);
    for byte in 0..=255u8 {
        assert_eq!(shell_metacharacter(byte), meta.contains(&byte));
    }
}

#[test]
fn child_environment_changes_come_in_order() {
    let mut env = ChildEnvironment::wayland("wayland-7");
    env.set_sanitize_display(true);
    env.set("XDG_SESSION_TYPE", "other");
    let changes = env.changes();
    assert!(matches!(&changes[0], EnvChange::Remove(key) if key == "WAYLAND_SOCKET"));
    assert!(matches!(&changes[1], EnvChange::Remove(key) if key == "DISPLAY"));
    assert_eq!(changes.len(), 8);
    assert!(changes.iter().any(
        |c| matches!(c, EnvChange::Assign(var) if var.key == "XDG_SESSION_TYPE" && var.value == "other")
    ));
    assert_eq!(env.get("NIXOS_OZONE_WL").as_deref(), Some("1"));
    assert_eq!(env.get("HOME"), None);
}

#[test]
fn session_export_runs_three_commands() {
    let env = ChildEnvironment::wayland("wayland-1");
    let commands = session_export_commands(&env, false);
    assert_eq!(
        commands,
        vec![
            strings(&[
                "dbus-update-activation-environment",
                "--systemd",
                "WAYLAND_DISPLAY=wayland-1",
                "XDG_CURRENT_DESKTOP=beewm",
                "XDG_SESSION_DESKTOP=beewm",
                "XDG_SESSION_TYPE=wayland",
            ]),
            strings(&[
                "systemctl",
                "--user",
                "import-environment",
                "WAYLAND_DISPLAY",
                "XDG_CURRENT_DESKTOP",
                "XDG_SESSION_DESKTOP",
                "XDG_SESSION_TYPE",
            ]),
            strings(&["systemctl", "--user", "start", "beewm-session.target"]),
        ]
    );
    assert!(session_export_commands(&env, true).is_empty());
    assert!(session_export_commands(&ChildEnvironment::new(), false).is_empty());
}
