use beewm::commands::EnvVar;
use beewm::config_watcher::config_changed;
use beewm::feedback::output_frame_interval;
use beewm::ipc::{
    apply_command, control_socket_path, event_line, event_socket_path, parse_command, Command,
};
use beewm::runtime_flags::{flags, RuntimeFlags};
use beewm::text::{
    chars_hold, chars_of, decimal, eq_ignore_ascii_case, parse_i32, parse_usize, signed_decimal,
    split_words, string_of, trim,
};

#[test]
fn commands_are_read_from_lines() {
    assert_eq!(parse_command("workspace 3\n"), Some(Command::SwitchWorkspace(3)));
    assert_eq!(parse_command("  workspace\t0 now"), Some(Command::SwitchWorkspace(0)));
    assert_eq!(parse_command("workspaces 3"), None);
    assert_eq!(parse_command("workspace"), None);
    assert_eq!(parse_command("workspace x"), None);
    assert_eq!(parse_command(""), None);
    // Users count from one.
    assert_eq!(apply_command(Command::SwitchWorkspace(3)), Some(2));
    assert_eq!(apply_command(Command::SwitchWorkspace(0)), None);
}

#[test]
fn sockets_live_in_the_runtime_directory() {
    let dir = b"/run/user/7".to_vec();
    assert_eq!(event_socket_path(Some(&dir)), b"/run/user/7/beewm-events.sock");
    assert_eq!(control_socket_path(Some(&dir)), b"/run/user/7/beewm-control.sock");
    assert_eq!(event_socket_path(Some(&b"/x/".to_vec())), b"/x/beewm-events.sock");
    // A directory need not be text.
    assert_eq!(control_socket_path(Some(&vec![47, 0xff])), b"/\xff/beewm-control.sock");
    assert_eq!(event_socket_path(None), b"/tmp/beewm-events.sock");
    assert_eq!(control_socket_path(Some(&Vec::new())), b"/tmp/beewm-control.sock");
    assert_eq!(event_line("workspace>>1"), "workspace>>1\n");
}

/// One inotify event for a file in a watched directory.
fn event(name: &str, padded: usize) -> Vec<u8> {
    let mut bytes = Vec::new();
    bytes.extend_from_slice(&1i32.to_le_bytes());
    bytes.extend_from_slice(&8u32.to_le_bytes());
    bytes.extend_from_slice(&0u32.to_le_bytes());
    bytes.extend_from_slice(&(padded as u32).to_le_bytes());
    let mut text = name.as_bytes().to_vec();
    text.resize(padded, 0);
    bytes.extend_from_slice(&text);
    bytes
}

#[test]
fn only_the_watched_file_counts() {
    let wanted = b"beewm.conf".to_vec();
    let mut buf = event("other", 16);
    assert!(!config_changed(&buf, buf.len(), &wanted, false));
    buf.extend(event("beewm.conf", 16));
    assert!(config_changed(&buf, buf.len(), &wanted, false));
    // What was read ends before the second event.
    assert!(!config_changed(&buf, 32, &wanted, false));
    let longer = event("beewm.conf.bak", 16);
    assert!(!config_changed(&longer, longer.len(), &wanted, false));
    assert!(!config_changed(&vec![], 0, &wanted, false));
}

fn var(key: &str, value: &str) -> EnvVar {
    EnvVar { key: key.to_string(), value: value.to_string() }
}

#[test]
fn switches_are_read_from_the_environment() {
    let off = flags(&vec![]);
    assert!(!off.kill_switch_active());
    assert!(!off.dmabuf_disabled && !off.multi_output_enabled);
    let on = RuntimeFlags::from_env(&vec![
        var("BEEWM_NO_DMABUF", "1"),
        var("BEEWM_NO_EXPLICIT_SYNC", ""),
        var("BEEWM_MULTI_OUTPUT", "yes"),
        var("BEEWM_FRAME_CALLBACK_AT_VBLANK", "1"),
        var("BEEWM_LIVE_MODESET", "1"),
    ]);
    assert!(on.dmabuf_disabled && !on.explicit_sync_disabled);
    assert!(on.multi_output_enabled && on.frame_callback_at_vblank && on.live_modeset_enabled);
    assert!(on.kill_switch_active());
    let opted_in = RuntimeFlags::from_env(&vec![var("BEEWM_MULTI_OUTPUT", "1")]);
    assert!(!opted_in.kill_switch_active());
}

#[test]
fn a_frame_lasts_as_long_as_the_refresh_says() {
    assert_eq!(output_frame_interval(Some(60_000)), 16_666);
    assert_eq!(output_frame_interval(Some(144_000)), 6_944);
    assert_eq!(output_frame_interval(None), 16_000);
}

#[test]
fn numbers_are_read_and_written() {
    let number = |s: &str| parse_usize(&chars_of(s), 0);
    assert_eq!(number("42"), Some(42));
    assert_eq!(number("+7"), Some(7));
    assert_eq!(number("-7"), None);
    assert_eq!(number("4x"), None);
    assert_eq!(number(""), None);
    assert_eq!(number("99999999999999999999999"), None);
    let signed = |s: &str| parse_i32(&chars_of(s), 0);
    assert_eq!(signed("-12"), Some(-12));
    assert_eq!(signed("--1"), None);
    assert_eq!(signed("2147483647"), Some(i32::MAX));
    assert_eq!(signed("-2147483649"), None);
    assert_eq!(decimal(0), "0");
    assert_eq!(decimal(12_345), "12345");
    assert_eq!(signed_decimal(-120), "-120");
}

#[test]
fn text_is_taken_apart() {
    let spelled = |v: &Vec<char>| string_of(v, 0, v.len());
    assert_eq!(spelled(&trim(" \t a b\u{3000}\n")), "a b");
    assert_eq!(split_words(&chars_of("  ls  -l\t/"), false), vec!["ls", "-l", "/"]);
    assert!(eq_ignore_ascii_case("PolKit", "pOLkIT") && !eq_ignore_ascii_case("a", "ab"));
    assert!(chars_hold(&chars_of("abcabd"), &chars_of("abd")));
    assert!(!chars_hold(&chars_of("abcab"), &chars_of("abd")));
    assert!(chars_hold(&chars_of("abc"), &chars_of("")));
}
