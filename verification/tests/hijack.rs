use asciidesk::session_hijack::{find_session_environment, session_environment_plan};

#[test]
fn xorg_command_line_gives_auth_and_display() {
    let ps = "COMMAND\n/usr/lib/xorg/Xorg :1 -auth /run/user/1000/gdm/Xauthority -nolisten tcp\nbash\n";
    let env = find_session_environment(ps);
    assert_eq!(env.display, ":1");
    assert_eq!(env.xauthority.as_deref(), Some("/run/user/1000/gdm/Xauthority"));
}

#[test]
fn display_defaults_to_zero() {
    let ps = "/usr/bin/Xwayland -auth /tmp/xauth_abc -listen 4\r\n";
    let env = find_session_environment(ps);
    assert_eq!(env.display, ":0");
    assert_eq!(env.xauthority.as_deref(), Some("/tmp/xauth_abc"));
}

#[test]
fn explicit_flags_name_their_values() {
    let ps = "x11vnc -auth /var/lib/x.auth -display :5 -forever";
    let env = find_session_environment(ps);
    assert_eq!(env.display, ":5");
    assert_eq!(env.xauthority.as_deref(), Some("/var/lib/x.auth"));
}

#[test]
fn later_lines_win() {
    let ps = "Xorg :0 -auth /a\nXorg :1 -auth /b\n";
    let env = find_session_environment(ps);
    assert_eq!(env.display, ":1");
    assert_eq!(env.xauthority.as_deref(), Some("/b"));
}

#[test]
fn auth_flag_at_end_has_no_value() {
    let env = find_session_environment("Xorg :0 -auth");
    assert_eq!(env.display, ":0");
    assert_eq!(env.xauthority, None);
}

#[test]
fn nothing_found() {
    let env = find_session_environment("bash\nsshd: user@pts/0\n");
    assert_eq!(env.display, ":0");
    assert_eq!(env.xauthority, None);
    let env = find_session_environment("");
    assert_eq!(env.xauthority, None);
}

#[test]
fn environment_plans() {
    let plan = session_environment_plan("Xorg :1 -auth /x\n", false);
    assert_eq!(
        plan,
        vec![("DISPLAY".to_string(), ":1".to_string()), ("XAUTHORITY".to_string(), "/x".to_string())]
    );
    let plan = session_environment_plan("bash\n", false);
    assert_eq!(plan, vec![("WAYLAND_DISPLAY".to_string(), "wayland-0".to_string())]);
    let plan = session_environment_plan("bash\n", true);
    assert!(plan.is_empty());
}
