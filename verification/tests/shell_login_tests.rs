use jc_os::auth::AuthManager;
use jc_os::bridge::{EventBridge, Key};
use jc_os::fs::RamFileSystem;
use jc_os::shell::{ConsoleOp, ShellPhase, ShellTask};

struct Rig {
    bridge: EventBridge,
    fs: RamFileSystem,
    auth: AuthManager,
    out: Vec<ConsoleOp>,
    shell: ShellTask,
}

fn rig() -> Rig {
    let mut out = Vec::new();
    let shell = ShellTask::new(&mut out);
    Rig {
        bridge: EventBridge::new(100),
        fs: RamFileSystem::new(),
        auth: AuthManager::new(),
        out,
        shell,
    }
}

fn type_line(r: &mut Rig, text: &str) {
    for c in text.chars() {
        assert!(r.bridge.push(Key::Char(c)));
    }
    assert!(r.bridge.push(Key::Char('\n')));
    for _ in 0..text.chars().count() + 1 {
        r.shell.step(&mut r.bridge, &mut r.fs, &mut r.auth, &mut r.out);
    }
}

fn has_line(out: &[ConsoleOp], text: &str) -> bool {
    out.iter().any(|o| matches!(o, ConsoleOp::Line(s) if s == text))
}

#[test]
fn fresh_shell_prompts_for_login() {
    let r = rig();
    assert!(matches!(r.shell.phase, ShellPhase::Username));
    assert_eq!(r.out[0], ConsoleOp::Clear);
    assert!(has_line(&r.out, "\n--- LOGIN REQUIRED ---"));
    assert_eq!(r.out.last(), Some(&ConsoleOp::Text("Username: ".to_string())));
}

#[test]
fn good_credentials_authenticate_and_greet() {
    let mut r = rig();
    type_line(&mut r, "andre");
    assert!(matches!(r.shell.phase, ShellPhase::Password { .. }));
    type_line(&mut r, "admin123");
    assert!(matches!(r.shell.phase, ShellPhase::Command));
    assert!(has_line(&r.out, "\nWelcome back, andre!"));
    assert_eq!(r.auth.get_current_username(), "andre");
}

#[test]
fn bad_credentials_stay_unauthenticated() {
    let mut r = rig();
    type_line(&mut r, "bad");
    type_line(&mut r, "bad");
    assert!(matches!(r.shell.phase, ShellPhase::Username));
    assert!(has_line(&r.out, "\n[ERROR] Invalid credentials."));
    assert_eq!(r.auth.get_current_username(), "Guest");
    // And a second bad attempt behaves the same.
    type_line(&mut r, "bad");
    type_line(&mut r, "bad");
    assert!(matches!(r.shell.phase, ShellPhase::Username));
}

#[test]
fn password_characters_echo_masked() {
    let mut r = rig();
    type_line(&mut r, "andre");
    let before = r.out.len();
    assert!(r.bridge.push(Key::Char('x')));
    r.shell.step(&mut r.bridge, &mut r.fs, &mut r.auth, &mut r.out);
    assert_eq!(r.out[before..], [ConsoleOp::Text("*".to_string())]);
}

#[test]
fn username_characters_echo_plainly() {
    let mut r = rig();
    let before = r.out.len();
    assert!(r.bridge.push(Key::Char('a')));
    r.shell.step(&mut r.bridge, &mut r.fs, &mut r.auth, &mut r.out);
    assert_eq!(r.out[before..], [ConsoleOp::Text("a".to_string())]);
}

#[test]
fn backspace_erases_buffered_character() {
    let mut r = rig();
    assert!(r.bridge.push(Key::Char('a')));
    assert!(r.bridge.push(Key::Backspace));
    r.shell.step(&mut r.bridge, &mut r.fs, &mut r.auth, &mut r.out);
    let before = r.out.len();
    r.shell.step(&mut r.bridge, &mut r.fs, &mut r.auth, &mut r.out);
    assert_eq!(r.out[before..], [ConsoleOp::Backspace]);
    // A backspace against an empty buffer does nothing.
    assert!(r.bridge.push(Key::Backspace));
    r.shell.step(&mut r.bridge, &mut r.fs, &mut r.auth, &mut r.out);
    assert_eq!(r.out.len(), before + 1);
}

#[test]
fn commands_run_once_authenticated() {
    let mut r = rig();
    type_line(&mut r, "andre");
    type_line(&mut r, "admin123");
    type_line(&mut r, "note f hi");
    assert!(has_line(&r.out, "File 'f' created."));
    assert_eq!(r.fs.read_file("f"), Some("hi".to_string()));
    // The prompt is printed after the command.
    assert!(r.out.iter().any(
        |o| matches!(o, ConsoleOp::Text(s) if s == "andre@jc-os:/$ ")
    ));
}

#[test]
fn logout_returns_to_login_prompt() {
    let mut r = rig();
    type_line(&mut r, "andre");
    type_line(&mut r, "admin123");
    let before = r.out.len();
    type_line(&mut r, "logout");
    assert!(matches!(r.shell.phase, ShellPhase::Username));
    assert!(has_line(&r.out[before..], "Logged out."));
    assert!(has_line(&r.out[before..], "\n--- LOGIN REQUIRED ---"));
    assert_eq!(r.auth.get_current_username(), "Guest");
}

#[test]
fn step_without_events_does_nothing() {
    let mut r = rig();
    let before = r.out.len();
    r.shell.step(&mut r.bridge, &mut r.fs, &mut r.auth, &mut r.out);
    assert_eq!(r.out.len(), before);
    assert!(matches!(r.shell.phase, ShellPhase::Username));
}

#[test]
fn escape_clears_command_line() {
    let mut r = rig();
    type_line(&mut r, "andre");
    type_line(&mut r, "admin123");
    assert!(r.bridge.push(Key::Char('x')));
    assert!(r.bridge.push(Key::Escape));
    r.shell.step(&mut r.bridge, &mut r.fs, &mut r.auth, &mut r.out);
    let before = r.out.len();
    r.shell.step(&mut r.bridge, &mut r.fs, &mut r.auth, &mut r.out);
    assert_eq!(r.out[before], ConsoleOp::Clear);
    // The emptied line dispatches as no command at the next Enter.
    let before = r.out.len();
    assert!(r.bridge.push(Key::Char('\n')));
    r.shell.step(&mut r.bridge, &mut r.fs, &mut r.auth, &mut r.out);
    assert!(has_line(&r.out[before..], ""));
}
