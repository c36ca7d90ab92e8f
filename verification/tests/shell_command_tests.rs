use jc_os::auth::AuthManager;
use jc_os::fs::RamFileSystem;
use jc_os::shell::{interpret_command, ConsoleOp};

fn fresh() -> (RamFileSystem, AuthManager, Vec<ConsoleOp>) {
    (RamFileSystem::new(), AuthManager::new(), Vec::new())
}

fn lines(out: &[ConsoleOp]) -> Vec<String> {
    out.iter()
        .filter_map(|o| match o {
            ConsoleOp::Line(s) => Some(s.clone()),
            _ => None,
        })
        .collect()
}

#[test]
fn empty_command_prints_nothing() {
    let (mut fs, mut auth, mut out) = fresh();
    interpret_command("   ", &mut fs, &mut auth, &mut out);
    assert!(out.is_empty());
}

#[test]
fn help_prints_two_lines() {
    let (mut fs, mut auth, mut out) = fresh();
    interpret_command("help", &mut fs, &mut auth, &mut out);
    let l = lines(&out);
    assert_eq!(l.len(), 2);
    assert_eq!(l[0], "Commands: help, info, whoami, clear, stats, neofetch");
    assert!(l[1].starts_with("FS: look, open <dir>"));
}

#[test]
fn whoami_reports_guest_without_session() {
    let (mut fs, mut auth, mut out) = fresh();
    interpret_command("whoami", &mut fs, &mut auth, &mut out);
    assert_eq!(out, vec![ConsoleOp::Line("Guest".to_string())]);
}

#[test]
fn unknown_command_is_reported() {
    let (mut fs, mut auth, mut out) = fresh();
    interpret_command("frobnicate now", &mut fs, &mut auth, &mut out);
    assert_eq!(out, vec![ConsoleOp::Line("Unknown command: frobnicate".to_string())]);
}

#[test]
fn note_read_drop_flow() {
    let (mut fs, mut auth, mut out) = fresh();
    interpret_command("note a.txt hello world", &mut fs, &mut auth, &mut out);
    assert_eq!(out.last(), Some(&ConsoleOp::Line("File 'a.txt' created.".to_string())));
    interpret_command("read a.txt", &mut fs, &mut auth, &mut out);
    assert_eq!(out.last(), Some(&ConsoleOp::Line("hello world".to_string())));
    interpret_command("drop a.txt", &mut fs, &mut auth, &mut out);
    assert_eq!(out.last(), Some(&ConsoleOp::Line("File 'a.txt' removed.".to_string())));
    interpret_command("read a.txt", &mut fs, &mut auth, &mut out);
    assert_eq!(out.last(), Some(&ConsoleOp::Line("Error: File 'a.txt' not found.".to_string())));
    interpret_command("drop a.txt", &mut fs, &mut auth, &mut out);
    assert_eq!(
        out.last(),
        Some(&ConsoleOp::Line("Error: Could not find or remove 'a.txt'.".to_string()))
    );
}

#[test]
fn room_open_where_flow() {
    let (mut fs, mut auth, mut out) = fresh();
    interpret_command("room lab", &mut fs, &mut auth, &mut out);
    assert!(out.is_empty());
    interpret_command("open lab", &mut fs, &mut auth, &mut out);
    assert!(out.is_empty());
    interpret_command("where", &mut fs, &mut auth, &mut out);
    assert_eq!(out.last(), Some(&ConsoleOp::Line("/lab".to_string())));
    out.clear();
    interpret_command("room lab", &mut fs, &mut auth, &mut out);
    assert!(out.is_empty());
    interpret_command("open /", &mut fs, &mut auth, &mut out);
    interpret_command("where", &mut fs, &mut auth, &mut out);
    assert_eq!(out.last(), Some(&ConsoleOp::Line("/".to_string())));
    interpret_command("room lab", &mut fs, &mut auth, &mut out);
    assert_eq!(out.last(), Some(&ConsoleOp::Line("Error: Name already exists".to_string())));
    interpret_command("open missing", &mut fs, &mut auth, &mut out);
    assert_eq!(out.last(), Some(&ConsoleOp::Line("Error: Not found".to_string())));
}

#[test]
fn stats_command_reports_counts() {
    let (mut fs, mut auth, mut out) = fresh();
    interpret_command("note f hello", &mut fs, &mut auth, &mut out);
    out.clear();
    interpret_command("stats", &mut fs, &mut auth, &mut out);
    let l = lines(&out);
    assert_eq!(l, vec!["Files/Folders : 1".to_string(), "Used Space    : 5 bytes".to_string()]);
}

#[test]
fn look_lists_entries() {
    let (mut fs, mut auth, mut out) = fresh();
    interpret_command("look", &mut fs, &mut auth, &mut out);
    assert_eq!(out, vec![ConsoleOp::Line("Empty directory.".to_string())]);
    out.clear();
    interpret_command("note f x", &mut fs, &mut auth, &mut out);
    interpret_command("room d", &mut fs, &mut auth, &mut out);
    out.clear();
    interpret_command("look", &mut fs, &mut auth, &mut out);
    assert_eq!(
        out,
        vec![ConsoleOp::Line("f".to_string()), ConsoleOp::Line("d/".to_string())]
    );
}

#[test]
fn clear_emits_clear_operation() {
    let (mut fs, mut auth, mut out) = fresh();
    interpret_command("clear", &mut fs, &mut auth, &mut out);
    assert_eq!(out, vec![ConsoleOp::Clear]);
}

#[test]
fn useradd_requires_administrator() {
    let (mut fs, mut auth, mut out) = fresh();
    interpret_command("useradd eve pw", &mut fs, &mut auth, &mut out);
    assert_eq!(
        out,
        vec![ConsoleOp::Line(
            "[PERMISSION DENIED] Only administrators can add users.".to_string()
        )]
    );
    assert_eq!(auth.users.len(), 1);
}

#[test]
fn useradd_and_userdel_as_administrator() {
    let (mut fs, mut auth, mut out) = fresh();
    assert!(auth.login("andre", "admin123"));
    interpret_command("useradd eve secret", &mut fs, &mut auth, &mut out);
    assert_eq!(
        out.last(),
        Some(&ConsoleOp::Line("[AUTH] User 'eve' created with UID 1000.".to_string()))
    );
    interpret_command("useradd eve other", &mut fs, &mut auth, &mut out);
    assert_eq!(
        out.last(),
        Some(&ConsoleOp::Line("[ERROR] This user already exists!!".to_string()))
    );
    interpret_command("useradd eve", &mut fs, &mut auth, &mut out);
    assert_eq!(
        out.last(),
        Some(&ConsoleOp::Line("Usage: useradd <username> <password>".to_string()))
    );
    interpret_command("userdel eve", &mut fs, &mut auth, &mut out);
    assert_eq!(out.last(), Some(&ConsoleOp::Line("[AUTH] User 'eve' deleted.".to_string())));
    interpret_command("userdel eve", &mut fs, &mut auth, &mut out);
    assert_eq!(out.last(), Some(&ConsoleOp::Line("[ERROR] User not found".to_string())));
    interpret_command("userdel andre", &mut fs, &mut auth, &mut out);
    assert_eq!(
        out.last(),
        Some(&ConsoleOp::Line("[ERROR] Cannot delete the primary administrator".to_string()))
    );
}

#[test]
fn logout_command_ends_session() {
    let (mut fs, mut auth, mut out) = fresh();
    assert!(auth.login("andre", "admin123"));
    interpret_command("logout", &mut fs, &mut auth, &mut out);
    assert_eq!(out, vec![ConsoleOp::Line("Logged out.".to_string())]);
    assert_eq!(auth.get_current_username(), "Guest");
}

#[test]
fn edit_overwrites_content() {
    let (mut fs, mut auth, mut out) = fresh();
    interpret_command("note f old text", &mut fs, &mut auth, &mut out);
    interpret_command("edit f new text", &mut fs, &mut auth, &mut out);
    assert_eq!(out.last(), Some(&ConsoleOp::Line("File 'f' updated.".to_string())));
    assert_eq!(fs.read_file("f"), Some("new text".to_string()));
}

#[test]
fn info_and_neofetch_print_banners() {
    let (mut fs, mut auth, mut out) = fresh();
    interpret_command("info", &mut fs, &mut auth, &mut out);
    assert_eq!(lines(&out)[0], "JC-OS v0.2 - Andre Edition");
    out.clear();
    interpret_command("neofetch", &mut fs, &mut auth, &mut out);
    let l = lines(&out);
    assert_eq!(l.len(), 3);
    assert_eq!(l[1], "  _/       User: Guest");
}
