//! The shell: a state machine over key events. Unauthenticated, it gathers
//! a user name and a password and tries them against the credential store;
//! authenticated, it gathers a command line and dispatches it to the
//! filesystem and the credential store. All console output is produced as
//! data — a sequence of console operations — so that every line the shell
//! prints is part of its contract.

use vstd::prelude::*;

use crate::auth::{user_index, login_index, AuthManager, AuthError, Role, UserModel};
use crate::bridge::{spec_pop, EventBridge, Key};
use crate::fs::{
    dir_at, dir_with_entries, empty_dir_m, file_m, lemma_dir_at_wf, lemma_update_at_same,
    lookup_i, m_stats, remove_entry, sat_usize, set_entry, update_at, EntryModel, NodeModel,
    NodeType, RamFileSystem,
};
use crate::strutil::{
    dec_str, split_first_space, split_head, split_rest, str_eq, trim, trim_spec, u32_to_string,
    u64_to_string,
};

verus! {

broadcast use {vstd::std_specs::vec::group_vec_axioms, vstd::seq::group_seq_axioms};

// ---------------------------------------------------------------------------
// Console output as data.
// ---------------------------------------------------------------------------

/// One operation on the console.
#[derive(Debug, Clone, PartialEq, Eq)]
pub enum ConsoleOp {
    /// Print the text, no newline.
    Text(String),
    /// Print the text followed by a newline.
    Line(String),
    /// Clear the whole screen.
    Clear,
    /// Erase the character before the cursor.
    Backspace,
    /// Redraw the clock face in the screen corner.
    Clock(String),
}

/// Model of a console operation.
pub enum OpModel {
    Text(Seq<char>),
    Line(Seq<char>),
    Clear,
    Backspace,
    Clock(Seq<char>),
}

/// The model of one console operation.
pub open spec fn op_model(o: ConsoleOp) -> OpModel {
    match o {
        ConsoleOp::Text(s) => OpModel::Text(s@),
        ConsoleOp::Line(s) => OpModel::Line(s@),
        ConsoleOp::Clear => OpModel::Clear,
        ConsoleOp::Backspace => OpModel::Backspace,
        ConsoleOp::Clock(s) => OpModel::Clock(s@),
    }
}

/// The models of a sequence of console operations.
pub open spec fn out_model(v: Seq<ConsoleOp>) -> Seq<OpModel> {
    Seq::new(v.len(), |i: int| op_model(v[i]))
}

/// What a step appended to the console: the new operations past the old
/// length.
pub open spec fn out_added(v0: Seq<ConsoleOp>, v1: Seq<ConsoleOp>) -> Seq<OpModel> {
    out_model(v1).skip(v0.len() as int)
}

/// The console only ever grows: the old operations are still there.
pub open spec fn out_grows(v0: Seq<ConsoleOp>, v1: Seq<ConsoleOp>) -> bool {
    v1.len() >= v0.len() && out_model(v1).take(v0.len() as int) == out_model(v0)
}

// ---------------------------------------------------------------------------
// The command surface.
// ---------------------------------------------------------------------------

/// A parsed command line.
pub enum Command {
    Empty,
    Help,
    Info,
    Whoami,
    Clear,
    Stats,
    Neofetch,
    Logout,
    UserAdd(String, String),
    UserDel(String),
    Look,
    Open(String),
    Room(String),
    Where,
    Note(String, String),
    Read(String),
    Drop(String),
    Edit(String, String),
    Unknown(String),
}

/// Model of a parsed command line.
pub enum CommandModel {
    Empty,
    Help,
    Info,
    Whoami,
    Clear,
    Stats,
    Neofetch,
    Logout,
    UserAdd(Seq<char>, Seq<char>),
    UserDel(Seq<char>),
    Look,
    Open(Seq<char>),
    Room(Seq<char>),
    Where,
    Note(Seq<char>, Seq<char>),
    Read(Seq<char>),
    Drop(Seq<char>),
    Edit(Seq<char>, Seq<char>),
    Unknown(Seq<char>),
}

/// The model of a parsed command.
pub open spec fn cmd_model(c: Command) -> CommandModel {
    match c {
        Command::Empty => CommandModel::Empty,
        Command::Help => CommandModel::Help,
        Command::Info => CommandModel::Info,
        Command::Whoami => CommandModel::Whoami,
        Command::Clear => CommandModel::Clear,
        Command::Stats => CommandModel::Stats,
        Command::Neofetch => CommandModel::Neofetch,
        Command::Logout => CommandModel::Logout,
        Command::UserAdd(u, p) => CommandModel::UserAdd(u@, p@),
        Command::UserDel(u) => CommandModel::UserDel(u@),
        Command::Look => CommandModel::Look,
        Command::Open(a) => CommandModel::Open(a@),
        Command::Room(a) => CommandModel::Room(a@),
        Command::Where => CommandModel::Where,
        Command::Note(n, c2) => CommandModel::Note(n@, c2@),
        Command::Read(n) => CommandModel::Read(n@),
        Command::Drop(n) => CommandModel::Drop(n@),
        Command::Edit(n, c2) => CommandModel::Edit(n@, c2@),
        Command::Unknown(c2) => CommandModel::Unknown(c2@),
    }
}

/// How a raw line is read as a command: trimmed, split at the first space
/// into the verb and its arguments, the arguments split further as each
/// verb wants them.
pub open spec fn spec_parse(s: Seq<char>) -> CommandModel {
    let line = trim_spec(s);
    let c = split_head(line);
    let a = split_rest(line);
    if line.len() == 0 {
        CommandModel::Empty
    } else if c == "help"@ {
        CommandModel::Help
    } else if c == "info"@ {
        CommandModel::Info
    } else if c == "whoami"@ {
        CommandModel::Whoami
    } else if c == "clear"@ {
        CommandModel::Clear
    } else if c == "stats"@ {
        CommandModel::Stats
    } else if c == "neofetch"@ {
        CommandModel::Neofetch
    } else if c == "logout"@ {
        CommandModel::Logout
    } else if c == "useradd"@ {
        CommandModel::UserAdd(split_head(a), trim_spec(split_rest(a)))
    } else if c == "userdel"@ {
        CommandModel::UserDel(trim_spec(a))
    } else if c == "look"@ {
        CommandModel::Look
    } else if c == "open"@ {
        CommandModel::Open(a)
    } else if c == "room"@ {
        CommandModel::Room(a)
    } else if c == "where"@ {
        CommandModel::Where
    } else if c == "note"@ {
        CommandModel::Note(split_head(a), split_rest(a))
    } else if c == "read"@ {
        CommandModel::Read(trim_spec(a))
    } else if c == "drop"@ {
        CommandModel::Drop(trim_spec(a))
    } else if c == "edit"@ {
        CommandModel::Edit(split_head(a), split_rest(a))
    } else {
        CommandModel::Unknown(c)
    }
}

/// Parses a raw command line.
pub fn parse_command(s: &str) -> (r: Command)
    ensures
        cmd_model(r) == spec_parse(s@),
{
    let line = trim(s);
    if line.as_str().is_empty() {
        return Command::Empty;
    }
    let (c, a) = split_first_space(line.as_str());
    if str_eq(c.as_str(), "help") {
        Command::Help
    } else if str_eq(c.as_str(), "info") {
        Command::Info
    } else if str_eq(c.as_str(), "whoami") {
        Command::Whoami
    } else if str_eq(c.as_str(), "clear") {
        Command::Clear
    } else if str_eq(c.as_str(), "stats") {
        Command::Stats
    } else if str_eq(c.as_str(), "neofetch") {
        Command::Neofetch
    } else if str_eq(c.as_str(), "logout") {
        Command::Logout
    } else if str_eq(c.as_str(), "useradd") {
        let (u, p) = split_first_space(a.as_str());
        Command::UserAdd(u, trim(p.as_str()))
    } else if str_eq(c.as_str(), "userdel") {
        Command::UserDel(trim(a.as_str()))
    } else if str_eq(c.as_str(), "look") {
        Command::Look
    } else if str_eq(c.as_str(), "open") {
        Command::Open(a)
    } else if str_eq(c.as_str(), "room") {
        Command::Room(a)
    } else if str_eq(c.as_str(), "where") {
        Command::Where
    } else if str_eq(c.as_str(), "note") {
        let (n, t) = split_first_space(a.as_str());
        Command::Note(n, t)
    } else if str_eq(c.as_str(), "read") {
        Command::Read(trim(a.as_str()))
    } else if str_eq(c.as_str(), "drop") {
        Command::Drop(trim(a.as_str()))
    } else if str_eq(c.as_str(), "edit") {
        let (n, t) = split_first_space(a.as_str());
        Command::Edit(n, t)
    } else {
        Command::Unknown(c)
    }
}

// ---------------------------------------------------------------------------
// The prompt.
// ---------------------------------------------------------------------------

/// The segments joined, each preceded by a slash.
pub open spec fn segs_joined(p: Seq<Seq<char>>) -> Seq<char>
    decreases p.len(),
{
    if p.len() == 0 {
        Seq::empty()
    } else {
        segs_joined(p.drop_last()) + seq!['/'] + p.last()
    }
}

/// The working directory as text: `/` at the root, else the segments each
/// preceded by a slash.
pub open spec fn path_chars(p: Seq<Seq<char>>) -> Seq<char> {
    if p.len() == 0 {
        "/"@
    } else {
        segs_joined(p)
    }
}

/// The working directory of the filesystem as text.
pub fn path_string(fs: &RamFileSystem) -> (r: String)
    ensures
        r@ == path_chars(fs.cwd_m()),
{
    if fs.cwd.len() == 0 {
        proof {
            assert(fs.cwd_m().len() == 0);
        }
        return String::from_str("/");
    }
    let mut r = String::new();
    let n = fs.cwd.len();
    let mut k: usize = 0;
    while k < n
        invariant
            n == fs.cwd@.len(),
            k <= n,
            r@ == segs_joined(fs.cwd_m().take(k as int)),
        decreases n - k,
    {
        proof {
            assert(segs_joined(fs.cwd_m().take(k as int)) + seq!['/'] =~= segs_joined(
                fs.cwd_m().take(k as int),
            ).push('/'));
            assert(fs.cwd_m().take(k + 1).drop_last() =~= fs.cwd_m().take(k as int));
            assert(fs.cwd_m().take(k + 1).last() == fs.cwd_m()[k as int]);
        }
        r.push('/');
        r.append(fs.cwd[k].as_str());
        k += 1;
    }
    proof {
        assert(fs.cwd_m().take(n as int) =~= fs.cwd_m());
    }
    r
}

/// The characters of the shell prompt: user, host, working directory.
pub open spec fn prompt_chars(user: Seq<char>, cwd: Seq<Seq<char>>) -> Seq<char> {
    user + "@jc-os:"@ + path_chars(cwd) + "$ "@
}

/// The prompt for the current session and working directory.
pub fn prompt_string(fs: &RamFileSystem, auth: &AuthManager) -> (r: String)
    ensures
        ({
            let user = match auth.current_m() {
                Some(u) => u.username,
                None => "Guest"@,
            };
            r@ == prompt_chars(user, fs.cwd_m())
        }),
{
    let mut r = auth.get_current_username();
    r.append("@jc-os:");
    let p = path_string(fs);
    r.append(p.as_str());
    r.append("$ ");
    r
}

// ---------------------------------------------------------------------------
// Dispatching a command.
// ---------------------------------------------------------------------------

/// The whole mutable state a command can touch, as one model value.
pub struct SysModel {
    pub root: NodeModel,
    pub cwd: Seq<Seq<char>>,
    pub users: Seq<UserModel>,
    pub current: Option<UserModel>,
    pub next_uid: u32,
}

/// The model of the filesystem and the credential store together.
pub open spec fn sys_model(fs: RamFileSystem, auth: AuthManager) -> SysModel {
    SysModel {
        root: fs.root_m(),
        cwd: fs.cwd_m(),
        users: auth.users_m(),
        current: auth.current_m(),
        next_uid: auth.next_uid_m(),
    }
}

/// The directory the working directory denotes.
pub open spec fn cur_es(s: SysModel) -> Seq<EntryModel> {
    dir_at(s.root, s.cwd).unwrap()->Dir_entries
}

/// Whether the session belongs to an administrator.
pub open spec fn is_admin_m(cur: Option<UserModel>) -> bool {
    cur matches Some(u) && u.role == Role::Admin
}

/// The session's user name, `"Guest"` when nobody is logged in.
pub open spec fn current_name_m(cur: Option<UserModel>) -> Seq<char> {
    match cur {
        Some(u) => u.username,
        None => "Guest"@,
    }
}

/// The session's user id, 1000 when nobody is logged in.
pub open spec fn current_uid_m(cur: Option<UserModel>) -> u32 {
    match cur {
        Some(u) => u.uid,
        None => 1000u32,
    }
}

/// The tree after writing file `n` with content `t` in the working
/// directory.
pub open spec fn root_after_write(s: SysModel, n: Seq<char>, t: Seq<char>) -> NodeModel {
    update_at(
        s.root,
        s.cwd,
        dir_with_entries(
            dir_at(s.root, s.cwd).unwrap(),
            set_entry(cur_es(s), n, file_m(current_uid_m(s.current), t)),
        ),
    )
}

/// What one dispatched command does: how the state moves from `s0` to `s1`
/// and exactly which console operations are appended.
pub open spec fn run_effect(c: CommandModel, s0: SysModel, s1: SysModel, added: Seq<OpModel>) -> bool {
    match c {
        CommandModel::Empty => s1 == s0 && added == Seq::<OpModel>::empty(),
        CommandModel::Help => s1 == s0 && added == seq![
            OpModel::Line("Commands: help, info, whoami, clear, stats, neofetch"@),
            OpModel::Line("FS: look, open <dir>, room <name>, where, note <file> <text>, read <file>, drop <file>"@),
        ],
        CommandModel::Info => s1 == s0 && added == seq![
            OpModel::Line("JC-OS v0.2 - Andre Edition"@),
            OpModel::Line("Status: Stable"@),
        ],
        CommandModel::Whoami => s1 == s0 && added == seq![
            OpModel::Line(current_name_m(s0.current)),
        ],
        CommandModel::Clear => s1 == s0 && added == seq![OpModel::Clear],
        CommandModel::Stats => s1 == s0 && added == seq![
            OpModel::Line("Files/Folders : "@ + dec_str(sat_usize(m_stats(s0.root).0))),
            OpModel::Line("Used Space    : "@ + dec_str(sat_usize(m_stats(s0.root).1)) + " bytes"@),
        ],
        CommandModel::Neofetch => s1 == s0 && added == seq![
            OpModel::Line("   _/_/    JC-OS v0.4 Pro"@),
            OpModel::Line("  _/       User: "@ + current_name_m(s0.current)),
            OpModel::Line(" _/_/_/    FS  : Hierarchical RAMFS"@),
        ],
        CommandModel::Logout => s1 == (SysModel { current: None, ..s0 }) && added == seq![
            OpModel::Line("Logged out."@),
        ],
        CommandModel::UserAdd(u, p) => {
            if !is_admin_m(s0.current) {
                s1 == s0 && added == seq![
                    OpModel::Line("[PERMISSION DENIED] Only administrators can add users."@),
                ]
            } else if u.len() == 0 || p.len() == 0 {
                s1 == s0 && added == seq![OpModel::Line("Usage: useradd <username> <password>"@)]
            } else if user_index(s0.users, u) >= 0 {
                s1 == s0 && added == seq![OpModel::Line("[ERROR] This user already exists!!"@)]
            } else if s0.next_uid == u32::MAX {
                s1 == s0 && added == seq![OpModel::Line("[ERROR] No user id left"@)]
            } else {
                s1 == (SysModel {
                    users: s0.users.push(
                        UserModel {
                            username: u,
                            password: p,
                            role: Role::Standard,
                            uid: s0.next_uid,
                        },
                    ),
                    next_uid: (s0.next_uid + 1) as u32,
                    ..s0
                }) && added == seq![
                    OpModel::Line(
                        "[AUTH] User '"@ + u + "' created with UID "@ + dec_str(
                            s0.next_uid as nat,
                        ) + "."@,
                    ),
                ]
            }
        },
        CommandModel::UserDel(u) => {
            if !is_admin_m(s0.current) {
                s1 == s0 && added == seq![
                    OpModel::Line("[PERMISSION DENIED] Only administrators can delete users."@),
                ]
            } else if u.len() == 0 {
                s1 == s0 && added == seq![OpModel::Line("Usage: userdel <username>"@)]
            } else if u == "andre"@ {
                s1 == s0 && added == seq![
                    OpModel::Line("[ERROR] Cannot delete the primary administrator"@),
                ]
            } else if s0.current matches Some(cu) && cu.username == u {
                s1 == s0 && added == seq![
                    OpModel::Line("[ERROR] Cannot delete the currently logged-in user"@),
                ]
            } else if user_index(s0.users, u) >= 0 {
                s1 == (SysModel { users: s0.users.remove(user_index(s0.users, u)), ..s0 })
                    && added == seq![OpModel::Line("[AUTH] User '"@ + u + "' deleted."@)]
            } else {
                s1 == s0 && added == seq![OpModel::Line("[ERROR] User not found"@)]
            }
        },
        CommandModel::Look => s1 == s0 && ({
            let es = cur_es(s0);
            if es.len() == 0 {
                added == seq![OpModel::Line("Empty directory."@)]
            } else {
                added == Seq::new(
                    es.len(),
                    |i: int|
                        if es[i].node is Dir {
                            OpModel::Line(es[i].name + "/"@)
                        } else {
                            OpModel::Line(es[i].name)
                        },
                )
            }
        }),
        CommandModel::Open(a) => {
            if a.len() == 0 {
                s1 == s0 && added == seq![OpModel::Line("Usage: open <directory>"@)]
            } else if a == "/"@ {
                s1 == (SysModel { cwd: Seq::empty(), ..s0 }) && added == Seq::<OpModel>::empty()
            } else if a == ".."@ {
                s1 == (SysModel {
                    cwd: if s0.cwd.len() == 0 {
                        s0.cwd
                    } else {
                        s0.cwd.drop_last()
                    },
                    ..s0
                }) && added == Seq::<OpModel>::empty()
            } else if lookup_i(cur_es(s0), a) >= 0 && cur_es(s0)[lookup_i(cur_es(s0), a)].node
                is Dir {
                s1 == (SysModel { cwd: s0.cwd.push(a), ..s0 }) && added == Seq::<OpModel>::empty()
            } else {
                s1 == s0 && added == seq![OpModel::Line("Error: Not found"@)]
            }
        },
        CommandModel::Room(a) => {
            if a.len() == 0 {
                s1 == s0 && added == seq![OpModel::Line("Usage: room <name>"@)]
            } else if lookup_i(cur_es(s0), a) >= 0 {
                s1 == s0 && added == seq![OpModel::Line("Error: Name already exists"@)]
            } else {
                s1 == (SysModel {
                    root: update_at(
                        s0.root,
                        s0.cwd,
                        dir_with_entries(
                            dir_at(s0.root, s0.cwd).unwrap(),
                            set_entry(cur_es(s0), a, empty_dir_m(current_uid_m(s0.current))),
                        ),
                    ),
                    ..s0
                }) && added == Seq::<OpModel>::empty()
            }
        },
        CommandModel::Where => s1 == s0 && added == seq![OpModel::Line(path_chars(s0.cwd))],
        CommandModel::Note(n, t) => {
            if n.len() == 0 {
                s1 == s0 && added == seq![OpModel::Line("Usage: note <filename> <content>"@)]
            } else {
                s1 == (SysModel { root: root_after_write(s0, n, t), ..s0 }) && added == seq![
                    OpModel::Line("File '"@ + n + "' created."@),
                ]
            }
        },
        CommandModel::Read(n) => s1 == s0 && ({
            let es = cur_es(s0);
            let i = lookup_i(es, n);
            if i >= 0 && es[i].node is File {
                added == seq![OpModel::Line(es[i].node->File_data)]
            } else {
                added == seq![OpModel::Line("Error: File '"@ + n + "' not found."@)]
            }
        }),
        CommandModel::Drop(n) => {
            if n.len() == 0 {
                s1 == s0 && added == seq![OpModel::Line("Usage: drop <filename>"@)]
            } else if lookup_i(cur_es(s0), n) >= 0 {
                s1 == (SysModel {
                    root: update_at(
                        s0.root,
                        s0.cwd,
                        dir_with_entries(
                            dir_at(s0.root, s0.cwd).unwrap(),
                            remove_entry(cur_es(s0), n),
                        ),
                    ),
                    ..s0
                }) && added == seq![OpModel::Line("File '"@ + n + "' removed."@)]
            } else {
                s1 == s0 && added == seq![
                    OpModel::Line("Error: Could not find or remove '"@ + n + "'."@),
                ]
            }
        },
        CommandModel::Edit(n, t) => {
            if n.len() == 0 {
                s1 == s0 && added == seq![OpModel::Line("Usage: edit <filename> <text>"@)]
            } else {
                s1 == (SysModel { root: root_after_write(s0, n, t), ..s0 }) && added == seq![
                    OpModel::Line("File '"@ + n + "' updated."@),
                ]
            }
        },
        CommandModel::Unknown(c2) => s1 == s0 && added == seq![
            OpModel::Line("Unknown command: "@ + c2),
        ],
    }
}

/// Whether the session belongs to an administrator.
fn is_admin(auth: &AuthManager) -> (r: bool)
    ensures
        r == is_admin_m(auth.current_m()),
{
    match &auth.current_user {
        Some(u) => match u.role {
            Role::Admin => true,
            Role::Standard => false,
        },
        None => false,
    }
}

/// Growing the console twice grows it.
pub proof fn lemma_grows_trans(v0: Seq<ConsoleOp>, v1: Seq<ConsoleOp>, v2: Seq<ConsoleOp>)
    requires
        out_grows(v0, v1),
        out_grows(v1, v2),
    ensures
        out_grows(v0, v2),
{
    assert forall|i: int| 0 <= i < v0.len() implies out_model(v2).take(v0.len() as int)[i]
        == out_model(v0)[i] by {
        assert(out_model(v1).take(v0.len() as int)[i] == out_model(v0)[i]);
        assert(out_model(v2).take(v1.len() as int)[i] == out_model(v1)[i]);
    }
    assert(out_model(v2).take(v0.len() as int) =~= out_model(v0));
}

/// What two growths append is the two appended parts, in order.
pub proof fn lemma_added_compose(v0: Seq<ConsoleOp>, v1: Seq<ConsoleOp>, v2: Seq<ConsoleOp>)
    requires
        out_grows(v0, v1),
        out_grows(v1, v2),
    ensures
        out_grows(v0, v2),
        out_added(v0, v2) == out_added(v0, v1) + out_added(v1, v2),
{
    lemma_grows_trans(v0, v1, v2);
    assert forall|i: int| 0 <= i < v2.len() - v0.len() implies out_added(v0, v2)[i] == (out_added(
        v0,
        v1,
    ) + out_added(v1, v2))[i] by {
        if i < v1.len() - v0.len() {
            assert(out_model(v2).take(v1.len() as int)[v0.len() + i] == out_model(v1)[v0.len()
                + i]);
        }
    }
    assert(out_added(v0, v2) =~= out_added(v0, v1) + out_added(v1, v2));
}

/// Nothing appended: the console grew by nothing.
pub proof fn lemma_push0(v0: Seq<ConsoleOp>, v1: Seq<ConsoleOp>)
    requires
        v1 == v0,
    ensures
        out_grows(v0, v1),
        out_added(v0, v1) == Seq::<OpModel>::empty(),
{
    assert(out_model(v1).take(v0.len() as int) =~= out_model(v0));
    assert(out_added(v0, v1) =~= Seq::<OpModel>::empty());
}

/// One operation appended.
pub proof fn lemma_push1(v0: Seq<ConsoleOp>, v1: Seq<ConsoleOp>, a: ConsoleOp)
    requires
        v1 == v0.push(a),
    ensures
        out_grows(v0, v1),
        out_added(v0, v1) == seq![op_model(a)],
{
    assert(out_model(v1).take(v0.len() as int) =~= out_model(v0));
    assert(out_added(v0, v1) =~= seq![op_model(a)]);
}

/// Two operations appended.
pub proof fn lemma_push2(v0: Seq<ConsoleOp>, v1: Seq<ConsoleOp>, a: ConsoleOp, b: ConsoleOp)
    requires
        v1 == v0.push(a).push(b),
    ensures
        out_grows(v0, v1),
        out_added(v0, v1) == seq![op_model(a), op_model(b)],
{
    assert(out_model(v1).take(v0.len() as int) =~= out_model(v0));
    assert(out_added(v0, v1) =~= seq![op_model(a), op_model(b)]);
}

/// Three operations appended.
pub proof fn lemma_push3(v0: Seq<ConsoleOp>, v1: Seq<ConsoleOp>, a: ConsoleOp, b: ConsoleOp, c: ConsoleOp)
    requires
        v1 == v0.push(a).push(b).push(c),
    ensures
        out_grows(v0, v1),
        out_added(v0, v1) == seq![op_model(a), op_model(b), op_model(c)],
{
    assert(out_model(v1).take(v0.len() as int) =~= out_model(v0));
    assert(out_added(v0, v1) =~= seq![op_model(a), op_model(b), op_model(c)]);
}

/// Interprets one command line against the filesystem and the credential
/// store, appending every line the command prints to the console.
#[verifier::rlimit(100)]
pub fn interpret_command(
    command: &str,
    fs: &mut RamFileSystem,
    auth: &mut AuthManager,
    out: &mut Vec<ConsoleOp>,
)
    requires
        old(fs).wf(),
        old(auth).wf(),
    ensures
        final(fs).wf(),
        final(auth).wf(),
        out_grows(old(out)@, final(out)@),
        run_effect(
            spec_parse(command@),
            sys_model(*old(fs), *old(auth)),
            sys_model(*final(fs), *final(auth)),
            out_added(old(out)@, final(out)@),
        ),
{
    let cmd = parse_command(command);
    let ghost s0 = sys_model(*fs, *auth);
    let ghost out0 = out@;
    match cmd {
        Command::Empty => {
            proof {
                lemma_push0(out0, out@);
                assert(run_effect(spec_parse(command@), s0, sys_model(*fs, *auth), out_added(out0, out@)));
            }
        },
        Command::Help => {
            out.push(
                ConsoleOp::Line(
                    String::from_str("Commands: help, info, whoami, clear, stats, neofetch"),
                ),
            );
            out.push(
                ConsoleOp::Line(
                    String::from_str(
                        "FS: look, open <dir>, room <name>, where, note <file> <text>, read <file>, drop <file>",
                    ),
                ),
            );
            proof {
                lemma_push2(out0, out@, out@[out0.len() as int], out@[out0.len() as int + 1]);
                assert(run_effect(spec_parse(command@), s0, sys_model(*fs, *auth), out_added(out0, out@)));
            }
        },
        Command::Info => {
            out.push(ConsoleOp::Line(String::from_str("JC-OS v0.2 - Andre Edition")));
            out.push(ConsoleOp::Line(String::from_str("Status: Stable")));
            proof {
                lemma_push2(out0, out@, out@[out0.len() as int], out@[out0.len() as int + 1]);
                assert(run_effect(spec_parse(command@), s0, sys_model(*fs, *auth), out_added(out0, out@)));
            }
        },
        Command::Whoami => {
            let name = auth.get_current_username();
            out.push(ConsoleOp::Line(name));
            proof {
                lemma_push1(out0, out@, out@[out0.len() as int]);
                assert(run_effect(spec_parse(command@), s0, sys_model(*fs, *auth), out_added(out0, out@)));
            }
        },
        Command::Clear => {
            out.push(ConsoleOp::Clear);
            proof {
                lemma_push1(out0, out@, out@[out0.len() as int]);
                assert(run_effect(spec_parse(command@), s0, sys_model(*fs, *auth), out_added(out0, out@)));
            }
        },
        Command::Stats => {
            let (count, bytes) = fs.get_stats();
            let mut l1 = String::from_str("Files/Folders : ");
            let c_str = u64_to_string(count as u64);
            l1.append(c_str.as_str());
            let mut l2 = String::from_str("Used Space    : ");
            let b_str = u64_to_string(bytes as u64);
            l2.append(b_str.as_str());
            l2.append(" bytes");
            out.push(ConsoleOp::Line(l1));
            out.push(ConsoleOp::Line(l2));
            proof {
                lemma_push2(out0, out@, out@[out0.len() as int], out@[out0.len() as int + 1]);
                assert(run_effect(spec_parse(command@), s0, sys_model(*fs, *auth), out_added(out0, out@)));
            }
        },
        Command::Neofetch => {
            out.push(ConsoleOp::Line(String::from_str("   _/_/    JC-OS v0.4 Pro")));
            let mut l2 = String::from_str("  _/       User: ");
            let name = auth.get_current_username();
            l2.append(name.as_str());
            out.push(ConsoleOp::Line(l2));
            out.push(ConsoleOp::Line(String::from_str(" _/_/_/    FS  : Hierarchical RAMFS")));
            proof {
                lemma_push3(
                    out0,
                    out@,
                    out@[out0.len() as int],
                    out@[out0.len() as int + 1],
                    out@[out0.len() as int + 2],
                );
                assert(run_effect(spec_parse(command@), s0, sys_model(*fs, *auth), out_added(out0, out@)));
            }
        },
        Command::Logout => {
            auth.logout();
            out.push(ConsoleOp::Line(String::from_str("Logged out.")));
            proof {
                lemma_push1(out0, out@, out@[out0.len() as int]);
                assert(run_effect(spec_parse(command@), s0, sys_model(*fs, *auth), out_added(out0, out@)));
            }
        },
        Command::UserAdd(u, p) => {
            if !is_admin(auth) {
                out.push(
                    ConsoleOp::Line(
                        String::from_str("[PERMISSION DENIED] Only administrators can add users."),
                    ),
                );
                proof {
                    lemma_push1(out0, out@, out@[out0.len() as int]);
                    assert(run_effect(spec_parse(command@), s0, sys_model(*fs, *auth), out_added(out0, out@)));
                }
            } else if u.as_str().is_empty() || p.as_str().is_empty() {
                out.push(ConsoleOp::Line(String::from_str("Usage: useradd <username> <password>")));
                proof {
                    lemma_push1(out0, out@, out@[out0.len() as int]);
                    assert(run_effect(spec_parse(command@), s0, sys_model(*fs, *auth), out_added(out0, out@)));
                }
            } else {
                match auth.add_user(u.as_str(), p.as_str()) {
                    Ok(new_uid) => {
                        let mut msg = String::from_str("[AUTH] User '");
                        msg.append(u.as_str());
                        msg.append("' created with UID ");
                        let uid_str = u32_to_string(new_uid);
                        msg.append(uid_str.as_str());
                        msg.append(".");
                        out.push(ConsoleOp::Line(msg));
                        proof {
                            lemma_push1(out0, out@, out@[out0.len() as int]);
                            assert(run_effect(spec_parse(command@), s0, sys_model(*fs, *auth), out_added(out0, out@)));
                        }
                    },
                    Err(AuthError::UserExists) => {
                        out.push(
                            ConsoleOp::Line(String::from_str("[ERROR] This user already exists!!")),
                        );
                        proof {
                            lemma_push1(out0, out@, out@[out0.len() as int]);
                            assert(run_effect(spec_parse(command@), s0, sys_model(*fs, *auth), out_added(out0, out@)));
                        }
                    },
                    Err(_) => {
                        out.push(ConsoleOp::Line(String::from_str("[ERROR] No user id left")));
                        proof {
                            lemma_push1(out0, out@, out@[out0.len() as int]);
                            assert(run_effect(spec_parse(command@), s0, sys_model(*fs, *auth), out_added(out0, out@)));
                        }
                    },
                }
            }
        },
        Command::UserDel(u) => {
            if !is_admin(auth) {
                out.push(
                    ConsoleOp::Line(
                        String::from_str(
                            "[PERMISSION DENIED] Only administrators can delete users.",
                        ),
                    ),
                );
                proof {
                    lemma_push1(out0, out@, out@[out0.len() as int]);
                    assert(run_effect(spec_parse(command@), s0, sys_model(*fs, *auth), out_added(out0, out@)));
                }
            } else if u.as_str().is_empty() {
                out.push(ConsoleOp::Line(String::from_str("Usage: userdel <username>")));
                proof {
                    lemma_push1(out0, out@, out@[out0.len() as int]);
                    assert(run_effect(spec_parse(command@), s0, sys_model(*fs, *auth), out_added(out0, out@)));
                }
            } else {
                match auth.delete_user(u.as_str()) {
                    Ok(_) => {
                        let mut msg = String::from_str("[AUTH] User '");
                        msg.append(u.as_str());
                        msg.append("' deleted.");
                        out.push(ConsoleOp::Line(msg));
                        proof {
                            lemma_push1(out0, out@, out@[out0.len() as int]);
                            assert(run_effect(spec_parse(command@), s0, sys_model(*fs, *auth), out_added(out0, out@)));
                        }
                    },
                    Err(AuthError::ProtectedUser) => {
                        out.push(
                            ConsoleOp::Line(
                                String::from_str("[ERROR] Cannot delete the primary administrator"),
                            ),
                        );
                        proof {
                            lemma_push1(out0, out@, out@[out0.len() as int]);
                            assert(run_effect(spec_parse(command@), s0, sys_model(*fs, *auth), out_added(out0, out@)));
                        }
                    },
                    Err(AuthError::ActiveUser) => {
                        out.push(
                            ConsoleOp::Line(
                                String::from_str(
                                    "[ERROR] Cannot delete the currently logged-in user",
                                ),
                            ),
                        );
                        proof {
                            lemma_push1(out0, out@, out@[out0.len() as int]);
                            assert(run_effect(spec_parse(command@), s0, sys_model(*fs, *auth), out_added(out0, out@)));
                        }
                    },
                    Err(_) => {
                        out.push(ConsoleOp::Line(String::from_str("[ERROR] User not found")));
                        proof {
                            lemma_push1(out0, out@, out@[out0.len() as int]);
                            assert(run_effect(spec_parse(command@), s0, sys_model(*fs, *auth), out_added(out0, out@)));
                        }
                    },
                }
            }
        },
        Command::Look => {
            let entries = fs.ls();
            let n = entries.len();
            if n == 0 {
                out.push(ConsoleOp::Line(String::from_str("Empty directory.")));
                proof {
                    lemma_push1(out0, out@, out@[out0.len() as int]);
                    assert(run_effect(spec_parse(command@), s0, sys_model(*fs, *auth), out_added(out0, out@)));
                }
            } else {
                let ghost es = cur_es(s0);
                let mut k: usize = 0;
                while k < n
                    invariant
                        n == entries@.len(),
                        k <= n,
                        es == cur_es(s0),
                        es.len() == n,
                        forall|q: int|
                            0 <= q < n ==> entries@[q].0@ == es[q].name && entries@[q].1
                                == crate::fs::m_kind(es[q].node),
                        out@.len() == out0.len() + k,
                        out@.take(out0.len() as int) == out0,
                        forall|q: int|
                            0 <= q < k ==> op_model(out@[out0.len() + q]) == (if es[q].node
                                is Dir {
                                OpModel::Line(es[q].name + "/"@)
                            } else {
                                OpModel::Line(es[q].name)
                            }),
                    decreases n - k,
                {
                    let (name, kind) = (entries[k].0.clone(), entries[k].1);
                    match kind {
                        NodeType::Directory => {
                            let mut t = name;
                            t.append("/");
                            out.push(ConsoleOp::Line(t));
                        },
                        NodeType::File => {
                            out.push(ConsoleOp::Line(name));
                        },
                    }
                    proof {
                        assert(out@.take(out0.len() as int) =~= out0);
                    }
                    k += 1;
                }
                proof {
                    assert(out_model(out@).take(out0.len() as int) =~= out_model(out0));
                    assert(out_added(out0, out@) =~= Seq::new(
                        es.len(),
                        |i: int|
                            if es[i].node is Dir {
                                OpModel::Line(es[i].name + "/"@)
                            } else {
                                OpModel::Line(es[i].name)
                            },
                    ));
                }
            }
        },
        Command::Open(a) => {
            if a.as_str().is_empty() {
                out.push(ConsoleOp::Line(String::from_str("Usage: open <directory>")));
                proof {
                    lemma_push1(out0, out@, out@[out0.len() as int]);
                    assert(run_effect(spec_parse(command@), s0, sys_model(*fs, *auth), out_added(out0, out@)));
                }
            } else {
                match fs.cd(a.as_str()) {
                    Ok(_) => {
                        proof {
                            lemma_push0(out0, out@);
                            assert(run_effect(spec_parse(command@), s0, sys_model(*fs, *auth), out_added(out0, out@)));
                        }
                    },
                    Err(_) => {
                        out.push(ConsoleOp::Line(String::from_str("Error: Not found")));
                        proof {
                            lemma_push1(out0, out@, out@[out0.len() as int]);
                            assert(run_effect(spec_parse(command@), s0, sys_model(*fs, *auth), out_added(out0, out@)));
                        }
                    },
                }
            }
        },
        Command::Room(a) => {
            if a.as_str().is_empty() {
                out.push(ConsoleOp::Line(String::from_str("Usage: room <name>")));
                proof {
                    lemma_push1(out0, out@, out@[out0.len() as int]);
                    assert(run_effect(spec_parse(command@), s0, sys_model(*fs, *auth), out_added(out0, out@)));
                }
            } else {
                let uid = auth.get_current_uid();
                match fs.mkdir(a.as_str(), uid) {
                    Ok(_) => {
                        proof {
                            lemma_push0(out0, out@);
                            assert(run_effect(spec_parse(command@), s0, sys_model(*fs, *auth), out_added(out0, out@)));
                        }
                    },
                    Err(_) => {
                        out.push(ConsoleOp::Line(String::from_str("Error: Name already exists")));
                        proof {
                            lemma_push1(out0, out@, out@[out0.len() as int]);
                            assert(run_effect(spec_parse(command@), s0, sys_model(*fs, *auth), out_added(out0, out@)));
                        }
                    },
                }
            }
        },
        Command::Where => {
            let p = path_string(fs);
            out.push(ConsoleOp::Line(p));
            proof {
                lemma_push1(out0, out@, out@[out0.len() as int]);
                assert(run_effect(spec_parse(command@), s0, sys_model(*fs, *auth), out_added(out0, out@)));
            }
        },
        Command::Note(name, content) => {
            if name.as_str().is_empty() {
                out.push(ConsoleOp::Line(String::from_str("Usage: note <filename> <content>")));
                proof {
                    lemma_push1(out0, out@, out@[out0.len() as int]);
                    assert(run_effect(spec_parse(command@), s0, sys_model(*fs, *auth), out_added(out0, out@)));
                }
            } else {
                let uid = auth.get_current_uid();
                let r = fs.write_file(name.as_str(), content.as_str(), uid);
                proof {
                    assert(r is Ok);
                }
                let mut msg = String::from_str("File '");
                msg.append(name.as_str());
                msg.append("' created.");
                out.push(ConsoleOp::Line(msg));
                proof {
                    lemma_push1(out0, out@, out@[out0.len() as int]);
                    assert(run_effect(spec_parse(command@), s0, sys_model(*fs, *auth), out_added(out0, out@)));
                }
            }
        },
        Command::Read(name) => {
            match fs.read_file(name.as_str()) {
                Some(content) => {
                    out.push(ConsoleOp::Line(content));
                },
                None => {
                    let mut msg = String::from_str("Error: File '");
                    msg.append(name.as_str());
                    msg.append("' not found.");
                    out.push(ConsoleOp::Line(msg));
                },
            }
            proof {
                lemma_push1(out0, out@, out@[out0.len() as int]);
                assert(run_effect(spec_parse(command@), s0, sys_model(*fs, *auth), out_added(out0, out@)));
            }
        },
        Command::Drop(name) => {
            if name.as_str().is_empty() {
                out.push(ConsoleOp::Line(String::from_str("Usage: drop <filename>")));
                proof {
                    lemma_push1(out0, out@, out@[out0.len() as int]);
                    assert(run_effect(spec_parse(command@), s0, sys_model(*fs, *auth), out_added(out0, out@)));
                }
            } else {
                let removed = fs.remove_file(name.as_str());
                if removed {
                    let mut msg = String::from_str("File '");
                    msg.append(name.as_str());
                    msg.append("' removed.");
                    out.push(ConsoleOp::Line(msg));
                } else {
                    proof {
                        lemma_dir_at_wf(s0.root, s0.cwd);
                        lemma_update_at_same(s0.root, s0.cwd);
                    }
                    let mut msg = String::from_str("Error: Could not find or remove '");
                    msg.append(name.as_str());
                    msg.append("'.");
                    out.push(ConsoleOp::Line(msg));
                }
                proof {
                    lemma_push1(out0, out@, out@[out0.len() as int]);
                    assert(run_effect(spec_parse(command@), s0, sys_model(*fs, *auth), out_added(out0, out@)));
                }
            }
        },
        Command::Edit(name, content) => {
            if name.as_str().is_empty() {
                out.push(ConsoleOp::Line(String::from_str("Usage: edit <filename> <text>")));
                proof {
                    lemma_push1(out0, out@, out@[out0.len() as int]);
                    assert(run_effect(spec_parse(command@), s0, sys_model(*fs, *auth), out_added(out0, out@)));
                }
            } else {
                let uid = auth.get_current_uid();
                let r = fs.write_file(name.as_str(), content.as_str(), uid);
                proof {
                    assert(r is Ok);
                }
                let mut msg = String::from_str("File '");
                msg.append(name.as_str());
                msg.append("' updated.");
                out.push(ConsoleOp::Line(msg));
                proof {
                    lemma_push1(out0, out@, out@[out0.len() as int]);
                    assert(run_effect(spec_parse(command@), s0, sys_model(*fs, *auth), out_added(out0, out@)));
                }
            }
        },
        Command::Unknown(c2) => {
            let mut msg = String::from_str("Unknown command: ");
            msg.append(c2.as_str());
            out.push(ConsoleOp::Line(msg));
            proof {
                lemma_push1(out0, out@, out@[out0.len() as int]);
                assert(run_effect(spec_parse(command@), s0, sys_model(*fs, *auth), out_added(out0, out@)));
            }
        },
    }
}

// ---------------------------------------------------------------------------
// The shell state machine.
// ---------------------------------------------------------------------------

/// Where the shell stands: gathering a user name, gathering the password
/// for a user name already given, or gathering a command line.
pub enum ShellPhase {
    Username,
    Password { username: String },
    Command,
}

/// The shell: its phase and the line gathered so far.
pub struct ShellTask {
    pub phase: ShellPhase,
    pub buffer: String,
}

/// Model of the shell's phase.
pub enum PhaseModel {
    Username,
    Password(Seq<char>),
    Command,
}

/// Model of the shell.
pub struct ShellModel {
    pub phase: PhaseModel,
    pub buffer: Seq<char>,
}

/// The model of the shell.
pub open spec fn shell_model(t: ShellTask) -> ShellModel {
    ShellModel {
        phase: match t.phase {
            ShellPhase::Username => PhaseModel::Username,
            ShellPhase::Password { username } => PhaseModel::Password(username@),
            ShellPhase::Command => PhaseModel::Command,
        },
        buffer: t.buffer@,
    }
}

/// What the login prompts print.
pub open spec fn login_prompt_ops() -> Seq<OpModel> {
    seq![OpModel::Line("\n--- LOGIN REQUIRED ---"@), OpModel::Text("Username: "@)]
}

/// What one key does to a line being gathered: `None` for Enter, otherwise
/// the new line and the echo (masked as `*` while a password is typed).
/// Control characters other than Backspace are ignored, as is Escape.
pub open spec fn key_edit(buf: Seq<char>, k: Key, mask: bool) -> Option<(Seq<char>, Seq<OpModel>)> {
    match k {
        Key::Char(c) => {
            if c == '\n' || c == '\r' {
                None
            } else if c == '\u{8}' || c == '\u{7f}' {
                Some(backspace_edit(buf))
            } else if c >= ' ' {
                Some(
                    (
                        buf.push(c),
                        seq![
                            OpModel::Text(
                                if mask {
                                    "*"@
                                } else {
                                    seq![c]
                                },
                            ),
                        ],
                    ),
                )
            } else {
                Some((buf, Seq::empty()))
            }
        },
        Key::Backspace => Some(backspace_edit(buf)),
        Key::Escape => Some((buf, Seq::empty())),
    }
}

/// Backspace against a line: drop the last character and erase it on the
/// console; against an empty line, nothing.
pub open spec fn backspace_edit(buf: Seq<char>) -> (Seq<char>, Seq<OpModel>) {
    if buf.len() > 0 {
        (buf.drop_last(), seq![OpModel::Backspace])
    } else {
        (buf, Seq::empty())
    }
}

/// One step of the shell: what one popped key event (or none) does to the
/// shell, the filesystem, the credential store, and the console.
pub open spec fn shell_step_effect(
    m0: ShellModel,
    popped: Option<Key>,
    s0: SysModel,
    m1: ShellModel,
    s1: SysModel,
    added: Seq<OpModel>,
) -> bool {
    match popped {
        None => m1 == m0 && s1 == s0 && added == Seq::<OpModel>::empty(),
        Some(k) => match m0.phase {
            PhaseModel::Username => match key_edit(m0.buffer, k, false) {
                Some(ba) => m1 == (ShellModel { phase: PhaseModel::Username, buffer: ba.0 }) && s1
                    == s0 && added == ba.1,
                None => m1 == (ShellModel {
                    phase: PhaseModel::Password(m0.buffer),
                    buffer: Seq::empty(),
                }) && s1 == s0 && added == seq![OpModel::Line(""@), OpModel::Text("Password: "@)],
            },
            PhaseModel::Password(user) => match key_edit(m0.buffer, k, true) {
                Some(ba) => m1 == (ShellModel {
                    phase: PhaseModel::Password(user),
                    buffer: ba.0,
                }) && s1 == s0 && added == ba.1,
                None => {
                    let uname = trim_spec(user);
                    let pass = trim_spec(m0.buffer);
                    let li = login_index(s0.users, uname, pass);
                    if li >= 0 {
                        &&& s1 == (SysModel { current: Some(s0.users[li]), ..s0 })
                        &&& m1 == (ShellModel { phase: PhaseModel::Command, buffer: Seq::empty() })
                        &&& added == seq![
                            OpModel::Line(""@),
                            OpModel::Line("\nWelcome back, "@ + uname + "!"@),
                            OpModel::Text(prompt_chars(s0.users[li].username, s0.cwd)),
                        ]
                    } else {
                        &&& s1 == s0
                        &&& m1 == (ShellModel {
                            phase: PhaseModel::Username,
                            buffer: Seq::empty(),
                        })
                        &&& added == seq![
                            OpModel::Line(""@),
                            OpModel::Line("\n[ERROR] Invalid credentials."@),
                        ] + login_prompt_ops()
                    }
                },
            },
            PhaseModel::Command => match k {
                Key::Escape => {
                    &&& m1 == (ShellModel { phase: PhaseModel::Command, buffer: Seq::empty() })
                    &&& s1 == s0
                    &&& added == seq![
                        OpModel::Clear,
                        OpModel::Text(prompt_chars(current_name_m(s0.current), s0.cwd)),
                    ]
                },
                _ => match key_edit(m0.buffer, k, false) {
                    Some(ba) => m1 == (ShellModel {
                        phase: PhaseModel::Command,
                        buffer: ba.0,
                    }) && s1 == s0 && added == ba.1,
                    None => exists|ac: Seq<OpModel>|
                        {
                            &&& #[trigger] run_effect(spec_parse(m0.buffer), s0, s1, ac)
                            &&& if s1.current is Some {
                                &&& m1 == (ShellModel {
                                    phase: PhaseModel::Command,
                                    buffer: Seq::empty(),
                                })
                                &&& added == seq![OpModel::Line(""@)] + ac + seq![
                                    OpModel::Text(
                                        prompt_chars(current_name_m(s1.current), s1.cwd),
                                    ),
                                ]
                            } else {
                                &&& m1 == (ShellModel {
                                    phase: PhaseModel::Username,
                                    buffer: Seq::empty(),
                                })
                                &&& added == seq![OpModel::Line(""@)] + ac + login_prompt_ops()
                            }
                        },
                },
            },
        },
    }
}

impl ShellTask {
    /// A fresh shell: it clears the screen, prints the banner and the login
    /// prompts, and waits for a user name.
    pub fn new(out: &mut Vec<ConsoleOp>) -> (r: ShellTask)
        ensures
            shell_model(r) == (ShellModel { phase: PhaseModel::Username, buffer: Seq::empty() }),
            out_grows(old(out)@, final(out)@),
            out_added(old(out)@, final(out)@) == seq![
                OpModel::Clear,
                OpModel::Line(" JC-OS - BARE METAL KERNEL v0.4 - RUST EDITION "@),
            ] + login_prompt_ops(),
    {
        let ghost out0 = out@;
        out.push(ConsoleOp::Clear);
        out.push(
            ConsoleOp::Line(String::from_str(" JC-OS - BARE METAL KERNEL v0.4 - RUST EDITION ")),
        );
        out.push(ConsoleOp::Line(String::from_str("\n--- LOGIN REQUIRED ---")));
        out.push(ConsoleOp::Text(String::from_str("Username: ")));
        proof {
            assert(out_model(out@).take(out0.len() as int) =~= out_model(out0));
            assert(out_added(out0, out@) =~= seq![
                OpModel::Clear,
                OpModel::Line(" JC-OS - BARE METAL KERNEL v0.4 - RUST EDITION "@),
            ] + login_prompt_ops());
        }
        ShellTask { phase: ShellPhase::Username, buffer: String::new() }
    }

    /// One scheduling turn: pop at most one key event from the bridge and
    /// act on it.
    #[verifier::rlimit(100)]
    pub fn step(
        &mut self,
        bridge: &mut EventBridge,
        fs: &mut RamFileSystem,
        auth: &mut AuthManager,
        out: &mut Vec<ConsoleOp>,
    )
        requires
            old(bridge).wf(),
            old(fs).wf(),
            old(auth).wf(),
        ensures
            final(bridge).wf(),
            final(fs).wf(),
            final(auth).wf(),
            final(bridge).cap() == old(bridge).cap(),
            final(bridge).view() == spec_pop(old(bridge).view()).0,
            out_grows(old(out)@, final(out)@),
            shell_step_effect(
                shell_model(*old(self)),
                spec_pop(old(bridge).view()).1,
                sys_model(*old(fs), *old(auth)),
                shell_model(*final(self)),
                sys_model(*final(fs), *final(auth)),
                out_added(old(out)@, final(out)@),
            ),
    {
        let ghost m0 = shell_model(*self);
        let ghost s0 = sys_model(*fs, *auth);
        let ghost out0 = out@;
        let popped = bridge.pop();
        let k = match popped {
            None => {
                proof {
                    lemma_push0(out0, out@);
                }
                return ;
            },
            Some(k) => k,
        };
        let in_username = matches!(self.phase, ShellPhase::Username);
        let in_password = matches!(self.phase, ShellPhase::Password { .. });
        if in_username {
            let done = self.edit_key(k, false, out);
            if done {
                let user = self.buffer.clone();
                self.buffer = String::new();
                out.push(ConsoleOp::Line(String::new()));
                out.push(ConsoleOp::Text(String::from_str("Password: ")));
                self.phase = ShellPhase::Password { username: user };
                proof {
                    reveal_strlit("");
                    assert(""@ =~= Seq::<char>::empty());
                    lemma_push2(out0, out@, out@[out0.len() as int], out@[out0.len() as int + 1]);
                }
            }
        } else if in_password {
            let done = self.edit_key(k, true, out);
            if done {
                let user = match &self.phase {
                    ShellPhase::Password { username } => username.clone(),
                    _ => vstd::pervasive::unreached(),
                };
                let pass = self.buffer.clone();
                self.buffer = String::new();
                out.push(ConsoleOp::Line(String::new()));
                let uname = trim(user.as_str());
                let ptrim = trim(pass.as_str());
                let ok = auth.login(uname.as_str(), ptrim.as_str());
                if ok {
                    let mut msg = String::from_str("\nWelcome back, ");
                    msg.append(uname.as_str());
                    msg.append("!");
                    out.push(ConsoleOp::Line(msg));
                    let p = prompt_string(fs, auth);
                    out.push(ConsoleOp::Text(p));
                    self.phase = ShellPhase::Command;
                    proof {
                        reveal_strlit("");
                        assert(""@ =~= Seq::<char>::empty());
                        crate::auth::lemma_login_index(s0.users, trim_spec(user@), trim_spec(pass@));
                        lemma_push3(
                            out0,
                            out@,
                            out@[out0.len() as int],
                            out@[out0.len() as int + 1],
                            out@[out0.len() as int + 2],
                        );
                    }
                } else {
                    out.push(ConsoleOp::Line(String::from_str("\n[ERROR] Invalid credentials.")));
                    out.push(ConsoleOp::Line(String::from_str("\n--- LOGIN REQUIRED ---")));
                    out.push(ConsoleOp::Text(String::from_str("Username: ")));
                    self.phase = ShellPhase::Username;
                    proof {
                        reveal_strlit("");
                        assert(""@ =~= Seq::<char>::empty());
                        assert(out_model(out@).take(out0.len() as int) =~= out_model(out0));
                        assert(out_added(out0, out@) =~= seq![
                            OpModel::Line(""@),
                            OpModel::Line("\n[ERROR] Invalid credentials."@),
                        ] + login_prompt_ops());
                    }
                }
            }
        } else {
            match k {
                Key::Escape => {
                    self.buffer = String::new();
                    out.push(ConsoleOp::Clear);
                    let p = prompt_string(fs, auth);
                    out.push(ConsoleOp::Text(p));
                    proof {
                        lemma_push2(
                            out0,
                            out@,
                            out@[out0.len() as int],
                            out@[out0.len() as int + 1],
                        );
                    }
                },
                _ => {
                    let done = self.edit_key(k, false, out);
                    if done {
                        let line = self.buffer.clone();
                        self.buffer = String::new();
                        out.push(ConsoleOp::Line(String::new()));
                        let ghost out1 = out@;
                        interpret_command(line.as_str(), fs, auth, out);
                        let ghost out2 = out@;
                        let ghost ac = out_added(out1, out2);
                        let logged_in = match &auth.current_user {
                            Some(_) => true,
                            None => false,
                        };
                        if logged_in {
                            let p = prompt_string(fs, auth);
                            out.push(ConsoleOp::Text(p));
                            self.phase = ShellPhase::Command;
                            proof {
                                reveal_strlit("");
                                assert(""@ =~= Seq::<char>::empty());
                                lemma_push1(out0, out1, out1[out0.len() as int]);
                                lemma_push1(out2, out@, out@[out2.len() as int]);
                                lemma_added_compose(out0, out1, out2);
                                lemma_added_compose(out0, out2, out@);
                                assert(run_effect(spec_parse(line@), s0, sys_model(*fs, *auth), ac));
                                assert(out_added(out0, out@) == (out_added(out0, out1) + ac)
                                    + out_added(out2, out@));
                                assert((seq![OpModel::Line(""@)] + ac) + seq![
                                    OpModel::Text(
                                        prompt_chars(
                                            current_name_m(sys_model(*fs, *auth).current),
                                            sys_model(*fs, *auth).cwd,
                                        ),
                                    ),
                                ] =~= seq![OpModel::Line(""@)] + ac + seq![
                                    OpModel::Text(
                                        prompt_chars(
                                            current_name_m(sys_model(*fs, *auth).current),
                                            sys_model(*fs, *auth).cwd,
                                        ),
                                    ),
                                ]);
                            }
                        } else {
                            out.push(ConsoleOp::Line(String::from_str("\n--- LOGIN REQUIRED ---")));
                            out.push(ConsoleOp::Text(String::from_str("Username: ")));
                            self.phase = ShellPhase::Username;
                            proof {
                                reveal_strlit("");
                                assert(""@ =~= Seq::<char>::empty());
                                lemma_push1(out0, out1, out1[out0.len() as int]);
                                lemma_push2(out2, out@, out@[out2.len() as int], out@[out2.len() as int + 1]);
                                lemma_added_compose(out0, out1, out2);
                                lemma_added_compose(out0, out2, out@);
                                assert(run_effect(spec_parse(line@), s0, sys_model(*fs, *auth), ac));
                                assert(out_added(out0, out@) == (out_added(out0, out1) + ac)
                                    + out_added(out2, out@));
                                assert(out_added(out2, out@) =~= login_prompt_ops());
                                assert((seq![OpModel::Line(""@)] + ac) + login_prompt_ops()
                                    =~= seq![OpModel::Line(""@)] + ac + login_prompt_ops());
                            }
                        }
                    }
                },
            }
        }
    }

    /// Applies one non-Enter key to the gathered line, echoing it; reports
    /// whether the key was Enter.
    fn edit_key(&mut self, k: Key, mask: bool, out: &mut Vec<ConsoleOp>) -> (r: bool)
        ensures
            final(self).phase == old(self).phase,
            out_grows(old(out)@, final(out)@),
            match key_edit(old(self).buffer@, k, mask) {
                Some(ba) => !r && final(self).buffer@ == ba.0 && out_added(old(out)@, final(out)@)
                    == ba.1,
                None => r && final(self).buffer@ == old(self).buffer@ && final(out)@ == old(
                    out,
                )@,
            },
    {
        let ghost out0 = out@;
        match k {
            Key::Char(c) => {
                if c == '\n' || c == '\r' {
                    proof {
                        lemma_push0(out0, out@);
                    }
                    true
                } else if c == '\u{8}' || c == '\u{7f}' {
                    self.do_backspace(out);
                    false
                } else if c >= ' ' {
                    self.buffer.push(c);
                    if mask {
                        out.push(ConsoleOp::Text(String::from_str("*")));
                    } else {
                        let mut t = String::new();
                        t.push(c);
                        out.push(ConsoleOp::Text(t));
                    }
                    proof {
                        lemma_push1(out0, out@, out@[out0.len() as int]);
                        assert(seq![c] =~= Seq::<char>::empty().push(c));
                    }
                    false
                } else {
                    proof {
                        lemma_push0(out0, out@);
                    }
                    false
                }
            },
            Key::Backspace => {
                self.do_backspace(out);
                false
            },
            Key::Escape => {
                proof {
                    lemma_push0(out0, out@);
                }
                false
            },
        }
    }

    /// Removes the last gathered character, if any, and erases it.
    fn do_backspace(&mut self, out: &mut Vec<ConsoleOp>)
        ensures
            final(self).phase == old(self).phase,
            out_grows(old(out)@, final(out)@),
            final(self).buffer@ == backspace_edit(old(self).buffer@).0,
            out_added(old(out)@, final(out)@) == backspace_edit(old(self).buffer@).1,
    {
        let ghost out0 = out@;
        if !self.buffer.as_str().is_empty() {
            self.buffer.pop();
            out.push(ConsoleOp::Backspace);
            proof {
                lemma_push1(out0, out@, out@[out0.len() as int]);
            }
        } else {
            proof {
                lemma_push0(out0, out@);
            }
        }
    }
}

} // verus!
