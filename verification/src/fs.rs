//! In-memory hierarchical filesystem: a tree of directory and file nodes,
//! each carrying owner and permission metadata, navigated relative to a
//! current working directory.
//!
//! Contracts speak about a mathematical model of the tree (`NodeModel`):
//! file contents become character sequences, directory entry lists become
//! sequences of named model nodes, and every operation is specified as a
//! transformation of the model rooted at the current working directory.

use vstd::prelude::*;

use crate::strutil::str_eq;

verus! {

broadcast use {vstd::std_specs::vec::group_vec_axioms, vstd::seq::group_seq_axioms, vstd::slice::group_slice_axioms};

/// Whether a node is a file or a directory.
#[derive(Clone, Copy, PartialEq, Eq, Debug, Structural)]
pub enum NodeType {
    File,
    Directory,
}

/// Ownership and permission metadata attached to every node.
#[derive(Clone, Copy, Debug)]
pub struct Inode {
    pub uid: u32,
    pub permissions: u16,
    pub node_type: NodeType,
}

/// A file: metadata plus its text content (its size is the byte length of
/// the content's UTF-8 encoding).
pub struct File {
    pub inode: Inode,
    pub data: String,
}

/// A directory entry: a name, unique within its directory, and the child
/// node it denotes.
pub struct DirEntry {
    pub name: String,
    pub node: FsNode,
}

/// A directory: metadata plus its entries, kept in insertion order.
pub struct Directory {
    pub inode: Inode,
    pub entries: Vec<DirEntry>,
}

/// A node of the tree.
pub enum FsNode {
    File(File),
    Directory(Directory),
}

/// The errors a filesystem operation can report.
#[derive(Clone, Copy, PartialEq, Eq, Debug, Structural)]
pub enum FsError {
    /// The named entry does not exist where one was required.
    NotFound,
    /// The name already exists where a fresh one was required.
    NameConflict,
    /// The empty string was given as a name.
    InvalidName,
}

// ---------------------------------------------------------------------------
// The mathematical model of the tree.
// ---------------------------------------------------------------------------

/// Model of a node: plain values only, file data as its character sequence.
pub enum NodeModel {
    File { uid: u32, perm: u16, typ: NodeType, data: Seq<char> },
    Dir { uid: u32, perm: u16, typ: NodeType, entries: Seq<EntryModel> },
}

/// Model of a directory entry.
pub struct EntryModel {
    pub name: Seq<char>,
    pub node: NodeModel,
}

/// The model of a node, computed structurally.
pub open spec fn node_model(n: FsNode) -> NodeModel
    decreases n,
    via node_model_dec
{
    match n {
        FsNode::File(f) => NodeModel::File {
            uid: f.inode.uid,
            perm: f.inode.permissions,
            typ: f.inode.node_type,
            data: f.data@,
        },
        FsNode::Directory(d) => NodeModel::Dir {
            uid: d.inode.uid,
            perm: d.inode.permissions,
            typ: d.inode.node_type,
            entries: entries_model(d.entries@),
        },
    }
}

/// The models of a sequence of directory entries, in order.
pub open spec fn entries_model(s: Seq<DirEntry>) -> Seq<EntryModel>
    decreases s,
    via entries_model_dec
{
    if s.len() == 0 {
        Seq::empty()
    } else {
        entries_model(s.drop_last()).push(
            EntryModel { name: s.last().name@, node: node_model(s.last().node) },
        )
    }
}

#[via_fn]
proof fn node_model_dec(n: FsNode) {
    match n {
        FsNode::File(_) => {
        },
        FsNode::Directory(d) => {
            assert(decreases_to!(d.entries => d.entries@));
        },
    }
}

#[via_fn]
proof fn entries_model_dec(s: Seq<DirEntry>) {
    if s.len() > 0 {
        assert(decreases_to!(s => s.subrange(0, s.len() - 1)));
        assert(decreases_to!(s => s[s.len() - 1]));
    }
}

/// `entries_model` maps the sequence pointwise.
pub proof fn lemma_entries_model(s: Seq<DirEntry>)
    ensures
        entries_model(s).len() == s.len(),
        forall|i: int|
            0 <= i < s.len() ==> entries_model(s)[i] == (EntryModel {
                name: s[i].name@,
                node: node_model(s[i].node),
            }),
    decreases s.len(),
{
    if s.len() > 0 {
        lemma_entries_model(s.drop_last());
    }
}

/// The model of a directory taken as a node.
pub open spec fn dir_model(d: Directory) -> NodeModel {
    node_model(FsNode::Directory(d))
}

/// Index of the first entry called `name`, or -1 if there is none.
pub open spec fn lookup_i(es: Seq<EntryModel>, name: Seq<char>) -> int
    decreases es.len(),
{
    if es.len() == 0 {
        -1
    } else if es[0].name == name {
        0
    } else {
        let r = lookup_i(es.drop_first(), name);
        if r < 0 {
            -1
        } else {
            r + 1
        }
    }
}

/// What `lookup_i` returns: the first index bearing `name`, or -1.
pub proof fn lemma_lookup_props(es: Seq<EntryModel>, name: Seq<char>)
    ensures
        -1 <= lookup_i(es, name) < es.len(),
        lookup_i(es, name) >= 0 ==> es[lookup_i(es, name)].name == name,
        lookup_i(es, name) == -1 ==> forall|j: int| 0 <= j < es.len() ==> es[j].name != name,
        forall|j: int| 0 <= j < lookup_i(es, name) ==> es[j].name != name,
    decreases es.len(),
{
    if es.len() > 0 && es[0].name != name {
        lemma_lookup_props(es.drop_first(), name);
        assert forall|j: int| 0 <= j < es.len() && lookup_i(es, name) == -1 implies es[j].name
            != name by {
            if j > 0 {
                assert(es.drop_first()[j - 1] == es[j]);
            }
        }
        assert forall|j: int| 0 <= j < lookup_i(es, name) implies es[j].name != name by {
            if j > 0 {
                assert(es.drop_first()[j - 1] == es[j]);
            }
        }
    }
}

/// Entries after inserting or overwriting the entry called `name`: an
/// existing entry is replaced in place, a new one is appended.
pub open spec fn set_entry(es: Seq<EntryModel>, name: Seq<char>, node: NodeModel) -> Seq<
    EntryModel,
> {
    let i = lookup_i(es, name);
    if i >= 0 {
        es.update(i, EntryModel { name, node })
    } else {
        es.push(EntryModel { name, node })
    }
}

/// Entries after removing the entry called `name`, if present.
pub open spec fn remove_entry(es: Seq<EntryModel>, name: Seq<char>) -> Seq<EntryModel> {
    let i = lookup_i(es, name);
    if i >= 0 {
        es.remove(i)
    } else {
        es
    }
}

/// The directory reached from `m` by the path, or `None` if some segment is
/// missing or is a file.
pub open spec fn dir_at(m: NodeModel, path: Seq<Seq<char>>) -> Option<NodeModel>
    decreases path.len(),
{
    if !(m is Dir) {
        None
    } else if path.len() == 0 {
        Some(m)
    } else {
        let es = m->Dir_entries;
        let i = lookup_i(es, path.first());
        if i >= 0 {
            dir_at(es[i].node, path.drop_first())
        } else {
            None
        }
    }
}

/// `m` with the directory at the end of the path replaced by `d`; everything
/// off the path, and the metadata of the directories along it, is unchanged.
pub open spec fn update_at(m: NodeModel, path: Seq<Seq<char>>, d: NodeModel) -> NodeModel
    decreases path.len(),
{
    if path.len() == 0 {
        d
    } else if !(m is Dir) {
        m
    } else {
        let es = m->Dir_entries;
        let i = lookup_i(es, path.first());
        if i >= 0 {
            NodeModel::Dir {
                uid: m->Dir_uid,
                perm: m->Dir_perm,
                typ: m->Dir_typ,
                entries: es.update(
                    i,
                    EntryModel {
                        name: path.first(),
                        node: update_at(es[i].node, path.drop_first(), d),
                    },
                ),
            }
        } else {
            m
        }
    }
}

/// No two entries share a name.
pub open spec fn unique_names(es: Seq<EntryModel>) -> bool {
    forall|i: int, j: int| 0 <= i < j < es.len() ==> es[i].name != es[j].name
}

/// Well-formedness of a model node: the recorded node type matches the
/// variant, and every directory's entry names are unique.
pub open spec fn m_wf(m: NodeModel) -> bool
    decreases m,
    via m_wf_dec
{
    match m {
        NodeModel::File { typ, .. } => typ == NodeType::File,
        NodeModel::Dir { typ, entries, .. } => typ == NodeType::Directory && unique_names(entries)
            && entries_wf(entries),
    }
}

/// Well-formedness of each node in a sequence of entries.
pub open spec fn entries_wf(es: Seq<EntryModel>) -> bool
    decreases es,
    via entries_wf_dec
{
    if es.len() == 0 {
        true
    } else {
        entries_wf(es.drop_last()) && m_wf(es.last().node)
    }
}

#[via_fn]
proof fn m_wf_dec(m: NodeModel) {
}

#[via_fn]
proof fn entries_wf_dec(es: Seq<EntryModel>) {
    if es.len() > 0 {
        assert(decreases_to!(es => es.subrange(0, es.len() - 1)));
        assert(decreases_to!(es => es[es.len() - 1]));
    }
}

/// `entries_wf` holds exactly when every entry's node is well-formed.
pub proof fn lemma_entries_wf(es: Seq<EntryModel>)
    ensures
        entries_wf(es) <==> (forall|i: int| 0 <= i < es.len() ==> m_wf(es[i].node)),
    decreases es.len(),
{
    if es.len() > 0 {
        lemma_entries_wf(es.drop_last());
        if forall|i: int| 0 <= i < es.drop_last().len() ==> m_wf(es.drop_last()[i].node) {
            assert forall|i: int| 0 <= i < es.len() && entries_wf(es) implies m_wf(
                es[i].node,
            ) by {
                if i < es.len() - 1 {
                    assert(es.drop_last()[i] == es[i]);
                }
            }
        }
    }
}

/// If no entry before `j` bears `name` and entry `j` does, the lookup finds `j`.
pub proof fn lemma_lookup_first(es: Seq<EntryModel>, name: Seq<char>, j: int)
    requires
        0 <= j < es.len(),
        es[j].name == name,
        forall|k: int| 0 <= k < j ==> es[k].name != name,
    ensures
        lookup_i(es, name) == j,
    decreases es.len(),
{
    if j > 0 {
        assert forall|k: int| 0 <= k < j - 1 implies es.drop_first()[k].name != name by {
            assert(es.drop_first()[k] == es[k + 1]);
        }
        assert(es.drop_first()[j - 1] == es[j]);
        lemma_lookup_first(es.drop_first(), name, j - 1);
    }
}

/// Replacing the directory at the end of a resolvable path leaves the path
/// resolvable, and resolving it afterwards yields the replacement.
pub proof fn lemma_dir_at_update(m: NodeModel, path: Seq<Seq<char>>, d: NodeModel)
    requires
        dir_at(m, path) is Some,
        d is Dir,
    ensures
        dir_at(update_at(m, path, d), path) == Some(d),
    decreases path.len(),
{
    if path.len() > 0 {
        let es = m->Dir_entries;
        let i = lookup_i(es, path.first());
        lemma_lookup_props(es, path.first());
        let es2 = update_at(m, path, d)->Dir_entries;
        lemma_lookup_first(es2, path.first(), i);
        lemma_dir_at_update(es[i].node, path.drop_first(), d);
    }
}

/// Replacing the directory at the end of a resolvable path by a well-formed
/// directory keeps the whole tree well-formed.
pub proof fn lemma_update_wf(m: NodeModel, path: Seq<Seq<char>>, d: NodeModel)
    requires
        m_wf(m),
        m_wf(d),
        d is Dir,
        dir_at(m, path) is Some,
    ensures
        m_wf(update_at(m, path, d)),
    decreases path.len(),
{
    if path.len() > 0 {
        let es = m->Dir_entries;
        let i = lookup_i(es, path.first());
        lemma_lookup_props(es, path.first());
        lemma_entries_wf(es);
        lemma_update_wf(es[i].node, path.drop_first(), d);
        let es2 = update_at(m, path, d)->Dir_entries;
        assert forall|a: int, b: int| 0 <= a < b < es2.len() implies es2[a].name != es2[b].name by {
            assert(es2[a].name == es[a].name && es2[b].name == es[b].name);
        }
        lemma_entries_wf(es2);
    }
}

/// A prefix of a resolvable path is resolvable.
pub proof fn lemma_dir_at_prefix(m: NodeModel, path: Seq<Seq<char>>, k: int)
    requires
        dir_at(m, path) is Some,
        0 <= k <= path.len(),
    ensures
        dir_at(m, path.take(k)) is Some,
    decreases path.len(),
{
    if path.len() > 0 && k > 0 {
        let es = m->Dir_entries;
        let i = lookup_i(es, path.first());
        lemma_dir_at_prefix(es[i].node, path.drop_first(), k - 1);
        assert(path.take(k).first() == path.first());
        assert(path.take(k).drop_first() =~= path.drop_first().take(k - 1));
    }
}

/// Following one more existing directory entry extends the resolved path.
pub proof fn lemma_dir_at_push(m: NodeModel, path: Seq<Seq<char>>, name: Seq<char>)
    requires
        dir_at(m, path) is Some,
        lookup_i(dir_at(m, path).unwrap()->Dir_entries, name) >= 0,
        dir_at(m, path).unwrap()->Dir_entries[lookup_i(
            dir_at(m, path).unwrap()->Dir_entries,
            name,
        )].node is Dir,
    ensures
        dir_at(m, path.push(name)) == Some(
            dir_at(m, path).unwrap()->Dir_entries[lookup_i(
                dir_at(m, path).unwrap()->Dir_entries,
                name,
            )].node,
        ),
    decreases path.len(),
{
    if path.len() == 0 {
        let p2 = path.push(name);
        assert(p2.first() == name);
        assert(p2.drop_first() =~= Seq::<Seq<char>>::empty());
        let es = m->Dir_entries;
        let i = lookup_i(es, name);
        lemma_lookup_props(es, name);
        assert(dir_at(m, p2) == dir_at(es[i].node, p2.drop_first()));
        assert(dir_at(es[i].node, p2.drop_first()) == Some(es[i].node));
    } else {
        let es = m->Dir_entries;
        let i = lookup_i(es, path.first());
        lemma_lookup_props(es, path.first());
        assert(path.push(name).first() == path.first());
        assert(path.push(name).drop_first() =~= path.drop_first().push(name));
        lemma_dir_at_push(es[i].node, path.drop_first(), name);
    }
}

/// After `set_entry`, the entry called `name` is found and holds `node`;
/// uniqueness of names and well-formedness of the entries are preserved.
pub proof fn lemma_set_entry(es: Seq<EntryModel>, name: Seq<char>, node: NodeModel)
    requires
        unique_names(es),
        entries_wf(es),
        m_wf(node),
    ensures
        lookup_i(set_entry(es, name, node), name) >= 0,
        set_entry(es, name, node)[lookup_i(set_entry(es, name, node), name)] == (EntryModel {
            name,
            node,
        }),
        unique_names(set_entry(es, name, node)),
        entries_wf(set_entry(es, name, node)),
{
    let i = lookup_i(es, name);
    lemma_lookup_props(es, name);
    let es2 = set_entry(es, name, node);
    lemma_entries_wf(es);
    lemma_entries_wf(es2);
    if i >= 0 {
        lemma_lookup_first(es2, name, i);
        assert forall|a: int, b: int| 0 <= a < b < es2.len() implies es2[a].name != es2[b].name by {
            assert(es2[a].name == es[a].name && es2[b].name == es[b].name);
        }
    } else {
        lemma_lookup_first(es2, name, es.len() as int);
    }
}

/// After `remove_entry`, the entry called `name` is gone; uniqueness of
/// names and well-formedness of the entries are preserved.
pub proof fn lemma_remove_entry(es: Seq<EntryModel>, name: Seq<char>)
    requires
        unique_names(es),
        entries_wf(es),
    ensures
        lookup_i(remove_entry(es, name), name) == -1,
        unique_names(remove_entry(es, name)),
        entries_wf(remove_entry(es, name)),
{
    let i = lookup_i(es, name);
    lemma_lookup_props(es, name);
    let es2 = remove_entry(es, name);
    lemma_entries_wf(es);
    if i >= 0 {
        assert forall|a: int| 0 <= a < es2.len() implies es2[a].name != name by {
            if a < i {
                assert(es2[a] == es[a]);
            } else {
                assert(es2[a] == es[a + 1]);
            }
        }
        lemma_lookup_props(es2, name);
        if lookup_i(es2, name) >= 0 {
            assert(false);
        }
        assert forall|a: int, b: int| 0 <= a < b < es2.len() implies es2[a].name != es2[b].name by {
            let a0: int = if a < i {
                a
            } else {
                a + 1
            };
            let b0: int = if b < i {
                b
            } else {
                b + 1
            };
            assert(es2[a] == es[a0] && es2[b] == es[b0]);
        }
        assert forall|a: int| 0 <= a < es2.len() implies m_wf(es2[a].node) by {
            if a < i {
                assert(es2[a] == es[a]);
            } else {
                assert(es2[a] == es[a + 1]);
            }
        }
        lemma_entries_wf(es2);
    }
}

/// Writing back the directory a path already resolves to changes nothing.
pub proof fn lemma_update_at_same(m: NodeModel, path: Seq<Seq<char>>)
    requires
        dir_at(m, path) is Some,
    ensures
        update_at(m, path, dir_at(m, path).unwrap()) == m,
    decreases path.len(),
{
    if path.len() > 0 {
        let es = m->Dir_entries;
        let i = lookup_i(es, path.first());
        lemma_lookup_props(es, path.first());
        lemma_update_at_same(es[i].node, path.drop_first());
        assert(es.update(
            i,
            EntryModel { name: path.first(), node: es[i].node },
        ) =~= es);
    }
}

/// The kind of a model node.
pub open spec fn m_kind(n: NodeModel) -> NodeType {
    if n is File {
        NodeType::File
    } else {
        NodeType::Directory
    }
}

/// A sequence of path segments as character sequences.
pub open spec fn path_model(p: Seq<String>) -> Seq<Seq<char>> {
    Seq::new(p.len(), |i: int| p[i]@)
}

// ---------------------------------------------------------------------------
// The filesystem.
// ---------------------------------------------------------------------------

/// The filesystem: a root directory and the current working directory, kept
/// as the path that leads to it from the root.
pub struct RamFileSystem {
    pub root: Directory,
    pub cwd: Vec<String>,
}

impl RamFileSystem {
    /// The model of the whole tree.
    pub open spec fn root_m(self) -> NodeModel {
        dir_model(self.root)
    }

    /// The model of the current working directory's path.
    pub open spec fn cwd_m(self) -> Seq<Seq<char>> {
        path_model(self.cwd@)
    }

    /// The model of the current working directory.
    pub open spec fn cur_m(self) -> NodeModel {
        dir_at(self.root_m(), self.cwd_m()).unwrap()
    }

    /// The entries of the current working directory.
    pub open spec fn cur_entries(self) -> Seq<EntryModel> {
        self.cur_m()->Dir_entries
    }

    /// Invariant: the tree is well-formed and `cwd` denotes an existing
    /// directory.
    pub open spec fn wf(self) -> bool {
        &&& m_wf(self.root_m())
        &&& dir_at(self.root_m(), self.cwd_m()) is Some
    }

    /// An empty filesystem: a root directory owned by uid 0, with the
    /// working directory at the root.
    pub fn new() -> (r: RamFileSystem)
        ensures
            r.wf(),
            r.root_m() == (NodeModel::Dir {
                uid: 0u32,
                perm: 0o755u16,
                typ: NodeType::Directory,
                entries: Seq::<EntryModel>::empty(),
            }),
            r.cwd_m() == Seq::<Seq<char>>::empty(),
    {
        let r = RamFileSystem {
            root: Directory {
                inode: Inode { uid: 0, permissions: 0o755, node_type: NodeType::Directory },
                entries: Vec::new(),
            },
            cwd: Vec::new(),
        };
        proof {
            assert(r.cwd_m() =~= Seq::<Seq<char>>::empty());
            assert(entries_model(r.root.entries@) =~= Seq::<EntryModel>::empty());
        }
        r
    }
}

/// Index of the first entry of `d` called `name`, if any.
fn find_entry(d: &Directory, name: &str) -> (r: Option<usize>)
    ensures
        match r {
            Some(j) => lookup_i(entries_model(d.entries@), name@) == j,
            None => lookup_i(entries_model(d.entries@), name@) == -1,
        },
{
    proof {
        lemma_entries_model(d.entries@);
    }
    let ghost em = entries_model(d.entries@);
    let n = d.entries.len();
    let mut j: usize = 0;
    while j < n
        invariant
            n == d.entries.len(),
            j <= n,
            em == entries_model(d.entries@),
            em.len() == n,
            forall|k: int| 0 <= k < j ==> em[k].name != name@,
        decreases n - j,
    {
        if str_eq(d.entries[j].name.as_str(), name) {
            proof {
                lemma_entries_model(d.entries@);
                lemma_lookup_first(em, name@, j as int);
            }
            return Some(j);
        }
        proof {
            lemma_entries_model(d.entries@);
        }
        j += 1;
    }
    proof {
        lemma_lookup_props(em, name@);
    }
    None
}

/// The directory reached by following `path` from segment `i` on, starting
/// at `d`.
fn nav_ref<'a>(d: &'a Directory, path: &Vec<String>, i: usize) -> (r: &'a Directory)
    requires
        i <= path@.len(),
        dir_at(dir_model(*d), path_model(path@).skip(i as int)) is Some,
    ensures
        Some(dir_model(*r)) == dir_at(dir_model(*d), path_model(path@).skip(i as int)),
    decreases path@.len() - i,
{
    let ghost p = path_model(path@).skip(i as int);
    if i == path.len() {
        proof {
            assert(p =~= Seq::<Seq<char>>::empty());
        }
        d
    } else {
        proof {
            assert(p.first() == path@[i as int]@);
            assert(p.drop_first() =~= path_model(path@).skip(i as int + 1));
            lemma_lookup_props(entries_model(d.entries@), p.first());
            lemma_entries_model(d.entries@);
        }
        let ghost em = entries_model(d.entries@);
        match find_entry(d, path[i].as_str()) {
            Some(j) => {
                proof {
                    assert(lookup_i(em, p.first()) == j as int);
                    assert(dir_at(dir_model(*d), p) == dir_at(em[j as int].node, p.drop_first()));
                    assert(em[j as int].node == node_model(d.entries@[j as int].node));
                }
                match &d.entries[j].node {
                    FsNode::Directory(sub) => {
                        proof {
                            assert(node_model(d.entries@[j as int].node) == dir_model(*sub));
                        }
                        nav_ref(sub, path, i + 1)
                    },
                    FsNode::File(_) => vstd::pervasive::unreached(),
                }
            },
            None => vstd::pervasive::unreached(),
        }
    }
}

/// A directory model with its entries replaced.
pub open spec fn dir_with_entries(m: NodeModel, es: Seq<EntryModel>) -> NodeModel {
    NodeModel::Dir { uid: m->Dir_uid, perm: m->Dir_perm, typ: m->Dir_typ, entries: es }
}

/// The model of a freshly written file.
pub open spec fn file_m(uid: u32, data: Seq<char>) -> NodeModel {
    NodeModel::File { uid, perm: 0o644u16, typ: NodeType::File, data }
}

/// The model of a freshly made, empty directory.
pub open spec fn empty_dir_m(uid: u32) -> NodeModel {
    NodeModel::Dir { uid, perm: 0o755u16, typ: NodeType::Directory, entries: Seq::empty() }
}

/// Every directory a resolvable path passes through is well-formed.
pub proof fn lemma_dir_at_wf(m: NodeModel, path: Seq<Seq<char>>)
    requires
        m_wf(m),
        dir_at(m, path) is Some,
    ensures
        m_wf(dir_at(m, path).unwrap()),
        dir_at(m, path).unwrap() is Dir,
    decreases path.len(),
{
    if path.len() > 0 {
        let es = m->Dir_entries;
        let i = lookup_i(es, path.first());
        lemma_lookup_props(es, path.first());
        lemma_entries_wf(es);
        lemma_dir_at_wf(es[i].node, path.drop_first());
    }
}

/// Inserts or overwrites the file `name` in the directory that `path` (from
/// segment `i` on) denotes, descending one re-bound mutable reference at a
/// time.
fn write_at(d: &mut Directory, path: &Vec<String>, i: usize, name: &str, content: &str, uid: u32)
    requires
        i <= path@.len(),
        dir_at(dir_model(*old(d)), path_model(path@).skip(i as int)) is Some,
    ensures
        dir_model(*final(d)) == update_at(
            dir_model(*old(d)),
            path_model(path@).skip(i as int),
            dir_with_entries(
                dir_at(dir_model(*old(d)), path_model(path@).skip(i as int)).unwrap(),
                set_entry(
                    dir_at(dir_model(*old(d)), path_model(path@).skip(i as int)).unwrap()
                        ->Dir_entries,
                    name@,
                    file_m(uid, content@),
                ),
            ),
        ),
    decreases path@.len() - i,
{
    let ghost p = path_model(path@).skip(i as int);
    let ghost em = entries_model(d.entries@);
    proof {
        lemma_entries_model(d.entries@);
    }
    if i == path.len() {
        proof {
            assert(p =~= Seq::<Seq<char>>::empty());
        }
        let node = FsNode::File(
            File {
                inode: Inode { uid, permissions: 0o644, node_type: NodeType::File },
                data: content.to_owned(),
            },
        );
        match find_entry(d, name) {
            Some(j) => {
                proof {
                    lemma_lookup_props(em, name@);
                }
                let slot = &mut d.entries[j];
                *slot = DirEntry { name: name.to_owned(), node };
            },
            None => {
                d.entries.push(DirEntry { name: name.to_owned(), node });
            },
        }
        proof {
            lemma_entries_model(d.entries@);
            assert(entries_model(d.entries@) =~= set_entry(em, name@, file_m(uid, content@)));
        }
    } else {
        proof {
            assert(p.first() == path@[i as int]@);
            assert(p.drop_first() =~= path_model(path@).skip(i as int + 1));
            lemma_lookup_props(em, p.first());
        }
        match find_entry(d, path[i].as_str()) {
            Some(j) => {
                proof {
                    assert(lookup_i(em, p.first()) == j as int);
                    assert(dir_at(dir_model(*old(d)), p) == dir_at(
                        em[j as int].node,
                        p.drop_first(),
                    ));
                    assert(em[j as int].node == node_model(d.entries@[j as int].node));
                }
                match &mut d.entries[j].node {
                    FsNode::Directory(sub) => {
                        write_at(sub, path, i + 1, name, content, uid);
                    },
                    FsNode::File(_) => {
                        proof {
                            assert(false);
                        }
                    },
                }
                proof {
                    lemma_entries_model(d.entries@);
                    assert(entries_model(d.entries@) =~= em.update(
                        j as int,
                        (EntryModel {
                            name: p.first(),
                            node: update_at(
                                em[j as int].node,
                                p.drop_first(),
                                dir_with_entries(
                                    dir_at(dir_model(*old(d)), p).unwrap(),
                                    set_entry(
                                        dir_at(dir_model(*old(d)), p).unwrap()->Dir_entries,
                                        name@,
                                        file_m(uid, content@),
                                    ),
                                ),
                            ),
                        }),
                    ));
                }
            },
            None => {
                proof {
                    assert(false);
                }
            },
        }
    }
}

/// Makes a fresh, empty directory called `name` in the directory that
/// `path` (from segment `i` on) denotes, unless the name is taken.
fn mkdir_at(d: &mut Directory, path: &Vec<String>, i: usize, name: &str, uid: u32) -> (r: Result<
    (),
    FsError,
>)
    requires
        i <= path@.len(),
        dir_at(dir_model(*old(d)), path_model(path@).skip(i as int)) is Some,
    ensures
        ({
            let p = path_model(path@).skip(i as int);
            let tgt = dir_at(dir_model(*old(d)), p).unwrap();
            match r {
                Ok(()) => lookup_i(tgt->Dir_entries, name@) == -1 && dir_model(*final(d))
                    == update_at(
                    dir_model(*old(d)),
                    p,
                    dir_with_entries(tgt, set_entry(tgt->Dir_entries, name@, empty_dir_m(uid))),
                ),
                Err(e) => e == FsError::NameConflict && lookup_i(tgt->Dir_entries, name@) >= 0
                    && dir_model(*final(d)) == dir_model(*old(d)),
            }
        }),
    decreases path@.len() - i,
{
    let ghost p = path_model(path@).skip(i as int);
    let ghost em = entries_model(d.entries@);
    proof {
        lemma_entries_model(d.entries@);
    }
    if i == path.len() {
        proof {
            assert(p =~= Seq::<Seq<char>>::empty());
        }
        match find_entry(d, name) {
            Some(_) => Err(FsError::NameConflict),
            None => {
                let node = FsNode::Directory(
                    Directory {
                        inode: Inode {
                            uid,
                            permissions: 0o755,
                            node_type: NodeType::Directory,
                        },
                        entries: Vec::new(),
                    },
                );
                d.entries.push(DirEntry { name: name.to_owned(), node });
                proof {
                    lemma_entries_model(d.entries@);
                    assert(entries_model(Seq::<DirEntry>::empty()) =~= Seq::<
                        EntryModel,
                    >::empty());
                    assert(entries_model(d.entries@) =~= set_entry(em, name@, empty_dir_m(uid)));
                }
                Ok(())
            },
        }
    } else {
        proof {
            assert(p.first() == path@[i as int]@);
            assert(p.drop_first() =~= path_model(path@).skip(i as int + 1));
            lemma_lookup_props(em, p.first());
        }
        match find_entry(d, path[i].as_str()) {
            Some(j) => {
                proof {
                    assert(lookup_i(em, p.first()) == j as int);
                    assert(dir_at(dir_model(*old(d)), p) == dir_at(
                        em[j as int].node,
                        p.drop_first(),
                    ));
                    assert(em[j as int].node == node_model(d.entries@[j as int].node));
                }
                let res = match &mut d.entries[j].node {
                    FsNode::Directory(sub) => mkdir_at(sub, path, i + 1, name, uid),
                    FsNode::File(_) => {
                        proof {
                            assert(false);
                        }
                        Err(FsError::NameConflict)
                    },
                };
                proof {
                    lemma_entries_model(d.entries@);
                    let tgt = dir_at(dir_model(*old(d)), p).unwrap();
                    if res is Ok {
                        assert(entries_model(d.entries@) =~= em.update(
                            j as int,
                            (EntryModel {
                                name: p.first(),
                                node: update_at(
                                    em[j as int].node,
                                    p.drop_first(),
                                    dir_with_entries(
                                        tgt,
                                        set_entry(tgt->Dir_entries, name@, empty_dir_m(uid)),
                                    ),
                                ),
                            }),
                        ));
                    } else {
                        assert(entries_model(d.entries@) =~= em);
                    }
                }
                res
            },
            None => {
                proof {
                    assert(false);
                }
                Err(FsError::NameConflict)
            },
        }
    }
}

/// Removes the entry called `name` (a file, or a directory with its whole
/// subtree) from the directory that `path` (from segment `i` on) denotes.
fn remove_at(d: &mut Directory, path: &Vec<String>, i: usize, name: &str) -> (r: bool)
    requires
        i <= path@.len(),
        dir_at(dir_model(*old(d)), path_model(path@).skip(i as int)) is Some,
    ensures
        ({
            let p = path_model(path@).skip(i as int);
            let tgt = dir_at(dir_model(*old(d)), p).unwrap();
            r == (lookup_i(tgt->Dir_entries, name@) >= 0) && dir_model(*final(d)) == update_at(
                dir_model(*old(d)),
                p,
                dir_with_entries(tgt, remove_entry(tgt->Dir_entries, name@)),
            )
        }),
    decreases path@.len() - i,
{
    let ghost p = path_model(path@).skip(i as int);
    let ghost em = entries_model(d.entries@);
    proof {
        lemma_entries_model(d.entries@);
    }
    if i == path.len() {
        proof {
            assert(p =~= Seq::<Seq<char>>::empty());
        }
        match find_entry(d, name) {
            Some(j) => {
                proof {
                    lemma_lookup_props(em, name@);
                }
                d.entries.remove(j);
                proof {
                    lemma_entries_model(d.entries@);
                    assert(entries_model(d.entries@) =~= remove_entry(em, name@));
                }
                true
            },
            None => {
                proof {
                    assert(dir_with_entries(dir_model(*old(d)), remove_entry(em, name@))
                        == dir_model(*old(d)));
                }
                false
            },
        }
    } else {
        proof {
            assert(p.first() == path@[i as int]@);
            assert(p.drop_first() =~= path_model(path@).skip(i as int + 1));
            lemma_lookup_props(em, p.first());
        }
        match find_entry(d, path[i].as_str()) {
            Some(j) => {
                proof {
                    assert(lookup_i(em, p.first()) == j as int);
                    assert(dir_at(dir_model(*old(d)), p) == dir_at(
                        em[j as int].node,
                        p.drop_first(),
                    ));
                    assert(em[j as int].node == node_model(d.entries@[j as int].node));
                }
                let res = match &mut d.entries[j].node {
                    FsNode::Directory(sub) => remove_at(sub, path, i + 1, name),
                    FsNode::File(_) => {
                        proof {
                            assert(false);
                        }
                        false
                    },
                };
                proof {
                    lemma_entries_model(d.entries@);
                    let tgt = dir_at(dir_model(*old(d)), p).unwrap();
                    assert(entries_model(d.entries@) =~= em.update(
                        j as int,
                        (EntryModel {
                            name: p.first(),
                            node: update_at(
                                em[j as int].node,
                                p.drop_first(),
                                dir_with_entries(tgt, remove_entry(tgt->Dir_entries, name@)),
                            ),
                        }),
                    ));
                }
                res
            },
            None => {
                proof {
                    assert(false);
                }
                false
            },
        }
    }
}

impl RamFileSystem {
    /// The entries of the current working directory, as pairs of name and
    /// node kind, in the order they were made.
    pub fn ls(&self) -> (r: Vec<(String, NodeType)>)
        requires
            self.wf(),
        ensures
            r@.len() == self.cur_entries().len(),
            forall|k: int|
                0 <= k < r@.len() ==> r@[k].0@ == self.cur_entries()[k].name && r@[k].1 == m_kind(
                    self.cur_entries()[k].node,
                ),
    {
        proof {
            assert(path_model(self.cwd@).skip(0) =~= self.cwd_m());
        }
        let cur = nav_ref(&self.root, &self.cwd, 0);
        proof {
            lemma_entries_model(cur.entries@);
        }
        let ghost em = self.cur_entries();
        let n = cur.entries.len();
        let mut r: Vec<(String, NodeType)> = Vec::new();
        let mut k: usize = 0;
        while k < n
            invariant
                n == cur.entries.len(),
                k <= n,
                em == entries_model(cur.entries@),
                em.len() == n,
                r@.len() == k,
                forall|q: int|
                    0 <= q < k ==> r@[q].0@ == em[q].name && r@[q].1 == m_kind(em[q].node),
            decreases n - k,
        {
            let kind = match &cur.entries[k].node {
                FsNode::File(_) => NodeType::File,
                FsNode::Directory(_) => NodeType::Directory,
            };
            r.push((cur.entries[k].name.clone(), kind));
            proof {
                lemma_entries_model(cur.entries@);
            }
            k += 1;
        }
        r
    }

    /// The content of the file called `name` in the current directory, or
    /// `None` if there is no file of that name there.
    pub fn read_file(&self, name: &str) -> (r: Option<String>)
        requires
            self.wf(),
        ensures
            ({
                let es = self.cur_entries();
                let i = lookup_i(es, name@);
                if i >= 0 && es[i].node is File {
                    r is Some && r.unwrap()@ == es[i].node->File_data
                } else {
                    r is None
                }
            }),
    {
        proof {
            assert(path_model(self.cwd@).skip(0) =~= self.cwd_m());
        }
        let cur = nav_ref(&self.root, &self.cwd, 0);
        proof {
            lemma_entries_model(cur.entries@);
            lemma_lookup_props(self.cur_entries(), name@);
        }
        match find_entry(cur, name) {
            Some(j) => {
                match &cur.entries[j].node {
                    FsNode::File(f) => Some(f.data.clone()),
                    FsNode::Directory(_) => None,
                }
            },
            None => None,
        }
    }

    /// Writes the file `name` in the current directory: a fresh file, or an
    /// overwrite of an existing entry of that name, owned by `uid` with the
    /// default file permissions. Only the empty name is rejected.
    pub fn write_file(&mut self, name: &str, content: &str, uid: u32) -> (r: Result<(), FsError>)
        requires
            old(self).wf(),
        ensures
            final(self).wf(),
            final(self).cwd@ == old(self).cwd@,
            name@.len() == 0 ==> r == Err::<(), FsError>(FsError::InvalidName) && final(self).root_m() == old(self).root_m(),
            name@.len() > 0 ==> r == Ok::<(), FsError>(()) && final(self).root_m() == update_at(
                old(self).root_m(),
                old(self).cwd_m(),
                dir_with_entries(
                    old(self).cur_m(),
                    set_entry(old(self).cur_entries(), name@, file_m(uid, content@)),
                ),
            ) && final(self).cur_entries() == set_entry(
                old(self).cur_entries(),
                name@,
                file_m(uid, content@),
            ),
    {
        if name.is_empty() {
            return Err(FsError::InvalidName);
        }
        proof {
            assert(path_model(self.cwd@).skip(0) =~= self.cwd_m());
        }
        write_at(&mut self.root, &self.cwd, 0, name, content, uid);
        proof {
            let m0 = old(self).root_m();
            let p = old(self).cwd_m();
            let tgt = old(self).cur_m();
            let es2 = set_entry(tgt->Dir_entries, name@, file_m(uid, content@));
            let d2 = dir_with_entries(tgt, es2);
            lemma_dir_at_wf(m0, p);
            lemma_set_entry(tgt->Dir_entries, name@, file_m(uid, content@));
            lemma_update_wf(m0, p, d2);
            lemma_dir_at_update(m0, p, d2);
        }
        Ok(())
    }

    /// Makes an empty directory called `name` in the current directory,
    /// owned by `uid`. Fails with `NameConflict` if the name is taken, and
    /// with `InvalidName` on the empty name; on failure nothing changes.
    pub fn mkdir(&mut self, name: &str, uid: u32) -> (r: Result<(), FsError>)
        requires
            old(self).wf(),
        ensures
            final(self).wf(),
            final(self).cwd@ == old(self).cwd@,
            name@.len() == 0 ==> r == Err::<(), FsError>(FsError::InvalidName) && final(self).root_m() == old(self).root_m(),
            name@.len() > 0 && lookup_i(old(self).cur_entries(), name@) >= 0 ==> r == Err::<
                (),
                FsError,
            >(FsError::NameConflict) && final(self).root_m() == old(self).root_m(),
            name@.len() > 0 && lookup_i(old(self).cur_entries(), name@) == -1 ==> r is Ok
                && final(self).root_m() == update_at(
                old(self).root_m(),
                old(self).cwd_m(),
                dir_with_entries(
                    old(self).cur_m(),
                    set_entry(old(self).cur_entries(), name@, empty_dir_m(uid)),
                ),
            ) && final(self).cur_entries() == set_entry(
                old(self).cur_entries(),
                name@,
                empty_dir_m(uid),
            ),
    {
        if name.is_empty() {
            return Err(FsError::InvalidName);
        }
        proof {
            assert(path_model(self.cwd@).skip(0) =~= self.cwd_m());
            lemma_lookup_props(old(self).cur_entries(), name@);
        }
        let r = mkdir_at(&mut self.root, &self.cwd, 0, name, uid);
        proof {
            if r is Ok {
                let m0 = old(self).root_m();
                let p = old(self).cwd_m();
                let tgt = old(self).cur_m();
                let es2 = set_entry(tgt->Dir_entries, name@, empty_dir_m(uid));
                let d2 = dir_with_entries(tgt, es2);
                lemma_dir_at_wf(m0, p);
                assert(entries_wf(Seq::<EntryModel>::empty()));
                lemma_set_entry(tgt->Dir_entries, name@, empty_dir_m(uid));
                lemma_update_wf(m0, p, d2);
                lemma_dir_at_update(m0, p, d2);
            }
        }
        r
    }

    /// Removes the entry called `name` — a file, or a directory together
    /// with its whole subtree — from the current directory; reports whether
    /// anything was removed.
    pub fn remove_file(&mut self, name: &str) -> (r: bool)
        requires
            old(self).wf(),
        ensures
            final(self).wf(),
            final(self).cwd@ == old(self).cwd@,
            r == (lookup_i(old(self).cur_entries(), name@) >= 0),
            final(self).root_m() == update_at(
                old(self).root_m(),
                old(self).cwd_m(),
                dir_with_entries(
                    old(self).cur_m(),
                    remove_entry(old(self).cur_entries(), name@),
                ),
            ),
            final(self).cur_entries() == remove_entry(old(self).cur_entries(), name@),
    {
        proof {
            assert(path_model(self.cwd@).skip(0) =~= self.cwd_m());
        }
        let r = remove_at(&mut self.root, &self.cwd, 0, name);
        proof {
            let m0 = old(self).root_m();
            let p = old(self).cwd_m();
            let tgt = old(self).cur_m();
            let es2 = remove_entry(tgt->Dir_entries, name@);
            let d2 = dir_with_entries(tgt, es2);
            lemma_dir_at_wf(m0, p);
            lemma_remove_entry(tgt->Dir_entries, name@);
            lemma_update_wf(m0, p, d2);
            lemma_dir_at_update(m0, p, d2);
        }
        r
    }

    /// Changes the current directory: `"/"` returns to the root, `".."`
    /// goes up one level (staying put at the root), and any other name
    /// descends into that directory of the current one if it exists — on
    /// `NotFound` the working directory is untouched.
    pub fn cd(&mut self, path: &str) -> (r: Result<(), FsError>)
        requires
            old(self).wf(),
        ensures
            final(self).wf(),
            final(self).root_m() == old(self).root_m(),
            path@ == "/"@ ==> r == Ok::<(), FsError>(()) && final(self).cwd_m() == Seq::<
                Seq<char>,
            >::empty(),
            path@ == ".."@ && old(self).cwd@.len() == 0 ==> r == Ok::<(), FsError>(()) && final(self).cwd_m() == old(self).cwd_m(),
            path@ == ".."@ && old(self).cwd@.len() > 0 ==> r == Ok::<(), FsError>(()) && final(self).cwd_m() == old(self).cwd_m().drop_last(),
            path@ != "/"@ && path@ != ".."@ ==> ({
                let es = old(self).cur_entries();
                let i = lookup_i(es, path@);
                if i >= 0 && es[i].node is Dir {
                    r == Ok::<(), FsError>(()) && final(self).cwd_m() == old(self).cwd_m().push(
                        path@,
                    )
                } else {
                    r == Err::<(), FsError>(FsError::NotFound) && final(self).cwd_m() == old(self).cwd_m()
                }
            }),
    {
        if str_eq(path, "/") {
            proof {
                reveal_strlit("/");
                reveal_strlit("..");
                assert(("/"@).len() == 1 && (".."@).len() == 2);
                assert(path@ != ".."@);
            }
            self.cwd = Vec::new();
            proof {
                assert(self.cwd_m() =~= Seq::<Seq<char>>::empty());
            }
            Ok(())
        } else if str_eq(path, "..") {
            if self.cwd.len() > 0 {
                proof {
                    lemma_dir_at_prefix(
                        self.root_m(),
                        self.cwd_m(),
                        self.cwd_m().len() - 1,
                    );
                    assert(self.cwd_m().take(self.cwd_m().len() - 1) =~= self.cwd_m().drop_last());
                }
                self.cwd.pop();
                proof {
                    assert(self.cwd_m() =~= old(self).cwd_m().drop_last());
                }
            }
            Ok(())
        } else {
            proof {
                assert(path_model(self.cwd@).skip(0) =~= self.cwd_m());
                lemma_lookup_props(self.cur_entries(), path@);
            }
            let cur = nav_ref(&self.root, &self.cwd, 0);
            proof {
                lemma_entries_model(cur.entries@);
            }
            let found_dir = match find_entry(cur, path) {
                Some(j) => {
                    match &cur.entries[j].node {
                        FsNode::Directory(_) => true,
                        FsNode::File(_) => false,
                    }
                },
                None => false,
            };
            if found_dir {
                proof {
                    lemma_dir_at_push(self.root_m(), self.cwd_m(), path@);
                }
                self.cwd.push(path.to_owned());
                proof {
                    assert(self.cwd_m() =~= old(self).cwd_m().push(path@));
                }
                Ok(())
            } else {
                Err(FsError::NotFound)
            }
        }
    }
}

// ---------------------------------------------------------------------------
// Statistics.
// ---------------------------------------------------------------------------

/// File count and total content bytes in the subtree rooted at `m`:
/// directories are not counted, and only file contents contribute bytes.
pub open spec fn m_stats(m: NodeModel) -> (nat, nat)
    decreases m,
{
    match m {
        NodeModel::File { data, .. } => (1nat, vstd::utf8::encode_utf8(data).len()),
        NodeModel::Dir { entries, .. } => stats_entries(entries),
    }
}

/// Summed statistics of a sequence of entries.
pub open spec fn stats_entries(es: Seq<EntryModel>) -> (nat, nat)
    decreases es,
    via stats_entries_dec
{
    if es.len() == 0 {
        (0nat, 0nat)
    } else {
        let a = stats_entries(es.drop_last());
        let b = m_stats(es.last().node);
        (a.0 + b.0, a.1 + b.1)
    }
}

#[via_fn]
proof fn stats_entries_dec(es: Seq<EntryModel>) {
    if es.len() > 0 {
        assert(decreases_to!(es => es.subrange(0, es.len() - 1)));
        assert(decreases_to!(es => es[es.len() - 1]));
    }
}

/// A count clipped to what a `usize` can hold.
pub open spec fn sat_usize(n: nat) -> nat {
    if n > usize::MAX {
        usize::MAX as nat
    } else {
        n
    }
}

/// Addition clipped at `usize::MAX`.
fn sat_add(a: usize, b: usize) -> (r: usize)
    ensures
        r == sat_usize((a + b) as nat),
{
    if a > usize::MAX - b {
        usize::MAX
    } else {
        a + b
    }
}

/// File count and total bytes in the subtree of `d`, both clipped at
/// `usize::MAX`.
fn stats_dir(d: &Directory) -> (r: (usize, usize))
    ensures
        r.0 == sat_usize(m_stats(dir_model(*d)).0),
        r.1 == sat_usize(m_stats(dir_model(*d)).1),
    decreases *d,
{
    proof {
        lemma_entries_model(d.entries@);
    }
    let ghost em = entries_model(d.entries@);
    let n = d.entries.len();
    let mut count: usize = 0;
    let mut bytes: usize = 0;
    let mut k: usize = 0;
    while k < n
        invariant
            n == d.entries.len(),
            k <= n,
            em == entries_model(d.entries@),
            em.len() == n,
            count == sat_usize(stats_entries(em.take(k as int)).0),
            bytes == sat_usize(stats_entries(em.take(k as int)).1),
        decreases n - k,
    {
        let ghost prev = stats_entries(em.take(k as int));
        proof {
            lemma_entries_model(d.entries@);
            assert(em.take(k + 1).drop_last() =~= em.take(k as int));
            assert(em.take(k + 1).last() == em[k as int]);
            assert(stats_entries(em.take(k + 1)).0 == prev.0 + m_stats(em[k as int].node).0);
            assert(stats_entries(em.take(k + 1)).1 == prev.1 + m_stats(em[k as int].node).1);
        }
        match &d.entries[k].node {
            FsNode::File(f) => {
                count = sat_add(count, 1);
                let l = f.data.as_str().as_bytes().len();
                proof {
                    assert(l == vstd::utf8::encode_utf8(f.data@).len());
                    assert(m_stats(em[k as int].node).1 == vstd::utf8::encode_utf8(
                        f.data@,
                    ).len());
                }
                bytes = sat_add(bytes, l);
            },
            FsNode::Directory(dd) => {
                proof {
                    assert(decreases_to!(d.entries => d.entries[k as int]));
                }
                let (c, s) = stats_dir(dd);
                count = sat_add(count, c);
                bytes = sat_add(bytes, s);
            },
        }
        k += 1;
    }
    proof {
        assert(em.take(n as int) =~= em);
    }
    (count, bytes)
}

// ---------------------------------------------------------------------------
// Laws.
// ---------------------------------------------------------------------------

/// Law: once `mkdir` has made a directory under a name, the name is taken —
/// so by `mkdir`'s contract a second `mkdir` under it fails with a name
/// conflict and changes nothing — and the directory keeps its first owner.
pub proof fn lemma_mkdir_keeps_first_owner(es: Seq<EntryModel>, name: Seq<char>, uid: u32)
    requires
        unique_names(es),
        entries_wf(es),
    ensures
        ({
            let es1 = set_entry(es, name, empty_dir_m(uid));
            &&& lookup_i(es1, name) >= 0
            &&& es1[lookup_i(es1, name)].node == empty_dir_m(uid)
        }),
{
    assert(entries_wf(Seq::<EntryModel>::empty()));
    lemma_set_entry(es, name, empty_dir_m(uid));
}

/// Law: a file just written reads back with exactly the written content —
/// by `write_file`'s contract the current entries become `set_entry` of a
/// file node, and by `read_file`'s contract the lookup below is what a
/// read returns.
pub proof fn lemma_write_then_read(es: Seq<EntryModel>, name: Seq<char>, data: Seq<char>, uid: u32)
    requires
        unique_names(es),
        entries_wf(es),
    ensures
        ({
            let es1 = set_entry(es, name, file_m(uid, data));
            let i = lookup_i(es1, name);
            &&& i >= 0
            &&& es1[i].node is File
            &&& es1[i].node->File_data == data
        }),
{
    lemma_set_entry(es, name, file_m(uid, data));
}

/// Law: a file just removed reads back as nothing — by `remove_file`'s
/// contract the current entries become `remove_entry`, in which the name
/// resolves to no entry at all, so by `read_file`'s contract a read
/// returns `None`.
pub proof fn lemma_remove_then_read(es: Seq<EntryModel>, name: Seq<char>)
    requires
        unique_names(es),
        entries_wf(es),
    ensures
        lookup_i(remove_entry(es, name), name) == -1,
{
    lemma_remove_entry(es, name);
}

impl RamFileSystem {
    /// The number of files in the whole tree and the total byte size of
    /// their contents (each clipped at `usize::MAX`), from a recursive
    /// traversal of the root.
    pub fn get_stats(&self) -> (r: (usize, usize))
        ensures
            r.0 == sat_usize(m_stats(self.root_m()).0),
            r.1 == sat_usize(m_stats(self.root_m()).1),
    {
        stats_dir(&self.root)
    }
}

} // verus!
