use jc_os::fs::{Directory, FsError, FsNode, NodeType, RamFileSystem};

fn entry_uid(d: &Directory, name: &str) -> Option<u32> {
    for e in d.entries.iter() {
        if e.name == name {
            return Some(match &e.node {
                FsNode::File(f) => f.inode.uid,
                FsNode::Directory(dd) => dd.inode.uid,
            });
        }
    }
    None
}

#[test]
fn stats_on_empty_filesystem() {
    let fs = RamFileSystem::new();
    assert_eq!(fs.get_stats(), (0, 0));
}

#[test]
fn write_read_remove_round_trip() {
    let mut fs = RamFileSystem::new();
    assert!(fs.write_file("a.txt", "hello", 1000).is_ok());
    assert_eq!(fs.read_file("a.txt"), Some("hello".to_string()));
    assert!(fs.remove_file("a.txt"));
    assert_eq!(fs.read_file("a.txt"), None);
}

#[test]
fn stats_counts_files_not_directories() {
    let mut fs = RamFileSystem::new();
    assert!(fs.write_file("a.txt", "hello", 1000).is_ok());
    assert_eq!(fs.get_stats(), (1, 5));
    assert!(fs.mkdir("sub", 1000).is_ok());
    assert_eq!(fs.get_stats(), (1, 5));
    assert!(fs.cd("sub").is_ok());
    assert!(fs.write_file("b.txt", "xyz", 1000).is_ok());
    assert_eq!(fs.get_stats(), (2, 8));
}

#[test]
fn mkdir_conflict_keeps_first_owner() {
    let mut fs = RamFileSystem::new();
    assert!(fs.mkdir("x", 7).is_ok());
    assert_eq!(fs.mkdir("x", 99), Err(FsError::NameConflict));
    assert_eq!(entry_uid(&fs.root, "x"), Some(7));
}

#[test]
fn cd_nonexistent_leaves_cwd_unchanged() {
    let mut fs = RamFileSystem::new();
    assert!(fs.mkdir("home", 0).is_ok());
    assert!(fs.cd("home").is_ok());
    assert_eq!(fs.cd("nonexistent"), Err(FsError::NotFound));
    assert_eq!(fs.cwd.len(), 1);
    assert_eq!(fs.cwd[0], "home");
}

#[test]
fn cd_root_and_dotdot() {
    let mut fs = RamFileSystem::new();
    assert!(fs.cd("..").is_ok());
    assert_eq!(fs.cwd.len(), 0);
    assert!(fs.mkdir("a", 0).is_ok());
    assert!(fs.cd("a").is_ok());
    assert!(fs.mkdir("b", 0).is_ok());
    assert!(fs.cd("b").is_ok());
    assert_eq!(fs.cwd.len(), 2);
    assert!(fs.cd("..").is_ok());
    assert_eq!(fs.cwd.len(), 1);
    assert!(fs.cd("/").is_ok());
    assert_eq!(fs.cwd.len(), 0);
}

#[test]
fn cd_into_file_is_not_found() {
    let mut fs = RamFileSystem::new();
    assert!(fs.write_file("f", "data", 0).is_ok());
    assert_eq!(fs.cd("f"), Err(FsError::NotFound));
}

#[test]
fn write_overwrites_existing_file() {
    let mut fs = RamFileSystem::new();
    assert!(fs.write_file("f", "one", 1).is_ok());
    assert!(fs.write_file("f", "two", 2).is_ok());
    assert_eq!(fs.read_file("f"), Some("two".to_string()));
    assert_eq!(fs.ls().len(), 1);
    assert_eq!(entry_uid(&fs.root, "f"), Some(2));
}

#[test]
fn empty_names_are_invalid() {
    let mut fs = RamFileSystem::new();
    assert_eq!(fs.write_file("", "x", 0), Err(FsError::InvalidName));
    assert_eq!(fs.mkdir("", 0), Err(FsError::InvalidName));
    assert_eq!(fs.get_stats(), (0, 0));
}

#[test]
fn remove_missing_returns_false() {
    let mut fs = RamFileSystem::new();
    assert!(!fs.remove_file("ghost"));
}

#[test]
fn remove_directory_removes_subtree() {
    let mut fs = RamFileSystem::new();
    assert!(fs.mkdir("d", 0).is_ok());
    assert!(fs.cd("d").is_ok());
    assert!(fs.write_file("inner", "abcd", 0).is_ok());
    assert!(fs.cd("/").is_ok());
    assert_eq!(fs.get_stats(), (1, 4));
    assert!(fs.remove_file("d"));
    assert_eq!(fs.get_stats(), (0, 0));
    assert_eq!(fs.ls().len(), 0);
}

#[test]
fn ls_lists_names_and_kinds_in_order() {
    let mut fs = RamFileSystem::new();
    assert!(fs.write_file("f1", "x", 0).is_ok());
    assert!(fs.mkdir("d1", 0).is_ok());
    let l = fs.ls();
    assert_eq!(l.len(), 2);
    assert_eq!(l[0].0, "f1");
    assert_eq!(l[0].1, NodeType::File);
    assert_eq!(l[1].0, "d1");
    assert_eq!(l[1].1, NodeType::Directory);
}

#[test]
fn operations_apply_in_current_directory() {
    let mut fs = RamFileSystem::new();
    assert!(fs.mkdir("d", 0).is_ok());
    assert!(fs.cd("d").is_ok());
    assert!(fs.write_file("f", "zz", 0).is_ok());
    assert_eq!(fs.read_file("f"), Some("zz".to_string()));
    assert!(fs.cd("/").is_ok());
    assert_eq!(fs.read_file("f"), None);
}
