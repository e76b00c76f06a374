use rokit::disk::FsAction;
use rokit::path::StoragePath;
use rokit::storage::{Reconciliation, Step, ToolStorage};
use rokit::tool::{ToolAlias, ToolSpec};

fn path_in(segments: &[&str]) -> StoragePath {
    StoragePath { segments: segments.iter().map(|s| s.to_string()).collect() }
}

fn loaded(symlinks: bool) -> ToolStorage {
    ToolStorage::load("/home/user/.rokit", "/opt/rokit/rokit", "", symlinks).0
}

fn with_contents(symlinks: bool, contents: &[u8]) -> ToolStorage {
    let mut storage = loaded(symlinks);
    assert_eq!(storage.cache_contents(contents.to_vec()), contents.to_vec());
    storage
}

fn names(entries: &[&str]) -> Vec<String> {
    entries.iter().map(|s| s.to_string()).collect()
}

fn ready(step: Step<Reconciliation>) -> Reconciliation {
    match step {
        Step::Ready(plan) => plan,
        Step::ReadExe { path } => panic!("the bytes of {path:?} were asked for"),
    }
}

fn write_manager(contents: &[u8]) -> FsAction {
    FsAction::WriteExecutable {
        path: path_in(&["/home/user/.rokit", "bin", "aftman"]),
        contents: contents.to_vec(),
    }
}

fn link_to_manager(name: &str) -> FsAction {
    FsAction::WriteLink {
        link: path_in(&["/home/user/.rokit", "bin", name]),
        target: path_in(&["/home/user/.rokit", "bin", "aftman"]),
    }
}

fn copy_of_manager(name: &str, contents: &[u8]) -> FsAction {
    FsAction::WriteExecutable {
        path: path_in(&["/home/user/.rokit", "bin", name]),
        contents: contents.to_vec(),
    }
}

#[test]
fn load_asks_for_both_directories() {
    let (storage, create) = ToolStorage::load("/home/user/.rokit", "/opt/rokit/rokit", "", true);
    assert_eq!(
        create,
        vec![
            FsAction::CreateDirAll { path: path_in(&["/home/user/.rokit", "tool-storage"]) },
            FsAction::CreateDirAll { path: path_in(&["/home/user/.rokit", "bin"]) },
        ]
    );
    assert!(!storage.needs_saving());
    assert_eq!(
        storage.aftman_contents(),
        Step::ReadExe { path: path_in(&["/opt/rokit/rokit"]) }
    );
}

#[test]
fn store_tool_creates_the_directory_then_writes_the_binary() {
    let storage = loaded(true);
    let spec = ToolSpec::new("acme", "foo", "1.2.3");
    let actions = storage.replace_tool_contents(&spec, &vec![0xDE, 0xAD]);
    assert_eq!(
        actions,
        vec![
            FsAction::CreateDirAll {
                path: path_in(&["/home/user/.rokit", "tool-storage", "acme", "foo", "1.2.3"]),
            },
            FsAction::WriteExecutable {
                path: path_in(&["/home/user/.rokit", "tool-storage", "acme", "foo", "1.2.3", "foo"]),
                contents: vec![0xDE, 0xAD],
            },
        ]
    );
    match &actions[1] {
        FsAction::WriteExecutable { path, .. } => assert_eq!(*path, storage.tool_path(&spec)),
        other => panic!("{other:?} does not write the binary"),
    }
}

#[test]
fn store_tool_with_suffix_and_no_bytes() {
    let storage = ToolStorage::load("home", "exe", ".exe", false).0;
    let spec = ToolSpec::new("acme", "foo", "1.2.3");
    assert_eq!(
        storage.replace_tool_contents(&spec, &Vec::new()),
        vec![
            FsAction::CreateDirAll {
                path: path_in(&["home", "tool-storage", "acme", "foo", "1.2.3"]),
            },
            FsAction::WriteExecutable {
                path: path_in(&["home", "tool-storage", "acme", "foo", "1.2.3", "foo.exe"]),
                contents: Vec::new(),
            },
        ]
    );
}

#[test]
fn contents_are_read_for_the_first_request_only() {
    let mut storage = loaded(true);
    let mut reads = 0;
    let mut answers = Vec::new();
    for _ in 0..5 {
        let bytes = match storage.aftman_contents() {
            Step::Ready(bytes) => bytes,
            Step::ReadExe { path } => {
                assert_eq!(path, path_in(&["/opt/rokit/rokit"]));
                reads += 1;
                storage.cache_contents(vec![1, 2, 3])
            }
        };
        answers.push(bytes);
    }
    assert_eq!(reads, 1);
    assert_eq!(answers, vec![vec![1, 2, 3]; 5]);
}

#[test]
fn known_contents_are_kept_when_more_are_read() {
    let mut storage = loaded(true);
    assert_eq!(storage.cache_contents(vec![1, 2, 3]), vec![1, 2, 3]);
    assert_eq!(storage.cache_contents(vec![9, 9]), vec![1, 2, 3]);
    assert_eq!(storage.aftman_contents(), Step::Ready(vec![1, 2, 3]));
}

#[test]
fn replace_with_new_contents_writes_and_remembers_them() {
    let mut storage = with_contents(true, &[1, 2, 3]);
    assert_eq!(storage.replace_aftman_contents(Some(vec![7, 8])), Step::Ready(write_manager(&[7, 8])));
    assert_eq!(storage.aftman_contents(), Step::Ready(vec![7, 8]));
}

#[test]
fn replace_with_new_contents_needs_no_read() {
    let mut storage = loaded(true);
    assert_eq!(storage.replace_aftman_contents(Some(vec![7, 8])), Step::Ready(write_manager(&[7, 8])));
    assert_eq!(storage.aftman_contents(), Step::Ready(vec![7, 8]));
}

#[test]
fn replace_without_contents_writes_the_known_ones() {
    let mut storage = with_contents(true, &[1, 2, 3]);
    assert_eq!(storage.replace_aftman_contents(None), Step::Ready(write_manager(&[1, 2, 3])));
    assert_eq!(storage.aftman_contents(), Step::Ready(vec![1, 2, 3]));
}

#[test]
fn replace_without_contents_asks_for_the_read() {
    let mut storage = loaded(true);
    assert_eq!(
        storage.replace_aftman_contents(None),
        Step::ReadExe { path: path_in(&["/opt/rokit/rokit"]) }
    );
    assert_eq!(storage.aftman_contents(), Step::ReadExe { path: path_in(&["/opt/rokit/rokit"]) });
    storage.cache_contents(vec![4]);
    assert_eq!(storage.replace_aftman_contents(None), Step::Ready(write_manager(&[4])));
}

#[test]
fn tool_link_points_to_the_manager_where_there_are_links() {
    let storage = with_contents(true, &[1, 2, 3]);
    assert_eq!(
        storage.create_tool_link(&ToolAlias::new("bar")),
        Step::Ready(link_to_manager("bar"))
    );
}

#[test]
fn tool_link_is_a_copy_of_the_manager_where_there_are_no_links() {
    let storage = with_contents(false, &[1, 2, 3]);
    assert_eq!(
        storage.create_tool_link(&ToolAlias::new("bar")),
        Step::Ready(copy_of_manager("bar", &[1, 2, 3]))
    );
}

#[test]
fn tool_link_asks_for_the_read_first() {
    for symlinks in [true, false] {
        assert_eq!(
            loaded(symlinks).create_tool_link(&ToolAlias::new("bar")),
            Step::ReadExe { path: path_in(&["/opt/rokit/rokit"]) }
        );
    }
}

#[test]
fn tool_link_has_the_executable_suffix() {
    let alias = ToolAlias::new("bar");
    let mut copies = ToolStorage::load("home", "exe", ".exe", false).0;
    copies.cache_contents(vec![5]);
    assert_eq!(
        copies.create_tool_link(&alias),
        Step::Ready(FsAction::WriteExecutable {
            path: path_in(&["home", "bin", "bar.exe"]),
            contents: vec![5],
        })
    );
    let mut links = ToolStorage::load("home", "exe", ".exe", true).0;
    links.cache_contents(vec![5]);
    assert_eq!(
        links.create_tool_link(&alias),
        Step::Ready(FsAction::WriteLink {
            link: path_in(&["home", "bin", "bar.exe"]),
            target: path_in(&["home", "bin", "aftman.exe"]),
        })
    );
    assert_eq!(links.alias_path(&alias), path_in(&["home", "bin", "bar.exe"]));
}

#[test]
fn recreate_asks_for_the_read_first() {
    let storage = loaded(true);
    assert_eq!(
        storage.recreate_all_links(&names(&["bar"]), None),
        Step::ReadExe { path: path_in(&["/opt/rokit/rokit"]) }
    );
}

#[test]
fn recreate_in_an_empty_directory_installs_the_manager() {
    let storage = with_contents(true, &[1, 2, 3]);
    let plan = ready(storage.recreate_all_links(&Vec::new(), None));
    assert_eq!(
        plan,
        Reconciliation {
            found: false,
            changed: true,
            manager: write_manager(&[1, 2, 3]),
            links: Vec::new(),
        }
    );
}

#[test]
fn recreate_with_an_empty_manager_reports_no_change() {
    let storage = with_contents(true, &[]);
    let plan = ready(storage.recreate_all_links(&Vec::new(), None));
    assert!(!plan.found);
    assert!(!plan.changed);
    assert_eq!(plan.manager, write_manager(&[]));
}

#[test]
fn recreate_treats_an_empty_entry_like_a_missing_one() {
    let storage = with_contents(true, &[1]);
    let missing = ready(storage.recreate_all_links(&names(&["aftman"]), None));
    let empty = ready(storage.recreate_all_links(&names(&["aftman"]), Some(Vec::new())));
    assert_eq!(missing, empty);
    assert!(empty.found);
    assert!(empty.changed);
}

#[test]
fn recreate_repoints_a_stale_alias() {
    let storage = with_contents(true, &[2, 2, 2]);
    let plan = ready(storage.recreate_all_links(&names(&["bar", "aftman"]), Some(vec![1, 1, 1])));
    assert_eq!(
        plan,
        Reconciliation {
            found: true,
            changed: true,
            manager: write_manager(&[2, 2, 2]),
            links: vec![link_to_manager("bar")],
        }
    );
}

#[test]
fn recreate_without_symlinks_copies_the_manager() {
    let storage = with_contents(false, &[2, 2, 2]);
    let plan = ready(
        storage.recreate_all_links(&names(&["bar", "aftman", "baz", "qux"]), Some(vec![1, 1, 1])),
    );
    assert_eq!(plan.manager, write_manager(&[2, 2, 2]));
    assert_eq!(
        plan.links,
        vec![
            copy_of_manager("bar", &[2, 2, 2]),
            copy_of_manager("baz", &[2, 2, 2]),
            copy_of_manager("qux", &[2, 2, 2]),
        ]
    );
    for action in &plan.links {
        assert!(matches!(action, FsAction::WriteExecutable { .. }));
    }
}

#[test]
fn recreate_twice_finds_nothing_to_change() {
    let storage = with_contents(true, &[2, 2, 2]);
    let first = ready(storage.recreate_all_links(&names(&["bar", "baz"]), None));
    assert!(!first.found);
    assert!(first.changed);
    assert_eq!(first.links, vec![link_to_manager("bar"), link_to_manager("baz")]);
    let second =
        ready(storage.recreate_all_links(&names(&["aftman", "bar", "baz"]), Some(vec![2, 2, 2])));
    assert!(second.found);
    assert!(!second.changed);
    assert_eq!(second.manager, first.manager);
    assert_eq!(second.links, first.links);
}

#[test]
fn recreate_keeps_the_order_of_the_entries() {
    let storage = with_contents(true, &[1]);
    let plan = ready(
        storage.recreate_all_links(&names(&["zeta", "aftman", "alpha", "aftman", "zeta"]), None),
    );
    assert!(plan.found);
    assert_eq!(
        plan.links,
        vec![link_to_manager("zeta"), link_to_manager("alpha"), link_to_manager("zeta")]
    );
}

#[test]
fn recreate_goes_by_the_name_with_the_suffix() {
    let mut storage = ToolStorage::load("home", "exe", ".exe", true).0;
    storage.cache_contents(vec![1]);
    let plan = ready(storage.recreate_all_links(&names(&["aftman", "aftman.exe", "bar.exe"]), None));
    assert!(plan.found);
    assert_eq!(
        plan.manager,
        FsAction::WriteExecutable { path: path_in(&["home", "bin", "aftman.exe"]), contents: vec![1] }
    );
    assert_eq!(
        plan.links,
        vec![
            FsAction::WriteLink {
                link: path_in(&["home", "bin", "aftman"]),
                target: path_in(&["home", "bin", "aftman.exe"]),
            },
            FsAction::WriteLink {
                link: path_in(&["home", "bin", "bar.exe"]),
                target: path_in(&["home", "bin", "aftman.exe"]),
            },
        ]
    );
}

#[test]
fn recreate_compares_every_byte() {
    let storage = with_contents(true, &[1, 2, 3]);
    let same = ready(storage.recreate_all_links(&names(&["aftman"]), Some(vec![1, 2, 3])));
    assert!(!same.changed);
    for other in [vec![1, 2], vec![1, 2, 4], vec![0, 2, 3], vec![1, 2, 3, 0]] {
        let plan = ready(storage.recreate_all_links(&names(&["aftman"]), Some(other)));
        assert!(plan.changed);
    }
}

#[test]
fn storage_keeps_what_it_was_loaded_with() {
    let storage = ToolStorage::load("home", "exe", ".exe", false).0;
    assert_eq!(storage.exe_suffix(), ".exe");
    assert!(!storage.symlinks());
    assert!(loaded(true).symlinks());
    assert_eq!(loaded(true).exe_suffix(), "");
    assert_eq!(*storage.tools_dir(), path_in(&["home", "tool-storage"]));
    assert_eq!(*storage.aliases_dir(), path_in(&["home", "bin"]));
    assert_eq!(*storage.current_exe_path(), path_in(&["exe"]));
}
