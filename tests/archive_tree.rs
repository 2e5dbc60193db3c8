use file_cloud::error::AppError;
use file_cloud::path::{entry_name, entry_parent, trim_dir_mark};
use file_cloud::zip_tree::{entries_to_tree, ZipEntryInfo, ZipTree};

fn entry(name: &str, is_dir: bool, size: u64) -> ZipEntryInfo {
    ZipEntryInfo { filename: name.to_string(), is_dir, size, modified: 7 }
}

fn child_names(t: &ZipTree, p: usize) -> Vec<String> {
    t.children_of(p).iter().map(|&c| t.nodes[c].name.clone()).collect()
}

#[test]
fn entry_path_parts() {
    assert_eq!(trim_dir_mark("sub/"), "sub");
    assert_eq!(trim_dir_mark("sub/b.txt"), "sub/b.txt");
    assert_eq!(entry_name("sub/b.txt"), "b.txt");
    assert_eq!(entry_name("a.txt"), "a.txt");
    assert_eq!(entry_name(""), "unknown");
    assert_eq!(entry_parent("sub/b.txt"), "sub");
    assert_eq!(entry_parent("x/y/z"), "x/y");
    assert_eq!(entry_parent("a.txt"), "");
}

#[test]
fn archive_of_two_files_lists_both() {
    let t = entries_to_tree(&vec![entry("a.txt", false, 10), entry("sub/b.txt", false, 20)]).unwrap();
    assert_eq!(t.links.len(), 2);
    let root = t.inner(t.root);
    assert_eq!(root.file.name, "");
    assert!(root.file.is_dir);
    assert_eq!(child_names(&t, t.root), vec!["a.txt".to_string()]);
    let a = t.children_of(t.root)[0];
    assert_eq!(t.nodes[a].size, 10);
    assert!(t.nodes[a].is_file);
    let b = t.links[1].1;
    assert_eq!(t.nodes[b].name, "b.txt");
    assert_eq!(t.nodes[b].size, 20);
    let sub = t.links[1].0;
    assert_eq!(t.nodes[sub].name, "sub");
    assert!(t.nodes[sub].is_dir);
}

#[test]
fn listed_directory_collects_its_files() {
    let t = entries_to_tree(&vec![
        entry("sub/", true, 0),
        entry("sub/b.txt", false, 20),
        entry("sub/c.txt", false, 5),
    ])
    .unwrap();
    assert_eq!(t.nodes[t.root].name, "");
    assert_eq!(child_names(&t, t.root), vec!["sub".to_string()]);
    let sub = t.children_of(t.root)[0];
    assert_eq!(child_names(&t, sub), vec!["b.txt".to_string(), "c.txt".to_string()]);
    assert_eq!(t.inner(sub).children.len(), 2);
    assert_eq!(t.nodes[sub].modified, 7);
}

#[test]
fn root_is_shortest_parent() {
    let t = entries_to_tree(&vec![entry("top/x/a.txt", false, 1), entry("top/b.txt", false, 2)]).unwrap();
    assert_eq!(t.nodes[t.root].name, "top");
    assert_eq!(child_names(&t, t.root), vec!["b.txt".to_string()]);
}

#[test]
fn empty_archive_has_no_tree() {
    assert_eq!(entries_to_tree(&vec![]).err(), Some(AppError::Zip));
}
