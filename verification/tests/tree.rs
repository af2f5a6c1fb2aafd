use ggpk_explorer::bundles::index::{FileInfo, Index};
use ggpk_explorer::ui::app::FileSelection;
use ggpk_explorer::ui::tree_view::{file_entries, split, BundleNode, TreeView, TreeViewAction};
use std::collections::HashMap;

fn dir(name: &str, children: Vec<BundleNode>) -> BundleNode {
    BundleNode { name: name.to_string(), children, file_hash: None }
}

fn leaf(name: &str, hash: u64) -> BundleNode {
    BundleNode { name: name.to_string(), children: vec![], file_hash: Some(hash) }
}

fn entries(list: &[(u64, &str)]) -> Vec<(u64, String)> {
    list.iter().map(|(h, p)| (*h, p.to_string())).collect()
}

fn index(list: &[(u64, &str)]) -> Index {
    let mut files = HashMap::new();
    for (hash, path) in list {
        files.insert(
            *hash,
            FileInfo {
                path_hash: *hash,
                bundle_index: 0,
                file_offset: 0,
                file_size: 0,
                path: path.to_string(),
            },
        );
    }
    Index { bundles: vec![], files }
}

#[test]
fn paths_split_at_slashes_and_backslashes() {
    assert_eq!(split("a/b\\c.txt"), vec!["a", "b", "c.txt"]);
    assert_eq!(split("name"), vec!["name"]);
    assert_eq!(split(""), vec![""]);
    assert_eq!(split("/"), vec!["", ""]);
    assert_eq!(split("a//b/"), vec!["a", "", "b", ""]);
    assert_eq!(split("größe/€"), vec!["größe", "€"]);
}

#[test]
fn a_tree_without_files_is_the_bare_root() {
    assert_eq!(BundleNode::from_entries(&vec![]), dir("Bundles", vec![]));
    assert_eq!(BundleNode::from_entries(&entries(&[(1, ""), (2, "")])), dir("Bundles", vec![]));
}

#[test]
fn files_are_put_below_the_directories_of_their_paths() {
    let tree = BundleNode::from_entries(&entries(&[
        (1, "art/a.dds"),
        (2, "art/sub/b.dds"),
        (3, "top.txt"),
        (4, "art/c.dds"),
        (5, "data\\d.dat"),
    ]));
    assert_eq!(
        tree,
        dir(
            "Bundles",
            vec![
                dir(
                    "art",
                    vec![leaf("a.dds", 1), dir("sub", vec![leaf("b.dds", 2)]), leaf("c.dds", 4)]
                ),
                leaf("top.txt", 3),
                dir("data", vec![leaf("d.dat", 5)]),
            ]
        )
    );
}

#[test]
fn a_file_takes_the_place_of_an_entry_of_its_name() {
    let tree = BundleNode::from_entries(&entries(&[(1, "a/x"), (2, "b"), (3, "a"), (4, "b")]));
    assert_eq!(tree, dir("Bundles", vec![leaf("a", 3), leaf("b", 4)]));
}

#[test]
fn a_file_on_the_way_becomes_a_parent() {
    let tree = BundleNode::from_entries(&entries(&[(1, "a"), (2, "a/x")]));
    assert_eq!(
        tree,
        dir(
            "Bundles",
            vec![BundleNode {
                name: "a".to_string(),
                children: vec![leaf("x", 2)],
                file_hash: Some(1)
            }]
        )
    );
}

#[test]
fn hashes_are_collected_from_the_top_down() {
    let tree = BundleNode::from_entries(&entries(&[
        (1, "art/a.dds"),
        (2, "art/sub/b.dds"),
        (3, "top.txt"),
        (4, "art/c.dds"),
    ]));
    let view = TreeView::new();
    let mut hashes = vec![99];
    view.collect_hashes(&tree, &mut hashes);
    assert_eq!(hashes, vec![99, 1, 2, 4, 3]);
    let mut below = Vec::new();
    view.collect_hashes(&tree.children[0], &mut below);
    assert_eq!(below, vec![1, 2, 4]);
    let both = BundleNode::from_entries(&entries(&[(1, "a"), (2, "a/x")]));
    let mut hashes = Vec::new();
    view.collect_hashes(&both, &mut hashes);
    assert_eq!(hashes, vec![1, 2]);
}

#[test]
fn a_view_without_an_index_has_no_tree() {
    assert_eq!(TreeView::new().bundle_root, None);
}

#[test]
fn every_file_of_the_index_is_listed_once() {
    let index = index(&[(1, "a/b"), (2, ""), (3, "c")]);
    let mut listed = file_entries(&index);
    listed.sort();
    assert_eq!(listed, entries(&[(1, "a/b"), (2, ""), (3, "c")]));
}

#[test]
fn the_tree_of_an_index_holds_its_files_with_paths() {
    let index = index(&[(1, "art/a.dds"), (2, ""), (3, "art/b.dds"), (4, "data/c.dat")]);
    let view = TreeView::new_bundled(&index);
    let root = view.bundle_root.as_ref().unwrap();
    assert_eq!(root.name, "Bundles");
    assert_eq!(root.file_hash, None);
    assert_eq!(root.children.len(), 2);
    let mut hashes = Vec::new();
    view.collect_hashes(root, &mut hashes);
    hashes.sort();
    assert_eq!(hashes, vec![1, 3, 4]);
    let art = root.children.iter().find(|c| c.name == "art").unwrap();
    assert_eq!(art.children.len(), 2);
    assert!(art.children.iter().any(|c| c.name == "a.dds" && c.file_hash == Some(1)));
    assert_eq!(*root, TreeView::build_bundle_tree(&index));
}

#[test]
fn a_click_selects_files_only() {
    let view = TreeView::new();
    assert_eq!(
        view.click(&leaf("a.dds", 7)),
        (Some(FileSelection::BundleFile(7)), TreeViewAction::Select)
    );
    assert_eq!(view.click(&dir("art", vec![leaf("a.dds", 7)])), (None, TreeViewAction::Nothing));
}

#[test]
fn a_folder_is_exported_with_every_file_below_it() {
    let tree = BundleNode::from_entries(&entries(&[
        (1, "art/a.dds"),
        (2, "art/sub/b.dds"),
        (3, "top.txt"),
        (4, "art/c.dds"),
    ]));
    let view = TreeView::new();
    assert_eq!(
        view.export_folder(&tree.children[0]),
        TreeViewAction::ExportBundleFolder(vec![1, 2, 4], "art".to_string())
    );
    assert_eq!(
        view.export_folder(&tree),
        TreeViewAction::ExportBundleFolder(vec![1, 2, 4, 3], "Bundles".to_string())
    );
    assert_eq!(
        view.export_folder(&dir("empty", vec![])),
        TreeViewAction::ExportBundleFolder(vec![], "empty".to_string())
    );
}
