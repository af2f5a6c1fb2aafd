//! The directory tree of the files of an index.

use crate::bundles::index::{file_views, FileInfoView, Index};
use crate::text::str_eq;
use crate::ui::app::FileSelection;
use vstd::prelude::*;
use vstd::std_specs::hash::spec_hash_map_iter;
use vstd::std_specs::iter::IteratorSpec;
use vstd::string::*;

verus! {

broadcast use {vstd::std_specs::hash::group_hash_axioms, vstd::std_specs::vec::group_vec_axioms};

/// A directory or a file of the tree.
#[derive(Debug, PartialEq, Eq)]
pub struct BundleNode {
    pub name: String,
    /// The entries of a directory. In the trees that this module builds no
    /// two of them share a name.
    pub children: Vec<BundleNode>,
    /// The path hash of a file; a directory has none.
    pub file_hash: Option<u64>,
}

/// A `BundleNode` as a mathematical value.
pub struct NodeView {
    pub name: Seq<char>,
    pub children: Seq<NodeView>,
    pub file_hash: Option<u64>,
}

/// The mathematical value of a node.
pub open spec fn node_view(node: BundleNode) -> NodeView
    decreases node,
{
    NodeView {
        name: node.name@,
        children: Seq::new(
            node.children@.len(),
            |i: int|
                if 0 <= i < node.children@.len() {
                    node_view(node.children@[i])
                } else {
                    NodeView { name: Seq::empty(), children: Seq::empty(), file_hash: None }
                },
        ),
        file_hash: node.file_hash,
    }
}

impl View for BundleNode {
    type V = NodeView;

    open spec fn view(&self) -> NodeView {
        node_view(*self)
    }
}

/// The texts of a list of strings.
pub open spec fn string_views(strings: Seq<String>) -> Seq<Seq<char>> {
    strings.map_values(|s: String| s@)
}

/// The mathematical values of a list of nodes.
pub open spec fn node_views(nodes: Seq<BundleNode>) -> Seq<NodeView> {
    nodes.map_values(|n: BundleNode| n@)
}

/// Whether `c` separates the components of a path.
pub open spec fn is_separator(c: char) -> bool {
    c == '/' || c == '\\'
}

/// The components of `path` from the one that starts at `start` on, where
/// the characters before `at` are known to belong to that component.
pub open spec fn split_from(path: Seq<char>, start: int, at: int) -> Seq<Seq<char>>
    decreases path.len() - at,
{
    if at < 0 || at >= path.len() {
        seq![path.subrange(start, path.len() as int)]
    } else if is_separator(path[at]) {
        seq![path.subrange(start, at)] + split_from(path, at + 1, at + 1)
    } else {
        split_from(path, start, at + 1)
    }
}

/// The components of `path`: what stands between its separators. There is
/// always at least one, and a component may be empty.
pub open spec fn split_path(path: Seq<char>) -> Seq<Seq<char>> {
    split_from(path, 0, 0)
}

/// The first entry from `from` on that is called `name`.
pub open spec fn find_child(children: Seq<NodeView>, name: Seq<char>, from: int) -> Option<int>
    decreases children.len() - from,
{
    if from < 0 || from >= children.len() {
        None
    } else if children[from].name == name {
        Some(from)
    } else {
        find_child(children, name, from + 1)
    }
}

/// A file called `name`.
pub open spec fn file_node(name: Seq<char>, hash: u64) -> NodeView {
    NodeView { name, children: Seq::empty(), file_hash: Some(hash) }
}

/// An empty directory called `name`.
pub open spec fn dir_node(name: Seq<char>) -> NodeView {
    NodeView { name, children: Seq::empty(), file_hash: None }
}

/// The entries `children` with `child` in the place of the entry of the same
/// name, or at the end where there is none.
pub open spec fn with_child(children: Seq<NodeView>, child: NodeView) -> Seq<NodeView> {
    match find_child(children, child.name, 0) {
        Some(i) => children.update(i, child),
        None => children.push(child),
    }
}

/// The entry called `name`, or an empty directory of that name where there
/// is none.
pub open spec fn child_or_dir(children: Seq<NodeView>, name: Seq<char>) -> NodeView {
    match find_child(children, name, 0) {
        Some(i) => children[i],
        None => dir_node(name),
    }
}

/// The tree below `node` with the file `hash` put at the path `parts`. The
/// directories on the way are made where they are missing; the file takes the
/// place of an entry of its name.
pub open spec fn with_file(node: NodeView, parts: Seq<Seq<char>>, hash: u64) -> NodeView
    decreases parts.len(),
{
    if parts.len() == 0 {
        node
    } else if parts.len() == 1 {
        NodeView { children: with_child(node.children, file_node(parts[0], hash)), ..node }
    } else {
        NodeView {
            children: with_child(
                node.children,
                with_file(child_or_dir(node.children, parts[0]), parts.drop_first(), hash),
            ),
            ..node
        }
    }
}

/// The root of every tree.
pub open spec fn root_node() -> NodeView {
    dir_node("Bundles"@)
}

/// The tree of the files `entries`, each a path hash and a path, put in one
/// after the other. A file without a path has no place in the tree.
pub open spec fn tree_of(entries: Seq<(u64, Seq<char>)>) -> NodeView
    decreases entries.len(),
{
    if entries.len() == 0 {
        root_node()
    } else {
        let tree = tree_of(entries.drop_last());
        let (hash, path) = entries.last();
        if path.len() == 0 {
            tree
        } else {
            with_file(tree, split_path(path), hash)
        }
    }
}

/// Whether no two of `children` share a name.
pub open spec fn distinct_names(children: Seq<NodeView>) -> bool {
    forall|i: int, j: int|
        0 <= i < j < children.len() ==> (#[trigger] children[i]).name != (#[trigger] children[j]).name
}

/// Whether no directory at or below `node` holds two entries of one name.
pub open spec fn well_formed(node: NodeView) -> bool
    decreases node,
{
    &&& distinct_names(node.children)
    &&& forall|i: int|
        0 <= i < node.children.len() ==> well_formed(#[trigger] node.children[i])
}

/// What `find_child` finds is called `name`, and nothing before it is; where
/// it finds nothing, nothing is called `name`.
pub proof fn lemma_find_child(children: Seq<NodeView>, name: Seq<char>, from: int)
    requires
        0 <= from,
    ensures
        match find_child(children, name, from) {
            Some(i) => from <= i < children.len() && children[i].name == name && forall|k: int|
                from <= k < i ==> (#[trigger] children[k]).name != name,
            None => forall|k: int|
                from <= k < children.len() ==> (#[trigger] children[k]).name != name,
        },
    decreases children.len() - from,
{
    if from < children.len() && children[from].name != name {
        lemma_find_child(children, name, from + 1);
    }
}

/// Putting an entry in leaves no two entries with one name.
pub proof fn lemma_with_child_keeps_names_distinct(children: Seq<NodeView>, child: NodeView)
    requires
        distinct_names(children),
    ensures
        distinct_names(with_child(children, child)),
        with_child(children, child).len() >= children.len(),
        forall|k: int|
            0 <= k < with_child(children, child).len() ==> #[trigger] with_child(
                children,
                child,
            )[k] == child || (k < children.len() && with_child(children, child)[k]
                == children[k]),
{
    lemma_find_child(children, child.name, 0);
    let after = with_child(children, child);
    assert forall|i: int, j: int| 0 <= i < j < after.len() implies (#[trigger] after[i]).name != (
    #[trigger] after[j]).name by {
        match find_child(children, child.name, 0) {
            Some(at) => {
                assert(after[i].name == children[i].name);
                assert(after[j].name == children[j].name);
            },
            None => {
                if j < children.len() {
                    assert(after[i] == children[i] && after[j] == children[j]);
                } else {
                    assert(after[i] == children[i]);
                }
            },
        }
    }
}

/// Putting a file into a well-formed tree leaves it well-formed.
pub proof fn lemma_with_file_keeps_well_formed(node: NodeView, parts: Seq<Seq<char>>, hash: u64)
    requires
        well_formed(node),
    ensures
        well_formed(with_file(node, parts, hash)),
    decreases parts.len(),
{
    if parts.len() == 0 {
    } else {
        let child = if parts.len() == 1 {
            file_node(parts[0], hash)
        } else {
            with_file(child_or_dir(node.children, parts[0]), parts.drop_first(), hash)
        };
        if parts.len() == 1 {
            assert(well_formed(child));
        } else {
            lemma_find_child(node.children, parts[0], 0);
            let sub = child_or_dir(node.children, parts[0]);
            assert(well_formed(sub));
            lemma_with_file_keeps_well_formed(sub, parts.drop_first(), hash);
        }
        lemma_with_child_keeps_names_distinct(node.children, child);
        let after = with_file(node, parts, hash);
        assert(after.children == with_child(node.children, child));
        assert forall|i: int| 0 <= i < after.children.len() implies well_formed(
            #[trigger] after.children[i],
        ) by {
            if after.children[i] != child {
                assert(after.children[i] == node.children[i]);
            }
        }
    }
}

/// The tree of any list of files is well-formed.
pub proof fn lemma_tree_is_well_formed(entries: Seq<(u64, Seq<char>)>)
    ensures
        well_formed(tree_of(entries)),
    decreases entries.len(),
{
    if entries.len() > 0 {
        lemma_tree_is_well_formed(entries.drop_last());
        let (hash, path) = entries.last();
        lemma_with_file_keeps_well_formed(tree_of(entries.drop_last()), split_path(path), hash);
    }
}

/// Putting a file in keeps the name of the directory.
pub proof fn lemma_with_file_keeps_name(node: NodeView, parts: Seq<Seq<char>>, hash: u64)
    ensures
        with_file(node, parts, hash).name == node.name,
{
}

/// The children of a node as mathematical values.
proof fn lemma_children_view(node: BundleNode)
    ensures
        node@.children == node_views(node.children@),
        node@.name == node.name@,
        node@.file_hash == node.file_hash,
{
    assert(node@.children =~= node_views(node.children@));
}

/// Splits `path` at its separators.
pub fn split(path: &str) -> (parts: Vec<String>)
    ensures
        string_views(parts@) == split_path(path@),
{
    let len = path.unicode_len();
    let mut parts: Vec<String> = Vec::new();
    let mut start: usize = 0;
    let mut at: usize = 0;
    assert(string_views(parts@) =~= Seq::<Seq<char>>::empty());
    while at < len
        invariant
            len == path@.len(),
            start <= at <= len,
            split_path(path@) == string_views(parts@) + split_from(path@, start as int, at as int),
        decreases len - at,
    {
        let c = path.get_char(at);
        if c == '/' || c == '\\' {
            let part = String::from_str(path.substring_char(start, at));
            let ghost before = string_views(parts@);
            let ghost rest = split_from(path@, at + 1, at + 1);
            parts.push(part);
            assert(string_views(parts@) =~= before.push(part@));
            assert(before + (seq![part@] + rest) =~= before.push(part@) + rest);
            start = at + 1;
        }
        at += 1;
    }
    let part = String::from_str(path.substring_char(start, len));
    let ghost before = string_views(parts@);
    parts.push(part);
    assert(string_views(parts@) =~= before + seq![part@]);
    parts
}

/// Looks for the entry called `name`.
fn position_of(children: &Vec<BundleNode>, name: &str) -> (r: Option<usize>)
    ensures
        match r {
            Some(i) => find_child(node_views(children@), name@, 0) == Some(i as int) && i
                < children@.len() && children@[i as int].name@ == name@,
            None => find_child(node_views(children@), name@, 0) is None,
        },
{
    let mut i: usize = 0;
    while i < children.len()
        invariant
            i <= children@.len(),
            find_child(node_views(children@), name@, 0) == find_child(
                node_views(children@),
                name@,
                i as int,
            ),
        decreases children@.len() - i,
    {
        proof {
            lemma_children_view(children@[i as int]);
        }
        if str_eq(children[i].name.as_str(), name) {
            return Some(i);
        }
        i += 1;
    }
    None
}

/// Puts the file `hash` at the path made of the components of `parts` from
/// number `from` on, below `node`.
fn insert_file(node: &mut BundleNode, parts: &Vec<String>, from: usize, hash: u64)
    requires
        from <= parts@.len(),
    ensures
        final(node)@ == with_file(
            old(node)@,
            string_views(parts@).subrange(from as int, parts@.len() as int),
            hash,
        ),
    decreases parts@.len() - from,
{
    let ghost rest = string_views(parts@).subrange(from as int, parts@.len() as int);
    let ghost before = node@;
    proof {
        lemma_children_view(*node);
    }
    if from >= parts.len() {
        return ;
    }
    let name = parts[from].clone();
    assert(rest[0] == name@);
    assert(rest.drop_first() =~= string_views(parts@).subrange(from + 1, parts@.len() as int));
    let found = position_of(&node.children, name.as_str());
    if from + 1 == parts.len() {
        let file = BundleNode { name, children: Vec::new(), file_hash: Some(hash) };
        proof {
            lemma_children_view(file);
            assert(file@.children =~= Seq::<NodeView>::empty());
            assert(file@ == file_node(rest[0], hash));
        }
        match found {
            Some(i) => {
                node.children.set(i, file);
                assert(node_views(node.children@) =~= before.children.update(i as int, file@));
            },
            None => {
                node.children.push(file);
                assert(node_views(node.children@) =~= before.children.push(file@));
            },
        }
        proof {
            lemma_children_view(*node);
            assert(rest.len() == 1);
            assert(node@.children == with_child(before.children, file@));
            assert(node@.name == before.name);
            assert(node@.file_hash == before.file_hash);
            assert(node@ == with_file(before, rest, hash));
        }
    } else {
        let at = match found {
            Some(i) => i,
            None => {
                let dir = BundleNode { name, children: Vec::new(), file_hash: None };
                proof {
                    lemma_children_view(dir);
                    assert(dir@.children =~= Seq::<NodeView>::empty());
                    assert(dir@ == dir_node(rest[0]));
                }
                node.children.push(dir);
                node.children.len() - 1
            },
        };
        let ghost sub = node.children@[at as int]@;
        let ghost mid = node_views(node.children@);
        assert(sub == mid[at as int]);
        assert(found is Some ==> mid =~= before.children);
        assert(sub == child_or_dir(before.children, rest[0]));
        insert_file(&mut node.children[at], parts, from + 1, hash);
        proof {
            lemma_with_file_keeps_name(sub, rest.drop_first(), hash);
            assert(node_views(node.children@) =~= mid.update(
                at as int,
                with_file(sub, rest.drop_first(), hash),
            ));
            lemma_children_view(*node);
            if found is None {
                assert(mid.update(at as int, with_file(sub, rest.drop_first(), hash))
                    =~= before.children.push(with_file(sub, rest.drop_first(), hash)));
            }
            assert(rest.len() > 1);
            assert(sub.name == rest[0]);
            assert(node@.children == with_child(
                before.children,
                with_file(sub, rest.drop_first(), hash),
            ));
            assert(node@.name == before.name);
            assert(node@.file_hash == before.file_hash);
            assert(node@ == with_file(before, rest, hash));
        }
    }
}

/// The path hashes and paths of a list of files.
pub open spec fn entry_views(entries: Seq<(u64, String)>) -> Seq<(u64, Seq<char>)> {
    entries.map_values(|e: (u64, String)| (e.0, e.1@))
}

/// Whether `entries` lists every file of `files` once, with its path hash and
/// its path.
pub open spec fn enumerates(entries: Seq<(u64, Seq<char>)>, files: Map<u64, FileInfoView>) -> bool {
    &&& forall|i: int|
        0 <= i < entries.len() ==> files.contains_key(#[trigger] entries[i].0) && files[entries[i].0].path
            == entries[i].1
    &&& forall|i: int, j: int|
        0 <= i < j < entries.len() ==> #[trigger] entries[i].0 != #[trigger] entries[j].0
    &&& forall|hash: u64| #[trigger]
        files.contains_key(hash) ==> exists|i: int|
            0 <= i < entries.len() && #[trigger] entries[i].0 == hash
}

/// Lists the path hash and the path of every file of `index`, in the order in
/// which the file table hands them out.
pub fn file_entries(index: &Index) -> (entries: Vec<(u64, String)>)
    ensures
        enumerates(entry_views(entries@), file_views(index.files@)),
{
    let mut entries: Vec<(u64, String)> = Vec::new();
    let ghost all = spec_hash_map_iter(&index.files).remaining();
    for pair in it: index.files.iter()
        invariant
            it.seq() == all,
            it.seq().no_duplicates(),
            entries@.len() == it.index(),
            forall|j: int|
                0 <= j < entries@.len() ==> (#[trigger] entries@[j]).0 == *it.seq()[j].0
                    && entries@[j].1@ == it.seq()[j].1.path@,
    {
        let (hash, file) = pair;
        entries.push((*hash, file.path.clone()));
    }
    proof {
        let views = entry_views(entries@);
        let files = file_views(index.files@);
        assert(views.len() == all.len());
        assert forall|i: int| 0 <= i < views.len() implies files.contains_key(
            #[trigger] views[i].0,
        ) && files[views[i].0].path == views[i].1 by {
            assert(index.files@.contains_key(*all[i].0));
            assert(index.files@[*all[i].0] == *all[i].1);
        }
        assert forall|i: int, j: int| 0 <= i < j < views.len() implies #[trigger] views[i].0
            != #[trigger] views[j].0 by {
            assert(index.files@.contains_key(*all[i].0));
            assert(index.files@[*all[i].0] == *all[i].1);
            assert(index.files@.contains_key(*all[j].0));
            assert(index.files@[*all[j].0] == *all[j].1);
            if views[i].0 == views[j].0 {
                assert(all[i] == all[j]);
            }
        }
        assert forall|hash: u64| #[trigger] files.contains_key(hash) implies exists|i: int|
            0 <= i < views.len() && #[trigger] views[i].0 == hash by {
            assert(index.files@.contains_key(hash));
            let pair = (&hash, &index.files@[hash]);
            assert(all.contains(pair));
            let i = choose|i: int| 0 <= i < all.len() && all[i] == pair;
            assert(views[i].0 == hash);
        }
    }
    entries
}

/// The path hashes of the files at and below `node`: its own first, then
/// those of its entries in order.
pub open spec fn hashes_of(node: NodeView) -> Seq<u64>
    decreases node, 0nat,
{
    let own = match node.file_hash {
        Some(hash) => seq![hash],
        None => Seq::empty(),
    };
    own + hashes_below(node.children, node.children.len())
}

/// The path hashes of the files at and below the first `n` of `nodes`.
pub open spec fn hashes_below(nodes: Seq<NodeView>, n: nat) -> Seq<u64>
    decreases nodes, n,
{
    if n == 0 || n > nodes.len() {
        Seq::empty()
    } else {
        hashes_below(nodes, (n - 1) as nat) + hashes_of(nodes[n - 1])
    }
}

/// What the tree asks of the program after an event.
#[derive(Debug, Clone, PartialEq, Eq)]
pub enum TreeViewAction {
    /// Nothing is asked.
    Nothing,
    /// A file was picked.
    Select,
    /// The files with these path hashes, which lie below the directory of
    /// this name, are to be exported.
    ExportBundleFolder(Vec<u64>, String),
}

/// The tree of the files of an index, as far as their paths are known.
#[derive(Debug)]
pub struct TreeView {
    /// The root of the tree; none where the files are not read from an
    /// index.
    pub bundle_root: Option<BundleNode>,
}

impl BundleNode {
    /// Builds the tree of the files `entries`, each a path hash and a path.
    pub fn from_entries(entries: &Vec<(u64, String)>) -> (root: BundleNode)
        ensures
            root@ == tree_of(entry_views(entries@)),
            well_formed(root@),
    {
        proof {
            lemma_tree_is_well_formed(entry_views(entries@));
        }
        let mut root = BundleNode {
            name: String::from_str("Bundles"),
            children: Vec::new(),
            file_hash: None,
        };
        proof {
            lemma_children_view(root);
            assert(root@.children =~= Seq::<NodeView>::empty());
            assert(entry_views(entries@).subrange(0, 0) =~= Seq::<(u64, Seq<char>)>::empty());
        }
        let mut k: usize = 0;
        while k < entries.len()
            invariant
                k <= entries@.len(),
                root@ == tree_of(entry_views(entries@).subrange(0, k as int)),
            decreases entries@.len() - k,
        {
            proof {
                let upto = entry_views(entries@).subrange(0, k + 1);
                assert(upto.drop_last() =~= entry_views(entries@).subrange(0, k as int));
                assert(upto.last() == (entries@[k as int].0, entries@[k as int].1@));
            }
            let path = entries[k].1.as_str();
            if !path.is_empty() {
                let parts = split(path);
                assert(string_views(parts@).subrange(0, parts@.len() as int) =~= string_views(
                    parts@,
                ));
                insert_file(&mut root, &parts, 0, entries[k].0);
            }
            k += 1;
        }
        assert(entry_views(entries@).subrange(0, entries@.len() as int) =~= entry_views(entries@));
        root
    }
}

impl TreeView {
    /// A view without a tree.
    pub fn new() -> (view: TreeView)
        ensures
            view.bundle_root is None,
    {
        TreeView { bundle_root: None }
    }

    /// A view with the tree of the files of `index`.
    pub fn new_bundled(index: &Index) -> (view: TreeView)
        ensures
            view.bundle_root is Some,
            well_formed(view.bundle_root.unwrap()@),
            exists|entries: Seq<(u64, Seq<char>)>| #[trigger]
                enumerates(entries, file_views(index.files@)) && view.bundle_root.unwrap()@
                    == tree_of(entries),
    {
        let root = TreeView::build_bundle_tree(index);
        TreeView { bundle_root: Some(root) }
    }

    /// Builds the tree of the files of `index`. The files are put in in the
    /// order in which the file table hands them out, which decides who stays
    /// where two paths claim one place.
    pub fn build_bundle_tree(index: &Index) -> (root: BundleNode)
        ensures
            well_formed(root@),
            exists|entries: Seq<(u64, Seq<char>)>| #[trigger]
                enumerates(entries, file_views(index.files@)) && root@ == tree_of(entries),
    {
        let entries = file_entries(index);
        BundleNode::from_entries(&entries)
    }

    /// What a click on `node` does: a file becomes the selection, a
    /// directory leaves the selection as it is.
    pub fn click(&self, node: &BundleNode) -> (r: (Option<FileSelection>, TreeViewAction))
        ensures
            r == match node.file_hash {
                Some(hash) => (Some(FileSelection::BundleFile(hash)), TreeViewAction::Select),
                None => (None::<FileSelection>, TreeViewAction::Nothing),
            },
    {
        match node.file_hash {
            Some(hash) => (Some(FileSelection::BundleFile(hash)), TreeViewAction::Select),
            None => (None, TreeViewAction::Nothing),
        }
    }

    /// What the request to export the folder `node` does: every file at and
    /// below it is to be exported, under the name of the folder.
    pub fn export_folder(&self, node: &BundleNode) -> (action: TreeViewAction)
        ensures
            action matches TreeViewAction::ExportBundleFolder(hashes, name) && hashes@
                == hashes_of(node@) && name@ == node.name@,
    {
        let mut hashes: Vec<u64> = Vec::new();
        self.collect_hashes(node, &mut hashes);
        assert(Seq::<u64>::empty() + hashes_of(node@) =~= hashes_of(node@));
        TreeViewAction::ExportBundleFolder(hashes, node.name.clone())
    }

    /// Appends the path hashes of the files at and below `node` to `hashes`.
    pub fn collect_hashes(&self, node: &BundleNode, hashes: &mut Vec<u64>)
        ensures
            final(hashes)@ == old(hashes)@ + hashes_of(node@),
        decreases node,
    {
        let ghost start = hashes@;
        proof {
            lemma_children_view(*node);
        }
        match node.file_hash {
            Some(hash) => {
                hashes.push(hash);
            },
            None => {},
        }
        let ghost own = hashes@;
        let mut k: usize = 0;
        assert(own + hashes_below(node@.children, 0) =~= own);
        while k < node.children.len()
            invariant
                k <= node.children@.len(),
                node@.children == node_views(node.children@),
                hashes@ == own + hashes_below(node@.children, k as nat),
            decreases node.children@.len() - k,
        {
            let ghost before = hashes@;
            self.collect_hashes(&node.children[k], hashes);
            assert(own + (hashes_below(node@.children, k as nat) + hashes_of(
                node.children@[k as int]@,
            )) =~= before + hashes_of(node.children@[k as int]@));
            k += 1;
        }
        assert(start + hashes_of(node@) =~= own + hashes_below(
            node@.children,
            node@.children.len(),
        ));
    }
}

} // verus!
