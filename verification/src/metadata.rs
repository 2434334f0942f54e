//! What a renderer is told of an output directory: the files and directories directly
//! in it, and, when one file is written per package, which file holds which package.
use vstd::prelude::*;
use crate::error::Error;
use crate::paths::{file_name, file_stem_of, parent, path_parent, stem};
use crate::text::{chars_of, opt_text, replace_spec, split_by, split_spec, str_eq, views};
use crate::util::{file_name_or_error, normalize_slashes};

verus! {

/// A package and the file written for it.
#[derive(Clone)]
pub struct PackageFile {
    package: String,
    file_name: String,
}

impl PackageFile {
    /// The package and its file, as text.
    pub closed spec fn pair(&self) -> (Seq<char>, Seq<char>) {
        (self.package@, self.file_name@)
    }

    /// The package, fully qualified.
    pub fn package(&self) -> (r: &str)
        ensures
            r@ == self.pair().0,
    {
        self.package.as_str()
    }

    /// The file written for the package.
    pub fn file_name(&self) -> (r: &str)
        ensures
            r@ == self.pair().1,
    {
        self.file_name.as_str()
    }
}

/// A package component in the package file tree: the file written for the package
/// ending here, if any, and the components below it.
pub struct PackageTreeNode {
    file_name: Option<String>,
    children: PackageTree,
}

/// Package components, each with the subtree below it. A component is found at its
/// first entry.
pub struct PackageTree {
    entries: Vec<(String, PackageTreeNode)>,
}

/// The node of the first entry of `entries` with key `k`.
pub closed spec fn find_child(entries: Seq<(String, PackageTreeNode)>, k: Seq<char>) -> Option<PackageTreeNode>
    decreases entries.len(),
{
    if entries.len() == 0 {
        None
    } else if entries[0].0@ == k {
        Some(entries[0].1)
    } else {
        find_child(entries.skip(1), k)
    }
}

/// What the tree holds at the package whose components are `q`: none when there is no
/// node there, the node's file name otherwise.
pub closed spec fn file_at(tree: Seq<(String, PackageTreeNode)>, q: Seq<Seq<char>>) -> Option<Option<Seq<char>>>
    decreases q.len(),
{
    if q.len() == 0 {
        None
    } else {
        match find_child(tree, q[0]) {
            None => None,
            Some(n) => if q.len() == 1 {
                Some(opt_text(n.file_name))
            } else {
                file_at(n.children.entries@, q.skip(1))
            },
        }
    }
}

/// Whether `q` is a non-empty proper prefix of `comps`.
pub open spec fn is_proper_prefix(q: Seq<Seq<char>>, comps: Seq<Seq<char>>) -> bool {
    0 < q.len() < comps.len() && q == comps.take(q.len() as int)
}

/// What the tree holds at `q` after `file` is recorded for the package `comps`: the
/// file at `comps`, a node (keeping its file) at each shorter prefix, the rest as
/// before.
pub open spec fn file_after_insert(
    before: Option<Option<Seq<char>>>,
    comps: Seq<Seq<char>>,
    file: Seq<char>,
    q: Seq<Seq<char>>,
) -> Option<Option<Seq<char>>> {
    if q == comps {
        Some(Some(file))
    } else if is_proper_prefix(q, comps) {
        Some(match before {
            Some(f) => f,
            None => None,
        })
    } else {
        before
    }
}

/// What the tree built from `files` (package, file) holds at `q`, each later entry
/// recorded over the earlier ones.
pub open spec fn tree_file_at(files: Seq<(Seq<char>, Seq<char>)>, q: Seq<Seq<char>>) -> Option<Option<Seq<char>>>
    decreases files.len(),
{
    if files.len() == 0 {
        None
    } else {
        file_after_insert(
            tree_file_at(files.drop_last(), q),
            split_spec(files.last().0, '.'),
            replace_spec(files.last().1, seq!['\\'], seq!['/']),
            q,
        )
    }
}

/// A list of (package, file) pairs, as text.
pub open spec fn pair_views(v: Seq<(String, String)>) -> Seq<(Seq<char>, Seq<char>)> {
    v.map_values(|p: (String, String)| (p.0@, p.1@))
}

proof fn lemma_file_at_empty(q: Seq<Seq<char>>)
    ensures
        file_at(Seq::<(String, PackageTreeNode)>::empty(), q) is None,
{
}

proof fn lemma_find_child_first(entries: Seq<(String, PackageTreeNode)>, j: int, k: Seq<char>)
    requires
        0 <= j < entries.len(),
        entries[j].0@ == k,
        forall|i: int| 0 <= i < j ==> entries[i].0@ != k,
    ensures
        find_child(entries, k) == Some(entries[j].1),
    decreases j,
{
    if j > 0 {
        lemma_find_child_first(entries.skip(1), j - 1, k);
    }
}

proof fn lemma_find_child_none(entries: Seq<(String, PackageTreeNode)>, k: Seq<char>)
    requires
        forall|i: int| 0 <= i < entries.len() ==> entries[i].0@ != k,
    ensures
        find_child(entries, k) is None,
    decreases entries.len(),
{
    if entries.len() > 0 {
        lemma_find_child_none(entries.skip(1), k);
    }
}

proof fn lemma_find_child_update(entries: Seq<(String, PackageTreeNode)>, j: int, node: PackageTreeNode, x: Seq<char>)
    requires
        0 <= j < entries.len(),
        x != entries[j].0@,
    ensures
        find_child(entries.update(j, (entries[j].0, node)), x) == find_child(entries, x),
    decreases entries.len(),
{
    let updated = entries.update(j, (entries[j].0, node));
    if j > 0 {
        assert(updated.skip(1) =~= entries.skip(1).update(j - 1, (entries[j].0, node)));
        lemma_find_child_update(entries.skip(1), j - 1, node, x);
    } else {
        assert(updated.skip(1) =~= entries.skip(1));
    }
}

proof fn lemma_find_child_push(entries: Seq<(String, PackageTreeNode)>, key: String, node: PackageTreeNode, x: Seq<char>)
    requires
        find_child(entries, key@) is None,
    ensures
        find_child(entries.push((key, node)), x) == (if x == key@ { Some(node) } else { find_child(entries, x) }),
    decreases entries.len(),
{
    let pushed = entries.push((key, node));
    if entries.len() == 0 {
        assert(pushed.skip(1) =~= Seq::<(String, PackageTreeNode)>::empty());
        assert(find_child(pushed.skip(1), x) is None);
    } else {
        assert(entries[0].0@ != key@);
        assert(find_child(entries.skip(1), key@) is None);
        assert(pushed.skip(1) =~= entries.skip(1).push((key, node)));
        lemma_find_child_push(entries.skip(1), key, node, x);
        assert(find_child(pushed.skip(1), x) == find_child(entries.skip(1).push((key, node)), x));
    }
}

impl PackageTree {
    /// The entries, as stored.
    pub closed spec fn entry_seq(&self) -> Seq<(String, PackageTreeNode)> {
        self.entries@
    }

    /// An empty tree.
    pub fn new() -> (r: Self)
        ensures
            r.entry_seq().len() == 0,
    {
        PackageTree { entries: Vec::new() }
    }

    /// The components at this level, each with its subtree, in the order first seen.
    pub fn entries(&self) -> (r: &Vec<(String, PackageTreeNode)>)
        ensures
            r@ == self.entry_seq(),
    {
        &self.entries
    }

    /// The subtree of component `key`.
    pub fn get(&self, key: &str) -> (r: Option<&PackageTreeNode>)
        ensures
            match r { Some(n) => find_child(self.entry_seq(), key@) == Some(*n), None => find_child(self.entry_seq(), key@) is None },
    {
        match self.position(key) {
            None => None,
            Some(j) => Some(&self.entries[j].1),
        }
    }

    /// The first entry with key `key`.
    fn position(&self, key: &str) -> (r: Option<usize>)
        ensures
            r matches Some(j) ==> j < self.entries@.len() && self.entries@[j as int].0@ == key@
                && (forall|i: int| 0 <= i < j ==> self.entries@[i].0@ != key@)
                && find_child(self.entries@, key@) == Some(self.entries@[j as int].1),
            r is None ==> find_child(self.entries@, key@) is None,
    {
        let mut i: usize = 0;
        while i < self.entries.len()
            invariant
                i <= self.entries@.len(),
                forall|j: int| 0 <= j < i ==> self.entries@[j].0@ != key@,
            decreases self.entries.len() - i,
        {
            if str_eq(self.entries[i].0.as_str(), key) {
                proof {
                    lemma_find_child_first(self.entries@, i as int, key@);
                }
                return Some(i);
            }
            i = i + 1;
        }
        proof {
            lemma_find_child_none(self.entries@, key@);
        }
        None
    }

    /// Records `file` for the package whose components are those of `comps` from `i` on.
    fn insert_path(&mut self, comps: &Vec<String>, i: usize, file: &str)
        requires
            i < comps@.len(),
        ensures
            forall|q: Seq<Seq<char>>| #[trigger] file_at(final(self).entries@, q)
                == file_after_insert(file_at(old(self).entries@, q), views(comps@).skip(i as int), file@, q),
        decreases comps@.len() - i,
    {
        let ghost c = views(comps@).skip(i as int);
        let ghost k = comps@[i as int]@;
        let ghost old_entries = self.entries@;
        assert(c[0] == k);
        let found = self.position(comps[i].as_str());
        let mut entries: Vec<(String, PackageTreeNode)> = Vec::new();
        std::mem::swap(&mut entries, &mut self.entries);
        let (key, mut node, index) = match found {
            Some(j) => {
                let (key, node) = entries.remove(j);
                (key, node, Some(j))
            },
            None => (comps[i].clone(), PackageTreeNode { file_name: None, children: PackageTree::new() }, None),
        };
        let ghost fresh = found is None;
        let ghost old_children = node.children.entries@;
        let ghost old_file = node.file_name;
        assert(key@ == k);
        assert(!fresh ==> Some(node) == find_child(old_entries, k));
        assert(fresh ==> old_children == Seq::<(String, PackageTreeNode)>::empty() && old_file is None);
        if i == comps.len() - 1 {
            node.file_name = Some(file.to_owned());
        } else {
            node.children.insert_path(comps, i + 1, file);
            assert(c.skip(1) =~= views(comps@).skip(i + 1));
        }
        let ghost new_node = node;
        match index {
            Some(j) => {
                entries.insert(j, (key, node));
                assert(entries@ =~= old_entries.update(j as int, (old_entries[j as int].0, new_node)));
                proof {
                    assert forall|x: Seq<char>| x != k implies #[trigger] find_child(entries@, x) == find_child(old_entries, x) by {
                        lemma_find_child_update(old_entries, j as int, new_node, x);
                    }
                    assert forall|m: int| 0 <= m < j implies entries@[m].0@ != k by {
                        assert(entries@[m] == old_entries[m]);
                    }
                    lemma_find_child_first(entries@, j as int, k);
                }
            },
            None => {
                let ghost key_copy = key;
                entries.push((key, node));
                proof {
                    assert forall|x: Seq<char>| #[trigger] find_child(entries@, x)
                        == (if x == k { Some(new_node) } else { find_child(old_entries, x) }) by {
                        lemma_find_child_push(old_entries, key_copy, new_node, x);
                    }
                }
            },
        }
        self.entries = entries;
        assert(find_child(self.entries@, k) == Some(new_node));
        assert forall|x: Seq<char>| x != k implies #[trigger] find_child(self.entries@, x) == find_child(old_entries, x) by {
            if index is None {
                assert(find_child(self.entries@, x) == (if x == k { Some(new_node) } else { find_child(old_entries, x) }));
            }
        }
        assert forall|q: Seq<Seq<char>>| #[trigger] file_at(self.entries@, q)
            == file_after_insert(file_at(old_entries, q), c, file@, q) by {
            if q.len() == 0 {
                assert(file_at(self.entries@, q) is None);
                assert(file_at(old_entries, q) is None);
            } else if q[0] != k {
                assert(find_child(self.entries@, q[0]) == find_child(old_entries, q[0]));
                assert(q != c);
                assert(!is_proper_prefix(q, c)) by {
                    if is_proper_prefix(q, c) {
                        assert(q[0] == c.take(q.len() as int)[0]);
                    }
                }
            } else if q.len() == 1 {
                assert(file_at(self.entries@, q) == Some(opt_text(new_node.file_name)));
                if c.len() == 1 {
                    assert(q =~= c);
                    assert(opt_text(new_node.file_name) == Some(file@));
                } else {
                    assert(q =~= c.take(1));
                    assert(is_proper_prefix(q, c));
                    assert(new_node.file_name == old_file);
                }
            } else {
                assert(file_at(self.entries@, q) == file_at(new_node.children.entries@, q.skip(1)));
                if c.len() == 1 {
                    assert(q != c);
                    assert(new_node.children.entries@ == old_children);
                    if fresh {
                        lemma_file_at_empty(q.skip(1));
                    }
                } else {
                    let qs = q.skip(1);
                    let cs = c.skip(1);
                    assert(cs =~= views(comps@).skip(i + 1));
                    assert((qs == cs) == (q == c)) by {
                        if qs == cs {
                            assert forall|j: int| 0 <= j < q.len() implies q[j] == c[j] by {
                                if j > 0 {
                                    assert(q[j] == qs[j - 1]);
                                    assert(c[j] == cs[j - 1]);
                                }
                            }
                            assert(q =~= c);
                        }
                    }
                    assert(is_proper_prefix(qs, cs) == is_proper_prefix(q, c)) by {
                        if is_proper_prefix(qs, cs) {
                            assert forall|j: int| 0 <= j < q.len() implies q[j] == c.take(q.len() as int)[j] by {
                                if j > 0 {
                                    assert(q[j] == qs[j - 1]);
                                    assert(qs[j - 1] == cs.take(qs.len() as int)[j - 1]);
                                }
                            }
                            assert(q =~= c.take(q.len() as int));
                        }
                        if is_proper_prefix(q, c) {
                            assert(qs =~= cs.take(qs.len() as int));
                        }
                    }
                    if fresh {
                        lemma_file_at_empty(qs);
                    }
                }
            }
        }
    }
}

/// The package file tree: each package split at `.` into components, a node for each
/// component, and the package's file (with `/` separators) at its last one.
pub fn create_package_file_tree(package_files: &Vec<(String, String)>) -> (r: PackageTree)
    ensures
        forall|q: Seq<Seq<char>>| #[trigger] file_at(r.entry_seq(), q) == tree_file_at(pair_views(package_files@), q),
{
    let mut tree = PackageTree::new();
    let mut i: usize = 0;
    proof {
        assert forall|q: Seq<Seq<char>>| #[trigger] file_at(tree.entries@, q)
            == tree_file_at(pair_views(package_files@).take(0), q) by {
            lemma_file_at_empty(q);
        }
    }
    while i < package_files.len()
        invariant
            i <= package_files@.len(),
            forall|q: Seq<Seq<char>>| #[trigger] file_at(tree.entries@, q)
                == tree_file_at(pair_views(package_files@).take(i as int), q),
        decreases package_files.len() - i,
    {
        let comps = split_by(&chars_of(package_files[i].0.as_str()), '.');
        let file = normalize_slashes(package_files[i].1.as_str());
        let ghost before = tree.entries@;
        tree.insert_path(&comps, 0, file.as_str());
        proof {
            let files = pair_views(package_files@).take(i + 1);
            assert(files.drop_last() =~= pair_views(package_files@).take(i as int));
            assert(views(comps@).skip(0) =~= views(comps@));
            assert forall|q: Seq<Seq<char>>| #[trigger] file_at(tree.entries@, q) == tree_file_at(files, q) by {
                assert(file_at(before, q) == tree_file_at(files.drop_last(), q));
            }
        }
        i = i + 1;
    }
    assert(pair_views(package_files@).take(package_files@.len() as int) =~= pair_views(package_files@));
    tree
}

impl PackageTreeNode {
    /// The file written for the package that ends at this node, if any.
    pub closed spec fn file_view(&self) -> Option<Seq<char>> {
        opt_text(self.file_name)
    }

    /// The file written for the package that ends at this node, if any.
    pub fn file_name(&self) -> (r: Option<&String>)
        ensures
            match r { Some(s) => self.file_view() == Some(s@), None => self.file_view() is None },
    {
        self.file_name.as_ref()
    }

    /// The components below this node.
    pub closed spec fn children_seq(&self) -> Seq<(String, PackageTreeNode)> {
        self.children.entries@
    }

    /// The components below this node.
    pub fn children(&self) -> (r: &PackageTree)
        ensures
            r.entry_seq() == self.children_seq(),
    {
        &self.children
    }
}

/// Whether `path` lies directly in the directory `dir`.
pub open spec fn is_direct_child_spec(dir: Seq<char>, path: Seq<char>) -> bool {
    match parent(path) {
        None => dir.len() == 0,
        Some(p) => p == dir,
    }
}

/// Whether each path of `paths` directly in `dir` has a file name that keeps a name
/// without its extension.
pub open spec fn children_ok(paths: Seq<Seq<char>>, dir: Seq<char>) -> bool {
    forall|j: int| 0 <= j < paths.len() && is_direct_child_spec(dir, #[trigger] paths[j]) ==>
        (file_name(paths[j]) matches Some(n) && stem(n) != seq!['.', '.'])
}

/// The file names of the paths of `paths` that lie directly in `dir`, in order.
pub open spec fn child_names(paths: Seq<Seq<char>>, dir: Seq<char>) -> Seq<Seq<char>>
    decreases paths.len(),
{
    if paths.len() == 0 {
        Seq::<Seq<char>>::empty()
    } else if is_direct_child_spec(dir, paths.last()) {
        child_names(paths.drop_last(), dir).push(file_name(paths.last()).unwrap())
    } else {
        child_names(paths.drop_last(), dir)
    }
}

/// Those file names without their extensions.
pub open spec fn child_stems(paths: Seq<Seq<char>>, dir: Seq<char>) -> Seq<Seq<char>> {
    child_names(paths, dir).map_values(|n: Seq<char>| stem(n))
}

/// Whether `path` is a non-empty path directly in `dir`.
pub open spec fn is_subdirectory_spec(dir: Seq<char>, path: Seq<char>) -> bool {
    path.len() > 0 && is_direct_child_spec(dir, path)
}

/// Whether each non-empty path of `paths` directly in `dir` has a file name.
pub open spec fn subdirectories_ok(paths: Seq<Seq<char>>, dir: Seq<char>) -> bool {
    forall|j: int| 0 <= j < paths.len() && is_subdirectory_spec(dir, #[trigger] paths[j]) ==>
        file_name(paths[j]) is Some
}

/// The names of the non-empty paths of `paths` directly in `dir`, in order.
pub open spec fn subdirectory_names(paths: Seq<Seq<char>>, dir: Seq<char>) -> Seq<Seq<char>>
    decreases paths.len(),
{
    if paths.len() == 0 {
        Seq::<Seq<char>>::empty()
    } else if is_subdirectory_spec(dir, paths.last()) {
        subdirectory_names(paths.drop_last(), dir).push(file_name(paths.last()).unwrap())
    } else {
        subdirectory_names(paths.drop_last(), dir)
    }
}

/// What a renderer is told of an output directory.
pub struct MetadataContext {
    directory: String,
    file_names: Vec<String>,
    file_names_with_ext: Vec<String>,
    subdirectories: Vec<String>,
    package_files_full: Vec<PackageFile>,
    package_file_tree: PackageTree,
}

/// What a `MetadataContext` holds, but for its package file tree.
pub struct MetadataModel {
    pub directory: Seq<char>,
    pub file_names: Seq<Seq<char>>,
    pub file_names_with_ext: Seq<Seq<char>>,
    pub subdirectories: Seq<Seq<char>>,
    pub package_files_full: Seq<(Seq<char>, Seq<char>)>,
}

impl View for MetadataContext {
    type V = MetadataModel;

    closed spec fn view(&self) -> MetadataModel {
        MetadataModel {
            directory: self.directory@,
            file_names: views(self.file_names@),
            file_names_with_ext: views(self.file_names_with_ext@),
            subdirectories: views(self.subdirectories@),
            package_files_full: self.package_files_full@.map_values(|p: PackageFile| p.pair()),
        }
    }
}

impl MetadataContext {
    /// What the package file tree holds at the package whose components are `q`.
    pub closed spec fn tree_file(&self, q: Seq<Seq<char>>) -> Option<Option<Seq<char>>> {
        file_at(self.package_file_tree.entries@, q)
    }

    /// The context of the output root, with nothing in it yet.
    pub fn new() -> (r: Self)
        ensures
            r@.directory.len() == 0,
            r@.file_names.len() == 0,
            r@.file_names_with_ext.len() == 0,
            r@.subdirectories.len() == 0,
            r@.package_files_full.len() == 0,
            forall|q: Seq<Seq<char>>| #[trigger] r.tree_file(q) is None,
    {
        proof {
            reveal_strlit("");
        }
        MetadataContext::with_relative_dir("")
    }

    /// The context of the directory `directory`, relative to the output root, with
    /// nothing in it yet.
    pub fn with_relative_dir(directory: &str) -> (r: Self)
        ensures
            r@.directory == directory@,
            r@.file_names.len() == 0,
            r@.file_names_with_ext.len() == 0,
            r@.subdirectories.len() == 0,
            r@.package_files_full.len() == 0,
            forall|q: Seq<Seq<char>>| #[trigger] r.tree_file(q) is None,
    {
        let r = MetadataContext {
            directory: directory.to_owned(),
            file_names: Vec::new(),
            file_names_with_ext: Vec::new(),
            subdirectories: Vec::new(),
            package_files_full: Vec::new(),
            package_file_tree: PackageTree::new(),
        };
        assert forall|q: Seq<Seq<char>>| #[trigger] r.tree_file(q) is None by {
            lemma_file_at_empty(q);
        }
        r
    }

    /// The directory, relative to the output root.
    pub fn relative_dir(&self) -> (r: &str)
        ensures
            r@ == self@.directory,
    {
        self.directory.as_str()
    }

    /// The directory, relative to the output root.
    pub fn directory(&self) -> (r: &str)
        ensures
            r@ == self@.directory,
    {
        self.directory.as_str()
    }

    /// Names of the files directly in the directory, without extensions.
    pub fn file_names(&self) -> (r: &Vec<String>)
        ensures
            views(r@) == self@.file_names,
    {
        &self.file_names
    }

    /// Names of the files directly in the directory, with extensions.
    pub fn file_names_with_ext(&self) -> (r: &Vec<String>)
        ensures
            views(r@) == self@.file_names_with_ext,
    {
        &self.file_names_with_ext
    }

    /// Names of the directories directly in the directory.
    pub fn subdirectories(&self) -> (r: &Vec<String>)
        ensures
            views(r@) == self@.subdirectories,
    {
        &self.subdirectories
    }

    /// Each package and the file written for it.
    pub fn package_files_full(&self) -> (r: &Vec<PackageFile>)
        ensures
            r@.map_values(|p: PackageFile| p.pair()) == self@.package_files_full,
    {
        &self.package_files_full
    }

    /// The package file tree.
    pub fn package_file_tree(&self) -> (r: &PackageTree)
        ensures
            forall|q: Seq<Seq<char>>| #[trigger] file_at(r.entry_seq(), q) == self.tree_file(q),
    {
        &self.package_file_tree
    }

    /// Whether `path` lies directly in this directory.
    pub fn is_direct_child(&self, path: &str) -> (r: bool)
        ensures
            r == is_direct_child_spec(self@.directory, path@),
    {
        match path_parent(path) {
            None => self.directory.as_str().is_empty(),
            Some(p) => str_eq(p.as_str(), self.directory.as_str()),
        }
    }

    /// Records the file at `path` when it lies directly in this directory: its name with
    /// its extension, then without. An error when it has no file name, or no name is
    /// left without its extension; the name with extension is then already recorded.
    pub fn push_file(&mut self, path: &str) -> (r: Result<(), Error>)
        ensures
            final(self)@.directory == old(self)@.directory,
            final(self)@.subdirectories == old(self)@.subdirectories,
            final(self)@.package_files_full == old(self)@.package_files_full,
            forall|q: Seq<Seq<char>>| #[trigger] final(self).tree_file(q) == old(self).tree_file(q),
            r is Ok <==> children_ok(seq![path@], old(self)@.directory),
            r is Ok ==> final(self)@.file_names_with_ext == old(self)@.file_names_with_ext
                + child_names(seq![path@], old(self)@.directory),
            r is Ok ==> final(self)@.file_names == old(self)@.file_names
                + child_stems(seq![path@], old(self)@.directory),
            r matches Err(e) ==> e matches Error::NoFileName(_),
    {
        let ghost ps = seq![path@];
        assert(ps[0] == path@);
        assert(ps.drop_last() =~= Seq::<Seq<char>>::empty());
        assert(child_names(Seq::<Seq<char>>::empty(), self@.directory) == Seq::<Seq<char>>::empty());
        if !self.is_direct_child(path) {
            assert(child_names(ps, self@.directory) == Seq::<Seq<char>>::empty());
            assert(child_stems(ps, self@.directory) =~= Seq::<Seq<char>>::empty());
            assert(views(self.file_names@) =~= views(old(self).file_names@) + child_stems(ps, self@.directory));
            assert(views(self.file_names_with_ext@) =~= views(old(self).file_names_with_ext@) + child_names(ps, self@.directory));
            return Ok(());
        }
        let with_ext = match file_name_or_error(path) {
            Ok(n) => n,
            Err(e) => return Err(e),
        };
        let no_ext = file_stem_of(with_ext.as_str());
        self.file_names_with_ext.push(with_ext);
        proof {
            reveal_strlit("..");
            assert(".."@ =~= seq!['.', '.']);
        }
        if str_eq(no_ext.as_str(), "..") {
            return Err(Error::NoFileName(path.to_owned()));
        }
        self.file_names.push(no_ext);
        assert(child_names(ps, self@.directory) == seq![file_name(path@).unwrap()]);
        assert(child_stems(ps, self@.directory) =~= seq![stem(file_name(path@).unwrap())]);
        assert(views(self.file_names@) =~= views(old(self).file_names@) + child_stems(ps, self@.directory));
        assert(views(self.file_names_with_ext@) =~= views(old(self).file_names_with_ext@) + child_names(ps, self@.directory));
        Ok(())
    }

    /// Records the directory at `path` when it is not empty and lies directly in this
    /// directory. An error when it has no file name.
    pub fn push_subdirectory(&mut self, path: &str) -> (r: Result<(), Error>)
        ensures
            final(self)@.directory == old(self)@.directory,
            final(self)@.file_names == old(self)@.file_names,
            final(self)@.file_names_with_ext == old(self)@.file_names_with_ext,
            final(self)@.package_files_full == old(self)@.package_files_full,
            forall|q: Seq<Seq<char>>| #[trigger] final(self).tree_file(q) == old(self).tree_file(q),
            r is Ok <==> subdirectories_ok(seq![path@], old(self)@.directory),
            r is Ok ==> final(self)@.subdirectories == old(self)@.subdirectories
                + subdirectory_names(seq![path@], old(self)@.directory),
            r matches Err(e) ==> e matches Error::NoFileName(_),
    {
        let ghost ps = seq![path@];
        assert(ps[0] == path@);
        assert(ps.drop_last() =~= Seq::<Seq<char>>::empty());
        assert(subdirectory_names(Seq::<Seq<char>>::empty(), self@.directory) == Seq::<Seq<char>>::empty());
        if path.is_empty() || !self.is_direct_child(path) {
            assert(subdirectory_names(ps, self@.directory) == Seq::<Seq<char>>::empty());
            assert(views(self.subdirectories@) =~= views(old(self).subdirectories@) + subdirectory_names(ps, self@.directory));
            return Ok(());
        }
        let name = match file_name_or_error(path) {
            Ok(n) => n,
            Err(e) => return Err(e),
        };
        self.subdirectories.push(name);
        assert(subdirectory_names(ps, self@.directory) == seq![file_name(path@).unwrap()]);
        assert(views(self.subdirectories@) =~= views(old(self).subdirectories@) + subdirectory_names(ps, self@.directory));
        Ok(())
    }

    /// Records each file of `paths` that lies directly in this directory, in order;
    /// stops at the first error.
    pub fn append_files(&mut self, paths: &Vec<String>) -> (r: Result<(), Error>)
        ensures
            final(self)@.directory == old(self)@.directory,
            final(self)@.subdirectories == old(self)@.subdirectories,
            final(self)@.package_files_full == old(self)@.package_files_full,
            r is Ok <==> children_ok(views(paths@), old(self)@.directory),
            r is Ok ==> final(self)@.file_names_with_ext == old(self)@.file_names_with_ext
                + child_names(views(paths@), old(self)@.directory),
            r is Ok ==> final(self)@.file_names == old(self)@.file_names
                + child_stems(views(paths@), old(self)@.directory),
    {
        let ghost dir = self@.directory;
        let mut i: usize = 0;
        while i < paths.len()
            invariant
                i <= paths@.len(),
                self@.directory == dir,
                dir == old(self)@.directory,
                self@.subdirectories == old(self)@.subdirectories,
                self@.package_files_full == old(self)@.package_files_full,
                children_ok(views(paths@).take(i as int), dir),
                self@.file_names_with_ext == old(self)@.file_names_with_ext + child_names(views(paths@).take(i as int), dir),
                self@.file_names == old(self)@.file_names + child_stems(views(paths@).take(i as int), dir),
            decreases paths.len() - i,
        {
            let ghost before_ext = self@.file_names_with_ext;
            let ghost before = self@.file_names;
            let ghost prefix = views(paths@).take(i as int);
            let ghost next = views(paths@).take(i + 1);
            assert(next.drop_last() =~= prefix);
            assert(next.last() == paths@[i as int]@);
            match self.push_file(paths[i].as_str()) {
                Ok(()) => {},
                Err(e) => {
                    assert(!children_ok(views(paths@), dir)) by {
                        let ps = seq![paths@[i as int]@];
                        assert(ps[0] == views(paths@)[i as int]);
                    }
                    return Err(e);
                },
            }
            proof {
                let ps = seq![paths@[i as int]@];
                assert(ps[0] == paths@[i as int]@);
                assert(ps.drop_last() =~= Seq::<Seq<char>>::empty());
                assert(children_ok(next, dir)) by {
                    assert forall|j: int| 0 <= j < next.len() && is_direct_child_spec(dir, #[trigger] next[j]) implies
                        (file_name(next[j]) matches Some(n) && stem(n) != seq!['.', '.']) by {
                        if j < i {
                            assert(next[j] == prefix[j]);
                        } else {
                            assert(next[j] == ps[0]);
                        }
                    }
                }
                assert(child_names(Seq::<Seq<char>>::empty(), dir) == Seq::<Seq<char>>::empty());
                assert(child_names(ps, dir) == (if is_direct_child_spec(dir, ps[0]) {
                    seq![file_name(ps[0]).unwrap()]
                } else {
                    Seq::<Seq<char>>::empty()
                }));
                assert(child_names(next, dir) == (if is_direct_child_spec(dir, ps[0]) {
                    child_names(prefix, dir).push(file_name(ps[0]).unwrap())
                } else {
                    child_names(prefix, dir)
                }));
                assert(child_names(next, dir) =~= child_names(prefix, dir) + child_names(ps, dir));
                assert(child_stems(next, dir) =~= child_stems(prefix, dir) + child_stems(ps, dir));
                assert(self@.file_names_with_ext =~= old(self)@.file_names_with_ext + child_names(next, dir));
                assert(self@.file_names =~= old(self)@.file_names + child_stems(next, dir));
            }
            i = i + 1;
        }
        assert(views(paths@).take(paths@.len() as int) =~= views(paths@));
        Ok(())
    }

    /// Records each directory of `paths` that is not empty and lies directly in this
    /// directory, in order; stops at the first error.
    pub fn append_subdirectories(&mut self, paths: &Vec<String>) -> (r: Result<(), Error>)
        ensures
            final(self)@.directory == old(self)@.directory,
            final(self)@.file_names == old(self)@.file_names,
            final(self)@.file_names_with_ext == old(self)@.file_names_with_ext,
            final(self)@.package_files_full == old(self)@.package_files_full,
            r is Ok <==> subdirectories_ok(views(paths@), old(self)@.directory),
            r is Ok ==> final(self)@.subdirectories == old(self)@.subdirectories
                + subdirectory_names(views(paths@), old(self)@.directory),
    {
        let ghost dir = self@.directory;
        let mut i: usize = 0;
        while i < paths.len()
            invariant
                i <= paths@.len(),
                self@.directory == dir,
                dir == old(self)@.directory,
                self@.file_names == old(self)@.file_names,
                self@.file_names_with_ext == old(self)@.file_names_with_ext,
                self@.package_files_full == old(self)@.package_files_full,
                subdirectories_ok(views(paths@).take(i as int), dir),
                self@.subdirectories == old(self)@.subdirectories + subdirectory_names(views(paths@).take(i as int), dir),
            decreases paths.len() - i,
        {
            let ghost prefix = views(paths@).take(i as int);
            let ghost next = views(paths@).take(i + 1);
            assert(next.drop_last() =~= prefix);
            assert(next.last() == paths@[i as int]@);
            match self.push_subdirectory(paths[i].as_str()) {
                Ok(()) => {},
                Err(e) => {
                    assert(!subdirectories_ok(views(paths@), dir)) by {
                        let ps = seq![paths@[i as int]@];
                        assert(ps[0] == views(paths@)[i as int]);
                    }
                    return Err(e);
                },
            }
            proof {
                let ps = seq![paths@[i as int]@];
                assert(ps[0] == paths@[i as int]@);
                assert(ps.drop_last() =~= Seq::<Seq<char>>::empty());
                assert(subdirectories_ok(next, dir)) by {
                    assert forall|j: int| 0 <= j < next.len() && is_subdirectory_spec(dir, #[trigger] next[j]) implies
                        file_name(next[j]) is Some by {
                        if j < i {
                            assert(next[j] == prefix[j]);
                        } else {
                            assert(next[j] == ps[0]);
                        }
                    }
                }
                assert(subdirectory_names(Seq::<Seq<char>>::empty(), dir) == Seq::<Seq<char>>::empty());
                assert(subdirectory_names(ps, dir) == (if is_subdirectory_spec(dir, ps[0]) {
                    seq![file_name(ps[0]).unwrap()]
                } else {
                    Seq::<Seq<char>>::empty()
                }));
                assert(subdirectory_names(next, dir) == (if is_subdirectory_spec(dir, ps[0]) {
                    subdirectory_names(prefix, dir).push(file_name(ps[0]).unwrap())
                } else {
                    subdirectory_names(prefix, dir)
                }));
                assert(subdirectory_names(next, dir) =~= subdirectory_names(prefix, dir) + subdirectory_names(ps, dir));
                assert(self@.subdirectories =~= old(self)@.subdirectories + subdirectory_names(next, dir));
            }
            i = i + 1;
        }
        assert(views(paths@).take(paths@.len() as int) =~= views(paths@));
        Ok(())
    }

    /// Records which file holds which package: the package file tree, and each package
    /// with its file (with `/` separators), in order.
    pub fn append_package_files(&mut self, package_files: Vec<(String, String)>)
        ensures
            final(self)@.directory == old(self)@.directory,
            final(self)@.file_names == old(self)@.file_names,
            final(self)@.file_names_with_ext == old(self)@.file_names_with_ext,
            final(self)@.subdirectories == old(self)@.subdirectories,
            final(self)@.package_files_full == pair_views(package_files@).map_values(
                |p: (Seq<char>, Seq<char>)| (p.0, replace_spec(p.1, seq!['\\'], seq!['/']))),
            forall|q: Seq<Seq<char>>| #[trigger] final(self).tree_file(q)
                == tree_file_at(pair_views(package_files@), q),
    {
        self.package_file_tree = create_package_file_tree(&package_files);
        let mut full: Vec<PackageFile> = Vec::new();
        let mut i: usize = 0;
        while i < package_files.len()
            invariant
                i <= package_files@.len(),
                full@.map_values(|p: PackageFile| p.pair()) == pair_views(package_files@).take(i as int).map_values(
                    |p: (Seq<char>, Seq<char>)| (p.0, replace_spec(p.1, seq!['\\'], seq!['/']))),
            decreases package_files.len() - i,
        {
            let ghost before = full@.map_values(|p: PackageFile| p.pair());
            let entry = PackageFile {
                package: package_files[i].0.clone(),
                file_name: normalize_slashes(package_files[i].1.as_str()),
            };
            let ghost ev = entry.pair();
            full.push(entry);
            assert(full@.map_values(|p: PackageFile| p.pair()) =~= before.push(ev));
            assert(pair_views(package_files@).take(i + 1) =~= pair_views(package_files@).take(i as int).push(pair_views(package_files@)[i as int]));
            assert(full@.map_values(|p: PackageFile| p.pair()) =~= pair_views(package_files@).take(i + 1).map_values(
                |p: (Seq<char>, Seq<char>)| (p.0, replace_spec(p.1, seq!['\\'], seq!['/']))));
            i = i + 1;
        }
        assert(pair_views(package_files@).take(package_files@.len() as int) =~= pair_views(package_files@));
        self.package_files_full = full;
    }
}


/// The file recorded for a package is found at the package's components, unless a
/// later entry records a file for the same components.
pub proof fn lemma_tree_finds_package_file(files: Seq<(Seq<char>, Seq<char>)>, i: int)
    requires
        0 <= i < files.len(),
        forall|j: int| i < j < files.len() ==> split_spec(#[trigger] files[j].0, '.') != split_spec(files[i].0, '.'),
    ensures
        tree_file_at(files, split_spec(files[i].0, '.')) == Some(Some(replace_spec(files[i].1, seq!['\\'], seq!['/']))),
    decreases files.len(),
{
    if i < files.len() - 1 {
        let prefix = files.drop_last();
        assert forall|j: int| i < j < prefix.len() implies split_spec(#[trigger] prefix[j].0, '.') != split_spec(prefix[i].0, '.') by {
            assert(prefix[j] == files[j]);
        }
        lemma_tree_finds_package_file(prefix, i);
        assert(prefix[i] == files[i]);
        assert(split_spec(files.last().0, '.') != split_spec(files[i].0, '.')) by {
            assert(files.last() == files[files.len() - 1]);
        }
    }
}

/// Each package above a recorded package has a node in the tree.
pub proof fn lemma_tree_has_parent_packages(files: Seq<(Seq<char>, Seq<char>)>, i: int, q: Seq<Seq<char>>)
    requires
        0 <= i < files.len(),
        is_proper_prefix(q, split_spec(files[i].0, '.')),
    ensures
        tree_file_at(files, q) is Some,
    decreases files.len(),
{
    if i < files.len() - 1 {
        let prefix = files.drop_last();
        assert(prefix[i] == files[i]);
        lemma_tree_has_parent_packages(prefix, i, q);
    }
}

/// Whether no two entries of `files` name the same package.
pub open spec fn packages_distinct(files: Seq<(Seq<char>, Seq<char>)>) -> bool {
    forall|i: int, j: int| 0 <= i < j < files.len() ==> split_spec(#[trigger] files[i].0, '.') != split_spec(#[trigger] files[j].0, '.')
}

/// Whether some entry of `files` is the package with components `q`.
pub open spec fn has_package(files: Seq<(Seq<char>, Seq<char>)>, q: Seq<Seq<char>>) -> bool {
    exists|i: int| 0 <= i < files.len() && split_spec(#[trigger] files[i].0, '.') == q
}

/// Whether some entry of `files` is a package below the components `q`.
pub open spec fn has_package_below(files: Seq<(Seq<char>, Seq<char>)>, q: Seq<Seq<char>>) -> bool {
    exists|i: int| 0 <= i < files.len() && is_proper_prefix(q, split_spec(#[trigger] files[i].0, '.'))
}

/// What the tree of `files` holds at `q` when no package is named twice: the file of
/// the package `q`, else a node without a file where a package lies below `q`, else
/// nothing.
pub open spec fn tree_file_of(files: Seq<(Seq<char>, Seq<char>)>, q: Seq<Seq<char>>) -> Option<Option<Seq<char>>> {
    if has_package(files, q) {
        let i = choose|i: int| 0 <= i < files.len() && split_spec(#[trigger] files[i].0, '.') == q;
        Some(Some(replace_spec(files[i].1, seq!['\\'], seq!['/'])))
    } else if has_package_below(files, q) {
        Some(None)
    } else {
        None
    }
}

proof fn lemma_tree_file_of(files: Seq<(Seq<char>, Seq<char>)>, q: Seq<Seq<char>>)
    requires
        packages_distinct(files),
    ensures
        tree_file_at(files, q) == tree_file_of(files, q),
    decreases files.len(),
{
    if files.len() > 0 {
        let prefix = files.drop_last();
        let n = files.len() - 1;
        assert forall|i: int, j: int| 0 <= i < j < prefix.len() implies split_spec(#[trigger] prefix[i].0, '.')
            != split_spec(#[trigger] prefix[j].0, '.') by {
            assert(prefix[i] == files[i] && prefix[j] == files[j]);
        }
        lemma_tree_file_of(prefix, q);
        let comps = split_spec(files.last().0, '.');
        assert(files.last() == files[n]);
        assert forall|i: int| 0 <= i < prefix.len() implies #[trigger] prefix[i] == files[i] by {}
        if has_package(files, q) {
            let i = choose|i: int| 0 <= i < files.len() && split_spec(#[trigger] files[i].0, '.') == q;
            if q == comps {
                assert(i == n) by {
                    if i != n {
                        assert(split_spec(files[i].0, '.') != split_spec(files[n].0, '.'));
                    }
                }
            } else {
                assert(i < n);
                assert(prefix[i] == files[i]);
                assert(has_package(prefix, q));
                let k = choose|k: int| 0 <= k < prefix.len() && split_spec(#[trigger] prefix[k].0, '.') == q;
                assert(k == i) by {
                    if k < i {
                        assert(split_spec(files[k].0, '.') != split_spec(files[i].0, '.'));
                    } else if k > i {
                        assert(split_spec(files[i].0, '.') != split_spec(files[k].0, '.'));
                    }
                }
            }
        } else {
            assert(q != comps) by {
                if q == comps {
                    assert(split_spec(files[n].0, '.') == q);
                }
            }
            assert(!has_package(prefix, q)) by {
                if has_package(prefix, q) {
                    let k = choose|k: int| 0 <= k < prefix.len() && split_spec(#[trigger] prefix[k].0, '.') == q;
                    assert(split_spec(files[k].0, '.') == q);
                }
            }
            if has_package_below(prefix, q) {
                let k = choose|k: int| 0 <= k < prefix.len() && is_proper_prefix(q, split_spec(#[trigger] prefix[k].0, '.'));
                assert(is_proper_prefix(q, split_spec(files[k].0, '.')));
                assert(has_package_below(files, q));
            } else if is_proper_prefix(q, comps) {
                assert(is_proper_prefix(q, split_spec(files[n].0, '.')));
                assert(has_package_below(files, q));
            } else {
                assert(!has_package_below(files, q)) by {
                    if has_package_below(files, q) {
                        let k = choose|k: int| 0 <= k < files.len() && is_proper_prefix(q, split_spec(#[trigger] files[k].0, '.'));
                        if k < n {
                            assert(is_proper_prefix(q, split_spec(prefix[k].0, '.')));
                        }
                    }
                }
            }
        }
    }
}

/// The package file tree does not depend on the order of its entries: two lists that hold
/// the same (package, file) entries, neither naming a package twice, give the same tree.
/// Looked up along the components of an entry's package, it gives that entry's file.
pub proof fn lemma_tree_order_independent(files: Seq<(Seq<char>, Seq<char>)>, other: Seq<(Seq<char>, Seq<char>)>)
    requires
        packages_distinct(files),
        packages_distinct(other),
        forall|e: (Seq<char>, Seq<char>)| files.contains(e) <==> other.contains(e),
    ensures
        forall|q: Seq<Seq<char>>| #[trigger] tree_file_at(files, q) == tree_file_at(other, q),
        forall|i: int| 0 <= i < files.len() ==> tree_file_at(files, split_spec(#[trigger] files[i].0, '.'))
            == Some(Some(replace_spec(files[i].1, seq!['\\'], seq!['/']))),
{
    assert forall|q: Seq<Seq<char>>| #[trigger] tree_file_at(files, q) == tree_file_at(other, q) by {
        lemma_tree_file_of(files, q);
        lemma_tree_file_of(other, q);
        lemma_same_entries_tree(files, other, q);
        lemma_same_entries_tree(other, files, q);
    }
    assert forall|i: int| 0 <= i < files.len() implies tree_file_at(files, split_spec(#[trigger] files[i].0, '.'))
        == Some(Some(replace_spec(files[i].1, seq!['\\'], seq!['/']))) by {
        let q = split_spec(files[i].0, '.');
        lemma_tree_file_of(files, q);
        assert(has_package(files, q));
        let k = choose|k: int| 0 <= k < files.len() && split_spec(#[trigger] files[k].0, '.') == q;
        assert(k == i) by {
            if k < i {
                assert(split_spec(files[k].0, '.') != split_spec(files[i].0, '.'));
            } else if k > i {
                assert(split_spec(files[i].0, '.') != split_spec(files[k].0, '.'));
            }
        }
    }
}

proof fn lemma_same_entries_tree(files: Seq<(Seq<char>, Seq<char>)>, other: Seq<(Seq<char>, Seq<char>)>, q: Seq<Seq<char>>)
    requires
        packages_distinct(files),
        packages_distinct(other),
        forall|e: (Seq<char>, Seq<char>)| files.contains(e) <==> other.contains(e),
    ensures
        has_package(files, q) ==> has_package(other, q) && tree_file_of(files, q) == tree_file_of(other, q),
        has_package_below(files, q) ==> has_package_below(other, q),
{
    if has_package(files, q) {
        let i = choose|i: int| 0 <= i < files.len() && split_spec(#[trigger] files[i].0, '.') == q;
        assert(files.contains(files[i]));
        assert(other.contains(files[i]));
        let j = choose|j: int| 0 <= j < other.len() && other[j] == files[i];
        assert(split_spec(other[j].0, '.') == q);
        assert(has_package(other, q));
        let k = choose|k: int| 0 <= k < other.len() && split_spec(#[trigger] other[k].0, '.') == q;
        assert(k == j) by {
            if k < j {
                assert(split_spec(other[k].0, '.') != split_spec(other[j].0, '.'));
            } else if k > j {
                assert(split_spec(other[j].0, '.') != split_spec(other[k].0, '.'));
            }
        }
    }
    if has_package_below(files, q) {
        let i = choose|i: int| 0 <= i < files.len() && is_proper_prefix(q, split_spec(#[trigger] files[i].0, '.'));
        assert(files.contains(files[i]));
        assert(other.contains(files[i]));
        let j = choose|j: int| 0 <= j < other.len() && other[j] == files[i];
        assert(is_proper_prefix(q, split_spec(other[j].0, '.')));
    }
}

} // verus!
