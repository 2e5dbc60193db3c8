use vstd::prelude::*;

use crate::error::AppError;
use crate::path::{
    entry_name, entry_name_spec, entry_parent, entry_parent_spec, trim_dir_mark, trim_dir_mark_spec,
};
use crate::stat::FileStatWithName;

verus! {

/// What the central directory of a zip archive tells of one entry.
#[derive(Debug)]
pub struct ZipEntryInfo {
    /// The entry's path inside the archive; a directory's ends in `/`.
    pub filename: String,
    pub is_dir: bool,
    /// The size once extracted.
    pub size: u64,
    /// The time of last change that the entry records.
    pub modified: u128,
}

/// The entries of an archive as a tree: `nodes` are the files and
/// directories, each pair `(parent, child)` of `links` puts the node `child`
/// under the node `parent`, in the order of the archive, and `root` is the
/// top of the tree. The directory with path `dir_paths[j]` is the node
/// `dir_nodes[j]`.
#[derive(Debug)]
pub struct ZipTree {
    pub nodes: Vec<FileStatWithName>,
    pub links: Vec<(usize, usize)>,
    pub root: usize,
    pub dir_paths: Vec<String>,
    pub dir_nodes: Vec<usize>,
}

/// The children that `links` give the node `p`, in order.
pub open spec fn children_spec(links: Seq<(usize, usize)>, p: usize) -> Seq<usize>
    decreases links.len(),
{
    if links.len() == 0 {
        Seq::empty()
    } else {
        let rest = children_spec(links.drop_last(), p);
        if links.last().0 == p {
            rest.push(links.last().1)
        } else {
            rest
        }
    }
}

/// One node of an archive's tree: the entry, and the nodes under it.
#[derive(Debug)]
pub struct FileStatTreeInner {
    pub file: FileStatWithName,
    pub children: Vec<usize>,
}

impl ZipTree {
    /// The nodes under node `p`, in the order of the archive.
    pub fn children_of(&self, p: usize) -> (r: Vec<usize>)
        ensures
            r@ == children_spec(self.links@, p),
    {
        let mut r: Vec<usize> = Vec::new();
        let mut i: usize = 0;
        while i < self.links.len()
            invariant
                i <= self.links@.len(),
                r@ == children_spec(self.links@.take(i as int), p),
            decreases self.links@.len() - i,
        {
            proof {
                assert(self.links@.take(i + 1).drop_last() =~= self.links@.take(i as int));
            }
            if self.links[i].0 == p {
                r.push(self.links[i].1);
            }
            i = i + 1;
        }
        proof {
            assert(self.links@.take(self.links@.len() as int) =~= self.links@);
        }
        r
    }

    /// Node `p` with the nodes under it.
    pub fn inner(&self, p: usize) -> (r: FileStatTreeInner)
        requires
            p < self.nodes@.len(),
        ensures
            r.children@ == children_spec(self.links@, p),
            r.file.name@ == self.nodes@[p as int].name@,
            r.file.is_dir == self.nodes@[p as int].is_dir,
            r.file.is_file == self.nodes@[p as int].is_file,
            r.file.file_type@ == self.nodes@[p as int].file_type@,
            r.file.size == self.nodes@[p as int].size,
            r.file.created == self.nodes@[p as int].created,
            r.file.modified == self.nodes@[p as int].modified,
            r.file.accessed == self.nodes@[p as int].accessed,
    {
        let n = &self.nodes[p];
        FileStatTreeInner {
            file: FileStatWithName {
                name: n.name.clone(),
                is_dir: n.is_dir,
                is_file: n.is_file,
                file_type: n.file_type.clone(),
                size: n.size,
                created: n.created,
                modified: n.modified,
                accessed: n.accessed,
            },
            children: self.children_of(p),
        }
    }

    /// Every index names a node, and only directories have children.
    pub open spec fn wf(&self) -> bool {
        &&& self.root < self.nodes@.len()
        &&& self.nodes@[self.root as int].is_dir
        &&& forall|l: int|
            0 <= l < self.links@.len() ==> {
                &&& (#[trigger] self.links@[l]).0 < self.nodes@.len()
                &&& self.links@[l].1 < self.nodes@.len()
                &&& self.nodes@[self.links@[l].0 as int].is_dir
            }
    }
}

fn find_key(keys: &Vec<String>, k: &String) -> (r: Option<usize>)
    ensures
        r matches Some(j) ==> j < keys@.len() && keys@[j as int]@ == k@,
        r is None ==> forall|j: int| 0 <= j < keys@.len() ==> keys@[j]@ != k@,
{
    let mut j: usize = 0;
    while j < keys.len()
        invariant
            j <= keys@.len(),
            forall|q: int| 0 <= q < j ==> keys@[q]@ != k@,
        decreases keys@.len() - j,
    {
        if keys[j] == *k {
            return Some(j);
        }
        j = j + 1;
    }
    None
}

/// The directory that an entry is put under: the parent of its path.
pub open spec fn entry_dir(e: ZipEntryInfo) -> Seq<char> {
    entry_parent_spec(trim_dir_mark_spec(e.filename@))
}

/// The directory of path `k` is node `n` of the tree.
pub open spec fn dir_node(t: ZipTree, k: Seq<char>, n: usize) -> bool {
    exists|j: int|
        0 <= j < t.dir_paths@.len() && (#[trigger] t.dir_paths@[j])@ == k && t.dir_nodes@[j] == n
}

/// Some directory of the tree has path `k`.
pub open spec fn is_dir_path(t: ZipTree, k: Seq<char>) -> bool {
    exists|j: int| 0 <= j < t.dir_paths@.len() && (#[trigger] t.dir_paths@[j])@ == k
}

/// Node `n` describes the entry `e`: its name, kind, size and time.
pub open spec fn entry_node(n: FileStatWithName, e: ZipEntryInfo) -> bool {
    &&& n.name@ == entry_name_spec(trim_dir_mark_spec(e.filename@))
    &&& n.is_dir == e.is_dir
    &&& n.is_file == !e.is_dir
    &&& n.size == e.size
    &&& n.modified == e.modified
}

/// The tree that `entries_to_tree` gives for `entries`: each entry is a
/// child of the one node of its directory, a directory entry is itself the
/// node of its path, and the top is the node of the shortest directory that
/// holds an entry.
pub open spec fn tree_of_entries(t: ZipTree, entries: Seq<ZipEntryInfo>) -> bool {
    &&& t.wf()
    &&& t.links@.len() == entries.len()
    &&& t.dir_paths@.len() == t.dir_nodes@.len()
    &&& forall|a: int, b: int|
        0 <= a < t.dir_paths@.len() && 0 <= b < t.dir_paths@.len() && a != b ==> (#[trigger] t.dir_paths@[a])@
            != (#[trigger] t.dir_paths@[b])@
    &&& forall|i: int|
        0 <= i < entries.len() ==> dir_node(t, entry_dir(#[trigger] entries[i]), t.links@[i].0)
    &&& forall|i: int|
        0 <= i < entries.len() && (#[trigger] entries[i]).is_dir ==> dir_node(
            t,
            trim_dir_mark_spec(entries[i].filename@),
            t.links@[i].1,
        )
    &&& forall|i: int|
        0 <= i < entries.len() && !is_dir_path(t, trim_dir_mark_spec((#[trigger] entries[i]).filename@))
            ==> entry_node(t.nodes@[t.links@[i].1 as int], entries[i])
    &&& exists|m: int|
        0 <= m < entries.len() && dir_node(t, entry_dir(#[trigger] entries[m]), t.root) && forall|i: int|
            0 <= i < entries.len() ==> entry_dir(entries[m]).len() <= (#[trigger] entry_dir(
                entries[i],
            )).len()
}

/// Builds the tree of the entries of a zip archive, without reading their
/// contents. Each entry is put under the directory its path names; a
/// directory that the archive does not list is made up from the first entry
/// found in it, and the top of the tree is the shortest such directory,
/// counted in characters, the first found among equals. An archive without
/// entries has no tree.
pub fn entries_to_tree(entries: &Vec<ZipEntryInfo>) -> (r: Result<ZipTree, AppError>)
    ensures
        r is Err <==> entries@.len() == 0,
        r matches Err(e) ==> e == AppError::Zip,
        r matches Ok(t) ==> tree_of_entries(t, entries@),
{
    let mut nodes: Vec<FileStatWithName> = Vec::new();
    let mut links: Vec<(usize, usize)> = Vec::new();
    let mut keys: Vec<String> = Vec::new();
    let mut key_nodes: Vec<usize> = Vec::new();
    let mut root: Option<String> = None;
    let ghost mut root_key: int = 0;
    let ghost mut root_entry: int = 0;
    let mut i: usize = 0;
    while i < entries.len()
        invariant
            i <= entries@.len(),
            links@.len() == i,
            keys@.len() == key_nodes@.len(),
            forall|j: int|
                0 <= j < key_nodes@.len() ==> (#[trigger] key_nodes@[j]) < nodes@.len()
                    && nodes@[key_nodes@[j] as int].is_dir,
            forall|l: int|
                0 <= l < links@.len() ==> {
                    &&& (#[trigger] links@[l]).0 < nodes@.len()
                    &&& links@[l].1 < nodes@.len()
                    &&& nodes@[links@[l].0 as int].is_dir
                },
            forall|a: int, b: int|
                0 <= a < keys@.len() && 0 <= b < keys@.len() && a != b ==> (#[trigger] keys@[a])@
                    != (#[trigger] keys@[b])@,
            forall|l: int|
                0 <= l < i ==> exists|j: int|
                    0 <= j < keys@.len() && (#[trigger] keys@[j])@ == entry_dir(
                        #[trigger] entries@[l],
                    ) && key_nodes@[j] == links@[l].0,
            forall|l: int|
                0 <= l < i && (#[trigger] entries@[l]).is_dir ==> exists|j: int|
                    0 <= j < keys@.len() && (#[trigger] keys@[j])@ == trim_dir_mark_spec(
                        entries@[l].filename@,
                    ) && key_nodes@[j] == links@[l].1,
            forall|l: int|
                0 <= l < i && (forall|j: int| 0 <= j < keys@.len() ==> (#[trigger] keys@[j])@
                    != trim_dir_mark_spec((#[trigger] entries@[l]).filename@)) ==> entry_node(
                    nodes@[links@[l].1 as int],
                    entries@[l],
                ),
            root is None <==> i == 0,
            root matches Some(k) ==> {
                &&& 0 <= root_key < keys@.len()
                &&& keys@[root_key]@ == k@
                &&& 0 <= root_entry < i
                &&& k@ == entry_dir(entries@[root_entry])
                &&& forall|l: int|
                    0 <= l < i ==> k@.len() <= (#[trigger] entry_dir(entries@[l])).len()
            },
        decreases entries@.len() - i,
    {
        let e = &entries[i];
        let abs = trim_dir_mark(e.filename.as_str());
        let name = entry_name(abs.as_str());
        let parent = entry_parent(abs.as_str());
        let ghost old_keys = keys@;
        let ghost old_key_nodes = key_nodes@;
        let ghost old_nodes = nodes@;
        let ghost old_links = links@;
        let ghost mut child_key: int = 0;
        let child = match find_key(&keys, &abs) {
            Some(j) => {
                proof {
                    child_key = j as int;
                }
                key_nodes[j]
            },
            None => {
                let idx = nodes.len();
                nodes.push(
                    FileStatWithName {
                        name,
                        is_dir: e.is_dir,
                        is_file: !e.is_dir,
                        file_type: String::new(),
                        size: e.size,
                        created: e.modified,
                        modified: e.modified,
                        accessed: e.modified,
                    },
                );
                if e.is_dir {
                    keys.push(abs.clone());
                    key_nodes.push(idx);
                    proof {
                        child_key = keys@.len() - 1;
                    }
                }
                idx
            },
        };
        let ghost mid_keys = keys@;
        let ghost mut parent_key: int = 0;
        let pnode = match find_key(&keys, &parent) {
            Some(j) => {
                proof {
                    parent_key = j as int;
                }
                key_nodes[j]
            },
            None => {
                let idx = nodes.len();
                nodes.push(
                    FileStatWithName {
                        name: parent.clone(),
                        is_dir: true,
                        is_file: false,
                        file_type: String::new(),
                        size: e.size,
                        created: e.modified,
                        modified: e.modified,
                        accessed: e.modified,
                    },
                );
                keys.push(parent.clone());
                key_nodes.push(idx);
                proof {
                    parent_key = keys@.len() - 1;
                }
                idx
            },
        };
        let shorter = match &root {
            None => true,
            Some(r) => r.as_str().unicode_len() > parent.as_str().unicode_len(),
        };
        if shorter {
            proof {
                root_key = parent_key;
                root_entry = i as int;
            }
            root = Some(parent);
        }
        links.push((pnode, child));
        proof {
            assert(keys@.subrange(0, old_keys.len() as int) =~= old_keys);
            assert forall|l: int|
                0 <= l < i + 1 && (forall|j: int| 0 <= j < keys@.len() ==> (#[trigger] keys@[j])@
                    != trim_dir_mark_spec((#[trigger] entries@[l]).filename@)) implies entry_node(
                nodes@[links@[l].1 as int],
                entries@[l],
            ) by {
                if l < i {
                    assert forall|j: int| 0 <= j < old_keys.len() implies (#[trigger] old_keys[j])@
                        != trim_dir_mark_spec(entries@[l].filename@) by {
                        assert(keys@[j] == old_keys[j]);
                    }
                    assert(links@[l] == old_links[l]);
                    assert(nodes@[links@[l].1 as int] == old_nodes[links@[l].1 as int]);
                } else {
                    if exists|j: int| 0 <= j < old_keys.len() && (#[trigger] old_keys[j])@ == abs@ {
                        let j = choose|j: int| 0 <= j < old_keys.len() && (#[trigger] old_keys[j])@ == abs@;
                        assert(keys@[j] == old_keys[j]);
                    }
                }
            }
            assert forall|l: int| 0 <= l < i + 1 implies exists|j: int|
                0 <= j < keys@.len() && (#[trigger] keys@[j])@ == entry_dir(#[trigger] entries@[l])
                    && key_nodes@[j] == links@[l].0 by {
                if l < i {
                    let j = choose|j: int|
                        0 <= j < old_keys.len() && (#[trigger] old_keys[j])@ == entry_dir(entries@[l])
                            && old_key_nodes[j] == links@[l].0;
                    assert(keys@[j] == old_keys[j]);
                } else {
                    assert(keys@[parent_key]@ == entry_dir(entries@[l]));
                }
            }
            assert forall|l: int| 0 <= l < i + 1 && (#[trigger] entries@[l]).is_dir implies exists|j: int|
                0 <= j < keys@.len() && (#[trigger] keys@[j])@ == trim_dir_mark_spec(
                    entries@[l].filename@,
                ) && key_nodes@[j] == links@[l].1 by {
                if l < i {
                    let j = choose|j: int|
                        0 <= j < old_keys.len() && (#[trigger] old_keys[j])@ == trim_dir_mark_spec(
                            entries@[l].filename@,
                        ) && old_key_nodes[j] == links@[l].1;
                    assert(keys@[j] == old_keys[j]);
                } else {
                    assert(keys@[child_key]@ == trim_dir_mark_spec(entries@[l].filename@));
                }
            }
        }
        i = i + 1;
    }
    match root {
        None => Err(AppError::Zip),
        Some(k) => match find_key(&keys, &k) {
            Some(j) => {
                let t = ZipTree { nodes, links, root: key_nodes[j], dir_paths: keys, dir_nodes: key_nodes };
                proof {
                    assert(t.dir_paths@[j as int]@ == entry_dir(entries@[root_entry]));
                    assert(t.dir_nodes@[j as int] == t.root);
                    assert(dir_node(t, entry_dir(entries@[root_entry]), t.root));
                    assert forall|l: int| 0 <= l < entries@.len() implies dir_node(
                        t,
                        entry_dir(#[trigger] entries@[l]),
                        t.links@[l].0,
                    ) by {
                        let j = choose|j: int|
                            0 <= j < t.dir_paths@.len() && (#[trigger] t.dir_paths@[j])@ == entry_dir(
                                entries@[l],
                            ) && t.dir_nodes@[j] == t.links@[l].0;
                    }
                    assert forall|l: int|
                        0 <= l < entries@.len() && !is_dir_path(
                            t,
                            trim_dir_mark_spec((#[trigger] entries@[l]).filename@),
                        ) implies entry_node(t.nodes@[t.links@[l].1 as int], entries@[l]) by {
                        assert forall|q: int| 0 <= q < t.dir_paths@.len() implies (#[trigger] t.dir_paths@[q])@
                            != trim_dir_mark_spec(entries@[l].filename@) by {
                            if t.dir_paths@[q]@ == trim_dir_mark_spec(entries@[l].filename@) {
                                assert(is_dir_path(t, trim_dir_mark_spec(entries@[l].filename@)));
                            }
                        }
                    }
                    assert forall|l: int|
                        0 <= l < entries@.len() && (#[trigger] entries@[l]).is_dir implies dir_node(
                        t,
                        trim_dir_mark_spec(entries@[l].filename@),
                        t.links@[l].1,
                    ) by {
                        let j = choose|j: int|
                            0 <= j < t.dir_paths@.len() && (#[trigger] t.dir_paths@[j])@
                                == trim_dir_mark_spec(entries@[l].filename@) && t.dir_nodes@[j]
                                == t.links@[l].1;
                    }
                }
                Ok(t)
            },
            None => Err(AppError::Zip),
        },
    }
}

} // verus!
