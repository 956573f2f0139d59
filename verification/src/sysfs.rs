//! A snapshot of the sysfs attribute tree.
//!
//! Device and map discovery only ever ask three things of the file system:
//! whether a path exists, what text a file holds, and what a directory lists.
//! A [`Sysfs`] value records the answers for a set of paths, so that discovery
//! is a function of the snapshot alone.

use crate::error::Error;
use vstd::prelude::*;
use vstd::string::*;

verus! {

/// One entry of a directory listing.
#[derive(Debug, PartialEq, Eq)]
pub struct DirEntry {
    /// The entry's file name, or `None` where it is not valid UTF-8.
    pub name: Option<String>,
    /// Whether the entry is a directory.
    pub is_dir: bool,
}

/// The mathematical value of a [`DirEntry`].
pub struct EntryView {
    pub name: Option<Seq<char>>,
    pub is_dir: bool,
}

impl View for DirEntry {
    type V = EntryView;

    open spec fn view(&self) -> EntryView {
        EntryView {
            name: match self.name {
                Some(name) => Some(name@),
                None => None,
            },
            is_dir: self.is_dir,
        }
    }
}

/// What the snapshot holds at one path.
#[derive(Debug, PartialEq, Eq)]
pub enum Node {
    /// A file and its text.
    File(String),
    /// A directory and its listing.
    Directory(Vec<DirEntry>),
    /// An entry that exists but cannot be read or listed, with the platform's
    /// reason.
    Unreadable(std::io::ErrorKind),
}

/// The mathematical value of a [`Node`].
pub enum NodeView {
    File(Seq<char>),
    Directory(Seq<EntryView>),
    Unreadable(std::io::ErrorKind),
}

/// The mathematical value of a listing.
pub open spec fn entries_view(entries: Seq<DirEntry>) -> Seq<EntryView> {
    Seq::new(entries.len(), |i: int| entries[i]@)
}

impl View for Node {
    type V = NodeView;

    open spec fn view(&self) -> NodeView {
        match self {
            Node::File(text) => NodeView::File(text@),
            Node::Directory(entries) => NodeView::Directory(entries_view(entries@)),
            Node::Unreadable(kind) => NodeView::Unreadable(*kind),
        }
    }
}

/// The mathematical value of a snapshot: the node at each recorded path.
pub type Tree = Map<Seq<char>, NodeView>;

/// Whether anything exists at `path`.
pub open spec fn path_exists(tree: Tree, path: Seq<char>) -> bool {
    tree.dom().contains(path)
}

/// What reading the file at `path` to its end gives.
pub open spec fn read_file(tree: Tree, path: Seq<char>) -> Result<Seq<char>, Error> {
    if !tree.dom().contains(path) {
        Err(Error::Io(std::io::ErrorKind::NotFound))
    } else {
        match tree[path] {
            NodeView::File(text) => Ok(text),
            NodeView::Directory(_) => Err(Error::Io(std::io::ErrorKind::IsADirectory)),
            NodeView::Unreadable(kind) => Err(Error::Io(kind)),
        }
    }
}

/// What listing the directory at `path` gives.
pub open spec fn list_dir(tree: Tree, path: Seq<char>) -> Result<Seq<EntryView>, Error> {
    if !tree.dom().contains(path) {
        Err(Error::Io(std::io::ErrorKind::NotFound))
    } else {
        match tree[path] {
            NodeView::File(_) => Err(Error::Io(std::io::ErrorKind::NotADirectory)),
            NodeView::Directory(entries) => Ok(entries),
            NodeView::Unreadable(kind) => Err(Error::Io(kind)),
        }
    }
}

/// A snapshot of the sysfs tree: a finite map from paths to nodes.
pub struct Sysfs {
    records: Vec<Record>,
}

/// A path and the node recorded at it.
struct Record {
    path: String,
    node: Node,
}

/// No path is recorded twice.
spec fn distinct_paths(records: Seq<Record>) -> bool {
    forall|i: int, j: int| 0 <= i < j < records.len() ==> records[i].path@ != records[j].path@
}

/// Some record of `records` is for `path`.
spec fn recorded(records: Seq<Record>, path: Seq<char>) -> bool {
    exists|i: int| 0 <= i < records.len() && #[trigger] records[i].path@ == path
}

/// The index of the record for `path`.
spec fn position(records: Seq<Record>, path: Seq<char>) -> int {
    choose|i: int| 0 <= i < records.len() && #[trigger] records[i].path@ == path
}

/// The map that `records` stand for.
spec fn tree_of(records: Seq<Record>) -> Tree {
    Map::new(
        |path: Seq<char>| recorded(records, path),
        |path: Seq<char>| records[position(records, path)].node@,
    )
}

impl View for Sysfs {
    type V = Tree;

    closed spec fn view(&self) -> Tree {
        tree_of(self.records@)
    }
}

/// Where `path` is recorded, if it is.
fn find(records: &Vec<Record>, path: &str) -> (found: Option<usize>)
    requires
        distinct_paths(records@),
    ensures
        match found {
            Some(i) => i < records@.len() && records@[i as int].path@ == path@ && recorded(
                records@,
                path@,
            ) && position(records@, path@) == i,
            None => !recorded(records@, path@),
        },
{
    let key = String::from_str(path);
    let mut i: usize = 0;
    while i < records.len()
        invariant
            i <= records@.len(),
            key@ == path@,
            distinct_paths(records@),
            forall|j: int| 0 <= j < i ==> records@[j].path@ != path@,
        decreases records@.len() - i,
    {
        if records[i].path == key {
            return Some(i);
        }
        i += 1;
    }
    None
}

/// Puts `node` at `path` in `records`, in place of the node recorded there.
fn put(records: &mut Vec<Record>, path: &str, node: Node)
    requires
        distinct_paths(old(records)@),
    ensures
        distinct_paths(final(records)@),
        tree_of(final(records)@) == tree_of(old(records)@).insert(path@, node@),
{
    let ghost before = records@;
    let record = Record { path: String::from_str(path), node };
    match find(records, path) {
        Some(i) => {
            records.set(i, record);
            proof {
                let after = records@;
                assert forall|p: Seq<char>| recorded(after, p) implies recorded(before, p)
                    && position(after, p) == position(before, p) by {
                    let k = position(after, p);
                    assert(before[k].path@ == p);
                }
                assert forall|p: Seq<char>| recorded(before, p) implies recorded(after, p) by {
                    let k = position(before, p);
                    assert(after[k].path@ == p);
                }
                assert(tree_of(after) =~= tree_of(before).insert(path@, node@));
            }
        },
        None => {
            records.push(record);
            proof {
                let after = records@;
                let n = before.len() as int;
                assert(after[n].path@ == path@);
                assert forall|p: Seq<char>| recorded(before, p) implies recorded(after, p)
                    && position(after, p) == position(before, p) by {
                    let k = position(before, p);
                    assert(after[k].path@ == p);
                }
                assert(recorded(after, path@) && position(after, path@) == n);
                assert forall|p: Seq<char>| recorded(after, p) && p != path@ implies recorded(
                    before,
                    p,
                ) by {
                    let k = position(after, p);
                    assert(before[k].path@ == p);
                }
                assert(tree_of(after) =~= tree_of(before).insert(path@, node@));
            }
        },
    }
}

impl Sysfs {
    #[verifier::type_invariant]
    spec fn well_formed(&self) -> bool {
        distinct_paths(self.records@)
    }

    /// An empty snapshot: no path exists.
    pub fn new() -> (fs: Sysfs)
        ensures
            fs@ == Map::<Seq<char>, NodeView>::empty(),
    {
        let fs = Sysfs { records: Vec::new() };
        assert(fs@ =~= Map::<Seq<char>, NodeView>::empty());
        fs
    }

    /// Records `node` at `path`, in place of what was recorded there.
    pub fn insert(&mut self, path: &str, node: Node)
        ensures
            final(self)@ == old(self)@.insert(path@, node@),
    {
        proof {
            use_type_invariant(&*self);
        }
        let mut records: Vec<Record> = Vec::new();
        core::mem::swap(&mut self.records, &mut records);
        put(&mut records, path, node);
        core::mem::swap(&mut self.records, &mut records);
    }

    /// Whether anything exists at `path`.
    pub fn contains(&self, path: &str) -> (found: bool)
        ensures
            found == path_exists(self@, path@),
    {
        proof {
            use_type_invariant(self);
        }
        find(&self.records, path).is_some()
    }

    /// The text of the file at `path`.
    pub fn read_to_string(&self, path: &str) -> (text: Result<&String, Error>)
        ensures
            match text {
                Ok(t) => read_file(self@, path@) == Ok::<Seq<char>, Error>(t@),
                Err(e) => read_file(self@, path@) == Err::<Seq<char>, Error>(e),
            },
    {
        proof {
            use_type_invariant(self);
        }
        match find(&self.records, path) {
            None => Err(Error::Io(std::io::ErrorKind::NotFound)),
            Some(i) => match &self.records[i].node {
                Node::File(text) => Ok(text),
                Node::Directory(_) => Err(Error::Io(std::io::ErrorKind::IsADirectory)),
                Node::Unreadable(kind) => Err(Error::Io(*kind)),
            },
        }
    }

    /// The listing of the directory at `path`.
    pub fn read_dir(&self, path: &str) -> (listing: Result<&Vec<DirEntry>, Error>)
        ensures
            match listing {
                Ok(entries) => list_dir(self@, path@) == Ok::<Seq<EntryView>, Error>(
                    entries_view(entries@),
                ),
                Err(e) => list_dir(self@, path@) == Err::<Seq<EntryView>, Error>(e),
            },
    {
        proof {
            use_type_invariant(self);
        }
        match find(&self.records, path) {
            None => Err(Error::Io(std::io::ErrorKind::NotFound)),
            Some(i) => match &self.records[i].node {
                Node::File(_) => Err(Error::Io(std::io::ErrorKind::NotADirectory)),
                Node::Directory(entries) => Ok(entries),
                Node::Unreadable(kind) => Err(Error::Io(*kind)),
            },
        }
    }
}

} // verus!
