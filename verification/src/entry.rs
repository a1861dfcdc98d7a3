//! What a walk yields: entries, and, for a tree held in memory, entries with
//! their content.

use crate::path::{base_name, base_name_of};
use vstd::prelude::*;
use vstd::string::StringExecFns;

verus! {

/// What kind of node an entry is.
#[derive(Clone, Copy, Debug, PartialEq, Eq, Structural)]
pub enum EntryKind {
    /// A regular file.
    File,
    /// A directory.
    Directory,
    /// A node that could not be read, or that is neither file nor directory.
    Unreadable,
}

/// One node met during a walk: its full path, as shown to the user, its
/// base name as the walk knows it, and its kind. A node whose name is no
/// text has no base name here.
#[derive(Clone, Debug)]
pub struct Entry {
    pub path: String,
    pub name: Option<String>,
    pub kind: EntryKind,
}

/// An entry as a value of the model.
pub struct EntryView {
    pub path: Seq<char>,
    pub name: Option<Seq<char>>,
    pub kind: EntryKind,
}

impl View for Entry {
    type V = EntryView;

    open spec fn view(&self) -> EntryView {
        EntryView {
            path: self.path@,
            name: match self.name {
                Some(name) => Some(name@),
                None => None,
            },
            kind: self.kind,
        }
    }
}

impl Entry {
    /// The entry at a path written with `/`: its base name is what follows
    /// the last `/` of the path.
    pub fn from_path(path: &str, kind: EntryKind) -> (entry: Entry)
        ensures
            entry@ == (EntryView { path: path@, name: Some(base_name(path@)), kind }),
    {
        Entry {
            path: String::from_str(path),
            name: Some(String::from_str(base_name_of(path))),
            kind,
        }
    }
}

/// An entry of a tree held in memory. `content` is what reading the node
/// yields: the bytes of a file, or nothing where it cannot be opened.
#[derive(Clone, Debug)]
pub struct Node {
    pub entry: Entry,
    pub content: Option<Vec<u8>>,
}

/// A node as a value of the model.
pub struct NodeView {
    pub entry: EntryView,
    pub content: Option<Seq<u8>>,
}

impl View for Node {
    type V = NodeView;

    open spec fn view(&self) -> NodeView {
        NodeView {
            entry: self.entry@,
            content: match self.content {
                Some(bytes) => Some(bytes@),
                None => None,
            },
        }
    }
}

/// The nodes of a listing as values of the model, in the order of the walk.
pub open spec fn listing(nodes: Seq<Node>) -> Seq<NodeView> {
    nodes.map_values(|node: Node| node@)
}

} // verus!
