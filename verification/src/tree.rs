//! Directory trees as plain values.
//!
//! A tree records what a walk over part of a file system saw: which entries
//! each directory lists, under which names and in which order, and which of
//! them are directories themselves.

use vstd::prelude::*;

verus! {

/// What lies at a place in the file system.
#[derive(Debug)]
pub enum Node {
    /// Anything that is not a directory.
    File,
    /// A directory that cannot be listed: access to it is denied, or nothing
    /// is found where it should be.
    Unreadable,
    /// A directory, with its entries in the order in which it lists them.
    Directory(Vec<Entry>),
}

/// One entry of a directory listing.
#[derive(Debug)]
pub struct Entry {
    pub name: String,
    pub node: Node,
}

/// Mathematical model of a [`Node`].
pub enum NodeView {
    File,
    Unreadable,
    Directory(Seq<EntryView>),
}

/// Mathematical model of an [`Entry`].
pub struct EntryView {
    pub name: Seq<char>,
    pub node: NodeView,
}

/// The model of `node`: the same tree, with every name as its characters.
pub open spec fn node_view(node: Node) -> NodeView
    decreases node,
{
    match node {
        Node::File => NodeView::File,
        Node::Unreadable => NodeView::Unreadable,
        Node::Directory(entries) => NodeView::Directory(
            Seq::new(
                entries@.len(),
                |i: int|
                    if 0 <= i < entries@.len() {
                        entry_view(entries@[i])
                    } else {
                        arbitrary()
                    },
            ),
        ),
    }
}

/// The model of `entry`.
pub open spec fn entry_view(entry: Entry) -> EntryView
    decreases entry,
{
    EntryView { name: entry.name@, node: node_view(entry.node) }
}

impl View for Node {
    type V = NodeView;

    open spec fn view(&self) -> NodeView {
        node_view(*self)
    }
}

impl View for Entry {
    type V = EntryView;

    open spec fn view(&self) -> EntryView {
        entry_view(*self)
    }
}

/// The model of a directory lists the models of its entries, in their order.
pub proof fn lemma_directory_view(entries: Vec<Entry>)
    ensures
        Node::Directory(entries)@ matches NodeView::Directory(views) && views.len()
            == entries@.len() && forall|i: int|
            0 <= i < views.len() ==> #[trigger] views[i] == entries@[i]@,
{
}

impl Node {
    /// A directory that lists `entries`, in that order.
    pub fn directory(entries: Vec<Entry>) -> (node: Node)
        ensures
            node == Node::Directory(entries),
    {
        Node::Directory(entries)
    }

    /// Tells whether the node is a directory, listable or not.
    pub fn is_directory(&self) -> (yes: bool)
        ensures
            yes == !(self@ is File),
    {
        match self {
            Node::File => false,
            _ => true,
        }
    }
}

impl Entry {
    /// An entry for a file called `name`.
    pub fn file(name: &str) -> (entry: Entry)
        ensures
            entry@ == (EntryView { name: name@, node: NodeView::File }),
    {
        Entry { name: name.to_owned(), node: Node::File }
    }

    /// An entry for a directory called `name` that lists `entries`.
    pub fn directory(name: &str, entries: Vec<Entry>) -> (entry: Entry)
        ensures
            entry.name@ == name@,
            entry.node == Node::Directory(entries),
    {
        Entry { name: name.to_owned(), node: Node::Directory(entries) }
    }

    /// An entry for a directory called `name` that cannot be listed.
    pub fn unreadable(name: &str) -> (entry: Entry)
        ensures
            entry@ == (EntryView { name: name@, node: NodeView::Unreadable }),
    {
        Entry { name: name.to_owned(), node: Node::Unreadable }
    }
}

} // verus!
