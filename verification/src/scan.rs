//! The extension scanner: looks for files with a given extension, first in
//! the working directory and then in the whole tree below a starting point.

use vstd::prelude::*;
use crate::name::has_extension;
use crate::tree::{lemma_directory_view, EntryView, Node, NodeView};

verus! {

/// The entry is a file whose name has the extension `wanted`.
pub open spec fn is_file_with_extension(entry: EntryView, wanted: Seq<char>) -> bool {
    entry.node is File && crate::name::extension(entry.name) == Some(wanted)
}

/// `dir` is a listable directory, and one of the files that it lists itself
/// has the extension `wanted`.
pub open spec fn lists_file_with_extension(dir: NodeView, wanted: Seq<char>) -> bool {
    match dir {
        NodeView::Directory(entries) => exists|i: int|
            0 <= i < entries.len() && is_file_with_extension(#[trigger] entries[i], wanted),
        _ => false,
    }
}

/// A file with the extension `wanted` lies somewhere in the tree below
/// `node`, at any depth. Nothing lies below a file or below a directory that
/// cannot be listed.
pub open spec fn holds_file_with_extension(node: NodeView, wanted: Seq<char>) -> bool
    decreases node,
{
    match node {
        NodeView::Directory(entries) => exists|i: int|
            0 <= i < entries.len() && (is_file_with_extension(#[trigger] entries[i], wanted)
                || holds_file_with_extension(entries[i].node, wanted)),
        _ => false,
    }
}

/// The entry is a file with the extension `wanted`, or a directory with such
/// a file somewhere below it.
pub open spec fn leads_to_file_with_extension(entry: EntryView, wanted: Seq<char>) -> bool {
    is_file_with_extension(entry, wanted) || holds_file_with_extension(entry.node, wanted)
}

/// What a scan from `root` answers while `cwd` is the working directory.
///
/// A scan of a place that cannot be listed finds nothing. Otherwise it looks
/// at the files that the working directory lists, whatever `root` is, before
/// it descends from `root`: so it also succeeds on a file that lies in the
/// working directory and not below `root`.
pub open spec fn scan_finds(cwd: NodeView, root: NodeView, wanted: Seq<char>) -> bool {
    root is Directory && (lists_file_with_extension(cwd, wanted) || holds_file_with_extension(
        root,
        wanted,
    ))
}

/// A scan finds a file exactly when a file with that extension lies in the
/// tree below its starting point, and so finds nothing from an empty
/// directory or from a place that cannot be listed.
///
/// The premise leaves out just the cases in which the working directory
/// lists such a file while the tree below a listable starting point holds
/// none: there the scan succeeds on the file of the working directory.
pub proof fn lemma_scan_finds_what_lies_below(cwd: NodeView, root: NodeView, wanted: Seq<char>)
    requires
        lists_file_with_extension(cwd, wanted) && root is Directory ==> holds_file_with_extension(
            root,
            wanted,
        ),
    ensures
        scan_finds(cwd, root, wanted) == holds_file_with_extension(root, wanted),
        root == NodeView::Directory(Seq::empty()) ==> !scan_finds(cwd, root, wanted),
        !(root is Directory) ==> !scan_finds(cwd, root, wanted),
{
}

/// A scan that starts at the working directory itself finds a file exactly
/// when a file with that extension lies in the tree below it.
pub proof fn lemma_scan_of_working_directory(cwd: NodeView, wanted: Seq<char>)
    ensures
        scan_finds(cwd, cwd, wanted) == holds_file_with_extension(cwd, wanted),
{
    if lists_file_with_extension(cwd, wanted) {
        let entries = cwd->Directory_0;
        let i = choose|i: int|
            0 <= i < entries.len() && is_file_with_extension(#[trigger] entries[i], wanted);
        assert(is_file_with_extension(entries[i], wanted));
    }
}

/// Scanning is repeatable: two scans with the same arguments over the same
/// trees give the same answer.
pub proof fn lemma_scan_is_repeatable(
    cwd: NodeView,
    root: NodeView,
    wanted: Seq<char>,
    first: bool,
    second: bool,
)
    requires
        first == scan_finds(cwd, root, wanted),
        second == scan_finds(cwd, root, wanted),
    ensures
        first == second,
{
}

/// Tells whether the working directory itself lists a file with the given
/// extension. Directories among its entries are not looked into, and a
/// working directory that cannot be listed holds nothing.
pub fn search_current_directory_with_extension(cwd: &Node, extension: &str) -> (found: bool)
    ensures
        found == lists_file_with_extension(cwd@, extension@),
{
    match cwd {
        Node::Directory(entries) => {
            let mut i: usize = 0;
            while i < entries.len()
                invariant
                    i <= entries@.len(),
                    *cwd == Node::Directory(*entries),
                    forall|j: int|
                        0 <= j < i ==> !is_file_with_extension(
                            (#[trigger] entries@[j])@,
                            extension@,
                        ),
                decreases entries@.len() - i,
            {
                let entry = &entries[i];
                if !entry.node.is_directory() && has_extension(entry.name.as_str(), extension) {
                    proof {
                        lemma_directory_view(*entries);
                        assert(is_file_with_extension(cwd@->Directory_0[i as int], extension@));
                    }
                    return true;
                }
                i = i + 1;
            }
            false
        },
        _ => false,
    }
}

/// Scans the tree below `root` for a file with the given extension, after a
/// look at the files that the working directory `cwd` lists.
///
/// Entries are visited in listing order and directories are descended into
/// as they are met; the scan stops at the first file found. Every directory
/// descended into repeats the look at the working directory before it turns
/// to its own entries, which changes no answer.
pub fn search_files_with_extension(cwd: &Node, root: &Node, extension: &str) -> (found: bool)
    ensures
        found == scan_finds(cwd@, root@, extension@),
    decreases root,
{
    match root {
        Node::Directory(entries) => {
            if search_current_directory_with_extension(cwd, extension) {
                return true;
            }
            let mut i: usize = 0;
            while i < entries.len()
                invariant
                    i <= entries@.len(),
                    *root == Node::Directory(*entries),
                    !lists_file_with_extension(cwd@, extension@),
                    forall|j: int|
                        0 <= j < i ==> !leads_to_file_with_extension(
                            (#[trigger] entries@[j])@,
                            extension@,
                        ),
                decreases entries@.len() - i,
            {
                let entry = &entries[i];
                if entry.node.is_directory() {
                    if search_files_with_extension(cwd, &entry.node, extension) {
                        proof {
                            lemma_directory_view(*entries);
                            assert(holds_file_with_extension(
                                root@->Directory_0[i as int].node,
                                extension@,
                            ));
                        }
                        return true;
                    }
                } else if has_extension(entry.name.as_str(), extension) {
                    proof {
                        lemma_directory_view(*entries);
                        assert(is_file_with_extension(root@->Directory_0[i as int], extension@));
                    }
                    return true;
                }
                i = i + 1;
            }
            false
        },
        _ => false,
    }
}

} // verus!
