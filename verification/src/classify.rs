//! The language classifier: decides from the entries of the working
//! directory which language category a project belongs to.

use vstd::prelude::*;
use crate::language::{markers, spells, LanguageType};
use crate::name::str_equal;
use crate::scan::{
    holds_file_with_extension, lists_file_with_extension, scan_finds,
    search_current_directory_with_extension, search_files_with_extension,
};
use crate::tree::{lemma_directory_view, Entry, EntryView, Node, NodeView};

verus! {

/// The marker speaks for `entry`: the entry bears it as its name, or the
/// working directory lists a file that has it as its extension, or a scan
/// that starts at the entry finds such a file.
pub open spec fn marker_matches(cwd: NodeView, entry: EntryView, marker: Seq<char>) -> bool {
    ||| entry.name == marker
    ||| lists_file_with_extension(cwd, marker)
    ||| scan_finds(cwd, entry.node, marker)
}

/// One of the markers of `language` speaks for `entry`.
pub open spec fn language_matches(cwd: NodeView, entry: EntryView, language: LanguageType) -> bool {
    exists|k: int|
        0 <= k < markers(language).len() && marker_matches(
            cwd,
            entry,
            #[trigger] markers(language)[k],
        )
}

/// The category that `entry` is classified into: of those that match it, the
/// one of highest precedence.
pub open spec fn entry_language(cwd: NodeView, entry: EntryView) -> Option<LanguageType> {
    if language_matches(cwd, entry, LanguageType::Cpp) {
        Some(LanguageType::Cpp)
    } else if language_matches(cwd, entry, LanguageType::Rs) {
        Some(LanguageType::Rs)
    } else if language_matches(cwd, entry, LanguageType::Py) {
        Some(LanguageType::Py)
    } else if language_matches(cwd, entry, LanguageType::Rb) {
        Some(LanguageType::Rb)
    } else if language_matches(cwd, entry, LanguageType::Csharp) {
        Some(LanguageType::Csharp)
    } else {
        None
    }
}

/// The category of the first of `entries` that is classified at all.
pub open spec fn first_language(cwd: NodeView, entries: Seq<EntryView>) -> Option<LanguageType>
    decreases entries.len(),
{
    if entries.len() == 0 {
        None
    } else {
        match entry_language(cwd, entries[0]) {
            Some(language) => Some(language),
            None => first_language(cwd, entries.drop_first()),
        }
    }
}

/// The category of a project whose working directory is `cwd`: that of the
/// first entry, in listing order, that is classified. A working directory
/// that cannot be listed, or that lists nothing that any marker speaks for,
/// has none.
pub open spec fn detected_language(cwd: NodeView) -> Option<LanguageType> {
    match cwd {
        NodeView::Directory(entries) => first_language(cwd, entries),
        _ => None,
    }
}

/// Finds the entry that decides: the position of the first of `entries`
/// that is classified, or their number where none is.
pub proof fn lemma_first_language_position(cwd: NodeView, entries: Seq<EntryView>) -> (at: int)
    ensures
        0 <= at <= entries.len(),
        forall|j: int| 0 <= j < at ==> entry_language(cwd, #[trigger] entries[j]) is None,
        at < entries.len() ==> entry_language(cwd, entries[at]) is Some && first_language(
            cwd,
            entries,
        ) == entry_language(cwd, entries[at]),
        at == entries.len() ==> first_language(cwd, entries) is None,
    decreases entries.len(),
{
    if entries.len() == 0 || entry_language(cwd, entries[0]) is Some {
        0
    } else {
        let rest = entries.drop_first();
        let below = lemma_first_language_position(cwd, rest);
        assert forall|j: int| 0 <= j < below + 1 implies entry_language(
            cwd,
            #[trigger] entries[j],
        ) is None by {
            if j > 0 {
                assert(entries[j] == rest[j - 1]);
            }
        }
        if below < rest.len() {
            assert(rest[below] == entries[below + 1]);
        }
        below + 1
    }
}

/// Among the categories that match an entry, the one of highest precedence
/// is the one it is classified into; an entry that none matches is not
/// classified.
pub proof fn lemma_highest_precedence_wins(cwd: NodeView, entry: EntryView, language: LanguageType)
    ensures
        entry_language(cwd, entry) == Some(language) <==> language_matches(cwd, entry, language)
            && forall|other: LanguageType|
            other.rank() < language.rank() ==> !language_matches(cwd, entry, other),
        entry_language(cwd, entry) is None <==> forall|other: LanguageType|
            !language_matches(cwd, entry, other),
{
    if entry_language(cwd, entry) != Some(language) && language_matches(cwd, entry, language) {
        let other = entry_language(cwd, entry)->0;
        assert(other.rank() < language.rank() && language_matches(cwd, entry, other));
    }
    if entry_language(cwd, entry) is Some {
        assert(language_matches(cwd, entry, entry_language(cwd, entry)->0));
    }
}

/// The project is classified by the first entry, in listing order, that is
/// classified: no entry listed after it has a say. Where no entry is
/// classified, neither is the project.
pub proof fn lemma_first_classified_entry_decides(cwd: NodeView, language: Option<LanguageType>)
    requires
        cwd is Directory,
    ensures
        detected_language(cwd) == language <==> match language {
            Some(_) => exists|i: int|
                0 <= i < cwd->Directory_0.len() && entry_language(
                    cwd,
                    #[trigger] cwd->Directory_0[i],
                ) == language && forall|j: int|
                    0 <= j < i ==> entry_language(cwd, #[trigger] cwd->Directory_0[j]) is None,
            None => forall|i: int|
                0 <= i < cwd->Directory_0.len() ==> entry_language(
                    cwd,
                    #[trigger] cwd->Directory_0[i],
                ) is None,
        },
{
    let entries = cwd->Directory_0;
    let at = lemma_first_language_position(cwd, entries);
    if language is Some && exists|i: int|
        0 <= i < entries.len() && entry_language(cwd, #[trigger] entries[i]) == language
            && forall|j: int| 0 <= j < i ==> entry_language(cwd, #[trigger] entries[j]) is None {
        let i = choose|i: int|
            0 <= i < entries.len() && entry_language(cwd, #[trigger] entries[i]) == language
                && forall|j: int|
                0 <= j < i ==> entry_language(cwd, #[trigger] entries[j]) is None;
        assert(i == at) by {
            if i < at {
                assert(entry_language(cwd, entries[i]) is None);
            }
            if at < i {
                assert(entry_language(cwd, entries[at]) is None);
            }
        }
    }
}

/// A working directory that lists nothing, or that cannot be listed, is not
/// classified.
pub proof fn lemma_nothing_listed_nothing_detected(cwd: NodeView)
    requires
        cwd matches NodeView::Directory(entries) ==> entries.len() == 0,
    ensures
        detected_language(cwd) is None,
{
}

/// An entry that bears a marker of `language` as its name makes `language`
/// the answer, whatever names are listed after it.
///
/// The premise leaves out just the listings in which an entry before it, or
/// the entry itself, is classified into another category: there that
/// category is the answer. A file listed later can bring this about only
/// through its extension, which speaks for every entry alike.
pub proof fn lemma_named_entry_decides(cwd: NodeView, at: int, language: LanguageType)
    requires
        cwd is Directory,
        0 <= at < cwd->Directory_0.len(),
        markers(language).contains(cwd->Directory_0[at].name),
        forall|j: int|
            0 <= j <= at ==> entry_language(cwd, #[trigger] cwd->Directory_0[j]) is None
                || entry_language(cwd, cwd->Directory_0[j]) == Some(language),
    ensures
        detected_language(cwd) == Some(language),
{
    let entries = cwd->Directory_0;
    let k = choose|k: int|
        0 <= k < markers(language).len() && markers(language)[k] == entries[at].name;
    assert(marker_matches(cwd, entries[at], markers(language)[k]));
    assert(language_matches(cwd, entries[at], language));
    assert(entry_language(cwd, entries[at]) is Some);
    let first = lemma_first_language_position(cwd, entries);
    assert(first <= at) by {
        if at < first {
            assert(entry_language(cwd, entries[at]) is None);
        }
    }
}

/// In the classifier the scanner's look at the working directory adds
/// nothing: a marker speaks for an entry exactly when the entry bears it as
/// its name, or the working directory lists a file with that extension, or
/// such a file lies in the tree below the entry.
pub proof fn lemma_marker_matches_plainly(cwd: NodeView, entry: EntryView, marker: Seq<char>)
    ensures
        marker_matches(cwd, entry, marker) <==> entry.name == marker || lists_file_with_extension(
            cwd,
            marker,
        ) || holds_file_with_extension(entry.node, marker),
{
}

/// Tells whether one of the markers of `language` speaks for `entry`.
pub fn matches_language(cwd: &Node, entry: &Entry, language: LanguageType) -> (yes: bool)
    ensures
        yes == language_matches(cwd@, entry@, language),
{
    let list = language.marker_list();
    let mut k: usize = 0;
    while k < list.len()
        invariant
            k <= list@.len(),
            spells(list@, markers(language)),
            forall|j: int|
                0 <= j < k ==> !marker_matches(cwd@, entry@, #[trigger] markers(language)[j]),
        decreases list@.len() - k,
    {
        let marker = list[k];
        if str_equal(entry.name.as_str(), marker) || search_current_directory_with_extension(
            cwd,
            marker,
        ) || search_files_with_extension(cwd, &entry.node, marker) {
            assert(marker_matches(cwd@, entry@, markers(language)[k as int]));
            return true;
        }
        k = k + 1;
    }
    false
}

/// Classifies one entry of the working directory.
pub fn classify_entry(cwd: &Node, entry: &Entry) -> (language: Option<LanguageType>)
    ensures
        language == entry_language(cwd@, entry@),
{
    if matches_language(cwd, entry, LanguageType::Cpp) {
        Some(LanguageType::Cpp)
    } else if matches_language(cwd, entry, LanguageType::Rs) {
        Some(LanguageType::Rs)
    } else if matches_language(cwd, entry, LanguageType::Py) {
        Some(LanguageType::Py)
    } else if matches_language(cwd, entry, LanguageType::Rb) {
        Some(LanguageType::Rb)
    } else if matches_language(cwd, entry, LanguageType::Csharp) {
        Some(LanguageType::Csharp)
    } else {
        None
    }
}

/// Classifies the project whose working directory is `cwd`.
///
/// The entries are taken in listing order. For each, the categories are
/// tried from the highest precedence to the lowest, and the first category
/// with a marker that speaks for the entry is the answer.
pub fn get_language_type(cwd: &Node) -> (language: Option<LanguageType>)
    ensures
        language == detected_language(cwd@),
{
    match cwd {
        Node::Directory(entries) => {
            let mut i: usize = 0;
            while i < entries.len()
                invariant
                    i <= entries@.len(),
                    *cwd == Node::Directory(*entries),
                    forall|j: int|
                        0 <= j < i ==> entry_language(cwd@, (#[trigger] entries@[j])@) is None,
                decreases entries@.len() - i,
            {
                match classify_entry(cwd, &entries[i]) {
                    Some(language) => {
                        proof {
                            lemma_directory_view(*entries);
                            let views = cwd@->Directory_0;
                            let at = lemma_first_language_position(cwd@, views);
                            assert(at == i) by {
                                if at < i {
                                    assert(views[at] == entries@[at]@);
                                }
                                if i < at {
                                    assert(views[i as int] == entries@[i as int]@);
                                }
                            }
                        }
                        return Some(language);
                    },
                    None => {},
                }
                i = i + 1;
            }
            proof {
                lemma_directory_view(*entries);
                let views = cwd@->Directory_0;
                let at = lemma_first_language_position(cwd@, views);
                if at < views.len() {
                    assert(views[at] == entries@[at]@);
                }
            }
            None
        },
        _ => None,
    }
}

} // verus!
