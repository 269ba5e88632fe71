//! One child of a directory as the browser knows it.

use crate::path::{
    file_name, file_name_of, is_hidden, is_hidden_path, lemma_parent_component_has_no_name,
    text_view,
};
use vstd::prelude::*;
use vstd::string::{StrSliceExecFns, StringExecFns};

verus! {

/// A child of a directory: its path and whether it is itself a directory.
/// Its name is the name of its path.
#[derive(Clone, Debug, PartialEq, Eq)]
pub struct DirectoryEntry {
    pub path: String,
    pub is_directory: bool,
}

/// The mathematical value of a `DirectoryEntry`.
pub struct EntryView {
    pub path: Seq<char>,
    pub is_directory: bool,
}

impl EntryView {
    /// The name under which the entry is shown and found, where its path
    /// has one.
    pub open spec fn name(self) -> Option<Seq<char>> {
        file_name(self.path)
    }

    /// Whether the hidden-file policy may leave the entry out: it has a name
    /// that starts with a dot.
    pub open spec fn hidden(self) -> bool {
        match self.name() {
            Some(name) => is_hidden(name),
            None => false,
        }
    }
}

impl View for DirectoryEntry {
    type V = EntryView;

    open spec fn view(&self) -> EntryView {
        EntryView { path: self.path@, is_directory: self.is_directory }
    }
}

/// The row that stands for an empty directory. It is no directory, so
/// nothing can be entered through it, and its path has no name, so it is
/// neither hidden nor found by name.
pub open spec fn placeholder() -> EntryView {
    EntryView { path: seq!['.', '.'], is_directory: false }
}

/// The placeholder has no name and is not hidden.
pub proof fn lemma_placeholder_has_no_name()
    ensures
        placeholder().name() is None,
        !placeholder().hidden(),
{
    lemma_parent_component_has_no_name();
}

/// The values of a vector of entries, in order.
pub open spec fn entry_views(entries: Seq<DirectoryEntry>) -> Seq<EntryView> {
    entries.map_values(|e: DirectoryEntry| e@)
}

impl DirectoryEntry {
    pub fn new(path: String, is_directory: bool) -> (entry: DirectoryEntry)
        ensures
            entry@ == (EntryView { path: path@, is_directory }),
    {
        DirectoryEntry { path, is_directory }
    }

    /// The placeholder row.
    pub fn placeholder() -> (entry: DirectoryEntry)
        ensures
            entry@ == placeholder(),
    {
        proof {
            reveal_strlit("..");
        }
        let entry = DirectoryEntry { path: String::from_str(".."), is_directory: false };
        assert(entry@.path =~= placeholder().path);
        entry
    }

    /// Whether the entry is the placeholder.
    pub fn is_placeholder(&self) -> (r: bool)
        ensures
            r == (self@ == placeholder()),
    {
        let path = self.path.as_str();
        let r = !self.is_directory && path.unicode_len() == 2 && path.get_char(0) == '.'
            && path.get_char(1) == '.';
        proof {
            if r {
                assert(self@.path =~= placeholder().path);
            }
        }
        r
    }

    /// The name of the entry's path, where it has one.
    pub fn name(&self) -> (name: Option<String>)
        ensures
            text_view(name) == self@.name(),
    {
        file_name_of(self.path.as_str())
    }

    /// Whether the entry's name starts with a dot.
    pub fn is_hidden(&self) -> (r: bool)
        ensures
            r == self@.hidden(),
    {
        is_hidden_path(self.path.as_str())
    }
}

} // verus!
