//! The lines that show a state on the screen.

use crate::entry::{entry_views, placeholder, DirectoryEntry, EntryView};
use crate::state::State;
use vstd::prelude::*;
use vstd::string::StringExecFns;

verus! {

/// What stands in front of a row that the cursor is not on.
pub open spec fn indent() -> Seq<char> {
    seq![' ', ' ', ' ']
}

/// What stands in front of the row that the cursor is on.
pub open spec fn marker() -> Seq<char> {
    seq![' ', '>', ' ']
}

/// A name as it is shown: a directory's with a `/` behind it.
pub open spec fn shown_name(name: Seq<char>, is_directory: bool) -> Seq<char> {
    if is_directory {
        name.push('/')
    } else {
        name
    }
}

/// What an entry is called on the screen: the placeholder two dots, every
/// other entry its name as it is shown, and an entry without a name nothing.
pub open spec fn label(entry: EntryView) -> Seq<char> {
    if entry == placeholder() {
        seq!['.', '.']
    } else {
        match entry.name() {
            Some(name) => shown_name(name, entry.is_directory),
            None => Seq::empty(),
        }
    }
}

/// The row of an entry that the cursor is not on: its name as it is shown
/// behind the indentation, and an empty row for an entry without a name.
pub open spec fn row(entry: EntryView) -> Seq<char> {
    match entry.name() {
        Some(name) => indent() + shown_name(name, entry.is_directory),
        None => Seq::empty(),
    }
}

/// The row of the entry that the cursor is on: its label behind the marker.
pub open spec fn selected_row(entry: EntryView) -> Seq<char> {
    marker() + label(entry)
}

/// The rows that are shown for `listing`: its own, or the placeholder's
/// where it has none.
pub open spec fn shown(listing: Seq<EntryView>) -> Seq<EntryView> {
    if listing.len() == 0 {
        seq![placeholder()]
    } else {
        listing
    }
}

/// The screen for the directory `dir` with the rows of `listing` and the
/// cursor on row `cursor`: the directory, an empty line, then one line for
/// each row.
pub open spec fn screen_lines(dir: Seq<char>, listing: Seq<EntryView>, cursor: nat) -> Seq<
    Seq<char>,
> {
    let rows = shown(listing);
    Seq::new(
        rows.len() + 2,
        |i: int|
            if i == 0 {
                dir
            } else if i == 1 {
                Seq::empty()
            } else if i - 2 == cursor {
                selected_row(rows[i - 2])
            } else {
                row(rows[i - 2])
            },
    )
}

/// The text of each line, in order.
pub open spec fn line_views(lines: Seq<String>) -> Seq<Seq<char>> {
    lines.map_values(|line: String| line@)
}

/// `prefix` followed by `name` as it is shown.
fn prefixed(prefix: &str, name: &str, is_directory: bool) -> (line: String)
    ensures
        line@ == prefix@ + shown_name(name@, is_directory),
{
    let mut line = String::from_str(prefix);
    line.append(name);
    if is_directory {
        proof {
            reveal_strlit("/");
        }
        line.append("/");
    }
    assert(line@ =~= prefix@ + shown_name(name@, is_directory));
    line
}

/// The row of an entry that the cursor is not on.
pub fn pathbuf_to_string(entry: &DirectoryEntry) -> (line: String)
    ensures
        line@ == row(entry@),
{
    match entry.name() {
        Some(name) => {
            proof {
                reveal_strlit("   ");
            }
            assert("   "@ =~= indent());
            prefixed("   ", name.as_str(), entry.is_directory)
        },
        None => String::new(),
    }
}

/// The row of the entry that the cursor is on.
pub fn selected_to_string(entry: &DirectoryEntry) -> (line: String)
    ensures
        line@ == selected_row(entry@),
{
    proof {
        reveal_strlit(" > ");
        reveal_strlit("..");
    }
    assert(" > "@ =~= marker());
    if entry.is_placeholder() {
        assert(".."@ =~= seq!['.', '.']);
        prefixed(" > ", "..", false)
    } else {
        match entry.name() {
            Some(name) => prefixed(" > ", name.as_str(), entry.is_directory),
            None => {
                let line = String::from_str(" > ");
                assert(line@ =~= marker() + Seq::<char>::empty());
                line
            },
        }
    }
}

/// The lines of the screen for the directory `current_dir`, whose listing is
/// `current_siblings`, with the cursor on row `pos`.
pub fn format_lines(current_dir: &str, current_siblings: &Vec<DirectoryEntry>, pos: usize) -> (lines:
    Vec<String>)
    requires
        pos < current_siblings.len() || pos == 0,
    ensures
        line_views(lines@) == screen_lines(
            current_dir@,
            entry_views(current_siblings@),
            pos as nat,
        ),
        lines.len() == shown(entry_views(current_siblings@)).len() + 2,
{
    let ghost rows = shown(entry_views(current_siblings@));
    let ghost screen = screen_lines(current_dir@, entry_views(current_siblings@), pos as nat);
    let mut lines: Vec<String> = Vec::new();
    lines.push(String::from_str(current_dir));
    lines.push(String::new());
    if current_siblings.len() == 0 {
        let entry = DirectoryEntry::placeholder();
        lines.push(selected_to_string(&entry));
    } else {
        let mut i: usize = 0;
        while i < current_siblings.len()
            invariant
                i <= current_siblings.len(),
                current_siblings.len() > 0,
                rows == entry_views(current_siblings@),
                screen == screen_lines(current_dir@, entry_views(current_siblings@), pos as nat),
                lines.len() == i + 2,
                forall|k: int| 0 <= k < i + 2 ==> (#[trigger] lines@[k])@ == screen[k],
            decreases current_siblings.len() - i,
        {
            let line = if i == pos {
                selected_to_string(&current_siblings[i])
            } else {
                pathbuf_to_string(&current_siblings[i])
            };
            lines.push(line);
            i = i + 1;
        }
    }
    assert(line_views(lines@) =~= screen);
    lines
}

/// The lines of the screen for `state`.
pub fn format_screen_lines(state: &State) -> (lines: Vec<String>)
    ensures
        line_views(lines@) == screen_lines(state@.dir, state@.listing, state@.cursor),
        lines.len() == state@.listing.len() + 2,
{
    format_lines(state.dir().as_str(), state.listing(), state.cursor())
}

} // verus!
