//! The navigator: the browser's state and how each command changes it.
//!
//! The navigator never touches the file system. A command that needs the
//! children of a directory says which directory (`needed_directory`); the
//! caller reads it and hands over what came of it with the command. Where
//! the reading failed, the state stays as it was.
//!
//! The keys that move the cursor, flip the policy or go in forget the
//! remembered operation whenever they are carried out, also where they change
//! nothing else.

use crate::entry::{entry_views, DirectoryEntry, EntryView};
use crate::listing::{get_dir_content, is_listing, listing_of, obeys_policy};
use crate::path::{file_name, file_name_of, parent, parent_of, text_view};
use vstd::prelude::*;

verus! {

/// The kinds of operation that the navigator remembers.
#[derive(Clone, Copy, Debug, PartialEq, Eq, Structural)]
pub enum OpKind {
    /// The browser went up to the parent directory.
    Out,
}

/// The operation that led to the current directory, kept so that the cursor
/// can be put on the row of the directory that was left.
#[derive(Clone, Debug, PartialEq, Eq)]
pub struct Op {
    pub kind: OpKind,
    pub path: Option<String>,
}

/// The mathematical value of an `Op`.
pub struct OpView {
    pub kind: OpKind,
    pub path: Option<Seq<char>>,
}

impl View for Op {
    type V = OpView;

    open spec fn view(&self) -> OpView {
        OpView {
            kind: self.kind,
            path: match self.path {
                Some(p) => Some(p@),
                None => None,
            },
        }
    }
}

impl OpView {
    /// The name to look for in the new listing: the name of the path that
    /// the operation left, where it has one.
    pub open spec fn hint(self) -> Option<Seq<char>> {
        match self.path {
            Some(p) => file_name(p),
            None => None,
        }
    }
}

impl Op {
    /// An operation of the given kind on the given path.
    pub fn new(kind: OpKind, path: String) -> (op: Op)
        ensures
            op@ == (OpView { kind, path: Some(path@) }),
    {
        Op { kind, path: Some(path) }
    }
}

/// A failure to read a directory, with what the system said of it.
#[derive(Clone, Debug, PartialEq, Eq)]
pub struct IOError {
    pub cause: String,
}

/// What a key can ask of the navigator.
#[derive(Clone, Copy, Debug, PartialEq, Eq, Structural)]
pub enum Command {
    MoveDown,
    MoveUp,
    MoveTop,
    MoveBottom,
    ToggleHidden,
    MoveInto,
    MoveOut,
    Quit,
    Nothing,
}

/// The command bound to each key.
pub open spec fn key_command(key: char) -> Command {
    if key == 'j' {
        Command::MoveDown
    } else if key == 'k' {
        Command::MoveUp
    } else if key == 'g' {
        Command::MoveTop
    } else if key == 'G' {
        Command::MoveBottom
    } else if key == '.' {
        Command::ToggleHidden
    } else if key == 'l' {
        Command::MoveInto
    } else if key == 'h' {
        Command::MoveOut
    } else if key == 'q' {
        Command::Quit
    } else {
        Command::Nothing
    }
}

/// The mathematical value of a `State`.
pub struct StateView {
    pub cursor: nat,
    pub dir: Seq<char>,
    pub listing: Seq<EntryView>,
    pub show_hidden: bool,
    pub prev_op: Option<OpView>,
}

impl StateView {
    /// The listing is one and keeps to the hidden-file policy, and the
    /// cursor points at one of its rows.
    pub open spec fn wf(self) -> bool {
        &&& is_listing(self.listing)
        &&& obeys_policy(self.listing, self.show_hidden)
        &&& self.cursor < self.listing.len()
    }

    /// The entry under the cursor.
    pub open spec fn selected(self) -> EntryView {
        self.listing[self.cursor as int]
    }
}

/// The first row of `listing` whose entry has the name `name`.
pub open spec fn position_of(listing: Seq<EntryView>, name: Seq<char>) -> Option<nat>
    decreases listing.len(),
{
    if listing.len() == 0 {
        None
    } else if listing[0].name() == Some(name) {
        Some(0)
    } else {
        match position_of(listing.drop_first(), name) {
            Some(i) => Some(i + 1),
            None => None,
        }
    }
}

/// Where the cursor goes in a directory that was just entered: after going
/// up, on the first row named like the directory that was left, and on the
/// first row of all where there is no such row or the directory was entered
/// otherwise.
pub open spec fn restored_cursor(prev_op: Option<OpView>, listing: Seq<EntryView>) -> nat {
    match prev_op {
        Some(op) => match op.hint() {
            Some(name) => if op.kind == OpKind::Out {
                match position_of(listing, name) {
                    Some(i) => i,
                    None => 0,
                }
            } else {
                0
            },
            None => 0,
        },
        None => 0,
    }
}

/// The cursor one row further down, or where it is on the last row.
pub open spec fn cursor_below(s: StateView) -> nat {
    if s.cursor + 1 < s.listing.len() {
        s.cursor + 1
    } else {
        s.cursor
    }
}

/// The cursor one row further up, or where it is on the first row.
pub open spec fn cursor_above(s: StateView) -> nat {
    if s.cursor > 0 {
        (s.cursor - 1) as nat
    } else {
        0
    }
}

/// The last row.
pub open spec fn cursor_bottom(s: StateView) -> nat {
    if s.listing.len() > 0 {
        (s.listing.len() - 1) as nat
    } else {
        0
    }
}

/// The directory whose children `cmd` needs before it can do anything: the
/// current one to show or hide its hidden files, the one under the cursor to
/// go into it, the parent to go out. `None` where the command needs none, or
/// cannot be carried out in this state.
pub open spec fn needed_dir(s: StateView, cmd: Command) -> Option<Seq<char>> {
    match cmd {
        Command::ToggleHidden => Some(s.dir),
        Command::MoveInto => if s.selected().is_directory {
            Some(s.selected().path)
        } else {
            None
        },
        Command::MoveOut => parent(s.dir),
        _ => None,
    }
}

/// The state with the remembered operation forgotten.
pub open spec fn forgotten(s: StateView) -> StateView {
    StateView { prev_op: None, ..s }
}

/// The state with the cursor moved to `cursor`. Moving the cursor forgets the
/// remembered operation.
pub open spec fn moved(s: StateView, cursor: nat) -> StateView {
    StateView { cursor, prev_op: None, ..s }
}

/// The state after the hidden-file policy was flipped and the current
/// directory read again: the cursor stays on its row, or goes to the last row
/// where the new listing is shorter.
pub open spec fn toggled(s: StateView, children: Seq<EntryView>) -> StateView {
    let listing = listing_of(children, !s.show_hidden);
    StateView {
        cursor: if s.cursor < listing.len() {
            s.cursor
        } else {
            (listing.len() - 1) as nat
        },
        dir: s.dir,
        listing,
        show_hidden: !s.show_hidden,
        prev_op: None,
    }
}

/// The state after `dir` was entered by the operation `op`, its children
/// being `children`.
pub open spec fn entered(
    s: StateView,
    dir: Seq<char>,
    children: Seq<EntryView>,
    op: Option<OpView>,
) -> StateView {
    let listing = listing_of(children, s.show_hidden);
    StateView {
        cursor: restored_cursor(op, listing),
        dir,
        listing,
        show_hidden: s.show_hidden,
        prev_op: op,
    }
}

/// The state after `cmd`. `listed` holds the children of the directory that
/// the command needs, where the caller read it.
///
/// A cursor move, a flip of the policy and a step in forget the remembered
/// operation in every case. Where a flip or a step in has no children to
/// list, or the step in has no directory under the cursor, that is all they
/// do. A step out that has no parent to go to, or no children to list, does
/// nothing; nor do the keys for quitting and for nothing.
pub open spec fn step(s: StateView, cmd: Command, listed: Option<Seq<EntryView>>) -> StateView {
    match cmd {
        Command::MoveDown => moved(s, cursor_below(s)),
        Command::MoveUp => moved(s, cursor_above(s)),
        Command::MoveTop => moved(s, 0),
        Command::MoveBottom => moved(s, cursor_bottom(s)),
        Command::ToggleHidden => match listed {
            Some(children) => toggled(s, children),
            None => forgotten(s),
        },
        Command::MoveInto => match (needed_dir(s, cmd), listed) {
            (Some(dir), Some(children)) => entered(s, dir, children, None),
            _ => forgotten(s),
        },
        Command::MoveOut => match (needed_dir(s, cmd), listed) {
            (Some(dir), Some(children)) => entered(
                s,
                dir,
                children,
                Some(OpView { kind: OpKind::Out, path: Some(s.dir) }),
            ),
            _ => s,
        },
        Command::Quit => s,
        Command::Nothing => s,
    }
}

/// The value of a remembered operation, if there is one.
pub open spec fn op_view(op: Option<Op>) -> Option<OpView> {
    match op {
        Some(o) => Some(o@),
        None => None,
    }
}

/// The values of the children that were handed over, if any were.
pub open spec fn listed_views(listed: Option<Vec<DirectoryEntry>>) -> Option<Seq<EntryView>> {
    match listed {
        Some(children) => Some(entry_views(children@)),
        None => None,
    }
}

/// The values of the children that a reading brought, if there was a
/// reading and it succeeded.
pub open spec fn reading_views(reading: Option<Result<Vec<DirectoryEntry>, IOError>>) -> Option<
    Seq<EntryView>,
> {
    match reading {
        Some(Ok(children)) => Some(entry_views(children@)),
        _ => None,
    }
}

/// The browser's state: the current directory, its listing, the cursor, the
/// hidden-file policy and the operation that led here.
pub struct State {
    cursor: usize,
    dir: String,
    listing: Vec<DirectoryEntry>,
    show_hidden: bool,
    prev_op: Option<Op>,
}

impl View for State {
    type V = StateView;

    closed spec fn view(&self) -> StateView {
        StateView {
            cursor: self.cursor as nat,
            dir: self.dir@,
            listing: entry_views(self.listing@),
            show_hidden: self.show_hidden,
            prev_op: op_view(self.prev_op),
        }
    }
}

impl State {
    /// The cursor is on a row of the listing, and the state's value is well
    /// formed.
    #[verifier::type_invariant]
    spec fn inv(&self) -> bool {
        self.cursor < self.listing.len() && self@.wf()
    }

    /// The state at startup in the directory `dir` with the children
    /// `entries`: the cursor on the first row, nothing remembered.
    pub fn new(dir: String, entries: Vec<DirectoryEntry>, show_hidden: bool) -> (state: State)
        ensures
            state@ == (StateView {
                cursor: 0,
                dir: dir@,
                listing: listing_of(entry_views(entries@), show_hidden),
                show_hidden,
                prev_op: None,
            }),
            state@.wf(),
    {
        let listing = get_dir_content(entries, show_hidden);
        State { cursor: 0, dir, listing, show_hidden, prev_op: None }
    }

    /// The row that the cursor is on.
    pub fn cursor(&self) -> (cursor: usize)
        ensures
            cursor == self@.cursor,
            self@.wf(),
    {
        proof {
            use_type_invariant(self);
        }
        self.cursor
    }

    /// The current directory.
    pub fn dir(&self) -> (dir: &String)
        ensures
            dir@ == self@.dir,
    {
        &self.dir
    }

    /// The listing of the current directory.
    pub fn listing(&self) -> (listing: &Vec<DirectoryEntry>)
        ensures
            entry_views(listing@) == self@.listing,
            self@.wf(),
    {
        proof {
            use_type_invariant(self);
        }
        &self.listing
    }

    /// Whether hidden files are listed.
    pub fn show_hidden(&self) -> (show_hidden: bool)
        ensures
            show_hidden == self@.show_hidden,
    {
        self.show_hidden
    }

    /// The operation that led to the current directory, where it is still
    /// remembered.
    pub fn prev_op(&self) -> (prev_op: &Option<Op>)
        ensures
            op_view(*prev_op) == self@.prev_op,
    {
        &self.prev_op
    }

    /// Carries out `cmd`. `listed` holds the children of the directory that
    /// `needed_directory` named for the command; with `None` there, a command
    /// that needs a directory changes neither directory nor listing nor
    /// cursor.
    pub fn apply(&mut self, cmd: Command, listed: Option<Vec<DirectoryEntry>>)
        ensures
            final(self)@ == step(old(self)@, cmd, listed_views(listed)),
            final(self)@.wf(),
    {
        proof {
            use_type_invariant(&*self);
        }
        match cmd {
            Command::MoveDown => {
                self.cursor = move_down(self);
                self.prev_op = None;
            },
            Command::MoveUp => {
                self.cursor = move_up(self);
                self.prev_op = None;
            },
            Command::MoveTop => {
                self.cursor = move_top(self);
                self.prev_op = None;
            },
            Command::MoveBottom => {
                self.cursor = move_bottom(self);
                self.prev_op = None;
            },
            Command::ToggleHidden => {
                self.prev_op = None;
                if let Some(children) = listed {
                    let show_hidden = !self.show_hidden;
                    let listing = get_dir_content(children, show_hidden);
                    let cursor = if self.cursor < listing.len() {
                        self.cursor
                    } else {
                        listing.len() - 1
                    };
                    *self = State {
                        cursor,
                        dir: self.dir.clone(),
                        listing,
                        show_hidden,
                        prev_op: None,
                    };
                }
            },
            Command::MoveInto => {
                self.prev_op = None;
                if let Some(children) = listed {
                    if let Some(dir) = move_into_dir(self) {
                        self.enter(dir, children, None);
                    }
                }
            },
            Command::MoveOut => {
                if let Some(children) = listed {
                    if let Some(dir) = move_out_of_dir(self) {
                        let op = Op::new(OpKind::Out, self.dir.clone());
                        self.enter(dir, children, Some(op));
                    }
                }
            },
            Command::Quit => {},
            Command::Nothing => {},
        }
    }

    /// Makes `dir` the current directory, lists `children` under the current
    /// policy, remembers `op` and puts the cursor where `cursor_position`
    /// says.
    fn enter(&mut self, dir: String, children: Vec<DirectoryEntry>, op: Option<Op>)
        ensures
            final(self)@ == entered(old(self)@, dir@, entry_views(children@), op_view(op)),
            final(self)@.wf(),
    {
        let listing = get_dir_content(children, self.show_hidden);
        *self = State { cursor: 0, dir, listing, show_hidden: self.show_hidden, prev_op: op };
        self.cursor = cursor_position(self);
    }
}

/// What `position_of` finds: a row with that name that no row with that name
/// precedes, or nothing where no row has the name.
pub proof fn lemma_position_of(listing: Seq<EntryView>, name: Seq<char>)
    ensures
        match position_of(listing, name) {
            Some(i) => i < listing.len() && listing[i as int].name() == Some(name) && forall|
                j: int,
            | 0 <= j < i ==> (#[trigger] listing[j]).name() != Some(name),
            None => forall|j: int|
                0 <= j < listing.len() ==> (#[trigger] listing[j]).name() != Some(name),
        },
    decreases listing.len(),
{
    if listing.len() > 0 && listing[0].name() != Some(name) {
        let rest = listing.drop_first();
        lemma_position_of(rest, name);
        match position_of(rest, name) {
            Some(i) => {
                assert(listing[i as int + 1] == rest[i as int]);
                assert forall|j: int| 0 <= j < i + 1 implies (#[trigger] listing[j]).name()
                    != Some(name) by {
                    if j > 0 {
                        assert(listing[j] == rest[j - 1]);
                    }
                }
            },
            None => {
                assert forall|j: int| 0 <= j < listing.len() implies (#[trigger] listing[j]).name()
                    != Some(name) by {
                    if j > 0 {
                        assert(listing[j] == rest[j - 1]);
                    }
                }
            },
        }
    }
}

/// A row with the name `name` that no row with that name precedes is the one
/// that `position_of` finds.
pub proof fn lemma_position_of_first(listing: Seq<EntryView>, name: Seq<char>, row: nat)
    requires
        row < listing.len(),
        listing[row as int].name() == Some(name),
        forall|j: int| 0 <= j < row ==> (#[trigger] listing[j]).name() != Some(name),
    ensures
        position_of(listing, name) == Some(row),
{
    lemma_position_of(listing, name);
}

/// The command bound to `key`.
pub fn command_of(key: char) -> (cmd: Command)
    ensures
        cmd == key_command(key),
{
    match key {
        'j' => Command::MoveDown,
        'k' => Command::MoveUp,
        'g' => Command::MoveTop,
        'G' => Command::MoveBottom,
        '.' => Command::ToggleHidden,
        'l' => Command::MoveInto,
        'h' => Command::MoveOut,
        'q' => Command::Quit,
        _ => Command::Nothing,
    }
}

/// The row below the cursor, or the cursor's own on the last row.
pub fn move_down(state: &State) -> (cursor: usize)
    ensures
        cursor == cursor_below(state@),
        cursor < state@.listing.len(),
{
    proof {
        use_type_invariant(state);
    }
    if state.cursor + 1 < state.listing.len() {
        state.cursor + 1
    } else {
        state.cursor
    }
}

/// The row above the cursor, or the first row.
pub fn move_up(state: &State) -> (cursor: usize)
    ensures
        cursor == cursor_above(state@),
        cursor < state@.listing.len(),
{
    proof {
        use_type_invariant(state);
    }
    if state.cursor > 0 {
        state.cursor - 1
    } else {
        0
    }
}

/// The first row.
pub fn move_top(state: &State) -> (cursor: usize)
    ensures
        cursor == 0,
        cursor < state@.listing.len(),
{
    proof {
        use_type_invariant(state);
    }
    0
}

/// The last row.
pub fn move_bottom(state: &State) -> (cursor: usize)
    ensures
        cursor == cursor_bottom(state@),
        cursor < state@.listing.len(),
{
    proof {
        use_type_invariant(state);
    }
    state.listing.len() - 1
}

/// The directory that going in leads to: the entry under the cursor, where
/// it is a directory.
pub fn move_into_dir(state: &State) -> (dir: Option<String>)
    ensures
        text_view(dir) == needed_dir(state@, Command::MoveInto),
{
    proof {
        use_type_invariant(state);
    }
    let entry = &state.listing[state.cursor];
    if entry.is_directory {
        Some(entry.path.clone())
    } else {
        None
    }
}

/// The directory that going out leads to: the parent of the current one,
/// where it has one.
pub fn move_out_of_dir(state: &State) -> (dir: Option<String>)
    ensures
        text_view(dir) == needed_dir(state@, Command::MoveOut),
{
    parent_of(state.dir.as_str())
}

/// The directory that the caller must read before `cmd` can be carried out,
/// if the command needs one.
pub fn needed_directory(state: &State, cmd: Command) -> (dir: Option<String>)
    ensures
        text_view(dir) == needed_dir(state@, cmd),
{
    match cmd {
        Command::ToggleHidden => Some(state.dir.clone()),
        Command::MoveInto => move_into_dir(state),
        Command::MoveOut => move_out_of_dir(state),
        _ => None,
    }
}

/// The first row of `listing` whose entry is named `name`.
fn find_name(listing: &Vec<DirectoryEntry>, name: &String) -> (row: Option<usize>)
    ensures
        match row {
            Some(i) => position_of(entry_views(listing@), name@) == Some(i as nat),
            None => position_of(entry_views(listing@), name@) is None,
        },
{
    let ghost all = entry_views(listing@);
    let mut i: usize = 0;
    assert(all.skip(0) =~= all);
    while i < listing.len()
        invariant
            i <= listing.len(),
            all == entry_views(listing@),
            position_of(all, name@) == match position_of(all.skip(i as int), name@) {
                Some(j) => Some((i + j) as nat),
                None => None,
            },
        decreases listing.len() - i,
    {
        assert(all.skip(i as int).drop_first() =~= all.skip(i + 1));
        assert(all.skip(i as int)[0] == listing@[i as int]@);
        if let Some(found) = listing[i].name() {
            if found == *name {
                return Some(i);
            }
        }
        i = i + 1;
    }
    None
}

/// Where the cursor belongs in the listing of `state`, going by the
/// operation that led to the current directory.
pub fn cursor_position(state: &State) -> (cursor: usize)
    ensures
        cursor == restored_cursor(state@.prev_op, state@.listing),
        cursor < state@.listing.len(),
{
    proof {
        use_type_invariant(state);
    }
    match &state.prev_op {
        Some(op) => match op.kind {
            OpKind::Out => {
                let last = match &op.path {
                    Some(path) => file_name_of(path.as_str()),
                    None => None,
                };
                match last {
                    Some(name) => {
                        proof {
                            lemma_position_of(state@.listing, name@);
                        }
                        match find_name(&state.listing, &name) {
                            Some(row) => row,
                            None => 0,
                        }
                    },
                    None => 0,
                }
            },
        },
        None => 0,
    }
}

/// Carries out the command bound to `key`. `reading` holds what came of
/// reading the directory that the command needs: `None` where nothing was
/// read. A failed reading is handed back as the error, and the state stays as
/// it was, the remembered operation with it.
pub fn handle_keypress(
    key: char,
    state: &mut State,
    reading: Option<Result<Vec<DirectoryEntry>, IOError>>,
) -> (r: Result<(), IOError>)
    ensures
        match reading {
            Some(Err(e)) => r == Err::<(), IOError>(e) && final(state)@ == old(state)@,
            _ => r is Ok && final(state)@ == step(
                old(state)@,
                key_command(key),
                reading_views(reading),
            ),
        },
        final(state)@.wf(),
{
    match reading {
        Some(Err(e)) => {
            proof {
                use_type_invariant(&*state);
            }
            Err(e)
        },
        Some(Ok(children)) => {
            state.apply(command_of(key), Some(children));
            Ok(())
        },
        None => {
            state.apply(command_of(key), None);
            Ok(())
        },
    }
}

} // verus!
