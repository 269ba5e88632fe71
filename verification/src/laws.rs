//! What holds of the navigator in every state and for every command.

use crate::entry::{placeholder, EntryView};
use crate::listing::{
    lemma_listing_ignores_reading_order, lemma_listing_of, listing_of, one_entry_per_path,
};
use crate::path::{is_component, is_directory_path, join, lemma_join_inverse, parent};
use crate::render::screen_lines;
use crate::state::{
    cursor_above, cursor_below, cursor_bottom, forgotten, lemma_position_of,
    lemma_position_of_first, needed_dir, step, Command, OpKind, OpView, StateView,
};
use vstd::prelude::*;

verus! {

/// The commands that only move the cursor.
pub open spec fn is_cursor_move(cmd: Command) -> bool {
    cmd == Command::MoveDown || cmd == Command::MoveUp || cmd == Command::MoveTop || cmd
        == Command::MoveBottom
}

/// The commands that forget the remembered operation: the cursor moves, the
/// flip of the policy and the step in.
pub open spec fn forgets(cmd: Command) -> bool {
    is_cursor_move(cmd) || cmd == Command::ToggleHidden || cmd == Command::MoveInto
}

/// The state after the commands of `cmds`, one after the other, none of them
/// given any directory's children.
pub open spec fn after_all(s: StateView, cmds: Seq<Command>) -> StateView
    decreases cmds.len(),
{
    if cmds.len() == 0 {
        s
    } else {
        step(after_all(s, cmds.drop_last()), cmds.last(), None)
    }
}

/// Where the cursor is on a row, the moves take it where their formulas say:
/// down to the smaller of the next row and the last, up to the larger of the
/// row before and the first, and to the bottom on the last row.
pub proof fn lemma_moves_by_formula(s: StateView)
    requires
        s.wf(),
    ensures
        cursor_below(s) == vstd::math::min(s.cursor as int + 1, s.listing.len() as int - 1),
        cursor_above(s) == vstd::math::max(s.cursor as int - 1, 0),
        cursor_bottom(s) == s.listing.len() - 1,
{
}

/// No command, whatever is handed over with it, leads out of the states in
/// which the listing has a row and the cursor is on one of its rows.
pub proof fn lemma_step_keeps_cursor_in_bounds(
    s: StateView,
    cmd: Command,
    listed: Option<Seq<EntryView>>,
)
    requires
        s.wf(),
    ensures
        step(s, cmd, listed).wf(),
{
    let t = step(s, cmd, listed);
    if let Some(children) = listed {
        lemma_listing_of(children, s.show_hidden);
        lemma_listing_of(children, !s.show_hidden);
        if let Some(op) = t.prev_op {
            if let Some(name) = op.hint() {
                lemma_position_of(t.listing, name);
            }
        }
    }
}

/// A sequence of cursor moves ends in the listing that it started with,
/// with the cursor on one of its rows.
pub proof fn lemma_moves_keep_cursor_in_bounds(s: StateView, cmds: Seq<Command>)
    requires
        s.wf(),
        forall|i: int| 0 <= i < cmds.len() ==> is_cursor_move(#[trigger] cmds[i]),
    ensures
        after_all(s, cmds).listing == s.listing,
        after_all(s, cmds).dir == s.dir,
        0 <= after_all(s, cmds).cursor < s.listing.len(),
    decreases cmds.len(),
{
    if cmds.len() > 0 {
        lemma_moves_keep_cursor_in_bounds(s, cmds.drop_last());
    }
}

/// After every command of a sequence of cursor moves the listing is the one
/// that the sequence started with, and the cursor is on one of its rows.
pub proof fn lemma_cursor_in_bounds_after_every_move(s: StateView, cmds: Seq<Command>)
    requires
        s.wf(),
        forall|i: int| 0 <= i < cmds.len() ==> is_cursor_move(#[trigger] cmds[i]),
    ensures
        forall|k: int|
            0 <= k <= cmds.len() ==> {
                let t = #[trigger] after_all(s, cmds.take(k));
                t.listing == s.listing && 0 <= t.cursor < t.listing.len()
            },
{
    assert forall|k: int| 0 <= k <= cmds.len() implies {
        let t = #[trigger] after_all(s, cmds.take(k));
        t.listing == s.listing && 0 <= t.cursor < t.listing.len()
    } by {
        lemma_moves_keep_cursor_in_bounds(s, cmds.take(k));
    }
}

/// Drawing is repeatable: the lines of a screen depend on the directory, the
/// listing and the cursor alone, so two screens drawn from the same three
/// are the same screen.
pub proof fn lemma_screen_is_repeatable(
    dir: Seq<char>,
    listing: Seq<EntryView>,
    cursor: nat,
    first: Seq<Seq<char>>,
    second: Seq<Seq<char>>,
)
    requires
        first == screen_lines(dir, listing, cursor),
        second == screen_lines(dir, listing, cursor),
    ensures
        first == second,
{
}

/// A command that needs the children of a directory and gets none leaves the
/// directory, the listing, the cursor and the policy as they were: the state
/// never changes by half. A step out then changes nothing at all; a flip of
/// the policy or a step in forgets the remembered operation.
pub proof fn lemma_nothing_read_nothing_entered(s: StateView, cmd: Command)
    requires
        needed_dir(s, cmd) is Some,
    ensures
        forgotten(step(s, cmd, None)) == forgotten(s),
        cmd == Command::MoveOut ==> step(s, cmd, None) == s,
        cmd != Command::MoveOut ==> step(s, cmd, None) == forgotten(s),
{
}

/// The keys for quitting and for nothing leave the state as it is.
pub proof fn lemma_idle_commands_change_nothing(s: StateView, listed: Option<Seq<EntryView>>)
    ensures
        step(s, Command::Quit, listed) == s,
        step(s, Command::Nothing, listed) == s,
{
}

/// The operation is remembered for one command only: after a cursor move, a
/// flip of the policy or a step in, whatever came of it, nothing is
/// remembered.
pub proof fn lemma_operation_is_forgotten(
    s: StateView,
    cmd: Command,
    listed: Option<Seq<EntryView>>,
)
    requires
        forgets(cmd),
    ensures
        step(s, cmd, listed).prev_op is None,
{
}

/// An operation is remembered only after a step out that led somewhere, or
/// a command that did nothing to a state that remembered one.
pub proof fn lemma_only_a_step_out_is_remembered(
    s: StateView,
    cmd: Command,
    listed: Option<Seq<EntryView>>,
)
    requires
        step(s, cmd, listed).prev_op is Some,
    ensures
        !forgets(cmd),
        step(s, cmd, listed) == s || (cmd == Command::MoveOut && step(s, cmd, listed).prev_op
            == Some(OpView { kind: OpKind::Out, path: Some(s.dir) })),
{
}

/// Flipping the hidden-file policy twice gives back the policy that there
/// was before, and the listing under that policy of the children that were
/// read last. The cursor may have moved.
pub proof fn lemma_toggle_twice(s: StateView, first: Seq<EntryView>, second: Seq<EntryView>)
    ensures
        ({
            let t = step(
                step(s, Command::ToggleHidden, Some(first)),
                Command::ToggleHidden,
                Some(second),
            );
            &&& t.show_hidden == s.show_hidden
            &&& t.dir == s.dir
            &&& t.listing == listing_of(second, s.show_hidden)
        }),
{
}

/// Flipping the hidden-file policy twice gives back the listing that there
/// was before, provided that the directory holds the same children as when
/// that listing was made, in whatever order they are read.
pub proof fn lemma_toggle_twice_restores_listing(
    s: StateView,
    known: Seq<EntryView>,
    first: Seq<EntryView>,
    second: Seq<EntryView>,
)
    requires
        s.listing == listing_of(known, s.show_hidden),
        one_entry_per_path(known),
        second.to_multiset() == known.to_multiset(),
    ensures
        step(
            step(s, Command::ToggleHidden, Some(first)),
            Command::ToggleHidden,
            Some(second),
        ).listing == s.listing,
{
    lemma_listing_ignores_reading_order(known, second, s.show_hidden);
}

/// On the last row, going down changes nothing.
pub proof fn lemma_bottom_then_down(s: StateView)
    ensures
        step(step(s, Command::MoveBottom, None), Command::MoveDown, None) == step(
            s,
            Command::MoveBottom,
            None,
        ),
{
}

/// On the first row, going up changes nothing.
pub proof fn lemma_top_then_up(s: StateView)
    ensures
        step(step(s, Command::MoveTop, None), Command::MoveUp, None) == step(
            s,
            Command::MoveTop,
            None,
        ),
{
}

/// Going into an entry that is no directory changes nothing but the
/// remembered operation, which is forgotten, whatever is handed over.
pub proof fn lemma_only_directories_are_entered(s: StateView, listed: Option<Seq<EntryView>>)
    requires
        !s.selected().is_directory,
    ensures
        needed_dir(s, Command::MoveInto) is None,
        step(s, Command::MoveInto, listed) == forgotten(s),
{
}

/// The placeholder cannot be entered: in the listing of a directory without
/// visible children, going in changes nothing but the remembered operation,
/// which is forgotten.
pub proof fn lemma_placeholder_is_not_entered(s: StateView, listed: Option<Seq<EntryView>>)
    requires
        s.wf(),
        s.listing == seq![placeholder()],
    ensures
        needed_dir(s, Command::MoveInto) is None,
        step(s, Command::MoveInto, listed) == forgotten(s),
{
}

/// Going into the directory under the cursor and out again leads back to the
/// same directory, the same listing and the same row, provided that the
/// entry lies in the current directory, that no row above it bears its name,
/// and that the directory reads the same the second time.
pub proof fn lemma_into_then_out(
    s: StateView,
    inner: Seq<EntryView>,
    outer: Seq<EntryView>,
)
    requires
        s.wf(),
        s.selected().is_directory,
        parent(s.selected().path) == Some(s.dir),
        forall|j: int| 0 <= j < s.cursor ==> (#[trigger] s.listing[j]).name() != s.selected().name(),
        listing_of(outer, s.show_hidden) == s.listing,
    ensures
        ({
            let down = step(s, Command::MoveInto, Some(inner));
            let back = step(down, Command::MoveOut, Some(outer));
            &&& down.dir == s.selected().path
            &&& down.cursor == 0
            &&& back.dir == s.dir
            &&& back.listing == s.listing
            &&& back.cursor == s.cursor
        }),
{
    lemma_position_of_first(s.listing, s.selected().name()->0, s.cursor);
}

/// Going into the child `name` of the current directory and out again leads
/// back to the same directory, the same listing and the same row, provided
/// that no row above the child bears its name and that the directory reads
/// the same the second time.
pub proof fn lemma_into_child_then_out(
    s: StateView,
    name: Seq<char>,
    inner: Seq<EntryView>,
    outer: Seq<EntryView>,
)
    requires
        s.wf(),
        is_directory_path(s.dir),
        is_component(name),
        s.selected().is_directory,
        s.selected().path == join(s.dir, name),
        forall|j: int| 0 <= j < s.cursor ==> (#[trigger] s.listing[j]).name() != Some(name),
        listing_of(outer, s.show_hidden) == s.listing,
    ensures
        ({
            let down = step(s, Command::MoveInto, Some(inner));
            let back = step(down, Command::MoveOut, Some(outer));
            &&& down.dir == join(s.dir, name)
            &&& down.cursor == 0
            &&& back.dir == s.dir
            &&& back.listing == s.listing
            &&& back.cursor == s.cursor
        }),
{
    lemma_join_inverse(s.dir, name);
    lemma_into_then_out(s, inner, outer);
}

} // verus!
