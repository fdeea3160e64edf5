//! The pace of what a flow does again and again.

use crate::content::{Content, StyledElem};
use crate::frame::FrameView;
use crate::geom::{Abs, Axes, FixedAlignment};
use crate::items::FlowItemView;
use crate::model::{collect_footnotes, note_body, FlowState, Lines, Snapshot};
use crate::pace::{
    law_finishing_keeps_pace, law_items_keep_pace, lemma_continue_entry,
    lemma_finish_region_with_migration, lemma_handle_child, lemma_handle_footnote,
    lemma_place_block_frame, lemma_place_line,
};
use vstd::prelude::*;

verus! {

/// Placing the lines of a paragraph enters one region for every frame that
/// is finished.
pub(crate) proof fn lemma_place_lines(state: FlowState, lines: Lines, i: nat)
    ensures
        state.place_lines(lines, i) matches Ok(next) ==> next.keeps_pace(state),
    decreases state.engine.route.depth_left() + 1, state.budget(), 12nat, lines.frames.len() - i,
        0nat,
{
    reveal(FlowState::place_lines);
    reveal(FlowState::place_lines_def);
    reveal(FlowState::place_line);
    if i < lines.frames.len() {
        let step = state.place_line(lines, i);
        lemma_place_line(state, lines, i);
        if step is Ok && step->Ok_0.follows(state) {
            let next = step->Ok_0;
            assert(state.place_lines(lines, i) == next.place_lines(lines, i + 1));
            lemma_place_lines(next, lines, i + 1);
        }
    }
}

/// Placing the frames of a block enters one region for every frame that is
/// finished.
pub(crate) proof fn lemma_place_block(
    state: FlowState,
    frames: Seq<FrameView>,
    i: nat,
    notes: Seq<Content>,
    align: Axes<FixedAlignment>,
    sticky: bool,
)
    ensures
        state.place_block(frames, i, notes, align, sticky) matches Ok(next)
            ==> next.state.keeps_pace(state),
    decreases state.engine.route.depth_left() + 1, state.budget(), 12nat, frames.len() - i, 0nat,
{
    reveal(FlowState::place_block);
    reveal(FlowState::place_block_def);
    reveal(FlowState::place_block_frame);
    if i < frames.len() {
        let noted = if state.root {
            collect_footnotes(notes, frames[i as int])
        } else {
            notes
        };
        let step = state.place_block_frame(frames[i as int], i, align, sticky);
        lemma_place_block_frame(state, frames[i as int], i, align, sticky);
        if step is Ok && step->Ok_0.follows(state) {
            let next = step->Ok_0;
            assert(state.place_block(frames, i, notes, align, sticky) == next.place_block(
                frames,
                i + 1,
                noted,
                align,
                sticky,
            ));
            lemma_place_block(next, frames, i + 1, noted, align, sticky);
        }
    }
}

/// Handling items one after the other enters one region for every frame
/// that is finished.
pub(crate) proof fn lemma_feed(state: FlowState, items: Seq<FlowItemView>, i: nat)
    ensures
        state.feed(items, i) matches Ok(next) ==> next.keeps_pace(state),
    decreases state.engine.route.depth_left() + 1, state.budget(), 8nat, items.len() - i, 0nat,
{
    reveal(FlowState::feed);
    reveal(FlowState::feed_def);
    reveal(FlowState::handle_item);
    if i < items.len() {
        let step = state.handle_item(items[i as int]);
        law_items_keep_pace(state, items[i as int]);
        if step is Ok && step->Ok_0.follows(state) {
            let next = step->Ok_0;
            assert(state.feed(items, i) == next.feed(items, i + 1));
            lemma_feed(next, items, i + 1);
        }
    }
}

/// Making room enters one region for every frame that is finished.
pub(crate) proof fn lemma_make_room(state: FlowState, height: Abs)
    ensures
        state.make_room(height) matches Ok(next) ==> next.keeps_pace(state),
    decreases state.engine.route.depth_left() + 1, state.budget(), 6nat, 0nat, 0nat,
{
    reveal(FlowState::make_room);
    reveal(FlowState::make_room_def);
    reveal(FlowState::finish_region);
    if !state.regions.size.y.fits(height) && !state.regions.in_last() {
        let step = state.finish_region(false);
        law_finishing_keeps_pace(state, false);
        if step is Ok && step->Ok_0.passes(state) {
            let next = step->Ok_0;
            assert(state.make_room(height) == next.make_room(height));
            lemma_make_room(next, height);
        }
    }
}

/// Laying out the children of a flow enters one region for every frame that
/// is finished.
pub proof fn law_children_keep_pace(state: FlowState, children: Seq<StyledElem>, i: nat)
    ensures
        state.handle_children(children, i) matches Ok(next) ==> next.keeps_pace(state),
    decreases state.engine.route.depth_left() + 1, state.budget(), 15nat, children.len() - i, 0nat,
{
    reveal(FlowState::handle_children);
    reveal(FlowState::handle_children_def);
    reveal(FlowState::handle_child);
    if i < children.len() {
        let step = state.handle_child(children[i as int]);
        lemma_handle_child(state, children[i as int]);
        if step is Ok && step->Ok_0.follows(state) {
            let next = step->Ok_0;
            assert(state.handle_children(children, i) == next.handle_children(children, i + 1));
            law_children_keep_pace(next, children, i + 1);
        }
    }
}

/// Flushing the floats enters one region for every frame that is finished.
pub(crate) proof fn lemma_flush_floats(state: FlowState)
    ensures
        state.flush_floats() matches Ok(next) ==> next.keeps_pace(state),
    decreases state.engine.route.depth_left() + 1, state.budget(), 10nat, 0nat, 0nat,
{
    reveal(FlowState::flush_floats);
    reveal(FlowState::flush_floats_def);
    reveal(FlowState::finish_region);
    if state.pending_floats.len() > 0 {
        let step = state.finish_region(false);
        law_finishing_keeps_pace(state, false);
        if step is Ok && step->Ok_0.passes(state) {
            let next = step->Ok_0;
            assert(state.flush_floats() == next.flush_floats());
            lemma_flush_floats(next);
        }
    }
}

/// Filling the backlog enters one region for every frame that is finished.
pub(crate) proof fn lemma_finish_backlog(state: FlowState)
    ensures
        state.finish_backlog() matches Ok(next) ==> next.keeps_pace(state),
    decreases state.engine.route.depth_left() + 1, state.budget(), 10nat, 0nat, 0nat,
{
    reveal(FlowState::finish_backlog);
    reveal(FlowState::finish_backlog_def);
    reveal(FlowState::finish_region);
    if state.regions.backlog.len() > 0 {
        let step = state.finish_region(true);
        law_finishing_keeps_pace(state, true);
        if step is Ok && step->Ok_0.passes(state) {
            let next = step->Ok_0;
            assert(state.finish_backlog() == next.finish_backlog());
            lemma_finish_backlog(next);
        }
    }
}

/// Finishing the items that are left enters one region for every frame
/// that is finished.
pub(crate) proof fn lemma_finish_items(state: FlowState)
    ensures
        state.finish_items() matches Ok(next) ==> next.keeps_pace(state),
    decreases state.engine.route.depth_left() + 1, state.budget(), 10nat, 0nat, 0nat,
{
    reveal(FlowState::finish_items);
    reveal(FlowState::finish_items_def);
    reveal(FlowState::finish_region);
    if state.items.len() > 0 {
        let step = state.finish_region(true);
        law_finishing_keeps_pace(state, true);
        if step is Ok && step->Ok_0.passes(state) {
            let next = step->Ok_0;
            assert(state.finish_items() == next.finish_items());
            lemma_finish_items(next);
        }
    }
}

/// Migrating until a height fits enters one region for every frame that is
/// finished.
pub(crate) proof fn lemma_migrate_until_fits(state: FlowState, height: Abs)
    ensures
        state.migrate_until_fits(height) matches Ok(next) ==> next.keeps_pace(state),
    decreases state.engine.route.depth_left() + 1, state.budget(), 10nat, 0nat, 0nat,
{
    reveal(FlowState::migrate_until_fits);
    reveal(FlowState::migrate_until_fits_def);
    reveal(FlowState::finish_region_with_migration);
    if !state.regions.size.y.fits(height) && !state.regions.in_last() {
        let step = state.finish_region_with_migration();
        lemma_finish_region_with_migration(state);
        if step is Ok && step->Ok_0.state.passes(state) {
            let migrated = step->Ok_0;
            if !migrated.in_last {
                assert(state.migrate_until_fits(height) == migrated.state.migrate_until_fits(
                    height,
                ));
                lemma_migrate_until_fits(migrated.state, height);
            }
        }
    }
}

/// Placing the frames of an entry enters one region for every frame that
/// is finished.
pub(crate) proof fn lemma_place_entry(
    state: FlowState,
    notes: Seq<Content>,
    frames: Seq<FrameView>,
    i: nat,
)
    ensures
        state.place_entry(notes, frames, i) matches Ok(next) ==> next.state.keeps_pace(state),
    decreases state.engine.route.depth_left() + 1, state.budget(), 2nat, frames.len() - i + 1, 0nat,
{
    reveal(FlowState::place_entry);
    reveal(FlowState::place_entry_def);
    reveal(FlowState::continue_entry);
    if i < frames.len() {
        let frame = frames[i as int];
        if i > 0 {
            lemma_continue_entry(state);
        }
        let entered = if i > 0 {
            state.after(state.continue_entry())
        } else {
            Ok(state)
        };
        if entered is Ok {
            let placed = entered->Ok_0.spend(frame.size.y).push(FlowItemView::Footnote(frame));
            assert(state.place_entry(notes, frames, i) == placed.place_entry(
                collect_footnotes(notes, frame),
                frames,
                i + 1,
            ));
            lemma_place_entry(placed, collect_footnotes(notes, frame), frames, i + 1);
        }
    }
}

/// Handling the notes enters one region for every frame that is finished.
pub(crate) proof fn lemma_footnotes_from(
    state: FlowState,
    snapshot: Snapshot,
    notes: Seq<Content>,
    k: nat,
    force: bool,
)
    requires
        snapshot.size.x == state.regions.size.x,
    ensures
        state.footnotes_from(snapshot, notes, k, force) matches Ok(next)
            ==> next.state.keeps_pace(state),
    decreases state.engine.route.depth_left() + 1, state.budget(), 4nat, usize::MAX - k, 0nat,
{
    reveal(FlowState::footnotes_from);
    reveal(FlowState::footnotes_from_def);
    reveal(FlowState::handle_footnote);
    if k < notes.len() && notes.len() <= usize::MAX {
        let body = note_body(notes[k as int]);
        if body is None {
            lemma_footnotes_from(state, snapshot, notes, k + 1, force);
        } else {
            let step = state.handle_footnote(snapshot, notes, k, body->Some_0, force);
            lemma_handle_footnote(state, snapshot, notes, k, body->Some_0, force);
            if step is Ok && step->Ok_0.state.follows(state) && step->Ok_0.fit {
                let done = step->Ok_0;
                assert(state.footnotes_from(snapshot, notes, k, force)
                    == done.state.footnotes_from(snapshot, done.notes, k + 1, force));
                lemma_footnotes_from(done.state, snapshot, done.notes, k + 1, force);
            }
        }
    }
}

} // verus!
